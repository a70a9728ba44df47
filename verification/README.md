# rc_zip

A verified reader for the central directory of zip files, written in Verus.

- `src/bytes.rs`, `src/error.rs`, `src/types.rs`: integers, errors, entries
- `src/dates.rs`: points in time, by way of chrono
- `src/encoding.rs`, `src/charset.rs`: text encodings, and guessing the one of an archive
- `src/extra.rs`, `src/directory.rs`: extra fields and the headers of the central directory
- `src/eocd.rs`: the records at the end of a file that say where the directory is
- `src/buffer.rs`, `src/reader.rs`: the state machine that reads a directory without doing I/O
- `src/archive.rs`: archives, and reading one that is in memory
- `src/whole_file.rs`, `src/laws.rs`: what reading a file comes to, and what holds of the library
  as a whole
- `app/`: reading from anything that can be read at an offset

Calls into other crates stand in small functions whose contracts are trusted; each says so in its
comment.
