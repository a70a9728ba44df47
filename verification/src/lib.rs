//! Reads the central directory of zip files.
//!
//! `archive::Archive::read` reads a file that is in memory. `reader::ArchiveReader` does the same
//! for a caller that does the I/O: it says where it wants bytes from, and takes what it is given.
//!
//! What the functions do is stated in their contracts over views: mathematical values with the
//! same fields as the executable types, and sequences in place of vectors and strings. What the
//! views have to do with the bytes of a file, and with each other, is proved in the modules
//! `written` and `extra_written` and in those whose names end in `laws`.
pub mod api_laws;
pub mod archive;
pub mod archive_laws;
pub mod buffer;
pub mod bytes;
pub mod charset;
pub mod dates;
pub mod directory;
pub mod encoding;
pub mod entry_laws;
pub mod eocd;
pub mod error;
pub mod extra;
pub mod extra_written;
pub mod laws;
pub mod reader;
pub mod reader_laws;
pub mod types;
pub mod whole_file;
pub mod written;
