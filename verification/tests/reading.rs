//! Whole zip files, from bytes to archives.
use rc_zip::archive::Archive;
use rc_zip::encoding::Encoding;
use rc_zip::error::{DecodingError, Error, FormatError, IoErrorKind};
use rc_zip::extra::ExtraField;
use rc_zip::reader::{ArchiveReader, ArchiveReaderResult};
use rc_zip::types::Method;

fn put16(out: &mut Vec<u8>, v: u16) {
    out.extend(v.to_le_bytes());
}

fn put32(out: &mut Vec<u8>, v: u32) {
    out.extend(v.to_le_bytes());
}

fn put64(out: &mut Vec<u8>, v: u64) {
    out.extend(v.to_le_bytes());
}

#[derive(Clone)]
struct Header {
    flags: u16,
    method: u16,
    time: u16,
    date: u16,
    compressed_size: u32,
    uncompressed_size: u32,
    header_offset: u32,
    name: Vec<u8>,
    extra: Vec<u8>,
    comment: Vec<u8>,
}

fn file(name: &[u8]) -> Header {
    Header {
        flags: 0,
        method: 0,
        time: 0,
        date: 0x21,
        compressed_size: 5,
        uncompressed_size: 5,
        header_offset: 0,
        name: name.to_vec(),
        extra: vec![],
        comment: vec![],
    }
}

fn directory(headers: &[Header]) -> Vec<u8> {
    let mut out = vec![];
    for h in headers {
        out.extend(b"PK\x01\x02");
        put16(&mut out, 0x031e);
        put16(&mut out, 20);
        put16(&mut out, h.flags);
        put16(&mut out, h.method);
        put16(&mut out, h.time);
        put16(&mut out, h.date);
        put32(&mut out, 0xcafe_f00d);
        put32(&mut out, h.compressed_size);
        put32(&mut out, h.uncompressed_size);
        put16(&mut out, h.name.len() as u16);
        put16(&mut out, h.extra.len() as u16);
        put16(&mut out, h.comment.len() as u16);
        put16(&mut out, 0);
        put16(&mut out, 1);
        put32(&mut out, 0x81a4_0000);
        put32(&mut out, h.header_offset);
        out.extend(&h.name);
        out.extend(&h.extra);
        out.extend(&h.comment);
    }
    out
}

fn end_record(records: u16, size: u32, offset: u32, comment: &[u8]) -> Vec<u8> {
    let mut out = b"PK\x05\x06".to_vec();
    put16(&mut out, 0);
    put16(&mut out, 0);
    put16(&mut out, records);
    put16(&mut out, records);
    put32(&mut out, size);
    put32(&mut out, offset);
    put16(&mut out, comment.len() as u16);
    out.extend(comment);
    out
}

/// A zip file: some data, the directory and the end record.
fn zip(data: &[u8], headers: &[Header], comment: &[u8]) -> Vec<u8> {
    let dir = directory(headers);
    let mut out = data.to_vec();
    out.extend(&dir);
    out.extend(end_record(headers.len() as u16, dir.len() as u32, data.len() as u32, comment));
    out
}

fn zip64_record(records: u64, size: u64, offset: u64) -> Vec<u8> {
    let mut out = b"PK\x06\x06".to_vec();
    put64(&mut out, 44);
    put16(&mut out, 45);
    put16(&mut out, 45);
    put32(&mut out, 0);
    put32(&mut out, 0);
    put64(&mut out, records);
    put64(&mut out, records);
    put64(&mut out, size);
    put64(&mut out, offset);
    out
}

fn locator(offset: u64) -> Vec<u8> {
    let mut out = b"PK\x06\x07".to_vec();
    put32(&mut out, 0);
    put64(&mut out, offset);
    put32(&mut out, 1);
    out
}

/// A zip64 file, in which only the zip64 record says where the directory is.
fn zip64(data: &[u8], headers: &[Header], records: u64) -> Vec<u8> {
    let dir = directory(headers);
    let mut out = data.to_vec();
    out.extend(&dir);
    let at = out.len() as u64;
    out.extend(zip64_record(records, dir.len() as u64, data.len() as u64));
    out.extend(locator(at));
    out.extend(end_record(0xffff, 0xffff_ffff, 0xffff_ffff, b""));
    out
}

fn read(bytes: &[u8]) -> Result<Archive, Error> {
    Archive::read(bytes, bytes.len() as u64)
}

fn names(archive: &Archive) -> Vec<String> {
    archive.entries().iter().map(|e| e.name().clone()).collect()
}

#[test]
fn a_file_with_one_entry_is_read() {
    let mut h = file(b"dir/hello.txt");
    h.method = 8;
    h.time = (13 << 11) | (37 << 5) | 21;
    h.date = (39 << 9) | (7 << 5) | 20;
    h.compressed_size = 17;
    h.uncompressed_size = 40;
    h.header_offset = 3;
    h.comment = b"greeting".to_vec();
    let archive = read(&zip(b"local data", &[h], b"")).unwrap();
    assert_eq!(archive.encoding(), Encoding::Utf8);
    assert_eq!(archive.comment(), None);
    assert_eq!(archive.entries().len(), 1);
    let e = &archive.entries()[0];
    assert_eq!(e.name(), "dir/hello.txt");
    assert_eq!(e.entry.method, Method::Deflate);
    assert_eq!(e.entry.comment.as_deref(), Some("greeting"));
    // July 20, 2019, 13:37:42
    assert_eq!(e.entry.modified.secs, 1_563_629_862);
    assert_eq!(e.entry.modified.nanos, 0);
    assert_eq!(e.entry.created, None);
    assert_eq!(e.entry.accessed, None);
    assert_eq!(e.creator_version, 0x031e);
    assert_eq!(e.reader_version, 20);
    assert_eq!(e.flags, 0);
    assert_eq!(e.crc32, 0xcafe_f00d);
    assert_eq!(e.compressed_size, 17);
    assert_eq!(e.uncompressed_size, 40);
    assert_eq!(e.header_offset, 3);
    assert_eq!(e.uid, None);
    assert_eq!(e.gid, None);
    assert!(e.extra_fields.is_empty());
    assert_eq!(e.external_attrs, 0x81a4_0000);
}

#[test]
fn an_empty_archive_is_read() {
    let bytes = zip(b"", &[], b"hi");
    let archive = read(&bytes).unwrap();
    assert!(archive.entries().is_empty());
    assert_eq!(archive.comment().map(|c| c.as_str()), Some("hi"));
    assert_eq!(archive.encoding(), Encoding::Utf8);
}

#[test]
fn entries_keep_the_order_of_the_directory() {
    let headers: Vec<Header> =
        (0..40).map(|i| file(format!("file-{}", (i * 7) % 40).as_bytes())).collect();
    let archive = read(&zip(b"xyz", &headers, b"")).unwrap();
    let expected: Vec<String> = (0..40).map(|i| format!("file-{}", (i * 7) % 40)).collect();
    assert_eq!(names(&archive), expected);
}

#[test]
fn the_first_entry_with_a_name_is_found() {
    let mut headers = vec![file(b"a"), file(b"b"), file(b"b"), file(b"c")];
    headers[1].uncompressed_size = 111;
    headers[2].uncompressed_size = 222;
    let archive = read(&zip(b"", &headers, b"")).unwrap();
    assert_eq!(archive.by_name("b").unwrap().uncompressed_size, 111);
    assert_eq!(archive.by_name("c").unwrap().name(), "c");
    assert!(archive.by_name("d").is_none());
    assert!(archive.by_name("").is_none());
}

#[test]
fn padding_before_the_archive_is_skipped() {
    let plain = zip(b"data", &[file(b"one"), file(b"two")], b"");
    for n in [1usize, 19, 20, 1000, 70_000, 200_000] {
        let mut bytes = vec![0x7f; n];
        bytes.extend(&plain);
        let archive = read(&bytes).unwrap();
        assert_eq!(names(&archive), ["one", "two"]);
    }
}

#[test]
fn bytes_behind_the_archive_are_skipped() {
    let mut bytes = zip(b"data", &[file(b"one")], b"");
    bytes.extend(vec![0x20; 66_000]);
    assert_eq!(names(&read(&bytes).unwrap()), ["one"]);
    bytes.extend(vec![0x20; 1_000]);
    assert_eq!(
        read(&bytes).unwrap_err(),
        Error::Format(FormatError::DirectoryEndSignatureNotFound)
    );
}

#[test]
fn the_last_end_record_counts() {
    let mut bytes = zip(b"data", &[file(b"old")], b"");
    bytes.extend(zip(b"", &[file(b"new")], b""));
    assert_eq!(names(&read(&bytes).unwrap()), ["new"]);
    // one that is cut off does not
    let mut bytes = zip(b"data", &[file(b"old")], b"");
    bytes.extend(&end_record(9, 9, 9, b"comment")[..25]);
    assert_eq!(names(&read(&bytes).unwrap()), ["old"]);
}

#[test]
fn a_zip64_archive_is_read() {
    let bytes = zip64(b"some data", &[file(b"one"), file(b"two")], 2);
    assert_eq!(names(&read(&bytes).unwrap()), ["one", "two"]);
}

#[test]
fn a_broken_zip64_record_is_refused() {
    let mut bytes = zip64(b"some data", &[file(b"one")], 1);
    let at = bytes.len() - 22 - 20 - 56;
    bytes[at] = b'Q';
    assert_eq!(
        read(&bytes).unwrap_err(),
        Error::Format(FormatError::Directory64EndRecordInvalid)
    );
}

#[test]
fn a_zip64_record_outside_of_the_file_is_refused() {
    let mut bytes = vec![0u8; 30];
    bytes.extend(locator(1 << 40));
    bytes.extend(end_record(0, 0, 0, b""));
    assert_eq!(read(&bytes).unwrap_err(), Error::IO(IoErrorKind::UnexpectedEof));
}

#[test]
fn zip64_values_replace_saturated_ones() {
    let mut h = file(b"big");
    h.compressed_size = u32::MAX;
    h.uncompressed_size = u32::MAX;
    h.header_offset = u32::MAX;
    h.extra = b"\x01\0\x18\0".to_vec();
    put64(&mut h.extra, 10 << 32);
    put64(&mut h.extra, 11 << 32);
    put64(&mut h.extra, 12 << 32);
    let archive = read(&zip(b"", &[h], b"")).unwrap();
    let e = &archive.entries()[0];
    assert_eq!(e.uncompressed_size, 10 << 32);
    assert_eq!(e.compressed_size, 11 << 32);
    assert_eq!(e.header_offset, 12 << 32);
    assert_eq!(e.extra_fields.len(), 1);
}

#[test]
fn zip64_values_are_there_only_for_saturated_ones() {
    for k in 0..3 {
        let mut h = file(b"big");
        h.extra = b"\x01\0\x08\0".to_vec();
        put64(&mut h.extra, 77 << 32);
        match k {
            0 => h.uncompressed_size = u32::MAX,
            1 => h.compressed_size = u32::MAX,
            _ => h.header_offset = u32::MAX,
        }
        let archive = read(&zip(b"", &[h], b"")).unwrap();
        let e = &archive.entries()[0];
        let got = [e.uncompressed_size, e.compressed_size, e.header_offset];
        let mut expected = [5, 5, 0];
        expected[k] = 77 << 32;
        assert_eq!(got, expected);
    }
    // a value that has room is kept, whatever a zip64 field holds
    let mut h = file(b"small");
    h.extra = b"\x01\0\x08\0".to_vec();
    put64(&mut h.extra, 77 << 32);
    let archive = read(&zip(b"", &[h], b"")).unwrap();
    assert_eq!(archive.entries()[0].uncompressed_size, 5);
}

#[test]
fn the_last_zip64_field_counts() {
    let mut h = file(b"big");
    h.uncompressed_size = u32::MAX;
    for v in [1u64, 2] {
        h.extra.extend(b"\x01\0\x08\0");
        put64(&mut h.extra, v << 40);
    }
    let archive = read(&zip(b"", &[h], b"")).unwrap();
    assert_eq!(archive.entries()[0].uncompressed_size, 2 << 40);
}

fn unix_field(mtime: u32, uid: u16, gid: u16) -> Vec<u8> {
    let mut out = b"\x0d\0\x0e\0\x0c\0".to_vec();
    put32(&mut out, 1);
    put32(&mut out, mtime);
    put16(&mut out, uid);
    put16(&mut out, gid);
    out
}

fn new_unix_field(uid: u32, gid: u16) -> Vec<u8> {
    let mut out = b"ux\x09\0\x01\x04".to_vec();
    put32(&mut out, uid);
    out.push(2);
    put16(&mut out, gid);
    out
}

#[test]
fn new_unix_owners_win_over_unix_owners() {
    for order in 0..2 {
        let mut h = file(b"f");
        if order == 0 {
            h.extra.extend(unix_field(0, 1, 2));
        }
        h.extra.extend(new_unix_field(1000, 2000));
        if order == 1 {
            h.extra.extend(unix_field(0, 1, 2));
        }
        let archive = read(&zip(b"", &[h], b"")).unwrap();
        assert_eq!(archive.entries()[0].uid, Some(1000));
        assert_eq!(archive.entries()[0].gid, Some(2000));
    }
}

#[test]
fn owners_keep_their_low_32_bits() {
    let mut h = file(b"f");
    h.extra.extend(b"ux\x13\0\x01\x08");
    put64(&mut h.extra, (5 << 32) + 6);
    h.extra.push(8);
    put64(&mut h.extra, (7 << 32) + 8);
    let archive = read(&zip(b"", &[h], b"")).unwrap();
    assert_eq!(archive.entries()[0].uid, Some(6));
    assert_eq!(archive.entries()[0].gid, Some(8));
}

#[test]
fn the_first_unix_owner_counts() {
    let mut h = file(b"f");
    h.extra.extend(unix_field(0, 1, 2));
    h.extra.extend(unix_field(0, 3, 4));
    let archive = read(&zip(b"", &[h], b"")).unwrap();
    assert_eq!(archive.entries()[0].uid, Some(1));
    assert_eq!(archive.entries()[0].gid, Some(2));
}

#[test]
fn extra_fields_set_the_times() {
    let mut h = file(b"f");
    h.extra.extend(b"UT\x05\0\x01");
    put32(&mut h.extra, 1_000_000_000);
    let archive = read(&zip(b"", &[h.clone()], b"")).unwrap();
    assert_eq!(archive.entries()[0].entry.modified.secs, 1_000_000_000);

    // a later field overrides
    h.extra.extend(unix_field(1_234_567_890, 0, 0));
    let archive = read(&zip(b"", &[h.clone()], b"")).unwrap();
    assert_eq!(archive.entries()[0].entry.modified.secs, 1_234_567_890);

    h.extra.extend(b"\x0a\0\x20\0\0\0\0\0\x01\0\x18\0");
    // Unix epoch, plus one, two and three ticks
    put64(&mut h.extra, 116_444_736_000_000_001);
    put64(&mut h.extra, 116_444_736_000_000_002);
    put64(&mut h.extra, 116_444_736_000_000_003);
    let archive = read(&zip(b"", &[h], b"")).unwrap();
    let e = &archive.entries()[0].entry;
    assert_eq!((e.modified.secs, e.modified.nanos), (0, 100));
    assert_eq!(e.accessed.map(|t| (t.secs, t.nanos)), Some((0, 200)));
    assert_eq!(e.created.map(|t| (t.secs, t.nanos)), Some((0, 300)));
    assert_eq!(archive.entries()[0].extra_fields.len(), 3);
}

#[test]
fn a_date_that_does_not_exist_becomes_the_epoch() {
    let mut h = file(b"f");
    h.date = (39 << 9) | (2 << 5) | 30;
    let archive = read(&zip(b"", &[h], b"")).unwrap();
    let m = archive.entries()[0].entry.modified;
    assert_eq!((m.secs, m.nanos), (0, 0));
}

#[test]
fn a_broken_extra_field_is_refused() {
    let mut h = file(b"f");
    h.extra = b"zz\x05\0abc".to_vec();
    assert_eq!(
        read(&zip(b"", &[h.clone()], b"")).unwrap_err(),
        Error::Format(FormatError::InvalidExtraField)
    );
    // a known tag with a payload that does not fit is no error
    h.extra = b"UT\x01\0\x01".to_vec();
    let archive = read(&zip(b"", &[h], b"")).unwrap();
    assert!(matches!(archive.entries()[0].extra_fields[0], ExtraField::Unknown { tag: 0x5455 }));
}

#[test]
fn extra_fields_of_two_parts_are_joined() {
    let mut h = file(b"f");
    h.extra = b"aa\0\0".to_vec();
    h.extra.extend(b"bb\x01\0!");
    let archive = read(&zip(b"", &[h], b"")).unwrap();
    let tags: Vec<u16> = archive.entries()[0]
        .extra_fields
        .iter()
        .map(|f| match f {
            ExtraField::Unknown { tag } => *tag,
            _ => 0,
        })
        .collect();
    assert_eq!(tags, [0x6161, 0x6262]);
}

#[test]
fn a_file_without_an_end_record_is_refused() {
    assert_eq!(
        read(&[0u8; 100]).unwrap_err(),
        Error::Format(FormatError::DirectoryEndSignatureNotFound)
    );
    assert_eq!(
        read(&[0u8; 19]).unwrap_err(),
        Error::Format(FormatError::DirectoryEndSignatureNotFound)
    );
}

#[test]
fn a_directory_outside_of_the_file_is_refused() {
    // neither the recorded offset nor the computed one is within the file
    let mut bytes = vec![0u8; 50];
    bytes.extend(end_record(1, 1000, 5000, b""));
    assert_eq!(
        read(&bytes).unwrap_err(),
        Error::Format(FormatError::DirectoryOffsetPointsOutsideFile)
    );
    // also where there is no room for a locator
    let bytes = end_record(1, 1000, 5000, b"");
    assert_eq!(
        read(&bytes).unwrap_err(),
        Error::Format(FormatError::DirectoryOffsetPointsOutsideFile)
    );
}

#[test]
fn a_wrong_number_of_headers_is_refused() {
    let dir = directory(&[file(b"one")]);
    let mut bytes = dir.clone();
    bytes.extend(end_record(2, dir.len() as u32, 0, b""));
    assert_eq!(read(&bytes).unwrap_err(), Error::Format(FormatError::InvalidCentralRecord));
}

#[test]
fn a_file_that_is_too_short_is_refused() {
    let bytes = zip(b"data", &[file(b"one")], b"");
    assert_eq!(
        Archive::read(&bytes, bytes.len() as u64 + 10).unwrap_err(),
        Error::IO(IoErrorKind::UnexpectedEof)
    );
    assert_eq!(Archive::read(b"", 5).unwrap_err(), Error::IO(IoErrorKind::UnexpectedEof));
}

#[test]
fn a_directory_larger_than_the_buffer_is_refused() {
    let fits: Vec<Header> = (0..2000).map(|i| file(format!("{:019}", i).as_bytes())).collect();
    let bytes = zip(b"", &fits, b"");
    assert!(directory(&fits).len() < 128 * 1024);
    assert_eq!(read(&bytes).unwrap().entries().len(), 2000);

    let large: Vec<Header> = (0..2100).map(|i| file(format!("{:019}", i).as_bytes())).collect();
    let bytes = zip(b"", &large, b"");
    assert!(directory(&large).len() > 128 * 1024);
    assert_eq!(read(&bytes).unwrap_err(), Error::IO(IoErrorKind::UnexpectedEof));
}

#[test]
fn only_the_low_16_bits_of_the_number_of_headers_count() {
    // a reader that is never given more than it can take has no limit on the directory
    let count = 65_536usize + 3;
    let dir = directory(&vec![file(b"x"); count]);
    let mut bytes = dir.clone();
    bytes.extend(end_record(3, dir.len() as u32, 0, b""));
    let mut ar = ArchiveReader::new(bytes.len() as u64);
    let archive = loop {
        if let Some(offset) = ar.wants_read() {
            let at = offset as usize;
            let n = ar.available_space().min(bytes.len() - at);
            assert_eq!(ar.read(&bytes[at..at + n]), n);
        }
        match ar.process().unwrap() {
            ArchiveReaderResult::Continue => {}
            ArchiveReaderResult::Done(archive) => break archive,
        }
    };
    assert_eq!(archive.entries().len(), count);
}

#[test]
fn archive_comments_are_decoded() {
    let archive = read(&zip(b"", &[file(b"a")], "caf\u{e9}".as_bytes())).unwrap();
    assert_eq!(archive.comment().map(|c| c.as_str()), Some("caf\u{e9}"));
    assert_eq!(
        read(&zip(b"", &[file(b"a")], b"caf\x82")).unwrap_err(),
        Error::Encoding(DecodingError::Utf8)
    );
}

#[test]
fn names_in_codepage_437_are_recognized() {
    let archive = read(&zip(b"", &[file(b"caf\x82"), file(b"plain")], b"")).unwrap();
    assert_eq!(archive.encoding(), Encoding::Cp437);
    assert_eq!(names(&archive), ["caf\u{e9}", "plain"]);
}

#[test]
fn names_in_shift_jis_are_recognized() {
    let text = "\u{306f}\u{3058}\u{3081}\u{307e}\u{3057}\u{3066}\u{65e5}\u{672c}\u{8a9e}\u{306e}\
                \u{30c6}\u{30ad}\u{30b9}\u{30c8}\u{3067}\u{3059}.txt";
    let (bytes, _, _) = encoding_rs::SHIFT_JIS.encode(text);
    let archive = read(&zip(b"", &[file(&bytes)], b"")).unwrap();
    assert_eq!(archive.encoding(), Encoding::ShiftJis);
    assert_eq!(names(&archive), [text]);
}

#[test]
fn unmarked_utf8_names_are_recognized() {
    let text = "\u{306f}\u{3058}\u{3081}\u{307e}\u{3057}\u{3066}.txt";
    let archive = read(&zip(b"", &[file(text.as_bytes())], b"")).unwrap();
    assert_eq!(archive.encoding(), Encoding::Utf8);
    assert_eq!(names(&archive), [text]);
}

#[test]
fn marked_utf8_names_are_trusted() {
    let mut h = file("\u{e9}".as_bytes());
    h.flags = 0x800;
    let archive = read(&zip(b"", &[h], b"")).unwrap();
    assert_eq!(archive.encoding(), Encoding::Utf8);
    assert_eq!(names(&archive), ["\u{e9}"]);
}

#[test]
fn names_with_escapes_are_in_codepage_437() {
    for name in [&b"a\x1bb"[..], b"\x1b$B0!\x1b(B"] {
        let archive = read(&zip(b"", &[file(name)], b"")).unwrap();
        assert_eq!(archive.encoding(), Encoding::Cp437);
    }
}

#[test]
fn nothing_behind_a_large_sample_is_looked_at() {
    let text = "\u{306f}\u{3058}\u{3081}\u{307e}\u{3057}\u{3066}\u{65e5}\u{672c}\u{8a9e}";
    let (jis, _, _) = encoding_rs::SHIFT_JIS.encode(text);
    // the first name is not in UTF-8, as it has a backslash, and fills the sample with ASCII
    let mut filler = vec![b'x'; 4095];
    filler.push(b'\\');
    let archive = read(&zip(b"", &[file(&filler), file(&jis)], b"")).unwrap();
    assert_eq!(archive.encoding(), Encoding::Cp437);
    // with one byte less the second name is looked at too
    let archive = read(&zip(b"", &[file(&filler[1..]), file(&jis)], b"")).unwrap();
    assert_eq!(archive.encoding(), Encoding::ShiftJis);
}

#[test]
fn a_directory_that_does_not_end_in_the_file_is_cut_off() {
    // the computed offset is not in the file, so that the recorded one counts
    let mut bytes = directory(&[file(b"one")]);
    bytes.extend(end_record(1, 9_999, 0, b""));
    assert_eq!(read(&bytes).unwrap_err(), Error::IO(IoErrorKind::UnexpectedEof));
    // unless there is no header to begin with
    let mut bytes = b"nothing like a header".to_vec();
    bytes.extend(end_record(0, 9_999, 0, b""));
    assert!(read(&bytes).unwrap().entries().is_empty());
}
