//! The parts of the library on their own.
use chrono::TimeZone;

use rc_zip::buffer::Buffer;
use rc_zip::charset::{detect_encoding, encoding_for_charset, encoding_for_label};
use rc_zip::dates::{unix_seconds, zero_datetime, MsdosTimestamp, NtfsTimestamp, Timestamp};
use rc_zip::directory::DirectoryHeader;
use rc_zip::encoding::{detect_utf8, Encoding};
use rc_zip::eocd::{
    EndOfCentralDirectory, EndOfCentralDirectory64Record, EndOfCentralDirectoryRecord, Located,
};
use rc_zip::error::{DecodingError, Error, FormatError, IoErrorKind};
use rc_zip::reader::{ArchiveReader, ArchiveReaderResult};
use rc_zip::types::{Method, ZipBytes, ZipString};

fn msdos(year: u16, month: u16, day: u16, hour: u16, min: u16, sec: u16) -> Option<i64> {
    let t = MsdosTimestamp {
        time: (hour << 11) | (min << 5) | (sec / 2),
        date: ((year - 1980) << 9) | (month << 5) | day,
    };
    t.to_datetime().map(|t| t.secs)
}

#[test]
fn msdos_dates_count_from_the_epoch() {
    assert_eq!(msdos(1980, 1, 1, 0, 0, 0), Some(315_532_800));
    assert_eq!(msdos(2000, 2, 29, 12, 34, 56), Some(951_827_696));
    assert_eq!(msdos(2107, 12, 31, 23, 59, 58), Some(4_354_819_198));
    assert_eq!(msdos(2001, 2, 29, 0, 0, 0), None);
    assert_eq!(msdos(2100, 2, 29, 0, 0, 0), None);
    assert_eq!(msdos(2001, 0, 1, 0, 0, 0), None);
    assert_eq!(msdos(2001, 13, 1, 0, 0, 0), None);
    assert_eq!(msdos(2001, 4, 31, 0, 0, 0), None);
    assert_eq!(msdos(2001, 4, 0, 0, 0, 0), None);
    assert_eq!(msdos(2001, 4, 1, 24, 0, 0), None);
    assert_eq!(msdos(2001, 4, 1, 0, 60, 0), None);
    assert_eq!(msdos(2001, 4, 1, 0, 0, 60), None);
}

#[test]
fn every_ntfs_time_is_a_point_in_time() {
    let at = |timestamp: u64| NtfsTimestamp { timestamp }.to_datetime();
    assert_eq!(at(0), Some(Timestamp { secs: -11_644_473_600, nanos: 0 }));
    assert_eq!(at(116_444_736_000_000_000), Some(zero_datetime()));
    assert_eq!(at(116_444_736_012_345_678), Some(Timestamp { secs: 1, nanos: 234_567_800 }));
    assert_eq!(
        at(u64::MAX),
        Some(Timestamp { secs: 1_844_674_407_370 - 11_644_473_600, nanos: 955_161_500 })
    );
}

#[test]
fn unix_times_are_kept() {
    assert_eq!(unix_seconds(u32::MAX), Timestamp { secs: 4_294_967_295, nanos: 0 });
}

#[test]
fn ascii_text_is_the_same_in_all_encodings() {
    let all: Vec<u8> = (0..0x80).collect();
    let text: String = all.iter().map(|b| *b as char).collect();
    for encoding in [Encoding::Cp437, Encoding::Utf8, Encoding::ShiftJis] {
        assert_eq!(encoding.decode(&all).unwrap(), text);
        assert_eq!(encoding.decode(b"").unwrap(), "");
    }
}

#[test]
fn high_bytes_differ_between_encodings() {
    assert_eq!(Encoding::Cp437.decode(b"\x82\xa0").unwrap(), "\u{e9}\u{e1}");
    assert_eq!(Encoding::ShiftJis.decode(b"\x82\xa0").unwrap(), "\u{3042}");
    assert_eq!(Encoding::Utf8.decode(b"\x82\xa0"), Err(DecodingError::Utf8));
    assert_eq!(Encoding::ShiftJis.decode(b"\x82"), Err(DecodingError::Encoding));
    assert_eq!(Encoding::Utf8.decode(b"\xc3\xa9").unwrap(), "\u{e9}");
}

#[test]
fn ambiguous_bytes_require_utf8() {
    assert_eq!(detect_utf8(b"plain name.txt"), (true, false));
    assert_eq!(detect_utf8(b""), (true, false));
    assert_eq!(detect_utf8(b"back\\slash"), (true, true));
    assert_eq!(detect_utf8(b"a~b"), (true, true));
    assert_eq!(detect_utf8(b"a}b"), (true, false));
    assert_eq!(detect_utf8(b"\x1f"), (true, true));
    assert_eq!(detect_utf8("\u{e9}".as_bytes()), (true, true));
    assert_eq!(detect_utf8(b"\xff"), (false, false));
}

#[test]
fn labels_name_encodings() {
    assert_eq!(encoding_for_label("SHIFT_JIS"), Encoding::ShiftJis);
    assert_eq!(encoding_for_label("utf-8"), Encoding::Utf8);
    assert_eq!(encoding_for_label("UTF-8"), Encoding::Cp437);
    assert_eq!(encoding_for_label("windows-31j"), Encoding::Cp437);
    assert_eq!(encoding_for_label(""), Encoding::Cp437);
    assert_eq!(encoding_for_charset(&"SHIFT_JIS".to_string()), Encoding::ShiftJis);
    assert_eq!(encoding_for_charset(&"utf-8".to_string()), Encoding::Utf8);
    assert_eq!(encoding_for_charset(&"CP932".to_string()), Encoding::Cp437);
    assert_eq!(chardet::charset2encoding(&"CP932".to_string()), "windows-31j");
    assert_eq!(chardet::charset2encoding(&"CP949".to_string()), "windows-949");
    assert_eq!(chardet::charset2encoding(&"MacCyrillic".to_string()), "x-mac-cyrillic");
}

fn header(name: &[u8], comment: &[u8], flags: u16) -> DirectoryHeader {
    DirectoryHeader {
        creator_version: 0,
        reader_version: 0,
        flags,
        method: 99,
        modified: MsdosTimestamp { time: 0, date: 0 },
        crc32: 0,
        compressed_size: 0,
        uncompressed_size: 0,
        disk_nbr_start: 0,
        internal_attrs: 0,
        external_attrs: 0,
        header_offset: 0,
        name: ZipString::from_slice(name),
        extra: ZipBytes::from_slice(b""),
        comment: ZipString::from_slice(comment),
    }
}

#[test]
fn headers_are_checked_for_utf8() {
    assert!(!header(b"plain", b"", 0).is_non_utf8());
    assert!(header(b"\xff", b"", 0x800).is_non_utf8());
    assert!(header(b"", b"\xff", 0x800).is_non_utf8());
    assert!(header("\u{e9}".as_bytes(), b"", 0).is_non_utf8());
    assert!(header(b"", "\u{e9}".as_bytes(), 0xf7ff).is_non_utf8());
    assert!(!header("\u{e9}".as_bytes(), b"", 0x800).is_non_utf8());
    assert!(!header("\u{e9}".as_bytes(), b"", 0xffff).is_non_utf8());
}

#[test]
fn encodings_are_guessed_from_headers_that_are_not_in_utf8() {
    assert_eq!(detect_encoding(&[]), Encoding::Utf8);
    assert_eq!(detect_encoding(&[header(b"a", b"b", 0)]), Encoding::Utf8);
    assert_eq!(
        detect_encoding(&[header(b"a", b"b", 0), header(b"\x82", b"", 0)]),
        Encoding::Cp437
    );
}

#[test]
fn undecodable_headers_describe_no_entries() {
    assert_eq!(
        header(b"\x82", b"", 0).as_stored_entry(Encoding::Utf8).unwrap_err(),
        Error::Encoding(DecodingError::Utf8)
    );
    assert_eq!(
        header(b"a", b"\x82", 0).as_stored_entry(Encoding::ShiftJis).unwrap_err(),
        Error::Encoding(DecodingError::Encoding)
    );
    let e = header(b"a", b"", 0).as_stored_entry(Encoding::ShiftJis).unwrap();
    assert_eq!(e.entry.method, Method::Unsupported(99));
    assert_eq!(e.entry.comment, None);
    assert_eq!(e.entry.modified, zero_datetime());
}

#[test]
fn methods_have_numbers() {
    assert_eq!(Method::from(0), Method::Store);
    assert_eq!(Method::from(8), Method::Deflate);
    assert_eq!(Method::from(12), Method::Unsupported(12));
}

#[test]
fn empty_strings_are_no_option() {
    assert!(ZipString::from_slice(b"").as_option().is_none());
    assert_eq!(ZipString::from_slice(b"a").as_option().unwrap().0, b"a");
}

#[test]
fn buffers_hand_out_what_they_were_given() {
    let mut b = Buffer::with_capacity(10);
    assert_eq!(b.data(), b"");
    assert_eq!(b.space(), 10);
    assert_eq!(b.read(b"abcd"), 4);
    assert_eq!(b.read_bytes(), 4);
    assert_eq!(b.data(), b"abcd");
    assert_eq!(b.space(), 6);
    assert_eq!(b.consume(2), 2);
    assert_eq!(b.data(), b"cd");
    assert_eq!(b.space(), 6);
    // less is free than the data and what was written take: the data are shifted
    assert_eq!(b.read(b"efg"), 3);
    assert_eq!(b.data(), b"cdefg");
    assert_eq!(b.space(), 5);
    assert_eq!(b.read(b"hijklmnop"), 5);
    assert_eq!(b.data(), b"cdefghijkl");
    assert_eq!(b.space(), 0);
    assert_eq!(b.read(b"x"), 0);
    assert_eq!(b.read_bytes(), 12);
    // up to the half of the buffer nothing is shifted
    assert_eq!(b.consume(5), 5);
    assert_eq!(b.space(), 0);
    assert_eq!(b.consume(1), 1);
    assert_eq!(b.space(), 6);
    assert_eq!(b.data(), b"ijkl");
    assert_eq!(b.consume(100), 4);
    assert_eq!(b.data(), b"");
    b.reset();
    assert_eq!(b.space(), 10);
    assert_eq!(b.read_bytes(), 0);
}

#[test]
fn reading_and_consuming_in_parts_comes_to_the_same() {
    let mut a = Buffer::with_capacity(100);
    let mut b = Buffer::with_capacity(100);
    a.read(b"hello ");
    a.read(b"world");
    b.read(b"hello world");
    assert_eq!(a.data(), b.data());
    assert_eq!(a.read_bytes(), b.read_bytes());
    a.consume(2);
    a.consume(5);
    b.consume(7);
    assert_eq!(a.data(), b.data());
}

fn record(offset: u64, size: u32, directory_offset: u32) -> Located<EndOfCentralDirectoryRecord> {
    Located {
        offset,
        inner: EndOfCentralDirectoryRecord {
            disk_nbr: 0,
            dir_disk_nbr: 0,
            dir_records_this_disk: 3,
            directory_records: 3,
            directory_size: size,
            directory_offset,
            comment: ZipString::from_slice(b"c"),
        },
    }
}

fn record64(offset: u64, size: u64, at: u64) -> Option<Located<EndOfCentralDirectory64Record>> {
    Some(Located {
        offset,
        inner: EndOfCentralDirectory64Record {
            record_size: 44,
            creator_version: 45,
            reader_version: 45,
            disk_nbr: 0,
            dir_disk_nbr: 0,
            dir_records_this_disk: 7,
            directory_records: 7,
            directory_size: size,
            directory_offset: at,
        },
    })
}

#[test]
fn pure_archives_are_not_displaced() {
    let eocd = EndOfCentralDirectory::new(1000, record(900, 100, 800), None).unwrap();
    assert_eq!(eocd.global_offset, 0);
    assert_eq!(eocd.directory_offset(), 800);
    assert_eq!(eocd.directory_size(), 100);
    assert_eq!(eocd.directory_records(), 3);
    assert_eq!(eocd.located_directory_offset(), 900);
    assert_eq!(eocd.comment().0, b"c");
}

#[test]
fn padding_becomes_the_global_offset() {
    let eocd = EndOfCentralDirectory::new(1500, record(1400, 100, 800), None).unwrap();
    assert_eq!(eocd.global_offset, 500);
    assert_eq!(eocd.directory_offset(), 1300);
    // also in zip64 files, past 4 gigabytes
    let at = 5 << 32;
    let eocd =
        EndOfCentralDirectory::new(at + 600, record(at + 500, 1, 1), record64(at + 300, 100, at))
            .unwrap();
    assert_eq!(eocd.global_offset, 200);
    assert_eq!(eocd.directory_offset(), at + 200);
    assert_eq!(eocd.directory_records(), 7);
    assert_eq!(eocd.located_directory_offset(), at + 300);
    // and a directory that starts before the recorded offset
    let eocd = EndOfCentralDirectory::new(1000, record(500, 100, 800), None).unwrap();
    assert_eq!(eocd.global_offset, -400);
    assert_eq!(eocd.directory_offset(), 400);
}

#[test]
fn impossible_sizes_leave_the_recorded_offset() {
    let eocd = EndOfCentralDirectory::new(1000, record(500, 600, 10), None).unwrap();
    assert_eq!(eocd.global_offset, 0);
    assert_eq!(eocd.directory_offset(), 10);
    assert_eq!(
        EndOfCentralDirectory::new(1000, record(500, 600, 1000), None).unwrap_err(),
        Error::Format(FormatError::DirectoryOffsetPointsOutsideFile)
    );
}

#[test]
fn directory_offsets_can_be_set() {
    let mut eocd = EndOfCentralDirectory::new(1000, record(900, 100, 800), None).unwrap();
    eocd.set_directory_offset(7);
    assert_eq!(eocd.directory_offset(), 7);
    eocd.set_directory_offset((1 << 32) + 9);
    assert_eq!(eocd.directory_offset(), 9);
    let mut eocd =
        EndOfCentralDirectory::new(1000, record(990, 1, 1), record64(900, 100, 800)).unwrap();
    eocd.set_directory_offset((1 << 32) + 9);
    assert_eq!(eocd.directory_offset(), (1 << 32) + 9);
    assert_eq!(eocd.directory_size(), 100);
}

#[test]
fn the_last_record_of_a_block_is_found() {
    let one = b"PK\x05\x06\0\0\0\0\0\0\x01\0\0\0\0\0\0\0\0\0\0\0";
    let mut block = b"ab".to_vec();
    block.extend(one);
    block.extend(b"xyz");
    block.extend(one);
    block.extend(b"!!");
    let found = EndOfCentralDirectoryRecord::find_in_block(&block).unwrap();
    assert_eq!(found.offset, 27);
    assert_eq!(found.inner.directory_records, 1);
    let found = EndOfCentralDirectoryRecord::find_in_block(&block[..30]).unwrap();
    assert_eq!(found.offset, 2);
    assert!(EndOfCentralDirectoryRecord::find_in_block(&[0u8; 19]).is_none());
    // a comment that is cut off is no record
    let mut cut = one.to_vec();
    cut[20] = 1;
    assert!(EndOfCentralDirectoryRecord::find_in_block(&cut).is_none());
}

#[test]
fn readers_say_what_they_want() {
    let ar = ArchiveReader::new(100_000);
    assert_eq!(ar.wants_read(), Some(100_000 - 65 * 1024));
    assert_eq!(ar.available_space(), 128 * 1024);
    let mut ar = ArchiveReader::new(40);
    assert_eq!(ar.wants_read(), Some(0));
    assert_eq!(ar.read(&[0u8; 10]), 10);
    assert_eq!(ar.wants_read(), Some(10));
    assert!(matches!(ar.process(), Ok(ArchiveReaderResult::Continue)));
    assert_eq!(ar.wants_read(), Some(10));
    assert_eq!(ar.read(&[0u8; 30]), 30);
    assert_eq!(ar.wants_read(), None);
    // a step that fails changes nothing, and fails again
    for _ in 0..2 {
        assert_eq!(
            ar.process().unwrap_err(),
            Error::Format(FormatError::DirectoryEndSignatureNotFound)
        );
        assert_eq!(ar.wants_read(), None);
    }
}

#[test]
fn readers_go_through_their_states() {
    let mut tail = vec![0u8; 30];
    tail.extend(b"PK\x05\x06\0\0\0\0\0\0\0\0\0\0\0\0\x1e\0\0\0\0\0");
    let size = tail.len() as u64;
    let mut ar = ArchiveReader::new(size);
    assert!(matches!(ar.turn(Some(&tail)), Ok(ArchiveReaderResult::Continue)));
    // the locator would be right before the record
    assert_eq!(ar.wants_read(), Some(10));
    assert!(matches!(ar.turn(Some(&tail[10..])), Ok(ArchiveReaderResult::Continue)));
    // the directory is empty: nothing to read
    assert_eq!(ar.wants_read(), None);
    match ar.turn(None).unwrap() {
        ArchiveReaderResult::Done(archive) => assert!(archive.entries().is_empty()),
        ArchiveReaderResult::Continue => panic!("not done"),
    }
}

#[test]
fn turns_without_bytes_end_reading() {
    let mut ar = ArchiveReader::new(40);
    assert_eq!(ar.turn(Some(b"")).unwrap_err(), Error::IO(IoErrorKind::UnexpectedEof));
}

#[test]
fn the_calendar_covers_the_stated_seconds() {
    let at = |secs: i64| chrono::Utc.timestamp_opt(secs, 0).single().is_some();
    assert!(at(rc_zip::dates::MIN_SECS) && at(rc_zip::dates::MAX_SECS));
    assert!(!at(rc_zip::dates::MIN_SECS - 1) && !at(rc_zip::dates::MAX_SECS + 1));
}
