//! The parsers, held against the same grammars written with nom.
use nom::bytes::complete::{tag, take};
use nom::combinator::{cond, verify};
use nom::multi::{length_data, many0};
use nom::number::complete::{le_u16, le_u32, le_u64, le_u8};
use nom::sequence::{preceded, tuple};
use nom::IResult;

use rc_zip::dates::{MsdosTimestamp, NtfsTimestamp};
use rc_zip::directory::{zip_bytes, zip_string, DirectoryHeader};
use rc_zip::eocd::{
    EndOfCentralDirectory64Locator, EndOfCentralDirectory64Record, EndOfCentralDirectoryRecord,
};
use rc_zip::error::{ErrorKind, ParseError};
use rc_zip::extra::{
    ExtraField, ExtraFieldRecord, ExtraFieldSettings, ExtraNewUnixField, ExtraNtfsField,
    ExtraTimestampField, ExtraUnixField, ExtraZip64Field, NtfsAttr, NtfsAttr1,
};

fn kind(k: nom::error::ErrorKind) -> ErrorKind {
    match k {
        nom::error::ErrorKind::Tag => ErrorKind::Tag,
        nom::error::ErrorKind::Eof => ErrorKind::Eof,
        nom::error::ErrorKind::Verify => ErrorKind::Verify,
        nom::error::ErrorKind::OneOf => ErrorKind::OneOf,
        other => panic!("unexpected kind {:?}", other),
    }
}

fn outcome<T>(res: IResult<&[u8], T>) -> Result<(Vec<u8>, T), ParseError> {
    match res {
        Ok((rest, value)) => Ok((rest.to_vec(), value)),
        Err(nom::Err::Incomplete(nom::Needed::Size(n))) => Err(ParseError::Incomplete(n)),
        Err(nom::Err::Incomplete(nom::Needed::Unknown)) => panic!("unknown need"),
        Err(nom::Err::Error((_, k))) => Err(ParseError::Error(kind(k))),
        Err(nom::Err::Failure((_, k))) => Err(ParseError::Failure(kind(k))),
    }
}

fn own<T, U>(
    res: Result<(&[u8], T), ParseError>,
    f: fn(T) -> U,
) -> Result<(Vec<u8>, U), ParseError> {
    res.map(|(rest, value)| (rest.to_vec(), f(value)))
}

/// Byte strings that start with `start`, of many lengths and with many contents.
fn inputs(start: &[u8]) -> Vec<Vec<u8>> {
    let mut res = vec![];
    let mut state: u64 = 0x1234_5678_9abc_def1;
    for round in 0..40usize {
        for len in 0..90usize {
            let mut s = start.to_vec();
            if round % 10 == 9 && !s.is_empty() {
                s[round % start.len()] ^= 1;
            }
            for _ in 0..len {
                state ^= state << 13;
                state ^= state >> 7;
                state ^= state << 17;
                // mostly small numbers, so that lengths are met
                let b = (state >> 32) as u8;
                s.push(if round % 2 == 0 { b % 3 } else { b % (1 + (round as u8) * 5) });
            }
            if round % 10 == 8 {
                s.truncate(len % 8);
            }
            res.push(s);
        }
    }
    res
}

#[test]
fn end_records_parse_like_nom() {
    let mut parsed = 0;
    for s in inputs(b"PK\x05\x06") {
        let expected = outcome(preceded(
            tag("PK\x05\x06"),
            tuple((le_u16, le_u16, le_u16, le_u16, le_u32, le_u32, length_data(le_u16))),
        )(&s[..]))
        .map(|(rest, v)| (rest, (v.0, v.1, v.2, v.3, v.4, v.5, v.6.to_vec())));
        parsed += expected.is_ok() as usize;
        let res = own(EndOfCentralDirectoryRecord::parse(&s), |r| {
            (
                r.disk_nbr,
                r.dir_disk_nbr,
                r.dir_records_this_disk,
                r.directory_records,
                r.directory_size,
                r.directory_offset,
                r.comment.0,
            )
        });
        assert_eq!(res, expected);
    }
    assert!(parsed > 100);
}

#[test]
fn zip64_locators_parse_like_nom() {
    for s in inputs(b"PK\x06\x07") {
        let expected =
            outcome(preceded(tag("PK\x06\x07"), tuple((le_u32, le_u64, le_u32)))(&s[..]));
        let res = own(EndOfCentralDirectory64Locator::parse(&s), |l| {
            (l.dir_disk_number, l.directory_offset, l.total_disks)
        });
        assert_eq!(res, expected);
    }
}

#[test]
fn zip64_records_parse_like_nom() {
    for s in inputs(b"PK\x06\x06") {
        let expected = outcome(preceded(
            tag("PK\x06\x06"),
            tuple((le_u64, le_u16, le_u16, le_u32, le_u32, le_u64, le_u64, le_u64, le_u64)),
        )(&s[..]));
        let res = own(EndOfCentralDirectory64Record::parse(&s), |r| {
            (
                r.record_size,
                r.creator_version,
                r.reader_version,
                r.disk_nbr,
                r.dir_disk_nbr,
                r.dir_records_this_disk,
                r.directory_records,
                r.directory_size,
                r.directory_offset,
            )
        });
        assert_eq!(res, expected);
    }
}

type Numbers = ((u16, u16, u16, u16, u16, u16, u32, u32, u32), (u16, u16, u32, u32));

fn header_by_nom(s: &[u8]) -> IResult<&[u8], (Numbers, Vec<u8>, Vec<u8>, Vec<u8>)> {
    let (s, _) = tag("PK\x01\x02")(s)?;
    let (s, a) =
        tuple((le_u16, le_u16, le_u16, le_u16, le_u16, le_u16, le_u32, le_u32, le_u32))(s)?;
    let (s, lens) = tuple((le_u16, le_u16, le_u16))(s)?;
    let (s, b) = tuple((le_u16, le_u16, le_u32, le_u32))(s)?;
    let (s, texts) = tuple((take(lens.0), take(lens.1), take(lens.2)))(s)?;
    let (name, extra, comment): (&[u8], &[u8], &[u8]) = texts;
    Ok((s, ((a, b), name.to_vec(), extra.to_vec(), comment.to_vec())))
}

#[test]
fn directory_headers_parse_like_nom() {
    let mut parsed = 0;
    for mut s in inputs(b"PK\x01\x02") {
        for at in [29usize, 31, 33] {
            // lengths under 256
            if at < s.len() {
                s[at] = 0;
            }
        }
        let expected = outcome(header_by_nom(&s));
        parsed += expected.is_ok() as usize;
        let res = own(DirectoryHeader::parse(&s), |h| {
            (
                (
                    (
                        h.creator_version,
                        h.reader_version,
                        h.flags,
                        h.method,
                        h.modified.time,
                        h.modified.date,
                        h.crc32,
                        h.compressed_size,
                        h.uncompressed_size,
                    ),
                    (h.disk_nbr_start, h.internal_attrs, h.external_attrs, h.header_offset),
                ),
                h.name.0,
                h.extra.0,
                h.comment.0,
            )
        });
        assert_eq!(res, expected);
    }
    assert!(parsed > 50);
}

#[test]
fn taking_parsers_parse_like_nom() {
    for count in 0..12usize {
        let data = b"0123456789";
        let expected: Result<(Vec<u8>, Vec<u8>), ParseError> =
            outcome(take(count)(&data[..])).map(|(rest, v): (Vec<u8>, &[u8])| (rest, v.to_vec()));
        assert_eq!(own(zip_string(count)(&data[..]), |v| v.0), expected);
        assert_eq!(own(zip_bytes(count)(&data[..]), |v| v.0), expected);
    }
}

fn raw_by_nom(s: &[u8]) -> IResult<&[u8], (u16, &[u8])> {
    tuple((le_u16, length_data(le_u16)))(s)
}

#[test]
fn raw_extra_fields_parse_like_nom() {
    let mut cut = 0;
    for s in inputs(b"") {
        let expected = outcome(raw_by_nom(&s)).map(|(rest, v)| (rest, (v.0, v.1.to_vec())));
        cut += matches!(expected, Err(ParseError::Incomplete(_))) as usize;
        let res = own(ExtraFieldRecord::parse(&s), |r| (r.tag, r.payload.to_vec()));
        assert_eq!(res, expected);
    }
    assert!(cut > 10);
}

#[test]
fn zip64_fields_parse_like_nom() {
    for bits in 0..8u8 {
        let settings = ExtraFieldSettings {
            needs_uncompressed_size: bits & 1 != 0,
            needs_compressed_size: bits & 2 != 0,
            needs_header_offset: bits & 4 != 0,
        };
        for s in inputs(b"").into_iter().take(200) {
            let expected = outcome(tuple((
                cond(bits & 1 != 0, le_u64),
                cond(bits & 2 != 0, le_u64),
                cond(bits & 4 != 0, le_u64),
            ))(&s[..]));
            let res = own(ExtraZip64Field::parse(&s, &settings), |f| {
                (f.uncompressed_size, f.compressed_size, f.header_offset)
            });
            assert_eq!(res, expected);
        }
    }
}

#[test]
fn timestamp_fields_parse_like_nom() {
    for s in inputs(b"") {
        let expected =
            outcome(preceded(verify(le_u8, |x: &u8| x & 0b1 != 0), le_u32)(&s[..]));
        assert_eq!(own(ExtraTimestampField::parse(&s), |f| f.mtime), expected);
    }
}

fn unix_by_nom(s: &[u8]) -> IResult<&[u8], (u32, u32, u16, u16, Vec<u8>)> {
    let (s, size) = le_u16(s)?;
    let (s, v) =
        tuple((le_u32, le_u32, le_u16, le_u16, take(size.wrapping_sub(12))))(s)?;
    let data: &[u8] = v.4;
    Ok((s, (v.0, v.1, v.2, v.3, data.to_vec())))
}

#[test]
fn unix_fields_parse_like_nom() {
    for size in 0..40u8 {
        for s in inputs(&[size, 0]).into_iter().take(300) {
            let expected = outcome(unix_by_nom(&s));
            let res =
                own(ExtraUnixField::parse(&s), |f| (f.atime, f.mtime, f.uid, f.gid, f.data.0));
            assert_eq!(res, expected);
        }
    }
}

fn integer_by_nom(s: &[u8]) -> IResult<&[u8], u64> {
    let (s, slice) = length_data(le_u8)(s)?;
    let u = match slice.len() {
        1 => le_u8(slice)?.1 as u64,
        2 => le_u16(slice)?.1 as u64,
        4 => le_u32(slice)?.1 as u64,
        8 => le_u64(slice)?.1,
        _ => return Err(nom::Err::Failure((s, nom::error::ErrorKind::OneOf))),
    };
    Ok((s, u))
}

#[test]
fn new_unix_fields_parse_like_nom() {
    for size in 0..10u8 {
        for s in inputs(&[1, size]).into_iter().take(500) {
            let expected =
                outcome(preceded(tag("\x01"), tuple((integer_by_nom, integer_by_nom)))(&s[..]));
            assert_eq!(own(ExtraNewUnixField::parse(&s), |f| (f.uid, f.gid)), expected);
            let tail = &s[1.min(s.len())..];
            assert_eq!(
                own(ExtraNewUnixField::parse_variable_length_integer(tail), |u| u),
                outcome(integer_by_nom(tail))
            );
        }
    }
}

fn attr_by_nom(s: &[u8]) -> IResult<&[u8], (u16, Option<(u64, u64, u64)>)> {
    let (s, (number, payload)) = raw_by_nom(s)?;
    match number {
        1 => {
            let (s, times) = tuple((le_u64, le_u64, le_u64))(payload)?;
            Ok((s, (1, Some(times))))
        }
        _ => Ok((s, (number, None))),
    }
}

fn times(a: NtfsAttr1) -> (u64, u64, u64) {
    (a.mtime.timestamp, a.atime.timestamp, a.ctime.timestamp)
}

fn attr(a: NtfsAttr) -> (u16, Option<(u64, u64, u64)>) {
    match a {
        NtfsAttr::Attr1(t) => (1, Some(times(t))),
        NtfsAttr::Unknown { tag } => (tag, None),
    }
}

#[test]
fn ntfs_fields_parse_like_nom() {
    let mut with_times = 0;
    for start in [&b"\0\0\0\0"[..], b"\0\0\0\0\x01\0\x18\0", b"\0\0\0\0\x02\0\x01\0z\x01\0\x20\0"] {
        for s in inputs(start) {
            let expected = outcome(preceded(take(4usize), many0(attr_by_nom))(&s[..]));
            if let Ok((_, attrs)) = &expected {
                with_times += attrs.iter().filter(|a| a.1.is_some()).count();
            }
            let res =
                own(ExtraNtfsField::parse(&s), |f| f.attrs.into_iter().map(attr).collect::<Vec<_>>());
            assert_eq!(res, expected);
            let tail = &s[4.min(s.len())..];
            assert_eq!(own(NtfsAttr::parse(tail), attr), outcome(attr_by_nom(tail)));
            assert_eq!(
                own(NtfsAttr1::parse(tail), times),
                outcome(tuple((le_u64, le_u64, le_u64))(tail))
            );
        }
    }
    assert!(with_times > 100);
}

#[test]
fn timestamps_parse_like_nom() {
    for s in inputs(b"").into_iter().take(300) {
        assert_eq!(
            own(MsdosTimestamp::parse(&s), |t| (t.time, t.date)),
            outcome(tuple((le_u16, le_u16))(&s[..]))
        );
        assert_eq!(own(NtfsTimestamp::parse(&s), |t| t.timestamp), outcome(le_u64(&s[..])));
    }
}

#[test]
fn extra_fields_are_told_by_their_tags() {
    let settings = ExtraFieldSettings {
        needs_uncompressed_size: true,
        needs_compressed_size: false,
        needs_header_offset: false,
    };
    let name = |bytes: &[u8]| -> (usize, String) {
        let (rest, field) = ExtraField::parse(bytes, &settings).unwrap();
        (rest.len(), format!("{:?}", field))
    };
    assert_eq!(
        name(b"\x01\0\x08\0\x05\0\0\0\0\0\0\0rest"),
        (
            4,
            "Zip64(ExtraZip64Field { uncompressed_size: Some(5), compressed_size: None, \
             header_offset: None })"
                .to_string()
        )
    );
    assert_eq!(
        name(b"UT\x05\0\x01\x02\0\0\0"),
        (0, "Timestamp(ExtraTimestampField { mtime: 2 })".to_string())
    );
    // no modification time: the field is there, but says nothing
    assert_eq!(name(b"UT\x05\0\x02\x02\0\0\0"), (0, "Unknown { tag: 21589 }".to_string()));
    assert_eq!(
        name(b"\x0a\0\x08\0\0\0\0\0\x07\0\0\0"),
        (0, "Ntfs(ExtraNtfsField { attrs: [Unknown { tag: 7 }] })".to_string())
    );
    assert_eq!(
        name(b"ux\x05\0\x01\x01\x07\x01\x09"),
        (0, "NewUnix(ExtraNewUnixField { uid: 7, gid: 9 })".to_string())
    );
    assert_eq!(name(b"zz\x01\0!"), (0, "Unknown { tag: 31354 }".to_string()));
    for id in [&b"\x0d\0"[..], b"UX"] {
        let mut bytes = id.to_vec();
        bytes.extend(b"\x0f\0\x0d\0\x01\0\0\0\x02\0\0\0\x03\0\x04\0d");
        assert_eq!(
            name(&bytes),
            (
                0,
                "Unix(ExtraUnixField { atime: 1, mtime: 2, uid: 3, gid: 4, data: ZipBytes([100]) })"
                    .to_string()
            )
        );
    }
    assert_eq!(
        ExtraField::parse(b"zz\x02\0!", &settings).unwrap_err(),
        ParseError::Incomplete(2)
    );
}

#[test]
fn raw_extra_fields_print_as_hexadecimal() {
    let rec = ExtraFieldRecord { tag: 0x0a5, payload: b"\x00\x1f\xe0" };
    assert_eq!(rec.fmt(), "tag 0xa5: 001fe0");
    let rec = ExtraFieldRecord { tag: 0, payload: b"" };
    assert_eq!(rec.fmt(), "tag 0x0: ");
}
