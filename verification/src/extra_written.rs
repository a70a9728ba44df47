//! How extra fields are written, and that they are read so.
use vstd::prelude::*;

use crate::directory::DirectoryHeaderView;
use crate::error::{ErrorKind, ParseError};
use crate::extra::{ExtraFieldSettings, ExtraFieldView, NtfsAttr, NtfsAttr1};

verus! {

/// The bytes of a raw extra field: its tag, the length of its payload and the payload.
pub open spec fn record_bytes(tag: u16, payload: Seq<u8>) -> Seq<u8> {
    crate::written::le2(tag) + crate::written::le2(payload.len() as u16) + payload
}

/// The bytes of raw extra fields, one behind the other.
pub open spec fn joined(records: Seq<(u16, Seq<u8>)>) -> Seq<u8>
    decreases records.len(),
{
    if records.len() == 0 {
        Seq::empty()
    } else {
        record_bytes(records[0].0, records[0].1) + joined(records.skip(1))
    }
}

/// Whether the length of each payload can be written.
pub open spec fn fit(records: Seq<(u16, Seq<u8>)>) -> bool {
    forall|k: int| 0 <= k < records.len() ==> (#[trigger] records[k]).1.len() <= 0xffff
}

/// A raw extra field is read as it is written, whatever follows it.
pub proof fn raw_fields_are_read_as_written(tag: u16, payload: Seq<u8>, rest: Seq<u8>)
    requires
        payload.len() <= 0xffff,
    ensures
        crate::extra::extra_field_record(record_bytes(tag, payload) + rest) == Ok::<_, ParseError>(
            (rest, (tag, payload)),
        ),
{
    let s = record_bytes(tag, payload) + rest;
    let n = payload.len() as u16;
    assert(s.subrange(0, 2) =~= crate::written::le2(tag));
    assert(s.subrange(2, 4) =~= crate::written::le2(n));
    crate::written::two_bytes_are_read(s, 0, tag);
    crate::written::two_bytes_are_read(s, 2, n);
    assert(s.skip(4) =~= payload + rest);
    assert((payload + rest).take(n as int) =~= payload);
    assert((payload + rest).skip(n as int) =~= rest);
}

/// What is read as a raw extra field is written so. What is not is too short for a tag and a length
/// or for the payload that is announced.
pub proof fn raw_fields_are_written_as_read(s: Seq<u8>)
    ensures
        match crate::extra::extra_field_record(s) {
            Ok((rest, (tag, payload))) => {
                &&& payload.len() <= 0xffff
                &&& s == record_bytes(tag, payload) + rest
            },
            Err(ParseError::Error(kind)) => s.len() < 4 && kind == ErrorKind::Eof,
            Err(ParseError::Incomplete(n)) => {
                &&& s.len() >= 4
                &&& n <= 0xffff
                &&& s.subrange(2, 4) == crate::written::le2(n as u16)
                &&& s.len() < 4 + n
            },
            Err(ParseError::Failure(_)) => false,
        },
{
    if s.len() >= 4 {
        crate::written::two_bytes_are_read(s, 2, crate::bytes::le16(s, 2));
        if let Ok((rest, (tag, payload))) = crate::extra::extra_field_record(s) {
            crate::written::two_bytes_are_read(s, 0, tag);
            assert(s =~= s.subrange(0, 2) + s.subrange(2, 4) + payload + rest);
        }
    }
}

/// How many bytes a zip64 field has to have for a header: eight for each of the values that are
/// saturated in it.
pub open spec fn zip64_len(h: DirectoryHeaderView) -> int {
    (if h.uncompressed_size == 0xffff_ffff {
        8int
    } else {
        0
    }) + (if h.compressed_size == 0xffff_ffff {
        8int
    } else {
        0
    }) + (if h.header_offset == 0xffff_ffff {
        8int
    } else {
        0
    })
}

/// Where the compressed size is in a zip64 field for a header.
pub open spec fn zip64_compressed_at(h: DirectoryHeaderView) -> int {
    if h.uncompressed_size == 0xffff_ffff {
        8
    } else {
        0
    }
}

/// Where the header offset is in a zip64 field for a header.
pub open spec fn zip64_offset_at(h: DirectoryHeaderView) -> int {
    zip64_compressed_at(h) + if h.compressed_size == 0xffff_ffff {
        8int
    } else {
        0
    }
}

/// Whether a zip64 field has a value exactly if it is saturated in the header, and then the one in
/// the eight bytes at an offset of the payload.
pub open spec fn is_zip64_value(payload: Seq<u8>, at: int, short: u32, value: Option<u64>) -> bool {
    match value {
        Some(n) => short == 0xffff_ffff && crate::written::has_at(
            payload,
            at,
            crate::written::le8(n),
        ),
        None => short != 0xffff_ffff,
    }
}

/// The length of the variable data of a Unix field, out of the two bytes of its size: the size
/// without the twelve bytes of the fixed fields, in 16 bits.
pub open spec fn unix_variable_len(payload: Seq<u8>) -> int {
    let n = payload[0] + 0x100 * payload[1];
    if n >= 12 {
        n - 12
    } else {
        n + 0x1_0000 - 12
    }
}

/// Whether a payload is long enough for a Unix field.
pub open spec fn is_unix_payload(payload: Seq<u8>) -> bool {
    payload.len() >= 14 && payload.len() >= 14 + unix_variable_len(payload)
}

/// Whether a payload is a version 1 New Unix field: two numbers, each behind a byte with its width.
pub open spec fn is_new_unix_payload(payload: Seq<u8>) -> bool {
    &&& payload.len() >= 2
    &&& payload[0] == 1
    &&& is_width(payload[1])
    &&& payload.len() >= 3 + payload[1]
    &&& is_width(payload[2 + payload[1]])
    &&& payload.len() >= 3 + payload[1] + payload[2 + payload[1]]
}

/// Whether a number can be that many bytes wide.
pub open spec fn is_width(n: u8) -> bool {
    n == 1 || n == 2 || n == 4 || n == 8
}

/// Whether a number is the one that is written in the bytes `s`, the low ones first: with zeros up
/// to eight bytes, they are its bytes.
pub open spec fn is_number(s: Seq<u8>, n: u64) -> bool {
    s.len() <= 8 && s + Seq::new((8 - s.len()) as nat, |i: int| 0u8) == crate::written::le8(n)
}

/// Whether the bytes `s` are the given NTFS attributes: behind an attribute that is not about times
/// comes the next one, behind a times attribute what its own length leaves of it, and in the end
/// something that is too short for an attribute.
pub open spec fn is_ntfs(s: Seq<u8>, attrs: Seq<NtfsAttr>) -> bool
    decreases attrs.len(),
{
    let n = s[2] + 0x100 * s[3];
    if attrs.len() == 0 {
        s.len() < 4 || (s[0] == 1 && s[1] == 0 && n < 24 && s.len() >= 4 + n)
    } else {
        &&& s.len() >= 4
        &&& s.len() >= 4 + n
        &&& match attrs[0] {
            NtfsAttr::Unknown { tag } => {
                &&& tag != 1
                &&& s.subrange(0, 2) == crate::written::le2(tag)
                &&& is_ntfs(s.skip(4 + n), attrs.skip(1))
            },
            NtfsAttr::Attr1(t) => {
                &&& s[0] == 1 && s[1] == 0
                &&& n >= 24
                &&& s.subrange(4, 12) == crate::written::le8(t.mtime.timestamp)
                &&& s.subrange(12, 20) == crate::written::le8(t.atime.timestamp)
                &&& s.subrange(20, 28) == crate::written::le8(t.ctime.timestamp)
                &&& is_ntfs(s.subrange(28, 4 + n), attrs.skip(1))
            },
        }
    }
}

/// Whether `field` is what a raw extra field of a header means. One with a tag that is not known,
/// or with a payload that its tag does not allow, is kept as unknown.
pub open spec fn represents(h: DirectoryHeaderView, tag: u16, p: Seq<u8>, field: ExtraFieldView) -> bool {
    match field {
        ExtraFieldView::Zip64(f) => {
            &&& tag == 0x0001
            &&& p.len() >= zip64_len(h)
            &&& is_zip64_value(p, 0, h.uncompressed_size, f.uncompressed_size)
            &&& is_zip64_value(p, zip64_compressed_at(h), h.compressed_size, f.compressed_size)
            &&& is_zip64_value(p, zip64_offset_at(h), h.header_offset, f.header_offset)
        },
        ExtraFieldView::Timestamp(f) => {
            &&& tag == 0x5455
            &&& p.len() >= 5
            &&& p[0] % 2 == 1
            &&& p.subrange(1, 5) == crate::written::le4(f.mtime)
        },
        ExtraFieldView::Unix(f) => {
            &&& tag == 0x000d || tag == 0x5855
            &&& is_unix_payload(p)
            &&& p.subrange(2, 6) == crate::written::le4(f.atime)
            &&& p.subrange(6, 10) == crate::written::le4(f.mtime)
            &&& p.subrange(10, 12) == crate::written::le2(f.uid)
            &&& p.subrange(12, 14) == crate::written::le2(f.gid)
            &&& f.data == p.subrange(14, 14 + unix_variable_len(p))
        },
        ExtraFieldView::NewUnix(f) => {
            let a = p[1] as int;
            let b = p[2 + a] as int;
            &&& tag == 0x7875
            &&& is_new_unix_payload(p)
            &&& is_number(p.subrange(2, 2 + a), f.uid)
            &&& is_number(p.subrange(3 + a, 3 + a + b), f.gid)
        },
        ExtraFieldView::Ntfs(attrs) => {
            &&& tag == 0x000a
            &&& p.len() >= 4
            &&& is_ntfs(p.skip(4), attrs)
        },
        ExtraFieldView::Unknown { tag: t } => {
            &&& t == tag
            &&& tag == 0x0001 ==> p.len() < zip64_len(h)
            &&& tag == 0x5455 ==> p.len() < 5 || p[0] % 2 == 0
            &&& tag == 0x000d || tag == 0x5855 ==> !is_unix_payload(p)
            &&& tag == 0x7875 ==> !is_new_unix_payload(p)
            &&& tag == 0x000a ==> p.len() < 4 || forall|attrs: Seq<NtfsAttr>|
                !#[trigger] is_ntfs(p.skip(4), attrs)
        },
    }
}

/// A sequence starts with an element and goes on with others exactly if its first element is that
/// one and the rest are the others.
proof fn lemma_prepended(attr: NtfsAttr, more: Seq<NtfsAttr>, attrs: Seq<NtfsAttr>)
    ensures
        seq![attr] + more == attrs <==> attrs.len() > 0 && attrs[0] == attr && attrs.skip(1)
            == more,
{
    if seq![attr] + more == attrs {
        assert(attrs.skip(1) =~= more);
    }
    if attrs.len() > 0 && attrs[0] == attr && attrs.skip(1) == more {
        assert(attrs =~= seq![attr] + more);
    }
}

/// The times of an attribute are those that stand in its bytes.
proof fn lemma_times(s: Seq<u8>, n: int, t: NtfsAttr1)
    requires
        n >= 24,
        s.len() >= 4 + n,
    ensures
        (crate::extra::ntfs_attr1(s.subrange(4, 4 + n))->Ok_0).1 == t <==> {
            &&& s.subrange(4, 12) == crate::written::le8(t.mtime.timestamp)
            &&& s.subrange(12, 20) == crate::written::le8(t.atime.timestamp)
            &&& s.subrange(20, 28) == crate::written::le8(t.ctime.timestamp)
        },
        (crate::extra::ntfs_attr1(s.subrange(4, 4 + n))->Ok_0).0 == s.subrange(28, 4 + n),
{
    let payload = s.subrange(4, 4 + n);
    crate::written::eight_bytes_are_read(s, 4, t.mtime.timestamp);
    crate::written::eight_bytes_are_read(s, 12, t.atime.timestamp);
    crate::written::eight_bytes_are_read(s, 20, t.ctime.timestamp);
    assert forall|i: int| 0 <= i < n implies payload[i] == #[trigger] s[4 + i] by {}
    assert(crate::bytes::le64(payload, 0) == crate::bytes::le64(s, 4));
    assert(crate::bytes::le64(payload, 8) == crate::bytes::le64(s, 12));
    assert(crate::bytes::le64(payload, 16) == crate::bytes::le64(s, 20));
    assert(payload.skip(24) =~= s.subrange(28, 4 + n));
}

/// What the first NTFS attribute of bytes is.
proof fn lemma_ntfs_attr(s: Seq<u8>)
    ensures
        ({
            let n = s[2] + 0x100 * s[3];
            let res = crate::extra::ntfs_attr(s);
            if s.len() < 4 {
                res is Err && res->Err_0 is Error
            } else if s.len() < 4 + n {
                res is Err && res->Err_0 is Incomplete
            } else if s[0] == 1 && s[1] == 0 {
                if n < 24 {
                    res is Err && res->Err_0 is Error
                } else {
                    res == Ok::<_, ParseError>(
                        (
                            s.subrange(28, 4 + n),
                            NtfsAttr::Attr1(
                                (crate::extra::ntfs_attr1(s.subrange(4, 4 + n))->Ok_0).1,
                            ),
                        ),
                    )
                }
            } else {
                res == Ok::<_, ParseError>(
                    (s.skip(4 + n), NtfsAttr::Unknown { tag: crate::bytes::le16(s, 0) }),
                )
            }
        }),
{
    let n = s[2] + 0x100 * s[3];
    if s.len() >= 4 && s.len() >= 4 + n {
        assert(s.skip(4).skip(n) =~= s.skip(4 + n));
        assert(s.skip(4).take(n) =~= s.subrange(4, 4 + n));
        if n >= 24 {
            assert(s.subrange(4, 4 + n).skip(24) =~= s.subrange(28, 4 + n));
        }
    }
}

/// NTFS attributes are read as they are written.
pub proof fn ntfs_attributes_are_read_as_written(s: Seq<u8>, attrs: Seq<NtfsAttr>)
    ensures
        is_ntfs(s, attrs) <==> (crate::extra::ntfs_attrs(s) matches Ok((_, found)) && found
            == attrs),
    decreases s.len(),
{
    let n = s[2] + 0x100 * s[3];
    lemma_ntfs_attr(s);
    if attrs.len() == 0 {
        assert(attrs =~= Seq::empty());
    }
    if s.len() >= 4 && s.len() >= 4 + n {
        if s[0] == 1 && s[1] == 0 {
            if n >= 24 {
                let rest = s.subrange(28, 4 + n);
                let attr = (crate::extra::ntfs_attr(s)->Ok_0).1;
                ntfs_attributes_are_read_as_written(rest, attrs.skip(1));
                if let Ok((_, more)) = crate::extra::ntfs_attrs(rest) {
                    lemma_prepended(attr, more, attrs);
                }
                if attrs.len() > 0 {
                    crate::written::two_bytes_are_read(s, 0, 1);
                    if let NtfsAttr::Attr1(t) = attrs[0] {
                        lemma_times(s, n, t);
                    }
                    if let NtfsAttr::Unknown { tag } = attrs[0] {
                        crate::written::two_bytes_are_read(s, 0, tag);
                    }
                }
            }
        } else {
            let rest = s.skip(4 + n);
            let attr = (crate::extra::ntfs_attr(s)->Ok_0).1;
            ntfs_attributes_are_read_as_written(rest, attrs.skip(1));
            if let Ok((_, more)) = crate::extra::ntfs_attrs(rest) {
                lemma_prepended(attr, more, attrs);
            }
            if attrs.len() > 0 {
                if let NtfsAttr::Unknown { tag } = attrs[0] {
                    crate::written::two_bytes_are_read(s, 0, tag);
                }
            }
        }
    }
}

/// A number of a New Unix field is the one that is written in its bytes.
proof fn lemma_number(s: Seq<u8>)
    ensures
        match crate::extra::whole_le(s) {
            Some(n) => is_number(s, n) && (s.len() == 1 || s.len() == 2 || s.len() == 4 || s.len()
                == 8),
            None => s.len() != 1 && s.len() != 2 && s.len() != 4 && s.len() != 8,
        },
{
    if let Some(n) = crate::extra::whole_le(s) {
        let t = s + Seq::new((8 - s.len()) as nat, |i: int| 0u8);
        assert(t.subrange(0, 8) =~= t);
        assert(crate::bytes::le64(t, 0) == n);
        crate::written::eight_bytes_are_read(t, 0, n);
    }
}

/// A number with its width before it.
proof fn lemma_integer(s: Seq<u8>)
    ensures
        match crate::extra::variable_length_integer(s) {
            Ok((rest, n)) => {
                &&& s.len() >= 1
                &&& is_width(s[0])
                &&& s.len() >= 1 + s[0]
                &&& rest == s.skip(1 + s[0])
                &&& is_number(s.subrange(1, 1 + s[0]), n)
            },
            Err(_) => s.len() < 1 || s.len() < 1 + s[0] || !is_width(s[0]),
        },
{
    if s.len() >= 1 && s.len() >= 1 + s[0] {
        let slice = s.skip(1).take(s[0] as int);
        lemma_number(slice);
        assert(slice =~= s.subrange(1, 1 + s[0]));
        assert(s.skip(1).skip(s[0] as int) =~= s.skip(1 + s[0]));
    }
}

/// New Unix fields are read as they are written.
proof fn lemma_new_unix(h: DirectoryHeaderView, p: Seq<u8>)
    ensures
        match crate::extra::extra_new_unix(p) {
            Ok((_, f)) => represents(h, 0x7875, p, ExtraFieldView::NewUnix(f)),
            Err(_) => represents(h, 0x7875, p, ExtraFieldView::Unknown { tag: 0x7875 }),
        },
{
    if p.len() >= 1 && p[0] == 1 {
        let s = p.skip(1);
        lemma_integer(s);
        if let Ok((rest, uid)) = crate::extra::variable_length_integer(s) {
            let a = p[1] as int;
            assert(s[0] == p[1]);
            assert(s.subrange(1, 1 + a) =~= p.subrange(2, 2 + a));
            assert(rest =~= p.skip(2 + a));
            lemma_integer(rest);
            if let Ok((_, gid)) = crate::extra::variable_length_integer(rest) {
                let b = p[2 + a] as int;
                assert(rest[0] == p[2 + a]);
                assert(rest.subrange(1, 1 + b) =~= p.subrange(3 + a, 3 + a + b));
            }
        }
    }
}

/// Unix fields are read as they are written.
proof fn lemma_unix(h: DirectoryHeaderView, tag: u16, p: Seq<u8>)
    requires
        tag == 0x000d || tag == 0x5855,
    ensures
        match crate::extra::extra_unix(p) {
            Ok((_, f)) => represents(h, tag, p, ExtraFieldView::Unix(f)),
            Err(_) => represents(h, tag, p, ExtraFieldView::Unknown { tag }),
        },
{
    if p.len() >= 14 {
        assert(crate::extra::unix_data_len(crate::bytes::le16(p, 0)) == unix_variable_len(p));
        if let Ok((_, f)) = crate::extra::extra_unix(p) {
            crate::written::four_bytes_are_read(p, 2, f.atime);
            crate::written::four_bytes_are_read(p, 6, f.mtime);
            crate::written::two_bytes_are_read(p, 10, f.uid);
            crate::written::two_bytes_are_read(p, 12, f.gid);
        }
    }
}

/// Extended timestamp fields are read as they are written.
proof fn lemma_timestamp(h: DirectoryHeaderView, p: Seq<u8>)
    ensures
        match crate::extra::extra_timestamp(p) {
            Ok((_, f)) => represents(h, 0x5455, p, ExtraFieldView::Timestamp(f)),
            Err(_) => represents(h, 0x5455, p, ExtraFieldView::Unknown { tag: 0x5455 }),
        },
{
    if let Ok((_, f)) = crate::extra::extra_timestamp(p) {
        crate::written::four_bytes_are_read(p, 1, f.mtime);
    }
}

/// Zip64 fields are read as they are written: every value that is saturated in the header is there.
proof fn lemma_zip64(h: DirectoryHeaderView, p: Seq<u8>)
    ensures
        match crate::extra::extra_zip64(p, crate::directory::needed_fields(h)) {
            Ok((_, f)) => represents(h, 0x0001, p, ExtraFieldView::Zip64(f)),
            Err(_) => represents(h, 0x0001, p, ExtraFieldView::Unknown { tag: 0x0001 }),
        },
{
    if let Ok((_, f)) = crate::extra::extra_zip64(p, crate::directory::needed_fields(h)) {
        if let Some(n) = f.uncompressed_size {
            crate::written::eight_bytes_are_read(p, 0, n);
        }
        if let Some(n) = f.compressed_size {
            crate::written::eight_bytes_are_read(p, zip64_compressed_at(h), n);
        }
        if let Some(n) = f.header_offset {
            crate::written::eight_bytes_are_read(p, zip64_offset_at(h), n);
        }
    }
}

/// NTFS fields are read as they are written.
proof fn lemma_ntfs(h: DirectoryHeaderView, p: Seq<u8>)
    ensures
        match crate::extra::extra_ntfs(p) {
            Ok((_, attrs)) => represents(h, 0x000a, p, ExtraFieldView::Ntfs(attrs)),
            Err(_) => represents(h, 0x000a, p, ExtraFieldView::Unknown { tag: 0x000a }),
        },
{
    if p.len() >= 4 {
        if let Ok((_, attrs)) = crate::extra::extra_ntfs(p) {
            ntfs_attributes_are_read_as_written(p.skip(4), attrs);
        } else {
            assert forall|attrs: Seq<NtfsAttr>| !#[trigger] is_ntfs(p.skip(4), attrs) by {
                ntfs_attributes_are_read_as_written(p.skip(4), attrs);
            }
        }
    }
}

/// An extra field of a header is what its tag and the bytes of its payload mean.
pub proof fn extra_fields_mean_their_bytes(h: DirectoryHeaderView, tag: u16, p: Seq<u8>)
    ensures
        represents(
            h,
            tag,
            p,
            crate::extra::extra_variant(tag, p, crate::directory::needed_fields(h)),
        ),
{
    if tag == 0x0001 {
        lemma_zip64(h, p);
    } else if tag == 0x5455 {
        lemma_timestamp(h, p);
    } else if tag == 0x000d || tag == 0x5855 {
        lemma_unix(h, tag, p);
    } else if tag == 0x7875 {
        lemma_new_unix(h, p);
    } else if tag == 0x000a {
        lemma_ntfs(h, p);
    }
}

/// The extra fields of a header are one for each raw field, in order, and each is what its raw
/// field means.
pub proof fn extra_fields_are_one_per_record(h: DirectoryHeaderView, records: Seq<(u16, Seq<u8>)>)
    requires
        fit(records),
    ensures
        crate::directory::extra_list(joined(records), crate::directory::needed_fields(h)) matches Some(
            fields,
        ) && {
            &&& fields.len() == records.len()
            &&& forall|k: int|
                0 <= k < records.len() ==> represents(
                    h,
                    (#[trigger] records[k]).0,
                    records[k].1,
                    fields[k],
                )
        },
    decreases records.len(),
{
    if records.len() > 0 {
        let settings = crate::directory::needed_fields(h);
        let (tag, p) = records[0];
        let more = records.skip(1);
        assert forall|k: int| 0 <= k < more.len() implies (#[trigger] more[k]).1.len() <= 0xffff by {
            assert(more[k] == records[k + 1]);
        }
        extra_fields_are_one_per_record(h, more);
        raw_fields_are_read_as_written(tag, p, joined(more));
        extra_fields_mean_their_bytes(h, tag, p);
        let rest = crate::directory::extra_list(joined(more), settings)->Some_0;
        let field = crate::extra::extra_variant(tag, p, settings);
        let fields = seq![field] + rest;
        assert(crate::directory::extra_list(joined(records), settings) == Some(fields));
        assert forall|k: int| 0 <= k < records.len() implies represents(
            h,
            (#[trigger] records[k]).0,
            records[k].1,
            fields[k],
        ) by {
            if k > 0 {
                assert(records[k] == more[k - 1]);
                assert(fields[k] == rest[k - 1]);
            }
        }
    }
}

/// Bytes that are extra fields consist of raw fields, one behind the other, and nothing else.
pub proof fn extra_fields_consist_of_records(s: Seq<u8>, settings: ExtraFieldSettings) -> (records:
    Seq<(u16, Seq<u8>)>)
    requires
        crate::directory::extra_list(s, settings) is Some,
    ensures
        fit(records),
        s == joined(records),
    decreases s.len(),
{
    if s.len() == 0 {
        assert(s =~= Seq::empty());
        Seq::empty()
    } else {
        raw_fields_are_written_as_read(s);
        let (rest, (tag, p)) = crate::extra::extra_field_record(s)->Ok_0;
        assert(rest.len() < s.len());
        let more = extra_fields_consist_of_records(rest, settings);
        let records = seq![(tag, p)] + more;
        assert(records.skip(1) =~= more);
        assert forall|k: int| 0 <= k < records.len() implies (#[trigger] records[k]).1.len()
            <= 0xffff by {
            if k > 0 {
                assert(records[k] == more[k - 1]);
            }
        }
        records
    }
}

/// How many bytes a value of a zip64 field takes.
pub open spec fn room(needed: bool) -> int {
    if needed {
        8
    } else {
        0
    }
}

/// Whether a value is there exactly if it is needed, and then the one in the eight bytes at an
/// offset.
pub open spec fn is_needed_value(s: Seq<u8>, at: int, needed: bool, value: Option<u64>) -> bool {
    match value {
        Some(n) => needed && s.subrange(at, at + 8) == crate::written::le8(n),
        None => !needed,
    }
}

/// The payload of a zip64 field holds the uncompressed size, the compressed size and the header
/// offset, in this order, without those that are not needed.
pub proof fn zip64_payloads_are_read_as_written(s: Seq<u8>, settings: ExtraFieldSettings)
    ensures
        ({
            let u = settings.needs_uncompressed_size;
            let c = settings.needs_compressed_size;
            let o = settings.needs_header_offset;
            let end = room(u) + room(c) + room(o);
            match crate::extra::extra_zip64(s, settings) {
                Ok((rest, f)) => {
                    &&& s.len() >= end
                    &&& rest == s.skip(end)
                    &&& is_needed_value(s, 0, u, f.uncompressed_size)
                    &&& is_needed_value(s, room(u), c, f.compressed_size)
                    &&& is_needed_value(s, room(u) + room(c), o, f.header_offset)
                },
                Err(e) => s.len() < end && e == ParseError::Error(ErrorKind::Eof),
            }
        }),
{
    if let Ok((_, f)) = crate::extra::extra_zip64(s, settings) {
        let u = room(settings.needs_uncompressed_size);
        let c = room(settings.needs_compressed_size);
        if let Some(n) = f.uncompressed_size {
            crate::written::eight_bytes_are_read(s, 0, n);
        }
        if let Some(n) = f.compressed_size {
            crate::written::eight_bytes_are_read(s, u, n);
        }
        if let Some(n) = f.header_offset {
            crate::written::eight_bytes_are_read(s, u + c, n);
        }
    }
}

/// The payload of an extended timestamp field is one byte of flags and the modification time. It is
/// refused for flags without bit 0, and for its length.
pub proof fn timestamp_payloads_are_read_as_written(s: Seq<u8>)
    ensures
        match crate::extra::extra_timestamp(s) {
            Ok((rest, f)) => {
                &&& s.len() >= 5
                &&& s[0] % 2 == 1
                &&& s.subrange(1, 5) == crate::written::le4(f.mtime)
                &&& rest == s.skip(5)
            },
            Err(e) => if s.len() > 0 && s[0] % 2 == 0 {
                e == ParseError::Error(ErrorKind::Verify)
            } else {
                s.len() < 5 && e == ParseError::Error(ErrorKind::Eof)
            },
        },
{
    if let Ok((_, f)) = crate::extra::extra_timestamp(s) {
        crate::written::four_bytes_are_read(s, 1, f.mtime);
    }
}

/// The payload of a Unix field is its size, two times, two numbers and the rest of the size.
pub proof fn unix_payloads_are_read_as_written(s: Seq<u8>)
    ensures
        match crate::extra::extra_unix(s) {
            Ok((rest, f)) => {
                let end = 14 + unix_variable_len(s);
                &&& is_unix_payload(s)
                &&& s.subrange(2, 6) == crate::written::le4(f.atime)
                &&& s.subrange(6, 10) == crate::written::le4(f.mtime)
                &&& s.subrange(10, 12) == crate::written::le2(f.uid)
                &&& s.subrange(12, 14) == crate::written::le2(f.gid)
                &&& f.data == s.subrange(14, end)
                &&& rest == s.skip(end)
            },
            Err(e) => !is_unix_payload(s) && e == ParseError::Error(ErrorKind::Eof),
        },
{
    if s.len() >= 14 {
        assert(crate::extra::unix_data_len(crate::bytes::le16(s, 0)) == unix_variable_len(s));
        if let Ok((_, f)) = crate::extra::extra_unix(s) {
            crate::written::four_bytes_are_read(s, 2, f.atime);
            crate::written::four_bytes_are_read(s, 6, f.mtime);
            crate::written::two_bytes_are_read(s, 10, f.uid);
            crate::written::two_bytes_are_read(s, 12, f.gid);
        }
    }
}

/// A number with its width before it is read as it is written. It is refused where the width is
/// missing, where the number is cut off, and for a width other than 1, 2, 4 and 8.
pub proof fn numbers_are_read_as_written(s: Seq<u8>)
    ensures
        match crate::extra::variable_length_integer(s) {
            Ok((rest, n)) => {
                &&& s.len() >= 1
                &&& is_width(s[0])
                &&& s.len() >= 1 + s[0]
                &&& is_number(s.subrange(1, 1 + s[0]), n)
                &&& rest == s.skip(1 + s[0])
            },
            Err(e) => if s.len() == 0 {
                e == ParseError::Error(ErrorKind::Eof)
            } else if s.len() < 1 + s[0] {
                e == ParseError::Incomplete(s[0] as usize)
            } else {
                !is_width(s[0]) && e == ParseError::Failure(ErrorKind::OneOf)
            },
        },
{
    lemma_integer(s);
}

/// The payload of a New Unix field is the version 1 and two numbers, the user and the group.
pub proof fn new_unix_payloads_are_read_as_written(s: Seq<u8>)
    ensures
        ({
            let first = crate::extra::variable_length_integer(s.skip(1));
            match crate::extra::extra_new_unix(s) {
                Ok((rest, f)) => {
                    &&& s.len() >= 1
                    &&& s[0] == 1
                    &&& first matches Ok((between, uid))
                    &&& f.uid == uid
                    &&& crate::extra::variable_length_integer(between) == Ok::<_, ParseError>(
                        (rest, f.gid),
                    )
                },
                Err(e) => if s.len() == 0 || s[0] != 1 {
                    e == ParseError::Error(ErrorKind::Tag)
                } else {
                    match first {
                        Err(f) => e == f,
                        Ok((between, _)) => crate::extra::variable_length_integer(between)
                            == Err::<(Seq<u8>, u64), _>(e),
                    }
                },
            }
        }),
{
}

/// The three times of an NTFS attribute are read as they are written.
pub proof fn ntfs_times_are_read_in_order(s: Seq<u8>)
    ensures
        match crate::extra::ntfs_attr1(s) {
            Ok((rest, t)) => {
                &&& s.len() >= 24
                &&& s.subrange(0, 8) == crate::written::le8(t.mtime.timestamp)
                &&& s.subrange(8, 16) == crate::written::le8(t.atime.timestamp)
                &&& s.subrange(16, 24) == crate::written::le8(t.ctime.timestamp)
                &&& rest == s.skip(24)
            },
            Err(e) => s.len() < 24 && e == ParseError::Error(ErrorKind::Eof),
        },
{
    if let Ok((_, t)) = crate::extra::ntfs_attr1(s) {
        crate::written::eight_bytes_are_read(s, 0, t.mtime.timestamp);
        crate::written::eight_bytes_are_read(s, 8, t.atime.timestamp);
        crate::written::eight_bytes_are_read(s, 16, t.ctime.timestamp);
    }
}

/// An NTFS attribute is a raw field. With the tag 1 it holds times, behind which its own bytes go
/// on, and with any other tag nothing that is known.
pub proof fn ntfs_attributes_are_raw_fields(tag: u16, payload: Seq<u8>, rest: Seq<u8>)
    requires
        payload.len() <= 0xffff,
    ensures
        ({
            let res = crate::extra::ntfs_attr(record_bytes(tag, payload) + rest);
            if tag != 1 {
                res == Ok::<_, ParseError>((rest, NtfsAttr::Unknown { tag }))
            } else {
                match crate::extra::ntfs_attr1(payload) {
                    Ok((behind, t)) => res == Ok::<_, ParseError>((behind, NtfsAttr::Attr1(t))),
                    Err(e) => res == Err::<(Seq<u8>, NtfsAttr), _>(e),
                }
            }
        }),
{
    raw_fields_are_read_as_written(tag, payload, rest);
}

/// The payload of an NTFS field is four bytes and attributes. It is refused where the four bytes are
/// missing, and where an attribute is cut off.
pub proof fn ntfs_payloads_are_read_as_written(s: Seq<u8>)
    ensures
        match crate::extra::extra_ntfs(s) {
            Ok((_, attrs)) => s.len() >= 4 && is_ntfs(s.skip(4), attrs),
            Err(e) => if s.len() < 4 {
                e == ParseError::Error(ErrorKind::Eof)
            } else {
                e is Incomplete && forall|attrs: Seq<NtfsAttr>| !#[trigger] is_ntfs(
                    s.skip(4),
                    attrs,
                )
            },
        },
{
    lemma_ntfs_errors(s.skip(4));
    if let Ok((_, attrs)) = crate::extra::extra_ntfs(s) {
        ntfs_attributes_are_read_as_written(s.skip(4), attrs);
    } else if s.len() >= 4 {
        assert forall|attrs: Seq<NtfsAttr>| !#[trigger] is_ntfs(s.skip(4), attrs) by {
            ntfs_attributes_are_read_as_written(s.skip(4), attrs);
        }
    }
}

/// Attributes are refused only where one is cut off.
proof fn lemma_ntfs_errors(s: Seq<u8>)
    ensures
        crate::extra::ntfs_attrs(s) matches Err(e) ==> e is Incomplete,
    decreases s.len(),
{
    lemma_ntfs_attr(s);
    if let Ok((rest, _)) = crate::extra::ntfs_attr(s) {
        assert(rest.len() < s.len());
        lemma_ntfs_errors(rest);
    }
}

/// An extra field with its settings is the variant for its tag and payload, and what cannot be told
/// apart is refused as a raw field is.
pub proof fn extra_fields_are_raw_fields(s: Seq<u8>, settings: ExtraFieldSettings)
    ensures
        match crate::extra::extra_field_record(s) {
            Ok((rest, (tag, payload))) => crate::extra::extra_field(s, settings) == Ok::<
                _,
                ParseError,
            >((rest, crate::extra::extra_variant(tag, payload, settings))),
            Err(e) => crate::extra::extra_field(s, settings) == Err::<
                (Seq<u8>, ExtraFieldView),
                _,
            >(e),
        },
{
}

/// The text of a raw field has the hexadecimal digits of its tag, without zeros before them, and two
/// for each byte of the payload.
pub proof fn hexadecimal_digits_are_written(n: nat, d: nat, bytes: Seq<u8>, i: int)
    requires
        d < 16,
        0 <= i < bytes.len(),
    ensures
        d < 10 ==> crate::extra::hex_digit(d) as int == 0x30 + d,
        d >= 10 ==> crate::extra::hex_digit(d) as int == 0x61 + d - 10,
        crate::extra::hex_number(d) == seq![crate::extra::hex_digit(d)],
        n > 0 ==> crate::extra::hex_number(16 * n + d) == crate::extra::hex_number(n).push(
            crate::extra::hex_digit(d),
        ),
        crate::extra::hex_bytes(bytes).len() == 2 * bytes.len(),
        bytes[i] == 16 * n + d && n < 16 ==> {
            &&& crate::extra::hex_bytes(bytes)[2 * i] == crate::extra::hex_digit(n)
            &&& crate::extra::hex_bytes(bytes)[2 * i + 1] == crate::extra::hex_digit(d)
        },
{
    assert((16 * n + d) / 16 == n);
    assert((16 * n + d) % 16 == d);
    assert((2 * i) / 2 == i && (2 * i + 1) / 2 == i);
}

} // verus!
