//! How the parts of a zip file are written.
//!
//! Each part is described by the bytes that it consists of, and the parsers are shown to accept
//! these bytes and no others.
use vstd::prelude::*;

use crate::directory::DirectoryHeaderView;
use crate::eocd::{
    EndOfCentralDirectory64Locator, EndOfCentralDirectory64Record, EndOfCentralDirectoryRecordView,
};
use crate::error::{ErrorKind, ParseError};

verus! {

/// A number in two bytes, the low one first.
pub open spec fn le2(n: u16) -> Seq<u8> {
    seq![(n % 0x100) as u8, (n / 0x100) as u8]
}

/// A number in four bytes, the low ones first.
pub open spec fn le4(n: u32) -> Seq<u8> {
    le2((n % 0x1_0000) as u16) + le2((n / 0x1_0000) as u16)
}

/// A number in eight bytes, the low ones first.
pub open spec fn le8(n: u64) -> Seq<u8> {
    le4((n % 0x1_0000_0000) as u32) + le4((n / 0x1_0000_0000) as u32)
}

/// Two bytes are read as the number that is written in them.
pub proof fn two_bytes_are_read(s: Seq<u8>, at: int, n: u16)
    requires
        0 <= at,
        at + 2 <= s.len(),
    ensures
        crate::bytes::le16(s, at) == n <==> s.subrange(at, at + 2) == le2(n),
{
    let t = s.subrange(at, at + 2);
    assert(t[0] == s[at] && t[1] == s[at + 1]);
    if crate::bytes::le16(s, at) == n {
        assert(t =~= le2(n));
    }
    if t == le2(n) {
        assert(t[0] == (n % 0x100) as u8 && t[1] == (n / 0x100) as u8);
    }
}

/// Four bytes are read as the number that is written in them.
pub proof fn four_bytes_are_read(s: Seq<u8>, at: int, n: u32)
    requires
        0 <= at,
        at + 4 <= s.len(),
    ensures
        crate::bytes::le32(s, at) == n <==> s.subrange(at, at + 4) == le4(n),
{
    let t = s.subrange(at, at + 4);
    let (lo, hi) = ((n % 0x1_0000) as u16, (n / 0x1_0000) as u16);
    two_bytes_are_read(s, at, lo);
    two_bytes_are_read(s, at + 2, hi);
    assert(t.subrange(0, 2) =~= s.subrange(at, at + 2));
    assert(t.subrange(2, 4) =~= s.subrange(at + 2, at + 4));
    assert(t =~= t.subrange(0, 2) + t.subrange(2, 4));
    if t == le4(n) {
        assert(t.subrange(0, 2) =~= le2(lo));
        assert(t.subrange(2, 4) =~= le2(hi));
    }
}

/// Eight bytes are read as the number that is written in them.
pub proof fn eight_bytes_are_read(s: Seq<u8>, at: int, n: u64)
    requires
        0 <= at,
        at + 8 <= s.len(),
    ensures
        crate::bytes::le64(s, at) == n <==> s.subrange(at, at + 8) == le8(n),
{
    let t = s.subrange(at, at + 8);
    let (lo, hi) = ((n % 0x1_0000_0000) as u32, (n / 0x1_0000_0000) as u32);
    four_bytes_are_read(s, at, lo);
    four_bytes_are_read(s, at + 4, hi);
    assert(t.subrange(0, 4) =~= s.subrange(at, at + 4));
    assert(t.subrange(4, 8) =~= s.subrange(at + 4, at + 8));
    assert(t =~= t.subrange(0, 4) + t.subrange(4, 8));
    if t == le8(n) {
        assert(t.subrange(0, 4) =~= le4(lo));
        assert(t.subrange(4, 8) =~= le4(hi));
    }
}

/// Whether the bytes `n` stand at an offset of `s`.
pub open spec fn has_at(s: Seq<u8>, at: int, n: Seq<u8>) -> bool {
    0 <= at && at + n.len() <= s.len() && s.subrange(at, at + n.len()) == n
}

/// The central directory header `h` at the start of `s`, and the bytes `rest` behind it.
pub open spec fn is_header(s: Seq<u8>, h: DirectoryHeaderView, rest: Seq<u8>) -> bool {
    let name_end = 46 + h.name.len();
    let extra_end = name_end + h.extra.len();
    let comment_end = extra_end + h.comment.len();
    &&& h.name.len() <= 0xffff && h.extra.len() <= 0xffff && h.comment.len() <= 0xffff
    &&& has_at(s, 0, seq![0x50u8, 0x4bu8, 0x01u8, 0x02u8])
    &&& has_at(s, 4, le2(h.creator_version))
    &&& has_at(s, 6, le2(h.reader_version))
    &&& has_at(s, 8, le2(h.flags))
    &&& has_at(s, 10, le2(h.method))
    &&& has_at(s, 12, le2(h.modified.time))
    &&& has_at(s, 14, le2(h.modified.date))
    &&& has_at(s, 16, le4(h.crc32))
    &&& has_at(s, 20, le4(h.compressed_size))
    &&& has_at(s, 24, le4(h.uncompressed_size))
    &&& has_at(s, 28, le2(h.name.len() as u16))
    &&& has_at(s, 30, le2(h.extra.len() as u16))
    &&& has_at(s, 32, le2(h.comment.len() as u16))
    &&& has_at(s, 34, le2(h.disk_nbr_start))
    &&& has_at(s, 36, le2(h.internal_attrs))
    &&& has_at(s, 38, le4(h.external_attrs))
    &&& has_at(s, 42, le4(h.header_offset))
    &&& has_at(s, 46, h.name)
    &&& has_at(s, name_end as int, h.extra)
    &&& has_at(s, extra_end as int, h.comment)
    &&& rest == s.skip(comment_end as int)
}

/// Bytes start with a signature exactly if the signature stands at their start.
proof fn lemma_signature(s: Seq<u8>, a: u8, b: u8)
    ensures
        crate::bytes::has_signature(s, a, b) <==> has_at(s, 0, seq![0x50u8, 0x4bu8, a, b]),
{
    let sig = seq![0x50u8, 0x4bu8, a, b];
    if crate::bytes::has_signature(s, a, b) {
        assert(s.subrange(0, 4) =~= sig);
    }
    if has_at(s, 0, sig) {
        let t = s.subrange(0, 4);
        assert(t[0] == s[0] && t[1] == s[1] && t[2] == s[2] && t[3] == s[3]);
    }
}

/// The numbers of a header are those that stand in its bytes.
proof fn lemma_header_numbers(s: Seq<u8>, h: DirectoryHeaderView)
    requires
        s.len() >= 46,
    ensures
        crate::bytes::le16(s, 4) == h.creator_version <==> has_at(s, 4, le2(h.creator_version)),
        crate::bytes::le16(s, 6) == h.reader_version <==> has_at(s, 6, le2(h.reader_version)),
        crate::bytes::le16(s, 8) == h.flags <==> has_at(s, 8, le2(h.flags)),
        crate::bytes::le16(s, 10) == h.method <==> has_at(s, 10, le2(h.method)),
        crate::bytes::le16(s, 12) == h.modified.time <==> has_at(s, 12, le2(h.modified.time)),
        crate::bytes::le16(s, 14) == h.modified.date <==> has_at(s, 14, le2(h.modified.date)),
        crate::bytes::le32(s, 16) == h.crc32 <==> has_at(s, 16, le4(h.crc32)),
        crate::bytes::le32(s, 20) == h.compressed_size <==> has_at(s, 20, le4(h.compressed_size)),
        crate::bytes::le32(s, 24) == h.uncompressed_size <==> has_at(
            s,
            24,
            le4(h.uncompressed_size),
        ),
        crate::bytes::le16(s, 34) == h.disk_nbr_start <==> has_at(s, 34, le2(h.disk_nbr_start)),
        crate::bytes::le16(s, 36) == h.internal_attrs <==> has_at(s, 36, le2(h.internal_attrs)),
        crate::bytes::le32(s, 38) == h.external_attrs <==> has_at(s, 38, le4(h.external_attrs)),
        crate::bytes::le32(s, 42) == h.header_offset <==> has_at(s, 42, le4(h.header_offset)),
{
    two_bytes_are_read(s, 4, h.creator_version);
    two_bytes_are_read(s, 6, h.reader_version);
    two_bytes_are_read(s, 8, h.flags);
    two_bytes_are_read(s, 10, h.method);
    two_bytes_are_read(s, 12, h.modified.time);
    two_bytes_are_read(s, 14, h.modified.date);
    four_bytes_are_read(s, 16, h.crc32);
    four_bytes_are_read(s, 20, h.compressed_size);
    four_bytes_are_read(s, 24, h.uncompressed_size);
    two_bytes_are_read(s, 34, h.disk_nbr_start);
    two_bytes_are_read(s, 36, h.internal_attrs);
    four_bytes_are_read(s, 38, h.external_attrs);
    four_bytes_are_read(s, 42, h.header_offset);
}

/// The lengths of the texts of a header are those that stand in its bytes.
proof fn lemma_header_lengths(s: Seq<u8>, a: u16, b: u16, c: u16)
    requires
        s.len() >= 46,
    ensures
        crate::bytes::le16(s, 28) == a <==> has_at(s, 28, le2(a)),
        crate::bytes::le16(s, 30) == b <==> has_at(s, 30, le2(b)),
        crate::bytes::le16(s, 32) == c <==> has_at(s, 32, le2(c)),
{
    two_bytes_are_read(s, 28, a);
    two_bytes_are_read(s, 30, b);
    two_bytes_are_read(s, 32, c);
}

/// A central directory header is what is written at the start of the bytes, and what is not
/// written so is no header.
pub proof fn headers_are_read_as_written(
    s: Seq<u8>,
    h: DirectoryHeaderView,
    rest: Seq<u8>,
)
    ensures
        crate::directory::directory_header(s) == Ok::<_, ParseError>((rest, h)) <==> is_header(
            s,
            h,
            rest,
        ),
{
    lemma_signature(s, 0x01, 0x02);
    if crate::directory::directory_header(s) == Ok::<_, ParseError>((rest, h)) {
        lemma_header_numbers(s, h);
        lemma_header_lengths(s, h.name.len() as u16, h.extra.len() as u16, h.comment.len() as u16);
    }
    if is_header(s, h, rest) {
        lemma_header_numbers(s, h);
        lemma_header_lengths(s, h.name.len() as u16, h.extra.len() as u16, h.comment.len() as u16);
        let (rest2, h2) = crate::directory::directory_header(s)->Ok_0;
        assert(crate::directory::directory_header(s) is Ok);
        assert(h2.name =~= h.name);
        assert(h2.extra =~= h.extra);
        assert(h2.comment =~= h.comment);
        assert(h2.modified == h.modified);
        assert(h2 == h);
    }
}

/// Bytes without the signature of a header are refused for that, and bytes with it for their
/// length.
pub proof fn headers_are_refused(s: Seq<u8>, e: ParseError)
    requires
        crate::directory::directory_header(s) == Err::<(Seq<u8>, DirectoryHeaderView), _>(e),
    ensures
        e == if has_at(s, 0, seq![0x50u8, 0x4bu8, 0x01u8, 0x02u8]) {
            ParseError::Error(ErrorKind::Eof)
        } else {
            ParseError::Error(ErrorKind::Tag)
        },
{
    lemma_signature(s, 0x01, 0x02);
}

/// The end of central directory record `r` at the start of `s`, and the bytes `rest` behind it.
pub open spec fn is_end_record(
    s: Seq<u8>,
    r: EndOfCentralDirectoryRecordView,
    rest: Seq<u8>,
) -> bool {
    &&& r.comment.len() <= 0xffff
    &&& has_at(s, 0, seq![0x50u8, 0x4bu8, 0x05u8, 0x06u8])
    &&& has_at(s, 4, le2(r.disk_nbr))
    &&& has_at(s, 6, le2(r.dir_disk_nbr))
    &&& has_at(s, 8, le2(r.dir_records_this_disk))
    &&& has_at(s, 10, le2(r.directory_records))
    &&& has_at(s, 12, le4(r.directory_size))
    &&& has_at(s, 16, le4(r.directory_offset))
    &&& has_at(s, 20, le2(r.comment.len() as u16))
    &&& has_at(s, 22, r.comment)
    &&& rest == s.skip(22 + r.comment.len() as int)
}

/// An end of central directory record is what is written at the start of the bytes, and what is
/// not written so is no record.
pub proof fn end_records_are_read_as_written(
    s: Seq<u8>,
    r: EndOfCentralDirectoryRecordView,
    rest: Seq<u8>,
)
    ensures
        crate::eocd::eocd_record(s) == Ok::<_, ParseError>((rest, r)) <==> is_end_record(
            s,
            r,
            rest,
        ),
{
    lemma_signature(s, 0x05, 0x06);
    if s.len() >= 22 {
        two_bytes_are_read(s, 4, r.disk_nbr);
        two_bytes_are_read(s, 6, r.dir_disk_nbr);
        two_bytes_are_read(s, 8, r.dir_records_this_disk);
        two_bytes_are_read(s, 10, r.directory_records);
        four_bytes_are_read(s, 12, r.directory_size);
        four_bytes_are_read(s, 16, r.directory_offset);
        two_bytes_are_read(s, 20, r.comment.len() as u16);
        let n = crate::bytes::le16(s, 20) as int;
        if s.len() >= 22 + n {
            assert(s.skip(22).take(n) =~= s.subrange(22, 22 + n));
            assert(s.skip(22).skip(n) =~= s.skip(22 + n));
        }
    }
    if is_end_record(s, r, rest) {
        let (rest2, r2) = crate::eocd::eocd_record(s)->Ok_0;
        assert(crate::eocd::eocd_record(s) is Ok);
        assert(r2 =~= r);
        assert(rest2 =~= rest);
    }
}

/// The zip64 locator `l` at the start of `s`, and the bytes `rest` behind it.
pub open spec fn is_locator(
    s: Seq<u8>,
    l: EndOfCentralDirectory64Locator,
    rest: Seq<u8>,
) -> bool {
    &&& has_at(s, 0, seq![0x50u8, 0x4bu8, 0x06u8, 0x07u8])
    &&& has_at(s, 4, le4(l.dir_disk_number))
    &&& has_at(s, 8, le8(l.directory_offset))
    &&& has_at(s, 16, le4(l.total_disks))
    &&& rest == s.skip(20)
}

/// A zip64 locator is what is written at the start of the bytes, and what is not written so is no
/// locator.
pub proof fn locators_are_read_as_written(
    s: Seq<u8>,
    l: EndOfCentralDirectory64Locator,
    rest: Seq<u8>,
)
    ensures
        crate::eocd::eocd64_locator(s) == Ok::<_, ParseError>((rest, l)) <==> is_locator(
            s,
            l,
            rest,
        ),
{
    lemma_signature(s, 0x06, 0x07);
    if s.len() >= 20 {
        four_bytes_are_read(s, 4, l.dir_disk_number);
        eight_bytes_are_read(s, 8, l.directory_offset);
        four_bytes_are_read(s, 16, l.total_disks);
    }
}

/// The zip64 end of central directory record `r` at the start of `s`, and the bytes `rest` behind
/// it.
pub open spec fn is_end_record64(
    s: Seq<u8>,
    r: EndOfCentralDirectory64Record,
    rest: Seq<u8>,
) -> bool {
    &&& has_at(s, 0, seq![0x50u8, 0x4bu8, 0x06u8, 0x06u8])
    &&& has_at(s, 4, le8(r.record_size))
    &&& has_at(s, 12, le2(r.creator_version))
    &&& has_at(s, 14, le2(r.reader_version))
    &&& has_at(s, 16, le4(r.disk_nbr))
    &&& has_at(s, 20, le4(r.dir_disk_nbr))
    &&& has_at(s, 24, le8(r.dir_records_this_disk))
    &&& has_at(s, 32, le8(r.directory_records))
    &&& has_at(s, 40, le8(r.directory_size))
    &&& has_at(s, 48, le8(r.directory_offset))
    &&& rest == s.skip(56)
}

/// The first numbers of a zip64 record are those that stand in its bytes.
proof fn lemma_record64_first(s: Seq<u8>, r: EndOfCentralDirectory64Record)
    requires
        s.len() >= 56,
    ensures
        crate::bytes::le64(s, 4) == r.record_size <==> has_at(s, 4, le8(r.record_size)),
        crate::bytes::le16(s, 12) == r.creator_version <==> has_at(s, 12, le2(r.creator_version)),
        crate::bytes::le16(s, 14) == r.reader_version <==> has_at(s, 14, le2(r.reader_version)),
        crate::bytes::le32(s, 16) == r.disk_nbr <==> has_at(s, 16, le4(r.disk_nbr)),
        crate::bytes::le32(s, 20) == r.dir_disk_nbr <==> has_at(s, 20, le4(r.dir_disk_nbr)),
{
    eight_bytes_are_read(s, 4, r.record_size);
    two_bytes_are_read(s, 12, r.creator_version);
    two_bytes_are_read(s, 14, r.reader_version);
    four_bytes_are_read(s, 16, r.disk_nbr);
    four_bytes_are_read(s, 20, r.dir_disk_nbr);
}

/// The last numbers of a zip64 record are those that stand in its bytes.
proof fn lemma_record64_last(s: Seq<u8>, r: EndOfCentralDirectory64Record)
    requires
        s.len() >= 56,
    ensures
        crate::bytes::le64(s, 24) == r.dir_records_this_disk <==> has_at(
            s,
            24,
            le8(r.dir_records_this_disk),
        ),
        crate::bytes::le64(s, 32) == r.directory_records <==> has_at(
            s,
            32,
            le8(r.directory_records),
        ),
        crate::bytes::le64(s, 40) == r.directory_size <==> has_at(s, 40, le8(r.directory_size)),
        crate::bytes::le64(s, 48) == r.directory_offset <==> has_at(s, 48, le8(r.directory_offset)),
{
    eight_bytes_are_read(s, 24, r.dir_records_this_disk);
    eight_bytes_are_read(s, 32, r.directory_records);
    eight_bytes_are_read(s, 40, r.directory_size);
    eight_bytes_are_read(s, 48, r.directory_offset);
}

/// A zip64 end of central directory record is what is written at the start of the bytes, and what
/// is not written so is no record.
pub proof fn end_records64_are_read_as_written(
    s: Seq<u8>,
    r: EndOfCentralDirectory64Record,
    rest: Seq<u8>,
)
    ensures
        crate::eocd::eocd64_record(s) == Ok::<_, ParseError>((rest, r)) <==> is_end_record64(
            s,
            r,
            rest,
        ),
{
    lemma_signature(s, 0x06, 0x06);
    if s.len() >= 56 {
        lemma_record64_first(s, r);
        lemma_record64_last(s, r);
    } else {
        assert(le8(r.directory_offset).len() == 8);
    }
}

/// Bytes without the signature of an end of central directory record are refused for that. Bytes
/// with it are refused where they end before the length of the comment, or within the comment.
pub proof fn end_records_are_refused(s: Seq<u8>, e: ParseError)
    requires
        crate::eocd::eocd_record(s) == Err::<(Seq<u8>, EndOfCentralDirectoryRecordView), _>(e),
    ensures
        if !has_at(s, 0, seq![0x50u8, 0x4bu8, 0x05u8, 0x06u8]) {
            e == ParseError::Error(ErrorKind::Tag)
        } else if s.len() < 22 {
            e == ParseError::Error(ErrorKind::Eof)
        } else {
            &&& e matches ParseError::Incomplete(n)
            &&& n <= 0xffff
            &&& s.subrange(20, 22) == le2(n as u16)
            &&& s.len() < 22 + n
        },
{
    lemma_signature(s, 0x05, 0x06);
    if s.len() >= 22 {
        two_bytes_are_read(s, 20, crate::bytes::le16(s, 20));
    }
}

/// Bytes without the signature of a zip64 locator are refused for that, and bytes with it for their
/// length.
pub proof fn locators_are_refused(s: Seq<u8>, e: ParseError)
    requires
        crate::eocd::eocd64_locator(s) == Err::<(Seq<u8>, EndOfCentralDirectory64Locator), _>(e),
    ensures
        if has_at(s, 0, seq![0x50u8, 0x4bu8, 0x06u8, 0x07u8]) {
            e == ParseError::Error(ErrorKind::Eof) && s.len() < 20
        } else {
            e == ParseError::Error(ErrorKind::Tag)
        },
{
    lemma_signature(s, 0x06, 0x07);
}

/// Bytes without the signature of a zip64 record are refused for that, and bytes with it for their
/// length.
pub proof fn end_records64_are_refused(s: Seq<u8>, e: ParseError)
    requires
        crate::eocd::eocd64_record(s) == Err::<(Seq<u8>, EndOfCentralDirectory64Record), _>(e),
    ensures
        if has_at(s, 0, seq![0x50u8, 0x4bu8, 0x06u8, 0x06u8]) {
            e == ParseError::Error(ErrorKind::Eof) && s.len() < 56
        } else {
            e == ParseError::Error(ErrorKind::Tag)
        },
{
    lemma_signature(s, 0x06, 0x06);
}

/// An MS-DOS time and date are read as they are written, and bytes that are too short are refused.
pub proof fn msdos_times_are_read_as_written(s: Seq<u8>)
    ensures
        match crate::dates::msdos_timestamp(s) {
            Ok((rest, t)) => {
                &&& s.len() >= 4
                &&& s.subrange(0, 2) == le2(t.time)
                &&& s.subrange(2, 4) == le2(t.date)
                &&& rest == s.skip(4)
            },
            Err(e) => s.len() < 4 && e == ParseError::Error(ErrorKind::Eof),
        },
{
    if let Ok((_, t)) = crate::dates::msdos_timestamp(s) {
        two_bytes_are_read(s, 0, t.time);
        two_bytes_are_read(s, 2, t.date);
    }
}

/// NTFS ticks are read as they are written, and bytes that are too short are refused.
pub proof fn ntfs_times_are_read_as_written(s: Seq<u8>)
    ensures
        match crate::dates::ntfs_timestamp(s) {
            Ok((rest, t)) => {
                &&& s.len() >= 8
                &&& s.subrange(0, 8) == le8(t.timestamp)
                &&& rest == s.skip(8)
            },
            Err(e) => s.len() < 8 && e == ParseError::Error(ErrorKind::Eof),
        },
{
    if let Ok((_, t)) = crate::dates::ntfs_timestamp(s) {
        eight_bytes_are_read(s, 0, t.timestamp);
    }
}

} // verus!
