//! What an entry says, in terms of the header that it comes from.
use vstd::prelude::*;
use vstd::utf8::*;

use crate::dates::{NtfsTimestamp, Timestamp};
use crate::directory::{DirectoryHeaderView, EntryAttrs};
use crate::encoding::Encoding;
use crate::error::{DecodingError, Error, FormatError};
use crate::extra::{ExtraFieldView, NtfsAttr};
use crate::types::{Method, StoredEntryView};

verus! {

/// Whether `text` is what bytes stand for in an encoding: in UTF-8 they are the encoded text, in
/// codepage 437 each of them is one character, and in Shift JIS they are what the decoder says.
pub open spec fn is_text_of(encoding: Encoding, bytes: Seq<u8>, text: Seq<char>) -> bool {
    match encoding {
        Encoding::Utf8 => encode_utf8(text) == bytes,
        Encoding::Cp437 => {
            &&& text.len() == bytes.len()
            &&& forall|i: int|
                0 <= i < bytes.len() ==> #[trigger] text[i] == crate::encoding::cp437_char(bytes[i])
        },
        Encoding::ShiftJis => crate::encoding::shift_jis_text(bytes) == Some(text),
    }
}

/// Whether bytes can be decoded in an encoding.
pub open spec fn is_decodable(encoding: Encoding, bytes: Seq<u8>) -> bool {
    match encoding {
        Encoding::Utf8 => valid_utf8(bytes),
        Encoding::Cp437 => true,
        Encoding::ShiftJis => bytes.len() <= usize::MAX / 8 && crate::encoding::shift_jis_text(
            bytes,
        ) is Some,
    }
}

/// Why bytes that cannot be decoded are refused.
pub open spec fn decoding_error(encoding: Encoding, bytes: Seq<u8>) -> DecodingError {
    match encoding {
        Encoding::ShiftJis => if bytes.len() > usize::MAX / 8 {
            DecodingError::StringTooLarge
        } else {
            DecodingError::Encoding
        },
        _ => DecodingError::Utf8,
    }
}

/// Decoding gives the text that bytes stand for, wherever they stand for one.
pub proof fn texts_are_what_bytes_stand_for(encoding: Encoding, bytes: Seq<u8>)
    ensures
        match crate::encoding::decoded(encoding, bytes) {
            Ok(text) => is_decodable(encoding, bytes) && is_text_of(encoding, bytes, text),
            Err(e) => !is_decodable(encoding, bytes) && e == decoding_error(encoding, bytes),
        },
{
    if valid_utf8(bytes) {
        decode_utf8_encode_utf8(bytes);
    }
}

/// Bytes stand for one text in an encoding.
pub proof fn texts_are_unique(encoding: Encoding, bytes: Seq<u8>, a: Seq<char>, b: Seq<char>)
    requires
        is_text_of(encoding, bytes, a),
        is_text_of(encoding, bytes, b),
    ensures
        a == b,
{
    if encoding == Encoding::Utf8 {
        encode_utf8_decode_utf8(a);
        encode_utf8_decode_utf8(b);
    } else {
        assert(a =~= b);
    }
}

/// How an entry comes out of a header.
proof fn lemma_described(h: DirectoryHeaderView, encoding: Encoding, e: StoredEntryView)
    requires
        crate::directory::stored_entry(h, encoding) == Ok::<_, Error>(e),
    ensures
        crate::directory::extra_list(h.extra, crate::directory::needed_fields(h)) == Some(
            e.extra_fields,
        ),
        e == crate::directory::described_entry(h, e.entry.name, e.entry.comment, e.extra_fields),
        crate::encoding::decoded(encoding, h.name) == Ok::<_, DecodingError>(e.entry.name),
        crate::directory::decoded_comment(h.comment, encoding) == Ok::<_, Error>(e.entry.comment),
{
}

/// An entry has the checksum, the versions, the flags, the method and the attributes of its header,
/// and the sizes and the offset of it that are not saturated, whatever else the header says.
pub proof fn entries_keep_what_their_headers_say(
    h: DirectoryHeaderView,
    encoding: Encoding,
    e: StoredEntryView,
)
    requires
        crate::directory::stored_entry(h, encoding) == Ok::<_, Error>(e),
    ensures
        e.crc32 == h.crc32,
        e.creator_version == h.creator_version,
        e.reader_version == h.reader_version,
        e.flags == h.flags,
        e.external_attrs == h.external_attrs,
        e.entry.method is Store <==> h.method == 0,
        e.entry.method is Deflate <==> h.method == 8,
        h.method != 0 && h.method != 8 ==> e.entry.method == Method::Unsupported(h.method),
        h.compressed_size < 0xffff_ffff ==> e.compressed_size == h.compressed_size,
        h.uncompressed_size < 0xffff_ffff ==> e.uncompressed_size == h.uncompressed_size,
        h.header_offset < 0xffff_ffff ==> e.header_offset == h.header_offset,
{
    lemma_described(h, encoding, e);
    crate::laws::unsaturated_values_are_kept(h, e.extra_fields);
}

/// The name of an entry is the text that the bytes of the name stand for in the encoding, and so is
/// the comment. An empty comment is none.
pub proof fn entries_are_named_and_commented(
    h: DirectoryHeaderView,
    encoding: Encoding,
    e: StoredEntryView,
)
    requires
        crate::directory::stored_entry(h, encoding) == Ok::<_, Error>(e),
    ensures
        is_text_of(encoding, h.name, e.entry.name),
        match e.entry.comment {
            Some(text) => h.comment.len() > 0 && is_text_of(encoding, h.comment, text),
            None => h.comment.len() == 0,
        },
        h.comment == h.name && h.name.len() > 0 ==> e.entry.comment == Some(e.entry.name),
{
    lemma_described(h, encoding, e);
    texts_are_what_bytes_stand_for(encoding, h.name);
    texts_are_what_bytes_stand_for(encoding, h.comment);
}

/// The comment of an archive or of an entry is the text that its bytes stand for in the encoding.
pub proof fn comments_are_what_bytes_stand_for(encoding: Encoding, bytes: Seq<u8>)
    ensures
        match crate::directory::decoded_comment(bytes, encoding) {
            Ok(Some(text)) => {
                &&& bytes.len() > 0
                &&& is_decodable(encoding, bytes)
                &&& is_text_of(encoding, bytes, text)
                &&& crate::encoding::decoded(encoding, bytes) == Ok::<_, DecodingError>(text)
            },
            Ok(None) => bytes.len() == 0,
            Err(e) => {
                &&& bytes.len() > 0
                &&& !is_decodable(encoding, bytes)
                &&& e == Error::Encoding(decoding_error(encoding, bytes))
            },
        },
{
    texts_are_what_bytes_stand_for(encoding, bytes);
}

/// Whether the bytes are raw extra fields, one behind the other.
pub open spec fn is_framed(s: Seq<u8>) -> bool {
    exists|records: Seq<(u16, Seq<u8>)>|
        crate::extra_written::fit(records) && s == #[trigger] crate::extra_written::joined(records)
}

/// A header describes an entry exactly if its name and its comment can be decoded, and its extra
/// bytes are raw fields. Otherwise the comment is named as the reason, then the name, and then the
/// extra fields.
pub proof fn entries_are_refused_for_a_reason(h: DirectoryHeaderView, encoding: Encoding)
    ensures
        match crate::directory::stored_entry(h, encoding) {
            Ok(_) => {
                &&& h.comment.len() == 0 || is_decodable(encoding, h.comment)
                &&& is_decodable(encoding, h.name)
                &&& is_framed(h.extra)
            },
            Err(e) => if h.comment.len() > 0 && !is_decodable(encoding, h.comment) {
                e == Error::Encoding(decoding_error(encoding, h.comment))
            } else if !is_decodable(encoding, h.name) {
                e == Error::Encoding(decoding_error(encoding, h.name))
            } else {
                e == Error::Format(FormatError::InvalidExtraField) && !is_framed(h.extra)
            },
        },
{
    texts_are_what_bytes_stand_for(encoding, h.name);
    comments_are_what_bytes_stand_for(encoding, h.comment);
    let settings = crate::directory::needed_fields(h);
    if crate::directory::extra_list(h.extra, settings) is Some {
        let records = crate::extra_written::extra_fields_consist_of_records(h.extra, settings);
        assert(h.extra == crate::extra_written::joined(records));
    } else if is_framed(h.extra) {
        let records = choose|records: Seq<(u16, Seq<u8>)>|
            crate::extra_written::fit(records) && h.extra
                == #[trigger] crate::extra_written::joined(records);
        crate::extra_written::extra_fields_are_one_per_record(h, records);
    }
}

/// The extra fields of an entry are one for each raw field of its header, in order, and each is
/// what the bytes of its raw field mean.
pub proof fn entries_have_the_extra_fields_of_their_headers(
    h: DirectoryHeaderView,
    encoding: Encoding,
    e: StoredEntryView,
    records: Seq<(u16, Seq<u8>)>,
)
    requires
        crate::directory::stored_entry(h, encoding) == Ok::<_, Error>(e),
        crate::extra_written::fit(records),
        h.extra == crate::extra_written::joined(records),
    ensures
        e.extra_fields.len() == records.len(),
        forall|k: int|
            0 <= k < records.len() ==> crate::extra_written::represents(
                h,
                (#[trigger] records[k]).0,
                records[k].1,
                e.extra_fields[k],
            ),
{
    lemma_described(h, encoding, e);
    crate::extra_written::extra_fields_are_one_per_record(h, records);
}

/// Whether a raw field is a zip64 field that holds all that a header needs.
pub open spec fn is_zip64_record(h: DirectoryHeaderView, record: (u16, Seq<u8>)) -> bool {
    record.0 == 0x0001 && record.1.len() >= crate::extra_written::zip64_len(h)
}

/// Each value of an entry that is saturated in the header is the 64-bit one that stands at its place
/// in the last zip64 field: the uncompressed size, the compressed size and the header offset, in
/// this order, without those that are not saturated.
pub proof fn saturated_values_come_from_the_zip64_field(
    h: DirectoryHeaderView,
    encoding: Encoding,
    e: StoredEntryView,
    records: Seq<(u16, Seq<u8>)>,
    k: int,
)
    requires
        crate::directory::stored_entry(h, encoding) == Ok::<_, Error>(e),
        crate::extra_written::fit(records),
        h.extra == crate::extra_written::joined(records),
        0 <= k < records.len(),
        is_zip64_record(h, records[k]),
        forall|j: int| k < j < records.len() ==> !is_zip64_record(h, #[trigger] records[j]),
    ensures
        ({
            let p = records[k].1;
            let u = h.uncompressed_size == 0xffff_ffff;
            let c = h.compressed_size == 0xffff_ffff;
            let o = h.header_offset == 0xffff_ffff;
            let at_c = if u {
                8int
            } else {
                0
            };
            let at_o = at_c + if c {
                8int
            } else {
                0
            };
            &&& u ==> p.subrange(0, 8) == crate::written::le8(e.uncompressed_size)
            &&& c ==> p.subrange(at_c, at_c + 8) == crate::written::le8(e.compressed_size)
            &&& o ==> p.subrange(at_o, at_o + 8) == crate::written::le8(e.header_offset)
        }),
{
    lemma_described(h, encoding, e);
    entries_have_the_extra_fields_of_their_headers(h, encoding, e, records);
    assert(crate::extra_written::represents(h, records[k].0, records[k].1, e.extra_fields[k]));
    assert(e.extra_fields[k] is Zip64);
    assert forall|j: int| k < j < records.len() implies e.extra_fields[j] !is Zip64 by {
        assert(crate::extra_written::represents(h, records[j].0, records[j].1, e.extra_fields[j]));
        assert(!is_zip64_record(h, records[j]));
    }
    crate::laws::last_zip64_field_wins(
        crate::directory::plain_attrs(h),
        e.extra_fields,
        k,
    );
}

/// Without a zip64 field that holds what the header needs, saturated values are handed out as they
/// are.
pub proof fn saturated_values_stay_without_a_zip64_field(
    h: DirectoryHeaderView,
    encoding: Encoding,
    e: StoredEntryView,
)
    requires
        crate::directory::stored_entry(h, encoding) == Ok::<_, Error>(e),
        forall|j: int| 0 <= j < e.extra_fields.len() ==> #[trigger] e.extra_fields[j] !is Zip64,
    ensures
        e.uncompressed_size == h.uncompressed_size,
        e.compressed_size == h.compressed_size,
        e.header_offset == h.header_offset,
{
    lemma_described(h, encoding, e);
    crate::laws::lemma_absent_values_are_kept(
        crate::directory::plain_attrs(h),
        e.extra_fields,
    );
}

/// The owner of an entry is the one that its last New Unix field names, in 32 bits. A number that
/// fits is kept as it is.
pub proof fn new_unix_fields_name_the_owner(
    h: DirectoryHeaderView,
    encoding: Encoding,
    e: StoredEntryView,
    k: int,
)
    requires
        crate::directory::stored_entry(h, encoding) == Ok::<_, Error>(e),
        0 <= k < e.extra_fields.len(),
        e.extra_fields[k] is NewUnix,
        forall|j: int| k < j < e.extra_fields.len() ==> e.extra_fields[j] !is NewUnix,
    ensures
        ({
            let f = e.extra_fields[k]->NewUnix_0;
            &&& e.uid matches Some(uid) && {
                &&& (f.uid - uid) % 0x1_0000_0000 == 0
                &&& f.uid <= 0xffff_ffff ==> uid == f.uid
            }
            &&& e.gid matches Some(gid) && {
                &&& (f.gid - gid) % 0x1_0000_0000 == 0
                &&& f.gid <= 0xffff_ffff ==> gid == f.gid
            }
        }),
{
    lemma_described(h, encoding, e);
    crate::laws::new_unix_owner_wins(crate::directory::plain_attrs(h), e.extra_fields, k);
}

/// Without a New Unix field, the owner of an entry is the one that its first Unix field names.
pub proof fn unix_fields_name_the_owner(
    h: DirectoryHeaderView,
    encoding: Encoding,
    e: StoredEntryView,
    k: int,
)
    requires
        crate::directory::stored_entry(h, encoding) == Ok::<_, Error>(e),
        0 <= k < e.extra_fields.len(),
        e.extra_fields[k] is Unix,
        forall|j: int| 0 <= j < k ==> e.extra_fields[j] !is Unix,
        forall|j: int| 0 <= j < e.extra_fields.len() ==> e.extra_fields[j] !is NewUnix,
    ensures
        e.uid matches Some(uid) && uid == e.extra_fields[k]->Unix_0.uid,
        e.gid matches Some(gid) && gid == e.extra_fields[k]->Unix_0.gid,
{
    lemma_described(h, encoding, e);
    crate::laws::first_unix_owner_is_kept(crate::directory::plain_attrs(h), e.extra_fields, k);
}

/// Without a Unix field of either kind, an entry has no owner.
pub proof fn other_fields_name_no_owner(
    h: DirectoryHeaderView,
    encoding: Encoding,
    e: StoredEntryView,
)
    requires
        crate::directory::stored_entry(h, encoding) == Ok::<_, Error>(e),
        forall|j: int|
            0 <= j < e.extra_fields.len() ==> e.extra_fields[j] !is NewUnix && e.extra_fields[j]
                !is Unix,
    ensures
        e.uid is None,
        e.gid is None,
{
    lemma_described(h, encoding, e);
    crate::laws::no_owner_without_unix_fields(crate::directory::plain_attrs(h), e.extra_fields);
}

/// Whether NTFS attributes hold times.
pub open spec fn has_times(attrs: Seq<NtfsAttr>) -> bool {
    exists|i: int| 0 <= i < attrs.len() && #[trigger] attrs[i] is Attr1
}

/// Whether an extra field says when a file was changed.
pub open spec fn tells_modification(field: ExtraFieldView) -> bool {
    match field {
        ExtraFieldView::Timestamp(_) => true,
        ExtraFieldView::Unix(_) => true,
        ExtraFieldView::Ntfs(attrs) => has_times(attrs),
        _ => false,
    }
}

/// Whether a point in time is the one that a number of NTFS ticks stands for: of the ticks of 100
/// nanoseconds since January 1, 1601, 11644473600 seconds lie before the Unix epoch.
pub open spec fn is_ntfs_time(t: Timestamp, ticks: NtfsTimestamp) -> bool {
    &&& t.nanos < 1_000_000_000
    &&& t.nanos % 100 == 0
    &&& (t.secs + 11_644_473_600) * 10_000_000 + t.nanos / 100 == ticks.timestamp
}

/// A number of NTFS ticks stands for one point in time.
pub proof fn ntfs_times_are_counted(ticks: NtfsTimestamp)
    ensures
        crate::dates::ntfs_datetime(ticks) matches Some(t) && is_ntfs_time(t, ticks),
{
    let n = ticks.timestamp as int;
    let (q, r) = (n / 10_000_000, n % 10_000_000);
    assert(n == q * 10_000_000 + r);
}

/// The times of the last times attribute are those that an NTFS field gives.
proof fn lemma_last_times(a: EntryAttrs, attrs: Seq<NtfsAttr>, i: int)
    requires
        0 <= i < attrs.len(),
        attrs[i] is Attr1,
        forall|j: int| i < j < attrs.len() ==> attrs[j] !is Attr1,
    ensures
        ({
            let b = crate::directory::apply_extra(a, ExtraFieldView::Ntfs(attrs));
            let t = attrs[i]->Attr1_0;
            &&& b.modified matches Some(m) && is_ntfs_time(m, t.mtime)
            &&& b.accessed matches Some(m) && is_ntfs_time(m, t.atime)
            &&& b.created matches Some(m) && is_ntfs_time(m, t.ctime)
        }),
    decreases attrs.len(),
{
    if i < attrs.len() - 1 {
        lemma_last_times(a, attrs.drop_last(), i);
    } else {
        let t = attrs[i]->Attr1_0;
        ntfs_times_are_counted(t.mtime);
        ntfs_times_are_counted(t.atime);
        ntfs_times_are_counted(t.ctime);
    }
}

/// An NTFS field without times leaves the times as they are.
proof fn lemma_timeless(a: EntryAttrs, attrs: Seq<NtfsAttr>)
    requires
        !has_times(attrs),
    ensures
        ({
            let b = crate::directory::apply_extra(a, ExtraFieldView::Ntfs(attrs));
            b.modified == a.modified && b.accessed == a.accessed && b.created == a.created
        }),
    decreases attrs.len(),
{
    if attrs.len() > 0 {
        assert(attrs[attrs.len() - 1] !is Attr1);
        assert forall|i: int| 0 <= i < attrs.len() - 1 implies #[trigger] attrs.drop_last()[i] !is Attr1 by {
            assert(attrs[i] !is Attr1);
        }
        lemma_timeless(a, attrs.drop_last());
    }
}

/// Whether a point in time is the modification time that an extra field gives.
pub open spec fn is_modification_of(t: Timestamp, field: ExtraFieldView) -> bool {
    match field {
        ExtraFieldView::Timestamp(f) => t.secs == f.mtime && t.nanos == 0,
        ExtraFieldView::Unix(f) => t.secs == f.mtime && t.nanos == 0,
        ExtraFieldView::Ntfs(attrs) => exists|i: int|
            {
                &&& 0 <= i < attrs.len()
                &&& #[trigger] attrs[i] is Attr1
                &&& forall|j: int| i < j < attrs.len() ==> attrs[j] !is Attr1
                &&& is_ntfs_time(t, attrs[i]->Attr1_0.mtime)
            },
        _ => false,
    }
}

/// The last times attribute, where there is one.
proof fn lemma_last_index(attrs: Seq<NtfsAttr>) -> (i: int)
    requires
        has_times(attrs),
    ensures
        0 <= i < attrs.len(),
        attrs[i] is Attr1,
        forall|j: int| i < j < attrs.len() ==> attrs[j] !is Attr1,
    decreases attrs.len(),
{
    if attrs.last() is Attr1 {
        attrs.len() - 1
    } else {
        let w = choose|i: int| 0 <= i < attrs.len() && #[trigger] attrs[i] is Attr1;
        assert(attrs.drop_last()[w] is Attr1);
        let i = lemma_last_index(attrs.drop_last());
        assert(attrs.drop_last()[i] == attrs[i]);
        assert forall|j: int| i < j < attrs.len() implies attrs[j] !is Attr1 by {
            if j < attrs.len() - 1 {
                assert(attrs.drop_last()[j] == attrs[j]);
            }
        }
        i
    }
}

/// The last field that gives a modification time decides.
proof fn lemma_last_modification(a: EntryAttrs, fields: Seq<ExtraFieldView>, k: int)
    requires
        0 <= k < fields.len(),
        tells_modification(fields[k]),
        forall|j: int| k < j < fields.len() ==> !tells_modification(#[trigger] fields[j]),
    ensures
        crate::directory::apply_extras(a, fields).modified matches Some(t) && is_modification_of(
            t,
            fields[k],
        ),
    decreases fields.len(),
{
    let before = crate::directory::apply_extras(a, fields.drop_last());
    if k < fields.len() - 1 {
        assert(!tells_modification(fields[fields.len() - 1]));
        assert forall|j: int| k < j < fields.len() - 1 implies !tells_modification(
            #[trigger] fields.drop_last()[j],
        ) by {
            assert(fields.drop_last()[j] == fields[j]);
        }
        lemma_last_modification(a, fields.drop_last(), k);
        if let ExtraFieldView::Ntfs(attrs) = fields.last() {
            lemma_timeless(before, attrs);
        }
    } else if let ExtraFieldView::Ntfs(attrs) = fields.last() {
        let i = lemma_last_index(attrs);
        lemma_last_times(before, attrs, i);
    }
}

/// Where extra fields say when a file was changed, the last of them that does decides, and the
/// MS-DOS date and time of the header do not matter.
pub proof fn extra_fields_tell_the_modification(
    h: DirectoryHeaderView,
    encoding: Encoding,
    e: StoredEntryView,
    k: int,
)
    requires
        crate::directory::stored_entry(h, encoding) == Ok::<_, Error>(e),
        0 <= k < e.extra_fields.len(),
        tells_modification(e.extra_fields[k]),
        forall|j: int| k < j < e.extra_fields.len() ==> !tells_modification(
            #[trigger] e.extra_fields[j],
        ),
    ensures
        is_modification_of(e.entry.modified, e.extra_fields[k]),
{
    lemma_described(h, encoding, e);
    lemma_last_modification(crate::directory::plain_attrs(h), e.extra_fields, k);
}

/// Two headers that differ in their MS-DOS dates and times alone describe the same entry, as long as
/// an extra field says when the file was changed.
pub proof fn msdos_times_do_not_matter_beside_others(
    h: DirectoryHeaderView,
    other: DirectoryHeaderView,
    encoding: Encoding,
    e: StoredEntryView,
    k: int,
)
    requires
        other == (DirectoryHeaderView { modified: other.modified, ..h }),
        crate::directory::stored_entry(h, encoding) == Ok::<_, Error>(e),
        0 <= k < e.extra_fields.len(),
        tells_modification(e.extra_fields[k]),
    ensures
        crate::directory::stored_entry(other, encoding) == Ok::<_, Error>(e),
{
    lemma_described(h, encoding, e);
    let last = lemma_last_telling(e.extra_fields);
    lemma_last_modification(crate::directory::plain_attrs(h), e.extra_fields, last);
    assert(crate::directory::plain_attrs(other) == crate::directory::plain_attrs(h));
    assert(crate::directory::needed_fields(other) == crate::directory::needed_fields(h));
}

/// The last field that gives a modification time, where there is one.
proof fn lemma_last_telling(fields: Seq<ExtraFieldView>) -> (k: int)
    requires
        exists|k: int| 0 <= k < fields.len() && tells_modification(#[trigger] fields[k]),
    ensures
        0 <= k < fields.len(),
        tells_modification(fields[k]),
        forall|j: int| k < j < fields.len() ==> !tells_modification(#[trigger] fields[j]),
    decreases fields.len(),
{
    if tells_modification(fields.last()) {
        fields.len() - 1
    } else {
        let w = choose|k: int| 0 <= k < fields.len() && tells_modification(#[trigger] fields[k]);
        assert(tells_modification(fields.drop_last()[w]));
        let k = lemma_last_telling(fields.drop_last());
        assert(fields.drop_last()[k] == fields[k]);
        assert forall|j: int| k < j < fields.len() implies !tells_modification(
            #[trigger] fields[j],
        ) by {
            if j < fields.len() - 1 {
                assert(fields.drop_last()[j] == fields[j]);
            }
        }
        k
    }
}

/// Whether an extra field holds NTFS times.
pub open spec fn holds_ntfs_times(field: ExtraFieldView) -> bool {
    field matches ExtraFieldView::Ntfs(attrs) && has_times(attrs)
}

/// The times of creation and access are those of the last NTFS field that has times.
proof fn lemma_last_ntfs(a: EntryAttrs, fields: Seq<ExtraFieldView>, k: int, i: int)
    requires
        0 <= k < fields.len(),
        fields[k] is Ntfs,
        0 <= i < fields[k]->Ntfs_0.len(),
        fields[k]->Ntfs_0[i] is Attr1,
        forall|j: int| i < j < fields[k]->Ntfs_0.len() ==> fields[k]->Ntfs_0[j] !is Attr1,
        forall|j: int| k < j < fields.len() ==> !holds_ntfs_times(#[trigger] fields[j]),
    ensures
        ({
            let b = crate::directory::apply_extras(a, fields);
            let t = fields[k]->Ntfs_0[i]->Attr1_0;
            &&& b.accessed matches Some(m) && is_ntfs_time(m, t.atime)
            &&& b.created matches Some(m) && is_ntfs_time(m, t.ctime)
        }),
    decreases fields.len(),
{
    let before = crate::directory::apply_extras(a, fields.drop_last());
    if k < fields.len() - 1 {
        assert(!holds_ntfs_times(fields[fields.len() - 1]));
        assert forall|j: int| k < j < fields.len() - 1 implies !holds_ntfs_times(
            #[trigger] fields.drop_last()[j],
        ) by {
            assert(fields.drop_last()[j] == fields[j]);
        }
        lemma_last_ntfs(a, fields.drop_last(), k, i);
        if let ExtraFieldView::Ntfs(attrs) = fields.last() {
            lemma_timeless(before, attrs);
        }
    } else {
        lemma_last_times(before, fields.last()->Ntfs_0, i);
    }
}

/// Without NTFS times, the times of creation and access stay as they are.
proof fn lemma_no_ntfs(a: EntryAttrs, fields: Seq<ExtraFieldView>)
    requires
        forall|j: int| 0 <= j < fields.len() ==> !holds_ntfs_times(#[trigger] fields[j]),
    ensures
        crate::directory::apply_extras(a, fields).accessed == a.accessed,
        crate::directory::apply_extras(a, fields).created == a.created,
    decreases fields.len(),
{
    if fields.len() > 0 {
        let before = crate::directory::apply_extras(a, fields.drop_last());
        assert(!holds_ntfs_times(fields[fields.len() - 1]));
        assert forall|j: int| 0 <= j < fields.len() - 1 implies !holds_ntfs_times(
            #[trigger] fields.drop_last()[j],
        ) by {
            assert(fields.drop_last()[j] == fields[j]);
        }
        lemma_no_ntfs(a, fields.drop_last());
        if let ExtraFieldView::Ntfs(attrs) = fields.last() {
            lemma_timeless(before, attrs);
        }
    }
}

/// The times of creation and access of an entry are those of the last times attribute of its last
/// NTFS field that has one.
pub proof fn ntfs_fields_tell_creation_and_access(
    h: DirectoryHeaderView,
    encoding: Encoding,
    e: StoredEntryView,
    k: int,
    i: int,
)
    requires
        crate::directory::stored_entry(h, encoding) == Ok::<_, Error>(e),
        0 <= k < e.extra_fields.len(),
        e.extra_fields[k] is Ntfs,
        0 <= i < e.extra_fields[k]->Ntfs_0.len(),
        e.extra_fields[k]->Ntfs_0[i] is Attr1,
        forall|j: int|
            i < j < e.extra_fields[k]->Ntfs_0.len() ==> e.extra_fields[k]->Ntfs_0[j] !is Attr1,
        forall|j: int| k < j < e.extra_fields.len() ==> !holds_ntfs_times(
            #[trigger] e.extra_fields[j],
        ),
    ensures
        e.entry.accessed matches Some(t) && is_ntfs_time(
            t,
            e.extra_fields[k]->Ntfs_0[i]->Attr1_0.atime,
        ),
        e.entry.created matches Some(t) && is_ntfs_time(
            t,
            e.extra_fields[k]->Ntfs_0[i]->Attr1_0.ctime,
        ),
{
    lemma_described(h, encoding, e);
    lemma_last_ntfs(crate::directory::plain_attrs(h), e.extra_fields, k, i);
}

/// Without NTFS times, nothing is known of creation and access.
pub proof fn other_fields_tell_no_creation_and_access(
    h: DirectoryHeaderView,
    encoding: Encoding,
    e: StoredEntryView,
)
    requires
        crate::directory::stored_entry(h, encoding) == Ok::<_, Error>(e),
        forall|j: int| 0 <= j < e.extra_fields.len() ==> !holds_ntfs_times(
            #[trigger] e.extra_fields[j],
        ),
    ensures
        e.entry.accessed is None,
        e.entry.created is None,
{
    lemma_described(h, encoding, e);
    lemma_no_ntfs(crate::directory::plain_attrs(h), e.extra_fields);
}

/// A leap year.
pub open spec fn is_leap(year: int) -> bool {
    year % 400 == 0 || (year % 4 == 0 && year % 100 != 0)
}

/// The number of days of the months of a year up to the end of a month.
pub open spec fn days_through(year: int, month: int) -> int {
    let leap = if is_leap(year) {
        1int
    } else {
        0
    };
    if month <= 0 {
        0
    } else if month == 1 {
        31
    } else if month == 2 {
        59 + leap
    } else if month == 3 {
        90 + leap
    } else if month == 4 {
        120 + leap
    } else if month == 5 {
        151 + leap
    } else if month == 6 {
        181 + leap
    } else if month == 7 {
        212 + leap
    } else if month == 8 {
        243 + leap
    } else if month == 9 {
        273 + leap
    } else if month == 10 {
        304 + leap
    } else if month == 11 {
        334 + leap
    } else {
        365 + leap
    }
}

/// The number of days from January 1, 1970 to January 1 of a later year, counted year by year.
pub open spec fn days_to_year(year: int) -> int
    decreases year,
{
    if year <= 1970 {
        0
    } else {
        days_to_year(year - 1) + if is_leap(year - 1) {
            366int
        } else {
            365
        }
    }
}

/// The years are counted as they come.
proof fn lemma_days_to_year(year: int)
    requires
        year >= 1970,
    ensures
        days_to_year(year) == crate::dates::days_before_year(year) - crate::dates::days_before_year(
            1970,
        ),
    decreases year,
{
    if year > 1970 {
        lemma_days_to_year(year - 1);
        let y = year - 2;
        assert((y + 1) / 4 - y / 4 == if (y + 1) % 4 == 0 {
            1int
        } else {
            0
        });
        assert((y + 1) / 100 - y / 100 == if (y + 1) % 100 == 0 {
            1int
        } else {
            0
        });
        assert((y + 1) / 400 - y / 400 == if (y + 1) % 400 == 0 {
            1int
        } else {
            0
        });
    }
}

/// The months are counted as they come.
proof fn lemma_days_through(year: int, month: int)
    requires
        1 <= month <= 12,
    ensures
        crate::dates::days_before_month(year, month) == days_through(year, month - 1),
        crate::dates::days_in_month(year, month) == days_through(year, month) - days_through(
            year,
            month - 1,
        ),
    decreases month,
{
    if month > 1 {
        lemma_days_through(year, month - 1);
    } else {
        assert(crate::dates::days_before_month(year, 1) == 0);
    }
}

/// The parts of a packed date or time.
proof fn lemma_parts(packed: int, high: int, middle: int, low: int, width: int)
    requires
        width == 16 || width == 64,
        0 <= high,
        0 <= middle < width,
        0 <= low < 32,
        packed == high * (width * 32) + middle * 32 + low,
    ensures
        packed / (width * 32) == high,
        packed / 32 % width == middle,
        packed % 32 == low,
{
    if width == 16 {
        assert(packed == high * 512 + middle * 32 + low);
        assert(packed / 32 == high * 16 + middle);
    } else {
        assert(packed == high * 2048 + middle * 32 + low);
        assert(packed / 32 == high * 64 + middle);
    }
}

/// The seconds to a day and a time of day.
proof fn lemma_civil(year: int, month: int, day: int, hour: int, min: int, sec: int)
    requires
        1980 <= year < 2108,
        0 <= month < 16,
        0 <= day < 32,
        0 <= hour < 32,
        0 <= min < 64,
        0 <= sec < 64,
    ensures
        ({
            let res = crate::dates::civil_timestamp(year, month, day, hour, min, sec);
            if 1 <= month <= 12 && 1 <= day <= days_through(year, month) - days_through(
                year,
                month - 1,
            ) && hour < 24 && min < 60 && sec < 60 {
                &&& res matches Some(time)
                &&& time.nanos == 0
                &&& time.secs == (days_to_year(year) + days_through(year, month - 1) + day - 1)
                    * 86_400 + hour * 3_600 + min * 60 + sec
            } else {
                res is None
            }
        }),
{
    lemma_days_to_year(year);
    lemma_days_bound(year);
    if 1 <= month <= 12 {
        lemma_days_through(year, month);
    }
}

/// An MS-DOS date and time that are put together out of their parts stand for the seconds from the
/// Unix epoch to them. Months and days that the calendar does not have, and times of day that do
/// not exist, stand for nothing.
pub proof fn msdos_times_are_counted(
    year: int,
    month: int,
    day: int,
    hour: int,
    min: int,
    half: int,
    t: crate::dates::MsdosTimestamp,
)
    requires
        1980 <= year < 2108,
        0 <= month < 16,
        0 <= day < 32,
        0 <= hour < 32,
        0 <= min < 64,
        0 <= half < 32,
        t.date == (year - 1980) * 512 + month * 32 + day,
        t.time == hour * 2048 + min * 32 + half,
    ensures
        ({
            let res = crate::dates::msdos_datetime(t);
            if 1 <= month <= 12 && 1 <= day <= days_through(year, month) - days_through(
                year,
                month - 1,
            ) && hour < 24 && min < 60 && half < 30 {
                &&& res matches Some(time)
                &&& time.nanos == 0
                &&& time.secs == (days_to_year(year) + days_through(year, month - 1) + day - 1)
                    * 86_400 + hour * 3_600 + min * 60 + half * 2
            } else {
                res is None
            }
        }),
{
    lemma_parts(t.date as int, year - 1980, month, day, 16);
    lemma_parts(t.time as int, hour, min, half, 64);
    lemma_civil(year, month, day, hour, min, half * 2);
}

/// The count of days stays small.
proof fn lemma_days_bound(year: int)
    requires
        1970 <= year < 2108,
    ensures
        0 <= days_to_year(year) <= (year - 1970) * 366,
    decreases year,
{
    if year > 1970 {
        lemma_days_bound(year - 1);
    }
}

/// Without an extra field that says when a file was changed, the MS-DOS date and time of the header
/// do, and where they stand for nothing the Unix epoch does.
pub proof fn msdos_times_tell_the_modification(
    h: DirectoryHeaderView,
    encoding: Encoding,
    e: StoredEntryView,
)
    requires
        crate::directory::stored_entry(h, encoding) == Ok::<_, Error>(e),
        forall|j: int| 0 <= j < e.extra_fields.len() ==> !tells_modification(
            #[trigger] e.extra_fields[j],
        ),
    ensures
        match crate::dates::msdos_datetime(h.modified) {
            Some(t) => e.entry.modified == t,
            None => e.entry.modified.secs == 0 && e.entry.modified.nanos == 0,
        },
{
    lemma_described(h, encoding, e);
    lemma_untold(crate::directory::plain_attrs(h), e.extra_fields);
}

/// Fields that do not say when a file was changed leave that open.
proof fn lemma_untold(a: EntryAttrs, fields: Seq<ExtraFieldView>)
    requires
        forall|j: int| 0 <= j < fields.len() ==> !tells_modification(#[trigger] fields[j]),
    ensures
        crate::directory::apply_extras(a, fields).modified == a.modified,
    decreases fields.len(),
{
    if fields.len() > 0 {
        let before = crate::directory::apply_extras(a, fields.drop_last());
        assert(!tells_modification(fields[fields.len() - 1]));
        assert forall|j: int| 0 <= j < fields.len() - 1 implies !tells_modification(
            #[trigger] fields.drop_last()[j],
        ) by {
            assert(fields.drop_last()[j] == fields[j]);
        }
        lemma_untold(a, fields.drop_last());
        if let ExtraFieldView::Ntfs(attrs) = fields.last() {
            lemma_timeless(before, attrs);
        }
    }
}

} // verus!
