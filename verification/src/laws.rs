//! What holds of the library as a whole: properties of several functions, or of all inputs.
use vstd::prelude::*;
use vstd::utf8::*;

use crate::buffer::BufferView;
use crate::directory::{DirectoryHeaderView, EntryAttrs};
use crate::encoding::Encoding;
use crate::eocd::{
    EndOfCentralDirectory64Record, EndOfCentralDirectoryRecordView, EndOfCentralDirectoryView,
    Located,
};
use crate::error::{Error, FormatError};
use crate::extra::{ExtraFieldSettings, ExtraFieldView};
use crate::reader::{ArchiveReaderResultView, ReaderView, StateView};
use crate::types::StoredEntryView;

verus! {

/// A located value, found `by` bytes later.
pub open spec fn shifted<T>(located: Located<T>, by: u64) -> Located<T> {
    Located { offset: (located.offset + by) as u64, ..located }
}

/// An optional located value, found `by` bytes later.
pub open spec fn shifted_option<T>(located: Option<Located<T>>, by: u64) -> Option<Located<T>> {
    match located {
        Some(l) => Some(shifted(l, by)),
        None => None,
    }
}

/// The records of a pure zip file: the directory starts where they say, within the file, and ends
/// where the record begins that describes it.
pub open spec fn is_pure(size: u64, found: EndOfCentralDirectoryView) -> bool {
    &&& found.directory_offset() < size
    &&& found.directory_offset() + found.directory_size() == found.located_directory_offset()
    &&& found.global_offset == 0
}

/// The records of a pure zip file are taken as they are.
pub proof fn pure_archives_are_kept(
    size: u64,
    dir: Located<EndOfCentralDirectoryRecordView>,
    dir64: Option<Located<EndOfCentralDirectory64Record>>,
)
    requires
        is_pure(size, (EndOfCentralDirectoryView { dir, dir64, global_offset: 0 })),
    ensures
        crate::eocd::end_of_central_directory(size, dir, dir64) == Ok::<_, Error>(
            (EndOfCentralDirectoryView { dir, dir64, global_offset: 0 }),
        ),
{
}

/// Bytes before a zip file are skipped: the directory is found where it was moved to, and the
/// number of the bytes is noted. A directory without a zip64 record has to start in the first
/// four gigabytes.
pub proof fn padding_is_skipped(
    size: u64,
    dir: Located<EndOfCentralDirectoryRecordView>,
    dir64: Option<Located<EndOfCentralDirectory64Record>>,
    padding: u64,
)
    requires
        is_pure(size, (EndOfCentralDirectoryView { dir, dir64, global_offset: 0 })),
        size + padding <= i64::MAX,
        dir.offset <= size,
        dir64 matches Some(d64) ==> d64.offset <= size,
        dir64 is None ==> dir.inner.directory_offset + padding <= u32::MAX,
    ensures
        ({
            let found = EndOfCentralDirectoryView { dir, dir64, global_offset: 0 };
            let res = crate::eocd::end_of_central_directory(
                (size + padding) as u64,
                shifted(dir, padding),
                shifted_option(dir64, padding),
            );
            &&& res matches Ok(eocd)
            &&& eocd.directory_offset() == found.directory_offset() + padding
            &&& eocd.global_offset == padding
            &&& eocd.directory_size() == found.directory_size()
            &&& eocd.directory_records() == found.directory_records()
            &&& eocd.dir.inner.comment == found.dir.inner.comment
        }),
{
    let found = EndOfCentralDirectoryView { dir, dir64, global_offset: 0 };
    let moved = EndOfCentralDirectoryView {
        dir: shifted(dir, padding),
        dir64: shifted_option(dir64, padding),
        global_offset: 0,
    };
    assert(moved.computed_directory_offset() == found.directory_offset() + padding);
    assert(moved.directory_offset() == found.directory_offset());
}

/// The directory of an archive starts within the file, or the records are refused. Besides the
/// start of the directory, what the records say is kept.
pub proof fn directory_starts_in_the_file(
    size: u64,
    dir: Located<EndOfCentralDirectoryRecordView>,
    dir64: Option<Located<EndOfCentralDirectory64Record>>,
)
    ensures
        ({
            let found = EndOfCentralDirectoryView { dir, dir64, global_offset: 0 };
            match crate::eocd::end_of_central_directory(size, dir, dir64) {
                Ok(eocd) => {
                    &&& eocd.directory_offset() < size
                    &&& eocd.located_directory_offset() == found.located_directory_offset()
                    &&& eocd.directory_size() == found.directory_size()
                    &&& eocd.directory_records() == found.directory_records()
                    &&& eocd.dir.inner.comment == found.dir.inner.comment
                },
                Err(e) => e == Error::Format(FormatError::DirectoryOffsetPointsOutsideFile),
            }
        }),
{
}

/// The start of the directory is what it was last set to, where it fits the record, and setting it
/// changes nothing else.
pub proof fn directory_offset_is_set(eocd: EndOfCentralDirectoryView, offset: u64)
    requires
        eocd.dir64 is Some || offset <= u32::MAX,
    ensures
        ({
            let after = eocd.with_directory_offset(offset);
            &&& after.directory_offset() == offset
            &&& after.located_directory_offset() == eocd.located_directory_offset()
            &&& after.directory_size() == eocd.directory_size()
            &&& after.directory_records() == eocd.directory_records()
            &&& after.dir.inner.comment == eocd.dir.inner.comment
            &&& after.global_offset == eocd.global_offset
            &&& after.with_directory_offset(eocd.directory_offset()) == eocd
        }),
{
    let back = eocd.with_directory_offset(offset).with_directory_offset(eocd.directory_offset());
    if eocd.dir64 is Some {
        assert(back.dir64->0 == eocd.dir64->0);
    } else {
        assert(back.dir.inner =~= eocd.dir.inner);
    }
    assert(back =~= eocd);
}

/// The owner that the last Info-ZIP New Unix field names is the owner of an entry, whatever Unix
/// fields stand before or behind it.
pub proof fn new_unix_owner_wins(a: EntryAttrs, fields: Seq<ExtraFieldView>, k: int)
    requires
        0 <= k < fields.len(),
        fields[k] is NewUnix,
        forall|j: int| k < j < fields.len() ==> fields[j] !is NewUnix,
    ensures
        crate::directory::apply_extras(a, fields).uid == Some(
            crate::directory::low_half(fields[k]->NewUnix_0.uid),
        ),
        crate::directory::apply_extras(a, fields).gid == Some(
            crate::directory::low_half(fields[k]->NewUnix_0.gid),
        ),
    decreases fields.len(),
{
    if k < fields.len() - 1 {
        new_unix_owner_wins(a, fields.drop_last(), k);
        lemma_ntfs_keeps(
            crate::directory::apply_extras(a, fields.drop_last()),
            fields.last(),
        );
    }
}

/// Without an Info-ZIP New Unix field, the owner that the first Unix field names is the owner of an
/// entry.
pub proof fn first_unix_owner_is_kept(a: EntryAttrs, fields: Seq<ExtraFieldView>, k: int)
    requires
        a.uid is None,
        a.gid is None,
        0 <= k < fields.len(),
        fields[k] is Unix,
        forall|j: int| 0 <= j < k ==> fields[j] !is Unix,
        forall|j: int| 0 <= j < fields.len() ==> fields[j] !is NewUnix,
    ensures
        crate::directory::apply_extras(a, fields).uid == Some(fields[k]->Unix_0.uid as u32),
        crate::directory::apply_extras(a, fields).gid == Some(fields[k]->Unix_0.gid as u32),
    decreases fields.len(),
{
    if k < fields.len() - 1 {
        first_unix_owner_is_kept(a, fields.drop_last(), k);
        lemma_ntfs_keeps(
            crate::directory::apply_extras(a, fields.drop_last()),
            fields.last(),
        );
    } else {
        no_owner_without_unix_fields(a, fields.drop_last());
    }
}

/// Without a Unix field of either kind, the owner is left as it is.
pub proof fn no_owner_without_unix_fields(a: EntryAttrs, fields: Seq<ExtraFieldView>)
    requires
        forall|j: int| 0 <= j < fields.len() ==> fields[j] !is Unix && fields[j] !is NewUnix,
    ensures
        crate::directory::apply_extras(a, fields).uid == a.uid,
        crate::directory::apply_extras(a, fields).gid == a.gid,
    decreases fields.len(),
{
    if fields.len() > 0 {
        no_owner_without_unix_fields(a, fields.drop_last());
        lemma_ntfs_keeps(
            crate::directory::apply_extras(a, fields.drop_last()),
            fields.last(),
        );
    }
}

/// An NTFS field changes nothing but the times.
pub(crate) proof fn lemma_ntfs_keeps(a: EntryAttrs, field: ExtraFieldView)
    ensures
        field matches ExtraFieldView::Ntfs(attrs) ==> {
            let b = crate::directory::apply_extra(a, field);
            b == EntryAttrs { modified: b.modified, created: b.created, accessed: b.accessed, ..a }
        },
    decreases field->Ntfs_0.len(),
{
    if let ExtraFieldView::Ntfs(attrs) = field {
        if attrs.len() > 0 {
            lemma_ntfs_keeps(a, ExtraFieldView::Ntfs(attrs.drop_last()));
        }
    }
}

/// The sizes and the offset of an entry are those of the last zip64 field that has them.
pub proof fn last_zip64_field_wins(a: EntryAttrs, fields: Seq<ExtraFieldView>, k: int)
    requires
        0 <= k < fields.len(),
        fields[k] is Zip64,
        forall|j: int| k < j < fields.len() ==> fields[j] !is Zip64,
    ensures
        fields[k]->Zip64_0.uncompressed_size matches Some(n)
            ==> crate::directory::apply_extras(a, fields).uncompressed_size == n,
        fields[k]->Zip64_0.compressed_size matches Some(n)
            ==> crate::directory::apply_extras(a, fields).compressed_size == n,
        fields[k]->Zip64_0.header_offset matches Some(n)
            ==> crate::directory::apply_extras(a, fields).header_offset == n,
    decreases fields.len(),
{
    if k < fields.len() - 1 {
        last_zip64_field_wins(a, fields.drop_last(), k);
        lemma_ntfs_keeps(
            crate::directory::apply_extras(a, fields.drop_last()),
            fields.last(),
        );
    }
}

/// Every zip64 field that is parsed has exactly the values that are needed.
proof fn lemma_zip64_has_what_is_needed(
    s: Seq<u8>,
    settings: ExtraFieldSettings,
    fields: Seq<ExtraFieldView>,
)
    requires
        crate::directory::extra_list(s, settings) == Some(fields),
    ensures
        forall|j: int|
            0 <= j < fields.len() && #[trigger] fields[j] is Zip64 ==> {
                let f = fields[j]->Zip64_0;
                &&& f.uncompressed_size is Some == settings.needs_uncompressed_size
                &&& f.compressed_size is Some == settings.needs_compressed_size
                &&& f.header_offset is Some == settings.needs_header_offset
            },
    decreases s.len(),
{
    if s.len() > 0 {
        let (rest, field) = crate::extra::extra_field(s, settings)->Ok_0;
        assert(rest.len() < s.len());
        let more = crate::directory::extra_list(rest, settings)->Some_0;
        lemma_zip64_has_what_is_needed(rest, settings, more);
        assert forall|j: int| 0 <= j < fields.len() && #[trigger] fields[j] is Zip64 implies ({
            let f = fields[j]->Zip64_0;
            &&& f.uncompressed_size is Some == settings.needs_uncompressed_size
            &&& f.compressed_size is Some == settings.needs_compressed_size
            &&& f.header_offset is Some == settings.needs_header_offset
        }) by {
            if j == 0 {
                assert(fields[j] == field);
            } else {
                assert(fields[j] == more[j - 1]);
            }
        }
    }
}

/// A value that a header has room for is kept, whatever zip64 fields follow it.
pub proof fn unsaturated_values_are_kept(h: DirectoryHeaderView, fields: Seq<ExtraFieldView>)
    requires
        crate::directory::extra_list(h.extra, crate::directory::needed_fields(h)) == Some(fields),
    ensures
        ({
            let a = crate::directory::apply_extras(crate::directory::plain_attrs(h), fields);
            &&& h.uncompressed_size != u32::MAX ==> a.uncompressed_size == h.uncompressed_size
            &&& h.compressed_size != u32::MAX ==> a.compressed_size == h.compressed_size
            &&& h.header_offset != u32::MAX ==> a.header_offset == h.header_offset
        }),
{
    lemma_zip64_has_what_is_needed(h.extra, crate::directory::needed_fields(h), fields);
    lemma_absent_values_are_kept(crate::directory::plain_attrs(h), fields);
}

/// A value that no zip64 field has is kept.
pub(crate) proof fn lemma_absent_values_are_kept(a: EntryAttrs, fields: Seq<ExtraFieldView>)
    ensures
        ({
            let b = crate::directory::apply_extras(a, fields);
            &&& (forall|j: int|
                0 <= j < fields.len() && #[trigger] fields[j] is Zip64
                    ==> fields[j]->Zip64_0.uncompressed_size is None) ==> b.uncompressed_size
                == a.uncompressed_size
            &&& (forall|j: int|
                0 <= j < fields.len() && #[trigger] fields[j] is Zip64
                    ==> fields[j]->Zip64_0.compressed_size is None) ==> b.compressed_size
                == a.compressed_size
            &&& (forall|j: int|
                0 <= j < fields.len() && #[trigger] fields[j] is Zip64
                    ==> fields[j]->Zip64_0.header_offset is None) ==> b.header_offset
                == a.header_offset
        }),
    decreases fields.len(),
{
    if fields.len() > 0 {
        lemma_absent_values_are_kept(a, fields.drop_last());
        lemma_ntfs_keeps(
            crate::directory::apply_extras(a, fields.drop_last()),
            fields.last(),
        );
        assert(fields[fields.len() - 1] == fields.last());
        assert forall|j: int| 0 <= j < fields.len() - 1 implies #[trigger] fields.drop_last()[j]
            == fields[j] by {}
    }
}

/// Whether a field says when a file was changed.
pub open spec fn is_time_field(field: ExtraFieldView) -> bool {
    field is Timestamp || field is Unix || field is Ntfs
}

/// Without an extra field that says when a file was changed, its MS-DOS date does, and the Unix
/// epoch stands in where that is no date. No times of creation and access are known then.
pub proof fn msdos_time_is_the_fallback(
    h: DirectoryHeaderView,
    name: Seq<char>,
    comment: Option<Seq<char>>,
    fields: Seq<ExtraFieldView>,
)
    requires
        forall|j: int| 0 <= j < fields.len() ==> !is_time_field(#[trigger] fields[j]),
    ensures
        ({
            let e = crate::directory::described_entry(h, name, comment, fields).entry;
            &&& match crate::dates::msdos_datetime(h.modified) {
                Some(t) => e.modified == t,
                None => e.modified.secs == 0 && e.modified.nanos == 0,
            }
            &&& e.created is None
            &&& e.accessed is None
        }),
{
    lemma_no_times(crate::directory::plain_attrs(h), fields);
}

/// Fields that say nothing of times leave the times as they are.
proof fn lemma_no_times(a: EntryAttrs, fields: Seq<ExtraFieldView>)
    requires
        forall|j: int| 0 <= j < fields.len() ==> !is_time_field(#[trigger] fields[j]),
    ensures
        ({
            let b = crate::directory::apply_extras(a, fields);
            &&& b.modified == a.modified
            &&& b.created == a.created
            &&& b.accessed == a.accessed
        }),
    decreases fields.len(),
{
    if fields.len() > 0 {
        assert(!is_time_field(fields[fields.len() - 1]));
        assert forall|j: int| 0 <= j < fields.len() - 1 implies !is_time_field(
            #[trigger] fields.drop_last()[j],
        ) by {
            assert(fields.drop_last()[j] == fields[j]);
        }
        lemma_no_times(a, fields.drop_last());
    }
}

/// Names and comments in which every byte means the same in all common encodings are not taken for
/// anything else than UTF-8, whether they are marked or not.
pub proof fn plain_texts_are_utf8(h: DirectoryHeaderView)
    requires
        !crate::encoding::requires_utf8(h.name),
        !crate::encoding::requires_utf8(h.comment),
    ensures
        !crate::directory::is_non_utf8(h),
        crate::encoding::decoded(Encoding::Utf8, h.name) == Ok::<_, crate::error::DecodingError>(
            crate::encoding::ascii_text(h.name),
        ),
{
    assert forall|i: int| 0 <= i < h.name.len() implies h.name[i] < 0x80 by {
        assert(!crate::encoding::is_ambiguous_byte(h.name[i]));
    }
    assert forall|i: int| 0 <= i < h.comment.len() implies h.comment[i] < 0x80 by {
        assert(!crate::encoding::is_ambiguous_byte(h.comment[i]));
    }
    crate::encoding::ascii_is_utf8(h.name);
    crate::encoding::ascii_is_utf8(h.comment);
}

/// Valid UTF-8 that is marked as such is taken for it.
pub proof fn marked_utf8_is_trusted(h: DirectoryHeaderView)
    requires
        valid_utf8(h.name),
        valid_utf8(h.comment),
        crate::directory::has_utf8_flag(h.flags),
    ensures
        !crate::directory::is_non_utf8(h),
{
}

/// Text that is not valid UTF-8 is never taken for it, marked or not.
pub proof fn invalid_utf8_is_never_trusted(h: DirectoryHeaderView)
    requires
        !valid_utf8(h.name) || !valid_utf8(h.comment),
    ensures
        crate::directory::is_non_utf8(h),
{
}

/// An archive without headers, or with headers in UTF-8 alone, is in UTF-8, and every name and
/// comment of it can be decoded: only an extra field can make a header invalid.
pub proof fn utf8_archives_decode(headers: Seq<DirectoryHeaderView>)
    requires
        crate::charset::all_utf8(headers),
    ensures
        crate::charset::archive_encoding(headers) == Encoding::Utf8,
        crate::archive::stored_entries(headers, Encoding::Utf8) matches Err(e) ==> e
            == Error::Format(FormatError::InvalidExtraField),
    decreases headers.len(),
{
    if headers.len() > 0 {
        assert(!crate::directory::is_non_utf8(headers[headers.len() - 1]));
        assert forall|k: int| 0 <= k < headers.len() - 1 implies !crate::directory::is_non_utf8(
            #[trigger] headers.drop_last()[k],
        ) by {
            assert(headers.drop_last()[k] == headers[k]);
        }
        utf8_archives_decode(headers.drop_last());
    }
}

/// An archive has one entry for each header, in the order of the headers, and each is what its own
/// header describes.
pub proof fn one_entry_per_header(
    headers: Seq<DirectoryHeaderView>,
    encoding: Encoding,
    entries: Seq<StoredEntryView>,
)
    requires
        crate::archive::stored_entries(headers, encoding) == Ok::<_, Error>(entries),
    ensures
        entries.len() == headers.len(),
        forall|k: int|
            0 <= k < headers.len() ==> crate::directory::stored_entry(headers[k], encoding) == Ok::<
                _,
                Error,
            >(#[trigger] entries[k]),
    decreases headers.len(),
{
    if headers.len() > 0 {
        let before = crate::archive::stored_entries(headers.drop_last(), encoding)->Ok_0;
        one_entry_per_header(headers.drop_last(), encoding, before);
        assert forall|k: int| 0 <= k < headers.len() implies crate::directory::stored_entry(
            headers[k],
            encoding,
        ) == Ok::<_, Error>(#[trigger] entries[k]) by {
            if k < headers.len() - 1 {
                assert(entries[k] == before[k]);
                assert(headers.drop_last()[k] == headers[k]);
            }
        }
    }
}

/// An archive is made exactly if all its headers describe entries, its comment can be decoded, and
/// the number of its headers is the announced one in the low 16 bits. It has as many entries as
/// headers.
pub proof fn finished_archives_are_complete(
    size: u64,
    eocd: EndOfCentralDirectoryView,
    headers: Seq<DirectoryHeaderView>,
)
    ensures
        ({
            let encoding = crate::charset::archive_encoding(headers);
            let res = crate::reader::finished_archive(size, eocd, headers);
            &&& res is Ok == {
                &&& headers.len() % 0x1_0000 == eocd.directory_records() % 0x1_0000
                &&& crate::archive::stored_entries(headers, encoding) is Ok
                &&& crate::directory::decoded_comment(eocd.dir.inner.comment, encoding) is Ok
            }
            &&& res matches Ok(archive) ==> {
                &&& archive.size == size
                &&& archive.encoding == encoding
                &&& archive.entries.len() == headers.len()
                &&& archive.comment is None == (eocd.dir.inner.comment.len() == 0)
            }
        }),
{
    let encoding = crate::charset::archive_encoding(headers);
    if let Ok(entries) = crate::archive::stored_entries(headers, encoding) {
        one_entry_per_header(headers, encoding, entries);
    }
}

/// Bytes leave a buffer in the order in which they were read.
pub proof fn bytes_come_out_in_order(b: BufferView, bytes: Seq<u8>)
    requires
        b.wf(),
        bytes.len() <= b.space,
    ensures
        b.after_read(bytes).contents == b.contents + bytes,
        b.after_read(bytes).after_consume(b.contents.len()).contents == bytes,
{
    assert(bytes.take(bytes.len() as int) =~= bytes);
    assert((b.contents + bytes).skip(b.contents.len() as int) =~= bytes);
}

/// It makes no difference to what a buffer holds whether bytes are read at once or in two parts.
pub proof fn reading_in_parts_is_reading(b: BufferView, first: Seq<u8>, second: Seq<u8>)
    requires
        b.wf(),
        first.len() + second.len() <= b.space,
        b.capacity <= u64::MAX,
    ensures
        ({
            let parts = b.after_read(first).after_read(second);
            let whole = b.after_read(first + second);
            &&& parts.contents == whole.contents
            &&& parts.read_bytes == whole.read_bytes
        }),
{
    let mid = b.after_read(first);
    assert(mid.contents == b.contents + first) by {
        assert(first.take(first.len() as int) =~= first);
    }
    assert(mid.space >= b.space - first.len());
    assert(mid.after_read(second).contents == b.contents + first + second) by {
        assert(second.take(second.len() as int) =~= second);
    }
    assert(b.after_read(first + second).contents == b.contents + first + second) by {
        assert((first + second).take((first + second).len() as int) =~= first + second);
        assert((b.contents + first) + second =~= b.contents + (first + second));
    }
    vstd::arithmetic::div_mod::lemma_add_mod_noop_right(
        second.len() as int,
        b.read_bytes + first.len(),
        0x1_0000_0000_0000_0000,
    );
}

/// Consuming twice is consuming the sum.
pub proof fn consuming_in_parts_is_consuming(b: BufferView, first: nat, second: nat)
    requires
        first + second <= b.contents.len(),
    ensures
        b.after_consume(first).after_consume(second).contents == b.after_consume(
            first + second,
        ).contents,
{
    assert(b.contents.skip(first as int).skip(second as int) =~= b.contents.skip(
        (first + second) as int,
    ));
}

/// A directory header does not depend on what follows it.
pub proof fn header_ignores_what_follows(s: Seq<u8>, t: Seq<u8>)
    requires
        crate::directory::directory_header(s) is Ok,
    ensures
        ({
            let (rest, header) = crate::directory::directory_header(s)->Ok_0;
            crate::directory::directory_header(s + t) == Ok::<_, crate::error::ParseError>(
                (rest + t, header),
            )
        }),
{
    let (rest, header) = crate::directory::directory_header(s)->Ok_0;
    let (rest2, header2) = crate::directory::directory_header(s + t)->Ok_0;
    assert(crate::directory::directory_header(s + t) is Ok);
    assert(rest2 =~= rest + t);
    assert(header2.name =~= header.name);
    assert(header2.extra =~= header.extra);
    assert(header2.comment =~= header.comment);
}

/// An end of central directory record does not depend on what follows it.
pub proof fn record_ignores_what_follows(s: Seq<u8>, t: Seq<u8>)
    requires
        crate::eocd::eocd_record(s) is Ok,
    ensures
        ({
            let (rest, record) = crate::eocd::eocd_record(s)->Ok_0;
            crate::eocd::eocd_record(s + t) == Ok::<_, crate::error::ParseError>(
                (rest + t, record),
            )
        }),
{
    let (rest, record) = crate::eocd::eocd_record(s)->Ok_0;
    let (rest2, record2) = crate::eocd::eocd_record(s + t)->Ok_0;
    assert((s + t).skip(22) =~= s.skip(22) + t);
    assert(crate::eocd::eocd_record(s + t) is Ok);
    assert(rest2 =~= rest + t);
    assert(record2.comment =~= record.comment);
}

/// A raw extra field does not depend on what follows it.
pub proof fn extra_record_ignores_what_follows(s: Seq<u8>, t: Seq<u8>)
    requires
        crate::extra::extra_field_record(s) is Ok,
    ensures
        ({
            let (rest, record) = crate::extra::extra_field_record(s)->Ok_0;
            crate::extra::extra_field_record(s + t) == Ok::<_, crate::error::ParseError>(
                (rest + t, record),
            )
        }),
{
    let (rest, record) = crate::extra::extra_field_record(s)->Ok_0;
    let (rest2, record2) = crate::extra::extra_field_record(s + t)->Ok_0;
    assert((s + t).skip(4) =~= s.skip(4) + t);
    assert(crate::extra::extra_field_record(s + t) is Ok);
    assert(rest2 =~= rest + t);
    assert(record2.1 =~= record.1);
}

/// Extra fields that stand one behind the other are those of the first part and those of the
/// second.
pub proof fn extra_fields_are_joined(s: Seq<u8>, t: Seq<u8>, settings: ExtraFieldSettings)
    requires
        crate::directory::extra_list(s, settings) is Some,
    ensures
        crate::directory::extra_list(s + t, settings) == match crate::directory::extra_list(
            t,
            settings,
        ) {
            Some(more) => Some(crate::directory::extra_list(s, settings)->0 + more),
            None => None,
        },
    decreases s.len(),
{
    if s.len() == 0 {
        assert(s + t =~= t);
        if let Some(more) = crate::directory::extra_list(t, settings) {
            assert(Seq::<ExtraFieldView>::empty() + more =~= more);
        }
    } else {
        extra_record_ignores_what_follows(s, t);
        let (rest, field) = crate::extra::extra_field(s, settings)->Ok_0;
        assert(rest.len() < s.len());
        extra_fields_are_joined(rest, t, settings);
        if let Some(more) = crate::directory::extra_list(t, settings) {
            let first = crate::directory::extra_list(rest, settings)->0;
            assert(seq![field] + (first + more) =~= (seq![field] + first) + more);
        }
    }
}

/// Headers that stand one behind the other are read one after the other.
pub proof fn headers_are_joined(s: Seq<u8>, t: Seq<u8>)
    requires
        crate::directory::directory_header(s) matches Ok((rest, _)) && rest.len() == 0,
    ensures
        crate::whole_file::headers_in(s + t) == seq![
            (crate::directory::directory_header(s)->Ok_0).1,
        ] + crate::whole_file::headers_in(t),
{
    header_ignores_what_follows(s, t);
    let rest = (crate::directory::directory_header(s)->Ok_0).0;
    assert(rest + t =~= t);
}

/// The number of bytes of texts.
pub open spec fn total_len(texts: Seq<Seq<u8>>) -> nat
    decreases texts.len(),
{
    if texts.len() == 0 {
        0
    } else {
        texts[0].len() + total_len(texts.skip(1))
    }
}

/// The encoding is guessed from a bounded number of texts: all of them but the last have less bytes
/// together than there is room for. Where all texts are in UTF-8 none is looked at, and otherwise
/// at least one is.
pub proof fn sample_is_bounded(headers: Seq<DirectoryHeaderView>, room: nat)
    requires
        room > 0,
    ensures
        ({
            let texts = crate::charset::sample(headers, room);
            &&& texts.len() == 0 <==> crate::charset::all_utf8(headers)
            &&& texts.len() > 0 ==> total_len(texts.drop_last()) < room
        }),
    decreases headers.len(),
{
    reveal_with_fuel(total_len, 3);
    if headers.len() > 0 {
        let texts = crate::charset::sample(headers, room);
        let (h, more) = (headers[0], headers.skip(1));
        assert forall|k: int| 0 <= k < more.len() implies more[k] == #[trigger] headers[k + 1] by {}
        if !crate::directory::is_non_utf8(h) {
            sample_is_bounded(more, room);
            if crate::charset::all_utf8(more) {
                assert forall|k: int| 0 <= k < headers.len() implies !crate::directory::is_non_utf8(
                    #[trigger] headers[k],
                ) by {
                    if k > 0 {
                        assert(headers[k] == more[k - 1]);
                    }
                }
            } else {
                let k = choose|k: int|
                    0 <= k < more.len() && crate::directory::is_non_utf8(#[trigger] more[k]);
                assert(crate::directory::is_non_utf8(headers[k + 1]));
            }
        } else if h.name.len() >= room {
            assert(crate::directory::is_non_utf8(headers[0]));
            assert(texts.drop_last() =~= Seq::empty());
        } else if h.name.len() + h.comment.len() >= room {
            assert(texts.drop_last() =~= seq![h.name]);
            assert(seq![h.name].skip(1) =~= Seq::empty());
        } else {
            let left = (room - h.name.len() - h.comment.len()) as nat;
            let rest = crate::charset::sample(more, left);
            sample_is_bounded(more, left);
            if rest.len() == 0 {
                assert(texts.drop_last() =~= seq![h.name]);
                assert(seq![h.name].skip(1) =~= Seq::empty());
            } else {
                let all = texts.drop_last();
                assert(all.skip(1).skip(1) =~= rest.drop_last());
                assert(all.len() == rest.len() + 1);
                assert(all[0] == h.name);
                assert(all.skip(1)[0] == h.comment);
            }
        }
    }
}

/// A step that fails leaves the reader as it was, so that the same step fails again. The one
/// exception is a directory that starts outside of the file: the bytes that led there are dropped
/// then.
pub proof fn failed_steps_change_nothing(r: ReaderView, e: Error)
    requires
        crate::reader::reader_step(r).1 == Err::<ArchiveReaderResultView, _>(e),
    ensures
        ({
            let next = crate::reader::reader_step(r).0;
            if e == Error::Format(FormatError::DirectoryOffsetPointsOutsideFile) {
                &&& next.size == r.size
                &&& next.buffer == r.buffer.after_reset()
            } else {
                next == r
            }
        }),
{
    if let StateView::ReadCentralDirectory { eocd, directory_headers } = r.state {
        lemma_finished_errors(r.size, eocd, directory_headers);
    }
}

/// Reading ends with the reader done, and only then an archive is handed out.
pub proof fn done_readers_hand_out_archives(r: ReaderView)
    requires
        r.is_active(),
    ensures
        crate::reader::reader_step(r).0.state is Done <==> (crate::reader::reader_step(r).1 matches Ok(
            ArchiveReaderResultView::Done(_),
        )),
{
}

/// Headers give errors of texts, extra fields and their number, and no others.
proof fn lemma_finished_errors(
    size: u64,
    eocd: EndOfCentralDirectoryView,
    headers: Seq<DirectoryHeaderView>,
)
    ensures
        crate::reader::finished_archive(size, eocd, headers) matches Err(e) ==> e
            != Error::Format(FormatError::DirectoryOffsetPointsOutsideFile),
{
    lemma_entry_errors(headers, crate::charset::archive_encoding(headers));
}

/// Headers that describe no entry have texts or extra fields that cannot be read.
proof fn lemma_entry_errors(headers: Seq<DirectoryHeaderView>, encoding: Encoding)
    ensures
        crate::archive::stored_entries(headers, encoding) matches Err(e) ==> e
            != Error::Format(FormatError::DirectoryOffsetPointsOutsideFile),
    decreases headers.len(),
{
    if headers.len() > 0 {
        lemma_entry_errors(headers.drop_last(), encoding);
    }
}

} // verus!
