//! What a reader does, in terms of the bytes that it is given.
use vstd::prelude::*;

use crate::archive::ArchiveView;
use crate::buffer::BufferView;
use crate::directory::{DirectoryHeader, DirectoryHeaderView};
use crate::eocd::{
    EndOfCentralDirectory64Locator, EndOfCentralDirectory64Record, EndOfCentralDirectoryRecord,
    EndOfCentralDirectoryRecordView, EndOfCentralDirectoryView, Located,
};
use crate::error::{Error, ErrorKind, FormatError, IoErrorKind, ParseError};
use crate::reader::{ArchiveReaderResultView, ReaderView, StateView};
use crate::types::StoredEntry;

verus! {

/// The smaller of two numbers.
pub open spec fn least(a: int, b: int) -> int {
    if a <= b {
        a
    } else {
        b
    }
}

/// A buffer takes the bytes that it has room for, keeps what it holds before them, and counts them.
pub proof fn buffers_take_what_they_have_room_for(b: BufferView, bytes: Seq<u8>)
    requires
        b.wf(),
    ensures
        ({
            let n = least(bytes.len() as int, b.space as int);
            let after = b.after_read(bytes);
            &&& after.contents == b.contents + bytes.take(n)
            &&& b.read_bytes + n <= u64::MAX ==> after.read_bytes == b.read_bytes + n
            &&& after.capacity == b.capacity
            &&& after.wf()
            &&& after.space == b.space - n || after.space == b.capacity - after.contents.len()
            &&& crate::buffer::written_count(b.space, bytes) == n
        }),
{
}

/// A buffer gives up the bytes that are consumed, from the front, and nothing else.
pub proof fn buffers_drop_what_is_consumed(b: BufferView, count: nat)
    requires
        b.wf(),
    ensures
        ({
            let n = least(count as int, b.contents.len() as int);
            let after = b.after_consume(count);
            &&& after.contents == b.contents.skip(n)
            &&& after.read_bytes == b.read_bytes
            &&& after.capacity == b.capacity
            &&& after.wf()
            &&& after.space == b.space || after.space == b.capacity - after.contents.len()
            &&& crate::buffer::consumed_count(b.contents, count) == n
        }),
{
}

/// Whether a buffer is as a new one of the same capacity.
pub open spec fn is_emptied(after: BufferView, before: BufferView) -> bool {
    &&& after.contents.len() == 0
    &&& after.read_bytes == 0
    &&& after.capacity == before.capacity
    &&& after.space == before.capacity
}

/// A reset empties a buffer.
pub proof fn resets_empty_buffers(b: BufferView)
    ensures
        is_emptied(b.after_reset(), b),
{
}

/// Taking bytes splits the input.
pub proof fn taking_splits_the_input(a: Seq<u8>, b: Seq<u8>, count: nat)
    ensures
        crate::directory::taken(a + b, a.len()) == Ok::<_, ParseError>((b, a)),
        count > a.len() ==> crate::directory::taken(a, count) == Err::<(Seq<u8>, Seq<u8>), _>(
            ParseError::Error(ErrorKind::Eof),
        ),
{
    assert((a + b).skip(a.len() as int) =~= b);
    assert((a + b).take(a.len() as int) =~= a);
}

/// The view of an entry has what its fields have.
pub proof fn entry_views_show_the_fields(e: StoredEntry)
    ensures
        e@.entry.name == e.entry.name@,
        e@.entry.method == e.entry.method,
        e@.entry.modified == e.entry.modified,
        e@.entry.created == e.entry.created,
        e@.entry.accessed == e.entry.accessed,
        e.entry.comment matches Some(text) ==> e@.entry.comment == Some(text@),
        e.entry.comment is None ==> e@.entry.comment is None,
        e@.creator_version == e.creator_version,
        e@.reader_version == e.reader_version,
        e@.flags == e.flags,
        e@.crc32 == e.crc32,
        e@.compressed_size == e.compressed_size,
        e@.uncompressed_size == e.uncompressed_size,
        e@.header_offset == e.header_offset,
        e@.uid == e.uid,
        e@.gid == e.gid,
        e@.external_attrs == e.external_attrs,
        e@.extra_fields.len() == e.extra_fields@.len(),
        forall|k: int|
            0 <= k < e.extra_fields@.len() ==> #[trigger] e@.extra_fields[k] == e.extra_fields@[k]@,
{
}

/// The view of a header has what its fields have.
pub proof fn header_views_show_the_fields(h: DirectoryHeader)
    ensures
        h@.creator_version == h.creator_version,
        h@.reader_version == h.reader_version,
        h@.flags == h.flags,
        h@.method == h.method,
        h@.modified == h.modified,
        h@.crc32 == h.crc32,
        h@.compressed_size == h.compressed_size,
        h@.uncompressed_size == h.uncompressed_size,
        h@.disk_nbr_start == h.disk_nbr_start,
        h@.internal_attrs == h.internal_attrs,
        h@.external_attrs == h.external_attrs,
        h@.header_offset == h.header_offset,
        h@.name == h.name.0@,
        h@.extra == h.extra.0@,
        h@.comment == h.comment.0@,
{
}

/// The view of an end of central directory record has what its fields have.
pub proof fn record_views_show_the_fields(r: EndOfCentralDirectoryRecord)
    ensures
        r@.disk_nbr == r.disk_nbr,
        r@.dir_disk_nbr == r.dir_disk_nbr,
        r@.dir_records_this_disk == r.dir_records_this_disk,
        r@.directory_records == r.directory_records,
        r@.directory_size == r.directory_size,
        r@.directory_offset == r.directory_offset,
        r@.comment == r.comment.0@,
{
}

/// A new reader is empty, has room for 128 kilobytes, and searches the last 65 kilobytes of the
/// file, or all of it.
pub proof fn new_readers_search_the_end(size: u64)
    ensures
        ({
            let r = ReaderView::initial(size);
            &&& r.size == size
            &&& r.state == (StateView::ReadEocd {
                haystack_size: least(size as int, 66_560) as u64,
            })
            &&& r.buffer.contents.len() == 0
            &&& r.buffer.read_bytes == 0
            &&& r.buffer.space == 131_072
            &&& r.buffer.capacity == 131_072
        }),
{
}

/// Where a reader starts to read in its state, and how many bytes it wants: the last bytes of the
/// file, the 20 bytes before the end of central directory record, the 56 bytes of the zip64 record,
/// and the directory.
pub open spec fn wanted_range(r: ReaderView) -> (int, int) {
    match r.state {
        StateView::ReadEocd { haystack_size } => (r.size - haystack_size, haystack_size as int),
        StateView::ReadEocd64Locator { eocdr } => (eocdr.offset - 20, 20),
        StateView::ReadEocd64 { eocdr64_offset, .. } => (eocdr64_offset as int, 56),
        StateView::ReadCentralDirectory { eocd, .. } => match eocd.dir64 {
            Some(d) => (d.inner.directory_offset as int, d.inner.directory_size as int),
            None => (
                eocd.dir.inner.directory_offset as int,
                eocd.dir.inner.directory_size as int,
            ),
        },
        _ => (0, 0),
    }
}

/// A reader wants the bytes behind those that it was given since it entered its state, until it was
/// given as many as it wants.
pub proof fn readers_want_what_comes_next(r: ReaderView)
    requires
        r.wf(),
        r.is_active(),
    ensures
        ({
            let (start, length) = wanted_range(r);
            match r.wanted_offset() {
                None => r.buffer.read_bytes >= length,
                Some(offset) => {
                    &&& r.buffer.read_bytes < length
                    &&& start + r.buffer.read_bytes <= u64::MAX ==> offset == start
                        + r.buffer.read_bytes
                    &&& (offset - (start + r.buffer.read_bytes)) % 0x1_0000_0000_0000_0000 == 0
                },
            }
        }),
{
}

/// A reader that is given bytes keeps its state.
pub proof fn reading_keeps_the_state(r: ReaderView, bytes: Seq<u8>)
    ensures
        r.after_read(bytes).state == r.state,
        r.after_read(bytes).size == r.size,
        r.after_read(bytes).buffer == r.buffer.after_read(bytes),
{
}

/// A turn with bytes is a step after reading them, and one without any is a failure. A turn of a
/// reader that wants nothing is a step.
pub proof fn turns_are_steps(r: ReaderView, bytes: Seq<u8>)
    ensures
        crate::reader::reader_turn(r, None) == crate::reader::reader_step(r),
        least(bytes.len() as int, r.buffer.space as int) > 0 ==> crate::reader::reader_turn(
            r,
            Some(bytes),
        ) == crate::reader::reader_step(r.after_read(bytes)),
        least(bytes.len() as int, r.buffer.space as int) == 0 ==> crate::reader::reader_turn(
            r,
            Some(bytes),
        ).1 == Err::<ArchiveReaderResultView, _>(Error::IO(IoErrorKind::UnexpectedEof)),
{
    reveal(crate::reader::reader_turn);
}

/// A reader of a file is given the bytes at the offset that it wants, as many as there are and as it
/// has room for.
pub proof fn readers_are_given_what_they_want(file: Seq<u8>, r: ReaderView)
    ensures
        match (r.wanted_offset(), crate::archive::supply(file, r)) {
            (None, None) => true,
            (Some(offset), Some(bytes)) => if offset >= file.len() {
                bytes.len() == 0
            } else {
                &&& bytes.len() == least(file.len() - offset, r.buffer.space as int)
                &&& forall|i: int|
                    0 <= i < bytes.len() ==> #[trigger] bytes[i] == file[offset + i]
            },
            _ => false,
        },
{
}

/// Whether an end of central directory record starts with the bytes `s`.
pub open spec fn starts_record(s: Seq<u8>) -> bool {
    exists|r: EndOfCentralDirectoryRecordView, rest: Seq<u8>| #[trigger]
        crate::written::is_end_record(s, r, rest)
}

/// Records are parsed exactly where they start.
pub(crate) proof fn lemma_starts_record(s: Seq<u8>)
    ensures
        crate::eocd::eocd_record(s) is Ok <==> starts_record(s),
{
    if let Ok((rest, r)) = crate::eocd::eocd_record(s) {
        crate::written::end_records_are_read_as_written(s, r, rest);
        assert(crate::written::is_end_record(s, r, rest));
    }
    if starts_record(s) {
        let (r, rest) = choose|r: EndOfCentralDirectoryRecordView, rest: Seq<u8>| #[trigger]
            crate::written::is_end_record(s, r, rest);
        crate::written::end_records_are_read_as_written(s, r, rest);
    }
}

/// The last record that starts in a block is found, where it is and with what it says.
pub proof fn last_records_are_found(
    b: Seq<u8>,
    at: int,
    r: EndOfCentralDirectoryRecordView,
    rest: Seq<u8>,
)
    requires
        b.len() <= u64::MAX,
        0 <= at <= b.len(),
        crate::written::is_end_record(b.skip(at), r, rest),
        forall|j: int| at < j <= b.len() ==> !starts_record(#[trigger] b.skip(j)),
    ensures
        crate::eocd::find_eocd(b) == Some(Located { offset: at as u64, inner: r }),
{
    crate::written::end_records_are_read_as_written(b.skip(at), r, rest);
    crate::eocd::finds_the_last_record(b);
    if let Some(found) = crate::eocd::find_eocd(b) {
        if found.offset > at {
            lemma_starts_record(b.skip(found.offset as int));
        }
    }
}

/// Nothing is found in a block in which no record starts.
pub proof fn blocks_without_records_have_none(b: Seq<u8>)
    requires
        b.len() <= u64::MAX,
        forall|j: int| 0 <= j <= b.len() ==> !starts_record(#[trigger] b.skip(j)),
    ensures
        crate::eocd::find_eocd(b) is None,
{
    crate::eocd::finds_the_last_record(b);
    if let Some(found) = crate::eocd::find_eocd(b) {
        lemma_starts_record(b.skip(found.offset as int));
    }
}

/// A reader that has not all of the end of the file waits.
pub proof fn readers_wait_for_the_end_of_the_file(r: ReaderView, haystack_size: u64)
    requires
        r.state == (StateView::ReadEocd { haystack_size }),
        r.buffer.read_bytes < haystack_size,
    ensures
        crate::reader::reader_step(r).0 == r,
        crate::reader::reader_step(r).1 == Ok::<_, Error>(ArchiveReaderResultView::Continue),
{
}

/// Whether a step goes on to the directory that the records describe, with an empty buffer and no
/// headers yet, or fails where they describe none.
pub open spec fn enters_directory(
    r: ReaderView,
    eocdr: Located<EndOfCentralDirectoryRecordView>,
    eocdr64: Option<Located<EndOfCentralDirectory64Record>>,
) -> bool {
    let (next, res) = crate::reader::reader_step(r);
    match crate::eocd::end_of_central_directory(r.size, eocdr, eocdr64) {
        Ok(eocd) => {
            &&& res == Ok::<_, Error>(ArchiveReaderResultView::Continue)
            &&& next.state == (StateView::ReadCentralDirectory {
                eocd,
                directory_headers: Seq::empty(),
            })
            &&& next.size == r.size
            &&& is_emptied(next.buffer, r.buffer)
        },
        Err(e) => {
            &&& res == Err::<ArchiveReaderResultView, _>(e)
            &&& next.size == r.size
            &&& is_emptied(next.buffer, r.buffer)
            &&& if r.state is ReadEocd {
                next.state == r.state
            } else {
                next.state is Transitioning
            }
        },
    }
}

/// A reader that has all of the end of the file goes by the last record in it. Where there is room
/// for a locator before the record, it looks for one, and otherwise it goes on to the directory.
/// Without a record it fails.
pub proof fn readers_search_the_end_of_the_file(
    r: ReaderView,
    haystack_size: u64,
    at: int,
    record: EndOfCentralDirectoryRecordView,
    rest: Seq<u8>,
)
    requires
        r.wf(),
        r.state == (StateView::ReadEocd { haystack_size }),
        r.buffer.read_bytes >= haystack_size,
        0 <= at <= haystack_size,
        crate::written::is_end_record(
            r.buffer.contents.take(haystack_size as int).skip(at),
            record,
            rest,
        ),
        forall|j: int|
            at < j <= haystack_size ==> !starts_record(
                #[trigger] r.buffer.contents.take(haystack_size as int).skip(j),
            ),
    ensures
        ({
            let offset = r.size - haystack_size + at;
            let eocdr = Located { offset: offset as u64, inner: record };
            let (next, res) = crate::reader::reader_step(r);
            &&& offset <= u64::MAX
            &&& if offset < 20 {
                enters_directory(r, eocdr, None)
            } else {
                &&& res == Ok::<_, Error>(ArchiveReaderResultView::Continue)
                &&& next.state == (StateView::ReadEocd64Locator { eocdr })
                &&& next.size == r.size
                &&& is_emptied(next.buffer, r.buffer)
            }
        }),
{
    last_records_are_found(r.buffer.contents.take(haystack_size as int), at, record, rest);
}

/// A reader that has all of the end of a file in which no record starts fails.
pub proof fn readers_refuse_files_without_records(r: ReaderView, haystack_size: u64)
    requires
        r.wf(),
        r.state == (StateView::ReadEocd { haystack_size }),
        r.buffer.read_bytes >= haystack_size,
        forall|j: int|
            0 <= j <= haystack_size ==> !starts_record(
                #[trigger] r.buffer.contents.take(haystack_size as int).skip(j),
            ),
    ensures
        crate::reader::reader_step(r).0 == r,
        crate::reader::reader_step(r).1 == Err::<ArchiveReaderResultView, _>(
            Error::Format(FormatError::DirectoryEndSignatureNotFound),
        ),
{
    blocks_without_records_have_none(r.buffer.contents.take(haystack_size as int));
}

/// Whether a zip64 locator starts with the bytes `s`.
pub open spec fn starts_locator(s: Seq<u8>) -> bool {
    exists|l: EndOfCentralDirectory64Locator, rest: Seq<u8>| #[trigger]
        crate::written::is_locator(s, l, rest)
}

/// Whether a zip64 record starts with the bytes `s`.
pub open spec fn starts_record64(s: Seq<u8>) -> bool {
    exists|r: EndOfCentralDirectory64Record, rest: Seq<u8>| #[trigger]
        crate::written::is_end_record64(s, r, rest)
}

/// Whether a header starts with the bytes `s`.
pub open spec fn starts_header(s: Seq<u8>) -> bool {
    exists|h: DirectoryHeaderView, rest: Seq<u8>| #[trigger] crate::written::is_header(s, h, rest)
}

/// Locators are parsed exactly where they start.
pub(crate) proof fn lemma_starts_locator(s: Seq<u8>)
    ensures
        crate::eocd::eocd64_locator(s) is Ok <==> starts_locator(s),
{
    if let Ok((rest, l)) = crate::eocd::eocd64_locator(s) {
        crate::written::locators_are_read_as_written(s, l, rest);
        assert(crate::written::is_locator(s, l, rest));
    }
    if starts_locator(s) {
        let (l, rest) = choose|l: EndOfCentralDirectory64Locator, rest: Seq<u8>| #[trigger]
            crate::written::is_locator(s, l, rest);
        crate::written::locators_are_read_as_written(s, l, rest);
    }
}

/// Zip64 records are parsed exactly where they start.
pub(crate) proof fn lemma_starts_record64(s: Seq<u8>)
    ensures
        crate::eocd::eocd64_record(s) is Ok <==> starts_record64(s),
{
    if let Ok((rest, r)) = crate::eocd::eocd64_record(s) {
        crate::written::end_records64_are_read_as_written(s, r, rest);
        assert(crate::written::is_end_record64(s, r, rest));
    }
    if starts_record64(s) {
        let (r, rest) = choose|r: EndOfCentralDirectory64Record, rest: Seq<u8>| #[trigger]
            crate::written::is_end_record64(s, r, rest);
        crate::written::end_records64_are_read_as_written(s, r, rest);
    }
}

/// Headers are parsed exactly where they start.
pub(crate) proof fn lemma_starts_header(s: Seq<u8>)
    ensures
        crate::directory::directory_header(s) is Ok <==> starts_header(s),
{
    if let Ok((rest, h)) = crate::directory::directory_header(s) {
        crate::written::headers_are_read_as_written(s, h, rest);
        assert(crate::written::is_header(s, h, rest));
    }
    if starts_header(s) {
        let (h, rest) = choose|h: DirectoryHeaderView, rest: Seq<u8>| #[trigger]
            crate::written::is_header(s, h, rest);
        crate::written::headers_are_read_as_written(s, h, rest);
    }
}

/// A reader that finds a locator goes on to the zip64 record to which it points.
pub proof fn readers_follow_locators(
    r: ReaderView,
    eocdr: Located<EndOfCentralDirectoryRecordView>,
    l: EndOfCentralDirectory64Locator,
    rest: Seq<u8>,
)
    requires
        r.state == (StateView::ReadEocd64Locator { eocdr }),
        crate::written::is_locator(r.buffer.contents, l, rest),
    ensures
        ({
            let (next, res) = crate::reader::reader_step(r);
            &&& res == Ok::<_, Error>(ArchiveReaderResultView::Continue)
            &&& next.state == (StateView::ReadEocd64 { eocdr64_offset: l.directory_offset, eocdr })
            &&& next.size == r.size
            &&& is_emptied(next.buffer, r.buffer)
        }),
{
    crate::written::locators_are_read_as_written(r.buffer.contents, l, rest);
}

/// A reader that finds no locator goes on to the directory.
pub proof fn readers_do_without_locators(
    r: ReaderView,
    eocdr: Located<EndOfCentralDirectoryRecordView>,
)
    requires
        r.state == (StateView::ReadEocd64Locator { eocdr }),
        !starts_locator(r.buffer.contents),
    ensures
        enters_directory(r, eocdr, None),
{
    lemma_starts_locator(r.buffer.contents);
}

/// A reader that finds a zip64 record goes on to the directory that it describes.
pub proof fn readers_follow_zip64_records(
    r: ReaderView,
    offset: u64,
    eocdr: Located<EndOfCentralDirectoryRecordView>,
    record: EndOfCentralDirectory64Record,
    rest: Seq<u8>,
)
    requires
        r.state == (StateView::ReadEocd64 { eocdr64_offset: offset, eocdr }),
        crate::written::is_end_record64(r.buffer.contents, record, rest),
    ensures
        enters_directory(r, eocdr, Some(Located { offset, inner: record })),
{
    crate::written::end_records64_are_read_as_written(r.buffer.contents, record, rest);
}

/// A reader that does not find the zip64 record to which a locator points fails.
pub proof fn readers_insist_on_zip64_records(
    r: ReaderView,
    offset: u64,
    eocdr: Located<EndOfCentralDirectoryRecordView>,
)
    requires
        r.state == (StateView::ReadEocd64 { eocdr64_offset: offset, eocdr }),
        !starts_record64(r.buffer.contents),
    ensures
        crate::reader::reader_step(r).0 == r,
        crate::reader::reader_step(r).1 == Err::<ArchiveReaderResultView, _>(
            Error::Format(FormatError::Directory64EndRecordInvalid),
        ),
{
    lemma_starts_record64(r.buffer.contents);
}

/// A reader that finds a header of the directory adds it to those that it has, and drops its bytes.
pub proof fn readers_collect_headers(
    r: ReaderView,
    eocd: EndOfCentralDirectoryView,
    headers: Seq<DirectoryHeaderView>,
    h: DirectoryHeaderView,
    rest: Seq<u8>,
)
    requires
        r.wf(),
        r.state == (StateView::ReadCentralDirectory { eocd, directory_headers: headers }),
        crate::written::is_header(r.buffer.contents, h, rest),
    ensures
        ({
            let (next, res) = crate::reader::reader_step(r);
            &&& res == Ok::<_, Error>(ArchiveReaderResultView::Continue)
            &&& next.state == (StateView::ReadCentralDirectory {
                eocd,
                directory_headers: headers.push(h),
            })
            &&& next.size == r.size
            &&& next.buffer.contents == rest
            &&& next.buffer.read_bytes == r.buffer.read_bytes
            &&& next.buffer.capacity == r.buffer.capacity
            &&& next.wf()
        }),
{
    crate::written::headers_are_read_as_written(r.buffer.contents, h, rest);
    let n = (r.buffer.contents.len() - rest.len()) as nat;
    buffers_drop_what_is_consumed(r.buffer, n);
    assert(r.buffer.contents.skip(n as int) =~= rest);
}

/// A reader that finds no more headers makes the archive out of those that it has, and is done. It
/// stays as it is where there is no such archive.
pub proof fn readers_finish_without_headers(
    r: ReaderView,
    eocd: EndOfCentralDirectoryView,
    headers: Seq<DirectoryHeaderView>,
)
    requires
        r.state == (StateView::ReadCentralDirectory { eocd, directory_headers: headers }),
        !starts_header(r.buffer.contents),
    ensures
        ({
            let (next, res) = crate::reader::reader_step(r);
            match crate::reader::finished_archive(r.size, eocd, headers) {
                Ok(archive) => {
                    &&& res == Ok::<_, Error>(ArchiveReaderResultView::Done(archive))
                    &&& next.state is Done
                },
                Err(e) => res == Err::<ArchiveReaderResultView, _>(e) && next == r,
            }
        }),
{
    lemma_starts_header(r.buffer.contents);
}

/// The headers of a directory are those that stand one behind the other at its start.
pub proof fn headers_stand_one_behind_the_other(
    s: Seq<u8>,
    h: DirectoryHeaderView,
    rest: Seq<u8>,
)
    ensures
        crate::written::is_header(s, h, rest) ==> crate::whole_file::headers_in(s) == seq![h]
            + crate::whole_file::headers_in(rest),
        !starts_header(s) ==> crate::whole_file::headers_in(s).len() == 0,
{
    crate::written::headers_are_read_as_written(s, h, rest);
    lemma_starts_header(s);
}

/// The last record of a file is found if it starts in the last 65 kilobytes.
pub proof fn records_are_found_in_files(
    file: Seq<u8>,
    at: int,
    r: EndOfCentralDirectoryRecordView,
    rest: Seq<u8>,
)
    requires
        file.len() <= u64::MAX,
        0 <= at <= file.len(),
        file.len() - at <= 66_560,
        crate::written::is_end_record(file.skip(at), r, rest),
        forall|j: int| at < j <= file.len() ==> !starts_record(#[trigger] file.skip(j)),
    ensures
        crate::whole_file::file_record(file) == Some(Located { offset: at as u64, inner: r }),
{
    let end = crate::whole_file::tail(file);
    let p = at - (file.len() - end.len());
    assert(end.skip(p) =~= file.skip(at));
    assert forall|j: int| p < j <= end.len() implies !starts_record(#[trigger] end.skip(j)) by {
        assert(end.skip(j) =~= file.skip(j - p + at));
    }
    last_records_are_found(end, p, r, rest);
}

/// A file in which no record starts in the last 65 kilobytes has none.
pub proof fn records_are_not_found_elsewhere(file: Seq<u8>)
    requires
        file.len() <= u64::MAX,
        forall|j: int|
            0 <= j <= file.len() && file.len() - j <= 66_560 ==> !starts_record(
                #[trigger] file.skip(j),
            ),
    ensures
        crate::whole_file::file_record(file) is None,
        crate::whole_file::file_archive(file) == Err::<ArchiveView, _>(
            Error::Format(FormatError::DirectoryEndSignatureNotFound),
        ),
{
    let end = crate::whole_file::tail(file);
    let skipped = file.len() - end.len();
    assert forall|j: int| 0 <= j <= end.len() implies !starts_record(#[trigger] end.skip(j)) by {
        assert(end.skip(j) =~= file.skip(j + skipped));
    }
    blocks_without_records_have_none(end);
}

/// The zip64 record of a file is the one to which a locator in the 20 bytes before the end of central
/// directory record points. A file with such a locator and without such a record is refused.
pub proof fn zip64_records_are_found_in_files(
    file: Seq<u8>,
    at: u64,
    l: EndOfCentralDirectory64Locator,
    behind: Seq<u8>,
    r: EndOfCentralDirectory64Record,
    rest: Seq<u8>,
)
    requires
        file.len() <= u64::MAX,
        20 <= at <= file.len(),
        crate::written::is_locator(file.skip(at - 20), l, behind),
    ensures
        ({
            let res = crate::whole_file::file_record64(file, at);
            let there = file.skip(l.directory_offset as int);
            if l.directory_offset >= file.len() {
                res == Err::<Option<Located<EndOfCentralDirectory64Record>>, _>(
                    Error::IO(IoErrorKind::UnexpectedEof),
                )
            } else {
                &&& crate::written::is_end_record64(there, r, rest) ==> res == Ok::<_, Error>(
                    Some(Located { offset: l.directory_offset, inner: r }),
                )
                &&& !starts_record64(there) ==> res == Err::<
                    Option<Located<EndOfCentralDirectory64Record>>,
                    _,
                >(Error::Format(FormatError::Directory64EndRecordInvalid))
            }
        }),
{
    let there = file.skip(l.directory_offset as int);
    crate::written::locators_are_read_as_written(file.skip(at - 20), l, behind);
    crate::written::end_records64_are_read_as_written(there, r, rest);
    lemma_starts_record64(there);
}

/// A file without a locator in the 20 bytes before the end of central directory record has no zip64
/// record.
pub proof fn zip64_records_are_not_found_elsewhere(file: Seq<u8>, at: u64)
    requires
        at <= file.len(),
        at >= 20 ==> !starts_locator(file.skip(at - 20)),
    ensures
        crate::whole_file::file_record64(file, at) == Ok::<_, Error>(
            None::<Located<EndOfCentralDirectory64Record>>,
        ),
{
    if at >= 20 {
        lemma_starts_locator(file.skip(at - 20));
    }
}

/// The archive that a file is comes from the directory that its records describe.
pub proof fn files_are_what_their_records_describe(
    file: Seq<u8>,
    eocdr: Located<EndOfCentralDirectoryRecordView>,
)
    requires
        crate::whole_file::file_record(file) == Some(eocdr),
    ensures
        match crate::whole_file::file_record64(file, eocdr.offset) {
            Err(e) => crate::whole_file::file_archive(file) == Err::<ArchiveView, _>(e),
            Ok(eocdr64) => match crate::eocd::end_of_central_directory(
                file.len() as u64,
                eocdr,
                eocdr64,
            ) {
                Err(e) => crate::whole_file::file_archive(file) == Err::<ArchiveView, _>(e),
                Ok(eocd) => crate::whole_file::file_archive(file)
                    == crate::whole_file::directory_result(file, eocd),
            },
        },
{
}

/// A directory of up to 128 kilobytes that ends within the file is read whole. One that does not is
/// taken for cut off, unless no header starts it.
pub proof fn directories_are_read_whole(file: Seq<u8>, eocd: EndOfCentralDirectoryView)
    requires
        eocd.directory_offset() <= file.len(),
    ensures
        ({
            let res = crate::whole_file::directory_result(file, eocd);
            let there = file.skip(eocd.directory_offset() as int);
            let bytes = there.take(least(there.len() as int, 131_072));
            if eocd.directory_size() == 0 {
                res == crate::reader::finished_archive(file.len() as u64, eocd, Seq::empty())
            } else if eocd.directory_size() <= bytes.len() || !starts_header(bytes) {
                res == crate::reader::finished_archive(
                    file.len() as u64,
                    eocd,
                    crate::whole_file::headers_in(bytes),
                )
            } else {
                res == Err::<ArchiveView, _>(Error::IO(IoErrorKind::UnexpectedEof))
            }
        }),
{
    reveal(crate::whole_file::directory_result);
    let there = file.skip(eocd.directory_offset() as int);
    let bytes = there.take(least(there.len() as int, 131_072));
    lemma_starts_header(bytes);
    assert(crate::whole_file::chunk_at(file, eocd.directory_offset()) =~= bytes);
    let none = Seq::<u8>::empty();
    assert(crate::directory::directory_header(none) is Err);
    assert(crate::whole_file::headers_in(none) =~= Seq::empty());
}

/// A file that ends before its announced size is refused as cut off.
pub proof fn short_files_are_refused(file: Seq<u8>, size: u64)
    requires
        file.len() < size,
        file.len() <= usize::MAX,
    ensures
        crate::archive::reads_to(
            file,
            ReaderView::initial(size),
            Err(Error::IO(IoErrorKind::UnexpectedEof)),
        ),
{
    let r = ReaderView::initial(size);
    let haystack_size = least(size as int, 66_560) as u64;
    let start = (size - haystack_size) as u64;
    assert(r.wanted_offset() == Some(start));
    if start >= file.len() {
        crate::whole_file::lemma_starved(file, r, start);
    } else {
        let bytes = file.skip(start as int);
        let next = r.after_read(bytes);
        assert(crate::archive::supply(file, r) == Some(bytes));
        assert(next.buffer.read_bytes == file.len() - start);
        assert(next.wanted_offset() == Some(file.len() as u64));
        turns_are_steps(r, bytes);
        readers_wait_for_the_end_of_the_file(next, haystack_size);
        crate::whole_file::lemma_starved(file, next, file.len() as u64);
        crate::whole_file::lemma_goes_on(
            file,
            r,
            next,
            Err(Error::IO(IoErrorKind::UnexpectedEof)),
        );
    }
}

} // verus!
