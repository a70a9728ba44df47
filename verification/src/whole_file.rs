//! What reading a zip file comes to, without the steps that lead there.
use vstd::prelude::*;

use crate::archive::ArchiveView;
use crate::buffer::BufferView;
use crate::directory::DirectoryHeaderView;
use crate::eocd::{
    EndOfCentralDirectory64Record, EndOfCentralDirectoryRecord, EndOfCentralDirectoryRecordView,
    EndOfCentralDirectoryView, Located,
};
use crate::error::{Error, FormatError, IoErrorKind};
use crate::reader::{ArchiveReaderResultView, ReaderView, StateView, BUFFER_SIZE};

verus! {

/// The headers at the start of the bytes `s`, up to the first that is not one.
pub open spec fn headers_in(s: Seq<u8>) -> Seq<DirectoryHeaderView>
    decreases s.len(),
{
    match crate::directory::directory_header(s) {
        Err(_) => Seq::empty(),
        Ok((rest, header)) => {
            proof {
                assert(rest.len() < s.len());
            }
            seq![header] + headers_in(rest)
        },
    }
}

/// The bytes of a file from an offset on, as many as a buffer holds.
pub open spec fn chunk_at(file: Seq<u8>, offset: u64) -> Seq<u8> {
    if offset >= file.len() {
        Seq::empty()
    } else if file.len() - offset <= BUFFER_SIZE {
        file.skip(offset as int)
    } else {
        file.subrange(offset as int, offset + BUFFER_SIZE)
    }
}

/// The last bytes of a file, in which the end of central directory record is searched.
pub open spec fn tail(file: Seq<u8>) -> Seq<u8> {
    file.skip(file.len() - crate::reader::haystack_size(file.len() as u64))
}

/// The end of central directory record of a file, and where it is.
pub open spec fn file_record(file: Seq<u8>) -> Option<Located<EndOfCentralDirectoryRecordView>> {
    match crate::eocd::find_eocd(tail(file)) {
        None => None,
        Some(found) => Some(
            Located {
                offset: (found.offset + (file.len() - tail(file).len())) as u64,
                inner: found.inner,
            },
        ),
    }
}

/// The zip64 end of central directory record that has to be at an offset of a file.
pub open spec fn record64_at(file: Seq<u8>, offset: u64) -> Result<
    Option<Located<EndOfCentralDirectory64Record>>,
    Error,
> {
    if offset >= file.len() {
        Err(Error::IO(IoErrorKind::UnexpectedEof))
    } else {
        match crate::eocd::eocd64_record(file.skip(offset as int)) {
            Err(_) => Err(Error::Format(FormatError::Directory64EndRecordInvalid)),
            Ok((_, inner)) => Ok(Some(Located { offset, inner })),
        }
    }
}

/// The zip64 end of central directory record of a file that has an end of central directory
/// record at an offset: the one to which a locator right before that record points.
pub open spec fn file_record64(file: Seq<u8>, offset: u64) -> Result<
    Option<Located<EndOfCentralDirectory64Record>>,
    Error,
> {
    if offset < 20 {
        Ok(None)
    } else {
        match crate::eocd::eocd64_locator(file.skip(offset - 20)) {
            Err(_) => Ok(None),
            Ok((_, locator)) => record64_at(file, locator.directory_offset),
        }
    }
}

/// Where the central directory of a file is, and what is in it.
pub open spec fn file_directory(file: Seq<u8>) -> Result<EndOfCentralDirectoryView, Error> {
    match file_record(file) {
        None => Err(Error::Format(FormatError::DirectoryEndSignatureNotFound)),
        Some(eocdr) => match file_record64(file, eocdr.offset) {
            Err(e) => Err(e),
            Ok(eocdr64) => crate::eocd::end_of_central_directory(
                file.len() as u64,
                eocdr,
                eocdr64,
            ),
        },
    }
}

/// The bytes of a file that are searched for headers.
pub open spec fn directory_bytes(file: Seq<u8>, eocd: EndOfCentralDirectoryView) -> Seq<u8> {
    if eocd.directory_size() == 0 {
        Seq::empty()
    } else {
        chunk_at(file, eocd.directory_offset())
    }
}

/// Whether the bytes that a buffer takes are enough to tell what is in a directory: they are all
/// of it, or there is no header in them.
pub open spec fn is_read_at_once(file: Seq<u8>, eocd: EndOfCentralDirectoryView) -> bool {
    let bytes = directory_bytes(file, eocd);
    eocd.directory_size() <= bytes.len() || crate::directory::directory_header(bytes) is Err
}

/// The number of bytes of the first header in the bytes `s`.
pub open spec fn first_header_len(s: Seq<u8>) -> int {
    match crate::directory::directory_header(s) {
        Ok((rest, _)) => s.len() - rest.len(),
        Err(_) => 0,
    }
}

/// Whether no more bytes come in behind the first header of a directory: the file ends there, or
/// the header does not reach the upper half of the buffer, so that it makes no room.
pub open spec fn is_stuck(file: Seq<u8>, eocd: EndOfCentralDirectoryView) -> bool {
    ||| file.len() - eocd.directory_offset() <= BUFFER_SIZE
    ||| first_header_len(directory_bytes(file, eocd)) <= BUFFER_SIZE / 2
}

/// What reading a directory comes to. One that does not fit a buffer, or does not end within the
/// file, is taken for cut off.
#[verifier::opaque]
pub open spec fn directory_result(file: Seq<u8>, eocd: EndOfCentralDirectoryView) -> Result<
    ArchiveView,
    Error,
> {
    if is_read_at_once(file, eocd) {
        crate::reader::finished_archive(
            file.len() as u64,
            eocd,
            headers_in(directory_bytes(file, eocd)),
        )
    } else {
        Err(Error::IO(IoErrorKind::UnexpectedEof))
    }
}

/// Whether `directory_result` says what reading a directory comes to. It does not for directories
/// that are larger than a buffer and have a first header that fills more than half of one.
#[verifier::opaque]
pub open spec fn is_settled(file: Seq<u8>, eocd: EndOfCentralDirectoryView) -> bool {
    is_read_at_once(file, eocd) || is_stuck(file, eocd)
}

/// The archive that a file is.
pub open spec fn file_archive(file: Seq<u8>) -> Result<ArchiveView, Error> {
    match file_directory(file) {
        Err(e) => Err(e),
        Ok(eocd) => directory_result(file, eocd),
    }
}

/// Whether a file is as long as a record, and what reading its central directory comes to is
/// settled, if it has one.
pub open spec fn is_readable(file: Seq<u8>) -> bool {
    &&& EndOfCentralDirectoryRecord::LENGTH <= file.len() + 1
    &&& file.len() <= usize::MAX
    &&& file_directory(file) matches Ok(eocd) ==> is_settled(file, eocd)
}

/// Reading comes to one result.
pub proof fn reading_is_determined(
    file: Seq<u8>,
    r: ReaderView,
    a: Result<ArchiveView, Error>,
    b: Result<ArchiveView, Error>,
)
    requires
        crate::archive::reads_to(file, r, a),
        crate::archive::reads_to(file, r, b),
    ensures
        a == b,
{
    let m = choose|turns: nat| #[trigger] crate::archive::outcome(file, r, turns) == Some(a);
    let n = choose|turns: nat| #[trigger] crate::archive::outcome(file, r, turns) == Some(b);
    if m <= n {
        lemma_settled(file, r, m, n);
    } else {
        lemma_settled(file, r, n, m);
    }
}

/// Once reading came to a result, more turns change nothing.
proof fn lemma_settled(file: Seq<u8>, r: ReaderView, m: nat, n: nat)
    requires
        m <= n,
        crate::archive::outcome(file, r, m) is Some,
    ensures
        crate::archive::outcome(file, r, n) == crate::archive::outcome(file, r, m),
    decreases m,
{
    let (next, res) = crate::reader::reader_turn(r, crate::archive::supply(file, r));
    if res matches Ok(ArchiveReaderResultView::Continue) {
        lemma_settled(file, next, (m - 1) as nat, (n - 1) as nat);
    }
}

/// A turn that ends nothing leaves the result to the rest.
pub(crate) proof fn lemma_goes_on(
    file: Seq<u8>,
    r: ReaderView,
    next: ReaderView,
    res: Result<ArchiveView, Error>,
)
    requires
        crate::reader::reader_turn(r, crate::archive::supply(file, r)) == (
            next,
            Ok::<_, Error>(ArchiveReaderResultView::Continue),
        ),
        crate::archive::reads_to(file, next, res),
    ensures
        crate::archive::reads_to(file, r, res),
{
    let n = choose|turns: nat| #[trigger] crate::archive::outcome(file, next, turns) == Some(res);
    assert(crate::archive::outcome(file, r, n + 1) == Some(res));
}

/// A turn that fails ends reading.
proof fn lemma_fails(file: Seq<u8>, r: ReaderView, e: Error)
    requires
        crate::reader::reader_turn(r, crate::archive::supply(file, r)).1 == Err::<
            ArchiveReaderResultView,
            _,
        >(e),
    ensures
        crate::archive::reads_to(file, r, Err(e)),
{
    assert(crate::archive::outcome(file, r, 1) == Some(Err::<ArchiveView, _>(e)));
}

/// A reader that has all of the directory that it wants makes of it the archive with the headers
/// that it has read and those that are left.
pub proof fn directory_is_drained(
    file: Seq<u8>,
    r: ReaderView,
    eocd: EndOfCentralDirectoryView,
    headers: Seq<DirectoryHeaderView>,
)
    requires
        r.state == (StateView::ReadCentralDirectory { eocd, directory_headers: headers }),
        r.wanted_offset() is None,
    ensures
        crate::archive::reads_to(
            file,
            r,
            crate::reader::finished_archive(
                r.size,
                eocd,
                headers + headers_in(r.buffer.contents),
            ),
        ),
    decreases r.buffer.contents.len(),
{
    reveal(crate::reader::reader_turn);
    let (next, res) = crate::reader::reader_turn(r, crate::archive::supply(file, r));
    assert((next, res) == crate::reader::directory_step(r, eocd, headers));
    match crate::directory::directory_header(r.buffer.contents) {
        Ok((rest, header)) => {
            assert(rest =~= next.buffer.contents);
            assert(headers.push(header) + headers_in(rest) =~= headers + (seq![header]
                + headers_in(rest)));
            directory_is_drained(file, next, eocd, headers.push(header));
            lemma_goes_on(
                file,
                r,
                next,
                crate::reader::finished_archive(
                    r.size,
                    eocd,
                    headers + headers_in(r.buffer.contents),
                ),
            );
        },
        Err(_) => {
            assert(headers + Seq::<DirectoryHeaderView>::empty() =~= headers);
            match crate::reader::finished_archive(r.size, eocd, headers) {
                Ok(archive) => {
                    assert(crate::archive::outcome(file, r, 1) == Some(Ok::<_, Error>(archive)));
                },
                Err(e) => {
                    lemma_fails(file, r, e);
                },
            }
        },
    }
}

/// A reader that makes the same turn as another comes to the same result.
proof fn lemma_same_turn(
    file: Seq<u8>,
    r: ReaderView,
    other: ReaderView,
    res: Result<ArchiveView, Error>,
)
    requires
        crate::reader::reader_turn(r, crate::archive::supply(file, r))
            == crate::reader::reader_turn(other, crate::archive::supply(file, other)),
        crate::archive::reads_to(file, other, res),
    ensures
        crate::archive::reads_to(file, r, res),
{
    let n = choose|turns: nat| #[trigger] crate::archive::outcome(file, other, turns) == Some(res);
    assert(crate::archive::outcome(file, r, n) == Some(res));
}

/// A reader with an empty buffer is given the next chunk of the file.
proof fn lemma_first_supply(file: Seq<u8>, r: ReaderView)
    requires
        file.len() <= usize::MAX,
        r.buffer == BufferView::empty(BUFFER_SIZE as nat),
        r.read_op().length > 0,
    ensures
        ({
            let chunk = chunk_at(file, r.read_op().offset);
            &&& crate::archive::supply(file, r) == Some(chunk)
            &&& r.after_read(chunk).buffer.contents == chunk
            &&& r.after_read(chunk).buffer.read_bytes == chunk.len()
            &&& r.after_read(chunk).buffer.capacity == BUFFER_SIZE
            &&& crate::reader::reader_turn(r, Some(chunk)) == if chunk.len() == 0 {
                (r.after_read(chunk), Err(Error::IO(IoErrorKind::UnexpectedEof)))
            } else {
                crate::reader::reader_step(r.after_read(chunk))
            }
        }),
{
    reveal(crate::reader::reader_turn);
    let chunk = chunk_at(file, r.read_op().offset);
    assert(Seq::<u8>::empty() + chunk.take(chunk.len() as int) =~= chunk);
}

/// A reader that is about to read a directory that fits a buffer reads all of it.
proof fn lemma_directory_at_once(file: Seq<u8>, r: ReaderView, eocd: EndOfCentralDirectoryView)
    requires
        file.len() <= usize::MAX,
        r.size == file.len(),
        r.buffer == BufferView::empty(BUFFER_SIZE as nat),
        r.state == (StateView::ReadCentralDirectory { eocd, directory_headers: Seq::empty() }),
        eocd.directory_size() <= directory_bytes(file, eocd).len(),
    ensures
        crate::archive::reads_to(file, r, directory_result(file, eocd)),
{
    reveal(directory_result);
    reveal(crate::reader::reader_turn);
    let none = Seq::<DirectoryHeaderView>::empty();
    let all = headers_in(directory_bytes(file, eocd));
    assert(none + all =~= all);
    if eocd.directory_size() == 0 {
        directory_is_drained(file, r, eocd, none);
    } else {
        let chunk = chunk_at(file, eocd.directory_offset());
        lemma_first_supply(file, r);
        let given = r.after_read(chunk);
        assert(crate::archive::supply(file, given) is None);
        directory_is_drained(file, given, eocd, none);
        lemma_same_turn(file, r, given, directory_result(file, eocd));
    }
}

/// What a reader is that was given a chunk of a directory that does not fit.
proof fn lemma_given_chunk(file: Seq<u8>, r: ReaderView, eocd: EndOfCentralDirectoryView)
    requires
        file.len() <= usize::MAX,
        r.buffer == BufferView::empty(BUFFER_SIZE as nat),
        r.state == (StateView::ReadCentralDirectory { eocd, directory_headers: Seq::empty() }),
        eocd.directory_offset() < file.len(),
        eocd.directory_size() > directory_bytes(file, eocd).len(),
    ensures
        ({
            let chunk = directory_bytes(file, eocd);
            let given = r.after_read(chunk);
            &&& chunk == chunk_at(file, eocd.directory_offset())
            &&& chunk.len() > 0
            &&& given.size == r.size
            &&& given.buffer.contents == chunk
            &&& given.buffer.read_bytes == chunk.len()
            &&& given.buffer.capacity == BUFFER_SIZE
            &&& chunk.len() == BUFFER_SIZE ==> given.buffer.space == 0
            &&& crate::reader::reader_turn(r, crate::archive::supply(file, r))
                == crate::reader::directory_step(given, eocd, Seq::empty())
        }),
{
    lemma_first_supply(file, r);
}

/// A directory of which the first chunk has no header is done with at once.
proof fn lemma_no_header(file: Seq<u8>, r: ReaderView, eocd: EndOfCentralDirectoryView)
    requires
        file.len() <= usize::MAX,
        r.size == file.len(),
        r.buffer == BufferView::empty(BUFFER_SIZE as nat),
        r.state == (StateView::ReadCentralDirectory { eocd, directory_headers: Seq::empty() }),
        eocd.directory_offset() < file.len(),
        eocd.directory_size() > directory_bytes(file, eocd).len(),
        crate::directory::directory_header(directory_bytes(file, eocd)) is Err,
    ensures
        crate::archive::reads_to(file, r, directory_result(file, eocd)),
{
    reveal(directory_result);
    lemma_given_chunk(file, r, eocd);
    let none = Seq::<DirectoryHeaderView>::empty();
    assert(headers_in(directory_bytes(file, eocd)) == none);
    match crate::reader::finished_archive(r.size, eocd, none) {
        Ok(archive) => {
            assert(crate::archive::outcome(file, r, 1) == Some(Ok::<_, Error>(archive)));
        },
        Err(e) => {
            lemma_fails(file, r, e);
        },
    }
}

/// A reader that wants more than its buffer or the file has room for fails.
pub(crate) proof fn lemma_starved(file: Seq<u8>, r: ReaderView, offset: u64)
    requires
        r.wanted_offset() == Some(offset),
        r.buffer.space == 0 || offset >= file.len(),
    ensures
        crate::archive::reads_to(file, r, Err(Error::IO(IoErrorKind::UnexpectedEof))),
{
    reveal(crate::reader::reader_turn);
    lemma_fails(file, r, Error::IO(IoErrorKind::UnexpectedEof));
}

/// What a reader is after it has read the first header: it wants as much as before, and a header
/// that does not reach the upper half of a full buffer makes no room.
proof fn lemma_first_header(given: ReaderView, eocd: EndOfCentralDirectoryView)
    requires
        given.buffer.capacity == BUFFER_SIZE,
        given.state == (StateView::ReadCentralDirectory { eocd, directory_headers: Seq::empty() }),
        crate::directory::directory_header(given.buffer.contents) is Ok,
    ensures
        ({
            let (next, res) = crate::reader::directory_step(given, eocd, Seq::empty());
            let full = given.buffer.space == 0 && given.buffer.contents.len() == BUFFER_SIZE;
            &&& res == Ok::<_, Error>(ArchiveReaderResultView::Continue)
            &&& next.wanted_offset() == given.wanted_offset()
            &&& full && first_header_len(given.buffer.contents) <= BUFFER_SIZE / 2
                ==> next.buffer.space == 0
        }),
{
    let (rest, _) = crate::directory::directory_header(given.buffer.contents)->Ok_0;
    assert(rest.len() < given.buffer.contents.len());
}

/// Where the bytes are that a reader wants behind the first chunk of a directory, and whether it
/// can get them.
proof fn lemma_behind_chunk(file: Seq<u8>, given: ReaderView, eocd: EndOfCentralDirectoryView)
    requires
        file.len() <= usize::MAX,
        given.state == (StateView::ReadCentralDirectory { eocd, directory_headers: Seq::empty() }),
        given.buffer.read_bytes == chunk_at(file, eocd.directory_offset()).len(),
        eocd.directory_offset() < file.len(),
        eocd.directory_size() > chunk_at(file, eocd.directory_offset()).len(),
    ensures
        ({
            let chunk = chunk_at(file, eocd.directory_offset());
            let offset = (eocd.directory_offset() + chunk.len()) as u64;
            &&& given.wanted_offset() == Some(offset)
            &&& offset >= file.len() || (chunk.len() == BUFFER_SIZE && file.len()
                - eocd.directory_offset() > BUFFER_SIZE)
        }),
{
}

/// A directory that does not fit is taken for cut off.
proof fn lemma_cut_off(
    file: Seq<u8>,
    r: ReaderView,
    given: ReaderView,
    eocd: EndOfCentralDirectoryView,
    offset: u64,
)
    requires
        given.buffer.capacity == BUFFER_SIZE,
        given.state == (StateView::ReadCentralDirectory { eocd, directory_headers: Seq::empty() }),
        crate::directory::directory_header(given.buffer.contents) is Ok,
        crate::reader::reader_turn(r, crate::archive::supply(file, r))
            == crate::reader::directory_step(given, eocd, Seq::empty()),
        given.wanted_offset() == Some(offset),
        offset >= file.len() || {
            &&& given.buffer.space == 0
            &&& given.buffer.contents.len() == BUFFER_SIZE
            &&& first_header_len(given.buffer.contents) <= BUFFER_SIZE / 2
        },
    ensures
        crate::archive::reads_to(file, r, Err(Error::IO(IoErrorKind::UnexpectedEof))),
{
    let (next, _) = crate::reader::reader_turn(r, crate::archive::supply(file, r));
    lemma_first_header(given, eocd);
    lemma_starved(file, next, offset);
    lemma_goes_on(file, r, next, Err(Error::IO(IoErrorKind::UnexpectedEof)));
}

/// A reader that is about to read a directory comes to what is in it.
proof fn lemma_directory(file: Seq<u8>, r: ReaderView, eocd: EndOfCentralDirectoryView)
    requires
        file.len() <= usize::MAX,
        r.size == file.len(),
        r.buffer == BufferView::empty(BUFFER_SIZE as nat),
        r.state == (StateView::ReadCentralDirectory { eocd, directory_headers: Seq::empty() }),
        eocd.directory_offset() < file.len(),
        is_settled(file, eocd),
    ensures
        crate::archive::reads_to(file, r, directory_result(file, eocd)),
{
    reveal(is_settled);
    if eocd.directory_size() <= directory_bytes(file, eocd).len() {
        lemma_directory_at_once(file, r, eocd);
    } else if is_read_at_once(file, eocd) {
        lemma_no_header(file, r, eocd);
    } else {
        reveal(directory_result);
        let chunk = directory_bytes(file, eocd);
        let given = r.after_read(chunk);
        lemma_given_chunk(file, r, eocd);
        lemma_behind_chunk(file, given, eocd);
        let offset = (eocd.directory_offset() + chunk.len()) as u64;
        lemma_cut_off(file, r, given, eocd, offset);
    }
}

/// The result of reading a file with the given record, and with a zip64 record where there is one.
spec fn described_result(
    file: Seq<u8>,
    eocdr: Located<EndOfCentralDirectoryRecordView>,
    eocdr64: Option<Located<EndOfCentralDirectory64Record>>,
) -> Result<ArchiveView, Error> {
    match crate::eocd::end_of_central_directory(file.len() as u64, eocdr, eocdr64) {
        Ok(eocd) => directory_result(file, eocd),
        Err(e) => Err(e),
    }
}

/// Whether the directory that the records describe, if there is one, can be read.
spec fn has_room(
    file: Seq<u8>,
    eocdr: Located<EndOfCentralDirectoryRecordView>,
    eocdr64: Option<Located<EndOfCentralDirectory64Record>>,
) -> bool {
    crate::eocd::end_of_central_directory(file.len() as u64, eocdr, eocdr64) matches Ok(eocd)
        ==> is_settled(file, eocd)
}

/// A turn that goes on to the directory comes to what is in it, and to an error where there is no
/// directory.
proof fn lemma_entered(
    file: Seq<u8>,
    r: ReaderView,
    given: ReaderView,
    eocdr: Located<EndOfCentralDirectoryRecordView>,
    eocdr64: Option<Located<EndOfCentralDirectory64Record>>,
    fallback: StateView,
)
    requires
        file.len() <= usize::MAX,
        given.size == file.len(),
        given.buffer.capacity == BUFFER_SIZE,
        crate::reader::reader_turn(r, crate::archive::supply(file, r))
            == crate::reader::directory_entered(given, eocdr, eocdr64, fallback),
        has_room(file, eocdr, eocdr64),
    ensures
        crate::archive::reads_to(file, r, described_result(file, eocdr, eocdr64)),
{
    let (next, _) = crate::reader::reader_turn(r, crate::archive::supply(file, r));
    match crate::eocd::end_of_central_directory(given.size, eocdr, eocdr64) {
        Ok(eocd) => {
            lemma_directory(file, next, eocd);
            lemma_goes_on(file, r, next, directory_result(file, eocd));
        },
        Err(e) => {
            lemma_fails(file, r, e);
        },
    }
}

/// What the turn is that reads a zip64 record.
proof fn lemma_turn_record64(
    file: Seq<u8>,
    r: ReaderView,
    offset64: u64,
    eocdr: Located<EndOfCentralDirectoryRecordView>,
)
    requires
        file.len() <= usize::MAX,
        r.buffer == BufferView::empty(BUFFER_SIZE as nat),
        r.state == (StateView::ReadEocd64 { eocdr64_offset: offset64, eocdr }),
    ensures
        ({
            let chunk = chunk_at(file, offset64);
            let given = r.after_read(chunk);
            let turn = crate::reader::reader_turn(r, crate::archive::supply(file, r));
            &&& given.size == r.size
            &&& given.buffer.contents == chunk
            &&& given.buffer.capacity == BUFFER_SIZE
            &&& if chunk.len() == 0 {
                turn == crate::reader::refused(given, Error::IO(IoErrorKind::UnexpectedEof))
            } else {
                turn == crate::reader::eocd64_step(given, offset64, eocdr)
            }
        }),
{
    lemma_first_supply(file, r);
}

/// What the turn is that looks for a locator.
proof fn lemma_turn_locator(
    file: Seq<u8>,
    r: ReaderView,
    eocdr: Located<EndOfCentralDirectoryRecordView>,
)
    requires
        file.len() <= usize::MAX,
        r.buffer == BufferView::empty(BUFFER_SIZE as nat),
        r.state == (StateView::ReadEocd64Locator { eocdr }),
        20 <= eocdr.offset <= file.len(),
    ensures
        ({
            let chunk = chunk_at(file, (eocdr.offset - 20) as u64);
            let given = r.after_read(chunk);
            let turn = crate::reader::reader_turn(r, crate::archive::supply(file, r));
            &&& given.size == r.size
            &&& given.buffer.contents == chunk
            &&& given.buffer.capacity == BUFFER_SIZE
            &&& turn == crate::reader::locator_step(given, eocdr)
        }),
{
    lemma_first_supply(file, r);
}

/// A chunk is all that a file has from its offset on, or the first part of it.
proof fn lemma_chunk(file: Seq<u8>, offset: u64)
    requires
        offset < file.len(),
    ensures
        ({
            let chunk = chunk_at(file, offset);
            let s = file.skip(offset as int);
            chunk == s || (chunk.len() == BUFFER_SIZE && chunk.len() <= s.len() && chunk == s.take(
                chunk.len() as int,
            ))
        }),
{
    let chunk = chunk_at(file, offset);
    if file.len() - offset > BUFFER_SIZE {
        assert(chunk =~= file.skip(offset as int).take(BUFFER_SIZE as int));
    }
}

/// What a file with a record comes to, depending on its zip64 record.
proof fn lemma_described(file: Seq<u8>, eocdr: Located<EndOfCentralDirectoryRecordView>)
    requires
        is_readable(file),
        file_record(file) == Some(eocdr),
    ensures
        match file_record64(file, eocdr.offset) {
            Ok(eocdr64) => {
                &&& file_archive(file) == described_result(file, eocdr, eocdr64)
                &&& has_room(file, eocdr, eocdr64)
            },
            Err(e) => file_archive(file) == Err::<ArchiveView, _>(e),
        },
{
}

/// A reader that knows where the zip64 record is comes to the archive that the file is.
#[verifier::rlimit(40)]
proof fn lemma_record64(
    file: Seq<u8>,
    r: ReaderView,
    offset64: u64,
    eocdr: Located<EndOfCentralDirectoryRecordView>,
)
    requires
        file.len() <= usize::MAX,
        r.size == file.len(),
        r.buffer == BufferView::empty(BUFFER_SIZE as nat),
        r.state == (StateView::ReadEocd64 { eocdr64_offset: offset64, eocdr }),
        record64_at(file, offset64) matches Ok(eocdr64) ==> has_room(file, eocdr, eocdr64),
    ensures
        match record64_at(file, offset64) {
            Ok(eocdr64) => crate::archive::reads_to(
                file,
                r,
                described_result(file, eocdr, eocdr64),
            ),
            Err(e) => crate::archive::reads_to(file, r, Err(e)),
        },
{
    let chunk = chunk_at(file, offset64);
    lemma_turn_record64(file, r, offset64, eocdr);
    let given = r.after_read(chunk);
    if offset64 >= file.len() {
        lemma_fails(file, r, Error::IO(IoErrorKind::UnexpectedEof));
    } else {
        lemma_chunk(file, offset64);
        lemma_record64_prefix(file.skip(offset64 as int), chunk);
        match crate::eocd::eocd64_record(chunk) {
            Err(_) => {
                lemma_fails(file, r, Error::Format(FormatError::Directory64EndRecordInvalid));
            },
            Ok((_, inner)) => {
                let eocdr64 = Some(Located { offset: offset64, inner });
                lemma_entered(file, r, given, eocdr, eocdr64, StateView::Transitioning);
            },
        }
    }
}

/// The zip64 record at the start of a chunk is the one at the start of the bytes that the chunk
/// is the first part of.
proof fn lemma_record64_prefix(s: Seq<u8>, chunk: Seq<u8>)
    requires
        chunk == s || (chunk.len() >= 56 && chunk.len() <= s.len() && chunk == s.take(
            chunk.len() as int,
        )),
    ensures
        match (crate::eocd::eocd64_record(s), crate::eocd::eocd64_record(chunk)) {
            (Ok((_, a)), Ok((_, b))) => a == b,
            (Err(a), Err(b)) => a == b,
            _ => false,
        },
{
}

/// The locator at the start of a chunk is the one at the start of the bytes that the chunk is the
/// first part of.
proof fn lemma_locator_prefix(s: Seq<u8>, chunk: Seq<u8>)
    requires
        chunk == s || (chunk.len() >= 20 && chunk.len() <= s.len() && chunk == s.take(
            chunk.len() as int,
        )),
    ensures
        match (crate::eocd::eocd64_locator(s), crate::eocd::eocd64_locator(chunk)) {
            (Ok((_, a)), Ok((_, b))) => a == b,
            (Err(a), Err(b)) => a == b,
            _ => false,
        },
{
}

/// A reader that knows where the end of central directory record is comes to the archive that the
/// file is.
#[verifier::rlimit(40)]
proof fn lemma_locator(
    file: Seq<u8>,
    r: ReaderView,
    eocdr: Located<EndOfCentralDirectoryRecordView>,
)
    requires
        file.len() <= usize::MAX,
        r.size == file.len(),
        r.buffer == BufferView::empty(BUFFER_SIZE as nat),
        r.state == (StateView::ReadEocd64Locator { eocdr }),
        20 <= eocdr.offset <= file.len(),
        file_record64(file, eocdr.offset) matches Ok(eocdr64) ==> has_room(file, eocdr, eocdr64),
    ensures
        match file_record64(file, eocdr.offset) {
            Ok(eocdr64) => crate::archive::reads_to(
                file,
                r,
                described_result(file, eocdr, eocdr64),
            ),
            Err(e) => crate::archive::reads_to(file, r, Err(e)),
        },
{
    let start = (eocdr.offset - 20) as u64;
    let chunk = chunk_at(file, start);
    lemma_turn_locator(file, r, eocdr);
    let given = r.after_read(chunk);
    lemma_chunk(file, start);
    lemma_locator_prefix(file.skip(start as int), chunk);
    match crate::eocd::eocd64_locator(chunk) {
        Err(_) => {
            lemma_entered(file, r, given, eocdr, None, StateView::Transitioning);
        },
        Ok((_, locator)) => {
            let (next, _) = crate::reader::reader_turn(r, crate::archive::supply(file, r));
            lemma_record64(file, next, locator.directory_offset, eocdr);
            match record64_at(file, locator.directory_offset) {
                Ok(eocdr64) => {
                    lemma_goes_on(file, r, next, described_result(file, eocdr, eocdr64));
                },
                Err(e) => {
                    lemma_goes_on(file, r, next, Err(e));
                },
            }
        },
    }
}

/// What the turn is that searches the end of central directory record.
proof fn lemma_turn_eocd(file: Seq<u8>)
    requires
        file.len() <= usize::MAX,
        EndOfCentralDirectoryRecord::LENGTH <= file.len() + 1,
    ensures
        ({
            let size = file.len() as u64;
            let r = ReaderView::initial(size);
            let given = r.after_read(tail(file));
            &&& given.size == size
            &&& given.state == r.state
            &&& given.buffer.contents == tail(file)
            &&& given.buffer.read_bytes == tail(file).len()
            &&& given.buffer.capacity == BUFFER_SIZE
            &&& tail(file).len() == crate::reader::haystack_size(size)
            &&& crate::reader::reader_turn(r, crate::archive::supply(file, r))
                == crate::reader::eocd_step(given, crate::reader::haystack_size(size))
        }),
{
    let r = ReaderView::initial(file.len() as u64);
    lemma_first_supply(file, r);
    assert(tail(file) =~= chunk_at(file, r.read_op().offset));
}

/// What the search for the end of central directory record comes to.
proof fn lemma_eocd_step(file: Seq<u8>)
    requires
        file.len() <= usize::MAX,
        EndOfCentralDirectoryRecord::LENGTH <= file.len() + 1,
    ensures
        ({
            let r = ReaderView::initial(file.len() as u64);
            let given = r.after_read(tail(file));
            let turn = crate::reader::reader_turn(r, crate::archive::supply(file, r));
            match file_record(file) {
                None => turn == crate::reader::refused(
                    given,
                    Error::Format(FormatError::DirectoryEndSignatureNotFound),
                ),
                Some(eocdr) => {
                    &&& eocdr.offset <= file.len()
                    &&& if eocdr.offset < 20 {
                        turn == crate::reader::directory_entered(given, eocdr, None, r.state)
                    } else {
                        &&& turn.0 == given.moved_to(StateView::ReadEocd64Locator { eocdr })
                        &&& turn.1 == Ok::<_, Error>(ArchiveReaderResultView::Continue)
                    }
                },
            }
        }),
{
    let end = tail(file);
    lemma_turn_eocd(file);
    assert(end.take(end.len() as int) =~= end);
    crate::eocd::finds_the_last_record(end);
}

/// Reading a file comes to the archive that it is: the one with a header for each of those at the
/// start of its central directory, which is where the end of central directory record, or the
/// zip64 record that belongs to it, says, corrected for what stands before the archive.
#[verifier::rlimit(40)]
pub proof fn whole_file_is_read(file: Seq<u8>)
    requires
        is_readable(file),
    ensures
        crate::archive::reads_to(
            file,
            ReaderView::initial(file.len() as u64),
            file_archive(file),
        ),
{
    let r = ReaderView::initial(file.len() as u64);
    let given = r.after_read(tail(file));
    lemma_turn_eocd(file);
    lemma_eocd_step(file);
    match file_record(file) {
        None => {
            lemma_fails(file, r, Error::Format(FormatError::DirectoryEndSignatureNotFound));
        },
        Some(eocdr) => {
            lemma_described(file, eocdr);
            if eocdr.offset < 20 {
                lemma_entered(file, r, given, eocdr, None, r.state);
            } else {
                let (next, _) = crate::reader::reader_turn(r, crate::archive::supply(file, r));
                lemma_locator(file, next, eocdr);
                lemma_goes_on(file, r, next, file_archive(file));
            }
        },
    }
}

/// Whether the bytes `s` are headers, one behind the other, and nothing else.
pub open spec fn is_directory(s: Seq<u8>) -> bool
    decreases s.len(),
{
    s.len() == 0 || match crate::directory::directory_header(s) {
        Err(_) => false,
        Ok((rest, _)) => {
            proof {
                assert(rest.len() < s.len());
            }
            is_directory(rest)
        },
    }
}

/// What follows a directory and is no header adds nothing to it.
proof fn lemma_directory_ends(s: Seq<u8>, t: Seq<u8>)
    requires
        is_directory(s),
        crate::directory::directory_header(t) is Err,
    ensures
        headers_in(s + t) == headers_in(s),
    decreases s.len(),
{
    if s.len() == 0 {
        assert(s + t =~= t);
    } else {
        crate::laws::header_ignores_what_follows(s, t);
        lemma_directory_ends((crate::directory::directory_header(s)->Ok_0).0, t);
    }
}

/// Whether `record` is an end of central directory record that no other one follows, as close to
/// the end of a file as it is searched.
#[verifier::opaque]
pub open spec fn is_last_record(record: Seq<u8>) -> bool {
    &&& crate::eocd::eocd_record(record) is Ok
    &&& record.len() <= 65 * 1024
    &&& forall|j: int|
        0 < j <= record.len() ==> crate::eocd::eocd_record(#[trigger] record.skip(j)) is Err
}

/// The last record of a file is found.
proof fn lemma_record_is_found(file: Seq<u8>, record: Seq<u8>, at: int)
    requires
        file.len() <= u64::MAX,
        0 <= at <= file.len(),
        record == file.skip(at),
        is_last_record(record),
    ensures
        file_record(file) == Some(
            Located { offset: at as u64, inner: (crate::eocd::eocd_record(record)->Ok_0).1 },
        ),
        record.len() >= 22,
        !crate::bytes::has_signature(record, 0x01, 0x02),
{
    reveal(is_last_record);
    let end = tail(file);
    let p = end.len() - record.len();
    crate::eocd::finds_the_last_record(end);
    assert(end.skip(p) =~= record);
    assert forall|j: int| p < j <= end.len() implies crate::eocd::eocd_record(
        #[trigger] end.skip(j),
    ) is Err by {
        assert(end.skip(j) =~= record.skip(j - p));
    }
}

/// The headers of a directory are found where it starts, whatever follows it that is no header.
proof fn lemma_directory_is_found(
    file: Seq<u8>,
    eocd: EndOfCentralDirectoryView,
    directory: Seq<u8>,
    after: Seq<u8>,
)
    requires
        is_directory(directory),
        directory.len() <= 128 * 1024,
        !crate::bytes::has_signature(after, 0x01, 0x02),
        eocd.directory_offset() <= file.len(),
        file.skip(eocd.directory_offset() as int) == directory + after,
        eocd.directory_size() == directory.len(),
    ensures
        is_settled(file, eocd),
        directory_result(file, eocd) == crate::reader::finished_archive(
            file.len() as u64,
            eocd,
            headers_in(directory),
        ),
{
    reveal(directory_result);
    reveal(is_settled);
    if directory.len() > 0 {
        let offset = eocd.directory_offset();
        let chunk = directory_bytes(file, eocd);
        let rest = chunk.skip(directory.len() as int);
        assert(file.skip(offset as int).len() == directory.len() + after.len());
        assert forall|i: int| 0 <= i < chunk.len() implies chunk[i] == (directory + after)[i] by {
            assert(chunk[i] == file.skip(offset as int)[i]);
        }
        assert(chunk =~= directory + rest);
        assert forall|i: int| 0 <= i < rest.len() implies rest[i] == after[i] by {
            assert(rest[i] == chunk[directory.len() + i]);
        }
        assert(crate::directory::directory_header(rest) is Err);
        lemma_directory_ends(directory, rest);
    }
}

/// The archive with the headers of a directory and with what a record says besides.
pub open spec fn directory_archive(
    size: u64,
    announced: u64,
    comment: Seq<u8>,
    headers: Seq<DirectoryHeaderView>,
) -> Result<ArchiveView, Error> {
    if headers.len() % 0x1_0000 == announced % 0x1_0000 {
        crate::archive::described_archive(
            size,
            comment,
            headers,
            crate::charset::archive_encoding(headers),
        )
    } else {
        Err(Error::Format(FormatError::InvalidCentralRecord))
    }
}

/// Where the directory is that ends right before the record that describes it.
proof fn lemma_appended_directory(
    size: u64,
    start: u64,
    eocdr: Located<EndOfCentralDirectoryRecordView>,
    eocdr64: Option<Located<EndOfCentralDirectory64Record>>,
)
    requires
        start < size,
        ({
            let found = EndOfCentralDirectoryView { dir: eocdr, dir64: eocdr64, global_offset: 0 };
            start + found.directory_size() == found.located_directory_offset()
        }),
        eocdr64 is None ==> start <= u32::MAX,
    ensures
        ({
            let found = EndOfCentralDirectoryView { dir: eocdr, dir64: eocdr64, global_offset: 0 };
            &&& crate::eocd::end_of_central_directory(size, eocdr, eocdr64) matches Ok(eocd)
            &&& eocd.directory_offset() == start
            &&& eocd.directory_size() == found.directory_size()
            &&& eocd.directory_records() == found.directory_records()
            &&& eocd.dir.inner.comment == eocdr.inner.comment
        }),
{
    let found = EndOfCentralDirectoryView { dir: eocdr, dir64: eocdr64, global_offset: 0 };
    assert(found.computed_directory_offset() == start);
}

/// What a file comes to in which the directory ends right before the record that describes it.
#[verifier::rlimit(40)]
proof fn lemma_appended(
    file: Seq<u8>,
    start: u64,
    eocdr: Located<EndOfCentralDirectoryRecordView>,
    eocdr64: Option<Located<EndOfCentralDirectory64Record>>,
    directory: Seq<u8>,
    after: Seq<u8>,
)
    requires
        EndOfCentralDirectoryRecord::LENGTH <= file.len() + 1,
        file.len() <= usize::MAX,
        start < file.len(),
        file_record(file) == Some(eocdr),
        file_record64(file, eocdr.offset) == Ok::<_, Error>(eocdr64),
        is_directory(directory),
        directory.len() <= 128 * 1024,
        !crate::bytes::has_signature(after, 0x01, 0x02),
        file.skip(start as int) == directory + after,
        ({
            let found = EndOfCentralDirectoryView { dir: eocdr, dir64: eocdr64, global_offset: 0 };
            &&& found.directory_size() == directory.len()
            &&& start + directory.len() == found.located_directory_offset()
        }),
        eocdr64 is None ==> start <= u32::MAX,
    ensures
        ({
            let found = EndOfCentralDirectoryView { dir: eocdr, dir64: eocdr64, global_offset: 0 };
            &&& is_readable(file)
            &&& file_archive(file) == directory_archive(
                file.len() as u64,
                found.directory_records(),
                eocdr.inner.comment,
                headers_in(directory),
            )
        }),
{
    lemma_appended_directory(file.len() as u64, start, eocdr, eocdr64);
    let eocd = file_directory(file)->Ok_0;
    assert(file_directory(file) == Ok::<_, Error>(eocd));
    lemma_directory_is_found(file, eocd, directory, after);
}

/// Without a locator right before the record, a file has no zip64 record.
proof fn lemma_no_record64(before: Seq<u8>, directory: Seq<u8>, record: Seq<u8>)
    requires
        before.len() + directory.len() <= u64::MAX,
        before.len() + directory.len() >= 20 ==> !crate::bytes::has_signature(
            (before + directory).skip(before.len() + directory.len() - 20),
            0x06,
            0x07,
        ),
    ensures
        file_record64(
            before + directory + record,
            (before.len() + directory.len()) as u64,
        ) == Ok::<_, Error>(None::<Located<EndOfCentralDirectory64Record>>),
{
    let file = before + directory + record;
    let at = (before.len() + directory.len()) as int;
    if at >= 20 {
        let s = (before + directory).skip(at - 20);
        let t = file.skip(at - 20);
        assert(t[0] == s[0] && t[1] == s[1] && t[2] == s[2] && t[3] == s[3]);
    }
}

/// A zip file is read, with anything before it: where a file ends with a directory and the record
/// that describes it, reading the file gives the archive with the headers of that directory,
/// wherever the record says that the directory starts. The directory has to fit a buffer, and to
/// start in the first four gigabytes. Right before the record there must be no zip64 locator.
#[verifier::rlimit(40)]
pub proof fn appended_archive_is_read(before: Seq<u8>, directory: Seq<u8>, record: Seq<u8>)
    requires
        before.len() + directory.len() + record.len() <= usize::MAX,
        is_directory(directory),
        directory.len() <= 128 * 1024,
        is_last_record(record),
        (crate::eocd::eocd_record(record)->Ok_0).1.directory_size == directory.len(),
        before.len() <= u32::MAX,
        before.len() + directory.len() >= 20 ==> !crate::bytes::has_signature(
            (before + directory).skip(before.len() + directory.len() - 20),
            0x06,
            0x07,
        ),
    ensures
        ({
            let file = before + directory + record;
            let inner = (crate::eocd::eocd_record(record)->Ok_0).1;
            &&& is_readable(file)
            &&& file_archive(file) == directory_archive(
                file.len() as u64,
                inner.directory_records as u64,
                inner.comment,
                headers_in(directory),
            )
        }),
{
    let file = before + directory + record;
    let start = before.len() as u64;
    let at = (before.len() + directory.len()) as int;
    let inner = (crate::eocd::eocd_record(record)->Ok_0).1;
    let eocdr = Located { offset: at as u64, inner };
    assert(file.skip(at) == record && file.skip(start as int) == directory + record) by {
        assert(file.skip(at) =~= record);
        assert(file.skip(start as int) =~= directory + record);
    }
    lemma_record_is_found(file, record, at);
    lemma_no_record64(before, directory, record);
    lemma_appended(file, start, eocdr, None, directory, record);
}

/// The zip64 record to which a locator right before the record of a file points is found.
proof fn lemma_record64_is_found(file: Seq<u8>, record64: Seq<u8>, locator: Seq<u8>, at: int)
    requires
        file.len() <= u64::MAX,
        20 <= at <= file.len(),
        locator.len() == 20,
        file.subrange(at - 20, at) == locator,
        crate::eocd::eocd64_locator(locator) matches Ok((_, l)) && {
            &&& l.directory_offset + record64.len() <= file.len()
            &&& file.subrange(l.directory_offset as int, l.directory_offset + record64.len())
                == record64
        },
        crate::eocd::eocd64_record(record64) is Ok,
    ensures
        file_record64(file, at as u64) == Ok::<_, Error>(
            Some(
                Located {
                    offset: (crate::eocd::eocd64_locator(locator)->Ok_0).1.directory_offset,
                    inner: (crate::eocd::eocd64_record(record64)->Ok_0).1,
                },
            ),
        ),
{
    let s = file.skip(at - 20);
    assert(s.take(20) =~= locator);
    lemma_locator_prefix(s, locator);
    let offset = (crate::eocd::eocd64_locator(locator)->Ok_0).1.directory_offset;
    let t = file.skip(offset as int);
    assert(t.take(record64.len() as int) =~= record64);
    lemma_record64_prefix(t, record64);
}

/// Where the parts of a zip64 file are.
proof fn lemma_parts(
    before: Seq<u8>,
    directory: Seq<u8>,
    record64: Seq<u8>,
    locator: Seq<u8>,
    record: Seq<u8>,
)
    ensures
        ({
            let file = before + directory + record64 + locator + record;
            let at64 = before.len() + directory.len();
            let at = at64 + record64.len() + locator.len();
            &&& file.len() == at + record.len()
            &&& file.skip(at as int) == record
            &&& file.subrange(at - locator.len(), at as int) == locator
            &&& file.subrange(at64 as int, (at64 + record64.len()) as int) == record64
            &&& file.skip(before.len() as int) == directory + (record64 + locator + record)
            &&& record64.len() >= 4 ==> (record64 + locator + record)[3] == record64[3]
        }),
{
    let file = before + directory + record64 + locator + record;
    let at64 = before.len() + directory.len();
    let at = at64 + record64.len() + locator.len();
    assert(file.skip(at as int) =~= record);
    assert(file.subrange(at - locator.len(), at as int) =~= locator);
    assert(file.subrange(at64 as int, (at64 + record64.len()) as int) =~= record64);
    assert(file.skip(before.len() as int) =~= directory + (record64 + locator + record));
}

/// A zip64 file is read: where a file ends with a directory, a zip64 record that describes it, a
/// locator that points to the zip64 record, and an end of central directory record, reading the
/// file gives the archive with the headers of that directory, wherever the zip64 record says that
/// the directory starts. The directory has to fit a buffer.
#[verifier::rlimit(40)]
pub proof fn zip64_archive_is_read(
    before: Seq<u8>,
    directory: Seq<u8>,
    record64: Seq<u8>,
    locator: Seq<u8>,
    record: Seq<u8>,
)
    requires
        before.len() + directory.len() + record64.len() + locator.len() + record.len()
            <= usize::MAX,
        is_directory(directory),
        directory.len() <= 128 * 1024,
        crate::eocd::eocd64_record(record64) matches Ok((_, inner64)) && inner64.directory_size
            == directory.len(),
        locator.len() == 20,
        crate::eocd::eocd64_locator(locator) matches Ok((_, l)) && l.directory_offset
            == before.len() + directory.len(),
        is_last_record(record),
    ensures
        ({
            let file = before + directory + record64 + locator + record;
            let inner = (crate::eocd::eocd_record(record)->Ok_0).1;
            let inner64 = (crate::eocd::eocd64_record(record64)->Ok_0).1;
            &&& is_readable(file)
            &&& file_archive(file) == directory_archive(
                file.len() as u64,
                inner64.directory_records,
                inner.comment,
                headers_in(directory),
            )
        }),
{
    let file = before + directory + record64 + locator + record;
    let start = before.len() as u64;
    let at64 = (before.len() + directory.len()) as int;
    let at = at64 + record64.len() + 20;
    let inner = (crate::eocd::eocd_record(record)->Ok_0).1;
    let inner64 = (crate::eocd::eocd64_record(record64)->Ok_0).1;
    let eocdr = Located { offset: at as u64, inner };
    let eocdr64 = Some(Located { offset: at64 as u64, inner: inner64 });
    let after = record64 + locator + record;
    lemma_parts(before, directory, record64, locator, record);
    lemma_record_is_found(file, record, at);
    lemma_record64_is_found(file, record64, locator, at);
    lemma_appended(file, start, eocdr, eocdr64, directory, after);
}

} // verus!
