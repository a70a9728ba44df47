//! An archive: the files that its central directory lists.
use vstd::prelude::*;
use vstd::slice::slice_subrange;

use crate::directory::{decode_comment, DirectoryHeader, DirectoryHeaderView};
use crate::encoding::Encoding;
use crate::eocd::EndOfCentralDirectoryRecord;
use crate::error::Error;
use crate::reader::{
    ArchiveReader, ArchiveReaderResult, ArchiveReaderResultView, ReaderView, StateView,
};
use crate::types::{StoredEntry, StoredEntryView, ZipString};

verus! {

/// The central directory of a zip file.
#[derive(Debug)]
pub struct Archive {
    size: u64,
    encoding: Encoding,
    entries: Vec<StoredEntry>,
    comment: Option<String>,
}

#[verifier::ext_equal]
pub struct ArchiveView {
    pub size: u64,
    pub encoding: Encoding,
    pub entries: Seq<StoredEntryView>,
    pub comment: Option<Seq<char>>,
}

/// The views of a sequence of entries.
pub open spec fn entry_views(entries: Seq<StoredEntry>) -> Seq<StoredEntryView> {
    entries.map_values(|e: StoredEntry| e@)
}

impl View for Archive {
    type V = ArchiveView;

    closed spec fn view(&self) -> ArchiveView {
        ArchiveView {
            size: self.size,
            encoding: self.encoding,
            entries: entry_views(self.entries@),
            comment: crate::types::text_view(self.comment),
        }
    }
}

/// The entries that headers describe, in the same order, or what is wrong with the first header
/// that describes none.
pub open spec fn stored_entries(headers: Seq<DirectoryHeaderView>, encoding: Encoding) -> Result<
    Seq<StoredEntryView>,
    Error,
>
    decreases headers.len(),
{
    if headers.len() == 0 {
        Ok(Seq::empty())
    } else {
        match stored_entries(headers.drop_last(), encoding) {
            Err(e) => Err(e),
            Ok(entries) => match crate::directory::stored_entry(headers.last(), encoding) {
                Err(e) => Err(e),
                Ok(entry) => Ok(entries.push(entry)),
            },
        }
    }
}

/// The archive of `size` bytes with the given comment and headers, its texts taken in the given
/// encoding.
pub open spec fn described_archive(
    size: u64,
    comment: Seq<u8>,
    headers: Seq<DirectoryHeaderView>,
    encoding: Encoding,
) -> Result<ArchiveView, Error> {
    match stored_entries(headers, encoding) {
        Err(e) => Err(e),
        Ok(entries) => match crate::directory::decoded_comment(comment, encoding) {
            Err(e) => Err(e),
            Ok(comment) => Ok(ArchiveView { size, encoding, entries, comment }),
        },
    }
}

/// The bytes of a file that a reader wants and can take, or `None` where it wants none.
pub open spec fn supply(file: Seq<u8>, r: ReaderView) -> Option<Seq<u8>> {
    match r.wanted_offset() {
        None => None,
        Some(offset) => if offset >= file.len() {
            Some(Seq::empty())
        } else if file.len() - offset <= r.buffer.space {
            Some(file.skip(offset as int))
        } else {
            Some(file.subrange(offset as int, offset + r.buffer.space))
        },
    }
}

/// What reading a file comes to within the given number of turns, or `None` where that takes more
/// of them.
pub open spec fn outcome(file: Seq<u8>, r: ReaderView, turns: nat) -> Option<
    Result<ArchiveView, Error>,
>
    decreases turns,
{
    if turns == 0 {
        None
    } else {
        match crate::reader::reader_turn(r, supply(file, r)) {
            (_, Err(e)) => Some(Err(e)),
            (_, Ok(ArchiveReaderResultView::Done(archive))) => Some(Ok(archive)),
            (next, Ok(ArchiveReaderResultView::Continue)) => outcome(
                file,
                next,
                (turns - 1) as nat,
            ),
        }
    }
}

/// Whether reading a file comes to `res`, however many turns it takes.
pub open spec fn reads_to(file: Seq<u8>, r: ReaderView, res: Result<ArchiveView, Error>) -> bool {
    exists|turns: nat| #[trigger] outcome(file, r, turns) == Some(res)
}

/// The result of reading, taken by its view.
pub open spec fn archive_view(res: Result<Archive, Error>) -> Result<ArchiveView, Error> {
    match res {
        Ok(archive) => Ok(archive@),
        Err(e) => Err(e),
    }
}

/// The bytes of a file at an offset, as many as there are and at most `count`.
fn read_at<'a>(file: &'a [u8], offset: u64, count: usize) -> (res: &'a [u8])
    ensures
        res@ == (if offset >= file@.len() {
            Seq::empty()
        } else if file@.len() - offset <= count {
            file@.skip(offset as int)
        } else {
            file@.subrange(offset as int, offset + count)
        }),
{
    if offset >= file.len() as u64 {
        return slice_subrange(file, 0, 0);
    }
    let start: usize = offset as usize;
    if file.len() - start <= count {
        slice_subrange(file, start, file.len())
    } else {
        slice_subrange(file, start, start + count)
    }
}

/// The number of states that a reader may still go through.
spec fn stages_left(state: StateView) -> nat {
    match state {
        StateView::ReadEocd { .. } => 3,
        StateView::ReadEocd64Locator { .. } => 2,
        StateView::ReadEocd64 { .. } => 1,
        _ => 0,
    }
}

/// The number of bytes that a reader wants before it is content.
spec fn missing_bytes(r: ReaderView) -> nat {
    if r.buffer.read_bytes < r.read_op().length {
        (r.read_op().length - r.buffer.read_bytes) as nat
    } else {
        0
    }
}

/// Whether all that a reader was given since it entered its state can come from a file.
spec fn within(file: Seq<u8>, r: ReaderView) -> bool {
    r.buffer.read_bytes == 0 || r.read_op().offset + r.buffer.read_bytes <= file.len()
}

/// Whether `next` has less to do than `r`.
spec fn is_closer(next: ReaderView, r: ReaderView) -> bool {
    ||| stages_left(next.state) < stages_left(r.state)
    ||| {
        &&& stages_left(next.state) == stages_left(r.state)
        &&& missing_bytes(next) < missing_bytes(r)
    }
    ||| {
        &&& stages_left(next.state) == stages_left(r.state)
        &&& missing_bytes(next) == missing_bytes(r)
        &&& next.buffer.contents.len() < r.buffer.contents.len()
    }
}

/// A reader that is given what it wants lacks less, and keeps within the file.
proof fn lemma_supplied(file: Seq<u8>, r: ReaderView, bytes: Seq<u8>)
    requires
        file.len() <= usize::MAX,
        r.wf(),
        within(file, r),
        supply(file, r) == Some(bytes),
    ensures
        bytes.len() <= r.buffer.space,
        bytes.len() == 0 || r.read_op().offset + r.buffer.read_bytes + bytes.len() <= file.len(),
        r.after_read(bytes).buffer.read_bytes == r.buffer.read_bytes + bytes.len(),
        within(file, r.after_read(bytes)),
        bytes.len() > 0 ==> missing_bytes(r.after_read(bytes)) < missing_bytes(r),
{
}

/// A step that ends nothing leaves less to do, unless it waits for more bytes.
proof fn lemma_step_progresses(file: Seq<u8>, r: ReaderView)
    requires
        r.wf(),
        r.is_active(),
        within(file, r),
        crate::reader::reader_step(r).1 matches Ok(ArchiveReaderResultView::Continue),
    ensures
        ({
            let next = crate::reader::reader_step(r).0;
            &&& next.is_active()
            &&& within(file, next)
            &&& next.size == r.size
            &&& is_closer(next, r) || (next == r && missing_bytes(r) > 0)
        }),
{
}

/// A turn that ends nothing leaves less to do.
proof fn lemma_turn_progresses(file: Seq<u8>, r: ReaderView)
    requires
        file.len() <= usize::MAX,
        r.wf(),
        r.is_active(),
        within(file, r),
        crate::reader::reader_turn(r, supply(file, r)).1 matches Ok(
            ArchiveReaderResultView::Continue,
        ),
    ensures
        ({
            let next = crate::reader::reader_turn(r, supply(file, r)).0;
            &&& next.is_active()
            &&& within(file, next)
            &&& next.size == r.size
            &&& is_closer(next, r)
        }),
{
    reveal(crate::reader::reader_turn);
    match supply(file, r) {
        Some(bytes) => {
            lemma_supplied(file, r, bytes);
            lemma_step_progresses(file, r.after_read(bytes));
        },
        None => {
            lemma_step_progresses(file, r);
        },
    }
}

/// A reader of a file with a record, or of one that is too short for it, never gets stuck.
proof fn lemma_can_turn(file: Seq<u8>, r: ReaderView)
    requires
        file.len() <= usize::MAX,
        r.wf(),
        r.is_active(),
        within(file, r),
        EndOfCentralDirectoryRecord::LENGTH <= r.size + 1 || file.len() < r.size,
    ensures
        crate::reader::can_turn(r, supply(file, r)),
{
    if let Some(bytes) = supply(file, r) {
        lemma_supplied(file, r, bytes);
    }
}

impl Archive {
    /// Reads the central directory of a zip file of `size` bytes.
    pub fn read(file: &[u8], size: u64) -> (res: Result<Archive, Error>)
        requires
            EndOfCentralDirectoryRecord::LENGTH <= size + 1 || file@.len() < size,
        ensures
            reads_to(file@, ReaderView::initial(size), archive_view(res)),
            size == file@.len() && crate::whole_file::is_readable(file@) ==> archive_view(res)
                == crate::whole_file::file_archive(file@),
    {
        let res = Self::read_turns(file, size);
        proof {
            if size == file@.len() && crate::whole_file::is_readable(file@) {
                crate::whole_file::whole_file_is_read(file@);
                crate::whole_file::reading_is_determined(
                    file@,
                    ReaderView::initial(size),
                    archive_view(res),
                    crate::whole_file::file_archive(file@),
                );
            }
        }
        res
    }

    /// Gives a reader what it wants, turn by turn.
    fn read_turns(file: &[u8], size: u64) -> (res: Result<Archive, Error>)
        requires
            EndOfCentralDirectoryRecord::LENGTH <= size + 1 || file@.len() < size,
        ensures
            reads_to(file@, ReaderView::initial(size), archive_view(res)),
    {
        let mut ar = ArchiveReader::new(size);
        let ghost mut done: nat = 0;
        loop
            invariant
                ar@.wf(),
                ar@.is_active(),
                ar@.size == size,
                within(file@, ar@),
                EndOfCentralDirectoryRecord::LENGTH <= size + 1 || file@.len() < size,
                forall|turns: nat| #[trigger]
                    outcome(file@, ar@, turns) == outcome(
                        file@,
                        ReaderView::initial(size),
                        turns + done,
                    ),
            decreases stages_left(ar@.state), missing_bytes(ar@), ar@.buffer.contents.len(),
        {
            let ghost before = ar@;
            proof {
                assert(file@.len() == file.len());
                lemma_can_turn(file@, before);
            }
            let supplied = match ar.wants_read() {
                None => None,
                Some(offset) => Some(read_at(file, offset, ar.available_space())),
            };
            let res = ar.turn(supplied);
            proof {
                assert(crate::reader::supplied_view(supplied) == supply(file@, before));
                assert(outcome(file@, before, 1) == outcome(
                    file@,
                    ReaderView::initial(size),
                    1 + done,
                ));
            }
            match res {
                Ok(ArchiveReaderResult::Done(archive)) => return Ok(archive),
                Ok(ArchiveReaderResult::Continue) => {},
                Err(e) => return Err(e),
            }
            proof {
                lemma_turn_progresses(file@, before);
                assert forall|turns: nat| #[trigger]
                    outcome(file@, ar@, turns) == outcome(
                        file@,
                        ReaderView::initial(size),
                        turns + (done + 1),
                    ) by {
                    assert(outcome(file@, before, turns + 1) == outcome(
                        file@,
                        ReaderView::initial(size),
                        (turns + 1) + done,
                    ));
                }
                done = done + 1;
            }
        }
    }

    /// Makes an archive out of the headers of its directory and its comment.
    pub fn from_directory(
        size: u64,
        comment: &ZipString,
        headers: &[DirectoryHeader],
        encoding: Encoding,
    ) -> (res: Result<Archive, Error>)
        ensures
            ({
                let views = crate::directory::header_views(headers@);
                match res {
                    Ok(archive) => described_archive(size, comment@, views, encoding) == Ok::<
                        _,
                        Error,
                    >(archive@),
                    Err(e) => described_archive(size, comment@, views, encoding) == Err::<
                        ArchiveView,
                        _,
                    >(e),
                }
            }),
    {
        let ghost views = crate::directory::header_views(headers@);
        let mut entries: Vec<StoredEntry> = Vec::new();
        let mut k: usize = 0;
        assert(entry_views(entries@) =~= Seq::empty());
        assert(views.take(0) =~= Seq::empty());
        while k < headers.len()
            invariant
                k <= headers.len(),
                views == crate::directory::header_views(headers@),
                stored_entries(views.take(k as int), encoding) == Ok::<_, Error>(
                    entry_views(entries@),
                ),
            decreases headers.len() - k,
        {
            assert(views.take(k + 1).drop_last() =~= views.take(k as int));
            match headers[k].as_stored_entry(encoding) {
                Ok(entry) => {
                    let ghost before = entries@;
                    entries.push(entry);
                    assert(entry_views(entries@) =~= entry_views(before).push(entry@));
                },
                Err(e) => {
                    proof {
                        lemma_first_error(views, encoding, k + 1);
                    }
                    return Err(e);
                },
            }
            k = k + 1;
        }
        assert(views.take(k as int) =~= views);
        match decode_comment(comment, encoding) {
            Ok(comment) => Ok(Archive { size, encoding, entries, comment }),
            Err(e) => Err(e),
        }
    }

    /// Return a list of all files in this zip, read from the
    /// central directory.
    pub fn entries(&self) -> (res: &[StoredEntry])
        ensures
            entry_views(res@) == self@.entries,
    {
        self.entries.as_slice()
    }

    /// Returns the detected character encoding for text fields
    /// (paths, comments) inside this ZIP file
    pub fn encoding(&self) -> (res: Encoding)
        ensures
            res == self@.encoding,
    {
        self.encoding
    }

    /// Returns the comment of the archive, if it has one.
    pub fn comment(&self) -> (res: Option<&String>)
        ensures
            match res {
                Some(text) => self@.comment == Some(text@),
                None => self@.comment is None,
            },
    {
        self.comment.as_ref()
    }

    /// Returns the first file with the given name.
    pub fn by_name(&self, name: &str) -> (res: Option<&StoredEntry>)
        ensures
            match res {
                Some(entry) => exists|k: int|
                    {
                        &&& 0 <= k < self@.entries.len()
                        &&& #[trigger] self@.entries[k] == entry@
                        &&& entry@.entry.name == name@
                        &&& forall|j: int|
                            0 <= j < k ==> (#[trigger] self@.entries[j]).entry.name != name@
                    },
                None => forall|j: int|
                    0 <= j < self@.entries.len() ==> (#[trigger] self@.entries[j]).entry.name
                        != name@,
            },
    {
        let wanted = name.to_owned();
        let mut k: usize = 0;
        while k < self.entries.len()
            invariant
                k <= self.entries.len(),
                wanted@ == name@,
                forall|j: int|
                    0 <= j < k ==> (#[trigger] self@.entries[j]).entry.name != name@,
            decreases self.entries.len() - k,
        {
            assert(self@.entries[k as int] == self.entries@[k as int]@);
            if *self.entries[k].name() == wanted {
                return Some(&self.entries[k]);
            }
            k = k + 1;
        }
        None
    }
}

/// An error that the first `count` headers give is the error of all of them.
proof fn lemma_first_error(headers: Seq<DirectoryHeaderView>, encoding: Encoding, count: int)
    requires
        0 <= count <= headers.len(),
        stored_entries(headers.take(count), encoding) is Err,
    ensures
        stored_entries(headers, encoding) == stored_entries(headers.take(count), encoding),
    decreases headers.len(),
{
    if count < headers.len() {
        assert(headers.drop_last().take(count) =~= headers.take(count));
        lemma_first_error(headers.drop_last(), encoding, count);
    } else {
        assert(headers.take(count) =~= headers);
    }
}

} // verus!
