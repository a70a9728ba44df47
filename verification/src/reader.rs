//! Reading the central directory of a zip file, one step at a time.
//!
//! The reader does no I/O. It says where it wants bytes from, is given some, and makes of them
//! what it can, until it is done or finds out that the file is not a zip file.
use vstd::prelude::*;
use vstd::slice::slice_subrange;

use crate::archive::{Archive, ArchiveView};
use crate::buffer::{Buffer, BufferView};
use crate::charset::detect_encoding;
use crate::directory::{DirectoryHeader, DirectoryHeaderView};
use crate::eocd::{
    EndOfCentralDirectory, EndOfCentralDirectory64Locator, EndOfCentralDirectory64Record,
    EndOfCentralDirectoryRecord, EndOfCentralDirectoryRecordView, EndOfCentralDirectoryView,
    Located,
};
use crate::error::{Error, FormatError, IoErrorKind};

verus! {

/// How far from the end of a file the end of central directory record is searched.
pub const HAYSTACK_SIZE: u64 = 65 * 1024;

/// The capacity of a reader's buffer.
pub const BUFFER_SIZE: usize = 128 * 1024;

/// Reads the central directory of a zip file.
pub struct ArchiveReader {
    // Size of the entire zip file
    size: u64,
    state: ArchiveReaderState,
    buffer: Buffer,
}

/// What a step of an `ArchiveReader` came to.
#[derive(Debug)]
pub enum ArchiveReaderResult {
    /// should continue
    Continue,
    /// done reading
    Done(Archive),
}

/// What a step came to, the archive taken by its view.
pub enum ArchiveReaderResultView {
    Continue,
    Done(ArchiveView),
}

impl View for ArchiveReaderResult {
    type V = ArchiveReaderResultView;

    open spec fn view(&self) -> ArchiveReaderResultView {
        match self {
            ArchiveReaderResult::Continue => ArchiveReaderResultView::Continue,
            ArchiveReaderResult::Done(archive) => ArchiveReaderResultView::Done(archive@),
        }
    }
}

enum ArchiveReaderState {
    /// Dummy state, used while transitioning because
    /// ownership rules are tough.
    Transitioning,
    ReadEocd { haystack_size: u64 },
    ReadEocd64Locator { eocdr: Located<EndOfCentralDirectoryRecord> },
    ReadEocd64 { eocdr64_offset: u64, eocdr: Located<EndOfCentralDirectoryRecord> },
    ReadCentralDirectory { eocd: EndOfCentralDirectory, directory_headers: Vec<DirectoryHeader> },
    Done,
}

/// What a reader is about to do.
#[verifier::ext_equal]
pub enum StateView {
    /// nothing: an error left the reader without a state
    Transitioning,
    /// find the end of central directory record in the last bytes of the file
    ReadEocd { haystack_size: u64 },
    /// look for a zip64 locator before the record that was found
    ReadEocd64Locator { eocdr: Located<EndOfCentralDirectoryRecordView> },
    /// read the zip64 record that a locator points to
    ReadEocd64 { eocdr64_offset: u64, eocdr: Located<EndOfCentralDirectoryRecordView> },
    /// read the next header of the directory
    ReadCentralDirectory {
        eocd: EndOfCentralDirectoryView,
        directory_headers: Seq<DirectoryHeaderView>,
    },
    /// nothing: the archive was handed out
    Done,
}

impl View for ArchiveReaderState {
    type V = StateView;

    closed spec fn view(&self) -> StateView {
        match self {
            ArchiveReaderState::Transitioning => StateView::Transitioning,
            ArchiveReaderState::ReadEocd { haystack_size } => StateView::ReadEocd {
                haystack_size: *haystack_size,
            },
            ArchiveReaderState::ReadEocd64Locator { eocdr } => StateView::ReadEocd64Locator {
                eocdr: eocdr@,
            },
            ArchiveReaderState::ReadEocd64 { eocdr64_offset, eocdr } => StateView::ReadEocd64 {
                eocdr64_offset: *eocdr64_offset,
                eocdr: eocdr@,
            },
            ArchiveReaderState::ReadCentralDirectory {
                eocd,
                directory_headers,
            } => StateView::ReadCentralDirectory {
                eocd: eocd@,
                directory_headers: crate::directory::header_views(directory_headers@),
            },
            ArchiveReaderState::Done => StateView::Done,
        }
    }
}

/// A range of the file that a reader wants.
pub struct ReadOp {
    pub offset: u64,
    pub length: u64,
}

/// A reader, as its users see it.
#[verifier::ext_equal]
pub struct ReaderView {
    /// the size of the entire zip file
    pub size: u64,
    pub state: StateView,
    pub buffer: BufferView,
}

impl View for ArchiveReader {
    type V = ReaderView;

    closed spec fn view(&self) -> ReaderView {
        ReaderView { size: self.size, state: self.state@, buffer: self.buffer@ }
    }
}

/// How much of a file of `size` bytes is searched for the end of central directory record.
pub open spec fn haystack_size(size: u64) -> u64 {
    if size < HAYSTACK_SIZE {
        size
    } else {
        HAYSTACK_SIZE
    }
}

impl ReaderView {
    /// What holds of every reader.
    pub open spec fn wf(self) -> bool {
        &&& self.buffer.wf()
        &&& self.buffer.capacity == BUFFER_SIZE
        &&& match self.state {
            StateView::ReadEocd { haystack_size } => {
                &&& haystack_size == crate::reader::haystack_size(self.size)
                &&& self.buffer.contents.len() == self.buffer.read_bytes
            },
            StateView::ReadEocd64Locator { eocdr } => eocdr.offset
                >= EndOfCentralDirectory64Locator::LENGTH,
            _ => true,
        }
    }

    /// Whether the reader has something left to do.
    pub open spec fn is_active(self) -> bool {
        self.state !is Transitioning && self.state !is Done
    }

    /// Whether the reader can make a step: it has something left to do, and the bytes that it is
    /// about to search, if it has them all, are as long as a record.
    pub open spec fn can_process(self) -> bool {
        &&& self.is_active()
        &&& self.state matches StateView::ReadEocd { haystack_size } ==> haystack_size
            <= self.buffer.read_bytes ==> EndOfCentralDirectoryRecord::LENGTH <= haystack_size + 1
    }

    /// A new reader for a file of `size` bytes.
    pub open spec fn initial(size: u64) -> ReaderView {
        ReaderView {
            size,
            state: StateView::ReadEocd { haystack_size: haystack_size(size) },
            buffer: BufferView::empty(BUFFER_SIZE as nat),
        }
    }

    /// The range of the file that the reader is interested in.
    pub open spec fn read_op(self) -> ReadOp {
        match self.state {
            StateView::ReadEocd { haystack_size } => ReadOp {
                offset: (self.size - haystack_size) as u64,
                length: haystack_size,
            },
            StateView::ReadEocd64Locator { eocdr } => ReadOp {
                offset: (eocdr.offset - EndOfCentralDirectory64Locator::LENGTH) as u64,
                length: EndOfCentralDirectory64Locator::LENGTH as u64,
            },
            StateView::ReadEocd64 { eocdr64_offset, .. } => ReadOp {
                offset: eocdr64_offset,
                length: EndOfCentralDirectory64Record::LENGTH as u64,
            },
            StateView::ReadCentralDirectory { eocd, .. } => ReadOp {
                offset: eocd.directory_offset(),
                length: eocd.directory_size(),
            },
            _ => ReadOp { offset: 0, length: 0 },
        }
    }

    /// Where the next byte that the reader wants is in the file, in 64-bit arithmetic, which wraps
    /// around, or `None` where it has what it needs.
    pub open spec fn wanted_offset(self) -> Option<u64> {
        if self.buffer.read_bytes < self.read_op().length {
            Some(
                ((self.read_op().offset + self.buffer.read_bytes)
                    % 0x1_0000_0000_0000_0000) as u64,
            )
        } else {
            None
        }
    }

    /// The reader after it was given `bytes`.
    pub open spec fn after_read(self, bytes: Seq<u8>) -> ReaderView {
        ReaderView { buffer: self.buffer.after_read(bytes), ..self }
    }

    /// The reader with another state and an empty buffer.
    pub open spec fn moved_to(self, state: StateView) -> ReaderView {
        ReaderView { state, buffer: self.buffer.after_reset(), ..self }
    }
}

/// A step that changes nothing and fails.
pub open spec fn refused(r: ReaderView, e: Error) -> (
    ReaderView,
    Result<ArchiveReaderResultView, Error>,
) {
    (r, Err(e))
}

/// A step to the central directory that the given records describe. Where they describe none, the
/// reader is left in `fallback`.
pub open spec fn directory_entered(
    r: ReaderView,
    eocdr: Located<EndOfCentralDirectoryRecordView>,
    eocdr64: Option<Located<EndOfCentralDirectory64Record>>,
    fallback: StateView,
) -> (ReaderView, Result<ArchiveReaderResultView, Error>) {
    match crate::eocd::end_of_central_directory(r.size, eocdr, eocdr64) {
        Ok(eocd) => (
            r.moved_to(
                StateView::ReadCentralDirectory { eocd, directory_headers: Seq::empty() },
            ),
            Ok(ArchiveReaderResultView::Continue),
        ),
        Err(e) => (r.moved_to(fallback), Err(e)),
    }
}

/// A step that searches the end of central directory record.
pub open spec fn eocd_step(r: ReaderView, haystack_size: u64) -> (
    ReaderView,
    Result<ArchiveReaderResultView, Error>,
) {
    if r.buffer.read_bytes < haystack_size {
        (r, Ok(ArchiveReaderResultView::Continue))
    } else {
        match crate::eocd::find_eocd(r.buffer.contents.take(haystack_size as int)) {
            None => refused(r, Error::Format(FormatError::DirectoryEndSignatureNotFound)),
            Some(found) => {
                let eocdr = Located {
                    offset: (found.offset + (r.size - haystack_size)) as u64,
                    inner: found.inner,
                };
                if eocdr.offset < EndOfCentralDirectory64Locator::LENGTH {
                    directory_entered(r, eocdr, None, r.state)
                } else {
                    (
                        r.moved_to(StateView::ReadEocd64Locator { eocdr }),
                        Ok(ArchiveReaderResultView::Continue),
                    )
                }
            },
        }
    }
}

/// A step that looks for a zip64 locator.
pub open spec fn locator_step(
    r: ReaderView,
    eocdr: Located<EndOfCentralDirectoryRecordView>,
) -> (ReaderView, Result<ArchiveReaderResultView, Error>) {
    match crate::eocd::eocd64_locator(r.buffer.contents) {
        Err(_) => directory_entered(r, eocdr, None, StateView::Transitioning),
        Ok((_, locator)) => (
            r.moved_to(
                StateView::ReadEocd64 { eocdr64_offset: locator.directory_offset, eocdr },
            ),
            Ok(ArchiveReaderResultView::Continue),
        ),
    }
}

/// A step that reads the zip64 record.
pub open spec fn eocd64_step(
    r: ReaderView,
    eocdr64_offset: u64,
    eocdr: Located<EndOfCentralDirectoryRecordView>,
) -> (ReaderView, Result<ArchiveReaderResultView, Error>) {
    match crate::eocd::eocd64_record(r.buffer.contents) {
        Err(_) => refused(r, Error::Format(FormatError::Directory64EndRecordInvalid)),
        Ok((_, eocdr64)) => directory_entered(
            r,
            eocdr,
            Some(Located { offset: eocdr64_offset, inner: eocdr64 }),
            StateView::Transitioning,
        ),
    }
}

/// The archive that a directory with the given headers and no others describes. Of the number of
/// headers only the low 16 bits are compared with the announced one.
pub open spec fn finished_archive(
    size: u64,
    eocd: EndOfCentralDirectoryView,
    headers: Seq<DirectoryHeaderView>,
) -> Result<ArchiveView, Error> {
    if headers.len() % 0x1_0000 == eocd.directory_records() % 0x1_0000 {
        crate::archive::described_archive(
            size,
            eocd.dir.inner.comment,
            headers,
            crate::charset::archive_encoding(headers),
        )
    } else {
        Err(Error::Format(FormatError::InvalidCentralRecord))
    }
}

/// A step that reads a header of the directory, or finds out that there are no more.
pub open spec fn directory_step(
    r: ReaderView,
    eocd: EndOfCentralDirectoryView,
    headers: Seq<DirectoryHeaderView>,
) -> (ReaderView, Result<ArchiveReaderResultView, Error>) {
    match crate::directory::directory_header(r.buffer.contents) {
        Ok((rest, header)) => (
            ReaderView {
                state: StateView::ReadCentralDirectory {
                    eocd,
                    directory_headers: headers.push(header),
                },
                buffer: r.buffer.after_consume((r.buffer.contents.len() - rest.len()) as nat),
                ..r
            },
            Ok(ArchiveReaderResultView::Continue),
        ),
        Err(_) => match finished_archive(r.size, eocd, headers) {
            Ok(archive) => (
                ReaderView { state: StateView::Done, ..r },
                Ok(ArchiveReaderResultView::Done(archive)),
            ),
            Err(e) => refused(r, e),
        },
    }
}

/// A step of a reader: what it becomes, and what is returned.
pub open spec fn reader_step(r: ReaderView) -> (
    ReaderView,
    Result<ArchiveReaderResultView, Error>,
) {
    match r.state {
        StateView::ReadEocd { haystack_size } => eocd_step(r, haystack_size),
        StateView::ReadEocd64Locator { eocdr } => locator_step(r, eocdr),
        StateView::ReadEocd64 { eocdr64_offset, eocdr } => eocd64_step(r, eocdr64_offset, eocdr),
        StateView::ReadCentralDirectory { eocd, directory_headers } => directory_step(
            r,
            eocd,
            directory_headers,
        ),
        _ => (r, Ok(ArchiveReaderResultView::Continue)),
    }
}

/// A turn of reading: the reader is given what was read at the offset that it wanted, if it wanted
/// something, and makes a step. Where it wanted something and got nothing, the file is too short.
#[verifier::opaque]
pub open spec fn reader_turn(r: ReaderView, supplied: Option<Seq<u8>>) -> (
    ReaderView,
    Result<ArchiveReaderResultView, Error>,
) {
    match supplied {
        None => reader_step(r),
        Some(bytes) => if crate::buffer::written_count(r.buffer.space, bytes) == 0 {
            (r.after_read(bytes), Err(Error::IO(IoErrorKind::UnexpectedEof)))
        } else {
            reader_step(r.after_read(bytes))
        },
    }
}

/// Whether a reader can make a turn with what was read for it.
pub open spec fn can_turn(r: ReaderView, supplied: Option<Seq<u8>>) -> bool {
    match supplied {
        None => r.can_process(),
        Some(bytes) => crate::buffer::written_count(r.buffer.space, bytes) == 0 || r.after_read(
            bytes,
        ).can_process(),
    }
}

/// What was read for a reader, taken by its view.
pub open spec fn supplied_view(supplied: Option<&[u8]>) -> Option<Seq<u8>> {
    match supplied {
        Some(bytes) => Some(bytes@),
        None => None,
    }
}

/// What a step returned, taken by its view.
pub open spec fn result_view(res: Result<ArchiveReaderResult, Error>) -> Result<
    ArchiveReaderResultView,
    Error,
> {
    match res {
        Ok(outcome) => Ok(outcome@),
        Err(e) => Err(e),
    }
}

impl ArchiveReader {
    /// A reader for a file of `size` bytes.
    pub fn new(size: u64) -> (res: Self)
        ensures
            res@ == ReaderView::initial(size),
            res@.wf(),
    {
        let haystack_size: u64 = if size < HAYSTACK_SIZE {
            size
        } else {
            HAYSTACK_SIZE
        };
        ArchiveReader {
            size,
            state: ArchiveReaderState::ReadEocd { haystack_size },
            buffer: Buffer::with_capacity(BUFFER_SIZE),
        }
    }

    /// Returns the offset at which the reader wants to read, or `None` where it has what it needs
    /// for the next step.
    pub fn wants_read(&self) -> (res: Option<u64>)
        requires
            self@.wf(),
            self@.is_active(),
        ensures
            res == self@.wanted_offset(),
    {
        self.read_op_state(self.read_op())
    }

    fn read_op(&self) -> (res: ReadOp)
        requires
            self@.wf(),
            self@.is_active(),
        ensures
            res == self@.read_op(),
    {
        match &self.state {
            ArchiveReaderState::ReadEocd { haystack_size } => ReadOp {
                offset: self.size - *haystack_size,
                length: *haystack_size,
            },
            ArchiveReaderState::ReadEocd64Locator { eocdr } => {
                let length: u64 = EndOfCentralDirectory64Locator::LENGTH as u64;
                ReadOp { offset: eocdr.offset - length, length }
            },
            ArchiveReaderState::ReadEocd64 { eocdr64_offset, .. } => {
                let length: u64 = EndOfCentralDirectory64Record::LENGTH as u64;
                ReadOp { offset: *eocdr64_offset, length }
            },
            ArchiveReaderState::ReadCentralDirectory { eocd, .. } => ReadOp {
                offset: eocd.directory_offset(),
                length: eocd.directory_size(),
            },
            ArchiveReaderState::Done | ArchiveReaderState::Transitioning => ReadOp {
                offset: 0,
                length: 0,
            },
        }
    }

    fn read_op_state(&self, op: ReadOp) -> (res: Option<u64>)
        ensures
            res == (if self@.buffer.read_bytes < op.length {
                Some(((op.offset + self@.buffer.read_bytes) % 0x1_0000_0000_0000_0000) as u64)
            } else {
                None
            }),
    {
        let read_bytes: u64 = self.buffer.read_bytes();
        if read_bytes < op.length {
            Some(op.offset.wrapping_add(read_bytes))
        } else {
            None
        }
    }

    /// Returns how many bytes the reader can be given at once.
    pub fn available_space(&self) -> (res: usize)
        ensures
            res == self@.buffer.space,
    {
        self.buffer.space()
    }

    /// Gives the reader bytes that were read at the offset that it wanted, and returns how many
    /// of them it took.
    pub fn read(&mut self, bytes: &[u8]) -> (res: usize)
        requires
            old(self)@.wf(),
        ensures
            final(self)@ == old(self)@.after_read(bytes@),
            final(self)@.wf(),
            res == crate::buffer::written_count(old(self)@.buffer.space, bytes@),
    {
        self.buffer.read(bytes)
    }

    /// Makes a turn: takes what was read at the offset that `wants_read()` gave, or `None` where it
    /// gave none, and makes a step.
    pub fn turn(&mut self, supplied: Option<&[u8]>) -> (res: Result<ArchiveReaderResult, Error>)
        requires
            old(self)@.wf(),
            can_turn(old(self)@, supplied_view(supplied)),
        ensures
            (final(self)@, result_view(res)) == reader_turn(
                old(self)@,
                supplied_view(supplied),
            ),
            final(self)@.wf(),
    {
        reveal(reader_turn);
        if let Some(bytes) = supplied {
            let read_bytes: usize = self.read(bytes);
            if read_bytes == 0 {
                return Err(Error::IO(IoErrorKind::UnexpectedEof));
            }
        }
        self.process()
    }

    /// Makes what can be made of the bytes that the reader has.
    pub fn process(&mut self) -> (res: Result<ArchiveReaderResult, Error>)
        requires
            old(self)@.wf(),
            old(self)@.can_process(),
        ensures
            (final(self)@, result_view(res)) == reader_step(old(self)@),
            final(self)@.wf(),
    {
        match &self.state {
            ArchiveReaderState::ReadEocd { haystack_size } => {
                let haystack_size: u64 = *haystack_size;
                self.process_eocd(haystack_size)
            },
            ArchiveReaderState::ReadEocd64Locator { .. } => self.process_locator(),
            ArchiveReaderState::ReadEocd64 { .. } => self.process_eocd64(),
            ArchiveReaderState::ReadCentralDirectory { .. } => self.process_directory(),
            ArchiveReaderState::Done | ArchiveReaderState::Transitioning => Ok(
                ArchiveReaderResult::Continue,
            ),
        }
    }

    /// Searches the end of central directory record.
    fn process_eocd(&mut self, haystack_size: u64) -> (res: Result<ArchiveReaderResult, Error>)
        requires
            old(self)@.wf(),
            old(self)@.can_process(),
            old(self)@.state == (StateView::ReadEocd { haystack_size }),
        ensures
            (final(self)@, result_view(res)) == eocd_step(old(self)@, haystack_size),
            final(self)@.wf(),
    {
        if self.buffer.read_bytes() < haystack_size {
            return Ok(ArchiveReaderResult::Continue);
        }
        let haystack = slice_subrange(self.buffer.data(), 0, haystack_size as usize);
        match EndOfCentralDirectoryRecord::find_in_block(haystack) {
            None => Err(Error::Format(FormatError::DirectoryEndSignatureNotFound)),
            Some(mut eocdr) => {
                proof {
                    crate::eocd::finds_the_last_record(haystack@);
                }
                self.buffer.reset();
                eocdr.offset = eocdr.offset + (self.size - haystack_size);
                if eocdr.offset < EndOfCentralDirectory64Locator::LENGTH as u64 {
                    // no room for an EOCD64 locator, definitely not a zip64 file
                    match EndOfCentralDirectory::new(self.size, eocdr, None) {
                        Ok(eocd) => {
                            self.state = ArchiveReaderState::ReadCentralDirectory {
                                eocd,
                                directory_headers: Vec::new(),
                            };
                            Ok(ArchiveReaderResult::Continue)
                        },
                        Err(e) => Err(e),
                    }
                } else {
                    self.state = ArchiveReaderState::ReadEocd64Locator { eocdr };
                    Ok(ArchiveReaderResult::Continue)
                }
            },
        }
    }

    /// Looks for a zip64 locator before the end of central directory record.
    fn process_locator(&mut self) -> (res: Result<ArchiveReaderResult, Error>)
        requires
            old(self)@.wf(),
            old(self)@.state is ReadEocd64Locator,
        ensures
            (final(self)@, result_view(res)) == reader_step(old(self)@),
            final(self)@.wf(),
    {
        let locator = EndOfCentralDirectory64Locator::parse(self.buffer.data());
        let mut state = ArchiveReaderState::Transitioning;
        match locator {
            Err(_) => {
                // we don't have a zip64 end of central directory locator - that's ok!
                self.buffer.reset();
                std::mem::swap(&mut self.state, &mut state);
                if let ArchiveReaderState::ReadEocd64Locator { eocdr } = state {
                    match EndOfCentralDirectory::new(self.size, eocdr, None) {
                        Ok(eocd) => {
                            self.state = ArchiveReaderState::ReadCentralDirectory {
                                eocd,
                                directory_headers: Vec::new(),
                            };
                        },
                        Err(e) => return Err(e),
                    }
                }
                Ok(ArchiveReaderResult::Continue)
            },
            Ok((_, locator)) => {
                self.buffer.reset();
                std::mem::swap(&mut self.state, &mut state);
                if let ArchiveReaderState::ReadEocd64Locator { eocdr } = state {
                    self.state = ArchiveReaderState::ReadEocd64 {
                        eocdr64_offset: locator.directory_offset,
                        eocdr,
                    };
                }
                Ok(ArchiveReaderResult::Continue)
            },
        }
    }

    /// Reads the zip64 end of central directory record.
    fn process_eocd64(&mut self) -> (res: Result<ArchiveReaderResult, Error>)
        requires
            old(self)@.wf(),
            old(self)@.state is ReadEocd64,
        ensures
            (final(self)@, result_view(res)) == reader_step(old(self)@),
            final(self)@.wf(),
    {
        match EndOfCentralDirectory64Record::parse(self.buffer.data()) {
            Err(_) => {
                // at this point, we really expected to have a zip64 end
                // of central directory record, so, we want to propagate
                // that error.
                Err(Error::Format(FormatError::Directory64EndRecordInvalid))
            },
            Ok((_, eocdr64)) => {
                self.buffer.reset();
                let mut state = ArchiveReaderState::Transitioning;
                std::mem::swap(&mut self.state, &mut state);
                if let ArchiveReaderState::ReadEocd64 { eocdr64_offset, eocdr } = state {
                    let located = Located { offset: eocdr64_offset, inner: eocdr64 };
                    match EndOfCentralDirectory::new(self.size, eocdr, Some(located)) {
                        Ok(eocd) => {
                            self.state = ArchiveReaderState::ReadCentralDirectory {
                                eocd,
                                directory_headers: Vec::new(),
                            };
                        },
                        Err(e) => return Err(e),
                    }
                }
                Ok(ArchiveReaderResult::Continue)
            },
        }
    }

    /// Reads a header of the directory, or finds out that there are no more.
    fn process_directory(&mut self) -> (res: Result<ArchiveReaderResult, Error>)
        requires
            old(self)@.wf(),
            old(self)@.state is ReadCentralDirectory,
        ensures
            (final(self)@, result_view(res)) == reader_step(old(self)@),
            final(self)@.wf(),
    {
        let data = self.buffer.data();
        match DirectoryHeader::parse(data) {
            Err(_) => {
                // this is the normal end condition when reading
                // the central directory (due to 65536-entries non-zip64 files)
                // let's just check a few numbers first.
                match self.finish() {
                    Ok(archive) => {
                        self.state = ArchiveReaderState::Done;
                        Ok(ArchiveReaderResult::Done(archive))
                    },
                    Err(e) => Err(e),
                }
            },
            Ok((remaining, dh)) => {
                let consumed: usize = data.len() - remaining.len();
                self.buffer.consume(consumed);
                if let ArchiveReaderState::ReadCentralDirectory { directory_headers, .. } =
                    &mut self.state {
                    directory_headers.push(dh);
                }
                Ok(ArchiveReaderResult::Continue)
            },
        }
    }

    /// Makes the archive out of the headers that were read.
    fn finish(&self) -> (res: Result<Archive, Error>)
        requires
            self@.state is ReadCentralDirectory,
        ensures
            match (self@.state, res) {
                (
                    StateView::ReadCentralDirectory { eocd, directory_headers },
                    Ok(archive),
                ) => finished_archive(self@.size, eocd, directory_headers) == Ok::<_, Error>(
                    archive@,
                ),
                (
                    StateView::ReadCentralDirectory { eocd, directory_headers },
                    Err(e),
                ) => finished_archive(self@.size, eocd, directory_headers) == Err::<
                    ArchiveView,
                    _,
                >(e),
                _ => false,
            },
    {
        if let ArchiveReaderState::ReadCentralDirectory { eocd, directory_headers } = &self.state {
            // only compare 16 bits here
            let read_records: u64 = directory_headers.len() as u64 % 0x1_0000;
            if read_records == eocd.directory_records() % 0x1_0000 {
                let headers = directory_headers.as_slice();
                let encoding = detect_encoding(headers);
                return Archive::from_directory(self.size, eocd.comment(), headers, encoding);
            }
        }
        // if we read the wrong number of directory entries,
        // error out.
        Err(Error::Format(FormatError::InvalidCentralRecord))
    }
}

} // verus!
