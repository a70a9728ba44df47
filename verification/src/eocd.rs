//! The records at the end of a zip file that say where its central directory is.
use vstd::prelude::*;
use vstd::slice::slice_subrange;

use crate::bytes::{read_u16, read_u32, read_u64, starts_with_signature, take_prefixed};
use crate::error::{Error, ErrorKind, FormatError, ParseError, ZipParseResult};
use crate::types::ZipString;

verus! {

/// End of central directory record
#[derive(Debug)]
pub struct EndOfCentralDirectoryRecord {
    /// number of this disk
    pub disk_nbr: u16,
    /// number of the disk with the start of the central directory
    pub dir_disk_nbr: u16,
    /// total number of entries in the central directory on this disk
    pub dir_records_this_disk: u16,
    /// total number of entries in the central directory
    pub directory_records: u16,
    /// size of the central directory
    pub directory_size: u32,
    /// offset of start of central directory with respect to the starting disk number
    pub directory_offset: u32,
    /// .ZIP file comment
    pub comment: ZipString,
}

#[verifier::ext_equal]
pub struct EndOfCentralDirectoryRecordView {
    pub disk_nbr: u16,
    pub dir_disk_nbr: u16,
    pub dir_records_this_disk: u16,
    pub directory_records: u16,
    pub directory_size: u32,
    pub directory_offset: u32,
    pub comment: Seq<u8>,
}

impl View for EndOfCentralDirectoryRecord {
    type V = EndOfCentralDirectoryRecordView;

    open spec fn view(&self) -> EndOfCentralDirectoryRecordView {
        EndOfCentralDirectoryRecordView {
            disk_nbr: self.disk_nbr,
            dir_disk_nbr: self.dir_disk_nbr,
            dir_records_this_disk: self.dir_records_this_disk,
            directory_records: self.directory_records,
            directory_size: self.directory_size,
            directory_offset: self.directory_offset,
            comment: self.comment@,
        }
    }
}

/// A value and the offset at which it was found.
#[derive(Debug)]
pub struct Located<T> {
    pub offset: u64,
    pub inner: T,
}

impl<T: View> View for Located<T> {
    type V = Located<T::V>;

    open spec fn view(&self) -> Located<T::V> {
        Located { offset: self.offset, inner: self.inner@ }
    }
}

/// What `EndOfCentralDirectoryRecord::parse` makes of the bytes `s`.
pub open spec fn eocd_record(s: Seq<u8>) -> Result<
    (Seq<u8>, EndOfCentralDirectoryRecordView),
    ParseError,
> {
    if !crate::bytes::has_signature(s, 0x05, 0x06) {
        Err(ParseError::Error(ErrorKind::Tag))
    } else if s.len() < 22 {
        Err(ParseError::Error(ErrorKind::Eof))
    } else {
        match crate::bytes::prefixed_block(s.skip(22), crate::bytes::le16(s, 20) as nat) {
            Err(e) => Err(e),
            Ok((rest, comment)) => Ok(
                (
                    rest,
                    EndOfCentralDirectoryRecordView {
                        disk_nbr: crate::bytes::le16(s, 4),
                        dir_disk_nbr: crate::bytes::le16(s, 6),
                        dir_records_this_disk: crate::bytes::le16(s, 8),
                        directory_records: crate::bytes::le16(s, 10),
                        directory_size: crate::bytes::le32(s, 12),
                        directory_offset: crate::bytes::le32(s, 16),
                        comment,
                    },
                ),
            ),
        }
    }
}

/// The last end of central directory record of the block `b` that starts before `bound`.
pub open spec fn last_eocd_before(b: Seq<u8>, bound: int) -> Option<
    Located<EndOfCentralDirectoryRecordView>,
>
    decreases bound,
{
    if bound <= 0 {
        None
    } else {
        match eocd_record(b.skip(bound - 1)) {
            Ok((_, inner)) => Some(Located { offset: (bound - 1) as u64, inner }),
            Err(_) => last_eocd_before(b, bound - 1),
        }
    }
}

/// The last end of central directory record of the block `b`.
pub open spec fn find_eocd(b: Seq<u8>) -> Option<Located<EndOfCentralDirectoryRecordView>> {
    last_eocd_before(b, b.len() - EndOfCentralDirectoryRecord::LENGTH + 1)
}

/// A search below `bound` gives the last record that starts there, and `None` only if none does.
proof fn lemma_last_before(b: Seq<u8>, bound: int)
    requires
        bound <= b.len() <= u64::MAX,
    ensures
        match last_eocd_before(b, bound) {
            Some(found) => {
                &&& found.offset < bound
                &&& eocd_record(b.skip(found.offset as int)) matches Ok((_, inner))
                &&& inner == found.inner
                &&& forall|j: int|
                    found.offset < j < bound ==> eocd_record(#[trigger] b.skip(j)) is Err
            },
            None => forall|j: int| 0 <= j < bound ==> eocd_record(#[trigger] b.skip(j)) is Err,
        },
    decreases bound,
{
    if bound > 0 && eocd_record(b.skip(bound - 1)) is Err {
        lemma_last_before(b, bound - 1);
    }
}

/// The record that is found in a block is the last one that it holds, and one is found wherever
/// the block holds any.
pub proof fn finds_the_last_record(b: Seq<u8>)
    requires
        b.len() <= u64::MAX,
    ensures
        match find_eocd(b) {
            Some(found) => {
                &&& found.offset + 22 <= b.len()
                &&& eocd_record(b.skip(found.offset as int)) matches Ok((_, inner))
                &&& inner == found.inner
                &&& forall|j: int|
                    found.offset < j <= b.len() ==> eocd_record(#[trigger] b.skip(j)) is Err
            },
            None => forall|j: int| 0 <= j <= b.len() ==> eocd_record(#[trigger] b.skip(j)) is Err,
        },
{
    lemma_last_before(b, b.len() - EndOfCentralDirectoryRecord::LENGTH + 1);
}

/// The view of an optional located value.
pub open spec fn located_view<T: View>(located: Option<Located<T>>) -> Option<Located<T::V>> {
    match located {
        Some(l) => Some(l@),
        None => None,
    }
}

impl EndOfCentralDirectoryRecord {
    /// does not include comment size & comment data
    pub const LENGTH: usize = 20;

    /// Finds the last record in a block.
    pub fn find_in_block(b: &[u8]) -> (res: Option<Located<Self>>)
        requires
            b@.len() + 1 >= Self::LENGTH,
        ensures
            located_view(res) == find_eocd(b@),
    {
        let mut bound: usize = b.len() - (Self::LENGTH - 1);
        while bound > 0
            invariant
                bound + Self::LENGTH <= b.len() + 1,
                find_eocd(b@) == last_eocd_before(b@, bound as int),
            decreases bound,
        {
            let i: usize = bound - 1;
            let slice = slice_subrange(b, i, b.len());
            assert(slice@ =~= b@.skip(i as int));
            if let Ok((_, directory)) = Self::parse(slice) {
                return Some(Located { offset: i as u64, inner: directory });
            }
            bound = i;
        }
        None
    }

    pub fn parse<'a>(i: &'a [u8]) -> (res: ZipParseResult<'a, Self>)
        ensures
            crate::error::parse_view(res) == eocd_record(i@),
    {
        if !starts_with_signature(i, 0x05, 0x06) {
            return Err(ParseError::Error(ErrorKind::Tag));
        }
        if i.len() < 22 {
            return Err(ParseError::Error(ErrorKind::Eof));
        }
        match take_prefixed(slice_subrange(i, 22, i.len()), read_u16(i, 20) as usize) {
            Err(e) => Err(e),
            Ok((rest, comment)) => {
                let record = EndOfCentralDirectoryRecord {
                    disk_nbr: read_u16(i, 4),
                    dir_disk_nbr: read_u16(i, 6),
                    dir_records_this_disk: read_u16(i, 8),
                    directory_records: read_u16(i, 10),
                    directory_size: read_u32(i, 12),
                    directory_offset: read_u32(i, 16),
                    comment: ZipString::from_slice(comment),
                };
                Ok((rest, record))
            },
        }
    }
}

/// Zip64 end of central directory locator
#[derive(Debug, Clone, Copy, PartialEq, Eq, Structural)]
pub struct EndOfCentralDirectory64Locator {
    /// number of the disk with the start of the zip64 end of central directory
    pub dir_disk_number: u32,
    /// relative offset of the zip64 end of central directory record
    pub directory_offset: u64,
    /// total number of disks
    pub total_disks: u32,
}

impl View for EndOfCentralDirectory64Locator {
    type V = EndOfCentralDirectory64Locator;

    open spec fn view(&self) -> EndOfCentralDirectory64Locator {
        *self
    }
}

/// What `EndOfCentralDirectory64Locator::parse` makes of the bytes `s`.
pub open spec fn eocd64_locator(s: Seq<u8>) -> Result<
    (Seq<u8>, EndOfCentralDirectory64Locator),
    ParseError,
> {
    if !crate::bytes::has_signature(s, 0x06, 0x07) {
        Err(ParseError::Error(ErrorKind::Tag))
    } else if s.len() < 20 {
        Err(ParseError::Error(ErrorKind::Eof))
    } else {
        Ok(
            (
                s.skip(20),
                EndOfCentralDirectory64Locator {
                    dir_disk_number: crate::bytes::le32(s, 4),
                    directory_offset: crate::bytes::le64(s, 8),
                    total_disks: crate::bytes::le32(s, 16),
                },
            ),
        )
    }
}

impl EndOfCentralDirectory64Locator {
    pub const LENGTH: usize = 20;

    pub fn parse<'a>(i: &'a [u8]) -> (res: ZipParseResult<'a, Self>)
        ensures
            crate::error::parse_view(res) == eocd64_locator(i@),
    {
        if !starts_with_signature(i, 0x06, 0x07) {
            return Err(ParseError::Error(ErrorKind::Tag));
        }
        if i.len() < 20 {
            return Err(ParseError::Error(ErrorKind::Eof));
        }
        let locator = EndOfCentralDirectory64Locator {
            dir_disk_number: read_u32(i, 4),
            directory_offset: read_u64(i, 8),
            total_disks: read_u32(i, 16),
        };
        Ok((slice_subrange(i, 20, i.len()), locator))
    }
}

/// Zip64 end of central directory record
#[derive(Debug, Clone, Copy, PartialEq, Eq, Structural)]
pub struct EndOfCentralDirectory64Record {
    /// size of zip64 end of central directory record
    pub record_size: u64,
    /// version made by
    pub creator_version: u16,
    /// version needed to extract
    pub reader_version: u16,
    /// number of this disk
    pub disk_nbr: u32,
    /// number of the disk with the start of the central directory
    pub dir_disk_nbr: u32,
    /// total number of entries in the central directory on this disk
    pub dir_records_this_disk: u64,
    /// total number of entries in the central directory
    pub directory_records: u64,
    /// size of the central directory
    pub directory_size: u64,
    /// offset of the start of central directory with respect to the
    /// starting disk number
    pub directory_offset: u64,
}

impl View for EndOfCentralDirectory64Record {
    type V = EndOfCentralDirectory64Record;

    open spec fn view(&self) -> EndOfCentralDirectory64Record {
        *self
    }
}

/// What `EndOfCentralDirectory64Record::parse` makes of the bytes `s`.
pub open spec fn eocd64_record(s: Seq<u8>) -> Result<
    (Seq<u8>, EndOfCentralDirectory64Record),
    ParseError,
> {
    if !crate::bytes::has_signature(s, 0x06, 0x06) {
        Err(ParseError::Error(ErrorKind::Tag))
    } else if s.len() < 56 {
        Err(ParseError::Error(ErrorKind::Eof))
    } else {
        Ok(
            (
                s.skip(56),
                EndOfCentralDirectory64Record {
                    record_size: crate::bytes::le64(s, 4),
                    creator_version: crate::bytes::le16(s, 12),
                    reader_version: crate::bytes::le16(s, 14),
                    disk_nbr: crate::bytes::le32(s, 16),
                    dir_disk_nbr: crate::bytes::le32(s, 20),
                    dir_records_this_disk: crate::bytes::le64(s, 24),
                    directory_records: crate::bytes::le64(s, 32),
                    directory_size: crate::bytes::le64(s, 40),
                    directory_offset: crate::bytes::le64(s, 48),
                },
            ),
        )
    }
}

impl EndOfCentralDirectory64Record {
    pub const LENGTH: usize = 56;

    pub fn parse<'a>(i: &'a [u8]) -> (res: ZipParseResult<'a, Self>)
        ensures
            crate::error::parse_view(res) == eocd64_record(i@),
    {
        if !starts_with_signature(i, 0x06, 0x06) {
            return Err(ParseError::Error(ErrorKind::Tag));
        }
        if i.len() < 56 {
            return Err(ParseError::Error(ErrorKind::Eof));
        }
        let record = EndOfCentralDirectory64Record {
            record_size: read_u64(i, 4),
            creator_version: read_u16(i, 12),
            reader_version: read_u16(i, 14),
            disk_nbr: read_u32(i, 16),
            dir_disk_nbr: read_u32(i, 20),
            dir_records_this_disk: read_u64(i, 24),
            directory_records: read_u64(i, 32),
            directory_size: read_u64(i, 40),
            directory_offset: read_u64(i, 48),
        };
        Ok((slice_subrange(i, 56, i.len()), record))
    }
}

/// Coalesces zip and zip64 "end of central directory" record info
#[derive(Debug)]
pub struct EndOfCentralDirectory {
    pub dir: Located<EndOfCentralDirectoryRecord>,
    pub dir64: Option<Located<EndOfCentralDirectory64Record>>,
    pub global_offset: i64,
}

#[verifier::ext_equal]
pub struct EndOfCentralDirectoryView {
    pub dir: Located<EndOfCentralDirectoryRecordView>,
    pub dir64: Option<Located<EndOfCentralDirectory64Record>>,
    pub global_offset: i64,
}

impl View for EndOfCentralDirectory {
    type V = EndOfCentralDirectoryView;

    open spec fn view(&self) -> EndOfCentralDirectoryView {
        EndOfCentralDirectoryView {
            dir: self.dir@,
            dir64: self.dir64,
            global_offset: self.global_offset,
        }
    }
}

impl EndOfCentralDirectoryView {
    /// Where the record was found that describes the directory: the zip64 one if there is one.
    pub open spec fn located_directory_offset(self) -> u64 {
        match self.dir64 {
            Some(d64) => d64.offset,
            None => self.dir.offset,
        }
    }

    /// Where the directory starts.
    pub open spec fn directory_offset(self) -> u64 {
        match self.dir64 {
            Some(d64) => d64.inner.directory_offset,
            None => self.dir.inner.directory_offset as u64,
        }
    }

    /// The size of the directory.
    pub open spec fn directory_size(self) -> u64 {
        match self.dir64 {
            Some(d64) => d64.inner.directory_size,
            None => self.dir.inner.directory_size as u64,
        }
    }

    /// The number of headers in the directory.
    pub open spec fn directory_records(self) -> u64 {
        match self.dir64 {
            Some(d64) => d64.inner.directory_records,
            None => self.dir.inner.directory_records as u64,
        }
    }

    /// The same information with another start of the directory. Without a zip64 record, only
    /// the low 32 bits of the start are kept.
    pub open spec fn with_directory_offset(self, offset: u64) -> EndOfCentralDirectoryView {
        match self.dir64 {
            Some(d64) => EndOfCentralDirectoryView {
                dir64: Some(
                    Located {
                        inner: EndOfCentralDirectory64Record {
                            directory_offset: offset,
                            ..d64.inner
                        },
                        ..d64
                    },
                ),
                ..self
            },
            None => EndOfCentralDirectoryView {
                dir: Located {
                    inner: EndOfCentralDirectoryRecordView {
                        directory_offset: (offset as int % 0x1_0000_0000) as u32,
                        ..self.dir.inner
                    },
                    ..self.dir
                },
                ..self
            },
        }
    }

    /// Where the directory starts if it ends where the record that describes it begins, in
    /// 64-bit arithmetic, which wraps around.
    pub open spec fn computed_directory_offset(self) -> u64 {
        ((self.located_directory_offset() - self.directory_size()) % 0x1_0000_0000_0000_0000) as u64
    }

    /// Whether the directory is in a file of `size` bytes where the position of the record that
    /// describes it says, and not where that record itself says.
    pub open spec fn is_displaced(self, size: u64) -> bool {
        &&& self.computed_directory_offset() < size
        &&& self.computed_directory_offset() != self.directory_offset()
    }

    /// The information after the whole file was found to be displaced: the start of the
    /// directory corrected, and the displacement noted.
    pub open spec fn corrected(self) -> EndOfCentralDirectoryView {
        EndOfCentralDirectoryView {
            global_offset: wrapped_difference(
                self.computed_directory_offset(),
                self.directory_offset(),
            ),
            ..self.with_directory_offset(self.computed_directory_offset())
        }
    }
}

/// The difference of two 64-bit numbers, in 64-bit arithmetic, which wraps around.
pub open spec fn wrapped_difference(a: u64, b: u64) -> i64 {
    ((a - b + 0x8000_0000_0000_0000) % 0x1_0000_0000_0000_0000 - 0x8000_0000_0000_0000) as i64
}

/// What `EndOfCentralDirectory::new` makes of the records that were found in a file of `size`
/// bytes.
pub open spec fn end_of_central_directory(
    size: u64,
    dir: Located<EndOfCentralDirectoryRecordView>,
    dir64: Option<Located<EndOfCentralDirectory64Record>>,
) -> Result<EndOfCentralDirectoryView, Error> {
    let found = EndOfCentralDirectoryView { dir, dir64, global_offset: 0 };
    let eocd = if found.is_displaced(size) {
        found.corrected()
    } else {
        found
    };
    if eocd.directory_offset() < size {
        Ok(eocd)
    } else {
        Err(Error::Format(FormatError::DirectoryOffsetPointsOutsideFile))
    }
}

/// The difference of two 64-bit numbers, which wraps around.
fn signed_difference(a: u64, b: u64) -> (res: i64)
    ensures
        res == wrapped_difference(a, b),
{
    let d: u64 = a.wrapping_sub(b);
    if d < 0x8000_0000_0000_0000 {
        d as i64
    } else {
        -1 - (u64::MAX - d) as i64
    }
}

impl EndOfCentralDirectory {
    pub fn new(
        size: u64,
        dir: Located<EndOfCentralDirectoryRecord>,
        dir64: Option<Located<EndOfCentralDirectory64Record>>,
    ) -> (res: Result<Self, Error>)
        ensures
            match res {
                Ok(eocd) => end_of_central_directory(size, dir@, dir64) == Ok::<_, Error>(eocd@),
                Err(e) => end_of_central_directory(size, dir@, dir64) == Err::<
                    EndOfCentralDirectoryView,
                    _,
                >(e),
            },
    {
        let mut res = EndOfCentralDirectory { dir, dir64, global_offset: 0 };

        //
        // Pure .zip files look like this:
        // ~~~~~~~~~~~~~~~~~~~~~~~~~~~~~~~~~~~~~~~~~~~~~~~~~~~~~~~~~~~~~~~~~~~~~~~~~~~~~~~~~~~~
        //                     <------directory_size----->
        // [ Data 1 ][ Data 2 ][    Central directory    ][ ??? ]
        // ^                   ^                          ^
        // 0                   directory_offset           directory_end_offset
        // ~~~~~~~~~~~~~~~~~~~~~~~~~~~~~~~~~~~~~~~~~~~~~~~~~~~~~~~~~~~~~~~~~~~~~~~~~~~~~~~~~~~~
        //
        // But there exist some valid zip archives with padding at the beginning, like so:
        // ~~~~~~~~~~~~~~~~~~~~~~~~~~~~~~~~~~~~~~~~~~~~~~~~~~~~~~~~~~~~~~~~~~~~~~~~~~~~~~~~~~~~
        // <--global_offset->                    <------directory_size----->
        // [    Padding     ][ Data 1 ][ Data 2 ][    Central directory    ][ ??? ]
        // ^                 ^                   ^                         ^
        // 0                 global_offset       computed_directory_offset directory_end_offset
        // ~~~~~~~~~~~~~~~~~~~~~~~~~~~~~~~~~~~~~~~~~~~~~~~~~~~~~~~~~~~~~~~~~~~~~~~~~~~~~~~~~~~~
        //
        // (e.g. installers that are executables with a .zip file appended)
        //
        // `directory_end_offset` is found by scanning the file (so it accounts for padding), but
        // `directory_offset` is found by reading a data structure (so it does not account for
        // padding). Trusting `directory_offset` would mean to read the central directory at the
        // wrong place.

        let computed: u64 = res.located_directory_offset().wrapping_sub(res.directory_size());

        // did we find a valid offset?
        if computed < size {
            // that's different from the recorded one?
            if computed != res.directory_offset() {
                // then assume the whole file is offset
                res.global_offset = signed_difference(computed, res.directory_offset());
                res.set_directory_offset(computed);
            }
        }
        // make sure directory_offset points to somewhere in our file

        if res.directory_offset() >= size {
            return Err(Error::Format(FormatError::DirectoryOffsetPointsOutsideFile));
        }
        Ok(res)
    }

    /// Where the record was found that describes the directory.
    pub fn located_directory_offset(&self) -> (res: u64)
        ensures
            res == self@.located_directory_offset(),
    {
        match &self.dir64 {
            Some(d64) => d64.offset,
            None => self.dir.offset,
        }
    }

    /// Where the directory starts.
    pub fn directory_offset(&self) -> (res: u64)
        ensures
            res == self@.directory_offset(),
    {
        match &self.dir64 {
            Some(d64) => d64.inner.directory_offset,
            None => self.dir.inner.directory_offset as u64,
        }
    }

    /// The size of the directory.
    pub fn directory_size(&self) -> (res: u64)
        ensures
            res == self@.directory_size(),
    {
        match &self.dir64 {
            Some(d64) => d64.inner.directory_size,
            None => self.dir.inner.directory_size as u64,
        }
    }

    /// Sets where the directory starts.
    pub fn set_directory_offset(&mut self, offset: u64)
        ensures
            final(self)@ == old(self)@.with_directory_offset(offset),
    {
        match &mut self.dir64 {
            Some(d64) => {
                d64.inner.directory_offset = offset;
            },
            None => {
                self.dir.inner.directory_offset = (offset % 0x1_0000_0000) as u32;
            },
        }
    }

    /// The number of headers in the directory.
    pub fn directory_records(&self) -> (res: u64)
        ensures
            res == self@.directory_records(),
    {
        match &self.dir64 {
            Some(d64) => d64.inner.directory_records,
            None => self.dir.inner.directory_records as u64,
        }
    }

    /// The comment of the archive.
    pub fn comment(&self) -> (res: &ZipString)
        ensures
            res@ == self@.dir.inner.comment,
    {
        &self.dir.inner.comment
    }
}

} // verus!
