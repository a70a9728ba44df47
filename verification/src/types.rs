//! The parts of an archive as its users see them.
use vstd::prelude::*;
use vstd::slice::slice_to_vec;

use crate::dates::Timestamp;
use crate::extra::{ExtraField, ExtraFieldView};

verus! {

/// A raw zip string, with no specific encoding.
#[derive(Debug)]
pub struct ZipString(pub Vec<u8>);

impl View for ZipString {
    type V = Seq<u8>;

    open spec fn view(&self) -> Seq<u8> {
        self.0@
    }
}

impl ZipString {
    pub fn from_slice(slice: &[u8]) -> (res: ZipString)
        ensures
            res@ == slice@,
    {
        ZipString(slice_to_vec(slice))
    }

    /// `None` where the string is empty, and the string itself otherwise.
    pub fn as_option(self) -> (res: Option<ZipString>)
        ensures
            res == (if self@.len() == 0 {
                None
            } else {
                Some(self)
            }),
    {
        if self.0.len() == 0 {
            None
        } else {
            Some(self)
        }
    }
}

/// Raw bytes of a zip file.
#[derive(Debug)]
pub struct ZipBytes(pub Vec<u8>);

impl View for ZipBytes {
    type V = Seq<u8>;

    open spec fn view(&self) -> Seq<u8> {
        self.0@
    }
}

impl ZipBytes {
    pub fn from_slice(slice: &[u8]) -> (res: ZipBytes)
        ensures
            res@ == slice@,
    {
        ZipBytes(slice_to_vec(slice))
    }
}

/// The compression method of an entry.
#[derive(Debug, Clone, Copy, PartialEq, Eq, Structural)]
pub enum Method {
    /// No compression is applied
    Store,
    /// DEFLATE (RFC 1951)
    Deflate,
    /// Any other method, by its number
    Unsupported(u16),
}

/// The method with the given number.
pub open spec fn method_of(number: u16) -> Method {
    match number {
        0 => Method::Store,
        8 => Method::Deflate,
        _ => Method::Unsupported(number),
    }
}

impl vstd::std_specs::convert::FromSpecImpl<u16> for Method {
    open spec fn obeys_from_spec() -> bool {
        true
    }

    open spec fn from_spec(number: u16) -> Method {
        method_of(number)
    }
}

impl From<u16> for Method {
    fn from(number: u16) -> (res: Method) {
        match number {
            0 => Method::Store,
            8 => Method::Deflate,
            _ => Method::Unsupported(number),
        }
    }
}

/// The text of an optional string.
pub open spec fn text_view(text: Option<String>) -> Option<Seq<char>> {
    match text {
        Some(t) => Some(t@),
        None => None,
    }
}

/// What describes a file, whether it comes from an archive or not.
#[derive(Debug)]
pub struct Entry {
    /// Name of the file, with its path
    pub name: String,
    /// Compression method
    pub method: Method,
    /// Comment, if it is not empty
    pub comment: Option<String>,
    /// Last time of modification
    pub modified: Timestamp,
    /// Time of creation
    pub created: Option<Timestamp>,
    /// Last time of access
    pub accessed: Option<Timestamp>,
}

#[verifier::ext_equal]
pub struct EntryView {
    pub name: Seq<char>,
    pub method: Method,
    pub comment: Option<Seq<char>>,
    pub modified: Timestamp,
    pub created: Option<Timestamp>,
    pub accessed: Option<Timestamp>,
}

impl View for Entry {
    type V = EntryView;

    open spec fn view(&self) -> EntryView {
        EntryView {
            name: self.name@,
            method: self.method,
            comment: text_view(self.comment),
            modified: self.modified,
            created: self.created,
            accessed: self.accessed,
        }
    }
}

/// A file of an archive, as the central directory describes it.
#[derive(Debug)]
pub struct StoredEntry {
    pub entry: Entry,
    /// version made by
    pub creator_version: u16,
    /// version needed to extract
    pub reader_version: u16,
    /// general purpose bit flag
    pub flags: u16,
    /// checksum of the uncompressed data
    pub crc32: u32,
    pub compressed_size: u64,
    pub uncompressed_size: u64,
    /// offset of the local file header
    pub header_offset: u64,
    /// Unix user id
    pub uid: Option<u32>,
    /// Unix group id
    pub gid: Option<u32>,
    /// extra fields, in the order in which they are stored
    pub extra_fields: Vec<ExtraField>,
    pub external_attrs: u32,
}

#[verifier::ext_equal]
pub struct StoredEntryView {
    pub entry: EntryView,
    pub creator_version: u16,
    pub reader_version: u16,
    pub flags: u16,
    pub crc32: u32,
    pub compressed_size: u64,
    pub uncompressed_size: u64,
    pub header_offset: u64,
    pub uid: Option<u32>,
    pub gid: Option<u32>,
    pub extra_fields: Seq<ExtraFieldView>,
    pub external_attrs: u32,
}

impl View for StoredEntry {
    type V = StoredEntryView;

    open spec fn view(&self) -> StoredEntryView {
        StoredEntryView {
            entry: self.entry@,
            creator_version: self.creator_version,
            reader_version: self.reader_version,
            flags: self.flags,
            crc32: self.crc32,
            compressed_size: self.compressed_size,
            uncompressed_size: self.uncompressed_size,
            header_offset: self.header_offset,
            uid: self.uid,
            gid: self.gid,
            extra_fields: crate::extra::extra_views(self.extra_fields@),
            external_attrs: self.external_attrs,
        }
    }
}

impl StoredEntry {
    /// The name of the file.
    pub fn name(&self) -> (res: &String)
        ensures
            res@ == self@.entry.name,
    {
        &self.entry.name
    }
}

} // verus!
