//! The central directory: one header for each file of the archive.
use vstd::prelude::*;
use vstd::slice::slice_subrange;
use vstd::utf8::*;

use crate::bytes::{read_u16, read_u32, starts_with_signature};
use crate::dates::{unix_seconds, zero_datetime, MsdosTimestamp, Timestamp};
use crate::encoding::{detect_utf8, Encoding};
use crate::error::{Error, ErrorKind, FormatError, ParseError, ZipParseResult};
use crate::extra::{ExtraField, ExtraFieldSettings, ExtraFieldView, ExtraNtfsField, NtfsAttr};
use crate::types::{
    Entry, EntryView, Method, StoredEntry, StoredEntryView, ZipBytes, ZipString,
};

verus! {

/// The first `count` bytes of `s` and what follows them.
pub open spec fn taken(s: Seq<u8>, count: nat) -> Result<(Seq<u8>, Seq<u8>), ParseError> {
    if s.len() < count {
        Err(ParseError::Error(ErrorKind::Eof))
    } else {
        Ok((s.skip(count as int), s.take(count as int)))
    }
}

/// A parser that takes `count` bytes as a string.
pub fn zip_string<'a>(count: usize) -> (f: impl Fn(&'a [u8]) -> ZipParseResult<'a, ZipString>)
    ensures
        forall|i: &'a [u8]| #[trigger] f.requires((i,)),
        forall|i: &'a [u8], res: ZipParseResult<'a, ZipString>| #[trigger]
            f.ensures((i,), res) ==> crate::error::parse_view(res) == taken(i@, count as nat),
{
    move |i: &'a [u8]| -> (res: ZipParseResult<'a, ZipString>)
        ensures
            crate::error::parse_view(res) == taken(i@, count as nat),
        {
            if i.len() < count {
                Err(ParseError::Error(ErrorKind::Eof))
            } else {
                Ok(
                    (
                        slice_subrange(i, count, i.len()),
                        ZipString::from_slice(slice_subrange(i, 0, count)),
                    ),
                )
            }
        }
}

/// A parser that takes `count` raw bytes.
pub fn zip_bytes<'a>(count: usize) -> (f: impl Fn(&'a [u8]) -> ZipParseResult<'a, ZipBytes>)
    ensures
        forall|i: &'a [u8]| #[trigger] f.requires((i,)),
        forall|i: &'a [u8], res: ZipParseResult<'a, ZipBytes>| #[trigger]
            f.ensures((i,), res) ==> crate::error::parse_view(res) == taken(i@, count as nat),
{
    move |i: &'a [u8]| -> (res: ZipParseResult<'a, ZipBytes>)
        ensures
            crate::error::parse_view(res) == taken(i@, count as nat),
        {
            if i.len() < count {
                Err(ParseError::Error(ErrorKind::Eof))
            } else {
                Ok(
                    (
                        slice_subrange(i, count, i.len()),
                        ZipBytes::from_slice(slice_subrange(i, 0, count)),
                    ),
                )
            }
        }
}

/// Central directory structure: file header
#[derive(Debug)]
pub struct DirectoryHeader {
    /// version made by
    pub creator_version: u16,
    /// version needed to extract
    pub reader_version: u16,
    /// general purpose bit flag
    pub flags: u16,
    /// compression method
    pub method: u16,
    /// last mod file datetime
    pub modified: MsdosTimestamp,
    /// crc32
    pub crc32: u32,
    /// compressed size
    pub compressed_size: u32,
    /// uncompressed size
    pub uncompressed_size: u32,
    /// disk number start
    pub disk_nbr_start: u16,
    /// internal file attributes
    pub internal_attrs: u16,
    /// external file attributes
    pub external_attrs: u32,
    /// relative offset of local header
    pub header_offset: u32,
    /// name
    pub name: ZipString,
    /// extra
    pub extra: ZipBytes,
    /// comment
    pub comment: ZipString,
}

#[verifier::ext_equal]
pub struct DirectoryHeaderView {
    pub creator_version: u16,
    pub reader_version: u16,
    pub flags: u16,
    pub method: u16,
    pub modified: MsdosTimestamp,
    pub crc32: u32,
    pub compressed_size: u32,
    pub uncompressed_size: u32,
    pub disk_nbr_start: u16,
    pub internal_attrs: u16,
    pub external_attrs: u32,
    pub header_offset: u32,
    pub name: Seq<u8>,
    pub extra: Seq<u8>,
    pub comment: Seq<u8>,
}

impl View for DirectoryHeader {
    type V = DirectoryHeaderView;

    open spec fn view(&self) -> DirectoryHeaderView {
        DirectoryHeaderView {
            creator_version: self.creator_version,
            reader_version: self.reader_version,
            flags: self.flags,
            method: self.method,
            modified: self.modified,
            crc32: self.crc32,
            compressed_size: self.compressed_size,
            uncompressed_size: self.uncompressed_size,
            disk_nbr_start: self.disk_nbr_start,
            internal_attrs: self.internal_attrs,
            external_attrs: self.external_attrs,
            header_offset: self.header_offset,
            name: self.name@,
            extra: self.extra@,
            comment: self.comment@,
        }
    }
}

/// The views of a sequence of headers.
pub open spec fn header_views(headers: Seq<DirectoryHeader>) -> Seq<DirectoryHeaderView> {
    headers.map_values(|h: DirectoryHeader| h@)
}

/// What `DirectoryHeader::parse` makes of the bytes `s`.
pub open spec fn directory_header(s: Seq<u8>) -> Result<(Seq<u8>, DirectoryHeaderView), ParseError> {
    let name_end = 46 + crate::bytes::le16(s, 28);
    let extra_end = name_end + crate::bytes::le16(s, 30);
    let comment_end = extra_end + crate::bytes::le16(s, 32);
    if !crate::bytes::has_signature(s, 0x01, 0x02) {
        Err(ParseError::Error(ErrorKind::Tag))
    } else if s.len() < 46 || s.len() < comment_end {
        Err(ParseError::Error(ErrorKind::Eof))
    } else {
        Ok(
            (
                s.skip(comment_end),
                DirectoryHeaderView {
                    creator_version: crate::bytes::le16(s, 4),
                    reader_version: crate::bytes::le16(s, 6),
                    flags: crate::bytes::le16(s, 8),
                    method: crate::bytes::le16(s, 10),
                    modified: MsdosTimestamp {
                        time: crate::bytes::le16(s, 12),
                        date: crate::bytes::le16(s, 14),
                    },
                    crc32: crate::bytes::le32(s, 16),
                    compressed_size: crate::bytes::le32(s, 20),
                    uncompressed_size: crate::bytes::le32(s, 24),
                    disk_nbr_start: crate::bytes::le16(s, 34),
                    internal_attrs: crate::bytes::le16(s, 36),
                    external_attrs: crate::bytes::le32(s, 38),
                    header_offset: crate::bytes::le32(s, 42),
                    name: s.subrange(46, name_end),
                    extra: s.subrange(name_end, extra_end),
                    comment: s.subrange(extra_end, comment_end),
                },
            ),
        )
    }
}

impl DirectoryHeader {
    pub fn parse<'a>(i: &'a [u8]) -> (res: ZipParseResult<'a, Self>)
        ensures
            crate::error::parse_view(res) == directory_header(i@),
            res matches Ok((rest, _)) ==> rest@.len() + 46 <= i@.len(),
    {
        if !starts_with_signature(i, 0x01, 0x02) {
            return Err(ParseError::Error(ErrorKind::Tag));
        }
        if i.len() < 46 {
            return Err(ParseError::Error(ErrorKind::Eof));
        }
        let rest = slice_subrange(i, 46, i.len());
        let (rest, name) = match zip_string(read_u16(i, 28) as usize)(rest) {
            Ok((rest, name)) => (rest, name),
            Err(e) => return Err(e),
        };
        let (rest, extra) = match zip_bytes(read_u16(i, 30) as usize)(rest) {
            Ok((rest, extra)) => (rest, extra),
            Err(e) => return Err(e),
        };
        let (rest, comment) = match zip_string(read_u16(i, 32) as usize)(rest) {
            Ok((rest, comment)) => (rest, comment),
            Err(e) => return Err(e),
        };
        let modified = MsdosTimestamp { time: read_u16(i, 12), date: read_u16(i, 14) };
        let header = DirectoryHeader {
            creator_version: read_u16(i, 4),
            reader_version: read_u16(i, 6),
            flags: read_u16(i, 8),
            method: read_u16(i, 10),
            modified,
            crc32: read_u32(i, 16),
            compressed_size: read_u32(i, 20),
            uncompressed_size: read_u32(i, 24),
            disk_nbr_start: read_u16(i, 34),
            internal_attrs: read_u16(i, 36),
            external_attrs: read_u32(i, 38),
            header_offset: read_u32(i, 42),
            name,
            extra,
            comment,
        };
        proof {
            let (end, expected) = directory_header(i@)->Ok_0;
            assert(header@ =~= expected);
            assert(rest@ =~= end);
        }
        Ok((rest, header))
    }
}

/// Whether the general purpose bit flag marks the name and the comment as UTF-8 (bit 11).
pub open spec fn has_utf8_flag(flags: u16) -> bool {
    flags / 0x800 % 2 == 1
}

/// Whether the name and the comment of a header are to be taken for something else than UTF-8:
/// they are not valid UTF-8, or they could be in several encodings and are not marked as UTF-8.
pub open spec fn is_non_utf8(h: DirectoryHeaderView) -> bool {
    ||| !valid_utf8(h.name)
    ||| !valid_utf8(h.comment)
    ||| {
        &&& crate::encoding::requires_utf8(h.name) || crate::encoding::requires_utf8(h.comment)
        &&& !has_utf8_flag(h.flags)
    }
}

/// The properties of an entry that extra fields can change.
#[derive(Debug, Clone, Copy, PartialEq, Eq, Structural)]
pub struct EntryAttrs {
    pub compressed_size: u64,
    pub uncompressed_size: u64,
    pub header_offset: u64,
    pub modified: Option<Timestamp>,
    pub created: Option<Timestamp>,
    pub accessed: Option<Timestamp>,
    pub uid: Option<u32>,
    pub gid: Option<u32>,
}

/// The first option if it has a value, and the second otherwise.
pub open spec fn first_of<T>(a: Option<T>, b: Option<T>) -> Option<T> {
    if a is Some {
        a
    } else {
        b
    }
}

/// The value of an option, or `other` where it has none.
pub open spec fn value_or<T>(a: Option<T>, other: T) -> T {
    match a {
        Some(v) => v,
        None => other,
    }
}

/// The low 32 bits of a number.
pub open spec fn low_half(n: u64) -> u32 {
    (n % 0x1_0000_0000) as u32
}

/// The properties `a` after an NTFS attribute: a times attribute sets all the three times.
pub open spec fn apply_ntfs_attr(a: EntryAttrs, attr: NtfsAttr) -> EntryAttrs {
    match attr {
        NtfsAttr::Attr1(t) => EntryAttrs {
            modified: crate::dates::ntfs_datetime(t.mtime),
            created: crate::dates::ntfs_datetime(t.ctime),
            accessed: crate::dates::ntfs_datetime(t.atime),
            ..a
        },
        NtfsAttr::Unknown { .. } => a,
    }
}

/// The properties `a` after an extra field.
pub open spec fn apply_extra(a: EntryAttrs, field: ExtraFieldView) -> EntryAttrs {
    match field {
        ExtraFieldView::Zip64(f) => EntryAttrs {
            uncompressed_size: value_or(f.uncompressed_size, a.uncompressed_size),
            compressed_size: value_or(f.compressed_size, a.compressed_size),
            header_offset: value_or(f.header_offset, a.header_offset),
            ..a
        },
        ExtraFieldView::Timestamp(f) => EntryAttrs {
            modified: Some(Timestamp { secs: f.mtime as i64, nanos: 0 }),
            ..a
        },
        ExtraFieldView::Ntfs(attrs) => attrs.fold_left(
            a,
            |b: EntryAttrs, attr: NtfsAttr| apply_ntfs_attr(b, attr),
        ),
        ExtraFieldView::Unix(f) => EntryAttrs {
            modified: Some(Timestamp { secs: f.mtime as i64, nanos: 0 }),
            uid: first_of(a.uid, Some(f.uid as u32)),
            gid: first_of(a.gid, Some(f.gid as u32)),
            ..a
        },
        ExtraFieldView::NewUnix(f) => EntryAttrs {
            uid: Some(low_half(f.uid)),
            gid: Some(low_half(f.gid)),
            ..a
        },
        ExtraFieldView::Unknown { .. } => a,
    }
}

/// The properties `a` after extra fields, one after the other.
pub open spec fn apply_extras(a: EntryAttrs, fields: Seq<ExtraFieldView>) -> EntryAttrs {
    fields.fold_left(a, |b: EntryAttrs, f: ExtraFieldView| apply_extra(b, f))
}

/// The extra fields that fill the bytes `s`, or `None` where they cannot be told apart.
pub open spec fn extra_list(s: Seq<u8>, settings: ExtraFieldSettings) -> Option<Seq<ExtraFieldView>>
    decreases s.len(),
{
    if s.len() == 0 {
        Some(Seq::empty())
    } else {
        match crate::extra::extra_field(s, settings) {
            Err(_) => None,
            Ok((rest, field)) => {
                proof {
                    assert(rest.len() < s.len());
                }
                match extra_list(rest, settings) {
                    None => None,
                    Some(fields) => Some(seq![field] + fields),
                }
            },
        }
    }
}

/// The fields of a zip64 extra field that a header needs: those for which its own are saturated.
pub open spec fn needed_fields(h: DirectoryHeaderView) -> ExtraFieldSettings {
    ExtraFieldSettings {
        needs_uncompressed_size: h.uncompressed_size == u32::MAX,
        needs_compressed_size: h.compressed_size == u32::MAX,
        needs_header_offset: h.header_offset == u32::MAX,
    }
}

/// The properties that a header has without its extra fields.
pub open spec fn plain_attrs(h: DirectoryHeaderView) -> EntryAttrs {
    EntryAttrs {
        compressed_size: h.compressed_size as u64,
        uncompressed_size: h.uncompressed_size as u64,
        header_offset: h.header_offset as u64,
        modified: None,
        created: None,
        accessed: None,
        uid: None,
        gid: None,
    }
}

/// The comment of an entry or of an archive: `None` where it is empty.
pub open spec fn decoded_comment(comment: Seq<u8>, encoding: Encoding) -> Result<
    Option<Seq<char>>,
    Error,
> {
    if comment.len() == 0 {
        Ok(None)
    } else {
        match crate::encoding::decoded(encoding, comment) {
            Ok(text) => Ok(Some(text)),
            Err(e) => Err(Error::Encoding(e)),
        }
    }
}

/// The entry that a header with the given texts and extra fields describes.
pub open spec fn described_entry(
    h: DirectoryHeaderView,
    name: Seq<char>,
    comment: Option<Seq<char>>,
    extra_fields: Seq<ExtraFieldView>,
) -> StoredEntryView {
    let attrs = apply_extras(plain_attrs(h), extra_fields);
    StoredEntryView {
        entry: EntryView {
            name,
            method: crate::types::method_of(h.method),
            comment,
            modified: value_or(
                first_of(attrs.modified, crate::dates::msdos_datetime(h.modified)),
                Timestamp { secs: 0, nanos: 0 },
            ),
            created: attrs.created,
            accessed: attrs.accessed,
        },
        creator_version: h.creator_version,
        reader_version: h.reader_version,
        flags: h.flags,
        crc32: h.crc32,
        compressed_size: attrs.compressed_size,
        uncompressed_size: attrs.uncompressed_size,
        header_offset: attrs.header_offset,
        uid: attrs.uid,
        gid: attrs.gid,
        extra_fields,
        external_attrs: h.external_attrs,
    }
}

/// The entry that a header describes, its texts taken in the given encoding.
pub open spec fn stored_entry(h: DirectoryHeaderView, encoding: Encoding) -> Result<
    StoredEntryView,
    Error,
> {
    match decoded_comment(h.comment, encoding) {
        Err(e) => Err(e),
        Ok(comment) => match crate::encoding::decoded(encoding, h.name) {
            Err(e) => Err(Error::Encoding(e)),
            Ok(name) => match extra_list(h.extra, needed_fields(h)) {
                None => Err(Error::Format(FormatError::InvalidExtraField)),
                Some(extra_fields) => Ok(described_entry(h, name, comment, extra_fields)),
            },
        },
    }
}

/// Decodes the comment of an entry or of an archive.
pub fn decode_comment(comment: &ZipString, encoding: Encoding) -> (res: Result<Option<String>, Error>)
    ensures
        match res {
            Ok(text) => decoded_comment(comment@, encoding) == Ok::<_, Error>(
                crate::types::text_view(text),
            ),
            Err(e) => decoded_comment(comment@, encoding) == Err::<Option<Seq<char>>, _>(e),
        },
{
    if comment.0.len() == 0 {
        return Ok(None);
    }
    match encoding.decode(comment.0.as_slice()) {
        Ok(text) => Ok(Some(text)),
        Err(e) => Err(Error::Encoding(e)),
    }
}

impl EntryAttrs {
    /// Takes over what an NTFS extra field says.
    fn apply_ntfs(&mut self, field: &ExtraNtfsField)
        ensures
            *final(self) == apply_extra(*old(self), ExtraFieldView::Ntfs(field@)),
    {
        let ghost f = |b: EntryAttrs, attr: NtfsAttr| apply_ntfs_attr(b, attr);
        let mut k: usize = 0;
        assert(field@.take(0) =~= Seq::<NtfsAttr>::empty());
        while k < field.attrs.len()
            invariant
                k <= field.attrs.len(),
                f == (|b: EntryAttrs, attr: NtfsAttr| apply_ntfs_attr(b, attr)),
                *self == field@.take(k as int).fold_left(*old(self), f),
            decreases field.attrs.len() - k,
        {
            assert(field@.take(k + 1).drop_last() =~= field@.take(k as int));
            match &field.attrs[k] {
                NtfsAttr::Attr1(attr) => {
                    self.modified = attr.mtime.to_datetime();
                    self.created = attr.ctime.to_datetime();
                    self.accessed = attr.atime.to_datetime();
                },
                NtfsAttr::Unknown { .. } => {},
            }
            k = k + 1;
        }
        assert(field@.take(k as int) =~= field@);
    }

    /// Takes over what an extra field says.
    pub fn apply(&mut self, field: &ExtraField)
        ensures
            *final(self) == apply_extra(*old(self), field@),
    {
        match field {
            ExtraField::Zip64(z64) => {
                if let Some(n) = z64.uncompressed_size {
                    self.uncompressed_size = n;
                }
                if let Some(n) = z64.compressed_size {
                    self.compressed_size = n;
                }
                if let Some(n) = z64.header_offset {
                    self.header_offset = n;
                }
            },
            ExtraField::Timestamp(ts) => {
                self.modified = Some(unix_seconds(ts.mtime));
            },
            ExtraField::Ntfs(nf) => {
                self.apply_ntfs(nf);
            },
            ExtraField::Unix(uf) => {
                self.modified = Some(unix_seconds(uf.mtime));
                if self.uid.is_none() {
                    self.uid = Some(uf.uid as u32);
                }
                if self.gid.is_none() {
                    self.gid = Some(uf.gid as u32);
                }
            },
            ExtraField::NewUnix(uf) => {
                self.uid = Some((uf.uid % 0x1_0000_0000) as u32);
                self.gid = Some((uf.gid % 0x1_0000_0000) as u32);
            },
            ExtraField::Unknown { .. } => {},
        }
    }
}

impl DirectoryHeader {
    /// Whether the name and the comment are to be taken for something else than UTF-8.
    pub fn is_non_utf8(&self) -> (res: bool)
        ensures
            res == is_non_utf8(self@),
    {
        let (valid1, require1) = detect_utf8(self.name.0.as_slice());
        let (valid2, require2) = detect_utf8(self.comment.0.as_slice());
        if !valid1 || !valid2 {
            // definitely not utf-8
            return true;
        }
        if !require1 && !require2 {
            // name and comment only use single-byte runes that overlap with UTF-8
            return false;
        }
        // Might be UTF-8, might be some other encoding; preserve existing flag.
        // Some ZIP writers use UTF-8 encoding without setting the UTF-8 flag.
        // Since it is impossible to always distinguish valid UTF-8 from some
        // other encoding (e.g., GBK or Shift-JIS), we trust the flag.
        self.flags / 0x800 % 2 == 0
    }

    /// Parses the extra fields, and takes over what they say.
    fn read_extra_fields(&self) -> (res: Result<(Vec<ExtraField>, EntryAttrs), Error>)
        ensures
            match res {
                Ok((fields, attrs)) => {
                    &&& extra_list(self@.extra, needed_fields(self@)) == Some(
                        crate::extra::extra_views(fields@),
                    )
                    &&& attrs == apply_extras(
                        plain_attrs(self@),
                        crate::extra::extra_views(fields@),
                    )
                },
                Err(e) => {
                    &&& extra_list(self@.extra, needed_fields(self@)) is None
                    &&& e == Error::Format(FormatError::InvalidExtraField)
                },
            },
    {
        let settings = ExtraFieldSettings {
            needs_uncompressed_size: self.uncompressed_size == u32::MAX,
            needs_compressed_size: self.compressed_size == u32::MAX,
            needs_header_offset: self.header_offset == u32::MAX,
        };
        let mut attrs = EntryAttrs {
            compressed_size: self.compressed_size as u64,
            uncompressed_size: self.uncompressed_size as u64,
            header_offset: self.header_offset as u64,
            modified: None,
            created: None,
            accessed: None,
            uid: None,
            gid: None,
        };
        let mut extra_fields: Vec<ExtraField> = Vec::new();
        let mut slice = self.extra.0.as_slice();
        assert(crate::extra::extra_views(extra_fields@) =~= Seq::empty());
        while slice.len() > 0
            invariant
                settings == needed_fields(self@),
                attrs == apply_extras(
                    plain_attrs(self@),
                    crate::extra::extra_views(extra_fields@),
                ),
                match extra_list(slice@, settings) {
                    Some(more) => extra_list(self@.extra, settings) == Some(
                        crate::extra::extra_views(extra_fields@) + more,
                    ),
                    None => extra_list(self@.extra, settings) is None,
                },
            decreases slice.len(),
        {
            match ExtraField::parse(slice, &settings) {
                Ok((remaining, ef)) => {
                    let ghost before = crate::extra::extra_views(extra_fields@);
                    attrs.apply(&ef);
                    extra_fields.push(ef);
                    proof {
                        let after = crate::extra::extra_views(extra_fields@);
                        assert(after =~= before.push(ef@));
                        assert(after.drop_last() =~= before);
                        if let Some(more) = extra_list(remaining@, settings) {
                            assert(before + (seq![ef@] + more) =~= after + more);
                        }
                    }
                    slice = remaining;
                },
                Err(_) => {
                    return Err(Error::Format(FormatError::InvalidExtraField));
                },
            }
        }
        assert(crate::extra::extra_views(extra_fields@) + Seq::<ExtraFieldView>::empty()
            =~= crate::extra::extra_views(extra_fields@));
        Ok((extra_fields, attrs))
    }

    /// The entry that the header describes, its texts taken in the given encoding.
    pub fn as_stored_entry(&self, encoding: Encoding) -> (res: Result<StoredEntry, Error>)
        ensures
            match res {
                Ok(entry) => stored_entry(self@, encoding) == Ok::<_, Error>(entry@),
                Err(e) => stored_entry(self@, encoding) == Err::<StoredEntryView, _>(e),
            },
    {
        let comment = match decode_comment(&self.comment, encoding) {
            Ok(comment) => comment,
            Err(e) => return Err(e),
        };
        let name = match encoding.decode(self.name.0.as_slice()) {
            Ok(name) => name,
            Err(e) => return Err(Error::Encoding(e)),
        };
        let (extra_fields, attrs) = match self.read_extra_fields() {
            Ok((extra_fields, attrs)) => (extra_fields, attrs),
            Err(e) => return Err(e),
        };
        let modified = match attrs.modified {
            Some(m) => m,
            None => match self.modified.to_datetime() {
                Some(m) => m,
                None => zero_datetime(),
            },
        };
        let entry = Entry {
            name,
            method: Method::from(self.method),
            comment,
            modified,
            created: attrs.created,
            accessed: attrs.accessed,
        };
        Ok(
            StoredEntry {
                entry,
                creator_version: self.creator_version,
                reader_version: self.reader_version,
                flags: self.flags,
                crc32: self.crc32,
                compressed_size: attrs.compressed_size,
                uncompressed_size: attrs.uncompressed_size,
                header_offset: attrs.header_offset,
                uid: attrs.uid,
                gid: attrs.gid,
                extra_fields,
                external_attrs: self.external_attrs,
            },
        )
    }
}

} // verus!
