//! Extra fields of the central directory: optional records behind the name of an entry.
use vstd::prelude::*;
use vstd::slice::slice_subrange;

use crate::bytes::{read_u16, read_u32, read_u64, take_prefixed};
use crate::dates::NtfsTimestamp;
use crate::error::{ErrorKind, ParseError, ZipParseResult};
use crate::types::ZipBytes;

verus! {

/// An extra field that has not been interpreted yet.
pub struct ExtraFieldRecord<'a> {
    pub tag: u16,
    pub payload: &'a [u8],
}

impl<'a> View for ExtraFieldRecord<'a> {
    type V = (u16, Seq<u8>);

    open spec fn view(&self) -> (u16, Seq<u8>) {
        (self.tag, self.payload@)
    }
}

/// What `ExtraFieldRecord::parse` makes of the bytes `s`: a tag, the length of the payload and
/// the payload.
pub open spec fn extra_field_record(s: Seq<u8>) -> Result<(Seq<u8>, (u16, Seq<u8>)), ParseError> {
    if s.len() < 4 {
        Err(ParseError::Error(ErrorKind::Eof))
    } else {
        match crate::bytes::prefixed_block(s.skip(4), crate::bytes::le16(s, 2) as nat) {
            Ok((rest, payload)) => Ok((rest, (crate::bytes::le16(s, 0), payload))),
            Err(e) => Err(e),
        }
    }
}

/// The lowercase hexadecimal digit of a number under 16.
pub open spec fn hex_digit(d: nat) -> char {
    if d < 10 {
        ('0' as nat + d) as char
    } else {
        ('a' as nat + (d - 10)) as char
    }
}

/// The hexadecimal digits of a number, without leading zeros.
pub open spec fn hex_number(n: nat) -> Seq<char>
    decreases n,
{
    if n < 16 {
        seq![hex_digit(n)]
    } else {
        hex_number(n / 16).push(hex_digit(n % 16))
    }
}

/// The hexadecimal digits of bytes, two for each byte.
pub open spec fn hex_bytes(bytes: Seq<u8>) -> Seq<char> {
    Seq::new(
        2 * bytes.len(),
        |i: int|
            hex_digit(
                if i % 2 == 0 {
                    bytes[i / 2] as nat / 16
                } else {
                    bytes[i / 2] as nat % 16
                },
            ),
    )
}

/// Formats with `{:x}` of std and with `HexFmt` of hex_fmt. Trusted: the number is written in
/// lowercase hexadecimal without leading zeros, the bytes with two lowercase digits each.
#[verifier::external_body]
fn record_text(tag: u16, payload: &[u8]) -> (res: String)
    ensures
        res@ == "tag 0x"@ + hex_number(tag as nat) + ": "@ + hex_bytes(payload@),
{
    format!("tag 0x{:x}: {}", tag, hex_fmt::HexFmt(payload))
}

impl<'a> ExtraFieldRecord<'a> {
    pub fn parse(i: &'a [u8]) -> (res: ZipParseResult<'a, Self>)
        ensures
            crate::error::parse_view(res) == extra_field_record(i@),
    {
        if i.len() < 4 {
            return Err(ParseError::Error(ErrorKind::Eof));
        }
        match take_prefixed(slice_subrange(i, 4, i.len()), read_u16(i, 2) as usize) {
            Ok((rest, payload)) => Ok((rest, ExtraFieldRecord { tag: read_u16(i, 0), payload })),
            Err(e) => Err(e),
        }
    }

    /// The record for a log or a debugger.
    pub fn fmt(&self) -> (res: String)
        ensures
            res@ == "tag 0x"@ + hex_number(self.tag as nat) + ": "@ + hex_bytes(self.payload@),
    {
        record_text(self.tag, self.payload)
    }
}

/// Which fields of a directory header are too small for their values.
///
/// The zip64 extra field has a fixed order of optional fields: each of them is there only if
/// the corresponding field of the directory header is saturated.
#[derive(Debug, Clone, Copy, PartialEq, Eq, Structural)]
pub struct ExtraFieldSettings {
    pub needs_uncompressed_size: bool,
    pub needs_compressed_size: bool,
    pub needs_header_offset: bool,
}

/// An extra field.
#[derive(Debug)]
pub enum ExtraField {
    Zip64(ExtraZip64Field),
    Timestamp(ExtraTimestampField),
    Unix(ExtraUnixField),
    Ntfs(ExtraNtfsField),
    NewUnix(ExtraNewUnixField),
    /// A field with an unknown tag, or one with a known tag that could not be parsed
    Unknown { tag: u16 },
}

#[verifier::ext_equal]
pub enum ExtraFieldView {
    Zip64(ExtraZip64Field),
    Timestamp(ExtraTimestampField),
    Unix(ExtraUnixFieldView),
    Ntfs(Seq<NtfsAttr>),
    NewUnix(ExtraNewUnixField),
    Unknown { tag: u16 },
}

impl View for ExtraField {
    type V = ExtraFieldView;

    open spec fn view(&self) -> ExtraFieldView {
        match *self {
            ExtraField::Zip64(f) => ExtraFieldView::Zip64(f),
            ExtraField::Timestamp(f) => ExtraFieldView::Timestamp(f),
            ExtraField::Unix(f) => ExtraFieldView::Unix(f@),
            ExtraField::Ntfs(f) => ExtraFieldView::Ntfs(f@),
            ExtraField::NewUnix(f) => ExtraFieldView::NewUnix(f),
            ExtraField::Unknown { tag } => ExtraFieldView::Unknown { tag },
        }
    }
}

/// The views of a sequence of extra fields.
pub open spec fn extra_views(fields: Seq<ExtraField>) -> Seq<ExtraFieldView> {
    fields.map_values(|f: ExtraField| f@)
}

/// Zip64 extended information extra field
#[derive(Debug, Clone, Copy, PartialEq, Eq, Structural)]
pub struct ExtraZip64Field {
    pub uncompressed_size: Option<u64>,
    pub compressed_size: Option<u64>,
    pub header_offset: Option<u64>,
}

impl View for ExtraZip64Field {
    type V = ExtraZip64Field;

    open spec fn view(&self) -> ExtraZip64Field {
        *self
    }
}

/// The number of bytes that an optional 64-bit field takes.
pub open spec fn optional_len(present: bool) -> int {
    if present {
        8
    } else {
        0
    }
}

/// The optional 64-bit field at offset `at`.
pub open spec fn optional_le64(s: Seq<u8>, present: bool, at: int) -> Option<u64> {
    if present {
        Some(crate::bytes::le64(s, at))
    } else {
        None
    }
}

/// What `ExtraZip64Field::parse` makes of the bytes `s`: the uncompressed size, the compressed
/// size and the header offset, in this order, each only if it is needed.
pub open spec fn extra_zip64(s: Seq<u8>, settings: ExtraFieldSettings) -> Result<
    (Seq<u8>, ExtraZip64Field),
    ParseError,
> {
    let a = optional_len(settings.needs_uncompressed_size);
    let b = a + optional_len(settings.needs_compressed_size);
    let c = b + optional_len(settings.needs_header_offset);
    if s.len() < c {
        Err(ParseError::Error(ErrorKind::Eof))
    } else {
        Ok(
            (
                s.skip(c),
                ExtraZip64Field {
                    uncompressed_size: optional_le64(s, settings.needs_uncompressed_size, 0),
                    compressed_size: optional_le64(s, settings.needs_compressed_size, a),
                    header_offset: optional_le64(s, settings.needs_header_offset, b),
                },
            ),
        )
    }
}

fn read_optional(i: &[u8], present: bool, at: usize) -> (res: Option<u64>)
    requires
        at + optional_len(present) <= i.len(),
    ensures
        res == optional_le64(i@, present, at as int),
{
    if present {
        Some(read_u64(i, at))
    } else {
        None
    }
}

fn optional_length(present: bool) -> (res: usize)
    ensures
        res == optional_len(present),
{
    if present {
        8
    } else {
        0
    }
}

impl ExtraZip64Field {
    pub const TAG: u16 = 0x0001;

    /// The disk number of the entry, which may follow, is left unread.
    pub fn parse<'a>(i: &'a [u8], settings: &ExtraFieldSettings) -> (res: ZipParseResult<'a, Self>)
        ensures
            crate::error::parse_view(res) == extra_zip64(i@, *settings),
    {
        let a: usize = optional_length(settings.needs_uncompressed_size);
        let b: usize = a + optional_length(settings.needs_compressed_size);
        let c: usize = b + optional_length(settings.needs_header_offset);
        if i.len() < c {
            return Err(ParseError::Error(ErrorKind::Eof));
        }
        Ok(
            (
                slice_subrange(i, c, i.len()),
                ExtraZip64Field {
                    uncompressed_size: read_optional(i, settings.needs_uncompressed_size, 0),
                    compressed_size: read_optional(i, settings.needs_compressed_size, a),
                    header_offset: read_optional(i, settings.needs_header_offset, b),
                },
            ),
        )
    }
}

/// Extended timestamp extra field
#[derive(Debug, Clone, Copy, PartialEq, Eq, Structural)]
pub struct ExtraTimestampField {
    /// number of seconds since epoch
    pub mtime: u32,
}

impl View for ExtraTimestampField {
    type V = ExtraTimestampField;

    open spec fn view(&self) -> ExtraTimestampField {
        *self
    }
}

/// What `ExtraTimestampField::parse` makes of the bytes `s`: one byte of flags, in which bit 0
/// must be set, and the modification time.
pub open spec fn extra_timestamp(s: Seq<u8>) -> Result<(Seq<u8>, ExtraTimestampField), ParseError> {
    if s.len() >= 1 && s[0] % 2 == 0 {
        Err(ParseError::Error(ErrorKind::Verify))
    } else if s.len() < 5 {
        Err(ParseError::Error(ErrorKind::Eof))
    } else {
        Ok((s.skip(5), ExtraTimestampField { mtime: crate::bytes::le32(s, 1) }))
    }
}

impl ExtraTimestampField {
    pub const TAG: u16 = 0x5455;

    pub fn parse<'a>(i: &'a [u8]) -> (res: ZipParseResult<'a, Self>)
        ensures
            crate::error::parse_view(res) == extra_timestamp(i@),
    {
        // 1 byte of flags, if bit 0 is set, modification time is present
        if i.len() >= 1 && i[0] % 2 == 0 {
            return Err(ParseError::Error(ErrorKind::Verify));
        }
        if i.len() < 5 {
            return Err(ParseError::Error(ErrorKind::Eof));
        }
        Ok((slice_subrange(i, 5, i.len()), ExtraTimestampField { mtime: read_u32(i, 1) }))
    }
}

/// UNIX extra field
#[derive(Debug)]
pub struct ExtraUnixField {
    /// file last access time
    pub atime: u32,
    /// file last modification time
    pub mtime: u32,
    /// file user id
    pub uid: u16,
    /// file group id
    pub gid: u16,
    /// variable length data field
    pub data: ZipBytes,
}

#[verifier::ext_equal]
pub struct ExtraUnixFieldView {
    pub atime: u32,
    pub mtime: u32,
    pub uid: u16,
    pub gid: u16,
    pub data: Seq<u8>,
}

impl View for ExtraUnixField {
    type V = ExtraUnixFieldView;

    open spec fn view(&self) -> ExtraUnixFieldView {
        ExtraUnixFieldView {
            atime: self.atime,
            mtime: self.mtime,
            uid: self.uid,
            gid: self.gid,
            data: self.data@,
        }
    }
}

/// The length of the variable data of a UNIX extra field: the 16-bit size without the 12 bytes
/// of the fixed fields. A size under 12 wraps around.
pub open spec fn unix_data_len(t_size: u16) -> int {
    (t_size - 12) % 0x1_0000
}

/// What `ExtraUnixField::parse` makes of the bytes `s`.
pub open spec fn extra_unix(s: Seq<u8>) -> Result<(Seq<u8>, ExtraUnixFieldView), ParseError> {
    if s.len() < 2 || s.len() < 14 + unix_data_len(crate::bytes::le16(s, 0)) {
        Err(ParseError::Error(ErrorKind::Eof))
    } else {
        let end = 14 + unix_data_len(crate::bytes::le16(s, 0));
        Ok(
            (
                s.skip(end),
                ExtraUnixFieldView {
                    atime: crate::bytes::le32(s, 2),
                    mtime: crate::bytes::le32(s, 6),
                    uid: crate::bytes::le16(s, 10),
                    gid: crate::bytes::le16(s, 12),
                    data: s.subrange(14, end),
                },
            ),
        )
    }
}

impl ExtraUnixField {
    pub const TAG: u16 = 0x000d;

    pub const TAG_INFOZIP: u16 = 0x5855;

    pub fn parse<'a>(i: &'a [u8]) -> (res: ZipParseResult<'a, Self>)
        ensures
            crate::error::parse_view(res) == extra_unix(i@),
    {
        if i.len() < 2 {
            return Err(ParseError::Error(ErrorKind::Eof));
        }
        let t_size: u16 = read_u16(i, 0).wrapping_sub(12);
        let end: usize = 14 + t_size as usize;
        if i.len() < end {
            return Err(ParseError::Error(ErrorKind::Eof));
        }
        let res = ExtraUnixField {
            atime: read_u32(i, 2),
            mtime: read_u32(i, 6),
            uid: read_u16(i, 10),
            gid: read_u16(i, 12),
            data: ZipBytes::from_slice(slice_subrange(i, 14, end)),
        };
        Ok((slice_subrange(i, end, i.len()), res))
    }
}

/// Info-ZIP New Unix Extra Field:
/// ====================================
///
/// Currently stores Unix UIDs/GIDs up to 32 bits.
/// (Last Revision 20080509)
///
/// Value         Size        Description
/// -----         ----        -----------
/// 0x7875        Short       tag for this extra block type ("ux")
/// TSize         Short       total data size for this block
/// Version       1 byte      version of this extra field, currently 1
/// UIDSize       1 byte      Size of UID field
/// UID           Variable    UID for this entry
/// GIDSize       1 byte      Size of GID field
/// GID           Variable    GID for this entry
#[derive(Debug, Clone, Copy, PartialEq, Eq, Structural)]
pub struct ExtraNewUnixField {
    pub uid: u64,
    pub gid: u64,
}

impl View for ExtraNewUnixField {
    type V = ExtraNewUnixField;

    open spec fn view(&self) -> ExtraNewUnixField {
        *self
    }
}

/// The little-endian integer that fills `s`, if it has a size of 1, 2, 4 or 8 bytes.
pub open spec fn whole_le(s: Seq<u8>) -> Option<u64> {
    if s.len() == 1 {
        Some(s[0] as u64)
    } else if s.len() == 2 {
        Some(crate::bytes::le16(s, 0) as u64)
    } else if s.len() == 4 {
        Some(crate::bytes::le32(s, 0) as u64)
    } else if s.len() == 8 {
        Some(crate::bytes::le64(s, 0))
    } else {
        None
    }
}

/// What `ExtraNewUnixField::parse_variable_length_integer` makes of the bytes `s`: one byte
/// with the size of the integer, and the integer.
pub open spec fn variable_length_integer(s: Seq<u8>) -> Result<(Seq<u8>, u64), ParseError> {
    if s.len() < 1 {
        Err(ParseError::Error(ErrorKind::Eof))
    } else {
        match crate::bytes::prefixed_block(s.skip(1), s[0] as nat) {
            Err(e) => Err(e),
            Ok((rest, slice)) => match whole_le(slice) {
                Some(u) => Ok((rest, u)),
                None => Err(ParseError::Failure(ErrorKind::OneOf)),
            },
        }
    }
}

/// What `ExtraNewUnixField::parse` makes of the bytes `s`.
pub open spec fn extra_new_unix(s: Seq<u8>) -> Result<(Seq<u8>, ExtraNewUnixField), ParseError> {
    if s.len() < 1 || s[0] != 1 {
        Err(ParseError::Error(ErrorKind::Tag))
    } else {
        match variable_length_integer(s.skip(1)) {
            Err(e) => Err(e),
            Ok((rest, uid)) => match variable_length_integer(rest) {
                Err(e) => Err(e),
                Ok((rest, gid)) => Ok((rest, ExtraNewUnixField { uid, gid })),
            },
        }
    }
}

impl ExtraNewUnixField {
    pub const TAG: u16 = 0x7875;

    pub fn parse<'a>(i: &'a [u8]) -> (res: ZipParseResult<'a, Self>)
        ensures
            crate::error::parse_view(res) == extra_new_unix(i@),
    {
        if i.len() < 1 || i[0] != 1 {
            return Err(ParseError::Error(ErrorKind::Tag));
        }
        let (i, uid) = match Self::parse_variable_length_integer(slice_subrange(i, 1, i.len())) {
            Ok((rest, uid)) => (rest, uid),
            Err(e) => return Err(e),
        };
        match Self::parse_variable_length_integer(i) {
            Ok((rest, gid)) => Ok((rest, ExtraNewUnixField { uid, gid })),
            Err(e) => Err(e),
        }
    }

    pub fn parse_variable_length_integer<'a>(i: &'a [u8]) -> (res: ZipParseResult<'a, u64>)
        ensures
            match res {
                Ok((rest, u)) => variable_length_integer(i@) == Ok::<_, ParseError>((rest@, u)),
                Err(e) => variable_length_integer(i@) == Err::<(Seq<u8>, u64), _>(e),
            },
    {
        if i.len() < 1 {
            return Err(ParseError::Error(ErrorKind::Eof));
        }
        match take_prefixed(slice_subrange(i, 1, i.len()), i[0] as usize) {
            Err(e) => Err(e),
            Ok((rest, slice)) => match slice.len() {
                1 => Ok((rest, slice[0] as u64)),
                2 => Ok((rest, read_u16(slice, 0) as u64)),
                4 => Ok((rest, read_u32(slice, 0) as u64)),
                8 => Ok((rest, read_u64(slice, 0))),
                _ => Err(ParseError::Failure(ErrorKind::OneOf)),
            },
        }
    }
}

/// NTFS extra field
#[derive(Debug)]
pub struct ExtraNtfsField {
    pub attrs: Vec<NtfsAttr>,
}

impl View for ExtraNtfsField {
    type V = Seq<NtfsAttr>;

    open spec fn view(&self) -> Seq<NtfsAttr> {
        self.attrs@
    }
}

/// An attribute of an NTFS extra field
#[derive(Debug, Clone, Copy, PartialEq, Eq, Structural)]
pub enum NtfsAttr {
    Attr1(NtfsAttr1),
    Unknown { tag: u16 },
}

impl View for NtfsAttr {
    type V = NtfsAttr;

    open spec fn view(&self) -> NtfsAttr {
        *self
    }
}

/// The three times of a file
#[derive(Debug, Clone, Copy, PartialEq, Eq, Structural)]
pub struct NtfsAttr1 {
    pub mtime: NtfsTimestamp,
    pub atime: NtfsTimestamp,
    pub ctime: NtfsTimestamp,
}

impl View for NtfsAttr1 {
    type V = NtfsAttr1;

    open spec fn view(&self) -> NtfsAttr1 {
        *self
    }
}

/// What `NtfsAttr1::parse` makes of the bytes `s`.
pub open spec fn ntfs_attr1(s: Seq<u8>) -> Result<(Seq<u8>, NtfsAttr1), ParseError> {
    if s.len() < 24 {
        Err(ParseError::Error(ErrorKind::Eof))
    } else {
        Ok(
            (
                s.skip(24),
                NtfsAttr1 {
                    mtime: NtfsTimestamp { timestamp: crate::bytes::le64(s, 0) },
                    atime: NtfsTimestamp { timestamp: crate::bytes::le64(s, 8) },
                    ctime: NtfsTimestamp { timestamp: crate::bytes::le64(s, 16) },
                },
            ),
        )
    }
}

/// What `NtfsAttr::parse` makes of the bytes `s`: a tag, the length of the attribute and the
/// attribute. Behind a times attribute, parsing goes on in what is left of the attribute.
pub open spec fn ntfs_attr(s: Seq<u8>) -> Result<(Seq<u8>, NtfsAttr), ParseError> {
    match extra_field_record(s) {
        Err(e) => Err(e),
        Ok((rest, (tag, payload))) => if tag == 1 {
            match ntfs_attr1(payload) {
                Ok((rest, attr)) => Ok((rest, NtfsAttr::Attr1(attr))),
                Err(e) => Err(e),
            }
        } else {
            Ok((rest, NtfsAttr::Unknown { tag }))
        },
    }
}

/// The attributes at the start of the bytes `s`, up to the first that is not one, and what
/// follows them. An attribute that is cut off is an error.
pub open spec fn ntfs_attrs(s: Seq<u8>) -> Result<(Seq<u8>, Seq<NtfsAttr>), ParseError>
    decreases s.len(),
{
    match ntfs_attr(s) {
        Err(ParseError::Error(_)) => Ok((s, Seq::empty())),
        Err(e) => Err(e),
        Ok((rest, attr)) => {
            proof {
                assert(rest.len() < s.len());
            }
            match ntfs_attrs(rest) {
                Err(e) => Err(e),
                Ok((rest, attrs)) => Ok((rest, seq![attr] + attrs)),
            }
        },
    }
}

/// What `ExtraNtfsField::parse` makes of the bytes `s`: four reserved bytes and attributes.
pub open spec fn extra_ntfs(s: Seq<u8>) -> Result<(Seq<u8>, Seq<NtfsAttr>), ParseError> {
    if s.len() < 4 {
        Err(ParseError::Error(ErrorKind::Eof))
    } else {
        ntfs_attrs(s.skip(4))
    }
}

impl NtfsAttr1 {
    pub fn parse<'a>(i: &'a [u8]) -> (res: ZipParseResult<'a, Self>)
        ensures
            crate::error::parse_view(res) == ntfs_attr1(i@),
    {
        if i.len() < 24 {
            return Err(ParseError::Error(ErrorKind::Eof));
        }
        let attr = NtfsAttr1 {
            mtime: NtfsTimestamp { timestamp: read_u64(i, 0) },
            atime: NtfsTimestamp { timestamp: read_u64(i, 8) },
            ctime: NtfsTimestamp { timestamp: read_u64(i, 16) },
        };
        Ok((slice_subrange(i, 24, i.len()), attr))
    }
}

impl NtfsAttr {
    pub fn parse<'a>(i: &'a [u8]) -> (res: ZipParseResult<'a, Self>)
        ensures
            crate::error::parse_view(res) == ntfs_attr(i@),
            res matches Ok((rest, _)) ==> rest@.len() < i@.len(),
    {
        match ExtraFieldRecord::parse(i) {
            Err(e) => Err(e),
            Ok((rest, rec)) => {
                if rec.tag == 1 {
                    match NtfsAttr1::parse(rec.payload) {
                        Ok((rest, attr)) => Ok((rest, NtfsAttr::Attr1(attr))),
                        Err(e) => Err(e),
                    }
                } else {
                    Ok((rest, NtfsAttr::Unknown { tag: rec.tag }))
                }
            },
        }
    }
}

impl ExtraNtfsField {
    pub const TAG: u16 = 0x000a;

    pub fn parse<'a>(i: &'a [u8]) -> (res: ZipParseResult<'a, Self>)
        ensures
            crate::error::parse_view(res) == extra_ntfs(i@),
    {
        if i.len() < 4 {
            return Err(ParseError::Error(ErrorKind::Eof));
        }
        let mut attrs: Vec<NtfsAttr> = Vec::new();
        let mut rest = slice_subrange(i, 4, i.len());
        let ghost all = rest@;
        loop
            invariant
                match ntfs_attrs(rest@) {
                    Ok((end, more)) => ntfs_attrs(all) == Ok::<_, ParseError>((end, attrs@ + more)),
                    Err(e) => ntfs_attrs(all) == Err::<(Seq<u8>, Seq<NtfsAttr>), _>(e),
                },
                all == i@.skip(4),
                i@.len() >= 4,
            decreases rest.len(),
        {
            match NtfsAttr::parse(rest) {
                Err(ParseError::Error(_)) => {
                    assert(attrs@ + Seq::<NtfsAttr>::empty() =~= attrs@);
                    return Ok((rest, ExtraNtfsField { attrs }));
                },
                Err(e) => {
                    return Err(e);
                },
                Ok((next, attr)) => {
                    let ghost before = attrs@;
                    attrs.push(attr);
                    proof {
                        if let Ok((end, more)) = ntfs_attrs(next@) {
                            assert(before + (seq![attr] + more) =~= attrs@ + more);
                        }
                    }
                    rest = next;
                },
            }
        }
    }
}

/// The extra field with the given tag and payload. A payload that does not fit its tag makes
/// an unknown field.
pub open spec fn extra_variant(tag: u16, payload: Seq<u8>, settings: ExtraFieldSettings) -> ExtraFieldView {
    let unknown = ExtraFieldView::Unknown { tag };
    if tag == ExtraZip64Field::TAG {
        match extra_zip64(payload, settings) {
            Ok((_, f)) => ExtraFieldView::Zip64(f),
            Err(_) => unknown,
        }
    } else if tag == ExtraTimestampField::TAG {
        match extra_timestamp(payload) {
            Ok((_, f)) => ExtraFieldView::Timestamp(f),
            Err(_) => unknown,
        }
    } else if tag == ExtraNtfsField::TAG {
        match extra_ntfs(payload) {
            Ok((_, f)) => ExtraFieldView::Ntfs(f),
            Err(_) => unknown,
        }
    } else if tag == ExtraUnixField::TAG || tag == ExtraUnixField::TAG_INFOZIP {
        match extra_unix(payload) {
            Ok((_, f)) => ExtraFieldView::Unix(f),
            Err(_) => unknown,
        }
    } else if tag == ExtraNewUnixField::TAG {
        match extra_new_unix(payload) {
            Ok((_, f)) => ExtraFieldView::NewUnix(f),
            Err(_) => unknown,
        }
    } else {
        unknown
    }
}

/// What `ExtraField::parse` makes of the bytes `s`.
pub open spec fn extra_field(s: Seq<u8>, settings: ExtraFieldSettings) -> Result<
    (Seq<u8>, ExtraFieldView),
    ParseError,
> {
    match extra_field_record(s) {
        Err(e) => Err(e),
        Ok((rest, (tag, payload))) => Ok((rest, extra_variant(tag, payload, settings))),
    }
}

impl ExtraField {
    pub fn parse<'a>(i: &'a [u8], settings: &ExtraFieldSettings) -> (res: ZipParseResult<'a, Self>)
        ensures
            crate::error::parse_view(res) == extra_field(i@, *settings),
            res matches Ok((rest, _)) ==> rest@.len() < i@.len(),
    {
        let (remaining, rec) = match ExtraFieldRecord::parse(i) {
            Ok((remaining, rec)) => (remaining, rec),
            Err(e) => return Err(e),
        };
        let unknown = ExtraField::Unknown { tag: rec.tag };
        let variant = if rec.tag == ExtraZip64Field::TAG {
            match ExtraZip64Field::parse(rec.payload, settings) {
                Ok((_, f)) => ExtraField::Zip64(f),
                Err(_) => unknown,
            }
        } else if rec.tag == ExtraTimestampField::TAG {
            match ExtraTimestampField::parse(rec.payload) {
                Ok((_, f)) => ExtraField::Timestamp(f),
                Err(_) => unknown,
            }
        } else if rec.tag == ExtraNtfsField::TAG {
            match ExtraNtfsField::parse(rec.payload) {
                Ok((_, f)) => ExtraField::Ntfs(f),
                Err(_) => unknown,
            }
        } else if rec.tag == ExtraUnixField::TAG || rec.tag == ExtraUnixField::TAG_INFOZIP {
            match ExtraUnixField::parse(rec.payload) {
                Ok((_, f)) => ExtraField::Unix(f),
                Err(_) => unknown,
            }
        } else if rec.tag == ExtraNewUnixField::TAG {
            match ExtraNewUnixField::parse(rec.payload) {
                Ok((_, f)) => ExtraField::NewUnix(f),
                Err(_) => unknown,
            }
        } else {
            unknown
        };
        Ok((remaining, variant))
    }
}

} // verus!
