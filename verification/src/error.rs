//! What can go wrong.
use vstd::prelude::*;

verus! {

/// Why a piece of text could not be decoded.
#[derive(Debug, Clone, Copy, PartialEq, Eq, Structural)]
pub enum DecodingError {
    /// The bytes are not valid UTF-8.
    Utf8,
    /// The bytes are not valid in the named encoding.
    Encoding,
    /// The text is too long to be decoded in memory.
    StringTooLarge,
}

/// What is wrong with the structure of a zip file.
#[derive(Debug, Clone, Copy, PartialEq, Eq, Structural)]
pub enum FormatError {
    /// No end of central directory record was found.
    DirectoryEndSignatureNotFound,
    /// The zip64 end of central directory record could not be parsed.
    Directory64EndRecordInvalid,
    /// The central directory starts outside of the file.
    DirectoryOffsetPointsOutsideFile,
    /// The number of central directory records is not the announced one.
    InvalidCentralRecord,
    /// An extra field could not be parsed.
    InvalidExtraField,
}

/// How reading the underlying file failed, as far as this library decides it.
#[derive(Debug, Clone, Copy, PartialEq, Eq, Structural)]
pub enum IoErrorKind {
    /// The file ended before all the bytes that were asked for came.
    UnexpectedEof,
}

/// Any error that reading an archive ends with.
#[derive(Debug, Clone, Copy, PartialEq, Eq, Structural)]
pub enum Error {
    /// A name or a comment is not valid in the encoding of the archive.
    Encoding(DecodingError),
    /// The file is not a well-formed zip file.
    Format(FormatError),
    /// The file could not be read.
    IO(IoErrorKind),
}

/// What a parser found wrong at the point where it stopped.
#[derive(Debug, Clone, Copy, PartialEq, Eq, Structural)]
pub enum ErrorKind {
    /// The expected bytes are not there.
    Tag,
    /// The input ends too early.
    Eof,
    /// A parsed value is not acceptable.
    Verify,
    /// A size is none of the known ones.
    OneOf,
}

/// Why a parser failed.
#[derive(Debug, Clone, Copy, PartialEq, Eq, Structural)]
pub enum ParseError {
    /// A length-prefixed block announces this many bytes, more than there are.
    Incomplete(usize),
    /// The parser does not apply to the input.
    Error(ErrorKind),
    /// The parser applies, and the input is invalid.
    Failure(ErrorKind),
}

/// The rest of the input and the value that was parsed, or why parsing failed.
pub type ZipParseResult<'a, T> = Result<(&'a [u8], T), ParseError>;

/// A parse result, with the rest of the input and the value taken by their views.
pub open spec fn parse_view<T: View>(res: ZipParseResult<'_, T>) -> Result<
    (Seq<u8>, T::V),
    ParseError,
> {
    match res {
        Ok((rest, value)) => Ok((rest@, value@)),
        Err(e) => Err(e),
    }
}

} // verus!
