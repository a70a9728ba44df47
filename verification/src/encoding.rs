//! Text encodings of names and comments.
use vstd::prelude::*;
use vstd::utf8::*;

use codepage_437::BorrowFromCp437;

use crate::error::DecodingError;

verus! {

/// The encoding of the names and comments of an archive.
#[derive(Debug, Clone, Copy, PartialEq, Eq, Structural)]
pub enum Encoding {
    /// Codepage 437, the official one of the zip format
    Cp437,
    /// UTF-8
    Utf8,
    /// Shift JIS, found in archives made in Japan
    ShiftJis,
}

impl View for Encoding {
    type V = Encoding;

    open spec fn view(&self) -> Encoding {
        *self
    }
}

/// The character that codepage 437 assigns to a byte.
pub uninterp spec fn cp437_char(byte: u8) -> char;

/// The text that bytes stand for in Shift JIS, or `None` where they are not valid in it.
pub uninterp spec fn shift_jis_text(bytes: Seq<u8>) -> Option<Seq<char>>;

/// Whether all the bytes are in the ASCII range.
pub open spec fn all_ascii(bytes: Seq<u8>) -> bool {
    forall|i: int| 0 <= i < bytes.len() ==> bytes[i] < 0x80
}

/// The characters with the same numbers as the bytes.
pub open spec fn ascii_text(bytes: Seq<u8>) -> Seq<char> {
    bytes.map_values(|b: u8| b as char)
}

/// Calls `str::from_utf8` of std. Trusted: it accepts valid UTF-8 and nothing else, and the
/// text has the characters that the bytes encode.
#[verifier::external_body]
fn utf8_text(bytes: &[u8]) -> (res: Option<&str>)
    ensures
        match res {
            Some(text) => valid_utf8(bytes@) && text@ == decode_utf8(bytes@),
            None => !valid_utf8(bytes@),
        },
{
    std::str::from_utf8(bytes).ok()
}

/// Calls `String::borrow_from_cp437` of codepage_437 with the dialect `CP437_CONTROL`.
/// Trusted: every byte becomes one character, each the same wherever it stands, and the
/// bytes of the ASCII range stay as they are.
#[verifier::external_body]
fn cp437_text(bytes: &[u8]) -> (res: String)
    ensures
        res@ == bytes@.map_values(|b: u8| cp437_char(b)),
        all_ascii(bytes@) ==> res@ == ascii_text(bytes@),
{
    String::borrow_from_cp437(bytes, &codepage_437::CP437_CONTROL)
}

/// Calls `decode_without_bom_handling_and_without_replacement` of the encoding `SHIFT_JIS` of
/// encoding_rs. Trusted: what it makes of the bytes depends on them alone, and ASCII text is
/// accepted and stays as it is. Text for which the size of the output buffer could overflow is
/// left out.
#[verifier::external_body]
fn decode_shift_jis(bytes: &[u8]) -> (res: Option<String>)
    requires
        bytes@.len() <= usize::MAX / 8,
    ensures
        match res {
            Some(text) => shift_jis_text(bytes@) == Some(text@),
            None => shift_jis_text(bytes@) == None::<Seq<char>>,
        },
        all_ascii(bytes@) ==> res is Some && res->0@ == ascii_text(bytes@),
{
    encoding_rs::SHIFT_JIS.decode_without_bom_handling_and_without_replacement(bytes).map(
        |text| text.into_owned(),
    )
}

/// What the bytes stand for in an encoding.
pub open spec fn decoded(encoding: Encoding, bytes: Seq<u8>) -> Result<Seq<char>, DecodingError> {
    match encoding {
        Encoding::Utf8 => if valid_utf8(bytes) {
            Ok(decode_utf8(bytes))
        } else {
            Err(DecodingError::Utf8)
        },
        Encoding::Cp437 => Ok(bytes.map_values(|b: u8| cp437_char(b))),
        Encoding::ShiftJis => if bytes.len() > usize::MAX / 8 {
            Err(DecodingError::StringTooLarge)
        } else {
            match shift_jis_text(bytes) {
                Some(text) => Ok(text),
                None => Err(DecodingError::Encoding),
            }
        },
    }
}

/// ASCII text is valid UTF-8, and stands for the characters with the same numbers.
pub proof fn ascii_is_utf8(bytes: Seq<u8>)
    requires
        all_ascii(bytes),
    ensures
        valid_utf8(bytes),
        decode_utf8(bytes) == ascii_text(bytes),
{
    let chars = ascii_text(bytes);
    is_ascii_chars_encode_utf8(chars);
    assert(encode_utf8(chars) =~= bytes);
    encode_utf8_valid_utf8(chars);
    encode_utf8_decode_utf8(chars);
}

impl Encoding {
    /// Decodes bytes to text.
    ///
    /// ASCII text is the same in all the encodings.
    pub fn decode(&self, bytes: &[u8]) -> (res: Result<String, DecodingError>)
        ensures
            match res {
                Ok(text) => decoded(*self, bytes@) == Ok::<_, DecodingError>(text@),
                Err(e) => decoded(*self, bytes@) == Err::<Seq<char>, _>(e),
            },
            all_ascii(bytes@) && bytes@.len() <= usize::MAX / 8 ==> (res matches Ok(text)
                && text@ == ascii_text(bytes@)),
    {
        proof {
            if all_ascii(bytes@) {
                ascii_is_utf8(bytes@);
            }
        }
        match self {
            Encoding::Utf8 => match utf8_text(bytes) {
                Some(text) => Ok(text.to_owned()),
                None => Err(DecodingError::Utf8),
            },
            Encoding::Cp437 => Ok(cp437_text(bytes)),
            Encoding::ShiftJis => {
                if bytes.len() > usize::MAX / 8 {
                    return Err(DecodingError::StringTooLarge);
                }
                match decode_shift_jis(bytes) {
                    Some(text) => Ok(text),
                    None => Err(DecodingError::Encoding),
                }
            },
        }
    }
}

/// Whether a byte stands for different characters in common encodings. The control characters
/// and the bytes past `}` do, and so does the backslash, which Shift JIS and EUC-KR replace
/// with currency signs.
pub open spec fn is_ambiguous_byte(b: u8) -> bool {
    b < 0x20 || b > 0x7d || b == 0x5c
}

/// Whether text in UTF-8 has bytes that another common encoding would read otherwise.
pub open spec fn requires_utf8(bytes: Seq<u8>) -> bool {
    exists|i: int| 0 <= i < bytes.len() && is_ambiguous_byte(#[trigger] bytes[i])
}

/// Reports whether the input is valid UTF-8, and whether it must be considered UTF-8 (i.e. it
/// is not compatible with codepage 437, ASCII or any other common encoding).
pub fn detect_utf8(input: &[u8]) -> (res: (bool, bool))
    ensures
        res.0 == valid_utf8(input@),
        res.1 == (valid_utf8(input@) && requires_utf8(input@)),
{
    if utf8_text(input).is_none() {
        return (false, false);
    }
    let mut k: usize = 0;
    while k < input.len()
        invariant
            k <= input.len(),
            valid_utf8(input@),
            forall|j: int| 0 <= j < k ==> !is_ambiguous_byte(#[trigger] input@[j]),
        decreases input.len() - k,
    {
        let b: u8 = input[k];
        if b < 0x20 || b > 0x7d || b == 0x5c {
            assert(is_ambiguous_byte(input@[k as int]));
            return (true, true);
        }
        k = k + 1;
    }
    (true, false)
}

} // verus!
