//! Little-endian integers, tags and length-prefixed blocks.
use vstd::prelude::*;
use vstd::slice::slice_subrange;

use crate::error::ParseError;

verus! {

/// The unsigned 16-bit little-endian integer at offset `at` of `s`.
pub open spec fn le16(s: Seq<u8>, at: int) -> u16 {
    (s[at] + 0x100 * s[at + 1]) as u16
}

/// The unsigned 32-bit little-endian integer at offset `at` of `s`.
pub open spec fn le32(s: Seq<u8>, at: int) -> u32 {
    (le16(s, at) + 0x1_0000 * le16(s, at + 2)) as u32
}

/// The unsigned 64-bit little-endian integer at offset `at` of `s`.
pub open spec fn le64(s: Seq<u8>, at: int) -> u64 {
    (le32(s, at) + 0x1_0000_0000 * le32(s, at + 4)) as u64
}

/// Whether `s` starts with the four bytes `P`, `K`, `a`, `b`.
pub open spec fn has_signature(s: Seq<u8>, a: u8, b: u8) -> bool {
    &&& s.len() >= 4
    &&& s[0] == 0x50
    &&& s[1] == 0x4b
    &&& s[2] == a
    &&& s[3] == b
}

/// A block of `length` bytes at the start of `s`, after a length prefix: its bytes
/// and what follows it.
pub open spec fn prefixed_block(s: Seq<u8>, length: nat) -> Result<(Seq<u8>, Seq<u8>), ParseError> {
    if s.len() < length {
        Err(ParseError::Incomplete(length as usize))
    } else {
        Ok((s.skip(length as int), s.take(length as int)))
    }
}

pub fn read_u16(i: &[u8], at: usize) -> (v: u16)
    requires
        at + 2 <= i.len(),
    ensures
        v == le16(i@, at as int),
{
    let lo: u16 = i[at] as u16;
    let hi: u16 = i[at + 1] as u16;
    assert(lo + 0x100 * hi <= 0xffff) by (nonlinear_arith)
        requires
            lo <= 0xff,
            hi <= 0xff,
    ;
    lo + 0x100 * hi
}

pub fn read_u32(i: &[u8], at: usize) -> (v: u32)
    requires
        at + 4 <= i.len(),
    ensures
        v == le32(i@, at as int),
{
    let lo: u32 = read_u16(i, at) as u32;
    let hi: u32 = read_u16(i, at + 2) as u32;
    lo + 0x1_0000 * hi
}

pub fn read_u64(i: &[u8], at: usize) -> (v: u64)
    requires
        at + 8 <= i.len(),
    ensures
        v == le64(i@, at as int),
{
    let lo: u64 = read_u32(i, at) as u64;
    let hi: u64 = read_u32(i, at + 4) as u64;
    lo + 0x1_0000_0000 * hi
}

/// Whether the input starts with the four bytes `P`, `K`, `a`, `b`.
pub fn starts_with_signature(i: &[u8], a: u8, b: u8) -> (res: bool)
    ensures
        res == has_signature(i@, a, b),
{
    i.len() >= 4 && i[0] == 0x50 && i[1] == 0x4b && i[2] == a && i[3] == b
}

/// Takes the block of `length` bytes that a length prefix announced.
pub fn take_prefixed<'a>(i: &'a [u8], length: usize) -> (res: Result<(&'a [u8], &'a [u8]), ParseError>)
    ensures
        match res {
            Ok((rest, block)) => prefixed_block(i@, length as nat) == Ok::<_, ParseError>((rest@, block@)),
            Err(e) => prefixed_block(i@, length as nat) == Err::<(Seq<u8>, Seq<u8>), _>(e),
        },
{
    if i.len() < length {
        Err(ParseError::Incomplete(length))
    } else {
        Ok((slice_subrange(i, length, i.len()), slice_subrange(i, 0, length)))
    }
}

} // verus!
