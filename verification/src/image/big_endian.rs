//! Big-endian words, read and written by the `byteorder` crate.

use byteorder::{BigEndian, ByteOrder};
use vstd::prelude::*;

verus! {

/// The 16-bit word whose high byte is `hi` and whose low byte is `lo`.
pub open spec fn word16(hi: u8, lo: u8) -> u16 {
    (hi * 0x100 + lo) as u16
}

/// The 32-bit word made of four bytes, the highest first.
pub open spec fn word32(b0: u8, b1: u8, b2: u8, b3: u8) -> u32 {
    (b0 * 0x100_0000 + b1 * 0x1_0000 + b2 * 0x100 + b3) as u32
}

/// The two bytes of a 16-bit word are its quotient and remainder by 256.
pub proof fn lemma_word16_bytes(hi: u8, lo: u8)
    ensures
        word16(hi, lo) / 0x100 == hi,
        word16(hi, lo) % 0x100 == lo,
{
}

/// `byteorder::BigEndian::read_u16`: the word held by the first two bytes
/// of `buf`, high byte first. The outside function panics on a shorter
/// buffer, which the precondition rules out.
#[verifier::external_body]
pub(crate) fn read_u16(buf: &[u8]) -> (word: u16)
    requires
        buf@.len() >= 2,
    ensures
        word == word16(buf@[0], buf@[1]),
{
    BigEndian::read_u16(buf)
}

/// `byteorder::BigEndian::read_u32`: the word held by the first four
/// bytes of `buf`, highest byte first. The outside function panics on a
/// shorter buffer, which the precondition rules out.
#[verifier::external_body]
pub(crate) fn read_u32(buf: &[u8]) -> (word: u32)
    requires
        buf@.len() >= 4,
    ensures
        word == word32(buf@[0], buf@[1], buf@[2], buf@[3]),
{
    BigEndian::read_u32(buf)
}

/// `byteorder::BigEndian::write_u16` into a buffer of two bytes: the high
/// byte of `word` comes first, the low byte second.
#[verifier::external_body]
pub(crate) fn write_u16(word: u16) -> (bytes: [u8; 2])
    ensures
        bytes@[0] == word / 0x100,
        bytes@[1] == word % 0x100,
{
    let mut bytes = [0u8; 2];
    BigEndian::write_u16(&mut bytes, word);
    bytes
}

} // verus!
