//! Facts about the halves and bits of a byte, in terms of arithmetic.

use vstd::prelude::*;

verus! {

/// The two halves of a byte, as masks and shifts give them.
pub proof fn lemma_nibbles(byte: u8)
    by (bit_vector)
    ensures
        byte >> 4 == byte / 16,
        (byte >> 4) & 0x0F == byte / 16,
        (byte & 0xF0) >> 4 == byte / 16,
        byte & 0x0F == byte % 16,
        byte & 0xF0 == byte / 16 * 16,
        (byte & 0x0F) << 4 == byte % 16 * 16,
{
}

/// Two halves put together into one byte.
pub proof fn lemma_join(hi: u8, lo: u8)
    by (bit_vector)
    requires
        hi < 16,
        lo < 16,
    ensures
        hi << 4 | lo == hi * 16 + lo,
        hi << 4 | (lo & 0xF) == hi * 16 + lo,
{
}

/// The mask of bit `i` from the top, made by moving a one up or the top
/// bit down.
pub proof fn lemma_bit_mask(i: u8, shift: u8)
    by (bit_vector)
    requires
        i < 8,
        shift == 7 - i,
    ensures
        1u8 << shift == 0x80u8 >> i,
{
}

} // verus!
