//! Packing the bytes of a container image into native bytes, chunk by
//! chunk.

use crate::bits::{lemma_bit_mask, lemma_join, lemma_nibbles};
use crate::color::{luma, Color};
use crate::image::big_endian::write_u16;
use vstd::arithmetic::div_mod::lemma_fundamental_div_mod_converse;
use vstd::prelude::*;

verus! {

/// The ways in which a run of container bytes becomes native bytes.
/// Each takes chunks of a fixed length and makes one or two bytes of
/// each; bytes left over at the end make nothing.
#[derive(Copy, Clone, Debug, PartialEq, Eq, Structural)]
pub enum Packing {
    /// Two bytes into one: the first moved up by four bits, the second
    /// laid over it.
    JoinNibbles,
    /// Two gray bytes into one: the high half of each.
    HighNibbles,
    /// Two RGBA pixels into one byte: the high half of each brightness.
    LumaNibblesRgba,
    /// Two RGB pixels into one byte: the high half of each brightness.
    LumaNibblesRgb,
    /// One RGBA pixel into its brightness.
    LumaRgba,
    /// One RGB pixel into its brightness.
    LumaRgb,
    /// Two gray-alpha pixels into one byte of two 4-bit codes.
    Ia4Gray,
    /// Two RGBA pixels into one byte of two 4-bit codes.
    Ia4Rgba,
    /// One gray-alpha pixel into one byte: the low half of each sample.
    Ia8Gray,
    /// One RGBA pixel into one byte: the high halves of brightness and
    /// alpha.
    Ia8Rgba,
    /// One RGBA pixel into brightness and alpha.
    Ia16Rgba,
    /// One RGBA pixel into its big-endian 16-bit word.
    Rgba16,
    /// Eight gray bytes into one byte of eight bits, the first on top.
    Bits,
}

/// Number of container bytes that make one chunk.
pub open spec fn chunk_len(kind: Packing) -> int {
    match kind {
        Packing::JoinNibbles | Packing::HighNibbles | Packing::Ia8Gray => 2,
        Packing::LumaRgb => 3,
        Packing::LumaRgba | Packing::Ia4Gray | Packing::Ia8Rgba | Packing::Ia16Rgba
        | Packing::Rgba16 => 4,
        Packing::LumaNibblesRgb => 6,
        Packing::LumaNibblesRgba | Packing::Ia4Rgba | Packing::Bits => 8,
    }
}

/// Number of native bytes that come of one chunk.
pub open spec fn packed_len(kind: Packing) -> int {
    match kind {
        Packing::Ia16Rgba | Packing::Rgba16 => 2,
        _ => 1,
    }
}

/// One byte of the bit patterns of two: `hi` moved up by four bits, with
/// `lo` laid over it.
pub open spec fn join_nibbles(hi: u8, lo: u8) -> u8 {
    (hi << 4) | lo
}

/// The 4-bit code of an intensity and an alpha: the three high bits of
/// the intensity, then one bit that tells whether alpha is over half.
pub open spec fn ia4_code(intensity: int, alpha: u8) -> int {
    intensity / 32 * 2 + if alpha > 127 {
        1int
    } else {
        0int
    }
}

/// `weight` where the gray level is over half, else nothing.
pub open spec fn bit_if_bright(level: u8, weight: int) -> int {
    if level > 127 {
        weight
    } else {
        0
    }
}

/// The native bytes that come of the chunk that starts at `at`.
pub open spec fn pack_chunk(kind: Packing, d: Seq<u8>, at: int) -> Seq<u8> {
    match kind {
        Packing::JoinNibbles => seq![join_nibbles(d[at], d[at + 1])],
        Packing::HighNibbles => seq![(d[at] / 16 * 16 + d[at + 1] / 16) as u8],
        Packing::LumaNibblesRgba => seq![
            (luma(d[at], d[at + 1], d[at + 2]) / 16 * 16 + luma(d[at + 4], d[at + 5], d[at + 6])
                / 16) as u8,
        ],
        Packing::LumaNibblesRgb => seq![
            (luma(d[at], d[at + 1], d[at + 2]) / 16 * 16 + luma(d[at + 3], d[at + 4], d[at + 5])
                / 16) as u8,
        ],
        Packing::LumaRgba | Packing::LumaRgb => seq![luma(d[at], d[at + 1], d[at + 2]) as u8],
        Packing::Ia4Gray => seq![
            (ia4_code(d[at] as int, d[at + 1]) * 16 + ia4_code(d[at + 2] as int, d[at + 3])) as u8,
        ],
        Packing::Ia4Rgba => seq![
            (ia4_code(luma(d[at], d[at + 1], d[at + 2]), d[at + 3]) * 16 + ia4_code(
                luma(d[at + 4], d[at + 5], d[at + 6]),
                d[at + 7],
            )) as u8,
        ],
        Packing::Ia8Gray => seq![(d[at] % 16 * 16 + d[at + 1] % 16) as u8],
        Packing::Ia8Rgba => seq![
            (luma(d[at], d[at + 1], d[at + 2]) / 16 * 16 + d[at + 3] / 16) as u8,
        ],
        Packing::Ia16Rgba => seq![luma(d[at], d[at + 1], d[at + 2]) as u8, d[at + 3]],
        Packing::Rgba16 => {
            let word = (Color { r: d[at], g: d[at + 1], b: d[at + 2], a: d[at + 3] }).spec_to_u16();
            seq![(word / 256) as u8, (word % 256) as u8]
        },
        Packing::Bits => seq![
            (bit_if_bright(d[at], 128) + bit_if_bright(d[at + 1], 64) + bit_if_bright(
                d[at + 2],
                32,
            ) + bit_if_bright(d[at + 3], 16) + bit_if_bright(d[at + 4], 8) + bit_if_bright(
                d[at + 5],
                4,
            ) + bit_if_bright(d[at + 6], 2) + bit_if_bright(d[at + 7], 1)) as u8,
        ],
    }
}

/// The native bytes that come of the first `count` chunks of `d`.
pub open spec fn packed_prefix(kind: Packing, d: Seq<u8>, count: int) -> Seq<u8> {
    Seq::new(
        (count * packed_len(kind)) as nat,
        |x: int| pack_chunk(kind, d, x / packed_len(kind) * chunk_len(kind))[x % packed_len(kind)],
    )
}

/// The native bytes that come of all whole chunks of `d`.
pub open spec fn packed(kind: Packing, d: Seq<u8>) -> Seq<u8> {
    packed_prefix(kind, d, d.len() as int / chunk_len(kind))
}

/// One more chunk adds its bytes.
pub proof fn lemma_packed_step(kind: Packing, d: Seq<u8>, count: int)
    requires
        0 <= count,
    ensures
        packed_prefix(kind, d, count + 1) == packed_prefix(kind, d, count) + pack_chunk(
            kind,
            d,
            count * chunk_len(kind),
        ),
{
    let a = packed_prefix(kind, d, count + 1);
    let b = packed_prefix(kind, d, count) + pack_chunk(kind, d, count * chunk_len(kind));
    let n = packed_len(kind);
    assert((count + 1) * n == count * n + n) by (nonlinear_arith);
    assert(count * n >= 0) by (nonlinear_arith)
        requires
            count >= 0,
            n >= 1,
    ;
    assert(a.len() == b.len());
    assert forall|x: int| 0 <= x < a.len() implies a[x] == b[x] by {
        if x >= count * n {
            if n == 1 {
                assert(x == count);
            } else {
                assert(count * n == 2 * count);
                assert(x / 2 == count);
                assert(x % 2 == x - 2 * count);
            }
        }
    }
    assert(a =~= b);
}

#[inline]
fn u8_to_u4(x: u8) -> (y: u8)
    ensures
        y == x / 16,
{
    proof {
        lemma_nibbles(x);
    }
    x >> 4
}

/// The 4-bit code of an intensity and an alpha.
fn ia4(intensity: u8, alpha: u8) -> (code: u8)
    ensures
        code == ia4_code(intensity as int, alpha),
        code < 16,
{
    assert((intensity >> 5) << 1 == intensity / 32 * 2) by (bit_vector);
    let level: u8 = (intensity >> 5) << 1;
    let opaque: u8 = if alpha > 127 {
        1
    } else {
        0
    };
    assert(level | opaque == level + opaque) by (bit_vector)
        requires
            level % 2 == 0,
            opaque < 2,
    ;
    level | opaque
}

/// The top-down weight of bit `i` where `level` is over half.
fn bright_bit(level: u8, i: u8) -> (bit: u8)
    requires
        i < 8,
    ensures
        bit == bit_if_bright(level, 128) || i != 0,
        bit == bit_if_bright(level, 64) || i != 1,
        bit == bit_if_bright(level, 32) || i != 2,
        bit == bit_if_bright(level, 16) || i != 3,
        bit == bit_if_bright(level, 8) || i != 4,
        bit == bit_if_bright(level, 4) || i != 5,
        bit == bit_if_bright(level, 2) || i != 6,
        bit == bit_if_bright(level, 1) || i != 7,
{
    if level > u8::MAX / 2 {
        let shift: u8 = 7 - i;
        proof {
            lemma_bit_mask(i, shift);
        }
        assert(0x80u8 >> 0u8 == 128 && 0x80u8 >> 1u8 == 64 && 0x80u8 >> 2u8 == 32 && 0x80u8 >> 3u8
            == 16 && 0x80u8 >> 4u8 == 8 && 0x80u8 >> 5u8 == 4 && 0x80u8 >> 6u8 == 2 && 0x80u8
            >> 7u8 == 1) by (bit_vector);
        1 << shift
    } else {
        0
    }
}

/// Number of container bytes that make one chunk.
fn chunk_size(kind: Packing) -> (n: usize)
    ensures
        n == chunk_len(kind),
{
    match kind {
        Packing::JoinNibbles | Packing::HighNibbles | Packing::Ia8Gray => 2,
        Packing::LumaRgb => 3,
        Packing::LumaRgba | Packing::Ia4Gray | Packing::Ia8Rgba | Packing::Ia16Rgba
        | Packing::Rgba16 => 4,
        Packing::LumaNibblesRgb => 6,
        Packing::LumaNibblesRgba | Packing::Ia4Rgba | Packing::Bits => 8,
    }
}

/// Packs the chunk that starts at `at` and appends what comes of it.
fn put_chunk(chunk: &[u8], at: usize, kind: Packing, writer: &mut Vec<u8>)
    requires
        at + chunk_len(kind) <= chunk@.len(),
    ensures
        final(writer)@ == old(writer)@ + pack_chunk(kind, chunk@, at as int),
{
    match kind {
        Packing::JoinNibbles => {
            writer.push(chunk[at] << 4 | chunk[at + 1]);
        },
        Packing::HighNibbles => {
            let hi: u8 = u8_to_u4(chunk[at]);
            let lo: u8 = u8_to_u4(chunk[at + 1]);
            proof {
                lemma_join(hi, lo);
            }
            writer.push(hi << 4 | lo);
        },
        Packing::LumaNibblesRgba => {
            let c1 = Color::RGBA(chunk[at], chunk[at + 1], chunk[at + 2], chunk[at + 3]);
            let i1: u8 = u8_to_u4(c1.rgb_to_intensity());
            let c2 = Color::RGBA(chunk[at + 4], chunk[at + 5], chunk[at + 6], chunk[at + 7]);
            let i2: u8 = u8_to_u4(c2.rgb_to_intensity());
            proof {
                lemma_join(i1, i2);
            }
            writer.push(i1 << 4 | i2);
        },
        Packing::LumaNibblesRgb => {
            let c1 = Color::RGB(chunk[at], chunk[at + 1], chunk[at + 2]);
            let i1: u8 = u8_to_u4(c1.rgb_to_intensity());
            let c2 = Color::RGB(chunk[at + 3], chunk[at + 4], chunk[at + 5]);
            let i2: u8 = u8_to_u4(c2.rgb_to_intensity());
            proof {
                lemma_join(i1, i2);
            }
            writer.push(i1 << 4 | i2);
        },
        Packing::LumaRgba => {
            let c = Color::RGBA(chunk[at], chunk[at + 1], chunk[at + 2], chunk[at + 3]);
            writer.push(c.rgb_to_intensity());
        },
        Packing::LumaRgb => {
            let c = Color::RGB(chunk[at], chunk[at + 1], chunk[at + 2]);
            writer.push(c.rgb_to_intensity());
        },
        Packing::Ia4Gray => {
            let high: u8 = ia4(chunk[at], chunk[at + 1]);
            let low: u8 = ia4(chunk[at + 2], chunk[at + 3]);
            proof {
                lemma_join(high, low);
            }
            writer.push(high << 4 | (low & 0xF));
        },
        Packing::Ia4Rgba => {
            let c1 = Color::RGBA(chunk[at], chunk[at + 1], chunk[at + 2], chunk[at + 3]);
            let high: u8 = ia4(c1.rgb_to_intensity(), c1.a);
            let c2 = Color::RGBA(chunk[at + 4], chunk[at + 5], chunk[at + 6], chunk[at + 7]);
            let low: u8 = ia4(c2.rgb_to_intensity(), c2.a);
            proof {
                lemma_join(high, low);
            }
            writer.push(high << 4 | (low & 0xF));
        },
        Packing::Ia8Gray => {
            let i: u8 = chunk[at];
            let a: u8 = chunk[at + 1];
            assert(i << 4 | (a & 0x0F) == i % 16 * 16 + a % 16) by (bit_vector);
            writer.push(i << 4 | (a & 0x0F));
        },
        Packing::Ia8Rgba => {
            let c = Color::RGBA(chunk[at], chunk[at + 1], chunk[at + 2], chunk[at + 3]);
            let y: u8 = c.rgb_to_intensity();
            let alpha: u8 = c.a;
            proof {
                lemma_nibbles(y);
                lemma_nibbles(alpha);
            }
            let i: u8 = (y >> 4) & 0xF;
            let a: u8 = (alpha >> 4) & 0xF;
            proof {
                lemma_join(i, a);
            }
            writer.push(i << 4 | a);
        },
        Packing::Ia16Rgba => {
            let c = Color::RGBA(chunk[at], chunk[at + 1], chunk[at + 2], chunk[at + 3]);
            let i: u8 = c.rgb_to_intensity();
            let a: u8 = c.a;
            writer.push(i);
            writer.push(a);
        },
        Packing::Rgba16 => {
            let color = Color::RGBA(chunk[at], chunk[at + 1], chunk[at + 2], chunk[at + 3]);
            let word: [u8; 2] = write_u16(color.to_u16());
            writer.push(word[0]);
            writer.push(word[1]);
        },
        Packing::Bits => {
            let b0: u8 = bright_bit(chunk[at], 0);
            let b1: u8 = bright_bit(chunk[at + 1], 1);
            let b2: u8 = bright_bit(chunk[at + 2], 2);
            let b3: u8 = bright_bit(chunk[at + 3], 3);
            let b4: u8 = bright_bit(chunk[at + 4], 4);
            let b5: u8 = bright_bit(chunk[at + 5], 5);
            let b6: u8 = bright_bit(chunk[at + 6], 6);
            let b7: u8 = bright_bit(chunk[at + 7], 7);
            assert(b0 | b1 | b2 | b3 | b4 | b5 | b6 | b7 == b0 + b1 + b2 + b3 + b4 + b5 + b6 + b7)
                by (bit_vector)
                requires
                    b0 == 0 || b0 == 128,
                    b1 == 0 || b1 == 64,
                    b2 == 0 || b2 == 32,
                    b3 == 0 || b3 == 16,
                    b4 == 0 || b4 == 8,
                    b5 == 0 || b5 == 4,
                    b6 == 0 || b6 == 2,
                    b7 == 0 || b7 == 1,
            ;
            writer.push(b0 | b1 | b2 | b3 | b4 | b5 | b6 | b7);
        },
    }
    assert(writer@ =~= old(writer)@ + pack_chunk(kind, chunk@, at as int));
}

/// Packs all whole chunks of `data` and appends what comes of them.
pub(crate) fn pack(data: &[u8], kind: Packing, writer: &mut Vec<u8>)
    ensures
        final(writer)@ == old(writer)@ + packed(kind, data@),
{
    let step: usize = chunk_size(kind);
    let ghost base = writer@;
    let ghost mut count: int = 0;
    let mut at: usize = 0;
    assert(writer@ =~= base + packed_prefix(kind, data@, 0));
    while data.len() - at >= step
        invariant
            step == chunk_len(kind),
            0 <= count,
            at == count * step,
            at <= data@.len(),
            writer@ == base + packed_prefix(kind, data@, count),
        decreases data@.len() - at,
    {
        proof {
            lemma_packed_step(kind, data@, count);
            assert((count + 1) * step == count * step + step) by (nonlinear_arith);
        }
        put_chunk(data, at, kind, writer);
        at += step;
        proof {
            count = count + 1;
        }
    }
    proof {
        lemma_fundamental_div_mod_converse(
            data@.len() as int,
            step as int,
            count,
            data@.len() - at,
        );
    }
}

/// Appends all of `data`.
pub(crate) fn put_all(data: &[u8], writer: &mut Vec<u8>)
    ensures
        final(writer)@ == old(writer)@ + data@,
{
    writer.extend_from_slice(data);
    assert(writer@ =~= old(writer)@ + data@);
}

} // verus!
