//! What survives the way from one representation to the other and back.

use crate::color::{lemma_luma_of_gray, lemma_u16_round_trip, lemma_u32_channels, Color};
use crate::image::big_endian::{lemma_word16_bytes, word16};
use crate::image::native_image::{
    bit_from_top, decoding, is_indexed, lemma_first_failure, packed_size, pixel_color,
    pixel_count, pixel_error, pixels, pixels_per_unit, png_source, unit_len, unit_start,
    units_per_row,
};
use crate::image::packing::{bit_if_bright, chunk_len, pack_chunk, packed, packed_len, Packing};
use crate::image::png_image::{native_bytes, BitDepth, ColorType, Frame};
use crate::image::tlut::{
    compact_palette, compact_prefix, entry_word, expanded_tlut, palette_alpha, palette_rgb,
    parsed_tlut, tlut_color,
};
use crate::{Error, ImageSize, ImageType, TextureLUT};
use vstd::prelude::*;

verus! {

/// Entry `e` of an expanded palette holds the channels of the color of
/// entry `e` of the compact one.
pub proof fn lemma_expanded_entry(bytes: Seq<u8>, entries: int, e: int)
    requires
        0 <= e < entries,
    ensures
        expanded_tlut(bytes, entries).len() == 4 * entries,
        expanded_tlut(bytes, entries)[4 * e] == tlut_color(bytes, e).r,
        expanded_tlut(bytes, entries)[4 * e + 1] == tlut_color(bytes, e).g,
        expanded_tlut(bytes, entries)[4 * e + 2] == tlut_color(bytes, e).b,
        expanded_tlut(bytes, entries)[4 * e + 3] == tlut_color(bytes, e).a,
{
    assert((4 * e) / 4 == e && (4 * e + 1) / 4 == e);
    assert((4 * e + 2) / 4 == e && (4 * e + 3) / 4 == e);
    assert((4 * e) % 4 == 0 && (4 * e + 1) % 4 == 1);
    assert((4 * e + 2) % 4 == 2 && (4 * e + 3) % 4 == 3);
}

/// The two chunks that a palette of four bytes per entry is split into
/// hold, for entry `e`, its three color bytes and its alpha byte.
pub proof fn lemma_split_entry(table: Seq<u8>, e: int)
    requires
        0 <= e,
        4 * e + 4 <= table.len(),
    ensures
        3 * e + 3 <= palette_rgb(table).len(),
        e < palette_alpha(table).len(),
        palette_rgb(table)[3 * e] == table[4 * e],
        palette_rgb(table)[3 * e + 1] == table[4 * e + 1],
        palette_rgb(table)[3 * e + 2] == table[4 * e + 2],
        palette_alpha(table)[e] == table[4 * e + 3],
{
    assert((3 * e) / 3 == e && (3 * e + 1) / 3 == e && (3 * e + 2) / 3 == e);
    assert((3 * e) % 3 == 0 && (3 * e + 1) % 3 == 1 && (3 * e + 2) % 3 == 2);
}

/// The word that is packed for entry `e` of an expanded and split
/// palette is the word that the compact palette held for it.
pub proof fn lemma_entry_word_back(bytes: Seq<u8>, entries: int, e: int)
    requires
        0 <= e < entries,
    ensures
        entry_word(
            palette_rgb(expanded_tlut(bytes, entries)),
            Some(palette_alpha(expanded_tlut(bytes, entries))),
            e,
        ) == word16(bytes[2 * e], bytes[2 * e + 1]),
{
    let table = expanded_tlut(bytes, entries);
    let rgb = palette_rgb(table);
    let alpha = palette_alpha(table);
    let color = tlut_color(bytes, e);
    lemma_expanded_entry(bytes, entries, e);
    lemma_split_entry(table, e);
    assert((Color { r: rgb[3 * e], g: rgb[3 * e + 1], b: rgb[3 * e + 2], a: alpha[e] }) == color);
    lemma_u16_round_trip(word16(bytes[2 * e], bytes[2 * e + 1]));
}

/// The chunks of `entries` expanded entries pack into the words that
/// the entries came from.
pub proof fn lemma_compact_back(bytes: Seq<u8>, entries: int)
    requires
        0 <= entries,
        2 * entries <= bytes.len(),
    ensures
        compact_palette(
            palette_rgb(expanded_tlut(bytes, entries)),
            Some(palette_alpha(expanded_tlut(bytes, entries))),
        ) == bytes.take(2 * entries),
{
    let table = expanded_tlut(bytes, entries);
    let rgb = palette_rgb(table);
    let alpha = Some(palette_alpha(table));
    assert(table.len() == 4 * entries);
    assert(rgb.len() == 3 * entries);
    let back = compact_prefix(rgb, alpha, entries);
    assert(compact_palette(rgb, alpha) == back);
    assert(back.len() == 2 * entries);
    assert forall|x: int| 0 <= x < 2 * entries implies back[x] == bytes[x] by {
        let e = x / 2;
        let word = entry_word(rgb, alpha, e);
        lemma_entry_word_back(bytes, entries, e);
        lemma_word16_bytes(bytes[2 * e], bytes[2 * e + 1]);
        assert(word == word16(bytes[2 * e], bytes[2 * e + 1]));
        if x % 2 == 0 {
            assert(x == 2 * e);
            assert(back[x] == (word / 256) as u8);
        } else {
            assert(x == 2 * e + 1);
            assert(back[x] == (word % 256) as u8);
        }
    }
    assert(back =~= bytes.take(2 * entries));
}

/// A compact palette that is expanded, split into the two palette
/// chunks of a PNG and packed again comes back byte for byte, as far
/// as it was read.
pub proof fn lemma_palette_round_trip(bytes: Seq<u8>, size: ImageSize)
    requires
        parsed_tlut(bytes, size, TextureLUT::Rgba16) is Ok,
    ensures
        compact_palette(
            palette_rgb(parsed_tlut(bytes, size, TextureLUT::Rgba16)->Ok_0),
            Some(palette_alpha(parsed_tlut(bytes, size, TextureLUT::Rgba16)->Ok_0)),
        ) == bytes.take(2 * size.spec_tlut_size()->Some_0),
{
    let entries = size.spec_tlut_size()->Some_0 as int;
    assert(parsed_tlut(bytes, size, TextureLUT::Rgba16) == Ok::<Seq<u8>, Error>(
        expanded_tlut(bytes, entries),
    ));
    lemma_compact_back(bytes, entries);
}

/// The sizes of an image in pixels and in bytes, by its number of
/// units: `p` pixels and `l` bytes for each.
pub proof fn lemma_sizes(format: ImageType, width: u32, height: u32, p: int, l: int) -> (units: int)
    requires
        p == pixels_per_unit(format),
        l == unit_len(format),
    ensures
        0 <= units,
        pixel_count(format, width, height) == units * p,
        packed_size(format, width, height) == units * l,
{
    let units = height * units_per_row(format, width);
    assert(0 <= units) by (nonlinear_arith)
        requires
            units == height * units_per_row(format, width),
            0 <= units_per_row(format, width),
    ;
    units
}

/// Where pixel `k` lies, with `p` pixels and `l` bytes to the unit.
pub proof fn lemma_place(format: ImageType, k: int, p: int, l: int)
    requires
        p == pixels_per_unit(format),
        l == unit_len(format),
    ensures
        unit_start(format, k) == k / p * l,
        k % pixels_per_unit(format) == k % p,
{
}

/// An image that is not indexed and whose data holds all its units
/// decodes without error, to all its pixels.
pub proof fn lemma_decodes_whole(format: ImageType, width: u32, height: u32, data: Seq<u8>)
    requires
        !is_indexed(format),
        packed_size(format, width, height) <= data.len(),
    ensures
        0 <= pixel_count(format, width, height),
        decoding(format, width, height, data, None).error is None,
        decoding(format, width, height, data, None).pixels == pixels(
            format,
            data,
            Seq::empty(),
            pixel_count(format, width, height),
        ),
{
    let p = pixels_per_unit(format);
    let l = unit_len(format);
    let units = lemma_sizes(format, width, height, p, l);
    let n = pixel_count(format, width, height);
    assert(0 <= n) by (nonlinear_arith)
        requires
            n == units * p,
            0 <= units,
            0 < p,
    ;
    assert forall|k: int| 0 <= k < n implies pixel_error(format, data, Seq::empty(), k)
        is None by {
        let u = k / p;
        assert(0 <= u < units) by (nonlinear_arith)
            requires
                0 <= k < units * p,
                0 < p,
                u == k / p,
        ;
        assert(u * l + l <= units * l) by (nonlinear_arith)
            requires
                u + 1 <= units,
                0 < l,
        ;
    }
    lemma_first_failure(format, data, Seq::empty(), 0, n, n);
}

/// Byte `c` of pixel `k` among the decoded bytes.
pub proof fn lemma_pixel_bytes(format: ImageType, data: Seq<u8>, tlut: Seq<u8>, count: int, k: int)
    requires
        0 <= k < count,
    ensures
        pixels(format, data, tlut, count).len() == 4 * count,
        pixels(format, data, tlut, count)[4 * k] == pixel_color(format, data, tlut, k).r,
        pixels(format, data, tlut, count)[4 * k + 1] == pixel_color(format, data, tlut, k).g,
        pixels(format, data, tlut, count)[4 * k + 2] == pixel_color(format, data, tlut, k).b,
        pixels(format, data, tlut, count)[4 * k + 3] == pixel_color(format, data, tlut, k).a,
{
    assert((4 * k) / 4 == k && (4 * k + 1) / 4 == k);
    assert((4 * k + 2) / 4 == k && (4 * k + 3) / 4 == k);
    assert((4 * k) % 4 == 0 && (4 * k + 1) % 4 == 1);
    assert((4 * k + 2) % 4 == 2 && (4 * k + 3) % 4 == 3);
}

/// Byte `x` of what packing gives, with chunks of `c` bytes that make
/// `m` bytes each.
pub proof fn lemma_packed_at(kind: Packing, d: Seq<u8>, x: int, c: int, m: int)
    requires
        c == chunk_len(kind),
        m == packed_len(kind),
        0 <= x < d.len() as int / c * m,
    ensures
        packed(kind, d).len() == d.len() as int / c * m,
        packed(kind, d)[x] == pack_chunk(kind, d, x / m * c)[x % m],
{
}

/// The RGBA8 frame that an image which is not indexed is written as.
pub open spec fn rgba_frame(format: ImageType, width: u32, height: u32, data: Seq<u8>) -> Frame {
    Frame {
        data: pixels(format, data, Seq::empty(), pixel_count(format, width, height)),
        color_type: ColorType::Rgba,
        bit_depth: BitDepth::Eight,
        width,
        height,
    }
}

/// Whether the frame that the image is written as gives the image's
/// own bytes back.
pub open spec fn comes_back(format: ImageType, width: u32, height: u32, data: Seq<u8>) -> bool {
    native_bytes(rgba_frame(format, width, height, data), format) == Ok::<Seq<u8>, Error>(
        data.take(packed_size(format, width, height)),
    )
}

proof fn lemma_back_i8(width: u32, height: u32, data: Seq<u8>)
    requires
        packed_size(ImageType::I8, width, height) <= data.len(),
    ensures
        comes_back(ImageType::I8, width, height, data),
{
    let format = ImageType::I8;
    let units = lemma_sizes(format, width, height, 1, 1);
    let decoded = pixels(format, data, Seq::empty(), units);
    let out = packed(Packing::LumaRgba, decoded);
    assert(decoded.len() == 4 * units);
    assert forall|x: int| 0 <= x < units implies out[x] == data[x] by {
        lemma_packed_at(Packing::LumaRgba, decoded, x, 4, 1);
        lemma_pixel_bytes(format, data, Seq::empty(), units, x);
        lemma_place(format, x, 1, 1);
        lemma_luma_of_gray(data[x]);
    }
    assert(out.len() == units);
    assert(out =~= data.take(units));
}

proof fn lemma_back_ia8(width: u32, height: u32, data: Seq<u8>)
    requires
        packed_size(ImageType::Ia8, width, height) <= data.len(),
    ensures
        comes_back(ImageType::Ia8, width, height, data),
{
    let format = ImageType::Ia8;
    let units = lemma_sizes(format, width, height, 1, 1);
    let decoded = pixels(format, data, Seq::empty(), units);
    let out = packed(Packing::Ia8Rgba, decoded);
    assert(decoded.len() == 4 * units);
    assert forall|x: int| 0 <= x < units implies out[x] == data[x] by {
        lemma_packed_at(Packing::Ia8Rgba, decoded, x, 4, 1);
        lemma_pixel_bytes(format, data, Seq::empty(), units, x);
        lemma_place(format, x, 1, 1);
        lemma_luma_of_gray((data[x] / 16 * 16) as u8);
    }
    assert(out.len() == units);
    assert(out =~= data.take(units));
}

proof fn lemma_back_ia16(width: u32, height: u32, data: Seq<u8>)
    requires
        packed_size(ImageType::Ia16, width, height) <= data.len(),
    ensures
        comes_back(ImageType::Ia16, width, height, data),
{
    let format = ImageType::Ia16;
    let units = lemma_sizes(format, width, height, 1, 2);
    let decoded = pixels(format, data, Seq::empty(), units);
    let out = packed(Packing::Ia16Rgba, decoded);
    assert(decoded.len() == 4 * units);
    assert forall|x: int| 0 <= x < 2 * units implies out[x] == data[x] by {
        let k = x / 2;
        lemma_packed_at(Packing::Ia16Rgba, decoded, x, 4, 2);
        lemma_pixel_bytes(format, data, Seq::empty(), units, k);
        lemma_place(format, k, 1, 2);
        lemma_luma_of_gray(data[2 * k]);
    }
    assert(out.len() == 2 * units);
    assert(out =~= data.take(2 * units));
}

proof fn lemma_back_rgba16(width: u32, height: u32, data: Seq<u8>)
    requires
        packed_size(ImageType::Rgba16, width, height) <= data.len(),
    ensures
        comes_back(ImageType::Rgba16, width, height, data),
{
    let format = ImageType::Rgba16;
    let units = lemma_sizes(format, width, height, 1, 2);
    let decoded = pixels(format, data, Seq::empty(), units);
    let out = packed(Packing::Rgba16, decoded);
    assert(decoded.len() == 4 * units);
    assert forall|x: int| 0 <= x < 2 * units implies out[x] == data[x] by {
        let k = x / 2;
        let word = word16(data[2 * k], data[2 * k + 1]);
        lemma_packed_at(Packing::Rgba16, decoded, x, 4, 2);
        lemma_pixel_bytes(format, data, Seq::empty(), units, k);
        lemma_place(format, k, 1, 2);
        lemma_u16_round_trip(word);
        lemma_word16_bytes(data[2 * k], data[2 * k + 1]);
        let c = pixel_color(format, data, Seq::empty(), k);
        assert(c == Color::spec_from_u16(word));
        let read = Color {
            r: decoded[4 * k],
            g: decoded[4 * k + 1],
            b: decoded[4 * k + 2],
            a: decoded[4 * k + 3],
        };
        assert(read == c);
    }
    assert(out.len() == 2 * units);
    assert(out =~= data.take(2 * units));
}

proof fn lemma_back_rgba32(width: u32, height: u32, data: Seq<u8>)
    requires
        packed_size(ImageType::Rgba32, width, height) <= data.len(),
    ensures
        comes_back(ImageType::Rgba32, width, height, data),
{
    let format = ImageType::Rgba32;
    let units = lemma_sizes(format, width, height, 1, 4);
    let decoded = pixels(format, data, Seq::empty(), units);
    assert(decoded.len() == 4 * units);
    assert forall|x: int| 0 <= x < 4 * units implies decoded[x] == data[x] by {
        let k = x / 4;
        lemma_pixel_bytes(format, data, Seq::empty(), units, k);
        lemma_place(format, k, 1, 4);
        lemma_u32_channels(data[4 * k], data[4 * k + 1], data[4 * k + 2], data[4 * k + 3]);
    }
    assert(decoded =~= data.take(4 * units));
}

#[verifier::rlimit(30)]
proof fn lemma_back_i4(width: u32, height: u32, data: Seq<u8>)
    requires
        packed_size(ImageType::I4, width, height) <= data.len(),
    ensures
        comes_back(ImageType::I4, width, height, data),
{
    let format = ImageType::I4;
    let units = lemma_sizes(format, width, height, 2, 1);
    let decoded = pixels(format, data, Seq::empty(), 2 * units);
    let out = packed(Packing::LumaNibblesRgba, decoded);
    assert(decoded.len() == 8 * units);
    assert forall|x: int| 0 <= x < units implies out[x] == data[x] by {
        lemma_packed_at(Packing::LumaNibblesRgba, decoded, x, 8, 1);
        lemma_pixel_bytes(format, data, Seq::empty(), 2 * units, 2 * x);
        lemma_pixel_bytes(format, data, Seq::empty(), 2 * units, 2 * x + 1);
        lemma_place(format, 2 * x, 2, 1);
        lemma_place(format, 2 * x + 1, 2, 1);
        lemma_luma_of_gray((data[x] / 16 * 16) as u8);
        lemma_luma_of_gray((data[x] % 16 * 16) as u8);
    }
    assert(out.len() == units);
    assert(out =~= data.take(units));
}

#[verifier::rlimit(30)]
proof fn lemma_back_ia4(width: u32, height: u32, data: Seq<u8>)
    requires
        packed_size(ImageType::Ia4, width, height) <= data.len(),
    ensures
        comes_back(ImageType::Ia4, width, height, data),
{
    let format = ImageType::Ia4;
    let units = lemma_sizes(format, width, height, 2, 1);
    let decoded = pixels(format, data, Seq::empty(), 2 * units);
    let out = packed(Packing::Ia4Rgba, decoded);
    assert(decoded.len() == 8 * units);
    assert forall|x: int| 0 <= x < units implies out[x] == data[x] by {
        lemma_packed_at(Packing::Ia4Rgba, decoded, x, 8, 1);
        lemma_pixel_bytes(format, data, Seq::empty(), 2 * units, 2 * x);
        lemma_pixel_bytes(format, data, Seq::empty(), 2 * units, 2 * x + 1);
        lemma_place(format, 2 * x, 2, 1);
        lemma_place(format, 2 * x + 1, 2, 1);
        lemma_luma_of_gray((data[x] / 16 / 2 * 32) as u8);
        lemma_luma_of_gray((data[x] % 16 / 2 * 32) as u8);
    }
    assert(out.len() == units);
    assert(out =~= data.take(units));
}

/// `weight` where bit `i` of `b` is set, counted from the top, else
/// nothing.
pub open spec fn bit_weight(b: u8, i: u8, weight: int) -> int {
    if bit_from_top(b, i) {
        weight
    } else {
        0
    }
}

/// A byte is the sum of the weights of its set bits.
proof fn lemma_bits_of_byte(b: u8)
    ensures
        b == bit_weight(b, 0, 128) + bit_weight(b, 1, 64) + bit_weight(b, 2, 32) + bit_weight(
            b,
            3,
            16,
        ) + bit_weight(b, 4, 8) + bit_weight(b, 5, 4) + bit_weight(b, 6, 2) + bit_weight(b, 7, 1),
{
    assert(b == (b & 0x80) + (b & 0x40) + (b & 0x20) + (b & 0x10) + (b & 0x08) + (b & 0x04) + (b
        & 0x02) + (b & 0x01)) by (bit_vector);
    assert(b & 0x80 == (if b & (0x80u8 >> 0u8) != 0 { 128u8 } else { 0u8 }) && b & 0x40 == (if b & (
        0x80u8 >> 1u8) != 0 { 64u8 } else { 0u8 }) && b & 0x20 == (if b & (0x80u8 >> 2u8) != 0 {
        32u8
    } else {
        0u8
    }) && b & 0x10 == (if b & (0x80u8 >> 3u8) != 0 { 16u8 } else { 0u8 })) by (bit_vector);
    assert(b & 0x08 == (if b & (0x80u8 >> 4u8) != 0 { 8u8 } else { 0u8 }) && b & 0x04 == (if b & (
        0x80u8 >> 5u8) != 0 { 4u8 } else { 0u8 }) && b & 0x02 == (if b & (0x80u8 >> 6u8) != 0 {
        2u8
    } else {
        0u8
    }) && b & 0x01 == (if b & (0x80u8 >> 7u8) != 0 { 1u8 } else { 0u8 })) by (bit_vector);
}

/// The gray level that pixel `8 * x + i` of a one-bit image decodes to
/// is over half exactly where bit `i` of byte `x` is set.
proof fn lemma_level_of_bit(data: Seq<u8>, count: int, x: int, i: int)
    requires
        0 <= x,
        0 <= i < 8,
        8 * x + i < count,
    ensures
        packed(Packing::LumaRgba, pixels(ImageType::I1, data, Seq::empty(), count))[8 * x + i] > 127
            <==> bit_from_top(data[x], i as u8),
        packed(Packing::LumaRgba, pixels(ImageType::I1, data, Seq::empty(), count)).len() == count,
{
    let format = ImageType::I1;
    let decoded = pixels(format, data, Seq::empty(), count);
    let k = 8 * x + i;
    assert(decoded.len() == 4 * count);
    lemma_packed_at(Packing::LumaRgba, decoded, k, 4, 1);
    lemma_pixel_bytes(format, data, Seq::empty(), count, k);
    lemma_place(format, k, 8, 1);
    lemma_luma_of_gray(0);
    lemma_luma_of_gray(255);
}

/// Eight gray levels that are over half exactly where the bits of a
/// byte are set pack into that byte.
proof fn lemma_bits_chunk(levels: Seq<u8>, at: int, b: u8)
    requires
        0 <= at,
        at + 8 <= levels.len(),
        forall|i: int|
            0 <= i < 8 ==> (#[trigger] levels[at + i] > 127 <==> bit_from_top(b, i as u8)),
    ensures
        pack_chunk(Packing::Bits, levels, at) == seq![b],
{
    lemma_bits_of_byte(b);
    assert(bit_if_bright(levels[at + 0], 128) == bit_weight(b, 0, 128));
    assert(bit_if_bright(levels[at + 1], 64) == bit_weight(b, 1, 64));
    assert(bit_if_bright(levels[at + 2], 32) == bit_weight(b, 2, 32));
    assert(bit_if_bright(levels[at + 3], 16) == bit_weight(b, 3, 16));
    assert(bit_if_bright(levels[at + 4], 8) == bit_weight(b, 4, 8));
    assert(bit_if_bright(levels[at + 5], 4) == bit_weight(b, 5, 4));
    assert(bit_if_bright(levels[at + 6], 2) == bit_weight(b, 6, 2));
    assert(bit_if_bright(levels[at + 7], 1) == bit_weight(b, 7, 1));
    assert(pack_chunk(Packing::Bits, levels, at) =~= seq![b]);
}

#[verifier::rlimit(30)]
proof fn lemma_back_i1(width: u32, height: u32, data: Seq<u8>)
    requires
        packed_size(ImageType::I1, width, height) <= data.len(),
    ensures
        comes_back(ImageType::I1, width, height, data),
{
    let format = ImageType::I1;
    let units = lemma_sizes(format, width, height, 8, 1);
    let decoded = pixels(format, data, Seq::empty(), 8 * units);
    let levels = packed(Packing::LumaRgba, decoded);
    let out = packed(Packing::Bits, levels);
    assert(levels.len() == 8 * units) by {
        if units > 0 {
            lemma_level_of_bit(data, 8 * units, 0, 0);
        } else {
            assert(decoded.len() == 0);
        }
    }
    assert forall|x: int| 0 <= x < units implies out[x] == data[x] by {
        assert forall|i: int| 0 <= i < 8 implies (#[trigger] levels[8 * x + i] > 127
            <==> bit_from_top(data[x], i as u8)) by {
            lemma_level_of_bit(data, 8 * units, x, i);
        }
        lemma_bits_chunk(levels, 8 * x, data[x]);
        lemma_packed_at(Packing::Bits, levels, x, 8, 1);
    }
    assert(out.len() == units);
    assert(out =~= data.take(units));
}

/// Round trip: the frame that a native image is written as gives the
/// image's own bytes back when it is converted to the image's format.
/// This holds of every format, for data that holds the whole image; an
/// indexed image needs its palette to be written at all. Bytes beyond
/// the image's size are not written, and so do not come back.
pub proof fn lemma_native_round_trip(
    format: ImageType,
    width: u32,
    height: u32,
    data: Seq<u8>,
    tlut: Option<Seq<u8>>,
)
    requires
        packed_size(format, width, height) <= data.len(),
        is_indexed(format) ==> tlut is Some,
    ensures
        png_source(format, width, height, data, tlut) is Ok,
        native_bytes(png_source(format, width, height, data, tlut)->Ok_0.frame, format) == Ok::<
            Seq<u8>,
            Error,
        >(data.take(packed_size(format, width, height))),
{
    if !is_indexed(format) {
        lemma_decodes_whole(format, width, height, data);
        match format {
            ImageType::I1 => lemma_back_i1(width, height, data),
            ImageType::I4 => lemma_back_i4(width, height, data),
            ImageType::I8 => lemma_back_i8(width, height, data),
            ImageType::Ia4 => lemma_back_ia4(width, height, data),
            ImageType::Ia8 => lemma_back_ia8(width, height, data),
            ImageType::Ia16 => lemma_back_ia16(width, height, data),
            ImageType::Rgba16 => lemma_back_rgba16(width, height, data),
            _ => lemma_back_rgba32(width, height, data),
        }
    }
}

} // verus!
