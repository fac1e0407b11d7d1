//! Palettes: the compact table of 16-bit entries, the table of four
//! bytes per entry that decoding looks colors up in, and the two palette
//! chunks of a PNG.

use crate::color::Color;
use crate::image::big_endian::{read_u16, word16, write_u16};
use crate::image::native_image::{put_rgba, rgba_bytes};
use crate::image::png_io::{png_palette, read_png_palette};
use crate::{Error, ImageSize, IoError, TextureLUT};
use vstd::prelude::*;
use vstd::slice::slice_subrange;

verus! {

/// Entry `index` of a palette of four bytes per entry.
pub open spec fn palette_entry(tlut: Seq<u8>, index: int) -> Color {
    Color {
        r: tlut[4 * index],
        g: tlut[4 * index + 1],
        b: tlut[4 * index + 2],
        a: tlut[4 * index + 3],
    }
}

/// Reads an RGBA color from a palette of four bytes per entry.
pub fn get_tlut_color_at_index(tlut_color_table: &[u8], index: u8) -> (r: Result<[u8; 4], Error>)
    ensures
        4 * index + 4 <= tlut_color_table@.len() ==> r is Ok && r->Ok_0@ == rgba_bytes(
            palette_entry(tlut_color_table@, index as int),
        ),
        4 * index + 4 > tlut_color_table@.len() ==> r == Err::<[u8; 4], Error>(
            Error::TlutIndexOutOfBounds,
        ),
{
    let start: usize = (index as usize) * 4;
    if tlut_color_table.len() < 4 || start > tlut_color_table.len() - 4 {
        return Err(Error::TlutIndexOutOfBounds);
    }
    let r: u8 = tlut_color_table[start];
    let g: u8 = tlut_color_table[start + 1];
    let b: u8 = tlut_color_table[start + 2];
    let a: u8 = tlut_color_table[start + 3];

    let entry: [u8; 4] = [r, g, b, a];
    assert(entry@ =~= rgba_bytes(palette_entry(tlut_color_table@, index as int)));
    Ok(entry)
}

/// Color of entry `e` of a compact palette of one 16-bit word per
/// entry.
pub open spec fn tlut_color(bytes: Seq<u8>, e: int) -> Color {
    Color::spec_from_u16(word16(bytes[2 * e], bytes[2 * e + 1]))
}

/// The first `entries` entries of a compact palette, as four bytes of
/// red, green, blue and alpha each.
pub open spec fn expanded_tlut(bytes: Seq<u8>, entries: int) -> Seq<u8> {
    Seq::new((4 * entries) as nat, |j: int| rgba_bytes(tlut_color(bytes, j / 4))[j % 4])
}

/// One more entry adds its four bytes.
pub proof fn lemma_expanded_tlut_step(bytes: Seq<u8>, entries: int)
    requires
        0 <= entries,
    ensures
        expanded_tlut(bytes, entries + 1) == expanded_tlut(bytes, entries) + rgba_bytes(
            tlut_color(bytes, entries),
        ),
{
    let a = expanded_tlut(bytes, entries + 1);
    let b = expanded_tlut(bytes, entries) + rgba_bytes(tlut_color(bytes, entries));
    assert forall|j: int| 0 <= j < a.len() implies a[j] == b[j] by {
        if j >= 4 * entries {
            assert(j / 4 == entries);
            assert(j % 4 == j - 4 * entries);
        }
    }
    assert(a =~= b);
}

/// What parsing a compact palette gives.
pub open spec fn parsed_tlut(bytes: Seq<u8>, size: ImageSize, mode: TextureLUT) -> Result<
    Seq<u8>,
    Error,
> {
    if mode != TextureLUT::Rgba16 {
        Err(Error::UnsupportedTlutMode(mode))
    } else {
        match size.spec_tlut_size() {
            None => Err(Error::InvalidSizeForTlut(size)),
            Some(entries) => if 2 * entries <= bytes.len() {
                Ok(expanded_tlut(bytes, entries as int))
            } else {
                Err(Error::Io(IoError::UnexpectedEof))
            },
        }
    }
}

/// Expands a compact palette of 16-bit RGBA entries into one of four
/// bytes per entry, with as many entries as go with `size`.
pub fn parse_tlut(bytes: &[u8], size: ImageSize, mode: TextureLUT) -> (r: Result<Vec<u8>, Error>)
    ensures
        match parsed_tlut(bytes@, size, mode) {
            Ok(table) => r is Ok && r->Ok_0@ == table,
            Err(e) => r == Err::<Vec<u8>, Error>(e),
        },
{
    match mode {
        TextureLUT::Rgba16 => {},
        _ => {
            return Err(Error::UnsupportedTlutMode(mode));
        },
    }

    let mut output: Vec<u8> = Vec::new();

    let tlut_size: usize = match size.get_tlut_size() {
        Some(n) => n,
        None => {
            return Err(Error::InvalidSizeForTlut(size));
        },
    };
    let len: usize = bytes.len();
    assert(output@ =~= expanded_tlut(bytes@, 0));

    let mut i: usize = 0;
    while i < tlut_size
        invariant
            i <= tlut_size <= 65536,
            mode == TextureLUT::Rgba16,
            size.spec_tlut_size() == Some(tlut_size),
            len == bytes@.len(),
            output@ == expanded_tlut(bytes@, i as int),
            2 * i <= len,
        decreases tlut_size - i,
    {
        if len - 2 * i < 2 {
            return Err(Error::Io(IoError::UnexpectedEof));
        }
        proof {
            lemma_expanded_tlut_step(bytes@, i as int);
        }
        let pixel: u16 = read_u16(slice_subrange(bytes, 2 * i, 2 * i + 2));
        let color = Color::from_u16(pixel);
        put_rgba(&mut output, color);
        i += 1;
    }

    Ok(output)
}

/// The color bytes of a palette of four bytes per entry: three for each
/// entry.
pub open spec fn palette_rgb(table: Seq<u8>) -> Seq<u8> {
    Seq::new((table.len() / 4 * 3) as nat, |j: int| table[j / 3 * 4 + j % 3])
}

/// The alpha bytes of a palette of four bytes per entry: one for each
/// entry.
pub open spec fn palette_alpha(table: Seq<u8>) -> Seq<u8> {
    Seq::new(table.len() / 4, |j: int| table[4 * j + 3])
}

/// Splits a palette of whole four-byte entries into its color bytes
/// and its alpha bytes, as the two palette chunks of a PNG hold them.
pub fn split_color_table_for_png(table: &[u8]) -> (r: (Vec<u8>, Vec<u8>))
    requires
        table@.len() % 4 == 0,
    ensures
        r.0@ == palette_rgb(table@),
        r.1@ == palette_alpha(table@),
{
    let mut palette_data: Vec<u8> = Vec::new();
    let mut trans_data: Vec<u8> = Vec::new();
    let len: usize = table.len();
    let mut at: usize = 0;
    while at < len
        invariant
            len == table@.len(),
            len % 4 == 0,
            at % 4 == 0,
            at <= len,
            palette_data@.len() == at / 4 * 3,
            trans_data@.len() == at / 4,
            forall|j: int|
                0 <= j < palette_data@.len() ==> palette_data@[j] == table@[j / 3 * 4 + j % 3],
            forall|j: int| 0 <= j < trans_data@.len() ==> trans_data@[j] == table@[4 * j + 3],
        decreases len - at,
    {
        palette_data.push(table[at]);
        palette_data.push(table[at + 1]);
        palette_data.push(table[at + 2]);
        trans_data.push(table[at + 3]);
        at += 4;
    }
    assert(palette_data@ =~= palette_rgb(table@));
    assert(trans_data@ =~= palette_alpha(table@));

    (palette_data, trans_data)
}

/// Alpha of entry `e` of a palette: what the transparency chunk holds
/// for it, and fully opaque where the chunk is missing or too short.
pub open spec fn entry_alpha(alpha: Option<Seq<u8>>, e: int) -> u8 {
    match alpha {
        Some(a) => if e < a.len() {
            a[e]
        } else {
            255u8
        },
        None => 255u8,
    }
}

/// The 16-bit word of entry `e` of a palette in two chunks.
pub open spec fn entry_word(rgb: Seq<u8>, alpha: Option<Seq<u8>>, e: int) -> u16 {
    (Color { r: rgb[3 * e], g: rgb[3 * e + 1], b: rgb[3 * e + 2], a: entry_alpha(alpha, e) })
        .spec_to_u16()
}

/// The first `entries` entries of a palette in two chunks, as big-endian
/// 16-bit words.
pub open spec fn compact_prefix(rgb: Seq<u8>, alpha: Option<Seq<u8>>, entries: int) -> Seq<u8> {
    Seq::new(
        (2 * entries) as nat,
        |x: int|
            if x % 2 == 0 {
                (entry_word(rgb, alpha, x / 2) / 256) as u8
            } else {
                (entry_word(rgb, alpha, x / 2) % 256) as u8
            },
    )
}

/// The compact palette for the two palette chunks of a PNG: one word
/// for every whole triple of color bytes.
pub open spec fn compact_palette(rgb: Seq<u8>, alpha: Option<Seq<u8>>) -> Seq<u8> {
    compact_prefix(rgb, alpha, rgb.len() as int / 3)
}

/// Packs the two palette chunks of a PNG into a compact palette of one
/// big-endian 16-bit word per entry and appends it to `writer`.
pub fn palette_from_chunks(rgb_data: &[u8], alpha_data: Option<&[u8]>, writer: &mut Vec<u8>)
    ensures
        final(writer)@ == old(writer)@ + compact_palette(
            rgb_data@,
            match alpha_data {
                Some(a) => Some(a@),
                None => None,
            },
        ),
{
    let ghost alpha = match alpha_data {
        Some(a) => Some(a@),
        None => None,
    };
    let ghost base = writer@;
    let len: usize = rgb_data.len();
    let mut e: usize = 0;
    assert(writer@ =~= base + compact_prefix(rgb_data@, alpha, 0));
    while len - 3 * e >= 3
        invariant
            len == rgb_data@.len(),
            3 * e <= len,
            alpha == match alpha_data {
                Some(a) => Some(a@),
                None => None,
            },
            writer@ == base + compact_prefix(rgb_data@, alpha, e as int),
        decreases len - 3 * e,
    {
        let a: u8 = match alpha_data {
            Some(alpha_bytes) => if e < alpha_bytes.len() {
                alpha_bytes[e]
            } else {
                0xFF
            },
            None => 0xFF,
        };
        let color = Color::RGBA(rgb_data[3 * e], rgb_data[3 * e + 1], rgb_data[3 * e + 2], a);
        let word: [u8; 2] = write_u16(color.to_u16());
        writer.push(word[0]);
        writer.push(word[1]);
        e += 1;
        assert(writer@ =~= base + compact_prefix(rgb_data@, alpha, e as int));
    }
}

/// Reads the palette of a PNG stream and appends it to `writer` as a
/// compact palette. Fails, with nothing written, where the stream
/// cannot be read up to its image data or holds no palette.
pub fn create_palette_from_png(r: &[u8], writer: &mut Vec<u8>) -> (res: Result<(), Error>)
    ensures
        match png_palette(r@) {
            None => res is Err && res->Err_0 is PngDecoding && final(writer)@ == old(writer)@,
            Some(chunks) => match chunks.rgb {
                None => res == Err::<(), Error>(Error::MissingPngPalette) && final(writer)@ == old(
                    writer,
                )@,
                Some(rgb) => res is Ok && final(writer)@ == old(writer)@ + compact_palette(
                    rgb,
                    chunks.alpha,
                ),
            },
        },
{
    let (palette, trns) = match read_png_palette(r) {
        Ok(chunks) => chunks,
        Err(e) => {
            return Err(Error::PngDecoding(e));
        },
    };
    let rgb_data: Vec<u8> = match palette {
        Some(rgb) => rgb,
        None => {
            return Err(Error::MissingPngPalette);
        },
    };
    match trns {
        Some(alpha_data) => palette_from_chunks(
            rgb_data.as_slice(),
            Some(alpha_data.as_slice()),
            writer,
        ),
        None => palette_from_chunks(rgb_data.as_slice(), None, writer),
    }
    Ok(())
}

} // verus!
