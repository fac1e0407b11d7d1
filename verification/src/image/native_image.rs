//! Packed native images: decoding to RGBA8 and writing as PNG.

use crate::bits::{lemma_bit_mask, lemma_nibbles};
use crate::color::Color;
use crate::image::big_endian::{read_u16, read_u32, word16, word32};
use crate::image::png_image::{BitDepth, ColorType, Frame};
use crate::image::png_io::{png_stream, row_len, write_indexed_png, write_png, Written};
use crate::image::tlut::{palette_alpha, palette_entry, palette_rgb};
use crate::{Error, ImageType, IoError};
use vstd::arithmetic::div_mod::lemma_fundamental_div_mod_converse;
use vstd::prelude::*;
use vstd::slice::slice_subrange;

pub use crate::image::tlut::{get_tlut_color_at_index, parse_tlut, split_color_table_for_png};

verus! {

/// A packed image in one of the native formats. Nothing ties the length
/// of `data` to the dimensions: data that is too short shows as an error
/// when it is decoded.
pub struct NativeImage {
    pub format: ImageType,
    pub width: u32,
    pub height: u32,
    pub data: Vec<u8>,
}

/// Whether the pixels of `format` are indices into a palette.
pub open spec fn is_indexed(format: ImageType) -> bool {
    format == ImageType::Ci4 || format == ImageType::Ci8
}

/// Packed data is read unit by unit. This is the number of pixels that
/// one unit holds.
pub open spec fn pixels_per_unit(format: ImageType) -> int {
    match format {
        ImageType::I1 => 8,
        ImageType::I4 | ImageType::Ia4 | ImageType::Ci4 => 2,
        _ => 1,
    }
}

/// Number of bytes of one unit.
pub open spec fn unit_len(format: ImageType) -> int {
    match format {
        ImageType::Ia16 | ImageType::Rgba16 => 2,
        ImageType::Rgba32 => 4,
        _ => 1,
    }
}

/// Number of units that a row of `width` pixels takes; a unit that the
/// row fills only in part is read whole.
pub open spec fn units_per_row(format: ImageType, width: u32) -> int {
    (width + pixels_per_unit(format) - 1) / pixels_per_unit(format)
}

/// Number of pixels that decoding yields: all pixels of all units of all
/// rows.
pub open spec fn pixel_count(format: ImageType, width: u32, height: u32) -> int {
    height * units_per_row(format, width) * pixels_per_unit(format)
}

/// Half of a byte: the high half for `i == 0`, the low half otherwise.
pub open spec fn nibble(byte: u8, i: int) -> int {
    if i == 0 {
        (byte / 16) as int
    } else {
        (byte % 16) as int
    }
}

/// Whether bit `i` of `byte` is set, counted from the most significant.
pub open spec fn bit_from_top(byte: u8, i: u8) -> bool {
    byte & (0x80u8 >> i) != 0
}

/// The opaque or translucent gray of level `level`.
pub open spec fn gray(level: int, alpha: int) -> Color {
    Color { r: level as u8, g: level as u8, b: level as u8, a: alpha as u8 }
}

/// Palette index of pixel `i` of the unit at `at`, for the indexed
/// formats.
pub open spec fn palette_index(format: ImageType, data: Seq<u8>, at: int, i: int) -> int {
    if format == ImageType::Ci4 {
        nibble(data[at], i)
    } else {
        data[at] as int
    }
}

/// Color of pixel `i` of the unit that starts at byte `at` of `data`.
pub open spec fn unit_pixel(
    format: ImageType,
    data: Seq<u8>,
    tlut: Seq<u8>,
    at: int,
    i: int,
) -> Color {
    match format {
        ImageType::I1 => if bit_from_top(data[at], i as u8) {
            gray(255, 255)
        } else {
            gray(0, 255)
        },
        ImageType::I4 => gray(nibble(data[at], i) * 16, 255),
        ImageType::I8 => gray(data[at] as int, 255),
        ImageType::Ia4 => gray(nibble(data[at], i) / 2 * 32, nibble(data[at], i) % 2 * 255),
        ImageType::Ia8 => gray(nibble(data[at], 0) * 16, nibble(data[at], 1) * 16),
        ImageType::Ia16 => gray(data[at] as int, data[at + 1] as int),
        ImageType::Ci4 | ImageType::Ci8 => palette_entry(tlut, palette_index(format, data, at, i)),
        ImageType::Rgba16 => Color::spec_from_u16(word16(data[at], data[at + 1])),
        ImageType::Rgba32 => Color::spec_from_u32(
            word32(data[at], data[at + 1], data[at + 2], data[at + 3]),
        ),
    }
}

/// Byte offset of the unit that holds pixel `k`.
pub open spec fn unit_start(format: ImageType, k: int) -> int {
    k / pixels_per_unit(format) * unit_len(format)
}

/// Color of pixel `k`, counted row by row from the top left.
pub open spec fn pixel_color(format: ImageType, data: Seq<u8>, tlut: Seq<u8>, k: int) -> Color {
    unit_pixel(format, data, tlut, unit_start(format, k), k % pixels_per_unit(format))
}

/// What stops decoding at pixel `k`, if anything does: its unit lies
/// beyond the end of the data, or its index beyond the end of the
/// palette.
pub open spec fn pixel_error(format: ImageType, data: Seq<u8>, tlut: Seq<u8>, k: int) -> Option<
    Error,
> {
    let at = unit_start(format, k);
    if at + unit_len(format) > data.len() {
        Some(Error::Io(IoError::UnexpectedEof))
    } else if is_indexed(format) && 4 * palette_index(
        format,
        data,
        at,
        k % pixels_per_unit(format),
    ) + 4 > tlut.len() {
        Some(Error::TlutIndexOutOfBounds)
    } else {
        None
    }
}

/// The first pixel from `from` on, below `n`, that stops decoding; `n`
/// where none does.
pub open spec fn first_failure(
    format: ImageType,
    data: Seq<u8>,
    tlut: Seq<u8>,
    from: int,
    n: int,
) -> int
    decreases n - from,
{
    if from >= n {
        n
    } else if pixel_error(format, data, tlut, from) is Some {
        from
    } else {
        first_failure(format, data, tlut, from + 1, n)
    }
}

/// The four bytes of a color in the order red, green, blue, alpha.
pub open spec fn rgba_bytes(c: Color) -> Seq<u8> {
    seq![c.r, c.g, c.b, c.a]
}

/// The RGBA8 bytes of the first `count` pixels.
pub open spec fn pixels(format: ImageType, data: Seq<u8>, tlut: Seq<u8>, count: int) -> Seq<u8> {
    Seq::new(
        (4 * count) as nat,
        |j: int| rgba_bytes(pixel_color(format, data, tlut, j / 4))[j % 4],
    )
}

/// What decoding gives: the bytes written, and the error that ended it
/// early, if one did.
pub struct Decoding {
    pub pixels: Seq<u8>,
    pub error: Option<Error>,
}

/// Decoding of `n` pixels of packed `data`: the pixels up to the first
/// one that cannot be decoded, and that pixel's error.
pub open spec fn decoding_of(format: ImageType, data: Seq<u8>, table: Seq<u8>, n: int) -> Decoding {
    let stop = first_failure(format, data, table, 0, n);
    Decoding {
        pixels: pixels(format, data, table, stop),
        error: if stop < n {
            pixel_error(format, data, table, stop)
        } else {
            None
        },
    }
}

/// Decoding of packed `data`: the pixels up to the first one that cannot
/// be decoded, and that pixel's error. An indexed format without a
/// palette fails before anything is read.
pub open spec fn decoding(
    format: ImageType,
    width: u32,
    height: u32,
    data: Seq<u8>,
    tlut: Option<Seq<u8>>,
) -> Decoding {
    if is_indexed(format) && tlut is None {
        Decoding { pixels: Seq::empty(), error: Some(Error::MissingTlut) }
    } else {
        let table = match tlut {
            Some(t) => t,
            None => Seq::empty(),
        };
        decoding_of(format, data, table, pixel_count(format, width, height))
    }
}

/// The view of an optional byte slice.
pub open spec fn bytes_of(slice: Option<&[u8]>) -> Option<Seq<u8>> {
    match slice {
        Some(s) => Some(s@),
        None => None,
    }
}

/// Whether `r` reports exactly `error`.
pub open spec fn reports(r: Result<(), Error>, error: Option<Error>) -> bool {
    match error {
        None => r is Ok,
        Some(e) => r == Err::<(), Error>(e),
    }
}

/// Pixel `i` of unit `u` is pixel `u * pixels_per_unit + i` of the image.
pub proof fn lemma_pixel_of_unit(format: ImageType, u: int, i: int)
    requires
        0 <= u,
        0 <= i < pixels_per_unit(format),
    ensures
        (u * pixels_per_unit(format) + i) / pixels_per_unit(format) == u,
        (u * pixels_per_unit(format) + i) % pixels_per_unit(format) == i,
        unit_start(format, u * pixels_per_unit(format) + i) == u * unit_len(format),
{
    let p = pixels_per_unit(format);
    lemma_fundamental_div_mod_converse(u * p + i, p, u, i);
}

/// Where no pixel from `from` up to `k` stops decoding, and `k` is the
/// end or stops it, `k` is the first failure.
pub proof fn lemma_first_failure(
    format: ImageType,
    data: Seq<u8>,
    tlut: Seq<u8>,
    from: int,
    n: int,
    k: int,
)
    requires
        from <= k <= n,
        forall|j: int| from <= j < k ==> pixel_error(format, data, tlut, j) is None,
        k < n ==> pixel_error(format, data, tlut, k) is Some,
    ensures
        first_failure(format, data, tlut, from, n) == k,
    decreases k - from,
{
    if from < k {
        lemma_first_failure(format, data, tlut, from + 1, n, k);
    }
}

/// The first failure lies between `from` and `n`, no pixel before it
/// stops decoding, and below `n` it is a pixel that does.
pub proof fn lemma_first_failure_fails(
    format: ImageType,
    data: Seq<u8>,
    tlut: Seq<u8>,
    from: int,
    n: int,
)
    requires
        from <= n,
    ensures
        from <= first_failure(format, data, tlut, from, n) <= n,
        forall|j: int|
            from <= j < first_failure(format, data, tlut, from, n) ==> pixel_error(
                format,
                data,
                tlut,
                j,
            ) is None,
        first_failure(format, data, tlut, from, n) < n ==> pixel_error(
            format,
            data,
            tlut,
            first_failure(format, data, tlut, from, n),
        ) is Some,
    decreases n - from,
{
    if from < n && pixel_error(format, data, tlut, from) is None {
        lemma_first_failure_fails(format, data, tlut, from + 1, n);
    }
}

/// The units of a row hold at least the pixels of the row.
pub proof fn lemma_row_holds_width(format: ImageType, width: u32)
    ensures
        0 <= units_per_row(format, width),
        width <= units_per_row(format, width) * pixels_per_unit(format),
{
    let p = pixels_per_unit(format);
    let u = units_per_row(format, width);
    if p == 1 {
        assert(u * 1 == u);
    } else if p == 2 {
        assert(u * 2 == 2 * u);
    } else {
        assert(u * 8 == 8 * u);
    }
}

/// Row lengths of the frames that native images are written as: those
/// of 4-bit and 8-bit indices, and of RGBA8.
pub proof fn lemma_row_lens(width: u32)
    ensures
        row_len(3, 4, width) == units_per_row(ImageType::Ci4, width),
        row_len(3, 8, width) == units_per_row(ImageType::Ci8, width),
        row_len(6, 8, width) == 4 * width,
{
    assert(width * 1 * 4 == 4 * width) by (nonlinear_arith);
    assert(width * 1 * 8 == 8 * width) by (nonlinear_arith);
    assert(width * 4 * 8 == 32 * width) by (nonlinear_arith);
}

/// One more pixel adds its four bytes.
pub proof fn lemma_pixels_step(format: ImageType, data: Seq<u8>, tlut: Seq<u8>, count: int)
    requires
        0 <= count,
    ensures
        pixels(format, data, tlut, count + 1) == pixels(format, data, tlut, count) + rgba_bytes(
            pixel_color(format, data, tlut, count),
        ),
{
    let a = pixels(format, data, tlut, count + 1);
    let b = pixels(format, data, tlut, count) + rgba_bytes(pixel_color(format, data, tlut, count));
    assert(a.len() == b.len());
    assert forall|j: int| 0 <= j < a.len() implies a[j] == b[j] by {
        if j >= 4 * count {
            assert(j / 4 == count);
            assert(j % 4 == j - 4 * count);
        }
    }
    assert(a =~= b);
}

/// Number of bytes of one unit.
fn unit_size(format: ImageType) -> (n: usize)
    ensures
        n == unit_len(format),
{
    match format {
        ImageType::Ia16 | ImageType::Rgba16 => 2,
        ImageType::Rgba32 => 4,
        _ => 1,
    }
}

/// Number of pixels of one unit.
fn unit_pixels(format: ImageType) -> (n: u8)
    ensures
        n == pixels_per_unit(format),
{
    match format {
        ImageType::I1 => 8,
        ImageType::I4 | ImageType::Ia4 | ImageType::Ci4 => 2,
        _ => 1,
    }
}

/// Number of units in a row of `width` pixels.
fn row_units(format: ImageType, width: u32) -> (n: u32)
    ensures
        n == units_per_row(format, width),
{
    let per_unit: u32 = unit_pixels(format) as u32;
    let whole: u32 = width / per_unit;
    if width % per_unit == 0 {
        whole
    } else {
        whole + 1
    }
}

/// Appends the four bytes of `c` to `writer`.
pub(crate) fn put_rgba(writer: &mut Vec<u8>, c: Color)
    ensures
        final(writer)@ == old(writer)@ + rgba_bytes(c),
{
    writer.push(c.r);
    writer.push(c.g);
    writer.push(c.b);
    writer.push(c.a);
    assert(writer@ =~= old(writer)@ + rgba_bytes(c));
}

/// Decodes pixel `i` of the unit that starts at byte `at`.
fn read_pixel(format: ImageType, data: &[u8], at: usize, i: u8, tlut: &[u8]) -> (r: Result<
    Color,
    Error,
>)
    requires
        at + unit_len(format) <= data@.len(),
        i < pixels_per_unit(format),
    ensures
        is_indexed(format) && 4 * palette_index(format, data@, at as int, i as int) + 4
            > tlut@.len() ==> r == Err::<Color, Error>(Error::TlutIndexOutOfBounds),
        !(is_indexed(format) && 4 * palette_index(format, data@, at as int, i as int) + 4
            > tlut@.len()) ==> r == Ok::<Color, Error>(
            unit_pixel(format, data@, tlut@, at as int, i as int),
        ),
{
    let byte: u8 = data[at];
    match format {
        ImageType::I1 => {
            let shift: u8 = 7 - i;
            proof {
                lemma_bit_mask(i, shift);
            }
            let mask: u8 = 0b00000001 << shift;
            let intensity: u8 = if byte & mask == 0 {
                0
            } else {
                255
            };
            Ok(Color::RGBA(intensity, intensity, intensity, 0xFF))
        },
        ImageType::I4 => {
            let intensity: u8 = if i == 0 {
                byte & 0xF0
            } else {
                (byte & 0x0F) << 4
            };
            proof {
                lemma_nibbles(byte);
            }
            Ok(Color::RGBA(intensity, intensity, intensity, 0xFF))
        },
        ImageType::I8 => Ok(Color::RGBA(byte, byte, byte, 0xFF)),
        ImageType::Ia4 => {
            let source: u8 = if i == 0 {
                (byte & 0xF0) >> 4
            } else {
                byte & 0x0F
            };
            proof {
                lemma_nibbles(byte);
            }
            assert((source & 0x0E) >> 1 == source / 2 && source & 0x01 == source % 2)
                by (bit_vector)
                requires
                    source < 16,
            ;
            let intensity: u8 = ((source & 0x0E) >> 1) * 32;
            let alpha: u8 = (source & 0x01) * 255;
            Ok(Color::RGBA(intensity, intensity, intensity, alpha))
        },
        ImageType::Ia8 => {
            proof {
                lemma_nibbles(byte);
            }
            let intensity: u8 = byte & 0xF0;
            let alpha: u8 = (byte & 0x0F) << 4;
            Ok(Color::RGBA(intensity, intensity, intensity, alpha))
        },
        ImageType::Ia16 => {
            let alpha: u8 = data[at + 1];
            Ok(Color::RGBA(byte, byte, byte, alpha))
        },
        ImageType::Ci4 => {
            let index: u8 = if i == 0 {
                (byte >> 4) & 0x0F
            } else {
                byte & 0x0F
            };
            proof {
                lemma_nibbles(byte);
            }
            match get_tlut_color_at_index(tlut, index) {
                Ok(entry) => Ok(Color::RGBA(entry[0], entry[1], entry[2], entry[3])),
                Err(e) => Err(e),
            }
        },
        ImageType::Ci8 => {
            match get_tlut_color_at_index(tlut, byte) {
                Ok(entry) => Ok(Color::RGBA(entry[0], entry[1], entry[2], entry[3])),
                Err(e) => Err(e),
            }
        },
        ImageType::Rgba16 => {
            let pixel: u16 = read_u16(slice_subrange(data, at, at + 2));
            Ok(Color::from_u16(pixel))
        },
        ImageType::Rgba32 => {
            let pixel: u32 = read_u32(slice_subrange(data, at, at + 4));
            Ok(Color::from_u32(pixel))
        },
    }
}

/// What is handed to the PNG encoder: a frame, and for an indexed image
/// the two palette chunks.
pub struct PngSource {
    pub frame: Frame,
    pub palette: Option<Seq<u8>>,
    pub trns: Option<Seq<u8>>,
}

impl PngSource {
    /// What the PNG encoder writes for this source.
    pub open spec fn stream(self) -> Written {
        png_stream(
            self.frame.width,
            self.frame.height,
            self.frame.color_type.spec_code(),
            self.frame.bit_depth.spec_code(),
            self.palette,
            self.trns,
            self.frame.data,
        )
    }
}

/// Number of bytes that an image of the given format and size takes.
pub open spec fn packed_size(format: ImageType, width: u32, height: u32) -> int {
    height * units_per_row(format, width) * unit_len(format)
}

/// What an image of packed `data` hands to the PNG encoder. An indexed
/// image goes as it is, its index bytes beside the palette split in
/// two; any other is decoded to RGBA8 first.
pub open spec fn png_source(
    format: ImageType,
    width: u32,
    height: u32,
    data: Seq<u8>,
    tlut: Option<Seq<u8>>,
) -> Result<PngSource, Error> {
    if is_indexed(format) {
        match tlut {
            None => Err(Error::MissingTlut),
            Some(table) => {
                let size = packed_size(format, width, height);
                if data.len() < size {
                    Err(Error::Io(IoError::UnexpectedEof))
                } else {
                    Ok(
                        PngSource {
                            frame: Frame {
                                data: data.take(size),
                                color_type: ColorType::Indexed,
                                bit_depth: if format == ImageType::Ci4 {
                                    BitDepth::Four
                                } else {
                                    BitDepth::Eight
                                },
                                width,
                                height,
                            },
                            palette: Some(palette_rgb(table)),
                            trns: Some(palette_alpha(table)),
                        },
                    )
                }
            },
        }
    } else {
        let decoded = decoding(format, width, height, data, None);
        match decoded.error {
            Some(e) => Err(e),
            None => Ok(
                PngSource {
                    frame: Frame {
                        data: decoded.pixels,
                        color_type: ColorType::Rgba,
                        bit_depth: BitDepth::Eight,
                        width,
                        height,
                    },
                    palette: None,
                    trns: None,
                },
            ),
        }
    }
}

impl NativeImage {
    /// What decoding this image gives with the palette `tlut`.
    pub open spec fn spec_decode(&self, tlut: Option<Seq<u8>>) -> Decoding {
        decoding(self.format, self.width, self.height, self.data@, tlut)
    }

    /// Takes the packed bytes of an image of the given format and size.
    pub fn read(reader: &[u8], format: ImageType, width: u32, height: u32) -> (r: Result<
        Self,
        Error,
    >)
        ensures
            r is Ok,
            r->Ok_0.format == format,
            r->Ok_0.width == width,
            r->Ok_0.height == height,
            r->Ok_0.data@ == reader@,
    {
        let mut data: Vec<u8> = Vec::new();
        data.extend_from_slice(reader);
        assert(data@ =~= reader@);

        Ok(Self { format, width, height, data })
    }

    /// What this image hands to the PNG encoder.
    pub open spec fn spec_png_source(&self, tlut: Option<Seq<u8>>) -> Result<PngSource, Error> {
        png_source(self.format, self.width, self.height, self.data@, tlut)
    }

    /// Decodes the image to RGBA8 and appends the bytes to `writer`, row
    /// by row from the top, each row from the left. Stops at the first
    /// pixel that cannot be decoded, with what came before it written.
    pub fn decode(&self, writer: &mut Vec<u8>, tlut_color_table: Option<&[u8]>) -> (r: Result<
        (),
        Error,
    >)
        ensures
            final(writer)@ == old(writer)@ + self.spec_decode(bytes_of(tlut_color_table)).pixels,
            reports(r, self.spec_decode(bytes_of(tlut_color_table)).error),
    {
        let format: ImageType = self.format;
        let no_table: Vec<u8> = Vec::new();
        let tlut: &[u8] = match tlut_color_table {
            Some(table) => table,
            None => {
                match format {
                    ImageType::Ci4 | ImageType::Ci8 => {
                        assert(writer@ =~= old(writer)@ + Seq::<u8>::empty());
                        return Err(Error::MissingTlut);
                    },
                    _ => no_table.as_slice(),
                }
            },
        };
        let data: &[u8] = self.data.as_slice();
        let size: usize = unit_size(format);
        let per_unit: u8 = unit_pixels(format);
        let per_row: u32 = row_units(format, self.width);
        let ghost base = writer@;
        let ghost n = pixel_count(format, self.width, self.height);
        let ghost p = pixels_per_unit(format);
        let ghost mut u: int = 0;
        let ghost mut left: int = self.height * per_row;
        let mut pos: usize = 0;
        proof {
            assert(pixels(format, data@, tlut@, 0) =~= Seq::<u8>::empty());
            assert(writer@ =~= base + pixels(format, data@, tlut@, 0));
            assert(0 * p == 0 && 0 * size == 0) by (nonlinear_arith);
            assert(left * p == n) by (nonlinear_arith)
                requires
                    left == self.height * per_row,
                    n == self.height * per_row * p,
            ;
        }

        let mut y: u32 = 0;
        while y < self.height
            invariant
                y <= self.height,
                base == old(writer)@,
                self.spec_decode(bytes_of(tlut_color_table)) == decoding_of(
                    format,
                    data@,
                    tlut@,
                    n,
                ),
                size == unit_len(format),
                per_unit == pixels_per_unit(format) == p,
                0 <= u,
                left == (self.height - y) * per_row,
                (u + left) * p == n,
                pos == u * size,
                pos <= data@.len(),
                writer@ == base + pixels(format, data@, tlut@, u * p),
                forall|j: int| 0 <= j < u * p ==> pixel_error(format, data@, tlut@, j) is None,
            decreases self.height - y,
        {
            proof {
                assert((self.height - y) * per_row == (self.height - y - 1) * per_row + per_row
                    && (self.height - y - 1) * per_row >= 0) by (nonlinear_arith)
                    requires
                        y < self.height,
                        0 <= per_row,
                ;
            }
            let ghost rest = left - per_row;
            let mut x: u32 = 0;
            while x < per_row
                invariant
                    x <= per_row,
                    0 <= rest,
                    base == old(writer)@,
                    self.spec_decode(bytes_of(tlut_color_table)) == decoding_of(
                        format,
                        data@,
                        tlut@,
                        n,
                    ),
                    size == unit_len(format),
                    per_unit == pixels_per_unit(format) == p,
                    0 <= u,
                    left == rest + per_row - x,
                    (u + left) * p == n,
                    pos == u * size,
                    pos <= data@.len(),
                    writer@ == base + pixels(format, data@, tlut@, u * p),
                    forall|j: int| 0 <= j < u * p ==> pixel_error(format, data@, tlut@, j) is None,
                decreases per_row - x,
            {
                proof {
                    assert(u * p >= 0 && (u + 1) * p == u * p + p && (u + 1) * p <= n)
                        by (nonlinear_arith)
                        requires
                            0 <= u,
                            0 < p,
                            left >= 1,
                            (u + left) * p == n,
                    ;
                    assert((u + 1) * size == u * size + size) by (nonlinear_arith);
                    lemma_pixel_of_unit(format, u, 0);
                }
                if data.len() - pos < size {
                    proof {
                        lemma_first_failure(format, data@, tlut@, 0, n, u * p);
                    }
                    return Err(Error::Io(IoError::UnexpectedEof));
                }
                let mut i: u8 = 0;
                while i < per_unit
                    invariant
                        i <= per_unit,
                        base == old(writer)@,
                        self.spec_decode(bytes_of(tlut_color_table)) == decoding_of(
                            format,
                            data@,
                            tlut@,
                            n,
                        ),
                        0 <= u,
                        0 < p,
                        0 <= u * p,
                        (u + 1) * p <= n,
                        (u + 1) * p == u * p + p,
                        size == unit_len(format),
                        per_unit == pixels_per_unit(format) == p,
                        pos == u * size,
                        pos + size <= data@.len(),
                        writer@ == base + pixels(format, data@, tlut@, u * p + i),
                        forall|j: int|
                            0 <= j < u * p + i ==> pixel_error(format, data@, tlut@, j) is None,
                    decreases per_unit - i,
                {
                    proof {
                        lemma_pixel_of_unit(format, u, i as int);
                        lemma_pixels_step(format, data@, tlut@, u * p + i);
                    }
                    match read_pixel(format, data, pos, i, tlut) {
                        Ok(c) => {
                            put_rgba(writer, c);
                        },
                        Err(e) => {
                            proof {
                                lemma_first_failure(format, data@, tlut@, 0, n, u * p + i);
                            }
                            return Err(e);
                        },
                    }
                    i += 1;
                }
                pos += size;
                x += 1;
                proof {
                    u = u + 1;
                    left = left - 1;
                }
            }
            y += 1;
        }
        proof {
            assert(left == 0) by (nonlinear_arith)
                requires
                    left == (self.height - y) * per_row,
                    y == self.height,
            ;
            lemma_first_failure(format, data@, tlut@, 0, n, n);
        }
        Ok(())
    }

    /// Writes the image as a PNG stream to `writer`: an indexed image
    /// as an indexed PNG with the palette in its chunks, any other
    /// decoded to RGBA8. Nothing is written where the image cannot be
    /// read in full; where the encoder fails, what it put out before
    /// stays written.
    pub fn as_png(&self, writer: &mut Vec<u8>, tlut_color_table: Option<&[u8]>) -> (r: Result<
        (),
        Error,
    >)
        requires
            is_indexed(self.format) && tlut_color_table is Some
                ==> tlut_color_table->Some_0@.len() % 4 == 0,
        ensures
            match self.spec_png_source(bytes_of(tlut_color_table)) {
                Err(e) => r == Err::<(), Error>(e) && final(writer)@ == old(writer)@,
                Ok(source) => {
                    &&& final(writer)@ == old(writer)@ + source.stream().bytes
                    &&& r is Ok <==> source.stream().complete
                    &&& r is Err ==> r->Err_0 is PngEncoding
                },
            },
    {
        match self.format {
            ImageType::Ci4 | ImageType::Ci8 => {
                let tlut: &[u8] = match tlut_color_table {
                    Some(table) => table,
                    None => {
                        return Err(Error::MissingTlut);
                    },
                };
                let per_row: u32 = row_units(self.format, self.width);
                assert(self.height * per_row <= 0xFFFF_FFFF * 0xFFFF_FFFF) by (nonlinear_arith)
                    requires
                        self.height <= 0xFFFF_FFFF,
                        per_row <= 0xFFFF_FFFF,
                ;
                let size: u64 = self.height as u64 * per_row as u64;
                assert(size == packed_size(self.format, self.width, self.height))
                    by (nonlinear_arith)
                    requires
                        size == self.height * per_row,
                        per_row == units_per_row(self.format, self.width),
                        unit_len(self.format) == 1,
                ;
                if (self.data.len() as u64) < size {
                    return Err(Error::Io(IoError::UnexpectedEof));
                }
                let data: &[u8] = slice_subrange(self.data.as_slice(), 0, size as usize);
                let depth: BitDepth = match self.format {
                    ImageType::Ci4 => BitDepth::Four,
                    _ => BitDepth::Eight,
                };
                let (palette_data, trans_data) = split_color_table_for_png(tlut);
                proof {
                    lemma_row_lens(self.width);
                    let row = row_len(3, depth.spec_code(), self.width);
                    assert(row * self.height == size) by (nonlinear_arith)
                        requires
                            row == per_row,
                            size == self.height * per_row,
                    ;
                }
                assert(data@ =~= self.data@.take(size as int));
                match write_indexed_png(
                    writer,
                    self.width,
                    self.height,
                    depth.code(),
                    palette_data,
                    trans_data,
                    data,
                ) {
                    Ok(()) => Ok(()),
                    Err(e) => Err(Error::PngEncoding(e)),
                }
            },
            _ => {
                let mut data: Vec<u8> = Vec::new();
                match self.decode(&mut data, None) {
                    Ok(()) => {},
                    Err(e) => {
                        return Err(e);
                    },
                }
                proof {
                    let n = pixel_count(self.format, self.width, self.height);
                    let stop = first_failure(self.format, self.data@, Seq::empty(), 0, n);
                    assert(data@ =~= self.spec_decode(None).pixels);
                    assert(0 <= n) by (nonlinear_arith)
                        requires
                            n == self.height * units_per_row(self.format, self.width)
                                * pixels_per_unit(self.format),
                            0 <= units_per_row(self.format, self.width),
                            0 < pixels_per_unit(self.format),
                    ;
                    lemma_first_failure_fails(self.format, self.data@, Seq::empty(), 0, n);
                    assert(stop == n);
                    assert(data@.len() == 4 * n);
                    lemma_row_holds_width(self.format, self.width);
                    lemma_row_lens(self.width);
                    assert(self.width * self.height <= n) by (nonlinear_arith)
                        requires
                            n == self.height * units_per_row(self.format, self.width)
                                * pixels_per_unit(self.format),
                            self.width <= units_per_row(self.format, self.width) * pixels_per_unit(
                                self.format,
                            ),
                    ;
                    assert(4 * self.width * self.height <= data@.len()) by (nonlinear_arith)
                        requires
                            self.width * self.height <= n,
                            data@.len() == 4 * n,
                    ;
                }
                assert(data@.len() == data.len());
                match write_png(
                    writer,
                    self.width,
                    self.height,
                    ColorType::Rgba.code(),
                    BitDepth::Eight.code(),
                    data.as_slice(),
                ) {
                    Ok(()) => Ok(()),
                    Err(e) => Err(Error::PngEncoding(e)),
                }
            },
        }
    }
}

} // verus!
