//! Decoded image containers and their conversion to the native formats.

use crate::image::packing::{pack, packed, put_all, Packing};
use crate::image::png_io::{
    is_color_code, is_depth_code, png_frame, png_stream, read_png, row_len, samples_of_code,
    write_png, RawFrame, Written,
};
use crate::{Error, ImageType};
use vstd::prelude::*;

pub use crate::image::tlut::{create_palette_from_png, palette_from_chunks};

verus! {

/// How the samples of a pixel are laid out in a container image.
#[derive(Copy, Clone, Debug, PartialEq, Eq, Structural)]
pub enum ColorType {
    /// One gray sample.
    Grayscale,
    /// Red, green, blue.
    Rgb,
    /// One palette index.
    Indexed,
    /// Gray, then alpha.
    GrayscaleAlpha,
    /// Red, green, blue, alpha.
    Rgba,
}

impl ColorType {
    /// The number that stands for this color type in a PNG header.
    pub open spec fn spec_code(self) -> u8 {
        match self {
            ColorType::Grayscale => 0,
            ColorType::Rgb => 2,
            ColorType::Indexed => 3,
            ColorType::GrayscaleAlpha => 4,
            ColorType::Rgba => 6,
        }
    }

    /// The color type that `code` stands for in a PNG header.
    pub open spec fn spec_from_code(code: u8) -> Option<ColorType> {
        if code == 0 {
            Some(ColorType::Grayscale)
        } else if code == 2 {
            Some(ColorType::Rgb)
        } else if code == 3 {
            Some(ColorType::Indexed)
        } else if code == 4 {
            Some(ColorType::GrayscaleAlpha)
        } else if code == 6 {
            Some(ColorType::Rgba)
        } else {
            None
        }
    }

    /// Number of samples of one pixel.
    pub open spec fn spec_samples(self) -> int {
        samples_of_code(self.spec_code())
    }

    /// Returns the number that stands for this color type in a PNG
    /// header.
    pub fn code(self) -> (code: u8)
        ensures
            code == self.spec_code(),
            is_color_code(code),
    {
        match self {
            ColorType::Grayscale => 0,
            ColorType::Rgb => 2,
            ColorType::Indexed => 3,
            ColorType::GrayscaleAlpha => 4,
            ColorType::Rgba => 6,
        }
    }

    /// Returns the color type that `code` stands for in a PNG header.
    pub fn from_code(code: u8) -> (color: ColorType)
        requires
            is_color_code(code),
        ensures
            ColorType::spec_from_code(code) == Some(color),
            color.spec_code() == code,
    {
        if code == 0 {
            ColorType::Grayscale
        } else if code == 2 {
            ColorType::Rgb
        } else if code == 3 {
            ColorType::Indexed
        } else if code == 4 {
            ColorType::GrayscaleAlpha
        } else {
            ColorType::Rgba
        }
    }

    /// Returns the number of samples of one pixel.
    pub fn samples(self) -> (n: usize)
        ensures
            n == self.spec_samples(),
            1 <= n <= 4,
    {
        match self {
            ColorType::Grayscale | ColorType::Indexed => 1,
            ColorType::Rgb => 3,
            ColorType::GrayscaleAlpha => 2,
            ColorType::Rgba => 4,
        }
    }
}

/// Number of bits per sample in a container image.
#[derive(Copy, Clone, Debug, PartialEq, Eq, Structural)]
pub enum BitDepth {
    One,
    Two,
    Four,
    Eight,
    Sixteen,
}

impl BitDepth {
    /// The number of bits, which is also what a PNG header holds.
    pub open spec fn spec_code(self) -> u8 {
        match self {
            BitDepth::One => 1,
            BitDepth::Two => 2,
            BitDepth::Four => 4,
            BitDepth::Eight => 8,
            BitDepth::Sixteen => 16,
        }
    }

    /// The bit depth of `code` bits.
    pub open spec fn spec_from_code(code: u8) -> Option<BitDepth> {
        if code == 1 {
            Some(BitDepth::One)
        } else if code == 2 {
            Some(BitDepth::Two)
        } else if code == 4 {
            Some(BitDepth::Four)
        } else if code == 8 {
            Some(BitDepth::Eight)
        } else if code == 16 {
            Some(BitDepth::Sixteen)
        } else {
            None
        }
    }

    /// Returns the number of bits.
    pub fn code(self) -> (code: u8)
        ensures
            code == self.spec_code(),
            is_depth_code(code),
    {
        match self {
            BitDepth::One => 1,
            BitDepth::Two => 2,
            BitDepth::Four => 4,
            BitDepth::Eight => 8,
            BitDepth::Sixteen => 16,
        }
    }

    /// Returns the bit depth of `code` bits.
    pub fn from_code(code: u8) -> (depth: BitDepth)
        requires
            is_depth_code(code),
        ensures
            BitDepth::spec_from_code(code) == Some(depth),
            depth.spec_code() == code,
    {
        if code == 1 {
            BitDepth::One
        } else if code == 2 {
            BitDepth::Two
        } else if code == 4 {
            BitDepth::Four
        } else if code == 8 {
            BitDepth::Eight
        } else {
            BitDepth::Sixteen
        }
    }
}

/// What a container image holds: one decoded frame, with the color type
/// and bit depth that its source declared.
pub struct Frame {
    pub data: Seq<u8>,
    pub color_type: ColorType,
    pub bit_depth: BitDepth,
    pub width: u32,
    pub height: u32,
}

impl Frame {
    /// Number of bytes of one row of this frame.
    pub open spec fn row_len(self) -> int {
        row_len(self.color_type.spec_code(), self.bit_depth.spec_code(), self.width)
    }

    /// What the PNG encoder writes for this frame.
    pub open spec fn stream(self) -> Written {
        png_stream(
            self.width,
            self.height,
            self.color_type.spec_code(),
            self.bit_depth.spec_code(),
            None,
            None,
            self.data,
        )
    }

    /// The frame that the decoder's report stands for.
    pub open spec fn of_raw(raw: RawFrame) -> Frame {
        Frame {
            data: raw.data,
            color_type: ColorType::spec_from_code(raw.color).unwrap(),
            bit_depth: BitDepth::spec_from_code(raw.depth).unwrap(),
            width: raw.width,
            height: raw.height,
        }
    }
}

/// How a container's bytes become those of a native format.
pub enum Conversion {
    /// They are the native bytes already.
    Verbatim,
    /// They are packed chunk by chunk.
    Packed(Packing),
}

/// How an image of the given color type and bit depth is converted to
/// `target` in one step, where it can be.
pub open spec fn conversion(color: ColorType, depth: BitDepth, target: ImageType) -> Option<
    Conversion,
> {
    match target {
        ImageType::I1 => match (color, depth) {
            (ColorType::Grayscale, BitDepth::One) => Some(Conversion::Verbatim),
            _ => None,
        },
        ImageType::I4 => match (color, depth) {
            (ColorType::Grayscale, BitDepth::Four) => Some(Conversion::Verbatim),
            (ColorType::Grayscale, BitDepth::Eight) => Some(
                Conversion::Packed(Packing::HighNibbles),
            ),
            (ColorType::Rgba, BitDepth::Eight) => Some(
                Conversion::Packed(Packing::LumaNibblesRgba),
            ),
            (ColorType::Rgb, BitDepth::Eight) => Some(Conversion::Packed(Packing::LumaNibblesRgb)),
            _ => None,
        },
        ImageType::I8 => match (color, depth) {
            (ColorType::Grayscale, BitDepth::Eight) => Some(Conversion::Verbatim),
            (ColorType::Grayscale, BitDepth::Four) => Some(
                Conversion::Packed(Packing::JoinNibbles),
            ),
            (ColorType::Rgba, BitDepth::Eight) => Some(Conversion::Packed(Packing::LumaRgba)),
            (ColorType::Rgb, BitDepth::Eight) => Some(Conversion::Packed(Packing::LumaRgb)),
            _ => None,
        },
        ImageType::Ia4 => match (color, depth) {
            (ColorType::GrayscaleAlpha, BitDepth::Eight) => Some(
                Conversion::Packed(Packing::Ia4Gray),
            ),
            (ColorType::Rgba, BitDepth::Eight) => Some(Conversion::Packed(Packing::Ia4Rgba)),
            _ => None,
        },
        ImageType::Ia8 => match (color, depth) {
            (ColorType::GrayscaleAlpha, BitDepth::Eight) => Some(
                Conversion::Packed(Packing::Ia8Gray),
            ),
            (ColorType::Rgba, BitDepth::Eight) => Some(Conversion::Packed(Packing::Ia8Rgba)),
            _ => None,
        },
        ImageType::Ia16 => match (color, depth) {
            (ColorType::GrayscaleAlpha, BitDepth::Eight) => Some(Conversion::Verbatim),
            (ColorType::Rgba, BitDepth::Eight) => Some(Conversion::Packed(Packing::Ia16Rgba)),
            _ => None,
        },
        ImageType::Ci4 => match (color, depth) {
            (ColorType::Indexed, BitDepth::Four) => Some(Conversion::Verbatim),
            (ColorType::Indexed, BitDepth::Eight) => Some(Conversion::Packed(Packing::JoinNibbles)),
            _ => None,
        },
        ImageType::Ci8 => match (color, depth) {
            (ColorType::Indexed, BitDepth::Eight) => Some(Conversion::Verbatim),
            _ => None,
        },
        ImageType::Rgba16 => match (color, depth) {
            (ColorType::Rgba, BitDepth::Eight) => Some(Conversion::Packed(Packing::Rgba16)),
            _ => None,
        },
        ImageType::Rgba32 => match (color, depth) {
            (ColorType::Rgba, BitDepth::Eight) => Some(Conversion::Verbatim),
            _ => None,
        },
    }
}

/// The error for an image that cannot be converted to `target`.
pub open spec fn unsupported(frame: Frame, target: ImageType) -> Error {
    Error::UnsupportedPngConversion {
        color: frame.color_type,
        depth: frame.bit_depth,
        target_format: target,
    }
}

/// The bytes of `target` that come of `frame` in one step.
pub open spec fn converted(frame: Frame, target: ImageType) -> Result<Seq<u8>, Error> {
    match conversion(frame.color_type, frame.bit_depth, target) {
        Some(Conversion::Verbatim) => Ok(frame.data),
        Some(Conversion::Packed(kind)) => Ok(packed(kind, frame.data)),
        None => Err(unsupported(frame, target)),
    }
}

/// The bytes of `target` that come of `frame`. One bit per pixel is
/// reached by way of eight bits per pixel unless the frame has one bit
/// per pixel already. Where there is no way, the error names `target`.
pub open spec fn native_bytes(frame: Frame, target: ImageType) -> Result<Seq<u8>, Error> {
    if target == ImageType::I1 && conversion(frame.color_type, frame.bit_depth, target) is None {
        match converted(frame, ImageType::I8) {
            Ok(levels) => Ok(packed(Packing::Bits, levels)),
            Err(_) => Err(unsupported(frame, ImageType::I1)),
        }
    } else {
        converted(frame, target)
    }
}

/// Whether a conversion with the given outcome went from `before` to
/// `after` and returned `r`: on success the bytes are appended, on
/// failure nothing is.
pub open spec fn appended(
    before: Seq<u8>,
    after: Seq<u8>,
    r: Result<(), Error>,
    outcome: Result<Seq<u8>, Error>,
) -> bool {
    match outcome {
        Ok(bytes) => r is Ok && after == before + bytes,
        Err(e) => r == Err::<(), Error>(e) && after == before,
    }
}

/// A decoded image container.
#[derive(Debug, Clone)]
pub struct PNGImage {
    /// Raw image data in row-major order.
    data: Vec<u8>,
    /// The color type of the image.
    color_type: ColorType,
    /// The bit depth of each color channel.
    bit_depth: BitDepth,
    /// The width of the image in pixels.
    width: u32,
    /// The height of the image in pixels.
    height: u32,
}

impl View for PNGImage {
    type V = Frame;

    closed spec fn view(&self) -> Frame {
        Frame {
            data: self.data@,
            color_type: self.color_type,
            bit_depth: self.bit_depth,
            width: self.width,
            height: self.height,
        }
    }
}

impl PNGImage {
    /// Makes a container image of the given parts. Nothing is asked of
    /// how the length of `data` goes with the dimensions.
    pub fn new(
        data: Vec<u8>,
        color_type: ColorType,
        bit_depth: BitDepth,
        width: u32,
        height: u32,
    ) -> (img: PNGImage)
        ensures
            img@ == (Frame { data: data@, color_type, bit_depth, width, height }),
    {
        PNGImage { data, color_type, bit_depth, width, height }
    }

    /// Decodes the first frame of a PNG stream.
    pub fn read(r: &[u8]) -> (img: Result<PNGImage, Error>)
        ensures
            match png_frame(r@) {
                Some(raw) => img is Ok && img->Ok_0@ == Frame::of_raw(raw),
                None => img is Err && img->Err_0 is PngDecoding,
            },
    {
        match read_png(r) {
            Ok(frame) => {
                let (data, color, depth, width, height) = frame;
                Ok(
                    PNGImage {
                        data,
                        color_type: ColorType::from_code(color),
                        bit_depth: BitDepth::from_code(depth),
                        width,
                        height,
                    },
                )
            },
            Err(e) => Err(Error::PngDecoding(e)),
        }
    }

    /// The raw image data in row-major order.
    pub fn data(&self) -> (data: &[u8])
        ensures
            data@ == self@.data,
    {
        self.data.as_slice()
    }

    /// The color type of the image.
    pub fn color_type(&self) -> (color: ColorType)
        ensures
            color == self@.color_type,
    {
        self.color_type
    }

    /// The bit depth of each sample.
    pub fn bit_depth(&self) -> (depth: BitDepth)
        ensures
            depth == self@.bit_depth,
    {
        self.bit_depth
    }

    /// The width of the image in pixels.
    pub fn width(&self) -> (w: u32)
        ensures
            w == self@.width,
    {
        self.width
    }

    /// The height of the image in pixels.
    pub fn height(&self) -> (h: u32)
        ensures
            h == self@.height,
    {
        self.height
    }

    /// Encodes the image as a PNG stream and appends it to `writer`.
    /// What the encoder puts out before it fails is appended too.
    pub fn as_png(&self, writer: &mut Vec<u8>) -> (r: Result<(), Error>)
        requires
            self@.row_len() * self@.height <= usize::MAX,
        ensures
            final(writer)@ == old(writer)@ + self@.stream().bytes,
            r is Ok <==> self@.stream().complete,
            r is Err ==> r->Err_0 is PngEncoding,
    {
        match write_png(
            writer,
            self.width,
            self.height,
            self.color_type.code(),
            self.bit_depth.code(),
            self.data.as_slice(),
        ) {
            Ok(()) => Ok(()),
            Err(e) => Err(Error::PngEncoding(e)),
        }
    }

    /// The error for a conversion to `target` that this image does not
    /// allow.
    fn unsupported(&self, target: ImageType) -> (e: Error)
        ensures
            e == unsupported(self@, target),
    {
        Error::UnsupportedPngConversion {
            color: self.color_type,
            depth: self.bit_depth,
            target_format: target,
        }
    }

    /// Converts the image to the native format `image_type` and appends
    /// the bytes to `writer`.
    pub fn as_native(&self, writer: &mut Vec<u8>, image_type: ImageType) -> (r: Result<(), Error>)
        ensures
            appended(old(writer)@, final(writer)@, r, native_bytes(self@, image_type)),
    {
        match image_type {
            ImageType::I1 => self.as_i1(writer),
            ImageType::I4 => self.as_i4(writer),
            ImageType::I8 => self.as_i8(writer),
            ImageType::Ia4 => self.as_ia4(writer),
            ImageType::Ia8 => self.as_ia8(writer),
            ImageType::Ia16 => self.as_ia16(writer),
            ImageType::Ci4 => self.as_ci4(writer),
            ImageType::Ci8 => self.as_ci8(writer),
            ImageType::Rgba32 => self.as_rgba32(writer),
            ImageType::Rgba16 => self.as_rgba16(writer),
        }
    }

    /// Converts to 8-bit indices: only from an indexed image of eight
    /// bits, whose bytes are taken as they are.
    pub fn as_ci8(&self, writer: &mut Vec<u8>) -> (r: Result<(), Error>)
        ensures
            appended(old(writer)@, final(writer)@, r, native_bytes(self@, ImageType::Ci8)),
    {
        match (self.color_type, self.bit_depth) {
            (ColorType::Indexed, BitDepth::Eight) => put_all(self.data.as_slice(), writer),
            _ => {
                return Err(self.unsupported(ImageType::Ci8));
            },
        }
        Ok(())
    }

    /// Converts to 4-bit indices: only from an indexed image, of four
    /// bits as it is, of eight bits with two indices joined per byte.
    pub fn as_ci4(&self, writer: &mut Vec<u8>) -> (r: Result<(), Error>)
        ensures
            appended(old(writer)@, final(writer)@, r, native_bytes(self@, ImageType::Ci4)),
    {
        match (self.color_type, self.bit_depth) {
            (ColorType::Indexed, BitDepth::Four) => put_all(self.data.as_slice(), writer),
            (ColorType::Indexed, BitDepth::Eight) => pack(
                self.data.as_slice(),
                Packing::JoinNibbles,
                writer,
            ),
            _ => {
                return Err(self.unsupported(ImageType::Ci4));
            },
        }
        Ok(())
    }

    /// Converts to one bit of intensity per pixel: from one-bit gray as
    /// it is, else by way of eight bits of intensity, of which eight
    /// pixels make one byte with a bit set for each level over half.
    pub fn as_i1(&self, writer: &mut Vec<u8>) -> (r: Result<(), Error>)
        ensures
            appended(old(writer)@, final(writer)@, r, native_bytes(self@, ImageType::I1)),
    {
        match (self.color_type, self.bit_depth) {
            (ColorType::Grayscale, BitDepth::One) => put_all(self.data.as_slice(), writer),
            _ => {
                // Convert to i8 and then convert to i1
                let mut i8_data: Vec<u8> = Vec::new();
                match self.as_i8(&mut i8_data) {
                    Ok(()) => {},
                    Err(_) => {
                        return Err(self.unsupported(ImageType::I1));
                    },
                }
                assert(i8_data@ =~= converted(self@, ImageType::I8)->Ok_0);
                pack(i8_data.as_slice(), Packing::Bits, writer);
            },
        }
        Ok(())
    }

    /// Converts to four bits of intensity per pixel, two pixels per
    /// byte: from four-bit gray as it is, else the high halves of the
    /// gray levels or of the brightness of the colors.
    pub fn as_i4(&self, writer: &mut Vec<u8>) -> (r: Result<(), Error>)
        ensures
            appended(old(writer)@, final(writer)@, r, native_bytes(self@, ImageType::I4)),
    {
        match (self.color_type, self.bit_depth) {
            (ColorType::Grayscale, BitDepth::Four) => put_all(self.data.as_slice(), writer),
            (ColorType::Grayscale, BitDepth::Eight) => pack(
                self.data.as_slice(),
                Packing::HighNibbles,
                writer,
            ),
            (ColorType::Rgba, BitDepth::Eight) => pack(
                self.data.as_slice(),
                Packing::LumaNibblesRgba,
                writer,
            ),
            (ColorType::Rgb, BitDepth::Eight) => pack(
                self.data.as_slice(),
                Packing::LumaNibblesRgb,
                writer,
            ),
            _ => {
                return Err(self.unsupported(ImageType::I4));
            },
        }
        Ok(())
    }

    /// Converts to eight bits of intensity per pixel: from eight-bit
    /// gray as it is, from four-bit gray with two bytes joined into one,
    /// from colors their brightness.
    pub fn as_i8(&self, writer: &mut Vec<u8>) -> (r: Result<(), Error>)
        ensures
            appended(old(writer)@, final(writer)@, r, native_bytes(self@, ImageType::I8)),
    {
        match (self.color_type, self.bit_depth) {
            (ColorType::Grayscale, BitDepth::Eight) => put_all(self.data.as_slice(), writer),
            (ColorType::Grayscale, BitDepth::Four) => pack(
                self.data.as_slice(),
                Packing::JoinNibbles,
                writer,
            ),
            (ColorType::Rgba, BitDepth::Eight) => pack(
                self.data.as_slice(),
                Packing::LumaRgba,
                writer,
            ),
            (ColorType::Rgb, BitDepth::Eight) => pack(
                self.data.as_slice(),
                Packing::LumaRgb,
                writer,
            ),
            _ => {
                return Err(self.unsupported(ImageType::I8));
            },
        }
        Ok(())
    }

    /// Converts to three bits of intensity and one of alpha per pixel,
    /// two pixels per byte.
    pub fn as_ia4(&self, writer: &mut Vec<u8>) -> (r: Result<(), Error>)
        ensures
            appended(old(writer)@, final(writer)@, r, native_bytes(self@, ImageType::Ia4)),
    {
        match (self.color_type, self.bit_depth) {
            (ColorType::GrayscaleAlpha, BitDepth::Eight) => pack(
                self.data.as_slice(),
                Packing::Ia4Gray,
                writer,
            ),
            (ColorType::Rgba, BitDepth::Eight) => pack(
                self.data.as_slice(),
                Packing::Ia4Rgba,
                writer,
            ),
            _ => {
                return Err(self.unsupported(ImageType::Ia4));
            },
        }
        Ok(())
    }

    /// Converts to four bits each of intensity and alpha. The two
    /// sources differ: of gray with alpha the low half of each sample is
    /// kept, of colors the high half of brightness and of alpha.
    pub fn as_ia8(&self, writer: &mut Vec<u8>) -> (r: Result<(), Error>)
        ensures
            appended(old(writer)@, final(writer)@, r, native_bytes(self@, ImageType::Ia8)),
    {
        match (self.color_type, self.bit_depth) {
            (ColorType::GrayscaleAlpha, BitDepth::Eight) => pack(
                self.data.as_slice(),
                Packing::Ia8Gray,
                writer,
            ),
            (ColorType::Rgba, BitDepth::Eight) => pack(
                self.data.as_slice(),
                Packing::Ia8Rgba,
                writer,
            ),
            _ => {
                return Err(self.unsupported(ImageType::Ia8));
            },
        }
        Ok(())
    }

    /// Converts to eight bits each of intensity and alpha: from gray
    /// with alpha as it is, from colors their brightness and alpha.
    pub fn as_ia16(&self, writer: &mut Vec<u8>) -> (r: Result<(), Error>)
        ensures
            appended(old(writer)@, final(writer)@, r, native_bytes(self@, ImageType::Ia16)),
    {
        match (self.color_type, self.bit_depth) {
            (ColorType::GrayscaleAlpha, BitDepth::Eight) => put_all(self.data.as_slice(), writer),
            (ColorType::Rgba, BitDepth::Eight) => pack(
                self.data.as_slice(),
                Packing::Ia16Rgba,
                writer,
            ),
            _ => {
                return Err(self.unsupported(ImageType::Ia16));
            },
        }
        Ok(())
    }

    /// Converts to 16-bit color, each pixel as a big-endian word: only
    /// from 8-bit RGBA.
    pub fn as_rgba16(&self, writer: &mut Vec<u8>) -> (r: Result<(), Error>)
        ensures
            appended(old(writer)@, final(writer)@, r, native_bytes(self@, ImageType::Rgba16)),
    {
        match (self.color_type, self.bit_depth) {
            (ColorType::Rgba, BitDepth::Eight) => pack(
                self.data.as_slice(),
                Packing::Rgba16,
                writer,
            ),
            _ => {
                return Err(self.unsupported(ImageType::Rgba16));
            },
        }
        Ok(())
    }

    /// Converts to 32-bit color: only from 8-bit RGBA, whose bytes are
    /// taken as they are.
    pub fn as_rgba32(&self, writer: &mut Vec<u8>) -> (r: Result<(), Error>)
        ensures
            appended(old(writer)@, final(writer)@, r, native_bytes(self@, ImageType::Rgba32)),
    {
        match (self.color_type, self.bit_depth) {
            (ColorType::Rgba, BitDepth::Eight) => put_all(self.data.as_slice(), writer),
            _ => {
                return Err(self.unsupported(ImageType::Rgba32));
            },
        }
        Ok(())
    }
}

} // verus!
