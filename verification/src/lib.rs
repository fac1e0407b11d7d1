//! Pixel-format codec for packed native textures: decoding to RGBA8,
//! encoding from decoded image containers, palettes, and the row
//! transforms shared by both directions.

pub mod bits;
pub mod cli;
pub mod color;
pub mod format;
pub mod image;

pub use crate::image::native_image::NativeImage;
pub use crate::image::png_image::{create_palette_from_png, BitDepth, ColorType, PNGImage};

use vstd::prelude::*;

verus! {

/// How a read from a byte buffer in memory can fail.
#[derive(Copy, Clone, Debug, PartialEq, Eq, Structural)]
pub enum IoError {
    /// The buffer ended before the value that was asked for.
    UnexpectedEof,
}

/// Everything that a conversion can fail with.
#[derive(Debug)]
#[non_exhaustive]
pub enum Error {
    /// The bit width has no palette size.
    InvalidSizeForTlut(ImageSize),
    /// A color-indexed format was given no palette.
    MissingTlut,
    /// The palette's entries are in a mode that is not implemented.
    UnsupportedTlutMode(TextureLUT),
    /// A pixel's index has no entry in the palette.
    TlutIndexOutOfBounds,
    /// Packed data ended too early.
    Io(IoError),
    /// The PNG encoder refused the image.
    PngEncoding(png::EncodingError),
    /// The PNG decoder refused the stream.
    PngDecoding(png::DecodingError),
    /// The PNG holds no palette.
    MissingPngPalette,
    /// The native format cannot be derived from an image of this color
    /// type and bit depth.
    UnsupportedPngConversion { color: ColorType, depth: BitDepth, target_format: ImageType },
    /// A palette is no pixel format.
    PaletteConversionError,
}

/// Bit width of one pixel.
#[derive(Copy, Clone, Debug, PartialEq, Eq, Hash, Structural)]
pub enum ImageSize {
    Bits1,
    Bits4,
    Bits8,
    Bits16,
    Bits32,
    /// Reserved; no format uses it.
    DD,
}

impl ImageSize {
    /// The number that stands for this bit width where formats are given by number.
    pub open spec fn spec_to_u8(self) -> u8 {
        match self {
            ImageSize::Bits1 => 4,
            ImageSize::Bits4 => 0,
            ImageSize::Bits8 => 1,
            ImageSize::Bits16 => 2,
            ImageSize::Bits32 => 3,
            ImageSize::DD => 5,
        }
    }

    /// The bit width that `code` stands for.
    pub open spec fn spec_from_u8(code: u8) -> Option<ImageSize> {
        if code == 4 {
            Some(ImageSize::Bits1)
        } else if code == 0 {
            Some(ImageSize::Bits4)
        } else if code == 1 {
            Some(ImageSize::Bits8)
        } else if code == 2 {
            Some(ImageSize::Bits16)
        } else if code == 3 {
            Some(ImageSize::Bits32)
        } else if code == 5 {
            Some(ImageSize::DD)
        } else {
            None
        }
    }

    /// Returns the number that stands for this value.
    pub fn to_u8(self) -> (code: u8)
        ensures
            code == self.spec_to_u8(),
            ImageSize::spec_from_u8(code) == Some(self),
    {
        match self {
            ImageSize::Bits1 => 4,
            ImageSize::Bits4 => 0,
            ImageSize::Bits8 => 1,
            ImageSize::Bits16 => 2,
            ImageSize::Bits32 => 3,
            ImageSize::DD => 5,
        }
    }

    /// Returns the value that `code` stands for, if it stands for one.
    pub fn from_u8(code: u8) -> (value: Option<ImageSize>)
        ensures
            value == ImageSize::spec_from_u8(code),
            value is Some ==> value->Some_0.spec_to_u8() == code,
    {
        match code {
            0 => Some(ImageSize::Bits4),
            1 => Some(ImageSize::Bits8),
            2 => Some(ImageSize::Bits16),
            3 => Some(ImageSize::Bits32),
            4 => Some(ImageSize::Bits1),
            5 => Some(ImageSize::DD),
            _ => None,
        }
    }

    /// Number of palette entries that go with this bit width.
    pub open spec fn spec_tlut_size(self) -> Option<usize> {
        match self {
            ImageSize::Bits1 => Some(2usize),
            ImageSize::Bits4 => Some(16usize),
            ImageSize::Bits8 => Some(256usize),
            ImageSize::Bits16 => Some(4096usize),
            ImageSize::Bits32 => Some(65536usize),
            ImageSize::DD => None,
        }
    }

    /// Number of bits that one pixel takes.
    pub open spec fn spec_bpp(self) -> u32 {
        match self {
            ImageSize::Bits1 => 1u32,
            ImageSize::Bits4 => 4u32,
            ImageSize::Bits8 => 8u32,
            ImageSize::Bits16 => 16u32,
            ImageSize::Bits32 => 32u32,
            ImageSize::DD => 0u32,
        }
    }

    /// Returns the number of entries of a palette for this bit width, or
    /// `None` where the width has none.
    pub fn get_tlut_size(&self) -> (n: Option<usize>)
        ensures
            n == self.spec_tlut_size(),
    {
        match self {
            ImageSize::Bits1 => Some(0b10),
            ImageSize::Bits4 => Some(0x10),
            ImageSize::Bits8 => Some(0x100),
            ImageSize::Bits16 => Some(0x1000),
            ImageSize::Bits32 => Some(0x10000),
            _ => None,
        }
    }

    /// Returns the bits per pixel.
    pub fn get_bpp(&self) -> (bpp: u32)
        ensures
            bpp == self.spec_bpp(),
    {
        match self {
            ImageSize::Bits1 => 1,
            ImageSize::Bits4 => 4,
            ImageSize::Bits8 => 8,
            ImageSize::Bits16 => 16,
            ImageSize::Bits32 => 32,
            ImageSize::DD => 0,
        }
    }
}

/// Color model of a native format.
#[derive(Copy, Clone, Debug, PartialEq, Eq, Hash, Structural)]
pub enum ImageFormat {
    Rgba,
    Yuv,
    Ci,
    Ia,
    I,
}

impl ImageFormat {
    /// The number that stands for this color model where formats are given by number.
    pub open spec fn spec_to_u8(self) -> u8 {
        match self {
            ImageFormat::Rgba => 0,
            ImageFormat::Yuv => 1,
            ImageFormat::Ci => 2,
            ImageFormat::Ia => 3,
            ImageFormat::I => 4,
        }
    }

    /// The color model that `code` stands for.
    pub open spec fn spec_from_u8(code: u8) -> Option<ImageFormat> {
        if code == 0 {
            Some(ImageFormat::Rgba)
        } else if code == 1 {
            Some(ImageFormat::Yuv)
        } else if code == 2 {
            Some(ImageFormat::Ci)
        } else if code == 3 {
            Some(ImageFormat::Ia)
        } else if code == 4 {
            Some(ImageFormat::I)
        } else {
            None
        }
    }

    /// Returns the number that stands for this value.
    pub fn to_u8(self) -> (code: u8)
        ensures
            code == self.spec_to_u8(),
            ImageFormat::spec_from_u8(code) == Some(self),
    {
        match self {
            ImageFormat::Rgba => 0,
            ImageFormat::Yuv => 1,
            ImageFormat::Ci => 2,
            ImageFormat::Ia => 3,
            ImageFormat::I => 4,
        }
    }

    /// Returns the value that `code` stands for, if it stands for one.
    pub fn from_u8(code: u8) -> (value: Option<ImageFormat>)
        ensures
            value == ImageFormat::spec_from_u8(code),
            value is Some ==> value->Some_0.spec_to_u8() == code,
    {
        match code {
            0 => Some(ImageFormat::Rgba),
            1 => Some(ImageFormat::Yuv),
            2 => Some(ImageFormat::Ci),
            3 => Some(ImageFormat::Ia),
            4 => Some(ImageFormat::I),
            _ => None,
        }
    }
}

/// The native pixel encodings: intensity (I), intensity with alpha (Ia),
/// color-indexed (Ci) and direct color (Rgba), each at the bit width in
/// its name.
#[derive(Copy, Clone, Debug, PartialEq, Eq, Hash, Structural)]
pub enum ImageType {
    I1,
    I4,
    I8,
    Ia4,
    Ia8,
    Ia16,
    Ci4,
    Ci8,
    Rgba16,
    Rgba32,
}

/// `str`'s `==`, which vstd leaves without a specification: whether the
/// two strings hold the same characters.
#[verifier::external_body]
fn same_text(a: &str, b: &str) -> (same: bool)
    ensures
        same == (a@ == b@),
{
    a == b
}

impl ImageType {
    /// Number of native encodings.
    pub const COUNT: usize = 10;

    /// The number of this encoding: its place in the order of declaration.
    pub open spec fn spec_to_u8(self) -> u8 {
        match self {
            ImageType::I1 => 0,
            ImageType::I4 => 1,
            ImageType::I8 => 2,
            ImageType::Ia4 => 3,
            ImageType::Ia8 => 4,
            ImageType::Ia16 => 5,
            ImageType::Ci4 => 6,
            ImageType::Ci8 => 7,
            ImageType::Rgba16 => 8,
            ImageType::Rgba32 => 9,
        }
    }

    /// The encoding that `code` stands for.
    pub open spec fn spec_from_u8(code: u8) -> Option<ImageType> {
        if code == 0 {
            Some(ImageType::I1)
        } else if code == 1 {
            Some(ImageType::I4)
        } else if code == 2 {
            Some(ImageType::I8)
        } else if code == 3 {
            Some(ImageType::Ia4)
        } else if code == 4 {
            Some(ImageType::Ia8)
        } else if code == 5 {
            Some(ImageType::Ia16)
        } else if code == 6 {
            Some(ImageType::Ci4)
        } else if code == 7 {
            Some(ImageType::Ci8)
        } else if code == 8 {
            Some(ImageType::Rgba16)
        } else if code == 9 {
            Some(ImageType::Rgba32)
        } else {
            None
        }
    }

    /// Returns the number that stands for this value.
    pub fn to_u8(self) -> (code: u8)
        ensures
            code == self.spec_to_u8(),
            ImageType::spec_from_u8(code) == Some(self),
    {
        match self {
            ImageType::I1 => 0,
            ImageType::I4 => 1,
            ImageType::I8 => 2,
            ImageType::Ia4 => 3,
            ImageType::Ia8 => 4,
            ImageType::Ia16 => 5,
            ImageType::Ci4 => 6,
            ImageType::Ci8 => 7,
            ImageType::Rgba16 => 8,
            ImageType::Rgba32 => 9,
        }
    }

    /// Returns the value that `code` stands for, if it stands for one.
    pub fn from_u8(code: u8) -> (value: Option<ImageType>)
        ensures
            value == ImageType::spec_from_u8(code),
            value is Some ==> value->Some_0.spec_to_u8() == code,
    {
        match code {
            0 => Some(ImageType::I1),
            1 => Some(ImageType::I4),
            2 => Some(ImageType::I8),
            3 => Some(ImageType::Ia4),
            4 => Some(ImageType::Ia8),
            5 => Some(ImageType::Ia16),
            6 => Some(ImageType::Ci4),
            7 => Some(ImageType::Ci8),
            8 => Some(ImageType::Rgba16),
            9 => Some(ImageType::Rgba32),
            _ => None,
        }
    }

    /// All native encodings, in the order of their declaration.
    pub open spec fn spec_all() -> Seq<ImageType> {
        seq![
            ImageType::I1,
            ImageType::I4,
            ImageType::I8,
            ImageType::Ia4,
            ImageType::Ia8,
            ImageType::Ia16,
            ImageType::Ci4,
            ImageType::Ci8,
            ImageType::Rgba16,
            ImageType::Rgba32,
        ]
    }

    /// The encoding that goes by `name`: its variant's name in lower
    /// case.
    pub open spec fn spec_from_name(name: Seq<char>) -> Option<ImageType> {
        if name == "rgba32"@ {
            Some(ImageType::Rgba32)
        } else if name == "rgba16"@ {
            Some(ImageType::Rgba16)
        } else if name == "ia16"@ {
            Some(ImageType::Ia16)
        } else if name == "ia8"@ {
            Some(ImageType::Ia8)
        } else if name == "ia4"@ {
            Some(ImageType::Ia4)
        } else if name == "i8"@ {
            Some(ImageType::I8)
        } else if name == "i4"@ {
            Some(ImageType::I4)
        } else if name == "i1"@ {
            Some(ImageType::I1)
        } else if name == "ci8"@ {
            Some(ImageType::Ci8)
        } else if name == "ci4"@ {
            Some(ImageType::Ci4)
        } else {
            None
        }
    }

    /// Goes through all native encodings, in the order of their
    /// declaration.
    pub fn iter() -> (all: std::vec::IntoIter<ImageType>)
        ensures
            vstd::std_specs::iter::IteratorSpec::remaining(&all) == ImageType::spec_all(),
    {
        broadcast use vstd::std_specs::vec::axiom_spec_into_iter;

        let all: Vec<ImageType> = vec![
            ImageType::I1,
            ImageType::I4,
            ImageType::I8,
            ImageType::Ia4,
            ImageType::Ia8,
            ImageType::Ia16,
            ImageType::Ci4,
            ImageType::Ci8,
            ImageType::Rgba16,
            ImageType::Rgba32,
        ];
        assert(all@ =~= ImageType::spec_all());
        all.into_iter()
    }

    /// Returns the encoding that goes by `name`, if one does.
    pub fn from_name(name: &str) -> (format: Option<Self>)
        ensures
            format == ImageType::spec_from_name(name@),
    {
        if same_text(name, "rgba32") {
            Some(ImageType::Rgba32)
        } else if same_text(name, "rgba16") {
            Some(ImageType::Rgba16)
        } else if same_text(name, "ia16") {
            Some(ImageType::Ia16)
        } else if same_text(name, "ia8") {
            Some(ImageType::Ia8)
        } else if same_text(name, "ia4") {
            Some(ImageType::Ia4)
        } else if same_text(name, "i8") {
            Some(ImageType::I8)
        } else if same_text(name, "i4") {
            Some(ImageType::I4)
        } else if same_text(name, "i1") {
            Some(ImageType::I1)
        } else if same_text(name, "ci8") {
            Some(ImageType::Ci8)
        } else if same_text(name, "ci4") {
            Some(ImageType::Ci4)
        } else {
            None
        }
    }

    /// Bit width of the pixels of this encoding.
    pub open spec fn spec_size(self) -> ImageSize {
        match self {
            ImageType::I1 => ImageSize::Bits1,
            ImageType::I4 | ImageType::Ia4 | ImageType::Ci4 => ImageSize::Bits4,
            ImageType::I8 | ImageType::Ia8 | ImageType::Ci8 => ImageSize::Bits8,
            ImageType::Ia16 | ImageType::Rgba16 => ImageSize::Bits16,
            ImageType::Rgba32 => ImageSize::Bits32,
        }
    }

    /// Color model of this encoding.
    pub open spec fn spec_format(self) -> ImageFormat {
        match self {
            ImageType::I1 | ImageType::I4 | ImageType::I8 => ImageFormat::I,
            ImageType::Ia4 | ImageType::Ia8 | ImageType::Ia16 => ImageFormat::Ia,
            ImageType::Ci4 | ImageType::Ci8 => ImageFormat::Ci,
            ImageType::Rgba16 | ImageType::Rgba32 => ImageFormat::Rgba,
        }
    }

    /// Returns the bit width of the pixels of this encoding.
    pub fn get_size(&self) -> (size: ImageSize)
        ensures
            size == self.spec_size(),
    {
        match self {
            ImageType::Ci4 => ImageSize::Bits4,
            ImageType::Ci8 => ImageSize::Bits8,
            ImageType::I1 => ImageSize::Bits1,
            ImageType::I4 => ImageSize::Bits4,
            ImageType::I8 => ImageSize::Bits8,
            ImageType::Ia4 => ImageSize::Bits4,
            ImageType::Ia8 => ImageSize::Bits8,
            ImageType::Ia16 => ImageSize::Bits16,
            ImageType::Rgba16 => ImageSize::Bits16,
            ImageType::Rgba32 => ImageSize::Bits32,
        }
    }

    /// Returns the color model of this encoding.
    pub fn get_format(&self) -> (format: ImageFormat)
        ensures
            format == self.spec_format(),
    {
        match self {
            ImageType::Ci4 => ImageFormat::Ci,
            ImageType::Ci8 => ImageFormat::Ci,
            ImageType::I1 => ImageFormat::I,
            ImageType::I4 => ImageFormat::I,
            ImageType::I8 => ImageFormat::I,
            ImageType::Ia4 => ImageFormat::Ia,
            ImageType::Ia8 => ImageFormat::Ia,
            ImageType::Ia16 => ImageFormat::Ia,
            ImageType::Rgba16 => ImageFormat::Rgba,
            ImageType::Rgba32 => ImageFormat::Rgba,
        }
    }
}

/// How the 16-bit entries of a compact palette are to be read.
#[derive(Copy, Clone, Debug, PartialEq, Eq, Hash, Structural)]
pub enum TextureLUT {
    /// No palette in use.
    NoLut,
    Rgba16,
    Ia16,
}

impl TextureLUT {
    /// The number that stands for this mode where modes are given by number.
    pub open spec fn spec_to_u8(self) -> u8 {
        match self {
            TextureLUT::NoLut => 0,
            TextureLUT::Rgba16 => 2,
            TextureLUT::Ia16 => 3,
        }
    }

    /// The mode that `code` stands for.
    pub open spec fn spec_from_u8(code: u8) -> Option<TextureLUT> {
        if code == 0 {
            Some(TextureLUT::NoLut)
        } else if code == 2 {
            Some(TextureLUT::Rgba16)
        } else if code == 3 {
            Some(TextureLUT::Ia16)
        } else {
            None
        }
    }

    /// Returns the number that stands for this value.
    pub fn to_u8(self) -> (code: u8)
        ensures
            code == self.spec_to_u8(),
            TextureLUT::spec_from_u8(code) == Some(self),
    {
        match self {
            TextureLUT::NoLut => 0,
            TextureLUT::Rgba16 => 2,
            TextureLUT::Ia16 => 3,
        }
    }

    /// Returns the value that `code` stands for, if it stands for one.
    pub fn from_u8(code: u8) -> (value: Option<TextureLUT>)
        ensures
            value == TextureLUT::spec_from_u8(code),
            value is Some ==> value->Some_0.spec_to_u8() == code,
    {
        match code {
            0 => Some(TextureLUT::NoLut),
            2 => Some(TextureLUT::Rgba16),
            3 => Some(TextureLUT::Ia16),
            _ => None,
        }
    }
}

} // verus!
