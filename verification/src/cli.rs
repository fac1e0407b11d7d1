//! Format names as the command line offers them.

use crate::{ImageSize, ImageType};
use vstd::prelude::*;

verus! {

/// Width of the integers of an emitted C array.
#[derive(Copy, Clone, Debug, PartialEq, Eq, Structural)]
pub enum CArrayWidth {
    U8,
    U16,
    U32,
    U64,
}

/// The output formats that the command line offers: the native formats,
/// and the palette of an indexed image.
#[derive(Copy, Clone, Debug, PartialEq, Eq, Structural)]
pub enum BinaryFormat {
    Ci4,
    Ci8,
    I1,
    I4,
    I8,
    Ia4,
    Ia8,
    Ia16,
    Rgba16,
    Rgba32,
    Palette,
}

impl BinaryFormat {
    /// The native format that this output format stands for; a palette
    /// stands for none.
    pub open spec fn spec_as_native(self) -> Option<ImageType> {
        match self {
            BinaryFormat::Ci4 => Some(ImageType::Ci4),
            BinaryFormat::Ci8 => Some(ImageType::Ci8),
            BinaryFormat::I1 => Some(ImageType::I1),
            BinaryFormat::I4 => Some(ImageType::I4),
            BinaryFormat::I8 => Some(ImageType::I8),
            BinaryFormat::Ia4 => Some(ImageType::Ia4),
            BinaryFormat::Ia8 => Some(ImageType::Ia8),
            BinaryFormat::Ia16 => Some(ImageType::Ia16),
            BinaryFormat::Rgba16 => Some(ImageType::Rgba16),
            BinaryFormat::Rgba32 => Some(ImageType::Rgba32),
            BinaryFormat::Palette => None,
        }
    }

    /// The width of C array elements that fits this format: that of one
    /// pixel where pixels take two or four bytes, that of one entry for
    /// a palette, and one byte otherwise.
    pub open spec fn spec_width(self) -> CArrayWidth {
        match self {
            BinaryFormat::Ia16 | BinaryFormat::Rgba16 | BinaryFormat::Palette => CArrayWidth::U16,
            BinaryFormat::Rgba32 => CArrayWidth::U32,
            _ => CArrayWidth::U8,
        }
    }

    /// Returns the width of C array elements that fits this format.
    pub fn get_width(&self) -> (width: CArrayWidth)
        ensures
            width == self.spec_width(),
    {
        match self {
            BinaryFormat::Ci4 => CArrayWidth::U8,
            BinaryFormat::Ci8 => CArrayWidth::U8,
            BinaryFormat::I1 => CArrayWidth::U8,
            BinaryFormat::I4 => CArrayWidth::U8,
            BinaryFormat::I8 => CArrayWidth::U8,
            BinaryFormat::Ia4 => CArrayWidth::U8,
            BinaryFormat::Ia8 => CArrayWidth::U8,
            BinaryFormat::Ia16 => CArrayWidth::U16,
            BinaryFormat::Rgba16 => CArrayWidth::U16,
            BinaryFormat::Rgba32 => CArrayWidth::U32,
            BinaryFormat::Palette => CArrayWidth::U16,
        }
    }

    /// Returns the native format that this output format stands for.
    pub fn as_native(&self) -> (format: Option<ImageType>)
        ensures
            format == self.spec_as_native(),
    {
        match self {
            BinaryFormat::Ci4 => Some(ImageType::Ci4),
            BinaryFormat::Ci8 => Some(ImageType::Ci8),
            BinaryFormat::I1 => Some(ImageType::I1),
            BinaryFormat::I4 => Some(ImageType::I4),
            BinaryFormat::I8 => Some(ImageType::I8),
            BinaryFormat::Ia4 => Some(ImageType::Ia4),
            BinaryFormat::Ia8 => Some(ImageType::Ia8),
            BinaryFormat::Ia16 => Some(ImageType::Ia16),
            BinaryFormat::Rgba16 => Some(ImageType::Rgba16),
            BinaryFormat::Rgba32 => Some(ImageType::Rgba32),
            BinaryFormat::Palette => None,
        }
    }

    /// Returns the bit width of the pixels of this output format; a
    /// palette has none.
    pub fn get_size(&self) -> (size: Option<ImageSize>)
        ensures
            size == match self.spec_as_native() {
                Some(format) => Some(format.spec_size()),
                None => None,
            },
    {
        match self {
            BinaryFormat::Ci4 => Some(ImageSize::Bits4),
            BinaryFormat::Ci8 => Some(ImageSize::Bits8),
            BinaryFormat::I1 => Some(ImageSize::Bits1),
            BinaryFormat::I4 => Some(ImageSize::Bits4),
            BinaryFormat::I8 => Some(ImageSize::Bits8),
            BinaryFormat::Ia4 => Some(ImageSize::Bits4),
            BinaryFormat::Ia8 => Some(ImageSize::Bits8),
            BinaryFormat::Ia16 => Some(ImageSize::Bits16),
            BinaryFormat::Rgba16 => Some(ImageSize::Bits16),
            BinaryFormat::Rgba32 => Some(ImageSize::Bits32),
            BinaryFormat::Palette => None,
        }
    }
}

/// The output formats of the plain conversion of an image: the native
/// formats but the one of one bit, and the palette of an indexed image.
#[derive(Copy, Clone, Debug, PartialEq, Eq, Structural)]
pub enum OutputFormat {
    Ci4,
    Ci8,
    I4,
    I8,
    Ia4,
    Ia8,
    Ia16,
    Rgba16,
    Rgba32,
    Palette,
}

impl OutputFormat {
    /// The native format that this output format stands for; a palette
    /// stands for none.
    pub open spec fn spec_as_native(self) -> Option<ImageType> {
        match self {
            OutputFormat::Ci4 => Some(ImageType::Ci4),
            OutputFormat::Ci8 => Some(ImageType::Ci8),
            OutputFormat::I4 => Some(ImageType::I4),
            OutputFormat::I8 => Some(ImageType::I8),
            OutputFormat::Ia4 => Some(ImageType::Ia4),
            OutputFormat::Ia8 => Some(ImageType::Ia8),
            OutputFormat::Ia16 => Some(ImageType::Ia16),
            OutputFormat::Rgba16 => Some(ImageType::Rgba16),
            OutputFormat::Rgba32 => Some(ImageType::Rgba32),
            OutputFormat::Palette => None,
        }
    }

    /// The width of C array elements that fits this format: that of one
    /// pixel where pixels take two or four bytes, that of one entry for
    /// a palette, and one byte otherwise.
    pub open spec fn spec_width(self) -> CArrayWidth {
        match self {
            OutputFormat::Ia16 | OutputFormat::Rgba16 | OutputFormat::Palette => CArrayWidth::U16,
            OutputFormat::Rgba32 => CArrayWidth::U32,
            _ => CArrayWidth::U8,
        }
    }

    /// Returns the width of C array elements that fits this format.
    pub fn get_width(&self) -> (width: CArrayWidth)
        ensures
            width == self.spec_width(),
    {
        match self {
            OutputFormat::Ci4 => CArrayWidth::U8,
            OutputFormat::Ci8 => CArrayWidth::U8,
            OutputFormat::I4 => CArrayWidth::U8,
            OutputFormat::I8 => CArrayWidth::U8,
            OutputFormat::Ia4 => CArrayWidth::U8,
            OutputFormat::Ia8 => CArrayWidth::U8,
            OutputFormat::Ia16 => CArrayWidth::U16,
            OutputFormat::Rgba16 => CArrayWidth::U16,
            OutputFormat::Rgba32 => CArrayWidth::U32,
            OutputFormat::Palette => CArrayWidth::U16,
        }
    }

    /// Returns the native format that this output format stands for. A
    /// palette stands for none, and is not to be asked.
    pub fn as_native(&self) -> (format: ImageType)
        requires
            *self != OutputFormat::Palette,
        ensures
            Some(format) == self.spec_as_native(),
    {
        match self {
            OutputFormat::Ci4 => ImageType::Ci4,
            OutputFormat::Ci8 => ImageType::Ci8,
            OutputFormat::I4 => ImageType::I4,
            OutputFormat::I8 => ImageType::I8,
            OutputFormat::Ia4 => ImageType::Ia4,
            OutputFormat::Ia8 => ImageType::Ia8,
            OutputFormat::Ia16 => ImageType::Ia16,
            OutputFormat::Rgba16 => ImageType::Rgba16,
            _ => ImageType::Rgba32,
        }
    }
}

} // verus!
