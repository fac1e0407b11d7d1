//! Images in both representations, and the outside codecs they rest on.

pub mod big_endian;
pub mod flip;
pub mod native_image;
pub mod packing;
pub mod png_image;
pub mod png_io;
pub mod round_trip;
pub mod tlut;
pub mod word_swap;
