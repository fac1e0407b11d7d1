//! The PNG codec as this crate sees it: streams of bytes in and out, with
//! everything about the format itself left to the `png` crate.

use vstd::prelude::*;

verus! {

/// Error of the `png` crate's encoder; carried, never looked into.
#[verifier::external_type_specification]
#[verifier::external_body]
pub struct ExEncodingError(png::EncodingError);

/// Error of the `png` crate's decoder; carried, never looked into.
#[verifier::external_type_specification]
#[verifier::external_body]
pub struct ExDecodingError(png::DecodingError);

/// What an encoder run leaves behind: the bytes it put out, and whether
/// it got to the end of the image.
pub struct Written {
    pub bytes: Seq<u8>,
    pub complete: bool,
}

/// One decoded image frame as the decoder reports it, with color type
/// and bit depth as the numbers that a PNG header holds.
pub struct RawFrame {
    pub data: Seq<u8>,
    pub color: u8,
    pub depth: u8,
    pub width: u32,
    pub height: u32,
}

/// The palette and transparency chunks of a PNG stream, each as found.
pub struct RawPalette {
    pub rgb: Option<Seq<u8>>,
    pub alpha: Option<Seq<u8>>,
}

/// Whether `code` is one of the color types of a PNG header.
pub open spec fn is_color_code(code: u8) -> bool {
    code == 0 || code == 2 || code == 3 || code == 4 || code == 6
}

/// Whether `code` is one of the bit depths of a PNG header.
pub open spec fn is_depth_code(code: u8) -> bool {
    code == 1 || code == 2 || code == 4 || code == 8 || code == 16
}

/// Number of samples of a pixel of the color type `code`.
pub open spec fn samples_of_code(code: u8) -> int {
    if code == 2 {
        3
    } else if code == 4 {
        2
    } else if code == 6 {
        4
    } else {
        1
    }
}

/// Number of bytes of one row of `width` pixels: its bits, rounded up to
/// whole bytes.
pub open spec fn row_len(color: u8, depth: u8, width: u32) -> int {
    (width * samples_of_code(color) * depth + 7) / 8
}

/// What the `png` crate's encoder writes for one image of the given
/// header fields, palette and transparency chunks, and sample data.
pub uninterp spec fn png_stream(
    width: u32,
    height: u32,
    color: u8,
    depth: u8,
    palette: Option<Seq<u8>>,
    trns: Option<Seq<u8>>,
    data: Seq<u8>,
) -> Written;

/// The first frame that the `png` crate's decoder finds in `stream`, or
/// `None` where it fails.
pub uninterp spec fn png_frame(stream: Seq<u8>) -> Option<RawFrame>;

/// The palette chunks that the `png` crate's decoder finds ahead of the
/// image data of `stream`, or `None` where it fails before it gets there.
pub uninterp spec fn png_palette(stream: Seq<u8>) -> Option<RawPalette>;

/// The view of an optional byte vector.
pub open spec fn view_of(bytes: Option<Vec<u8>>) -> Option<Seq<u8>> {
    match bytes {
        Some(v) => Some(v@),
        None => None,
    }
}

/// `png::Encoder` from `new` through `write_header` to
/// `Writer::write_image_data`, for an image without a palette. Whatever
/// the encoder puts out is appended to `writer`, also where it fails on
/// the way; it succeeds exactly where the named stream is complete. The
/// precondition keeps the encoder's size arithmetic within `usize`.
#[verifier::external_body]
pub(crate) fn write_png(
    writer: &mut Vec<u8>,
    width: u32,
    height: u32,
    color: u8,
    depth: u8,
    data: &[u8],
) -> (r: Result<(), png::EncodingError>)
    requires
        is_color_code(color),
        is_depth_code(depth),
        row_len(color, depth, width) * height <= usize::MAX,
    ensures
        final(writer)@ == old(writer)@ + png_stream(
            width,
            height,
            color,
            depth,
            None,
            None,
            data@,
        ).bytes,
        r is Ok <==> png_stream(width, height, color, depth, None, None, data@).complete,
{
    let mut encoder = png::Encoder::new(writer, width, height);
    encoder.set_color(png::ColorType::from_u8(color).unwrap());
    encoder.set_depth(png::BitDepth::from_u8(depth).unwrap());
    let mut stream = encoder.write_header()?;
    stream.write_image_data(data)
}

/// `png::Encoder` as in `write_png`, for an indexed image: the color
/// type is 3, and `set_palette` and `set_trns` hand over the two chunks.
#[verifier::external_body]
pub(crate) fn write_indexed_png(
    writer: &mut Vec<u8>,
    width: u32,
    height: u32,
    depth: u8,
    palette: Vec<u8>,
    trns: Vec<u8>,
    data: &[u8],
) -> (r: Result<(), png::EncodingError>)
    requires
        is_depth_code(depth),
        row_len(3, depth, width) * height <= usize::MAX,
    ensures
        final(writer)@ == old(writer)@ + png_stream(
            width,
            height,
            3,
            depth,
            Some(palette@),
            Some(trns@),
            data@,
        ).bytes,
        r is Ok <==> png_stream(
            width,
            height,
            3,
            depth,
            Some(palette@),
            Some(trns@),
            data@,
        ).complete,
{
    let mut encoder = png::Encoder::new(writer, width, height);
    encoder.set_color(png::ColorType::Indexed);
    encoder.set_depth(png::BitDepth::from_u8(depth).unwrap());
    encoder.set_palette(palette);
    encoder.set_trns(trns);
    let mut stream = encoder.write_header()?;
    stream.write_image_data(data)
}

/// `png::Decoder::read_info`, then `Reader::next_frame` into a buffer of
/// `output_buffer_size` bytes, cut to the frame's own size. The decoder
/// reports color type and bit depth as enums whose numbers are those of
/// the PNG header, which is all that is claimed of them.
#[verifier::external_body]
pub(crate) fn read_png(stream: &[u8]) -> (r: Result<
    (Vec<u8>, u8, u8, u32, u32),
    png::DecodingError,
>)
    ensures
        match r {
            Ok(f) => png_frame(stream@) == Some(
                RawFrame { data: f.0@, color: f.1, depth: f.2, width: f.3, height: f.4 },
            ) && is_color_code(f.1) && is_depth_code(f.2),
            Err(_) => png_frame(stream@) is None,
        },
{
    let mut reader = png::Decoder::new(stream).read_info()?;
    let mut buf = vec![0; reader.output_buffer_size()];
    let info = reader.next_frame(&mut buf)?;
    buf.truncate(info.buffer_size());
    Ok((buf, info.color_type as u8, info.bit_depth as u8, info.width, info.height))
}

/// `png::Decoder::read_info`, then the `palette` and `trns` fields of
/// `Reader::info`, copied out.
#[verifier::external_body]
pub(crate) fn read_png_palette(stream: &[u8]) -> (r: Result<
    (Option<Vec<u8>>, Option<Vec<u8>>),
    png::DecodingError,
>)
    ensures
        match r {
            Ok(p) => png_palette(stream@) == Some(
                RawPalette { rgb: view_of(p.0), alpha: view_of(p.1) },
            ),
            Err(_) => png_palette(stream@) is None,
        },
{
    let reader = png::Decoder::new(stream).read_info()?;
    let info = reader.info();
    let rgb = info.palette.clone().map(std::borrow::Cow::into_owned);
    let alpha = info.trns.clone().map(std::borrow::Cow::into_owned);
    Ok((rgb, alpha))
}

} // verus!
