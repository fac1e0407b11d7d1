use pigment64::image::native_image::{
    get_tlut_color_at_index, parse_tlut, split_color_table_for_png,
};
use pigment64::{Error, ImageSize, ImageType, IoError, NativeImage, TextureLUT};

fn decoded(format: ImageType, width: u32, height: u32, data: &[u8], tlut: Option<&[u8]>) -> Vec<u8> {
    let image = NativeImage::read(data, format, width, height).unwrap();
    let mut out: Vec<u8> = Vec::new();
    image.decode(&mut out, tlut).unwrap();
    out
}

/// A palette of `entries` entries whose entry `i` is `(i, i + 1, i + 2, i + 3)`, wrapping.
fn counting_table(entries: usize) -> Vec<u8> {
    let mut table: Vec<u8> = Vec::new();
    for i in 0..entries {
        for c in 0..4 {
            table.push((i + c) as u8);
        }
    }
    table
}

#[test]
fn decode_i1_takes_bits_from_the_top() {
    let out = decoded(ImageType::I1, 8, 1, &[0b1010_0101], None);
    let levels: Vec<u8> = vec![255, 0, 255, 0, 0, 255, 0, 255];
    let mut expected: Vec<u8> = Vec::new();
    for level in levels {
        expected.extend_from_slice(&[level, level, level, 255]);
    }
    assert_eq!(out, expected);
}

#[test]
fn decode_i1_reads_a_whole_byte_for_a_partial_row() {
    // Nine pixels take two bytes, and all sixteen bits of them come out.
    let out = decoded(ImageType::I1, 9, 2, &[0xFF, 0x80, 0x00, 0x01], None);
    assert_eq!(out.len(), 2 * 16 * 4);
    assert_eq!(&out[..4], &[255, 255, 255, 255]);
    assert_eq!(&out[8 * 4..8 * 4 + 4], &[255, 255, 255, 255]);
    assert_eq!(&out[9 * 4..9 * 4 + 4], &[0, 0, 0, 255]);
    assert_eq!(&out[31 * 4..], &[255, 255, 255, 255]);
}

#[test]
fn decode_i4_moves_each_half_to_the_top() {
    let out = decoded(ImageType::I4, 2, 1, &[0xAB], None);
    assert_eq!(out, vec![0xA0, 0xA0, 0xA0, 255, 0xB0, 0xB0, 0xB0, 255]);
}

#[test]
fn decode_i4_of_odd_width_reads_whole_bytes() {
    let out = decoded(ImageType::I4, 3, 1, &[0x12, 0x34], None);
    assert_eq!(
        out,
        vec![0x10, 0x10, 0x10, 255, 0x20, 0x20, 0x20, 255, 0x30, 0x30, 0x30, 255, 0x40, 0x40, 0x40, 255]
    );
}

#[test]
fn decode_i8_repeats_the_byte() {
    let out = decoded(ImageType::I8, 2, 1, &[7, 200], None);
    assert_eq!(out, vec![7, 7, 7, 255, 200, 200, 200, 255]);
}

#[test]
fn decode_ia4_has_three_bits_of_intensity_and_one_of_alpha() {
    // 0xF: intensity 7 * 32, opaque. 0x6: intensity 3 * 32, transparent.
    let out = decoded(ImageType::Ia4, 2, 1, &[0xF6], None);
    assert_eq!(out, vec![224, 224, 224, 255, 96, 96, 96, 0]);
    let out = decoded(ImageType::Ia4, 2, 1, &[0x01], None);
    assert_eq!(out, vec![0, 0, 0, 0, 0, 0, 0, 255]);
}

#[test]
fn decode_ia8_has_a_half_byte_each() {
    let out = decoded(ImageType::Ia8, 1, 1, &[0xC5], None);
    assert_eq!(out, vec![0xC0, 0xC0, 0xC0, 0x50]);
}

#[test]
fn decode_ia16_has_a_byte_each() {
    let out = decoded(ImageType::Ia16, 2, 1, &[1, 2, 3, 4], None);
    assert_eq!(out, vec![1, 1, 1, 2, 3, 3, 3, 4]);
}

#[test]
fn decode_rgba16_reads_big_endian_words() {
    // 0xD555 is 11010 10101 01010 1.
    let out = decoded(ImageType::Rgba16, 3, 1, &[0xD5, 0x55, 0xFF, 0xFF, 0x00, 0x00], None);
    assert_eq!(out, vec![214, 173, 82, 255, 255, 255, 255, 255, 0, 0, 0, 0]);
    // The low byte alone holds the alpha bit.
    let out = decoded(ImageType::Rgba16, 1, 1, &[0x00, 0x01], None);
    assert_eq!(out, vec![0, 0, 0, 255]);
    let out = decoded(ImageType::Rgba16, 1, 1, &[0x01, 0x00], None);
    assert_eq!(out, vec![0, 33, 0, 0]);
}

#[test]
fn decode_rgba32_reads_big_endian_words() {
    let out = decoded(ImageType::Rgba32, 2, 1, &[1, 2, 3, 4, 250, 251, 252, 253], None);
    assert_eq!(out, vec![1, 2, 3, 4, 250, 251, 252, 253]);
}

#[test]
fn decode_ci4_looks_indices_up() {
    let table = counting_table(16);
    let out = decoded(ImageType::Ci4, 2, 2, &[0x0F, 0x31], Some(&table));
    assert_eq!(
        out,
        vec![0, 1, 2, 3, 15, 16, 17, 18, 3, 4, 5, 6, 1, 2, 3, 4]
    );
}

#[test]
fn decode_ci8_looks_indices_up() {
    let table = counting_table(256);
    let out = decoded(ImageType::Ci8, 3, 1, &[0, 63, 200], Some(&table));
    assert_eq!(out, vec![0, 1, 2, 3, 63, 64, 65, 66, 200, 201, 202, 203]);
}

#[test]
fn decode_appends_to_what_is_there() {
    let image = NativeImage::read(&[9], ImageType::I8, 1, 1).unwrap();
    let mut out: Vec<u8> = vec![1, 2];
    image.decode(&mut out, None).unwrap();
    assert_eq!(out, vec![1, 2, 9, 9, 9, 255]);
}

#[test]
fn decode_ignores_data_beyond_the_image() {
    let out = decoded(ImageType::I8, 1, 1, &[5, 6, 7], None);
    assert_eq!(out, vec![5, 5, 5, 255]);
}

#[test]
fn decode_of_no_pixels_gives_nothing() {
    assert!(decoded(ImageType::Rgba32, 0, 5, &[], None).is_empty());
    assert!(decoded(ImageType::I1, 5, 0, &[], None).is_empty());
}

#[test]
fn decode_stops_where_the_data_ends() {
    let image = NativeImage::read(&[7], ImageType::I8, 2, 1).unwrap();
    let mut out: Vec<u8> = Vec::new();
    let r = image.decode(&mut out, None);
    assert!(matches!(r, Err(Error::Io(IoError::UnexpectedEof))));
    assert_eq!(out, vec![7, 7, 7, 255]);
}

#[test]
fn decode_needs_both_bytes_of_a_pixel() {
    let image = NativeImage::read(&[1, 2, 3], ImageType::Ia16, 2, 1).unwrap();
    let mut out: Vec<u8> = Vec::new();
    assert!(matches!(
        image.decode(&mut out, None),
        Err(Error::Io(IoError::UnexpectedEof))
    ));
    assert_eq!(out, vec![1, 1, 1, 2]);

    let image = NativeImage::read(&[1, 2, 3, 4, 5, 6, 7], ImageType::Rgba32, 2, 1).unwrap();
    let mut out: Vec<u8> = Vec::new();
    assert!(matches!(
        image.decode(&mut out, None),
        Err(Error::Io(IoError::UnexpectedEof))
    ));
    assert_eq!(out, vec![1, 2, 3, 4]);
}

#[test]
fn decode_of_indices_needs_a_palette() {
    for format in [ImageType::Ci4, ImageType::Ci8] {
        // Also where there is nothing to decode.
        let image = NativeImage::read(&[], format, 0, 0).unwrap();
        let mut out: Vec<u8> = vec![42];
        assert!(matches!(image.decode(&mut out, None), Err(Error::MissingTlut)));
        assert_eq!(out, vec![42]);
    }
}

#[test]
fn decode_stops_at_an_index_without_an_entry() {
    // Two entries only: index 2 has none. The pixel before it is written.
    let table = counting_table(2);
    let image = NativeImage::read(&[0x12, 0x00], ImageType::Ci4, 4, 1).unwrap();
    let mut out: Vec<u8> = Vec::new();
    assert!(matches!(
        image.decode(&mut out, Some(&table)),
        Err(Error::TlutIndexOutOfBounds)
    ));
    assert_eq!(out, vec![1, 2, 3, 4]);

    let image = NativeImage::read(&[2], ImageType::Ci8, 1, 1).unwrap();
    let mut out: Vec<u8> = Vec::new();
    assert!(matches!(
        image.decode(&mut out, Some(&table)),
        Err(Error::TlutIndexOutOfBounds)
    ));
    assert!(out.is_empty());
}

#[test]
fn decode_does_not_need_the_palette_for_other_formats() {
    let table = counting_table(1);
    let out = decoded(ImageType::I8, 1, 1, &[200], Some(&table));
    assert_eq!(out, vec![200, 200, 200, 255]);
}

#[test]
fn tlut_color_at_index_reads_four_bytes() {
    let table = counting_table(256);
    assert_eq!(get_tlut_color_at_index(&table, 0).unwrap(), [0, 1, 2, 3]);
    assert_eq!(get_tlut_color_at_index(&table, 63).unwrap(), [63, 64, 65, 66]);
    // Entries from 64 on lie beyond byte 255 of the table.
    assert_eq!(get_tlut_color_at_index(&table, 64).unwrap(), [64, 65, 66, 67]);
    assert_eq!(get_tlut_color_at_index(&table, 255).unwrap(), [255, 0, 1, 2]);
    assert!(matches!(
        get_tlut_color_at_index(&table[..1023], 255),
        Err(Error::TlutIndexOutOfBounds)
    ));
    assert!(matches!(
        get_tlut_color_at_index(&[], 0),
        Err(Error::TlutIndexOutOfBounds)
    ));
    assert!(matches!(
        get_tlut_color_at_index(&[1, 2, 3], 0),
        Err(Error::TlutIndexOutOfBounds)
    ));
}

#[test]
fn parse_tlut_expands_each_word() {
    let mut bytes: Vec<u8> = vec![0xFF, 0xFF, 0xD5, 0x55];
    bytes.resize(2 * 16, 0);
    let table = parse_tlut(&bytes, ImageSize::Bits4, TextureLUT::Rgba16).unwrap();
    assert_eq!(table.len(), 16 * 4);
    assert_eq!(&table[..8], &[255, 255, 255, 255, 214, 173, 82, 255]);
    assert_eq!(&table[8..12], &[0, 0, 0, 0]);
}

#[test]
fn parse_tlut_has_the_size_that_goes_with_the_width() {
    let bytes: Vec<u8> = vec![0; 2 * 65536 + 10];
    let sizes = [
        (ImageSize::Bits1, 2usize),
        (ImageSize::Bits4, 16),
        (ImageSize::Bits8, 256),
        (ImageSize::Bits16, 4096),
        (ImageSize::Bits32, 65536),
    ];
    for (size, entries) in sizes {
        let table = parse_tlut(&bytes, size, TextureLUT::Rgba16).unwrap();
        assert_eq!(table.len(), entries * 4);
        assert_eq!(size.get_tlut_size(), Some(entries));
    }
}

#[test]
fn parse_tlut_rejects_what_it_cannot_read() {
    let bytes: Vec<u8> = vec![0; 32];
    assert!(matches!(
        parse_tlut(&bytes, ImageSize::Bits4, TextureLUT::Ia16),
        Err(Error::UnsupportedTlutMode(TextureLUT::Ia16))
    ));
    assert!(matches!(
        parse_tlut(&bytes, ImageSize::Bits4, TextureLUT::NoLut),
        Err(Error::UnsupportedTlutMode(TextureLUT::NoLut))
    ));
    // The mode is looked at first.
    assert!(matches!(
        parse_tlut(&bytes, ImageSize::DD, TextureLUT::NoLut),
        Err(Error::UnsupportedTlutMode(TextureLUT::NoLut))
    ));
    assert!(matches!(
        parse_tlut(&bytes, ImageSize::DD, TextureLUT::Rgba16),
        Err(Error::InvalidSizeForTlut(ImageSize::DD))
    ));
    assert!(matches!(
        parse_tlut(&bytes[..31], ImageSize::Bits4, TextureLUT::Rgba16),
        Err(Error::Io(IoError::UnexpectedEof))
    ));
    assert!(parse_tlut(&bytes, ImageSize::Bits4, TextureLUT::Rgba16).is_ok());
}

#[test]
fn split_color_table_parts_colors_from_alpha() {
    let (palette, trans) = split_color_table_for_png(&[1, 2, 3, 4, 5, 6, 7, 8]);
    assert_eq!(palette, vec![1, 2, 3, 5, 6, 7]);
    assert_eq!(trans, vec![4, 8]);
    let (palette, trans) = split_color_table_for_png(&[]);
    assert!(palette.is_empty());
    assert!(trans.is_empty());
}

#[test]
fn as_png_of_indices_needs_a_palette_and_all_data() {
    let image = NativeImage::read(&[0x01, 0x23], ImageType::Ci4, 4, 1).unwrap();
    let mut out: Vec<u8> = Vec::new();
    assert!(matches!(image.as_png(&mut out, None), Err(Error::MissingTlut)));
    assert!(out.is_empty());

    let table = counting_table(16);
    let image = NativeImage::read(&[0x01], ImageType::Ci4, 4, 1).unwrap();
    assert!(matches!(
        image.as_png(&mut out, Some(&table)),
        Err(Error::Io(IoError::UnexpectedEof))
    ));
    assert!(out.is_empty());
}

#[test]
fn as_png_writes_nothing_where_decoding_fails() {
    let image = NativeImage::read(&[1, 2, 3], ImageType::I8, 2, 2).unwrap();
    let mut out: Vec<u8> = Vec::new();
    assert!(matches!(
        image.as_png(&mut out, None),
        Err(Error::Io(IoError::UnexpectedEof))
    ));
    assert!(out.is_empty());
}

#[test]
fn as_png_of_a_partial_unit_is_refused_by_the_encoder() {
    // Nine pixels of one bit decode to sixteen, which is more than the image holds.
    let image = NativeImage::read(&[0xFF, 0xFF], ImageType::I1, 9, 1).unwrap();
    let mut out: Vec<u8> = Vec::new();
    assert!(matches!(image.as_png(&mut out, None), Err(Error::PngEncoding(_))));
}

#[test]
fn as_png_writes_indices_as_they_are() {
    // Indices beyond the palette are no error on the way to a PNG.
    let table = counting_table(2);
    let image = NativeImage::read(&[0xFE, 0xDC], ImageType::Ci4, 4, 1).unwrap();
    let mut out: Vec<u8> = Vec::new();
    image.as_png(&mut out, Some(&table)).unwrap();
    let back = pigment64::PNGImage::read(&out).unwrap();
    let mut indices: Vec<u8> = Vec::new();
    back.as_ci4(&mut indices).unwrap();
    assert_eq!(indices, vec![0xFE, 0xDC]);
}
