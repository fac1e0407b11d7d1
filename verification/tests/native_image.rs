use pigment64::image::native_image::parse_tlut;
use pigment64::{
    create_palette_from_png, Error, ImageSize, ImageType, NativeImage, PNGImage, TextureLUT,
};

/// Bytes that run through all values in an uneven order.
fn sample_bytes(len: usize, seed: u8) -> Vec<u8> {
    let mut bytes: Vec<u8> = Vec::with_capacity(len);
    let mut value: u8 = seed;
    for i in 0..len {
        bytes.push(value);
        value = value.wrapping_mul(5).wrapping_add(17).wrapping_add((i % 7) as u8);
    }
    bytes
}

/// A compact palette of sixteen entries, all different.
fn sample_tlut() -> Vec<u8> {
    let mut bytes: Vec<u8> = Vec::new();
    for i in 0..16u16 {
        let word: u16 = (i << 12) | (0x0F5A ^ (i << 1)) | (i & 1);
        bytes.push((word >> 8) as u8);
        bytes.push((word & 0xFF) as u8);
    }
    bytes
}

#[test]
fn native_image_ci4() -> Result<(), Error> {
    let native = sample_bytes(8, 0x31);
    let native_bytes: &[u8] = &native;
    let image = NativeImage::read(native_bytes, ImageType::Ci4, 4, 4)?;

    let tlut = sample_tlut();
    let tlut_bytes: &[u8] = &tlut;
    let tlut_table: Vec<u8> = parse_tlut(tlut_bytes, ImageSize::Bits4, TextureLUT::Rgba16)?;

    let mut output: Vec<u8> = Vec::new();
    image.as_png(&mut output, Some(tlut_table.as_slice()))?;

    // convert the png back to a native image
    let image = PNGImage::read(output.as_slice())?;
    let mut output_bytes: Vec<u8> = Vec::new();
    image.as_ci4(&mut output_bytes)?;

    // convert the png back to a texture lut
    let mut output_tlut: Vec<u8> = Vec::new();
    create_palette_from_png(output.as_slice(), &mut output_tlut)?;

    assert_eq!(output_bytes, native_bytes);
    assert_eq!(output_tlut, tlut_bytes);
    Ok(())
}

#[test]
fn native_image_i1() -> Result<(), Error> {
    let native = sample_bytes(72 * 72 / 8, 0x5C);
    let native_bytes: &[u8] = &native;
    let image = NativeImage::read(native_bytes, ImageType::I1, 72, 72)?;

    let mut output: Vec<u8> = Vec::new();
    image.as_png(&mut output, None)?;

    // convert the png back to a native image
    let image = PNGImage::read(output.as_slice())?;
    let mut output_bytes: Vec<u8> = Vec::new();
    image.as_i1(&mut output_bytes)?;

    assert_eq!(output_bytes, native_bytes);
    Ok(())
}

#[test]
fn native_image_i4() -> Result<(), Error> {
    let native = sample_bytes(8, 0x07);
    let native_bytes: &[u8] = &native;
    let image = NativeImage::read(native_bytes, ImageType::I4, 16, 1)?;

    let mut output: Vec<u8> = Vec::new();
    image.as_png(&mut output, None)?;

    // convert the png back to a native image
    let image = PNGImage::read(output.as_slice())?;
    let mut output_bytes: Vec<u8> = Vec::new();
    image.as_i4(&mut output_bytes)?;

    assert_eq!(output_bytes, native_bytes);
    Ok(())
}

#[test]
fn native_image_i8() -> Result<(), Error> {
    let native = sample_bytes(16 * 16, 0xA1);
    let native_bytes: &[u8] = &native;
    let image = NativeImage::read(native_bytes, ImageType::I8, 16, 16)?;

    let mut output: Vec<u8> = Vec::new();
    image.as_png(&mut output, None)?;

    // convert the png back to a native image
    let image = PNGImage::read(output.as_slice())?;
    let mut output_bytes: Vec<u8> = Vec::new();
    image.as_i8(&mut output_bytes)?;

    assert_eq!(output_bytes, native_bytes);
    Ok(())
}

#[test]
fn native_image_ia4() -> Result<(), Error> {
    let native = sample_bytes(8, 0xE9);
    let native_bytes: &[u8] = &native;
    let image = NativeImage::read(native_bytes, ImageType::Ia4, 16, 1)?;

    let mut output: Vec<u8> = Vec::new();
    image.as_png(&mut output, None)?;

    // convert the png back to a native image
    let image = PNGImage::read(output.as_slice())?;
    let mut output_bytes: Vec<u8> = Vec::new();
    image.as_ia4(&mut output_bytes)?;

    assert_eq!(output_bytes, native_bytes);
    Ok(())
}

#[test]
fn native_image_ia8() -> Result<(), Error> {
    let native = sample_bytes(16 * 16, 0x44);
    let native_bytes: &[u8] = &native;
    let image = NativeImage::read(native_bytes, ImageType::Ia8, 16, 16)?;

    let mut output: Vec<u8> = Vec::new();
    image.as_png(&mut output, None)?;

    // convert the png back to a native image
    let image = PNGImage::read(output.as_slice())?;
    let mut output_bytes: Vec<u8> = Vec::new();
    image.as_ia8(&mut output_bytes)?;

    assert_eq!(output_bytes, native_bytes);
    Ok(())
}

#[test]
fn native_image_ia16() -> Result<(), Error> {
    let native = sample_bytes(256 * 256 * 2, 0x12);
    let native_bytes: &[u8] = &native;
    let image = NativeImage::read(native_bytes, ImageType::Ia16, 256, 256)?;

    let mut output: Vec<u8> = Vec::new();
    image.as_png(&mut output, None)?;

    // convert the png back to a native image
    let image = PNGImage::read(output.as_slice())?;
    let mut output_bytes: Vec<u8> = Vec::new();
    image.as_ia16(&mut output_bytes)?;

    assert_eq!(output_bytes, native_bytes);
    Ok(())
}

#[test]
fn native_image_rgba16() -> Result<(), Error> {
    let native = sample_bytes(256 * 256 * 2, 0x9D);
    let native_bytes: &[u8] = &native;
    let image = NativeImage::read(native_bytes, ImageType::Rgba16, 256, 256)?;

    let mut output: Vec<u8> = Vec::new();
    image.as_png(&mut output, None)?;

    // convert the png back to a native image
    let image = PNGImage::read(output.as_slice())?;
    let mut output_bytes: Vec<u8> = Vec::new();
    image.as_rgba16(&mut output_bytes)?;

    assert_eq!(output_bytes, native_bytes);
    Ok(())
}

#[test]
fn native_image_rgba32() -> Result<(), Error> {
    let native = sample_bytes(32 * 32 * 4, 0x6B);
    let native_bytes: &[u8] = &native;
    let image = NativeImage::read(native_bytes, ImageType::Rgba32, 32, 32)?;

    let mut output: Vec<u8> = Vec::new();
    image.as_png(&mut output, None)?;

    // convert the png back to a native image
    let image = PNGImage::read(output.as_slice())?;
    let mut output_bytes: Vec<u8> = Vec::new();
    image.as_rgba32(&mut output_bytes)?;

    assert_eq!(output_bytes, native_bytes);
    Ok(())
}

#[test]
fn native_image_ci8_round_trip() -> Result<(), Error> {
    let native = sample_bytes(6 * 5, 0x02);
    let image = NativeImage::read(&native, ImageType::Ci8, 6, 5)?;
    let tlut: Vec<u8> = sample_bytes(256 * 2, 0x77);
    let table: Vec<u8> = parse_tlut(&tlut, ImageSize::Bits8, TextureLUT::Rgba16)?;

    let mut output: Vec<u8> = Vec::new();
    image.as_png(&mut output, Some(table.as_slice()))?;

    let image = PNGImage::read(output.as_slice())?;
    let mut output_bytes: Vec<u8> = Vec::new();
    image.as_ci8(&mut output_bytes)?;
    let mut output_tlut: Vec<u8> = Vec::new();
    create_palette_from_png(output.as_slice(), &mut output_tlut)?;

    assert_eq!(output_bytes, native);
    assert_eq!(output_tlut, tlut);
    Ok(())
}

#[test]
fn test_image_type_strum() {
    // Test iterating over the ImageType enum
    let mut image_iter = ImageType::iter();
    assert_eq!(Some(ImageType::I1), image_iter.next());
    assert_eq!(Some(ImageType::I4), image_iter.next());
    assert_eq!(Some(ImageType::I8), image_iter.next());
    assert_eq!(Some(ImageType::Ia4), image_iter.next());
    assert_eq!(Some(ImageType::Ia8), image_iter.next());
    assert_eq!(Some(ImageType::Ia16), image_iter.next());
    assert_eq!(Some(ImageType::Ci4), image_iter.next());
    assert_eq!(Some(ImageType::Ci8), image_iter.next());
    assert_eq!(Some(ImageType::Rgba16), image_iter.next());
    assert_eq!(Some(ImageType::Rgba32), image_iter.next());
    assert_eq!(None, image_iter.next());

    // Test the Correct number of items
    assert_eq!(10, ImageType::COUNT);
    assert_eq!(ImageType::iter().count(), ImageType::COUNT);
}

#[test]
fn test_swap_word_rows() {
    // Create a dummy 4x4 32-bit RGBA image.
    // Each pixel is 4 bytes, so each row is 16 bytes.
    let image_type = pigment64::ImageType::Rgba32;
    let width = 4;
    let height = 4;

    // Create some initial data.
    // Rows 0 and 2 should remain unchanged.
    // Rows 1 and 3 should have their words swapped.
    let initial_data: Vec<u8> = vec![
        0x00, 0x01, 0x02, 0x03, 0x04, 0x05, 0x06, 0x07, 0x08, 0x09, 0x0A, 0x0B, 0x0C, 0x0D, 0x0E,
        0x0F, 0x10, 0x11, 0x12, 0x13, 0x14, 0x15, 0x16, 0x17, 0x18, 0x19, 0x1A, 0x1B, 0x1C, 0x1D,
        0x1E, 0x1F, 0x20, 0x21, 0x22, 0x23, 0x24, 0x25, 0x26, 0x27, 0x28, 0x29, 0x2A, 0x2B, 0x2C,
        0x2D, 0x2E, 0x2F, 0x30, 0x31, 0x32, 0x33, 0x34, 0x35, 0x36, 0x37, 0x38, 0x39, 0x3A, 0x3B,
        0x3C, 0x3D, 0x3E, 0x3F,
    ];

    let mut image = pigment64::NativeImage {
        format: image_type,
        width,
        height,
        data: initial_data,
    };
    image.swap_word_rows();

    let expected_data: Vec<u8> = vec![
        0x00, 0x01, 0x02, 0x03, 0x04, 0x05, 0x06, 0x07, 0x08, 0x09, 0x0A, 0x0B, 0x0C, 0x0D, 0x0E,
        0x0F, 0x14, 0x15, 0x16, 0x17, 0x10, 0x11, 0x12, 0x13, 0x1C, 0x1D, 0x1E, 0x1F, 0x18, 0x19,
        0x1A, 0x1B, 0x20, 0x21, 0x22, 0x23, 0x24, 0x25, 0x26, 0x27, 0x28, 0x29, 0x2A, 0x2B, 0x2C,
        0x2D, 0x2E, 0x2F, 0x34, 0x35, 0x36, 0x37, 0x30, 0x31, 0x32, 0x33, 0x3C, 0x3D, 0x3E, 0x3F,
        0x38, 0x39, 0x3A, 0x3B,
    ];

    assert_eq!(image.data, expected_data);
}
