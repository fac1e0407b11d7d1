use pigment64::cli::{BinaryFormat, CArrayWidth, OutputFormat};
use pigment64::color::Color;
use pigment64::{BitDepth, ColorType, ImageFormat, ImageSize, ImageType, TextureLUT};

#[test]
fn image_types_have_their_size_and_format() {
    let expected = [
        (ImageType::I1, ImageSize::Bits1, ImageFormat::I, 1u32),
        (ImageType::I4, ImageSize::Bits4, ImageFormat::I, 4),
        (ImageType::I8, ImageSize::Bits8, ImageFormat::I, 8),
        (ImageType::Ia4, ImageSize::Bits4, ImageFormat::Ia, 4),
        (ImageType::Ia8, ImageSize::Bits8, ImageFormat::Ia, 8),
        (ImageType::Ia16, ImageSize::Bits16, ImageFormat::Ia, 16),
        (ImageType::Ci4, ImageSize::Bits4, ImageFormat::Ci, 4),
        (ImageType::Ci8, ImageSize::Bits8, ImageFormat::Ci, 8),
        (ImageType::Rgba16, ImageSize::Bits16, ImageFormat::Rgba, 16),
        (ImageType::Rgba32, ImageSize::Bits32, ImageFormat::Rgba, 32),
    ];
    for (image_type, size, format, bpp) in expected {
        assert_eq!(image_type.get_size(), size);
        assert_eq!(image_type.get_format(), format);
        assert_eq!(image_type.get_size().get_bpp(), bpp);
    }
}

#[test]
fn sizes_have_their_table_size() {
    assert_eq!(ImageSize::Bits1.get_tlut_size(), Some(2));
    assert_eq!(ImageSize::Bits4.get_tlut_size(), Some(16));
    assert_eq!(ImageSize::Bits8.get_tlut_size(), Some(256));
    assert_eq!(ImageSize::Bits16.get_tlut_size(), Some(4096));
    assert_eq!(ImageSize::Bits32.get_tlut_size(), Some(65536));
    assert_eq!(ImageSize::DD.get_tlut_size(), None);
    assert_eq!(ImageSize::DD.get_bpp(), 0);
}

#[test]
fn image_types_go_by_name() {
    let names = [
        ("i1", ImageType::I1),
        ("i4", ImageType::I4),
        ("i8", ImageType::I8),
        ("ia4", ImageType::Ia4),
        ("ia8", ImageType::Ia8),
        ("ia16", ImageType::Ia16),
        ("ci4", ImageType::Ci4),
        ("ci8", ImageType::Ci8),
        ("rgba16", ImageType::Rgba16),
        ("rgba32", ImageType::Rgba32),
    ];
    for (name, image_type) in names {
        assert_eq!(ImageType::from_name(name), Some(image_type));
    }
    for name in ["", "I4", "rgba", "rgba32 ", "ci", "palette", "yuv"] {
        assert_eq!(ImageType::from_name(name), None);
    }
}

#[test]
fn binary_formats_stand_for_native_formats() {
    let expected = [
        (BinaryFormat::Ci4, Some(ImageType::Ci4), CArrayWidth::U8),
        (BinaryFormat::Ci8, Some(ImageType::Ci8), CArrayWidth::U8),
        (BinaryFormat::I1, Some(ImageType::I1), CArrayWidth::U8),
        (BinaryFormat::I4, Some(ImageType::I4), CArrayWidth::U8),
        (BinaryFormat::I8, Some(ImageType::I8), CArrayWidth::U8),
        (BinaryFormat::Ia4, Some(ImageType::Ia4), CArrayWidth::U8),
        (BinaryFormat::Ia8, Some(ImageType::Ia8), CArrayWidth::U8),
        (BinaryFormat::Ia16, Some(ImageType::Ia16), CArrayWidth::U16),
        (BinaryFormat::Rgba16, Some(ImageType::Rgba16), CArrayWidth::U16),
        (BinaryFormat::Rgba32, Some(ImageType::Rgba32), CArrayWidth::U32),
        (BinaryFormat::Palette, None, CArrayWidth::U16),
    ];
    for (format, native, width) in expected {
        assert_eq!(format.as_native(), native);
        assert_eq!(format.get_width(), width);
        assert_eq!(format.get_size(), native.map(|n| n.get_size()));
    }
}

#[test]
fn color_types_have_their_codes_and_samples() {
    let expected = [
        (ColorType::Grayscale, 0u8, 1usize),
        (ColorType::Rgb, 2, 3),
        (ColorType::Indexed, 3, 1),
        (ColorType::GrayscaleAlpha, 4, 2),
        (ColorType::Rgba, 6, 4),
    ];
    for (color, code, samples) in expected {
        assert_eq!(color.code(), code);
        assert_eq!(ColorType::from_code(code), color);
        assert_eq!(color.samples(), samples);
    }
    let depths = [
        (BitDepth::One, 1u8),
        (BitDepth::Two, 2),
        (BitDepth::Four, 4),
        (BitDepth::Eight, 8),
        (BitDepth::Sixteen, 16),
    ];
    for (depth, code) in depths {
        assert_eq!(depth.code(), code);
        assert_eq!(BitDepth::from_code(code), depth);
    }
}

#[test]
fn color_from_u32_takes_red_from_the_top() {
    assert_eq!(Color::from_u32(0x0102_0304), Color::RGBA(1, 2, 3, 4));
    assert_eq!(Color::from_u32(0xFF00_0000), Color::RGBA(255, 0, 0, 0));
    assert_eq!(Color::from_u32(0x0000_00FF), Color::RGBA(0, 0, 0, 255));
    assert_eq!(Color::from_u32(u32::MAX), Color::WHITE());
}

#[test]
fn color_words_come_back() {
    for pixel in 0..=u16::MAX {
        assert_eq!(Color::from_u16(pixel).to_u16(), pixel);
    }
}

#[test]
fn color_from_u16_repeats_the_high_bits() {
    // 00001 widens to 00001000, 10000 to 10000100, 11111 to 11111111.
    assert_eq!(Color::from_u16(0b00001_10000_11111_0), Color::RGBA(8, 132, 255, 0));
    assert_eq!(Color::from_u16(0b00100_00011_00000_1), Color::RGBA(33, 24, 0, 255));
}

#[test]
fn color_to_u16_keeps_alpha_only_when_full() {
    assert_eq!(Color::RGBA(0, 0, 0, 254).to_u16(), 0);
    assert_eq!(Color::RGBA(0, 0, 0, 128).to_u16(), 0);
    assert_eq!(Color::RGBA(0, 0, 0, 255).to_u16(), 1);
    assert_eq!(Color::RGBA(7, 7, 7, 0).to_u16(), 0);
    assert_eq!(Color::RGBA(8, 0, 0, 0).to_u16(), 0x0800);
    assert_eq!(Color::RGBA(0, 8, 0, 0).to_u16(), 0x0040);
    assert_eq!(Color::RGBA(0, 0, 8, 0).to_u16(), 0x0002);
}

#[test]
fn intensity_of_gray_is_its_level() {
    for level in 0..=255u8 {
        assert_eq!(Color::RGB(level, level, level).rgb_to_intensity(), level);
    }
    assert_eq!(Color::RGB(255, 0, 0).rgb_to_intensity(), 54);
    assert_eq!(Color::RGB(0, 255, 0).rgb_to_intensity(), 182);
    assert_eq!(Color::RGB(0, 0, 255).rgb_to_intensity(), 18);
    // 35.5 goes up.
    assert_eq!(Color::RGB(3, 44, 47).rgb_to_intensity(), 36);
}

#[test]
fn numbers_come_out_of_runs_of_bytes() {
    use_num(&[0x12, 0x34], 2, false, 0x1234);
    use_num(&[0x12, 0x34], 2, true, 0x3412);
    use_num(&[0x12, 0x34, 0x56], 4, false, 0x12_3456);
    use_num(&[0x12, 0x34, 0x56], 4, true, 0x5634_1200);
    use_num(&[0xAB], 2, false, 0xAB);
    use_num(&[0xAB], 2, true, 0xAB00);
    use_num(&[], 4, false, 0);
    use_num(&[], 16, true, 0);
    // A run longer than the width, or a width of more than sixteen bytes, gives nothing.
    use_num(&[1, 2, 3], 2, false, 0);
    use_num(&[1, 2, 3], 2, true, 0);
    use_num(&[1], 17, false, 0);
    let all: Vec<u8> = (1..=16).collect();
    use_num(&all, 16, false, 0x0102_0304_0506_0708_090A_0B0C_0D0E_0F10);
    use_num(&all, 16, true, 0x100F_0E0D_0C0B_0A09_0807_0605_0403_0201);
    use_num(&[0xFF], 16, true, 0xFF << 120);
}

fn use_num(data: &[u8], width: usize, little_endian: bool, expected: u128) {
    assert_eq!(
        pigment64::format::num_from_slice(data, width, little_endian),
        expected
    );
}

#[test]
fn output_formats_stand_for_native_formats() {
    let expected = [
        (OutputFormat::Ci4, ImageType::Ci4, CArrayWidth::U8),
        (OutputFormat::Ci8, ImageType::Ci8, CArrayWidth::U8),
        (OutputFormat::I4, ImageType::I4, CArrayWidth::U8),
        (OutputFormat::I8, ImageType::I8, CArrayWidth::U8),
        (OutputFormat::Ia4, ImageType::Ia4, CArrayWidth::U8),
        (OutputFormat::Ia8, ImageType::Ia8, CArrayWidth::U8),
        (OutputFormat::Ia16, ImageType::Ia16, CArrayWidth::U16),
        (OutputFormat::Rgba16, ImageType::Rgba16, CArrayWidth::U16),
        (OutputFormat::Rgba32, ImageType::Rgba32, CArrayWidth::U32),
    ];
    for (format, native, width) in expected {
        assert_eq!(format.as_native(), native);
        assert_eq!(format.get_width(), width);
    }
    assert_eq!(OutputFormat::Palette.get_width(), CArrayWidth::U16);
}

#[test]
fn sizes_have_their_numbers() {
    let codes = [
        (ImageSize::Bits4, 0u8),
        (ImageSize::Bits8, 1),
        (ImageSize::Bits16, 2),
        (ImageSize::Bits32, 3),
        (ImageSize::Bits1, 4),
        (ImageSize::DD, 5),
    ];
    for (size, code) in codes {
        assert_eq!(size.to_u8(), code);
        assert_eq!(ImageSize::from_u8(code), Some(size));
    }
    for code in 6..=255u8 {
        assert_eq!(ImageSize::from_u8(code), None);
    }
}

#[test]
fn color_models_have_their_numbers() {
    let codes = [
        (ImageFormat::Rgba, 0u8),
        (ImageFormat::Yuv, 1),
        (ImageFormat::Ci, 2),
        (ImageFormat::Ia, 3),
        (ImageFormat::I, 4),
    ];
    for (format, code) in codes {
        assert_eq!(format.to_u8(), code);
        assert_eq!(ImageFormat::from_u8(code), Some(format));
    }
    for code in 5..=255u8 {
        assert_eq!(ImageFormat::from_u8(code), None);
    }
}

#[test]
fn image_types_have_their_numbers() {
    let mut code: u8 = 0;
    for image_type in ImageType::iter() {
        assert_eq!(image_type.to_u8(), code);
        assert_eq!(ImageType::from_u8(code), Some(image_type));
        code += 1;
    }
    assert_eq!(code, 10);
    for code in 10..=255u8 {
        assert_eq!(ImageType::from_u8(code), None);
    }
}

#[test]
fn palette_modes_have_their_numbers() {
    let codes = [
        (TextureLUT::NoLut, 0u8),
        (TextureLUT::Rgba16, 2),
        (TextureLUT::Ia16, 3),
    ];
    for (mode, code) in codes {
        assert_eq!(mode.to_u8(), code);
        assert_eq!(TextureLUT::from_u8(code), Some(mode));
    }
    assert_eq!(TextureLUT::from_u8(1), None);
    for code in 4..=255u8 {
        assert_eq!(TextureLUT::from_u8(code), None);
    }
}
