use pigment64::format::{
    write_buf_as_raw_array, write_buf_as_u16, write_buf_as_u32, write_buf_as_u64, write_buf_as_u8,
    OutputMethod,
};

/// The text as formatting by the standard library gives it.
fn text_of(
    method: OutputMethod,
    data: &[u8],
    name: &str,
    elem_width: usize,
    type_width: usize,
    line_width: usize,
    little_endian: bool,
) -> String {
    let words: Vec<u128> = data
        .chunks(elem_width)
        .map(|e| pigment64::format::num_from_slice(e, type_width, little_endian))
        .collect();
    let contents = words
        .chunks(line_width)
        .map(|chunk| {
            format!(
                "\t{}",
                chunk
                    .iter()
                    .map(|e| format!("0x{:01$X},", e, type_width * 2))
                    .collect::<Vec<_>>()
                    .join(" ")
            )
        })
        .collect::<Vec<_>>()
        .join("\n");
    match method {
        OutputMethod::CFile => format!(
            "#include \"common.h\"\n\n#define {0}_LEN {1}\n\nu{4} {2}[{0}_LEN] = {{\n{3}\n}};\n",
            name.to_uppercase(),
            data.len() / elem_width,
            name,
            contents,
            type_width * 8
        ),
        _ => contents,
    }
}

#[test]
fn extensions() {
    assert_eq!(OutputMethod::Bin.get_extension(), "bin");
    assert_eq!(OutputMethod::CData.get_extension(), "c");
    assert_eq!(OutputMethod::CFile.get_extension(), "c");
}

#[test]
fn binary_output_is_the_data() {
    let data: Vec<u8> = vec![1, 2, 3, 250];
    assert_eq!(OutputMethod::Bin.encode(&data, "x", 2, 2, 4, false), data);
    // The widths do not matter.
    assert_eq!(OutputMethod::Bin.encode(&data, "x", 0, 0, 0, true), data);
    assert!(OutputMethod::Bin.encode(&[], "x", 1, 1, 1, false).is_empty());
}

#[test]
fn c_data_is_lines_of_words() {
    let data: Vec<u8> = vec![0x12, 0x34, 0x56, 0x78, 0x9A, 0xBC, 0xDE];
    let out = OutputMethod::CData.encode(&data, "x", 2, 2, 2, false);
    assert_eq!(
        String::from_utf8(out).unwrap(),
        "\t0x1234, 0x5678,\n\t0x9ABC, 0x00DE,"
    );
    let out = OutputMethod::CData.encode(&data, "x", 2, 2, 3, true);
    assert_eq!(
        String::from_utf8(out).unwrap(),
        "\t0x3412, 0x7856, 0xBC9A,\n\t0xDE00,"
    );
    let out = OutputMethod::CData.encode(&data[..3], "x", 1, 4, 8, false);
    assert_eq!(
        String::from_utf8(out).unwrap(),
        "\t0x00000012, 0x00000034, 0x00000056,"
    );
    assert!(OutputMethod::CData.encode(&[], "x", 2, 2, 2, false).is_empty());
}

#[test]
fn c_data_does_not_cut_digits() {
    // No digits are asked for: each number has as many as it needs.
    let out = OutputMethod::CData.encode(&[0, 7, 0x1F], "x", 1, 0, 4, false);
    assert_eq!(String::from_utf8(out).unwrap(), "\t0x0, 0x0, 0x0,");
    // A type of more bytes than a number can hold gives zero at full width.
    let out = OutputMethod::CData.encode(&[1, 2], "x", 1, 17, 4, false);
    assert_eq!(
        String::from_utf8(out).unwrap(),
        "\t0x0000000000000000000000000000000000, 0x0000000000000000000000000000000000,"
    );
    // An element of more bytes than the type gives zero.
    let out = OutputMethod::CData.encode(&[1, 2, 3], "x", 2, 1, 4, false);
    assert_eq!(String::from_utf8(out).unwrap(), "\t0x00, 0x03,");
}

#[test]
fn c_file_defines_the_array() {
    let data: Vec<u8> = vec![0xAB, 0xCD, 0xEF, 0x01];
    let out = OutputMethod::CFile.encode(&data, "tex_grass", 2, 2, 8, false);
    assert_eq!(
        String::from_utf8(out).unwrap(),
        "#include \"common.h\"\n\n#define TEX_GRASS_LEN 2\n\nu16 tex_grass[TEX_GRASS_LEN] = {\n\t0xABCD, 0xEF01,\n};\n"
    );
    let out = OutputMethod::CFile.encode(&[], "é", 4, 4, 1, true);
    assert_eq!(
        String::from_utf8(out).unwrap(),
        "#include \"common.h\"\n\n#define É_LEN 0\n\nu32 é[É_LEN] = {\n\n};\n"
    );
}

#[test]
fn text_is_what_formatting_gives() {
    let data: Vec<u8> = (0..=255u8).rev().cycle().take(1000).collect();
    for method in [OutputMethod::CData, OutputMethod::CFile] {
        for elem_width in [1usize, 2, 3, 4, 8, 16, 17] {
            for type_width in [0usize, 1, 2, 4, 8, 16, 20] {
                for line_width in [1usize, 3, 16] {
                    for little_endian in [false, true] {
                        for len in [0usize, 1, 15, 16, 17, 1000] {
                            let out = method.encode(
                                &data[..len],
                                "name_1",
                                elem_width,
                                type_width,
                                line_width,
                                little_endian,
                            );
                            assert_eq!(
                                String::from_utf8(out).unwrap(),
                                text_of(
                                    method,
                                    &data[..len],
                                    "name_1",
                                    elem_width,
                                    type_width,
                                    line_width,
                                    little_endian
                                )
                            );
                        }
                    }
                }
            }
        }
    }
}

/// The rows as formatting by the standard library gives them.
fn rows_of(bin: &[u8], width: usize) -> String {
    let mut text = String::new();
    for row in bin.chunks(16) {
        let mut line_list = Vec::new();
        for bytes in row.chunks(width) {
            let mut value: u64 = 0;
            for byte in bytes {
                value = value << 8 | *byte as u64;
            }
            line_list.push(format!("0x{value:00$X}", 2 * width));
        }
        let line = line_list.join(", ");
        text.push_str(&format!("    {line},\n"));
    }
    text
}

#[test]
fn raw_arrays_have_rows_of_sixteen_bytes() {
    let bin: Vec<u8> = (0..40u8).map(|i| i.wrapping_mul(37)).collect();
    let mut out: Vec<u8> = Vec::new();
    write_buf_as_u8(&mut out, &bin[..18]);
    assert_eq!(
        String::from_utf8(out).unwrap(),
        "    0x00, 0x25, 0x4A, 0x6F, 0x94, 0xB9, 0xDE, 0x03, 0x28, 0x4D, 0x72, 0x97, 0xBC, 0xE1, 0x06, 0x2B,\n    0x50, 0x75,\n"
    );
    let mut out: Vec<u8> = Vec::new();
    write_buf_as_u16(&mut out, &bin[..20]);
    assert_eq!(
        String::from_utf8(out).unwrap(),
        "    0x0025, 0x4A6F, 0x94B9, 0xDE03, 0x284D, 0x7297, 0xBCE1, 0x062B,\n    0x5075, 0x9ABF,\n"
    );
    let mut out: Vec<u8> = Vec::new();
    write_buf_as_u32(&mut out, &bin[..16]);
    assert_eq!(
        String::from_utf8(out).unwrap(),
        "    0x00254A6F, 0x94B9DE03, 0x284D7297, 0xBCE1062B,\n"
    );
    let mut out: Vec<u8> = vec![b'{'];
    write_buf_as_u64(&mut out, &bin[..24]);
    assert_eq!(
        String::from_utf8(out).unwrap(),
        "{    0x00254A6F94B9DE03, 0x284D7297BCE1062B,\n    0x50759ABFE4092E53,\n"
    );
}

#[test]
fn raw_arrays_are_what_formatting_gives() {
    let bin: Vec<u8> = (0..=255u8).cycle().take(400).map(|i| i ^ 0x5A).collect();
    for width in [1usize, 2, 4, 8] {
        for len in [0usize, 8, 16, 24, 32, 392, 400] {
            let mut out: Vec<u8> = Vec::new();
            write_buf_as_raw_array(&mut out, &bin[..len], width);
            assert_eq!(String::from_utf8(out).unwrap(), rows_of(&bin[..len], width));
        }
    }
    let mut out: Vec<u8> = Vec::new();
    write_buf_as_u8(&mut out, &bin[..17]);
    assert_eq!(String::from_utf8(out).unwrap(), rows_of(&bin[..17], 1));
}
