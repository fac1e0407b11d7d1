use pigment64::{BitDepth, ColorType, ImageType, NativeImage, PNGImage};

fn counting(len: usize) -> Vec<u8> {
    (0..len).map(|i| i as u8).collect()
}

fn swapped(format: ImageType, width: u32, height: u32, data: Vec<u8>) -> Vec<u8> {
    let mut image = NativeImage {
        format,
        width,
        height,
        data,
    };
    image.swap_word_rows();
    assert_eq!(image.format, format);
    assert_eq!(image.width, width);
    assert_eq!(image.height, height);
    image.data
}

fn flipped(image: &PNGImage, flip_x: bool, flip_y: bool) -> Vec<u8> {
    let out = image.flip(flip_x, flip_y);
    assert_eq!(out.width(), image.width());
    assert_eq!(out.height(), image.height());
    assert_eq!(out.color_type(), image.color_type());
    assert_eq!(out.bit_depth(), image.bit_depth());
    data_of(&out)
}

fn data_of(image: &PNGImage) -> Vec<u8> {
    image.data().to_vec()
}

#[test]
fn swap_exchanges_the_words_of_row_one() {
    let out = swapped(ImageType::Rgba32, 4, 4, counting(64));
    assert_eq!(&out[..16], &counting(64)[..16]);
    assert_eq!(
        &out[16..32],
        &[0x14, 0x15, 0x16, 0x17, 0x10, 0x11, 0x12, 0x13, 0x1C, 0x1D, 0x1E, 0x1F, 0x18, 0x19, 0x1A, 0x1B]
    );
    assert_eq!(&out[32..48], &counting(64)[32..48]);
}

#[test]
fn swap_twice_is_no_swap() {
    let cases = [
        (ImageType::Rgba32, 4u32, 4u32, 64usize),
        (ImageType::Rgba32, 3, 5, 60),
        (ImageType::Rgba16, 9, 4, 72),
        (ImageType::I4, 33, 7, 17 * 7),
        (ImageType::I1, 100, 9, 13 * 9),
        (ImageType::Ia16, 8, 3, 40),
        (ImageType::Ci8, 12, 6, 100),
    ];
    for (format, width, height, len) in cases {
        let once = swapped(format, width, height, counting(len));
        let twice = swapped(format, width, height, once);
        assert_eq!(twice, counting(len));
    }
}

#[test]
fn swap_stops_at_a_row_that_the_data_does_not_hold() {
    // Rows of 16 bytes; the data ends in the middle of row 3.
    let out = swapped(ImageType::Rgba32, 4, 4, counting(60));
    let mut expected = counting(60);
    for i in 0..4 {
        expected.swap(16 + i, 20 + i);
        expected.swap(24 + i, 28 + i);
    }
    assert_eq!(out, expected);
    // The data ends in the middle of row 1: nothing is swapped.
    assert_eq!(swapped(ImageType::Rgba32, 4, 4, counting(31)), counting(31));
    // It ends with row 1: that row is swapped.
    assert_ne!(swapped(ImageType::Rgba32, 4, 4, counting(32)), counting(32));
}

#[test]
fn swap_leaves_a_partial_chunk() {
    // Rows of 12 bytes: one chunk of eight and four bytes more.
    let out = swapped(ImageType::Rgba32, 3, 2, counting(24));
    assert_eq!(
        out,
        vec![0, 1, 2, 3, 4, 5, 6, 7, 8, 9, 10, 11, 16, 17, 18, 19, 12, 13, 14, 15, 20, 21, 22, 23]
    );
    // Rows of less than eight bytes have no chunk to swap.
    assert_eq!(swapped(ImageType::I8, 7, 4, counting(28)), counting(28));
}

#[test]
fn swap_rounds_rows_up_to_whole_bytes() {
    // 17 pixels of four bits take nine bytes.
    let out = swapped(ImageType::I4, 17, 2, counting(18));
    assert_eq!(
        out,
        vec![0, 1, 2, 3, 4, 5, 6, 7, 8, 13, 14, 15, 16, 9, 10, 11, 12, 17]
    );
    // 60 pixels of one bit take eight bytes.
    let out = swapped(ImageType::I1, 60, 2, counting(16));
    assert_eq!(out, vec![0, 1, 2, 3, 4, 5, 6, 7, 12, 13, 14, 15, 8, 9, 10, 11]);
}

#[test]
fn swap_keeps_within_the_height() {
    // The data holds four rows, the image two.
    let out = swapped(ImageType::I8, 8, 2, counting(32));
    let mut expected = counting(32);
    for i in 0..4 {
        expected.swap(8 + i, 12 + i);
    }
    assert_eq!(out, expected);
    assert_eq!(swapped(ImageType::I8, 8, 1, counting(32)), counting(32));
    assert_eq!(swapped(ImageType::I8, 8, 0, counting(32)), counting(32));
}

#[test]
fn swap_of_nothing_is_nothing() {
    assert_eq!(swapped(ImageType::Rgba32, 0, 4, counting(40)), counting(40));
    assert!(swapped(ImageType::Rgba32, 4, 4, Vec::new()).is_empty());
    assert_eq!(swapped(ImageType::Rgba32, u32::MAX, u32::MAX, counting(40)), counting(40));
}

#[test]
fn flip_mirrors_pixels() {
    // Two rows of three pixels of two samples.
    let image = PNGImage::new(counting(12), ColorType::GrayscaleAlpha, BitDepth::Eight, 3, 2);
    assert_eq!(flipped(&image, false, false), counting(12));
    assert_eq!(flipped(&image, true, false), vec![4, 5, 2, 3, 0, 1, 10, 11, 8, 9, 6, 7]);
    assert_eq!(flipped(&image, false, true), vec![6, 7, 8, 9, 10, 11, 0, 1, 2, 3, 4, 5]);
    assert_eq!(flipped(&image, true, true), vec![10, 11, 8, 9, 6, 7, 4, 5, 2, 3, 0, 1]);
}

#[test]
fn flip_twice_is_no_flip() {
    let image = PNGImage::new(counting(5 * 7 * 4), ColorType::Rgba, BitDepth::Eight, 5, 7);
    for flip_x in [false, true] {
        for flip_y in [false, true] {
            let once = image.flip(flip_x, flip_y);
            assert_eq!(flipped(&once, flip_x, flip_y), counting(5 * 7 * 4));
        }
    }
    assert_eq!(flipped(&image, false, false), counting(5 * 7 * 4));
}

#[test]
fn flip_leaves_its_source() {
    let image = PNGImage::new(counting(8), ColorType::Rgba, BitDepth::Eight, 2, 1);
    let other = image.flip(true, true);
    assert_eq!(data_of(&image), counting(8));
    assert_eq!(data_of(&other), vec![4, 5, 6, 7, 0, 1, 2, 3]);
}

#[test]
fn flip_zeroes_what_lies_beyond_the_pixels() {
    let image = PNGImage::new(vec![1, 2, 3, 4, 5], ColorType::Grayscale, BitDepth::Eight, 2, 2);
    assert_eq!(flipped(&image, true, false), vec![2, 1, 4, 3, 0]);
    assert_eq!(flipped(&image, false, false), vec![1, 2, 3, 4, 0]);
}

#[test]
fn flip_of_no_pixels() {
    let image = PNGImage::new(Vec::new(), ColorType::Rgba, BitDepth::Eight, 0, 3);
    assert!(flipped(&image, true, true).is_empty());
}

#[test]
fn flip_twice_keeps_zeros_beyond_the_pixels() {
    let data: Vec<u8> = vec![1, 2, 3, 4, 0, 0];
    let image = PNGImage::new(data.clone(), ColorType::Grayscale, BitDepth::Eight, 2, 2);
    for flip_x in [false, true] {
        for flip_y in [false, true] {
            let once = image.flip(flip_x, flip_y);
            assert_eq!(flipped(&once, flip_x, flip_y), data);
        }
    }
    assert_eq!(flipped(&image, false, false), data);
}
