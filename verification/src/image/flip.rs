//! Mirroring a container image left to right and top to bottom.

use crate::image::png_image::{Frame, PNGImage};
use vstd::arithmetic::div_mod::lemma_fundamental_div_mod_converse;
use vstd::prelude::*;

verus! {

/// Where byte `i` of a flipped frame comes from: the same sample of the
/// pixel that lies mirrored in each direction that is flipped.
pub open spec fn flip_source(frame: Frame, flip_x: bool, flip_y: bool, i: int) -> int {
    let samples = frame.color_type.spec_samples();
    let x = i / samples % (frame.width as int);
    let y = i / samples / (frame.width as int);
    let old_x = if flip_x {
        frame.width - 1 - x
    } else {
        x
    };
    let old_y = if flip_y {
        frame.height - 1 - y
    } else {
        y
    };
    (old_y * frame.width + old_x) * samples + i % samples
}

/// The bytes of a flipped frame: every sample of every pixel moved to
/// its mirrored place, and zero in the bytes beyond the last pixel.
pub open spec fn flipped(frame: Frame, flip_x: bool, flip_y: bool) -> Seq<u8> {
    Seq::new(
        frame.data.len(),
        |i: int|
            if i < frame.width * frame.height * frame.color_type.spec_samples() {
                frame.data[flip_source(frame, flip_x, flip_y, i)]
            } else {
                0u8
            },
    )
}

/// Byte offset of sample `c` of the pixel at column `x` of row `y`, in
/// rows of `width` pixels of `samples` bytes each.
#[verifier::opaque]
pub open spec fn sample_offset(width: int, samples: int, x: int, y: int, c: int) -> int {
    (y * width + x) * samples + c
}

/// Offsets count up sample by sample, pixel by pixel, row by row, from
/// zero to the size of the whole frame.
pub proof fn lemma_sample_offset_steps(width: int, samples: int, x: int, y: int, c: int)
    ensures
        sample_offset(width, samples, 0, 0, 0) == 0,
        sample_offset(width, samples, x, y, c) == sample_offset(width, samples, x, y, 0) + c,
        sample_offset(width, samples, x, y, samples) == sample_offset(width, samples, x + 1, y, 0),
        sample_offset(width, samples, width, y, 0) == sample_offset(width, samples, 0, y + 1, 0),
        sample_offset(width, samples, 0, y, 0) == width * y * samples,
{
    reveal(sample_offset);
    assert((0 * width + 0) * samples == 0) by (nonlinear_arith);
    assert((y * width + x) * samples + samples == (y * width + (x + 1)) * samples)
        by (nonlinear_arith);
    assert((y * width + width) * samples == ((y + 1) * width + 0) * samples) by (nonlinear_arith);
    assert((y * width + 0) * samples == width * y * samples) by (nonlinear_arith);
}

/// A sample of a pixel within the frame lies within the frame's bytes,
/// and its offset tells its pixel and sample.
pub proof fn lemma_sample_offset_within(
    width: int,
    height: int,
    samples: int,
    x: int,
    y: int,
    c: int,
)
    requires
        0 <= x < width,
        0 <= y < height,
        0 <= c < samples,
    ensures
        0 <= sample_offset(width, samples, x, y, 0),
        sample_offset(width, samples, x, y, 0) + samples <= width * height * samples,
        sample_offset(width, samples, x, y, c) / samples / width == y,
        sample_offset(width, samples, x, y, c) / samples % width == x,
        sample_offset(width, samples, x, y, c) % samples == c,
{
    reveal(sample_offset);
    let p = y * width + x;
    assert(0 <= y * width && p + 1 <= width * height) by (nonlinear_arith)
        requires
            0 <= x < width,
            0 <= y < height,
            p == y * width + x,
    ;
    assert(0 <= p * samples && p * samples + samples <= width * height * samples)
        by (nonlinear_arith)
        requires
            0 <= p,
            p + 1 <= width * height,
            0 < samples,
    ;
    lemma_fundamental_div_mod_converse(p * samples + c, samples, p, c);
    lemma_fundamental_div_mod_converse(p, width, y, x);
}

/// The source of a sample of a flipped frame is the same sample of the
/// mirrored pixel.
pub proof fn lemma_flip_source(frame: Frame, flip_x: bool, flip_y: bool, x: int, y: int, c: int)
    requires
        0 <= x < frame.width,
        0 <= y < frame.height,
        0 <= c < frame.color_type.spec_samples(),
    ensures
        flip_source(
            frame,
            flip_x,
            flip_y,
            sample_offset(frame.width as int, frame.color_type.spec_samples(), x, y, c),
        ) == sample_offset(
            frame.width as int,
            frame.color_type.spec_samples(),
            if flip_x {
                frame.width - 1 - x
            } else {
                x
            },
            if flip_y {
                frame.height - 1 - y
            } else {
                y
            },
            c,
        ),
{
    lemma_sample_offset_within(
        frame.width as int,
        frame.height as int,
        frame.color_type.spec_samples(),
        x,
        y,
        c,
    );
    reveal(sample_offset);
}

/// Every byte within the pixels of a frame is some sample of some pixel
/// of it: the one that its offset tells.
pub proof fn lemma_sample_of_offset(width: int, height: int, samples: int, i: int)
    requires
        0 < samples,
        0 <= width,
        0 <= height,
        0 <= i < width * height * samples,
    ensures
        0 <= i / samples % width < width,
        0 <= i / samples / width < height,
        0 <= i % samples < samples,
        sample_offset(width, samples, i / samples % width, i / samples / width, i % samples) == i,
{
    reveal(sample_offset);
    let p = i / samples;
    assert(width > 0) by (nonlinear_arith)
        requires
            0 <= width,
            0 <= i < width * height * samples,
    ;
    assert(0 <= p < width * height) by (nonlinear_arith)
        requires
            0 < samples,
            0 <= i < width * height * samples,
            p == i / samples,
    ;
    assert(0 <= p / width < height) by (nonlinear_arith)
        requires
            0 < width,
            0 <= p < width * height,
    ;
    assert(i == p * samples + i % samples && 0 <= i % samples < samples) by (nonlinear_arith)
        requires
            0 < samples,
            p == i / samples,
    ;
    assert(p == p / width * width + p % width && 0 <= p % width < width) by (nonlinear_arith)
        requires
            0 < width,
    ;
}

/// Mirroring twice in the same directions puts every byte back where it
/// was, in a frame whose data holds all its pixels and nothing but
/// zeros beyond them. Mirroring in no direction is one such case, and
/// leaves the frame as it is.
pub proof fn lemma_flip_twice(frame: Frame, flip_x: bool, flip_y: bool)
    requires
        frame.width * frame.height * frame.color_type.spec_samples() <= frame.data.len(),
        forall|i: int|
            frame.width * frame.height * frame.color_type.spec_samples() <= i
                < frame.data.len() ==> frame.data[i] == 0,
    ensures
        flipped(
            Frame { data: flipped(frame, flip_x, flip_y), ..frame },
            flip_x,
            flip_y,
        ) == frame.data,
        flipped(frame, false, false) == frame.data,
{
    let w = frame.width as int;
    let h = frame.height as int;
    let s = frame.color_type.spec_samples();
    let once = Frame { data: flipped(frame, flip_x, flip_y), ..frame };
    let twice = flipped(once, flip_x, flip_y);
    assert(0 <= w * h) by (nonlinear_arith)
        requires
            0 <= w,
            0 <= h,
    ;
    assert forall|i: int| 0 <= i < w * h * s implies twice[i] == frame.data[i] && flipped(
        frame,
        false,
        false,
    )[i] == frame.data[i] by {
        lemma_sample_of_offset(w, h, s, i);
        let x = i / s % w;
        let y = i / s / w;
        let c = i % s;
        let mx = if flip_x {
            w - 1 - x
        } else {
            x
        };
        let my = if flip_y {
            h - 1 - y
        } else {
            y
        };
        lemma_flip_source(frame, false, false, x, y, c);
        lemma_flip_source(once, flip_x, flip_y, x, y, c);
        lemma_flip_source(frame, flip_x, flip_y, mx, my, c);
        lemma_sample_offset_within(w, h, s, mx, my, c);
        lemma_sample_offset_steps(w, s, mx, my, c);
    }
    assert(twice =~= frame.data);
    assert(flipped(frame, false, false) =~= frame.data);
}

/// Byte offset of the first sample of the pixel at column `x` of row `y`.
fn sample_start(x: u32, y: u32, width: u32, samples: usize) -> (at: usize)
    requires
        x < width,
        0 < samples,
        sample_offset(width as int, samples as int, x as int, y as int, 0) <= usize::MAX,
    ensures
        at == sample_offset(width as int, samples as int, x as int, y as int, 0),
{
    proof {
        reveal(sample_offset);
        assert(0 <= y * width <= y * width + x <= (y * width + x) * samples) by (nonlinear_arith)
            requires
                0 < samples,
        ;
    }
    (y as usize * width as usize + x as usize) * samples
}

/// Copies `count` bytes of `source`, from `from` on, over those of
/// `target` from `to` on.
fn copy_run(source: &[u8], from: usize, target: &mut Vec<u8>, to: usize, count: usize)
    requires
        from + count <= source@.len(),
        to + count <= old(target)@.len(),
    ensures
        final(target)@.len() == old(target)@.len(),
        forall|i: int| 0 <= i < to ==> final(target)@[i] == old(target)@[i],
        forall|i: int| to <= i < to + count ==> final(target)@[i] == source@[from + i - to],
        forall|i: int|
            to + count <= i < old(target)@.len() ==> final(target)@[i] == old(target)@[i],
{
    let source_len: usize = source.len();
    let target_len: usize = target.len();
    let mut c: usize = 0;
    while c < count
        invariant
            c <= count,
            from + count <= source_len == source@.len(),
            to + count <= target_len == target@.len(),
            target@.len() == old(target)@.len(),
            forall|i: int| 0 <= i < to ==> target@[i] == old(target)@[i],
            forall|i: int| to <= i < to + c ==> target@[i] == source@[from + i - to],
            forall|i: int| to + c <= i < target@.len() ==> target@[i] == old(target)@[i],
        decreases count - c,
    {
        target.set(to + c, source[from + c]);
        c += 1;
    }
}

impl PNGImage {
    /// Mirrors the image left to right, top to bottom, or both, into a
    /// new image. The pixels are runs of as many bytes as the color type
    /// has samples, so the data has to hold that many bytes for every
    /// pixel.
    pub fn flip(&self, flip_x: bool, flip_y: bool) -> (img: PNGImage)
        requires
            self@.width * self@.height * self@.color_type.spec_samples() <= self@.data.len(),
        ensures
            img@ == (Frame { data: flipped(self@, flip_x, flip_y), ..self@ }),
    {
        let data: &[u8] = self.data();
        let width: u32 = self.width();
        let height: u32 = self.height();
        let len: usize = data.len();
        let mut flipped_bytes: Vec<u8> = vec![0; len];
        let samples: usize = self.color_type().samples();
        let ghost frame = self@;
        let ghost w = width as int;
        let ghost h = height as int;
        let ghost s = samples as int;
        proof {
            lemma_sample_offset_steps(w, s, 0, 0, 0);
        }

        let mut new_index: usize = 0;
        let mut y: u32 = 0;
        while y < height
            invariant
                w == width == frame.width,
                h == height == frame.height,
                s == samples == frame.color_type.spec_samples(),
                w * h * s <= data@.len() == len,
                data@ == frame.data,
                y <= height,
                new_index == sample_offset(w, s, 0, y as int, 0),
                flipped_bytes@.len() == len,
                forall|i: int|
                    0 <= i < new_index ==> flipped_bytes@[i] == data@[flip_source(
                        frame,
                        flip_x,
                        flip_y,
                        i,
                    )],
                forall|i: int| new_index <= i < len ==> flipped_bytes@[i] == 0,
            decreases height - y,
        {
            let old_y: u32 = if flip_y {
                height - 1 - y
            } else {
                y
            };
            let mut x: u32 = 0;
            while x < width
                invariant
                    w == width == frame.width,
                    h == height == frame.height,
                    s == samples == frame.color_type.spec_samples(),
                    w * h * s <= data@.len() == len,
                    data@ == frame.data,
                    y < height,
                    old_y == if flip_y {
                        height - 1 - y
                    } else {
                        y as int
                    },
                    x <= width,
                    new_index == sample_offset(w, s, x as int, y as int, 0),
                    flipped_bytes@.len() == len,
                    forall|i: int|
                        0 <= i < new_index ==> flipped_bytes@[i] == data@[flip_source(
                            frame,
                            flip_x,
                            flip_y,
                            i,
                        )],
                    forall|i: int| new_index <= i < len ==> flipped_bytes@[i] == 0,
                decreases width - x,
            {
                let old_x: u32 = if flip_x {
                    width - 1 - x
                } else {
                    x
                };
                proof {
                    lemma_sample_offset_within(w, h, s, old_x as int, old_y as int, 0);
                    lemma_sample_offset_within(w, h, s, x as int, y as int, 0);
                    lemma_sample_offset_steps(w, s, x as int, y as int, s);
                    assert forall|i: int| new_index <= i < new_index + s implies flip_source(
                        frame,
                        flip_x,
                        flip_y,
                        i,
                    ) == sample_offset(w, s, old_x as int, old_y as int, 0) + i - new_index by {
                        let c = i - new_index;
                        lemma_flip_source(frame, flip_x, flip_y, x as int, y as int, c);
                        reveal(sample_offset);
                    }
                }
                let old_index: usize = sample_start(old_x, old_y, width, samples);
                copy_run(data, old_index, &mut flipped_bytes, new_index, samples);
                new_index += samples;
                x += 1;
            }
            proof {
                lemma_sample_offset_steps(w, s, 0, y as int, 0);
            }
            y += 1;
        }
        proof {
            lemma_sample_offset_steps(w, s, 0, h, 0);
            assert(flipped_bytes@ =~= flipped(frame, flip_x, flip_y));
        }

        PNGImage::new(flipped_bytes, self.color_type(), self.bit_depth(), width, height)
    }
}

} // verus!
