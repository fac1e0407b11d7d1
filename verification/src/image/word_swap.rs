//! The word swap of odd rows: in every second row of a packed image the
//! two 4-byte words of each chunk of eight bytes trade places.

use crate::image::native_image::NativeImage;
use crate::ImageType;
use vstd::arithmetic::div_mod::lemma_fundamental_div_mod_converse;
use vstd::prelude::*;

verus! {

/// Number of bytes of one row of a packed image: its bits, rounded up
/// to whole bytes.
pub open spec fn bytes_per_row(format: ImageType, width: u32) -> int {
    (width * format.spec_size().spec_bpp() + 7) / 8
}

/// Where the byte at offset `o` of a row comes from when the two words
/// of every chunk of eight bytes trade places. A chunk that the row
/// does not hold in full stays as it is.
pub open spec fn word_swap_offset(o: int, row: int) -> int {
    if o / 8 * 8 + 8 <= row {
        if o % 8 < 4 {
            o + 4
        } else {
            o - 4
        }
    } else {
        o
    }
}

/// Where byte `i` of a word-swapped image comes from. Only odd rows
/// that lie within the image's height and fit into its `len` bytes are
/// swapped.
pub open spec fn swap_source(i: int, row: int, height: u32, len: int) -> int {
    if row <= 0 {
        i
    } else if i / row % 2 == 1 && i / row < height && (i / row + 1) * row <= len {
        i - i % row + word_swap_offset(i % row, row)
    } else {
        i
    }
}

/// The bytes of an image after the word swap of its odd rows.
pub open spec fn word_swapped(data: Seq<u8>, row: int, height: u32) -> Seq<u8> {
    Seq::new(data.len(), |i: int| data[swap_source(i, row, height, data.len() as int)])
}

/// A byte of row `y` has its source in row `y`, at the offset that the
/// swap of words gives where the row is swapped.
pub proof fn lemma_swap_source_in_row(i: int, row: int, height: u32, len: int, y: int)
    requires
        0 < row,
        0 <= y,
        y * row <= i < y * row + row,
    ensures
        i / row == y,
        i % row == i - y * row,
        swap_source(i, row, height, len) == if y % 2 == 1 && y < height && y * row + row <= len {
            y * row + word_swap_offset(i - y * row, row)
        } else {
            i
        },
        y * row <= swap_source(i, row, height, len) < y * row + row,
{
    lemma_fundamental_div_mod_converse(i, row, y, i - y * row);
    assert((y + 1) * row == y * row + row) by (nonlinear_arith);
}

/// Beyond the last row that fits, or beyond the height, nothing is
/// swapped.
pub proof fn lemma_swap_source_beyond(i: int, row: int, height: u32, len: int, y: int)
    requires
        0 < row,
        0 <= y,
        y * row <= i,
        y >= height || y * row + row > len,
    ensures
        swap_source(i, row, height, len) == i,
{
    let q = i / row;
    assert(q >= y && (q + 1) * row >= y * row + row) by (nonlinear_arith)
        requires
            0 < row,
            y * row <= i,
            q == i / row,
    ;
}

/// The word swap undoes itself: swapped twice, an image is as it was.
pub proof fn lemma_word_swap_twice(data: Seq<u8>, row: int, height: u32)
    ensures
        word_swapped(word_swapped(data, row, height), row, height) == data,
{
    let len = data.len() as int;
    let once = word_swapped(data, row, height);
    let twice = word_swapped(once, row, height);
    assert forall|i: int| 0 <= i < len implies twice[i] == data[i] by {
        if row > 0 {
            let y = i / row;
            assert(y * row <= i < y * row + row && 0 <= y) by (nonlinear_arith)
                requires
                    0 < row,
                    0 <= i,
                    y == i / row,
            ;
            lemma_swap_source_in_row(i, row, height, len, y);
            let j = swap_source(i, row, height, len);
            lemma_swap_source_in_row(j, row, height, len, y);
            assert(swap_source(j, row, height, len) == i);
            if j != i {
                assert(j < len) by (nonlinear_arith)
                    requires
                        j < y * row + row,
                        y * row + row <= len,
                ;
            }
        }
    }
    assert(twice =~= data);
}

/// Data that ends in the middle of a row: the swap keeps the length,
/// leaves the bytes of the row that is cut short as they are, and does
/// to the rows before it what it does when the data ends with them.
pub proof fn lemma_word_swap_short_row(data: Seq<u8>, row: int, height: u32)
    requires
        0 < row,
    ensures
        word_swapped(data, row, height).len() == data.len(),
        word_swapped(data, row, height).skip(data.len() as int / row * row) == data.skip(
            data.len() as int / row * row,
        ),
        word_swapped(data, row, height).take(data.len() as int / row * row) == word_swapped(
            data.take(data.len() as int / row * row),
            row,
            height,
        ),
{
    let len = data.len() as int;
    let rows = len / row;
    let whole = rows * row;
    assert(0 <= rows && whole <= len < whole + row) by (nonlinear_arith)
        requires
            0 < row,
            0 <= len,
            rows == len / row,
            whole == rows * row,
    ;
    let swapped = word_swapped(data, row, height);
    let cut = word_swapped(data.take(whole), row, height);
    assert forall|i: int| whole <= i < len implies swapped[i] == data[i] by {
        lemma_swap_source_in_row(i, row, height, len, rows);
    }
    assert forall|i: int| 0 <= i < whole implies swapped[i] == cut[i] by {
        let y = i / row;
        assert(0 <= y < rows && y * row <= i < y * row + row && y * row + row <= whole)
            by (nonlinear_arith)
            requires
                0 < row,
                0 <= i < rows * row,
                y == i / row,
                whole == rows * row,
        ;
        lemma_swap_source_in_row(i, row, height, len, y);
        lemma_swap_source_in_row(i, row, height, whole, y);
    }
    assert(swapped.skip(whole) =~= data.skip(whole));
    assert(swapped.take(whole) =~= cut);
}

/// Swaps the two words of every whole chunk of eight bytes in the row
/// of `row` bytes that starts at `start`.
fn swap_row_words(data: &mut Vec<u8>, start: usize, row: usize)
    requires
        start + row <= old(data)@.len(),
    ensures
        final(data)@.len() == old(data)@.len(),
        forall|i: int| 0 <= i < start ==> final(data)@[i] == old(data)@[i],
        forall|i: int|
            start <= i < start + row ==> final(data)@[i] == old(data)@[start + word_swap_offset(
                i - start,
                row as int,
            )],
        forall|i: int| start + row <= i < old(data)@.len() ==> final(data)@[i] == old(data)@[i],
{
    let len: usize = data.len();
    let mut done: usize = 0;
    while row - done >= 8
        invariant
            done % 8 == 0,
            done <= row,
            start + row <= len == data@.len(),
            data@.len() == old(data)@.len(),
            forall|i: int| 0 <= i < start ==> data@[i] == old(data)@[i],
            forall|i: int|
                start <= i < start + done ==> data@[i] == old(data)@[start + word_swap_offset(
                    i - start,
                    row as int,
                )],
            forall|i: int| start + done <= i < len ==> data@[i] == old(data)@[i],
        decreases row - done,
    {
        let base: usize = start + done;
        let mut k: usize = 0;
        while k < 4
            invariant
                k <= 4,
                base == start + done,
                done % 8 == 0,
                done + 8 <= row,
                start + row <= len == data@.len(),
                data@.len() == old(data)@.len(),
                forall|i: int| 0 <= i < base ==> data@[i] == (if i < start {
                    old(data)@[i]
                } else {
                    old(data)@[start + word_swap_offset(i - start, row as int)]
                }),
                forall|i: int| base <= i < base + k ==> data@[i] == old(data)@[i + 4],
                forall|i: int| base + k <= i < base + 4 ==> data@[i] == old(data)@[i],
                forall|i: int| base + 4 <= i < base + 4 + k ==> data@[i] == old(data)@[i - 4],
                forall|i: int| base + 4 + k <= i < len ==> data@[i] == old(data)@[i],
            decreases 4 - k,
        {
            let first: u8 = data[base + k];
            let second: u8 = data[base + 4 + k];
            data.set(base + k, second);
            data.set(base + 4 + k, first);
            k += 1;
        }
        done += 8;
    }
}

impl NativeImage {
    /// Swaps, in place, the two 4-byte words of every whole chunk of
    /// eight bytes in each odd row. Rows are taken from the top as long
    /// as the data holds them in full; what lies beyond stays as it is.
    pub fn swap_word_rows(&mut self)
        ensures
            final(self).format == old(self).format,
            final(self).width == old(self).width,
            final(self).height == old(self).height,
            final(self).data@ == word_swapped(
                old(self).data@,
                bytes_per_row(old(self).format, old(self).width),
                old(self).height,
            ),
    {
        let bpp: u32 = self.format.get_size().get_bpp();
        assert(self.width * bpp <= 0xFFFF_FFFF * 32) by (nonlinear_arith)
            requires
                self.width <= 0xFFFF_FFFF,
                bpp <= 32,
        ;
        // Use ceiling division to handle non-byte-aligned widths correctly
        let bytes_per_row: u64 = (self.width as u64 * bpp as u64 + 7) / 8;
        let len: usize = self.data.len();
        let height: u32 = self.height;
        let ghost before = self.data@;
        let ghost row = bytes_per_row as int;

        if bytes_per_row == 0 || bytes_per_row > len as u64 {
            proof {
                assert forall|i: int| 0 <= i < len implies swap_source(i, row, height, len as int)
                    == i by {
                    if row > 0 {
                        lemma_swap_source_in_row(i, row, height, len as int, 0);
                    }
                }
                assert(self.data@ =~= word_swapped(before, row, height));
            }
            return ;
        }
        let row_len: usize = bytes_per_row as usize;

        let mut y: u32 = 0;
        let mut row_start: usize = 0;
        while y < height && len - row_start >= row_len
            invariant
                self.format == old(self).format,
                self.width == old(self).width,
                self.height == old(self).height,
                before == old(self).data@,
                0 < row_len == row,
                len == before.len(),
                self.data@.len() == len,
                y <= height,
                row_start == y * row,
                row_start <= len,
                forall|i: int|
                    0 <= i < row_start ==> self.data@[i] == before[swap_source(
                        i,
                        row,
                        height,
                        len as int,
                    )],
                forall|i: int| row_start <= i < len ==> self.data@[i] == before[i],
            decreases height - y,
        {
            proof {
                assert forall|i: int| row_start <= i < row_start + row implies swap_source(
                    i,
                    row,
                    height,
                    len as int,
                ) == (if y % 2 == 1 {
                    row_start + word_swap_offset(i - row_start, row)
                } else {
                    i
                }) by {
                    lemma_swap_source_in_row(i, row, height, len as int, y as int);
                }
                assert((y + 1) * row == y * row + row) by (nonlinear_arith);
            }
            if y % 2 == 1 {
                swap_row_words(&mut self.data, row_start, row_len);
            }
            row_start += row_len;
            y += 1;
        }
        proof {
            assert forall|i: int| row_start <= i < len implies swap_source(
                i,
                row,
                height,
                len as int,
            ) == i by {
                lemma_swap_source_beyond(i, row, height, len as int, y as int);
            }
            assert(self.data@ =~= word_swapped(before, row, height));
        }
    }
}

} // verus!
