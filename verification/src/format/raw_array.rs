//! Binary data as the rows of a C array of integers.

use crate::format::number::{
    be_value, num_from_slice, padded, put_text, put_word_start,
};
use crate::format::{elem_start, lemma_elem_start, lemma_next_in_line};
use vstd::prelude::*;
use vstd::slice::slice_subrange;
use vstd::string::StringSliceAdditionalSpecFns;

verus! {

/// Value `j` of data that is cut into big-endian integers of `width`
/// bytes.
pub open spec fn raw_value(bin: Seq<u8>, width: usize, j: int) -> nat {
    be_value(bin.subrange(elem_start(j, width), elem_start(j, width) + width))
}

/// The text of one value of a raw array: the indent of a row or the
/// break after the value before, the value in upper-case hexadecimal of
/// two digits to the byte, and the end of the row where it is the row's
/// last.
pub open spec fn raw_word(value: nat, width: usize, starts_row: bool, ends_row: bool) -> Seq<u8> {
    (if starts_row {
        "    ".spec_bytes()
    } else {
        ", ".spec_bytes()
    }) + "0x".spec_bytes() + padded(value, 16, (2 * width) as nat) + (if ends_row {
        ",\n".spec_bytes()
    } else {
        Seq::empty()
    })
}

/// The text of the first `count` values of a raw array, in rows of
/// sixteen bytes; the last value of all ends its row too.
pub open spec fn raw_array(bin: Seq<u8>, width: usize, count: int) -> Seq<u8>
    decreases count,
{
    if count <= 0 {
        Seq::empty()
    } else {
        let per_row = 16int / (width as int);
        raw_array(bin, width, count - 1) + raw_word(
            raw_value(bin, width, count - 1),
            width,
            (count - 1) % per_row == 0,
            count % per_row == 0 || elem_start(count, width) == bin.len(),
        )
    }
}

/// Appends the text of one value of a raw array.
fn put_raw_word(output: &mut Vec<u8>, value: u128, width: usize, starts_row: bool, ends_row: bool)
    requires
        width <= 8,
    ensures
        final(output)@ == old(output)@ + raw_word(value as nat, width, starts_row, ends_row),
{
    if starts_row {
        put_text(output, "    ");
    } else {
        put_text(output, ", ");
    }
    put_word_start(output, value, width);
    if ends_row {
        put_text(output, ",\n");
    }
    assert(output@ =~= old(output)@ + raw_word(value as nat, width, starts_row, ends_row));
}

/// Appends `bin` as the rows of a C array of integers of `width` bytes.
pub fn write_buf_as_raw_array(output: &mut Vec<u8>, bin: &[u8], width: usize)
    requires
        width == 1 || width == 2 || width == 4 || width == 8,
        bin@.len() as int % (width as int) == 0,
    ensures
        final(output)@ == old(output)@ + raw_array(bin@, width, bin@.len() as int / (width as int)),
{
    let len: usize = bin.len();
    let per_row: usize = 16 / width;
    let ghost before = output@;
    let mut at: usize = 0;
    let mut in_row: usize = 0;
    let ghost mut j: int = 0;
    proof {
        lemma_elem_start(0, width);
        assert(output@ =~= before + Seq::<u8>::empty());
    }
    while at < len
        invariant
            0 < width <= 8,
            0 < per_row == 16int / (width as int),
            len == bin@.len(),
            len as int % (width as int) == 0,
            0 <= j,
            at == elem_start(j, width),
            at <= len,
            in_row == j % (per_row as int),
            output@ == before + raw_array(bin@, width, j),
        decreases len - at,
    {
        proof {
            lemma_elem_start(j, width);
            lemma_next_in_line(j, per_row as int);
            lemma_whole_elems(len as int, width, j);
        }
        let value: u128 = num_from_slice(slice_subrange(bin, at, at + width), width, false);
        let starts_row: bool = in_row == 0;
        at += width;
        in_row = if in_row + 1 == per_row {
            0
        } else {
            in_row + 1
        };
        put_raw_word(output, value, width, starts_row, in_row == 0 || at == len);
        proof {
            j = j + 1;
            assert(raw_array(bin@, width, j) == raw_array(bin@, width, j - 1) + raw_word(
                value as nat,
                width,
                starts_row,
                in_row == 0 || at == len,
            ));
            assert(before + raw_array(bin@, width, j - 1) + raw_word(
                value as nat,
                width,
                starts_row,
                in_row == 0 || at == len,
            ) =~= before + raw_array(bin@, width, j));
        }
    }
    proof {
        lemma_whole_elems(len as int, width, j);
    }
}

/// In data of whole elements, an element that starts within the data
/// lies within it, and the element that starts at the end of the data
/// is the one after the last.
pub proof fn lemma_whole_elems(len: int, width: usize, j: int)
    requires
        0 < width,
        0 <= j,
        0 <= len,
        len % (width as int) == 0,
        elem_start(j, width) <= len,
    ensures
        elem_start(j, width) < len ==> elem_start(j, width) + width <= len,
        elem_start(j, width) == len ==> j == len / (width as int),
{
    reveal(elem_start);
    let w = width as int;
    let q = len / w;
    assert(len == q * w) by (nonlinear_arith)
        requires
            0 < w,
            q == len / w,
            len % w == 0,
    ;
    if j * w < len {
        assert(j * w + w <= q * w) by (nonlinear_arith)
            requires
                j * w < q * w,
                0 < w,
        ;
    }
    if j * w == len {
        assert(j == q) by (nonlinear_arith)
            requires
                j * w == q * w,
                0 < w,
        ;
    }
}

/// Appends `bin` as the rows of a C array of bytes.
pub fn write_buf_as_u8(output: &mut Vec<u8>, bin: &[u8])
    ensures
        final(output)@ == old(output)@ + raw_array(bin@, 1, bin@.len() as int),
{
    write_buf_as_raw_array(output, bin, 1);
}

/// Appends `bin` as the rows of a C array of 16-bit integers.
pub fn write_buf_as_u16(output: &mut Vec<u8>, bin: &[u8])
    requires
        bin@.len() % 2 == 0,
    ensures
        final(output)@ == old(output)@ + raw_array(bin@, 2, bin@.len() as int / 2),
{
    write_buf_as_raw_array(output, bin, 2);
}

/// Appends `bin` as the rows of a C array of 32-bit integers.
pub fn write_buf_as_u32(output: &mut Vec<u8>, bin: &[u8])
    requires
        bin@.len() % 4 == 0,
    ensures
        final(output)@ == old(output)@ + raw_array(bin@, 4, bin@.len() as int / 4),
{
    write_buf_as_raw_array(output, bin, 4);
}

/// Appends `bin` as the rows of a C array of 64-bit integers.
pub fn write_buf_as_u64(output: &mut Vec<u8>, bin: &[u8])
    requires
        bin@.len() % 8 == 0,
    ensures
        final(output)@ == old(output)@ + raw_array(bin@, 8, bin@.len() as int / 8),
{
    write_buf_as_raw_array(output, bin, 8);
}

} // verus!
