//! Numbers out of runs of bytes, and numbers as text.

use vstd::prelude::*;
use vstd::string::StringSliceAdditionalSpecFns;

verus! {

/// 256 to the power of `k`.
pub open spec fn pow256(k: nat) -> nat
    decreases k,
{
    if k == 0 {
        1
    } else {
        256 * pow256((k - 1) as nat)
    }
}

/// The number whose big-endian bytes are `s`.
pub open spec fn be_value(s: Seq<u8>) -> nat
    decreases s.len(),
{
    if s.len() == 0 {
        0
    } else {
        256 * be_value(s.drop_last()) + s.last() as nat
    }
}

/// The number whose little-endian bytes are `s`.
pub open spec fn le_value(s: Seq<u8>) -> nat
    decreases s.len(),
{
    if s.len() == 0 {
        0
    } else {
        s.first() as nat + 256 * le_value(s.drop_first())
    }
}

/// The number that a run of at most `width` bytes stands for in an
/// integer of `width` bytes, of at most sixteen: the run's value, in
/// little-endian order moved up by the bytes that the run is short of
/// the width. No number, that is zero, where the run is longer than
/// the width or the width more than sixteen.
pub open spec fn spec_num_from_slice(data: Seq<u8>, width: usize, little_endian: bool) -> nat {
    if width > 16 || data.len() > width {
        0
    } else if little_endian {
        le_value(data) * pow256((width - data.len()) as nat)
    } else {
        be_value(data)
    }
}

/// A run of `n` bytes stands for a number below 256 to the `n`.
pub proof fn lemma_values_bounded(s: Seq<u8>)
    ensures
        be_value(s) < pow256(s.len()),
        le_value(s) < pow256(s.len()),
    decreases s.len(),
{
    if s.len() > 0 {
        lemma_values_bounded(s.drop_last());
        lemma_values_bounded(s.drop_first());
    }
}

/// Powers of 256 are positive and grow with the exponent.
pub proof fn lemma_pow256_grows(a: nat, b: nat)
    requires
        a <= b,
    ensures
        1 <= pow256(a) <= pow256(b),
    decreases a + b,
{
    if a < b {
        lemma_pow256_grows(a, (b - 1) as nat);
    } else if a > 0 {
        lemma_pow256_grows((a - 1) as nat, (b - 1) as nat);
    }
}

/// The power of a sum is the product of the powers.
pub proof fn lemma_pow256_add(a: nat, b: nat)
    ensures
        pow256(a + b) == pow256(a) * pow256(b),
    decreases a,
{
    if a > 0 {
        lemma_pow256_add((a - 1) as nat, b);
        assert(pow256(a + b) == 256 * pow256((a - 1 + b) as nat));
        assert(256 * (pow256((a - 1) as nat) * pow256(b)) == (256 * pow256((a - 1) as nat)) * pow256(
            b,
        )) by (nonlinear_arith);
    } else {
        assert(1 * pow256(b) == pow256(b)) by (nonlinear_arith);
    }
}

/// Fifteen bytes fill 120 bits.
pub proof fn lemma_pow256_of_15()
    ensures
        pow256(15) == 0x100_0000_0000_0000_0000_0000_0000_0000,
{
    reveal_with_fuel(pow256, 16);
}

/// Reads the number that a run of at most `width` bytes stands for in
/// an integer of `width` bytes.
pub fn num_from_slice(data: &[u8], width: usize, little_endian: bool) -> (num: u128)
    ensures
        num == spec_num_from_slice(data@, width, little_endian),
{
    let mut num: u128 = 0u128;

    if width > 16 {
        return 0;
    }
    let len: usize = data.len();
    if len > width {
        return 0;
    }
    let mut done: usize = 0;
    if little_endian {
        assert(data@.subrange(len as int, len as int) =~= Seq::<u8>::empty());
        while done < len
            invariant
                done <= len <= 16,
                len == data@.len(),
                num == le_value(data@.subrange(len - done, len as int)),
            decreases len - done,
        {
            let byte: u8 = data[len - 1 - done];
            proof {
                let rest = data@.subrange(len - done, len as int);
                let more = data@.subrange(len - done - 1, len as int);
                assert(more.drop_first() =~= rest);
                lemma_values_bounded(rest);
                lemma_pow256_grows(done as nat, 15);
                lemma_pow256_of_15();
                assert((num << 8) | (byte as u128) == num * 256 + byte) by (bit_vector)
                    requires
                        num < 0x100_0000_0000_0000_0000_0000_0000_0000u128,
                ;
            }
            num = (num << 8) | byte as u128;
            done += 1;
        }
        assert(data@.subrange(0, len as int) =~= data@);

        let mut moved: usize = 0;
        proof {
            lemma_values_bounded(data@);
            assert(num * 1 == num) by (nonlinear_arith);
        }
        while moved < width - len
            invariant
                moved <= width - len,
                len <= width <= 16,
                len == data@.len(),
                le_value(data@) < pow256(len as nat),
                num == le_value(data@) * pow256(moved as nat),
            decreases width - len - moved,
        {
            proof {
                let value = le_value(data@);
                lemma_pow256_add(len as nat, moved as nat);
                lemma_pow256_grows((len + moved) as nat, 15);
                lemma_pow256_grows(moved as nat, moved as nat);
                lemma_pow256_of_15();
                assert(value * pow256(moved as nat) < pow256(len as nat) * pow256(moved as nat))
                    by (nonlinear_arith)
                    requires
                        value < pow256(len as nat),
                        pow256(moved as nat) >= 1,
                ;
                assert(num << 8 == num * 256) by (bit_vector)
                    requires
                        num < 0x100_0000_0000_0000_0000_0000_0000_0000u128,
                ;
                assert(value * pow256(moved as nat) * 256 == value * (256 * pow256(moved as nat)))
                    by (nonlinear_arith);
            }
            num = num << 8;
            moved += 1;
        }
    } else {
        assert(data@.subrange(0, 0) =~= Seq::<u8>::empty());
        while done < len
            invariant
                done <= len <= 16,
                len == data@.len(),
                num == be_value(data@.subrange(0, done as int)),
            decreases len - done,
        {
            let byte: u8 = data[done];
            proof {
                let read = data@.subrange(0, done as int);
                let more = data@.subrange(0, done + 1);
                assert(more.drop_last() =~= read);
                lemma_values_bounded(read);
                lemma_pow256_grows(done as nat, 15);
                lemma_pow256_of_15();
                assert((num << 8) | (byte as u128) == num * 256 + byte) by (bit_vector)
                    requires
                        num < 0x100_0000_0000_0000_0000_0000_0000_0000u128,
                ;
            }
            num = (num << 8) | byte as u128;
            done += 1;
        }
        assert(data@.subrange(0, len as int) =~= data@);
    }

    num
}

/// The character of a digit, for digits up to fifteen: `0` to `9`, then
/// `A` to `F`.
pub open spec fn digit_char(d: nat) -> u8 {
    if d < 10 {
        (48 + d) as u8
    } else {
        (55 + d) as u8
    }
}

/// The hexadecimal digits of `n`, the highest first.
pub open spec fn hex_digits(n: nat) -> Seq<u8>
    decreases n,
{
    if n < 16 {
        seq![digit_char(n)]
    } else {
        hex_digits(n / 16).push(digit_char(n % 16))
    }
}

/// The decimal digits of `n`, the highest first.
pub open spec fn dec_digits(n: nat) -> Seq<u8>
    decreases n,
{
    if n < 10 {
        seq![digit_char(n)]
    } else {
        dec_digits(n / 10).push(digit_char(n % 10))
    }
}

/// The digits of `n` to the base 16, or else 10.
pub open spec fn digits(n: nat, base: nat) -> Seq<u8> {
    if base == 16 {
        hex_digits(n)
    } else {
        dec_digits(n)
    }
}

/// The digits of `n`, with zeros in front to make them `width` at least.
pub open spec fn padded(n: nat, base: nat, width: nat) -> Seq<u8> {
    let plain = digits(n, base);
    if plain.len() >= width {
        plain
    } else {
        Seq::new((width - plain.len()) as nat, |i: int| 48u8) + plain
    }
}

/// Appends the bytes of a text.
pub(crate) fn put_text(out: &mut Vec<u8>, text: &str)
    ensures
        final(out)@ == old(out)@ + text.spec_bytes(),
{
    out.extend_from_slice(text.as_bytes());
    assert(out@ =~= old(out)@ + text.spec_bytes());
}

/// The character of a digit.
fn digit(d: u8) -> (c: u8)
    requires
        d < 16,
    ensures
        c == digit_char(d as nat),
{
    if d < 10 {
        48 + d
    } else {
        55 + d
    }
}

/// Appends the digits of `n` to the base 10 or 16, with zeros in front
/// to make them `width` at least.
pub(crate) fn put_number(out: &mut Vec<u8>, n: u128, base: u128, width: usize)
    requires
        base == 10 || base == 16,
    ensures
        final(out)@ == old(out)@ + padded(n as nat, base as nat, width as nat),
{
    // The digits come lowest first, and go out in reverse.
    let mut low_first: Vec<u8> = Vec::new();
    low_first.push(digit((n % base) as u8));
    let mut rest: u128 = n / base;
    let ghost mut found: Seq<u8> = seq![digit_char((n % base) as nat)];
    while rest > 0
        invariant
            base == 10 || base == 16,
            low_first@.len() == found.len(),
            forall|i: int| 0 <= i < found.len() ==> low_first@[i] == found[found.len() - 1 - i],
            digits(n as nat, base as nat) == if rest > 0 {
                digits(rest as nat, base as nat) + found
            } else {
                found
            },
        decreases rest,
    {
        proof {
            let d = digit_char((rest % base) as nat);
            let next = seq![d] + found;
            assert forall|i: int| 0 <= i < next.len() implies low_first@.push(d)[i] == next[next.len()
                - 1 - i] by {}
            if rest / base > 0 {
                assert(digits((rest / base) as nat, base as nat).push(d) + found =~= digits(
                    (rest / base) as nat,
                    base as nat,
                ) + next);
            } else {
                assert(seq![d] + found =~= next);
                assert(digits(rest as nat, base as nat) =~= seq![d]);
            }
            found = next;
        }
        low_first.push(digit((rest % base) as u8));
        rest = rest / base;
    }
    let count: usize = low_first.len();
    let ghost before = out@;
    let mut zeros: usize = 0;
    while count < width && zeros < width - count
        invariant
            count == found.len(),
            out@ == before + Seq::new(zeros as nat, |i: int| 48u8),
            count < width ==> zeros <= width - count,
            count >= width ==> zeros == 0,
        decreases width - zeros,
    {
        out.push(48);
        zeros += 1;
        assert(out@ =~= before + Seq::new(zeros as nat, |i: int| 48u8));
    }
    let ghost filled = out@;
    assert(filled + found =~= before + padded(n as nat, base as nat, width as nat));
    let mut left: usize = count;
    while left > 0
        invariant
            left <= count == found.len() == low_first@.len(),
            forall|i: int| 0 <= i < found.len() ==> low_first@[i] == found[found.len() - 1 - i],
            out@ == filled + found.take(count - left),
        decreases left,
    {
        left -= 1;
        out.push(low_first[left]);
        assert(out@ =~= filled + found.take(count - left));
    }
    assert(found.take(count as int) =~= found);
}

/// Appends a number in hexadecimal with two digits for each byte of the
/// type, after `0x`.
pub(crate) fn put_word_start(out: &mut Vec<u8>, value: u128, type_width: usize)
    requires
        type_width * 2 <= usize::MAX,
    ensures
        final(out)@ == old(out)@ + "0x".spec_bytes() + padded(
            value as nat,
            16,
            (2 * type_width) as nat,
        ),
{
    put_text(out, "0x");
    put_number(out, value, 16, type_width * 2);
}

} // verus!
