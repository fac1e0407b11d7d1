//! Output of binary data: as it is, or as the text of a C array of
//! integers.

use crate::format::number::{
    padded, put_number, put_text, put_word_start, spec_num_from_slice,
};
use vstd::prelude::*;
use vstd::slice::slice_subrange;
use vstd::string::StringSliceAdditionalSpecFns;

pub mod number;
pub mod raw_array;

pub use crate::format::number::num_from_slice;
pub use crate::format::raw_array::{
    write_buf_as_raw_array, write_buf_as_u16, write_buf_as_u32, write_buf_as_u64, write_buf_as_u8,
};

verus! {

/// Number of elements that `len` bytes make at `elem_width` bytes each;
/// what is left at the end makes one more.
#[verifier::opaque]
pub open spec fn elem_count(len: nat, elem_width: usize) -> int {
    (len + elem_width - 1) / (elem_width as int)
}

/// Where element `i` starts.
#[verifier::opaque]
pub open spec fn elem_start(i: int, elem_width: usize) -> int {
    i * elem_width
}

/// Element `i` of `data` cut into runs of `elem_width` bytes.
#[verifier::opaque]
pub open spec fn elem(
    data: Seq<u8>,
    elem_width: usize,
    type_width: usize,
    little_endian: bool,
    i: int,
) -> nat {
    let end = if (i + 1) * elem_width <= data.len() {
        (i + 1) * elem_width
    } else {
        data.len() as int
    };
    spec_num_from_slice(data.subrange(i * elem_width, end), type_width, little_endian)
}

/// What stands before element `i` in the text: a tab at the start, a
/// new line and a tab where a line of `line_width` elements is full,
/// and a space otherwise.
pub open spec fn separator(i: int, line_width: usize) -> Seq<u8> {
    if i == 0 {
        "\t".spec_bytes()
    } else if i % (line_width as int) == 0 {
        "\n\t".spec_bytes()
    } else {
        " ".spec_bytes()
    }
}

/// The text of one element: its value in upper-case hexadecimal with
/// two digits for each byte of the type, between `0x` and a comma.
pub open spec fn word(value: nat, type_width: usize) -> Seq<u8> {
    "0x".spec_bytes() + padded(value, 16, (2 * type_width) as nat) + ",".spec_bytes()
}

/// The text of the first `count` elements.
pub open spec fn contents(
    data: Seq<u8>,
    elem_width: usize,
    type_width: usize,
    line_width: usize,
    little_endian: bool,
    count: int,
) -> Seq<u8>
    decreases count,
{
    if count <= 0 {
        Seq::empty()
    } else {
        contents(data, elem_width, type_width, line_width, little_endian, count - 1) + separator(
            count - 1,
            line_width,
        ) + word(elem(data, elem_width, type_width, little_endian, count - 1), type_width)
    }
}

/// What `str::to_uppercase` makes of a text.
pub uninterp spec fn upper_text(name: Seq<char>) -> Seq<char>;

/// `str::to_uppercase`: the text in upper case, which is a matter of the
/// tables of Unicode and is claimed only to depend on the text alone.
#[verifier::external_body]
fn uppercase(name: &str) -> (upper: String)
    ensures
        upper@ == upper_text(name@),
{
    name.to_uppercase()
}

/// Appends what stands before an element: at the start of the text, at
/// the start of another line, or within a line.
fn put_separator(out: &mut Vec<u8>, first: bool, line_start: bool)
    ensures
        final(out)@ == old(out)@ + if first {
            "\t".spec_bytes()
        } else if line_start {
            "\n\t".spec_bytes()
        } else {
            " ".spec_bytes()
        },
{
    if first {
        put_text(out, "\t");
    } else if line_start {
        put_text(out, "\n\t");
    } else {
        put_text(out, " ");
    }
}

/// Appends the text of one element.
fn put_word(out: &mut Vec<u8>, value: u128, type_width: usize)
    requires
        type_width * 2 <= usize::MAX,
    ensures
        final(out)@ == old(out)@ + word(value as nat, type_width),
{
    put_word_start(out, value, type_width);
    put_text(out, ",");
    assert(out@ =~= old(out)@ + word(value as nat, type_width));
}

/// Elements start at zero and follow each other.
pub proof fn lemma_elem_start(i: int, elem_width: usize)
    ensures
        elem_start(0, elem_width) == 0,
        elem_start(i + 1, elem_width) == elem_start(i, elem_width) + elem_width,
{
    reveal(elem_start);
    assert(0 * elem_width == 0 && (i + 1) * elem_width == i * elem_width + elem_width)
        by (nonlinear_arith);
}

/// Element `i` is the number of the bytes from its start on, as many
/// as the width or as are left.
pub proof fn lemma_elem_at(
    data: Seq<u8>,
    elem_width: usize,
    type_width: usize,
    little_endian: bool,
    i: int,
)
    requires
        0 <= i,
        elem_start(i, elem_width) < data.len(),
    ensures
        elem(data, elem_width, type_width, little_endian, i) == spec_num_from_slice(
            data.subrange(
                elem_start(i, elem_width),
                if data.len() - elem_start(i, elem_width) >= elem_width {
                    elem_start(i, elem_width) + elem_width
                } else {
                    data.len() as int
                },
            ),
            type_width,
            little_endian,
        ),
{
    reveal(elem_start);
    reveal(elem);
    assert((i + 1) * elem_width == i * elem_width + elem_width) by (nonlinear_arith);
}

/// How binary data is put out.
#[derive(Copy, Clone, Debug, PartialEq, Eq, Structural)]
pub enum OutputMethod {
    /// As it is.
    Bin,
    /// As the elements of a C array.
    CData,
    /// As a C file that defines the array.
    CFile,
}

impl OutputMethod {
    /// The extension of a file of this output.
    pub open spec fn spec_extension(self) -> Seq<char> {
        if self == OutputMethod::Bin {
            "bin"@
        } else {
            "c"@
        }
    }

    /// What encoding gives. The data itself for binary output; else the
    /// text of its elements, and for a file that text within the
    /// definition of an array named `name`, whose length is defined
    /// under that name in upper case.
    pub open spec fn spec_encode(
        self,
        data: Seq<u8>,
        name: &str,
        elem_width: usize,
        type_width: usize,
        line_width: usize,
        little_endian: bool,
    ) -> Seq<u8> {
        let text = contents(
            data,
            elem_width,
            type_width,
            line_width,
            little_endian,
            elem_count(data.len(), elem_width),
        );
        match self {
            OutputMethod::Bin => data,
            OutputMethod::CData => text,
            OutputMethod::CFile => "#include \"common.h\"\n\n#define ".spec_bytes()
                + vstd::utf8::encode_utf8(upper_text(name@)) + "_LEN ".spec_bytes() + padded(
                data.len() / (elem_width as nat),
                10,
                0,
            ) + "\n\nu".spec_bytes() + padded((type_width * 8) as nat, 10, 0) + " ".spec_bytes()
                + name.spec_bytes() + "[".spec_bytes() + vstd::utf8::encode_utf8(upper_text(name@))
                + "_LEN] = {\n".spec_bytes() + text + "\n};\n".spec_bytes(),
        }
    }

    /// Returns the extension of a file of this output.
    pub fn get_extension(&self) -> (extension: &str)
        ensures
            extension@ == self.spec_extension(),
    {
        match self {
            OutputMethod::Bin => "bin",
            OutputMethod::CData | OutputMethod::CFile => "c",
        }
    }

    /// Appends the text of the elements of `data`.
    #[verifier::rlimit(30)]
    fn put_contents(
        out: &mut Vec<u8>,
        data: &[u8],
        elem_width: usize,
        type_width: usize,
        line_width: usize,
        little_endian: bool,
    )
        requires
            elem_width > 0,
            line_width > 0,
            type_width * 2 <= usize::MAX,
        ensures
            final(out)@ == old(out)@ + contents(
                data@,
                elem_width,
                type_width,
                line_width,
                little_endian,
                elem_count(data@.len(), elem_width),
            ),
    {
        let len: usize = data.len();
        let ghost before = out@;
        let mut at: usize = 0;
        let mut first: bool = true;
        let mut in_line: usize = 0;
        let ghost mut j: int = 0;
        proof {
            lemma_elem_count_bounds(len as nat, elem_width);
            lemma_elem_start(0, elem_width);
            assert(out@ =~= before + Seq::<u8>::empty());
        }
        while at < len
            invariant
                elem_width > 0,
                line_width > 0,
                type_width * 2 <= usize::MAX,
                len == data@.len(),
                at <= len,
                0 <= j,
                first <==> j == 0,
                at < len ==> at == elem_start(j, elem_width),
                at == len ==> j == elem_count(len as nat, elem_width),
                in_line == j % (line_width as int),
                out@ == before + contents(data@, elem_width, type_width, line_width, little_endian, j),
            decreases len - at,
        {
            let end: usize = if len - at >= elem_width {
                at + elem_width
            } else {
                len
            };
            proof {
                lemma_elem_start(j, elem_width);
                lemma_elem_count(len as nat, elem_width, j);
                lemma_next_in_line(j, line_width as int);
                lemma_elem_at(data@, elem_width, type_width, little_endian, j);
            }
            let value: u128 = num_from_slice(slice_subrange(data, at, end), type_width, little_endian);
            put_separator(out, first, in_line == 0);
            put_word(out, value, type_width);
            proof {
                let done = contents(data@, elem_width, type_width, line_width, little_endian, j);
                let more = separator(j, line_width) + word(value as nat, type_width);
                assert(contents(data@, elem_width, type_width, line_width, little_endian, j + 1)
                    == done + separator(j, line_width) + word(value as nat, type_width));
                assert(before + done + separator(j, line_width) + word(value as nat, type_width)
                    =~= before + (done + separator(j, line_width) + word(value as nat, type_width)));
                j = j + 1;
            }
            at = end;
            first = false;
            in_line = if in_line + 1 == line_width {
                0
            } else {
                in_line + 1
            };
        }
    }

    /// Encodes `data` for output: as it is, or as text in which every
    /// run of `elem_width` bytes is one integer of `type_width` bytes,
    /// with `line_width` of them to the line.
    pub fn encode(
        &self,
        data: &[u8],
        name: &str,
        elem_width: usize,
        type_width: usize,
        line_width: usize,
        little_endian: bool,
    ) -> (out: Vec<u8>)
        requires
            *self != OutputMethod::Bin ==> elem_width > 0 && line_width > 0 && type_width * 8
                <= usize::MAX,
        ensures
            out@ == self.spec_encode(
                data@,
                name,
                elem_width,
                type_width,
                line_width,
                little_endian,
            ),
    {
        let mut out: Vec<u8> = Vec::new();
        match self {
            OutputMethod::Bin => {
                out.extend_from_slice(data);
                assert(out@ =~= data@);
            },
            OutputMethod::CData => {
                Self::put_contents(&mut out, data, elem_width, type_width, line_width, little_endian);
                assert(out@ =~= self.spec_encode(
                    data@,
                    name,
                    elem_width,
                    type_width,
                    line_width,
                    little_endian,
                ));
            },
            OutputMethod::CFile => {
                let upper: String = uppercase(name);
                let data_len: usize = data.len();
                put_text(&mut out, "#include \"common.h\"\n\n#define ");
                put_text(&mut out, upper.as_str());
                put_text(&mut out, "_LEN ");
                put_number(&mut out, (data_len / elem_width) as u128, 10, 0);
                put_text(&mut out, "\n\nu");
                put_number(&mut out, (type_width * 8) as u128, 10, 0);
                put_text(&mut out, " ");
                put_text(&mut out, name);
                put_text(&mut out, "[");
                put_text(&mut out, upper.as_str());
                put_text(&mut out, "_LEN] = {\n");
                Self::put_contents(&mut out, data, elem_width, type_width, line_width, little_endian);
                put_text(&mut out, "\n};\n");
                assert(out@ =~= self.spec_encode(
                    data@,
                    name,
                    elem_width,
                    type_width,
                    line_width,
                    little_endian,
                ));
            },
        }
        out
    }
}

/// There are no more elements than bytes, and none without bytes.
pub proof fn lemma_elem_count_bounds(len: nat, elem_width: usize)
    requires
        elem_width > 0,
    ensures
        0 <= elem_count(len, elem_width) <= len,
        len == 0 ==> elem_count(len, elem_width) == 0,
{
    reveal(elem_count);
    let w = elem_width as int;
    let count = elem_count(len, elem_width);
    assert(count * w <= len + w - 1 < count * w + w) by (nonlinear_arith)
        requires
            w > 0,
            count == (len + w - 1) / w,
    ;
    assert(0 <= count <= len) by (nonlinear_arith)
        requires
            w > 0,
            0 <= len,
            count * w <= len + w - 1 < count * w + w,
    ;
}

/// An element that starts within the data is one of the elements, and
/// the one that reaches the end of the data is the last.
pub proof fn lemma_elem_count(len: nat, elem_width: usize, i: int)
    requires
        elem_width > 0,
        0 <= i,
        elem_start(i, elem_width) < len,
    ensures
        i < elem_count(len, elem_width),
        elem_start(i, elem_width) + elem_width >= len ==> i + 1 == elem_count(len, elem_width),
        elem_start(i, elem_width) + elem_width < len ==> i + 1 < elem_count(len, elem_width),
{
    reveal(elem_start);
    reveal(elem_count);
    let w = elem_width as int;
    let count = elem_count(len, elem_width);
    assert(count * w <= len + w - 1 < count * w + w) by (nonlinear_arith)
        requires
            w > 0,
            count == (len + w - 1) / w,
    ;
    assert(i < count) by (nonlinear_arith)
        requires
            i * w < len,
            len + w - 1 < count * w + w,
            w > 0,
    ;
    if i * w + w >= len {
        assert(i + 1 >= count) by (nonlinear_arith)
            requires
                i * w + w >= len,
                count * w <= len + w - 1,
                w > 0,
        ;
    } else {
        assert(i + 1 < count) by (nonlinear_arith)
            requires
                i * w + w < len,
                len + w - 1 < count * w + w,
                w > 0,
        ;
    }
}

/// The place in its line of the element after element `i`.
pub proof fn lemma_next_in_line(i: int, line_width: int)
    requires
        0 <= i,
        0 < line_width,
    ensures
        (i + 1) % line_width == if i % line_width + 1 == line_width {
            0
        } else {
            i % line_width + 1
        },
{
    let q = i / line_width;
    let r = i % line_width;
    assert(i == q * line_width + r && 0 <= r < line_width) by (nonlinear_arith)
        requires
            0 < line_width,
            q == i / line_width,
            r == i % line_width,
    ;
    if r + 1 == line_width {
        assert(i + 1 == (q + 1) * line_width + 0) by (nonlinear_arith)
            requires
                i == q * line_width + r,
                r + 1 == line_width,
        ;
        vstd::arithmetic::div_mod::lemma_fundamental_div_mod_converse(i + 1, line_width, q + 1, 0);
    } else {
        vstd::arithmetic::div_mod::lemma_fundamental_div_mod_converse(i + 1, line_width, q, r + 1);
    }
}

} // verus!
