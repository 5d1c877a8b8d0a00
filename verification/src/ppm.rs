//! The plain-text PPM encoding of a rendered image.

use vstd::prelude::*;
use crate::scalar::Scalar;

verus! {

/// The largest value of a colour channel.
pub const MAX_VALUE: i32 = 255;

/// The ASCII digits of `n`, most significant first.
pub open spec fn digits(n: nat) -> Seq<u8>
    decreases n,
{
    if n < 10 {
        seq![(48 + n) as u8]
    } else {
        digits(n / 10).push((48 + n % 10) as u8)
    }
}

/// The number that a string of ASCII digits denotes.
pub open spec fn denoted(numeral: Seq<u8>) -> nat
    decreases numeral.len(),
{
    if numeral.len() == 0 {
        0
    } else {
        (10 * denoted(numeral.drop_last()) + (numeral.last() - 48)) as nat
    }
}

/// The decimal numeral of `n`, with a minus sign where `n` is negative.
pub open spec fn decimal(n: int) -> Seq<u8> {
    if n < 0 {
        seq![45u8] + digits((-n) as nat)
    } else {
        digits(n as nat)
    }
}

/// The head of an image of `width` by `height` pixels: the magic number
/// of the plain format, the two sizes and the largest channel value, a
/// line each.
pub open spec fn header_spec(width: int, height: int) -> Seq<u8> {
    seq![80u8, 51u8, 10u8] + decimal(width) + seq![32u8] + decimal(height) + seq![10u8] + decimal(
        MAX_VALUE as int,
    ) + seq![10u8]
}

/// The line of one pixel: its three channels, separated by spaces.
pub open spec fn pixel_line_spec(r: int, g: int, b: int) -> Seq<u8> {
    decimal(r) + seq![32u8] + decimal(g) + seq![32u8] + decimal(b) + seq![10u8]
}

/// The column and the row, counted from the bottom, of the pixel that
/// line `k` of the image body describes: rows run from the top one to
/// the bottom one, and each row from left to right.
pub open spec fn pixel_at_spec(k: int, width: int, height: int) -> (int, int) {
    (k % width, height - 1 - k / width)
}

fn push_digits(out: &mut Vec<u8>, n: u32)
    ensures
        final(out)@ == old(out)@ + digits(n as nat),
    decreases n,
{
    if n >= 10 {
        push_digits(out, n / 10);
    }
    let d: u8 = (48 + n % 10) as u8;
    out.push(d);
    proof {
        if n >= 10 {
            assert(final(out)@ =~= old(out)@ + digits((n / 10) as nat).push(d));
        } else {
            assert(final(out)@ =~= old(out)@ + seq![d]);
        }
    }
}

/// Appends the decimal numeral of `n`.
pub fn push_decimal(out: &mut Vec<u8>, n: i32)
    ensures
        final(out)@ == old(out)@ + decimal(n as int),
{
    if n < 0 {
        out.push(45u8);
        let size: u32 = if n == i32::MIN {
            0x8000_0000u32
        } else {
            (-n) as u32
        };
        push_digits(out, size);
        assert(final(out)@ =~= old(out)@ + (seq![45u8] + digits((-n) as nat)));
    } else {
        push_digits(out, n as u32);
    }
}

/// The head of the image.
pub fn header(width: i32, height: i32) -> (r: Vec<u8>)
    ensures
        r@ == header_spec(width as int, height as int),
{
    let mut out: Vec<u8> = Vec::new();
    out.push(80u8);
    out.push(51u8);
    out.push(10u8);
    assert(out@ =~= seq![80u8, 51u8, 10u8]);
    push_decimal(&mut out, width);
    out.push(32u8);
    push_decimal(&mut out, height);
    out.push(10u8);
    push_decimal(&mut out, MAX_VALUE);
    out.push(10u8);
    assert(out@ =~= header_spec(width as int, height as int));
    out
}

/// The line of one pixel.
pub fn pixel_line(r: i32, g: i32, b: i32) -> (line: Vec<u8>)
    ensures
        line@ == pixel_line_spec(r as int, g as int, b as int),
{
    let mut out: Vec<u8> = Vec::new();
    assert(out@ =~= Seq::<u8>::empty());
    push_decimal(&mut out, r);
    out.push(32u8);
    push_decimal(&mut out, g);
    out.push(32u8);
    push_decimal(&mut out, b);
    out.push(10u8);
    assert(out@ =~= pixel_line_spec(r as int, g as int, b as int));
    out
}

/// The channels of a pixel, from its colour after scaling to the range of
/// a channel: each number cut to its whole part.
pub fn quantize(r: Scalar, g: Scalar, b: Scalar) -> (q: (i32, i32, i32))
    ensures
        q.0 == r.truncate_spec(),
        q.1 == g.truncate_spec(),
        q.2 == b.truncate_spec(),
{
    (r.truncate(), g.truncate(), b.truncate())
}

/// The column and the row, counted from the bottom, of the pixel that
/// line `k` of the image body describes.
pub fn pixel_at(k: u32, width: u32, height: u32) -> (at: (u32, u32))
    requires
        width > 0,
        k < width * height,
    ensures
        (at.0 as int, at.1 as int) == pixel_at_spec(k as int, width as int, height as int),
        at.0 < width,
        at.1 < height,
{
    let row: u32 = k / width;
    proof {
        lemma_row_in_image(k as int, width as int, height as int);
    }
    (k % width, height - 1 - row)
}

/// The digits of `n` are a numeral for `n`: at least one digit, each
/// between `0` and `9`, none of them a needless leading zero, and
/// together they denote `n`.
pub proof fn lemma_digits_denote(n: nat)
    ensures
        digits(n).len() >= 1,
        forall|i: int| 0 <= i < digits(n).len() ==> 48 <= #[trigger] digits(n)[i] <= 57,
        digits(n)[0] == 48 ==> n == 0,
        denoted(digits(n)) == n,
    decreases n,
{
    if n < 10 {
        assert(digits(n).drop_last() =~= Seq::<u8>::empty());
        assert(denoted(digits(n).drop_last()) == 0);
    } else {
        lemma_digits_denote(n / 10);
        assert(digits(n).drop_last() =~= digits(n / 10));
    }
}

/// Line `k` of an image lies in one of its rows.
pub proof fn lemma_row_in_image(k: int, width: int, height: int)
    requires
        width > 0,
        0 <= k < width * height,
    ensures
        0 <= k / width < height,
        0 <= k % width < width,
        k == (k / width) * width + k % width,
{
    vstd::arithmetic::div_mod::lemma_fundamental_div_mod(k, width);
    vstd::arithmetic::div_mod::lemma_div_pos_is_pos(k, width);
    vstd::arithmetic::div_mod::lemma_mod_bound(k, width);
    let q = k / width;
    if q >= height {
        assert(width * q >= width * height) by (nonlinear_arith)
            requires
                q >= height,
                width > 0,
        ;
    }
    assert(width * q == q * width) by (nonlinear_arith);
}

/// The lines of the image body visit every pixel once: the pixel in column
/// `i` of row `j` is described by line `(height - 1 - j) * width + i` and
/// by no other.
pub proof fn lemma_scan_visits_each_pixel_once(i: int, j: int, width: int, height: int, k: int)
    requires
        0 <= i < width,
        0 <= j < height,
        0 <= k < width * height,
    ensures
        pixel_at_spec(k, width, height) == (i, j) <==> k == (height - 1 - j) * width + i,
        0 <= (height - 1 - j) * width + i < width * height,
{
    let row = height - 1 - j;
    lemma_row_in_image(k, width, height);
    assert(0 <= row * width + i < width * height) by (nonlinear_arith)
        requires
            0 <= row < height,
            0 <= i < width,
    ;
    if k == row * width + i {
        vstd::arithmetic::div_mod::lemma_fundamental_div_mod_converse(k, width, row, i);
    }
}

} // verus!
