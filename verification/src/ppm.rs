//! The image as text: the plain variant of the portable pixmap format.

use vstd::prelude::*;
use crate::camera::Pixel;

verus! {

/// The character of a decimal digit.
pub open spec fn digit_spec(d: nat) -> u8 {
    (48 + d) as u8
}

/// A number in decimal digits, without leading zeros.
pub open spec fn decimal_spec(n: nat) -> Seq<u8>
    decreases n,
{
    if n < 10 {
        seq![digit_spec(n)]
    } else {
        decimal_spec(n / 10).push(digit_spec(n % 10))
    }
}

/// The three lines that open the file: the format, the width and height, and
/// the largest value of a channel.
pub open spec fn header_spec(width: u32, height: u32) -> Seq<u8> {
    seq![80u8, 51u8, 10u8] + decimal_spec(width as nat) + seq![32u8] + decimal_spec(
        height as nat,
    ) + seq![10u8, 50u8, 53u8, 53u8, 10u8]
}

/// The line of one pixel: its three channels, a space between them.
pub open spec fn line_spec(p: Pixel) -> Seq<u8> {
    decimal_spec(p.r as nat) + seq![32u8] + decimal_spec(p.g as nat) + seq![32u8] + decimal_spec(
        p.b as nat,
    ) + seq![10u8]
}

/// The lines of a list of pixels, one after the other.
pub open spec fn lines_spec(image: Seq<Pixel>) -> Seq<u8>
    decreases image.len(),
{
    if image.len() == 0 {
        Seq::empty()
    } else {
        lines_spec(image.drop_last()) + line_spec(image.last())
    }
}

/// The whole file: the header, then the line of each pixel.
pub open spec fn text_spec(width: u32, height: u32, image: Seq<Pixel>) -> Seq<u8> {
    header_spec(width, height) + lines_spec(image)
}

/// Appends a number in decimal digits.
pub fn push_decimal(out: &mut Vec<u8>, n: u32)
    ensures
        final(out)@ == old(out)@ + decimal_spec(n as nat),
    decreases n,
{
    if n < 10 {
        out.push((48 + n) as u8);
        assert(out@ =~= old(out)@ + decimal_spec(n as nat));
    } else {
        push_decimal(out, n / 10);
        out.push((48 + n % 10) as u8);
        assert(out@ =~= old(out)@ + decimal_spec(n as nat));
    }
}

/// A number in decimal digits.
pub fn decimal(n: u32) -> (r: Vec<u8>)
    ensures
        r@ == decimal_spec(n as nat),
{
    let mut out: Vec<u8> = Vec::new();
    push_decimal(&mut out, n);
    assert(out@ =~= decimal_spec(n as nat));
    out
}

/// Appends the header of an image.
pub fn push_header(out: &mut Vec<u8>, width: u32, height: u32)
    ensures
        final(out)@ == old(out)@ + header_spec(width, height),
{
    out.push(80u8);
    out.push(51u8);
    out.push(10u8);
    push_decimal(out, width);
    out.push(32u8);
    push_decimal(out, height);
    out.push(10u8);
    out.push(50u8);
    out.push(53u8);
    out.push(53u8);
    out.push(10u8);
    assert(out@ =~= old(out)@ + header_spec(width, height));
}

/// The header of an image.
pub fn header(width: u32, height: u32) -> (r: Vec<u8>)
    ensures
        r@ == header_spec(width, height),
{
    let mut out: Vec<u8> = Vec::new();
    push_header(&mut out, width, height);
    assert(out@ =~= header_spec(width, height));
    out
}

/// Appends the line of one pixel.
pub fn push_pixel_line(out: &mut Vec<u8>, p: Pixel)
    ensures
        final(out)@ == old(out)@ + line_spec(p),
{
    push_decimal(out, p.r as u32);
    out.push(32u8);
    push_decimal(out, p.g as u32);
    out.push(32u8);
    push_decimal(out, p.b as u32);
    out.push(10u8);
    assert(out@ =~= old(out)@ + line_spec(p));
}

/// The line of one pixel.
pub fn pixel_line(p: Pixel) -> (r: Vec<u8>)
    ensures
        r@ == line_spec(p),
{
    let mut out: Vec<u8> = Vec::new();
    push_pixel_line(&mut out, p);
    assert(out@ =~= line_spec(p));
    out
}

/// The whole file of an image that is `width` wide and `height` high.
pub fn text(width: u32, height: u32, image: &Vec<Pixel>) -> (r: Vec<u8>)
    ensures
        r@ == text_spec(width, height, image@),
{
    let mut out: Vec<u8> = Vec::new();
    push_header(&mut out, width, height);
    assert(out@ =~= header_spec(width, height));
    let mut n: usize = 0;
    assert(image@.take(0) =~= Seq::<Pixel>::empty());
    while n < image.len()
        invariant
            n <= image.len(),
            out@ == header_spec(width, height) + lines_spec(image@.take(n as int)),
        decreases image.len() - n,
    {
        let ghost before = out@;
        push_pixel_line(&mut out, image[n]);
        proof {
            let next = image@.take(n + 1);
            assert(next.drop_last() =~= image@.take(n as int));
            assert(next.last() == image@[n as int]);
            assert(out@ =~= header_spec(width, height) + lines_spec(next));
        }
        n += 1;
    }
    assert(image@.take(image.len() as int) =~= image@);
    out
}

/// A number below ten takes one digit, and every other number the digits of
/// its tenth and then its last digit; each character is a digit.
pub proof fn lemma_decimal_digits(n: nat)
    ensures
        decimal_spec(n).len() >= 1,
        forall|i: int| 0 <= i < decimal_spec(n).len() ==> 48 <= #[trigger] decimal_spec(n)[i] <= 57,
    decreases n,
{
    if n >= 10 {
        lemma_decimal_digits(n / 10);
    }
}

} // verus!
