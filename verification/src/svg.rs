//! The vector placeholder document: a small raster embedded as base64 inside
//! blurred vector markup sized to the requested display box.

use vstd::prelude::*;
use vstd::string::StringExecFns;

verus! {

/// Decimal digit for one value `0 ..= 9`.
pub open spec fn dec_digit(n: int) -> char {
    if n == 0 {
        '0'
    } else if n == 1 {
        '1'
    } else if n == 2 {
        '2'
    } else if n == 3 {
        '3'
    } else if n == 4 {
        '4'
    } else if n == 5 {
        '5'
    } else if n == 6 {
        '6'
    } else if n == 7 {
        '7'
    } else if n == 8 {
        '8'
    } else {
        '9'
    }
}

/// Decimal rendering of a nonnegative number, no leading zeros.
pub open spec fn dec_nat(n: int) -> Seq<char>
    decreases n,
{
    if n < 10 {
        seq![dec_digit(n)]
    } else {
        dec_nat(n / 10) + seq![dec_digit(n % 10)]
    }
}

/// The whole placeholder document over its parameters. The markup embeds the
/// raster as a base64 data reference and blurs it by `sigma`.
pub open spec fn svg_doc(svg_w: u32, svg_h: u32, sigma: u8, b64: Seq<char>) -> Seq<char> {
    "<svg xmlns=\"http://www.w3.org/2000/svg\" viewBox=\"0 0 "@ + dec_nat(svg_w as int) + " "@
        + dec_nat(svg_h as int) + "\"><filter id=\"b\"><feGaussianBlur stdDeviation=\""@ + dec_nat(
        sigma as int,
    ) + "\"/></filter><image filter=\"url(#b)\" width=\"100%\" height=\"100%\" href=\"data:image/png;base64,"@
        + b64 + "\"/></svg>"@
}

/// Relies on `String::push`: appends exactly the one character.
#[verifier::external_body]
fn push_char(s: &mut String, c: char)
    ensures
        final(s)@ == old(s)@.push(c),
{
    s.push(c);
}

fn push_dec_digit(s: &mut String, n: u32)
    requires
        n < 10,
    ensures
        final(s)@ == old(s)@ + seq![dec_digit(n as int)],
{
    let c = match n {
        0u32 => '0',
        1u32 => '1',
        2u32 => '2',
        3u32 => '3',
        4u32 => '4',
        5u32 => '5',
        6u32 => '6',
        7u32 => '7',
        _ => '9',
    };
    let c = if n == 8 {
        '8'
    } else {
        c
    };
    push_char(s, c);
    proof {
        assert(s@ =~= old(s)@ + seq![dec_digit(n as int)]);
    }
}

fn push_dec_u32(s: &mut String, x: u32)
    ensures
        final(s)@ == old(s)@ + dec_nat(x as int),
    decreases x,
{
    if x < 10 {
        push_dec_digit(s, x);
    } else {
        push_dec_u32(s, x / 10);
        push_dec_digit(s, x % 10);
        proof {
            assert(s@ =~= old(s)@ + dec_nat(x as int));
        }
    }
}

/// Renders a number in decimal.
pub fn dec_u32(x: u32) -> (s: String)
    ensures
        s@ == dec_nat(x as int),
{
    let mut s = String::new();
    push_dec_u32(&mut s, x);
    proof {
        assert(Seq::<char>::empty() + dec_nat(x as int) =~= dec_nat(x as int));
    }
    s
}

/// Builds the placeholder document around an already base64-encoded raster.
pub fn build_svg(svg_w: u32, svg_h: u32, sigma: u8, b64: &str) -> (s: String)
    ensures
        s@ == svg_doc(svg_w, svg_h, sigma, b64@),
{
    let mut s = String::new();
    s.append("<svg xmlns=\"http://www.w3.org/2000/svg\" viewBox=\"0 0 ");
    push_dec_u32(&mut s, svg_w);
    s.append(" ");
    push_dec_u32(&mut s, svg_h);
    s.append("\"><filter id=\"b\"><feGaussianBlur stdDeviation=\"");
    push_dec_u32(&mut s, sigma as u32);
    s.append("\"/></filter><image filter=\"url(#b)\" width=\"100%\" height=\"100%\" href=\"data:image/png;base64,");
    s.append(b64);
    s.append("\"/></svg>");
    proof {
        assert(s@ =~= svg_doc(svg_w, svg_h, sigma, b64@));
    }
    s
}

} // verus!
