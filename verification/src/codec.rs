//! Compact, URL-safe encoding of a [`Key`].
//!
//! The encoding is deterministic and canonical: a one-byte tag selects the
//! transform variant, the numeric parameters follow as fixed-width lowercase
//! hex, and the source path bytes follow with every byte outside a small
//! URL-safe set escaped as `~` plus two hex digits. Decoding accepts exactly
//! the canonical encodings and recovers the key unchanged.

use vstd::prelude::*;
use crate::key::{Key, KeyView, TransformSpec, Resize, Blur};

verus! {

pub const TAG_RESIZE: u8 = 114u8;

pub const TAG_BLUR: u8 = 98u8;

pub const ESCAPE: u8 = 126u8;

/// Lowercase hex digit for a nibble.
pub open spec fn hex_digit(n: u8) -> u8 {
    if n < 10 {
        (48 + n) as u8
    } else {
        (87 + n) as u8
    }
}

/// Nibble value of a lowercase hex digit byte, if it is one.
pub open spec fn nibble_of(c: u8) -> Option<u8> {
    if 48 <= c <= 57 {
        Some((c - 48) as u8)
    } else if 97 <= c <= 102 {
        Some((c - 87) as u8)
    } else {
        None
    }
}

/// Two hex digits for a byte, high nibble first.
pub open spec fn hex2(b: u8) -> Seq<u8> {
    seq![hex_digit(b / 16), hex_digit(b % 16)]
}

/// Eight hex digits for a 32-bit value, most significant byte first.
pub open spec fn hex8(x: u32) -> Seq<u8> {
    hex2((x / 0x1000000) as u8) + hex2(((x / 0x10000) % 0x100) as u8) + hex2(
        ((x / 0x100) % 0x100) as u8,
    ) + hex2((x % 0x100) as u8)
}

/// Bytes that stand for themselves in an encoded key: ASCII letters, digits,
/// `.` and `-`. Everything else is escaped.
pub open spec fn is_safe(b: u8) -> bool {
    (48 <= b <= 57) || (65 <= b <= 90) || (97 <= b <= 122) || b == 46 || b == 45
}

/// Escape of one source byte.
pub open spec fn esc_byte(b: u8) -> Seq<u8> {
    if is_safe(b) {
        seq![b]
    } else {
        seq![ESCAPE] + hex2(b)
    }
}

/// Escape of a whole source path.
pub open spec fn esc(s: Seq<u8>) -> Seq<u8>
    decreases s.len(),
{
    if s.len() == 0 {
        Seq::empty()
    } else {
        esc_byte(s[0]) + esc(s.drop_first())
    }
}

/// The canonical encoding of a key.
pub open spec fn encoded(k: KeyView) -> Seq<u8> {
    match k.transform {
        TransformSpec::Resize(r) => seq![TAG_RESIZE] + hex8(r.width) + hex8(r.height) + hex2(
            r.quality,
        ) + esc(k.src),
        TransformSpec::Blur(b) => seq![TAG_BLUR] + hex8(b.width) + hex8(b.height) + hex8(
            b.svg_width,
        ) + hex8(b.svg_height) + hex2(b.sigma) + esc(k.src),
    }
}

/// Two hex digits back to a byte, if both are lowercase hex.
pub open spec fn parse_hex2(s: Seq<u8>) -> Option<u8> {
    match (nibble_of(s[0]), nibble_of(s[1])) {
        (Some(h), Some(l)) => Some((h * 16 + l) as u8),
        _ => None,
    }
}

/// Eight hex digits back to a 32-bit value, if all are lowercase hex.
pub open spec fn parse_hex8(s: Seq<u8>) -> Option<u32> {
    match (parse_hex2(s.subrange(0, 2)), parse_hex2(s.subrange(2, 4)), parse_hex2(
        s.subrange(4, 6),
    ), parse_hex2(s.subrange(6, 8))) {
        (Some(b3), Some(b2), Some(b1), Some(b0)) => Some(
            (b3 * 0x1000000 + b2 * 0x10000 + b1 * 0x100 + b0) as u32,
        ),
        _ => None,
    }
}

/// Inverse of [`esc`]. Accepts exactly the canonical escapes: an escape
/// sequence only for a byte outside the safe set, lowercase hex only.
pub open spec fn unesc(s: Seq<u8>) -> Option<Seq<u8>>
    decreases s.len(),
{
    if s.len() == 0 {
        Some(Seq::empty())
    } else if s[0] == ESCAPE {
        if s.len() >= 3 {
            match parse_hex2(s.subrange(1, 3)) {
                Some(b) => if !is_safe(b) {
                    match unesc(s.skip(3)) {
                        Some(t) => Some(seq![b] + t),
                        None => None,
                    }
                } else {
                    None
                },
                None => None,
            }
        } else {
            None
        }
    } else if is_safe(s[0]) {
        match unesc(s.drop_first()) {
            Some(t) => Some(seq![s[0]] + t),
            None => None,
        }
    } else {
        None
    }
}

/// The key a byte string decodes to, if it is a canonical encoding.
pub open spec fn spec_decode(s: Seq<u8>) -> Option<KeyView> {
    if s.len() >= 19 && s[0] == TAG_RESIZE {
        match (parse_hex8(s.subrange(1, 9)), parse_hex8(s.subrange(9, 17)), parse_hex2(
            s.subrange(17, 19),
        ), unesc(s.skip(19))) {
            (Some(w), Some(h), Some(q), Some(src)) => Some(
                KeyView {
                    src,
                    transform: TransformSpec::Resize(Resize { width: w, height: h, quality: q }),
                },
            ),
            _ => None,
        }
    } else if s.len() >= 35 && s[0] == TAG_BLUR {
        match (parse_hex8(s.subrange(1, 9)), parse_hex8(s.subrange(9, 17)), parse_hex8(
            s.subrange(17, 25),
        ), parse_hex8(s.subrange(25, 33)), parse_hex2(s.subrange(33, 35)), unesc(s.skip(35))) {
            (Some(w), Some(h), Some(sw), Some(sh), Some(sg), Some(src)) => Some(
                KeyView {
                    src,
                    transform: TransformSpec::Blur(
                        Blur {
                            width: w,
                            height: h,
                            svg_width: sw,
                            svg_height: sh,
                            sigma: sg,
                        },
                    ),
                },
            ),
            _ => None,
        }
    } else {
        None
    }
}

/// Escaping distributes over concatenation.
pub proof fn lemma_esc_append(a: Seq<u8>, b: Seq<u8>)
    ensures
        esc(a + b) == esc(a) + esc(b),
    decreases a.len(),
{
    if a.len() == 0 {
        assert(a + b =~= b);
        assert(esc(a) + esc(b) =~= esc(b));
    } else {
        assert((a + b).drop_first() =~= a.drop_first() + b);
        lemma_esc_append(a.drop_first(), b);
        assert(esc(a + b) =~= esc(a) + esc(b));
    }
}

/// A 32-bit value is recovered from its big-endian base-256 digits.
proof fn lemma_u32_base256(x: u32)
    ensures
        (x / 0x1000000) * 0x1000000 + ((x / 0x10000) % 0x100) * 0x10000 + ((x / 0x100) % 0x100)
            * 0x100 + (x % 0x100) == x,
{
    let xi = x as int;
    vstd::arithmetic::div_mod::lemma_fundamental_div_mod(xi, 0x100);
    vstd::arithmetic::div_mod::lemma_fundamental_div_mod(xi / 0x100, 0x100);
    vstd::arithmetic::div_mod::lemma_fundamental_div_mod(xi / 0x100 / 0x100, 0x100);
    vstd::arithmetic::div_mod::lemma_div_denominator(xi, 0x100, 0x100);
    vstd::arithmetic::div_mod::lemma_div_denominator(xi, 0x10000, 0x100);
    vstd::arithmetic::div_mod::lemma_div_denominator(xi / 0x100, 0x100, 0x100);
}

/// Fixed-width hex round trip for one byte.
proof fn lemma_parse_hex2_of_hex2(b: u8)
    ensures
        parse_hex2(hex2(b)) == Some(b),
{
    assert(nibble_of(hex_digit(b / 16)) == Some((b / 16) as u8));
    assert(nibble_of(hex_digit(b % 16)) == Some((b % 16) as u8));
}

/// Fixed-width hex round trip for a 32-bit value.
proof fn lemma_parse_hex8_of_hex8(x: u32)
    ensures
        parse_hex8(hex8(x)) == Some(x),
{
    let b3 = (x / 0x1000000) as u8;
    let b2 = ((x / 0x10000) % 0x100) as u8;
    let b1 = ((x / 0x100) % 0x100) as u8;
    let b0 = (x % 0x100) as u8;
    assert(hex8(x).subrange(0, 2) =~= hex2(b3));
    assert(hex8(x).subrange(2, 4) =~= hex2(b2));
    assert(hex8(x).subrange(4, 6) =~= hex2(b1));
    assert(hex8(x).subrange(6, 8) =~= hex2(b0));
    lemma_parse_hex2_of_hex2(b3);
    lemma_parse_hex2_of_hex2(b2);
    lemma_parse_hex2_of_hex2(b1);
    lemma_parse_hex2_of_hex2(b0);
    lemma_u32_base256(x);
}

/// Unescaping inverts escaping.
pub proof fn lemma_unesc_esc(s: Seq<u8>)
    ensures
        unesc(esc(s)) == Some(s),
    decreases s.len(),
{
    if s.len() == 0 {
        assert(esc(s) =~= Seq::<u8>::empty());
        assert(unesc(esc(s)) == Some(Seq::<u8>::empty()));
        assert(Seq::<u8>::empty() =~= s);
    } else {
        let b = s[0];
        let rest = s.drop_first();
        lemma_unesc_esc(rest);
        if is_safe(b) {
            assert(esc(s)[0] == b);
            assert(esc(s).drop_first() =~= esc(rest));
            assert(unesc(esc(s)) == Some(seq![b] + rest));
            assert(seq![b] + rest =~= s);
        } else {
            assert(esc(s).len() >= 3);
            assert(esc(s)[0] == ESCAPE);
            assert(esc(s).subrange(1, 3) =~= hex2(b));
            lemma_parse_hex2_of_hex2(b);
            assert(esc(s).skip(3) =~= esc(rest));
            assert(unesc(esc(s)) == Some(seq![b] + rest));
            assert(seq![b] + rest =~= s);
        }
    }
}

/// Unescaping is canonical: a successful unescape re-escapes to its input.
pub proof fn lemma_unesc_canonical(s: Seq<u8>, t: Seq<u8>)
    requires
        unesc(s) == Some(t),
    ensures
        esc(t) == s,
    decreases s.len(),
{
    if s.len() == 0 {
        assert(t =~= Seq::<u8>::empty());
        assert(esc(t) =~= s);
    } else if s[0] == ESCAPE {
        let b = parse_hex2(s.subrange(1, 3)).unwrap();
        let u = unesc(s.skip(3)).unwrap();
        lemma_unesc_canonical(s.skip(3), u);
        assert(t == seq![b] + u);
        assert(t.len() > 0 && t[0] == b);
        assert(t.drop_first() =~= u);
        lemma_hex2_of_parse(s.subrange(1, 3));
        assert(esc_byte(b) =~= seq![ESCAPE] + s.subrange(1, 3));
        lemma_esc_of_cons(b, u);
        assert(esc(t) =~= s);
    } else {
        let u = unesc(s.drop_first()).unwrap();
        lemma_unesc_canonical(s.drop_first(), u);
        assert(t == seq![s[0]] + u);
        assert(t.drop_first() =~= u);
        lemma_esc_of_cons(s[0], u);
        assert(esc(t) =~= s);
    }
}

/// Unfolds [`esc`] on a nonempty sequence built by cons.
proof fn lemma_esc_of_cons(b: u8, rest: Seq<u8>)
    ensures
        esc(seq![b] + rest) == esc_byte(b) + esc(rest),
{
    assert((seq![b] + rest).len() > 0);
    assert((seq![b] + rest)[0] == b);
    assert((seq![b] + rest).drop_first() =~= rest);
}

/// A successful two-digit parse re-prints to its input.
proof fn lemma_hex2_of_parse(s: Seq<u8>)
    requires
        s.len() == 2,
        parse_hex2(s) is Some,
    ensures
        hex2(parse_hex2(s).unwrap()) == s,
{
    let h = nibble_of(s[0]).unwrap();
    let l = nibble_of(s[1]).unwrap();
    let b = parse_hex2(s).unwrap();
    assert(b == h * 16 + l);
    assert(b / 16 == h && b % 16 == l);
    assert(hex_digit(h) == s[0]);
    assert(hex_digit(l) == s[1]);
    assert(hex2(b) =~= s);
}

/// Round trip for a resize key.
#[verifier::rlimit(100)]
#[verifier::spinoff_prover]
proof fn lemma_decode_encoded_resize(k: KeyView)
    requires
        k.transform is Resize,
    ensures
        spec_decode(encoded(k)) == Some(k),
{
    let s = encoded(k);
    let r = k.transform->Resize_0;
    lemma_unesc_esc(k.src);
    assert(s.len() >= 19 && s[0] == TAG_RESIZE);
    assert(s.subrange(1, 9) =~= hex8(r.width)) by {
        assert(hex8(r.width).len() == 8);
    }
    assert(s.subrange(9, 17) =~= hex8(r.height));
    assert(s.subrange(17, 19) =~= hex2(r.quality));
    assert(s.skip(19) =~= esc(k.src));
    lemma_parse_hex8_of_hex8(r.width);
    lemma_parse_hex8_of_hex8(r.height);
    lemma_parse_hex2_of_hex2(r.quality);
    assert(spec_decode(s).unwrap() =~= k);
}

/// Round trip for a blur key.
#[verifier::rlimit(100)]
#[verifier::spinoff_prover]
proof fn lemma_decode_encoded_blur(k: KeyView)
    requires
        k.transform is Blur,
    ensures
        spec_decode(encoded(k)) == Some(k),
{
    let s = encoded(k);
    let b = k.transform->Blur_0;
    lemma_unesc_esc(k.src);
    assert(s.len() >= 35 && s[0] == TAG_BLUR);
    assert(s[0] != TAG_RESIZE);
    assert(s.subrange(1, 9) =~= hex8(b.width)) by {
        assert(hex8(b.width).len() == 8);
    }
    assert(s.subrange(9, 17) =~= hex8(b.height));
    assert(s.subrange(17, 25) =~= hex8(b.svg_width));
    assert(s.subrange(25, 33) =~= hex8(b.svg_height));
    assert(s.subrange(33, 35) =~= hex2(b.sigma));
    assert(s.skip(35) =~= esc(k.src));
    lemma_parse_hex8_of_hex8(b.width);
    lemma_parse_hex8_of_hex8(b.height);
    lemma_parse_hex8_of_hex8(b.svg_width);
    lemma_parse_hex8_of_hex8(b.svg_height);
    lemma_parse_hex2_of_hex2(b.sigma);
    assert(spec_decode(s).unwrap() =~= k);
}

/// Round trip: every key decodes from its own encoding.
pub proof fn lemma_decode_encoded(k: KeyView)
    ensures
        spec_decode(encoded(k)) == Some(k),
{
    match k.transform {
        TransformSpec::Resize(_) => lemma_decode_encoded_resize(k),
        TransformSpec::Blur(_) => lemma_decode_encoded_blur(k),
    }
}

/// A successful eight-digit parse re-prints to its input.
proof fn lemma_hex8_of_parse(s: Seq<u8>)
    requires
        s.len() == 8,
        parse_hex8(s) is Some,
    ensures
        hex8(parse_hex8(s).unwrap()) == s,
{
    let b3 = parse_hex2(s.subrange(0, 2)).unwrap();
    let b2 = parse_hex2(s.subrange(2, 4)).unwrap();
    let b1 = parse_hex2(s.subrange(4, 6)).unwrap();
    let b0 = parse_hex2(s.subrange(6, 8)).unwrap();
    let x = parse_hex8(s).unwrap();
    assert(x == b3 * 0x1000000 + b2 * 0x10000 + b1 * 0x100 + b0);
    let xi = x as int;
    assert(xi / 0x1000000 == b3) by {
        vstd::arithmetic::div_mod::lemma_fundamental_div_mod_converse(
            xi,
            0x1000000,
            b3 as int,
            b2 * 0x10000 + b1 * 0x100 + b0,
        );
    }
    assert(xi / 0x10000 == b3 * 0x100 + b2) by {
        vstd::arithmetic::div_mod::lemma_fundamental_div_mod_converse(
            xi,
            0x10000,
            b3 * 0x100 + b2,
            b1 * 0x100 + b0,
        );
        assert((b3 * 0x100 + b2) * 0x10000 == b3 * 0x1000000 + b2 * 0x10000) by (nonlinear_arith);
    }
    assert((xi / 0x10000) % 0x100 == b2) by {
        vstd::arithmetic::div_mod::lemma_fundamental_div_mod_converse(
            b3 * 0x100 + b2,
            0x100,
            b3 as int,
            b2 as int,
        );
    }
    assert(xi / 0x100 == (b3 * 0x10000 + b2 * 0x100 + b1)) by {
        vstd::arithmetic::div_mod::lemma_fundamental_div_mod_converse(
            xi,
            0x100,
            b3 * 0x10000 + b2 * 0x100 + b1,
            b0 as int,
        );
        assert((b3 * 0x10000 + b2 * 0x100 + b1) * 0x100 == b3 * 0x1000000 + b2 * 0x10000 + b1
            * 0x100) by (nonlinear_arith);
    }
    assert((xi / 0x100) % 0x100 == b1) by {
        vstd::arithmetic::div_mod::lemma_fundamental_div_mod_converse(
            b3 * 0x10000 + b2 * 0x100 + b1,
            0x100,
            b3 * 0x100 + b2,
            b1 as int,
        );
        assert((b3 * 0x100 + b2) * 0x100 == b3 * 0x10000 + b2 * 0x100) by (nonlinear_arith);
    }
    assert(xi % 0x100 == b0) by {
        vstd::arithmetic::div_mod::lemma_fundamental_div_mod_converse(
            xi,
            0x100,
            b3 * 0x10000 + b2 * 0x100 + b1,
            b0 as int,
        );
        assert((b3 * 0x10000 + b2 * 0x100 + b1) * 0x100 == b3 * 0x1000000 + b2 * 0x10000 + b1
            * 0x100) by (nonlinear_arith);
    }
    lemma_hex2_of_parse(s.subrange(0, 2));
    lemma_hex2_of_parse(s.subrange(2, 4));
    lemma_hex2_of_parse(s.subrange(4, 6));
    lemma_hex2_of_parse(s.subrange(6, 8));
    assert(hex8(x) =~= s);
}

/// Decoding is canonical: whatever decodes re-encodes to the very same
/// bytes, so each key has exactly one accepted encoding.
#[verifier::rlimit(100)]
#[verifier::spinoff_prover]
pub proof fn lemma_encoded_of_decoded(s: Seq<u8>)
    requires
        spec_decode(s) is Some,
    ensures
        encoded(spec_decode(s).unwrap()) == s,
{
    let k = spec_decode(s).unwrap();
    if s.len() >= 19 && s[0] == TAG_RESIZE {
        let src = unesc(s.skip(19)).unwrap();
        lemma_hex8_of_parse(s.subrange(1, 9));
        lemma_hex8_of_parse(s.subrange(9, 17));
        lemma_hex2_of_parse(s.subrange(17, 19));
        lemma_unesc_canonical(s.skip(19), src);
        assert(encoded(k) =~= s);
    } else {
        let src = unesc(s.skip(35)).unwrap();
        lemma_hex8_of_parse(s.subrange(1, 9));
        lemma_hex8_of_parse(s.subrange(9, 17));
        lemma_hex8_of_parse(s.subrange(17, 25));
        lemma_hex8_of_parse(s.subrange(25, 33));
        lemma_hex2_of_parse(s.subrange(33, 35));
        lemma_unesc_canonical(s.skip(35), src);
        assert(encoded(k) =~= s);
    }
}

/// The encoding is injective: distinct keys never collide.
pub proof fn lemma_encoded_injective(k1: KeyView, k2: KeyView)
    requires
        encoded(k1) == encoded(k2),
    ensures
        k1 == k2,
{
    lemma_decode_encoded(k1);
    lemma_decode_encoded(k2);
}

fn hex_digit_exec(n: u8) -> (r: u8)
    requires
        n < 16,
    ensures
        r == hex_digit(n),
{
    if n < 10 {
        48 + n
    } else {
        87 + n
    }
}

fn is_safe_exec(b: u8) -> (r: bool)
    ensures
        r == is_safe(b),
{
    (48 <= b && b <= 57) || (65 <= b && b <= 90) || (97 <= b && b <= 122) || b == 46 || b == 45
}

fn push_hex2(out: &mut Vec<u8>, b: u8)
    ensures
        final(out)@ == old(out)@ + hex2(b),
{
    out.push(hex_digit_exec(b / 16));
    out.push(hex_digit_exec(b % 16));
    proof {
        assert(out@ =~= old(out)@ + hex2(b));
    }
}

fn push_hex8(out: &mut Vec<u8>, x: u32)
    ensures
        final(out)@ == old(out)@ + hex8(x),
{
    push_hex2(out, (x / 0x1000000) as u8);
    push_hex2(out, ((x / 0x10000) % 0x100) as u8);
    push_hex2(out, ((x / 0x100) % 0x100) as u8);
    push_hex2(out, (x % 0x100) as u8);
    proof {
        assert(out@ =~= old(out)@ + hex8(x));
    }
}

fn push_escaped(out: &mut Vec<u8>, src: &Vec<u8>)
    ensures
        final(out)@ == old(out)@ + esc(src@),
{
    let n = src.len();
    let mut i: usize = 0;
    while i < n
        invariant
            n == src.len(),
            i <= n,
            out@ == old(out)@ + esc(src@.take(i as int)),
        decreases n - i,
    {
        let b = src[i];
        if is_safe_exec(b) {
            out.push(b);
        } else {
            out.push(ESCAPE);
            push_hex2(out, b);
        }
        proof {
            lemma_esc_append(src@.take(i as int), seq![b]);
            assert(src@.take(i + 1) =~= src@.take(i as int) + seq![b]);
            assert((seq![b]).drop_first() =~= Seq::<u8>::empty());
            assert(esc((seq![b]).drop_first()) =~= Seq::<u8>::empty());
            assert(esc(seq![b]) =~= esc_byte(b));
            assert(out@ =~= old(out)@ + esc(src@.take(i + 1)));
        }
        i += 1;
    }
    proof {
        assert(src@.take(n as int) =~= src@);
    }
}

/// Produces the canonical, URL-safe encoding of a key.
pub fn encode_key(k: &Key) -> (r: Vec<u8>)
    ensures
        r@ == encoded(k@),
{
    let mut out: Vec<u8> = Vec::new();
    match &k.transform {
        TransformSpec::Resize(rz) => {
            out.push(TAG_RESIZE);
            push_hex8(&mut out, rz.width);
            push_hex8(&mut out, rz.height);
            push_hex2(&mut out, rz.quality);
            push_escaped(&mut out, &k.src);
            proof {
                assert(out@ =~= encoded(k@));
            }
        },
        TransformSpec::Blur(b) => {
            out.push(TAG_BLUR);
            push_hex8(&mut out, b.width);
            push_hex8(&mut out, b.height);
            push_hex8(&mut out, b.svg_width);
            push_hex8(&mut out, b.svg_height);
            push_hex2(&mut out, b.sigma);
            push_escaped(&mut out, &k.src);
            proof {
                assert(out@ =~= encoded(k@));
            }
        },
    }
    out
}

fn nibble_of_exec(c: u8) -> (r: Option<u8>)
    ensures
        r == nibble_of(c),
{
    if 48 <= c && c <= 57 {
        Some(c - 48)
    } else if 97 <= c && c <= 102 {
        Some(c - 87)
    } else {
        None
    }
}

fn parse_hex2_at(s: &Vec<u8>, i: usize) -> (r: Option<u8>)
    requires
        i + 2 <= s.len(),
    ensures
        r == parse_hex2(s@.subrange(i as int, i + 2)),
{
    let ghost sub = s@.subrange(i as int, i + 2);
    proof {
        assert(sub[0] == s@[i as int] && sub[1] == s@[i + 1]);
    }
    match (nibble_of_exec(s[i]), nibble_of_exec(s[i + 1])) {
        (Some(h), Some(l)) => Some(h * 16 + l),
        _ => None,
    }
}

fn parse_hex8_at(s: &Vec<u8>, i: usize) -> (r: Option<u32>)
    requires
        i + 8 <= s.len(),
    ensures
        r == parse_hex8(s@.subrange(i as int, i + 8)),
{
    let ghost sub = s@.subrange(i as int, i + 8);
    proof {
        assert(sub.subrange(0, 2) =~= s@.subrange(i as int, i + 2));
        assert(sub.subrange(2, 4) =~= s@.subrange(i + 2, i + 4));
        assert(sub.subrange(4, 6) =~= s@.subrange(i + 4, i + 6));
        assert(sub.subrange(6, 8) =~= s@.subrange(i + 6, i + 8));
    }
    let r3 = parse_hex2_at(s, i);
    let r2 = parse_hex2_at(s, i + 2);
    let r1 = parse_hex2_at(s, i + 4);
    let r0 = parse_hex2_at(s, i + 6);
    match (r3, r2, r1, r0) {
        (Some(b3), Some(b2), Some(b1), Some(b0)) => Some(
            (b3 as u32) * 0x1000000 + (b2 as u32) * 0x10000 + (b1 as u32) * 0x100 + (b0 as u32),
        ),
        _ => None,
    }
}

/// How an option of a tail composes with an already-unescaped prefix.
spec fn opt_prepend(p: Seq<u8>, o: Option<Seq<u8>>) -> Option<Seq<u8>> {
    match o {
        Some(t) => Some(p + t),
        None => None,
    }
}

fn unescape_from(s: &Vec<u8>, from: usize) -> (r: Option<Vec<u8>>)
    requires
        from <= s.len(),
    ensures
        match r {
            Some(v) => unesc(s@.skip(from as int)) == Some(v@),
            None => unesc(s@.skip(from as int)) is None,
        },
{
    let n = s.len();
    let mut out: Vec<u8> = Vec::new();
    let mut j: usize = from;
    while j < n
        invariant
            from <= j <= n,
            n == s.len(),
            unesc(s@.skip(from as int)) == opt_prepend(out@, unesc(s@.skip(j as int))),
        decreases n - j,
    {
        let ghost pre = out@;
        let b = s[j];
        if b == ESCAPE {
            if n - j < 3 {
                proof {
                    assert(s@.skip(j as int).len() < 3);
                    assert(s@.skip(j as int)[0] == ESCAPE);
                }
                return None;
            }
            let parsed = parse_hex2_at(s, j + 1);
            proof {
                assert(s@.skip(j as int).subrange(1, 3) =~= s@.subrange(j + 1, j + 3));
            }
            match parsed {
                Some(v) => {
                    if is_safe_exec(v) {
                        return None;
                    }
                    out.push(v);
                    proof {
                        assert(s@.skip(j as int).skip(3) =~= s@.skip(j + 3));
                        assert(unesc(s@.skip(j as int)) == opt_prepend(
                            seq![v],
                            unesc(s@.skip(j + 3)),
                        ));
                        assert(out@ =~= pre + seq![v]);
                        assert forall|t: Seq<u8>| true implies pre + (seq![v] + t) =~= out@
                            + t by {}
                        assert(opt_prepend(pre, opt_prepend(seq![v], unesc(s@.skip(j + 3))))
                            == opt_prepend(out@, unesc(s@.skip(j + 3))));
                    }
                    j += 3;
                },
                None => {
                    return None;
                },
            }
        } else if is_safe_exec(b) {
            out.push(b);
            proof {
                assert(s@.skip(j as int)[0] == b);
                assert(s@.skip(j as int).drop_first() =~= s@.skip(j + 1));
                assert(unesc(s@.skip(j as int)) == opt_prepend(seq![b], unesc(s@.skip(j + 1))));
                assert(out@ =~= pre + seq![b]);
                assert forall|t: Seq<u8>| true implies pre + (seq![b] + t) =~= out@ + t by {}
                assert(opt_prepend(pre, opt_prepend(seq![b], unesc(s@.skip(j + 1)))) == opt_prepend(
                    out@,
                    unesc(s@.skip(j + 1)),
                ));
            }
            j += 1;
        } else {
            proof {
                assert(s@.skip(j as int)[0] == b);
            }
            return None;
        }
    }
    proof {
        assert(s@.skip(n as int) =~= Seq::<u8>::empty());
        assert(unesc(s@.skip(from as int)) == Some(out@ + Seq::<u8>::empty()));
        assert(out@ + Seq::<u8>::empty() =~= out@);
    }
    Some(out)
}

/// Decodes a canonical encoding back into its key; yields `None` on any
/// malformed input.
pub fn decode_key(s: &Vec<u8>) -> (r: Option<Key>)
    ensures
        match r {
            Some(k) => spec_decode(s@) == Some(k@),
            None => spec_decode(s@) is None,
        },
{
    if s.len() >= 19 && s[0] == TAG_RESIZE {
        let w = parse_hex8_at(s, 1);
        let h = parse_hex8_at(s, 9);
        let q = parse_hex2_at(s, 17);
        let src = unescape_from(s, 19);
        proof {
            assert(s@.skip(19) =~= s@.skip(19));
        }
        match (w, h, q, src) {
            (Some(w), Some(h), Some(q), Some(src)) => {
                let k = Key {
                    src,
                    transform: TransformSpec::Resize(
                        Resize { width: w, height: h, quality: q },
                    ),
                };
                proof {
                    assert(spec_decode(s@).unwrap() =~= k@);
                }
                Some(k)
            },
            _ => None,
        }
    } else if s.len() >= 35 && s[0] == TAG_BLUR {
        let w = parse_hex8_at(s, 1);
        let h = parse_hex8_at(s, 9);
        let sw = parse_hex8_at(s, 17);
        let sh = parse_hex8_at(s, 25);
        let sg = parse_hex2_at(s, 33);
        let src = unescape_from(s, 35);
        match (w, h, sw, sh, sg, src) {
            (Some(w), Some(h), Some(sw), Some(sh), Some(sg), Some(src)) => {
                let k = Key {
                    src,
                    transform: TransformSpec::Blur(
                        Blur {
                            width: w,
                            height: h,
                            svg_width: sw,
                            svg_height: sh,
                            sigma: sg,
                        },
                    ),
                };
                proof {
                    assert(spec_decode(s@).unwrap() =~= k@);
                }
                Some(k)
            },
            _ => None,
        }
    } else {
        None
    }
}

} // verus!
