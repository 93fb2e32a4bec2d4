//! Pure helpers for the rendering collaborator: the keys an image element
//! needs, the request URL for a key, and the inline background style built
//! from a placeholder document. The markup itself is the collaborator's
//! business; everything it computes from engine data is here.

use vstd::prelude::*;
use vstd::string::{StringExecFns, StrSliceExecFns};
use crate::codec::{encode_key, encoded};
use crate::key::{Blur, Key, Resize, TransformSpec};
use crate::transform::{base64_encode, base64_of};

verus! {

/// The fixed placeholder transform a blurred image element uses: a tiny
/// thumbnail stretched over a 100 x 100 viewport with a heavy blur.
pub fn blur_placeholder_key(src: Vec<u8>) -> (r: Key)
    ensures
        r@.src == src@,
        r@.transform == TransformSpec::Blur(
            Blur { width: 20, height: 20, svg_width: 100, svg_height: 100, sigma: 15 },
        ),
{
    Key {
        src,
        transform: TransformSpec::Blur(
            Blur { width: 20, height: 20, svg_width: 100, svg_height: 100, sigma: 15 },
        ),
    }
}

/// The key for the optimized raster an image element displays.
pub fn resize_key(src: Vec<u8>, width: u32, height: u32, quality: u8) -> (r: Key)
    ensures
        r@.src == src@,
        r@.transform == TransformSpec::Resize(Resize { width, height, quality }),
{
    Key { src, transform: TransformSpec::Resize(Resize { width, height, quality }) }
}

/// The URL a key is requested under: the handler path prefix, a slash, and
/// the canonical encoding.
pub fn url_for(handler_path: &Vec<u8>, k: &Key) -> (r: Vec<u8>)
    ensures
        r@ == handler_path@ + seq![47u8] + encoded(k@),
{
    let mut r: Vec<u8> = Vec::new();
    let mut i: usize = 0;
    let n = handler_path.len();
    while i < n
        invariant
            n == handler_path.len(),
            i <= n,
            r@ == handler_path@.take(i as int),
        decreases n - i,
    {
        r.push(handler_path[i]);
        proof {
            assert(r@ =~= handler_path@.take(i + 1));
        }
        i += 1;
    }
    r.push(47);
    let mut enc = encode_key(k);
    r.append(&mut enc);
    proof {
        assert(handler_path@.take(n as int) =~= handler_path@);
        assert(r@ =~= handler_path@ + seq![47u8] + encoded(k@));
    }
    r
}

/// The background style an image element carries while the full image
/// loads, around an already base64-encoded placeholder document.
pub open spec fn inline_style(b64: Seq<char>) -> Seq<char> {
    "color:transparent;background-size:cover;background-position:50% 50%;background-repeat:no-repeat;background-image:url('data:image/svg+xml;base64,"@
        + b64 + "');"@
}

/// Builds [`inline_style`] for a placeholder document, embedding it as a
/// base64 data reference.
pub fn inline_style_for(svg_text: &str) -> (r: String)
    ensures
        r@ == inline_style(base64_of(vstd::utf8::encode_utf8(svg_text@))),
{
    let bytes = svg_text.as_bytes_vec();
    let b64 = base64_encode(&bytes);
    let mut r = String::new();
    r.append(
        "color:transparent;background-size:cover;background-position:50% 50%;background-repeat:no-repeat;background-image:url('data:image/svg+xml;base64,",
    );
    r.append(b64.as_str());
    r.append("');");
    proof {
        assert(r@ =~= inline_style(base64_of(vstd::utf8::encode_utf8(svg_text@))));
    }
    r
}

} // verus!
