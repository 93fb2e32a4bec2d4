//! The transform engine: (source bytes, transform) to (output bytes, content
//! type), deterministic, validated before any decode is attempted.

use vstd::prelude::*;
use vstd::arithmetic::div_mod::{
    lemma_div_is_ordered,
    lemma_fundamental_div_mod,
    lemma_fundamental_div_mod_converse,
};
use vstd::arithmetic::mul::lemma_mul_inequality;
use vstd::string::StrSliceExecFns;
use crate::artifact::{Artifact, ArtifactView, ContentType};
use crate::error::EngineError;
use crate::key::{TransformSpec, spec_valid, validate};
use crate::svg::{build_svg, svg_doc};

verus! {

/// The dimensions that fit `sw x sh` into the box `bw x bh` while keeping
/// the source aspect ratio; each edge at least one pixel.
pub open spec fn fit_dims(sw: int, sh: int, bw: int, bh: int) -> (int, int)
    recommends
        sw > 0,
        sh > 0,
        bw > 0,
        bh > 0,
{
    let h1 = bw * sh / sw;
    if h1 <= bh {
        (bw, if h1 < 1 {
            1
        } else {
            h1
        })
    } else {
        let w1 = bh * sw / sh;
        (
            if w1 < 1 {
                1
            } else {
                w1
            },
            bh,
        )
    }
}

/// Computes [`fit_dims`]; the result fits within the requested box.
pub fn fit_within(sw: u32, sh: u32, bw: u32, bh: u32) -> (r: (u32, u32))
    requires
        sw >= 1,
        sh >= 1,
        bw >= 1,
        bh >= 1,
    ensures
        (r.0 as int, r.1 as int) == fit_dims(sw as int, sh as int, bw as int, bh as int),
        1 <= r.0 <= bw,
        1 <= r.1 <= bh,
{
    let swl = sw as u64;
    let shl = sh as u64;
    let bwl = bw as u64;
    let bhl = bh as u64;
    proof {
        assert(bwl * shl < 0x10000000000000000 && bhl * swl < 0x10000000000000000)
            by (nonlinear_arith)
            requires bwl < 0x100000000 && shl < 0x100000000 && bhl < 0x100000000 && swl
                < 0x100000000,
        ;
    }
    let h1 = bwl * shl / swl;
    if h1 <= bhl {
        let h = if h1 < 1 {
            1u64
        } else {
            h1
        };
        (bw, h as u32)
    } else {
        let w1 = bhl * swl / shl;
        proof {
            lemma_fit_width_bounded(sw as int, sh as int, bw as int, bh as int);
        }
        let w = if w1 < 1 {
            1u64
        } else {
            w1
        };
        (w as u32, bh)
    }
}

/// When the height overflows the box, the width scaled to the box height
/// stays strictly inside the box width.
proof fn lemma_fit_width_bounded(sw: int, sh: int, bw: int, bh: int)
    requires
        sw > 0,
        sh > 0,
        bw > 0,
        bh > 0,
        bw * sh / sw > bh,
    ensures
        bh * sw / sh < bw,
{
    let h1 = bw * sh / sw;
    lemma_fundamental_div_mod(bw * sh, sw);
    assert(bw * sh == sw * h1 + (bw * sh) % sw);
    assert(0 <= (bw * sh) % sw);
    lemma_mul_inequality(bh + 1, h1, sw);
    assert(sw * (bh + 1) <= sw * h1) by {
        assert((bh + 1) * sw == sw * (bh + 1)) by (nonlinear_arith);
        assert(h1 * sw == sw * h1) by (nonlinear_arith);
    }
    assert(sw * (bh + 1) == sw * bh + sw) by (nonlinear_arith);
    assert(bh * sw == sw * bh) by (nonlinear_arith);
    assert(bh * sw <= bw * sh - sw);
    lemma_div_is_ordered(bh * sw, bw * sh - 1, sh);
    assert((bw * sh - 1) / sh == bw - 1) by {
        assert(bw * sh - 1 == (bw - 1) * sh + (sh - 1)) by (nonlinear_arith);
        lemma_fundamental_div_mod_converse(bw * sh - 1, sh, bw - 1, sh - 1);
    }
}

/// What an outside decoder reads from a raster: its pixel dimensions, a
/// function of the bytes alone; `None` when the bytes are not a supported
/// raster format.
pub uninterp spec fn raster_dims(s: Seq<u8>) -> Option<(u32, u32)>;

/// The re-encoded raster an outside codec produces for a bounded resize:
/// a function of the source bytes, the exact output dimensions and the
/// encoding quality alone; `None` when decoding or encoding fails.
pub uninterp spec fn resized_jpeg(s: Seq<u8>, w: u32, h: u32, q: u8) -> Option<Seq<u8>>;

/// The small raster an outside codec produces for a blur placeholder: a
/// function of the source bytes and the thumbnail dimensions alone.
pub uninterp spec fn thumb_png(s: Seq<u8>, w: u32, h: u32) -> Option<Seq<u8>>;

/// The standard base64 rendering of a byte string.
pub uninterp spec fn base64_of(s: Seq<u8>) -> Seq<char>;

/// Relies on `image::load_from_memory` and `GenericImageView::dimensions`:
/// decoding is deterministic in the bytes, and a decoded raster's dimensions
/// are a function of those bytes alone.
#[verifier::external_body]
fn probe_dims(bytes: &Vec<u8>) -> (r: Option<(u32, u32)>)
    ensures
        r == raster_dims(bytes@),
{
    match image::load_from_memory(bytes.as_slice()) {
        Ok(img) => Some(image::GenericImageView::dimensions(&img)),
        Err(_) => None,
    }
}

/// Relies on `image::load_from_memory`, `DynamicImage::resize_exact` and
/// `image::codecs::jpeg::JpegEncoder::new_with_quality`: the output is a
/// function of the source bytes and parameters alone; a load failure is a
/// decode failure, any later failure an encode failure.
#[verifier::external_body]
fn render_resized_jpeg(bytes: &Vec<u8>, w: u32, h: u32, quality: u8) -> (r: Result<Vec<u8>, EngineError>)
    requires
        w >= 1,
        h >= 1,
    ensures
        r is Ok <==> resized_jpeg(bytes@, w, h, quality) is Some,
        r is Ok ==> r->Ok_0@ == resized_jpeg(bytes@, w, h, quality)->Some_0,
        r is Err ==> r->Err_0 == (if raster_dims(bytes@) is None {
            EngineError::DecodeError
        } else {
            EngineError::EncodeError
        }),
{
    let img = match image::load_from_memory(bytes.as_slice()) {
        Ok(img) => img,
        Err(_) => return Err(EngineError::DecodeError),
    };
    let resized = img.resize_exact(w, h, image::imageops::FilterType::Lanczos3);
    let mut cursor = std::io::Cursor::new(Vec::new());
    let encoder = image::codecs::jpeg::JpegEncoder::new_with_quality(&mut cursor, quality);
    match resized.write_with_encoder(encoder) {
        Ok(()) => Ok(cursor.into_inner()),
        Err(_) => Err(EngineError::EncodeError),
    }
}

/// Relies on `image::load_from_memory`, `DynamicImage::resize_exact` and
/// `DynamicImage::write_to` with the PNG format: the thumbnail is a function
/// of the source bytes and dimensions alone; a load failure is a decode
/// failure, any later failure an encode failure.
#[verifier::external_body]
fn render_thumb_png(bytes: &Vec<u8>, w: u32, h: u32) -> (r: Result<Vec<u8>, EngineError>)
    requires
        w >= 1,
        h >= 1,
    ensures
        r is Ok <==> thumb_png(bytes@, w, h) is Some,
        r is Ok ==> r->Ok_0@ == thumb_png(bytes@, w, h)->Some_0,
        r is Err ==> r->Err_0 == (if raster_dims(bytes@) is None {
            EngineError::DecodeError
        } else {
            EngineError::EncodeError
        }),
{
    let img = match image::load_from_memory(bytes.as_slice()) {
        Ok(img) => img,
        Err(_) => return Err(EngineError::DecodeError),
    };
    let small = img.resize_exact(w, h, image::imageops::FilterType::Triangle);
    let mut cursor = std::io::Cursor::new(Vec::new());
    match small.write_to(&mut cursor, image::ImageFormat::Png) {
        Ok(()) => Ok(cursor.into_inner()),
        Err(_) => Err(EngineError::EncodeError),
    }
}

/// Relies on `base64::engine::general_purpose::STANDARD` through
/// `base64::Engine::encode`: the standard alphabet with padding, four output
/// characters for every started group of three input bytes.
#[verifier::external_body]
pub(crate) fn base64_encode(bytes: &Vec<u8>) -> (r: String)
    ensures
        r@ == base64_of(bytes@),
        r@.len() == 4 * ((bytes@.len() + 2) / 3),
{
    base64::Engine::encode(&base64::engine::general_purpose::STANDARD, bytes.as_slice())
}

/// The exact outcome of one transform, as a function of the source bytes and
/// the transform parameters.
pub open spec fn spec_transform(source: Seq<u8>, t: TransformSpec) -> Result<
    ArtifactView,
    EngineError,
> {
    if !spec_valid(t) {
        Err(EngineError::ValidationError)
    } else {
        match t {
            TransformSpec::Resize(rz) => match raster_dims(source) {
                None => Err(EngineError::DecodeError),
                Some(d) => if d.0 == 0 || d.1 == 0 {
                    Err(EngineError::DecodeError)
                } else {
                    let dims = fit_dims(d.0 as int, d.1 as int, rz.width as int, rz.height as int);
                    match resized_jpeg(source, dims.0 as u32, dims.1 as u32, rz.quality) {
                        None => Err(EngineError::EncodeError),
                        Some(out) => Ok(
                            ArtifactView {
                                bytes: out,
                                content_type: ContentType::Jpeg,
                                inline_text: None,
                            },
                        ),
                    }
                },
            },
            TransformSpec::Blur(b) => match thumb_png(source, b.width, b.height) {
                None => if raster_dims(source) is None {
                    Err(EngineError::DecodeError)
                } else {
                    Err(EngineError::EncodeError)
                },
                Some(png) => {
                    let text = svg_doc(b.svg_width, b.svg_height, b.sigma, base64_of(png));
                    Ok(
                        ArtifactView {
                            bytes: vstd::utf8::encode_utf8(text),
                            content_type: ContentType::Svg,
                            inline_text: Some(text),
                        },
                    )
                },
            },
        }
    }
}

/// Runs one transform. Validation comes first: an invalid transform is
/// rejected before any decode work. The outcome equals [`spec_transform`] on
/// the inputs, so identical inputs always yield identical output bytes.
pub fn transform(source: &Vec<u8>, t: &TransformSpec) -> (r: Result<Artifact, EngineError>)
    ensures
        match r {
            Ok(a) => spec_transform(source@, *t) == Ok::<ArtifactView, EngineError>(a@),
            Err(e) => spec_transform(source@, *t) == Err::<ArtifactView, EngineError>(e),
        },
{
    if !validate(t) {
        return Err(EngineError::ValidationError);
    }
    match t {
        TransformSpec::Resize(rz) => {
            let d = match probe_dims(source) {
                None => {
                    return Err(EngineError::DecodeError);
                },
                Some(d) => d,
            };
            if d.0 == 0 || d.1 == 0 {
                return Err(EngineError::DecodeError);
            }
            let dims = fit_within(d.0, d.1, rz.width, rz.height);
            match render_resized_jpeg(source, dims.0, dims.1, rz.quality) {
                Ok(out) => Ok(
                    Artifact { bytes: out, content_type: ContentType::Jpeg, inline_text: None },
                ),
                Err(e) => Err(e),
            }
        },
        TransformSpec::Blur(b) => {
            match render_thumb_png(source, b.width, b.height) {
                Ok(png) => {
                    let b64 = base64_encode(&png);
                    let text = build_svg(b.svg_width, b.svg_height, b.sigma, b64.as_str());
                    let bytes = text.as_str().as_bytes_vec();
                    Ok(
                        Artifact {
                            bytes,
                            content_type: ContentType::Svg,
                            inline_text: Some(text),
                        },
                    )
                },
                Err(e) => Err(e),
            }
        },
    }
}

} // verus!
