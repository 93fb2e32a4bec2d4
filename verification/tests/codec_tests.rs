use image_cache::codec::{decode_key, encode_key};
use image_cache::key::{key_eq, Blur, Key, Resize, TransformSpec, validate};
use image_cache::store::file_name_for;
use image_cache::svg::{build_svg, dec_u32};
use image_cache::view::{blur_placeholder_key, resize_key, url_for};

fn resize(src: &str, w: u32, h: u32, q: u8) -> Key {
    resize_key(src.as_bytes().to_vec(), w, h, q)
}

fn blur(src: &str) -> Key {
    blur_placeholder_key(src.as_bytes().to_vec())
}

#[test]
fn encode_resize_exact_value() {
    let k = resize("a.png", 1, 2, 3);
    let enc = encode_key(&k);
    assert_eq!(enc, b"r000000010000000203a.png".to_vec());
}

#[test]
fn encode_escapes_unsafe_bytes() {
    let k = resize("a b/c.png", 16, 32, 75);
    let enc = encode_key(&k);
    assert_eq!(enc, b"r00000010000000204ba~20b~2fc.png".to_vec());
}

#[test]
fn encode_blur_exact_value() {
    let k = blur("x.png");
    let enc = encode_key(&k);
    assert_eq!(
        enc,
        b"b000000140000001400000064000000640fx.png".to_vec()
    );
}

#[test]
fn round_trip_resize() {
    let k = resize("images/cute ferris!.png", 1920, 1080, 85);
    let enc = encode_key(&k);
    let back = decode_key(&enc).expect("canonical encoding must decode");
    assert!(key_eq(&back, &k));
}

#[test]
fn round_trip_blur_with_non_ascii_path() {
    let k = blur("bilder/f\u{00e9}rris \u{2764}.png");
    let enc = encode_key(&k);
    let back = decode_key(&enc).expect("canonical encoding must decode");
    assert!(key_eq(&back, &k));
}

#[test]
fn encoded_keys_are_url_safe() {
    let k = resize("a b/c?d&e=#.png", 100, 100, 50);
    let enc = encode_key(&k);
    for &b in &enc {
        let safe = b.is_ascii_alphanumeric() || b == b'.' || b == b'-' || b == b'~';
        assert!(safe, "byte {b} is not URL-safe");
    }
}

#[test]
fn distinct_keys_encode_differently() {
    let a = encode_key(&resize("a.png", 100, 100, 75));
    let b = encode_key(&resize("a.png", 100, 100, 76));
    let c = encode_key(&resize("b.png", 100, 100, 75));
    let d = encode_key(&blur("a.png"));
    assert_ne!(a, b);
    assert_ne!(a, c);
    assert_ne!(a, d);
}

#[test]
fn decode_rejects_malformed_inputs() {
    assert!(decode_key(&b"".to_vec()).is_none());
    assert!(decode_key(&b"r".to_vec()).is_none());
    assert!(decode_key(&b"x000000010000000203a.png".to_vec()).is_none());
    // too short for a blur header
    assert!(decode_key(&b"b0000001400000014".to_vec()).is_none());
    // bad hex in the width field
    assert!(decode_key(&b"rzz0000010000000203a.png".to_vec()).is_none());
    // uppercase hex is not canonical
    assert!(decode_key(&b"r0000000A0000000203a.png".to_vec()).is_none());
    // an unsafe byte must be escaped, not raw
    assert!(decode_key(&b"r000000010000000203a b".to_vec()).is_none());
    // an escape of a safe byte is not canonical
    assert!(decode_key(&b"r000000010000000203~61".to_vec()).is_none());
    // a truncated escape
    assert!(decode_key(&b"r000000010000000203~2".to_vec()).is_none());
}

#[test]
fn decode_accepts_any_parameter_values() {
    // decoding does not validate; the transform engine does
    let k = resize("a.png", 0, 0, 255);
    let enc = encode_key(&k);
    let back = decode_key(&enc).expect("must decode");
    assert!(key_eq(&back, &k));
    assert!(!validate(&back.transform));
}

#[test]
fn validate_matches_bounds() {
    assert!(validate(&TransformSpec::Resize(Resize { width: 1, height: 1, quality: 0 })));
    assert!(validate(&TransformSpec::Resize(Resize { width: 1, height: 1, quality: 100 })));
    assert!(!validate(&TransformSpec::Resize(Resize { width: 0, height: 1, quality: 50 })));
    assert!(!validate(&TransformSpec::Resize(Resize { width: 1, height: 0, quality: 50 })));
    assert!(!validate(&TransformSpec::Resize(Resize { width: 1, height: 1, quality: 101 })));
    assert!(validate(&TransformSpec::Blur(Blur {
        width: 20,
        height: 20,
        svg_width: 100,
        svg_height: 100,
        sigma: 15,
    })));
    assert!(!validate(&TransformSpec::Blur(Blur {
        width: 0,
        height: 20,
        svg_width: 100,
        svg_height: 100,
        sigma: 15,
    })));
}

#[test]
fn file_names_are_fixed_length_hex() {
    let k1 = resize("a.png", 100, 100, 75);
    let k2 = resize("a.png", 100, 101, 75);
    let n1 = file_name_for(&k1);
    let n1_again = file_name_for(&k1);
    let n2 = file_name_for(&k2);
    assert_eq!(n1.len(), 64);
    assert!(n1.iter().all(|b| b.is_ascii_hexdigit() && !b.is_ascii_uppercase()));
    assert_eq!(n1, n1_again);
    assert_ne!(n1, n2);
}

#[test]
fn url_for_joins_prefix_and_encoding() {
    let k = resize("a.png", 1, 2, 3);
    let url = url_for(&b"/cache/image".to_vec(), &k);
    assert_eq!(url, b"/cache/image/r000000010000000203a.png".to_vec());
}

#[test]
fn decimal_rendering_is_exact() {
    assert_eq!(dec_u32(0), "0");
    assert_eq!(dec_u32(7), "7");
    assert_eq!(dec_u32(1080), "1080");
    assert_eq!(dec_u32(4294967295), "4294967295");
    assert_eq!(
        build_svg(100, 50, 15, "Zm9v"),
        "<svg xmlns=\"http://www.w3.org/2000/svg\" viewBox=\"0 0 100 50\"><filter id=\"b\"><feGaussianBlur stdDeviation=\"15\"/></filter><image filter=\"url(#b)\" width=\"100%\" height=\"100%\" href=\"data:image/png;base64,Zm9v\"/></svg>"
    );
}
