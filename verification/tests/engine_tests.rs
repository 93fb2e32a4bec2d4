use std::io::Cursor;

use image_cache::artifact::ContentType;
use image_cache::coordinator::{Coordinator, Resolution};
use image_cache::error::EngineError;
use image_cache::index::Index;
use image_cache::key::{key_eq, Blur, Resize, TransformSpec};
use image_cache::store::{file_name_for, Store};
use image_cache::transform::{fit_within, transform};
use image_cache::view::{blur_placeholder_key, inline_style_for, resize_key};

fn png_source(width: u32, height: u32) -> Vec<u8> {
    let img = image::RgbImage::from_pixel(width, height, image::Rgb([120u8, 160u8, 200u8]));
    let mut buf = Cursor::new(Vec::new());
    img.write_to(&mut buf, image::ImageFormat::Png)
        .expect("encoding a fresh buffer cannot fail");
    buf.into_inner()
}

#[test]
fn fit_within_keeps_bounds_and_ratio() {
    assert_eq!(fit_within(2000, 1000, 300, 300), (300, 150));
    assert_eq!(fit_within(1000, 2000, 300, 300), (150, 300));
    assert_eq!(fit_within(100, 100, 300, 200), (200, 200));
    assert_eq!(fit_within(1, 1000, 1000, 1), (1, 1));
}

#[test]
fn resize_output_fits_bounds_and_keeps_ratio() {
    let src = png_source(2000, 1000);
    let spec = TransformSpec::Resize(Resize { width: 300, height: 300, quality: 80 });
    let a = transform(&src, &spec).expect("a valid resize of a decodable source succeeds");
    assert!(matches!(a.content_type, ContentType::Jpeg));
    assert!(a.inline_text.is_none());
    let out = image::load_from_memory(&a.bytes).expect("the output must decode");
    let dims = image::GenericImageView::dimensions(&out);
    assert_eq!(dims, (300, 150));
    assert!(dims.0 <= 300 && dims.1 <= 300);
}

#[test]
fn transform_is_deterministic() {
    let src = png_source(64, 48);
    let spec = TransformSpec::Resize(Resize { width: 32, height: 32, quality: 60 });
    let a = transform(&src, &spec).expect("must succeed");
    let b = transform(&src, &spec).expect("must succeed");
    assert_eq!(a.bytes, b.bytes);
}

#[test]
fn zero_width_resize_fails_before_decode() {
    // the bytes are not even a raster; validation must reject first
    let junk = b"definitely not an image".to_vec();
    let spec = TransformSpec::Resize(Resize { width: 0, height: 100, quality: 50 });
    assert!(matches!(transform(&junk, &spec), Err(EngineError::ValidationError)));
    let spec = TransformSpec::Resize(Resize { width: 100, height: 100, quality: 101 });
    assert!(matches!(transform(&junk, &spec), Err(EngineError::ValidationError)));
}

#[test]
fn undecodable_source_is_a_decode_error() {
    let junk = b"definitely not an image".to_vec();
    let spec = TransformSpec::Resize(Resize { width: 100, height: 100, quality: 50 });
    assert!(matches!(transform(&junk, &spec), Err(EngineError::DecodeError)));
    let spec = TransformSpec::Blur(Blur {
        width: 20,
        height: 20,
        svg_width: 100,
        svg_height: 100,
        sigma: 15,
    });
    assert!(matches!(transform(&junk, &spec), Err(EngineError::DecodeError)));
}

#[test]
fn blur_artifact_is_a_small_vector_document() {
    let src = png_source(2000, 1000);
    let spec = TransformSpec::Blur(Blur {
        width: 20,
        height: 20,
        svg_width: 100,
        svg_height: 100,
        sigma: 15,
    });
    let a = transform(&src, &spec).expect("a valid blur of a decodable source succeeds");
    assert!(matches!(a.content_type, ContentType::Svg));
    let text = a.inline_text.clone().expect("a blur artifact keeps its inline text");
    assert_eq!(a.bytes, text.as_bytes().to_vec());
    assert!(a.bytes.len() < 1024, "placeholder is {} bytes", a.bytes.len());
    assert!(text.contains("stdDeviation=\"15\""));
    assert!(text.contains("viewBox=\"0 0 100 100\""));
    assert!(text.contains("data:image/png;base64,"));
    assert!(text.starts_with("<svg"));
}

#[test]
fn inline_style_embeds_base64() {
    // base64 of "a" is "YQ==": the style must embed the encoded document
    let style = inline_style_for("a");
    assert_eq!(style, "color:transparent;background-size:cover;background-position:50% 50%;background-repeat:no-repeat;background-image:url('data:image/svg+xml;base64,YQ==');");
}

#[test]
fn second_request_is_a_pure_cache_hit() {
    let src = png_source(64, 64);
    let key = resize_key(b"a.png".to_vec(), 32, 32, 70);
    let mut c = Coordinator::new(2, String::from("/cache/image"));

    let mut builds = 0;
    let first = match c.resolve(&key) {
        Resolution::Started => {
            builds += 1;
            let outcome = transform(&src, &key.transform);
            let artifact = outcome.clone().expect("build succeeds");
            c.finish(&key, outcome);
            artifact
        },
        _ => panic!("an unbuilt key with a free slot must start a build"),
    };

    let second = match c.resolve(&key) {
        Resolution::Hit(a) => a,
        _ => panic!("a built key must be a pure hit"),
    };
    assert_eq!(builds, 1);
    assert_eq!(first.bytes, second.bytes);
}

#[test]
fn concurrent_requests_for_one_key_coalesce() {
    let src = png_source(64, 64);
    let key = resize_key(b"a.png".to_vec(), 32, 32, 70);
    let mut c = Coordinator::new(4, String::from("/cache/image"));

    assert!(matches!(c.resolve(&key), Resolution::Started));
    // further callers while the build is in flight join the same ticket
    assert!(matches!(c.resolve(&key), Resolution::Joined));
    assert!(matches!(c.resolve(&key), Resolution::Joined));

    let outcome = transform(&src, &key.transform);
    c.finish(&key, outcome);
    assert!(matches!(c.resolve(&key), Resolution::Hit(_)));
}

#[test]
fn backpressure_queues_beyond_the_slot_bound() {
    let src = png_source(64, 64);
    let k1 = resize_key(b"a.png".to_vec(), 32, 32, 70);
    let k2 = resize_key(b"b.png".to_vec(), 32, 32, 70);
    let mut c = Coordinator::new(1, String::from("/cache/image"));

    assert!(matches!(c.resolve(&k1), Resolution::Started));
    // with the single slot busy, a second distinct key must wait
    assert!(matches!(c.resolve(&k2), Resolution::Queued));
    // no slot is free, so nothing is promoted yet
    assert!(c.promote_next().is_none());

    c.finish(&k1, transform(&src, &k1.transform));
    // the freed slot goes to the waiting ticket, and only now
    let promoted = c.promote_next().expect("the queued ticket takes the freed slot");
    assert!(key_eq(&promoted, &k2));
    c.finish(&k2, transform(&src, &k2.transform));
    assert!(matches!(c.resolve(&k2), Resolution::Hit(_)));
}

#[test]
fn failures_are_not_cached() {
    let junk = b"not an image".to_vec();
    let key = resize_key(b"broken.png".to_vec(), 32, 32, 70);
    let mut c = Coordinator::new(1, String::from("/cache/image"));

    assert!(matches!(c.resolve(&key), Resolution::Started));
    let outcome = transform(&junk, &key.transform);
    assert!(matches!(outcome, Err(EngineError::DecodeError)));
    c.finish(&key, outcome);

    // the failure was not cached: the next request starts a fresh build
    assert!(matches!(c.resolve(&key), Resolution::Started));
}

#[test]
fn blur_builds_become_visible_in_the_index() {
    let src = png_source(400, 400);
    let key = blur_placeholder_key(b"a.png".to_vec());
    let rkey = resize_key(b"a.png".to_vec(), 32, 32, 70);
    let mut c = Coordinator::new(2, String::from("/cache/image"));

    assert!(c.index.lookup(&key).is_none());
    assert!(matches!(c.resolve(&key), Resolution::Started));
    let outcome = transform(&src, &key.transform);
    let text = outcome.clone().unwrap().inline_text.unwrap();
    c.finish(&key, outcome);

    let found = c.index.lookup(&key).expect("a built blur is indexed");
    assert_eq!(found, text);

    // resize artifacts stay out of the index
    assert!(matches!(c.resolve(&rkey), Resolution::Started));
    c.finish(&rkey, transform(&src, &rkey.transform));
    assert!(c.index.lookup(&rkey).is_none());

    let snapshot = c.index.snapshot();
    assert_eq!(snapshot.api_handler_path, "/cache/image");
    assert_eq!(snapshot.cache.len(), 1);
    assert!(key_eq(&snapshot.cache[0].0, &key));
    assert_eq!(snapshot.cache[0].1, text);
    let hit = snapshot.find_placeholder(&key).expect("snapshot holds the placeholder");
    assert_eq!(hit, text);
    assert!(snapshot.find_placeholder(&rkey).is_none());
}

#[test]
fn durable_artifacts_survive_a_restart() {
    let src = png_source(64, 64);
    let key = resize_key(b"a.png".to_vec(), 32, 32, 70);
    let mut c = Coordinator::new(1, String::from("/cache/image"));

    assert!(matches!(c.resolve(&key), Resolution::Started));
    let artifact = transform(&src, &key.transform).expect("build succeeds");
    c.finish(&key, Ok(artifact.clone()));

    // reconstruct the store against the same entries, as a restart would
    let entries = c.store.entries.clone();
    let rebuilt = Store::from_entries(entries);
    let name = file_name_for(&key);
    let a = rebuilt.get(&name).expect("a durable artifact is a hit after restart");
    assert_eq!(a.bytes, artifact.bytes);

    // a coordinator over the rebuilt store serves it without any new build
    let mut c2 = Coordinator {
        capacity: 1,
        store: rebuilt,
        index: Index::new(String::from("/cache/image")),
        running: Vec::new(),
        queued: Vec::new(),
    };
    match c2.resolve(&key) {
        Resolution::Hit(a) => assert_eq!(a.bytes, artifact.bytes),
        _ => panic!("a restart must not rebuild a durable artifact"),
    }
}
