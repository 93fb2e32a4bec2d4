use image_cache::artifact::{Artifact, ContentType};
use image_cache::error::EngineError;
use image_cache::http::{cache_control_value, malformed_key_response, response_for, status_for};

#[test]
fn artifact_responses_are_immutable_hits() {
    let a = Artifact {
        bytes: vec![1, 2, 3],
        content_type: ContentType::Jpeg,
        inline_text: None,
    };
    let r = response_for(Ok(a));
    assert_eq!(r.status, 200);
    assert_eq!(r.content_type, Some("image/jpeg"));
    assert!(r.cache_immutable);
    assert_eq!(r.body, vec![1, 2, 3]);

    let a = Artifact {
        bytes: b"<svg/>".to_vec(),
        content_type: ContentType::Svg,
        inline_text: Some(String::from("<svg/>")),
    };
    let r = response_for(Ok(a));
    assert_eq!(r.content_type, Some("image/svg+xml"));
}

#[test]
fn every_failure_maps_to_its_status() {
    assert_eq!(status_for(&EngineError::ValidationError), 400);
    assert_eq!(status_for(&EngineError::DecodeError), 400);
    assert_eq!(status_for(&EngineError::SourceNotFound), 404);
    assert_eq!(status_for(&EngineError::EncodeError), 500);
    assert_eq!(status_for(&EngineError::StoreIOError), 500);
    assert_eq!(status_for(&EngineError::ConfigError), 500);
}

#[test]
fn failure_responses_carry_stable_names() {
    let r = response_for(Err(EngineError::SourceNotFound));
    assert_eq!(r.status, 404);
    assert!(!r.cache_immutable);
    assert!(r.content_type.is_none());
    assert_eq!(r.body, b"source not found".to_vec());

    let r = response_for(Err(EngineError::ValidationError));
    assert_eq!(r.status, 400);
    assert_eq!(r.body, b"validation error".to_vec());
}

#[test]
fn malformed_keys_are_a_client_error() {
    let r = malformed_key_response();
    assert_eq!(r.status, 400);
    assert!(!r.cache_immutable);
    assert!(r.content_type.is_none());
}

#[test]
fn cache_directive_is_long_lived_and_immutable() {
    assert_eq!(cache_control_value(), "public, max-age=31536000, immutable");
}
