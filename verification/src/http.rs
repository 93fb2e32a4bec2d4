//! The HTTP boundary, as pure decisions: decode the key from the request
//! path, and map a build outcome to a status, headers and body. The hosting
//! process does the socket work and streams the bytes.

use vstd::prelude::*;
use vstd::string::StrSliceExecFns;
use crate::artifact::Artifact;
use crate::error::{EngineError, spec_name};

verus! {

/// Status for each failure: validation and undecodable sources are the
/// client's error, a missing source is not found, store and encode
/// failures are the server's.
pub open spec fn spec_status(e: EngineError) -> u16 {
    match e {
        EngineError::ValidationError => 400,
        EngineError::DecodeError => 400,
        EngineError::SourceNotFound => 404,
        EngineError::EncodeError => 500,
        EngineError::StoreIOError => 500,
        EngineError::ConfigError => 500,
    }
}

/// Decides [`spec_status`].
pub fn status_for(e: &EngineError) -> (s: u16)
    ensures
        s == spec_status(*e),
{
    match e {
        EngineError::ValidationError => 400,
        EngineError::DecodeError => 400,
        EngineError::SourceNotFound => 404,
        EngineError::EncodeError => 500,
        EngineError::StoreIOError => 500,
        EngineError::ConfigError => 500,
    }
}

/// What one request is answered with.
pub struct HttpResponse {
    pub status: u16,
    /// The `Content-Type` header value, when one is served.
    pub content_type: Option<&'static str>,
    /// Whether the long-lived immutable cache directive is served:
    /// artifacts never change once built.
    pub cache_immutable: bool,
    pub body: Vec<u8>,
}

/// The cache directive served with every artifact.
pub fn cache_control_value() -> (r: &'static str)
    ensures
        r@ == "public, max-age=31536000, immutable"@,
{
    "public, max-age=31536000, immutable"
}

/// The answer for a request whose encoded key did not decode.
pub fn malformed_key_response() -> (r: HttpResponse)
    ensures
        r.status == 400,
        !r.cache_immutable,
        r.content_type is None,
{
    HttpResponse { status: 400, content_type: None, cache_immutable: false, body: Vec::new() }
}

/// The answer for a resolved build outcome: an artifact streams back with
/// its content type and the immutable cache directive; a failure maps to
/// its status, with a stable short name as the body — never an internal
/// filesystem path.
pub fn response_for(outcome: Result<Artifact, EngineError>) -> (r: HttpResponse)
    ensures
        outcome matches Ok(a) ==> r.status == 200 && r.body@ == a.bytes@ && r.cache_immutable && (
        r.content_type matches Some(c) && c@ == match a.content_type {
            crate::artifact::ContentType::Jpeg => "image/jpeg"@,
            crate::artifact::ContentType::Svg => "image/svg+xml"@,
        }),
        outcome matches Err(e) ==> r.status == spec_status(e) && !r.cache_immutable
            && r.content_type is None && r.body@ == vstd::utf8::encode_utf8(spec_name(e)),
{
    match outcome {
        Ok(a) => {
            let ct = a.content_type.header_value();
            HttpResponse {
                status: 200,
                content_type: Some(ct),
                cache_immutable: true,
                body: a.bytes,
            }
        },
        Err(e) => {
            let name = e.name();
            let body = name.as_bytes_vec();
            HttpResponse { status: status_for(&e), content_type: None, cache_immutable: false, body }
        },
    }
}

} // verus!
