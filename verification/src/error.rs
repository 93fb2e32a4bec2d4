//! The engine's failure taxonomy. Failures are reported per call and are
//! never cached: a later request for the same key starts over.

use vstd::prelude::*;

verus! {

/// Every way a build or a lookup can fail.
#[derive(Clone, Copy, PartialEq, Eq, Structural, Debug)]
pub enum EngineError {
    /// The transform parameters are rejected before any decode is attempted.
    ValidationError,
    /// The source path does not resolve under the image root.
    SourceNotFound,
    /// The source bytes are not a supported raster format.
    DecodeError,
    /// Producing the output bytes failed.
    EncodeError,
    /// The persistent store could not be read or written.
    StoreIOError,
    /// The engine is not wired into the serving context.
    ConfigError,
}

/// The short stable name of each failure, used in logs and error bodies;
/// never a filesystem path.
pub open spec fn spec_name(e: EngineError) -> Seq<char> {
    match e {
        EngineError::ValidationError => "validation error"@,
        EngineError::SourceNotFound => "source not found"@,
        EngineError::DecodeError => "decode error"@,
        EngineError::EncodeError => "encode error"@,
        EngineError::StoreIOError => "store i/o error"@,
        EngineError::ConfigError => "engine not configured"@,
    }
}

impl EngineError {
    /// Decides [`spec_name`].
    pub fn name(&self) -> (r: &'static str)
        ensures
            r@ == spec_name(*self),
    {
        match self {
            EngineError::ValidationError => "validation error",
            EngineError::SourceNotFound => "source not found",
            EngineError::DecodeError => "decode error",
            EngineError::EncodeError => "encode error",
            EngineError::StoreIOError => "store i/o error",
            EngineError::ConfigError => "engine not configured",
        }
    }
}

} // verus!
