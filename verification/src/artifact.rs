//! Artifacts: the output of one successful build.

use vstd::prelude::*;

verus! {

/// The media type of an artifact's bytes.
#[derive(Clone, Copy, PartialEq, Eq, Structural, Debug)]
pub enum ContentType {
    /// A raster produced by a resize.
    Jpeg,
    /// A vector placeholder produced by a blur.
    Svg,
}

impl ContentType {
    /// The value served in a `Content-Type` header.
    pub fn header_value(&self) -> (r: &'static str)
        ensures
            *self is Jpeg ==> r@ == "image/jpeg"@,
            *self is Svg ==> r@ == "image/svg+xml"@,
    {
        match self {
            ContentType::Jpeg => "image/jpeg",
            ContentType::Svg => "image/svg+xml",
        }
    }
}

/// Output bytes plus their content type; a blur artifact additionally keeps
/// its small textual form for inline embedding.
#[derive(Clone, Debug)]
pub struct Artifact {
    pub bytes: Vec<u8>,
    pub content_type: ContentType,
    pub inline_text: Option<String>,
}

/// The mathematical value of an [`Artifact`].
#[verifier::ext_equal]
pub ghost struct ArtifactView {
    pub bytes: Seq<u8>,
    pub content_type: ContentType,
    pub inline_text: Option<Seq<char>>,
}

impl View for Artifact {
    type V = ArtifactView;

    open spec fn view(&self) -> ArtifactView {
        ArtifactView {
            bytes: self.bytes@,
            content_type: self.content_type,
            inline_text: match self.inline_text {
                Some(t) => Some(t@),
                None => None,
            },
        }
    }
}

} // verus!
