//! The key model: a source image reference plus a transform specification.

use vstd::prelude::*;

verus! {

/// Parameters of a bounded resize: the output fits within `width` x `height`
/// while keeping the source aspect ratio, encoded with the given `quality`.
#[derive(Clone, Copy, PartialEq, Eq, Structural, Debug)]
pub struct Resize {
    pub width: u32,
    pub height: u32,
    /// Encoding quality, `0` (lowest) to `100` (highest fidelity).
    pub quality: u8,
}

/// Parameters of a blur placeholder: a `width` x `height` thumbnail embedded
/// in a vector document sized `svg_width` x `svg_height`, blurred by `sigma`.
#[derive(Clone, Copy, PartialEq, Eq, Structural, Debug)]
pub struct Blur {
    pub width: u32,
    pub height: u32,
    pub svg_width: u32,
    pub svg_height: u32,
    pub sigma: u8,
}

/// A transform specification: either a bounded resize or a blur placeholder.
#[derive(Clone, Copy, PartialEq, Eq, Structural, Debug)]
pub enum TransformSpec {
    Resize(Resize),
    Blur(Blur),
}

/// A content-addressable key: the source image path (held as its UTF-8
/// bytes, root-relative) together with the requested transform.
#[derive(Clone, Debug)]
pub struct Key {
    pub src: Vec<u8>,
    pub transform: TransformSpec,
}

/// The mathematical value of a [`Key`].
#[verifier::ext_equal]
pub ghost struct KeyView {
    pub src: Seq<u8>,
    pub transform: TransformSpec,
}

impl View for Key {
    type V = KeyView;

    open spec fn view(&self) -> KeyView {
        KeyView { src: self.src@, transform: self.transform }
    }
}

/// A transform is valid when its output dimensions are positive and, for a
/// resize, the quality lies in `0 ..= 100`. Invalid transforms are rejected
/// before any decode is attempted.
pub open spec fn spec_valid(t: TransformSpec) -> bool {
    match t {
        TransformSpec::Resize(r) => r.width > 0 && r.height > 0 && r.quality <= 100,
        TransformSpec::Blur(b) => b.width > 0 && b.height > 0,
    }
}

/// Decides [`spec_valid`].
pub fn validate(t: &TransformSpec) -> (r: bool)
    ensures
        r == spec_valid(*t),
{
    match t {
        TransformSpec::Resize(rz) => rz.width > 0 && rz.height > 0 && rz.quality <= 100,
        TransformSpec::Blur(b) => b.width > 0 && b.height > 0,
    }
}

/// Copies a byte string.
pub fn clone_bytes(v: &Vec<u8>) -> (r: Vec<u8>)
    ensures
        r@ == v@,
{
    let n = v.len();
    let mut r: Vec<u8> = Vec::new();
    let mut i: usize = 0;
    while i < n
        invariant
            n == v.len(),
            i <= n,
            r@ == v@.take(i as int),
        decreases n - i,
    {
        r.push(v[i]);
        proof {
            assert(r@ =~= v@.take(i + 1));
        }
        i += 1;
    }
    proof {
        assert(v@.take(n as int) =~= v@);
    }
    r
}

/// Copies a key; the copy has the same mathematical value.
pub fn clone_key(k: &Key) -> (r: Key)
    ensures
        r@ == k@,
{
    Key { src: clone_bytes(&k.src), transform: k.transform }
}

/// Structural key equality, the equality the coalescing and cache-hit
/// guarantees are stated over.
pub fn key_eq(a: &Key, b: &Key) -> (r: bool)
    ensures
        r == (a@ == b@),
{
    let eq_transform = a.transform == b.transform;
    if !eq_transform {
        return false;
    }
    if a.src.len() != b.src.len() {
        return false;
    }
    let n = a.src.len();
    let mut i: usize = 0;
    while i < n
        invariant
            n == a.src.len() == b.src.len(),
            i <= n,
            forall|j: int| 0 <= j < i ==> a.src@[j] == b.src@[j],
            a.transform == b.transform,
        decreases n - i,
    {
        if a.src[i] != b.src[i] {
            return false;
        }
        i += 1;
    }
    proof {
        assert(a.src@ =~= b.src@);
        assert(a@ =~= b@);
    }
    true
}

} // verus!
