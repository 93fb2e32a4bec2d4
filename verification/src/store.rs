//! The persistent store, modelled as a name-to-artifact mapping.
//!
//! On disk every artifact lives in one file whose name is the lowercase hex
//! of a collision-resistant digest of the encoded key: fixed length,
//! filesystem-safe, and independent of the arbitrary source path. This
//! module computes those names and models the directory contents; the
//! hosting process performs the actual file reads, atomic writes, and the
//! directory listing a restart reconstructs from.

use vstd::prelude::*;
use crate::artifact::{Artifact, ArtifactView};
use crate::codec::{encoded, encode_key, hex2, hex_digit};
use crate::key::{Key, KeyView, clone_bytes};

verus! {

/// What the outside digest produces for a byte string: a function of the
/// bytes alone.
pub uninterp spec fn sha256_of(s: Seq<u8>) -> Seq<u8>;

/// Relies on `sha2::Sha256` through `digest::Digest::digest`: a 32-byte
/// digest that is a function of the input bytes alone.
#[verifier::external_body]
fn sha256_bytes(bytes: &Vec<u8>) -> (r: Vec<u8>)
    ensures
        r@ == sha256_of(bytes@),
        r@.len() == 32,
{
    let digest = <sha2::Sha256 as sha2::Digest>::digest(bytes.as_slice());
    digest.to_vec()
}

/// Lowercase hex of a byte string.
pub open spec fn hex_seq(s: Seq<u8>) -> Seq<u8>
    decreases s.len(),
{
    if s.len() == 0 {
        Seq::empty()
    } else {
        hex2(s[0]) + hex_seq(s.drop_first())
    }
}

/// Hex rendering distributes over concatenation.
proof fn lemma_hex_seq_append(a: Seq<u8>, b: Seq<u8>)
    ensures
        hex_seq(a + b) == hex_seq(a) + hex_seq(b),
        hex_seq(a).len() == 2 * a.len(),
    decreases a.len(),
{
    if a.len() == 0 {
        assert(a + b =~= b);
        assert(hex_seq(a) + hex_seq(b) =~= hex_seq(b));
    } else {
        assert((a + b).drop_first() =~= a.drop_first() + b);
        lemma_hex_seq_append(a.drop_first(), b);
        assert(hex_seq(a + b) =~= hex_seq(a) + hex_seq(b));
    }
}

/// Hex rendering of `n` bytes has `2 * n` digits.
pub proof fn lemma_hex_seq_len(s: Seq<u8>)
    ensures
        hex_seq(s).len() == 2 * s.len(),
    decreases s.len(),
{
    if s.len() > 0 {
        lemma_hex_seq_len(s.drop_first());
    }
}

/// The on-disk name an artifact for this key is filed under.
pub open spec fn store_name(k: KeyView) -> Seq<u8> {
    hex_seq(sha256_of(encoded(k)))
}

/// Computes [`store_name`]: 64 lowercase hex digits.
pub fn file_name_for(k: &Key) -> (r: Vec<u8>)
    ensures
        r@ == store_name(k@),
        r@.len() == 64,
{
    let enc = encode_key(k);
    let digest = sha256_bytes(&enc);
    let mut out: Vec<u8> = Vec::new();
    let n = digest.len();
    let mut i: usize = 0;
    while i < n
        invariant
            n == digest.len(),
            i <= n,
            out@ == hex_seq(digest@.take(i as int)),
        decreases n - i,
    {
        let b = digest[i];
        out.push(hex_digit_exec(b / 16));
        out.push(hex_digit_exec(b % 16));
        proof {
            lemma_hex_seq_append(digest@.take(i as int), seq![b]);
            assert(digest@.take(i + 1) =~= digest@.take(i as int) + seq![b]);
            assert((seq![b]).drop_first() =~= Seq::<u8>::empty());
            assert(hex_seq((seq![b]).drop_first()) =~= Seq::<u8>::empty());
            assert(hex_seq(seq![b]) =~= hex2(b) + Seq::<u8>::empty());
            assert(hex2(b) + Seq::<u8>::empty() =~= hex2(b));
            assert(out@ =~= hex_seq(digest@.take(i + 1)));
        }
        i += 1;
    }
    proof {
        assert(digest@.take(n as int) =~= digest@);
        lemma_hex_seq_len(digest@);
    }
    out
}

fn hex_digit_exec(n: u8) -> (r: u8)
    requires
        n < 16,
    ensures
        r == hex_digit(n),
{
    if n < 10 {
        48 + n
    } else {
        87 + n
    }
}

/// The durable name-to-artifact mapping. Entries are only ever added, never
/// mutated: an artifact, once written, is immutable.
pub struct Store {
    pub entries: Vec<(Vec<u8>, Artifact)>,
}

impl Store {
    /// Names are pairwise distinct.
    pub open spec fn wf(self) -> bool {
        forall|i: int, j: int|
            0 <= i < j < self.entries@.len() ==> self.entries@[i].0@ != self.entries@[j].0@
    }

    /// Whether an artifact is filed under this name.
    pub open spec fn spec_has(self, name: Seq<u8>) -> bool {
        exists|i: int| 0 <= i < self.entries@.len() && self.entries@[i].0@ == name
    }

    /// The artifact filed under this name.
    pub open spec fn spec_get(self, name: Seq<u8>) -> ArtifactView {
        self.entries@[choose|i: int| 0 <= i < self.entries@.len() && self.entries@[i].0@ == name].1@
    }

    /// An empty store: a fresh cache directory.
    pub fn new() -> (r: Store)
        ensures
            r.wf(),
            forall|n: Seq<u8>| !r.spec_has(n),
    {
        Store { entries: Vec::new() }
    }

    /// Reconstructs the mapping from a directory listing, as a restart does.
    pub fn from_entries(entries: Vec<(Vec<u8>, Artifact)>) -> (r: Store)
        ensures
            r.entries@ == entries@,
    {
        Store { entries }
    }

    /// Looks a name up; a missing entry is a plain cache miss.
    pub fn get(&self, name: &Vec<u8>) -> (r: Option<Artifact>)
        requires
            self.wf(),
        ensures
            match r {
                Some(a) => self.spec_has(name@) && a@ == self.spec_get(name@),
                None => !self.spec_has(name@),
            },
    {
        let n = self.entries.len();
        let mut i: usize = 0;
        while i < n
            invariant
                self.wf(),
                n == self.entries@.len(),
                i <= n,
                forall|j: int| 0 <= j < i ==> self.entries@[j].0@ != name@,
            decreases n - i,
        {
            if bytes_eq(&self.entries[i].0, name) {
                let a = clone_artifact(&self.entries[i].1);
                proof {
                    let w = choose|w: int|
                        0 <= w < self.entries@.len() && self.entries@[w].0@ == name@;
                    assert(w == i);
                }
                return Some(a);
            }
            i += 1;
        }
        None
    }

    /// Files an artifact under a fresh name. Existing entries never change.
    pub fn put(&mut self, name: Vec<u8>, artifact: Artifact)
        requires
            old(self).wf(),
            !old(self).spec_has(name@),
        ensures
            final(self).wf(),
            final(self).spec_has(name@),
            final(self).spec_get(name@) == artifact@,
            forall|m: Seq<u8>|
                m != name@ ==> final(self).spec_has(m) == old(self).spec_has(m),
            forall|m: Seq<u8>|
                m != name@ && old(self).spec_has(m) ==> final(self).spec_get(m) == old(
                    self,
                ).spec_get(m),
            final(self).entries@ == old(self).entries@.push((name, artifact)),
    {
        let ghost oldself = *self;
        let ghost gname = name@;
        let ghost ga = artifact@;
        self.entries.push((name, artifact));
        proof {
            let n = self.entries@.len() - 1;
            assert(self.entries@[n].0@ == gname);
            assert forall|m: Seq<u8>| m != gname implies self.spec_has(m) == oldself.spec_has(
                m,
            ) by {
                if oldself.spec_has(m) {
                    let i = choose|i: int|
                        0 <= i < oldself.entries@.len() && oldself.entries@[i].0@ == m;
                    assert(self.entries@[i].0@ == m);
                }
                if self.spec_has(m) {
                    let i = choose|i: int|
                        0 <= i < self.entries@.len() && self.entries@[i].0@ == m;
                    assert(i < n);
                    assert(oldself.entries@[i].0@ == m);
                }
            }
            assert forall|m: Seq<u8>| m != gname && oldself.spec_has(m) implies self.spec_get(m)
                == oldself.spec_get(m) by {
                let i = choose|i: int|
                    0 <= i < self.entries@.len() && self.entries@[i].0@ == m;
                let j = choose|j: int|
                    0 <= j < oldself.entries@.len() && oldself.entries@[j].0@ == m;
                assert(self.entries@[j].0@ == m);
                assert(i < n && j < n);
                assert(i == j);
            }
        }
    }
}

/// Byte-string equality.
pub fn bytes_eq(a: &Vec<u8>, b: &Vec<u8>) -> (r: bool)
    ensures
        r == (a@ == b@),
{
    if a.len() != b.len() {
        return false;
    }
    let n = a.len();
    let mut i: usize = 0;
    while i < n
        invariant
            n == a.len() == b.len(),
            i <= n,
            forall|j: int| 0 <= j < i ==> a@[j] == b@[j],
        decreases n - i,
    {
        if a[i] != b[i] {
            return false;
        }
        i += 1;
    }
    proof {
        assert(a@ =~= b@);
    }
    true
}

/// Copies an artifact; the copy has the same mathematical value.
pub fn clone_artifact(a: &Artifact) -> (r: Artifact)
    ensures
        r@ == a@,
{
    let bytes = clone_bytes(&a.bytes);
    let inline_text = match &a.inline_text {
        Some(t) => Some(t.clone()),
        None => None,
    };
    Artifact { bytes, content_type: a.content_type, inline_text }
}

} // verus!
