//! The in-memory index: the inlineable blur placeholders plus the handler
//! path prefix, exported as a point-in-time snapshot for the rendering layer.
//!
//! Only blur artifacts are indexed — they are a few hundred bytes and cheap
//! to inline. Resize artifacts live only in the persistent store and are
//! reached through the request path. The hosting process guards the index
//! with its own lock; every method here runs under that lock.

use vstd::prelude::*;
use crate::key::{Key, KeyView, clone_key, key_eq};

verus! {

/// The snapshot payload handed to the rendering layer once per session:
/// the handler path prefix and every known inline placeholder.
pub struct ImageConfig {
    pub api_handler_path: String,
    pub cache: Vec<(Key, String)>,
}

/// The mutable index the snapshot is taken from.
pub struct Index {
    pub api_handler_path: String,
    pub entries: Vec<(Key, String)>,
}

impl Index {
    /// Keys are pairwise distinct.
    pub open spec fn wf(self) -> bool {
        forall|i: int, j: int|
            0 <= i < j < self.entries@.len() ==> self.entries@[i].0@ != self.entries@[j].0@
    }

    /// Whether this key has an inline placeholder.
    pub open spec fn contains(self, k: KeyView) -> bool {
        exists|i: int| 0 <= i < self.entries@.len() && self.entries@[i].0@ == k
    }

    /// The inline text for a key.
    pub open spec fn text_of(self, k: KeyView) -> Seq<char> {
        self.entries@[choose|i: int| 0 <= i < self.entries@.len() && self.entries@[i].0@ == k].1@
    }

    /// An empty index under a handler path prefix.
    pub fn new(api_handler_path: String) -> (r: Index)
        ensures
            r.wf(),
            r.entries@.len() == 0,
            forall|k: KeyView| !r.contains(k),
            r.api_handler_path@ == api_handler_path@,
    {
        Index { api_handler_path, entries: Vec::new() }
    }

    /// Records a freshly built placeholder.
    pub fn insert(&mut self, k: Key, text: String)
        requires
            old(self).wf(),
            !old(self).contains(k@),
        ensures
            final(self).wf(),
            final(self).entries@ == old(self).entries@.push((k, text)),
            final(self).contains(k@),
            final(self).text_of(k@) == text@,
            final(self).api_handler_path == old(self).api_handler_path,
            forall|m: KeyView| m != k@ ==> final(self).contains(m) == old(self).contains(m),
    {
        let ghost oldself = *self;
        let ghost gk = k@;
        let ghost gt = text@;
        self.entries.push((k, text));
        proof {
            let n = self.entries@.len() - 1;
            assert(self.entries@[n].0@ == gk && self.entries@[n].1@ == gt);
            let w = choose|w: int| 0 <= w < self.entries@.len() && self.entries@[w].0@ == gk;
            assert(w == n);
            assert forall|m: KeyView| m != gk implies self.contains(m) == oldself.contains(m) by {
                if oldself.contains(m) {
                    let i = choose|i: int|
                        0 <= i < oldself.entries@.len() && oldself.entries@[i].0@ == m;
                    assert(self.entries@[i].0@ == m);
                }
                if self.contains(m) {
                    let i = choose|i: int|
                        0 <= i < self.entries@.len() && self.entries@[i].0@ == m;
                    assert(i < n);
                    assert(oldself.entries@[i].0@ == m);
                }
            }
        }
    }

    /// Finds the inline placeholder for a key, as the rendering layer does
    /// before falling back to a request.
    pub fn lookup(&self, k: &Key) -> (r: Option<String>)
        requires
            self.wf(),
        ensures
            match r {
                Some(t) => self.contains(k@) && t@ == self.text_of(k@),
                None => !self.contains(k@),
            },
    {
        let n = self.entries.len();
        let mut i: usize = 0;
        while i < n
            invariant
                self.wf(),
                n == self.entries@.len(),
                i <= n,
                forall|j: int| 0 <= j < i ==> self.entries@[j].0@ != k@,
            decreases n - i,
        {
            if key_eq(&self.entries[i].0, k) {
                let t = self.entries[i].1.clone();
                proof {
                    let w = choose|w: int|
                        0 <= w < self.entries@.len() && self.entries@[w].0@ == k@;
                    assert(w == i);
                }
                return Some(t);
            }
            i += 1;
        }
        None
    }

    /// Exports a point-in-time copy of the whole index.
    pub fn snapshot(&self) -> (r: ImageConfig)
        ensures
            r.api_handler_path@ == self.api_handler_path@,
            r.cache@.len() == self.entries@.len(),
            forall|i: int|
                0 <= i < self.entries@.len() ==> r.cache@[i].0@ == self.entries@[i].0@
                    && r.cache@[i].1@ == self.entries@[i].1@,
    {
        let n = self.entries.len();
        let mut cache: Vec<(Key, String)> = Vec::new();
        let mut i: usize = 0;
        while i < n
            invariant
                n == self.entries@.len(),
                i <= n,
                cache@.len() == i,
                forall|j: int|
                    0 <= j < i ==> cache@[j].0@ == self.entries@[j].0@ && cache@[j].1@
                        == self.entries@[j].1@,
            decreases n - i,
        {
            let k = clone_key(&self.entries[i].0);
            let t = self.entries[i].1.clone();
            cache.push((k, t));
            i += 1;
        }
        ImageConfig { api_handler_path: self.api_handler_path.clone(), cache }
    }
}

impl ImageConfig {
    /// Finds the inline placeholder for a key in a snapshot, as the
    /// rendering layer does before falling back to a request.
    pub fn find_placeholder(&self, k: &Key) -> (r: Option<String>)
        ensures
            r matches Some(t) ==> exists|i: int|
                0 <= i < self.cache@.len() && self.cache@[i].0@ == k@ && self.cache@[i].1@ == t@,
            r is None ==> forall|i: int| 0 <= i < self.cache@.len() ==> self.cache@[i].0@ != k@,
    {
        let n = self.cache.len();
        let mut i: usize = 0;
        while i < n
            invariant
                n == self.cache@.len(),
                i <= n,
                forall|j: int| 0 <= j < i ==> self.cache@[j].0@ != k@,
            decreases n - i,
        {
            if key_eq(&self.cache[i].0, k) {
                return Some(self.cache[i].1.clone());
            }
            i += 1;
        }
        None
    }
}

} // verus!
