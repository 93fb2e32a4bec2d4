//! The build coordinator: deduplicates concurrent builds per key and bounds
//! how many transform executions run at once.
//!
//! The coordinator is the decision core of the concurrent engine: the
//! hosting process serializes access to it (a mutex around this state),
//! performs the suspensions and the actual transform work, and feeds every
//! completion back in. One [`BuildTicket`] exists per in-flight key, so at
//! most one transform execution is ever in flight for a key; tickets beyond
//! the slot bound wait in a queue — deliberate backpressure, never an error.
//! Waiters attach to the ticket's completion notification, so one build
//! serves every concurrent caller of the same key.

use vstd::prelude::*;
use crate::artifact::Artifact;
use crate::error::EngineError;
use crate::index::Index;
use crate::key::{Key, KeyView, clone_key};
use crate::store::{Store, bytes_eq, file_name_for, store_name};

verus! {

/// One in-flight build: the key under construction and its store name.
pub struct BuildTicket {
    pub key: Key,
    pub name: Vec<u8>,
}

/// What a caller is told to do for one request.
pub enum Resolution {
    /// The artifact is already durable: serve it, no build.
    Hit(Artifact),
    /// A build for this key is already in flight: await its result.
    Joined,
    /// A slot was free: this caller runs the build, then reports `finish`.
    Started,
    /// All slots are busy: the ticket waits for a slot.
    Queued,
}

/// The coordinator state, guarded by the hosting process's lock.
pub struct Coordinator {
    /// Slot bound: how many builds may execute at once.
    pub capacity: usize,
    pub store: Store,
    pub index: Index,
    /// Tickets whose build holds an execution slot.
    pub running: Vec<BuildTicket>,
    /// Tickets waiting for a slot.
    pub queued: Vec<BuildTicket>,
}

impl Coordinator {
    /// A build for this name holds a slot.
    pub open spec fn has_running(self, name: Seq<u8>) -> bool {
        exists|i: int| 0 <= i < self.running@.len() && self.running@[i].name@ == name
    }

    /// A build for this name waits for a slot.
    pub open spec fn has_queued(self, name: Seq<u8>) -> bool {
        exists|i: int| 0 <= i < self.queued@.len() && self.queued@[i].name@ == name
    }

    /// A ticket for this name exists: a build is in flight.
    pub open spec fn has_ticket(self, name: Seq<u8>) -> bool {
        self.has_running(name) || self.has_queued(name)
    }

    /// Every invariant of the coordinator: at most `capacity` slots held; at
    /// most one ticket per name, and none for an already-built name, so for
    /// any key exactly one build is ever in flight at a time; every indexed
    /// placeholder is durably stored.
    pub open spec fn wf(self) -> bool {
        &&& self.capacity >= 1
    &&& self.running@.len() <= self.capacity
    &&& self.store.wf()
    &&& self.index.wf()
    &&& (forall|i: int|
            0 <= i < self.running@.len() ==> (#[trigger] self.running@[i]).name@ == store_name(
                self.running@[i].key@,
            ))
    &&& (forall|i: int|
            0 <= i < self.queued@.len() ==> (#[trigger] self.queued@[i]).name@ == store_name(
                self.queued@[i].key@,
            ))
    &&& (forall|i: int, j: int|
            0 <= i < j < self.running@.len() ==> self.running@[i].name@ != self.running@[j].name@)
    &&& (forall|i: int, j: int|
            0 <= i < j < self.queued@.len() ==> self.queued@[i].name@ != self.queued@[j].name@)
    &&& (forall|i: int, j: int|
            0 <= i < self.running@.len() && 0 <= j < self.queued@.len()
                ==> self.running@[i].name@ != self.queued@[j].name@)
    &&& (forall|i: int|
            0 <= i < self.running@.len() ==> !self.store.spec_has(
                (#[trigger] self.running@[i]).name@,
            ))
    &&& (forall|i: int|
            0 <= i < self.queued@.len() ==> !self.store.spec_has(
                (#[trigger] self.queued@[i]).name@,
            ))
    &&& (forall|i: int|
            0 <= i < self.index.entries@.len() ==> self.store.spec_has(
                store_name((#[trigger] self.index.entries@[i]).0@),
            ))
    }

    /// A fresh engine over an empty store: construction-time parameters are
    /// the slot bound and the handler path prefix the index exports.
    pub fn new(capacity: usize, api_handler_path: String) -> (r: Coordinator)
        requires
            capacity >= 1,
        ensures
            r.wf(),
            r.capacity == capacity,
            forall|n: Seq<u8>| !r.store.spec_has(n),
            forall|n: Seq<u8>| !r.has_ticket(n),
            r.index.entries@.len() == 0,
            r.index.api_handler_path@ == api_handler_path@,
    {
        Coordinator {
            capacity,
            store: Store::new(),
            index: Index::new(api_handler_path),
            running: Vec::new(),
            queued: Vec::new(),
        }
    }

    fn find_ticket(&self, name: &Vec<u8>) -> (r: bool)
        ensures
            r == self.has_ticket(name@),
    {
        let mut i: usize = 0;
        let nr = self.running.len();
        while i < nr
            invariant
                nr == self.running@.len(),
                i <= nr,
                forall|j: int| 0 <= j < i ==> self.running@[j].name@ != name@,
            decreases nr - i,
        {
            if bytes_eq(&self.running[i].name, name) {
                return true;
            }
            i += 1;
        }
        let nq = self.queued.len();
        let mut j: usize = 0;
        while j < nq
            invariant
                nq == self.queued@.len(),
                j <= nq,
                forall|m: int| 0 <= m < j ==> self.queued@[m].name@ != name@,
                forall|m: int| 0 <= m < self.running@.len() ==> self.running@[m].name@ != name@,
            decreases nq - j,
        {
            if bytes_eq(&self.queued[j].name, name) {
                return true;
            }
            j += 1;
        }
        false
    }

    /// Resolves one request. A durable artifact is a pure hit: it is
    /// returned at once, nothing changes, and no build runs. A key with a
    /// ticket joins that build instead of starting a second one — the sole
    /// deduplication mechanism. Otherwise a ticket is created, and it takes
    /// a slot if one is free; with all slots busy it waits: the build does
    /// not begin.
    pub fn resolve(&mut self, k: &Key) -> (r: Resolution)
        requires
            old(self).wf(),
        ensures
            final(self).wf(),
            final(self).capacity == old(self).capacity,
            final(self).store == old(self).store,
            final(self).index == old(self).index,
            old(self).store.spec_has(store_name(k@)) ==> (r matches Resolution::Hit(a)
                && a@ == old(self).store.spec_get(store_name(k@))
                && *final(self) == *old(self)),
            (!old(self).store.spec_has(store_name(k@)) && old(self).has_ticket(store_name(k@)))
                ==> (r is Joined && *final(self) == *old(self)),
            (!old(self).store.spec_has(store_name(k@)) && !old(self).has_ticket(store_name(k@))
                && old(self).running@.len() < old(self).capacity) ==> (r is Started
                && final(self).running@.len() == old(self).running@.len() + 1
                && final(self).running@.subrange(0, old(self).running@.len() as int)
                    == old(self).running@
                && final(self).running@.last().key@ == k@
                && final(self).queued == old(self).queued
                && final(self).has_running(store_name(k@))),
            (!old(self).store.spec_has(store_name(k@)) && !old(self).has_ticket(store_name(k@))
                && old(self).running@.len() >= old(self).capacity) ==> (r is Queued
                && final(self).running == old(self).running
                && final(self).queued@.len() == old(self).queued@.len() + 1
                && final(self).queued@.subrange(0, old(self).queued@.len() as int)
                    == old(self).queued@
                && final(self).queued@.last().key@ == k@
                && final(self).has_queued(store_name(k@))),
    {
        let name = file_name_for(k);
        match self.store.get(&name) {
            Some(a) => {
                return Resolution::Hit(a);
            },
            None => {},
        }
        if self.find_ticket(&name) {
            return Resolution::Joined;
        }
        let ticket = BuildTicket { key: clone_key(k), name };
        if self.running.len() < self.capacity {
            let ghost oldrun = self.running@;
            self.running.push(ticket);
            proof {
                assert(self.running@.subrange(0, oldrun.len() as int) =~= oldrun);
                assert(self.running@[oldrun.len() as int].name@ == store_name(k@));
            }
            Resolution::Started
        } else {
            let ghost oldq = self.queued@;
            self.queued.push(ticket);
            proof {
                assert(self.queued@.subrange(0, oldq.len() as int) =~= oldq);
                assert(self.queued@[oldq.len() as int].name@ == store_name(k@));
            }
            Resolution::Queued
        }
    }

    fn position_running(&self, name: &Vec<u8>) -> (i: usize)
        requires
            self.has_running(name@),
        ensures
            i < self.running@.len(),
            self.running@[i as int].name@ == name@,
    {
        let n = self.running.len();
        let mut i: usize = 0;
        while i < n
            invariant
                n == self.running@.len(),
                i <= n,
                self.has_running(name@),
                forall|j: int| 0 <= j < i ==> self.running@[j].name@ != name@,
            decreases n - i,
        {
            if bytes_eq(&self.running[i].name, name) {
                return i;
            }
            i += 1;
        }
        proof {
            assert(false);
        }
        0
    }

    /// Completes the build this caller was told to run. On success the
    /// artifact is made durable first, and a blur placeholder becomes
    /// visible in the index — an entry is visible only after its bytes are
    /// stored. On failure nothing is cached: the next request for the same
    /// key starts a fresh build. Either way the ticket is gone and the slot
    /// is free; every waiter of the ticket receives this same outcome.
    #[verifier::rlimit(100)]
    #[verifier::spinoff_prover]
    pub fn finish(&mut self, k: &Key, outcome: Result<Artifact, EngineError>)
        requires
            old(self).wf(),
            old(self).has_running(store_name(k@)),
            forall|i: int|
                0 <= i < old(self).running@.len() && (#[trigger] old(self).running@[i]).name@
                    == store_name(k@) ==> old(self).running@[i].key@ == k@,
            outcome matches Ok(a) ==> ((a.inline_text is Some) <==> (k@.transform is Blur)),
        ensures
            final(self).wf(),
            final(self).capacity == old(self).capacity,
            final(self).queued == old(self).queued,
            !final(self).has_running(store_name(k@)),
            final(self).running@.len() == old(self).running@.len() - 1,
            forall|n: Seq<u8>|
                n != store_name(k@) ==> final(self).has_running(n) == old(self).has_running(n),
            outcome matches Ok(a) ==> {
                &&& final(self).store.spec_has(store_name(k@))
                &&& final(self).store.spec_get(store_name(k@)) == a@
                &&& (forall|m: Seq<u8>|
                    m != store_name(k@) ==> final(self).store.spec_has(m)
                        == old(self).store.spec_has(m))
                &&& (forall|m: Seq<u8>|
                    m != store_name(k@) && old(self).store.spec_has(m)
                        ==> final(self).store.spec_get(m) == old(self).store.spec_get(m))
            },
            outcome matches Ok(a) ==> {
                &&& (a.inline_text matches Some(t) ==> final(self).index.contains(k@)
                    && final(self).index.text_of(k@) == t@
                    && (forall|m: KeyView|
                        m != k@ ==> final(self).index.contains(m) == old(self).index.contains(
                            m,
                        )))
                &&& (a.inline_text is None ==> final(self).index == old(self).index)
            },
            outcome is Err ==> final(self).store == old(self).store
                && final(self).index == old(self).index,
    {
        let name = file_name_for(k);
        let i = self.position_running(&name);
        let ghost oldrun = self.running@;
        let _ticket = self.running.remove(i);
        let ghost midrun = self.running@;
        proof {
            assert(oldrun == old(self).running@);
            assert forall|n: Seq<u8>| n != store_name(k@) implies self.has_running(n) == (
            exists|w: int| 0 <= w < oldrun.len() && oldrun[w].name@ == n) by {
                let run = self.running@;
                if exists|w: int| 0 <= w < oldrun.len() && oldrun[w].name@ == n {
                    let w = choose|w: int| 0 <= w < oldrun.len() && oldrun[w].name@ == n;
                    if w < i {
                        assert(run[w].name@ == n);
                    } else {
                        assert(w > i);
                        assert(run[w - 1] == oldrun[w]);
                    }
                }
                if self.has_running(n) {
                    let w = choose|w: int| 0 <= w < run.len() && run[w].name@ == n;
                    if w < i {
                        assert(oldrun[w].name@ == n);
                    } else {
                        assert(oldrun[w + 1].name@ == n);
                    }
                }
            }
            assert(!self.has_running(store_name(k@))) by {
                let run = self.running@;
                if self.has_running(store_name(k@)) {
                    let w = choose|w: int|
                        0 <= w < run.len() && run[w].name@ == store_name(k@);
                    if w < i {
                        assert(oldrun[w].name@ == oldrun[i as int].name@);
                    } else {
                        assert(oldrun[w + 1].name@ == oldrun[i as int].name@);
                    }
                }
            }
        }
        match outcome {
            Ok(a) => {
                proof {
                    if self.index.contains(k@) {
                        let w = choose|w: int|
                            0 <= w < self.index.entries@.len() && self.index.entries@[w].0@ == k@;
                        assert(self.store.spec_has(store_name(k@)));
                    }
                }
                match &a.inline_text {
                    Some(t) => {
                        let text = t.clone();
                        self.index.insert(clone_key(k), text);
                    },
                    None => {},
                }
                self.store.put(name, a);
            },
            Err(_) => {},
        }
        proof {
            assert(self.running@ == midrun);
            assert forall|n: Seq<u8>| n != store_name(k@) implies self.has_running(n) == old(
                self,
            ).has_running(n) by {
                if old(self).has_running(n) {
                    let w = choose|w: int|
                        0 <= w < oldrun.len() && oldrun[w].name@ == n;
                    if w < i {
                        assert(midrun[w].name@ == n);
                    } else {
                        assert(midrun[w - 1] == oldrun[w]);
                    }
                }
                if self.has_running(n) {
                    let w = choose|w: int|
                        0 <= w < midrun.len() && midrun[w].name@ == n;
                    if w < i {
                        assert(oldrun[w].name@ == n);
                    } else {
                        assert(oldrun[w + 1].name@ == n);
                    }
                }
            }
            assert(!self.has_running(store_name(k@))) by {
                if self.has_running(store_name(k@)) {
                    let w = choose|w: int|
                        0 <= w < midrun.len() && midrun[w].name@ == store_name(k@);
                    if w < i {
                        assert(oldrun[w].name@ == oldrun[i as int].name@);
                    } else {
                        assert(oldrun[w + 1].name@ == oldrun[i as int].name@);
                    }
                }
            }
        }
    }

    /// Hands a freed slot to the oldest waiting ticket, if any: its build
    /// may now begin — and not before, which is the backpressure bound.
    pub fn promote_next(&mut self) -> (r: Option<Key>)
        requires
            old(self).wf(),
        ensures
            final(self).wf(),
            final(self).capacity == old(self).capacity,
            final(self).store == old(self).store,
            final(self).index == old(self).index,
            (old(self).running@.len() < old(self).capacity && old(self).queued@.len() > 0)
                ==> (r matches Some(pk)
                && pk@ == old(self).queued@[0].key@
                && final(self).queued@ == old(self).queued@.drop_first()
                && final(self).running@.len() == old(self).running@.len() + 1
                && final(self).has_running(store_name(pk@))
                && final(self).running@.subrange(0, old(self).running@.len() as int)
                    == old(self).running@),
            !(old(self).running@.len() < old(self).capacity && old(self).queued@.len() > 0) ==> (r
                is None && *final(self) == *old(self)),
    {
        if self.running.len() < self.capacity && self.queued.len() > 0 {
            let ghost oldrun = self.running@;
            let ghost oldq = self.queued@;
            let ticket = self.queued.remove(0);
            let pk = clone_key(&ticket.key);
            self.running.push(ticket);
            proof {
                assert(self.queued@ =~= oldq.drop_first());
                assert(self.running@.subrange(0, oldrun.len() as int) =~= oldrun);
                assert(self.running@[oldrun.len() as int] == oldq[0]);
                assert(forall|j: int|
                    0 <= j < self.queued@.len() ==> self.queued@[j] == oldq[j + 1]);
            }
            Some(pk)
        } else {
            None
        }
    }
}

} // verus!
