//! Transient fact handles exchanged with embedding applications, and the
//! one-to-one map between an engine's exported handles and its facts.

use std::collections::HashMap;
use vstd::prelude::*;

verus! {

/// An opaque, transient fact handle. Stable while that fact remains in one
/// engine; never a persisted application identity or a RETE slot-map key.
#[derive(Clone, Copy, Debug, PartialEq, Eq, Hash)]
pub struct FactHandle(u64);

impl View for FactHandle {
    type V = u64;

    closed spec fn view(&self) -> u64 {
        self.0
    }
}

impl FactHandle {
    /// Reconstitute the numeric representation used by embedding adapters.
    /// Unknown, foreign and stale numbers are rejected by engine lookups.
    pub fn from_raw(raw: u64) -> (handle: Self)
        ensures
            handle@ == raw,
    {
        FactHandle(raw)
    }

    /// The numeric representation used by embedding adapters.
    pub fn as_raw(self) -> (raw: u64)
        ensures
            raw == self@,
    {
        self.0
    }
}

/// A handle is its numeric representation: handles with the same number are
/// the same handle, so `from_raw` of `as_raw` gives the handle back.
pub proof fn lemma_fact_handle_round_trip(handle: FactHandle, other: FactHandle)
    ensures
        handle@ == other@ ==> handle == other,
{
}

/// Whether `handles` (handle to fact) and `facts` (fact to handle) are
/// inverse to each other.
pub open spec fn handles_inverse(handles: Map<u64, u64>, facts: Map<u64, u64>) -> bool {
    &&& forall|h: u64| #[trigger] handles.contains_key(h) ==> facts.contains_key(handles[h]) && facts[handles[h]] == h
    &&& forall|f: u64| #[trigger] facts.contains_key(f) ==> handles.contains_key(facts[f]) && handles[facts[f]] == f
}

/// The handles an engine exported, each paired with one fact, where a fact
/// is named by the 64-bit raw form of its identifier: a fact has at most
/// one handle and a handle names at most one fact.
#[derive(Debug)]
pub struct FactHandles {
    by_handle: HashMap<u64, u64>,
    by_fact: HashMap<u64, u64>,
}

impl FactHandles {
    #[verifier::type_invariant]
    spec fn inv(self) -> bool {
        handles_inverse(self.by_handle@, self.by_fact@)
    }

    /// The fact each exported handle names.
    pub closed spec fn handles_view(self) -> Map<u64, u64> {
        self.by_handle@
    }

    /// The handle each exported fact has.
    pub closed spec fn facts_view(self) -> Map<u64, u64> {
        self.by_fact@
    }

    /// No handle exported.
    pub fn new() -> (handles: Self)
        ensures
            handles.handles_view() == Map::<u64, u64>::empty(),
            handles.facts_view() == Map::<u64, u64>::empty(),
            handles_inverse(handles.handles_view(), handles.facts_view()),
    {
        FactHandles { by_handle: HashMap::new(), by_fact: HashMap::new() }
    }

    /// The handle of `fact`: the one it already has, or else `fresh`, an
    /// identity no handle of this map uses.
    pub fn export(&mut self, fact: u64, fresh: u64) -> (handle: FactHandle)
        requires
            !old(self).handles_view().contains_key(fresh),
        ensures
            old(self).facts_view().contains_key(fact) ==> {
                &&& handle@ == old(self).facts_view()[fact]
                &&& final(self).handles_view() == old(self).handles_view()
                &&& final(self).facts_view() == old(self).facts_view()
            },
            !old(self).facts_view().contains_key(fact) ==> {
                &&& handle@ == fresh
                &&& final(self).handles_view() == old(self).handles_view().insert(fresh, fact)
                &&& final(self).facts_view() == old(self).facts_view().insert(fact, fresh)
            },
            handles_inverse(final(self).handles_view(), final(self).facts_view()),
    {
        broadcast use vstd::std_specs::hash::group_hash_axioms;
        proof {
            use_type_invariant(&*self);
        }
        match self.by_fact.get(&fact) {
            Some(handle) => FactHandle(*handle),
            None => {
                let mut taken = FactHandles::new();
                std::mem::swap(&mut taken, self);
                let FactHandles { mut by_handle, mut by_fact } = taken;
                by_fact.insert(fact, fresh);
                by_handle.insert(fresh, fact);
                proof {
                    assert forall|h: u64| #[trigger] by_handle@.contains_key(h) implies by_fact@.contains_key(by_handle@[h])
                        && by_fact@[by_handle@[h]] == h by {
                        if h != fresh {
                            assert(old(self).by_handle@.contains_key(h));
                            assert(old(self).by_handle@[h] != fact);
                        }
                    }
                    assert forall|f: u64| #[trigger] by_fact@.contains_key(f) implies by_handle@.contains_key(by_fact@[f])
                        && by_handle@[by_fact@[f]] == f by {
                        if f != fact {
                            assert(old(self).by_fact@.contains_key(f));
                            assert(old(self).by_fact@[f] != fresh);
                        }
                    }
                }
                *self = FactHandles { by_handle, by_fact };
                FactHandle(fresh)
            },
        }
    }

    /// The handle `fact` was exported under, if any.
    pub fn handle_of(&self, fact: u64) -> (handle: Option<FactHandle>)
        ensures
            match handle {
                Some(h) => self.facts_view().contains_key(fact) && h@ == self.facts_view()[fact],
                None => !self.facts_view().contains_key(fact),
            },
    {
        broadcast use vstd::std_specs::hash::group_hash_axioms;
        match self.by_fact.get(&fact) {
            Some(handle) => Some(FactHandle(*handle)),
            None => None,
        }
    }

    /// The fact a handle names, if it was exported and not removed.
    pub fn resolve(&self, handle: FactHandle) -> (fact: Option<u64>)
        ensures
            fact == if self.handles_view().contains_key(handle@) {
                Some(self.handles_view()[handle@])
            } else {
                None::<u64>
            },
    {
        broadcast use vstd::std_specs::hash::group_hash_axioms;
        match self.by_handle.get(&handle.0) {
            Some(fact) => Some(*fact),
            None => None,
        }
    }

    /// Forget the handle of a retracted fact.
    pub fn remove(&mut self, fact: u64)
        ensures
            final(self).facts_view() == old(self).facts_view().remove(fact),
            old(self).facts_view().contains_key(fact) ==> final(self).handles_view()
                == old(self).handles_view().remove(old(self).facts_view()[fact]),
            !old(self).facts_view().contains_key(fact) ==> final(self).handles_view()
                == old(self).handles_view(),
            handles_inverse(final(self).handles_view(), final(self).facts_view()),
    {
        broadcast use vstd::std_specs::hash::group_hash_axioms;
        proof {
            use_type_invariant(&*self);
        }
        let mut taken = FactHandles::new();
        std::mem::swap(&mut taken, self);
        let FactHandles { mut by_handle, mut by_fact } = taken;
        if let Some(handle) = by_fact.remove(&fact) {
            by_handle.remove(&handle);
        }
        *self = FactHandles { by_handle, by_fact };
    }

    /// Forget every handle, as reset and clear do.
    pub fn clear_facts(&mut self)
        ensures
            final(self).handles_view() == Map::<u64, u64>::empty(),
            final(self).facts_view() == Map::<u64, u64>::empty(),
            handles_inverse(final(self).handles_view(), final(self).facts_view()),
    {
        *self = FactHandles::new();
    }

    /// Whether stale entries should be reclaimed: only once the map holds
    /// more than twice the live facts plus 256, so that reclaiming stays
    /// amortized.
    pub fn prune_needed(&self, live_facts: usize) -> (needed: bool)
        ensures
            needed == (self.facts_view().len() > if live_facts * 2 + 256 <= usize::MAX {
                live_facts * 2 + 256
            } else {
                usize::MAX as int
            }),
    {
        broadcast use vstd::std_specs::hash::group_hash_axioms;
        let threshold = if live_facts <= (usize::MAX - 256) / 2 {
            live_facts * 2 + 256
        } else {
            usize::MAX
        };
        self.by_fact.len() > threshold
    }
}

/// A handle resolves to the fact it was exported for, and exporting that
/// fact again gives the same handle; once the fact is removed its handle
/// resolves to nothing. Stated over the map's two directions, which every
/// operation leaves inverse to each other.
pub proof fn lemma_export_resolve_round_trip(handles: Map<u64, u64>, facts: Map<u64, u64>, fact: u64, fresh: u64)
    requires
        handles_inverse(handles, facts),
        !handles.contains_key(fresh),
    ensures
        ({
            let exported = facts.contains_key(fact);
            let handle = if exported { facts[fact] } else { fresh };
            let h = if exported { handles } else { handles.insert(fresh, fact) };
            let f = if exported { facts } else { facts.insert(fact, fresh) };
            &&& h.contains_key(handle) && h[handle] == fact
            &&& f.contains_key(fact) && f[fact] == handle
            &&& !h.remove(f[fact]).contains_key(handle)
        }),
{
}

/// Distinct facts have distinct handles: in a map whose two directions are
/// inverse, as every operation leaves them, two exported facts never share
/// a handle.
pub proof fn lemma_distinct_facts_distinct_handles(handles: Map<u64, u64>, facts: Map<u64, u64>, f: u64, g: u64)
    requires
        handles_inverse(handles, facts),
        facts.contains_key(f),
        facts.contains_key(g),
        f != g,
    ensures
        facts[f] != facts[g],
{
    assert(handles[facts[f]] == f);
    assert(handles[facts[g]] == g);
}

} // verus!
