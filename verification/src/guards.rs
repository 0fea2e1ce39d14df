//! Guard predicates and their per-compilation memoization.
//!
//! A guard is a predicate over the contract instance producing a boolean
//! policy clause. A cacheable guard's clause depends only on the contract
//! instance, so it is computed once per compilation and reused verbatim;
//! a fresh guard is recomputed on every reference. The identity of a guard
//! declaration — a small integer assigned at contract-construction time —
//! is the cache key, not its inputs.
use vstd::prelude::*;

use crate::clause::Clause;
use crate::clause::SpecClause;

verus! {

broadcast use vstd::std_specs::vec::group_vec_axioms, vstd::seq::group_seq_axioms;

/// A guard declaration: the clause its predicate produces, and whether
/// that computation may be memoized across the branches that reference it.
pub enum Guard {
    /// The clause depends only on the contract instance: safe to compute
    /// once and reuse verbatim across contexts.
    Cache(Clause),
    /// Must be recomputed per reference.
    Fresh(Clause),
}

/// The mathematical value of a `Guard`.
pub enum SpecGuard {
    Cache(SpecClause),
    Fresh(SpecClause),
}

impl View for Guard {
    type V = SpecGuard;

    open spec fn view(&self) -> SpecGuard {
        match self {
            Guard::Cache(c) => SpecGuard::Cache(c@),
            Guard::Fresh(c) => SpecGuard::Fresh(c@),
        }
    }
}

/// The clause a guard produces when evaluated.
pub open spec fn spec_guard_clause(g: SpecGuard) -> SpecClause {
    match g {
        SpecGuard::Cache(c) => c,
        SpecGuard::Fresh(c) => c,
    }
}

/// The clause an optional guard slot contributes: none when the slot's
/// factory yields no guard.
pub open spec fn spec_eval_slot(s: Option<SpecGuard>) -> Option<SpecClause> {
    match s {
        Option::None => Option::None,
        Option::Some(g) => Option::Some(spec_guard_clause(g)),
    }
}

/// The element-wise view of a guard table.
pub open spec fn view_guards(gs: Seq<Option<Guard>>) -> Seq<Option<SpecGuard>> {
    gs.map_values(
        |s: Option<Guard>|
            match s {
                Option::None => Option::<SpecGuard>::None,
                Option::Some(g) => Option::Some(g@),
            },
    )
}

/// What the cache remembers about one guard identity.
pub enum CacheState {
    /// The guard's factory has not been consulted yet.
    Unqueried,
    /// The factory yielded no guard; remembered permanently.
    Absent,
    /// A cacheable guard's clause, computed once at first encounter.
    Cached(Clause),
    /// The guard is fresh: its predicate runs anew on every reference.
    FreshGuard,
}

/// Memoizes guard computation for one compilation pass, so each distinct
/// cacheable guard is evaluated at most once however many branches
/// reference it. `evals[i]` counts how often guard `i`'s predicate ran.
pub struct GuardCache {
    /// Per guard identity, what has been learned so far.
    pub entries: Vec<CacheState>,
    /// Per guard identity, how many times its predicate was evaluated.
    pub evals: Vec<u64>,
}

/// The cache is consistent with the guard table it serves: nothing is
/// remembered that the table does not say, and a cacheable guard's
/// predicate has run at most once.
pub open spec fn cache_wf(c: GuardCache, guards: Seq<Option<SpecGuard>>) -> bool {
    &&& c.entries@.len() == guards.len()
    &&& c.evals@.len() == guards.len()
    &&& forall|i: int|
        0 <= i < guards.len() ==> match #[trigger] c.entries@[i] {
            CacheState::Unqueried => c.evals@[i] == 0,
            CacheState::Absent => guards[i] is None && c.evals@[i] == 0,
            CacheState::Cached(cl) => guards[i] matches Option::Some(g) && g is Cache
                && cl@ == spec_guard_clause(g) && c.evals@[i] == 1,
            CacheState::FreshGuard => guards[i] matches Option::Some(g) && g is Fresh,
        }
    &&& forall|i: int|
        (0 <= i < guards.len() && ((#[trigger] guards[i]) matches Option::Some(g) && g is Cache))
            ==> c.evals@[i] <= 1
}

impl GuardCache {
    /// A fresh cache for a table of `n` guard identities.
    pub fn new(n: usize) -> (r: GuardCache)
        ensures
            r.entries@.len() == n,
            r.evals@.len() == n,
            forall|i: int| 0 <= i < n ==> r.entries@[i] is Unqueried,
            forall|i: int| 0 <= i < n ==> r.evals@[i] == 0,
    {
        let mut entries: Vec<CacheState> = Vec::new();
        let mut evals: Vec<u64> = Vec::new();
        let mut i: usize = 0;
        while i < n
            invariant
                i <= n,
                entries@.len() == i as int,
                evals@.len() == i as int,
                forall|j: int| 0 <= j < i ==> entries@[j] is Unqueried,
                forall|j: int| 0 <= j < i ==> evals@[j] == 0,
            decreases n - i,
        {
            entries.push(CacheState::Unqueried);
            evals.push(0);
            i = i + 1;
        }
        GuardCache { entries, evals }
    }

    /// A fresh cache is consistent with any table of the same length.
    pub proof fn lemma_new_wf(c: GuardCache, guards: Seq<Option<SpecGuard>>)
        requires
            c.entries@.len() == guards.len(),
            c.evals@.len() == guards.len(),
            forall|i: int| 0 <= i < guards.len() ==> c.entries@[i] is Unqueried,
            forall|i: int| 0 <= i < guards.len() ==> c.evals@[i] == 0,
        ensures
            cache_wf(c, guards),
    {
    }

    /// Evaluate guard `i` of the table through the cache.
    ///
    /// On the first call for an identity the guard's factory is consulted;
    /// an absent guard is remembered as absent forever. A cacheable guard's
    /// clause is computed at that first encounter and replayed verbatim on
    /// every later call; a fresh guard's predicate runs on every call.
    pub fn get(&mut self, guards: &Vec<Option<Guard>>, i: usize) -> (r: Option<Clause>)
        requires
            cache_wf(*old(self), view_guards(guards@)),
            i < guards@.len(),
        ensures
            cache_wf(*final(self), view_guards(guards@)),
            final(self).entries@.len() == old(self).entries@.len(),
            final(self).evals@.len() == old(self).evals@.len(),
            forall|j: int|
                0 <= j < old(self).entries@.len() && j != i ==> final(self).entries@[j] == old(
                    self,
                ).entries@[j] && final(self).evals@[j] == old(self).evals@[j],
            match r {
                Option::None => view_guards(guards@)[i as int] is None,
                Option::Some(c) => view_guards(guards@)[i as int] matches Option::Some(g) && c@
                    == spec_guard_clause(g),
            },
            final(self).evals@[i as int] == match view_guards(guards@)[i as int] {
                Option::None => 0int,
                Option::Some(g) => if g is Fresh {
                    if old(self).evals@[i as int] < u64::MAX {
                        old(self).evals@[i as int] + 1int
                    } else {
                        u64::MAX as int
                    }
                } else {
                    1int
                },
            },
    {
        if matches!(&self.entries[i], CacheState::Unqueried) {
            match &guards[i] {
                Option::None => {
                    self.entries[i] = CacheState::Absent;
                },
                Option::Some(Guard::Cache(c)) => {
                    let cl = c.deep_clone();
                    self.entries[i] = CacheState::Cached(cl);
                    self.evals[i] = self.evals[i] + 1;
                },
                Option::Some(Guard::Fresh(_)) => {
                    self.entries[i] = CacheState::FreshGuard;
                },
            }
        }
        match &self.entries[i] {
            CacheState::Unqueried => None,
            CacheState::Absent => None,
            CacheState::Cached(c) => Some(c.deep_clone()),
            CacheState::FreshGuard => {
                if self.evals[i] < u64::MAX {
                    self.evals[i] = self.evals[i] + 1;
                }
                match &guards[i] {
                    Option::Some(Guard::Fresh(c)) => Some(c.deep_clone()),
                    _ => None,
                }
            },
        }
    }
}

} // verus!
