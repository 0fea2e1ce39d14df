//! Conditional inclusion of branches: each branch carries zero or more
//! independently evaluated conditions, merged left-to-right into one
//! effective directive that decides whether the branch participates in a
//! compilation, is omitted, or causes a hard failure.
use vstd::prelude::*;

verus! {

broadcast use vstd::std_specs::vec::group_vec_axioms, vstd::seq::group_seq_axioms;

/// The result of evaluating one conditional-inclusion condition.
#[derive(Debug, PartialEq, Eq)]
pub enum ConditionalCompileType {
    /// The branch is invalid; carries the ordered list of failure reasons.
    Fail(Vec<String>),
    /// The branch must produce at least one template or compilation fails.
    Required,
    /// The branch participates if it yields templates, and is silently
    /// ignored otherwise.
    NoConstraint,
    /// The branch is omitted entirely, without error.
    Skippable,
    /// The branch is omitted entirely, without error.
    Never,
    /// The branch participates if it yields templates and is pruned without
    /// error if it yields none.
    Nullable,
}

/// The mathematical value of a `ConditionalCompileType`.
pub enum SpecCond {
    Fail(Seq<Seq<char>>),
    Required,
    NoConstraint,
    Skippable,
    Never,
    Nullable,
}

/// The element-wise string view of a reason list.
pub open spec fn view_reasons(s: Seq<String>) -> Seq<Seq<char>> {
    s.map_values(|x: String| x@)
}

impl View for ConditionalCompileType {
    type V = SpecCond;

    open spec fn view(&self) -> SpecCond {
        match self {
            ConditionalCompileType::Fail(v) => SpecCond::Fail(view_reasons(v@)),
            ConditionalCompileType::Required => SpecCond::Required,
            ConditionalCompileType::NoConstraint => SpecCond::NoConstraint,
            ConditionalCompileType::Skippable => SpecCond::Skippable,
            ConditionalCompileType::Never => SpecCond::Never,
            ConditionalCompileType::Nullable => SpecCond::Nullable,
        }
    }
}

/// The merge of two condition results, left to right.
///
/// The precedence is a documented total order:
/// fail, then never, then skippable, then required, then nullable, then
/// no-constraint. Two failures accumulate their reasons in order, so every
/// failing condition on a branch stays visible.
pub open spec fn spec_merge(a: SpecCond, b: SpecCond) -> SpecCond {
    match (a, b) {
        (SpecCond::Fail(x), SpecCond::Fail(y)) => SpecCond::Fail(x + y),
        (SpecCond::Fail(x), _) => SpecCond::Fail(x),
        (_, SpecCond::Fail(y)) => SpecCond::Fail(y),
        (SpecCond::Never, _) => SpecCond::Never,
        (_, SpecCond::Never) => SpecCond::Never,
        (SpecCond::Skippable, _) => SpecCond::Skippable,
        (_, SpecCond::Skippable) => SpecCond::Skippable,
        (SpecCond::Required, _) => SpecCond::Required,
        (_, SpecCond::Required) => SpecCond::Required,
        (SpecCond::Nullable, _) => SpecCond::Nullable,
        (_, SpecCond::Nullable) => SpecCond::Nullable,
        (SpecCond::NoConstraint, SpecCond::NoConstraint) => SpecCond::NoConstraint,
    }
}

/// The effective directive of a condition list: the left fold of
/// `spec_merge` starting from no-constraint.
pub open spec fn spec_effective(cs: Seq<SpecCond>) -> SpecCond
    decreases cs,
{
    if cs.len() == 0 {
        SpecCond::NoConstraint
    } else {
        spec_merge(spec_effective(cs.drop_last()), cs.last())
    }
}

/// The element-wise view of a condition list.
pub open spec fn view_conds(cs: Seq<ConditionalCompileType>) -> Seq<SpecCond> {
    cs.map_values(|c: ConditionalCompileType| c@)
}

impl ConditionalCompileType {
    /// An identical copy of this condition result.
    pub fn deep_clone(&self) -> (r: ConditionalCompileType)
        ensures
            r@ == self@,
    {
        match self {
            ConditionalCompileType::Fail(v) => ConditionalCompileType::Fail(clone_strings(v)),
            ConditionalCompileType::Required => ConditionalCompileType::Required,
            ConditionalCompileType::NoConstraint => ConditionalCompileType::NoConstraint,
            ConditionalCompileType::Skippable => ConditionalCompileType::Skippable,
            ConditionalCompileType::Never => ConditionalCompileType::Never,
            ConditionalCompileType::Nullable => ConditionalCompileType::Nullable,
        }
    }

    /// Merge `other` into `self`, left to right, following the documented
    /// total order of `spec_merge`.
    pub fn merge(self, other: ConditionalCompileType) -> (r: ConditionalCompileType)
        ensures
            r@ == spec_merge(self@, other@),
    {
        match (self, other) {
            (ConditionalCompileType::Fail(mut x), ConditionalCompileType::Fail(y)) => {
                let mut y = y;
                let ghost vx = x@;
                let ghost vy = y@;
                x.append(&mut y);
                proof {
                    assert(view_reasons(vx + vy) =~= view_reasons(vx) + view_reasons(vy));
                }
                ConditionalCompileType::Fail(x)
            },
            (ConditionalCompileType::Fail(x), _) => ConditionalCompileType::Fail(x),
            (_, ConditionalCompileType::Fail(y)) => ConditionalCompileType::Fail(y),
            (ConditionalCompileType::Never, _) => ConditionalCompileType::Never,
            (_, ConditionalCompileType::Never) => ConditionalCompileType::Never,
            (ConditionalCompileType::Skippable, _) => ConditionalCompileType::Skippable,
            (_, ConditionalCompileType::Skippable) => ConditionalCompileType::Skippable,
            (ConditionalCompileType::Required, _) => ConditionalCompileType::Required,
            (_, ConditionalCompileType::Required) => ConditionalCompileType::Required,
            (ConditionalCompileType::Nullable, _) => ConditionalCompileType::Nullable,
            (_, ConditionalCompileType::Nullable) => ConditionalCompileType::Nullable,
            (ConditionalCompileType::NoConstraint, ConditionalCompileType::NoConstraint) => {
                ConditionalCompileType::NoConstraint
            },
        }
    }

    /// The effective directive of a branch's condition list: the left fold
    /// of `merge` starting from no-constraint.
    pub fn effective(conds: &Vec<ConditionalCompileType>) -> (r: ConditionalCompileType)
        ensures
            r@ == spec_effective(view_conds(conds@)),
    {
        let mut acc = ConditionalCompileType::NoConstraint;
        let mut i: usize = 0;
        while i < conds.len()
            invariant
                i <= conds.len(),
                acc@ == spec_effective(view_conds(conds@).subrange(0, i as int)),
            decreases conds.len() - i,
        {
            acc = acc.merge(conds[i].deep_clone());
            proof {
                let vs = view_conds(conds@);
                let q = vs.subrange(0, i + 1);
                assert(q.drop_last() =~= vs.subrange(0, i as int));
                assert(q.last() == vs[i as int]);
            }
            i = i + 1;
        }
        proof {
            assert(view_conds(conds@).subrange(0, conds@.len() as int) =~= view_conds(conds@));
        }
        acc
    }
}

/// A copy of a list of strings, equal to the original.
pub fn clone_strings(v: &Vec<String>) -> (r: Vec<String>)
    ensures
        r@.len() == v@.len(),
        view_reasons(r@) == view_reasons(v@),
{
    let mut out: Vec<String> = Vec::new();
    let mut i: usize = 0;
    while i < v.len()
        invariant
            i <= v.len(),
            out@.len() == i as int,
            forall|j: int| 0 <= j < i ==> #[trigger] out@[j]@ == v@[j]@,
        decreases v.len() - i,
    {
        out.push(v[i].clone());
        i = i + 1;
    }
    proof {
        assert(view_reasons(out@) =~= view_reasons(v@));
    }
    out
}

} // verus!
