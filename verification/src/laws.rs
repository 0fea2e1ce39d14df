//! Laws of the compilation pipeline, stated and proved over its
//! mathematical model.
use vstd::prelude::*;

use crate::compiler::SpecBook;
use crate::compiler::SpecBranchData;
use crate::compiler::SpecCompileError;
use crate::compiler::SpecContract;
use crate::compiler::SpecTemplateSource;
use crate::compiler::fo_data;
use crate::compiler::initial_book;
use crate::compiler::spec_book_fold;
use crate::compiler::spec_book_one;
use crate::compiler::spec_compile;
use crate::compiler::spec_finish_clauses;
use crate::compiler::spec_finish_gate;
use crate::compiler::spec_first_template_error;
use crate::compiler::spec_lookup;
use crate::compiler::spec_ok_templates;
use crate::compiler::spec_process_branch;
use crate::compiler::spec_stage;
use crate::compiler::spec_template_clauses;
use crate::clause::SpecClause;
use crate::conditional::SpecCond;
use crate::conditional::spec_effective;
use crate::guards::GuardCache;
use crate::guards::SpecGuard;
use crate::guards::cache_wf;
use crate::template::SpecTemplate;
use crate::template::commitment_hash;

verus! {

broadcast use vstd::seq::group_seq_axioms;

/// The clauses a whole compilation gathers: the surviving enforced and
/// suggested branch clauses, then the finish gate.
pub open spec fn spec_all_clauses(
    c: SpecContract,
    cs1: Seq<SpecClause>,
    cs2: Seq<SpecClause>,
) -> Seq<SpecClause> {
    cs1 + cs2 + spec_finish_gate(spec_finish_clauses(c.guards, c.finish_guards))
}

/// When exactly one clause survives resolution, the policy is that clause
/// itself: no spurious threshold wrapper is added.
pub proof fn lemma_single_clause_policy(
    c: SpecContract,
    cs1: Seq<SpecClause>,
    cs2: Seq<SpecClause>,
    bk1: SpecBook,
    bk2: SpecBook,
)
    requires
        spec_stage(c.guards, c.thens, true, initial_book()) == Result::<
            (Seq<SpecClause>, SpecBook),
            SpecCompileError,
        >::Ok((cs1, bk1)),
        spec_stage(
            c.guards,
            fo_data(c.finish_ors),
            false,
            SpecBook { m: Seq::empty(), min: bk1.min, max: bk1.max },
        ) == Result::<(Seq<SpecClause>, SpecBook), SpecCompileError>::Ok((cs2, bk2)),
        spec_all_clauses(c, cs1, cs2).len() == 1,
    ensures
        spec_compile(c) matches Result::Ok(pre) && pre.policy == spec_all_clauses(c, cs1, cs2)[0],
{
}

/// When no clause survives resolution, compilation fails with the
/// empty-policy error.
pub proof fn lemma_empty_policy(
    c: SpecContract,
    cs1: Seq<SpecClause>,
    cs2: Seq<SpecClause>,
    bk1: SpecBook,
    bk2: SpecBook,
)
    requires
        spec_stage(c.guards, c.thens, true, initial_book()) == Result::<
            (Seq<SpecClause>, SpecBook),
            SpecCompileError,
        >::Ok((cs1, bk1)),
        spec_stage(
            c.guards,
            fo_data(c.finish_ors),
            false,
            SpecBook { m: Seq::empty(), min: bk1.min, max: bk1.max },
        ) == Result::<(Seq<SpecClause>, SpecBook), SpecCompileError>::Ok((cs2, bk2)),
        spec_all_clauses(c, cs1, cs2).len() == 0,
    ensures
        spec_compile(c) == Result::<crate::compiler::SpecPre, SpecCompileError>::Err(
            SpecCompileError::EmptyPolicy,
        ),
{
}

/// An enforced branch that must produce templates but yields none fails
/// the whole compilation with the missing-templates error.
pub proof fn lemma_required_missing_templates(
    table: Seq<Option<SpecGuard>>,
    d: SpecBranchData,
    ts: Seq<Result<SpecTemplate, Seq<char>>>,
)
    requires
        d.templates == SpecTemplateSource::Yields(ts),
        spec_first_template_error(ts) is None,
        spec_ok_templates(ts).len() == 0,
        spec_effective(d.conds) is Required || spec_effective(d.conds) is NoConstraint,
    ensures
        spec_process_branch(table, d, true) == Result::<
            Option<SpecClause>,
            SpecCompileError,
        >::Err(SpecCompileError::MissingTemplates),
{
    assert(spec_template_clauses(ts).len() == 0);
}

/// The same branch declared nullable instead prunes silently: it
/// contributes nothing and raises no error.
pub proof fn lemma_nullable_prunes(
    table: Seq<Option<SpecGuard>>,
    d: SpecBranchData,
    ts: Seq<Result<SpecTemplate, Seq<char>>>,
)
    requires
        d.templates == SpecTemplateSource::Yields(ts),
        spec_first_template_error(ts) is None,
        spec_ok_templates(ts).len() == 0,
        spec_effective(d.conds) is Nullable,
    ensures
        spec_process_branch(table, d, true) == Result::<
            Option<SpecClause>,
            SpecCompileError,
        >::Ok(Option::None),
{
    assert(spec_template_clauses(ts).len() == 0);
}

/// A branch failure is total: whatever error the enforced stage stops on —
/// a missing template, a failing condition, a failing template — is the
/// whole compilation's result, with no partial or degraded artifact.
pub proof fn lemma_branch_error_decides_compilation(c: SpecContract, e: SpecCompileError)
    requires
        spec_stage(c.guards, c.thens, true, initial_book()) == Result::<
            (Seq<SpecClause>, SpecBook),
            SpecCompileError,
        >::Err(e),
    ensures
        spec_compile(c) == Result::<crate::compiler::SpecPre, SpecCompileError>::Err(e),
{
}

/// No two entries of a commitment map share a key.
pub open spec fn keys_distinct(m: Seq<(Seq<u8>, SpecTemplate)>) -> bool {
    forall|i: int, j: int| 0 <= i < j < m.len() ==> (#[trigger] m[i]).0 != (#[trigger] m[j]).0
}

/// A key a lookup does not find appears nowhere in the map.
pub proof fn lemma_lookup_none_absent(m: Seq<(Seq<u8>, SpecTemplate)>, k: Seq<u8>)
    requires
        spec_lookup(m, k) is None,
    ensures
        forall|i: int| 0 <= i < m.len() ==> (#[trigger] m[i]).0 != k,
    decreases m,
{
    if m.len() > 0 {
        lemma_lookup_none_absent(m.drop_first(), k);
        assert forall|i: int| 0 <= i < m.len() implies (#[trigger] m[i]).0 != k by {
            if i > 0 {
                assert(m.drop_first()[i - 1] == m[i]);
            }
        }
    }
}

/// A key just recorded is found by lookup.
pub proof fn lemma_lookup_found(m: Seq<(Seq<u8>, SpecTemplate)>, k: Seq<u8>, t: SpecTemplate)
    ensures
        spec_lookup(m.push((k, t)), k) is Some,
    decreases m,
{
    if m.len() > 0 {
        if m.first().0 != k {
            lemma_lookup_found(m.drop_first(), k, t);
            assert(m.push((k, t)).drop_first() =~= m.drop_first().push((k, t)));
        }
    } else {
        assert(m.push((k, t)).first() == (k, t));
    }
}

/// Recording a template keeps the commitment map free of duplicate keys.
pub proof fn lemma_book_one_distinct(bk: SpecBook, t: SpecTemplate)
    requires
        keys_distinct(bk.m),
    ensures
        keys_distinct(spec_book_one(bk, t).m),
{
    let k = commitment_hash(t);
    match spec_lookup(bk.m, k) {
        Option::Some(_) => {},
        Option::None => {
            lemma_lookup_none_absent(bk.m, k);
            let m2 = bk.m.push((k, t));
            assert forall|i: int, j: int| 0 <= i < j < m2.len() implies (#[trigger] m2[i]).0 != (
            #[trigger] m2[j]).0 by {
                if j < bk.m.len() {
                    assert(bk.m[i].0 != bk.m[j].0);
                } else {
                    assert(m2[i] == bk.m[i]);
                }
            }
        },
    }
}

/// Recording any list of templates keeps the commitment map free of
/// duplicate keys: two branches producing byte-identical templates share
/// one entry rather than creating two.
pub proof fn lemma_book_fold_distinct(bk: SpecBook, ts: Seq<SpecTemplate>)
    requires
        keys_distinct(bk.m),
    ensures
        keys_distinct(spec_book_fold(bk, ts).m),
    decreases ts,
{
    if ts.len() > 0 {
        lemma_book_fold_distinct(bk, ts.drop_last());
        lemma_book_one_distinct(spec_book_fold(bk, ts.drop_last()), ts.last());
    }
}

/// Recording the same template twice leaves the map exactly as recording
/// it once: byte-identical templates collapse to one commitment entry.
pub proof fn lemma_identical_templates_collapse(bk: SpecBook, t: SpecTemplate)
    ensures
        spec_book_one(spec_book_one(bk, t), t).m == spec_book_one(bk, t).m,
{
    let k = commitment_hash(t);
    match spec_lookup(bk.m, k) {
        Option::Some(_) => {},
        Option::None => {
            lemma_lookup_found(bk.m, k, t);
        },
    }
}

/// The funding range only ever widens as more templates are discovered:
/// its maximum never decreases and its minimum never increases.
pub proof fn lemma_book_fold_monotonic(bk: SpecBook, ts: Seq<SpecTemplate>)
    ensures
        spec_book_fold(bk, ts).max >= bk.max,
        spec_book_fold(bk, ts).min <= bk.min,
    decreases ts,
{
    if ts.len() > 0 {
        lemma_book_fold_monotonic(bk, ts.drop_last());
    }
}

/// Processing one branch keeps the commitment map free of duplicate keys
/// and only widens the funding range.
pub proof fn lemma_branch_book_distinct_and_monotonic(bk: SpecBook, d: SpecBranchData)
    requires
        keys_distinct(bk.m),
    ensures
        keys_distinct(crate::compiler::spec_branch_book(bk, d).m),
        crate::compiler::spec_branch_book(bk, d).max >= bk.max,
        crate::compiler::spec_branch_book(bk, d).min <= bk.min,
{
    match spec_effective(d.conds) {
        SpecCond::Skippable => {},
        SpecCond::Never => {},
        SpecCond::Fail(_) => {},
        _ => {
            match d.templates {
                SpecTemplateSource::Fails(_) => {},
                SpecTemplateSource::Yields(ts) => {
                    lemma_book_fold_distinct(bk, spec_ok_templates(ts));
                    lemma_book_fold_monotonic(bk, spec_ok_templates(ts));
                },
            }
        },
    }
}

/// A whole stage keeps the commitment map free of duplicate keys and only
/// widens the funding range.
pub proof fn lemma_stage_distinct_and_monotonic(
    table: Seq<Option<SpecGuard>>,
    ds: Seq<Option<SpecBranchData>>,
    uses_ctv: bool,
    bk: SpecBook,
)
    requires
        keys_distinct(bk.m),
        spec_stage(table, ds, uses_ctv, bk) is Ok,
    ensures
        ({
            let out = spec_stage(table, ds, uses_ctv, bk)->Ok_0.1;
            &&& keys_distinct(out.m)
            &&& out.max >= bk.max
            &&& out.min <= bk.min
        }),
    decreases ds,
{
    if ds.len() > 0 {
        lemma_stage_distinct_and_monotonic(table, ds.drop_last(), uses_ctv, bk);
        match ds.last() {
            Option::None => {},
            Option::Some(d) => {
                let mid = spec_stage(table, ds.drop_last(), uses_ctv, bk)->Ok_0.1;
                lemma_branch_book_distinct_and_monotonic(mid, d);
            },
        }
    }
}

/// The maps of a compiled artifact hold no duplicate commitment entries.
pub proof fn lemma_compiled_maps_distinct(c: SpecContract)
    requires
        spec_compile(c) is Ok,
    ensures
        keys_distinct(spec_compile(c)->Ok_0.ctv),
        keys_distinct(spec_compile(c)->Ok_0.sugg),
{
    let st1 = spec_stage(c.guards, c.thens, true, initial_book());
    lemma_stage_distinct_and_monotonic(c.guards, c.thens, true, initial_book());
    let bk1 = st1->Ok_0.1;
    let bk2in = SpecBook { m: Seq::empty(), min: bk1.min, max: bk1.max };
    lemma_stage_distinct_and_monotonic(c.guards, fo_data(c.finish_ors), false, bk2in);
}

/// The two-branch scenario, in general: one enforced branch yielding a
/// single template under a non-trivial guard, and one yielding two
/// alternative templates under a trivial guard, compile to the policy
/// `threshold(1, [guard and commit(first), threshold(1, [commit(second),
/// commit(third)])])`, with all three templates in the commitment map.
pub proof fn lemma_two_branch_policy(
    c: SpecContract,
    d1: SpecBranchData,
    d2: SpecBranchData,
    t1: SpecTemplate,
    t2a: SpecTemplate,
    t2b: SpecTemplate,
)
    requires
        c.thens =~= seq![Option::Some(d1), Option::Some(d2)],
        c.finish_ors.len() == 0,
        c.finish_guards.len() == 0,
        spec_effective(d1.conds) is NoConstraint || spec_effective(d1.conds) is Required,
        spec_effective(d2.conds) is NoConstraint || spec_effective(d2.conds) is Required,
        d1.templates == SpecTemplateSource::Yields(
            seq![Result::<SpecTemplate, Seq<char>>::Ok(t1)],
        ),
        d2.templates == SpecTemplateSource::Yields(
            seq![Result::<SpecTemplate, Seq<char>>::Ok(t2a), Result::Ok(t2b)],
        ),
        !(crate::compiler::spec_create_guards(c.guards, d1.guards) is Trivial),
        crate::compiler::spec_create_guards(c.guards, d2.guards) is Trivial,
        commitment_hash(t1) != commitment_hash(t2a),
        commitment_hash(t1) != commitment_hash(t2b),
        commitment_hash(t2a) != commitment_hash(t2b),
    ensures
        spec_compile(c) matches Result::Ok(pre) && pre.policy == SpecClause::Threshold(
            1,
            seq![
                SpecClause::And(
                    Box::new(crate::compiler::spec_create_guards(c.guards, d1.guards)),
                    Box::new(SpecClause::TxTemplate(commitment_hash(t1))),
                ),
                SpecClause::Threshold(
                    1,
                    seq![
                        SpecClause::TxTemplate(commitment_hash(t2a)),
                        SpecClause::TxTemplate(commitment_hash(t2b)),
                    ],
                ),
            ],
        ) && pre.ctv =~= seq![
            (commitment_hash(t1), t1),
            (commitment_hash(t2a), t2a),
            (commitment_hash(t2b), t2b),
        ],
{
    let g1 = crate::compiler::spec_create_guards(c.guards, d1.guards);
    let h1 = commitment_hash(t1);
    let h2a = commitment_hash(t2a);
    let h2b = commitment_hash(t2b);
    let ts1 = seq![Result::<SpecTemplate, Seq<char>>::Ok(t1)];
    let ts2 = seq![Result::<SpecTemplate, Seq<char>>::Ok(t2a), Result::Ok(t2b)];
    let te = Seq::<Result<SpecTemplate, Seq<char>>>::empty();

    // base cases of the template folds
    assert(spec_first_template_error(te) is None);
    assert(spec_ok_templates(te) =~= Seq::<SpecTemplate>::empty());

    // the first branch's contribution
    assert(ts1.drop_last() =~= te);
    assert(spec_first_template_error(ts1) is None);
    assert(spec_ok_templates(ts1) =~= seq![t1]);
    let tcs1 = spec_template_clauses(ts1);
    assert(tcs1 =~= seq![SpecClause::TxTemplate(h1)]);
    let cl1 = SpecClause::And(Box::new(g1), Box::new(SpecClause::TxTemplate(h1)));
    assert(spec_process_branch(c.guards, d1, true) == Result::<
        Option<SpecClause>,
        SpecCompileError,
    >::Ok(Option::Some(cl1)));

    // the second branch's contribution
    assert(ts2.drop_last() =~= ts1.update(0, Result::Ok(t2a)));
    assert(ts2.drop_last() =~= seq![Result::<SpecTemplate, Seq<char>>::Ok(t2a)]);
    assert(seq![Result::<SpecTemplate, Seq<char>>::Ok(t2a)].drop_last() =~= te);
    assert(spec_first_template_error(seq![Result::<SpecTemplate, Seq<char>>::Ok(t2a)]) is None);
    assert(spec_first_template_error(ts2) is None);
    assert(spec_ok_templates(seq![Result::<SpecTemplate, Seq<char>>::Ok(t2a)]) =~= seq![t2a]);
    assert(spec_ok_templates(ts2) =~= seq![t2a, t2b]);
    let tcs2 = spec_template_clauses(ts2);
    assert(tcs2 =~= seq![SpecClause::TxTemplate(h2a), SpecClause::TxTemplate(h2b)]);
    let cl2 = SpecClause::Threshold(1, tcs2);
    assert(spec_process_branch(c.guards, d2, true) == Result::<
        Option<SpecClause>,
        SpecCompileError,
    >::Ok(Option::Some(cl2)));

    // the commitment map fills in order, each hash fresh
    let bk0 = initial_book();
    let eb = Seq::<SpecTemplate>::empty();
    assert(spec_book_fold(bk0, eb) == bk0);
    let m1 = seq![(h1, t1)];
    assert(bk0.m =~= Seq::<(Seq<u8>, SpecTemplate)>::empty());
    assert(spec_lookup(bk0.m, h1) is None);
    assert(seq![t1].drop_last() =~= eb);
    assert(spec_book_fold(bk0, seq![t1]) == spec_book_one(bk0, t1));
    assert(spec_book_one(bk0, t1).m =~= m1);
    let bk1 = crate::compiler::spec_branch_book(bk0, d1);
    assert(bk1 == spec_book_fold(bk0, spec_ok_templates(ts1)));
    assert(bk1.m =~= m1);

    assert(m1.drop_first() =~= Seq::<(Seq<u8>, SpecTemplate)>::empty());
    assert(spec_lookup(m1.drop_first(), h2a) is None);
    assert(spec_lookup(bk1.m, h2a) is None);
    let bkb = spec_book_one(bk1, t2a);
    let m2 = m1.push((h2a, t2a));
    assert(bkb.m =~= m2);
    assert(m2.drop_first() =~= seq![(h2a, t2a)]);
    assert(m2.drop_first().drop_first() =~= Seq::<(Seq<u8>, SpecTemplate)>::empty());
    assert(spec_lookup(m2.drop_first().drop_first(), h2b) is None);
    assert(spec_lookup(m2.drop_first(), h2b) is None);
    assert(spec_lookup(bkb.m, h2b) is None);
    let bkc = spec_book_one(bkb, t2b);
    let m3 = m2.push((h2b, t2b));
    assert(bkc.m =~= m3);
    assert(seq![t2a].drop_last() =~= eb);
    assert(spec_book_fold(bk1, eb) == bk1);
    assert(spec_book_fold(bk1, seq![t2a]) == spec_book_one(bk1, t2a));
    assert(seq![t2a, t2b].drop_last() =~= seq![t2a]);
    assert(spec_book_fold(bk1, seq![t2a, t2b]) == bkc);
    let bk2 = crate::compiler::spec_branch_book(bk1, d2);
    assert(bk2 == spec_book_fold(bk1, spec_ok_templates(ts2)));
    assert(bk2.m =~= m3);

    // the enforced stage over both branches
    let es = Seq::<Option<SpecBranchData>>::empty();
    assert(spec_stage(c.guards, es, true, bk0) == Result::<
        (Seq<SpecClause>, SpecBook),
        SpecCompileError,
    >::Ok((Seq::<SpecClause>::empty(), bk0)));
    let s1 = seq![Option::Some(d1)];
    assert(s1.drop_last() =~= es);
    assert(s1.last() == Option::Some(d1));
    assert(spec_stage(c.guards, s1, true, bk0) == Result::<
        (Seq<SpecClause>, SpecBook),
        SpecCompileError,
    >::Ok((Seq::<SpecClause>::empty().push(cl1), bk1)));
    assert(c.thens.drop_last() =~= s1);
    assert(c.thens.last() == Option::Some(d2));
    let st1 = spec_stage(c.guards, c.thens, true, bk0);
    assert(st1 == Result::<(Seq<SpecClause>, SpecBook), SpecCompileError>::Ok(
        (Seq::<SpecClause>::empty().push(cl1).push(cl2), bk2),
    ));

    // no suggested branches, no finish predicates
    let bk2in = SpecBook { m: Seq::empty(), min: bk2.min, max: bk2.max };
    assert(fo_data(c.finish_ors) =~= es);
    assert(spec_stage(c.guards, fo_data(c.finish_ors), false, bk2in) == Result::<
        (Seq<SpecClause>, SpecBook),
        SpecCompileError,
    >::Ok((Seq::<SpecClause>::empty(), bk2in)));
    assert(c.finish_guards =~= Seq::<int>::empty());
    assert(spec_finish_clauses(c.guards, c.finish_guards) =~= Seq::<SpecClause>::empty());
    assert(spec_finish_gate(spec_finish_clauses(c.guards, c.finish_guards)) =~= Seq::<
        SpecClause,
    >::empty());

    let all = seq![cl1, cl2];
    assert(Seq::<SpecClause>::empty().push(cl1).push(cl2) + Seq::<SpecClause>::empty() + Seq::<
        SpecClause,
    >::empty() =~= all);
    assert(spec_compile(c) matches Result::Ok(pre) && pre.policy == SpecClause::Threshold(1, all)
        && pre.ctv =~= m3);
}

/// A cacheable guard's predicate runs at most once per compilation,
/// however many branches reference it.
pub proof fn lemma_cacheable_evaluated_at_most_once(
    c: GuardCache,
    guards: Seq<Option<SpecGuard>>,
    i: int,
)
    requires
        cache_wf(c, guards),
        0 <= i < guards.len(),
        guards[i] matches Option::Some(g) && g is Cache,
    ensures
        c.evals@[i] <= 1,
{
}

} // verus!
