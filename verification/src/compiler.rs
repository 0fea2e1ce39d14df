//! The compilation engine: walks a contract's declared transition branches,
//! evaluates which are eligible, memoizes guard computation, folds
//! template-commitment hashes and guard clauses into branch-level clauses,
//! merges them into a single top-level policy, and emits the compiled
//! artifact together with its funding bounds.
use vstd::prelude::*;

use crate::clause::Clause;
use crate::clause::SpecClause;
use crate::clause::view_clause_seq;
use crate::clause::lemma_view_clause_seq;
use crate::clause::policy_text;
use crate::clause::policy_to_bytes;
use crate::conditional::ConditionalCompileType;
use crate::conditional::SpecCond;
use crate::conditional::spec_effective;
use crate::conditional::view_conds;
use crate::context::Context;
use crate::context::network_code;
use crate::continuation::ContinuationPoint;
use crate::descriptor::compile_policy_text;
use crate::descriptor::wsh_compilation;
use crate::guards::Guard;
use crate::guards::GuardCache;
use crate::guards::SpecGuard;
use crate::guards::cache_wf;
use crate::guards::spec_eval_slot;
use crate::guards::view_guards;
use crate::template::AmountRange;
use crate::template::SpecTemplate;
use crate::template::Template;
use crate::template::commitment_hash;

verus! {

broadcast use vstd::std_specs::vec::group_vec_axioms, vstd::seq::group_seq_axioms;

/// Why a compilation failed. There is no local recovery: any branch-level
/// failure other than a nullable branch yielding no templates escalates to
/// total compile failure.
#[derive(Debug, PartialEq, Eq)]
pub enum CompileError {
    /// No branch survived resolution, so the policy would be empty.
    EmptyPolicy,
    /// A non-nullable enforced branch produced zero templates.
    MissingTemplates,
    /// A branch's conditions resolved to failure; carries every accumulated
    /// reason.
    ConditionalCompilationFailed(Vec<String>),
    /// Building an individual transaction template failed.
    TemplateError(String),
    /// The external policy compiler rejected the assembled policy.
    PolicyCompilation(String),
}

/// The mathematical value of a `CompileError`.
pub enum SpecCompileError {
    EmptyPolicy,
    MissingTemplates,
    ConditionalCompilationFailed(Seq<Seq<char>>),
    TemplateError(Seq<char>),
    PolicyCompilation(Seq<char>),
}

impl View for CompileError {
    type V = SpecCompileError;

    open spec fn view(&self) -> SpecCompileError {
        match self {
            CompileError::EmptyPolicy => SpecCompileError::EmptyPolicy,
            CompileError::MissingTemplates => SpecCompileError::MissingTemplates,
            CompileError::ConditionalCompilationFailed(v) => {
                SpecCompileError::ConditionalCompilationFailed(crate::conditional::view_reasons(v@))
            },
            CompileError::TemplateError(m) => SpecCompileError::TemplateError(m@),
            CompileError::PolicyCompilation(m) => SpecCompileError::PolicyCompilation(m@),
        }
    }
}

/// What a branch's template function yields: either the whole computation
/// fails, or it produces a list of candidate templates, each independently
/// fallible.
pub enum TemplateSource {
    /// The template computation fails as a whole.
    Fails(String),
    /// The candidate templates, in order, each possibly failed.
    Yields(Vec<Result<Template, String>>),
}

/// The mathematical value of a `TemplateSource`.
pub enum SpecTemplateSource {
    Fails(Seq<char>),
    Yields(Seq<Result<SpecTemplate, Seq<char>>>),
}

/// The element-wise view of a template list.
pub open spec fn view_tresults(ts: Seq<Result<Template, String>>) -> Seq<
    Result<SpecTemplate, Seq<char>>,
> {
    ts.map_values(
        |r: Result<Template, String>|
            match r {
                Result::Ok(t) => Result::<SpecTemplate, Seq<char>>::Ok(t@),
                Result::Err(m) => Result::<SpecTemplate, Seq<char>>::Err(m@),
            },
    )
}

impl View for TemplateSource {
    type V = SpecTemplateSource;

    open spec fn view(&self) -> SpecTemplateSource {
        match self {
            TemplateSource::Fails(m) => SpecTemplateSource::Fails(m@),
            TemplateSource::Yields(ts) => SpecTemplateSource::Yields(view_tresults(ts@)),
        }
    }
}

/// The view of a list of guard identities.
pub open spec fn view_ids(ids: Seq<usize>) -> Seq<int> {
    ids.map_values(|x: usize| x as int)
}

/// What every branch kind shares: the guards gating it, its
/// conditional-inclusion conditions, and the templates it yields.
pub struct SpecBranchData {
    pub guards: Seq<int>,
    pub conds: Seq<SpecCond>,
    pub templates: SpecTemplateSource,
}

/// An enforced-transition ("then") branch: its template commitments are
/// required in the branch clause.
pub struct ThenBranch {
    /// Identities of the guards gating this branch.
    pub guards: Vec<usize>,
    /// The evaluated conditional-inclusion conditions, in declaration order.
    pub conditions: Vec<ConditionalCompileType>,
    /// The candidate next transactions of this branch.
    pub templates: TemplateSource,
}

impl View for ThenBranch {
    type V = SpecBranchData;

    open spec fn view(&self) -> SpecBranchData {
        SpecBranchData {
            guards: view_ids(self.guards@),
            conds: view_conds(self.conditions@),
            templates: self.templates@,
        }
    }
}

/// A suggested-transition ("finish-or") branch: its templates are recorded
/// but not committed to in the clause, and it may declare a continuation
/// schema. Its templates are those computed with the branch's default
/// runtime argument; richer arguments are a capability of interactive
/// continuation, outside one compilation pass.
pub struct FinishOrBranch {
    /// The branch's name, keying its continuation entry.
    pub name: String,
    /// The argument schema for external continuation, when declared.
    pub schema: Option<String>,
    /// Identities of the guards gating this branch.
    pub guards: Vec<usize>,
    /// The evaluated conditional-inclusion conditions, in declaration order.
    pub conditions: Vec<ConditionalCompileType>,
    /// The suggested transactions of this branch.
    pub templates: TemplateSource,
}

/// The mathematical value of a `FinishOrBranch`.
pub struct SpecFinishOr {
    pub name: Seq<char>,
    pub schema: Option<Seq<char>>,
    pub data: SpecBranchData,
}

impl View for FinishOrBranch {
    type V = SpecFinishOr;

    open spec fn view(&self) -> SpecFinishOr {
        SpecFinishOr {
            name: self.name@,
            schema: match &self.schema {
                Option::None => Option::None,
                Option::Some(s) => Option::Some(s@),
            },
            data: SpecBranchData {
                guards: view_ids(self.guards@),
                conds: view_conds(self.conditions@),
                templates: self.templates@,
            },
        }
    }
}

/// A contract instance, as the compiler sees it: a guard table, the three
/// ordered branch kinds, each branch slot possibly absent (its factory
/// yielded nothing).
pub struct ContractDef {
    /// The guard declarations, indexed by guard identity.
    pub guards: Vec<Option<Guard>>,
    /// The enforced-transition branches.
    pub then_branches: Vec<Option<ThenBranch>>,
    /// The suggested-transition branches.
    pub finish_or_branches: Vec<Option<FinishOrBranch>>,
    /// The pure-guard ("finish") predicates, as guard identities.
    pub finish_guards: Vec<usize>,
}

/// The mathematical value of a `ContractDef`.
pub struct SpecContract {
    pub guards: Seq<Option<SpecGuard>>,
    pub thens: Seq<Option<SpecBranchData>>,
    pub finish_ors: Seq<Option<SpecFinishOr>>,
    pub finish_guards: Seq<int>,
}

pub open spec fn view_thens(bs: Seq<Option<ThenBranch>>) -> Seq<Option<SpecBranchData>> {
    bs.map_values(
        |ob: Option<ThenBranch>|
            match ob {
                Option::None => Option::<SpecBranchData>::None,
                Option::Some(b) => Option::Some(b@),
            },
    )
}

pub open spec fn view_finish_ors(bs: Seq<Option<FinishOrBranch>>) -> Seq<Option<SpecFinishOr>> {
    bs.map_values(
        |ob: Option<FinishOrBranch>|
            match ob {
                Option::None => Option::<SpecFinishOr>::None,
                Option::Some(b) => Option::Some(b@),
            },
    )
}

/// The branch data of each suggested-transition slot.
pub open spec fn fo_data(bs: Seq<Option<SpecFinishOr>>) -> Seq<Option<SpecBranchData>> {
    bs.map_values(
        |ob: Option<SpecFinishOr>|
            match ob {
                Option::None => Option::<SpecBranchData>::None,
                Option::Some(f) => Option::Some(f.data),
            },
    )
}

impl View for ContractDef {
    type V = SpecContract;

    open spec fn view(&self) -> SpecContract {
        SpecContract {
            guards: view_guards(self.guards@),
            thens: view_thens(self.then_branches@),
            finish_ors: view_finish_ors(self.finish_or_branches@),
            finish_guards: view_ids(self.finish_guards@),
        }
    }
}

/// Every guard identity in `ids` points into a table of `n` guards.
pub open spec fn ids_ok(ids: Seq<usize>, n: int) -> bool {
    forall|j: int| 0 <= j < ids.len() ==> ids[j] < n
}

impl ContractDef {
    /// Every guard identity any branch references points into the guard
    /// table.
    pub open spec fn wf(self) -> bool {
        let n = self.guards@.len() as int;
        &&& forall|i: int|
            0 <= i < self.then_branches@.len() ==> match #[trigger] self.then_branches@[i] {
                Option::None => true,
                Option::Some(b) => ids_ok(b.guards@, n),
            }
        &&& forall|i: int|
            0 <= i < self.finish_or_branches@.len() ==> match #[trigger] self.finish_or_branches@[i] {
                Option::None => true,
                Option::Some(b) => ids_ok(b.guards@, n),
            }
        &&& ids_ok(self.finish_guards@, n)
    }
}

/// The clause the guards of one branch contribute: each present guard's
/// clause, with trivial clauses skipped, folded left into a conjunction.
pub open spec fn spec_create_guards(table: Seq<Option<SpecGuard>>, ids: Seq<int>) -> SpecClause
    decreases ids,
{
    if ids.len() == 0 {
        SpecClause::Trivial
    } else {
        let acc = spec_create_guards(table, ids.drop_last());
        let id = ids.last();
        let slot = if 0 <= id < table.len() {
            table[id]
        } else {
            Option::None
        };
        match spec_eval_slot(slot) {
            Option::None => acc,
            Option::Some(c) => if c is Trivial {
                acc
            } else if acc is Trivial {
                c
            } else {
                SpecClause::And(Box::new(acc), Box::new(c))
            },
        }
    }
}

/// Compute a branch's guard clause through the cache, evaluating each
/// referenced guard at most once if cacheable.
pub fn create_guards(table: &Vec<Option<Guard>>, ids: &Vec<usize>, gc: &mut GuardCache) -> (r:
    Clause)
    requires
        cache_wf(*old(gc), view_guards(table@)),
        ids_ok(ids@, table@.len() as int),
    ensures
        cache_wf(*final(gc), view_guards(table@)),
        r@ == spec_create_guards(view_guards(table@), view_ids(ids@)),
{
    let mut acc = Clause::Trivial;
    let mut i: usize = 0;
    while i < ids.len()
        invariant
            i <= ids.len(),
            cache_wf(*gc, view_guards(table@)),
            ids_ok(ids@, table@.len() as int),
            acc@ == spec_create_guards(view_guards(table@), view_ids(ids@).subrange(0, i as int)),
        decreases ids.len() - i,
    {
        let got = gc.get(table, ids[i]);
        proof {
            let vs = view_ids(ids@);
            let q = vs.subrange(0, i + 1);
            assert(q.drop_last() =~= vs.subrange(0, i as int));
            assert(q.last() == vs[i as int]);
        }
        match got {
            Option::None => {},
            Option::Some(c) => {
                if c.is_trivial() {
                } else if acc.is_trivial() {
                    acc = c;
                } else {
                    acc = Clause::And(Box::new(acc), Box::new(c));
                }
            },
        }
        i = i + 1;
    }
    proof {
        assert(view_ids(ids@).subrange(0, ids@.len() as int) =~= view_ids(ids@));
    }
    acc
}

/// An association of commitment hashes to templates, viewed as a sequence
/// of pairs.
pub open spec fn view_map(m: Seq<(Vec<u8>, Template)>) -> Seq<(Seq<u8>, SpecTemplate)> {
    m.map_values(|p: (Vec<u8>, Template)| (p.0@, p.1@))
}

/// The first entry under key `k`, scanning in insertion order.
pub open spec fn spec_lookup(m: Seq<(Seq<u8>, SpecTemplate)>, k: Seq<u8>) -> Option<SpecTemplate>
    decreases m,
{
    if m.len() == 0 {
        Option::None
    } else if m.first().0 == k {
        Option::Some(m.first().1)
    } else {
        spec_lookup(m.drop_first(), k)
    }
}

/// The bookkeeping one compilation threads through template discovery: the
/// commitment map being filled and the running funding bounds.
pub struct SpecBook {
    pub m: Seq<(Seq<u8>, SpecTemplate)>,
    pub min: u64,
    pub max: u64,
}

/// Record one discovered template: first writer wins for a commitment
/// hash, and the funding range widens by the stored template's bound.
pub open spec fn spec_book_one(bk: SpecBook, t: SpecTemplate) -> SpecBook {
    let k = commitment_hash(t);
    let stored = match spec_lookup(bk.m, k) {
        Option::Some(t0) => t0,
        Option::None => t,
    };
    SpecBook {
        m: match spec_lookup(bk.m, k) {
            Option::Some(_) => bk.m,
            Option::None => bk.m.push((k, t)),
        },
        min: if stored.max < bk.min {
            stored.max
        } else {
            bk.min
        },
        max: if stored.max > bk.max {
            stored.max
        } else {
            bk.max
        },
    }
}

/// Record a list of templates, left to right.
pub open spec fn spec_book_fold(bk: SpecBook, ts: Seq<SpecTemplate>) -> SpecBook
    decreases ts,
{
    if ts.len() == 0 {
        bk
    } else {
        spec_book_one(spec_book_fold(bk, ts.drop_last()), ts.last())
    }
}

/// The first failed template of a branch, if any.
pub open spec fn spec_first_template_error(ts: Seq<Result<SpecTemplate, Seq<char>>>) -> Option<
    Seq<char>,
>
    decreases ts,
{
    if ts.len() == 0 {
        Option::None
    } else {
        match spec_first_template_error(ts.drop_last()) {
            Option::Some(m) => Option::Some(m),
            Option::None => match ts.last() {
                Result::Ok(_) => Option::None,
                Result::Err(m) => Option::Some(m),
            },
        }
    }
}

/// The successful templates of a branch, in order.
pub open spec fn spec_ok_templates(ts: Seq<Result<SpecTemplate, Seq<char>>>) -> Seq<SpecTemplate>
    decreases ts,
{
    if ts.len() == 0 {
        Seq::empty()
    } else {
        spec_ok_templates(ts.drop_last()) + (match ts.last() {
            Result::Ok(t) => seq![t],
            Result::Err(_) => Seq::empty(),
        })
    }
}

/// The commitment clauses of a branch's successful templates, in order.
pub open spec fn spec_template_clauses(ts: Seq<Result<SpecTemplate, Seq<char>>>) -> Seq<
    SpecClause,
> {
    spec_ok_templates(ts).map_values(|t: SpecTemplate| SpecClause::TxTemplate(commitment_hash(t)))
}

/// What one eligible branch contributes to the policy.
///
/// Skipped branches, nullable enforced branches with no templates, and
/// suggested branches whose guard is unsatisfiable contribute nothing
/// (`Ok(None)`); failing conditions and failing templates abort the whole
/// compilation; otherwise the branch clause is the guard conjoined, for an
/// enforced branch, with the commitment to exactly one of its templates.
pub open spec fn spec_process_branch(
    table: Seq<Option<SpecGuard>>,
    d: SpecBranchData,
    uses_ctv: bool,
) -> Result<Option<SpecClause>, SpecCompileError> {
    let eff = spec_effective(d.conds);
    match eff {
        SpecCond::Skippable => Result::Ok(Option::None),
        SpecCond::Never => Result::Ok(Option::None),
        SpecCond::Fail(reasons) => Result::Err(
            SpecCompileError::ConditionalCompilationFailed(reasons),
        ),
        _ => {
            let guard = spec_create_guards(table, d.guards);
            match d.templates {
                SpecTemplateSource::Fails(m) => Result::Err(SpecCompileError::TemplateError(m)),
                SpecTemplateSource::Yields(ts) => match spec_first_template_error(ts) {
                    Option::Some(m) => Result::Err(SpecCompileError::TemplateError(m)),
                    Option::None => {
                        let tcs = spec_template_clauses(ts);
                        if uses_ctv {
                            if tcs.len() == 0 {
                                if eff is Nullable {
                                    Result::Ok(Option::None)
                                } else {
                                    Result::Err(SpecCompileError::MissingTemplates)
                                }
                            } else {
                                let hc = if tcs.len() == 1 {
                                    tcs[0]
                                } else {
                                    SpecClause::Threshold(1, tcs)
                                };
                                Result::Ok(
                                    Option::Some(
                                        if guard is Trivial {
                                            hc
                                        } else {
                                            SpecClause::And(Box::new(guard), Box::new(hc))
                                        },
                                    ),
                                )
                            }
                        } else {
                            if guard is Unsatisfiable {
                                Result::Ok(Option::None)
                            } else {
                                Result::Ok(Option::Some(guard))
                            }
                        }
                    },
                },
            }
        },
    }
}

/// The bookkeeping effect of one branch: its successful templates are
/// recorded unless the branch was skipped before template computation.
pub open spec fn spec_branch_book(bk: SpecBook, d: SpecBranchData) -> SpecBook {
    match spec_effective(d.conds) {
        SpecCond::Skippable => bk,
        SpecCond::Never => bk,
        SpecCond::Fail(_) => bk,
        _ => match d.templates {
            SpecTemplateSource::Fails(_) => bk,
            SpecTemplateSource::Yields(ts) => spec_book_fold(bk, spec_ok_templates(ts)),
        },
    }
}

/// One stage of compilation: the branch clauses and bookkeeping of a list
/// of branch slots, processed in order, stopping at the first error.
pub open spec fn spec_stage(
    table: Seq<Option<SpecGuard>>,
    ds: Seq<Option<SpecBranchData>>,
    uses_ctv: bool,
    bk: SpecBook,
) -> Result<(Seq<SpecClause>, SpecBook), SpecCompileError>
    decreases ds,
{
    if ds.len() == 0 {
        Result::Ok((Seq::empty(), bk))
    } else {
        match spec_stage(table, ds.drop_last(), uses_ctv, bk) {
            Result::Err(e) => Result::Err(e),
            Result::Ok((cs, bk1)) => match ds.last() {
                Option::None => Result::Ok((cs, bk1)),
                Option::Some(d) => match spec_process_branch(table, d, uses_ctv) {
                    Result::Err(e) => Result::Err(e),
                    Result::Ok(Option::None) => Result::Ok((cs, spec_branch_book(bk1, d))),
                    Result::Ok(Option::Some(c)) => Result::Ok(
                        (cs.push(c), spec_branch_book(bk1, d)),
                    ),
                },
            },
        }
    }
}

/// The clauses the pure-guard ("finish") predicates produce, in order,
/// absent slots skipped.
pub open spec fn spec_finish_clauses(table: Seq<Option<SpecGuard>>, ids: Seq<int>) -> Seq<
    SpecClause,
>
    decreases ids,
{
    if ids.len() == 0 {
        Seq::empty()
    } else {
        let m = spec_finish_clauses(table, ids.drop_last());
        let id = ids.last();
        let slot = if 0 <= id < table.len() {
            table[id]
        } else {
            Option::None
        };
        match spec_eval_slot(slot) {
            Option::None => m,
            Option::Some(c) => m.push(c),
        }
    }
}

/// What the finish predicates contribute to the policy: nothing unless at
/// least one produced a non-trivial clause; a single clause stands alone;
/// several are wrapped in a satisfy-any-one threshold.
pub open spec fn spec_finish_gate(fs: Seq<SpecClause>) -> Seq<SpecClause> {
    if fs.len() == 0 {
        Seq::empty()
    } else if forall|i: int| 0 <= i < fs.len() ==> (#[trigger] fs[i]) is Trivial {
        Seq::empty()
    } else if fs.len() == 1 {
        seq![fs[0]]
    } else {
        seq![SpecClause::Threshold(1, fs)]
    }
}

/// A continuation table with `k -> v` recorded, last write winning.
pub open spec fn spec_insert_lw(
    m: Seq<(Seq<char>, Seq<char>)>,
    k: Seq<char>,
    v: Seq<char>,
) -> Seq<(Seq<char>, Seq<char>)>
    decreases m,
{
    if m.len() == 0 {
        seq![(k, v)]
    } else if m.first().0 == k {
        seq![(k, v)] + m.drop_first()
    } else {
        seq![m.first()] + spec_insert_lw(m.drop_first(), k, v)
    }
}

/// The continuation table of a contract: every present suggested branch
/// that declares a schema, keyed by name, later branches overriding
/// earlier ones with the same name.
pub open spec fn spec_continuations(bs: Seq<Option<SpecFinishOr>>) -> Seq<
    (Seq<char>, Seq<char>),
>
    decreases bs,
{
    if bs.len() == 0 {
        Seq::empty()
    } else {
        let m = spec_continuations(bs.drop_last());
        match bs.last() {
            Option::None => m,
            Option::Some(f) => match f.schema {
                Option::None => m,
                Option::Some(s) => spec_insert_lw(m, f.name, s),
            },
        }
    }
}

/// Everything compilation determines before the external descriptor step.
pub struct SpecPre {
    pub ctv: Seq<(Seq<u8>, SpecTemplate)>,
    pub sugg: Seq<(Seq<u8>, SpecTemplate)>,
    pub apis: Seq<(Seq<char>, Seq<char>)>,
    pub policy: SpecClause,
    pub min: u64,
    pub max: u64,
}

/// The bookkeeping a compilation starts from: an empty map and an empty
/// funding range.
pub open spec fn initial_book() -> SpecBook {
    SpecBook { m: Seq::empty(), min: u64::MAX, max: 0 }
}

/// The whole compilation pipeline, up to the external descriptor step:
/// enforced branches, then suggested branches, then the finish gate; the
/// policy is the single surviving clause, or a satisfy-any-one threshold
/// over all of them; no surviving clause is an error.
pub open spec fn spec_compile(c: SpecContract) -> Result<SpecPre, SpecCompileError> {
    let bk0 = initial_book();
    match spec_stage(c.guards, c.thens, true, bk0) {
        Result::Err(e) => Result::Err(e),
        Result::Ok((cs1, bk1)) => {
            let bk2in = SpecBook { m: Seq::empty(), min: bk1.min, max: bk1.max };
            match spec_stage(c.guards, fo_data(c.finish_ors), false, bk2in) {
                Result::Err(e) => Result::Err(e),
                Result::Ok((cs2, bk2)) => {
                    let fs = spec_finish_clauses(c.guards, c.finish_guards);
                    let all = cs1 + cs2 + spec_finish_gate(fs);
                    if all.len() == 0 {
                        Result::Err(SpecCompileError::EmptyPolicy)
                    } else {
                        let policy = if all.len() == 1 {
                            all[0]
                        } else {
                            SpecClause::Threshold(1, all)
                        };
                        Result::Ok(
                            SpecPre {
                                ctv: bk1.m,
                                sugg: bk2.m,
                                apis: spec_continuations(c.finish_ors),
                                policy,
                                min: bk2.min,
                                max: bk2.max,
                            },
                        )
                    }
                },
            }
        },
    }
}

/// Whether two byte vectors hold the same bytes.
pub fn bytes_eq(a: &Vec<u8>, b: &Vec<u8>) -> (r: bool)
    ensures
        r == (a@ == b@),
{
    if a.len() != b.len() {
        proof {
            assert(a@ != b@);
        }
        return false;
    }
    let mut i: usize = 0;
    while i < a.len()
        invariant
            i <= a.len(),
            a@.len() == b@.len(),
            forall|j: int| 0 <= j < i ==> a@[j] == b@[j],
        decreases a.len() - i,
    {
        if a[i] != b[i] {
            return false;
        }
        i = i + 1;
    }
    proof {
        assert(a@ =~= b@);
    }
    true
}

/// A lookup that found no match among the first `j` entries continues in
/// the rest.
proof fn lemma_lookup_skip(m: Seq<(Seq<u8>, SpecTemplate)>, k: Seq<u8>, j: int)
    requires
        0 <= j <= m.len(),
        forall|x: int| 0 <= x < j ==> (#[trigger] m[x]).0 != k,
    ensures
        spec_lookup(m, k) == spec_lookup(m.subrange(j, m.len() as int), k),
    decreases j,
{
    if j > 0 {
        assert(m.first().0 != k);
        lemma_lookup_skip(m.drop_first(), k, j - 1);
        assert(m.drop_first().subrange(j - 1, m.drop_first().len() as int) =~= m.subrange(
            j,
            m.len() as int,
        ));
    } else {
        assert(m.subrange(0, m.len() as int) =~= m);
    }
}

/// Record one template in a commitment map: the first writer for a hash
/// wins. Returns the bound of the stored template, which drives the
/// funding range.
fn insert_first_wins(map: &mut Vec<(Vec<u8>, Template)>, k: Vec<u8>, t: &Template) -> (stored_max:
    u64)
    requires
        k@ == commitment_hash(t@),
    ensures
        view_map(final(map)@) == (match spec_lookup(view_map(old(map)@), k@) {
            Option::Some(_) => view_map(old(map)@),
            Option::None => view_map(old(map)@).push((k@, t@)),
        }),
        stored_max == (match spec_lookup(view_map(old(map)@), k@) {
            Option::Some(t0) => t0.max,
            Option::None => t@.max,
        }),
{
    let mut j: usize = 0;
    while j < map.len()
        invariant
            j <= map.len(),
            forall|x: int| 0 <= x < j ==> (#[trigger] view_map(map@)[x]).0 != k@,
        decreases map.len() - j,
    {
        if bytes_eq(&map[j].0, &k) {
            proof {
                lemma_lookup_skip(view_map(map@), k@, j as int);
                let suf = view_map(map@).subrange(j as int, map@.len() as int);
                assert(suf.first() == view_map(map@)[j as int]);
            }
            return map[j].1.max;
        }
        j = j + 1;
    }
    proof {
        lemma_lookup_skip(view_map(map@), k@, map@.len() as int);
        assert(view_map(map@).subrange(map@.len() as int, map@.len() as int) =~= Seq::<
            (Seq<u8>, SpecTemplate),
        >::empty());
    }
    let m = t.max;
    map.push((k, t.deep_clone()));
    proof {
        assert(view_map(map@) =~= view_map(old(map)@).push((k@, t@)));
    }
    m
}

/// A template list whose first `i` entries contain an error has that error
/// as its first error.
proof fn lemma_first_error_extend(ts: Seq<Result<SpecTemplate, Seq<char>>>, i: int)
    requires
        0 <= i <= ts.len(),
        spec_first_template_error(ts.subrange(0, i)) is Some,
    ensures
        spec_first_template_error(ts) == spec_first_template_error(ts.subrange(0, i)),
    decreases ts.len() - i,
{
    if i < ts.len() {
        assert(ts.subrange(0, i + 1).drop_last() =~= ts.subrange(0, i));
        lemma_first_error_extend(ts, i + 1);
    } else {
        assert(ts.subrange(0, ts.len() as int) =~= ts);
    }
}

/// Process one branch: resolve its conditions, compute its guard clause
/// through the cache, record its templates, and produce its policy
/// contribution, or the error that aborts the whole compilation. When an
/// error is returned the caller discards the partially updated map and
/// range, so nothing is claimed of them then.
#[verifier::loop_isolation(false)]
fn process_branch(
    table: &Vec<Option<Guard>>,
    gc: &mut GuardCache,
    branch_guards: &Vec<usize>,
    conditions: &Vec<ConditionalCompileType>,
    templates: &TemplateSource,
    uses_ctv: bool,
    ctx: &Context,
    map: &mut Vec<(Vec<u8>, Template)>,
    range: &mut AmountRange,
) -> (r: Result<Option<Clause>, CompileError>)
    requires
        cache_wf(*old(gc), view_guards(table@)),
        ids_ok(branch_guards@, table@.len() as int),
    ensures
        cache_wf(*final(gc), view_guards(table@)),
        ({
            let d = SpecBranchData {
                guards: view_ids(branch_guards@),
                conds: view_conds(conditions@),
                templates: templates@,
            };
            let bk0 = SpecBook {
                m: view_map(old(map)@),
                min: old(range).min,
                max: old(range).max,
            };
            match spec_process_branch(view_guards(table@), d, uses_ctv) {
                Result::Err(e) => r matches Result::Err(e2) && e2@ == e,
                Result::Ok(oc) => {
                    let bk1 = spec_branch_book(bk0, d);
                    &&& match oc {
                        Option::None => r matches Result::Ok(o) && o is None,
                        Option::Some(c) => r matches Result::Ok(o) && o matches Option::Some(c2)
                            && c2@ == c,
                    }
                    &&& view_map(final(map)@) == bk1.m
                    &&& final(range).min == bk1.min
                    &&& final(range).max == bk1.max
                },
            }
        }),
{
    let ghost d = SpecBranchData {
        guards: view_ids(branch_guards@),
        conds: view_conds(conditions@),
        templates: templates@,
    };
    let ghost bk0 = SpecBook { m: view_map(map@), min: range.min, max: range.max };
    let eff = ConditionalCompileType::effective(conditions);
    if matches!(eff, ConditionalCompileType::Skippable) || matches!(
        eff,
        ConditionalCompileType::Never,
    ) {
        return Ok(None);
    }
    let guard = create_guards(table, branch_guards, gc);
    let nullable = matches!(eff, ConditionalCompileType::Nullable);
    if let ConditionalCompileType::Fail(reasons) = eff {
        return Err(CompileError::ConditionalCompilationFailed(reasons));
    }
    match templates {
        TemplateSource::Fails(m) => Err(CompileError::TemplateError(m.clone())),
        TemplateSource::Yields(ts) => {
            let ghost tsv = view_tresults(ts@);
            let mut tclauses: Vec<Clause> = Vec::new();
            let mut j: usize = 0;
            while j < ts.len()
                invariant
                    j <= ts.len(),
                    tsv == view_tresults(ts@),
                    bk0.m == view_map(old(map)@),
                    bk0.min == old(range).min,
                    bk0.max == old(range).max,
                    spec_first_template_error(tsv.subrange(0, j as int)) is None,
                    view_clause_seq(tclauses@) == spec_template_clauses(
                        tsv.subrange(0, j as int),
                    ),
                    ({
                        let bk = spec_book_fold(bk0, spec_ok_templates(tsv.subrange(0, j as int)));
                        &&& view_map(map@) == bk.m
                        &&& range.min == bk.min
                        &&& range.max == bk.max
                    }),
                decreases ts.len() - j,
            {
                proof {
                    let q = tsv.subrange(0, j + 1);
                    assert(q.drop_last() =~= tsv.subrange(0, j as int));
                    assert(q.last() == tsv[j as int]);
                }
                match &ts[j] {
                    Result::Err(m) => {
                        proof {
                            let q = tsv.subrange(0, j + 1);
                            assert(spec_first_template_error(q) == Option::Some(m@));
                            lemma_first_error_extend(tsv, j + 1);
                        }
                        return Err(CompileError::TemplateError(m.clone()));
                    },
                    Result::Ok(t) => {
                        let h = t.hash();
                        let cl = ctx.ctv_emulator(&h);
                        let stored_max = insert_first_wins(map, h, t);
                        range.update_range(stored_max);
                        let ghost prevt = tclauses@;
                        tclauses.push(cl);
                        proof {
                            let p = tsv.subrange(0, j as int);
                            let q = tsv.subrange(0, j + 1);
                            let okp = spec_ok_templates(p);
                            assert(spec_ok_templates(q) =~= okp.push(t@));
                            assert(okp.push(t@).drop_last() =~= okp);
                            assert(spec_book_fold(bk0, okp.push(t@)) == spec_book_one(
                                spec_book_fold(bk0, okp),
                                t@,
                            ));
                            assert(prevt.push(cl).drop_last() =~= prevt);
                            assert(view_clause_seq(tclauses@) == view_clause_seq(prevt).push(
                                cl@,
                            ));
                            assert(spec_template_clauses(q) =~= spec_template_clauses(p).push(
                                SpecClause::TxTemplate(commitment_hash(t@)),
                            ));
                            assert(view_clause_seq(tclauses@) =~= spec_template_clauses(q));
                        }
                    },
                }
                j = j + 1;
            }
            proof {
                assert(tsv.subrange(0, tsv.len() as int) =~= tsv);
                lemma_view_clause_seq(tclauses@);
            }
            if uses_ctv {
                if tclauses.len() == 0 {
                    if nullable {
                        Ok(None)
                    } else {
                        Err(CompileError::MissingTemplates)
                    }
                } else {
                    let hc = if tclauses.len() == 1 {
                        let mut tclauses = tclauses;
                        match tclauses.pop() {
                            Option::Some(c) => c,
                            Option::None => Clause::Unsatisfiable,
                        }
                    } else {
                        Clause::Threshold(1, tclauses)
                    };
                    proof {
                        assert(hc@ == (if spec_template_clauses(tsv).len() == 1 {
                            spec_template_clauses(tsv)[0]
                        } else {
                            SpecClause::Threshold(1, spec_template_clauses(tsv))
                        }));
                    }
                    if guard.is_trivial() {
                        Ok(Some(hc))
                    } else {
                        Ok(Some(Clause::And(Box::new(guard), Box::new(hc))))
                    }
                }
            } else {
                if guard.is_unsatisfiable() {
                    Ok(None)
                } else {
                    Ok(Some(guard))
                }
            }
        },
    }
}

/// The continuation table, viewed as a sequence of name/schema pairs.
pub open spec fn view_amap(m: Seq<(String, ContinuationPoint)>) -> Seq<(Seq<char>, Seq<char>)> {
    m.map_values(|p: (String, ContinuationPoint)| (p.0@, p.1@))
}

/// An insert that found no match among the first `j` entries continues in
/// the rest.
proof fn lemma_ilw_skip(m: Seq<(Seq<char>, Seq<char>)>, k: Seq<char>, v: Seq<char>, j: int)
    requires
        0 <= j <= m.len(),
        forall|x: int| 0 <= x < j ==> (#[trigger] m[x]).0 != k,
    ensures
        spec_insert_lw(m, k, v) == m.subrange(0, j) + spec_insert_lw(
            m.subrange(j, m.len() as int),
            k,
            v,
        ),
    decreases j,
{
    if j > 0 {
        assert(m.first().0 != k);
        lemma_ilw_skip(m.drop_first(), k, v, j - 1);
        assert(m.drop_first().subrange(j - 1, m.drop_first().len() as int) =~= m.subrange(
            j,
            m.len() as int,
        ));
        assert(m.drop_first().subrange(0, j - 1) =~= m.subrange(1, j));
        assert(seq![m.first()] + (m.subrange(1, j) + spec_insert_lw(
            m.subrange(j, m.len() as int),
            k,
            v,
        )) =~= m.subrange(0, j) + spec_insert_lw(m.subrange(j, m.len() as int), k, v));
    } else {
        assert(m.subrange(0, m.len() as int) =~= m);
        assert(m.subrange(0, 0) + spec_insert_lw(m.subrange(0, m.len() as int), k, v)
            =~= spec_insert_lw(m, k, v));
    }
}

/// Record `k -> v` in the continuation table, replacing an earlier entry
/// under the same name: the last write wins.
#[verifier::loop_isolation(false)]
fn insert_last_wins(map: &mut Vec<(String, ContinuationPoint)>, k: String, v: ContinuationPoint)
    ensures
        view_amap(final(map)@) == spec_insert_lw(view_amap(old(map)@), k@, v@),
{
    let ghost va = view_amap(map@);
    let mut j: usize = 0;
    while j < map.len()
        invariant
            j <= map.len(),
            va == view_amap(map@),
            forall|x: int| 0 <= x < j ==> (#[trigger] va[x]).0 != k@,
        decreases map.len() - j,
    {
        if map[j].0 == k {
            proof {
                lemma_ilw_skip(va, k@, v@, j as int);
                let suf = va.subrange(j as int, va.len() as int);
                assert(suf.first() == va[j as int]);
                assert(spec_insert_lw(suf, k@, v@) == seq![(k@, v@)] + suf.drop_first());
            }
            let ghost kv = k@;
            let ghost vv = v@;
            map[j] = (k, v);
            proof {
                assert(view_amap(map@) =~= va.subrange(0, j as int) + (seq![(kv, vv)]
                    + va.subrange(j as int, va.len() as int).drop_first()));
            }
            return ;
        }
        j = j + 1;
    }
    proof {
        lemma_ilw_skip(va, k@, v@, va.len() as int);
        assert(va.subrange(va.len() as int, va.len() as int) =~= Seq::<
            (Seq<char>, Seq<char>),
        >::empty());
    }
    map.push((k, v));
    proof {
        assert(view_amap(map@) =~= va.subrange(0, va.len() as int) + seq![
            (view_amap(map@).last().0, view_amap(map@).last().1),
        ]);
    }
}

/// Build the continuation table: every present suggested branch that
/// declares a schema is recorded under its name, later branches overriding
/// earlier ones with the same name.
fn build_continuations(bs: &Vec<Option<FinishOrBranch>>) -> (r: Vec<(String, ContinuationPoint)>)
    ensures
        view_amap(r@) == spec_continuations(view_finish_ors(bs@)),
{
    let mut m: Vec<(String, ContinuationPoint)> = Vec::new();
    let ghost bv = view_finish_ors(bs@);
    proof {
        assert(view_amap(m@) =~= spec_continuations(bv.subrange(0, 0)));
    }
    let mut i: usize = 0;
    while i < bs.len()
        invariant
            i <= bs.len(),
            bv == view_finish_ors(bs@),
            view_amap(m@) == spec_continuations(bv.subrange(0, i as int)),
        decreases bs.len() - i,
    {
        proof {
            let q = bv.subrange(0, i + 1);
            assert(q.drop_last() =~= bv.subrange(0, i as int));
            assert(q.last() == bv[i as int]);
        }
        match &bs[i] {
            Option::None => {},
            Option::Some(f) => {
                match &f.schema {
                    Option::None => {},
                    Option::Some(s) => {
                        insert_last_wins(
                            &mut m,
                            f.name.clone(),
                            ContinuationPoint { schema: s.clone() },
                        );
                    },
                }
            },
        }
        i = i + 1;
    }
    proof {
        assert(bv.subrange(0, bv.len() as int) =~= bv);
    }
    m
}

/// A copy of a commitment map, equal to the original.
fn clone_tmap(m: &Vec<(Vec<u8>, Template)>) -> (r: Vec<(Vec<u8>, Template)>)
    ensures
        view_map(r@) == view_map(m@),
{
    let mut out: Vec<(Vec<u8>, Template)> = Vec::new();
    let mut i: usize = 0;
    while i < m.len()
        invariant
            i <= m.len(),
            out@.len() == i as int,
            forall|j: int|
                0 <= j < i ==> (#[trigger] out@[j]).0@ == m@[j].0@ && out@[j].1@ == m@[j].1@,
        decreases m.len() - i,
    {
        let p = &m[i];
        out.push((crate::clause::clone_bytes(&p.0), p.1.deep_clone()));
        i = i + 1;
    }
    proof {
        assert(view_map(out@) =~= view_map(m@));
    }
    out
}

/// A copy of a continuation table, equal to the original.
fn clone_amap(m: &Vec<(String, ContinuationPoint)>) -> (r: Vec<(String, ContinuationPoint)>)
    ensures
        view_amap(r@) == view_amap(m@),
{
    let mut out: Vec<(String, ContinuationPoint)> = Vec::new();
    let mut i: usize = 0;
    while i < m.len()
        invariant
            i <= m.len(),
            out@.len() == i as int,
            forall|j: int|
                0 <= j < i ==> (#[trigger] out@[j]).0@ == m@[j].0@ && out@[j].1@ == m@[j].1@,
        decreases m.len() - i,
    {
        let p = &m[i];
        out.push((p.0.clone(), p.1.deep_clone()));
        i = i + 1;
    }
    proof {
        assert(view_amap(out@) =~= view_amap(m@));
    }
    out
}

/// The terminal, immutable result of one compilation: the commitment map,
/// the suggested-template map, the continuation table, the deposit address
/// and descriptor, the assembled policy, and the funding bounds.
#[derive(Debug, PartialEq, Eq)]
pub struct Compiled {
    /// Committed templates, keyed by commitment hash; every enforced
    /// branch's clause commits to one of these.
    pub ctv_to_tx: Vec<(Vec<u8>, Template)>,
    /// Suggested (non-committed) templates, keyed by commitment hash.
    pub suggested_txs: Vec<(Vec<u8>, Template)>,
    /// The continuation table: branch name to argument schema.
    pub continue_apis: Vec<(String, ContinuationPoint)>,
    /// The deposit address derived for the target network.
    pub address: String,
    /// The compiled spending-condition descriptor.
    pub descriptor: Option<String>,
    /// The assembled top-level policy.
    pub policy: Option<Clause>,
    /// The funding bounds the discovered templates imply.
    pub amount_range: AmountRange,
}

/// The mathematical value of a `Compiled`.
#[verifier::ext_equal]
pub struct SpecCompiled {
    pub ctv_to_tx: Seq<(Seq<u8>, SpecTemplate)>,
    pub suggested_txs: Seq<(Seq<u8>, SpecTemplate)>,
    pub continue_apis: Seq<(Seq<char>, Seq<char>)>,
    pub address: Seq<char>,
    pub descriptor: Option<Seq<char>>,
    pub policy: Option<SpecClause>,
    pub min: u64,
    pub max: u64,
}

impl View for Compiled {
    type V = SpecCompiled;

    open spec fn view(&self) -> SpecCompiled {
        SpecCompiled {
            ctv_to_tx: view_map(self.ctv_to_tx@),
            suggested_txs: view_map(self.suggested_txs@),
            continue_apis: view_amap(self.continue_apis@),
            address: self.address@,
            descriptor: match self.descriptor {
                Option::None => Option::None,
                Option::Some(s) => Option::Some(s@),
            },
            policy: match self.policy {
                Option::None => Option::None,
                Option::Some(c) => Option::Some(c@),
            },
            min: self.amount_range.min,
            max: self.amount_range.max,
        }
    }
}

impl Compiled {
    /// An identical copy of this artifact.
    pub fn deep_clone(&self) -> (r: Compiled)
        ensures
            r@ == self@,
    {
        let r = Compiled {
            ctv_to_tx: clone_tmap(&self.ctv_to_tx),
            suggested_txs: clone_tmap(&self.suggested_txs),
            continue_apis: clone_amap(&self.continue_apis),
            address: self.address.clone(),
            descriptor: match &self.descriptor {
                Option::None => Option::None,
                Option::Some(s) => Option::Some(s.clone()),
            },
            policy: match &self.policy {
                Option::None => Option::None,
                Option::Some(c) => Option::Some(c.deep_clone()),
            },
            amount_range: self.amount_range,
        };
        proof {
            assert(r@ =~= self@);
        }
        r
    }

    /// Compiling an already-compiled artifact is the identity: it returns
    /// an artifact identical to the input, so compiled contracts compose as
    /// components of other contracts.
    pub fn compile(&self, _ctx: Context) -> (r: Result<Compiled, CompileError>)
        ensures
            r matches Result::Ok(c) && c@ == self@,
    {
        Ok(self.deep_clone())
    }
}

/// A stage that has already failed on a prefix keeps that error however it
/// is extended.
proof fn lemma_stage_err_extend(
    table: Seq<Option<SpecGuard>>,
    ds: Seq<Option<SpecBranchData>>,
    uses_ctv: bool,
    bk: SpecBook,
    i: int,
)
    requires
        0 <= i <= ds.len(),
        spec_stage(table, ds.subrange(0, i), uses_ctv, bk) is Err,
    ensures
        spec_stage(table, ds, uses_ctv, bk) == spec_stage(table, ds.subrange(0, i), uses_ctv, bk),
    decreases ds.len() - i,
{
    if i < ds.len() {
        assert(ds.subrange(0, i + 1).drop_last() =~= ds.subrange(0, i));
        lemma_stage_err_extend(table, ds, uses_ctv, bk, i + 1);
    } else {
        assert(ds.subrange(0, ds.len() as int) =~= ds);
    }
}

/// Everything one compilation determines before the external descriptor
/// step: the commitment and suggested maps, the continuation table, the
/// assembled top-level policy, and the funding bounds.
pub struct Assembled {
    /// Committed templates, keyed by commitment hash.
    pub ctv_to_tx: Vec<(Vec<u8>, Template)>,
    /// Suggested (non-committed) templates, keyed by commitment hash.
    pub suggested_txs: Vec<(Vec<u8>, Template)>,
    /// The continuation table: branch name to argument schema.
    pub continue_apis: Vec<(String, ContinuationPoint)>,
    /// The assembled top-level policy.
    pub policy: Clause,
    /// The funding bounds the discovered templates imply.
    pub amount_range: AmountRange,
}

impl ContractDef {
    /// The core compilation logic for a contract: resolve and process every
    /// enforced and suggested branch, gather the finish predicates, and
    /// merge everything into one top-level policy, without yet consulting
    /// the external descriptor compiler.
    #[verifier::loop_isolation(false)]
    #[verifier::rlimit(100)]
    pub fn assemble(&self, ctx: &Context) -> (r: Result<Assembled, CompileError>)
        requires
            self.wf(),
        ensures
            ({
                match spec_compile(self@) {
                    Result::Err(e) => r matches Result::Err(e2) && e2@ == e,
                    Result::Ok(pre) => r matches Result::Ok(a) && view_map(a.ctv_to_tx@)
                        == pre.ctv && view_map(a.suggested_txs@) == pre.sugg && view_amap(
                        a.continue_apis@,
                    ) == pre.apis && a.policy@ == pre.policy && a.amount_range.min == pre.min
                        && a.amount_range.max == pre.max,
                }
            }),
    {
        let ghost cv = self@;
        let ghost table = view_guards(self.guards@);
        let ghost bk0 = SpecBook { m: Seq::empty(), min: u64::MAX, max: 0u64 };
        let mut gc = GuardCache::new(self.guards.len());
        proof {
            GuardCache::lemma_new_wf(gc, table);
        }
        let mut ctv_to_tx: Vec<(Vec<u8>, Template)> = Vec::new();
        let mut suggested_txs: Vec<(Vec<u8>, Template)> = Vec::new();
        let mut amount_range = AmountRange::new();
        let mut acc: Vec<Clause> = Vec::new();
        proof {
            assert(view_map(ctv_to_tx@) =~= Seq::<(Seq<u8>, SpecTemplate)>::empty());
            assert(cv.thens.subrange(0, 0) =~= Seq::<Option<SpecBranchData>>::empty());
        }
        let mut i: usize = 0;
        while i < self.then_branches.len()
            invariant
                i <= self.then_branches.len(),
                cache_wf(gc, table),
                spec_stage(table, cv.thens.subrange(0, i as int), true, bk0) == Result::<
                    (Seq<SpecClause>, SpecBook),
                    SpecCompileError,
                >::Ok(
                    (
                        view_clause_seq(acc@),
                        SpecBook {
                            m: view_map(ctv_to_tx@),
                            min: amount_range.min,
                            max: amount_range.max,
                        },
                    ),
                ),
                suggested_txs@.len() == 0,
            decreases self.then_branches.len() - i,
        {
            proof {
                let q = cv.thens.subrange(0, i + 1);
                assert(q.drop_last() =~= cv.thens.subrange(0, i as int));
                assert(q.last() == cv.thens[i as int]);
            }
            match &self.then_branches[i] {
                Option::None => {},
                Option::Some(b) => {
                    let ghost prevacc = acc@;
                    let res = process_branch(
                        &self.guards,
                        &mut gc,
                        &b.guards,
                        &b.conditions,
                        &b.templates,
                        true,
                        ctx,
                        &mut ctv_to_tx,
                        &mut amount_range,
                    );
                    match res {
                        Result::Err(e) => {
                            proof {
                                lemma_stage_err_extend(table, cv.thens, true, bk0, i + 1);
                            }
                            return Err(e);
                        },
                        Result::Ok(Option::None) => {},
                        Result::Ok(Option::Some(c)) => {
                            acc.push(c);
                            proof {
                                assert(prevacc.push(c).drop_last() =~= prevacc);
                                assert(view_clause_seq(acc@) == view_clause_seq(prevacc).push(
                                    c@,
                                ));
                            }
                        },
                    }
                },
            }
            i = i + 1;
        }
        proof {
            assert(cv.thens.subrange(0, cv.thens.len() as int) =~= cv.thens);
        }
        let ghost cs1 = view_clause_seq(acc@);
        let ghost bk1 = SpecBook {
            m: view_map(ctv_to_tx@),
            min: amount_range.min,
            max: amount_range.max,
        };
        let ghost bk2in = SpecBook { m: Seq::empty(), min: bk1.min, max: bk1.max };
        let ghost fdata = fo_data(cv.finish_ors);
        proof {
            assert(view_map(suggested_txs@) =~= Seq::<(Seq<u8>, SpecTemplate)>::empty());
            assert(fdata.subrange(0, 0) =~= Seq::<Option<SpecBranchData>>::empty());
        }
        let mut i: usize = 0;
        while i < self.finish_or_branches.len()
            invariant
                i <= self.finish_or_branches.len(),
                cache_wf(gc, table),
                view_map(ctv_to_tx@) == bk1.m,
                ({
                    let st = spec_stage(table, fdata.subrange(0, i as int), false, bk2in);
                    &&& st matches Result::Ok(p)
                    &&& view_clause_seq(acc@) == cs1 + p.0
                    &&& view_map(suggested_txs@) == p.1.m
                    &&& amount_range.min == p.1.min
                    &&& amount_range.max == p.1.max
                }),
            decreases self.finish_or_branches.len() - i,
        {
            proof {
                let q = fdata.subrange(0, i + 1);
                assert(q.drop_last() =~= fdata.subrange(0, i as int));
                assert(q.last() == fdata[i as int]);
            }
            match &self.finish_or_branches[i] {
                Option::None => {},
                Option::Some(b) => {
                    let ghost prevacc = acc@;
                    let res = process_branch(
                        &self.guards,
                        &mut gc,
                        &b.guards,
                        &b.conditions,
                        &b.templates,
                        false,
                        ctx,
                        &mut suggested_txs,
                        &mut amount_range,
                    );
                    match res {
                        Result::Err(e) => {
                            proof {
                                lemma_stage_err_extend(table, fdata, false, bk2in, i + 1);
                            }
                            return Err(e);
                        },
                        Result::Ok(Option::None) => {},
                        Result::Ok(Option::Some(c)) => {
                            acc.push(c);
                            proof {
                                assert(prevacc.push(c).drop_last() =~= prevacc);
                                assert(view_clause_seq(acc@) == view_clause_seq(prevacc).push(
                                    c@,
                                ));
                                let st = spec_stage(table, fdata.subrange(0, i + 1), false, bk2in);
                                assert(st matches Result::Ok(p) && view_clause_seq(acc@) =~= cs1
                                    + p.0);
                            }
                        },
                    }
                },
            }
            i = i + 1;
        }
        proof {
            assert(fdata.subrange(0, fdata.len() as int) =~= fdata);
        }
        let ghost cs2 = view_clause_seq(acc@).skip(cs1.len() as int);
        let ghost bk2 = SpecBook {
            m: view_map(suggested_txs@),
            min: amount_range.min,
            max: amount_range.max,
        };
        proof {
            assert(cs1 + cs2 =~= view_clause_seq(acc@));
        }
        let continue_apis = build_continuations(&self.finish_or_branches);
        let ghost fs = spec_finish_clauses(table, cv.finish_guards);
        let mut fin: Vec<Clause> = Vec::new();
        let mut any_nontrivial = false;
        proof {
            assert(cv.finish_guards.subrange(0, 0) =~= Seq::<int>::empty());
        }
        let mut i: usize = 0;
        while i < self.finish_guards.len()
            invariant
                i <= self.finish_guards.len(),
                cache_wf(gc, table),
                view_clause_seq(fin@) == spec_finish_clauses(
                    table,
                    cv.finish_guards.subrange(0, i as int),
                ),
                any_nontrivial == !(forall|x: int|
                    0 <= x < view_clause_seq(fin@).len() ==> (#[trigger] view_clause_seq(
                        fin@,
                    )[x]) is Trivial),
            decreases self.finish_guards.len() - i,
        {
            proof {
                let q = cv.finish_guards.subrange(0, i + 1);
                assert(q.drop_last() =~= cv.finish_guards.subrange(0, i as int));
                assert(q.last() == cv.finish_guards[i as int]);
            }
            let got = gc.get(&self.guards, self.finish_guards[i]);
            match got {
                Option::None => {},
                Option::Some(c) => {
                    let nt = !c.is_trivial();
                    let ghost prevfin = fin@;
                    let ghost prevany = any_nontrivial;
                    fin.push(c);
                    if nt {
                        any_nontrivial = true;
                    }
                    proof {
                        let vprev = view_clause_seq(prevfin);
                        assert(prevfin.push(c).drop_last() =~= prevfin);
                        let vnew = view_clause_seq(fin@);
                        assert(vnew == vprev.push(c@));
                        if !(c@ is Trivial) {
                            assert(!(vnew[vnew.len() - 1] is Trivial));
                        } else if prevany {
                            let w = choose|x: int|
                                0 <= x < vprev.len() && !((#[trigger] vprev[x]) is Trivial);
                            assert(!(vnew[w] is Trivial));
                        } else {
                            assert forall|x: int|
                                0 <= x < vnew.len() implies (#[trigger] vnew[x]) is Trivial by {
                                if x < vprev.len() {
                                    assert(vprev[x] is Trivial);
                                } else {
                                    assert(vnew[x] == c@);
                                }
                            }
                        }
                    }
                },
            }
            i = i + 1;
        }
        proof {
            assert(cv.finish_guards.subrange(0, cv.finish_guards.len() as int)
                =~= cv.finish_guards);
            lemma_view_clause_seq(fin@);
        }
        let ghost gate = spec_finish_gate(fs);
        if fin.len() > 0 && any_nontrivial {
            if fin.len() == 1 {
                let mut fin = fin;
                match fin.pop() {
                    Option::Some(c) => {
                        proof {
                            assert(c@ == fs[0]);
                        }
                        let ghost prevacc = acc@;
                        acc.push(c);
                        proof {
                            assert(prevacc.push(c).drop_last() =~= prevacc);
                            assert(view_clause_seq(acc@) == view_clause_seq(prevacc).push(c@));
                            assert(view_clause_seq(acc@) =~= cs1 + cs2 + gate);
                        }
                    },
                    Option::None => {},
                }
            } else {
                let c = Clause::Threshold(1, fin);
                let ghost prevacc = acc@;
                acc.push(c);
                proof {
                    assert(prevacc.push(c).drop_last() =~= prevacc);
                    assert(view_clause_seq(acc@) == view_clause_seq(prevacc).push(c@));
                    assert(view_clause_seq(acc@) =~= cs1 + cs2 + gate);
                }
            }
        } else {
            proof {
                if fin@.len() == 0 {
                    assert(gate =~= Seq::<SpecClause>::empty());
                } else {
                    assert(forall|x: int| 0 <= x < fs.len() ==> (#[trigger] fs[x]) is Trivial);
                    assert(gate =~= Seq::<SpecClause>::empty());
                }
                assert(view_clause_seq(acc@) =~= cs1 + cs2 + gate);
            }
        }
        let ghost all = cs1 + cs2 + gate;
        proof {
            lemma_view_clause_seq(acc@);
        }
        let policy = if acc.len() == 0 {
            return Err(CompileError::EmptyPolicy);
        } else if acc.len() == 1 {
            let mut acc = acc;
            match acc.pop() {
                Option::Some(c) => c,
                Option::None => Clause::Unsatisfiable,
            }
        } else {
            Clause::Threshold(1, acc)
        };
        proof {
            assert(policy@ == (if all.len() == 1 {
                all[0]
            } else {
                SpecClause::Threshold(1, all)
            }));
        }
        Ok(Assembled { ctv_to_tx, suggested_txs, continue_apis, policy, amount_range })
    }

    /// The main compilation logic for a contract: assemble the policy and
    /// bookkeeping, then emit the descriptor and deposit address through
    /// the external policy compiler.
    pub fn compile(&self, ctx: Context) -> (r: Result<Compiled, CompileError>)
        requires
            self.wf(),
        ensures
            ({
                match spec_compile(self@) {
                    Result::Err(e) => r matches Result::Err(e2) && e2@ == e,
                    Result::Ok(pre) => match wsh_compilation(
                        policy_text(pre.policy),
                        network_code(ctx.network),
                    ) {
                        Option::Some(da) => r matches Result::Ok(out) && out@ == SpecCompiled {
                            ctv_to_tx: pre.ctv,
                            suggested_txs: pre.sugg,
                            continue_apis: pre.apis,
                            address: da.1,
                            descriptor: Option::Some(da.0),
                            policy: Option::Some(pre.policy),
                            min: pre.min,
                            max: pre.max,
                        },
                        Option::None => r matches Result::Err(e2) && e2@ is PolicyCompilation,
                    },
                }
            }),
    {
        let parts = match self.assemble(&ctx) {
            Result::Ok(a) => a,
            Result::Err(e) => {
                return Err(e);
            },
        };
        let ptext = policy_to_bytes(&parts.policy);
        let code = ctx.network.code();
        match compile_policy_text(&ptext, code) {
            Result::Ok(da) => {
                let (d, a) = da;
                let out = Compiled {
                    ctv_to_tx: parts.ctv_to_tx,
                    suggested_txs: parts.suggested_txs,
                    continue_apis: parts.continue_apis,
                    address: a,
                    descriptor: Some(d),
                    policy: Some(parts.policy),
                    amount_range: parts.amount_range,
                };
                proof {
                    let pre = spec_compile(self@)->Ok_0;
                    assert(out@ =~= SpecCompiled {
                        ctv_to_tx: pre.ctv,
                        suggested_txs: pre.sugg,
                        continue_apis: pre.apis,
                        address: out.address@,
                        descriptor: out@.descriptor,
                        policy: out@.policy,
                        min: pre.min,
                        max: pre.max,
                    });
                }
                Ok(out)
            },
            Result::Err(m) => Err(CompileError::PolicyCompilation(m)),
        }
    }
}

/// Anything which can be compiled: a contract, or an already-compiled
/// artifact, whose compilation is the identity.
pub trait Compilable: crate::seal::ImplSeal {
    /// When compilation may be invoked on this value.
    spec fn compile_wf(&self) -> bool;

    /// What compilation of this value returns.
    spec fn compile_post(&self, ctx: Context, r: Result<Compiled, CompileError>) -> bool;

    /// Compile a compilable object returning errors, if any.
    fn compile(&self, ctx: Context) -> (r: Result<Compiled, CompileError>)
        requires
            self.compile_wf(),
        ensures
            self.compile_post(ctx, r),
    ;
}

impl Compilable for Compiled {
    open spec fn compile_wf(&self) -> bool {
        true
    }

    /// Compiling an artifact is the identity.
    open spec fn compile_post(&self, ctx: Context, r: Result<Compiled, CompileError>) -> bool {
        r matches Result::Ok(c) && c@ == self@
    }

    fn compile(&self, ctx: Context) -> (r: Result<Compiled, CompileError>) {
        Compiled::compile(self, ctx)
    }
}

impl Compilable for ContractDef {
    open spec fn compile_wf(&self) -> bool {
        self.wf()
    }

    /// Compiling a contract returns exactly what the compilation pipeline
    /// and the external descriptor compiler determine.
    open spec fn compile_post(&self, ctx: Context, r: Result<Compiled, CompileError>) -> bool {
        match spec_compile(self@) {
            Result::Err(e) => r matches Result::Err(e2) && e2@ == e,
            Result::Ok(pre) => match wsh_compilation(
                policy_text(pre.policy),
                network_code(ctx.network),
            ) {
                Option::Some(da) => r matches Result::Ok(out) && out@ == SpecCompiled {
                    ctv_to_tx: pre.ctv,
                    suggested_txs: pre.sugg,
                    continue_apis: pre.apis,
                    address: da.1,
                    descriptor: Option::Some(da.0),
                    policy: Option::Some(pre.policy),
                    min: pre.min,
                    max: pre.max,
                },
                Option::None => r matches Result::Err(e2) && e2@ is PolicyCompilation,
            },
        }
    }

    fn compile(&self, ctx: Context) -> (r: Result<Compiled, CompileError>) {
        ContractDef::compile(self, ctx)
    }
}

} // verus!
