//! The boolean policy clause tree that compilation assembles.
//!
//! A clause is a tree over trivially-true, unsatisfiable, an opaque leaf
//! predicate (a signing key), a commitment to a transaction-template hash,
//! a binary conjunction, and an n-of-m threshold. The tree is built
//! bottom-up during compilation and handed once, immutably, to the external
//! policy compiler, which consumes it in its textual policy grammar.
use vstd::prelude::*;

verus! {

broadcast use vstd::std_specs::vec::group_vec_axioms, vstd::seq::group_seq_axioms;

/// An executable boolean policy clause.
#[derive(Debug, PartialEq, Eq)]
pub enum Clause {
    /// Trivially satisfiable.
    Trivial,
    /// Never satisfiable; used to mark dead branches before pruning.
    Unsatisfiable,
    /// Opaque leaf predicate: a signature check against a public key,
    /// held as the key's serialized bytes.
    Key(Vec<u8>),
    /// Commitment to exactly one future transaction, by template hash.
    TxTemplate(Vec<u8>),
    /// Conjunction of two clauses.
    And(Box<Clause>, Box<Clause>),
    /// Satisfied when at least `k` of the listed clauses are satisfied.
    Threshold(usize, Vec<Clause>),
}

/// The mathematical value of a `Clause`.
pub enum SpecClause {
    Trivial,
    Unsatisfiable,
    Key(Seq<u8>),
    TxTemplate(Seq<u8>),
    And(Box<SpecClause>, Box<SpecClause>),
    Threshold(int, Seq<SpecClause>),
}

pub open spec fn view_clause(c: Clause) -> SpecClause
    decreases c,
{
    match c {
        Clause::Trivial => SpecClause::Trivial,
        Clause::Unsatisfiable => SpecClause::Unsatisfiable,
        Clause::Key(k) => SpecClause::Key(k@),
        Clause::TxTemplate(h) => SpecClause::TxTemplate(h@),
        Clause::And(a, b) => SpecClause::And(Box::new(view_clause(*a)), Box::new(view_clause(*b))),
        Clause::Threshold(k, cs) => SpecClause::Threshold(k as int, view_clause_seq(cs@)),
    }
}

pub open spec fn view_clause_seq(cs: Seq<Clause>) -> Seq<SpecClause>
    decreases cs,
{
    if cs.len() == 0 {
        Seq::empty()
    } else {
        view_clause_seq(cs.drop_last()).push(view_clause(cs.last()))
    }
}

/// The sequence view is the element-wise clause view.
pub proof fn lemma_view_clause_seq(cs: Seq<Clause>)
    ensures
        view_clause_seq(cs).len() == cs.len(),
        forall|i: int| 0 <= i < cs.len() ==> #[trigger] view_clause_seq(cs)[i] == view_clause(cs[i]),
    decreases cs,
{
    if cs.len() > 0 {
        lemma_view_clause_seq(cs.drop_last());
        assert forall|i: int| 0 <= i < cs.len() implies #[trigger] view_clause_seq(cs)[i]
            == view_clause(cs[i]) by {
            if i < cs.len() - 1 {
                assert(cs.drop_last()[i] == cs[i]);
                assert(view_clause_seq(cs)[i] == view_clause_seq(cs.drop_last())[i]);
            }
        }
    }
}

impl View for Clause {
    type V = SpecClause;

    open spec fn view(&self) -> SpecClause {
        view_clause(*self)
    }
}

impl Clause {
    /// Whether this clause is the trivially-true clause.
    pub fn is_trivial(&self) -> (r: bool)
        ensures
            r == (self@ is Trivial),
    {
        match self {
            Clause::Trivial => true,
            _ => false,
        }
    }

    /// Whether this clause is the unsatisfiable clause.
    pub fn is_unsatisfiable(&self) -> (r: bool)
        ensures
            r == (self@ is Unsatisfiable),
    {
        match self {
            Clause::Unsatisfiable => true,
            _ => false,
        }
    }

    /// A structurally identical copy of this clause.
    #[verifier::loop_isolation(false)]
    pub fn deep_clone(&self) -> (r: Clause)
        ensures
            r@ == self@,
        decreases *self,
    {
        match self {
            Clause::Trivial => Clause::Trivial,
            Clause::Unsatisfiable => Clause::Unsatisfiable,
            Clause::Key(k) => Clause::Key(clone_bytes(k)),
            Clause::TxTemplate(h) => Clause::TxTemplate(clone_bytes(h)),
            Clause::And(a, b) => Clause::And(
                Box::new(a.deep_clone()),
                Box::new(b.deep_clone()),
            ),
            Clause::Threshold(k, cs) => {
                let mut out: Vec<Clause> = Vec::new();
                let mut i: usize = 0;
                while i < cs.len()
                    invariant
                        i <= cs.len(),
                        out@.len() == i as int,
                        forall|j: int|
                            0 <= j < i ==> #[trigger] view_clause(out@[j]) == view_clause(cs@[j]),
                    decreases cs.len() - i,
                {
                    proof {
                        assert(decreases_to!(*self => *cs));
                        assert(decreases_to!(*cs => cs@[i as int]));
                    }
                    out.push(cs[i].deep_clone());
                    i = i + 1;
                }
                proof {
                    lemma_view_clause_seq(out@);
                    lemma_view_clause_seq(cs@);
                    assert(view_clause_seq(out@) =~= view_clause_seq(cs@));
                }
                Clause::Threshold(*k, out)
            },
        }
    }
}

/// The lower-case hex digit for a nibble `n < 16`.
pub open spec fn hex_digit(n: u8) -> u8 {
    if n < 10 {
        (48 + n) as u8
    } else {
        (87 + n) as u8
    }
}

/// Lower-case hex encoding of a byte sequence, two digits per byte.
pub open spec fn hex_seq(b: Seq<u8>) -> Seq<u8>
    decreases b,
{
    if b.len() == 0 {
        Seq::empty()
    } else {
        hex_seq(b.drop_last()) + seq![hex_digit(b.last() / 16), hex_digit(b.last() % 16)]
    }
}

/// Decimal digits of a non-negative integer, most significant first.
pub open spec fn dec_digits(n: int) -> Seq<u8>
    recommends
        n >= 0,
    decreases n,
{
    if n < 10 {
        seq![(48 + n) as u8]
    } else {
        dec_digits(n / 10).push((48 + n % 10) as u8)
    }
}

/// The textual policy grammar the external policy compiler consumes:
/// `TRIVIAL`, `UNSATISFIABLE`, `pk(<hex key>)`, `sha256(<hex hash>)`,
/// `and(a,b)` and `thresh(k,a,b,...)`.
pub open spec fn policy_text(c: SpecClause) -> Seq<u8>
    decreases c,
{
    match c {
        SpecClause::Trivial => seq![84u8, 82u8, 73u8, 86u8, 73u8, 65u8, 76u8],
        SpecClause::Unsatisfiable => seq![
            85u8,
            78u8,
            83u8,
            65u8,
            84u8,
            73u8,
            83u8,
            70u8,
            73u8,
            65u8,
            66u8,
            76u8,
            69u8,
        ],
        SpecClause::Key(k) => seq![112u8, 107u8, 40u8] + hex_seq(k) + seq![41u8],
        SpecClause::TxTemplate(h) => seq![115u8, 104u8, 97u8, 50u8, 53u8, 54u8, 40u8] + hex_seq(h)
            + seq![41u8],
        SpecClause::And(a, b) => seq![97u8, 110u8, 100u8, 40u8] + policy_text(*a) + seq![44u8]
            + policy_text(*b) + seq![41u8],
        SpecClause::Threshold(k, cs) => seq![116u8, 104u8, 114u8, 101u8, 115u8, 104u8, 40u8]
            + dec_digits(k) + policy_text_list(cs) + seq![41u8],
    }
}

/// The clauses of a threshold, each preceded by a comma.
pub open spec fn policy_text_list(cs: Seq<SpecClause>) -> Seq<u8>
    decreases cs,
{
    if cs.len() == 0 {
        Seq::empty()
    } else {
        policy_text_list(cs.drop_last()) + seq![44u8] + policy_text(cs.last())
    }
}

/// Append `a`'s bytes to `v`.
fn push_arr<const N: usize>(v: &mut Vec<u8>, a: [u8; N])
    ensures
        final(v)@ == old(v)@ + a@,
{
    let mut i: usize = 0;
    while i < N
        invariant
            i <= N,
            v@ =~= old(v)@ + a@.subrange(0, i as int),
        decreases N - i,
    {
        v.push(a[i]);
        i = i + 1;
    }
    proof {
        assert(v@ =~= old(v)@ + a@);
    }
}

/// Append the hex encoding of `b` to `v`.
fn push_hex(v: &mut Vec<u8>, b: &Vec<u8>)
    ensures
        final(v)@ == old(v)@ + hex_seq(b@),
{
    let mut i: usize = 0;
    while i < b.len()
        invariant
            i <= b.len(),
            v@ =~= old(v)@ + hex_seq(b@.subrange(0, i as int)),
        decreases b.len() - i,
    {
        let x = b[i];
        let hi = x / 16;
        let lo = x % 16;
        v.push(if hi < 10 { 48 + hi } else { 87 + hi });
        v.push(if lo < 10 { 48 + lo } else { 87 + lo });
        proof {
            let p = b@.subrange(0, i as int);
            let q = b@.subrange(0, i + 1);
            assert(q.drop_last() =~= p);
            assert(q.last() == b@[i as int]);
            assert(v@ =~= old(v)@ + hex_seq(q));
        }
        i = i + 1;
    }
    proof {
        assert(b@.subrange(0, b@.len() as int) =~= b@);
    }
}

/// Append the decimal digits of `n` to `v`.
fn push_dec(v: &mut Vec<u8>, n: u64)
    ensures
        final(v)@ == old(v)@ + dec_digits(n as int),
    decreases n,
{
    if n < 10 {
        v.push(48 + n as u8);
    } else {
        push_dec(v, n / 10);
        v.push(48 + (n % 10) as u8);
    }
}

/// Append the policy text of `c` to `v`.
#[verifier::loop_isolation(false)]
fn push_policy_text(v: &mut Vec<u8>, c: &Clause)
    ensures
        final(v)@ == old(v)@ + policy_text(c@),
    decreases *c,
{
    match c {
        Clause::Trivial => {
            push_arr(v, [84u8, 82u8, 73u8, 86u8, 73u8, 65u8, 76u8]);
            proof {
                assert(v@ =~= old(v)@ + policy_text(c@));
            }
        },
        Clause::Unsatisfiable => {
            push_arr(
                v,
                [85u8, 78u8, 83u8, 65u8, 84u8, 73u8, 83u8, 70u8, 73u8, 65u8, 66u8, 76u8, 69u8],
            );
            proof {
                assert(v@ =~= old(v)@ + policy_text(c@));
            }
        },
        Clause::Key(k) => {
            push_arr(v, [112u8, 107u8, 40u8]);
            push_hex(v, k);
            v.push(41u8);
            proof {
                assert(v@ =~= old(v)@ + policy_text(c@));
            }
        },
        Clause::TxTemplate(h) => {
            push_arr(v, [115u8, 104u8, 97u8, 50u8, 53u8, 54u8, 40u8]);
            push_hex(v, h);
            v.push(41u8);
            proof {
                assert(v@ =~= old(v)@ + policy_text(c@));
            }
        },
        Clause::And(a, b) => {
            push_arr(v, [97u8, 110u8, 100u8, 40u8]);
            push_policy_text(v, a);
            v.push(44u8);
            push_policy_text(v, b);
            v.push(41u8);
            proof {
                assert(v@ =~= old(v)@ + policy_text(c@));
            }
        },
        Clause::Threshold(k, cs) => {
            push_arr(v, [116u8, 104u8, 114u8, 101u8, 115u8, 104u8, 40u8]);
            push_dec(v, *k as u64);
            let ghost mid = v@;
            let mut i: usize = 0;
            while i < cs.len()
                invariant
                    i <= cs.len(),
                    v@ =~= mid + policy_text_list(view_clause_seq(cs@).subrange(0, i as int)),
                decreases cs.len() - i,
            {
                proof {
                    assert(decreases_to!(*c => *cs));
                    assert(decreases_to!(*cs => cs@[i as int]));
                }
                v.push(44u8);
                push_policy_text(v, &cs[i]);
                proof {
                    lemma_view_clause_seq(cs@);
                    let p = view_clause_seq(cs@).subrange(0, i as int);
                    let q = view_clause_seq(cs@).subrange(0, i + 1);
                    assert(q.drop_last() =~= p);
                    assert(q.last() == view_clause(cs@[i as int]));
                    assert(v@ =~= mid + policy_text_list(q));
                }
                i = i + 1;
            }
            v.push(41u8);
            proof {
                lemma_view_clause_seq(cs@);
                assert(view_clause_seq(cs@).subrange(0, cs@.len() as int) =~= view_clause_seq(
                    cs@,
                ));
                assert(v@ =~= old(v)@ + policy_text(c@));
            }
        },
    }
}

/// The textual policy-grammar rendering of `c`, as ASCII bytes.
pub fn policy_to_bytes(c: &Clause) -> (r: Vec<u8>)
    ensures
        r@ == policy_text(c@),
{
    let mut v: Vec<u8> = Vec::new();
    push_policy_text(&mut v, c);
    v
}

/// A copy of a byte vector, equal to the original.
pub fn clone_bytes(b: &Vec<u8>) -> (r: Vec<u8>)
    ensures
        r@ == b@,
{
    let mut out: Vec<u8> = Vec::new();
    let mut i: usize = 0;
    while i < b.len()
        invariant
            i <= b.len(),
            out@ =~= b@.subrange(0, i as int),
        decreases b.len() - i,
    {
        out.push(b[i]);
        i = i + 1;
    }
    proof {
        assert(out@ =~= b@);
    }
    out
}

} // verus!
