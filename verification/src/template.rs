//! Transaction templates: semantically fixed descriptions of the outputs a
//! contract can transition to, content-addressed by a commitment hash, and
//! the running funding bound they imply.
use vstd::prelude::*;

use crate::clause::clone_bytes;

verus! {

broadcast use vstd::std_specs::vec::group_vec_axioms, vstd::seq::group_seq_axioms;

/// One output of a transaction template: an amount (in satoshis) paid to a
/// script.
#[derive(Debug, PartialEq, Eq)]
pub struct Output {
    /// Amount paid, in satoshis.
    pub amount: u64,
    /// The serialized script the amount is paid to.
    pub script: Vec<u8>,
}

/// The mathematical value of an `Output`.
pub struct SpecOutput {
    pub amount: u64,
    pub script: Seq<u8>,
}

impl View for Output {
    type V = SpecOutput;

    open spec fn view(&self) -> SpecOutput {
        SpecOutput { amount: self.amount, script: self.script@ }
    }
}

/// One possible next transaction of a contract: its outputs and the maximum
/// amount (in satoshis) the contract must hold to service it.
#[derive(Debug, PartialEq, Eq)]
pub struct Template {
    /// The outputs of the transaction.
    pub outputs: Vec<Output>,
    /// Maximum amount bound used to update the contract's funding range.
    pub max: u64,
}

/// The mathematical value of a `Template`.
pub struct SpecTemplate {
    pub outputs: Seq<SpecOutput>,
    pub max: u64,
}

impl View for Template {
    type V = SpecTemplate;

    open spec fn view(&self) -> SpecTemplate {
        SpecTemplate { outputs: view_outputs(self.outputs@), max: self.max }
    }
}

pub open spec fn view_outputs(os: Seq<Output>) -> Seq<SpecOutput> {
    os.map_values(|o: Output| o@)
}

/// Little-endian encoding of a 64-bit value, eight bytes.
pub open spec fn le8(n: u64) -> Seq<u8> {
    seq![
        (n & 0xff) as u8,
        ((n >> 8) & 0xff) as u8,
        ((n >> 16) & 0xff) as u8,
        ((n >> 24) & 0xff) as u8,
        ((n >> 32) & 0xff) as u8,
        ((n >> 40) & 0xff) as u8,
        ((n >> 48) & 0xff) as u8,
        ((n >> 56) & 0xff) as u8,
    ]
}

/// Canonical byte encoding of one output: amount, script length, script.
pub open spec fn encode_output(o: SpecOutput) -> Seq<u8> {
    le8(o.amount) + le8(o.script.len() as u64) + o.script
}

/// Canonical byte encoding of a sequence of outputs, in order.
pub open spec fn encode_outputs(os: Seq<SpecOutput>) -> Seq<u8>
    decreases os,
{
    if os.len() == 0 {
        Seq::empty()
    } else {
        encode_outputs(os.drop_last()) + encode_output(os.last())
    }
}

/// Canonical byte encoding of a template: output count, outputs, max bound.
/// Two templates with equal values have byte-identical encodings, so they
/// are content-addressed by the same commitment hash.
pub open spec fn encode_template(t: SpecTemplate) -> Seq<u8> {
    le8(t.outputs.len() as u64) + encode_outputs(t.outputs) + le8(t.max)
}

/// The commitment hash a template is content-addressed by.
pub open spec fn commitment_hash(t: SpecTemplate) -> Seq<u8> {
    sha256_of(encode_template(t))
}

/// What sha256 returns on a byte sequence.
pub uninterp spec fn sha256_of(b: Seq<u8>) -> Seq<u8>;

/// Relies on bitcoin's sha256 implementation: the digest is a pure function
/// of the input bytes, and is 32 bytes long.
#[verifier::external_body]
fn sha256(b: &Vec<u8>) -> (r: Vec<u8>)
    ensures
        r@ == sha256_of(b@),
        r@.len() == 32,
{
    let h = <bitcoin::hashes::sha256::Hash as bitcoin::hashes::Hash>::hash(b.as_slice());
    <bitcoin::hashes::sha256::Hash as bitcoin::hashes::Hash>::to_byte_array(h).to_vec()
}

/// Append the little-endian bytes of `n` to `v`.
fn push_le8(v: &mut Vec<u8>, n: u64)
    ensures
        final(v)@ == old(v)@ + le8(n),
{
    v.push((n & 0xff) as u8);
    v.push(((n >> 8) & 0xff) as u8);
    v.push(((n >> 16) & 0xff) as u8);
    v.push(((n >> 24) & 0xff) as u8);
    v.push(((n >> 32) & 0xff) as u8);
    v.push(((n >> 40) & 0xff) as u8);
    v.push(((n >> 48) & 0xff) as u8);
    v.push(((n >> 56) & 0xff) as u8);
    proof {
        assert(v@ =~= old(v)@ + le8(n));
    }
}

impl Output {
    /// An identical copy of this output.
    pub fn deep_clone(&self) -> (r: Output)
        ensures
            r@ == self@,
    {
        Output { amount: self.amount, script: clone_bytes(&self.script) }
    }
}

impl Template {
    /// An identical copy of this template.
    pub fn deep_clone(&self) -> (r: Template)
        ensures
            r@ == self@,
    {
        let mut outputs: Vec<Output> = Vec::new();
        let mut i: usize = 0;
        while i < self.outputs.len()
            invariant
                i <= self.outputs.len(),
                outputs@.len() == i as int,
                forall|j: int| 0 <= j < i ==> #[trigger] outputs@[j]@ == self.outputs@[j]@,
            decreases self.outputs.len() - i,
        {
            outputs.push(self.outputs[i].deep_clone());
            i = i + 1;
        }
        proof {
            assert(view_outputs(outputs@) =~= view_outputs(self.outputs@));
        }
        Template { outputs, max: self.max }
    }

    /// The canonical byte encoding this template is hashed over.
    pub fn encode(&self) -> (r: Vec<u8>)
        ensures
            r@ == encode_template(self@),
    {
        let mut v: Vec<u8> = Vec::new();
        push_le8(&mut v, self.outputs.len() as u64);
        let ghost head = v@;
        let mut i: usize = 0;
        while i < self.outputs.len()
            invariant
                i <= self.outputs.len(),
                v@ =~= head + encode_outputs(view_outputs(self.outputs@).subrange(0, i as int)),
            decreases self.outputs.len() - i,
        {
            let o = &self.outputs[i];
            push_le8(&mut v, o.amount);
            push_le8(&mut v, o.script.len() as u64);
            let mut j: usize = 0;
            while j < o.script.len()
                invariant
                    j <= o.script.len(),
                    v@ =~= head + encode_outputs(
                        view_outputs(self.outputs@).subrange(0, i as int),
                    ) + le8(o.amount) + le8(o.script.len() as u64) + o.script@.subrange(
                        0,
                        j as int,
                    ),
                    i < self.outputs.len(),
                    o == &self.outputs[i as int],
                decreases o.script.len() - j,
            {
                v.push(o.script[j]);
                proof {
                    assert(o.script@.subrange(0, j + 1) =~= o.script@.subrange(0, j as int).push(
                        o.script@[j as int],
                    ));
                    assert(v@ =~= head + encode_outputs(
                        view_outputs(self.outputs@).subrange(0, i as int),
                    ) + le8(o.amount) + le8(o.script.len() as u64) + o.script@.subrange(0, j + 1));
                }
                j = j + 1;
            }
            proof {
                let os = view_outputs(self.outputs@);
                let p = os.subrange(0, i as int);
                let q = os.subrange(0, i + 1);
                assert(q.drop_last() =~= p);
                assert(q.last() == os[i as int]);
                assert(o.script@.subrange(0, o.script@.len() as int) =~= o.script@);
                assert(v@ =~= head + encode_outputs(q));
            }
            i = i + 1;
        }
        push_le8(&mut v, self.max);
        proof {
            assert(view_outputs(self.outputs@).subrange(
                0,
                self.outputs@.len() as int,
            ) =~= view_outputs(self.outputs@));
            assert(v@ =~= encode_template(self@));
        }
        v
    }

    /// The commitment hash this template is content-addressed by.
    pub fn hash(&self) -> (r: Vec<u8>)
        ensures
            r@ == commitment_hash(self@),
            r@.len() == 32,
    {
        let e = self.encode();
        sha256(&e)
    }
}

/// Running `[min, max]` bound on the funds a contract must be able to hold.
#[derive(Debug, Clone, Copy, PartialEq, Eq, Structural)]
pub struct AmountRange {
    /// Smallest amount seen so far (in satoshis).
    pub min: u64,
    /// Largest amount seen so far (in satoshis).
    pub max: u64,
}

impl AmountRange {
    /// A fresh, empty range: no amount has been observed yet.
    pub fn new() -> (r: AmountRange)
        ensures
            r.min == u64::MAX,
            r.max == 0,
    {
        AmountRange { min: u64::MAX, max: 0 }
    }

    /// Widen the range to include `a`. The range only ever grows:
    /// `max` is monotonically non-decreasing and `min` non-increasing.
    pub fn update_range(&mut self, a: u64)
        ensures
            final(self).min == if a < old(self).min { a } else { old(self).min },
            final(self).max == if a > old(self).max { a } else { old(self).max },
            final(self).max >= old(self).max,
            final(self).min <= old(self).min,
            final(self).min <= a,
            final(self).max >= a,
    {
        if a < self.min {
            self.min = a;
        }
        if a > self.max {
            self.max = a;
        }
    }
}

} // verus!
