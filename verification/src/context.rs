//! Compile-time context: the target network and a hierarchical path label
//! that namespaces diagnostics for nested branches. Contexts are immutable
//! values with a cheap "derive child with appended path segment" operation,
//! so sibling branches never share mutable state.
use vstd::prelude::*;

use crate::clause::Clause;
use crate::clause::clone_bytes;

verus! {

/// The ledger network a contract is compiled for.
#[derive(Debug, Clone, Copy, PartialEq, Eq, Structural)]
pub enum NetworkDef {
    /// Classic Bitcoin
    Bitcoin,
    /// Bitcoin's testnet
    Testnet,
    /// Bitcoin's signet
    Signet,
    /// Bitcoin's regtest
    Regtest,
}

impl NetworkDef {
    /// A small stable code for the network, used at the boundary to the
    /// external descriptor compiler.
    pub fn code(&self) -> (r: u8)
        ensures
            r == network_code(*self),
    {
        match self {
            NetworkDef::Bitcoin => 0,
            NetworkDef::Testnet => 1,
            NetworkDef::Signet => 2,
            NetworkDef::Regtest => 3,
        }
    }
}

/// The code `NetworkDef::code` returns for each network.
pub open spec fn network_code(n: NetworkDef) -> u8 {
    match n {
        NetworkDef::Bitcoin => 0,
        NetworkDef::Testnet => 1,
        NetworkDef::Signet => 2,
        NetworkDef::Regtest => 3,
    }
}

/// One segment of a context's hierarchical path label.
#[derive(Debug, Clone, Copy, PartialEq, Eq, Structural)]
pub enum PathSeg {
    /// The enforced-transition stage.
    ThenFn,
    /// The suggested-transition stage.
    FinishOrFn,
    /// The pure-guard stage.
    FinishFn,
    /// Conditional-inclusion evaluation.
    ConditionalCompileIf,
    /// Guard evaluation.
    Guards,
    /// Enforced template computation.
    NextTx,
    /// Suggested template computation.
    SuggestedTxs,
    /// A branch or condition index within a stage.
    Index(usize),
}

/// Compile-time parameters: target network and a path label namespacing
/// nested branches.
pub struct Context {
    /// The network the contract is compiled for.
    pub network: NetworkDef,
    /// Hierarchical path of the compilation step this context is scoped to.
    pub path: Vec<PathSeg>,
}

impl Context {
    /// A root context for a network.
    pub fn new(network: NetworkDef) -> (r: Context)
        ensures
            r.network == network,
            r.path@ =~= Seq::<PathSeg>::empty(),
    {
        Context { network, path: Vec::new() }
    }

    /// A child context scoped under one more path segment.
    pub fn derive(&self, seg: PathSeg) -> (r: Context)
        ensures
            r.network == self.network,
            r.path@ == self.path@.push(seg),
    {
        let mut path = clone_path(&self.path);
        path.push(seg);
        Context { network: self.network, path }
    }

    /// A cheap copy for reuse across sibling branches.
    pub fn internal_clone(&self) -> (r: Context)
        ensures
            r.network == self.network,
            r.path@ == self.path@,
    {
        Context { network: self.network, path: clone_path(&self.path) }
    }

    /// The clause that commits the contract to the transaction template
    /// with hash `h`.
    pub fn ctv_emulator(&self, h: &Vec<u8>) -> (r: Clause)
        ensures
            r@ == crate::clause::SpecClause::TxTemplate(h@),
    {
        Clause::TxTemplate(clone_bytes(h))
    }
}

/// A copy of a path, equal to the original.
fn clone_path(p: &Vec<PathSeg>) -> (r: Vec<PathSeg>)
    ensures
        r@ == p@,
{
    let mut out: Vec<PathSeg> = Vec::new();
    let mut i: usize = 0;
    while i < p.len()
        invariant
            i <= p.len(),
            out@ =~= p@.subrange(0, i as int),
        decreases p.len() - i,
    {
        out.push(p[i]);
        i = i + 1;
    }
    proof {
        assert(out@ =~= p@);
    }
    out
}

} // verus!
