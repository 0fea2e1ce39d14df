//! Arguments for creating a contract: what an embedding application hands
//! the compiler, with the main payload kept generic so a caller need not
//! know its concrete shape.
use vstd::prelude::*;

use crate::context::NetworkDef;

verus! {

/// Arguments for creating this contract: the main argument payload, the
/// network the contract should be created for, and the funds available to
/// it in the ledger's native unit (satoshis).
pub struct CreateArgs<S> {
    /// The main contract arguments.
    pub arguments: S,
    /// The network the contract should be created for.
    pub network: NetworkDef,
    /// The amount of funds available to the contract, in satoshis.
    pub amount: u64,
}

} // verus!
