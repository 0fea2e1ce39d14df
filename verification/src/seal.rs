//! Prevents anything outside this crate from implementing the compilable
//! capability: only a contract definition or an already-compiled artifact
//! can be compiled.
use vstd::prelude::*;

use crate::compiler::Compiled;
use crate::compiler::ContractDef;

verus! {

/// Implemented only by the compilable types of this crate.
pub trait ImplSeal {

}

impl ImplSeal for Compiled {

}

impl ImplSeal for ContractDef {

}

} // verus!
