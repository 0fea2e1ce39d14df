//! The continuation ABI: named entries describing how an external actor may
//! resume interaction with a compiled contract at a specific suggested
//! branch, with validated arguments.
use vstd::prelude::*;

verus! {

/// Instructions for how to resume a contract compilation at a given point:
/// the argument schema required there, as a self-describing structural
/// document suitable for cross-process transmission.
#[derive(Debug, PartialEq, Eq)]
pub struct ContinuationPoint {
    /// The serialized schema of the arguments required at this point.
    pub schema: String,
}

impl View for ContinuationPoint {
    type V = Seq<char>;

    open spec fn view(&self) -> Seq<char> {
        self.schema@
    }
}

impl ContinuationPoint {
    /// An identical copy of this continuation point.
    pub fn deep_clone(&self) -> (r: ContinuationPoint)
        ensures
            r@ == self@,
    {
        ContinuationPoint { schema: self.schema.clone() }
    }
}

} // verus!
