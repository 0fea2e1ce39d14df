//! A compiler for declarative financial contracts: walks a contract's
//! declared transition branches, evaluates guard predicates with
//! memoization, merges per-branch logic into a single top-level policy,
//! and emits a compiled artifact with funding bounds.
pub mod args;
pub mod bet;
pub mod clause;
pub mod compiler;
pub mod conditional;
pub mod context;
pub mod continuation;
pub mod descriptor;
pub mod guards;
pub mod laws;
mod seal;
pub mod template;
