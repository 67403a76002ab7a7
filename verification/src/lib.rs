//! Policy evaluation, grading and worker decisions of a sandboxed
//! command-execution service.

use vstd::prelude::*;

pub mod adapters;
pub mod cli;
pub mod dedupe;
pub mod endpoint;
pub mod grader;
pub mod hash;
pub mod ip;
pub mod jet;
pub mod ledger;
pub mod observability;
pub mod pattern;
pub mod policy;
pub mod ports;
pub mod runner;
pub mod sandbox;
pub mod schema;
pub mod text;
pub mod worker;
pub mod yaml;

verus! {

/// Whether the architecture of this name is that of a WebAssembly host:
/// `wasm32` is, and no other.
pub fn is_wasm(target_arch: &str) -> (r: bool)
    ensures
        r == (target_arch@ == "wasm32"@),
{
    crate::dedupe::str_same(target_arch, "wasm32")
}

} // verus!
