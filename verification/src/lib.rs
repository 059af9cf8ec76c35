//! Cross-chain governance: proposals, power-weighted votes, and execution
//! gated on the resolved tallies of prerequisite proposals on other chains.
//!
//! The library is the contract-level state machine: it validates and records
//! proposals and votes, tracks per-prerequisite resolution of remote tallies,
//! combines local and remote tallies into a deterministic winner, and answers
//! tally queries from dependent chains. All chain plumbing (storage engine,
//! message transport, the power oracle call) stays outside; callers hand in
//! plain values and perform the actions the library returns.
//!
//! - [`state`]: the persisted state, its ghost model, and the invariant
//! - [`contract`]: the entry points and their transition functions
//! - [`tally`]: per-option totals and winner selection
//! - [`laws`]: lifecycle properties proved for every state
//! - [`msg`]: the wire shapes of commands, queries, and callbacks
//! - [`error`]: the error taxonomy
//! - [`fixed_power`]: a minimal power oracle granting every voter power 1

use vstd::prelude::*;

pub mod contract;
pub mod error;
pub mod fixed_power;
pub mod laws;
pub mod msg;
pub mod state;
pub mod tally;

verus! {

/// The namespace under which the governance module is published. Only
/// sibling governance instances — remote modules asserting this namespace —
/// may query tallies across chains.
pub const CCGOV_NAMESPACE: &'static str = "ccgov-ns";

/// The module's own name within its namespace.
pub const CCGOV_NAME: &'static str = "ccgov";

/// The fully qualified module id: the namespace and the name.
pub const CCGOV_ID: &'static str = "ccgov-ns:ccgov";

/// The callback id under which tally-query responses are delivered.
pub const QUERY_TALLY_CALLBACK_ID: &'static str = "query_tally_callback";

/// The namespace as a mathematical string, for contracts.
pub open spec fn ccgov_namespace() -> Seq<char> {
    CCGOV_NAMESPACE@
}

} // verus!
