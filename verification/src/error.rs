//! Error taxonomy of the governance contract.

use vstd::prelude::*;

verus! {

/// Every way a call into the contract can fail.
///
/// All errors abort the call with no state change. The "prerequisite still
/// unresolved" condition is deliberately *not* an error: it is reported as a
/// successful outcome so callers know to retry later.
#[derive(Debug, Clone, PartialEq, Eq)]
pub enum ContractError {
    /// A stored record that the call needs does not exist.
    Std {},
    /// The caller is not allowed to make this query.
    Unauthorized {},
    /// The proposal's voting period has not ended, so it cannot be executed.
    VotingPeriodNotEnded {},
    /// The proposal's voting period has ended, so it can no longer be voted on.
    VotingPeriodHasEnded {},
    /// The voted option is not one of the proposal's options.
    InvalidOption {},
    /// The voter has already voted on this proposal.
    AlreadyVoted {},
    /// A callback of the wrong kind (an execution result where a query result
    /// was expected) was delivered.
    UnauthorizedIbcMessage {},
    /// Cross-chain delivery failed, or a callback could not be correlated.
    IBCError {},
    /// A tally was requested for a proposal that has not been executed.
    ProposalNotExecuted {},
}

impl ContractError {
    /// A short stable name for the error, for callers that log or display it.
    pub fn as_text(&self) -> (r: &'static str)
    {
        match self {
            ContractError::Std {} => "storage entry not found",
            ContractError::Unauthorized {} => "unauthorized",
            ContractError::VotingPeriodNotEnded {} => "voting period has not ended",
            ContractError::VotingPeriodHasEnded {} => "voting period has ended",
            ContractError::InvalidOption {} => "invalid option",
            ContractError::AlreadyVoted {} => "already voted",
            ContractError::UnauthorizedIbcMessage {} => "unauthorized ibc message",
            ContractError::IBCError {} => "ibc error",
            ContractError::ProposalNotExecuted {} => "proposal not executed",
        }
    }
}

} // verus!
