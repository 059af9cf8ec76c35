//! Message and response types of the governance contract's interface.
//!
//! These are the wire shapes: commands, queries, their responses, the
//! cross-chain tally query, and the callback payloads of the remote
//! resolution protocol. Serialization lives with the transport, outside the
//! library; here the types carry plain values.

use vstd::prelude::*;

use crate::state::{Proposal, Vote};

verus! {

/// Instantiation input of the governance contract (none needed).
#[derive(Debug, Clone, PartialEq, Eq)]
pub struct CCGovInstantiateMsg {}

/// The proposal-mutating commands.
#[derive(Debug, Clone, PartialEq, Eq)]
pub enum CCGovExecuteMsg {
    /// Create a new proposal.
    CreateProposal {
        title: String,
        description: String,
        power_contract_addr: String,
        options: Vec<String>,
        /// Per prerequisite: proposal id on the remote chain, remote chain id,
        /// remote contract address.
        prereq_proposals: Vec<(u64, String, String)>,
    },
    /// Execute a proposal whose voting period has ended.
    ExecuteProposal { prop_id: u64 },
    /// Vote on a proposal; the voter's power comes from the proposal's power
    /// oracle contract.
    Vote { prop_id: u64, option: String },
}

/// The cross-chain message a dependent chain sends to fetch a tally.
#[derive(Debug, Clone, PartialEq, Eq)]
pub enum CCGovIbcMessage {
    QueryTally { prop_id: u64 },
}

/// Migration input (nothing to migrate).
#[derive(Debug, Clone, PartialEq, Eq)]
pub struct CCGovMigrateMsg {}

/// The read-only queries.
#[derive(Debug, Clone, PartialEq, Eq)]
pub enum CCGovQueryMsg {
    QueryProposal { prop_id: u64 },
    QueryVote { prop_id: u64, voter: String },
    QueryTotalVotedPower { prop_id: u64 },
    QueryExecutedProposals {},
    QueryTally { prop_id: u64 },
}

#[derive(Debug, Clone, PartialEq, Eq)]
pub struct QueryProposalResponse {
    pub prop: Proposal,
}

#[derive(Debug, Clone, PartialEq, Eq)]
pub struct QueryVoteResponse {
    pub vote: Vote,
}

/// The request every pluggable power-oracle contract must answer.
#[derive(Debug, Clone, PartialEq, Eq)]
pub struct GetVotingPowerMsg {
    pub voter: String,
}

/// The response shape every power-oracle contract must produce.
#[derive(Debug, Clone, PartialEq, Eq)]
pub struct GetVotingPowerResponse {
    pub power: u64,
}

#[derive(Debug, Clone, PartialEq, Eq)]
pub struct QueryTotalVotedPowerResponse {
    pub power: u64,
}

#[derive(Debug, Clone, PartialEq, Eq)]
pub struct QueryExecutedProposalsResponse {
    pub executed_proposals: Vec<(u64, String)>,
}

#[derive(Debug, Clone, PartialEq, Eq)]
pub struct QueryTallyResponse {
    /// Option and its total, in the proposal's declared option order.
    pub tally: Vec<(String, u64)>,
}

/// The response to one of the read-only queries, by query kind.
#[derive(Debug, Clone, PartialEq, Eq)]
pub enum CCGovQueryResponse {
    Proposal(QueryProposalResponse),
    Vote(QueryVoteResponse),
    TotalVotedPower(QueryTotalVotedPowerResponse),
    ExecutedProposals(QueryExecutedProposalsResponse),
    Tally(QueryTallyResponse),
}

/// The correlation payload attached to a dispatched tally query: the local
/// prerequisite id awaiting resolution, and where the query went.
#[derive(Debug, Clone, PartialEq, Eq)]
pub struct RemoteProposalMsg {
    /// The local prerequisite id this query resolves.
    pub prop_id: u64,
    pub remote_chain_id: String,
    pub remote_contract_addr: String,
}

/// One tally query to dispatch: ask `remote_contract_addr` on
/// `remote_chain_id` for the tally of its proposal `remote_prop_id`, and
/// correlate the callback with local prerequisite `prereq_id`.
#[derive(Debug, Clone, PartialEq, Eq)]
pub struct TallyQuery {
    pub prereq_id: u64,
    pub remote_prop_id: u64,
    pub remote_chain_id: String,
    pub remote_contract_addr: String,
}

/// The result a delivered callback carries.
#[derive(Debug, Clone, PartialEq, Eq)]
pub enum CallbackResult {
    /// The queried chain answered: the prerequisite's tally.
    Query { tally: Vec<(String, u64)> },
    /// An execution result arrived where a query result was expected.
    Execute {},
    /// Cross-chain delivery failed fatally.
    FatalError {},
}

/// Ghost counterpart of [`TallyQuery`].
#[verifier::ext_equal]
pub struct TallyQueryModel {
    pub prereq_id: u64,
    pub remote_prop_id: u64,
    pub remote_chain_id: Seq<char>,
    pub remote_contract_addr: Seq<char>,
}

/// Ghost counterpart of [`CallbackResult`].
pub enum CallbackResultModel {
    Query { tally: Seq<(Seq<char>, u64)> },
    Execute,
    FatalError,
}

impl View for TallyQuery {
    type V = TallyQueryModel;

    open spec fn view(&self) -> TallyQueryModel {
        TallyQueryModel {
            prereq_id: self.prereq_id,
            remote_prop_id: self.remote_prop_id,
            remote_chain_id: self.remote_chain_id@,
            remote_contract_addr: self.remote_contract_addr@,
        }
    }
}

impl View for CallbackResult {
    type V = CallbackResultModel;

    open spec fn view(&self) -> CallbackResultModel {
        match self {
            CallbackResult::Query { tally } => CallbackResultModel::Query {
                tally: crate::tally::tally_model(tally@),
            },
            CallbackResult::Execute {} => CallbackResultModel::Execute,
            CallbackResult::FatalError {} => CallbackResultModel::FatalError,
        }
    }
}

} // verus!
