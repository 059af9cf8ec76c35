//! A minimal power oracle: it grants every voter a power of 1, turning the
//! weighted tally into a plain head count. It documents the capability every
//! pluggable power source must implement: `GetVotingPower(voter) -> power`.

use vstd::prelude::*;

verus! {

/// Instantiation input of the fixed-power oracle (none needed).
#[derive(Debug, Clone, PartialEq, Eq)]
pub struct InstantiateMsg {}

/// The oracle accepts no commands.
#[derive(Debug, Clone, PartialEq, Eq)]
pub struct ExecuteMsg {}

/// The oracle's query interface.
#[derive(Debug, Clone, PartialEq, Eq)]
pub enum QueryMsg {
    GetVotingPowerMsg { voter: String },
}

/// The request sent to a power oracle for a voter's weight.
#[derive(Debug, Clone, PartialEq, Eq)]
pub struct GetVotingPowerMsg {
    pub voter: String,
}

/// The response a power oracle must produce.
#[derive(Debug, Clone, PartialEq, Eq)]
pub struct GetVotingPowerResponse {
    pub power: u64,
}

/// Answer a voting-power query: every voter weighs 1.
pub fn query(msg: &GetVotingPowerMsg) -> (r: GetVotingPowerResponse)
    ensures
        r.power == 1,
{
    GetVotingPowerResponse { power: 1 }
}

} // verus!
