//! The persisted state of the governance contract and its invariant.
//!
//! Executable types mirror the persisted layout: scalar counters, a proposal
//! map keyed by id, a vote map keyed by `(prop_id, voter)`, a remote-reference
//! map keyed by local prerequisite id, per-prerequisite remote tallies and
//! resolved flags, and an append-only executed-proposals log. Ids are dense
//! (assigned by monotonic counters starting at zero), so each map is stored as
//! a vector indexed by id; the vote map is a vector with a uniqueness
//! invariant on the `(prop_id, voter)` key.
//!
//! Each executable type has a ghost counterpart over `Seq` used by every
//! contract and law.

use vstd::prelude::*;

verus! {

/// A vote record: the voter's choice and their power frozen at vote time.
#[derive(Debug, Clone, PartialEq, Eq)]
pub struct Vote {
    pub id: u64,
    pub prop_id: u64,
    pub voter: String,
    pub power: u64,
    pub option: String,
}

/// A proposal: immutable after creation except `executed` / `chosen_option`,
/// which are set exactly once when the proposal is executed.
#[derive(Debug, Clone, PartialEq, Eq)]
pub struct Proposal {
    pub id: u64,
    pub title: String,
    pub description: String,
    /// Creation time, in seconds.
    pub start_time: u64,
    pub executed: bool,
    /// Ordered option set; the order breaks ties (first listed wins).
    pub options: Vec<String>,
    /// Address of the power oracle contract queried for this proposal's votes.
    pub power_contract: String,
    /// Local prerequisite ids, in declaration order (see `RemoteProposalRef`).
    pub prereq_proposals: Vec<u64>,
    /// The winning option, set once `executed` is true.
    pub chosen_option: Option<String>,
}

/// Where a declared prerequisite lives: the proposal id on the remote chain,
/// the remote chain's id, and the governance contract address there.
/// Minted once per declared prerequisite and immutable.
#[derive(Debug, Clone, PartialEq, Eq)]
pub struct RemoteProposalRef {
    pub remote_prop_id: u64,
    pub remote_chain_id: String,
    pub remote_contract_addr: String,
}

/// One recorded remote tally value: votes for one option of one prerequisite.
#[derive(Debug, Clone, PartialEq, Eq)]
pub struct TallyEntry {
    pub option: String,
    pub votes: u64,
}

/// The whole contract state.
#[derive(Debug, Clone, PartialEq, Eq)]
pub struct GovState {
    /// Process-wide voting period, in minutes.
    pub voting_period_minutes: u64,
    /// Next proposal id; equals the number of proposals created.
    pub next_prop_id: u64,
    /// Proposal map: `proposals[i]` has id `i`.
    pub proposals: Vec<Proposal>,
    /// Next vote id; equals the number of votes recorded.
    pub next_vote_id: u64,
    /// Vote map: at most one entry per `(prop_id, voter)`; `votes[j]` has id `j`.
    pub votes: Vec<Vote>,
    /// Next local prerequisite id; equals the number of references minted.
    pub next_remote_proposal_id: u64,
    /// Remote-reference map: `remote_proposals[r]` belongs to prerequisite id `r`.
    pub remote_proposals: Vec<RemoteProposalRef>,
    /// Remote tallies per prerequisite id, each keyed by option (keys unique).
    pub remote_proposal_tallies: Vec<Vec<TallyEntry>>,
    /// Per-prerequisite resolution flag; set once a tally callback delivers.
    pub remote_proposal_resolved: Vec<bool>,
    /// Append-only log of `(prop_id, chosen_option)`, one entry per execution.
    pub executed_proposals: Vec<(u64, String)>,
}

/// Ghost counterpart of [`Vote`].
#[verifier::ext_equal]
pub struct VoteModel {
    pub id: u64,
    pub prop_id: u64,
    pub voter: Seq<char>,
    pub power: u64,
    pub option: Seq<char>,
}

/// Ghost counterpart of [`Proposal`].
#[verifier::ext_equal]
pub struct ProposalModel {
    pub id: u64,
    pub title: Seq<char>,
    pub description: Seq<char>,
    pub start_time: u64,
    pub executed: bool,
    pub options: Seq<Seq<char>>,
    pub power_contract: Seq<char>,
    pub prereq_proposals: Seq<u64>,
    pub chosen_option: Option<Seq<char>>,
}

/// Ghost counterpart of [`RemoteProposalRef`].
#[verifier::ext_equal]
pub struct RemoteRefModel {
    pub remote_prop_id: u64,
    pub remote_chain_id: Seq<char>,
    pub remote_contract_addr: Seq<char>,
}

/// Ghost counterpart of [`TallyEntry`].
#[verifier::ext_equal]
pub struct TallyEntryModel {
    pub option: Seq<char>,
    pub votes: u64,
}

/// Ghost counterpart of [`GovState`]: the mathematical model every contract
/// and law is stated over.
#[verifier::ext_equal]
pub struct StateModel {
    pub voting_period_minutes: u64,
    pub next_prop_id: u64,
    pub proposals: Seq<ProposalModel>,
    pub next_vote_id: u64,
    pub votes: Seq<VoteModel>,
    pub next_remote_proposal_id: u64,
    pub remote_proposals: Seq<RemoteRefModel>,
    pub remote_proposal_tallies: Seq<Seq<TallyEntryModel>>,
    pub remote_proposal_resolved: Seq<bool>,
    pub executed_proposals: Seq<(u64, Seq<char>)>,
}

impl View for Vote {
    type V = VoteModel;

    open spec fn view(&self) -> VoteModel {
        VoteModel {
            id: self.id,
            prop_id: self.prop_id,
            voter: self.voter@,
            power: self.power,
            option: self.option@,
        }
    }
}

impl View for Proposal {
    type V = ProposalModel;

    open spec fn view(&self) -> ProposalModel {
        ProposalModel {
            id: self.id,
            title: self.title@,
            description: self.description@,
            start_time: self.start_time,
            executed: self.executed,
            options: self.options@.map_values(|o: String| o@),
            power_contract: self.power_contract@,
            prereq_proposals: self.prereq_proposals@,
            chosen_option: match self.chosen_option {
                Some(o) => Some(o@),
                None => None,
            },
        }
    }
}

impl View for RemoteProposalRef {
    type V = RemoteRefModel;

    open spec fn view(&self) -> RemoteRefModel {
        RemoteRefModel {
            remote_prop_id: self.remote_prop_id,
            remote_chain_id: self.remote_chain_id@,
            remote_contract_addr: self.remote_contract_addr@,
        }
    }
}

impl View for TallyEntry {
    type V = TallyEntryModel;

    open spec fn view(&self) -> TallyEntryModel {
        TallyEntryModel { option: self.option@, votes: self.votes }
    }
}

impl View for GovState {
    type V = StateModel;

    open spec fn view(&self) -> StateModel {
        StateModel {
            voting_period_minutes: self.voting_period_minutes,
            next_prop_id: self.next_prop_id,
            proposals: self.proposals@.map_values(|p: Proposal| p@),
            next_vote_id: self.next_vote_id,
            votes: self.votes@.map_values(|v: Vote| v@),
            next_remote_proposal_id: self.next_remote_proposal_id,
            remote_proposals: self.remote_proposals@.map_values(|r: RemoteProposalRef| r@),
            remote_proposal_tallies: self.remote_proposal_tallies@.map_values(
                |t: Vec<TallyEntry>| t@.map_values(|e: TallyEntry| e@),
            ),
            remote_proposal_resolved: self.remote_proposal_resolved@,
            executed_proposals: log_model(self.executed_proposals@),
        }
    }
}

/// Whether `option` occurs in `options`.
pub open spec fn has_option_in(options: Seq<Seq<char>>, option: Seq<char>) -> bool {
    exists|i: int| 0 <= i < options.len() && #[trigger] options[i] == option
}

/// Whether `votes` holds a record keyed `(prop_id, voter)`.
pub open spec fn has_vote_in(votes: Seq<VoteModel>, prop_id: u64, voter: Seq<char>) -> bool {
    exists|j: int|
        0 <= j < votes.len() && (#[trigger] votes[j]).prop_id == prop_id && votes[j].voter
            == voter
}

impl ProposalModel {
    /// The end of this proposal's voting window, as a mathematical instant.
    pub open spec fn end_time(self, voting_period_minutes: u64) -> int {
        self.start_time + 60 * voting_period_minutes
    }

    /// Whether `option` is one of the proposal's declared options.
    pub open spec fn has_option(self, option: Seq<char>) -> bool {
        has_option_in(self.options, option)
    }
}

impl StateModel {
    /// Whether `prop_id` names a created proposal.
    pub open spec fn has_proposal(self, prop_id: u64) -> bool {
        prop_id < self.proposals.len()
    }

    /// The proposal with id `prop_id` (meaningful under `has_proposal`).
    pub open spec fn proposal(self, prop_id: u64) -> ProposalModel {
        self.proposals[prop_id as int]
    }

    /// Whether a vote by `voter` on `prop_id` has been recorded.
    pub open spec fn has_vote(self, prop_id: u64, voter: Seq<char>) -> bool {
        has_vote_in(self.votes, prop_id, voter)
    }

    /// Voting on `prop_id` is open at `now` (the window is closed on the right:
    /// a vote at exactly the deadline is still accepted).
    pub open spec fn voting_open(self, prop_id: u64, now: u64) -> bool {
        now <= self.proposal(prop_id).end_time(self.voting_period_minutes)
    }

    /// Well-formedness of one proposal record relative to the whole state.
    pub open spec fn proposal_wf(self, i: int) -> bool {
        let p = self.proposals[i];
        &&& p.id == i
        &&& p.options.len() >= 1
        &&& forall|k: int|
            0 <= k < p.prereq_proposals.len() ==> (#[trigger] p.prereq_proposals[k])
                < self.remote_proposals.len()
        &&& p.executed <==> p.chosen_option is Some
    }

    /// Well-formedness of the executed-proposals log: entries name executed
    /// proposals with their chosen option, at most one entry per proposal,
    /// and every executed proposal has its entry.
    pub open spec fn log_wf(self) -> bool {
        &&& forall|k: int|
            0 <= k < self.executed_proposals.len() ==> {
                let e = #[trigger] self.executed_proposals[k];
                &&& e.0 < self.proposals.len()
                &&& self.proposals[e.0 as int].executed
                &&& self.proposals[e.0 as int].chosen_option == Some(e.1)
            }
        &&& forall|k: int, l: int|
            0 <= k < l < self.executed_proposals.len()
                ==> (#[trigger] self.executed_proposals[k]).0
                != (#[trigger] self.executed_proposals[l]).0
        &&& forall|i: int|
            0 <= i < self.proposals.len() && (#[trigger] self.proposals[i]).executed
                ==> exists|k: int|
                0 <= k < self.executed_proposals.len()
                    && (#[trigger] self.executed_proposals[k]).0 == i
    }

    /// The global state invariant: counters match map sizes, ids are dense,
    /// the vote map has at most one entry per `(prop_id, voter)`, prerequisite
    /// ids are minted, remote tally keys are unique, and the executed log
    /// agrees with the proposals' executed flags.
    pub open spec fn wf(self) -> bool {
        &&& self.next_prop_id == self.proposals.len()
        &&& forall|i: int| 0 <= i < self.proposals.len() ==> #[trigger] self.proposal_wf(i)
        &&& self.next_vote_id == self.votes.len()
        &&& forall|j: int| 0 <= j < self.votes.len() ==> (#[trigger] self.votes[j]).id == j
        &&& forall|j: int, k: int|
            0 <= j < k < self.votes.len()
                ==> !((#[trigger] self.votes[j]).prop_id == (#[trigger] self.votes[k]).prop_id
                && self.votes[j].voter == self.votes[k].voter)
        &&& self.next_remote_proposal_id == self.remote_proposals.len()
        &&& self.remote_proposal_resolved.len() == self.remote_proposals.len()
        &&& self.remote_proposal_tallies.len() == self.remote_proposals.len()
        &&& forall|r: int|
            0 <= r < self.remote_proposal_tallies.len()
                ==> tally_keys_unique(#[trigger] self.remote_proposal_tallies[r])
        &&& self.log_wf()
    }
}

/// The ghost content of the executed-proposals log.
pub open spec fn log_model(log: Seq<(u64, String)>) -> Seq<(u64, Seq<char>)> {
    log.map_values(|e: (u64, String)| (e.0, e.1@))
}

/// Option keys occur at most once in a prerequisite's tally list.
pub open spec fn tally_keys_unique(entries: Seq<TallyEntryModel>) -> bool {
    forall|a: int, b: int|
        0 <= a < b < entries.len() ==> (#[trigger] entries[a]).option
            != (#[trigger] entries[b]).option
}

/// The state a freshly instantiated contract starts in: zeroed counters,
/// empty maps and log, and a voting period of one minute.
pub open spec fn init_state() -> StateModel {
    StateModel {
        voting_period_minutes: 1,
        next_prop_id: 0,
        proposals: Seq::empty(),
        next_vote_id: 0,
        votes: Seq::empty(),
        next_remote_proposal_id: 0,
        remote_proposals: Seq::empty(),
        remote_proposal_tallies: Seq::empty(),
        remote_proposal_resolved: Seq::empty(),
        executed_proposals: Seq::empty(),
    }
}

impl GovState {
    /// Instantiate the contract: zero the id counters, configure the voting
    /// period (one minute), and start with an empty executed-proposals log.
    pub fn new() -> (s: GovState)
        ensures
            s@ == init_state(),
            s@.wf(),
    {
        let s = GovState {
            voting_period_minutes: 1,
            next_prop_id: 0,
            proposals: Vec::new(),
            next_vote_id: 0,
            votes: Vec::new(),
            next_remote_proposal_id: 0,
            remote_proposals: Vec::new(),
            remote_proposal_tallies: Vec::new(),
            remote_proposal_resolved: Vec::new(),
            executed_proposals: Vec::new(),
        };
        proof {
            assert(s@ =~~= init_state());
        }
        s
    }
}

} // verus!
