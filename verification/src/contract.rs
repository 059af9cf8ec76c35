//! The proposal lifecycle: creation, voting, execution, remote resolution,
//! and the read-only queries.
//!
//! Every mutating entry point is specified against a ghost transition
//! function over [`StateModel`], so that the laws in [`crate::laws`] can be
//! stated and proved over the same definitions the contracts use.

use vstd::prelude::*;

use crate::error::ContractError;
use crate::msg::{
    CCGovIbcMessage, CCGovQueryMsg, CCGovQueryResponse, CallbackResult, CallbackResultModel,
    QueryExecutedProposalsResponse, QueryProposalResponse, QueryTallyResponse,
    QueryTotalVotedPowerResponse, QueryVoteResponse, RemoteProposalMsg, TallyQuery,
    TallyQueryModel,
};
use crate::state::{
    has_option_in, has_vote_in, log_model, tally_keys_unique, GovState, ProposalModel,
    RemoteRefModel, StateModel, TallyEntry, TallyEntryModel, Vote, VoteModel,
};
use crate::tally::{
    entries_model, get_total_voted_power, has_tally_key, is_tally_for,
    lemma_first_max_exists, lemma_first_max_unique, lemma_tally_of_no_key, lemma_tally_of_push,
    lemma_tally_of_update, lemma_tally_value_step, option_total, query_tally, sum_power,
    tally_fits, tally_model, tally_of, tally_value, total_for, totals_of, winner_index, winner_of,
};
use crate::ccgov_namespace;
use crate::CCGOV_NAMESPACE;

verus! {

/// Whether prerequisite `prereq` has delivered its tally (resolved).
pub open spec fn prereq_resolved(m: StateModel, prereq: u64) -> bool {
    prereq < m.remote_proposal_resolved.len() && m.remote_proposal_resolved[prereq as int]
}

/// Every prerequisite in `prereqs` is resolved.
pub open spec fn all_resolved_in(m: StateModel, prereqs: Seq<u64>) -> bool {
    forall|k: int| 0 <= k < prereqs.len() ==> prereq_resolved(m, #[trigger] prereqs[k])
}

/// Every prerequisite of proposal `prop_id` is resolved.
pub open spec fn all_resolved(m: StateModel, prop_id: u64) -> bool {
    all_resolved_in(m, m.proposal(prop_id).prereq_proposals)
}

/// The tally query to dispatch for prerequisite `q`: addressed by its remote
/// reference, correlated with the local prerequisite id.
pub open spec fn query_for(m: StateModel, q: u64) -> TallyQueryModel {
    TallyQueryModel {
        prereq_id: q,
        remote_prop_id: m.remote_proposals[q as int].remote_prop_id,
        remote_chain_id: m.remote_proposals[q as int].remote_chain_id,
        remote_contract_addr: m.remote_proposals[q as int].remote_contract_addr,
    }
}

/// The queries for the still-unresolved prerequisites among `prereqs`, in
/// declaration order (one per unresolved prerequisite, none deduplicated
/// against queries already in flight).
pub open spec fn queries_for(m: StateModel, prereqs: Seq<u64>) -> Seq<TallyQueryModel>
    decreases prereqs.len(),
{
    if prereqs.len() == 0 {
        Seq::empty()
    } else {
        queries_for(m, prereqs.drop_last()) + if prereq_resolved(m, prereqs.last()) {
            Seq::<TallyQueryModel>::empty()
        } else {
            seq![query_for(m, prereqs.last())]
        }
    }
}

/// No query is owed exactly when every prerequisite is resolved.
pub proof fn lemma_queries_for_empty(m: StateModel, prereqs: Seq<u64>)
    ensures
        (queries_for(m, prereqs).len() == 0) == all_resolved_in(m, prereqs),
    decreases prereqs.len(),
{
    if prereqs.len() > 0 {
        let pre = prereqs.drop_last();
        lemma_queries_for_empty(m, pre);
        if prereq_resolved(m, prereqs.last()) {
            if all_resolved_in(m, pre) {
                assert forall|k: int| 0 <= k < prereqs.len() implies prereq_resolved(
                    m,
                    #[trigger] prereqs[k],
                ) by {
                    if k < prereqs.len() - 1 {
                        assert(prereq_resolved(m, pre[k]));
                    }
                }
            } else {
                let k = choose|k: int|
                    0 <= k < pre.len() && !prereq_resolved(m, #[trigger] pre[k]);
                assert(!prereq_resolved(m, prereqs[k]));
            }
        } else {
            assert(!prereq_resolved(m, prereqs[prereqs.len() - 1]));
        }
    }
}

pub proof fn lemma_queries_for_step(m: StateModel, prereqs: Seq<u64>, k: int)
    requires
        0 <= k < prereqs.len(),
    ensures
        queries_for(m, prereqs.subrange(0, k + 1)) == queries_for(m, prereqs.subrange(0, k)) + (
        if prereq_resolved(m, prereqs[k]) {
            Seq::<TallyQueryModel>::empty()
        } else {
            seq![query_for(m, prereqs[k])]
        }),
{
    assert(prereqs.subrange(0, k + 1).drop_last() =~= prereqs.subrange(0, k));
    assert(prereqs.subrange(0, k + 1).last() == prereqs[k]);
}

/// The error an `ExecuteProposal` call must return: the proposal must exist
/// and its voting window must be over (execution at exactly the deadline is
/// allowed). `None` means the call succeeds.
pub open spec fn execute_check(m: StateModel, now: u64, prop_id: u64) -> Option<ContractError> {
    if !m.has_proposal(prop_id) {
        Some(ContractError::Std {})
    } else if now < m.proposal(prop_id).end_time(m.voting_period_minutes) {
        Some(ContractError::VotingPeriodNotEnded {})
    } else {
        None
    }
}

/// The winning option of `prop_id` on the current totals: the first declared
/// option reaching the maximum.
pub open spec fn winner_option(m: StateModel, prop_id: u64) -> Seq<char> {
    m.proposal(prop_id).options[winner_index(totals_of(m, prop_id))]
}

/// The state after the execution transition proper: the proposal is marked
/// executed with its chosen option, and the executed log gains its entry.
pub open spec fn executed_next(m: StateModel, prop_id: u64) -> StateModel {
    let w = winner_option(m, prop_id);
    StateModel {
        proposals: m.proposals.update(
            prop_id as int,
            ProposalModel { executed: true, chosen_option: Some(w), ..m.proposal(prop_id) },
        ),
        executed_proposals: m.executed_proposals.push((prop_id, w)),
        ..m
    }
}

/// The state after an `ExecuteProposal` call: unchanged unless the call is
/// valid, the proposal is not yet executed, and every prerequisite is
/// resolved — then the execution transition fires, exactly once.
pub open spec fn execute_next(m: StateModel, now: u64, prop_id: u64) -> StateModel {
    if execute_check(m, now, prop_id) is Some {
        m
    } else if m.proposal(prop_id).executed {
        m
    } else if !all_resolved(m, prop_id) {
        m
    } else {
        executed_next(m, prop_id)
    }
}

/// The error a `Vote` call must return, in check order: the proposal must
/// exist, its voting window must still be open (closed on the right: a vote
/// at exactly the deadline is accepted), the option must be declared, and the
/// voter must not have voted yet. `None` means the vote is accepted.
pub open spec fn vote_check(
    m: StateModel,
    now: u64,
    prop_id: u64,
    voter: Seq<char>,
    option: Seq<char>,
) -> Option<ContractError> {
    if !m.has_proposal(prop_id) {
        Some(ContractError::Std {})
    } else if !m.voting_open(prop_id, now) {
        Some(ContractError::VotingPeriodHasEnded {})
    } else if !m.proposal(prop_id).has_option(option) {
        Some(ContractError::InvalidOption {})
    } else if m.has_vote(prop_id, voter) {
        Some(ContractError::AlreadyVoted {})
    } else {
        None
    }
}

/// The state after an accepted vote: the record is appended with the next
/// vote id and the voter's power frozen as handed in; the counter advances.
pub open spec fn vote_next(
    m: StateModel,
    prop_id: u64,
    voter: Seq<char>,
    option: Seq<char>,
    power: u64,
) -> StateModel {
    StateModel {
        next_vote_id: (m.next_vote_id + 1) as u64,
        votes: m.votes.push(
            VoteModel { id: m.next_vote_id, prop_id, voter, power, option },
        ),
        ..m
    }
}

/// The prerequisite ids a new proposal with `n_prereqs` declared
/// prerequisites is assigned: freshly minted, in declaration order.
pub open spec fn minted_prereq_ids(m: StateModel, n_prereqs: nat) -> Seq<u64> {
    Seq::new(n_prereqs, |k: int| (m.next_remote_proposal_id + k) as u64)
}

/// The state after `CreateProposal`: one remote reference minted per declared
/// prerequisite (with an empty tally and an unresolved flag), and the
/// proposal record appended with the next proposal id.
pub open spec fn create_next(
    m: StateModel,
    now: u64,
    title: Seq<char>,
    description: Seq<char>,
    power_contract: Seq<char>,
    options: Seq<Seq<char>>,
    prereqs: Seq<RemoteRefModel>,
) -> StateModel {
    StateModel {
        next_prop_id: (m.next_prop_id + 1) as u64,
        proposals: m.proposals.push(
            ProposalModel {
                id: m.next_prop_id,
                title,
                description,
                start_time: now,
                executed: false,
                options,
                power_contract,
                prereq_proposals: minted_prereq_ids(m, prereqs.len()),
                chosen_option: None,
            },
        ),
        next_remote_proposal_id: (m.next_remote_proposal_id + prereqs.len()) as u64,
        remote_proposals: m.remote_proposals + prereqs,
        remote_proposal_tallies: m.remote_proposal_tallies + Seq::new(
            prereqs.len(),
            |k: int| Seq::<TallyEntryModel>::empty(),
        ),
        remote_proposal_resolved: m.remote_proposal_resolved + Seq::new(
            prereqs.len(),
            |k: int| false,
        ),
        ..m
    }
}

/// Whether `options` contains `option` (linear scan by string equality).
fn contains_option(options: &Vec<String>, option: &String) -> (r: bool)
    ensures
        r == has_option_in(options@.map_values(|o: String| o@), option@),
{
    let ghost m = options@.map_values(|o: String| o@);
    let n = options.len();
    let mut i: usize = 0;
    while i < n
        invariant
            0 <= i <= n,
            n == options.len(),
            m == options@.map_values(|o: String| o@),
            forall|j: int| 0 <= j < i ==> #[trigger] m[j] != option@,
        decreases n - i,
    {
        if options[i] == *option {
            assert(m[i as int] == option@);
            return true;
        }
        i = i + 1;
    }
    false
}

/// Whether a vote keyed `(prop_id, voter)` is already recorded.
fn vote_recorded(votes: &Vec<Vote>, prop_id: u64, voter: &String) -> (r: bool)
    ensures
        r == has_vote_in(votes@.map_values(|v: Vote| v@), prop_id, voter@),
{
    let ghost m = votes@.map_values(|v: Vote| v@);
    let n = votes.len();
    let mut i: usize = 0;
    while i < n
        invariant
            0 <= i <= n,
            n == votes.len(),
            m == votes@.map_values(|v: Vote| v@),
            forall|j: int|
                0 <= j < i ==> !((#[trigger] m[j]).prop_id == prop_id && m[j].voter == voter@),
        decreases n - i,
    {
        if votes[i].prop_id == prop_id && votes[i].voter == *voter {
            assert(m[i as int].prop_id == prop_id && m[i as int].voter == voter@);
            return true;
        }
        i = i + 1;
    }
    false
}

/// Whether `now` is at or before the end of the proposal's voting window.
/// Computed in 128-bit arithmetic so the deadline itself cannot overflow.
fn voting_open_at(s: &GovState, prop_id: u64, now: u64) -> (r: bool)
    requires
        s@.has_proposal(prop_id),
    ensures
        r == s@.voting_open(prop_id, now),
{
    let nprops: usize = s.proposals.len();
    assert(prop_id < nprops);
    let prop = &s.proposals[prop_id as usize];
    assert(prop@ == s@.proposal(prop_id));
    (now as u128) <= (prop.start_time as u128) + 60u128 * (s.voting_period_minutes as u128)
}

/// Create a proposal: mint a remote reference for each declared prerequisite
/// (empty tally, unresolved), persist the proposal, advance the id counter.
/// Options must be nonempty (a proposal with no options could never name a
/// winner). No validation is applied to the power contract address:
/// arbitrary delegation is permitted.
pub fn create_proposal(
    s: &mut GovState,
    now: u64,
    title: String,
    description: String,
    power_contract_addr: String,
    options: Vec<String>,
    prereq_proposals: Vec<(u64, String, String)>,
) -> (prop_id: u64)
    requires
        old(s)@.wf(),
        options@.len() >= 1,
    ensures
        final(s)@.wf(),
        prop_id == old(s)@.next_prop_id,
        final(s)@ == create_next(
            old(s)@,
            now,
            title@,
            description@,
            power_contract_addr@,
            options@.map_values(|o: String| o@),
            prereq_proposals@.map_values(
                |t: (u64, String, String)| RemoteRefModel {
                    remote_prop_id: t.0,
                    remote_chain_id: t.1@,
                    remote_contract_addr: t.2@,
                },
            ),
        ),
{
    let ghost m = old(s)@;
    let ghost prereqs_m = prereq_proposals@.map_values(
        |t: (u64, String, String)| RemoteRefModel {
            remote_prop_id: t.0,
            remote_chain_id: t.1@,
            remote_contract_addr: t.2@,
        },
    );
    let prop_id = s.next_prop_id;

    let mut prereq_ids: Vec<u64> = Vec::new();
    let n_prereqs = prereq_proposals.len();
    let mut k: usize = 0;
    proof {
        assert(m.remote_proposals + prereqs_m.subrange(0, 0) =~= m.remote_proposals);
        assert(m.remote_proposal_tallies + Seq::new(0, |j: int| Seq::<TallyEntryModel>::empty())
            =~= m.remote_proposal_tallies);
        assert(m.remote_proposal_resolved + Seq::new(0, |j: int| false)
            =~= m.remote_proposal_resolved);
        assert(prereq_ids@ =~= minted_prereq_ids(m, 0));
    }
    while k < n_prereqs
        invariant
            0 <= k <= n_prereqs,
            n_prereqs == prereq_proposals.len(),
            prereqs_m == prereq_proposals@.map_values(
                |t: (u64, String, String)| RemoteRefModel {
                    remote_prop_id: t.0,
                    remote_chain_id: t.1@,
                    remote_contract_addr: t.2@,
                },
            ),
            m.wf(),
            s.voting_period_minutes == m.voting_period_minutes,
            s.next_prop_id == m.next_prop_id,
            s@.proposals == m.proposals,
            s.next_vote_id == m.next_vote_id,
            s@.votes == m.votes,
            s.next_remote_proposal_id as int == m.next_remote_proposal_id + k,
            s@.remote_proposals == m.remote_proposals + prereqs_m.subrange(0, k as int),
            s@.remote_proposal_tallies == m.remote_proposal_tallies + Seq::new(
                k as nat,
                |j: int| Seq::<TallyEntryModel>::empty(),
            ),
            s@.remote_proposal_resolved == m.remote_proposal_resolved + Seq::new(
                k as nat,
                |j: int| false,
            ),
            s@.executed_proposals == m.executed_proposals,
            prereq_ids@ == minted_prereq_ids(m, k as nat),
        decreases n_prereqs - k,
    {
        let remote_proposal_id = s.next_remote_proposal_id;
        let entry = &prereq_proposals[k];
        let ghost pre = s@;
        assert(remote_proposal_id as int == pre.remote_proposals.len());
        s.remote_proposals.push(
            crate::state::RemoteProposalRef {
                remote_prop_id: entry.0,
                remote_chain_id: entry.1.clone(),
                remote_contract_addr: entry.2.clone(),
            },
        );
        s.remote_proposal_tallies.push(Vec::new());
        s.remote_proposal_resolved.push(false);
        proof {
            assert(s.remote_proposals@.len() == s.remote_proposals.len());
            assert(remote_proposal_id as int + 1 == s.remote_proposals@.len());
        }
        s.next_remote_proposal_id = remote_proposal_id + 1;
        prereq_ids.push(remote_proposal_id);
        proof {
            assert(prereqs_m[k as int] == RemoteRefModel {
                remote_prop_id: prereq_proposals@[k as int].0,
                remote_chain_id: prereq_proposals@[k as int].1@,
                remote_contract_addr: prereq_proposals@[k as int].2@,
            });
            assert(s@.remote_proposals =~= pre.remote_proposals.push(prereqs_m[k as int]));
            assert(pre.remote_proposals.push(prereqs_m[k as int]) =~= m.remote_proposals
                + prereqs_m.subrange(0, k + 1));
            assert(s@.remote_proposal_tallies =~~= pre.remote_proposal_tallies.push(
                Seq::<TallyEntryModel>::empty(),
            ));
            assert(pre.remote_proposal_tallies.push(Seq::<TallyEntryModel>::empty())
                =~= m.remote_proposal_tallies + Seq::new(
                (k + 1) as nat,
                |j: int| Seq::<TallyEntryModel>::empty(),
            ));
            assert(s@.remote_proposal_resolved =~= pre.remote_proposal_resolved.push(false));
            assert(pre.remote_proposal_resolved.push(false) =~= m.remote_proposal_resolved
                + Seq::new((k + 1) as nat, |j: int| false));
            assert(prereq_ids@ =~= minted_prereq_ids(m, (k + 1) as nat));
        }
        k = k + 1;
    }

    let prop = crate::state::Proposal {
        id: prop_id,
        title,
        description,
        start_time: now,
        executed: false,
        options,
        power_contract: power_contract_addr,
        prereq_proposals: prereq_ids,
        chosen_option: None,
    };
    s.proposals.push(prop);
    assert(s.proposals@.len() == s.proposals.len());
    s.next_prop_id = prop_id + 1;

    proof {
        assert(prereqs_m.subrange(0, n_prereqs as int) =~= prereqs_m);
        let post = create_next(
            m,
            now,
            title@,
            description@,
            power_contract_addr@,
            options@.map_values(|o: String| o@),
            prereqs_m,
        );
        assert(s@ =~~= post);
        lemma_create_preserves_wf(
            m,
            now,
            title@,
            description@,
            power_contract_addr@,
            options@.map_values(|o: String| o@),
            prereqs_m,
        );
    }
    prop_id
}

/// `CreateProposal` preserves the state invariant.
proof fn lemma_create_preserves_wf(
    m: StateModel,
    now: u64,
    title: Seq<char>,
    description: Seq<char>,
    power_contract: Seq<char>,
    options: Seq<Seq<char>>,
    prereqs: Seq<RemoteRefModel>,
)
    requires
        m.wf(),
        options.len() >= 1,
        m.next_remote_proposal_id + prereqs.len() <= u64::MAX,
        m.next_prop_id + 1 <= u64::MAX,
    ensures
        create_next(m, now, title, description, power_contract, options, prereqs).wf(),
{
    let post = create_next(m, now, title, description, power_contract, options, prereqs);
    assert forall|i: int| 0 <= i < post.proposals.len() implies #[trigger] post.proposal_wf(
        i,
    ) by {
        if i < m.proposals.len() {
            assert(m.proposal_wf(i));
            assert(post.proposals[i] == m.proposals[i]);
        } else {
            assert(post.proposals[i] == post.proposals.last());
        }
    }
    assert forall|r: int| 0 <= r < post.remote_proposal_tallies.len() implies
        crate::state::tally_keys_unique(#[trigger] post.remote_proposal_tallies[r]) by {
        if r < m.remote_proposal_tallies.len() {
            assert(post.remote_proposal_tallies[r] == m.remote_proposal_tallies[r]);
        } else {
            assert(post.remote_proposal_tallies[r] =~= Seq::<TallyEntryModel>::empty());
        }
    }
    assert forall|k: int| 0 <= k < post.executed_proposals.len() implies {
        let e = #[trigger] post.executed_proposals[k];
        &&& e.0 < post.proposals.len()
        &&& post.proposals[e.0 as int].executed
        &&& post.proposals[e.0 as int].chosen_option == Some(e.1)
    } by {
        assert(post.executed_proposals[k] == m.executed_proposals[k]);
        assert(post.proposals[post.executed_proposals[k].0 as int]
            == m.proposals[m.executed_proposals[k].0 as int]);
    }
    assert forall|i: int|
        0 <= i < post.proposals.len() && (#[trigger] post.proposals[i]).executed implies
        exists|k: int|
        0 <= k < post.executed_proposals.len() && (#[trigger] post.executed_proposals[k]).0
            == i by {
        if i < m.proposals.len() {
            assert(m.proposals[i].executed);
        }
    }
}

/// Validate a `Vote` call without recording anything, and hand back the
/// address of the power oracle the caller must consult for the voter's
/// power before calling [`vote`].
pub fn check_vote(s: &GovState, now: u64, prop_id: u64, voter: &String, option: &String) -> (r:
    Result<String, ContractError>)
    requires
        s@.wf(),
    ensures
        match vote_check(s@, now, prop_id, voter@, option@) {
            Some(e) => r == Err::<String, ContractError>(e),
            None => (r matches Ok(addr) && addr@ == s@.proposal(prop_id).power_contract),
        },
{
    if prop_id >= s.next_prop_id {
        return Err(ContractError::Std {});
    }
    if !voting_open_at(s, prop_id, now) {
        return Err(ContractError::VotingPeriodHasEnded {});
    }
    let nprops: usize = s.proposals.len();
    assert(prop_id < nprops);
    let prop = &s.proposals[prop_id as usize];
    assert(prop@ == s@.proposal(prop_id));
    if !contains_option(&prop.options, option) {
        return Err(ContractError::InvalidOption {});
    }
    if vote_recorded(&s.votes, prop_id, voter) {
        return Err(ContractError::AlreadyVoted {});
    }
    Ok(prop.power_contract.clone())
}

/// Record a vote. `power` is the voter's weight as reported by the
/// proposal's power oracle (see [`check_vote`]); it is frozen at vote time
/// and never re-queried. Checks, in order: the proposal exists, voting is
/// still open, the option is declared, the voter has not voted yet.
pub fn vote(
    s: &mut GovState,
    now: u64,
    prop_id: u64,
    voter: String,
    option: String,
    power: u64,
) -> (r: Result<u64, ContractError>)
    requires
        old(s)@.wf(),
    ensures
        final(s)@.wf(),
        match vote_check(old(s)@, now, prop_id, voter@, option@) {
            Some(e) => r == Err::<u64, ContractError>(e) && final(s)@ == old(s)@,
            None => r == Ok::<u64, ContractError>(old(s)@.next_vote_id) && final(s)@ == vote_next(
                old(s)@,
                prop_id,
                voter@,
                option@,
                power,
            ),
        },
{
    let ghost m = old(s)@;
    if prop_id >= s.next_prop_id {
        return Err(ContractError::Std {});
    }
    if !voting_open_at(s, prop_id, now) {
        return Err(ContractError::VotingPeriodHasEnded {});
    }
    {
        let nprops: usize = s.proposals.len();
        assert(prop_id < nprops);
        let prop = &s.proposals[prop_id as usize];
        assert(prop@ == s@.proposal(prop_id));
        if !contains_option(&prop.options, &option) {
            return Err(ContractError::InvalidOption {});
        }
    }
    if vote_recorded(&s.votes, prop_id, &voter) {
        return Err(ContractError::AlreadyVoted {});
    }
    let vote_id = s.next_vote_id;
    s.votes.push(Vote { id: vote_id, prop_id, voter, power, option });
    assert(s.votes@.len() == s.votes.len());
    s.next_vote_id = vote_id + 1;
    proof {
        assert(s@ =~~= vote_next(m, prop_id, voter@, option@, power));
        lemma_vote_preserves_wf(m, now, prop_id, voter@, option@, power);
    }
    Ok(vote_id)
}

/// An accepted `Vote` preserves the state invariant; in particular the new
/// record cannot duplicate a `(prop_id, voter)` key, because a duplicate is
/// rejected with `AlreadyVoted` beforehand.
proof fn lemma_vote_preserves_wf(
    m: StateModel,
    now: u64,
    prop_id: u64,
    voter: Seq<char>,
    option: Seq<char>,
    power: u64,
)
    requires
        m.wf(),
        vote_check(m, now, prop_id, voter, option) is None,
        m.next_vote_id + 1 <= u64::MAX,
    ensures
        vote_next(m, prop_id, voter, option, power).wf(),
{
    let post = vote_next(m, prop_id, voter, option, power);
    assert forall|i: int| 0 <= i < post.proposals.len() implies #[trigger] post.proposal_wf(
        i,
    ) by {
        assert(m.proposal_wf(i));
    }
    assert forall|j: int, k: int| 0 <= j < k < post.votes.len() implies !((
    #[trigger] post.votes[j]).prop_id == (#[trigger] post.votes[k]).prop_id && post.votes[j].voter
        == post.votes[k].voter) by {
        if k < m.votes.len() {
            assert(!(m.votes[j].prop_id == m.votes[k].prop_id && m.votes[j].voter
                == m.votes[k].voter));
        } else {
            assert(post.votes[k] == post.votes.last());
            if post.votes[j].prop_id == prop_id && post.votes[j].voter == voter {
                assert(has_vote_in(m.votes, prop_id, voter));
            }
        }
    }
}

/// What a successful `ExecuteProposal` call reports.
#[derive(Debug, Clone, PartialEq, Eq)]
pub enum ExecuteOutcome {
    /// At least one prerequisite is still unresolved. This is an expected,
    /// retryable condition, not an error: the caller dispatches the returned
    /// tally queries and retries `ExecuteProposal` once callbacks arrive.
    RemoteUnresolved { queries: Vec<TallyQuery> },
    /// The proposal is executed — by this call, or idempotently reported
    /// from an earlier execution.
    Executed { chosen_option: String },
}

/// The execution transition preserves the state invariant.
proof fn lemma_executed_preserves_wf(m: StateModel, prop_id: u64)
    requires
        m.wf(),
        m.has_proposal(prop_id),
        !m.proposal(prop_id).executed,
    ensures
        executed_next(m, prop_id).wf(),
{
    let post = executed_next(m, prop_id);
    assert forall|i: int| 0 <= i < post.proposals.len() implies #[trigger] post.proposal_wf(
        i,
    ) by {
        assert(m.proposal_wf(i));
    }
    assert forall|k: int| 0 <= k < m.executed_proposals.len() implies (
    #[trigger] m.executed_proposals[k]).0 != prop_id by {
        assert(m.proposals[m.executed_proposals[k].0 as int].executed);
    }
    assert forall|k: int| 0 <= k < post.executed_proposals.len() implies {
        let e = #[trigger] post.executed_proposals[k];
        &&& e.0 < post.proposals.len()
        &&& post.proposals[e.0 as int].executed
        &&& post.proposals[e.0 as int].chosen_option == Some(e.1)
    } by {
        if k < m.executed_proposals.len() {
            assert(m.proposals[m.executed_proposals[k].0 as int].executed);
        }
    }
    assert forall|i: int|
        0 <= i < post.proposals.len() && (#[trigger] post.proposals[i]).executed implies
        exists|k: int|
        0 <= k < post.executed_proposals.len() && (#[trigger] post.executed_proposals[k]).0
            == i by {
        if i == prop_id as int {
            assert(post.executed_proposals[post.executed_proposals.len() - 1].0 == i);
        } else {
            assert(m.proposals[i].executed);
            let k = choose|k: int|
                0 <= k < m.executed_proposals.len() && (#[trigger] m.executed_proposals[k]).0
                    == i;
            assert(post.executed_proposals[k].0 == i);
        }
    }
}

/// The single, re-entrant execution driver. Requires the voting window to be
/// over. If the proposal is already executed, reports the stored result
/// idempotently without touching state. Otherwise, if any prerequisite is
/// unresolved, succeeds without executing and returns one tally query per
/// unresolved prerequisite (in declaration order) for the caller to
/// dispatch; the call is safe to repeat while callbacks are outstanding.
/// Once every prerequisite is resolved, combines local votes with the
/// recorded remote tallies, picks the winner, marks the proposal executed,
/// and appends to the executed log — exactly once.
pub fn execute_proposal(s: &mut GovState, now: u64, prop_id: u64) -> (r: Result<
    ExecuteOutcome,
    ContractError,
>)
    requires
        old(s)@.wf(),
        tally_fits(old(s)@, prop_id),
    ensures
        final(s)@.wf(),
        final(s)@ == execute_next(old(s)@, now, prop_id),
        match execute_check(old(s)@, now, prop_id) {
            Some(e) => r == Err::<ExecuteOutcome, ContractError>(e),
            None => {
                let p = old(s)@.proposal(prop_id);
                if p.executed {
                    (r matches Ok(o) && (o matches ExecuteOutcome::Executed { chosen_option }
                        && Some(chosen_option@) == p.chosen_option))
                } else if !all_resolved(old(s)@, prop_id) {
                    (r matches Ok(o) && (o matches ExecuteOutcome::RemoteUnresolved { queries }
                        && queries@.map_values(|q: TallyQuery| q@) == queries_for(
                        old(s)@,
                        p.prereq_proposals,
                    )))
                } else {
                    (r matches Ok(o) && (o matches ExecuteOutcome::Executed { chosen_option }
                        && chosen_option@ == winner_option(old(s)@, prop_id)))
                }
            },
        },
{
    let ghost m = old(s)@;
    if prop_id >= s.next_prop_id {
        return Err(ContractError::Std {});
    }
    assert(m.has_proposal(prop_id));
    let nprops: usize = s.proposals.len();
    assert(prop_id < nprops);
    let pidx: usize = prop_id as usize;
    if (now as u128) < (s.proposals[pidx].start_time as u128) + 60u128 * (s.voting_period_minutes
        as u128) {
        assert(s.proposals@[pidx as int]@ == m.proposal(prop_id));
        return Err(ContractError::VotingPeriodNotEnded {});
    }
    assert(execute_check(m, now, prop_id) is None);

    if s.proposals[pidx].executed {
        assert(m.proposal(prop_id).executed);
        assert(m.proposal_wf(prop_id as int));
        let chosen = match &s.proposals[pidx].chosen_option {
            Some(c) => c.clone(),
            None => vstd::pervasive::unreached(),
        };
        assert(Some(chosen@) == m.proposal(prop_id).chosen_option);
        return Ok(ExecuteOutcome::Executed { chosen_option: chosen });
    }

    let ghost prereqs = m.proposal(prop_id).prereq_proposals;
    let mut queries: Vec<TallyQuery> = Vec::new();
    let n_prereqs = s.proposals[pidx].prereq_proposals.len();
    let mut k: usize = 0;
    proof {
        assert(queries@.map_values(|q: TallyQuery| q@) =~= queries_for(
            m,
            prereqs.subrange(0, 0),
        ));
    }
    while k < n_prereqs
        invariant
            0 <= k <= n_prereqs,
            m == s@,
            s@.wf(),
            s@.has_proposal(prop_id),
            pidx as int == prop_id as int,
            pidx < s.proposals@.len(),
            prereqs == m.proposal(prop_id).prereq_proposals,
            n_prereqs == s.proposals@[pidx as int].prereq_proposals@.len(),
            queries@.map_values(|q: TallyQuery| q@) == queries_for(
                m,
                prereqs.subrange(0, k as int),
            ),
        decreases n_prereqs - k,
    {
        let q = s.proposals[pidx].prereq_proposals[k];
        assert(q == prereqs[k as int]);
        assert(m.proposal_wf(prop_id as int));
        assert(q < s.remote_proposal_resolved@.len());
        assert(q < s.remote_proposal_resolved.len());
        assert(q < s.remote_proposals.len());
        let ghost pre_queries = queries@;
        if !s.remote_proposal_resolved[q as usize] {
            assert(!prereq_resolved(m, q));
            let r = &s.remote_proposals[q as usize];
            assert(r@ == m.remote_proposals[q as int]);
            queries.push(
                TallyQuery {
                    prereq_id: q,
                    remote_prop_id: r.remote_prop_id,
                    remote_chain_id: r.remote_chain_id.clone(),
                    remote_contract_addr: r.remote_contract_addr.clone(),
                },
            );
            proof {
                assert(queries@.map_values(|q: TallyQuery| q@) =~= pre_queries.map_values(
                    |q: TallyQuery| q@,
                ).push(query_for(m, q)));
            }
        } else {
            assert(prereq_resolved(m, q));
        }
        proof {
            lemma_queries_for_step(m, prereqs, k as int);
            assert(queries@.map_values(|q: TallyQuery| q@) =~= queries_for(
                m,
                prereqs.subrange(0, k + 1),
            ));
        }
        k = k + 1;
    }
    proof {
        assert(prereqs.subrange(0, prereqs.len() as int) =~= prereqs);
        lemma_queries_for_empty(m, prereqs);
    }

    if queries.len() > 0 {
        assert(!all_resolved(m, prop_id));
        return Ok(ExecuteOutcome::RemoteUnresolved { queries });
    }
    assert(all_resolved(m, prop_id));

    // every prerequisite is resolved: combine local and remote tallies
    let ghost options_m = m.proposal(prop_id).options;
    let n_options = s.proposals[pidx].options.len();
    assert(n_options == options_m.len());
    assert(m.proposal_wf(prop_id as int));
    let mut totals: Vec<u64> = Vec::new();
    let mut i: usize = 0;
    while i < n_options
        invariant
            0 <= i <= n_options,
            m == s@,
            s@.wf(),
            s@.has_proposal(prop_id),
            tally_fits(s@, prop_id),
            pidx as int == prop_id as int,
            pidx < s.proposals@.len(),
            options_m == m.proposal(prop_id).options,
            n_options == s.proposals@[pidx as int].options@.len(),
            n_options == options_m.len(),
            totals@.len() == i,
            forall|j: int|
                0 <= j < i ==> #[trigger] totals@[j] as int == total_for(m, prop_id, options_m[j]),
        decreases n_options - i,
    {
        let option = s.proposals[pidx].options[i].clone();
        assert(option@ == options_m[i as int]);
        assert(total_for(m, prop_id, option@) <= u64::MAX);
        let total = option_total(s, prop_id, &option);
        totals.push(total);
        i = i + 1;
    }
    assert(totals@.len() >= 1);
    let w = winner_of(&totals);
    proof {
        assert(totals@.map_values(|x: u64| x as int) =~= totals_of(m, prop_id));
        lemma_first_max_exists(totals_of(m, prop_id));
        lemma_first_max_unique(totals_of(m, prop_id), winner_index(totals_of(m, prop_id)), w as int);
        assert(w as int == winner_index(totals_of(m, prop_id)));
    }
    let chosen = s.proposals[pidx].options[w].clone();
    assert(chosen@ == winner_option(m, prop_id));

    s.proposals[pidx].executed = true;
    s.proposals[pidx].chosen_option = Some(chosen.clone());
    s.executed_proposals.push((prop_id, chosen.clone()));
    proof {
        assert(s@ =~~= executed_next(m, prop_id));
        lemma_executed_preserves_wf(m, prop_id);
    }
    Ok(ExecuteOutcome::Executed { chosen_option: chosen })
}

/// The error a tally callback must surface, if any: an execution-typed
/// callback where a query result was expected is an authorization error; a
/// fatal delivery failure, or a correlation id that names no minted
/// prerequisite, is a protocol error. `None` means the tally is consumed.
pub open spec fn callback_check(
    m: StateModel,
    prereq_id: u64,
    result: CallbackResultModel,
) -> Option<ContractError> {
    match result {
        CallbackResultModel::Execute => Some(ContractError::UnauthorizedIbcMessage {}),
        CallbackResultModel::FatalError => Some(ContractError::IBCError {}),
        CallbackResultModel::Query { tally } => if prereq_id >= m.remote_proposals.len() {
            Some(ContractError::IBCError {})
        } else {
            None
        },
    }
}

/// How a consumed tally callback changes the state: every delivered entry is
/// upserted into the prerequisite's recorded tally (a repeated option keeps
/// its last delivered value), the prerequisite is marked resolved, and
/// nothing else moves.
pub open spec fn callback_applied(
    m: StateModel,
    post: StateModel,
    prereq_id: u64,
    tally: Seq<(Seq<char>, u64)>,
) -> bool {
    &&& post.remote_proposal_resolved == m.remote_proposal_resolved.update(prereq_id as int, true)
    &&& post.remote_proposal_tallies.len() == m.remote_proposal_tallies.len()
    &&& forall|o: Seq<char>|
        #[trigger] tally_of(post.remote_proposal_tallies[prereq_id as int], o) == match tally_value(
            tally,
            o,
        ) {
            Some(v) => v as int,
            None => tally_of(m.remote_proposal_tallies[prereq_id as int], o),
        }
    &&& forall|q: int|
        0 <= q < m.remote_proposal_tallies.len() && q != prereq_id
            ==> #[trigger] post.remote_proposal_tallies[q] == m.remote_proposal_tallies[q]
    &&& post.voting_period_minutes == m.voting_period_minutes
    &&& post.next_prop_id == m.next_prop_id
    &&& post.proposals == m.proposals
    &&& post.next_vote_id == m.next_vote_id
    &&& post.votes == m.votes
    &&& post.next_remote_proposal_id == m.next_remote_proposal_id
    &&& post.remote_proposals == m.remote_proposals
    &&& post.executed_proposals == m.executed_proposals
}

/// Store one delivered `(option, votes)` pair: overwrite the existing entry
/// for the option, or append a fresh one.
fn upsert_tally_entry(entries: &mut Vec<TallyEntry>, option: &String, votes: u64)
    requires
        tally_keys_unique(entries_model(*old(entries))),
    ensures
        tally_keys_unique(entries_model(*final(entries))),
        tally_of(entries_model(*final(entries)), option@) == votes as int,
        forall|o: Seq<char>|
            o != option@ ==> #[trigger] tally_of(entries_model(*final(entries)), o) == tally_of(
                entries_model(*old(entries)),
                o,
            ),
{
    let ghost m = entries_model(*entries);
    let n = entries.len();
    let mut i: usize = 0;
    while i < n
        invariant
            0 <= i <= n,
            n == entries.len(),
            entries == old(entries),
            m == entries_model(*entries),
            tally_keys_unique(m),
            forall|j: int| 0 <= j < i ==> (#[trigger] m[j]).option != option@,
        decreases n - i,
    {
        if entries[i].option == *option {
            assert(m[i as int].option == option@);
            let new_entry = TallyEntry { option: entries[i].option.clone(), votes };
            assert(new_entry@.option == option@);
            entries[i] = new_entry;
            proof {
                let post = entries_model(*entries);
                assert(post =~= m.update(i as int, TallyEntryModel { option: option@, votes }));
                lemma_tally_of_update(
                    m,
                    i as int,
                    TallyEntryModel { option: option@, votes },
                    option@,
                );
                assert forall|o: Seq<char>| o != option@ implies #[trigger] tally_of(post, o)
                    == tally_of(m, o) by {
                    lemma_tally_of_update(
                        m,
                        i as int,
                        TallyEntryModel { option: option@, votes },
                        o,
                    );
                }
                assert forall|a: int, b: int| 0 <= a < b < post.len() implies (
                #[trigger] post[a]).option != (#[trigger] post[b]).option by {
                    assert(m[a].option == post[a].option);
                    assert(m[b].option == post[b].option);
                }
            }
            return ;
        }
        i = i + 1;
    }
    assert(!has_tally_key(m, option@));
    entries.push(TallyEntry { option: option.clone(), votes });
    proof {
        let post = entries_model(*entries);
        let x = TallyEntryModel { option: option@, votes };
        assert(post =~= m.push(x));
        lemma_tally_of_push(m, x, option@);
        assert forall|o: Seq<char>| o != option@ implies #[trigger] tally_of(post, o)
            == tally_of(m, o) by {
            lemma_tally_of_push(m, x, o);
            if !has_tally_key(m, o) {
                lemma_tally_of_no_key(m, o);
            }
        }
        assert forall|a: int, b: int| 0 <= a < b < post.len() implies (#[trigger] post[a]).option
            != (#[trigger] post[b]).option by {
            if b < m.len() {
                assert(m[a].option != m[b].option);
            } else {
                assert(post[b] == x);
                assert(m[a].option != option@);
            }
        }
    }
}

/// Consume a tally callback for the prerequisite named by the correlation
/// payload. A query result has its entries upserted into the prerequisite's
/// recorded tally, then the prerequisite is marked resolved. An
/// execution-typed callback is rejected as unauthorized; a fatal delivery
/// failure is a protocol error and leaves the prerequisite unresolved, so a
/// later `ExecuteProposal` retry re-attempts resolution.
pub fn query_tally_callback(
    s: &mut GovState,
    remote_prop_msg: &RemoteProposalMsg,
    result: CallbackResult,
) -> (r: Result<(), ContractError>)
    requires
        old(s)@.wf(),
    ensures
        final(s)@.wf(),
        match callback_check(old(s)@, remote_prop_msg.prop_id, result@) {
            Some(e) => r == Err::<(), ContractError>(e) && final(s)@ == old(s)@,
            None => r == Ok::<(), ContractError>(()) && callback_applied(
                old(s)@,
                final(s)@,
                remote_prop_msg.prop_id,
                result@->Query_tally,
            ),
        },
{
    let ghost m = old(s)@;
    let prereq_id = remote_prop_msg.prop_id;
    match result {
        CallbackResult::Query { tally } => {
            if prereq_id >= s.next_remote_proposal_id {
                return Err(ContractError::IBCError {});
            }
            assert(prereq_id < s.remote_proposal_tallies@.len());
            assert(prereq_id < s.remote_proposal_tallies.len());
            assert(prereq_id < s.remote_proposal_resolved.len());
            let qidx: usize = prereq_id as usize;
            let ghost t = tally_model(tally@);
            let n = tally.len();
            let mut j: usize = 0;
            proof {
                assert(t.subrange(0, 0) =~= Seq::<(Seq<char>, u64)>::empty());
                assert(s@.remote_proposal_tallies[qidx as int] == entries_model(
                    s.remote_proposal_tallies@[qidx as int],
                ));
                assert(entries_model(s.remote_proposal_tallies@[qidx as int])
                    == m.remote_proposal_tallies[qidx as int]);
                assert(tally_keys_unique(m.remote_proposal_tallies[qidx as int]));
                assert(m.remote_proposal_tallies =~= m.remote_proposal_tallies.update(
                    qidx as int,
                    m.remote_proposal_tallies[qidx as int],
                ));
            }
            while j < n
                invariant
                    0 <= j <= n,
                    n == tally.len(),
                    t == tally_model(tally@),
                    m.wf(),
                    qidx as int == prereq_id as int,
                    qidx < s.remote_proposal_tallies@.len(),
                    s.remote_proposal_tallies@.len() == m.remote_proposal_tallies.len(),
                    tally_keys_unique(entries_model(s.remote_proposal_tallies@[qidx as int])),
                    forall|o: Seq<char>|
                        #[trigger] tally_of(
                            entries_model(s.remote_proposal_tallies@[qidx as int]),
                            o,
                        ) == match tally_value(t.subrange(0, j as int), o) {
                            Some(v) => v as int,
                            None => tally_of(m.remote_proposal_tallies[qidx as int], o),
                        },
                    s@.remote_proposal_tallies == m.remote_proposal_tallies.update(
                        qidx as int,
                        entries_model(s.remote_proposal_tallies@[qidx as int]),
                    ),
                    s.voting_period_minutes == m.voting_period_minutes,
                    s.next_prop_id == m.next_prop_id,
                    s@.proposals == m.proposals,
                    s.next_vote_id == m.next_vote_id,
                    s@.votes == m.votes,
                    s.next_remote_proposal_id == m.next_remote_proposal_id,
                    s@.remote_proposals == m.remote_proposals,
                    s@.remote_proposal_resolved == m.remote_proposal_resolved,
                    s@.executed_proposals == m.executed_proposals,
                decreases n - j,
            {
                let ghost pre_entries = entries_model(s.remote_proposal_tallies@[qidx as int]);
                let ghost pre_vec = s.remote_proposal_tallies@;
                let ghost pre_state = s@;
                let entry_option = tally[j].0.clone();
                let entry_votes = tally[j].1;
                assert(entry_option@ == t[j as int].0);
                assert(entry_votes == t[j as int].1);
                upsert_tally_entry(&mut s.remote_proposal_tallies[qidx], &entry_option, entry_votes);
                proof {
                    assert(pre_state.remote_proposal_tallies == m.remote_proposal_tallies.update(
                        qidx as int,
                        entries_model(pre_vec[qidx as int]),
                    ));
                    let target = m.remote_proposal_tallies.update(
                        qidx as int,
                        entries_model(s.remote_proposal_tallies@[qidx as int]),
                    );
                    assert forall|q: int|
                        0 <= q < s.remote_proposal_tallies@.len() && q != qidx as int implies
                        #[trigger] s@.remote_proposal_tallies[q] == target[q] by {
                        assert(s.remote_proposal_tallies@[q] == pre_vec[q]);
                        assert(s@.remote_proposal_tallies[q] == pre_state.remote_proposal_tallies[q]);
                    }
                    assert(s@.remote_proposal_tallies[qidx as int] == entries_model(
                        s.remote_proposal_tallies@[qidx as int],
                    ));
                    assert(s@.remote_proposal_tallies =~= target);
                    lemma_tally_value_step(t, t[j as int].0, j as int);
                    assert forall|o: Seq<char>|
                        #[trigger] tally_of(
                            entries_model(s.remote_proposal_tallies@[qidx as int]),
                            o,
                        ) == match tally_value(t.subrange(0, j + 1), o) {
                            Some(v) => v as int,
                            None => tally_of(m.remote_proposal_tallies[qidx as int], o),
                        } by {
                        lemma_tally_value_step(t, o, j as int);
                        if o != t[j as int].0 {
                            assert(tally_of(
                                entries_model(s.remote_proposal_tallies@[qidx as int]),
                                o,
                            ) == tally_of(pre_entries, o));
                        }
                    }
                }
                j = j + 1;
            }
            proof {
                assert(t.subrange(0, t.len() as int) =~= t);
            }
            s.remote_proposal_resolved[qidx] = true;
            proof {
                assert(s@.remote_proposal_resolved =~= m.remote_proposal_resolved.update(
                    qidx as int,
                    true,
                ));
                assert(s@.remote_proposal_tallies[prereq_id as int] == entries_model(
                    s.remote_proposal_tallies@[qidx as int],
                ));
                assert forall|o: Seq<char>|
                    #[trigger] tally_of(s@.remote_proposal_tallies[prereq_id as int], o)
                        == match tally_value(t, o) {
                        Some(v) => v as int,
                        None => tally_of(m.remote_proposal_tallies[prereq_id as int], o),
                    } by {
                    assert(tally_of(entries_model(s.remote_proposal_tallies@[qidx as int]), o)
                        == match tally_value(t.subrange(0, t.len() as int), o) {
                        Some(v) => v as int,
                        None => tally_of(m.remote_proposal_tallies[qidx as int], o),
                    });
                }
                assert(tally_keys_unique(s@.remote_proposal_tallies[prereq_id as int]));
                assert forall|q: int|
                    0 <= q < m.remote_proposal_tallies.len() && q != prereq_id implies
                    #[trigger] s@.remote_proposal_tallies[q] == m.remote_proposal_tallies[q] by {
                    assert(s@.remote_proposal_tallies == m.remote_proposal_tallies.update(
                        qidx as int,
                        entries_model(s.remote_proposal_tallies@[qidx as int]),
                    ));
                }
                assert(callback_applied(m, s@, prereq_id, t));
                lemma_callback_preserves_wf(m, s@, prereq_id, t);
            }
            Ok(())
        },
        CallbackResult::Execute {} => Err(ContractError::UnauthorizedIbcMessage {}),
        CallbackResult::FatalError {} => Err(ContractError::IBCError {}),
    }
}

/// The error the cross-chain tally responder must return: the asking module
/// must assert the governance namespace (only sibling governance instances
/// may query), and the queried proposal must exist and be executed.
pub open spec fn module_ibc_check(
    m: StateModel,
    source_namespace: Seq<char>,
    prop_id: u64,
) -> Option<ContractError> {
    if source_namespace != ccgov_namespace() {
        Some(ContractError::Unauthorized {})
    } else if !(m.has_proposal(prop_id) && m.proposal(prop_id).executed) {
        Some(ContractError::ProposalNotExecuted {})
    } else {
        None
    }
}

/// Answer an inbound cross-chain tally query from a dependent chain. The
/// caller must assert the governance namespace; the proposal must already be
/// executed. The tally is computed on demand from the stored votes and
/// remote tallies, not cached.
pub fn module_ibc_handler(
    s: &GovState,
    source_namespace: &String,
    msg: &CCGovIbcMessage,
) -> (r: Result<QueryTallyResponse, ContractError>)
    requires
        s@.wf(),
        tally_fits(s@, msg->QueryTally_prop_id),
    ensures
        match module_ibc_check(s@, source_namespace@, msg->QueryTally_prop_id) {
            Some(e) => r == Err::<QueryTallyResponse, ContractError>(e),
            None => (r matches Ok(resp) && is_tally_for(
                s@,
                msg->QueryTally_prop_id,
                tally_model(resp.tally@),
            )),
        },
{
    let own_namespace: String = CCGOV_NAMESPACE.to_owned();
    let authorized = *source_namespace == own_namespace;
    if !authorized {
        return Err(ContractError::Unauthorized {});
    }
    let prop_id = match msg {
        CCGovIbcMessage::QueryTally { prop_id } => *prop_id,
    };
    if prop_id >= s.next_prop_id {
        return Err(ContractError::ProposalNotExecuted {});
    }
    let nprops: usize = s.proposals.len();
    assert(prop_id < nprops);
    if !s.proposals[prop_id as usize].executed {
        assert(!s@.proposal(prop_id).executed);
        return Err(ContractError::ProposalNotExecuted {});
    }
    match query_tally(s, prop_id) {
        Ok(tally) => Ok(QueryTallyResponse { tally }),
        Err(_) => vstd::pervasive::unreached(),
    }
}

/// Find the index of the vote keyed `(prop_id, voter)`, if one is recorded.
fn find_vote(votes: &Vec<Vote>, prop_id: u64, voter: &String) -> (r: Option<usize>)
    ensures
        match r {
            Some(i) => i < votes@.len() && votes@[i as int].prop_id == prop_id && votes@[
                i as int
            ].voter@ == voter@,
            None => !has_vote_in(votes@.map_values(|v: Vote| v@), prop_id, voter@),
        },
{
    let ghost m = votes@.map_values(|v: Vote| v@);
    let n = votes.len();
    let mut i: usize = 0;
    while i < n
        invariant
            0 <= i <= n,
            n == votes.len(),
            m == votes@.map_values(|v: Vote| v@),
            forall|j: int|
                0 <= j < i ==> !((#[trigger] m[j]).prop_id == prop_id && m[j].voter == voter@),
        decreases n - i,
    {
        if votes[i].prop_id == prop_id && votes[i].voter == *voter {
            return Some(i);
        }
        i = i + 1;
    }
    None
}

/// Copy the executed-proposals log.
fn copy_executed_log(log: &Vec<(u64, String)>) -> (r: Vec<(u64, String)>)
    ensures
        log_model(r@) == log_model(log@),
{
    let n = log.len();
    let mut out: Vec<(u64, String)> = Vec::new();
    let mut i: usize = 0;
    while i < n
        invariant
            0 <= i <= n,
            n == log.len(),
            log_model(out@) == log_model(log@.subrange(0, i as int)),
        decreases n - i,
    {
        let entry_id = log[i].0;
        let entry_option = log[i].1.clone();
        assert(entry_id == log@[i as int].0);
        assert(entry_option@ == log@[i as int].1@);
        let ghost pre_out = out@;
        out.push((entry_id, entry_option));
        proof {
            assert(out@ == pre_out.push((entry_id, entry_option)));
            assert(log_model(pre_out).len() == pre_out.len());
            assert(pre_out.len() == log_model(log@.subrange(0, i as int)).len());
            assert(pre_out.len() == i as int);
            assert(log_model(out@).len() == i + 1);
            assert(log_model(log@.subrange(0, i + 1)).len() == i + 1);
            assert forall|j: int| 0 <= j < i + 1 implies log_model(out@)[j] == log_model(
                log@.subrange(0, i + 1),
            )[j] by {
                if j < i {
                    assert(log_model(pre_out)[j] == log_model(log@.subrange(0, i as int))[j]);
                    assert(out@[j] == pre_out[j]);
                    assert(log@.subrange(0, i + 1)[j] == log@.subrange(0, i as int)[j]);
                } else {
                    assert(out@[j] == (entry_id, entry_option));
                    assert(log@.subrange(0, i + 1)[j] == log@[i as int]);
                }
            }
            assert(log_model(out@) =~= log_model(log@.subrange(0, i + 1)));
        }
        i = i + 1;
    }
    proof {
        assert(log@.subrange(0, n as int) =~= log@);
    }
    out
}

impl Vote {
    /// An owned copy with the same content.
    pub fn duplicate(&self) -> (r: Vote)
        ensures
            r@ == self@,
    {
        Vote {
            id: self.id,
            prop_id: self.prop_id,
            voter: self.voter.clone(),
            power: self.power,
            option: self.option.clone(),
        }
    }
}

impl crate::state::Proposal {
    /// An owned copy with the same content.
    pub fn duplicate(&self) -> (r: crate::state::Proposal)
        ensures
            r@ == self@,
    {
        let options = self.options.clone();
        let prereq_proposals = self.prereq_proposals.clone();
        proof {
            assert(options@ =~= self.options@);
            assert(prereq_proposals@ =~= self.prereq_proposals@);
        }
        let r = crate::state::Proposal {
            id: self.id,
            title: self.title.clone(),
            description: self.description.clone(),
            start_time: self.start_time,
            executed: self.executed,
            options,
            power_contract: self.power_contract.clone(),
            prereq_proposals,
            chosen_option: match &self.chosen_option {
                Some(c) => Some(c.clone()),
                None => None,
            },
        };
        proof {
            assert(r@ =~~= self@);
        }
        r
    }
}

/// Serve the read-only queries: a proposal record, a vote record, a
/// proposal's total voted power, the executed-proposals log, or a tally.
pub fn query_handler(s: &GovState, msg: &CCGovQueryMsg) -> (r: Result<
    CCGovQueryResponse,
    ContractError,
>)
    requires
        s@.wf(),
        (msg matches CCGovQueryMsg::QueryTotalVotedPower { prop_id } ==> sum_power(
            s@.votes,
            *prop_id,
        ) <= u64::MAX),
        (msg matches CCGovQueryMsg::QueryTally { prop_id } ==> tally_fits(s@, *prop_id)),
    ensures
        match *msg {
            CCGovQueryMsg::QueryProposal { prop_id } => {
                if s@.has_proposal(prop_id) {
                    (r matches Ok(CCGovQueryResponse::Proposal(resp)) && resp.prop@ == s@.proposal(
                        prop_id,
                    ))
                } else {
                    r == Err::<CCGovQueryResponse, ContractError>(ContractError::Std {})
                }
            },
            CCGovQueryMsg::QueryVote { prop_id, ref voter } => {
                if s@.has_vote(prop_id, voter@) {
                    (r matches Ok(CCGovQueryResponse::Vote(resp)) && resp.vote@.prop_id == prop_id
                        && resp.vote@.voter == voter@ && s@.votes.contains(resp.vote@))
                } else {
                    r == Err::<CCGovQueryResponse, ContractError>(ContractError::Std {})
                }
            },
            CCGovQueryMsg::QueryTotalVotedPower { prop_id } => (r matches Ok(
                CCGovQueryResponse::TotalVotedPower(resp),
            ) && resp.power as int == sum_power(s@.votes, prop_id)),
            CCGovQueryMsg::QueryExecutedProposals {  } => (r matches Ok(
                CCGovQueryResponse::ExecutedProposals(resp),
            ) && log_model(resp.executed_proposals@) == s@.executed_proposals),
            CCGovQueryMsg::QueryTally { prop_id } => {
                if s@.has_proposal(prop_id) {
                    (r matches Ok(CCGovQueryResponse::Tally(resp)) && is_tally_for(
                        s@,
                        prop_id,
                        tally_model(resp.tally@),
                    ))
                } else {
                    r == Err::<CCGovQueryResponse, ContractError>(ContractError::Std {})
                }
            },
        },
{
    match msg {
        CCGovQueryMsg::QueryProposal { prop_id } => {
            let prop_id = *prop_id;
            if prop_id >= s.next_prop_id {
                return Err(ContractError::Std {});
            }
            let nprops: usize = s.proposals.len();
            assert(prop_id < nprops);
            let prop = s.proposals[prop_id as usize].duplicate();
            assert(prop@ == s@.proposal(prop_id));
            Ok(CCGovQueryResponse::Proposal(QueryProposalResponse { prop }))
        },
        CCGovQueryMsg::QueryVote { prop_id, voter } => {
            match find_vote(&s.votes, *prop_id, voter) {
                Some(i) => {
                    let vote = s.votes[i].duplicate();
                    proof {
                        assert(s@.votes[i as int] == s.votes@[i as int]@);
                        assert(s@.votes.contains(vote@)) by {
                            assert(s@.votes[i as int] == vote@);
                        }
                    }
                    Ok(CCGovQueryResponse::Vote(QueryVoteResponse { vote }))
                },
                None => Err(ContractError::Std {}),
            }
        },
        CCGovQueryMsg::QueryTotalVotedPower { prop_id } => {
            let power = get_total_voted_power(s, *prop_id);
            Ok(CCGovQueryResponse::TotalVotedPower(QueryTotalVotedPowerResponse { power }))
        },
        CCGovQueryMsg::QueryExecutedProposals {  } => {
            let executed_proposals = copy_executed_log(&s.executed_proposals);
            Ok(
                CCGovQueryResponse::ExecutedProposals(
                    QueryExecutedProposalsResponse { executed_proposals },
                ),
            )
        },
        CCGovQueryMsg::QueryTally { prop_id } => {
            match query_tally(s, *prop_id) {
                Ok(tally) => Ok(CCGovQueryResponse::Tally(QueryTallyResponse { tally })),
                Err(e) => Err(e),
            }
        },
    }
}

/// Consuming a callback preserves the state invariant.
proof fn lemma_callback_preserves_wf(
    m: StateModel,
    post: StateModel,
    prereq_id: u64,
    tally: Seq<(Seq<char>, u64)>,
)
    requires
        m.wf(),
        prereq_id < m.remote_proposals.len(),
        callback_applied(m, post, prereq_id, tally),
        tally_keys_unique(post.remote_proposal_tallies[prereq_id as int]),
    ensures
        post.wf(),
{
    assert forall|i: int| 0 <= i < post.proposals.len() implies #[trigger] post.proposal_wf(
        i,
    ) by {
        assert(m.proposal_wf(i));
    }
    assert forall|q: int| 0 <= q < post.remote_proposal_tallies.len() implies tally_keys_unique(
        #[trigger] post.remote_proposal_tallies[q],
    ) by {
        if q != prereq_id {
            assert(post.remote_proposal_tallies[q] == m.remote_proposal_tallies[q]);
        }
    }
    assert forall|k: int| 0 <= k < post.executed_proposals.len() implies {
        let e = #[trigger] post.executed_proposals[k];
        &&& e.0 < post.proposals.len()
        &&& post.proposals[e.0 as int].executed
        &&& post.proposals[e.0 as int].chosen_option == Some(e.1)
    } by {
        assert(m.executed_proposals[k] == post.executed_proposals[k]);
        assert(m.proposals[m.executed_proposals[k].0 as int].executed);
    }
    assert forall|i: int|
        0 <= i < post.proposals.len() && (#[trigger] post.proposals[i]).executed implies
        exists|k: int|
        0 <= k < post.executed_proposals.len() && (#[trigger] post.executed_proposals[k]).0
            == i by {
        assert(m.proposals[i].executed);
    }
}

} // verus!
