//! The library's laws: properties of the lifecycle that hold for every
//! state, proved once against the same transition functions the executable
//! contracts are specified with.

use vstd::prelude::*;

use crate::contract::{
    all_resolved, callback_check, execute_check, execute_next, prereq_resolved, queries_for,
    query_for, vote_check, vote_next, winner_option,
};
use crate::error::ContractError;
use crate::msg::CallbackResultModel;
use crate::state::StateModel;
use crate::tally::{
    is_first_max, lemma_first_max_exists, lemma_first_max_unique, sum_local, total_for, totals_of,
    winner_index,
};

verus! {

/// At most one vote exists per `(prop_id, voter)` pair: any two recorded
/// votes with the same pair are the same record.
pub proof fn lemma_at_most_one_vote(m: StateModel, j: int, k: int)
    requires
        m.wf(),
        0 <= j < m.votes.len(),
        0 <= k < m.votes.len(),
        m.votes[j].prop_id == m.votes[k].prop_id,
        m.votes[j].voter == m.votes[k].voter,
    ensures
        j == k,
{
}

/// A second `Vote` with the same `(prop_id, voter)` pair always fails with
/// `AlreadyVoted`: once a vote is accepted, a repeat by the same voter on the
/// same proposal is rejected, whatever its option, whenever it reaches the
/// duplicate check (the proposal exists, voting is open, the option is
/// declared).
pub proof fn lemma_second_vote_rejected(
    m: StateModel,
    now1: u64,
    now2: u64,
    prop_id: u64,
    voter: Seq<char>,
    option1: Seq<char>,
    option2: Seq<char>,
    power: u64,
)
    requires
        m.wf(),
        vote_check(m, now1, prop_id, voter, option1) is None,
        vote_next(m, prop_id, voter, option1, power).voting_open(prop_id, now2),
        vote_next(m, prop_id, voter, option1, power).proposal(prop_id).has_option(option2),
    ensures
        vote_check(vote_next(m, prop_id, voter, option1, power), now2, prop_id, voter, option2)
            == Some(ContractError::AlreadyVoted {}),
{
    let post = vote_next(m, prop_id, voter, option1, power);
    assert(post.votes[post.votes.len() - 1].prop_id == prop_id);
    assert(post.votes[post.votes.len() - 1].voter == voter);
    assert(post.has_vote(prop_id, voter));
}

/// After the voting window (`now` strictly past `start_time + period`),
/// `Vote` always fails with `VotingPeriodHasEnded`, whatever the option, the
/// voter, or the recorded votes.
pub proof fn lemma_vote_after_deadline(
    m: StateModel,
    now: u64,
    prop_id: u64,
    voter: Seq<char>,
    option: Seq<char>,
)
    requires
        m.has_proposal(prop_id),
        now > m.proposal(prop_id).end_time(m.voting_period_minutes),
    ensures
        vote_check(m, now, prop_id, voter, option) == Some(
            ContractError::VotingPeriodHasEnded {},
        ),
{
}

/// The deadline is closed: at or before `start_time + period` a vote is
/// never rejected for the voting period (it may still be rejected for
/// another reason).
pub proof fn lemma_vote_at_deadline_accepted(
    m: StateModel,
    now: u64,
    prop_id: u64,
    voter: Seq<char>,
    option: Seq<char>,
)
    requires
        m.has_proposal(prop_id),
        now <= m.proposal(prop_id).end_time(m.voting_period_minutes),
    ensures
        vote_check(m, now, prop_id, voter, option) != Some(
            ContractError::VotingPeriodHasEnded {},
        ),
{
}

/// A vote for an undeclared option always fails with `InvalidOption`,
/// regardless of the vote-count state.
pub proof fn lemma_vote_invalid_option(
    m: StateModel,
    now: u64,
    prop_id: u64,
    voter: Seq<char>,
    option: Seq<char>,
)
    requires
        m.has_proposal(prop_id),
        m.voting_open(prop_id, now),
        !m.proposal(prop_id).has_option(option),
    ensures
        vote_check(m, now, prop_id, voter, option) == Some(ContractError::InvalidOption {}),
{
}

/// For a proposal without prerequisites, the tally is exactly the recorded
/// local votes' power summed per option, in declared option order.
pub proof fn lemma_local_only_tally(m: StateModel, prop_id: u64)
    requires
        m.has_proposal(prop_id),
        m.proposal(prop_id).prereq_proposals.len() == 0,
    ensures
        forall|i: int|
            0 <= i < m.proposal(prop_id).options.len() ==> totals_of(m, prop_id)[i] == sum_local(
                m.votes,
                prop_id,
                #[trigger] m.proposal(prop_id).options[i],
            ),
{
}

/// While any prerequisite is unresolved, `ExecuteProposal` changes nothing:
/// no matter how often it is called, the state — the executed log included —
/// stays as it was, and each call reports the same queries.
pub proof fn lemma_unresolved_execute_is_readonly(m: StateModel, now: u64, prop_id: u64)
    requires
        execute_check(m, now, prop_id) is None,
        !m.proposal(prop_id).executed,
        !all_resolved(m, prop_id),
    ensures
        execute_next(m, now, prop_id) == m,
        execute_next(m, now, prop_id).executed_proposals == m.executed_proposals,
        execute_next(execute_next(m, now, prop_id), now, prop_id) == m,
{
}

/// Once every prerequisite is resolved, a single `ExecuteProposal` call
/// executes the proposal: it is marked executed with the winning option, the
/// executed log is appended exactly once, and every later call returns the
/// same stored result without changing anything.
pub proof fn lemma_execute_exactly_once(m: StateModel, now: u64, now2: u64, prop_id: u64)
    requires
        m.wf(),
        execute_check(m, now, prop_id) is None,
        !m.proposal(prop_id).executed,
        all_resolved(m, prop_id),
        now2 >= m.proposal(prop_id).end_time(m.voting_period_minutes),
    ensures
        execute_next(m, now, prop_id).proposal(prop_id).executed,
        execute_next(m, now, prop_id).proposal(prop_id).chosen_option == Some(
            winner_option(m, prop_id),
        ),
        execute_next(m, now, prop_id).executed_proposals == m.executed_proposals.push(
            (prop_id, winner_option(m, prop_id)),
        ),
        execute_next(execute_next(m, now, prop_id), now2, prop_id) == execute_next(
            m,
            now,
            prop_id,
        ),
{
    let post = execute_next(m, now, prop_id);
    assert(post.proposal(prop_id).executed);
    assert(post.has_proposal(prop_id));
    assert(post.proposal(prop_id).start_time == m.proposal(prop_id).start_time);
    assert(execute_check(post, now2, prop_id) is None);
}

/// Tie-break: with two options carrying equal totals, the first-listed
/// option wins (a later equal total does not overtake the running maximum).
pub proof fn lemma_tie_break_first(totals: Seq<int>)
    requires
        totals.len() == 2,
        totals[0] == totals[1],
    ensures
        winner_index(totals) == 0,
{
    lemma_first_max_exists(totals);
    assert(is_first_max(totals, 0));
    lemma_first_max_unique(totals, winner_index(totals), 0);
}

/// More generally: the winner is the first option reaching the maximum.
pub proof fn lemma_winner_is_first_max(totals: Seq<int>)
    requires
        totals.len() > 0,
    ensures
        is_first_max(totals, winner_index(totals)),
{
    lemma_first_max_exists(totals);
}

/// A callback carrying a fatal delivery result surfaces a protocol error
/// (and the executable handler leaves the state — `RemoteResolved`
/// included — untouched on every error path).
pub proof fn lemma_fatal_callback_is_protocol_error(m: StateModel, prereq_id: u64)
    ensures
        callback_check(m, prereq_id, CallbackResultModel::FatalError) == Some(
            ContractError::IBCError {},
        ),
{
}

/// Every unresolved prerequisite is re-queried: an `ExecuteProposal` call
/// that finds prerequisite `prereqs[k]` unresolved reports a query for it.
/// In particular, after a fatal callback (which resolves nothing) a retry
/// re-attempts resolution rather than treating the prerequisite as
/// satisfied.
pub proof fn lemma_unresolved_prereq_requeried(m: StateModel, prereqs: Seq<u64>, k: int)
    requires
        0 <= k < prereqs.len(),
        !prereq_resolved(m, prereqs[k]),
    ensures
        queries_for(m, prereqs).contains(query_for(m, prereqs[k])),
        !crate::contract::all_resolved_in(m, prereqs),
    decreases prereqs.len(),
{
    if k == prereqs.len() - 1 {
        let qs = queries_for(m, prereqs.drop_last());
        assert(queries_for(m, prereqs)[qs.len() as int] == query_for(m, prereqs[k]));
    } else {
        lemma_unresolved_prereq_requeried(m, prereqs.drop_last(), k);
        let qs = queries_for(m, prereqs.drop_last());
        let i = choose|i: int| 0 <= i < qs.len() && qs[i] == query_for(m, prereqs.drop_last()[k]);
        assert(queries_for(m, prereqs)[i] == query_for(m, prereqs[k]));
    }
}

} // verus!
