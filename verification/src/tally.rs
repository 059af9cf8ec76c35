//! The tally engine: per-option totals and deterministic winner selection.
//!
//! A proposal's total for an option is the power-weighted sum of its local
//! votes for that option, plus the recorded remote tally of every declared
//! prerequisite for that option (summed across all prerequisites). The winner
//! is the first option, in declared order, reaching the maximum total: a
//! running maximum with strict `>` comparison, so an option that later merely
//! equals the current maximum does not overtake it.

use vstd::prelude::*;

use crate::error::ContractError;
use crate::state::{GovState, StateModel, TallyEntry, TallyEntryModel, Vote, VoteModel};

verus! {

/// What one vote record contributes to the total of `option` on `prop_id`.
pub open spec fn vote_weight(v: VoteModel, prop_id: u64, option: Seq<char>) -> int {
    if v.prop_id == prop_id && v.option == option {
        v.power as int
    } else {
        0
    }
}

/// Power-weighted sum of the recorded votes for `option` on `prop_id`.
pub open spec fn sum_local(votes: Seq<VoteModel>, prop_id: u64, option: Seq<char>) -> int
    decreases votes.len(),
{
    if votes.len() == 0 {
        0
    } else {
        sum_local(votes.drop_last(), prop_id, option) + vote_weight(votes.last(), prop_id, option)
    }
}

/// Sum of the powers of all votes on `prop_id`, over all options.
pub open spec fn sum_power(votes: Seq<VoteModel>, prop_id: u64) -> int
    decreases votes.len(),
{
    if votes.len() == 0 {
        0
    } else {
        sum_power(votes.drop_last(), prop_id) + if votes.last().prop_id == prop_id {
            votes.last().power as int
        } else {
            0
        }
    }
}

/// The recorded tally for `option` in one prerequisite's entry list;
/// 0 when no entry exists (an absent key defaults to 0).
pub open spec fn tally_of(entries: Seq<TallyEntryModel>, option: Seq<char>) -> int
    decreases entries.len(),
{
    if entries.len() == 0 {
        0
    } else if entries[0].option == option {
        entries[0].votes as int
    } else {
        tally_of(entries.drop_first(), option)
    }
}

/// The recorded remote tally of prerequisite `prereq` for `option`.
pub open spec fn remote_tally(m: StateModel, prereq: u64, option: Seq<char>) -> int {
    if prereq < m.remote_proposal_tallies.len() {
        tally_of(m.remote_proposal_tallies[prereq as int], option)
    } else {
        0
    }
}

/// Sum of the recorded remote tallies for `option` over the prerequisites in
/// `prereqs`, in declaration order.
pub open spec fn sum_remote(m: StateModel, prereqs: Seq<u64>, option: Seq<char>) -> int
    decreases prereqs.len(),
{
    if prereqs.len() == 0 {
        0
    } else {
        sum_remote(m, prereqs.drop_last(), option) + remote_tally(m, prereqs.last(), option)
    }
}

/// The combined total for `option` on `prop_id`: local weighted votes plus
/// all recorded remote tallies of the proposal's prerequisites.
pub open spec fn total_for(m: StateModel, prop_id: u64, option: Seq<char>) -> int {
    sum_local(m.votes, prop_id, option) + sum_remote(
        m,
        m.proposal(prop_id).prereq_proposals,
        option,
    )
}

/// The totals of all of the proposal's options, in declared order.
pub open spec fn totals_of(m: StateModel, prop_id: u64) -> Seq<int> {
    Seq::new(
        m.proposal(prop_id).options.len(),
        |i: int| total_for(m, prop_id, m.proposal(prop_id).options[i]),
    )
}

/// Every per-option total of `prop_id` fits in a `u64` (a machine bound the
/// executable tally needs; trivial when the proposal does not exist).
pub open spec fn tally_fits(m: StateModel, prop_id: u64) -> bool {
    m.has_proposal(prop_id) ==> forall|i: int|
        0 <= i < m.proposal(prop_id).options.len() ==> total_for(
            m,
            prop_id,
            #[trigger] m.proposal(prop_id).options[i],
        ) <= u64::MAX
}

/// The ghost content of an executable tally list: option and votes per entry.
pub open spec fn tally_model(t: Seq<(String, u64)>) -> Seq<(Seq<char>, u64)> {
    t.map_values(|e: (String, u64)| (e.0@, e.1))
}

/// `t` is the tally of `prop_id`: one entry per declared option, in declared
/// order, carrying that option's combined total.
pub open spec fn is_tally_for(m: StateModel, prop_id: u64, t: Seq<(Seq<char>, u64)>) -> bool {
    &&& t.len() == m.proposal(prop_id).options.len()
    &&& forall|i: int|
        0 <= i < t.len() ==> (#[trigger] t[i]).0 == m.proposal(prop_id).options[i] && t[i].1
            as int == total_for(m, prop_id, m.proposal(prop_id).options[i])
}

/// `w` is the index of the first maximum of `totals`: no total is larger, and
/// every earlier total is strictly smaller.
pub open spec fn is_first_max(totals: Seq<int>, w: int) -> bool {
    &&& 0 <= w < totals.len()
    &&& forall|j: int| 0 <= j < totals.len() ==> #[trigger] totals[j] <= totals[w]
    &&& forall|j: int| 0 <= j < w ==> #[trigger] totals[j] < totals[w]
}

/// The index of the first maximum of `totals` (meaningful when nonempty;
/// see `lemma_first_max_exists` and `lemma_first_max_unique`).
pub open spec fn winner_index(totals: Seq<int>) -> int {
    choose|w: int| is_first_max(totals, w)
}

/// A nonempty totals sequence has a first maximum.
pub proof fn lemma_first_max_exists(totals: Seq<int>)
    requires
        totals.len() > 0,
    ensures
        is_first_max(totals, winner_index(totals)),
    decreases totals.len(),
{
    if totals.len() == 1 {
        assert(is_first_max(totals, 0));
    } else {
        let prefix = totals.drop_last();
        lemma_first_max_exists(prefix);
        let w = winner_index(prefix);
        if totals.last() > prefix[w] {
            assert forall|j: int| 0 <= j < totals.len() - 1 implies #[trigger] totals[j]
                < totals[totals.len() - 1] by {
                assert(prefix[j] <= prefix[w]);
            }
            assert(is_first_max(totals, totals.len() - 1));
        } else {
            assert forall|j: int| 0 <= j < totals.len() implies #[trigger] totals[j]
                <= totals[w] by {
                if j < totals.len() - 1 {
                    assert(prefix[j] <= prefix[w]);
                }
            }
            assert forall|j: int| 0 <= j < w implies #[trigger] totals[j] < totals[w] by {
                assert(prefix[j] < prefix[w]);
            }
            assert(is_first_max(totals, w));
        }
    }
    let win = winner_index(totals);
    assert(is_first_max(totals, win)) by {
        assert(exists|w: int| is_first_max(totals, w));
    }
}

/// The first maximum is unique.
pub proof fn lemma_first_max_unique(totals: Seq<int>, w1: int, w2: int)
    requires
        is_first_max(totals, w1),
        is_first_max(totals, w2),
    ensures
        w1 == w2,
{
    if w1 < w2 {
        assert(totals[w1] < totals[w2]);
        assert(totals[w2] <= totals[w1]);
    }
    if w2 < w1 {
        assert(totals[w2] < totals[w1]);
        assert(totals[w1] <= totals[w2]);
    }
}

pub proof fn lemma_sum_local_nonneg(votes: Seq<VoteModel>, prop_id: u64, option: Seq<char>)
    ensures
        sum_local(votes, prop_id, option) >= 0,
    decreases votes.len(),
{
    if votes.len() > 0 {
        lemma_sum_local_nonneg(votes.drop_last(), prop_id, option);
    }
}

/// Extending a prefix of the vote list by one record adds that record's weight.
pub proof fn lemma_sum_local_step(votes: Seq<VoteModel>, prop_id: u64, option: Seq<char>, i: int)
    requires
        0 <= i < votes.len(),
    ensures
        sum_local(votes.subrange(0, i + 1), prop_id, option) == sum_local(
            votes.subrange(0, i),
            prop_id,
            option,
        ) + vote_weight(votes[i], prop_id, option),
{
    assert(votes.subrange(0, i + 1).drop_last() =~= votes.subrange(0, i));
    assert(votes.subrange(0, i + 1).last() == votes[i]);
}

/// Prefix sums of the (nonnegative) local weights are monotone.
pub proof fn lemma_sum_local_prefix_le(
    votes: Seq<VoteModel>,
    prop_id: u64,
    option: Seq<char>,
    i: int,
    j: int,
)
    requires
        0 <= i <= j <= votes.len(),
    ensures
        sum_local(votes.subrange(0, i), prop_id, option) <= sum_local(
            votes.subrange(0, j),
            prop_id,
            option,
        ),
    decreases j - i,
{
    if i < j {
        lemma_sum_local_prefix_le(votes, prop_id, option, i, j - 1);
        lemma_sum_local_step(votes, prop_id, option, j - 1);
    }
}

pub proof fn lemma_sum_power_step(votes: Seq<VoteModel>, prop_id: u64, i: int)
    requires
        0 <= i < votes.len(),
    ensures
        sum_power(votes.subrange(0, i + 1), prop_id) == sum_power(votes.subrange(0, i), prop_id)
            + if votes[i].prop_id == prop_id {
            votes[i].power as int
        } else {
            0
        },
{
    assert(votes.subrange(0, i + 1).drop_last() =~= votes.subrange(0, i));
    assert(votes.subrange(0, i + 1).last() == votes[i]);
}

pub proof fn lemma_sum_power_prefix_le(votes: Seq<VoteModel>, prop_id: u64, i: int, j: int)
    requires
        0 <= i <= j <= votes.len(),
    ensures
        sum_power(votes.subrange(0, i), prop_id) <= sum_power(votes.subrange(0, j), prop_id),
    decreases j - i,
{
    if i < j {
        lemma_sum_power_prefix_le(votes, prop_id, i, j - 1);
        lemma_sum_power_step(votes, prop_id, j - 1);
    }
}

pub proof fn lemma_tally_of_nonneg(entries: Seq<TallyEntryModel>, option: Seq<char>)
    ensures
        tally_of(entries, option) >= 0,
    decreases entries.len(),
{
    if entries.len() > 0 && entries[0].option != option {
        lemma_tally_of_nonneg(entries.drop_first(), option);
    }
}

pub proof fn lemma_remote_tally_nonneg(m: StateModel, prereq: u64, option: Seq<char>)
    ensures
        remote_tally(m, prereq, option) >= 0,
{
    if prereq < m.remote_proposal_tallies.len() {
        lemma_tally_of_nonneg(m.remote_proposal_tallies[prereq as int], option);
    }
}

pub proof fn lemma_sum_remote_nonneg(m: StateModel, prereqs: Seq<u64>, option: Seq<char>)
    ensures
        sum_remote(m, prereqs, option) >= 0,
    decreases prereqs.len(),
{
    if prereqs.len() > 0 {
        lemma_sum_remote_nonneg(m, prereqs.drop_last(), option);
        lemma_remote_tally_nonneg(m, prereqs.last(), option);
    }
}

pub proof fn lemma_sum_remote_step(m: StateModel, prereqs: Seq<u64>, option: Seq<char>, i: int)
    requires
        0 <= i < prereqs.len(),
    ensures
        sum_remote(m, prereqs.subrange(0, i + 1), option) == sum_remote(
            m,
            prereqs.subrange(0, i),
            option,
        ) + remote_tally(m, prereqs[i], option),
{
    assert(prereqs.subrange(0, i + 1).drop_last() =~= prereqs.subrange(0, i));
    assert(prereqs.subrange(0, i + 1).last() == prereqs[i]);
}

pub proof fn lemma_sum_remote_prefix_le(
    m: StateModel,
    prereqs: Seq<u64>,
    option: Seq<char>,
    i: int,
    j: int,
)
    requires
        0 <= i <= j <= prereqs.len(),
    ensures
        sum_remote(m, prereqs.subrange(0, i), option) <= sum_remote(
            m,
            prereqs.subrange(0, j),
            option,
        ),
    decreases j - i,
{
    if i < j {
        lemma_sum_remote_prefix_le(m, prereqs, option, i, j - 1);
        lemma_sum_remote_step(m, prereqs, option, j - 1);
        lemma_remote_tally_nonneg(m, prereqs[j - 1], option);
    }
}

/// The ghost content of an executable tally-entry list.
pub open spec fn entries_model(entries: Vec<TallyEntry>) -> Seq<TallyEntryModel> {
    entries@.map_values(|e: TallyEntry| e@)
}

/// Whether some entry in `entries` is keyed by `option`.
pub open spec fn has_tally_key(entries: Seq<TallyEntryModel>, option: Seq<char>) -> bool {
    exists|a: int| 0 <= a < entries.len() && (#[trigger] entries[a]).option == option
}

/// The value of the last entry for `option` in a delivered tally list, if
/// any (later duplicates overwrite earlier ones, as repeated stores would).
pub open spec fn tally_value(t: Seq<(Seq<char>, u64)>, option: Seq<char>) -> Option<u64>
    decreases t.len(),
{
    if t.len() == 0 {
        None
    } else if t.last().0 == option {
        Some(t.last().1)
    } else {
        tally_value(t.drop_last(), option)
    }
}

pub proof fn lemma_tally_value_step(t: Seq<(Seq<char>, u64)>, option: Seq<char>, j: int)
    requires
        0 <= j < t.len(),
    ensures
        tally_value(t.subrange(0, j + 1), option) == (if t[j].0 == option {
            Some(t[j].1)
        } else {
            tally_value(t.subrange(0, j), option)
        }),
{
    assert(t.subrange(0, j + 1).drop_last() =~= t.subrange(0, j));
    assert(t.subrange(0, j + 1).last() == t[j]);
}

/// An absent key reads as 0.
pub proof fn lemma_tally_of_no_key(entries: Seq<TallyEntryModel>, option: Seq<char>)
    requires
        !has_tally_key(entries, option),
    ensures
        tally_of(entries, option) == 0,
    decreases entries.len(),
{
    if entries.len() > 0 {
        assert(entries[0].option != option);
        assert forall|a: int|
            0 <= a < entries.drop_first().len() implies (#[trigger] entries.drop_first()[a]).option
            != option by {
            assert(entries[a + 1].option != option);
        }
        lemma_tally_of_no_key(entries.drop_first(), option);
    }
}

/// What appending one entry does to each key's reading.
pub proof fn lemma_tally_of_push(entries: Seq<TallyEntryModel>, x: TallyEntryModel, option: Seq<char>)
    ensures
        tally_of(entries.push(x), option) == (if has_tally_key(entries, option) {
            tally_of(entries, option)
        } else if x.option == option {
            x.votes as int
        } else {
            0
        }),
    decreases entries.len(),
{
    let pushed = entries.push(x);
    if entries.len() == 0 {
        assert(pushed[0] == x);
        if x.option != option {
            assert(pushed.drop_first() =~= Seq::<TallyEntryModel>::empty());
            assert(tally_of(Seq::<TallyEntryModel>::empty(), option) == 0);
            assert(tally_of(pushed, option) == 0);
        } else {
            assert(tally_of(pushed, option) == x.votes as int);
        }
        assert(!has_tally_key(entries, option));
    } else {
        assert(pushed[0] == entries[0]);
        if entries[0].option == option {
            assert(has_tally_key(entries, option));
        } else {
            assert(pushed.drop_first() =~= entries.drop_first().push(x));
            lemma_tally_of_push(entries.drop_first(), x, option);
            if has_tally_key(entries.drop_first(), option) {
                let rest = entries.drop_first();
                let a = choose|a: int|
                    0 <= a < rest.len() && (#[trigger] rest[a]).option == option;
                assert(entries[a + 1].option == option);
                assert(has_tally_key(entries, option));
            } else {
                assert forall|a: int|
                    0 <= a < entries.len() implies (#[trigger] entries[a]).option != option by {
                    if a > 0 {
                        assert(entries.drop_first()[a - 1].option != option);
                    }
                }
                assert(!has_tally_key(entries, option));
            }
        }
    }
}

/// What overwriting the (unique) entry at `idx` does to each key's reading.
pub proof fn lemma_tally_of_update(
    entries: Seq<TallyEntryModel>,
    idx: int,
    new: TallyEntryModel,
    option: Seq<char>,
)
    requires
        crate::state::tally_keys_unique(entries),
        0 <= idx < entries.len(),
        entries[idx].option == new.option,
    ensures
        tally_of(entries.update(idx, new), option) == (if option == new.option {
            new.votes as int
        } else {
            tally_of(entries, option)
        }),
    decreases idx,
{
    let updated = entries.update(idx, new);
    if idx == 0 {
        assert(updated[0] == new);
        if option != new.option {
            assert(updated.drop_first() =~= entries.drop_first());
            assert(entries[0].option == new.option);
        }
    } else {
        assert(updated[0] == entries[0]);
        assert(entries[0].option != entries[idx].option);
        assert(updated.drop_first() =~= entries.drop_first().update(idx - 1, new));
        let rest = entries.drop_first();
        assert forall|a: int, b: int|
            0 <= a < b < rest.len() implies (#[trigger] rest[a]).option != (#[trigger] rest[
                b
            ]).option by {
            assert(entries[a + 1].option != entries[b + 1].option);
        }
        assert(entries.drop_first()[idx - 1].option == new.option);
        lemma_tally_of_update(entries.drop_first(), idx - 1, new, option);
        if option == new.option {
            assert(updated[0].option != option);
        }
    }
}

/// Look an option up in one prerequisite's recorded tally; 0 when absent.
fn lookup_tally(entries: &Vec<TallyEntry>, option: &String) -> (r: u64)
    ensures
        r as int == tally_of(entries@.map_values(|e: TallyEntry| e@), option@),
{
    let ghost m = entries@.map_values(|e: TallyEntry| e@);
    let n = entries.len();
    let mut i: usize = 0;
    assert(m.subrange(0, m.len() as int) =~= m);
    while i < n
        invariant
            0 <= i <= n,
            n == entries.len(),
            m == entries@.map_values(|e: TallyEntry| e@),
            tally_of(m, option@) == tally_of(m.subrange(i as int, m.len() as int), option@),
        decreases n - i,
    {
        if entries[i].option == *option {
            assert(m.subrange(i as int, m.len() as int)[0] == m[i as int]);
            return entries[i].votes;
        }
        assert(m.subrange(i as int, m.len() as int).drop_first() =~= m.subrange(
            i + 1,
            m.len() as int,
        ));
        i = i + 1;
    }
    assert(m.subrange(i as int, m.len() as int).len() == 0);
    0
}

/// Power-weighted sum of the local votes for `option` on `prop_id`.
fn local_tally_for(votes: &Vec<Vote>, prop_id: u64, option: &String) -> (r: u64)
    requires
        sum_local(votes@.map_values(|v: Vote| v@), prop_id, option@) <= u64::MAX,
    ensures
        r as int == sum_local(votes@.map_values(|v: Vote| v@), prop_id, option@),
{
    let ghost m = votes@.map_values(|v: Vote| v@);
    let n = votes.len();
    let mut acc: u64 = 0;
    let mut i: usize = 0;
    while i < n
        invariant
            0 <= i <= n,
            n == votes.len(),
            m == votes@.map_values(|v: Vote| v@),
            sum_local(m, prop_id, option@) <= u64::MAX,
            acc as int == sum_local(m.subrange(0, i as int), prop_id, option@),
        decreases n - i,
    {
        proof {
            lemma_sum_local_step(m, prop_id, option@, i as int);
            lemma_sum_local_prefix_le(m, prop_id, option@, i + 1, m.len() as int);
            assert(m.subrange(0, m.len() as int) =~= m);
        }
        if votes[i].prop_id == prop_id && votes[i].option == *option {
            assert(vote_weight(m[i as int], prop_id, option@) == m[i as int].power as int);
            acc = acc + votes[i].power;
        } else {
            assert(vote_weight(m[i as int], prop_id, option@) == 0);
        }
        i = i + 1;
    }
    proof {
        assert(m.subrange(0, m.len() as int) =~= m);
    }
    acc
}

/// The combined total for one declared option of an existing proposal.
pub(crate) fn option_total(s: &GovState, prop_id: u64, option: &String) -> (r: u64)
    requires
        s@.wf(),
        s@.has_proposal(prop_id),
        total_for(s@, prop_id, option@) <= u64::MAX,
    ensures
        r as int == total_for(s@, prop_id, option@),
{
    let ghost m = s@;
    proof {
        lemma_sum_remote_nonneg(m, m.proposal(prop_id).prereq_proposals, option@);
        lemma_sum_local_nonneg(m.votes, prop_id, option@);
    }
    let local = local_tally_for(&s.votes, prop_id, option);
    let nprops: usize = s.proposals.len();
    assert(prop_id < nprops);
    let prop = &s.proposals[prop_id as usize];
    assert(prop@ == m.proposal(prop_id));
    let ghost prereqs = m.proposal(prop_id).prereq_proposals;
    let n = prop.prereq_proposals.len();
    let mut acc: u64 = local;
    let mut k: usize = 0;
    assert(prereqs.subrange(0, 0) =~= Seq::<u64>::empty());
    while k < n
        invariant
            0 <= k <= n,
            m == s@,
            s@.wf(),
            s@.has_proposal(prop_id),
            prop@ == m.proposal(prop_id),
            prereqs == m.proposal(prop_id).prereq_proposals,
            n == prop.prereq_proposals.len(),
            total_for(m, prop_id, option@) <= u64::MAX,
            acc as int == sum_local(m.votes, prop_id, option@) + sum_remote(
                m,
                prereqs.subrange(0, k as int),
                option@,
            ),
        decreases n - k,
    {
        let prereq = prop.prereq_proposals[k];
        assert(prereq == prereqs[k as int]);
        assert(m.proposal_wf(prop_id as int));
        assert(prereq < s.remote_proposal_tallies.len());
        let t = lookup_tally(&s.remote_proposal_tallies[prereq as usize], option);
        proof {
            assert(s.remote_proposal_tallies@[prereq as int]@.map_values(|e: TallyEntry| e@)
                == m.remote_proposal_tallies[prereq as int]);
            assert(t as int == remote_tally(m, prereq, option@));
            lemma_sum_remote_step(m, prereqs, option@, k as int);
            lemma_sum_remote_prefix_le(m, prereqs, option@, k + 1, prereqs.len() as int);
            assert(prereqs.subrange(0, prereqs.len() as int) =~= prereqs);
            lemma_sum_local_nonneg(m.votes, prop_id, option@);
        }
        acc = acc + t;
        k = k + 1;
    }
    proof {
        assert(prereqs.subrange(0, prereqs.len() as int) =~= prereqs);
    }
    acc
}

/// Compute the proposal's tally: one `(option, total)` pair per declared
/// option, in declared order. Fails only when the proposal does not exist.
pub fn query_tally(s: &GovState, prop_id: u64) -> (r: Result<Vec<(String, u64)>, ContractError>)
    requires
        s@.wf(),
        tally_fits(s@, prop_id),
    ensures
        !s@.has_proposal(prop_id) ==> r == Err::<Vec<(String, u64)>, ContractError>(
            ContractError::Std {},
        ),
        s@.has_proposal(prop_id) ==> (r matches Ok(t) && is_tally_for(
            s@,
            prop_id,
            tally_model(t@),
        )),
{
    let ghost m = s@;
    if prop_id >= s.next_prop_id {
        assert(s.next_prop_id == s.proposals.len());
        return Err(ContractError::Std {});
    }
    assert(m.has_proposal(prop_id));
    let nprops: usize = s.proposals.len();
    assert(prop_id < nprops);
    let pidx: usize = prop_id as usize;
    let n_options = s.proposals[pidx].options.len();
    assert(n_options == m.proposal(prop_id).options.len());
    let mut out: Vec<(String, u64)> = Vec::new();
    let mut i: usize = 0;
    while i < n_options
        invariant
            0 <= i <= n_options,
            m == s@,
            s@.wf(),
            s@.has_proposal(prop_id),
            tally_fits(s@, prop_id),
            pidx as int == prop_id as int,
            pidx < s.proposals@.len(),
            n_options == m.proposal(prop_id).options.len(),
            n_options == s.proposals@[pidx as int].options@.len(),
            tally_model(out@).len() == i,
            forall|j: int|
                0 <= j < i ==> (#[trigger] tally_model(out@)[j]).0 == m.proposal(
                    prop_id,
                ).options[j] && tally_model(out@)[j].1 as int == total_for(
                    m,
                    prop_id,
                    m.proposal(prop_id).options[j],
                ),
        decreases n_options - i,
    {
        let option = s.proposals[pidx].options[i].clone();
        assert(option@ == m.proposal(prop_id).options[i as int]);
        assert(total_for(m, prop_id, option@) <= u64::MAX);
        let total = option_total(s, prop_id, &option);
        let ghost prev = out@;
        out.push((option, total));
        proof {
            assert(tally_model(out@) =~= tally_model(prev).push(
                (m.proposal(prop_id).options[i as int], total),
            ));
        }
        i = i + 1;
    }
    Ok(out)
}

/// Sum of the powers of all recorded votes on `prop_id` (its total voted
/// power, across all options).
pub fn get_total_voted_power(s: &GovState, prop_id: u64) -> (r: u64)
    requires
        sum_power(s@.votes, prop_id) <= u64::MAX,
    ensures
        r as int == sum_power(s@.votes, prop_id),
{
    let ghost m = s@.votes;
    let n = s.votes.len();
    let mut acc: u64 = 0;
    let mut i: usize = 0;
    while i < n
        invariant
            0 <= i <= n,
            n == s.votes.len(),
            m == s@.votes,
            m == s.votes@.map_values(|v: Vote| v@),
            sum_power(m, prop_id) <= u64::MAX,
            acc as int == sum_power(m.subrange(0, i as int), prop_id),
        decreases n - i,
    {
        proof {
            lemma_sum_power_step(m, prop_id, i as int);
            lemma_sum_power_prefix_le(m, prop_id, i + 1, m.len() as int);
            assert(m.subrange(0, m.len() as int) =~= m);
        }
        if s.votes[i].prop_id == prop_id {
            acc = acc + s.votes[i].power;
        }
        i = i + 1;
    }
    proof {
        assert(m.subrange(0, m.len() as int) =~= m);
    }
    acc
}

/// Index of the first option reaching the maximum total: a running maximum
/// with strict `>`, so ties keep the earlier option.
pub(crate) fn winner_of(totals: &Vec<u64>) -> (w: usize)
    requires
        totals.len() >= 1,
    ensures
        is_first_max(totals@.map_values(|x: u64| x as int), w as int),
{
    let ghost m = totals@.map_values(|x: u64| x as int);
    let n = totals.len();
    let mut max_votes: u64 = 0;
    let mut max_index: usize = 0;
    let mut i: usize = 0;
    while i < n
        invariant
            0 <= i <= n,
            n == totals.len(),
            m == totals@.map_values(|x: u64| x as int),
            max_index < n,
            forall|j: int| 0 <= j < i ==> #[trigger] m[j] <= max_votes as int,
            forall|j: int| 0 <= j < max_index ==> #[trigger] m[j] < max_votes as int,
            max_votes as int == m[max_index as int] || (max_votes == 0 && max_index == 0),
        decreases n - i,
    {
        if totals[i] > max_votes {
            max_votes = totals[i];
            max_index = i;
        }
        i = i + 1;
    }
    assert(m[max_index as int] == max_votes as int || (max_votes == 0 && max_index == 0));
    if max_votes == 0 && max_index == 0 {
        assert(m[0] <= 0);
        assert(m[0] >= 0);
    }
    max_index
}

} // verus!
