//! Property and error-path tests: each validation error on an input that
//! provokes it, the closed deadline boundary, the first-listed tie-break,
//! exact tally arithmetic, idempotent re-execution, and the callback
//! protocol's error handling.

use ccgov::contract::{
    create_proposal, execute_proposal, module_ibc_handler, query_handler, query_tally_callback,
    vote, ExecuteOutcome,
};
use ccgov::error::ContractError;
use ccgov::msg::{
    CCGovIbcMessage, CCGovQueryMsg, CCGovQueryResponse, CallbackResult, RemoteProposalMsg,
};
use ccgov::state::GovState;
use ccgov::tally::{get_total_voted_power, query_tally};

fn local_proposal(state: &mut GovState, t0: u64, options: Vec<&str>) -> u64 {
    create_proposal(
        state,
        t0,
        "test".to_string(),
        "cosmwasm is awesome".to_string(),
        "fixed-power".to_string(),
        options.iter().map(|o| o.to_string()).collect(),
        vec![],
    )
}

#[test]
fn vote_on_missing_proposal_fails() {
    let mut state = GovState::new();
    let r = vote(&mut state, 0, 7, "alice".to_string(), "approve".to_string(), 1);
    assert_eq!(r, Err(ContractError::Std {}));
}

#[test]
fn vote_after_deadline_fails() {
    let mut state = GovState::new();
    let prop_id = local_proposal(&mut state, 100, vec!["approve", "reject"]);
    // the voting period is one minute; one second past the deadline fails
    let r = vote(&mut state, 161, prop_id, "alice".to_string(), "approve".to_string(), 1);
    assert_eq!(r, Err(ContractError::VotingPeriodHasEnded {}));
}

#[test]
fn vote_at_deadline_is_accepted() {
    let mut state = GovState::new();
    let prop_id = local_proposal(&mut state, 100, vec!["approve", "reject"]);
    // the window is closed on the right: a vote at exactly the deadline lands
    let r = vote(&mut state, 160, prop_id, "alice".to_string(), "approve".to_string(), 1);
    assert_eq!(r, Ok(0));
}

#[test]
fn vote_invalid_option_fails() {
    let mut state = GovState::new();
    let prop_id = local_proposal(&mut state, 0, vec!["approve", "reject"]);
    let r = vote(&mut state, 0, prop_id, "alice".to_string(), "abstain".to_string(), 1);
    assert_eq!(r, Err(ContractError::InvalidOption {}));
    // still invalid whatever votes are already recorded
    vote(&mut state, 0, prop_id, "bob".to_string(), "approve".to_string(), 1).unwrap();
    let r = vote(&mut state, 0, prop_id, "carol".to_string(), "abstain".to_string(), 1);
    assert_eq!(r, Err(ContractError::InvalidOption {}));
}

#[test]
fn second_vote_fails_with_already_voted() {
    let mut state = GovState::new();
    let prop_id = local_proposal(&mut state, 0, vec!["approve", "reject"]);
    assert_eq!(vote(&mut state, 0, prop_id, "alice".to_string(), "approve".to_string(), 1), Ok(0));
    // a repeat by the same voter fails, even with a different option or power
    let r = vote(&mut state, 0, prop_id, "alice".to_string(), "reject".to_string(), 9);
    assert_eq!(r, Err(ContractError::AlreadyVoted {}));
    // and the recorded vote is unchanged
    match query_handler(
        &state,
        &CCGovQueryMsg::QueryVote { prop_id, voter: "alice".to_string() },
    )
    .unwrap()
    {
        CCGovQueryResponse::Vote(resp) => {
            assert_eq!(resp.vote.option, "approve");
            assert_eq!(resp.vote.power, 1);
        }
        other => panic!("unexpected response: {:?}", other),
    }
}

#[test]
fn execute_before_deadline_fails() {
    let mut state = GovState::new();
    let prop_id = local_proposal(&mut state, 100, vec!["approve", "reject"]);
    // one second before the deadline execution is refused
    let r = execute_proposal(&mut state, 159, prop_id);
    assert_eq!(r, Err(ContractError::VotingPeriodNotEnded {}));
    // at exactly the deadline it is allowed
    let r = execute_proposal(&mut state, 160, prop_id);
    assert!(r.is_ok(), "{:?}", r);
}

#[test]
fn execute_missing_proposal_fails() {
    let mut state = GovState::new();
    assert_eq!(execute_proposal(&mut state, 0, 3), Err(ContractError::Std {}));
}

#[test]
fn tie_break_prefers_first_listed_option() {
    let mut state = GovState::new();
    let prop_id = local_proposal(&mut state, 0, vec!["A", "B"]);
    vote(&mut state, 0, prop_id, "alice".to_string(), "A".to_string(), 1).unwrap();
    vote(&mut state, 0, prop_id, "bob".to_string(), "B".to_string(), 1).unwrap();
    match execute_proposal(&mut state, 60, prop_id).unwrap() {
        ExecuteOutcome::Executed { chosen_option } => assert_eq!(chosen_option, "A"),
        other => panic!("expected execution: {:?}", other),
    }
}

#[test]
fn winner_needs_strictly_more_weight_to_overtake() {
    let mut state = GovState::new();
    let prop_id = local_proposal(&mut state, 0, vec!["A", "B"]);
    vote(&mut state, 0, prop_id, "alice".to_string(), "A".to_string(), 2).unwrap();
    vote(&mut state, 0, prop_id, "bob".to_string(), "B".to_string(), 3).unwrap();
    match execute_proposal(&mut state, 60, prop_id).unwrap() {
        ExecuteOutcome::Executed { chosen_option } => assert_eq!(chosen_option, "B"),
        other => panic!("expected execution: {:?}", other),
    }
}

#[test]
fn tally_groups_power_by_option() {
    let mut state = GovState::new();
    let prop_id = local_proposal(&mut state, 0, vec!["A", "B"]);
    vote(&mut state, 0, prop_id, "alice".to_string(), "A".to_string(), 3).unwrap();
    vote(&mut state, 0, prop_id, "bob".to_string(), "B".to_string(), 5).unwrap();
    vote(&mut state, 0, prop_id, "carol".to_string(), "A".to_string(), 7).unwrap();
    let tally = query_tally(&state, prop_id).unwrap();
    assert_eq!(tally, vec![("A".to_string(), 10), ("B".to_string(), 5)]);
    assert_eq!(get_total_voted_power(&state, prop_id), 15);
    // an unrelated proposal has no voted power
    assert_eq!(get_total_voted_power(&state, prop_id + 1), 0);
}

#[test]
fn executed_log_gains_exactly_one_entry() {
    let mut state = GovState::new();
    let prop_id = local_proposal(&mut state, 0, vec!["approve", "reject"]);
    vote(&mut state, 0, prop_id, "alice".to_string(), "approve".to_string(), 1).unwrap();
    let first = execute_proposal(&mut state, 60, prop_id).unwrap();
    // a repeated call reports the stored result and appends nothing
    let second = execute_proposal(&mut state, 61, prop_id).unwrap();
    assert_eq!(first, second);
    match query_handler(&state, &CCGovQueryMsg::QueryExecutedProposals {}).unwrap() {
        CCGovQueryResponse::ExecutedProposals(resp) => {
            assert_eq!(resp.executed_proposals, vec![(0, "approve".to_string())]);
        }
        other => panic!("unexpected response: {:?}", other),
    }
}

fn dependent_proposal(state: &mut GovState) -> u64 {
    create_proposal(
        state,
        0,
        "test".to_string(),
        "cosmwasm is awesome".to_string(),
        "fixed-power".to_string(),
        vec!["approve".to_string(), "reject".to_string()],
        vec![(0, "harpoon".to_string(), "remote-ccgov".to_string())],
    )
}

#[test]
fn unresolved_execute_repeats_without_effect() {
    let mut state = GovState::new();
    let prop_id = dependent_proposal(&mut state);
    for attempt in 0..3 {
        match execute_proposal(&mut state, 60 + attempt, prop_id).unwrap() {
            ExecuteOutcome::RemoteUnresolved { queries } => {
                assert_eq!(queries.len(), 1);
                assert_eq!(queries[0].prereq_id, 0);
            }
            other => panic!("expected an unresolved outcome: {:?}", other),
        }
    }
    // the executed log never gained an entry
    match query_handler(&state, &CCGovQueryMsg::QueryExecutedProposals {}).unwrap() {
        CCGovQueryResponse::ExecutedProposals(resp) => {
            assert_eq!(resp.executed_proposals, vec![]);
        }
        other => panic!("unexpected response: {:?}", other),
    }
}

#[test]
fn fatal_callback_leaves_prerequisite_unresolved() {
    let mut state = GovState::new();
    let prop_id = dependent_proposal(&mut state);
    let correlation = RemoteProposalMsg {
        prop_id: 0,
        remote_chain_id: "harpoon".to_string(),
        remote_contract_addr: "remote-ccgov".to_string(),
    };
    // a fatal delivery result is a protocol error and resolves nothing
    let r = query_tally_callback(&mut state, &correlation, CallbackResult::FatalError {});
    assert_eq!(r, Err(ContractError::IBCError {}));
    // a retry still finds the prerequisite unresolved and re-issues its query
    match execute_proposal(&mut state, 60, prop_id).unwrap() {
        ExecuteOutcome::RemoteUnresolved { queries } => {
            assert_eq!(queries.len(), 1);
            assert_eq!(queries[0].prereq_id, 0);
        }
        other => panic!("expected an unresolved outcome: {:?}", other),
    }
}

#[test]
fn execute_typed_callback_is_unauthorized() {
    let mut state = GovState::new();
    dependent_proposal(&mut state);
    let correlation = RemoteProposalMsg {
        prop_id: 0,
        remote_chain_id: "harpoon".to_string(),
        remote_contract_addr: "remote-ccgov".to_string(),
    };
    let r = query_tally_callback(&mut state, &correlation, CallbackResult::Execute {});
    assert_eq!(r, Err(ContractError::UnauthorizedIbcMessage {}));
}

#[test]
fn callback_with_unknown_correlation_fails() {
    let mut state = GovState::new();
    let correlation = RemoteProposalMsg {
        prop_id: 5,
        remote_chain_id: "harpoon".to_string(),
        remote_contract_addr: "remote-ccgov".to_string(),
    };
    let r = query_tally_callback(
        &mut state,
        &correlation,
        CallbackResult::Query { tally: vec![("approve".to_string(), 1)] },
    );
    assert_eq!(r, Err(ContractError::IBCError {}));
}

#[test]
fn callback_upsert_keeps_last_value() {
    let mut state = GovState::new();
    let prop_id = dependent_proposal(&mut state);
    let correlation = RemoteProposalMsg {
        prop_id: 0,
        remote_chain_id: "harpoon".to_string(),
        remote_contract_addr: "remote-ccgov".to_string(),
    };
    // a first delivery records a tally; a repeated delivery overwrites it
    query_tally_callback(
        &mut state,
        &correlation,
        CallbackResult::Query {
            tally: vec![("approve".to_string(), 4), ("reject".to_string(), 2)],
        },
    )
    .unwrap();
    query_tally_callback(
        &mut state,
        &correlation,
        CallbackResult::Query {
            // a duplicated option within one delivery also keeps its last value
            tally: vec![("approve".to_string(), 9), ("approve".to_string(), 6)],
        },
    )
    .unwrap();
    let tally = query_tally(&state, prop_id).unwrap();
    assert_eq!(tally, vec![("approve".to_string(), 6), ("reject".to_string(), 2)]);
}

#[test]
fn remote_tallies_sum_across_prerequisites() {
    let mut state = GovState::new();
    let prop_id = create_proposal(
        &mut state,
        0,
        "test".to_string(),
        "cosmwasm is awesome".to_string(),
        "fixed-power".to_string(),
        vec!["approve".to_string(), "reject".to_string()],
        vec![
            (0, "harpoon".to_string(), "remote-ccgov".to_string()),
            (1, "harpoon".to_string(), "remote-ccgov".to_string()),
        ],
    );
    vote(&mut state, 0, prop_id, "alice".to_string(), "reject".to_string(), 1).unwrap();
    for (prereq, approve_votes) in [(0u64, 10u64), (1u64, 20u64)] {
        let correlation = RemoteProposalMsg {
            prop_id: prereq,
            remote_chain_id: "harpoon".to_string(),
            remote_contract_addr: "remote-ccgov".to_string(),
        };
        query_tally_callback(
            &mut state,
            &correlation,
            CallbackResult::Query { tally: vec![("approve".to_string(), approve_votes)] },
        )
        .unwrap();
    }
    // both prerequisites' tallies are summed in, plus the local vote
    let tally = query_tally(&state, prop_id).unwrap();
    assert_eq!(tally, vec![("approve".to_string(), 30), ("reject".to_string(), 1)]);
    match execute_proposal(&mut state, 60, prop_id).unwrap() {
        ExecuteOutcome::Executed { chosen_option } => assert_eq!(chosen_option, "approve"),
        other => panic!("expected execution: {:?}", other),
    }
}

#[test]
fn responder_rejects_foreign_namespace() {
    let mut state = GovState::new();
    let prop_id = local_proposal(&mut state, 0, vec!["approve", "reject"]);
    vote(&mut state, 0, prop_id, "alice".to_string(), "approve".to_string(), 1).unwrap();
    execute_proposal(&mut state, 60, prop_id).unwrap();
    let r = module_ibc_handler(
        &state,
        &"someone-else".to_string(),
        &CCGovIbcMessage::QueryTally { prop_id },
    );
    assert_eq!(r, Err(ContractError::Unauthorized {}));
}

#[test]
fn responder_requires_executed_proposal() {
    let mut state = GovState::new();
    let prop_id = local_proposal(&mut state, 0, vec!["approve", "reject"]);
    let r = module_ibc_handler(
        &state,
        &"ccgov-ns".to_string(),
        &CCGovIbcMessage::QueryTally { prop_id },
    );
    assert_eq!(r, Err(ContractError::ProposalNotExecuted {}));
    // a proposal id never created is likewise not executed
    let r = module_ibc_handler(
        &state,
        &"ccgov-ns".to_string(),
        &CCGovIbcMessage::QueryTally { prop_id: 9 },
    );
    assert_eq!(r, Err(ContractError::ProposalNotExecuted {}));
}

#[test]
fn responder_serves_executed_tally() {
    let mut state = GovState::new();
    let prop_id = local_proposal(&mut state, 0, vec!["approve", "reject"]);
    vote(&mut state, 0, prop_id, "alice".to_string(), "approve".to_string(), 1).unwrap();
    execute_proposal(&mut state, 60, prop_id).unwrap();
    let resp = module_ibc_handler(
        &state,
        &"ccgov-ns".to_string(),
        &CCGovIbcMessage::QueryTally { prop_id },
    )
    .unwrap();
    assert_eq!(
        resp.tally,
        vec![("approve".to_string(), 1), ("reject".to_string(), 0)]
    );
}

#[test]
fn queries_for_missing_records_fail() {
    let state = GovState::new();
    assert!(query_handler(&state, &CCGovQueryMsg::QueryProposal { prop_id: 0 }).is_err());
    assert!(query_handler(
        &state,
        &CCGovQueryMsg::QueryVote { prop_id: 0, voter: "alice".to_string() }
    )
    .is_err());
    assert!(query_handler(&state, &CCGovQueryMsg::QueryTally { prop_id: 0 }).is_err());
    assert!(query_tally(&state, 0).is_err());
}

#[test]
fn error_text_is_stable() {
    assert_eq!(ContractError::AlreadyVoted {}.as_text(), "already voted");
    assert_eq!(
        ContractError::VotingPeriodHasEnded {}.as_text(),
        "voting period has ended"
    );
}
