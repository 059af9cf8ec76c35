//! End-to-end lifecycle tests: a single-chain proposal driven through
//! voting and execution with the fixed power oracle, and a two-chain
//! dependency resolved through the query/callback protocol.

use ccgov::contract::{
    check_vote, create_proposal, execute_proposal, module_ibc_handler, query_handler,
    query_tally_callback, vote, ExecuteOutcome,
};
use ccgov::fixed_power;
use ccgov::msg::{
    CCGovIbcMessage, CCGovQueryMsg, CCGovQueryResponse, CallbackResult, RemoteProposalMsg,
};
use ccgov::state::GovState;
use ccgov::tally::query_tally;

#[test]
fn fixed_power_test() {
    let mut state = GovState::new();
    let fixed_power_addr = "fixed-power".to_string();
    let sender = "mock-sender".to_string();
    let t0: u64 = 1_000;

    // the fixed power oracle grants every voter power 1
    let fixed_power_response = fixed_power::query(&fixed_power::GetVotingPowerMsg {
        voter: "voter".to_string(),
    });
    assert_eq!(fixed_power_response, fixed_power::GetVotingPowerResponse { power: 1 });

    let prop_id = create_proposal(
        &mut state,
        t0,
        "test".to_string(),
        "cosmwasm is awesome".to_string(),
        fixed_power_addr.clone(),
        vec!["approve".to_string(), "reject".to_string()],
        vec![], // no prerequisites
    );
    assert_eq!(prop_id, 0);

    // the proposal was created correctly
    match query_handler(&state, &CCGovQueryMsg::QueryProposal { prop_id: 0 }).unwrap() {
        CCGovQueryResponse::Proposal(resp) => {
            assert_eq!(resp.prop.id, 0);
            assert_eq!(resp.prop.title, "test");
            assert_eq!(resp.prop.description, "cosmwasm is awesome");
            assert_eq!(
                resp.prop.options,
                vec!["approve".to_string(), "reject".to_string()]
            );
            assert_eq!(resp.prop.power_contract, fixed_power_addr);
        }
        other => panic!("unexpected response: {:?}", other),
    }

    // vote: validate, consult the proposal's oracle, then record
    let power_contract = check_vote(&state, t0, 0, &sender, &"approve".to_string()).unwrap();
    assert_eq!(power_contract, fixed_power_addr);
    let power = fixed_power::query(&fixed_power::GetVotingPowerMsg { voter: sender.clone() })
        .power;
    let vote_response = vote(&mut state, t0, 0, sender.clone(), "approve".to_string(), power);
    assert!(vote_response.is_ok(), "{:?}", vote_response);
    assert_eq!(vote_response.unwrap(), 0);

    // the vote was recorded correctly
    match query_handler(
        &state,
        &CCGovQueryMsg::QueryVote { prop_id: 0, voter: sender.clone() },
    )
    .unwrap()
    {
        CCGovQueryResponse::Vote(resp) => {
            assert_eq!(resp.vote.id, 0);
            assert_eq!(resp.vote.prop_id, 0);
            assert_eq!(resp.vote.voter, sender);
            assert_eq!(resp.vote.power, 1);
            assert_eq!(resp.vote.option, "approve");
        }
        other => panic!("unexpected response: {:?}", other),
    }

    // the total voted power is 1
    match query_handler(&state, &CCGovQueryMsg::QueryTotalVotedPower { prop_id: 0 }).unwrap() {
        CCGovQueryResponse::TotalVotedPower(resp) => assert_eq!(resp.power, 1),
        other => panic!("unexpected response: {:?}", other),
    }

    // executing before the voting period has ended fails
    let execute_proposal_response = execute_proposal(&mut state, t0, 0);
    assert!(execute_proposal_response.is_err());

    // one minute later the proposal executes
    let execute_proposal_response2 = execute_proposal(&mut state, t0 + 60, 0);
    assert!(
        execute_proposal_response2.is_ok(),
        "{:?}",
        execute_proposal_response2
    );

    // the proposal is in the executed proposals
    match query_handler(&state, &CCGovQueryMsg::QueryExecutedProposals {}).unwrap() {
        CCGovQueryResponse::ExecutedProposals(resp) => {
            assert_eq!(resp.executed_proposals, vec![(0, "approve".to_string())]);
        }
        other => panic!("unexpected response: {:?}", other),
    }
}

#[test]
fn multi_chain_test() {
    // two independent chains, each with its own governance state
    let mut a = GovState::new();
    let mut b = GovState::new();
    let sender = "sender_for_all_chains".to_string();
    let a_fixed_power_addr = "fixed-power".to_string();
    let b_fixed_power_addr = "fixed-power".to_string();
    let a_contract_addr = "ccgov-on-harpoon".to_string();
    let t0: u64 = 0;

    // create a proposal on chain A
    let create_prop_response = create_proposal(
        &mut a,
        t0,
        "test".to_string(),
        "cosmwasm is awesome".to_string(),
        a_fixed_power_addr,
        vec!["approve".to_string(), "reject".to_string()],
        vec![], // no prerequisites
    );
    assert_eq!(create_prop_response, 0);

    // create a proposal on chain B which references chain A's proposal
    let create_prop_response = create_proposal(
        &mut b,
        t0,
        "test".to_string(),
        "cosmwasm is awesome".to_string(),
        b_fixed_power_addr,
        vec!["approve".to_string(), "reject".to_string()],
        vec![(0, "harpoon".to_string(), a_contract_addr.clone())],
    );
    assert_eq!(create_prop_response, 0);

    // vote on chain A (the fixed power oracle reports power 1)
    let vote_response = vote(&mut a, t0, 0, sender.clone(), "approve".to_string(), 1);
    assert!(vote_response.is_ok(), "{:?}", vote_response);

    // vote on chain B
    let vote_response = vote(&mut b, t0, 0, sender.clone(), "reject".to_string(), 1);
    assert!(vote_response.is_ok(), "{:?}", vote_response);

    // a minute passes on both chains
    let t1 = t0 + 60;

    // executing on chain B does not execute: the prerequisite on chain A is
    // unresolved, and a tally query is dispatched instead
    let execute_proposal_response = execute_proposal(&mut b, t1, 0).unwrap();
    let queries = match execute_proposal_response {
        ExecuteOutcome::RemoteUnresolved { queries } => queries,
        other => panic!("expected an unresolved outcome: {:?}", other),
    };
    assert_eq!(queries.len(), 1);
    assert_eq!(queries[0].prereq_id, 0);
    assert_eq!(queries[0].remote_prop_id, 0);
    assert_eq!(queries[0].remote_chain_id, "harpoon");
    assert_eq!(queries[0].remote_contract_addr, a_contract_addr);

    // chain A's proposal executes
    let execute_proposal_response = execute_proposal(&mut a, t1, 0).unwrap();
    assert!(matches!(
        execute_proposal_response,
        ExecuteOutcome::Executed { .. }
    ));

    // chain A answers the dispatched query; the callback reaches chain B
    let tally_response = module_ibc_handler(
        &a,
        &"ccgov-ns".to_string(),
        &CCGovIbcMessage::QueryTally { prop_id: queries[0].remote_prop_id },
    )
    .unwrap();
    let correlation = RemoteProposalMsg {
        prop_id: queries[0].prereq_id,
        remote_chain_id: queries[0].remote_chain_id.clone(),
        remote_contract_addr: queries[0].remote_contract_addr.clone(),
    };
    query_tally_callback(
        &mut b,
        &correlation,
        CallbackResult::Query { tally: tally_response.tally },
    )
    .unwrap();

    // now chain B's proposal executes
    let execute_proposal_response = execute_proposal(&mut b, t1, 0).unwrap();
    assert!(matches!(
        execute_proposal_response,
        ExecuteOutcome::Executed { .. }
    ));

    // chain B's tally includes chain A's counts: one local "reject" plus
    // chain A's one "approve"
    let mut query_tally_response = query_tally(&b, 0).unwrap();
    query_tally_response.sort();
    let mut expected_tally = vec![("reject".to_string(), 1), ("approve".to_string(), 1)];
    expected_tally.sort();
    assert_eq!(query_tally_response, expected_tally);
}
