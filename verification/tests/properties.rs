use dao_governance::engine::GovernanceEngine;
use dao_governance::errors::Error;
use dao_governance::events::Event;
use dao_governance::proposal::ProposalStatus;

/// A fresh engine with funded accounts, so proposal bonds can be reserved.
fn funded_engine() -> GovernanceEngine {
    let mut engine = GovernanceEngine::new();
    for account in 0..20u64 {
        engine.fund(account, 1_000_000);
    }
    engine
}

#[test]
fn scenario_three_for_one_against_closes_approved() {
    let mut dao = funded_engine();
    assert!(dao.create_proposal(1, b"Budget".to_vec(), b"Spend it".to_vec(), Some(10)).is_ok());

    assert!(dao.vote(2, 0, true).is_ok());
    assert!(dao.vote(3, 0, true).is_ok());
    assert!(dao.vote(4, 0, true).is_ok());
    assert!(dao.vote(5, 0, false).is_ok());

    dao.set_block_number(10);
    assert!(dao.close_proposal(6, 0).is_ok());

    let proposal = dao.get_proposal_details(0).unwrap();
    assert_eq!(proposal.status, ProposalStatus::Approved);
    assert_eq!(proposal.approval_percentage(), 75);
}

#[test]
fn scenario_no_votes_closes_rejected() {
    let mut dao = funded_engine();
    assert!(dao.create_proposal(1, b"Quiet".to_vec(), b"Nobody cares".to_vec(), None).is_ok());

    let proposal = dao.get_proposal_details(0).unwrap();
    assert_eq!(proposal.voting_end, 10);

    dao.set_block_number(10);
    assert!(dao.close_proposal(2, 0).is_ok());

    let proposal = dao.get_proposal_details(0).unwrap();
    assert_eq!(proposal.status, ProposalStatus::Rejected);
    assert_eq!(proposal.total_votes, 0);
    assert!(!proposal.is_approved());
    assert!(dao.events().contains(&Event::VotingEnded { proposal_id: 0, approved: false }));
}

#[test]
fn rejected_creation_leaves_no_trace() {
    let mut dao = funded_engine();
    let before_free = dao.free_balance(1);

    let long_title = vec![0u8; 257];
    assert_eq!(
        dao.create_proposal(1, long_title, b"Description".to_vec(), None),
        Err(Error::TitleTooLong)
    );

    assert_eq!(dao.proposal_count(), 0);
    assert_eq!(dao.free_balance(1), before_free);
    assert_eq!(dao.reserved_balance(1), 0);
    assert!(dao.events().is_empty());
}

#[test]
fn deposit_released_only_on_first_execute() {
    let mut dao = funded_engine();
    assert!(dao.create_proposal(1, b"Bond".to_vec(), b"Test".to_vec(), Some(10)).is_ok());
    assert_eq!(dao.free_balance(1), 999_000);
    assert_eq!(dao.reserved_balance(1), 1000);

    assert!(dao.vote(2, 0, true).is_ok());
    dao.set_block_number(11);

    assert!(dao.execute_proposal(3, 0).is_ok());
    assert_eq!(dao.free_balance(1), 1_000_000);
    assert_eq!(dao.reserved_balance(1), 0);

    assert_eq!(dao.execute_proposal(3, 0), Err(Error::AlreadyExecuted));
    assert_eq!(dao.free_balance(1), 1_000_000);
    assert_eq!(dao.reserved_balance(1), 0);
}

#[test]
fn cancel_releases_deposit_and_blocks_execution() {
    let mut dao = funded_engine();
    assert!(dao.create_proposal(1, b"Doomed".to_vec(), b"Test".to_vec(), Some(10)).is_ok());
    assert!(dao.vote(2, 0, true).is_ok());
    assert_eq!(dao.reserved_balance(1), 1000);

    dao.set_block_number(5);
    assert!(dao.cancel_proposal(1, 0).is_ok());
    assert_eq!(dao.free_balance(1), 1_000_000);
    assert_eq!(dao.reserved_balance(1), 0);

    // The ballots would approve it, but a cancelled proposal stays cancelled
    // and its bond is never released a second time.
    dao.set_block_number(11);
    assert_eq!(dao.execute_proposal(1, 0), Err(Error::ProposalNotActive));
    assert_eq!(dao.cancel_proposal(1, 0), Err(Error::ProposalNotActive));
    assert_eq!(dao.free_balance(1), 1_000_000);

    let proposal = dao.get_proposal_details(0).unwrap();
    assert_eq!(proposal.status, ProposalStatus::Cancelled);
}

#[test]
fn totals_always_match_cast_ballots() {
    let mut dao = funded_engine();
    assert!(dao.create_proposal(1, b"Count".to_vec(), b"Test".to_vec(), Some(100)).is_ok());

    for voter in 2..9u64 {
        assert!(dao.vote(voter, 0, voter % 2 == 0).is_ok());
        let proposal = dao.get_proposal_details(0).unwrap();
        assert_eq!(proposal.total_votes, proposal.votes_for + proposal.votes_against);
    }

    let proposal = dao.get_proposal_details(0).unwrap();
    assert_eq!(proposal.votes_for, 4);
    assert_eq!(proposal.votes_against, 3);
    assert_eq!(proposal.total_votes, 7);
}

#[test]
fn vote_after_close_fails() {
    let mut dao = funded_engine();
    assert!(dao.create_proposal(1, b"Late".to_vec(), b"Test".to_vec(), Some(10)).is_ok());
    assert!(dao.vote(2, 0, true).is_ok());

    dao.set_block_number(11);
    assert!(dao.close_proposal(3, 0).is_ok());

    assert_eq!(dao.vote(4, 0, true), Err(Error::ProposalNotActive));
    assert_eq!(dao.close_proposal(3, 0), Err(Error::ProposalNotActive));
}

#[test]
fn vote_after_window_fails() {
    let mut dao = funded_engine();
    assert!(dao.create_proposal(1, b"Late".to_vec(), b"Test".to_vec(), Some(10)).is_ok());

    dao.set_block_number(10);
    assert_eq!(dao.vote(2, 0, true), Err(Error::VotingPeriodEnded));
}

#[test]
fn close_before_window_ends_fails() {
    let mut dao = funded_engine();
    assert!(dao.create_proposal(1, b"Early".to_vec(), b"Test".to_vec(), Some(10)).is_ok());

    dao.set_block_number(9);
    assert_eq!(dao.close_proposal(2, 0), Err(Error::VotingPeriodNotEnded));
}

#[test]
fn unfunded_proposer_cannot_create() {
    let mut dao = GovernanceEngine::new();
    dao.fund(1, 999);

    assert_eq!(
        dao.create_proposal(1, b"Poor".to_vec(), b"Test".to_vec(), None),
        Err(Error::InsufficientDeposit)
    );
    assert_eq!(dao.proposal_count(), 0);
    assert_eq!(dao.free_balance(1), 999);
}

#[test]
fn close_emits_events_in_order() {
    let mut dao = funded_engine();
    assert!(dao.create_proposal(1, b"Order".to_vec(), b"Test".to_vec(), Some(10)).is_ok());
    assert!(dao.vote(2, 0, true).is_ok());

    dao.set_block_number(11);
    let before = dao.events().len();
    assert!(dao.close_proposal(3, 0).is_ok());

    let events = dao.events();
    assert_eq!(events.len(), before + 3);
    assert_eq!(events[before], Event::VotingEnded { proposal_id: 0, approved: true });
    assert_eq!(
        events[before + 1],
        Event::ProposalClosed { proposal_id: 0, final_status: ProposalStatus::Approved }
    );
    assert_eq!(
        events[before + 2],
        Event::ProposalStatusChanged {
            proposal_id: 0,
            old_status: ProposalStatus::Active,
            new_status: ProposalStatus::Approved,
        }
    );
}

#[test]
fn execute_can_short_circuit_close() {
    let mut dao = funded_engine();
    assert!(dao.create_proposal(1, b"Fast".to_vec(), b"Test".to_vec(), Some(10)).is_ok());
    assert!(dao.vote(2, 0, true).is_ok());

    dao.set_block_number(11);
    // No close_proposal call: execution applies the same approval rule.
    assert!(dao.execute_proposal(4, 0).is_ok());

    let proposal = dao.get_proposal_details(0).unwrap();
    assert_eq!(proposal.status, ProposalStatus::Executed);
    assert_eq!(proposal.executed_at, Some(11));
}

#[test]
fn each_proposal_holds_its_own_bond() {
    let mut dao = funded_engine();
    assert!(dao.create_proposal(1, b"One".to_vec(), b"Test".to_vec(), Some(10)).is_ok());
    assert!(dao.create_proposal(1, b"Two".to_vec(), b"Test".to_vec(), Some(10)).is_ok());
    assert_eq!(dao.reserved_balance(1), 2000);

    assert!(dao.cancel_proposal(1, 1).is_ok());
    assert_eq!(dao.reserved_balance(1), 1000);
    assert_eq!(dao.free_balance(1), 999_000);
}
