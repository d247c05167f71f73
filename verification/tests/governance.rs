use dao_governance::engine::GovernanceEngine;
use dao_governance::errors::Error;
use dao_governance::events::Event;
use dao_governance::proposal::ProposalStatus;

/// A fresh engine with funded accounts, so proposal bonds can be reserved.
fn new_test_engine() -> GovernanceEngine {
    let mut engine = GovernanceEngine::new();
    for account in 0..20u64 {
        engine.fund(account, 1_000_000);
    }
    engine
}

#[test]
fn create_proposal_works() {
    let mut dao = new_test_engine();
    let proposer = 1u64;
    let title = b"Approve Q4 Budget".to_vec();
    let description = b"Proposal to approve the Q4 2025 budget allocation of $50,000".to_vec();

    assert!(dao.create_proposal(proposer, title.clone(), description, None).is_ok());

    assert_eq!(dao.proposal_count(), 1);

    let proposal = dao.get_proposal_details(0).unwrap();
    assert_eq!(proposal.id, 0);
    assert_eq!(proposal.proposer, proposer);
    assert_eq!(proposal.title, title);
    assert_eq!(proposal.status, ProposalStatus::Active);
    assert_eq!(proposal.votes_for, 0);
    assert_eq!(proposal.votes_against, 0);
    assert_eq!(proposal.total_votes, 0);
    assert!(!proposal.executed);

    assert!(dao.events().contains(&Event::ProposalCreated { proposal_id: 0, proposer, title }));
}

#[test]
fn vote_in_favor_works() {
    let mut dao = new_test_engine();
    let proposer = 1u64;
    let voter = 2u64;

    assert!(dao
        .create_proposal(proposer, b"Test Proposal".to_vec(), b"Test Description".to_vec(), None)
        .is_ok());

    assert!(dao.vote(voter, 0, true).is_ok());

    assert_eq!(dao.get_vote(0, voter), Some(true));
    assert!(dao.has_account_voted(0, voter));

    let proposal = dao.get_proposal_details(0).unwrap();
    assert_eq!(proposal.votes_for, 1);
    assert_eq!(proposal.votes_against, 0);
    assert_eq!(proposal.total_votes, 1);

    assert!(dao.events().contains(&Event::VoteCast { proposal_id: 0, voter, in_favor: true }));
}

#[test]
fn vote_against_works() {
    let mut dao = new_test_engine();
    let proposer = 1u64;
    let voter = 2u64;

    assert!(dao
        .create_proposal(proposer, b"Test Proposal".to_vec(), b"Test Description".to_vec(), None)
        .is_ok());

    assert!(dao.vote(voter, 0, false).is_ok());

    assert_eq!(dao.get_vote(0, voter), Some(false));

    let proposal = dao.get_proposal_details(0).unwrap();
    assert_eq!(proposal.votes_for, 0);
    assert_eq!(proposal.votes_against, 1);
    assert_eq!(proposal.total_votes, 1);
}

#[test]
fn multiple_votes_work() {
    let mut dao = new_test_engine();
    let proposer = 1u64;

    assert!(dao
        .create_proposal(proposer, b"Test Proposal".to_vec(), b"Test Description".to_vec(), None)
        .is_ok());

    assert!(dao.vote(2, 0, true).is_ok());
    assert!(dao.vote(3, 0, true).is_ok());
    assert!(dao.vote(4, 0, false).is_ok());
    assert!(dao.vote(5, 0, true).is_ok());

    let proposal = dao.get_proposal_details(0).unwrap();
    assert_eq!(proposal.votes_for, 3);
    assert_eq!(proposal.votes_against, 1);
    assert_eq!(proposal.total_votes, 4);
    assert!(proposal.is_approved());
}

#[test]
fn cannot_vote_twice() {
    let mut dao = new_test_engine();
    let proposer = 1u64;
    let voter = 2u64;

    assert!(dao
        .create_proposal(proposer, b"Test Proposal".to_vec(), b"Test Description".to_vec(), None)
        .is_ok());

    assert!(dao.vote(voter, 0, true).is_ok());

    assert_eq!(dao.vote(voter, 0, false), Err(Error::AlreadyVoted));
}

#[test]
fn execute_approved_proposal_works() {
    let mut dao = new_test_engine();
    let proposer = 1u64;
    let executor = 6u64;

    assert!(dao
        .create_proposal(
            proposer,
            b"Test Proposal".to_vec(),
            b"Test Description".to_vec(),
            Some(10),
        )
        .is_ok());

    assert!(dao.vote(2, 0, true).is_ok());
    assert!(dao.vote(3, 0, true).is_ok());
    assert!(dao.vote(4, 0, false).is_ok());
    assert!(dao.vote(5, 0, true).is_ok());

    dao.set_block_number(11);

    assert!(dao.execute_proposal(executor, 0).is_ok());

    let proposal = dao.get_proposal_details(0).unwrap();
    assert_eq!(proposal.status, ProposalStatus::Executed);
    assert!(proposal.executed);
    assert_eq!(proposal.executed_at, Some(11));

    assert!(dao.events().contains(&Event::ProposalExecuted { proposal_id: 0, executor }));
}

#[test]
fn cannot_execute_before_voting_ends() {
    let mut dao = new_test_engine();
    let proposer = 1u64;

    assert!(dao
        .create_proposal(
            proposer,
            b"Test Proposal".to_vec(),
            b"Test Description".to_vec(),
            Some(10),
        )
        .is_ok());

    assert!(dao.vote(2, 0, true).is_ok());

    assert_eq!(dao.execute_proposal(proposer, 0), Err(Error::VotingPeriodNotEnded));
}

#[test]
fn cannot_execute_rejected_proposal() {
    let mut dao = new_test_engine();
    let proposer = 1u64;

    assert!(dao
        .create_proposal(
            proposer,
            b"Test Proposal".to_vec(),
            b"Test Description".to_vec(),
            Some(10),
        )
        .is_ok());

    assert!(dao.vote(2, 0, false).is_ok());
    assert!(dao.vote(3, 0, false).is_ok());
    assert!(dao.vote(4, 0, true).is_ok());

    dao.set_block_number(11);

    assert_eq!(dao.execute_proposal(proposer, 0), Err(Error::ProposalNotApproved));
}

#[test]
fn close_proposal_works() {
    let mut dao = new_test_engine();
    let proposer = 1u64;

    assert!(dao
        .create_proposal(
            proposer,
            b"Test Proposal".to_vec(),
            b"Test Description".to_vec(),
            Some(10),
        )
        .is_ok());

    assert!(dao.vote(2, 0, true).is_ok());
    assert!(dao.vote(3, 0, true).is_ok());
    assert!(dao.vote(4, 0, false).is_ok());

    dao.set_block_number(11);

    assert!(dao.close_proposal(5, 0).is_ok());

    let proposal = dao.get_proposal_details(0).unwrap();
    assert_eq!(proposal.status, ProposalStatus::Approved);

    assert!(dao.events().contains(&Event::VotingEnded { proposal_id: 0, approved: true }));
    assert!(dao.events().contains(&Event::ProposalClosed {
        proposal_id: 0,
        final_status: ProposalStatus::Approved,
    }));
}

#[test]
fn close_rejected_proposal_works() {
    let mut dao = new_test_engine();
    let proposer = 1u64;

    assert!(dao
        .create_proposal(
            proposer,
            b"Test Proposal".to_vec(),
            b"Test Description".to_vec(),
            Some(10),
        )
        .is_ok());

    assert!(dao.vote(2, 0, true).is_ok());
    assert!(dao.vote(3, 0, false).is_ok());
    assert!(dao.vote(4, 0, false).is_ok());

    dao.set_block_number(11);

    assert!(dao.close_proposal(5, 0).is_ok());

    let proposal = dao.get_proposal_details(0).unwrap();
    assert_eq!(proposal.status, ProposalStatus::Rejected);
}

#[test]
fn full_proposal_lifecycle_approved() {
    let mut dao = new_test_engine();
    let proposer = 1u64;
    assert!(dao
        .create_proposal(
            proposer,
            b"Increase Budget".to_vec(),
            b"Proposal to increase engineering budget by 20%".to_vec(),
            Some(20),
        )
        .is_ok());

    let proposal = dao.get_proposal_details(0).unwrap();
    assert_eq!(proposal.status, ProposalStatus::Active);

    assert!(dao.vote(2, 0, true).is_ok());
    assert!(dao.vote(3, 0, true).is_ok());
    assert!(dao.vote(4, 0, true).is_ok());
    assert!(dao.vote(5, 0, false).is_ok());
    assert!(dao.vote(6, 0, true).is_ok());

    let proposal = dao.get_proposal_details(0).unwrap();
    assert_eq!(proposal.votes_for, 4);
    assert_eq!(proposal.votes_against, 1);
    assert_eq!(proposal.approval_percentage(), 80);

    dao.set_block_number(21);
    assert!(dao.close_proposal(7, 0).is_ok());

    let proposal = dao.get_proposal_details(0).unwrap();
    assert_eq!(proposal.status, ProposalStatus::Approved);

    assert!(dao.execute_proposal(8, 0).is_ok());

    let proposal = dao.get_proposal_details(0).unwrap();
    assert_eq!(proposal.status, ProposalStatus::Executed);
    assert!(proposal.executed);
}

#[test]
fn full_proposal_lifecycle_rejected() {
    let mut dao = new_test_engine();
    let proposer = 1u64;
    assert!(dao
        .create_proposal(
            proposer,
            b"Bad Proposal".to_vec(),
            b"This proposal will be rejected".to_vec(),
            Some(15),
        )
        .is_ok());

    assert!(dao.vote(2, 0, true).is_ok());
    assert!(dao.vote(3, 0, false).is_ok());
    assert!(dao.vote(4, 0, false).is_ok());
    assert!(dao.vote(5, 0, false).is_ok());

    dao.set_block_number(16);
    assert!(dao.close_proposal(6, 0).is_ok());

    let proposal = dao.get_proposal_details(0).unwrap();
    assert_eq!(proposal.status, ProposalStatus::Rejected);
    assert!(!proposal.is_approved());

    assert_eq!(dao.execute_proposal(proposer, 0), Err(Error::ProposalNotApproved));
}

#[test]
fn multiple_proposals_work() {
    let mut dao = new_test_engine();
    let proposer = 1u64;

    for i in 0..5u64 {
        assert!(dao
            .create_proposal(
                proposer,
                format!("Proposal {}", i).as_bytes().to_vec(),
                format!("Description {}", i).as_bytes().to_vec(),
                None,
            )
            .is_ok());
    }

    assert_eq!(dao.proposal_count(), 5);

    for i in 0..5u64 {
        let proposal = dao.get_proposal_details(i).unwrap();
        assert_eq!(proposal.id, i);
        assert_eq!(proposal.status, ProposalStatus::Active);
    }
}

#[test]
fn cannot_vote_on_nonexistent_proposal() {
    let mut dao = new_test_engine();
    let voter = 1u64;

    assert_eq!(dao.vote(voter, 999, true), Err(Error::ProposalNotFound));
}

#[test]
fn approval_percentage_calculation_works() {
    let mut dao = new_test_engine();
    let proposer = 1u64;

    assert!(dao.create_proposal(proposer, b"Test".to_vec(), b"Test".to_vec(), None).is_ok());

    for i in 2..8u64 {
        assert!(dao.vote(i, 0, true).is_ok());
    }
    for i in 8..12u64 {
        assert!(dao.vote(i, 0, false).is_ok());
    }

    let proposal = dao.get_proposal_details(0).unwrap();
    assert_eq!(proposal.approval_percentage(), 60);
}

#[test]
fn cancel_proposal_works() {
    let mut dao = new_test_engine();
    let proposer = 1u64;

    assert!(dao.create_proposal(proposer, b"Test".to_vec(), b"Test".to_vec(), None).is_ok());

    assert!(dao.cancel_proposal(proposer, 0).is_ok());

    let proposal = dao.get_proposal_details(0).unwrap();
    assert_eq!(proposal.status, ProposalStatus::Cancelled);
}

#[test]
fn only_proposer_can_cancel() {
    let mut dao = new_test_engine();
    let proposer = 1u64;
    let other = 2u64;

    assert!(dao.create_proposal(proposer, b"Test".to_vec(), b"Test".to_vec(), None).is_ok());

    assert_eq!(dao.cancel_proposal(other, 0), Err(Error::ProposalNotActive));
}

#[test]
fn cannot_execute_twice() {
    let mut dao = new_test_engine();
    let proposer = 1u64;

    assert!(dao
        .create_proposal(proposer, b"Test".to_vec(), b"Test".to_vec(), Some(10))
        .is_ok());

    assert!(dao.vote(2, 0, true).is_ok());
    assert!(dao.vote(3, 0, true).is_ok());

    dao.set_block_number(11);

    assert!(dao.execute_proposal(proposer, 0).is_ok());

    assert_eq!(dao.execute_proposal(proposer, 0), Err(Error::AlreadyExecuted));
}

#[test]
fn title_too_long_fails() {
    let mut dao = new_test_engine();
    let proposer = 1u64;
    let long_title = vec![0u8; 257];

    assert_eq!(
        dao.create_proposal(proposer, long_title, b"Description".to_vec(), None),
        Err(Error::TitleTooLong)
    );
}

#[test]
fn description_too_long_fails() {
    let mut dao = new_test_engine();
    let proposer = 1u64;
    let long_desc = vec![0u8; 2049];

    assert_eq!(
        dao.create_proposal(proposer, b"Title".to_vec(), long_desc, None),
        Err(Error::DescriptionTooLong)
    );
}

#[test]
fn voting_period_validation_works() {
    let mut dao = new_test_engine();
    let proposer = 1u64;

    assert_eq!(
        dao.create_proposal(proposer, b"Test".to_vec(), b"Test".to_vec(), Some(5)),
        Err(Error::InvalidVotingPeriod)
    );

    assert_eq!(
        dao.create_proposal(proposer, b"Test".to_vec(), b"Test".to_vec(), Some(1001)),
        Err(Error::InvalidVotingPeriod)
    );

    assert!(dao
        .create_proposal(proposer, b"Test".to_vec(), b"Test".to_vec(), Some(50))
        .is_ok());
}

#[test]
fn unanimous_approval_works() {
    let mut dao = new_test_engine();
    let proposer = 1u64;

    assert!(dao
        .create_proposal(proposer, b"Unanimous".to_vec(), b"Test".to_vec(), Some(10))
        .is_ok());

    for i in 2..10u64 {
        assert!(dao.vote(i, 0, true).is_ok());
    }

    let proposal = dao.get_proposal_details(0).unwrap();
    assert_eq!(proposal.votes_for, 8);
    assert_eq!(proposal.votes_against, 0);
    assert_eq!(proposal.approval_percentage(), 100);
    assert!(proposal.is_approved());
}

#[test]
fn tie_vote_rejects_proposal() {
    let mut dao = new_test_engine();
    let proposer = 1u64;

    assert!(dao
        .create_proposal(proposer, b"Tie Vote".to_vec(), b"Test".to_vec(), Some(10))
        .is_ok());

    assert!(dao.vote(2, 0, true).is_ok());
    assert!(dao.vote(3, 0, true).is_ok());
    assert!(dao.vote(4, 0, false).is_ok());
    assert!(dao.vote(5, 0, false).is_ok());

    let proposal = dao.get_proposal_details(0).unwrap();
    assert!(!proposal.is_approved());
}

#[test]
fn events_are_emitted_correctly() {
    let mut dao = new_test_engine();
    let proposer = 1u64;
    let voter = 2u64;
    let title = b"Test Proposal".to_vec();

    assert!(dao
        .create_proposal(proposer, title.clone(), b"Description".to_vec(), Some(10))
        .is_ok());

    assert!(dao.events().contains(&Event::ProposalCreated { proposal_id: 0, proposer, title }));

    assert!(dao.vote(voter, 0, true).is_ok());

    assert!(dao.events().contains(&Event::VoteCast { proposal_id: 0, voter, in_favor: true }));
}
