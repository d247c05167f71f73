//! Domain events. Each successful operation appends an ordered group of
//! events to the engine's log; failed operations append nothing.

use vstd::prelude::*;
use crate::proposal::ProposalStatus;

verus! {

/// Mathematical view of an [`Event`]: title bytes become a sequence.
pub enum EventView {
    ProposalCreated { proposal_id: u64, proposer: u64, title: Seq<u8> },
    VoteCast { proposal_id: u64, voter: u64, in_favor: bool },
    ProposalExecuted { proposal_id: u64, executor: u64 },
    ProposalStatusChanged { proposal_id: u64, old_status: ProposalStatus, new_status: ProposalStatus },
    ProposalClosed { proposal_id: u64, final_status: ProposalStatus },
    VotingEnded { proposal_id: u64, approved: bool },
}

/// One domain event, as appended to the engine's log.
#[derive(Debug, PartialEq, Eq)]
pub enum Event {
    /// A proposal was created.
    ProposalCreated { proposal_id: u64, proposer: u64, title: Vec<u8> },
    /// A ballot was cast.
    VoteCast { proposal_id: u64, voter: u64, in_favor: bool },
    /// An approved proposal was executed.
    ProposalExecuted { proposal_id: u64, executor: u64 },
    /// The proposal's status changed.
    ProposalStatusChanged { proposal_id: u64, old_status: ProposalStatus, new_status: ProposalStatus },
    /// Closing fixed the proposal's final status.
    ProposalClosed { proposal_id: u64, final_status: ProposalStatus },
    /// The voting window was closed with the given outcome.
    VotingEnded { proposal_id: u64, approved: bool },
}

impl View for Event {
    type V = EventView;

    open spec fn view(&self) -> EventView {
        match self {
            Event::ProposalCreated { proposal_id, proposer, title } => EventView::ProposalCreated {
                proposal_id: *proposal_id,
                proposer: *proposer,
                title: title@,
            },
            Event::VoteCast { proposal_id, voter, in_favor } => EventView::VoteCast {
                proposal_id: *proposal_id,
                voter: *voter,
                in_favor: *in_favor,
            },
            Event::ProposalExecuted { proposal_id, executor } => EventView::ProposalExecuted {
                proposal_id: *proposal_id,
                executor: *executor,
            },
            Event::ProposalStatusChanged { proposal_id, old_status, new_status } => EventView::ProposalStatusChanged {
                proposal_id: *proposal_id,
                old_status: *old_status,
                new_status: *new_status,
            },
            Event::ProposalClosed { proposal_id, final_status } => EventView::ProposalClosed {
                proposal_id: *proposal_id,
                final_status: *final_status,
            },
            Event::VotingEnded { proposal_id, approved } => EventView::VotingEnded {
                proposal_id: *proposal_id,
                approved: *approved,
            },
        }
    }
}

} // verus!
