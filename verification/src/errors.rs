//! The error taxonomy of the five governance operations. Every error is
//! returned synchronously and no operation mutates state before all of its
//! checks have passed.

use vstd::prelude::*;

verus! {

/// Why a governance operation was refused.
#[derive(Clone, Copy, Debug, PartialEq, Eq, Structural)]
pub enum Error {
    /// No proposal exists under the given id.
    ProposalNotFound,
    /// The proposal is not in the status the transition needs; also returned
    /// by `cancel_proposal` when the caller is not the proposer.
    ProposalNotActive,
    /// The account already voted on this proposal.
    AlreadyVoted,
    /// The voting window is still open.
    VotingPeriodNotEnded,
    /// The voting window is over.
    VotingPeriodEnded,
    /// The ballots do not approve the proposal.
    ProposalNotApproved,
    /// The proposal was already executed.
    AlreadyExecuted,
    /// The title exceeds [`crate::config::MAX_TITLE_LENGTH`] bytes.
    TitleTooLong,
    /// The description exceeds [`crate::config::MAX_DESCRIPTION_LENGTH`] bytes.
    DescriptionTooLong,
    /// The requested voting period lies outside the allowed range.
    InvalidVotingPeriod,
    /// The proposer's free balance cannot cover the bond.
    InsufficientDeposit,
}

} // verus!
