//! Fixed parameters of the governance system: input size limits, the allowed
//! voting-period range, and the bond reserved from a proposer at creation.

use vstd::prelude::*;

verus! {

/// Longest title, in bytes, that `create_proposal` accepts.
pub const MAX_TITLE_LENGTH: usize = 256;

/// Longest description, in bytes, that `create_proposal` accepts.
pub const MAX_DESCRIPTION_LENGTH: usize = 2048;

/// Shortest allowed voting period, in blocks; also the default period.
pub const MIN_VOTING_PERIOD: u64 = 10;

/// Longest allowed voting period, in blocks.
pub const MAX_VOTING_PERIOD: u64 = 1000;

/// Bond reserved from the proposer when a proposal is created and released
/// when the proposal is executed or cancelled.
pub const PROPOSAL_DEPOSIT: u128 = 1000;

} // verus!
