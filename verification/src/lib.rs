//! On-chain governance: proposals with a bounded voting window, one-account-one-vote
//! ballots, and a deterministic approve/reject/execute/cancel lifecycle.
//!
//! All state lives in explicit stores (`ProposalStore`, `VoteLedger`,
//! `DepositLedger`); the `GovernanceEngine` orchestrates the five operations
//! over them and records the domain events each operation emits. The
//! companion `escrow` module models the service-verification escrow
//! contract, and `identity` carries the handle a resolver queries the
//! identity registry through.

pub mod config;
pub mod proposal;
pub mod errors;
pub mod events;
pub mod store;
pub mod votes;
pub mod deposits;
pub mod engine;
pub mod escrow;
pub mod service_poc;
pub mod identity;
