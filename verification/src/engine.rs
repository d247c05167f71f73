//! The governance engine: the five lifecycle operations over the proposal
//! store, the vote ledger and the deposit ledger, with the event log they
//! feed. Every operation validates first and mutates only on success, so a
//! failed call leaves the state exactly as it was.

use vstd::prelude::*;
use crate::config::{
    MAX_DESCRIPTION_LENGTH, MAX_TITLE_LENGTH, MAX_VOTING_PERIOD, MIN_VOTING_PERIOD,
    PROPOSAL_DEPOSIT,
};
use crate::deposits::DepositLedger;
use crate::errors::Error;
use crate::events::{Event, EventView};
use crate::proposal::{clone_bytes, sat_add, Proposal, ProposalStatus, ProposalView};
use crate::store::ProposalStore;
use crate::votes::VoteLedger;

verus! {

/// Whether the proposal still holds its creation bond for account `a`:
/// the bond is reserved at creation and released on execution or
/// cancellation, and only then.
pub open spec fn holds_bond(p: ProposalView, a: u64) -> bool {
    p.proposer == a && !(p.status is Executed) && !(p.status is Cancelled)
}

/// How many proposals in `s` hold a bond for account `a`.
pub open spec fn bond_count(s: Seq<ProposalView>, a: u64) -> int
    decreases s.len(),
{
    if s.len() == 0 {
        0
    } else {
        bond_count(s.drop_last(), a) + if holds_bond(s.last(), a) {
            1int
        } else {
            0int
        }
    }
}

proof fn lemma_bond_count_nonneg(s: Seq<ProposalView>, a: u64)
    ensures
        bond_count(s, a) >= 0,
    decreases s.len(),
{
    if s.len() > 0 {
        lemma_bond_count_nonneg(s.drop_last(), a);
    }
}

proof fn lemma_bond_count_push(s: Seq<ProposalView>, p: ProposalView, a: u64)
    ensures
        bond_count(s.push(p), a) == bond_count(s, a) + if holds_bond(p, a) {
            1int
        } else {
            0int
        },
{
    assert(s.push(p).last() == p);
    assert(s.push(p).drop_last() =~= s);
}

proof fn lemma_bond_count_update(s: Seq<ProposalView>, i: int, p: ProposalView, a: u64)
    requires
        0 <= i < s.len(),
    ensures
        bond_count(s.update(i, p), a) == bond_count(s, a) - (if holds_bond(s[i], a) {
            1int
        } else {
            0int
        }) + (if holds_bond(p, a) {
            1int
        } else {
            0int
        }),
    decreases s.len(),
{
    let t = s.update(i, p);
    if i == s.len() - 1 {
        assert(t.last() == p);
        assert(t.drop_last() =~= s.drop_last());
    } else {
        assert(t.last() == s.last());
        assert(t.drop_last() =~= s.drop_last().update(i, p));
        assert(s.drop_last()[i] == s[i]);
        lemma_bond_count_update(s.drop_last(), i, p, a);
    }
}

proof fn lemma_bond_count_at_least_one(s: Seq<ProposalView>, i: int, a: u64)
    requires
        0 <= i < s.len(),
        holds_bond(s[i], a),
    ensures
        bond_count(s, a) >= 1,
    decreases s.len(),
{
    if i == s.len() - 1 {
        lemma_bond_count_nonneg(s.drop_last(), a);
    } else {
        assert(s.drop_last()[i] == s[i]);
        lemma_bond_count_at_least_one(s.drop_last(), i, a);
    }
}

/// The voting period a creation request asks for: the stated one, or the
/// minimum when none is stated.
pub open spec fn requested_period(voting_period: Option<u64>) -> u64 {
    match voting_period {
        Some(p) => p,
        None => MIN_VOTING_PERIOD,
    }
}

/// Orchestrates proposals, ballots, deposits and events. Holds all state of
/// the governance system; operations read the clock from the block height
/// it tracks.
pub struct GovernanceEngine {
    store: ProposalStore,
    votes: VoteLedger,
    deposits: DepositLedger,
    events: Vec<Event>,
    now: u64,
}

impl GovernanceEngine {
    /// All proposal records, ordered by id; the record with id `i` is at
    /// index `i`.
    pub closed spec fn proposals(self) -> Seq<ProposalView> {
        self.store.proposals()
    }

    /// The id the next created proposal will receive.
    pub closed spec fn next_id(self) -> u64 {
        self.store.counter()
    }

    /// Whether a proposal exists under `id`.
    pub open spec fn has_proposal(self, id: u64) -> bool {
        id < self.next_id()
    }

    /// The proposal stored under `id`.
    pub open spec fn proposal(self, id: u64) -> ProposalView {
        self.proposals()[id as int]
    }

    /// The ballot `voter` cast on `proposal_id`, if any.
    pub closed spec fn vote_of(self, proposal_id: u64, voter: u64) -> Option<bool> {
        self.votes.vote_of(proposal_id, voter)
    }

    /// The free balance of `account` in the deposit ledger.
    pub closed spec fn free_of(self, account: u64) -> u128 {
        self.deposits.free_of(account)
    }

    /// The reserved balance of `account` in the deposit ledger.
    pub closed spec fn reserved_of(self, account: u64) -> u128 {
        self.deposits.reserved_of(account)
    }

    /// The events emitted so far, in order.
    pub closed spec fn log(self) -> Seq<EventView> {
        self.events@.map_values(|e: Event| e@)
    }

    /// The block height the engine currently sees.
    pub closed spec fn current_block(self) -> u64 {
        self.now
    }

    /// Well-formedness: the stores are well-formed, ids are dense, every
    /// record satisfies its invariant, and each account's reserved balance
    /// is exactly one bond per proposal of that account that has not been
    /// executed or cancelled.
    pub closed spec fn wf(self) -> bool {
        &&& self.store.wf()
        &&& self.votes.wf()
        &&& self.deposits.wf()
        &&& self.next_id() as int == self.proposals().len()
        &&& forall|i: int|
            0 <= i < self.proposals().len() ==> (#[trigger] self.proposals()[i]).inv()
        &&& forall|a: u64|
            #[trigger] self.reserved_of(a) == PROPOSAL_DEPOSIT * bond_count(self.proposals(), a)
    }

    /// The exact outcome of `create_proposal` on this state: the first
    /// failed check decides the error, and creation succeeds exactly when
    /// the texts fit, the period is in range and the proposer can cover the
    /// bond.
    pub open spec fn create_result(
        self,
        proposer: u64,
        title: Seq<u8>,
        description: Seq<u8>,
        voting_period: Option<u64>,
    ) -> Result<(), Error> {
        if title.len() > MAX_TITLE_LENGTH {
            Err(Error::TitleTooLong)
        } else if description.len() > MAX_DESCRIPTION_LENGTH {
            Err(Error::DescriptionTooLong)
        } else if requested_period(voting_period) < MIN_VOTING_PERIOD || requested_period(
            voting_period,
        ) > MAX_VOTING_PERIOD {
            Err(Error::InvalidVotingPeriod)
        } else if self.free_of(proposer) < PROPOSAL_DEPOSIT {
            Err(Error::InsufficientDeposit)
        } else {
            Ok(())
        }
    }

    /// The record a successful creation stores: the next id, the given
    /// texts, a voting window opening now and closing after the requested
    /// period, `Active` status and zeroed counters.
    pub open spec fn created_view(
        self,
        proposer: u64,
        title: Seq<u8>,
        description: Seq<u8>,
        voting_period: Option<u64>,
    ) -> ProposalView {
        ProposalView {
            id: self.next_id(),
            proposer,
            title,
            description,
            created_at: self.current_block(),
            voting_start: self.current_block(),
            voting_end: sat_add(self.current_block(), requested_period(voting_period)),
            status: ProposalStatus::Active,
            votes_for: 0,
            votes_against: 0,
            total_votes: 0,
            executed: false,
            executed_at: None,
        }
    }

    /// Creates a proposal: validates the texts and the period, reserves the
    /// bond, stores the record under a fresh id and emits
    /// `ProposalCreated`. On failure nothing changes. The id counter must
    /// not have exhausted the u64 range, a machine limit no sequence of
    /// `2^64 - 1` creations can reach in practice.
    pub fn create_proposal(
        &mut self,
        proposer: u64,
        title: Vec<u8>,
        description: Vec<u8>,
        voting_period: Option<u64>,
    ) -> (r: Result<(), Error>)
        requires
            old(self).wf(),
            old(self).next_id() < u64::MAX,
        ensures
            final(self).wf(),
            r == old(self).create_result(proposer, title@, description@, voting_period),
            r is Err ==> *final(self) == *old(self),
            r is Ok ==> final(self).next_id() == old(self).next_id() + 1,
            r is Ok ==> final(self).proposals() == old(self).proposals().push(
                old(self).created_view(proposer, title@, description@, voting_period),
            ),
            r is Ok ==> final(self).free_of(proposer) == old(self).free_of(proposer)
                - PROPOSAL_DEPOSIT,
            r is Ok ==> final(self).reserved_of(proposer) == old(self).reserved_of(proposer)
                + PROPOSAL_DEPOSIT,
            r is Ok ==> forall|a: u64|
                a != proposer ==> #[trigger] final(self).free_of(a) == old(self).free_of(a),
            r is Ok ==> forall|a: u64|
                a != proposer ==> #[trigger] final(self).reserved_of(a) == old(
                    self,
                ).reserved_of(a),
            r is Ok ==> forall|p: u64, v: u64|
                #[trigger] final(self).vote_of(p, v) == old(self).vote_of(p, v),
            r is Ok ==> final(self).log() == old(self).log().push(
                EventView::ProposalCreated {
                    proposal_id: old(self).next_id(),
                    proposer,
                    title: title@,
                },
            ),
            final(self).current_block() == old(self).current_block(),
    {
        if title.len() > MAX_TITLE_LENGTH {
            return Err(Error::TitleTooLong);
        }
        if description.len() > MAX_DESCRIPTION_LENGTH {
            return Err(Error::DescriptionTooLong);
        }
        let period: u64 = match voting_period {
            Some(p) => p,
            None => MIN_VOTING_PERIOD,
        };
        if period < MIN_VOTING_PERIOD || period > MAX_VOTING_PERIOD {
            return Err(Error::InvalidVotingPeriod);
        }
        if !self.deposits.reserve(proposer, PROPOSAL_DEPOSIT) {
            return Err(Error::InsufficientDeposit);
        }
        let proposal_id = self.store.next_id();
        let current_block = self.now;
        let voting_end = current_block.saturating_add(period);
        let title_copy = clone_bytes(&title);
        let proposal = Proposal {
            id: proposal_id,
            proposer,
            title,
            description,
            created_at: current_block,
            voting_start: current_block,
            voting_end,
            status: ProposalStatus::Active,
            votes_for: 0,
            votes_against: 0,
            total_votes: 0,
            executed: false,
            executed_at: None,
        };
        let ghost new_view = proposal@;
        self.store.insert(proposal);
        self.events.push(
            Event::ProposalCreated { proposal_id, proposer, title: title_copy },
        );
        proof {
            assert(self.log() =~= old(self).log().push(
                EventView::ProposalCreated {
                    proposal_id: old(self).next_id(),
                    proposer,
                    title: new_view.title,
                },
            ));
            assert forall|i: int|
                0 <= i < self.proposals().len() implies (#[trigger] self.proposals()[i]).inv() by {
                if i < old(self).proposals().len() {
                    assert(old(self).proposals()[i].inv());
                } else {
                    assert(self.proposals()[i] == new_view);
                }
            }
            assert forall|a: u64| #[trigger]
                self.reserved_of(a) == PROPOSAL_DEPOSIT * bond_count(self.proposals(), a) by {
                lemma_bond_count_push(old(self).proposals(), new_view, a);
                assert(old(self).reserved_of(a) == PROPOSAL_DEPOSIT * bond_count(
                    old(self).proposals(),
                    a,
                ));
                if a != proposer {
                    assert(self.reserved_of(a) == old(self).reserved_of(a));
                }
            }
        }
        Ok(())
    }

    /// The exact outcome of `vote` on this state: the proposal must exist,
    /// be `Active`, its voting window must still be open, and the voter
    /// must not have voted on it yet.
    pub open spec fn vote_result(self, voter: u64, proposal_id: u64) -> Result<(), Error> {
        if !self.has_proposal(proposal_id) {
            Err(Error::ProposalNotFound)
        } else if !(self.proposal(proposal_id).status is Active) {
            Err(Error::ProposalNotActive)
        } else if self.current_block() >= self.proposal(proposal_id).voting_end {
            Err(Error::VotingPeriodEnded)
        } else if self.vote_of(proposal_id, voter) is Some {
            Err(Error::AlreadyVoted)
        } else {
            Ok(())
        }
    }

    /// Casts a ballot: records it for the (proposal, voter) pair, bumps the
    /// matching counter and the total by exactly one, and emits `VoteCast`.
    /// On failure nothing changes.
    pub fn vote(&mut self, voter: u64, proposal_id: u64, in_favor: bool) -> (r: Result<
        (),
        Error,
    >)
        requires
            old(self).wf(),
        ensures
            final(self).wf(),
            r == old(self).vote_result(voter, proposal_id),
            r is Err ==> *final(self) == *old(self),
            r is Ok ==> final(self).proposals() == old(self).proposals().update(
                proposal_id as int,
                old(self).proposal(proposal_id).after_vote(in_favor),
            ),
            r is Ok ==> forall|p: u64, v: u64|
                #[trigger] final(self).vote_of(p, v) == if p == proposal_id && v == voter {
                    Some(in_favor)
                } else {
                    old(self).vote_of(p, v)
                },
            r is Ok ==> final(self).log() == old(self).log().push(
                EventView::VoteCast { proposal_id, voter, in_favor },
            ),
            final(self).next_id() == old(self).next_id(),
            forall|a: u64| #[trigger] final(self).free_of(a) == old(self).free_of(a),
            forall|a: u64| #[trigger] final(self).reserved_of(a) == old(self).reserved_of(a),
            final(self).current_block() == old(self).current_block(),
    {
        let updated: Proposal = match self.store.get(proposal_id) {
            None => {
                return Err(Error::ProposalNotFound);
            },
            Some(p) => {
                if !p.is_active() {
                    return Err(Error::ProposalNotActive);
                }
                if p.is_voting_ended(self.now) {
                    return Err(Error::VotingPeriodEnded);
                }
                if self.votes.has_voted(proposal_id, voter) {
                    return Err(Error::AlreadyVoted);
                }
                let mut copy = p.duplicate();
                copy.votes_for = if in_favor {
                    copy.votes_for.saturating_add(1)
                } else {
                    copy.votes_for
                };
                copy.votes_against = if in_favor {
                    copy.votes_against
                } else {
                    copy.votes_against.saturating_add(1)
                };
                copy.total_votes = copy.total_votes.saturating_add(1);
                copy
            },
        };
        let ghost old_view = old(self).proposal(proposal_id);
        let ghost new_view = old_view.after_vote(in_favor);
        proof {
            assert(updated@ == new_view);
        }
        self.votes.record_vote(proposal_id, voter, in_favor);
        self.store.put(proposal_id, updated);
        self.events.push(Event::VoteCast { proposal_id, voter, in_favor });
        proof {
            assert(self.log() =~= old(self).log().push(
                EventView::VoteCast { proposal_id, voter, in_favor },
            ));
            assert(self.proposals() == old(self).proposals().update(
                proposal_id as int,
                new_view,
            ));
            assert(self.proposals().len() == old(self).proposals().len());
            assert forall|i: int|
                0 <= i < self.proposals().len() implies (#[trigger] self.proposals()[i]).inv() by {
                assert(old(self).proposals()[i].inv());
                if i == proposal_id as int {
                    assert(self.proposals()[i] == new_view);
                } else {
                    assert(self.proposals()[i] == old(self).proposals()[i]);
                }
            }
            assert forall|a: u64| #[trigger]
                self.reserved_of(a) == PROPOSAL_DEPOSIT * bond_count(self.proposals(), a) by {
                lemma_bond_count_update(old(self).proposals(), proposal_id as int, new_view, a);
                assert(old(self).reserved_of(a) == PROPOSAL_DEPOSIT * bond_count(
                    old(self).proposals(),
                    a,
                ));
                assert(self.reserved_of(a) == old(self).reserved_of(a));
            }
        }
        Ok(())
    }

    /// The exact outcome of `close_proposal` on this state: the proposal
    /// must exist, its voting window must be over, and it must still be
    /// `Active`. Anyone may close.
    pub open spec fn close_result(self, proposal_id: u64) -> Result<(), Error> {
        if !self.has_proposal(proposal_id) {
            Err(Error::ProposalNotFound)
        } else if self.current_block() < self.proposal(proposal_id).voting_end {
            Err(Error::VotingPeriodNotEnded)
        } else if !(self.proposal(proposal_id).status is Active) {
            Err(Error::ProposalNotActive)
        } else {
            Ok(())
        }
    }

    /// Closes a proposal once its voting window is over: the ballots fix
    /// the outcome (`Approved` on a strict majority in favor, otherwise
    /// `Rejected`) and `VotingEnded`, `ProposalClosed` and
    /// `ProposalStatusChanged` are emitted, in that order. On failure
    /// nothing changes.
    pub fn close_proposal(&mut self, _caller: u64, proposal_id: u64) -> (r: Result<(), Error>)
        requires
            old(self).wf(),
        ensures
            final(self).wf(),
            r == old(self).close_result(proposal_id),
            r is Err ==> *final(self) == *old(self),
            r is Ok ==> final(self).proposals() == old(self).proposals().update(
                proposal_id as int,
                old(self).proposal(proposal_id).after_close(),
            ),
            r is Ok ==> final(self).log() == old(self).log() + seq![
                EventView::VotingEnded {
                    proposal_id,
                    approved: old(self).proposal(proposal_id).approved(),
                },
                EventView::ProposalClosed {
                    proposal_id,
                    final_status: old(self).proposal(proposal_id).after_close().status,
                },
                EventView::ProposalStatusChanged {
                    proposal_id,
                    old_status: old(self).proposal(proposal_id).status,
                    new_status: old(self).proposal(proposal_id).after_close().status,
                },
            ],
            final(self).next_id() == old(self).next_id(),
            forall|p: u64, v: u64|
                #[trigger] final(self).vote_of(p, v) == old(self).vote_of(p, v),
            forall|a: u64| #[trigger] final(self).free_of(a) == old(self).free_of(a),
            forall|a: u64| #[trigger] final(self).reserved_of(a) == old(self).reserved_of(a),
            final(self).current_block() == old(self).current_block(),
    {
        let updated: Proposal = match self.store.get(proposal_id) {
            None => {
                return Err(Error::ProposalNotFound);
            },
            Some(p) => {
                if !p.is_voting_ended(self.now) {
                    return Err(Error::VotingPeriodNotEnded);
                }
                if !p.is_active() {
                    return Err(Error::ProposalNotActive);
                }
                let mut copy = p.duplicate();
                copy.status = if p.is_approved() {
                    ProposalStatus::Approved
                } else {
                    ProposalStatus::Rejected
                };
                copy
            },
        };
        let ghost old_view = old(self).proposal(proposal_id);
        let ghost new_view = old_view.after_close();
        proof {
            assert(updated@ == new_view);
        }
        let approved = updated.is_approved();
        let new_status = updated.status;
        self.store.put(proposal_id, updated);
        self.events.push(Event::VotingEnded { proposal_id, approved });
        self.events.push(Event::ProposalClosed { proposal_id, final_status: new_status });
        self.events.push(
            Event::ProposalStatusChanged {
                proposal_id,
                old_status: ProposalStatus::Active,
                new_status,
            },
        );
        proof {
            assert(self.log() =~= old(self).log() + seq![
                EventView::VotingEnded { proposal_id, approved: old_view.approved() },
                EventView::ProposalClosed { proposal_id, final_status: new_view.status },
                EventView::ProposalStatusChanged {
                    proposal_id,
                    old_status: old_view.status,
                    new_status: new_view.status,
                },
            ]);
            assert forall|i: int|
                0 <= i < self.proposals().len() implies (#[trigger] self.proposals()[i]).inv() by {
                assert(old(self).proposals()[i].inv());
                if i == proposal_id as int {
                    assert(self.proposals()[i] == new_view);
                } else {
                    assert(self.proposals()[i] == old(self).proposals()[i]);
                }
            }
            assert forall|a: u64| #[trigger]
                self.reserved_of(a) == PROPOSAL_DEPOSIT * bond_count(self.proposals(), a) by {
                lemma_bond_count_update(old(self).proposals(), proposal_id as int, new_view, a);
                assert(old(self).reserved_of(a) == PROPOSAL_DEPOSIT * bond_count(
                    old(self).proposals(),
                    a,
                ));
                assert(self.reserved_of(a) == old(self).reserved_of(a));
            }
        }
        Ok(())
    }

    /// The exact outcome of `execute_proposal` on this state: the proposal
    /// must exist, its voting window must be over, its ballots must approve
    /// it (whether or not it was closed first), it must not have been
    /// executed already, and a cancelled proposal stays cancelled.
    pub open spec fn execute_result(self, proposal_id: u64) -> Result<(), Error> {
        if !self.has_proposal(proposal_id) {
            Err(Error::ProposalNotFound)
        } else if self.current_block() < self.proposal(proposal_id).voting_end {
            Err(Error::VotingPeriodNotEnded)
        } else if !self.proposal(proposal_id).approved() {
            Err(Error::ProposalNotApproved)
        } else if self.proposal(proposal_id).executed {
            Err(Error::AlreadyExecuted)
        } else if self.proposal(proposal_id).status is Cancelled {
            Err(Error::ProposalNotActive)
        } else {
            Ok(())
        }
    }

    /// Executes an approved proposal once its voting window is over,
    /// marking it `Executed` exactly once, releasing the proposer's bond
    /// and emitting `ProposalExecuted` and `ProposalStatusChanged`.
    /// Execution may short-circuit closing, but never overrides a
    /// cancellation. On failure nothing changes.
    pub fn execute_proposal(&mut self, executor: u64, proposal_id: u64) -> (r: Result<
        (),
        Error,
    >)
        requires
            old(self).wf(),
        ensures
            final(self).wf(),
            r == old(self).execute_result(proposal_id),
            r is Err ==> *final(self) == *old(self),
            r is Ok ==> final(self).proposals() == old(self).proposals().update(
                proposal_id as int,
                old(self).proposal(proposal_id).after_execute(old(self).current_block()),
            ),
            r is Ok ==> final(self).free_of(old(self).proposal(proposal_id).proposer) == old(
                self,
            ).free_of(old(self).proposal(proposal_id).proposer) + PROPOSAL_DEPOSIT,
            r is Ok ==> final(self).reserved_of(old(self).proposal(proposal_id).proposer) == old(
                self,
            ).reserved_of(old(self).proposal(proposal_id).proposer) - PROPOSAL_DEPOSIT,
            r is Ok ==> forall|a: u64|
                a != old(self).proposal(proposal_id).proposer ==> #[trigger] final(self).free_of(a)
                    == old(self).free_of(a),
            r is Ok ==> forall|a: u64|
                a != old(self).proposal(proposal_id).proposer
                    ==> #[trigger] final(self).reserved_of(a) == old(self).reserved_of(a),
            r is Ok ==> final(self).log() == old(self).log() + seq![
                EventView::ProposalExecuted { proposal_id, executor },
                EventView::ProposalStatusChanged {
                    proposal_id,
                    old_status: old(self).proposal(proposal_id).status,
                    new_status: ProposalStatus::Executed,
                },
            ],
            final(self).next_id() == old(self).next_id(),
            forall|p: u64, v: u64|
                #[trigger] final(self).vote_of(p, v) == old(self).vote_of(p, v),
            final(self).current_block() == old(self).current_block(),
    {
        let (updated, proposer, old_status): (Proposal, u64, ProposalStatus) = match self
            .store
            .get(proposal_id) {
            None => {
                return Err(Error::ProposalNotFound);
            },
            Some(p) => {
                if !p.is_voting_ended(self.now) {
                    return Err(Error::VotingPeriodNotEnded);
                }
                if !p.is_approved() {
                    return Err(Error::ProposalNotApproved);
                }
                if p.executed {
                    return Err(Error::AlreadyExecuted);
                }
                if p.status == ProposalStatus::Cancelled {
                    return Err(Error::ProposalNotActive);
                }
                let mut copy = p.duplicate();
                let old_status = copy.status;
                copy.status = ProposalStatus::Executed;
                copy.executed = true;
                copy.executed_at = Some(self.now);
                (copy, p.proposer, old_status)
            },
        };
        let ghost old_view = old(self).proposal(proposal_id);
        let ghost new_view = old_view.after_execute(old(self).current_block());
        proof {
            assert(updated@ == new_view);
            assert(old(self).proposals()[proposal_id as int].inv());
            lemma_bond_count_at_least_one(old(self).proposals(), proposal_id as int, proposer);
            assert(old(self).reserved_of(proposer) >= PROPOSAL_DEPOSIT);
        }
        self.store.put(proposal_id, updated);
        self.deposits.release(proposer, PROPOSAL_DEPOSIT);
        self.events.push(Event::ProposalExecuted { proposal_id, executor });
        self.events.push(
            Event::ProposalStatusChanged {
                proposal_id,
                old_status,
                new_status: ProposalStatus::Executed,
            },
        );
        proof {
            assert(self.log() =~= old(self).log() + seq![
                EventView::ProposalExecuted { proposal_id, executor },
                EventView::ProposalStatusChanged {
                    proposal_id,
                    old_status: old_view.status,
                    new_status: ProposalStatus::Executed,
                },
            ]);
            assert forall|i: int|
                0 <= i < self.proposals().len() implies (#[trigger] self.proposals()[i]).inv() by {
                assert(old(self).proposals()[i].inv());
                if i == proposal_id as int {
                    assert(self.proposals()[i] == new_view);
                } else {
                    assert(self.proposals()[i] == old(self).proposals()[i]);
                }
            }
            assert forall|a: u64| #[trigger]
                self.reserved_of(a) == PROPOSAL_DEPOSIT * bond_count(self.proposals(), a) by {
                lemma_bond_count_update(old(self).proposals(), proposal_id as int, new_view, a);
                assert(old(self).reserved_of(a) == PROPOSAL_DEPOSIT * bond_count(
                    old(self).proposals(),
                    a,
                ));
                if a != proposer {
                    assert(self.reserved_of(a) == old(self).reserved_of(a));
                }
            }
        }
        Ok(())
    }

    /// The exact outcome of `cancel_proposal` on this state: the proposal
    /// must exist, the caller must be its proposer, and it must still be
    /// `Active`. Both the authorization failure and the status failure
    /// answer `ProposalNotActive`.
    pub open spec fn cancel_result(self, caller: u64, proposal_id: u64) -> Result<(), Error> {
        if !self.has_proposal(proposal_id) {
            Err(Error::ProposalNotFound)
        } else if self.proposal(proposal_id).proposer != caller {
            Err(Error::ProposalNotActive)
        } else if !(self.proposal(proposal_id).status is Active) {
            Err(Error::ProposalNotActive)
        } else {
            Ok(())
        }
    }

    /// Cancels an active proposal; only its proposer may do so. The bond
    /// returns to the proposer and `ProposalStatusChanged` is emitted. On
    /// failure nothing changes.
    pub fn cancel_proposal(&mut self, caller: u64, proposal_id: u64) -> (r: Result<(), Error>)
        requires
            old(self).wf(),
        ensures
            final(self).wf(),
            r == old(self).cancel_result(caller, proposal_id),
            r is Err ==> *final(self) == *old(self),
            r is Ok ==> final(self).proposals() == old(self).proposals().update(
                proposal_id as int,
                old(self).proposal(proposal_id).after_cancel(),
            ),
            r is Ok ==> final(self).free_of(caller) == old(self).free_of(caller)
                + PROPOSAL_DEPOSIT,
            r is Ok ==> final(self).reserved_of(caller) == old(self).reserved_of(caller)
                - PROPOSAL_DEPOSIT,
            r is Ok ==> forall|a: u64|
                a != caller ==> #[trigger] final(self).free_of(a) == old(self).free_of(a),
            r is Ok ==> forall|a: u64|
                a != caller ==> #[trigger] final(self).reserved_of(a) == old(self).reserved_of(a),
            r is Ok ==> final(self).log() == old(self).log().push(
                EventView::ProposalStatusChanged {
                    proposal_id,
                    old_status: old(self).proposal(proposal_id).status,
                    new_status: ProposalStatus::Cancelled,
                },
            ),
            final(self).next_id() == old(self).next_id(),
            forall|p: u64, v: u64|
                #[trigger] final(self).vote_of(p, v) == old(self).vote_of(p, v),
            final(self).current_block() == old(self).current_block(),
    {
        let updated: Proposal = match self.store.get(proposal_id) {
            None => {
                return Err(Error::ProposalNotFound);
            },
            Some(p) => {
                if p.proposer != caller {
                    return Err(Error::ProposalNotActive);
                }
                if !p.is_active() {
                    return Err(Error::ProposalNotActive);
                }
                let mut copy = p.duplicate();
                copy.status = ProposalStatus::Cancelled;
                copy
            },
        };
        let ghost old_view = old(self).proposal(proposal_id);
        let ghost new_view = old_view.after_cancel();
        proof {
            assert(updated@ == new_view);
            assert(old(self).proposals()[proposal_id as int].inv());
            lemma_bond_count_at_least_one(old(self).proposals(), proposal_id as int, caller);
            assert(old(self).reserved_of(caller) >= PROPOSAL_DEPOSIT);
        }
        self.store.put(proposal_id, updated);
        self.deposits.release(caller, PROPOSAL_DEPOSIT);
        self.events.push(
            Event::ProposalStatusChanged {
                proposal_id,
                old_status: ProposalStatus::Active,
                new_status: ProposalStatus::Cancelled,
            },
        );
        proof {
            assert(self.log() =~= old(self).log().push(
                EventView::ProposalStatusChanged {
                    proposal_id,
                    old_status: old_view.status,
                    new_status: ProposalStatus::Cancelled,
                },
            ));
            assert forall|i: int|
                0 <= i < self.proposals().len() implies (#[trigger] self.proposals()[i]).inv() by {
                assert(old(self).proposals()[i].inv());
                if i == proposal_id as int {
                    assert(self.proposals()[i] == new_view);
                } else {
                    assert(self.proposals()[i] == old(self).proposals()[i]);
                }
            }
            assert forall|a: u64| #[trigger]
                self.reserved_of(a) == PROPOSAL_DEPOSIT * bond_count(self.proposals(), a) by {
                lemma_bond_count_update(old(self).proposals(), proposal_id as int, new_view, a);
                assert(old(self).reserved_of(a) == PROPOSAL_DEPOSIT * bond_count(
                    old(self).proposals(),
                    a,
                ));
                if a != caller {
                    assert(self.reserved_of(a) == old(self).reserved_of(a));
                }
            }
        }
        Ok(())
    }

    /// A fresh engine: no proposals, no ballots, empty balances, an empty
    /// log, and the clock at height 0.
    pub fn new() -> (r: Self)
        ensures
            r.wf(),
            r.next_id() == 0,
            r.proposals() == Seq::<ProposalView>::empty(),
            r.current_block() == 0,
            r.log() == Seq::<EventView>::empty(),
            forall|p: u64, v: u64| #[trigger] r.vote_of(p, v) is None,
            forall|a: u64| #[trigger] r.free_of(a) == 0,
            forall|a: u64| #[trigger] r.reserved_of(a) == 0,
    {
        let r = GovernanceEngine {
            store: ProposalStore::new(),
            votes: VoteLedger::new(),
            deposits: DepositLedger::new(),
            events: Vec::new(),
            now: 0,
        };
        proof {
            assert(r.proposals() =~= Seq::<ProposalView>::empty());
            assert(r.log() =~= Seq::<EventView>::empty());
        }
        r
    }

    /// Adds `amount` to the free balance of `account`, so the account can
    /// post proposal bonds.
    pub fn fund(&mut self, account: u64, amount: u128)
        requires
            old(self).wf(),
            old(self).free_of(account) + old(self).reserved_of(account) + amount <= u128::MAX,
        ensures
            final(self).wf(),
            final(self).free_of(account) == old(self).free_of(account) + amount,
            final(self).reserved_of(account) == old(self).reserved_of(account),
            forall|a: u64|
                a != account ==> #[trigger] final(self).free_of(a) == old(self).free_of(a),
            forall|a: u64|
                a != account ==> #[trigger] final(self).reserved_of(a) == old(
                    self,
                ).reserved_of(a),
            final(self).proposals() == old(self).proposals(),
            final(self).next_id() == old(self).next_id(),
            forall|p: u64, v: u64|
                #[trigger] final(self).vote_of(p, v) == old(self).vote_of(p, v),
            final(self).log() == old(self).log(),
            final(self).current_block() == old(self).current_block(),
    {
        self.deposits.fund(account, amount);
        proof {
            assert forall|a: u64| #[trigger]
                self.reserved_of(a) == PROPOSAL_DEPOSIT * bond_count(self.proposals(), a) by {
                assert(self.reserved_of(a) == old(self).reserved_of(a));
                assert(old(self).reserved_of(a) == PROPOSAL_DEPOSIT * bond_count(
                    old(self).proposals(),
                    a,
                ));
            }
            assert forall|i: int|
                0 <= i < self.proposals().len() implies (#[trigger] self.proposals()[i]).inv() by {
                assert(old(self).proposals()[i].inv());
            }
        }
    }

    /// Advances the clock to height `n`; the clock never goes backwards.
    pub fn set_block_number(&mut self, n: u64)
        requires
            old(self).wf(),
            n >= old(self).current_block(),
        ensures
            final(self).wf(),
            final(self).current_block() == n,
            final(self).proposals() == old(self).proposals(),
            final(self).next_id() == old(self).next_id(),
            forall|p: u64, v: u64|
                #[trigger] final(self).vote_of(p, v) == old(self).vote_of(p, v),
            forall|a: u64| #[trigger] final(self).free_of(a) == old(self).free_of(a),
            forall|a: u64| #[trigger] final(self).reserved_of(a) == old(self).reserved_of(a),
            final(self).log() == old(self).log(),
    {
        self.now = n;
        proof {
            assert forall|a: u64| #[trigger]
                self.reserved_of(a) == PROPOSAL_DEPOSIT * bond_count(self.proposals(), a) by {
                assert(self.reserved_of(a) == old(self).reserved_of(a));
                assert(old(self).reserved_of(a) == PROPOSAL_DEPOSIT * bond_count(
                    old(self).proposals(),
                    a,
                ));
            }
            assert forall|i: int|
                0 <= i < self.proposals().len() implies (#[trigger] self.proposals()[i]).inv() by {
                assert(old(self).proposals()[i].inv());
            }
        }
    }

    /// The current block height.
    pub fn block_number(&self) -> (r: u64)
        ensures
            r == self.current_block(),
    {
        self.now
    }

    /// How many proposals were created; also the next id to be assigned.
    pub fn proposal_count(&self) -> (r: u64)
        ensures
            r == self.next_id(),
    {
        self.store.next_id()
    }

    /// A copy of the proposal stored under `proposal_id`, if any.
    pub fn get_proposal_details(&self, proposal_id: u64) -> (r: Option<Proposal>)
        requires
            self.wf(),
        ensures
            r is Some <==> self.has_proposal(proposal_id),
            r matches Some(p) ==> p@ == self.proposal(proposal_id),
    {
        match self.store.get(proposal_id) {
            Some(p) => Some(p.duplicate()),
            None => None,
        }
    }

    /// The ballot `voter` cast on `proposal_id`, if any.
    pub fn get_vote(&self, proposal_id: u64, voter: u64) -> (r: Option<bool>)
        ensures
            r == self.vote_of(proposal_id, voter),
    {
        self.votes.get_vote(proposal_id, voter)
    }

    /// Whether `voter` has cast a ballot on `proposal_id`.
    pub fn has_account_voted(&self, proposal_id: u64, voter: u64) -> (r: bool)
        ensures
            r == (self.vote_of(proposal_id, voter) is Some),
    {
        self.votes.has_voted(proposal_id, voter)
    }

    /// The free balance of `account`.
    pub fn free_balance(&self, account: u64) -> (r: u128)
        ensures
            r == self.free_of(account),
    {
        self.deposits.free_balance(account)
    }

    /// The reserved balance of `account`.
    pub fn reserved_balance(&self, account: u64) -> (r: u128)
        ensures
            r == self.reserved_of(account),
    {
        self.deposits.reserved_balance(account)
    }

    /// The events emitted so far, in order.
    pub fn events(&self) -> (r: &Vec<Event>)
        ensures
            r@.map_values(|e: Event| e@) == self.log(),
    {
        &self.events
    }
}

/// In a well-formed engine every stored proposal's ballot counters satisfy
/// `total_votes == votes_for + votes_against`. The one family of states the
/// law leaves out is a counter saturated at the top of the u64 range, which
/// would take `2^64` distinct voters to reach.
pub proof fn lemma_vote_counts_consistent(s: GovernanceEngine, proposal_id: u64)
    requires
        s.wf(),
        s.has_proposal(proposal_id),
        s.proposal(proposal_id).total_votes < u64::MAX,
    ensures
        s.proposal(proposal_id).total_votes == s.proposal(proposal_id).votes_for + s.proposal(
            proposal_id,
        ).votes_against,
{
    assert(s.proposals()[proposal_id as int].inv());
}

/// Once a proposal's status is terminal (`Executed`, `Cancelled` or
/// `Rejected`), no lifecycle operation succeeds on it any more: voting,
/// closing, executing and cancelling all answer an error, whoever calls.
pub proof fn lemma_terminal_status_is_final(s: GovernanceEngine, proposal_id: u64)
    requires
        s.wf(),
        s.has_proposal(proposal_id),
        s.proposal(proposal_id).status is Executed || s.proposal(proposal_id).status is Cancelled
            || s.proposal(proposal_id).status is Rejected,
    ensures
        forall|voter: u64| (#[trigger] s.vote_result(voter, proposal_id)) is Err,
        s.close_result(proposal_id) is Err,
        s.execute_result(proposal_id) is Err,
        forall|caller: u64| (#[trigger] s.cancel_result(caller, proposal_id)) is Err,
{
    assert(s.proposals()[proposal_id as int].inv());
}

/// A (proposal, voter) pair contributes at most one ballot: once a ballot
/// is recorded, another `vote` by the same voter on the same proposal
/// always fails, and while the proposal is active inside its voting window
/// the error is exactly `AlreadyVoted`.
pub proof fn lemma_no_double_vote(s: GovernanceEngine, proposal_id: u64, voter: u64)
    requires
        s.wf(),
        s.vote_of(proposal_id, voter) is Some,
    ensures
        s.vote_result(voter, proposal_id) is Err,
        s.has_proposal(proposal_id) && s.proposal(proposal_id).status is Active
            && s.current_block() < s.proposal(proposal_id).voting_end ==> s.vote_result(
            voter,
            proposal_id,
        ) == Err::<(), Error>(Error::AlreadyVoted),
{
}

/// Approval is exactly a strict majority among cast ballots; in particular
/// a tie — any state with as many votes for as against, a 2–2 as well as a
/// 0–0 — is never approved.
pub proof fn lemma_tie_is_not_approved(p: ProposalView)
    requires
        p.votes_for <= p.votes_against,
    ensures
        !p.approved(),
{
}

/// The deposit accounting of a well-formed engine: each account's reserved
/// balance is exactly one bond per proposal of that account that has not
/// been executed or cancelled. Creation reserves the bond, execution and
/// cancellation release it, and nothing else touches it.
pub proof fn lemma_reserved_matches_open_bonds(s: GovernanceEngine, account: u64)
    requires
        s.wf(),
    ensures
        s.reserved_of(account) == PROPOSAL_DEPOSIT * bond_count(s.proposals(), account),
{
}

/// While a proposal has not been executed or cancelled, its bond is still
/// reserved: the proposer's reserved balance covers at least one deposit.
/// Together with the operation contracts — only `execute_proposal` and
/// `cancel_proposal` release, each releases exactly one deposit, and by
/// `lemma_terminal_status_is_final` neither succeeds twice — the bond of a
/// proposal is released exactly once, on execution or cancellation, never
/// both.
pub proof fn lemma_bond_outstanding(s: GovernanceEngine, proposal_id: u64)
    requires
        s.wf(),
        s.has_proposal(proposal_id),
        !(s.proposal(proposal_id).status is Executed),
        !(s.proposal(proposal_id).status is Cancelled),
    ensures
        s.reserved_of(s.proposal(proposal_id).proposer) >= PROPOSAL_DEPOSIT,
{
    let proposer = s.proposal(proposal_id).proposer;
    lemma_bond_count_at_least_one(s.proposals(), proposal_id as int, proposer);
    assert(s.reserved_of(proposer) == PROPOSAL_DEPOSIT * bond_count(s.proposals(), proposer));
}

} // verus!
