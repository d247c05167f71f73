//! The proposal record: its status, its mathematical view, and the read-only
//! queries a proposal answers (activity, window end, approval, percentage).

use vstd::prelude::*;

verus! {

/// Lifecycle status of a proposal.
///
/// `Active` proposals accept votes; `Approved` and `Rejected` are the two
/// outcomes of closing; `Executed` and `Cancelled` are reached from
/// `Approved`/`Active` respectively. `Expired` belongs to the taxonomy but no
/// operation produces it.
#[derive(Clone, Copy, Debug, PartialEq, Eq, Structural)]
pub enum ProposalStatus {
    Active,
    Approved,
    Rejected,
    Executed,
    Cancelled,
    Expired,
}

impl Default for ProposalStatus {
    /// A freshly created proposal is `Active`.
    fn default() -> (r: Self)
        ensures
            r is Active,
    {
        ProposalStatus::Active
    }
}

/// Mathematical view of a [`Proposal`]: byte vectors become sequences.
pub struct ProposalView {
    pub id: u64,
    pub proposer: u64,
    pub title: Seq<u8>,
    pub description: Seq<u8>,
    pub created_at: u64,
    pub voting_start: u64,
    pub voting_end: u64,
    pub status: ProposalStatus,
    pub votes_for: u64,
    pub votes_against: u64,
    pub total_votes: u64,
    pub executed: bool,
    pub executed_at: Option<u64>,
}

impl ProposalView {
    /// Strict majority: more votes in favor than against, and at least one
    /// vote cast. A tie (including 0-0) is not approved.
    pub open spec fn approved(self) -> bool {
        self.votes_for > self.votes_against && self.total_votes > 0
    }

    /// Share of favorable votes, in whole percent, rounded down; 0 when no
    /// vote was cast.
    pub open spec fn approval_percentage(self) -> int {
        if self.total_votes == 0 {
            0
        } else {
            self.votes_for * 100 / (self.total_votes as int)
        }
    }

    /// Well-formedness of a stored proposal record.
    ///
    /// The vote counters satisfy `total == for + against` (below the u64
    /// saturation point, which `2^64 - 1` distinct voters cannot reach in
    /// memory but the saturating arithmetic allows in principle), the voting
    /// window starts at creation, the `executed` flag, the `executed_at`
    /// stamp and the `Executed` status coincide, and a closed outcome agrees
    /// with the ballot counts. No operation produces `Expired`.
    pub open spec fn inv(self) -> bool {
        &&& self.votes_for <= self.total_votes
        &&& self.votes_against <= self.total_votes
        &&& self.total_votes < u64::MAX ==> self.total_votes == self.votes_for + self.votes_against
        &&& self.voting_start == self.created_at
        &&& self.created_at <= self.voting_end
        &&& (self.executed <==> self.status is Executed)
        &&& (self.executed <==> self.executed_at is Some)
        &&& (self.status is Rejected ==> !self.approved())
        &&& (self.status is Approved ==> self.approved())
        &&& !(self.status is Expired)
    }

    /// The record after one more ballot: the chosen counter and the total
    /// each grow by one, clamping at the top of the u64 range.
    pub open spec fn after_vote(self, in_favor: bool) -> ProposalView {
        ProposalView {
            votes_for: if in_favor {
                sat_inc(self.votes_for)
            } else {
                self.votes_for
            },
            votes_against: if in_favor {
                self.votes_against
            } else {
                sat_inc(self.votes_against)
            },
            total_votes: sat_inc(self.total_votes),
            ..self
        }
    }

    /// The record after closing: the ballots fix the outcome.
    pub open spec fn after_close(self) -> ProposalView {
        ProposalView {
            status: if self.approved() {
                ProposalStatus::Approved
            } else {
                ProposalStatus::Rejected
            },
            ..self
        }
    }

    /// The record after execution at block `at`.
    pub open spec fn after_execute(self, at: u64) -> ProposalView {
        ProposalView {
            status: ProposalStatus::Executed,
            executed: true,
            executed_at: Some(at),
            ..self
        }
    }

    /// The record after cancellation.
    pub open spec fn after_cancel(self) -> ProposalView {
        ProposalView { status: ProposalStatus::Cancelled, ..self }
    }
}

/// Increment that clamps at the top of the u64 range instead of wrapping.
pub open spec fn sat_inc(x: u64) -> u64 {
    if x == u64::MAX {
        x
    } else {
        (x + 1) as u64
    }
}

/// Addition that clamps at the top of the u64 range instead of wrapping.
pub open spec fn sat_add(x: u64, y: u64) -> u64 {
    if x + y > u64::MAX {
        u64::MAX
    } else {
        (x + y) as u64
    }
}

/// One governance item: immutable identity and text, a bounded voting window,
/// ballot counters, and the mutable lifecycle status.
#[derive(Debug)]
pub struct Proposal {
    /// Assigned at creation, sequentially from 0, never reused.
    pub id: u64,
    /// Account that created the proposal and posted the bond.
    pub proposer: u64,
    /// Title bytes, at most [`crate::config::MAX_TITLE_LENGTH`].
    pub title: Vec<u8>,
    /// Description bytes, at most [`crate::config::MAX_DESCRIPTION_LENGTH`].
    pub description: Vec<u8>,
    /// Block height at creation.
    pub created_at: u64,
    /// First block of the voting window; equals `created_at`.
    pub voting_start: u64,
    /// First block at which voting is over.
    pub voting_end: u64,
    /// Current lifecycle status.
    pub status: ProposalStatus,
    /// Ballots cast in favor.
    pub votes_for: u64,
    /// Ballots cast against.
    pub votes_against: u64,
    /// All ballots cast.
    pub total_votes: u64,
    /// Whether the proposal has been executed.
    pub executed: bool,
    /// Block height of execution, if any.
    pub executed_at: Option<u64>,
}

impl View for Proposal {
    type V = ProposalView;

    open spec fn view(&self) -> ProposalView {
        ProposalView {
            id: self.id,
            proposer: self.proposer,
            title: self.title@,
            description: self.description@,
            created_at: self.created_at,
            voting_start: self.voting_start,
            voting_end: self.voting_end,
            status: self.status,
            votes_for: self.votes_for,
            votes_against: self.votes_against,
            total_votes: self.total_votes,
            executed: self.executed,
            executed_at: self.executed_at,
        }
    }
}

impl Proposal {
    /// Whether the proposal still accepts lifecycle transitions.
    pub fn is_active(&self) -> (r: bool)
        ensures
            r == (self@.status is Active),
    {
        self.status == ProposalStatus::Active
    }

    /// Whether the voting window is over at `current_block`.
    pub fn is_voting_ended(&self, current_block: u64) -> (r: bool)
        ensures
            r == (current_block >= self@.voting_end),
    {
        current_block >= self.voting_end
    }

    /// Whether the ballots approve the proposal: strictly more votes in
    /// favor than against, and at least one vote cast.
    pub fn is_approved(&self) -> (r: bool)
        ensures
            r == self@.approved(),
    {
        self.votes_for > self.votes_against && self.total_votes > 0
    }

    /// Share of favorable votes in whole percent, rounded down; 0 when no
    /// vote was cast. Computed in a widened domain, so it never overflows.
    pub fn approval_percentage(&self) -> (r: u32)
        requires
            self.votes_for <= self.total_votes,
        ensures
            r == self@.approval_percentage(),
    {
        if self.total_votes == 0 {
            0
        } else {
            let wide: u128 = (self.votes_for as u128) * 100 / (self.total_votes as u128);
            proof {
                assert(self.votes_for * 100 <= self.total_votes * 100) by (nonlinear_arith)
                    requires
                        self.votes_for <= self.total_votes,
                ;
                assert(self.total_votes * 100 / self.total_votes as int == 100) by (nonlinear_arith)
                    requires
                        self.total_votes > 0,
                ;
                assert(self.votes_for * 100 / self.total_votes as int
                    <= self.total_votes * 100 / self.total_votes as int) by (nonlinear_arith)
                    requires
                        self.votes_for * 100 <= self.total_votes * 100,
                        self.total_votes > 0,
                ;
            }
            wide as u32
        }
    }
}

impl Proposal {
    /// Field-for-field copy of the record.
    pub(crate) fn duplicate(&self) -> (r: Proposal)
        ensures
            r@ == self@,
    {
        Proposal {
            id: self.id,
            proposer: self.proposer,
            title: clone_bytes(&self.title),
            description: clone_bytes(&self.description),
            created_at: self.created_at,
            voting_start: self.voting_start,
            voting_end: self.voting_end,
            status: self.status,
            votes_for: self.votes_for,
            votes_against: self.votes_against,
            total_votes: self.total_votes,
            executed: self.executed,
            executed_at: self.executed_at,
        }
    }
}

/// Byte-for-byte copy of a byte vector.
pub fn clone_bytes(v: &Vec<u8>) -> (r: Vec<u8>)
    ensures
        r@ == v@,
{
    let r = v.clone();
    proof {
        assert(forall|i: int| 0 <= i < v@.len() ==> r@[i] == v@[i]);
        assert(r@ =~= v@);
    }
    r
}

} // verus!
