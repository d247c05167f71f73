//! Ballot storage: one record per (proposal, voter) pair. This layer does
//! not reject duplicates by itself; the engine checks `has_voted` before it
//! records, which keeps the pairs unique.

use vstd::prelude::*;

verus! {

/// One cast ballot.
#[derive(Clone, Copy, Debug)]
pub struct VoteRecord {
    pub proposal_id: u64,
    pub voter: u64,
    pub in_favor: bool,
}

/// Whether two records belong to the same (proposal, voter) pair.
pub open spec fn same_key(a: VoteRecord, b: VoteRecord) -> bool {
    a.proposal_id == b.proposal_id && a.voter == b.voter
}

/// The ballot recorded for `(proposal_id, voter)` in `s`, if any: the last
/// matching record decides, and with unique pairs there is at most one.
pub open spec fn find_vote(s: Seq<VoteRecord>, proposal_id: u64, voter: u64) -> Option<bool>
    decreases s.len(),
{
    if s.len() == 0 {
        None
    } else if s.last().proposal_id == proposal_id && s.last().voter == voter {
        Some(s.last().in_favor)
    } else {
        find_vote(s.drop_last(), proposal_id, voter)
    }
}

/// A pair that `find_vote` misses has no record at all.
proof fn lemma_find_vote_absent(s: Seq<VoteRecord>, proposal_id: u64, voter: u64)
    requires
        find_vote(s, proposal_id, voter) is None,
    ensures
        forall|i: int|
            0 <= i < s.len() ==> !((#[trigger] s[i]).proposal_id == proposal_id
                && s[i].voter == voter),
    decreases s.len(),
{
    if s.len() > 0 {
        lemma_find_vote_absent(s.drop_last(), proposal_id, voter);
        assert(forall|i: int| 0 <= i < s.len() - 1 ==> s[i] == s.drop_last()[i]);
    }
}

/// Appending a record changes `find_vote` only for that record's pair.
proof fn lemma_find_vote_push(s: Seq<VoteRecord>, r: VoteRecord, proposal_id: u64, voter: u64)
    ensures
        find_vote(s.push(r), proposal_id, voter) == if r.proposal_id == proposal_id
            && r.voter == voter {
            Some(r.in_favor)
        } else {
            find_vote(s, proposal_id, voter)
        },
{
    assert(s.push(r).last() == r);
    assert(s.push(r).drop_last() =~= s);
}

/// Per-(proposal, voter) record of cast ballots.
pub struct VoteLedger {
    records: Vec<VoteRecord>,
}

impl VoteLedger {
    /// The ballot cast by `voter` on `proposal_id`, if any.
    pub closed spec fn vote_of(self, proposal_id: u64, voter: u64) -> Option<bool> {
        find_vote(self.records@, proposal_id, voter)
    }

    /// No two records share a (proposal, voter) pair: each pair contributes
    /// at most one ballot.
    pub closed spec fn wf(self) -> bool {
        forall|i: int, j: int|
            0 <= i < j < self.records@.len() ==> !same_key(
                #[trigger] self.records@[i],
                #[trigger] self.records@[j],
            )
    }

    /// An empty ledger.
    pub fn new() -> (r: Self)
        ensures
            r.wf(),
            forall|p: u64, v: u64| #[trigger] r.vote_of(p, v) is None,
    {
        VoteLedger { records: Vec::new() }
    }

    /// The ballot cast by `voter` on `proposal_id`, if any.
    pub fn get_vote(&self, proposal_id: u64, voter: u64) -> (r: Option<bool>)
        ensures
            r == self.vote_of(proposal_id, voter),
    {
        let mut i: usize = self.records.len();
        proof {
            assert(self.records@.take(i as int) =~= self.records@);
        }
        while i > 0
            invariant
                i <= self.records@.len(),
                find_vote(self.records@, proposal_id, voter) == find_vote(
                    self.records@.take(i as int),
                    proposal_id,
                    voter,
                ),
            decreases i,
        {
            i = i - 1;
            proof {
                assert(self.records@.take(i as int + 1).last() == self.records@[i as int]);
                assert(self.records@.take(i as int + 1).drop_last() =~= self.records@.take(
                    i as int,
                ));
            }
            let rec = self.records[i];
            if rec.proposal_id == proposal_id && rec.voter == voter {
                return Some(rec.in_favor);
            }
        }
        None
    }

    /// Whether `voter` has cast any ballot on `proposal_id`.
    pub fn has_voted(&self, proposal_id: u64, voter: u64) -> (r: bool)
        ensures
            r == (self.vote_of(proposal_id, voter) is Some),
    {
        self.get_vote(proposal_id, voter).is_some()
    }

    /// Records a ballot for a pair that has none yet.
    pub fn record_vote(&mut self, proposal_id: u64, voter: u64, in_favor: bool)
        requires
            old(self).wf(),
            old(self).vote_of(proposal_id, voter) is None,
        ensures
            final(self).wf(),
            forall|p: u64, v: u64|
                #[trigger] final(self).vote_of(p, v) == if p == proposal_id && v == voter {
                    Some(in_favor)
                } else {
                    old(self).vote_of(p, v)
                },
    {
        let rec = VoteRecord { proposal_id, voter, in_favor };
        proof {
            lemma_find_vote_absent(self.records@, proposal_id, voter);
        }
        self.records.push(rec);
        proof {
            assert forall|p: u64, v: u64| #[trigger]
                self.vote_of(p, v) == if p == proposal_id && v == voter {
                    Some(in_favor)
                } else {
                    old(self).vote_of(p, v)
                } by {
                lemma_find_vote_push(old(self).records@, rec, p, v);
            }
        }
    }
}

} // verus!
