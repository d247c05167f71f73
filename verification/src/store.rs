//! Keyed storage for proposal records. Ids are assigned sequentially from 0
//! by a counter that grows exactly once per insertion, so the store is a
//! dense table: the record with id `i` sits at index `i`.

use vstd::prelude::*;
use crate::proposal::{Proposal, ProposalView};

verus! {

/// Table of proposals keyed by id, together with the counter that yields
/// the next id. Records are never removed.
pub struct ProposalStore {
    items: Vec<Proposal>,
    next: u64,
}

impl ProposalStore {
    /// The id the next inserted proposal will receive; equals the number of
    /// proposals stored.
    pub closed spec fn counter(self) -> u64 {
        self.next
    }

    /// All stored records as views, ordered by id.
    pub closed spec fn proposals(self) -> Seq<ProposalView> {
        self.items@.map_values(|p: Proposal| p@)
    }

    /// Whether a record exists under `id`.
    pub open spec fn contains(self, id: u64) -> bool {
        id < self.counter()
    }

    /// The counter matches the table and every record sits under its own id.
    pub closed spec fn wf(self) -> bool {
        &&& self.next as int == self.items@.len()
        &&& forall|i: int|
            0 <= i < self.items@.len() ==> (#[trigger] self.proposals()[i]).id == i
    }

    /// An empty store; the first id handed out is 0.
    pub fn new() -> (r: Self)
        ensures
            r.wf(),
            r.counter() == 0,
            r.proposals() =~= Seq::<ProposalView>::empty(),
    {
        ProposalStore { items: Vec::new(), next: 0 }
    }

    /// The id the next proposal will be stored under.
    pub fn next_id(&self) -> (id: u64)
        ensures
            id == self.counter(),
    {
        self.next
    }

    /// The record under `id`, if any.
    pub fn get(&self, id: u64) -> (r: Option<&Proposal>)
        requires
            self.wf(),
        ensures
            r is Some <==> self.contains(id),
            r matches Some(p) ==> p@ == self.proposals()[id as int] && p@.id == id,
    {
        let n: usize = self.items.len();
        if id < (n as u64) {
            Some(&self.items[id as usize])
        } else {
            None
        }
    }

    /// Stores `p` under the next id and advances the counter, exactly once.
    pub fn insert(&mut self, p: Proposal)
        requires
            old(self).wf(),
            p@.id == old(self).counter(),
            old(self).counter() < u64::MAX,
        ensures
            final(self).wf(),
            final(self).counter() == old(self).counter() + 1,
            final(self).proposals() == old(self).proposals().push(p@),
    {
        self.items.push(p);
        self.next = self.next + 1;
        proof {
            assert(self.proposals() =~= old(self).proposals().push(p@));
        }
    }

    /// Replaces the record under an existing id.
    pub fn put(&mut self, id: u64, p: Proposal)
        requires
            old(self).wf(),
            old(self).contains(id),
            p@.id == id,
        ensures
            final(self).wf(),
            final(self).counter() == old(self).counter(),
            final(self).proposals() == old(self).proposals().update(id as int, p@),
    {
        let n: usize = self.items.len();
        proof {
            assert((id as int) < (n as int));
        }
        self.items.set(id as usize, p);
        proof {
            assert(self.proposals() =~= old(self).proposals().update(id as int, p@));
        }
    }
}

} // verus!
