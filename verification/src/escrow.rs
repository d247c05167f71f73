//! Companion contract: service-verification records with an escrow balance
//! and a one-shot dispute per service. The hosting chain supplies the
//! caller, the transferred value and the timestamp as plain arguments; the
//! transfer that accompanies a release is the host's action and is recorded
//! here by the `EscrowReleased` event.

use vstd::prelude::*;
use crate::proposal::clone_bytes;

verus! {

/// Why an escrow operation was refused.
#[derive(Clone, Copy, Debug, PartialEq, Eq, Structural)]
pub enum Error {
    ServiceAlreadyExists,
    ServiceNotFound,
    InvalidData,
    NoEscrowBalance,
    NotAuthorized,
    DisputeOpen,
    EnvError,
}

/// Dispute bookkeeping of one service.
#[derive(Debug, PartialEq, Eq)]
pub enum DisputeState {
    /// No dispute was ever opened.
    NoDispute,
    /// A dispute is open since `opened_at` (a host timestamp).
    Open { opened_at: u64, reason: Vec<u8> },
    /// The dispute was resolved by the owner.
    Resolved,
}

/// Mathematical view of a [`DisputeState`].
pub enum DisputeStateView {
    NoDispute,
    Open { opened_at: u64, reason: Seq<u8> },
    Resolved,
}

impl View for DisputeState {
    type V = DisputeStateView;

    open spec fn view(&self) -> DisputeStateView {
        match self {
            DisputeState::NoDispute => DisputeStateView::NoDispute,
            DisputeState::Open { opened_at, reason } => DisputeStateView::Open {
                opened_at: *opened_at,
                reason: reason@,
            },
            DisputeState::Resolved => DisputeStateView::Resolved,
        }
    }
}

/// Event: a verification record was stored.
#[derive(Clone, Copy, Debug, PartialEq, Eq, Structural)]
pub struct ServiceStored {
    pub service_id: u64,
    pub caller: u64,
}

/// Event: escrow was deposited for a service.
#[derive(Clone, Copy, Debug, PartialEq, Eq, Structural)]
pub struct EscrowDeposited {
    pub service_id: u64,
    pub amount: u128,
    pub depositor: u64,
}

/// Event: escrow was paid out for a service.
#[derive(Clone, Copy, Debug, PartialEq, Eq, Structural)]
pub struct EscrowReleased {
    pub service_id: u64,
    pub amount: u128,
    pub to: u64,
}

/// Event: a dispute was opened for a service.
#[derive(Clone, Copy, Debug, PartialEq, Eq, Structural)]
pub struct DisputeOpened {
    pub service_id: u64,
    pub opener: u64,
}

/// One emitted escrow event.
#[derive(Clone, Copy, Debug, PartialEq, Eq, Structural)]
pub enum EscrowEvent {
    Stored(ServiceStored),
    Deposited(EscrowDeposited),
    Released(EscrowReleased),
    Dispute(DisputeOpened),
}

/// Everything the contract keeps for one service id. A service that was
/// never touched is equivalent to a slot with no data, a zero balance and
/// no dispute.
struct ServiceSlot {
    service_id: u64,
    data: Option<Vec<u8>>,
    amount: u128,
    dispute: DisputeState,
}

/// The slot for `service_id` in `s`, by index; the last matching slot
/// decides, and with unique ids there is at most one.
spec fn find_slot(s: Seq<ServiceSlot>, service_id: u64) -> Option<int>
    decreases s.len(),
{
    if s.len() == 0 {
        None
    } else if s.last().service_id == service_id {
        Some(s.len() - 1)
    } else {
        find_slot(s.drop_last(), service_id)
    }
}

proof fn lemma_find_slot_absent(s: Seq<ServiceSlot>, service_id: u64)
    requires
        find_slot(s, service_id) is None,
    ensures
        forall|i: int| 0 <= i < s.len() ==> (#[trigger] s[i]).service_id != service_id,
    decreases s.len(),
{
    if s.len() > 0 {
        lemma_find_slot_absent(s.drop_last(), service_id);
        assert(forall|i: int| 0 <= i < s.len() - 1 ==> s[i] == s.drop_last()[i]);
    }
}

proof fn lemma_find_slot_in_range(s: Seq<ServiceSlot>, service_id: u64)
    ensures
        find_slot(s, service_id) matches Some(i) ==> 0 <= i < s.len() && s[i].service_id
            == service_id,
    decreases s.len(),
{
    if s.len() > 0 {
        lemma_find_slot_in_range(s.drop_last(), service_id);
        assert(forall|i: int| 0 <= i < s.len() - 1 ==> s[i] == s.drop_last()[i]);
    }
}

proof fn lemma_find_slot_push(s: Seq<ServiceSlot>, slot: ServiceSlot, service_id: u64)
    ensures
        find_slot(s.push(slot), service_id) == if slot.service_id == service_id {
            Some(s.len() as int)
        } else {
            find_slot(s, service_id)
        },
{
    assert(s.push(slot).last() == slot);
    assert(s.push(slot).drop_last() =~= s);
}

proof fn lemma_find_slot_update(s: Seq<ServiceSlot>, i: int, slot: ServiceSlot, service_id: u64)
    requires
        0 <= i < s.len(),
        s[i].service_id == slot.service_id,
    ensures
        find_slot(s.update(i, slot), service_id) == find_slot(s, service_id),
    decreases s.len(),
{
    let t = s.update(i, slot);
    if i == s.len() - 1 {
        assert(t.last() == slot);
        assert(t.drop_last() =~= s.drop_last());
    } else {
        assert(t.last() == s.last());
        assert(t.drop_last() =~= s.drop_last().update(i, slot));
        assert(s.drop_last()[i] == s[i]);
        lemma_find_slot_update(s.drop_last(), i, slot, service_id);
    }
}

/// Service-verification records with escrow balances and disputes, owned
/// by the account that instantiated the contract.
pub struct ServiceVerificationEscrow {
    slots: Vec<ServiceSlot>,
    owner: u64,
    dispute_window_ms: u64,
    events: Vec<EscrowEvent>,
}

impl ServiceVerificationEscrow {
    /// The stored verification data of a service, if any.
    pub closed spec fn data_of(self, service_id: u64) -> Option<Seq<u8>> {
        match find_slot(self.slots@, service_id) {
            Some(i) => match self.slots@[i].data {
                Some(d) => Some(d@),
                None => None,
            },
            None => None,
        }
    }

    /// The escrow balance held for a service.
    pub closed spec fn escrow_of(self, service_id: u64) -> u128 {
        match find_slot(self.slots@, service_id) {
            Some(i) => self.slots@[i].amount,
            None => 0,
        }
    }

    /// The dispute state of a service.
    pub closed spec fn dispute_of(self, service_id: u64) -> DisputeStateView {
        match find_slot(self.slots@, service_id) {
            Some(i) => self.slots@[i].dispute@,
            None => DisputeStateView::NoDispute,
        }
    }

    /// The account that instantiated the contract.
    pub closed spec fn contract_owner(self) -> u64 {
        self.owner
    }

    /// The dispute window the contract was instantiated with, in
    /// milliseconds.
    pub closed spec fn dispute_window(self) -> u64 {
        self.dispute_window_ms
    }

    /// The events emitted so far, in order.
    pub closed spec fn log(self) -> Seq<EscrowEvent> {
        self.events@
    }

    /// Service ids are unique.
    pub closed spec fn wf(self) -> bool {
        forall|k: int, l: int|
            0 <= k < l < self.slots@.len() ==> (#[trigger] self.slots@[k]).service_id != (
            #[trigger] self.slots@[l]).service_id
    }

    /// A fresh contract owned by `caller`, with the given dispute window.
    pub fn new(caller: u64, dispute_window_ms: u64) -> (r: Self)
        ensures
            r.wf(),
            r.contract_owner() == caller,
            r.dispute_window() == dispute_window_ms,
            forall|id: u64| #[trigger] r.data_of(id) is None,
            forall|id: u64| #[trigger] r.escrow_of(id) == 0,
            forall|id: u64| #[trigger] r.dispute_of(id) is NoDispute,
            r.log() == Seq::<EscrowEvent>::empty(),
    {
        let r = ServiceVerificationEscrow {
            slots: Vec::new(),
            owner: caller,
            dispute_window_ms,
            events: Vec::new(),
        };
        proof {
            assert(r.log() =~= Seq::<EscrowEvent>::empty());
        }
        r
    }

    /// Index of the slot for `service_id`, if any.
    fn position(&self, service_id: u64) -> (r: Option<usize>)
        ensures
            r matches Some(i) ==> find_slot(self.slots@, service_id) == Some(i as int),
            r is None ==> find_slot(self.slots@, service_id) is None,
    {
        let mut i: usize = self.slots.len();
        proof {
            assert(self.slots@.take(i as int) =~= self.slots@);
        }
        while i > 0
            invariant
                i <= self.slots@.len(),
                find_slot(self.slots@, service_id) == find_slot(
                    self.slots@.take(i as int),
                    service_id,
                ),
                forall|j: int|
                    i <= j < self.slots@.len() ==> (#[trigger] self.slots@[j]).service_id
                        != service_id,
            decreases i,
        {
            i = i - 1;
            proof {
                assert(self.slots@.take(i as int + 1).last() == self.slots@[i as int]);
                assert(self.slots@.take(i as int + 1).drop_last() =~= self.slots@.take(i as int));
            }
            if self.slots[i].service_id == service_id {
                return Some(i);
            }
        }
        None
    }

    /// The exact outcome of `store`: the data must not be empty and the
    /// service id must be fresh.
    pub open spec fn store_result(self, service_id: u64, data_hash: Seq<u8>) -> Result<
        (),
        Error,
    > {
        if data_hash.len() == 0 {
            Err(Error::InvalidData)
        } else if self.data_of(service_id) is Some {
            Err(Error::ServiceAlreadyExists)
        } else {
            Ok(())
        }
    }

    /// Stores a verification record for a fresh service id and emits
    /// `ServiceStored`. On failure nothing changes.
    pub fn store(&mut self, caller: u64, service_id: u64, data_hash: Vec<u8>) -> (r: Result<
        (),
        Error,
    >)
        requires
            old(self).wf(),
        ensures
            final(self).wf(),
            r == old(self).store_result(service_id, data_hash@),
            r is Err ==> *final(self) == *old(self),
            r is Ok ==> final(self).data_of(service_id) == Some(data_hash@),
            r is Ok ==> final(self).escrow_of(service_id) == old(self).escrow_of(service_id),
            r is Ok ==> final(self).dispute_of(service_id) == old(self).dispute_of(service_id),
            r is Ok ==> final(self).log() == old(self).log().push(
                EscrowEvent::Stored(ServiceStored { service_id, caller }),
            ),
            forall|id: u64|
                id != service_id ==> #[trigger] final(self).data_of(id) == old(self).data_of(id),
            forall|id: u64|
                id != service_id ==> #[trigger] final(self).escrow_of(id) == old(self).escrow_of(
                    id,
                ),
            forall|id: u64|
                id != service_id ==> #[trigger] final(self).dispute_of(id) == old(
                    self,
                ).dispute_of(id),
            final(self).contract_owner() == old(self).contract_owner(),
            final(self).dispute_window() == old(self).dispute_window(),
    {
        if data_hash.len() == 0 {
            return Err(Error::InvalidData);
        }
        match self.position(service_id) {
            Some(i) => {
                proof {
                    lemma_find_slot_in_range(self.slots@, service_id);
                }
                if self.slots[i].data.is_some() {
                    return Err(Error::ServiceAlreadyExists);
                }
                let old_slot = &self.slots[i];
                let slot = ServiceSlot {
                    service_id,
                    data: Some(data_hash),
                    amount: old_slot.amount,
                    dispute: match &old_slot.dispute {
                        DisputeState::NoDispute => DisputeState::NoDispute,
                        DisputeState::Open { opened_at, reason } => DisputeState::Open {
                            opened_at: *opened_at,
                            reason: clone_bytes(reason),
                        },
                        DisputeState::Resolved => DisputeState::Resolved,
                    },
                };
                proof {
                    assert(slot.dispute@ == self.slots@[i as int].dispute@);
                }
                self.slots.set(i, slot);
                proof {
                    assert forall|id: u64|
                        id != service_id implies #[trigger] self.data_of(id) == old(
                        self,
                    ).data_of(id) by {
                        lemma_find_slot_update(old(self).slots@, i as int, slot, id);
                        lemma_find_slot_in_range(old(self).slots@, id);
                    }
                    assert forall|id: u64|
                        id != service_id implies #[trigger] self.escrow_of(id) == old(
                        self,
                    ).escrow_of(id) by {
                        lemma_find_slot_update(old(self).slots@, i as int, slot, id);
                        lemma_find_slot_in_range(old(self).slots@, id);
                    }
                    assert forall|id: u64|
                        id != service_id implies #[trigger] self.dispute_of(id) == old(
                        self,
                    ).dispute_of(id) by {
                        lemma_find_slot_update(old(self).slots@, i as int, slot, id);
                        lemma_find_slot_in_range(old(self).slots@, id);
                    }
                    lemma_find_slot_update(old(self).slots@, i as int, slot, service_id);
                }
            },
            None => {
                let slot = ServiceSlot {
                    service_id,
                    data: Some(data_hash),
                    amount: 0,
                    dispute: DisputeState::NoDispute,
                };
                proof {
                    lemma_find_slot_absent(self.slots@, service_id);
                }
                self.slots.push(slot);
                proof {
                    assert forall|id: u64|
                        id != service_id implies #[trigger] self.data_of(id) == old(
                        self,
                    ).data_of(id) by {
                        lemma_find_slot_push(old(self).slots@, slot, id);
                        lemma_find_slot_in_range(old(self).slots@, id);
                    }
                    assert forall|id: u64|
                        id != service_id implies #[trigger] self.escrow_of(id) == old(
                        self,
                    ).escrow_of(id) by {
                        lemma_find_slot_push(old(self).slots@, slot, id);
                        lemma_find_slot_in_range(old(self).slots@, id);
                    }
                    assert forall|id: u64|
                        id != service_id implies #[trigger] self.dispute_of(id) == old(
                        self,
                    ).dispute_of(id) by {
                        lemma_find_slot_push(old(self).slots@, slot, id);
                        lemma_find_slot_in_range(old(self).slots@, id);
                    }
                    lemma_find_slot_push(old(self).slots@, slot, service_id);
                }
            },
        }
        let ghost mid = *self;
        self.events.push(EscrowEvent::Stored(ServiceStored { service_id, caller }));
        proof {
            assert forall|id: u64|
                id != service_id implies #[trigger] self.data_of(id) == old(self).data_of(id) by {
                assert(mid.data_of(id) == old(self).data_of(id));
                assert(self.slots@ == mid.slots@);
            }
            assert forall|id: u64|
                id != service_id implies #[trigger] self.escrow_of(id) == old(self).escrow_of(
                id,
            ) by {
                assert(mid.data_of(id) == old(self).data_of(id));
                assert(mid.escrow_of(id) == old(self).escrow_of(id));
                assert(self.slots@ == mid.slots@);
            }
            assert forall|id: u64|
                id != service_id implies #[trigger] self.dispute_of(id) == old(self).dispute_of(
                id,
            ) by {
                assert(mid.data_of(id) == old(self).data_of(id));
                assert(mid.dispute_of(id) == old(self).dispute_of(id));
                assert(self.slots@ == mid.slots@);
            }
        }
        Ok(())
    }

    /// A copy of the stored verification data, if any.
    pub fn get(&self, service_id: u64) -> (r: Option<Vec<u8>>)
        ensures
            r is Some <==> self.data_of(service_id) is Some,
            r matches Some(d) ==> Some(d@) == self.data_of(service_id),
    {
        proof {
            lemma_find_slot_in_range(self.slots@, service_id);
        }
        match self.position(service_id) {
            Some(i) => match &self.slots[i].data {
                Some(d) => Some(clone_bytes(d)),
                None => None,
            },
            None => None,
        }
    }

    /// Whether a verification record exists for `service_id`.
    pub fn service_exists(&self, service_id: u64) -> (r: bool)
        ensures
            r == (self.data_of(service_id) is Some),
    {
        self.get(service_id).is_some()
    }

    /// The escrow balance held for `service_id`.
    pub fn escrow_balance(&self, service_id: u64) -> (r: u128)
        ensures
            r == self.escrow_of(service_id),
    {
        proof {
            lemma_find_slot_in_range(self.slots@, service_id);
        }
        match self.position(service_id) {
            Some(i) => self.slots[i].amount,
            None => 0,
        }
    }

    /// The events emitted so far, in order.
    pub fn events(&self) -> (r: &Vec<EscrowEvent>)
        ensures
            r@ == self.log(),
    {
        &self.events
    }

    /// Whether a dispute is currently open for `service_id`.
    pub fn dispute_is_open(&self, service_id: u64) -> (r: bool)
        ensures
            r == (self.dispute_of(service_id) is Open),
    {
        proof {
            lemma_find_slot_in_range(self.slots@, service_id);
        }
        match self.position(service_id) {
            Some(i) => matches!(self.slots[i].dispute, DisputeState::Open { .. }),
            None => false,
        }
    }

    /// Sets the escrow amount of `service_id`, creating an empty slot for a
    /// service that was never touched.
    fn set_amount(&mut self, service_id: u64, amount: u128)
        requires
            old(self).wf(),
        ensures
            final(self).wf(),
            final(self).escrow_of(service_id) == amount,
            final(self).data_of(service_id) == old(self).data_of(service_id),
            final(self).dispute_of(service_id) == old(self).dispute_of(service_id),
            forall|id: u64|
                id != service_id ==> #[trigger] final(self).data_of(id) == old(self).data_of(id),
            forall|id: u64|
                id != service_id ==> #[trigger] final(self).escrow_of(id) == old(self).escrow_of(
                    id,
                ),
            forall|id: u64|
                id != service_id ==> #[trigger] final(self).dispute_of(id) == old(
                    self,
                ).dispute_of(id),
            final(self).log() == old(self).log(),
            final(self).contract_owner() == old(self).contract_owner(),
            final(self).dispute_window() == old(self).dispute_window(),
    {
        match self.position(service_id) {
            Some(i) => {
                proof {
                    lemma_find_slot_in_range(self.slots@, service_id);
                }
                let old_slot = &self.slots[i];
                let slot = ServiceSlot {
                    service_id,
                    data: match &old_slot.data {
                        Some(d) => Some(clone_bytes(d)),
                        None => None,
                    },
                    amount,
                    dispute: match &old_slot.dispute {
                        DisputeState::NoDispute => DisputeState::NoDispute,
                        DisputeState::Open { opened_at, reason } => DisputeState::Open {
                            opened_at: *opened_at,
                            reason: clone_bytes(reason),
                        },
                        DisputeState::Resolved => DisputeState::Resolved,
                    },
                };
                proof {
                    assert(slot.dispute@ == self.slots@[i as int].dispute@);
                    assert(slot.data matches Some(d) ==> Some(d@) == self.data_of(service_id));
                    assert(slot.data is Some <==> self.data_of(service_id) is Some);
                }
                self.slots.set(i, slot);
                proof {
                    assert forall|id: u64|
                        id != service_id implies #[trigger] self.data_of(id) == old(
                        self,
                    ).data_of(id) by {
                        lemma_find_slot_update(old(self).slots@, i as int, slot, id);
                        lemma_find_slot_in_range(old(self).slots@, id);
                    }
                    assert forall|id: u64|
                        id != service_id implies #[trigger] self.escrow_of(id) == old(
                        self,
                    ).escrow_of(id) by {
                        lemma_find_slot_update(old(self).slots@, i as int, slot, id);
                        lemma_find_slot_in_range(old(self).slots@, id);
                    }
                    assert forall|id: u64|
                        id != service_id implies #[trigger] self.dispute_of(id) == old(
                        self,
                    ).dispute_of(id) by {
                        lemma_find_slot_update(old(self).slots@, i as int, slot, id);
                        lemma_find_slot_in_range(old(self).slots@, id);
                    }
                    lemma_find_slot_update(old(self).slots@, i as int, slot, service_id);
                }
            },
            None => {
                let slot = ServiceSlot {
                    service_id,
                    data: None,
                    amount,
                    dispute: DisputeState::NoDispute,
                };
                proof {
                    lemma_find_slot_absent(self.slots@, service_id);
                }
                self.slots.push(slot);
                proof {
                    assert forall|id: u64|
                        id != service_id implies #[trigger] self.data_of(id) == old(
                        self,
                    ).data_of(id) by {
                        lemma_find_slot_push(old(self).slots@, slot, id);
                        lemma_find_slot_in_range(old(self).slots@, id);
                    }
                    assert forall|id: u64|
                        id != service_id implies #[trigger] self.escrow_of(id) == old(
                        self,
                    ).escrow_of(id) by {
                        lemma_find_slot_push(old(self).slots@, slot, id);
                        lemma_find_slot_in_range(old(self).slots@, id);
                    }
                    assert forall|id: u64|
                        id != service_id implies #[trigger] self.dispute_of(id) == old(
                        self,
                    ).dispute_of(id) by {
                        lemma_find_slot_push(old(self).slots@, slot, id);
                        lemma_find_slot_in_range(old(self).slots@, id);
                    }
                    lemma_find_slot_push(old(self).slots@, slot, service_id);
                }
            },
        }
    }

    /// Sets the dispute state of `service_id`, creating an empty slot for a
    /// service that was never touched.
    fn set_dispute(&mut self, service_id: u64, dispute: DisputeState)
        requires
            old(self).wf(),
        ensures
            final(self).wf(),
            final(self).dispute_of(service_id) == dispute@,
            final(self).data_of(service_id) == old(self).data_of(service_id),
            final(self).escrow_of(service_id) == old(self).escrow_of(service_id),
            forall|id: u64|
                id != service_id ==> #[trigger] final(self).data_of(id) == old(self).data_of(id),
            forall|id: u64|
                id != service_id ==> #[trigger] final(self).escrow_of(id) == old(self).escrow_of(
                    id,
                ),
            forall|id: u64|
                id != service_id ==> #[trigger] final(self).dispute_of(id) == old(
                    self,
                ).dispute_of(id),
            final(self).log() == old(self).log(),
            final(self).contract_owner() == old(self).contract_owner(),
            final(self).dispute_window() == old(self).dispute_window(),
    {
        let ghost dispute_view = dispute@;
        match self.position(service_id) {
            Some(i) => {
                proof {
                    lemma_find_slot_in_range(self.slots@, service_id);
                }
                let old_slot = &self.slots[i];
                let slot = ServiceSlot {
                    service_id,
                    data: match &old_slot.data {
                        Some(d) => Some(clone_bytes(d)),
                        None => None,
                    },
                    amount: old_slot.amount,
                    dispute,
                };
                proof {
                    assert(slot.dispute@ == dispute_view);
                    assert(slot.data matches Some(d) ==> Some(d@) == self.data_of(service_id));
                    assert(slot.data is Some <==> self.data_of(service_id) is Some);
                }
                self.slots.set(i, slot);
                proof {
                    assert forall|id: u64|
                        id != service_id implies #[trigger] self.data_of(id) == old(
                        self,
                    ).data_of(id) by {
                        lemma_find_slot_update(old(self).slots@, i as int, slot, id);
                        lemma_find_slot_in_range(old(self).slots@, id);
                    }
                    assert forall|id: u64|
                        id != service_id implies #[trigger] self.escrow_of(id) == old(
                        self,
                    ).escrow_of(id) by {
                        lemma_find_slot_update(old(self).slots@, i as int, slot, id);
                        lemma_find_slot_in_range(old(self).slots@, id);
                    }
                    assert forall|id: u64|
                        id != service_id implies #[trigger] self.dispute_of(id) == old(
                        self,
                    ).dispute_of(id) by {
                        lemma_find_slot_update(old(self).slots@, i as int, slot, id);
                        lemma_find_slot_in_range(old(self).slots@, id);
                    }
                    lemma_find_slot_update(old(self).slots@, i as int, slot, service_id);
                }
            },
            None => {
                let slot = ServiceSlot { service_id, data: None, amount: 0, dispute };
                proof {
                    lemma_find_slot_absent(self.slots@, service_id);
                }
                self.slots.push(slot);
                proof {
                    assert forall|id: u64|
                        id != service_id implies #[trigger] self.data_of(id) == old(
                        self,
                    ).data_of(id) by {
                        lemma_find_slot_push(old(self).slots@, slot, id);
                        lemma_find_slot_in_range(old(self).slots@, id);
                    }
                    assert forall|id: u64|
                        id != service_id implies #[trigger] self.escrow_of(id) == old(
                        self,
                    ).escrow_of(id) by {
                        lemma_find_slot_push(old(self).slots@, slot, id);
                        lemma_find_slot_in_range(old(self).slots@, id);
                    }
                    assert forall|id: u64|
                        id != service_id implies #[trigger] self.dispute_of(id) == old(
                        self,
                    ).dispute_of(id) by {
                        lemma_find_slot_push(old(self).slots@, slot, id);
                        lemma_find_slot_in_range(old(self).slots@, id);
                    }
                    lemma_find_slot_push(old(self).slots@, slot, service_id);
                }
            },
        }
    }

    /// The exact outcome of `deposit_escrow`: a deposit of zero is refused;
    /// otherwise the new total is returned.
    pub open spec fn deposit_result(self, service_id: u64, value: u128) -> Result<
        u128,
        Error,
    > {
        if value == 0 {
            Err(Error::NoEscrowBalance)
        } else {
            Ok((self.escrow_of(service_id) + value) as u128)
        }
    }

    /// Adds the transferred `value` to the escrow held for `service_id` and
    /// emits `EscrowDeposited`. On failure nothing changes.
    pub fn deposit_escrow(&mut self, caller: u64, service_id: u64, value: u128) -> (r: Result<
        u128,
        Error,
    >)
        requires
            old(self).wf(),
            old(self).escrow_of(service_id) + value <= u128::MAX,
        ensures
            final(self).wf(),
            r == old(self).deposit_result(service_id, value),
            r is Err ==> *final(self) == *old(self),
            r is Ok ==> final(self).escrow_of(service_id) == old(self).escrow_of(service_id)
                + value,
            r is Ok ==> final(self).data_of(service_id) == old(self).data_of(service_id),
            r is Ok ==> final(self).dispute_of(service_id) == old(self).dispute_of(service_id),
            r is Ok ==> final(self).log() == old(self).log().push(
                EscrowEvent::Deposited(
                    EscrowDeposited { service_id, amount: value, depositor: caller },
                ),
            ),
            forall|id: u64|
                id != service_id ==> #[trigger] final(self).data_of(id) == old(self).data_of(id),
            forall|id: u64|
                id != service_id ==> #[trigger] final(self).escrow_of(id) == old(self).escrow_of(
                    id,
                ),
            forall|id: u64|
                id != service_id ==> #[trigger] final(self).dispute_of(id) == old(
                    self,
                ).dispute_of(id),
            final(self).contract_owner() == old(self).contract_owner(),
            final(self).dispute_window() == old(self).dispute_window(),
    {
        if value == 0 {
            return Err(Error::NoEscrowBalance);
        }
        let prev = self.escrow_balance(service_id);
        let total = prev + value;
        self.events.push(
            EscrowEvent::Deposited(
                EscrowDeposited { service_id, amount: value, depositor: caller },
            ),
        );
        self.set_amount(service_id, total);
        Ok(total)
    }

    /// Takes `amount` out of the escrow of `service_id` and records the
    /// payout to `to` with an `EscrowReleased` event; the hosting chain
    /// performs the actual transfer. On failure nothing changes.
    fn transfer_and_update(&mut self, to: u64, service_id: u64, amount: u128) -> (r: Result<
        (),
        Error,
    >)
        requires
            old(self).wf(),
        ensures
            final(self).wf(),
            r == if amount == 0 || old(self).escrow_of(service_id) < amount {
                Err::<(), Error>(Error::NoEscrowBalance)
            } else {
                Ok::<(), Error>(())
            },
            r is Err ==> *final(self) == *old(self),
            r is Ok ==> final(self).escrow_of(service_id) == old(self).escrow_of(service_id)
                - amount,
            r is Ok ==> final(self).data_of(service_id) == old(self).data_of(service_id),
            r is Ok ==> final(self).dispute_of(service_id) == old(self).dispute_of(service_id),
            r is Ok ==> final(self).log() == old(self).log().push(
                EscrowEvent::Released(EscrowReleased { service_id, amount, to }),
            ),
            forall|id: u64|
                id != service_id ==> #[trigger] final(self).data_of(id) == old(self).data_of(id),
            forall|id: u64|
                id != service_id ==> #[trigger] final(self).escrow_of(id) == old(self).escrow_of(
                    id,
                ),
            forall|id: u64|
                id != service_id ==> #[trigger] final(self).dispute_of(id) == old(
                    self,
                ).dispute_of(id),
            final(self).contract_owner() == old(self).contract_owner(),
            final(self).dispute_window() == old(self).dispute_window(),
    {
        if amount == 0 {
            return Err(Error::NoEscrowBalance);
        }
        let prev = self.escrow_balance(service_id);
        if prev < amount {
            return Err(Error::NoEscrowBalance);
        }
        let remaining = prev - amount;
        self.events.push(EscrowEvent::Released(EscrowReleased { service_id, amount, to }));
        self.set_amount(service_id, remaining);
        Ok(())
    }

    /// The exact outcome of `release_escrow`: only the owner may release,
    /// an open dispute blocks it, and an empty escrow is refused.
    pub open spec fn release_result(self, caller: u64, service_id: u64) -> Result<
        (),
        Error,
    > {
        if caller != self.contract_owner() {
            Err(Error::NotAuthorized)
        } else if self.dispute_of(service_id) is Open {
            Err(Error::DisputeOpen)
        } else if self.escrow_of(service_id) == 0 {
            Err(Error::NoEscrowBalance)
        } else {
            Ok(())
        }
    }

    /// Pays the whole escrow of `service_id` out to `to`; only the owner
    /// may release, and not while a dispute is open. On failure nothing
    /// changes.
    pub fn release_escrow(&mut self, caller: u64, service_id: u64, to: u64) -> (r: Result<
        (),
        Error,
    >)
        requires
            old(self).wf(),
        ensures
            final(self).wf(),
            r == old(self).release_result(caller, service_id),
            r is Err ==> *final(self) == *old(self),
            r is Ok ==> final(self).escrow_of(service_id) == 0,
            r is Ok ==> final(self).data_of(service_id) == old(self).data_of(service_id),
            r is Ok ==> final(self).dispute_of(service_id) == old(self).dispute_of(service_id),
            r is Ok ==> final(self).log() == old(self).log().push(
                EscrowEvent::Released(
                    EscrowReleased { service_id, amount: old(self).escrow_of(service_id), to },
                ),
            ),
            forall|id: u64|
                id != service_id ==> #[trigger] final(self).data_of(id) == old(self).data_of(id),
            forall|id: u64|
                id != service_id ==> #[trigger] final(self).escrow_of(id) == old(self).escrow_of(
                    id,
                ),
            forall|id: u64|
                id != service_id ==> #[trigger] final(self).dispute_of(id) == old(
                    self,
                ).dispute_of(id),
            final(self).contract_owner() == old(self).contract_owner(),
            final(self).dispute_window() == old(self).dispute_window(),
    {
        if caller != self.owner {
            return Err(Error::NotAuthorized);
        }
        if self.dispute_is_open(service_id) {
            return Err(Error::DisputeOpen);
        }
        let amount = self.escrow_balance(service_id);
        if amount == 0 {
            return Err(Error::NoEscrowBalance);
        }
        self.transfer_and_update(to, service_id, amount)
    }

    /// The exact outcome of `open_dispute`: the service must exist.
    pub open spec fn open_dispute_result(self, service_id: u64) -> Result<(), Error> {
        if self.data_of(service_id) is None {
            Err(Error::ServiceNotFound)
        } else {
            Ok(())
        }
    }

    /// Opens a dispute for a stored service, stamped with the host
    /// timestamp `now_ms`, and emits `DisputeOpened`. Anyone may open one;
    /// on failure nothing changes.
    pub fn open_dispute(
        &mut self,
        caller: u64,
        service_id: u64,
        reason: Vec<u8>,
        now_ms: u64,
    ) -> (r: Result<(), Error>)
        requires
            old(self).wf(),
        ensures
            final(self).wf(),
            r == old(self).open_dispute_result(service_id),
            r is Err ==> *final(self) == *old(self),
            r is Ok ==> final(self).dispute_of(service_id) == (DisputeStateView::Open {
                opened_at: now_ms,
                reason: reason@,
            }),
            r is Ok ==> final(self).data_of(service_id) == old(self).data_of(service_id),
            r is Ok ==> final(self).escrow_of(service_id) == old(self).escrow_of(service_id),
            r is Ok ==> final(self).log() == old(self).log().push(
                EscrowEvent::Dispute(DisputeOpened { service_id, opener: caller }),
            ),
            forall|id: u64|
                id != service_id ==> #[trigger] final(self).data_of(id) == old(self).data_of(id),
            forall|id: u64|
                id != service_id ==> #[trigger] final(self).escrow_of(id) == old(self).escrow_of(
                    id,
                ),
            forall|id: u64|
                id != service_id ==> #[trigger] final(self).dispute_of(id) == old(
                    self,
                ).dispute_of(id),
            final(self).contract_owner() == old(self).contract_owner(),
            final(self).dispute_window() == old(self).dispute_window(),
    {
        if !self.service_exists(service_id) {
            return Err(Error::ServiceNotFound);
        }
        self.events.push(EscrowEvent::Dispute(DisputeOpened { service_id, opener: caller }));
        self.set_dispute(service_id, DisputeState::Open { opened_at: now_ms, reason });
        Ok(())
    }

    /// The exact outcome of `resolve_dispute_release`: only the owner may
    /// resolve; the payout itself fails on a zero amount or an escrow that
    /// cannot cover it.
    pub open spec fn resolve_result(self, caller: u64, service_id: u64, amount: u128) -> Result<
        (),
        Error,
    > {
        if caller != self.contract_owner() {
            Err(Error::NotAuthorized)
        } else if amount == 0 || self.escrow_of(service_id) < amount {
            Err(Error::NoEscrowBalance)
        } else {
            Ok(())
        }
    }

    /// Resolves the dispute of `service_id` and pays `amount` out to `to`.
    /// The dispute is marked `Resolved` before the payout is attempted, so
    /// a failing payout still leaves the dispute resolved — exactly the
    /// order the contract commits its state in.
    pub fn resolve_dispute_release(
        &mut self,
        caller: u64,
        service_id: u64,
        to: u64,
        amount: u128,
    ) -> (r: Result<(), Error>)
        requires
            old(self).wf(),
        ensures
            final(self).wf(),
            r == old(self).resolve_result(caller, service_id, amount),
            caller != old(self).contract_owner() ==> *final(self) == *old(self),
            caller == old(self).contract_owner() ==> final(self).dispute_of(service_id)
                is Resolved,
            caller == old(self).contract_owner() ==> final(self).data_of(service_id) == old(
                self,
            ).data_of(service_id),
            r is Ok ==> final(self).escrow_of(service_id) == old(self).escrow_of(service_id)
                - amount,
            r is Ok ==> final(self).log() == old(self).log().push(
                EscrowEvent::Released(EscrowReleased { service_id, amount, to }),
            ),
            r is Err && caller == old(self).contract_owner() ==> final(self).escrow_of(service_id)
                == old(self).escrow_of(service_id),
            r is Err && caller == old(self).contract_owner() ==> final(self).log() == old(
                self,
            ).log(),
            forall|id: u64|
                id != service_id ==> #[trigger] final(self).data_of(id) == old(self).data_of(id),
            forall|id: u64|
                id != service_id ==> #[trigger] final(self).escrow_of(id) == old(self).escrow_of(
                    id,
                ),
            forall|id: u64|
                id != service_id ==> #[trigger] final(self).dispute_of(id) == old(
                    self,
                ).dispute_of(id),
            final(self).contract_owner() == old(self).contract_owner(),
            final(self).dispute_window() == old(self).dispute_window(),
    {
        if caller != self.owner {
            return Err(Error::NotAuthorized);
        }
        self.set_dispute(service_id, DisputeState::Resolved);
        self.transfer_and_update(to, service_id, amount)
    }
}

} // verus!
