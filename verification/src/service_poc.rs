//! First cut of the service-verification contract: verification records
//! alone, with in-place update and no escrow. The hosting chain supplies
//! the caller as a plain argument.

use vstd::prelude::*;
use crate::proposal::clone_bytes;

verus! {

/// Why a verification operation was refused.
#[derive(Clone, Copy, Debug, PartialEq, Eq, Structural)]
pub enum Error {
    /// A record already exists under the service id.
    ServiceAlreadyExists,
    /// No record exists under the service id.
    ServiceNotFound,
    /// The data hash is empty.
    InvalidData,
}

/// Event: a verification record was stored or updated.
#[derive(Clone, Copy, Debug, PartialEq, Eq, Structural)]
pub struct ServiceStored {
    pub service_id: u64,
    pub caller: u64,
}

/// One verification record.
struct Record {
    service_id: u64,
    data: Vec<u8>,
}

/// The record for `service_id` in `s`, by index; the last matching record
/// decides, and with unique ids there is at most one.
spec fn find_record(s: Seq<Record>, service_id: u64) -> Option<int>
    decreases s.len(),
{
    if s.len() == 0 {
        None
    } else if s.last().service_id == service_id {
        Some(s.len() - 1)
    } else {
        find_record(s.drop_last(), service_id)
    }
}

proof fn lemma_find_record_absent(s: Seq<Record>, service_id: u64)
    requires
        find_record(s, service_id) is None,
    ensures
        forall|i: int| 0 <= i < s.len() ==> (#[trigger] s[i]).service_id != service_id,
    decreases s.len(),
{
    if s.len() > 0 {
        lemma_find_record_absent(s.drop_last(), service_id);
        assert(forall|i: int| 0 <= i < s.len() - 1 ==> s[i] == s.drop_last()[i]);
    }
}

proof fn lemma_find_record_in_range(s: Seq<Record>, service_id: u64)
    ensures
        find_record(s, service_id) matches Some(i) ==> 0 <= i < s.len() && s[i].service_id
            == service_id,
    decreases s.len(),
{
    if s.len() > 0 {
        lemma_find_record_in_range(s.drop_last(), service_id);
        assert(forall|i: int| 0 <= i < s.len() - 1 ==> s[i] == s.drop_last()[i]);
    }
}

proof fn lemma_find_record_push(s: Seq<Record>, rec: Record, service_id: u64)
    ensures
        find_record(s.push(rec), service_id) == if rec.service_id == service_id {
            Some(s.len() as int)
        } else {
            find_record(s, service_id)
        },
{
    assert(s.push(rec).last() == rec);
    assert(s.push(rec).drop_last() =~= s);
}

proof fn lemma_find_record_update(s: Seq<Record>, i: int, rec: Record, service_id: u64)
    requires
        0 <= i < s.len(),
        s[i].service_id == rec.service_id,
    ensures
        find_record(s.update(i, rec), service_id) == find_record(s, service_id),
    decreases s.len(),
{
    let t = s.update(i, rec);
    if i == s.len() - 1 {
        assert(t.last() == rec);
        assert(t.drop_last() =~= s.drop_last());
    } else {
        assert(t.last() == s.last());
        assert(t.drop_last() =~= s.drop_last().update(i, rec));
        assert(s.drop_last()[i] == s[i]);
        lemma_find_record_update(s.drop_last(), i, rec, service_id);
    }
}

/// Keyed store of service-verification hashes.
pub struct ServiceVerificationPoc {
    records: Vec<Record>,
    events: Vec<ServiceStored>,
}

impl ServiceVerificationPoc {
    /// The stored verification data of a service, if any.
    pub closed spec fn data_of(self, service_id: u64) -> Option<Seq<u8>> {
        match find_record(self.records@, service_id) {
            Some(i) => Some(self.records@[i].data@),
            None => None,
        }
    }

    /// The events emitted so far, in order.
    pub closed spec fn log(self) -> Seq<ServiceStored> {
        self.events@
    }

    /// Service ids are unique.
    pub closed spec fn wf(self) -> bool {
        forall|k: int, l: int|
            0 <= k < l < self.records@.len() ==> (#[trigger] self.records@[k]).service_id != (
            #[trigger] self.records@[l]).service_id
    }

    /// A fresh, empty store.
    pub fn new() -> (r: Self)
        ensures
            r.wf(),
            forall|id: u64| #[trigger] r.data_of(id) is None,
            r.log() == Seq::<ServiceStored>::empty(),
    {
        let r = ServiceVerificationPoc { records: Vec::new(), events: Vec::new() };
        proof {
            assert(r.log() =~= Seq::<ServiceStored>::empty());
        }
        r
    }

    /// Index of the record for `service_id`, if any.
    fn position(&self, service_id: u64) -> (r: Option<usize>)
        ensures
            r matches Some(i) ==> find_record(self.records@, service_id) == Some(i as int),
            r is None ==> find_record(self.records@, service_id) is None,
    {
        let mut i: usize = self.records.len();
        proof {
            assert(self.records@.take(i as int) =~= self.records@);
        }
        while i > 0
            invariant
                i <= self.records@.len(),
                find_record(self.records@, service_id) == find_record(
                    self.records@.take(i as int),
                    service_id,
                ),
            decreases i,
        {
            i = i - 1;
            proof {
                assert(self.records@.take(i as int + 1).last() == self.records@[i as int]);
                assert(self.records@.take(i as int + 1).drop_last() =~= self.records@.take(
                    i as int,
                ));
            }
            if self.records[i].service_id == service_id {
                return Some(i);
            }
        }
        None
    }

    /// The exact outcome of `store`: the data must not be empty and the
    /// service id must be fresh.
    pub open spec fn store_result(self, service_id: u64, data_hash: Seq<u8>) -> Result<
        (),
        Error,
    > {
        if data_hash.len() == 0 {
            Err(Error::InvalidData)
        } else if self.data_of(service_id) is Some {
            Err(Error::ServiceAlreadyExists)
        } else {
            Ok(())
        }
    }

    /// Stores a verification record for a fresh service id and emits
    /// `ServiceStored`. On failure nothing changes.
    pub fn store(&mut self, caller: u64, service_id: u64, data_hash: Vec<u8>) -> (r: Result<
        (),
        Error,
    >)
        requires
            old(self).wf(),
        ensures
            final(self).wf(),
            r == old(self).store_result(service_id, data_hash@),
            r is Err ==> *final(self) == *old(self),
            r is Ok ==> final(self).data_of(service_id) == Some(data_hash@),
            r is Ok ==> final(self).log() == old(self).log().push(
                ServiceStored { service_id, caller },
            ),
            forall|id: u64|
                id != service_id ==> #[trigger] final(self).data_of(id) == old(self).data_of(id),
    {
        if data_hash.len() == 0 {
            return Err(Error::InvalidData);
        }
        match self.position(service_id) {
            Some(_) => {
                proof {
                    lemma_find_record_in_range(self.records@, service_id);
                }
                Err(Error::ServiceAlreadyExists)
            },
            None => {
                let rec = Record { service_id, data: data_hash };
                proof {
                    lemma_find_record_absent(self.records@, service_id);
                }
                self.records.push(rec);
                let ghost mid = *self;
                self.events.push(ServiceStored { service_id, caller });
                proof {
                    assert forall|id: u64|
                        id != service_id implies #[trigger] self.data_of(id) == old(
                        self,
                    ).data_of(id) by {
                        lemma_find_record_push(old(self).records@, rec, id);
                        lemma_find_record_in_range(old(self).records@, id);
                        assert(mid.data_of(id) == old(self).data_of(id));
                        assert(self.records@ == mid.records@);
                    }
                    lemma_find_record_push(old(self).records@, rec, service_id);
                }
                Ok(())
            },
        }
    }

    /// A copy of the stored verification data, if any.
    pub fn get(&self, service_id: u64) -> (r: Option<Vec<u8>>)
        ensures
            r is Some <==> self.data_of(service_id) is Some,
            r matches Some(d) ==> Some(d@) == self.data_of(service_id),
    {
        proof {
            lemma_find_record_in_range(self.records@, service_id);
        }
        match self.position(service_id) {
            Some(i) => Some(clone_bytes(&self.records[i].data)),
            None => None,
        }
    }

    /// The exact outcome of `update`: the data must not be empty and the
    /// service id must already have a record.
    pub open spec fn update_result(self, service_id: u64, data_hash: Seq<u8>) -> Result<
        (),
        Error,
    > {
        if data_hash.len() == 0 {
            Err(Error::InvalidData)
        } else if self.data_of(service_id) is None {
            Err(Error::ServiceNotFound)
        } else {
            Ok(())
        }
    }

    /// Replaces the verification record of an existing service id and
    /// emits `ServiceStored`. On failure nothing changes.
    pub fn update(&mut self, caller: u64, service_id: u64, data_hash: Vec<u8>) -> (r: Result<
        (),
        Error,
    >)
        requires
            old(self).wf(),
        ensures
            final(self).wf(),
            r == old(self).update_result(service_id, data_hash@),
            r is Err ==> *final(self) == *old(self),
            r is Ok ==> final(self).data_of(service_id) == Some(data_hash@),
            r is Ok ==> final(self).log() == old(self).log().push(
                ServiceStored { service_id, caller },
            ),
            forall|id: u64|
                id != service_id ==> #[trigger] final(self).data_of(id) == old(self).data_of(id),
    {
        if data_hash.len() == 0 {
            return Err(Error::InvalidData);
        }
        match self.position(service_id) {
            None => Err(Error::ServiceNotFound),
            Some(i) => {
                proof {
                    lemma_find_record_in_range(self.records@, service_id);
                }
                let rec = Record { service_id, data: data_hash };
                self.records.set(i, rec);
                let ghost mid = *self;
                self.events.push(ServiceStored { service_id, caller });
                proof {
                    assert forall|id: u64|
                        id != service_id implies #[trigger] self.data_of(id) == old(
                        self,
                    ).data_of(id) by {
                        lemma_find_record_update(old(self).records@, i as int, rec, id);
                        lemma_find_record_in_range(old(self).records@, id);
                        assert(mid.data_of(id) == old(self).data_of(id));
                        assert(self.records@ == mid.records@);
                    }
                    lemma_find_record_update(old(self).records@, i as int, rec, service_id);
                }
                Ok(())
            },
        }
    }

    /// Whether a verification record exists for `service_id`.
    pub fn service_exists(&self, service_id: u64) -> (r: bool)
        ensures
            r == (self.data_of(service_id) is Some),
    {
        self.get(service_id).is_some()
    }

    /// The events emitted so far, in order.
    pub fn events(&self) -> (r: &Vec<ServiceStored>)
        ensures
            r@ == self.log(),
    {
        &self.events
    }
}

impl Default for ServiceVerificationPoc {
    /// Same as [`ServiceVerificationPoc::new`].
    fn default() -> (r: Self)
        ensures
            r.wf(),
            forall|id: u64| #[trigger] r.data_of(id) is None,
            r.log() == Seq::<ServiceStored>::empty(),
    {
        ServiceVerificationPoc::new()
    }
}

} // verus!
