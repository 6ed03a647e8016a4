//! The client record store: one record per registered client identity,
//! held in registration order, which is the order the dispatch scan walks.

use vstd::prelude::*;

use crate::alg::{CrcAlg, ReturnCode};

verus! {

/// A stable, unique handle identifying one requesting client.
pub type ClientId = u32;

/// An opaque handle naming a client's registered result callback.
pub type CallbackHandle = u32;

/// An opaque handle naming a client's shared buffer region.
pub type BufferHandle = u32;

/// The bookkeeping for one registered client.
#[derive(Clone, Copy, PartialEq, Eq, Debug)]
pub struct App {
    /// The identity this record belongs to.
    pub id: ClientId,
    /// Where results are delivered; absent until the client subscribes.
    pub callback: Option<CallbackHandle>,
    /// The region a computation runs over; absent until the client shares one.
    pub buffer: Option<BufferHandle>,
    /// The requested algorithm, `Some` exactly while a request is
    /// outstanding for this client (queued or running on the hardware).
    pub waiting: Option<CrcAlg>,
}

/// Why a record lookup or creation failed. Such a failure never touches
/// any other record.
#[derive(Clone, Copy, PartialEq, Eq, Structural, Debug)]
pub enum StoreError {
    /// No record exists for the identity: the client never registered,
    /// or it has terminated and its record was removed.
    UnknownClient,
    /// The store cannot hold a record for another client.
    CapacityExhausted,
}

impl StoreError {
    /// The protocol-level failure a store failure surfaces as.
    pub fn to_return_code(self) -> (r: ReturnCode)
        ensures
            self == StoreError::UnknownClient ==> r == ReturnCode::UnknownClient,
            self == StoreError::CapacityExhausted ==> r == ReturnCode::ResourceExhausted,
    {
        match self {
            StoreError::UnknownClient => ReturnCode::UnknownClient,
            StoreError::CapacityExhausted => ReturnCode::ResourceExhausted,
        }
    }
}

/// Whether some record in `recs` belongs to `id`.
pub open spec fn has_id(recs: Seq<App>, id: ClientId) -> bool {
    exists|i: int| #![auto] 0 <= i < recs.len() && recs[i].id == id
}

/// Every record belongs to a different identity.
pub open spec fn unique_ids(recs: Seq<App>) -> bool {
    forall|i: int, j: int| #![auto]
        0 <= i < recs.len() && 0 <= j < recs.len() && i != j ==> recs[i].id != recs[j].id
}

/// The record belonging to `id`; meaningful when `has_id(recs, id)` and
/// `unique_ids(recs)` hold.
pub open spec fn record_of(recs: Seq<App>, id: ClientId) -> App {
    recs[choose|i: int| #![auto] 0 <= i < recs.len() && recs[i].id == id]
}

/// Two records with the same identity are the same record.
pub proof fn lemma_id_index_unique(recs: Seq<App>, i: int, j: int)
    requires
        unique_ids(recs),
        0 <= i < recs.len(),
        0 <= j < recs.len(),
        recs[i].id == recs[j].id,
    ensures
        i == j,
{
}

/// `record_of` agrees with indexing: the record of `recs[i].id` is `recs[i]`.
pub proof fn lemma_record_of(recs: Seq<App>, i: int)
    requires
        unique_ids(recs),
        0 <= i < recs.len(),
    ensures
        has_id(recs, recs[i].id),
        record_of(recs, recs[i].id) == recs[i],
{
    let id = recs[i].id;
    assert(has_id(recs, id));
    let j = choose|j: int| #![auto] 0 <= j < recs.len() && recs[j].id == id;
    lemma_id_index_unique(recs, i, j);
}

/// The record store. Records are created lazily, on a client's first
/// registration, and stay in creation order; the store holds at most
/// `capacity` of them.
pub struct ClientStore {
    /// The records, in registration order.
    pub records: Vec<App>,
    /// How many records the store can hold.
    pub capacity: usize,
}

impl ClientStore {
    /// Well-formedness: identities are unique and the store is within
    /// its capacity.
    pub open spec fn wf(self) -> bool {
        &&& unique_ids(self.records@)
        &&& self.records@.len() <= self.capacity
    }

    /// An empty store with room for up to `capacity` records.
    pub fn new(capacity: usize) -> (s: ClientStore)
        ensures
            s.wf(),
            s.records@.len() == 0,
            s.capacity == capacity,
    {
        ClientStore { records: Vec::new(), capacity }
    }

    /// The index of `id`'s record, if the client is known.
    fn index_of(&self, id: ClientId) -> (r: Option<usize>)
        ensures
            r matches Some(i) ==> 0 <= i < self.records@.len() && self.records@[i as int].id == id,
            r is None ==> !has_id(self.records@, id),
    {
        let n: usize = self.records.len();
        let mut i: usize = 0;
        while i < n
            invariant
                n == self.records@.len(),
                0 <= i <= n,
                forall|j: int| #![auto] 0 <= j < i ==> self.records@[j].id != id,
            decreases n - i,
        {
            if self.records[i].id == id {
                return Some(i);
            }
            i = i + 1;
        }
        None
    }

    /// Looks up `id`'s record without creating one. A failed lookup (the
    /// client is unknown or has terminated) is reported, never a panic.
    pub fn lookup(&self, id: ClientId) -> (r: Result<usize, StoreError>)
        ensures
            r matches Ok(i) ==> 0 <= i < self.records@.len() && self.records@[i as int].id == id,
            r matches Err(e) ==> e == StoreError::UnknownClient && !has_id(self.records@, id),
    {
        match self.index_of(id) {
            Some(i) => Ok(i),
            None => Err(StoreError::UnknownClient),
        }
    }

    /// Finds `id`'s record, creating an empty one if the client is new and
    /// there is room. Exhaustion is reported and changes nothing.
    pub fn enter_or_create(&mut self, id: ClientId) -> (r: Result<usize, StoreError>)
        requires
            old(self).wf(),
        ensures
            final(self).wf(),
            final(self).capacity == old(self).capacity,
            r matches Ok(i) ==> {
                &&& 0 <= i < final(self).records@.len()
                &&& final(self).records@[i as int].id == id
                &&& if has_id(old(self).records@, id) {
                        *final(self) == *old(self)
                    } else {
                        &&& old(self).records@.len() < old(self).capacity
                        &&& i == old(self).records@.len()
                        &&& final(self).records@ == old(self).records@.push(
                            (App { id: id, callback: None, buffer: None, waiting: None }),
                        )
                    }
            },
            r matches Err(e) ==> {
                &&& *final(self) == *old(self)
                &&& e == StoreError::CapacityExhausted
                &&& !has_id(old(self).records@, id)
                &&& old(self).records@.len() >= old(self).capacity
            },
    {
        match self.index_of(id) {
            Some(i) => Ok(i),
            None => {
                if self.records.len() < self.capacity {
                    let i = self.records.len();
                    self.records.push(App { id: id, callback: None, buffer: None, waiting: None });
                    proof {
                        let s = old(self).records@;
                        let s2 = self.records@;
                        assert forall|a: int, b: int|
                            0 <= a < s2.len() && 0 <= b < s2.len() && a != b
                            implies s2[a].id != s2[b].id by {
                            if a < s.len() && b < s.len() {
                                assert(s2[a] == s[a] && s2[b] == s[b]);
                            } else if a == s.len() {
                                assert(s2[b] == s[b]);
                                if s[b].id == id {
                                    assert(has_id(s, id));
                                }
                            } else {
                                assert(s2[a] == s[a]);
                                if s[a].id == id {
                                    assert(has_id(s, id));
                                }
                            }
                        }
                    }
                    Ok(i)
                } else {
                    Err(StoreError::CapacityExhausted)
                }
            },
        }
    }

    /// Removes `id`'s record: the client has terminated. Later records keep
    /// their relative order; an unknown identity is reported and changes
    /// nothing.
    pub fn remove(&mut self, id: ClientId) -> (r: Result<(), StoreError>)
        requires
            old(self).wf(),
        ensures
            final(self).wf(),
            final(self).capacity == old(self).capacity,
            r is Ok ==> exists|i: int| #![auto]
                0 <= i < old(self).records@.len()
                && old(self).records@[i].id == id
                && final(self).records@ == old(self).records@.remove(i),
            r matches Err(e) ==> {
                &&& e == StoreError::UnknownClient
                &&& !has_id(old(self).records@, id)
                &&& *final(self) == *old(self)
            },
    {
        match self.index_of(id) {
            Some(i) => {
                self.records.remove(i);
                proof {
                    let s = old(self).records@;
                    let s2 = self.records@;
                    assert forall|a: int, b: int|
                        0 <= a < s2.len() && 0 <= b < s2.len() && a != b
                        implies s2[a].id != s2[b].id by {
                        let a0: int = if a < i { a } else { a + 1 };
                        let b0: int = if b < i { b } else { b + 1 };
                        assert(s2[a] == s[a0]);
                        assert(s2[b] == s[b0]);
                    }
                }
                Ok(())
            },
            None => Err(StoreError::UnknownClient),
        }
    }
}

} // verus!
