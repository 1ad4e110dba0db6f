//! The capacity-bounded priority queue: the same ordering contract as the
//! unbounded queue, with a fixed element limit that can only grow.

use vstd::prelude::*;

use crate::queue::prelude::{Prio, QueueError, QueueFlag, Queueable};
use crate::queue::store::{
    find_id_index, has_id, ids_below, ids_distinct, lemma_remove_keeps_wf, payload_refs,
    sorted_flags, stamped_insert, stamps_at_most, stamps_follow_ids,
};

verus! {

/// A queue with the ordering rules of [`crate::queue::Queue`] and a maximum
/// element count. A push against a full queue is rejected and mutates
/// nothing; the capacity can be expanded but never shrunk.
pub struct SizedQueue<T: Queueable> {
    ordered: Vec<(QueueFlag, T)>,
    counter: u32,
    floor: u64,
    cap: u32,
}

impl<T: Queueable> SizedQueue<T> {
    /// The stored entries, in the order pops will serve them.
    pub closed spec fn entries(&self) -> Seq<(QueueFlag, T)> {
        self.ordered@
    }

    /// The next identifier to be issued.
    pub closed spec fn id_counter(&self) -> u32 {
        self.counter
    }

    /// The largest timestamp stamped so far; later stamps never fall below it.
    pub closed spec fn time_floor(&self) -> u64 {
        self.floor
    }

    /// The maximum element count.
    pub closed spec fn capacity(&self) -> u32 {
        self.cap
    }

    /// Well-formedness: the ordering and identifier facts of the unbounded
    /// queue, and never more elements than the capacity allows.
    pub open spec fn wf(&self) -> bool {
        &&& sorted_flags(self.entries())
        &&& ids_below(self.entries(), self.id_counter())
        &&& ids_distinct(self.entries())
        &&& stamps_at_most(self.entries(), self.time_floor())
        &&& stamps_follow_ids(self.entries())
        &&& self.entries().len() <= self.id_counter()
        &&& self.entries().len() <= self.capacity()
    }

    /// Creates an empty queue that will hold at most `size` elements.
    pub fn new(size: u32) -> (r: Self)
        ensures
            r.wf(),
            r.entries() == Seq::<(QueueFlag, T)>::empty(),
            r.id_counter() == 0,
            r.capacity() == size,
    {
        Self { ordered: Vec::new(), counter: 0, floor: 0, cap: size }
    }

    /// Pushes a prioritized item, exactly as the unbounded queue does, unless
    /// the queue is full: then the push fails with `QueueFull` and mutates
    /// nothing. A full queue is reported before any other failure.
    pub fn push(&mut self, item: Prio<T>) -> (r: Result<u32, QueueError>)
        requires
            old(self).wf(),
        ensures
            final(self).wf(),
            final(self).capacity() == old(self).capacity(),
            r is Ok <==> (old(self).entries().len() < old(self).capacity() && item.priority
                is Some && old(self).id_counter() < u32::MAX),
            old(self).entries().len() == old(self).capacity() ==> r == Err::<u32, QueueError>(
                QueueError::QueueFull,
            ) && *final(self) == *old(self),
            old(self).entries().len() < old(self).capacity() && item.priority is None ==> r
                == Err::<u32, QueueError>(QueueError::PriorityRequired) && *final(self) == *old(
                self,
            ),
            old(self).entries().len() < old(self).capacity() && item.priority is Some && old(
                self,
            ).id_counter() == u32::MAX ==> r == Err::<u32, QueueError>(
                QueueError::CounterExhausted,
            ) && *final(self) == *old(self),
            r matches Ok(id) ==> {
                &&& id == old(self).id_counter()
                &&& final(self).id_counter() == id + 1
                &&& final(self).entries().len() == old(self).entries().len() + 1
                &&& exists|pos: int, stamp: u64|
                    0 <= pos <= old(self).entries().len() && final(self).entries() == #[trigger] old(
                        self,
                    ).entries().insert(
                        pos,
                        (
                            QueueFlag {
                                priority: item.priority.unwrap(),
                                locked: item.locked,
                                identifier: id,
                                timestamp: stamp,
                            },
                            item.item,
                        ),
                    )
            },
    {
        if self.ordered.len() >= self.cap as usize {
            return Err(QueueError::QueueFull);
        }
        match item.priority {
            None => Err(QueueError::PriorityRequired),
            Some(p) => {
                if self.counter == u32::MAX {
                    Err(QueueError::CounterExhausted)
                } else {
                    let id = stamped_insert(
                        &mut self.ordered,
                        &mut self.counter,
                        &mut self.floor,
                        p,
                        item.locked,
                        item.item,
                    );
                    Ok(id)
                }
            },
        }
    }

    /// Returns the stored payload whose identifier equals `id`, by a full
    /// scan of the queue. Identifiers are not monotonic with the key order,
    /// so no range of identifiers can be ruled out without a scan. Fails with
    /// `IdNotFound` when no entry carries `id`.
    pub fn retrieve_by_id_linear(&self, id: u32) -> (r: Result<&T, QueueError>)
        requires
            self.wf(),
        ensures
            r is Ok <==> has_id(self.entries(), id),
            r is Err ==> r == Err::<&T, QueueError>(QueueError::IdNotFound),
            r matches Ok(v) ==> forall|i: int|
                0 <= i < self.entries().len() && self.entries()[i].0.identifier == id
                    ==> v == self.entries()[i].1,
    {
        match find_id_index(&self.ordered, id) {
            Some(at) => {
                proof {
                    assert forall|i: int|
                        0 <= i < self.entries().len() && self.entries()[i].0.identifier == id
                            implies self.entries()[at as int].1 == self.entries()[i].1 by {
                        if i != at {
                            assert(self.entries()[i].0.identifier != self.entries()[
                                at as int
                            ].0.identifier);
                        }
                    }
                }
                Ok(&self.ordered[at].1)
            },
            None => Err(QueueError::IdNotFound),
        }
    }

    /// Returns the stored payload whose identifier equals `id`. Fails with
    /// `EmptyQueue` when the queue holds nothing, and with `IdNotFound` when
    /// no entry carries `id`. Each identifier tags at most one entry, so the
    /// result is exactly the payload last associated with `id`.
    pub fn retrieve_by_id(&self, id: u32) -> (r: Result<&T, QueueError>)
        requires
            self.wf(),
        ensures
            self.entries().len() == 0 ==> r == Err::<&T, QueueError>(QueueError::EmptyQueue),
            self.entries().len() > 0 ==> (r is Ok <==> has_id(self.entries(), id)),
            self.entries().len() > 0 && !has_id(self.entries(), id) ==> r == Err::<
                &T,
                QueueError,
            >(QueueError::IdNotFound),
            r matches Ok(v) ==> forall|i: int|
                0 <= i < self.entries().len() && self.entries()[i].0.identifier == id
                    ==> v == self.entries()[i].1,
    {
        if self.ordered.len() == 0 {
            Err(QueueError::EmptyQueue)
        } else {
            self.retrieve_by_id_linear(id)
        }
    }

    /// Removes and returns the payload with the minimum key, or `None` when
    /// the queue is empty.
    pub fn pop(&mut self) -> (r: Option<T>)
        requires
            old(self).wf(),
        ensures
            final(self).wf(),
            final(self).capacity() == old(self).capacity(),
            old(self).entries().len() == 0 ==> r is None && *final(self) == *old(self),
            old(self).entries().len() > 0 ==> {
                &&& r == Some(old(self).entries()[0].1)
                &&& final(self).entries() == old(self).entries().remove(0)
                &&& final(self).id_counter() == old(self).id_counter()
                &&& final(self).time_floor() == old(self).time_floor()
            },
    {
        if self.ordered.len() == 0 {
            None
        } else {
            proof {
                lemma_remove_keeps_wf(self.ordered@, 0, self.counter, self.floor);
            }
            let (_, payload) = self.ordered.remove(0);
            Some(payload)
        }
    }

    /// The payload of the entry the next pop would serve, or `None` when the
    /// queue is empty. Nothing is mutated.
    pub fn peek(&self) -> (r: Option<&T>)
        ensures
            self.entries().len() == 0 ==> r is None,
            self.entries().len() > 0 ==> (r matches Some(v) && v == self.entries()[0].1),
    {
        if self.ordered.len() == 0 {
            None
        } else {
            Some(&self.ordered[0].1)
        }
    }

    /// All stored payloads, in the order pops would serve them.
    pub fn get_elements(&self) -> (r: Vec<&T>)
        ensures
            r@.len() == self.entries().len(),
            forall|i: int| 0 <= i < r@.len() ==> r@[i] == self.entries()[i].1,
    {
        payload_refs(&self.ordered)
    }

    /// The number of stored elements.
    pub fn size(&self) -> (r: usize)
        ensures
            r == self.entries().len(),
    {
        self.ordered.len()
    }

    /// The maximum number of elements the queue will hold.
    pub fn max_size(&self) -> (r: u32)
        ensures
            r == self.capacity(),
    {
        self.cap
    }

    /// Increases the capacity by `size`, saturating at the width of the
    /// capacity counter. The capacity never decreases: there is no shrink
    /// operation.
    pub fn expand(&mut self, size: usize)
        requires
            old(self).wf(),
        ensures
            final(self).wf(),
            final(self).entries() == old(self).entries(),
            final(self).id_counter() == old(self).id_counter(),
            final(self).time_floor() == old(self).time_floor(),
            old(self).capacity() + size <= u32::MAX ==> final(self).capacity() == old(
                self,
            ).capacity() + size,
            old(self).capacity() + size > u32::MAX ==> final(self).capacity() == u32::MAX,
    {
        let headroom = u32::MAX - self.cap;
        if size >= headroom as usize {
            self.cap = u32::MAX;
        } else {
            self.cap = self.cap + size as u32;
        }
    }
}

} // verus!
