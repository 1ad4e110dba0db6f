//! The map-shaped slotted priority container: a dense mapping from an integer
//! priority slot to one (key, value) pair, over a declared range of slots.

use vstd::prelude::*;

use crate::queue::prelude::QueueError;
use crate::queue::slots::{
    contains_slot, find_slot_index, has_slot, next_free_slot, place_at_slot, remove_slot,
    shift_insert, shifted_insertion, slotted_wf, split_before,
};

verus! {

/// A map of (key, value) pairs ordered by an integer priority slot.
/// Priorities run over a declared range, `[0, 255]` unless chosen otherwise;
/// no two pairs share a slot.
pub struct PriorityMap<K, V> {
    map: Vec<(u32, (K, V))>,
    min_priority: u32,
    max_priority: u32,
}

impl<K, V> PriorityMap<K, V> {
    /// The (slot, (key, value)) entries, in ascending slot order.
    pub closed spec fn entries(&self) -> Seq<(u32, (K, V))> {
        self.map@
    }

    /// The smallest allowed priority slot.
    pub closed spec fn lo(&self) -> u32 {
        self.min_priority
    }

    /// The largest allowed priority slot.
    pub closed spec fn hi(&self) -> u32 {
        self.max_priority
    }

    /// Well-formedness: entries sorted strictly by slot, every slot within
    /// the declared range, and the range itself usable.
    pub open spec fn wf(&self) -> bool {
        slotted_wf(self.entries(), self.lo(), self.hi())
    }

    /// Creates an empty map over the default priority range `[0, 255]`.
    pub fn new() -> (r: Self)
        ensures
            r.wf(),
            r.entries() == Seq::<(u32, (K, V))>::empty(),
            r.lo() == 0,
            r.hi() == 255,
    {
        PriorityMap { map: Vec::new(), min_priority: 0, max_priority: 255 }
    }

    /// Creates an empty map over the priority range
    /// `[min_priority, max_priority]`. The range must not be inverted, and
    /// its slot count must fit the machine's word.
    pub fn with_priority_range(min_priority: u32, max_priority: u32) -> (r: Self)
        requires
            min_priority <= max_priority,
            max_priority - min_priority + 1 <= usize::MAX,
        ensures
            r.wf(),
            r.entries() == Seq::<(u32, (K, V))>::empty(),
            r.lo() == min_priority,
            r.hi() == max_priority,
    {
        PriorityMap { map: Vec::new(), min_priority, max_priority }
    }

    /// Inserts a pair at a specific priority, overwriting any pair already
    /// there. Fails with `PriorityOutOfRange`, mutating nothing, when the
    /// priority falls outside the declared range.
    pub fn insert_unchecked(&mut self, key: K, value: V, priority: u32) -> (r: Result<
        (),
        QueueError,
    >)
        requires
            old(self).wf(),
        ensures
            final(self).wf(),
            final(self).lo() == old(self).lo() && final(self).hi() == old(self).hi(),
            priority < old(self).lo() || priority > old(self).hi() ==> r == Err::<(), QueueError>(
                QueueError::PriorityOutOfRange,
            ) && *final(self) == *old(self),
            old(self).lo() <= priority <= old(self).hi() ==> {
                &&& r == Ok::<(), QueueError>(())
                &&& has_slot(old(self).entries(), priority) ==> exists|i: int|
                    0 <= i < old(self).entries().len() && old(self).entries()[i].0 == priority
                        && final(self).entries() == #[trigger] old(self).entries().update(
                        i,
                        (priority, (key, value)),
                    )
                &&& !has_slot(old(self).entries(), priority) ==> exists|pos: int|
                    0 <= pos <= old(self).entries().len() && final(self).entries()
                        == #[trigger] old(self).entries().insert(pos, (priority, (key, value)))
            },
    {
        if priority < self.min_priority || priority > self.max_priority {
            return Err(QueueError::PriorityOutOfRange);
        }
        place_at_slot(
            &mut self.map,
            priority,
            (key, value),
            Ghost(self.min_priority),
            Ghost(self.max_priority),
        );
        Ok(())
    }

    /// Inserts a pair at a specific priority only when that priority is
    /// within range and unoccupied. Fails with `PriorityOutOfRange` or
    /// `PriorityTaken`, mutating nothing.
    pub fn insert_checked(&mut self, key: K, value: V, priority: u32) -> (r: Result<
        (),
        QueueError,
    >)
        requires
            old(self).wf(),
        ensures
            final(self).wf(),
            final(self).lo() == old(self).lo() && final(self).hi() == old(self).hi(),
            priority < old(self).lo() || priority > old(self).hi() ==> r == Err::<(), QueueError>(
                QueueError::PriorityOutOfRange,
            ) && *final(self) == *old(self),
            old(self).lo() <= priority <= old(self).hi() && has_slot(old(self).entries(), priority)
                ==> r == Err::<(), QueueError>(QueueError::PriorityTaken) && *final(self) == *old(
                self,
            ),
            old(self).lo() <= priority <= old(self).hi() && !has_slot(
                old(self).entries(),
                priority,
            ) ==> r == Ok::<(), QueueError>(()) && exists|pos: int|
                0 <= pos <= old(self).entries().len() && final(self).entries() == #[trigger] old(
                    self,
                ).entries().insert(pos, (priority, (key, value))),
    {
        if priority < self.min_priority || priority > self.max_priority {
            return Err(QueueError::PriorityOutOfRange);
        }
        if contains_slot(&self.map, priority) {
            return Err(QueueError::PriorityTaken);
        }
        place_at_slot(
            &mut self.map,
            priority,
            (key, value),
            Ghost(self.min_priority),
            Ghost(self.max_priority),
        );
        Ok(())
    }

    /// Inserts a pair at the smallest unoccupied priority of the range, which
    /// it returns. Fails with `RangeExhausted`, mutating nothing, when every
    /// priority of the range is occupied.
    pub fn insert_next(&mut self, key: K, value: V) -> (r: Result<u32, QueueError>)
        requires
            old(self).wf(),
        ensures
            final(self).wf(),
            final(self).lo() == old(self).lo() && final(self).hi() == old(self).hi(),
            r is Err ==> r == Err::<u32, QueueError>(QueueError::RangeExhausted) && *final(self)
                == *old(self) && forall|q: u32|
                old(self).lo() <= q <= old(self).hi() ==> has_slot(old(self).entries(), q),
            r matches Ok(p) ==> {
                &&& old(self).lo() <= p <= old(self).hi()
                &&& !has_slot(old(self).entries(), p)
                &&& forall|q: u32| old(self).lo() <= q < p ==> has_slot(old(self).entries(), q)
                &&& exists|pos: int|
                    0 <= pos <= old(self).entries().len() && final(self).entries()
                        == #[trigger] old(self).entries().insert(pos, (p, (key, value)))
            },
    {
        let p = match self.find_next_available_priority() {
            Err(e) => {
                return Err(e);
            },
            Ok(p) => p,
        };
        place_at_slot(
            &mut self.map,
            p,
            (key, value),
            Ghost(self.min_priority),
            Ghost(self.max_priority),
        );
        Ok(p)
    }

    /// The smallest unoccupied priority of the range, or `RangeExhausted`
    /// when there is none.
    pub fn find_next_available_priority(&self) -> (r: Result<u32, QueueError>)
        requires
            self.wf(),
        ensures
            r matches Ok(p) ==> self.lo() <= p <= self.hi() && !has_slot(self.entries(), p)
                && forall|q: u32| self.lo() <= q < p ==> has_slot(self.entries(), q),
            r is Err ==> r == Err::<u32, QueueError>(QueueError::RangeExhausted) && forall|q: u32|
                self.lo() <= q <= self.hi() ==> has_slot(self.entries(), q),
    {
        next_free_slot(&self.map, self.min_priority, self.max_priority)
    }

    /// Places a pair at a chosen priority by displacing every pair of that
    /// priority or above one slot upward, keeping all their relative order;
    /// or, given no priority, appends the pair at the slot equal to the
    /// current element count. Fails, mutating nothing, with
    /// `PriorityOutOfRange` when the target slot falls outside the range, and
    /// with `RangeExhausted` when displacing would push the topmost pair past
    /// the range.
    pub fn push(&mut self, key: K, value: V, priority: Option<u32>) -> (r: Result<u32, QueueError>)
        requires
            old(self).wf(),
        ensures
            final(self).wf(),
            final(self).lo() == old(self).lo() && final(self).hi() == old(self).hi(),
            priority matches Some(target) ==> {
                &&& (target < old(self).lo() || target > old(self).hi()) ==> r == Err::<
                    u32,
                    QueueError,
                >(QueueError::PriorityOutOfRange) && *final(self) == *old(self)
                &&& old(self).lo() <= target <= old(self).hi() && has_slot(
                    old(self).entries(),
                    old(self).hi(),
                ) ==> r == Err::<u32, QueueError>(QueueError::RangeExhausted) && *final(self)
                    == *old(self)
                &&& old(self).lo() <= target <= old(self).hi() && !has_slot(
                    old(self).entries(),
                    old(self).hi(),
                ) ==> {
                    &&& r == Ok::<u32, QueueError>(target)
                    &&& final(self).entries().len() == old(self).entries().len() + 1
                    &&& exists|pos: int|
                        split_before(old(self).entries(), target, pos) && final(self).entries()
                            == #[trigger] shifted_insertion(
                            old(self).entries(),
                            pos,
                            target,
                            (key, value),
                        )
                }
            },
            priority is None ==> {
                &&& (old(self).entries().len() < old(self).lo()
                    || old(self).entries().len() > old(self).hi())
                    ==> r == Err::<u32, QueueError>(QueueError::PriorityOutOfRange)
                        && *final(self) == *old(self)
                &&& old(self).lo() <= old(self).entries().len() <= old(self).hi() ==> {
                    &&& r == Ok::<u32, QueueError>(old(self).entries().len() as u32)
                    &&& has_slot(old(self).entries(), old(self).entries().len() as u32)
                        ==> exists|i: int|
                        0 <= i < old(self).entries().len() && old(self).entries()[i].0 == old(
                            self,
                        ).entries().len() && final(self).entries() == #[trigger] old(
                            self,
                        ).entries().update(i, ((old(self).entries().len() as u32), (key, value)))
                    &&& !has_slot(old(self).entries(), old(self).entries().len() as u32)
                        ==> exists|pos: int|
                        0 <= pos <= old(self).entries().len() && final(self).entries()
                            == #[trigger] old(self).entries().insert(
                            pos,
                            ((old(self).entries().len() as u32), (key, value)),
                        )
                }
            },
    {
        match priority {
            Some(target) => {
                if target < self.min_priority || target > self.max_priority {
                    return Err(QueueError::PriorityOutOfRange);
                }
                if contains_slot(&self.map, self.max_priority) {
                    return Err(QueueError::RangeExhausted);
                }
                proof {
                    assert forall|i: int|
                        0 <= i < self.entries().len() && self.entries()[i].0 >= target
                            implies self.entries()[i].0 < u32::MAX by {
                        assert(self.entries()[i].0 != self.hi());
                    }
                }
                let ghost before = self.entries();
                let pos = shift_insert(&mut self.map, target, (key, value));
                proof {
                    assert forall|i: int|
                        0 <= i < self.entries().len() implies self.lo()
                            <= (#[trigger] self.entries()[i]).0 <= self.hi() by {
                        if i < pos {
                            assert(self.entries()[i] == before[i]);
                        } else if i == pos {
                        } else {
                            assert(before.skip(pos as int)[i - pos - 1] == before[i - 1]);
                            assert(self.entries()[i].0 == before[i - 1].0 + 1);
                            assert(before[i - 1].0 != self.hi());
                        }
                    }
                }
                Ok(target)
            },
            None => {
                let n = self.map.len();
                if (n as u64) < (self.min_priority as u64) || (n as u64) > (
                self.max_priority as u64) {
                    return Err(QueueError::PriorityOutOfRange);
                }
                let slot = n as u32;
                place_at_slot(
                    &mut self.map,
                    slot,
                    (key, value),
                    Ghost(self.min_priority),
                    Ghost(self.max_priority),
                );
                Ok(slot)
            },
        }
    }

    /// All (key, value) pairs, in ascending priority order, by reference.
    pub fn get_elements(&self) -> (r: Vec<(&K, &V)>)
        ensures
            r@.len() == self.entries().len(),
            forall|i: int|
                0 <= i < r@.len() ==> (#[trigger] r@[i]).0 == self.entries()[i].1.0 && r@[i].1
                    == self.entries()[i].1.1,
    {
        let mut out: Vec<(&K, &V)> = Vec::new();
        let mut idx: usize = 0;
        while idx < self.map.len()
            invariant
                idx <= self.entries().len(),
                out@.len() == idx,
                forall|i: int|
                    0 <= i < idx ==> (#[trigger] out@[i]).0 == self.entries()[i].1.0 && out@[i].1
                        == self.entries()[i].1.1,
            decreases self.entries().len() - idx,
        {
            out.push((&self.map[idx].1.0, &self.map[idx].1.1));
            idx += 1;
        }
        out
    }

    /// The value at the given priority, if that slot is occupied.
    pub fn get(&self, priority: u32) -> (r: Option<&V>)
        requires
            self.wf(),
        ensures
            r is Some <==> has_slot(self.entries(), priority),
            r matches Some(v) ==> forall|i: int|
                0 <= i < self.entries().len() && self.entries()[i].0 == priority ==> v
                    == self.entries()[i].1.1,
    {
        match find_slot_index(&self.map, priority) {
            Some(at) => {
                proof {
                    assert forall|i: int|
                        0 <= i < self.entries().len() && self.entries()[i].0 == priority
                            implies self.entries()[at as int].1.1 == self.entries()[i].1.1 by {
                        if i != at {
                            assert(self.entries()[i].0 != self.entries()[at as int].0);
                        }
                    }
                }
                Some(&self.map[at].1.1)
            },
            None => None,
        }
    }

    /// Removes the pair at the given priority, if that slot is occupied, and
    /// returns its value; an empty result mutates nothing.
    pub fn remove(&mut self, priority: u32) -> (r: Option<V>)
        requires
            old(self).wf(),
        ensures
            final(self).wf(),
            final(self).lo() == old(self).lo() && final(self).hi() == old(self).hi(),
            !has_slot(old(self).entries(), priority) ==> r is None && final(self).entries() == old(
                self,
            ).entries(),
            has_slot(old(self).entries(), priority) ==> exists|i: int|
                0 <= i < old(self).entries().len() && old(self).entries()[i].0 == priority && r
                    == Some(old(self).entries()[i].1.1) && final(self).entries() == #[trigger] old(
                    self,
                ).entries().remove(i),
    {
        match remove_slot(&mut self.map, priority, Ghost(self.min_priority), Ghost(
            self.max_priority,
        )) {
            Some(pair) => Some(pair.1),
            None => None,
        }
    }

    /// Whether the map holds no pair.
    pub fn is_empty(&self) -> (r: bool)
        ensures
            r <==> self.entries().len() == 0,
    {
        self.map.is_empty()
    }

    /// The number of stored pairs.
    pub fn len(&self) -> (r: usize)
        ensures
            r == self.entries().len(),
    {
        self.map.len()
    }

    /// The number of priorities the range offers: its top, minus its bottom,
    /// plus one.
    pub fn priority_len(&self) -> (r: usize)
        requires
            self.wf(),
        ensures
            r == self.hi() - self.lo() + 1,
    {
        (self.max_priority - self.min_priority) as usize + 1
    }

    /// The declared priority range, bottom and top.
    pub fn priority_range(&self) -> (r: (u32, u32))
        ensures
            r.0 == self.lo(),
            r.1 == self.hi(),
    {
        (self.min_priority, self.max_priority)
    }

    /// Removes and returns the pair at the lowest occupied priority, or
    /// `None` when the map is empty.
    pub fn pop_next(&mut self) -> (r: Option<(K, V)>)
        requires
            old(self).wf(),
        ensures
            final(self).wf(),
            final(self).lo() == old(self).lo() && final(self).hi() == old(self).hi(),
            old(self).entries().len() == 0 ==> r is None && *final(self) == *old(self),
            old(self).entries().len() > 0 ==> r == Some(old(self).entries()[0].1) && final(self).entries() == old(self).entries().remove(0),
    {
        if self.map.len() == 0 {
            None
        } else {
            proof {
                crate::queue::slots::lemma_slot_remove_keeps_wf(
                    self.entries(),
                    0,
                    self.lo(),
                    self.hi(),
                );
            }
            let (_, pair) = self.map.remove(0);
            Some(pair)
        }
    }

    /// Removes and returns the pair at the highest occupied priority, or
    /// `None` when the map is empty.
    pub fn pop_last(&mut self) -> (r: Option<(K, V)>)
        requires
            old(self).wf(),
        ensures
            final(self).wf(),
            final(self).lo() == old(self).lo() && final(self).hi() == old(self).hi(),
            old(self).entries().len() == 0 ==> r is None && *final(self) == *old(self),
            old(self).entries().len() > 0 ==> r == Some(old(self).entries().last().1) && final(self).entries() == old(self).entries().drop_last(),
    {
        if self.map.len() == 0 {
            None
        } else {
            let at = self.map.len() - 1;
            proof {
                crate::queue::slots::lemma_slot_remove_keeps_wf(
                    self.entries(),
                    at as int,
                    self.lo(),
                    self.hi(),
                );
            }
            let (_, pair) = self.map.remove(at);
            proof {
                assert(self.entries() =~= old(self).entries().drop_last());
            }
            Some(pair)
        }
    }
}

} // verus!
