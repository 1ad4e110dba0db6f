//! The list-shaped slotted priority container: a dense mapping from an
//! integer priority slot to one element, over a declared range of slots.

use vstd::prelude::*;

use crate::queue::prelude::QueueError;
use crate::queue::slots::{
    contains_slot, find_slot_index, has_slot, next_free_slot, place_at_slot, remove_slot,
    shift_insert, shifted_insertion, slotted_wf, split_before,
};
use crate::queue::store::payload_refs;

verus! {

/// A list of elements ordered by an integer priority slot. Priorities run
/// over a declared range, `[0, 255]` unless chosen otherwise; no two elements
/// share a slot.
pub struct PriorityList<T> {
    elements: Vec<(u32, T)>,
    min_priority: u32,
    max_priority: u32,
}

impl<T> PriorityList<T> {
    /// The (slot, element) entries, in ascending slot order.
    pub closed spec fn entries(&self) -> Seq<(u32, T)> {
        self.elements@
    }

    /// The smallest allowed priority slot.
    pub closed spec fn lo(&self) -> u32 {
        self.min_priority
    }

    /// The largest allowed priority slot.
    pub closed spec fn hi(&self) -> u32 {
        self.max_priority
    }

    /// Well-formedness: entries sorted strictly by slot, every slot within
    /// the declared range, and the range itself usable.
    pub open spec fn wf(&self) -> bool {
        slotted_wf(self.entries(), self.lo(), self.hi())
    }

    /// Creates an empty list over the default priority range `[0, 255]`.
    pub fn new() -> (r: Self)
        ensures
            r.wf(),
            r.entries() == Seq::<(u32, T)>::empty(),
            r.lo() == 0,
            r.hi() == 255,
    {
        PriorityList { elements: Vec::new(), min_priority: 0, max_priority: 255 }
    }

    /// Creates an empty list over the priority range
    /// `[min_priority, max_priority]`. The range must not be inverted, and
    /// its slot count must fit the machine's word.
    pub fn with_priority_range(min_priority: u32, max_priority: u32) -> (r: Self)
        requires
            min_priority <= max_priority,
            max_priority - min_priority + 1 <= usize::MAX,
        ensures
            r.wf(),
            r.entries() == Seq::<(u32, T)>::empty(),
            r.lo() == min_priority,
            r.hi() == max_priority,
    {
        PriorityList { elements: Vec::new(), min_priority, max_priority }
    }

    /// Appends an element at a specific priority, overwriting any element
    /// already there. Fails with `PriorityOutOfRange`, mutating nothing, when
    /// the priority falls outside the declared range.
    pub fn append_unchecked(&mut self, element: T, priority: u32) -> (r: Result<(), QueueError>)
        requires
            old(self).wf(),
        ensures
            final(self).wf(),
            final(self).lo() == old(self).lo() && final(self).hi() == old(self).hi(),
            priority < old(self).lo() || priority > old(self).hi() ==> r == Err::<(), QueueError>(
                QueueError::PriorityOutOfRange,
            ) && *final(self) == *old(self),
            old(self).lo() <= priority <= old(self).hi() ==> {
                &&& r == Ok::<(), QueueError>(())
                &&& has_slot(old(self).entries(), priority) ==> exists|i: int|
                    0 <= i < old(self).entries().len() && old(self).entries()[i].0 == priority
                        && final(self).entries() == #[trigger] old(self).entries().update(
                        i,
                        (priority, element),
                    )
                &&& !has_slot(old(self).entries(), priority) ==> exists|pos: int|
                    0 <= pos <= old(self).entries().len() && final(self).entries()
                        == #[trigger] old(self).entries().insert(pos, (priority, element))
            },
    {
        if priority < self.min_priority || priority > self.max_priority {
            return Err(QueueError::PriorityOutOfRange);
        }
        place_at_slot(
            &mut self.elements,
            priority,
            element,
            Ghost(self.min_priority),
            Ghost(self.max_priority),
        );
        Ok(())
    }

    /// Appends an element at a specific priority only when that priority is
    /// within range and unoccupied. Fails with `PriorityOutOfRange` or
    /// `PriorityTaken`, mutating nothing.
    pub fn append_checked(&mut self, element: T, priority: u32) -> (r: Result<(), QueueError>)
        requires
            old(self).wf(),
        ensures
            final(self).wf(),
            final(self).lo() == old(self).lo() && final(self).hi() == old(self).hi(),
            priority < old(self).lo() || priority > old(self).hi() ==> r == Err::<(), QueueError>(
                QueueError::PriorityOutOfRange,
            ) && *final(self) == *old(self),
            old(self).lo() <= priority <= old(self).hi() && has_slot(old(self).entries(), priority)
                ==> r == Err::<(), QueueError>(QueueError::PriorityTaken) && *final(self) == *old(
                self,
            ),
            old(self).lo() <= priority <= old(self).hi() && !has_slot(
                old(self).entries(),
                priority,
            ) ==> r == Ok::<(), QueueError>(()) && exists|pos: int|
                0 <= pos <= old(self).entries().len() && final(self).entries() == #[trigger] old(
                    self,
                ).entries().insert(pos, (priority, element)),
    {
        if priority < self.min_priority || priority > self.max_priority {
            return Err(QueueError::PriorityOutOfRange);
        }
        if contains_slot(&self.elements, priority) {
            return Err(QueueError::PriorityTaken);
        }
        place_at_slot(
            &mut self.elements,
            priority,
            element,
            Ghost(self.min_priority),
            Ghost(self.max_priority),
        );
        Ok(())
    }

    /// Appends an element at the smallest unoccupied priority of the range,
    /// which it returns. Fails with `RangeExhausted`, mutating nothing, when
    /// every priority of the range is occupied.
    pub fn append_next(&mut self, element: T) -> (r: Result<u32, QueueError>)
        requires
            old(self).wf(),
        ensures
            final(self).wf(),
            final(self).lo() == old(self).lo() && final(self).hi() == old(self).hi(),
            r is Err ==> r == Err::<u32, QueueError>(QueueError::RangeExhausted) && *final(self)
                == *old(self) && forall|q: u32|
                old(self).lo() <= q <= old(self).hi() ==> has_slot(old(self).entries(), q),
            r matches Ok(p) ==> {
                &&& old(self).lo() <= p <= old(self).hi()
                &&& !has_slot(old(self).entries(), p)
                &&& forall|q: u32| old(self).lo() <= q < p ==> has_slot(old(self).entries(), q)
                &&& exists|pos: int|
                    0 <= pos <= old(self).entries().len() && final(self).entries()
                        == #[trigger] old(self).entries().insert(pos, (p, element))
            },
    {
        let p = match self.find_next_available_priority() {
            Err(e) => {
                return Err(e);
            },
            Ok(p) => p,
        };
        place_at_slot(
            &mut self.elements,
            p,
            element,
            Ghost(self.min_priority),
            Ghost(self.max_priority),
        );
        Ok(p)
    }

    /// The smallest unoccupied priority of the range, or `RangeExhausted`
    /// when there is none.
    fn find_next_available_priority(&self) -> (r: Result<u32, QueueError>)
        requires
            self.wf(),
        ensures
            r matches Ok(p) ==> self.lo() <= p <= self.hi() && !has_slot(self.entries(), p)
                && forall|q: u32| self.lo() <= q < p ==> has_slot(self.entries(), q),
            r is Err ==> r == Err::<u32, QueueError>(QueueError::RangeExhausted) && forall|q: u32|
                self.lo() <= q <= self.hi() ==> has_slot(self.entries(), q),
    {
        next_free_slot(&self.elements, self.min_priority, self.max_priority)
    }

    /// Places an element at a chosen priority by displacing every element of
    /// that priority or above one slot upward, keeping all their relative
    /// order; or, given no priority, appends the element at the slot equal to
    /// the current element count. Fails, mutating nothing, with
    /// `PriorityOutOfRange` when the target slot falls outside the range, and
    /// with `RangeExhausted` when displacing would push the topmost element
    /// past the range.
    pub fn push(&mut self, element: T, priority: Option<u32>) -> (r: Result<u32, QueueError>)
        requires
            old(self).wf(),
        ensures
            final(self).wf(),
            final(self).lo() == old(self).lo() && final(self).hi() == old(self).hi(),
            priority matches Some(target) ==> {
                &&& (target < old(self).lo() || target > old(self).hi()) ==> r == Err::<
                    u32,
                    QueueError,
                >(QueueError::PriorityOutOfRange) && *final(self) == *old(self)
                &&& old(self).lo() <= target <= old(self).hi() && has_slot(
                    old(self).entries(),
                    old(self).hi(),
                ) ==> r == Err::<u32, QueueError>(QueueError::RangeExhausted) && *final(self)
                    == *old(self)
                &&& old(self).lo() <= target <= old(self).hi() && !has_slot(
                    old(self).entries(),
                    old(self).hi(),
                ) ==> {
                    &&& r == Ok::<u32, QueueError>(target)
                    &&& final(self).entries().len() == old(self).entries().len() + 1
                    &&& exists|pos: int|
                        split_before(old(self).entries(), target, pos) && final(self).entries()
                            == #[trigger] shifted_insertion(
                            old(self).entries(),
                            pos,
                            target,
                            element,
                        )
                }
            },
            priority is None ==> {
                &&& (old(self).entries().len() < old(self).lo()
                    || old(self).entries().len() > old(self).hi())
                    ==> r == Err::<u32, QueueError>(QueueError::PriorityOutOfRange)
                        && *final(self) == *old(self)
                &&& old(self).lo() <= old(self).entries().len() <= old(self).hi() ==> {
                    &&& r == Ok::<u32, QueueError>(old(self).entries().len() as u32)
                    &&& has_slot(old(self).entries(), old(self).entries().len() as u32)
                        ==> exists|i: int|
                        0 <= i < old(self).entries().len() && old(self).entries()[i].0 == old(
                            self,
                        ).entries().len() && final(self).entries() == #[trigger] old(
                            self,
                        ).entries().update(i, ((old(self).entries().len() as u32), element))
                    &&& !has_slot(old(self).entries(), old(self).entries().len() as u32)
                        ==> exists|pos: int|
                        0 <= pos <= old(self).entries().len() && final(self).entries()
                            == #[trigger] old(self).entries().insert(
                            pos,
                            ((old(self).entries().len() as u32), element),
                        )
                }
            },
    {
        match priority {
            Some(target) => {
                if target < self.min_priority || target > self.max_priority {
                    return Err(QueueError::PriorityOutOfRange);
                }
                if contains_slot(&self.elements, self.max_priority) {
                    return Err(QueueError::RangeExhausted);
                }
                proof {
                    assert forall|i: int|
                        0 <= i < self.entries().len() && self.entries()[i].0 >= target
                            implies self.entries()[i].0 < u32::MAX by {
                        assert(self.entries()[i].0 != self.hi());
                    }
                }
                let ghost before = self.entries();
                let pos = shift_insert(&mut self.elements, target, element);
                proof {
                    assert forall|i: int|
                        0 <= i < self.entries().len() implies self.lo()
                            <= (#[trigger] self.entries()[i]).0 <= self.hi() by {
                        if i < pos {
                            assert(self.entries()[i] == before[i]);
                        } else if i == pos {
                        } else {
                            assert(self.entries()[i] == shifted_insertion(
                                before,
                                pos as int,
                                target,
                                element,
                            )[i]);
                            assert(before.skip(pos as int)[i - pos - 1] == before[i - 1]);
                            assert(self.entries()[i].0 == before[i - 1].0 + 1);
                            assert(before[i - 1].0 != self.hi());
                        }
                    }
                }
                Ok(target)
            },
            None => {
                let n = self.elements.len();
                if (n as u64) < (self.min_priority as u64) || (n as u64) > (
                self.max_priority as u64) {
                    return Err(QueueError::PriorityOutOfRange);
                }
                let slot = n as u32;
                place_at_slot(
                    &mut self.elements,
                    slot,
                    element,
                    Ghost(self.min_priority),
                    Ghost(self.max_priority),
                );
                Ok(slot)
            },
        }
    }

    /// All elements, in ascending priority order, by reference.
    pub fn get_elements(&self) -> (r: Vec<&T>)
        ensures
            r@.len() == self.entries().len(),
            forall|i: int| 0 <= i < r@.len() ==> r@[i] == self.entries()[i].1,
    {
        payload_refs(&self.elements)
    }

    /// Whether the list holds no element.
    pub fn is_empty(&self) -> (r: bool)
        ensures
            r <==> self.entries().len() == 0,
    {
        self.elements.is_empty()
    }

    /// The number of stored elements.
    pub fn len(&self) -> (r: usize)
        ensures
            r == self.entries().len(),
    {
        self.elements.len()
    }

    /// The number of priorities the range offers: its top, minus its bottom,
    /// plus one.
    pub fn priority_len(&self) -> (r: usize)
        requires
            self.wf(),
        ensures
            r == self.hi() - self.lo() + 1,
    {
        (self.max_priority - self.min_priority) as usize + 1
    }

    /// The declared priority range, bottom and top.
    pub fn priority_range(&self) -> (r: (u32, u32))
        ensures
            r.0 == self.lo(),
            r.1 == self.hi(),
    {
        (self.min_priority, self.max_priority)
    }

    /// The element at the given priority, if that slot is occupied.
    pub fn get_element_at_priority(&self, priority: u32) -> (r: Option<&T>)
        requires
            self.wf(),
        ensures
            r is Some <==> has_slot(self.entries(), priority),
            r matches Some(v) ==> forall|i: int|
                0 <= i < self.entries().len() && self.entries()[i].0 == priority ==> v
                    == self.entries()[i].1,
    {
        match find_slot_index(&self.elements, priority) {
            Some(at) => {
                proof {
                    assert forall|i: int|
                        0 <= i < self.entries().len() && self.entries()[i].0 == priority
                            implies self.entries()[at as int].1 == self.entries()[i].1 by {
                        if i != at {
                            assert(self.entries()[i].0 != self.entries()[at as int].0);
                        }
                    }
                }
                Some(&self.elements[at].1)
            },
            None => None,
        }
    }

    /// Removes and returns the element at the given priority, if that slot is
    /// occupied; an empty result mutates nothing.
    pub fn remove_element_at_priority(&mut self, priority: u32) -> (r: Option<T>)
        requires
            old(self).wf(),
        ensures
            final(self).wf(),
            final(self).lo() == old(self).lo() && final(self).hi() == old(self).hi(),
            !has_slot(old(self).entries(), priority) ==> r is None && final(self).entries() == old(
                self,
            ).entries(),
            has_slot(old(self).entries(), priority) ==> exists|i: int|
                0 <= i < old(self).entries().len() && old(self).entries()[i].0 == priority && r
                    == Some(old(self).entries()[i].1) && final(self).entries() == #[trigger] old(
                    self,
                ).entries().remove(i),
    {
        remove_slot(&mut self.elements, priority, Ghost(self.min_priority), Ghost(self.max_priority))
    }

    /// Removes and returns the element at the lowest occupied priority, or
    /// `None` when the list is empty.
    pub fn pop_next(&mut self) -> (r: Option<T>)
        requires
            old(self).wf(),
        ensures
            final(self).wf(),
            final(self).lo() == old(self).lo() && final(self).hi() == old(self).hi(),
            old(self).entries().len() == 0 ==> r is None && *final(self) == *old(self),
            old(self).entries().len() > 0 ==> r == Some(old(self).entries()[0].1) && final(self).entries() == old(self).entries().remove(0),
    {
        if self.elements.len() == 0 {
            None
        } else {
            proof {
                crate::queue::slots::lemma_slot_remove_keeps_wf(
                    self.entries(),
                    0,
                    self.lo(),
                    self.hi(),
                );
            }
            let (_, element) = self.elements.remove(0);
            Some(element)
        }
    }

    /// Removes and returns the element at the highest occupied priority, or
    /// `None` when the list is empty.
    pub fn pop_last(&mut self) -> (r: Option<T>)
        requires
            old(self).wf(),
        ensures
            final(self).wf(),
            final(self).lo() == old(self).lo() && final(self).hi() == old(self).hi(),
            old(self).entries().len() == 0 ==> r is None && *final(self) == *old(self),
            old(self).entries().len() > 0 ==> r == Some(old(self).entries().last().1) && final(self).entries() == old(self).entries().drop_last(),
    {
        if self.elements.len() == 0 {
            None
        } else {
            let at = self.elements.len() - 1;
            proof {
                crate::queue::slots::lemma_slot_remove_keeps_wf(
                    self.entries(),
                    at as int,
                    self.lo(),
                    self.hi(),
                );
            }
            let (_, element) = self.elements.remove(at);
            proof {
                assert(self.entries() =~= old(self).entries().drop_last());
            }
            Some(element)
        }
    }
}

} // verus!
