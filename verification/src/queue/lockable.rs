//! The compact lock-aware queue: entries are ordered by priority and lock
//! flag alone, with a per-bucket monotonic sub-counter in place of a wall
//! clock, so that items of equal priority and lock flag keep their insertion
//! order.

use vstd::prelude::*;

use crate::queue::prelude::{lock_rank, LockStatus, Prio, QueueError, Queueable};
use crate::queue::store::payload_refs;

verus! {

/// The reduced ordering key of the compact queue: priority, lock flag, and a
/// sub-counter that numbers the items of one (priority, lock) bucket in
/// insertion order.
#[derive(Clone, Copy, PartialEq, Eq, Debug)]
pub struct LockableFlag {
    /// The priority band; smaller priorities are served first.
    pub priority: u32,
    /// Whether the item is pinned before unlocked items of equal priority.
    pub locked: LockStatus,
    /// Position within the (priority, lock) bucket, in insertion order.
    pub sequence: u32,
}

/// The strict total order on reduced keys: ascending priority, then locked
/// before unlocked, then ascending bucket sequence.
pub open spec fn lockable_lt(a: LockableFlag, b: LockableFlag) -> bool {
    ||| a.priority < b.priority
    ||| (a.priority == b.priority && lock_rank(a.locked) < lock_rank(b.locked))
    ||| (a.priority == b.priority && a.locked == b.locked && a.sequence < b.sequence)
}

/// Entries stand in strictly ascending reduced-key order.
pub open spec fn sorted_lockable<T>(s: Seq<(LockableFlag, T)>) -> bool {
    forall|i: int, j: int| 0 <= i < j < s.len() ==> lockable_lt(s[i].0, s[j].0)
}

/// The largest sequence number among entries of the (priority, lock) bucket,
/// or 0 when the bucket is empty.
pub open spec fn bucket_max_seq<T>(
    s: Seq<(LockableFlag, T)>,
    priority: u32,
    lock: LockStatus,
) -> int
    decreases s.len(),
{
    if s.len() == 0 {
        0
    } else {
        let rest = bucket_max_seq(s.drop_last(), priority, lock);
        let last = s.last().0;
        if last.priority == priority && last.locked == lock && last.sequence > rest {
            last.sequence as int
        } else {
            rest
        }
    }
}

/// `lockable_lt` relates every two distinct keys one way or the other.
pub proof fn lemma_lockable_lt_trichotomy(a: LockableFlag, b: LockableFlag)
    ensures
        lockable_lt(a, b) || lockable_lt(b, a) || a == b,
{
    if a.priority == b.priority && a.locked == b.locked && a.sequence == b.sequence {
        assert(a == b);
    }
}

/// The bucket maximum bounds every sequence number stored in that bucket.
pub proof fn lemma_bucket_max_bounds<T>(
    s: Seq<(LockableFlag, T)>,
    priority: u32,
    lock: LockStatus,
    i: int,
)
    requires
        0 <= i < s.len(),
        s[i].0.priority == priority,
        s[i].0.locked == lock,
    ensures
        s[i].0.sequence <= bucket_max_seq(s, priority, lock),
    decreases s.len(),
{
    if i == s.len() - 1 {
        assert(s.last() == s[i]);
    } else {
        lemma_bucket_max_bounds(s.drop_last(), priority, lock, i);
        assert(s.drop_last()[i] == s[i]);
    }
}

/// The bucket maximum never exceeds the largest stored sequence width, and is
/// non-negative.
pub proof fn lemma_bucket_max_in_range<T>(
    s: Seq<(LockableFlag, T)>,
    priority: u32,
    lock: LockStatus,
)
    ensures
        0 <= bucket_max_seq(s, priority, lock) <= u32::MAX,
    decreases s.len(),
{
    if s.len() > 0 {
        lemma_bucket_max_in_range(s.drop_last(), priority, lock);
    }
}

/// Law: within one priority band a locked entry stands before every unlocked
/// one, whenever either was inserted; since pop removes the first entry, the
/// locked item pops first.
pub proof fn lemma_lockable_locked_first<T>(s: Seq<(LockableFlag, T)>, i: int, j: int)
    requires
        sorted_lockable(s),
        0 <= i < s.len(),
        0 <= j < s.len(),
        s[i].0.priority == s[j].0.priority,
        s[i].0.locked == LockStatus::Locked,
        s[j].0.locked == LockStatus::Unlocked,
    ensures
        i < j,
{
    if j < i {
        assert(lockable_lt(s[j].0, s[i].0));
    }
}

/// Law: at equal priority and lock flag, the entry with the smaller bucket
/// sequence — inserted earlier, since every push takes a sequence above the
/// bucket's maximum — stands first, so insertion order is preserved.
pub proof fn lemma_lockable_insertion_order<T>(s: Seq<(LockableFlag, T)>, i: int, j: int)
    requires
        sorted_lockable(s),
        0 <= i < s.len(),
        0 <= j < s.len(),
        s[i].0.priority == s[j].0.priority,
        s[i].0.locked == s[j].0.locked,
        s[i].0.sequence < s[j].0.sequence,
    ensures
        i < j,
{
    if j < i {
        assert(lockable_lt(s[j].0, s[i].0));
    }
    if i == j {
        assert(false);
    }
}

/// Inserting an entry between its strict lower and upper neighbours keeps the
/// store sorted.
proof fn lemma_lockable_sorted_insert<T>(s: Seq<(LockableFlag, T)>, pos: int, e: (LockableFlag, T))
    requires
        sorted_lockable(s),
        0 <= pos <= s.len(),
        forall|i: int| 0 <= i < pos ==> lockable_lt(s[i].0, e.0),
        forall|i: int| pos <= i < s.len() ==> lockable_lt(e.0, s[i].0),
    ensures
        sorted_lockable(s.insert(pos, e)),
{
    s.insert_ensures(pos, e);
    let t = s.insert(pos, e);
    assert forall|i: int, j: int| 0 <= i < j < t.len() implies lockable_lt(t[i].0, t[j].0) by {
        if i < pos {
            assert(t[i] == s[i]);
        } else if i == pos {
            assert(t[i] == e);
        } else {
            assert(t[i] == s[i - 1]);
        }
        if j < pos {
            assert(t[j] == s[j]);
        } else if j == pos {
            assert(t[j] == e);
        } else {
            assert(t[j] == s[j - 1]);
        }
    }
}

/// Removing an entry keeps the store sorted.
proof fn lemma_lockable_sorted_remove<T>(s: Seq<(LockableFlag, T)>, at: int)
    requires
        0 <= at < s.len(),
        sorted_lockable(s),
    ensures
        sorted_lockable(s.remove(at)),
{
    s.remove_ensures(at);
    let t = s.remove(at);
    assert forall|i: int, j: int| 0 <= i < j < t.len() implies lockable_lt(t[i].0, t[j].0) by {
        let i0 = if i < at { i } else { i + 1 };
        let j0 = if j < at { j } else { j + 1 };
        assert(t[i] == s[i0]);
        assert(t[j] == s[j0]);
    }
}

/// An ordered collection keyed by (priority, lock flag, bucket sequence):
/// no wall-clock timestamp, no capacity limit, no by-identifier lookup.
pub struct LockableQueue<T: Queueable> {
    ordered: Vec<(LockableFlag, T)>,
}

impl<T: Queueable> LockableQueue<T> {
    /// The stored entries, in the order pops will serve them.
    pub closed spec fn entries(&self) -> Seq<(LockableFlag, T)> {
        self.ordered@
    }

    /// Well-formedness: entries stand in strictly ascending reduced-key order.
    pub open spec fn wf(&self) -> bool {
        sorted_lockable(self.entries())
    }

    /// Creates an empty queue.
    pub fn new() -> (r: Self)
        ensures
            r.wf(),
            r.entries() == Seq::<(LockableFlag, T)>::empty(),
    {
        Self { ordered: Vec::new() }
    }

    /// The largest sequence number among entries sharing the given priority
    /// and lock flag, or 0 when none do.
    fn bucket_max(&self, priority: u32, lock: LockStatus) -> (r: u32)
        ensures
            r == bucket_max_seq(self.entries(), priority, lock),
    {
        let mut high: u32 = 0;
        let mut idx: usize = 0;
        proof {
            assert(self.entries().take(0) =~= Seq::<(LockableFlag, T)>::empty());
        }
        while idx < self.ordered.len()
            invariant
                idx <= self.entries().len(),
                high == bucket_max_seq(self.entries().take(idx as int), priority, lock),
            decreases self.entries().len() - idx,
        {
            let entry = &self.ordered[idx];
            proof {
                assert(self.entries().take(idx + 1).drop_last() =~= self.entries().take(
                    idx as int,
                ));
                assert(self.entries().take(idx + 1).last() == self.entries()[idx as int]);
                lemma_bucket_max_in_range(self.entries().take(idx as int), priority, lock);
            }
            let same_priority = entry.0.priority == priority;
            let same_lock = match (entry.0.locked, lock) {
                (LockStatus::Locked, LockStatus::Locked) => true,
                (LockStatus::Unlocked, LockStatus::Unlocked) => true,
                _ => false,
            };
            if same_priority && same_lock && entry.0.sequence > high {
                high = entry.0.sequence;
            }
            idx += 1;
        }
        proof {
            assert(self.entries().take(self.entries().len() as int) =~= self.entries());
        }
        high
    }

    /// Pushes a prioritized item. Its bucket sequence becomes one more than
    /// the bucket's current maximum (one, when the bucket is empty), so items
    /// of equal priority and lock flag pop in insertion order. On failure the
    /// queue is unchanged: `PriorityRequired` when the item carries no
    /// priority, and `CounterExhausted` when the bucket's sequence space is
    /// spent.
    pub fn push(&mut self, item: Prio<T>) -> (r: Result<(), QueueError>)
        requires
            old(self).wf(),
        ensures
            final(self).wf(),
            item.priority is None ==> r == Err::<(), QueueError>(QueueError::PriorityRequired)
                && *final(self) == *old(self),
            item.priority matches Some(p) ==> {
                &&& (r is Ok <==> bucket_max_seq(old(self).entries(), p, item.locked) < u32::MAX)
                &&& r is Err ==> r == Err::<(), QueueError>(QueueError::CounterExhausted)
                    && *final(self) == *old(self)
                &&& r is Ok ==> exists|pos: int|
                    0 <= pos <= old(self).entries().len() && final(self).entries() == #[trigger] old(
                        self,
                    ).entries().insert(
                        pos,
                        (
                            LockableFlag {
                                priority: p,
                                locked: item.locked,
                                sequence: (bucket_max_seq(old(self).entries(), p, item.locked)
                                    + 1) as u32,
                            },
                            item.item,
                        ),
                    )
            },
    {
        let p = match item.priority {
            None => {
                return Err(QueueError::PriorityRequired);
            },
            Some(p) => p,
        };
        let high = self.bucket_max(p, item.locked);
        if high == u32::MAX {
            return Err(QueueError::CounterExhausted);
        }
        let flag = LockableFlag { priority: p, locked: item.locked, sequence: high + 1 };
        proof {
            assert forall|i: int| 0 <= i < self.entries().len() implies self.entries()[i].0
                != flag by {
                let stored = self.entries()[i].0;
                if stored.priority == flag.priority && stored.locked == flag.locked {
                    lemma_bucket_max_bounds(self.entries(), p, item.locked, i);
                }
            }
        }
        let ghost before = self.entries();
        let ghost payload = item.item;
        let pos = self.insert_sorted(flag, item.item);
        proof {
            assert(self.entries() == before.insert(pos as int, (flag, payload)));
        }
        Ok(())
    }

    /// Inserts an entry whose key equals no stored key, at its sorted
    /// position, which it returns.
    fn insert_sorted(&mut self, flag: LockableFlag, item: T) -> (pos: usize)
        requires
            old(self).wf(),
            forall|i: int| 0 <= i < old(self).entries().len() ==> old(self).entries()[i].0 != flag,
        ensures
            final(self).wf(),
            pos <= old(self).entries().len(),
            final(self).entries() == old(self).entries().insert(pos as int, (flag, item)),
    {
        let mut idx: usize = 0;
        while idx < self.ordered.len() && !Self::comes_before(&flag, &self.ordered[idx].0)
            invariant
                self.wf(),
                idx <= self.entries().len(),
                forall|i: int| 0 <= i < self.entries().len() ==> self.entries()[i].0 != flag,
                forall|i: int| 0 <= i < idx ==> lockable_lt(self.entries()[i].0, flag),
            decreases self.entries().len() - idx,
        {
            proof {
                lemma_lockable_lt_trichotomy(flag, self.entries()[idx as int].0);
            }
            idx += 1;
        }
        proof {
            assert forall|i: int| idx <= i < self.entries().len() implies lockable_lt(
                flag,
                self.entries()[i].0,
            ) by {
                if i > idx {
                    assert(lockable_lt(self.entries()[idx as int].0, self.entries()[i].0));
                }
            }
            lemma_lockable_sorted_insert(self.entries(), idx as int, (flag, item));
        }
        self.ordered.insert(idx, (flag, item));
        idx
    }

    /// True when `a` sorts strictly before `b` in the retrieval order.
    fn comes_before(a: &LockableFlag, b: &LockableFlag) -> (r: bool)
        ensures
            r == lockable_lt(*a, *b),
    {
        if a.priority != b.priority {
            a.priority < b.priority
        } else {
            match (a.locked, b.locked) {
                (LockStatus::Locked, LockStatus::Unlocked) => true,
                (LockStatus::Unlocked, LockStatus::Locked) => false,
                _ => a.sequence < b.sequence,
            }
        }
    }

    /// Removes and returns the payload with the minimum key, or `None` when
    /// the queue is empty.
    pub fn pop(&mut self) -> (r: Option<T>)
        requires
            old(self).wf(),
        ensures
            final(self).wf(),
            old(self).entries().len() == 0 ==> r is None && *final(self) == *old(self),
            old(self).entries().len() > 0 ==> {
                &&& r == Some(old(self).entries()[0].1)
                &&& final(self).entries() == old(self).entries().remove(0)
            },
    {
        if self.ordered.len() == 0 {
            None
        } else {
            proof {
                lemma_lockable_sorted_remove(self.ordered@, 0);
            }
            let (_, payload) = self.ordered.remove(0);
            Some(payload)
        }
    }

    /// All stored payloads, in the order pops would serve them.
    pub fn get_elements(&self) -> (r: Vec<&T>)
        ensures
            r@.len() == self.entries().len(),
            forall|i: int| 0 <= i < r@.len() ==> r@[i] == self.entries()[i].1,
    {
        payload_refs(&self.ordered)
    }
}

} // verus!
