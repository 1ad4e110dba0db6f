//! The vocabulary shared by every container: the lock flag, the composite
//! ordering key, the prioritized-item wrapper handed to insertion operations,
//! the storable-element marker, and the error type.

use vstd::prelude::*;

verus! {

/// Marker for value types that may be stored in a queue.
///
/// The marker carries no behavioral requirement beyond `Clone`; it is an
/// opt-in declaration, so it is provided for every cloneable type.
pub trait Queueable: Clone {}

impl<T: Clone> Queueable for T {}

/// Whether an item is pinned to the front of its priority band.
#[derive(Clone, Copy, PartialEq, Eq, Debug)]
pub enum LockStatus {
    Unlocked,
    Locked,
}

/// The composite ordering key: priority, lock flag, insertion time and a
/// unique identifier. Every ordered container sorts its entries by the total
/// order `flag_lt`, and "pop" always removes the minimum key.
#[derive(Clone, Copy, PartialEq, Eq, Debug)]
pub struct QueueFlag {
    /// Whether the item is pinned before unlocked items of equal priority.
    pub locked: LockStatus,
    /// The priority band; smaller priorities are served first.
    pub priority: u32,
    /// A unique identifier, the final, always-distinguishing tie-break.
    pub identifier: u32,
    /// Seconds since the Unix epoch at insertion time.
    pub timestamp: u64,
}

/// Rank of a lock flag inside a priority band: locked items sort first.
pub open spec fn lock_rank(l: LockStatus) -> int {
    match l {
        LockStatus::Locked => 0,
        LockStatus::Unlocked => 1,
    }
}

/// The strict total order on ordering keys: ascending priority, then
/// locked before unlocked, then ascending timestamp, then ascending
/// identifier.
pub open spec fn flag_lt(a: QueueFlag, b: QueueFlag) -> bool {
    ||| a.priority < b.priority
    ||| (a.priority == b.priority && lock_rank(a.locked) < lock_rank(b.locked))
    ||| (a.priority == b.priority && a.locked == b.locked && a.timestamp < b.timestamp)
    ||| (a.priority == b.priority && a.locked == b.locked && a.timestamp == b.timestamp
        && a.identifier < b.identifier)
}

/// `flag_lt` relates every two distinct keys one way or the other.
pub proof fn lemma_flag_lt_trichotomy(a: QueueFlag, b: QueueFlag)
    ensures
        flag_lt(a, b) || flag_lt(b, a) || a == b,
{
    if a.priority == b.priority && a.locked == b.locked && a.timestamp == b.timestamp
        && a.identifier == b.identifier {
        assert(a == b);
    }
}

/// Relies on `std::time::SystemTime::now` and `duration_since`: seconds since
/// the Unix epoch as the system clock reports them, or 0 when the clock reads
/// earlier than the epoch. The result depends on the wall clock, so nothing is
/// promised of it; containers clamp it so stored timestamps never decrease.
#[verifier::external_body]
fn unix_time_seconds() -> u64 {
    match std::time::SystemTime::now().duration_since(std::time::UNIX_EPOCH) {
        Ok(elapsed) => elapsed.as_secs(),
        Err(_) => 0,
    }
}

impl QueueFlag {
    /// Builds a key for an item of the given priority, lock flag and
    /// identifier, stamped with the current time. The timestamp is whatever
    /// the clock reports, so callers that need non-decreasing stamps clamp it
    /// afterwards.
    pub fn new(priority: u32, lock: LockStatus, id: u32) -> (r: Self)
        ensures
            r.priority == priority,
            r.locked == lock,
            r.identifier == id,
    {
        let now: u64 = unix_time_seconds();
        Self { priority, identifier: id, locked: lock, timestamp: now }
    }

    /// True when `self` sorts strictly before `other` in the retrieval order.
    pub fn comes_before(&self, other: &QueueFlag) -> (r: bool)
        ensures
            r == flag_lt(*self, *other),
    {
        if self.priority != other.priority {
            self.priority < other.priority
        } else {
            match (self.locked, other.locked) {
                (LockStatus::Locked, LockStatus::Unlocked) => true,
                (LockStatus::Unlocked, LockStatus::Locked) => false,
                _ => {
                    if self.timestamp != other.timestamp {
                        self.timestamp < other.timestamp
                    } else {
                        self.identifier < other.identifier
                    }
                },
            }
        }
    }
}

/// A value-priority-lock triple supplied by the caller of a push operation.
/// The priority is optional: absence asks the container to assign one.
#[derive(Clone, Debug)]
pub struct Prio<T: Queueable> {
    /// The payload; only this persists inside the container after a push.
    pub item: T,
    /// The priority the caller chose; `None` asks the container to assign one.
    pub priority: Option<u32>,
    /// Whether the item is pinned before unlocked items of equal priority.
    pub locked: LockStatus,
}

impl<T: Queueable> Prio<T> {
    /// The priority the caller supplied, if any.
    pub open spec fn spec_priority(&self) -> Option<u32> {
        self.priority
    }

    /// Wraps an item with an explicit priority choice and lock flag.
    pub fn new(item: T, priority: Option<u32>, lock: LockStatus) -> (r: Self)
        ensures
            r.item == item,
            r.spec_priority() == priority,
            r.locked == lock,
    {
        Self { item, priority, locked: lock }
    }

    /// Wraps an item with a lock and the most urgent priority, 0.
    pub fn wlip(item: T) -> (r: Self)
        ensures
            r.item == item,
            r.spec_priority() == Some(0u32),
            r.locked == LockStatus::Locked,
    {
        Self { item, priority: Some(0), locked: LockStatus::Locked }
    }

    /// Wraps an item without a lock and with the most urgent priority, 0.
    pub fn wolip(item: T) -> (r: Self)
        ensures
            r.item == item,
            r.spec_priority() == Some(0u32),
            r.locked == LockStatus::Unlocked,
    {
        Self { item, priority: Some(0), locked: LockStatus::Unlocked }
    }

    /// Wraps an item with a lock.
    pub fn wlock(item: T, priority: Option<u32>) -> (r: Self)
        ensures
            r.item == item,
            r.spec_priority() == priority,
            r.locked == LockStatus::Locked,
    {
        Self { item, priority, locked: LockStatus::Locked }
    }

    /// Wraps an item without a lock.
    pub fn wolock(item: T, priority: Option<u32>) -> (r: Self)
        ensures
            r.item == item,
            r.spec_priority() == priority,
            r.locked == LockStatus::Unlocked,
    {
        Self { item, priority, locked: LockStatus::Unlocked }
    }

    /// The priority the caller supplied, if any.
    pub fn priority(&self) -> (r: Option<u32>)
        ensures
            r == self.spec_priority(),
    {
        self.priority
    }
}

/// Every failure a container reports. All are local, expected conditions
/// returned to the caller; no operation aborts the process, and a failed
/// insertion never mutates the container.
#[derive(Clone, Copy, PartialEq, Eq, Debug)]
pub enum QueueError {
    /// The supplied priority falls outside the container's declared range.
    PriorityOutOfRange,
    /// A reject-on-collision insertion found its target slot occupied.
    PriorityTaken,
    /// A next-free-slot insertion found no open slot in the range.
    RangeExhausted,
    /// A bounded queue is at capacity.
    QueueFull,
    /// A pop, peek or retrieval was attempted on an empty container.
    EmptyQueue,
    /// A retrieval by identifier found no matching entry.
    IdNotFound,
    /// An operation requiring an explicit priority received none.
    PriorityRequired,
    /// The identifier or sequence counter has issued every value of its
    /// width. The counters never wrap, so that identifiers stay unique: a
    /// push that would need a fresh value past the last one fails instead.
    CounterExhausted,
}

} // verus!
