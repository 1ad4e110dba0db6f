//! The ordered store shared by the unbounded and the bounded queue: a vector
//! of (key, payload) entries kept strictly sorted by the key order `flag_lt`,
//! together with the bookkeeping facts that make identifiers unique and
//! timestamps non-decreasing in insertion order, and the laws that follow
//! from them.

use vstd::prelude::*;

use crate::queue::prelude::{flag_lt, lemma_flag_lt_trichotomy, LockStatus, QueueFlag};

verus! {

/// Entries stand in strictly ascending key order.
pub open spec fn sorted_flags<T>(s: Seq<(QueueFlag, T)>) -> bool {
    forall|i: int, j: int| 0 <= i < j < s.len() ==> flag_lt(s[i].0, s[j].0)
}

/// Every stored identifier was issued before `next`.
pub open spec fn ids_below<T>(s: Seq<(QueueFlag, T)>, next: u32) -> bool {
    forall|i: int| 0 <= i < s.len() ==> s[i].0.identifier < next
}

/// No two entries carry the same identifier.
pub open spec fn ids_distinct<T>(s: Seq<(QueueFlag, T)>) -> bool {
    forall|i: int, j: int|
        0 <= i < j < s.len() ==> s[i].0.identifier != s[j].0.identifier
}

/// Every stored timestamp is at most `floor`.
pub open spec fn stamps_at_most<T>(s: Seq<(QueueFlag, T)>, floor: u64) -> bool {
    forall|i: int| 0 <= i < s.len() ==> s[i].0.timestamp <= floor
}

/// Timestamps never decrease in insertion order: an entry with a smaller
/// identifier, which was issued earlier, carries a timestamp at most that of
/// an entry with a larger one.
pub open spec fn stamps_follow_ids<T>(s: Seq<(QueueFlag, T)>) -> bool {
    forall|i: int, j: int|
        0 <= i < s.len() && 0 <= j < s.len()
            && s[i].0.identifier < s[j].0.identifier
            ==> s[i].0.timestamp <= s[j].0.timestamp
}

/// Some entry carries the identifier `id`.
pub open spec fn has_id<T>(s: Seq<(QueueFlag, T)>, id: u32) -> bool {
    exists|i: int| 0 <= i < s.len() && s[i].0.identifier == id
}

/// No two entries share a priority.
pub open spec fn distinct_priorities<T>(s: Seq<(QueueFlag, T)>) -> bool {
    forall|i: int, j: int|
        0 <= i < j < s.len() ==> s[i].0.priority != s[j].0.priority
}

/// Law: when all stored priorities are distinct, entries stand in strictly
/// ascending priority order; since pop always removes the first entry, pop
/// order is then strictly ascending by priority.
pub proof fn lemma_distinct_priorities_ascending<T>(s: Seq<(QueueFlag, T)>, i: int, j: int)
    requires
        sorted_flags(s),
        distinct_priorities(s),
        0 <= i < j < s.len(),
    ensures
        s[i].0.priority < s[j].0.priority,
{
    assert(flag_lt(s[i].0, s[j].0));
    assert(s[i].0.priority != s[j].0.priority);
}

/// Law: within one priority band a locked entry stands before every unlocked
/// one, whenever either was inserted; since pop removes the first entry, the
/// locked item pops first.
pub proof fn lemma_locked_first_within_priority<T>(s: Seq<(QueueFlag, T)>, i: int, j: int)
    requires
        sorted_flags(s),
        0 <= i < s.len(),
        0 <= j < s.len(),
        s[i].0.priority == s[j].0.priority,
        s[i].0.locked == LockStatus::Locked,
        s[j].0.locked == LockStatus::Unlocked,
    ensures
        i < j,
{
    if j < i {
        assert(flag_lt(s[j].0, s[i].0));
    }
}

/// Law: at equal priority and lock flag, the earlier-inserted entry — the one
/// with the smaller identifier, whose timestamp is then no larger — stands
/// first, so it pops first: timestamp decides, and the identifier is the
/// final tie-break.
pub proof fn lemma_insertion_order_within_band<T>(s: Seq<(QueueFlag, T)>, i: int, j: int)
    requires
        sorted_flags(s),
        stamps_follow_ids(s),
        0 <= i < s.len(),
        0 <= j < s.len(),
        s[i].0.priority == s[j].0.priority,
        s[i].0.locked == s[j].0.locked,
        s[i].0.identifier < s[j].0.identifier,
    ensures
        i < j,
{
    assert(s[i].0.timestamp <= s[j].0.timestamp);
    if j < i {
        assert(flag_lt(s[j].0, s[i].0));
    }
    if i == j {
        assert(false);
    }
}

/// Inserting an entry between its strict lower and upper neighbours keeps the
/// store sorted.
pub proof fn lemma_sorted_insert<T>(s: Seq<(QueueFlag, T)>, pos: int, e: (QueueFlag, T))
    requires
        sorted_flags(s),
        0 <= pos <= s.len(),
        forall|i: int| 0 <= i < pos ==> flag_lt(s[i].0, e.0),
        forall|i: int| pos <= i < s.len() ==> flag_lt(e.0, s[i].0),
    ensures
        sorted_flags(s.insert(pos, e)),
{
    s.insert_ensures(pos, e);
    let t = s.insert(pos, e);
    assert forall|i: int, j: int| 0 <= i < j < t.len() implies flag_lt(t[i].0, t[j].0) by {
        if i < pos {
            assert(t[i] == s[i]);
        } else if i == pos {
            assert(t[i] == e);
        } else {
            assert(t[i] == s[i - 1]);
        }
        if j < pos {
            assert(t[j] == s[j]);
        } else if j == pos {
            assert(t[j] == e);
        } else {
            assert(t[j] == s[j - 1]);
        }
    }
}

/// Inserting a fresh entry — identifier equal to the counter, timestamp at
/// least the floor — keeps every bookkeeping fact, with the counter stepped
/// past the new identifier and the floor raised to the new timestamp.
pub proof fn lemma_insert_keeps_bookkeeping<T>(
    s: Seq<(QueueFlag, T)>,
    pos: int,
    e: (QueueFlag, T),
    next: u32,
    floor: u64,
)
    requires
        0 <= pos <= s.len(),
        ids_below(s, next),
        ids_distinct(s),
        stamps_at_most(s, floor),
        stamps_follow_ids(s),
        e.0.identifier == next,
        next < u32::MAX,
        e.0.timestamp >= floor,
    ensures
        ids_below(s.insert(pos, e), (next + 1) as u32),
        ids_distinct(s.insert(pos, e)),
        stamps_at_most(s.insert(pos, e), e.0.timestamp),
        stamps_follow_ids(s.insert(pos, e)),
{
    s.insert_ensures(pos, e);
    let t = s.insert(pos, e);
    assert forall|i: int| 0 <= i < t.len() implies t[i].0.identifier < next + 1
        && t[i].0.timestamp <= e.0.timestamp by {
        if i < pos {
            assert(t[i] == s[i]);
        } else if i == pos {
            assert(t[i] == e);
        } else {
            assert(t[i] == s[i - 1]);
        }
    }
    assert forall|i: int, j: int|
        0 <= i < j < t.len() implies t[i].0.identifier != t[j].0.identifier by {
        lemma_insert_entry_origin(s, pos, e, i);
        lemma_insert_entry_origin(s, pos, e, j);
    }
    assert forall|i: int, j: int|
        0 <= i < t.len() && 0 <= j < t.len() && t[i].0.identifier < t[j].0.identifier
            implies t[i].0.timestamp <= t[j].0.timestamp by {
        lemma_insert_entry_origin(s, pos, e, i);
        lemma_insert_entry_origin(s, pos, e, j);
    }
}

/// Every entry of `s.insert(pos, e)` is either `e` or an entry of `s`.
proof fn lemma_insert_entry_origin<T>(s: Seq<(QueueFlag, T)>, pos: int, e: (QueueFlag, T), i: int)
    requires
        0 <= pos <= s.len(),
        0 <= i < s.len() + 1,
    ensures
        i == pos ==> s.insert(pos, e)[i] == e,
        i < pos ==> s.insert(pos, e)[i] == s[i],
        i > pos ==> s.insert(pos, e)[i] == s[i - 1],
{
    s.insert_ensures(pos, e);
}

/// Removing an entry keeps the store sorted and every bookkeeping fact.
pub proof fn lemma_remove_keeps_wf<T>(s: Seq<(QueueFlag, T)>, at: int, next: u32, floor: u64)
    requires
        0 <= at < s.len(),
        sorted_flags(s),
        ids_below(s, next),
        ids_distinct(s),
        stamps_at_most(s, floor),
        stamps_follow_ids(s),
    ensures
        sorted_flags(s.remove(at)),
        ids_below(s.remove(at), next),
        ids_distinct(s.remove(at)),
        stamps_at_most(s.remove(at), floor),
        stamps_follow_ids(s.remove(at)),
{
    s.remove_ensures(at);
    let t = s.remove(at);
    assert forall|i: int| 0 <= i < t.len() implies t[i] == s[if i < at { i } else { i + 1 }] by {
    }
    assert forall|i: int, j: int| 0 <= i < j < t.len() implies flag_lt(t[i].0, t[j].0)
        && t[i].0.identifier != t[j].0.identifier by {
        let i0 = if i < at { i } else { i + 1 };
        let j0 = if j < at { j } else { j + 1 };
        assert(t[i] == s[i0]);
        assert(t[j] == s[j0]);
    }
    assert forall|i: int, j: int|
        0 <= i < t.len() && 0 <= j < t.len() && t[i].0.identifier < t[j].0.identifier
            implies t[i].0.timestamp <= t[j].0.timestamp by {
        let i0 = if i < at { i } else { i + 1 };
        let j0 = if j < at { j } else { j + 1 };
        assert(t[i] == s[i0]);
        assert(t[j] == s[j0]);
    }
}

/// The index at which a fresh key must be inserted to keep the store sorted:
/// everything before it is strictly smaller, everything from it on strictly
/// larger.
pub(crate) fn insert_position<T>(entries: &Vec<(QueueFlag, T)>, flag: &QueueFlag) -> (pos: usize)
    requires
        sorted_flags(entries@),
        forall|i: int|
            0 <= i < entries@.len() ==> entries@[i].0.identifier != flag.identifier,
    ensures
        pos <= entries@.len(),
        forall|i: int| 0 <= i < pos ==> flag_lt(entries@[i].0, *flag),
        forall|i: int| pos <= i < entries@.len() ==> flag_lt(*flag, entries@[i].0),
{
    let mut idx: usize = 0;
    while idx < entries.len() && !flag.comes_before(&entries[idx].0)
        invariant
            idx <= entries@.len(),
            sorted_flags(entries@),
            forall|i: int|
                0 <= i < entries@.len() ==> entries@[i].0.identifier != flag.identifier,
            forall|i: int| 0 <= i < idx ==> flag_lt(entries@[i].0, *flag),
        decreases entries@.len() - idx,
    {
        proof {
            lemma_flag_lt_trichotomy(*flag, entries@[idx as int].0);
        }
        idx += 1;
    }
    proof {
        assert forall|i: int| idx <= i < entries@.len() implies flag_lt(*flag, entries@[i].0) by {
            if i > idx {
                assert(flag_lt(entries@[idx as int].0, entries@[i].0));
            }
        }
    }
    idx
}

/// Inserts a fresh entry at its sorted position, which it returns.
pub(crate) fn insert_entry<T>(entries: &mut Vec<(QueueFlag, T)>, flag: QueueFlag, item: T) -> (pos:
    usize)
    requires
        sorted_flags(old(entries)@),
        forall|i: int|
            0 <= i < old(entries)@.len()
                ==> old(entries)@[i].0.identifier != flag.identifier,
    ensures
        pos <= old(entries)@.len(),
        final(entries)@ == old(entries)@.insert(pos as int, (flag, item)),
        final(entries)@.len() == old(entries)@.len() + 1,
        sorted_flags(final(entries)@),
{
    let pos = insert_position(entries, &flag);
    proof {
        lemma_sorted_insert(entries@, pos as int, (flag, item));
        entries@.insert_ensures(pos as int, (flag, item));
    }
    entries.insert(pos, (flag, item));
    pos
}

/// Issues the next identifier, stamps a key with a clamped insertion time, and
/// inserts the entry at its sorted position. The counter steps by one and the
/// stamp floor never decreases, so identifiers stay unique and timestamps
/// follow insertion order.
pub(crate) fn stamped_insert<T>(
    entries: &mut Vec<(QueueFlag, T)>,
    counter: &mut u32,
    floor: &mut u64,
    priority: u32,
    lock: LockStatus,
    item: T,
) -> (id: u32)
    requires
        sorted_flags(old(entries)@),
        ids_below(old(entries)@, *old(counter)),
        ids_distinct(old(entries)@),
        stamps_at_most(old(entries)@, *old(floor)),
        stamps_follow_ids(old(entries)@),
        *old(counter) < u32::MAX,
    ensures
        id == *old(counter),
        *final(counter) == id + 1,
        *final(floor) >= *old(floor),
        sorted_flags(final(entries)@),
        ids_below(final(entries)@, *final(counter)),
        ids_distinct(final(entries)@),
        stamps_at_most(final(entries)@, *final(floor)),
        stamps_follow_ids(final(entries)@),
        final(entries)@.len() == old(entries)@.len() + 1,
        exists|pos: int, stamp: u64|
            0 <= pos <= old(entries)@.len() && final(entries)@ == old(entries)@.insert(
                pos,
                (
                    QueueFlag {
                        priority,
                        locked: lock,
                        identifier: id,
                        timestamp: stamp,
                    },
                    item,
                ),
            ),
{
    let id = *counter;
    *counter = id + 1;
    let mut flag = QueueFlag::new(priority, lock, id);
    if flag.timestamp < *floor {
        flag.timestamp = *floor;
    } else {
        *floor = flag.timestamp;
    }
    let ghost stamp = flag.timestamp;
    let ghost before = entries@;
    let ghost payload = item;
    let pos = insert_entry(entries, flag, item);
    proof {
        lemma_insert_keeps_bookkeeping(before, pos as int, (flag, payload), id, *old(floor));
        assert(entries@ == before.insert(
            pos as int,
            (
                QueueFlag { priority, locked: lock, identifier: id, timestamp: stamp },
                payload,
            ),
        ));
    }
    id
}

/// The index of the entry carrying `id`, if any; a full scan, since
/// identifiers are not monotonic with the key order.
pub(crate) fn find_id_index<T>(entries: &Vec<(QueueFlag, T)>, id: u32) -> (r: Option<usize>)
    ensures
        match r {
            Some(at) => at < entries@.len() && entries@[at as int].0.identifier == id,
            None => !has_id(entries@, id),
        },
{
    let mut idx: usize = 0;
    while idx < entries.len()
        invariant
            idx <= entries@.len(),
            forall|k: int| 0 <= k < idx ==> entries@[k].0.identifier != id,
        decreases entries@.len() - idx,
    {
        if entries[idx].0.identifier == id {
            return Some(idx);
        }
        idx += 1;
    }
    None
}

/// The payloads of all entries, in store order, by reference.
pub(crate) fn payload_refs<K, T>(entries: &Vec<(K, T)>) -> (r: Vec<&T>)
    ensures
        r@.len() == entries@.len(),
        forall|i: int| 0 <= i < entries@.len() ==> r@[i] == entries@[i].1,
{
    let mut out: Vec<&T> = Vec::new();
    let mut idx: usize = 0;
    while idx < entries.len()
        invariant
            idx <= entries@.len(),
            out@.len() == idx,
            forall|i: int| 0 <= i < idx ==> out@[i] == entries@[i].1,
        decreases entries@.len() - idx,
    {
        out.push(&entries[idx].1);
        idx += 1;
    }
    out
}

} // verus!
