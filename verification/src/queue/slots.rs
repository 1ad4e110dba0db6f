//! The dense-slot engine shared by the list- and the map-shaped priority
//! container: a vector of (slot, payload) entries kept strictly sorted by
//! slot, every slot within a declared range, at most one payload per slot.

use vstd::prelude::*;

use crate::queue::prelude::QueueError;

verus! {

/// Entries stand in strictly ascending slot order, so no slot repeats.
pub open spec fn slots_sorted<P>(s: Seq<(u32, P)>) -> bool {
    forall|i: int, j: int| 0 <= i < j < s.len() ==> s[i].0 < s[j].0
}

/// Every slot lies within the declared range.
pub open spec fn slots_in_range<P>(s: Seq<(u32, P)>, lo: u32, hi: u32) -> bool {
    forall|i: int| 0 <= i < s.len() ==> lo <= #[trigger] s[i].0 <= hi
}

/// Some entry occupies the slot `p`.
pub open spec fn has_slot<P>(s: Seq<(u32, P)>, p: u32) -> bool {
    exists|i: int| 0 <= i < s.len() && s[i].0 == p
}

/// Well-formedness of a slotted container over the range `[lo, hi]`: sorted,
/// in range, the range not inverted and small enough that its slot count fits
/// the machine's word.
pub open spec fn slotted_wf<P>(s: Seq<(u32, P)>, lo: u32, hi: u32) -> bool {
    &&& slots_sorted(s)
    &&& slots_in_range(s, lo, hi)
    &&& lo <= hi
    &&& hi - lo + 1 <= usize::MAX
}

/// `pos` splits `s` into the entries whose slot is below `target` and those
/// whose slot is at least `target`.
pub open spec fn split_before<P>(s: Seq<(u32, P)>, target: u32, pos: int) -> bool {
    &&& 0 <= pos <= s.len()
    &&& forall|i: int| 0 <= i < pos ==> (#[trigger] s[i]).0 < target
    &&& forall|i: int| pos <= i < s.len() ==> (#[trigger] s[i]).0 >= target
}

/// The result of a shift-to-insert: the entries below `target` unchanged, the
/// new entry at `target`, and every entry from `pos` on displaced one slot
/// upward.
pub open spec fn shifted_insertion<P>(s: Seq<(u32, P)>, pos: int, target: u32, payload: P) -> Seq<
    (u32, P),
> {
    s.take(pos) + seq![(target, payload)] + s.skip(pos).map_values(
        |e: (u32, P)| (((e.0 + 1) as u32, e.1)),
    )
}

/// Law: a shift-to-insert grows the entry count from `n` to `n + 1`, leaves
/// every entry below the target slot unchanged, and moves every entry at or
/// above the target up by exactly one slot, keeping its payload and its
/// position relative to the others.
pub proof fn lemma_shift_insertion_entries<P>(s: Seq<(u32, P)>, pos: int, target: u32, payload: P)
    requires
        split_before(s, target, pos),
    ensures
        shifted_insertion(s, pos, target, payload).len() == s.len() + 1,
        forall|i: int| 0 <= i < pos ==> shifted_insertion(s, pos, target, payload)[i] == s[i],
        shifted_insertion(s, pos, target, payload)[pos] == (target, payload),
        forall|i: int|
            pos <= i < s.len() ==> shifted_insertion(s, pos, target, payload)[i + 1] == (((
            s[i].0 + 1) as u32, s[i].1)),
{
    let t = shifted_insertion(s, pos, target, payload);
    assert forall|i: int| pos <= i < s.len() implies t[i + 1] == (((s[i].0 + 1) as u32, s[i].1)) by {
        assert(s.skip(pos)[i - pos] == s[i]);
    }
}

/// Inserting an entry between its strict lower and upper neighbours keeps the
/// entries sorted and in range.
pub proof fn lemma_slot_insert_keeps_wf<P>(s: Seq<(u32, P)>, pos: int, e: (u32, P), lo: u32, hi: u32)
    requires
        slots_sorted(s),
        slots_in_range(s, lo, hi),
        0 <= pos <= s.len(),
        forall|i: int| 0 <= i < pos ==> s[i].0 < e.0,
        forall|i: int| pos <= i < s.len() ==> e.0 < s[i].0,
        lo <= e.0 <= hi,
    ensures
        slots_sorted(s.insert(pos, e)),
        slots_in_range(s.insert(pos, e), lo, hi),
{
    s.insert_ensures(pos, e);
    let t = s.insert(pos, e);
    assert forall|i: int, j: int| 0 <= i < j < t.len() implies t[i].0 < t[j].0 by {
        if i < pos {
            assert(t[i] == s[i]);
        } else if i == pos {
            assert(t[i] == e);
        } else {
            assert(t[i] == s[i - 1]);
        }
        if j < pos {
            assert(t[j] == s[j]);
        } else if j == pos {
            assert(t[j] == e);
        } else {
            assert(t[j] == s[j - 1]);
        }
    }
    assert forall|i: int| 0 <= i < t.len() implies lo <= #[trigger] t[i].0 <= hi by {
        if i < pos {
            assert(t[i] == s[i]);
        } else if i == pos {
            assert(t[i] == e);
        } else {
            assert(t[i] == s[i - 1]);
        }
    }
}

/// Replacing the payload of one slot keeps the entries sorted and in range.
pub proof fn lemma_slot_update_keeps_wf<P>(s: Seq<(u32, P)>, at: int, e: (u32, P), lo: u32, hi: u32)
    requires
        slots_sorted(s),
        slots_in_range(s, lo, hi),
        0 <= at < s.len(),
        e.0 == s[at].0,
    ensures
        slots_sorted(s.update(at, e)),
        slots_in_range(s.update(at, e), lo, hi),
{
}

/// Removing an entry keeps the entries sorted and in range.
pub proof fn lemma_slot_remove_keeps_wf<P>(s: Seq<(u32, P)>, at: int, lo: u32, hi: u32)
    requires
        slots_sorted(s),
        slots_in_range(s, lo, hi),
        0 <= at < s.len(),
    ensures
        slots_sorted(s.remove(at)),
        slots_in_range(s.remove(at), lo, hi),
{
    s.remove_ensures(at);
    let t = s.remove(at);
    assert forall|i: int, j: int| 0 <= i < j < t.len() implies t[i].0 < t[j].0 by {
        let i0 = if i < at { i } else { i + 1 };
        let j0 = if j < at { j } else { j + 1 };
        assert(t[i] == s[i0]);
        assert(t[j] == s[j0]);
    }
    assert forall|i: int| 0 <= i < t.len() implies lo <= #[trigger] t[i].0 <= hi by {
        let i0 = if i < at { i } else { i + 1 };
        assert(t[i] == s[i0]);
    }
}

/// The index of the entry occupying `slot`, if any.
pub(crate) fn find_slot_index<P>(entries: &Vec<(u32, P)>, slot: u32) -> (r: Option<usize>)
    ensures
        match r {
            Some(at) => at < entries@.len() && entries@[at as int].0 == slot,
            None => !has_slot(entries@, slot),
        },
{
    let mut idx: usize = 0;
    while idx < entries.len()
        invariant
            idx <= entries@.len(),
            forall|k: int| 0 <= k < idx ==> entries@[k].0 != slot,
        decreases entries@.len() - idx,
    {
        if entries[idx].0 == slot {
            return Some(idx);
        }
        idx += 1;
    }
    None
}

/// Whether any entry occupies `slot`.
pub(crate) fn contains_slot<P>(entries: &Vec<(u32, P)>, slot: u32) -> (r: bool)
    ensures
        r == has_slot(entries@, slot),
{
    match find_slot_index(entries, slot) {
        Some(_) => true,
        None => false,
    }
}

/// Places `payload` at `slot`, replacing the payload already there if the
/// slot is occupied and inserting a fresh entry at its sorted position
/// otherwise.
pub(crate) fn place_at_slot<P>(entries: &mut Vec<(u32, P)>, slot: u32, payload: P, Ghost(lo): Ghost<
    u32,
>, Ghost(hi): Ghost<u32>)
    requires
        slots_sorted(old(entries)@),
        slots_in_range(old(entries)@, lo, hi),
        lo <= slot <= hi,
    ensures
        slots_sorted(final(entries)@),
        slots_in_range(final(entries)@, lo, hi),
        has_slot(old(entries)@, slot) ==> exists|i: int|
            0 <= i < old(entries)@.len() && old(entries)@[i].0 == slot && final(entries)@
                == #[trigger] old(entries)@.update(i, (slot, payload)),
        !has_slot(old(entries)@, slot) ==> exists|pos: int|
            0 <= pos <= old(entries)@.len() && final(entries)@ == #[trigger] old(entries)@.insert(
                pos,
                (slot, payload),
            ),
        final(entries)@.len() == old(entries)@.len() + (
            if has_slot(old(entries)@, slot) {
                0int
            } else {
                1int
            }
        ),
        has_slot(final(entries)@, slot),
        forall|q: u32| q != slot ==> has_slot(final(entries)@, q) == has_slot(old(entries)@, q),
    {
    let ghost before = entries@;
    match find_slot_index(entries, slot) {
        Some(at) => {
            proof {
                lemma_slot_update_keeps_wf(entries@, at as int, (slot, payload), lo, hi);
            }
            entries.set(at, (slot, payload));
            proof {
                assert(has_slot(before, slot));
                assert(entries@[at as int].0 == slot);
                assert forall|q: u32| q != slot implies has_slot(entries@, q) == has_slot(
                    before,
                    q,
                ) by {
                    assert forall|i: int|
                        0 <= i < before.len() && before[i].0 == q implies entries@[i].0 == q by {}
                    assert forall|i: int|
                        0 <= i < entries@.len() && entries@[i].0 == q implies before[i].0 == q by {}
                }
            }
        },
        None => {
            let pos = slot_insert_position(entries, slot);
            proof {
                lemma_slot_insert_keeps_wf(entries@, pos as int, (slot, payload), lo, hi);
                entries@.insert_ensures(pos as int, (slot, payload));
            }
            entries.insert(pos, (slot, payload));
            proof {
                assert(entries@[pos as int].0 == slot);
                assert forall|q: u32| q != slot implies has_slot(entries@, q) == has_slot(
                    before,
                    q,
                ) by {
                    before.insert_ensures(pos as int, (slot, payload));
                    if has_slot(before, q) {
                        let i = choose|i: int| 0 <= i < before.len() && before[i].0 == q;
                        if i < pos {
                            assert(entries@[i].0 == q);
                        } else {
                            assert(entries@[i + 1].0 == q);
                        }
                    }
                    if has_slot(entries@, q) {
                        let i = choose|i: int| 0 <= i < entries@.len() && entries@[i].0 == q;
                        if i < pos {
                            assert(before[i].0 == q);
                        } else {
                            assert(i != pos);
                            assert(before[i - 1].0 == q);
                        }
                    }
                }
            }
        },
    }
}

/// The index at which a fresh slot must be inserted to keep the entries
/// sorted.
pub(crate) fn slot_insert_position<P>(entries: &Vec<(u32, P)>, slot: u32) -> (pos: usize)
    requires
        slots_sorted(entries@),
        !has_slot(entries@, slot),
    ensures
        pos <= entries@.len(),
        forall|i: int| 0 <= i < pos ==> entries@[i].0 < slot,
        forall|i: int| pos <= i < entries@.len() ==> slot < entries@[i].0,
{
    let mut pos: usize = 0;
    while pos < entries.len() && entries[pos].0 < slot
        invariant
            pos <= entries@.len(),
            slots_sorted(entries@),
            !has_slot(entries@, slot),
            forall|i: int| 0 <= i < pos ==> entries@[i].0 < slot,
        decreases entries@.len() - pos,
    {
        pos += 1;
    }
    proof {
        assert forall|i: int| pos <= i < entries@.len() implies slot < entries@[i].0 by {
            assert(entries@[i].0 != slot);
            if i > pos {
                assert(entries@[pos as int].0 < entries@[i].0);
            }
        }
    }
    pos
}

/// Removes the entry occupying `slot`, if any, and returns its payload.
pub(crate) fn remove_slot<P>(entries: &mut Vec<(u32, P)>, slot: u32, Ghost(lo): Ghost<u32>, Ghost(
    hi,
): Ghost<u32>) -> (r: Option<P>)
    requires
        slots_sorted(old(entries)@),
        slots_in_range(old(entries)@, lo, hi),
    ensures
        slots_sorted(final(entries)@),
        slots_in_range(final(entries)@, lo, hi),
        !has_slot(old(entries)@, slot) ==> r is None && final(entries)@ == old(entries)@,
        has_slot(old(entries)@, slot) ==> exists|i: int|
            0 <= i < old(entries)@.len() && old(entries)@[i].0 == slot && r == Some(
                old(entries)@[i].1,
            ) && final(entries)@ == #[trigger] old(entries)@.remove(i),
{
    match find_slot_index(entries, slot) {
        Some(at) => {
            proof {
                lemma_slot_remove_keeps_wf(entries@, at as int, lo, hi);
            }
            let (_, payload) = entries.remove(at);
            Some(payload)
        },
        None => None,
    }
}

/// The smallest unoccupied slot in `[lo, hi]`, or `RangeExhausted` when every
/// slot of the range is occupied.
pub(crate) fn next_free_slot<P>(entries: &Vec<(u32, P)>, lo: u32, hi: u32) -> (r: Result<
    u32,
    QueueError,
>)
    requires
        lo <= hi,
    ensures
        r matches Ok(p) ==> lo <= p <= hi && !has_slot(entries@, p) && forall|q: u32|
            lo <= q < p ==> has_slot(entries@, q),
        r is Err ==> r == Err::<u32, QueueError>(QueueError::RangeExhausted) && forall|q: u32|
            lo <= q <= hi ==> has_slot(entries@, q),
{
    let mut p: u32 = lo;
    while p < hi
        invariant
            lo <= p <= hi,
            forall|q: u32| lo <= q < p ==> has_slot(entries@, q),
        decreases hi - p,
    {
        if !contains_slot(entries, p) {
            return Ok(p);
        }
        p += 1;
    }
    if !contains_slot(entries, hi) {
        Ok(hi)
    } else {
        Err(QueueError::RangeExhausted)
    }
}

/// Displaces every entry whose slot is at least `target` one slot upward, in
/// a way that never overwrites an in-flight value, then places `payload` at
/// `target`. Returns the index at which the new entry stands: every entry
/// before it kept its slot, every entry after it moved up by exactly one.
pub(crate) fn shift_insert<P>(entries: &mut Vec<(u32, P)>, target: u32, payload: P) -> (pos: usize)
    requires
        slots_sorted(old(entries)@),
        forall|i: int|
            0 <= i < old(entries)@.len() && old(entries)@[i].0 >= target ==> old(entries)@[i].0
                < u32::MAX,
    ensures
        split_before(old(entries)@, target, pos as int),
        final(entries)@ == shifted_insertion(old(entries)@, pos as int, target, payload),
        final(entries)@.len() == old(entries)@.len() + 1,
        slots_sorted(final(entries)@),
{
    let ghost before = entries@;
    let mut pos: usize = 0;
    while pos < entries.len() && entries[pos].0 < target
        invariant
            pos <= entries@.len(),
            entries@ == before,
            slots_sorted(before),
            forall|i: int| 0 <= i < pos ==> before[i].0 < target,
        decreases entries@.len() - pos,
    {
        pos += 1;
    }
    proof {
        assert forall|i: int| pos <= i < before.len() implies before[i].0 >= target by {
            if i > pos {
                assert(before[pos as int].0 < before[i].0);
            }
        }
    }
    let mut idx: usize = pos;
    while idx < entries.len()
        invariant
            pos <= idx <= entries@.len(),
            entries@.len() == before.len(),
            slots_sorted(before),
            forall|i: int| 0 <= i < pos ==> before[i].0 < target,
            forall|i: int| pos <= i < before.len() ==> before[i].0 >= target,
            forall|i: int|
                0 <= i < before.len() && before[i].0 >= target ==> before[i].0 < u32::MAX,
            forall|i: int| 0 <= i < pos ==> entries@[i] == before[i],
            forall|i: int|
                pos <= i < idx ==> entries@[i] == (((before[i].0 + 1) as u32, before[i].1)),
            forall|i: int| idx <= i < before.len() ==> entries@[i] == before[i],
        decreases entries@.len() - idx,
    {
        let ghost mid = entries@;
        let (s, p) = entries.remove(idx);
        proof {
            mid.remove_ensures(idx as int);
            assert(mid[idx as int] == before[idx as int]);
            assert(s == before[idx as int].0);
            assert(s >= target);
            assert(s < u32::MAX);
        }
        let ghost cut = entries@;
        entries.insert(idx, (s + 1, p));
        proof {
            cut.insert_ensures(idx as int, (((s + 1) as u32, p)));
            assert forall|i: int| 0 <= i < pos implies entries@[i] == before[i] by {
                assert(cut[i] == mid[i]);
            }
            assert forall|i: int|
                pos <= i < idx + 1 implies entries@[i] == (((before[i].0 + 1) as u32, before[i].1))
                by {
                if i < idx {
                    assert(cut[i] == mid[i]);
                }
            }
            assert forall|i: int| idx + 1 <= i < before.len() implies entries@[i] == before[i] by {
                assert(entries@[i] == cut[i - 1]);
                assert(cut[i - 1] == mid[i]);
            }
        }
        idx += 1;
    }
    let ghost shifted = entries@;
    entries.insert(pos, (target, payload));
    proof {
        shifted.insert_ensures(pos as int, (target, payload));
        let spec_result = before.take(pos as int) + seq![(target, payload)] + before.skip(
            pos as int,
        ).map_values(|e: (u32, P)| (((e.0 + 1) as u32, e.1)));
        assert forall|i: int| 0 <= i < entries@.len() implies entries@[i] == spec_result[i] by {
            if i < pos {
                assert(entries@[i] == shifted[i]);
                assert(spec_result[i] == before.take(pos as int)[i]);
            } else if i == pos {
                assert(entries@[i] == (target, payload));
            } else {
                assert(entries@[i] == shifted[i - 1]);
                assert(spec_result[i] == before.skip(pos as int).map_values(
                    |e: (u32, P)| (((e.0 + 1) as u32, e.1)),
                )[i - pos - 1]);
                assert(before.skip(pos as int)[i - pos - 1] == before[i - 1]);
            }
        }
        assert(entries@ =~= spec_result);
        assert forall|i: int, j: int| 0 <= i < j < entries@.len() implies entries@[i].0
            < entries@[j].0 by {
            if j <= pos {
                assert(before[i].0 < target);
            } else if i < pos {
                assert(entries@[i].0 == before[i].0);
                if j > pos {
                    assert(entries@[j].0 == before[j - 1].0 + 1);
                    assert(before[i].0 < target);
                    assert(before[j - 1].0 >= target);
                }
            } else if i == pos {
                assert(entries@[j].0 == before[j - 1].0 + 1);
                assert(before[j - 1].0 >= target);
            } else {
                assert(entries@[i].0 == before[i - 1].0 + 1);
                assert(entries@[j].0 == before[j - 1].0 + 1);
                assert(before[i - 1].0 < before[j - 1].0);
            }
        }
    }
    pos
}

} // verus!
