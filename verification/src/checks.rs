//! Checks that a collection can be walked and a walk can go on.
//!
//! Code that takes words from outside cannot know that a list is not circular
//! or that an iteration state is intact. These checks tell.

use vstd::prelude::*;

use crate::classes::ClassId;
use crate::collections::{
    elements, fixnum_else, list_ends, nth_tail, pair_fields, range_fields, spine_bounded,
    spine_unfold, CollectionClasses,
};
use crate::heap::{heap_wf, Heap};
use crate::iteration::{can_advance, iter_state_snapshot, startable, walkable, FipKind};
use crate::ranges::{range_count, range_terms_in_bounds};
use crate::word::{in_fixnum_range, Word, FIXNUM_MAX};

verus! {

/// Whether a list comes to an end.
fn list_has_end(heap: &Heap, w: Word) -> (b: bool)
    ensures
        b == list_ends(heap@, w),
{
    let n: usize = heap.len();
    let mut at = w;
    let mut i: usize = 0;
    while i < n
        invariant
            i <= n,
            n == heap@.len(),
            at == nth_tail(heap@, w, i as nat),
        decreases n - i,
    {
        proof {
            spine_unfold(heap@, w, i as nat);
        }
        if let Some((_, tail)) = pair_fields(heap, at) {
            at = tail;
        }
        i += 1;
    }
    pair_fields(heap, at).is_none()
}

/// Whether the terms of a progression can be counted by a fixnum.
fn range_is_countable(from: i64, to: i64, by: i64) -> (b: bool)
    requires
        in_fixnum_range(from as int),
        in_fixnum_range(to as int),
        in_fixnum_range(by as int),
    ensures
        b == (range_count(from as int, to as int, by as int) <= FIXNUM_MAX),
{
    if by > 0 && from <= to {
        ((to - from) as u64) / (by as u64) < FIXNUM_MAX as u64
    } else if by < 0 && from >= to {
        ((from - to) as u64) / ((-by) as u64) < FIXNUM_MAX as u64
    } else {
        true
    }
}

/// Whether a walk over a collection can be started: a pair has its parts, a
/// stretchy vector is intact, and the elements of anything but a range can be
/// counted by a fixnum. What is no collection raises no objection.
pub fn is_startable(heap: &Heap, ids: &CollectionClasses, c: Word) -> (b: bool)
    requires
        heap_wf(heap@),
        ids.wf(),
    ensures
        b == startable(heap@, *ids, c),
{
    let o = match heap.get(c) {
        Some(o) => o,
        None => return true,
    };
    if o.class == ClassId(ClassId::SIMPLE_OBJECT_VECTOR) {
        return o.cells.len() as u64 <= FIXNUM_MAX as u64;
    }
    if o.class == ids.range {
        return true;
    }
    if o.class == ids.stretchy_vector {
        if o.cells.len() < 3 {
            return true;
        }
        let length: i64 = fixnum_else(o.cells[0], 0);
        let capacity: i64 = fixnum_else(o.cells[1], 0);
        return match heap.get(o.cells[2]) {
            Some(v) => v.class == ClassId(ClassId::SIMPLE_OBJECT_VECTOR) && 0 <= length && length
                <= capacity && capacity as u64 == v.cells.len() as u64,
            None => false,
        };
    }
    if o.class == ClassId(ClassId::PAIR) {
        proof {
            spine_bounded(heap@, c, heap@.len());
        }
        return o.cells.len() >= 2;
    }
    if o.class == ClassId(ClassId::BYTE_STRING) {
        return o.bytes.len() as u64 <= FIXNUM_MAX as u64;
    }
    true
}

/// Whether a collection can be walked to its end: a walk can be started, the terms
/// of a range can be counted by a fixnum, and a list is not circular.
pub fn is_walkable(heap: &Heap, ids: &CollectionClasses, c: Word) -> (b: bool)
    requires
        heap_wf(heap@),
        ids.wf(),
    ensures
        b == walkable(heap@, *ids, c),
{
    if !is_startable(heap, ids, c) {
        return false;
    }
    if let Some((from, to, by)) = range_fields(heap, ids, c) {
        proof {
            range_terms_in_bounds(from as int, to as int, by as int);
        }
        return range_is_countable(from, to, by);
    }
    !heap.is_instance(c, ClassId(ClassId::PAIR)) || list_has_end(heap, c)
}

/// Whether an iteration state can be advanced: what it walks over is there, and
/// the next element lies within. What is no iteration state raises no objection.
pub fn may_advance(heap: &Heap, ids: &CollectionClasses, state: Word) -> (b: bool)
    ensures
        b == can_advance(heap@, *ids, state),
{
    let snap = match iter_state_snapshot(heap, ids, state) {
        Some(s) => s,
        None => return true,
    };
    if snap.finished {
        return true;
    }
    let next: i64 = fixnum_else(snap.current_key, 0) + 1;
    let limit: i64 = fixnum_else(snap.limit, 0);
    match snap.fip_kind {
        FipKind::Empty => true,
        FipKind::SimpleObjectVector => {
            next >= limit || match heap.get(snap.state_object) {
                Some(v) => v.class == ClassId(ClassId::SIMPLE_OBJECT_VECTOR) && 0 <= next && (
                next as u64) < v.cells.len() as u64,
                None => false,
            }
        },
        FipKind::StretchyVector => {
            next >= limit || match heap.get(snap.state_object) {
                Some(s) => s.class == ids.stretchy_vector && s.cells.len() >= 3 && match heap.get(
                    s.cells[2],
                ) {
                    Some(v) => v.class == ClassId(ClassId::SIMPLE_OBJECT_VECTOR) && 0 <= next && (
                    next as u64) < v.cells.len() as u64,
                    None => false,
                },
                None => false,
            }
        },
        FipKind::ByteString => {
            next >= limit || match heap.get(snap.state_object) {
                Some(s) => s.class == ClassId(ClassId::BYTE_STRING) && 0 <= next && (next as u64)
                    < s.bytes.len() as u64,
                None => false,
            }
        },
        FipKind::Range => next <= FIXNUM_MAX,
        FipKind::List => next <= FIXNUM_MAX,
    }
}

} // verus!
