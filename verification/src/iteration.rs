//! The forward iteration protocol.
//!
//! Walking a collection goes through an `<iteration-state>`: a heap object that
//! stands before the elements that are still to come. Making one, reading the
//! current element and advancing are the whole protocol; mapping, folding and
//! concatenation are loops over it.

use vstd::prelude::*;

use crate::classes::ClassId;
use crate::collections::{
    byte_elements, cell_update_keeps_wf, circular, collection_size, elements, fixnum_else,
    fixnum_or, list_elements, list_end, list_ends, list_tail, make_stretchy_vector, nth_tail,
    pair_at, pair_fields, push_keeps_wf, range_at, range_fields, spine, stretchy_at,
    stretchy_vector_fields, stretchy_vector_push, stretchy_wf, vector_at, CollectionClasses,
};
use crate::heap::{
    bool_word, boolean_word, bytes_object, cells_object, class_at, false_word, heap_room, heap_wf,
    index_of, literal_pool_immediates, nil_word, object_at, points_into, true_word, with_cell,
    word_of, Heap, ObjectView, HEAP_LIMIT,
};
use crate::ranges::{
    range_count, range_elements, range_step, range_terms_are_fixnums, range_terms_in_bounds,
};
use crate::word::{fixnum, fixnum_round_trip, in_fixnum_range, Word, FIXNUM_MAX};

verus! {

/// Which kind of collection an iteration state walks.
#[derive(Clone, Copy, PartialEq, Eq, Structural, Debug)]
pub enum FipKind {
    /// Nothing to walk.
    Empty,
    SimpleObjectVector,
    List,
    Range,
    StretchyVector,
    ByteString,
}

impl FipKind {
    /// The number that stands for the kind in an iteration state.
    pub open spec fn spec_code(self) -> int {
        match self {
            FipKind::Empty => 0,
            FipKind::SimpleObjectVector => 1,
            FipKind::List => 2,
            FipKind::Range => 3,
            FipKind::StretchyVector => 4,
            FipKind::ByteString => 5,
        }
    }

    /// The number that stands for the kind in an iteration state.
    pub fn code(self) -> (n: i64)
        ensures
            n == self.spec_code(),
    {
        match self {
            FipKind::Empty => 0,
            FipKind::SimpleObjectVector => 1,
            FipKind::List => 2,
            FipKind::Range => 3,
            FipKind::StretchyVector => 4,
            FipKind::ByteString => 5,
        }
    }

    /// The kind that a number stands for.
    pub fn from_i64(v: i64) -> (k: Option<FipKind>)
        ensures
            k is Some <==> 0 <= v <= 5,
            k is Some ==> (k->0).spec_code() == v,
    {
        match v {
            0 => Some(FipKind::Empty),
            1 => Some(FipKind::SimpleObjectVector),
            2 => Some(FipKind::List),
            3 => Some(FipKind::Range),
            4 => Some(FipKind::StretchyVector),
            5 => Some(FipKind::ByteString),
            _ => None,
        }
    }
}

/// The kind that a number stands for; numbers without a kind stand for `Empty`.
pub open spec fn kind_of(n: int) -> FipKind {
    if n == 1 {
        FipKind::SimpleObjectVector
    } else if n == 2 {
        FipKind::List
    } else if n == 3 {
        FipKind::Range
    } else if n == 4 {
        FipKind::StretchyVector
    } else if n == 5 {
        FipKind::ByteString
    } else {
        FipKind::Empty
    }
}

/// The fields of an iteration state.
#[derive(Clone, Copy, PartialEq, Eq, Structural, Debug)]
pub struct IterStateSnapshot {
    pub state_object: Word,
    pub limit: Word,
    pub finished: bool,
    pub current_key: Word,
    pub current_element: Word,
    pub fip_kind: FipKind,
}

/// The cells of an iteration state: state object, limit, next state, finished
/// flag, current key, current element, element setter, kind.
pub open spec fn state_cells(h: Seq<ObjectView>, ids: CollectionClasses, w: Word) -> Option<
    Seq<Word>,
> {
    match object_at(h, w) {
        Some(o) => if o.class == ids.iteration_state && o.cells.len() >= 8 {
            Some(o.cells)
        } else {
            None
        },
        None => None,
    }
}

/// The fields in the cells of an iteration state.
pub open spec fn snapshot_of(cells: Seq<Word>) -> IterStateSnapshot {
    IterStateSnapshot {
        state_object: cells[0],
        limit: cells[1],
        finished: cells[3] == true_word(),
        current_key: cells[4],
        current_element: cells[5],
        fip_kind: kind_of(fixnum_or(cells[7], 0)),
    }
}

/// The step of a range state: it sits in the next-state cell.
pub open spec fn step_of(cells: Seq<Word>) -> int {
    if fixnum_or(cells[2], 1) == 0 {
        1
    } else {
        fixnum_or(cells[2], 1)
    }
}

/// Reads the fields of an iteration state; absent for a word that is none.
pub fn iter_state_snapshot(heap: &Heap, ids: &CollectionClasses, state: Word) -> (s: Option<
    IterStateSnapshot,
>)
    ensures
        s is Some <==> state_cells(heap@, *ids, state) is Some,
        s is Some ==> s->0 == snapshot_of(state_cells(heap@, *ids, state)->0),
{
    match heap.get(state) {
        Some(o) => {
            if o.class == ids.iteration_state && o.cells.len() >= 8 {
                let finished = o.cells[3] == literal_pool_immediates().true_;
                let code = fixnum_else(o.cells[7], 0);
                let fip_kind = match FipKind::from_i64(code) {
                    Some(k) => k,
                    None => FipKind::Empty,
                };
                Some(
                    IterStateSnapshot {
                        state_object: o.cells[0],
                        limit: o.cells[1],
                        finished,
                        current_key: o.cells[4],
                        current_element: o.cells[5],
                        fip_kind,
                    },
                )
            } else {
                None
            }
        },
        None => None,
    }
}

// ----- starting -----

/// The first element, or the empty list when there is none.
pub open spec fn first_or_nil(es: Seq<Word>) -> Word {
    if es.len() == 0 {
        nil_word()
    } else {
        es[0]
    }
}

/// The cells of a fresh iteration state.
pub open spec fn fresh_cells(
    state_object: Word,
    limit: Word,
    finished: bool,
    current_element: Word,
    kind: FipKind,
) -> Seq<Word> {
    seq![
        state_object,
        limit,
        nil_word(),
        bool_word(finished),
        fixnum(0),
        current_element,
        nil_word(),
        fixnum(kind.spec_code()),
    ]
}

/// The cells of the iteration state that starts a walk over `c`.
pub open spec fn initial_cells(h: Seq<ObjectView>, ids: CollectionClasses, c: Word) -> Seq<Word> {
    let class = class_at(h, c)->0;
    let es = elements(h, ids, c)->0;
    let n = es.len() as int;
    if class == ClassId(ClassId::SIMPLE_OBJECT_VECTOR) {
        fresh_cells(c, fixnum(n), n == 0, first_or_nil(es), FipKind::SimpleObjectVector)
    } else if class == ids.range {
        let (from, to, by) = range_at(h, ids, c)->0;
        fresh_cells(fixnum(from), fixnum(to), n == 0, fixnum(from), FipKind::Range)
    } else if class == ids.stretchy_vector {
        fresh_cells(c, fixnum(n), n == 0, first_or_nil(es), FipKind::StretchyVector)
    } else if class == ClassId(ClassId::PAIR) {
        fresh_cells(c, nil_word(), false, first_or_nil(es), FipKind::List)
    } else if class == ClassId(ClassId::EMPTY_LIST) {
        fresh_cells(nil_word(), nil_word(), true, nil_word(), FipKind::List)
    } else {
        fresh_cells(c, fixnum(n), n == 0, first_or_nil(es), FipKind::ByteString)
    }
}

/// Adds an iteration state to the heap.
fn make_iter_state(
    heap: &mut Heap,
    ids: &CollectionClasses,
    state_object: Word,
    limit: Word,
    finished: bool,
    current_element: Word,
    kind: FipKind,
) -> (w: Word)
    requires
        heap_wf(old(heap)@),
        heap_room(old(heap)@, 1),
    ensures
        w == word_of(old(heap)@.len() as int),
        final(heap)@ == old(heap)@.push(
            cells_object(
                ids.iteration_state,
                fresh_cells(state_object, limit, finished, current_element, kind),
            ),
        ),
        heap_wf(final(heap)@),
{
    let nil = literal_pool_immediates().nil;
    let cells = vec![
        state_object,
        limit,
        nil,
        boolean_word(finished),
        Word::fixnum_unchecked(0),
        current_element,
        nil,
        Word::fixnum_unchecked(kind.code()),
    ];
    assert(cells@ =~= fresh_cells(state_object, limit, finished, current_element, kind));
    proof {
        push_keeps_wf(heap@, cells_object(ids.iteration_state, cells@));
    }
    heap.alloc_cells(ids.iteration_state, cells)
}

/// A walk over the collection can be started: a pair has its parts, a stretchy
/// vector is well formed, and the element count is a fixnum. A range is not counted
/// at the start.
pub open spec fn startable(h: Seq<ObjectView>, ids: CollectionClasses, c: Word) -> bool {
    &&& class_at(h, c) == Some(ClassId(ClassId::PAIR)) ==> pair_at(h, c) is Some
    &&& stretchy_at(h, ids, c) is Some ==> stretchy_wf(h, ids, c)
    &&& elements(h, ids, c) is Some && class_at(h, c) != Some(ids.range) ==> elements(
        h,
        ids,
        c,
    )->0.len() <= FIXNUM_MAX
}

/// The collection can be walked to its end: a walk can be started, every element
/// has a fixnum for its key, and a list is not circular.
pub open spec fn walkable(h: Seq<ObjectView>, ids: CollectionClasses, c: Word) -> bool {
    &&& startable(h, ids, c)
    &&& elements(h, ids, c) is Some ==> elements(h, ids, c)->0.len() <= FIXNUM_MAX
    &&& !circular(h, c)
}

/// Starts a walk: makes an iteration state that stands before the first
/// element. Absent for a word that is no known collection.
pub fn forward_iteration_protocol(heap: &mut Heap, ids: &CollectionClasses, c: Word) -> (r: Option<
    Word,
>)
    requires
        heap_wf(old(heap)@),
        heap_room(old(heap)@, 1),
        ids.wf(),
        startable(old(heap)@, *ids, c),
    ensures
        r is Some <==> elements(old(heap)@, *ids, c) is Some,
        r is Some ==> r->0 == word_of(old(heap)@.len() as int) && final(heap)@ == old(heap)@.push(
            cells_object(ids.iteration_state, initial_cells(old(heap)@, *ids, c)),
        ),
        r is None ==> final(heap)@ == old(heap)@,
        heap_wf(final(heap)@),
{
    let ghost h = old(heap)@;
    let nil = literal_pool_immediates().nil;
    let class = match heap.class_of(c) {
        Some(k) => k,
        None => return None,
    };
    if class == ClassId(ClassId::SIMPLE_OBJECT_VECTOR) {
        let o = heap.get(c).unwrap();
        let len: usize = o.cells.len();
        let first = if len == 0 {
            nil
        } else {
            o.cells[0]
        };
        let limit = Word::fixnum_unchecked(len as i64);
        return Some(
            make_iter_state(heap, ids, c, limit, len == 0, first, FipKind::SimpleObjectVector),
        );
    }
    if class == ids.range {
        return match range_fields(heap, ids, c) {
            Some((from, to, by)) => {
                proof {
                    range_terms_in_bounds(from as int, to as int, by as int);
                }
                let finished = (by > 0 && from > to) || (by < 0 && from < to) || by == 0;
                assert(finished == (elements(h, *ids, c)->0.len() == 0));
                let from_w = Word::fixnum_unchecked(from);
                let to_w = Word::fixnum_unchecked(to);
                Some(make_iter_state(heap, ids, from_w, to_w, finished, from_w, FipKind::Range))
            },
            None => None,
        };
    }
    if class == ids.stretchy_vector {
        return match stretchy_vector_fields(heap, ids, c) {
            Some((length, _, storage)) => {
                assert(elements(h, *ids, c)->0.len() == length);
                let first = if length == 0 {
                    nil
                } else {
                    heap.cell(storage, 0).unwrap()
                };
                let limit = Word::fixnum_unchecked(length as i64);
                Some(
                    make_iter_state(
                        heap,
                        ids,
                        c,
                        limit,
                        length == 0,
                        first,
                        FipKind::StretchyVector,
                    ),
                )
            },
            None => None,
        };
    }
    if class == ClassId(ClassId::PAIR) {
        let (head, _) = pair_fields(heap, c).unwrap();
        assert(list_elements(h, c)[0] == head);
        return Some(make_iter_state(heap, ids, c, nil, false, head, FipKind::List));
    }
    if class == ClassId(ClassId::EMPTY_LIST) {
        return Some(make_iter_state(heap, ids, nil, nil, true, nil, FipKind::List));
    }
    if class == ClassId(ClassId::BYTE_STRING) {
        let o = heap.get(c).unwrap();
        let len: usize = o.bytes.len();
        let first = if len == 0 {
            nil
        } else {
            Word::fixnum_unchecked(o.bytes[0] as i64)
        };
        let limit = Word::fixnum_unchecked(len as i64);
        return Some(make_iter_state(heap, ids, c, limit, len == 0, first, FipKind::ByteString));
    }
    None
}

/// The cells of the state that starts a walk, with the step of a range noted in
/// the next-state cell.
pub open spec fn start_cells(h: Seq<ObjectView>, ids: CollectionClasses, c: Word) -> Seq<Word> {
    match range_at(h, ids, c) {
        Some((from, to, by)) => initial_cells(h, ids, c).update(2, fixnum(by)),
        None => initial_cells(h, ids, c),
    }
}

/// Starts a walk with everything that advancing needs.
pub fn forward_iteration_protocol_init(
    heap: &mut Heap,
    ids: &CollectionClasses,
    c: Word,
) -> (r: Option<Word>)
    requires
        heap_wf(old(heap)@),
        heap_room(old(heap)@, 1),
        ids.wf(),
        startable(old(heap)@, *ids, c),
    ensures
        r is Some <==> elements(old(heap)@, *ids, c) is Some,
        r is Some ==> r->0 == word_of(old(heap)@.len() as int) && final(heap)@ == old(heap)@.push(
            cells_object(ids.iteration_state, start_cells(old(heap)@, *ids, c)),
        ),
        r is None ==> final(heap)@ == old(heap)@,
        heap_wf(final(heap)@),
{
    let ghost h = old(heap)@;
    let state = match forward_iteration_protocol(heap, ids, c) {
        Some(s) => s,
        None => return None,
    };
    let ghost g = heap@;
    assert(object_at(g, state) == Some(
        cells_object(ids.iteration_state, initial_cells(h, *ids, c)),
    ));
    assert(range_at(g, *ids, c) == range_at(h, *ids, c));
    match range_fields(heap, ids, c) {
        Some((_, _, by)) => {
            heap.set_cell(state, 2, Word::fixnum_unchecked(by));
            proof {
                cell_update_keeps_wf(g, state, 2, fixnum(by as int));
                assert(heap@ =~= h.push(
                    cells_object(ids.iteration_state, start_cells(h, *ids, c)),
                ));
            }
        },
        None => {},
    }
    Some(state)
}

// ----- advancing -----

/// The cells of a state whose walk is over.
pub open spec fn finished_cells(cells: Seq<Word>) -> Seq<Word> {
    cells.update(3, true_word())
}

/// The cells of an indexed state after a step to `next`.
pub open spec fn indexed_cells(cells: Seq<Word>, es: Seq<Word>) -> Seq<Word> {
    let next = fixnum_or(cells[4], 0) + 1;
    if next >= fixnum_or(cells[1], 0) {
        finished_cells(cells)
    } else {
        cells.update(4, fixnum(next)).update(5, es[next])
    }
}

/// The elements that an indexed state walks.
pub open spec fn indexed_elements(
    h: Seq<ObjectView>,
    ids: CollectionClasses,
    cells: Seq<Word>,
) -> Seq<Word> {
    match snapshot_of(cells).fip_kind {
        FipKind::SimpleObjectVector => vector_at(h, cells[0])->0,
        FipKind::StretchyVector => vector_at(h, (stretchy_at(h, ids, cells[0])->0).2)->0,
        _ => byte_elements(object_at(h, cells[0])->0.bytes),
    }
}

/// The cells of an unfinished state after one step.
pub open spec fn advanced_cells(
    h: Seq<ObjectView>,
    ids: CollectionClasses,
    cells: Seq<Word>,
) -> Seq<Word> {
    match snapshot_of(cells).fip_kind {
        FipKind::Empty => finished_cells(cells),
        FipKind::SimpleObjectVector | FipKind::StretchyVector | FipKind::ByteString => {
            indexed_cells(cells, indexed_elements(h, ids, cells))
        },
        FipKind::Range => {
            let by = step_of(cells);
            let to = fixnum_or(cells[1], 0);
            let next = fixnum_or(cells[0], 0) + by;
            let keyed = cells.update(4, fixnum(fixnum_or(cells[4], 0) + 1));
            if (by > 0 && next > to) || (by < 0 && next < to) {
                finished_cells(keyed)
            } else {
                keyed.update(0, fixnum(next)).update(5, fixnum(next))
            }
        },
        FipKind::List => match pair_at(h, cells[0]) {
            None => finished_cells(cells),
            Some((_, tail)) => match pair_at(h, tail) {
                None => finished_cells(cells),
                Some((next_head, _)) => cells.update(0, tail).update(
                    4,
                    fixnum(fixnum_or(cells[4], 0) + 1),
                ).update(5, next_head),
            },
        },
    }
}

/// The heap after advancing the state `w`. A word that is no iteration state,
/// and a finished state, stay as they are.
pub open spec fn advanced(h: Seq<ObjectView>, ids: CollectionClasses, w: Word) -> Seq<ObjectView> {
    match state_cells(h, ids, w) {
        None => h,
        Some(cells) => if snapshot_of(cells).finished {
            h
        } else {
            h.update(
                index_of(w),
                ObjectView { cells: advanced_cells(h, ids, cells), ..h[index_of(w)] },
            )
        },
    }
}

/// The step of a state is defined: an indexed state that has not reached its
/// limit finds its next element, and the key stays a fixnum.
pub open spec fn can_advance(h: Seq<ObjectView>, ids: CollectionClasses, w: Word) -> bool {
    match state_cells(h, ids, w) {
        None => true,
        Some(cells) => snapshot_of(cells).finished || {
            let next = fixnum_or(cells[4], 0) + 1;
            match snapshot_of(cells).fip_kind {
                FipKind::Empty => true,
                FipKind::SimpleObjectVector => next >= fixnum_or(cells[1], 0) || (vector_at(
                    h,
                    cells[0],
                ) is Some && 0 <= next < indexed_elements(h, ids, cells).len()),
                FipKind::StretchyVector => next >= fixnum_or(cells[1], 0) || (stretchy_at(
                    h,
                    ids,
                    cells[0],
                ) is Some && vector_at(h, (stretchy_at(h, ids, cells[0])->0).2) is Some && 0 <= next
                    < indexed_elements(h, ids, cells).len()),
                FipKind::ByteString => next >= fixnum_or(cells[1], 0) || (class_at(h, cells[0])
                    == Some(ClassId(ClassId::BYTE_STRING)) && 0 <= next < indexed_elements(
                    h,
                    ids,
                    cells,
                ).len()),
                FipKind::Range => next <= FIXNUM_MAX,
                FipKind::List => next <= FIXNUM_MAX,
            }
        },
    }
}

/// Reads a cell of a vector.
fn vector_element(heap: &Heap, v: Word, i: i64) -> (e: Word)
    requires
        vector_at(heap@, v) is Some,
        0 <= i < vector_at(heap@, v)->0.len(),
    ensures
        e == vector_at(heap@, v)->0[i as int],
{
    let o = heap.get(v).unwrap();
    let n: usize = o.cells.len();
    assert(i < n);
    o.cells[i as usize]
}

/// Reads a byte of a byte string as a fixnum.
fn byte_element(heap: &Heap, s: Word, i: i64) -> (e: Word)
    requires
        object_at(heap@, s) is Some,
        0 <= i < object_at(heap@, s)->0.bytes.len(),
    ensures
        e == byte_elements(object_at(heap@, s)->0.bytes)[i as int],
{
    let o = heap.get(s).unwrap();
    let n: usize = o.bytes.len();
    assert(i < n);
    Word::fixnum_unchecked(o.bytes[i as usize] as i64)
}

/// Marks the walk of a state as over.
fn finish(heap: &mut Heap, ids: &CollectionClasses, state: Word)
    requires
        heap_wf(old(heap)@),
        state_cells(old(heap)@, *ids, state) is Some,
    ensures
        final(heap)@ == with_cell(old(heap)@, state, 3, true_word()),
        heap_wf(final(heap)@),
{
    proof {
        cell_update_keeps_wf(heap@, state, 3, true_word());
    }
    heap.set_cell(state, 3, literal_pool_immediates().true_);
}

/// Steps an indexed state to its next element.
fn step_indexed(
    heap: &mut Heap,
    ids: &CollectionClasses,
    state: Word,
    next: i64,
    element: Word,
)
    requires
        heap_wf(old(heap)@),
        state_cells(old(heap)@, *ids, state) is Some,
        in_fixnum_range(next as int),
    ensures
        final(heap)@ == with_cell(
            with_cell(old(heap)@, state, 4, fixnum(next as int)),
            state,
            5,
            element,
        ),
        heap_wf(final(heap)@),
{
    proof {
        cell_update_keeps_wf(heap@, state, 4, fixnum(next as int));
    }
    heap.set_cell(state, 4, Word::fixnum_unchecked(next));
    proof {
        cell_update_keeps_wf(heap@, state, 5, element);
    }
    heap.set_cell(state, 5, element);
}

/// Advances an iteration state in place and answers it.
pub fn iter_state_advance(heap: &mut Heap, ids: &CollectionClasses, state: Word) -> (r: Word)
    requires
        heap_wf(old(heap)@),
        ids.wf(),
        can_advance(old(heap)@, *ids, state),
    ensures
        r == state,
        final(heap)@ == advanced(old(heap)@, *ids, state),
        heap_wf(final(heap)@),
{
    let ghost h = old(heap)@;
    let snap = match iter_state_snapshot(heap, ids, state) {
        Some(s) => s,
        None => return state,
    };
    if snap.finished {
        return state;
    }
    let ghost cells = state_cells(h, *ids, state)->0;
    let key = fixnum_else(snap.current_key, 0);
    let limit = fixnum_else(snap.limit, 0);
    let next: i64 = key + 1;
    match snap.fip_kind {
        FipKind::Empty => finish(heap, ids, state),
        FipKind::SimpleObjectVector => {
            if next >= limit {
                finish(heap, ids, state);
            } else {
                let element = vector_element(heap, snap.state_object, next);
                step_indexed(heap, ids, state, next, element);
            }
        },
        FipKind::StretchyVector => {
            if next >= limit {
                finish(heap, ids, state);
            } else {
                let (_, _, storage) = stretchy_vector_fields(
                    heap,
                    ids,
                    snap.state_object,
                ).unwrap();
                let element = vector_element(heap, storage, next);
                step_indexed(heap, ids, state, next, element);
            }
        },
        FipKind::ByteString => {
            if next >= limit {
                finish(heap, ids, state);
            } else {
                let element = byte_element(heap, snap.state_object, next);
                step_indexed(heap, ids, state, next, element);
            }
        },
        FipKind::Range => {
            let current = fixnum_else(snap.state_object, 0);
            let noted = fixnum_else(heap.cell(state, 2).unwrap(), 1);
            let by: i64 = if noted == 0 {
                1
            } else {
                noted
            };
            let value: i64 = current + by;
            let done = (by > 0 && value > limit) || (by < 0 && value < limit);
            proof {
                cell_update_keeps_wf(heap@, state, 4, fixnum(next as int));
            }
            heap.set_cell(state, 4, Word::fixnum_unchecked(next));
            if done {
                finish(heap, ids, state);
            } else {
                let w = Word::fixnum_unchecked(value);
                proof {
                    cell_update_keeps_wf(heap@, state, 0, w);
                }
                heap.set_cell(state, 0, w);
                proof {
                    cell_update_keeps_wf(heap@, state, 5, w);
                }
                heap.set_cell(state, 5, w);
            }
        },
        FipKind::List => {
            match pair_fields(heap, snap.state_object) {
                None => finish(heap, ids, state),
                Some((_, tail)) => match pair_fields(heap, tail) {
                    None => finish(heap, ids, state),
                    Some((next_head, _)) => {
                        proof {
                            cell_update_keeps_wf(heap@, state, 0, tail);
                        }
                        heap.set_cell(state, 0, tail);
                        step_indexed(heap, ids, state, next, next_head);
                    },
                },
            }
        },
    }
    proof {
        let k = index_of(state);
        assert(heap@[k].cells =~= advanced_cells(h, *ids, cells));
        assert(heap@ =~= advanced(h, *ids, state));
    }
    state
}

// ----- what a walk visits -----

/// The elements that a state still has before it, the current one first.
pub open spec fn remaining(
    h: Seq<ObjectView>,
    ids: CollectionClasses,
    cells: Seq<Word>,
) -> Seq<Word> {
    if snapshot_of(cells).finished {
        seq![]
    } else {
        match snapshot_of(cells).fip_kind {
            FipKind::Empty => seq![],
            FipKind::SimpleObjectVector | FipKind::StretchyVector | FipKind::ByteString =>
            indexed_elements(h, ids, cells).subrange(
                fixnum_or(cells[4], 0),
                fixnum_or(cells[1], 0),
            ),
            FipKind::Range => range_elements(
                fixnum_or(cells[0], 0),
                fixnum_or(cells[1], 0),
                step_of(cells),
            ),
            FipKind::List => list_elements(h, cells[0]),
        }
    }
}

/// The cells are those of a walk under way or over: the current element is the
/// first of the remaining ones, and the state can be stepped to the end.
pub open spec fn walking(h: Seq<ObjectView>, ids: CollectionClasses, cells: Seq<Word>) -> bool {
    &&& cells.len() >= 8
    &&& snapshot_of(cells).finished || {
        let key = fixnum_or(cells[4], 0);
        let limit = fixnum_or(cells[1], 0);
        &&& 0 <= key
        &&& key + remaining(h, ids, cells).len() <= FIXNUM_MAX
        &&& match snapshot_of(cells).fip_kind {
            FipKind::Empty => false,
            FipKind::SimpleObjectVector => {
                &&& vector_at(h, cells[0]) is Some
                &&& key < limit <= indexed_elements(h, ids, cells).len()
                &&& cells[5] == indexed_elements(h, ids, cells)[key]
            },
            FipKind::StretchyVector => {
                &&& stretchy_at(h, ids, cells[0]) is Some
                &&& vector_at(h, (stretchy_at(h, ids, cells[0])->0).2) is Some
                &&& key < limit <= indexed_elements(h, ids, cells).len()
                &&& cells[5] == indexed_elements(h, ids, cells)[key]
            },
            FipKind::ByteString => {
                &&& class_at(h, cells[0]) == Some(ClassId(ClassId::BYTE_STRING))
                &&& key < limit <= indexed_elements(h, ids, cells).len()
                &&& cells[5] == indexed_elements(h, ids, cells)[key]
            },
            FipKind::Range => {
                &&& in_fixnum_range(fixnum_or(cells[0], 0))
                &&& in_fixnum_range(limit)
                &&& range_count(fixnum_or(cells[0], 0), limit, step_of(cells)) > 0
                &&& cells[5] == fixnum(fixnum_or(cells[0], 0))
            },
            FipKind::List => {
                &&& pair_at(h, cells[0]) is Some
                &&& list_ends(h, cells[0])
                &&& cells[5] == (pair_at(h, cells[0])->0).0
            },
        }
    }
}

/// The word of every integer in a word is a fixnum in range.
proof fn fixnum_or_in_range(w: Word, default: int)
    requires
        in_fixnum_range(default),
    ensures
        in_fixnum_range(fixnum_or(w, default)),
{
}

/// Starting a walk puts every element of the collection before the state.
pub proof fn start_stands_before_all(h: Seq<ObjectView>, ids: CollectionClasses, c: Word)
    requires
        heap_wf(h),
        ids.wf(),
        walkable(h, ids, c),
        elements(h, ids, c) is Some,
    ensures
        walking(h, ids, start_cells(h, ids, c)),
        remaining(h, ids, start_cells(h, ids, c)) == elements(h, ids, c)->0,
{
    let es = elements(h, ids, c)->0;
    let n = es.len() as int;
    let cells = start_cells(h, ids, c);
    let class = class_at(h, c)->0;
    fixnum_round_trip(0);
    fixnum_round_trip(n);
    assert(true_word() != false_word());
    if class == ids.range {
        let (from, to, by) = range_at(h, ids, c)->0;
        let o = object_at(h, c)->0;
        fixnum_or_in_range(o.cells[0], 0);
        fixnum_or_in_range(o.cells[1], 0);
        fixnum_or_in_range(o.cells[2], 1);
        fixnum_round_trip(from);
        fixnum_round_trip(to);
        fixnum_round_trip(by);
        range_terms_in_bounds(from, to, by);
        fixnum_round_trip(3);
        assert(remaining(h, ids, cells) =~= es);
    } else if class == ClassId(ClassId::PAIR) {
        fixnum_round_trip(2);
        list_tail(h, c);
        assert(remaining(h, ids, cells) =~= es);
    } else if class == ClassId(ClassId::EMPTY_LIST) {
        assert(remaining(h, ids, cells) =~= es);
    } else if class == ClassId(ClassId::SIMPLE_OBJECT_VECTOR) {
        fixnum_round_trip(1);
        assert(remaining(h, ids, cells) =~= es);
    } else if class == ids.stretchy_vector {
        fixnum_round_trip(4);
        assert(remaining(h, ids, cells) =~= es);
    } else {
        fixnum_round_trip(5);
        assert(remaining(h, ids, cells) =~= es);
    }
}

/// While a walk is under way, the current element is the first of the remaining
/// ones, and a step drops exactly that one.
pub proof fn step_drops_first(h: Seq<ObjectView>, ids: CollectionClasses, cells: Seq<Word>)
    requires
        heap_wf(h),
        ids.wf(),
        walking(h, ids, cells),
        !snapshot_of(cells).finished,
    ensures
        remaining(h, ids, cells).len() > 0,
        snapshot_of(cells).current_element == remaining(h, ids, cells)[0],
        walking(h, ids, advanced_cells(h, ids, cells)),
        remaining(h, ids, advanced_cells(h, ids, cells)) == remaining(h, ids, cells).drop_first(),
{
    let next_cells = advanced_cells(h, ids, cells);
    let key = fixnum_or(cells[4], 0);
    let limit = fixnum_or(cells[1], 0);
    fixnum_or_in_range(cells[4], 0);
    fixnum_or_in_range(cells[1], 0);
    fixnum_or_in_range(cells[0], 0);
    match snapshot_of(cells).fip_kind {
        FipKind::Range => {
            let from = fixnum_or(cells[0], 0);
            let by = step_of(cells);
            fixnum_or_in_range(cells[2], 1);
            range_terms_in_bounds(from, limit, by);
            range_step(from, limit, by);
            fixnum_round_trip(key + 1);
            if range_count(from, limit, by) > 1 {
                range_terms_are_fixnums(from, limit, by, 1);
                assert(1 * by == by);
                fixnum_round_trip(from + by);
                assert(next_cells[2] == cells[2]);
            }
            assert(remaining(h, ids, next_cells) =~= remaining(h, ids, cells).drop_first());
        },
        FipKind::List => {
            list_tail(h, cells[0]);
            let tail = (pair_at(h, cells[0])->0).1;
            match pair_at(h, tail) {
                None => {
                    list_end(h, tail);
                },
                Some((next_head, rest)) => {
                    list_tail(h, tail);
                    fixnum_round_trip(key + 1);
                },
            }
            assert(remaining(h, ids, next_cells) =~= remaining(h, ids, cells).drop_first());
        },
        _ => {
            if key + 1 < limit {
                fixnum_round_trip(key + 1);
            }
            assert(remaining(h, ids, next_cells) =~= remaining(h, ids, cells).drop_first());
        },
    }
}

/// A walk under way can be advanced.
pub proof fn walk_can_advance(h: Seq<ObjectView>, ids: CollectionClasses, w: Word)
    requires
        heap_wf(h),
        ids.wf(),
        state_cells(h, ids, w) is Some,
        walking(h, ids, state_cells(h, ids, w)->0),
    ensures
        can_advance(h, ids, w),
{
    let cells = state_cells(h, ids, w)->0;
    if !snapshot_of(cells).finished {
        step_drops_first(h, ids, cells);
    }
}

// ----- what iteration leaves alone -----

/// From `h` to `g`, only iteration states have changed, and no pair was added.
pub open spec fn quiet(h: Seq<ObjectView>, g: Seq<ObjectView>, ids: CollectionClasses) -> bool {
    &&& h.len() <= g.len()
    &&& forall|i: int|
        0 <= i < h.len() ==> #[trigger] g[i] == h[i] || (g[i].class == ids.iteration_state
            && h[i].class == ids.iteration_state)
    &&& forall|i: int|
        h.len() <= i < g.len() ==> (#[trigger] g[i]).class != ClassId(ClassId::PAIR)
}

proof fn quiet_spine(
    h: Seq<ObjectView>,
    g: Seq<ObjectView>,
    ids: CollectionClasses,
    w: Word,
    fuel: nat,
)
    requires
        ids.wf(),
        quiet(h, g, ids),
    ensures
        pair_at(h, w) == pair_at(g, w),
        spine(h, w, fuel) == spine(g, w, fuel),
        nth_tail(h, w, fuel) == nth_tail(g, w, fuel),
    decreases fuel,
{
    if points_into(h, w) {
        assert(g[index_of(w)] == h[index_of(w)] || g[index_of(w)].class == ids.iteration_state);
    }
    if fuel > 0 {
        match pair_at(h, w) {
            Some((head, tail)) => quiet_spine(h, g, ids, tail, (fuel - 1) as nat),
            None => {},
        }
    }
}

proof fn tail_past_end(h: Seq<ObjectView>, w: Word, n: nat, m: nat)
    requires
        pair_at(h, nth_tail(h, w, n)) is None,
        n <= m,
    ensures
        nth_tail(h, w, m) == nth_tail(h, w, n),
        spine(h, w, m) == spine(h, w, n),
    decreases n,
{
    match pair_at(h, w) {
        Some((head, tail)) => {
            if n > 0 {
                tail_past_end(h, tail, (n - 1) as nat, (m - 1) as nat);
            }
        },
        None => {},
    }
}

/// Quiet changes keep lists.
pub proof fn quiet_list(
    h: Seq<ObjectView>,
    g: Seq<ObjectView>,
    ids: CollectionClasses,
    w: Word,
)
    requires
        ids.wf(),
        quiet(h, g, ids),
        list_ends(h, w),
    ensures
        pair_at(g, w) == pair_at(h, w),
        list_ends(g, w),
        list_elements(g, w) == list_elements(h, w),
{
    quiet_spine(h, g, ids, w, h.len());
    quiet_spine(h, g, ids, nth_tail(h, w, h.len()), 0);
    tail_past_end(g, w, h.len(), g.len());
}

/// Quiet changes keep collections and what they hold.
pub proof fn quiet_collection(
    h: Seq<ObjectView>,
    g: Seq<ObjectView>,
    ids: CollectionClasses,
    w: Word,
)
    requires
        ids.wf(),
        quiet(h, g, ids),
        walkable(h, ids, w),
        elements(h, ids, w) is Some,
    ensures
        elements(g, ids, w) == elements(h, ids, w),
        walkable(g, ids, w),
        class_at(g, w) == class_at(h, w),
{
    let k = index_of(w);
    assert(g[k] == h[k]);
    if h[k].class == ClassId(ClassId::PAIR) {
        quiet_list(h, g, ids, w);
    } else if h[k].class == ids.stretchy_vector {
        let storage = (stretchy_at(h, ids, w)->0).2;
        assert(vector_at(h, storage) is Some);
        assert(g[index_of(storage)] == h[index_of(storage)]);
    }
}

/// Quiet changes keep walks.
pub proof fn quiet_walk(
    h: Seq<ObjectView>,
    g: Seq<ObjectView>,
    ids: CollectionClasses,
    cells: Seq<Word>,
)
    requires
        ids.wf(),
        quiet(h, g, ids),
        walking(h, ids, cells),
    ensures
        walking(g, ids, cells),
        remaining(g, ids, cells) == remaining(h, ids, cells),
{
    if !snapshot_of(cells).finished {
        let w = cells[0];
        match snapshot_of(cells).fip_kind {
            FipKind::List => {
                quiet_list(h, g, ids, w);
            },
            FipKind::Range => {},
            FipKind::Empty => {},
            FipKind::StretchyVector => {
                assert(g[index_of(w)] == h[index_of(w)]);
                let storage = (stretchy_at(h, ids, w)->0).2;
                assert(g[index_of(storage)] == h[index_of(storage)]);
            },
            _ => {
                assert(g[index_of(w)] == h[index_of(w)]);
            },
        }
    }
}

/// Advancing a walk is a quiet change that drops the first remaining element.
pub proof fn advance_drops_first(h: Seq<ObjectView>, ids: CollectionClasses, w: Word)
    requires
        heap_wf(h),
        ids.wf(),
        state_cells(h, ids, w) is Some,
        walking(h, ids, state_cells(h, ids, w)->0),
        !snapshot_of(state_cells(h, ids, w)->0).finished,
    ensures
        ({
            let g = advanced(h, ids, w);
            let before = state_cells(h, ids, w)->0;
            &&& quiet(h, g, ids)
            &&& state_cells(g, ids, w) == Some(advanced_cells(h, ids, before))
            &&& walking(g, ids, state_cells(g, ids, w)->0)
            &&& remaining(g, ids, state_cells(g, ids, w)->0) == remaining(
                h,
                ids,
                before,
            ).drop_first()
        }),
{
    let g = advanced(h, ids, w);
    let before = state_cells(h, ids, w)->0;
    step_drops_first(h, ids, before);
    assert(state_cells(g, ids, w) == Some(advanced_cells(h, ids, before)));
    quiet_walk(h, g, ids, advanced_cells(h, ids, before));
}

// ----- walking whole collections -----

/// The elements of a collection; none for a word that is no known collection.
pub open spec fn elements_or_none(
    h: Seq<ObjectView>,
    ids: CollectionClasses,
    c: Word,
) -> Seq<Word> {
    match elements(h, ids, c) {
        Some(es) => es,
        None => seq![],
    }
}

/// How many iteration states walking over a word makes.
pub open spec fn states_made(h: Seq<ObjectView>, ids: CollectionClasses, c: Word) -> int {
    if elements(h, ids, c) is Some {
        1
    } else {
        0
    }
}

/// Walks a collection and answers the elements in the order of the visit.
pub fn collection_do(heap: &mut Heap, ids: &CollectionClasses, c: Word) -> (visited: Vec<Word>)
    requires
        heap_wf(old(heap)@),
        heap_room(old(heap)@, 1),
        ids.wf(),
        walkable(old(heap)@, *ids, c),
    ensures
        visited@ == elements_or_none(old(heap)@, *ids, c),
        heap_wf(final(heap)@),
        final(heap)@.len() == old(heap)@.len() + states_made(old(heap)@, *ids, c),
        quiet(old(heap)@, final(heap)@, *ids),
        final(heap)@.take(old(heap)@.len() as int) == old(heap)@,
        forall|i: int|
            old(heap)@.len() <= i < final(heap)@.len() ==> (#[trigger] final(heap)@[i]).class
                == ids.iteration_state,
{
    let ghost h = old(heap)@;
    let ghost n = h.len() as int;
    let mut visited: Vec<Word> = Vec::new();
    let state = match forward_iteration_protocol_init(heap, ids, c) {
        Some(s) => s,
        None => {
            assert(heap@.take(n) =~= h);
            return visited;
        },
    };
    let ghost es = elements(h, *ids, c)->0;
    proof {
        start_stands_before_all(h, *ids, c);
        quiet_walk(h, heap@, *ids, start_cells(h, *ids, c));
        assert(state_cells(heap@, *ids, state) == Some(start_cells(h, *ids, c)));
        assert(visited@ + es =~= es);
    }
    loop
        invariant
            heap_wf(heap@),
            ids.wf(),
            n == h.len(),
            heap@.len() == n + 1,
            state == word_of(n),
            n < HEAP_LIMIT,
            forall|i: int| 0 <= i < n ==> #[trigger] heap@[i] == h[i],
            heap@[n].class == ids.iteration_state,
            state_cells(heap@, *ids, state) is Some,
            walking(heap@, *ids, state_cells(heap@, *ids, state)->0),
            visited@ + remaining(heap@, *ids, state_cells(heap@, *ids, state)->0) == es,
        ensures
            visited@ == es,
        decreases remaining(heap@, *ids, state_cells(heap@, *ids, state)->0).len(),
    {
        let snap = iter_state_snapshot(heap, ids, state).unwrap();
        if snap.finished {
            assert(visited@ =~= es);
            break;
        }
        let ghost before = heap@;
        let ghost rest = remaining(before, *ids, state_cells(before, *ids, state)->0);
        proof {
            step_drops_first(before, *ids, state_cells(before, *ids, state)->0);
            advance_drops_first(before, *ids, state);
            walk_can_advance(before, *ids, state);
            assert(visited@.push(rest[0]) + rest.drop_first() =~= visited@ + rest);
        }
        visited.push(snap.current_element);
        let _ = iter_state_advance(heap, ids, state);
    }
    assert(heap@.take(n) =~= h);
    visited
}

/// The accumulators of a left fold: each comes from the one before it and the
/// next element.
pub open spec fn folds<F: Fn(Word, Word) -> Word>(
    f: F,
    init: Word,
    es: Seq<Word>,
    accs: Seq<Word>,
) -> bool {
    &&& accs.len() == es.len() + 1
    &&& accs[0] == init
    &&& forall|i: int|
        0 <= i < es.len() ==> f.ensures((accs[i], #[trigger] es[i]), accs[i + 1])
}

/// Folds a collection from the left.
pub fn collection_reduce<F: Fn(Word, Word) -> Word>(
    heap: &mut Heap,
    ids: &CollectionClasses,
    c: Word,
    init: Word,
    f: F,
) -> (r: Word)
    requires
        heap_wf(old(heap)@),
        heap_room(old(heap)@, 1),
        ids.wf(),
        walkable(old(heap)@, *ids, c),
        forall|a: Word, e: Word| f.requires((a, e)),
    ensures
        exists|accs: Seq<Word>|
            #![trigger accs.last()]
            folds(f, init, elements_or_none(old(heap)@, *ids, c), accs) && r == accs.last(),
        heap_wf(final(heap)@),
        final(heap)@.take(old(heap)@.len() as int) == old(heap)@,
        final(heap)@.len() == old(heap)@.len() + states_made(old(heap)@, *ids, c),
        forall|i: int|
            old(heap)@.len() <= i < final(heap)@.len() ==> (#[trigger] final(heap)@[i]).class
                == ids.iteration_state,
{
    let visited = collection_do(heap, ids, c);
    let mut acc = init;
    let ghost mut accs: Seq<Word> = seq![init];
    let mut i: usize = 0;
    while i < visited.len()
        invariant
            i <= visited.len(),
            forall|a: Word, e: Word| f.requires((a, e)),
            accs.len() == i + 1,
            accs[0] == init,
            acc == accs.last(),
            forall|k: int|
                0 <= k < i ==> f.ensures((accs[k], #[trigger] visited@[k]), accs[k + 1]),
        decreases visited.len() - i,
    {
        let next = f(acc, visited[i]);
        proof {
            let longer = accs.push(next);
            assert forall|k: int| 0 <= k < i + 1 implies f.ensures(
                (longer[k], #[trigger] visited@[k]),
                longer[k + 1],
            ) by {}
            accs = longer;
        }
        acc = next;
        i += 1;
    }
    assert(folds(f, init, visited@, accs));
    acc
}

// ----- building lists -----

/// `w` is a proper list of exactly these elements.
pub open spec fn proper_list(h: Seq<ObjectView>, w: Word, es: Seq<Word>) -> bool
    decreases es.len(),
{
    if es.len() == 0 {
        w == nil_word()
    } else {
        match pair_at(h, w) {
            Some((head, tail)) => head == es[0] && proper_list(h, tail, es.drop_first()),
            None => false,
        }
    }
}

/// Adding an object keeps proper lists.
proof fn proper_list_push(h: Seq<ObjectView>, o: ObjectView, w: Word, es: Seq<Word>)
    requires
        proper_list(h, w, es),
    ensures
        proper_list(h.push(o), w, es),
    decreases es.len(),
{
    if es.len() > 0 {
        proper_list_push(h, o, (pair_at(h, w)->0).1, es.drop_first());
    }
}

proof fn proper_list_spine(h: Seq<ObjectView>, w: Word, es: Seq<Word>, fuel: nat)
    requires
        heap_wf(h),
        proper_list(h, w, es),
        es.len() <= fuel,
    ensures
        spine(h, w, fuel) == es,
        pair_at(h, nth_tail(h, w, fuel)) is None,
    decreases es.len(),
{
    if es.len() == 0 {
        assert(h[2] == h.take(3)[2]);
        assert(pair_at(h, w) is None);
        assert(spine(h, w, fuel) =~= es);
        assert(nth_tail(h, w, fuel) == w);
    } else {
        let (head, tail) = pair_at(h, w)->0;
        proper_list_spine(h, tail, es.drop_first(), (fuel - 1) as nat);
        assert(seq![head] + es.drop_first() =~= es);
    }
}

/// A proper list ends, and its elements are the listed ones.
pub proof fn proper_list_elements(h: Seq<ObjectView>, w: Word, es: Seq<Word>)
    requires
        heap_wf(h),
        proper_list(h, w, es),
        es.len() <= h.len(),
    ensures
        list_ends(h, w),
        list_elements(h, w) == es,
{
    proper_list_spine(h, w, es, h.len());
}

/// Builds a list, last pair first.
fn build_list(heap: &mut Heap, items: &Vec<Word>) -> (w: Word)
    requires
        heap_wf(old(heap)@),
        heap_room(old(heap)@, items@.len() as int),
    ensures
        proper_list(final(heap)@, w, items@),
        list_ends(final(heap)@, w),
        list_elements(final(heap)@, w) == items@,
        final(heap)@.len() == old(heap)@.len() + items@.len(),
        final(heap)@.take(old(heap)@.len() as int) == old(heap)@,
        items@.len() == 0 ==> final(heap)@ == old(heap)@,
        items@.len() > 0 ==> w == word_of(final(heap)@.len() - 1),
        heap_wf(final(heap)@),
{
    let ghost h = old(heap)@;
    let mut tail = literal_pool_immediates().nil;
    let mut i: usize = items.len();
    assert(items@.skip(i as int) =~= seq![]);
    while i > 0
        invariant
            i <= items.len(),
            heap_wf(h),
            heap_wf(heap@),
            heap_room(h, items@.len() as int),
            heap@.len() == h.len() + items@.len() - i,
            forall|k: int| 0 <= k < h.len() ==> #[trigger] heap@[k] == h[k],
            proper_list(heap@, tail, items@.skip(i as int)),
            i < items.len() ==> tail == word_of(heap@.len() - 1),
        decreases i,
    {
        i -= 1;
        let ghost before = heap@;
        let ghost rest = items@.skip(i + 1);
        let ghost old_tail = tail;
        let ghost o = cells_object(ClassId(ClassId::PAIR), seq![items@[i as int], tail]);
        proof {
            push_keeps_wf(before, o);
            proper_list_push(before, o, tail, rest);
        }
        tail = heap.alloc_pair(items[i], tail);
        proof {
            assert(items@.skip(i as int).drop_first() =~= rest);
            assert(pair_at(heap@, tail) == Some((items@[i as int], old_tail)));
        }
    }
    proof {
        assert(items@.skip(0) =~= items@);
        proper_list_elements(heap@, tail, items@);
        assert(heap@.take(h.len() as int) =~= h);
        if items@.len() == 0 {
            assert(heap@ =~= h);
        }
    }
    tail
}

/// Fills a fresh vector.
fn build_vector(heap: &mut Heap, items: &Vec<Word>) -> (w: Word)
    requires
        heap_wf(old(heap)@),
        heap_room(old(heap)@, 1),
    ensures
        w == word_of(old(heap)@.len() as int),
        final(heap)@ == old(heap)@.push(
            cells_object(ClassId(ClassId::SIMPLE_OBJECT_VECTOR), items@),
        ),
        heap_wf(final(heap)@),
{
    proof {
        push_keeps_wf(heap@, cells_object(ClassId(ClassId::SIMPLE_OBJECT_VECTOR), items@));
    }
    heap.alloc_cells(ClassId(ClassId::SIMPLE_OBJECT_VECTOR), items.clone())
}

/// Fills a fresh stretchy vector.
fn build_stretchy_vector(heap: &mut Heap, ids: &CollectionClasses, items: &Vec<Word>) -> (w: Word)
    requires
        heap_wf(old(heap)@),
        heap_room(old(heap)@, 3),
        ids.wf(),
        items@.len() <= FIXNUM_MAX,
    ensures
        w == word_of(old(heap)@.len() as int + 1),
        stretchy_wf(final(heap)@, *ids, w),
        elements(final(heap)@, *ids, w) == Some(items@),
        class_at(final(heap)@, w) == Some(ids.stretchy_vector),
        final(heap)@.len() == old(heap)@.len() + 2,
        final(heap)@.take(old(heap)@.len() as int) == old(heap)@,
        heap_wf(final(heap)@),
{
    let ghost h = old(heap)@;
    let ghost n = h.len() as int;
    let w = make_stretchy_vector(heap, ids, items.len());
    let mut i: usize = 0;
    assert(items@.take(0) =~= seq![]);
    while i < items.len()
        invariant
            i <= items.len(),
            items@.len() <= FIXNUM_MAX,
            ids.wf(),
            n == h.len(),
            w == word_of(n + 1),
            heap_room(h, 3),
            heap_wf(heap@),
            heap@.len() == n + 2,
            forall|k: int| 0 <= k < n ==> #[trigger] heap@[k] == h[k],
            stretchy_wf(heap@, *ids, w),
            elements(heap@, *ids, w) == Some(items@.take(i as int)),
            (stretchy_at(heap@, *ids, w)->0).0 == i,
            (stretchy_at(heap@, *ids, w)->0).1 >= items@.len(),
            (stretchy_at(heap@, *ids, w)->0).2 == word_of(n),
        decreases items.len() - i,
    {
        stretchy_vector_push(heap, ids, w, items[i]);
        assert(items@.take(i + 1) =~= items@.take(i as int).push(items@[i as int]));
        i += 1;
    }
    assert(items@.take(i as int) =~= items@);
    assert(heap@.take(n) =~= h);
    w
}

/// How many objects a fresh collection of a class with `n` elements is made of.
pub open spec fn objects_built(ids: CollectionClasses, class: ClassId, n: int) -> int {
    if class == ids.stretchy_vector {
        2
    } else if class == ClassId(ClassId::PAIR) {
        n
    } else if class == ClassId(ClassId::EMPTY_LIST) {
        0
    } else {
        1
    }
}

/// A collection is a new object, unless it is the empty list, and a stretchy
/// vector among these is sound.
pub open spec fn made_anew(
    h: Seq<ObjectView>,
    ids: CollectionClasses,
    g: Seq<ObjectView>,
    r: Word,
) -> bool {
    &&& class_at(g, r) == Some(ClassId(ClassId::EMPTY_LIST)) ==> r == nil_word()
    &&& class_at(g, r) != Some(ClassId(ClassId::EMPTY_LIST)) ==> index_of(r) >= h.len()
    &&& class_at(g, r) == Some(ids.stretchy_vector) ==> stretchy_wf(g, ids, r)
}

// ----- mapping -----

/// Each result comes from the element at its place.
pub open spec fn maps<F: Fn(Word) -> Word>(f: F, es: Seq<Word>, ms: Seq<Word>) -> bool {
    &&& ms.len() == es.len()
    &&& forall|i: int| 0 <= i < es.len() ==> f.ensures((es[i],), #[trigger] ms[i])
}

/// Whether mapping knows how to rebuild a collection of this class.
pub open spec fn mappable(ids: CollectionClasses, class: Option<ClassId>) -> bool {
    match class {
        Some(k) => k == ClassId(ClassId::SIMPLE_OBJECT_VECTOR) || k == ids.range || k
            == ids.stretchy_vector || k == ClassId(ClassId::EMPTY_LIST) || k == ClassId(
            ClassId::PAIR,
        ),
        None => false,
    }
}

/// The class of what mapping over a collection makes: a vector for a range, else
/// the class of the collection.
pub open spec fn mapped_class(ids: CollectionClasses, class: ClassId) -> ClassId {
    if class == ids.range {
        ClassId(ClassId::SIMPLE_OBJECT_VECTOR)
    } else {
        class
    }
}

/// Maps a function over a collection into a fresh collection of the same shape;
/// a range maps into a vector. Anything else maps to the empty list.
pub fn collection_map<F: Fn(Word) -> Word>(
    heap: &mut Heap,
    ids: &CollectionClasses,
    c: Word,
    f: F,
) -> (r: Word)
    requires
        heap_wf(old(heap)@),
        ids.wf(),
        walkable(old(heap)@, *ids, c),
        heap_room(old(heap)@, 4 + elements_or_none(old(heap)@, *ids, c).len() as int),
        forall|e: Word| f.requires((e,)),
    ensures
        ({
            let h = old(heap)@;
            let g = final(heap)@;
            let class = class_at(h, c);
            let es = elements(h, *ids, c);
            if es is Some && mappable(*ids, class) {
                exists|ms: Seq<Word>|
                    #![trigger maps(f, es->0, ms)]
                    maps(f, es->0, ms) && elements(g, *ids, r) == Some(ms) && class_at(g, r)
                        == Some(mapped_class(*ids, class->0)) && made_anew(h, *ids, g, r) && g.len()
                        == h.len() + (if class
                        == Some(ClassId(ClassId::EMPTY_LIST)) {
                        0
                    } else {
                        1 + objects_built(*ids, mapped_class(*ids, class->0), ms.len() as int)
                    })
            } else {
                r == nil_word() && g == h
            }
        }),
        final(heap)@.take(old(heap)@.len() as int) == old(heap)@,
        heap_wf(final(heap)@),
{
    let ghost h = old(heap)@;
    let ghost n = h.len() as int;
    let ghost es = elements(h, *ids, c);
    let nil = literal_pool_immediates().nil;
    assert(h.take(n) =~= h);
    let class = match heap.class_of(c) {
        Some(k) => k,
        None => return nil,
    };
    if class == ClassId(ClassId::EMPTY_LIST) {
        assert(h[2] == h.take(3)[2]);
        assert(class_at(h, nil) == Some(ClassId(ClassId::EMPTY_LIST)));
        assert(maps(f, es->0, seq![]));
        return nil;
    }
    if class != ClassId(ClassId::SIMPLE_OBJECT_VECTOR) && class != ids.range && class
        != ids.stretchy_vector && class != ClassId(ClassId::PAIR) {
        return nil;
    }
    if collection_size(heap, ids, c).is_none() {
        return nil;
    }
    let visited = collection_do(heap, ids, c);
    let ghost walked = heap@;
    let mut mapped: Vec<Word> = Vec::new();
    let mut i: usize = 0;
    while i < visited.len()
        invariant
            i <= visited.len(),
            mapped@.len() == i,
            forall|e: Word| f.requires((e,)),
            forall|k: int| 0 <= k < i ==> f.ensures((visited@[k],), #[trigger] mapped@[k]),
        decreases visited.len() - i,
    {
        let m = f(visited[i]);
        mapped.push(m);
        i += 1;
    }
    assert(maps(f, es->0, mapped@));
    let r = if class == ids.stretchy_vector {
        build_stretchy_vector(heap, ids, &mapped)
    } else if class == ClassId(ClassId::PAIR) {
        proof {
            list_tail(h, c);
        }
        build_list(heap, &mapped)
    } else {
        build_vector(heap, &mapped)
    };
    proof {
        let g = heap@;
        assert(g.take(n) =~= h) by {
            assert forall|k: int| 0 <= k < n implies #[trigger] g[k] == h[k] by {
                assert(walked.take(n)[k] == walked[k]);
                assert(g.take(walked.len() as int)[k] == g[k]);
            }
        }
        if class == ClassId(ClassId::PAIR) {
            assert(mapped@.len() > 0);
            assert(pair_at(g, r) is Some);
        }
        assert(elements(g, *ids, r) == Some(mapped@));
    }
    r
}

// ----- concatenation -----

/// Whether a class is that of lists.
pub open spec fn is_list_class(class: Option<ClassId>) -> bool {
    class == Some(ClassId(ClassId::PAIR)) || class == Some(ClassId(ClassId::EMPTY_LIST))
}

/// The class of what joining two collections makes.
pub open spec fn joined_class(
    ids: CollectionClasses,
    k1: Option<ClassId>,
    k2: Option<ClassId>,
    total: int,
) -> ClassId {
    if is_list_class(k1) && is_list_class(k2) {
        if total == 0 {
            ClassId(ClassId::EMPTY_LIST)
        } else {
            ClassId(ClassId::PAIR)
        }
    } else if k1 == k2 && (k1 == Some(ids.stretchy_vector) || k1 == Some(
        ClassId(ClassId::BYTE_STRING),
    )) {
        k1->0
    } else {
        ClassId(ClassId::SIMPLE_OBJECT_VECTOR)
    }
}

/// Iteration states are no collections, so walking one collection makes no
/// collection of a word that was none.
proof fn quiet_keeps_strangers(
    h: Seq<ObjectView>,
    g: Seq<ObjectView>,
    ids: CollectionClasses,
    w: Word,
)
    requires
        ids.wf(),
        walkable(h, ids, w),
        elements(h, ids, w) is None,
        h.len() <= g.len(),
        g.take(h.len() as int) == h,
        forall|i: int|
            h.len() <= i < g.len() ==> (#[trigger] g[i]).class == ids.iteration_state,
    ensures
        elements(g, ids, w) is None,
        walkable(g, ids, w),
{
    if points_into(h, w) {
        assert(g.take(h.len() as int)[index_of(w)] == g[index_of(w)]);
    }
}

/// Joins the bytes of two byte strings.
fn join_byte_strings(heap: &mut Heap, c1: Word, c2: Word) -> (w: Word)
    requires
        heap_wf(old(heap)@),
        heap_room(old(heap)@, 1),
        object_at(old(heap)@, c1) is Some,
        object_at(old(heap)@, c2) is Some,
    ensures
        w == word_of(old(heap)@.len() as int),
        final(heap)@ == old(heap)@.push(
            bytes_object(
                object_at(old(heap)@, c1)->0.bytes + object_at(old(heap)@, c2)->0.bytes,
            ),
        ),
        byte_elements(object_at(old(heap)@, c1)->0.bytes + object_at(old(heap)@, c2)->0.bytes)
            == byte_elements(object_at(old(heap)@, c1)->0.bytes) + byte_elements(
            object_at(old(heap)@, c2)->0.bytes,
        ),
        heap_wf(final(heap)@),
{
    let ghost b1 = object_at(heap@, c1)->0.bytes;
    let ghost b2 = object_at(heap@, c2)->0.bytes;
    let mut bytes: Vec<u8> = heap.get(c1).unwrap().bytes.clone();
    let mut more: Vec<u8> = heap.get(c2).unwrap().bytes.clone();
    bytes.append(&mut more);
    proof {
        assert(bytes@ =~= b1 + b2);
        assert(byte_elements(b1 + b2) =~= byte_elements(b1) + byte_elements(b2));
        push_keeps_wf(heap@, bytes_object(bytes@));
    }
    heap.alloc_byte_string(bytes)
}

/// Joins two collections into a fresh one. Two lists join into a list, two
/// stretchy vectors into a stretchy vector, two byte strings into a byte
/// string; everything else joins into a vector. A word that is no collection
/// adds no elements.
pub fn collection_concatenate(
    heap: &mut Heap,
    ids: &CollectionClasses,
    c1: Word,
    c2: Word,
) -> (r: Word)
    requires
        heap_wf(old(heap)@),
        ids.wf(),
        walkable(old(heap)@, *ids, c1),
        walkable(old(heap)@, *ids, c2),
        ({
            let total = elements_or_none(old(heap)@, *ids, c1).len() + elements_or_none(
                old(heap)@,
                *ids,
                c2,
            ).len();
            heap_room(old(heap)@, 5 + total as int) && total <= FIXNUM_MAX && total <= usize::MAX
        }),
    ensures
        ({
            let h = old(heap)@;
            let g = final(heap)@;
            let joined = elements_or_none(h, *ids, c1) + elements_or_none(h, *ids, c2);
            let k1 = class_at(h, c1);
            let k2 = class_at(h, c2);
            &&& elements(g, *ids, r) == Some(joined)
            &&& class_at(g, r) == Some(joined_class(*ids, k1, k2, joined.len() as int))
            &&& made_anew(h, *ids, g, r)
            &&& g.len() == h.len() + states_made(h, *ids, c1) + states_made(h, *ids, c2)
                + objects_built(
                *ids,
                joined_class(*ids, k1, k2, joined.len() as int),
                joined.len() as int,
            )
        }),
        final(heap)@.take(old(heap)@.len() as int) == old(heap)@,
        heap_wf(final(heap)@),
{
    let ghost h = old(heap)@;
    let ghost n = h.len() as int;
    let class1 = heap.class_of(c1);
    let class2 = heap.class_of(c2);
    let mut items = collection_do(heap, ids, c1);
    let ghost first = heap@;
    proof {
        if elements(h, *ids, c2) is Some {
            quiet_collection(h, first, *ids, c2);
        } else {
            quiet_keeps_strangers(h, first, *ids, c2);
        }
    }
    let mut rest = collection_do(heap, ids, c2);
    let ghost walked = heap@;
    items.append(&mut rest);
    let ghost joined = elements_or_none(h, *ids, c1) + elements_or_none(h, *ids, c2);
    assert(items@ =~= joined);
    let lists = match (class1, class2) {
        (Some(a), Some(b)) => (a == ClassId(ClassId::PAIR) || a == ClassId(ClassId::EMPTY_LIST))
            && (b == ClassId(ClassId::PAIR) || b == ClassId(ClassId::EMPTY_LIST)),
        _ => false,
    };
    let stretchy = match (class1, class2) {
        (Some(a), Some(b)) => a == ids.stretchy_vector && b == ids.stretchy_vector,
        _ => false,
    };
    let strings = match (class1, class2) {
        (Some(a), Some(b)) => a == ClassId(ClassId::BYTE_STRING) && b == ClassId(
            ClassId::BYTE_STRING,
        ),
        _ => false,
    };
    let r = if lists {
        build_list(heap, &items)
    } else if stretchy {
        build_stretchy_vector(heap, ids, &items)
    } else if strings {
        proof {
            assert(first.take(n)[index_of(c1)] == h[index_of(c1)]);
            assert(first.take(n)[index_of(c2)] == h[index_of(c2)]);
            assert(walked.take(first.len() as int)[index_of(c1)] == h[index_of(c1)]);
            assert(walked.take(first.len() as int)[index_of(c2)] == h[index_of(c2)]);
        }
        join_byte_strings(heap, c1, c2)
    } else {
        build_vector(heap, &items)
    };
    proof {
        let g = heap@;
        assert(g.take(n) =~= h) by {
            assert forall|k: int| 0 <= k < n implies #[trigger] g[k] == h[k] by {
                assert(first.take(n)[k] == first[k]);
                assert(walked.take(first.len() as int)[k] == walked[k]);
                assert(g.take(walked.len() as int)[k] == g[k]);
            }
        }
        if lists {
            if joined.len() == 0 {
                assert(g[2] == g.take(3)[2]);
            } else {
                assert(pair_at(g, r) is Some);
            }
        }
    }
    r
}

// ----- primitives on raw words -----

/// The empty list in place of a word that is no collection.
pub open spec fn collection_or_nil(h: Seq<ObjectView>, ids: CollectionClasses, c: Word) -> Word {
    if elements(h, ids, c) is Some {
        c
    } else {
        nil_word()
    }
}

/// The empty list in place of a word that is no collection.
fn known_collection(heap: &Heap, ids: &CollectionClasses, c: Word) -> (r: Word)
    requires
        heap_wf(heap@),
        ids.wf(),
        walkable(heap@, *ids, c),
    ensures
        r == collection_or_nil(heap@, *ids, c),
        walkable(heap@, *ids, r),
        elements(heap@, *ids, r) == Some(elements_or_none(heap@, *ids, c)),
{
    match collection_size(heap, ids, c) {
        Some(_) => c,
        None => {
            proof {
                assert(heap@[2] == heap@.take(3)[2]);
                assert(class_at(heap@, nil_word()) == Some(ClassId(ClassId::EMPTY_LIST)));
                list_end(heap@, nil_word());
                assert(elements(heap@, *ids, nil_word())->0 =~= seq![]);
            }
            literal_pool_immediates().nil
        },
    }
}

/// Joins two collections. A word that is no collection counts as the empty list.
pub fn nod_collection_concatenate(
    heap: &mut Heap,
    ids: &CollectionClasses,
    c1_raw: u64,
    c2_raw: u64,
) -> (r: u64)
    requires
        heap_wf(old(heap)@),
        ids.wf(),
        walkable(old(heap)@, *ids, Word { raw: c1_raw }),
        walkable(old(heap)@, *ids, Word { raw: c2_raw }),
        ({
            let total = elements_or_none(old(heap)@, *ids, Word { raw: c1_raw }).len()
                + elements_or_none(old(heap)@, *ids, Word { raw: c2_raw }).len();
            heap_room(old(heap)@, 5 + total as int) && total <= FIXNUM_MAX && total <= usize::MAX
        }),
    ensures
        ({
            let h = old(heap)@;
            let c1 = collection_or_nil(h, *ids, Word { raw: c1_raw });
            let c2 = collection_or_nil(h, *ids, Word { raw: c2_raw });
            let joined = elements_or_none(h, *ids, c1) + elements_or_none(h, *ids, c2);
            let class = joined_class(
                *ids,
                class_at(h, c1),
                class_at(h, c2),
                joined.len() as int,
            );
            &&& elements(final(heap)@, *ids, Word { raw: r }) == Some(joined)
            &&& class_at(final(heap)@, Word { raw: r }) == Some(class)
            &&& made_anew(h, *ids, final(heap)@, Word { raw: r })
            &&& final(heap)@.len() == h.len() + 2 + objects_built(
                *ids,
                class,
                joined.len() as int,
            )
        }),
        final(heap)@.take(old(heap)@.len() as int) == old(heap)@,
        heap_wf(final(heap)@),
{
    let c1 = known_collection(heap, ids, Word::from_raw(c1_raw));
    let c2 = known_collection(heap, ids, Word::from_raw(c2_raw));
    collection_concatenate(heap, ids, c1, c2).raw()
}

/// Starts a walk; the empty list stands for a word that is no collection.
pub fn nod_fip_init(heap: &mut Heap, ids: &CollectionClasses, c_raw: u64) -> (r: u64)
    requires
        heap_wf(old(heap)@),
        heap_room(old(heap)@, 1),
        ids.wf(),
        startable(old(heap)@, *ids, Word { raw: c_raw }),
    ensures
        ({
            let c = Word { raw: c_raw };
            if elements(old(heap)@, *ids, c) is Some {
                r == word_of(old(heap)@.len() as int).raw && final(heap)@ == old(heap)@.push(
                    cells_object(ids.iteration_state, start_cells(old(heap)@, *ids, c)),
                )
            } else {
                r == nil_word().raw && final(heap)@ == old(heap)@
            }
        }),
        heap_wf(final(heap)@),
{
    match forward_iteration_protocol_init(heap, ids, Word::from_raw(c_raw)) {
        Some(s) => s.raw(),
        None => literal_pool_immediates().nil.raw(),
    }
}

/// Whether a walk is over; a word that is no iteration state counts as over.
pub fn nod_fip_finished_p(heap: &Heap, ids: &CollectionClasses, state_raw: u64) -> (r: u64)
    ensures
        r == bool_word(
            match state_cells(heap@, *ids, Word { raw: state_raw }) {
                Some(cells) => snapshot_of(cells).finished,
                None => true,
            },
        ).raw,
{
    match iter_state_snapshot(heap, ids, Word::from_raw(state_raw)) {
        Some(s) => boolean_word(s.finished).raw(),
        None => boolean_word(true).raw(),
    }
}

/// The current element; the empty list for a word that is no iteration state.
pub fn nod_fip_current_element(heap: &Heap, ids: &CollectionClasses, state_raw: u64) -> (r: u64)
    ensures
        r == (match state_cells(heap@, *ids, Word { raw: state_raw }) {
            Some(cells) => snapshot_of(cells).current_element,
            None => nil_word(),
        }).raw,
{
    match iter_state_snapshot(heap, ids, Word::from_raw(state_raw)) {
        Some(s) => s.current_element.raw(),
        None => literal_pool_immediates().nil.raw(),
    }
}

/// Advances a walk in place and answers the state.
pub fn nod_fip_advance(heap: &mut Heap, ids: &CollectionClasses, state_raw: u64) -> (r: u64)
    requires
        heap_wf(old(heap)@),
        ids.wf(),
        can_advance(old(heap)@, *ids, Word { raw: state_raw }),
    ensures
        r == state_raw,
        final(heap)@ == advanced(old(heap)@, *ids, Word { raw: state_raw }),
        heap_wf(final(heap)@),
{
    iter_state_advance(heap, ids, Word::from_raw(state_raw)).raw()
}

// ----- what walking is for -----

/// The heap after `k` steps of the state `w`.
pub open spec fn advanced_by(
    h: Seq<ObjectView>,
    ids: CollectionClasses,
    w: Word,
    k: nat,
) -> Seq<ObjectView>
    decreases k,
{
    if k == 0 {
        h
    } else {
        advanced(advanced_by(h, ids, w, (k - 1) as nat), ids, w)
    }
}

/// A step moves the key on by one, unless it finishes the walk.
proof fn step_moves_the_key(h: Seq<ObjectView>, ids: CollectionClasses, cells: Seq<Word>)
    requires
        walking(h, ids, cells),
        !snapshot_of(cells).finished,
    ensures
        ({
            let next = advanced_cells(h, ids, cells);
            snapshot_of(next).finished || next[4] == fixnum(fixnum_or(cells[4], 0) + 1)
        }),
{
}

/// A walk that was started over a collection visits its elements one by one in
/// order: after `k` steps the state stands at element `k` with `k` as its key, and
/// it is finished exactly when there are no more. The collection stays as it was.
pub proof fn walk_visits_elements_in_order(
    h: Seq<ObjectView>,
    ids: CollectionClasses,
    c: Word,
    k: nat,
)
    requires
        heap_wf(h),
        heap_room(h, 1),
        ids.wf(),
        walkable(h, ids, c),
        elements(h, ids, c) is Some,
    ensures
        ({
            let es = elements(h, ids, c)->0;
            let w = word_of(h.len() as int);
            let g = advanced_by(
                h.push(cells_object(ids.iteration_state, start_cells(h, ids, c))),
                ids,
                w,
                k,
            );
            let s = snapshot_of(state_cells(g, ids, w)->0);
            &&& state_cells(g, ids, w) is Some
            &&& s.finished <==> k >= es.len()
            &&& k < es.len() ==> s.current_element == es[k as int] && s.current_key == fixnum(
                k as int,
            )
            &&& g.take(h.len() as int) == h
        }),
{
    walk_so_far(h, ids, c, k);
    let es = elements(h, ids, c)->0;
    let w = word_of(h.len() as int);
    let g = advanced_by(
        h.push(cells_object(ids.iteration_state, start_cells(h, ids, c))),
        ids,
        w,
        k,
    );
    let cells = state_cells(g, ids, w)->0;
    if k < es.len() {
        assert(!snapshot_of(cells).finished);
        step_drops_first(g, ids, cells);
        assert(es.skip(k as int)[0] == es[k as int]);
    }
}

/// After `k` steps of a walk, the elements from `k` on remain.
#[verifier::rlimit(60)]
#[verifier::spinoff_prover]
proof fn walk_so_far(h: Seq<ObjectView>, ids: CollectionClasses, c: Word, k: nat)
    requires
        heap_wf(h),
        heap_room(h, 1),
        ids.wf(),
        walkable(h, ids, c),
        elements(h, ids, c) is Some,
    ensures
        ({
            let es = elements(h, ids, c)->0;
            let w = word_of(h.len() as int);
            let g = advanced_by(
                h.push(cells_object(ids.iteration_state, start_cells(h, ids, c))),
                ids,
                w,
                k,
            );
            let cells = state_cells(g, ids, w)->0;
            &&& heap_wf(g)
            &&& g.len() == h.len() + 1
            &&& g.take(h.len() as int) == h
            &&& state_cells(g, ids, w) is Some
            &&& walking(g, ids, cells)
            &&& k < es.len() ==> !snapshot_of(cells).finished && remaining(g, ids, cells)
                == es.skip(k as int) && cells[4] == fixnum(k as int)
            &&& k >= es.len() ==> snapshot_of(cells).finished
        }),
    decreases k,
{
    let es = elements(h, ids, c)->0;
    let n = h.len() as int;
    let w = word_of(n);
    let start = start_cells(h, ids, c);
    let first = h.push(cells_object(ids.iteration_state, start));
    if k == 0 {
        start_stands_before_all(h, ids, c);
        push_keeps_wf(h, cells_object(ids.iteration_state, start));
        quiet_walk(h, first, ids, start);
        assert(state_cells(first, ids, w) == Some(start));
        assert(first.take(n) =~= h);
        assert(es.skip(0) =~= es);
        if es.len() > 0 {
            if snapshot_of(start).finished {
                assert(remaining(h, ids, start).len() == 0);
            }
        } else if !snapshot_of(start).finished {
            step_drops_first(h, ids, start);
        }
        assert(start[4] == fixnum(0));
    } else {
        let j = (k - 1) as nat;
        walk_so_far(h, ids, c, j);
        let b = advanced_by(first, ids, w, j);
        let before = state_cells(b, ids, w)->0;
        let g = advanced_by(first, ids, w, k);
        assert(index_of(w) == n);
        if snapshot_of(before).finished {
            assert(g == b);
        } else {
            advance_drops_first(b, ids, w);
            step_moves_the_key(b, ids, before);
            let cells = state_cells(g, ids, w)->0;
            fixnum_round_trip(j as int);
            assert(es.skip(j as int).drop_first() =~= es.skip(k as int));
            if k < es.len() {
                if snapshot_of(cells).finished {
                    assert(remaining(g, ids, cells).len() == 0);
                }
            } else if !snapshot_of(cells).finished {
                step_drops_first(g, ids, cells);
            }
            assert(g.take(n) =~= h) by {
                assert forall|i: int| 0 <= i < n implies #[trigger] g[i] == h[i] by {
                    assert(b[i] == b.take(n)[i]);
                }
            }
            assert(g.take(3) =~= h.take(3)) by {
                assert forall|i: int| 0 <= i < 3 implies #[trigger] g[i] == h[i] by {
                    assert(b[i] == b.take(n)[i]);
                }
            }
        }
    }
}

/// Folding takes the elements from the left, starting with the initial value; over
/// no elements it gives that value.
pub proof fn folding_goes_from_the_left<F: Fn(Word, Word) -> Word>(
    f: F,
    init: Word,
    es: Seq<Word>,
    accs: Seq<Word>,
)
    requires
        folds(f, init, es, accs),
    ensures
        es.len() == 0 ==> accs[accs.len() - 1] == init,
        es.len() > 0 ==> f.ensures((init, es[0]), accs[1]),
        es.len() > 0 ==> f.ensures(
            (accs[accs.len() - 2], es[es.len() - 1]),
            accs[accs.len() - 1],
        ),
        forall|i: int|
            0 <= i < es.len() ==> f.ensures((accs[i], #[trigger] es[i]), accs[i + 1]),
        accs.len() == es.len() + 1,
{
    if es.len() > 0 {
        let first: int = 0;
        assert(f.ensures((accs[first], es[first]), accs[first + 1]));
        let last = es.len() - 1;
        assert(f.ensures((accs[last], es[last]), accs[last + 1]));
    }
}

/// Mapping gives one result per element, at its place.
pub proof fn mapping_goes_place_by_place<F: Fn(Word) -> Word>(
    f: F,
    es: Seq<Word>,
    ms: Seq<Word>,
    i: int,
)
    requires
        maps(f, es, ms),
        0 <= i < es.len(),
    ensures
        ms.len() == es.len(),
        f.ensures((es[i],), ms[i]),
{
    assert(f.ensures((es[i],), ms[i]));
}

/// Mapping keeps the class of vectors, stretchy vectors and lists; a range becomes
/// a vector, and nothing else is mapped.
pub proof fn mapping_keeps_the_class(ids: CollectionClasses, class: ClassId)
    ensures
        mappable(ids, Some(class)) <==> class == ClassId(ClassId::SIMPLE_OBJECT_VECTOR) || class
            == ClassId(ClassId::EMPTY_LIST) || class == ClassId(ClassId::PAIR) || class
            == ids.stretchy_vector || class == ids.range,
        !mappable(ids, None),
        class == ids.range ==> mapped_class(ids, class) == ClassId(ClassId::SIMPLE_OBJECT_VECTOR),
        class != ids.range ==> mapped_class(ids, class) == class,
{
}

/// Two lists join to a list, two stretchy vectors to a stretchy vector and two byte
/// strings to a byte string; anything else joins to a vector.
pub proof fn joining_keeps_a_common_class(
    ids: CollectionClasses,
    k1: Option<ClassId>,
    k2: Option<ClassId>,
    total: int,
)
    requires
        ids.wf(),
    ensures
        ({
            let pair = Some(ClassId(ClassId::PAIR));
            let empty = Some(ClassId(ClassId::EMPTY_LIST));
            let bytes = Some(ClassId(ClassId::BYTE_STRING));
            let stretchy = Some(ids.stretchy_vector);
            let lists = (k1 == pair || k1 == empty) && (k2 == pair || k2 == empty);
            let class = joined_class(ids, k1, k2, total);
            &&& lists && total == 0 ==> class == ClassId(ClassId::EMPTY_LIST)
            &&& lists && total != 0 ==> class == ClassId(ClassId::PAIR)
            &&& k1 == stretchy && k2 == stretchy ==> class == ids.stretchy_vector
            &&& k1 == bytes && k2 == bytes ==> class == ClassId(ClassId::BYTE_STRING)
            &&& !lists && !(k1 == stretchy && k2 == stretchy) && !(k1 == bytes && k2 == bytes)
                ==> class == ClassId(ClassId::SIMPLE_OBJECT_VECTOR)
        }),
{
}

/// The kinds of walk have numbers of their own, from zero to five.
pub proof fn kinds_have_their_numbers(k: FipKind)
    ensures
        kind_of(k.spec_code()) == k,
        0 <= k.spec_code() <= 5,
        FipKind::Empty.spec_code() == 0,
        FipKind::SimpleObjectVector.spec_code() == 1,
        FipKind::List.spec_code() == 2,
        FipKind::Range.spec_code() == 3,
        FipKind::StretchyVector.spec_code() == 4,
        FipKind::ByteString.spec_code() == 5,
{
}

/// A collection stands for itself and its elements; anything else for nothing.
pub proof fn other_words_are_walked_as_nothing(h: Seq<ObjectView>, ids: CollectionClasses, c: Word)
    ensures
        elements(h, ids, c) matches Some(es) ==> elements_or_none(h, ids, c) == es
            && collection_or_nil(h, ids, c) == c && states_made(h, ids, c) == 1,
        elements(h, ids, c) is None ==> elements_or_none(h, ids, c).len() == 0
            && collection_or_nil(h, ids, c) == nil_word() && states_made(h, ids, c) == 0,
{
}

/// A vector and a byte string of countable length can be walked; a pair without its parts, a
/// stretchy vector that is longer than its storage and a circular list cannot.
pub proof fn intact_collections_can_be_walked(
    h: Seq<ObjectView>,
    ids: CollectionClasses,
    c: Word,
    o: ObjectView,
    length: int,
    capacity: int,
)
    requires
        ids.wf(),
        object_at(h, c) == Some(o),
        in_fixnum_range(length),
        in_fixnum_range(capacity),
    ensures
        o.class == ClassId(ClassId::SIMPLE_OBJECT_VECTOR) && o.cells.len() <= FIXNUM_MAX
            ==> walkable(h, ids, c),
        o.class == ClassId(ClassId::BYTE_STRING) && o.bytes.len() <= FIXNUM_MAX ==> walkable(
            h,
            ids,
            c,
        ),
        o.class == ClassId(ClassId::PAIR) && o.cells.len() < 2 ==> !startable(h, ids, c),
        o.class == ids.stretchy_vector && o.cells.len() >= 3 && o.cells[0] == fixnum(length)
            && o.cells[1] == fixnum(capacity) && (length < 0 || length > capacity) ==> !startable(
            h,
            ids,
            c,
        ),
        o.class == ClassId(ClassId::PAIR) && !list_ends(h, c) ==> !walkable(h, ids, c),
        !startable(h, ids, c) ==> !walkable(h, ids, c),
{
}

/// A stretchy vector is built as its header and its storage, a list as its pairs, and
/// anything else as one object.
pub proof fn results_are_built_of_their_objects(ids: CollectionClasses, class: ClassId, n: int)
    requires
        ids.wf(),
    ensures
        objects_built(ids, ids.stretchy_vector, n) == 2,
        objects_built(ids, ClassId(ClassId::PAIR), n) == n,
        objects_built(ids, ClassId(ClassId::EMPTY_LIST), n) == 0,
        objects_built(ids, ClassId(ClassId::SIMPLE_OBJECT_VECTOR), n) == 1,
        objects_built(ids, ClassId(ClassId::BYTE_STRING), n) == 1,
{
}

} // verus!
