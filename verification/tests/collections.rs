use nod_runtime::checks::{is_startable, is_walkable, may_advance};
use nod_runtime::classes::{is_subclass, ClassTable};
use nod_runtime::collections::{
    collection_class_id, collection_element, collection_element_setter, collection_size,
    ensure_registered, is_collection, make_out_of_range_error, make_range, make_stretchy_vector,
    mutable_sequence_class_id, nod_collection_size, nod_make_range, nod_make_stretchy_vector,
    nod_range_by, nod_range_from, nod_range_to, nod_stretchy_vector_element,
    nod_stretchy_vector_element_setter, nod_stretchy_vector_push, nod_stretchy_vector_size,
    out_of_range_error_class_id, range_class_id, range_fields, sequence_class_id,
    stretchy_vector_class_id, stretchy_vector_fields, stretchy_vector_push, CollectionClasses,
    OutOfRange,
};
use nod_runtime::heap::{literal_pool_immediates, Heap};
use nod_runtime::iteration::{
    collection_concatenate, collection_do, collection_map, collection_reduce,
    forward_iteration_protocol, iter_state_advance, iter_state_snapshot, nod_collection_concatenate,
    nod_fip_advance, nod_fip_current_element, nod_fip_finished_p, nod_fip_init, FipKind,
};
use nod_runtime::literals::LiteralPool;
use nod_runtime::ranges::count_terms;
use nod_runtime::word::{Word, FIXNUM_MAX, FIXNUM_MIN};

fn setup() -> (ClassTable, CollectionClasses, Heap) {
    let mut table = ClassTable::new();
    let ids = ensure_registered(&mut table);
    (table, ids, Heap::new())
}

fn fixnum(n: i64) -> Word {
    Word::from_fixnum(n).unwrap()
}

fn numbers(words: &[Word]) -> Vec<i64> {
    words.iter().map(|w| w.as_fixnum().unwrap()).collect()
}

fn list(heap: &mut Heap, ns: &[i64]) -> Word {
    let mut l = literal_pool_immediates().nil;
    for n in ns.iter().rev() {
        l = heap.alloc_pair(fixnum(*n), l);
    }
    l
}

#[test]
fn classes_register_with_expected_cpl() {
    let mut table = ClassTable::new();
    ensure_registered(&mut table);
    let seq = sequence_class_id(&mut table);
    let coll = collection_class_id(&mut table);
    let mut_seq = mutable_sequence_class_id(&mut table);
    let stretchy = stretchy_vector_class_id(&mut table);
    let range = range_class_id(&mut table);
    let oore = out_of_range_error_class_id(&mut table);
    let err = nod_runtime::conditions::error_class_id(&mut table);
    assert!(is_subclass(&table, seq, coll));
    assert!(is_subclass(&table, mut_seq, seq));
    assert!(is_subclass(&table, stretchy, mut_seq));
    assert!(is_subclass(&table, range, seq));
    assert!(is_subclass(&table, oore, err));
}

#[test]
fn range_fip_walks_one_to_three() {
    let (_, ids, mut heap) = setup();
    let r = make_range(&mut heap, &ids, 1, 3, 1);
    let mut collected: Vec<i64> = Vec::new();
    for w in collection_do(&mut heap, &ids, r) {
        collected.push(w.as_fixnum().unwrap_or(-1));
    }
    assert_eq!(collected, vec![1, 2, 3]);
}

#[test]
fn range_reduce_sum() {
    let (_, ids, mut heap) = setup();
    let r = make_range(&mut heap, &ids, 1, 100, 1);
    let zero = Word::from_fixnum(0).unwrap();
    let result = collection_reduce(&mut heap, &ids, r, zero, |acc: Word, x: Word| {
        let a = acc.as_fixnum().unwrap_or(0);
        let b = x.as_fixnum().unwrap_or(0);
        Word::from_fixnum(a + b).unwrap()
    });
    assert_eq!(result.as_fixnum(), Some(5050));
}

#[test]
fn stretchy_vector_push_and_size() {
    let (_, ids, mut heap) = setup();
    let sv = make_stretchy_vector(&mut heap, &ids, 2);
    for i in 0..5 {
        stretchy_vector_push(&mut heap, &ids, sv, Word::from_fixnum(i * 10).unwrap());
    }
    assert_eq!(collection_size(&heap, &ids, sv), Some(5));
    let seen = numbers(&collection_do(&mut heap, &ids, sv));
    assert_eq!(seen, vec![0, 10, 20, 30, 40]);
}

#[test]
fn element_out_of_range_returns_err() {
    let (_, ids, mut heap) = setup();
    let v = heap.alloc_simple_object_vector(3);
    let result = collection_element(&heap, &ids, v, 10, None);
    assert!(result.is_err());
    let err = result.unwrap_err();
    assert_eq!(err.bounds, 3);
}

#[test]
fn ranges_count_their_terms() {
    assert_eq!(count_terms(1, 10, 1), 10);
    assert_eq!(count_terms(1, 10, 3), 4);
    assert_eq!(count_terms(10, 1, -3), 4);
    assert_eq!(count_terms(1, 0, 1), 0);
    assert_eq!(count_terms(0, 1, -1), 0);
    assert_eq!(count_terms(5, 5, 7), 1);
}

#[test]
fn range_fields_round_trip() {
    let (table, ids, mut heap) = setup();
    let r = make_range(&mut heap, &ids, 10, -5, -5);
    assert_eq!(range_fields(&heap, &ids, r), Some((10, -5, -5)));
    assert_eq!(collection_size(&heap, &ids, r), Some(4));
    assert_eq!(numbers(&collection_do(&mut heap, &ids, r)), vec![10, 5, 0, -5]);
    assert!(is_collection(&table, &ids, &heap, r));
    assert!(!is_collection(&table, &ids, &heap, fixnum(1)));
    let raw = nod_make_range(&mut heap, &ids, fixnum(1).raw(), fixnum(2).raw(), fixnum(1).raw());
    assert_eq!(nod_range_from(&heap, &ids, raw), fixnum(1).raw());
    assert_eq!(nod_range_to(&heap, &ids, raw), fixnum(2).raw());
    assert_eq!(nod_range_by(&heap, &ids, raw), fixnum(1).raw());
    assert_eq!(range_fields(&heap, &ids, fixnum(3)), None);
}

#[test]
fn stores_show_in_reads_of_that_element_alone() {
    let (_, ids, mut heap) = setup();
    let v = heap.alloc_simple_object_vector(3);
    for i in 0..3 {
        assert_eq!(collection_element_setter(&mut heap, &ids, v, i, fixnum(i)), Ok(()));
    }
    assert_eq!(collection_element_setter(&mut heap, &ids, v, 1, fixnum(9)), Ok(()));
    assert_eq!(collection_element(&heap, &ids, v, 0, None), Ok(fixnum(0)));
    assert_eq!(collection_element(&heap, &ids, v, 1, None), Ok(fixnum(9)));
    assert_eq!(collection_element(&heap, &ids, v, 2, None), Ok(fixnum(2)));
    let refused = collection_element_setter(&mut heap, &ids, v, 3, fixnum(9));
    assert_eq!(refused, Err(OutOfRange { value: v, bounds: 3 }));
    let default = collection_element(&heap, &ids, v, -1, Some(fixnum(77)));
    assert_eq!(default, Ok(fixnum(77)));
}

#[test]
fn stretchy_vectors_grow() {
    let (_, ids, mut heap) = setup();
    let sv = nod_make_stretchy_vector(&mut heap, &ids, fixnum(0).raw());
    for i in 0..20 {
        nod_stretchy_vector_push(&mut heap, &ids, sv, fixnum(i).raw());
    }
    assert_eq!(nod_stretchy_vector_size(&heap, &ids, sv), fixnum(20).raw());
    assert_eq!(nod_collection_size(&heap, &ids, sv), fixnum(20).raw());
    assert_eq!(nod_stretchy_vector_element(&heap, &ids, sv, fixnum(19).raw()), fixnum(19).raw());
    nod_stretchy_vector_element_setter(&mut heap, &ids, fixnum(-1).raw(), sv, fixnum(0).raw());
    assert_eq!(nod_stretchy_vector_element(&heap, &ids, sv, fixnum(0).raw()), fixnum(-1).raw());
    let (len, capacity, _) = stretchy_vector_fields(&heap, &ids, Word::from_raw(sv)).unwrap();
    assert_eq!(len, 20);
    assert!(capacity >= 20);
}

#[test]
fn mapping_keeps_order_and_length() {
    let (_, ids, mut heap) = setup();
    let l = list(&mut heap, &[1, 2, 3]);
    let squared = collection_map(&mut heap, &ids, l, |w: Word| {
        let n = w.as_fixnum().unwrap();
        Word::from_fixnum(n * n).unwrap()
    });
    assert_eq!(numbers(&collection_do(&mut heap, &ids, squared)), vec![1, 4, 9]);
}

#[test]
fn concatenation_puts_one_after_the_other() {
    let (_, ids, mut heap) = setup();
    let a = list(&mut heap, &[1, 2]);
    let b = list(&mut heap, &[3]);
    let ab = collection_concatenate(&mut heap, &ids, a, b);
    assert_eq!(numbers(&collection_do(&mut heap, &ids, ab)), vec![1, 2, 3]);
    assert_eq!(heap.class_of(ab), heap.class_of(a));
    let hello = heap.alloc_text("hel");
    let lo = heap.alloc_text("lo");
    let text = collection_concatenate(&mut heap, &ids, hello, lo);
    assert_eq!(heap.get(text).unwrap().bytes, b"hello".to_vec());
    let r = make_range(&mut heap, &ids, 4, 5, 1);
    let mixed = collection_concatenate(&mut heap, &ids, a, r);
    assert_eq!(numbers(&collection_do(&mut heap, &ids, mixed)), vec![1, 2, 4, 5]);
}

#[test]
fn strangers_join_as_the_empty_list() {
    let (_, ids, mut heap) = setup();
    let nil = literal_pool_immediates().nil;
    let a = list(&mut heap, &[1, 2]);
    let joined = nod_collection_concatenate(&mut heap, &ids, fixnum(7).raw(), a.raw());
    let joined = Word::from_raw(joined);
    assert_eq!(numbers(&collection_do(&mut heap, &ids, joined)), vec![1, 2]);
    assert_eq!(heap.class_of(joined), heap.class_of(a));
    let none = nod_collection_concatenate(&mut heap, &ids, fixnum(7).raw(), fixnum(8).raw());
    assert_eq!(none, nil.raw());
    let r = make_range(&mut heap, &ids, 4, 5, 1);
    let mixed = nod_collection_concatenate(&mut heap, &ids, a.raw(), r.raw());
    let mixed = Word::from_raw(mixed);
    assert_eq!(numbers(&collection_do(&mut heap, &ids, mixed)), vec![1, 2, 4, 5]);
}

#[test]
fn a_walk_drops_one_element_per_step() {
    let (_, ids, mut heap) = setup();
    let r = make_range(&mut heap, &ids, 5, 6, 1);
    let state = forward_iteration_protocol(&mut heap, &ids, r).unwrap();
    let s = iter_state_snapshot(&heap, &ids, state).unwrap();
    assert_eq!(s.fip_kind, FipKind::Range);
    assert!(!s.finished);
    assert_eq!(s.current_element, fixnum(5));
    let state = iter_state_advance(&mut heap, &ids, state);
    let s = iter_state_snapshot(&heap, &ids, state).unwrap();
    assert_eq!(s.current_element, fixnum(6));
    let state = iter_state_advance(&mut heap, &ids, state);
    assert!(iter_state_snapshot(&heap, &ids, state).unwrap().finished);
    assert_eq!(forward_iteration_protocol(&mut heap, &ids, fixnum(3)), None);
}

#[test]
fn the_walk_primitives_agree_with_the_walk() {
    let (_, ids, mut heap) = setup();
    let imm = literal_pool_immediates();
    let l = list(&mut heap, &[8]);
    let state = nod_fip_init(&mut heap, &ids, l.raw());
    assert_eq!(nod_fip_finished_p(&heap, &ids, state), imm.false_.raw());
    assert_eq!(nod_fip_current_element(&heap, &ids, state), fixnum(8).raw());
    let state = nod_fip_advance(&mut heap, &ids, state);
    assert_eq!(nod_fip_finished_p(&heap, &ids, state), imm.true_.raw());
}

#[test]
fn circular_lists_are_read_but_not_walked_to_the_end() {
    let (_, ids, mut heap) = setup();
    let l = list(&mut heap, &[1, 2]);
    assert!(is_walkable(&heap, &ids, l));
    let last = heap.cell(l, 1).unwrap();
    heap.set_cell(last, 1, l);
    assert!(is_startable(&heap, &ids, l));
    assert!(!is_walkable(&heap, &ids, l));
    assert_eq!(collection_element(&heap, &ids, l, 0, None), Ok(fixnum(1)));
    assert_eq!(collection_element(&heap, &ids, l, 1001, None), Ok(fixnum(2)));
    let state = forward_iteration_protocol(&mut heap, &ids, l).unwrap();
    for _ in 0..3 {
        assert!(may_advance(&heap, &ids, state));
        iter_state_advance(&mut heap, &ids, state);
    }
    let s = iter_state_snapshot(&heap, &ids, state).unwrap();
    assert!(!s.finished);
    assert_eq!(s.current_element, fixnum(2));
    assert_eq!(s.current_key, fixnum(3));
}

#[test]
fn broken_states_cannot_be_advanced() {
    let (_, ids, mut heap) = setup();
    let v = heap.alloc_simple_object_vector(3);
    let state = forward_iteration_protocol(&mut heap, &ids, v).unwrap();
    assert!(may_advance(&heap, &ids, state));
    heap.set_cell(state, 0, fixnum(0));
    assert!(!may_advance(&heap, &ids, state));
    assert!(may_advance(&heap, &ids, fixnum(1)));
    let sv = make_stretchy_vector(&mut heap, &ids, 2);
    assert!(is_walkable(&heap, &ids, sv));
    heap.set_cell(sv, 0, fixnum(9));
    assert!(!is_startable(&heap, &ids, sv));
}

#[test]
fn fip_kinds_have_codes() {
    for kind in [
        FipKind::Empty,
        FipKind::SimpleObjectVector,
        FipKind::List,
        FipKind::Range,
        FipKind::StretchyVector,
        FipKind::ByteString,
    ] {
        assert_eq!(FipKind::from_i64(kind.code()), Some(kind));
    }
    assert_eq!(FipKind::from_i64(99), None);
}

#[test]
fn out_of_range_errors_carry_bounds() {
    let (table, ids, mut heap) = setup();
    let e = make_out_of_range_error(&mut LiteralPool::new(), &mut heap, &ids, fixnum(10), 3, "too far");
    assert!(heap.is_instance(e, ids.out_of_range_error));
    assert_eq!(heap.cell(e, 0), Some(fixnum(10)));
    assert_eq!(heap.cell(e, 1), Some(fixnum(3)));
    let class = heap.class_of(e).unwrap();
    assert!(is_subclass(&table, class, table.object()));
    assert!(OutOfRange { value: fixnum(1), bounds: 3 }.message().contains('3'));
}

#[test]
fn a_long_range_can_be_started() {
    let (_, ids, mut heap) = setup();
    let long = make_range(&mut heap, &ids, 0, FIXNUM_MAX, 1);
    assert!(is_startable(&heap, &ids, long));
    let state = forward_iteration_protocol(&mut heap, &ids, long).unwrap();
    assert_eq!(nod_fip_current_element(&heap, &ids, state.raw()), fixnum(0).raw());
    let wide = make_range(&mut heap, &ids, FIXNUM_MIN, FIXNUM_MAX, 1);
    assert!(is_startable(&heap, &ids, wide));
    assert!(!is_walkable(&heap, &ids, wide));
    let state = nod_fip_init(&mut heap, &ids, wide.raw());
    assert_eq!(nod_fip_current_element(&heap, &ids, state), fixnum(FIXNUM_MIN).raw());
}

#[test]
fn mapping_and_joining_make_new_objects() {
    let (_, ids, mut heap) = setup();
    let sv = make_stretchy_vector(&mut heap, &ids, 0);
    stretchy_vector_push(&mut heap, &ids, sv, fixnum(1));
    let mapped = collection_map(&mut heap, &ids, sv, |w: Word| w);
    assert_ne!(mapped, sv);
    stretchy_vector_push(&mut heap, &ids, mapped, fixnum(2));
    assert_eq!(collection_size(&heap, &ids, mapped), Some(2));
    let joined = collection_concatenate(&mut heap, &ids, sv, mapped);
    stretchy_vector_push(&mut heap, &ids, joined, fixnum(9));
    assert_eq!(collection_size(&heap, &ids, joined), Some(4));
    let again = Word::from_raw(nod_collection_concatenate(&mut heap, &ids, sv.raw(), mapped.raw()));
    assert_ne!(again, joined);
    assert_eq!(collection_size(&heap, &ids, again), Some(3));
    assert_eq!(collection_size(&heap, &ids, sv), Some(1));
}

#[test]
fn equal_range_error_texts_are_one_object() {
    let (_, ids, mut heap) = setup();
    let mut literals = LiteralPool::new();
    let a = make_out_of_range_error(&mut literals, &mut heap, &ids, fixnum(10), 3, "too far");
    let b = make_out_of_range_error(&mut literals, &mut heap, &ids, fixnum(11), 4, "too far");
    assert_ne!(a, b);
    assert_eq!(heap.cell(a, 2), heap.cell(b, 2));
}
