use nod_runtime::bitvectors::{
    bit_vector_count, bit_vector_is_intact, bit_vector_metadata, bit_vector_ref, bit_vector_set,
    bit_vector_size,
    make_bit_vector, nod_ash, nod_bit_vector_allocate, nod_bit_vector_count, nod_bit_vector_ref,
    nod_bit_vector_set, nod_bit_vector_size, nod_logand, nod_logior, nod_lognot, nod_logxor,
    words_for_bits, BitVectorClass,
};
use nod_runtime::classes::{
    register_simple_user_class, ClassTable, SlotDefault, SlotInfo, SlotType,
};
use nod_runtime::heap::Heap;
use nod_runtime::word::{Word, FIXNUM_MAX, FIXNUM_MIN};

fn ensure_stdlib_bit_vector(table: &mut ClassTable) -> BitVectorClass {
    let words = SlotInfo {
        name: "%bit-vector-words".to_string(),
        offset: 0,
        type_kind: SlotType::Vector,
        init_keyword: Some("words".to_string()),
        required_init_keyword: false,
        default_init: SlotDefault::Unbound,
        has_setter: true,
    };
    let size = SlotInfo {
        name: "%bit-vector-bit-size".to_string(),
        offset: 0,
        type_kind: SlotType::Integer,
        init_keyword: Some("bit-size".to_string()),
        required_init_keyword: false,
        default_init: SlotDefault::Unbound,
        has_setter: true,
    };
    register_simple_user_class(table, "<bit-vector>", None, vec![words, size]);
    bit_vector_metadata(table).expect("<bit-vector> is registered")
}

#[test]
fn bit_vector_roundtrip() {
    let mut table = ClassTable::new();
    nod_runtime::collections::ensure_registered(&mut table);
    let class = ensure_stdlib_bit_vector(&mut table);
    let mut heap = Heap::new();
    let bv = make_bit_vector(&mut heap, &class, 10, 0);
    assert_eq!(bit_vector_size(&heap, &class, bv), 10);
    assert_eq!(bit_vector_count(&heap, &class, bv), 0);
    bit_vector_set(&mut heap, &class, bv, 0, 1);
    bit_vector_set(&mut heap, &class, bv, 3, 1);
    bit_vector_set(&mut heap, &class, bv, 9, 1);
    assert_eq!(bit_vector_ref(&heap, &class, bv, 0), 1);
    assert_eq!(bit_vector_ref(&heap, &class, bv, 1), 0);
    assert_eq!(bit_vector_ref(&heap, &class, bv, 3), 1);
    assert_eq!(bit_vector_ref(&heap, &class, bv, 9), 1);
    assert_eq!(bit_vector_count(&heap, &class, bv), 3);
    bit_vector_set(&mut heap, &class, bv, 3, 0);
    assert_eq!(bit_vector_ref(&heap, &class, bv, 3), 0);
    assert_eq!(bit_vector_count(&heap, &class, bv), 2);
    assert_eq!(bit_vector_ref(&heap, &class, bv, 100), 0);
    bit_vector_set(&mut heap, &class, bv, 100, 1);
    assert_eq!(bit_vector_count(&heap, &class, bv), 2);
}

#[test]
fn bit_vector_fill_and_multiword() {
    let mut table = ClassTable::new();
    nod_runtime::collections::ensure_registered(&mut table);
    let class = ensure_stdlib_bit_vector(&mut table);
    let mut heap = Heap::new();
    // 130 bits span three words: 60 + 60 + 10.
    let bv = make_bit_vector(&mut heap, &class, 130, 1);
    assert_eq!(bit_vector_size(&heap, &class, bv), 130);
    assert_eq!(bit_vector_count(&heap, &class, bv), 130);
    for i in [0_usize, 59, 60, 119, 120, 129] {
        assert_eq!(bit_vector_ref(&heap, &class, bv, i), 1, "bit {i}");
    }
    assert_eq!(bit_vector_ref(&heap, &class, bv, 130), 0);
}

#[test]
fn word_bitwise_ops() {
    let f = |n: i64| Word::from_fixnum(n).unwrap().raw();
    let r = |w: u64| Word::from_raw(w).as_fixnum().unwrap();
    assert_eq!(r(nod_logand(f(0b1100), f(0b1010))), 0b1000);
    assert_eq!(r(nod_logior(f(0b1100), f(0b1010))), 0b1110);
    assert_eq!(r(nod_logxor(f(0b1100), f(0b1010))), 0b0110);
    assert_eq!(r(nod_lognot(f(0))), -1);
    assert_eq!(r(nod_ash(f(1), f(4))), 16);
    assert_eq!(r(nod_ash(f(255), f(-4))), 15);
    assert_eq!(r(nod_ash(f(-8), f(-1))), -4);
}

#[test]
fn bitwise_ops_on_negative_numbers() {
    let f = |n: i64| Word::from_fixnum(n).unwrap().raw();
    let r = |w: u64| Word::from_raw(w).as_fixnum().unwrap();
    assert_eq!(r(nod_logand(f(-1), f(0x7f))), 0x7f);
    assert_eq!(r(nod_logior(f(-8), f(3))), -5);
    assert_eq!(r(nod_logxor(f(-1), f(-1))), 0);
    assert_eq!(r(nod_lognot(f(-1))), 0);
    assert_eq!(r(nod_lognot(f(41))), -42);
}

#[test]
fn shifts_clamp_at_the_fixnum_range() {
    let f = |n: i64| Word::from_fixnum(n).unwrap().raw();
    let r = |w: u64| Word::from_raw(w).as_fixnum().unwrap();
    assert_eq!(r(nod_ash(f(1), f(61))), 1 << 61);
    assert_eq!(r(nod_ash(f(1), f(62))), FIXNUM_MAX);
    assert_eq!(r(nod_ash(f(-1), f(62))), FIXNUM_MIN);
    assert_eq!(r(nod_ash(f(-1), f(63))), FIXNUM_MIN);
    assert_eq!(r(nod_ash(f(3), f(1000))), FIXNUM_MAX);
    assert_eq!(r(nod_ash(f(0), f(1000))), 0);
    assert_eq!(r(nod_ash(f(-5), f(-1000))), -1);
    assert_eq!(r(nod_ash(f(5), f(-1000))), 0);
    assert_eq!(r(nod_ash(f(-5), f(-1))), -3);
}

#[test]
fn bit_vector_primitives_on_raw_words() {
    let mut table = ClassTable::new();
    let class = ensure_stdlib_bit_vector(&mut table);
    let mut heap = Heap::new();
    let f = |n: i64| Word::from_fixnum(n).unwrap().raw();
    let r = |w: u64| Word::from_raw(w).as_fixnum();
    let bv = nod_bit_vector_allocate(&mut heap, &class, f(61), f(0));
    assert_eq!(r(nod_bit_vector_size(&heap, &class, bv)), Some(61));
    nod_bit_vector_set(&mut heap, &class, bv, f(60), f(1));
    assert_eq!(r(nod_bit_vector_ref(&heap, &class, bv, f(60))), Some(1));
    assert_eq!(r(nod_bit_vector_ref(&heap, &class, bv, f(59))), Some(0));
    assert_eq!(r(nod_bit_vector_count(&heap, &class, bv)), Some(1));
}

#[test]
fn sixty_bits_per_word() {
    assert_eq!(words_for_bits(0), 0);
    assert_eq!(words_for_bits(1), 1);
    assert_eq!(words_for_bits(60), 1);
    assert_eq!(words_for_bits(61), 2);
    assert_eq!(words_for_bits(120), 2);
}

#[test]
fn no_bit_vectors_without_their_class() {
    assert!(bit_vector_metadata(&ClassTable::new()).is_none());
}

#[test]
fn broken_words_are_noticed() {
    let mut table = ClassTable::new();
    let class = ensure_stdlib_bit_vector(&mut table);
    let mut heap = Heap::new();
    let bv = make_bit_vector(&mut heap, &class, 61, 1);
    assert!(bit_vector_is_intact(&heap, &class, bv));
    let words = heap.cell(bv, class.words_slot).unwrap();
    assert!(bit_vector_is_intact(&heap, &class, words));
    heap.set_cell(words, 1, Word::from_fixnum(2).unwrap());
    assert!(!bit_vector_is_intact(&heap, &class, bv));
    heap.set_cell(words, 1, Word::from_fixnum(-1).unwrap());
    assert!(!bit_vector_is_intact(&heap, &class, bv));
    heap.set_cell(words, 1, Word::from_fixnum(0).unwrap());
    assert!(bit_vector_is_intact(&heap, &class, bv));
    heap.set_cell(bv, class.size_slot, Word::from_fixnum(121).unwrap());
    assert!(!bit_vector_is_intact(&heap, &class, bv));
    heap.set_cell(bv, class.words_slot, bv);
    assert!(!bit_vector_is_intact(&heap, &class, bv));
}
