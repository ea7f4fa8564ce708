use nod_runtime::classes::{
    register_simple_user_class, ClassId, ClassTable, SlotDefault, SlotInfo, SlotType,
};
use nod_runtime::dylan_layout::{DylanLayout, PointerKind, WordKind};
use nod_runtime::wrapper::Wrapper;

#[test]
fn fixnum_zero_classifies_as_immediate() {
    assert!(matches!(DylanLayout::classify(0), WordKind::Immediate));
    assert_eq!(DylanLayout::FILL_WORD, 0);
}

#[test]
fn pointer_classifies_as_header() {
    let addr: u64 = 0x7ffd_1234_5678 & !7;
    let raw = addr | 1;
    match DylanLayout::classify(raw) {
        WordKind::PointerHeader(a) => assert_eq!(a, addr),
        other => panic!("expected PointerHeader, got {other:?}"),
    }
}

#[test]
fn forwarded_classifies_as_forwarded() {
    let target: u64 = 0x0001_2345_6700;
    let raw = Wrapper::forward_to(target).raw;
    match DylanLayout::classify(raw) {
        WordKind::Forwarded(a) => assert_eq!(a, target),
        other => panic!("expected Forwarded, got {other:?}"),
    }
}

#[test]
fn make_forward_round_trips_through_classify() {
    let target: u64 = 0x0000_7FF0_DEAD_BEE0;
    let raw = DylanLayout::make_forward(target);
    match DylanLayout::classify(raw) {
        WordKind::Forwarded(a) => assert_eq!(a, target),
        other => panic!("expected Forwarded, got {other:?}"),
    }
}

#[test]
fn rewrite_pointer_preserves_tag_bit() {
    let old: u64 = 0x1000 | 1;
    let new_addr: u64 = 0x2000;
    let r = DylanLayout::rewrite_pointer_addr(old, new_addr);
    assert_eq!(r & 1, 1, "low bit must remain 1 for a pointer");
    assert_eq!(r & !1, new_addr, "address must be the new one");
}

#[test]
fn header_layout_for_integer_is_one_cell_opaque() {
    let ct = ClassTable::new();
    let w = Wrapper::new(ClassId(ClassId::INTEGER));
    let layout = DylanLayout::header_layout(&ct, &[w.raw]);
    assert_eq!(layout.total_cells, 1);
    assert_eq!(layout.pointer_cell_count(), 0);
}

#[test]
fn header_layout_for_pair_reports_two_pointer_cells() {
    let ct = ClassTable::new();
    let w = Wrapper::new(ClassId(ClassId::PAIR));
    let layout = DylanLayout::header_layout(&ct, &[w.raw]);
    assert_eq!(layout.total_cells, 3);
    assert_eq!(layout.pointer_cells_start, 1);
    assert_eq!(layout.pointer_cells_end, 3);
}

#[test]
fn header_layout_for_symbol_skips_hash_cell() {
    let ct = ClassTable::new();
    let w = Wrapper::new(ClassId(ClassId::SYMBOL));
    let layout = DylanLayout::header_layout(&ct, &[w.raw]);
    assert_eq!(layout.total_cells, 3);
    assert_eq!(layout.pointer_cells_start, 2);
    assert_eq!(layout.pointer_cells_end, 3);
}

#[test]
fn counted_objects_are_as_long_as_they_say() {
    let ct = ClassTable::new();
    let vector = Wrapper::new(ct.simple_object_vector()).raw;
    let l = DylanLayout::header_layout(&ct, &[vector, 5]);
    assert_eq!((l.total_cells, l.pointer_cells_start, l.pointer_cells_end), (7, 2, 7));
    let string = Wrapper::new(ct.byte_string()).raw;
    let l = DylanLayout::header_layout(&ct, &[string, 9]);
    assert_eq!((l.total_cells, l.pointer_cell_count()), (4, 0));
    let md = ct.get(ct.byte_string());
    assert_eq!(md.size_of.size(&ct, &[string, 9]), 32);
    assert_eq!(md.size_of.size(&ct, &[string, 8]), 24);
    let md = ct.get(ct.simple_object_vector());
    assert_eq!(md.size_of.size(&ct, &[vector, 5]), 56);
    assert_eq!(md.scan.scan(&ct, &[vector, 3]), vec![16, 24, 32]);
    let md = ct.get(ct.pair());
    assert_eq!(md.scan.scan(&ct, &[Wrapper::new(ct.pair()).raw]), vec![8, 16]);
}

#[test]
fn user_objects_visit_pointer_slots_only() {
    let mut ct = ClassTable::new();
    let slot = |name: &str, type_kind| SlotInfo {
        name: name.to_string(),
        offset: 0,
        type_kind,
        init_keyword: None,
        required_init_keyword: false,
        default_init: SlotDefault::Unbound,
        has_setter: false,
    };
    let c = register_simple_user_class(
        &mut ct,
        "<point>",
        None,
        vec![slot("x", SlotType::Integer), slot("label", SlotType::String)],
    );
    let header = Wrapper::new(c).raw;
    let md = ct.get(c);
    assert_eq!(md.scan.scan(&ct, &[header]), vec![16]);
    assert_eq!(md.size_of.size(&ct, &[header]), 24);
    let l = DylanLayout::header_layout(&ct, &[header]);
    assert_eq!((l.total_cells, l.pointer_cells_start, l.pointer_cells_end), (3, 1, 3));
    // A moved object and one of an unknown class are stepped over.
    let moved = Wrapper::forward_to(0x1000).raw;
    assert_eq!(DylanLayout::header_layout(&ct, &[moved]).total_cells, 1);
    assert_eq!(DylanLayout::header_layout(&ct, &[0x7777_0000]).total_cells, 1);
    assert!(md.scan.scan(&ct, &[moved]).is_empty());
    assert_eq!(md.size_of.size(&ct, &[moved]), 8);
}

#[test]
fn pointers_are_tagged_whatever_their_kind() {
    assert_eq!(DylanLayout::make_pointer(0x40, PointerKind::Header), 0x41);
    assert_eq!(DylanLayout::make_pointer(0x40, PointerKind::Cons), 0x41);
    assert_eq!(Wrapper::new(ClassId(7)).class(), ClassId(7));
    assert!(!Wrapper::new(ClassId(7)).is_forwarded());
}
