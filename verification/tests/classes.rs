use nod_runtime::class_pins::{pinned_id, CLASS_PINS, PIN_CEILING, PIN_FLOOR};
use nod_runtime::classes::{
    _reset_user_classes_for_tests, allocate_user_class_id, allocate_user_class_id_named,
    class_metadata_for, class_metadata_ptr, find_class_id_by_name,
    find_class_id_by_name_excluding_shim_band, for_each_class, is_subclass, note_subclass,
    register_simple_user_class, seal_class, set_shim_class_band_active, shim_class_band_active,
    ClassId, ClassTable, SlotDefault, SlotInfo, SlotType,
};
use nod_runtime::word::Word;

fn slot(name: &str, type_kind: SlotType) -> SlotInfo {
    SlotInfo {
        name: name.to_string(),
        offset: 0,
        type_kind,
        init_keyword: Some(name.to_string()),
        required_init_keyword: false,
        default_init: SlotDefault::Value(Word::from_raw(0)),
        has_setter: true,
    }
}

#[test]
fn seed_ids_are_stable_across_instances() {
    let a = ClassTable::new();
    let b = ClassTable::new();
    assert_eq!(a.integer(), b.integer());
    assert_eq!(a.string(), b.string());
    assert_eq!(a.boolean(), b.boolean());
}

#[test]
fn seed_table_has_expected_names() {
    let ct = ClassTable::new();
    assert_eq!(ct.get(ct.integer()).name, "<integer>");
    assert_eq!(ct.get(ct.string()).name, "<string>");
    assert_eq!(ct.get(ct.object()).name, "<object>");
}

#[test]
fn find_by_name_round_trip() {
    let ct = ClassTable::new();
    assert_eq!(ct.find_by_name("<integer>"), Some(ct.integer()));
    assert_eq!(ct.find_by_name("<boolean>"), Some(ct.boolean()));
    assert_eq!(ct.find_by_name("<byte-string>"), Some(ct.byte_string()));
    assert_eq!(ct.find_by_name("<simple-object-vector>"), Some(ct.simple_object_vector()));
    assert_eq!(ct.find_by_name("<empty-list>"), Some(ct.empty_list()));
    assert_eq!(ct.find_by_name("<pair>"), Some(ct.pair()));
    assert_eq!(ct.find_by_name("<no-such-class>"), None);
}

#[test]
fn seed_metadata_address_stable() {
    let ct = ClassTable::new();
    let a = class_metadata_ptr(&ct, ClassId(ClassId::BYTE_STRING));
    let b = class_metadata_ptr(&ct, ClassId(ClassId::BYTE_STRING));
    assert_eq!(a, b);
    assert!(a.is_some());
}

#[test]
fn seed_cpl_chain_is_correct() {
    let ct = ClassTable::new();
    let bs = class_metadata_for(&ct, ClassId(ClassId::BYTE_STRING));
    assert_eq!(bs.cpl[0], ClassId(ClassId::BYTE_STRING));
    assert_eq!(bs.cpl[1], ClassId(ClassId::STRING));
    assert_eq!(bs.cpl[2], ClassId(ClassId::OBJECT));
}

#[test]
fn is_subclass_walks_cpl() {
    let ct = ClassTable::new();
    assert!(is_subclass(&ct, ClassId(ClassId::BYTE_STRING), ClassId(ClassId::STRING)));
    assert!(is_subclass(&ct, ClassId(ClassId::BYTE_STRING), ClassId(ClassId::OBJECT)));
    assert!(!is_subclass(&ct, ClassId(ClassId::BYTE_STRING), ClassId(ClassId::INTEGER)));
    assert!(is_subclass(&ct, ClassId(ClassId::INTEGER), ClassId(ClassId::OBJECT)));
    assert!(is_subclass(&ct, ClassId(ClassId::INTEGER), ClassId(ClassId::INTEGER)));
}

#[test]
fn own_slots_follow_inherited_ones() {
    let mut ct = ClassTable::new();
    let a = register_simple_user_class(&mut ct, "<a>", None, vec![slot("x", SlotType::Object)]);
    let b = register_simple_user_class(
        &mut ct,
        "<b>",
        Some(a),
        vec![slot("y", SlotType::Integer), slot("z", SlotType::Top)],
    );
    let md = class_metadata_for(&ct, b);
    assert_eq!(md.slot_offset("x"), Some(8));
    assert_eq!(md.slot_offset("y"), Some(16));
    assert_eq!(md.slot_offset("z"), Some(24));
    assert_eq!(md.slot_offset("w"), None);
    assert_eq!(md.instance_size, 32);
    assert_eq!(md.own_slot_count, 2);
    assert_eq!(md.inherited_slot_count, 1);
    assert_eq!(md.slot_origin, vec![a, b, b]);
    assert_eq!(md.cpl, vec![b, a, ct.object()]);
    assert!(md.slot_by_init_keyword("y").is_some());
    assert!(md.slot_by_init_keyword("w").is_none());
    assert!(is_subclass(&ct, b, a));
    assert!(!is_subclass(&ct, a, b));
}

#[test]
fn pinned_classes_keep_their_ids() {
    assert_eq!(CLASS_PINS.len(), 104);
    let mut ct = ClassTable::new();
    let early = allocate_user_class_id(&mut ct);
    assert_eq!(early, ClassId(PIN_CEILING));
    let (name, id) = CLASS_PINS[0];
    assert_eq!(pinned_id(name), Some(id));
    assert_eq!(allocate_user_class_id_named(&mut ct, name), ClassId(id));
    assert_eq!(allocate_user_class_id_named(&mut ct, name), ClassId(id));
    assert_eq!(allocate_user_class_id(&mut ct), ClassId(PIN_CEILING + 1));
    for (i, (name, id)) in CLASS_PINS.iter().enumerate() {
        assert_eq!(*id, PIN_FLOOR + i as u32);
        assert!(*id < PIN_CEILING);
        assert_eq!(pinned_id(name), Some(*id));
    }
    assert_eq!(pinned_id("<no-such-class>"), None);
    assert_eq!(pinned_id("<integer>"), None);
}

#[test]
fn library_classes_stand_at_their_pins() {
    let mut ct = ClassTable::new();
    nod_runtime::c_types::ensure_registered(&mut ct);
    nod_runtime::closures::ensure_registered(&mut ct);
    nod_runtime::functions::ensure_registered(&mut ct);
    nod_runtime::conditions::ensure_registered(&mut ct);
    nod_runtime::collections::ensure_registered(&mut ct);
    let mut found = 0;
    for (name, id) in CLASS_PINS {
        if let Some(c) = find_class_id_by_name(&ct, name) {
            assert_eq!(c, ClassId(id));
            found += 1;
        }
    }
    assert_eq!(found, 11 + 10 + 2 + 2 + 16);
    let before = for_each_class(&ct);
    nod_runtime::conditions::ensure_registered(&mut ct);
    nod_runtime::functions::ensure_registered(&mut ct);
    assert_eq!(for_each_class(&ct), before);
    let error = find_class_id_by_name(&ct, "<error>").unwrap();
    let serious = find_class_id_by_name(&ct, "<serious-condition>").unwrap();
    assert_eq!(ct.get(error).parent, Some(serious));
}

#[test]
fn the_shim_band_leaves_program_ids_alone() {
    let mut ct = ClassTable::new();
    assert!(!shim_class_band_active(&ct));
    set_shim_class_band_active(&mut ct, true);
    let shim = register_simple_user_class(&mut ct, "<twin>", None, vec![]);
    set_shim_class_band_active(&mut ct, false);
    assert_eq!(shim, ClassId(ClassId::FIRST_SHIM));
    assert_eq!(find_class_id_by_name(&ct, "<twin>"), Some(shim));
    assert_eq!(find_class_id_by_name_excluding_shim_band(&ct, "<twin>"), None);
    let own = register_simple_user_class(&mut ct, "<twin>", None, vec![]);
    assert_eq!(own, ClassId(PIN_CEILING));
    assert_eq!(find_class_id_by_name_excluding_shim_band(&ct, "<twin>"), Some(own));
}

#[test]
fn sealing_and_subclass_notes() {
    let mut ct = ClassTable::new();
    let a = register_simple_user_class(&mut ct, "<a>", None, vec![]);
    let b = register_simple_user_class(&mut ct, "<b>", Some(a), vec![]);
    assert!(!ct.get(a).is_sealed());
    assert!(seal_class(&mut ct, a));
    assert!(ct.get(a).is_sealed());
    assert!(!ct.get(b).is_sealed());
    assert!(note_subclass(&mut ct, a, b));
    assert!(note_subclass(&mut ct, a, b));
    assert_eq!(ct.get(a).direct_subclasses_snapshot(), vec![b]);
    assert!(!seal_class(&mut ct, ClassId(4_000_000)));
}

#[test]
fn resetting_keeps_the_seed_classes() {
    let mut ct = ClassTable::new();
    register_simple_user_class(&mut ct, "<a>", None, vec![]);
    assert_eq!(for_each_class(&ct).len(), 13);
    _reset_user_classes_for_tests(&mut ct);
    assert_eq!(for_each_class(&ct).len(), 12);
    assert_eq!(ct.find_by_name("<a>"), None);
    assert_eq!(ct.find_by_name("<pair>"), Some(ct.pair()));
}

#[test]
fn c_types_register_under_their_names() {
    let mut ct = ClassTable::new();
    let ids = nod_runtime::c_types::ensure_registered(&mut ct);
    let again = nod_runtime::c_types::ensure_registered(&mut ct);
    assert_eq!(ids, again);
    assert_eq!(ct.find_by_name("<c-handle>"), Some(ids.c_handle));
    assert!(is_subclass(&ct, ids.c_handle, ct.object()));
    let floats = nod_runtime::c_types::ensure_float_types_registered(&mut ct);
    assert_eq!(ct.find_by_name("<c-double>"), Some(floats.double));
}

#[test]
fn a_fresh_table_has_room_for_some_classes() {
    let table = ClassTable::new();
    assert!(table.has_room(0));
    assert!(table.has_room(1));
    assert!(!table.has_room(u32::MAX));
}
