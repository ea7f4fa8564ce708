use nod_runtime::aot::{
    decode_slot_type, nod_aot_main_wrapper, nod_aot_register_block,
    nod_aot_register_jit_function, nod_aot_register_method, nod_aot_register_user_class,
    nod_aot_register_variable, nod_aot_set_cache_slot, nod_aot_set_class_md, nod_aot_set_generic,
    nod_aot_set_imm_false, nod_aot_set_imm_false_wrapper, nod_aot_set_imm_nil,
    nod_aot_set_imm_true, nod_aot_set_strlit, nod_aot_set_symlit, nod_runtime_init, nod_user_main,
    prepare_main, AotHandlerEntry, AotSlotEntry, ImagePool, Runtime, RuntimeCode, StretchyVectorCode,
};
use nod_runtime::callbacks::callback_tenure_mode_enabled;
use nod_runtime::class_pins::PIN_CEILING;
use nod_runtime::classes::{
    find_class_id_by_name, for_each_class, ClassId, ClassTable, SlotDefault, SlotType,
};
use nod_runtime::closures::{nod_var_get_by_name, VariableTable};
use nod_runtime::conditions::intern_symbol;
use nod_runtime::functions::{lookup_function_code, FunctionTable};
use nod_runtime::generics::{find_generic, GenericTable};
use nod_runtime::handlers::{enter_block, BlockRegistry, HandlerState};
use nod_runtime::heap::{literal_pool_immediates, Heap};
use nod_runtime::literals::{intern_string_literal, LiteralPool};
use nod_runtime::lookup::lookup_method;
use nod_runtime::operators::{class_metadata_address, OperatorCode};
use nod_runtime::safepoints::{
    duplicate_site, nod_aot_begin_safepoint, nod_aot_end_safepoint, nod_aot_register_safepoints,
    nod_aot_verify_safepoint, ActiveSafepoints, AotSafepointEntry, SafepointRegistry,
};
use nod_runtime::word::Word;

fn test_safepoint_entry(site_id: u64, label: &str) -> AotSafepointEntry {
    AotSafepointEntry {
        site_id,
        kind_tag: 1,
        computation_index: 3,
        root_count: 2,
        section_label: "image.code.text".to_string(),
        patchpoint_label: "gc.s7".to_string(),
        function: "main".to_string(),
        block_label: label.to_string(),
    }
}

fn code() -> RuntimeCode {
    RuntimeCode {
        operators: OperatorCode {
            plus: 1,
            minus: 2,
            times: 3,
            eq: 4,
            lt: 5,
            gt: 6,
            eq_eq: 7,
            ne: 8,
            ne_eq: 9,
            instance: 10,
        },
        stretchy_vectors: StretchyVectorCode { element: 11, size: 12, element_setter: 13 },
    }
}

#[test]
fn nod_runtime_init_is_idempotent() {
    let mut rt = Runtime::new();
    nod_runtime_init(&mut rt, code());
    let classes = for_each_class(&rt.table);
    let ids = rt.classes;
    nod_runtime_init(&mut rt, code());
    nod_runtime_init(&mut rt, code());
    assert_eq!(for_each_class(&rt.table), classes);
    assert_eq!(rt.classes, ids);
    assert!(
        find_class_id_by_name(&rt.table, "<c-ffi-error>").is_some(),
        "expected <c-ffi-error> to be registered after nod_runtime_init"
    );
}

#[test]
fn nod_aot_main_wrapper_returns_zero_via_stub() {
    let mut rt = Runtime::new();
    let rc = nod_aot_main_wrapper(&mut rt, code(), |_: &Runtime| nod_user_main());
    assert_eq!(rc, 0);
    assert!(callback_tenure_mode_enabled(&rt.callbacks));
    assert_eq!(nod_aot_main_wrapper(&mut rt, code(), |_: &Runtime| 17), 0);
}

#[test]
fn main_finds_the_runtime_ready() {
    let mut rt = Runtime::new();
    let main = |ready: &Runtime| {
        assert!(ready.classes.is_some());
        assert!(callback_tenure_mode_enabled(&ready.callbacks));
        assert_eq!(lookup_function_code(&ready.functions, "+", 2), Some(code().operators.plus));
        let ids = ready.classes.unwrap().collections;
        let size = ready.generics.generic(find_generic(&ready.generics, "size").unwrap());
        let found = lookup_method(&ready.table, size, &vec![ids.stretchy_vector]);
        assert_eq!(found, Some(code().stretchy_vectors.size));
        3
    };
    assert_eq!(nod_aot_main_wrapper(&mut rt, code(), main), 0);
    let mut other = Runtime::new();
    prepare_main(&mut other, code());
    assert!(other.classes == rt.classes);
}

#[test]
fn nod_aot_register_safepoints_replaces_runtime_registry() {
    let mut registry = SafepointRegistry::new();
    nod_aot_register_safepoints(
        &mut registry,
        vec![test_safepoint_entry(7, "entry"), test_safepoint_entry(8, "dispatch")],
    );
    assert_eq!(registry.registered_aot_safepoint_count(), 2);
    nod_aot_register_safepoints(&mut registry, vec![test_safepoint_entry(7, "replacement")]);
    assert_eq!(registry.registered_aot_safepoint_count(), 1);
}

#[test]
fn active_aot_safepoint_snapshot_uses_slot_slab() {
    let mut registry = SafepointRegistry::new();
    let mut active = ActiveSafepoints::new();
    nod_aot_register_safepoints(&mut registry, vec![test_safepoint_entry(7, "entry")]);
    let roots = [
        Word::from_fixnum(11).expect("test fixnum in range"),
        Word::from_fixnum(22).expect("test fixnum in range"),
    ];
    let base: u64 = 0x1000;
    assert!(nod_aot_begin_safepoint(&registry, &mut active, true, 0, 7, 2, base).is_none());
    let snapshot = active.snapshot_active_aot_roots();
    assert_eq!(snapshot.len(), 2);
    let at = |address: u64| roots[((address - base) / 8) as usize];
    assert_eq!(at(snapshot[0]).as_fixnum(), Some(11));
    assert_eq!(at(snapshot[1]).as_fixnum(), Some(22));
    assert!(nod_aot_end_safepoint(&registry, &mut active, true, 0, 7).is_none());
    assert!(active.snapshot_active_aot_roots().is_empty());
}

#[test]
fn aot_exec_safepoint_hooks_verify_root_protocol() {
    let mut registry = SafepointRegistry::new();
    let mut active = ActiveSafepoints::new();
    nod_aot_register_safepoints(&mut registry, vec![test_safepoint_entry(7, "entry")]);
    let root_a = Word::from_fixnum(11).expect("test fixnum in range");
    let root_b = Word::from_fixnum(22).expect("test fixnum in range");
    let precise_roots = [root_a, root_b];
    assert_eq!(precise_roots.len(), 2);
    assert!(nod_aot_begin_safepoint(&registry, &mut active, true, 0, 7, 2, 0x1000).is_none());
    assert!(nod_aot_verify_safepoint(&registry, &active, true, 0, 7).is_none());
    assert!(nod_aot_end_safepoint(&registry, &mut active, true, 0, 7).is_none());
    assert_eq!(active.root_total(), 0);
    assert_eq!(active.snapshot_active_aot_roots().len(), 0);
}

#[test]
#[should_panic(expected = "expected 2")]
fn aot_exec_safepoint_hooks_detect_missing_root() {
    let mut registry = SafepointRegistry::new();
    let mut active = ActiveSafepoints::new();
    nod_aot_register_safepoints(&mut registry, vec![test_safepoint_entry(7, "entry")]);
    let root_a = Word::from_fixnum(11).expect("test fixnum in range");
    assert_eq!(root_a.as_fixnum(), Some(11));
    if let Some(fault) = nod_aot_begin_safepoint(&registry, &mut active, true, 0, 7, 1, 0x1000) {
        panic!("{}", fault.message());
    }
}

#[test]
fn safepoint_faults_name_the_site() {
    let mut registry = SafepointRegistry::new();
    let mut active = ActiveSafepoints::new();
    let entries = vec![test_safepoint_entry(7, "a"), test_safepoint_entry(7, "b")];
    assert_eq!(duplicate_site(&entries), Some(7));
    assert_eq!(duplicate_site(&vec![test_safepoint_entry(7, "a")]), None);
    nod_aot_register_safepoints(&mut registry, vec![test_safepoint_entry(7, "a")]);
    let unknown = nod_aot_begin_safepoint(&registry, &mut active, true, 0, 9, 2, 0).unwrap();
    assert!(unknown.message().contains('9'), "{}", unknown.message());
    let empty = nod_aot_end_safepoint(&registry, &mut active, true, 0, 7).unwrap();
    assert_eq!(empty.message(), "AOT safepoint stack empty");
    let quiet = nod_aot_end_safepoint(&registry, &mut active, false, 0, 7).unwrap();
    assert_eq!(quiet.message(), "AOT safepoint stack empty at end");
    let quiet = nod_aot_verify_safepoint(&registry, &active, false, 0, 7).unwrap();
    assert_eq!(quiet.message(), "AOT safepoint stack empty at verify");
    let empty = nod_aot_verify_safepoint(&registry, &active, true, 0, 7).unwrap();
    assert_eq!(empty.message(), "AOT safepoint stack empty");
    assert!(nod_aot_begin_safepoint(&registry, &mut active, true, 0, 7, 2, 0).is_none());
    let wrong = nod_aot_verify_safepoint(&registry, &active, true, 0, 8).unwrap();
    assert!(wrong.message().contains('8'), "{}", wrong.message());
    assert_eq!(active.active_aot_safepoint_depth(), 1);
}

#[test]
fn slots_of_the_image_are_filled() {
    let imm = literal_pool_immediates();
    let mut slot = 0u64;
    nod_aot_set_imm_true(&mut slot);
    assert_eq!(slot, imm.true_.raw());
    nod_aot_set_imm_false(&mut slot);
    assert_eq!(slot, imm.false_.raw());
    nod_aot_set_imm_false_wrapper(&mut slot);
    assert_eq!(slot + 1, imm.false_.raw());
    nod_aot_set_imm_nil(&mut slot);
    assert_eq!(slot, imm.nil.raw());
    nod_aot_set_class_md(&mut slot, ClassId::PAIR);
    assert_eq!(slot, class_metadata_address(ClassId(ClassId::PAIR)));
    let mut pool = ImagePool::new();
    let mut literals = LiteralPool::new();
    let mut heap = Heap::new();
    nod_aot_set_strlit(&mut literals, &mut heap, &mut slot, "hello");
    let hello = slot;
    nod_aot_set_strlit(&mut literals, &mut heap, &mut slot, "world");
    assert_ne!(slot, hello);
    assert_eq!(intern_string_literal(&mut literals, &mut heap, "hello").raw(), hello);
    assert_eq!(heap.get(Word::from_raw(hello)).unwrap().bytes, b"hello".to_vec());
    nod_aot_set_symlit(&mut heap, &mut slot, "red");
    assert_eq!(slot, intern_symbol(&mut heap, "red").raw());
    let mut generics = GenericTable::new();
    nod_aot_set_cache_slot(&mut pool, &mut generics, &mut slot, "abcd", 4);
    let cache = slot;
    assert_eq!(generics.cache(cache).unwrap().site_id, 4);
    nod_aot_set_cache_slot(&mut pool, &mut generics, &mut slot, "abcd", 5);
    assert_ne!(slot, cache);
    nod_aot_set_cache_slot(&mut pool, &mut generics, &mut slot, "abcd", 4);
    assert_eq!(slot, cache);
    nod_aot_set_generic(&mut generics, &mut slot, "speak");
    let speak = slot;
    nod_aot_set_generic(&mut generics, &mut slot, "walk");
    assert_ne!(slot, speak);
    assert!(find_generic(&generics, "speak").is_some());
}

#[test]
fn the_image_registers_its_code() {
    let mut rt = Runtime::new();
    nod_runtime_init(&mut rt, code());
    let ids = rt.classes.unwrap();
    nod_aot_register_method(
        &mut rt.generics,
        "speak",
        &vec![ClassId::INTEGER],
        0x99,
        1,
        "speak$integer",
    );
    let g = find_generic(&rt.generics, "speak").unwrap();
    let found = lookup_method(&rt.table, rt.generics.generic(g), &vec![rt.table.integer()]);
    assert_eq!(found, Some(0x99));
    let e = find_generic(&rt.generics, "element").unwrap();
    let sv = ids.collections.stretchy_vector;
    let found = lookup_method(&rt.table, rt.generics.generic(e), &vec![sv, rt.table.integer()]);
    assert_eq!(found, Some(11));
    assert_eq!(lookup_function_code(&rt.functions, "+", 2), Some(1));
    let mut functions = FunctionTable::new();
    nod_aot_register_jit_function(&mut functions, "main", 0, 0x44);
    assert_eq!(lookup_function_code(&functions, "main", 0), Some(0x44));
    let mut heap = Heap::new();
    let mut variables = VariableTable::new();
    let five = Word::from_fixnum(5).unwrap().raw();
    nod_aot_register_variable(&mut variables, &mut heap, &ids.closures, "*x*", five);
    let name = heap.alloc_text("*x*").raw();
    assert_eq!(nod_var_get_by_name(&variables, &heap, name), Ok(five));
    let mut blocks = BlockRegistry::new();
    let handlers = vec![AotHandlerEntry {
        class_id: ids.conditions.error.0,
        class_name: "<error>".to_string(),
        body: 0x70,
    }];
    nod_aot_register_block(&mut blocks, 3, 0x60, 0, 0x61, &handlers);
    let mut state = HandlerState::new();
    let none = ActiveSafepoints::new();
    let (a, body) = enter_block(&mut state, &blocks, &none, &none, 3, [0; 8]).unwrap();
    assert_eq!(body, 0x60);
    assert_eq!((a.cleanup, a.afterwards), (None, Some(0x61)));
    assert_eq!(state.handler_stack_len(), 1);
}

fn slot_entry(name: &str, type_tag: u8, default_init_tag: u8) -> AotSlotEntry {
    AotSlotEntry {
        name: name.to_string(),
        offset: 8,
        type_tag,
        required_init_keyword: 0,
        default_init_tag,
        has_setter: 1,
        type_class_id: 5,
        default_init_value: 84,
        init_keyword: String::new(),
    }
}

#[test]
fn slot_tags_decode() {
    let expected = [
        SlotType::Integer,
        SlotType::DoubleFloat,
        SlotType::Boolean,
        SlotType::Character,
        SlotType::String,
        SlotType::Symbol,
        SlotType::Vector,
        SlotType::Object,
        SlotType::Class(ClassId(5)),
        SlotType::Top,
    ];
    for (tag, t) in expected.iter().enumerate() {
        assert_eq!(decode_slot_type(tag as u8, 5), *t);
    }
    assert_eq!(decode_slot_type(200, 5), SlotType::Top);
}

#[test]
fn classes_of_the_image_get_the_expected_ids() {
    let mut table = ClassTable::new();
    let expected = PIN_CEILING;
    let slots = vec![
        slot_entry("a", 0, 0),
        slot_entry("b", 8, 1),
        slot_entry("c", 7, 2),
        slot_entry("d", 7, 3),
        slot_entry("e", 7, 4),
    ];
    let register = |table: &mut ClassTable, name: &str, expected: u32| {
        nod_aot_register_user_class(
            table,
            name,
            expected,
            &vec![ClassId::OBJECT],
            &vec![expected, ClassId::OBJECT],
            &slots,
            &vec![expected; 5],
            5,
            0,
        )
    };
    assert!(register(&mut table, "<token>", expected).is_ok());
    let id = find_class_id_by_name(&table, "<token>").unwrap();
    assert_eq!(id, ClassId(expected));
    let imm = literal_pool_immediates();
    let md = table.get(id);
    assert_eq!(md.instance_size, 48);
    assert_eq!(md.parent, Some(ClassId(ClassId::OBJECT)));
    assert_eq!(md.slots[0].default_init, SlotDefault::Unbound);
    assert_eq!(md.slots[1].default_init, SlotDefault::Value(Word::from_raw(84)));
    assert_eq!(md.slots[2].default_init, SlotDefault::Value(imm.true_));
    assert_eq!(md.slots[3].default_init, SlotDefault::Value(imm.false_));
    assert_eq!(md.slots[4].default_init, SlotDefault::Value(imm.nil));
    assert_eq!(md.slots[0].init_keyword, None);
    // Again is fine at the same id, drift at another.
    assert!(register(&mut table, "<token>", expected).is_ok());
    let drift = register(&mut table, "<token>", 9999).unwrap_err();
    assert!(drift.already_registered);
    assert_eq!(
        drift.message(),
        format!(
            "nod_aot_register_user_class: class id drift — compiler expected 9999 for class \
             `<token>`, but that class is already registered at id {expected} in this process. \
             The AOT registration sequence diverged from the compile-time sequence; the codegen \
             path is buggy."
        )
    );
    let drift = register(&mut table, "<other>", 9999).unwrap_err();
    assert!(!drift.already_registered);
    assert_eq!((drift.expected, drift.found), (9999, expected + 1));
    assert!(drift.message().contains(&format!("runtime allocated {}", expected + 1)));
    // The shim band has ids of its own.
    assert!(register(&mut table, "<shim>", ClassId::FIRST_SHIM).is_ok());
    assert!(register(&mut table, "<next>", expected + 2).is_ok());
}
