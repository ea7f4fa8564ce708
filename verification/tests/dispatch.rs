use nod_runtime::classes::{register_simple_user_class, ClassId, ClassTable};
use nod_runtime::dispatch::{GenericFunction, Method, MethodTableError};
use nod_runtime::generics::{
    _reset_for_tests, _reset_method_chain_stack_for_tests, add_method, add_method_full,
    dump_dispatch, find_generic, find_initialize_method, find_method_body_ptr, for_each_generic,
    get_or_create_generic, has_next_method, is_generic_defined,
    lookup_method_by_receiver, nod_add_method, nod_dispatch, nod_dispatch_unary,
    nod_has_next_method, nod_is_class_defined, nod_is_generic_defined, nod_next_method,
    nod_pop_sealed_chain_frame, nod_push_sealed_chain_frame, pop_method_chain_frame,
    record_resolved_dispatch, register_rest_callee, remove_method, resolved_dispatch_snapshot,
    rest_callee_fixed_count, try_add_method_full, word_class_id, CacheField, CacheSlot,
    DispatchAction, GenericTable, MethodChain, ResolvedDispatchEntry,
};
use nod_runtime::heap::{literal_pool_immediates, Heap};
use nod_runtime::lookup::{
    ambiguity, compare_specificity, cpl_position, is_applicable, lookup_applicable_methods,
    lookup_method, Specificity,
};
use nod_runtime::word::Word;

fn method(specialisers: Vec<ClassId>, body: u64) -> Method {
    let param_count = specialisers.len();
    Method { specialisers, body_fn_ptr: body, param_count, body_fn_name: String::new() }
}

fn fixnum(n: i64) -> u64 {
    Word::from_fixnum(n).unwrap().raw()
}

#[test]
fn cache_slot_field_offsets() {
    assert_eq!(CacheField::Class.offset(), 0);
    assert_eq!(CacheField::Method.offset(), 8);
    assert_eq!(CacheField::Generation.offset(), 16);
    assert_eq!(CacheField::Hits.offset(), 24);
    assert_eq!(CacheField::Misses.offset(), 32);
    assert_eq!(CacheField::SiteId.offset(), 40);
}

#[test]
fn cache_images_put_fields_at_their_offsets() {
    let slot =
        CacheSlot { class: 1, method: 2, generation: 3, hits: 4, misses: 5, site_id: 6 };
    let image = slot.image();
    assert_eq!(image[CacheField::Class.offset() / 8], 1);
    assert_eq!(image[CacheField::Generation.offset() / 8], 3);
    assert_eq!(image[CacheField::SiteId.offset() / 8], 6);
    let cold = CacheSlot::cold(9);
    assert_eq!((cold.class, cold.generation, cold.site_id), (0, 0, 9));
}

#[test]
fn more_specific_methods_come_first() {
    let mut table = ClassTable::new();
    let a = register_simple_user_class(&mut table, "<a>", None, vec![]);
    let b = register_simple_user_class(&mut table, "<b>", Some(a), vec![]);
    let mut g = GenericFunction::new("speak");
    g.add_method(method(vec![table.object()], 1));
    g.add_method(method(vec![b], 3));
    g.add_method(method(vec![a], 2));
    assert_eq!(lookup_applicable_methods(&table, &g, &vec![b]), Some(vec![3, 2, 1]));
    assert_eq!(lookup_applicable_methods(&table, &g, &vec![a]), Some(vec![2, 1]));
    assert_eq!(lookup_method(&table, &g, &vec![table.integer()]), Some(1));
    assert_eq!(lookup_method(&table, &g, &vec![]), None);
    assert!(is_applicable(&table, &g.methods[0], &vec![b]));
    assert_eq!(cpl_position(&table, b, a), 1);
    let m = compare_specificity(&table, &g.methods[1], &g.methods[0], &vec![b]);
    assert_eq!(m, Specificity::MoreSpecific);
    assert!(ambiguity(&table, &g, &vec![b]).is_none());
}

#[test]
fn arguments_decide_from_left_to_right() {
    let mut table = ClassTable::new();
    let a = register_simple_user_class(&mut table, "<a>", None, vec![]);
    let object = table.object();
    let mut g = GenericFunction::new("combine");
    g.add_method(method(vec![object, a], 1));
    g.add_method(method(vec![a, object], 2));
    assert_eq!(lookup_applicable_methods(&table, &g, &vec![a, a]), Some(vec![2, 1]));
}

#[test]
fn adding_replaces_and_removing_takes_back() {
    let table = ClassTable::new();
    let mut g = GenericFunction::new("speak");
    let start = g.generation();
    g.add_method(method(vec![table.integer()], 1));
    let added = g.generation();
    assert!(added > start);
    g.add_method(method(vec![table.integer()], 2));
    assert_eq!(g.methods.len(), 1);
    assert_eq!(lookup_method(&table, &g, &vec![table.integer()]), Some(2));
    assert_eq!(g.first_method_param_count(), Some(1));
    g.remove_method(&vec![table.integer()]);
    assert!(g.methods.is_empty());
    assert!(g.generation() > added);
}

#[test]
fn sealed_generics_refuse_methods() {
    let table = ClassTable::new();
    let mut generics = GenericTable::new();
    add_method(&mut generics, "speak", table.integer(), 1, 1);
    let mut g = GenericFunction::new("speak");
    g.mark_sealed();
    assert!(g.is_sealed());
    match g.try_add_method(&table, method(vec![table.integer()], 2)) {
        Err(e) => {
            assert!(matches!(e, MethodTableError::SealedGenericClosed { .. }));
            assert!(e.message().contains("speak"));
        }
        Ok(()) => panic!("the generic is sealed"),
    }
    let mut d = GenericFunction::new("walk");
    d.register_sealed_domain(vec![table.string()]);
    assert_eq!(d.sealed_domains_snapshot(), vec![vec![table.string()]]);
    match d.try_add_method(&table, method(vec![table.byte_string()], 2)) {
        Err(e) => {
            assert!(matches!(e, MethodTableError::SealedDomainViolated { .. }));
            assert!(!e.message().is_empty());
        }
        Ok(()) => panic!("the domain is sealed"),
    }
    assert!(d.try_add_method(&table, method(vec![table.integer()], 2)).is_ok());
    let added = try_add_method_full(
        &mut generics,
        &table,
        "speak",
        vec![table.string()],
        7,
        1,
    );
    assert!(added.is_ok());
}

#[test]
fn a_call_fills_its_cache_and_a_change_shows() {
    let table = ClassTable::new();
    let heap = Heap::new();
    let mut chain = MethodChain::new();
    let mut generics = GenericTable::new();
    add_method(&mut generics, "speak", table.integer(), 0x11, 1);
    let g = get_or_create_generic(&mut generics, "speak");
    let cache = generics.new_cache(77);
    let mut args = [0u64; 8];
    args[0] = fixnum(3);
    let action =
        nod_dispatch(&mut generics, &table, &heap, &mut chain, g, cache, 1, args);
    match action {
        DispatchAction::Call { method, args, .. } => {
            assert_eq!(method, 0x11);
            assert_eq!(args, vec![fixnum(3)]);
        }
        _ => panic!("integers can speak"),
    }
    let slot = generics.cache(cache).unwrap();
    assert_eq!(slot.method, 0x11);
    assert_eq!(slot.misses, 1);
    assert_eq!(slot.class, table.integer().0 as u64);
    assert_eq!(slot.generation, generics.generic(g).generation());
    add_method(&mut generics, "speak", table.string(), 0x22, 1);
    assert_ne!(slot.generation, generics.generic(g).generation());
    assert_eq!(generics.cache(0).map(|s| s.site_id), None);
}

#[test]
fn calls_without_a_method_name_the_classes() {
    let table = ClassTable::new();
    let heap = Heap::new();
    let mut chain = MethodChain::new();
    let mut generics = GenericTable::new();
    add_method(&mut generics, "speak", table.string(), 1, 1);
    let g = find_generic(&generics, "speak").unwrap();
    let mut args = [0u64; 8];
    args[0] = fixnum(3);
    match nod_dispatch(&mut generics, &table, &heap, &mut chain, g, 0, 1, args) {
        DispatchAction::NoApplicableMethods { generic, arg_class_names } => {
            assert_eq!(generic, "speak");
            assert_eq!(arg_class_names, vec!["<integer>".to_string()]);
        }
        _ => panic!("integers cannot speak"),
    }
}

#[test]
fn next_methods_run_out_in_order() {
    let mut table = ClassTable::new();
    let a = register_simple_user_class(&mut table, "<a>", None, vec![]);
    let b = register_simple_user_class(&mut table, "<b>", Some(a), vec![]);
    let mut heap = Heap::new();
    let object = heap.alloc_cells(b, vec![]);
    let mut chain = MethodChain::new();
    let mut generics = GenericTable::new();
    add_method(&mut generics, "speak", table.object(), 1, 1);
    add_method(&mut generics, "speak", a, 2, 1);
    add_method(&mut generics, "speak", b, 3, 1);
    let name = heap.alloc_text("speak").raw();
    let first = nod_dispatch_unary(&mut generics, &table, &heap, &mut chain, name, object.raw());
    match first {
        DispatchAction::Call { method, .. } => assert_eq!(method, 3),
        _ => panic!("the object can speak"),
    }
    let imm = literal_pool_immediates();
    assert!(has_next_method(&chain));
    assert_eq!(nod_has_next_method(&chain), imm.true_.raw());
    assert_eq!(nod_next_method(&mut chain).unwrap().0, 2);
    assert_eq!(nod_next_method(&mut chain).unwrap().0, 1);
    assert_eq!(nod_has_next_method(&chain), imm.false_.raw());
    assert!(nod_next_method(&mut chain).is_none());
    _reset_method_chain_stack_for_tests(&mut chain);
    assert_eq!(chain.depth(), 0);
}

#[test]
fn sealed_chain_frames_balance() {
    let mut chain = MethodChain::new();
    nod_push_sealed_chain_frame(&mut chain, vec![1], vec![10, 20]);
    assert_eq!(chain.depth(), 1);
    assert_eq!(nod_next_method(&mut chain), Some((10, vec![1])));
    nod_pop_sealed_chain_frame(&mut chain);
    assert_eq!(chain.depth(), 0);
    assert!(pop_method_chain_frame(&mut chain).is_none());
}

#[test]
fn generics_are_found_by_name() {
    let table = ClassTable::new();
    let mut heap = Heap::new();
    let mut generics = GenericTable::new();
    let imm = literal_pool_immediates();
    assert_eq!(find_generic(&generics, "speak"), None);
    let g = get_or_create_generic(&mut generics, "speak");
    assert_eq!(get_or_create_generic(&mut generics, "speak"), g);
    assert!(!is_generic_defined(&generics, "speak"));
    let mut specs = [0u64; 8];
    specs[0] = fixnum(table.integer().0 as i64);
    nod_add_method(&mut generics, g, 1, specs, 0x55);
    assert!(is_generic_defined(&generics, "speak"));
    assert_eq!(for_each_generic(&generics), vec![g]);
    assert_eq!(find_method_body_ptr(&generics, "speak"), None);
    let name = heap.alloc_text("speak").raw();
    assert_eq!(nod_is_generic_defined(&generics, &heap, name), imm.true_.raw());
    let class = heap.alloc_text("<pair>").raw();
    assert_eq!(nod_is_class_defined(&table, &heap, class), imm.true_.raw());
    assert_eq!(nod_is_class_defined(&table, &heap, name), imm.false_.raw());
    register_rest_callee(&mut generics, "format", 2);
    assert_eq!(rest_callee_fixed_count(&generics, "format"), Some(2));
    assert_eq!(rest_callee_fixed_count(&generics, "speak"), None);
    let cache = generics.new_cache(3);
    _reset_for_tests(&mut generics);
    assert!(!is_generic_defined(&generics, "speak"));
    assert_eq!(generics.cache(cache).unwrap().site_id, 3);
}

#[test]
fn initialisers_are_found_by_receiver() {
    let mut table = ClassTable::new();
    let a = register_simple_user_class(&mut table, "<a>", None, vec![]);
    let mut generics = GenericTable::new();
    assert_eq!(find_initialize_method(&generics, &table, a), None);
    add_method(&mut generics, "initialize", a, 0x77, 1);
    assert_eq!(find_initialize_method(&generics, &table, a), Some(0x77));
    assert_eq!(find_initialize_method(&generics, &table, table.integer()), None);
    let m = lookup_method_by_receiver(&generics, &table, "initialize", a).unwrap();
    assert_eq!(m.body_fn_ptr, 0x77);
    remove_method(&mut generics, "initialize", &vec![a]);
    assert_eq!(find_initialize_method(&generics, &table, a), None);
}

#[test]
fn resolved_calls_are_recorded() {
    let table = ClassTable::new();
    let mut generics = GenericTable::new();
    record_resolved_dispatch(
        &mut generics,
        ResolvedDispatchEntry {
            call_site_id: 4,
            generic_name: "speak".to_string(),
            recorded_generation: 1,
            resolved_method: "speak$<integer>".to_string(),
        },
    );
    let entries = resolved_dispatch_snapshot(&generics);
    assert_eq!(entries.len(), 1);
    assert_eq!(entries[0].call_site_id, 4);
    add_method_full(&mut generics, "speak", vec![table.integer()], 0x10, 1);
    let dump = dump_dispatch(&generics, &table);
    assert!(dump.contains("speak"), "{dump}");
    assert!(dump.contains("<integer>"), "{dump}");
}

#[test]
fn words_have_classes() {
    let table = ClassTable::new();
    let mut heap = Heap::new();
    let imm = literal_pool_immediates();
    assert_eq!(word_class_id(&heap, Word::from_raw(fixnum(1))), table.integer());
    assert_eq!(word_class_id(&heap, imm.true_), table.boolean());
    assert_eq!(word_class_id(&heap, imm.nil), table.empty_list());
    let s = heap.alloc_text("x");
    assert_eq!(word_class_id(&heap, s), table.byte_string());
}
