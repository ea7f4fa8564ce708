use nod_runtime::classes::{is_subclass, ClassTable};
use nod_runtime::conditions::{
    condition_class_id, condition_class_name, condition_message, ensure_registered,
    error_class_id, exit_procedure_block_id, intern_symbol, invoke_restart, make_exit_procedure,
    make_no_applicable_methods_error, make_simple_condition, make_simple_error,
    make_simple_restart, make_simple_warning, nod_condition_message, nod_invoke_exit,
    nod_make_exit_procedure, serious_condition_class_id, simple_error_class_id, ConditionClasses,
    NlxPayload,
};
use nod_runtime::generics::decode_byte_string_to_string;
use nod_runtime::handlers::{
    _reset_block_registry_for_tests, _reset_handler_stack_for_tests, enter_block,
    exit_after_handler, for_each_handler, handler_stack_snapshot, handlers_report, nod_error,
    nod_pop_handler, nod_push_handler, nod_signal, nod_walk_handlers_dump, register_block_fns,
    step_block, BlockAction, BlockEvent, BlockFns, BlockPhase, BlockRegistry, HandlerFn,
    HandlerFrame, HandlerState, SignalAction,
};
use nod_runtime::heap::{literal_pool_immediates, Heap};
use nod_runtime::literals::{intern_string_literal, LiteralPool};
use nod_runtime::safepoints::{ActiveAotSafepoint, ActiveSafepoints};
use nod_runtime::word::Word;

fn setup() -> (ClassTable, ConditionClasses, Heap) {
    let mut table = ClassTable::new();
    let ids = ensure_registered(&mut table);
    (table, ids, Heap::new())
}

fn fixnum(n: i64) -> Word {
    Word::from_fixnum(n).unwrap()
}

fn safepoint(site_id: u64, slot_base: u64) -> ActiveAotSafepoint {
    ActiveAotSafepoint { site_id, expected_root_count: 1, baseline_root_count: 0, slot_base }
}

#[test]
fn condition_classes_register_with_expected_cpl() {
    let (mut table, _, _) = setup();
    let err = error_class_id(&mut table);
    let serious = serious_condition_class_id(&mut table);
    let cond = condition_class_id(&mut table);
    let simple = simple_error_class_id(&mut table);
    assert!(is_subclass(&table, err, serious));
    assert!(is_subclass(&table, err, cond));
    assert!(is_subclass(&table, simple, err));
}

#[test]
fn make_simple_error_carries_message() {
    let (_, ids, mut heap) = setup();
    let w = make_simple_error(&mut LiteralPool::new(), &mut heap, &ids, "hi");
    let msg = condition_message(&heap, w);
    let text = decode_byte_string_to_string(&heap, msg).expect("byte-string slot");
    assert_eq!(text, "hi");
}

#[test]
fn handler_stack_push_pop_balanced() {
    let (mut table, _, _) = setup();
    let mut state = HandlerState::new();
    let baseline = state.handler_stack_len();
    nod_push_handler(
        &mut state,
        HandlerFrame {
            handler_class: error_class_id(&mut table),
            target_block_id: 42,
            handler_index: 0,
            handler_class_name: "<error>".to_string(),
        },
    );
    assert_eq!(state.handler_stack_len(), baseline + 1);
    nod_pop_handler(&mut state);
    assert_eq!(state.handler_stack_len(), baseline);
}

#[test]
fn handler_dump_renders_frames() {
    let (mut table, _, _) = setup();
    let mut state = HandlerState::new();
    let baseline_dump = nod_walk_handlers_dump(&state);
    let baseline_len = state.handler_stack_len();
    nod_push_handler(
        &mut state,
        HandlerFrame {
            handler_class: error_class_id(&mut table),
            target_block_id: 7,
            handler_index: 0,
            handler_class_name: "<error>".to_string(),
        },
    );
    let dump = nod_walk_handlers_dump(&state);
    assert!(dump.contains("<error>"), "{dump}");
    assert!(dump.contains("block-id=7"), "{dump}");
    nod_pop_handler(&mut state);
    assert_eq!(state.handler_stack_len(), baseline_len);
    assert_eq!(nod_walk_handlers_dump(&state), baseline_dump);
}

#[test]
fn exit_procedure_roundtrips_block_id() {
    let (_, ids, mut heap) = setup();
    let ep = make_exit_procedure(&mut heap, &ids, 99);
    assert_eq!(exit_procedure_block_id(&heap, &ids, ep), Some(99));
}

#[test]
fn nod_run_block_restores_jit_safepoint_baseline_on_nlx() {
    let mut state = HandlerState::new();
    let mut registry = BlockRegistry::new();
    register_block_fns(
        &mut registry,
        42,
        BlockFns { body: 0x100, cleanup: None, afterwards: None, handlers: vec![] },
    );
    let mut memory = [Word::from_fixnum(11).expect("test fixnum in range"), Word::from_raw(0)];
    let mut jit = ActiveSafepoints::new();
    let mut aot = ActiveSafepoints::new();
    jit.frames.push(safepoint(7, 0));

    let (mut activation, body) =
        enter_block(&mut state, &registry, &jit, &aot, 42, [0; 8]).unwrap();
    assert_eq!(body, 0x100);
    // The body announces a safepoint of its own and leaves by an exit.
    memory[1] = Word::from_fixnum(22).expect("test fixnum in range");
    jit.frames.push(safepoint(8, 8));
    let exit = NlxPayload {
        target_block_id: 42,
        value: Word::from_fixnum(77).expect("test fixnum in range"),
    };
    let action = step_block(
        &mut state,
        &mut jit,
        &mut aot,
        &mut activation,
        BlockEvent::Exited(exit),
    );
    let result = match action {
        BlockAction::Return(v) => v,
        _ => panic!("the block is over"),
    };
    assert_eq!(Word::from_raw(result).as_fixnum(), Some(77));
    assert_eq!(jit.active_aot_safepoint_depth(), 1);
    let roots = jit.snapshot_active_aot_roots();
    assert_eq!(roots.len(), 1);
    assert_eq!(memory[(roots[0] / 8) as usize].as_fixnum(), Some(11));
    jit.truncate_active_aot_safepoints(0);
    assert!(jit.snapshot_active_aot_roots().is_empty());
}

#[test]
fn nod_run_block_restores_safepoints_on_signal_driven_nlx() {
    let (table, ids, mut heap) = setup();
    let mut state = HandlerState::new();
    let mut registry = BlockRegistry::new();
    register_block_fns(
        &mut registry,
        55,
        BlockFns {
            body: 0x200,
            cleanup: None,
            afterwards: None,
            handlers: vec![HandlerFn {
                class_id: ids.error,
                class_name: "<error>".to_string(),
                body: 0x300,
            }],
        },
    );
    let memory = [Word::from_fixnum(77).expect("fixnum 77"), fixnum(55)];
    let mut jit = ActiveSafepoints::new();
    let mut aot = ActiveSafepoints::new();
    jit.frames.push(safepoint(19, 0));
    let (mut activation, _) = enter_block(&mut state, &registry, &jit, &aot, 55, [0; 8]).unwrap();
    // The body announces a safepoint and signals; the handler answers 33.
    jit.frames.push(safepoint(20, 8));
    let cond = make_simple_error(&mut LiteralPool::new(), &mut heap, &ids, "signal-driven safepoint test");
    let (handler, target) =
        match nod_signal(&table, &ids, &heap, &state, &registry, cond.raw()) {
            SignalAction::RunHandler { code, condition, captured, target_block_id } => {
                assert_eq!(condition, cond.raw());
                assert_eq!(captured, [0; 8]);
                (code, target_block_id)
            }
            SignalAction::Fail { message } => panic!("{message}"),
        };
    assert_eq!(handler, 0x300);
    let exit = exit_after_handler(target, Word::from_fixnum(33).expect("fixnum 33").raw());
    let action = step_block(
        &mut state,
        &mut jit,
        &mut aot,
        &mut activation,
        BlockEvent::Exited(exit),
    );
    assert_eq!(action, BlockAction::Return(fixnum(33).raw()), "handler return value");
    assert_eq!(
        jit.active_aot_safepoint_depth(),
        1,
        "inner stale safepoint must be truncated"
    );
    let roots = jit.snapshot_active_aot_roots();
    assert_eq!(roots.len(), 1);
    assert_eq!(memory[(roots[0] / 8) as usize].as_fixnum(), Some(77), "outer root preserved");
    jit.truncate_active_aot_safepoints(0);
    assert!(jit.snapshot_active_aot_roots().is_empty());
    assert_eq!(state.handler_stack_len(), 0);
}

#[test]
fn a_quiet_block_runs_body_cleanup_and_afterwards() {
    let mut state = HandlerState::new();
    let mut registry = BlockRegistry::new();
    register_block_fns(
        &mut registry,
        1,
        BlockFns { body: 10, cleanup: Some(20), afterwards: Some(30), handlers: vec![] },
    );
    let mut jit = ActiveSafepoints::new();
    let mut aot = ActiveSafepoints::new();
    let (mut a, body) = enter_block(&mut state, &registry, &jit, &aot, 1, [1; 8]).unwrap();
    assert_eq!(body, 10);
    let next = step_block(&mut state, &mut jit, &mut aot, &mut a, BlockEvent::Returned(5));
    assert_eq!(next, BlockAction::Run(20));
    let next = step_block(&mut state, &mut jit, &mut aot, &mut a, BlockEvent::Returned(0));
    assert_eq!(next, BlockAction::Run(30));
    let next = step_block(&mut state, &mut jit, &mut aot, &mut a, BlockEvent::Returned(0));
    assert_eq!(next, BlockAction::Return(5));
    assert_eq!(a.phase, BlockPhase::Over);
}

#[test]
fn an_exit_to_another_block_runs_the_cleanup_and_goes_on() {
    let mut state = HandlerState::new();
    let mut registry = BlockRegistry::new();
    register_block_fns(
        &mut registry,
        1,
        BlockFns { body: 10, cleanup: Some(20), afterwards: Some(30), handlers: vec![] },
    );
    let mut jit = ActiveSafepoints::new();
    let mut aot = ActiveSafepoints::new();
    let (mut a, _) = enter_block(&mut state, &registry, &jit, &aot, 1, [0; 8]).unwrap();
    let exit = NlxPayload { target_block_id: 2, value: fixnum(0) };
    let next = step_block(&mut state, &mut jit, &mut aot, &mut a, BlockEvent::Exited(exit));
    assert_eq!(next, BlockAction::Run(20));
    let next = step_block(&mut state, &mut jit, &mut aot, &mut a, BlockEvent::Returned(0));
    assert_eq!(next, BlockAction::Reraise);
    assert!(enter_block(&mut state, &registry, &jit, &aot, 9, [0; 8]).is_none());
    _reset_block_registry_for_tests(&mut registry);
    assert!(enter_block(&mut state, &registry, &jit, &aot, 1, [0; 8]).is_none());
}

#[test]
fn the_innermost_matching_handler_is_picked() {
    let (table, ids, mut heap) = setup();
    let mut state = HandlerState::new();
    let mut registry = BlockRegistry::new();
    let handler = |class_id, name: &str, body| HandlerFn {
        class_id,
        class_name: name.to_string(),
        body,
    };
    register_block_fns(
        &mut registry,
        1,
        BlockFns {
            body: 1,
            cleanup: None,
            afterwards: None,
            handlers: vec![handler(ids.condition, "<condition>", 100)],
        },
    );
    register_block_fns(
        &mut registry,
        2,
        BlockFns {
            body: 2,
            cleanup: None,
            afterwards: None,
            handlers: vec![handler(ids.error, "<error>", 200)],
        },
    );
    let jit = ActiveSafepoints::new();
    let aot = ActiveSafepoints::new();
    enter_block(&mut state, &registry, &jit, &aot, 1, [3; 8]).unwrap();
    enter_block(&mut state, &registry, &jit, &aot, 2, [4; 8]).unwrap();
    let error = make_simple_error(&mut LiteralPool::new(), &mut heap, &ids, "boom");
    match nod_signal(&table, &ids, &heap, &state, &registry, error.raw()) {
        SignalAction::RunHandler { code, target_block_id, captured, .. } => {
            assert_eq!((code, target_block_id), (200, 2));
            assert_eq!(captured, [4; 8]);
        }
        _ => panic!("an error has a handler"),
    }
    let warning = make_simple_warning(&mut LiteralPool::new(), &mut heap, &ids, "careful");
    match nod_signal(&table, &ids, &heap, &state, &registry, warning.raw()) {
        SignalAction::RunHandler { code, target_block_id, .. } => {
            assert_eq!((code, target_block_id), (100, 1));
        }
        _ => panic!("a warning has a handler"),
    }
    let frames = handler_stack_snapshot(&state);
    assert_eq!(frames.len(), 2);
    assert_eq!(for_each_handler(&state).len(), 2);
    assert!(handlers_report(&state).contains("block-id=2"));
    _reset_handler_stack_for_tests(&mut state);
    assert_eq!(state.handler_stack_len(), 0);
}

#[test]
fn unhandled_errors_say_what_they_carry() {
    let (table, ids, mut heap) = setup();
    let msg = heap.alloc_text("disk full");
    let outcome = nod_error(
        &table,
        &ids,
        &mut LiteralPool::new(),
        &mut heap,
        &HandlerState::new(),
        &BlockRegistry::new(),
        msg.raw(),
    );
    match outcome {
        SignalAction::Fail { message } => {
            assert!(message.contains("<simple-error>"), "{message}");
            assert!(message.contains("disk full"), "{message}");
        }
        _ => panic!("nobody handles it"),
    }
}

#[test]
fn error_messages_that_are_no_utf8_are_repaired() {
    let (table, ids, mut heap) = setup();
    let msg = heap.alloc_byte_string(vec![b'a', 0xff, b'b']);
    let outcome = nod_error(
        &table,
        &ids,
        &mut LiteralPool::new(),
        &mut heap,
        &HandlerState::new(),
        &BlockRegistry::new(),
        msg.raw(),
    );
    match outcome {
        SignalAction::Fail { message } => assert!(message.contains("a\u{fffd}b"), "{message}"),
        _ => panic!("nobody handles it"),
    }
}

#[test]
fn conditions_of_every_kind() {
    let (table, ids, mut heap) = setup();
    let c = make_simple_condition(&mut LiteralPool::new(), &mut heap, &ids, "note");
    assert_eq!(condition_class_name(&table, &heap, c).as_deref(), Some("<simple-condition>"));
    let message = nod_condition_message(&heap, c.raw());
    assert_eq!(
        decode_byte_string_to_string(&heap, Word::from_raw(message)).as_deref(),
        Some("note")
    );
    let names = vec!["<integer>".to_string(), "<string>".to_string()];
    let e = make_no_applicable_methods_error(&mut LiteralPool::new(), &mut heap, &ids, "speak", &names);
    assert!(heap.is_instance(e, ids.no_applicable_methods_error));
    let restart = make_simple_restart(&mut LiteralPool::new(), &mut heap, &ids, "retry", "Try again");
    assert!(heap.is_instance(restart, ids.simple_restart));
    assert!(!invoke_restart(restart).is_empty());
    let name = intern_symbol(&mut heap, "retry");
    assert_eq!(heap.cell(restart, 0), Some(name));
    assert_eq!(intern_symbol(&mut heap, "retry"), name);
    assert_ne!(intern_symbol(&mut heap, "abort"), name);
}

#[test]
fn exits_name_their_block() {
    let (_, ids, mut heap) = setup();
    let ep = nod_make_exit_procedure(&mut heap, &ids, 5);
    let exit = nod_invoke_exit(&heap, &ids, ep, fixnum(9).raw()).unwrap();
    assert_eq!(exit, NlxPayload { target_block_id: 5, value: fixnum(9) });
    assert_eq!(nod_invoke_exit(&heap, &ids, fixnum(1).raw(), 0), None);
    assert_eq!(exit_procedure_block_id(&heap, &ids, literal_pool_immediates().nil), None);
}

#[test]
fn equal_messages_are_one_object() {
    let (_, ids, mut heap) = setup();
    let mut literals = LiteralPool::new();
    let a = make_simple_error(&mut literals, &mut heap, &ids, "boom");
    let b = make_simple_error(&mut literals, &mut heap, &ids, "boom");
    let c = make_simple_warning(&mut literals, &mut heap, &ids, "hush");
    assert_ne!(a, b);
    assert_eq!(condition_message(&heap, a), condition_message(&heap, b));
    assert_ne!(condition_message(&heap, a), condition_message(&heap, c));
    let boom = intern_string_literal(&mut literals, &mut heap, "boom");
    assert_eq!(condition_message(&heap, a), boom);
    let names = vec!["<integer>".to_string(), "<string>".to_string()];
    let e = make_no_applicable_methods_error(&mut literals, &mut heap, &ids, "boom", &names);
    assert_eq!(heap.cell(e, 0), Some(boom));
    let joined = intern_string_literal(&mut literals, &mut heap, "<integer>, <string>");
    assert_eq!(heap.cell(e, 1), Some(joined));
    let restart = make_simple_restart(&mut literals, &mut heap, &ids, "retry", "hush");
    assert_eq!(heap.cell(restart, 1), Some(condition_message(&heap, c)));
}

#[test]
fn the_end_of_a_cleanup_on_the_way_out_cuts_nothing() {
    let (_, ids, _) = setup();
    let mut state = HandlerState::new();
    let mut registry = BlockRegistry::new();
    register_block_fns(
        &mut registry,
        1,
        BlockFns { body: 10, cleanup: Some(20), afterwards: None, handlers: vec![] },
    );
    let mut jit = ActiveSafepoints::new();
    let mut aot = ActiveSafepoints::new();
    let (mut a, _) = enter_block(&mut state, &registry, &jit, &aot, 1, [0; 8]).unwrap();
    jit.frames.push(safepoint(1, 0));
    let next = step_block(&mut state, &mut jit, &mut aot, &mut a, BlockEvent::Panicked);
    assert_eq!(next, BlockAction::Run(20));
    assert_eq!(a.phase, BlockPhase::CleanupOnUnwind);
    assert_eq!(jit.active_aot_safepoint_depth(), 0);
    // What the cleanup leaves behind stays.
    jit.frames.push(safepoint(2, 8));
    nod_push_handler(
        &mut state,
        HandlerFrame {
            handler_class: ids.error,
            target_block_id: 1,
            handler_index: 0,
            handler_class_name: "<error>".to_string(),
        },
    );
    let next = step_block(&mut state, &mut jit, &mut aot, &mut a, BlockEvent::Returned(0));
    assert_eq!(next, BlockAction::Reraise);
    assert_eq!(a.phase, BlockPhase::Over);
    assert_eq!(jit.active_aot_safepoint_depth(), 1);
    assert_eq!(state.handler_stack_len(), 1);
}
