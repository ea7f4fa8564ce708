use nod_runtime::classes::{class_metadata_for, is_subclass, ClassTable, SlotType};
use nod_runtime::conditions::ConditionClasses;
use nod_runtime::functions::{
    _reset_function_registry_for_tests, ensure_registered, function_arity, function_class_id,
    function_code_ptr, function_env_ptr, function_kind_tag, function_name, generic_of_handle,
    is_function, lookup_function_code, make_function, make_function_ref, nod_apply, nod_funcall0,
    nod_funcall1, nod_funcall2, nod_make_closure, nod_make_function_ref, register_jit_function,
    register_rust_function, wrong_number_of_arguments_error_class_id, CallAction, FunctionClasses,
    FunctionTable, FUNCTION_KIND_CLOSURE, FUNCTION_KIND_GENERIC_TRAMPOLINE,
    FUNCTION_KIND_LIFTED_ANON, FUNCTION_KIND_TOP_LEVEL,
};
use nod_runtime::generics::{add_method, find_generic, GenericTable};
use nod_runtime::handlers::{nod_signal, BlockRegistry, HandlerState, SignalAction};
use nod_runtime::heap::{literal_pool_immediates, Heap};
use nod_runtime::literals::{intern_string_literal, LiteralPool};
use nod_runtime::operators::{
    class_metadata_address, ensure_operator_shims_registered, nod_instance_p, nod_op_eq,
    nod_op_eq_eq, nod_op_gt, nod_op_lt, nod_op_minus, nod_op_ne, nod_op_ne_eq, nod_op_plus,
    nod_op_times, OperatorCode,
};
use nod_runtime::word::{Word, FIXNUM_MAX};

const ECHO1: u64 = 0x1000;
const ADD2: u64 = 0x2000;

/// What the code at an address computes.
fn execute(code: u64, args: &[u64]) -> u64 {
    match code {
        ECHO1 => args[0],
        ADD2 => {
            let a = Word::from_raw(args[0]).as_fixnum().unwrap_or(0);
            let b = Word::from_raw(args[1]).as_fixnum().unwrap_or(0);
            Word::from_fixnum(a + b).unwrap().raw()
        }
        _ => panic!("no code at {code}"),
    }
}

fn run(action: CallAction) -> u64 {
    match action {
        CallAction::Run { code, args } => execute(code, &args),
        _ => panic!("a call was expected"),
    }
}

fn setup() -> (ClassTable, FunctionClasses, ConditionClasses, Heap) {
    let mut table = ClassTable::new();
    let conditions = nod_runtime::conditions::ensure_registered(&mut table);
    let ids = ensure_registered(&mut table);
    (table, ids, conditions, Heap::new())
}

#[test]
fn function_class_registers_and_introspects() {
    let (mut table, _, _, _) = setup();
    let id = function_class_id(&mut table);
    let md = class_metadata_for(&table, id);
    assert_eq!(md.name, "<function>");
    assert_eq!(md.slots.len(), 6);
    for s in &md.slots {
        let expected = match s.name.as_str() {
            "name" => SlotType::String,
            "env-ptr" => SlotType::Object,
            _ => SlotType::Integer,
        };
        assert_eq!(s.type_kind, expected, "slot `{}` type", s.name);
    }
}

#[test]
fn wrong_args_error_inherits_from_error() {
    let (mut table, _, conditions, _) = setup();
    let wae = wrong_number_of_arguments_error_class_id(&mut table);
    assert!(is_subclass(&table, wae, conditions.error));
}

#[test]
fn make_function_roundtrips_arity_and_code_ptr() {
    let (table, ids, _, mut heap) = setup();
    let f = make_function(&mut LiteralPool::new(), &mut heap, &ids, "echo1", 1, ECHO1, 0, 0);
    assert_eq!(function_arity(&heap, f), Some(1));
    assert_eq!(function_code_ptr(&heap, f).unwrap(), ECHO1);
    assert_eq!(function_name(&heap, f).as_deref(), Some("echo1"));
    assert!(is_function(&table, &ids, &heap, f));
}

#[test]
fn funcall1_dispatches_to_echo() {
    let (_, ids, conditions, mut heap) = setup();
    let f = make_function(&mut LiteralPool::new(), &mut heap, &ids, "echo1", 1, ECHO1, 0, 0);
    let arg = Word::from_fixnum(42).unwrap();
    let result = run(nod_funcall1(&mut heap, &ids, &conditions, f.raw(), arg.raw()));
    assert_eq!(Word::from_raw(result).as_fixnum(), Some(42));
}

#[test]
fn funcall2_dispatches_to_add() {
    let (_, ids, _, mut heap) = setup();
    let f = make_function(&mut LiteralPool::new(), &mut heap, &ids, "add2", 2, ADD2, 0, 0);
    let a = Word::from_fixnum(40).unwrap();
    let b = Word::from_fixnum(2).unwrap();
    let result = run(nod_funcall2(&mut heap, &ids, f.raw(), a.raw(), b.raw()));
    assert_eq!(Word::from_raw(result).as_fixnum(), Some(42));
}

#[test]
fn funcall_arity_mismatch_signals_wae() {
    let (table, ids, conditions, mut heap) = setup();
    let f = make_function(&mut LiteralPool::new(), &mut heap, &ids, "echo1", 1, ECHO1, 0, 0);
    let a = Word::from_fixnum(1).unwrap();
    let b = Word::from_fixnum(2).unwrap();
    let condition = match nod_funcall2(&mut heap, &ids, f.raw(), a.raw(), b.raw()) {
        CallAction::Signal { condition } => condition,
        _ => panic!("arity mismatch must panic"),
    };
    let outcome = nod_signal(
        &table,
        &conditions,
        &heap,
        &HandlerState::new(),
        &BlockRegistry::new(),
        condition,
    );
    let msg = match outcome {
        SignalAction::Fail { message } => message,
        _ => panic!("arity mismatch must panic"),
    };
    assert!(
        msg.contains("<wrong-number-of-arguments-error>"),
        "expected WAE in panic message, got: {msg}"
    );
}

#[test]
fn calling_what_is_no_function_fails() {
    let (_, ids, _, mut heap) = setup();
    let three = Word::from_fixnum(3).unwrap().raw();
    match nod_funcall2(&mut heap, &ids, three, 0, 0) {
        CallAction::Fail { message } => assert_eq!(
            message,
            "nod_funcall*: argument is not a <function> Word (raw = 0x6)"
        ),
        _ => panic!("a fixnum is no function"),
    }
    match nod_funcall0(&mut heap, &ids, three) {
        CallAction::Signal { condition } => {
            let c = Word::from_raw(condition);
            assert!(heap.is_instance(c, ids.wrong_number_of_arguments_error));
        }
        _ => panic!("a fixnum has the wrong number of arguments"),
    }
}

#[test]
fn closures_get_their_environment_as_an_argument() {
    let (_, ids, _, mut heap) = setup();
    let mut functions = FunctionTable::new();
    register_jit_function(&mut functions, "inner", 1, ADD2);
    let name = heap.alloc_text("inner").raw();
    let env = heap.alloc_simple_object_vector(0).raw();
    let arity = Word::from_fixnum(1).unwrap().raw();
    let mut literals = LiteralPool::new();
    let f = nod_make_closure(&functions, &mut literals, &mut heap, &ids, name, arity, env).unwrap();
    let f = Word::from_raw(f);
    assert_eq!(function_kind_tag(&heap, f), Some(FUNCTION_KIND_CLOSURE));
    assert_eq!(function_env_ptr(&heap, f), Some(env));
    let action = nod_funcall1(
        &mut heap,
        &ids,
        &nod_runtime::conditions::ensure_registered(&mut ClassTable::new()),
        f.raw(),
        8,
    );
    match action {
        CallAction::Run { code, args } => {
            assert_eq!(code, ADD2);
            assert_eq!(args, vec![env, 8]);
        }
        _ => panic!("a closure is run"),
    }
    assert_eq!(FUNCTION_KIND_TOP_LEVEL, 0);
    assert_eq!(FUNCTION_KIND_LIFTED_ANON, 1);
}

#[test]
fn apply_spreads_a_vector() {
    let (_, ids, _, mut heap) = setup();
    let f = make_function(&mut LiteralPool::new(), &mut heap, &ids, "add2", 2, ADD2, 0, 0);
    let v = heap.alloc_simple_object_vector(2);
    heap.set_cell(v, 0, Word::from_fixnum(40).unwrap());
    heap.set_cell(v, 1, Word::from_fixnum(2).unwrap());
    let result = run(nod_apply(&mut heap, &ids, f.raw(), v.raw()));
    assert_eq!(Word::from_raw(result).as_fixnum(), Some(42));
}

#[test]
fn apply_refuses_more_arguments_than_a_call_passes() {
    let (_, ids, _, mut heap) = setup();
    let f = make_function(&mut LiteralPool::new(), &mut heap, &ids, "nine", 9, ADD2, 0, 0);
    let v = heap.alloc_simple_object_vector(9);
    match nod_apply(&mut heap, &ids, f.raw(), v.raw()) {
        CallAction::Signal { condition } => {
            let c = Word::from_raw(condition);
            assert!(heap.is_instance(c, ids.wrong_number_of_arguments_error));
        }
        _ => panic!("nine arguments are too many"),
    }
    match nod_apply(&mut heap, &ids, f.raw(), f.raw()) {
        CallAction::Fail { message } => assert!(message.starts_with("nod_apply: args is not a")),
        _ => panic!("a function is no vector"),
    }
}

#[test]
fn references_to_a_function_are_shared() {
    let (_, ids, _, mut heap) = setup();
    let mut functions = FunctionTable::new();
    let mut generics = GenericTable::new();
    let mut literals = LiteralPool::new();
    assert_eq!(make_function_ref(&mut functions, &mut generics, &mut literals, &mut heap, &ids, "f", 1), None);
    register_rust_function(&mut functions, "f", 1, ECHO1);
    assert_eq!(lookup_function_code(&functions, "f", 1), Some(ECHO1));
    assert_eq!(lookup_function_code(&functions, "f", 2), None);
    let a = make_function_ref(&mut functions, &mut generics, &mut literals, &mut heap, &ids, "f", 1).unwrap();
    let b = make_function_ref(&mut functions, &mut generics, &mut literals, &mut heap, &ids, "f", 1).unwrap();
    assert_eq!(a, b);
    let name = heap.alloc_text("f").raw();
    let arity = Word::from_fixnum(1).unwrap().raw();
    let c = nod_make_function_ref(&mut functions, &mut generics, &mut literals, &mut heap, &ids, name, arity);
    assert_eq!(c, Ok(a.raw()));
    let unknown = heap.alloc_text("g").raw();
    let refused =
        nod_make_function_ref(&mut functions, &mut generics, &mut literals, &mut heap, &ids, unknown, arity);
    assert!(refused.unwrap_err().contains('g'));
    _reset_function_registry_for_tests(&mut functions);
    assert_eq!(lookup_function_code(&functions, "f", 1), None);
}

#[test]
fn references_to_a_generic_go_through_its_handle() {
    let (table, ids, _, mut heap) = setup();
    let mut functions = FunctionTable::new();
    let mut generics = GenericTable::new();
    let mut literals = LiteralPool::new();
    add_method(&mut generics, "speak", table.integer(), ECHO1, 1);
    let f = make_function_ref(&mut functions, &mut generics, &mut literals, &mut heap, &ids, "speak", 1).unwrap();
    assert_eq!(function_kind_tag(&heap, f), Some(FUNCTION_KIND_GENERIC_TRAMPOLINE));
    let handle = function_env_ptr(&heap, f).unwrap();
    assert_eq!(generic_of_handle(&generics, handle), find_generic(&generics, "speak"));
    let conditions = nod_runtime::conditions::ensure_registered(&mut ClassTable::new());
    match nod_funcall1(&mut heap, &ids, &conditions, f.raw(), 8) {
        CallAction::Dispatch { generic, args } => {
            assert_eq!(generic, handle);
            assert_eq!(args, vec![8]);
        }
        _ => panic!("a generic is dispatched"),
    }
    let name = heap.alloc_text("speak").raw();
    let arity = Word::from_fixnum(1).unwrap().raw();
    let again = nod_make_function_ref(&mut functions, &mut generics, &mut literals, &mut heap, &ids, name, arity);
    assert_eq!(again, Ok(f.raw()));
}

#[test]
fn references_by_word_name_registered_code_before_generics() {
    let (table, ids, _, mut heap) = setup();
    let mut functions = FunctionTable::new();
    let mut generics = GenericTable::new();
    let mut literals = LiteralPool::new();
    add_method(&mut generics, "both", table.integer(), ECHO1, 1);
    register_jit_function(&mut functions, "both", 1, ADD2);
    let name = heap.alloc_text("both").raw();
    let arity = Word::from_fixnum(1).unwrap().raw();
    let f = nod_make_function_ref(&mut functions, &mut generics, &mut literals, &mut heap, &ids, name, arity);
    let f = Word::from_raw(f.unwrap());
    assert_eq!(function_kind_tag(&heap, f), Some(FUNCTION_KIND_TOP_LEVEL));
    assert_eq!(function_env_ptr(&heap, f), Some(0));
    assert_eq!(generics.generic_count(), 1);
    let conditions = nod_runtime::conditions::ensure_registered(&mut ClassTable::new());
    match nod_funcall1(&mut heap, &ids, &conditions, f.raw(), 8) {
        CallAction::Run { code, args } => {
            assert_eq!(code, ADD2);
            assert_eq!(args, vec![8]);
        }
        _ => panic!("registered code is run"),
    }
    let unknown = heap.alloc_text("neither").raw();
    let refused =
        nod_make_function_ref(&mut functions, &mut generics, &mut literals, &mut heap, &ids, unknown, arity);
    assert!(refused.is_err());
    assert_eq!(generics.generic_count(), 1);
}

#[test]
fn operators_compute_on_fixnums() {
    let f = |n: i64| Word::from_fixnum(n).unwrap().raw();
    let imm = literal_pool_immediates();
    let heap = Heap::new();
    assert_eq!(nod_op_plus(f(2), f(3)), f(5));
    assert_eq!(nod_op_minus(f(2), f(3)), f(-1));
    assert_eq!(nod_op_times(f(-4), f(3)), f(-12));
    assert_eq!(nod_op_times(f(FIXNUM_MAX), f(2)), f(0));
    assert_eq!(nod_op_plus(f(FIXNUM_MAX), f(1)), f(0));
    assert_eq!(nod_op_lt(f(1), f(2)), imm.true_.raw());
    assert_eq!(nod_op_gt(f(1), f(2)), imm.false_.raw());
    assert_eq!(nod_op_eq(f(7), f(7)), imm.true_.raw());
    assert_eq!(nod_op_eq_eq(f(7), f(8)), imm.false_.raw());
    assert_eq!(nod_op_ne(&heap, f(7), f(8)), imm.true_.raw());
    assert_eq!(nod_op_ne_eq(f(7), f(7)), imm.false_.raw());
}

#[test]
fn strings_and_boxed_numbers_are_compared_by_contents() {
    let imm = literal_pool_immediates();
    let table = ClassTable::new();
    let mut heap = Heap::new();
    let a = heap.alloc_text("same").raw();
    let b = heap.alloc_text("same").raw();
    let c = heap.alloc_text("other").raw();
    assert_eq!(nod_op_ne(&heap, a, b), imm.false_.raw());
    assert_eq!(nod_op_ne(&heap, a, c), imm.true_.raw());
    let bits = |x: f64| vec![Word::from_raw(x.to_bits())];
    let x = heap.alloc_cells(table.double_float(), bits(1.5)).raw();
    let y = heap.alloc_cells(table.double_float(), bits(1.5)).raw();
    let z = heap.alloc_cells(table.double_float(), bits(2.5)).raw();
    let single = heap.alloc_cells(table.single_float(), bits(1.5)).raw();
    assert_eq!(nod_op_ne(&heap, x, y), imm.false_.raw());
    assert_eq!(nod_op_ne_eq(x, y), imm.true_.raw());
    assert_eq!(nod_op_ne(&heap, x, z), imm.true_.raw());
    assert_eq!(nod_op_ne(&heap, x, single), imm.true_.raw());
    let v = heap.alloc_simple_object_vector(1).raw();
    let w = heap.alloc_simple_object_vector(1).raw();
    assert_eq!(nod_op_ne(&heap, v, w), imm.true_.raw());
}

#[test]
fn instances_are_tested_by_class_word() {
    let table = ClassTable::new();
    let heap = Heap::new();
    let imm = literal_pool_immediates();
    let n = Word::from_fixnum(1).unwrap().raw();
    let integer = class_metadata_address(table.integer()) + 1;
    let string = class_metadata_address(table.string()) + 1;
    let object = class_metadata_address(table.object()) + 1;
    assert_eq!(nod_instance_p(&table, &heap, n, integer), imm.true_.raw());
    assert_eq!(nod_instance_p(&table, &heap, n, object), imm.true_.raw());
    assert_eq!(nod_instance_p(&table, &heap, n, string), imm.false_.raw());
    assert_eq!(nod_instance_p(&table, &heap, n, n), imm.false_.raw());
}

#[test]
fn operators_are_registered_as_functions_of_two_arguments() {
    let mut functions = FunctionTable::new();
    let code = OperatorCode {
        plus: 1,
        minus: 2,
        times: 3,
        eq: 4,
        lt: 5,
        gt: 6,
        eq_eq: 7,
        ne: 8,
        ne_eq: 9,
        instance: 10,
    };
    ensure_operator_shims_registered(&mut functions, code);
    for (name, expected) in [("+", 1), ("*", 3), ("~==", 9), ("instance?", 10)] {
        assert_eq!(lookup_function_code(&functions, name, 2), Some(expected));
    }
    assert_eq!(lookup_function_code(&functions, "+", 1), None);
}

#[test]
fn equal_function_names_are_one_object() {
    let (_, ids, _, mut heap) = setup();
    let mut literals = LiteralPool::new();
    let a = make_function(&mut literals, &mut heap, &ids, "echo", 1, ECHO1, 0, 0);
    let b = make_function(&mut literals, &mut heap, &ids, "echo", 2, ADD2, 0, 0);
    assert_ne!(a, b);
    assert_eq!(heap.cell(a, 0), heap.cell(b, 0));
    let name = intern_string_literal(&mut literals, &mut heap, "echo");
    assert_eq!(heap.cell(a, 0), Some(name));
}
