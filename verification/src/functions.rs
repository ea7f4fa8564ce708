//! First-class functions.
//!
//! A `<function>` object carries a name, an arity, the address of its code, a
//! kind and an environment. Calling one checks the argument count and then
//! comes to one of a few actions: run the code, run it with the environment in
//! front, dispatch a generic, leave a block, or signal. Function references are
//! made once per name and arity and shared.

use vstd::prelude::*;
use vstd::string::*;
use vstd::utf8::{encode_utf8, encode_utf8_decode_utf8, encode_utf8_valid_utf8, valid_utf8};

use crate::classes::{
    is_subclass, ClassId, ClassTable, SlotDefault, SlotType, TableView,
};
use crate::collections::{push_keeps_wf, vector_at};
use crate::conditions::{
    condition_decls, exit_block, exit_procedure_block_id, ConditionClasses, NlxPayload,
};
use crate::declare::{
    decl_views, decl_weight, declare_all, declared_class_inherits, seeds_are_registered, slot,
    slot_decl, ClassDecl, DeclView,
};
use crate::generics::{
    decode_byte_string_to_string, get_or_create_generic, held_text, is_generic_defined,
    GenericTable, GenericsView,
};
use crate::heap::{
    bytes_object, cell_at, cells_object, class_at, heap_room, heap_wf, index_of, object_at,
    word_of, zero_word, Heap, ObjectView, HEAP_LIMIT,
};
use crate::literals::{
    heap_with_literal, intern_string_literal, literal_holds_its_text, literal_of, literals_hold,
    literals_hold_on_grown_heap, pool_with_literal, LiteralPool,
};
use crate::text::{
    decimal_digits, decimal_unsigned, hex_digits, hexadecimal, same_text,
};
use crate::word::{fixnum, Word, FIXNUM_MAX};

verus! {

/// Most arguments that `apply` unpacks.
pub const MAX_APPLY_ARITY: usize = 8;

/// A function defined at top level.
pub const FUNCTION_KIND_TOP_LEVEL: u32 = 0;

/// An anonymous function without captured variables.
pub const FUNCTION_KIND_LIFTED_ANON: u32 = 1;

/// A closure: its code takes the environment as its first argument.
pub const FUNCTION_KIND_CLOSURE: u32 = 2;

/// A reference to a generic function: calling it dispatches.
pub const FUNCTION_KIND_GENERIC_TRAMPOLINE: u32 = 3;

// ----- classes -----

/// The function classes.
pub open spec fn function_decls() -> Seq<DeclView> {
    seq![
        DeclView {
            name: "<function>"@,
            parent: "<object>"@,
            slots: seq![
                slot_decl("name"@, "function-name"@, SlotType::String, SlotDefault::Unbound, false),
                slot_decl("arity"@, "arity"@, SlotType::Integer, SlotDefault::Unbound, false),
                slot_decl("code-ptr"@, "code-ptr"@, SlotType::Integer, SlotDefault::Unbound, false),
                slot_decl("kind-tag"@, "kind-tag"@, SlotType::Integer, SlotDefault::Unbound, false),
                slot_decl("env-ptr"@, "env-ptr"@, SlotType::Object, SlotDefault::Unbound, false),
                slot_decl(
                    "return-type"@,
                    "return-type"@,
                    SlotType::Integer,
                    SlotDefault::Unbound,
                    false,
                ),
            ],
        },
        DeclView {
            name: "<wrong-number-of-arguments-error>"@,
            parent: "<error>"@,
            slots: seq![
                slot_decl("function"@, "function"@, SlotType::Integer, SlotDefault::Unbound, false),
                slot_decl("expected"@, "expected"@, SlotType::Integer, SlotDefault::Unbound, false),
                slot_decl("got"@, "got"@, SlotType::Integer, SlotDefault::Unbound, false),
            ],
        },
    ]
}

fn build_function_decls() -> (v: Vec<ClassDecl>)
    ensures
        decl_views(v@) == function_decls(),
{
    let v = vec![
        ClassDecl {
            name: "<function>",
            parent: "<object>",
            slots: vec![
                slot("name", "function-name", SlotType::String, SlotDefault::Unbound, false),
                slot("arity", "arity", SlotType::Integer, SlotDefault::Unbound, false),
                slot("code-ptr", "code-ptr", SlotType::Integer, SlotDefault::Unbound, false),
                slot("kind-tag", "kind-tag", SlotType::Integer, SlotDefault::Unbound, false),
                slot("env-ptr", "env-ptr", SlotType::Object, SlotDefault::Unbound, false),
                slot("return-type", "return-type", SlotType::Integer, SlotDefault::Unbound, false),
            ],
        },
        ClassDecl {
            name: "<wrong-number-of-arguments-error>",
            parent: "<error>",
            slots: vec![
                slot("function", "function", SlotType::Integer, SlotDefault::Unbound, false),
                slot("expected", "expected", SlotType::Integer, SlotDefault::Unbound, false),
                slot("got", "got", SlotType::Integer, SlotDefault::Unbound, false),
            ],
        },
    ];
    assert(decl_views(v@) =~~= function_decls());
    v
}

/// Upper bound on the ids and slots that registering these classes takes.
pub const FUNCTION_ROOM: i64 = 37;

/// The superclasses of these classes are known, and this is what they take.
pub proof fn function_decls_fit(t: TableView)
    requires
        t.wf(),
        t.named("<error>"@) is Some,
    ensures
        t.knows_parents(function_decls()),
        decl_weight(function_decls()) == 11,
{
    let ds = function_decls();
    seeds_are_registered(t, 0);
    assert forall|i: int| 0 <= i < ds.len() implies t.named((#[trigger] ds[i]).parent) is Some
        || exists|j: int| 0 <= j < i && ds[j].name == ds[i].parent by {
    }
    reveal_with_fuel(decl_weight, 3);
}

/// No two of these classes share a name.
proof fn function_names_differ(i: int, j: int)
    requires
        0 <= i < j < function_decls().len(),
    ensures
        function_decls()[i].name != function_decls()[j].name,
{
    reveal_strlit("<function>");
    reveal_strlit("<wrong-number-of-arguments-error>");
    let ds = function_decls();
    assert(ds[0].name == "<function>"@ && ds[0].name.len() == 10);
    assert(ds[1].name == "<wrong-number-of-arguments-error>"@ && ds[1].name.len() == 33);
}

/// Functions are objects, and calling one with the wrong number of arguments is
/// an error.
pub proof fn function_hierarchy(t: TableView, i: int, ancestor: ClassId)
    requires
        t.wf(),
        t.lists_headed(),
        t.ids_identify(),
        t.next_user_id + function_decls().len() <= ClassId::FIRST_SHIM,
        t.next_shim_id + function_decls().len() <= u32::MAX,
        t.named("<error>"@) is Some,
        0 <= i < function_decls().len(),
        t.named(function_decls()[i].name) is None,
    ensures
        ({
            let u = t.declared_all(function_decls());
            let d = function_decls()[i];
            &&& u.subclass(u.named(d.name)->0, u.named(d.parent)->0)
            &&& u.lookup(u.named(d.name)->0)->0.parent == u.named(d.parent)
            &&& u.subclass(u.named(d.parent)->0, ancestor) ==> u.subclass(
                u.named(d.name)->0,
                ancestor,
            )
        }),
{
    let ds = function_decls();
    function_decls_fit(t);
    assert forall|j: int| 0 <= j < i implies (#[trigger] ds[j]).name != ds[i].name by {
        function_names_differ(j, i);
    }
    declared_class_inherits(t, ds, i, ancestor);
}

/// The ids of these classes.
#[derive(Clone, Copy, PartialEq, Eq, Structural, Debug)]
pub struct FunctionClasses {
    pub function: ClassId,
    pub wrong_number_of_arguments_error: ClassId,
}

/// The ids of these classes in a table.
pub open spec fn function_classes(t: TableView) -> FunctionClasses {
    FunctionClasses {
        function: t.named("<function>"@)->0,
        wrong_number_of_arguments_error: t.named("<wrong-number-of-arguments-error>"@)->0,
    }
}

/// The table after registering these classes and those that they build on.
pub open spec fn with_function_classes(t: TableView) -> TableView {
    t.declared_all(condition_decls()).declared_all(function_decls())
}

/// Registers these classes, unless they are there.
pub fn ensure_registered(table: &mut ClassTable) -> (ids: FunctionClasses)
    requires
        old(table)@.wf(),
        old(table)@.room(FUNCTION_ROOM as int),
    ensures
        final(table)@ == with_function_classes(old(table)@),
        final(table)@.wf(),
        ids == function_classes(final(table)@),
        forall|i: int|
            0 <= i < function_decls().len() ==> final(table)@.named(
                (#[trigger] function_decls()[i]).name,
            ) is Some,
        forall|n: int| #![trigger final(table)@.room(n)]
            n >= 0 && old(table)@.room(n + FUNCTION_ROOM) ==> final(table)@.room(n),
{
    let _ = crate::conditions::ensure_registered(table);
    proof {
        assert(condition_decls()[3].name == "<error>"@);
        assert(old(table)@.room(37int));
        function_decls_fit(table@);
        assert(table@.room(11));
    }
    let ghost mid = table@;
    let decls = build_function_decls();
    declare_all(table, &decls);
    proof {
        let ds = function_decls();
        assert forall|i: int| 0 <= i < ds.len() implies table@.named((#[trigger] ds[i]).name)
            is Some by {
            assert(ds[i] == decls@[i]@);
        }
        assert(ds[0].name == "<function>"@);
        assert(ds[1].name == "<wrong-number-of-arguments-error>"@);
        assert forall|n: int| #![trigger table@.room(n)]
            n >= 0 && old(table)@.room(n + FUNCTION_ROOM) implies table@.room(n) by {
            assert(mid.room(n + 11));
        }
    }
    FunctionClasses {
        function: table.find_by_name("<function>").unwrap(),
        wrong_number_of_arguments_error: table.find_by_name(
            "<wrong-number-of-arguments-error>",
        ).unwrap(),
    }
}

/// The id of `<function>`, registered if need be.
pub fn function_class_id(table: &mut ClassTable) -> (id: ClassId)
    requires
        old(table)@.wf(),
        old(table)@.room(FUNCTION_ROOM as int),
    ensures
        final(table)@ == with_function_classes(old(table)@),
        final(table)@.named("<function>"@) == Some(id),
        final(table)@.wf(),
        forall|n: int| #![trigger final(table)@.room(n)]
            n >= 0 && old(table)@.room(n + FUNCTION_ROOM) ==> final(table)@.room(n),
{
    let ids = ensure_registered(table);
    assert(function_decls()[0].name == "<function>"@);
    ids.function
}

/// The id of `<wrong-number-of-arguments-error>`, registered if need be.
pub fn wrong_number_of_arguments_error_class_id(table: &mut ClassTable) -> (id: ClassId)
    requires
        old(table)@.wf(),
        old(table)@.room(FUNCTION_ROOM as int),
    ensures
        final(table)@ == with_function_classes(old(table)@),
        final(table)@.named("<wrong-number-of-arguments-error>"@) == Some(id),
        final(table)@.wf(),
        forall|n: int| #![trigger final(table)@.room(n)]
            n >= 0 && old(table)@.room(n + FUNCTION_ROOM) ==> final(table)@.room(n),
{
    let ids = ensure_registered(table);
    assert(function_decls()[1].name == "<wrong-number-of-arguments-error>"@);
    ids.wrong_number_of_arguments_error
}

// ----- function objects -----

/// A function object.
pub open spec fn function_object(
    ids: FunctionClasses,
    name: Word,
    arity: u64,
    code: u64,
    kind: u64,
    env: u64,
) -> ObjectView {
    cells_object(
        ids.function,
        seq![
            name,
            Word { raw: arity },
            Word { raw: code },
            Word { raw: kind },
            Word { raw: env },
            zero_word(),
        ],
    )
}

/// The heap after making a function, whose name is a literal.
pub open spec fn with_function(
    literals: Seq<(Seq<char>, u64)>,
    h: Seq<ObjectView>,
    ids: FunctionClasses,
    name: Seq<char>,
    arity: u64,
    code: u64,
    kind: u64,
    env: u64,
) -> Seq<ObjectView> {
    heap_with_literal(literals, h, name).push(
        function_object(ids, literal_of(literals, h, name), arity, code, kind, env),
    )
}

/// The word of the next function that is made under a name.
pub open spec fn next_function(
    literals: Seq<(Seq<char>, u64)>,
    h: Seq<ObjectView>,
    name: Seq<char>,
) -> Word {
    word_of(heap_with_literal(literals, h, name).len() as int)
}

/// Makes a function.
pub fn make_function(
    literals: &mut LiteralPool,
    heap: &mut Heap,
    ids: &FunctionClasses,
    name: &str,
    arity: usize,
    code_ptr: u64,
    kind_tag: u32,
    env_ptr: u64,
) -> (f: Word)
    requires
        heap_wf(old(heap)@),
        heap_room(old(heap)@, 2),
    ensures
        f == next_function(old(literals)@, old(heap)@, name@),
        final(literals)@ == pool_with_literal(old(literals)@, old(heap)@, name@),
        final(heap)@ == with_function(
            old(literals)@,
            old(heap)@,
            *ids,
            name@,
            arity as u64,
            code_ptr,
            kind_tag as u64,
            env_ptr,
        ),
        heap_wf(final(heap)@),
{
    let n = intern_string_literal(literals, heap, name);
    let cells = vec![
        n,
        Word::from_raw(arity as u64),
        Word::from_raw(code_ptr),
        Word::from_raw(kind_tag as u64),
        Word::from_raw(env_ptr),
        Word::from_raw(0),
    ];
    proof {
        assert(cells_object(ids.function, cells@) =~= function_object(
            *ids,
            n,
            arity as u64,
            code_ptr,
            kind_tag as u64,
            env_ptr,
        ));
        push_keeps_wf(heap@, cells_object(ids.function, cells@));
    }
    heap.alloc_cells(ids.function, cells)
}

/// The bits of a cell of a function.
pub open spec fn function_bits(h: Seq<ObjectView>, f: Word, i: int) -> Option<u64> {
    match cell_at(h, f, i) {
        Some(w) => Some(w.raw),
        None => None,
    }
}

fn function_cell(heap: &Heap, f: Word, i: usize) -> (bits: Option<u64>)
    ensures
        bits == function_bits(heap@, f, i as int),
{
    match heap.cell(f, i) {
        Some(w) => Some(w.raw()),
        None => None,
    }
}

/// The address of a function's code.
pub fn function_code_ptr(heap: &Heap, f: Word) -> (code: Option<u64>)
    ensures
        code == function_bits(heap@, f, 2),
{
    function_cell(heap, f, 2)
}

/// The arity of a function.
pub fn function_arity(heap: &Heap, f: Word) -> (arity: Option<u64>)
    ensures
        arity == function_bits(heap@, f, 1),
{
    function_cell(heap, f, 1)
}

/// The kind of a function.
pub open spec fn kind_at(h: Seq<ObjectView>, f: Word) -> Option<u32> {
    match function_bits(h, f, 3) {
        Some(bits) => Some((bits % 0x1_0000_0000) as u32),
        None => None,
    }
}

/// The kind of a function.
pub fn function_kind_tag(heap: &Heap, f: Word) -> (kind: Option<u32>)
    ensures
        kind == kind_at(heap@, f),
{
    match function_cell(heap, f, 3) {
        Some(bits) => Some((bits % 0x1_0000_0000) as u32),
        None => None,
    }
}

/// The environment of a function; zero for one that captures nothing.
pub fn function_env_ptr(heap: &Heap, f: Word) -> (env: Option<u64>)
    ensures
        env == function_bits(heap@, f, 4),
{
    function_cell(heap, f, 4)
}

/// The name of a function.
pub open spec fn name_at(h: Seq<ObjectView>, f: Word) -> Option<Seq<char>> {
    match cell_at(h, f, 0) {
        Some(w) => held_text(h, w),
        None => None,
    }
}

/// The name of a function.
pub fn function_name(heap: &Heap, f: Word) -> (name: Option<String>)
    ensures
        name is Some <==> name_at(heap@, f) is Some,
        name is Some ==> name->0@ == name_at(heap@, f)->0,
{
    match heap.cell(f, 0) {
        Some(w) => decode_byte_string_to_string(heap, w),
        None => None,
    }
}

/// Whether a word is a function.
pub fn is_function(table: &ClassTable, ids: &FunctionClasses, heap: &Heap, w: Word) -> (b: bool)
    ensures
        b == match class_at(heap@, w) {
            Some(c) => table@.subclass(c, ids.function),
            None => false,
        },
{
    match heap.class_of(w) {
        Some(c) => is_subclass(table, c, ids.function),
        None => false,
    }
}

/// A function gives back what it was made with.
pub proof fn function_round_trip(
    literals: Seq<(Seq<char>, u64)>,
    h: Seq<ObjectView>,
    ids: FunctionClasses,
    name: Seq<char>,
    arity: u64,
    code: u64,
    kind: u32,
    env: u64,
)
    requires
        heap_wf(h),
        heap_room(h, 2),
        literals_hold(literals, h),
    ensures
        ({
            let g = with_function(literals, h, ids, name, arity, code, kind as u64, env);
            let f = next_function(literals, h, name);
            &&& class_at(g, f) == Some(ids.function)
            &&& name_at(g, f) == Some(name)
            &&& function_bits(g, f, 1) == Some(arity)
            &&& function_bits(g, f, 2) == Some(code)
            &&& kind_at(g, f) == Some(kind)
            &&& function_bits(g, f, 4) == Some(env)
            &&& literals_hold(pool_with_literal(literals, h, name), g)
        }),
{
    let base = heap_with_literal(literals, h, name);
    let g = with_function(literals, h, ids, name, arity, code, kind as u64, env);
    let m = literal_of(literals, h, name);
    literal_holds_its_text(literals, h, name);
    assert(g.take(base.len() as int) =~= base);
    literals_hold_on_grown_heap(pool_with_literal(literals, h, name), base, g);
    let n = base.len() as int;
    assert(g[n] == function_object(ids, m, arity, code, kind as u64, env));
    assert(cell_at(g, word_of(n), 0) == Some(m));
    assert(g[index_of(m)] == base[index_of(m)]);
    encode_utf8_valid_utf8(name);
    encode_utf8_decode_utf8(name);
}

// ----- argument count errors -----

/// A count as a fixnum; zero stands for a count that is too large.
pub open spec fn count_word(n: u64) -> Word {
    if n <= FIXNUM_MAX {
        fixnum(n as int)
    } else {
        zero_word()
    }
}

/// A `<wrong-number-of-arguments-error>` object.
pub open spec fn wrong_count_object(
    ids: FunctionClasses,
    function: Word,
    expected: u64,
    got: u64,
) -> ObjectView {
    cells_object(
        ids.wrong_number_of_arguments_error,
        seq![function, count_word(expected), count_word(got)],
    )
}

fn make_count_word(n: u64) -> (w: Word)
    ensures
        w == count_word(n),
{
    if n <= FIXNUM_MAX as u64 {
        Word::fixnum_unchecked(n as i64)
    } else {
        Word::from_raw(0)
    }
}

/// Makes a `<wrong-number-of-arguments-error>` that carries a function and two
/// counts.
pub fn make_wrong_number_of_arguments_error(
    heap: &mut Heap,
    ids: &FunctionClasses,
    function: Word,
    expected: u64,
    got: u64,
) -> (w: Word)
    requires
        heap_wf(old(heap)@),
        heap_room(old(heap)@, 1),
    ensures
        w == word_of(old(heap)@.len() as int),
        final(heap)@ == old(heap)@.push(wrong_count_object(*ids, function, expected, got)),
        heap_wf(final(heap)@),
{
    let cells = vec![function, make_count_word(expected), make_count_word(got)];
    assert(cells@ =~= seq![function, count_word(expected), count_word(got)]);
    proof {
        push_keeps_wf(heap@, cells_object(ids.wrong_number_of_arguments_error, cells@));
    }
    heap.alloc_cells(ids.wrong_number_of_arguments_error, cells)
}

// ----- calling -----

/// What calling a function comes to.
pub enum CallAction {
    /// Run the code with these arguments.
    Run { code: u64, args: Vec<u64> },
    /// Dispatch the generic behind this handle on these arguments.
    Dispatch { generic: u64, args: Vec<u64> },
    /// Leave a block.
    Exit { exit: NlxPayload },
    /// Signal this condition.
    Signal { condition: u64 },
    /// The call makes no sense; this says why.
    Fail { message: String },
}

/// What is said of a word that is called but is no function.
pub open spec fn not_a_function(f: Word) -> Seq<char> {
    "nod_funcall*: argument is not a <function> Word (raw = 0x"@ + hex_digits(f.raw as nat) + ")"@
}

/// What is said of a reference to a generic that has lost its generic.
pub open spec fn no_generic_behind(f: Word) -> Seq<char> {
    "generic-trampoline <function> Word at 0x"@ + hex_digits(f.raw as nat)
        + " has null env-ptr — registration is broken"@
}

/// The environment of a function, zero if it has none.
pub open spec fn env_or_zero(h: Seq<ObjectView>, f: Word) -> u64 {
    match function_bits(h, f, 4) {
        Some(e) => e,
        None => 0,
    }
}

/// The action runs a function of the right arity: a reference to a generic
/// dispatches it, a closure gets its environment as its first argument.
pub open spec fn runs_function(
    h: Seq<ObjectView>,
    f: Word,
    args: Seq<u64>,
    action: CallAction,
) -> bool {
    let env = env_or_zero(h, f);
    if kind_at(h, f) == Some(FUNCTION_KIND_GENERIC_TRAMPOLINE) {
        if env == 0 {
            action matches CallAction::Fail { message } && message@ == no_generic_behind(f)
        } else {
            action matches CallAction::Dispatch { generic, args: passed } && generic == env
                && passed@ == args
        }
    } else {
        match function_bits(h, f, 2) {
            None => action matches CallAction::Fail { message } && message@ == not_a_function(f),
            Some(c) => action matches CallAction::Run { code, args: passed } && code == c
                && passed@ == if env == 0 {
                args
            } else {
                seq![env] + args
            },
        }
    }
}

/// The action answers a call.
pub open spec fn call_answered(
    ids: FunctionClasses,
    before: Seq<ObjectView>,
    after: Seq<ObjectView>,
    f: Word,
    args: Seq<u64>,
    action: CallAction,
) -> bool {
    match function_bits(before, f, 1) {
        None => after == before && (action matches CallAction::Fail { message } && message@
            == not_a_function(f)),
        Some(arity) => if arity != args.len() {
            &&& after == before.push(wrong_count_object(ids, f, args.len() as u64, arity))
            &&& action matches CallAction::Signal { condition } && condition == word_of(
                before.len() as int,
            ).raw
        } else {
            after == before && runs_function(before, f, args, action)
        },
    }
}

fn fail_not_a_function(f: Word) -> (action: CallAction)
    ensures
        action matches CallAction::Fail { message } && message@ == not_a_function(f),
{
    let mut message = String::from_str("nod_funcall*: argument is not a <function> Word (raw = 0x");
    message.append(hexadecimal(f.raw()).as_str());
    message.append(")");
    CallAction::Fail { message }
}

fn run_function(heap: &Heap, f: Word, args: Vec<u64>) -> (action: CallAction)
    ensures
        runs_function(heap@, f, args@, action),
{
    let env: u64 = match function_env_ptr(heap, f) {
        Some(e) => e,
        None => 0,
    };
    let trampoline = match function_kind_tag(heap, f) {
        Some(k) => k == FUNCTION_KIND_GENERIC_TRAMPOLINE,
        None => false,
    };
    if trampoline {
        if env == 0 {
            let mut message = String::from_str("generic-trampoline <function> Word at 0x");
            message.append(hexadecimal(f.raw()).as_str());
            message.append(" has null env-ptr — registration is broken");
            return CallAction::Fail { message };
        }
        return CallAction::Dispatch { generic: env, args };
    }
    match function_code_ptr(heap, f) {
        None => fail_not_a_function(f),
        Some(code) => {
            if env == 0 {
                CallAction::Run { code, args }
            } else {
                let ghost given = args@;
                let mut passed = args;
                passed.insert(0, env);
                assert(passed@ =~= seq![env] + given);
                CallAction::Run { code, args: passed }
            }
        },
    }
}

/// Calls a function with some arguments.
pub fn funcall(heap: &mut Heap, ids: &FunctionClasses, f: Word, args: Vec<u64>) -> (action:
    CallAction)
    requires
        heap_wf(old(heap)@),
        heap_room(old(heap)@, 1),
    ensures
        call_answered(*ids, old(heap)@, final(heap)@, f, args@, action),
        heap_wf(final(heap)@),
{
    let arity = match function_arity(heap, f) {
        Some(a) => a,
        None => return fail_not_a_function(f),
    };
    let count: u64 = args.len() as u64;
    if arity != count {
        let condition = make_wrong_number_of_arguments_error(heap, ids, f, count, arity);
        return CallAction::Signal { condition: condition.raw() };
    }
    run_function(heap, f, args)
}

/// Calls a function without arguments. A word that is no function has the wrong
/// number of arguments.
pub fn nod_funcall0(heap: &mut Heap, ids: &FunctionClasses, f_raw: u64) -> (action: CallAction)
    requires
        heap_wf(old(heap)@),
        heap_room(old(heap)@, 1),
    ensures
        ({
            let f = Word { raw: f_raw };
            match function_bits(old(heap)@, f, 1) {
                None => {
                    &&& final(heap)@ == old(heap)@.push(wrong_count_object(*ids, f, 0, 0))
                    &&& action matches CallAction::Signal { condition } && condition == word_of(
                        old(heap)@.len() as int,
                    ).raw
                },
                Some(_) => call_answered(
                    *ids,
                    old(heap)@,
                    final(heap)@,
                    f,
                    Seq::<u64>::empty(),
                    action,
                ),
            }
        }),
        heap_wf(final(heap)@),
{
    let f = Word::from_raw(f_raw);
    if function_arity(heap, f).is_none() {
        let condition = make_wrong_number_of_arguments_error(heap, ids, f, 0, 0);
        return CallAction::Signal { condition: condition.raw() };
    }
    let args: Vec<u64> = Vec::new();
    assert(args@ =~= Seq::<u64>::empty());
    funcall(heap, ids, f, args)
}

/// Calls a function, or an exit procedure, with one argument.
pub fn nod_funcall1(
    heap: &mut Heap,
    ids: &FunctionClasses,
    conditions: &ConditionClasses,
    f_raw: u64,
    a: u64,
) -> (action: CallAction)
    requires
        heap_wf(old(heap)@),
        heap_room(old(heap)@, 1),
    ensures
        match exit_block(old(heap)@, *conditions, Word { raw: f_raw }) {
            Some(id) => final(heap)@ == old(heap)@ && (action matches CallAction::Exit { exit }
                && exit == (NlxPayload { target_block_id: id, value: Word { raw: a } })),
            None => call_answered(
                *ids,
                old(heap)@,
                final(heap)@,
                Word { raw: f_raw },
                seq![a],
                action,
            ),
        },
        heap_wf(final(heap)@),
{
    let f = Word::from_raw(f_raw);
    if let Some(id) = exit_procedure_block_id(heap, conditions, f) {
        return CallAction::Exit {
            exit: NlxPayload { target_block_id: id, value: Word::from_raw(a) },
        };
    }
    let args = vec![a];
    assert(args@ =~= seq![a]);
    funcall(heap, ids, f, args)
}

/// Calls a function with two arguments.
pub fn nod_funcall2(heap: &mut Heap, ids: &FunctionClasses, f_raw: u64, a: u64, b: u64) -> (action:
    CallAction)
    requires
        heap_wf(old(heap)@),
        heap_room(old(heap)@, 1),
    ensures
        call_answered(*ids, old(heap)@, final(heap)@, Word { raw: f_raw }, seq![a, b], action),
        heap_wf(final(heap)@),
{
    let args = vec![a, b];
    assert(args@ =~= seq![a, b]);
    funcall(heap, ids, Word::from_raw(f_raw), args)
}

/// Calls a function with three arguments.
pub fn nod_funcall3(
    heap: &mut Heap,
    ids: &FunctionClasses,
    f_raw: u64,
    a: u64,
    b: u64,
    c: u64,
) -> (action: CallAction)
    requires
        heap_wf(old(heap)@),
        heap_room(old(heap)@, 1),
    ensures
        call_answered(*ids, old(heap)@, final(heap)@, Word { raw: f_raw }, seq![a, b, c], action),
        heap_wf(final(heap)@),
{
    let args = vec![a, b, c];
    assert(args@ =~= seq![a, b, c]);
    funcall(heap, ids, Word::from_raw(f_raw), args)
}

/// Calls a function with four arguments.
pub fn nod_funcall4(
    heap: &mut Heap,
    ids: &FunctionClasses,
    f_raw: u64,
    a: u64,
    b: u64,
    c: u64,
    d: u64,
) -> (action: CallAction)
    requires
        heap_wf(old(heap)@),
        heap_room(old(heap)@, 1),
    ensures
        call_answered(
            *ids,
            old(heap)@,
            final(heap)@,
            Word { raw: f_raw },
            seq![a, b, c, d],
            action,
        ),
        heap_wf(final(heap)@),
{
    let args = vec![a, b, c, d];
    assert(args@ =~= seq![a, b, c, d]);
    funcall(heap, ids, Word::from_raw(f_raw), args)
}

/// Calls a function with five arguments.
pub fn nod_funcall5(
    heap: &mut Heap,
    ids: &FunctionClasses,
    f_raw: u64,
    a: u64,
    b: u64,
    c: u64,
    d: u64,
    e: u64,
) -> (action: CallAction)
    requires
        heap_wf(old(heap)@),
        heap_room(old(heap)@, 1),
    ensures
        call_answered(
            *ids,
            old(heap)@,
            final(heap)@,
            Word { raw: f_raw },
            seq![a, b, c, d, e],
            action,
        ),
        heap_wf(final(heap)@),
{
    let args = vec![a, b, c, d, e];
    assert(args@ =~= seq![a, b, c, d, e]);
    funcall(heap, ids, Word::from_raw(f_raw), args)
}

/// The bits of several words.
pub open spec fn raw_words(ws: Seq<Word>) -> Seq<u64> {
    Seq::new(ws.len(), |i: int| ws[i].raw)
}

/// The action answers `apply`.
pub open spec fn apply_answered(
    ids: FunctionClasses,
    before: Seq<ObjectView>,
    after: Seq<ObjectView>,
    f: Word,
    args: Word,
    action: CallAction,
) -> bool {
    match vector_at(before, args) {
        None => after == before && (action matches CallAction::Fail { message } && message@
            == "nod_apply: args is not a <simple-object-vector> Word (raw = 0x"@ + hex_digits(
            args.raw as nat,
        ) + ")"@),
        Some(ws) => match function_bits(before, f, 1) {
            None => after == before && (action matches CallAction::Fail { message } && message@
                == "nod_apply: function is not a <function> Word (raw = 0x"@ + hex_digits(
                f.raw as nat,
            ) + ")"@),
            Some(arity) => if arity != ws.len() || ws.len() > MAX_APPLY_ARITY {
                &&& after == before.push(wrong_count_object(ids, f, arity, ws.len() as u64))
                &&& action matches CallAction::Signal { condition } && condition == word_of(
                    before.len() as int,
                ).raw
            } else {
                &&& after == before
                &&& if ws.len() == MAX_APPLY_ARITY && kind_at(before, f) != Some(
                    FUNCTION_KIND_GENERIC_TRAMPOLINE,
                ) && function_bits(before, f, 2) is Some && env_or_zero(before, f) != 0 {
                    action matches CallAction::Fail { message } && message@
                        == "nod_apply: closure with arity 8 exceeds Sprint 24 cap of 7 (env adds 1 to the runtime ABI arity)"@
                } else {
                    runs_function(before, f, raw_words(ws), action)
                }
            },
        },
    }
}

/// Calls a function with the elements of a vector as arguments. More arguments
/// than a call can pass are the wrong number of arguments.
pub fn nod_apply(heap: &mut Heap, ids: &FunctionClasses, f_raw: u64, args_raw: u64) -> (action:
    CallAction)
    requires
        heap_wf(old(heap)@),
        heap_room(old(heap)@, 1),
    ensures
        apply_answered(
            *ids,
            old(heap)@,
            final(heap)@,
            Word { raw: f_raw },
            Word { raw: args_raw },
            action,
        ),
        heap_wf(final(heap)@),
{
    let f = Word::from_raw(f_raw);
    let mut args: Vec<u64> = Vec::new();
    let ghost ws = vector_at(heap@, Word { raw: args_raw });
    let is_vector = match heap.get(Word::from_raw(args_raw)) {
        Some(o) => {
            if o.class == ClassId(ClassId::SIMPLE_OBJECT_VECTOR) {
                let mut i: usize = 0;
                while i < o.cells.len()
                    invariant
                        i <= o.cells.len(),
                        args@.len() == i,
                        forall|k: int| 0 <= k < i ==> #[trigger] args@[k] == o.cells@[k].raw,
                    decreases o.cells.len() - i,
                {
                    args.push(o.cells[i].raw());
                    i += 1;
                }
                assert(args@ =~= raw_words(ws->0));
                true
            } else {
                false
            }
        },
        None => false,
    };
    if !is_vector {
        let mut message = String::from_str(
            "nod_apply: args is not a <simple-object-vector> Word (raw = 0x",
        );
        message.append(hexadecimal(args_raw).as_str());
        message.append(")");
        return CallAction::Fail { message };
    }
    let n: usize = args.len();
    let arity = match function_arity(heap, f) {
        Some(a) => a,
        None => {
            let mut message = String::from_str(
                "nod_apply: function is not a <function> Word (raw = 0x",
            );
            message.append(hexadecimal(f_raw).as_str());
            message.append(")");
            return CallAction::Fail { message };
        },
    };
    if arity != n as u64 || n > MAX_APPLY_ARITY {
        let condition = make_wrong_number_of_arguments_error(heap, ids, f, arity, n as u64);
        return CallAction::Signal { condition: condition.raw() };
    }
    let trampoline = match function_kind_tag(heap, f) {
        Some(k) => k == FUNCTION_KIND_GENERIC_TRAMPOLINE,
        None => false,
    };
    let closure = match function_env_ptr(heap, f) {
        Some(e) => e != 0,
        None => false,
    };
    if n == MAX_APPLY_ARITY && !trampoline && closure && function_code_ptr(heap, f).is_some() {
        return CallAction::Fail {
            message: String::from_str(
                "nod_apply: closure with arity 8 exceeds Sprint 24 cap of 7 (env adds 1 to the runtime ABI arity)",
            ),
        };
    }
    run_function(heap, f, args)
}

// ----- what calling is for -----

/// A call of a closure of the right arity runs its code with the environment as
/// the first argument and the given arguments after it, each in its place.
///
/// `o` is the function object: its cells are the name, the arity, the code, the
/// kind and the environment.
pub proof fn closure_runs_with_environment_first(
    ids: FunctionClasses,
    before: Seq<ObjectView>,
    after: Seq<ObjectView>,
    f: Word,
    o: ObjectView,
    args: Seq<u64>,
    action: CallAction,
)
    requires
        call_answered(ids, before, after, f, args, action),
        object_at(before, f) == Some(o),
        o.cells.len() >= 5,
        o.cells[1].raw == args.len(),
        o.cells[3].raw % 0x1_0000_0000 != 3,
        o.cells[4].raw != 0,
    ensures
        after == before,
        action matches CallAction::Run { code, args: passed } && {
            &&& code == o.cells[2].raw
            &&& passed@.len() == 1 + args.len()
            &&& passed@[0] == o.cells[4].raw
            &&& forall|i: int| 0 <= i < args.len() ==> passed@[i + 1] == #[trigger] args[i]
        },
{
}

/// A call of a function without an environment, of the right arity, runs its code
/// with the given arguments, each in its place.
pub proof fn function_runs_with_its_arguments(
    ids: FunctionClasses,
    before: Seq<ObjectView>,
    after: Seq<ObjectView>,
    f: Word,
    o: ObjectView,
    args: Seq<u64>,
    action: CallAction,
)
    requires
        call_answered(ids, before, after, f, args, action),
        object_at(before, f) == Some(o),
        o.cells.len() >= 5,
        o.cells[1].raw == args.len(),
        o.cells[3].raw % 0x1_0000_0000 != 3,
        o.cells[4].raw == 0,
    ensures
        after == before,
        action matches CallAction::Run { code, args: passed } && {
            &&& code == o.cells[2].raw
            &&& passed@.len() == args.len()
            &&& forall|i: int| 0 <= i < args.len() ==> passed@[i] == #[trigger] args[i]
        },
{
}

/// A call of a reference to a generic dispatches that generic on the given
/// arguments, each in its place.
pub proof fn generic_reference_dispatches(
    ids: FunctionClasses,
    before: Seq<ObjectView>,
    after: Seq<ObjectView>,
    f: Word,
    o: ObjectView,
    args: Seq<u64>,
    action: CallAction,
)
    requires
        call_answered(ids, before, after, f, args, action),
        object_at(before, f) == Some(o),
        o.cells.len() >= 5,
        o.cells[1].raw == args.len(),
        o.cells[3].raw % 0x1_0000_0000 == 3,
        o.cells[4].raw != 0,
    ensures
        after == before,
        action matches CallAction::Dispatch { generic, args: passed } && {
            &&& generic == o.cells[4].raw
            &&& passed@.len() == args.len()
            &&& forall|i: int| 0 <= i < args.len() ==> passed@[i] == #[trigger] args[i]
        },
{
}

/// A call with the wrong number of arguments runs nothing: it signals a new
/// condition that carries the function, the number given and the number taken.
pub proof fn wrong_count_is_signalled(
    ids: FunctionClasses,
    before: Seq<ObjectView>,
    after: Seq<ObjectView>,
    f: Word,
    o: ObjectView,
    args: Seq<u64>,
    action: CallAction,
)
    requires
        call_answered(ids, before, after, f, args, action),
        object_at(before, f) == Some(o),
        o.cells.len() >= 5,
        o.cells[1].raw != args.len(),
        o.cells[1].raw <= FIXNUM_MAX,
        args.len() <= FIXNUM_MAX,
        before.len() < HEAP_LIMIT,
    ensures
        after.len() == before.len() + 1,
        after.take(before.len() as int) == before,
        action matches CallAction::Signal { condition } && {
            let c = Word { raw: condition };
            &&& class_at(after, c) == Some(ids.wrong_number_of_arguments_error)
            &&& cell_at(after, c, 0) == Some(f)
            &&& cell_at(after, c, 1) == Some(fixnum(args.len() as int))
            &&& cell_at(after, c, 2) == Some(fixnum(o.cells[1].raw as int))
        },
{
    assert(after.take(before.len() as int) =~= before);
}

/// A word that is no function object cannot be called, and nothing is changed.
pub proof fn only_functions_are_called(
    ids: FunctionClasses,
    before: Seq<ObjectView>,
    after: Seq<ObjectView>,
    f: Word,
    args: Seq<u64>,
    action: CallAction,
)
    requires
        call_answered(ids, before, after, f, args, action),
        object_at(before, f) is None || object_at(before, f)->0.cells.len() < 2,
    ensures
        after == before,
        action is Fail,
{
}

/// Applying a closure to a vector runs its code with the environment as the first
/// argument and the elements of the vector after it, each in its place.
pub proof fn apply_passes_environment_and_elements(
    ids: FunctionClasses,
    before: Seq<ObjectView>,
    after: Seq<ObjectView>,
    f: Word,
    o: ObjectView,
    v: Word,
    vector: ObjectView,
    action: CallAction,
)
    requires
        apply_answered(ids, before, after, f, v, action),
        object_at(before, f) == Some(o),
        o.cells.len() >= 5,
        o.cells[3].raw % 0x1_0000_0000 != 3,
        object_at(before, v) == Some(vector),
        vector.class == ClassId(ClassId::SIMPLE_OBJECT_VECTOR),
        o.cells[1].raw == vector.cells.len(),
        vector.cells.len() <= 8,
        o.cells[4].raw != 0 ==> vector.cells.len() <= 7,
    ensures
        after == before,
        action matches CallAction::Run { code, args: passed } && {
            let shift: int = if o.cells[4].raw != 0 {
                1
            } else {
                0
            };
            &&& code == o.cells[2].raw
            &&& passed@.len() == shift + vector.cells.len()
            &&& o.cells[4].raw != 0 ==> passed@[0] == o.cells[4].raw
            &&& forall|i: int|
                0 <= i < vector.cells.len() ==> passed@[shift + i] == (
                #[trigger] vector.cells[i]).raw
        },
{
    assert(raw_words(vector.cells).len() == vector.cells.len());
    assert forall|i: int| 0 <= i < vector.cells.len() implies raw_words(vector.cells)[i] == (
    #[trigger] vector.cells[i]).raw by {}
}

/// Applying a function to a vector of the wrong length, or of more than eight
/// elements, signals a new condition that carries the function, the number taken
/// and the number given.
pub proof fn apply_counts_the_elements(
    ids: FunctionClasses,
    before: Seq<ObjectView>,
    after: Seq<ObjectView>,
    f: Word,
    o: ObjectView,
    v: Word,
    vector: ObjectView,
    action: CallAction,
)
    requires
        apply_answered(ids, before, after, f, v, action),
        object_at(before, f) == Some(o),
        o.cells.len() >= 5,
        o.cells[1].raw <= FIXNUM_MAX,
        object_at(before, v) == Some(vector),
        vector.class == ClassId(ClassId::SIMPLE_OBJECT_VECTOR),
        vector.cells.len() <= FIXNUM_MAX,
        o.cells[1].raw != vector.cells.len() || vector.cells.len() > 8,
        before.len() < HEAP_LIMIT,
    ensures
        after.len() == before.len() + 1,
        after.take(before.len() as int) == before,
        action matches CallAction::Signal { condition } && {
            let c = Word { raw: condition };
            &&& class_at(after, c) == Some(ids.wrong_number_of_arguments_error)
            &&& cell_at(after, c, 0) == Some(f)
            &&& cell_at(after, c, 1) == Some(fixnum(o.cells[1].raw as int))
            &&& cell_at(after, c, 2) == Some(fixnum(vector.cells.len() as int))
        },
{
    assert(after.take(before.len() as int) =~= before);
}

/// Applying a reference to a generic dispatches it on the elements of the vector.
pub proof fn apply_dispatches_generics(
    ids: FunctionClasses,
    before: Seq<ObjectView>,
    after: Seq<ObjectView>,
    f: Word,
    o: ObjectView,
    v: Word,
    vector: ObjectView,
    action: CallAction,
)
    requires
        apply_answered(ids, before, after, f, v, action),
        object_at(before, f) == Some(o),
        o.cells.len() >= 5,
        o.cells[3].raw % 0x1_0000_0000 == 3,
        o.cells[4].raw != 0,
        object_at(before, v) == Some(vector),
        vector.class == ClassId(ClassId::SIMPLE_OBJECT_VECTOR),
        o.cells[1].raw == vector.cells.len(),
        vector.cells.len() <= 8,
    ensures
        after == before,
        action matches CallAction::Dispatch { generic, args: passed } && {
            &&& generic == o.cells[4].raw
            &&& passed@.len() == vector.cells.len()
            &&& forall|i: int|
                0 <= i < vector.cells.len() ==> passed@[i] == (#[trigger] vector.cells[i]).raw
        },
{
    assert(raw_words(vector.cells).len() == vector.cells.len());
    assert forall|i: int| 0 <= i < vector.cells.len() implies raw_words(vector.cells)[i] == (
    #[trigger] vector.cells[i]).raw by {}
}

/// A closure that is made and then called with as many arguments as it takes runs
/// the code that it was made with, on the environment that it was made with and
/// the arguments of the call, in this order.
pub proof fn made_closure_is_called(
    literals: Seq<(Seq<char>, u64)>,
    h: Seq<ObjectView>,
    ids: FunctionClasses,
    name: Seq<char>,
    code: u64,
    kind: u32,
    env: u64,
    after: Seq<ObjectView>,
    args: Seq<u64>,
    action: CallAction,
)
    requires
        heap_wf(h),
        heap_room(h, 2),
        literals_hold(literals, h),
        args.len() <= u64::MAX,
        kind != 3,
        env != 0,
        call_answered(
            ids,
            with_function(literals, h, ids, name, args.len() as u64, code, kind as u64, env),
            after,
            next_function(literals, h, name),
            args,
            action,
        ),
    ensures
        action matches CallAction::Run { code: run, args: passed } && {
            &&& run == code
            &&& passed@.len() == 1 + args.len()
            &&& passed@[0] == env
            &&& forall|i: int| 0 <= i < args.len() ==> passed@[i + 1] == #[trigger] args[i]
        },
{
    let g = with_function(literals, h, ids, name, args.len() as u64, code, kind as u64, env);
    let f = next_function(literals, h, name);
    function_round_trip(literals, h, ids, name, args.len() as u64, code, kind, env);
    let o = object_at(g, f)->0;
    assert(function_bits(g, f, 4) == Some(env));
    assert(cell_at(g, f, 3) is Some);
    closure_runs_with_environment_first(ids, g, after, f, o, args, action);
}

/// A function is made of its name, arity, code, kind and environment, in this
/// order.
pub proof fn function_objects_hold_their_parts(
    ids: FunctionClasses,
    name: Word,
    arity: u64,
    code: u64,
    kind: u64,
    env: u64,
)
    ensures
        ({
            let o = function_object(ids, name, arity, code, kind, env);
            &&& o.class == ids.function
            &&& o.cells.len() == 6
            &&& o.cells[0] == name
            &&& o.cells[1].raw == arity
            &&& o.cells[2].raw == code
            &&& o.cells[3].raw == kind
            &&& o.cells[4].raw == env
        }),
{
}

// ----- registered functions -----

struct FunctionEntry {
    name: String,
    arity: usize,
    code_ptr: u64,
}

struct FunctionRef {
    name: String,
    arity: usize,
    function: Word,
}

/// The code that names refer to, and the function references made so far.
pub struct FunctionTable {
    built_in: Vec<FunctionEntry>,
    compiled: Vec<FunctionEntry>,
    refs: Vec<FunctionRef>,
}

/// A name and an arity with what they refer to.
#[verifier::ext_equal]
pub struct NamedArity<T> {
    pub name: Seq<char>,
    pub arity: usize,
    pub value: T,
}

/// What a `FunctionTable` holds.
#[verifier::ext_equal]
pub struct FunctionsView {
    pub built_in: Seq<NamedArity<u64>>,
    pub compiled: Seq<NamedArity<u64>>,
    pub refs: Seq<NamedArity<Word>>,
}

spec fn entry_views(entries: Seq<FunctionEntry>) -> Seq<NamedArity<u64>> {
    Seq::new(
        entries.len(),
        |i: int|
            NamedArity {
                name: entries[i].name@,
                arity: entries[i].arity,
                value: entries[i].code_ptr,
            },
    )
}

spec fn ref_views(refs: Seq<FunctionRef>) -> Seq<NamedArity<Word>> {
    Seq::new(
        refs.len(),
        |i: int|
            NamedArity { name: refs[i].name@, arity: refs[i].arity, value: refs[i].function },
    )
}

impl View for FunctionTable {
    type V = FunctionsView;

    closed spec fn view(&self) -> FunctionsView {
        FunctionsView {
            built_in: entry_views(self.built_in@),
            compiled: entry_views(self.compiled@),
            refs: ref_views(self.refs@),
        }
    }
}

/// Position of the first entry for a name and arity at or after `i`.
pub open spec fn entry_from<T>(
    es: Seq<NamedArity<T>>,
    name: Seq<char>,
    arity: usize,
    i: int,
) -> Option<int>
    decreases es.len() - i,
{
    if i < 0 || i >= es.len() {
        None
    } else if es[i].name == name && es[i].arity == arity {
        Some(i)
    } else {
        entry_from(es, name, arity, i + 1)
    }
}

/// What a name and arity refer to.
pub open spec fn entry_value<T>(es: Seq<NamedArity<T>>, name: Seq<char>, arity: usize) -> Option<
    T,
> {
    match entry_from(es, name, arity, 0) {
        Some(i) => Some(es[i].value),
        None => None,
    }
}

proof fn entry_in_range<T>(es: Seq<NamedArity<T>>, name: Seq<char>, arity: usize, from: int)
    requires
        0 <= from,
    ensures
        entry_from(es, name, arity, from) matches Some(p) ==> from <= p < es.len() && es[p].name
            == name && es[p].arity == arity && forall|k: int|
            from <= k < p ==> !((#[trigger] es[k]).name == name && es[k].arity == arity),
        entry_from(es, name, arity, from) is None ==> forall|k: int|
            from <= k < es.len() ==> !((#[trigger] es[k]).name == name && es[k].arity == arity),
    decreases es.len() - from,
{
    if from < es.len() && !(es[from].name == name && es[from].arity == arity) {
        entry_in_range(es, name, arity, from + 1);
    }
}

/// Adding an entry for a new name and arity leaves the others alone.
proof fn entry_push<T>(
    es: Seq<NamedArity<T>>,
    e: NamedArity<T>,
    name: Seq<char>,
    arity: usize,
)
    requires
        entry_from(es, e.name, e.arity, 0) is None,
    ensures
        entry_value(es.push(e), name, arity) == if name == e.name && arity == e.arity {
            Some(e.value)
        } else {
            entry_value(es, name, arity)
        },
{
    entry_in_range(es, e.name, e.arity, 0);
    entry_in_range(es, name, arity, 0);
    entry_in_range(es.push(e), name, arity, 0);
    let n = es.len() as int;
    let p = entry_from(es, name, arity, 0);
    let q = entry_from(es.push(e), name, arity, 0);
    assert(es.push(e)[n] == e);
    if p is Some {
        assert(es.push(e)[p->0] == es[p->0]);
        if q->0 < n {
            assert(es.push(e)[q->0] == es[q->0]);
        }
    } else if q is Some && q->0 < n {
        assert(es.push(e)[q->0] == es[q->0]);
    }
}

/// Replacing the value of an entry leaves the others alone.
proof fn entry_update<T>(
    es: Seq<NamedArity<T>>,
    e: NamedArity<T>,
    i: int,
    name: Seq<char>,
    arity: usize,
)
    requires
        entry_from(es, e.name, e.arity, 0) == Some(i),
    ensures
        entry_value(es.update(i, e), name, arity) == if name == e.name && arity == e.arity {
            Some(e.value)
        } else {
            entry_value(es, name, arity)
        },
{
    entry_in_range(es, e.name, e.arity, 0);
    entry_in_range(es, name, arity, 0);
    let us = es.update(i, e);
    entry_in_range(us, name, arity, 0);
    assert forall|k: int| 0 <= k < es.len() implies (#[trigger] us[k]).name == es[k].name
        && us[k].arity == es[k].arity by {}
    let p = entry_from(es, name, arity, 0);
    let q = entry_from(us, name, arity, 0);
    if p is Some {
        assert(us[p->0].name == name);
        assert(es[q->0].name == name);
    } else if q is Some {
        assert(es[q->0].name == name);
    }
}

impl FunctionsView {
    /// The code that a name and arity refer to; built-in functions come first.
    pub open spec fn code(self, name: Seq<char>, arity: usize) -> Option<u64> {
        match entry_value(self.built_in, name, arity) {
            Some(c) => Some(c),
            None => entry_value(self.compiled, name, arity),
        }
    }

    /// The reference made for a name and arity.
    pub open spec fn reference(self, name: Seq<char>, arity: usize) -> Option<Word> {
        entry_value(self.refs, name, arity)
    }
}

fn find_entry(entries: &Vec<FunctionEntry>, name: &str, arity: usize) -> (i: Option<usize>)
    ensures
        i is Some <==> entry_from(entry_views(entries@), name@, arity, 0) is Some,
        i is Some ==> i->0 == entry_from(entry_views(entries@), name@, arity, 0)->0 && i->0
            < entries@.len(),
{
    let ghost es = entry_views(entries@);
    let mut i: usize = 0;
    while i < entries.len()
        invariant
            i <= entries.len(),
            es == entry_views(entries@),
            entry_from(es, name@, arity, 0) == entry_from(es, name@, arity, i as int),
        decreases entries.len() - i,
    {
        assert(es[i as int].name == entries@[i as int].name@);
        if entries[i].arity == arity && same_text(entries[i].name.as_str(), name) {
            return Some(i);
        }
        i += 1;
    }
    None
}

/// Adds or replaces the code for a name and arity.
fn put_entry(entries: &mut Vec<FunctionEntry>, name: &str, arity: usize, code_ptr: u64)
    ensures
        forall|n: Seq<char>, a: usize| #[trigger]
            entry_value(entry_views(final(entries)@), n, a) == if n == name@ && a == arity {
                Some(code_ptr)
            } else {
                entry_value(entry_views(old(entries)@), n, a)
            },
{
    let ghost before = entry_views(entries@);
    let ghost e = NamedArity { name: name@, arity, value: code_ptr };
    match find_entry(entries, name, arity) {
        Some(i) => {
            proof {
                entry_in_range(before, name@, arity, 0);
            }
            entries[i].code_ptr = code_ptr;
            proof {
                assert(entry_views(entries@) =~= before.update(i as int, e));
                assert forall|n: Seq<char>, a: usize| #[trigger]
                    entry_value(entry_views(entries@), n, a) == if n == name@ && a == arity {
                        Some(code_ptr)
                    } else {
                        entry_value(before, n, a)
                    } by {
                    entry_update(before, e, i as int, n, a);
                }
            }
        },
        None => {
            entries.push(FunctionEntry { name: name.to_owned(), arity, code_ptr });
            proof {
                assert(entry_views(entries@) =~= before.push(e));
                assert forall|n: Seq<char>, a: usize| #[trigger]
                    entry_value(entry_views(entries@), n, a) == if n == name@ && a == arity {
                        Some(code_ptr)
                    } else {
                        entry_value(before, n, a)
                    } by {
                    entry_push(before, e, n, a);
                }
            }
        },
    }
}

impl FunctionTable {
    /// No functions.
    pub fn new() -> (t: FunctionTable)
        ensures
            t@ == (FunctionsView { built_in: seq![], compiled: seq![], refs: seq![] }),
    {
        let t = FunctionTable { built_in: Vec::new(), compiled: Vec::new(), refs: Vec::new() };
        assert(t@.built_in =~= seq![]);
        assert(t@.compiled =~= seq![]);
        assert(t@.refs =~= seq![]);
        t
    }

    fn find_ref(&self, name: &str, arity: usize) -> (w: Option<Word>)
        ensures
            w == self@.reference(name@, arity),
    {
        let ghost es = ref_views(self.refs@);
        let mut i: usize = 0;
        while i < self.refs.len()
            invariant
                i <= self.refs.len(),
                es == ref_views(self.refs@),
                entry_from(es, name@, arity, 0) == entry_from(es, name@, arity, i as int),
            decreases self.refs.len() - i,
        {
            assert(es[i as int].name == self.refs@[i as int].name@);
            if self.refs[i].arity == arity && same_text(self.refs[i].name.as_str(), name) {
                return Some(self.refs[i].function);
            }
            i += 1;
        }
        None
    }

    fn add_ref(&mut self, name: &str, arity: usize, function: Word)
        requires
            old(self)@.reference(name@, arity) is None,
        ensures
            final(self)@ == (FunctionsView {
                refs: old(self)@.refs.push(NamedArity { name: name@, arity, value: function }),
                ..old(self)@
            }),
            final(self)@.reference(name@, arity) == Some(function),
    {
        let ghost e = NamedArity { name: name@, arity, value: function };
        proof {
            entry_push(self@.refs, e, name@, arity);
        }
        self.refs.push(FunctionRef { name: name.to_owned(), arity, function });
        assert(self@.refs =~= old(self)@.refs.push(e));
    }
}

/// Registers built-in code under a name and arity.
pub fn register_rust_function(
    functions: &mut FunctionTable,
    name: &str,
    arity: usize,
    code_ptr: u64,
)
    ensures
        forall|n: Seq<char>, a: usize| #[trigger]
            entry_value(final(functions)@.built_in, n, a) == if n == name@ && a == arity {
                Some(code_ptr)
            } else {
                entry_value(old(functions)@.built_in, n, a)
            },
        final(functions)@.compiled == old(functions)@.compiled,
        final(functions)@.refs == old(functions)@.refs,
{
    put_entry(&mut functions.built_in, name, arity, code_ptr);
}

/// Registers compiled code under a name and arity.
pub fn register_jit_function(
    functions: &mut FunctionTable,
    name: &str,
    arity: usize,
    code_ptr: u64,
)
    ensures
        forall|n: Seq<char>, a: usize| #[trigger]
            entry_value(final(functions)@.compiled, n, a) == if n == name@ && a == arity {
                Some(code_ptr)
            } else {
                entry_value(old(functions)@.compiled, n, a)
            },
        final(functions)@.built_in == old(functions)@.built_in,
        final(functions)@.refs == old(functions)@.refs,
{
    put_entry(&mut functions.compiled, name, arity, code_ptr);
}

/// The code that a name and arity refer to.
pub fn lookup_function_code(functions: &FunctionTable, name: &str, arity: usize) -> (code: Option<
    u64,
>)
    ensures
        code == functions@.code(name@, arity),
{
    match find_entry(&functions.built_in, name, arity) {
        Some(i) => Some(functions.built_in[i].code_ptr),
        None => match find_entry(&functions.compiled, name, arity) {
            Some(i) => Some(functions.compiled[i].code_ptr),
            None => None,
        },
    }
}

/// A name and an arity refer to the value of an entry with both, the first one if
/// there are several; without one they refer to nothing.
pub proof fn entries_are_found_by_name_and_arity<T>(
    es: Seq<NamedArity<T>>,
    name: Seq<char>,
    arity: usize,
    i: int,
)
    requires
        0 <= i < es.len(),
        es[i].name == name,
        es[i].arity == arity,
        forall|k: int| 0 <= k < i ==> !((#[trigger] es[k]).name == name && es[k].arity == arity),
    ensures
        entry_value(es, name, arity) == Some(es[i].value),
{
    entry_in_range(es, name, arity, 0);
}

/// Without an entry that has both the name and the arity, they refer to nothing.
pub proof fn unregistered_names_refer_to_nothing<T>(
    es: Seq<NamedArity<T>>,
    name: Seq<char>,
    arity: usize,
)
    requires
        forall|k: int|
            0 <= k < es.len() ==> !((#[trigger] es[k]).name == name && es[k].arity == arity),
    ensures
        entry_value(es, name, arity) is None,
{
    entry_in_range(es, name, arity, 0);
}

/// Built-in code goes before compiled code, and compiled code counts where there
/// is no built-in code.
pub proof fn built_in_code_goes_first(fs: FunctionsView, name: Seq<char>, arity: usize)
    ensures
        entry_value(fs.built_in, name, arity) is Some ==> fs.code(name, arity) == entry_value(
            fs.built_in,
            name,
            arity,
        ),
        entry_value(fs.built_in, name, arity) is None ==> fs.code(name, arity) == entry_value(
            fs.compiled,
            name,
            arity,
        ),
        fs.reference(name, arity) == entry_value(fs.refs, name, arity),
{
}

// ----- function references -----

/// The handle of a generic in a function object: not zero, and no pointer.
pub open spec fn generic_handle(i: int) -> u64 {
    (2 * (i + 1)) as u64
}

/// The generic behind a handle.
pub fn generic_of_handle(generics: &GenericTable, handle: u64) -> (i: Option<usize>)
    ensures
        i is Some ==> i->0 < generics@.generics.len() && handle == generic_handle(i->0 as int),
        i is None ==> forall|k: int|
            0 <= k < generics@.generics.len() && 2 * (k + 1) <= u64::MAX
                ==> #[trigger] generic_handle(k) != handle,
{
    let n: usize = generics.generic_count();
    if handle % 2 == 0 && handle > 0 && handle / 2 <= n as u64 {
        Some((handle / 2 - 1) as usize)
    } else {
        None
    }
}

/// A reference to a generic: the generic is there, with a handle in 64 bits.
pub open spec fn has_handle(generics: GenericsView) -> bool {
    2 * (generics.generics.len() + 1) <= u64::MAX
}

/// The function reference for a generic: the one made before for this name and
/// arity, else a new one.
pub fn make_generic_trampoline_ref(
    functions: &mut FunctionTable,
    generics: &mut GenericTable,
    literals: &mut LiteralPool,
    heap: &mut Heap,
    ids: &FunctionClasses,
    generic_name: &str,
    arity: usize,
) -> (w: Word)
    requires
        heap_wf(old(heap)@),
        heap_room(old(heap)@, 2),
        has_handle(old(generics)@),
    ensures
        match old(functions)@.reference(generic_name@, arity) {
            Some(r) => w == r && final(functions)@ == old(functions)@ && final(generics)@
                == old(generics)@ && final(heap)@ == old(heap)@ && final(literals)@
                == old(literals)@,
            None => {
                let u = old(generics)@.with_generic(generic_name@);
                &&& w == next_function(old(literals)@, old(heap)@, generic_name@)
                &&& final(literals)@ == pool_with_literal(
                    old(literals)@,
                    old(heap)@,
                    generic_name@,
                )
                &&& final(generics)@ == u
                &&& final(heap)@ == with_function(
                    old(literals)@,
                    old(heap)@,
                    *ids,
                    generic_name@,
                    arity as u64,
                    0,
                    FUNCTION_KIND_GENERIC_TRAMPOLINE as u64,
                    generic_handle(u.find(generic_name@)->0),
                )
                &&& final(functions)@ == (FunctionsView {
                    refs: old(functions)@.refs.push(
                        NamedArity { name: generic_name@, arity, value: w },
                    ),
                    ..old(functions)@
                })
            },
        },
        final(functions)@.reference(generic_name@, arity) == Some(w),
        heap_wf(final(heap)@),
{
    if let Some(w) = functions.find_ref(generic_name, arity) {
        return w;
    }
    let i = get_or_create_generic(generics, generic_name);
    let handle: u64 = 2 * (i as u64 + 1);
    let w = make_function(
        literals,
        heap,
        ids,
        generic_name,
        arity,
        0,
        FUNCTION_KIND_GENERIC_TRAMPOLINE,
        handle,
    );
    functions.add_ref(generic_name, arity, w);
    w
}

/// Whether a name is that of a generic with methods.
pub open spec fn generic_has_methods(generics: GenericsView, name: Seq<char>) -> bool {
    match generics.find(name) {
        Some(i) => generics.generics[i].methods.len() > 0,
        None => false,
    }
}

/// The function reference for a name and arity. The one made before is shared;
/// else registered code comes first, then a generic with methods; else there is
/// none.
pub fn make_function_ref(
    functions: &mut FunctionTable,
    generics: &mut GenericTable,
    literals: &mut LiteralPool,
    heap: &mut Heap,
    ids: &FunctionClasses,
    name: &str,
    arity: usize,
) -> (w: Option<Word>)
    requires
        heap_wf(old(heap)@),
        heap_room(old(heap)@, 2),
        has_handle(old(generics)@),
    ensures
        ({
            let fs = old(functions)@;
            let h = old(heap)@;
            let p = old(literals)@;
            match fs.reference(name@, arity) {
                Some(r) => w == Some(r) && final(functions)@ == fs && final(generics)@
                    == old(generics)@ && final(heap)@ == h && final(literals)@ == p,
                None => match fs.code(name@, arity) {
                    Some(code) => {
                        &&& w == Some(next_function(p, h, name@))
                        &&& final(literals)@ == pool_with_literal(p, h, name@)
                        &&& final(heap)@ == with_function(
                            p,
                            h,
                            *ids,
                            name@,
                            arity as u64,
                            code,
                            FUNCTION_KIND_TOP_LEVEL as u64,
                            0,
                        )
                        &&& final(generics)@ == old(generics)@
                        &&& final(functions)@ == (FunctionsView {
                            refs: fs.refs.push(NamedArity { name: name@, arity, value: w->0 }),
                            ..fs
                        })
                    },
                    None => if generic_has_methods(old(generics)@, name@) {
                        &&& w == Some(next_function(p, h, name@))
                        &&& final(literals)@ == pool_with_literal(p, h, name@)
                        &&& final(heap)@ == with_function(
                            p,
                            h,
                            *ids,
                            name@,
                            arity as u64,
                            0,
                            FUNCTION_KIND_GENERIC_TRAMPOLINE as u64,
                            generic_handle(old(generics)@.find(name@)->0),
                        )
                        &&& final(generics)@ == old(generics)@
                        &&& final(functions)@ == (FunctionsView {
                            refs: fs.refs.push(NamedArity { name: name@, arity, value: w->0 }),
                            ..fs
                        })
                    } else {
                        w is None && final(functions)@ == fs && final(generics)@ == old(generics)@
                            && final(heap)@ == h && final(literals)@ == p
                    },
                },
            }
        }),
        w is Some ==> final(functions)@.reference(name@, arity) == w,
        heap_wf(final(heap)@),
{
    let direct = lookup_function_code(functions, name, arity);
    if direct.is_none() && is_generic_defined(generics, name) {
        return Some(
            make_generic_trampoline_ref(functions, generics, literals, heap, ids, name, arity),
        );
    }
    if let Some(w) = functions.find_ref(name, arity) {
        return Some(w);
    }
    match direct {
        Some(code) => {
            let kind = FUNCTION_KIND_TOP_LEVEL;
            let w = make_function(literals, heap, ids, name, arity, code, kind, 0);
            functions.add_ref(name, arity, w);
            Some(w)
        },
        None => None,
    }
}

/// The arity that a fixnum word gives.
pub open spec fn arity_of(w: Word) -> usize {
    #[verifier::truncate] ((w.fixnum_value() as i64) as usize)
}

/// The text of a byte string for the making of a function, or what is wrong with
/// the word.
pub open spec fn name_argument(
    h: Seq<ObjectView>,
    w: Word,
    who: Seq<char>,
) -> Result<Seq<char>, Seq<char>> {
    if class_at(h, w) != Some(ClassId(ClassId::BYTE_STRING)) {
        Err(who + ": name is not a <byte-string> Word"@)
    } else {
        match held_text(h, w) {
            Some(s) => Ok(s),
            None => Err(who + ": <byte-string> name not UTF-8"@),
        }
    }
}

fn read_name_argument(heap: &Heap, w: Word, who: &str) -> (r: Result<String, String>)
    ensures
        match name_argument(heap@, w, who@) {
            Ok(s) => r is Ok && r->Ok_0@ == s,
            Err(m) => r is Err && r->Err_0@ == m,
        },
{
    if !heap.is_instance(w, ClassId(ClassId::BYTE_STRING)) {
        let mut m = String::from_str(who);
        m.append(": name is not a <byte-string> Word");
        return Err(m);
    }
    match decode_byte_string_to_string(heap, w) {
        Some(s) => Ok(s),
        None => {
            let mut m = String::from_str(who);
            m.append(": <byte-string> name not UTF-8");
            Err(m)
        },
    }
}

/// What is said of a name and arity that nothing is registered for.
pub open spec fn not_registered(
    who: Seq<char>,
    what: Seq<char>,
    name: Seq<char>,
    arity: usize,
) -> Seq<char> {
    who + ": no registered "@ + what + " `"@ + name + "` with arity "@ + decimal_digits(
        arity as nat,
    )
}

fn say_not_registered(who: &str, what: &str, name: &str, arity: usize) -> (s: String)
    ensures
        s@ == not_registered(who@, what@, name@, arity),
{
    let mut s = String::from_str(who);
    s.append(": no registered ");
    s.append(what);
    s.append(" `");
    s.append(name);
    s.append("` with arity ");
    s.append(decimal_unsigned(arity as u64).as_str());
    s
}

/// What asking for a function reference comes to.
pub enum ReferenceMade {
    /// The reference that was made before.
    Found(Word),
    /// A new function of this code, kind and environment.
    New { code: u64, kind: u32, env: u64 },
    /// Nothing is registered.
    Refused,
}

/// What asking for a function reference comes to: the one made before is shared;
/// else registered code comes first, then a generic with methods.
pub open spec fn reference_made(
    functions: FunctionsView,
    generics: GenericsView,
    name: Seq<char>,
    arity: usize,
) -> ReferenceMade {
    match functions.reference(name, arity) {
        Some(w) => ReferenceMade::Found(w),
        None => match functions.code(name, arity) {
            Some(code) => ReferenceMade::New { code, kind: FUNCTION_KIND_TOP_LEVEL, env: 0 },
            None => if generic_has_methods(generics, name) {
                ReferenceMade::New {
                    code: 0,
                    kind: FUNCTION_KIND_GENERIC_TRAMPOLINE,
                    env: generic_handle(generics.find(name)->0),
                }
            } else {
                ReferenceMade::Refused
            },
        },
    }
}

/// The function reference for a name word and an arity word, or what is wrong.
pub fn nod_make_function_ref(
    functions: &mut FunctionTable,
    generics: &mut GenericTable,
    literals: &mut LiteralPool,
    heap: &mut Heap,
    ids: &FunctionClasses,
    name_raw: u64,
    arity_raw: u64,
) -> (r: Result<u64, String>)
    requires
        heap_wf(old(heap)@),
        heap_room(old(heap)@, 2),
        has_handle(old(generics)@),
    ensures
        ({
            let who = "nod_make_function_ref"@;
            let arity_word = Word { raw: arity_raw };
            let fs = old(functions)@;
            let gs = old(generics)@;
            let h = old(heap)@;
            let p = old(literals)@;
            let untouched = final(functions)@ == fs && final(generics)@ == gs && final(heap)@ == h
                && final(literals)@ == p;
            match name_argument(h, Word { raw: name_raw }, who) {
                Err(m) => r is Err && r->Err_0@ == m && untouched,
                Ok(name) => if !arity_word.spec_is_fixnum() {
                    r is Err && r->Err_0@ == "nod_make_function_ref: arity is not a fixnum"@
                        && untouched
                } else {
                    let arity = arity_of(arity_word);
                    match reference_made(fs, gs, name, arity) {
                        ReferenceMade::Found(w) => r is Ok && r->Ok_0 == w.raw && untouched,
                        ReferenceMade::New { code, kind, env } => {
                            &&& r is Ok
                            &&& r->Ok_0 == next_function(p, h, name).raw
                            &&& final(literals)@ == pool_with_literal(p, h, name)
                            &&& final(heap)@ == with_function(
                                p,
                                h,
                                *ids,
                                name,
                                arity as u64,
                                code,
                                kind as u64,
                                env,
                            )
                            &&& final(generics)@ == gs
                            &&& final(functions)@ == (FunctionsView {
                                refs: fs.refs.push(
                                    NamedArity { name, arity, value: Word { raw: r->Ok_0 } },
                                ),
                                ..fs
                            })
                            &&& final(functions)@.reference(name, arity) == Some(
                                Word { raw: r->Ok_0 },
                            )
                        },
                        ReferenceMade::Refused => r is Err && r->Err_0@ == not_registered(
                            who,
                            "function"@,
                            name,
                            arity,
                        ) && untouched,
                    }
                },
            }
        }),
        heap_wf(final(heap)@),
{
    let name = match read_name_argument(heap, Word::from_raw(name_raw), "nod_make_function_ref") {
        Ok(s) => s,
        Err(m) => return Err(m),
    };
    let arity: usize = match Word::from_raw(arity_raw).as_fixnum() {
        Some(n) => #[verifier::truncate] (n as usize),
        None => return Err(String::from_str("nod_make_function_ref: arity is not a fixnum")),
    };
    match make_function_ref(functions, generics, literals, heap, ids, name.as_str(), arity) {
        Some(w) => Ok(w.raw()),
        None => Err(say_not_registered("nod_make_function_ref", "function", name.as_str(), arity)),
    }
}

/// Makes a closure of registered code and an environment, or says what is wrong.
pub fn nod_make_closure(
    functions: &FunctionTable,
    literals: &mut LiteralPool,
    heap: &mut Heap,
    ids: &FunctionClasses,
    name_raw: u64,
    arity_raw: u64,
    env_raw: u64,
) -> (r: Result<u64, String>)
    requires
        heap_wf(old(heap)@),
        heap_room(old(heap)@, 2),
    ensures
        ({
            let who = "nod_make_closure"@;
            let arity_word = Word { raw: arity_raw };
            match name_argument(old(heap)@, Word { raw: name_raw }, who) {
                Err(m) => r is Err && r->Err_0@ == m && final(heap)@ == old(heap)@
                    && final(literals)@ == old(literals)@,
                Ok(name) => if !arity_word.spec_is_fixnum() {
                    r is Err && r->Err_0@ == "nod_make_closure: arity is not a fixnum"@
                        && final(heap)@ == old(heap)@
                    && final(literals)@ == old(literals)@
                } else {
                    let arity = arity_of(arity_word);
                    match functions@.code(name, arity) {
                        Some(code) => r is Ok && r->Ok_0 == next_function(
                            old(literals)@,
                            old(heap)@,
                            name,
                        ).raw && final(literals)@ == pool_with_literal(
                            old(literals)@,
                            old(heap)@,
                            name,
                        ) && final(heap)@ == with_function(
                            old(literals)@,
                            old(heap)@,
                            *ids,
                            name,
                            arity as u64,
                            code,
                            FUNCTION_KIND_CLOSURE as u64,
                            env_raw,
                        ),
                        None => r is Err && r->Err_0@ == not_registered(
                            who,
                            "closure body"@,
                            name,
                            arity,
                        ) && final(heap)@ == old(heap)@
                    && final(literals)@ == old(literals)@,
                    }
                },
            }
        }),
        heap_wf(final(heap)@),
{
    let name = match read_name_argument(heap, Word::from_raw(name_raw), "nod_make_closure") {
        Ok(s) => s,
        Err(m) => return Err(m),
    };
    let arity: usize = match Word::from_raw(arity_raw).as_fixnum() {
        Some(n) => #[verifier::truncate] (n as usize),
        None => return Err(String::from_str("nod_make_closure: arity is not a fixnum")),
    };
    match lookup_function_code(functions, name.as_str(), arity) {
        Some(code) => Ok(
            make_function(
                literals,
                heap,
                ids,
                name.as_str(),
                arity,
                code,
                FUNCTION_KIND_CLOSURE,
                env_raw,
            ).raw(),
        ),
        None => Err(say_not_registered("nod_make_closure", "closure body", name.as_str(), arity)),
    }
}

/// Forgets all registered code and references.
pub fn _reset_function_registry_for_tests(functions: &mut FunctionTable)
    ensures
        final(functions)@ == (FunctionsView { built_in: seq![], compiled: seq![], refs: seq![] }),
{
    functions.built_in.clear();
    functions.compiled.clear();
    functions.refs.clear();
    assert(functions@.built_in =~= seq![]);
    assert(functions@.compiled =~= seq![]);
    assert(functions@.refs =~= seq![]);
}

/// A reference is shared once it is made. A new one calls the registered code
/// without an environment; without such code it goes through the generic of that
/// name, if that has methods; without either there is none.
pub proof fn references_call_what_is_registered(
    functions: FunctionsView,
    generics: GenericsView,
    name: Seq<char>,
    arity: usize,
)
    ensures
        ({
            let made = reference_made(functions, generics, name, arity);
            let shared = entry_value(functions.refs, name, arity);
            let built_in = entry_value(functions.built_in, name, arity);
            let compiled = entry_value(functions.compiled, name, arity);
            &&& shared is Some ==> made == ReferenceMade::Found(shared->0)
            &&& shared is None && built_in is Some ==> made == (ReferenceMade::New {
                code: built_in->0,
                kind: 0,
                env: 0,
            })
            &&& shared is None && built_in is None && compiled is Some ==> made
                == (ReferenceMade::New { code: compiled->0, kind: 0, env: 0 })
            &&& shared is None && built_in is None && compiled is None ==> match generics.find(
                name,
            ) {
                Some(i) => if generics.generics[i].methods.len() > 0 {
                    made == (ReferenceMade::New { code: 0, kind: 3, env: generic_handle(i) })
                } else {
                    made is Refused
                },
                None => made is Refused,
            }
        }),
{
}

/// Generics have distinct handles, none of them zero, which tell them apart from
/// pointers.
pub proof fn handles_tell_generics_apart(i: int, j: int)
    requires
        0 <= i,
        0 <= j,
        2 * (i + 1) <= u64::MAX,
        2 * (j + 1) <= u64::MAX,
    ensures
        generic_handle(i) == generic_handle(j) ==> i == j,
        generic_handle(i) != 0,
        generic_handle(i) % 2 == 0,
{
}

/// A name is read from a byte string of UTF-8; anything else is refused in the name of who
/// asked.
pub proof fn names_are_read_from_byte_strings(
    h: Seq<ObjectView>,
    w: Word,
    name: Seq<char>,
    who: Seq<char>,
)
    ensures
        object_at(h, w) == Some(bytes_object(encode_utf8(name))) ==> name_argument(h, w, who) == Ok::<
            Seq<char>,
            Seq<char>,
        >(name),
        object_at(h, w) is None ==> name_argument(h, w, who) == Err::<Seq<char>, Seq<char>>(
            who + ": name is not a <byte-string> Word"@,
        ),
        object_at(h, w) matches Some(o) ==> o.class != ClassId(ClassId::BYTE_STRING)
            ==> name_argument(h, w, who) == Err::<Seq<char>, Seq<char>>(
            who + ": name is not a <byte-string> Word"@,
        ),
        object_at(h, w) matches Some(o) ==> o.class == ClassId(ClassId::BYTE_STRING)
            && !valid_utf8(o.bytes) ==> name_argument(h, w, who) == Err::<Seq<char>, Seq<char>>(
            who + ": <byte-string> name not UTF-8"@,
        ),
{
    encode_utf8_valid_utf8(name);
    encode_utf8_decode_utf8(name);
}

/// What is said of a missing entry names who asked, what for, the name and the arity.
pub proof fn missing_entries_are_named(
    who: Seq<char>,
    what: Seq<char>,
    name: Seq<char>,
    arity: usize,
)
    ensures
        ({
            let s = not_registered(who, what, name, arity);
            let d = decimal_digits(arity as nat);
            let n = who.len() + ": no registered "@.len() + what.len() + " `"@.len();
            &&& s.take(who.len() as int) == who
            &&& s.subrange(n as int, n as int + name.len()) == name
            &&& s.subrange(s.len() - d.len(), s.len() as int) == d
        }),
{
    let s = not_registered(who, what, name, arity);
    let d = decimal_digits(arity as nat);
    let n = who.len() + ": no registered "@.len() + what.len() + " `"@.len();
    assert(s.take(who.len() as int) =~= who);
    assert(s.subrange(n as int, n as int + name.len()) =~= name);
    assert(s.subrange(s.len() - d.len(), s.len() as int) =~= d);
}

/// The arity that a word gives is its number.
pub proof fn arities_are_numbers(n: usize)
    requires
        n <= FIXNUM_MAX,
    ensures
        arity_of(fixnum(n as int)) == n,
{
    assert(fixnum(n as int).fixnum_value() == n);
}

/// The name of a function is the text in its first slot.
pub proof fn functions_are_named_by_their_first_slot(
    h: Seq<ObjectView>,
    f: Word,
    o: ObjectView,
    name: Seq<char>,
)
    requires
        object_at(h, f) == Some(o),
        o.cells.len() > 0,
        object_at(h, o.cells[0]) == Some(bytes_object(encode_utf8(name))),
    ensures
        name_at(h, f) == Some(name),
{
    encode_utf8_valid_utf8(name);
    encode_utf8_decode_utf8(name);
}

} // verus!
