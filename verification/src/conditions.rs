//! Conditions.
//!
//! The condition classes, and how conditions, restarts and exit procedures are
//! made and read.

use vstd::prelude::*;
use vstd::string::*;
use vstd::utf8::{encode_utf8, encode_utf8_decode_utf8, encode_utf8_valid_utf8};

use crate::classes::{
    slot_views, ClassId, ClassTable, SlotDefault, SlotInfo, SlotType, SlotView, TableView,
};
use crate::collections::push_keeps_wf;
use crate::declare::{
    decl_views, decl_weight, declare_all, declared_class_inherits, seeds_are_registered, slot,
    slot_decl, ClassDecl, DeclView,
};
use crate::generics::held_text;
use crate::heap::{
    index_of, bytes_object, cell_at, cells_object, class_at, heap_room, heap_wf, object_at, word_of,
    zero_word, Heap, ObjectView,
};
use crate::literals::{
    heap_with_literal, intern_string_literal, interning_is_idempotent, literal_holds_its_text,
    literal_of, literals_hold, literals_hold_on_grown_heap, pool_with_literal, LiteralPool,
};
use crate::lookup::{class_name, shown_name};
use crate::text::{join, joined, text_views};
use crate::word::{fixnum, fixnum_round_trip, Word, FIXNUM_MAX};

verus! {

// ----- classes -----

/// A slot of the condition classes: readable, without default.
pub open spec fn condition_slot(name: Seq<char>, type_kind: SlotType) -> SlotView {
    slot_decl(name, name, type_kind, SlotDefault::Unbound, false)
}

fn build_slot(name: &str, type_kind: SlotType) -> (s: SlotInfo)
    ensures
        s@ == condition_slot(name@, type_kind),
{
    slot(name, name, type_kind, SlotDefault::Unbound, false)
}

/// The slots that the simple condition classes share.
pub open spec fn message_slots() -> Seq<SlotView> {
    seq![
        condition_slot("format-string"@, SlotType::String),
        condition_slot("format-args"@, SlotType::Vector),
        condition_slot("message"@, SlotType::String),
    ]
}

fn build_message_slots() -> (v: Vec<SlotInfo>)
    ensures
        slot_views(v@) == message_slots(),
{
    let v = vec![
        build_slot("format-string", SlotType::String),
        build_slot("format-args", SlotType::Vector),
        build_slot("message", SlotType::String),
    ];
    assert(slot_views(v@) =~= message_slots());
    v
}

/// The condition classes.
pub open spec fn condition_decls() -> Seq<DeclView> {
    seq![
        DeclView { name: "<condition>"@, parent: "<object>"@, slots: seq![] },
        DeclView { name: "<warning>"@, parent: "<condition>"@, slots: seq![] },
        DeclView { name: "<serious-condition>"@, parent: "<condition>"@, slots: seq![] },
        DeclView { name: "<error>"@, parent: "<serious-condition>"@, slots: seq![] },
        DeclView { name: "<simple-condition>"@, parent: "<condition>"@, slots: message_slots() },
        DeclView { name: "<simple-error>"@, parent: "<error>"@, slots: message_slots() },
        DeclView { name: "<simple-warning>"@, parent: "<warning>"@, slots: message_slots() },
        DeclView {
            name: "<no-applicable-methods-error>"@,
            parent: "<error>"@,
            slots: seq![
                condition_slot("generic-name"@, SlotType::String),
                condition_slot("arg-class-names"@, SlotType::Vector),
            ],
        },
        DeclView {
            name: "<no-next-method-error>"@,
            parent: "<error>"@,
            slots: seq![condition_slot("generic-name"@, SlotType::String)],
        },
        DeclView {
            name: "<simple-restart>"@,
            parent: "<condition>"@,
            slots: seq![
                condition_slot("restart-name"@, SlotType::Symbol),
                condition_slot("restart-description"@, SlotType::String),
            ],
        },
        DeclView {
            name: "<exit-procedure>"@,
            parent: "<object>"@,
            slots: seq![condition_slot("block-id"@, SlotType::Integer)],
        },
    ]
}

fn build_condition_decls() -> (v: Vec<ClassDecl>)
    ensures
        decl_views(v@) == condition_decls(),
{
    let v = vec![
        ClassDecl { name: "<condition>", parent: "<object>", slots: Vec::new() },
        ClassDecl { name: "<warning>", parent: "<condition>", slots: Vec::new() },
        ClassDecl { name: "<serious-condition>", parent: "<condition>", slots: Vec::new() },
        ClassDecl { name: "<error>", parent: "<serious-condition>", slots: Vec::new() },
        ClassDecl {
            name: "<simple-condition>",
            parent: "<condition>",
            slots: build_message_slots(),
        },
        ClassDecl { name: "<simple-error>", parent: "<error>", slots: build_message_slots() },
        ClassDecl { name: "<simple-warning>", parent: "<warning>", slots: build_message_slots() },
        ClassDecl {
            name: "<no-applicable-methods-error>",
            parent: "<error>",
            slots: vec![
                build_slot("generic-name", SlotType::String),
                build_slot("arg-class-names", SlotType::Vector),
            ],
        },
        ClassDecl {
            name: "<no-next-method-error>",
            parent: "<error>",
            slots: vec![build_slot("generic-name", SlotType::String)],
        },
        ClassDecl {
            name: "<simple-restart>",
            parent: "<condition>",
            slots: vec![
                build_slot("restart-name", SlotType::Symbol),
                build_slot("restart-description", SlotType::String),
            ],
        },
        ClassDecl {
            name: "<exit-procedure>",
            parent: "<object>",
            slots: vec![build_slot("block-id", SlotType::Integer)],
        },
    ];
    assert(decl_views(v@) =~~= condition_decls());
    v
}

/// Upper bound on the ids and slots that the condition classes take.
pub const CONDITION_ROOM: i64 = 26;

/// The superclasses of these classes are known, and this is what they take.
pub proof fn condition_decls_fit(t: TableView)
    requires
        t.wf(),
    ensures
        t.knows_parents(condition_decls()),
        decl_weight(condition_decls()) == CONDITION_ROOM,
{
    let ds = condition_decls();
    seeds_are_registered(t, 0);
    assert forall|i: int| 0 <= i < ds.len() implies t.named((#[trigger] ds[i]).parent) is Some
        || exists|j: int| 0 <= j < i && ds[j].name == ds[i].parent by {
        assert(ds[0].name == "<condition>"@ && ds[1].name == "<warning>"@ && ds[2].name
            == "<serious-condition>"@ && ds[3].name == "<error>"@);
    }
    reveal_with_fuel(decl_weight, 12);
}

/// No two condition classes share a name.
proof fn condition_names_differ(i: int, j: int)
    requires
        0 <= i < j < condition_decls().len(),
    ensures
        condition_decls()[i].name != condition_decls()[j].name,
{
    reveal_strlit("<condition>");
    reveal_strlit("<warning>");
    reveal_strlit("<serious-condition>");
    reveal_strlit("<error>");
    reveal_strlit("<simple-condition>");
    reveal_strlit("<simple-error>");
    reveal_strlit("<simple-warning>");
    reveal_strlit("<no-applicable-methods-error>");
    reveal_strlit("<no-next-method-error>");
    reveal_strlit("<simple-restart>");
    reveal_strlit("<exit-procedure>");
    let ds = condition_decls();
    assert(ds[0].name == "<condition>"@ && ds[0].name.len() == 11);
    assert(ds[1].name == "<warning>"@ && ds[1].name.len() == 9);
    assert(ds[2].name == "<serious-condition>"@ && ds[2].name.len() == 19);
    assert(ds[3].name == "<error>"@ && ds[3].name.len() == 7);
    assert(ds[4].name == "<simple-condition>"@ && ds[4].name.len() == 18);
    assert(ds[5].name == "<simple-error>"@ && ds[5].name.len() == 14);
    assert(ds[6].name == "<simple-warning>"@ && ds[6].name.len() == 16);
    assert(ds[7].name == "<no-applicable-methods-error>"@ && ds[7].name.len() == 29);
    assert(ds[8].name == "<no-next-method-error>"@ && ds[8].name.len() == 22);
    assert(ds[9].name == "<simple-restart>"@ && ds[9].name.len() == 16);
    assert(ds[10].name == "<exit-procedure>"@ && ds[10].name.len() == 16);
    assert("<simple-warning>"@[8] != "<simple-restart>"@[8]);
    assert("<simple-warning>"@[1] != "<exit-procedure>"@[1]);
    assert("<simple-restart>"@[1] != "<exit-procedure>"@[1]);
}

/// Every condition class stands below the class that the hierarchy gives it:
/// warnings and serious conditions are conditions, errors are serious
/// conditions, and so on. What is below a class is below all its superclasses.
pub proof fn condition_hierarchy(t: TableView, i: int, ancestor: ClassId)
    requires
        t.wf(),
        t.lists_headed(),
        t.ids_identify(),
        t.next_user_id + condition_decls().len() <= ClassId::FIRST_SHIM,
        t.next_shim_id + condition_decls().len() <= u32::MAX,
        0 <= i < condition_decls().len(),
        t.named(condition_decls()[i].name) is None,
    ensures
        ({
            let u = t.declared_all(condition_decls());
            let d = condition_decls()[i];
            &&& u.subclass(u.named(d.name)->0, u.named(d.parent)->0)
            &&& u.lookup(u.named(d.name)->0)->0.parent == u.named(d.parent)
            &&& u.subclass(u.named(d.parent)->0, ancestor) ==> u.subclass(
                u.named(d.name)->0,
                ancestor,
            )
        }),
{
    let ds = condition_decls();
    condition_decls_fit(t);
    assert forall|j: int| 0 <= j < i implies (#[trigger] ds[j]).name != ds[i].name by {
        condition_names_differ(j, i);
    }
    declared_class_inherits(t, ds, i, ancestor);
}

/// The ids of the condition classes.
#[derive(Clone, Copy, PartialEq, Eq, Structural, Debug)]
pub struct ConditionClasses {
    pub condition: ClassId,
    pub warning: ClassId,
    pub serious_condition: ClassId,
    pub error: ClassId,
    pub simple_condition: ClassId,
    pub simple_error: ClassId,
    pub simple_warning: ClassId,
    pub no_applicable_methods_error: ClassId,
    pub no_next_method_error: ClassId,
    pub simple_restart: ClassId,
    pub exit_procedure: ClassId,
}

/// The ids of the condition classes in a table.
pub open spec fn condition_classes(t: TableView) -> ConditionClasses {
    ConditionClasses {
        condition: t.named("<condition>"@)->0,
        warning: t.named("<warning>"@)->0,
        serious_condition: t.named("<serious-condition>"@)->0,
        error: t.named("<error>"@)->0,
        simple_condition: t.named("<simple-condition>"@)->0,
        simple_error: t.named("<simple-error>"@)->0,
        simple_warning: t.named("<simple-warning>"@)->0,
        no_applicable_methods_error: t.named("<no-applicable-methods-error>"@)->0,
        no_next_method_error: t.named("<no-next-method-error>"@)->0,
        simple_restart: t.named("<simple-restart>"@)->0,
        exit_procedure: t.named("<exit-procedure>"@)->0,
    }
}

/// Registers the condition classes that are not there yet.
pub fn ensure_registered(table: &mut ClassTable) -> (ids: ConditionClasses)
    requires
        old(table)@.wf(),
        old(table)@.room(CONDITION_ROOM as int),
    ensures
        final(table)@ == old(table)@.declared_all(condition_decls()),
        final(table)@.wf(),
        ids == condition_classes(final(table)@),
        forall|i: int|
            0 <= i < condition_decls().len() ==> final(table)@.named(
                (#[trigger] condition_decls()[i]).name,
            ) is Some,
        forall|n: int| #![trigger final(table)@.room(n)]
            n >= 0 && old(table)@.room(n + CONDITION_ROOM) ==> final(table)@.room(n),
{
    proof {
        condition_decls_fit(old(table)@);
    }
    let decls = build_condition_decls();
    declare_all(table, &decls);
    proof {
        let ds = condition_decls();
        assert forall|i: int| 0 <= i < ds.len() implies table@.named((#[trigger] ds[i]).name)
            is Some by {
            assert(ds[i] == decls@[i]@);
        }
        assert(ds[0].name == "<condition>"@);
        assert(ds[1].name == "<warning>"@);
        assert(ds[2].name == "<serious-condition>"@);
        assert(ds[3].name == "<error>"@);
        assert(ds[4].name == "<simple-condition>"@);
        assert(ds[5].name == "<simple-error>"@);
        assert(ds[6].name == "<simple-warning>"@);
        assert(ds[7].name == "<no-applicable-methods-error>"@);
        assert(ds[8].name == "<no-next-method-error>"@);
        assert(ds[9].name == "<simple-restart>"@);
        assert(ds[10].name == "<exit-procedure>"@);
    }
    ConditionClasses {
        condition: table.find_by_name("<condition>").unwrap(),
        warning: table.find_by_name("<warning>").unwrap(),
        serious_condition: table.find_by_name("<serious-condition>").unwrap(),
        error: table.find_by_name("<error>").unwrap(),
        simple_condition: table.find_by_name("<simple-condition>").unwrap(),
        simple_error: table.find_by_name("<simple-error>").unwrap(),
        simple_warning: table.find_by_name("<simple-warning>").unwrap(),
        no_applicable_methods_error: table.find_by_name("<no-applicable-methods-error>").unwrap(),
        no_next_method_error: table.find_by_name("<no-next-method-error>").unwrap(),
        simple_restart: table.find_by_name("<simple-restart>").unwrap(),
        exit_procedure: table.find_by_name("<exit-procedure>").unwrap(),
    }
}

/// The id of `<condition>`, registered if need be.
pub fn condition_class_id(table: &mut ClassTable) -> (id: ClassId)
    requires
        old(table)@.wf(),
        old(table)@.room(CONDITION_ROOM as int),
    ensures
        final(table)@ == old(table)@.declared_all(condition_decls()),
        final(table)@.named("<condition>"@) == Some(id),
        final(table)@.wf(),
        forall|n: int| #![trigger final(table)@.room(n)]
            n >= 0 && old(table)@.room(n + CONDITION_ROOM) ==> final(table)@.room(n),
{
    let ids = ensure_registered(table);
    assert(condition_decls()[0].name == "<condition>"@);
    ids.condition
}

/// The id of `<warning>`, registered if need be.
pub fn warning_class_id(table: &mut ClassTable) -> (id: ClassId)
    requires
        old(table)@.wf(),
        old(table)@.room(CONDITION_ROOM as int),
    ensures
        final(table)@ == old(table)@.declared_all(condition_decls()),
        final(table)@.named("<warning>"@) == Some(id),
        final(table)@.wf(),
        forall|n: int| #![trigger final(table)@.room(n)]
            n >= 0 && old(table)@.room(n + CONDITION_ROOM) ==> final(table)@.room(n),
{
    let ids = ensure_registered(table);
    assert(condition_decls()[1].name == "<warning>"@);
    ids.warning
}

/// The id of `<serious-condition>`, registered if need be.
pub fn serious_condition_class_id(table: &mut ClassTable) -> (id: ClassId)
    requires
        old(table)@.wf(),
        old(table)@.room(CONDITION_ROOM as int),
    ensures
        final(table)@ == old(table)@.declared_all(condition_decls()),
        final(table)@.named("<serious-condition>"@) == Some(id),
        final(table)@.wf(),
        forall|n: int| #![trigger final(table)@.room(n)]
            n >= 0 && old(table)@.room(n + CONDITION_ROOM) ==> final(table)@.room(n),
{
    let ids = ensure_registered(table);
    assert(condition_decls()[2].name == "<serious-condition>"@);
    ids.serious_condition
}

/// The id of `<error>`, registered if need be.
pub fn error_class_id(table: &mut ClassTable) -> (id: ClassId)
    requires
        old(table)@.wf(),
        old(table)@.room(CONDITION_ROOM as int),
    ensures
        final(table)@ == old(table)@.declared_all(condition_decls()),
        final(table)@.named("<error>"@) == Some(id),
        final(table)@.wf(),
        forall|n: int| #![trigger final(table)@.room(n)]
            n >= 0 && old(table)@.room(n + CONDITION_ROOM) ==> final(table)@.room(n),
{
    let ids = ensure_registered(table);
    assert(condition_decls()[3].name == "<error>"@);
    ids.error
}

/// The id of `<simple-condition>`, registered if need be.
pub fn simple_condition_class_id(table: &mut ClassTable) -> (id: ClassId)
    requires
        old(table)@.wf(),
        old(table)@.room(CONDITION_ROOM as int),
    ensures
        final(table)@ == old(table)@.declared_all(condition_decls()),
        final(table)@.named("<simple-condition>"@) == Some(id),
        final(table)@.wf(),
        forall|n: int| #![trigger final(table)@.room(n)]
            n >= 0 && old(table)@.room(n + CONDITION_ROOM) ==> final(table)@.room(n),
{
    let ids = ensure_registered(table);
    assert(condition_decls()[4].name == "<simple-condition>"@);
    ids.simple_condition
}

/// The id of `<simple-error>`, registered if need be.
pub fn simple_error_class_id(table: &mut ClassTable) -> (id: ClassId)
    requires
        old(table)@.wf(),
        old(table)@.room(CONDITION_ROOM as int),
    ensures
        final(table)@ == old(table)@.declared_all(condition_decls()),
        final(table)@.named("<simple-error>"@) == Some(id),
        final(table)@.wf(),
        forall|n: int| #![trigger final(table)@.room(n)]
            n >= 0 && old(table)@.room(n + CONDITION_ROOM) ==> final(table)@.room(n),
{
    let ids = ensure_registered(table);
    assert(condition_decls()[5].name == "<simple-error>"@);
    ids.simple_error
}

/// The id of `<simple-warning>`, registered if need be.
pub fn simple_warning_class_id(table: &mut ClassTable) -> (id: ClassId)
    requires
        old(table)@.wf(),
        old(table)@.room(CONDITION_ROOM as int),
    ensures
        final(table)@ == old(table)@.declared_all(condition_decls()),
        final(table)@.named("<simple-warning>"@) == Some(id),
        final(table)@.wf(),
        forall|n: int| #![trigger final(table)@.room(n)]
            n >= 0 && old(table)@.room(n + CONDITION_ROOM) ==> final(table)@.room(n),
{
    let ids = ensure_registered(table);
    assert(condition_decls()[6].name == "<simple-warning>"@);
    ids.simple_warning
}

/// The id of `<no-applicable-methods-error>`, registered if need be.
pub fn no_applicable_methods_error_class_id(table: &mut ClassTable) -> (id: ClassId)
    requires
        old(table)@.wf(),
        old(table)@.room(CONDITION_ROOM as int),
    ensures
        final(table)@ == old(table)@.declared_all(condition_decls()),
        final(table)@.named("<no-applicable-methods-error>"@) == Some(id),
        final(table)@.wf(),
        forall|n: int| #![trigger final(table)@.room(n)]
            n >= 0 && old(table)@.room(n + CONDITION_ROOM) ==> final(table)@.room(n),
{
    let ids = ensure_registered(table);
    assert(condition_decls()[7].name == "<no-applicable-methods-error>"@);
    ids.no_applicable_methods_error
}

/// The id of `<no-next-method-error>`, registered if need be.
pub fn no_next_method_error_class_id(table: &mut ClassTable) -> (id: ClassId)
    requires
        old(table)@.wf(),
        old(table)@.room(CONDITION_ROOM as int),
    ensures
        final(table)@ == old(table)@.declared_all(condition_decls()),
        final(table)@.named("<no-next-method-error>"@) == Some(id),
        final(table)@.wf(),
        forall|n: int| #![trigger final(table)@.room(n)]
            n >= 0 && old(table)@.room(n + CONDITION_ROOM) ==> final(table)@.room(n),
{
    let ids = ensure_registered(table);
    assert(condition_decls()[8].name == "<no-next-method-error>"@);
    ids.no_next_method_error
}

/// The id of `<simple-restart>`, registered if need be.
pub fn simple_restart_class_id(table: &mut ClassTable) -> (id: ClassId)
    requires
        old(table)@.wf(),
        old(table)@.room(CONDITION_ROOM as int),
    ensures
        final(table)@ == old(table)@.declared_all(condition_decls()),
        final(table)@.named("<simple-restart>"@) == Some(id),
        final(table)@.wf(),
        forall|n: int| #![trigger final(table)@.room(n)]
            n >= 0 && old(table)@.room(n + CONDITION_ROOM) ==> final(table)@.room(n),
{
    let ids = ensure_registered(table);
    assert(condition_decls()[9].name == "<simple-restart>"@);
    ids.simple_restart
}

/// The id of `<exit-procedure>`, registered if need be.
pub fn exit_procedure_class_id(table: &mut ClassTable) -> (id: ClassId)
    requires
        old(table)@.wf(),
        old(table)@.room(CONDITION_ROOM as int),
    ensures
        final(table)@ == old(table)@.declared_all(condition_decls()),
        final(table)@.named("<exit-procedure>"@) == Some(id),
        final(table)@.wf(),
        forall|n: int| #![trigger final(table)@.room(n)]
            n >= 0 && old(table)@.room(n + CONDITION_ROOM) ==> final(table)@.room(n),
{
    let ids = ensure_registered(table);
    assert(condition_decls()[10].name == "<exit-procedure>"@);
    ids.exit_procedure
}

// ----- making and reading conditions -----

/// The class of the object that a condition word points at, by name.
pub fn condition_class_name(table: &ClassTable, heap: &Heap, condition: Word) -> (name: Option<
    String,
>)
    ensures
        name is Some <==> class_at(heap@, condition) is Some,
        name is Some ==> name->0@ == shown_name(table@, class_at(heap@, condition)->0),
{
    match heap.class_of(condition) {
        Some(c) => Some(class_name(table, c)),
        None => None,
    }
}

/// A condition that carries a message: its other slots are unbound.
pub open spec fn message_condition(class: ClassId, message: Word) -> ObjectView {
    cells_object(class, seq![zero_word(), zero_word(), message])
}

/// The heap after making a condition that carries a message, which is a literal.
pub open spec fn with_message_condition(
    literals: Seq<(Seq<char>, u64)>,
    h: Seq<ObjectView>,
    class: ClassId,
    message: Seq<char>,
) -> Seq<ObjectView> {
    heap_with_literal(literals, h, message).push(
        message_condition(class, literal_of(literals, h, message)),
    )
}

/// What making a condition that carries a message comes to: the message has its
/// literal, and the condition is the next object.
pub open spec fn message_condition_made(
    literals: Seq<(Seq<char>, u64)>,
    h: Seq<ObjectView>,
    class: ClassId,
    message: Seq<char>,
    literals_after: Seq<(Seq<char>, u64)>,
    h_after: Seq<ObjectView>,
    w: Word,
) -> bool {
    &&& w == word_of(heap_with_literal(literals, h, message).len() as int)
    &&& h_after == with_message_condition(literals, h, class, message)
    &&& literals_after == pool_with_literal(literals, h, message)
}

fn make_message_condition(
    literals: &mut LiteralPool,
    heap: &mut Heap,
    class: ClassId,
    message: &str,
) -> (w: Word)
    requires
        heap_wf(old(heap)@),
        heap_room(old(heap)@, 2),
    ensures
        message_condition_made(
            old(literals)@,
            old(heap)@,
            class,
            message@,
            final(literals)@,
            final(heap)@,
            w,
        ),
        heap_wf(final(heap)@),
{
    let text = intern_string_literal(literals, heap, message);
    let cells = vec![Word::from_raw(0), Word::from_raw(0), text];
    assert(cells@ =~= seq![zero_word(), zero_word(), text]);
    proof {
        push_keeps_wf(heap@, cells_object(class, cells@));
    }
    heap.alloc_cells(class, cells)
}

/// Makes a `<simple-error>`.
pub fn make_simple_error(
    literals: &mut LiteralPool,
    heap: &mut Heap,
    ids: &ConditionClasses,
    message: &str,
) -> (w: Word)
    requires
        heap_wf(old(heap)@),
        heap_room(old(heap)@, 2),
    ensures
        message_condition_made(
            old(literals)@,
            old(heap)@,
            ids.simple_error,
            message@,
            final(literals)@,
            final(heap)@,
            w,
        ),
        heap_wf(final(heap)@),
{
    make_message_condition(literals, heap, ids.simple_error, message)
}

/// Makes a `<simple-warning>`.
pub fn make_simple_warning(
    literals: &mut LiteralPool,
    heap: &mut Heap,
    ids: &ConditionClasses,
    message: &str,
) -> (w: Word)
    requires
        heap_wf(old(heap)@),
        heap_room(old(heap)@, 2),
    ensures
        message_condition_made(
            old(literals)@,
            old(heap)@,
            ids.simple_warning,
            message@,
            final(literals)@,
            final(heap)@,
            w,
        ),
        heap_wf(final(heap)@),
{
    make_message_condition(literals, heap, ids.simple_warning, message)
}

/// Makes a `<simple-condition>`.
pub fn make_simple_condition(
    literals: &mut LiteralPool,
    heap: &mut Heap,
    ids: &ConditionClasses,
    message: &str,
) -> (w: Word)
    requires
        heap_wf(old(heap)@),
        heap_room(old(heap)@, 2),
    ensures
        message_condition_made(
            old(literals)@,
            old(heap)@,
            ids.simple_condition,
            message@,
            final(literals)@,
            final(heap)@,
            w,
        ),
        heap_wf(final(heap)@),
{
    make_message_condition(literals, heap, ids.simple_condition, message)
}

/// Makes a `<no-applicable-methods-error>` that carries the name of the generic
/// and the names of the argument classes, separated by commas.
pub fn make_no_applicable_methods_error(
    literals: &mut LiteralPool,
    heap: &mut Heap,
    ids: &ConditionClasses,
    generic: &str,
    arg_class_names: &Vec<String>,
) -> (w: Word)
    requires
        heap_wf(old(heap)@),
        heap_room(old(heap)@, 3),
    ensures
        ({
            let names = joined(text_views(arg_class_names@), ", "@);
            let p = pool_with_literal(old(literals)@, old(heap)@, generic@);
            let h = heap_with_literal(old(literals)@, old(heap)@, generic@);
            let g = heap_with_literal(p, h, names);
            &&& w == word_of(g.len() as int)
            &&& final(literals)@ == pool_with_literal(p, h, names)
            &&& final(heap)@ == g.push(
                cells_object(
                    ids.no_applicable_methods_error,
                    seq![
                        literal_of(old(literals)@, old(heap)@, generic@),
                        literal_of(p, h, names),
                    ],
                ),
            )
        }),
        heap_wf(final(heap)@),
{
    let g = intern_string_literal(literals, heap, generic);
    let names = join(arg_class_names, ", ");
    let n = intern_string_literal(literals, heap, names.as_str());
    let cells = vec![g, n];
    assert(cells@ =~= seq![g, n]);
    proof {
        push_keeps_wf(heap@, cells_object(ids.no_applicable_methods_error, cells@));
    }
    heap.alloc_cells(ids.no_applicable_methods_error, cells)
}

/// A word is the symbol of a name.
pub open spec fn is_symbol(h: Seq<ObjectView>, w: Word, name: Seq<char>) -> bool {
    &&& class_at(h, w) == Some(ClassId(ClassId::SYMBOL))
    &&& cell_at(h, w, 0) is Some
    &&& object_at(h, cell_at(h, w, 0)->0) == Some(bytes_object(encode_utf8(name)))
}

/// Whether two byte runs are equal.
pub fn same_bytes(a: &Vec<u8>, b: &Vec<u8>) -> (r: bool)
    ensures
        r == (a@ == b@),
{
    if a.len() != b.len() {
        return false;
    }
    let mut i: usize = 0;
    while i < a.len()
        invariant
            a.len() == b.len(),
            i <= a.len(),
            forall|k: int| 0 <= k < i ==> a@[k] == b@[k],
        decreases a.len() - i,
    {
        if a[i] != b[i] {
            return false;
        }
        i += 1;
    }
    assert(a@ =~= b@);
    true
}

/// Whether a word is the symbol of a name that is given in UTF-8.
fn is_symbol_of(heap: &Heap, w: Word, bytes: &Vec<u8>) -> (b: bool)
    ensures
        b == (class_at(heap@, w) == Some(ClassId(ClassId::SYMBOL)) && cell_at(heap@, w, 0) is Some
            && object_at(heap@, cell_at(heap@, w, 0)->0) == Some(bytes_object(bytes@))),
{
    match heap.get(w) {
        Some(o) => {
            if o.class != ClassId(ClassId::SYMBOL) || o.cells.len() == 0 {
                return false;
            }
            match heap.get(o.cells[0]) {
                Some(s) => {
                    let r = s.class == ClassId(ClassId::BYTE_STRING) && s.cells.len() == 0
                        && same_bytes(&s.bytes, bytes);
                    proof {
                        if r {
                            assert(s@ =~= bytes_object(bytes@));
                        }
                    }
                    r
                },
                None => false,
            }
        },
        None => false,
    }
}

/// The heap with a new symbol of a name.
pub open spec fn with_symbol(h: Seq<ObjectView>, name: Seq<char>) -> Seq<ObjectView> {
    h.push(bytes_object(encode_utf8(name))).push(
        cells_object(ClassId(ClassId::SYMBOL), seq![word_of(h.len() as int)]),
    )
}

/// The symbol of a name: the one that is there, else a new one.
pub fn intern_symbol(heap: &mut Heap, name: &str) -> (w: Word)
    requires
        heap_wf(old(heap)@),
        heap_room(old(heap)@, 2),
    ensures
        is_symbol(final(heap)@, w, name@),
        (exists|v: Word| is_symbol(old(heap)@, v, name@)) ==> final(heap)@ == old(heap)@,
        !(exists|v: Word| is_symbol(old(heap)@, v, name@)) ==> w == word_of(
            old(heap)@.len() as int + 1,
        ) && final(heap)@ == old(heap)@.push(bytes_object(encode_utf8(name@))).push(
            cells_object(ClassId(ClassId::SYMBOL), seq![word_of(old(heap)@.len() as int)]),
        ),
        heap_wf(final(heap)@),
{
    let bytes = name.as_bytes_vec();
    let n: usize = heap.len();
    let mut i: usize = 0;
    while i < n
        invariant
            i <= n,
            n == heap@.len(),
            *heap == *old(heap),
            heap_wf(heap@),
            bytes@ == encode_utf8(name@),
            forall|k: int| 0 <= k < i ==> !is_symbol(heap@, #[trigger] word_of(k), name@),
        decreases n - i,
    {
        let w = Word::from_raw(8 * (i as u64 + 1) + 1);
        assert(w == word_of(i as int));
        if is_symbol_of(heap, w, &bytes) {
            return w;
        }
        i += 1;
    }
    proof {
        assert forall|v: Word| !is_symbol(heap@, v, name@) by {
            if is_symbol(heap@, v, name@) {
                crate::heap::pointer_is_word_of(heap@, v);
            }
        }
    }
    let text = heap.alloc_byte_string(bytes);
    proof {
        push_keeps_wf(old(heap)@, heap@.last());
    }
    let cells = vec![text];
    assert(cells@ =~= seq![text]);
    proof {
        push_keeps_wf(heap@, cells_object(ClassId(ClassId::SYMBOL), cells@));
    }
    let w = heap.alloc_cells(ClassId(ClassId::SYMBOL), cells);
    assert(object_at(heap@, text) == Some(bytes_object(encode_utf8(name@))));
    w
}

/// Makes a `<simple-restart>` with a name and a description.
pub fn make_simple_restart(
    literals: &mut LiteralPool,
    heap: &mut Heap,
    ids: &ConditionClasses,
    name: &str,
    description: &str,
) -> (w: Word)
    requires
        heap_wf(old(heap)@),
        heap_room(old(heap)@, 4),
    ensures
        ({
            let known = exists|v: Word| is_symbol(old(heap)@, v, name@);
            let h = if known {
                old(heap)@
            } else {
                with_symbol(old(heap)@, name@)
            };
            &&& is_symbol(h, cell_at(final(heap)@, w, 0)->0, name@)
            &&& !known ==> cell_at(final(heap)@, w, 0)->0 == word_of(old(heap)@.len() as int + 1)
            &&& w == word_of(heap_with_literal(old(literals)@, h, description@).len() as int)
            &&& final(literals)@ == pool_with_literal(old(literals)@, h, description@)
            &&& final(heap)@ == heap_with_literal(old(literals)@, h, description@).push(
                cells_object(
                    ids.simple_restart,
                    seq![
                        cell_at(final(heap)@, w, 0)->0,
                        literal_of(old(literals)@, h, description@),
                    ],
                ),
            )
        }),
        is_symbol(final(heap)@, cell_at(final(heap)@, w, 0)->0, name@),
        heap_wf(final(heap)@),
{
    let n = intern_symbol(heap, name);
    let ghost first = heap@;
    let d = intern_string_literal(literals, heap, description);
    let ghost second = heap@;
    let cells = vec![n, d];
    assert(cells@ =~= seq![n, d]);
    proof {
        push_keeps_wf(heap@, cells_object(ids.simple_restart, cells@));
    }
    let w = heap.alloc_cells(ids.simple_restart, cells);
    proof {
        assert(heap@[second.len() as int] == cells_object(ids.simple_restart, seq![n, d]));
        assert(cell_at(heap@, w, 0) == Some(n));
        assert(cell_at(heap@, n, 0) == cell_at(first, n, 0));
    }
    w
}

/// Restarts cannot be invoked yet; this is what is said to a caller who tries.
pub fn invoke_restart(_r: Word) -> (refusal: &'static str)
    ensures
        refusal@
            == "Sprint 19: invoke-restart not implemented; full restart semantics deferred to Sprint 22"@,
{
    "Sprint 19: invoke-restart not implemented; full restart semantics deferred to Sprint 22"
}

/// The message slot of a condition; the zero word for a word that has none.
pub fn condition_message(heap: &Heap, c: Word) -> (w: Word)
    ensures
        w == match cell_at(heap@, c, 2) {
            Some(m) => m,
            None => zero_word(),
        },
{
    match heap.cell(c, 2) {
        Some(m) => m,
        None => Word::from_raw(0),
    }
}

/// The message slot of a condition, on raw words.
pub fn nod_condition_message(heap: &Heap, c_raw: u64) -> (w: u64)
    ensures
        w == (match cell_at(heap@, Word { raw: c_raw }, 2) {
            Some(m) => m,
            None => zero_word(),
        }).raw,
{
    condition_message(heap, Word::from_raw(c_raw)).raw()
}

/// A condition that was made with a message gives the message back, and two made
/// with one message share it.
pub proof fn message_round_trip(
    literals: Seq<(Seq<char>, u64)>,
    h: Seq<ObjectView>,
    class: ClassId,
    message: Seq<char>,
    other: ClassId,
)
    requires
        heap_wf(h),
        heap_room(h, 3),
        literals_hold(literals, h),
    ensures
        ({
            let g = with_message_condition(literals, h, class, message);
            let w = word_of(heap_with_literal(literals, h, message).len() as int);
            let p = pool_with_literal(literals, h, message);
            let again = with_message_condition(p, g, other, message);
            let v = word_of(g.len() as int);
            &&& class_at(g, w) == Some(class)
            &&& cell_at(g, w, 2) is Some
            &&& held_text(g, cell_at(g, w, 2)->0) == Some(message)
            &&& literals_hold(p, g)
            &&& again.len() == g.len() + 1
            &&& class_at(again, v) == Some(other)
            &&& cell_at(again, v, 2) == cell_at(g, w, 2)
        }),
{
    let base = heap_with_literal(literals, h, message);
    let g = with_message_condition(literals, h, class, message);
    let p = pool_with_literal(literals, h, message);
    let m = literal_of(literals, h, message);
    literal_holds_its_text(literals, h, message);
    assert(g.take(base.len() as int) =~= base);
    literals_hold_on_grown_heap(p, base, g);
    interning_is_idempotent(literals, h, message, g, message);
    assert(g[base.len() as int] == message_condition(class, m));
    let k = index_of(m);
    assert(g[k] == base[k]);
    let again = with_message_condition(p, g, other, message);
    assert(again[g.len() as int] == message_condition(other, m));
    encode_utf8_valid_utf8(message);
    encode_utf8_decode_utf8(message);
}

// ----- exit procedures -----

/// Makes the exit procedure of a block.
pub fn make_exit_procedure(heap: &mut Heap, ids: &ConditionClasses, block_id: u64) -> (w: Word)
    requires
        heap_wf(old(heap)@),
        heap_room(old(heap)@, 1),
        block_id <= FIXNUM_MAX,
    ensures
        w == word_of(old(heap)@.len() as int),
        final(heap)@ == old(heap)@.push(
            cells_object(ids.exit_procedure, seq![fixnum(block_id as int)]),
        ),
        exit_block(final(heap)@, *ids, w) == Some(block_id),
        heap_wf(final(heap)@),
{
    let cells = vec![Word::fixnum_unchecked(block_id as i64)];
    assert(cells@ =~= seq![fixnum(block_id as int)]);
    proof {
        push_keeps_wf(heap@, cells_object(ids.exit_procedure, cells@));
        fixnum_round_trip(block_id as int);
    }
    heap.alloc_cells(ids.exit_procedure, cells)
}

/// The block that an exit procedure leaves.
pub open spec fn exit_block(h: Seq<ObjectView>, ids: ConditionClasses, w: Word) -> Option<u64> {
    if class_at(h, w) == Some(ids.exit_procedure) {
        match cell_at(h, w, 0) {
            Some(c) => match c.spec_as_fixnum() {
                Some(n) => Some(#[verifier::truncate] (n as u64)),
                None => None,
            },
            None => None,
        }
    } else {
        None
    }
}

/// The block that an exit procedure leaves; absent for a word that is none.
pub fn exit_procedure_block_id(heap: &Heap, ids: &ConditionClasses, ep: Word) -> (id: Option<u64>)
    ensures
        id == exit_block(heap@, *ids, ep),
{
    if !heap.is_instance(ep, ids.exit_procedure) {
        return None;
    }
    match heap.cell(ep, 0) {
        Some(c) => match c.as_fixnum() {
            Some(n) => Some(#[verifier::truncate] (n as u64)),
            None => None,
        },
        None => None,
    }
}

/// Makes the exit procedure of a block, on raw words.
pub fn nod_make_exit_procedure(heap: &mut Heap, ids: &ConditionClasses, block_id: u64) -> (w: u64)
    requires
        heap_wf(old(heap)@),
        heap_room(old(heap)@, 1),
        block_id <= FIXNUM_MAX,
    ensures
        w == word_of(old(heap)@.len() as int).raw,
        final(heap)@ == old(heap)@.push(
            cells_object(ids.exit_procedure, seq![fixnum(block_id as int)]),
        ),
        exit_block(final(heap)@, *ids, Word { raw: w }) == Some(block_id),
        heap_wf(final(heap)@),
{
    make_exit_procedure(heap, ids, block_id).raw()
}

/// A non-local exit: the block to leave and the value it gives.
#[derive(Clone, Copy, PartialEq, Eq, Structural, Debug)]
pub struct NlxPayload {
    pub target_block_id: u64,
    pub value: Word,
}

/// The exit that calling an exit procedure starts; absent for a word that is
/// none.
pub fn nod_invoke_exit(heap: &Heap, ids: &ConditionClasses, ep_raw: u64, value: u64) -> (exit:
    Option<NlxPayload>)
    ensures
        exit == match exit_block(heap@, *ids, Word { raw: ep_raw }) {
            Some(id) => Some(NlxPayload { target_block_id: id, value: Word { raw: value } }),
            None => None::<NlxPayload>,
        },
{
    match exit_procedure_block_id(heap, ids, Word::from_raw(ep_raw)) {
        Some(id) => Some(NlxPayload { target_block_id: id, value: Word::from_raw(value) }),
        None => None,
    }
}

// ----- what conditions and exits are for -----

/// An exit procedure names the block of the number in its slot; nothing else names
/// a block.
pub proof fn exit_procedures_name_their_block(
    h: Seq<ObjectView>,
    ids: ConditionClasses,
    w: Word,
    o: ObjectView,
    n: int,
)
    requires
        object_at(h, w) == Some(o),
        0 <= n <= FIXNUM_MAX,
    ensures
        o.class == ids.exit_procedure && o.cells.len() > 0 && o.cells[0] == fixnum(n)
            ==> exit_block(h, ids, w) == Some(n as u64),
        o.class != ids.exit_procedure ==> exit_block(h, ids, w) is None,
{
    fixnum_round_trip(n);
}

/// A word that points at nothing names no block.
pub proof fn other_words_name_no_block(h: Seq<ObjectView>, ids: ConditionClasses, w: Word)
    requires
        object_at(h, w) is None,
    ensures
        exit_block(h, ids, w) is None,
{
}

/// A condition that carries a message has it in its third slot.
pub proof fn messages_stand_in_the_third_slot(class: ClassId, message: Word)
    ensures
        message_condition(class, message).class == class,
        message_condition(class, message).cells.len() == 3,
        message_condition(class, message).cells[2] == message,
{
}

/// A symbol that is made for a name is the symbol of that name and of no other.
pub proof fn symbols_are_those_of_their_names(
    h: Seq<ObjectView>,
    name: Seq<char>,
    other: Seq<char>,
)
    requires
        heap_wf(h),
        heap_room(h, 2),
    ensures
        is_symbol(with_symbol(h, name), word_of(h.len() as int + 1), name),
        other != name ==> !is_symbol(with_symbol(h, name), word_of(h.len() as int + 1), other),
        with_symbol(h, name).len() == h.len() + 2,
        with_symbol(h, name).take(h.len() as int) == h,
{
    let g = with_symbol(h, name);
    let n = h.len() as int;
    assert(g[n] == bytes_object(encode_utf8(name)));
    assert(g[n + 1] == cells_object(ClassId(ClassId::SYMBOL), seq![word_of(n)]));
    assert(g.take(n) =~= h);
    encode_utf8_valid_utf8(name);
    encode_utf8_decode_utf8(name);
    encode_utf8_valid_utf8(other);
    encode_utf8_decode_utf8(other);
}

/// A condition that is made for a message is of its class, carries the message in its third
/// slot and leaves the objects that were there.
pub proof fn conditions_carry_their_message(
    literals: Seq<(Seq<char>, u64)>,
    h: Seq<ObjectView>,
    class: ClassId,
    message: Seq<char>,
    literals_after: Seq<(Seq<char>, u64)>,
    h_after: Seq<ObjectView>,
    w: Word,
)
    requires
        heap_wf(h),
        heap_room(h, 2),
        literals_hold(literals, h),
        message_condition_made(literals, h, class, message, literals_after, h_after, w),
    ensures
        class_at(h_after, w) == Some(class),
        cell_at(h_after, w, 2) is Some,
        object_at(h_after, cell_at(h_after, w, 2)->0) == Some(bytes_object(encode_utf8(message))),
        h_after.len() >= h.len(),
        h_after.take(h.len() as int) == h,
{
    let g = heap_with_literal(literals, h, message);
    literal_holds_its_text(literals, h, message);
    let o = message_condition(class, literal_of(literals, h, message));
    assert(h_after == g.push(o));
    assert(h_after[g.len() as int] == o);
    let k = index_of(literal_of(literals, h, message));
    assert(h_after[k] == g[k]);
    assert(h_after.take(h.len() as int) =~= h);
}

} // verus!
