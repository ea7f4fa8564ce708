//! The library classes stand where they belong.
//!
//! Whatever was registered before, and in whatever order, a library class that is
//! registered outside of shims gets the id that its name is pinned to, and the
//! superclass of its declaration. Registering it again changes nothing.

use vstd::prelude::*;

use crate::c_types::{
    c_float_type_decls, c_float_type_decls_fit, c_type_decls, c_type_decls_fit,
    with_c_float_type_classes, with_c_type_classes,
};
use crate::class_pins::{pinned, CLASS_PINS, PIN_FLOOR};
use crate::classes::{seed_table, ClassId, SlotDefault, TableView};
use crate::closures::{closure_classes, closure_decls, closure_decls_fit, with_closure_classes};
use crate::collections::{
    collection_classes, collection_decls, collection_decls_fit, with_collection_classes,
};
use crate::conditions::{condition_classes, condition_decls, condition_decls_fit};
use crate::declare::{
    declared_class_is_pinned, declared_class_stands, declaring_all_keeps_classes,
    declaring_is_idempotent, declaring_keeps_heads, declaring_keeps_identity,
    declaring_keeps_standing, declaring_keeps_wf, declaring_known_is_noop,
    declaring_library_takes_no_ids, declaring_respects_pins,
    fresh_table_has_no_library_class, seed_table_is_sound, undeclared_stays_unknown,
    DeclView,
};
use crate::functions::{
    function_classes, function_decls, function_decls_fit, with_function_classes,
};
use crate::pin_rows::row_is_pinned;
use crate::winffi::{ffi_classes, ffi_decls, ffi_decls_fit, with_ffi_classes};
use crate::word::fixnum;

verus! {

/// The groups of library classes that are registered together.
pub enum LibraryModule {
    /// Conditions and exit procedures.
    Conditions,
    /// Collections and iteration states.
    Collections,
    /// Functions.
    Functions,
    /// Cells and environments.
    Closures,
    /// C types.
    CTypes,
    /// C floating-point types.
    CFloatTypes,
    /// Errors of foreign calls.
    ForeignCalls,
}

impl LibraryModule {
    /// The classes of the group.
    pub open spec fn decls(self) -> Seq<DeclView> {
        match self {
            LibraryModule::Conditions => condition_decls(),
            LibraryModule::Collections => collection_decls(),
            LibraryModule::Functions => function_decls(),
            LibraryModule::Closures => closure_decls(),
            LibraryModule::CTypes => c_type_decls(),
            LibraryModule::CFloatTypes => c_float_type_decls(),
            LibraryModule::ForeignCalls => ffi_decls(),
        }
    }

    /// Whether the condition classes are registered first.
    pub open spec fn needs_conditions(self) -> bool {
        match self {
            LibraryModule::Conditions => false,
            LibraryModule::Collections => true,
            LibraryModule::Functions => true,
            LibraryModule::Closures => false,
            LibraryModule::CTypes => false,
            LibraryModule::CFloatTypes => false,
            LibraryModule::ForeignCalls => true,
        }
    }

    /// The table after registering the group.
    pub open spec fn registered(self, t: TableView) -> TableView {
        match self {
            LibraryModule::Conditions => t.declared_all(condition_decls()),
            LibraryModule::Collections => with_collection_classes(t),
            LibraryModule::Functions => with_function_classes(t),
            LibraryModule::Closures => with_closure_classes(t),
            LibraryModule::CTypes => with_c_type_classes(t),
            LibraryModule::CFloatTypes => with_c_float_type_classes(t),
            LibraryModule::ForeignCalls => with_ffi_classes(t),
        }
    }

    /// The row of the pin table where the group begins.
    spec fn row(self) -> int {
        match self {
            LibraryModule::Conditions => 0,
            LibraryModule::Collections => 11,
            LibraryModule::Functions => 32,
            LibraryModule::Closures => 34,
            LibraryModule::CTypes => 36,
            LibraryModule::CFloatTypes => 52,
            LibraryModule::ForeignCalls => 54,
        }
    }
}

proof fn condition_rows(i: int)
    requires
        0 <= i < condition_decls().len(),
    ensures
        condition_decls().len() == 11,
        condition_decls()[i].name == CLASS_PINS@[0 + i].0@,
{
    assert(condition_decls()[0].name == "<condition>"@);
    assert(CLASS_PINS@[0].0@ == "<condition>"@);
    assert(condition_decls()[1].name == "<warning>"@);
    assert(CLASS_PINS@[1].0@ == "<warning>"@);
    assert(condition_decls()[2].name == "<serious-condition>"@);
    assert(CLASS_PINS@[2].0@ == "<serious-condition>"@);
    assert(condition_decls()[3].name == "<error>"@);
    assert(CLASS_PINS@[3].0@ == "<error>"@);
    assert(condition_decls()[4].name == "<simple-condition>"@);
    assert(CLASS_PINS@[4].0@ == "<simple-condition>"@);
    assert(condition_decls()[5].name == "<simple-error>"@);
    assert(CLASS_PINS@[5].0@ == "<simple-error>"@);
    assert(condition_decls()[6].name == "<simple-warning>"@);
    assert(CLASS_PINS@[6].0@ == "<simple-warning>"@);
    assert(condition_decls()[7].name == "<no-applicable-methods-error>"@);
    assert(CLASS_PINS@[7].0@ == "<no-applicable-methods-error>"@);
    assert(condition_decls()[8].name == "<no-next-method-error>"@);
    assert(CLASS_PINS@[8].0@ == "<no-next-method-error>"@);
    assert(condition_decls()[9].name == "<simple-restart>"@);
    assert(CLASS_PINS@[9].0@ == "<simple-restart>"@);
    assert(condition_decls()[10].name == "<exit-procedure>"@);
    assert(CLASS_PINS@[10].0@ == "<exit-procedure>"@);
}

proof fn collection_rows(i: int)
    requires
        0 <= i < collection_decls().len(),
    ensures
        collection_decls().len() == 10,
        collection_decls()[i].name == CLASS_PINS@[11 + i].0@,
{
    assert(collection_decls()[0].name == "<collection>"@);
    assert(CLASS_PINS@[11].0@ == "<collection>"@);
    assert(collection_decls()[1].name == "<mutable-collection>"@);
    assert(CLASS_PINS@[12].0@ == "<mutable-collection>"@);
    assert(collection_decls()[2].name == "<sequence>"@);
    assert(CLASS_PINS@[13].0@ == "<sequence>"@);
    assert(collection_decls()[3].name == "<mutable-sequence>"@);
    assert(CLASS_PINS@[14].0@ == "<mutable-sequence>"@);
    assert(collection_decls()[4].name == "<explicit-key-collection>"@);
    assert(CLASS_PINS@[15].0@ == "<explicit-key-collection>"@);
    assert(collection_decls()[5].name == "<stretchy-collection>"@);
    assert(CLASS_PINS@[16].0@ == "<stretchy-collection>"@);
    assert(collection_decls()[6].name == "<iteration-state>"@);
    assert(CLASS_PINS@[17].0@ == "<iteration-state>"@);
    assert(collection_decls()[7].name == "<range>"@);
    assert(CLASS_PINS@[18].0@ == "<range>"@);
    assert(collection_decls()[8].name == "<stretchy-vector>"@);
    assert(CLASS_PINS@[19].0@ == "<stretchy-vector>"@);
    assert(collection_decls()[9].name == "<out-of-range-error>"@);
    assert(CLASS_PINS@[20].0@ == "<out-of-range-error>"@);
}

proof fn function_rows(i: int)
    requires
        0 <= i < function_decls().len(),
    ensures
        function_decls().len() == 2,
        function_decls()[i].name == CLASS_PINS@[32 + i].0@,
{
    assert(function_decls()[0].name == "<function>"@);
    assert(CLASS_PINS@[32].0@ == "<function>"@);
    assert(function_decls()[1].name == "<wrong-number-of-arguments-error>"@);
    assert(CLASS_PINS@[33].0@ == "<wrong-number-of-arguments-error>"@);
}

proof fn closure_rows(i: int)
    requires
        0 <= i < closure_decls().len(),
    ensures
        closure_decls().len() == 2,
        closure_decls()[i].name == CLASS_PINS@[34 + i].0@,
{
    assert(closure_decls()[0].name == "<cell>"@);
    assert(CLASS_PINS@[34].0@ == "<cell>"@);
    assert(closure_decls()[1].name == "<environment>"@);
    assert(CLASS_PINS@[35].0@ == "<environment>"@);
}

proof fn c_type_rows(i: int)
    requires
        0 <= i < c_type_decls().len(),
    ensures
        c_type_decls().len() == 16,
        c_type_decls()[i].name == CLASS_PINS@[36 + i].0@,
{
    assert(c_type_decls()[0].name == "<c-bool>"@);
    assert(CLASS_PINS@[36].0@ == "<c-bool>"@);
    assert(c_type_decls()[1].name == "<c-int>"@);
    assert(CLASS_PINS@[37].0@ == "<c-int>"@);
    assert(c_type_decls()[2].name == "<c-uint>"@);
    assert(CLASS_PINS@[38].0@ == "<c-uint>"@);
    assert(c_type_decls()[3].name == "<c-short>"@);
    assert(CLASS_PINS@[39].0@ == "<c-short>"@);
    assert(c_type_decls()[4].name == "<c-ushort>"@);
    assert(CLASS_PINS@[40].0@ == "<c-ushort>"@);
    assert(c_type_decls()[5].name == "<c-long>"@);
    assert(CLASS_PINS@[41].0@ == "<c-long>"@);
    assert(c_type_decls()[6].name == "<c-ulong>"@);
    assert(CLASS_PINS@[42].0@ == "<c-ulong>"@);
    assert(c_type_decls()[7].name == "<c-longlong>"@);
    assert(CLASS_PINS@[43].0@ == "<c-longlong>"@);
    assert(c_type_decls()[8].name == "<c-ulonglong>"@);
    assert(CLASS_PINS@[44].0@ == "<c-ulonglong>"@);
    assert(c_type_decls()[9].name == "<c-dword>"@);
    assert(CLASS_PINS@[45].0@ == "<c-dword>"@);
    assert(c_type_decls()[10].name == "<c-word>"@);
    assert(CLASS_PINS@[46].0@ == "<c-word>"@);
    assert(c_type_decls()[11].name == "<c-byte>"@);
    assert(CLASS_PINS@[47].0@ == "<c-byte>"@);
    assert(c_type_decls()[12].name == "<c-pointer>"@);
    assert(CLASS_PINS@[48].0@ == "<c-pointer>"@);
    assert(c_type_decls()[13].name == "<c-handle>"@);
    assert(CLASS_PINS@[49].0@ == "<c-handle>"@);
    assert(c_type_decls()[14].name == "<c-string>"@);
    assert(CLASS_PINS@[50].0@ == "<c-string>"@);
    assert(c_type_decls()[15].name == "<c-wide-string>"@);
    assert(CLASS_PINS@[51].0@ == "<c-wide-string>"@);
}

proof fn c_float_type_rows(i: int)
    requires
        0 <= i < c_float_type_decls().len(),
    ensures
        c_float_type_decls().len() == 2,
        c_float_type_decls()[i].name == CLASS_PINS@[52 + i].0@,
{
    assert(c_float_type_decls()[0].name == "<c-float>"@);
    assert(CLASS_PINS@[52].0@ == "<c-float>"@);
    assert(c_float_type_decls()[1].name == "<c-double>"@);
    assert(CLASS_PINS@[53].0@ == "<c-double>"@);
}

proof fn ffi_rows(i: int)
    requires
        0 <= i < ffi_decls().len(),
    ensures
        ffi_decls().len() == 1,
        ffi_decls()[i].name == CLASS_PINS@[54 + i].0@,
{
    assert(ffi_decls()[0].name == "<c-ffi-error>"@);
    assert(CLASS_PINS@[54].0@ == "<c-ffi-error>"@);
}

/// The classes of a group stand in consecutive rows of the pin table.
proof fn class_is_row(m: LibraryModule, i: int)
    requires
        0 <= i < m.decls().len(),
    ensures
        m.decls()[i].name == CLASS_PINS@[m.row() + i].0@,
        pinned(m.decls()[i].name) == Some((PIN_FLOOR + m.row() + i) as u32),
        0 <= m.row() + i < 104,
        match m {
            LibraryModule::Conditions => m.decls().len() == 11,
            LibraryModule::Collections => m.decls().len() == 10,
            LibraryModule::Functions => m.decls().len() == 2,
            LibraryModule::Closures => m.decls().len() == 2,
            LibraryModule::CTypes => m.decls().len() == 16,
            LibraryModule::CFloatTypes => m.decls().len() == 2,
            LibraryModule::ForeignCalls => m.decls().len() == 1,
        },
{
    match m {
        LibraryModule::Conditions => condition_rows(i),
        LibraryModule::Collections => collection_rows(i),
        LibraryModule::Functions => function_rows(i),
        LibraryModule::Closures => closure_rows(i),
        LibraryModule::CTypes => c_type_rows(i),
        LibraryModule::CFloatTypes => c_float_type_rows(i),
        LibraryModule::ForeignCalls => ffi_rows(i),
    }
    row_is_pinned(m.row() + i);
}

/// A name belongs to one class of one group.
proof fn names_differ(m: LibraryModule, i: int, n: LibraryModule, j: int)
    requires
        0 <= i < m.decls().len(),
        0 <= j < n.decls().len(),
        m.decls()[i].name == n.decls()[j].name,
    ensures
        m == n,
        i == j,
{
    class_is_row(m, i);
    class_is_row(n, j);
}

/// A table is sound for the library: it is well formed, ids tell classes apart and
/// leave room, no shim is being built, and every library class that is there
/// stands as declared.
pub open spec fn library_sound(t: TableView) -> bool {
    &&& t.wf()
    &&& t.lists_headed()
    &&& t.ids_identify()
    &&& !t.shim_band
    &&& t.next_user_id + 16 <= ClassId::FIRST_SHIM
    &&& t.next_shim_id + 16 <= u32::MAX
    &&& forall|m: LibraryModule, i: int|
        0 <= i < m.decls().len() ==> t.named((#[trigger] m.decls()[i]).name) is None || t.stands(
            m.decls()[i],
        )
}

/// A fresh table is sound for the library.
pub proof fn fresh_table_is_library_sound()
    ensures
        library_sound(seed_table()),
{
    seed_table_is_sound();
    assert forall|m: LibraryModule, i: int| 0 <= i < m.decls().len() implies seed_table().named(
        (#[trigger] m.decls()[i]).name,
    ) is None by {
        class_is_row(m, i);
        fresh_table_has_no_library_class(m.decls()[i].name);
    }
}

/// Declaring the classes of one group, whose superclasses are known.
proof fn group_declared(t: TableView, m: LibraryModule)
    requires
        library_sound(t),
        t.knows_parents(m.decls()),
    ensures
        library_sound(t.declared_all(m.decls())),
        forall|i: int|
            0 <= i < m.decls().len() ==> t.declared_all(m.decls()).stands(
                #[trigger] m.decls()[i],
            ),
{
    let ds = m.decls();
    let u = t.declared_all(ds);
    class_is_row(m, 0);
    assert forall|i: int| 0 <= i < ds.len() implies pinned((#[trigger] ds[i]).name) is Some by {
        class_is_row(m, i);
    }
    declaring_keeps_wf(t, ds);
    declaring_keeps_identity(t, ds);
    declaring_keeps_heads(t, ds);
    declaring_library_takes_no_ids(t, ds);
    assert forall|i: int| 0 <= i < ds.len() implies u.stands(#[trigger] ds[i]) by {
        assert forall|j: int| 0 <= j < i implies (#[trigger] ds[j]).name != ds[i].name by {
            if ds[j].name == ds[i].name {
                names_differ(m, j, m, i);
            }
        }
        assert(m.decls()[i] == ds[i]);
        declared_class_stands(t, ds, i);
    }
    assert forall|n: LibraryModule, k: int| 0 <= k < n.decls().len() implies u.named(
        (#[trigger] n.decls()[k]).name,
    ) is None || u.stands(n.decls()[k]) by {
        let d = n.decls()[k];
        if t.named(d.name) is Some {
            declaring_keeps_standing(t, ds, d);
        } else if exists|i: int| 0 <= i < ds.len() && (#[trigger] ds[i]).name == d.name {
            let i = choose|i: int| 0 <= i < ds.len() && (#[trigger] ds[i]).name == d.name;
            names_differ(m, i, n, k);
        } else {
            undeclared_stays_unknown(t, ds, d.name);
        }
    }
}

/// Registering a group of library classes on any sound table puts every class of
/// the group at its pinned id, under the superclass of its declaration. It keeps
/// the table sound, takes no id from the classes of a program, and registering the
/// group again changes nothing.
pub proof fn library_registration(t: TableView, m: LibraryModule)
    requires
        library_sound(t),
    ensures
        forall|i: int|
            0 <= i < m.decls().len() ==> m.registered(t).stands(#[trigger] m.decls()[i]),
        m.needs_conditions() ==> forall|i: int|
            0 <= i < condition_decls().len() ==> m.registered(t).stands(
                #[trigger] condition_decls()[i],
            ),
        library_sound(m.registered(t)),
        m.registered(m.registered(t)) == m.registered(t),
        m.registered(t).next_user_id == t.next_user_id,
        m.registered(t).next_shim_id == t.next_shim_id,
{
    let ds = m.decls();
    let conditions = LibraryModule::Conditions;
    assert forall|n: LibraryModule, i: int| 0 <= i < n.decls().len() implies pinned(
        (#[trigger] n.decls()[i]).name,
    ) is Some by {
        class_is_row(n, i);
    }
    registering_again_changes_nothing(t);
    condition_decls_fit(t);
    if m.needs_conditions() {
        let a = t.declared_all(conditions.decls());
        group_declared(t, conditions);
        declaring_library_takes_no_ids(t, conditions.decls());
        assert(conditions.decls()[3].name == "<error>"@);
        declaring_all_keeps_classes(t, conditions.decls(), "<error>"@, ClassId(0));
        collection_decls_fit(a);
        function_decls_fit(a);
        ffi_decls_fit(a);
        group_declared(a, m);
        declaring_library_takes_no_ids(a, ds);
        assert forall|i: int| 0 <= i < condition_decls().len() implies m.registered(t).stands(
            #[trigger] condition_decls()[i],
        ) by {
            assert(a.stands(conditions.decls()[i]));
            declaring_keeps_standing(a, ds, condition_decls()[i]);
        }
    } else {
        closure_decls_fit(t);
        c_type_decls_fit(t);
        c_float_type_decls_fit(t);
        group_declared(t, m);
        declaring_library_takes_no_ids(t, ds);
    }
}

/// No class of this name is registered, or it stands at its pinned id.
pub open spec fn at_pin_or_absent(t: TableView, name: Seq<char>) -> bool {
    t.named(name) is None || at_pin(t, name)
}

/// The class of this name is a library class and stands at its pinned id.
pub open spec fn at_pin(t: TableView, name: Seq<char>) -> bool {
    pinned(name) is Some && t.named(name) == Some(ClassId(pinned(name)->0))
}

/// On any table at all, outside of shims, a library class stands at its pinned id
/// once its group is registered, unless a class of its name was registered at
/// another id before.
pub proof fn library_class_is_pinned(t: TableView, m: LibraryModule, i: int)
    requires
        !t.shim_band,
        0 <= i < m.decls().len(),
        at_pin_or_absent(t, m.decls()[i].name),
    ensures
        at_pin(m.registered(t), m.decls()[i].name),
{
    class_is_row(m, i);
    let name = m.decls()[i].name;
    if m.needs_conditions() {
        declaring_respects_pins(t, condition_decls(), name);
        declared_class_is_pinned(t.declared_all(condition_decls()), m.decls(), i);
    } else {
        declared_class_is_pinned(t, m.decls(), i);
    }
}

/// Declaring two lists of classes again changes nothing.
proof fn declaring_both_again(t: TableView, first: Seq<DeclView>, second: Seq<DeclView>)
    ensures
        ({
            let u = t.declared_all(first).declared_all(second);
            u.declared_all(first).declared_all(second) == u
        }),
{
    let a = t.declared_all(first);
    let u = a.declared_all(second);
    declaring_all_keeps_classes(t, first, seq![], ClassId(0));
    assert forall|i: int| 0 <= i < first.len() implies u.named((#[trigger] first[i]).name)
        is Some by {
        declaring_all_keeps_classes(a, second, first[i].name, ClassId(0));
    }
    declaring_all_keeps_classes(a, second, seq![], ClassId(0));
    declaring_known_is_noop(u, first);
    declaring_known_is_noop(u, second);
}

/// Registering the classes of a module a second time registers nothing and changes
/// no id.
pub proof fn registering_again_changes_nothing(t: TableView)
    ensures
        t.declared_all(condition_decls()).declared_all(condition_decls()) == t.declared_all(
            condition_decls(),
        ),
        with_collection_classes(with_collection_classes(t)) == with_collection_classes(t),
        with_function_classes(with_function_classes(t)) == with_function_classes(t),
        with_closure_classes(with_closure_classes(t)) == with_closure_classes(t),
        with_c_type_classes(with_c_type_classes(t)) == with_c_type_classes(t),
        with_c_float_type_classes(with_c_float_type_classes(t)) == with_c_float_type_classes(t),
        with_ffi_classes(with_ffi_classes(t)) == with_ffi_classes(t),
{
    declaring_is_idempotent(t, condition_decls());
    declaring_is_idempotent(t, closure_decls());
    declaring_is_idempotent(t, c_type_decls());
    declaring_is_idempotent(t, c_float_type_decls());
    declaring_both_again(t, condition_decls(), collection_decls());
    declaring_both_again(t, condition_decls(), function_decls());
    declaring_both_again(t, condition_decls(), ffi_decls());
}

/// Once the conditions are registered, each has the superclass that the language
/// gives it.
pub proof fn conditions_have_their_superclasses(t: TableView)
    requires
        library_sound(t),
    ensures
        ({
            let u = LibraryModule::Conditions.registered(t);
            &&& u.lookup(u.named("<condition>"@)->0)->0.parent == u.named("<object>"@)
            &&& u.lookup(u.named("<warning>"@)->0)->0.parent == u.named("<condition>"@)
            &&& u.lookup(u.named("<serious-condition>"@)->0)->0.parent == u.named("<condition>"@)
            &&& u.lookup(u.named("<error>"@)->0)->0.parent == u.named("<serious-condition>"@)
            &&& u.lookup(u.named("<simple-condition>"@)->0)->0.parent == u.named("<condition>"@)
            &&& u.lookup(u.named("<simple-error>"@)->0)->0.parent == u.named("<error>"@)
            &&& u.lookup(u.named("<simple-warning>"@)->0)->0.parent == u.named("<warning>"@)
            &&& u.lookup(u.named("<no-applicable-methods-error>"@)->0)->0.parent == u.named("<error>"@)
            &&& u.lookup(u.named("<no-next-method-error>"@)->0)->0.parent == u.named("<error>"@)
            &&& u.lookup(u.named("<simple-restart>"@)->0)->0.parent == u.named("<condition>"@)
            &&& u.lookup(u.named("<exit-procedure>"@)->0)->0.parent == u.named("<object>"@)
        }),
{
    let m = LibraryModule::Conditions;
    let u = m.registered(t);
    library_registration(t, m);
    assert(m.decls() == condition_decls());
    assert(condition_decls()[0].name == "<condition>"@ && condition_decls()[0].parent == "<object>"@);
    assert(u.stands(condition_decls()[0]));
    assert(condition_decls()[1].name == "<warning>"@ && condition_decls()[1].parent == "<condition>"@);
    assert(u.stands(condition_decls()[1]));
    assert(condition_decls()[2].name == "<serious-condition>"@ && condition_decls()[2].parent == "<condition>"@);
    assert(u.stands(condition_decls()[2]));
    assert(condition_decls()[3].name == "<error>"@ && condition_decls()[3].parent == "<serious-condition>"@);
    assert(u.stands(condition_decls()[3]));
    assert(condition_decls()[4].name == "<simple-condition>"@ && condition_decls()[4].parent == "<condition>"@);
    assert(u.stands(condition_decls()[4]));
    assert(condition_decls()[5].name == "<simple-error>"@ && condition_decls()[5].parent == "<error>"@);
    assert(u.stands(condition_decls()[5]));
    assert(condition_decls()[6].name == "<simple-warning>"@ && condition_decls()[6].parent == "<warning>"@);
    assert(u.stands(condition_decls()[6]));
    assert(condition_decls()[7].name == "<no-applicable-methods-error>"@ && condition_decls()[7].parent == "<error>"@);
    assert(u.stands(condition_decls()[7]));
    assert(condition_decls()[8].name == "<no-next-method-error>"@ && condition_decls()[8].parent == "<error>"@);
    assert(u.stands(condition_decls()[8]));
    assert(condition_decls()[9].name == "<simple-restart>"@ && condition_decls()[9].parent == "<condition>"@);
    assert(u.stands(condition_decls()[9]));
    assert(condition_decls()[10].name == "<exit-procedure>"@ && condition_decls()[10].parent == "<object>"@);
    assert(u.stands(condition_decls()[10]));
}

/// Once the collections are registered, each has the superclass that the language
/// gives it.
pub proof fn collections_have_their_superclasses(t: TableView)
    requires
        library_sound(t),
    ensures
        ({
            let u = LibraryModule::Collections.registered(t);
            &&& u.lookup(u.named("<collection>"@)->0)->0.parent == u.named("<object>"@)
            &&& u.lookup(u.named("<mutable-collection>"@)->0)->0.parent == u.named("<collection>"@)
            &&& u.lookup(u.named("<sequence>"@)->0)->0.parent == u.named("<collection>"@)
            &&& u.lookup(u.named("<mutable-sequence>"@)->0)->0.parent == u.named("<sequence>"@)
            &&& u.lookup(u.named("<explicit-key-collection>"@)->0)->0.parent == u.named("<collection>"@)
            &&& u.lookup(u.named("<stretchy-collection>"@)->0)->0.parent == u.named("<mutable-collection>"@)
            &&& u.lookup(u.named("<iteration-state>"@)->0)->0.parent == u.named("<object>"@)
            &&& u.lookup(u.named("<range>"@)->0)->0.parent == u.named("<sequence>"@)
            &&& u.lookup(u.named("<stretchy-vector>"@)->0)->0.parent == u.named("<mutable-sequence>"@)
            &&& u.lookup(u.named("<out-of-range-error>"@)->0)->0.parent == u.named("<error>"@)
        }),
{
    let m = LibraryModule::Collections;
    let u = m.registered(t);
    library_registration(t, m);
    assert(m.decls() == collection_decls());
    assert(collection_decls()[0].name == "<collection>"@ && collection_decls()[0].parent == "<object>"@);
    assert(u.stands(collection_decls()[0]));
    assert(collection_decls()[1].name == "<mutable-collection>"@ && collection_decls()[1].parent == "<collection>"@);
    assert(u.stands(collection_decls()[1]));
    assert(collection_decls()[2].name == "<sequence>"@ && collection_decls()[2].parent == "<collection>"@);
    assert(u.stands(collection_decls()[2]));
    assert(collection_decls()[3].name == "<mutable-sequence>"@ && collection_decls()[3].parent == "<sequence>"@);
    assert(u.stands(collection_decls()[3]));
    assert(collection_decls()[4].name == "<explicit-key-collection>"@ && collection_decls()[4].parent == "<collection>"@);
    assert(u.stands(collection_decls()[4]));
    assert(collection_decls()[5].name == "<stretchy-collection>"@ && collection_decls()[5].parent == "<mutable-collection>"@);
    assert(u.stands(collection_decls()[5]));
    assert(collection_decls()[6].name == "<iteration-state>"@ && collection_decls()[6].parent == "<object>"@);
    assert(u.stands(collection_decls()[6]));
    assert(collection_decls()[7].name == "<range>"@ && collection_decls()[7].parent == "<sequence>"@);
    assert(u.stands(collection_decls()[7]));
    assert(collection_decls()[8].name == "<stretchy-vector>"@ && collection_decls()[8].parent == "<mutable-sequence>"@);
    assert(u.stands(collection_decls()[8]));
    assert(collection_decls()[9].name == "<out-of-range-error>"@ && collection_decls()[9].parent == "<error>"@);
    assert(u.stands(collection_decls()[9]));
}

/// Functions are objects, and calling one with the wrong number of arguments is an
/// error.
pub proof fn functions_have_their_superclasses(t: TableView)
    requires
        library_sound(t),
    ensures
        ({
            let u = LibraryModule::Functions.registered(t);
            &&& u.lookup(u.named("<function>"@)->0)->0.parent == u.named("<object>"@)
            &&& u.lookup(u.named("<wrong-number-of-arguments-error>"@)->0)->0.parent == u.named("<error>"@)
        }),
{
    let m = LibraryModule::Functions;
    let u = m.registered(t);
    library_registration(t, m);
    assert(m.decls() == function_decls());
    assert(function_decls()[0].name == "<function>"@ && function_decls()[0].parent == "<object>"@);
    assert(u.stands(function_decls()[0]));
    assert(function_decls()[1].name == "<wrong-number-of-arguments-error>"@ && function_decls()[1].parent == "<error>"@);
    assert(u.stands(function_decls()[1]));
}

/// Cells and environments are objects.
pub proof fn closures_have_their_superclasses(t: TableView)
    requires
        library_sound(t),
    ensures
        ({
            let u = LibraryModule::Closures.registered(t);
            &&& u.lookup(u.named("<cell>"@)->0)->0.parent == u.named("<object>"@)
            &&& u.lookup(u.named("<environment>"@)->0)->0.parent == u.named("<object>"@)
        }),
{
    let m = LibraryModule::Closures;
    let u = m.registered(t);
    library_registration(t, m);
    assert(m.decls() == closure_decls());
    assert(closure_decls()[0].name == "<cell>"@ && closure_decls()[0].parent == "<object>"@);
    assert(u.stands(closure_decls()[0]));
    assert(closure_decls()[1].name == "<environment>"@ && closure_decls()[1].parent == "<object>"@);
    assert(u.stands(closure_decls()[1]));
}

/// A failed foreign call is an error.
pub proof fn foreign_errors_are_errors(t: TableView)
    requires
        library_sound(t),
    ensures
        ({
            let u = LibraryModule::ForeignCalls.registered(t);
            &&& u.lookup(u.named("<c-ffi-error>"@)->0)->0.parent == u.named("<error>"@)
        }),
{
    let m = LibraryModule::ForeignCalls;
    let u = m.registered(t);
    library_registration(t, m);
    assert(m.decls() == ffi_decls());
    assert(ffi_decls()[0].name == "<c-ffi-error>"@ && ffi_decls()[0].parent == "<error>"@);
    assert(u.stands(ffi_decls()[0]));
}

/// The ids that registering answers are those of the classes of their names.
pub proof fn registered_ids_are_those_of_the_names(t: TableView)
    ensures
        ({
            let c = condition_classes(t);
            &&& t.named("<error>"@) is Some ==> t.named("<error>"@) == Some(c.error)
            &&& t.named("<condition>"@) is Some ==> t.named("<condition>"@) == Some(c.condition)
            &&& t.named("<warning>"@) is Some ==> t.named("<warning>"@) == Some(c.warning)
            &&& t.named("<serious-condition>"@) is Some ==> t.named("<serious-condition>"@)
                == Some(c.serious_condition)
            &&& t.named("<simple-condition>"@) is Some ==> t.named("<simple-condition>"@) == Some(
                c.simple_condition,
            )
            &&& t.named("<simple-error>"@) is Some ==> t.named("<simple-error>"@) == Some(
                c.simple_error,
            )
            &&& t.named("<simple-warning>"@) is Some ==> t.named("<simple-warning>"@) == Some(
                c.simple_warning,
            )
            &&& t.named("<no-applicable-methods-error>"@) is Some ==> t.named(
                "<no-applicable-methods-error>"@,
            ) == Some(c.no_applicable_methods_error)
            &&& t.named("<no-next-method-error>"@) is Some ==> t.named("<no-next-method-error>"@)
                == Some(c.no_next_method_error)
            &&& t.named("<simple-restart>"@) is Some ==> t.named("<simple-restart>"@) == Some(
                c.simple_restart,
            )
            &&& t.named("<exit-procedure>"@) is Some ==> t.named("<exit-procedure>"@) == Some(
                c.exit_procedure,
            )
            &&& t.named("<range>"@) is Some ==> t.named("<range>"@) == Some(
                collection_classes(t).range,
            )
            &&& t.named("<stretchy-vector>"@) is Some ==> t.named("<stretchy-vector>"@) == Some(
                collection_classes(t).stretchy_vector,
            )
            &&& t.named("<iteration-state>"@) is Some ==> t.named("<iteration-state>"@) == Some(
                collection_classes(t).iteration_state,
            )
            &&& t.named("<out-of-range-error>"@) is Some ==> t.named("<out-of-range-error>"@)
                == Some(collection_classes(t).out_of_range_error)
            &&& t.named("<function>"@) is Some ==> t.named("<function>"@) == Some(
                function_classes(t).function,
            )
            &&& t.named("<wrong-number-of-arguments-error>"@) is Some ==> t.named(
                "<wrong-number-of-arguments-error>"@,
            ) == Some(function_classes(t).wrong_number_of_arguments_error)
            &&& t.named("<cell>"@) is Some ==> t.named("<cell>"@) == Some(closure_classes(t).cell)
            &&& t.named("<environment>"@) is Some ==> t.named("<environment>"@) == Some(
                closure_classes(t).environment,
            )
            &&& t.named("<c-ffi-error>"@) is Some ==> t.named("<c-ffi-error>"@) == Some(
                ffi_classes(t).c_ffi_error,
            )
        }),
{
}

/// The slots of the library's objects stand in the order of their cells.
pub proof fn slots_stand_in_the_order_of_cells()
    ensures
        condition_decls()[5].name == "<simple-error>"@,
        condition_decls()[5].slots.len() == 3,
        condition_decls()[5].slots[2].name == "message"@,
        function_decls()[0].slots.len() == 6,
        function_decls()[0].slots[0].name == "name"@,
        function_decls()[0].slots[1].name == "arity"@,
        function_decls()[0].slots[2].name == "code-ptr"@,
        function_decls()[0].slots[3].name == "kind-tag"@,
        function_decls()[0].slots[4].name == "env-ptr"@,
        collection_decls()[7].slots.len() == 3,
        collection_decls()[7].slots[0].name == "range-from"@,
        collection_decls()[7].slots[1].name == "range-to"@,
        collection_decls()[7].slots[2].name == "range-by"@,
        collection_decls()[7].slots[0].init_keyword == Some("from"@),
        collection_decls()[7].slots[1].init_keyword == Some("to"@),
        collection_decls()[7].slots[2].init_keyword == Some("by"@),
        collection_decls()[7].slots[2].default_init == SlotDefault::Value(fixnum(1)),
        collection_decls()[8].slots.len() == 3,
        collection_decls()[8].slots[0].name == "%length"@,
        collection_decls()[8].slots[1].name == "%capacity"@,
        collection_decls()[8].slots[2].name == "%storage"@,
        closure_decls()[0].slots.len() == 1,
        closure_decls()[0].slots[0].name == "value"@,
        closure_decls()[1].slots[0].name == "cells"@,
        ffi_decls()[0].slots.len() == 4,
        ffi_decls()[0].slots[0].name == "library"@,
        ffi_decls()[0].slots[1].name == "function"@,
        ffi_decls()[0].slots[2].name == "os-error-code"@,
        ffi_decls()[0].slots[3].name == "message"@,
{
}

} // verus!
