//! Classes of C values.
//!
//! They name the argument and result types of foreign functions. They have no
//! slots and stand directly below `<object>`.

use vstd::prelude::*;

use crate::classes::{ClassId, ClassTable, TableView};
use crate::declare::{
    decl_views, decl_weight, declare_all, seeds_are_registered, ClassDecl, DeclView,
};

verus! {

/// The classes of C integers, pointers and strings.
pub open spec fn c_type_decls() -> Seq<DeclView> {
    seq![
        DeclView { name: "<c-bool>"@, parent: "<object>"@, slots: seq![] },
        DeclView { name: "<c-int>"@, parent: "<object>"@, slots: seq![] },
        DeclView { name: "<c-uint>"@, parent: "<object>"@, slots: seq![] },
        DeclView { name: "<c-short>"@, parent: "<object>"@, slots: seq![] },
        DeclView { name: "<c-ushort>"@, parent: "<object>"@, slots: seq![] },
        DeclView { name: "<c-long>"@, parent: "<object>"@, slots: seq![] },
        DeclView { name: "<c-ulong>"@, parent: "<object>"@, slots: seq![] },
        DeclView { name: "<c-longlong>"@, parent: "<object>"@, slots: seq![] },
        DeclView { name: "<c-ulonglong>"@, parent: "<object>"@, slots: seq![] },
        DeclView { name: "<c-dword>"@, parent: "<object>"@, slots: seq![] },
        DeclView { name: "<c-word>"@, parent: "<object>"@, slots: seq![] },
        DeclView { name: "<c-byte>"@, parent: "<object>"@, slots: seq![] },
        DeclView { name: "<c-pointer>"@, parent: "<object>"@, slots: seq![] },
        DeclView { name: "<c-handle>"@, parent: "<object>"@, slots: seq![] },
        DeclView { name: "<c-string>"@, parent: "<object>"@, slots: seq![] },
        DeclView { name: "<c-wide-string>"@, parent: "<object>"@, slots: seq![] },
    ]
}

fn build_c_type_decls() -> (v: Vec<ClassDecl>)
    ensures
        decl_views(v@) == c_type_decls(),
{
    let v = vec![
        ClassDecl { name: "<c-bool>", parent: "<object>", slots: Vec::new() },
        ClassDecl { name: "<c-int>", parent: "<object>", slots: Vec::new() },
        ClassDecl { name: "<c-uint>", parent: "<object>", slots: Vec::new() },
        ClassDecl { name: "<c-short>", parent: "<object>", slots: Vec::new() },
        ClassDecl { name: "<c-ushort>", parent: "<object>", slots: Vec::new() },
        ClassDecl { name: "<c-long>", parent: "<object>", slots: Vec::new() },
        ClassDecl { name: "<c-ulong>", parent: "<object>", slots: Vec::new() },
        ClassDecl { name: "<c-longlong>", parent: "<object>", slots: Vec::new() },
        ClassDecl { name: "<c-ulonglong>", parent: "<object>", slots: Vec::new() },
        ClassDecl { name: "<c-dword>", parent: "<object>", slots: Vec::new() },
        ClassDecl { name: "<c-word>", parent: "<object>", slots: Vec::new() },
        ClassDecl { name: "<c-byte>", parent: "<object>", slots: Vec::new() },
        ClassDecl { name: "<c-pointer>", parent: "<object>", slots: Vec::new() },
        ClassDecl { name: "<c-handle>", parent: "<object>", slots: Vec::new() },
        ClassDecl { name: "<c-string>", parent: "<object>", slots: Vec::new() },
        ClassDecl { name: "<c-wide-string>", parent: "<object>", slots: Vec::new() },
    ];
    assert(decl_views(v@) =~~= c_type_decls());
    v
}

/// Upper bound on the ids and slots that registering these classes takes.
pub const C_TYPE_ROOM: i64 = 16;

/// The superclasses of these classes are known, and this is what they take.
pub proof fn c_type_decls_fit(t: TableView)
    requires
        t.wf(),
    ensures
        t.knows_parents(c_type_decls()),
        decl_weight(c_type_decls()) == 16,
{
    let ds = c_type_decls();
    seeds_are_registered(t, 0);
    assert forall|i: int| 0 <= i < ds.len() implies t.named((#[trigger] ds[i]).parent) is Some
        || exists|j: int| 0 <= j < i && ds[j].name == ds[i].parent by {
    }
    reveal_with_fuel(decl_weight, 17);
}

/// The ids of these classes.
#[derive(Clone, Copy, PartialEq, Eq, Structural, Debug)]
pub struct CTypeClasses {
    pub c_bool: ClassId,
    pub c_int: ClassId,
    pub c_uint: ClassId,
    pub c_short: ClassId,
    pub c_ushort: ClassId,
    pub c_long: ClassId,
    pub c_ulong: ClassId,
    pub c_longlong: ClassId,
    pub c_ulonglong: ClassId,
    pub c_dword: ClassId,
    pub c_word: ClassId,
    pub c_byte: ClassId,
    pub c_pointer: ClassId,
    pub c_handle: ClassId,
    pub c_string: ClassId,
    pub c_wide_string: ClassId,
}

/// The ids of these classes in a table.
pub open spec fn c_type_classes(t: TableView) -> CTypeClasses {
    CTypeClasses {
        c_bool: t.named("<c-bool>"@)->0,
        c_int: t.named("<c-int>"@)->0,
        c_uint: t.named("<c-uint>"@)->0,
        c_short: t.named("<c-short>"@)->0,
        c_ushort: t.named("<c-ushort>"@)->0,
        c_long: t.named("<c-long>"@)->0,
        c_ulong: t.named("<c-ulong>"@)->0,
        c_longlong: t.named("<c-longlong>"@)->0,
        c_ulonglong: t.named("<c-ulonglong>"@)->0,
        c_dword: t.named("<c-dword>"@)->0,
        c_word: t.named("<c-word>"@)->0,
        c_byte: t.named("<c-byte>"@)->0,
        c_pointer: t.named("<c-pointer>"@)->0,
        c_handle: t.named("<c-handle>"@)->0,
        c_string: t.named("<c-string>"@)->0,
        c_wide_string: t.named("<c-wide-string>"@)->0,
    }
}

/// The table after registering these classes.
pub open spec fn with_c_type_classes(t: TableView) -> TableView {
    t.declared_all(c_type_decls())
}

/// Registers these classes, unless they are there.
pub fn ensure_registered(table: &mut ClassTable) -> (ids: CTypeClasses)
    requires
        old(table)@.wf(),
        old(table)@.room(C_TYPE_ROOM as int),
    ensures
        final(table)@ == with_c_type_classes(old(table)@),
        final(table)@.wf(),
        ids == c_type_classes(final(table)@),
        forall|i: int|
            0 <= i < c_type_decls().len() ==> final(table)@.named(
                (#[trigger] c_type_decls()[i]).name,
            ) is Some,
        forall|n: int| #![trigger final(table)@.room(n)]
            n >= 0 && old(table)@.room(n + C_TYPE_ROOM) ==> final(table)@.room(n),
{
    proof {
        c_type_decls_fit(old(table)@);
    }
    let decls = build_c_type_decls();
    declare_all(table, &decls);
    proof {
        let ds = c_type_decls();
        assert forall|i: int| 0 <= i < ds.len() implies table@.named((#[trigger] ds[i]).name)
            is Some by {
            assert(ds[i] == decls@[i]@);
        }
        assert(ds[0].name == "<c-bool>"@);
        assert(ds[1].name == "<c-int>"@);
        assert(ds[2].name == "<c-uint>"@);
        assert(ds[3].name == "<c-short>"@);
        assert(ds[4].name == "<c-ushort>"@);
        assert(ds[5].name == "<c-long>"@);
        assert(ds[6].name == "<c-ulong>"@);
        assert(ds[7].name == "<c-longlong>"@);
        assert(ds[8].name == "<c-ulonglong>"@);
        assert(ds[9].name == "<c-dword>"@);
        assert(ds[10].name == "<c-word>"@);
        assert(ds[11].name == "<c-byte>"@);
        assert(ds[12].name == "<c-pointer>"@);
        assert(ds[13].name == "<c-handle>"@);
        assert(ds[14].name == "<c-string>"@);
        assert(ds[15].name == "<c-wide-string>"@);
    }
    CTypeClasses {
        c_bool: table.find_by_name("<c-bool>").unwrap(),
        c_int: table.find_by_name("<c-int>").unwrap(),
        c_uint: table.find_by_name("<c-uint>").unwrap(),
        c_short: table.find_by_name("<c-short>").unwrap(),
        c_ushort: table.find_by_name("<c-ushort>").unwrap(),
        c_long: table.find_by_name("<c-long>").unwrap(),
        c_ulong: table.find_by_name("<c-ulong>").unwrap(),
        c_longlong: table.find_by_name("<c-longlong>").unwrap(),
        c_ulonglong: table.find_by_name("<c-ulonglong>").unwrap(),
        c_dword: table.find_by_name("<c-dword>").unwrap(),
        c_word: table.find_by_name("<c-word>").unwrap(),
        c_byte: table.find_by_name("<c-byte>").unwrap(),
        c_pointer: table.find_by_name("<c-pointer>").unwrap(),
        c_handle: table.find_by_name("<c-handle>").unwrap(),
        c_string: table.find_by_name("<c-string>").unwrap(),
        c_wide_string: table.find_by_name("<c-wide-string>").unwrap(),
    }
}

/// The id of `<c-bool>`, registered if need be.
pub fn c_bool_class_id(table: &mut ClassTable) -> (id: ClassId)
    requires
        old(table)@.wf(),
        old(table)@.room(C_TYPE_ROOM as int),
    ensures
        final(table)@ == with_c_type_classes(old(table)@),
        final(table)@.named("<c-bool>"@) == Some(id),
        final(table)@.wf(),
        forall|n: int| #![trigger final(table)@.room(n)]
            n >= 0 && old(table)@.room(n + C_TYPE_ROOM) ==> final(table)@.room(n),
{
    let ids = ensure_registered(table);
    assert(c_type_decls()[0].name == "<c-bool>"@);
    ids.c_bool
}

/// The id of `<c-int>`, registered if need be.
pub fn c_int_class_id(table: &mut ClassTable) -> (id: ClassId)
    requires
        old(table)@.wf(),
        old(table)@.room(C_TYPE_ROOM as int),
    ensures
        final(table)@ == with_c_type_classes(old(table)@),
        final(table)@.named("<c-int>"@) == Some(id),
        final(table)@.wf(),
        forall|n: int| #![trigger final(table)@.room(n)]
            n >= 0 && old(table)@.room(n + C_TYPE_ROOM) ==> final(table)@.room(n),
{
    let ids = ensure_registered(table);
    assert(c_type_decls()[1].name == "<c-int>"@);
    ids.c_int
}

/// The id of `<c-dword>`, registered if need be.
pub fn c_dword_class_id(table: &mut ClassTable) -> (id: ClassId)
    requires
        old(table)@.wf(),
        old(table)@.room(C_TYPE_ROOM as int),
    ensures
        final(table)@ == with_c_type_classes(old(table)@),
        final(table)@.named("<c-dword>"@) == Some(id),
        final(table)@.wf(),
        forall|n: int| #![trigger final(table)@.room(n)]
            n >= 0 && old(table)@.room(n + C_TYPE_ROOM) ==> final(table)@.room(n),
{
    let ids = ensure_registered(table);
    assert(c_type_decls()[9].name == "<c-dword>"@);
    ids.c_dword
}

/// The id of `<c-pointer>`, registered if need be.
pub fn c_pointer_class_id(table: &mut ClassTable) -> (id: ClassId)
    requires
        old(table)@.wf(),
        old(table)@.room(C_TYPE_ROOM as int),
    ensures
        final(table)@ == with_c_type_classes(old(table)@),
        final(table)@.named("<c-pointer>"@) == Some(id),
        final(table)@.wf(),
        forall|n: int| #![trigger final(table)@.room(n)]
            n >= 0 && old(table)@.room(n + C_TYPE_ROOM) ==> final(table)@.room(n),
{
    let ids = ensure_registered(table);
    assert(c_type_decls()[12].name == "<c-pointer>"@);
    ids.c_pointer
}

/// The id of `<c-handle>`, registered if need be.
pub fn c_handle_class_id(table: &mut ClassTable) -> (id: ClassId)
    requires
        old(table)@.wf(),
        old(table)@.room(C_TYPE_ROOM as int),
    ensures
        final(table)@ == with_c_type_classes(old(table)@),
        final(table)@.named("<c-handle>"@) == Some(id),
        final(table)@.wf(),
        forall|n: int| #![trigger final(table)@.room(n)]
            n >= 0 && old(table)@.room(n + C_TYPE_ROOM) ==> final(table)@.room(n),
{
    let ids = ensure_registered(table);
    assert(c_type_decls()[13].name == "<c-handle>"@);
    ids.c_handle
}

/// The id of `<c-string>`, registered if need be.
pub fn c_string_class_id(table: &mut ClassTable) -> (id: ClassId)
    requires
        old(table)@.wf(),
        old(table)@.room(C_TYPE_ROOM as int),
    ensures
        final(table)@ == with_c_type_classes(old(table)@),
        final(table)@.named("<c-string>"@) == Some(id),
        final(table)@.wf(),
        forall|n: int| #![trigger final(table)@.room(n)]
            n >= 0 && old(table)@.room(n + C_TYPE_ROOM) ==> final(table)@.room(n),
{
    let ids = ensure_registered(table);
    assert(c_type_decls()[14].name == "<c-string>"@);
    ids.c_string
}

/// The id of `<c-wide-string>`, registered if need be.
pub fn c_wide_string_class_id(table: &mut ClassTable) -> (id: ClassId)
    requires
        old(table)@.wf(),
        old(table)@.room(C_TYPE_ROOM as int),
    ensures
        final(table)@ == with_c_type_classes(old(table)@),
        final(table)@.named("<c-wide-string>"@) == Some(id),
        final(table)@.wf(),
        forall|n: int| #![trigger final(table)@.room(n)]
            n >= 0 && old(table)@.room(n + C_TYPE_ROOM) ==> final(table)@.room(n),
{
    let ids = ensure_registered(table);
    assert(c_type_decls()[15].name == "<c-wide-string>"@);
    ids.c_wide_string
}

/// The classes of C floating-point numbers.
pub open spec fn c_float_type_decls() -> Seq<DeclView> {
    seq![
        DeclView { name: "<c-float>"@, parent: "<object>"@, slots: seq![] },
        DeclView { name: "<c-double>"@, parent: "<object>"@, slots: seq![] },
    ]
}

fn build_c_float_type_decls() -> (v: Vec<ClassDecl>)
    ensures
        decl_views(v@) == c_float_type_decls(),
{
    let v = vec![
        ClassDecl { name: "<c-float>", parent: "<object>", slots: Vec::new() },
        ClassDecl { name: "<c-double>", parent: "<object>", slots: Vec::new() },
    ];
    assert(decl_views(v@) =~~= c_float_type_decls());
    v
}

/// Upper bound on the ids and slots that registering these classes takes.
pub const C_FLOAT_TYPE_ROOM: i64 = 2;

/// The superclasses of these classes are known, and this is what they take.
pub proof fn c_float_type_decls_fit(t: TableView)
    requires
        t.wf(),
    ensures
        t.knows_parents(c_float_type_decls()),
        decl_weight(c_float_type_decls()) == 2,
{
    let ds = c_float_type_decls();
    seeds_are_registered(t, 0);
    assert forall|i: int| 0 <= i < ds.len() implies t.named((#[trigger] ds[i]).parent) is Some
        || exists|j: int| 0 <= j < i && ds[j].name == ds[i].parent by {
    }
    reveal_with_fuel(decl_weight, 3);
}

/// The ids of these classes.
#[derive(Clone, Copy, PartialEq, Eq, Structural, Debug)]
pub struct CFloatTypeClasses {
    pub single: ClassId,
    pub double: ClassId,
}

/// The ids of these classes in a table.
pub open spec fn c_float_type_classes(t: TableView) -> CFloatTypeClasses {
    CFloatTypeClasses {
        single: t.named("<c-float>"@)->0,
        double: t.named("<c-double>"@)->0,
    }
}

/// The table after registering these classes.
pub open spec fn with_c_float_type_classes(t: TableView) -> TableView {
    t.declared_all(c_float_type_decls())
}

/// Registers these classes, unless they are there.
pub fn ensure_float_types_registered(table: &mut ClassTable) -> (ids: CFloatTypeClasses)
    requires
        old(table)@.wf(),
        old(table)@.room(C_FLOAT_TYPE_ROOM as int),
    ensures
        final(table)@ == with_c_float_type_classes(old(table)@),
        final(table)@.wf(),
        ids == c_float_type_classes(final(table)@),
        forall|i: int|
            0 <= i < c_float_type_decls().len() ==> final(table)@.named(
                (#[trigger] c_float_type_decls()[i]).name,
            ) is Some,
        forall|n: int| #![trigger final(table)@.room(n)]
            n >= 0 && old(table)@.room(n + C_FLOAT_TYPE_ROOM) ==> final(table)@.room(n),
{
    proof {
        c_float_type_decls_fit(old(table)@);
    }
    let decls = build_c_float_type_decls();
    declare_all(table, &decls);
    proof {
        let ds = c_float_type_decls();
        assert forall|i: int| 0 <= i < ds.len() implies table@.named((#[trigger] ds[i]).name)
            is Some by {
            assert(ds[i] == decls@[i]@);
        }
        assert(ds[0].name == "<c-float>"@);
        assert(ds[1].name == "<c-double>"@);
    }
    CFloatTypeClasses {
        single: table.find_by_name("<c-float>").unwrap(),
        double: table.find_by_name("<c-double>").unwrap(),
    }
}

/// The id of `<c-float>`, registered if need be.
pub fn c_float_class_id(table: &mut ClassTable) -> (id: ClassId)
    requires
        old(table)@.wf(),
        old(table)@.room(C_FLOAT_TYPE_ROOM as int),
    ensures
        final(table)@ == with_c_float_type_classes(old(table)@),
        final(table)@.named("<c-float>"@) == Some(id),
        final(table)@.wf(),
        forall|n: int| #![trigger final(table)@.room(n)]
            n >= 0 && old(table)@.room(n + C_FLOAT_TYPE_ROOM) ==> final(table)@.room(n),
{
    let ids = ensure_float_types_registered(table);
    assert(c_float_type_decls()[0].name == "<c-float>"@);
    ids.single
}

/// The id of `<c-double>`, registered if need be.
pub fn c_double_class_id(table: &mut ClassTable) -> (id: ClassId)
    requires
        old(table)@.wf(),
        old(table)@.room(C_FLOAT_TYPE_ROOM as int),
    ensures
        final(table)@ == with_c_float_type_classes(old(table)@),
        final(table)@.named("<c-double>"@) == Some(id),
        final(table)@.wf(),
        forall|n: int| #![trigger final(table)@.room(n)]
            n >= 0 && old(table)@.room(n + C_FLOAT_TYPE_ROOM) ==> final(table)@.room(n),
{
    let ids = ensure_float_types_registered(table);
    assert(c_float_type_decls()[1].name == "<c-double>"@);
    ids.double
}

/// The ids of the C types are those of the classes of their names.
pub proof fn c_types_are_found_by_name(t: TableView)
    ensures
        t.named("<c-bool>"@) is Some ==> t.named("<c-bool>"@) == Some(c_type_classes(t).c_bool),
        t.named("<c-int>"@) is Some ==> t.named("<c-int>"@) == Some(c_type_classes(t).c_int),
        t.named("<c-uint>"@) is Some ==> t.named("<c-uint>"@) == Some(c_type_classes(t).c_uint),
        t.named("<c-short>"@) is Some ==> t.named("<c-short>"@) == Some(c_type_classes(t).c_short),
        t.named("<c-ushort>"@) is Some ==> t.named("<c-ushort>"@) == Some(c_type_classes(t).c_ushort),
        t.named("<c-long>"@) is Some ==> t.named("<c-long>"@) == Some(c_type_classes(t).c_long),
        t.named("<c-ulong>"@) is Some ==> t.named("<c-ulong>"@) == Some(c_type_classes(t).c_ulong),
        t.named("<c-longlong>"@) is Some ==> t.named("<c-longlong>"@) == Some(c_type_classes(t).c_longlong),
        t.named("<c-ulonglong>"@) is Some ==> t.named("<c-ulonglong>"@) == Some(c_type_classes(t).c_ulonglong),
        t.named("<c-dword>"@) is Some ==> t.named("<c-dword>"@) == Some(c_type_classes(t).c_dword),
        t.named("<c-word>"@) is Some ==> t.named("<c-word>"@) == Some(c_type_classes(t).c_word),
        t.named("<c-byte>"@) is Some ==> t.named("<c-byte>"@) == Some(c_type_classes(t).c_byte),
        t.named("<c-pointer>"@) is Some ==> t.named("<c-pointer>"@) == Some(c_type_classes(t).c_pointer),
        t.named("<c-handle>"@) is Some ==> t.named("<c-handle>"@) == Some(c_type_classes(t).c_handle),
        t.named("<c-string>"@) is Some ==> t.named("<c-string>"@) == Some(c_type_classes(t).c_string),
        t.named("<c-wide-string>"@) is Some ==> t.named("<c-wide-string>"@) == Some(c_type_classes(t).c_wide_string),
        t.named("<c-float>"@) is Some ==> t.named("<c-float>"@) == Some(c_float_type_classes(t).single),
        t.named("<c-double>"@) is Some ==> t.named("<c-double>"@) == Some(c_float_type_classes(t).double),
{
}

} // verus!
