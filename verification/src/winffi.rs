//! Errors of foreign functions.

use vstd::prelude::*;
use vstd::utf8::encode_utf8;

use crate::classes::{ClassId, ClassTable, SlotDefault, SlotType, TableView};
use crate::collections::push_keeps_wf;
use crate::conditions::condition_decls;
use crate::declare::{
    decl_views, decl_weight, declare_all, slot, slot_decl, ClassDecl, DeclView,
};
use crate::heap::{
    bytes_object, cell_at, cells_object, class_at, heap_room, heap_wf, object_at, word_of, Heap,
    ObjectView,
};
use crate::word::{fixnum, in_fixnum_range, Word};

verus! {

// ----- classes -----

/// The class of foreign-function errors.
pub open spec fn ffi_decls() -> Seq<DeclView> {
    seq![
        DeclView {
            name: "<c-ffi-error>"@,
            parent: "<error>"@,
            slots: seq![
                slot_decl("library"@, "library"@, SlotType::String, SlotDefault::Unbound, false),
                slot_decl("function"@, "function"@, SlotType::String, SlotDefault::Unbound, false),
                slot_decl(
                    "os-error-code"@,
                    "os-error-code"@,
                    SlotType::Integer,
                    SlotDefault::Unbound,
                    false,
                ),
                slot_decl("message"@, "message"@, SlotType::String, SlotDefault::Unbound, false),
            ],
        },
    ]
}

fn build_ffi_decls() -> (v: Vec<ClassDecl>)
    ensures
        decl_views(v@) == ffi_decls(),
{
    let v = vec![
        ClassDecl {
            name: "<c-ffi-error>",
            parent: "<error>",
            slots: vec![
                slot("library", "library", SlotType::String, SlotDefault::Unbound, false),
                slot("function", "function", SlotType::String, SlotDefault::Unbound, false),
                slot(
                    "os-error-code",
                    "os-error-code",
                    SlotType::Integer,
                    SlotDefault::Unbound,
                    false,
                ),
                slot("message", "message", SlotType::String, SlotDefault::Unbound, false),
            ],
        },
    ];
    assert(decl_views(v@) =~~= ffi_decls());
    v
}

/// Upper bound on the ids and slots that registering these classes takes.
pub const FFI_ROOM: i64 = 31;

/// The superclasses of these classes are known, and this is what they take.
pub proof fn ffi_decls_fit(t: TableView)
    requires
        t.wf(),
        t.named("<error>"@) is Some,
    ensures
        t.knows_parents(ffi_decls()),
        decl_weight(ffi_decls()) == 5,
{
    let ds = ffi_decls();
    assert forall|i: int| 0 <= i < ds.len() implies t.named((#[trigger] ds[i]).parent) is Some
        || exists|j: int| 0 <= j < i && ds[j].name == ds[i].parent by {
    }
    reveal_with_fuel(decl_weight, 2);
}

/// The ids of these classes.
#[derive(Clone, Copy, PartialEq, Eq, Structural, Debug)]
pub struct FfiClasses {
    pub c_ffi_error: ClassId,
}

/// The ids of these classes in a table.
pub open spec fn ffi_classes(t: TableView) -> FfiClasses {
    FfiClasses {
        c_ffi_error: t.named("<c-ffi-error>"@)->0,
    }
}

/// The table after registering these classes and those that they build on.
pub open spec fn with_ffi_classes(t: TableView) -> TableView {
    t.declared_all(condition_decls()).declared_all(ffi_decls())
}

/// Registers these classes, unless they are there.
pub fn ensure_c_ffi_error_registered(table: &mut ClassTable) -> (ids: FfiClasses)
    requires
        old(table)@.wf(),
        old(table)@.room(FFI_ROOM as int),
    ensures
        final(table)@ == with_ffi_classes(old(table)@),
        final(table)@.wf(),
        ids == ffi_classes(final(table)@),
        forall|i: int|
            0 <= i < ffi_decls().len() ==> final(table)@.named(
                (#[trigger] ffi_decls()[i]).name,
            ) is Some,
        forall|n: int| #![trigger final(table)@.room(n)]
            n >= 0 && old(table)@.room(n + FFI_ROOM) ==> final(table)@.room(n),
{
    let _ = crate::conditions::ensure_registered(table);
    proof {
        assert(condition_decls()[3].name == "<error>"@);
        assert(old(table)@.room(31int));
        ffi_decls_fit(table@);
        assert(table@.room(5));
    }
    let ghost mid = table@;
    let decls = build_ffi_decls();
    declare_all(table, &decls);
    proof {
        let ds = ffi_decls();
        assert forall|i: int| 0 <= i < ds.len() implies table@.named((#[trigger] ds[i]).name)
            is Some by {
            assert(ds[i] == decls@[i]@);
        }
        assert(ds[0].name == "<c-ffi-error>"@);
        assert forall|n: int| #![trigger table@.room(n)]
            n >= 0 && old(table)@.room(n + FFI_ROOM) implies table@.room(n) by {
            assert(mid.room(n + 5));
        }
    }
    FfiClasses {
        c_ffi_error: table.find_by_name("<c-ffi-error>").unwrap(),
    }
}

/// The id of `<c-ffi-error>`, registered if need be.
pub fn c_ffi_error_class_id(table: &mut ClassTable) -> (id: ClassId)
    requires
        old(table)@.wf(),
        old(table)@.room(FFI_ROOM as int),
    ensures
        final(table)@ == with_ffi_classes(old(table)@),
        final(table)@.named("<c-ffi-error>"@) == Some(id),
        final(table)@.wf(),
        forall|n: int| #![trigger final(table)@.room(n)]
            n >= 0 && old(table)@.room(n + FFI_ROOM) ==> final(table)@.room(n),
{
    let ids = ensure_c_ffi_error_registered(table);
    assert(ffi_decls()[0].name == "<c-ffi-error>"@);
    ids.c_ffi_error
}

/// The heap after making a `<c-ffi-error>`.
pub open spec fn with_ffi_error(
    h: Seq<ObjectView>,
    ids: FfiClasses,
    library: Seq<char>,
    function: Seq<char>,
    code: int,
    message: Seq<char>,
) -> Seq<ObjectView> {
    let n = h.len() as int;
    h.push(bytes_object(encode_utf8(library))).push(bytes_object(encode_utf8(function))).push(
        bytes_object(encode_utf8(message)),
    ).push(
        cells_object(
            ids.c_ffi_error,
            seq![word_of(n), word_of(n + 1), fixnum(code), word_of(n + 2)],
        ),
    )
}

/// Makes a `<c-ffi-error>`.
pub fn make_c_ffi_error(
    heap: &mut Heap,
    ids: &FfiClasses,
    library: &str,
    function: &str,
    code: i64,
    message: &str,
) -> (w: Word)
    requires
        heap_wf(old(heap)@),
        heap_room(old(heap)@, 4),
        in_fixnum_range(code as int),
    ensures
        w == word_of(old(heap)@.len() as int + 3),
        final(heap)@ == with_ffi_error(
            old(heap)@,
            *ids,
            library@,
            function@,
            code as int,
            message@,
        ),
        heap_wf(final(heap)@),
{
    let l = heap.alloc_text(library);
    proof {
        push_keeps_wf(old(heap)@, heap@.last());
    }
    let ghost first = heap@;
    let f = heap.alloc_text(function);
    proof {
        push_keeps_wf(first, heap@.last());
    }
    let ghost second = heap@;
    let m = heap.alloc_text(message);
    proof {
        push_keeps_wf(second, heap@.last());
    }
    let cells = vec![l, f, Word::fixnum_unchecked(code), m];
    assert(cells@ =~= seq![l, f, fixnum(code as int), m]);
    proof {
        push_keeps_wf(heap@, cells_object(ids.c_ffi_error, cells@));
    }
    heap.alloc_cells(ids.c_ffi_error, cells)
}

/// A foreign-call error carries the library, the function, the code of the system
/// and the message, each in its slot.
pub proof fn foreign_errors_carry_their_parts(
    h: Seq<ObjectView>,
    ids: FfiClasses,
    library: Seq<char>,
    function: Seq<char>,
    code: int,
    message: Seq<char>,
)
    requires
        heap_wf(h),
        heap_room(h, 4),
    ensures
        ({
            let g = with_ffi_error(h, ids, library, function, code, message);
            let w = word_of(h.len() as int + 3);
            &&& g.len() == h.len() + 4
            &&& g.take(h.len() as int) == h
            &&& class_at(g, w) == Some(ids.c_ffi_error)
            &&& object_at(g, cell_at(g, w, 0)->0) == Some(bytes_object(encode_utf8(library)))
            &&& object_at(g, cell_at(g, w, 1)->0) == Some(bytes_object(encode_utf8(function)))
            &&& cell_at(g, w, 2) == Some(fixnum(code))
            &&& object_at(g, cell_at(g, w, 3)->0) == Some(bytes_object(encode_utf8(message)))
        }),
{
    let g = with_ffi_error(h, ids, library, function, code, message);
    let n = h.len() as int;
    assert(g[n] == bytes_object(encode_utf8(library)));
    assert(g[n + 1] == bytes_object(encode_utf8(function)));
    assert(g[n + 2] == bytes_object(encode_utf8(message)));
    assert(g.take(n) =~= h);
}

} // verus!
