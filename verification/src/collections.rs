//! Collections.
//!
//! The collection classes, ranges and stretchy vectors, the forward iteration
//! protocol, and the operations that are built on it: size, element access,
//! mapping, folding and concatenation.

use vstd::prelude::*;
use vstd::set_lib::{lemma_int_range, lemma_len_subset, set_int_range};
use vstd::string::*;

use crate::classes::{is_subclass, ClassId, ClassTable, SlotDefault, SlotType, TableView};
use crate::conditions::condition_decls;
use crate::declare::{
    decl_views, decl_weight, declare_all, declared_class_inherits, named_is_no_seed,
    names_have_distinct_ids, seed_name_chars, seeds_are_registered, slot, slot_decl, ClassDecl,
    DeclView,
};
use crate::heap::{
    cell_at, cells_object, class_at, heap_room, heap_wf, index_of, literal_pool_immediates,
    nil_word, object_at, pointer_is_word_of, points_into, with_cell, word_of, zero_word, Heap,
    Object, ObjectView, HEAP_LIMIT,
};
use crate::literals::{
    heap_with_literal, intern_string_literal, literal_of, pool_with_literal, LiteralPool,
};
use crate::ranges::{
    count_terms, range_count, range_elements, range_terms_are_fixnums, range_terms_in_bounds,
};
use crate::text::{decimal_signed, decimal_text};
use crate::word::{fixnum, in_fixnum_range, Word, FIXNUM_MAX};

verus! {

// ----- classes -----

/// The collection classes.
pub open spec fn collection_decls() -> Seq<DeclView> {
    seq![
        DeclView { name: "<collection>"@, parent: "<object>"@, slots: seq![] },
        DeclView { name: "<mutable-collection>"@, parent: "<collection>"@, slots: seq![] },
        DeclView { name: "<sequence>"@, parent: "<collection>"@, slots: seq![] },
        DeclView { name: "<mutable-sequence>"@, parent: "<sequence>"@, slots: seq![] },
        DeclView { name: "<explicit-key-collection>"@, parent: "<collection>"@, slots: seq![] },
        DeclView { name: "<stretchy-collection>"@, parent: "<mutable-collection>"@, slots: seq![] },
        DeclView {
            name: "<iteration-state>"@,
            parent: "<object>"@,
            slots: seq![
                slot_decl(
                    "state-object"@,
                    "state-object"@,
                    SlotType::Object,
                    SlotDefault::Unbound,
                    true,
                ),
                slot_decl("limit"@, "limit"@, SlotType::Object, SlotDefault::Unbound, true),
                slot_decl(
                    "next-state"@,
                    "next-state"@,
                    SlotType::Object,
                    SlotDefault::Unbound,
                    true,
                ),
                slot_decl(
                    "finished-state?"@,
                    "finished-state?"@,
                    SlotType::Boolean,
                    SlotDefault::Unbound,
                    true,
                ),
                slot_decl(
                    "current-key"@,
                    "current-key"@,
                    SlotType::Object,
                    SlotDefault::Unbound,
                    true,
                ),
                slot_decl(
                    "current-element"@,
                    "current-element"@,
                    SlotType::Object,
                    SlotDefault::Unbound,
                    true,
                ),
                slot_decl(
                    "current-element-setter"@,
                    "current-element-setter"@,
                    SlotType::Object,
                    SlotDefault::Unbound,
                    true,
                ),
                slot_decl("%fip-kind"@, "fip-kind"@, SlotType::Integer, SlotDefault::Unbound, true),
            ],
        },
        DeclView {
            name: "<range>"@,
            parent: "<sequence>"@,
            slots: seq![
                slot_decl("range-from"@, "from"@, SlotType::Integer, SlotDefault::Unbound, true),
                slot_decl("range-to"@, "to"@, SlotType::Integer, SlotDefault::Unbound, true),
                slot_decl(
                    "range-by"@,
                    "by"@,
                    SlotType::Integer,
                    SlotDefault::Value(fixnum(1)),
                    true,
                ),
            ],
        },
        DeclView {
            name: "<stretchy-vector>"@,
            parent: "<mutable-sequence>"@,
            slots: seq![
                slot_decl("%length"@, "size"@, SlotType::Integer, SlotDefault::Unbound, true),
                slot_decl("%capacity"@, "capacity"@, SlotType::Integer, SlotDefault::Unbound, true),
                slot_decl("%storage"@, "storage"@, SlotType::Vector, SlotDefault::Unbound, true),
            ],
        },
        DeclView {
            name: "<out-of-range-error>"@,
            parent: "<error>"@,
            slots: seq![
                slot_decl("value"@, "value"@, SlotType::Object, SlotDefault::Unbound, true),
                slot_decl("bounds"@, "bounds"@, SlotType::Integer, SlotDefault::Unbound, true),
                slot_decl("message"@, "message"@, SlotType::String, SlotDefault::Unbound, false),
            ],
        },
    ]
}

fn build_collection_decls() -> (v: Vec<ClassDecl>)
    ensures
        decl_views(v@) == collection_decls(),
{
    let v = vec![
        ClassDecl { name: "<collection>", parent: "<object>", slots: Vec::new() },
        ClassDecl { name: "<mutable-collection>", parent: "<collection>", slots: Vec::new() },
        ClassDecl { name: "<sequence>", parent: "<collection>", slots: Vec::new() },
        ClassDecl { name: "<mutable-sequence>", parent: "<sequence>", slots: Vec::new() },
        ClassDecl { name: "<explicit-key-collection>", parent: "<collection>", slots: Vec::new() },
        ClassDecl {
            name: "<stretchy-collection>",
            parent: "<mutable-collection>",
            slots: Vec::new(),
        },
        ClassDecl {
            name: "<iteration-state>",
            parent: "<object>",
            slots: vec![
                slot("state-object", "state-object", SlotType::Object, SlotDefault::Unbound, true),
                slot("limit", "limit", SlotType::Object, SlotDefault::Unbound, true),
                slot("next-state", "next-state", SlotType::Object, SlotDefault::Unbound, true),
                slot(
                    "finished-state?",
                    "finished-state?",
                    SlotType::Boolean,
                    SlotDefault::Unbound,
                    true,
                ),
                slot("current-key", "current-key", SlotType::Object, SlotDefault::Unbound, true),
                slot(
                    "current-element",
                    "current-element",
                    SlotType::Object,
                    SlotDefault::Unbound,
                    true,
                ),
                slot(
                    "current-element-setter",
                    "current-element-setter",
                    SlotType::Object,
                    SlotDefault::Unbound,
                    true,
                ),
                slot("%fip-kind", "fip-kind", SlotType::Integer, SlotDefault::Unbound, true),
            ],
        },
        ClassDecl {
            name: "<range>",
            parent: "<sequence>",
            slots: vec![
                slot("range-from", "from", SlotType::Integer, SlotDefault::Unbound, true),
                slot("range-to", "to", SlotType::Integer, SlotDefault::Unbound, true),
                slot(
                    "range-by",
                    "by",
                    SlotType::Integer,
                    SlotDefault::Value(Word::fixnum_unchecked(1)),
                    true,
                ),
            ],
        },
        ClassDecl {
            name: "<stretchy-vector>",
            parent: "<mutable-sequence>",
            slots: vec![
                slot("%length", "size", SlotType::Integer, SlotDefault::Unbound, true),
                slot("%capacity", "capacity", SlotType::Integer, SlotDefault::Unbound, true),
                slot("%storage", "storage", SlotType::Vector, SlotDefault::Unbound, true),
            ],
        },
        ClassDecl {
            name: "<out-of-range-error>",
            parent: "<error>",
            slots: vec![
                slot("value", "value", SlotType::Object, SlotDefault::Unbound, true),
                slot("bounds", "bounds", SlotType::Integer, SlotDefault::Unbound, true),
                slot("message", "message", SlotType::String, SlotDefault::Unbound, false),
            ],
        },
    ];
    assert(decl_views(v@) =~~= collection_decls());
    v
}

/// Upper bound on the ids and slots that registering these classes takes.
pub const COLLECTION_ROOM: i64 = 53;

/// The superclasses of these classes are known, and this is what they take.
pub proof fn collection_decls_fit(t: TableView)
    requires
        t.wf(),
        t.named("<error>"@) is Some,
    ensures
        t.knows_parents(collection_decls()),
        decl_weight(collection_decls()) == 27,
{
    let ds = collection_decls();
    seeds_are_registered(t, 0);
    assert forall|i: int| 0 <= i < ds.len() implies t.named((#[trigger] ds[i]).parent) is Some
        || exists|j: int| 0 <= j < i && ds[j].name == ds[i].parent by {
        assert(ds[0].name == "<collection>"@);
        assert(ds[1].name == "<mutable-collection>"@);
        assert(ds[2].name == "<sequence>"@);
        assert(ds[3].name == "<mutable-sequence>"@);
    }
    reveal_with_fuel(decl_weight, 11);
}

/// The ids of these classes.
#[derive(Clone, Copy, PartialEq, Eq, Structural, Debug)]
pub struct CollectionClasses {
    pub collection: ClassId,
    pub mutable_collection: ClassId,
    pub sequence: ClassId,
    pub mutable_sequence: ClassId,
    pub explicit_key_collection: ClassId,
    pub stretchy_collection: ClassId,
    pub iteration_state: ClassId,
    pub range: ClassId,
    pub stretchy_vector: ClassId,
    pub out_of_range_error: ClassId,
}

/// The ids of these classes in a table.
pub open spec fn collection_classes(t: TableView) -> CollectionClasses {
    CollectionClasses {
        collection: t.named("<collection>"@)->0,
        mutable_collection: t.named("<mutable-collection>"@)->0,
        sequence: t.named("<sequence>"@)->0,
        mutable_sequence: t.named("<mutable-sequence>"@)->0,
        explicit_key_collection: t.named("<explicit-key-collection>"@)->0,
        stretchy_collection: t.named("<stretchy-collection>"@)->0,
        iteration_state: t.named("<iteration-state>"@)->0,
        range: t.named("<range>"@)->0,
        stretchy_vector: t.named("<stretchy-vector>"@)->0,
        out_of_range_error: t.named("<out-of-range-error>"@)->0,
    }
}

/// The table after registering these classes and those that they build on.
pub open spec fn with_collection_classes(t: TableView) -> TableView {
    t.declared_all(condition_decls()).declared_all(collection_decls())
}

/// Registers these classes, unless they are there.
pub fn ensure_registered(table: &mut ClassTable) -> (ids: CollectionClasses)
    requires
        old(table)@.wf(),
        old(table)@.room(COLLECTION_ROOM as int),
    ensures
        final(table)@ == with_collection_classes(old(table)@),
        final(table)@.wf(),
        ids == collection_classes(final(table)@),
        forall|i: int|
            0 <= i < collection_decls().len() ==> final(table)@.named(
                (#[trigger] collection_decls()[i]).name,
            ) is Some,
        forall|n: int| #![trigger final(table)@.room(n)]
            n >= 0 && old(table)@.room(n + COLLECTION_ROOM) ==> final(table)@.room(n),
{
    let _ = crate::conditions::ensure_registered(table);
    proof {
        assert(condition_decls()[3].name == "<error>"@);
        assert(old(table)@.room(53int));
        collection_decls_fit(table@);
        assert(table@.room(27));
    }
    let ghost mid = table@;
    let decls = build_collection_decls();
    declare_all(table, &decls);
    proof {
        let ds = collection_decls();
        assert forall|i: int| 0 <= i < ds.len() implies table@.named((#[trigger] ds[i]).name)
            is Some by {
            assert(ds[i] == decls@[i]@);
        }
        assert(ds[0].name == "<collection>"@);
        assert(ds[1].name == "<mutable-collection>"@);
        assert(ds[2].name == "<sequence>"@);
        assert(ds[3].name == "<mutable-sequence>"@);
        assert(ds[4].name == "<explicit-key-collection>"@);
        assert(ds[5].name == "<stretchy-collection>"@);
        assert(ds[6].name == "<iteration-state>"@);
        assert(ds[7].name == "<range>"@);
        assert(ds[8].name == "<stretchy-vector>"@);
        assert(ds[9].name == "<out-of-range-error>"@);
        assert forall|n: int| #![trigger table@.room(n)]
            n >= 0 && old(table)@.room(n + COLLECTION_ROOM) implies table@.room(n) by {
            assert(mid.room(n + 27));
        }
    }
    CollectionClasses {
        collection: table.find_by_name("<collection>").unwrap(),
        mutable_collection: table.find_by_name("<mutable-collection>").unwrap(),
        sequence: table.find_by_name("<sequence>").unwrap(),
        mutable_sequence: table.find_by_name("<mutable-sequence>").unwrap(),
        explicit_key_collection: table.find_by_name("<explicit-key-collection>").unwrap(),
        stretchy_collection: table.find_by_name("<stretchy-collection>").unwrap(),
        iteration_state: table.find_by_name("<iteration-state>").unwrap(),
        range: table.find_by_name("<range>").unwrap(),
        stretchy_vector: table.find_by_name("<stretchy-vector>").unwrap(),
        out_of_range_error: table.find_by_name("<out-of-range-error>").unwrap(),
    }
}

/// The id of `<collection>`, registered if need be.
pub fn collection_class_id(table: &mut ClassTable) -> (id: ClassId)
    requires
        old(table)@.wf(),
        old(table)@.room(COLLECTION_ROOM as int),
    ensures
        final(table)@ == with_collection_classes(old(table)@),
        final(table)@.named("<collection>"@) == Some(id),
        final(table)@.wf(),
        forall|n: int| #![trigger final(table)@.room(n)]
            n >= 0 && old(table)@.room(n + COLLECTION_ROOM) ==> final(table)@.room(n),
{
    let ids = ensure_registered(table);
    assert(collection_decls()[0].name == "<collection>"@);
    ids.collection
}

/// The id of `<mutable-collection>`, registered if need be.
pub fn mutable_collection_class_id(table: &mut ClassTable) -> (id: ClassId)
    requires
        old(table)@.wf(),
        old(table)@.room(COLLECTION_ROOM as int),
    ensures
        final(table)@ == with_collection_classes(old(table)@),
        final(table)@.named("<mutable-collection>"@) == Some(id),
        final(table)@.wf(),
        forall|n: int| #![trigger final(table)@.room(n)]
            n >= 0 && old(table)@.room(n + COLLECTION_ROOM) ==> final(table)@.room(n),
{
    let ids = ensure_registered(table);
    assert(collection_decls()[1].name == "<mutable-collection>"@);
    ids.mutable_collection
}

/// The id of `<sequence>`, registered if need be.
pub fn sequence_class_id(table: &mut ClassTable) -> (id: ClassId)
    requires
        old(table)@.wf(),
        old(table)@.room(COLLECTION_ROOM as int),
    ensures
        final(table)@ == with_collection_classes(old(table)@),
        final(table)@.named("<sequence>"@) == Some(id),
        final(table)@.wf(),
        forall|n: int| #![trigger final(table)@.room(n)]
            n >= 0 && old(table)@.room(n + COLLECTION_ROOM) ==> final(table)@.room(n),
{
    let ids = ensure_registered(table);
    assert(collection_decls()[2].name == "<sequence>"@);
    ids.sequence
}

/// The id of `<mutable-sequence>`, registered if need be.
pub fn mutable_sequence_class_id(table: &mut ClassTable) -> (id: ClassId)
    requires
        old(table)@.wf(),
        old(table)@.room(COLLECTION_ROOM as int),
    ensures
        final(table)@ == with_collection_classes(old(table)@),
        final(table)@.named("<mutable-sequence>"@) == Some(id),
        final(table)@.wf(),
        forall|n: int| #![trigger final(table)@.room(n)]
            n >= 0 && old(table)@.room(n + COLLECTION_ROOM) ==> final(table)@.room(n),
{
    let ids = ensure_registered(table);
    assert(collection_decls()[3].name == "<mutable-sequence>"@);
    ids.mutable_sequence
}

/// The id of `<explicit-key-collection>`, registered if need be.
pub fn explicit_key_collection_class_id(table: &mut ClassTable) -> (id: ClassId)
    requires
        old(table)@.wf(),
        old(table)@.room(COLLECTION_ROOM as int),
    ensures
        final(table)@ == with_collection_classes(old(table)@),
        final(table)@.named("<explicit-key-collection>"@) == Some(id),
        final(table)@.wf(),
        forall|n: int| #![trigger final(table)@.room(n)]
            n >= 0 && old(table)@.room(n + COLLECTION_ROOM) ==> final(table)@.room(n),
{
    let ids = ensure_registered(table);
    assert(collection_decls()[4].name == "<explicit-key-collection>"@);
    ids.explicit_key_collection
}

/// The id of `<stretchy-collection>`, registered if need be.
pub fn stretchy_collection_class_id(table: &mut ClassTable) -> (id: ClassId)
    requires
        old(table)@.wf(),
        old(table)@.room(COLLECTION_ROOM as int),
    ensures
        final(table)@ == with_collection_classes(old(table)@),
        final(table)@.named("<stretchy-collection>"@) == Some(id),
        final(table)@.wf(),
        forall|n: int| #![trigger final(table)@.room(n)]
            n >= 0 && old(table)@.room(n + COLLECTION_ROOM) ==> final(table)@.room(n),
{
    let ids = ensure_registered(table);
    assert(collection_decls()[5].name == "<stretchy-collection>"@);
    ids.stretchy_collection
}

/// The id of `<iteration-state>`, registered if need be.
pub fn iteration_state_class_id(table: &mut ClassTable) -> (id: ClassId)
    requires
        old(table)@.wf(),
        old(table)@.room(COLLECTION_ROOM as int),
    ensures
        final(table)@ == with_collection_classes(old(table)@),
        final(table)@.named("<iteration-state>"@) == Some(id),
        final(table)@.wf(),
        forall|n: int| #![trigger final(table)@.room(n)]
            n >= 0 && old(table)@.room(n + COLLECTION_ROOM) ==> final(table)@.room(n),
{
    let ids = ensure_registered(table);
    assert(collection_decls()[6].name == "<iteration-state>"@);
    ids.iteration_state
}

/// The id of `<range>`, registered if need be.
pub fn range_class_id(table: &mut ClassTable) -> (id: ClassId)
    requires
        old(table)@.wf(),
        old(table)@.room(COLLECTION_ROOM as int),
    ensures
        final(table)@ == with_collection_classes(old(table)@),
        final(table)@.named("<range>"@) == Some(id),
        final(table)@.wf(),
        forall|n: int| #![trigger final(table)@.room(n)]
            n >= 0 && old(table)@.room(n + COLLECTION_ROOM) ==> final(table)@.room(n),
{
    let ids = ensure_registered(table);
    assert(collection_decls()[7].name == "<range>"@);
    ids.range
}

/// The id of `<stretchy-vector>`, registered if need be.
pub fn stretchy_vector_class_id(table: &mut ClassTable) -> (id: ClassId)
    requires
        old(table)@.wf(),
        old(table)@.room(COLLECTION_ROOM as int),
    ensures
        final(table)@ == with_collection_classes(old(table)@),
        final(table)@.named("<stretchy-vector>"@) == Some(id),
        final(table)@.wf(),
        forall|n: int| #![trigger final(table)@.room(n)]
            n >= 0 && old(table)@.room(n + COLLECTION_ROOM) ==> final(table)@.room(n),
{
    let ids = ensure_registered(table);
    assert(collection_decls()[8].name == "<stretchy-vector>"@);
    ids.stretchy_vector
}

/// The id of `<out-of-range-error>`, registered if need be.
pub fn out_of_range_error_class_id(table: &mut ClassTable) -> (id: ClassId)
    requires
        old(table)@.wf(),
        old(table)@.room(COLLECTION_ROOM as int),
    ensures
        final(table)@ == with_collection_classes(old(table)@),
        final(table)@.named("<out-of-range-error>"@) == Some(id),
        final(table)@.wf(),
        forall|n: int| #![trigger final(table)@.room(n)]
            n >= 0 && old(table)@.room(n + COLLECTION_ROOM) ==> final(table)@.room(n),
{
    let ids = ensure_registered(table);
    assert(collection_decls()[9].name == "<out-of-range-error>"@);
    ids.out_of_range_error
}

impl CollectionClasses {
    /// The ids are no seed ids, and the concrete classes differ.
    pub open spec fn wf(self) -> bool {
        &&& self.range.0 >= ClassId::FIRST_USER
        &&& self.stretchy_vector.0 >= ClassId::FIRST_USER
        &&& self.iteration_state.0 >= ClassId::FIRST_USER
        &&& self.range != self.stretchy_vector
        &&& self.range != self.iteration_state
        &&& self.stretchy_vector != self.iteration_state
    }
}

/// No two of these classes share a name.
proof fn collection_names_differ(i: int, j: int)
    requires
        0 <= i < j < collection_decls().len(),
    ensures
        collection_decls()[i].name != collection_decls()[j].name,
{
    reveal_strlit("<collection>");
    reveal_strlit("<mutable-collection>");
    reveal_strlit("<sequence>");
    reveal_strlit("<mutable-sequence>");
    reveal_strlit("<explicit-key-collection>");
    reveal_strlit("<stretchy-collection>");
    reveal_strlit("<iteration-state>");
    reveal_strlit("<range>");
    reveal_strlit("<stretchy-vector>");
    reveal_strlit("<out-of-range-error>");
    let ds = collection_decls();
    assert(ds[0].name == "<collection>"@ && ds[0].name.len() == 12);
    assert(ds[1].name == "<mutable-collection>"@ && ds[1].name.len() == 20);
    assert(ds[2].name == "<sequence>"@ && ds[2].name.len() == 10);
    assert(ds[3].name == "<mutable-sequence>"@ && ds[3].name.len() == 18);
    assert(ds[4].name == "<explicit-key-collection>"@ && ds[4].name.len() == 25);
    assert(ds[5].name == "<stretchy-collection>"@ && ds[5].name.len() == 21);
    assert(ds[6].name == "<iteration-state>"@ && ds[6].name.len() == 17);
    assert(ds[7].name == "<range>"@ && ds[7].name.len() == 7);
    assert(ds[8].name == "<stretchy-vector>"@ && ds[8].name.len() == 17);
    assert(ds[9].name == "<out-of-range-error>"@ && ds[9].name.len() == 20);
    assert("<mutable-collection>"@[1] != "<out-of-range-error>"@[1]);
    assert("<iteration-state>"@[1] != "<stretchy-vector>"@[1]);
}

/// Every collection class stands below the class that the hierarchy gives it,
/// and below all superclasses of that.
pub proof fn collection_hierarchy(t: TableView, i: int, ancestor: ClassId)
    requires
        t.wf(),
        t.lists_headed(),
        t.ids_identify(),
        t.next_user_id + collection_decls().len() <= ClassId::FIRST_SHIM,
        t.next_shim_id + collection_decls().len() <= u32::MAX,
        t.named("<error>"@) is Some,
        0 <= i < collection_decls().len(),
        t.named(collection_decls()[i].name) is None,
    ensures
        ({
            let u = t.declared_all(collection_decls());
            let d = collection_decls()[i];
            &&& u.subclass(u.named(d.name)->0, u.named(d.parent)->0)
            &&& u.lookup(u.named(d.name)->0)->0.parent == u.named(d.parent)
            &&& u.subclass(u.named(d.parent)->0, ancestor) ==> u.subclass(
                u.named(d.name)->0,
                ancestor,
            )
        }),
{
    let ds = collection_decls();
    collection_decls_fit(t);
    assert forall|j: int| 0 <= j < i implies (#[trigger] ds[j]).name != ds[i].name by {
        collection_names_differ(j, i);
    }
    declared_class_inherits(t, ds, i, ancestor);
}

/// In a table whose ids tell classes apart, the ids of the concrete collection
/// classes are fit for use.
pub proof fn collection_ids_wf(t: TableView)
    requires
        t.wf(),
        t.ids_identify(),
        forall|i: int|
            0 <= i < collection_decls().len() ==> t.named((#[trigger] collection_decls()[i]).name)
                is Some,
    ensures
        collection_classes(t).wf(),
{
    let ds = collection_decls();
    assert(ds[6].name == "<iteration-state>"@);
    assert(ds[7].name == "<range>"@);
    assert(ds[8].name == "<stretchy-vector>"@);
    reveal_strlit("<iteration-state>");
    reveal_strlit("<range>");
    reveal_strlit("<stretchy-vector>");
    names_have_distinct_ids(t, "<range>"@, "<stretchy-vector>"@);
    names_have_distinct_ids(t, "<range>"@, "<iteration-state>"@);
    assert("<stretchy-vector>"@[1] != "<iteration-state>"@[1]);
    names_have_distinct_ids(t, "<stretchy-vector>"@, "<iteration-state>"@);
    seed_name_chars();
    named_is_no_seed(t, "<iteration-state>"@);
    named_is_no_seed(t, "<range>"@);
    named_is_no_seed(t, "<stretchy-vector>"@);
}

// ----- what a collection holds -----

/// The integer in a word, or `default` if the word is no fixnum.
pub open spec fn fixnum_or(w: Word, default: int) -> int {
    if w.spec_is_fixnum() {
        w.fixnum_value()
    } else {
        default
    }
}

/// The bounds and step of a range.
pub open spec fn range_at(h: Seq<ObjectView>, ids: CollectionClasses, w: Word) -> Option<
    (int, int, int),
> {
    match object_at(h, w) {
        Some(o) => if o.class == ids.range && o.cells.len() >= 3 {
            Some((fixnum_or(o.cells[0], 0), fixnum_or(o.cells[1], 0), fixnum_or(o.cells[2], 1)))
        } else {
            None
        },
        None => None,
    }
}

/// The length, capacity and storage of a stretchy vector.
pub open spec fn stretchy_at(h: Seq<ObjectView>, ids: CollectionClasses, w: Word) -> Option<
    (int, int, Word),
> {
    match object_at(h, w) {
        Some(o) => if o.class == ids.stretchy_vector && o.cells.len() >= 3 {
            Some((fixnum_or(o.cells[0], 0), fixnum_or(o.cells[1], 0), o.cells[2]))
        } else {
            None
        },
        None => None,
    }
}

/// The cells of a simple object vector.
pub open spec fn vector_at(h: Seq<ObjectView>, w: Word) -> Option<Seq<Word>> {
    match object_at(h, w) {
        Some(o) => if o.class == ClassId(ClassId::SIMPLE_OBJECT_VECTOR) {
            Some(o.cells)
        } else {
            None
        },
        None => None,
    }
}

/// The head and tail of a pair.
pub open spec fn pair_at(h: Seq<ObjectView>, w: Word) -> Option<(Word, Word)> {
    match object_at(h, w) {
        Some(o) => if o.class == ClassId(ClassId::PAIR) && o.cells.len() >= 2 {
            Some((o.cells[0], o.cells[1]))
        } else {
            None
        },
        None => None,
    }
}

/// A stretchy vector is well formed if its storage is a vector of exactly its
/// capacity and its length is within the capacity.
pub open spec fn stretchy_wf(h: Seq<ObjectView>, ids: CollectionClasses, w: Word) -> bool {
    match stretchy_at(h, ids, w) {
        Some((length, capacity, storage)) => {
            &&& vector_at(h, storage) is Some
            &&& 0 <= length <= capacity == vector_at(h, storage)->0.len()
            &&& capacity <= usize::MAX
        },
        None => false,
    }
}

/// The heads of the pairs along the first `fuel` steps of a spine.
pub open spec fn spine(h: Seq<ObjectView>, w: Word, fuel: nat) -> Seq<Word>
    decreases fuel,
{
    if fuel == 0 {
        seq![]
    } else {
        match pair_at(h, w) {
            Some((head, tail)) => seq![head] + spine(h, tail, (fuel - 1) as nat),
            None => seq![],
        }
    }
}

/// The word after `n` tails.
pub open spec fn nth_tail(h: Seq<ObjectView>, w: Word, n: nat) -> Word
    decreases n,
{
    if n == 0 {
        w
    } else {
        match pair_at(h, w) {
            Some((head, tail)) => nth_tail(h, tail, (n - 1) as nat),
            None => w,
        }
    }
}

/// The spine comes to an end: it is not circular.
pub open spec fn list_ends(h: Seq<ObjectView>, w: Word) -> bool {
    pair_at(h, nth_tail(h, w, h.len())) is None
}

/// The elements of a list, in order. A list ends at the first word that is no
/// pair.
pub open spec fn list_elements(h: Seq<ObjectView>, w: Word) -> Seq<Word> {
    spine(h, w, h.len())
}

/// The bytes of a byte string, as fixnums.
pub open spec fn byte_elements(bytes: Seq<u8>) -> Seq<Word> {
    Seq::new(bytes.len(), |i: int| fixnum(bytes[i] as int))
}

/// The elements of a collection, in order; absent for a word that is no
/// collection of a known concrete class.
pub open spec fn elements(h: Seq<ObjectView>, ids: CollectionClasses, w: Word) -> Option<
    Seq<Word>,
> {
    match object_at(h, w) {
        Some(o) => if o.class == ClassId(ClassId::SIMPLE_OBJECT_VECTOR) {
            Some(o.cells)
        } else if o.class == ids.range {
            match range_at(h, ids, w) {
                Some((from, to, by)) => Some(range_elements(from, to, by)),
                None => None,
            }
        } else if o.class == ids.stretchy_vector {
            match stretchy_at(h, ids, w) {
                Some((length, _, storage)) => Some(vector_at(h, storage)->0.take(length)),
                None => None,
            }
        } else if o.class == ClassId(ClassId::EMPTY_LIST) {
            Some(seq![])
        } else if o.class == ClassId(ClassId::PAIR) {
            Some(list_elements(h, w))
        } else if o.class == ClassId(ClassId::BYTE_STRING) {
            Some(byte_elements(o.bytes))
        } else {
            None
        },
        None => None,
    }
}

/// The collection is intact: a pair has its parts, a stretchy vector is well
/// formed, and element counts can be told in 64 bits.
pub open spec fn collection_intact(h: Seq<ObjectView>, ids: CollectionClasses, w: Word) -> bool {
    &&& class_at(h, w) == Some(ClassId(ClassId::PAIR)) ==> pair_at(h, w) is Some
    &&& stretchy_at(h, ids, w) is Some ==> stretchy_wf(h, ids, w)
    &&& elements(h, ids, w) is Some ==> elements(h, ids, w)->0.len() <= i64::MAX
}

/// The word is a list that never ends.
pub open spec fn circular(h: Seq<ObjectView>, w: Word) -> bool {
    class_at(h, w) == Some(ClassId(ClassId::PAIR)) && !list_ends(h, w)
}

/// The collection is intact and can be walked to its end.
pub open spec fn collection_wf(h: Seq<ObjectView>, ids: CollectionClasses, w: Word) -> bool {
    collection_intact(h, ids, w) && !circular(h, w)
}

// ----- reading -----

/// The integer in a word, or `default` if the word is no fixnum.
pub fn fixnum_else(w: Word, default: i64) -> (n: i64)
    requires
        in_fixnum_range(default as int),
    ensures
        n == fixnum_or(w, default as int),
        in_fixnum_range(n as int),
{
    match w.as_fixnum() {
        Some(n) => n,
        None => default,
    }
}

/// The `from`, `to` and `by` of a range; absent for a word that is no range.
pub fn range_fields(heap: &Heap, ids: &CollectionClasses, r: Word) -> (f: Option<(i64, i64, i64)>)
    ensures
        f is Some <==> range_at(heap@, *ids, r) is Some,
        f is Some ==> {
            let g = f->0;
            &&& (g.0 as int, g.1 as int, g.2 as int) == range_at(heap@, *ids, r)->0
            &&& in_fixnum_range(g.0 as int)
            &&& in_fixnum_range(g.1 as int)
            &&& in_fixnum_range(g.2 as int)
        },
{
    match heap.get(r) {
        Some(o) => {
            if o.class == ids.range && o.cells.len() >= 3 {
                Some(
                    (
                        fixnum_else(o.cells[0], 0),
                        fixnum_else(o.cells[1], 0),
                        fixnum_else(o.cells[2], 1),
                    ),
                )
            } else {
                None
            }
        },
        None => None,
    }
}

/// The length, capacity and storage of a stretchy vector; absent for a word
/// that is none.
pub fn stretchy_vector_fields(heap: &Heap, ids: &CollectionClasses, sv: Word) -> (f: Option<
    (usize, usize, Word),
>)
    ensures
        f is Some <==> stretchy_at(heap@, *ids, sv) is Some,
        f is Some ==> {
            let g = stretchy_at(heap@, *ids, sv)->0;
            let i = f->0;
            &&& i.0 == #[verifier::truncate] ((g.0 as i64) as usize)
            &&& i.1 == #[verifier::truncate] ((g.1 as i64) as usize)
            &&& i.2 == g.2
            &&& 0 <= g.0 <= usize::MAX ==> i.0 == g.0
            &&& 0 <= g.1 <= usize::MAX ==> i.1 == g.1
        },
{
    match heap.get(sv) {
        Some(o) => {
            if o.class == ids.stretchy_vector && o.cells.len() >= 3 {
                let length: i64 = fixnum_else(o.cells[0], 0);
                let capacity: i64 = fixnum_else(o.cells[1], 0);
                Some(
                    (
                        #[verifier::truncate] (length as usize),
                        #[verifier::truncate] (capacity as usize),
                        o.cells[2],
                    ),
                )
            } else {
                None
            }
        },
        None => None,
    }
}

/// The head and tail of a pair; absent for a word that is no pair.
pub fn pair_fields(heap: &Heap, w: Word) -> (p: Option<(Word, Word)>)
    ensures
        p == pair_at(heap@, w),
{
    match heap.get(w) {
        Some(o) => {
            if o.class == ClassId(ClassId::PAIR) && o.cells.len() >= 2 {
                Some((o.cells[0], o.cells[1]))
            } else {
                None
            }
        },
        None => None,
    }
}

/// One more tail of a spine.
pub proof fn spine_unfold(h: Seq<ObjectView>, w: Word, i: nat)
    ensures
        pair_at(h, nth_tail(h, w, i)) matches Some((head, tail)) ==> nth_tail(h, w, i + 1) == tail,
        pair_at(h, nth_tail(h, w, i)) is None ==> nth_tail(h, w, i + 1) == nth_tail(h, w, i),
    decreases i,
{
    if i > 0 {
        match pair_at(h, w) {
            Some((head, tail)) => spine_unfold(h, tail, (i - 1) as nat),
            None => {},
        }
    } else {
        assert(nth_tail(h, w, 0) == w);
        match pair_at(h, w) {
            Some((head, tail)) => {
                assert(nth_tail(h, w, 1) == nth_tail(h, tail, 0));
            },
            None => {},
        }
    }
}

/// More fuel does not change the spine of a list that has ended.
proof fn spine_fuel(h: Seq<ObjectView>, w: Word, n: nat, m: nat)
    requires
        pair_at(h, nth_tail(h, w, n)) is None,
        n <= m,
    ensures
        spine(h, w, n) == spine(h, w, m),
    decreases n,
{
    match pair_at(h, w) {
        Some((head, tail)) => {
            if n > 0 {
                spine_fuel(h, tail, (n - 1) as nat, (m - 1) as nat);
            }
        },
        None => {},
    }
}

/// The tail of a list that ends is a list that ends, one element shorter.
pub proof fn list_tail(h: Seq<ObjectView>, w: Word)
    requires
        list_ends(h, w),
        pair_at(h, w) is Some,
    ensures
        ({
            let (head, tail) = pair_at(h, w)->0;
            &&& list_ends(h, tail)
            &&& list_elements(h, w) == seq![head] + list_elements(h, tail)
            &&& list_elements(h, w).drop_first() =~= list_elements(h, tail)
        }),
{
    let (head, tail) = pair_at(h, w)->0;
    let n = h.len();
    spine_unfold(h, w, n);
    assert(nth_tail(h, w, n + 1) == nth_tail(h, tail, n));
    assert(n > 0);
    assert(nth_tail(h, w, n) == nth_tail(h, tail, (n - 1) as nat));
    spine_fuel(h, tail, (n - 1) as nat, n);
}

/// A word that is no pair is a list without elements.
pub proof fn list_end(h: Seq<ObjectView>, w: Word)
    requires
        pair_at(h, w) is None,
    ensures
        list_ends(h, w),
        list_elements(h, w) == Seq::<Word>::empty(),
{
    assert(nth_tail(h, w, h.len()) == w);
}

/// A list has no more elements than the heap has objects.
pub proof fn spine_bounded(h: Seq<ObjectView>, w: Word, fuel: nat)
    ensures
        spine(h, w, fuel).len() <= fuel,
    decreases fuel,
{
    if fuel > 0 {
        match pair_at(h, w) {
            Some((head, tail)) => spine_bounded(h, tail, (fuel - 1) as nat),
            None => {},
        }
    }
}

/// The number of elements; absent for a word that is no known collection.
pub fn collection_size(heap: &Heap, ids: &CollectionClasses, c: Word) -> (n: Option<i64>)
    requires
        heap_wf(heap@),
        ids.wf(),
        collection_wf(heap@, *ids, c),
    ensures
        n is Some <==> elements(heap@, *ids, c) is Some,
        n is Some ==> n->0 == elements(heap@, *ids, c)->0.len(),
{
    let class = match heap.class_of(c) {
        Some(k) => k,
        None => return None,
    };
    if class == ClassId(ClassId::SIMPLE_OBJECT_VECTOR) {
        let o = heap.get(c).unwrap();
        return Some(o.cells.len() as i64);
    }
    if class == ids.range {
        return match range_fields(heap, ids, c) {
            Some((from, to, by)) => {
                proof {
                    range_terms_in_bounds(from as int, to as int, by as int);
                }
                Some(count_terms(from, to, by))
            },
            None => None,
        };
    }
    if class == ids.stretchy_vector {
        return match stretchy_vector_fields(heap, ids, c) {
            Some((length, _, _)) => {
                assert(elements(heap@, *ids, c)->0.len() == length);
                Some(length as i64)
            },
            None => None,
        };
    }
    if class == ClassId(ClassId::EMPTY_LIST) {
        return Some(0);
    }
    if class == ClassId(ClassId::PAIR) {
        return Some(list_length(heap, c));
    }
    if class == ClassId(ClassId::BYTE_STRING) {
        let o = heap.get(c).unwrap();
        return Some(o.bytes.len() as i64);
    }
    None
}

/// Counts the pairs along a spine.
fn list_length(heap: &Heap, c: Word) -> (n: i64)
    requires
        heap@.len() <= HEAP_LIMIT,
        list_ends(heap@, c),
    ensures
        n == list_elements(heap@, c).len(),
{
    let mut count: i64 = 0;
    let mut cur = c;
    proof {
        spine_bounded(heap@, c, heap@.len());
    }
    loop
        invariant
            heap@.len() <= HEAP_LIMIT,
            0 <= count <= heap@.len(),
            list_ends(heap@, cur),
            count + list_elements(heap@, cur).len() == list_elements(heap@, c).len(),
            list_elements(heap@, c).len() <= heap@.len(),
        ensures
            count == list_elements(heap@, c).len(),
        decreases list_elements(heap@, cur).len(),
    {
        match pair_fields(heap, cur) {
            Some((_, tail)) => {
                proof {
                    list_tail(heap@, cur);
                }
                count = count + 1;
                cur = tail;
            },
            None => {
                proof {
                    list_end(heap@, cur);
                }
                break;
            },
        }
    }
    count
}

// ----- element access -----

/// A refused element access: the collection, and the first index past its end.
#[derive(Clone, Copy, PartialEq, Eq, Structural, Debug)]
pub struct OutOfRange {
    pub value: Word,
    pub bounds: i64,
}

impl OutOfRange {
    /// Describes the refusal.
    pub fn message(&self) -> (s: String)
        ensures
            s@ == "element out of range: key bounds = 0.."@ + decimal_text(self.bounds as int)
                + " (exclusive)"@,
    {
        let mut s = String::from_str("element out of range: key bounds = 0..");
        s.append(decimal_signed(self.bounds).as_str());
        s.append(" (exclusive)");
        s
    }
}

/// A spine that has ended stays where it ended.
proof fn ended_spine_stays(h: Seq<ObjectView>, w: Word, i: nat, j: nat)
    requires
        i <= j,
        pair_at(h, nth_tail(h, w, i)) is None,
    ensures
        nth_tail(h, w, j) == nth_tail(h, w, i),
    decreases j,
{
    if i < j {
        ended_spine_stays(h, w, i, (j - 1) as nat);
        spine_unfold(h, w, (j - 1) as nat);
    }
}

/// A spine that comes back to a word repeats itself from there.
proof fn spine_repeats(h: Seq<ObjectView>, w: Word, i: nat, j: nat, k: nat)
    requires
        nth_tail(h, w, i) == nth_tail(h, w, j),
    ensures
        nth_tail(h, w, i + k) == nth_tail(h, w, j + k),
    decreases k,
{
    if k > 0 {
        spine_repeats(h, w, i, j, (k - 1) as nat);
        spine_unfold(h, w, (i + k - 1) as nat);
        spine_unfold(h, w, (j + k - 1) as nat);
    }
}

/// A spine of more steps than there are objects comes back to a word.
proof fn long_spine_repeats(h: Seq<ObjectView>, w: Word) -> (ij: (nat, nat))
    requires
        forall|i: nat| i <= h.len() ==> pair_at(h, #[trigger] nth_tail(h, w, i)) is Some,
    ensures
        ij.0 < ij.1 <= h.len(),
        nth_tail(h, w, ij.0) == nth_tail(h, w, ij.1),
{
    let n = h.len();
    let s = Seq::new(n + 1, |i: int| index_of(nth_tail(h, w, i as nat)));
    if s.no_duplicates() {
        s.unique_seq_to_set();
        lemma_int_range(0, n as int);
        assert(s.to_set().subset_of(set_int_range(0, n as int))) by {
            assert forall|x: int| s.to_set().contains(x) implies set_int_range(
                0,
                n as int,
            ).contains(x) by {
                let i = choose|i: int| 0 <= i < s.len() && s[i] == x;
                assert(pair_at(h, nth_tail(h, w, i as nat)) is Some);
            }
        }
        lemma_len_subset(s.to_set(), set_int_range(0, n as int));
        assert(false);
    }
    let (i, j) = choose|i: int, j: int|
        0 <= i < s.len() && 0 <= j < s.len() && i != j && s[i] == s[j];
    assert(pair_at(h, nth_tail(h, w, i as nat)) is Some);
    assert(pair_at(h, nth_tail(h, w, j as nat)) is Some);
    pointer_is_word_of(h, nth_tail(h, w, i as nat));
    pointer_is_word_of(h, nth_tail(h, w, j as nat));
    if i < j {
        (i as nat, j as nat)
    } else {
        (j as nat, i as nat)
    }
}

/// A list that has not ended after as many steps as there are objects never
/// ends.
pub proof fn circular_list_never_ends(h: Seq<ObjectView>, w: Word, m: nat)
    requires
        !list_ends(h, w),
    ensures
        pair_at(h, nth_tail(h, w, m)) is Some,
    decreases m,
{
    assert forall|i: nat| i <= h.len() implies pair_at(h, #[trigger] nth_tail(h, w, i)) is Some by {
        if pair_at(h, nth_tail(h, w, i)) is None {
            ended_spine_stays(h, w, i, h.len());
        }
    }
    if m > h.len() {
        let (i, j) = long_spine_repeats(h, w);
        spine_repeats(h, w, i, j, (m - j) as nat);
        circular_list_never_ends(h, w, (i + (m - j)) as nat);
    }
}

/// What reading element `key` gives: the element; past the end the default, or
/// a refusal that names the bound. A word that is no collection has no element.
pub open spec fn element_result(
    es: Option<Seq<Word>>,
    c: Word,
    key: int,
    default: Option<Word>,
) -> Result<Word, OutOfRange> {
    match es {
        None => Err(OutOfRange { value: c, bounds: 0 }),
        Some(es) => if 0 <= key < es.len() {
            Ok(es[key])
        } else {
            match default {
                Some(d) => Ok(d),
                None => Err(OutOfRange { value: c, bounds: es.len() as i64 }),
            }
        },
    }
}

fn past_end(c: Word, bounds: i64, default: Option<Word>) -> (r: Result<Word, OutOfRange>)
    ensures
        r == match default {
            Some(d) => Ok::<Word, OutOfRange>(d),
            None => Err(OutOfRange { value: c, bounds }),
        },
{
    match default {
        Some(d) => Ok(d),
        None => Err(OutOfRange { value: c, bounds }),
    }
}

/// What reading element `key` of the word `c` gives. A circular list has an
/// element at every index.
pub open spec fn element_of(
    h: Seq<ObjectView>,
    ids: CollectionClasses,
    c: Word,
    key: int,
    default: Option<Word>,
) -> Result<Word, OutOfRange> {
    if circular(h, c) {
        Ok((pair_at(h, nth_tail(h, c, key as nat))->0).0)
    } else {
        element_result(elements(h, ids, c), c, key, default)
    }
}

/// Reads an element by index.
pub fn collection_element(
    heap: &Heap,
    ids: &CollectionClasses,
    c: Word,
    key: i64,
    default: Option<Word>,
) -> (r: Result<Word, OutOfRange>)
    requires
        heap_wf(heap@),
        ids.wf(),
        collection_intact(heap@, *ids, c),
        circular(heap@, c) ==> key >= 0,
    ensures
        r == element_of(heap@, *ids, c, key as int, default),
{
    let o = match heap.get(c) {
        Some(o) => o,
        None => return Err(OutOfRange { value: c, bounds: 0 }),
    };
    if o.class == ClassId(ClassId::SIMPLE_OBJECT_VECTOR) {
        let len: i64 = o.cells.len() as i64;
        if key < 0 || key >= len {
            return past_end(c, len, default);
        }
        return Ok(o.cells[key as usize]);
    }
    if o.class == ids.stretchy_vector {
        return match stretchy_vector_fields(heap, ids, c) {
            Some((length, _, storage)) => {
                let len: i64 = length as i64;
                assert(elements(heap@, *ids, c)->0.len() == length);
                if key < 0 || key >= len {
                    past_end(c, len, default)
                } else {
                    Ok(heap.cell(storage, key as usize).unwrap())
                }
            },
            None => Err(OutOfRange { value: c, bounds: 0 }),
        };
    }
    if o.class == ids.range {
        return match range_fields(heap, ids, c) {
            Some((from, to, by)) => {
                proof {
                    range_terms_in_bounds(from as int, to as int, by as int);
                }
                let size = count_terms(from, to, by);
                if key < 0 || key >= size {
                    past_end(c, size, default)
                } else {
                    proof {
                        range_terms_are_fixnums(from as int, to as int, by as int, key as int);
                    }
                    let v: i64 = from + key * by;
                    Ok(Word::from_fixnum(v).unwrap())
                }
            },
            None => Err(OutOfRange { value: c, bounds: 0 }),
        };
    }
    if o.class == ClassId(ClassId::EMPTY_LIST) {
        return past_end(c, 0, default);
    }
    if o.class == ClassId(ClassId::PAIR) {
        return list_element(heap, c, key, default);
    }
    if o.class == ClassId(ClassId::BYTE_STRING) {
        let len: i64 = o.bytes.len() as i64;
        if key < 0 || key >= len {
            return past_end(c, len, default);
        }
        let b: i64 = o.bytes[key as usize] as i64;
        return Ok(Word::fixnum_unchecked(b));
    }
    Err(OutOfRange { value: c, bounds: 0 })
}

/// Reads an element of a list by walking its spine.
fn list_element(heap: &Heap, c: Word, key: i64, default: Option<Word>) -> (r: Result<
    Word,
    OutOfRange,
>)
    requires
        heap@.len() <= HEAP_LIMIT,
        list_ends(heap@, c) || key >= 0,
    ensures
        list_ends(heap@, c) ==> r == element_result(
            Some(list_elements(heap@, c)),
            c,
            key as int,
            default,
        ),
        !list_ends(heap@, c) ==> r == Ok::<Word, OutOfRange>(
            (pair_at(heap@, nth_tail(heap@, c, key as nat))->0).0,
        ),
{
    let ghost ended = list_ends(heap@, c);
    let mut idx: i64 = 0;
    let mut cur = c;
    proof {
        spine_bounded(heap@, c, heap@.len());
        assert(list_elements(heap@, c).skip(0) =~= list_elements(heap@, c));
    }
    loop
        invariant
            heap@.len() <= HEAP_LIMIT,
            ended == list_ends(heap@, c),
            0 <= idx,
            cur == nth_tail(heap@, c, idx as nat),
            key < 0 || key >= idx,
            !ended ==> key >= 0,
            ended ==> {
                &&& idx <= heap@.len()
                &&& list_ends(heap@, cur)
                &&& idx <= list_elements(heap@, c).len() <= heap@.len()
                &&& list_elements(heap@, cur) == list_elements(heap@, c).skip(idx as int)
            },
        decreases
                (if ended {
                    list_elements(heap@, cur).len() as int
                } else {
                    key - idx
                }),
    {
        proof {
            spine_unfold(heap@, c, idx as nat);
        }
        match pair_fields(heap, cur) {
            Some((head, tail)) => {
                proof {
                    if ended {
                        list_tail(heap@, cur);
                        assert(list_elements(heap@, c)[idx as int] == list_elements(
                            heap@,
                            cur,
                        )[0]);
                    }
                }
                if idx == key {
                    return Ok(head);
                }
                proof {
                    if ended {
                        assert(list_elements(heap@, c).skip(idx + 1) =~= list_elements(
                            heap@,
                            cur,
                        ).drop_first());
                    }
                }
                cur = tail;
                idx = idx + 1;
            },
            None => {
                proof {
                    if ended {
                        list_end(heap@, cur);
                    } else {
                        circular_list_never_ends(heap@, c, idx as nat);
                    }
                }
                return past_end(c, idx, default);
            },
        }
    }
}

/// What storing element `key` answers: only vectors and stretchy vectors take
/// a store, and only inside their bounds.
pub open spec fn store_result(
    h: Seq<ObjectView>,
    ids: CollectionClasses,
    c: Word,
    key: int,
) -> Result<(), OutOfRange> {
    if vector_at(h, c) is Some || stretchy_at(h, ids, c) is Some {
        let n = elements(h, ids, c)->0.len();
        if 0 <= key < n {
            Ok(())
        } else {
            Err(OutOfRange { value: c, bounds: n as i64 })
        }
    } else {
        Err(OutOfRange { value: c, bounds: 0 })
    }
}

/// The vector that holds the elements of a vector or stretchy vector.
pub open spec fn backing_vector(h: Seq<ObjectView>, ids: CollectionClasses, c: Word) -> Word {
    if vector_at(h, c) is Some {
        c
    } else {
        (stretchy_at(h, ids, c)->0).2
    }
}

/// Stores an element by index. A refused store changes nothing.
pub fn collection_element_setter(
    heap: &mut Heap,
    ids: &CollectionClasses,
    c: Word,
    key: i64,
    value: Word,
) -> (r: Result<(), OutOfRange>)
    requires
        heap_wf(old(heap)@),
        ids.wf(),
        collection_intact(old(heap)@, *ids, c),
    ensures
        r == store_result(old(heap)@, *ids, c, key as int),
        r is Ok ==> final(heap)@ == with_cell(
            old(heap)@,
            backing_vector(old(heap)@, *ids, c),
            key as int,
            value,
        ),
        r is Err ==> final(heap)@ == old(heap)@,
        heap_wf(final(heap)@),
{
    let class = match heap.class_of(c) {
        Some(k) => k,
        None => return Err(OutOfRange { value: c, bounds: 0 }),
    };
    if class == ClassId(ClassId::SIMPLE_OBJECT_VECTOR) {
        let len: i64 = heap.get(c).unwrap().cells.len() as i64;
        if key < 0 || key >= len {
            return Err(OutOfRange { value: c, bounds: len });
        }
        heap.set_cell(c, key as usize, value);
        proof {
            cell_update_keeps_wf(old(heap)@, c, key as int, value);
        }
        return Ok(());
    }
    if class == ids.stretchy_vector {
        return match stretchy_vector_fields(heap, ids, c) {
            Some((length, _, storage)) => {
                let len: i64 = length as i64;
                assert(elements(heap@, *ids, c)->0.len() == length);
                if key < 0 || key >= len {
                    Err(OutOfRange { value: c, bounds: len })
                } else {
                    heap.set_cell(storage, key as usize, value);
                    proof {
                        cell_update_keeps_wf(old(heap)@, storage, key as int, value);
                    }
                    Ok(())
                }
            },
            None => Err(OutOfRange { value: c, bounds: 0 }),
        };
    }
    Err(OutOfRange { value: c, bounds: 0 })
}

/// Replacing a cell of an object keeps the heap well formed. The singletons
/// have no cells.
pub proof fn cell_update_keeps_wf(h: Seq<ObjectView>, w: Word, i: int, value: Word)
    requires
        heap_wf(h),
        cell_at(h, w, i) is Some,
    ensures
        heap_wf(with_cell(h, w, i, value)),
        index_of(w) >= 3,
{
    let k = index_of(w);
    if k < 3 {
        assert(h[k] == h.take(3)[k]);
    }
    assert(with_cell(h, w, i, value).take(3) =~= h.take(3));
}

/// Adding an object keeps the heap well formed and every object in place.
pub proof fn push_keeps_wf(h: Seq<ObjectView>, o: ObjectView)
    requires
        heap_wf(h),
        h.len() < HEAP_LIMIT,
    ensures
        heap_wf(h.push(o)),
{
    assert(h.push(o).take(3) =~= h.take(3));
}

/// After a store, reading the stored index gives the stored value and every
/// other element is as before.
pub proof fn store_then_read(
    h: Seq<ObjectView>,
    ids: CollectionClasses,
    c: Word,
    key: int,
    value: Word,
)
    requires
        ids.wf(),
        collection_wf(h, ids, c),
        store_result(h, ids, c, key) is Ok,
    ensures
        elements(with_cell(h, backing_vector(h, ids, c), key, value), ids, c) == Some(
            elements(h, ids, c)->0.update(key, value),
        ),
        collection_wf(with_cell(h, backing_vector(h, ids, c), key, value), ids, c),
{
    let b = backing_vector(h, ids, c);
    let g = with_cell(h, b, key, value);
    assert(points_into(g, c) && points_into(g, b));
    if vector_at(h, c) is Some {
        assert(g[index_of(c)].cells =~= h[index_of(c)].cells.update(key, value));
    } else {
        let (length, capacity, storage) = stretchy_at(h, ids, c)->0;
        assert(index_of(c) != index_of(b));
        assert(g[index_of(c)] == h[index_of(c)]);
        assert(stretchy_at(g, ids, c) == stretchy_at(h, ids, c));
        assert(vector_at(g, b)->0 =~= vector_at(h, b)->0.update(key, value));
        assert(vector_at(g, b)->0.take(length) =~= vector_at(h, b)->0.take(length).update(
            key,
            value,
        ));
    }
}

// ----- ranges -----

/// A range object.
pub open spec fn range_object(ids: CollectionClasses, from: int, to: int, by: int) -> ObjectView {
    cells_object(ids.range, seq![fixnum(from), fixnum(to), fixnum(by)])
}

/// Makes a range.
pub fn make_range(heap: &mut Heap, ids: &CollectionClasses, from: i64, to: i64, by: i64) -> (r:
    Word)
    requires
        heap_wf(old(heap)@),
        heap_room(old(heap)@, 1),
        ids.wf(),
        in_fixnum_range(from as int),
        in_fixnum_range(to as int),
        in_fixnum_range(by as int),
    ensures
        r == word_of(old(heap)@.len() as int),
        final(heap)@ == old(heap)@.push(range_object(*ids, from as int, to as int, by as int)),
        range_at(final(heap)@, *ids, r) == Some((from as int, to as int, by as int)),
        elements(final(heap)@, *ids, r) == Some(
            range_elements(from as int, to as int, by as int),
        ),
        heap_wf(final(heap)@),
{
    let cells = vec![
        Word::fixnum_unchecked(from),
        Word::fixnum_unchecked(to),
        Word::fixnum_unchecked(by),
    ];
    assert(cells@ =~= seq![fixnum(from as int), fixnum(to as int), fixnum(by as int)]);
    proof {
        push_keeps_wf(heap@, cells_object(ids.range, cells@));
    }
    heap.alloc_cells(ids.range, cells)
}

/// Makes a range from words; a bound that is no fixnum counts as zero, a step
/// as one.
pub fn nod_make_range(
    heap: &mut Heap,
    ids: &CollectionClasses,
    from_raw: u64,
    to_raw: u64,
    by_raw: u64,
) -> (r: u64)
    requires
        heap_wf(old(heap)@),
        heap_room(old(heap)@, 1),
        ids.wf(),
    ensures
        r == word_of(old(heap)@.len() as int).raw,
        final(heap)@ == old(heap)@.push(
            range_object(
                *ids,
                fixnum_or(Word { raw: from_raw }, 0),
                fixnum_or(Word { raw: to_raw }, 0),
                fixnum_or(Word { raw: by_raw }, 1),
            ),
        ),
        heap_wf(final(heap)@),
{
    let f = fixnum_else(Word::from_raw(from_raw), 0);
    let t = fixnum_else(Word::from_raw(to_raw), 0);
    let b = fixnum_else(Word::from_raw(by_raw), 1);
    make_range(heap, ids, f, t, b).raw()
}

/// The `from` of a range as a fixnum; zero for a word that is no range.
pub fn nod_range_from(heap: &Heap, ids: &CollectionClasses, r_raw: u64) -> (w: u64)
    ensures
        w == (match range_at(heap@, *ids, Word { raw: r_raw }) {
            Some((from, to, by)) => fixnum(from),
            None => fixnum(0),
        }).raw,
{
    match range_fields(heap, ids, Word::from_raw(r_raw)) {
        Some((from, _, _)) => Word::fixnum_unchecked(from).raw(),
        None => Word::fixnum_unchecked(0).raw(),
    }
}

/// The `to` of a range as a fixnum; zero for a word that is no range.
pub fn nod_range_to(heap: &Heap, ids: &CollectionClasses, r_raw: u64) -> (w: u64)
    ensures
        w == (match range_at(heap@, *ids, Word { raw: r_raw }) {
            Some((from, to, by)) => fixnum(to),
            None => fixnum(0),
        }).raw,
{
    match range_fields(heap, ids, Word::from_raw(r_raw)) {
        Some((_, to, _)) => Word::fixnum_unchecked(to).raw(),
        None => Word::fixnum_unchecked(0).raw(),
    }
}

/// The `by` of a range as a fixnum; one for a word that is no range.
pub fn nod_range_by(heap: &Heap, ids: &CollectionClasses, r_raw: u64) -> (w: u64)
    ensures
        w == (match range_at(heap@, *ids, Word { raw: r_raw }) {
            Some((from, to, by)) => fixnum(by),
            None => fixnum(1),
        }).raw,
{
    match range_fields(heap, ids, Word::from_raw(r_raw)) {
        Some((_, _, by)) => Word::fixnum_unchecked(by).raw(),
        None => Word::fixnum_unchecked(1).raw(),
    }
}

// ----- stretchy vectors -----

/// Makes an empty stretchy vector with room for `initial_capacity` elements, at
/// least one.
pub fn make_stretchy_vector(heap: &mut Heap, ids: &CollectionClasses, initial_capacity: usize) -> (
sv: Word)
    requires
        heap_wf(old(heap)@),
        heap_room(old(heap)@, 2),
        ids.wf(),
        initial_capacity <= FIXNUM_MAX,
    ensures
        sv == word_of(old(heap)@.len() as int + 1),
        ({
            let cap = if initial_capacity == 0 {
                1
            } else {
                initial_capacity as int
            };
            let storage = word_of(old(heap)@.len() as int);
            &&& final(heap)@ == old(heap)@.push(
                cells_object(
                    ClassId(ClassId::SIMPLE_OBJECT_VECTOR),
                    Seq::new(cap as nat, |i: int| zero_word()),
                ),
            ).push(cells_object(ids.stretchy_vector, seq![fixnum(0), fixnum(cap), storage]))
            &&& stretchy_at(final(heap)@, *ids, sv) == Some((0int, cap, storage))
        }),
        stretchy_wf(final(heap)@, *ids, sv),
        elements(final(heap)@, *ids, sv) == Some(Seq::<Word>::empty()),
        heap_wf(final(heap)@),
{
    let cap: usize = if initial_capacity == 0 {
        1
    } else {
        initial_capacity
    };
    let storage = heap.alloc_simple_object_vector(cap);
    proof {
        push_keeps_wf(old(heap)@, heap@.last());
    }
    let ghost mid = heap@;
    let cells = vec![Word::fixnum_unchecked(0), Word::fixnum_unchecked(cap as i64), storage];
    assert(cells@ =~= seq![fixnum(0), fixnum(cap as int), storage]);
    let sv = heap.alloc_cells(ids.stretchy_vector, cells);
    proof {
        push_keeps_wf(mid, heap@.last());
        assert(object_at(heap@, storage) == Some(mid.last()));
        assert(elements(heap@, *ids, sv)->0 =~= Seq::<Word>::empty());
    }
    sv
}

/// Makes a stretchy vector from a capacity word; a word that is no fixnum, and a
/// negative one, count as zero.
pub fn nod_make_stretchy_vector(heap: &mut Heap, ids: &CollectionClasses, capacity_raw: u64) -> (
r: u64)
    requires
        heap_wf(old(heap)@),
        heap_room(old(heap)@, 2),
        ids.wf(),
        fixnum_or(Word { raw: capacity_raw }, 0) <= usize::MAX,
    ensures
        r == word_of(old(heap)@.len() as int + 1).raw,
        ({
            let n = fixnum_or(Word { raw: capacity_raw }, 0);
            let cap = if n <= 0 {
                1
            } else {
                n
            };
            let storage = word_of(old(heap)@.len() as int);
            &&& final(heap)@ == old(heap)@.push(
                cells_object(
                    ClassId(ClassId::SIMPLE_OBJECT_VECTOR),
                    Seq::new(cap as nat, |i: int| zero_word()),
                ),
            ).push(cells_object(ids.stretchy_vector, seq![fixnum(0), fixnum(cap), storage]))
            &&& stretchy_at(final(heap)@, *ids, Word { raw: r }) == Some((0int, cap, storage))
        }),
        stretchy_wf(final(heap)@, *ids, Word { raw: r }),
        elements(final(heap)@, *ids, Word { raw: r }) == Some(Seq::<Word>::empty()),
        heap_wf(final(heap)@),
{
    let cap = fixnum_else(Word::from_raw(capacity_raw), 0);
    let n: usize = if cap < 0 {
        0
    } else {
        cap as usize
    };
    make_stretchy_vector(heap, ids, n).raw()
}

/// A full stretchy vector can double its capacity.
pub open spec fn can_grow(h: Seq<ObjectView>, ids: CollectionClasses, sv: Word) -> bool {
    let (length, capacity, storage) = stretchy_at(h, ids, sv)->0;
    length == capacity ==> 2 * capacity <= FIXNUM_MAX && 2 * capacity <= usize::MAX
}

/// Between two heaps a stretchy vector got one element longer: a full one moved to
/// a new storage of twice its capacity, and nothing but the vector and its storage
/// changed.
pub open spec fn pushed_in_place(
    h: Seq<ObjectView>,
    ids: CollectionClasses,
    sv: Word,
    g: Seq<ObjectView>,
) -> bool {
    let (length, capacity, storage) = stretchy_at(h, ids, sv)->0;
    let full = length == capacity;
    let new_capacity = if capacity == 0 {
        2
    } else {
        2 * capacity
    };
    &&& stretchy_at(g, ids, sv) == Some(
        (
            length + 1,
            if full {
                new_capacity
            } else {
                capacity
            },
            if full {
                word_of(h.len() as int)
            } else {
                storage
            },
        ),
    )
    &&& g.len() == if full {
        h.len() + 1
    } else {
        h.len()
    }
    &&& forall|i: int|
        0 <= i < h.len() && i != index_of(sv) && (full || i != index_of(storage)) ==> #[trigger] g[i]
            == h[i]
}

/// Appends an element to a stretchy vector. A full one moves to a storage of
/// twice its capacity first.
pub fn stretchy_vector_push(heap: &mut Heap, ids: &CollectionClasses, sv: Word, value: Word)
    requires
        heap_wf(old(heap)@),
        heap_room(old(heap)@, 1),
        ids.wf(),
        stretchy_wf(old(heap)@, *ids, sv),
        can_grow(old(heap)@, *ids, sv),
    ensures
        stretchy_wf(final(heap)@, *ids, sv),
        elements(final(heap)@, *ids, sv) == Some(
            elements(old(heap)@, *ids, sv)->0.push(value),
        ),
        pushed_in_place(old(heap)@, *ids, sv, final(heap)@),
        heap_wf(final(heap)@),
{
    let ghost h = old(heap)@;
    let (length, capacity, old_storage) = stretchy_vector_fields(heap, ids, sv).unwrap();
    proof {
        assert(vector_at(h, old_storage) is Some);
        assert(points_into(h, sv) && points_into(h, old_storage));
        assert(index_of(sv) != index_of(old_storage));
    }
    let storage = if length >= capacity {
        let new_capacity: usize = if capacity == 0 {
            2
        } else {
            capacity * 2
        };
        let new_storage = heap.alloc_simple_object_vector(new_capacity);
        proof {
            push_keeps_wf(h, heap@.last());
        }
        let ghost grown = heap@;
        let ghost n = h.len() as int;
        let mut i: usize = 0;
        while i < length
            invariant
                i <= length,
                n == h.len(),
                h.len() < HEAP_LIMIT,
                heap_wf(heap@),
                heap@.len() == h.len() + 1,
                new_storage == word_of(n),
                length <= new_capacity,
                vector_at(h, old_storage) is Some,
                vector_at(h, old_storage)->0.len() == length,
                forall|k: int| 0 <= k < n ==> #[trigger] heap@[k] == h[k],
                heap@[n].class == ClassId(ClassId::SIMPLE_OBJECT_VECTOR),
                heap@[n].cells.len() == new_capacity,
                forall|k: int|
                    0 <= k < i ==> heap@[n].cells[k] == vector_at(h, old_storage)->0[k],
            decreases length - i,
        {
            assert(heap@[index_of(old_storage)] == h[index_of(old_storage)]);
            let element = heap.cell(old_storage, i).unwrap();
            let ghost before = heap@;
            heap.set_cell(new_storage, i, element);
            proof {
                cell_update_keeps_wf(before, new_storage, i as int, element);
            }
            i += 1;
        }
        assert(heap@[index_of(sv)] == h[index_of(sv)]);
        let ghost copied = heap@;
        heap.set_cell(sv, 2, new_storage);
        proof {
            cell_update_keeps_wf(copied, sv, 2, new_storage);
        }
        let ghost moved = heap@;
        heap.set_cell(sv, 1, Word::fixnum_unchecked(new_capacity as i64));
        proof {
            cell_update_keeps_wf(moved, sv, 1, fixnum(new_capacity as int));
        }
        new_storage
    } else {
        old_storage
    };
    let ghost placed = heap@;
    assert(stretchy_at(heap@, *ids, sv) is Some);
    assert(vector_at(heap@, storage) is Some && vector_at(heap@, storage)->0.len() > length);
    heap.set_cell(storage, length, value);
    proof {
        cell_update_keeps_wf(placed, storage, length as int, value);
    }
    let ghost stored = heap@;
    heap.set_cell(sv, 0, Word::fixnum_unchecked((length + 1) as i64));
    proof {
        cell_update_keeps_wf(stored, sv, 0, fixnum(length + 1));
        crate::word::fixnum_round_trip(length + 1);
        let g = heap@;
        assert(g[index_of(sv)].cells[0] == fixnum(length + 1));
        assert(vector_at(g, storage)->0.take(length + 1) =~= elements(h, *ids, sv)->0.push(value));
    }
}

/// Appends an element to a stretchy vector and answers the vector.
pub fn nod_stretchy_vector_push(
    heap: &mut Heap,
    ids: &CollectionClasses,
    sv_raw: u64,
    value_raw: u64,
) -> (r: u64)
    requires
        heap_wf(old(heap)@),
        heap_room(old(heap)@, 1),
        ids.wf(),
        stretchy_wf(old(heap)@, *ids, Word { raw: sv_raw }),
        can_grow(old(heap)@, *ids, Word { raw: sv_raw }),
    ensures
        r == sv_raw,
        stretchy_wf(final(heap)@, *ids, Word { raw: sv_raw }),
        elements(final(heap)@, *ids, Word { raw: sv_raw }) == Some(
            elements(old(heap)@, *ids, Word { raw: sv_raw })->0.push(Word { raw: value_raw }),
        ),
        pushed_in_place(old(heap)@, *ids, Word { raw: sv_raw }, final(heap)@),
        heap_wf(final(heap)@),
{
    stretchy_vector_push(heap, ids, Word::from_raw(sv_raw), Word::from_raw(value_raw));
    sv_raw
}

/// The length of a stretchy vector as a fixnum; zero for a word that is none.
pub fn nod_stretchy_vector_size(heap: &Heap, ids: &CollectionClasses, sv_raw: u64) -> (w: u64)
    requires
        stretchy_at(heap@, *ids, Word { raw: sv_raw }) is Some ==> stretchy_wf(
            heap@,
            *ids,
            Word { raw: sv_raw },
        ),
    ensures
        w == (match stretchy_at(heap@, *ids, Word { raw: sv_raw }) {
            Some((length, capacity, storage)) => fixnum(length),
            None => fixnum(0),
        }).raw,
{
    match stretchy_vector_fields(heap, ids, Word::from_raw(sv_raw)) {
        Some((length, _, _)) => Word::fixnum_unchecked(length as i64).raw(),
        None => Word::fixnum_unchecked(0).raw(),
    }
}

/// Reads an element; the empty list stands for an index out of range. An index
/// word that is no fixnum counts as zero.
pub fn nod_stretchy_vector_element(
    heap: &Heap,
    ids: &CollectionClasses,
    sv_raw: u64,
    i_raw: u64,
) -> (w: u64)
    requires
        heap_wf(heap@),
        ids.wf(),
        collection_intact(heap@, *ids, Word { raw: sv_raw }),
        circular(heap@, Word { raw: sv_raw }) ==> fixnum_or(Word { raw: i_raw }, 0) >= 0,
    ensures
        w == (match element_of(
            heap@,
            *ids,
            Word { raw: sv_raw },
            fixnum_or(Word { raw: i_raw }, 0),
            None,
        ) {
            Ok(e) => e,
            Err(_) => nil_word(),
        }).raw,
{
    let i = fixnum_else(Word::from_raw(i_raw), 0);
    match collection_element(heap, ids, Word::from_raw(sv_raw), i, None) {
        Ok(e) => e.raw(),
        Err(_) => literal_pool_immediates().nil.raw(),
    }
}

/// Stores an element and answers the value; a store out of range is dropped.
pub fn nod_stretchy_vector_element_setter(
    heap: &mut Heap,
    ids: &CollectionClasses,
    value_raw: u64,
    sv_raw: u64,
    i_raw: u64,
) -> (w: u64)
    requires
        heap_wf(old(heap)@),
        ids.wf(),
        collection_intact(old(heap)@, *ids, Word { raw: sv_raw }),
    ensures
        w == value_raw,
        ({
            let sv = Word { raw: sv_raw };
            let i = fixnum_or(Word { raw: i_raw }, 0);
            final(heap)@ == if store_result(old(heap)@, *ids, sv, i) is Ok {
                with_cell(
                    old(heap)@,
                    backing_vector(old(heap)@, *ids, sv),
                    i,
                    Word { raw: value_raw },
                )
            } else {
                old(heap)@
            }
        }),
        heap_wf(final(heap)@),
{
    let i = fixnum_else(Word::from_raw(i_raw), 0);
    let _ = collection_element_setter(
        heap,
        ids,
        Word::from_raw(sv_raw),
        i,
        Word::from_raw(value_raw),
    );
    value_raw
}

/// The number of elements as a fixnum; zero for a word that is no collection.
pub fn nod_collection_size(heap: &Heap, ids: &CollectionClasses, c_raw: u64) -> (w: u64)
    requires
        heap_wf(heap@),
        ids.wf(),
        collection_wf(heap@, *ids, Word { raw: c_raw }),
        elements(heap@, *ids, Word { raw: c_raw }) is Some ==> elements(
            heap@,
            *ids,
            Word { raw: c_raw },
        )->0.len() <= FIXNUM_MAX,
    ensures
        w == (match elements(heap@, *ids, Word { raw: c_raw }) {
            Some(es) => fixnum(es.len() as int),
            None => fixnum(0),
        }).raw,
{
    match collection_size(heap, ids, Word::from_raw(c_raw)) {
        Some(n) => Word::fixnum_unchecked(n).raw(),
        None => Word::fixnum_unchecked(0).raw(),
    }
}

/// Whether a word is an instance of `<collection>`. The seed collection
/// classes take part although they are registered elsewhere in the hierarchy.
pub fn is_collection(
    table: &ClassTable,
    ids: &CollectionClasses,
    heap: &Heap,
    w: Word,
) -> (b: bool)
    ensures
        b == match class_at(heap@, w) {
            Some(c) => {
                ||| c == ClassId(ClassId::SIMPLE_OBJECT_VECTOR)
                ||| c == ClassId(ClassId::PAIR)
                ||| c == ClassId(ClassId::EMPTY_LIST)
                ||| c == ClassId(ClassId::BYTE_STRING)
                ||| table@.subclass(c, ids.collection)
            },
            None => false,
        },
{
    match heap.class_of(w) {
        Some(c) => {
            if c == ClassId(ClassId::SIMPLE_OBJECT_VECTOR) || c == ClassId(ClassId::PAIR) || c
                == ClassId(ClassId::EMPTY_LIST) || c == ClassId(ClassId::BYTE_STRING) {
                true
            } else {
                is_subclass(table, c, ids.collection)
            }
        },
        None => false,
    }
}

/// Makes an `<out-of-range-error>` that carries the refused value, the bound and
/// a message.
pub fn make_out_of_range_error(
    literals: &mut LiteralPool,
    heap: &mut Heap,
    ids: &CollectionClasses,
    value: Word,
    bounds: i64,
    message: &str,
) -> (w: Word)
    requires
        heap_wf(old(heap)@),
        heap_room(old(heap)@, 2),
        in_fixnum_range(bounds as int),
    ensures
        ({
            let g = heap_with_literal(old(literals)@, old(heap)@, message@);
            &&& w == word_of(g.len() as int)
            &&& final(literals)@ == pool_with_literal(old(literals)@, old(heap)@, message@)
            &&& final(heap)@ == g.push(
                cells_object(
                    ids.out_of_range_error,
                    seq![
                        value,
                        fixnum(bounds as int),
                        literal_of(old(literals)@, old(heap)@, message@),
                    ],
                ),
            )
        }),
        heap_wf(final(heap)@),
{
    let text = intern_string_literal(literals, heap, message);
    let cells = vec![value, Word::fixnum_unchecked(bounds), text];
    assert(cells@ =~= seq![value, fixnum(bounds as int), text]);
    proof {
        push_keeps_wf(heap@, cells_object(ids.out_of_range_error, cells@));
    }
    heap.alloc_cells(ids.out_of_range_error, cells)
}

// ----- what collections are for -----

/// A vector holds its cells, in order.
pub proof fn vectors_hold_their_cells(
    h: Seq<ObjectView>,
    ids: CollectionClasses,
    w: Word,
    o: ObjectView,
    i: int,
)
    requires
        ids.wf(),
        object_at(h, w) == Some(o),
        o.class == ClassId(ClassId::SIMPLE_OBJECT_VECTOR),
        0 <= i < o.cells.len(),
    ensures
        elements(h, ids, w) is Some,
        elements(h, ids, w)->0.len() == o.cells.len(),
        elements(h, ids, w)->0[i] == o.cells[i],
{
}

/// A byte string holds its bytes as integers, in order.
pub proof fn byte_strings_hold_their_bytes(
    h: Seq<ObjectView>,
    ids: CollectionClasses,
    w: Word,
    o: ObjectView,
    i: int,
)
    requires
        ids.wf(),
        object_at(h, w) == Some(o),
        o.class == ClassId(ClassId::BYTE_STRING),
        0 <= i < o.bytes.len(),
    ensures
        elements(h, ids, w) is Some,
        elements(h, ids, w)->0.len() == o.bytes.len(),
        elements(h, ids, w)->0[i] == fixnum(o.bytes[i] as int),
{
}

/// A range holds the integers from its first bound by its step, as far as its
/// second bound.
pub proof fn ranges_hold_their_terms(
    h: Seq<ObjectView>,
    ids: CollectionClasses,
    w: Word,
    o: ObjectView,
    from: int,
    to: int,
    by: int,
    k: int,
)
    requires
        ids.wf(),
        object_at(h, w) == Some(o),
        o.class == ids.range,
        o.cells.len() == 3,
        in_fixnum_range(from),
        in_fixnum_range(to),
        in_fixnum_range(by),
        o.cells[0] == fixnum(from),
        o.cells[1] == fixnum(to),
        o.cells[2] == fixnum(by),
    ensures
        elements(h, ids, w) is Some,
        ({
            let es = elements(h, ids, w)->0;
            let inside = 0 <= k && ((by > 0 && from + k * by <= to) || (by < 0 && from + k * by
                >= to));
            &&& 0 <= k < es.len() <==> inside
            &&& 0 <= k < es.len() ==> es[k] == fixnum(from + k * by)
        }),
{
    crate::word::fixnum_round_trip(from);
    crate::word::fixnum_round_trip(to);
    crate::word::fixnum_round_trip(by);
    range_terms_in_bounds(from, to, by);
    let n = range_count(from, to, by);
    let es = elements(h, ids, w)->0;
    assert(es.len() == n);
    if 0 <= k < n {
        assert(from + (k * by) == from + k * by);
        assert(by != 0);
        range_terms_are_fixnums(from, to, by, k);
    } else if 0 <= k && by > 0 && from <= to {
        let d = to - from;
        assert(k * by > d) by (nonlinear_arith)
            requires
                by > 0,
                d >= 0,
                k >= d / by + 1,
        ;
    } else if 0 <= k && by > 0 {
        assert(k * by >= 0) by (nonlinear_arith)
            requires
                by > 0,
                k >= 0,
        ;
    } else if 0 <= k && by < 0 && from >= to {
        let d = from - to;
        let b = -by;
        assert(k * b > d) by (nonlinear_arith)
            requires
                b > 0,
                d >= 0,
                k >= d / b + 1,
        ;
        assert(k * by == -(k * b)) by (nonlinear_arith)
            requires
                b == -by,
        ;
    } else if 0 <= k && by < 0 {
        assert(k * by <= 0) by (nonlinear_arith)
            requires
                by < 0,
                k >= 0,
        ;
    }
}

/// A stretchy vector holds the first cells of its storage, as many as its length
/// says.
pub proof fn stretchy_vectors_hold_the_front_of_their_storage(
    h: Seq<ObjectView>,
    ids: CollectionClasses,
    w: Word,
    o: ObjectView,
    storage: ObjectView,
    length: int,
    i: int,
)
    requires
        ids.wf(),
        object_at(h, w) == Some(o),
        o.class == ids.stretchy_vector,
        o.cells.len() == 3,
        in_fixnum_range(length),
        o.cells[0] == fixnum(length),
        object_at(h, o.cells[2]) == Some(storage),
        storage.class == ClassId(ClassId::SIMPLE_OBJECT_VECTOR),
        0 <= i < length <= storage.cells.len(),
    ensures
        elements(h, ids, w) is Some,
        elements(h, ids, w)->0.len() == length,
        elements(h, ids, w)->0[i] == storage.cells[i],
{
    crate::word::fixnum_round_trip(length);
}

/// A pair holds its head and then what its tail holds; the empty list holds
/// nothing.
pub proof fn lists_hold_head_then_tail(
    h: Seq<ObjectView>,
    ids: CollectionClasses,
    w: Word,
    o: ObjectView,
)
    requires
        ids.wf(),
        object_at(h, w) == Some(o),
    ensures
        o.class == ClassId(ClassId::EMPTY_LIST) ==> elements(h, ids, w) == Some(
            Seq::<Word>::empty(),
        ),
        o.class == ClassId(ClassId::PAIR) && o.cells.len() == 2 && list_ends(h, w) && class_at(
            h,
            o.cells[1],
        ) == Some(ClassId(ClassId::EMPTY_LIST)) ==> elements(h, ids, w) == Some(seq![o.cells[0]]),
        o.class == ClassId(ClassId::PAIR) && o.cells.len() == 2 && list_ends(h, w) && class_at(
            h,
            o.cells[1],
        ) == Some(ClassId(ClassId::PAIR)) ==> elements(h, ids, o.cells[1]) is Some && elements(
            h,
            ids,
            w,
        ) == Some(seq![o.cells[0]] + elements(h, ids, o.cells[1])->0),
{
    if o.class == ClassId(ClassId::PAIR) && o.cells.len() == 2 && list_ends(h, w) {
        list_tail(h, w);
        if class_at(h, o.cells[1]) == Some(ClassId(ClassId::EMPTY_LIST)) {
            list_end(h, o.cells[1]);
            assert(seq![o.cells[0]] + Seq::<Word>::empty() =~= seq![o.cells[0]]);
        }
    }
}

/// Nothing else is a collection.
pub proof fn other_words_are_no_collections(h: Seq<ObjectView>, ids: CollectionClasses, w: Word)
    requires
        match object_at(h, w) {
            None => true,
            Some(o) => {
                &&& o.class != ClassId(ClassId::SIMPLE_OBJECT_VECTOR)
                &&& o.class != ClassId(ClassId::EMPTY_LIST)
                &&& o.class != ClassId(ClassId::PAIR)
                &&& o.class != ClassId(ClassId::BYTE_STRING)
                &&& o.class != ids.range
                &&& o.class != ids.stretchy_vector
            },
        },
    ensures
        elements(h, ids, w) is None,
{
}

/// Reading at an index gives the element there. Past either end it gives the
/// default, and without one a refusal that names the collection and its length; a
/// word that is no collection has length zero.
pub proof fn reading_gives_the_element_at_the_index(
    h: Seq<ObjectView>,
    ids: CollectionClasses,
    c: Word,
    key: int,
    default: Option<Word>,
)
    requires
        !circular(h, c),
        elements(h, ids, c) is Some ==> elements(h, ids, c)->0.len() <= i64::MAX,
    ensures
        ({
            let r = element_of(h, ids, c, key, default);
            match elements(h, ids, c) {
                Some(es) => {
                    &&& 0 <= key < es.len() ==> r == Ok::<Word, OutOfRange>(es[key])
                    &&& !(0 <= key < es.len()) && default is Some ==> r == Ok::<Word, OutOfRange>(
                        default->0,
                    )
                    &&& !(0 <= key < es.len()) && default is None ==> (r matches Err(e) && e.value
                        == c && e.bounds == es.len())
                },
                None => r matches Err(e) && e.value == c && e.bounds == 0,
            }
        }),
{
}

/// Reading a circular list goes round: index zero is the head, and the index after
/// is that of the tail.
pub proof fn reading_goes_round_circular_lists(
    h: Seq<ObjectView>,
    ids: CollectionClasses,
    c: Word,
    o: ObjectView,
    key: int,
    default: Option<Word>,
)
    requires
        circular(h, c),
        object_at(h, c) == Some(o),
        o.cells.len() == 2,
        key >= 0,
    ensures
        element_of(h, ids, c, 0, default) == Ok::<Word, OutOfRange>(o.cells[0]),
        circular(h, o.cells[1]),
        element_of(h, ids, c, key + 1, default) == element_of(h, ids, o.cells[1], key, default),
{
    let tail = o.cells[1];
    assert(pair_at(h, c) == Some((o.cells[0], tail)));
    assert(nth_tail(h, c, 0) == c);
    assert(nth_tail(h, c, (key + 1) as nat) == nth_tail(h, tail, key as nat));
    circular_list_never_ends(h, c, (h.len() + 1) as nat);
    assert(nth_tail(h, c, (h.len() + 1) as nat) == nth_tail(h, tail, h.len()));
    circular_list_never_ends(h, c, 1);
    assert(nth_tail(h, c, 1) == nth_tail(h, tail, 0));
    assert(nth_tail(h, tail, 0) == tail);
}

/// A store is taken inside the bounds of a vector or stretchy vector alone, and
/// writes the cell that reading at that index reads.
pub proof fn stores_are_taken_inside_the_bounds(
    h: Seq<ObjectView>,
    ids: CollectionClasses,
    c: Word,
    o: ObjectView,
    key: int,
)
    requires
        ids.wf(),
        object_at(h, c) == Some(o),
        collection_wf(h, ids, c),
    ensures
        o.class == ClassId(ClassId::SIMPLE_OBJECT_VECTOR) ==> {
            &&& store_result(h, ids, c, key) is Ok <==> 0 <= key < o.cells.len()
            &&& backing_vector(h, ids, c) == c
        },
        o.class == ids.stretchy_vector && o.cells.len() == 3 ==> {
            &&& store_result(h, ids, c, key) is Ok <==> 0 <= key < elements(h, ids, c)->0.len()
            &&& backing_vector(h, ids, c) == o.cells[2]
        },
        o.class != ClassId(ClassId::SIMPLE_OBJECT_VECTOR) && o.class != ids.stretchy_vector
            ==> store_result(h, ids, c, key) == Err::<(), OutOfRange>(
            OutOfRange { value: c, bounds: 0 },
        ),
        store_result(h, ids, c, key) matches Err(e) ==> e.value == c && (elements(h, ids, c) is Some
            && (o.class == ClassId(ClassId::SIMPLE_OBJECT_VECTOR) || o.class
            == ids.stretchy_vector) ==> e.bounds == elements(h, ids, c)->0.len()),
{
}

/// A range is made of its bounds and its step, in this order.
pub proof fn ranges_are_made_of_bounds_and_step(
    ids: CollectionClasses,
    from: int,
    to: int,
    by: int,
)
    ensures
        range_object(ids, from, to, by).class == ids.range,
        range_object(ids, from, to, by).cells.len() == 3,
        range_object(ids, from, to, by).cells[0] == fixnum(from),
        range_object(ids, from, to, by).cells[1] == fixnum(to),
        range_object(ids, from, to, by).cells[2] == fixnum(by),
{
}

/// A push makes a stretchy vector one longer. One that is full moves to a new
/// storage of twice its capacity, or of two for an empty one; any other stays where
/// it is.
pub proof fn pushing_grows_full_vectors(
    h: Seq<ObjectView>,
    ids: CollectionClasses,
    sv: Word,
    g: Seq<ObjectView>,
)
    requires
        stretchy_wf(h, ids, sv),
        pushed_in_place(h, ids, sv, g),
    ensures
        ({
            let (length, capacity, storage) = stretchy_at(h, ids, sv)->0;
            let (new_length, new_capacity, new_storage) = stretchy_at(g, ids, sv)->0;
            &&& stretchy_at(g, ids, sv) is Some
            &&& new_length == length + 1
            &&& length < capacity ==> new_capacity == capacity && new_storage == storage && g.len()
                == h.len()
            &&& length == capacity && capacity == 0 ==> new_capacity == 2
            &&& length == capacity && capacity > 0 ==> new_capacity == capacity + capacity
            &&& length == capacity ==> new_storage == word_of(h.len() as int) && g.len() == h.len()
                + 1
        }),
{
}

/// The integer in a word is the one that it carries; any other word stands for the
/// default.
pub proof fn integers_are_read_or_defaulted(n: int, raw: u64, default: int)
    requires
        in_fixnum_range(n),
    ensures
        fixnum_or(fixnum(n), default) == n,
        raw % 2 == 1 ==> fixnum_or(Word { raw }, default) == default,
{
    crate::word::fixnum_round_trip(n);
}

} // verus!
