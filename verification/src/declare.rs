//! Declarations of library classes.
//!
//! A part of the run-time library lists its classes once, each with the name
//! of its superclass and its own slots. Declaring the list registers the
//! classes that are not there yet, so declaring it again changes nothing.

use vstd::prelude::*;

use crate::class_pins::{pinned, pinned_in_band, pinned_injective, PIN_CEILING};
use crate::classes::{
    named_from, named_in_range, no_limit, position_from, position_in_range,
    register_simple_user_class, seed_class, seed_table, slot_views, ClassId, ClassTable, ClassView,
    SlotDefault, SlotInfo, SlotType, SlotView, TableView, SEED_NAMES, SLOT_LIMIT,
};
use crate::pin_rows::seeds_are_not_pinned;

verus! {

/// A library class: its name, its superclass by name, and its own slots.
pub struct ClassDecl {
    pub name: &'static str,
    pub parent: &'static str,
    pub slots: Vec<SlotInfo>,
}

/// What a `ClassDecl` says.
#[verifier::ext_equal]
pub struct DeclView {
    pub name: Seq<char>,
    pub parent: Seq<char>,
    pub slots: Seq<SlotView>,
}

impl View for ClassDecl {
    type V = DeclView;

    open spec fn view(&self) -> DeclView {
        DeclView { name: self.name@, parent: self.parent@, slots: slot_views(self.slots@) }
    }
}

/// A declared slot: named, filled by an init keyword, with an optional default.
/// Its offset is settled at registration.
pub open spec fn slot_decl(
    name: Seq<char>,
    keyword: Seq<char>,
    type_kind: SlotType,
    default_init: SlotDefault,
    has_setter: bool,
) -> SlotView {
    SlotView {
        name,
        offset: 0,
        type_kind,
        init_keyword: Some(keyword),
        required_init_keyword: false,
        default_init,
        has_setter,
    }
}

/// Builds a slot declaration.
pub fn slot(
    name: &str,
    keyword: &str,
    type_kind: SlotType,
    default_init: SlotDefault,
    has_setter: bool,
) -> (s: SlotInfo)
    ensures
        s@ == slot_decl(name@, keyword@, type_kind, default_init, has_setter),
{
    SlotInfo {
        name: name.to_owned(),
        offset: 0,
        type_kind,
        init_keyword: Some(keyword.to_owned()),
        required_init_keyword: false,
        default_init,
        has_setter,
    }
}

/// The declarations as views.
pub open spec fn decl_views(decls: Seq<ClassDecl>) -> Seq<DeclView> {
    Seq::new(decls.len(), |i: int| decls[i]@)
}

/// One for each declaration, and one for each slot.
pub open spec fn decl_weight(ds: Seq<DeclView>) -> int
    decreases ds.len(),
{
    if ds.len() == 0 {
        0
    } else {
        decl_weight(ds.drop_last()) + 1 + ds.last().slots.len()
    }
}

impl TableView {
    /// The table after one declaration.
    pub open spec fn declared(self, d: DeclView) -> TableView {
        if self.named(d.name) is Some {
            self
        } else {
            self.with_simple_class(d.name, self.named(d.parent)->0, d.slots)
        }
    }

    /// The table after a list of declarations, first to last.
    pub open spec fn declared_all(self, ds: Seq<DeclView>) -> TableView
        decreases ds.len(),
    {
        if ds.len() == 0 {
            self
        } else {
            self.declared_all(ds.drop_last()).declared(ds.last())
        }
    }

    /// Every superclass named in the list is registered or declared earlier in
    /// the list.
    pub open spec fn knows_parents(self, ds: Seq<DeclView>) -> bool {
        forall|i: int|
            0 <= i < ds.len() ==> self.named((#[trigger] ds[i]).parent) is Some || exists|j: int|
                0 <= j < i && ds[j].name == ds[i].parent
    }

    /// Every precedence list starts with the class itself.
    pub open spec fn lists_headed(self) -> bool {
        forall|i: int|
            0 <= i < self.entries.len() ==> (#[trigger] self.entries[i]).cpl.len() > 0
                && self.entries[i].cpl[0] == self.entries[i].id
    }

    /// The ids of all classes are seed ids, pinned ids, or ids that were handed
    /// out in one of the bands.
    pub open spec fn ids_accounted(self) -> bool {
        &&& PIN_CEILING <= self.next_user_id <= ClassId::FIRST_SHIM <= self.next_shim_id
        &&& forall|i: int|
            0 <= i < self.entries.len() ==> {
                let id = (#[trigger] self.entries[i]).id.0;
                id < self.next_user_id || ClassId::FIRST_SHIM <= id < self.next_shim_id
            }
    }
}

impl TableView {
    /// An id belongs to one class name: ids are accounted for, pinned ids stand
    /// with their names, and no two names share an id.
    pub open spec fn ids_identify(self) -> bool {
        &&& self.ids_accounted()
        &&& forall|i: int|
            0 <= i < self.entries.len() && ClassId::FIRST_USER <= (#[trigger] self.entries[i]).id.0
                < PIN_CEILING ==> pinned(self.entries[i].name) == Some(self.entries[i].id.0)
        &&& forall|i: int, j: int|
            0 <= i < self.entries.len() && 0 <= j < self.entries.len()
                && (#[trigger] self.entries[i]).id == (#[trigger] self.entries[j]).id
                ==> self.entries[i].name == self.entries[j].name
    }
}

// ----- what adding a class keeps -----

proof fn position_push(entries: Seq<ClassView>, c: ClassView, id: ClassId, from: int)
    requires
        0 <= from <= entries.len(),
    ensures
        position_from(entries, id, from) is Some ==> position_from(entries.push(c), id, from)
            == position_from(entries, id, from),
        position_from(entries, id, from) is None ==> position_from(entries.push(c), id, from) == (
        if c.id == id {
            Some(entries.len() as int)
        } else {
            None::<int>
        }),
    decreases entries.len() - from,
{
    if from < entries.len() {
        position_push(entries, c, id, from + 1);
    } else {
        assert(position_from(entries.push(c), id, from + 1) is None);
    }
}

proof fn named_push(entries: Seq<ClassView>, c: ClassView, name: Seq<char>, limit: int, from: int)
    requires
        0 <= from <= entries.len(),
    ensures
        named_from(entries, name, limit, from) is Some ==> named_from(
            entries.push(c),
            name,
            limit,
            from,
        ) == named_from(entries, name, limit, from),
        named_from(entries, name, limit, from) is None ==> named_from(
            entries.push(c),
            name,
            limit,
            from,
        ) == (if c.id.0 < limit && c.name == name {
            Some(entries.len() as int)
        } else {
            None::<int>
        }),
    decreases entries.len() - from,
{
    if from < entries.len() {
        named_push(entries, c, name, limit, from + 1);
    } else {
        assert(named_from(entries.push(c), name, limit, from + 1) is None);
    }
}

/// Adding a class keeps what is known of the classes that were there.
pub proof fn adding_keeps_classes(t: TableView, c: ClassView, id: ClassId, name: Seq<char>)
    ensures
        t.lookup(id) is Some ==> t.with_entry(c).lookup(id) == t.lookup(id),
        t.named(name) is Some ==> t.with_entry(c).named(name) == t.named(name),
        t.named(name) is None ==> t.with_entry(c).named(name) == (if c.name == name {
            Some(c.id)
        } else {
            None::<ClassId>
        }),
        t.lookup(id) is None ==> t.with_entry(c).lookup(id) == (if c.id == id {
            Some(c)
        } else {
            None::<ClassView>
        }),
{
    position_push(t.entries, c, id, 0);
    named_push(t.entries, c, name, no_limit(), 0);
    position_in_range(t.entries, id, 0);
    named_in_range(t.entries, name, no_limit(), 0);
}

/// A class that can be found by name can be found by its id.
pub proof fn named_is_registered(t: TableView, name: Seq<char>)
    requires
        t.named(name) is Some,
    ensures
        t.lookup(t.named(name)->0) is Some,
{
    named_in_range(t.entries, name, no_limit(), 0);
    position_in_range(t.entries, t.named(name)->0, 0);
}

/// The id of a new class is no seed id.
pub proof fn next_id_is_no_seed(t: TableView, name: Seq<char>)
    requires
        t.wf(),
    ensures
        t.next_id(name).0 >= ClassId::FIRST_USER,
{
    if pinned(name) is Some {
        pinned_in_band(name);
    }
}

/// Registering a class keeps the table well formed.
pub proof fn registering_keeps_wf(
    t: TableView,
    name: Seq<char>,
    parent: ClassId,
    own: Seq<SlotView>,
)
    requires
        t.wf(),
        t.room(1),
    ensures
        t.with_simple_class(name, parent, own).wf(),
{
    next_id_is_no_seed(t, name);
    let u = t.with_simple_class(name, parent, own);
    assert forall|i: int| 0 <= i < u.entries.len() - 1 implies (#[trigger] u.entries[i])
        == t.entries[i] by {}
}

/// Registering a class with `k` slots uses up one id and `k` slots.
pub proof fn registering_uses_room(
    t: TableView,
    name: Seq<char>,
    parent: ClassId,
    own: Seq<SlotView>,
    n: int,
)
    requires
        n >= 0,
        t.lookup(parent) is Some,
        t.room(n + 1 + own.len()),
    ensures
        t.with_simple_class(name, parent, own).room(n),
{
    position_in_range(t.entries, parent, 0);
    let u = t.with_simple_class(name, parent, own);
    let at = position_from(t.entries, parent, 0)->0;
    assert(t.entries[at].slots.len() + n + 1 + own.len() <= SLOT_LIMIT);
    assert forall|i: int| 0 <= i < u.entries.len() implies (#[trigger] u.entries[i]).slots.len() + n
        <= SLOT_LIMIT by {
        if i < t.entries.len() {
            assert(u.entries[i] == t.entries[i]);
            assert(t.entries[i].slots.len() + n + 1 + own.len() <= SLOT_LIMIT);
        }
    }
}

/// After a declaration the class is there, and every class that was there
/// before is unchanged.
pub proof fn declaring_keeps_classes(t: TableView, d: DeclView, name: Seq<char>, id: ClassId)
    ensures
        t.declared(d).named(d.name) is Some,
        t.named(name) is Some ==> t.declared(d).named(name) == t.named(name),
        t.lookup(id) is Some ==> t.declared(d).lookup(id) == t.lookup(id),
{
    if t.named(d.name) is None {
        let u = t.after_next_id(d.name);
        let c = t.simple_class(t.next_id(d.name), d.name, t.named(d.parent)->0, d.slots);
        adding_keeps_classes(u, c, id, name);
        adding_keeps_classes(u, c, id, d.name);
        assert(u.named(name) == t.named(name));
        assert(u.named(d.name) == t.named(d.name));
        assert(u.lookup(id) == t.lookup(id));
    }
}

/// After a list of declarations every class of the list is there, and every
/// class that was there before is unchanged.
pub proof fn declaring_all_keeps_classes(
    t: TableView,
    ds: Seq<DeclView>,
    name: Seq<char>,
    id: ClassId,
)
    ensures
        forall|i: int|
            0 <= i < ds.len() ==> t.declared_all(ds).named((#[trigger] ds[i]).name) is Some,
        t.named(name) is Some ==> t.declared_all(ds).named(name) == t.named(name),
        t.lookup(id) is Some ==> t.declared_all(ds).lookup(id) == t.lookup(id),
    decreases ds.len(),
{
    if ds.len() > 0 {
        let front = ds.drop_last();
        let u = t.declared_all(front);
        declaring_all_keeps_classes(t, front, name, id);
        declaring_keeps_classes(u, ds.last(), name, id);
        assert forall|i: int| 0 <= i < ds.len() implies t.declared_all(ds).named(
            (#[trigger] ds[i]).name,
        ) is Some by {
            if i < front.len() {
                assert(front[i] == ds[i]);
            }
            declaring_keeps_classes(u, ds.last(), ds[i].name, id);
        }
    }
}

/// Declaring a list of classes whose names are all there changes nothing.
pub proof fn declaring_known_is_noop(t: TableView, ds: Seq<DeclView>)
    requires
        forall|i: int| 0 <= i < ds.len() ==> t.named((#[trigger] ds[i]).name) is Some,
    ensures
        t.declared_all(ds) == t,
    decreases ds.len(),
{
    if ds.len() > 0 {
        let front = ds.drop_last();
        assert forall|i: int| 0 <= i < front.len() implies t.named((#[trigger] front[i]).name)
            is Some by {
            assert(front[i] == ds[i]);
        }
        declaring_known_is_noop(t, front);
        assert(ds.last() == ds[ds.len() - 1]);
    }
}

/// Declaring the same list of classes twice is declaring it once.
pub proof fn declaring_is_idempotent(t: TableView, ds: Seq<DeclView>)
    ensures
        t.declared_all(ds).declared_all(ds) == t.declared_all(ds),
{
    declaring_all_keeps_classes(t, ds, seq![], ClassId(0));
    declaring_known_is_noop(t.declared_all(ds), ds);
}

/// A freshly registered class is an instance class of itself and of exactly
/// the classes in its superclass's precedence list.
pub proof fn new_class_inherits(
    t: TableView,
    name: Seq<char>,
    parent: ClassId,
    own: Seq<SlotView>,
    ancestor: ClassId,
)
    requires
        t.lookup(parent) is Some,
        t.lookup(t.next_id(name)) is None,
    ensures
        t.with_simple_class(name, parent, own).subclass(t.next_id(name), ancestor) <==> (ancestor
            == t.next_id(name) || t.lookup(parent)->0.cpl.contains(ancestor)),
{
    let id = t.next_id(name);
    let u = t.after_next_id(name);
    let c = t.simple_class(id, name, parent, own);
    assert(u.lookup(id) == t.lookup(id));
    adding_keeps_classes(u, c, id, name);
    let pc = t.lookup(parent)->0.cpl;
    assert(c.cpl =~= seq![id] + pc);
    if pc.contains(ancestor) {
        let k = choose|k: int| 0 <= k < pc.len() && pc[k] == ancestor;
        assert(c.cpl[k + 1] == ancestor);
    }
    if c.cpl.contains(ancestor) && ancestor != id {
        let k = choose|k: int| 0 <= k < c.cpl.len() && c.cpl[k] == ancestor;
        assert(pc[k - 1] == ancestor);
    }
}

/// A class of a program gets an id that no class has, below the shim band; a
/// shim class gets one inside the shim band, and leaves the program's ids
/// alone.
pub proof fn fresh_ids_are_new(t: TableView, name: Seq<char>)
    requires
        t.ids_accounted(),
        t.next_user_id < ClassId::FIRST_SHIM,
        t.next_shim_id < u32::MAX,
    ensures
        t.shim_band || pinned(name) is None ==> t.lookup(t.next_id(name)) is None,
        t.shim_band ==> t.next_id(name).0 >= ClassId::FIRST_SHIM
            && t.after_next_id(name).next_user_id == t.next_user_id,
        !t.shim_band ==> t.next_id(name).0 < ClassId::FIRST_SHIM,
        !t.shim_band && pinned(name) is None ==> t.next_id(name).0 >= PIN_CEILING,
        t.after_next_id(name).ids_accounted(),
{
    position_in_range(t.entries, t.next_id(name), 0);
    if pinned(name) is Some {
        pinned_in_band(name);
    }
}

/// Registering a class keeps the ids accounted for.
pub proof fn registering_keeps_ids_accounted(
    t: TableView,
    name: Seq<char>,
    parent: ClassId,
    own: Seq<SlotView>,
)
    requires
        t.ids_accounted(),
        t.next_user_id < ClassId::FIRST_SHIM,
        t.next_shim_id < u32::MAX,
    ensures
        t.with_simple_class(name, parent, own).ids_accounted(),
{
    fresh_ids_are_new(t, name);
    if pinned(name) is Some {
        pinned_in_band(name);
    }
    let u = t.with_simple_class(name, parent, own);
    assert forall|i: int| 0 <= i < u.entries.len() implies ({
        let id = (#[trigger] u.entries[i]).id.0;
        id < u.next_user_id || ClassId::FIRST_SHIM <= id < u.next_shim_id
    }) by {
        if i < t.entries.len() {
            assert(u.entries[i] == t.entries[i]);
        }
    }
}

/// Registering a class keeps ids tied to names.
pub proof fn registering_keeps_identity(
    t: TableView,
    name: Seq<char>,
    parent: ClassId,
    own: Seq<SlotView>,
)
    requires
        t.ids_identify(),
        t.next_user_id < ClassId::FIRST_SHIM,
        t.next_shim_id < u32::MAX,
    ensures
        t.with_simple_class(name, parent, own).ids_identify(),
{
    registering_keeps_ids_accounted(t, name, parent, own);
    fresh_ids_are_new(t, name);
    position_in_range(t.entries, t.next_id(name), 0);
    if pinned(name) is Some {
        pinned_in_band(name);
    }
    let u = t.with_simple_class(name, parent, own);
    let n = t.entries.len() as int;
    assert(u.entries[n].id == t.next_id(name) && u.entries[n].name == name);
    assert forall|i: int| 0 <= i < n implies (#[trigger] u.entries[i]) == t.entries[i] by {}
    assert forall|i: int| 0 <= i < n && (#[trigger] u.entries[i]).id == t.next_id(name) implies
        u.entries[i].name == name by {
        assert(u.entries[i] == t.entries[i]);
        if t.shim_band || pinned(name) is None {
            assert(t.entries[i].id != t.next_id(name));
        } else {
            assert(pinned(t.entries[i].name) == Some(t.entries[i].id.0));
            pinned_injective(t.entries[i].name, name);
        }
    }
}

/// Declaring classes keeps ids tied to names.
pub proof fn declaring_keeps_identity(t: TableView, ds: Seq<DeclView>)
    requires
        t.ids_identify(),
        t.next_user_id + ds.len() <= ClassId::FIRST_SHIM,
        t.next_shim_id + ds.len() <= u32::MAX,
    ensures
        t.declared_all(ds).ids_identify(),
        t.declared_all(ds).next_user_id <= t.next_user_id + ds.len(),
        t.declared_all(ds).next_shim_id <= t.next_shim_id + ds.len(),
    decreases ds.len(),
{
    if ds.len() > 0 {
        let front = ds.drop_last();
        declaring_keeps_identity(t, front);
        let u = t.declared_all(front);
        let d = ds.last();
        if u.named(d.name) is None {
            registering_keeps_identity(u, d.name, u.named(d.parent)->0, d.slots);
        }
    }
}

/// A fresh table is sound: its ids tell classes apart, every precedence list
/// starts with its class, and there is plenty of room.
pub proof fn seed_table_is_sound()
    ensures
        seed_table().wf(),
        seed_table().ids_identify(),
        seed_table().lists_headed(),
        seed_table().room(0x0100_0000),
{
    let t = seed_table();
    assert forall|i: int| 0 <= i < t.entries.len() implies (#[trigger] t.entries[i]) == seed_class(
        i,
    ) by {}
}

/// Declaring classes keeps every precedence list headed by its class.
pub proof fn declaring_keeps_heads(t: TableView, ds: Seq<DeclView>)
    requires
        t.lists_headed(),
    ensures
        t.declared_all(ds).lists_headed(),
    decreases ds.len(),
{
    if ds.len() > 0 {
        let front = ds.drop_last();
        declaring_keeps_heads(t, front);
        let u = t.declared_all(front);
        let v = u.declared(ds.last());
        assert forall|i: int| 0 <= i < v.entries.len() implies (#[trigger] v.entries[i]).cpl.len()
            > 0 && v.entries[i].cpl[0] == v.entries[i].id by {
            if i < u.entries.len() {
                assert(v.entries[i] == u.entries[i]);
            }
        }
    }
}

/// A name that is neither in the table nor in the list is not there after the
/// list is declared.
pub proof fn undeclared_stays_unknown(t: TableView, ds: Seq<DeclView>, name: Seq<char>)
    requires
        t.named(name) is None,
        forall|j: int| 0 <= j < ds.len() ==> (#[trigger] ds[j]).name != name,
    ensures
        t.declared_all(ds).named(name) is None,
    decreases ds.len(),
{
    if ds.len() > 0 {
        let front = ds.drop_last();
        assert forall|j: int| 0 <= j < front.len() implies (#[trigger] front[j]).name != name by {
            assert(front[j] == ds[j]);
        }
        undeclared_stays_unknown(t, front, name);
        let u = t.declared_all(front);
        let v = u.declared(ds.last());
        assert(ds.last() == ds[ds.len() - 1]);
        if v != u {
            named_in_range(u.entries, name, no_limit(), 0);
            named_in_range(v.entries, name, no_limit(), 0);
            let q = named_from(v.entries, name, no_limit(), 0);
            if q is Some {
                if q->0 < u.entries.len() {
                    assert(v.entries[q->0] == u.entries[q->0]);
                } else {
                    assert(v.entries[q->0].name == ds.last().name);
                }
            }
        }
    }
}

/// A declared class has the class that its declaration names as its direct
/// superclass, and is a subclass of that and of all superclasses of that.
pub proof fn declared_class_inherits(t: TableView, ds: Seq<DeclView>, i: int, ancestor: ClassId)
    requires
        t.wf(),
        t.lists_headed(),
        t.ids_identify(),
        t.next_user_id + ds.len() <= ClassId::FIRST_SHIM,
        t.next_shim_id + ds.len() <= u32::MAX,
        t.knows_parents(ds),
        0 <= i < ds.len(),
        t.named(ds[i].name) is None,
        forall|j: int| 0 <= j < i ==> (#[trigger] ds[j]).name != ds[i].name,
    ensures
        t.declared_all(ds).subclass(
            t.declared_all(ds).named(ds[i].name)->0,
            t.declared_all(ds).named(ds[i].parent)->0,
        ),
        t.declared_all(ds).subclass(t.declared_all(ds).named(ds[i].parent)->0, ancestor)
            ==> t.declared_all(ds).subclass(t.declared_all(ds).named(ds[i].name)->0, ancestor),
        t.declared_all(ds).lookup(t.declared_all(ds).named(ds[i].name)->0) is Some,
        t.declared_all(ds).lookup(t.declared_all(ds).named(ds[i].name)->0)->0.parent
            == t.declared_all(ds).named(ds[i].parent),
    decreases ds.len(),
{
    let front = ds.drop_last();
    let u = t.declared_all(front);
    let v = t.declared_all(ds);
    let name = ds[i].name;
    let parent = ds[i].parent;
    assert(t.knows_parents(front)) by {
        assert forall|k: int| 0 <= k < front.len() implies t.named((#[trigger] front[k]).parent)
            is Some || exists|j: int| 0 <= j < k && front[j].name == front[k].parent by {
            assert(front[k] == ds[k]);
            if t.named(ds[k].parent) is None {
                let j = choose|j: int| 0 <= j < k && ds[j].name == ds[k].parent;
                assert(front[j] == ds[j]);
            }
        }
    }
    declaring_keeps_identity(t, front);
    declaring_keeps_heads(t, front);
    if i < ds.len() - 1 {
        assert(front[i] == ds[i]);
        assert forall|j: int| 0 <= j < i implies (#[trigger] front[j]).name != front[i].name by {
            assert(front[j] == ds[j]);
        }
        declared_class_inherits(t, front, i, ancestor);
        declaring_all_keeps_classes(t, front, name, ClassId(0));
        let id = u.named(name)->0;
        named_is_registered(u, name);
        assert(u.named(front[i].name) is Some);
        declaring_keeps_classes(u, ds.last(), name, id);
        declared_parent_is_known(t, front, i);
        let pid = u.named(parent)->0;
        named_is_registered(u, parent);
        declaring_keeps_classes(u, ds.last(), parent, pid);
    } else {
        assert forall|j: int| 0 <= j < front.len() implies (#[trigger] front[j]).name != name by {
            assert(front[j] == ds[j]);
        }
        undeclared_stays_unknown(t, front, name);
        assert(ds.last() == ds[i]);
        parent_is_known_before(t, ds, i);
        let pid = u.named(parent)->0;
        named_is_registered(u, parent);
        let id = u.next_id(name);
        fresh_ids_are_new(u, name);
        position_in_range(u.entries, id, 0);
        if u.lookup(id) is Some {
            let p = position_from(u.entries, id, 0)->0;
            assert(pinned(name) is Some && !u.shim_band);
            pinned_in_band(name);
            assert(pinned(u.entries[p].name) == Some(u.entries[p].id.0));
            pinned_injective(u.entries[p].name, name);
            named_in_range(u.entries, name, no_limit(), 0);
            assert(u.entries[p].name == name);
        }
        new_class_inherits(u, name, pid, ds[i].slots, pid);
        new_class_inherits(u, name, pid, ds[i].slots, ancestor);
        named_in_range(v.entries, name, no_limit(), 0);
        named_in_range(u.entries, name, no_limit(), 0);
        let n = u.entries.len() as int;
        assert(v.entries[n].name == name && v.entries[n].id == id);
        let q = named_from(v.entries, name, no_limit(), 0)->0;
        if q < n {
            assert(v.entries[q] == u.entries[q]);
        }
        position_in_range(u.entries, pid, 0);
        let k = position_from(u.entries, pid, 0)->0;
        assert(u.entries[k].cpl[0] == pid);
        declaring_keeps_classes(u, ds.last(), parent, pid);
        adding_keeps_classes(u.after_next_id(name), v.entries[n], id, name);
        assert(u.after_next_id(name).lookup(id) == u.lookup(id));
    }
}

/// The superclass of a declared class is known once the declarations before it
/// are made.
proof fn parent_is_known_before(t: TableView, ds: Seq<DeclView>, i: int)
    requires
        t.knows_parents(ds),
        i == ds.len() - 1,
        0 <= i,
    ensures
        t.declared_all(ds.drop_last()).named(ds[i].parent) is Some,
{
    let front = ds.drop_last();
    declaring_all_keeps_classes(t, front, ds[i].parent, ClassId(0));
    if t.named(ds[i].parent) is None {
        let j = choose|j: int| 0 <= j < i && ds[j].name == ds[i].parent;
        assert(front[j] == ds[j]);
    }
}

/// The superclass of a declared class is known once all declarations are made.
proof fn declared_parent_is_known(t: TableView, ds: Seq<DeclView>, i: int)
    requires
        t.knows_parents(ds),
        0 <= i < ds.len(),
    ensures
        t.declared_all(ds).named(ds[i].parent) is Some,
{
    declaring_all_keeps_classes(t, ds, ds[i].parent, ClassId(0));
    if t.named(ds[i].parent) is None {
        let j = choose|j: int| 0 <= j < i && ds[j].name == ds[i].parent;
        assert(t.declared_all(ds).named(ds[j].name) is Some);
    }
}

/// Classes with different names have different ids.
pub proof fn names_have_distinct_ids(t: TableView, a: Seq<char>, b: Seq<char>)
    requires
        t.ids_identify(),
        t.named(a) is Some,
        t.named(b) is Some,
        a != b,
    ensures
        t.named(a) != t.named(b),
{
    named_in_range(t.entries, a, no_limit(), 0);
    named_in_range(t.entries, b, no_limit(), 0);
    let i = named_from(t.entries, a, no_limit(), 0)->0;
    let j = named_from(t.entries, b, no_limit(), 0)->0;
    assert(t.entries[i].id == t.entries[j].id ==> t.entries[i].name == t.entries[j].name);
}

/// The length and second character of each seed name.
pub proof fn seed_name_chars()
    ensures
        forall|i: int|
            0 <= i < 12 ==> {
                let s = #[trigger] SEED_NAMES@[i]@;
                let shape = (s.len() as int, s[1]);
                ||| shape == (8int, 'o')
                ||| shape == (9int, 'i')
                ||| shape == (14int, 's')
                ||| shape == (14int, 'd')
                ||| shape == (9int, 'b')
                ||| shape == (11int, 'c')
                ||| shape == (8int, 's')
                ||| shape == (13int, 'b')
                ||| shape == (22int, 's')
                ||| shape == (12int, 'e')
                ||| shape == (6int, 'p')
            },
{
    reveal_strlit("<object>");
    reveal_strlit("<integer>");
    reveal_strlit("<single-float>");
    reveal_strlit("<double-float>");
    reveal_strlit("<boolean>");
    reveal_strlit("<character>");
    reveal_strlit("<symbol>");
    reveal_strlit("<string>");
    reveal_strlit("<byte-string>");
    reveal_strlit("<simple-object-vector>");
    reveal_strlit("<empty-list>");
    reveal_strlit("<pair>");
}

/// A class whose name is no seed name has no seed id.
pub proof fn named_is_no_seed(t: TableView, name: Seq<char>)
    requires
        t.wf(),
        t.named(name) is Some,
        forall|i: int| 0 <= i < 12 ==> #[trigger] SEED_NAMES@[i]@ != name,
    ensures
        (t.named(name)->0).0 >= ClassId::FIRST_USER,
{
    named_in_range(t.entries, name, no_limit(), 0);
    let i = named_from(t.entries, name, no_limit(), 0)->0;
    if i < 12 {
        assert(t.entries[i].name == SEED_NAMES@[i]@);
    }
}

/// The id of a library class does not depend on what was registered before it.
pub proof fn library_ids_are_stable(t: TableView, u: TableView, name: Seq<char>)
    requires
        pinned(name) is Some,
        !t.shim_band,
        !u.shim_band,
    ensures
        t.next_id(name) == u.next_id(name),
{
}

/// Declaring classes keeps a library class either unregistered or at its pinned
/// id.
pub proof fn declaring_respects_pins(t: TableView, ds: Seq<DeclView>, name: Seq<char>)
    requires
        !t.shim_band,
        pinned(name) is Some,
        t.named(name) is None || t.named(name) == Some(ClassId(pinned(name)->0)),
    ensures
        ({
            let u = t.declared_all(ds);
            &&& !u.shim_band
            &&& u.named(name) is None || u.named(name) == Some(ClassId(pinned(name)->0))
        }),
    decreases ds.len(),
{
    if ds.len() > 0 {
        let d = ds.last();
        let u = t.declared_all(ds.drop_last());
        declaring_respects_pins(t, ds.drop_last(), name);
        if u.named(d.name) is None {
            let v = u.after_next_id(d.name);
            let c = u.simple_class(u.next_id(d.name), d.name, u.named(d.parent)->0, d.slots);
            adding_keeps_classes(v, c, c.id, name);
            assert(v.named(name) == u.named(name));
        }
    }
}

/// A declared library class stands at its pinned id, outside of shims and unless
/// a class of that name was registered at another id before.
pub proof fn declared_class_is_pinned(t: TableView, ds: Seq<DeclView>, i: int)
    requires
        !t.shim_band,
        0 <= i < ds.len(),
        pinned(ds[i].name) is Some,
        t.named(ds[i].name) is None || t.named(ds[i].name) == Some(
            ClassId(pinned(ds[i].name)->0),
        ),
    ensures
        t.declared_all(ds).named(ds[i].name) == Some(ClassId(pinned(ds[i].name)->0)),
{
    declaring_respects_pins(t, ds, ds[i].name);
    declaring_all_keeps_classes(t, ds, ds[i].name, ClassId(0));
}

impl TableView {
    /// A declared class stands as declared: it is a library class at its pinned id,
    /// and its direct superclass is the one that the declaration names.
    pub open spec fn stands(self, d: DeclView) -> bool {
        &&& pinned(d.name) is Some
        &&& self.named(d.name) == Some(ClassId(pinned(d.name)->0))
        &&& self.named(d.parent) is Some
        &&& self.lookup(self.named(d.name)->0) is Some
        &&& self.lookup(self.named(d.name)->0)->0.parent == self.named(d.parent)
    }
}

/// Declaring classes keeps the table well formed.
pub proof fn declaring_keeps_wf(t: TableView, ds: Seq<DeclView>)
    requires
        t.wf(),
        t.next_user_id + ds.len() <= u32::MAX,
        t.next_shim_id + ds.len() <= u32::MAX,
    ensures
        t.declared_all(ds).wf(),
        t.declared_all(ds).next_user_id <= t.next_user_id + ds.len(),
        t.declared_all(ds).next_shim_id <= t.next_shim_id + ds.len(),
    decreases ds.len(),
{
    if ds.len() > 0 {
        let u = t.declared_all(ds.drop_last());
        declaring_keeps_wf(t, ds.drop_last());
        let v = u.declared(ds.last());
        if u.named(ds.last().name) is None {
            next_id_is_no_seed(u, ds.last().name);
            assert forall|i: int| 0 <= i < v.entries.len() - 1 implies (#[trigger] v.entries[i])
                == u.entries[i] by {}
        }
    }
}

/// Declaring library classes outside of shims takes no id of either band.
pub proof fn declaring_library_takes_no_ids(t: TableView, ds: Seq<DeclView>)
    requires
        !t.shim_band,
        forall|i: int| 0 <= i < ds.len() ==> pinned((#[trigger] ds[i]).name) is Some,
    ensures
        t.declared_all(ds).next_user_id == t.next_user_id,
        t.declared_all(ds).next_shim_id == t.next_shim_id,
        !t.declared_all(ds).shim_band,
    decreases ds.len(),
{
    if ds.len() > 0 {
        assert forall|i: int| 0 <= i < ds.drop_last().len() implies pinned(
            (#[trigger] ds.drop_last()[i]).name,
        ) is Some by {
            assert(ds.drop_last()[i] == ds[i]);
        }
        declaring_library_takes_no_ids(t, ds.drop_last());
        assert(pinned(ds[ds.len() - 1].name) is Some);
    }
}

/// A class that stands as declared goes on standing when classes are declared.
pub proof fn declaring_keeps_standing(t: TableView, ds: Seq<DeclView>, d: DeclView)
    requires
        t.stands(d),
    ensures
        t.declared_all(ds).stands(d),
{
    declaring_all_keeps_classes(t, ds, d.name, t.named(d.name)->0);
    declaring_all_keeps_classes(t, ds, d.parent, ClassId(0));
}

/// Once a list is declared, a class of it stands as declared, if it did before or
/// was not there.
pub proof fn declared_class_stands(t: TableView, ds: Seq<DeclView>, i: int)
    requires
        t.wf(),
        t.lists_headed(),
        t.ids_identify(),
        !t.shim_band,
        t.next_user_id + ds.len() <= ClassId::FIRST_SHIM,
        t.next_shim_id + ds.len() <= u32::MAX,
        t.knows_parents(ds),
        0 <= i < ds.len(),
        pinned(ds[i].name) is Some,
        t.named(ds[i].name) is None || t.stands(ds[i]),
        forall|j: int| 0 <= j < i ==> (#[trigger] ds[j]).name != ds[i].name,
    ensures
        t.declared_all(ds).stands(ds[i]),
{
    if t.named(ds[i].name) is None {
        declared_class_inherits(t, ds, i, ClassId(0));
        declared_class_is_pinned(t, ds, i);
        declared_parent_is_known(t, ds, i);
    } else {
        declaring_keeps_standing(t, ds, ds[i]);
    }
}

/// No library class is registered in a fresh table.
pub proof fn fresh_table_has_no_library_class(name: Seq<char>)
    requires
        pinned(name) is Some,
    ensures
        seed_table().named(name) is None,
        !seed_table().shim_band,
{
    let t = seed_table();
    named_in_range(t.entries, name, no_limit(), 0);
    if t.named(name) is Some {
        let p = named_from(t.entries, name, no_limit(), 0)->0;
        seeds_are_not_pinned(p);
        assert(t.entries[p].name == SEED_NAMES@[p]@);
    }
}

/// Registering a library class renumbers no other class, and neither does
/// registering a shim class renumber the classes of a program.
pub proof fn others_keep_their_numbers(t: TableView, name: Seq<char>, other: Seq<char>)
    ensures
        !t.shim_band && pinned(name) is Some ==> t.after_next_id(name).next_id(other) == t.next_id(
            other,
        ),
        t.shim_band ==> (TableView { shim_band: false, ..t.after_next_id(name) }).next_id(other)
            == (TableView { shim_band: false, ..t }).next_id(other),
{
}

/// A shim class never stands in the way of a class of a program with the same
/// name.
pub proof fn shim_classes_shadow_none(t: TableView, shim: ClassView, name: Seq<char>)
    requires
        shim.id.0 >= ClassId::FIRST_SHIM,
    ensures
        t.with_entry(shim).named_outside_shim_band(name) == t.named_outside_shim_band(name),
{
    shim_entry_is_passed_over(t.entries, shim, name, 0);
    named_in_range(t.entries, name, ClassId::FIRST_SHIM as int, 0);
}

proof fn shim_entry_is_passed_over(
    entries: Seq<ClassView>,
    shim: ClassView,
    name: Seq<char>,
    i: int,
)
    requires
        shim.id.0 >= ClassId::FIRST_SHIM,
        0 <= i <= entries.len(),
    ensures
        named_from(entries.push(shim), name, ClassId::FIRST_SHIM as int, i) == named_from(
            entries,
            name,
            ClassId::FIRST_SHIM as int,
            i,
        ),
    decreases entries.len() - i,
{
    if i < entries.len() {
        shim_entry_is_passed_over(entries, shim, name, i + 1);
        assert(entries.push(shim)[i] == entries[i]);
    } else {
        reveal_with_fuel(named_from, 2);
    }
}

/// The seed classes can be found by name and by id.
pub proof fn seeds_are_registered(t: TableView, i: int)
    requires
        t.wf(),
        0 <= i < 12,
    ensures
        t.lookup(ClassId(i as u32)) == Some(t.entries[i]),
        t.entries[i].cpl == seed_class(i).cpl,
        t.entries[i].slots.len() == 0,
        t.named(SEED_NAMES@[i]@) is Some,
{
    position_in_range(t.entries, ClassId(i as u32), 0);
    named_in_range(t.entries, SEED_NAMES@[i]@, no_limit(), 0);
    assert(t.entries[i].id == ClassId(i as u32));
    assert(t.entries[i].name == SEED_NAMES@[i]@);
    let p = position_from(t.entries, ClassId(i as u32), 0);
    assert(p is Some);
    if p->0 < i {
        assert(t.entries[p->0].id == ClassId(p->0 as u32));
    }
}

proof fn weight_nonnegative(ds: Seq<DeclView>)
    ensures
        decl_weight(ds) >= 0,
    decreases ds.len(),
{
    if ds.len() > 0 {
        weight_nonnegative(ds.drop_last());
    }
}

proof fn weight_of_prefix(ds: Seq<DeclView>, k: int)
    requires
        0 <= k <= ds.len(),
    ensures
        decl_weight(ds.take(k)) <= decl_weight(ds),
    decreases ds.len() - k,
{
    if k < ds.len() {
        weight_of_prefix(ds, k + 1);
        assert(ds.take(k + 1).drop_last() =~= ds.take(k));
    } else {
        assert(ds.take(k) =~= ds);
    }
}

fn copy_slots(slots: &Vec<SlotInfo>) -> (r: Vec<SlotInfo>)
    ensures
        slot_views(r@) == slot_views(slots@),
        r@.len() == slots@.len(),
{
    let mut r: Vec<SlotInfo> = Vec::new();
    let mut i: usize = 0;
    while i < slots.len()
        invariant
            i <= slots.len(),
            r@.len() == i,
            forall|k: int| 0 <= k < i ==> (#[trigger] r@[k])@ == slots@[k]@,
        decreases slots.len() - i,
    {
        let offset = slots[i].offset;
        r.push(slots[i].at_offset(offset));
        i += 1;
    }
    assert(slot_views(r@) =~= slot_views(slots@));
    r
}

/// Registers one declared class, unless a class of that name is there.
pub fn declare(table: &mut ClassTable, decl: &ClassDecl) -> (id: ClassId)
    requires
        old(table)@.wf(),
        old(table)@.room(1 + decl.slots@.len() as int),
        old(table)@.named(decl.parent@) is Some,
    ensures
        final(table)@ == old(table)@.declared(decl@),
        final(table)@.named(decl@.name) == Some(id),
        final(table)@.wf(),
        forall|n: int| #![trigger final(table)@.room(n)]
            n >= 0 && old(table)@.room(n + 1 + decl.slots@.len()) ==> final(table)@.room(n),
{
    proof {
        declaring_keeps_classes(old(table)@, decl@, decl@.name, ClassId(0));
        named_is_registered(old(table)@, decl@.parent);
    }
    if let Some(id) = table.find_by_name(decl.name) {
        return id;
    }
    let parent = table.find_by_name(decl.parent);
    let id = register_simple_user_class(table, decl.name, parent, copy_slots(&decl.slots));
    proof {
        let t = old(table)@;
        let p = t.named(decl@.parent)->0;
        registering_keeps_wf(t, decl@.name, p, decl@.slots);
        assert forall|n: int| #![trigger table@.room(n)]
            n >= 0 && t.room(n + 1 + decl.slots@.len()) implies table@.room(n) by {
            registering_uses_room(t, decl@.name, p, decl@.slots, n);
        }
        let c = t.simple_class(t.next_id(decl@.name), decl@.name, p, decl@.slots);
        let u = t.after_next_id(decl@.name);
        assert(u.named(decl@.name) == t.named(decl@.name));
        adding_keeps_classes(u, c, id, decl@.name);
    }
    id
}

/// Registers the declared classes that are not there yet, first to last.
pub fn declare_all(table: &mut ClassTable, decls: &Vec<ClassDecl>)
    requires
        old(table)@.wf(),
        old(table)@.knows_parents(decl_views(decls@)),
        old(table)@.room(decl_weight(decl_views(decls@))),
    ensures
        final(table)@ == old(table)@.declared_all(decl_views(decls@)),
        final(table)@.wf(),
        forall|i: int|
            0 <= i < decls@.len() ==> final(table)@.named((#[trigger] decls@[i])@.name) is Some,
        forall|n: int| #![trigger final(table)@.room(n)]
            n >= 0 && old(table)@.room(n + decl_weight(decl_views(decls@))) ==> final(table)@.room(
                n,
            ),
{
    let ghost ds = decl_views(decls@);
    let ghost t = old(table)@;
    let mut i: usize = 0;
    assert(ds.take(0) =~= seq![]);
    while i < decls.len()
        invariant
            i <= decls.len(),
            ds == decl_views(decls@),
            t == old(table)@,
            t.knows_parents(ds),
            t.room(decl_weight(ds)),
            table@ == t.declared_all(ds.take(i as int)),
            table@.wf(),
            forall|n: int| #![trigger table@.room(n)]
                n >= 0 && t.room(n + decl_weight(ds.take(i as int))) ==> table@.room(n),
        decreases decls.len() - i,
    {
        let ghost d = ds[i as int];
        let ghost front = ds.take(i as int);
        let ghost before = table@;
        proof {
            assert(decls@[i as int]@ == d);
            assert(d.slots.len() == decls@[i as int].slots@.len());
            assert(ds.take(i + 1).drop_last() =~= front);
            assert(ds.take(i + 1).last() == d);
            declaring_all_keeps_classes(t, front, d.parent, ClassId(0));
            if t.named(d.parent) is None {
                let j = choose|j: int| 0 <= j < i && ds[j].name == d.parent;
                assert(front[j] == ds[j]);
            }
            weight_of_prefix(ds, i + 1);
            weight_nonnegative(front);
            let rest = decl_weight(ds) - decl_weight(front);
            assert(rest >= 1 + d.slots.len());
            assert(table@.room(rest));
        }
        let _ = declare(table, &decls[i]);
        proof {
            assert forall|n: int| #![trigger table@.room(n)]
                n >= 0 && t.room(n + decl_weight(ds.take(i + 1))) implies table@.room(n) by {
                let m = n + 1 + d.slots.len();
                assert(before.room(m));
            }
        }
        i += 1;
    }
    assert(ds.take(i as int) =~= ds);
    proof {
        declaring_all_keeps_classes(t, ds, seq![], ClassId(0));
        assert forall|k: int| 0 <= k < decls@.len() implies table@.named(
            (#[trigger] decls@[k])@.name,
        ) is Some by {
            assert(ds[k] == decls@[k]@);
        }
    }
}

/// A declared slot has its name and its keyword, which is not required, its type, its default
/// and its setter.
pub proof fn declared_slots_keep_their_parts(
    name: Seq<char>,
    keyword: Seq<char>,
    type_kind: SlotType,
    default_init: SlotDefault,
    has_setter: bool,
)
    ensures
        ({
            let s = slot_decl(name, keyword, type_kind, default_init, has_setter);
            &&& s.name == name
            &&& s.init_keyword == Some(keyword)
            &&& !s.required_init_keyword
            &&& s.type_kind == type_kind
            &&& s.default_init == default_init
            &&& s.has_setter == has_setter
        }),
{
}

} // verus!
