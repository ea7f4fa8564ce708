//! Classes.
//!
//! A class is described by its `ClassMetadata`: its place in the hierarchy,
//! its slots and how its instances are laid out. The `ClassTable` holds the
//! metadata of every class, hands out class ids and answers questions about
//! the hierarchy. It starts out with the seed classes, whose ids are fixed;
//! library classes have ids pinned by name, and the classes of a program are
//! numbered from above the pins.

use vstd::prelude::*;
use vstd::string::*;

use crate::class_pins::{pinned, pinned_id, PIN_CEILING};
use crate::text::same_text;
use crate::word::Word;
use crate::wrapper::WRAPPER_SIZE;

verus! {

/// Identifies a class. Object headers carry it in 32 bits.
#[derive(Clone, Copy, PartialEq, Eq, Structural, Hash, Debug)]
pub struct ClassId(pub u32);

impl ClassId {
    pub const OBJECT: u32 = 0;

    pub const INTEGER: u32 = 1;

    pub const SINGLE_FLOAT: u32 = 2;

    pub const DOUBLE_FLOAT: u32 = 3;

    pub const BOOLEAN: u32 = 4;

    pub const CHARACTER: u32 = 5;

    pub const SYMBOL: u32 = 6;

    pub const STRING: u32 = 7;

    pub const BYTE_STRING: u32 = 8;

    pub const SIMPLE_OBJECT_VECTOR: u32 = 9;

    pub const EMPTY_LIST: u32 = 10;

    pub const PAIR: u32 = 11;

    /// First id above the seed classes.
    pub const FIRST_USER: u32 = 1024;

    /// First id of the band set apart for the classes of front-end shims.
    /// Shim classes never take an id from the program's own sequence.
    pub const FIRST_SHIM: u32 = 0x4000_0000;
}

/// What a slot may hold.
#[derive(Clone, Copy, PartialEq, Eq, Structural, Debug)]
pub enum SlotType {
    Integer,
    DoubleFloat,
    Boolean,
    Character,
    String,
    Symbol,
    Vector,
    Object,
    Class(ClassId),
    Top,
}

impl SlotType {
    /// Whether a slot of this type may hold a pointer word.
    pub open spec fn pointer_shaped(self) -> bool {
        self != SlotType::Integer && self != SlotType::Character
    }

    /// Whether a slot of this type may hold a pointer word. The collector
    /// follows such slots.
    pub fn is_pointer_shaped(self) -> (b: bool)
        ensures
            b == self.pointer_shaped(),
    {
        match self {
            SlotType::Integer => false,
            SlotType::Character => false,
            _ => true,
        }
    }
}

/// What a slot holds when no init keyword fills it.
#[derive(Clone, Copy, PartialEq, Eq, Structural, Debug)]
pub enum SlotDefault {
    Unbound,
    Value(Word),
}

/// One instance slot.
#[derive(Clone, Debug)]
pub struct SlotInfo {
    pub name: String,
    /// Byte offset from the start of the object, header included.
    pub offset: usize,
    pub type_kind: SlotType,
    pub init_keyword: Option<String>,
    pub required_init_keyword: bool,
    pub default_init: SlotDefault,
    pub has_setter: bool,
}

/// What a `SlotInfo` says.
#[verifier::ext_equal]
pub struct SlotView {
    pub name: Seq<char>,
    pub offset: int,
    pub type_kind: SlotType,
    pub init_keyword: Option<Seq<char>>,
    pub required_init_keyword: bool,
    pub default_init: SlotDefault,
    pub has_setter: bool,
}

/// The characters of an optional string.
pub open spec fn text_of(s: Option<String>) -> Option<Seq<char>> {
    match s {
        Some(t) => Some(t@),
        None => None,
    }
}

impl View for SlotInfo {
    type V = SlotView;

    open spec fn view(&self) -> SlotView {
        SlotView {
            name: self.name@,
            offset: self.offset as int,
            type_kind: self.type_kind,
            init_keyword: text_of(self.init_keyword),
            required_init_keyword: self.required_init_keyword,
            default_init: self.default_init,
            has_setter: self.has_setter,
        }
    }
}

impl SlotInfo {
    /// A copy of the slot at another offset.
    pub fn at_offset(&self, offset: usize) -> (r: SlotInfo)
        ensures
            r@ == (SlotView { offset: offset as int, ..self@ }),
    {
        let init_keyword = match &self.init_keyword {
            Some(k) => Some(k.clone()),
            None => None,
        };
        SlotInfo {
            name: self.name.clone(),
            offset,
            type_kind: self.type_kind,
            init_keyword,
            required_init_keyword: self.required_init_keyword,
            default_init: self.default_init,
            has_setter: self.has_setter,
        }
    }
}

/// Which cells of an object the collector visits.
#[derive(Clone, Copy, PartialEq, Eq, Structural, Debug)]
pub enum ScanFn {
    Noop,
    Symbol,
    Vector,
    Pair,
    UserClass,
}

/// How the byte size of an object is found.
#[derive(Clone, Copy, PartialEq, Eq, Structural, Debug)]
pub enum SizeFn {
    WrapperOnly,
    ByteString,
    Symbol,
    Vector,
    Pair,
    UserClass,
}

/// How the cells of an object are laid out.
#[derive(Clone, Copy, PartialEq, Eq, Structural, Debug)]
pub enum LayoutFn {
    WrapperOnly,
    ByteString,
    Symbol,
    Vector,
    Pair,
    UserClass,
}

/// Everything known about one class.
pub struct ClassMetadata {
    pub id: ClassId,
    pub name: String,
    /// First direct superclass; absent for `<object>` only.
    pub parent: Option<ClassId>,
    /// Direct superclasses in declaration order.
    pub parents: Vec<ClassId>,
    /// Class precedence list, the class itself first.
    pub cpl: Vec<ClassId>,
    /// All instance slots, inherited ones first.
    pub slots: Vec<SlotInfo>,
    pub own_slot_count: usize,
    pub inherited_slot_count: usize,
    /// For each slot, the class that introduced it.
    pub slot_origin: Vec<ClassId>,
    /// Header and slots, in bytes.
    pub instance_size: usize,
    pub scan: ScanFn,
    pub size_of: SizeFn,
    pub layout: LayoutFn,
    /// Whether the payload is raw bytes.
    pub is_byte_payload: bool,
    pub sealed: bool,
    pub direct_subclasses: Vec<ClassId>,
}

/// What a `ClassMetadata` says.
#[verifier::ext_equal]
pub struct ClassView {
    pub id: ClassId,
    pub name: Seq<char>,
    pub parent: Option<ClassId>,
    pub parents: Seq<ClassId>,
    pub cpl: Seq<ClassId>,
    pub slots: Seq<SlotView>,
    pub own_slot_count: int,
    pub inherited_slot_count: int,
    pub slot_origin: Seq<ClassId>,
    pub instance_size: int,
    pub scan: ScanFn,
    pub size_of: SizeFn,
    pub layout: LayoutFn,
    pub is_byte_payload: bool,
    pub sealed: bool,
    pub direct_subclasses: Seq<ClassId>,
}

/// The slots as views.
pub open spec fn slot_views(slots: Seq<SlotInfo>) -> Seq<SlotView> {
    Seq::new(slots.len(), |i: int| slots[i]@)
}

impl View for ClassMetadata {
    type V = ClassView;

    open spec fn view(&self) -> ClassView {
        ClassView {
            id: self.id,
            name: self.name@,
            parent: self.parent,
            parents: self.parents@,
            cpl: self.cpl@,
            slots: slot_views(self.slots@),
            own_slot_count: self.own_slot_count as int,
            inherited_slot_count: self.inherited_slot_count as int,
            slot_origin: self.slot_origin@,
            instance_size: self.instance_size as int,
            scan: self.scan,
            size_of: self.size_of,
            layout: self.layout,
            is_byte_payload: self.is_byte_payload,
            sealed: self.sealed,
            direct_subclasses: self.direct_subclasses@,
        }
    }
}

/// Position of the first slot named `name` at or after `i`.
pub open spec fn slot_named_from(slots: Seq<SlotView>, name: Seq<char>, i: int) -> Option<int>
    decreases slots.len() - i,
{
    if i < 0 || i >= slots.len() {
        None
    } else if slots[i].name == name {
        Some(i)
    } else {
        slot_named_from(slots, name, i + 1)
    }
}

/// Position of the first slot with init keyword `keyword` at or after `i`.
pub open spec fn slot_keyed_from(slots: Seq<SlotView>, keyword: Seq<char>, i: int) -> Option<int>
    decreases slots.len() - i,
{
    if i < 0 || i >= slots.len() {
        None
    } else if slots[i].init_keyword == Some(keyword) {
        Some(i)
    } else {
        slot_keyed_from(slots, keyword, i + 1)
    }
}

impl ClassView {
    /// Byte offset of the first slot named `name`.
    pub open spec fn offset_of(self, name: Seq<char>) -> Option<int> {
        match slot_named_from(self.slots, name, 0) {
            Some(i) => Some(self.slots[i].offset),
            None => None,
        }
    }
}

impl ClassMetadata {
    /// Byte offset of the named slot, if the class has one.
    pub fn slot_offset(&self, name: &str) -> (offset: Option<usize>)
        ensures
            offset is Some <==> self@.offset_of(name@) is Some,
            offset is Some ==> offset->0 == self@.offset_of(name@)->0,
    {
        let mut i: usize = 0;
        while i < self.slots.len()
            invariant
                i <= self.slots.len(),
                slot_named_from(self@.slots, name@, 0) == slot_named_from(
                    self@.slots,
                    name@,
                    i as int,
                ),
            decreases self.slots.len() - i,
        {
            assert(self@.slots[i as int] == self.slots@[i as int]@);
            if same_text(self.slots[i].name.as_str(), name) {
                return Some(self.slots[i].offset);
            }
            i += 1;
        }
        None
    }

    /// The slot that an init keyword fills, if there is one.
    pub fn slot_by_init_keyword(&self, kw: &str) -> (slot: Option<&SlotInfo>)
        ensures
            slot is Some <==> slot_keyed_from(self@.slots, kw@, 0) is Some,
            slot is Some ==> slot->0@ == self@.slots[slot_keyed_from(self@.slots, kw@, 0)->0],
    {
        let mut i: usize = 0;
        while i < self.slots.len()
            invariant
                i <= self.slots.len(),
                slot_keyed_from(self@.slots, kw@, 0) == slot_keyed_from(
                    self@.slots,
                    kw@,
                    i as int,
                ),
            decreases self.slots.len() - i,
        {
            assert(self@.slots[i as int] == self.slots@[i as int]@);
            let hit = match &self.slots[i].init_keyword {
                Some(k) => same_text(k.as_str(), kw),
                None => false,
            };
            if hit {
                return Some(&self.slots[i]);
            }
            i += 1;
        }
        None
    }

    /// Whether the class is closed against subclassing from other libraries.
    pub fn is_sealed(&self) -> (b: bool)
        ensures
            b == self@.sealed,
    {
        self.sealed
    }

    /// Closes the class against subclassing from other libraries.
    pub fn mark_sealed(&mut self)
        ensures
            final(self)@ == (ClassView { sealed: true, ..old(self)@ }),
    {
        self.sealed = true;
    }

    /// The direct subclasses known so far.
    pub fn direct_subclasses_snapshot(&self) -> (ids: Vec<ClassId>)
        ensures
            ids@ == self@.direct_subclasses,
    {
        self.direct_subclasses.clone()
    }

    /// Records a direct subclass, unless it is already recorded.
    pub fn register_subclass(&mut self, child: ClassId)
        ensures
            final(self)@ == (ClassView {
                direct_subclasses: with_subclass(old(self)@.direct_subclasses, child),
                ..old(self)@
            }),
    {
        if !contains_id(&self.direct_subclasses, child) {
            self.direct_subclasses.push(child);
        }
    }
}

/// The subclasses with one more, unless it is there.
pub open spec fn with_subclass(ids: Seq<ClassId>, child: ClassId) -> Seq<ClassId> {
    if ids.contains(child) {
        ids
    } else {
        ids.push(child)
    }
}

/// Whether a list of class ids holds `id`.
pub fn contains_id(ids: &Vec<ClassId>, id: ClassId) -> (b: bool)
    ensures
        b == ids@.contains(id),
{
    let mut i: usize = 0;
    while i < ids.len()
        invariant
            i <= ids.len(),
            forall|k: int| 0 <= k < i ==> ids@[k] != id,
        decreases ids.len() - i,
    {
        if ids[i] == id {
            return true;
        }
        i += 1;
    }
    false
}

// ----- the class table -----

/// Names of the seed classes, by id.
pub const SEED_NAMES: [&'static str; 12] = [
    "<object>",
    "<integer>",
    "<single-float>",
    "<double-float>",
    "<boolean>",
    "<character>",
    "<symbol>",
    "<string>",
    "<byte-string>",
    "<simple-object-vector>",
    "<empty-list>",
    "<pair>",
];

/// The direct superclass of a seed class.
pub open spec fn seed_parent(i: int) -> Option<ClassId> {
    if i == 0 {
        None
    } else if i == 8 {
        Some(ClassId(ClassId::STRING))
    } else {
        Some(ClassId(ClassId::OBJECT))
    }
}

/// The class precedence list of a seed class.
pub open spec fn seed_cpl(i: int) -> Seq<ClassId> {
    if i == 0 {
        seq![ClassId(ClassId::OBJECT)]
    } else if i == 8 {
        seq![
            ClassId(ClassId::BYTE_STRING),
            ClassId(ClassId::STRING),
            ClassId(ClassId::OBJECT),
        ]
    } else {
        seq![ClassId(i as u32), ClassId(ClassId::OBJECT)]
    }
}

/// Scanning, sizing and layout of a seed class, and the fixed part of its size.
pub open spec fn seed_shape(i: int) -> (ScanFn, SizeFn, LayoutFn, int) {
    if i == 6 {
        (ScanFn::Symbol, SizeFn::Symbol, LayoutFn::Symbol, 24)
    } else if i == 8 {
        (ScanFn::Noop, SizeFn::ByteString, LayoutFn::ByteString, 16)
    } else if i == 9 {
        (ScanFn::Vector, SizeFn::Vector, LayoutFn::Vector, 16)
    } else if i == 11 {
        (ScanFn::Pair, SizeFn::Pair, LayoutFn::Pair, 24)
    } else {
        (ScanFn::Noop, SizeFn::WrapperOnly, LayoutFn::WrapperOnly, 8)
    }
}

/// The metadata of a seed class.
pub open spec fn seed_class(i: int) -> ClassView {
    ClassView {
        id: ClassId(i as u32),
        name: SEED_NAMES@[i]@,
        parent: seed_parent(i),
        parents: match seed_parent(i) {
            Some(p) => seq![p],
            None => seq![],
        },
        cpl: seed_cpl(i),
        slots: seq![],
        own_slot_count: 0,
        inherited_slot_count: 0,
        slot_origin: seq![],
        instance_size: seed_shape(i).3,
        scan: seed_shape(i).0,
        size_of: seed_shape(i).1,
        layout: seed_shape(i).2,
        is_byte_payload: i == 8,
        sealed: false,
        direct_subclasses: seq![],
    }
}

/// The table that holds the seed classes alone.
pub open spec fn seed_table() -> TableView {
    TableView {
        entries: Seq::new(12, |i: int| seed_class(i)),
        next_user_id: PIN_CEILING,
        next_shim_id: ClassId::FIRST_SHIM,
        shim_band: false,
    }
}

/// Most slots that a class can have.
pub const SLOT_LIMIT: usize = 0x0fff_ffff;

/// A class given in full: hierarchy, slots and offsets as the compiler laid
/// them out.
pub struct UserClassSpec {
    pub name: String,
    pub parent: Option<ClassId>,
    pub parents: Vec<ClassId>,
    pub cpl: Vec<ClassId>,
    pub slots: Vec<SlotInfo>,
    pub slot_origin: Vec<ClassId>,
    pub own_slot_count: usize,
    pub inherited_slot_count: usize,
}

/// What a `UserClassSpec` says.
#[verifier::ext_equal]
pub struct SpecView {
    pub name: Seq<char>,
    pub parent: Option<ClassId>,
    pub parents: Seq<ClassId>,
    pub cpl: Seq<ClassId>,
    pub slots: Seq<SlotView>,
    pub slot_origin: Seq<ClassId>,
    pub own_slot_count: int,
    pub inherited_slot_count: int,
}

impl View for UserClassSpec {
    type V = SpecView;

    open spec fn view(&self) -> SpecView {
        SpecView {
            name: self.name@,
            parent: self.parent,
            parents: self.parents@,
            cpl: self.cpl@,
            slots: slot_views(self.slots@),
            slot_origin: self.slot_origin@,
            own_slot_count: self.own_slot_count as int,
            inherited_slot_count: self.inherited_slot_count as int,
        }
    }
}

/// The metadata of every class and the sources of fresh class ids.
pub struct ClassTable {
    entries: Vec<ClassMetadata>,
    next_user_id: u32,
    next_shim_id: u32,
    shim_band: bool,
}

/// What a `ClassTable` holds.
#[verifier::ext_equal]
pub struct TableView {
    pub entries: Seq<ClassView>,
    pub next_user_id: u32,
    pub next_shim_id: u32,
    pub shim_band: bool,
}

/// Position of the first class with id `id` at or after `i`.
pub open spec fn position_from(entries: Seq<ClassView>, id: ClassId, i: int) -> Option<int>
    decreases entries.len() - i,
{
    if i < 0 || i >= entries.len() {
        None
    } else if entries[i].id == id {
        Some(i)
    } else {
        position_from(entries, id, i + 1)
    }
}

/// Position of the first class named `name` at or after `i` whose id is below
/// `limit`.
pub open spec fn named_from(
    entries: Seq<ClassView>,
    name: Seq<char>,
    limit: int,
    i: int,
) -> Option<int>
    decreases entries.len() - i,
{
    if i < 0 || i >= entries.len() {
        None
    } else if entries[i].id.0 < limit && entries[i].name == name {
        Some(i)
    } else {
        named_from(entries, name, limit, i + 1)
    }
}

/// First integer that is no class id.
pub open spec fn no_limit() -> int {
    0x1_0000_0000
}

impl TableView {
    /// The class with id `id`.
    pub open spec fn lookup(self, id: ClassId) -> Option<ClassView> {
        match position_from(self.entries, id, 0) {
            Some(i) => Some(self.entries[i]),
            None => None,
        }
    }

    /// The id of the first class named `name`.
    pub open spec fn named(self, name: Seq<char>) -> Option<ClassId> {
        match named_from(self.entries, name, no_limit(), 0) {
            Some(i) => Some(self.entries[i].id),
            None => None,
        }
    }

    /// The id of the first class named `name` outside the shim band.
    pub open spec fn named_outside_shim_band(self, name: Seq<char>) -> Option<ClassId> {
        match named_from(self.entries, name, ClassId::FIRST_SHIM as int, 0) {
            Some(i) => Some(self.entries[i].id),
            None => None,
        }
    }

    /// Whether `sub` is `sup` or has it in its class precedence list.
    pub open spec fn subclass(self, sub: ClassId, sup: ClassId) -> bool {
        sub == sup || (self.lookup(sub) is Some && self.lookup(sub)->0.cpl.contains(sup))
    }

    /// The seed classes are in place, no other class has a seed id, and the
    /// counters stand inside their bands.
    pub open spec fn wf(self) -> bool {
        &&& self.entries.len() >= 12
        &&& forall|i: int|
            0 <= i < 12 ==> (#[trigger] self.entries[i]) == (ClassView {
                sealed: self.entries[i].sealed,
                direct_subclasses: self.entries[i].direct_subclasses,
                ..seed_class(i)
            })
        &&& forall|i: int|
            12 <= i < self.entries.len() ==> (#[trigger] self.entries[i]).id.0
                >= ClassId::FIRST_USER
        &&& self.next_user_id >= PIN_CEILING
        &&& self.next_shim_id >= ClassId::FIRST_SHIM
    }

    /// Whether `n` more ids can be handed out in either band, and `n` more
    /// slots added to any class.
    pub open spec fn room(self, n: int) -> bool {
        &&& self.next_user_id + n <= u32::MAX
        &&& self.next_shim_id + n <= u32::MAX
        &&& forall|i: int|
            0 <= i < self.entries.len() ==> (#[trigger] self.entries[i]).slots.len() + n
                <= SLOT_LIMIT
    }

    /// The id that a class named `name` gets.
    pub open spec fn next_id(self, name: Seq<char>) -> ClassId {
        if self.shim_band {
            ClassId(self.next_shim_id)
        } else {
            match pinned(name) {
                Some(id) => ClassId(id),
                None => ClassId(self.next_user_id),
            }
        }
    }

    /// The table after handing out an id to a class named `name`.
    pub open spec fn after_next_id(self, name: Seq<char>) -> TableView {
        if self.shim_band {
            TableView { next_shim_id: (self.next_shim_id + 1) as u32, ..self }
        } else if pinned(name) is Some {
            self
        } else {
            TableView { next_user_id: (self.next_user_id + 1) as u32, ..self }
        }
    }

    /// The table with one more class.
    pub open spec fn with_entry(self, class: ClassView) -> TableView {
        TableView { entries: self.entries.push(class), ..self }
    }

    /// The metadata of a class `id` that adds the slots `own` to those of
    /// `parent`. Inherited slots keep their offsets; own slots follow them, one
    /// cell each.
    pub open spec fn simple_class(
        self,
        id: ClassId,
        name: Seq<char>,
        parent: ClassId,
        own: Seq<SlotView>,
    ) -> ClassView {
        let p = self.lookup(parent)->0;
        ClassView {
            id,
            name,
            parent: Some(parent),
            parents: seq![parent],
            cpl: seq![id] + p.cpl,
            slots: p.slots + Seq::new(
                own.len(),
                |i: int| SlotView { offset: 8 + 8 * (p.slots.len() as int + i), ..own[i] },
            ),
            own_slot_count: own.len() as int,
            inherited_slot_count: p.slots.len() as int,
            slot_origin: p.slot_origin + Seq::new(own.len(), |i: int| id),
            instance_size: 8 + 8 * (p.slots.len() + own.len()) as int,
            scan: ScanFn::UserClass,
            size_of: SizeFn::UserClass,
            layout: LayoutFn::UserClass,
            is_byte_payload: false,
            sealed: false,
            direct_subclasses: seq![],
        }
    }

    /// The table after registering a class `name` under `parent`.
    pub open spec fn with_simple_class(
        self,
        name: Seq<char>,
        parent: ClassId,
        own: Seq<SlotView>,
    ) -> TableView {
        self.after_next_id(name).with_entry(
            self.simple_class(self.next_id(name), name, parent, own),
        )
    }

    /// The metadata of a class `id` as a full specification gives it.
    pub open spec fn specified_class(self, id: ClassId, spec: SpecView) -> ClassView {
        ClassView {
            id,
            name: spec.name,
            parent: spec.parent,
            parents: spec.parents,
            cpl: spec.cpl,
            slots: spec.slots,
            own_slot_count: spec.own_slot_count,
            inherited_slot_count: spec.inherited_slot_count,
            slot_origin: spec.slot_origin,
            instance_size: 8 + 8 * spec.slots.len() as int,
            scan: ScanFn::UserClass,
            size_of: SizeFn::UserClass,
            layout: LayoutFn::UserClass,
            is_byte_payload: false,
            sealed: false,
            direct_subclasses: seq![],
        }
    }
}

impl View for ClassTable {
    type V = TableView;

    closed spec fn view(&self) -> TableView {
        TableView {
            entries: Seq::new(self.entries@.len(), |i: int| self.entries@[i]@),
            next_user_id: self.next_user_id,
            next_shim_id: self.next_shim_id,
            shim_band: self.shim_band,
        }
    }
}

/// The precedence lists of a table are short enough to be indexed.
pub proof fn precedence_lists_are_short(table: &ClassTable)
    ensures
        forall|i: int|
            0 <= i < table@.entries.len() ==> (#[trigger] table@.entries[i]).cpl.len()
                <= usize::MAX,
{
    assert forall|i: int| 0 <= i < table@.entries.len() implies (
    #[trigger] table@.entries[i]).cpl.len() <= usize::MAX by {
        assert(table@.entries[i].cpl.len() == table.entries@[i].cpl.len());
    }
}

/// The metadata of a class without slots.
fn seed_metadata(
    id: u32,
    name: &str,
    parent: Option<ClassId>,
    cpl: Vec<ClassId>,
    shape: (ScanFn, SizeFn, LayoutFn, usize),
    is_byte_payload: bool,
) -> (md: ClassMetadata)
    ensures
        md@ == (ClassView {
            id: ClassId(id),
            name: name@,
            parent,
            parents: match parent {
                Some(p) => seq![p],
                None => seq![],
            },
            cpl: cpl@,
            slots: seq![],
            own_slot_count: 0,
            inherited_slot_count: 0,
            slot_origin: seq![],
            instance_size: shape.3 as int,
            scan: shape.0,
            size_of: shape.1,
            layout: shape.2,
            is_byte_payload,
            sealed: false,
            direct_subclasses: seq![],
        }),
{
    let mut parents: Vec<ClassId> = Vec::new();
    if let Some(p) = parent {
        parents.push(p);
    }
    let md = ClassMetadata {
        id: ClassId(id),
        name: name.to_owned(),
        parent,
        parents,
        cpl,
        slots: Vec::new(),
        own_slot_count: 0,
        inherited_slot_count: 0,
        slot_origin: Vec::new(),
        instance_size: shape.3,
        scan: shape.0,
        size_of: shape.1,
        layout: shape.2,
        is_byte_payload,
        sealed: false,
        direct_subclasses: Vec::new(),
    };
    assert(md@.slots =~= seq![]);
    md
}

/// The direct superclass of a seed class.
fn seed_parent_of(i: u32) -> (p: Option<ClassId>)
    ensures
        p == seed_parent(i as int),
{
    if i == 0 {
        None
    } else if i == 8 {
        Some(ClassId(ClassId::STRING))
    } else {
        Some(ClassId(ClassId::OBJECT))
    }
}

/// Follows the superclass chain of a seed class up to `<object>`.
fn build_seed_cpl(i: u32) -> (cpl: Vec<ClassId>)
    requires
        i < 12,
    ensures
        cpl@ == seed_cpl(i as int),
{
    let mut cpl: Vec<ClassId> = Vec::new();
    cpl.push(ClassId(i));
    let mut current: u32 = i;
    while current != 0
        invariant
            current < 12,
            current == i ==> cpl@ == seq![ClassId(i)],
            current != i ==> (current == 0 && cpl@ == seed_cpl(i as int)) || (i == 8 && current == 7
                && cpl@ == seq![ClassId(8), ClassId(7)]),
            i == 0 ==> cpl@ == seed_cpl(0),
        decreases
            current,
    {
        let parent: u32 = if current == 8 {
            ClassId::STRING
        } else {
            ClassId::OBJECT
        };
        cpl.push(ClassId(parent));
        current = parent;
    }
    assert(cpl@ =~= seed_cpl(i as int));
    cpl
}

/// Scanning, sizing and layout of a seed class.
fn seed_shape_of(i: u32) -> (shape: (ScanFn, SizeFn, LayoutFn, usize))
    ensures
        (shape.0, shape.1, shape.2, shape.3 as int) == seed_shape(i as int),
{
    if i == 6 {
        (ScanFn::Symbol, SizeFn::Symbol, LayoutFn::Symbol, 24)
    } else if i == 8 {
        (ScanFn::Noop, SizeFn::ByteString, LayoutFn::ByteString, 16)
    } else if i == 9 {
        (ScanFn::Vector, SizeFn::Vector, LayoutFn::Vector, 16)
    } else if i == 11 {
        (ScanFn::Pair, SizeFn::Pair, LayoutFn::Pair, 24)
    } else {
        (ScanFn::Noop, SizeFn::WrapperOnly, LayoutFn::WrapperOnly, 8)
    }
}

impl ClassTable {
    /// Whether `n` more ids can be handed out in either band, and `n` more slots
    /// added to any class.
    pub fn has_room(&self, n: u32) -> (b: bool)
        ensures
            b == self@.room(n as int),
    {
        if self.next_user_id > u32::MAX - n || self.next_shim_id > u32::MAX - n {
            return false;
        }
        let mut i: usize = 0;
        while i < self.entries.len()
            invariant
                i <= self.entries@.len(),
                forall|k: int|
                    0 <= k < i ==> (#[trigger] self@.entries[k]).slots.len() + n <= SLOT_LIMIT,
            decreases self.entries@.len() - i,
        {
            assert(self@.entries[i as int].slots.len() == self.entries@[i as int].slots@.len());
            if n as usize > SLOT_LIMIT || self.entries[i].slots.len() > SLOT_LIMIT - n as usize {
                return false;
            }
            i += 1;
        }
        true
    }

    /// A table that holds the seed classes.
    pub fn new() -> (table: ClassTable)
        ensures
            table@ == seed_table(),
            table@.wf(),
    {
        let mut entries: Vec<ClassMetadata> = Vec::new();
        let mut i: u32 = 0;
        while i < 12
            invariant
                i <= 12,
                entries@.len() == i,
                forall|k: int| 0 <= k < i ==> (#[trigger] entries@[k])@ == seed_class(k),
            decreases 12 - i,
        {
            let md = seed_metadata(
                i,
                SEED_NAMES[i as usize],
                seed_parent_of(i),
                build_seed_cpl(i),
                seed_shape_of(i),
                i == 8,
            );
            assert(md@ =~= seed_class(i as int));
            entries.push(md);
            i += 1;
        }
        let table = ClassTable {
            entries,
            next_user_id: PIN_CEILING,
            next_shim_id: ClassId::FIRST_SHIM,
            shim_band: false,
        };
        assert(table@.entries =~= Seq::new(12, |i: int| seed_class(i)));
        table
    }

    fn position(&self, id: ClassId) -> (p: Option<usize>)
        ensures
            p is Some <==> position_from(self@.entries, id, 0) is Some,
            p is Some ==> p->0 == position_from(self@.entries, id, 0)->0 && p->0
                < self.entries@.len(),
    {
        let mut i: usize = 0;
        while i < self.entries.len()
            invariant
                i <= self.entries.len(),
                position_from(self@.entries, id, 0) == position_from(self@.entries, id, i as int),
            decreases self.entries.len() - i,
        {
            assert(self@.entries[i as int] == self.entries@[i as int]@);
            if self.entries[i].id == id {
                return Some(i);
            }
            i += 1;
        }
        None
    }

    fn position_named(&self, name: &str, exclude_shim_band: bool) -> (p: Option<usize>)
        ensures
            ({
                let limit = if exclude_shim_band {
                    ClassId::FIRST_SHIM as int
                } else {
                    no_limit()
                };
                let q = named_from(self@.entries, name@, limit, 0);
                &&& p is Some <==> q is Some
                &&& p is Some ==> p->0 == q->0 && p->0 < self.entries@.len()
            }),
    {
        let ghost limit = if exclude_shim_band {
            ClassId::FIRST_SHIM as int
        } else {
            no_limit()
        };
        let mut i: usize = 0;
        while i < self.entries.len()
            invariant
                i <= self.entries.len(),
                limit == if exclude_shim_band {
                    ClassId::FIRST_SHIM as int
                } else {
                    no_limit()
                },
                named_from(self@.entries, name@, limit, 0) == named_from(
                    self@.entries,
                    name@,
                    limit,
                    i as int,
                ),
            decreases self.entries.len() - i,
        {
            assert(self@.entries[i as int] == self.entries@[i as int]@);
            let skip = exclude_shim_band && self.entries[i].id.0 >= ClassId::FIRST_SHIM;
            if !skip && same_text(self.entries[i].name.as_str(), name) {
                return Some(i);
            }
            i += 1;
        }
        None
    }

    /// The metadata of a registered class.
    pub fn get(&self, id: ClassId) -> (md: &ClassMetadata)
        requires
            self@.lookup(id) is Some,
        ensures
            md@ == self@.lookup(id)->0,
    {
        let p = self.position(id);
        assert(self@.entries[p->0 as int] == self.entries@[p->0 as int]@);
        &self.entries[p.unwrap()]
    }

    /// The metadata of a class, if it is registered.
    pub fn class_metadata(&self, id: ClassId) -> (md: Option<&ClassMetadata>)
        ensures
            md is Some <==> self@.lookup(id) is Some,
            md is Some ==> md->0@ == self@.lookup(id)->0,
    {
        match self.position(id) {
            Some(p) => {
                assert(self@.entries[p as int] == self.entries@[p as int]@);
                Some(&self.entries[p])
            },
            None => None,
        }
    }

    /// The id of the first class with this name.
    pub fn find_by_name(&self, name: &str) -> (id: Option<ClassId>)
        ensures
            id == self@.named(name@),
    {
        match self.position_named(name, false) {
            Some(p) => {
                assert(self@.entries[p as int] == self.entries@[p as int]@);
                Some(self.entries[p].id)
            },
            None => None,
        }
    }

    /// The id of `<object>`.
    pub fn object(&self) -> (id: ClassId)
        ensures
            id == ClassId(ClassId::OBJECT),
    {
        ClassId(ClassId::OBJECT)
    }

    /// The id of `<integer>`.
    pub fn integer(&self) -> (id: ClassId)
        ensures
            id == ClassId(ClassId::INTEGER),
    {
        ClassId(ClassId::INTEGER)
    }

    /// The id of `<single-float>`.
    pub fn single_float(&self) -> (id: ClassId)
        ensures
            id == ClassId(ClassId::SINGLE_FLOAT),
    {
        ClassId(ClassId::SINGLE_FLOAT)
    }

    /// The id of `<double-float>`.
    pub fn double_float(&self) -> (id: ClassId)
        ensures
            id == ClassId(ClassId::DOUBLE_FLOAT),
    {
        ClassId(ClassId::DOUBLE_FLOAT)
    }

    /// The id of `<boolean>`.
    pub fn boolean(&self) -> (id: ClassId)
        ensures
            id == ClassId(ClassId::BOOLEAN),
    {
        ClassId(ClassId::BOOLEAN)
    }

    /// The id of `<character>`.
    pub fn character(&self) -> (id: ClassId)
        ensures
            id == ClassId(ClassId::CHARACTER),
    {
        ClassId(ClassId::CHARACTER)
    }

    /// The id of `<symbol>`.
    pub fn symbol(&self) -> (id: ClassId)
        ensures
            id == ClassId(ClassId::SYMBOL),
    {
        ClassId(ClassId::SYMBOL)
    }

    /// The id of `<string>`.
    pub fn string(&self) -> (id: ClassId)
        ensures
            id == ClassId(ClassId::STRING),
    {
        ClassId(ClassId::STRING)
    }

    /// The id of `<byte-string>`.
    pub fn byte_string(&self) -> (id: ClassId)
        ensures
            id == ClassId(ClassId::BYTE_STRING),
    {
        ClassId(ClassId::BYTE_STRING)
    }

    /// The id of `<simple-object-vector>`.
    pub fn simple_object_vector(&self) -> (id: ClassId)
        ensures
            id == ClassId(ClassId::SIMPLE_OBJECT_VECTOR),
    {
        ClassId(ClassId::SIMPLE_OBJECT_VECTOR)
    }

    /// The id of `<empty-list>`.
    pub fn empty_list(&self) -> (id: ClassId)
        ensures
            id == ClassId(ClassId::EMPTY_LIST),
    {
        ClassId(ClassId::EMPTY_LIST)
    }

    /// The id of `<pair>`.
    pub fn pair(&self) -> (id: ClassId)
        ensures
            id == ClassId(ClassId::PAIR),
    {
        ClassId(ClassId::PAIR)
    }
}

impl Default for ClassTable {
    fn default() -> (table: ClassTable)
        ensures
            table@ == seed_table(),
    {
        ClassTable::new()
    }
}

// ----- ids, registration, lookup -----

/// Chooses the band that fresh class ids come from.
pub fn set_shim_class_band_active(table: &mut ClassTable, active: bool)
    ensures
        final(table)@ == (TableView { shim_band: active, ..old(table)@ }),
{
    table.shim_band = active;
    assert(table@.entries =~= old(table)@.entries);
}

/// Whether fresh class ids come from the shim band.
pub fn shim_class_band_active(table: &ClassTable) -> (b: bool)
    ensures
        b == table@.shim_band,
{
    table.shim_band
}

/// The place of a class in the table. It never changes while the class stays
/// registered.
pub fn class_metadata_ptr(table: &ClassTable, id: ClassId) -> (p: Option<usize>)
    ensures
        p is Some <==> position_from(table@.entries, id, 0) is Some,
        p is Some ==> p->0 == position_from(table@.entries, id, 0)->0,
{
    table.position(id)
}

/// The metadata of a registered class.
pub fn class_metadata_for(table: &ClassTable, id: ClassId) -> (md: &ClassMetadata)
    requires
        table@.lookup(id) is Some,
    ensures
        md@ == table@.lookup(id)->0,
{
    table.get(id)
}

/// Seals a class. Answers whether the class is registered.
pub fn seal_class(table: &mut ClassTable, id: ClassId) -> (known: bool)
    ensures
        match position_from(old(table)@.entries, id, 0) {
            Some(i) => known && final(table)@ == (TableView {
                entries: old(table)@.entries.update(
                    i,
                    ClassView { sealed: true, ..old(table)@.entries[i] },
                ),
                ..old(table)@
            }),
            None => !known && final(table)@ == old(table)@,
        },
        old(table)@.wf() ==> final(table)@.wf(),
{
    match table.position(id) {
        Some(i) => {
            assert(table@.entries[i as int] == table.entries@[i as int]@);
            table.entries[i].mark_sealed();
            assert(table@.entries =~= old(table)@.entries.update(
                i as int,
                ClassView { sealed: true, ..old(table)@.entries[i as int] },
            ));
            true
        },
        None => false,
    }
}

/// Notes a direct subclass of a class. Answers whether the class is registered.
pub fn note_subclass(table: &mut ClassTable, parent: ClassId, child: ClassId) -> (known: bool)
    ensures
        match position_from(old(table)@.entries, parent, 0) {
            Some(i) => known && final(table)@ == (TableView {
                entries: old(table)@.entries.update(
                    i,
                    ClassView {
                        direct_subclasses: with_subclass(
                            old(table)@.entries[i].direct_subclasses,
                            child,
                        ),
                        ..old(table)@.entries[i]
                    },
                ),
                ..old(table)@
            }),
            None => !known && final(table)@ == old(table)@,
        },
        old(table)@.wf() ==> final(table)@.wf(),
{
    match table.position(parent) {
        Some(i) => {
            assert(table@.entries[i as int] == table.entries@[i as int]@);
            table.entries[i].register_subclass(child);
            assert(table@.entries =~= old(table)@.entries.update(
                i as int,
                table.entries@[i as int]@,
            ));
            true
        },
        None => false,
    }
}

/// Adds a class whose id has been handed out before.
pub fn register_user_class(table: &mut ClassTable, metadata: ClassMetadata) -> (id: ClassId)
    ensures
        id == metadata.id,
        final(table)@ == old(table)@.with_entry(metadata@),
{
    let id = metadata.id;
    table.entries.push(metadata);
    assert(table@.entries =~= old(table)@.entries.push(metadata@));
    id
}

/// Hands out the next class id of the active band.
pub fn allocate_user_class_id(table: &mut ClassTable) -> (id: ClassId)
    requires
        old(table)@.shim_band ==> old(table)@.next_shim_id < u32::MAX,
        !old(table)@.shim_band ==> old(table)@.next_user_id < u32::MAX,
    ensures
        old(table)@.shim_band ==> id.0 == old(table)@.next_shim_id && final(table)@ == (TableView {
            next_shim_id: (id.0 + 1) as u32,
            ..old(table)@
        }),
        !old(table)@.shim_band ==> id.0 == old(table)@.next_user_id && final(table)@ == (
        TableView { next_user_id: (id.0 + 1) as u32, ..old(table)@ }),
{
    let id = if table.shim_band {
        let id = ClassId(table.next_shim_id);
        table.next_shim_id = table.next_shim_id + 1;
        id
    } else {
        let id = ClassId(table.next_user_id);
        table.next_user_id = table.next_user_id + 1;
        id
    };
    assert(table@.entries =~= old(table)@.entries);
    id
}

/// Hands out the id of a class by name: the pinned id of a library class, else
/// the next id of the active band.
pub fn allocate_user_class_id_named(table: &mut ClassTable, name: &str) -> (id: ClassId)
    requires
        old(table)@.shim_band ==> old(table)@.next_shim_id < u32::MAX,
        !old(table)@.shim_band && pinned(name@) is None ==> old(table)@.next_user_id < u32::MAX,
    ensures
        id == old(table)@.next_id(name@),
        final(table)@ == old(table)@.after_next_id(name@),
{
    if !table.shim_band {
        if let Some(pid) = pinned_id(name) {
            return ClassId(pid);
        }
    }
    allocate_user_class_id(table)
}

/// The id of the first class with this name.
pub fn find_class_id_by_name(table: &ClassTable, name: &str) -> (id: Option<ClassId>)
    ensures
        id == table@.named(name@),
{
    table.find_by_name(name)
}

/// The id of the first class with this name, shim classes left out: a program
/// may define a class that shares its name with one of a shim.
pub fn find_class_id_by_name_excluding_shim_band(table: &ClassTable, name: &str) -> (id: Option<
    ClassId,
>)
    ensures
        id == table@.named_outside_shim_band(name@),
{
    match table.position_named(name, true) {
        Some(p) => {
            assert(table@.entries[p as int] == table.entries@[p as int]@);
            Some(table.entries[p].id)
        },
        None => None,
    }
}

/// The ids of every class, in registration order.
pub fn for_each_class(table: &ClassTable) -> (ids: Vec<ClassId>)
    ensures
        ids@ == Seq::new(table@.entries.len(), |i: int| table@.entries[i].id),
{
    let mut ids: Vec<ClassId> = Vec::new();
    let mut i: usize = 0;
    while i < table.entries.len()
        invariant
            i <= table.entries.len(),
            ids@.len() == i,
            forall|k: int| 0 <= k < i ==> ids@[k] == table@.entries[k].id,
        decreases table.entries.len() - i,
    {
        ids.push(table.entries[i].id);
        i += 1;
    }
    assert(ids@ =~= Seq::new(table@.entries.len(), |i: int| table@.entries[i].id));
    ids
}

/// Drops every class but the seed classes and starts both id bands anew.
pub fn _reset_user_classes_for_tests(table: &mut ClassTable)
    requires
        old(table)@.wf(),
    ensures
        final(table)@.entries == old(table)@.entries.filter(
            |c: ClassView| c.id.0 < ClassId::FIRST_USER,
        ),
        final(table)@.entries == old(table)@.entries.take(12),
        final(table)@.next_user_id == PIN_CEILING,
        final(table)@.next_shim_id == ClassId::FIRST_SHIM,
        final(table)@.shim_band == old(table)@.shim_band,
        final(table)@.wf(),
{
    table.entries.truncate(12);
    table.next_user_id = PIN_CEILING;
    table.next_shim_id = ClassId::FIRST_SHIM;
    proof {
        let all = old(table)@.entries;
        let seed = |c: ClassView| c.id.0 < ClassId::FIRST_USER;
        assert(table@.entries =~= all.take(12));
        filter_prefix(all, seed, 12);
    }
}

/// Filtering keeps exactly the prefix when the predicate holds on the prefix
/// and nowhere after it.
proof fn filter_prefix(s: Seq<ClassView>, p: spec_fn(ClassView) -> bool, n: int)
    requires
        0 <= n <= s.len(),
        forall|i: int| 0 <= i < n ==> p(#[trigger] s[i]),
        forall|i: int| n <= i < s.len() ==> !p(#[trigger] s[i]),
    ensures
        s.filter(p) == s.take(n),
    decreases s.len(),
{
    reveal(Seq::filter);
    if s.len() == 0 {
        assert(s.filter(p) =~= s.take(n));
    } else {
        let m = if n == s.len() { n - 1 } else { n };
        filter_prefix(s.drop_last(), p, m);
        assert(s.drop_last().take(m) =~= s.take(m));
        assert(s.take(n) =~= if n == s.len() { s.take(m).push(s.last()) } else { s.take(n) });
    }
}

/// The scan strategy of every user class.
pub fn user_class_scan_fn() -> (f: ScanFn)
    ensures
        f == ScanFn::UserClass,
{
    ScanFn::UserClass
}

/// The size strategy of every user class.
pub fn user_class_size_fn() -> (f: SizeFn)
    ensures
        f == SizeFn::UserClass,
{
    SizeFn::UserClass
}

/// The layout strategy of every user class.
pub fn user_class_layout_fn() -> (f: LayoutFn)
    ensures
        f == LayoutFn::UserClass,
{
    LayoutFn::UserClass
}

/// Whether `super_id` is `sub` or one of its ancestors.
pub fn is_subclass(table: &ClassTable, sub: ClassId, super_id: ClassId) -> (b: bool)
    ensures
        b == table@.subclass(sub, super_id),
{
    if sub == super_id {
        return true;
    }
    match table.class_metadata(sub) {
        Some(md) => contains_id(&md.cpl, super_id),
        None => false,
    }
}

/// Registers a class that is given in full, offsets included.
pub fn register_user_class_metadata(table: &mut ClassTable, spec: UserClassSpec) -> (id: ClassId)
    requires
        old(table)@.room(1),
        spec.slots@.len() <= SLOT_LIMIT,
    ensures
        id == old(table)@.next_id(spec.name@),
        final(table)@ == old(table)@.after_next_id(spec.name@).with_entry(
            old(table)@.specified_class(id, spec@),
        ),
{
    let id = allocate_user_class_id_named(table, spec.name.as_str());
    let instance_size: usize = WRAPPER_SIZE + 8 * spec.slots.len();
    let md = ClassMetadata {
        id,
        name: spec.name,
        parent: spec.parent,
        parents: spec.parents,
        cpl: spec.cpl,
        slots: spec.slots,
        own_slot_count: spec.own_slot_count,
        inherited_slot_count: spec.inherited_slot_count,
        slot_origin: spec.slot_origin,
        instance_size,
        scan: user_class_scan_fn(),
        size_of: user_class_size_fn(),
        layout: user_class_layout_fn(),
        is_byte_payload: false,
        sealed: false,
        direct_subclasses: Vec::new(),
    };
    register_user_class(table, md)
}

/// Registers a class with a single superclass; `<object>` when none is given.
pub fn register_simple_user_class(
    table: &mut ClassTable,
    name: &str,
    parent: Option<ClassId>,
    own_slots: Vec<SlotInfo>,
) -> (id: ClassId)
    requires
        old(table)@.room(1 + own_slots@.len() as int),
        old(table)@.lookup(parent_or_object(parent)) is Some,
    ensures
        id == old(table)@.next_id(name@),
        final(table)@ == old(table)@.with_simple_class(
            name@,
            parent_or_object(parent),
            slot_views(own_slots@),
        ),
{
    let parent_id = match parent {
        Some(p) => p,
        None => ClassId(ClassId::OBJECT),
    };
    let id = allocate_user_class_id_named(table, name);
    let ghost before = old(table)@;
    assert(table@.entries == before.entries);
    let mut cpl: Vec<ClassId> = Vec::new();
    cpl.push(id);
    let mut slots: Vec<SlotInfo> = Vec::new();
    let mut slot_origin: Vec<ClassId> = Vec::new();
    let parent_md = table.get(parent_id);
    let ghost p = before.lookup(parent_id)->0;
    assert(parent_md@ == p);
    let mut i: usize = 0;
    while i < parent_md.cpl.len()
        invariant
            i <= parent_md.cpl.len(),
            parent_md@ == p,
            cpl@ == seq![id] + p.cpl.take(i as int),
        decreases parent_md.cpl.len() - i,
    {
        cpl.push(parent_md.cpl[i]);
        assert(p.cpl.take(i + 1) =~= p.cpl.take(i as int).push(p.cpl[i as int]));
        i += 1;
    }
    assert(p.cpl.take(i as int) =~= p.cpl);
    i = 0;
    while i < parent_md.slots.len()
        invariant
            i <= parent_md.slots.len(),
            parent_md@ == p,
            slots@.len() == i,
            forall|k: int| 0 <= k < i ==> (#[trigger] slots@[k])@ == p.slots[k],
        decreases parent_md.slots.len() - i,
    {
        let offset = parent_md.slots[i].offset;
        assert(p.slots[i as int] == parent_md.slots@[i as int]@);
        slots.push(parent_md.slots[i].at_offset(offset));
        i += 1;
    }
    i = 0;
    while i < parent_md.slot_origin.len()
        invariant
            i <= parent_md.slot_origin.len(),
            parent_md@ == p,
            slot_origin@ == p.slot_origin.take(i as int),
        decreases parent_md.slot_origin.len() - i,
    {
        slot_origin.push(parent_md.slot_origin[i]);
        assert(p.slot_origin.take(i + 1) =~= p.slot_origin.take(i as int).push(
            p.slot_origin[i as int],
        ));
        i += 1;
    }
    assert(p.slot_origin.take(i as int) =~= p.slot_origin);
    let inherited: usize = parent_md.slots.len();
    let own: usize = own_slots.len();
    proof {
        assert(p.slots.len() + own + 1 <= SLOT_LIMIT) by {
            let at = position_from(before.entries, parent_id, 0)->0;
            position_in_range(before.entries, parent_id, 0);
            assert(before.entries[at].slots.len() + 1 + own <= SLOT_LIMIT);
        }
    }
    let ghost own_views = slot_views(own_slots@);
    i = 0;
    while i < own
        invariant
            i <= own,
            own == own_slots.len(),
            own_views == slot_views(own_slots@),
            inherited == p.slots.len(),
            inherited + own <= SLOT_LIMIT,
            slots@.len() == inherited + i,
            forall|k: int| 0 <= k < inherited ==> (#[trigger] slots@[k])@ == p.slots[k],
            forall|k: int|
                inherited <= k < inherited + i ==> (#[trigger] slots@[k])@ == (SlotView {
                    offset: 8 + 8 * k,
                    ..own_views[k - inherited]
                }),
            slot_origin@ == p.slot_origin + Seq::new(i as nat, |k: int| id),
        decreases own - i,
    {
        let offset: usize = WRAPPER_SIZE + 8 * (inherited + i);
        assert(own_views[i as int] == own_slots@[i as int]@);
        slots.push(own_slots[i].at_offset(offset));
        slot_origin.push(id);
        assert(slot_origin@ =~= p.slot_origin + Seq::new((i + 1) as nat, |k: int| id));
        i += 1;
    }
    let mut parents: Vec<ClassId> = Vec::new();
    parents.push(parent_id);
    let md = ClassMetadata {
        id,
        name: name.to_owned(),
        parent: Some(parent_id),
        parents,
        cpl,
        slots,
        own_slot_count: own,
        inherited_slot_count: inherited,
        slot_origin,
        instance_size: WRAPPER_SIZE + 8 * (inherited + own),
        scan: user_class_scan_fn(),
        size_of: user_class_size_fn(),
        layout: user_class_layout_fn(),
        is_byte_payload: false,
        sealed: false,
        direct_subclasses: Vec::new(),
    };
    assert(md@ =~= before.simple_class(id, name@, parent_id, own_views)) by {
        let r = before.simple_class(id, name@, parent_id, own_views);
        assert(md@.slots =~= r.slots);
        assert(md@.parents =~= r.parents);
    }
    register_user_class(table, md)
}

/// The superclass that a declaration names, or `<object>`.
pub open spec fn parent_or_object(parent: Option<ClassId>) -> ClassId {
    match parent {
        Some(p) => p,
        None => ClassId(ClassId::OBJECT),
    }
}

/// A found position lies in the table and holds the id, and no earlier position
/// holds it.
pub proof fn position_in_range(entries: Seq<ClassView>, id: ClassId, from: int)
    requires
        0 <= from,
    ensures
        position_from(entries, id, from) matches Some(p) ==> from <= p < entries.len()
            && entries[p].id == id && forall|k: int|
            from <= k < p ==> (#[trigger] entries[k]).id != id,
        position_from(entries, id, from) is None ==> forall|k: int|
            from <= k < entries.len() ==> (#[trigger] entries[k]).id != id,
    decreases entries.len() - from,
{
    if from < entries.len() && entries[from].id != id {
        position_in_range(entries, id, from + 1);
    }
}

/// A found position lies in the table and holds the name, and no earlier
/// position below the limit holds it.
pub proof fn named_in_range(entries: Seq<ClassView>, name: Seq<char>, limit: int, from: int)
    requires
        0 <= from,
    ensures
        named_from(entries, name, limit, from) matches Some(p) ==> from <= p < entries.len()
            && entries[p].name == name && entries[p].id.0 < limit && forall|k: int|
            from <= k < p && (#[trigger] entries[k]).id.0 < limit ==> entries[k].name != name,
        named_from(entries, name, limit, from) is None ==> forall|k: int|
            from <= k < entries.len() && (#[trigger] entries[k]).id.0 < limit ==> entries[k].name
                != name,
    decreases entries.len() - from,
{
    if from < entries.len() && !(entries[from].id.0 < limit && entries[from].name == name) {
        named_in_range(entries, name, limit, from + 1);
    }
}

// ----- what classes are for -----

/// A slot is found at its first place in the list of slots.
pub proof fn slots_are_found_by_name(slots: Seq<SlotView>, name: Seq<char>, i: int, from: int)
    requires
        0 <= from <= i < slots.len(),
        slots[i].name == name,
        forall|k: int| from <= k < i ==> (#[trigger] slots[k]).name != name,
    ensures
        slot_named_from(slots, name, from) == Some(i),
    decreases i - from,
{
    if from < i {
        assert(slots[from].name != name);
        slots_are_found_by_name(slots, name, i, from + 1);
    }
}

/// A name that no slot has is not found.
pub proof fn unnamed_slots_are_not_found(slots: Seq<SlotView>, name: Seq<char>, from: int)
    requires
        0 <= from,
        forall|k: int| from <= k < slots.len() ==> (#[trigger] slots[k]).name != name,
    ensures
        slot_named_from(slots, name, from) is None,
    decreases slots.len() - from,
{
    if from < slots.len() {
        unnamed_slots_are_not_found(slots, name, from + 1);
    }
}

/// An init keyword fills the first slot that has it.
pub proof fn slots_are_found_by_keyword(
    slots: Seq<SlotView>,
    keyword: Seq<char>,
    i: int,
    from: int,
)
    requires
        0 <= from <= i < slots.len(),
        slots[i].init_keyword == Some(keyword),
        forall|k: int| from <= k < i ==> (#[trigger] slots[k]).init_keyword != Some(keyword),
    ensures
        slot_keyed_from(slots, keyword, from) == Some(i),
    decreases i - from,
{
    if from < i {
        assert(slots[from].init_keyword != Some(keyword));
        slots_are_found_by_keyword(slots, keyword, i, from + 1);
    }
}

/// A keyword that no slot has fills none.
pub proof fn unknown_keywords_fill_nothing(slots: Seq<SlotView>, keyword: Seq<char>, from: int)
    requires
        0 <= from,
        forall|k: int|
            from <= k < slots.len() ==> (#[trigger] slots[k]).init_keyword != Some(keyword),
    ensures
        slot_keyed_from(slots, keyword, from) is None,
    decreases slots.len() - from,
{
    if from < slots.len() {
        unknown_keywords_fill_nothing(slots, keyword, from + 1);
    }
}

/// The offset of a slot is that of the first slot of its name.
pub proof fn offsets_are_those_of_slots(c: ClassView, i: int)
    requires
        0 <= i < c.slots.len(),
        forall|k: int| 0 <= k < i ==> (#[trigger] c.slots[k]).name != c.slots[i].name,
    ensures
        c.offset_of(c.slots[i].name) == Some(c.slots[i].offset),
{
    slots_are_found_by_name(c.slots, c.slots[i].name, i, 0);
}

/// A class is found by its id, and its superclasses are itself and those that its
/// precedence list names.
pub proof fn superclasses_are_those_listed(t: TableView, e: int, sup: ClassId)
    requires
        0 <= e < t.entries.len(),
        forall|k: int| 0 <= k < e ==> (#[trigger] t.entries[k]).id != t.entries[e].id,
    ensures
        t.lookup(t.entries[e].id) == Some(t.entries[e]),
        t.subclass(t.entries[e].id, sup) <==> sup == t.entries[e].id || exists|p: int|
            0 <= p < t.entries[e].cpl.len() && #[trigger] t.entries[e].cpl[p] == sup,
{
    position_in_range(t.entries, t.entries[e].id, 0);
}

/// A class that is not registered is found nowhere and has no superclass but
/// itself.
pub proof fn unregistered_classes_stand_alone(t: TableView, id: ClassId, sup: ClassId)
    requires
        forall|k: int| 0 <= k < t.entries.len() ==> (#[trigger] t.entries[k]).id != id,
    ensures
        t.lookup(id) is None,
        t.subclass(id, sup) <==> sup == id,
{
    position_in_range(t.entries, id, 0);
}

/// A name finds the first class that has it; one outside the shim band is found
/// past those inside.
pub proof fn classes_are_found_by_name(t: TableView, e: int)
    requires
        0 <= e < t.entries.len(),
    ensures
        (forall|k: int| 0 <= k < e ==> (#[trigger] t.entries[k]).name != t.entries[e].name)
            ==> t.named(t.entries[e].name) == Some(t.entries[e].id),
        t.entries[e].id.0 < ClassId::FIRST_SHIM && (forall|k: int|
            0 <= k < e && (#[trigger] t.entries[k]).name == t.entries[e].name
                ==> t.entries[k].id.0 >= ClassId::FIRST_SHIM) ==> t.named_outside_shim_band(
            t.entries[e].name,
        ) == Some(t.entries[e].id),
{
    named_in_range(t.entries, t.entries[e].name, no_limit(), 0);
    named_in_range(t.entries, t.entries[e].name, ClassId::FIRST_SHIM as int, 0);
    assert(t.entries[e].id.0 < no_limit());
    if forall|k: int| 0 <= k < e ==> (#[trigger] t.entries[k]).name != t.entries[e].name {
        let p = named_from(t.entries, t.entries[e].name, no_limit(), 0)->0;
        assert(t.entries[p].name == t.entries[e].name);
        assert(t.entries[p].id.0 < no_limit());
    }
}

/// A name that no class has finds none.
pub proof fn unknown_names_find_no_class(t: TableView, name: Seq<char>)
    requires
        forall|k: int| 0 <= k < t.entries.len() ==> (#[trigger] t.entries[k]).name != name,
    ensures
        t.named(name) is None,
        t.named_outside_shim_band(name) is None,
{
    named_in_range(t.entries, name, no_limit(), 0);
    named_in_range(t.entries, name, ClassId::FIRST_SHIM as int, 0);
}

/// A class made under a parent goes before all the parent's superclasses in its own
/// precedence list, in their order. It has the parent's slots where the parent has
/// them, then its own, one word each right after, and is that large.
pub proof fn subclasses_extend_their_parent(
    t: TableView,
    id: ClassId,
    name: Seq<char>,
    parent: ClassId,
    own: Seq<SlotView>,
    i: int,
)
    requires
        t.lookup(parent) is Some,
    ensures
        ({
            let c = t.simple_class(id, name, parent, own);
            let p = t.lookup(parent)->0;
            let n = p.slots.len() as int;
            &&& c.id == id
            &&& c.name == name
            &&& c.parent == Some(parent)
            &&& c.parents.len() == 1 && c.parents[0] == parent
            &&& c.cpl.len() == 1 + p.cpl.len()
            &&& c.cpl[0] == id
            &&& 0 <= i < p.cpl.len() ==> c.cpl[i + 1] == p.cpl[i]
            &&& c.slots.len() == n + own.len()
            &&& 0 <= i < n ==> c.slots[i] == p.slots[i]
            &&& 0 <= i < own.len() ==> {
                let s = c.slots[n + i];
                &&& s.name == own[i].name
                &&& s.offset == 8 + 8 * (n + i)
                &&& s.type_kind == own[i].type_kind
                &&& s.init_keyword == own[i].init_keyword
                &&& s.required_init_keyword == own[i].required_init_keyword
                &&& s.default_init == own[i].default_init
                &&& s.has_setter == own[i].has_setter
            }
            &&& c.own_slot_count == own.len()
            &&& c.inherited_slot_count == n
            &&& c.slot_origin.len() == p.slot_origin.len() + own.len()
            &&& 0 <= i < p.slot_origin.len() ==> c.slot_origin[i] == p.slot_origin[i]
            &&& 0 <= i < own.len() ==> c.slot_origin[p.slot_origin.len() + i] == id
            &&& c.instance_size == 8 + 8 * (n + own.len())
            &&& c.scan == ScanFn::UserClass
            &&& c.size_of == SizeFn::UserClass
            &&& c.layout == LayoutFn::UserClass
            &&& !c.is_byte_payload
            &&& !c.sealed
            &&& c.direct_subclasses.len() == 0
        }),
{
}

/// A class given in full is registered with the hierarchy and slots that it gives.
pub proof fn specified_classes_are_taken_as_given(t: TableView, id: ClassId, spec: SpecView)
    ensures
        ({
            let c = t.specified_class(id, spec);
            &&& c.id == id
            &&& c.name == spec.name
            &&& c.parent == spec.parent
            &&& c.parents == spec.parents
            &&& c.cpl == spec.cpl
            &&& c.slots == spec.slots
            &&& c.slot_origin == spec.slot_origin
            &&& c.own_slot_count == spec.own_slot_count
            &&& c.inherited_slot_count == spec.inherited_slot_count
            &&& c.instance_size == 8 + 8 * spec.slots.len()
        }),
{
}

/// Registering a class adds it after the others, with the next id: the pinned one
/// of a library class, else the next of the active band, which then moves on.
pub proof fn registered_classes_get_the_next_id(
    t: TableView,
    name: Seq<char>,
    parent: ClassId,
    own: Seq<SlotView>,
)
    requires
        t.next_user_id < u32::MAX,
        t.next_shim_id < u32::MAX,
    ensures
        ({
            let u = t.with_simple_class(name, parent, own);
            let n = t.entries.len() as int;
            &&& u.entries.len() == n + 1
            &&& forall|k: int| 0 <= k < n ==> #[trigger] u.entries[k] == t.entries[k]
            &&& u.entries[n].name == name
            &&& t.shim_band ==> u.entries[n].id.0 == t.next_shim_id && u.next_shim_id
                == t.next_shim_id + 1 && u.next_user_id == t.next_user_id
            &&& !t.shim_band && pinned(name) is Some ==> u.entries[n].id.0 == pinned(name)->0
                && u.next_shim_id == t.next_shim_id && u.next_user_id == t.next_user_id
            &&& !t.shim_band && pinned(name) is None ==> u.entries[n].id.0 == t.next_user_id
                && u.next_user_id == t.next_user_id + 1 && u.next_shim_id == t.next_shim_id
            &&& u.shim_band == t.shim_band
        }),
{
}

/// A seed class goes first in its own precedence list and `<object>` last; its
/// parent comes right after it.
pub proof fn seed_classes_descend_from_object(i: int)
    requires
        0 <= i < 12,
    ensures
        ({
            let c = seed_class(i);
            &&& c.id.0 == i
            &&& c.name == SEED_NAMES@[i]@
            &&& c.cpl[0].0 == i
            &&& c.cpl[c.cpl.len() - 1].0 == 0
            &&& c.parent is None <==> i == 0
            &&& c.parent is Some ==> c.cpl.len() >= 2 && c.cpl[1] == c.parent->0 && c.parents.len()
                == 1 && c.parents[0] == c.parent->0
            &&& i == 8 ==> c.parent == Some(ClassId(7))
            &&& i != 8 && i != 0 ==> c.parent == Some(ClassId(0))
            &&& c.is_byte_payload <==> i == 8
            &&& c.slots.len() == 0
            &&& i == 6 || i == 11 ==> c.instance_size == 24
            &&& i == 8 || i == 9 ==> c.instance_size == 16
            &&& i != 6 && i != 8 && i != 9 && i != 11 ==> c.instance_size == 8
        }),
{
}

/// Of the slot types, integers and characters never hold a pointer; all others may.
pub proof fn pointers_stand_in_all_but_plain_slots(c: ClassId)
    ensures
        !SlotType::Integer.pointer_shaped(),
        !SlotType::Character.pointer_shaped(),
        SlotType::DoubleFloat.pointer_shaped(),
        SlotType::Boolean.pointer_shaped(),
        SlotType::String.pointer_shaped(),
        SlotType::Symbol.pointer_shaped(),
        SlotType::Vector.pointer_shaped(),
        SlotType::Object.pointer_shaped(),
        SlotType::Class(c).pointer_shaped(),
        SlotType::Top.pointer_shaped(),
{
}

/// A direct subclass is noted once, after those noted before.
pub proof fn subclasses_are_noted_once(ids: Seq<ClassId>, child: ClassId)
    ensures
        with_subclass(ids, child).contains(child),
        forall|k: int| 0 <= k < ids.len() ==> #[trigger] with_subclass(ids, child)[k] == ids[k],
        ids.contains(child) ==> with_subclass(ids, child).len() == ids.len(),
        !ids.contains(child) ==> with_subclass(ids, child).len() == ids.len() + 1,
{
    if !ids.contains(child) {
        assert(with_subclass(ids, child)[ids.len() as int] == child);
    }
}

/// A class without a parent descends from any object.
pub proof fn classes_descend_from_object_by_default(parent: ClassId)
    ensures
        parent_or_object(Some(parent)) == parent,
        parent_or_object(None) == ClassId(ClassId::OBJECT),
{
}

} // verus!
