//! Start-up of a compiled program.
//!
//! A compiled image starts by initialising the runtime, then fills its slots
//! with the words and handles that the compiler could not know, and registers
//! its classes, methods, variables, functions and blocks. Class ids are handed
//! out in registration order, so every class is checked to get the id that the
//! compiler baked into the image.

use vstd::prelude::*;
use vstd::string::*;
use vstd::utf8::encode_utf8;

use crate::c_types::{
    c_float_type_classes, c_float_type_decls, c_type_classes, c_type_decls,
    with_c_float_type_classes, with_c_type_classes, CFloatTypeClasses, CTypeClasses,
    C_FLOAT_TYPE_ROOM,
};
use crate::callbacks::{no_slots, set_callback_tenure_mode, CallbackPool, PoolView};
use crate::classes::{
    find_class_id_by_name, register_user_class_metadata, seed_table, set_shim_class_band_active,
    shim_class_band_active, slot_views, ClassId, ClassTable, SlotDefault, SlotInfo, SlotType,
    SlotView, SpecView, TableView, UserClassSpec, SLOT_LIMIT,
};
use crate::closures::{
    closure_classes, closure_decls, define_variable, variable_cell, with_closure_classes,
    ClosureClasses, VariableTable,
};
use crate::collections::{
    collection_classes, collection_decls, with_collection_classes, CollectionClasses,
};
use crate::conditions::{
    condition_classes, condition_decls, intern_symbol, is_symbol, ConditionClasses,
};
use crate::declare::{declaring_all_keeps_classes, declaring_known_is_noop, DeclView};
use crate::dispatch::MethodView;
use crate::functions::{
    entry_value, function_classes, function_decls, generic_handle, has_handle,
    register_jit_function, with_function_classes, FunctionClasses, FunctionTable, FunctionsView,
};
use crate::generics::{
    add_method, add_method_full, add_method_named, get_or_create_generic,
    methods_go_to_the_named_generic, padded, CacheSlot, GenericTable, GenericsView,
};
use crate::handlers::{
    block_code, handler_fn_views, register_block_fns, BlockFns, BlockRegistry, BlockView,
    HandlerFn, HandlerFnView,
};
use crate::heap::{
    bytes_object, cells_object, false_word, heap_room, heap_wf, literal_pool_immediates, nil_word,
    true_word, word_of, Heap,
};
use crate::literals::{
    held_from, intern_string_literal, interned, literals_hold, pushed_is_held, LiteralPool,
};
use crate::operators::{
    class_address, class_metadata_address, ensure_operator_shims_registered, operator_code,
    OperatorCode,
};
use crate::text::{decimal_digits, decimal_unsigned, same_text};
use crate::winffi::{ffi_classes, ffi_decls, with_ffi_classes, FfiClasses};
use crate::word::Word;

verus! {

// ----- slots of the image -----

struct CacheEntry {
    prefix: String,
    site_id: u64,
    handle: u64,
}

/// What the image has been given so far: call-site caches by key.
pub struct ImagePool {
    caches: Vec<CacheEntry>,
}

/// What an `ImagePool` holds.
#[verifier::ext_equal]
pub struct ImageView {
    pub caches: Seq<((Seq<char>, u64), u64)>,
}

impl View for ImagePool {
    type V = ImageView;

    closed spec fn view(&self) -> ImageView {
        ImageView {
            caches: Seq::new(
                self.caches@.len(),
                |i: int|
                    (
                        (self.caches@[i].prefix@, self.caches@[i].site_id),
                        self.caches@[i].handle,
                    ),
            ),
        }
    }
}

impl ImagePool {
    /// Nothing has been given yet.
    pub fn new() -> (p: ImagePool)
        ensures
            p@ == (ImageView { caches: seq![] }),
    {
        let p = ImagePool { caches: Vec::new() };
        assert(p@.caches =~= seq![]);
        p
    }

    fn find_cache(&self, prefix: &str, site_id: u64) -> (h: Option<u64>)
        ensures
            h == held_from(self@.caches, (prefix@, site_id), 0),
    {
        let mut i: usize = 0;
        while i < self.caches.len()
            invariant
                i <= self.caches.len(),
                held_from(self@.caches, (prefix@, site_id), 0) == held_from(
                    self@.caches,
                    (prefix@, site_id),
                    i as int,
                ),
            decreases self.caches.len() - i,
        {
            assert(self@.caches[i as int].0 == (
                self.caches@[i as int].prefix@,
                self.caches@[i as int].site_id,
            ));
            if self.caches[i].site_id == site_id && same_text(
                self.caches[i].prefix.as_str(),
                prefix,
            ) {
                return Some(self.caches[i].handle);
            }
            i += 1;
        }
        None
    }
}

/// Fills a slot with `#t`.
pub fn nod_aot_set_imm_true(slot: &mut u64)
    ensures
        *final(slot) == true_word().raw,
{
    *slot = literal_pool_immediates().true_.raw();
}

/// Fills a slot with `#f`.
pub fn nod_aot_set_imm_false(slot: &mut u64)
    ensures
        *final(slot) == false_word().raw,
{
    *slot = literal_pool_immediates().false_.raw();
}

/// Fills a slot with `nil`.
pub fn nod_aot_set_imm_nil(slot: &mut u64)
    ensures
        *final(slot) == nil_word().raw,
{
    *slot = literal_pool_immediates().nil.raw();
}

/// Fills a slot with the address of the header of `#f`.
pub fn nod_aot_set_imm_false_wrapper(slot: &mut u64)
    ensures
        *final(slot) == false_word().raw - 1,
{
    *slot = literal_pool_immediates().false_.raw() - 1;
}

/// Fills a slot with the address of the metadata of a class.
pub fn nod_aot_set_class_md(slot: &mut u64, class_id: u32)
    ensures
        *final(slot) == class_address(ClassId(class_id)),
{
    *slot = class_metadata_address(ClassId(class_id));
}

/// Fills a slot with a string literal.
pub fn nod_aot_set_strlit(literals: &mut LiteralPool, heap: &mut Heap, slot: &mut u64, text: &str)
    requires
        heap_wf(old(heap)@),
        heap_room(old(heap)@, 1),
    ensures
        interned(old(literals)@, old(heap)@, text@, final(literals)@, final(heap)@, *final(slot)),
        held_from(final(literals)@, text@, 0) == Some(*final(slot)),
        heap_wf(final(heap)@),
        literals_hold(old(literals)@, old(heap)@) ==> literals_hold(final(literals)@, final(heap)@),
{
    *slot = intern_string_literal(literals, heap, text).raw();
}

/// Fills a slot with a symbol.
pub fn nod_aot_set_symlit(heap: &mut Heap, slot: &mut u64, name: &str)
    requires
        heap_wf(old(heap)@),
        heap_room(old(heap)@, 2),
    ensures
        is_symbol(final(heap)@, Word { raw: *final(slot) }, name@),
        (exists|v: Word| is_symbol(old(heap)@, v, name@)) ==> final(heap)@ == old(heap)@,
        !(exists|v: Word| is_symbol(old(heap)@, v, name@)) ==> *final(slot) == word_of(
            old(heap)@.len() as int + 1,
        ).raw && final(heap)@ == old(heap)@.push(bytes_object(encode_utf8(name@))).push(
            cells_object(ClassId(ClassId::SYMBOL), seq![word_of(old(heap)@.len() as int)]),
        ),
        heap_wf(final(heap)@),
{
    *slot = intern_symbol(heap, name).raw();
}

/// Fills a slot with the handle of the cache of a call site. A key has one
/// cache.
pub fn nod_aot_set_cache_slot(
    pool: &mut ImagePool,
    generics: &mut GenericTable,
    slot: &mut u64,
    key_prefix: &str,
    site_id: u64,
)
    requires
        old(generics)@.caches.len() < usize::MAX,
    ensures
        match held_from(old(pool)@.caches, (key_prefix@, site_id), 0) {
            Some(h) => *final(slot) == h && final(pool)@ == old(pool)@ && final(generics)@
                == old(generics)@,
            None => {
                &&& *final(slot) == old(generics)@.caches.len() + 1
                &&& final(generics)@ == (GenericsView {
                    caches: old(generics)@.caches.push(
                        CacheSlot {
                            class: 0,
                            method: 0,
                            generation: 0,
                            hits: 0,
                            misses: 0,
                            site_id,
                        },
                    ),
                    ..old(generics)@
                })
                &&& final(pool)@ == (ImageView {
                    caches: old(pool)@.caches.push(((key_prefix@, site_id), *final(slot))),
                    ..old(pool)@
                })
            },
        },
        held_from(final(pool)@.caches, (key_prefix@, site_id), 0) == Some(*final(slot)),
{
    match pool.find_cache(key_prefix, site_id) {
        Some(h) => {
            *slot = h;
        },
        None => {
            let h = generics.new_cache(site_id);
            pool.caches.push(CacheEntry { prefix: key_prefix.to_owned(), site_id, handle: h });
            *slot = h;
            proof {
                let key = (key_prefix@, site_id);
                assert(pool@.caches =~= old(pool)@.caches.push((key, h)));
                pushed_is_held(old(pool)@.caches, key, h, key, 0);
            }
        },
    }
}

/// Fills a slot with the handle of a generic, which is created if need be.
pub fn nod_aot_set_generic(generics: &mut GenericTable, slot: &mut u64, name: &str)
    requires
        has_handle(old(generics)@),
    ensures
        final(generics)@ == old(generics)@.with_generic(name@),
        final(generics)@.find(name@) is Some,
        *final(slot) == generic_handle(final(generics)@.find(name@)->0),
        old(generics)@.wf() ==> final(generics)@.wf(),
{
    let i = get_or_create_generic(generics, name);
    *slot = 2 * (i as u64 + 1);
}

// ----- methods, variables, functions and blocks -----

/// The numbers as class ids.
pub open spec fn class_ids(ids: Seq<u32>) -> Seq<ClassId> {
    Seq::new(ids.len(), |i: int| ClassId(ids[i]))
}

fn to_class_ids(ids: &Vec<u32>) -> (v: Vec<ClassId>)
    ensures
        v@ == class_ids(ids@),
{
    let mut v: Vec<ClassId> = Vec::new();
    let mut i: usize = 0;
    while i < ids.len()
        invariant
            i <= ids@.len(),
            v@ == class_ids(ids@.take(i as int)),
        decreases ids@.len() - i,
    {
        v.push(ClassId(ids[i]));
        assert(v@ =~= class_ids(ids@.take(i + 1)));
        i += 1;
    }
    assert(ids@.take(i as int) =~= ids@);
    v
}

/// Adds a method of the image.
pub fn nod_aot_register_method(
    generics: &mut GenericTable,
    generic_name: &str,
    specialisers: &Vec<u32>,
    body_fn_ptr: u64,
    param_count: usize,
    body_fn_name: &str,
)
    ensures
        final(generics)@ == old(generics)@.with_method(
            generic_name@,
            MethodView {
                specialisers: class_ids(specialisers@),
                body_fn_ptr,
                param_count,
                body_fn_name: body_fn_name@,
            },
        ),
        old(generics)@.wf() ==> final(generics)@.wf(),
{
    let ids = to_class_ids(specialisers);
    add_method_named(generics, generic_name, ids, body_fn_ptr, param_count, body_fn_name);
}

/// Gives a variable of the image a cell with its initial value, which its
/// initialiser has computed.
pub fn nod_aot_register_variable(
    variables: &mut VariableTable,
    heap: &mut Heap,
    ids: &ClosureClasses,
    name: &str,
    initial: u64,
)
    requires
        heap_wf(old(heap)@),
        heap_room(old(heap)@, 1),
    ensures
        final(heap)@ == old(heap)@.push(cells_object(ids.cell, seq![Word { raw: initial }])),
        forall|other: Seq<char>| #[trigger]
            variable_cell(final(variables)@, other) == if other == name@ {
                Some(word_of(old(heap)@.len() as int))
            } else {
                variable_cell(old(variables)@, other)
            },
        heap_wf(final(heap)@),
{
    let _ = define_variable(variables, heap, ids, name, initial);
}

/// Registers a function of the image.
pub fn nod_aot_register_jit_function(
    functions: &mut FunctionTable,
    name: &str,
    arity: usize,
    code_ptr: u64,
)
    ensures
        forall|n: Seq<char>, a: usize| #[trigger]
            entry_value(final(functions)@.compiled, n, a) == if n == name@ && a == arity {
                Some(code_ptr)
            } else {
                entry_value(old(functions)@.compiled, n, a)
            },
        final(functions)@.built_in == old(functions)@.built_in,
        final(functions)@.refs == old(functions)@.refs,
{
    register_jit_function(functions, name, arity, code_ptr);
}

/// An exception clause of the image.
pub struct AotHandlerEntry {
    pub class_id: u32,
    pub class_name: String,
    /// Address of the handler code.
    pub body: u64,
}

/// The exception clauses as handlers.
pub open spec fn image_handlers(entries: Seq<AotHandlerEntry>) -> Seq<HandlerFnView> {
    Seq::new(
        entries.len(),
        |i: int|
            HandlerFnView {
                class_id: ClassId(entries[i].class_id),
                class_name: entries[i].class_name@,
                body: entries[i].body,
            },
    )
}

/// A code address; zero stands for a clause that is not there.
pub open spec fn clause(ptr: u64) -> Option<u64> {
    if ptr == 0 {
        None
    } else {
        Some(ptr)
    }
}

fn clause_of(ptr: u64) -> (c: Option<u64>)
    ensures
        c == clause(ptr),
{
    if ptr == 0 {
        None
    } else {
        Some(ptr)
    }
}

/// Registers the code of a block of the image.
pub fn nod_aot_register_block(
    registry: &mut BlockRegistry,
    block_id: u64,
    body_ptr: u64,
    cleanup_ptr: u64,
    afterwards_ptr: u64,
    handlers: &Vec<AotHandlerEntry>,
)
    ensures
        forall|id: u64| #[trigger]
            block_code(final(registry)@, id) == if id == block_id {
                Some(
                    BlockView {
                        body: body_ptr,
                        cleanup: clause(cleanup_ptr),
                        afterwards: clause(afterwards_ptr),
                        handlers: image_handlers(handlers@),
                    },
                )
            } else {
                block_code(old(registry)@, id)
            },
{
    let mut fns: Vec<HandlerFn> = Vec::new();
    let mut i: usize = 0;
    while i < handlers.len()
        invariant
            i <= handlers@.len(),
            handler_fn_views(fns@) == image_handlers(handlers@.take(i as int)),
        decreases handlers@.len() - i,
    {
        let ghost before = fns@;
        fns.push(
            HandlerFn {
                class_id: ClassId(handlers[i].class_id),
                class_name: handlers[i].class_name.clone(),
                body: handlers[i].body,
            },
        );
        assert(handler_fn_views(fns@) =~= handler_fn_views(before).push(fns@[i as int]@));
        assert(handler_fn_views(fns@) =~= image_handlers(handlers@.take(i + 1)));
        i += 1;
    }
    assert(handlers@.take(i as int) =~= handlers@);
    register_block_fns(
        registry,
        block_id,
        BlockFns {
            body: body_ptr,
            cleanup: clause_of(cleanup_ptr),
            afterwards: clause_of(afterwards_ptr),
            handlers: fns,
        },
    );
}

// ----- classes -----

/// A slot of a class of the image.
pub struct AotSlotEntry {
    pub name: String,
    pub offset: usize,
    pub type_tag: u8,
    /// Zero for no, anything else for yes.
    pub required_init_keyword: u8,
    pub default_init_tag: u8,
    /// Zero for no, anything else for yes.
    pub has_setter: u8,
    /// The class, where the type is one.
    pub type_class_id: u32,
    /// The default, where it is a word of its own.
    pub default_init_value: u64,
    /// Empty if there is none.
    pub init_keyword: String,
}

/// The slot type that a tag stands for.
pub open spec fn slot_type_of(tag: u8, class_id: u32) -> SlotType {
    if tag == 0 {
        SlotType::Integer
    } else if tag == 1 {
        SlotType::DoubleFloat
    } else if tag == 2 {
        SlotType::Boolean
    } else if tag == 3 {
        SlotType::Character
    } else if tag == 4 {
        SlotType::String
    } else if tag == 5 {
        SlotType::Symbol
    } else if tag == 6 {
        SlotType::Vector
    } else if tag == 7 {
        SlotType::Object
    } else if tag == 8 {
        SlotType::Class(ClassId(class_id))
    } else {
        SlotType::Top
    }
}

/// The slot type that a tag stands for. An unknown tag stands for any type, the
/// careful choice for the collector.
pub fn decode_slot_type(tag: u8, class_id: u32) -> (t: SlotType)
    ensures
        t == slot_type_of(tag, class_id),
{
    match tag {
        0 => SlotType::Integer,
        1 => SlotType::DoubleFloat,
        2 => SlotType::Boolean,
        3 => SlotType::Character,
        4 => SlotType::String,
        5 => SlotType::Symbol,
        6 => SlotType::Vector,
        7 => SlotType::Object,
        8 => SlotType::Class(ClassId(class_id)),
        _ => SlotType::Top,
    }
}

/// The default that a tag stands for. Booleans and `nil` are those of this
/// process.
pub open spec fn slot_default_of(tag: u8, value: u64) -> SlotDefault {
    if tag == 1 {
        SlotDefault::Value(Word { raw: value })
    } else if tag == 2 {
        SlotDefault::Value(true_word())
    } else if tag == 3 {
        SlotDefault::Value(false_word())
    } else if tag == 4 {
        SlotDefault::Value(nil_word())
    } else {
        SlotDefault::Unbound
    }
}

fn decode_slot_default(tag: u8, value: u64) -> (d: SlotDefault)
    ensures
        d == slot_default_of(tag, value),
{
    match tag {
        1 => SlotDefault::Value(Word::from_raw(value)),
        2 => SlotDefault::Value(literal_pool_immediates().true_),
        3 => SlotDefault::Value(literal_pool_immediates().false_),
        4 => SlotDefault::Value(literal_pool_immediates().nil),
        _ => SlotDefault::Unbound,
    }
}

/// A slot of the image as the class table keeps it.
pub open spec fn image_slot(e: AotSlotEntry) -> SlotView {
    SlotView {
        name: e.name@,
        offset: e.offset as int,
        type_kind: slot_type_of(e.type_tag, e.type_class_id),
        init_keyword: if e.init_keyword@.len() == 0 {
            None
        } else {
            Some(e.init_keyword@)
        },
        required_init_keyword: e.required_init_keyword != 0,
        default_init: slot_default_of(e.default_init_tag, e.default_init_value),
        has_setter: e.has_setter != 0,
    }
}

/// The slots of the image as the class table keeps them.
pub open spec fn image_slots(es: Seq<AotSlotEntry>) -> Seq<SlotView> {
    Seq::new(es.len(), |i: int| image_slot(es[i]))
}

fn decode_slots(es: &Vec<AotSlotEntry>) -> (slots: Vec<SlotInfo>)
    ensures
        slot_views(slots@) == image_slots(es@),
        slots@.len() == es@.len(),
{
    let mut slots: Vec<SlotInfo> = Vec::new();
    let mut i: usize = 0;
    while i < es.len()
        invariant
            i <= es@.len(),
            slots@.len() == i,
            slot_views(slots@) == image_slots(es@.take(i as int)),
        decreases es@.len() - i,
    {
        let ghost before = slots@;
        let e = &es[i];
        let init_keyword = if same_text(e.init_keyword.as_str(), "") {
            None
        } else {
            Some(e.init_keyword.clone())
        };
        proof {
            reveal_strlit("");
            assert(e.init_keyword@ == ""@ <==> e.init_keyword@.len() == 0) by {
                if e.init_keyword@.len() == 0 {
                    assert(e.init_keyword@ =~= ""@);
                }
            }
        }
        slots.push(
            SlotInfo {
                name: e.name.clone(),
                offset: e.offset,
                type_kind: decode_slot_type(e.type_tag, e.type_class_id),
                init_keyword,
                required_init_keyword: e.required_init_keyword != 0,
                default_init: decode_slot_default(e.default_init_tag, e.default_init_value),
                has_setter: e.has_setter != 0,
            },
        );
        assert(slots@[i as int]@ == image_slot(es@[i as int]));
        assert(slot_views(slots@) =~= slot_views(before).push(slots@[i as int]@));
        assert(slot_views(slots@) =~= image_slots(es@.take(i + 1)));
        i += 1;
    }
    assert(es@.take(i as int) =~= es@);
    slots
}

/// A class got another id than the one the compiler baked into the image.
pub struct ClassIdDrift {
    pub expected: u32,
    pub found: u32,
    pub name: String,
    /// Whether the class was there before; else it has just been registered.
    pub already_registered: bool,
}

/// What is said about an id drift.
pub open spec fn drift_text(d: ClassIdDrift) -> Seq<char> {
    let start = "nod_aot_register_user_class: class id drift — compiler expected "@
        + decimal_digits(d.expected as nat);
    if d.already_registered {
        start + (" for class `"@ + d.name@
            + "`, but that class is already registered at id "@ + decimal_digits(d.found as nat)
            + " in this process. The AOT registration sequence diverged from the compile-time sequence; the codegen path is buggy."@)
    } else {
        start + (" but runtime allocated "@ + decimal_digits(d.found as nat) + " for class `"@
            + d.name@
            + "`. This indicates the AOT registration sequence diverged from the compile-time sequence; the codegen path is buggy."@)
    }
}

impl ClassIdDrift {
    /// What is said about the drift.
    pub fn message(&self) -> (s: String)
        ensures
            s@ == drift_text(*self),
    {
        let mut start = String::from_str(
            "nod_aot_register_user_class: class id drift — compiler expected ",
        );
        start.append(decimal_unsigned(self.expected as u64).as_str());
        let rest = if self.already_registered {
            let mut s = String::from_str(" for class `");
            s.append(self.name.as_str());
            s.append("`, but that class is already registered at id ");
            s.append(decimal_unsigned(self.found as u64).as_str());
            s.append(
                " in this process. The AOT registration sequence diverged from the compile-time sequence; the codegen path is buggy.",
            );
            s
        } else {
            let mut s = String::from_str(" but runtime allocated ");
            s.append(decimal_unsigned(self.found as u64).as_str());
            s.append(" for class `");
            s.append(self.name.as_str());
            s.append(
                "`. This indicates the AOT registration sequence diverged from the compile-time sequence; the codegen path is buggy.",
            );
            s
        };
        start.append(rest.as_str());
        start
    }
}

/// The first of the parents.
pub open spec fn first_parent(parents: Seq<ClassId>) -> Option<ClassId> {
    if parents.len() == 0 {
        None
    } else {
        Some(parents[0])
    }
}

/// The class of the image as a full specification.
pub open spec fn image_class(
    name: Seq<char>,
    parents: Seq<u32>,
    cpl: Seq<u32>,
    slots: Seq<AotSlotEntry>,
    slot_origin: Seq<u32>,
    own_slot_count: usize,
    inherited_slot_count: usize,
) -> SpecView {
    SpecView {
        name,
        parent: first_parent(class_ids(parents)),
        parents: class_ids(parents),
        cpl: class_ids(cpl),
        slots: image_slots(slots),
        slot_origin: class_ids(slot_origin),
        own_slot_count: own_slot_count as int,
        inherited_slot_count: inherited_slot_count as int,
    }
}

/// The table with the band that an id belongs to.
pub open spec fn in_band_of(t: TableView, id: u32) -> TableView {
    TableView { shim_band: id >= ClassId::FIRST_SHIM, ..t }
}

/// The table after registering a class in the band of an id.
pub open spec fn with_image_class(t: TableView, id: u32, spec: SpecView) -> TableView {
    let u = in_band_of(t, id);
    TableView {
        shim_band: t.shim_band,
        ..u.after_next_id(spec.name).with_entry(u.specified_class(u.next_id(spec.name), spec))
    }
}

/// Registers a class of the image. A class that is there already stays as it
/// is. Either way it must have the id that the compiler expects.
pub fn nod_aot_register_user_class(
    table: &mut ClassTable,
    name: &str,
    expected_class_id: u32,
    parents: &Vec<u32>,
    cpl: &Vec<u32>,
    slots: &Vec<AotSlotEntry>,
    slot_origin: &Vec<u32>,
    own_slot_count: usize,
    inherited_slot_count: usize,
) -> (r: Result<(), ClassIdDrift>)
    requires
        old(table)@.named(name@) is None ==> old(table)@.room(1) && slots@.len() <= SLOT_LIMIT,
    ensures
        ({
            let t = old(table)@;
            let spec = image_class(
                name@,
                parents@,
                cpl@,
                slots@,
                slot_origin@,
                own_slot_count,
                inherited_slot_count,
            );
            match t.named(name@) {
                Some(id) => {
                    &&& final(table)@ == t
                    &&& r is Ok <==> id.0 == expected_class_id
                    &&& r is Err ==> r->Err_0.expected == expected_class_id && r->Err_0.found
                        == id.0 && r->Err_0.name@ == name@ && r->Err_0.already_registered
                },
                None => {
                    let id = in_band_of(t, expected_class_id).next_id(name@);
                    &&& final(table)@ == with_image_class(t, expected_class_id, spec)
                    &&& r is Ok <==> id.0 == expected_class_id
                    &&& r is Err ==> r->Err_0.expected == expected_class_id && r->Err_0.found
                        == id.0 && r->Err_0.name@ == name@ && !r->Err_0.already_registered
                },
            }
        }),
{
    if let Some(existing) = find_class_id_by_name(table, name) {
        if existing.0 != expected_class_id {
            return Err(
                ClassIdDrift {
                    expected: expected_class_id,
                    found: existing.0,
                    name: name.to_owned(),
                    already_registered: true,
                },
            );
        }
        return Ok(());
    }
    let parents = to_class_ids(parents);
    let parent = if parents.len() == 0 {
        None
    } else {
        Some(parents[0])
    };
    let spec = UserClassSpec {
        name: name.to_owned(),
        parent,
        parents,
        cpl: to_class_ids(cpl),
        slots: decode_slots(slots),
        slot_origin: to_class_ids(slot_origin),
        own_slot_count,
        inherited_slot_count,
    };
    let shim_band = expected_class_id >= ClassId::FIRST_SHIM;
    let previous = shim_class_band_active(table);
    set_shim_class_band_active(table, shim_band);
    let assigned = register_user_class_metadata(table, spec);
    set_shim_class_band_active(table, previous);
    if assigned.0 != expected_class_id {
        return Err(
            ClassIdDrift {
                expected: expected_class_id,
                found: assigned.0,
                name: name.to_owned(),
                already_registered: false,
            },
        );
    }
    Ok(())
}

// ----- initialisation -----

/// The addresses of the code behind the methods on stretchy vectors.
#[derive(Clone, Copy, PartialEq, Eq, Structural, Debug)]
pub struct StretchyVectorCode {
    pub element: u64,
    pub size: u64,
    pub element_setter: u64,
}

/// The generics with the methods on stretchy vectors.
pub open spec fn with_stretchy_vector_methods(
    g: GenericsView,
    stretchy_vector: ClassId,
    code: StretchyVectorCode,
) -> GenericsView {
    g.with_method(
        "element"@,
        MethodView {
            specialisers: padded(stretchy_vector, 2),
            body_fn_ptr: code.element,
            param_count: 2,
            body_fn_name: ""@,
        },
    ).with_method(
        "size"@,
        MethodView {
            specialisers: padded(stretchy_vector, 1),
            body_fn_ptr: code.size,
            param_count: 1,
            body_fn_name: ""@,
        },
    ).with_method(
        "element-setter"@,
        MethodView {
            specialisers: seq![
                ClassId(ClassId::OBJECT),
                stretchy_vector,
                ClassId(ClassId::OBJECT),
            ],
            body_fn_ptr: code.element_setter,
            param_count: 3,
            body_fn_name: ""@,
        },
    )
}

/// Adds the methods on stretchy vectors to their generics. The vector is the
/// second argument of the setter.
pub fn install_stretchy_vector_methods(
    generics: &mut GenericTable,
    stretchy_vector: ClassId,
    code: StretchyVectorCode,
)
    ensures
        final(generics)@ == with_stretchy_vector_methods(old(generics)@, stretchy_vector, code),
        old(generics)@.wf() ==> final(generics)@.wf(),
{
    add_method(generics, "element", stretchy_vector, code.element, 2);
    add_method(generics, "size", stretchy_vector, code.size, 1);
    let specialisers = vec![ClassId(ClassId::OBJECT), stretchy_vector, ClassId(ClassId::OBJECT)];
    assert(specialisers@ =~= seq![
        ClassId(ClassId::OBJECT),
        stretchy_vector,
        ClassId(ClassId::OBJECT),
    ]);
    add_method_full(generics, "element-setter", specialisers, code.element_setter, 3);
}

/// The ids of the classes that the runtime registers.
#[derive(Clone, Copy, PartialEq, Eq, Structural, Debug)]
pub struct RuntimeClasses {
    pub conditions: ConditionClasses,
    pub collections: CollectionClasses,
    pub functions: FunctionClasses,
    pub closures: ClosureClasses,
    pub c_types: CTypeClasses,
    pub c_floats: CFloatTypeClasses,
    pub ffi: FfiClasses,
}

/// Code addresses that the runtime hands out.
#[derive(Clone, Copy, PartialEq, Eq, Structural, Debug)]
pub struct RuntimeCode {
    pub operators: OperatorCode,
    pub stretchy_vectors: StretchyVectorCode,
}

/// The state that start-up sets up.
pub struct Runtime {
    pub table: ClassTable,
    pub generics: GenericTable,
    pub functions: FunctionTable,
    pub callbacks: CallbackPool,
    /// Present once the runtime is initialised.
    pub classes: Option<RuntimeClasses>,
}

/// Upper bound on the ids and slots that initialisation takes.
pub const RUNTIME_ROOM: i64 = 187;

/// The table after the condition classes.
pub open spec fn after_conditions(t: TableView) -> TableView {
    t.declared_all(condition_decls())
}

/// The table after the collection classes.
pub open spec fn after_collections(t: TableView) -> TableView {
    with_collection_classes(after_conditions(t))
}

/// The table after the function classes.
pub open spec fn after_functions(t: TableView) -> TableView {
    with_function_classes(after_collections(t))
}

/// The table after the closure classes.
pub open spec fn after_closures(t: TableView) -> TableView {
    with_closure_classes(after_functions(t))
}

/// The table after the classes of C types.
pub open spec fn after_c_types(t: TableView) -> TableView {
    with_c_type_classes(after_closures(t))
}

/// The table after the classes of C floating-point types.
pub open spec fn after_c_floats(t: TableView) -> TableView {
    with_c_float_type_classes(after_c_types(t))
}

/// The table after all classes of the runtime, in the order that fixes their
/// ids.
pub open spec fn initialised(t: TableView) -> TableView {
    with_ffi_classes(after_c_floats(t))
}

/// The ids that initialisation gives.
pub open spec fn runtime_classes(t: TableView) -> RuntimeClasses {
    RuntimeClasses {
        conditions: condition_classes(after_conditions(t)),
        collections: collection_classes(after_collections(t)),
        functions: function_classes(after_functions(t)),
        closures: closure_classes(after_closures(t)),
        c_types: c_type_classes(after_c_types(t)),
        c_floats: c_float_type_classes(after_c_floats(t)),
        ffi: ffi_classes(initialised(t)),
    }
}

impl Runtime {
    /// A runtime that is not initialised yet: the seed classes, no generics, no
    /// functions and no callbacks.
    pub fn new() -> (rt: Runtime)
        ensures
            rt.classes is None,
            rt.table@ == seed_table(),
            rt.generics@ == (GenericsView {
                generics: seq![],
                caches: seq![],
                rest_callees: seq![],
                resolved: seq![],
            }),
            rt.functions@ == (FunctionsView { built_in: seq![], compiled: seq![], refs: seq![] }),
            rt.callbacks@ == (PoolView {
                wndproc: no_slots(),
                wndenumproc: no_slots(),
                tenure: false,
            }),
            rt.table@.wf(),
            rt.table@.room(RUNTIME_ROOM as int),
            rt.generics@.wf(),
            rt.callbacks.wf(),
    {
        Runtime {
            table: ClassTable::new(),
            generics: GenericTable::new(),
            functions: FunctionTable::new(),
            callbacks: CallbackPool::new(),
            classes: None,
        }
    }
}

/// Initialises the runtime, unless that has been done.
pub fn nod_runtime_init(rt: &mut Runtime, code: RuntimeCode)
    requires
        old(rt).classes is None ==> old(rt).table@.wf() && old(rt).table@.room(
            RUNTIME_ROOM as int,
        ),
    ensures
        old(rt).classes is Some ==> *final(rt) == *old(rt),
        old(rt).classes is None ==> {
            &&& final(rt).table@ == initialised(old(rt).table@)
            &&& final(rt).table@.wf()
            &&& final(rt).classes == Some(runtime_classes(old(rt).table@))
            &&& final(rt).generics@ == with_stretchy_vector_methods(
                old(rt).generics@,
                final(rt).classes->0.collections.stretchy_vector,
                code.stretchy_vectors,
            )
            &&& forall|n: Seq<char>, a: usize| #[trigger]
                entry_value(final(rt).functions@.built_in, n, a) == if a == 2 && operator_code(
                    code.operators,
                    n,
                ) is Some {
                    operator_code(code.operators, n)
                } else {
                    entry_value(old(rt).functions@.built_in, n, a)
                }
            &&& final(rt).functions@.compiled == old(rt).functions@.compiled
            &&& final(rt).functions@.refs == old(rt).functions@.refs
            &&& final(rt).callbacks == old(rt).callbacks
            &&& final(rt).table@.named("<c-ffi-error>"@) is Some
        },
{
    if rt.classes.is_some() {
        return;
    }
    let conditions = crate::conditions::ensure_registered(&mut rt.table);
    assert(rt.table@.room(161int));
    let collections = crate::collections::ensure_registered(&mut rt.table);
    install_stretchy_vector_methods(
        &mut rt.generics,
        collections.stretchy_vector,
        code.stretchy_vectors,
    );
    assert(rt.table@.room(108int));
    let functions = crate::functions::ensure_registered(&mut rt.table);
    assert(rt.table@.room(71int));
    let closures = crate::closures::ensure_registered(&mut rt.table);
    assert(rt.table@.room(67int));
    let c_types = crate::c_types::ensure_registered(&mut rt.table);
    assert(rt.table@.room(51int));
    let c_floats = crate::c_types::ensure_float_types_registered(&mut rt.table);
    assert(rt.table@.room(49int));
    let ffi = crate::winffi::ensure_c_ffi_error_registered(&mut rt.table);
    assert(ffi_decls()[0].name == "<c-ffi-error>"@);
    assert(rt.table@.room(18int));
    proof {
        initialising_is_idempotent(old(rt).table@);
    }
    ensure_com_types_registered(&mut rt.table);
    ensure_operator_shims_registered(&mut rt.functions, code.operators);
    rt.classes = Some(
        RuntimeClasses { conditions, collections, functions, closures, c_types, c_floats, ffi },
    );
}

/// Upper bound on the ids and slots that the classes of object handles take.
pub const COM_TYPE_ROOM: i64 = 18;

/// Registers the classes that object handles and their numbers need.
pub fn ensure_com_types_registered(table: &mut ClassTable)
    requires
        old(table)@.wf(),
        old(table)@.room(COM_TYPE_ROOM as int),
    ensures
        final(table)@ == with_c_float_type_classes(with_c_type_classes(old(table)@)),
        final(table)@.wf(),
{
    let _ = crate::c_types::ensure_registered(table);
    assert(table@.room(C_FLOAT_TYPE_ROOM as int));
    let _ = crate::c_types::ensure_float_types_registered(table);
}

/// Names known in a table stay known.
proof fn names_stay(t: TableView, ds: Seq<DeclView>)
    ensures
        forall|name: Seq<char>| #[trigger]
            t.named(name) is Some ==> t.declared_all(ds).named(name) == t.named(name),
        forall|i: int|
            0 <= i < ds.len() ==> t.declared_all(ds).named((#[trigger] ds[i]).name) is Some,
{
    assert forall|name: Seq<char>| #[trigger] t.named(name) is Some implies t.declared_all(
        ds,
    ).named(name) == t.named(name) by {
        declaring_all_keeps_classes(t, ds, name, ClassId(0));
    }
    declaring_all_keeps_classes(t, ds, seq![], ClassId(0));
}

/// All the names are known in the table.
spec fn knows_all(t: TableView, ds: Seq<DeclView>) -> bool {
    forall|i: int| 0 <= i < ds.len() ==> t.named((#[trigger] ds[i]).name) is Some
}

proof fn still_knows_all(t: TableView, ds: Seq<DeclView>, more: Seq<DeclView>)
    requires
        knows_all(t, ds),
    ensures
        knows_all(t.declared_all(more), ds),
{
    names_stay(t, more);
}

/// All the names of all the lists are known in the table.
spec fn knows_lists(t: TableView, lists: Seq<Seq<DeclView>>) -> bool {
    forall|k: int| 0 <= k < lists.len() ==> knows_all(t, #[trigger] lists[k])
}

proof fn knows_one_more(t: TableView, lists: Seq<Seq<DeclView>>, ds: Seq<DeclView>)
    requires
        knows_lists(t, lists),
    ensures
        knows_lists(t.declared_all(ds), lists.push(ds)),
{
    names_stay(t, ds);
    let more = lists.push(ds);
    assert forall|k: int| 0 <= k < more.len() implies knows_all(
        t.declared_all(ds),
        #[trigger] more[k],
    ) by {
        if k < lists.len() {
            assert(more[k] == lists[k]);
            still_knows_all(t, lists[k], ds);
        }
    }
}

/// After initialisation the names of all the runtime's classes are known.
proof fn initialised_knows_all(t: TableView)
    ensures
        knows_all(initialised(t), condition_decls()),
        knows_all(initialised(t), collection_decls()),
        knows_all(initialised(t), function_decls()),
        knows_all(initialised(t), closure_decls()),
        knows_all(initialised(t), c_type_decls()),
        knows_all(initialised(t), c_float_type_decls()),
        knows_all(initialised(t), ffi_decls()),
{
    let c = condition_decls();
    let l0 = Seq::<Seq<DeclView>>::empty();
    knows_one_more(t, l0, c);
    let l1 = l0.push(c);
    let t1 = after_conditions(t);
    knows_one_more(t1, l1, c);
    knows_one_more(t1.declared_all(c), l1.push(c), collection_decls());
    let l2 = l1.push(c).push(collection_decls());
    let t2 = after_collections(t);
    knows_one_more(t2, l2, c);
    knows_one_more(t2.declared_all(c), l2.push(c), function_decls());
    let l3 = l2.push(c).push(function_decls());
    knows_one_more(after_functions(t), l3, closure_decls());
    let l4 = l3.push(closure_decls());
    knows_one_more(after_closures(t), l4, c_type_decls());
    let l5 = l4.push(c_type_decls());
    knows_one_more(after_c_types(t), l5, c_float_type_decls());
    let l6 = l5.push(c_float_type_decls());
    let t6 = after_c_floats(t);
    knows_one_more(t6, l6, c);
    knows_one_more(t6.declared_all(c), l6.push(c), ffi_decls());
    let l7 = l6.push(c).push(ffi_decls());
    assert(knows_lists(initialised(t), l7));
    assert(l7[0] == c && l7[2] == collection_decls() && l7[4] == function_decls() && l7[5]
        == closure_decls() && l7[6] == c_type_decls() && l7[7] == c_float_type_decls() && l7[9]
        == ffi_decls());
}

/// Initialising the runtime twice registers nothing that once did not.
pub proof fn initialising_is_idempotent(t: TableView)
    ensures
        initialised(initialised(t)) == initialised(t),
        with_c_float_type_classes(with_c_type_classes(initialised(t))) == initialised(t),
{
    let u = initialised(t);
    initialised_knows_all(t);
    declaring_known_is_noop(u, condition_decls());
    declaring_known_is_noop(u, collection_decls());
    declaring_known_is_noop(u, function_decls());
    declaring_known_is_noop(u, closure_decls());
    declaring_known_is_noop(u, c_type_decls());
    declaring_known_is_noop(u, c_float_type_decls());
    declaring_known_is_noop(u, ffi_decls());
}

/// A class that is registered keeps its id when the runtime is initialised.
pub proof fn initialising_keeps_classes(t: TableView, name: Seq<char>)
    requires
        t.named(name) is Some,
    ensures
        initialised(t).named(name) == t.named(name),
{
    names_stay(t, condition_decls());
    let a = after_conditions(t);
    names_stay(a, condition_decls());
    names_stay(a.declared_all(condition_decls()), collection_decls());
    let b = after_collections(t);
    names_stay(b, condition_decls());
    names_stay(b.declared_all(condition_decls()), function_decls());
    names_stay(after_functions(t), closure_decls());
    names_stay(after_closures(t), c_type_decls());
    names_stay(after_c_types(t), c_float_type_decls());
    let c = after_c_floats(t);
    names_stay(c, condition_decls());
    names_stay(c.declared_all(condition_decls()), ffi_decls());
}

/// The runtime `after` is the runtime `before`, initialised unless it was, with
/// callbacks tenured.
pub open spec fn ready_for_main(before: Runtime, code: RuntimeCode, after: Runtime) -> bool {
    &&& before.classes is Some ==> {
        &&& after.table == before.table
        &&& after.generics == before.generics
        &&& after.functions == before.functions
        &&& after.classes == before.classes
    }
    &&& before.classes is None ==> {
        &&& after.table@ == initialised(before.table@)
        &&& after.table@.wf()
        &&& after.classes == Some(runtime_classes(before.table@))
        &&& after.generics@ == with_stretchy_vector_methods(
            before.generics@,
            after.classes->0.collections.stretchy_vector,
            code.stretchy_vectors,
        )
        &&& forall|n: Seq<char>, a: usize| #[trigger]
            entry_value(after.functions@.built_in, n, a) == if a == 2 && operator_code(
                code.operators,
                n,
            ) is Some {
                operator_code(code.operators, n)
            } else {
                entry_value(before.functions@.built_in, n, a)
            }
        &&& after.functions@.compiled == before.functions@.compiled
        &&& after.functions@.refs == before.functions@.refs
        &&& after.table@.named("<c-ffi-error>"@) is Some
    }
    &&& after.callbacks.wf()
    &&& after.callbacks@ == (PoolView { tenure: true, ..before.callbacks@ })
}

/// Makes the runtime ready for the main function of a compiled program:
/// initialises it, unless that has been done, and has callbacks tenured.
pub fn prepare_main(rt: &mut Runtime, code: RuntimeCode)
    requires
        old(rt).classes is None ==> old(rt).table@.wf() && old(rt).table@.room(
            RUNTIME_ROOM as int,
        ),
        old(rt).callbacks.wf(),
    ensures
        ready_for_main(*old(rt), code, *final(rt)),
        final(rt).classes is Some,
{
    nod_runtime_init(rt, code);
    set_callback_tenure_mode(&mut rt.callbacks, true);
}

/// Runs a compiled program: makes the runtime ready and calls the program's main
/// function. The value of main is a word, no exit code, so the answer is always
/// zero.
pub fn nod_aot_main_wrapper<F: Fn(&Runtime) -> i64>(
    rt: &mut Runtime,
    code: RuntimeCode,
    user_main: F,
) -> (rc: i32)
    requires
        old(rt).classes is None ==> old(rt).table@.wf() && old(rt).table@.room(
            RUNTIME_ROOM as int,
        ),
        old(rt).callbacks.wf(),
        forall|ready: &Runtime|
            ready_for_main(*old(rt), code, *ready) ==> #[trigger] user_main.requires((ready,)),
    ensures
        rc == 0,
        ready_for_main(*old(rt), code, *final(rt)),
        final(rt).classes is Some,
        exists|value: i64| #[trigger] user_main.ensures((final(rt),), value),
{
    prepare_main(rt, code);
    let _value: i64 = user_main(rt);
    0
}

/// The main function of an image that has none.
pub fn nod_user_main() -> (value: i64)
    ensures
        value == 0,
{
    0
}

// ----- what an image means -----

/// The tags of an image stand for the slot types in their order; an unknown tag stands for any
/// type.
pub proof fn tags_stand_for_types(tag: u8, class_id: u32)
    ensures
        tag == 0 ==> slot_type_of(tag, class_id) == SlotType::Integer,
        tag == 1 ==> slot_type_of(tag, class_id) == SlotType::DoubleFloat,
        tag == 2 ==> slot_type_of(tag, class_id) == SlotType::Boolean,
        tag == 3 ==> slot_type_of(tag, class_id) == SlotType::Character,
        tag == 4 ==> slot_type_of(tag, class_id) == SlotType::String,
        tag == 5 ==> slot_type_of(tag, class_id) == SlotType::Symbol,
        tag == 6 ==> slot_type_of(tag, class_id) == SlotType::Vector,
        tag == 7 ==> slot_type_of(tag, class_id) == SlotType::Object,
        tag == 8 ==> slot_type_of(tag, class_id) == SlotType::Class(ClassId(class_id)),
        tag > 8 ==> slot_type_of(tag, class_id) == SlotType::Top,
        tag > 8 || tag == 7 || tag == 8 ==> slot_type_of(tag, class_id).pointer_shaped(),
{
}

/// The tags of an image stand for the defaults in their order; an unknown tag stands for none.
pub proof fn tags_stand_for_defaults(tag: u8, value: u64)
    ensures
        tag == 1 ==> slot_default_of(tag, value) == SlotDefault::Value(Word { raw: value }),
        tag == 2 ==> slot_default_of(tag, value) == SlotDefault::Value(true_word()),
        tag == 3 ==> slot_default_of(tag, value) == SlotDefault::Value(false_word()),
        tag == 4 ==> slot_default_of(tag, value) == SlotDefault::Value(nil_word()),
        tag == 0 || tag > 4 ==> slot_default_of(tag, value) == SlotDefault::Unbound,
{
}

/// A slot of an image becomes a slot of the same name and offset; an empty keyword is none,
/// and flags are set by anything but zero.
pub proof fn image_slots_keep_their_parts(es: Seq<AotSlotEntry>, i: int)
    requires
        0 <= i < es.len(),
    ensures
        image_slots(es).len() == es.len(),
        image_slots(es)[i].name == es[i].name@,
        image_slots(es)[i].offset == es[i].offset,
        image_slots(es)[i].init_keyword is None <==> es[i].init_keyword@.len() == 0,
        image_slots(es)[i].init_keyword matches Some(k) ==> k == es[i].init_keyword@,
        image_slots(es)[i].required_init_keyword <==> es[i].required_init_keyword != 0,
        image_slots(es)[i].has_setter <==> es[i].has_setter != 0,
        image_slots(es)[i].type_kind == slot_type_of(es[i].type_tag, es[i].type_class_id),
        image_slots(es)[i].default_init == slot_default_of(
            es[i].default_init_tag,
            es[i].default_init_value,
        ),
{
}

/// A class of an image becomes a class with the parents, precedence list and slots that the
/// image gives; the first parent is the parent.
pub proof fn image_classes_keep_their_parts(
    name: Seq<char>,
    parents: Seq<u32>,
    cpl: Seq<u32>,
    slots: Seq<AotSlotEntry>,
    slot_origin: Seq<u32>,
    own: usize,
    inherited: usize,
    i: int,
)
    ensures
        ({
            let c = image_class(name, parents, cpl, slots, slot_origin, own, inherited);
            &&& c.name == name
            &&& parents.len() == 0 ==> c.parent is None
            &&& parents.len() > 0 ==> c.parent == Some(ClassId(parents[0]))
            &&& c.parents.len() == parents.len()
            &&& 0 <= i < parents.len() ==> c.parents[i] == ClassId(parents[i])
            &&& c.cpl.len() == cpl.len()
            &&& 0 <= i < cpl.len() ==> c.cpl[i] == ClassId(cpl[i])
            &&& c.slots.len() == slots.len()
            &&& 0 <= i < slots.len() ==> c.slots[i].name == slots[i].name@
            &&& c.slot_origin.len() == slot_origin.len()
            &&& 0 <= i < slot_origin.len() ==> c.slot_origin[i] == ClassId(slot_origin[i])
            &&& c.own_slot_count == own
            &&& c.inherited_slot_count == inherited
        }),
{
}

/// An exception clause of an image becomes a handler for its class with its code, and a clause
/// is there unless its address is zero.
pub proof fn image_handlers_keep_their_parts(entries: Seq<AotHandlerEntry>, i: int, ptr: u64)
    requires
        0 <= i < entries.len(),
    ensures
        image_handlers(entries).len() == entries.len(),
        image_handlers(entries)[i].class_id == ClassId(entries[i].class_id),
        image_handlers(entries)[i].class_name == entries[i].class_name@,
        image_handlers(entries)[i].body == entries[i].body,
        ptr == 0 ==> clause(ptr) is None,
        ptr != 0 ==> clause(ptr) == Some(ptr),
{
}

/// A class of an image is registered in the band of the id that the compiler expects, and the
/// band is then what it was.
pub proof fn image_classes_go_to_their_band(t: TableView, id: u32, spec: SpecView)
    ensures
        in_band_of(t, id).shim_band <==> id >= 0x4000_0000,
        in_band_of(t, id).entries == t.entries,
        in_band_of(t, id).next_user_id == t.next_user_id,
        in_band_of(t, id).next_shim_id == t.next_shim_id,
        with_image_class(t, id, spec).shim_band == t.shim_band,
{
}

/// Stretchy vectors are the first argument of the methods that read and the second of the one
/// that stores.
pub proof fn stretchy_vectors_have_their_methods(
    g: GenericsView,
    stretchy_vector: ClassId,
    code: StretchyVectorCode,
)
    ensures
        ({
            let u = with_stretchy_vector_methods(g, stretchy_vector, code);
            let object = ClassId(0);
            let read = u.generics[u.find("element"@)->0].methods;
            let size = u.generics[u.find("size"@)->0].methods;
            let store = u.generics[u.find("element-setter"@)->0].methods;
            &&& u.find("element"@) is Some
            &&& u.find("size"@) is Some
            &&& u.find("element-setter"@) is Some
            &&& exists|m: MethodView| #[trigger]
                read.contains(m) && m.specialisers == seq![stretchy_vector, object]
                    && m.param_count == 2 && m.body_fn_ptr == code.element
            &&& exists|m: MethodView| #[trigger]
                size.contains(m) && m.specialisers == seq![stretchy_vector] && m.param_count == 1
                    && m.body_fn_ptr == code.size
            &&& exists|m: MethodView| #[trigger]
                store.contains(m) && m.specialisers == seq![object, stretchy_vector, object]
                    && m.param_count == 3 && m.body_fn_ptr == code.element_setter
        }),
{
    reveal_strlit("element");
    reveal_strlit("size");
    reveal_strlit("element-setter");
    assert("element"@.len() == 7 && "size"@.len() == 4 && "element-setter"@.len() == 14);
    let m1 = MethodView {
        specialisers: padded(stretchy_vector, 2),
        body_fn_ptr: code.element,
        param_count: 2,
        body_fn_name: ""@,
    };
    let m2 = MethodView {
        specialisers: padded(stretchy_vector, 1),
        body_fn_ptr: code.size,
        param_count: 1,
        body_fn_name: ""@,
    };
    let m3 = MethodView {
        specialisers: seq![ClassId(ClassId::OBJECT), stretchy_vector, ClassId(ClassId::OBJECT)],
        body_fn_ptr: code.element_setter,
        param_count: 3,
        body_fn_name: ""@,
    };
    let g1 = g.with_method("element"@, m1);
    let g2 = g1.with_method("size"@, m2);
    let g3 = g2.with_method("element-setter"@, m3);
    assert(g3 == with_stretchy_vector_methods(g, stretchy_vector, code));
    methods_go_to_the_named_generic(g, "element"@, m1, "size"@);
    methods_go_to_the_named_generic(g1, "size"@, m2, "element"@);
    methods_go_to_the_named_generic(g2, "element-setter"@, m3, "element"@);
    methods_go_to_the_named_generic(g2, "element-setter"@, m3, "size"@);
    assert(padded(stretchy_vector, 2) =~= seq![stretchy_vector, ClassId(0)]);
    assert(padded(stretchy_vector, 1) =~= seq![stretchy_vector]);
    assert(g3.generics[g3.find("element"@)->0].methods.contains(m1));
    assert(g3.generics[g3.find("size"@)->0].methods.contains(m2));
    assert(g3.generics[g3.find("element-setter"@)->0].methods.contains(m3));
}

/// A compiled program starts with its callbacks tenured and the classes of the runtime
/// registered; a runtime that was initialised keeps everything else.
pub proof fn programs_start_with_tenured_callbacks(before: Runtime, code: RuntimeCode, after: Runtime)
    requires
        ready_for_main(before, code, after),
    ensures
        after.callbacks@.tenure,
        after.callbacks@.wndproc == before.callbacks@.wndproc,
        after.callbacks@.wndenumproc == before.callbacks@.wndenumproc,
        after.classes is Some,
        before.classes is Some ==> after.table == before.table && after.generics
            == before.generics && after.functions == before.functions,
        before.classes is None ==> after.functions@.compiled == before.functions@.compiled,
{
}

/// What is said of an id drift names both ids and the class.
pub proof fn drifts_name_both_ids(d: ClassIdDrift)
    ensures
        d.already_registered ==> drift_text(d)
            == "nod_aot_register_user_class: class id drift — compiler expected "@
            + decimal_digits(d.expected as nat) + (" for class `"@ + d.name@
            + "`, but that class is already registered at id "@ + decimal_digits(d.found as nat)
            + " in this process. The AOT registration sequence diverged from the compile-time sequence; the codegen path is buggy."@),
        !d.already_registered ==> drift_text(d)
            == "nod_aot_register_user_class: class id drift — compiler expected "@
            + decimal_digits(d.expected as nat) + (" but runtime allocated "@ + decimal_digits(
            d.found as nat,
        ) + " for class `"@ + d.name@
            + "`. This indicates the AOT registration sequence diverged from the compile-time sequence; the codegen path is buggy."@),
{
}

} // verus!
