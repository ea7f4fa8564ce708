//! The table of generic functions, call-site caches and the dispatch of a
//! call.

use vstd::prelude::*;
use vstd::string::*;
use vstd::utf8::{
    decode_utf8, encode_utf8, encode_utf8_decode_utf8, encode_utf8_valid_utf8, valid_utf8,
};

use crate::classes::{ClassId, ClassTable, TableView};
use crate::dispatch::{
    next_generation, violated_from, GenericFunction, GenericView, Method, MethodTableError,
    MethodView,
};
use crate::heap::{
    bool_word, boolean_word, bytes_object, class_at, object_at, Heap, ObjectView,
};
use crate::lookup::{
    ambiguous, applicable_chain, bodies, class_name, class_names, closest,
    lookup_applicable_methods, method_for_receiver, name_list, shown_name, shown_names,
    takes_receiver, MethodPtr,
};
use crate::text::{
    decimal_digits, decimal_unsigned, hex_digits, hexadecimal, join, joined, same_text,
    text_from_utf8, text_views,
};
use crate::word::Word;

verus! {

// ----- call-site caches -----

/// The cache of one call site: what the last full lookup there found.
#[derive(Clone, Copy, PartialEq, Eq, Structural, Debug)]
pub struct CacheSlot {
    /// Class id of the receiver; zero while the cache is cold.
    pub class: u64,
    /// The method that was found.
    pub method: u64,
    /// Generation of the generic when the cache was filled.
    pub generation: u64,
    pub hits: u64,
    pub misses: u64,
    pub site_id: u64,
}

/// A field of a cache slot.
#[derive(Clone, Copy, PartialEq, Eq, Structural, Debug)]
pub enum CacheField {
    Class,
    Method,
    Generation,
    Hits,
    Misses,
    SiteId,
}

impl CacheField {
    /// Byte offset of the field in the memory image that compiled code reads.
    pub open spec fn spec_offset(self) -> int {
        match self {
            CacheField::Class => 0,
            CacheField::Method => 8,
            CacheField::Generation => 16,
            CacheField::Hits => 24,
            CacheField::Misses => 32,
            CacheField::SiteId => 40,
        }
    }

    /// Byte offset of the field in the memory image that compiled code reads.
    pub fn offset(self) -> (n: usize)
        ensures
            n == self.spec_offset(),
    {
        match self {
            CacheField::Class => 0,
            CacheField::Method => 8,
            CacheField::Generation => 16,
            CacheField::Hits => 24,
            CacheField::Misses => 32,
            CacheField::SiteId => 40,
        }
    }
}

impl CacheSlot {
    /// A field's value.
    pub open spec fn field(self, f: CacheField) -> u64 {
        match f {
            CacheField::Class => self.class,
            CacheField::Method => self.method,
            CacheField::Generation => self.generation,
            CacheField::Hits => self.hits,
            CacheField::Misses => self.misses,
            CacheField::SiteId => self.site_id,
        }
    }

    /// A cache that has seen no call.
    pub fn cold(site_id: u64) -> (slot: CacheSlot)
        ensures
            slot == (CacheSlot {
                class: 0,
                method: 0,
                generation: 0,
                hits: 0,
                misses: 0,
                site_id,
            }),
    {
        CacheSlot { class: 0, method: 0, generation: 0, hits: 0, misses: 0, site_id }
    }

    /// The memory image that compiled code reads, one word per field.
    pub fn image(&self) -> (cells: [u64; 6])
        ensures
            forall|f: CacheField| cells@[#[trigger] f.spec_offset() / 8] == self.field(f),
    {
        [self.class, self.method, self.generation, self.hits, self.misses, self.site_id]
    }
}

// ----- the table -----

/// A call that was resolved ahead of time, and what it was resolved against.
#[derive(Debug)]
pub struct ResolvedDispatchEntry {
    pub call_site_id: u64,
    pub generic_name: String,
    pub recorded_generation: u64,
    pub resolved_method: String,
}

/// What a `ResolvedDispatchEntry` says.
#[verifier::ext_equal]
pub struct ResolvedView {
    pub call_site_id: u64,
    pub generic_name: Seq<char>,
    pub recorded_generation: u64,
    pub resolved_method: Seq<char>,
}

impl View for ResolvedDispatchEntry {
    type V = ResolvedView;

    open spec fn view(&self) -> ResolvedView {
        ResolvedView {
            call_site_id: self.call_site_id,
            generic_name: self.generic_name@,
            recorded_generation: self.recorded_generation,
            resolved_method: self.resolved_method@,
        }
    }
}

/// The entries as views.
pub open spec fn resolved_views(entries: Seq<ResolvedDispatchEntry>) -> Seq<ResolvedView> {
    Seq::new(entries.len(), |i: int| entries[i]@)
}

/// A callee that collects its trailing arguments.
pub struct RestCallee {
    pub name: String,
    /// How many arguments come before the collected ones.
    pub fixed: usize,
}

/// All generic functions, call-site caches and what call resolution noted.
pub struct GenericTable {
    generics: Vec<GenericFunction>,
    caches: Vec<CacheSlot>,
    rest_callees: Vec<RestCallee>,
    resolved: Vec<ResolvedDispatchEntry>,
}

/// What a `GenericTable` holds.
#[verifier::ext_equal]
pub struct GenericsView {
    pub generics: Seq<GenericView>,
    pub caches: Seq<CacheSlot>,
    pub rest_callees: Seq<(Seq<char>, usize)>,
    pub resolved: Seq<ResolvedView>,
}

impl View for GenericTable {
    type V = GenericsView;

    closed spec fn view(&self) -> GenericsView {
        GenericsView {
            generics: Seq::new(self.generics@.len(), |i: int| self.generics@[i]@),
            caches: self.caches@,
            rest_callees: Seq::new(
                self.rest_callees@.len(),
                |i: int| (self.rest_callees@[i].name@, self.rest_callees@[i].fixed),
            ),
            resolved: resolved_views(self.resolved@),
        }
    }
}

/// Position of the first generic named `name` at or after `i`.
pub open spec fn generic_from(gs: Seq<GenericView>, name: Seq<char>, i: int) -> Option<int>
    decreases gs.len() - i,
{
    if i < 0 || i >= gs.len() {
        None
    } else if gs[i].name == name {
        Some(i)
    } else {
        generic_from(gs, name, i + 1)
    }
}

/// Position of the first callee named `name` at or after `i`.
pub open spec fn callee_from(cs: Seq<(Seq<char>, usize)>, name: Seq<char>, i: int) -> Option<int>
    decreases cs.len() - i,
{
    if i < 0 || i >= cs.len() {
        None
    } else if cs[i].0 == name {
        Some(i)
    } else {
        callee_from(cs, name, i + 1)
    }
}

/// A generic without methods.
pub open spec fn empty_generic(name: Seq<char>) -> GenericView {
    GenericView {
        name,
        methods: seq![],
        generation: 1,
        cache_slots: seq![],
        sealed: false,
        sealed_domains: seq![],
    }
}

impl GenericsView {
    /// The generic named `name`.
    pub open spec fn find(self, name: Seq<char>) -> Option<int> {
        generic_from(self.generics, name, 0)
    }

    /// The fixed argument count of the callee named `name`.
    pub open spec fn rest_fixed(self, name: Seq<char>) -> Option<usize> {
        match callee_from(self.rest_callees, name, 0) {
            Some(i) => Some(self.rest_callees[i].1),
            None => None,
        }
    }

    /// The table with an empty generic named `name`, if there was none.
    pub open spec fn with_generic(self, name: Seq<char>) -> GenericsView {
        if self.find(name) is Some {
            self
        } else {
            GenericsView { generics: self.generics.push(empty_generic(name)), ..self }
        }
    }

    /// The table with one generic replaced.
    pub open spec fn replacing(self, i: int, g: GenericView) -> GenericsView {
        GenericsView { generics: self.generics.update(i, g), ..self }
    }

    /// The table after adding a method to the generic named `name`, which is
    /// created if need be.
    pub open spec fn with_method(self, name: Seq<char>, m: MethodView) -> GenericsView {
        let t = self.with_generic(name);
        let i = t.find(name)->0;
        t.replacing(i, t.generics[i].with_method(m))
    }

    /// Every generic has methods with distinct specialisers, and no two generics
    /// share a name.
    pub open spec fn wf(self) -> bool {
        &&& forall|i: int| 0 <= i < self.generics.len() ==> (#[trigger] self.generics[i]).wf()
        &&& forall|i: int, j: int|
            0 <= i < j < self.generics.len() ==> (#[trigger] self.generics[i]).name != (
            #[trigger] self.generics[j]).name
    }
}

/// A found position lies in the table and holds the name, and no earlier one
/// does.
pub proof fn generic_in_range(gs: Seq<GenericView>, name: Seq<char>, from: int)
    requires
        0 <= from,
    ensures
        generic_from(gs, name, from) matches Some(p) ==> from <= p < gs.len() && gs[p].name == name
            && forall|k: int| from <= k < p ==> (#[trigger] gs[k]).name != name,
        generic_from(gs, name, from) is None ==> forall|k: int|
            from <= k < gs.len() ==> (#[trigger] gs[k]).name != name,
    decreases gs.len() - from,
{
    if from < gs.len() && gs[from].name != name {
        generic_in_range(gs, name, from + 1);
    }
}

proof fn callee_in_range(cs: Seq<(Seq<char>, usize)>, name: Seq<char>, from: int)
    requires
        0 <= from,
    ensures
        callee_from(cs, name, from) matches Some(p) ==> from <= p < cs.len() && cs[p].0 == name
            && forall|k: int| from <= k < p ==> (#[trigger] cs[k]).0 != name,
        callee_from(cs, name, from) is None ==> forall|k: int|
            from <= k < cs.len() ==> (#[trigger] cs[k]).0 != name,
    decreases cs.len() - from,
{
    if from < cs.len() && cs[from].0 != name {
        callee_in_range(cs, name, from + 1);
    }
}

/// Asking for a generic by name finds it afterwards, keeps the others where they
/// are, and keeps the table well formed.
pub proof fn generic_stays_found(t: GenericsView, name: Seq<char>, other: Seq<char>)
    ensures
        t.with_generic(name).find(name) is Some,
        t.find(other) is Some ==> t.with_generic(name).find(other) == t.find(other),
        t.with_generic(name).with_generic(name) == t.with_generic(name),
        t.wf() ==> t.with_generic(name).wf(),
{
    let u = t.with_generic(name);
    generic_in_range(t.generics, name, 0);
    generic_in_range(t.generics, other, 0);
    generic_in_range(u.generics, name, 0);
    generic_in_range(u.generics, other, 0);
    if t.find(name) is None {
        assert(u.generics[t.generics.len() as int].name == name);
        if t.find(other) is Some {
            let p = t.find(other)->0;
            assert(u.generics[p] == t.generics[p]);
            let q = u.find(other)->0;
            if q < p {
                assert(u.generics[q] == t.generics[q]);
            }
        }
        if t.wf() {
            assert forall|i: int| 0 <= i < u.generics.len() implies (
            #[trigger] u.generics[i]).wf() by {
                if i < t.generics.len() {
                    assert(u.generics[i] == t.generics[i]);
                }
            }
            assert forall|i: int, j: int| 0 <= i < j < u.generics.len() implies (
            #[trigger] u.generics[i]).name != (#[trigger] u.generics[j]).name by {
                assert(u.generics[i] == t.generics[i]);
                if j < t.generics.len() {
                    assert(u.generics[j] == t.generics[j]);
                }
            }
        }
    }
}

/// Adding a method keeps the table well formed.
pub proof fn adding_keeps_generics_wf(t: GenericsView, name: Seq<char>, m: MethodView)
    requires
        t.wf(),
    ensures
        t.with_method(name, m).wf(),
{
    generic_stays_found(t, name, name);
    let u = t.with_generic(name);
    generic_in_range(u.generics, name, 0);
    let i = u.find(name)->0;
    crate::dispatch::adding_keeps_methods_distinct(u.generics[i], m);
    let v = t.with_method(name, m);
    assert forall|k: int| 0 <= k < v.generics.len() implies (#[trigger] v.generics[k]).wf()
        && v.generics[k].name == u.generics[k].name by {
        assert(u.generics[k].wf());
    }
}

/// A change of the method table shows in the generation, so a cache filled
/// before the change can be told apart.
pub proof fn changes_show_in_generation(g: GenericView, m: MethodView, s: Seq<ClassId>)
    ensures
        g.with_method(m).generation != g.generation,
        g.without_method(s).generation != g.generation,
{
}

impl GenericTable {
    /// A table without generics.
    pub fn new() -> (t: GenericTable)
        ensures
            t@ == (GenericsView {
                generics: seq![],
                caches: seq![],
                rest_callees: seq![],
                resolved: seq![],
            }),
            t@.wf(),
    {
        let t = GenericTable {
            generics: Vec::new(),
            caches: Vec::new(),
            rest_callees: Vec::new(),
            resolved: Vec::new(),
        };
        assert(t@.generics =~= seq![]);
        assert(t@.rest_callees =~= seq![]);
        assert(t@.resolved =~= seq![]);
        t
    }

    /// The number of generics.
    pub fn generic_count(&self) -> (n: usize)
        ensures
            n == self@.generics.len(),
    {
        self.generics.len()
    }

    /// A generic by position.
    pub fn generic(&self, i: usize) -> (g: &GenericFunction)
        requires
            i < self@.generics.len(),
        ensures
            g@ == self@.generics[i as int],
    {
        assert(self@.generics[i as int] == self.generics@[i as int]@);
        &self.generics[i]
    }

    /// Makes a cold cache for a call site and answers its handle.
    pub fn new_cache(&mut self, site_id: u64) -> (handle: u64)
        requires
            old(self)@.caches.len() < usize::MAX,
        ensures
            handle == old(self)@.caches.len() + 1,
            final(self)@ == (GenericsView {
                caches: old(self)@.caches.push(
                    CacheSlot {
                        class: 0,
                        method: 0,
                        generation: 0,
                        hits: 0,
                        misses: 0,
                        site_id,
                    },
                ),
                ..old(self)@
            }),
    {
        self.caches.push(CacheSlot::cold(site_id));
        assert(self@.generics =~= old(self)@.generics);
        assert(self@.rest_callees =~= old(self)@.rest_callees);
        self.caches.len() as u64
    }

    /// A call-site cache by handle.
    pub fn cache(&self, handle: u64) -> (slot: Option<CacheSlot>)
        ensures
            slot == if 0 < handle <= self@.caches.len() {
                Some(self@.caches[handle - 1])
            } else {
                None::<CacheSlot>
            },
    {
        if 0 < handle && handle <= self.caches.len() as u64 {
            Some(self.caches[(handle - 1) as usize])
        } else {
            None
        }
    }
}

/// The position of a generic by name; an empty one is created if there is none.
pub fn get_or_create_generic(generics: &mut GenericTable, name: &str) -> (i: usize)
    ensures
        final(generics)@ == old(generics)@.with_generic(name@),
        final(generics)@.find(name@) == Some(i as int),
        i < final(generics)@.generics.len(),
        old(generics)@.wf() ==> final(generics)@.wf(),
{
    proof {
        generic_stays_found(generics@, name@, name@);
        generic_in_range(generics@.generics, name@, 0);
    }
    if let Some(i) = find_generic(generics, name) {
        return i;
    }
    let i: usize = generics.generics.len();
    generics.generics.push(GenericFunction::new(name));
    proof {
        let u = old(generics)@.with_generic(name@);
        assert(generics@.generics =~= u.generics);
        assert(generics@ =~= u);
        generic_in_range(u.generics, name@, 0);
        let q = u.find(name@)->0;
        assert(u.generics[i as int].name == name@);
        if q < i {
            assert(u.generics[q] == old(generics)@.generics[q]);
        }
    }
    i
}

/// The position of a generic by name.
pub fn find_generic(generics: &GenericTable, name: &str) -> (i: Option<usize>)
    ensures
        i is Some <==> generics@.find(name@) is Some,
        i is Some ==> i->0 == generics@.find(name@)->0 && i->0 < generics@.generics.len(),
{
    let mut i: usize = 0;
    while i < generics.generics.len()
        invariant
            i <= generics.generics.len(),
            generics@.find(name@) == generic_from(generics@.generics, name@, i as int),
        decreases generics.generics.len() - i,
    {
        assert(generics@.generics[i as int] == generics.generics@[i as int]@);
        if same_text(generics.generics[i].name.as_str(), name) {
            return Some(i);
        }
        i += 1;
    }
    None
}

/// Whether a generic of this name has a method.
pub fn is_generic_defined(generics: &GenericTable, generic_name: &str) -> (b: bool)
    ensures
        b == match generics@.find(generic_name@) {
            Some(i) => generics@.generics[i].methods.len() > 0,
            None => false,
        },
{
    match find_generic(generics, generic_name) {
        Some(i) => generics.generic(i).methods.len() > 0,
        None => false,
    }
}

/// Notes that a callee collects the arguments after the first `fixed`. A later
/// note for the same name replaces an earlier one.
pub fn register_rest_callee(generics: &mut GenericTable, name: &str, fixed: usize)
    ensures
        final(generics)@.generics == old(generics)@.generics,
        final(generics)@.caches == old(generics)@.caches,
        final(generics)@.resolved == old(generics)@.resolved,
        forall|other: Seq<char>| #[trigger]
            final(generics)@.rest_fixed(other) == if other == name@ {
                Some(fixed)
            } else {
                old(generics)@.rest_fixed(other)
            },
{
    let ghost before = generics@.rest_callees;
    let mut i: usize = 0;
    while i < generics.rest_callees.len()
        invariant
            *generics == *old(generics),
            before == generics@.rest_callees,
            i <= generics.rest_callees.len(),
            callee_from(before, name@, 0) == callee_from(before, name@, i as int),
        decreases generics.rest_callees.len() - i,
    {
        assert(before[i as int].0 == generics.rest_callees@[i as int].name@);
        if same_text(generics.rest_callees[i].name.as_str(), name) {
            generics.rest_callees[i].fixed = fixed;
            proof {
                let after = generics@.rest_callees;
                assert(after =~= before.update(i as int, (name@, fixed)));
                assert(generics@.generics =~= old(generics)@.generics);
                assert forall|other: Seq<char>| #[trigger]
                    generics@.rest_fixed(other) == if other == name@ {
                        Some(fixed)
                    } else {
                        old(generics)@.rest_fixed(other)
                    } by {
                    callee_in_range(before, other, 0);
                    callee_in_range(after, other, 0);
                    callee_in_range(before, name@, 0);
                    assert forall|k: int| 0 <= k < before.len() implies (#[trigger] after[k]).0
                        == before[k].0 by {}
                    let p = callee_from(before, other, 0);
                    let q = callee_from(after, other, 0);
                    if p is Some {
                        assert(after[p->0].0 == other);
                        assert(q is Some);
                        assert(before[q->0].0 == other);
                        assert(p->0 <= q->0 && q->0 <= p->0);
                    } else if q is Some {
                        assert(before[q->0].0 == other);
                    }
                }
            }
            return;
        }
        i += 1;
    }
    generics.rest_callees.push(RestCallee { name: name.to_owned(), fixed });
    proof {
        let after = generics@.rest_callees;
        assert(after =~= before.push((name@, fixed)));
        assert(generics@.generics =~= old(generics)@.generics);
        assert forall|other: Seq<char>| #[trigger]
            generics@.rest_fixed(other) == if other == name@ {
                Some(fixed)
            } else {
                old(generics)@.rest_fixed(other)
            } by {
            callee_in_range(before, other, 0);
            callee_in_range(after, other, 0);
            callee_in_range(before, name@, 0);
            assert forall|k: int| 0 <= k < before.len() implies #[trigger] after[k]
                == before[k] by {}
            let n = before.len() as int;
            assert(after[n] == (name@, fixed));
            let p = callee_from(before, other, 0);
            let q = callee_from(after, other, 0);
            if p is Some {
                assert(after[p->0].0 == other);
                if q->0 < n {
                    assert(before[q->0].0 == other);
                }
            } else if q is Some && q->0 < n {
                assert(before[q->0].0 == other);
            }
        }
    }
}

/// How many arguments come before the collected ones, for a callee that
/// collects.
pub fn rest_callee_fixed_count(generics: &GenericTable, name: &str) -> (n: Option<usize>)
    ensures
        n == generics@.rest_fixed(name@),
{
    let ghost cs = generics@.rest_callees;
    let mut i: usize = 0;
    while i < generics.rest_callees.len()
        invariant
            cs == generics@.rest_callees,
            i <= generics.rest_callees.len(),
            callee_from(cs, name@, 0) == callee_from(cs, name@, i as int),
        decreases generics.rest_callees.len() - i,
    {
        assert(cs[i as int] == (
            generics.rest_callees@[i as int].name@,
            generics.rest_callees@[i as int].fixed,
        ));
        if same_text(generics.rest_callees[i].name.as_str(), name) {
            return Some(generics.rest_callees[i].fixed);
        }
        i += 1;
    }
    None
}

/// Whether some method of the table has this body symbol and code.
pub open spec fn has_body(t: GenericsView, name: Seq<char>, body: u64) -> bool {
    exists|i: int, j: int|
        0 <= i < t.generics.len() && 0 <= j < t.generics[i].methods.len()
            && (#[trigger] t.generics[i].methods[j]).body_fn_name == name
            && t.generics[i].methods[j].body_fn_ptr == body
}

/// The code of a method by the symbol of its body.
pub fn find_method_body_ptr(generics: &GenericTable, name: &str) -> (body: Option<u64>)
    ensures
        body is Some ==> has_body(generics@, name@, body->0),
        body is None ==> forall|b: u64| !has_body(generics@, name@, b),
{
    let mut i: usize = 0;
    while i < generics.generics.len()
        invariant
            i <= generics.generics.len(),
            forall|a: int, b: int|
                0 <= a < i && 0 <= b < generics@.generics[a].methods.len() ==> (
                #[trigger] generics@.generics[a].methods[b]).body_fn_name != name@,
        decreases generics.generics.len() - i,
    {
        let g = generics.generic(i);
        let mut j: usize = 0;
        while j < g.methods.len()
            invariant
                i < generics.generics.len(),
                i < generics@.generics.len(),
                g@ == generics@.generics[i as int],
                j <= g.methods.len(),
                forall|b: int|
                    0 <= b < j ==> (#[trigger] g@.methods[b]).body_fn_name != name@,
            decreases g.methods.len() - j,
        {
            assert(g@.methods[j as int] == g.methods@[j as int]@);
            if same_text(g.methods[j].body_fn_name.as_str(), name) {
                assert(generics@.generics[i as int].methods[j as int].body_fn_name == name@);
                return Some(g.methods[j].body_fn_ptr);
            }
            j += 1;
        }
        i += 1;
    }
    None
}

/// The positions of all generics.
pub fn for_each_generic(generics: &GenericTable) -> (positions: Vec<usize>)
    ensures
        positions@.len() == generics@.generics.len(),
        forall|i: int| 0 <= i < positions@.len() ==> #[trigger] positions@[i] == i,
{
    let mut positions: Vec<usize> = Vec::new();
    let mut i: usize = 0;
    while i < generics.generics.len()
        invariant
            i <= generics.generics.len(),
            positions@.len() == i,
            forall|k: int| 0 <= k < i ==> #[trigger] positions@[k] == k,
        decreases generics.generics.len() - i,
    {
        positions.push(i);
        i += 1;
    }
    positions
}

/// A receiver followed by `<object>` up to the parameter count.
pub open spec fn padded(receiver: ClassId, param_count: int) -> Seq<ClassId> {
    Seq::new(
        if param_count > 1 {
            param_count as nat
        } else {
            1
        },
        |i: int|
            if i == 0 {
                receiver
            } else {
                ClassId(ClassId::OBJECT)
            },
    )
}

/// Adds a method that is specialised on its receiver alone.
pub fn add_method(
    generics: &mut GenericTable,
    generic_name: &str,
    receiver_class: ClassId,
    body_fn_ptr: u64,
    param_count: usize,
)
    ensures
        final(generics)@ == old(generics)@.with_method(
            generic_name@,
            MethodView {
                specialisers: padded(receiver_class, param_count as int),
                body_fn_ptr,
                param_count,
                body_fn_name: ""@,
            },
        ),
        old(generics)@.wf() ==> final(generics)@.wf(),
{
    let mut specialisers: Vec<ClassId> = Vec::new();
    specialisers.push(receiver_class);
    while specialisers.len() < param_count
        invariant
            1 <= specialisers@.len() <= (if param_count > 1 {
                param_count
            } else {
                1usize
            }),
            forall|k: int|
                0 <= k < specialisers@.len() ==> #[trigger] specialisers@[k] == if k == 0 {
                    receiver_class
                } else {
                    ClassId(ClassId::OBJECT)
                },
        decreases param_count - specialisers.len(),
    {
        specialisers.push(ClassId(ClassId::OBJECT));
    }
    assert(specialisers@ =~= padded(receiver_class, param_count as int));
    add_method_full(generics, generic_name, specialisers, body_fn_ptr, param_count);
}

/// Adds a method with one specialiser per required parameter.
pub fn add_method_full(
    generics: &mut GenericTable,
    generic_name: &str,
    specialisers: Vec<ClassId>,
    body_fn_ptr: u64,
    param_count: usize,
)
    ensures
        final(generics)@ == old(generics)@.with_method(
            generic_name@,
            MethodView {
                specialisers: specialisers@,
                body_fn_ptr,
                param_count,
                body_fn_name: ""@,
            },
        ),
        old(generics)@.wf() ==> final(generics)@.wf(),
{
    add_method_named(generics, generic_name, specialisers, body_fn_ptr, param_count, "");
}

/// Adds a method together with the symbol of its body.
pub fn add_method_named(
    generics: &mut GenericTable,
    generic_name: &str,
    specialisers: Vec<ClassId>,
    body_fn_ptr: u64,
    param_count: usize,
    body_fn_name: &str,
)
    ensures
        final(generics)@ == old(generics)@.with_method(
            generic_name@,
            MethodView {
                specialisers: specialisers@,
                body_fn_ptr,
                param_count,
                body_fn_name: body_fn_name@,
            },
        ),
        old(generics)@.wf() ==> final(generics)@.wf(),
{
    let i = get_or_create_generic(generics, generic_name);
    let m = Method {
        specialisers,
        body_fn_ptr,
        param_count,
        body_fn_name: body_fn_name.to_owned(),
    };
    proof {
        if old(generics)@.wf() {
            adding_keeps_generics_wf(old(generics)@, generic_name@, m@);
        }
    }
    let ghost u = generics@;
    assert(u.generics[i as int] == generics.generics@[i as int]@);
    generics.generics[i].add_method(m);
    assert(generics@.generics =~= u.generics.update(
        i as int,
        u.generics[i as int].with_method(m@),
    ));
    assert(generics@.rest_callees =~= u.rest_callees);
}

/// Adds a method unless sealing forbids it. The generic is created either way.
pub fn try_add_method_full(
    generics: &mut GenericTable,
    table: &ClassTable,
    generic_name: &str,
    specialisers: Vec<ClassId>,
    body_fn_ptr: u64,
    param_count: usize,
) -> (r: Result<(), MethodTableError>)
    ensures
        ({
            let u = old(generics)@.with_generic(generic_name@);
            let i = u.find(generic_name@)->0;
            let g = u.generics[i];
            let m = MethodView {
                specialisers: specialisers@,
                body_fn_ptr,
                param_count,
                body_fn_name: seq![],
            };
            if g.sealed {
                &&& r is Err
                &&& r->Err_0 matches MethodTableError::SealedGenericClosed { generic }
                    && generic@ == g.name
                &&& final(generics)@ == u
            } else {
                match violated_from(table@, g.sealed_domains, specialisers@, 0) {
                    Some(k) => {
                        &&& r is Err
                        &&& r->Err_0 matches MethodTableError::SealedDomainViolated {
                            generic,
                            domain,
                            specialisers: refused,
                        } && generic@ == g.name && domain@ == g.sealed_domains[k] && refused@
                            == specialisers@
                        &&& final(generics)@ == u
                    },
                    None => r is Ok && final(generics)@ == old(generics)@.with_method(
                        generic_name@,
                        m,
                    ),
                }
            }
        }),
        old(generics)@.wf() ==> final(generics)@.wf(),
{
    let i = get_or_create_generic(generics, generic_name);
    let m = Method { specialisers, body_fn_ptr, param_count, body_fn_name: String::new() };
    proof {
        if old(generics)@.wf() {
            adding_keeps_generics_wf(old(generics)@, generic_name@, m@);
        }
        assert(m@.body_fn_name =~= seq![]);
    }
    let ghost u = generics@;
    assert(u.generics[i as int] == generics.generics@[i as int]@);
    let r = generics.generics[i].try_add_method(table, m);
    proof {
        let g = generics.generics@[i as int]@;
        assert(generics@.generics =~= u.generics.update(i as int, g));
        assert(generics@.rest_callees =~= u.rest_callees);
        if r is Err {
            assert(u.generics.update(i as int, g) =~= u.generics);
        }
    }
    r
}

/// Removes the method of a generic with exactly these specialisers.
pub fn remove_method(generics: &mut GenericTable, generic_name: &str, specialisers: &Vec<ClassId>)
    ensures
        final(generics)@ == match old(generics)@.find(generic_name@) {
            Some(i) => old(generics)@.replacing(
                i,
                old(generics)@.generics[i].without_method(specialisers@),
            ),
            None => old(generics)@,
        },
        old(generics)@.wf() ==> final(generics)@.wf(),
{
    if let Some(i) = find_generic(generics, generic_name) {
        let ghost u = generics@;
        assert(u.generics[i as int] == generics.generics@[i as int]@);
        generics.generics[i].remove_method(specialisers);
        proof {
            let g = u.generics[i as int].without_method(specialisers@);
            assert(generics@.generics =~= u.generics.update(i as int, g));
            assert(generics@.rest_callees =~= u.rest_callees);
            if u.wf() {
                assert(u.generics[i as int].wf());
                assert forall|k: int| 0 <= k < u.generics.len() implies (
                #[trigger] generics@.generics[k]).wf() && generics@.generics[k].name
                    == u.generics[k].name by {
                    assert(u.generics[k].wf());
                }
            }
        }
    }
}

/// Picks the method of a named generic for a receiver class, by first
/// specialiser alone.
pub fn lookup_method_by_receiver(
    generics: &GenericTable,
    table: &ClassTable,
    generic_name: &str,
    receiver_class: ClassId,
) -> (r: Option<MethodPtr>)
    ensures
        match generics@.find(generic_name@) {
            None => r is None,
            Some(i) => {
                let ms = generics@.generics[i].methods;
                &&& r is None <==> forall|j: int|
                    0 <= j < ms.len() ==> !takes_receiver(table@, #[trigger] ms[j], receiver_class)
                &&& r is Some ==> exists|k: int|
                    #[trigger] closest(table@, ms, receiver_class, k) && (r->0).body_fn_ptr
                        == ms[k].body_fn_ptr && (r->0).param_count == ms[k].param_count
            },
        },
{
    match find_generic(generics, generic_name) {
        None => None,
        Some(i) => method_for_receiver(table, generics.generic(i), receiver_class),
    }
}

/// The code of the `initialize` method for a class.
pub fn find_initialize_method(
    generics: &GenericTable,
    table: &ClassTable,
    receiver_class: ClassId,
) -> (r: Option<u64>)
    ensures
        match generics@.find("initialize"@) {
            None => r is None,
            Some(i) => {
                let ms = generics@.generics[i].methods;
                &&& r is None <==> forall|j: int|
                    0 <= j < ms.len() ==> !takes_receiver(table@, #[trigger] ms[j], receiver_class)
                &&& r is Some ==> exists|k: int|
                    #[trigger] closest(table@, ms, receiver_class, k) && r->0
                        == ms[k].body_fn_ptr
            },
        },
{
    match lookup_method_by_receiver(generics, table, "initialize", receiver_class) {
        Some(m) => Some(m.body_fn_ptr),
        None => None,
    }
}

// ----- classification -----

/// The class of a word: `<integer>` for a fixnum, else that of the object it
/// points at.
pub open spec fn class_of_word(h: Seq<ObjectView>, w: Word) -> ClassId {
    if w.spec_is_fixnum() {
        ClassId(ClassId::INTEGER)
    } else {
        match class_at(h, w) {
            Some(c) => c,
            None => ClassId(ClassId::OBJECT),
        }
    }
}

/// The class of a word.
pub fn word_class_id(heap: &Heap, w: Word) -> (c: ClassId)
    ensures
        c == class_of_word(heap@, w),
{
    if w.is_fixnum() {
        return ClassId(ClassId::INTEGER);
    }
    match heap.class_of(w) {
        Some(c) => c,
        None => ClassId(ClassId::OBJECT),
    }
}

/// The text of a byte string; absent for any other word, and for bytes that are
/// not UTF-8.
pub open spec fn held_text(h: Seq<ObjectView>, w: Word) -> Option<Seq<char>> {
    match object_at(h, w) {
        Some(o) => if o.class == ClassId(ClassId::BYTE_STRING) && valid_utf8(o.bytes) {
            Some(decode_utf8(o.bytes))
        } else {
            None
        },
        None => None,
    }
}

/// The text of a byte string; absent for any other word, and for bytes that are
/// not UTF-8.
pub fn decode_byte_string_to_string(heap: &Heap, w: Word) -> (s: Option<String>)
    ensures
        s is Some <==> held_text(heap@, w) is Some,
        s is Some ==> s->0@ == held_text(heap@, w)->0,
{
    match heap.get(w) {
        Some(o) => {
            if o.class == ClassId(ClassId::BYTE_STRING) {
                match text_from_utf8(o.bytes.as_slice()) {
                    Some(text) => {
                        proof {
                            encode_utf8_decode_utf8(text@);
                        }
                        Some(text.to_owned())
                    },
                    None => None,
                }
            } else {
                None
            }
        },
        None => None,
    }
}

/// Whether a byte string names a generic that has a method.
pub fn nod_is_generic_defined(generics: &GenericTable, heap: &Heap, name_raw: u64) -> (r: u64)
    ensures
        r == bool_word(
            match held_text(heap@, Word { raw: name_raw }) {
                Some(name) => match generics@.find(name) {
                    Some(i) => generics@.generics[i].methods.len() > 0,
                    None => false,
                },
                None => false,
            },
        ).raw,
{
    match decode_byte_string_to_string(heap, Word::from_raw(name_raw)) {
        Some(name) => boolean_word(is_generic_defined(generics, name.as_str())).raw(),
        None => boolean_word(false).raw(),
    }
}

/// Whether a byte string names a class.
pub fn nod_is_class_defined(table: &ClassTable, heap: &Heap, name_raw: u64) -> (r: u64)
    ensures
        r == bool_word(
            match held_text(heap@, Word { raw: name_raw }) {
                Some(name) => table@.named(name) is Some,
                None => false,
            },
        ).raw,
{
    match decode_byte_string_to_string(heap, Word::from_raw(name_raw)) {
        Some(name) => boolean_word(table.find_by_name(name.as_str()).is_some()).raw(),
        None => boolean_word(false).raw(),
    }
}

// ----- the next-method chain -----

/// The dispatch of one running method: its arguments, and the applicable
/// methods that are less specific than the one that runs.
pub struct MethodChainFrame {
    pub args: Vec<u64>,
    pub remaining_methods: Vec<u64>,
}

/// What a `MethodChainFrame` holds.
#[verifier::ext_equal]
pub struct FrameView {
    pub args: Seq<u64>,
    pub remaining_methods: Seq<u64>,
}

impl View for MethodChainFrame {
    type V = FrameView;

    open spec fn view(&self) -> FrameView {
        FrameView { args: self.args@, remaining_methods: self.remaining_methods@ }
    }
}

/// The running dispatches of one thread, innermost last.
pub struct MethodChain {
    frames: Vec<MethodChainFrame>,
}

impl View for MethodChain {
    type V = Seq<FrameView>;

    closed spec fn view(&self) -> Seq<FrameView> {
        Seq::new(self.frames@.len(), |i: int| self.frames@[i]@)
    }
}

impl MethodChain {
    /// No running dispatch.
    pub fn new() -> (c: MethodChain)
        ensures
            c@ == Seq::<FrameView>::empty(),
    {
        let c = MethodChain { frames: Vec::new() };
        assert(c@ =~= Seq::<FrameView>::empty());
        c
    }

    /// The number of running dispatches.
    pub fn depth(&self) -> (n: usize)
        ensures
            n == self@.len(),
    {
        self.frames.len()
    }
}

/// Enters a dispatch.
pub fn push_method_chain_frame(chain: &mut MethodChain, frame: MethodChainFrame)
    ensures
        final(chain)@ == old(chain)@.push(frame@),
{
    chain.frames.push(frame);
    assert(chain@ =~= old(chain)@.push(frame@));
}

/// Leaves the innermost dispatch, if there is one.
pub fn pop_method_chain_frame(chain: &mut MethodChain) -> (frame: Option<MethodChainFrame>)
    ensures
        old(chain)@.len() == 0 ==> frame is None && final(chain)@ == old(chain)@,
        old(chain)@.len() > 0 ==> frame is Some && frame->0@ == old(chain)@.last()
            && final(chain)@ == old(chain)@.drop_last(),
{
    let r = chain.frames.pop();
    assert(chain@ =~= if old(chain)@.len() == 0 {
        old(chain)@
    } else {
        old(chain)@.drop_last()
    });
    r
}

/// Whether the running method has a next method.
pub open spec fn next_available(chain: Seq<FrameView>) -> bool {
    chain.len() > 0 && chain.last().remaining_methods.len() > 0
}

/// The chain after the innermost dispatch moved on to its next method.
pub open spec fn moved_on(chain: Seq<FrameView>) -> Seq<FrameView> {
    chain.update(
        chain.len() - 1,
        FrameView {
            remaining_methods: chain.last().remaining_methods.drop_first(),
            ..chain.last()
        },
    )
}

/// Whether the running method has a next method.
pub fn has_next_method(chain: &MethodChain) -> (b: bool)
    ensures
        b == next_available(chain@),
{
    let n: usize = chain.frames.len();
    if n == 0 {
        return false;
    }
    assert(chain@.last() == chain.frames@[n - 1]@);
    chain.frames[n - 1].remaining_methods.len() > 0
}

/// Takes the next method of the innermost dispatch, with the arguments to call
/// it with; absent when there is none.
pub fn nod_next_method(chain: &mut MethodChain) -> (call: Option<(u64, Vec<u64>)>)
    ensures
        call is Some <==> next_available(old(chain)@),
        call is Some ==> (call->0).0 == old(chain)@.last().remaining_methods[0] && (call->0).1@
            == old(chain)@.last().args && final(chain)@ == moved_on(old(chain)@),
        call is None ==> final(chain)@ == old(chain)@,
{
    if !has_next_method(chain) {
        return None;
    }
    let n: usize = chain.frames.len();
    assert(chain@.last() == chain.frames@[n - 1]@);
    let m = chain.frames[n - 1].remaining_methods.remove(0);
    let args = chain.frames[n - 1].args.clone();
    proof {
        let before = old(chain)@;
        assert(before.last().remaining_methods.remove(0)
            =~= before.last().remaining_methods.drop_first());
        assert(chain@ =~~= moved_on(before));
    }
    Some((m, args))
}

/// The chain after `n` steps to a next method.
pub open spec fn moved_on_by(chain: Seq<FrameView>, n: nat) -> Seq<FrameView>
    decreases n,
{
    if n == 0 {
        chain
    } else {
        moved_on(moved_on_by(chain, (n - 1) as nat))
    }
}

/// After entering a dispatch, the steps to next methods go through the
/// remaining methods in order and then run out.
pub proof fn next_methods_in_order(chain: Seq<FrameView>, frame: FrameView, n: nat)
    requires
        n <= frame.remaining_methods.len(),
    ensures
        moved_on_by(chain.push(frame), n) == chain.push(
            FrameView { remaining_methods: frame.remaining_methods.skip(n as int), ..frame },
        ),
        next_available(moved_on_by(chain.push(frame), n)) <==> n < frame.remaining_methods.len(),
        n < frame.remaining_methods.len() ==> moved_on_by(
            chain.push(frame),
            n,
        ).last().remaining_methods[0] == frame.remaining_methods[n as int],
    decreases n,
{
    if n > 0 {
        next_methods_in_order(chain, frame, (n - 1) as nat);
        let before = moved_on_by(chain.push(frame), (n - 1) as nat);
        assert(frame.remaining_methods.skip(n - 1).drop_first()
            =~= frame.remaining_methods.skip(n as int));
        assert(moved_on(before) =~= chain.push(
            FrameView { remaining_methods: frame.remaining_methods.skip(n as int), ..frame },
        ));
    } else {
        assert(frame.remaining_methods.skip(0) =~= frame.remaining_methods);
    }
}

/// What is said when `next-method` has nowhere to go.
pub fn no_next_method_message() -> (s: &'static str)
    ensures
        s@
            == "dispatch: <no-next-method-error>: next-method() called with no remaining methods; Sprint 19 will surface this as a signalled condition"@,
{
    "dispatch: <no-next-method-error>: next-method() called with no remaining methods; Sprint 19 will surface this as a signalled condition"
}

/// Whether the running method has a next method, as a word.
pub fn nod_has_next_method(chain: &MethodChain) -> (r: u64)
    ensures
        r == bool_word(next_available(chain@)).raw,
{
    boolean_word(has_next_method(chain)).raw()
}

/// Leaves every dispatch.
pub fn _reset_method_chain_stack_for_tests(chain: &mut MethodChain)
    ensures
        final(chain)@ == Seq::<FrameView>::empty(),
{
    chain.frames.clear();
    assert(chain@ =~= Seq::<FrameView>::empty());
}

/// Enters a dispatch that was resolved ahead of time.
pub fn nod_push_sealed_chain_frame(chain: &mut MethodChain, args: Vec<u64>, methods: Vec<u64>)
    ensures
        final(chain)@ == old(chain)@.push(
            FrameView { args: args@, remaining_methods: methods@ },
        ),
{
    push_method_chain_frame(chain, MethodChainFrame { args, remaining_methods: methods });
}

/// Leaves a dispatch that was resolved ahead of time; nothing happens when there
/// is none.
pub fn nod_pop_sealed_chain_frame(chain: &mut MethodChain)
    ensures
        final(chain)@ == if old(chain)@.len() == 0 {
            old(chain)@
        } else {
            old(chain)@.drop_last()
        },
{
    let _ = pop_method_chain_frame(chain);
}

// ----- dispatching a call -----

/// What a dispatched call comes to.
pub enum DispatchAction {
    /// Call this method. A frame that was entered is left when the call ends.
    Call { method: u64, args: Vec<u64>, frame_pushed: bool },
    /// No method of the named generic takes arguments of these classes.
    NoApplicableMethods { generic: String, arg_class_names: Vec<String> },
}

/// The number of arguments of a call; at most eight are passed.
pub open spec fn arg_count(arity: u64) -> int {
    if arity < 8 {
        arity as int
    } else {
        8
    }
}

/// The classes of the arguments of a call.
pub open spec fn arg_classes_of(h: Seq<ObjectView>, args: Seq<u64>) -> Seq<ClassId> {
    Seq::new(args.len(), |i: int| class_of_word(h, Word { raw: args[i] }))
}

/// The cache of a call site after a full lookup.
pub open spec fn refilled(
    slot: CacheSlot,
    classes: Seq<ClassId>,
    chain: Seq<MethodView>,
    generation: u64,
) -> CacheSlot {
    let missed = CacheSlot { misses: next_generation(slot.misses), ..slot };
    if chain.len() > 0 && classes.len() > 0 {
        CacheSlot {
            class: classes[0].0 as u64,
            method: chain[0].body_fn_ptr,
            generation,
            ..missed
        }
    } else {
        missed
    }
}

/// The running dispatches once a call has been dispatched: a frame is entered
/// when there are further applicable methods.
pub open spec fn chain_entered(
    found: Seq<MethodView>,
    args: Seq<u64>,
    chain: Seq<FrameView>,
) -> Seq<FrameView> {
    if found.len() > 1 {
        chain.push(FrameView { args, remaining_methods: bodies(found).drop_first() })
    } else {
        chain
    }
}

/// The action is to call the most specific method with the arguments, or, when
/// there is none, to report the classes.
pub open spec fn action_fits(
    t: TableView,
    g: GenericView,
    found: Seq<MethodView>,
    classes: Seq<ClassId>,
    args: Seq<u64>,
    action: DispatchAction,
) -> bool {
    match action {
        DispatchAction::Call { method, args: passed, frame_pushed } => {
            &&& found.len() > 0
            &&& method == found[0].body_fn_ptr
            &&& passed@ == args
            &&& frame_pushed == (found.len() > 1)
        },
        DispatchAction::NoApplicableMethods { generic: name, arg_class_names } => {
            &&& found.len() == 0
            &&& name@ == g.name
            &&& text_views(arg_class_names@) == shown_names(t, classes)
        },
    }
}

/// A list of addresses with one noted.
pub open spec fn noted(slots: Seq<u64>, slot: u64) -> Seq<u64> {
    if slots.contains(slot) {
        slots
    } else {
        slots.push(slot)
    }
}

/// Dispatches a call: selects the method, refills the cache of the call site if
/// it has one, and enters a frame if there are further applicable methods.
pub fn nod_dispatch(
    generics: &mut GenericTable,
    table: &ClassTable,
    heap: &Heap,
    chain: &mut MethodChain,
    generic: usize,
    cache: u64,
    arity: u64,
    raw_args: [u64; 8],
) -> (action: DispatchAction)
    requires
        generic < old(generics)@.generics.len(),
        cache <= old(generics)@.caches.len(),
        ({
            let classes = arg_classes_of(heap@, raw_args@.take(arg_count(arity)));
            !ambiguous(
                table@,
                applicable_chain(table@, old(generics)@.generics[generic as int].methods, classes),
                classes,
            )
        }),
    ensures
        ({
            let g = old(generics)@.generics[generic as int];
            let args = raw_args@.take(arg_count(arity));
            let classes = arg_classes_of(heap@, args);
            let found = applicable_chain(table@, g.methods, classes);
            &&& final(generics)@ == if cache == 0 {
                old(generics)@
            } else {
                GenericsView {
                    generics: old(generics)@.generics.update(
                        generic as int,
                        GenericView { cache_slots: noted(g.cache_slots, cache), ..g },
                    ),
                    caches: old(generics)@.caches.update(
                        cache - 1,
                        refilled(old(generics)@.caches[cache - 1], classes, found, g.generation),
                    ),
                    ..old(generics)@
                }
            }
            &&& final(chain)@ == chain_entered(found, args, old(chain)@)
            &&& action_fits(table@, g, found, classes, args, action)
        }),
{
    let ghost before = generics@;
    let ghost g = before.generics[generic as int];
    let count: usize = if arity < 8 {
        arity as usize
    } else {
        8
    };
    let mut args: Vec<u64> = Vec::new();
    let mut arg_classes: Vec<ClassId> = Vec::new();
    let mut i: usize = 0;
    while i < count
        invariant
            i <= count <= 8,
            args@.len() == i,
            arg_classes@.len() == i,
            forall|k: int| 0 <= k < i ==> #[trigger] args@[k] == raw_args@[k],
            forall|k: int|
                0 <= k < i ==> #[trigger] arg_classes@[k] == class_of_word(
                    heap@,
                    Word { raw: raw_args@[k] },
                ),
        decreases count - i,
    {
        args.push(raw_args[i]);
        arg_classes.push(word_class_id(heap, Word::from_raw(raw_args[i])));
        i += 1;
    }
    let ghost classes = arg_classes_of(heap@, raw_args@.take(arg_count(arity)));
    proof {
        assert(args@ =~= raw_args@.take(arg_count(arity)));
        assert(arg_classes@ =~= classes);
        assert(before.generics[generic as int] == generics.generics@[generic as int]@);
    }
    let ghost found = applicable_chain(table@, g.methods, classes);
    assert(cache <= generics.caches.len());
    if cache != 0 {
        let k: usize = (cache - 1) as usize;
        let mut slot = generics.caches[k];
        slot.misses = slot.misses.wrapping_add(1);
        generics.caches[k] = slot;
        generics.generics[generic].register_cache_slot(cache);
    }
    let ghost noted_generic = if cache == 0 {
        g
    } else {
        GenericView { cache_slots: noted(g.cache_slots, cache), ..g }
    };
    proof {
        assert(generics.generics@[generic as int]@ =~= noted_generic);
        assert(noted_generic.methods == g.methods);
    }
    let selected = lookup_applicable_methods(table, &generics.generics[generic], &arg_classes);
    let methods = match selected {
        None => {
            let arg_class_names = class_names(table, &arg_classes);
            proof {
                if cache != 0 {
                    assert(generics@.generics =~= before.generics.update(
                        generic as int,
                        noted_generic,
                    ));
                    assert(generics@.caches =~= before.caches.update(
                        cache - 1,
                        refilled(before.caches[cache - 1], classes, found, g.generation),
                    ));
                    assert(generics@.rest_callees =~= before.rest_callees);
                }
            }
            return DispatchAction::NoApplicableMethods {
                generic: generics.generics[generic].name.clone(),
                arg_class_names,
            };
        },
        Some(m) => m,
    };
    let method = methods[0];
    if cache != 0 && arg_classes.len() > 0 {
        let k: usize = (cache - 1) as usize;
        let mut slot = generics.caches[k];
        slot.class = arg_classes[0].0 as u64;
        slot.method = method;
        slot.generation = generics.generics[generic].generation();
        generics.caches[k] = slot;
    }
    proof {
        if cache != 0 {
            assert(generics@.generics =~= before.generics.update(generic as int, noted_generic));
            assert(generics@.caches =~= before.caches.update(
                cache - 1,
                refilled(before.caches[cache - 1], classes, found, g.generation),
            ));
            assert(generics@.rest_callees =~= before.rest_callees);
        }
    }
    let frame_pushed = methods.len() > 1;
    if frame_pushed {
        let mut remaining_methods = methods;
        let _ = remaining_methods.remove(0);
        assert(remaining_methods@ =~= bodies(found).drop_first());
        push_method_chain_frame(
            chain,
            MethodChainFrame { args: args.clone(), remaining_methods },
        );
    }
    DispatchAction::Call { method, args, frame_pushed }
}

/// Adds a method to a generic by position. The specialisers are the first
/// `arity` class ids, at most eight.
pub fn nod_add_method(
    generics: &mut GenericTable,
    generic: usize,
    arity: u64,
    raw_specs: [u64; 8],
    body_fn_ptr: u64,
) -> (r: u64)
    requires
        generic < old(generics)@.generics.len(),
    ensures
        r == 0,
        final(generics)@ == old(generics)@.replacing(
            generic as int,
            old(generics)@.generics[generic as int].with_method(
                MethodView {
                    specialisers: Seq::new(
                        arg_count(arity) as nat,
                        |i: int| ClassId((raw_specs@[i] % 0x1_0000_0000) as u32),
                    ),
                    body_fn_ptr,
                    param_count: arg_count(arity) as usize,
                    body_fn_name: seq![],
                },
            ),
        ),
{
    let count: usize = if arity < 8 {
        arity as usize
    } else {
        8
    };
    let mut specialisers: Vec<ClassId> = Vec::new();
    let mut i: usize = 0;
    while i < count
        invariant
            i <= count <= 8,
            specialisers@.len() == i,
            forall|k: int|
                0 <= k < i ==> #[trigger] specialisers@[k] == ClassId(
                    (raw_specs@[k] % 0x1_0000_0000) as u32,
                ),
        decreases count - i,
    {
        specialisers.push(ClassId((raw_specs[i] % 0x1_0000_0000) as u32));
        i += 1;
    }
    let m = Method {
        specialisers,
        body_fn_ptr,
        param_count: count,
        body_fn_name: String::new(),
    };
    let ghost u = generics@;
    proof {
        assert(m@.specialisers =~= Seq::new(
            arg_count(arity) as nat,
            |i: int| ClassId((raw_specs@[i] % 0x1_0000_0000) as u32),
        ));
        assert(m@.body_fn_name =~= seq![]);
        assert(u.generics[generic as int] == generics.generics@[generic as int]@);
    }
    generics.generics[generic].add_method(m);
    proof {
        assert(generics@.generics =~= u.generics.update(
            generic as int,
            u.generics[generic as int].with_method(m@),
        ));
        assert(generics@.rest_callees =~= u.rest_callees);
    }
    0
}

/// Drops every generic and resolution note; the call-site caches and the notes on
/// collecting callees stay.
pub fn _reset_for_tests(generics: &mut GenericTable)
    ensures
        final(generics)@ == (GenericsView {
            generics: seq![],
            resolved: seq![],
            ..old(generics)@
        }),
{
    generics.generics.clear();
    generics.resolved.clear();
    assert(generics@.generics =~= seq![]);
    assert(generics@.resolved =~= seq![]);
    assert(generics@.rest_callees =~= old(generics)@.rest_callees);
}

/// Notes a call that was resolved ahead of time.
pub fn record_resolved_dispatch(generics: &mut GenericTable, entry: ResolvedDispatchEntry)
    ensures
        final(generics)@ == (GenericsView {
            resolved: old(generics)@.resolved.push(entry@),
            ..old(generics)@
        }),
{
    generics.resolved.push(entry);
    assert(generics@.resolved =~= old(generics)@.resolved.push(entry@));
    assert(generics@.generics =~= old(generics)@.generics);
    assert(generics@.rest_callees =~= old(generics)@.rest_callees);
}

/// The calls that were resolved ahead of time, in the order of the notes.
pub fn resolved_dispatch_snapshot(generics: &GenericTable) -> (entries: Vec<ResolvedDispatchEntry>)
    ensures
        resolved_views(entries@) == generics@.resolved,
{
    let mut entries: Vec<ResolvedDispatchEntry> = Vec::new();
    let mut i: usize = 0;
    while i < generics.resolved.len()
        invariant
            i <= generics.resolved.len(),
            entries@.len() == i,
            forall|k: int| 0 <= k < i ==> (#[trigger] entries@[k])@ == generics.resolved@[k]@,
        decreases generics.resolved.len() - i,
    {
        let e = &generics.resolved[i];
        entries.push(
            ResolvedDispatchEntry {
                call_site_id: e.call_site_id,
                generic_name: e.generic_name.clone(),
                recorded_generation: e.recorded_generation,
                resolved_method: e.resolved_method.clone(),
            },
        );
        i += 1;
    }
    assert(resolved_views(entries@) =~= generics@.resolved);
    entries
}

/// Dispatches a call by generic name, given as a byte string. The generic is
/// created if need be.
fn dispatch_by_name(
    generics: &mut GenericTable,
    table: &ClassTable,
    heap: &Heap,
    chain: &mut MethodChain,
    name_raw: u64,
    arity: u64,
    raw_args: [u64; 8],
) -> (action: DispatchAction)
    requires
        held_text(heap@, Word { raw: name_raw }) is Some,
        clear_by_name(
            table@,
            heap@,
            old(generics)@,
            held_text(heap@, Word { raw: name_raw })->0,
            raw_args@.take(arg_count(arity)),
        ),
    ensures
        dispatched_by_name(
            table@,
            heap@,
            old(generics)@,
            final(generics)@,
            old(chain)@,
            final(chain)@,
            held_text(heap@, Word { raw: name_raw })->0,
            raw_args@.take(arg_count(arity)),
            action,
        ),
{
    let name = decode_byte_string_to_string(heap, Word::from_raw(name_raw)).unwrap();
    let i = get_or_create_generic(generics, name.as_str());
    nod_dispatch(generics, table, heap, chain, i, 0, arity, raw_args)
}

/// A call by name is not ambiguous.
pub open spec fn clear_by_name(
    t: TableView,
    h: Seq<ObjectView>,
    generics: GenericsView,
    name: Seq<char>,
    args: Seq<u64>,
) -> bool {
    let u = generics.with_generic(name);
    let classes = arg_classes_of(h, args);
    !ambiguous(t, applicable_chain(t, u.generics[u.find(name)->0].methods, classes), classes)
}

/// What a call by name does: the generic is there afterwards, and the call is
/// dispatched on it without a cache.
pub open spec fn dispatched_by_name(
    t: TableView,
    h: Seq<ObjectView>,
    before: GenericsView,
    after: GenericsView,
    chain_before: Seq<FrameView>,
    chain_after: Seq<FrameView>,
    name: Seq<char>,
    args: Seq<u64>,
    action: DispatchAction,
) -> bool {
    let g = after.generics[after.find(name)->0];
    let classes = arg_classes_of(h, args);
    let found = applicable_chain(t, g.methods, classes);
    &&& after == before.with_generic(name)
    &&& chain_after == chain_entered(found, args, chain_before)
    &&& action_fits(t, g, found, classes, args, action)
}

/// Dispatches a call with one argument by generic name.
pub fn nod_dispatch_unary(
    generics: &mut GenericTable,
    table: &ClassTable,
    heap: &Heap,
    chain: &mut MethodChain,
    name_raw: u64,
    self_raw: u64,
) -> (action: DispatchAction)
    requires
        held_text(heap@, Word { raw: name_raw }) is Some,
        clear_by_name(
            table@,
            heap@,
            old(generics)@,
            held_text(heap@, Word { raw: name_raw })->0,
            seq![self_raw],
        ),
    ensures
        dispatched_by_name(
            table@,
            heap@,
            old(generics)@,
            final(generics)@,
            old(chain)@,
            final(chain)@,
            held_text(heap@, Word { raw: name_raw })->0,
            seq![self_raw],
            action,
        ),
{
    let raw_args = [self_raw, 0, 0, 0, 0, 0, 0, 0];
    assert(raw_args@.take(arg_count(1)) =~= seq![self_raw]);
    dispatch_by_name(generics, table, heap, chain, name_raw, 1, raw_args)
}

/// Dispatches a call with two arguments by generic name.
pub fn nod_dispatch_binary(
    generics: &mut GenericTable,
    table: &ClassTable,
    heap: &Heap,
    chain: &mut MethodChain,
    name_raw: u64,
    self_raw: u64,
    arg1_raw: u64,
) -> (action: DispatchAction)
    requires
        held_text(heap@, Word { raw: name_raw }) is Some,
        clear_by_name(
            table@,
            heap@,
            old(generics)@,
            held_text(heap@, Word { raw: name_raw })->0,
            seq![self_raw, arg1_raw],
        ),
    ensures
        dispatched_by_name(
            table@,
            heap@,
            old(generics)@,
            final(generics)@,
            old(chain)@,
            final(chain)@,
            held_text(heap@, Word { raw: name_raw })->0,
            seq![self_raw, arg1_raw],
            action,
        ),
{
    let raw_args = [self_raw, arg1_raw, 0, 0, 0, 0, 0, 0];
    assert(raw_args@.take(arg_count(2)) =~= seq![self_raw, arg1_raw]);
    dispatch_by_name(generics, table, heap, chain, name_raw, 2, raw_args)
}

// ----- rendering the table -----

/// Whether one text comes strictly before another: by the first character that
/// differs from `i` on, a prefix before the longer text.
pub open spec fn text_before_from(a: Seq<char>, b: Seq<char>, i: int) -> bool
    decreases a.len() - i,
{
    if i < 0 || i >= a.len() || i >= b.len() {
        a.len() < b.len()
    } else if a[i] != b[i] {
        (a[i] as u32) < (b[i] as u32)
    } else {
        text_before_from(a, b, i + 1)
    }
}

fn text_before(a: &str, b: &str) -> (r: bool)
    ensures
        r == text_before_from(a@, b@, 0),
{
    let n: usize = a.unicode_len();
    let m: usize = b.unicode_len();
    let mut i: usize = 0;
    while i < n && i < m
        invariant
            n == a@.len(),
            m == b@.len(),
            i <= n,
            i <= m,
            text_before_from(a@, b@, 0) == text_before_from(a@, b@, i as int),
        decreases n - i,
    {
        let x: u32 = a.get_char(i) as u32;
        let y: u32 = b.get_char(i) as u32;
        if x != y {
            return x < y;
        }
        proof {
            assert(a@[i as int] == b@[i as int]);
        }
        i += 1;
    }
    n < m
}

/// The place of a generic in a list in name order: before the first one at or
/// after `i` that it comes before.
pub open spec fn name_place_from(gs: Seq<GenericView>, g: GenericView, i: int) -> int
    decreases gs.len() - i,
{
    if i < 0 || i >= gs.len() {
        gs.len() as int
    } else if text_before_from(g.name, gs[i].name, 0) {
        i
    } else {
        name_place_from(gs, g, i + 1)
    }
}

/// The generics in name order.
pub open spec fn by_name(gs: Seq<GenericView>) -> Seq<GenericView>
    decreases gs.len(),
{
    if gs.len() == 0 {
        seq![]
    } else {
        let front = by_name(gs.drop_last());
        front.insert(name_place_from(front, gs.last(), 0), gs.last())
    }
}

/// The generics at these positions.
pub open spec fn generics_at(gs: Seq<GenericView>, order: Seq<usize>) -> Seq<GenericView> {
    Seq::new(order.len(), |i: int| gs[order[i] as int])
}

fn name_order(generics: &GenericTable) -> (order: Vec<usize>)
    ensures
        forall|i: int| 0 <= i < order@.len() ==> (#[trigger] order@[i]) < generics@.generics.len(),
        generics_at(generics@.generics, order@) == by_name(generics@.generics),
{
    let ghost gs = generics@.generics;
    let mut order: Vec<usize> = Vec::new();
    let mut i: usize = 0;
    assert(gs.take(0) =~= seq![]);
    assert(generics_at(gs, order@) =~= seq![]);
    while i < generics.generics.len()
        invariant
            gs == generics@.generics,
            i <= generics.generics.len(),
            forall|k: int| 0 <= k < order@.len() ==> (#[trigger] order@[k]) < gs.len(),
            generics_at(gs, order@) == by_name(gs.take(i as int)),
        decreases generics.generics.len() - i,
    {
        let ghost sorted = generics_at(gs, order@);
        let ghost g = gs[i as int];
        assert(g == generics.generics@[i as int]@);
        let mut p: usize = 0;
        let mut placed = false;
        while p < order.len() && !placed
            invariant
                gs == generics@.generics,
                i < generics.generics.len(),
                g == generics.generics@[i as int]@,
                sorted == generics_at(gs, order@),
                forall|k: int| 0 <= k < order@.len() ==> (#[trigger] order@[k]) < gs.len(),
                p <= order.len(),
                name_place_from(sorted, g, 0) == name_place_from(sorted, g, p as int),
                placed ==> p < order.len() && text_before_from(g.name, sorted[p as int].name, 0),
            decreases order.len() - p + (if placed { 0int } else { 1 }),
        {
            let k = order[p];
            assert(sorted[p as int] == generics.generics@[k as int]@);
            if text_before(generics.generics[i].name.as_str(), generics.generics[k].name.as_str()) {
                placed = true;
            } else {
                p += 1;
            }
        }
        assert(p == name_place_from(sorted, g, 0));
        order.insert(p, i);
        proof {
            assert(generics_at(gs, order@) =~= sorted.insert(p as int, g));
            assert(gs.take(i + 1).drop_last() =~= gs.take(i as int));
        }
        i += 1;
    }
    assert(gs.take(i as int) =~= gs);
    order
}

/// The line for a method.
pub open spec fn method_line(t: TableView, m: MethodView) -> Seq<char> {
    "  method ("@ + name_list(t, m.specialisers) + ") -> 0x"@ + hex_digits(m.body_fn_ptr as nat)
        + "\n"@
}

/// The lines for the first `n` methods.
pub open spec fn method_lines(t: TableView, ms: Seq<MethodView>, n: int) -> Seq<char>
    decreases n,
{
    if n <= 0 {
        seq![]
    } else {
        method_lines(t, ms, n - 1) + method_line(t, ms[n - 1])
    }
}

/// The class that a cache line shows.
pub open spec fn cache_class_text(t: TableView, class: u64) -> Seq<char> {
    if class == 0 {
        "<cold>"@
    } else {
        shown_name(t, ClassId((class % 0x1_0000_0000) as u32)) + "("@ + decimal_digits(
            class as nat,
        ) + ")"@
    }
}

/// The line for a call-site cache.
pub open spec fn cache_line(t: TableView, slot: CacheSlot) -> Seq<char> {
    "    site#"@ + decimal_digits(slot.site_id as nat) + ": cache class="@ + cache_class_text(
        t,
        slot.class,
    ) + " method=0x"@ + hex_digits(slot.method as nat) + " gen="@ + decimal_digits(
        slot.generation as nat,
    ) + " - hits="@ + decimal_digits(slot.hits as nat) + " misses="@ + decimal_digits(
        slot.misses as nat,
    ) + "\n"@
}

/// The lines for the first `n` caches of a generic; a handle without a cache
/// has no line.
pub open spec fn cache_lines(
    t: TableView,
    caches: Seq<CacheSlot>,
    handles: Seq<u64>,
    n: int,
) -> Seq<char>
    decreases n,
{
    if n <= 0 {
        seq![]
    } else {
        let h = handles[n - 1];
        cache_lines(t, caches, handles, n - 1) + if 0 < h <= caches.len() {
            cache_line(t, caches[h - 1])
        } else {
            seq![]
        }
    }
}

/// The section for a generic.
pub open spec fn generic_text(t: TableView, caches: Seq<CacheSlot>, g: GenericView) -> Seq<char> {
    "Generic "@ + g.name + " (generation = "@ + decimal_digits(g.generation as nat) + ", "@
        + decimal_digits(g.methods.len()) + " method"@ + (if g.methods.len() == 1 {
        ""@
    } else {
        "s"@
    }) + "):\n"@ + method_lines(t, g.methods, g.methods.len() as int) + (if g.cache_slots.len()
        == 0 {
        seq![]
    } else {
        "  Call sites:\n"@ + cache_lines(
            t,
            caches,
            g.cache_slots,
            g.cache_slots.len() as int,
        )
    })
}

/// The sections for the first `n` generics.
pub open spec fn sections(
    t: TableView,
    caches: Seq<CacheSlot>,
    gs: Seq<GenericView>,
    n: int,
) -> Seq<char>
    decreases n,
{
    if n <= 0 {
        seq![]
    } else {
        sections(t, caches, gs, n - 1) + generic_text(t, caches, gs[n - 1])
    }
}

fn render_methods(table: &ClassTable, g: &GenericFunction) -> (s: String)
    ensures
        s@ == method_lines(table@, g@.methods, g@.methods.len() as int),
{
    let mut s = String::new();
    let mut i: usize = 0;
    assert(s@ =~= method_lines(table@, g@.methods, 0));
    while i < g.methods.len()
        invariant
            i <= g.methods.len(),
            s@ == method_lines(table@, g@.methods, i as int),
        decreases g.methods.len() - i,
    {
        assert(g@.methods[i as int] == g.methods@[i as int]@);
        s.append(render_method(table, &g.methods[i]).as_str());
        i += 1;
    }
    s
}

fn render_method(table: &ClassTable, m: &Method) -> (s: String)
    ensures
        s@ == method_line(table@, m@),
{
    let mut s = String::from_str("  method (");
    s.append(join(&class_names(table, &m.specialisers), ", ").as_str());
    s.append(") -> 0x");
    s.append(hexadecimal(m.body_fn_ptr).as_str());
    s.append("\n");
    s
}

fn render_cache_class(table: &ClassTable, class: u64) -> (s: String)
    ensures
        s@ == cache_class_text(table@, class),
{
    if class == 0 {
        return String::from_str("<cold>");
    }
    let mut s = class_name(table, ClassId((class % 0x1_0000_0000) as u32));
    s.append("(");
    s.append(decimal_unsigned(class).as_str());
    s.append(")");
    s
}

fn render_cache(table: &ClassTable, slot: CacheSlot) -> (s: String)
    ensures
        s@ == cache_line(table@, slot),
{
    let mut s = String::from_str("    site#");
    s.append(decimal_unsigned(slot.site_id).as_str());
    s.append(": cache class=");
    s.append(render_cache_class(table, slot.class).as_str());
    s.append(" method=0x");
    s.append(hexadecimal(slot.method).as_str());
    s.append(" gen=");
    s.append(decimal_unsigned(slot.generation).as_str());
    s.append(" - hits=");
    s.append(decimal_unsigned(slot.hits).as_str());
    s.append(" misses=");
    s.append(decimal_unsigned(slot.misses).as_str());
    s.append("\n");
    s
}

fn render_caches(generics: &GenericTable, table: &ClassTable, g: &GenericFunction) -> (s: String)
    ensures
        s@ == cache_lines(
            table@,
            generics@.caches,
            g@.cache_slots,
            g@.cache_slots.len() as int,
        ),
{
    let mut s = String::new();
    let mut i: usize = 0;
    assert(s@ =~= cache_lines(table@, generics@.caches, g@.cache_slots, 0));
    while i < g.cache_slots.len()
        invariant
            i <= g.cache_slots.len(),
            s@ == cache_lines(table@, generics@.caches, g@.cache_slots, i as int),
        decreases g.cache_slots.len() - i,
    {
        match generics.cache(g.cache_slots[i]) {
            Some(slot) => {
                s.append(render_cache(table, slot).as_str());
            },
            None => {
                assert(s@ =~= s@ + seq![]);
            },
        }
        i += 1;
    }
    s
}

fn render_generic(generics: &GenericTable, table: &ClassTable, g: &GenericFunction) -> (s: String)
    ensures
        s@ == generic_text(table@, generics@.caches, g@),
{
    let mut s = String::from_str("Generic ");
    s.append(g.name.as_str());
    s.append(" (generation = ");
    s.append(decimal_unsigned(g.generation()).as_str());
    s.append(", ");
    s.append(decimal_unsigned(g.methods.len() as u64).as_str());
    s.append(" method");
    if g.methods.len() == 1 {
        s.append("");
    } else {
        s.append("s");
    }
    s.append("):\n");
    s.append(render_methods(table, g).as_str());
    if g.cache_slots.len() > 0 {
        let mut sites = String::from_str("  Call sites:\n");
        sites.append(render_caches(generics, table, g).as_str());
        s.append(sites.as_str());
    } else {
        assert(s@ =~= s@ + seq![]);
    }
    s
}

/// Renders every generic, in name order, with its methods and call-site caches.
pub fn dump_dispatch(generics: &GenericTable, table: &ClassTable) -> (s: String)
    ensures
        s@ == sections(
            table@,
            generics@.caches,
            by_name(generics@.generics),
            by_name(generics@.generics).len() as int,
        ),
{
    let ghost gs = by_name(generics@.generics);
    let order = name_order(generics);
    let mut s = String::new();
    let mut i: usize = 0;
    assert(s@ =~= sections(table@, generics@.caches, gs, 0));
    while i < order.len()
        invariant
            gs == generics_at(generics@.generics, order@),
            forall|k: int|
                0 <= k < order@.len() ==> (#[trigger] order@[k]) < generics@.generics.len(),
            i <= order.len(),
            s@ == sections(table@, generics@.caches, gs, i as int),
        decreases order.len() - i,
    {
        let g = generics.generic(order[i]);
        assert(gs[i as int] == g@);
        s.append(render_generic(generics, table, g).as_str());
        i += 1;
    }
    s
}

// ----- what dispatching is for -----

/// A call runs the first of the applicable methods in order of selection, on the
/// arguments of the call. If there are more, they wait in that order, with the same
/// arguments, in a frame of their own; without any applicable method nothing runs
/// and no frame is entered.
pub proof fn call_runs_first_method_and_keeps_the_rest(
    t: TableView,
    g: GenericView,
    found: Seq<MethodView>,
    classes: Seq<ClassId>,
    args: Seq<u64>,
    before: Seq<FrameView>,
    after: Seq<FrameView>,
    action: DispatchAction,
)
    requires
        action_fits(t, g, found, classes, args, action),
        after == chain_entered(found, args, before),
    ensures
        found.len() > 0 ==> (action matches DispatchAction::Call {
            method,
            args: passed,
            frame_pushed,
        } && method == found[0].body_fn_ptr && passed@.len() == args.len() && (forall|i: int|
            0 <= i < args.len() ==> #[trigger] passed@[i] == args[i]) && frame_pushed
            == (found.len() >= 2)),
        found.len() == 0 ==> (action matches DispatchAction::NoApplicableMethods {
            generic,
            arg_class_names,
        } && generic@ == g.name && arg_class_names@.len() == classes.len()),
        found.len() <= 1 ==> after == before,
        found.len() >= 2 ==> {
            let frame = after[before.len() as int];
            &&& after.len() == before.len() + 1
            &&& after.take(before.len() as int) == before
            &&& frame.args == args
            &&& frame.remaining_methods.len() == found.len() - 1
            &&& forall|k: int|
                1 <= k < found.len() ==> frame.remaining_methods[k - 1] == (
                #[trigger] found[k]).body_fn_ptr
        },
{
    if found.len() >= 2 {
        assert(after.take(before.len() as int) =~= before);
        assert(bodies(found).len() == found.len());
        assert forall|k: int| 1 <= k < found.len() implies after[before.len() as int].remaining_methods[
            k - 1] == (#[trigger] found[k]).body_fn_ptr by {
            assert(bodies(found)[k] == found[k].body_fn_ptr);
            assert(bodies(found).drop_first()[k - 1] == bodies(found)[k]);
        }
    }
    if found.len() == 0 {
        assert(shown_names(t, classes).len() == classes.len());
    }
}

/// Going on to the next method uses up the first of those that wait and nothing
/// else; the arguments and the other frames stay.
pub proof fn next_method_uses_up_the_first(chain: Seq<FrameView>)
    requires
        chain.len() > 0,
        chain[chain.len() - 1].remaining_methods.len() > 0,
    ensures
        next_available(chain),
        ({
            let n = chain.len() - 1;
            let before = chain[n];
            let after = moved_on(chain)[n];
            &&& moved_on(chain).len() == chain.len()
            &&& after.args == before.args
            &&& after.remaining_methods.len() == before.remaining_methods.len() - 1
            &&& forall|k: int|
                1 <= k < before.remaining_methods.len() ==> after.remaining_methods[k - 1]
                    == #[trigger] before.remaining_methods[k]
            &&& forall|i: int| 0 <= i < n ==> #[trigger] moved_on(chain)[i] == chain[i]
        }),
{
    let n = chain.len() - 1;
    let before = chain[n].remaining_methods;
    let after = moved_on(chain)[n].remaining_methods;
    assert forall|k: int| 1 <= k < before.len() implies after[k - 1] == #[trigger] before[k] by {
        assert(before.drop_first()[k - 1] == before[k]);
    }
}

/// There is no next method outside of any call, nor when none waits.
pub proof fn no_next_method_without_waiting_ones(chain: Seq<FrameView>)
    requires
        chain.len() == 0 || chain[chain.len() - 1].remaining_methods.len() == 0,
    ensures
        !next_available(chain),
{
}

/// A call-site cache remembers the class of the first argument, the method that was
/// selected and the generation of the generic, so that a later call can tell whether
/// it still holds; the miss is counted. With nothing selected, or without arguments,
/// only the miss is counted.
pub proof fn caches_remember_what_was_selected(
    slot: CacheSlot,
    classes: Seq<ClassId>,
    found: Seq<MethodView>,
    generation: u64,
)
    ensures
        ({
            let after = refilled(slot, classes, found, generation);
            let filled = found.len() > 0 && classes.len() > 0;
            &&& filled ==> after.class == classes[0].0 && after.method == found[0].body_fn_ptr
                && after.generation == generation
            &&& !filled ==> after.class == slot.class && after.method == slot.method
                && after.generation == slot.generation
            &&& slot.misses < u64::MAX ==> after.misses == slot.misses + 1
            &&& after.hits == slot.hits
            &&& after.site_id == slot.site_id
        }),
{
}

/// The fields of a cache stand one after the other, eight bytes each.
pub proof fn cache_fields_have_their_offsets(slot: CacheSlot)
    ensures
        CacheField::Class.spec_offset() == 0 && slot.field(CacheField::Class) == slot.class,
        CacheField::Method.spec_offset() == 8 && slot.field(CacheField::Method) == slot.method,
        CacheField::Generation.spec_offset() == 16 && slot.field(CacheField::Generation)
            == slot.generation,
        CacheField::Hits.spec_offset() == 24 && slot.field(CacheField::Hits) == slot.hits,
        CacheField::Misses.spec_offset() == 32 && slot.field(CacheField::Misses) == slot.misses,
        CacheField::SiteId.spec_offset() == 40 && slot.field(CacheField::SiteId) == slot.site_id,
{
}

/// A generic notes each cache once.
pub proof fn caches_are_noted_once(slots: Seq<u64>, slot: u64, other: u64)
    ensures
        noted(slots, slot).contains(slot),
        other != slot ==> (noted(slots, slot).contains(other) <==> slots.contains(other)),
        noted(noted(slots, slot), slot) == noted(slots, slot),
{
    let after = noted(slots, slot);
    if !slots.contains(slot) {
        assert(after[slots.len() as int] == slot);
    }
    if slots.contains(other) {
        let k = choose|k: int| 0 <= k < slots.len() && slots[k] == other;
        assert(after[k] == other);
    }
    if other != slot && after.contains(other) {
        let k = choose|k: int| 0 <= k < after.len() && after[k] == other;
        assert(slots[k] == other);
    }
}

/// A call passes its first arguments, at most eight, and each counts with its own
/// class: `<integer>` for an integer, the object's class for a pointer.
pub proof fn arguments_count_with_their_classes(
    h: Seq<ObjectView>,
    arity: u64,
    args: Seq<u64>,
    i: int,
)
    requires
        0 <= i < args.len(),
    ensures
        arity <= 8 ==> arg_count(arity) == arity,
        arity > 8 ==> arg_count(arity) == 8,
        arg_classes_of(h, args).len() == args.len(),
        args[i] % 2 == 0 ==> arg_classes_of(h, args)[i] == ClassId(ClassId::INTEGER),
        args[i] % 2 == 1 && object_at(h, Word { raw: args[i] }) is Some ==> arg_classes_of(
            h,
            args,
        )[i] == object_at(h, Word { raw: args[i] })->0.class,
        args[i] % 2 == 1 && object_at(h, Word { raw: args[i] }) is None ==> arg_classes_of(
            h,
            args,
        )[i] == ClassId(ClassId::OBJECT),
{
}

/// A method specialised on its receiver takes anything for its other parameters.
pub proof fn receivers_come_first(receiver: ClassId, param_count: int)
    ensures
        param_count >= 1 ==> padded(receiver, param_count).len() == param_count,
        param_count < 1 ==> padded(receiver, param_count).len() == 1,
        padded(receiver, param_count)[0] == receiver,
        forall|i: int|
            1 <= i < padded(receiver, param_count).len() ==> #[trigger] padded(
                receiver,
                param_count,
            )[i] == ClassId(ClassId::OBJECT),
{
}

/// A method that is added under a name goes to the generic of that name, which is
/// made if need be; every other generic stays as it is, and so do the caches.
pub proof fn methods_go_to_the_named_generic(
    t: GenericsView,
    name: Seq<char>,
    m: MethodView,
    other: Seq<char>,
)
    ensures
        ({
            let u = t.with_method(name, m);
            &&& u.find(name) is Some
            &&& u.generics[u.find(name)->0].methods.contains(m)
            &&& u.generics[u.find(name)->0].name == name
            &&& other != name && t.find(other) is Some ==> u.find(other) == t.find(other)
                && u.generics[u.find(other)->0] == t.generics[t.find(other)->0]
            &&& other != name && t.find(other) is None ==> u.find(other) is None
            &&& u.caches == t.caches
            &&& u.rest_callees == t.rest_callees
            &&& u.resolved == t.resolved
        }),
{
    let v = t.with_generic(name);
    let u = t.with_method(name, m);
    generic_stays_found(t, name, other);
    generic_in_range(t.generics, name, 0);
    generic_in_range(t.generics, other, 0);
    generic_in_range(v.generics, name, 0);
    generic_in_range(v.generics, other, 0);
    let i = v.find(name)->0;
    crate::dispatch::added_method_joins_the_others(v.generics[i], m, m);
    assert forall|k: int| 0 <= k < v.generics.len() implies (#[trigger] u.generics[k]).name
        == v.generics[k].name by {}
    generic_in_range(u.generics, name, 0);
    generic_in_range(u.generics, other, 0);
    let p = u.find(name)->0;
    assert(u.generics[i].name == name);
    assert(v.generics[p].name == u.generics[p].name);
    if p < i {
        assert(v.generics[p].name == name);
    }
    assert(p == i);
    if other != name {
        let q = u.find(other);
        let r = v.find(other);
        if r is Some {
            assert(u.generics[r->0].name == other);
            assert(v.generics[q->0].name == other);
            assert(q->0 == r->0);
        } else if q is Some {
            assert(v.generics[q->0].name == other);
        }
        if t.find(other) is Some {
            assert(v.generics[t.find(other)->0] == t.generics[t.find(other)->0]);
        } else if r is Some {
            if r->0 < t.generics.len() {
                assert(v.generics[r->0] == t.generics[r->0]);
            } else {
                assert(v.generics[r->0].name == name);
            }
        }
    }
}

// ----- what the rendering shows -----

/// Text order goes by the first character that differs; a text comes before those
/// that go on after it.
pub proof fn texts_compare_by_first_difference(a: Seq<char>, b: Seq<char>, i: int)
    requires
        0 <= i <= a.len(),
        i <= b.len(),
        forall|k: int| 0 <= k < i ==> #[trigger] a[k] == b[k],
    ensures
        i < a.len() && i < b.len() && a[i] != b[i] ==> (text_before_from(a, b, 0) <==> (a[i] as u32)
            < (b[i] as u32)),
        i == a.len() && i < b.len() ==> text_before_from(a, b, 0),
        i == b.len() ==> !text_before_from(a, b, 0),
{
    before_skips_agreement(a, b, 0, i);
}

proof fn before_skips_agreement(a: Seq<char>, b: Seq<char>, from: int, i: int)
    requires
        0 <= from <= i <= a.len(),
        i <= b.len(),
        forall|k: int| 0 <= k < i ==> #[trigger] a[k] == b[k],
    ensures
        text_before_from(a, b, from) == text_before_from(a, b, i),
    decreases i - from,
{
    if from < i {
        assert(a[from] == b[from]);
        before_skips_agreement(a, b, from + 1, i);
    }
}

/// Putting the generics in name order keeps all of them.
pub proof fn name_order_keeps_generics(gs: Seq<GenericView>)
    ensures
        by_name(gs).to_multiset() == gs.to_multiset(),
        by_name(gs).len() == gs.len(),
    decreases gs.len(),
{
    broadcast use vstd::seq_lib::group_to_multiset_ensures;

    if gs.len() > 0 {
        let front = by_name(gs.drop_last());
        name_order_keeps_generics(gs.drop_last());
        let p = name_place_from(front, gs.last(), 0);
        name_place_in_range(front, gs.last(), 0);
        vstd::seq_lib::to_multiset_insert(front, p, gs.last());
        assert(gs.drop_last().push(gs.last()) =~= gs);
    } else {
        assert(by_name(gs) =~= gs);
    }
}

proof fn name_place_in_range(gs: Seq<GenericView>, g: GenericView, from: int)
    requires
        0 <= from <= gs.len(),
    ensures
        from <= name_place_from(gs, g, from) <= gs.len(),
        name_place_from(gs, g, from) < gs.len() ==> text_before_from(
            g.name,
            gs[name_place_from(gs, g, from)].name,
            0,
        ),
        forall|k: int|
            from <= k < name_place_from(gs, g, from) ==> !text_before_from(
                g.name,
                (#[trigger] gs[k]).name,
                0,
            ),
    decreases gs.len() - from,
{
    if from < gs.len() && !text_before_from(g.name, gs[from].name, 0) {
        name_place_in_range(gs, g, from + 1);
    }
}

/// Text order is transitive: what does not come before a text does not come before
/// what comes before that text, either.
proof fn before_is_transitive(a: Seq<char>, b: Seq<char>, c: Seq<char>, i: int)
    requires
        0 <= i,
        text_before_from(a, b, i),
        !text_before_from(c, b, i),
    ensures
        !text_before_from(c, a, i),
    decreases a.len() - i,
{
    if i < a.len() && i < b.len() && i < c.len() && a[i] == b[i] && b[i] == c[i] {
        before_is_transitive(a, b, c, i + 1);
    }
}

/// Generics are shown in name order: none comes before an earlier one.
pub proof fn generics_are_shown_by_name(gs: Seq<GenericView>)
    ensures
        forall|i: int, j: int|
            0 <= i < j < by_name(gs).len() ==> !text_before_from(
                (#[trigger] by_name(gs)[j]).name,
                (#[trigger] by_name(gs)[i]).name,
                0,
            ),
    decreases gs.len(),
{
    if gs.len() > 0 {
        let front = by_name(gs.drop_last());
        let g = gs.last();
        generics_are_shown_by_name(gs.drop_last());
        let p = name_place_from(front, g, 0);
        name_place_in_range(front, g, 0);
        let all = front.insert(p, g);
        assert forall|i: int, j: int| 0 <= i < j < all.len() implies !text_before_from(
            (#[trigger] all[j]).name,
            (#[trigger] all[i]).name,
            0,
        ) by {
            if j < p {
                assert(all[i] == front[i] && all[j] == front[j]);
            } else if i > p {
                assert(all[i] == front[i - 1] && all[j] == front[j - 1]);
            } else if i < p && j > p {
                assert(all[i] == front[i] && all[j] == front[j - 1]);
            } else if j == p {
                assert(all[i] == front[i]);
            } else {
                assert(all[j] == front[j - 1]);
                if j - 1 > p {
                    assert(!text_before_from(front[j - 1].name, front[p].name, 0));
                    before_is_transitive(g.name, front[p].name, front[j - 1].name, 0);
                } else {
                    before_is_not_mutual(g.name, front[p].name, 0);
                }
            }
        }
    }
}

proof fn before_is_not_mutual(a: Seq<char>, b: Seq<char>, i: int)
    requires
        0 <= i,
        text_before_from(a, b, i),
    ensures
        !text_before_from(b, a, i),
    decreases a.len() - i,
{
    if i < a.len() && i < b.len() && a[i] == b[i] {
        before_is_not_mutual(a, b, i + 1);
    }
}

// ----- what the listings show -----

/// A method is listed with the classes it takes and its code, each method in turn.
pub proof fn methods_are_listed_in_order(t: TableView, ms: Seq<MethodView>, m: MethodView)
    ensures
        method_lines(t, Seq::empty(), 0).len() == 0,
        method_lines(t, ms.push(m), ms.len() as int + 1) == method_lines(t, ms, ms.len() as int) + (
        "  method ("@ + joined(shown_names(t, m.specialisers), ", "@) + ") -> 0x"@ + hex_digits(
            m.body_fn_ptr as nat,
        ) + "\n"@),
{
    same_front_same_method_lines(t, ms, ms.push(m), ms.len() as int);
}

proof fn same_front_same_method_lines(
    t: TableView,
    a: Seq<MethodView>,
    b: Seq<MethodView>,
    n: int,
)
    requires
        n <= a.len(),
        n <= b.len(),
        forall|i: int| 0 <= i < n ==> a[i] == b[i],
    ensures
        method_lines(t, a, n) == method_lines(t, b, n),
    decreases n,
{
    if n > 0 {
        same_front_same_method_lines(t, a, b, n - 1);
        assert(a[n - 1] == b[n - 1]);
    }
}

/// A call site is listed with its number, the class and the method it remembers, the
/// generation of that, and how often it hit and missed; a cold one is marked.
pub proof fn call_sites_are_listed_with_their_cache(t: TableView, slot: CacheSlot)
    requires
        slot.class <= u32::MAX,
    ensures
        cache_line(t, slot) == "    site#"@ + decimal_digits(slot.site_id as nat)
            + ": cache class="@ + (if slot.class == 0 {
            "<cold>"@
        } else {
            shown_name(t, ClassId(slot.class as u32)) + "("@ + decimal_digits(slot.class as nat)
                + ")"@
        }) + " method=0x"@ + hex_digits(slot.method as nat) + " gen="@ + decimal_digits(
            slot.generation as nat,
        ) + " - hits="@ + decimal_digits(slot.hits as nat) + " misses="@ + decimal_digits(
            slot.misses as nat,
        ) + "\n"@,
{
}

/// The call sites of a generic are listed in the order in which they were noted: handle `h`
/// stands for the `h`th cache.
pub proof fn call_sites_are_listed_in_order(
    t: TableView,
    caches: Seq<CacheSlot>,
    handles: Seq<u64>,
    h: u64,
)
    ensures
        cache_lines(t, caches, Seq::empty(), 0).len() == 0,
        1 <= h <= caches.len() ==> cache_lines(
            t,
            caches,
            handles.push(h),
            handles.len() as int + 1,
        ) == cache_lines(t, caches, handles, handles.len() as int) + cache_line(t, caches[h - 1]),
        h == 0 || h > caches.len() ==> cache_lines(
            t,
            caches,
            handles.push(h),
            handles.len() as int + 1,
        ) == cache_lines(t, caches, handles, handles.len() as int),
{
    same_front_same_cache_lines(t, caches, handles, handles.push(h), handles.len() as int);
    let front = cache_lines(t, caches, handles, handles.len() as int);
    assert(front + Seq::<char>::empty() =~= front);
}

proof fn same_front_same_cache_lines(
    t: TableView,
    caches: Seq<CacheSlot>,
    a: Seq<u64>,
    b: Seq<u64>,
    n: int,
)
    requires
        n <= a.len(),
        n <= b.len(),
        forall|i: int| 0 <= i < n ==> a[i] == b[i],
    ensures
        cache_lines(t, caches, a, n) == cache_lines(t, caches, b, n),
    decreases n,
{
    if n > 0 {
        same_front_same_cache_lines(t, caches, a, b, n - 1);
        assert(a[n - 1] == b[n - 1]);
    }
}

/// A generic is listed with its name, its generation, how many methods it has, and the
/// methods; its call sites follow if it has any.
pub proof fn generics_are_listed_with_methods_and_sites(
    t: TableView,
    caches: Seq<CacheSlot>,
    g: GenericView,
)
    ensures
        ({
            let head = "Generic "@ + g.name + " (generation = "@ + decimal_digits(
                g.generation as nat,
            ) + ", "@ + decimal_digits(g.methods.len());
            let ms = method_lines(t, g.methods, g.methods.len() as int);
            let cs = cache_lines(t, caches, g.cache_slots, g.cache_slots.len() as int);
            let s = generic_text(t, caches, g);
            &&& g.methods.len() == 1 && g.cache_slots.len() == 0 ==> s == head + " method"@
                + "):\n"@ + ms
            &&& g.methods.len() != 1 && g.cache_slots.len() == 0 ==> s == head + " method"@ + "s"@
                + "):\n"@ + ms
            &&& g.methods.len() == 1 && g.cache_slots.len() > 0 ==> s == head + " method"@ + "):\n"@
                + ms + ("  Call sites:\n"@ + cs)
            &&& g.methods.len() != 1 && g.cache_slots.len() > 0 ==> s == head + " method"@ + "s"@
                + "):\n"@ + ms + ("  Call sites:\n"@ + cs)
        }),
{
    reveal_strlit("");
    let head = "Generic "@ + g.name + " (generation = "@ + decimal_digits(g.generation as nat)
        + ", "@ + decimal_digits(g.methods.len());
    assert(head + " method"@ + ""@ =~= head + " method"@);
    let ms = method_lines(t, g.methods, g.methods.len() as int);
    assert(head + " method"@ + "):\n"@ + ms + Seq::<char>::empty() =~= head + " method"@ + "):\n"@
        + ms);
    assert(head + " method"@ + "s"@ + "):\n"@ + ms + Seq::<char>::empty() =~= head + " method"@
        + "s"@ + "):\n"@ + ms);
}

/// Generics are listed one after the other.
pub proof fn generics_are_listed_in_order(
    t: TableView,
    caches: Seq<CacheSlot>,
    gs: Seq<GenericView>,
    g: GenericView,
)
    ensures
        sections(t, caches, Seq::empty(), 0).len() == 0,
        sections(t, caches, gs.push(g), gs.len() as int + 1) == sections(
            t,
            caches,
            gs,
            gs.len() as int,
        ) + generic_text(t, caches, g),
{
    same_front_same_sections(t, caches, gs, gs.push(g), gs.len() as int);
}

proof fn same_front_same_sections(
    t: TableView,
    caches: Seq<CacheSlot>,
    a: Seq<GenericView>,
    b: Seq<GenericView>,
    n: int,
)
    requires
        n <= a.len(),
        n <= b.len(),
        forall|i: int| 0 <= i < n ==> a[i] == b[i],
    ensures
        sections(t, caches, a, n) == sections(t, caches, b, n),
    decreases n,
{
    if n > 0 {
        same_front_same_sections(t, caches, a, b, n - 1);
        assert(a[n - 1] == b[n - 1]);
    }
}

/// A new generic has no methods, no caches and no seals, and starts at generation one.
pub proof fn new_generics_are_empty(name: Seq<char>)
    ensures
        empty_generic(name).name == name,
        empty_generic(name).methods.len() == 0,
        empty_generic(name).generation == 1,
        empty_generic(name).cache_slots.len() == 0,
        !empty_generic(name).sealed,
        empty_generic(name).sealed_domains.len() == 0,
{
}

/// How many arguments a callee with a rest parameter has before it is that of the first note
/// under its name.
pub proof fn rest_callees_are_found_by_name(t: GenericsView, i: int)
    requires
        0 <= i < t.rest_callees.len(),
        forall|k: int| 0 <= k < i ==> (#[trigger] t.rest_callees[k]).0 != t.rest_callees[i].0,
    ensures
        t.rest_fixed(t.rest_callees[i].0) == Some(t.rest_callees[i].1),
{
    callee_is_first(t.rest_callees, i, 0);
}

proof fn callee_is_first(cs: Seq<(Seq<char>, usize)>, i: int, from: int)
    requires
        0 <= from <= i < cs.len(),
        forall|k: int| from <= k < i ==> (#[trigger] cs[k]).0 != cs[i].0,
    ensures
        callee_from(cs, cs[i].0, from) == Some(i),
    decreases i - from,
{
    if from < i {
        assert(cs[from].0 != cs[i].0);
        callee_is_first(cs, i, from + 1);
    }
}

/// A byte string of UTF-8 holds its text.
pub proof fn byte_strings_hold_their_text(h: Seq<ObjectView>, w: Word, text: Seq<char>)
    ensures
        object_at(h, w) == Some(bytes_object(encode_utf8(text))) ==> held_text(h, w) == Some(text),
        object_at(h, w) is None ==> held_text(h, w) is None,
        object_at(h, w) matches Some(o) ==> o.class != ClassId(ClassId::BYTE_STRING)
            ==> held_text(h, w) is None,
{
    encode_utf8_valid_utf8(text);
    encode_utf8_decode_utf8(text);
}

} // verus!
