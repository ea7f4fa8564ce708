//! Multimethod dispatch.
//!
//! A generic function holds methods, each with one specialiser class per
//! required argument. A call picks the applicable methods and orders them from
//! the most specific to the least: at the first argument where two methods
//! differ, the one whose specialiser comes earlier in the precedence list of
//! that argument's class is more specific. Every change of the method table
//! bumps a generation counter, so that a call site that cached a method can
//! tell that its cache is stale.

use vstd::prelude::*;
use vstd::string::*;

use crate::classes::{is_subclass, ClassId, ClassTable, TableView};
use crate::text::{decimal_digits, decimal_unsigned, join, joined, text_views};

verus! {

// ----- methods and generic functions -----

/// A method: its specialisers, one per required argument, and its code.
pub struct Method {
    pub specialisers: Vec<ClassId>,
    /// Address of the compiled body.
    pub body_fn_ptr: u64,
    pub param_count: usize,
    /// Symbol of the compiled body; empty when it follows the usual pattern.
    pub body_fn_name: String,
}

/// What a `Method` says.
#[verifier::ext_equal]
pub struct MethodView {
    pub specialisers: Seq<ClassId>,
    pub body_fn_ptr: u64,
    pub param_count: usize,
    pub body_fn_name: Seq<char>,
}

impl View for Method {
    type V = MethodView;

    open spec fn view(&self) -> MethodView {
        MethodView {
            specialisers: self.specialisers@,
            body_fn_ptr: self.body_fn_ptr,
            param_count: self.param_count,
            body_fn_name: self.body_fn_name@,
        }
    }
}

/// A refused change of a method table.
#[derive(Debug)]
pub enum MethodTableError {
    /// The generic is closed to new methods.
    SealedGenericClosed { generic: String },
    /// The method falls inside a sealed domain of the generic.
    SealedDomainViolated { generic: String, domain: Vec<ClassId>, specialisers: Vec<ClassId> },
}

/// The ids as decimal numbers.
pub open spec fn id_texts(ids: Seq<ClassId>) -> Seq<Seq<char>> {
    Seq::new(ids.len(), |i: int| decimal_digits(ids[i].0 as nat))
}

fn id_list(ids: &Vec<ClassId>) -> (s: String)
    ensures
        s@ == joined(id_texts(ids@), ", "@),
{
    let mut texts: Vec<String> = Vec::new();
    let mut i: usize = 0;
    while i < ids.len()
        invariant
            i <= ids.len(),
            texts@.len() == i,
            forall|k: int|
                0 <= k < i ==> (#[trigger] texts@[k])@ == decimal_digits(ids@[k].0 as nat),
        decreases ids.len() - i,
    {
        texts.push(decimal_unsigned(ids[i].0 as u64));
        i += 1;
    }
    assert(text_views(texts@) =~= id_texts(ids@));
    join(&texts, ", ")
}

impl MethodTableError {
    /// The text of the error.
    pub open spec fn text(self) -> Seq<char> {
        match self {
            MethodTableError::SealedGenericClosed { generic } => "sealed-generic-closed: `"@
                + generic@
                + "` is sealed; no further methods may be added (Sprint 15 single-library scope)"@,
            MethodTableError::SealedDomainViolated { generic, domain, specialisers } =>
            "sealed-domain-violated: method on `"@ + generic@ + "` with specialisers ["@ + joined(
                id_texts(specialisers@),
                ", "@,
            ) + "] falls inside the sealed domain ["@ + joined(id_texts(domain@), ", "@)
                + "] (Sprint 15)"@,
        }
    }

    /// Describes the error.
    pub fn message(&self) -> (s: String)
        ensures
            s@ == self.text(),
    {
        match self {
            MethodTableError::SealedGenericClosed { generic } => {
                let mut s = String::from_str("sealed-generic-closed: `");
                s.append(generic.as_str());
                s.append(
                    "` is sealed; no further methods may be added (Sprint 15 single-library scope)",
                );
                s
            },
            MethodTableError::SealedDomainViolated { generic, domain, specialisers } => {
                let mut s = String::from_str("sealed-domain-violated: method on `");
                s.append(generic.as_str());
                s.append("` with specialisers [");
                s.append(id_list(specialisers).as_str());
                s.append("] falls inside the sealed domain [");
                s.append(id_list(domain).as_str());
                s.append("] (Sprint 15)");
                s
            },
        }
    }
}

/// A generic function: its methods, the count of changes to them, and what is
/// sealed.
pub struct GenericFunction {
    pub name: String,
    pub methods: Vec<Method>,
    pub generation: u64,
    /// Addresses of the call-site caches that have consulted this generic.
    pub cache_slots: Vec<u64>,
    pub sealed: bool,
    pub sealed_domains: Vec<Vec<ClassId>>,
}

/// What a `GenericFunction` holds.
#[verifier::ext_equal]
pub struct GenericView {
    pub name: Seq<char>,
    pub methods: Seq<MethodView>,
    pub generation: u64,
    pub cache_slots: Seq<u64>,
    pub sealed: bool,
    pub sealed_domains: Seq<Seq<ClassId>>,
}

/// The methods as views.
pub open spec fn method_views(methods: Seq<Method>) -> Seq<MethodView> {
    Seq::new(methods.len(), |i: int| methods[i]@)
}

/// The domains as sequences.
pub open spec fn domain_views(domains: Seq<Vec<ClassId>>) -> Seq<Seq<ClassId>> {
    Seq::new(domains.len(), |i: int| domains[i]@)
}

impl View for GenericFunction {
    type V = GenericView;

    open spec fn view(&self) -> GenericView {
        GenericView {
            name: self.name@,
            methods: method_views(self.methods@),
            generation: self.generation,
            cache_slots: self.cache_slots@,
            sealed: self.sealed,
            sealed_domains: domain_views(self.sealed_domains@),
        }
    }
}

/// The generation after one more change; it wraps around.
pub open spec fn next_generation(generation: u64) -> u64 {
    if generation == u64::MAX {
        0
    } else {
        (generation + 1) as u64
    }
}

/// Whether every specialiser falls under the sealed domain.
pub open spec fn domain_covers(
    t: TableView,
    domain: Seq<ClassId>,
    specialisers: Seq<ClassId>,
) -> bool {
    &&& domain.len() == specialisers.len()
    &&& forall|i: int|
        0 <= i < domain.len() ==> t.subclass(#[trigger] specialisers[i], domain[i])
}

/// The first sealed domain at or after `i` that covers the specialisers.
pub open spec fn violated_from(
    t: TableView,
    domains: Seq<Seq<ClassId>>,
    specialisers: Seq<ClassId>,
    i: int,
) -> Option<int>
    decreases domains.len() - i,
{
    if i < 0 || i >= domains.len() {
        None
    } else if domain_covers(t, domains[i], specialisers) {
        Some(i)
    } else {
        violated_from(t, domains, specialisers, i + 1)
    }
}

impl GenericView {
    /// The methods whose specialisers differ from the given ones.
    pub open spec fn methods_without(self, specialisers: Seq<ClassId>) -> Seq<MethodView> {
        self.methods.filter(|m: MethodView| m.specialisers != specialisers)
    }

    /// The generic after adding a method: a method with the same specialisers is
    /// replaced.
    pub open spec fn with_method(self, m: MethodView) -> GenericView {
        GenericView {
            methods: self.methods_without(m.specialisers).push(m),
            generation: next_generation(self.generation),
            ..self
        }
    }

    /// The generic after removing a method.
    pub open spec fn without_method(self, specialisers: Seq<ClassId>) -> GenericView {
        GenericView {
            methods: self.methods_without(specialisers),
            generation: next_generation(self.generation),
            ..self
        }
    }

    /// No two methods have the same specialisers.
    pub open spec fn wf(self) -> bool {
        forall|i: int, j: int|
            0 <= i < j < self.methods.len() ==> (#[trigger] self.methods[i]).specialisers
                != (#[trigger] self.methods[j]).specialisers
    }
}

/// Whether two lists of class ids are equal.
pub fn same_ids(a: &Vec<ClassId>, b: &Vec<ClassId>) -> (r: bool)
    ensures
        r == (a@ == b@),
{
    if a.len() != b.len() {
        return false;
    }
    let mut i: usize = 0;
    while i < a.len()
        invariant
            a.len() == b.len(),
            i <= a.len(),
            forall|k: int| 0 <= k < i ==> a@[k] == b@[k],
        decreases a.len() - i,
    {
        if a[i] != b[i] {
            return false;
        }
        i += 1;
    }
    assert(a@ =~= b@);
    true
}

proof fn filter_step(s: Seq<MethodView>, p: spec_fn(MethodView) -> bool, j: int)
    requires
        0 <= j < s.len(),
    ensures
        s.take(j + 1).filter(p) == if p(s[j]) {
            s.take(j).filter(p).push(s[j])
        } else {
            s.take(j).filter(p)
        },
{
    reveal(Seq::filter);
    assert(s.take(j + 1).drop_last() =~= s.take(j));
}

/// What filtering keeps satisfies the predicate and was there before.
proof fn filter_keeps(s: Seq<MethodView>, p: spec_fn(MethodView) -> bool)
    ensures
        forall|i: int|
            0 <= i < s.filter(p).len() ==> p(#[trigger] s.filter(p)[i]) && s.contains(
                s.filter(p)[i],
            ),
    decreases s.len(),
{
    reveal(Seq::filter);
    if s.len() > 0 {
        let front = s.drop_last();
        filter_keeps(front, p);
        assert forall|i: int| 0 <= i < s.filter(p).len() implies p(#[trigger] s.filter(p)[i])
            && s.contains(s.filter(p)[i]) by {
            if i < front.filter(p).len() {
                assert(s.filter(p)[i] == front.filter(p)[i]);
                let k = choose|k: int| 0 <= k < front.len() && front[k] == front.filter(p)[i];
                assert(s[k] == s.filter(p)[i]);
            } else {
                assert(s.filter(p)[i] == s[s.len() - 1]);
            }
        }
    }
}

/// Filtering a list of distinct specialisers keeps them distinct.
proof fn filter_keeps_distinct(s: Seq<MethodView>, p: spec_fn(MethodView) -> bool)
    requires
        forall|i: int, j: int|
            0 <= i < j < s.len() ==> (#[trigger] s[i]).specialisers != (
            #[trigger] s[j]).specialisers,
    ensures
        forall|i: int, j: int|
            0 <= i < j < s.filter(p).len() ==> (#[trigger] s.filter(p)[i]).specialisers != (
            #[trigger] s.filter(p)[j]).specialisers,
    decreases s.len(),
{
    reveal(Seq::filter);
    if s.len() > 0 {
        let front = s.drop_last();
        assert forall|i: int, j: int| 0 <= i < j < front.len() implies (
        #[trigger] front[i]).specialisers != (#[trigger] front[j]).specialisers by {
            assert(front[i] == s[i] && front[j] == s[j]);
        }
        filter_keeps_distinct(front, p);
        filter_keeps(front, p);
        assert forall|i: int, j: int| 0 <= i < j < s.filter(p).len() implies (
        #[trigger] s.filter(p)[i]).specialisers != (#[trigger] s.filter(p)[j]).specialisers by {
            if j == front.filter(p).len() {
                let x = front.filter(p)[i];
                let k = choose|k: int| 0 <= k < front.len() && front[k] == x;
                assert(front[k] == s[k]);
                assert(s.filter(p)[j] == s[s.len() - 1]);
            }
        }
    }
}

/// Adding a method keeps specialisers distinct.
pub proof fn adding_keeps_methods_distinct(g: GenericView, m: MethodView)
    requires
        g.wf(),
    ensures
        g.with_method(m).wf(),
{
    let p = |x: MethodView| x.specialisers != m.specialisers;
    filter_keeps_distinct(g.methods, p);
    filter_keeps(g.methods, p);
}

/// Removing a method keeps specialisers distinct.
pub proof fn removing_keeps_methods_distinct(g: GenericView, specialisers: Seq<ClassId>)
    requires
        g.wf(),
    ensures
        g.without_method(specialisers).wf(),
{
    let p = |x: MethodView| x.specialisers != specialisers;
    filter_keeps_distinct(g.methods, p);
}

/// Adding and removing methods leaves what is sealed sealed, and what is open
/// open.
pub proof fn changes_keep_sealing(g: GenericView, m: MethodView, specialisers: Seq<ClassId>)
    ensures
        g.with_method(m).sealed == g.sealed,
        g.with_method(m).sealed_domains == g.sealed_domains,
        g.without_method(specialisers).sealed == g.sealed,
        g.without_method(specialisers).sealed_domains == g.sealed_domains,
{
}

/// Methods are refused exactly if some sealed domain covers their specialisers.
pub proof fn covered_is_violated(
    t: TableView,
    domains: Seq<Seq<ClassId>>,
    specialisers: Seq<ClassId>,
    from: int,
)
    requires
        0 <= from,
    ensures
        violated_from(t, domains, specialisers, from) is Some <==> exists|i: int|
            from <= i < domains.len() && domain_covers(t, #[trigger] domains[i], specialisers),
    decreases domains.len() - from,
{
    if from < domains.len() && !domain_covers(t, domains[from], specialisers) {
        covered_is_violated(t, domains, specialisers, from + 1);
    }
}

/// Removing the method that was just added gives the table without any method
/// of those specialisers.
pub proof fn remove_undoes_add(g: GenericView, m: MethodView)
    ensures
        g.with_method(m).without_method(m.specialisers).methods == g.methods_without(
            m.specialisers,
        ),
{
    let p = |x: MethodView| x.specialisers != m.specialisers;
    let kept = g.methods.filter(p);
    filter_keeps(g.methods, p);
    filter_of_kept(kept, p);
    filter_step(kept.push(m), p, kept.len() as int);
    assert(kept.push(m).take(kept.len() as int) =~= kept);
    assert(kept.push(m).take(kept.len() as int + 1) =~= kept.push(m));
}

proof fn filter_of_kept(s: Seq<MethodView>, p: spec_fn(MethodView) -> bool)
    requires
        forall|i: int| 0 <= i < s.len() ==> p(#[trigger] s[i]),
    ensures
        s.filter(p) == s,
    decreases s.len(),
{
    reveal(Seq::filter);
    if s.len() > 0 {
        let front = s.drop_last();
        assert forall|i: int| 0 <= i < front.len() implies p(#[trigger] front[i]) by {
            assert(front[i] == s[i]);
        }
        filter_of_kept(front, p);
        assert(s.filter(p) =~= s);
    } else {
        assert(s.filter(p) =~= s);
    }
}

impl GenericFunction {
    /// A generic function without methods.
    pub fn new(name: &str) -> (g: GenericFunction)
        ensures
            g@ == (GenericView {
                name: name@,
                methods: seq![],
                generation: 1,
                cache_slots: seq![],
                sealed: false,
                sealed_domains: seq![],
            }),
            g@.wf(),
    {
        let g = GenericFunction {
            name: name.to_owned(),
            methods: Vec::new(),
            generation: 1,
            cache_slots: Vec::new(),
            sealed: false,
            sealed_domains: Vec::new(),
        };
        assert(g@.methods =~= seq![]);
        assert(g@.sealed_domains =~= seq![]);
        g
    }

    /// Whether the generic is closed to new methods.
    pub fn is_sealed(&self) -> (b: bool)
        ensures
            b == self@.sealed,
    {
        self.sealed
    }

    /// Closes the generic to new methods, for good.
    pub fn mark_sealed(&mut self)
        ensures
            final(self)@ == (GenericView { sealed: true, ..old(self)@ }),
    {
        self.sealed = true;
    }

    /// Seals a domain, unless it is sealed already.
    pub fn register_sealed_domain(&mut self, specialisers: Vec<ClassId>)
        ensures
            final(self)@ == (GenericView {
                sealed_domains: if old(self)@.sealed_domains.contains(specialisers@) {
                    old(self)@.sealed_domains
                } else {
                    old(self)@.sealed_domains.push(specialisers@)
                },
                ..old(self)@
            }),
    {
        let ghost before = self@.sealed_domains;
        let mut i: usize = 0;
        while i < self.sealed_domains.len()
            invariant
                *self == *old(self),
                i <= self.sealed_domains.len(),
                before == self@.sealed_domains,
                forall|k: int| 0 <= k < i ==> before[k] != specialisers@,
            decreases self.sealed_domains.len() - i,
        {
            if same_ids(&self.sealed_domains[i], &specialisers) {
                assert(before[i as int] == specialisers@);
                return;
            }
            i += 1;
        }
        assert(!before.contains(specialisers@));
        self.sealed_domains.push(specialisers);
        assert(self@.sealed_domains =~= before.push(specialisers@));
    }

    /// The sealed domains.
    pub fn sealed_domains_snapshot(&self) -> (domains: Vec<Vec<ClassId>>)
        ensures
            domain_views(domains@) == self@.sealed_domains,
    {
        let mut domains: Vec<Vec<ClassId>> = Vec::new();
        let mut i: usize = 0;
        while i < self.sealed_domains.len()
            invariant
                i <= self.sealed_domains.len(),
                domains@.len() == i,
                forall|k: int|
                    0 <= k < i ==> (#[trigger] domains@[k])@ == self.sealed_domains@[k]@,
            decreases self.sealed_domains.len() - i,
        {
            domains.push(self.sealed_domains[i].clone());
            i += 1;
        }
        assert(domain_views(domains@) =~= self@.sealed_domains);
        domains
    }

    /// The number of changes to the method table so far.
    pub fn generation(&self) -> (n: u64)
        ensures
            n == self@.generation,
    {
        self.generation
    }

    /// The parameter count of the first method.
    pub fn first_method_param_count(&self) -> (n: Option<usize>)
        ensures
            n == if self@.methods.len() > 0 {
                Some(self@.methods[0].param_count)
            } else {
                None::<usize>
            },
    {
        if self.methods.len() > 0 {
            Some(self.methods[0].param_count)
        } else {
            None
        }
    }

    /// Drops the methods with these specialisers.
    fn retain_other(&mut self, specialisers: &Vec<ClassId>)
        ensures
            final(self)@ == (GenericView {
                methods: old(self)@.methods_without(specialisers@),
                ..old(self)@
            }),
    {
        let ghost all = self@.methods;
        let ghost p = |m: MethodView| m.specialisers != specialisers@;
        let ghost mut j: int = 0;
        let mut i: usize = 0;
        proof {
            assert(all.take(0) =~= seq![]);
            reveal(Seq::filter);
            assert(all.take(0).filter(p) =~= seq![]);
            assert(method_views(self.methods@) =~= all.take(0).filter(p) + all.skip(0));
        }
        while i < self.methods.len()
            invariant
                0 <= j <= all.len(),
                p == (|m: MethodView| m.specialisers != specialisers@),
                i == all.take(j).filter(p).len(),
                method_views(self.methods@) == all.take(j).filter(p) + all.skip(j),
                self.name == old(self).name,
                self.generation == old(self).generation,
                self.cache_slots == old(self).cache_slots,
                self.sealed == old(self).sealed,
                self.sealed_domains == old(self).sealed_domains,
            decreases all.len() - j,
        {
            let ghost now = method_views(self.methods@);
            proof {
                assert(now.len() == self.methods@.len());
                assert(now[i as int] == all.skip(j)[0]);
                assert(now[i as int] == self.methods@[i as int]@);
                filter_step(all, p, j);
            }
            if same_ids(&self.methods[i].specialisers, specialisers) {
                let _ = self.methods.remove(i);
                proof {
                    assert(method_views(self.methods@) =~= now.remove(i as int));
                    assert(now.remove(i as int) =~= all.take(j).filter(p) + all.skip(j + 1));
                }
            } else {
                proof {
                    assert(method_views(self.methods@) =~= all.take(j + 1).filter(p) + all.skip(
                        j + 1,
                    ));
                }
                i += 1;
            }
            proof {
                j = j + 1;
            }
        }
        proof {
            assert(all.skip(j).len() == 0);
            assert(all.take(j) =~= all);
            assert(method_views(self.methods@) =~= all.filter(p));
        }
    }

    /// Adds a method; one with the same specialisers is replaced. Sealing is
    /// not consulted.
    pub fn add_method(&mut self, m: Method)
        ensures
            final(self)@ == old(self)@.with_method(m@),
            old(self)@.wf() ==> final(self)@.wf(),
    {
        proof {
            if self@.wf() {
                adding_keeps_methods_distinct(self@, m@);
            }
        }
        self.retain_other(&m.specialisers);
        let ghost kept = self@.methods;
        self.methods.push(m);
        assert(self@.methods =~= kept.push(m@));
        self.generation = self.generation.wrapping_add(1);
    }

    /// Adds a method unless sealing forbids it.
    pub fn try_add_method(&mut self, table: &ClassTable, m: Method) -> (r: Result<
        (),
        MethodTableError,
    >)
        ensures
            old(self)@.sealed ==> {
                &&& r is Err
                &&& r->Err_0 matches MethodTableError::SealedGenericClosed { generic }
                    && generic@ == old(self)@.name
                &&& final(self)@ == old(self)@
            },
            !old(self)@.sealed ==> match violated_from(
                table@,
                old(self)@.sealed_domains,
                m@.specialisers,
                0,
            ) {
                Some(k) => {
                    &&& r is Err
                    &&& r->Err_0 matches MethodTableError::SealedDomainViolated {
                        generic,
                        domain,
                        specialisers,
                    } && generic@ == old(self)@.name && domain@ == old(self)@.sealed_domains[k]
                        && specialisers@ == m@.specialisers
                    &&& final(self)@ == old(self)@
                },
                None => r is Ok && final(self)@ == old(self)@.with_method(m@),
            },
            old(self)@.wf() ==> final(self)@.wf(),
    {
        if self.is_sealed() {
            return Err(MethodTableError::SealedGenericClosed { generic: self.name.clone() });
        }
        let ghost domains = self@.sealed_domains;
        let mut i: usize = 0;
        while i < self.sealed_domains.len()
            invariant
                *self == *old(self),
                !old(self)@.sealed,
                i <= self.sealed_domains.len(),
                domains == self@.sealed_domains,
                violated_from(table@, domains, m@.specialisers, 0) == violated_from(
                    table@,
                    domains,
                    m@.specialisers,
                    i as int,
                ),
            decreases self.sealed_domains.len() - i,
        {
            assert(domains[i as int] == self.sealed_domains@[i as int]@);
            if covers(table, &self.sealed_domains[i], &m.specialisers) {
                return Err(
                    MethodTableError::SealedDomainViolated {
                        generic: self.name.clone(),
                        domain: self.sealed_domains[i].clone(),
                        specialisers: m.specialisers.clone(),
                    },
                );
            }
            i += 1;
        }
        self.add_method(m);
        Ok(())
    }

    /// Removes the method with exactly these specialisers. The generation is
    /// bumped even if there is none.
    pub fn remove_method(&mut self, specialisers: &Vec<ClassId>)
        ensures
            final(self)@ == old(self)@.without_method(specialisers@),
            old(self)@.wf() ==> final(self)@.wf(),
    {
        proof {
            if self@.wf() {
                removing_keeps_methods_distinct(self@, specialisers@);
            }
        }
        self.retain_other(specialisers);
        self.generation = self.generation.wrapping_add(1);
    }

    /// Notes a call-site cache, unless it is noted already.
    pub fn register_cache_slot(&mut self, slot: u64)
        ensures
            final(self)@ == (GenericView {
                cache_slots: if old(self)@.cache_slots.contains(slot) {
                    old(self)@.cache_slots
                } else {
                    old(self)@.cache_slots.push(slot)
                },
                ..old(self)@
            }),
    {
        let mut i: usize = 0;
        while i < self.cache_slots.len()
            invariant
                *self == *old(self),
                i <= self.cache_slots.len(),
                forall|k: int| 0 <= k < i ==> self.cache_slots@[k] != slot,
            decreases self.cache_slots.len() - i,
        {
            if self.cache_slots[i] == slot {
                return;
            }
            i += 1;
        }
        self.cache_slots.push(slot);
    }
}

/// Whether every specialiser falls under the sealed domain.
fn covers(table: &ClassTable, domain: &Vec<ClassId>, specialisers: &Vec<ClassId>) -> (b: bool)
    ensures
        b == domain_covers(table@, domain@, specialisers@),
{
    if domain.len() != specialisers.len() {
        return false;
    }
    let mut i: usize = 0;
    while i < domain.len()
        invariant
            domain.len() == specialisers.len(),
            i <= domain.len(),
            forall|k: int|
                0 <= k < i ==> table@.subclass(#[trigger] specialisers@[k], domain@[k]),
        decreases domain.len() - i,
    {
        if !is_subclass(table, specialisers[i], domain[i]) {
            return false;
        }
        i += 1;
    }
    true
}

// ----- what changing a method table is for -----

/// After adding a method it is there, the last of all, and every method with other
/// specialisers is still there; nothing else is. The generation moves on by one, and
/// the rest stays.
pub proof fn added_method_joins_the_others(g: GenericView, m: MethodView, x: MethodView)
    ensures
        g.with_method(m).methods.len() > 0,
        g.with_method(m).methods[g.with_method(m).methods.len() - 1] == m,
        x.specialisers != m.specialisers ==> (g.with_method(m).methods.contains(x)
            <==> g.methods.contains(x)),
        x.specialisers == m.specialisers ==> (g.with_method(m).methods.contains(x) <==> x == m),
        g.generation < u64::MAX ==> g.with_method(m).generation == g.generation + 1,
        g.generation == u64::MAX ==> g.with_method(m).generation == 0,
        g.with_method(m).name == g.name,
        g.with_method(m).cache_slots == g.cache_slots,
{
    let p = |y: MethodView| y.specialisers != m.specialisers;
    let kept = g.methods.filter(p);
    let all = g.with_method(m).methods;
    filter_keeps(g.methods, p);
    if g.methods.contains(x) && p(x) {
        let k = choose|k: int| 0 <= k < g.methods.len() && g.methods[k] == x;
        g.methods.lemma_filter_contains(p, k);
        let j = choose|j: int| 0 <= j < kept.len() && kept[j] == x;
        assert(all[j] == x);
    }
    if all.contains(x) {
        let j = choose|j: int| 0 <= j < all.len() && all[j] == x;
        if j < kept.len() {
            assert(all[j] == kept[j]);
        }
    }
    if x == m {
        assert(all[all.len() - 1] == x);
    }
}

/// After removing the method of some specialisers no method has them, and every
/// other method is still there. The generation moves on by one.
pub proof fn removed_method_is_gone(g: GenericView, specialisers: Seq<ClassId>, x: MethodView)
    ensures
        g.without_method(specialisers).methods.contains(x) <==> g.methods.contains(x)
            && x.specialisers != specialisers,
        g.generation < u64::MAX ==> g.without_method(specialisers).generation == g.generation + 1,
        g.generation == u64::MAX ==> g.without_method(specialisers).generation == 0,
        g.without_method(specialisers).name == g.name,
        g.without_method(specialisers).cache_slots == g.cache_slots,
{
    let p = |y: MethodView| y.specialisers != specialisers;
    let kept = g.methods.filter(p);
    filter_keeps(g.methods, p);
    if g.methods.contains(x) && p(x) {
        let k = choose|k: int| 0 <= k < g.methods.len() && g.methods[k] == x;
        g.methods.lemma_filter_contains(p, k);
    }
    if kept.contains(x) {
        let j = choose|j: int| 0 <= j < kept.len() && kept[j] == x;
        assert(kept[j] == x);
    }
}

/// A sealed domain refuses exactly the methods that have as many specialisers as
/// it, each of them a subclass of its class at the same place; the domain that is
/// reported is the first that does.
pub proof fn sealed_domains_refuse_methods_inside(
    t: TableView,
    domains: Seq<Seq<ClassId>>,
    specialisers: Seq<ClassId>,
    k: int,
)
    requires
        0 <= k < domains.len(),
    ensures
        violated_from(t, domains, specialisers, 0) == Some(k) <==> {
            &&& domains[k].len() == specialisers.len()
            &&& forall|i: int|
                0 <= i < specialisers.len() ==> t.subclass(
                    #[trigger] specialisers[i],
                    domains[k][i],
                )
            &&& forall|j: int|
                0 <= j < k ==> (#[trigger] domains[j]).len() != specialisers.len() || exists|i: int|
                    0 <= i < specialisers.len() && !t.subclass(
                        #[trigger] specialisers[i],
                        domains[j][i],
                    )
        },
{
    first_violation(t, domains, specialisers, 0);
    assert forall|j: int| 0 <= j < domains.len() implies (domain_covers(
        t,
        #[trigger] domains[j],
        specialisers,
    ) <==> domains[j].len() == specialisers.len() && forall|i: int|
        0 <= i < specialisers.len() ==> t.subclass(
            #[trigger] specialisers[i],
            domains[j][i],
        )) by {}
    assert(domain_covers(t, domains[k], specialisers) <==> domains[k].len() == specialisers.len()
        && forall|i: int|
        0 <= i < specialisers.len() ==> t.subclass(#[trigger] specialisers[i], domains[k][i]));
}

proof fn first_violation(
    t: TableView,
    domains: Seq<Seq<ClassId>>,
    specialisers: Seq<ClassId>,
    from: int,
)
    requires
        0 <= from,
    ensures
        violated_from(t, domains, specialisers, from) matches Some(k) ==> from <= k
            < domains.len() && domain_covers(t, domains[k], specialisers) && forall|j: int|
            from <= j < k ==> !domain_covers(t, #[trigger] domains[j], specialisers),
        violated_from(t, domains, specialisers, from) is None ==> forall|j: int|
            from <= j < domains.len() ==> !domain_covers(t, #[trigger] domains[j], specialisers),
    decreases domains.len() - from,
{
    if from < domains.len() && !domain_covers(t, domains[from], specialisers) {
        first_violation(t, domains, specialisers, from + 1);
    }
}

/// The sealed domain that a method falls into is the first one that has a superclass for every
/// specialiser.
pub proof fn first_domain_around_a_method_is_found(
    t: TableView,
    domains: Seq<Seq<ClassId>>,
    specialisers: Seq<ClassId>,
    i: int,
)
    requires
        0 <= i < domains.len(),
        domains[i].len() == specialisers.len(),
        forall|k: int|
            0 <= k < specialisers.len() ==> t.subclass(#[trigger] specialisers[k], domains[i][k]),
        forall|j: int|
            0 <= j < i ==> !domain_covers(t, #[trigger] domains[j], specialisers),
    ensures
        violated_from(t, domains, specialisers, 0) == Some(i),
{
    first_violation(t, domains, specialisers, 0);
    assert(domain_covers(t, domains[i], specialisers));
    if let Some(k) = violated_from(t, domains, specialisers, 0) {
        assert(k >= i);
    }
}

/// What is said of a refused method names the generic, and where a domain is in the way, the
/// specialisers and then the domain.
pub proof fn refused_methods_are_named(
    generic: String,
    domain: Vec<ClassId>,
    specialisers: Vec<ClassId>,
)
    ensures
        (MethodTableError::SealedGenericClosed { generic }).text() == "sealed-generic-closed: `"@
            + generic@
            + "` is sealed; no further methods may be added (Sprint 15 single-library scope)"@,
        (MethodTableError::SealedDomainViolated { generic, domain, specialisers }).text()
            == "sealed-domain-violated: method on `"@ + generic@ + "` with specialisers ["@
            + joined(
            Seq::new(
                specialisers@.len(),
                |i: int| decimal_digits(specialisers@[i].0 as nat),
            ),
            ", "@,
        ) + "] falls inside the sealed domain ["@ + joined(
            Seq::new(domain@.len(), |i: int| decimal_digits(domain@[i].0 as nat)),
            ", "@,
        ) + "] (Sprint 15)"@,
{
    assert(id_texts(specialisers@) =~= Seq::new(
        specialisers@.len(),
        |i: int| decimal_digits(specialisers@[i].0 as nat),
    ));
    assert(id_texts(domain@) =~= Seq::new(
        domain@.len(),
        |i: int| decimal_digits(domain@[i].0 as nat),
    ));
}

} // verus!
