//! Closures.
//!
//! A captured variable lives in a cell, which everyone who captured it shares.
//! The cells of a closure stand in its environment. Variables of a module live
//! in cells too, which are found by name.

use vstd::prelude::*;
use vstd::string::*;

use crate::classes::{is_subclass, ClassId, ClassTable, SlotDefault, SlotType, TableView};
use crate::collections::{
    cell_update_keeps_wf, fixnum_else, fixnum_or, push_keeps_wf, vector_at,
};
use crate::declare::{
    decl_views, decl_weight, declare_all, seeds_are_registered, slot, slot_decl, ClassDecl,
    DeclView,
};
use crate::generics::{decode_byte_string_to_string, held_text};
use crate::heap::{
    cell_at, cells_object, class_at, heap_room, heap_wf, index_of, object_at, with_cell, word_of,
    Heap, ObjectView,
};
use crate::text::{
    decimal_digits, decimal_signed, decimal_text, decimal_unsigned, hex_digits, hexadecimal,
    same_text,
};
use crate::word::Word;

verus! {

// ----- classes -----

/// The classes of closures.
pub open spec fn closure_decls() -> Seq<DeclView> {
    seq![
        DeclView {
            name: "<cell>"@,
            parent: "<object>"@,
            slots: seq![
                slot_decl("value"@, "value"@, SlotType::Object, SlotDefault::Unbound, true),
            ],
        },
        DeclView {
            name: "<environment>"@,
            parent: "<object>"@,
            slots: seq![
                slot_decl("cells"@, "cells"@, SlotType::Vector, SlotDefault::Unbound, true),
            ],
        },
    ]
}

fn build_closure_decls() -> (v: Vec<ClassDecl>)
    ensures
        decl_views(v@) == closure_decls(),
{
    let v = vec![
        ClassDecl {
            name: "<cell>",
            parent: "<object>",
            slots: vec![
                slot("value", "value", SlotType::Object, SlotDefault::Unbound, true),
            ],
        },
        ClassDecl {
            name: "<environment>",
            parent: "<object>",
            slots: vec![
                slot("cells", "cells", SlotType::Vector, SlotDefault::Unbound, true),
            ],
        },
    ];
    assert(decl_views(v@) =~~= closure_decls());
    v
}

/// Upper bound on the ids and slots that registering these classes takes.
pub const CLOSURE_ROOM: i64 = 4;

/// The superclasses of these classes are known, and this is what they take.
pub proof fn closure_decls_fit(t: TableView)
    requires
        t.wf(),
    ensures
        t.knows_parents(closure_decls()),
        decl_weight(closure_decls()) == 4,
{
    let ds = closure_decls();
    seeds_are_registered(t, 0);
    assert forall|i: int| 0 <= i < ds.len() implies t.named((#[trigger] ds[i]).parent) is Some
        || exists|j: int| 0 <= j < i && ds[j].name == ds[i].parent by {
    }
    reveal_with_fuel(decl_weight, 3);
}

/// The ids of these classes.
#[derive(Clone, Copy, PartialEq, Eq, Structural, Debug)]
pub struct ClosureClasses {
    pub cell: ClassId,
    pub environment: ClassId,
}

/// The ids of these classes in a table.
pub open spec fn closure_classes(t: TableView) -> ClosureClasses {
    ClosureClasses {
        cell: t.named("<cell>"@)->0,
        environment: t.named("<environment>"@)->0,
    }
}

/// The table after registering these classes.
pub open spec fn with_closure_classes(t: TableView) -> TableView {
    t.declared_all(closure_decls())
}

/// Registers these classes, unless they are there.
pub fn ensure_registered(table: &mut ClassTable) -> (ids: ClosureClasses)
    requires
        old(table)@.wf(),
        old(table)@.room(CLOSURE_ROOM as int),
    ensures
        final(table)@ == with_closure_classes(old(table)@),
        final(table)@.wf(),
        ids == closure_classes(final(table)@),
        forall|i: int|
            0 <= i < closure_decls().len() ==> final(table)@.named(
                (#[trigger] closure_decls()[i]).name,
            ) is Some,
        forall|n: int| #![trigger final(table)@.room(n)]
            n >= 0 && old(table)@.room(n + CLOSURE_ROOM) ==> final(table)@.room(n),
{
    proof {
        closure_decls_fit(old(table)@);
    }
    let decls = build_closure_decls();
    declare_all(table, &decls);
    proof {
        let ds = closure_decls();
        assert forall|i: int| 0 <= i < ds.len() implies table@.named((#[trigger] ds[i]).name)
            is Some by {
            assert(ds[i] == decls@[i]@);
        }
        assert(ds[0].name == "<cell>"@);
        assert(ds[1].name == "<environment>"@);
    }
    ClosureClasses {
        cell: table.find_by_name("<cell>").unwrap(),
        environment: table.find_by_name("<environment>").unwrap(),
    }
}

/// The id of `<cell>`, registered if need be.
pub fn cell_class_id(table: &mut ClassTable) -> (id: ClassId)
    requires
        old(table)@.wf(),
        old(table)@.room(CLOSURE_ROOM as int),
    ensures
        final(table)@ == with_closure_classes(old(table)@),
        final(table)@.named("<cell>"@) == Some(id),
        final(table)@.wf(),
        forall|n: int| #![trigger final(table)@.room(n)]
            n >= 0 && old(table)@.room(n + CLOSURE_ROOM) ==> final(table)@.room(n),
{
    let ids = ensure_registered(table);
    assert(closure_decls()[0].name == "<cell>"@);
    ids.cell
}

/// The id of `<environment>`, registered if need be.
pub fn environment_class_id(table: &mut ClassTable) -> (id: ClassId)
    requires
        old(table)@.wf(),
        old(table)@.room(CLOSURE_ROOM as int),
    ensures
        final(table)@ == with_closure_classes(old(table)@),
        final(table)@.named("<environment>"@) == Some(id),
        final(table)@.wf(),
        forall|n: int| #![trigger final(table)@.room(n)]
            n >= 0 && old(table)@.room(n + CLOSURE_ROOM) ==> final(table)@.room(n),
{
    let ids = ensure_registered(table);
    assert(closure_decls()[1].name == "<environment>"@);
    ids.environment
}

// ----- cells -----

/// Makes a cell that holds a value.
pub fn make_cell(heap: &mut Heap, ids: &ClosureClasses, value: Word) -> (w: Word)
    requires
        heap_wf(old(heap)@),
        heap_room(old(heap)@, 1),
    ensures
        w == word_of(old(heap)@.len() as int),
        final(heap)@ == old(heap)@.push(cells_object(ids.cell, seq![value])),
        heap_wf(final(heap)@),
{
    let cells = vec![value];
    assert(cells@ =~= seq![value]);
    proof {
        push_keeps_wf(heap@, cells_object(ids.cell, cells@));
    }
    heap.alloc_cells(ids.cell, cells)
}

/// Reads a cell.
pub fn nod_cell_get(heap: &Heap, cell_raw: u64) -> (value: u64)
    requires
        cell_at(heap@, Word { raw: cell_raw }, 0) is Some,
    ensures
        value == (cell_at(heap@, Word { raw: cell_raw }, 0)->0).raw,
{
    heap.cell(Word::from_raw(cell_raw), 0).unwrap().raw()
}

/// Writes a cell and answers the value.
pub fn nod_cell_set(heap: &mut Heap, value_raw: u64, cell_raw: u64) -> (value: u64)
    requires
        heap_wf(old(heap)@),
        cell_at(old(heap)@, Word { raw: cell_raw }, 0) is Some,
    ensures
        value == value_raw,
        final(heap)@ == with_cell(
            old(heap)@,
            Word { raw: cell_raw },
            0,
            Word { raw: value_raw },
        ),
        heap_wf(final(heap)@),
{
    proof {
        cell_update_keeps_wf(heap@, Word { raw: cell_raw }, 0, Word { raw: value_raw });
    }
    heap.set_cell(Word::from_raw(cell_raw), 0, Word::from_raw(value_raw));
    value_raw
}

/// Makes a cell, on raw words.
pub fn nod_make_cell(heap: &mut Heap, ids: &ClosureClasses, value_raw: u64) -> (w: u64)
    requires
        heap_wf(old(heap)@),
        heap_room(old(heap)@, 1),
    ensures
        w == word_of(old(heap)@.len() as int).raw,
        final(heap)@ == old(heap)@.push(cells_object(ids.cell, seq![Word { raw: value_raw }])),
        heap_wf(final(heap)@),
{
    make_cell(heap, ids, Word::from_raw(value_raw)).raw()
}

/// Writing a cell and reading any cell gives what was written if the two are
/// the same cell, and what was there before if they are not.
pub proof fn cell_set_then_get(h: Seq<ObjectView>, written: Word, value: Word, read: Word)
    requires
        cell_at(h, written, 0) is Some,
        cell_at(h, read, 0) is Some,
    ensures
        cell_at(with_cell(h, written, 0, value), read, 0) == if index_of(read) == index_of(
            written,
        ) {
            Some(value)
        } else {
            cell_at(h, read, 0)
        },
        index_of(read) == index_of(written) <==> read == written,
{
}

// ----- environments -----

/// Makes an environment of cells.
pub fn make_environment(heap: &mut Heap, ids: &ClosureClasses, cell_words: &Vec<Word>) -> (w: Word)
    requires
        heap_wf(old(heap)@),
        heap_room(old(heap)@, 2),
    ensures
        w == word_of(old(heap)@.len() as int + 1),
        final(heap)@ == old(heap)@.push(
            cells_object(ClassId(ClassId::SIMPLE_OBJECT_VECTOR), cell_words@),
        ).push(cells_object(ids.environment, seq![word_of(old(heap)@.len() as int)])),
        environment_cells(final(heap)@, w) == Some(cell_words@),
        heap_wf(final(heap)@),
{
    proof {
        push_keeps_wf(
            heap@,
            cells_object(ClassId(ClassId::SIMPLE_OBJECT_VECTOR), cell_words@),
        );
    }
    let vector = heap.alloc_cells(ClassId(ClassId::SIMPLE_OBJECT_VECTOR), cell_words.clone());
    let w = Word::from_raw(nod_make_environment(heap, ids, vector.raw()));
    proof {
        let g = heap@;
        let n = old(heap)@.len() as int;
        assert(g[n] == cells_object(ClassId(ClassId::SIMPLE_OBJECT_VECTOR), cell_words@));
        assert(cell_at(g, w, 0) == Some(vector));
    }
    w
}

/// Makes an environment of a vector of cells, on raw words.
pub fn nod_make_environment(heap: &mut Heap, ids: &ClosureClasses, cells_vec_raw: u64) -> (w: u64)
    requires
        heap_wf(old(heap)@),
        heap_room(old(heap)@, 1),
    ensures
        w == word_of(old(heap)@.len() as int).raw,
        final(heap)@ == old(heap)@.push(
            cells_object(ids.environment, seq![Word { raw: cells_vec_raw }]),
        ),
        heap_wf(final(heap)@),
{
    let cells = vec![Word::from_raw(cells_vec_raw)];
    assert(cells@ =~= seq![Word { raw: cells_vec_raw }]);
    proof {
        push_keeps_wf(heap@, cells_object(ids.environment, cells@));
    }
    heap.alloc_cells(ids.environment, cells).raw()
}

/// The cells of an environment.
pub open spec fn environment_cells(h: Seq<ObjectView>, env: Word) -> Option<Seq<Word>> {
    match cell_at(h, env, 0) {
        Some(v) => vector_at(h, v),
        None => None,
    }
}

/// Environments share their cells: what is written to a cell found in one
/// environment is read from the same cell found in any other, every other cell
/// is as before, and the environments keep their cells.
pub proof fn environments_share_cells(
    h: Seq<ObjectView>,
    ids: ClosureClasses,
    writer: Word,
    i: int,
    value: Word,
    reader: Word,
    j: int,
)
    requires
        class_at(h, writer) == Some(ids.environment),
        class_at(h, reader) == Some(ids.environment),
        environment_cells(h, writer) is Some,
        environment_cells(h, reader) is Some,
        0 <= i < environment_cells(h, writer)->0.len(),
        0 <= j < environment_cells(h, reader)->0.len(),
        class_at(h, environment_cells(h, writer)->0[i]) == Some(ids.cell),
        cell_at(h, environment_cells(h, writer)->0[i], 0) is Some,
        cell_at(h, environment_cells(h, reader)->0[j], 0) is Some,
        ids.cell != ids.environment,
        ids.cell != ClassId(ClassId::SIMPLE_OBJECT_VECTOR),
    ensures
        ({
            let written = environment_cells(h, writer)->0[i];
            let read = environment_cells(h, reader)->0[j];
            let g = with_cell(h, written, 0, value);
            &&& environment_cells(g, reader) == environment_cells(h, reader)
            &&& cell_at(g, read, 0) == if read == written {
                Some(value)
            } else {
                cell_at(h, read, 0)
            }
        }),
{
    let written = environment_cells(h, writer)->0[i];
    let read = environment_cells(h, reader)->0[j];
    cell_set_then_get(h, written, value, read);
    let vector = cell_at(h, reader, 0)->0;
    assert(index_of(reader) != index_of(written));
    assert(index_of(vector) != index_of(written));
}

/// The vector that holds the cells of an environment.
pub fn env_cells_vector(heap: &Heap, env: Word) -> (v: Word)
    requires
        cell_at(heap@, env, 0) is Some,
    ensures
        v == cell_at(heap@, env, 0)->0,
{
    heap.cell(env, 0).unwrap()
}

/// The cell of an environment at an index, or what is wrong with the request.
pub fn nod_env_cell(heap: &Heap, env_raw: u64, idx_raw: u64) -> (r: Result<u64, String>)
    requires
        cell_at(heap@, Word { raw: env_raw }, 0) is Some,
    ensures
        ({
            let idx = fixnum_or(Word { raw: idx_raw }, -1);
            match environment_cells(heap@, Word { raw: env_raw }) {
                None => r is Err && r->Err_0@
                    == "nod_env_cell: env's cells slot is not a <simple-object-vector> (env raw = 0x"@
                    + hex_digits(env_raw as nat) + ")"@,
                Some(cells) => if 0 <= idx < cells.len() {
                    r == Ok::<u64, String>(cells[idx].raw)
                } else {
                    r is Err && r->Err_0@ == "nod_env_cell: index "@ + decimal_text(idx)
                        + " out of range for environment of size "@ + decimal_digits(cells.len())
                        + " (env raw = 0x"@ + hex_digits(env_raw as nat) + ")"@
                },
            }
        }),
{
    let idx = fixnum_else(Word::from_raw(idx_raw), -1);
    let vector = env_cells_vector(heap, Word::from_raw(env_raw));
    match heap.get(vector) {
        Some(o) => {
            if o.class == ClassId(ClassId::SIMPLE_OBJECT_VECTOR) {
                let len: usize = o.cells.len();
                if idx < 0 || idx as u64 >= len as u64 {
                    let mut s = String::from_str("nod_env_cell: index ");
                    s.append(decimal_signed(idx).as_str());
                    s.append(" out of range for environment of size ");
                    s.append(decimal_unsigned(len as u64).as_str());
                    s.append(" (env raw = 0x");
                    s.append(hexadecimal(env_raw).as_str());
                    s.append(")");
                    return Err(s);
                }
                return Ok(o.cells[idx as usize].raw());
            }
        },
        None => {},
    }
    let mut s = String::from_str(
        "nod_env_cell: env's cells slot is not a <simple-object-vector> (env raw = 0x",
    );
    s.append(hexadecimal(env_raw).as_str());
    s.append(")");
    Err(s)
}

/// Whether a word is an environment.
pub fn is_environment(table: &ClassTable, ids: &ClosureClasses, heap: &Heap, w: Word) -> (b: bool)
    ensures
        b == match class_at(heap@, w) {
            Some(c) => table@.subclass(c, ids.environment),
            None => false,
        },
{
    match heap.class_of(w) {
        Some(c) => is_subclass(table, c, ids.environment),
        None => false,
    }
}

/// Whether a word is a cell.
pub fn is_cell(table: &ClassTable, ids: &ClosureClasses, heap: &Heap, w: Word) -> (b: bool)
    ensures
        b == match class_at(heap@, w) {
            Some(c) => table@.subclass(c, ids.cell),
            None => false,
        },
{
    match heap.class_of(w) {
        Some(c) => is_subclass(table, c, ids.cell),
        None => false,
    }
}

// ----- variables of a module -----

struct VariableEntry {
    name: String,
    cell: Word,
}

/// The cells of variables, by name.
pub struct VariableTable {
    entries: Vec<VariableEntry>,
}

impl View for VariableTable {
    type V = Seq<(Seq<char>, Word)>;

    closed spec fn view(&self) -> Seq<(Seq<char>, Word)> {
        Seq::new(self.entries@.len(), |i: int| (self.entries@[i].name@, self.entries@[i].cell))
    }
}

/// Position of the first variable named `name` at or after `i`.
pub open spec fn variable_from(
    vars: Seq<(Seq<char>, Word)>,
    name: Seq<char>,
    i: int,
) -> Option<int>
    decreases vars.len() - i,
{
    if i < 0 || i >= vars.len() {
        None
    } else if vars[i].0 == name {
        Some(i)
    } else {
        variable_from(vars, name, i + 1)
    }
}

/// The cell of a variable.
pub open spec fn variable_cell(vars: Seq<(Seq<char>, Word)>, name: Seq<char>) -> Option<Word> {
    match variable_from(vars, name, 0) {
        Some(i) => Some(vars[i].1),
        None => None,
    }
}

proof fn variable_in_range(vars: Seq<(Seq<char>, Word)>, name: Seq<char>, from: int)
    requires
        0 <= from,
    ensures
        variable_from(vars, name, from) matches Some(p) ==> from <= p < vars.len() && vars[p].0
            == name && forall|k: int| from <= k < p ==> (#[trigger] vars[k]).0 != name,
        variable_from(vars, name, from) is None ==> forall|k: int|
            from <= k < vars.len() ==> (#[trigger] vars[k]).0 != name,
    decreases vars.len() - from,
{
    if from < vars.len() && vars[from].0 != name {
        variable_in_range(vars, name, from + 1);
    }
}

impl VariableTable {
    /// No variables.
    pub fn new() -> (t: VariableTable)
        ensures
            t@ == Seq::<(Seq<char>, Word)>::empty(),
    {
        let t = VariableTable { entries: Vec::new() };
        assert(t@ =~= Seq::<(Seq<char>, Word)>::empty());
        t
    }

    fn find(&self, name: &str) -> (i: Option<usize>)
        ensures
            i is Some <==> variable_from(self@, name@, 0) is Some,
            i is Some ==> i->0 == variable_from(self@, name@, 0)->0 && i->0 < self.entries@.len(),
    {
        let mut i: usize = 0;
        while i < self.entries.len()
            invariant
                i <= self.entries.len(),
                variable_from(self@, name@, 0) == variable_from(self@, name@, i as int),
            decreases self.entries.len() - i,
        {
            assert(self@[i as int].0 == self.entries@[i as int].name@);
            if same_text(self.entries[i].name.as_str(), name) {
                return Some(i);
            }
            i += 1;
        }
        None
    }

    /// The cell of a variable, if it has been initialised.
    pub fn cell(&self, name: &str) -> (w: Option<Word>)
        ensures
            w == variable_cell(self@, name@),
    {
        match self.find(name) {
            Some(i) => Some(self.entries[i].cell),
            None => None,
        }
    }

    /// Sets the cell of a variable; a later cell replaces an earlier one.
    fn set(&mut self, name: &str, cell: Word)
        ensures
            forall|other: Seq<char>| #[trigger]
                variable_cell(final(self)@, other) == if other == name@ {
                    Some(cell)
                } else {
                    variable_cell(old(self)@, other)
                },
    {
        let ghost before = self@;
        proof {
            variable_in_range(before, name@, 0);
        }
        match self.find(name) {
            Some(i) => {
                self.entries[i].cell = cell;
                proof {
                    let after = self@;
                    assert(after =~= before.update(i as int, (name@, cell)));
                    assert forall|other: Seq<char>| #[trigger]
                        variable_cell(after, other) == if other == name@ {
                            Some(cell)
                        } else {
                            variable_cell(before, other)
                        } by {
                        variable_in_range(before, other, 0);
                        variable_in_range(after, other, 0);
                        assert forall|k: int| 0 <= k < before.len() implies (
                        #[trigger] after[k]).0 == before[k].0 by {}
                        let p = variable_from(before, other, 0);
                        let q = variable_from(after, other, 0);
                        if p is Some {
                            assert(after[p->0].0 == other);
                            assert(before[q->0].0 == other);
                        } else if q is Some {
                            assert(before[q->0].0 == other);
                        }
                    }
                }
            },
            None => {
                self.entries.push(VariableEntry { name: name.to_owned(), cell });
                proof {
                    let after = self@;
                    let n = before.len() as int;
                    assert(after =~= before.push((name@, cell)));
                    assert forall|other: Seq<char>| #[trigger]
                        variable_cell(after, other) == if other == name@ {
                            Some(cell)
                        } else {
                            variable_cell(before, other)
                        } by {
                        variable_in_range(before, other, 0);
                        variable_in_range(after, other, 0);
                        assert forall|k: int| 0 <= k < n implies #[trigger] after[k]
                            == before[k] by {}
                        assert(after[n] == (name@, cell));
                        let p = variable_from(before, other, 0);
                        let q = variable_from(after, other, 0);
                        if p is Some {
                            assert(after[p->0].0 == other);
                            if q->0 < n {
                                assert(before[q->0].0 == other);
                            }
                        } else if q is Some && q->0 < n {
                            assert(before[q->0].0 == other);
                        }
                    }
                }
            },
        }
    }
}

/// Gives a variable a fresh cell that holds its initial value.
pub fn define_variable(
    variables: &mut VariableTable,
    heap: &mut Heap,
    ids: &ClosureClasses,
    name: &str,
    initial: u64,
) -> (cell: u64)
    requires
        heap_wf(old(heap)@),
        heap_room(old(heap)@, 1),
    ensures
        cell == word_of(old(heap)@.len() as int).raw,
        final(heap)@ == old(heap)@.push(cells_object(ids.cell, seq![Word { raw: initial }])),
        forall|other: Seq<char>| #[trigger]
            variable_cell(final(variables)@, other) == if other == name@ {
                Some(Word { raw: cell })
            } else {
                variable_cell(old(variables)@, other)
            },
        heap_wf(final(heap)@),
{
    let cell = make_cell(heap, ids, Word::from_raw(initial));
    variables.set(name, cell);
    cell.raw()
}

/// Every variable's cell is on the heap.
pub open spec fn variables_wf(vars: Seq<(Seq<char>, Word)>, h: Seq<ObjectView>) -> bool {
    forall|name: Seq<char>| #[trigger]
        variable_cell(vars, name) is Some ==> cell_at(h, variable_cell(vars, name)->0, 0) is Some
}

/// What is wrong with a variable request: the name is no byte string, or the
/// variable has no cell.
pub open spec fn variable_fault(
    vars: Seq<(Seq<char>, Word)>,
    h: Seq<ObjectView>,
    who: Seq<char>,
    complaint: Seq<char>,
    name_raw: u64,
) -> Option<Seq<char>> {
    match held_text(h, Word { raw: name_raw }) {
        None => Some(
            who + ": expected <byte-string> name, got raw Word 0x"@ + hex_digits(name_raw as nat),
        ),
        Some(name) => if variable_cell(vars, name) is None {
            Some(who + ": variable `"@ + name + complaint)
        } else {
            None
        },
    }
}

fn find_variable(
    variables: &VariableTable,
    heap: &Heap,
    who: &str,
    complaint: &str,
    name_raw: u64,
) -> (r: Result<Word, String>)
    ensures
        match variable_fault(variables@, heap@, who@, complaint@, name_raw) {
            Some(m) => r is Err && r->Err_0@ == m,
            None => r is Ok && Some(r->Ok_0) == variable_cell(
                variables@,
                held_text(heap@, Word { raw: name_raw })->0,
            ),
        },
{
    match decode_byte_string_to_string(heap, Word::from_raw(name_raw)) {
        None => {
            let mut s = String::from_str(who);
            s.append(": expected <byte-string> name, got raw Word 0x");
            s.append(hexadecimal(name_raw).as_str());
            Err(s)
        },
        Some(name) => match variables.cell(name.as_str()) {
            Some(cell) => Ok(cell),
            None => {
                let mut s = String::from_str(who);
                s.append(": variable `");
                s.append(name.as_str());
                s.append(complaint);
                Err(s)
            },
        },
    }
}

/// The value of a variable by name, or what is wrong with the request.
pub fn nod_var_get_by_name(variables: &VariableTable, heap: &Heap, name_raw: u64) -> (r: Result<
    u64,
    String,
>)
    requires
        variables_wf(variables@, heap@),
    ensures
        match variable_fault(
            variables@,
            heap@,
            "nod_var_get_by_name"@,
            "` referenced before initialisation — the AOT resolver or JIT init driver did not call nod_aot_register_variable for it"@,
            name_raw,
        ) {
            Some(m) => r is Err && r->Err_0@ == m,
            None => r is Ok && r->Ok_0 == (cell_at(
                heap@,
                variable_cell(variables@, held_text(heap@, Word { raw: name_raw })->0)->0,
                0,
            )->0).raw,
        },
{
    match find_variable(
        variables,
        heap,
        "nod_var_get_by_name",
        "` referenced before initialisation — the AOT resolver or JIT init driver did not call nod_aot_register_variable for it",
        name_raw,
    ) {
        Ok(cell) => Ok(nod_cell_get(heap, cell.raw())),
        Err(m) => Err(m),
    }
}

/// Sets a variable by name and answers the value, or says what is wrong with the
/// request.
pub fn nod_var_set_by_name(
    variables: &VariableTable,
    heap: &mut Heap,
    value_raw: u64,
    name_raw: u64,
) -> (r: Result<u64, String>)
    requires
        heap_wf(old(heap)@),
        variables_wf(variables@, old(heap)@),
    ensures
        match variable_fault(
            variables@,
            old(heap)@,
            "nod_var_set_by_name"@,
            "` written before initialisation"@,
            name_raw,
        ) {
            Some(m) => r is Err && r->Err_0@ == m && final(heap)@ == old(heap)@,
            None => r == Ok::<u64, String>(value_raw) && final(heap)@ == with_cell(
                old(heap)@,
                variable_cell(variables@, held_text(old(heap)@, Word { raw: name_raw })->0)->0,
                0,
                Word { raw: value_raw },
            ),
        },
        heap_wf(final(heap)@),
{
    match find_variable(
        variables,
        heap,
        "nod_var_set_by_name",
        "` written before initialisation",
        name_raw,
    ) {
        Ok(cell) => Ok(nod_cell_set(heap, value_raw, cell.raw())),
        Err(m) => Err(m),
    }
}

// ----- what variables and environments are for -----

/// A variable's cell is that of the first entry of its name.
pub proof fn variables_are_found_by_name(vars: Seq<(Seq<char>, Word)>, i: int)
    requires
        0 <= i < vars.len(),
        forall|k: int| 0 <= k < i ==> (#[trigger] vars[k]).0 != vars[i].0,
    ensures
        variable_cell(vars, vars[i].0) == Some(vars[i].1),
{
    variable_in_range(vars, vars[i].0, 0);
}

/// A name that no variable has has no cell.
pub proof fn unknown_variables_have_no_cell(vars: Seq<(Seq<char>, Word)>, name: Seq<char>)
    requires
        forall|k: int| 0 <= k < vars.len() ==> (#[trigger] vars[k]).0 != name,
    ensures
        variable_cell(vars, name) is None,
{
    variable_in_range(vars, name, 0);
}

/// The cells of an environment are those of the vector in its slot, in order.
pub proof fn environments_hold_their_cells(
    h: Seq<ObjectView>,
    env: Word,
    o: ObjectView,
    v: ObjectView,
    i: int,
)
    requires
        object_at(h, env) == Some(o),
        o.cells.len() > 0,
        object_at(h, o.cells[0]) == Some(v),
        v.class == ClassId(ClassId::SIMPLE_OBJECT_VECTOR),
        0 <= i < v.cells.len(),
    ensures
        environment_cells(h, env) is Some,
        environment_cells(h, env)->0.len() == v.cells.len(),
        environment_cells(h, env)->0[i] == v.cells[i],
{
}

/// A request for a variable fails exactly if the name is no text or no variable has
/// it.
pub proof fn known_variables_have_no_fault(
    vars: Seq<(Seq<char>, Word)>,
    h: Seq<ObjectView>,
    who: Seq<char>,
    complaint: Seq<char>,
    name_raw: u64,
)
    ensures
        variable_fault(vars, h, who, complaint, name_raw) is None <==> held_text(
            h,
            Word { raw: name_raw },
        ) is Some && variable_cell(vars, held_text(h, Word { raw: name_raw })->0) is Some,
{
}

} // verus!
