//! How the collector reads words and headers.
//!
//! A word is a forwarding marker, an immediate or a pointer to a header. The
//! forwarding bit is tested first: the low bits of a marker are those of an
//! aligned address, so by its tag alone a marker would be an immediate.

use vstd::prelude::*;

use crate::classes::{ClassId, ClassTable, TableView};
use crate::layouts::{cells_by, class_of_cells};
use crate::word::{fixnum, in_fixnum_range};
use crate::wrapper::{
    forward_target_bits, forwarded_bits, headers_are_read_by_bits, Wrapper, FORWARDED_BIT,
    FORWARD_LIMIT,
};

verus! {

/// What a word is to the collector. Pointers carry the address of what they
/// point to.
#[derive(Clone, Copy, PartialEq, Eq, Structural, Debug)]
pub enum WordKind {
    Immediate,
    PointerCons(u64),
    PointerHeader(u64),
    Forwarded(u64),
}

/// The kinds of pointer the collector can ask for.
#[derive(Clone, Copy, PartialEq, Eq, Structural, Debug)]
pub enum PointerKind {
    Cons,
    Header,
}

/// The cells of an object and the range of those that may hold pointers.
#[derive(Clone, Copy, PartialEq, Eq, Structural, Debug)]
pub struct ObjectLayout {
    pub total_cells: usize,
    pub pointer_cells_start: usize,
    pub pointer_cells_end: usize,
}

impl ObjectLayout {
    /// An object without pointers.
    pub fn opaque(total_cells: usize) -> (l: ObjectLayout)
        ensures
            l == (ObjectLayout { total_cells, pointer_cells_start: 0, pointer_cells_end: 0 }),
    {
        ObjectLayout { total_cells, pointer_cells_start: 0, pointer_cells_end: 0 }
    }

    /// How many cells may hold pointers.
    pub fn pointer_cell_count(&self) -> (n: usize)
        requires
            self.pointer_cells_start <= self.pointer_cells_end,
        ensures
            n == self.pointer_cells_end - self.pointer_cells_start,
    {
        self.pointer_cells_end - self.pointer_cells_start
    }
}

/// What a word is to the collector.
pub open spec fn word_kind(raw: u64) -> WordKind {
    if forwarded_bits(raw) {
        WordKind::Forwarded(forward_target_bits(raw))
    } else if raw % 2 == 0 {
        WordKind::Immediate
    } else {
        WordKind::PointerHeader((raw - 1) as u64)
    }
}

/// The tagged pointer to an address.
pub open spec fn pointer_bits(addr: u64) -> u64 {
    (addr - addr % 2 + 1) as u64
}

/// The collector's reading of words and headers.
#[derive(Clone, Copy, Debug)]
pub struct DylanLayout;

impl Default for DylanLayout {
    fn default() -> (l: DylanLayout)
        ensures
            l == DylanLayout,
    {
        DylanLayout
    }
}

impl DylanLayout {
    /// What fresh cells hold: the fixnum zero.
    pub const FILL_WORD: u64 = 0;

    /// What a word is.
    pub fn classify(raw: u64) -> (k: WordKind)
        ensures
            k == word_kind(raw),
    {
        if Wrapper::raw_is_forwarded(raw) {
            return WordKind::Forwarded(Wrapper::raw_forward_target(raw));
        }
        if raw % 2 == 0 {
            WordKind::Immediate
        } else {
            WordKind::PointerHeader(raw - 1)
        }
    }

    /// The forwarding marker for a new address.
    pub fn make_forward(new_addr: u64) -> (raw: u64)
        requires
            new_addr < FORWARD_LIMIT,
        ensures
            raw == new_addr + FORWARDED_BIT,
            word_kind(raw) == WordKind::Forwarded(new_addr),
    {
        Wrapper::forward_to(new_addr).raw
    }

    /// The tagged pointer to an address, whatever the kind.
    pub fn make_pointer(addr: u64, _kind: PointerKind) -> (raw: u64)
        ensures
            raw == pointer_bits(addr),
    {
        addr - addr % 2 + 1
    }

    /// The pointer word that takes the place of another when what it points to
    /// has moved.
    pub fn rewrite_pointer_addr(_old_raw: u64, new_addr: u64) -> (raw: u64)
        ensures
            raw == pointer_bits(new_addr),
    {
        new_addr - new_addr % 2 + 1
    }

    /// The layout of the object whose cells start with `cells`. A forwarded
    /// object and one of an unregistered class count as one opaque cell.
    pub fn header_layout(table: &ClassTable, cells: &[u64]) -> (l: ObjectLayout)
        requires
            cells@.len() >= 1,
            class_of_cells(table@, cells@) matches Some(md) ==> md.layout.readable(cells@),
        ensures
            l == object_layout(table@, cells@),
    {
        let w = Wrapper { raw: cells[0] };
        if w.is_forwarded() {
            return ObjectLayout::opaque(1);
        }
        match table.class_metadata(w.class()) {
            None => ObjectLayout::opaque(1),
            Some(md) => {
                let (total_cells, pointer_cells_start, pointer_cells_end) = md.layout.layout(
                    table,
                    cells,
                );
                ObjectLayout { total_cells, pointer_cells_start, pointer_cells_end }
            },
        }
    }
}

/// The layout of the object whose cells start with `cells`.
pub open spec fn object_layout(t: TableView, cells: Seq<u64>) -> ObjectLayout {
    match class_of_cells(t, cells) {
        None => ObjectLayout { total_cells: 1, pointer_cells_start: 0, pointer_cells_end: 0 },
        Some(md) => {
            let c = cells_by(md.layout, t, cells);
            ObjectLayout {
                total_cells: c.0 as usize,
                pointer_cells_start: c.1 as usize,
                pointer_cells_end: c.2 as usize,
            }
        },
    }
}

/// A pointer to an even address that leaves the forwarding bit clear leads back to
/// the address.
pub proof fn pointer_round_trip(addr: u64)
    requires
        addr % 2 == 0,
        !forwarded_bits(pointer_bits(addr)),
    ensures
        word_kind(pointer_bits(addr)) == WordKind::PointerHeader(addr),
{
}

/// Fixnums that leave the forwarding bit clear are immediates.
pub proof fn fixnum_is_immediate(n: int)
    requires
        in_fixnum_range(n),
        !forwarded_bits(fixnum(n).raw),
    ensures
        word_kind(fixnum(n).raw) == WordKind::Immediate,
{
}

/// The header of a class with an even id is left alone by the collector.
pub proof fn even_header_is_immediate(class: ClassId)
    requires
        class.0 % 2 == 0,
    ensures
        word_kind(class.0 as u64) == WordKind::Immediate,
{
}

/// A word is a marker if bit 51 is set, else an immediate if it is even and a pointer to the
/// cell below it if it is odd.
pub proof fn words_are_told_apart_by_bits(raw: u64, address: u64)
    requires
        raw < 0x8_0000_0000_0000,
        address < 0x1_0000_0000_0000,
    ensures
        raw % 2 == 0 ==> word_kind(raw) == WordKind::Immediate,
        raw % 2 == 1 ==> word_kind(raw) == WordKind::PointerHeader((raw - 1) as u64),
        word_kind((0x8_0000_0000_0000 + address) as u64) == WordKind::Forwarded(address),
        address % 2 == 0 ==> pointer_bits(address) == address + 1,
        address % 2 == 1 ==> pointer_bits(address) == address,
{
}

/// An object that is not forwarded is laid out as its class says; one that is forwarded, or
/// whose class nobody knows, is one opaque cell.
pub proof fn objects_are_laid_out_by_class(t: TableView, cells: Seq<u64>, class: ClassId)
    requires
        cells.len() >= 1,
        cells[0] == class.0,
    ensures
        t.lookup(class) is None ==> object_layout(t, cells) == (ObjectLayout {
            total_cells: 1,
            pointer_cells_start: 0,
            pointer_cells_end: 0,
        }),
        t.lookup(class) matches Some(md) ==> object_layout(t, cells).total_cells == cells_by(
            md.layout,
            t,
            cells,
        ).0 as usize && object_layout(t, cells).pointer_cells_start == cells_by(
            md.layout,
            t,
            cells,
        ).1 as usize && object_layout(t, cells).pointer_cells_end == cells_by(
            md.layout,
            t,
            cells,
        ).2 as usize,
{
    headers_are_read_by_bits(class.0, 0, 0);
}

} // verus!
