//! The shape of objects in memory.
//!
//! An object is a run of cells of eight bytes. The first cell is the wrapper;
//! byte strings and vectors keep their length in the second. From the class of
//! an object follow its size, which of its cells may hold pointers, and which
//! cells the collector visits.

use vstd::prelude::*;

use crate::classes::{
    ClassId, ClassTable, ClassView, LayoutFn, ScanFn, SizeFn, SlotView, TableView,
};
use crate::wrapper::{forwarded_bits, headers_are_read_by_bits, Wrapper};

verus! {

/// Bytes in front of the payload of a byte string or a vector.
pub const COUNTED_HEADER_SIZE: usize = 16;

/// How many cells the bytes fill.
pub open spec fn whole_cells(bytes: int) -> int {
    (bytes + 7) / 8
}

/// The class of the object that starts with `cells`, if its header is intact
/// and the class registered.
pub open spec fn class_of_cells(t: TableView, cells: Seq<u64>) -> Option<ClassView> {
    if forwarded_bits(cells[0]) {
        None
    } else {
        t.lookup((Wrapper { raw: cells[0] }).spec_class())
    }
}

/// The cells of an object: all of them, and the range that may hold pointers.
pub open spec fn cells_by(f: LayoutFn, t: TableView, cells: Seq<u64>) -> (int, int, int) {
    match f {
        LayoutFn::WrapperOnly => (1, 0, 0),
        LayoutFn::ByteString => (whole_cells(16 + cells[1] as int), 0, 0),
        LayoutFn::Symbol => (3, 2, 3),
        LayoutFn::Vector => (2 + cells[1] as int, 2, 2 + cells[1] as int),
        LayoutFn::Pair => (3, 1, 3),
        LayoutFn::UserClass => match class_of_cells(t, cells) {
            None => (1, 0, 0),
            Some(md) => if md.instance_size / 8 <= 1 {
                (md.instance_size / 8, 0, 0)
            } else {
                (md.instance_size / 8, 1, md.instance_size / 8)
            },
        },
    }
}

/// The size of an object in bytes.
pub open spec fn size_by(f: SizeFn, t: TableView, cells: Seq<u64>) -> int {
    match f {
        SizeFn::WrapperOnly => 8,
        SizeFn::ByteString => 8 * whole_cells(16 + cells[1] as int),
        SizeFn::Symbol => 24,
        SizeFn::Vector => 16 + 8 * cells[1],
        SizeFn::Pair => 24,
        SizeFn::UserClass => match class_of_cells(t, cells) {
            None => 8,
            Some(md) => md.instance_size,
        },
    }
}

/// The offsets of the first `n` slots that may hold pointers.
pub open spec fn pointer_offsets(slots: Seq<SlotView>, n: int) -> Seq<int>
    decreases n,
{
    if n <= 0 {
        seq![]
    } else if slots[n - 1].type_kind.pointer_shaped() {
        pointer_offsets(slots, n - 1).push(slots[n - 1].offset)
    } else {
        pointer_offsets(slots, n - 1)
    }
}

/// The byte offsets of the cells that the collector visits, in order.
pub open spec fn visits_by(f: ScanFn, t: TableView, cells: Seq<u64>) -> Seq<int> {
    match f {
        ScanFn::Noop => seq![],
        ScanFn::Symbol => seq![16],
        ScanFn::Vector => Seq::new(cells[1] as nat, |i: int| 16 + 8 * i),
        ScanFn::Pair => seq![8, 16],
        ScanFn::UserClass => match class_of_cells(t, cells) {
            None => seq![],
            Some(md) => pointer_offsets(md.slots, md.slots.len() as int),
        },
    }
}

/// The offsets as numbers.
pub open spec fn offset_views(offsets: Seq<usize>) -> Seq<int> {
    Seq::new(offsets.len(), |i: int| offsets[i] as int)
}

/// The length of a byte string is there and its size fits a machine word.
pub open spec fn byte_string_readable(cells: Seq<u64>) -> bool {
    cells.len() >= 2 && cells[1] + 24 <= usize::MAX
}

/// The length of a vector is there and its size fits a machine word.
pub open spec fn vector_readable(cells: Seq<u64>) -> bool {
    cells.len() >= 2 && 8 * cells[1] + 16 <= usize::MAX
}

/// The registered class of an object with an intact header.
fn live_class(table: &ClassTable, cells: &[u64]) -> (id: Option<ClassId>)
    requires
        cells@.len() >= 1,
    ensures
        id is Some <==> class_of_cells(table@, cells@) is Some,
        id is Some ==> table@.lookup(id->0) == class_of_cells(table@, cells@),
{
    let wrapper = Wrapper { raw: cells[0] };
    if wrapper.is_forwarded() {
        return None;
    }
    let id = wrapper.class();
    match table.class_metadata(id) {
        Some(_) => Some(id),
        None => None,
    }
}

impl LayoutFn {
    /// The cells that the object's length fixes can be read.
    pub open spec fn readable(self, cells: Seq<u64>) -> bool {
        &&& cells.len() >= 1
        &&& self == LayoutFn::ByteString ==> byte_string_readable(cells)
        &&& self == LayoutFn::Vector ==> vector_readable(cells)
    }

    /// The number of cells of an object, and the range of those that may hold
    /// pointers.
    pub fn layout(self, table: &ClassTable, cells: &[u64]) -> (r: (usize, usize, usize))
        requires
            self.readable(cells@),
        ensures
            r.0 == cells_by(self, table@, cells@).0,
            r.1 == cells_by(self, table@, cells@).1,
            r.2 == cells_by(self, table@, cells@).2,
    {
        match self {
            LayoutFn::WrapperOnly => (1, 0, 0),
            LayoutFn::ByteString => {
                let total: usize = COUNTED_HEADER_SIZE + cells[1] as usize;
                ((total + 7) / 8, 0, 0)
            },
            LayoutFn::Symbol => (3, 2, 3),
            LayoutFn::Vector => {
                let n: usize = cells[1] as usize;
                (2 + n, 2, 2 + n)
            },
            LayoutFn::Pair => (3, 1, 3),
            LayoutFn::UserClass => match live_class(table, cells) {
                None => (1, 0, 0),
                Some(id) => {
                    let total: usize = table.get(id).instance_size / 8;
                    if total <= 1 {
                        (total, 0, 0)
                    } else {
                        (total, 1, total)
                    }
                },
            },
        }
    }
}

impl SizeFn {
    /// The cells that the object's length fixes can be read.
    pub open spec fn readable(self, cells: Seq<u64>) -> bool {
        &&& cells.len() >= 1
        &&& self == SizeFn::ByteString ==> byte_string_readable(cells)
        &&& self == SizeFn::Vector ==> vector_readable(cells)
    }

    /// The size of an object in bytes.
    pub fn size(self, table: &ClassTable, cells: &[u64]) -> (n: usize)
        requires
            self.readable(cells@),
        ensures
            n == size_by(self, table@, cells@),
    {
        match self {
            SizeFn::WrapperOnly => 8,
            SizeFn::ByteString => {
                let total: usize = COUNTED_HEADER_SIZE + cells[1] as usize;
                (total + 7) / 8 * 8
            },
            SizeFn::Symbol => 24,
            SizeFn::Vector => COUNTED_HEADER_SIZE + 8 * (cells[1] as usize),
            SizeFn::Pair => 24,
            SizeFn::UserClass => match live_class(table, cells) {
                None => 8,
                Some(id) => table.get(id).instance_size,
            },
        }
    }
}

impl ScanFn {
    /// The cells that the object's length fixes can be read.
    pub open spec fn readable(self, cells: Seq<u64>) -> bool {
        &&& cells.len() >= 1
        &&& self == ScanFn::Vector ==> vector_readable(cells)
    }

    /// The byte offsets of the cells to visit, in order.
    pub fn scan(self, table: &ClassTable, cells: &[u64]) -> (offsets: Vec<usize>)
        requires
            self.readable(cells@),
        ensures
            offset_views(offsets@) == visits_by(self, table@, cells@),
    {
        let mut offsets: Vec<usize> = Vec::new();
        match self {
            ScanFn::Noop => {},
            ScanFn::Symbol => {
                offsets.push(16);
            },
            ScanFn::Vector => {
                let n: usize = cells[1] as usize;
                let mut i: usize = 0;
                while i < n
                    invariant
                        i <= n,
                        16 + 8 * n <= usize::MAX,
                        offset_views(offsets@) == Seq::new(i as nat, |k: int| 16 + 8 * k),
                    decreases n - i,
                {
                    let ghost before = offsets@;
                    offsets.push(COUNTED_HEADER_SIZE + 8 * i);
                    assert(offset_views(offsets@) =~= offset_views(before).push(16 + 8 * i));
                    assert(offset_views(offsets@) =~= Seq::new(
                        (i + 1) as nat,
                        |k: int| 16 + 8 * k,
                    ));
                    i += 1;
                }
            },
            ScanFn::Pair => {
                offsets.push(8);
                offsets.push(16);
            },
            ScanFn::UserClass => match live_class(table, cells) {
                None => {},
                Some(id) => {
                    let md = table.get(id);
                    let mut i: usize = 0;
                    assert(offset_views(offsets@) =~= seq![]);
                    while i < md.slots.len()
                        invariant
                            i <= md.slots@.len(),
                            offset_views(offsets@) == pointer_offsets(md@.slots, i as int),
                        decreases md.slots@.len() - i,
                    {
                        assert(md@.slots[i as int] == md.slots@[i as int]@);
                        if md.slots[i].type_kind.is_pointer_shaped() {
                            let ghost before = offsets@;
                            let offset = md.slots[i].offset;
                            offsets.push(offset);
                            assert(offset_views(offsets@) =~= offset_views(before).push(
                                offset as int,
                            ));
                        }
                        i += 1;
                    }
                    return offsets;
                },
            },
        }
        assert(offset_views(offsets@) =~= visits_by(self, table@, cells@));
        offsets
    }
}

// ----- laws -----

/// The slots of a class stand one after the other behind the header.
pub open spec fn laid_out(md: ClassView) -> bool {
    &&& md.instance_size == 8 + 8 * md.slots.len()
    &&& forall|i: int|
        0 <= i < md.slots.len() ==> (#[trigger] md.slots[i]).offset == 8 + 8 * i
}

/// A class that adds slots to those of a laid out parent is laid out.
pub proof fn subclass_is_laid_out(
    t: TableView,
    id: ClassId,
    name: Seq<char>,
    parent: ClassId,
    own: Seq<SlotView>,
)
    requires
        t.lookup(parent) is Some,
        laid_out(t.lookup(parent)->0) || t.lookup(parent)->0.slots.len() == 0,
    ensures
        laid_out(t.simple_class(id, name, parent, own)),
{
}

/// The scanner, the sizer and the layout of a class are of one kind.
pub open spec fn same_kind(scan: ScanFn, size: SizeFn, layout: LayoutFn) -> bool {
    match layout {
        LayoutFn::WrapperOnly => size == SizeFn::WrapperOnly && scan == ScanFn::Noop,
        LayoutFn::ByteString => size == SizeFn::ByteString && scan == ScanFn::Noop,
        LayoutFn::Symbol => size == SizeFn::Symbol && scan == ScanFn::Symbol,
        LayoutFn::Vector => size == SizeFn::Vector && scan == ScanFn::Vector,
        LayoutFn::Pair => size == SizeFn::Pair && scan == ScanFn::Pair,
        LayoutFn::UserClass => size == SizeFn::UserClass && scan == ScanFn::UserClass,
    }
}

/// Every builtin class has a scanner, a sizer and a layout of one kind.
pub proof fn seeds_are_of_one_kind(i: int)
    ensures
        same_kind(
            crate::classes::seed_shape(i).0,
            crate::classes::seed_shape(i).1,
            crate::classes::seed_shape(i).2,
        ),
{
}

/// The layout counts exactly the cells that the size fills.
pub proof fn layout_fills_size(
    scan: ScanFn,
    size: SizeFn,
    layout: LayoutFn,
    t: TableView,
    cells: Seq<u64>,
)
    requires
        same_kind(scan, size, layout),
        class_of_cells(t, cells) matches Some(md) ==> laid_out(md),
    ensures
        size_by(size, t, cells) == 8 * cells_by(layout, t, cells).0,
{
}

/// The offsets that a user class visits are those of its slots.
proof fn visited_slots(md: ClassView, n: int)
    requires
        laid_out(md),
        0 <= n <= md.slots.len(),
    ensures
        forall|k: int|
            0 <= k < pointer_offsets(md.slots, n).len() ==> (#[trigger] pointer_offsets(
                md.slots,
                n,
            )[k]) % 8 == 0 && 8 <= pointer_offsets(md.slots, n)[k] <= 8 * n,
    decreases n,
{
    if n > 0 {
        visited_slots(md, n - 1);
        let before = pointer_offsets(md.slots, n - 1);
        let all = pointer_offsets(md.slots, n);
        assert forall|k: int| 0 <= k < all.len() implies (#[trigger] all[k]) % 8 == 0 && 8 <= all[k]
            <= 8 * n by {
            if k < before.len() {
                assert(all[k] == before[k]);
            } else {
                assert(all[k] == md.slots[n - 1].offset);
            }
        }
    }
}

/// Whatever the collector visits lies within the cells that the layout says
/// may hold pointers.
pub proof fn visits_are_pointer_cells(
    scan: ScanFn,
    size: SizeFn,
    layout: LayoutFn,
    t: TableView,
    cells: Seq<u64>,
    k: int,
)
    requires
        same_kind(scan, size, layout),
        class_of_cells(t, cells) matches Some(md) ==> laid_out(md),
        0 <= k < visits_by(scan, t, cells).len(),
    ensures
        visits_by(scan, t, cells)[k] % 8 == 0,
        cells_by(layout, t, cells).1 <= visits_by(scan, t, cells)[k] / 8 < cells_by(
            layout,
            t,
            cells,
        ).2,
{
    if let Some(md) = class_of_cells(t, cells) {
        visited_slots(md, md.slots.len() as int);
    }
}

/// Bytes fill as few cells as hold them all.
pub proof fn cells_hold_the_bytes(bytes: int)
    ensures
        8 * (whole_cells(bytes) - 1) < bytes <= 8 * whole_cells(bytes),
{
}

/// An object has the class that its header names.
pub proof fn headers_name_the_class(t: TableView, cells: Seq<u64>, class: ClassId)
    requires
        cells.len() >= 1,
        cells[0] == class.0,
    ensures
        class_of_cells(t, cells) == t.lookup(class),
{
    headers_are_read_by_bits(class.0, 0, 0);
}

/// A pair is its header, head and tail; a symbol is its header, hash and name; a vector is
/// its header, length and elements; a byte string is its header, length and bytes, none of
/// them a pointer.
pub proof fn objects_are_header_and_parts(t: TableView, cells: Seq<u64>, n: int, i: int)
    requires
        cells.len() >= 2,
        cells[1] == n,
    ensures
        cells_by(LayoutFn::Pair, t, cells) == (3int, 1int, 3int),
        visits_by(ScanFn::Pair, t, cells) == seq![8int, 16int],
        cells_by(LayoutFn::Symbol, t, cells) == (3int, 2int, 3int),
        visits_by(ScanFn::Symbol, t, cells) == seq![16int],
        cells_by(LayoutFn::Vector, t, cells) == (2 + n, 2int, 2 + n),
        visits_by(ScanFn::Vector, t, cells).len() == n,
        0 <= i < n ==> visits_by(ScanFn::Vector, t, cells)[i] == 8 * (2 + i),
        8 * (cells_by(LayoutFn::ByteString, t, cells).0 - 1) < 16 + n <= 8 * cells_by(
            LayoutFn::ByteString,
            t,
            cells,
        ).0,
        cells_by(LayoutFn::ByteString, t, cells).1 == cells_by(LayoutFn::ByteString, t, cells).2,
        visits_by(ScanFn::Noop, t, cells).len() == 0,
        cells_by(LayoutFn::WrapperOnly, t, cells) == (1int, 0int, 0int),
        size_by(SizeFn::WrapperOnly, t, cells) == 8,
        size_by(SizeFn::Pair, t, cells) == 24,
        size_by(SizeFn::Symbol, t, cells) == 24,
        size_by(SizeFn::Vector, t, cells) == 8 * (2 + n),
        16 + n <= size_by(SizeFn::ByteString, t, cells) < 24 + n,
        size_by(SizeFn::ByteString, t, cells) % 8 == 0,
{
}

/// An object of a user class has the size of its class, and the collector visits those of its
/// slots that may hold pointers, in order.
pub proof fn objects_of_user_classes_follow_their_class(
    t: TableView,
    cells: Seq<u64>,
    class: ClassId,
    md: ClassView,
    slots: Seq<SlotView>,
    s: SlotView,
)
    requires
        cells.len() >= 1,
        cells[0] == class.0,
        t.lookup(class) == Some(md),
    ensures
        size_by(SizeFn::UserClass, t, cells) == md.instance_size,
        cells_by(LayoutFn::UserClass, t, cells).0 == md.instance_size / 8,
        md.instance_size >= 16 ==> cells_by(LayoutFn::UserClass, t, cells).1 == 1 && cells_by(
            LayoutFn::UserClass,
            t,
            cells,
        ).2 == md.instance_size / 8,
        visits_by(ScanFn::UserClass, t, cells) == pointer_offsets(
            md.slots,
            md.slots.len() as int,
        ),
        pointer_offsets(Seq::<SlotView>::empty(), 0).len() == 0,
        pointer_offsets(slots.push(s), slots.len() as int + 1) == if s.type_kind.pointer_shaped() {
            pointer_offsets(slots, slots.len() as int).push(s.offset)
        } else {
            pointer_offsets(slots, slots.len() as int)
        },
{
    headers_name_the_class(t, cells, class);
    same_front_same_offsets(slots, slots.push(s), slots.len() as int);
}

proof fn same_front_same_offsets(a: Seq<SlotView>, b: Seq<SlotView>, n: int)
    requires
        n <= a.len(),
        n <= b.len(),
        forall|i: int| 0 <= i < n ==> a[i] == b[i],
    ensures
        pointer_offsets(a, n) == pointer_offsets(b, n),
    decreases n,
{
    if n > 0 {
        same_front_same_offsets(a, b, n - 1);
        assert(a[n - 1] == b[n - 1]);
    }
}

} // verus!
