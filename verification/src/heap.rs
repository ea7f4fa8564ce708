//! The object heap.
//!
//! An object has a class, a row of word cells and a run of bytes. Instances,
//! vectors, pairs and symbols keep their contents in cells; byte strings keep
//! theirs in bytes. A pointer word names an object by its address.

use vstd::prelude::*;
use vstd::string::*;
use vstd::utf8::encode_utf8;

use crate::classes::ClassId;
use crate::word::Word;

verus! {

/// Most objects that a heap can hold.
pub const HEAP_LIMIT: usize = 0x7fff_ffff;

/// One heap object.
pub struct Object {
    pub class: ClassId,
    pub cells: Vec<Word>,
    pub bytes: Vec<u8>,
}

/// The contents of an object.
#[verifier::ext_equal]
pub struct ObjectView {
    pub class: ClassId,
    pub cells: Seq<Word>,
    pub bytes: Seq<u8>,
}

impl View for Object {
    type V = ObjectView;

    open spec fn view(&self) -> ObjectView {
        ObjectView { class: self.class, cells: self.cells@, bytes: self.bytes@ }
    }
}

/// The object heap.
pub struct Heap {
    objects: Vec<Object>,
}

impl View for Heap {
    type V = Seq<ObjectView>;

    closed spec fn view(&self) -> Seq<ObjectView> {
        Seq::new(self.objects@.len(), |i: int| self.objects@[i]@)
    }
}

/// The singleton words `#t`, `#f` and the empty list.
#[derive(Clone, Copy, PartialEq, Eq, Structural, Debug)]
pub struct Immediates {
    pub true_: Word,
    pub false_: Word,
    pub nil: Word,
}

/// The word that points at object `i`.
pub open spec fn word_of(i: int) -> Word {
    Word { raw: (8 * (i + 1) + 1) as u64 }
}

/// The object index that a pointer word names.
pub open spec fn index_of(w: Word) -> int {
    w.raw / 8 - 1
}

/// Whether a word points at an object of the heap.
pub open spec fn points_into(h: Seq<ObjectView>, w: Word) -> bool {
    w.raw % 8 == 1 && 0 <= index_of(w) < h.len()
}

/// The object that a word points at.
pub open spec fn object_at(h: Seq<ObjectView>, w: Word) -> Option<ObjectView> {
    if points_into(h, w) {
        Some(h[index_of(w)])
    } else {
        None
    }
}

/// The class of the object that a word points at.
pub open spec fn class_at(h: Seq<ObjectView>, w: Word) -> Option<ClassId> {
    match object_at(h, w) {
        Some(o) => Some(o.class),
        None => None,
    }
}

/// The `i`-th cell of the object that a word points at, if it has one.
pub open spec fn cell_at(h: Seq<ObjectView>, w: Word, i: int) -> Option<Word> {
    match object_at(h, w) {
        Some(o) => if 0 <= i < o.cells.len() {
            Some(o.cells[i])
        } else {
            None
        },
        None => None,
    }
}

/// The heap with one cell replaced.
pub open spec fn with_cell(h: Seq<ObjectView>, w: Word, i: int, value: Word) -> Seq<ObjectView> {
    let o = h[index_of(w)];
    h.update(index_of(w), ObjectView { cells: o.cells.update(i, value), ..o })
}

/// An object that keeps its contents in cells.
pub open spec fn cells_object(class: ClassId, cells: Seq<Word>) -> ObjectView {
    ObjectView { class, cells, bytes: seq![] }
}

/// A byte string.
pub open spec fn bytes_object(bytes: Seq<u8>) -> ObjectView {
    ObjectView { class: ClassId(ClassId::BYTE_STRING), cells: seq![], bytes }
}

/// `#t`.
pub open spec fn true_word() -> Word {
    word_of(0)
}

/// `#f`.
pub open spec fn false_word() -> Word {
    word_of(1)
}

/// The empty list.
pub open spec fn nil_word() -> Word {
    word_of(2)
}

/// `#t` or `#f`.
pub open spec fn bool_word(b: bool) -> Word {
    if b {
        true_word()
    } else {
        false_word()
    }
}

/// The word of a fresh cell: the fixnum zero.
pub open spec fn zero_word() -> Word {
    Word { raw: 0 }
}

/// The heap that holds the three singletons alone.
pub open spec fn initial_heap() -> Seq<ObjectView> {
    seq![
        cells_object(ClassId(ClassId::BOOLEAN), seq![]),
        cells_object(ClassId(ClassId::BOOLEAN), seq![]),
        cells_object(ClassId(ClassId::EMPTY_LIST), seq![]),
    ]
}

/// The singletons are in place and the heap is within its limit.
pub open spec fn heap_wf(h: Seq<ObjectView>) -> bool {
    3 <= h.len() <= HEAP_LIMIT && h.take(3) == initial_heap()
}

/// Whether `n` more objects fit.
pub open spec fn heap_room(h: Seq<ObjectView>, n: int) -> bool {
    h.len() + n <= HEAP_LIMIT
}

/// The singleton words.
pub fn literal_pool_immediates() -> (imm: Immediates)
    ensures
        imm.true_ == true_word(),
        imm.false_ == false_word(),
        imm.nil == nil_word(),
{
    Immediates { true_: Word { raw: 9 }, false_: Word { raw: 17 }, nil: Word { raw: 25 } }
}

/// The boolean word for `b`.
pub fn boolean_word(b: bool) -> (w: Word)
    ensures
        w == bool_word(b),
{
    let imm = literal_pool_immediates();
    if b {
        imm.true_
    } else {
        imm.false_
    }
}

/// Objects have distinct words.
pub proof fn word_of_round_trip(h: Seq<ObjectView>, i: int)
    requires
        0 <= i < h.len(),
        h.len() <= HEAP_LIMIT,
    ensures
        points_into(h, word_of(i)),
        index_of(word_of(i)) == i,
        object_at(h, word_of(i)) == Some(h[i]),
{
}

/// A word that points into the heap is the word of the object it names.
pub proof fn pointer_is_word_of(h: Seq<ObjectView>, w: Word)
    requires
        points_into(h, w),
    ensures
        w == word_of(index_of(w)),
{
}

/// The words of a heap are tagged addresses, one per object, eight apart; a word
/// with another tag, or past the last object, names none.
pub proof fn words_name_objects(h: Seq<ObjectView>, w: Word)
    requires
        h.len() <= HEAP_LIMIT,
    ensures
        object_at(h, w) is Some <==> w.raw % 8 == 1 && 9 <= w.raw < 8 * h.len() + 9,
        forall|i: int|
            0 <= i < h.len() && w.raw == 8 * i + 9 ==> object_at(h, w) == Some(#[trigger] h[i]),
        w.raw % 2 == 0 ==> object_at(h, w) is None,
{
}

/// A cell that is replaced reads back as the new word; every other cell, the
/// bytes, the classes and the other objects stay.
pub proof fn replaced_cell_reads_back(
    h: Seq<ObjectView>,
    w: Word,
    i: int,
    value: Word,
    v: Word,
    j: int,
)
    requires
        cell_at(h, w, i) is Some,
    ensures
        with_cell(h, w, i, value).len() == h.len(),
        cell_at(with_cell(h, w, i, value), w, i) == Some(value),
        v != w || j != i ==> cell_at(with_cell(h, w, i, value), v, j) == cell_at(h, v, j),
        class_at(with_cell(h, w, i, value), v) == class_at(h, v),
        object_at(h, v) matches Some(o) ==> object_at(with_cell(h, w, i, value), v)->0.bytes
            == o.bytes && object_at(with_cell(h, w, i, value), v)->0.cells.len() == o.cells.len(),
        object_at(h, v) is Some && v != w ==> object_at(with_cell(h, w, i, value), v) == object_at(
            h,
            v,
        ),
{
}

/// A cell is read from the object that the word names, by its place.
pub proof fn cells_are_read_by_place(h: Seq<ObjectView>, w: Word, o: ObjectView, i: int)
    requires
        object_at(h, w) == Some(o),
    ensures
        0 <= i < o.cells.len() ==> cell_at(h, w, i) == Some(o.cells[i]),
        !(0 <= i < o.cells.len()) ==> cell_at(h, w, i) is None,
        class_at(h, w) == Some(o.class),
{
}

/// A new object is named by the next word and holds what it was made with; the
/// objects that were there stay.
pub proof fn new_object_is_named_by_next_word(h: Seq<ObjectView>, o: ObjectView, v: Word)
    requires
        h.len() < HEAP_LIMIT,
    ensures
        object_at(h.push(o), word_of(h.len() as int)) == Some(o),
        object_at(h, v) is Some ==> object_at(h.push(o), v) == object_at(h, v) && v != word_of(
            h.len() as int,
        ),
{
}

/// Objects of cells hold their cells and no bytes, byte strings their bytes and no
/// cells.
pub proof fn objects_hold_what_they_are_made_of(class: ClassId, cells: Seq<Word>, bytes: Seq<u8>)
    ensures
        cells_object(class, cells).class == class,
        cells_object(class, cells).cells == cells,
        cells_object(class, cells).bytes.len() == 0,
        bytes_object(bytes).class == ClassId(ClassId::BYTE_STRING),
        bytes_object(bytes).bytes == bytes,
        bytes_object(bytes).cells.len() == 0,
{
}

/// The three singletons are the first three objects of every heap, and differ.
pub proof fn singletons_stand_first(h: Seq<ObjectView>)
    requires
        heap_wf(h),
    ensures
        class_at(h, true_word()) == Some(ClassId(ClassId::BOOLEAN)),
        class_at(h, false_word()) == Some(ClassId(ClassId::BOOLEAN)),
        class_at(h, nil_word()) == Some(ClassId(ClassId::EMPTY_LIST)),
        true_word().raw == 9,
        false_word().raw == 17,
        nil_word().raw == 25,
{
    assert(h[0] == h.take(3)[0] && h[1] == h.take(3)[1] && h[2] == h.take(3)[2]);
}

impl Heap {
    /// A heap that holds the three singletons.
    pub fn new() -> (heap: Heap)
        ensures
            heap@ == initial_heap(),
            heap_wf(heap@),
    {
        let mut objects: Vec<Object> = Vec::new();
        objects.push(
            Object { class: ClassId(ClassId::BOOLEAN), cells: Vec::new(), bytes: Vec::new() },
        );
        objects.push(
            Object { class: ClassId(ClassId::BOOLEAN), cells: Vec::new(), bytes: Vec::new() },
        );
        objects.push(
            Object { class: ClassId(ClassId::EMPTY_LIST), cells: Vec::new(), bytes: Vec::new() },
        );
        let heap = Heap { objects };
        assert(heap@ =~~= initial_heap());
        assert(heap@.take(3) =~= heap@);
        heap
    }

    /// The number of objects.
    pub fn len(&self) -> (n: usize)
        ensures
            n == self@.len(),
    {
        self.objects.len()
    }

    /// Adds an object.
    pub fn alloc_object(&mut self, object: Object) -> (w: Word)
        requires
            old(self)@.len() < HEAP_LIMIT,
        ensures
            w == word_of(old(self)@.len() as int),
            final(self)@ == old(self)@.push(object@),
            object_at(final(self)@, w) == Some(object@),
    {
        let n: u64 = self.objects.len() as u64;
        self.objects.push(object);
        assert(self@ =~= old(self)@.push(object@));
        Word { raw: 8 * (n + 1) + 1 }
    }

    /// Adds an object that keeps its contents in cells.
    pub fn alloc_cells(&mut self, class: ClassId, cells: Vec<Word>) -> (w: Word)
        requires
            old(self)@.len() < HEAP_LIMIT,
        ensures
            w == word_of(old(self)@.len() as int),
            final(self)@ == old(self)@.push(cells_object(class, cells@)),
            object_at(final(self)@, w) == Some(cells_object(class, cells@)),
    {
        let object = Object { class, cells, bytes: Vec::new() };
        assert(object@ =~= cells_object(class, cells@));
        self.alloc_object(object)
    }

    /// Adds a pair.
    pub fn alloc_pair(&mut self, head: Word, tail: Word) -> (w: Word)
        requires
            old(self)@.len() < HEAP_LIMIT,
        ensures
            w == word_of(old(self)@.len() as int),
            final(self)@ == old(self)@.push(cells_object(ClassId(ClassId::PAIR), seq![head, tail])),
            object_at(final(self)@, w) == Some(
                cells_object(ClassId(ClassId::PAIR), seq![head, tail]),
            ),
    {
        let mut cells: Vec<Word> = Vec::new();
        cells.push(head);
        cells.push(tail);
        assert(cells@ =~= seq![head, tail]);
        self.alloc_cells(ClassId(ClassId::PAIR), cells)
    }

    /// Adds a vector of `n` zero cells.
    pub fn alloc_simple_object_vector(&mut self, n: usize) -> (w: Word)
        requires
            old(self)@.len() < HEAP_LIMIT,
        ensures
            w == word_of(old(self)@.len() as int),
            final(self)@ == old(self)@.push(
                cells_object(
                    ClassId(ClassId::SIMPLE_OBJECT_VECTOR),
                    Seq::new(n as nat, |i: int| zero_word()),
                ),
            ),
            object_at(final(self)@, w) == Some(
                cells_object(
                    ClassId(ClassId::SIMPLE_OBJECT_VECTOR),
                    Seq::new(n as nat, |i: int| zero_word()),
                ),
            ),
    {
        let mut cells: Vec<Word> = Vec::new();
        let mut i: usize = 0;
        while i < n
            invariant
                i <= n,
                cells@ == Seq::new(i as nat, |k: int| zero_word()),
            decreases n - i,
        {
            cells.push(Word { raw: 0 });
            assert(cells@ =~= Seq::new((i + 1) as nat, |k: int| zero_word()));
            i += 1;
        }
        self.alloc_cells(ClassId(ClassId::SIMPLE_OBJECT_VECTOR), cells)
    }

    /// Adds a byte string.
    pub fn alloc_byte_string(&mut self, bytes: Vec<u8>) -> (w: Word)
        requires
            old(self)@.len() < HEAP_LIMIT,
        ensures
            w == word_of(old(self)@.len() as int),
            final(self)@ == old(self)@.push(bytes_object(bytes@)),
            object_at(final(self)@, w) == Some(bytes_object(bytes@)),
    {
        let object = Object { class: ClassId(ClassId::BYTE_STRING), cells: Vec::new(), bytes };
        assert(object@ =~= bytes_object(bytes@));
        self.alloc_object(object)
    }

    /// Adds a byte string that holds a text in UTF-8.
    pub fn alloc_text(&mut self, text: &str) -> (w: Word)
        requires
            old(self)@.len() < HEAP_LIMIT,
        ensures
            w == word_of(old(self)@.len() as int),
            final(self)@ == old(self)@.push(bytes_object(encode_utf8(text@))),
            object_at(final(self)@, w) == Some(bytes_object(encode_utf8(text@))),
    {
        self.alloc_byte_string(text.as_bytes_vec())
    }

    /// The object that a word points at.
    pub fn get(&self, w: Word) -> (o: Option<&Object>)
        ensures
            o is Some <==> object_at(self@, w) is Some,
            o is Some ==> o->0@ == object_at(self@, w)->0,
    {
        if w.raw % 8 == 1 && w.raw > 8 && w.raw / 8 - 1 < self.objects.len() as u64 {
            let i: usize = (w.raw / 8 - 1) as usize;
            assert(self@[i as int] == self.objects@[i as int]@);
            Some(&self.objects[i])
        } else {
            None
        }
    }

    /// The class of the object that a word points at.
    pub fn class_of(&self, w: Word) -> (c: Option<ClassId>)
        ensures
            c == class_at(self@, w),
    {
        match self.get(w) {
            Some(o) => Some(o.class),
            None => None,
        }
    }

    /// Whether a word points at an object of exactly this class.
    pub fn is_instance(&self, w: Word, class: ClassId) -> (b: bool)
        ensures
            b == (class_at(self@, w) == Some(class)),
    {
        match self.get(w) {
            Some(o) => o.class == class,
            None => false,
        }
    }

    /// The `i`-th cell of the object that a word points at, if it has one.
    pub fn cell(&self, w: Word, i: usize) -> (v: Option<Word>)
        ensures
            v == cell_at(self@, w, i as int),
    {
        match self.get(w) {
            Some(o) => {
                if i < o.cells.len() {
                    Some(o.cells[i])
                } else {
                    None
                }
            },
            None => None,
        }
    }

    /// Replaces a cell.
    pub fn set_cell(&mut self, w: Word, i: usize, value: Word)
        requires
            cell_at(old(self)@, w, i as int) is Some,
        ensures
            final(self)@ == with_cell(old(self)@, w, i as int, value),
            final(self)@.len() == old(self)@.len(),
    {
        assert(points_into(self@, w));
        assert(index_of(w) < self.objects.len());
        let k: usize = (w.raw / 8 - 1) as usize;
        assert(self@[k as int] == self.objects@[k as int]@);
        self.objects[k].cells[i] = value;
        assert(self@ =~~= with_cell(old(self)@, w, i as int, value));
    }
}

} // verus!
