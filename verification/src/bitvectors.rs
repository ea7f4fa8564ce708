//! Bit vectors and bitwise integer operations.
//!
//! A bit vector keeps its bits in a vector of fixnum words, sixty bits to the
//! word. Bit `i` sits in word `i / 60` at position `i % 60`, so every word is a
//! non-negative fixnum.

use vstd::arithmetic::div_mod::{lemma_fundamental_div_mod, lemma_fundamental_div_mod_converse};
use vstd::arithmetic::mul::lemma_mul_is_associative;
use vstd::arithmetic::power2::{
    lemma2_to64, lemma2_to64_rest, lemma_pow2_adds, lemma_pow2_pos, lemma_pow2_strictly_increases,
    lemma_pow2_unfold, pow2,
};
use vstd::prelude::*;

use crate::classes::{slot_named_from, ClassId, ClassTable, TableView};
use crate::collections::{
    cell_update_keeps_wf, fixnum_else, fixnum_or, push_keeps_wf, vector_at,
};
use crate::heap::{
    cell_at, cells_object, class_at, false_word, heap_room, heap_wf, index_of,
    literal_pool_immediates, object_at, with_cell, word_of, zero_word, Heap, ObjectView,
};
use crate::text::same_text;
use crate::word::{
    fixnum, fixnum_round_trip, in_fixnum_range, Word, FIXNUM_MAX, FIXNUM_MIN,
};

verus! {

/// Bits per word.
pub const WORD_BITS: usize = 60;

/// First number that a word of bits cannot hold.
pub const WORD_LIMIT: u64 = 0x1000_0000_0000_0000;

// ----- the class -----

/// The class of bit vectors: where its instances keep their words and their
/// size, and how many slots they have.
#[derive(Clone, Copy, PartialEq, Eq, Structural, Debug)]
pub struct BitVectorClass {
    pub id: ClassId,
    pub words_slot: usize,
    pub size_slot: usize,
    pub slot_count: usize,
}

impl BitVectorClass {
    /// The two slots are different slots of the class, and bit vectors are no
    /// plain vectors.
    pub open spec fn wf(self) -> bool {
        &&& self.words_slot < self.slot_count
        &&& self.size_slot < self.slot_count
        &&& self.words_slot != self.size_slot
        &&& self.id != ClassId(ClassId::SIMPLE_OBJECT_VECTOR)
    }
}

/// The position of a slot by name.
fn slot_position(table: &ClassTable, id: ClassId, name: &str) -> (p: Option<usize>)
    requires
        table@.lookup(id) is Some,
    ensures
        p is Some <==> slot_named_from(table@.lookup(id)->0.slots, name@, 0) is Some,
        p is Some ==> p->0 == slot_named_from(table@.lookup(id)->0.slots, name@, 0)->0,
{
    let md = table.get(id);
    let mut i: usize = 0;
    while i < md.slots.len()
        invariant
            i <= md.slots.len(),
            table@.lookup(id) == Some(md@),
            slot_named_from(md@.slots, name@, 0) == slot_named_from(md@.slots, name@, i as int),
        decreases md.slots.len() - i,
    {
        assert(md@.slots[i as int] == md.slots@[i as int]@);
        if same_text(md.slots[i].name.as_str(), name) {
            return Some(i);
        }
        i += 1;
    }
    None
}

/// The class named `<bit-vector>`, with the positions of its two slots.
pub open spec fn bit_vector_class_in(t: TableView) -> Option<BitVectorClass> {
    match t.named("<bit-vector>"@) {
        None => None,
        Some(id) => {
            let c = t.lookup(id)->0;
            match (
                slot_named_from(c.slots, "%bit-vector-words"@, 0),
                slot_named_from(c.slots, "%bit-vector-bit-size"@, 0),
            ) {
                (Some(w), Some(s)) => Some(
                    BitVectorClass {
                        id,
                        words_slot: w as usize,
                        size_slot: s as usize,
                        slot_count: c.slots.len() as usize,
                    },
                ),
                _ => None,
            }
        },
    }
}

/// Finds the class of bit vectors, if it is registered.
pub fn bit_vector_metadata(table: &ClassTable) -> (c: Option<BitVectorClass>)
    ensures
        c == bit_vector_class_in(table@),
{
    let id = match table.find_by_name("<bit-vector>") {
        Some(id) => id,
        None => return None,
    };
    proof {
        crate::declare::named_is_registered(table@, "<bit-vector>"@);
    }
    match (
        slot_position(table, id, "%bit-vector-words"),
        slot_position(table, id, "%bit-vector-bit-size"),
    ) {
        (Some(words_slot), Some(size_slot)) => Some(
            BitVectorClass { id, words_slot, size_slot, slot_count: table.get(id).slots.len() },
        ),
        _ => None,
    }
}

// ----- what a bit vector holds -----

/// Bit `j` of a word.
pub open spec fn bit_of(w: u64, j: int) -> bool {
    (w >> (j as u64)) & 1u64 == 1u64
}

/// The bits in a cell; a word that is no fixnum has none.
pub open spec fn packed(cell: Word) -> u64 {
    #[verifier::truncate] (fixnum_or(cell, 0) as i64 as u64)
}

/// The words and the size of a bit vector.
pub open spec fn bit_vector_at(h: Seq<ObjectView>, c: BitVectorClass, w: Word) -> Option<
    (Word, int),
> {
    match object_at(h, w) {
        Some(o) => if o.class == c.id && c.words_slot < o.cells.len() && c.size_slot
            < o.cells.len() {
            let n = fixnum_or(o.cells[c.size_slot as int], 0);
            Some(
                (
                    o.cells[c.words_slot as int],
                    if n < 0 {
                        0
                    } else {
                        n
                    },
                ),
            )
        } else {
            None
        },
        None => None,
    }
}

/// How many words hold `n` bits.
pub open spec fn words_for(n: int) -> int {
    (n + 59) / 60
}

/// The words of a bit vector hold its bits and nothing else: there are enough of
/// them, each is in range, and every bit past the size is clear.
pub open spec fn bit_vector_wf(h: Seq<ObjectView>, c: BitVectorClass, w: Word) -> bool {
    match bit_vector_at(h, c, w) {
        Some((words, size)) => {
            &&& vector_at(h, words) is Some
            &&& words_for(size) <= vector_at(h, words)->0.len()
            &&& size <= usize::MAX - 59
            &&& forall|k: int|
                0 <= k < vector_at(h, words)->0.len() ==> {
                    let x = #[trigger] vector_at(h, words)->0[k];
                    x.spec_is_fixnum() && 0 <= x.fixnum_value() < WORD_LIMIT
                }
            &&& forall|i: int|
                size <= i < 60 * words_for(size) ==> !bit_of(
                    packed(vector_at(h, words)->0[i / 60]),
                    #[trigger] (i % 60),
                )
        },
        None => false,
    }
}

/// The bits of a bit vector; none for a word that is no bit vector.
pub open spec fn bits(h: Seq<ObjectView>, c: BitVectorClass, w: Word) -> Seq<bool> {
    match bit_vector_at(h, c, w) {
        Some((words, size)) => Seq::new(
            size as nat,
            |i: int| bit_of(packed(vector_at(h, words)->0[i / 60]), i % 60),
        ),
        None => seq![],
    }
}

/// The number of set bits.
pub open spec fn count_set(bs: Seq<bool>) -> int
    decreases bs.len(),
{
    if bs.len() == 0 {
        0
    } else {
        count_set(bs.drop_last()) + (if bs.last() {
            1int
        } else {
            0
        })
    }
}

/// A bit as an integer.
pub open spec fn bit_number(b: bool) -> int {
    if b {
        1
    } else {
        0
    }
}

// ----- facts about words of bits -----

proof fn set_bit_facts(w: u64, j: u64, k: u64)
    requires
        w < WORD_LIMIT,
        j < 60,
        k < 60,
    ensures
        (w | (1u64 << k)) < WORD_LIMIT,
        (w & !(1u64 << k)) < WORD_LIMIT,
        bit_of(w | (1u64 << k), j as int) == (j == k || bit_of(w, j as int)),
        bit_of(w & !(1u64 << k), j as int) == (j != k && bit_of(w, j as int)),
{
    assert((w | (1u64 << k)) < 0x1000_0000_0000_0000u64) by (bit_vector)
        requires
            w < 0x1000_0000_0000_0000u64,
            k < 60,
    ;
    assert((w & !(1u64 << k)) < 0x1000_0000_0000_0000u64) by (bit_vector)
        requires
            w < 0x1000_0000_0000_0000u64,
    ;
    assert(((w | (1u64 << k)) >> j) & 1u64 == 1u64 <==> (j == k || (w >> j) & 1u64 == 1u64))
        by (bit_vector)
        requires
            j < 60,
            k < 60,
    ;
    assert(((w & !(1u64 << k)) >> j) & 1u64 == 1u64 <==> (j != k && (w >> j) & 1u64 == 1u64))
        by (bit_vector)
        requires
            j < 60,
            k < 60,
    ;
}

proof fn zero_has_no_bits(j: u64)
    requires
        j < 60,
    ensures
        !bit_of(0, j as int),
{
    assert((0u64 >> j) & 1u64 == 0u64) by (bit_vector)
        requires
            j < 60,
    ;
}

proof fn ones_facts(n: u64, j: u64)
    requires
        n <= 60,
        j < 60,
    ensures
        ((1u64 << n) - 1) as u64 <= WORD_LIMIT - 1,
        (1u64 << n) >= 1,
        bit_of(((1u64 << n) - 1) as u64, j as int) == (j < n),
{
    assert((1u64 << n) >= 1 && (1u64 << n) <= 0x1000_0000_0000_0000u64) by (bit_vector)
        requires
            n <= 60,
    ;
    let ones = ((1u64 << n) - 1) as u64;
    assert((ones >> j) & 1u64 == 1u64 <==> j < n) by (bit_vector)
        requires
            n <= 60,
            j < 60,
            ones == ((1u64 << n) - 1) as u64,
    ;
}

proof fn packed_fixnum(n: int)
    requires
        0 <= n < WORD_LIMIT,
    ensures
        packed(fixnum(n)) == n,
        fixnum(n).spec_is_fixnum(),
        fixnum(n).fixnum_value() == n,
{
    fixnum_round_trip(n);
}

// ----- making -----

/// How many words hold `nbits` bits.
pub fn words_for_bits(nbits: usize) -> (n: usize)
    requires
        nbits <= usize::MAX - 59,
    ensures
        n == words_for(nbits as int),
{
    (nbits + (WORD_BITS - 1)) / WORD_BITS
}

/// The word of a fresh bit vector: as many ones as bits of the vector fall in
/// it.
pub open spec fn filled_word(size: int, fill: bool, k: int) -> Word {
    if !fill || k >= words_for(size) {
        fixnum(0)
    } else if (k + 1) * 60 <= size {
        fixnum(WORD_LIMIT - 1)
    } else {
        fixnum(((1u64 << ((size - k * 60) as u64)) - 1) as int)
    }
}

/// The words of a fresh bit vector.
pub open spec fn filled_words(size: int, fill: bool) -> Seq<Word> {
    Seq::new(
        if words_for(size) == 0 {
            1
        } else {
            words_for(size) as nat
        },
        |k: int| filled_word(size, fill, k),
    )
}

/// The cells of a bit vector: the two slots of its class, other slots zero.
pub open spec fn bit_vector_cells(c: BitVectorClass, words: Word, size: int) -> Seq<Word> {
    Seq::new(
        c.slot_count as nat,
        |i: int|
            if i == c.words_slot {
                words
            } else if i == c.size_slot {
                fixnum(size)
            } else {
                zero_word()
            },
    )
}

/// Makes a bit vector of `size` bits, all set if `fill` is not zero, else all
/// clear.
pub fn make_bit_vector(heap: &mut Heap, class: &BitVectorClass, size: usize, fill: i64) -> (w:
    Word)
    requires
        heap_wf(old(heap)@),
        heap_room(old(heap)@, 2),
        class.wf(),
        size <= FIXNUM_MAX,
        size <= usize::MAX - 59,
    ensures
        w == word_of(old(heap)@.len() as int + 1),
        final(heap)@ == old(heap)@.push(
            cells_object(
                ClassId(ClassId::SIMPLE_OBJECT_VECTOR),
                filled_words(size as int, fill != 0),
            ),
        ).push(
            cells_object(
                class.id,
                bit_vector_cells(*class, word_of(old(heap)@.len() as int), size as int),
            ),
        ),
        bits(final(heap)@, *class, w) == Seq::new(size as nat, |i: int| fill != 0),
        bit_vector_wf(final(heap)@, *class, w),
        heap_wf(final(heap)@),
{
    let nwords = words_for_bits(size);
    let total: usize = if nwords == 0 {
        1
    } else {
        nwords
    };
    let mut cells: Vec<Word> = Vec::new();
    let mut k: usize = 0;
    while k < total
        invariant
            k <= total,
            nwords == words_for(size as int),
            size <= usize::MAX - 59,
            total == if nwords == 0 {
                1
            } else {
                nwords
            },
            cells@.len() == k,
            forall|i: int|
                0 <= i < k ==> #[trigger] cells@[i] == filled_word(size as int, fill != 0, i),
        decreases total - k,
    {
        let value: u64 = if fill == 0 || k >= nwords {
            0
        } else if size / WORD_BITS >= k + 1 {
            WORD_LIMIT - 1
        } else {
            let rest: u64 = (size - k * WORD_BITS) as u64;
            proof {
                ones_facts(rest, 0);
            }
            (1u64 << rest) - 1
        };
        cells.push(Word::fixnum_unchecked(value as i64));
        k += 1;
    }
    assert(cells@ =~= filled_words(size as int, fill != 0));
    let ghost h = heap@;
    proof {
        push_keeps_wf(h, cells_object(ClassId(ClassId::SIMPLE_OBJECT_VECTOR), cells@));
    }
    let words = heap.alloc_cells(ClassId(ClassId::SIMPLE_OBJECT_VECTOR), cells);
    let mut slots: Vec<Word> = Vec::new();
    let mut i: usize = 0;
    while i < class.slot_count
        invariant
            i <= class.slot_count,
            size <= FIXNUM_MAX,
            slots@.len() == i,
            forall|k: int|
                0 <= k < i ==> #[trigger] slots@[k] == bit_vector_cells(
                    *class,
                    words,
                    size as int,
                )[k],
        decreases class.slot_count - i,
    {
        if i == class.words_slot {
            slots.push(words);
        } else if i == class.size_slot {
            slots.push(Word::fixnum_unchecked(size as i64));
        } else {
            slots.push(Word::from_raw(0));
        }
        i += 1;
    }
    assert(slots@ =~= bit_vector_cells(*class, words, size as int));
    let ghost mid = heap@;
    proof {
        push_keeps_wf(mid, cells_object(class.id, slots@));
    }
    let w = heap.alloc_cells(class.id, slots);
    proof {
        let g = heap@;
        let n = h.len() as int;
        let ws = filled_words(size as int, fill != 0);
        fixnum_round_trip(size as int);
        assert(g[n] == cells_object(ClassId(ClassId::SIMPLE_OBJECT_VECTOR), ws));
        assert(vector_at(g, words) == Some(ws));
        assert(bit_vector_at(g, *class, w) == Some((words, size as int)));
        assert forall|k: int| 0 <= k < ws.len() implies {
            let x = #[trigger] ws[k];
            x.spec_is_fixnum() && 0 <= x.fixnum_value() < WORD_LIMIT
        } by {
            fresh_word_bits(size as int, fill != 0, k, 0);
        }
        assert forall|i: int| 0 <= i < 60 * words_for(size as int) implies bit_of(
            packed(ws[i / 60]),
            #[trigger] (i % 60),
        ) == (fill != 0 && i < size) by {
            fresh_word_bits(size as int, fill != 0, i / 60, i % 60);
        }
        assert(bits(g, *class, w) =~= Seq::new(size as nat, |i: int| fill != 0)) by {
            assert forall|i: int| 0 <= i < size implies #[trigger] bits(g, *class, w)[i] == (fill
                != 0) by {
                assert(bit_of(packed(ws[i / 60]), i % 60) == (fill != 0 && i < size));
            }
        }
    }
    w
}

/// The bits of a word of a fresh bit vector.
proof fn fresh_word_bits(size: int, fill: bool, k: int, j: int)
    requires
        0 <= size,
        0 <= k,
        0 <= j < 60,
    ensures
        filled_word(size, fill, k).spec_is_fixnum(),
        0 <= filled_word(size, fill, k).fixnum_value() < WORD_LIMIT,
        bit_of(packed(filled_word(size, fill, k)), j) == (fill && 60 * k + j < size),
{
    if !fill || k >= words_for(size) {
        packed_fixnum(0);
        zero_has_no_bits(j as u64);
    } else if (k + 1) * 60 <= size {
        packed_fixnum(WORD_LIMIT - 1);
        ones_facts(60, j as u64);
        assert((1u64 << 60u64) == 0x1000_0000_0000_0000u64) by (bit_vector);
    } else {
        let n = (size - k * 60) as u64;
        ones_facts(n, j as u64);
        packed_fixnum(((1u64 << n) - 1) as int);
    }
}

// ----- reading and writing -----

/// The words and the size of a bit vector; absent for a word that is none.
fn bit_vector_fields(heap: &Heap, class: &BitVectorClass, bv: Word) -> (f: Option<(Word, i64)>)
    ensures
        f is Some <==> bit_vector_at(heap@, *class, bv) is Some,
        f is Some ==> (f->0).0 == (bit_vector_at(heap@, *class, bv)->0).0 && (f->0).1 == (
        bit_vector_at(heap@, *class, bv)->0).1,
{
    match heap.get(bv) {
        Some(o) => {
            if o.class == class.id && class.words_slot < o.cells.len() && class.size_slot
                < o.cells.len() {
                let n = fixnum_else(o.cells[class.size_slot], 0);
                Some(
                    (
                        o.cells[class.words_slot],
                        if n < 0 {
                            0
                        } else {
                            n
                        },
                    ),
                )
            } else {
                None
            }
        },
        None => None,
    }
}

/// Whether a word can be used as a bit vector: what has the class of bit vectors
/// has sound words. What is no bit vector raises no objection.
pub fn bit_vector_is_intact(heap: &Heap, class: &BitVectorClass, bv: Word) -> (b: bool)
    ensures
        b == (bit_vector_at(heap@, *class, bv) is Some ==> bit_vector_wf(heap@, *class, bv)),
{
    let (words, size) = match bit_vector_fields(heap, class, bv) {
        Some(f) => f,
        None => return true,
    };
    let cells: &Vec<Word> = match heap.get(words) {
        Some(o) => {
            if o.class != ClassId(ClassId::SIMPLE_OBJECT_VECTOR) {
                return false;
            }
            &o.cells
        },
        None => return false,
    };
    assert(vector_at(heap@, words) == Some(cells@));
    if size as u64 > (usize::MAX - 59) as u64 {
        return false;
    }
    let n: usize = size as usize;
    let nwords: usize = words_for_bits(n);
    if nwords > cells.len() {
        return false;
    }
    let mut k: usize = 0;
    while k < cells.len()
        invariant
            k <= cells.len(),
            bit_vector_at(heap@, *class, bv) == Some((words, size as int)),
            vector_at(heap@, words) == Some(cells@),
            forall|j: int|
                0 <= j < k ==> (#[trigger] cells@[j]).spec_is_fixnum() && 0
                    <= cells@[j].fixnum_value() < WORD_LIMIT,
        decreases cells.len() - k,
    {
        match cells[k].as_fixnum() {
            Some(x) => {
                if x < 0 || x as u64 >= WORD_LIMIT {
                    assert(vector_at(heap@, words)->0[k as int] == cells@[k as int]);
                    return false;
                }
            },
            None => {
                assert(vector_at(heap@, words)->0[k as int] == cells@[k as int]);
                return false;
            },
        }
        k += 1;
    }
    let mut i: usize = n;
    while i < 60 * nwords
        invariant
            n <= i <= 60 * nwords,
            n == size,
            nwords == words_for(n as int),
            n <= usize::MAX - 59,
            nwords <= cells.len(),
            bit_vector_at(heap@, *class, bv) == Some((words, size as int)),
            vector_at(heap@, words) == Some(cells@),
            forall|j: int|
                0 <= j < cells@.len() ==> (#[trigger] cells@[j]).spec_is_fixnum() && 0
                    <= cells@[j].fixnum_value() < WORD_LIMIT,
            forall|j: int|
                n <= j < i ==> !bit_of(packed(cells@[j / 60]), #[trigger] (j % 60)),
        decreases 60 * nwords - i,
    {
        let w: usize = i / WORD_BITS;
        let j: u64 = (i % WORD_BITS) as u64;
        let value: u64 = cells[w].as_fixnum().unwrap() as u64;
        assert(packed(cells@[w as int]) == value);
        assert(j == i as int % 60 && w == i as int / 60);
        if (value >> j) & 1 == 1 {
            assert(bit_of(packed(cells@[i as int / 60]), i as int % 60));
            return false;
        }
        i += 1;
    }
    true
}

/// Reads a bit; a bit out of range reads as zero.
pub fn bit_vector_ref(heap: &Heap, class: &BitVectorClass, bv: Word, i: usize) -> (b: i64)
    requires
        bit_vector_at(heap@, *class, bv) is Some ==> bit_vector_wf(heap@, *class, bv),
    ensures
        b == bit_number(
            i < bits(heap@, *class, bv).len() && bits(heap@, *class, bv)[i as int],
        ),
{
    let (words, size) = match bit_vector_fields(heap, class, bv) {
        Some(f) => f,
        None => return 0,
    };
    if i as u64 >= size as u64 {
        return 0;
    }
    let k: usize = i / WORD_BITS;
    let j: u64 = (i % WORD_BITS) as u64;
    let cell = heap.cell(words, k).unwrap();
    let value: u64 = cell.as_fixnum().unwrap() as u64;
    proof {
        assert(cell == vector_at(heap@, words)->0[k as int]);
        assert(packed(cell) == value);
    }
    let bit: u64 = (value >> j) & 1;
    proof {
        assert((value >> j) & 1u64 == 0u64 || (value >> j) & 1u64 == 1u64) by (bit_vector);
    }
    bit as i64
}

/// The heap after writing bit `i`: only the word that holds the bit changes.
pub open spec fn with_bit(
    h: Seq<ObjectView>,
    c: BitVectorClass,
    w: Word,
    i: int,
    value: bool,
) -> Seq<ObjectView> {
    let words = (bit_vector_at(h, c, w)->0).0;
    let old_word = packed(vector_at(h, words)->0[i / 60]);
    let mask = 1u64 << ((i % 60) as u64);
    with_cell(
        h,
        words,
        i / 60,
        fixnum(
            if value {
                (old_word | mask) as int
            } else {
                (old_word & !mask) as int
            },
        ),
    )
}

/// Writes a bit and answers the vector; a bit out of range is left alone.
pub fn bit_vector_set(
    heap: &mut Heap,
    class: &BitVectorClass,
    bv: Word,
    i: usize,
    value: i64,
) -> (r: Word)
    requires
        heap_wf(old(heap)@),
        class.wf(),
        bit_vector_at(old(heap)@, *class, bv) is Some ==> bit_vector_wf(old(heap)@, *class, bv),
    ensures
        r == bv,
        final(heap)@ == if i < bits(old(heap)@, *class, bv).len() {
            with_bit(old(heap)@, *class, bv, i as int, value != 0)
        } else {
            old(heap)@
        },
        bits(final(heap)@, *class, bv) == if i < bits(old(heap)@, *class, bv).len() {
            bits(old(heap)@, *class, bv).update(i as int, value != 0)
        } else {
            bits(old(heap)@, *class, bv)
        },
        bit_vector_at(old(heap)@, *class, bv) is Some ==> bit_vector_wf(final(heap)@, *class, bv),
        heap_wf(final(heap)@),
{
    let ghost h = heap@;
    let (words, size) = match bit_vector_fields(heap, class, bv) {
        Some(f) => f,
        None => return bv,
    };
    if i as u64 >= size as u64 {
        return bv;
    }
    let k: usize = i / WORD_BITS;
    let j: u64 = (i % WORD_BITS) as u64;
    let cell = heap.cell(words, k).unwrap();
    let current: u64 = cell.as_fixnum().unwrap() as u64;
    proof {
        assert(cell == vector_at(heap@, words)->0[k as int]);
        assert(packed(cell) == current);
        set_bit_facts(current, j, j);
    }
    let next: u64 = if value != 0 {
        current | (1u64 << j)
    } else {
        current & !(1u64 << j)
    };
    let w = Word::fixnum_unchecked(next as i64);
    proof {
        cell_update_keeps_wf(heap@, words, k as int, w);
    }
    heap.set_cell(words, k, w);
    proof {
        let g = heap@;
        let old_words = vector_at(h, words)->0;
        let ws = old_words.update(k as int, w);
        assert(index_of(words) != index_of(bv));
        assert(g[index_of(bv)] == h[index_of(bv)]);
        assert(vector_at(g, words)->0 =~= ws);
        packed_fixnum(next as int);
        assert forall|x: int| 0 <= x < 60 * words_for(size as int) implies bit_of(
            packed(ws[x / 60]),
            #[trigger] (x % 60),
        ) == (if x == i {
            value != 0
        } else {
            bit_of(packed(old_words[x / 60]), x % 60)
        }) by {
            if x / 60 == k {
                set_bit_facts(current, (x % 60) as u64, j);
                if x % 60 == j {
                    assert(x == 60 * k + j);
                    assert(i == 60 * k + j);
                }
            }
        }
        assert(bits(g, *class, bv) =~= bits(h, *class, bv).update(i as int, value != 0)) by {
            assert forall|x: int| 0 <= x < size implies #[trigger] bits(g, *class, bv)[x] == bits(
                h,
                *class,
                bv,
            ).update(i as int, value != 0)[x] by {
                assert(bit_of(packed(ws[x / 60]), x % 60) == (if x == i {
                    value != 0
                } else {
                    bit_of(packed(old_words[x / 60]), x % 60)
                }));
            }
        }
    }
    bv
}

/// The number of bits; zero for a word that is no bit vector.
pub fn bit_vector_size(heap: &Heap, class: &BitVectorClass, bv: Word) -> (n: u64)
    ensures
        n == bits(heap@, *class, bv).len(),
{
    match bit_vector_fields(heap, class, bv) {
        Some((_, size)) => size as u64,
        None => 0,
    }
}

/// The number of set bits; zero for a word that is no bit vector.
pub fn bit_vector_count(heap: &Heap, class: &BitVectorClass, bv: Word) -> (n: i64)
    requires
        bit_vector_at(heap@, *class, bv) is Some ==> bit_vector_wf(heap@, *class, bv),
    ensures
        n == count_set(bits(heap@, *class, bv)),
        0 <= n <= FIXNUM_MAX,
{
    let (words, size) = match bit_vector_fields(heap, class, bv) {
        Some(f) => f,
        None => return 0,
    };
    let ghost bs = bits(heap@, *class, bv);
    let mut total: i64 = 0;
    let mut i: i64 = 0;
    assert(bs.take(0) =~= seq![]);
    while i < size
        invariant
            0 <= i <= size <= FIXNUM_MAX,
            bit_vector_wf(heap@, *class, bv),
            bit_vector_at(heap@, *class, bv) == Some((words, size as int)),
            bs == bits(heap@, *class, bv),
            0 <= total <= i,
            total == count_set(bs.take(i as int)),
        decreases size - i,
    {
        let bit = bit_vector_ref(heap, class, bv, i as usize);
        proof {
            assert(bs.take(i + 1).drop_last() =~= bs.take(i as int));
            assert(bs.take(i + 1).last() == bs[i as int]);
        }
        total = total + bit;
        i = i + 1;
    }
    assert(bs.take(i as int) =~= bs);
    total
}

/// Writing a bit and reading it back gives what was written; other bits are
/// unchanged.
pub proof fn set_then_ref(bs: Seq<bool>, i: int, value: bool, j: int)
    requires
        0 <= i < bs.len(),
        0 <= j < bs.len(),
    ensures
        bs.update(i, value)[j] == if i == j {
            value
        } else {
            bs[j]
        },
{
}

/// Writing a bit changes the count by what the bit gained or lost.
pub proof fn set_changes_count(bs: Seq<bool>, i: int, value: bool)
    requires
        0 <= i < bs.len(),
    ensures
        count_set(bs.update(i, value)) == count_set(bs) + bit_number(value) - bit_number(bs[i]),
    decreases bs.len(),
{
    if i == bs.len() - 1 {
        assert(bs.update(i, value).drop_last() =~= bs.drop_last());
    } else {
        set_changes_count(bs.drop_last(), i, value);
        assert(bs.update(i, value).drop_last() =~= bs.drop_last().update(i, value));
    }
}

/// A bit vector filled with ones counts its size, one filled with zeros counts
/// nothing.
pub proof fn fill_counts(n: nat, fill: bool)
    ensures
        count_set(Seq::new(n, |i: int| fill)) == if fill {
            n as int
        } else {
            0
        },
    decreases n,
{
    if n > 0 {
        fill_counts((n - 1) as nat, fill);
        assert(Seq::new(n, |i: int| fill).drop_last() =~= Seq::new((n - 1) as nat, |i: int| fill));
    }
}

// ----- primitives on raw words -----

/// Makes a bit vector. A size word that is no fixnum, or negative, counts as
/// zero; `#f` and zero fill with clear bits, anything else with set ones.
pub fn nod_bit_vector_allocate(
    heap: &mut Heap,
    class: &BitVectorClass,
    size_raw: u64,
    fill_raw: u64,
) -> (r: u64)
    requires
        heap_wf(old(heap)@),
        heap_room(old(heap)@, 2),
        class.wf(),
        fixnum_or(Word { raw: size_raw }, 0) <= usize::MAX - 59,
    ensures
        r == word_of(old(heap)@.len() as int + 1).raw,
        ({
            let n = fixnum_or(Word { raw: size_raw }, 0);
            let size = if n < 0 {
                0
            } else {
                n
            };
            let clear = Word { raw: fill_raw } == false_word() || fill_raw == 0;
            &&& final(heap)@ == old(heap)@.push(
                cells_object(
                    ClassId(ClassId::SIMPLE_OBJECT_VECTOR),
                    filled_words(size, !clear),
                ),
            ).push(
                cells_object(
                    class.id,
                    bit_vector_cells(*class, word_of(old(heap)@.len() as int), size),
                ),
            )
            &&& bits(final(heap)@, *class, Word { raw: r }) == Seq::new(
                size as nat,
                |i: int| !clear,
            )
        }),
        bit_vector_wf(final(heap)@, *class, Word { raw: r }),
        heap_wf(final(heap)@),
{
    let n = fixnum_else(Word::from_raw(size_raw), 0);
    let size: usize = if n < 0 {
        0
    } else {
        n as usize
    };
    let fill_w = Word::from_raw(fill_raw);
    let fill: i64 = if fill_w == literal_pool_immediates().false_ || fill_raw == 0 {
        0
    } else {
        1
    };
    let r = make_bit_vector(heap, class, size, fill).raw();
    proof {
        let clear = Word { raw: fill_raw } == false_word() || fill_raw == 0;
        assert(Seq::new(size as nat, |i: int| fill != 0) =~= Seq::new(
            size as nat,
            |i: int| !clear,
        ));
    }
    r
}

/// Reads a bit as a fixnum.
pub fn nod_bit_vector_ref(heap: &Heap, class: &BitVectorClass, bv_raw: u64, i_raw: u64) -> (r: u64)
    requires
        bit_vector_at(heap@, *class, Word { raw: bv_raw }) is Some ==> bit_vector_wf(
            heap@,
            *class,
            Word { raw: bv_raw },
        ),
    ensures
        ({
            let bs = bits(heap@, *class, Word { raw: bv_raw });
            let i = fixnum_or(Word { raw: i_raw }, -1);
            r == fixnum(bit_number(0 <= i < bs.len() && bs[i])).raw
        }),
{
    let i = fixnum_else(Word::from_raw(i_raw), -1);
    let bv = Word::from_raw(bv_raw);
    if i < 0 || i as u64 >= bit_vector_size(heap, class, bv) {
        return Word::fixnum_unchecked(0).raw();
    }
    proof {
        assert(i <= usize::MAX);
    }
    Word::fixnum_unchecked(bit_vector_ref(heap, class, bv, i as usize)).raw()
}

/// Writes a bit and answers the vector; a value word that is no fixnum counts as
/// zero.
pub fn nod_bit_vector_set(
    heap: &mut Heap,
    class: &BitVectorClass,
    bv_raw: u64,
    i_raw: u64,
    value_raw: u64,
) -> (r: u64)
    requires
        heap_wf(old(heap)@),
        class.wf(),
        bit_vector_at(old(heap)@, *class, Word { raw: bv_raw }) is Some ==> bit_vector_wf(
            old(heap)@,
            *class,
            Word { raw: bv_raw },
        ),
    ensures
        r == bv_raw,
        ({
            let bv = Word { raw: bv_raw };
            let bs = bits(old(heap)@, *class, bv);
            let i = fixnum_or(Word { raw: i_raw }, -1);
            let value = fixnum_or(Word { raw: value_raw }, 0) != 0;
            &&& final(heap)@ == if 0 <= i < bs.len() {
                with_bit(old(heap)@, *class, bv, i, value)
            } else {
                old(heap)@
            }
            &&& bits(final(heap)@, *class, bv) == if 0 <= i < bs.len() {
                bs.update(i, value)
            } else {
                bs
            }
        }),
        heap_wf(final(heap)@),
{
    let i = fixnum_else(Word::from_raw(i_raw), -1);
    let bv = Word::from_raw(bv_raw);
    if i < 0 || i as u64 >= bit_vector_size(heap, class, bv) {
        return bv_raw;
    }
    let value = fixnum_else(Word::from_raw(value_raw), 0);
    bit_vector_set(heap, class, bv, i as usize, value).raw()
}

/// The number of bits as a fixnum.
pub fn nod_bit_vector_size(heap: &Heap, class: &BitVectorClass, bv_raw: u64) -> (r: u64)
    ensures
        r == fixnum(bits(heap@, *class, Word { raw: bv_raw }).len() as int).raw,
{
    match bit_vector_fields(heap, class, Word::from_raw(bv_raw)) {
        Some((_, size)) => Word::fixnum_unchecked(size).raw(),
        None => Word::fixnum_unchecked(0).raw(),
    }
}

/// The number of set bits as a fixnum.
pub fn nod_bit_vector_count(heap: &Heap, class: &BitVectorClass, bv_raw: u64) -> (r: u64)
    requires
        bit_vector_at(heap@, *class, Word { raw: bv_raw }) is Some ==> bit_vector_wf(
            heap@,
            *class,
            Word { raw: bv_raw },
        ),
    ensures
        r == fixnum(count_set(bits(heap@, *class, Word { raw: bv_raw }))).raw,
{
    Word::fixnum_unchecked(bit_vector_count(heap, class, Word::from_raw(bv_raw))).raw()
}

// ----- bitwise operations on integers -----

/// The fixnum range's nearest integer.
pub open spec fn clamped(n: int) -> int {
    if n < FIXNUM_MIN {
        FIXNUM_MIN as int
    } else if n > FIXNUM_MAX {
        FIXNUM_MAX as int
    } else {
        n
    }
}

/// The integer that an operand word stands for; a word that is no fixnum counts
/// as zero.
pub open spec fn int_operand(raw: u64) -> i64 {
    fixnum_or(Word { raw }, 0) as i64
}

fn read_operand(raw: u64) -> (n: i64)
    ensures
        n == int_operand(raw),
        in_fixnum_range(n as int),
{
    fixnum_else(Word::from_raw(raw), 0)
}

/// Bitwise and.
pub fn nod_logand(a_raw: u64, b_raw: u64) -> (r: u64)
    ensures
        r == fixnum((int_operand(a_raw) & int_operand(b_raw)) as int).raw,
{
    let a = read_operand(a_raw);
    let b = read_operand(b_raw);
    assert(-0x4000_0000_0000_0000 <= (a & b) <= 0x3fff_ffff_ffff_ffff) by (bit_vector)
        requires
            -0x4000_0000_0000_0000 <= a <= 0x3fff_ffff_ffff_ffff,
            -0x4000_0000_0000_0000 <= b <= 0x3fff_ffff_ffff_ffff,
    ;
    Word::fixnum_unchecked(a & b).raw()
}

/// Bitwise inclusive or.
pub fn nod_logior(a_raw: u64, b_raw: u64) -> (r: u64)
    ensures
        r == fixnum((int_operand(a_raw) | int_operand(b_raw)) as int).raw,
{
    let a = read_operand(a_raw);
    let b = read_operand(b_raw);
    assert(-0x4000_0000_0000_0000 <= (a | b) <= 0x3fff_ffff_ffff_ffff) by (bit_vector)
        requires
            -0x4000_0000_0000_0000 <= a <= 0x3fff_ffff_ffff_ffff,
            -0x4000_0000_0000_0000 <= b <= 0x3fff_ffff_ffff_ffff,
    ;
    Word::fixnum_unchecked(a | b).raw()
}

/// Bitwise exclusive or.
pub fn nod_logxor(a_raw: u64, b_raw: u64) -> (r: u64)
    ensures
        r == fixnum((int_operand(a_raw) ^ int_operand(b_raw)) as int).raw,
{
    let a = read_operand(a_raw);
    let b = read_operand(b_raw);
    assert(-0x4000_0000_0000_0000 <= (a ^ b) <= 0x3fff_ffff_ffff_ffff) by (bit_vector)
        requires
            -0x4000_0000_0000_0000 <= a <= 0x3fff_ffff_ffff_ffff,
            -0x4000_0000_0000_0000 <= b <= 0x3fff_ffff_ffff_ffff,
    ;
    Word::fixnum_unchecked(a ^ b).raw()
}

/// Bitwise complement: every bit of the two's-complement reading is flipped.
pub fn nod_lognot(a_raw: u64) -> (r: u64)
    ensures
        r == fixnum(-int_operand(a_raw) - 1).raw,
{
    let a = read_operand(a_raw);
    Word::fixnum_unchecked(-1 - a).raw()
}

/// The integer shifted left by `count` bits, or right by `-count` bits with the
/// sign kept, without loss of high bits.
pub open spec fn shifted(n: int, count: int) -> int {
    if count >= 0 {
        n * pow2(count as nat)
    } else {
        n / pow2((-count) as nat) as int
    }
}

/// Doubles `n` `count` times and clamps.
fn shift_left(n: i64, count: i64) -> (r: i64)
    requires
        in_fixnum_range(n as int),
        count >= 0,
    ensures
        r == clamped(n * pow2(count as nat)),
{
    if n == 0 {
        assert(0 * pow2(count as nat) == 0);
        return 0;
    }
    let mut v: i64 = n;
    let mut i: i64 = 0;
    proof {
        lemma2_to64();
        assert(n * 1 == n);
    }
    while i < count
        invariant
            0 <= i <= count,
            n != 0,
            in_fixnum_range(v as int),
            v == n * pow2(i as nat),
            v != 0,
        decreases count - i,
    {
        proof {
            lemma_pow2_unfold((i + 1) as nat);
            lemma_mul_is_associative(n as int, pow2(i as nat) as int, 2);
            assert(n * pow2((i + 1) as nat) == 2 * v) by {
                assert(pow2((i + 1) as nat) == pow2(i as nat) * 2);
            }
        }
        if v > 0x1fff_ffff_ffff_ffff || v < -0x2000_0000_0000_0000 {
            proof {
                let rest = (count - i - 1) as nat;
                lemma_pow2_adds((i + 1) as nat, rest);
                lemma_pow2_pos(rest);
                let d = 2 * v;
                let p = pow2(rest) as int;
                assert(n * pow2(count as nat) == d * p) by {
                    lemma_mul_is_associative(n as int, pow2((i + 1) as nat) as int, p);
                    assert((i + 1) as nat + rest == count as nat);
                }
                assert(d > 0 ==> d * p >= d) by (nonlinear_arith)
                    requires
                        p >= 1,
                ;
                assert(d < 0 ==> d * p <= d) by (nonlinear_arith)
                    requires
                        p >= 1,
                ;
            }
            return if v > 0 {
                FIXNUM_MAX
            } else {
                FIXNUM_MIN
            };
        }
        v = 2 * v;
        i = i + 1;
    }
    v
}

/// Dividing twice is dividing by the product, rounding down each time.
proof fn floor_division_composes(n: int, a: int, c: int)
    requires
        a > 0,
        c > 0,
    ensures
        (n / a) / c == n / (a * c),
        a * c > 0,
{
    let q = n / a;
    let s = q / c;
    let r = n % a;
    let t = q % c;
    lemma_fundamental_div_mod(n, a);
    lemma_fundamental_div_mod(q, c);
    assert(n == s * (a * c) + (a * t + r) && 0 <= a * t + r < a * c && a * c > 0)
        by (nonlinear_arith)
        requires
            a > 0,
            c > 0,
            n == a * q + r,
            0 <= r < a,
            q == c * s + t,
            0 <= t < c,
    ;
    lemma_fundamental_div_mod_converse(n, a * c, s, a * t + r);
}

/// Halves `n` `count` times, rounding down.
fn shift_right(n: i64, count: i64) -> (r: i64)
    requires
        in_fixnum_range(n as int),
        count >= 0,
    ensures
        r == n as int / pow2(count as nat) as int,
        in_fixnum_range(r as int),
{
    let mut v: i64 = n;
    let mut i: i64 = 0;
    proof {
        lemma2_to64();
        assert(n as int / 1 == n);
    }
    while i < count
        invariant
            0 <= i <= count,
            in_fixnum_range(v as int),
            v == n as int / pow2(i as nat) as int,
        decreases count - i,
    {
        proof {
            lemma_pow2_pos(i as nat);
            lemma_pow2_unfold((i + 1) as nat);
            floor_division_composes(n as int, pow2(i as nat) as int, 2);
            assert(pow2((i + 1) as nat) == pow2(i as nat) * 2);
        }
        if v == 0 || v == -1 {
            proof {
                let rest = (count - i) as nat;
                lemma_pow2_adds(i as nat, rest);
                lemma_pow2_pos(rest);
                floor_division_composes(n as int, pow2(i as nat) as int, pow2(rest) as int);
                let p = pow2(rest) as int;
                assert(v as int / p == v) by (nonlinear_arith)
                    requires
                        p >= 1,
                        v == 0 || v == -1,
                ;
                assert(i as nat + rest == count as nat);
            }
            return v;
        }
        v = if v >= 0 {
            v / 2
        } else {
            -((1 - v) / 2)
        };
        i = i + 1;
    }
    v
}

/// Arithmetic shift: left for a positive count, right for a negative one. The
/// result is clamped to the fixnum range.
pub fn nod_ash(n_raw: u64, count_raw: u64) -> (r: u64)
    ensures
        r == fixnum(
            clamped(shifted(int_operand(n_raw) as int, int_operand(count_raw) as int)),
        ).raw,
{
    let n = read_operand(n_raw);
    let count = read_operand(count_raw);
    let v = if count >= 0 {
        shift_left(n, count)
    } else {
        shift_right(n, -count)
    };
    Word::fixnum_unchecked(v).raw()
}

/// Shifting by a count of sixty-three or more to the right leaves the sign
/// alone.
pub proof fn far_right_shift_is_sign(n: int, count: int)
    requires
        in_fixnum_range(n),
        count <= -63,
    ensures
        shifted(n, count) == if n < 0 {
            -1int
        } else {
            0
        },
{
    let p = pow2((-count) as nat) as int;
    lemma2_to64();
    lemma2_to64_rest();
    if count < -63 {
        lemma_pow2_strictly_increases(63, (-count) as nat);
    }
    assert(p >= 0x8000_0000_0000_0000);
    assert(n >= 0 ==> n / p == 0) by (nonlinear_arith)
        requires
            n < p,
            p > 0,
    ;
    assert(n < 0 ==> n / p == -1) by (nonlinear_arith)
        requires
            -p <= n,
            p > 0,
    ;
}

/// Shifting left and back right gives the number back, unless it was clamped.
pub proof fn shift_round_trip(n: int, count: int)
    requires
        count >= 0,
    ensures
        shifted(shifted(n, count), -count) == n,
{
    let p = pow2(count as nat) as int;
    lemma_pow2_pos(count as nat);
    assert((n * p) / p == n) by (nonlinear_arith)
        requires
            p > 0,
    ;
    if count == 0 {
        lemma2_to64();
        assert(n * 1 == n);
    }
}

// ----- what bits stand for -----

/// The size of a bit vector is what its size slot says, and bit `i` is bit `i % 60`
/// of the word in place `i / 60` of its words.
pub proof fn bits_are_packed_sixty_to_a_word(
    h: Seq<ObjectView>,
    c: BitVectorClass,
    w: Word,
    o: ObjectView,
    words: ObjectView,
    size: int,
    i: int,
)
    requires
        object_at(h, w) == Some(o),
        o.class == c.id,
        c.words_slot < o.cells.len(),
        c.size_slot < o.cells.len(),
        0 <= size <= FIXNUM_MAX,
        o.cells[c.size_slot as int] == fixnum(size),
        object_at(h, o.cells[c.words_slot as int]) == Some(words),
        words.class == ClassId(ClassId::SIMPLE_OBJECT_VECTOR),
        0 <= i < size,
        i / 60 < words.cells.len(),
        words.cells[i / 60].raw % 2 == 0,
        0 <= words.cells[i / 60].fixnum_value() <= FIXNUM_MAX,
    ensures
        bits(h, c, w).len() == size,
        bits(h, c, w)[i] <==> ((words.cells[i / 60].fixnum_value() as u64) >> ((i % 60) as u64))
            & 1u64 == 1u64,
{
    fixnum_round_trip(size);
    let x = words.cells[i / 60];
    let n = x.fixnum_value();
    assert(n as i64 as u64 == n as u64);
}

/// A word that is no instance of the class has no bits.
pub proof fn other_words_have_no_bits(h: Seq<ObjectView>, c: BitVectorClass, w: Word)
    requires
        object_at(h, w) is None || object_at(h, w)->0.class != c.id,
    ensures
        bits(h, c, w).len() == 0,
{
}

/// Writing a bit changes one word of the vector and nothing else on the heap.
pub proof fn writing_a_bit_changes_one_word(
    h: Seq<ObjectView>,
    c: BitVectorClass,
    w: Word,
    i: int,
    value: bool,
    v: Word,
    k: int,
)
    requires
        bit_vector_wf(h, c, w),
        0 <= i < bits(h, c, w).len(),
    ensures
        ({
            let g = with_bit(h, c, w, i, value);
            let words = object_at(h, w)->0.cells[c.words_slot as int];
            &&& g.len() == h.len()
            &&& v != words || k != i / 60 ==> cell_at(g, v, k) == cell_at(h, v, k)
            &&& class_at(g, v) == class_at(h, v)
        }),
{
}

/// A set bit counts one, a clear bit nothing.
pub proof fn bits_count_as_numbers()
    ensures
        bit_number(true) == 1,
        bit_number(false) == 0,
        count_set(Seq::<bool>::empty()) == 0,
{
}

/// Counting set bits goes bit by bit.
pub proof fn counting_goes_bit_by_bit(bs: Seq<bool>, b: bool)
    ensures
        count_set(bs.push(b)) == count_set(bs) + (if b {
            1int
        } else {
            0
        }),
{
    assert(bs.push(b).drop_last() =~= bs);
}

/// An operand of the bitwise operations is the integer that it carries; any other
/// word counts as zero.
pub proof fn bitwise_operands_are_integers(n: int, raw: u64)
    requires
        in_fixnum_range(n),
    ensures
        int_operand(fixnum(n).raw) == n,
        raw % 2 == 1 ==> int_operand(raw) == 0,
{
    fixnum_round_trip(n);
}

/// A shift by one place more doubles, or halves rounding down; by none it changes
/// nothing.
pub proof fn shifts_double_and_halve(n: int, count: int)
    requires
        count >= 0,
    ensures
        shifted(n, 0) == n,
        shifted(n, count + 1) == 2 * shifted(n, count),
        shifted(n, -count - 1) == shifted(n, -count) / 2,
{
    lemma2_to64();
    assert(n * 1 == n);
    lemma_pow2_unfold((count + 1) as nat);
    lemma_pow2_pos(count as nat);
    let p = pow2(count as nat) as int;
    assert(pow2((count + 1) as nat) == 2 * p);
    assert(n * (2 * p) == 2 * (n * p)) by (nonlinear_arith);
    floor_division_composes(n, p, 2);
    if count == 0 {
        assert(n / 1 == n);
    }
}

/// What does not fit a word is answered by the nearest integer that does.
pub proof fn results_are_clamped(n: int)
    ensures
        -0x4000_0000_0000_0000 <= clamped(n) <= 0x3fff_ffff_ffff_ffff,
        -0x4000_0000_0000_0000 <= n <= 0x3fff_ffff_ffff_ffff ==> clamped(n) == n,
        n > 0x3fff_ffff_ffff_ffff ==> clamped(n) == 0x3fff_ffff_ffff_ffff,
        n < -0x4000_0000_0000_0000 ==> clamped(n) == -0x4000_0000_0000_0000,
{
}

/// The class of bit vectors is the one of that name, with its words and its size
/// in the slots that are named for them.
pub proof fn bit_vector_slots_are_found_by_name(t: TableView, id: ClassId, i: int, j: int)
    requires
        t.named("<bit-vector>"@) == Some(id),
        t.lookup(id) is Some,
        t.lookup(id)->0.slots.len() <= usize::MAX,
        0 <= i < t.lookup(id)->0.slots.len(),
        t.lookup(id)->0.slots[i].name == "%bit-vector-words"@,
        forall|k: int|
            0 <= k < i ==> (#[trigger] t.lookup(id)->0.slots[k]).name != "%bit-vector-words"@,
        0 <= j < t.lookup(id)->0.slots.len(),
        t.lookup(id)->0.slots[j].name == "%bit-vector-bit-size"@,
        forall|k: int|
            0 <= k < j ==> (#[trigger] t.lookup(id)->0.slots[k]).name != "%bit-vector-bit-size"@,
    ensures
        bit_vector_class_in(t) is Some,
        (bit_vector_class_in(t)->0).id == id,
        (bit_vector_class_in(t)->0).words_slot == i,
        (bit_vector_class_in(t)->0).size_slot == j,
        (bit_vector_class_in(t)->0).slot_count == t.lookup(id)->0.slots.len(),
{
    let slots = t.lookup(id)->0.slots;
    crate::classes::slots_are_found_by_name(slots, "%bit-vector-words"@, i, 0);
    crate::classes::slots_are_found_by_name(slots, "%bit-vector-bit-size"@, j, 0);
}

/// A fresh bit vector has just the words that its bits need, at least one, and every bit of
/// them within the size is the fill; the bits past the size are clear.
pub proof fn fresh_words_hold_the_fill(size: int, fill: bool, i: int)
    requires
        0 <= size,
        0 <= i < 60 * filled_words(size, fill).len(),
    ensures
        60 * filled_words(size, fill).len() >= size,
        60 * (filled_words(size, fill).len() - 1) < size || filled_words(size, fill).len() == 1,
        filled_words(size, fill).len() >= 1,
        ({
            let w = filled_words(size, fill)[i / 60];
            &&& w.raw % 2 == 0
            &&& 0 <= w.fixnum_value() < 0x1000_0000_0000_0000
            &&& ((w.fixnum_value() as u64) >> ((i % 60) as u64)) & 1u64 == 1u64 <==> fill && i
                < size
        }),
{
    fresh_word_bits(size, fill, i / 60, i % 60);
    let n = filled_word(size, fill, i / 60).fixnum_value();
    assert(n as i64 as u64 == n as u64);
}

/// A bit vector keeps its words and its size in the slots of these names.
pub proof fn fresh_vectors_keep_words_and_size(c: BitVectorClass, words: Word, size: int)
    requires
        c.words_slot < c.slot_count,
        c.size_slot < c.slot_count,
        c.words_slot != c.size_slot,
    ensures
        bit_vector_cells(c, words, size).len() == c.slot_count,
        bit_vector_cells(c, words, size)[c.words_slot as int] == words,
        bit_vector_cells(c, words, size)[c.size_slot as int] == fixnum(size),
{
}

/// There are just enough words for the bits.
pub proof fn words_are_just_enough(n: int)
    ensures
        60 * (words_for(n) - 1) < n <= 60 * words_for(n),
{
}

} // verus!
