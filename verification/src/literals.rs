//! The pool of string literals.
//!
//! A text has one literal: asking for it again answers the same word.

use vstd::prelude::*;
use vstd::utf8::encode_utf8;

use crate::collections::push_keeps_wf;
use crate::heap::{bytes_object, heap_room, heap_wf, object_at, word_of, Heap, ObjectView};
use crate::text::same_text;
use crate::word::Word;

verus! {

struct LiteralEntry {
    text: String,
    word: u64,
}

/// The string literals, by text.
pub struct LiteralPool {
    entries: Vec<LiteralEntry>,
}

impl View for LiteralPool {
    type V = Seq<(Seq<char>, u64)>;

    closed spec fn view(&self) -> Seq<(Seq<char>, u64)> {
        Seq::new(self.entries@.len(), |i: int| (self.entries@[i].text@, self.entries@[i].word))
    }
}

/// What the first entry with this key at or after `i` holds.
pub open spec fn held_from<K>(entries: Seq<(K, u64)>, key: K, i: int) -> Option<u64>
    decreases entries.len() - i,
{
    if i < 0 || i >= entries.len() {
        None
    } else if entries[i].0 == key {
        Some(entries[i].1)
    } else {
        held_from(entries, key, i + 1)
    }
}

/// An entry put at the end leaves those found before in place, and is found
/// under a key that had none.
pub proof fn pushed_is_held<K>(entries: Seq<(K, u64)>, key: K, value: u64, other: K, i: int)
    requires
        0 <= i <= entries.len(),
    ensures
        held_from(entries, other, i) is Some ==> held_from(
            entries.push((key, value)),
            other,
            i,
        ) == held_from(entries, other, i),
        held_from(entries, other, i) is None ==> held_from(entries.push((key, value)), other, i)
            == if other == key {
            Some(value)
        } else {
            None
        },
    decreases entries.len() - i,
{
    if i < entries.len() {
        pushed_is_held(entries, key, value, other, i + 1);
        assert(entries.push((key, value))[i] == entries[i]);
    } else {
        let after = entries.push((key, value));
        assert(after[i] == (key, value));
        reveal_with_fuel(held_from, 2);
    }
}

/// What is held under a key is an entry of the table.
proof fn held_is_entry<K>(entries: Seq<(K, u64)>, key: K, i: int)
    requires
        0 <= i,
    ensures
        held_from(entries, key, i) matches Some(v) ==> exists|k: int|
            i <= k < entries.len() && #[trigger] entries[k] == (key, v),
    decreases entries.len() - i,
{
    if i < entries.len() && entries[i].0 != key {
        held_is_entry(entries, key, i + 1);
    }
}

/// The literal of a text: the one that is there, else the next object of the heap.
pub open spec fn literal_of(
    literals: Seq<(Seq<char>, u64)>,
    h: Seq<ObjectView>,
    text: Seq<char>,
) -> Word {
    match held_from(literals, text, 0) {
        Some(w) => Word { raw: w },
        None => word_of(h.len() as int),
    }
}

/// The heap once a text has its literal.
pub open spec fn heap_with_literal(
    literals: Seq<(Seq<char>, u64)>,
    h: Seq<ObjectView>,
    text: Seq<char>,
) -> Seq<ObjectView> {
    match held_from(literals, text, 0) {
        Some(w) => h,
        None => h.push(bytes_object(encode_utf8(text))),
    }
}

/// The pool once a text has its literal.
pub open spec fn pool_with_literal(
    literals: Seq<(Seq<char>, u64)>,
    h: Seq<ObjectView>,
    text: Seq<char>,
) -> Seq<(Seq<char>, u64)> {
    match held_from(literals, text, 0) {
        Some(w) => literals,
        None => literals.push((text, word_of(h.len() as int).raw)),
    }
}

/// What interning a text comes to: the literal that is there, else a new one.
pub open spec fn interned(
    literals: Seq<(Seq<char>, u64)>,
    h: Seq<ObjectView>,
    text: Seq<char>,
    literals_after: Seq<(Seq<char>, u64)>,
    h_after: Seq<ObjectView>,
    word: u64,
) -> bool {
    &&& word == literal_of(literals, h, text).raw
    &&& h_after == heap_with_literal(literals, h, text)
    &&& literals_after == pool_with_literal(literals, h, text)
}

/// Every string literal is on the heap and holds its text.
pub open spec fn literals_hold(literals: Seq<(Seq<char>, u64)>, h: Seq<ObjectView>) -> bool {
    forall|i: int|
        0 <= i < literals.len() ==> object_at(h, Word { raw: (#[trigger] literals[i]).1 }) == Some(
            bytes_object(encode_utf8(literals[i].0)),
        )
}

/// Literals hold their texts on a heap that has grown.
pub proof fn literals_hold_on_grown_heap(
    literals: Seq<(Seq<char>, u64)>,
    h: Seq<ObjectView>,
    g: Seq<ObjectView>,
)
    requires
        literals_hold(literals, h),
        h.len() <= g.len(),
        g.take(h.len() as int) == h,
    ensures
        literals_hold(literals, g),
{
    assert forall|i: int| 0 <= i < literals.len() implies object_at(
        g,
        Word { raw: (#[trigger] literals[i]).1 },
    ) == Some(bytes_object(encode_utf8(literals[i].0))) by {
        let w = Word { raw: literals[i].1 };
        assert(object_at(h, w) is Some);
        let k = crate::heap::index_of(w);
        assert(g.take(h.len() as int)[k] == g[k]);
    }
}

/// The literal of a text holds the text, and so do all literals that were there.
pub proof fn literal_holds_its_text(
    literals: Seq<(Seq<char>, u64)>,
    h: Seq<ObjectView>,
    text: Seq<char>,
)
    requires
        heap_wf(h),
        heap_room(h, 1),
        literals_hold(literals, h),
    ensures
        object_at(heap_with_literal(literals, h, text), literal_of(literals, h, text)) == Some(
            bytes_object(encode_utf8(text)),
        ),
        literals_hold(
            pool_with_literal(literals, h, text),
            heap_with_literal(literals, h, text),
        ),
{
    held_is_entry(literals, text, 0);
    let g = heap_with_literal(literals, h, text);
    assert(g.take(h.len() as int) =~= h);
    literals_hold_on_grown_heap(literals, h, g);
    if held_from(literals, text, 0) is None {
        let after = pool_with_literal(literals, h, text);
        assert(g[h.len() as int] == bytes_object(encode_utf8(text)));
        assert forall|i: int| 0 <= i < after.len() implies object_at(
            g,
            Word { raw: (#[trigger] after[i]).1 },
        ) == Some(bytes_object(encode_utf8(after[i].0))) by {
            if i < literals.len() {
                assert(after[i] == literals[i]);
            }
        }
    }
}

/// A text has one literal: once it is interned, interning it again answers the
/// same word and changes nothing, and other texts keep their literals.
pub proof fn interning_is_idempotent(
    literals: Seq<(Seq<char>, u64)>,
    h: Seq<ObjectView>,
    text: Seq<char>,
    g: Seq<ObjectView>,
    other: Seq<char>,
)
    ensures
        ({
            let after = pool_with_literal(literals, h, text);
            &&& literal_of(after, g, text) == literal_of(literals, h, text)
            &&& heap_with_literal(after, g, text) == g
            &&& pool_with_literal(after, g, text) == after
            &&& held_from(literals, other, 0) is Some ==> literal_of(after, g, other)
                == literal_of(literals, h, other)
        }),
{
    pushed_is_held(literals, text, word_of(h.len() as int).raw, text, 0);
    pushed_is_held(literals, text, word_of(h.len() as int).raw, other, 0);
}

impl LiteralPool {
    /// No literals.
    pub fn new() -> (p: LiteralPool)
        ensures
            p@ == Seq::<(Seq<char>, u64)>::empty(),
    {
        let p = LiteralPool { entries: Vec::new() };
        assert(p@ =~= Seq::<(Seq<char>, u64)>::empty());
        p
    }

    fn find(&self, text: &str) -> (w: Option<u64>)
        ensures
            w == held_from(self@, text@, 0),
    {
        let mut i: usize = 0;
        while i < self.entries.len()
            invariant
                i <= self.entries.len(),
                held_from(self@, text@, 0) == held_from(self@, text@, i as int),
            decreases self.entries.len() - i,
        {
            assert(self@[i as int].0 == self.entries@[i as int].text@);
            if same_text(self.entries[i].text.as_str(), text) {
                return Some(self.entries[i].word);
            }
            i += 1;
        }
        None
    }
}

/// The string literal for a text. A text has one literal.
pub fn intern_string_literal(literals: &mut LiteralPool, heap: &mut Heap, text: &str) -> (w: Word)
    requires
        heap_wf(old(heap)@),
        heap_room(old(heap)@, 1),
    ensures
        interned(old(literals)@, old(heap)@, text@, final(literals)@, final(heap)@, w.raw),
        w == literal_of(old(literals)@, old(heap)@, text@),
        held_from(final(literals)@, text@, 0) == Some(w.raw),
        heap_wf(final(heap)@),
        literals_hold(old(literals)@, old(heap)@) ==> literals_hold(final(literals)@, final(heap)@)
            && object_at(final(heap)@, w) == Some(bytes_object(encode_utf8(text@))),
{
    proof {
        if literals_hold(literals@, heap@) {
            literal_holds_its_text(literals@, heap@, text@);
        }
        pushed_is_held(literals@, text@, word_of(heap@.len() as int).raw, text@, 0);
    }
    match literals.find(text) {
        Some(w) => Word::from_raw(w),
        None => {
            proof {
                push_keeps_wf(heap@, bytes_object(encode_utf8(text@)));
            }
            let w = heap.alloc_text(text);
            literals.entries.push(LiteralEntry { text: text.to_owned(), word: w.raw() });
            assert(literals@ =~= old(literals)@.push((text@, w.raw)));
            w
        },
    }
}

/// Different texts have different literals, and a text that had none gets a new
/// object.
pub proof fn different_texts_have_different_literals(
    literals: Seq<(Seq<char>, u64)>,
    h: Seq<ObjectView>,
    a: Seq<char>,
    b: Seq<char>,
)
    requires
        heap_wf(h),
        heap_room(h, 2),
        literals_hold(literals, h),
        a != b,
    ensures
        ({
            let p = pool_with_literal(literals, h, a);
            let g = heap_with_literal(literals, h, a);
            &&& literal_of(literals, h, a) != literal_of(p, g, b)
            &&& (forall|i: int| 0 <= i < literals.len() ==> (#[trigger] literals[i]).0 != a)
                ==> g.len() == h.len() + 1 && literal_of(literals, h, a) == word_of(
                h.len() as int,
            )
            &&& g.take(h.len() as int) == h
        }),
{
    let p = pool_with_literal(literals, h, a);
    let g = heap_with_literal(literals, h, a);
    literal_holds_its_text(literals, h, a);
    if held_from(literals, a, 0) is None {
        push_keeps_wf(h, bytes_object(encode_utf8(a)));
    }
    literal_holds_its_text(p, g, b);
    let gb = heap_with_literal(p, g, b);
    assert(gb.take(g.len() as int) =~= g);
    vstd::utf8::encode_utf8_decode_utf8(a);
    vstd::utf8::encode_utf8_decode_utf8(b);
    let wa = literal_of(literals, h, a);
    assert(object_at(g, wa) == Some(bytes_object(encode_utf8(a))));
    let k = crate::heap::index_of(wa);
    assert(gb[k] == g[k]);
    held_is_entry(literals, a, 0);
    assert(g.take(h.len() as int) =~= h);
}

} // verus!
