//! UTF-16, the encoding of text that the operating system wants.

use vstd::prelude::*;
use vstd::string::*;
use vstd::utf8::char_is_scalar;

use crate::generics::{decode_byte_string_to_string, held_text};
use crate::heap::Heap;
use crate::text::same_text;
use crate::word::Word;

verus! {

/// The code units of a character: one, or a surrogate pair.
pub open spec fn char_units(c: char) -> Seq<u16> {
    let v = c as u32 as int;
    if v < 0x1_0000 {
        seq![v as u16]
    } else {
        seq![
            (0xd800 + (v - 0x1_0000) / 0x400) as u16,
            (0xdc00 + (v - 0x1_0000) % 0x400) as u16,
        ]
    }
}

/// The code units of a text.
pub open spec fn utf16_units(text: Seq<char>) -> Seq<u16>
    decreases text.len(),
{
    if text.len() == 0 {
        seq![]
    } else {
        utf16_units(text.drop_last()) + char_units(text.last())
    }
}

/// Encodes a text in UTF-16.
pub fn encode_utf16(s: &str) -> (units: Vec<u16>)
    ensures
        units@ == utf16_units(s@),
{
    let mut units: Vec<u16> = Vec::new();
    for c in it: s.chars()
        invariant
            it.seq() == s@,
            units@ == utf16_units(s@.take(it.index() as int)),
    {
        let ghost before = units@;
        let v: u32 = c as u32;
        proof {
            let n = it.index() as int;
            assert(s@.take(n + 1).drop_last() =~= s@.take(n));
            assert(s@.take(n + 1).last() == c);
        }
        if v < 0x1_0000 {
            units.push(v as u16);
        } else {
            units.push((0xd800 + (v - 0x1_0000) / 0x400) as u16);
            units.push((0xdc00 + (v - 0x1_0000) % 0x400) as u16);
        }
        assert(units@ =~= before + char_units(c));
    }
    assert(s@.take(s@.len() as int) =~= s@);
    units
}

/// The text that the standard library's `String::from_utf16_lossy` makes of code
/// units.
pub uninterp spec fn lossy_utf16(units: Seq<u16>) -> Seq<char>;

/// Decodes UTF-16 by the standard library's `String::from_utf16_lossy`: code
/// units that encode a text give that text; where units are no UTF-16,
/// replacement characters stand.
#[verifier::external_body]
pub(crate) fn decode_utf16(units: &[u16]) -> (s: String)
    ensures
        s@ == lossy_utf16(units@),
        forall|t: Seq<char>| units@ == #[trigger] utf16_units(t) ==> s@ == t,
{
    String::from_utf16_lossy(units)
}

/// The units before the first zero, all of them if there is none.
pub open spec fn before_zero(units: Seq<u16>) -> Seq<u16>
    decreases units.len(),
{
    if units.len() == 0 || units[0] == 0 {
        seq![]
    } else {
        seq![units[0]] + before_zero(units.drop_first())
    }
}

proof fn before_zero_take(units: Seq<u16>, n: int)
    requires
        0 <= n <= units.len(),
        forall|k: int| 0 <= k < n ==> units[k] != 0,
        n < units.len() ==> units[n] == 0,
    ensures
        before_zero(units) == units.take(n),
    decreases units.len(),
{
    if n == 0 {
        assert(units.take(0) =~= seq![]);
    } else {
        before_zero_take(units.drop_first(), n - 1);
        assert(seq![units[0]] + units.drop_first().take(n - 1) =~= units.take(n));
    }
}

/// No code unit of a text without zero characters is zero.
proof fn units_are_not_zero(text: Seq<char>)
    requires
        forall|i: int| 0 <= i < text.len() ==> (#[trigger] text[i]) as u32 != 0,
    ensures
        forall|k: int| 0 <= k < utf16_units(text).len() ==> #[trigger] utf16_units(text)[k] != 0,
    decreases text.len(),
{
    if text.len() > 0 {
        units_are_not_zero(text.drop_last());
        let front = utf16_units(text.drop_last());
        let all = utf16_units(text);
        char_is_scalar(text.last());
        let v = text.last() as u32 as int;
        assert(0 < v <= 0x10_ffff);
        assert forall|k: int| 0 <= k < all.len() implies #[trigger] all[k] != 0 by {
            if k < front.len() {
                assert(all[k] == front[k]);
            } else {
                let units = char_units(text.last());
                assert(all[k] == units[k - front.len()]);
                if v >= 0x1_0000 {
                    assert(units[0] == 0xd800 + (v - 0x1_0000) / 0x400);
                    assert(units[1] == 0xdc00 + (v - 0x1_0000) % 0x400);
                }
            }
        }
    }
}

/// A text without zero characters comes back whole from its zero-terminated
/// encoding.
pub proof fn zero_terminated_round_trip(text: Seq<char>)
    requires
        forall|i: int| 0 <= i < text.len() ==> (#[trigger] text[i]) as u32 != 0,
    ensures
        before_zero(utf16_units(text).push(0)) == utf16_units(text),
{
    let units = utf16_units(text);
    units_are_not_zero(text);
    assert forall|k: int| 0 <= k < units.len() implies units.push(0)[k] != 0 by {
        assert(units.push(0)[k] == units[k]);
    }
    before_zero_take(units.push(0), units.len() as int);
    assert(units.push(0).take(units.len() as int) =~= units);
}

/// Decodes a zero-terminated buffer.
pub fn text_before_zero(units: &Vec<u16>) -> (s: String)
    ensures
        s@ == lossy_utf16(before_zero(units@)),
        forall|t: Seq<char>| before_zero(units@) == #[trigger] utf16_units(t) ==> s@ == t,
{
    let mut n: usize = 0;
    while n < units.len() && units[n] != 0
        invariant
            n <= units@.len(),
            forall|k: int| 0 <= k < n ==> units@[k] != 0,
        decreases units@.len() - n,
    {
        n += 1;
    }
    proof {
        before_zero_take(units@, n as int);
    }
    decode_utf16(vstd::slice::slice_subrange(units.as_slice(), 0, n))
}

/// The text of a byte string in UTF-16, zero-terminated.
pub fn utf16_from_dylan_byte_string(heap: &Heap, w: u64) -> (units: Vec<u16>)
    requires
        held_text(heap@, Word { raw: w }) is Some,
    ensures
        units@ == utf16_units(held_text(heap@, Word { raw: w })->0).push(0),
{
    let mut units = utf16_from_dylan_byte_string_no_null(heap, w);
    units.push(0);
    units
}

/// The text of a byte string in UTF-16.
pub fn utf16_from_dylan_byte_string_no_null(heap: &Heap, w: u64) -> (units: Vec<u16>)
    requires
        held_text(heap@, Word { raw: w }) is Some,
    ensures
        units@ == utf16_units(held_text(heap@, Word { raw: w })->0),
{
    let s = decode_byte_string_to_string(heap, Word::from_raw(w)).unwrap();
    encode_utf16(s.as_str())
}

// ----- class names -----

struct NameBuffer {
    name: String,
    units: Vec<u16>,
}

/// The zero-terminated names of window classes. They stay where they are, so
/// that the system can refer to them.
pub struct ClassNameBuffers {
    buffers: Vec<NameBuffer>,
}

impl View for ClassNameBuffers {
    type V = Seq<Seq<char>>;

    closed spec fn view(&self) -> Seq<Seq<char>> {
        Seq::new(self.buffers@.len(), |i: int| self.buffers@[i].name@)
    }
}

/// Position of the first `name` at or after `i`.
pub open spec fn name_from(names: Seq<Seq<char>>, name: Seq<char>, i: int) -> Option<int>
    decreases names.len() - i,
{
    if i < 0 || i >= names.len() {
        None
    } else if names[i] == name {
        Some(i)
    } else {
        name_from(names, name, i + 1)
    }
}

/// A name put at the end is found there if it was not there before, and moves no
/// other.
pub proof fn pushed_name_is_found(names: Seq<Seq<char>>, name: Seq<char>, other: Seq<char>, i: int)
    requires
        0 <= i <= names.len(),
    ensures
        name_from(names, other, i) is Some ==> name_from(names.push(name), other, i) == name_from(
            names,
            other,
            i,
        ),
        name_from(names, other, i) is None ==> name_from(names.push(name), other, i)
            == if other == name {
            Some(names.len() as int)
        } else {
            None
        },
    decreases names.len() - i,
{
    if i < names.len() {
        pushed_name_is_found(names, name, other, i + 1);
        assert(names.push(name)[i] == names[i]);
    } else {
        assert(names.push(name)[i] == name);
        reveal_with_fuel(name_from, 2);
    }
}

impl ClassNameBuffers {
    /// Every buffer holds the code units of its name and a zero.
    pub closed spec fn wf(self) -> bool {
        forall|i: int|
            0 <= i < self.buffers@.len() ==> (#[trigger] self.buffers@[i]).units@ == utf16_units(
                self.buffers@[i].name@,
            ).push(0)
    }

    /// No names yet.
    pub fn new() -> (b: ClassNameBuffers)
        ensures
            b@ == Seq::<Seq<char>>::empty(),
            b.wf(),
    {
        let b = ClassNameBuffers { buffers: Vec::new() };
        assert(b@ =~= Seq::<Seq<char>>::empty());
        b
    }

    /// The buffer at a position.
    pub fn buffer(&self, i: usize) -> (units: &Vec<u16>)
        requires
            self.wf(),
            i < self@.len(),
        ensures
            units@ == utf16_units(self@[i as int]).push(0),
    {
        &self.buffers[i].units
    }

    /// The position of the buffer of a name: the one that is there, else a new
    /// one at the end.
    pub fn leak_class_name(&mut self, name: &str) -> (i: usize)
        requires
            old(self).wf(),
        ensures
            final(self).wf(),
            match name_from(old(self)@, name@, 0) {
                Some(k) => i == k && final(self)@ == old(self)@,
                None => i == old(self)@.len() && final(self)@ == old(self)@.push(name@),
            },
            name_from(final(self)@, name@, 0) == Some(i as int),
            i < final(self)@.len(),
            final(self)@[i as int] == name@,
    {
        let mut i: usize = 0;
        while i < self.buffers.len()
            invariant
                *self == *old(self),
                self.wf(),
                i <= self.buffers@.len(),
                name_from(self@, name@, 0) == name_from(self@, name@, i as int),
            decreases self.buffers@.len() - i,
        {
            assert(self@[i as int] == self.buffers@[i as int].name@);
            if same_text(self.buffers[i].name.as_str(), name) {
                return i;
            }
            i += 1;
        }
        let mut units = encode_utf16(name);
        units.push(0);
        proof {
            pushed_name_is_found(self@, name@, name@, 0);
        }
        self.buffers.push(NameBuffer { name: name.to_owned(), units });
        assert(self@ =~= old(self)@.push(name@));
        i
    }
}

// ----- what the encoding is for -----

/// A character below 65536 is one unit; another is a surrogate pair, from which the
/// character can be read back.
pub proof fn units_give_the_character_back(c: char)
    ensures
        ({
            let v = c as u32 as int;
            let u = char_units(c);
            &&& v < 0x1_0000 ==> u.len() == 1 && u[0] == v
            &&& v >= 0x1_0000 ==> {
                &&& u.len() == 2
                &&& 0xd800 <= u[0] <= 0xdbff
                &&& 0xdc00 <= u[1] <= 0xdfff
                &&& v == 0x1_0000 + (u[0] - 0xd800) * 0x400 + (u[1] - 0xdc00)
            }
        }),
{
    char_is_scalar(c);
}

/// The units of a text are those of its characters, in order.
pub proof fn texts_are_encoded_in_order(text: Seq<char>, c: char)
    ensures
        utf16_units(Seq::<char>::empty()).len() == 0,
        utf16_units(text.push(c)) == utf16_units(text) + char_units(c),
        (c as u32) < 0x1_0000 ==> utf16_units(text.push(c)) == utf16_units(text).push(
            c as u32 as u16,
        ),
{
    assert(text.push(c).drop_last() =~= text);
    assert(text.push(c).last() == c);
    if (c as u32) < 0x1_0000 {
        assert(utf16_units(text) + char_units(c) =~= utf16_units(text).push(c as u32 as u16));
    }
}

/// A buffer is read up to its first zero.
pub proof fn buffers_end_at_the_first_zero(units: Seq<u16>, n: int)
    requires
        0 <= n <= units.len(),
        forall|k: int| 0 <= k < n ==> units[k] != 0,
        n < units.len() ==> units[n] == 0,
    ensures
        before_zero(units) == units.take(n),
{
    before_zero_take(units, n);
}

/// A class name is found where it stands first.
pub proof fn class_names_are_found_first(names: Seq<Seq<char>>, i: int, from: int)
    requires
        0 <= from <= i < names.len(),
        forall|k: int| from <= k < i ==> names[k] != names[i],
    ensures
        name_from(names, names[i], from) == Some(i),
    decreases i - from,
{
    if from < i {
        assert(names[from] != names[i]);
        class_names_are_found_first(names, i, from + 1);
    }
}

/// A name that no class has is not found.
pub proof fn unknown_class_names_are_not_found(names: Seq<Seq<char>>, name: Seq<char>, from: int)
    requires
        0 <= from,
        forall|k: int| from <= k < names.len() ==> names[k] != name,
    ensures
        name_from(names, name, from) is None,
    decreases names.len() - from,
{
    if from < names.len() {
        unknown_class_names_are_not_found(names, name, from + 1);
    }
}

} // verus!
