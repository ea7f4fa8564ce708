//! The built-in operators as functions.
//!
//! Each takes two words and gives a word, so that the operators can be passed
//! around as function values.

use vstd::prelude::*;

use crate::classes::{is_subclass, ClassId, ClassTable};
use crate::collections::{fixnum_else, fixnum_or};
use crate::functions::{entry_value, register_rust_function, FunctionTable};
use crate::generics::{class_of_word, word_class_id};
use crate::heap::{
    bool_word, boolean_word, false_word, object_at, true_word, word_of, zero_word, Heap, ObjectView,
};
use crate::word::{fixnum, in_fixnum_range, Word, FIXNUM_MAX, FIXNUM_MIN};

verus! {

/// The fixnum for an integer; zero stands for one that is out of range.
pub open spec fn fixnum_or_zero(n: int) -> Word {
    if in_fixnum_range(n) {
        fixnum(n)
    } else {
        zero_word()
    }
}

/// The integer that an operand word stands for; a word that is no fixnum counts
/// as zero.
pub open spec fn operand(raw: u64) -> int {
    fixnum_or(Word { raw }, 0)
}

fn operand_of(raw: u64) -> (n: i64)
    ensures
        n == operand(raw),
        in_fixnum_range(n as int),
{
    fixnum_else(Word::from_raw(raw), 0)
}

/// Adds two integers.
pub fn nod_op_plus(a: u64, b: u64) -> (r: u64)
    ensures
        r == fixnum_or_zero(operand(a) + operand(b)).raw,
{
    match Word::from_fixnum(operand_of(a) + operand_of(b)) {
        Some(w) => w.raw(),
        None => 0,
    }
}

/// Subtracts two integers.
pub fn nod_op_minus(a: u64, b: u64) -> (r: u64)
    ensures
        r == fixnum_or_zero(operand(a) - operand(b)).raw,
{
    match Word::from_fixnum(operand_of(a) - operand_of(b)) {
        Some(w) => w.raw(),
        None => 0,
    }
}

/// Multiplies two integers.
pub fn nod_op_times(a: u64, b: u64) -> (r: u64)
    ensures
        r == fixnum_or_zero(operand(a) * operand(b)).raw,
{
    let x = operand_of(a);
    let y = operand_of(b);
    match x.checked_mul(y) {
        Some(n) => match Word::from_fixnum(n) {
            Some(w) => w.raw(),
            None => 0,
        },
        None => 0,
    }
}

/// Whether two words are equal: integers by value, anything else by identity.
pub fn nod_op_eq(a: u64, b: u64) -> (r: u64)
    ensures
        r == bool_word(a == b).raw,
{
    let x = Word::from_raw(a).as_fixnum();
    let y = Word::from_raw(b).as_fixnum();
    match (x, y) {
        (Some(n), Some(m)) => {
            proof {
                crate::word::fixnum_surjective(Word { raw: a });
                crate::word::fixnum_surjective(Word { raw: b });
            }
            boolean_word(n == m).raw()
        },
        _ => boolean_word(a == b).raw(),
    }
}

/// Whether one integer is less than another.
pub fn nod_op_lt(a: u64, b: u64) -> (r: u64)
    ensures
        r == bool_word(operand(a) < operand(b)).raw,
{
    boolean_word(operand_of(a) < operand_of(b)).raw()
}

/// Whether one integer is greater than another.
pub fn nod_op_gt(a: u64, b: u64) -> (r: u64)
    ensures
        r == bool_word(operand(a) > operand(b)).raw,
{
    boolean_word(operand_of(a) > operand_of(b)).raw()
}

/// Whether two words are identical.
pub fn nod_op_eq_eq(a: u64, b: u64) -> (r: u64)
    ensures
        r == bool_word(a == b).raw,
{
    boolean_word(a == b).raw()
}

/// Whether two objects have the same contents: byte strings with the same bytes,
/// or boxed floating-point numbers of one class with the same bit pattern.
pub open spec fn same_contents(x: ObjectView, y: ObjectView) -> bool {
    x.class == y.class && x.bytes == y.bytes && (x.class == ClassId(ClassId::BYTE_STRING) || ((
    x.class == ClassId(ClassId::SINGLE_FLOAT) || x.class == ClassId(ClassId::DOUBLE_FLOAT))
        && x.cells == y.cells))
}

/// Whether two words are equal as values: identical, or with the same contents.
pub open spec fn values_equal(h: Seq<ObjectView>, a: Word, b: Word) -> bool {
    a == b || match (object_at(h, a), object_at(h, b)) {
        (Some(x), Some(y)) => same_contents(x, y),
        _ => false,
    }
}

fn same_words(a: &Vec<Word>, b: &Vec<Word>) -> (r: bool)
    ensures
        r == (a@ == b@),
{
    if a.len() != b.len() {
        return false;
    }
    let mut i: usize = 0;
    while i < a.len()
        invariant
            i <= a.len(),
            a.len() == b.len(),
            forall|k: int| 0 <= k < i ==> a@[k] == b@[k],
        decreases a.len() - i,
    {
        if a[i] != b[i] {
            return false;
        }
        i += 1;
    }
    assert(a@ =~= b@);
    true
}

/// Whether two words are equal as values.
pub fn objects_equal(heap: &Heap, a: Word, b: Word) -> (r: bool)
    ensures
        r == values_equal(heap@, a, b),
{
    if a == b {
        return true;
    }
    match (heap.get(a), heap.get(b)) {
        (Some(x), Some(y)) => {
            if x.class != y.class || !crate::conditions::same_bytes(&x.bytes, &y.bytes) {
                false
            } else if x.class == ClassId(ClassId::BYTE_STRING) {
                true
            } else {
                (x.class == ClassId(ClassId::SINGLE_FLOAT) || x.class == ClassId(
                    ClassId::DOUBLE_FLOAT,
                )) && same_words(&x.cells, &y.cells)
            }
        },
        _ => false,
    }
}

/// Equality of values is an equivalence, and identical words are equal.
pub proof fn value_equality_is_equivalence(h: Seq<ObjectView>, a: Word, b: Word, c: Word)
    ensures
        values_equal(h, a, a),
        values_equal(h, a, b) == values_equal(h, b, a),
        values_equal(h, a, b) && values_equal(h, b, c) ==> values_equal(h, a, c),
{
}

/// Two byte strings are equal as values exactly if they have the same length and
/// the same byte at every place.
pub proof fn byte_strings_are_equal_byte_by_byte(
    h: Seq<ObjectView>,
    a: Word,
    b: Word,
    x: ObjectView,
    y: ObjectView,
)
    requires
        object_at(h, a) == Some(x),
        object_at(h, b) == Some(y),
        x.class == ClassId(ClassId::BYTE_STRING),
        y.class == ClassId(ClassId::BYTE_STRING),
    ensures
        values_equal(h, a, b) <==> x.bytes.len() == y.bytes.len() && forall|i: int|
            0 <= i < x.bytes.len() ==> #[trigger] x.bytes[i] == y.bytes[i],
{
    assert(x.bytes == y.bytes <==> x.bytes =~= y.bytes);
}

/// Two boxed floating-point numbers are equal as values exactly if they are of one
/// class and agree in every byte and cell.
pub proof fn boxed_floats_are_equal_bit_by_bit(
    h: Seq<ObjectView>,
    a: Word,
    b: Word,
    x: ObjectView,
    y: ObjectView,
)
    requires
        object_at(h, a) == Some(x),
        object_at(h, b) == Some(y),
        x.class == ClassId(ClassId::SINGLE_FLOAT) || x.class == ClassId(ClassId::DOUBLE_FLOAT),
    ensures
        values_equal(h, a, b) <==> a == b || {
            &&& x.class == y.class
            &&& x.bytes.len() == y.bytes.len()
            &&& forall|i: int| 0 <= i < x.bytes.len() ==> #[trigger] x.bytes[i] == y.bytes[i]
            &&& x.cells.len() == y.cells.len()
            &&& forall|i: int| 0 <= i < x.cells.len() ==> #[trigger] x.cells[i] == y.cells[i]
        },
{
    assert(x.bytes == y.bytes <==> x.bytes =~= y.bytes);
    assert(x.cells == y.cells <==> x.cells =~= y.cells);
}

/// A word that is neither a byte string nor a boxed floating-point number is equal
/// as a value to itself alone; in particular integers are, by their value.
pub proof fn other_values_are_equal_by_identity(h: Seq<ObjectView>, a: Word, b: Word)
    requires
        object_at(h, a) matches Some(x) ==> x.class != ClassId(ClassId::BYTE_STRING) && x.class
            != ClassId(ClassId::SINGLE_FLOAT) && x.class != ClassId(ClassId::DOUBLE_FLOAT),
    ensures
        values_equal(h, a, b) <==> a == b,
        values_equal(h, b, a) <==> a == b,
        a.raw % 2 == 0 && b.raw % 2 == 0 ==> (values_equal(h, a, b) <==> a.fixnum_value()
            == b.fixnum_value()),
{
    if a.raw % 2 == 0 && b.raw % 2 == 0 {
        crate::word::fixnum_surjective(a);
        crate::word::fixnum_surjective(b);
    }
}

/// What an operator answers of a comparison is `#t` exactly if it holds, and `#f`
/// otherwise; the two are different words.
pub proof fn answers_tell_truth_from_falsehood(b: bool)
    ensures
        bool_word(b) == true_word() <==> b,
        bool_word(b) == false_word() <==> !b,
        true_word() != false_word(),
        true_word() == word_of(0),
        false_word() == word_of(1),
{
}

/// Arithmetic on integers answers the integer result, tagged, whenever it can be
/// carried by a word, and zero otherwise.
pub proof fn arithmetic_is_that_of_integers(n: int, m: int)
    requires
        in_fixnum_range(n),
        in_fixnum_range(m),
    ensures
        operand(fixnum(n).raw) == n,
        FIXNUM_MIN <= n + m <= FIXNUM_MAX ==> fixnum_or_zero(n + m) == fixnum(n + m),
        !(FIXNUM_MIN <= n + m <= FIXNUM_MAX) ==> fixnum_or_zero(n + m).raw == 0,
        FIXNUM_MIN <= n * m <= FIXNUM_MAX ==> fixnum_or_zero(n * m) == fixnum(n * m),
        !(FIXNUM_MIN <= n * m <= FIXNUM_MAX) ==> fixnum_or_zero(n * m).raw == 0,
        FIXNUM_MIN <= n - m <= FIXNUM_MAX ==> fixnum_or_zero(n - m) == fixnum(n - m),
        !(FIXNUM_MIN <= n - m <= FIXNUM_MAX) ==> fixnum_or_zero(n - m).raw == 0,
{
    crate::word::fixnum_round_trip(n);
}

/// A word that is no integer counts as zero in arithmetic.
pub proof fn other_operands_count_as_zero(raw: u64)
    requires
        raw % 2 == 1,
    ensures
        operand(raw) == 0,
{
}

/// Each operator's name stands for its own code, and no other name for any.
pub proof fn operators_have_their_own_code(code: OperatorCode, name: Seq<char>)
    ensures
        operator_code(code, "+"@) == Some(code.plus),
        operator_code(code, "-"@) == Some(code.minus),
        operator_code(code, "*"@) == Some(code.times),
        operator_code(code, "="@) == Some(code.eq),
        operator_code(code, "<"@) == Some(code.lt),
        operator_code(code, ">"@) == Some(code.gt),
        operator_code(code, "=="@) == Some(code.eq_eq),
        operator_code(code, "~="@) == Some(code.ne),
        operator_code(code, "~=="@) == Some(code.ne_eq),
        operator_code(code, "instance?"@) == Some(code.instance),
        operator_code(code, name) is Some ==> name == "+"@ || name == "-"@ || name == "*"@ || name
            == "="@ || name == "<"@ || name == ">"@ || name == "=="@ || name == "~="@ || name
            == "~=="@ || name == "instance?"@,
{
    reveal_strlit("+");
    reveal_strlit("-");
    reveal_strlit("*");
    reveal_strlit("=");
    reveal_strlit("<");
    reveal_strlit(">");
    reveal_strlit("==");
    reveal_strlit("~=");
    reveal_strlit("~==");
    reveal_strlit("instance?");
    assert("+"@[0] == '+' && "-"@[0] == '-' && "*"@[0] == '*' && "="@[0] == '=' && "<"@[0] == '<'
        && ">"@[0] == '>' && "=="@[0] == '=' && "~="@[0] == '~' && "~=="@[0] == '~');
    assert("="@.len() != "=="@.len() && "~="@.len() != "~=="@.len());
}

/// Whether two words differ as values.
pub fn nod_op_ne(heap: &Heap, a: u64, b: u64) -> (r: u64)
    ensures
        r == bool_word(!values_equal(heap@, Word { raw: a }, Word { raw: b })).raw,
{
    boolean_word(!objects_equal(heap, Word::from_raw(a), Word::from_raw(b))).raw()
}

/// Whether two words are not identical.
pub fn nod_op_ne_eq(a: u64, b: u64) -> (r: u64)
    ensures
        r == bool_word(a != b).raw,
{
    boolean_word(a != b).raw()
}

// ----- class words -----

/// First address of the area that holds class metadata.
pub const CLASS_AREA: u64 = 0x8000_0000_0000_0000;

/// The address of the metadata of a class.
pub open spec fn class_address(id: ClassId) -> u64 {
    (CLASS_AREA + 8 * id.0) as u64
}

/// The address of the metadata of a class.
pub fn class_metadata_address(id: ClassId) -> (a: u64)
    ensures
        a == class_address(id),
{
    CLASS_AREA + 8 * (id.0 as u64)
}

/// The class that a class word names.
pub open spec fn class_of_class_word(w: u64) -> Option<ClassId> {
    if w > CLASS_AREA && w % 8 == 1 && (w - CLASS_AREA) / 8 <= u32::MAX {
        Some(ClassId(((w - CLASS_AREA) / 8) as u32))
    } else {
        None
    }
}

/// A class word, the tagged address of its metadata, names its class.
pub proof fn class_word_round_trip(id: ClassId)
    ensures
        class_of_class_word((class_address(id) + 1) as u64) == Some(id),
{
}

/// Whether a word is an instance of the class that a class word names; a word
/// that names no class has no instances.
pub fn nod_instance_p(table: &ClassTable, heap: &Heap, value: u64, class_word: u64) -> (r: u64)
    ensures
        r == bool_word(
            match class_of_class_word(class_word) {
                Some(id) => table@.subclass(class_of_word(heap@, Word { raw: value }), id),
                None => false,
            },
        ).raw,
{
    if class_word > CLASS_AREA && class_word % 8 == 1 && (class_word - CLASS_AREA) / 8
        <= u32::MAX as u64 {
        let id = ClassId(((class_word - CLASS_AREA) / 8) as u32);
        let class = word_class_id(heap, Word::from_raw(value));
        boolean_word(is_subclass(table, class, id)).raw()
    } else {
        boolean_word(false).raw()
    }
}

// ----- registration -----

/// The addresses of the operators' code.
#[derive(Clone, Copy, PartialEq, Eq, Structural, Debug)]
pub struct OperatorCode {
    pub plus: u64,
    pub minus: u64,
    pub times: u64,
    pub eq: u64,
    pub lt: u64,
    pub gt: u64,
    pub eq_eq: u64,
    pub ne: u64,
    pub ne_eq: u64,
    pub instance: u64,
}

/// The code of the operator with this name.
pub open spec fn operator_code(code: OperatorCode, name: Seq<char>) -> Option<u64> {
    if name == "+"@ {
        Some(code.plus)
    } else if name == "-"@ {
        Some(code.minus)
    } else if name == "*"@ {
        Some(code.times)
    } else if name == "="@ {
        Some(code.eq)
    } else if name == "<"@ {
        Some(code.lt)
    } else if name == ">"@ {
        Some(code.gt)
    } else if name == "=="@ {
        Some(code.eq_eq)
    } else if name == "~="@ {
        Some(code.ne)
    } else if name == "~=="@ {
        Some(code.ne_eq)
    } else if name == "instance?"@ {
        Some(code.instance)
    } else {
        None
    }
}

/// Registers the operators under their names, as functions of two arguments.
pub fn ensure_operator_shims_registered(functions: &mut FunctionTable, code: OperatorCode)
    ensures
        forall|n: Seq<char>, a: usize| #[trigger]
            entry_value(final(functions)@.built_in, n, a) == if a == 2 && operator_code(code, n)
                is Some {
                operator_code(code, n)
            } else {
                entry_value(old(functions)@.built_in, n, a)
            },
        final(functions)@.compiled == old(functions)@.compiled,
        final(functions)@.refs == old(functions)@.refs,
{
    proof {
        reveal_strlit("+");
        reveal_strlit("-");
        reveal_strlit("*");
        reveal_strlit("=");
        reveal_strlit("<");
        reveal_strlit(">");
        reveal_strlit("==");
        reveal_strlit("~=");
        reveal_strlit("~==");
        reveal_strlit("instance?");
    }
    register_rust_function(functions, "+", 2, code.plus);
    register_rust_function(functions, "-", 2, code.minus);
    register_rust_function(functions, "*", 2, code.times);
    register_rust_function(functions, "=", 2, code.eq);
    register_rust_function(functions, "<", 2, code.lt);
    register_rust_function(functions, ">", 2, code.gt);
    register_rust_function(functions, "==", 2, code.eq_eq);
    register_rust_function(functions, "~=", 2, code.ne);
    register_rust_function(functions, "~==", 2, code.ne_eq);
    register_rust_function(functions, "instance?", 2, code.instance);
    proof {
        assert("+"@[0] == '+' && "-"@[0] == '-' && "*"@[0] == '*' && "="@[0] == '=' && "<"@[0]
            == '<' && ">"@[0] == '>' && "=="@[0] == '=' && "~="@[0] == '~' && "~=="@[0] == '~');
        assert("="@.len() != "=="@.len() && "~="@.len() != "~=="@.len());
    }
}

} // verus!
