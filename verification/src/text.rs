//! Text helpers: comparison of names and decimal rendering.

use vstd::prelude::*;
use vstd::string::*;
use vstd::utf8::{encode_utf8, valid_utf8};

verus! {

/// Whether two strings hold the same characters.
pub fn same_text(a: &str, b: &str) -> (r: bool)
    ensures
        r == (a@ == b@),
{
    a.to_owned() == b.to_owned()
}

/// The decimal digit for `d`.
pub open spec fn digit_char(d: int) -> char {
    if d == 0 {
        '0'
    } else if d == 1 {
        '1'
    } else if d == 2 {
        '2'
    } else if d == 3 {
        '3'
    } else if d == 4 {
        '4'
    } else if d == 5 {
        '5'
    } else if d == 6 {
        '6'
    } else if d == 7 {
        '7'
    } else if d == 8 {
        '8'
    } else {
        '9'
    }
}

/// The decimal digits of `n`, most significant first, without leading zeros.
pub open spec fn decimal_digits(n: nat) -> Seq<char>
    decreases n,
{
    if n < 10 {
        seq![digit_char(n as int)]
    } else {
        decimal_digits(n / 10).push(digit_char((n % 10) as int))
    }
}

/// The decimal rendering of `n`, with a minus sign for negative numbers.
pub open spec fn decimal_text(n: int) -> Seq<char> {
    if n < 0 {
        seq!['-'] + decimal_digits((-n) as nat)
    } else {
        decimal_digits(n as nat)
    }
}

/// The decimal digit for `d` as text.
pub fn digit_str(d: u64) -> (s: &'static str)
    requires
        d < 10,
    ensures
        s@ == seq![digit_char(d as int)],
{
    proof {
        reveal_strlit("0");
        reveal_strlit("1");
        reveal_strlit("2");
        reveal_strlit("3");
        reveal_strlit("4");
        reveal_strlit("5");
        reveal_strlit("6");
        reveal_strlit("7");
        reveal_strlit("8");
        reveal_strlit("9");
    }
    match d {
        0 => "0",
        1 => "1",
        2 => "2",
        3 => "3",
        4 => "4",
        5 => "5",
        6 => "6",
        7 => "7",
        8 => "8",
        _ => "9",
    }
}

/// Renders an unsigned number in decimal.
pub fn decimal_unsigned(n: u64) -> (s: String)
    ensures
        s@ == decimal_digits(n as nat),
    decreases n,
{
    if n < 10 {
        String::from_str(digit_str(n))
    } else {
        let mut s = decimal_unsigned(n / 10);
        s.append(digit_str(n % 10));
        s
    }
}

/// Renders a signed number in decimal.
pub fn decimal_signed(n: i64) -> (s: String)
    ensures
        s@ == decimal_text(n as int),
{
    if n < 0 {
        proof {
            reveal_strlit("-");
        }
        let magnitude: u64 = if n == i64::MIN {
            0x8000_0000_0000_0000
        } else {
            (-n) as u64
        };
        let mut s = String::from_str("-");
        s.append(decimal_unsigned(magnitude).as_str());
        s
    } else {
        decimal_unsigned(n as u64)
    }
}

/// The lower-case hexadecimal digit for `d`.
pub open spec fn hex_char(d: int) -> char {
    if d == 10 {
        'a'
    } else if d == 11 {
        'b'
    } else if d == 12 {
        'c'
    } else if d == 13 {
        'd'
    } else if d == 14 {
        'e'
    } else if d == 15 {
        'f'
    } else {
        digit_char(d)
    }
}

/// The hexadecimal digits of `n`, most significant first, without leading
/// zeros.
pub open spec fn hex_digits(n: nat) -> Seq<char>
    decreases n,
{
    if n < 16 {
        seq![hex_char(n as int)]
    } else {
        hex_digits(n / 16).push(hex_char((n % 16) as int))
    }
}

/// The lower-case hexadecimal digit for `d` as text.
pub fn hex_str(d: u64) -> (s: &'static str)
    requires
        d < 16,
    ensures
        s@ == seq![hex_char(d as int)],
{
    proof {
        reveal_strlit("a");
        reveal_strlit("b");
        reveal_strlit("c");
        reveal_strlit("d");
        reveal_strlit("e");
        reveal_strlit("f");
    }
    match d {
        10 => "a",
        11 => "b",
        12 => "c",
        13 => "d",
        14 => "e",
        15 => "f",
        _ => digit_str(d),
    }
}

/// Renders an unsigned number in lower-case hexadecimal.
pub fn hexadecimal(n: u64) -> (s: String)
    ensures
        s@ == hex_digits(n as nat),
    decreases n,
{
    if n < 16 {
        String::from_str(hex_str(n))
    } else {
        let mut s = hexadecimal(n / 16);
        s.append(hex_str(n % 16));
        s
    }
}

/// The items joined with `separator` between neighbours.
pub open spec fn joined(items: Seq<Seq<char>>, separator: Seq<char>) -> Seq<char>
    decreases items.len(),
{
    if items.len() == 0 {
        seq![]
    } else if items.len() == 1 {
        items[0]
    } else {
        joined(items.drop_last(), separator) + separator + items.last()
    }
}

/// The strings as character sequences.
pub open spec fn text_views(items: Seq<String>) -> Seq<Seq<char>> {
    Seq::new(items.len(), |i: int| items[i]@)
}

/// Joins strings with a separator between neighbours.
pub fn join(items: &Vec<String>, separator: &str) -> (s: String)
    ensures
        s@ == joined(text_views(items@), separator@),
{
    let ghost all = text_views(items@);
    let mut s = String::new();
    let mut i: usize = 0;
    assert(s@ =~= joined(all.take(0), separator@));
    while i < items.len()
        invariant
            i <= items.len(),
            all == text_views(items@),
            s@ == joined(all.take(i as int), separator@),
        decreases items.len() - i,
    {
        if i > 0 {
            s.append(separator);
        }
        s.append(items[i].as_str());
        proof {
            let next = all.take(i + 1);
            assert(next.drop_last() =~= all.take(i as int));
            assert(next.last() == items@[i as int]@);
            assert(s@ =~= joined(next, separator@));
        }
        i += 1;
    }
    assert(all.take(i as int) =~= all);
    s
}

/// Decodes UTF-8. The standard library's `str::from_utf8` accepts exactly the
/// byte sequences that are UTF-8 and hands back the text that they encode.
#[verifier::external_body]
pub(crate) fn text_from_utf8(bytes: &[u8]) -> (s: Option<&str>)
    ensures
        s is Some <==> valid_utf8(bytes@),
        s is Some ==> encode_utf8(s->0@) == bytes@,
{
    std::str::from_utf8(bytes).ok()
}

/// The text that the standard library's `String::from_utf8_lossy` makes of a
/// byte sequence.
pub uninterp spec fn lossy_text(bytes: Seq<u8>) -> Seq<char>;

/// Decodes UTF-8 by the standard library's `String::from_utf8_lossy`: bytes that
/// are UTF-8 give the text that they encode, other bytes give replacement
/// characters.
#[verifier::external_body]
pub(crate) fn text_from_utf8_lossy(bytes: &Vec<u8>) -> (s: String)
    ensures
        s@ == lossy_text(bytes@),
        valid_utf8(bytes@) ==> encode_utf8(s@) == bytes@,
{
    String::from_utf8_lossy(bytes).into_owned()
}

/// The text that consists of one character, by the standard library's
/// `char::to_string`.
#[verifier::external_body]
pub(crate) fn char_text(c: char) -> (s: String)
    ensures
        s@ == seq![c],
{
    c.to_string()
}

/// The number that a digit stands for.
pub open spec fn digit_value(c: char) -> int {
    let code = c as int;
    if 48 <= code <= 57 {
        code - 48
    } else if 97 <= code <= 102 {
        code - 87
    } else {
        -1
    }
}

/// The number that a numeral to some base stands for.
pub open spec fn numeral_value(digits: Seq<char>, base: int) -> int
    decreases digits.len(),
{
    if digits.len() == 0 {
        0
    } else {
        numeral_value(digits.drop_last(), base) * base + digit_value(digits.last())
    }
}

/// The decimal digits of a number are a numeral for it, made of digits alone and
/// without leading zeros.
pub proof fn decimal_digits_denote_the_number(n: nat)
    ensures
        numeral_value(decimal_digits(n), 10) == n,
        decimal_digits(n).len() > 0,
        forall|i: int| 0 <= i < decimal_digits(n).len() ==> '0' <= #[trigger] decimal_digits(n)[i] <= '9',
        n > 0 ==> decimal_digits(n)[0] != '0',
        decimal_digits(n).len() == 1 <==> n < 10,
    decreases n,
{
    let s = decimal_digits(n);
    if n < 10 {
        assert(s.drop_last() =~= seq![]);
        assert(numeral_value(s.drop_last(), 10) == 0);
    } else {
        decimal_digits_denote_the_number(n / 10);
        assert(s.drop_last() =~= decimal_digits(n / 10));
        assert forall|i: int| 0 <= i < s.len() implies '0' <= #[trigger] s[i] <= '9' by {
            if i < s.len() - 1 {
                assert(s[i] == decimal_digits(n / 10)[i]);
            }
        }
        assert(s[0] == decimal_digits(n / 10)[0]);
    }
}

/// The decimal text of a number starts with a minus sign exactly if it is negative,
/// and the digits after it denote its magnitude.
pub proof fn decimal_text_denotes_the_number(n: int)
    ensures
        decimal_text(n)[0] == '-' <==> n < 0,
        n >= 0 ==> numeral_value(decimal_text(n), 10) == n,
        n < 0 ==> numeral_value(decimal_text(n).drop_first(), 10) == -n,
{
    if n < 0 {
        decimal_digits_denote_the_number((-n) as nat);
        assert(decimal_text(n).drop_first() =~= decimal_digits((-n) as nat));
    } else {
        decimal_digits_denote_the_number(n as nat);
        assert('0' <= decimal_digits(n as nat)[0]);
    }
}

/// The hexadecimal digits of a number are a numeral for it in lower case, without
/// leading zeros.
pub proof fn hex_digits_denote_the_number(n: nat)
    ensures
        numeral_value(hex_digits(n), 16) == n,
        hex_digits(n).len() > 0,
        forall|i: int|
            0 <= i < hex_digits(n).len() ==> 0 <= digit_value(#[trigger] hex_digits(n)[i]) < 16,
        n > 0 ==> hex_digits(n)[0] != '0',
    decreases n,
{
    let s = hex_digits(n);
    if n < 16 {
        assert(s.drop_last() =~= seq![]);
        assert(numeral_value(s.drop_last(), 16) == 0);
    } else {
        hex_digits_denote_the_number(n / 16);
        assert(s.drop_last() =~= hex_digits(n / 16));
        assert forall|i: int| 0 <= i < s.len() implies 0 <= digit_value(#[trigger] s[i]) < 16 by {
            if i < s.len() - 1 {
                assert(s[i] == hex_digits(n / 16)[i]);
            }
        }
        assert(s[0] == hex_digits(n / 16)[0]);
    }
}

/// Joined texts stand in order with the separator between neighbours and nowhere
/// else.
pub proof fn joining_goes_in_order(items: Seq<Seq<char>>, item: Seq<char>, separator: Seq<char>)
    ensures
        joined(Seq::<Seq<char>>::empty(), separator).len() == 0,
        joined(seq![item], separator) == item,
        items.len() > 0 ==> joined(items.push(item), separator) == joined(items, separator)
            + separator + item,
{
    assert(items.push(item).drop_last() =~= items);
}

} // verus!
