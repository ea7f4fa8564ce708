use nod_runtime::text::{decimal_signed, decimal_unsigned, hexadecimal, join};
use nod_runtime::utf16::{encode_utf16, text_before_zero, ClassNameBuffers};
use nod_runtime::word::{Word, FIXNUM_MAX, FIXNUM_MIN};

#[test]
fn fixnums_round_trip() {
    for n in [0, 1, -1, 42, FIXNUM_MAX, FIXNUM_MIN] {
        let w = Word::from_fixnum(n).unwrap();
        assert!(w.is_fixnum());
        assert!(!w.is_pointer());
        assert_eq!(w.as_fixnum(), Some(n));
    }
    assert_eq!(Word::from_fixnum(FIXNUM_MAX + 1), None);
    assert_eq!(Word::from_fixnum(FIXNUM_MIN - 1), None);
    assert_eq!(Word::from_fixnum(21).unwrap().raw(), 42);
}

#[test]
fn pointers_carry_their_address() {
    let w = Word::from_address(0x1000);
    assert!(w.is_pointer());
    assert_eq!(w.raw(), 0x1001);
    assert_eq!(w.as_address(), Some(0x1000));
    assert_eq!(w.as_fixnum(), None);
}

#[test]
fn tagging_keeps_the_low_bits() {
    assert_eq!(Word::tagged(5).as_fixnum(), Some(5));
    assert_eq!(Word::tagged(0x8000_0000_0000_0001).raw(), 2);
}

#[test]
fn numbers_render_in_decimal_and_hexadecimal() {
    assert_eq!(decimal_unsigned(u64::MAX), "18446744073709551615");
    assert_eq!(decimal_signed(i64::MIN), "-9223372036854775808");
    assert_eq!(decimal_signed(0), "0");
    assert_eq!(hexadecimal(0xdead_beef), "deadbeef");
    let items = vec!["a".to_string(), "b".to_string()];
    assert_eq!(join(&items, ", "), "a, b");
}

#[test]
fn utf16_uses_surrogate_pairs() {
    assert_eq!(encode_utf16("aé"), vec![0x61, 0xe9]);
    assert_eq!(encode_utf16("\u{1f600}"), vec![0xd83d, 0xde00]);
    let mut units = encode_utf16("a\u{1f600}b");
    units.push(0);
    units.push(0x7a);
    assert_eq!(text_before_zero(&units), "a\u{1f600}b");
    assert_eq!(text_before_zero(&vec![0x61]), "a");
    assert_eq!(text_before_zero(&vec![0xd800, 0x61]), "\u{fffd}a");
}

#[test]
fn class_names_have_one_buffer_each() {
    let mut names = ClassNameBuffers::new();
    let a = names.leak_class_name("Main");
    let b = names.leak_class_name("Tool");
    assert_ne!(a, b);
    assert_eq!(names.leak_class_name("Main"), a);
    assert_eq!(names.buffer(b), &vec![0x54, 0x6f, 0x6f, 0x6c, 0]);
}
