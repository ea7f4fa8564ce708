use nod_runtime::format_out::{
    install_test_writer, nod_format_out, take_test_writer, uninstall_test_writer, write_bytes,
    TestWriter,
};
use nod_runtime::heap::Heap;
use nod_runtime::word::Word;

fn capture(heap: &Heap, fmt: Word, args: [u64; 3]) -> Vec<u8> {
    let mut writer = TestWriter::new();
    install_test_writer(&mut writer);
    let effects = nod_format_out(heap, &mut writer, fmt.raw(), args[0], args[1], args[2]);
    assert!(effects.stdout.is_none());
    let out = take_test_writer(&mut writer).unwrap_or_default();
    uninstall_test_writer(&mut writer);
    out
}

#[test]
fn literal_passes_through() {
    let mut heap = Heap::new();
    let fmt = heap.alloc_text("hello\n");
    let buf = capture(&heap, fmt, [0, 0, 0]);
    assert_eq!(&buf, b"hello\n");
}

#[test]
fn percent_d_formats_fixnum() {
    let mut heap = Heap::new();
    let fmt = heap.alloc_text("answer: %d\n");
    let n = Word::from_fixnum(42).unwrap();
    let buf = capture(&heap, fmt, [n.raw(), 0, 0]);
    assert_eq!(&buf, b"answer: 42\n");
}

#[test]
fn percent_s_formats_byte_string() {
    let mut heap = Heap::new();
    let fmt = heap.alloc_text("hi, %s\n");
    let name = heap.alloc_text("world");
    let buf = capture(&heap, fmt, [name.raw(), 0, 0]);
    assert_eq!(&buf, b"hi, world\n");
}

#[test]
fn percent_percent_emits_literal_percent() {
    let mut heap = Heap::new();
    let fmt = heap.alloc_text("100%% done\n");
    let buf = capture(&heap, fmt, [0, 0, 0]);
    assert_eq!(&buf, b"100% done\n");
}

#[test]
fn arguments_are_used_in_order() {
    let mut heap = Heap::new();
    let fmt = heap.alloc_text("%d-%d-%s");
    let s = heap.alloc_text("é");
    let f = |n: i64| Word::from_fixnum(n).unwrap().raw();
    let buf = capture(&heap, fmt, [f(-1), f(2), s.raw()]);
    assert_eq!(buf, "-1-2-é".as_bytes().to_vec());
}

#[test]
fn unknown_directives_are_noted() {
    let mut heap = Heap::new();
    let fmt = heap.alloc_text("a%qb");
    let mut writer = TestWriter::new();
    install_test_writer(&mut writer);
    let effects = nod_format_out(&heap, &mut writer, fmt.raw(), 0, 0, 0);
    assert_eq!(effects.notes.len(), 1);
    assert!(effects.notes[0].contains("%q"), "{}", effects.notes[0]);
}

#[test]
fn without_a_writer_output_goes_to_stdout() {
    let mut heap = Heap::new();
    let fmt = heap.alloc_text("plain");
    let mut writer = TestWriter::new();
    let effects = nod_format_out(&heap, &mut writer, fmt.raw(), 0, 0, 0);
    assert_eq!(effects.stdout, Some(b"plain".to_vec()));
    assert_eq!(take_test_writer(&mut writer), None);
    // Taking goes on capturing.
    assert_eq!(write_bytes(&mut writer, vec![3]), None);
    uninstall_test_writer(&mut writer);
    assert_eq!(write_bytes(&mut writer, vec![1, 2]), Some(vec![1, 2]));
    install_test_writer(&mut writer);
    assert_eq!(write_bytes(&mut writer, vec![1, 2]), None);
    assert_eq!(take_test_writer(&mut writer), Some(vec![1, 2]));
}
