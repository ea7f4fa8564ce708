//! Formatted output.
//!
//! A format string is copied byte by byte; `%d` puts in an integer, `%s` a byte
//! string and `%%` a percent sign. What does not fit is noted and stood in for,
//! and formatting goes on. Output goes to a capture buffer while one is
//! installed, else to the standard output.

use vstd::prelude::*;
use vstd::string::*;
use vstd::utf8::encode_utf8;

use crate::classes::ClassId;
use crate::heap::{object_at, Heap, ObjectView};
use crate::text::{char_text, decimal_signed, decimal_text, hex_digits, hexadecimal, text_views};
use crate::word::Word;

verus! {

// ----- capture -----

/// Where output goes: into a buffer while one is installed.
pub struct TestWriter {
    buffer: Option<Vec<u8>>,
}

impl View for TestWriter {
    type V = Option<Seq<u8>>;

    closed spec fn view(&self) -> Option<Seq<u8>> {
        match self.buffer {
            Some(b) => Some(b@),
            None => None,
        }
    }
}

impl TestWriter {
    /// No buffer is installed.
    pub fn new() -> (w: TestWriter)
        ensures
            w@ is None,
    {
        TestWriter { buffer: None }
    }
}

/// Installs an empty buffer.
pub fn install_test_writer(writer: &mut TestWriter)
    ensures
        final(writer)@ == Some(Seq::<u8>::empty()),
{
    writer.buffer = Some(Vec::new());
}

/// Takes what has been captured and goes on capturing into an empty buffer;
/// absent when no buffer was installed.
pub fn take_test_writer(writer: &mut TestWriter) -> (captured: Option<Vec<u8>>)
    ensures
        captured is Some <==> old(writer)@ is Some,
        captured is Some ==> captured->0@ == old(writer)@->0,
        final(writer)@ == Some(Seq::<u8>::empty()),
{
    let captured = writer.buffer.take();
    writer.buffer = Some(Vec::new());
    captured
}

/// Removes the buffer.
pub fn uninstall_test_writer(writer: &mut TestWriter)
    ensures
        final(writer)@ is None,
{
    writer.buffer = None;
}

/// Writes bytes: into the buffer, or back to the caller for the standard output.
pub fn write_bytes(writer: &mut TestWriter, bytes: Vec<u8>) -> (to_stdout: Option<Vec<u8>>)
    ensures
        match old(writer)@ {
            Some(b) => to_stdout is None && final(writer)@ == Some(b + bytes@),
            None => to_stdout is Some && to_stdout->0@ == bytes@ && final(writer)@ is None,
        },
{
    match writer.buffer.take() {
        Some(b) => {
            let mut buffer = b;
            let mut more = bytes;
            buffer.append(&mut more);
            writer.buffer = Some(buffer);
            None
        },
        None => Some(bytes),
    }
}

// ----- formatting -----

/// The bytes of a byte string.
pub open spec fn string_bytes(h: Seq<ObjectView>, w: Word) -> Option<Seq<u8>> {
    match object_at(h, w) {
        Some(o) => if o.class == ClassId(ClassId::BYTE_STRING) {
            Some(o.bytes)
        } else {
            None
        },
        None => None,
    }
}

/// What stands in the output for `%d`, and what is noted, if anything.
pub open spec fn integer_piece(args: Seq<Word>, next: int) -> (Seq<u8>, Option<Seq<char>>) {
    if next >= args.len() {
        (encode_utf8("<missing>"@), Some("too few arguments for `%d`"@))
    } else if args[next].spec_is_fixnum() {
        (encode_utf8(decimal_text(args[next].fixnum_value())), None)
    } else {
        (
            encode_utf8("<bad-int>"@),
            Some("`%d` expects fixnum, got raw 0x"@ + hex_digits(args[next].raw as nat)),
        )
    }
}

/// What stands in the output for `%s`, and what is noted, if anything.
pub open spec fn string_piece(
    h: Seq<ObjectView>,
    args: Seq<Word>,
    next: int,
) -> (Seq<u8>, Option<Seq<char>>) {
    if next >= args.len() {
        (encode_utf8("<missing>"@), Some("too few arguments for `%s`"@))
    } else {
        match string_bytes(h, args[next]) {
            Some(b) => (b, None),
            None => (
                encode_utf8("<bad-str>"@),
                Some("`%s` expects <byte-string>, got raw 0x"@ + hex_digits(args[next].raw as nat)),
            ),
        }
    }
}

/// One step of formatting from byte `i` on: the bytes put out, what is noted,
/// how many bytes of the format are used, and how many arguments.
pub open spec fn format_step(
    h: Seq<ObjectView>,
    fmt: Seq<u8>,
    args: Seq<Word>,
    i: int,
    next: int,
) -> (Seq<u8>, Option<Seq<char>>, int, int) {
    let used = if next < args.len() {
        1int
    } else {
        0
    };
    if fmt[i] != 37 {
        (seq![fmt[i]], None, 1, 0)
    } else if i + 1 >= fmt.len() {
        (seq![37u8], Some("trailing `%` in format string"@), 1, 0)
    } else if fmt[i + 1] == 37 {
        (seq![37u8], None, 2, 0)
    } else if fmt[i + 1] == 100 {
        let p = integer_piece(args, next);
        (p.0, p.1, 2, used)
    } else if fmt[i + 1] == 115 {
        let p = string_piece(h, args, next);
        (p.0, p.1, 2, used)
    } else {
        (
            seq![37u8, fmt[i + 1]],
            Some("unsupported directive `%"@ + seq![fmt[i + 1] as char] + "`"@),
            2,
            0,
        )
    }
}

/// The output for a format from byte `i` on.
pub open spec fn formatted(
    h: Seq<ObjectView>,
    fmt: Seq<u8>,
    args: Seq<Word>,
    i: int,
    next: int,
) -> Seq<u8>
    decreases fmt.len() - i,
{
    if i < 0 || i >= fmt.len() {
        seq![]
    } else {
        let s = format_step(h, fmt, args, i, next);
        s.0 + formatted(h, fmt, args, i + s.2, next + s.3)
    }
}

/// The notes for a format from byte `i` on.
pub open spec fn format_notes(
    h: Seq<ObjectView>,
    fmt: Seq<u8>,
    args: Seq<Word>,
    i: int,
    next: int,
) -> Seq<Seq<char>>
    decreases fmt.len() - i,
{
    if i < 0 || i >= fmt.len() {
        seq![]
    } else {
        let s = format_step(h, fmt, args, i, next);
        let rest = format_notes(h, fmt, args, i + s.2, next + s.3);
        match s.1 {
            Some(n) => seq![n] + rest,
            None => rest,
        }
    }
}

/// One step of formatting.
fn step(heap: &Heap, fmt: &Vec<u8>, args: &Vec<Word>, i: usize, next: usize) -> (r: (
    Vec<u8>,
    Option<String>,
    usize,
    usize,
))
    requires
        i < fmt@.len(),
        next <= args@.len(),
    ensures
        ({
            let s = format_step(heap@, fmt@, args@, i as int, next as int);
            &&& r.0@ == s.0
            &&& r.1 is Some <==> s.1 is Some
            &&& r.1 is Some ==> r.1->0@ == s.1->0
            &&& r.2 == s.2
            &&& r.3 == s.3
            &&& i + r.2 <= fmt@.len()
            &&& next + r.3 <= args@.len()
            &&& r.2 >= 1
        }),
{
    let c = fmt[i];
    if c != 37 {
        let piece = vec![c];
        assert(piece@ =~= seq![c]);
        return (piece, None, 1, 0);
    }
    if fmt.len() - i <= 1 {
        let piece: Vec<u8> = vec![37u8];
        assert(piece@ =~= seq![37u8]);
        return (piece, Some(String::from_str("trailing `%` in format string")), 1, 0);
    }
    let used: usize = if next < args.len() {
        1
    } else {
        0
    };
    let directive = fmt[i + 1];
    if directive == 37 {
        let piece: Vec<u8> = vec![37u8];
        assert(piece@ =~= seq![37u8]);
        (piece, None, 2, 0)
    } else if directive == 100 {
        if used == 0 {
            (
                "<missing>".as_bytes_vec(),
                Some(String::from_str("too few arguments for `%d`")),
                2,
                0,
            )
        } else {
            match args[next].as_fixnum() {
                Some(n) => (decimal_signed(n).as_str().as_bytes_vec(), None, 2, 1),
                None => {
                    let mut note = String::from_str("`%d` expects fixnum, got raw 0x");
                    note.append(hexadecimal(args[next].raw()).as_str());
                    ("<bad-int>".as_bytes_vec(), Some(note), 2, 1)
                },
            }
        }
    } else if directive == 115 {
        if used == 0 {
            (
                "<missing>".as_bytes_vec(),
                Some(String::from_str("too few arguments for `%s`")),
                2,
                0,
            )
        } else {
            match decode_byte_string(heap, args[next]) {
                Some(b) => (b, None, 2, 1),
                None => {
                    let mut note = String::from_str("`%s` expects <byte-string>, got raw 0x");
                    note.append(hexadecimal(args[next].raw()).as_str());
                    ("<bad-str>".as_bytes_vec(), Some(note), 2, 1)
                },
            }
        }
    } else {
        let piece: Vec<u8> = vec![37u8, directive];
        assert(piece@ =~= seq![37u8, directive]);
        let mut note = String::from_str("unsupported directive `%");
        note.append(char_text(directive as char).as_str());
        note.append("`");
        (piece, Some(note), 2, 0)
    }
}

/// A copy of the bytes of a byte string; absent for any other word.
fn decode_byte_string(heap: &Heap, w: Word) -> (b: Option<Vec<u8>>)
    ensures
        b is Some <==> string_bytes(heap@, w) is Some,
        b is Some ==> b->0@ == string_bytes(heap@, w)->0,
{
    match heap.get(w) {
        Some(o) => {
            if o.class == ClassId(ClassId::BYTE_STRING) {
                Some(o.bytes.clone())
            } else {
                None
            }
        },
        None => None,
    }
}

/// What formatted output comes to.
pub struct FormatEffects {
    /// Bytes for the standard output, unless they were captured.
    pub stdout: Option<Vec<u8>>,
    /// Diagnostics for the standard error, in order.
    pub notes: Vec<String>,
}

/// Formats up to three arguments and writes the result. A format that is no byte
/// string is noted and writes nothing.
pub fn nod_format_out(
    heap: &Heap,
    writer: &mut TestWriter,
    fmt: u64,
    arg1: u64,
    arg2: u64,
    arg3: u64,
) -> (effects: FormatEffects)
    ensures
        ({
            let args = seq![Word { raw: arg1 }, Word { raw: arg2 }, Word { raw: arg3 }];
            match string_bytes(heap@, Word { raw: fmt }) {
                None => {
                    &&& effects.stdout is None
                    &&& text_views(effects.notes@) == seq![
                        "format string is not a <byte-string> (raw 0x"@ + hex_digits(fmt as nat)
                            + ")"@,
                    ]
                    &&& final(writer)@ == old(writer)@
                },
                Some(f) => {
                    let out = formatted(heap@, f, args, 0, 0);
                    &&& text_views(effects.notes@) == format_notes(heap@, f, args, 0, 0)
                    &&& match old(writer)@ {
                        Some(b) => effects.stdout is None && final(writer)@ == Some(b + out),
                        None => effects.stdout is Some && effects.stdout->0@ == out
                            && final(writer)@ is None,
                    }
                },
            }
        }),
{
    let args = vec![Word::from_raw(arg1), Word::from_raw(arg2), Word::from_raw(arg3)];
    let mut notes: Vec<String> = Vec::new();
    let f = match decode_byte_string(heap, Word::from_raw(fmt)) {
        Some(b) => b,
        None => {
            let mut note = String::from_str("format string is not a <byte-string> (raw 0x");
            note.append(hexadecimal(fmt).as_str());
            note.append(")");
            notes.push(note);
            assert(text_views(notes@) =~= seq![
                "format string is not a <byte-string> (raw 0x"@ + hex_digits(fmt as nat) + ")"@,
            ]);
            return FormatEffects { stdout: None, notes };
        },
    };
    let ghost all = seq![Word { raw: arg1 }, Word { raw: arg2 }, Word { raw: arg3 }];
    let mut out: Vec<u8> = Vec::new();
    let mut next: usize = 0;
    let mut i: usize = 0;
    proof {
        assert(args@ =~= all);
        assert(out@ + formatted(heap@, f@, all, 0, 0) =~= formatted(heap@, f@, all, 0, 0));
        assert(text_views(notes@) + format_notes(heap@, f@, all, 0, 0) =~= format_notes(
            heap@,
            f@,
            all,
            0,
            0,
        ));
    }
    while i < f.len()
        invariant
            i <= f.len(),
            next <= args@.len(),
            args@ == all,
            out@ + formatted(heap@, f@, all, i as int, next as int) == formatted(
                heap@,
                f@,
                all,
                0,
                0,
            ),
            text_views(notes@) + format_notes(heap@, f@, all, i as int, next as int)
                == format_notes(heap@, f@, all, 0, 0),
        decreases f.len() - i,
    {
        let ghost s = format_step(heap@, f@, all, i as int, next as int);
        let ghost before = out@;
        let ghost notes_before = text_views(notes@);
        let ghost rest = formatted(heap@, f@, all, i + s.2, next + s.3);
        let ghost notes_rest = format_notes(heap@, f@, all, i + s.2, next + s.3);
        let (piece, note, bytes_used, args_used) = step(heap, &f, &args, i, next);
        let mut more = piece;
        out.append(&mut more);
        if let Some(n) = note {
            notes.push(n);
            assert(text_views(notes@) =~= notes_before.push(s.1->0));
            assert(notes_before.push(s.1->0) + notes_rest =~= notes_before + (seq![s.1->0]
                + notes_rest));
        }
        proof {
            assert(out@ + rest =~= before + (s.0 + rest));
        }
        i = i + bytes_used;
        next = next + args_used;
    }
    proof {
        assert(out@ + seq![] =~= out@);
        assert(text_views(notes@) + seq![] =~= text_views(notes@));
    }
    let stdout = write_bytes(writer, out);
    FormatEffects { stdout, notes }
}

/// A format without percent signs is put out as it is, without notes.
pub proof fn plain_text_passes_through(
    h: Seq<ObjectView>,
    fmt: Seq<u8>,
    args: Seq<Word>,
    i: int,
    next: int,
)
    requires
        0 <= i <= fmt.len(),
        forall|k: int| 0 <= k < fmt.len() ==> fmt[k] != 37,
    ensures
        formatted(h, fmt, args, i, next) == fmt.skip(i),
        format_notes(h, fmt, args, i, next) == Seq::<Seq<char>>::empty(),
    decreases fmt.len() - i,
{
    if i < fmt.len() {
        plain_text_passes_through(h, fmt, args, i + 1, next);
        assert(seq![fmt[i]] + fmt.skip(i + 1) =~= fmt.skip(i));
    } else {
        assert(fmt.skip(i) =~= seq![]);
    }
}

// ----- what formatting is for -----

/// Formatting a format from byte `n` on is formatting what is left of it.
proof fn formatting_goes_on(
    h: Seq<ObjectView>,
    front: Seq<u8>,
    rest: Seq<u8>,
    args: Seq<Word>,
    i: int,
    next: int,
)
    requires
        0 <= i <= rest.len(),
    ensures
        formatted(h, front + rest, args, front.len() + i, next) == formatted(h, rest, args, i, next),
        format_notes(h, front + rest, args, front.len() + i, next) == format_notes(
            h,
            rest,
            args,
            i,
            next,
        ),
    decreases rest.len() - i,
{
    let fmt = front + rest;
    let n = front.len() as int;
    if i < rest.len() {
        assert(fmt[n + i] == rest[i]);
        if i + 1 < rest.len() {
            assert(fmt[n + i + 1] == rest[i + 1]);
        }
        let s = format_step(h, rest, args, i, next);
        assert(format_step(h, fmt, args, n + i, next) == s);
        formatting_goes_on(h, front, rest, args, i + s.2, next + s.3);
        assert(n + i + s.2 == n + (i + s.2));
    }
}

/// Text without percent signs stands in the output as it is, and formatting goes
/// on after it with the same argument.
pub proof fn text_is_copied(
    h: Seq<ObjectView>,
    text: Seq<u8>,
    rest: Seq<u8>,
    args: Seq<Word>,
    next: int,
)
    requires
        forall|k: int| 0 <= k < text.len() ==> text[k] != '%' as u8,
    ensures
        formatted(h, text + rest, args, 0, next) == text + formatted(h, rest, args, 0, next),
        format_notes(h, text + rest, args, 0, next) == format_notes(h, rest, args, 0, next),
    decreases text.len(),
{
    if text.len() == 0 {
        assert(text + rest =~= rest);
        assert(text + formatted(h, rest, args, 0, next) =~= formatted(h, rest, args, 0, next));
    } else {
        let head = text.take(1);
        let tail = text.skip(1);
        let fmt = text + rest;
        assert(fmt =~= head + (tail + rest));
        assert(fmt[0] == text[0]);
        text_is_copied(h, tail, rest, args, next);
        formatting_goes_on(h, head, tail + rest, args, 0, next);
        assert(formatted(h, fmt, args, 1, next) == tail + formatted(h, rest, args, 0, next));
        assert(seq![text[0]] + (tail + formatted(h, rest, args, 0, next)) =~= text + formatted(
            h,
            rest,
            args,
            0,
            next,
        ));
    }
}

/// `%s` puts out the bytes of the next argument, a byte string, and uses it up.
pub proof fn string_directive_uses_one_argument(
    h: Seq<ObjectView>,
    rest: Seq<u8>,
    args: Seq<Word>,
    next: int,
    o: ObjectView,
)
    requires
        0 <= next < args.len(),
        object_at(h, args[next]) == Some(o),
        o.class == ClassId(ClassId::BYTE_STRING),
    ensures
        formatted(h, seq!['%' as u8, 's' as u8] + rest, args, 0, next) == o.bytes + formatted(
            h,
            rest,
            args,
            0,
            next + 1,
        ),
        format_notes(h, seq!['%' as u8, 's' as u8] + rest, args, 0, next) == format_notes(
            h,
            rest,
            args,
            0,
            next + 1,
        ),
{
    let fmt = seq!['%' as u8, 's' as u8] + rest;
    assert(fmt[0] == 37 && fmt[1] == 115);
    formatting_goes_on(h, seq!['%' as u8, 's' as u8], rest, args, 0, next + 1);
}

/// `%d` puts out the next argument, an integer, in decimal, and uses it up.
pub proof fn integer_directive_uses_one_argument(
    h: Seq<ObjectView>,
    rest: Seq<u8>,
    args: Seq<Word>,
    next: int,
)
    requires
        0 <= next < args.len(),
        args[next].raw % 2 == 0,
    ensures
        formatted(h, seq!['%' as u8, 'd' as u8] + rest, args, 0, next) == encode_utf8(
            decimal_text(args[next].fixnum_value()),
        ) + formatted(h, rest, args, 0, next + 1),
        format_notes(h, seq!['%' as u8, 'd' as u8] + rest, args, 0, next) == format_notes(
            h,
            rest,
            args,
            0,
            next + 1,
        ),
{
    let fmt = seq!['%' as u8, 'd' as u8] + rest;
    assert(fmt[0] == 37 && fmt[1] == 100);
    formatting_goes_on(h, seq!['%' as u8, 'd' as u8], rest, args, 0, next + 1);
}

/// `%%` puts out one percent sign and uses no argument.
pub proof fn doubled_percent_is_one_percent(
    h: Seq<ObjectView>,
    rest: Seq<u8>,
    args: Seq<Word>,
    next: int,
)
    ensures
        formatted(h, seq!['%' as u8, '%' as u8] + rest, args, 0, next) == seq!['%' as u8]
            + formatted(h, rest, args, 0, next),
        format_notes(h, seq!['%' as u8, '%' as u8] + rest, args, 0, next) == format_notes(
            h,
            rest,
            args,
            0,
            next,
        ),
{
    let fmt = seq!['%' as u8, '%' as u8] + rest;
    assert(fmt[0] == 37 && fmt[1] == 37);
    formatting_goes_on(h, seq!['%' as u8, '%' as u8], rest, args, 0, next);
}

/// A directive whose argument is of the wrong kind is stood in for and noted, and
/// still uses up the argument.
pub proof fn misfits_are_noted_and_used_up(
    h: Seq<ObjectView>,
    rest: Seq<u8>,
    args: Seq<Word>,
    next: int,
)
    requires
        0 <= next < args.len(),
    ensures
        args[next].raw % 2 == 1 ==> formatted(
            h,
            seq!['%' as u8, 'd' as u8] + rest,
            args,
            0,
            next,
        ) == encode_utf8("<bad-int>"@) + formatted(h, rest, args, 0, next + 1) && format_notes(
            h,
            seq!['%' as u8, 'd' as u8] + rest,
            args,
            0,
            next,
        ) == seq!["`%d` expects fixnum, got raw 0x"@ + hex_digits(args[next].raw as nat)]
            + format_notes(h, rest, args, 0, next + 1),
        (object_at(h, args[next]) is None || object_at(h, args[next])->0.class != ClassId(
            ClassId::BYTE_STRING,
        )) ==> formatted(h, seq!['%' as u8, 's' as u8] + rest, args, 0, next) == encode_utf8(
            "<bad-str>"@,
        ) + formatted(h, rest, args, 0, next + 1) && format_notes(
            h,
            seq!['%' as u8, 's' as u8] + rest,
            args,
            0,
            next,
        ) == seq!["`%s` expects <byte-string>, got raw 0x"@ + hex_digits(args[next].raw as nat)]
            + format_notes(h, rest, args, 0, next + 1),
{
    let d = seq!['%' as u8, 'd' as u8] + rest;
    let s = seq!['%' as u8, 's' as u8] + rest;
    assert(d[0] == 37 && d[1] == 100 && s[0] == 37 && s[1] == 115);
    formatting_goes_on(h, seq!['%' as u8, 'd' as u8], rest, args, 0, next + 1);
    formatting_goes_on(h, seq!['%' as u8, 's' as u8], rest, args, 0, next + 1);
}

/// A directive for which no argument is left is stood in for and noted.
pub proof fn missing_arguments_are_noted(
    h: Seq<ObjectView>,
    rest: Seq<u8>,
    args: Seq<Word>,
    next: int,
)
    requires
        next >= args.len(),
    ensures
        formatted(h, seq!['%' as u8, 'd' as u8] + rest, args, 0, next) == encode_utf8("<missing>"@)
            + formatted(h, rest, args, 0, next),
        format_notes(h, seq!['%' as u8, 'd' as u8] + rest, args, 0, next) == seq![
            "too few arguments for `%d`"@,
        ] + format_notes(h, rest, args, 0, next),
        formatted(h, seq!['%' as u8, 's' as u8] + rest, args, 0, next) == encode_utf8("<missing>"@)
            + formatted(h, rest, args, 0, next),
        format_notes(h, seq!['%' as u8, 's' as u8] + rest, args, 0, next) == seq![
            "too few arguments for `%s`"@,
        ] + format_notes(h, rest, args, 0, next),
{
    let d = seq!['%' as u8, 'd' as u8] + rest;
    let s = seq!['%' as u8, 's' as u8] + rest;
    assert(d[0] == 37 && d[1] == 100 && s[0] == 37 && s[1] == 115);
    formatting_goes_on(h, seq!['%' as u8, 'd' as u8], rest, args, 0, next);
    formatting_goes_on(h, seq!['%' as u8, 's' as u8], rest, args, 0, next);
}

/// Any other directive is put out as it stands and noted, and uses no argument; a
/// percent sign at the very end too.
pub proof fn unknown_directives_are_put_out(
    h: Seq<ObjectView>,
    directive: u8,
    rest: Seq<u8>,
    args: Seq<Word>,
    next: int,
)
    requires
        directive != '%' as u8,
        directive != 'd' as u8,
        directive != 's' as u8,
    ensures
        formatted(h, seq!['%' as u8, directive] + rest, args, 0, next) == seq![
            '%' as u8,
            directive,
        ] + formatted(h, rest, args, 0, next),
        format_notes(h, seq!['%' as u8, directive] + rest, args, 0, next) == seq![
            "unsupported directive `%"@ + seq![directive as char] + "`"@,
        ] + format_notes(h, rest, args, 0, next),
        formatted(h, seq!['%' as u8], args, 0, next) == seq!['%' as u8],
        format_notes(h, seq!['%' as u8], args, 0, next) == seq!["trailing `%` in format string"@],
        formatted(h, Seq::<u8>::empty(), args, 0, next).len() == 0,
        format_notes(h, Seq::<u8>::empty(), args, 0, next).len() == 0,
{
    let fmt = seq!['%' as u8, directive] + rest;
    assert(fmt[0] == 37 && fmt[1] == directive);
    formatting_goes_on(h, seq!['%' as u8, directive], rest, args, 0, next);
    let last = seq!['%' as u8];
    assert(last[0] == 37);
    assert(formatted(h, last, args, 1, next) =~= seq![]);
    assert(format_notes(h, last, args, 1, next) =~= seq![]);
    assert(formatted(h, last, args, 0, next) =~= seq!['%' as u8]);
    assert(format_notes(h, last, args, 0, next) =~= seq!["trailing `%` in format string"@]);
}

/// The texts `p` with the pieces `q` between them.
pub open spec fn interleaved(p: Seq<Seq<u8>>, q: Seq<Seq<u8>>) -> Seq<u8>
    decreases q.len(),
{
    if q.len() == 0 {
        p[0]
    } else {
        p[0] + (q[0] + interleaved(p.drop_first(), q.drop_first()))
    }
}

/// `out` is what a directive puts out for an argument that fits it.
spec fn renders(h: Seq<ObjectView>, directive: Seq<u8>, w: Word, out: Seq<u8>) -> bool {
    ||| directive == seq!['%' as u8, 's' as u8] && object_at(h, w) is Some && object_at(
        h,
        w,
    )->0.class == ClassId(ClassId::BYTE_STRING) && out == object_at(h, w)->0.bytes
    ||| directive == seq!['%' as u8, 'd' as u8] && w.raw % 2 == 0 && out == encode_utf8(
        decimal_text(w.fixnum_value()),
    )
}

proof fn rendered_in_order(
    h: Seq<ObjectView>,
    args: Seq<Word>,
    next: int,
    texts: Seq<Seq<u8>>,
    directives: Seq<Seq<u8>>,
    outs: Seq<Seq<u8>>,
)
    requires
        0 <= next,
        next + directives.len() <= args.len(),
        texts.len() == directives.len() + 1,
        outs.len() == directives.len(),
        forall|j: int, k: int|
            0 <= j < texts.len() && 0 <= k < texts[j].len() ==> #[trigger] texts[j][k] != '%' as u8,
        forall|k: int|
            0 <= k < directives.len() ==> renders(
                h,
                directives[k],
                args[next + k],
                #[trigger] outs[k],
            ),
    ensures
        formatted(h, interleaved(texts, directives), args, 0, next) == interleaved(texts, outs),
        format_notes(h, interleaved(texts, directives), args, 0, next) == Seq::<Seq<char>>::empty(),
    decreases directives.len(),
{
    let none = Seq::<u8>::empty();
    assert forall|k: int| 0 <= k < texts[0].len() implies #[trigger] texts[0][k] != '%' as u8 by {}
    if directives.len() == 0 {
        text_is_copied(h, texts[0], none, args, next);
        assert(texts[0] + none =~= texts[0]);
        assert(texts[0] + formatted(h, none, args, 0, next) =~= texts[0]);
    } else {
        let more_texts = texts.drop_first();
        let more = directives.drop_first();
        let more_outs = outs.drop_first();
        assert forall|j: int, k: int|
            0 <= j < more_texts.len() && 0 <= k < more_texts[j].len() implies #[trigger]
            more_texts[j][k] != '%' as u8 by {
            assert(more_texts[j][k] == texts[j + 1][k]);
        }
        assert forall|k: int| 0 <= k < more.len() implies renders(
            h,
            more[k],
            args[next + 1 + k],
            #[trigger] more_outs[k],
        ) by {
            assert(more_outs[k] == outs[k + 1] && more[k] == directives[k + 1]);
        }
        rendered_in_order(h, args, next + 1, more_texts, more, more_outs);
        let rest = interleaved(more_texts, more);
        text_is_copied(h, texts[0], directives[0] + rest, args, next);
        assert(renders(h, directives[0], args[next + 0], outs[0]));
        if args[next].raw % 2 == 0 {
            integer_directive_uses_one_argument(h, rest, args, next);
        } else {
            string_directive_uses_one_argument(h, rest, args, next, object_at(h, args[next])->0);
        }
    }
}

/// The directives of a format render the arguments one after the other, counted
/// over both kinds: the `k`-th of them renders argument `k`, whether it is `%s` for
/// a byte string or `%d` for an integer. The text between them is copied, and
/// nothing is noted.
pub proof fn directives_render_arguments_in_order(
    h: Seq<ObjectView>,
    args: Seq<Word>,
    texts: Seq<Seq<u8>>,
    directives: Seq<Seq<u8>>,
    outs: Seq<Seq<u8>>,
)
    requires
        directives.len() <= args.len(),
        texts.len() == directives.len() + 1,
        outs.len() == directives.len(),
        forall|j: int, k: int|
            0 <= j < texts.len() && 0 <= k < texts[j].len() ==> #[trigger] texts[j][k] != '%' as u8,
        forall|k: int|
            #![trigger outs[k]]
            0 <= k < directives.len() ==> {
                ||| directives[k] == seq!['%' as u8, 's' as u8] && object_at(h, args[k]) is Some
                    && object_at(h, args[k])->0.class == ClassId(ClassId::BYTE_STRING) && outs[k]
                    == object_at(h, args[k])->0.bytes
                ||| directives[k] == seq!['%' as u8, 'd' as u8] && args[k].raw % 2 == 0 && outs[k]
                    == encode_utf8(decimal_text(args[k].fixnum_value()))
            },
    ensures
        formatted(h, interleaved(texts, directives), args, 0, 0) == interleaved(texts, outs),
        format_notes(h, interleaved(texts, directives), args, 0, 0).len() == 0,
{
    assert forall|k: int| 0 <= k < directives.len() implies renders(
        h,
        directives[k],
        args[0 + k],
        #[trigger] outs[k],
    ) by {}
    rendered_in_order(h, args, 0, texts, directives, outs);
}

/// A string and then an integer, each with text around it, come out in that order.
pub proof fn string_then_integer(
    h: Seq<ObjectView>,
    args: Seq<Word>,
    before: Seq<u8>,
    between: Seq<u8>,
    after: Seq<u8>,
)
    requires
        args.len() >= 2,
        object_at(h, args[0]) is Some,
        object_at(h, args[0])->0.class == ClassId(ClassId::BYTE_STRING),
        args[1].raw % 2 == 0,
        forall|k: int| 0 <= k < before.len() ==> before[k] != '%' as u8,
        forall|k: int| 0 <= k < between.len() ==> between[k] != '%' as u8,
        forall|k: int| 0 <= k < after.len() ==> after[k] != '%' as u8,
    ensures
        ({
            let fmt = before + seq!['%' as u8, 's' as u8] + between + seq!['%' as u8, 'd' as u8]
                + after;
            &&& formatted(h, fmt, args, 0, 0) == before + object_at(h, args[0])->0.bytes + between
                + encode_utf8(decimal_text(args[1].fixnum_value())) + after
            &&& format_notes(h, fmt, args, 0, 0).len() == 0
        }),
{
    let s = seq!['%' as u8, 's' as u8];
    let d = seq!['%' as u8, 'd' as u8];
    let bytes = object_at(h, args[0])->0.bytes;
    let digits = encode_utf8(decimal_text(args[1].fixnum_value()));
    let none = Seq::<u8>::empty();
    text_is_copied(h, before, s + (between + (d + after)), args, 0);
    string_directive_uses_one_argument(
        h,
        between + (d + after),
        args,
        0,
        object_at(h, args[0])->0,
    );
    text_is_copied(h, between, d + after, args, 1);
    integer_directive_uses_one_argument(h, after, args, 1);
    text_is_copied(h, after, none, args, 2);
    assert(after + none =~= after);
    assert(after + formatted(h, none, args, 0, 2) =~= after);
    assert(before + s + between + d + after =~= before + (s + (between + (d + after))));
    assert(before + bytes + between + digits + after =~= before + (bytes + (between + (digits
        + after))));
}

} // verus!
