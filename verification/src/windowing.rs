//! Windows, messages, files and dialogs.
//!
//! As with graphics, each entry point decodes its words and encodes what comes
//! back; the call of the system itself is handed in.

use vstd::prelude::*;
use vstd::string::*;
use vstd::utf8::{decode_utf8, encode_utf8, valid_utf8};

use crate::com::{
    low_bits, low_u32, signed32, store_last_hresult, tag, tagged, tagging_doubles, to_signed32,
    untag, untag_i64, untagged, untagged_signed, words_carry_their_number, ComState, ComView,
};
use crate::generics::{decode_byte_string_to_string, held_text};
use crate::graphics::says_yes;
use crate::heap::{
    bytes_object, false_word, heap_room, heap_wf, literal_pool_immediates, nil_word, object_at,
    Heap, ObjectView,
};
use crate::literals::{
    intern_string_literal, interned, literal_holds_its_text, literals_hold, LiteralPool,
};
use crate::text::{lossy_text, text_from_utf8_lossy};
use crate::utf16::{
    before_zero, encode_utf16, lossy_utf16, name_from, text_before_zero, utf16_units,
    ClassNameBuffers,
};
use crate::word::{fixnum, in_fixnum_range, Word};

verus! {

// ----- windows -----

/// Registers a window class. Answers its atom, or zero with the failure code
/// remembered; a window procedure at zero is refused.
pub fn nod_register_window_class<T, F: Fn(i64, &Vec<u16>) -> Result<u16, i32>>(
    state: &mut ComState<T>,
    names: &mut ClassNameBuffers,
    heap: &Heap,
    call: F,
    wndproc_word: u64,
    class_name_word: u64,
) -> (answer: u64)
    requires
        old(names).wf(),
        untagged_signed(wndproc_word) != 0 ==> held_text(heap@, Word { raw: class_name_word })
            is Some,
        forall|p: i64, n: &Vec<u16>| call.requires((p, n)),
    ensures
        final(names).wf(),
        if untagged_signed(wndproc_word) == 0 {
            answer == 0 && final(state)@ == old(state)@ && final(names)@ == old(names)@
        } else {
            let name = held_text(heap@, Word { raw: class_name_word })->0;
            &&& final(names)@ == if name_from(old(names)@, name, 0) is Some {
                old(names)@
            } else {
                old(names)@.push(name)
            }
            &&& exists|units: Vec<u16>, outcome: Result<u16, i32>| #[trigger]
                call.ensures((untagged_signed(wndproc_word) as i64, &units), outcome)
                    && units@ == utf16_units(name).push(0) && match outcome {
                    Ok(atom) => answer == tagged(atom as u64) && final(state)@ == old(state)@,
                    Err(code) => answer == 0 && final(state)@ == old(state)@.with_hresult(code),
                }
        },
{
    let wndproc = untag_i64(wndproc_word);
    if wndproc == 0 {
        return 0;
    }
    let name = decode_byte_string_to_string(heap, Word::from_raw(class_name_word)).unwrap();
    let i = names.leak_class_name(name.as_str());
    let units = names.buffer(i);
    let outcome = call(wndproc, units);
    assert(call.ensures((untagged_signed(wndproc_word) as i64, units), outcome));
    match outcome {
        Ok(atom) => tag(atom as u64),
        Err(code) => {
            store_last_hresult(state, code);
            0
        },
    }
}

/// Where a window goes.
#[derive(Clone, Copy, PartialEq, Eq, Structural, Debug)]
pub enum WindowPlace {
    /// On the desktop, never shown.
    Hidden,
    /// Nowhere: it takes messages only.
    MessageOnly,
}

/// A window to make.
#[derive(Clone, Copy, PartialEq, Eq, Structural, Debug)]
pub struct WindowDesc {
    pub class_atom: u16,
    pub place: WindowPlace,
    pub width: i32,
    pub height: i32,
}

/// The class atom in a word.
pub open spec fn atom_of(w: u64) -> u16 {
    (untagged(w) % 0x1_0000) as u16
}

/// What making a window comes to. The call answers the window, zero for none.
pub open spec fn window_made<T>(
    before: ComView<T>,
    after: ComView<T>,
    outcome: Result<u64, i32>,
    answer: u64,
) -> bool {
    match outcome {
        Ok(hwnd) => answer == tagged(hwnd) && after == before,
        Err(code) => answer == 0 && after == before.with_hresult(code),
    }
}

fn create_window<T, F: Fn(WindowDesc) -> Result<u64, i32>>(
    state: &mut ComState<T>,
    call: F,
    desc: WindowDesc,
) -> (answer: u64)
    requires
        call.requires((desc,)),
    ensures
        if desc.class_atom == 0 {
            answer == 0 && final(state)@ == old(state)@
        } else {
            exists|outcome: Result<u64, i32>| #[trigger]
                call.ensures((desc,), outcome) && window_made(
                    old(state)@,
                    final(state)@,
                    outcome,
                    answer,
                )
        },
{
    if desc.class_atom == 0 {
        return 0;
    }
    match call(desc) {
        Ok(hwnd) => tag(hwnd),
        Err(code) => {
            store_last_hresult(state, code);
            0
        },
    }
}

/// The hidden window of a class.
pub open spec fn hidden_window(class_atom_word: u64) -> WindowDesc {
    WindowDesc {
        class_atom: atom_of(class_atom_word),
        place: WindowPlace::Hidden,
        width: 200,
        height: 150,
    }
}

/// The message-only window of a class.
pub open spec fn message_window(class_atom_word: u64) -> WindowDesc {
    WindowDesc {
        class_atom: atom_of(class_atom_word),
        place: WindowPlace::MessageOnly,
        width: 0,
        height: 0,
    }
}

/// Makes a window that is never shown. Answers zero without a class.
pub fn nod_create_hidden_window<T, F: Fn(WindowDesc) -> Result<u64, i32>>(
    state: &mut ComState<T>,
    call: F,
    class_atom_word: u64,
) -> (answer: u64)
    requires
        forall|d: WindowDesc| call.requires((d,)),
    ensures
        if atom_of(class_atom_word) == 0 {
            answer == 0 && final(state)@ == old(state)@
        } else {
            exists|outcome: Result<u64, i32>| #[trigger]
                call.ensures((hidden_window(class_atom_word),), outcome) && window_made(
                    old(state)@,
                    final(state)@,
                    outcome,
                    answer,
                )
        },
{
    let class_atom: u16 = (untag(class_atom_word) % 0x1_0000) as u16;
    create_window(
        state,
        call,
        WindowDesc { class_atom, place: WindowPlace::Hidden, width: 200, height: 150 },
    )
}

/// Makes a window that only takes messages. Answers zero without a class.
pub fn nod_create_message_only_window<T, F: Fn(WindowDesc) -> Result<u64, i32>>(
    state: &mut ComState<T>,
    call: F,
    class_atom_word: u64,
) -> (answer: u64)
    requires
        forall|d: WindowDesc| call.requires((d,)),
    ensures
        if atom_of(class_atom_word) == 0 {
            answer == 0 && final(state)@ == old(state)@
        } else {
            exists|outcome: Result<u64, i32>| #[trigger]
                call.ensures((message_window(class_atom_word),), outcome) && window_made(
                    old(state)@,
                    final(state)@,
                    outcome,
                    answer,
                )
        },
{
    let class_atom: u16 = (untag(class_atom_word) % 0x1_0000) as u16;
    create_window(
        state,
        call,
        WindowDesc { class_atom, place: WindowPlace::MessageOnly, width: 0, height: 0 },
    )
}

/// What a call on a window comes to: one, or zero with the failure code
/// remembered.
pub open spec fn window_called<T>(
    before: ComView<T>,
    after: ComView<T>,
    outcome: Result<(), i32>,
    answer: u64,
) -> bool {
    match outcome {
        Ok(_) => answer == tagged(1) && after == before,
        Err(code) => answer == 0 && after == before.with_hresult(code),
    }
}

/// Destroys a window. Answers zero for no window.
pub fn nod_destroy_window<T, F: Fn(i64) -> Result<(), i32>>(
    state: &mut ComState<T>,
    call: F,
    hwnd_word: u64,
) -> (answer: u64)
    requires
        forall|h: i64| call.requires((h,)),
    ensures
        if untagged_signed(hwnd_word) == 0 {
            answer == 0 && final(state)@ == old(state)@
        } else {
            exists|outcome: Result<(), i32>| #[trigger]
                call.ensures((untagged_signed(hwnd_word) as i64,), outcome) && window_called(
                    old(state)@,
                    final(state)@,
                    outcome,
                    answer,
                )
        },
{
    let hwnd = untag_i64(hwnd_word);
    if hwnd == 0 {
        return 0;
    }
    let outcome = call(hwnd);
    assert(call.ensures((untagged_signed(hwnd_word) as i64,), outcome));
    match outcome {
        Ok(_) => tag(1),
        Err(code) => {
            store_last_hresult(state, code);
            0
        },
    }
}

// ----- messages -----

/// A message to a window.
#[derive(Clone, Copy, PartialEq, Eq, Structural, Debug)]
pub struct WindowMessage {
    pub hwnd: i64,
    pub msg: u32,
    pub wparam: u64,
    pub lparam: i64,
}

/// The message that four words give.
pub open spec fn message_of(hwnd_word: u64, msg: u64, wparam: u64, lparam: u64) -> WindowMessage {
    WindowMessage {
        hwnd: untagged_signed(hwnd_word) as i64,
        msg: low_bits(untagged(msg)),
        wparam: untagged(wparam),
        lparam: untagged_signed(lparam) as i64,
    }
}

fn decode_message(hwnd_word: u64, msg: u64, wparam: u64, lparam: u64) -> (m: WindowMessage)
    ensures
        m == message_of(hwnd_word, msg, wparam, lparam),
{
    WindowMessage {
        hwnd: untag_i64(hwnd_word),
        msg: low_u32(untag(msg)),
        wparam: untag(wparam),
        lparam: untag_i64(lparam),
    }
}

/// A signed number in two's complement.
pub open spec fn bits64(n: int) -> u64 {
    if n < 0 {
        (n + 0x1_0000_0000_0000_0000) as u64
    } else {
        n as u64
    }
}

fn to_bits64(n: i64) -> (r: u64)
    ensures
        r == bits64(n as int),
{
    if n < 0 {
        (n as i128 + 0x1_0000_0000_0000_0000i128) as u64
    } else {
        n as u64
    }
}

/// Lets the system handle a message its own way.
pub fn nod_def_window_proc<F: Fn(WindowMessage) -> i64>(
    call: F,
    hwnd_word: u64,
    msg: u64,
    wparam: u64,
    lparam: u64,
) -> (answer: u64)
    requires
        forall|m: WindowMessage| call.requires((m,)),
    ensures
        exists|r: i64| #[trigger]
            call.ensures((message_of(hwnd_word, msg, wparam, lparam),), r) && answer == tagged(
                bits64(r as int),
            ),
{
    let r = call(decode_message(hwnd_word, msg, wparam, lparam));
    tag(to_bits64(r))
}

/// Puts a message into the queue of a window. Answers zero for no window.
pub fn nod_post_message<T, F: Fn(WindowMessage) -> Result<(), i32>>(
    state: &mut ComState<T>,
    call: F,
    hwnd_word: u64,
    msg: u64,
    wparam: u64,
    lparam: u64,
) -> (answer: u64)
    requires
        forall|m: WindowMessage| call.requires((m,)),
    ensures
        if untagged_signed(hwnd_word) == 0 {
            answer == 0 && final(state)@ == old(state)@
        } else {
            exists|outcome: Result<(), i32>| #[trigger]
                call.ensures((message_of(hwnd_word, msg, wparam, lparam),), outcome)
                    && window_called(old(state)@, final(state)@, outcome, answer)
        },
{
    let m = decode_message(hwnd_word, msg, wparam, lparam);
    if m.hwnd == 0 {
        return 0;
    }
    match call(m) {
        Ok(_) => tag(1),
        Err(code) => {
            store_last_hresult(state, code);
            0
        },
    }
}

/// How many messages are handled in one go.
pub const PUMP_LIMIT: u64 = 32;

/// What to do once a message was asked for.
#[derive(Clone, Copy, PartialEq, Eq, Structural, Debug)]
pub enum PumpStep {
    /// Ask for another; so many messages were handled so far.
    Continue(u64),
    /// Done, with this word as the answer.
    Done(u64),
}

/// One step of handling waiting messages: `count` messages were handled before,
/// and `had` says whether there was another.
pub fn pump_step(count: u64, had: bool) -> (step: PumpStep)
    requires
        count < PUMP_LIMIT,
    ensures
        step == if !had {
            PumpStep::Done(tagged(count))
        } else if count + 1 == PUMP_LIMIT {
            PumpStep::Done(tagged(PUMP_LIMIT))
        } else {
            PumpStep::Continue((count + 1) as u64)
        },
{
    if !had {
        return PumpStep::Done(tag(count));
    }
    if count + 1 == PUMP_LIMIT {
        return PumpStep::Done(tag(PUMP_LIMIT));
    }
    PumpStep::Continue(count + 1)
}

/// Handles waiting messages until there is none, at most `PUMP_LIMIT`. The call is
/// told how many messages were handled before it, handles one more and says
/// whether there was one. Answers how many there were.
pub fn nod_pump_one_message<F: Fn(u64) -> bool>(call: F, _hwnd_word: u64) -> (answer: u64)
    requires
        forall|k: u64| k < PUMP_LIMIT ==> call.requires((k,)),
    ensures
        exists|n: u64|
            n <= PUMP_LIMIT && answer == #[trigger] tagged(n) && (forall|k: u64|
                k < n ==> #[trigger] call.ensures((k,), true)) && (n < PUMP_LIMIT ==> call.ensures(
                (n,),
                false,
            )),
{
    let mut count: u64 = 0;
    loop
        invariant
            count < PUMP_LIMIT,
            forall|k: u64| k < PUMP_LIMIT ==> call.requires((k,)),
            forall|k: u64| k < count ==> #[trigger] call.ensures((k,), true),
        decreases PUMP_LIMIT - count,
    {
        let had = call(count);
        match pump_step(count, had) {
            PumpStep::Continue(n) => {
                count = n;
            },
            PumpStep::Done(answer) => {
                return answer;
            },
        }
    }
}

/// What to do with what waiting for a message gave.
#[derive(Clone, Copy, PartialEq, Eq, Structural, Debug)]
pub enum LoopStep {
    /// Handle the message and wait for the next.
    Dispatch,
    /// The program is over, with this word as its exit code.
    Quit(u64),
}

/// One step of the message loop: `status` is what waiting gave, `wparam` the
/// first parameter of the message. A positive status is a message, zero the last
/// one, whose parameter is the exit code, and a negative one a failure, which ends
/// the loop with code zero.
pub fn nod_run_message_loop(status: i32, wparam: u64) -> (step: LoopStep)
    ensures
        step == if status > 0 {
            LoopStep::Dispatch
        } else if status == 0 {
            LoopStep::Quit(tagged(low_bits(wparam) as u64))
        } else {
            LoopStep::Quit(0)
        },
{
    if status > 0 {
        LoopStep::Dispatch
    } else if status == 0 {
        LoopStep::Quit(tag(low_u32(wparam) as u64))
    } else {
        LoopStep::Quit(0)
    }
}

/// The low 16 bits of a number.
pub fn nod_lo_word(value: u64) -> (r: u64)
    ensures
        r == tagged((untagged(value) % 0x1_0000) as u64),
{
    tag(untag(value) % 0x1_0000)
}

/// Bits 16 to 31 of a number.
pub fn nod_hi_word(value: u64) -> (r: u64)
    ensures
        r == tagged(((untagged(value) / 0x1_0000) % 0x1_0000) as u64),
{
    tag((untag(value) / 0x1_0000) % 0x1_0000)
}

// ----- scroll bars -----

/// A scroll bar to set.
#[derive(Clone, Copy, PartialEq, Eq, Structural, Debug)]
pub struct ScrollInfo {
    pub hwnd: i64,
    pub bar: i32,
    pub min: i32,
    pub max: i32,
    pub page: u32,
    pub pos: i32,
    pub redraw: bool,
}

/// The signed 32-bit number in the low bits of a word's number.
pub open spec fn int32_of(w: u64) -> i32 {
    signed32(low_bits(untagged(w)))
}

fn decode_int32(w: u64) -> (n: i32)
    ensures
        n == int32_of(w),
{
    to_signed32(low_u32(untag(w)))
}

/// The scroll bar that the words give.
pub open spec fn scroll_info_of(
    hwnd_word: u64,
    nbar: u64,
    n_min: u64,
    n_max: u64,
    n_page: u64,
    n_pos: u64,
    redraw: u64,
) -> ScrollInfo {
    ScrollInfo {
        hwnd: untagged_signed(hwnd_word) as i64,
        bar: int32_of(nbar),
        min: int32_of(n_min),
        max: int32_of(n_max),
        page: low_bits(untagged(n_page)),
        pos: int32_of(n_pos),
        redraw: says_yes(redraw),
    }
}

/// Sets a scroll bar and answers the position it took. Answers zero for no
/// window.
pub fn nod_set_scroll_info<F: Fn(ScrollInfo) -> i32>(
    call: F,
    hwnd_word: u64,
    nbar: u64,
    n_min: u64,
    n_max: u64,
    n_page: u64,
    n_pos: u64,
    redraw: u64,
) -> (answer: u64)
    requires
        forall|s: ScrollInfo| call.requires((s,)),
    ensures
        if untagged_signed(hwnd_word) == 0 {
            answer == 0
        } else {
            exists|pos: i32| #[trigger]
                call.ensures(
                    (scroll_info_of(hwnd_word, nbar, n_min, n_max, n_page, n_pos, redraw),),
                    pos,
                ) && answer == tagged(bits64(pos as int))
        },
{
    let hwnd = untag_i64(hwnd_word);
    if hwnd == 0 {
        return 0;
    }
    let info = ScrollInfo {
        hwnd,
        bar: decode_int32(nbar),
        min: decode_int32(n_min),
        max: decode_int32(n_max),
        page: low_u32(untag(n_page)),
        pos: decode_int32(n_pos),
        redraw: untag(redraw) != 0,
    };
    assert(info == scroll_info_of(hwnd_word, nbar, n_min, n_max, n_page, n_pos, redraw));
    let pos = call(info);
    tag(to_bits64(pos as i64))
}

/// The position of a scroll bar; zero for no window.
pub fn nod_get_scroll_pos<F: Fn(i64, i32) -> i32>(
    call: F,
    hwnd_word: u64,
    nbar: u64,
) -> (answer: u64)
    requires
        forall|h: i64, b: i32| call.requires((h, b)),
    ensures
        if untagged_signed(hwnd_word) == 0 {
            answer == 0
        } else {
            exists|pos: i32| #[trigger]
                call.ensures((untagged_signed(hwnd_word) as i64, int32_of(nbar)), pos) && answer
                    == tagged(bits64(pos as int))
        },
{
    let hwnd = untag_i64(hwnd_word);
    if hwnd == 0 {
        return 0;
    }
    let pos = call(hwnd, decode_int32(nbar));
    tag(to_bits64(pos as i64))
}

// ----- files and arguments -----

/// What handing a text to the program comes to: the literal of the text, or
/// `nil` if there is none.
pub open spec fn handed_over(
    literals: Seq<(Seq<char>, u64)>,
    h: Seq<ObjectView>,
    text: Option<Seq<char>>,
    literals_after: Seq<(Seq<char>, u64)>,
    h_after: Seq<ObjectView>,
    word: u64,
) -> bool {
    match text {
        Some(t) => interned(literals, h, t, literals_after, h_after, word),
        None => word == nil_word().raw && literals_after == literals && h_after == h,
    }
}

/// The literal for a text that may be absent; `nil` if it is.
pub fn text_or_nil(literals: &mut LiteralPool, heap: &mut Heap, text: Option<&str>) -> (word: u64)
    requires
        heap_wf(old(heap)@),
        heap_room(old(heap)@, 1),
    ensures
        handed_over(
            old(literals)@,
            old(heap)@,
            match text {
                Some(t) => Some(t@),
                None => None,
            },
            final(literals)@,
            final(heap)@,
            word,
        ),
        heap_wf(final(heap)@),
        literals_hold(old(literals)@, old(heap)@) ==> literals_hold(final(literals)@, final(heap)@) && (
        text matches Some(t) ==> object_at(final(heap)@, Word { raw: word }) == Some(
            bytes_object(encode_utf8(t@)),
        )),
{
    match text {
        Some(t) => intern_string_literal(literals, heap, t).raw(),
        None => literal_pool_immediates().nil.raw(),
    }
}

/// Reads a file as text. Answers the literal of the text, or `nil` if the file
/// cannot be read. Bytes that are UTF-8 are kept as they are.
pub fn nod_read_file_to_string<F: Fn(&str) -> Option<Vec<u8>>>(
    literals: &mut LiteralPool,
    heap: &mut Heap,
    call: F,
    path_word: u64,
) -> (answer: u64)
    requires
        heap_wf(old(heap)@),
        heap_room(old(heap)@, 1),
        held_text(old(heap)@, Word { raw: path_word }) is Some,
        forall|p: &str| call.requires((p,)),
    ensures
        exists|p: &str, read: Option<Vec<u8>>| #[trigger]
            call.ensures((p,), read) && p@ == held_text(old(heap)@, Word { raw: path_word })->0
                && handed_over(
                old(literals)@,
                old(heap)@,
                match read {
                    Some(bytes) => Some(lossy_text(bytes@)),
                    None => None,
                },
                final(literals)@,
                final(heap)@,
                answer,
            ) && (literals_hold(old(literals)@, old(heap)@) ==> literals_hold(
                final(literals)@,
                final(heap)@,
            ) && (read matches Some(bytes) ==> valid_utf8(bytes@) ==> object_at(
                final(heap)@,
                Word { raw: answer },
            ) == Some(bytes_object(bytes@)))),
        heap_wf(final(heap)@),
{
    let path = decode_byte_string_to_string(heap, Word::from_raw(path_word)).unwrap();
    match call(path.as_str()) {
        Some(bytes) => {
            let text = text_from_utf8_lossy(&bytes);
            text_or_nil(literals, heap, Some(text.as_str()))
        },
        None => text_or_nil(literals, heap, None),
    }
}

/// Writes a text to a file, byte for byte. Answers one on success, else zero.
pub fn nod_write_file_from_string<F: Fn(&str, &Vec<u8>) -> bool>(
    heap: &Heap,
    call: F,
    path_word: u64,
    content_word: u64,
) -> (answer: u64)
    requires
        held_text(heap@, Word { raw: path_word }) is Some,
        held_text(heap@, Word { raw: content_word }) is Some,
        forall|p: &str, b: &Vec<u8>| call.requires((p, b)),
    ensures
        exists|p: &str, bytes: Vec<u8>, written: bool| #[trigger]
            call.ensures((p, &bytes), written) && p@ == held_text(
                heap@,
                Word { raw: path_word },
            )->0 && bytes@ == (object_at(heap@, Word { raw: content_word })->0).bytes && answer
                == if written {
                tagged(1)
            } else {
                tagged(0)
            },
{
    let path = decode_byte_string_to_string(heap, Word::from_raw(path_word)).unwrap();
    let content = decode_byte_string_to_string(heap, Word::from_raw(content_word)).unwrap();
    let bytes = content.as_str().as_bytes_vec();
    proof {
        vstd::utf8::decode_utf8_encode_utf8(
            (object_at(heap@, Word { raw: content_word })->0).bytes,
        );
    }
    if call(path.as_str(), &bytes) {
        tag(1)
    } else {
        tag(0)
    }
}

/// What is read from a file and written back is what the file held, for a file of
/// UTF-8: the word that reading answers can be written, and its bytes are those
/// of the file.
pub proof fn read_then_write_keeps_bytes(h: Seq<ObjectView>, word: Word, bytes: Seq<u8>)
    requires
        valid_utf8(bytes),
        object_at(h, word) == Some(bytes_object(bytes)),
    ensures
        held_text(h, word) is Some,
        held_text(h, word)->0 == decode_utf8(bytes),
        (object_at(h, word)->0).bytes == bytes,
{
}

/// The argument at a position.
pub open spec fn argument(args: Seq<String>, i: int) -> Option<Seq<char>> {
    if i < args.len() {
        Some(args[i]@)
    } else {
        None
    }
}

fn argument_word(literals: &mut LiteralPool, heap: &mut Heap, args: &Vec<String>, i: usize) -> (word: u64)
    requires
        heap_wf(old(heap)@),
        heap_room(old(heap)@, 1),
    ensures
        handed_over(
            old(literals)@,
            old(heap)@,
            argument(args@, i as int),
            final(literals)@,
            final(heap)@,
            word,
        ),
        heap_wf(final(heap)@),
{
    if i < args.len() {
        text_or_nil(literals, heap, Some(args[i].as_str()))
    } else {
        text_or_nil(literals, heap, None)
    }
}

/// The first argument of the program, behind its own name; `nil` if there is
/// none.
pub fn nod_get_argv1(literals: &mut LiteralPool, heap: &mut Heap, args: &Vec<String>) -> (word: u64)
    requires
        heap_wf(old(heap)@),
        heap_room(old(heap)@, 1),
    ensures
        handed_over(
            old(literals)@,
            old(heap)@,
            argument(args@, 1),
            final(literals)@,
            final(heap)@,
            word,
        ),
        heap_wf(final(heap)@),
{
    argument_word(literals, heap, args, 1)
}

/// The second argument of the program, behind its own name; `nil` if there is
/// none.
pub fn nod_get_argv2(literals: &mut LiteralPool, heap: &mut Heap, args: &Vec<String>) -> (word: u64)
    requires
        heap_wf(old(heap)@),
        heap_room(old(heap)@, 1),
    ensures
        handed_over(
            old(literals)@,
            old(heap)@,
            argument(args@, 2),
            final(literals)@,
            final(heap)@,
            word,
        ),
        heap_wf(final(heap)@),
{
    argument_word(literals, heap, args, 2)
}

// ----- dialogs -----

/// The kinds of file dialog.
#[derive(Clone, Copy, PartialEq, Eq, Structural, Debug)]
pub enum DialogKind {
    /// For a file that exists.
    Open,
    /// For a file that may exist: overwriting is asked for.
    Save,
}

/// A file dialog to show.
pub struct DialogRequest {
    pub kind: DialogKind,
    /// The window that owns the dialog; zero for none.
    pub hwnd: i64,
    /// What files to offer, in UTF-16.
    pub filter: Vec<u16>,
    /// Room for the path, in code units.
    pub path_units: usize,
}

/// What files the dialogs offer: names and patterns in turn, each ended by a
/// zero.
pub open spec fn dialog_filter() -> Seq<char> {
    "Dylan (*.dylan)\0*.dylan\0Text (*.txt)\0*.txt\0All (*.*)\0*.*\0\0"@
}

/// The dialog that is asked for.
pub open spec fn is_dialog(d: DialogRequest, kind: DialogKind, hwnd_word: u64) -> bool {
    &&& d.kind == kind
    &&& d.hwnd == untagged_signed(hwnd_word)
    &&& d.filter@ == utf16_units(dialog_filter())
    &&& d.path_units == 260
}

/// What a dialog comes to: the literal of the path, or `nil`.
pub open spec fn path_chosen(
    literals: Seq<(Seq<char>, u64)>,
    h: Seq<ObjectView>,
    chosen: Option<Vec<u16>>,
    literals_after: Seq<(Seq<char>, u64)>,
    h_after: Seq<ObjectView>,
    word: u64,
) -> bool {
    handed_over(
        literals,
        h,
        match chosen {
            Some(units) => Some(lossy_utf16(before_zero(units@))),
            None => None,
        },
        literals_after,
        h_after,
        word,
    )
}

/// The literal of the path in a zero-terminated buffer; `nil` if nothing was
/// chosen.
pub fn chosen_path(literals: &mut LiteralPool, heap: &mut Heap, chosen: Option<Vec<u16>>) -> (word: u64)
    requires
        heap_wf(old(heap)@),
        heap_room(old(heap)@, 1),
    ensures
        path_chosen(old(literals)@, old(heap)@, chosen, final(literals)@, final(heap)@, word),
        chosen matches Some(units) ==> forall|t: Seq<char>|
            before_zero(units@) == #[trigger] utf16_units(t) ==> interned(
                old(literals)@,
                old(heap)@,
                t,
                final(literals)@,
                final(heap)@,
                word,
            ),
        heap_wf(final(heap)@),
{
    match chosen {
        Some(units) => {
            let path = text_before_zero(&units);
            text_or_nil(literals, heap, Some(path.as_str()))
        },
        None => text_or_nil(literals, heap, None),
    }
}

fn show_dialog<F: Fn(&DialogRequest) -> Option<Vec<u16>>>(
    literals: &mut LiteralPool,
    heap: &mut Heap,
    call: F,
    kind: DialogKind,
    hwnd_word: u64,
) -> (word: u64)
    requires
        heap_wf(old(heap)@),
        heap_room(old(heap)@, 1),
        forall|d: &DialogRequest| call.requires((d,)),
    ensures
        exists|d: DialogRequest, chosen: Option<Vec<u16>>| #[trigger]
            call.ensures((&d,), chosen) && is_dialog(d, kind, hwnd_word) && path_chosen(
                old(literals)@,
                old(heap)@,
                chosen,
                final(literals)@,
                final(heap)@,
                word,
            ),
        heap_wf(final(heap)@),
{
    let request = DialogRequest {
        kind,
        hwnd: untag_i64(hwnd_word),
        filter: encode_utf16("Dylan (*.dylan)\0*.dylan\0Text (*.txt)\0*.txt\0All (*.*)\0*.*\0\0"),
        path_units: 260,
    };
    let chosen = call(&request);
    chosen_path(literals, heap, chosen)
}

/// Shows the dialog for opening a file.
pub fn nod_show_open_file_dialog<F: Fn(&DialogRequest) -> Option<Vec<u16>>>(
    literals: &mut LiteralPool,
    heap: &mut Heap,
    call: F,
    hwnd_word: u64,
) -> (word: u64)
    requires
        heap_wf(old(heap)@),
        heap_room(old(heap)@, 1),
        forall|d: &DialogRequest| call.requires((d,)),
    ensures
        exists|d: DialogRequest, chosen: Option<Vec<u16>>| #[trigger]
            call.ensures((&d,), chosen) && is_dialog(d, DialogKind::Open, hwnd_word)
                && path_chosen(
                old(literals)@,
                old(heap)@,
                chosen,
                final(literals)@,
                final(heap)@,
                word,
            ),
        heap_wf(final(heap)@),
{
    show_dialog(literals, heap, call, DialogKind::Open, hwnd_word)
}

/// Shows the dialog for saving a file.
pub fn nod_show_save_file_dialog<F: Fn(&DialogRequest) -> Option<Vec<u16>>>(
    literals: &mut LiteralPool,
    heap: &mut Heap,
    call: F,
    hwnd_word: u64,
) -> (word: u64)
    requires
        heap_wf(old(heap)@),
        heap_room(old(heap)@, 1),
        forall|d: &DialogRequest| call.requires((d,)),
    ensures
        exists|d: DialogRequest, chosen: Option<Vec<u16>>| #[trigger]
            call.ensures((&d,), chosen) && is_dialog(d, DialogKind::Save, hwnd_word)
                && path_chosen(
                old(literals)@,
                old(heap)@,
                chosen,
                final(literals)@,
                final(heap)@,
                word,
            ),
        heap_wf(final(heap)@),
{
    show_dialog(literals, heap, call, DialogKind::Save, hwnd_word)
}

/// Prints the collector's statistics and answers `#f`.
pub fn nod_print_gc_stats<F: Fn()>(print: F) -> (word: u64)
    requires
        print.requires(()),
    ensures
        print.ensures((), ()),
        word == false_word().raw,
{
    print();
    literal_pool_immediates().false_.raw()
}

// ----- what words ask for -----

/// The class of a window is named by the atom in the word; a hidden window has its
/// size, a message-only window none.
pub proof fn windows_are_of_the_named_class(atom: u16)
    ensures
        hidden_window(fixnum(atom as int).raw) == (WindowDesc {
            class_atom: atom,
            place: WindowPlace::Hidden,
            width: 200,
            height: 150,
        }),
        message_window(fixnum(atom as int).raw) == (WindowDesc {
            class_atom: atom,
            place: WindowPlace::MessageOnly,
            width: 0,
            height: 0,
        }),
{
    words_carry_their_number(atom as int, 1);
}

/// Only a failure is remembered, and it is answered by zero; a window that was made
/// is answered, and a call that succeeded is answered by one.
pub proof fn windows_are_answered_and_failures_remembered<T>(
    before: ComView<T>,
    after: ComView<T>,
    made: Result<u64, i32>,
    called: Result<(), i32>,
    answer: u64,
)
    ensures
        window_made(before, after, made, answer) && made is Ok ==> answer as int == (2 * made->Ok_0)
            % 0x1_0000_0000_0000_0000 && after == before,
        window_made(before, after, made, answer) && made is Err ==> answer == 0 && (
        after.last_hresult == made->Err_0 || after.last_hresult == made->Err_0 + 0x1_0000_0000)
            && after.objects == before.objects && after.next_handle == before.next_handle,
        window_called(before, after, called, answer) && called is Ok ==> answer == 2 && after
            == before,
        window_called(before, after, called, answer) && called is Err ==> answer == 0 && (
        after.last_hresult == called->Err_0 || after.last_hresult == called->Err_0 + 0x1_0000_0000)
            && after.objects == before.objects && after.next_handle == before.next_handle,
{
    if let Ok(hwnd) = made {
        tagging_doubles(hwnd);
    }
    tagging_doubles(1);
}

/// A message goes to the window of the first word, with the number of the second and
/// the parameters of the third and fourth.
pub proof fn messages_take_their_parts_in_order(hwnd: int, msg: u32, wparam: int, lparam: int)
    requires
        in_fixnum_range(hwnd),
        0 <= wparam,
        in_fixnum_range(wparam),
        in_fixnum_range(lparam),
    ensures
        ({
            let m = message_of(
                fixnum(hwnd).raw,
                fixnum(msg as int).raw,
                fixnum(wparam).raw,
                fixnum(lparam).raw,
            );
            &&& m.hwnd == hwnd
            &&& m.msg == msg
            &&& m.wparam == wparam
            &&& m.lparam == lparam
        }),
{
    words_carry_their_number(hwnd, 1);
    words_carry_their_number(msg as int, 1);
    words_carry_their_number(wparam, 1);
    words_carry_their_number(lparam, 1);
}

/// Signed numbers are kept in two's complement.
pub proof fn signed_numbers_keep_their_bits(n: i64)
    ensures
        n >= 0 ==> bits64(n as int) == n,
        n < 0 ==> bits64(n as int) == n + 0x1_0000_0000_0000_0000,
{
}

/// A scroll bar takes its bounds, page and position from the words in order.
pub proof fn scroll_bars_take_their_parts_in_order(
    hwnd: int,
    bar: i32,
    min: i32,
    max: i32,
    page: u32,
    pos: i32,
    redraw: int,
)
    requires
        in_fixnum_range(hwnd),
        in_fixnum_range(redraw),
    ensures
        scroll_info_of(
            fixnum(hwnd).raw,
            fixnum(bar as int).raw,
            fixnum(min as int).raw,
            fixnum(max as int).raw,
            fixnum(page as int).raw,
            fixnum(pos as int).raw,
            fixnum(redraw).raw,
        ) == (ScrollInfo { hwnd: hwnd as i64, bar, min, max, page, pos, redraw: redraw != 0 }),
{
    int32_in_word(bar);
    int32_in_word(min);
    int32_in_word(max);
    int32_in_word(pos);
    words_carry_their_number(hwnd, 1);
    words_carry_their_number(page as int, 1);
    words_carry_their_number(redraw, 1);
}

proof fn int32_in_word(n: i32)
    ensures
        int32_of(fixnum(n as int).raw) == n,
{
    words_carry_their_number(n as int, 1);
    if n < 0 {
        assert((n + 0x1_0000_0000_0000_0000) % 0x1_0000_0000 == n + 0x1_0000_0000);
    }
}

/// The arguments of the program are counted from its name on.
pub proof fn arguments_stand_in_order(args: Seq<String>, i: int)
    requires
        0 <= i,
    ensures
        i < args.len() ==> argument(args, i) == Some(args[i]@),
        i >= args.len() ==> argument(args, i) is None,
{
}

/// A text that is handed over is held by the word; where there is none, the word is
/// `nil` and nothing changes.
pub proof fn texts_are_handed_over(
    literals: Seq<(Seq<char>, u64)>,
    h: Seq<ObjectView>,
    text: Option<Seq<char>>,
    literals_after: Seq<(Seq<char>, u64)>,
    h_after: Seq<ObjectView>,
    word: u64,
)
    requires
        heap_wf(h),
        heap_room(h, 1),
        literals_hold(literals, h),
        handed_over(literals, h, text, literals_after, h_after, word),
    ensures
        text matches Some(t) ==> object_at(h_after, Word { raw: word }) == Some(
            bytes_object(encode_utf8(t)),
        ),
        text is None ==> word == nil_word().raw && h_after == h && literals_after == literals,
{
    if let Some(t) = text {
        literal_holds_its_text(literals, h, t);
    }
}

/// A dialog belongs to the window of the word, offers the files of the filter and has
/// room for the longest path.
pub proof fn dialogs_belong_to_their_window(d: DialogRequest, kind: DialogKind, hwnd: int)
    requires
        in_fixnum_range(hwnd),
        is_dialog(d, kind, fixnum(hwnd).raw),
    ensures
        d.kind == kind,
        d.hwnd == hwnd,
        d.path_units == 260,
        d.filter@ == utf16_units(
            "Dylan (*.dylan)\0*.dylan\0Text (*.txt)\0*.txt\0All (*.*)\0*.*\0\0"@,
        ),
{
    words_carry_their_number(hwnd, 1);
}

} // verus!
