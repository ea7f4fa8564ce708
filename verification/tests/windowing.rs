use nod_runtime::com::{nod_com_last_hresult, tag, ComState};
use nod_runtime::heap::{literal_pool_immediates, Heap};
use nod_runtime::literals::LiteralPool;
use nod_runtime::utf16::{encode_utf16, ClassNameBuffers};
use nod_runtime::windowing::{
    nod_create_hidden_window, nod_create_message_only_window, nod_def_window_proc,
    nod_destroy_window, nod_get_argv1, nod_get_argv2, nod_get_scroll_pos, nod_hi_word, nod_lo_word,
    nod_post_message, nod_print_gc_stats, nod_pump_one_message, nod_read_file_to_string,
    nod_register_window_class, nod_run_message_loop, nod_set_scroll_info,
    nod_show_open_file_dialog, nod_show_save_file_dialog, nod_write_file_from_string, DialogKind,
    pump_step, DialogRequest, LoopStep, PumpStep, ScrollInfo, WindowDesc, WindowMessage,
    WindowPlace, PUMP_LIMIT,
};
use nod_runtime::word::Word;
use std::cell::Cell;

fn signed(n: i64) -> u64 {
    Word::from_fixnum(n).unwrap().raw()
}

#[test]
fn window_classes_are_registered_by_name() {
    let mut s: ComState<u32> = ComState::new();
    let mut names = ClassNameBuffers::new();
    let mut heap = Heap::new();
    let name = heap.alloc_text("Main").raw();
    let atom = nod_register_window_class(
        &mut s,
        &mut names,
        &heap,
        |proc: i64, units: &Vec<u16>| {
            assert_eq!(proc, 0x4000);
            assert_eq!(units, &vec![0x4d, 0x61, 0x69, 0x6e, 0]);
            Ok(0xc001)
        },
        tag(0x4000),
        name,
    );
    assert_eq!(atom, tag(0xc001));
    let refused = nod_register_window_class(
        &mut s,
        &mut names,
        &heap,
        |_: i64, _: &Vec<u16>| Err(1410),
        tag(0x4000),
        name,
    );
    assert_eq!(refused, 0);
    assert_eq!(nod_com_last_hresult(&mut s), tag(1410));
    let no_proc = nod_register_window_class(
        &mut s,
        &mut names,
        &heap,
        |_: i64, _: &Vec<u16>| Ok(1),
        0,
        name,
    );
    assert_eq!(no_proc, 0);
}

#[test]
fn windows_come_and_go() {
    let mut s: ComState<u32> = ComState::new();
    let made = nod_create_hidden_window(
        &mut s,
        |d: WindowDesc| {
            let expected = WindowDesc {
                class_atom: 0xc001,
                place: WindowPlace::Hidden,
                width: 200,
                height: 150,
            };
            assert_eq!(d, expected);
            Ok(0x99)
        },
        tag(0xc001),
    );
    assert_eq!(made, tag(0x99));
    let quiet = nod_create_message_only_window(
        &mut s,
        |d: WindowDesc| {
            assert_eq!(d.place, WindowPlace::MessageOnly);
            Err(-1)
        },
        tag(0xc001),
    );
    assert_eq!(quiet, 0);
    assert_eq!(nod_com_last_hresult(&mut s), tag(0xffff_ffff));
    assert_eq!(nod_create_hidden_window(&mut s, |_: WindowDesc| Ok(1), 0), 0);
    assert_eq!(nod_destroy_window(&mut s, |_: i64| Ok(()), tag(0x99)), tag(1));
    assert_eq!(nod_destroy_window(&mut s, |_: i64| Ok(()), 0), 0);
    assert_eq!(nod_destroy_window(&mut s, |_: i64| Err(5), tag(1)), 0);
}

#[test]
fn messages_are_decoded() {
    let mut s: ComState<u32> = ComState::new();
    let expected = WindowMessage { hwnd: 7, msg: 0x11, wparam: 3, lparam: -4 };
    let check = |m: WindowMessage| assert_eq!(m, expected);
    let r = nod_def_window_proc(
        |m: WindowMessage| {
            check(m);
            -5
        },
        tag(7),
        tag(0x11),
        tag(3),
        signed(-4),
    );
    assert_eq!(r, signed(-5));
    let posted = nod_post_message(
        &mut s,
        |m: WindowMessage| {
            check(m);
            Ok(())
        },
        tag(7),
        tag(0x11),
        tag(3),
        signed(-4),
    );
    assert_eq!(posted, tag(1));
    assert_eq!(nod_post_message(&mut s, |_: WindowMessage| Ok(()), 0, 0, 0, 0), 0);
    assert_eq!(nod_post_message(&mut s, |_: WindowMessage| Err(9), tag(1), 0, 0, 0), 0);
    assert_eq!(nod_com_last_hresult(&mut s), tag(9));
}

#[test]
fn pumping_stops_at_an_empty_queue_or_the_limit() {
    let waiting = Cell::new(5);
    let pump = |_: u64| {
        let n = waiting.get();
        if n > 0 {
            waiting.set(n - 1);
        }
        n > 0
    };
    assert_eq!(nod_pump_one_message(pump, 0), tag(5));
    assert_eq!(nod_pump_one_message(pump, 0), 0);
    waiting.set(100);
    assert_eq!(nod_pump_one_message(pump, 0), tag(PUMP_LIMIT));
    assert_eq!(waiting.get(), 68);
    let asked = Cell::new(0);
    let counted = |handled: u64| {
        assert_eq!(handled, asked.get());
        asked.set(handled + 1);
        handled < 1
    };
    assert_eq!(nod_pump_one_message(counted, 0), tag(1));
    assert_eq!(asked.get(), 2);
}

#[test]
fn one_step_of_pumping() {
    assert_eq!(pump_step(0, false), PumpStep::Done(0));
    assert_eq!(pump_step(1, false), PumpStep::Done(tag(1)));
    assert_eq!(pump_step(1, true), PumpStep::Continue(2));
    assert_eq!(pump_step(PUMP_LIMIT - 1, true), PumpStep::Done(tag(PUMP_LIMIT)));
}

#[test]
fn the_message_loop_ends_with_the_exit_code() {
    assert_eq!(nod_run_message_loop(1, 0), LoopStep::Dispatch);
    assert_eq!(nod_run_message_loop(0, 3), LoopStep::Quit(tag(3)));
    assert_eq!(nod_run_message_loop(0, 0x1_0000_0007), LoopStep::Quit(tag(7)));
    assert_eq!(nod_run_message_loop(-1, 3), LoopStep::Quit(0));
}

#[test]
fn words_within_words() {
    assert_eq!(nod_lo_word(tag(0x0012_0034)), tag(0x34));
    assert_eq!(nod_hi_word(tag(0x0012_0034)), tag(0x12));
    assert_eq!(nod_hi_word(tag(0x5_0012_0034)), tag(0x12));
}

#[test]
fn scroll_bars_are_set_and_read() {
    let set = nod_set_scroll_info(
        |i: ScrollInfo| {
            let expected = ScrollInfo {
                hwnd: 8,
                bar: 1,
                min: -1,
                max: 100,
                page: 10,
                pos: 20,
                redraw: true,
            };
            assert_eq!(i, expected);
            -2
        },
        tag(8),
        tag(1),
        signed(-1),
        tag(100),
        tag(10),
        tag(20),
        tag(1),
    );
    assert_eq!(set, signed(-2));
    assert_eq!(nod_set_scroll_info(|_: ScrollInfo| 1, 0, 0, 0, 0, 0, 0, 0), 0);
    assert_eq!(nod_get_scroll_pos(|h: i64, b: i32| h as i32 + b, tag(8), tag(1)), tag(9));
    assert_eq!(nod_get_scroll_pos(|_: i64, _: i32| 5, 0, tag(1)), 0);
}

#[test]
fn files_are_read_and_written_byte_for_byte() {
    let mut literals = LiteralPool::new();
    let mut heap = Heap::new();
    let path = heap.alloc_text("a.dylan").raw();
    let content = "let é = 1;\n".as_bytes().to_vec();
    let read = nod_read_file_to_string(
        &mut literals,
        &mut heap,
        |p: &str| {
            assert_eq!(p, "a.dylan");
            Some("let é = 1;\n".as_bytes().to_vec())
        },
        path,
    );
    assert_eq!(heap.get(Word::from_raw(read)).unwrap().bytes, content);
    let written = nod_write_file_from_string(
        &heap,
        |p: &str, b: &Vec<u8>| p == "a.dylan" && *b == content,
        path,
        read,
    );
    assert_eq!(written, tag(1));
    let refused = nod_write_file_from_string(&heap, |_: &str, _: &Vec<u8>| false, path, read);
    assert_eq!(refused, tag(0));
    let missing = nod_read_file_to_string(&mut literals, &mut heap, |_: &str| None, path);
    assert_eq!(missing, literal_pool_immediates().nil.raw());
    let repaired = nod_read_file_to_string(
        &mut literals,
        &mut heap,
        |_: &str| Some(vec![b'x', 0xff]),
        path,
    );
    assert_eq!(heap.get(Word::from_raw(repaired)).unwrap().bytes, "x\u{fffd}".as_bytes().to_vec());
}

#[test]
fn arguments_come_as_literals() {
    let mut literals = LiteralPool::new();
    let mut heap = Heap::new();
    let nil = literal_pool_immediates().nil.raw();
    let args = vec!["prog".to_string(), "one".to_string()];
    let one = nod_get_argv1(&mut literals, &mut heap, &args);
    assert_eq!(heap.get(Word::from_raw(one)).unwrap().bytes, b"one".to_vec());
    assert_eq!(nod_get_argv1(&mut literals, &mut heap, &args), one);
    assert_eq!(nod_get_argv2(&mut literals, &mut heap, &args), nil);
    assert_eq!(nod_get_argv1(&mut literals, &mut heap, &vec![]), nil);
}

#[test]
fn dialogs_answer_a_path_or_nil() {
    let mut literals = LiteralPool::new();
    let mut heap = Heap::new();
    let filter =
        encode_utf16("Dylan (*.dylan)\0*.dylan\0Text (*.txt)\0*.txt\0All (*.*)\0*.*\0\0");
    let open = nod_show_open_file_dialog(
        &mut literals,
        &mut heap,
        |d: &DialogRequest| {
            assert_eq!(d.kind, DialogKind::Open);
            assert_eq!(d.hwnd, 3);
            assert_eq!(d.filter, filter);
            assert_eq!(d.path_units, 260);
            Some(vec![0x63, 0x3a, 0, 0x7a])
        },
        tag(3),
    );
    assert_eq!(heap.get(Word::from_raw(open)).unwrap().bytes, b"c:".to_vec());
    let cancelled = nod_show_save_file_dialog(
        &mut literals,
        &mut heap,
        |d: &DialogRequest| {
            assert_eq!(d.kind, DialogKind::Save);
            None
        },
        0,
    );
    assert_eq!(cancelled, literal_pool_immediates().nil.raw());
}

#[test]
fn statistics_are_printed() {
    let printed = Cell::new(0);
    let r = nod_print_gc_stats(|| printed.set(printed.get() + 1));
    assert_eq!(r, literal_pool_immediates().false_.raw());
    assert_eq!(printed.get(), 1);
}
