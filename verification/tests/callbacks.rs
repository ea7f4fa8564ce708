use nod_runtime::callbacks::{
    _occupied_count, _reset_callbacks_for_tests, callback_tenure_mode_enabled,
    install_gc_roots_for_this_thread, nod_register_wndenumproc, nod_register_wndproc,
    rebox_bool32, rebox_lresult, register_callback, set_callback_tenure_mode, slot_address,
    wndenumproc_dispatch, wndproc_dispatch, CallbackPool, CallbackSignature, CallbackThread,
    RegisterAction, RegisterError, SlotAddresses, SlotRoot, POOL_SIZE,
};
use nod_runtime::classes::ClassTable;
use nod_runtime::functions::{make_function, CallAction, FunctionClasses, FUNCTION_KIND_TOP_LEVEL};
use nod_runtime::heap::{literal_pool_immediates, Heap};
use nod_runtime::literals::LiteralPool;
use nod_runtime::winffi::ensure_c_ffi_error_registered;
use nod_runtime::word::Word;

struct World {
    heap: Heap,
    ids: FunctionClasses,
    pool: CallbackPool,
    thread: CallbackThread,
}

fn world() -> World {
    let mut table = ClassTable::new();
    let ids = nod_runtime::functions::ensure_registered(&mut table);
    World { heap: Heap::new(), ids, pool: CallbackPool::new(), thread: CallbackThread::new() }
}

fn addresses() -> SlotAddresses {
    let mut wndproc = [0u64; 32];
    let mut wndenumproc = [0u64; 32];
    for i in 0..32 {
        wndproc[i] = 0x1000 + 16 * i as u64;
        wndenumproc[i] = 0x2000 + 16 * i as u64;
    }
    SlotAddresses { wndproc, wndenumproc }
}

/// One entry point per number, each with code of its own.
fn entry<const N: u64>(hwnd: u64) -> u64 {
    hwnd.wrapping_mul(31).wrapping_add(N)
}

/// The addresses of functions of this program.
fn entry_points() -> SlotAddresses {
    let at = |f: fn(u64) -> u64| f as usize as u64;
    SlotAddresses {
        wndproc: [
            at(entry::<0>), at(entry::<1>), at(entry::<2>), at(entry::<3>),
            at(entry::<4>), at(entry::<5>), at(entry::<6>), at(entry::<7>),
            at(entry::<8>), at(entry::<9>), at(entry::<10>), at(entry::<11>),
            at(entry::<12>), at(entry::<13>), at(entry::<14>), at(entry::<15>),
            at(entry::<16>), at(entry::<17>), at(entry::<18>), at(entry::<19>),
            at(entry::<20>), at(entry::<21>), at(entry::<22>), at(entry::<23>),
            at(entry::<24>), at(entry::<25>), at(entry::<26>), at(entry::<27>),
            at(entry::<28>), at(entry::<29>), at(entry::<30>), at(entry::<31>),
        ],
        wndenumproc: [
            at(entry::<32>), at(entry::<33>), at(entry::<34>), at(entry::<35>),
            at(entry::<36>), at(entry::<37>), at(entry::<38>), at(entry::<39>),
            at(entry::<40>), at(entry::<41>), at(entry::<42>), at(entry::<43>),
            at(entry::<44>), at(entry::<45>), at(entry::<46>), at(entry::<47>),
            at(entry::<48>), at(entry::<49>), at(entry::<50>), at(entry::<51>),
            at(entry::<52>), at(entry::<53>), at(entry::<54>), at(entry::<55>),
            at(entry::<56>), at(entry::<57>), at(entry::<58>), at(entry::<59>),
            at(entry::<60>), at(entry::<61>), at(entry::<62>), at(entry::<63>),
        ],
    }
}

fn counting_closure(w: &mut World, arity: usize, name: &str) -> Word {
    make_function(
        &mut LiteralPool::new(),
        &mut w.heap,
        &w.ids,
        name,
        arity,
        0x4000 + arity as u64,
        FUNCTION_KIND_TOP_LEVEL,
        0,
    )
}

/// Runs what a call asks for, with a body that counts and answers a fixnum.
fn run(action: CallAction, calls: &mut usize, answer: i64) -> (u64, Vec<u64>) {
    match action {
        CallAction::Run { code: _, args } => {
            *calls += 1;
            (Word::from_fixnum(answer).unwrap().raw(), args)
        }
        _ => panic!("the callback must be run"),
    }
}

#[test]
fn wndenumproc_synthetic_dispatch() {
    let mut w = world();
    let mut counter = 0usize;
    let closure = counting_closure(&mut w, 2, "wndenumproc-test-cb");
    let slot_id = register_callback(&mut w.pool, &mut w.thread, closure, CallbackSignature::Wndenumproc)
        .expect("slot free");
    let action =
        wndenumproc_dispatch(&w.pool, &mut w.thread, &mut w.heap, &w.ids, slot_id, 0x1234_5678, 0xDEAD_BEEF);
    let (result, args) = run(action, &mut counter, 1);
    let r = rebox_bool32(Word::from_raw(result));
    assert_eq!(
        r, 1,
        "WNDENUMPROC trampoline should return 1 (BOOL TRUE) for a closure returning fixnum 1"
    );
    assert_eq!(counter, 1, "closure body must have run exactly once");
    assert_eq!(args, vec![0x1234_5678 << 1, 0xDEAD_BEEF << 1]);
}

#[test]
fn wndproc_synthetic_dispatch() {
    let mut w = world();
    let mut counter = 0usize;
    let closure = counting_closure(&mut w, 4, "wndproc-test-cb");
    let slot_id =
        register_callback(&mut w.pool, &mut w.thread, closure, CallbackSignature::Wndproc).expect("slot free");
    let action = wndproc_dispatch(
        &w.pool,
        &mut w.thread,
        &mut w.heap,
        &w.ids,
        slot_id,
        0x1234_5678,
        0x0011,
        0xAA,
        0xBB,
    );
    let (result, args) = run(action, &mut counter, 42);
    let r = rebox_lresult(Word::from_raw(result));
    assert_eq!(r, 42, "WNDPROC trampoline should pass through fixnum 42 from closure");
    assert_eq!(counter, 1, "closure body must have run exactly once");
    assert_eq!(args, vec![0x1234_5678 << 1, 0x22, 0xAA << 1, 0xBB << 1]);
}

#[test]
fn distinct_slots_have_distinct_addresses() {
    let mut w = world();
    let cb1 = counting_closure(&mut w, 2, "addr-cb-1");
    let cb2 = counting_closure(&mut w, 2, "addr-cb-2");
    let s1 = register_callback(&mut w.pool, &mut w.thread, cb1, CallbackSignature::Wndenumproc).unwrap();
    let s2 = register_callback(&mut w.pool, &mut w.thread, cb2, CallbackSignature::Wndenumproc).unwrap();
    assert_ne!(s1, s2, "two distinct registrations should land in different slots");
    let a1 = slot_address(&entry_points(), CallbackSignature::Wndenumproc, s1);
    let a2 = slot_address(&entry_points(), CallbackSignature::Wndenumproc, s2);
    assert_ne!(a1, a2, "two distinct slots must have different trampoline addresses");
}

#[test]
fn shared_or_missing_addresses_are_noticed() {
    assert!(entry_points().is_sound());
    assert!(addresses().is_sound());
    let mut shared = addresses();
    shared.wndenumproc[31] = shared.wndenumproc[4];
    assert!(!shared.is_sound());
    let mut missing = addresses();
    missing.wndproc[0] = 0;
    assert!(!missing.is_sound());
    // The signatures may share: a slot is found by its signature first.
    let mut mirrored = addresses();
    mirrored.wndenumproc = mirrored.wndproc;
    assert!(mirrored.is_sound());
}

#[test]
fn a_slot_is_taken_once_it_is_registered() {
    let mut w = world();
    let cb = counting_closure(&mut w, 4, "taken-cb");
    assert!(!w.pool.is_taken(CallbackSignature::Wndproc, 0));
    let slot = register_callback(&mut w.pool, &mut w.thread, cb, CallbackSignature::Wndproc).unwrap();
    assert_eq!(slot, 0);
    assert!(w.pool.is_taken(CallbackSignature::Wndproc, 0));
    assert!(!w.pool.is_taken(CallbackSignature::Wndproc, 1));
    assert!(!w.pool.is_taken(CallbackSignature::Wndenumproc, 0));
    assert!(!w.pool.is_taken(CallbackSignature::Wndproc, POOL_SIZE));
}

#[test]
fn pool_full_returns_err() {
    let mut w = world();
    let cb = counting_closure(&mut w, 2, "pool-full-cb");
    for _ in 0..POOL_SIZE {
        register_callback(&mut w.pool, &mut w.thread, cb, CallbackSignature::Wndenumproc)
            .expect("first 32 must succeed");
    }
    let err = register_callback(&mut w.pool, &mut w.thread, cb, CallbackSignature::Wndenumproc);
    assert!(
        matches!(err, Err(RegisterError::PoolFull)),
        "33rd registration must report PoolFull, got {err:?}"
    );
    assert_eq!(
        _occupied_count(&w.pool, CallbackSignature::Wndenumproc),
        POOL_SIZE,
        "pool should be saturated"
    );
    assert_eq!(_occupied_count(&w.pool, CallbackSignature::Wndproc), 0);
    _reset_callbacks_for_tests(&mut w.pool);
    assert_eq!(
        _occupied_count(&w.pool, CallbackSignature::Wndenumproc),
        0,
        "reset should clear all slots"
    );
}

#[test]
fn rebox_bool_helpers() {
    let imm = literal_pool_immediates();
    assert_eq!(rebox_bool32(imm.true_), 1);
    assert_eq!(rebox_bool32(imm.false_), 0);
    assert_eq!(rebox_bool32(Word::fixnum_unchecked(0)), 0);
    assert_eq!(rebox_bool32(Word::fixnum_unchecked(42)), 1);
    assert_eq!(rebox_bool32(Word::fixnum_unchecked(-1)), 1);

    assert_eq!(rebox_lresult(imm.true_), 1);
    assert_eq!(rebox_lresult(imm.false_), 0);
    assert_eq!(rebox_lresult(Word::fixnum_unchecked(0)), 0);
    assert_eq!(rebox_lresult(Word::fixnum_unchecked(7)), 7);
}

#[test]
fn results_of_other_kinds() {
    let imm = literal_pool_immediates();
    assert_eq!(rebox_bool32(imm.nil), 1);
    assert_eq!(rebox_lresult(imm.nil), 0);
    assert_eq!(rebox_lresult(Word::fixnum_unchecked(-1)), u64::MAX);
}

#[test]
fn roots_are_installed_once_per_signature() {
    let mut thread = CallbackThread::new();
    install_gc_roots_for_this_thread(&mut thread, CallbackSignature::Wndproc);
    assert!(thread.wndproc_rooted && !thread.wndenumproc_rooted);
    assert_eq!(thread.roots.len(), POOL_SIZE);
    let last = SlotRoot { sig: CallbackSignature::Wndproc, slot_id: POOL_SIZE - 1 };
    assert_eq!(thread.roots[POOL_SIZE - 1], last);
    install_gc_roots_for_this_thread(&mut thread, CallbackSignature::Wndproc);
    assert_eq!(thread.roots.len(), POOL_SIZE);
    install_gc_roots_for_this_thread(&mut thread, CallbackSignature::Wndenumproc);
    assert_eq!(thread.roots.len(), 2 * POOL_SIZE);
    let next = SlotRoot { sig: CallbackSignature::Wndenumproc, slot_id: 0 };
    assert_eq!(thread.roots[POOL_SIZE], next);
}

#[test]
fn registering_roots_the_slots_and_tenures() {
    let mut w = world();
    let sig = CallbackSignature::Wndproc;
    let closure = counting_closure(&mut w, 4, "tenured");
    register_callback(&mut w.pool, &mut w.thread, closure, sig).unwrap();
    assert_eq!(w.thread.roots.len(), POOL_SIZE);
    assert!(!w.thread.collection_due);
    set_callback_tenure_mode(&mut w.pool, true);
    register_callback(&mut w.pool, &mut w.thread, closure, sig).unwrap();
    assert!(w.thread.collection_due);
    for _ in 2..POOL_SIZE {
        register_callback(&mut w.pool, &mut w.thread, closure, sig).unwrap();
    }
    let mut other = CallbackThread::new();
    assert!(register_callback(&mut w.pool, &mut other, closure, sig).is_err());
    assert_eq!(other.roots.len(), POOL_SIZE);
    assert!(!other.collection_due);
    let mut called = CallbackThread::new();
    let _ = wndproc_dispatch(&w.pool, &mut called, &mut w.heap, &w.ids, 0, 1, 2, 3, 4);
    assert!(called.wndproc_rooted);
}

#[test]
fn tenure_mode_is_off_until_set() {
    let mut pool = CallbackPool::new();
    assert!(!callback_tenure_mode_enabled(&pool));
    set_callback_tenure_mode(&mut pool, true);
    assert!(callback_tenure_mode_enabled(&pool));
}

#[test]
fn registering_on_words_answers_the_address_or_signals() {
    let mut table = ClassTable::new();
    let ffi = ensure_c_ffi_error_registered(&mut table);
    let mut heap = Heap::new();
    let mut pool = CallbackPool::new();
    let mut thread = CallbackThread::new();
    let table_of_addresses = addresses();
    for i in 0..POOL_SIZE {
        let r = nod_register_wndproc(&mut pool, &mut thread, &table_of_addresses, &mut heap, &ffi, 9);
        assert_eq!(r, RegisterAction::Registered((0x1000 + 16 * i as u64) << 1));
    }
    let r = nod_register_wndproc(&mut pool, &mut thread, &table_of_addresses, &mut heap, &ffi, 9);
    let condition = match r {
        RegisterAction::Signal(c) => Word::from_raw(c),
        _ => panic!("a full pool is signalled"),
    };
    assert_eq!(heap.class_of(condition), Some(ffi.c_ffi_error));
    let message = heap.cell(condition, 3).unwrap();
    assert_eq!(
        heap.get(message).unwrap().bytes,
        b"callback pool exhausted (Sprint 32 cap: 32 WNDPROCs)".to_vec()
    );
    let r = nod_register_wndenumproc(&mut pool, &mut thread, &table_of_addresses, &mut heap, &ffi, 9);
    assert_eq!(r, RegisterAction::Registered(0x2000 << 1));
}
