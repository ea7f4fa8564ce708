use nod_runtime::crash_dump::{
    exception_code_name, exception_summary, gc_metrics_snapshot, panic_summary,
    report_stack_overflow, set_gc_phase, update_gc_metrics, vectored_stack_overflow_handler,
    write_crash_dump, CrashState, GcMetricsSnapshot, GcStall, HeapStatsSnapshot, PanicLocation,
    GC_PHASE_MAJOR, GC_PHASE_MINOR, STATUS_STACK_OVERFLOW,
};
use nod_runtime::stack_buf::StackBuf;

fn text(bytes: &[u8]) -> String {
    String::from_utf8(bytes.to_vec()).unwrap()
}

fn stats() -> HeapStatsSnapshot {
    HeapStatsSnapshot {
        minor_collections: 1,
        major_collections: 2,
        young_bytes_allocated: 3,
        young_bytes_live: 4,
        old_bytes_live: 5,
        last_minor_pause_ns: 6000,
        last_major_pause_ns: 7999,
        total_minor_pause_ns: 8,
        total_major_pause_ns: 9,
        roots_at_last_minor: 10,
        roots_at_last_major: 11,
        bytes_promoted: 12,
        peak_young_bytes_live: 13,
        peak_old_bytes_live: 14,
    }
}

#[test]
fn published_counters_are_read_back() {
    let mut state = CrashState::new();
    assert_eq!(gc_metrics_snapshot(&state), GcMetricsSnapshot::default());
    update_gc_metrics(&mut state, &stats());
    let m = gc_metrics_snapshot(&state);
    assert_eq!(m.minor_collections, 1);
    assert_eq!(m.peak_old_bytes_live, 14);
}

#[test]
fn the_report_shows_everything() {
    let mut state = CrashState::new();
    update_gc_metrics(&mut state, &stats());
    set_gc_phase(&mut state, GC_PHASE_MINOR);
    let report = write_crash_dump(&state, b"boom", 3, 4);
    let expected = "\n\
============================================================\n\
=== NOD CRASH DUMP ==========================================\n\
============================================================\n  \
exception            : boom\n  \
gc phase             : MINOR GC IN PROGRESS  (metrics show last completed cycle)\n\
------------------------------------------------------------\n\
GC METRICS  (last completed cycle)\n\
minor collections    : 1\n\
major collections    : 2\n\
young allocated      : 3 bytes\n\
young live           : 4 bytes\n\
old live             : 5 bytes\n\
last minor pause     : 6000 ns  (6 us)\n\
last major pause     : 7999 ns  (7 us)\n\
total minor pause    : 8 ns  (0 us)\n\
total major pause    : 9 ns  (0 us)\n\
roots at last minor  : 10\n\
roots at last major  : 11\n\
bytes promoted       : 12 bytes\n\
peak young live      : 13 bytes\n\
peak old live        : 14 bytes\n\
------------------------------------------------------------\n\
SAFEPOINT STATE  (faulting thread)\n\
JIT active frames    : 3\n\
AOT active frames    : 4\n\
============================================================\n\n";
    assert_eq!(text(report.as_bytes()), expected);
}

#[test]
fn without_an_exception_there_is_no_exception_line() {
    let report = write_crash_dump(&CrashState::new(), b"", 0, 0);
    let t = text(report.as_bytes());
    assert!(!t.contains("exception"));
    assert!(t.contains("gc phase             : idle\n"));
}

#[test]
fn stack_overflows_are_reported_first_chance() {
    let mut state = CrashState::new();
    set_gc_phase(&mut state, GC_PHASE_MAJOR);
    assert!(vectored_stack_overflow_handler(&state, 0xC000_0005, 0x10, 0, 0).is_none());
    let report =
        vectored_stack_overflow_handler(&state, STATUS_STACK_OVERFLOW, 0xbeef, 1, 2).unwrap();
    let t = text(report.as_bytes());
    assert!(t.contains("  EXCEPTION_STACK_OVERFLOW (code 0xc00000fd) at 0xbeef\n"), "{t}");
    assert!(t.contains("  gc phase             : MAJOR GC in progress\n"), "{t}");
    assert!(t.contains("  AOT safepoint frames : 2\n  JIT safepoint frames : 1\n"), "{t}");
    let idle = report_stack_overflow(0, 0, 0, 0);
    assert!(text(idle.as_bytes()).contains("idle (mutator)"));
    assert!(text(idle.as_bytes()).contains(" at 0x0\n"));
}

#[test]
fn exceptions_are_named() {
    assert_eq!(exception_code_name(0xC000_0005), "EXCEPTION_ACCESS_VIOLATION");
    assert_eq!(exception_code_name(0xC000_0096), "EXCEPTION_PRIV_INSTRUCTION");
    assert_eq!(exception_code_name(1), "EXCEPTION_UNKNOWN");
    let s = exception_summary(0xC000_0005, 0x40);
    assert_eq!(text(s.as_bytes()), "EXCEPTION_ACCESS_VIOLATION (code 0xc0000005) at 0x40");
    let s = exception_summary(0x2a, 0);
    assert_eq!(text(s.as_bytes()), "EXCEPTION_UNKNOWN (code 0x0000002a) at 0x0");
}

#[test]
fn panics_are_summed_up_unless_they_are_exits() {
    let at = || {
        Some(PanicLocation { file: "src/main.rs".to_string(), line: 12, column: 5 })
    };
    assert!(panic_summary(true, at(), None).is_none());
    let s = panic_summary(false, at(), None).unwrap();
    assert_eq!(text(s.as_bytes()), "Rust panic at src/main.rs:12:5");
    let s = panic_summary(false, None, None).unwrap();
    assert_eq!(text(s.as_bytes()), "Rust panic (no location)");
    let stall = GcStall {
        reason: "NoFreePage".to_string(),
        from_gen: "G0".to_string(),
        dest_gen: "G1".to_string(),
        attempted_kind: "Header".to_string(),
        attempted_cells: 1,
        free_pages: 2,
        g0_pages: 3,
        g1_pages: 4,
        tenured_pages: 5,
        pin_set_size: 6,
        reserve_pages: 7,
        objects_copied_before_failure: 8,
        cells_copied_before_failure: 9,
        mark_live_bytes: 10,
        mark_live_pages: 11,
        zero_live_pages_released: 12,
        pages_recycled_mid_evac: 13,
    };
    let s = panic_summary(false, None, Some(stall)).unwrap();
    assert_eq!(
        text(s.as_bytes()),
        "Rust panic (no location) | gc-stall reason=NoFreePage from=G0 dest=G1 \
         attempted-kind=Header attempted-cells=1 pages(free/g0/g1/tenured)=2/3/4/5 pin-set=6 \
         reserve-pages=7 copied(objects/cells)=8/9 \
         mark(live-bytes/live-pages/zero-live-released)=10/11/12 recycled-mid-evac=13"
    );
}

#[test]
fn what_does_not_fit_is_dropped() {
    let mut b: StackBuf<8> = StackBuf::new();
    b.write_str("abc");
    b.write_decimal(12345);
    b.write_hex(0xff);
    assert_eq!(b.as_bytes(), b"abc12345");
    let mut c: StackBuf<16> = StackBuf::new();
    c.write_fixed_hex(0xabc, 6);
    c.write_bytes(&[1, 2]);
    assert_eq!(c.as_bytes(), b"000abc\x01\x02");
}
