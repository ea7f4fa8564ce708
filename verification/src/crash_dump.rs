//! Crash reports.
//!
//! A crash handler must not allocate and must not wait. So the collector
//! publishes its counters and its phase after every cycle, and the report is
//! written into a buffer of fixed size, which is handed to the standard error
//! stream as it is.

use vstd::prelude::*;
use vstd::string::*;
use vstd::utf8::encode_utf8;

use crate::stack_buf::{encoding_concatenates, fixed_hex, StackBuf};
use crate::text::{decimal_digits, hex_digits};

verus! {

/// No collection is running.
pub const GC_PHASE_IDLE: u8 = 0;

/// A minor collection is running.
pub const GC_PHASE_MINOR: u8 = 1;

/// A major collection is running.
pub const GC_PHASE_MAJOR: u8 = 2;

/// The counters of the heap after a collection.
#[derive(Clone, Copy, PartialEq, Eq, Structural, Debug)]
pub struct HeapStatsSnapshot {
    pub minor_collections: u64,
    pub major_collections: u64,
    pub young_bytes_allocated: u64,
    pub young_bytes_live: u64,
    pub old_bytes_live: u64,
    pub last_minor_pause_ns: u64,
    pub last_major_pause_ns: u64,
    pub total_minor_pause_ns: u64,
    pub total_major_pause_ns: u64,
    pub roots_at_last_minor: u64,
    pub roots_at_last_major: u64,
    pub bytes_promoted: u64,
    pub peak_young_bytes_live: u64,
    pub peak_old_bytes_live: u64,
}

/// The counters as the crash handler sees them.
#[derive(Clone, Copy, PartialEq, Eq, Structural, Debug)]
pub struct GcMetricsSnapshot {
    pub minor_collections: u64,
    pub major_collections: u64,
    pub young_bytes_allocated: u64,
    pub young_bytes_live: u64,
    pub old_bytes_live: u64,
    pub last_minor_pause_ns: u64,
    pub last_major_pause_ns: u64,
    pub total_minor_pause_ns: u64,
    pub total_major_pause_ns: u64,
    pub roots_at_last_minor: u64,
    pub roots_at_last_major: u64,
    pub bytes_promoted: u64,
    pub peak_young_bytes_live: u64,
    pub peak_old_bytes_live: u64,
}

impl Default for GcMetricsSnapshot {
    fn default() -> (m: GcMetricsSnapshot)
        ensures
            m == no_metrics(),
    {
        GcMetricsSnapshot {
            minor_collections: 0,
            major_collections: 0,
            young_bytes_allocated: 0,
            young_bytes_live: 0,
            old_bytes_live: 0,
            last_minor_pause_ns: 0,
            last_major_pause_ns: 0,
            total_minor_pause_ns: 0,
            total_major_pause_ns: 0,
            roots_at_last_minor: 0,
            roots_at_last_major: 0,
            bytes_promoted: 0,
            peak_young_bytes_live: 0,
            peak_old_bytes_live: 0,
        }
    }
}

/// The counters before the first collection.
pub open spec fn no_metrics() -> GcMetricsSnapshot {
    GcMetricsSnapshot {
        minor_collections: 0,
        major_collections: 0,
        young_bytes_allocated: 0,
        young_bytes_live: 0,
        old_bytes_live: 0,
        last_minor_pause_ns: 0,
        last_major_pause_ns: 0,
        total_minor_pause_ns: 0,
        total_major_pause_ns: 0,
        roots_at_last_minor: 0,
        roots_at_last_major: 0,
        bytes_promoted: 0,
        peak_young_bytes_live: 0,
        peak_old_bytes_live: 0,
    }
}

/// The counters that a collection publishes.
pub open spec fn published(s: HeapStatsSnapshot) -> GcMetricsSnapshot {
    GcMetricsSnapshot {
        minor_collections: s.minor_collections,
        major_collections: s.major_collections,
        young_bytes_allocated: s.young_bytes_allocated,
        young_bytes_live: s.young_bytes_live,
        old_bytes_live: s.old_bytes_live,
        last_minor_pause_ns: s.last_minor_pause_ns,
        last_major_pause_ns: s.last_major_pause_ns,
        total_minor_pause_ns: s.total_minor_pause_ns,
        total_major_pause_ns: s.total_major_pause_ns,
        roots_at_last_minor: s.roots_at_last_minor,
        roots_at_last_major: s.roots_at_last_major,
        bytes_promoted: s.bytes_promoted,
        peak_young_bytes_live: s.peak_young_bytes_live,
        peak_old_bytes_live: s.peak_old_bytes_live,
    }
}

/// What the collector has published for the crash handler.
pub struct CrashState {
    pub gc_phase: u8,
    pub metrics: GcMetricsSnapshot,
}

impl CrashState {
    /// No collection yet.
    pub fn new() -> (s: CrashState)
        ensures
            s.gc_phase == GC_PHASE_IDLE,
            s.metrics == no_metrics(),
    {
        CrashState { gc_phase: GC_PHASE_IDLE, metrics: GcMetricsSnapshot::default() }
    }
}

/// Publishes the collector's phase.
pub fn set_gc_phase(state: &mut CrashState, phase: u8)
    ensures
        *final(state) == (CrashState { gc_phase: phase, ..*old(state) }),
{
    state.gc_phase = phase;
}

/// Publishes the counters after a collection.
pub fn update_gc_metrics(state: &mut CrashState, s: &HeapStatsSnapshot)
    ensures
        *final(state) == (CrashState { metrics: published(*s), ..*old(state) }),
{
    state.metrics = GcMetricsSnapshot {
        minor_collections: s.minor_collections,
        major_collections: s.major_collections,
        young_bytes_allocated: s.young_bytes_allocated,
        young_bytes_live: s.young_bytes_live,
        old_bytes_live: s.old_bytes_live,
        last_minor_pause_ns: s.last_minor_pause_ns,
        last_major_pause_ns: s.last_major_pause_ns,
        total_minor_pause_ns: s.total_minor_pause_ns,
        total_major_pause_ns: s.total_major_pause_ns,
        roots_at_last_minor: s.roots_at_last_minor,
        roots_at_last_major: s.roots_at_last_major,
        bytes_promoted: s.bytes_promoted,
        peak_young_bytes_live: s.peak_young_bytes_live,
        peak_old_bytes_live: s.peak_old_bytes_live,
    };
}

/// The counters published last.
pub fn gc_metrics_snapshot(state: &CrashState) -> (m: GcMetricsSnapshot)
    ensures
        m == state.metrics,
{
    state.metrics
}

// ----- text -----

/// `t` and a text.
pub open spec fn put(t: Seq<u8>, s: Seq<char>) -> Seq<u8> {
    t + encode_utf8(s)
}

/// `t` and a number.
pub open spec fn put_number(t: Seq<u8>, n: u64) -> Seq<u8> {
    t + encode_utf8(decimal_digits(n as nat))
}

/// `t` and an address.
pub open spec fn put_address(t: Seq<u8>, address: u64) -> Seq<u8> {
    put(put(t, "0x"@), hex_digits(address as nat))
}

/// `t` and a line with a number.
pub open spec fn put_field(t: Seq<u8>, label: Seq<char>, n: u64, unit: Seq<char>) -> Seq<u8> {
    put(put_number(put(t, label), n), unit)
}

/// `t` and a line with a pause in nanoseconds and microseconds.
pub open spec fn put_pause(t: Seq<u8>, label: Seq<char>, ns: u64) -> Seq<u8> {
    put_field(put_field(t, label, ns, " ns  ("@), ""@, (ns / 1000) as u64, " us)\n"@)
}

/// `t` and the counters.
pub open spec fn put_metrics(t: Seq<u8>, m: GcMetricsSnapshot) -> Seq<u8> {
    let t = put(t, "GC METRICS  (last completed cycle)\n"@);
    let t = put_field(t, "minor collections    : "@, m.minor_collections, "\n"@);
    let t = put_field(t, "major collections    : "@, m.major_collections, "\n"@);
    let t = put_field(t, "young allocated      : "@, m.young_bytes_allocated, " bytes\n"@);
    let t = put_field(t, "young live           : "@, m.young_bytes_live, " bytes\n"@);
    let t = put_field(t, "old live             : "@, m.old_bytes_live, " bytes\n"@);
    let t = put_pause(t, "last minor pause     : "@, m.last_minor_pause_ns);
    let t = put_pause(t, "last major pause     : "@, m.last_major_pause_ns);
    let t = put_pause(t, "total minor pause    : "@, m.total_minor_pause_ns);
    let t = put_pause(t, "total major pause    : "@, m.total_major_pause_ns);
    let t = put_field(t, "roots at last minor  : "@, m.roots_at_last_minor, "\n"@);
    let t = put_field(t, "roots at last major  : "@, m.roots_at_last_major, "\n"@);
    let t = put_field(t, "bytes promoted       : "@, m.bytes_promoted, " bytes\n"@);
    let t = put_field(t, "peak young live      : "@, m.peak_young_bytes_live, " bytes\n"@);
    let t = put_field(t, "peak old live        : "@, m.peak_old_bytes_live, " bytes\n"@);
    t
}

/// Writes a line with a number.
fn write_field<const N: usize>(buf: &mut StackBuf<N>, label: &str, n: u64, unit: &str)
    requires
        old(buf).wf(),
    ensures
        final(buf).wf(),
        forall|t: Seq<u8>| #[trigger] old(buf).holds(t) ==> final(buf).holds(
            put_field(t, label@, n, unit@),
        ),
{
    buf.write_str(label);
    buf.write_decimal(n);
    buf.write_str(unit);
}

/// Writes a line with a pause.
fn write_pause<const N: usize>(buf: &mut StackBuf<N>, label: &str, ns: u64)
    requires
        old(buf).wf(),
    ensures
        final(buf).wf(),
        forall|t: Seq<u8>| #[trigger] old(buf).holds(t) ==> final(buf).holds(
            put_pause(t, label@, ns),
        ),
{
    write_field(buf, label, ns, " ns  (");
    write_field(buf, "", ns / 1000, " us)\n");
}

/// Writes the counters.
fn write_metrics<const N: usize>(buf: &mut StackBuf<N>, m: &GcMetricsSnapshot)
    requires
        old(buf).wf(),
    ensures
        final(buf).wf(),
        forall|t: Seq<u8>| #[trigger] old(buf).holds(t) ==> final(buf).holds(put_metrics(t, *m)),
{
    buf.write_str("GC METRICS  (last completed cycle)\n");
    write_field(buf, "minor collections    : ", m.minor_collections, "\n");
    write_field(buf, "major collections    : ", m.major_collections, "\n");
    write_field(buf, "young allocated      : ", m.young_bytes_allocated, " bytes\n");
    write_field(buf, "young live           : ", m.young_bytes_live, " bytes\n");
    write_field(buf, "old live             : ", m.old_bytes_live, " bytes\n");
    write_pause(buf, "last minor pause     : ", m.last_minor_pause_ns);
    write_pause(buf, "last major pause     : ", m.last_major_pause_ns);
    write_pause(buf, "total minor pause    : ", m.total_minor_pause_ns);
    write_pause(buf, "total major pause    : ", m.total_major_pause_ns);
    write_field(buf, "roots at last minor  : ", m.roots_at_last_minor, "\n");
    write_field(buf, "roots at last major  : ", m.roots_at_last_major, "\n");
    write_field(buf, "bytes promoted       : ", m.bytes_promoted, " bytes\n");
    write_field(buf, "peak young live      : ", m.peak_young_bytes_live, " bytes\n");
    write_field(buf, "peak old live        : ", m.peak_old_bytes_live, " bytes\n");
}

/// What a report says about the phase.
pub open spec fn phase_text(phase: u8) -> Seq<char> {
    if phase == GC_PHASE_MINOR {
        "MINOR GC IN PROGRESS  (metrics show last completed cycle)"@
    } else if phase == GC_PHASE_MAJOR {
        "MAJOR GC IN PROGRESS  (metrics show last completed cycle)"@
    } else {
        "idle"@
    }
}

fn phase_str(phase: u8) -> (s: &'static str)
    ensures
        s@ == phase_text(phase),
{
    if phase == GC_PHASE_MINOR {
        "MINOR GC IN PROGRESS  (metrics show last completed cycle)"
    } else if phase == GC_PHASE_MAJOR {
        "MAJOR GC IN PROGRESS  (metrics show last completed cycle)"
    } else {
        "idle"
    }
}

/// A line across the report.
pub open spec fn rule() -> Seq<char> {
    "============================================================\n"@
}

/// A thin line across the report.
pub open spec fn thin_rule() -> Seq<char> {
    "------------------------------------------------------------\n"@
}

/// A crash report: what happened, the collector's phase and counters, and how
/// many safepoints of the faulting thread are active.
pub open spec fn crash_report(
    state: CrashState,
    exception_info: Seq<u8>,
    jit_depth: u64,
    aot_depth: u64,
) -> Seq<u8> {
    let t = put(seq![], "\n"@);
    let t = put(t, rule());
    let t = put(t, "=== NOD CRASH DUMP ==========================================\n"@);
    let t = put(t, rule());
    let t = if exception_info.len() == 0 {
        t
    } else {
        put(put(t, "  exception            : "@) + exception_info, "\n"@)
    };
    let t = put(put(put(t, "  gc phase             : "@), phase_text(state.gc_phase)), "\n"@);
    let t = put(t, thin_rule());
    let t = put_metrics(t, state.metrics);
    let t = put(t, thin_rule());
    let t = put(t, "SAFEPOINT STATE  (faulting thread)\n"@);
    let t = put_field(t, "JIT active frames    : "@, jit_depth, "\n"@);
    let t = put_field(t, "AOT active frames    : "@, aot_depth, "\n"@);
    put(put(t, rule()), "\n"@)
}

/// Writes a crash report.
pub fn write_crash_dump(
    state: &CrashState,
    exception_info: &[u8],
    jit_depth: u64,
    aot_depth: u64,
) -> (buf: StackBuf<8192>)
    ensures
        buf.wf(),
        buf.holds(crash_report(*state, exception_info@, jit_depth, aot_depth)),
{
    let mut buf = StackBuf::<8192>::new();
    buf.write_str("\n");
    buf.write_str("============================================================\n");
    buf.write_str("=== NOD CRASH DUMP ==========================================\n");
    buf.write_str("============================================================\n");
    if exception_info.len() != 0 {
        buf.write_str("  exception            : ");
        buf.write_bytes(exception_info);
        buf.write_str("\n");
    }
    buf.write_str("  gc phase             : ");
    buf.write_str(phase_str(state.gc_phase));
    buf.write_str("\n");
    buf.write_str("------------------------------------------------------------\n");
    write_metrics(&mut buf, &state.metrics);
    buf.write_str("------------------------------------------------------------\n");
    buf.write_str("SAFEPOINT STATE  (faulting thread)\n");
    write_field(&mut buf, "JIT active frames    : ", jit_depth, "\n");
    write_field(&mut buf, "AOT active frames    : ", aot_depth, "\n");
    buf.write_str("============================================================\n");
    buf.write_str("\n");
    buf
}

// ----- stack overflow -----

/// The code of a stack overflow.
pub const STATUS_STACK_OVERFLOW: u32 = 0xC000_00FD;

/// What a report of a stack overflow says about the phase.
pub open spec fn brief_phase_text(phase: u8) -> Seq<char> {
    if phase == GC_PHASE_MINOR {
        "MINOR GC in progress"@
    } else if phase == GC_PHASE_MAJOR {
        "MAJOR GC in progress"@
    } else {
        "idle (mutator)"@
    }
}

fn brief_phase_str(phase: u8) -> (s: &'static str)
    ensures
        s@ == brief_phase_text(phase),
{
    if phase == GC_PHASE_MINOR {
        "MINOR GC in progress"
    } else if phase == GC_PHASE_MAJOR {
        "MAJOR GC in progress"
    } else {
        "idle (mutator)"
    }
}

/// The report of a stack overflow.
pub open spec fn overflow_report(gc_phase: u8, address: u64, jit_depth: u64, aot_depth: u64) -> Seq<
    u8,
> {
    let t = put(seq![], "\n"@);
    let t = put(t, rule());
    let t = put(t, "=== NOD CRASH DUMP: STACK OVERFLOW =========================\n"@);
    let t = put(t, rule());
    let t = put(t, "  EXCEPTION_STACK_OVERFLOW (code 0xc00000fd) at "@);
    let t = put_address(t, address);
    let t = put(t, "\n  gc phase             : "@);
    let t = put(t, brief_phase_text(gc_phase));
    let t = put_field(t, "\n  AOT safepoint frames : "@, aot_depth, "\n"@);
    let t = put_field(t, "  JIT safepoint frames : "@, jit_depth, "\n"@);
    let t = put(
        t,
        "  note                 : a thread exhausted its stack. A frame with a\n"@,
    );
    let t = put(
        t,
        "                         huge/looping alloca is the usual cause (a loop-body alloca leaks\n"@,
    );
    let t = put(
        t,
        "                         stack every iteration at -O0; hoist it to the entry block).\n"@,
    );
    put(put(t, rule()), "\n"@)
}

/// Writes the report of a stack overflow, into a small buffer: little stack is
/// left.
pub fn report_stack_overflow(gc_phase: u8, address: u64, jit_depth: u64, aot_depth: u64) -> (buf:
    StackBuf<1024>)
    ensures
        buf.wf(),
        buf.holds(overflow_report(gc_phase, address, jit_depth, aot_depth)),
{
    let mut buf = StackBuf::<1024>::new();
    buf.write_str("\n");
    buf.write_str("============================================================\n");
    buf.write_str("=== NOD CRASH DUMP: STACK OVERFLOW =========================\n");
    buf.write_str("============================================================\n");
    buf.write_str("  EXCEPTION_STACK_OVERFLOW (code 0xc00000fd) at ");
    buf.write_str("0x");
    buf.write_hex(address);
    buf.write_str("\n  gc phase             : ");
    buf.write_str(brief_phase_str(gc_phase));
    write_field(&mut buf, "\n  AOT safepoint frames : ", aot_depth, "\n");
    write_field(&mut buf, "  JIT safepoint frames : ", jit_depth, "\n");
    buf.write_str("  note                 : a thread exhausted its stack. A frame with a\n");
    buf.write_str(
        "                         huge/looping alloca is the usual cause (a loop-body alloca leaks\n",
    );
    buf.write_str(
        "                         stack every iteration at -O0; hoist it to the entry block).\n",
    );
    buf.write_str("============================================================\n");
    buf.write_str("\n");
    buf
}

/// What the first handler of an exception reports: a stack overflow only. Every
/// exception goes on to the other handlers.
pub fn vectored_stack_overflow_handler(
    state: &CrashState,
    code: u32,
    address: u64,
    jit_depth: u64,
    aot_depth: u64,
) -> (report: Option<StackBuf<1024>>)
    ensures
        report is Some <==> code == STATUS_STACK_OVERFLOW,
        report is Some ==> report->0.wf() && report->0.holds(
            overflow_report(state.gc_phase, address, jit_depth, aot_depth),
        ),
{
    if code == STATUS_STACK_OVERFLOW {
        Some(report_stack_overflow(state.gc_phase, address, jit_depth, aot_depth))
    } else {
        None
    }
}

// ----- what happened -----

/// Where a panic was raised.
pub struct PanicLocation {
    pub file: String,
    pub line: u32,
    pub column: u32,
}

/// A collection that could not go on.
pub struct GcStall {
    pub reason: String,
    pub from_gen: String,
    pub dest_gen: String,
    pub attempted_kind: String,
    pub attempted_cells: u64,
    pub free_pages: u64,
    pub g0_pages: u64,
    pub g1_pages: u64,
    pub tenured_pages: u64,
    pub pin_set_size: u64,
    pub reserve_pages: u64,
    pub objects_copied_before_failure: u64,
    pub cells_copied_before_failure: u64,
    pub mark_live_bytes: u64,
    pub mark_live_pages: u64,
    pub zero_live_pages_released: u64,
    pub pages_recycled_mid_evac: u64,
}

/// `t` and where a panic was raised.
pub open spec fn put_location(t: Seq<u8>, location: Option<PanicLocation>) -> Seq<u8> {
    match location {
        Some(l) => put_field(
            put_field(put(put(t, "Rust panic at "@), l.file@), ":"@, l.line as u64, ":"@),
            ""@,
            l.column as u64,
            ""@,
        ),
        None => put(t, "Rust panic (no location)"@),
    }
}

/// `t` and the state of a stalled collection.
pub open spec fn put_stall(t: Seq<u8>, s: GcStall) -> Seq<u8> {
    let t = put(put(t, " | gc-stall reason="@), s.reason@);
    let t = put(put(t, " from="@), s.from_gen@);
    let t = put(put(t, " dest="@), s.dest_gen@);
    let t = put(put(t, " attempted-kind="@), s.attempted_kind@);
    let t = put_number(put(t, " attempted-cells="@), s.attempted_cells);
    let t = put_number(put(t, " pages(free/g0/g1/tenured)="@), s.free_pages);
    let t = put_number(put(t, "/"@), s.g0_pages);
    let t = put_number(put(t, "/"@), s.g1_pages);
    let t = put_number(put(t, "/"@), s.tenured_pages);
    let t = put_number(put(t, " pin-set="@), s.pin_set_size);
    let t = put_number(put(t, " reserve-pages="@), s.reserve_pages);
    let t = put_number(put(t, " copied(objects/cells)="@), s.objects_copied_before_failure);
    let t = put_number(put(t, "/"@), s.cells_copied_before_failure);
    let t = put_number(
        put(t, " mark(live-bytes/live-pages/zero-live-released)="@),
        s.mark_live_bytes,
    );
    let t = put_number(put(t, "/"@), s.mark_live_pages);
    let t = put_number(put(t, "/"@), s.zero_live_pages_released);
    let t = put_number(put(t, " recycled-mid-evac="@), s.pages_recycled_mid_evac);
    t
}

/// Writes the state of a stalled collection.
fn write_stall<const N: usize>(buf: &mut StackBuf<N>, s: &GcStall)
    requires
        old(buf).wf(),
    ensures
        final(buf).wf(),
        forall|t: Seq<u8>| #[trigger] old(buf).holds(t) ==> final(buf).holds(put_stall(t, *s)),
{
    buf.write_str(" | gc-stall reason=");
    buf.write_str(s.reason.as_str());
    buf.write_str(" from=");
    buf.write_str(s.from_gen.as_str());
    buf.write_str(" dest=");
    buf.write_str(s.dest_gen.as_str());
    buf.write_str(" attempted-kind=");
    buf.write_str(s.attempted_kind.as_str());
    buf.write_str(" attempted-cells=");
    buf.write_decimal(s.attempted_cells);
    buf.write_str(" pages(free/g0/g1/tenured)=");
    buf.write_decimal(s.free_pages);
    buf.write_str("/");
    buf.write_decimal(s.g0_pages);
    buf.write_str("/");
    buf.write_decimal(s.g1_pages);
    buf.write_str("/");
    buf.write_decimal(s.tenured_pages);
    buf.write_str(" pin-set=");
    buf.write_decimal(s.pin_set_size);
    buf.write_str(" reserve-pages=");
    buf.write_decimal(s.reserve_pages);
    buf.write_str(" copied(objects/cells)=");
    buf.write_decimal(s.objects_copied_before_failure);
    buf.write_str("/");
    buf.write_decimal(s.cells_copied_before_failure);
    buf.write_str(" mark(live-bytes/live-pages/zero-live-released)=");
    buf.write_decimal(s.mark_live_bytes);
    buf.write_str("/");
    buf.write_decimal(s.mark_live_pages);
    buf.write_str("/");
    buf.write_decimal(s.zero_live_pages_released);
    buf.write_str(" recycled-mid-evac=");
    buf.write_decimal(s.pages_recycled_mid_evac);
}

/// What a report says of a panic: where it was raised, and why the collection
/// stalled if that is what happened.
pub open spec fn panic_info(location: Option<PanicLocation>, stall: Option<GcStall>) -> Seq<u8> {
    let t = put_location(seq![], location);
    match stall {
        Some(s) => put_stall(t, s),
        None => t,
    }
}

/// What to report of a panic. A non-local exit is no crash: nothing is reported
/// of it.
pub fn panic_summary(
    is_nonlocal_exit: bool,
    location: Option<PanicLocation>,
    stall: Option<GcStall>,
) -> (summary: Option<StackBuf<1024>>)
    ensures
        summary is None <==> is_nonlocal_exit,
        summary is Some ==> summary->0.wf() && summary->0.holds(panic_info(location, stall)),
{
    if is_nonlocal_exit {
        return None;
    }
    let mut buf = StackBuf::<1024>::new();
    match &location {
        Some(l) => {
            buf.write_str("Rust panic at ");
            buf.write_str(l.file.as_str());
            write_field(&mut buf, ":", l.line as u64, ":");
            write_field(&mut buf, "", l.column as u64, "");
        },
        None => {
            buf.write_str("Rust panic (no location)");
        },
    }
    if let Some(s) = &stall {
        write_stall(&mut buf, s);
    }
    Some(buf)
}

/// The name of an exception code.
pub open spec fn exception_name(code: u32) -> Seq<char> {
    if code == 0xC000_0005 {
        "EXCEPTION_ACCESS_VIOLATION"@
    } else if code == 0xC000_0006 {
        "EXCEPTION_IN_PAGE_ERROR"@
    } else if code == 0x8000_0003 {
        "EXCEPTION_BREAKPOINT"@
    } else if code == 0x8000_0004 {
        "EXCEPTION_SINGLE_STEP"@
    } else if code == 0xC000_001D {
        "EXCEPTION_ILLEGAL_INSTRUCTION"@
    } else if code == 0xC000_0025 {
        "EXCEPTION_NONCONTINUABLE_EXCEPTION"@
    } else if code == 0xC000_008C {
        "EXCEPTION_ARRAY_BOUNDS_EXCEEDED"@
    } else if code == 0xC000_008D {
        "EXCEPTION_FLT_DENORMAL_OPERAND"@
    } else if code == 0xC000_008E {
        "EXCEPTION_FLT_DIVIDE_BY_ZERO"@
    } else if code == 0xC000_008F {
        "EXCEPTION_FLT_INEXACT_RESULT"@
    } else if code == 0xC000_0090 {
        "EXCEPTION_FLT_INVALID_OPERATION"@
    } else if code == 0xC000_0091 {
        "EXCEPTION_FLT_OVERFLOW"@
    } else if code == 0xC000_0093 {
        "EXCEPTION_FLT_UNDERFLOW"@
    } else if code == 0xC000_0094 {
        "EXCEPTION_INT_DIVIDE_BY_ZERO"@
    } else if code == 0xC000_0095 {
        "EXCEPTION_INT_OVERFLOW"@
    } else if code == 0xC000_0096 {
        "EXCEPTION_PRIV_INSTRUCTION"@
    } else if code == 0xC000_00FD {
        "EXCEPTION_STACK_OVERFLOW"@
    } else {
        "EXCEPTION_UNKNOWN"@
    }
}

/// The name of an exception code.
pub fn exception_code_name(code: u32) -> (s: &'static str)
    ensures
        s@ == exception_name(code),
{
    match code {
        0xC000_0005 => "EXCEPTION_ACCESS_VIOLATION",
        0xC000_0006 => "EXCEPTION_IN_PAGE_ERROR",
        0x8000_0003 => "EXCEPTION_BREAKPOINT",
        0x8000_0004 => "EXCEPTION_SINGLE_STEP",
        0xC000_001D => "EXCEPTION_ILLEGAL_INSTRUCTION",
        0xC000_0025 => "EXCEPTION_NONCONTINUABLE_EXCEPTION",
        0xC000_008C => "EXCEPTION_ARRAY_BOUNDS_EXCEEDED",
        0xC000_008D => "EXCEPTION_FLT_DENORMAL_OPERAND",
        0xC000_008E => "EXCEPTION_FLT_DIVIDE_BY_ZERO",
        0xC000_008F => "EXCEPTION_FLT_INEXACT_RESULT",
        0xC000_0090 => "EXCEPTION_FLT_INVALID_OPERATION",
        0xC000_0091 => "EXCEPTION_FLT_OVERFLOW",
        0xC000_0093 => "EXCEPTION_FLT_UNDERFLOW",
        0xC000_0094 => "EXCEPTION_INT_DIVIDE_BY_ZERO",
        0xC000_0095 => "EXCEPTION_INT_OVERFLOW",
        0xC000_0096 => "EXCEPTION_PRIV_INSTRUCTION",
        0xC000_00FD => "EXCEPTION_STACK_OVERFLOW",
        _ => "EXCEPTION_UNKNOWN",
    }
}

/// What a report says of an exception: its name, its code in eight digits and
/// the address.
pub open spec fn exception_info(code: u32, address: u64) -> Seq<u8> {
    let t = put(seq![], exception_name(code));
    let t = put(put(t, " (code 0x"@), fixed_hex(code as nat, 8));
    put_address(put(t, ") at "@), address)
}

/// What to report of an exception that nobody handled.
pub fn exception_summary(code: u32, address: u64) -> (buf: StackBuf<256>)
    ensures
        buf.wf(),
        buf.holds(exception_info(code, address)),
{
    let mut buf = StackBuf::<256>::new();
    buf.write_str(exception_code_name(code));
    buf.write_str(" (code 0x");
    buf.write_fixed_hex(code as u64, 8);
    buf.write_str(") at ");
    buf.write_str("0x");
    buf.write_hex(address);
    buf
}

// ----- what a report shows -----

/// A text stands in a report.
pub open spec fn shows(report: Seq<u8>, text: Seq<char>) -> bool {
    exists|before: Seq<u8>, after: Seq<u8>|
        report == #[trigger] (before + encode_utf8(text) + after)
}

proof fn put_is_shown(t: Seq<u8>, s: Seq<char>)
    ensures
        shows(put(t, s), s),
        forall|x: Seq<char>| #[trigger] shows(t, x) ==> shows(put(t, s), x),
{
    assert(put(t, s) =~= t + encode_utf8(s) + Seq::<u8>::empty());
    assert forall|x: Seq<char>| #[trigger] shows(t, x) implies shows(put(t, s), x) by {
        shown_stays(t, x, encode_utf8(s));
    }
}

proof fn shown_stays(t: Seq<u8>, x: Seq<char>, more: Seq<u8>)
    requires
        shows(t, x),
    ensures
        shows(t + more, x),
{
    let (before, after) = choose|before: Seq<u8>, after: Seq<u8>|
        t == #[trigger] (before + encode_utf8(x) + after);
    assert(t + more =~= before + encode_utf8(x) + (after + more));
}

/// A labelled number is put out as the label, the digits and the unit.
pub proof fn field_is_shown(t: Seq<u8>, label: Seq<char>, n: u64, unit: Seq<char>)
    ensures
        put_field(t, label, n, unit) == t + encode_utf8(label + decimal_digits(n as nat) + unit),
        shows(put_field(t, label, n, unit), label + decimal_digits(n as nat) + unit),
        forall|x: Seq<char>| #[trigger]
            shows(t, x) ==> shows(put_field(t, label, n, unit), x),
{
    let d = decimal_digits(n as nat);
    encoding_concatenates(label, d);
    encoding_concatenates(label + d, unit);
    assert(put_field(t, label, n, unit) =~= put(t, label + d + unit));
    put_is_shown(t, label + d + unit);
}

/// A pause is put out in nanoseconds and in whole microseconds.
pub proof fn pause_is_shown(t: Seq<u8>, label: Seq<char>, ns: u64)
    ensures
        shows(
            put_pause(t, label, ns),
            label + decimal_digits(ns as nat) + " ns  ("@ + decimal_digits((ns / 1000) as nat)
                + " us)\n"@,
        ),
        forall|x: Seq<char>| #[trigger] shows(t, x) ==> shows(put_pause(t, label, ns), x),
{
    reveal_strlit("");
    let a = label + decimal_digits(ns as nat) + " ns  ("@;
    let b = ""@ + decimal_digits((ns / 1000) as nat) + " us)\n"@;
    field_is_shown(t, label, ns, " ns  ("@);
    let middle = put_field(t, label, ns, " ns  ("@);
    field_is_shown(middle, ""@, (ns / 1000) as u64, " us)\n"@);
    encoding_concatenates(a, b);
    assert(a + b =~= label + decimal_digits(ns as nat) + " ns  ("@ + decimal_digits(
        (ns / 1000) as nat,
    ) + " us)\n"@);
    assert(put_pause(t, label, ns) =~= put(t, a + b));
    put_is_shown(t, a + b);
}

/// Every counter stands in the report behind its own label.
pub proof fn counters_stand_behind_their_labels(t: Seq<u8>, m: GcMetricsSnapshot)
    ensures
        shows(
            put_metrics(t, m),
            "minor collections    : "@ + decimal_digits(m.minor_collections as nat)
                + "\n"@,
        ),
        shows(
            put_metrics(t, m),
            "major collections    : "@ + decimal_digits(m.major_collections as nat)
                + "\n"@,
        ),
        shows(
            put_metrics(t, m),
            "young allocated      : "@ + decimal_digits(m.young_bytes_allocated as nat)
                + " bytes\n"@,
        ),
        shows(
            put_metrics(t, m),
            "young live           : "@ + decimal_digits(m.young_bytes_live as nat)
                + " bytes\n"@,
        ),
        shows(
            put_metrics(t, m),
            "old live             : "@ + decimal_digits(m.old_bytes_live as nat)
                + " bytes\n"@,
        ),
        shows(
            put_metrics(t, m),
            "last minor pause     : "@ + decimal_digits(m.last_minor_pause_ns as nat)
                + " ns  ("@ + decimal_digits((m.last_minor_pause_ns / 1000) as nat)
                + " us)\n"@,
        ),
        shows(
            put_metrics(t, m),
            "last major pause     : "@ + decimal_digits(m.last_major_pause_ns as nat)
                + " ns  ("@ + decimal_digits((m.last_major_pause_ns / 1000) as nat)
                + " us)\n"@,
        ),
        shows(
            put_metrics(t, m),
            "total minor pause    : "@ + decimal_digits(m.total_minor_pause_ns as nat)
                + " ns  ("@ + decimal_digits((m.total_minor_pause_ns / 1000) as nat)
                + " us)\n"@,
        ),
        shows(
            put_metrics(t, m),
            "total major pause    : "@ + decimal_digits(m.total_major_pause_ns as nat)
                + " ns  ("@ + decimal_digits((m.total_major_pause_ns / 1000) as nat)
                + " us)\n"@,
        ),
        shows(
            put_metrics(t, m),
            "roots at last minor  : "@ + decimal_digits(m.roots_at_last_minor as nat)
                + "\n"@,
        ),
        shows(
            put_metrics(t, m),
            "roots at last major  : "@ + decimal_digits(m.roots_at_last_major as nat)
                + "\n"@,
        ),
        shows(
            put_metrics(t, m),
            "bytes promoted       : "@ + decimal_digits(m.bytes_promoted as nat)
                + " bytes\n"@,
        ),
        shows(
            put_metrics(t, m),
            "peak young live      : "@ + decimal_digits(m.peak_young_bytes_live as nat)
                + " bytes\n"@,
        ),
        shows(
            put_metrics(t, m),
            "peak old live        : "@ + decimal_digits(m.peak_old_bytes_live as nat)
                + " bytes\n"@,
        ),
        forall|x: Seq<char>| #[trigger] shows(t, x) ==> shows(put_metrics(t, m), x),
{
    put_is_shown(t, "GC METRICS  (last completed cycle)\n"@);
    let t = put(t, "GC METRICS  (last completed cycle)\n"@);
    field_is_shown(t, "minor collections    : "@, m.minor_collections, "\n"@);
    let t = put_field(t, "minor collections    : "@, m.minor_collections, "\n"@);
    field_is_shown(t, "major collections    : "@, m.major_collections, "\n"@);
    let t = put_field(t, "major collections    : "@, m.major_collections, "\n"@);
    field_is_shown(t, "young allocated      : "@, m.young_bytes_allocated, " bytes\n"@);
    let t = put_field(t, "young allocated      : "@, m.young_bytes_allocated, " bytes\n"@);
    field_is_shown(t, "young live           : "@, m.young_bytes_live, " bytes\n"@);
    let t = put_field(t, "young live           : "@, m.young_bytes_live, " bytes\n"@);
    field_is_shown(t, "old live             : "@, m.old_bytes_live, " bytes\n"@);
    let t = put_field(t, "old live             : "@, m.old_bytes_live, " bytes\n"@);
    pause_is_shown(t, "last minor pause     : "@, m.last_minor_pause_ns);
    let t = put_pause(t, "last minor pause     : "@, m.last_minor_pause_ns);
    pause_is_shown(t, "last major pause     : "@, m.last_major_pause_ns);
    let t = put_pause(t, "last major pause     : "@, m.last_major_pause_ns);
    pause_is_shown(t, "total minor pause    : "@, m.total_minor_pause_ns);
    let t = put_pause(t, "total minor pause    : "@, m.total_minor_pause_ns);
    pause_is_shown(t, "total major pause    : "@, m.total_major_pause_ns);
    let t = put_pause(t, "total major pause    : "@, m.total_major_pause_ns);
    field_is_shown(t, "roots at last minor  : "@, m.roots_at_last_minor, "\n"@);
    let t = put_field(t, "roots at last minor  : "@, m.roots_at_last_minor, "\n"@);
    field_is_shown(t, "roots at last major  : "@, m.roots_at_last_major, "\n"@);
    let t = put_field(t, "roots at last major  : "@, m.roots_at_last_major, "\n"@);
    field_is_shown(t, "bytes promoted       : "@, m.bytes_promoted, " bytes\n"@);
    let t = put_field(t, "bytes promoted       : "@, m.bytes_promoted, " bytes\n"@);
    field_is_shown(t, "peak young live      : "@, m.peak_young_bytes_live, " bytes\n"@);
    let t = put_field(t, "peak young live      : "@, m.peak_young_bytes_live, " bytes\n"@);
    field_is_shown(t, "peak old live        : "@, m.peak_old_bytes_live, " bytes\n"@);
    let t = put_field(t, "peak old live        : "@, m.peak_old_bytes_live, " bytes\n"@);
}

/// What the collector publishes is what it counted, counter by counter.
pub proof fn counters_are_published_one_by_one(s: HeapStatsSnapshot)
    ensures
        published(s).minor_collections == s.minor_collections,
        no_metrics().minor_collections == 0,
        published(s).major_collections == s.major_collections,
        no_metrics().major_collections == 0,
        published(s).young_bytes_allocated == s.young_bytes_allocated,
        no_metrics().young_bytes_allocated == 0,
        published(s).young_bytes_live == s.young_bytes_live,
        no_metrics().young_bytes_live == 0,
        published(s).old_bytes_live == s.old_bytes_live,
        no_metrics().old_bytes_live == 0,
        published(s).last_minor_pause_ns == s.last_minor_pause_ns,
        no_metrics().last_minor_pause_ns == 0,
        published(s).last_major_pause_ns == s.last_major_pause_ns,
        no_metrics().last_major_pause_ns == 0,
        published(s).total_minor_pause_ns == s.total_minor_pause_ns,
        no_metrics().total_minor_pause_ns == 0,
        published(s).total_major_pause_ns == s.total_major_pause_ns,
        no_metrics().total_major_pause_ns == 0,
        published(s).roots_at_last_minor == s.roots_at_last_minor,
        no_metrics().roots_at_last_minor == 0,
        published(s).roots_at_last_major == s.roots_at_last_major,
        no_metrics().roots_at_last_major == 0,
        published(s).bytes_promoted == s.bytes_promoted,
        no_metrics().bytes_promoted == 0,
        published(s).peak_young_bytes_live == s.peak_young_bytes_live,
        no_metrics().peak_young_bytes_live == 0,
        published(s).peak_old_bytes_live == s.peak_old_bytes_live,
        no_metrics().peak_old_bytes_live == 0,
{
}

/// A crash report shows what happened, the collector's phase, its counters and the depth of
/// both kinds of safepoint.
pub proof fn crash_reports_show_everything(
    state: CrashState,
    what: Seq<char>,
    jit_depth: u64,
    aot_depth: u64,
)
    requires
        encode_utf8(what).len() > 0,
    ensures
        ({
            let r = crash_report(state, encode_utf8(what), jit_depth, aot_depth);
            &&& shows(r, "  exception            : "@ + what + "\n"@)
            &&& shows(r, "  gc phase             : "@ + phase_text(state.gc_phase) + "\n"@)
            &&& shows(
                r,
                "minor collections    : "@ + decimal_digits(state.metrics.minor_collections as nat)
                    + "\n"@,
            )
            &&& shows(r, "JIT active frames    : "@ + decimal_digits(jit_depth as nat) + "\n"@)
            &&& shows(r, "AOT active frames    : "@ + decimal_digits(aot_depth as nat) + "\n"@)
        }),
{
    let t = put(seq![], "\n"@);
    let t = put(t, rule());
    let t = put(t, "=== NOD CRASH DUMP ==========================================\n"@);
    let t = put(t, rule());
    line_is_shown(t, "  exception            : "@, what, "\n"@);
    let t = put(put(t, "  exception            : "@) + encode_utf8(what), "\n"@);
    line_is_shown(t, "  gc phase             : "@, phase_text(state.gc_phase), "\n"@);
    let t = put(put(put(t, "  gc phase             : "@), phase_text(state.gc_phase)), "\n"@);
    put_is_shown(t, thin_rule());
    let t = put(t, thin_rule());
    counters_stand_behind_their_labels(t, state.metrics);
    let t = put_metrics(t, state.metrics);
    put_is_shown(t, thin_rule());
    let t = put(t, thin_rule());
    put_is_shown(t, "SAFEPOINT STATE  (faulting thread)\n"@);
    let t = put(t, "SAFEPOINT STATE  (faulting thread)\n"@);
    field_is_shown(t, "JIT active frames    : "@, jit_depth, "\n"@);
    let t = put_field(t, "JIT active frames    : "@, jit_depth, "\n"@);
    field_is_shown(t, "AOT active frames    : "@, aot_depth, "\n"@);
    let t = put_field(t, "AOT active frames    : "@, aot_depth, "\n"@);
    put_is_shown(t, rule());
    put_is_shown(put(t, rule()), "\n"@);
}

proof fn line_is_shown(t: Seq<u8>, label: Seq<char>, text: Seq<char>, end: Seq<char>)
    ensures
        put(put(put(t, label), text), end) == t + encode_utf8(label + text + end),
        shows(put(put(put(t, label), text), end), label + text + end),
        forall|x: Seq<char>| #[trigger]
            shows(t, x) ==> shows(put(put(put(t, label), text), end), x),
{
    encoding_concatenates(label, text);
    encoding_concatenates(label + text, end);
    assert(put(put(put(t, label), text), end) =~= put(t, label + text + end));
    put_is_shown(t, label + text + end);
}

/// The phase is told apart in both reports.
pub proof fn phases_are_told_apart(phase: u8)
    ensures
        phase == 1 ==> phase_text(phase)
            == "MINOR GC IN PROGRESS  (metrics show last completed cycle)"@
            && brief_phase_text(phase) == "MINOR GC in progress"@,
        phase == 2 ==> phase_text(phase)
            == "MAJOR GC IN PROGRESS  (metrics show last completed cycle)"@
            && brief_phase_text(phase) == "MAJOR GC in progress"@,
        phase != 1 && phase != 2 ==> phase_text(phase) == "idle"@ && brief_phase_text(phase)
            == "idle (mutator)"@,
{
}

/// The report of a stack overflow shows the address, the phase and the depth of both kinds of
/// safepoint.
pub proof fn overflow_reports_show_everything(
    gc_phase: u8,
    address: u64,
    jit_depth: u64,
    aot_depth: u64,
)
    ensures
        ({
            let r = overflow_report(gc_phase, address, jit_depth, aot_depth);
            &&& shows(
                r,
                "  EXCEPTION_STACK_OVERFLOW (code 0xc00000fd) at "@ + "0x"@ + hex_digits(
                    address as nat,
                ),
            )
            &&& shows(r, brief_phase_text(gc_phase))
            &&& shows(r, "\n  AOT safepoint frames : "@ + decimal_digits(aot_depth as nat) + "\n"@)
            &&& shows(r, "  JIT safepoint frames : "@ + decimal_digits(jit_depth as nat) + "\n"@)
        }),
{
    let t = put(seq![], "\n"@);
    let t = put(t, rule());
    let t = put(t, "=== NOD CRASH DUMP: STACK OVERFLOW =========================\n"@);
    let t = put(t, rule());
    line_is_shown(
        t,
        "  EXCEPTION_STACK_OVERFLOW (code 0xc00000fd) at "@,
        "0x"@,
        hex_digits(address as nat),
    );
    let t = put(t, "  EXCEPTION_STACK_OVERFLOW (code 0xc00000fd) at "@);
    let t = put_address(t, address);
    put_is_shown(t, "\n  gc phase             : "@);
    let t = put(t, "\n  gc phase             : "@);
    put_is_shown(t, brief_phase_text(gc_phase));
    let t = put(t, brief_phase_text(gc_phase));
    field_is_shown(t, "\n  AOT safepoint frames : "@, aot_depth, "\n"@);
    let t = put_field(t, "\n  AOT safepoint frames : "@, aot_depth, "\n"@);
    field_is_shown(t, "  JIT safepoint frames : "@, jit_depth, "\n"@);
    let t = put_field(t, "  JIT safepoint frames : "@, jit_depth, "\n"@);
    let note = "  note                 : a thread exhausted its stack. A frame with a\n"@;
    put_is_shown(t, note);
    let t = put(t, note);
    let note =
        "                         huge/looping alloca is the usual cause (a loop-body alloca leaks\n"@;
    put_is_shown(t, note);
    let t = put(t, note);
    let note =
        "                         stack every iteration at -O0; hoist it to the entry block).\n"@;
    put_is_shown(t, note);
    let t = put(t, note);
    put_is_shown(t, rule());
    put_is_shown(put(t, rule()), "\n"@);
}

/// What is said of an exception is its name, its code in eight digits and the address.
pub proof fn exceptions_are_named_with_code_and_address(code: u32, address: u64)
    ensures
        exception_info(code, address) == encode_utf8(
            exception_name(code) + " (code 0x"@ + fixed_hex(code as nat, 8) + ") at "@ + "0x"@
                + hex_digits(address as nat),
        ),
{
    let a = exception_name(code);
    let b = a + " (code 0x"@;
    let c = b + fixed_hex(code as nat, 8);
    let d = c + ") at "@;
    let e = d + "0x"@;
    encoding_concatenates(a, " (code 0x"@);
    encoding_concatenates(b, fixed_hex(code as nat, 8));
    encoding_concatenates(c, ") at "@);
    encoding_concatenates(d, "0x"@);
    encoding_concatenates(e, hex_digits(address as nat));
    assert(exception_info(code, address) =~= encode_utf8(e + hex_digits(address as nat)));
}

/// What is said of a panic is where it was raised, and what is said of a stall follows.
pub proof fn panics_are_told_with_their_place(l: PanicLocation, stall: Option<GcStall>)
    ensures
        ({
            let place = "Rust panic at "@ + l.file@ + (":"@ + decimal_digits(l.line as nat)
                + ":"@) + (""@ + decimal_digits(l.column as nat) + ""@);
            &&& panic_info(Some(l), None) == encode_utf8(place)
            &&& stall is Some ==> panic_info(Some(l), stall) == put_stall(
                encode_utf8(place),
                stall->0,
            )
        }),
        panic_info(None, None) == encode_utf8("Rust panic (no location)"@),
{
    let a = "Rust panic at "@ + l.file@;
    let b = ":"@ + decimal_digits(l.line as nat) + ":"@;
    let c = ""@ + decimal_digits(l.column as nat) + ""@;
    let t = put(put(seq![], "Rust panic at "@), l.file@);
    encoding_concatenates("Rust panic at "@, l.file@);
    assert(t =~= encode_utf8(a));
    field_is_shown(t, ":"@, l.line as u64, ":"@);
    let u = put_field(t, ":"@, l.line as u64, ":"@);
    encoding_concatenates(a, b);
    assert(u =~= encode_utf8(a + b));
    field_is_shown(u, ""@, l.column as u64, ""@);
    encoding_concatenates(a + b, c);
    assert(put_location(seq![], Some(l)) =~= encode_utf8(a + b + c));
    assert(put_location(seq![], None) =~= encode_utf8("Rust panic (no location)"@));
}

proof fn part_is_shown(t: Seq<u8>, front: Seq<char>, label: Seq<char>, value: Seq<char>)
    ensures
        t + encode_utf8(front) + encode_utf8(label) + encode_utf8(value) == t + encode_utf8(
            front + label + value,
        ),
        shows(t + encode_utf8(front + label + value), front + label + value),
        forall|x: Seq<char>| #[trigger]
            shows(t, x) ==> shows(t + encode_utf8(front + label + value), x),
{
    encoding_concatenates(front, label);
    encoding_concatenates(front + label, value);
    assert(t + encode_utf8(front) + encode_utf8(label) + encode_utf8(value) =~= t + encode_utf8(
        front + label + value,
    ));
    put_is_shown(t, front + label + value);
}

/// What is said of a stalled collection names everything behind its own label.
pub proof fn stalls_are_told_behind_their_labels(t: Seq<u8>, s: GcStall)
    ensures
        shows(put_stall(t, s), " | gc-stall reason="@ + s.reason@),
        shows(put_stall(t, s), " from="@ + s.from_gen@),
        shows(put_stall(t, s), " dest="@ + s.dest_gen@),
        shows(put_stall(t, s), " attempted-kind="@ + s.attempted_kind@),
        shows(put_stall(t, s), " attempted-cells="@ + decimal_digits(s.attempted_cells as nat)),
        shows(
            put_stall(t, s),
            " pages(free/g0/g1/tenured)="@ + decimal_digits(s.free_pages as nat)
                + "/"@ + decimal_digits(s.g0_pages as nat)
                + "/"@ + decimal_digits(s.g1_pages as nat)
                + "/"@ + decimal_digits(s.tenured_pages as nat),
        ),
        shows(put_stall(t, s), " pin-set="@ + decimal_digits(s.pin_set_size as nat)),
        shows(put_stall(t, s), " reserve-pages="@ + decimal_digits(s.reserve_pages as nat)),
        shows(
            put_stall(t, s),
            " copied(objects/cells)="@ + decimal_digits(s.objects_copied_before_failure as nat)
                + "/"@ + decimal_digits(s.cells_copied_before_failure as nat),
        ),
        shows(
            put_stall(t, s),
            " mark(live-bytes/live-pages/zero-live-released)="@ + decimal_digits(s.mark_live_bytes as nat)
                + "/"@ + decimal_digits(s.mark_live_pages as nat)
                + "/"@ + decimal_digits(s.zero_live_pages_released as nat),
        ),
        shows(
            put_stall(t, s),
            " recycled-mid-evac="@ + decimal_digits(s.pages_recycled_mid_evac as nat),
        ),
{
    part_is_shown(t, Seq::empty(), " | gc-stall reason="@, s.reason@);
    let t0 = t;
    let t = put(put(t, " | gc-stall reason="@), s.reason@);
    part_is_shown(t, Seq::empty(), " from="@, s.from_gen@);
    let t0 = t;
    let t = put(put(t, " from="@), s.from_gen@);
    part_is_shown(t, Seq::empty(), " dest="@, s.dest_gen@);
    let t0 = t;
    let t = put(put(t, " dest="@), s.dest_gen@);
    part_is_shown(t, Seq::empty(), " attempted-kind="@, s.attempted_kind@);
    let t0 = t;
    let t = put(put(t, " attempted-kind="@), s.attempted_kind@);
    part_is_shown(t, Seq::empty(), " attempted-cells="@, decimal_digits(s.attempted_cells as nat));
    let t0 = t;
    let t = put_number(put(t, " attempted-cells="@), s.attempted_cells);
    part_is_shown(
        t,
        Seq::empty(),
        " pages(free/g0/g1/tenured)="@,
        decimal_digits(s.free_pages as nat),
    );
    let t0 = t;
    let t = put_number(put(t, " pages(free/g0/g1/tenured)="@), s.free_pages);
    part_is_shown(
        t0,
        " pages(free/g0/g1/tenured)="@ + decimal_digits(s.free_pages as nat),
        "/"@,
        decimal_digits(s.g0_pages as nat),
    );
    let t = put_number(put(t, "/"@), s.g0_pages);
    part_is_shown(
        t0,
        " pages(free/g0/g1/tenured)="@ + decimal_digits(s.free_pages as nat)
            + "/"@ + decimal_digits(s.g0_pages as nat),
        "/"@,
        decimal_digits(s.g1_pages as nat),
    );
    let t = put_number(put(t, "/"@), s.g1_pages);
    part_is_shown(
        t0,
        " pages(free/g0/g1/tenured)="@ + decimal_digits(s.free_pages as nat)
            + "/"@ + decimal_digits(s.g0_pages as nat)
            + "/"@ + decimal_digits(s.g1_pages as nat),
        "/"@,
        decimal_digits(s.tenured_pages as nat),
    );
    let t = put_number(put(t, "/"@), s.tenured_pages);
    part_is_shown(t, Seq::empty(), " pin-set="@, decimal_digits(s.pin_set_size as nat));
    let t0 = t;
    let t = put_number(put(t, " pin-set="@), s.pin_set_size);
    part_is_shown(t, Seq::empty(), " reserve-pages="@, decimal_digits(s.reserve_pages as nat));
    let t0 = t;
    let t = put_number(put(t, " reserve-pages="@), s.reserve_pages);
    part_is_shown(
        t,
        Seq::empty(),
        " copied(objects/cells)="@,
        decimal_digits(s.objects_copied_before_failure as nat),
    );
    let t0 = t;
    let t = put_number(put(t, " copied(objects/cells)="@), s.objects_copied_before_failure);
    part_is_shown(
        t0,
        " copied(objects/cells)="@ + decimal_digits(s.objects_copied_before_failure as nat),
        "/"@,
        decimal_digits(s.cells_copied_before_failure as nat),
    );
    let t = put_number(put(t, "/"@), s.cells_copied_before_failure);
    part_is_shown(
        t,
        Seq::empty(),
        " mark(live-bytes/live-pages/zero-live-released)="@,
        decimal_digits(s.mark_live_bytes as nat),
    );
    let t0 = t;
    let t = put_number(put(t, " mark(live-bytes/live-pages/zero-live-released)="@), s.mark_live_bytes);
    part_is_shown(
        t0,
        " mark(live-bytes/live-pages/zero-live-released)="@ + decimal_digits(s.mark_live_bytes as nat),
        "/"@,
        decimal_digits(s.mark_live_pages as nat),
    );
    let t = put_number(put(t, "/"@), s.mark_live_pages);
    part_is_shown(
        t0,
        " mark(live-bytes/live-pages/zero-live-released)="@ + decimal_digits(s.mark_live_bytes as nat)
            + "/"@ + decimal_digits(s.mark_live_pages as nat),
        "/"@,
        decimal_digits(s.zero_live_pages_released as nat),
    );
    let t = put_number(put(t, "/"@), s.zero_live_pages_released);
    part_is_shown(
        t,
        Seq::empty(),
        " recycled-mid-evac="@,
        decimal_digits(s.pages_recycled_mid_evac as nat),
    );
    let t0 = t;
    let t = put_number(put(t, " recycled-mid-evac="@), s.pages_recycled_mid_evac);
}


/// The exception codes have their names; any other code is unknown.
pub proof fn codes_have_their_names(code: u32)
    ensures
        code == 0xC000_0005 ==> exception_name(code) == "EXCEPTION_ACCESS_VIOLATION"@,
        code == 0xC000_0006 ==> exception_name(code) == "EXCEPTION_IN_PAGE_ERROR"@,
        code == 0x8000_0003 ==> exception_name(code) == "EXCEPTION_BREAKPOINT"@,
        code == 0x8000_0004 ==> exception_name(code) == "EXCEPTION_SINGLE_STEP"@,
        code == 0xC000_001D ==> exception_name(code) == "EXCEPTION_ILLEGAL_INSTRUCTION"@,
        code == 0xC000_0025 ==> exception_name(code) == "EXCEPTION_NONCONTINUABLE_EXCEPTION"@,
        code == 0xC000_008C ==> exception_name(code) == "EXCEPTION_ARRAY_BOUNDS_EXCEEDED"@,
        code == 0xC000_008D ==> exception_name(code) == "EXCEPTION_FLT_DENORMAL_OPERAND"@,
        code == 0xC000_008E ==> exception_name(code) == "EXCEPTION_FLT_DIVIDE_BY_ZERO"@,
        code == 0xC000_008F ==> exception_name(code) == "EXCEPTION_FLT_INEXACT_RESULT"@,
        code == 0xC000_0090 ==> exception_name(code) == "EXCEPTION_FLT_INVALID_OPERATION"@,
        code == 0xC000_0091 ==> exception_name(code) == "EXCEPTION_FLT_OVERFLOW"@,
        code == 0xC000_0093 ==> exception_name(code) == "EXCEPTION_FLT_UNDERFLOW"@,
        code == 0xC000_0094 ==> exception_name(code) == "EXCEPTION_INT_DIVIDE_BY_ZERO"@,
        code == 0xC000_0095 ==> exception_name(code) == "EXCEPTION_INT_OVERFLOW"@,
        code == 0xC000_0096 ==> exception_name(code) == "EXCEPTION_PRIV_INSTRUCTION"@,
        code == 0xC000_00FD ==> exception_name(code) == "EXCEPTION_STACK_OVERFLOW"@,
        code != 0xC000_0005
            && code != 0xC000_0006
            && code != 0x8000_0003
            && code != 0x8000_0004
            && code != 0xC000_001D
            && code != 0xC000_0025
            && code != 0xC000_008C
            && code != 0xC000_008D
            && code != 0xC000_008E
            && code != 0xC000_008F
            && code != 0xC000_0090
            && code != 0xC000_0091
            && code != 0xC000_0093
            && code != 0xC000_0094
            && code != 0xC000_0095
            && code != 0xC000_0096
            && code != 0xC000_00FD
            ==> exception_name(code) == "EXCEPTION_UNKNOWN"@,
{
}

} // verus!
