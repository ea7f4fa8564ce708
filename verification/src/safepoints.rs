//! Safepoints of compiled code.
//!
//! Compiled code announces a safepoint before it calls out and takes it back
//! afterwards. While a safepoint is active, the word slots it names are roots.
//! The descriptors of all safepoints of an image are registered at startup; in
//! verification mode each announcement is held against its descriptor and
//! against the number of roots.

use vstd::prelude::*;
use vstd::string::*;

use crate::text::{decimal_digits, decimal_unsigned};

verus! {

/// The descriptor of one safepoint of an image.
pub struct AotSafepointEntry {
    pub site_id: u64,
    pub kind_tag: u8,
    pub computation_index: u64,
    pub root_count: u64,
    pub section_label: String,
    pub patchpoint_label: String,
    pub function: String,
    pub block_label: String,
}

/// What an `AotSafepointEntry` says.
#[verifier::ext_equal]
pub struct EntryView {
    pub site_id: u64,
    pub kind_tag: u8,
    pub computation_index: u64,
    pub root_count: u64,
    pub section_label: Seq<char>,
    pub patchpoint_label: Seq<char>,
    pub function: Seq<char>,
    pub block_label: Seq<char>,
}

impl View for AotSafepointEntry {
    type V = EntryView;

    open spec fn view(&self) -> EntryView {
        EntryView {
            site_id: self.site_id,
            kind_tag: self.kind_tag,
            computation_index: self.computation_index,
            root_count: self.root_count,
            section_label: self.section_label@,
            patchpoint_label: self.patchpoint_label@,
            function: self.function@,
            block_label: self.block_label@,
        }
    }
}

/// The descriptors as views.
pub open spec fn entry_views(entries: Seq<AotSafepointEntry>) -> Seq<EntryView> {
    Seq::new(entries.len(), |i: int| entries[i]@)
}

/// No two descriptors share a site.
pub open spec fn distinct_sites(entries: Seq<EntryView>) -> bool {
    forall|i: int, j: int|
        0 <= i < j < entries.len() ==> (#[trigger] entries[i]).site_id != (
        #[trigger] entries[j]).site_id
}

/// The registered descriptors.
pub struct SafepointRegistry {
    entries: Vec<AotSafepointEntry>,
}

impl View for SafepointRegistry {
    type V = Seq<EntryView>;

    closed spec fn view(&self) -> Seq<EntryView> {
        entry_views(self.entries@)
    }
}

/// Position of the first descriptor of a site at or after `i`.
pub open spec fn site_from(entries: Seq<EntryView>, site: u64, i: int) -> Option<int>
    decreases entries.len() - i,
{
    if i < 0 || i >= entries.len() {
        None
    } else if entries[i].site_id == site {
        Some(i)
    } else {
        site_from(entries, site, i + 1)
    }
}

/// The descriptor of a site.
pub open spec fn site_entry(entries: Seq<EntryView>, site: u64) -> Option<EntryView> {
    match site_from(entries, site, 0) {
        Some(i) => Some(entries[i]),
        None => None,
    }
}

impl SafepointRegistry {
    /// No descriptors.
    pub fn new() -> (r: SafepointRegistry)
        ensures
            r@ == Seq::<EntryView>::empty(),
    {
        let r = SafepointRegistry { entries: Vec::new() };
        assert(r@ =~= Seq::<EntryView>::empty());
        r
    }

    /// The number of registered descriptors.
    pub fn registered_aot_safepoint_count(&self) -> (n: usize)
        ensures
            n == self@.len(),
    {
        self.entries.len()
    }

    fn find(&self, site: u64) -> (e: Option<&AotSafepointEntry>)
        ensures
            e is Some <==> site_entry(self@, site) is Some,
            e is Some ==> e->0@ == site_entry(self@, site)->0,
    {
        let mut i: usize = 0;
        while i < self.entries.len()
            invariant
                i <= self.entries.len(),
                site_from(self@, site, 0) == site_from(self@, site, i as int),
            decreases self.entries.len() - i,
        {
            assert(self@[i as int] == self.entries@[i as int]@);
            if self.entries[i].site_id == site {
                return Some(&self.entries[i]);
            }
            i += 1;
        }
        None
    }
}

/// A site that a list of descriptors names twice.
pub fn duplicate_site(entries: &Vec<AotSafepointEntry>) -> (site: Option<u64>)
    ensures
        site is None <==> distinct_sites(entry_views(entries@)),
        site is Some ==> exists|i: int, j: int|
            0 <= i < j < entries@.len() && (#[trigger] entries@[i]).site_id == site->0 && (
            #[trigger] entries@[j]).site_id == site->0,
{
    let ghost es = entry_views(entries@);
    let mut j: usize = 0;
    while j < entries.len()
        invariant
            j <= entries.len(),
            es == entry_views(entries@),
            forall|a: int, b: int|
                0 <= a < b < j ==> (#[trigger] es[a]).site_id != (#[trigger] es[b]).site_id,
        decreases entries.len() - j,
    {
        let mut i: usize = 0;
        while i < j
            invariant
                i <= j < entries.len(),
                es == entry_views(entries@),
                forall|a: int| 0 <= a < i ==> (#[trigger] es[a]).site_id != es[j as int].site_id,
            decreases j - i,
        {
            assert(es[i as int] == entries@[i as int]@ && es[j as int] == entries@[j as int]@);
            if entries[i].site_id == entries[j].site_id {
                return Some(entries[i].site_id);
            }
            i += 1;
        }
        j += 1;
    }
    None
}

/// Replaces the registered descriptors by those of an image.
pub fn nod_aot_register_safepoints(
    registry: &mut SafepointRegistry,
    entries: Vec<AotSafepointEntry>,
)
    requires
        distinct_sites(entry_views(entries@)),
    ensures
        final(registry)@ == entry_views(entries@),
{
    registry.entries = entries;
}

// ----- active safepoints -----

/// An announced safepoint.
#[derive(Clone, Copy, PartialEq, Eq, Structural, Debug)]
pub struct ActiveAotSafepoint {
    pub site_id: u64,
    pub expected_root_count: usize,
    /// The number of roots when it was announced.
    pub baseline_root_count: usize,
    /// Address of the first root slot.
    pub slot_base: u64,
}

/// The announced safepoints of one thread, innermost last.
pub struct ActiveSafepoints {
    pub frames: Vec<ActiveAotSafepoint>,
}

impl View for ActiveSafepoints {
    type V = Seq<ActiveAotSafepoint>;

    open spec fn view(&self) -> Seq<ActiveAotSafepoint> {
        self.frames@
    }
}

/// The number of roots that active safepoints name.
pub open spec fn active_root_total(frames: Seq<ActiveAotSafepoint>) -> int
    decreases frames.len(),
{
    if frames.len() == 0 {
        0
    } else {
        active_root_total(frames.drop_last()) + frames.last().expected_root_count
    }
}

/// The addresses of the root slots of active safepoints, outermost first.
pub open spec fn active_roots(frames: Seq<ActiveAotSafepoint>) -> Seq<u64>
    decreases frames.len(),
{
    if frames.len() == 0 {
        seq![]
    } else {
        active_roots(frames.drop_last()) + Seq::new(
            frames.last().expected_root_count as nat,
            |i: int| (frames.last().slot_base + 8 * i) as u64,
        )
    }
}

/// The root slots of every active safepoint lie inside the address space.
pub open spec fn slots_addressable(frames: Seq<ActiveAotSafepoint>) -> bool {
    forall|k: int|
        0 <= k < frames.len() ==> (#[trigger] frames[k]).slot_base + 8
            * frames[k].expected_root_count <= u64::MAX
}

/// There is one root address for each root.
pub proof fn active_roots_counted(frames: Seq<ActiveAotSafepoint>)
    ensures
        active_roots(frames).len() == active_root_total(frames),
        active_root_total(frames) >= 0,
    decreases frames.len(),
{
    if frames.len() > 0 {
        active_roots_counted(frames.drop_last());
    }
}

impl ActiveSafepoints {
    /// No announced safepoint.
    pub fn new() -> (a: ActiveSafepoints)
        ensures
            a@ == Seq::<ActiveAotSafepoint>::empty(),
    {
        ActiveSafepoints { frames: Vec::new() }
    }

    /// The number of announced safepoints.
    pub fn active_aot_safepoint_depth(&self) -> (n: usize)
        ensures
            n == self@.len(),
    {
        self.frames.len()
    }

    /// The innermost safepoint.
    pub fn innermost(&self) -> (frame: Option<ActiveAotSafepoint>)
        ensures
            frame == if self@.len() > 0 {
                Some(self@.last())
            } else {
                None::<ActiveAotSafepoint>
            },
    {
        if self.frames.len() > 0 {
            Some(self.frames[self.frames.len() - 1])
        } else {
            None
        }
    }

    /// Takes back every safepoint beyond the first `depth`.
    pub fn truncate_active_aot_safepoints(&mut self, depth: usize)
        ensures
            final(self)@ == if old(self)@.len() > depth {
                old(self)@.take(depth as int)
            } else {
                old(self)@
            },
    {
        if self.frames.len() > depth {
            self.frames.truncate(depth);
        }
    }

    /// The addresses of all root slots, outermost safepoint first.
    pub fn snapshot_active_aot_roots(&self) -> (roots: Vec<u64>)
        requires
            slots_addressable(self@),
        ensures
            roots@ == active_roots(self@),
    {
        let mut roots: Vec<u64> = Vec::new();
        let mut k: usize = 0;
        assert(self@.take(0) =~= seq![]);
        while k < self.frames.len()
            invariant
                k <= self.frames.len(),
                slots_addressable(self@),
                roots@ == active_roots(self@.take(k as int)),
            decreases self.frames.len() - k,
        {
            let frame = self.frames[k];
            let ghost before = roots@;
            assert(self@[k as int] == frame);
            let mut i: usize = 0;
            assert(roots@ =~= before + Seq::new(0, |i: int| (frame.slot_base + 8 * i) as u64));
            while i < frame.expected_root_count
                invariant
                    i <= frame.expected_root_count,
                    frame.slot_base + 8 * frame.expected_root_count <= u64::MAX,
                    roots@ == before + Seq::new(
                        i as nat,
                        |i: int| (frame.slot_base + 8 * i) as u64,
                    ),
                decreases frame.expected_root_count - i,
            {
                roots.push(frame.slot_base + 8 * (i as u64));
                assert(roots@ =~= before + Seq::new(
                    (i + 1) as nat,
                    |i: int| (frame.slot_base + 8 * i) as u64,
                ));
                i += 1;
            }
            assert(self@.take(k + 1).drop_last() =~= self@.take(k as int));
            k += 1;
        }
        assert(self@.take(k as int) =~= self@);
        roots
    }

    /// The number of roots that the active safepoints name.
    pub fn root_total(&self) -> (n: usize)
        requires
            active_root_total(self@) <= usize::MAX,
        ensures
            n == active_root_total(self@),
    {
        let mut n: usize = 0;
        let mut k: usize = 0;
        assert(self@.take(0) =~= seq![]);
        while k < self.frames.len()
            invariant
                k <= self.frames.len(),
                n == active_root_total(self@.take(k as int)),
                active_root_total(self@) <= usize::MAX,
            decreases self.frames.len() - k,
        {
            proof {
                root_total_of_prefix(self@, k + 1);
                assert(self@.take(k + 1).drop_last() =~= self@.take(k as int));
            }
            n = n + self.frames[k].expected_root_count;
            k += 1;
        }
        assert(self@.take(k as int) =~= self@);
        n
    }
}

proof fn root_total_of_prefix(frames: Seq<ActiveAotSafepoint>, k: int)
    requires
        0 <= k <= frames.len(),
    ensures
        active_root_total(frames.take(k)) <= active_root_total(frames),
    decreases frames.len() - k,
{
    if k < frames.len() {
        root_total_of_prefix(frames, k + 1);
        assert(frames.take(k + 1).drop_last() =~= frames.take(k));
    } else {
        assert(frames.take(k) =~= frames);
    }
}

// ----- the protocol -----

/// A violation of the safepoint protocol.
#[derive(Debug)]
pub enum SafepointFault {
    UnknownSite { site_id: u64 },
    RootCountTooLarge { site_id: u64 },
    RootCountMismatch { site_id: u64, patchpoint: String, registered: u64, emitted: u64 },
    StackEmpty,
    StackEmptyAtVerify,
    StackEmptyAtEnd,
    VerifyMismatch { top: u64, requested: u64 },
    EndMismatch { top: u64, requested: u64 },
    RootsDiffer { site_id: u64, found: u64, expected: u64, baseline: u64, patchpoint: String },
    RootsLost { site_id: u64, current: u64, baseline: u64, expected: u64, patchpoint: String },
    RootsLeaked { site_id: u64, current: u64, baseline: u64, patchpoint: String },
}

impl SafepointFault {
    /// The text of the fault.
    pub open spec fn text(self) -> Seq<char> {
        match self {
            SafepointFault::UnknownSite { site_id } => "unknown AOT safepoint site "@
                + decimal_digits(site_id as nat),
            SafepointFault::RootCountTooLarge { site_id } => "AOT safepoint "@ + decimal_digits(
                site_id as nat,
            ) + " root count does not fit usize"@,
            SafepointFault::RootCountMismatch { site_id, patchpoint, registered, emitted } =>
            "AOT safepoint "@ + decimal_digits(site_id as nat) + " ("@ + patchpoint@ + ") expected "@
                + decimal_digits(registered as nat) + " roots but codegen emitted "@
                + decimal_digits(emitted as nat),
            SafepointFault::StackEmpty => "AOT safepoint stack empty"@,
            SafepointFault::StackEmptyAtVerify => "AOT safepoint stack empty at verify"@,
            SafepointFault::StackEmptyAtEnd => "AOT safepoint stack empty at end"@,
            SafepointFault::VerifyMismatch { top, requested } =>
            "AOT safepoint stack mismatch: top site "@ + decimal_digits(top as nat)
                + " but verify requested "@ + decimal_digits(requested as nat),
            SafepointFault::EndMismatch { top, requested } =>
            "AOT safepoint stack mismatch: top site "@ + decimal_digits(top as nat)
                + " but end requested "@ + decimal_digits(requested as nat),
            SafepointFault::RootsDiffer { site_id, found, expected, baseline, patchpoint } =>
            "AOT safepoint "@ + decimal_digits(site_id as nat) + " registered "@ + decimal_digits(
                found as nat,
            ) + " roots; expected "@ + decimal_digits(expected as nat) + " (baseline "@
                + decimal_digits(baseline as nat) + ", patchpoint "@ + patchpoint@ + ")"@,
            SafepointFault::RootsLost { site_id, current, baseline, expected, patchpoint } =>
            "AOT safepoint "@ + decimal_digits(site_id as nat)
                + " lost active roots before end: current "@ + decimal_digits(current as nat)
                + " baseline "@ + decimal_digits(baseline as nat) + " expected "@ + decimal_digits(
                expected as nat,
            ) + " (patchpoint "@ + patchpoint@ + ")"@,
            SafepointFault::RootsLeaked { site_id, current, baseline, patchpoint } =>
            "AOT safepoint "@ + decimal_digits(site_id as nat)
                + " leaked roots after end: current "@ + decimal_digits(current as nat)
                + " baseline "@ + decimal_digits(baseline as nat) + " (patchpoint "@ + patchpoint@
                + ")"@,
        }
    }

    /// Describes the fault.
    pub fn message(&self) -> (s: String)
        ensures
            s@ == self.text(),
    {
        match self {
            SafepointFault::UnknownSite { site_id } => {
                let mut s = String::from_str("unknown AOT safepoint site ");
                s.append(decimal_unsigned(*site_id).as_str());
                s
            },
            SafepointFault::RootCountTooLarge { site_id } => {
                let mut s = String::from_str("AOT safepoint ");
                s.append(decimal_unsigned(*site_id).as_str());
                s.append(" root count does not fit usize");
                s
            },
            SafepointFault::RootCountMismatch { site_id, patchpoint, registered, emitted } => {
                let mut s = String::from_str("AOT safepoint ");
                s.append(decimal_unsigned(*site_id).as_str());
                s.append(" (");
                s.append(patchpoint.as_str());
                s.append(") expected ");
                s.append(decimal_unsigned(*registered).as_str());
                s.append(" roots but codegen emitted ");
                s.append(decimal_unsigned(*emitted).as_str());
                s
            },
            SafepointFault::StackEmpty => String::from_str("AOT safepoint stack empty"),
            SafepointFault::StackEmptyAtVerify => {
                String::from_str("AOT safepoint stack empty at verify")
            },
            SafepointFault::StackEmptyAtEnd => String::from_str("AOT safepoint stack empty at end"),
            SafepointFault::VerifyMismatch { top, requested } => {
                let mut s = String::from_str("AOT safepoint stack mismatch: top site ");
                s.append(decimal_unsigned(*top).as_str());
                s.append(" but verify requested ");
                s.append(decimal_unsigned(*requested).as_str());
                s
            },
            SafepointFault::EndMismatch { top, requested } => {
                let mut s = String::from_str("AOT safepoint stack mismatch: top site ");
                s.append(decimal_unsigned(*top).as_str());
                s.append(" but end requested ");
                s.append(decimal_unsigned(*requested).as_str());
                s
            },
            SafepointFault::RootsDiffer { site_id, found, expected, baseline, patchpoint } => {
                let mut s = String::from_str("AOT safepoint ");
                s.append(decimal_unsigned(*site_id).as_str());
                s.append(" registered ");
                s.append(decimal_unsigned(*found).as_str());
                s.append(" roots; expected ");
                s.append(decimal_unsigned(*expected).as_str());
                s.append(" (baseline ");
                s.append(decimal_unsigned(*baseline).as_str());
                s.append(", patchpoint ");
                s.append(patchpoint.as_str());
                s.append(")");
                s
            },
            SafepointFault::RootsLost { site_id, current, baseline, expected, patchpoint } => {
                let mut s = String::from_str("AOT safepoint ");
                s.append(decimal_unsigned(*site_id).as_str());
                s.append(" lost active roots before end: current ");
                s.append(decimal_unsigned(*current).as_str());
                s.append(" baseline ");
                s.append(decimal_unsigned(*baseline).as_str());
                s.append(" expected ");
                s.append(decimal_unsigned(*expected).as_str());
                s.append(" (patchpoint ");
                s.append(patchpoint.as_str());
                s.append(")");
                s
            },
            SafepointFault::RootsLeaked { site_id, current, baseline, patchpoint } => {
                let mut s = String::from_str("AOT safepoint ");
                s.append(decimal_unsigned(*site_id).as_str());
                s.append(" leaked roots after end: current ");
                s.append(decimal_unsigned(*current).as_str());
                s.append(" baseline ");
                s.append(decimal_unsigned(*baseline).as_str());
                s.append(" (patchpoint ");
                s.append(patchpoint.as_str());
                s.append(")");
                s
            },
        }
    }
}

/// How announcing a safepoint fails, if it does.
pub open spec fn begin_fault(
    entries: Seq<EntryView>,
    verify: bool,
    site: u64,
    expected: u64,
    fault: Option<SafepointFault>,
) -> bool {
    if expected > usize::MAX {
        fault matches Some(SafepointFault::RootCountTooLarge { site_id }) && site_id == site
    } else if !verify {
        fault is None
    } else {
        match site_entry(entries, site) {
            None => fault matches Some(SafepointFault::UnknownSite { site_id }) && site_id == site,
            Some(e) => if e.root_count == expected {
                fault is None
            } else {
                fault matches Some(
                    SafepointFault::RootCountMismatch { site_id, patchpoint, registered, emitted },
                ) && site_id == site && patchpoint@ == e.patchpoint_label && registered
                    == e.root_count && emitted == expected
            },
        }
    }
}

/// Announces a safepoint. In verification mode the site must be registered with
/// this root count, and the number of roots is noted.
pub fn nod_aot_begin_safepoint(
    registry: &SafepointRegistry,
    active: &mut ActiveSafepoints,
    verify: bool,
    other_roots: usize,
    site_id: u64,
    expected_root_count: u64,
    slot_base: u64,
) -> (fault: Option<SafepointFault>)
    requires
        other_roots + active_root_total(old(active)@) <= usize::MAX,
    ensures
        begin_fault(registry@, verify, site_id, expected_root_count, fault),
        fault is Some ==> final(active)@ == old(active)@,
        fault is None ==> final(active)@ == old(active)@.push(
            ActiveAotSafepoint {
                site_id,
                expected_root_count: expected_root_count as usize,
                baseline_root_count: if verify {
                    (other_roots + active_root_total(old(active)@)) as usize
                } else {
                    0
                },
                slot_base,
            },
        ),
{
    if expected_root_count > usize::MAX as u64 {
        return Some(SafepointFault::RootCountTooLarge { site_id });
    }
    let baseline_root_count: usize = if verify {
        match registry.find(site_id) {
            None => {
                return Some(SafepointFault::UnknownSite { site_id });
            },
            Some(e) => {
                if e.root_count != expected_root_count {
                    return Some(
                        SafepointFault::RootCountMismatch {
                            site_id,
                            patchpoint: e.patchpoint_label.clone(),
                            registered: e.root_count,
                            emitted: expected_root_count,
                        },
                    );
                }
            },
        }
        proof {
            active_roots_counted(active@);
        }
        other_roots + active.root_total()
    } else {
        0
    };
    active.frames.push(
        ActiveAotSafepoint {
            site_id,
            expected_root_count: expected_root_count as usize,
            baseline_root_count,
            slot_base,
        },
    );
    None
}

/// How verifying a safepoint fails, if it does.
pub open spec fn verify_fault(
    entries: Seq<EntryView>,
    frames: Seq<ActiveAotSafepoint>,
    verify: bool,
    other_roots: int,
    site: u64,
    fault: Option<SafepointFault>,
) -> bool {
    let current = other_roots + active_root_total(frames);
    if frames.len() == 0 {
        if verify {
            fault == Some(SafepointFault::StackEmpty)
        } else {
            fault == Some(SafepointFault::StackEmptyAtVerify)
        }
    } else if frames.last().site_id != site {
        fault matches Some(SafepointFault::VerifyMismatch { top, requested }) && top
            == frames.last().site_id && requested == site
    } else if !verify || current == frames.last().baseline_root_count
        + frames.last().expected_root_count {
        fault is None
    } else {
        match site_entry(entries, site) {
            None => fault matches Some(SafepointFault::UnknownSite { site_id }) && site_id == site,
            Some(e) => fault matches Some(
                SafepointFault::RootsDiffer { site_id, found, expected, baseline, patchpoint },
            ) && site_id == site && found == (if current > frames.last().baseline_root_count {
                current - frames.last().baseline_root_count
            } else {
                0
            }) && expected == frames.last().expected_root_count && baseline
                == frames.last().baseline_root_count && patchpoint@ == e.patchpoint_label,
        }
    }
}

/// Checks that a safepoint is the innermost one and, in verification mode, that
/// exactly its roots have been added since it was announced.
pub fn nod_aot_verify_safepoint(
    registry: &SafepointRegistry,
    active: &ActiveSafepoints,
    verify: bool,
    other_roots: usize,
    site_id: u64,
) -> (fault: Option<SafepointFault>)
    requires
        other_roots + active_root_total(active@) <= usize::MAX,
    ensures
        verify_fault(registry@, active@, verify, other_roots as int, site_id, fault),
{
    let n: usize = active.frames.len();
    if n == 0 {
        return Some(
            if verify {
                SafepointFault::StackEmpty
            } else {
                SafepointFault::StackEmptyAtVerify
            },
        );
    }
    let top = active.frames[n - 1];
    if top.site_id != site_id {
        return Some(SafepointFault::VerifyMismatch { top: top.site_id, requested: site_id });
    }
    if !verify {
        return None;
    }
    proof {
        active_roots_counted(active@);
    }
    let current: usize = other_roots + active.root_total();
    let found: usize = if current > top.baseline_root_count {
        current - top.baseline_root_count
    } else {
        0
    };
    if current >= top.baseline_root_count && found == top.expected_root_count {
        return None;
    }
    match registry.find(site_id) {
        None => Some(SafepointFault::UnknownSite { site_id }),
        Some(e) => Some(
            SafepointFault::RootsDiffer {
                site_id,
                found: found as u64,
                expected: top.expected_root_count as u64,
                baseline: top.baseline_root_count as u64,
                patchpoint: e.patchpoint_label.clone(),
            },
        ),
    }
}

/// How taking back a safepoint fails before anything is taken back.
pub open spec fn end_fault(
    entries: Seq<EntryView>,
    frames: Seq<ActiveAotSafepoint>,
    verify: bool,
    other_roots: int,
    site: u64,
    fault: Option<SafepointFault>,
) -> bool {
    let current = other_roots + active_root_total(frames);
    if frames.len() == 0 {
        if verify {
            fault == Some(SafepointFault::StackEmpty)
        } else {
            fault == Some(SafepointFault::StackEmptyAtEnd)
        }
    } else if frames.last().site_id != site {
        fault matches Some(SafepointFault::EndMismatch { top, requested }) && top
            == frames.last().site_id && requested == site
    } else {
        let f = frames.last();
        &&& verify
        &&& current < f.baseline_root_count + f.expected_root_count
        &&& match site_entry(entries, site) {
            None => fault matches Some(SafepointFault::UnknownSite { site_id }) && site_id == site,
            Some(e) => fault matches Some(
                SafepointFault::RootsLost {
                    site_id,
                    current: c,
                    baseline,
                    expected,
                    patchpoint,
                },
            ) && site_id == site && c == current && baseline == f.baseline_root_count && expected
                == f.expected_root_count && patchpoint@ == e.patchpoint_label,
        }
    }
}

/// Whether a safepoint can be taken back: it is the innermost one and, in
/// verification mode, none of its roots has gone missing.
pub open spec fn can_end(
    frames: Seq<ActiveAotSafepoint>,
    verify: bool,
    other_roots: int,
    site: u64,
) -> bool {
    &&& frames.len() > 0
    &&& frames.last().site_id == site
    &&& verify ==> other_roots + active_root_total(frames) >= frames.last().baseline_root_count
        + frames.last().expected_root_count
}

/// Takes back the innermost safepoint.
pub fn nod_aot_end_safepoint(
    registry: &SafepointRegistry,
    active: &mut ActiveSafepoints,
    verify: bool,
    other_roots: usize,
    site_id: u64,
) -> (fault: Option<SafepointFault>)
    requires
        other_roots + active_root_total(old(active)@) <= usize::MAX,
    ensures
        fault is None <==> can_end(old(active)@, verify, other_roots as int, site_id),
        fault is None ==> final(active)@ == old(active)@.drop_last(),
        fault is Some ==> end_fault(
            registry@,
            old(active)@,
            verify,
            other_roots as int,
            site_id,
            fault,
        ) && final(active)@ == old(active)@,
{
    let n: usize = active.frames.len();
    if n == 0 {
        return Some(
            if verify {
                SafepointFault::StackEmpty
            } else {
                SafepointFault::StackEmptyAtEnd
            },
        );
    }
    let top = active.frames[n - 1];
    if top.site_id != site_id {
        return Some(SafepointFault::EndMismatch { top: top.site_id, requested: site_id });
    }
    if verify {
        proof {
            active_roots_counted(active@);
        }
        let current: usize = other_roots + active.root_total();
        let kept = current >= top.baseline_root_count && current - top.baseline_root_count
            >= top.expected_root_count;
        if !kept {
            return match registry.find(site_id) {
                None => Some(SafepointFault::UnknownSite { site_id }),
                Some(e) => Some(
                    SafepointFault::RootsLost {
                        site_id,
                        current: current as u64,
                        baseline: top.baseline_root_count as u64,
                        expected: top.expected_root_count as u64,
                        patchpoint: e.patchpoint_label.clone(),
                    },
                ),
            };
        }
    }
    let _ = active.frames.pop();
    check_after_end(registry, active, verify, other_roots, &top)
}

/// How the check after taking back a safepoint fails, if it does: the roots have
/// fallen below the number there was when the safepoint was announced.
pub fn check_after_end(
    registry: &SafepointRegistry,
    active: &ActiveSafepoints,
    verify: bool,
    other_roots: usize,
    ended: &ActiveAotSafepoint,
) -> (fault: Option<SafepointFault>)
    requires
        other_roots + active_root_total(active@) <= usize::MAX,
    ensures
        ({
            let current = other_roots + active_root_total(active@);
            if !verify || current >= ended.baseline_root_count {
                fault is None
            } else {
                match site_entry(registry@, ended.site_id) {
                    None => fault matches Some(SafepointFault::UnknownSite { site_id }) && site_id
                        == ended.site_id,
                    Some(e) => fault matches Some(
                        SafepointFault::RootsLeaked {
                            site_id,
                            current: c,
                            baseline,
                            patchpoint,
                        },
                    ) && site_id == ended.site_id && c == current && baseline
                        == ended.baseline_root_count && patchpoint@ == e.patchpoint_label,
                }
            }
        }),
{
    if !verify {
        return None;
    }
    proof {
        active_roots_counted(active@);
    }
    let current: usize = other_roots + active.root_total();
    if current >= ended.baseline_root_count {
        return None;
    }
    match registry.find(ended.site_id) {
        None => Some(SafepointFault::UnknownSite { site_id: ended.site_id }),
        Some(e) => Some(
            SafepointFault::RootsLeaked {
                site_id: ended.site_id,
                current: current as u64,
                baseline: ended.baseline_root_count as u64,
                patchpoint: e.patchpoint_label.clone(),
            },
        ),
    }
}

/// A safepoint that was announced without fault verifies and can be taken back
/// without fault while no other root comes or goes, and taking it back restores
/// the stack.
pub proof fn safepoint_protocol_balances(
    entries: Seq<EntryView>,
    frames: Seq<ActiveAotSafepoint>,
    verify: bool,
    other_roots: int,
    begun: ActiveAotSafepoint,
)
    requires
        verify ==> begun.baseline_root_count == other_roots + active_root_total(frames),
    ensures
        verify_fault(entries, frames.push(begun), verify, other_roots, begun.site_id, None),
        can_end(frames.push(begun), verify, other_roots, begun.site_id),
        frames.push(begun).drop_last() == frames,
        active_roots(frames.push(begun)) == active_roots(frames) + Seq::new(
            begun.expected_root_count as nat,
            |i: int| (begun.slot_base + 8 * i) as u64,
        ),
{
    assert(frames.push(begun).drop_last() =~= frames);
}

// ----- what safepoints are for -----

/// The roots of active safepoints are the slots of each, outermost first, eight
/// bytes apart from its base.
pub proof fn roots_are_the_slots_of_each_safepoint(
    frames: Seq<ActiveAotSafepoint>,
    f: ActiveAotSafepoint,
    i: int,
)
    requires
        f.slot_base + 8 * f.expected_root_count <= u64::MAX,
    ensures
        ({
            let before = active_roots(frames);
            let after = active_roots(frames.push(f));
            let n = before.len() as int;
            &&& active_roots(Seq::<ActiveAotSafepoint>::empty()).len() == 0
            &&& after.len() == n + f.expected_root_count
            &&& 0 <= i < n ==> after[i] == before[i]
            &&& 0 <= i < f.expected_root_count ==> after[n + i] == f.slot_base + 8 * i
            &&& active_root_total(frames.push(f)) == active_root_total(frames)
                + f.expected_root_count
            &&& active_root_total(Seq::<ActiveAotSafepoint>::empty()) == 0
        }),
{
    assert(frames.push(f).drop_last() =~= frames);
    assert(frames.push(f).last() == f);
}

/// A site is described by the first descriptor that names it.
pub proof fn sites_are_found_by_number(entries: Seq<EntryView>, i: int, from: int)
    requires
        0 <= from <= i < entries.len(),
        forall|k: int|
            from <= k < i ==> (#[trigger] entries[k]).site_id != entries[i].site_id,
    ensures
        site_from(entries, entries[i].site_id, from) == Some(i),
        from == 0 ==> site_entry(entries, entries[i].site_id) == Some(entries[i]),
    decreases i - from,
{
    if from < i {
        assert(entries[from].site_id != entries[i].site_id);
        sites_are_found_by_number(entries, i, from + 1);
    }
}

/// A site that no descriptor names is unknown.
pub proof fn unnamed_sites_are_unknown(entries: Seq<EntryView>, site: u64, from: int)
    requires
        0 <= from,
        forall|k: int| from <= k < entries.len() ==> (#[trigger] entries[k]).site_id != site,
    ensures
        site_from(entries, site, from) is None,
        from == 0 ==> site_entry(entries, site) is None,
    decreases entries.len() - from,
{
    if from < entries.len() {
        unnamed_sites_are_unknown(entries, site, from + 1);
    }
}

/// In verification mode a safepoint is announced exactly if its site is known with
/// that number of roots; otherwise always.
pub proof fn announcing_needs_the_registered_count(
    entries: Seq<EntryView>,
    verify: bool,
    site: u64,
    expected: u64,
    fault: Option<SafepointFault>,
)
    requires
        begin_fault(entries, verify, site, expected, fault),
        expected <= usize::MAX,
    ensures
        !verify ==> fault is None,
        verify ==> (fault is None <==> site_entry(entries, site) is Some && site_entry(
            entries,
            site,
        )->0.root_count == expected),
{
}

/// A safepoint verifies exactly if it is the innermost one and, in verification
/// mode, the roots are those there were before it and its own.
pub proof fn verifying_compares_the_roots(
    entries: Seq<EntryView>,
    frames: Seq<ActiveAotSafepoint>,
    verify: bool,
    other_roots: int,
    site: u64,
    fault: Option<SafepointFault>,
)
    requires
        verify_fault(entries, frames, verify, other_roots, site, fault),
    ensures
        fault is None <==> {
            &&& frames.len() > 0
            &&& frames[frames.len() - 1].site_id == site
            &&& verify ==> other_roots + active_root_total(frames) == frames[frames.len()
                - 1].baseline_root_count + frames[frames.len() - 1].expected_root_count
        },
{
}

/// A safepoint is taken back exactly if it is the innermost one and, in
/// verification mode, no root of it is missing.
pub proof fn taking_back_keeps_the_order(
    frames: Seq<ActiveAotSafepoint>,
    verify: bool,
    other_roots: int,
    site: u64,
)
    ensures
        can_end(frames, verify, other_roots, site) <==> {
            &&& frames.len() > 0
            &&& frames[frames.len() - 1].site_id == site
            &&& verify ==> other_roots + active_root_total(frames) >= frames[frames.len()
                - 1].baseline_root_count + frames[frames.len() - 1].expected_root_count
        },
{
}

/// A fault tells what went wrong: it names the site that was asked for, and the counts that
/// were found and expected.
pub proof fn faults_tell_what_went_wrong(
    entries: Seq<EntryView>,
    frames: Seq<ActiveAotSafepoint>,
    verify: bool,
    other_roots: int,
    site: u64,
    expected: u64,
    begun: Option<SafepointFault>,
    verified: Option<SafepointFault>,
    ended: Option<SafepointFault>,
)
    requires
        begin_fault(entries, verify, site, expected, begun),
        verify_fault(entries, frames, verify, other_roots, site, verified),
        end_fault(entries, frames, verify, other_roots, site, ended),
        expected <= usize::MAX,
    ensures
        begun matches Some(SafepointFault::RootCountMismatch {
            site_id,
            patchpoint,
            registered,
            emitted,
        }) ==> site_id == site && emitted == expected && site_entry(entries, site) is Some
            && registered == site_entry(entries, site)->0.root_count && registered != emitted
            && patchpoint@ == site_entry(entries, site)->0.patchpoint_label,
        begun matches Some(SafepointFault::UnknownSite { site_id }) ==> site_id == site
            && site_entry(entries, site) is None,
        frames.len() == 0 && verify ==> verified == Some(SafepointFault::StackEmpty) && ended
            == Some(SafepointFault::StackEmpty),
        frames.len() == 0 && !verify ==> verified == Some(SafepointFault::StackEmptyAtVerify)
            && ended == Some(SafepointFault::StackEmptyAtEnd),
        verified matches Some(SafepointFault::VerifyMismatch { top, requested }) ==> requested
            == site && top == frames[frames.len() - 1].site_id && top != requested,
        ended matches Some(SafepointFault::EndMismatch { top, requested }) ==> requested == site
            && top == frames[frames.len() - 1].site_id && top != requested,
        verified matches Some(SafepointFault::RootsDiffer {
            site_id,
            found,
            expected: e,
            baseline,
            patchpoint,
        }) ==> site_id == site && e == frames[frames.len() - 1].expected_root_count && baseline
            == frames[frames.len() - 1].baseline_root_count && (found + baseline == other_roots
            + active_root_total(frames) || (found == 0 && other_roots + active_root_total(frames)
            < baseline)),
        ended matches Some(SafepointFault::RootsLost {
            site_id,
            current,
            baseline,
            expected: e,
            patchpoint,
        }) ==> site_id == site && e == frames[frames.len() - 1].expected_root_count && baseline
            == frames[frames.len() - 1].baseline_root_count && current == other_roots
            + active_root_total(frames) && current < baseline + e,
{
}

/// What is said of a fault gives its site and its counts in their places.
pub proof fn faults_are_told_with_their_numbers(a: u64, b: u64, c: u64, d: u64, label: String)
    ensures
        (SafepointFault::UnknownSite { site_id: a }).text() == "unknown AOT safepoint site "@
            + decimal_digits(a as nat),
        (SafepointFault::RootCountTooLarge { site_id: a }).text() == "AOT safepoint "@
            + decimal_digits(a as nat) + " root count does not fit usize"@,
        (SafepointFault::RootCountMismatch {
            site_id: a,
            patchpoint: label,
            registered: b,
            emitted: c,
        }).text() == "AOT safepoint "@ + decimal_digits(a as nat) + " ("@ + label@
            + ") expected "@ + decimal_digits(b as nat) + " roots but codegen emitted "@
            + decimal_digits(c as nat),
        (SafepointFault::VerifyMismatch { top: a, requested: b }).text()
            == "AOT safepoint stack mismatch: top site "@ + decimal_digits(a as nat)
            + " but verify requested "@ + decimal_digits(b as nat),
        (SafepointFault::EndMismatch { top: a, requested: b }).text()
            == "AOT safepoint stack mismatch: top site "@ + decimal_digits(a as nat)
            + " but end requested "@ + decimal_digits(b as nat),
        (SafepointFault::RootsDiffer {
            site_id: a,
            found: b,
            expected: c,
            baseline: d,
            patchpoint: label,
        }).text() == "AOT safepoint "@ + decimal_digits(a as nat) + " registered "@
            + decimal_digits(b as nat) + " roots; expected "@ + decimal_digits(c as nat)
            + " (baseline "@ + decimal_digits(d as nat) + ", patchpoint "@ + label@ + ")"@,
        (SafepointFault::RootsLost {
            site_id: a,
            current: b,
            baseline: c,
            expected: d,
            patchpoint: label,
        }).text() == "AOT safepoint "@ + decimal_digits(a as nat)
            + " lost active roots before end: current "@ + decimal_digits(b as nat)
            + " baseline "@ + decimal_digits(c as nat) + " expected "@ + decimal_digits(d as nat)
            + " (patchpoint "@ + label@ + ")"@,
{
}

} // verus!
