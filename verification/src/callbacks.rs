//! Callbacks into functions.
//!
//! The operating system can call back through one of a fixed number of slots
//! per signature. Registering a function takes the first free slot of its
//! signature; a call through the slot tags the arguments, calls the function
//! and turns its value back into what the system expects.

use vstd::prelude::*;
use vstd::string::*;

use crate::functions::{
    call_answered, nod_funcall2, nod_funcall4, CallAction, FunctionClasses,
};
use crate::heap::{
    false_word, heap_room, heap_wf, literal_pool_immediates, true_word, word_of, Heap,
};
use crate::winffi::{make_c_ffi_error, with_ffi_error, FfiClasses};
use crate::word::Word;

verus! {

/// Slots per signature.
pub const POOL_SIZE: usize = 32;

/// The kinds of callback.
#[derive(Clone, Copy, PartialEq, Eq, Structural, Debug)]
pub enum CallbackSignature {
    /// A window procedure: window, message and two parameters.
    Wndproc,
    /// A window enumerator: window and one parameter.
    Wndenumproc,
}

/// A refused registration.
#[derive(Clone, Copy, PartialEq, Eq, Structural, Debug)]
pub enum RegisterError {
    /// Every slot of the signature is taken.
    PoolFull,
}

/// The slots of one signature.
struct SlotPool {
    closures: Vec<Word>,
    occupied: Vec<bool>,
}

/// The slots of all signatures.
pub struct CallbackPool {
    wndproc: SlotPool,
    wndenumproc: SlotPool,
    tenure: bool,
}

/// What a `CallbackPool` holds: for each signature, the function in each slot that
/// is taken.
#[verifier::ext_equal]
pub struct PoolView {
    pub wndproc: Seq<Option<Word>>,
    pub wndenumproc: Seq<Option<Word>>,
    pub tenure: bool,
}

impl SlotPool {
    spec fn slots_view(self) -> Seq<Option<Word>> {
        Seq::new(
            POOL_SIZE as nat,
            |i: int|
                if self.occupied@[i] {
                    Some(self.closures@[i])
                } else {
                    None
                },
        )
    }

    spec fn sized(self) -> bool {
        self.closures@.len() == POOL_SIZE && self.occupied@.len() == POOL_SIZE
    }

    fn empty() -> (p: SlotPool)
        ensures
            p.sized(),
            p.slots_view() == no_slots(),
    {
        let mut closures: Vec<Word> = Vec::new();
        let mut occupied: Vec<bool> = Vec::new();
        let mut i: usize = 0;
        while i < POOL_SIZE
            invariant
                i <= POOL_SIZE,
                closures@.len() == i,
                occupied@.len() == i,
                forall|k: int| 0 <= k < i ==> !(#[trigger] occupied@[k]),
            decreases POOL_SIZE - i,
        {
            closures.push(Word::from_raw(0));
            occupied.push(false);
            i += 1;
        }
        let p = SlotPool { closures, occupied };
        assert(p.slots_view() =~= no_slots());
        p
    }

    /// Takes the first free slot.
    fn take_slot(&mut self, closure: Word) -> (r: Option<usize>)
        requires
            old(self).sized(),
        ensures
            final(self).sized(),
            r is Some <==> first_free(old(self).slots_view(), 0) is Some,
            r is Some ==> r->0 == first_free(old(self).slots_view(), 0)->0 && r->0 < POOL_SIZE
                && final(self).slots_view() == old(self).slots_view().update(
                r->0 as int,
                Some(closure),
            ),
            r is None ==> final(self).slots_view() == old(self).slots_view(),
    {
        let ghost before = self.slots_view();
        let mut i: usize = 0;
        while i < POOL_SIZE
            invariant
                i <= POOL_SIZE,
                *self == *old(self),
                self.sized(),
                before == self.slots_view(),
                first_free(before, 0) == first_free(before, i as int),
            decreases POOL_SIZE - i,
        {
            assert(before[i as int] is Some == self.occupied@[i as int]);
            if !self.occupied[i] {
                self.closures[i] = closure;
                self.occupied[i] = true;
                assert(self.slots_view() =~= before.update(i as int, Some(closure)));
                return Some(i);
            }
            i += 1;
        }
        None
    }

    fn count(&self) -> (n: usize)
        requires
            self.sized(),
        ensures
            n == taken_count(self.slots_view(), POOL_SIZE as int),
    {
        let ghost slots = self.slots_view();
        let mut n: usize = 0;
        let mut i: usize = 0;
        while i < POOL_SIZE
            invariant
                i <= POOL_SIZE,
                n <= i,
                self.sized(),
                slots == self.slots_view(),
                n == taken_count(slots, i as int),
            decreases POOL_SIZE - i,
        {
            assert(slots[i as int] is Some == self.occupied@[i as int]);
            if self.occupied[i] {
                n += 1;
            }
            i += 1;
        }
        n
    }
}

/// No slot is taken.
pub open spec fn no_slots() -> Seq<Option<Word>> {
    Seq::new(POOL_SIZE as nat, |i: int| None)
}

/// The first free slot at or after `i`.
pub open spec fn first_free(slots: Seq<Option<Word>>, i: int) -> Option<int>
    decreases POOL_SIZE - i,
{
    if i < 0 || i >= POOL_SIZE {
        None
    } else if slots[i] is None {
        Some(i)
    } else {
        first_free(slots, i + 1)
    }
}

/// How many of the first `n` slots are taken.
pub open spec fn taken_count(slots: Seq<Option<Word>>, n: int) -> int
    decreases n,
{
    if n <= 0 {
        0
    } else {
        taken_count(slots, n - 1) + if slots[n - 1] is Some {
            1int
        } else {
            0
        }
    }
}

impl View for CallbackPool {
    type V = PoolView;

    closed spec fn view(&self) -> PoolView {
        PoolView {
            wndproc: self.wndproc.slots_view(),
            wndenumproc: self.wndenumproc.slots_view(),
            tenure: self.tenure,
        }
    }
}

impl PoolView {
    /// The slots of a signature.
    pub open spec fn of(self, sig: CallbackSignature) -> Seq<Option<Word>> {
        match sig {
            CallbackSignature::Wndproc => self.wndproc,
            CallbackSignature::Wndenumproc => self.wndenumproc,
        }
    }

    /// The pool with the slots of one signature replaced.
    pub open spec fn with(self, sig: CallbackSignature, slots: Seq<Option<Word>>) -> PoolView {
        match sig {
            CallbackSignature::Wndproc => PoolView { wndproc: slots, ..self },
            CallbackSignature::Wndenumproc => PoolView { wndenumproc: slots, ..self },
        }
    }
}

impl CallbackPool {
    /// The pools have all their slots.
    pub closed spec fn wf(self) -> bool {
        self.wndproc.sized() && self.wndenumproc.sized()
    }

    /// A pool with no slot taken.
    pub fn new() -> (p: CallbackPool)
        ensures
            p.wf(),
            p@ == (PoolView { wndproc: no_slots(), wndenumproc: no_slots(), tenure: false }),
    {
        CallbackPool {
            wndproc: SlotPool::empty(),
            wndenumproc: SlotPool::empty(),
            tenure: false,
        }
    }

    /// The function in a slot; the zero word for a slot that is free.
    fn closure_at(&self, sig: CallbackSignature, slot_id: usize) -> (w: Word)
        requires
            self.wf(),
            slot_id < POOL_SIZE,
        ensures
            self@.of(sig)[slot_id as int] matches Some(c) ==> w == c,
    {
        match sig {
            CallbackSignature::Wndproc => self.wndproc.closures[slot_id],
            CallbackSignature::Wndenumproc => self.wndenumproc.closures[slot_id],
        }
    }

    /// Whether a slot is taken.
    pub fn is_taken(&self, sig: CallbackSignature, slot_id: usize) -> (b: bool)
        requires
            self.wf(),
        ensures
            b <==> slot_id < POOL_SIZE && self@.of(sig)[slot_id as int] is Some,
    {
        if slot_id >= POOL_SIZE {
            return false;
        }
        match sig {
            CallbackSignature::Wndproc => self.wndproc.occupied[slot_id],
            CallbackSignature::Wndenumproc => self.wndenumproc.occupied[slot_id],
        }
    }
}

/// Chooses whether registering a callback is followed by a full collection.
pub fn set_callback_tenure_mode(pool: &mut CallbackPool, on: bool)
    requires
        old(pool).wf(),
    ensures
        final(pool).wf(),
        final(pool)@ == (PoolView { tenure: on, ..old(pool)@ }),
{
    pool.tenure = on;
}

/// Whether registering a callback is followed by a full collection.
pub fn callback_tenure_mode_enabled(pool: &CallbackPool) -> (b: bool)
    ensures
        b == pool@.tenure,
{
    pool.tenure
}

// ----- what a thread knows of the slots -----

/// A slot that the collector treats as a root.
#[derive(Clone, Copy, PartialEq, Eq, Structural, Debug)]
pub struct SlotRoot {
    pub sig: CallbackSignature,
    pub slot_id: usize,
}

/// What one thread has told its collector of the slots, and what it owes it.
pub struct CallbackThread {
    /// Whether the window-procedure slots are roots of the thread.
    pub wndproc_rooted: bool,
    /// Whether the window-enumerator slots are roots of the thread.
    pub wndenumproc_rooted: bool,
    /// The slots that are roots of the thread, in the order they became that.
    pub roots: Vec<SlotRoot>,
    /// Whether a full collection is due.
    pub collection_due: bool,
}

/// What a `CallbackThread` says.
#[verifier::ext_equal]
pub struct CallbackThreadView {
    pub wndproc_rooted: bool,
    pub wndenumproc_rooted: bool,
    pub roots: Seq<SlotRoot>,
    pub collection_due: bool,
}

impl View for CallbackThread {
    type V = CallbackThreadView;

    open spec fn view(&self) -> CallbackThreadView {
        CallbackThreadView {
            wndproc_rooted: self.wndproc_rooted,
            wndenumproc_rooted: self.wndenumproc_rooted,
            roots: self.roots@,
            collection_due: self.collection_due,
        }
    }
}

/// The first `n` slots of a signature as roots.
pub open spec fn slot_roots(sig: CallbackSignature, n: nat) -> Seq<SlotRoot> {
    Seq::new(n, |i: int| SlotRoot { sig, slot_id: i as usize })
}

impl CallbackThreadView {
    /// The thread with all slots of a signature as roots. They become roots once.
    pub open spec fn rooted(self, sig: CallbackSignature) -> CallbackThreadView {
        let roots = self.roots + slot_roots(sig, POOL_SIZE as nat);
        match sig {
            CallbackSignature::Wndproc => if self.wndproc_rooted {
                self
            } else {
                CallbackThreadView { wndproc_rooted: true, roots, ..self }
            },
            CallbackSignature::Wndenumproc => if self.wndenumproc_rooted {
                self
            } else {
                CallbackThreadView { wndenumproc_rooted: true, roots, ..self }
            },
        }
    }

    /// The thread after registering a callback: the slots are roots, and a full
    /// collection is due after a success in tenure mode.
    pub open spec fn registered(
        self,
        sig: CallbackSignature,
        success: bool,
        tenure: bool,
    ) -> CallbackThreadView {
        let r = self.rooted(sig);
        CallbackThreadView { collection_due: r.collection_due || (success && tenure), ..r }
    }
}

impl CallbackThread {
    /// A thread without roots that owes no collection.
    pub fn new() -> (t: CallbackThread)
        ensures
            t@ == (CallbackThreadView {
                wndproc_rooted: false,
                wndenumproc_rooted: false,
                roots: seq![],
                collection_due: false,
            }),
    {
        let t = CallbackThread {
            wndproc_rooted: false,
            wndenumproc_rooted: false,
            roots: Vec::new(),
            collection_due: false,
        };
        assert(t@.roots =~= seq![]);
        t
    }
}

/// Makes the slots of a signature roots of the thread, unless they are.
pub fn install_gc_roots_for_this_thread(thread: &mut CallbackThread, sig: CallbackSignature)
    ensures
        final(thread)@ == old(thread)@.rooted(sig),
{
    let already = match sig {
        CallbackSignature::Wndproc => thread.wndproc_rooted,
        CallbackSignature::Wndenumproc => thread.wndenumproc_rooted,
    };
    if already {
        return;
    }
    let ghost before = thread@;
    let mut i: usize = 0;
    assert(before.roots + slot_roots(sig, 0) =~= before.roots);
    while i < POOL_SIZE
        invariant
            i <= POOL_SIZE,
            thread@ == (CallbackThreadView {
                roots: before.roots + slot_roots(sig, i as nat),
                ..before
            }),
        decreases POOL_SIZE - i,
    {
        thread.roots.push(SlotRoot { sig, slot_id: i });
        i += 1;
        assert(thread@.roots =~= before.roots + slot_roots(sig, i as nat));
    }
    match sig {
        CallbackSignature::Wndproc => {
            thread.wndproc_rooted = true;
        },
        CallbackSignature::Wndenumproc => {
            thread.wndenumproc_rooted = true;
        },
    }
}

/// Registers a function for a signature: it takes the first free slot. The slots
/// become roots of the thread first; in tenure mode a success makes a full
/// collection due.
pub fn register_callback(
    pool: &mut CallbackPool,
    thread: &mut CallbackThread,
    closure: Word,
    sig: CallbackSignature,
) -> (r: Result<usize, RegisterError>)
    requires
        old(pool).wf(),
    ensures
        final(pool).wf(),
        match first_free(old(pool)@.of(sig), 0) {
            Some(i) => r is Ok && r->Ok_0 == i && r->Ok_0 < POOL_SIZE && final(pool)@
                == old(pool)@.with(sig, old(pool)@.of(sig).update(i, Some(closure))),
            None => r == Err::<usize, RegisterError>(RegisterError::PoolFull) && final(pool)@
                == old(pool)@,
        },
        final(thread)@ == old(thread)@.registered(sig, r is Ok, old(pool)@.tenure),
{
    install_gc_roots_for_this_thread(thread, sig);
    let taken = match sig {
        CallbackSignature::Wndproc => pool.wndproc.take_slot(closure),
        CallbackSignature::Wndenumproc => pool.wndenumproc.take_slot(closure),
    };
    match taken {
        Some(i) => {
            if callback_tenure_mode_enabled(pool) {
                thread.collection_due = true;
            }
            Ok(i)
        },
        None => Err(RegisterError::PoolFull),
    }
}

/// A free slot is found exactly if there is one.
pub proof fn first_free_is_free(slots: Seq<Option<Word>>, i: int)
    requires
        0 <= i <= POOL_SIZE,
    ensures
        first_free(slots, i) matches Some(k) ==> i <= k < POOL_SIZE && slots[k] is None
            && forall|j: int| i <= j < k ==> (#[trigger] slots[j]) is Some,
        first_free(slots, i) is None ==> forall|j: int|
            i <= j < POOL_SIZE ==> (#[trigger] slots[j]) is Some,
    decreases POOL_SIZE - i,
{
    if i < POOL_SIZE && slots[i] is Some {
        first_free_is_free(slots, i + 1);
    }
}

/// Registering takes a slot that nobody had: every function registered before
/// keeps its slot, so two registrations never share one.
pub proof fn registrations_keep_their_slots(slots: Seq<Option<Word>>, closure: Word, j: int)
    requires
        slots.len() == POOL_SIZE,
        first_free(slots, 0) is Some,
        0 <= j < POOL_SIZE,
        slots[j] is Some,
    ensures
        first_free(slots, 0)->0 != j,
        slots.update(first_free(slots, 0)->0, Some(closure))[j] == slots[j],
        slots.update(first_free(slots, 0)->0, Some(closure))[first_free(slots, 0)->0] == Some(
            closure,
        ),
{
    first_free_is_free(slots, 0);
}

/// The addresses of the entry points that the system calls.
pub struct SlotAddresses {
    pub wndproc: [u64; 32],
    pub wndenumproc: [u64; 32],
}

/// No address is zero and no two are the same.
pub open spec fn all_distinct(addresses: Seq<u64>) -> bool {
    &&& forall|i: int| 0 <= i < addresses.len() ==> #[trigger] addresses[i] != 0
    &&& forall|i: int, j: int|
        0 <= i < j < addresses.len() ==> #[trigger] addresses[i] != #[trigger] addresses[j]
}

fn are_distinct(addresses: &[u64; 32]) -> (b: bool)
    ensures
        b == all_distinct(addresses@),
{
    let mut i: usize = 0;
    while i < 32
        invariant
            i <= 32,
            forall|k: int| 0 <= k < i ==> #[trigger] addresses@[k] != 0,
            forall|k: int, l: int|
                0 <= k < l < i ==> #[trigger] addresses@[k] != #[trigger] addresses@[l],
        decreases 32 - i,
    {
        if addresses[i] == 0 {
            return false;
        }
        let mut j: usize = 0;
        while j < i
            invariant
                j <= i < 32,
                forall|k: int| 0 <= k < j ==> #[trigger] addresses@[k] != addresses@[i as int],
            decreases i - j,
        {
            if addresses[j] == addresses[i] {
                assert(addresses@[j as int] == addresses@[i as int]);
                return false;
            }
            j += 1;
        }
        i += 1;
    }
    true
}

impl SlotAddresses {
    /// The entry point of a slot.
    pub open spec fn of(self, sig: CallbackSignature, slot_id: int) -> u64 {
        match sig {
            CallbackSignature::Wndproc => self.wndproc@[slot_id],
            CallbackSignature::Wndenumproc => self.wndenumproc@[slot_id],
        }
    }

    /// Every slot of a signature has an entry point of its own.
    pub open spec fn sound(self) -> bool {
        all_distinct(self.wndproc@) && all_distinct(self.wndenumproc@)
    }

    /// Whether every slot of a signature has an entry point of its own.
    pub fn is_sound(&self) -> (b: bool)
        ensures
            b == self.sound(),
    {
        are_distinct(&self.wndproc) && are_distinct(&self.wndenumproc)
    }
}

/// Distinct slots of a signature have distinct addresses, none of them zero.
pub proof fn distinct_slots_have_distinct_addresses(
    addresses: SlotAddresses,
    sig: CallbackSignature,
    i: int,
    j: int,
)
    requires
        addresses.sound(),
        0 <= i < POOL_SIZE,
        0 <= j < POOL_SIZE,
        i != j,
    ensures
        addresses.of(sig, i) != addresses.of(sig, j),
        addresses.of(sig, i) != 0,
        addresses.of(sig, j) != 0,
{
    let list = match sig {
        CallbackSignature::Wndproc => addresses.wndproc@,
        CallbackSignature::Wndenumproc => addresses.wndenumproc@,
    };
    assert(list[i] != 0 && list[j] != 0);
    if i < j {
        assert(list[i] != list[j]);
    } else {
        assert(list[j] != list[i]);
    }
}

/// Two registrations for one signature get distinct addresses.
pub proof fn registrations_get_distinct_addresses(
    addresses: SlotAddresses,
    sig: CallbackSignature,
    slots: Seq<Option<Word>>,
    first: Word,
)
    requires
        addresses.sound(),
        slots.len() == POOL_SIZE,
        first_free(slots, 0) is Some,
        first_free(slots.update(first_free(slots, 0)->0, Some(first)), 0) is Some,
    ensures
        ({
            let i = first_free(slots, 0)->0;
            let j = first_free(slots.update(i, Some(first)), 0)->0;
            addresses.of(sig, i) != addresses.of(sig, j)
        }),
{
    let i = first_free(slots, 0)->0;
    first_free_is_free(slots, 0);
    let after = slots.update(i, Some(first));
    first_free_is_free(after, 0);
    distinct_slots_have_distinct_addresses(addresses, sig, i, first_free(after, 0)->0);
}

/// The address that the system calls to reach a slot.
pub fn slot_address(addresses: &SlotAddresses, sig: CallbackSignature, slot_id: usize) -> (a: u64)
    requires
        slot_id < POOL_SIZE,
    ensures
        a == addresses.of(sig, slot_id as int),
{
    match sig {
        CallbackSignature::Wndproc => addresses.wndproc[slot_id],
        CallbackSignature::Wndenumproc => addresses.wndenumproc[slot_id],
    }
}

// ----- calls through a slot -----

/// Calls the function in a window-procedure slot.
pub fn wndproc_dispatch(
    pool: &CallbackPool,
    thread: &mut CallbackThread,
    heap: &mut Heap,
    ids: &FunctionClasses,
    slot_id: usize,
    hwnd: u64,
    msg: u32,
    wparam: u64,
    lparam: u64,
) -> (action: CallAction)
    requires
        pool.wf(),
        slot_id < POOL_SIZE,
        pool@.wndproc[slot_id as int] is Some,
        heap_wf(old(heap)@),
        heap_room(old(heap)@, 1),
    ensures
        call_answered(
            *ids,
            old(heap)@,
            final(heap)@,
            pool@.wndproc[slot_id as int]->0,
            seq![hwnd << 1u64, (msg as u64) << 1u64, wparam << 1u64, lparam << 1u64],
            action,
        ),
        final(thread)@ == old(thread)@.rooted(CallbackSignature::Wndproc),
        heap_wf(final(heap)@),
{
    install_gc_roots_for_this_thread(thread, CallbackSignature::Wndproc);
    let closure = pool.closure_at(CallbackSignature::Wndproc, slot_id);
    nod_funcall4(
        heap,
        ids,
        closure.raw(),
        Word::tagged(hwnd).raw(),
        Word::tagged(msg as u64).raw(),
        Word::tagged(wparam).raw(),
        Word::tagged(lparam).raw(),
    )
}

/// Calls the function in a window-enumerator slot.
pub fn wndenumproc_dispatch(
    pool: &CallbackPool,
    thread: &mut CallbackThread,
    heap: &mut Heap,
    ids: &FunctionClasses,
    slot_id: usize,
    hwnd: u64,
    lparam: u64,
) -> (action: CallAction)
    requires
        pool.wf(),
        slot_id < POOL_SIZE,
        pool@.wndenumproc[slot_id as int] is Some,
        heap_wf(old(heap)@),
        heap_room(old(heap)@, 1),
    ensures
        call_answered(
            *ids,
            old(heap)@,
            final(heap)@,
            pool@.wndenumproc[slot_id as int]->0,
            seq![hwnd << 1u64, lparam << 1u64],
            action,
        ),
        final(thread)@ == old(thread)@.rooted(CallbackSignature::Wndenumproc),
        heap_wf(final(heap)@),
{
    install_gc_roots_for_this_thread(thread, CallbackSignature::Wndenumproc);
    let closure = pool.closure_at(CallbackSignature::Wndenumproc, slot_id);
    nod_funcall2(heap, ids, closure.raw(), Word::tagged(hwnd).raw(), Word::tagged(lparam).raw())
}

/// The result of a window procedure: booleans give one and zero, integers
/// themselves, anything else zero.
pub fn rebox_lresult(w: Word) -> (r: u64)
    ensures
        r == if w == true_word() {
            1
        } else if w.spec_is_fixnum() {
            #[verifier::truncate] (w.fixnum_value() as i64 as u64)
        } else {
            0
        },
{
    let imm = literal_pool_immediates();
    if w == imm.true_ {
        1
    } else if w == imm.false_ {
        0
    } else {
        match w.as_fixnum() {
            Some(n) => #[verifier::truncate] (n as u64),
            None => 0,
        }
    }
}

/// The result of a window enumerator: zero for `#f` and the integer zero, one
/// for anything else.
pub fn rebox_bool32(w: Word) -> (r: i32)
    ensures
        r == if w == false_word() || (w.spec_is_fixnum() && w.fixnum_value() == 0) {
            0i32
        } else {
            1
        },
{
    let imm = literal_pool_immediates();
    if w == imm.true_ {
        1
    } else if w == imm.false_ {
        0
    } else {
        match w.as_fixnum() {
            Some(n) => {
                if n != 0 {
                    1
                } else {
                    0
                }
            },
            None => 1,
        }
    }
}

// ----- registration on raw words -----

/// What registering on a raw word comes to.
#[derive(Clone, Copy, PartialEq, Eq, Structural, Debug)]
pub enum RegisterAction {
    /// The tagged address of the slot's entry point.
    Registered(u64),
    /// Signal this condition.
    Signal(u64),
}

/// What is said when the window-procedure slots are exhausted.
pub open spec fn wndprocs_exhausted() -> Seq<char> {
    "callback pool exhausted (Sprint 32 cap: 32 WNDPROCs)"@
}

/// What is said when the window-enumerator slots are exhausted.
pub open spec fn wndenumprocs_exhausted() -> Seq<char> {
    "callback pool exhausted (Sprint 32 cap: 32 WNDENUMPROCs)"@
}

/// Registers a window procedure.
pub fn nod_register_wndproc(
    pool: &mut CallbackPool,
    thread: &mut CallbackThread,
    addresses: &SlotAddresses,
    heap: &mut Heap,
    ids: &FfiClasses,
    closure_raw: u64,
) -> (action: RegisterAction)
    requires
        old(pool).wf(),
        heap_wf(old(heap)@),
        heap_room(old(heap)@, 4),
    ensures
        final(pool).wf(),
        match first_free(old(pool)@.wndproc, 0) {
            Some(i) => action == RegisterAction::Registered(addresses.wndproc@[i] << 1u64)
                && final(heap)@ == old(heap)@ && final(pool)@ == (PoolView {
                wndproc: old(pool)@.wndproc.update(i, Some(Word { raw: closure_raw })),
                ..old(pool)@
            }),
            None => action == RegisterAction::Signal(word_of(old(heap)@.len() as int + 3).raw)
                && final(heap)@ == with_ffi_error(
                old(heap)@,
                *ids,
                "<callback-pool>"@,
                "register_wndproc"@,
                0,
                wndprocs_exhausted(),
            ) && final(pool)@ == old(pool)@,
        },
        final(thread)@ == old(thread)@.registered(
            CallbackSignature::Wndproc,
            action is Registered,
            old(pool)@.tenure,
        ),
        heap_wf(final(heap)@),
{
    match register_callback(pool, thread, Word::from_raw(closure_raw), CallbackSignature::Wndproc) {
        Ok(slot_id) => {
            let address = slot_address(addresses, CallbackSignature::Wndproc, slot_id);
            RegisterAction::Registered(Word::tagged(address).raw())
        },
        Err(_) => {
            let e = make_c_ffi_error(
                heap,
                ids,
                "<callback-pool>",
                "register_wndproc",
                0,
                "callback pool exhausted (Sprint 32 cap: 32 WNDPROCs)",
            );
            RegisterAction::Signal(e.raw())
        },
    }
}

/// Registers a window enumerator.
pub fn nod_register_wndenumproc(
    pool: &mut CallbackPool,
    thread: &mut CallbackThread,
    addresses: &SlotAddresses,
    heap: &mut Heap,
    ids: &FfiClasses,
    closure_raw: u64,
) -> (action: RegisterAction)
    requires
        old(pool).wf(),
        heap_wf(old(heap)@),
        heap_room(old(heap)@, 4),
    ensures
        final(pool).wf(),
        match first_free(old(pool)@.wndenumproc, 0) {
            Some(i) => action == RegisterAction::Registered(addresses.wndenumproc@[i] << 1u64)
                && final(heap)@ == old(heap)@ && final(pool)@ == (PoolView {
                wndenumproc: old(pool)@.wndenumproc.update(i, Some(Word { raw: closure_raw })),
                ..old(pool)@
            }),
            None => action == RegisterAction::Signal(word_of(old(heap)@.len() as int + 3).raw)
                && final(heap)@ == with_ffi_error(
                old(heap)@,
                *ids,
                "<callback-pool>"@,
                "register_wndenumproc"@,
                0,
                wndenumprocs_exhausted(),
            ) && final(pool)@ == old(pool)@,
        },
        final(thread)@ == old(thread)@.registered(
            CallbackSignature::Wndenumproc,
            action is Registered,
            old(pool)@.tenure,
        ),
        heap_wf(final(heap)@),
{
    let closure = Word::from_raw(closure_raw);
    match register_callback(pool, thread, closure, CallbackSignature::Wndenumproc) {
        Ok(slot_id) => {
            let address = slot_address(addresses, CallbackSignature::Wndenumproc, slot_id);
            RegisterAction::Registered(Word::tagged(address).raw())
        },
        Err(_) => {
            let e = make_c_ffi_error(
                heap,
                ids,
                "<callback-pool>",
                "register_wndenumproc",
                0,
                "callback pool exhausted (Sprint 32 cap: 32 WNDENUMPROCs)",
            );
            RegisterAction::Signal(e.raw())
        },
    }
}

/// Frees every slot.
pub fn _reset_callbacks_for_tests(pool: &mut CallbackPool)
    requires
        old(pool).wf(),
    ensures
        final(pool).wf(),
        final(pool)@ == (PoolView {
            wndproc: no_slots(),
            wndenumproc: no_slots(),
            ..old(pool)@
        }),
{
    pool.wndproc = SlotPool::empty();
    pool.wndenumproc = SlotPool::empty();
}

/// How many slots of a signature are taken.
pub fn _occupied_count(pool: &CallbackPool, sig: CallbackSignature) -> (n: usize)
    requires
        pool.wf(),
    ensures
        n == taken_count(pool@.of(sig), POOL_SIZE as int),
{
    match sig {
        CallbackSignature::Wndproc => pool.wndproc.count(),
        CallbackSignature::Wndenumproc => pool.wndenumproc.count(),
    }
}

// ----- what callbacks are for -----

/// The slots of the two signatures are apart: changing those of one leaves those of
/// the other.
pub proof fn signatures_have_their_own_slots(p: PoolView, slots: Seq<Option<Word>>)
    ensures
        p.with(CallbackSignature::Wndproc, slots).wndproc == slots,
        p.with(CallbackSignature::Wndproc, slots).wndenumproc == p.wndenumproc,
        p.with(CallbackSignature::Wndenumproc, slots).wndenumproc == slots,
        p.with(CallbackSignature::Wndenumproc, slots).wndproc == p.wndproc,
        p.with(CallbackSignature::Wndproc, slots).tenure == p.tenure,
        p.with(CallbackSignature::Wndenumproc, slots).tenure == p.tenure,
        p.of(CallbackSignature::Wndproc) == p.wndproc,
        p.of(CallbackSignature::Wndenumproc) == p.wndenumproc,
{
}

/// All slots of a signature become roots of a thread, in order, and do so once; the
/// other signature is left alone.
pub proof fn slots_become_roots_once(t: CallbackThreadView, sig: CallbackSignature, i: int)
    ensures
        ({
            let flag = match sig {
                CallbackSignature::Wndproc => t.wndproc_rooted,
                CallbackSignature::Wndenumproc => t.wndenumproc_rooted,
            };
            let r = t.rooted(sig);
            let n = t.roots.len() as int;
            &&& flag ==> r == t
            &&& !flag ==> r.roots.len() == n + 32
            &&& !flag && 0 <= i < n ==> r.roots[i] == t.roots[i]
            &&& !flag && 0 <= i < 32 ==> r.roots[n + i].sig == sig && r.roots[n + i].slot_id == i
            &&& r.rooted(sig) == r
            &&& sig == CallbackSignature::Wndproc ==> r.wndproc_rooted && r.wndenumproc_rooted
                == t.wndenumproc_rooted
            &&& sig == CallbackSignature::Wndenumproc ==> r.wndenumproc_rooted && r.wndproc_rooted
                == t.wndproc_rooted
            &&& r.collection_due == t.collection_due
        }),
{
}

/// A collection is due after a registration exactly if one was due before or a
/// registration succeeded in tenure mode.
pub proof fn tenure_mode_asks_for_a_collection(
    t: CallbackThreadView,
    sig: CallbackSignature,
    success: bool,
    tenure: bool,
)
    ensures
        t.registered(sig, success, tenure).collection_due <==> t.collection_due || (success
            && tenure),
        t.registered(sig, success, tenure).roots == t.rooted(sig).roots,
        t.registered(sig, success, tenure).wndproc_rooted == t.rooted(sig).wndproc_rooted,
        t.registered(sig, success, tenure).wndenumproc_rooted == t.rooted(sig).wndenumproc_rooted,
{
}

/// Counting the taken slots goes slot by slot; an empty pool has none.
pub proof fn taken_slots_are_counted(slots: Seq<Option<Word>>, n: int)
    requires
        0 <= n < slots.len(),
    ensures
        taken_count(slots, 0) == 0,
        slots[n] is Some ==> taken_count(slots, n + 1) == taken_count(slots, n) + 1,
        slots[n] is None ==> taken_count(slots, n + 1) == taken_count(slots, n),
        no_slots().len() == 32,
        forall|i: int| 0 <= i < 32 ==> (#[trigger] no_slots()[i]) is None,
{
}

/// Each signature has its own entry points and its own complaint when they are used up.
pub proof fn signatures_have_their_own_entry_points(a: SlotAddresses, slot_id: int)
    ensures
        a.of(CallbackSignature::Wndproc, slot_id) == a.wndproc@[slot_id],
        a.of(CallbackSignature::Wndenumproc, slot_id) == a.wndenumproc@[slot_id],
        wndprocs_exhausted() == "callback pool exhausted (Sprint 32 cap: 32 WNDPROCs)"@,
        wndenumprocs_exhausted() == "callback pool exhausted (Sprint 32 cap: 32 WNDENUMPROCs)"@,
{
}

} // verus!
