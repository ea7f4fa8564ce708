//! The handler stack, signalling, and the life of a block.
//!
//! A block pushes one handler frame per exception clause, runs its body, then
//! its cleanup and afterwards code, and restores the stacks it found. A signal
//! looks for the innermost frame whose class the condition is an instance of,
//! runs that frame's handler and leaves its block with the handler's value.
//!
//! Running compiled code is left to the caller. A block is a machine that is
//! told how the last piece of code ended and answers what to do next.

use vstd::prelude::*;
use vstd::string::*;
use vstd::utf8::encode_utf8;

use crate::classes::{is_subclass, ClassId, ClassTable, TableView};
use crate::conditions::{
    make_simple_error, message_condition_made, ConditionClasses, NlxPayload,
};
use crate::generics::{
    byte_strings_hold_their_text, decode_byte_string_to_string, held_text,
};
use crate::heap::{
    bytes_object, cell_at, class_at, heap_room, heap_wf, object_at, word_of, Heap, ObjectView,
};
use crate::literals::LiteralPool;
use crate::lookup::{class_name, shown_name};
use crate::safepoints::ActiveSafepoints;
use crate::text::{
    decimal_digits, decimal_unsigned, hex_digits, hexadecimal, lossy_text, text_from_utf8_lossy,
};
use crate::word::Word;

verus! {

// ----- the handler stack -----

/// An active exception clause: conditions of this class leave this block through
/// this handler.
pub struct HandlerFrame {
    pub handler_class: ClassId,
    pub target_block_id: u64,
    pub handler_index: u32,
    /// For display only.
    pub handler_class_name: String,
}

/// What a `HandlerFrame` says.
#[verifier::ext_equal]
pub struct HandlerView {
    pub handler_class: ClassId,
    pub target_block_id: u64,
    pub handler_index: u32,
    pub handler_class_name: Seq<char>,
}

impl View for HandlerFrame {
    type V = HandlerView;

    open spec fn view(&self) -> HandlerView {
        HandlerView {
            handler_class: self.handler_class,
            target_block_id: self.target_block_id,
            handler_index: self.handler_index,
            handler_class_name: self.handler_class_name@,
        }
    }
}

/// The frames as views.
pub open spec fn frame_views(frames: Seq<HandlerFrame>) -> Seq<HandlerView> {
    Seq::new(frames.len(), |i: int| frames[i]@)
}

/// The active handlers and captured locals of one thread, innermost last.
pub struct HandlerState {
    handlers: Vec<HandlerFrame>,
    captured: Vec<[u64; 8]>,
}

/// What a `HandlerState` holds.
#[verifier::ext_equal]
pub struct StateView {
    pub handlers: Seq<HandlerView>,
    pub captured: Seq<[u64; 8]>,
}

impl View for HandlerState {
    type V = StateView;

    closed spec fn view(&self) -> StateView {
        StateView { handlers: frame_views(self.handlers@), captured: self.captured@ }
    }
}

/// A stack cut down to at most `n` frames.
pub open spec fn cut<T>(stack: Seq<T>, n: int) -> Seq<T> {
    if stack.len() > n {
        stack.take(n)
    } else {
        stack
    }
}

impl HandlerState {
    /// No handlers and no captured locals.
    pub fn new() -> (s: HandlerState)
        ensures
            s@ == (StateView { handlers: seq![], captured: seq![] }),
    {
        let s = HandlerState { handlers: Vec::new(), captured: Vec::new() };
        assert(s@.handlers =~= seq![]);
        s
    }

    /// The number of active handlers.
    pub fn handler_stack_len(&self) -> (n: usize)
        ensures
            n == self@.handlers.len(),
    {
        self.handlers.len()
    }

    /// Drops every handler beyond the first `len`.
    fn truncate_handlers(&mut self, len: usize)
        ensures
            final(self)@ == (StateView {
                handlers: cut(old(self)@.handlers, len as int),
                ..old(self)@
            }),
    {
        if self.handlers.len() > len {
            self.handlers.truncate(len);
        }
        assert(self@.handlers =~= cut(old(self)@.handlers, len as int));
    }

    /// Drops the innermost captured locals, if there are any.
    fn pop_captured(&mut self)
        ensures
            final(self)@ == (StateView {
                captured: if old(self)@.captured.len() > 0 {
                    old(self)@.captured.drop_last()
                } else {
                    old(self)@.captured
                },
                ..old(self)@
            }),
    {
        let _ = self.captured.pop();
        assert(self@.handlers =~= old(self)@.handlers);
        assert(old(self)@.captured.len() > 0 ==> self@.captured
            =~= old(self)@.captured.drop_last());
    }
}

/// Activates a handler.
pub fn nod_push_handler(state: &mut HandlerState, frame: HandlerFrame)
    ensures
        final(state)@ == (StateView {
            handlers: old(state)@.handlers.push(frame@),
            ..old(state)@
        }),
{
    state.handlers.push(frame);
    assert(state@.handlers =~= old(state)@.handlers.push(frame@));
}

/// Drops the innermost handler, if there is one.
pub fn nod_pop_handler(state: &mut HandlerState)
    ensures
        final(state)@ == (StateView {
            handlers: if old(state)@.handlers.len() > 0 {
                old(state)@.handlers.drop_last()
            } else {
                old(state)@.handlers
            },
            ..old(state)@
        }),
{
    let _ = state.handlers.pop();
    assert(state@.handlers =~= if old(state)@.handlers.len() > 0 {
        old(state)@.handlers.drop_last()
    } else {
        old(state)@.handlers
    });
}

fn copy_frame(f: &HandlerFrame) -> (r: HandlerFrame)
    ensures
        r@ == f@,
{
    HandlerFrame {
        handler_class: f.handler_class,
        target_block_id: f.target_block_id,
        handler_index: f.handler_index,
        handler_class_name: f.handler_class_name.clone(),
    }
}

/// The active handlers, outermost first.
pub fn handler_stack_snapshot(state: &HandlerState) -> (frames: Vec<HandlerFrame>)
    ensures
        frame_views(frames@) == state@.handlers,
{
    let mut frames: Vec<HandlerFrame> = Vec::new();
    let mut i: usize = 0;
    while i < state.handlers.len()
        invariant
            i <= state.handlers.len(),
            frames@.len() == i,
            forall|k: int| 0 <= k < i ==> (#[trigger] frames@[k])@ == state.handlers@[k]@,
        decreases state.handlers.len() - i,
    {
        frames.push(copy_frame(&state.handlers[i]));
        i += 1;
    }
    assert(frame_views(frames@) =~= state@.handlers);
    frames
}

/// The active handlers in the order in which a signal looks at them, innermost
/// first.
pub fn for_each_handler(state: &HandlerState) -> (frames: Vec<HandlerFrame>)
    ensures
        frame_views(frames@) == state@.handlers.reverse(),
{
    let mut frames: Vec<HandlerFrame> = Vec::new();
    let n: usize = state.handlers.len();
    let mut i: usize = 0;
    while i < n
        invariant
            i <= n,
            n == state.handlers.len(),
            frames@.len() == i,
            forall|k: int|
                0 <= k < i ==> (#[trigger] frames@[k])@ == state.handlers@[n - 1 - k]@,
        decreases n - i,
    {
        frames.push(copy_frame(&state.handlers[n - 1 - i]));
        i += 1;
    }
    assert(frame_views(frames@) =~= state@.handlers.reverse());
    frames
}

/// Drops every handler and all captured locals.
pub fn _reset_handler_stack_for_tests(state: &mut HandlerState)
    ensures
        final(state)@ == (StateView { handlers: seq![], captured: seq![] }),
{
    state.handlers.clear();
    state.captured.clear();
    assert(state@.handlers =~= seq![]);
}

/// The tail of a line for one handler.
pub open spec fn handler_line_tail(f: HandlerView) -> Seq<char> {
    " class="@ + f.handler_class_name + " block-id="@ + decimal_digits(f.target_block_id as nat)
        + " handler-index="@ + decimal_digits(f.handler_index as nat) + "\n"@
}

/// The first `n` lines for a list of handlers, numbered between two marks.
pub open spec fn handler_lines(
    frames: Seq<HandlerView>,
    before: Seq<char>,
    after: Seq<char>,
    n: int,
) -> Seq<char>
    decreases n,
{
    if n <= 0 {
        seq![]
    } else {
        handler_lines(frames, before, after, n - 1) + (before + decimal_digits((n - 1) as nat)
            + after + handler_line_tail(frames[n - 1]))
    }
}

fn render_handler_tail(f: &HandlerFrame) -> (s: String)
    ensures
        s@ == handler_line_tail(f@),
{
    let mut s = String::from_str(" class=");
    s.append(f.handler_class_name.as_str());
    s.append(" block-id=");
    s.append(decimal_unsigned(f.target_block_id).as_str());
    s.append(" handler-index=");
    s.append(decimal_unsigned(f.handler_index as u64).as_str());
    s.append("\n");
    s
}

fn render_handlers(frames: &Vec<HandlerFrame>, before: &str, after: &str) -> (s: String)
    ensures
        s@ == handler_lines(frame_views(frames@), before@, after@, frames@.len() as int),
{
    let ghost views = frame_views(frames@);
    let mut s = String::new();
    let mut i: usize = 0;
    assert(s@ =~= handler_lines(views, before@, after@, 0));
    while i < frames.len()
        invariant
            i <= frames.len(),
            views == frame_views(frames@),
            s@ == handler_lines(views, before@, after@, i as int),
        decreases frames.len() - i,
    {
        assert(views[i as int] == frames@[i as int]@);
        let mut line = String::from_str(before);
        line.append(decimal_unsigned(i as u64).as_str());
        line.append(after);
        line.append(render_handler_tail(&frames[i]).as_str());
        s.append(line.as_str());
        i += 1;
    }
    s
}

/// Renders the handler stack, innermost handler first.
pub fn nod_walk_handlers_dump(state: &HandlerState) -> (s: String)
    ensures
        s@ == if state@.handlers.len() == 0 {
            "(no active handlers)\n"@
        } else {
            "handler stack (depth = "@ + decimal_digits(state@.handlers.len()) + ")\n"@
                + handler_lines(
                state@.handlers.reverse(),
                "  ["@,
                "]"@,
                state@.handlers.len() as int,
            )
        },
{
    if state.handlers.len() == 0 {
        return String::from_str("(no active handlers)\n");
    }
    let mut s = String::from_str("handler stack (depth = ");
    s.append(decimal_unsigned(state.handlers.len() as u64).as_str());
    s.append(")\n");
    let frames = for_each_handler(state);
    s.append(render_handlers(&frames, "  [", "]").as_str());
    assert(frames@.len() == state@.handlers.reverse().len());
    s
}

/// Reports the handler chain, innermost handler first.
pub fn handlers_report(state: &HandlerState) -> (s: String)
    ensures
        s@ == if state@.handlers.len() == 0 {
            "handler chain: (empty)\n"@
        } else {
            "handler chain (depth = "@ + decimal_digits(state@.handlers.len())
                + ", innermost first):\n"@ + handler_lines(
                state@.handlers.reverse(),
                "  #"@,
                ""@,
                state@.handlers.len() as int,
            )
        },
{
    if state.handlers.len() == 0 {
        return String::from_str("handler chain: (empty)\n");
    }
    let mut s = String::from_str("handler chain (depth = ");
    s.append(decimal_unsigned(state.handlers.len() as u64).as_str());
    s.append(", innermost first):\n");
    let frames = for_each_handler(state);
    s.append(render_handlers(&frames, "  #", "").as_str());
    assert(frames@.len() == state@.handlers.reverse().len());
    s
}

// ----- registered blocks -----

/// The handler of an exception clause.
pub struct HandlerFn {
    pub class_id: ClassId,
    pub class_name: String,
    /// Address of the handler code.
    pub body: u64,
}

/// What a `HandlerFn` says.
#[verifier::ext_equal]
pub struct HandlerFnView {
    pub class_id: ClassId,
    pub class_name: Seq<char>,
    pub body: u64,
}

impl View for HandlerFn {
    type V = HandlerFnView;

    open spec fn view(&self) -> HandlerFnView {
        HandlerFnView { class_id: self.class_id, class_name: self.class_name@, body: self.body }
    }
}

/// The code of a block. Handlers stand in source order.
pub struct BlockFns {
    pub body: u64,
    pub cleanup: Option<u64>,
    pub afterwards: Option<u64>,
    pub handlers: Vec<HandlerFn>,
}

/// What a `BlockFns` says.
#[verifier::ext_equal]
pub struct BlockView {
    pub body: u64,
    pub cleanup: Option<u64>,
    pub afterwards: Option<u64>,
    pub handlers: Seq<HandlerFnView>,
}

/// The handlers as views.
pub open spec fn handler_fn_views(handlers: Seq<HandlerFn>) -> Seq<HandlerFnView> {
    Seq::new(handlers.len(), |i: int| handlers[i]@)
}

impl View for BlockFns {
    type V = BlockView;

    open spec fn view(&self) -> BlockView {
        BlockView {
            body: self.body,
            cleanup: self.cleanup,
            afterwards: self.afterwards,
            handlers: handler_fn_views(self.handlers@),
        }
    }
}

struct BlockEntry {
    id: u64,
    fns: BlockFns,
}

/// The code of all blocks, by block id.
pub struct BlockRegistry {
    blocks: Vec<BlockEntry>,
}

impl View for BlockRegistry {
    type V = Seq<(u64, BlockView)>;

    closed spec fn view(&self) -> Seq<(u64, BlockView)> {
        Seq::new(self.blocks@.len(), |i: int| (self.blocks@[i].id, self.blocks@[i].fns@))
    }
}

/// Position of the first block with this id at or after `i`.
pub open spec fn block_from(blocks: Seq<(u64, BlockView)>, id: u64, i: int) -> Option<int>
    decreases blocks.len() - i,
{
    if i < 0 || i >= blocks.len() {
        None
    } else if blocks[i].0 == id {
        Some(i)
    } else {
        block_from(blocks, id, i + 1)
    }
}

/// The code of a block.
pub open spec fn block_code(blocks: Seq<(u64, BlockView)>, id: u64) -> Option<BlockView> {
    match block_from(blocks, id, 0) {
        Some(i) => Some(blocks[i].1),
        None => None,
    }
}

proof fn block_in_range(blocks: Seq<(u64, BlockView)>, id: u64, from: int)
    requires
        0 <= from,
    ensures
        block_from(blocks, id, from) matches Some(p) ==> from <= p < blocks.len() && blocks[p].0
            == id && forall|k: int| from <= k < p ==> (#[trigger] blocks[k]).0 != id,
        block_from(blocks, id, from) is None ==> forall|k: int|
            from <= k < blocks.len() ==> (#[trigger] blocks[k]).0 != id,
    decreases blocks.len() - from,
{
    if from < blocks.len() && blocks[from].0 != id {
        block_in_range(blocks, id, from + 1);
    }
}

impl BlockRegistry {
    /// No blocks.
    pub fn new() -> (r: BlockRegistry)
        ensures
            r@ == Seq::<(u64, BlockView)>::empty(),
    {
        let r = BlockRegistry { blocks: Vec::new() };
        assert(r@ =~= Seq::<(u64, BlockView)>::empty());
        r
    }

    fn lookup_block_fns(&self, id: u64) -> (fns: Option<&BlockFns>)
        ensures
            fns is Some <==> block_code(self@, id) is Some,
            fns is Some ==> fns->0@ == block_code(self@, id)->0,
    {
        let mut i: usize = 0;
        while i < self.blocks.len()
            invariant
                i <= self.blocks.len(),
                block_from(self@, id, 0) == block_from(self@, id, i as int),
            decreases self.blocks.len() - i,
        {
            assert(self@[i as int] == (self.blocks@[i as int].id, self.blocks@[i as int].fns@));
            if self.blocks[i].id == id {
                return Some(&self.blocks[i].fns);
            }
            i += 1;
        }
        None
    }
}

/// Registers the code of a block; code registered before under the same id is
/// replaced.
pub fn register_block_fns(registry: &mut BlockRegistry, block_id: u64, fns: BlockFns)
    ensures
        forall|id: u64| #[trigger]
            block_code(final(registry)@, id) == if id == block_id {
                Some(fns@)
            } else {
                block_code(old(registry)@, id)
            },
{
    let ghost before = registry@;
    let mut i: usize = 0;
    while i < registry.blocks.len()
        invariant
            *registry == *old(registry),
            before == registry@,
            i <= registry.blocks.len(),
            block_from(before, block_id, 0) == block_from(before, block_id, i as int),
        decreases registry.blocks.len() - i,
    {
        assert(before[i as int].0 == registry.blocks@[i as int].id);
        if registry.blocks[i].id == block_id {
            registry.blocks[i].fns = fns;
            proof {
                let after = registry@;
                assert(after =~= before.update(i as int, (block_id, fns@)));
                assert forall|id: u64| #[trigger]
                    block_code(after, id) == if id == block_id {
                        Some(fns@)
                    } else {
                        block_code(before, id)
                    } by {
                    block_in_range(before, id, 0);
                    block_in_range(after, id, 0);
                    block_in_range(before, block_id, 0);
                    assert forall|k: int| 0 <= k < before.len() implies (#[trigger] after[k]).0
                        == before[k].0 by {}
                    let p = block_from(before, id, 0);
                    let q = block_from(after, id, 0);
                    if p is Some {
                        assert(after[p->0].0 == id);
                        assert(before[q->0].0 == id);
                    } else if q is Some {
                        assert(before[q->0].0 == id);
                    }
                }
            }
            return;
        }
        i += 1;
    }
    registry.blocks.push(BlockEntry { id: block_id, fns });
    proof {
        let after = registry@;
        assert(after =~= before.push((block_id, fns@)));
        assert forall|id: u64| #[trigger]
            block_code(after, id) == if id == block_id {
                Some(fns@)
            } else {
                block_code(before, id)
            } by {
            block_in_range(before, id, 0);
            block_in_range(after, id, 0);
            block_in_range(before, block_id, 0);
            let n = before.len() as int;
            assert forall|k: int| 0 <= k < n implies #[trigger] after[k] == before[k] by {}
            assert(after[n] == (block_id, fns@));
            let p = block_from(before, id, 0);
            let q = block_from(after, id, 0);
            if p is Some {
                assert(after[p->0].0 == id);
                if q->0 < n {
                    assert(before[q->0].0 == id);
                }
            } else if q is Some && q->0 < n {
                assert(before[q->0].0 == id);
            }
        }
    }
}

/// Forgets every block.
pub fn _reset_block_registry_for_tests(registry: &mut BlockRegistry)
    ensures
        final(registry)@ == Seq::<(u64, BlockView)>::empty(),
{
    registry.blocks.clear();
    assert(registry@ =~= Seq::<(u64, BlockView)>::empty());
}

// ----- the life of a block -----

/// Which piece of a block's code is running.
#[derive(Clone, Copy, PartialEq, Eq, Structural, Debug)]
pub enum BlockPhase {
    Body,
    Cleanup,
    Afterwards,
    /// Cleanup code that runs while an exit passes through.
    CleanupOnUnwind,
    Over,
}

/// A running block: where it stands and what it found when it was entered.
#[derive(Clone, Copy, PartialEq, Eq, Structural, Debug)]
pub struct BlockActivation {
    pub block_id: u64,
    pub cleanup: Option<u64>,
    pub afterwards: Option<u64>,
    pub handler_stack_baseline: usize,
    pub jit_safepoint_baseline: usize,
    pub aot_safepoint_baseline: usize,
    pub phase: BlockPhase,
    /// The value of the block, once the body is over.
    pub value: u64,
}

/// How a piece of a block's code ended.
#[derive(Clone, Copy, PartialEq, Eq, Structural, Debug)]
pub enum BlockEvent {
    Returned(u64),
    /// A non-local exit is under way.
    Exited(NlxPayload),
    /// Some other unwinding is under way.
    Panicked,
}

/// What to do next.
#[derive(Clone, Copy, PartialEq, Eq, Structural, Debug)]
pub enum BlockAction {
    /// Run this code with the captured locals.
    Run(u64),
    /// The block is over and has this value.
    Return(u64),
    /// The block is over; let the exit go on.
    Reraise,
}

/// The handler frames of a block, in source order.
pub open spec fn block_frames(block_id: u64, handlers: Seq<HandlerFnView>) -> Seq<HandlerView> {
    Seq::new(
        handlers.len(),
        |i: int|
            HandlerView {
                handler_class: handlers[i].class_id,
                target_block_id: block_id,
                handler_index: i as u32,
                handler_class_name: handlers[i].class_name,
            },
    )
}

/// Enters a block: notes the stacks it finds, makes its captured locals visible
/// and activates its handlers. Answers the code of the body to run; absent for
/// a block that is not registered.
pub fn enter_block(
    state: &mut HandlerState,
    registry: &BlockRegistry,
    jit: &ActiveSafepoints,
    aot: &ActiveSafepoints,
    block_id: u64,
    captured: [u64; 8],
) -> (entered: Option<(BlockActivation, u64)>)
    requires
        block_code(registry@, block_id) matches Some(b) ==> b.handlers.len() <= u32::MAX,
    ensures
        match block_code(registry@, block_id) {
            None => entered is None && final(state)@ == old(state)@,
            Some(b) => {
                &&& entered == Some(
                    (
                        BlockActivation {
                            block_id,
                            cleanup: b.cleanup,
                            afterwards: b.afterwards,
                            handler_stack_baseline: old(state)@.handlers.len() as usize,
                            jit_safepoint_baseline: jit@.len() as usize,
                            aot_safepoint_baseline: aot@.len() as usize,
                            phase: BlockPhase::Body,
                            value: 0,
                        },
                        b.body,
                    ),
                )
                &&& (entered->0).0.handler_stack_baseline == old(state)@.handlers.len()
                &&& (entered->0).0.jit_safepoint_baseline == jit@.len()
                &&& (entered->0).0.aot_safepoint_baseline == aot@.len()
                &&& final(state)@ == (StateView {
                    handlers: old(state)@.handlers + block_frames(block_id, b.handlers),
                    captured: old(state)@.captured.push(captured),
                })
            },
        },
{
    let fns = match registry.lookup_block_fns(block_id) {
        Some(f) => f,
        None => return None,
    };
    let ghost b = block_code(registry@, block_id)->0;
    let baseline: usize = state.handlers.len();
    let ghost before = state@.handlers;
    state.captured.push(captured);
    let mut i: usize = 0;
    assert(state@.handlers =~= before + block_frames(block_id, b.handlers).take(0));
    while i < fns.handlers.len()
        invariant
            i <= fns.handlers.len(),
            fns.handlers.len() <= u32::MAX,
            fns@ == b,
            state@.captured == old(state)@.captured.push(captured),
            state@.handlers == before + block_frames(block_id, b.handlers).take(i as int),
        decreases fns.handlers.len() - i,
    {
        let h = &fns.handlers[i];
        assert(b.handlers[i as int] == h@);
        let ghost now = state@.handlers;
        nod_push_handler(
            state,
            HandlerFrame {
                handler_class: h.class_id,
                target_block_id: block_id,
                handler_index: i as u32,
                handler_class_name: h.class_name.clone(),
            },
        );
        proof {
            let all = block_frames(block_id, b.handlers);
            assert(state@.handlers =~= now.push(all[i as int]));
            assert(all.take(i + 1) =~= all.take(i as int).push(all[i as int]));
            assert(state@.handlers =~= before + all.take(i + 1));
        }
        i += 1;
    }
    proof {
        let all = block_frames(block_id, b.handlers);
        assert(all.take(i as int) =~= all);
    }
    Some(
        (
            BlockActivation {
                block_id,
                cleanup: fns.cleanup,
                afterwards: fns.afterwards,
                handler_stack_baseline: baseline,
                jit_safepoint_baseline: jit.frames.len(),
                aot_safepoint_baseline: aot.frames.len(),
                phase: BlockPhase::Body,
                value: 0,
            },
            fns.body,
        ),
    )
}

/// Whether the event ends the body with a value for the block: the body
/// returned, or an exit to this very block arrived.
pub open spec fn body_value(a: BlockActivation, event: BlockEvent) -> Option<u64> {
    match event {
        BlockEvent::Returned(v) => Some(v),
        BlockEvent::Exited(p) => if p.target_block_id == a.block_id {
            Some(p.value.raw)
        } else {
            None
        },
        BlockEvent::Panicked => None,
    }
}

/// The next phase and action of a block after an event.
pub open spec fn next_step(
    a: BlockActivation,
    event: BlockEvent,
) -> (BlockActivation, BlockAction) {
    let after_cleanup = |v: u64|
        match a.afterwards {
            Some(code) => (
                BlockActivation { phase: BlockPhase::Afterwards, value: v, ..a },
                BlockAction::Run(code),
            ),
            None => (
                BlockActivation { phase: BlockPhase::Over, value: v, ..a },
                BlockAction::Return(v),
            ),
        };
    let unwind = match a.cleanup {
        Some(code) => (
            BlockActivation { phase: BlockPhase::CleanupOnUnwind, ..a },
            BlockAction::Run(code),
        ),
        None => (BlockActivation { phase: BlockPhase::Over, ..a }, BlockAction::Reraise),
    };
    match a.phase {
        BlockPhase::Body => match body_value(a, event) {
            Some(v) => match a.cleanup {
                Some(code) => (
                    BlockActivation { phase: BlockPhase::Cleanup, value: v, ..a },
                    BlockAction::Run(code),
                ),
                None => after_cleanup(v),
            },
            None => unwind,
        },
        BlockPhase::Cleanup => match event {
            BlockEvent::Returned(_) => after_cleanup(a.value),
            _ => unwind,
        },
        BlockPhase::Afterwards => match event {
            BlockEvent::Returned(_) => (
                BlockActivation { phase: BlockPhase::Over, ..a },
                BlockAction::Return(a.value),
            ),
            _ => (BlockActivation { phase: BlockPhase::Over, ..a }, BlockAction::Reraise),
        },
        BlockPhase::CleanupOnUnwind => (
            BlockActivation { phase: BlockPhase::Over, ..a },
            BlockAction::Reraise,
        ),
        BlockPhase::Over => (a, BlockAction::Reraise),
    }
}

/// Whether a step cuts the safepoint stacks back to where the block found them:
/// when an exit arrives at or passes through the block, and when it is over. The
/// cut comes before cleanup code that runs while an exit passes through; what that
/// code leaves stays.
pub open spec fn cuts_safepoints(a: BlockActivation, event: BlockEvent) -> bool {
    a.phase != BlockPhase::Over && a.phase != BlockPhase::CleanupOnUnwind && (next_step(
        a,
        event,
    ).0.phase == BlockPhase::Over || !(event is Returned))
}

/// Whether a step cuts the handler stack back to where the block found it: when
/// an exit passes through the block, and when it is over. The cut comes before
/// cleanup code that runs while an exit passes through; what that code leaves
/// stays.
pub open spec fn cuts_handlers(a: BlockActivation, event: BlockEvent) -> bool {
    a.phase != BlockPhase::Over && a.phase != BlockPhase::CleanupOnUnwind && (next_step(
        a,
        event,
    ).0.phase == BlockPhase::Over || next_step(a, event).0.phase == BlockPhase::CleanupOnUnwind)
}

/// Tells a running block how its code ended, and learns what to do next. Cleanup
/// code that runs while an exit passes through has to return: leaving it another
/// way ends the process.
pub fn step_block(
    state: &mut HandlerState,
    jit: &mut ActiveSafepoints,
    aot: &mut ActiveSafepoints,
    activation: &mut BlockActivation,
    event: BlockEvent,
) -> (action: BlockAction)
    requires
        old(activation).phase == BlockPhase::CleanupOnUnwind ==> event is Returned,
    ensures
        (*final(activation), action) == next_step(*old(activation), event),
        final(jit)@ == if cuts_safepoints(*old(activation), event) {
            cut(old(jit)@, old(activation).jit_safepoint_baseline as int)
        } else {
            old(jit)@
        },
        final(aot)@ == if cuts_safepoints(*old(activation), event) {
            cut(old(aot)@, old(activation).aot_safepoint_baseline as int)
        } else {
            old(aot)@
        },
        final(state)@.handlers == if cuts_handlers(*old(activation), event) {
            cut(old(state)@.handlers, old(activation).handler_stack_baseline as int)
        } else {
            old(state)@.handlers
        },
        final(state)@.captured == if old(activation).phase != BlockPhase::Over
            && final(activation).phase == BlockPhase::Over && old(state)@.captured.len() > 0 {
            old(state)@.captured.drop_last()
        } else {
            old(state)@.captured
        },
{
    let a = *activation;
    if a.phase == BlockPhase::Over {
        return BlockAction::Reraise;
    }
    if a.phase == BlockPhase::CleanupOnUnwind {
        activation.phase = BlockPhase::Over;
        state.pop_captured();
        return BlockAction::Reraise;
    }
    let returned = match event {
        BlockEvent::Returned(_) => true,
        _ => false,
    };
    let arrived: Option<u64> = match event {
        BlockEvent::Returned(v) => Some(v),
        BlockEvent::Exited(p) => {
            if p.target_block_id == a.block_id {
                Some(p.value.raw)
            } else {
                None
            }
        },
        BlockEvent::Panicked => None,
    };
    if !returned {
        jit.truncate_active_aot_safepoints(a.jit_safepoint_baseline);
        aot.truncate_active_aot_safepoints(a.aot_safepoint_baseline);
    }
    let action = match a.phase {
        BlockPhase::Body => match arrived {
            Some(v) => {
                activation.value = v;
                match a.cleanup {
                    Some(code) => {
                        activation.phase = BlockPhase::Cleanup;
                        BlockAction::Run(code)
                    },
                    None => go_on_after_cleanup(activation),
                }
            },
            None => go_on_unwinding(activation),
        },
        BlockPhase::Cleanup => {
            if returned {
                go_on_after_cleanup(activation)
            } else {
                go_on_unwinding(activation)
            }
        },
        BlockPhase::Afterwards => {
            activation.phase = BlockPhase::Over;
            if returned {
                BlockAction::Return(a.value)
            } else {
                BlockAction::Reraise
            }
        },
        _ => {
            activation.phase = BlockPhase::Over;
            BlockAction::Reraise
        },
    };
    if activation.phase == BlockPhase::Over || activation.phase == BlockPhase::CleanupOnUnwind {
        state.truncate_handlers(a.handler_stack_baseline);
    }
    if activation.phase == BlockPhase::Over {
        jit.truncate_active_aot_safepoints(a.jit_safepoint_baseline);
        aot.truncate_active_aot_safepoints(a.aot_safepoint_baseline);
        state.pop_captured();
    }
    action
}

/// Goes on to the afterwards code, or ends the block with its value.
fn go_on_after_cleanup(activation: &mut BlockActivation) -> (action: BlockAction)
    ensures
        (*final(activation), action) == match old(activation).afterwards {
            Some(code) => (
                BlockActivation { phase: BlockPhase::Afterwards, ..*old(activation) },
                BlockAction::Run(code),
            ),
            None => (
                BlockActivation { phase: BlockPhase::Over, ..*old(activation) },
                BlockAction::Return(old(activation).value),
            ),
        },
{
    match activation.afterwards {
        Some(code) => {
            activation.phase = BlockPhase::Afterwards;
            BlockAction::Run(code)
        },
        None => {
            activation.phase = BlockPhase::Over;
            BlockAction::Return(activation.value)
        },
    }
}

/// Goes on to the cleanup code while an exit passes through, or ends the block.
fn go_on_unwinding(activation: &mut BlockActivation) -> (action: BlockAction)
    ensures
        (*final(activation), action) == match old(activation).cleanup {
            Some(code) => (
                BlockActivation { phase: BlockPhase::CleanupOnUnwind, ..*old(activation) },
                BlockAction::Run(code),
            ),
            None => (
                BlockActivation { phase: BlockPhase::Over, ..*old(activation) },
                BlockAction::Reraise,
            ),
        },
{
    match activation.cleanup {
        Some(code) => {
            activation.phase = BlockPhase::CleanupOnUnwind;
            BlockAction::Run(code)
        },
        None => {
            activation.phase = BlockPhase::Over;
            BlockAction::Reraise
        },
    }
}

// ----- laws of blocks -----

/// A cut leaves the stacks as the block found them, provided that the code in
/// between left alone what was below.
pub proof fn block_restores_stacks<T>(found: Seq<T>, now: Seq<T>)
    requires
        now.len() >= found.len(),
        now.take(found.len() as int) == found,
    ensures
        cut(now, found.len() as int) == found,
{
    assert(now.len() == found.len() ==> now =~= now.take(found.len() as int));
}

/// The step that ends a block, and the step that starts its cleanup code because
/// an exit passes through, cut back both kinds of stack; only that cleanup code
/// comes after the cut.
pub proof fn ending_cuts_all_stacks(a: BlockActivation, event: BlockEvent)
    requires
        a.phase != BlockPhase::Over,
        a.phase != BlockPhase::CleanupOnUnwind,
        next_step(a, event).0.phase == BlockPhase::Over || next_step(a, event).0.phase
            == BlockPhase::CleanupOnUnwind,
    ensures
        cuts_handlers(a, event),
        cuts_safepoints(a, event),
{
}

/// A block whose code returns throughout runs its body, then its cleanup, then
/// its afterwards code, each once, and gives the value of the body.
pub proof fn quiet_block_runs_in_order(a: BlockActivation, v: u64, c: u64, w: u64)
    requires
        a.phase == BlockPhase::Body,
    ensures
        ({
            let (a1, s1) = next_step(a, BlockEvent::Returned(v));
            let (a2, s2) = if a.cleanup is Some {
                next_step(a1, BlockEvent::Returned(c))
            } else {
                (a1, s1)
            };
            let (a3, s3) = if a.afterwards is Some {
                next_step(a2, BlockEvent::Returned(w))
            } else {
                (a2, s2)
            };
            &&& a.cleanup is Some ==> s1 == BlockAction::Run(a.cleanup->0)
            &&& a.afterwards is Some ==> s2 == BlockAction::Run(a.afterwards->0)
            &&& s3 == BlockAction::Return(v)
            &&& a3.phase == BlockPhase::Over
        }),
{
}

/// An exit to another block runs the cleanup once and then goes on.
pub proof fn foreign_exit_passes_through(a: BlockActivation, p: NlxPayload, c: u64)
    requires
        a.phase == BlockPhase::Body,
        p.target_block_id != a.block_id,
    ensures
        ({
            let (a1, s1) = next_step(a, BlockEvent::Exited(p));
            let (a2, s2) = if a.cleanup is Some {
                next_step(a1, BlockEvent::Returned(c))
            } else {
                (a1, s1)
            };
            &&& a.cleanup is Some ==> s1 == BlockAction::Run(a.cleanup->0)
            &&& s2 == BlockAction::Reraise
            &&& a2.phase == BlockPhase::Over
        }),
{
}

/// An exit to this block gives the block the value of the exit.
pub proof fn exit_gives_value(a: BlockActivation, p: NlxPayload)
    requires
        a.phase == BlockPhase::Body,
        p.target_block_id == a.block_id,
    ensures
        next_step(a, BlockEvent::Exited(p)) == next_step(a, BlockEvent::Returned(p.value.raw)),
{
}

// ----- signalling -----

/// What signalling a condition comes to.
pub enum SignalAction {
    /// Run the handler code with the condition and the captured locals, then
    /// leave this block with the handler's value.
    RunHandler { code: u64, condition: u64, captured: [u64; 8], target_block_id: u64 },
    /// Nobody handles the condition, or it cannot be handled; this says why.
    Fail { message: String },
}

/// Position of the innermost of the first `n` handlers that takes conditions of
/// a class.
pub open spec fn handler_for(
    t: TableView,
    handlers: Seq<HandlerView>,
    class: ClassId,
    n: int,
) -> Option<int>
    decreases n,
{
    if n <= 0 || n > handlers.len() {
        None
    } else if t.subclass(class, handlers[n - 1].handler_class) {
        Some(n - 1)
    } else {
        handler_for(t, handlers, class, n - 1)
    }
}

/// The handler that a signal picks takes the condition, and no handler inside it
/// does.
pub proof fn innermost_handler_wins(
    t: TableView,
    handlers: Seq<HandlerView>,
    class: ClassId,
    n: int,
)
    requires
        0 <= n <= handlers.len(),
    ensures
        handler_for(t, handlers, class, n) matches Some(i) ==> 0 <= i < n && t.subclass(
            class,
            handlers[i].handler_class,
        ) && forall|k: int|
            i < k < n ==> !t.subclass(class, (#[trigger] handlers[k]).handler_class),
        handler_for(t, handlers, class, n) is None ==> forall|k: int|
            0 <= k < n ==> !t.subclass(class, (#[trigger] handlers[k]).handler_class),
    decreases n,
{
    if n > 0 && !t.subclass(class, handlers[n - 1].handler_class) {
        innermost_handler_wins(t, handlers, class, n - 1);
    }
}

/// The text in a cell of a condition, or a question mark.
pub open spec fn cell_text_or_mark(h: Seq<ObjectView>, c: Word, i: int) -> Seq<char> {
    match cell_at(h, c, i) {
        Some(w) => match held_text(h, w) {
            Some(s) => s,
            None => "?"@,
        },
        None => "?"@,
    }
}

/// What is shown of an unhandled condition besides its class.
pub open spec fn unhandled_detail_text(
    t: TableView,
    ids: ConditionClasses,
    h: Seq<ObjectView>,
    c: Word,
    class: ClassId,
) -> Seq<char> {
    if t.subclass(class, ids.no_applicable_methods_error) {
        "no applicable method for `"@ + cell_text_or_mark(h, c, 0) + "` on ("@ + cell_text_or_mark(
            h,
            c,
            1,
        ) + ")"@
    } else if t.subclass(class, ids.simple_error) && cell_at(h, c, 2) is Some && held_text(
        h,
        cell_at(h, c, 2)->0,
    ) is Some {
        held_text(h, cell_at(h, c, 2)->0)->0
    } else {
        seq![]
    }
}

fn cell_text(heap: &Heap, c: Word, i: usize) -> (s: Option<String>)
    ensures
        s is Some <==> cell_at(heap@, c, i as int) is Some && held_text(
            heap@,
            cell_at(heap@, c, i as int)->0,
        ) is Some,
        s is Some ==> s->0@ == held_text(heap@, cell_at(heap@, c, i as int)->0)->0,
{
    match heap.cell(c, i) {
        Some(w) => decode_byte_string_to_string(heap, w),
        None => None,
    }
}

fn unhandled_detail(
    table: &ClassTable,
    ids: &ConditionClasses,
    heap: &Heap,
    condition: Word,
    cond_class: ClassId,
) -> (s: String)
    ensures
        s@ == unhandled_detail_text(table@, *ids, heap@, condition, cond_class),
{
    if is_subclass(table, cond_class, ids.no_applicable_methods_error) {
        let mut s = String::from_str("no applicable method for `");
        match cell_text(heap, condition, 0) {
            Some(g) => s.append(g.as_str()),
            None => s.append("?"),
        }
        s.append("` on (");
        match cell_text(heap, condition, 1) {
            Some(a) => s.append(a.as_str()),
            None => s.append("?"),
        }
        s.append(")");
        return s;
    }
    if is_subclass(table, cond_class, ids.simple_error) {
        if let Some(message) = cell_text(heap, condition, 2) {
            return message;
        }
    }
    let s = String::new();
    assert(s@ =~= seq![]);
    s
}

/// What is said of a condition that nobody handles.
pub open spec fn unhandled_text(
    t: TableView,
    ids: ConditionClasses,
    h: Seq<ObjectView>,
    c: Word,
    class: ClassId,
) -> Seq<char> {
    let detail = unhandled_detail_text(t, ids, h, c, class);
    if detail.len() == 0 {
        "unhandled signalled condition: "@ + shown_name(t, class)
    } else {
        "unhandled signalled condition: "@ + shown_name(t, class) + ": "@ + detail
    }
}

/// The captured locals that a handler sees: those of the innermost block.
pub open spec fn visible_captured(captured: Seq<[u64; 8]>) -> Seq<u64> {
    if captured.len() > 0 {
        captured.last()@
    } else {
        seq![0u64, 0, 0, 0, 0, 0, 0, 0]
    }
}

/// The action answers a signal.
pub open spec fn signal_answered(
    t: TableView,
    ids: ConditionClasses,
    h: Seq<ObjectView>,
    s: StateView,
    blocks: Seq<(u64, BlockView)>,
    c: Word,
    action: SignalAction,
) -> bool {
    match class_at(h, c) {
        None => action matches SignalAction::Fail { message } && message@
            == "signal: condition argument is not a heap-tagged Dylan object (raw = 0x"@
            + hex_digits(c.raw as nat) + ")"@,
        Some(class) => match handler_for(t, s.handlers, class, s.handlers.len() as int) {
            None => action matches SignalAction::Fail { message } && message@ == unhandled_text(
                t,
                ids,
                h,
                c,
                class,
            ),
            Some(i) => {
                let f = s.handlers[i];
                match block_code(blocks, f.target_block_id) {
                    None => action matches SignalAction::Fail { message } && message@
                        == "signal: block-id "@ + decimal_digits(f.target_block_id as nat)
                        + " matched a handler but isn't in the block registry"@,
                    Some(b) => if f.handler_index < b.handlers.len() {
                        action matches SignalAction::RunHandler {
                            code,
                            condition,
                            captured,
                            target_block_id,
                        } && code == b.handlers[f.handler_index as int].body && condition == c.raw
                            && captured@ == visible_captured(s.captured) && target_block_id
                            == f.target_block_id
                    } else {
                        action matches SignalAction::Fail { message } && message@
                            == "handler-index out of range vs. registered handlers"@
                    },
                }
            },
        },
    }
}

/// Signals a condition: picks the innermost handler that takes it.
pub fn nod_signal(
    table: &ClassTable,
    ids: &ConditionClasses,
    heap: &Heap,
    state: &HandlerState,
    registry: &BlockRegistry,
    condition_raw: u64,
) -> (action: SignalAction)
    ensures
        signal_answered(
            table@,
            *ids,
            heap@,
            state@,
            registry@,
            Word { raw: condition_raw },
            action,
        ),
{
    let condition = Word::from_raw(condition_raw);
    let class = match heap.class_of(condition) {
        Some(c) => c,
        None => {
            let mut message = String::from_str(
                "signal: condition argument is not a heap-tagged Dylan object (raw = 0x",
            );
            message.append(hexadecimal(condition_raw).as_str());
            message.append(")");
            return SignalAction::Fail { message };
        },
    };
    let ghost handlers = state@.handlers;
    let total: usize = state.handlers.len();
    let mut n: usize = total;
    let mut found = false;
    while n > 0 && !found
        invariant
            n <= total,
            total == state.handlers.len(),
            handlers == state@.handlers,
            handler_for(table@, handlers, class, total as int) == handler_for(
                table@,
                handlers,
                class,
                n as int,
            ),
            found ==> n > 0 && table@.subclass(class, handlers[n - 1].handler_class),
        decreases n + (if found { 0int } else { 1 }),
    {
        assert(handlers[n - 1] == state.handlers@[n - 1]@);
        if is_subclass(table, class, state.handlers[n - 1].handler_class) {
            found = true;
        } else {
            n -= 1;
        }
    }
    if !found {
        let mut message = String::from_str("unhandled signalled condition: ");
        message.append(class_name(table, class).as_str());
        let detail = unhandled_detail(table, ids, heap, condition, class);
        if !detail.as_str().is_empty() {
            message.append(": ");
            message.append(detail.as_str());
        }
        return SignalAction::Fail { message };
    }
    let frame = &state.handlers[n - 1];
    assert(handlers[n - 1] == frame@);
    let fns = match registry.lookup_block_fns(frame.target_block_id) {
        Some(f) => f,
        None => {
            let mut message = String::from_str("signal: block-id ");
            message.append(decimal_unsigned(frame.target_block_id).as_str());
            message.append(" matched a handler but isn't in the block registry");
            return SignalAction::Fail { message };
        },
    };
    if frame.handler_index as u64 >= fns.handlers.len() as u64 {
        return SignalAction::Fail {
            message: String::from_str("handler-index out of range vs. registered handlers"),
        };
    }
    let index: usize = frame.handler_index as usize;
    let depth: usize = state.captured.len();
    let captured: [u64; 8] = if depth > 0 {
        state.captured[depth - 1]
    } else {
        [0, 0, 0, 0, 0, 0, 0, 0]
    };
    assert(captured@ =~= visible_captured(state@.captured));
    SignalAction::RunHandler {
        code: fns.handlers[index].body,
        condition: condition_raw,
        captured,
        target_block_id: frame.target_block_id,
    }
}

/// The exit that follows when a handler has given its value.
pub fn exit_after_handler(target_block_id: u64, result: u64) -> (exit: NlxPayload)
    ensures
        exit == (NlxPayload { target_block_id, value: Word { raw: result } }),
{
    NlxPayload { target_block_id, value: Word::from_raw(result) }
}

/// The message of an error that is raised with an argument word.
pub open spec fn error_message(h: Seq<ObjectView>, w: Word) -> Seq<char> {
    match object_at(h, w) {
        Some(o) => lossy_text(o.bytes),
        None => "<non-string error argument>"@,
    }
}

/// Makes a `<simple-error>` of an argument word and signals it.
pub fn nod_error(
    table: &ClassTable,
    ids: &ConditionClasses,
    literals: &mut LiteralPool,
    heap: &mut Heap,
    state: &HandlerState,
    registry: &BlockRegistry,
    msg_raw: u64,
) -> (action: SignalAction)
    requires
        heap_wf(old(heap)@),
        heap_room(old(heap)@, 2),
    ensures
        message_condition_made(
            old(literals)@,
            old(heap)@,
            ids.simple_error,
            error_message(old(heap)@, Word { raw: msg_raw }),
            final(literals)@,
            final(heap)@,
            word_of(final(heap)@.len() - 1),
        ),
        signal_answered(
            table@,
            *ids,
            final(heap)@,
            state@,
            registry@,
            word_of(final(heap)@.len() - 1),
            action,
        ),
        heap_wf(final(heap)@),
{
    let message = match heap.get(Word::from_raw(msg_raw)) {
        Some(o) => text_from_utf8_lossy(&o.bytes),
        None => String::from_str("<non-string error argument>"),
    };
    let condition = make_simple_error(literals, heap, ids, message.as_str());
    nod_signal(table, ids, heap, state, registry, condition.raw())
}

// ----- what signalling is for -----

/// The innermost handler of a stack that ends in handlers that do not take the
/// condition is found below them.
proof fn handler_below(t: TableView, handlers: Seq<HandlerView>, class: ClassId, n: int, m: int)
    requires
        0 <= n <= m <= handlers.len(),
        forall|k: int| n <= k < m ==> !t.subclass(class, (#[trigger] handlers[k]).handler_class),
    ensures
        handler_for(t, handlers, class, m) == handler_for(t, handlers, class, n),
    decreases m - n,
{
    if n < m {
        assert(!t.subclass(class, handlers[m - 1].handler_class));
        handler_below(t, handlers, class, n, m - 1);
    }
}

/// Handlers pushed on top do not change what is found below.
proof fn handler_in_prefix(
    t: TableView,
    below: Seq<HandlerView>,
    above: Seq<HandlerView>,
    class: ClassId,
    n: int,
)
    requires
        n <= below.len(),
    ensures
        handler_for(t, below + above, class, n) == handler_for(t, below, class, n),
    decreases n,
{
    if n > 0 {
        assert((below + above)[n - 1] == below[n - 1]);
        handler_in_prefix(t, below, above, class, n - 1);
    }
}

/// While a block is active, a condition that its clause `i` takes, and no later
/// clause and no handler pushed inside it, runs the code registered for clause
/// `i`, with the condition and the captured locals, and leaves that block.
pub proof fn clause_that_takes_the_condition_runs(
    t: TableView,
    ids: ConditionClasses,
    h: Seq<ObjectView>,
    outside: Seq<HandlerView>,
    inside: Seq<HandlerView>,
    captured: Seq<[u64; 8]>,
    blocks: Seq<(u64, BlockView)>,
    block_id: u64,
    b: BlockView,
    i: int,
    c: Word,
    o: ObjectView,
    action: SignalAction,
)
    requires
        object_at(h, c) == Some(o),
        block_code(blocks, block_id) == Some(b),
        b.handlers.len() <= u32::MAX,
        0 <= i < b.handlers.len(),
        t.subclass(o.class, b.handlers[i].class_id),
        forall|j: int|
            i < j < b.handlers.len() ==> !t.subclass(o.class, (#[trigger] b.handlers[j]).class_id),
        forall|k: int|
            0 <= k < inside.len() ==> !t.subclass(o.class, (#[trigger] inside[k]).handler_class),
        signal_answered(
            t,
            ids,
            h,
            StateView {
                handlers: outside + block_frames(block_id, b.handlers) + inside,
                captured,
            },
            blocks,
            c,
            action,
        ),
    ensures
        action matches SignalAction::RunHandler {
            code,
            condition,
            captured: locals,
            target_block_id,
        } && {
            &&& code == b.handlers[i].body
            &&& condition == c.raw
            &&& target_block_id == block_id
            &&& captured.len() > 0 ==> forall|k: int|
                0 <= k < 8 ==> #[trigger] locals@[k] == captured[captured.len() - 1]@[k]
        },
{
    let frames = block_frames(block_id, b.handlers);
    let all = outside + frames + inside;
    let at = outside.len() + i;
    assert(all[at] == frames[i]);
    assert forall|k: int| at + 1 <= k < all.len() implies !t.subclass(
        o.class,
        (#[trigger] all[k]).handler_class,
    ) by {
        let j = k - outside.len();
        if j < frames.len() {
            assert(all[k] == frames[j]);
            assert(frames[j].handler_class == b.handlers[j].class_id);
        } else {
            assert(all[k] == inside[j - frames.len()]);
        }
    }
    handler_below(t, all, o.class, at + 1, all.len() as int);
    assert(t.subclass(o.class, all[at].handler_class));
    assert(handler_for(t, all, o.class, at + 1) == Some(at));
}

/// A condition that no clause of a block takes, and no handler pushed inside it,
/// is answered as if the block were not there.
pub proof fn other_conditions_pass_the_block(
    t: TableView,
    ids: ConditionClasses,
    h: Seq<ObjectView>,
    outside: Seq<HandlerView>,
    inside: Seq<HandlerView>,
    captured: Seq<[u64; 8]>,
    blocks: Seq<(u64, BlockView)>,
    block_id: u64,
    b: BlockView,
    c: Word,
    o: ObjectView,
    action: SignalAction,
)
    requires
        object_at(h, c) == Some(o),
        forall|j: int|
            0 <= j < b.handlers.len() ==> !t.subclass(
                o.class,
                (#[trigger] b.handlers[j]).class_id,
            ),
        forall|k: int|
            0 <= k < inside.len() ==> !t.subclass(o.class, (#[trigger] inside[k]).handler_class),
        signal_answered(
            t,
            ids,
            h,
            StateView {
                handlers: outside + block_frames(block_id, b.handlers) + inside,
                captured,
            },
            blocks,
            c,
            action,
        ),
    ensures
        signal_answered(
            t,
            ids,
            h,
            StateView { handlers: outside, captured },
            blocks,
            c,
            action,
        ),
{
    let frames = block_frames(block_id, b.handlers);
    let all = outside + frames + inside;
    let n = outside.len() as int;
    assert forall|k: int| n <= k < all.len() implies !t.subclass(
        o.class,
        (#[trigger] all[k]).handler_class,
    ) by {
        let j = k - n;
        if j < frames.len() {
            assert(all[k] == frames[j]);
            assert(frames[j].handler_class == b.handlers[j].class_id);
        } else {
            assert(all[k] == inside[j - frames.len()]);
        }
    }
    handler_below(t, all, o.class, n, all.len() as int);
    assert(all =~= outside + (frames + inside));
    handler_in_prefix(t, outside, frames + inside, o.class, n);
    innermost_handler_wins(t, outside, o.class, n);
    assert forall|k: int| 0 <= k < n implies #[trigger] all[k] == outside[k] by {}
}

/// The handler that runs for a condition belongs to an active clause of the block
/// that is left, the clause takes the condition's class, and no clause pushed after
/// it does. The code is the one registered for that clause.
pub proof fn handler_that_runs_takes_the_condition(
    t: TableView,
    ids: ConditionClasses,
    h: Seq<ObjectView>,
    s: StateView,
    blocks: Seq<(u64, BlockView)>,
    c: Word,
    action: SignalAction,
) -> (i: int)
    requires
        signal_answered(t, ids, h, s, blocks, c, action),
        action is RunHandler,
    ensures
        object_at(h, c) is Some,
        0 <= i < s.handlers.len(),
        t.subclass(object_at(h, c)->0.class, s.handlers[i].handler_class),
        forall|k: int|
            i < k < s.handlers.len() ==> !t.subclass(
                object_at(h, c)->0.class,
                (#[trigger] s.handlers[k]).handler_class,
            ),
        action matches SignalAction::RunHandler { code, condition, captured: _, target_block_id }
            && {
            let b = block_code(blocks, target_block_id);
            &&& target_block_id == s.handlers[i].target_block_id
            &&& condition == c.raw
            &&& b is Some
            &&& s.handlers[i].handler_index < b->0.handlers.len()
            &&& code == b->0.handlers[s.handlers[i].handler_index as int].body
        },
{
    let class = class_at(h, c)->0;
    innermost_handler_wins(t, s.handlers, class, s.handlers.len() as int);
    handler_for(t, s.handlers, class, s.handlers.len() as int)->0
}

/// A condition that no active clause takes runs no handler.
pub proof fn untaken_conditions_run_no_handler(
    t: TableView,
    ids: ConditionClasses,
    h: Seq<ObjectView>,
    s: StateView,
    blocks: Seq<(u64, BlockView)>,
    c: Word,
    o: ObjectView,
    action: SignalAction,
)
    requires
        signal_answered(t, ids, h, s, blocks, c, action),
        object_at(h, c) == Some(o),
        forall|k: int|
            0 <= k < s.handlers.len() ==> !t.subclass(
                o.class,
                (#[trigger] s.handlers[k]).handler_class,
            ),
    ensures
        action matches SignalAction::Fail { message } && message@.len() >= 31 && message@.take(31)
            == "unhandled signalled condition: "@,
        t.subclass(o.class, ids.simple_error) && !t.subclass(o.class, ids.no_applicable_methods_error)
            && cell_at(h, c, 2) is Some && held_text(h, cell_at(h, c, 2)->0) is Some && held_text(
            h,
            cell_at(h, c, 2)->0,
        )->0.len() > 0 ==> (action matches SignalAction::Fail { message } && message@
            == "unhandled signalled condition: "@ + shown_name(t, o.class) + ": "@ + held_text(
            h,
            cell_at(h, c, 2)->0,
        )->0),
{
    reveal_strlit("unhandled signalled condition: ");
    innermost_handler_wins(t, s.handlers, o.class, s.handlers.len() as int);
    let head = "unhandled signalled condition: "@;
    let text = unhandled_text(t, ids, h, c, o.class);
    assert(text.take(31) =~= head);
}

/// The clauses of a block become frames in source order: each for the class of its
/// clause, with the block to leave and the number of the clause.
pub proof fn clauses_become_frames(block_id: u64, handlers: Seq<HandlerFnView>, i: int)
    requires
        0 <= i < handlers.len() <= u32::MAX,
    ensures
        block_frames(block_id, handlers).len() == handlers.len(),
        block_frames(block_id, handlers)[i].handler_class == handlers[i].class_id,
        block_frames(block_id, handlers)[i].target_block_id == block_id,
        block_frames(block_id, handlers)[i].handler_index == i,
        block_frames(block_id, handlers)[i].handler_class_name == handlers[i].class_name,
{
}

/// A block's code is that of the first entry with its id.
pub proof fn blocks_are_found_by_id(blocks: Seq<(u64, BlockView)>, id: u64)
    ensures
        block_code(blocks, id) matches Some(b) ==> exists|i: int|
            0 <= i < blocks.len() && (#[trigger] blocks[i]) == (id, b) && forall|k: int|
                0 <= k < i ==> (#[trigger] blocks[k]).0 != id,
        block_code(blocks, id) is None ==> forall|k: int|
            0 <= k < blocks.len() ==> (#[trigger] blocks[k]).0 != id,
{
    block_in_range(blocks, id, 0);
    if block_code(blocks, id) is Some {
        let i = block_from(blocks, id, 0)->0;
        assert(blocks[i] == (id, block_code(blocks, id)->0));
    }
}

// ----- what blocks are for -----

/// Some other unwinding out of the body runs the cleanup once and then goes on.
pub proof fn unwinding_passes_through(a: BlockActivation, c: u64)
    requires
        a.phase == BlockPhase::Body,
    ensures
        ({
            let (a1, s1) = next_step(a, BlockEvent::Panicked);
            let (a2, s2) = if a.cleanup is Some {
                next_step(a1, BlockEvent::Returned(c))
            } else {
                (a1, s1)
            };
            &&& a.cleanup is Some ==> s1 == BlockAction::Run(a.cleanup->0)
            &&& s2 == BlockAction::Reraise
            &&& a2.phase == BlockPhase::Over
        }),
{
}

/// Cleanup code that is left by an exit runs once more on the way out; afterwards
/// code that is left ends the block at once, and the exit goes on.
pub proof fn left_cleanup_and_afterwards(a: BlockActivation, event: BlockEvent, c: u64)
    requires
        !(event is Returned),
    ensures
        a.phase == BlockPhase::Cleanup && a.cleanup is Some ==> {
            let (a1, s1) = next_step(a, event);
            let (a2, s2) = next_step(a1, BlockEvent::Returned(c));
            &&& s1 == BlockAction::Run(a.cleanup->0)
            &&& s2 == BlockAction::Reraise
            &&& a2.phase == BlockPhase::Over
        },
        a.phase == BlockPhase::Afterwards ==> {
            let (a1, s1) = next_step(a, event);
            s1 == BlockAction::Reraise && a1.phase == BlockPhase::Over
        },
{
}

/// The stacks are left alone as long as the code of a block returns and the block
/// goes on. An exit that arrives at the block cuts the safepoints at once; one that
/// passes through cuts the handlers too, before any cleanup code runs.
pub proof fn stacks_are_cut_in_time(a: BlockActivation, event: BlockEvent)
    requires
        a.phase == BlockPhase::Body || a.phase == BlockPhase::Cleanup,
    ensures
        event is Returned && (a.afterwards is Some || (a.phase == BlockPhase::Body && a.cleanup
            is Some)) ==> !cuts_safepoints(a, event) && !cuts_handlers(a, event),
        event is Returned && a.afterwards is None && (a.phase == BlockPhase::Cleanup || a.cleanup
            is None) ==> cuts_safepoints(a, event) && cuts_handlers(a, event),
        !(event is Returned) ==> cuts_safepoints(a, event),
        event is Panicked ==> cuts_handlers(a, event),
        event matches BlockEvent::Exited(p) && p.target_block_id != a.block_id ==> cuts_handlers(
            a,
            event,
        ),
        a.phase == BlockPhase::Body && a.cleanup is Some && (event matches BlockEvent::Exited(p)
            && p.target_block_id == a.block_id) ==> !cuts_handlers(a, event),
{
}

/// A stack is cut to the frames that were there first, and one that is short
/// enough stays.
pub proof fn cutting_keeps_the_oldest<T>(stack: Seq<T>, n: int)
    requires
        0 <= n,
    ensures
        n <= stack.len() ==> cut(stack, n).len() == n,
        n >= stack.len() ==> cut(stack, n) == stack,
        forall|i: int| 0 <= i < n && i < stack.len() ==> #[trigger] cut(stack, n)[i] == stack[i],
{
}

/// The report lists the handlers line by line, in order, each with its number, its
/// class and its block.
pub proof fn reports_list_every_handler(
    frames: Seq<HandlerView>,
    before: Seq<char>,
    after: Seq<char>,
    n: int,
)
    requires
        0 <= n < frames.len(),
    ensures
        handler_lines(frames, before, after, 0).len() == 0,
        handler_lines(frames, before, after, n + 1) == handler_lines(frames, before, after, n)
            + before + decimal_digits(n as nat) + after + " class="@
            + frames[n].handler_class_name + " block-id="@ + decimal_digits(
            frames[n].target_block_id as nat,
        ) + " handler-index="@ + decimal_digits(frames[n].handler_index as nat) + "\n"@,
{
    let line = before + decimal_digits(n as nat) + after + handler_line_tail(frames[n]);
    assert(handler_lines(frames, before, after, n + 1) =~= handler_lines(frames, before, after, n)
        + before + decimal_digits(n as nat) + after + " class="@ + frames[n].handler_class_name
        + " block-id="@ + decimal_digits(frames[n].target_block_id as nat) + " handler-index="@
        + decimal_digits(frames[n].handler_index as nat) + "\n"@);
}

/// The message of an error is the text of its argument.
pub proof fn errors_say_their_argument(h: Seq<ObjectView>, w: Word)
    ensures
        object_at(h, w) matches Some(o) ==> error_message(h, w) == lossy_text(o.bytes),
        object_at(h, w) is None ==> error_message(h, w) == "<non-string error argument>"@,
{
}

/// A condition that nobody handles is reported by its class; a simple error is reported with
/// its message, and a call without a method with the generic and the classes of the arguments.
pub proof fn unhandled_conditions_are_reported(
    t: TableView,
    ids: ConditionClasses,
    h: Seq<ObjectView>,
    c: Word,
    o: ObjectView,
    first: Seq<char>,
    second: Seq<char>,
    message: Seq<char>,
)
    requires
        object_at(h, c) == Some(o),
    ensures
        ({
            let s = unhandled_text(t, ids, h, c, o.class);
            let front = "unhandled signalled condition: "@ + shown_name(t, o.class);
            let no_method = t.subclass(o.class, ids.no_applicable_methods_error);
            let simple = t.subclass(o.class, ids.simple_error);
            &&& !no_method && !simple ==> s == front
            &&& !no_method && simple && o.cells.len() > 2 && message.len() > 0 && object_at(
                h,
                o.cells[2],
            ) == Some(bytes_object(encode_utf8(message))) ==> s == front + ": "@ + message
            &&& no_method && o.cells.len() > 1 && object_at(h, o.cells[0]) == Some(
                bytes_object(encode_utf8(first)),
            ) && object_at(h, o.cells[1]) == Some(bytes_object(encode_utf8(second))) ==> s == front
                + ": "@ + ("no applicable method for `"@ + first + "` on ("@ + second + ")"@)
        }),
{
    reveal_strlit(")");
    if o.cells.len() > 0 {
        byte_strings_hold_their_text(h, o.cells[0], first);
    }
    if o.cells.len() > 1 {
        byte_strings_hold_their_text(h, o.cells[1], second);
    }
    if o.cells.len() > 2 {
        byte_strings_hold_their_text(h, o.cells[2], message);
    }
    let detail = "no applicable method for `"@ + first + "` on ("@ + second + ")"@;
    assert(detail.len() > 0);
}

} // verus!
