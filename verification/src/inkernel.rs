//! The demonstration that the kernel runs before it enters user mode: it creates objects,
//! revokes a subtree of capabilities, exchanges messages with a second thread, measures round
//! trips, and shares a frame between two address spaces.
//!
//! The demonstration runs in steps, each of which ends with one request, or with its end.

use crate::boot::started;
use crate::cdt::{derived_capability, CapEntry, CapTableView, GlobalCapId};
use crate::config::PAGE_SIZE;
use crate::grant::revoked;
use crate::handover::{with_tcb, Returned};
use crate::ids::{CapId, CapSpaceId, ThreadId, UntypedId};
use crate::launch::cap_in;
use crate::message::{MessageView, SmallMessage};
use crate::objects::KernelObjectType;
use crate::paging::{map_from, mapping_from, PoolCursor, RangeMapping, MAP_FAILED, ROOT_TABLE_BYTES};
use crate::pci_wire::KERNEL_RW;
use crate::preempt::exited;
use crate::report::{
    aliased, spaces_share_frame, RoundTrips, IPC_BENCH_ITERATIONS, SPACE_A_MARK,
    SPACE_B_MARK,
};
use crate::rights::{CapabilityRights, ALL_BITS, READ_BIT, WRITE_BIT};
use crate::state::{slot, KernelState, KernelView};
use crate::syscall::{SyscallOp, SyscallReturn};
use crate::tcb::{Tcb, ThreadExit};
use vstd::prelude::*;

verus! {

/// Label of a request of the measurement.
pub const BENCH_REQUEST_LABEL: u64 = 0xCA11;

/// Label of a reply of the measurement.
pub const BENCH_REPLY_LABEL: u64 = 0xF00D;

/// Label of the second thread's message.
pub const HELLO_LABEL: u64 = 0xABCD;

/// Two virtual addresses that one frame is mapped at in one address space.
pub const ALIAS_VA_1: usize = 0x5000_0000;

/// The second one.
pub const ALIAS_VA_2: usize = 0x6000_0000;

/// The virtual address of the frame in the first of two address spaces.
pub const CROSS_VA_A: usize = 0xE000_0000;

/// The virtual address of the frame in the second of two address spaces.
pub const CROSS_VA_B: usize = 0xF000_0000;

/// Scratch frames for the two address spaces.
pub const CROSS_POOL_FRAMES: usize = 4;

/// What revoking a subtree of capabilities showed.
#[derive(Debug, Clone, Copy, PartialEq, Eq, Structural)]
pub struct RevocationReport {
    /// Both derived capabilities were there before.
    pub present_before: bool,
    /// Slots that were freed.
    pub freed: u32,
    /// Afterwards both are gone and the capability they were derived from is not.
    pub gone_after: bool,
}

/// The tables after `a` was derived from the capability `ep` of a space, and `b` from `a`.
pub open spec fn derived_twice(table: CapTableView, ep: CapId) -> CapTableView {
    let a = table.free[0];
    let one = table.with_entry(
        CapEntry {
            cap: derived_capability(
                table.get(ep),
                CapabilityRights { bits: ALL_BITS },
                0,
            )->Ok_0,
            parent: Some(GlobalCapId { space: table.space, cap: ep }),
        },
    );
    one.with_entry(
        CapEntry {
            cap: derived_capability(
                one.get(a),
                CapabilityRights { bits: READ_BIT | WRITE_BIT },
                0,
            )->Ok_0,
            parent: Some(GlobalCapId { space: table.space, cap: a }),
        },
    )
}

/// A capability of the root task can be derived from twice in a row.
pub open spec fn can_derive_twice(k: KernelView, ep: CapId) -> bool {
    match slot(k.spaces, k.root.cap_space.0) {
        Some(table) => {
            &&& table.free.len() >= 2
            &&& table.get(ep) is Some
            &&& table.get(ep)->0.cap.rights.has_all(CapabilityRights { bits: ALL_BITS })
        },
        None => false,
    }
}

/// What revoking a derived subtree does, and what it shows.
pub open spec fn revocation_shown(k: KernelView, ep: CapId) -> (KernelView, RevocationReport) {
    let cs = k.root.cap_space;
    let table = slot(k.spaces, cs.0)->0;
    let a = table.free[0];
    let b = table.free[1];
    let two = derived_twice(table, ep);
    let derived = KernelView { spaces: k.spaces.update(cs.0 as int, Some(two)), ..k };
    let (after, returned) = revoked(derived, k.root.thread, a);
    let left = slot(after.spaces, cs.0)->0;
    (
        after,
        RevocationReport {
            present_before: two.get(a) is Some && two.get(b) is Some,
            freed: match returned {
                Ok(SyscallReturn::Revoked { freed }) => freed,
                _ => 0,
            },
            gone_after: left.get(a) is None && left.get(b) is None && left.get(ep) is Some,
        },
    )
}

impl<const MMIO: usize> KernelState<MMIO> {
    /// Derives two capabilities in a row from a capability of the root task, revokes the first
    /// and looks at what is left.
    pub fn show_revocation(&mut self, ep: CapId) -> (r: RevocationReport)
        requires
            old(self).wf(),
            can_derive_twice(old(self)@, ep),
        ensures
            final(self).wf(),
            (final(self)@, r) == revocation_shown(old(self)@, ep),
    {
        let root = self.root();
        let cs = root.cap_space;
        let ghost before = self@;
        let ghost table = slot(before.spaces, cs.0)->0;
        let ghost a_id = table.free[0];
        proof {
            self.lemma_view_wf();
            assert(before.spaces[cs.0 as int] is Some);
            assert(table.entries[table.free[0].0 as int] is None);
            assert(table.entries[table.free[1].0 as int] is None);
            assert(table.free[0] != table.free[1]);
            lemma_all_bits_cover();
        }
        let mut a: CapId = CapId::new(0);
        let mut b: CapId = CapId::new(0);
        if let Some(t) = self.cap_space_mut(cs) {
            if let Ok(id) = t.derive_child(ep, CapabilityRights::all(), 0) {
                a = id;
                if let Ok(id) = t.derive_child(id, CapabilityRights::rw(), 0) {
                    b = id;
                }
            }
        }
        let ghost derived = self@;
        assert(derived.spaces[cs.0 as int] == Some(derived_twice(table, ep)));
        assert(derived =~= KernelView {
            spaces: before.spaces.update(cs.0 as int, Some(derived_twice(table, ep))),
            ..before
        });
        let present_before = match self.cap_space(cs) {
            Some(t) => t.lookup(a).is_some() && t.lookup(b).is_some(),
            None => false,
        };
        let freed: u32 = match self.do_cap_revoke(root.thread, a) {
            Ok(SyscallReturn::Revoked { freed }) => freed,
            _ => 0,
        };
        let gone_after = match self.cap_space(cs) {
            Some(t) => t.lookup(a).is_none() && t.lookup(b).is_none() && t.lookup(ep).is_some(),
            None => false,
        };
        RevocationReport { present_before, freed, gone_after }
    }
}

/// All rights include those to read and write.
proof fn lemma_all_bits_cover()
    ensures
        ALL_BITS & (READ_BIT | WRITE_BIT) == (READ_BIT | WRITE_BIT),
{
    assert(0x3fu32 & (0x1u32 | 0x2u32) == (0x1u32 | 0x2u32)) by (bit_vector);
}

/// What the demonstration asks for.
#[derive(Debug, Clone, Copy, PartialEq, Eq)]
pub enum DemoRequest {
    /// Make a system call on behalf of the root task. Reply: `Returned`.
    Syscall(SyscallOp),
    /// Read the clock, then make a system call on behalf of the root task. Reply: `Timed`.
    TimedSyscall(SyscallOp),
    /// Give a thread its stack and admit it to the scheduler. Reply: `Done`.
    StartThread {
        /// The thread.
        thread: ThreadId,
        /// Whether it is the one that measurements are taken with.
        bench: bool,
    },
    /// Hand the CPU to a thread and read the clock once it comes back. Reply: `Resumed`.
    YieldTo {
        /// The thread.
        thread: ThreadId,
    },
    /// Map a frame at two addresses in the root task's address space and translate both.
    /// Reply: `Translated`.
    AliasPage {
        /// Physical address of the frame.
        phys: usize,
        /// The addresses.
        first: usize,
        /// The second one.
        second: usize,
    },
    /// Reserve memory for two address spaces and scratch frames. Reply: `Spaces`.
    ReserveSpaces {
        /// Bytes for each root page table.
        root_bytes: usize,
        /// Bytes for the scratch frames.
        pool_bytes: usize,
    },
    /// Zero the scratch frames and map the kernel into both address spaces. Reply: `Done`.
    PrepareSpaces {
        /// The memory.
        frames: CrossFrames,
        /// Bytes of scratch frames.
        pool_bytes: usize,
    },
    /// Map a range. Reply: `Mapped`.
    MapRange(RangeMapping),
    /// Write a mark in the first address space, read it and write another in the second, and
    /// read that in the first. Reply: `Crossed`.
    Cross {
        /// The address spaces.
        frames: CrossFrames,
        /// The address of the frame in the first one.
        va_a: usize,
        /// The address of the frame in the second one.
        va_b: usize,
        /// What is written in the first one.
        mark_a: u32,
        /// What is written in the second one.
        mark_b: u32,
    },
}

/// The reply to a request.
#[derive(Debug, Clone, Copy, PartialEq, Eq)]
pub enum DemoReply {
    /// How the system call ended.
    Returned(Returned),
    /// When the system call began, and how it ended.
    Timed {
        /// When it began.
        start_ns: u64,
        /// How it ended.
        returned: Returned,
    },
    /// It is done.
    Done,
    /// The CPU is back.
    Resumed {
        /// The time.
        now_ns: u64,
    },
    /// What the two addresses translate to, unless there is no address space.
    Translated(Option<(Option<usize>, Option<usize>)>),
    /// The memory, if there was any.
    Spaces(Option<CrossFrames>),
    /// How many scratch frames the mapping used up.
    Mapped(u32),
    /// What was read.
    Crossed {
        /// In the second address space.
        seen_in_b: u32,
        /// In the first one.
        seen_in_a: u32,
    },
}

/// The memory of two address spaces.
#[derive(Debug, Clone, Copy, PartialEq, Eq, Structural)]
pub struct CrossFrames {
    /// Physical address of the first root page table.
    pub space_a: usize,
    /// Physical address of the second root page table.
    pub space_b: usize,
    /// Physical address of the scratch frames.
    pub pool: usize,
}

/// Why the demonstration cannot go on.
#[derive(Debug, Clone, Copy, PartialEq, Eq, Structural)]
pub enum DemoHalt {
    /// There is no endpoint.
    NoEndpoint,
    /// There is no second thread.
    NoThread,
    /// The message could not be received.
    ReceiveFailed,
}

/// How a step ended.
#[derive(Debug, Clone, Copy, PartialEq, Eq)]
pub enum DemoStep {
    /// With a request.
    Ask(DemoRequest),
    /// With the end of the demonstration.
    Finished,
    /// The processor is to be halted.
    Halt(DemoHalt),
}

/// What the demonstration waits for.
#[derive(Debug, Clone, Copy, PartialEq, Eq, Structural)]
pub enum DemoStage {
    /// The endpoint.
    Endpoint,
    /// The second thread.
    Thread,
    /// The second thread's start.
    Start,
    /// The message.
    Receive,
    /// The second thread, which sends it.
    Sender,
    /// The thread for measurements.
    BenchThread,
    /// Its start.
    BenchStart,
    /// Its first receive.
    BenchReady,
    /// A call of the measurement.
    Call,
    /// The reply to it.
    Answer,
    /// A frame.
    Frame,
    /// What the frame's two addresses translate to.
    Alias,
    /// Memory for two address spaces.
    Spaces,
    /// The two address spaces.
    Prepare,
    /// The mapping of the frame in the first one.
    MapA,
    /// The mapping of the frame in the second one.
    MapB,
    /// What was read in both.
    Cross,
    /// Nothing.
    Over,
}

/// A demonstration under way, and what it showed so far.
#[derive(Debug, Clone, Copy)]
pub struct Demo {
    /// Where the second thread starts.
    pub thread_entry: usize,
    /// Where the thread for measurements starts.
    pub bench_entry: usize,
    /// The endpoint.
    pub endpoint: CapId,
    /// What revocation showed.
    pub revocation: Option<RevocationReport>,
    /// The thread that was created last.
    pub thread: ThreadId,
    /// The message that the second thread sent.
    pub message: Option<SmallMessage>,
    /// The round trips, if any were measured.
    pub trips: Option<RoundTrips>,
    /// How many were measured.
    pub rounds: u32,
    /// When the call under way began.
    pub call_start_ns: u64,
    /// Physical address of the frame.
    pub frame: usize,
    /// Whether the frame's two addresses translate to the same place.
    pub aliased: Option<bool>,
    /// The memory of the two address spaces.
    pub cross: CrossFrames,
    /// Their scratch frames.
    pub pool: PoolCursor,
    /// Whether the two address spaces share the frame.
    pub shared: Option<bool>,
    /// What it waits for.
    pub stage: DemoStage,
}

/// The system call that creates one object.
pub open spec fn create_one(target_type: KernelObjectType) -> SyscallOp {
    SyscallOp::Retype { untyped: CapId(0), target_type, count: 1 }
}

/// The first capability that a system call created.
pub open spec fn new_cap(returned: Returned) -> Option<CapId> {
    match returned {
        Ok(SyscallReturn::NewCaps { cap, .. }) => Some(cap),
        _ => None,
    }
}

/// The thread that a blocked root task gives way to.
pub open spec fn next_thread(returned: Returned) -> Option<ThreadId> {
    match returned {
        Ok(SyscallReturn::Reschedule { next }) => next,
        _ => None,
    }
}

/// The next request, and the stage that waits for its reply.
pub open spec fn demo_asked(d: Demo, stage: DemoStage, request: DemoRequest) -> (Demo, DemoStep) {
    (Demo { stage, ..d }, DemoStep::Ask(request))
}

/// The end.
pub open spec fn demo_over(d: Demo) -> (Demo, DemoStep) {
    (Demo { stage: DemoStage::Over, ..d }, DemoStep::Finished)
}

/// The processor is to be halted.
pub open spec fn demo_halted(d: Demo, why: DemoHalt) -> (Demo, DemoStep) {
    (Demo { stage: DemoStage::Over, ..d }, DemoStep::Halt(why))
}

/// How the demonstration begins: with an endpoint.
pub open spec fn demo_begun(thread_entry: usize, bench_entry: usize) -> (Demo, DemoStep) {
    (
        Demo {
            thread_entry,
            bench_entry,
            endpoint: CapId(0),
            revocation: None,
            thread: ThreadId(0),
            message: None,
            trips: None,
            rounds: 0,
            call_start_ns: 0,
            frame: 0,
            aliased: None,
            cross: CrossFrames { space_a: 0, space_b: 0, pool: 0 },
            pool: PoolCursor { base: 0, pages: 0, used: 0 },
            shared: None,
            stage: DemoStage::Endpoint,
        },
        DemoStep::Ask(DemoRequest::Syscall(create_one(KernelObjectType::Endpoint))),
    )
}

/// What follows the creation of the endpoint: revocation is shown, then a thread created.
pub open spec fn endpoint_created(k: KernelView, d: Demo, cap: Option<CapId>) -> (
    KernelView,
    (Demo, DemoStep),
) {
    match cap {
        Some(ep) => {
            let (after, report) = revocation_shown(k, ep);
            (
                after,
                demo_asked(
                    Demo { endpoint: ep, revocation: Some(report), ..d },
                    DemoStage::Thread,
                    DemoRequest::Syscall(create_one(KernelObjectType::ThreadControlBlock)),
                ),
            )
        },
        None => (k, demo_halted(d, DemoHalt::NoEndpoint)),
    }
}

/// The thread behind a capability of the root task.
pub open spec fn thread_named(k: KernelView, cap: CapId) -> ThreadId {
    ThreadId(cap_in(k, k.root.cap_space, cap)->0.object.id.0)
}

/// The kernel state with a thread runnable from `entry` on.
pub open spec fn with_started(k: KernelView, thread: ThreadId, entry: usize) -> KernelView {
    KernelView { tcbs: started(k.tcbs, thread, entry), ..k }
}

/// What follows the creation of the second thread.
pub open spec fn thread_created(k: KernelView, d: Demo, cap: Option<CapId>) -> (
    KernelView,
    (Demo, DemoStep),
) {
    match cap {
        Some(c) => {
            let thread = thread_named(k, c);
            (
                with_started(k, thread, d.thread_entry),
                demo_asked(
                    Demo { thread, ..d },
                    DemoStage::Start,
                    DemoRequest::StartThread { thread, bench: false },
                ),
            )
        },
        None => (k, demo_halted(d, DemoHalt::NoThread)),
    }
}

/// The kernel state after the root task took the message that was delivered to it.
pub open spec fn root_message_taken(k: KernelView) -> KernelView {
    match slot(k.tcbs, k.root.thread.0) {
        Some(t) => with_tcb(k, k.root.thread, Tcb { pending_msg: None, ..t }),
        None => k,
    }
}

/// The message that was delivered to the root task.
pub open spec fn root_message(k: KernelView) -> Option<SmallMessage> {
    match slot(k.tcbs, k.root.thread.0) {
        Some(t) => t.pending_msg,
        None => None,
    }
}

/// The message is there; a thread for measurements is created.
pub open spec fn message_over(k: KernelView, d: Demo) -> (KernelView, (Demo, DemoStep)) {
    (
        root_message_taken(k),
        demo_asked(
            Demo { message: root_message(k), ..d },
            DemoStage::BenchThread,
            DemoRequest::Syscall(create_one(KernelObjectType::ThreadControlBlock)),
        ),
    )
}

/// What follows the receive.
pub open spec fn message_received(k: KernelView, d: Demo, returned: Returned) -> (
    KernelView,
    (Demo, DemoStep),
) {
    match next_thread(returned) {
        Some(thread) => (
            k,
            demo_asked(d, DemoStage::Sender, DemoRequest::YieldTo { thread }),
        ),
        None => match returned {
            Ok(SyscallReturn::Message { .. }) => message_over(k, d),
            _ => (k, demo_halted(d, DemoHalt::ReceiveFailed)),
        },
    }
}

/// A frame is created.
pub open spec fn frame_begun(d: Demo) -> (Demo, DemoStep) {
    demo_asked(
        d,
        DemoStage::Frame,
        DemoRequest::Syscall(create_one(KernelObjectType::Untyped)),
    )
}

/// What follows the creation of the thread for measurements. Without it nothing is measured.
pub open spec fn bench_created(k: KernelView, d: Demo, cap: Option<CapId>) -> (
    KernelView,
    (Demo, DemoStep),
) {
    match cap {
        Some(c) => {
            let thread = thread_named(k, c);
            (
                with_started(k, thread, d.bench_entry),
                demo_asked(
                    Demo { thread, ..d },
                    DemoStage::BenchStart,
                    DemoRequest::StartThread { thread, bench: true },
                ),
            )
        },
        None => (k, frame_begun(d)),
    }
}

/// The next call of the measurement is made, or, if all were, a frame is created.
pub open spec fn measured_on(d: Demo, after: Demo, step: DemoStep) -> bool {
    if d.rounds < IPC_BENCH_ITERATIONS {
        &&& after == (Demo { stage: DemoStage::Call, ..d })
        &&& step matches DemoStep::Ask(DemoRequest::TimedSyscall(SyscallOp::Call { endpoint, msg }))
        &&& endpoint == d.endpoint
        &&& msg@ == (MessageView { label: BENCH_REQUEST_LABEL, words: seq![d.rounds as u64] })
    } else {
        (after, step) == frame_begun(d)
    }
}

/// What follows a call of the measurement. One that fails ends the measurement.
pub open spec fn call_made(d: Demo, start_ns: u64, returned: Returned) -> (Demo, DemoStep) {
    match next_thread(returned) {
        Some(thread) => demo_asked(
            Demo { call_start_ns: start_ns, ..d },
            DemoStage::Answer,
            DemoRequest::YieldTo { thread },
        ),
        None => frame_begun(d),
    }
}

/// How long a call took.
pub open spec fn call_time(d: Demo, now_ns: u64) -> u64 {
    if now_ns >= d.call_start_ns {
        (now_ns - d.call_start_ns) as u64
    } else {
        0
    }
}

/// The figures with one more round trip.
pub open spec fn trips_with(trips: RoundTrips, t: u64, after: RoundTrips) -> bool {
    forall|times: Seq<u64>| #[trigger] trips.over(times) ==> after.over(times.push(t))
}

/// What follows the creation of the frame.
pub open spec fn frame_created(k: KernelView, d: Demo, cap: Option<CapId>) -> (Demo, DemoStep) {
    match cap {
        Some(c) => {
            let id = match cap_in(k, k.root.cap_space, c) {
                Some(cap) => cap.object.id.0,
                None => 0,
            };
            match slot(k.untyped, id) {
                Some(u) => demo_asked(
                    Demo { frame: u.base as usize, ..d },
                    DemoStage::Alias,
                    DemoRequest::AliasPage {
                        phys: u.base as usize,
                        first: ALIAS_VA_1,
                        second: ALIAS_VA_2,
                    },
                ),
                None => demo_over(d),
            }
        },
        None => demo_over(d),
    }
}

/// What follows the translation of the frame's two addresses.
pub open spec fn alias_seen(d: Demo, seen: Option<(Option<usize>, Option<usize>)>) -> (
    Demo,
    DemoStep,
) {
    demo_asked(
        Demo {
            aliased: match seen {
                Some((p1, p2)) => Some(p1 is Some && p1 == p2),
                None => None,
            },
            ..d
        },
        DemoStage::Spaces,
        DemoRequest::ReserveSpaces {
            root_bytes: ROOT_TABLE_BYTES,
            pool_bytes: (CROSS_POOL_FRAMES * PAGE_SIZE) as usize,
        },
    )
}

/// What follows the reservation of memory for two address spaces.
pub open spec fn spaces_reserved(d: Demo, frames: Option<CrossFrames>) -> (Demo, DemoStep) {
    match frames {
        Some(frames) => demo_asked(
            Demo {
                cross: frames,
                pool: PoolCursor { base: frames.pool, pages: CROSS_POOL_FRAMES, used: 0 },
                ..d
            },
            DemoStage::Prepare,
            DemoRequest::PrepareSpaces {
                frames,
                pool_bytes: (CROSS_POOL_FRAMES * PAGE_SIZE) as usize,
            },
        ),
        None => demo_over(d),
    }
}

/// The frame is mapped in one of the two address spaces.
pub open spec fn frame_mapping(d: Demo, root_pt: usize, va: usize) -> DemoRequest {
    DemoRequest::MapRange(
        mapping_from(d.pool, root_pt, va, d.frame, PAGE_SIZE as int, KERNEL_RW),
    )
}

/// What follows a mapping that used up `n` scratch frames.
pub open spec fn demo_mapped(d: Demo, n: u32) -> (Demo, DemoStep) {
    let now = Demo { pool: d.pool.after(n), ..d };
    if n == MAP_FAILED {
        demo_over(d)
    } else if d.stage is MapA {
        demo_asked(now, DemoStage::MapB, frame_mapping(now, d.cross.space_b, CROSS_VA_B))
    } else {
        demo_asked(
            now,
            DemoStage::Cross,
            DemoRequest::Cross {
                frames: d.cross,
                va_a: CROSS_VA_A,
                va_b: CROSS_VA_B,
                mark_a: SPACE_A_MARK,
                mark_b: SPACE_B_MARK,
            },
        )
    }
}

/// The reply is the one that the demonstration waits for, and one that it can go on with: a
/// capability that was created for it is there, and sums and addresses can be computed.
pub open spec fn demo_reply_fits(k: KernelView, d: Demo, reply: DemoReply) -> bool {
    match d.stage {
        DemoStage::Endpoint => reply matches DemoReply::Returned(r) && (new_cap(r) matches Some(c)
            ==> can_derive_twice(k, c)),
        DemoStage::Thread | DemoStage::BenchThread => reply matches DemoReply::Returned(r) && (
        new_cap(r) matches Some(c) ==> cap_in(k, k.root.cap_space, c) is Some),
        DemoStage::Receive | DemoStage::Frame => reply is Returned,
        DemoStage::Start | DemoStage::BenchStart | DemoStage::Prepare => reply is Done,
        DemoStage::Sender | DemoStage::BenchReady => reply is Resumed,
        DemoStage::Call => reply is Timed,
        DemoStage::Answer => {
            &&& reply matches DemoReply::Resumed { now_ns }
            &&& d.trips->0.sum_ns + call_time(d, now_ns) <= u64::MAX
        },
        DemoStage::Alias => reply is Translated,
        DemoStage::Spaces => reply matches DemoReply::Spaces(f) && (f matches Some(f) ==> f.pool
            + CROSS_POOL_FRAMES * PAGE_SIZE <= usize::MAX),
        DemoStage::MapA | DemoStage::MapB => reply matches DemoReply::Mapped(n)
            && d.pool.can_use(n),
        DemoStage::Cross => reply is Crossed,
        DemoStage::Over => false,
    }
}

/// What follows a reply.
pub open spec fn demo_resumed(
    k: KernelView,
    d: Demo,
    reply: DemoReply,
    after_k: KernelView,
    after: Demo,
    step: DemoStep,
) -> bool {
    match d.stage {
        DemoStage::Endpoint => (after_k, (after, step)) == endpoint_created(
            k,
            d,
            new_cap(reply->Returned_0),
        ),
        DemoStage::Thread => (after_k, (after, step)) == thread_created(
            k,
            d,
            new_cap(reply->Returned_0),
        ),
        DemoStage::Start => after_k == k && (after, step) == demo_asked(
            d,
            DemoStage::Receive,
            DemoRequest::Syscall(SyscallOp::Recv { endpoint: d.endpoint }),
        ),
        DemoStage::Receive => (after_k, (after, step)) == message_received(
            k,
            d,
            reply->Returned_0,
        ),
        DemoStage::Sender => (after_k, (after, step)) == message_over(k, d),
        DemoStage::BenchThread => (after_k, (after, step)) == bench_created(
            k,
            d,
            new_cap(reply->Returned_0),
        ),
        DemoStage::BenchStart => after_k == k && (after, step) == demo_asked(
            d,
            DemoStage::BenchReady,
            DemoRequest::YieldTo { thread: d.thread },
        ),
        DemoStage::BenchReady => {
            let trips = RoundTrips { min_ns: u64::MAX, max_ns: 0, sum_ns: 0 };
            after_k == k && measured_on(Demo { trips: Some(trips), rounds: 0, ..d }, after, step)
        },
        DemoStage::Call => after_k == k && (after, step) == call_made(
            d,
            reply->start_ns,
            reply->returned,
        ),
        DemoStage::Answer => {
            &&& after_k == root_message_taken(k)
            &&& after.trips is Some
            &&& trips_with(d.trips->0, call_time(d, reply->now_ns), after.trips->0)
            &&& measured_on(
                Demo { trips: after.trips, rounds: (d.rounds + 1) as u32, ..d },
                after,
                step,
            )
        },
        DemoStage::Frame => after_k == k && (after, step) == frame_created(
            k,
            d,
            new_cap(reply->Returned_0),
        ),
        DemoStage::Alias => after_k == k && (after, step) == alias_seen(d, reply->Translated_0),
        DemoStage::Spaces => after_k == k && (after, step) == spaces_reserved(
            d,
            reply->Spaces_0,
        ),
        DemoStage::Prepare => after_k == k && (after, step) == demo_asked(
            d,
            DemoStage::MapA,
            frame_mapping(d, d.cross.space_a, CROSS_VA_A),
        ),
        DemoStage::MapA | DemoStage::MapB => after_k == k && (after, step) == demo_mapped(
            d,
            reply->Mapped_0,
        ),
        _ => after_k == k && (after, step) == demo_over(
            Demo {
                shared: Some(
                    reply->seen_in_b == SPACE_A_MARK && reply->seen_in_a == SPACE_B_MARK,
                ),
                ..d
            },
        ),
    }
}

impl Demo {
    /// What holds between two steps.
    pub open spec fn wf(self) -> bool {
        &&& self.pool.wf()
        &&& self.rounds <= IPC_BENCH_ITERATIONS
        &&& self.stage is Call || self.stage is Answer ==> self.trips is Some && self.rounds
            < IPC_BENCH_ITERATIONS
    }

    /// Begins the demonstration, for which two threads will start at the given addresses.
    pub fn inkernel_demo(thread_entry: usize, bench_entry: usize) -> (r: (Self, DemoStep))
        ensures
            r.0.wf(),
            r == demo_begun(thread_entry, bench_entry),
    {
        let d = Demo {
            thread_entry,
            bench_entry,
            endpoint: CapId::new(0),
            revocation: None,
            thread: ThreadId::new(0),
            message: None,
            trips: None,
            rounds: 0,
            call_start_ns: 0,
            frame: 0,
            aliased: None,
            cross: CrossFrames { space_a: 0, space_b: 0, pool: 0 },
            pool: PoolCursor::new(0, 0),
            shared: None,
            stage: DemoStage::Endpoint,
        };
        (d, DemoStep::Ask(DemoRequest::Syscall(create(KernelObjectType::Endpoint))))
    }

    fn ask(&mut self, stage: DemoStage, request: DemoRequest) -> (step: DemoStep)
        ensures
            (*final(self), step) == demo_asked(*old(self), stage, request),
    {
        self.stage = stage;
        DemoStep::Ask(request)
    }

    fn over(&mut self) -> (step: DemoStep)
        ensures
            (*final(self), step) == demo_over(*old(self)),
    {
        self.stage = DemoStage::Over;
        DemoStep::Finished
    }

    fn halt(&mut self, why: DemoHalt) -> (step: DemoStep)
        ensures
            (*final(self), step) == demo_halted(*old(self), why),
    {
        self.stage = DemoStage::Over;
        DemoStep::Halt(why)
    }

    fn begin_frame(&mut self) -> (step: DemoStep)
        ensures
            (*final(self), step) == frame_begun(*old(self)),
    {
        self.ask(DemoStage::Frame, DemoRequest::Syscall(create(KernelObjectType::Untyped)))
    }

    /// Takes the message that was delivered to the root task and goes on.
    fn message_in<const MMIO: usize>(&mut self, k: &mut KernelState<MMIO>) -> (step: DemoStep)
        requires
            old(k).wf(),
        ensures
            final(k).wf(),
            (final(k)@, (*final(self), step)) == message_over(old(k)@, *old(self)),
    {
        self.message = k.take_root_message();
        self.ask(
            DemoStage::BenchThread,
            DemoRequest::Syscall(create(KernelObjectType::ThreadControlBlock)),
        )
    }

    fn measure_on(&mut self) -> (step: DemoStep)
        requires
            old(self).rounds <= IPC_BENCH_ITERATIONS,
        ensures
            measured_on(*old(self), *final(self), step),
    {
        if self.rounds < IPC_BENCH_ITERATIONS {
            let msg = numbered(BENCH_REQUEST_LABEL, self.rounds);
            let endpoint = self.endpoint;
            return self.ask(
                DemoStage::Call,
                DemoRequest::TimedSyscall(SyscallOp::Call { endpoint, msg }),
            );
        }
        self.begin_frame()
    }

    /// Starts the thread behind a new capability of the root task.
    fn start<const MMIO: usize>(
        &mut self,
        k: &mut KernelState<MMIO>,
        cap: CapId,
        bench: bool,
    ) -> (step: DemoStep)
        requires
            old(k).wf(),
            cap_in(old(k)@, old(k)@.root.cap_space, cap) is Some,
        ensures
            final(k).wf(),
            ({
                let thread = thread_named(old(k)@, cap);
                let entry = if bench {
                    old(self).bench_entry
                } else {
                    old(self).thread_entry
                };
                &&& final(k)@ == with_started(old(k)@, thread, entry)
                &&& (*final(self), step) == demo_asked(
                    Demo { thread, ..*old(self) },
                    if bench {
                        DemoStage::BenchStart
                    } else {
                        DemoStage::Start
                    },
                    DemoRequest::StartThread { thread, bench },
                )
            }),
    {
        let cs = k.root().cap_space;
        let thread = match k.root_object(cs, cap) {
            Some(id) => ThreadId::new(id),
            None => ThreadId::new(0),
        };
        let entry: usize = if bench {
            self.bench_entry
        } else {
            self.thread_entry
        };
        let _ = k.start_thread(thread, entry);
        self.thread = thread;
        let stage = if bench {
            DemoStage::BenchStart
        } else {
            DemoStage::Start
        };
        self.ask(stage, DemoRequest::StartThread { thread, bench })
    }

    /// Goes on after the creation of an object.
    fn created<const MMIO: usize>(&mut self, k: &mut KernelState<MMIO>, cap: Option<CapId>) -> (step:
        DemoStep)
        requires
            old(k).wf(),
            old(self).stage is Endpoint ==> (cap matches Some(c) ==> can_derive_twice(old(k)@, c)),
            old(self).stage is Thread || old(self).stage is BenchThread ==> (cap matches Some(c)
                ==> cap_in(old(k)@, old(k)@.root.cap_space, c) is Some),
            old(self).stage is Endpoint || old(self).stage is Thread || old(self).stage
                is BenchThread || old(self).stage is Frame,
        ensures
            final(k).wf(),
            (final(k)@, (*final(self), step)) == match old(self).stage {
                DemoStage::Endpoint => endpoint_created(old(k)@, *old(self), cap),
                DemoStage::Thread => thread_created(old(k)@, *old(self), cap),
                DemoStage::BenchThread => bench_created(old(k)@, *old(self), cap),
                _ => (old(k)@, frame_created(old(k)@, *old(self), cap)),
            },
    {
        match (self.stage, cap) {
            (DemoStage::Endpoint, Some(ep)) => {
                self.endpoint = ep;
                self.revocation = Some(k.show_revocation(ep));
                self.ask(
                    DemoStage::Thread,
                    DemoRequest::Syscall(create(KernelObjectType::ThreadControlBlock)),
                )
            },
            (DemoStage::Endpoint, None) => self.halt(DemoHalt::NoEndpoint),
            (DemoStage::Thread, Some(c)) => self.start(k, c, false),
            (DemoStage::Thread, None) => self.halt(DemoHalt::NoThread),
            (DemoStage::BenchThread, Some(c)) => self.start(k, c, true),
            (DemoStage::BenchThread, None) => self.begin_frame(),
            (_, Some(c)) => {
                let cs = k.root().cap_space;
                let id: u32 = match k.root_object(cs, c) {
                    Some(id) => id,
                    None => 0,
                };
                match k.untyped(UntypedId::new(id)) {
                    Some(u) => {
                        self.frame = u.base as usize;
                        let phys: usize = self.frame;
                        self.ask(
                            DemoStage::Alias,
                            DemoRequest::AliasPage { phys, first: ALIAS_VA_1, second: ALIAS_VA_2 },
                        )
                    },
                    None => self.over(),
                }
            },
            (_, None) => self.over(),
        }
    }

    /// Goes on with the reply to the last request.
    pub fn resume<const MMIO: usize>(&mut self, k: &mut KernelState<MMIO>, reply: DemoReply) -> (step:
        DemoStep)
        requires
            old(k).wf(),
            old(self).wf(),
            demo_reply_fits(old(k)@, *old(self), reply),
        ensures
            final(k).wf(),
            final(self).wf(),
            demo_resumed(old(k)@, *old(self), reply, final(k)@, *final(self), step),
    {
        match (self.stage, reply) {
            (DemoStage::Receive, DemoReply::Returned(returned)) => match returned {
                Ok(SyscallReturn::Reschedule { next: Some(thread) }) => self.ask(
                    DemoStage::Sender,
                    DemoRequest::YieldTo { thread },
                ),
                Ok(SyscallReturn::Message { .. }) => self.message_in(k),
                _ => self.halt(DemoHalt::ReceiveFailed),
            },
            (_, DemoReply::Returned(returned)) => {
                let cap = match returned {
                    Ok(SyscallReturn::NewCaps { cap, .. }) => Some(cap),
                    _ => None,
                };
                self.created(k, cap)
            },
            (DemoStage::Start, _) => {
                let endpoint = self.endpoint;
                self.ask(DemoStage::Receive, DemoRequest::Syscall(SyscallOp::Recv { endpoint }))
            },
            (DemoStage::Sender, _) => self.message_in(k),
            (DemoStage::BenchStart, _) => {
                let thread = self.thread;
                self.ask(DemoStage::BenchReady, DemoRequest::YieldTo { thread })
            },
            (DemoStage::BenchReady, _) => {
                self.trips = Some(RoundTrips::new());
                self.rounds = 0;
                self.measure_on()
            },
            (_, DemoReply::Timed { start_ns, returned }) => match returned {
                Ok(SyscallReturn::Reschedule { next: Some(thread) }) => {
                    self.call_start_ns = start_ns;
                    self.ask(DemoStage::Answer, DemoRequest::YieldTo { thread })
                },
                _ => self.begin_frame(),
            },
            (_, DemoReply::Resumed { now_ns }) => {
                let mut trips = match self.trips {
                    Some(trips) => trips,
                    None => RoundTrips::new(),
                };
                trips.record(self.call_start_ns, now_ns);
                self.trips = Some(trips);
                self.rounds = self.rounds + 1;
                let _ = k.take_root_message();
                self.measure_on()
            },
            (_, DemoReply::Translated(seen)) => {
                self.aliased = match seen {
                    Some((p1, p2)) => Some(aliased(p1, p2)),
                    None => None,
                };
                self.ask(
                    DemoStage::Spaces,
                    DemoRequest::ReserveSpaces {
                        root_bytes: ROOT_TABLE_BYTES,
                        pool_bytes: CROSS_POOL_FRAMES * PAGE_SIZE,
                    },
                )
            },
            (_, DemoReply::Spaces(frames)) => match frames {
                Some(frames) => {
                    self.cross = frames;
                    self.pool = PoolCursor::new(frames.pool, CROSS_POOL_FRAMES);
                    self.ask(
                        DemoStage::Prepare,
                        DemoRequest::PrepareSpaces {
                            frames,
                            pool_bytes: CROSS_POOL_FRAMES * PAGE_SIZE,
                        },
                    )
                },
                None => self.over(),
            },
            (_, DemoReply::Mapped(n)) => {
                if !self.pool.consume(n) {
                    return self.over();
                }
                if matches!(self.stage, DemoStage::MapA) {
                    let m = map_from(
                        &self.pool,
                        self.cross.space_b,
                        CROSS_VA_B,
                        self.frame,
                        PAGE_SIZE,
                        KERNEL_RW,
                    );
                    return self.ask(DemoStage::MapB, DemoRequest::MapRange(m));
                }
                let frames = self.cross;
                self.ask(
                    DemoStage::Cross,
                    DemoRequest::Cross {
                        frames,
                        va_a: CROSS_VA_A,
                        va_b: CROSS_VA_B,
                        mark_a: SPACE_A_MARK,
                        mark_b: SPACE_B_MARK,
                    },
                )
            },
            (_, DemoReply::Crossed { seen_in_b, seen_in_a }) => {
                self.shared = Some(spaces_share_frame(seen_in_b, seen_in_a));
                self.over()
            },
            (_, DemoReply::Done) => {
                let m = map_from(
                    &self.pool,
                    self.cross.space_a,
                    CROSS_VA_A,
                    self.frame,
                    PAGE_SIZE,
                    KERNEL_RW,
                );
                self.ask(DemoStage::MapA, DemoRequest::MapRange(m))
            },
        }
    }
}

/// The system call that creates one object.
fn create(target_type: KernelObjectType) -> (op: SyscallOp)
    ensures
        op == create_one(target_type),
{
    SyscallOp::Retype { untyped: CapId::new(0), target_type, count: 1 }
}

/// A message that carries a number.
fn numbered(label: u64, n: u32) -> (m: SmallMessage)
    ensures
        m@ == (MessageView { label, words: seq![n as u64] }),
{
    let words: [u64; 1] = [n as u64];
    assert(words@ =~= seq![n as u64]);
    match SmallMessage::from_words(label, words.as_slice()) {
        Ok(m) => m,
        Err(_) => SmallMessage::new(label),
    }
}

impl<const MMIO: usize> KernelState<MMIO> {
    /// The id of the object behind a capability.
    fn root_object(&self, cs: CapSpaceId, cap: CapId) -> (r: Option<u32>)
        requires
            self.wf(),
        ensures
            r == match cap_in(self@, cs, cap) {
                Some(c) => Some(c.object.id.0),
                None => None,
            },
    {
        match self.cap_space(cs) {
            Some(table) => match table.lookup(cap) {
                Some(c) => Some(c.object.id.as_u32()),
                None => None,
            },
            None => None,
        }
    }

    /// Takes the message that was delivered to the root task.
    fn take_root_message(&mut self) -> (r: Option<SmallMessage>)
        requires
            old(self).wf(),
        ensures
            final(self).wf(),
            final(self)@ == root_message_taken(old(self)@),
            r == root_message(old(self)@),
    {
        let root = self.root().thread;
        match self.tcb_mut(root) {
            Some(t) => {
                let msg = t.pending_msg;
                t.pending_msg = None;
                msg
            },
            None => None,
        }
    }
}

/// What the thread that measurements are taken with does next.
#[derive(Debug, Clone, Copy, PartialEq, Eq)]
pub enum ServerTurn {
    /// It stops.
    Stop,
    /// It answers a request.
    Reply(SyscallOp),
    /// It gives the CPU back for good; the scheduler is to drop it first.
    Leave {
        /// To this thread.
        to: ThreadId,
    },
    /// It receives the next request, before it gives the CPU back, so that the next call finds
    /// it waiting.
    Receive(SyscallOp),
    /// It gives the CPU to a thread.
    YieldTo {
        /// The thread.
        thread: ThreadId,
    },
}

/// The kernel state after the thread took the request that was delivered to it.
pub open spec fn request_taken(k: KernelView, me: ThreadId) -> KernelView {
    match slot(k.tcbs, me.0) {
        Some(t) => with_tcb(k, me, Tcb { pending_from: None, pending_msg: None, ..t }),
        None => k,
    }
}

/// Who is answered, and how, if the thread `me` has taken request number `i`.
pub open spec fn request_answered(
    k: KernelView,
    me: ThreadId,
    i: u32,
    r: (ServerTurn, Option<ThreadId>),
) -> bool {
    &&& r.1 == match slot(k.tcbs, me.0) {
        Some(t) => t.pending_from,
        None => None,
    }
    &&& match r.1 {
        Some(from) => {
            &&& r.0 matches ServerTurn::Reply(SyscallOp::Reply { to, msg })
            &&& to == from
            &&& msg@ == (MessageView { label: BENCH_REPLY_LABEL, words: seq![i as u64] })
        },
        None => r.0 == ServerTurn::Stop,
    }
}

/// What follows the answer to request number `i`.
pub open spec fn answer_given(
    k: KernelView,
    me: ThreadId,
    from: ThreadId,
    endpoint: CapId,
    i: u32,
    returned: Returned,
) -> (KernelView, ServerTurn) {
    if returned is Err {
        (k, ServerTurn::Stop)
    } else if i + 1 == IPC_BENCH_ITERATIONS {
        (
            KernelView { tcbs: exited(k.tcbs, me, ThreadExit::Clean { code: 0 }), ..k },
            ServerTurn::Leave { to: from },
        )
    } else {
        (k, ServerTurn::Receive(SyscallOp::Recv { endpoint }))
    }
}

/// What follows a receive of the thread that measurements are taken with.
pub open spec fn turn_after_receive(returned: Returned) -> ServerTurn {
    match next_thread(returned) {
        Some(thread) => ServerTurn::YieldTo { thread },
        None => ServerTurn::Stop,
    }
}

impl<const MMIO: usize> KernelState<MMIO> {
    /// Takes request number `i` that was delivered to the thread `me`, and answers it. Without
    /// one the thread stops. Returns who is answered.
    pub fn bench_server_request(&mut self, me: ThreadId, i: u32) -> (r: (
        ServerTurn,
        Option<ThreadId>,
    ))
        requires
            old(self).wf(),
        ensures
            final(self).wf(),
            final(self)@ == request_taken(old(self)@, me),
            request_answered(old(self)@, me, i, r),
    {
        let from = match self.tcb_mut(me) {
            Some(t) => {
                let from = t.pending_from;
                t.pending_from = None;
                t.pending_msg = None;
                from
            },
            None => None,
        };
        match from {
            Some(to) => {
                let msg = numbered(BENCH_REPLY_LABEL, i);
                (ServerTurn::Reply(SyscallOp::Reply { to, msg }), from)
            },
            None => (ServerTurn::Stop, None),
        }
    }

    /// What follows the answer to request number `i`: after the last one the thread `me` ends
    /// and gives the CPU back to whom it answered.
    pub fn bench_server_answered(
        &mut self,
        me: ThreadId,
        from: ThreadId,
        endpoint: CapId,
        i: u32,
        returned: Returned,
    ) -> (r: ServerTurn)
        requires
            old(self).wf(),
            i < IPC_BENCH_ITERATIONS,
        ensures
            final(self).wf(),
            (final(self)@, r) == answer_given(old(self)@, me, from, endpoint, i, returned),
    {
        if returned.is_err() {
            return ServerTurn::Stop;
        }
        if i + 1 == IPC_BENCH_ITERATIONS {
            self.mark_exited(me, ThreadExit::Clean { code: 0 });
            return ServerTurn::Leave { to: from };
        }
        ServerTurn::Receive(SyscallOp::Recv { endpoint })
    }
}

/// What follows a receive of the thread that measurements are taken with.
pub fn bench_server_received(returned: Returned) -> (r: ServerTurn)
    ensures
        r == turn_after_receive(returned),
{
    match returned {
        Ok(SyscallReturn::Reschedule { next: Some(thread) }) => ServerTurn::YieldTo { thread },
        _ => ServerTurn::Stop,
    }
}

/// The message that the second thread sends.
pub fn hello() -> (m: SmallMessage)
    ensures
        m@ == (MessageView { label: HELLO_LABEL, words: seq![42, 7] }),
{
    let words: [u64; 2] = [42, 7];
    assert(words@ =~= seq![42, 7]);
    match SmallMessage::from_words(HELLO_LABEL, words.as_slice()) {
        Ok(m) => m,
        Err(_) => SmallMessage::new(HELLO_LABEL),
    }
}

} // verus!
