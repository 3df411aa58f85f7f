//! What the demonstration is for: each thing that it reports is what was seen, of the objects that
//! it created.

use crate::config::PAGE_SIZE;
use crate::handover::Returned;
use crate::ids::{CapId, ThreadId};
use crate::inkernel::{
    answer_given, demo_begun, demo_resumed, request_answered, request_taken, revocation_shown,
    turn_after_receive, Demo, DemoHalt, DemoReply, DemoRequest, DemoStep, ServerTurn, ALIAS_VA_1,
    ALIAS_VA_2, BENCH_REPLY_LABEL, BENCH_REQUEST_LABEL, CROSS_POOL_FRAMES, CROSS_VA_A, CROSS_VA_B,
};
use crate::objects::KernelObjectType;
use crate::paging::{RangeMapping, MAP_FAILED};
use crate::report::{IPC_BENCH_ITERATIONS, SPACE_A_MARK, SPACE_B_MARK};
use crate::service_laws::in_slot;
use crate::state::KernelView;
use crate::syscall::{SyscallError, SyscallOp, SyscallReturn};
use crate::tcb::{Tcb, ThreadExit, ThreadState};
use vstd::prelude::*;

verus! {

/// The number of the object that slot `cap` of the first process names.
pub open spec fn object_in(k: KernelView, cap: CapId) -> u32 {
    in_slot(k, k.root.cap_space, cap)->0.cap.object.id.0
}

/// The step asks for one object of a type out of the first untyped memory.
pub open spec fn creates(step: DemoStep, target_type: KernelObjectType) -> bool {
    step == DemoStep::Ask(
        DemoRequest::Syscall(SyscallOp::Retype { untyped: CapId(0), target_type, count: 1 }),
    )
}

/// A thread that the demonstration created is started: it is the one that the new capability
/// names, it is runnable at the entry point meant for it, and no other thread changes. The second
/// thread is needed; without the one for measurements, nothing is measured.
pub proof fn the_demonstration_starts_the_thread_it_created(
    k: KernelView,
    d: Demo,
    cap: CapId,
    count: u32,
    after_k: KernelView,
    after: Demo,
    step: DemoStep,
    other: int,
)
    requires
        d.stage is Thread || d.stage is BenchThread,
        demo_resumed(
            k,
            d,
            DemoReply::Returned(Ok(SyscallReturn::NewCaps { cap, count })),
            after_k,
            after,
            step,
        ),
        in_slot(k, k.root.cap_space, cap) is Some,
        object_in(k, cap) < k.tcbs.len(),
        k.tcbs[object_in(k, cap) as int] is Some,
        !(k.tcbs[object_in(k, cap) as int]->0.state is Exited),
    ensures
        ({
            let thread = ThreadId(object_in(k, cap));
            let entry = if d.stage is Thread {
                d.thread_entry
            } else {
                d.bench_entry
            };
            &&& after.thread == thread
            &&& step == DemoStep::Ask(
                DemoRequest::StartThread { thread, bench: d.stage is BenchThread },
            )
            &&& after_k.tcbs[thread.0 as int] == Some(
                Tcb { entry, state: ThreadState::Runnable, ..k.tcbs[thread.0 as int]->0 },
            )
            &&& 0 <= other < k.tcbs.len() && other != thread.0 ==> after_k.tcbs[other]
                == k.tcbs[other]
            &&& after_k == (KernelView { tcbs: after_k.tcbs, ..k })
            &&& after.endpoint == d.endpoint
        }),
{
}

/// Without its objects the demonstration halts, or leaves out what it cannot show.
pub proof fn the_demonstration_halts_without_its_objects(
    k: KernelView,
    d: Demo,
    e: SyscallError,
    after_k: KernelView,
    after: Demo,
    step: DemoStep,
)
    requires
        demo_resumed(k, d, DemoReply::Returned(Err(e)), after_k, after, step),
    ensures
        d.stage is Endpoint ==> step == DemoStep::Halt(DemoHalt::NoEndpoint),
        d.stage is Thread ==> step == DemoStep::Halt(DemoHalt::NoThread),
        d.stage is Receive ==> step == DemoStep::Halt(DemoHalt::ReceiveFailed),
        d.stage is BenchThread ==> creates(step, KernelObjectType::Untyped),
        d.stage is Frame ==> step is Finished,
        d.stage is Endpoint || d.stage is Thread || d.stage is Receive || d.stage is BenchThread
            || d.stage is Frame ==> after_k == k,
{
}

/// The demonstration receives at its endpoint, gives way to whoever runs next while it waits, and
/// reports the message that was delivered to the first process, which is then taken.
pub proof fn the_demonstration_reports_the_message_delivered(
    k: KernelView,
    d: Demo,
    reply: DemoReply,
    after_k: KernelView,
    after: Demo,
    step: DemoStep,
)
    requires
        demo_resumed(k, d, reply, after_k, after, step),
        k.root.thread.0 < k.tcbs.len(),
        k.tcbs[k.root.thread.0 as int] is Some,
    ensures
        d.stage is Start ==> after_k == k && step == DemoStep::Ask(
            DemoRequest::Syscall(SyscallOp::Recv { endpoint: d.endpoint }),
        ),
        d.stage is Receive ==> (reply matches DemoReply::Returned(
            Ok(SyscallReturn::Reschedule { next: Some(thread) }),
        ) ==> after_k == k && step == DemoStep::Ask(DemoRequest::YieldTo { thread })),
        d.stage is Sender || d.stage is Receive && reply is Returned && reply->Returned_0 is Ok
            && reply->Returned_0->Ok_0 is Message ==> {
            let root = k.tcbs[k.root.thread.0 as int]->0;
            &&& after.message == root.pending_msg
            &&& after_k.tcbs == k.tcbs.update(
                k.root.thread.0 as int,
                Some(Tcb { pending_msg: None, ..root }),
            )
            &&& after_k == (KernelView { tcbs: after_k.tcbs, ..k })
            &&& creates(step, KernelObjectType::ThreadControlBlock)
        },
{
}

/// Every round of the measurement is a call with its number at the endpoint, timed from when it is
/// made until the CPU is back, when its answer is taken; a call that fails ends it, and after the
/// last one comes the frame.
pub proof fn the_measurement_times_its_calls(
    k: KernelView,
    d: Demo,
    reply: DemoReply,
    after_k: KernelView,
    after: Demo,
    step: DemoStep,
)
    requires
        demo_resumed(k, d, reply, after_k, after, step),
        d.stage is BenchReady && reply is Resumed || d.stage is Call && reply is Timed
            || d.stage is Answer && reply is Resumed || d.stage is BenchStart,
    ensures
        d.stage is BenchStart ==> step == DemoStep::Ask(DemoRequest::YieldTo { thread: d.thread }),
        d.stage is BenchReady ==> after.rounds == 0 && after.trips is Some
            && after.trips->0.sum_ns == 0,
        d.stage is Answer ==> after.rounds == (d.rounds + 1) as u32,
        after.stage is Call && (d.stage is BenchReady || d.stage is Answer) ==> {
            &&& after.rounds < IPC_BENCH_ITERATIONS
            &&& step matches DemoStep::Ask(
                DemoRequest::TimedSyscall(SyscallOp::Call { endpoint, msg }),
            )
            &&& endpoint == d.endpoint
            &&& msg@.label == BENCH_REQUEST_LABEL
            &&& msg@.words == seq![after.rounds as u64]
        },
        (d.stage is BenchReady || d.stage is Answer) && !(after.stage is Call) ==> after.rounds
            >= IPC_BENCH_ITERATIONS && creates(step, KernelObjectType::Untyped),
        d.stage is Call ==> match reply->returned {
            Ok(SyscallReturn::Reschedule { next: Some(thread) }) => {
                &&& step == DemoStep::Ask(DemoRequest::YieldTo { thread })
                &&& after.call_start_ns == reply->start_ns
                &&& after.stage is Answer
            },
            _ => creates(step, KernelObjectType::Untyped),
        },
        d.stage is Call || d.stage is BenchReady || d.stage is BenchStart ==> after_k == k,
        d.stage is Answer && k.root.thread.0 < k.tcbs.len()
            && k.tcbs[k.root.thread.0 as int] is Some ==> {
            let root = k.tcbs[k.root.thread.0 as int]->0;
            &&& after_k.tcbs == k.tcbs.update(
                k.root.thread.0 as int,
                Some(Tcb { pending_msg: None, ..root }),
            )
            &&& after_k == (KernelView { tcbs: after_k.tcbs, ..k })
        },
{
}

/// A round trip lasts from the start of its call to the moment at which the CPU is back, and is
/// added to the figures.
pub proof fn a_round_trip_is_added_to_the_figures(
    k: KernelView,
    d: Demo,
    now_ns: u64,
    after_k: KernelView,
    after: Demo,
    step: DemoStep,
    times: Seq<u64>,
)
    requires
        d.stage is Answer,
        d.call_start_ns <= now_ns,
        d.trips is Some,
        d.trips->0.over(times),
        demo_resumed(k, d, DemoReply::Resumed { now_ns }, after_k, after, step),
    ensures
        after.trips is Some,
        after.trips->0.over(times.push((now_ns - d.call_start_ns) as u64)),
{
}

/// The frame that is shown is the memory that the new capability names. Mapped at two addresses it
/// counts as aliased just if both translate, to the same place.
pub proof fn the_frame_shown_is_the_one_created(
    k: KernelView,
    d: Demo,
    cap: CapId,
    count: u32,
    seen: Option<(Option<usize>, Option<usize>)>,
    after_k: KernelView,
    after: Demo,
    step: DemoStep,
)
    requires
        d.stage is Frame && demo_resumed(
            k,
            d,
            DemoReply::Returned(Ok(SyscallReturn::NewCaps { cap, count })),
            after_k,
            after,
            step,
        ) || d.stage is Alias && demo_resumed(
            k,
            d,
            DemoReply::Translated(seen),
            after_k,
            after,
            step,
        ),
        in_slot(k, k.root.cap_space, cap) is Some,
        object_in(k, cap) < k.untyped.len(),
        k.untyped[object_in(k, cap) as int] is Some,
        k.untyped[object_in(k, cap) as int]->0.base <= usize::MAX,
    ensures
        after_k == k,
        d.stage is Frame ==> {
            let base = k.untyped[object_in(k, cap) as int]->0.base as usize;
            &&& after.frame == base
            &&& step == DemoStep::Ask(
                DemoRequest::AliasPage { phys: base, first: ALIAS_VA_1, second: ALIAS_VA_2 },
            )
        },
        d.stage is Alias ==> {
            &&& seen is None ==> after.aliased is None
            &&& seen matches Some((first, second)) ==> after.aliased == Some(
                first is Some && second is Some && first->0 == second->0,
            )
            &&& step == DemoStep::Ask(
                DemoRequest::ReserveSpaces {
                    root_bytes: (3 * PAGE_SIZE) as usize,
                    pool_bytes: (CROSS_POOL_FRAMES * PAGE_SIZE) as usize,
                },
            )
        },
{
}

/// The mapping is one of the frame of the demonstration, whole, at `va` under `root_pt`.
pub open spec fn maps_the_frame(m: RangeMapping, d: Demo, root_pt: usize, va: usize) -> bool {
    &&& m.root_pt == root_pt
    &&& m.va == va
    &&& m.phys == d.frame
    &&& m.len == PAGE_SIZE
    &&& m.perm_bits == 3
    &&& m.pool_base == d.pool.base + d.pool.used * PAGE_SIZE
    &&& m.pool_pages == d.pool.pages - d.pool.used
}

/// The frame is mapped in two address spaces made of the memory that was reserved, in each at an
/// address of its own and with scratch frames of its own; then marks are passed both ways, and the
/// spaces count as sharing the frame just if each mark was seen on the other side.
pub proof fn two_spaces_share_the_frame(
    k: KernelView,
    d: Demo,
    reply: DemoReply,
    after_k: KernelView,
    after: Demo,
    step: DemoStep,
)
    requires
        demo_resumed(k, d, reply, after_k, after, step),
        d.stage is Spaces && reply is Spaces || d.stage is Prepare || d.stage is MapA && reply
            is Mapped || d.stage is MapB && reply is Mapped || d.stage is Cross && reply is Crossed,
        d.pool.wf(),
        reply matches DemoReply::Mapped(n) ==> d.pool.can_use(n),
    ensures
        after_k == k,
        after.frame == d.frame,
        d.stage is Spaces ==> match reply->Spaces_0 {
            None => step is Finished,
            Some(frames) => {
                &&& after.cross == frames
                &&& after.pool.base == frames.pool && after.pool.pages == CROSS_POOL_FRAMES
                    && after.pool.used == 0
                &&& step == DemoStep::Ask(
                    DemoRequest::PrepareSpaces {
                        frames,
                        pool_bytes: (CROSS_POOL_FRAMES * PAGE_SIZE) as usize,
                    },
                )
            },
        },
        d.stage is Prepare ==> {
            &&& step matches DemoStep::Ask(DemoRequest::MapRange(m))
            &&& maps_the_frame(m, d, d.cross.space_a, CROSS_VA_A)
            &&& after.stage is MapA
        },
        d.stage is MapA || d.stage is MapB ==> (reply matches DemoReply::Mapped(n) ==> {
            &&& n == MAP_FAILED ==> step is Finished
            &&& n != MAP_FAILED ==> after.pool.used == d.pool.used + n
            &&& n != MAP_FAILED && d.stage is MapA ==> {
                &&& step matches DemoStep::Ask(DemoRequest::MapRange(m))
                &&& maps_the_frame(m, after, d.cross.space_b, CROSS_VA_B)
                &&& after.stage is MapB
            }
            &&& n != MAP_FAILED && d.stage is MapB ==> step == DemoStep::Ask(
                DemoRequest::Cross {
                    frames: d.cross,
                    va_a: CROSS_VA_A,
                    va_b: CROSS_VA_B,
                    mark_a: SPACE_A_MARK,
                    mark_b: SPACE_B_MARK,
                },
            )
        }),
        d.stage is Cross ==> {
            &&& step is Finished
            &&& after.shared == Some(
                reply->seen_in_b == SPACE_A_MARK && reply->seen_in_a == SPACE_B_MARK,
            )
        },
        CROSS_VA_A != CROSS_VA_B && SPACE_A_MARK != SPACE_B_MARK,
{
    assert(d.pool.used * PAGE_SIZE <= d.pool.pages * PAGE_SIZE) by (nonlinear_arith)
        requires
            d.pool.used <= d.pool.pages,
    ;
    if let DemoReply::Mapped(n) = reply {
        if n != MAP_FAILED {
            assert((d.pool.used + n) * PAGE_SIZE <= d.pool.pages * PAGE_SIZE) by (nonlinear_arith)
                requires
                    d.pool.used + n <= d.pool.pages,
            ;
        }
    }
}

/// The thread for measurements answers whoever asked it, with the number of the request; the
/// request is then taken. It receives again until the last round, after which it is done and gives
/// the CPU back to whom it answered.
pub proof fn the_measured_thread_answers_whoever_asked(
    k: KernelView,
    me: ThreadId,
    from: ThreadId,
    i: u32,
    r: (ServerTurn, Option<ThreadId>),
    endpoint: CapId,
    returned: Returned,
)
    requires
        me.0 < k.tcbs.len(),
        k.tcbs[me.0 as int] is Some,
        k.tcbs[me.0 as int]->0.exit is None,
        k.tcbs[me.0 as int]->0.pending_from == Some(from),
        request_answered(k, me, i, r),
        returned is Ok,
        i < IPC_BENCH_ITERATIONS,
    ensures
        ({
            let t = k.tcbs[me.0 as int]->0;
            let (after, turn) = answer_given(k, me, from, endpoint, i, returned);
            &&& r.1 == Some(from)
            &&& r.0 matches ServerTurn::Reply(SyscallOp::Reply { to, msg })
            &&& to == from
            &&& msg@.label == BENCH_REPLY_LABEL
            &&& msg@.words == seq![i as u64]
            &&& request_taken(k, me).tcbs == k.tcbs.update(
                me.0 as int,
                Some(Tcb { pending_from: None, pending_msg: None, ..t }),
            )
            &&& i + 1 < IPC_BENCH_ITERATIONS ==> after == k && turn == ServerTurn::Receive(
                SyscallOp::Recv { endpoint },
            )
            &&& i + 1 == IPC_BENCH_ITERATIONS ==> {
                &&& turn == (ServerTurn::Leave { to: from })
                &&& after.tcbs == k.tcbs.update(
                    me.0 as int,
                    Some(
                        Tcb {
                            state: ThreadState::Exited,
                            exit: Some(ThreadExit::Clean { code: 0 }),
                            ..t
                        },
                    ),
                )
            }
        }),
{
}

/// A thread for measurements that is asked nothing, or whose call fails, stops; one that blocks in
/// its receive gives way to whoever was picked.
pub proof fn the_measured_thread_stops_when_something_fails(
    k: KernelView,
    me: ThreadId,
    from: ThreadId,
    i: u32,
    r: (ServerTurn, Option<ThreadId>),
    endpoint: CapId,
    e: SyscallError,
    next: ThreadId,
)
    requires
        me.0 < k.tcbs.len(),
        k.tcbs[me.0 as int] is Some,
        k.tcbs[me.0 as int]->0.pending_from is None,
        request_answered(k, me, i, r),
    ensures
        r == (ServerTurn::Stop, None::<ThreadId>),
        answer_given(k, me, from, endpoint, i, Err(e)) == (k, ServerTurn::Stop),
        turn_after_receive(Err(e)) == ServerTurn::Stop,
        turn_after_receive(Ok(SyscallReturn::Reschedule { next: Some(next) }))
            == (ServerTurn::YieldTo { thread: next }),
{
}

/// The demonstration begins with an endpoint, shows revocation on it, and keeps it for what
/// follows. Its threads will start where they are meant to, and nothing is reported that was not
/// seen yet.
pub proof fn the_demonstration_begins_with_its_endpoint(
    k: KernelView,
    thread_entry: usize,
    bench_entry: usize,
    cap: CapId,
    count: u32,
    after_k: KernelView,
    after: Demo,
    step: DemoStep,
)
    requires
        demo_resumed(
            k,
            demo_begun(thread_entry, bench_entry).0,
            DemoReply::Returned(Ok(SyscallReturn::NewCaps { cap, count })),
            after_k,
            after,
            step,
        ),
    ensures
        ({
            let (d, begun) = demo_begun(thread_entry, bench_entry);
            &&& creates(begun, KernelObjectType::Endpoint)
            &&& d.message is None && d.trips is None && d.aliased is None && d.shared is None
                && d.revocation is None
            &&& after.thread_entry == thread_entry
            &&& after.bench_entry == bench_entry
            &&& after.endpoint == cap
            &&& (after_k, after.revocation) == (
                revocation_shown(k, cap).0,
                Some(revocation_shown(k, cap).1),
            )
            &&& after.stage is Thread
            &&& creates(step, KernelObjectType::ThreadControlBlock)
        }),
{
}

} // verus!
