//! A thread has an exit reason exactly if it has exited, and keeps the reason it was given first,
//! as it keeps its creator.
//!
//! The first holds of every thread when it is created, and no operation ever breaks any of it.

use crate::boot::{booted, seeded, started, BootInfo};
use crate::dispatch::{dispatched, resumed};
use crate::enter::{entering, pair_made, Enter};
use crate::handover::{call_over, directed_call_over, reply_over, Returned};
use crate::ids::{CapSpaceId, ThreadId};
use crate::inkernel::{
    demo_resumed, request_taken, root_message_taken, Demo, DemoReply, DemoStep,
};
use crate::kernel_laws::{lemma_no_break, lemma_resume_touches_threads_only, threads_kept};
use crate::launch::{
    executed, instructions_left, launch_at_start, launch_begun,
    lemma_only_grants_change_the_kernel, op_at, program, ran, DriverPages, Launch, Outcome,
    Service,
};
use crate::notify::{all_woken, with_woken, woken_threads};
use crate::objects::KernelObjectType;
use crate::paging::UserImage;
use crate::preempt::exited;
use crate::retype::{batch_of, in_sequence, is_first_break, retyped};
use crate::spawn::process_made;
use crate::state::{empty_kernel, first_free, lemma_first_free, slot, KernelView};
use crate::supervise::{
    kernel_after_fault, preemption_started, retired, server_started, Crash, FaultAction,
};
use crate::syscall::{Pending, Reply, RetypeGrant, SyscallOp, Woken};
use crate::tcb::{Tcb, ThreadExit};
use vstd::prelude::*;

verus! {

/// Every thread has an exit reason exactly if it has exited.
pub open spec fn exits_recorded(tcbs: Seq<Option<Tcb>>) -> bool {
    forall|i: int|
        0 <= i < tcbs.len() && (#[trigger] tcbs[i]) is Some ==> tcbs[i]->0.exit_recorded()
}

/// Every thread that was there before is there after, with the same creator, and with the exit
/// reason that it had, if any.
pub open spec fn records_kept(before: Seq<Option<Tcb>>, after: Seq<Option<Tcb>>) -> bool {
    &&& after.len() == before.len()
    &&& forall|i: int|
        0 <= i < before.len() && (#[trigger] before[i]) is Some ==> {
            &&& after[i] is Some
            &&& after[i]->0.spawner == before[i]->0.spawner
            &&& before[i]->0.exit is Some ==> after[i]->0.exit == before[i]->0.exit
        }
}

/// After a step every thread has an exit reason exactly if it has exited, and what was recorded
/// of a thread before is still recorded.
pub open spec fn exits_kept(before: KernelView, after: KernelView) -> bool {
    exits_recorded(after.tcbs) && records_kept(before.tcbs, after.tcbs)
}

/// In a kernel without threads every exit is recorded.
pub proof fn empty_kernel_records_exits(mmio: nat)
    ensures
        exits_recorded(empty_kernel(mmio).tcbs),
{
}

/// The first step of a system call keeps the exits.
pub proof fn dispatch_keeps_exits(k: KernelView, caller: ThreadId, op: SyscallOp)
    requires
        exits_recorded(k.tcbs),
    ensures
        exits_kept(k, dispatched(k, caller, op).0),
{
    lemma_dispatch_leaves_threads(k, caller, op);
}

/// The first step of a system call changes no thread.
pub proof fn lemma_dispatch_leaves_threads(k: KernelView, caller: ThreadId, op: SyscallOp)
    ensures
        dispatched(k, caller, op).0.tcbs == k.tcbs,
{
}

/// A retype keeps the exits: the threads it creates have never been started, and it replaces
/// none.
proof fn lemma_retype(
    k: KernelView,
    caller: ThreadId,
    ty: KernelObjectType,
    grant: RetypeGrant,
    running: Option<ThreadId>,
)
    requires
        exits_recorded(k.tcbs),
    ensures
        exits_kept(k, retyped(k, caller, ty, grant, running).0),
{
    let after = retyped(k, caller, ty, grant, running).0;
    let b = batch_of(k, caller, ty, grant, running);
    let n = grant.count as int;
    if after.tcbs != k.tcbs {
        assert(!exists|m: int| is_first_break(k, b, n, m));
        lemma_no_break(k, b, n, n);
        assert forall|i: int|
            0 <= i < k.tcbs.len() && (#[trigger] k.tcbs[i]) is Some implies after.tcbs[i]
            == k.tcbs[i] by {
            if b.first_obj <= i < b.first_obj + n {
                assert(in_sequence(k, b, i - b.first_obj));
            }
        }
    }
}

/// A later step of a system call keeps the exits, whatever the layers around the kernel reply:
/// no message, reply or signal brings a thread back that has exited.
pub proof fn resume_keeps_exits(k: KernelView, pending: Pending, reply: Reply)
    requires
        exits_recorded(k.tcbs),
    ensures
        exits_kept(k, resumed(k, pending, reply).0),
{
    if let Pending::Retype { caller, target_type } = pending {
        if let Reply::Reserved { grant: Ok(grant), running } = reply {
            lemma_retype(k, caller, target_type, grant, running);
        }
    } else {
        lemma_resume_touches_threads_only(k, pending, reply);
        reveal(threads_kept);
    }
}

/// Terminating a thread, starting it and waking it keep the exits: only termination records a
/// reason, only the first one counts, and a thread that has exited is neither started nor woken.
pub proof fn threads_exit_once(
    tcbs: Seq<Option<Tcb>>,
    thread: ThreadId,
    exit: ThreadExit,
    entry: usize,
    woken: Woken,
)
    requires
        exits_recorded(tcbs),
    ensures
        exits_recorded(exited(tcbs, thread, exit)),
        records_kept(tcbs, exited(tcbs, thread, exit)),
        exits_recorded(started(tcbs, thread, entry)),
        records_kept(tcbs, started(tcbs, thread, entry)),
        exits_recorded(with_woken(tcbs, thread)),
        records_kept(tcbs, with_woken(tcbs, thread)),
        exits_recorded(all_woken(tcbs, woken_threads(woken))),
        records_kept(tcbs, all_woken(tcbs, woken_threads(woken))),
{
}

proof fn lemma_seeding_leaves_threads(
    k: KernelView,
    cs: CapSpaceId,
    ranges: Seq<(u64, u64)>,
)
    ensures
        seeded(k, cs, ranges).kernel.tcbs == k.tcbs,
    decreases ranges.len(),
{
    if ranges.len() > 0 {
        lemma_seeding_leaves_threads(k, cs, ranges.drop_last());
    }
}

/// A boot, whether it succeeds or not, keeps the exits.
pub proof fn boot_keeps_exits(k: KernelView, boot: BootInfo)
    requires
        k.wf(),
        exits_recorded(k.tcbs),
    ensures
        exits_kept(k, booted(k, boot).0),
{
    lemma_first_free(k.tcbs, first_free(k.tcbs)->0);
    lemma_first_free(k.spaces, first_free(k.spaces)->0);
    assert forall|now: KernelView, cs: CapSpaceId, ranges: Seq<(u64, u64)>| #[trigger]
        seeded(now, cs, ranges).kernel.tcbs == now.tcbs by {
        lemma_seeding_leaves_threads(now, cs, ranges);
    }
}

/// Making a process, whether it succeeds or not, keeps the exits.
pub proof fn making_a_process_keeps_exits(
    k: KernelView,
    root_pt: usize,
    entry: usize,
    spawner: Option<ThreadId>,
)
    requires
        exits_recorded(k.tcbs),
    ensures
        exits_kept(k, process_made(k, root_pt, entry, spawner).0),
{
    lemma_first_free(k.tcbs, first_free(k.tcbs)->0);
}

/// Entering user mode keeps the exits, alone or with the second process.
pub proof fn entering_keeps_exits(
    k: KernelView,
    user: UserImage,
    e: Enter,
    spawner: Option<ThreadId>,
)
    requires
        exits_recorded(k.tcbs),
    ensures
        exits_kept(k, entering(k, user).0),
        exits_kept(k, pair_made(k, e, spawner).0),
{
    let k1 = KernelView { tcbs: started(k.tcbs, k.root.thread, e.user.entry_vma), ..k };
    lemma_first_free(k1.tcbs, first_free(k1.tcbs)->0);
}

/// The start of preemption and of the IPC demonstration's server, and a fault, keep the exits:
/// a thread that died before it is retired keeps the reason of its death.
pub proof fn supervision_keeps_exits(
    k: KernelView,
    loop_entry: usize,
    server: Option<ThreadId>,
    caller: ThreadId,
    returned: Returned,
    spawner: Option<ThreadId>,
    action: FaultAction,
    crash: Crash,
)
    requires
        exits_recorded(k.tcbs),
    ensures
        exits_kept(k, preemption_started(k, loop_entry, server, spawner).0),
        exits_kept(k, server_started(k, caller, loop_entry, returned, spawner).0),
        exits_kept(k, kernel_after_fault(k, action, crash)),
{
    lemma_first_free(k.tcbs, first_free(k.tcbs)->0);
}

/// Handing the CPU over after an IPC call, and taking what was delivered, keep the exits.
pub proof fn handovers_keep_exits(
    k: KernelView,
    caller: ThreadId,
    target: Option<ThreadId>,
    returned: Returned,
)
    requires
        exits_recorded(k.tcbs),
    ensures
        exits_kept(k, call_over(k, caller, returned).0),
        exits_kept(k, directed_call_over(k, caller, target, returned).0),
        exits_kept(k, reply_over(k, caller, returned).0),
        exits_kept(k, request_taken(k, caller)),
        exits_kept(k, root_message_taken(k)),
{
}

/// Every step of the in-kernel demonstration keeps the exits.
pub proof fn demonstration_keeps_exits(
    k: KernelView,
    d: Demo,
    reply: DemoReply,
    after_k: KernelView,
    after: Demo,
    step: DemoStep,
)
    requires
        exits_recorded(k.tcbs),
        demo_resumed(k, d, reply, after_k, after, step),
    ensures
        exits_kept(k, after_k),
{
}

proof fn lemma_launch_leaves_threads(k: KernelView, l: Launch)
    ensures
        ran(k, l).0.tcbs == k.tcbs,
    decreases instructions_left(l),
{
    lemma_only_grants_change_the_kernel(op_at(l.service, l.pc as int), k, l);
    if let Outcome::Next(k1, l1) = executed(k, l) {
        if l.pc < l1.pc && l.service == l1.service && l.pc < program(l.service).len() {
            lemma_launch_leaves_threads(k1, l1);
        }
    }
}

/// A launch keeps the exits, and so does the retirement of the two threads before the network
/// service is launched.
pub proof fn launches_keep_exits(
    k: KernelView,
    service: Service,
    caller: ThreadId,
    driver: Option<DriverPages>,
    server: Option<ThreadId>,
    second_process: Option<ThreadId>,
    l: Launch,
)
    requires
        exits_recorded(k.tcbs),
    ensures
        exits_kept(
            k,
            launch_begun(
                retired(retired(k, server), second_process),
                service,
                caller,
                driver,
            ).0,
        ),
        exits_kept(k, launch_begun(k, service, caller, driver).0),
        exits_kept(k, ran(k, l).0),
{
    let now = retired(retired(k, server), second_process);
    lemma_launch_leaves_threads(k, l);
    if let Some(t) = slot(k.tcbs, caller.0) {
        lemma_launch_leaves_threads(
            k,
            launch_at_start(service, caller, t.cap_space, driver),
        );
    }
    if let Some(t) = slot(now.tcbs, caller.0) {
        lemma_launch_leaves_threads(
            now,
            launch_at_start(service, caller, t.cap_space, driver),
        );
    }
}

} // verus!
