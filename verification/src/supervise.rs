//! Who runs in the two-process system: the timer's budget, faults, and the device manager that
//! watches over one driver.

use crate::boot::started;
use crate::handover::{switchable, Returned};
use crate::ids::{CapId, ThreadId};
use crate::notify::with_woken;
use crate::preempt::exited;
use crate::state::{first_free, slot, KernelState, KernelView};
use crate::syscall::{SyscallError, SyscallReturn};
use crate::tcb::{inactive_tcb, Tcb, ThreadExit, ThreadState};
use vstd::prelude::*;

verus! {

/// Time slice under preemption, in nanoseconds.
pub const P2_QUANTUM_NS: u64 = 2_000_000;

/// Timer ticks after which the verdict on preemption is due.
pub const P2_TICK_BUDGET: u32 = 40;

/// Virtual address of the stack of the third process that preemption starts with.
pub const PROC_C_STACK_VMA: usize = 0xC030_0000;

/// Length of that stack in bytes.
pub const PROC_C_STACK_LEN: usize = 16384;

/// What the trap vector knows of a fatal exception.
#[derive(Debug, Clone, Copy, PartialEq, Eq, Structural)]
pub struct Crash {
    /// Raw trap cause.
    pub cause: usize,
    /// Where it was taken.
    pub pc: usize,
    /// The address it was about.
    pub addr: usize,
}

/// What the kernel keeps on supervision and preemption.
#[derive(Debug, Clone, Copy, PartialEq, Eq, Structural)]
pub struct Supervisor {
    /// The driver that is watched over.
    pub watched: Option<ThreadId>,
    /// The device manager, while it supervises.
    pub manager: Option<ThreadId>,
    /// A crash of the watched driver that the device manager has not asked for yet.
    pub pending: Option<Crash>,
    /// Timer ticks counted so far.
    pub ticks: u32,
}

/// What a timer tick calls for.
#[derive(Debug, Clone, Copy, PartialEq, Eq, Structural)]
pub enum TickAction {
    /// Arm the timer again and go on: the device manager is not preempted.
    Exempt,
    /// Cancel the timer and give the verdict.
    BudgetSpent,
    /// Arm the timer again and preempt.
    Preempt,
}

/// What a fatal exception calls for.
#[derive(Debug, Clone, Copy, PartialEq, Eq, Structural)]
pub enum FaultAction {
    /// Nobody was running: halt.
    NobodyRan,
    /// Drop the thread from the scheduler and run whoever it picks.
    Terminate {
        /// The thread that died.
        dead: ThreadId,
    },
    /// Drop the thread from the scheduler and run the device manager.
    HandOff {
        /// The driver that died.
        dead: ThreadId,
        /// The device manager.
        manager: ThreadId,
    },
}

/// What waiting for a crash calls for.
#[derive(Debug, Clone, Copy, PartialEq, Eq, Structural)]
pub enum WaitAction {
    /// A crash is pending, or nobody runs: go on.
    GoOn,
    /// Block this thread and run whoever the scheduler picks.
    Block {
        /// The thread.
        thread: ThreadId,
    },
}

/// Nobody is watched and no tick was counted.
pub open spec fn unsupervised() -> Supervisor {
    Supervisor { watched: None, manager: None, pending: None, ticks: 0 }
}

/// The supervision of a driver.
pub open spec fn watching(s: Supervisor, tid: ThreadId) -> Supervisor {
    Supervisor { watched: Some(tid), ..s }
}

/// The supervision under a device manager, or under none.
pub open spec fn managed_by(s: Supervisor, manager: Option<ThreadId>) -> Supervisor {
    Supervisor { manager, ..s }
}

/// What a tick decides.
pub open spec fn tick_due(s: Supervisor, running: Option<ThreadId>) -> (Supervisor, TickAction) {
    if s.manager is Some && s.manager == running {
        (s, TickAction::Exempt)
    } else {
        let ticks = (s.ticks + 1) as u32;
        (
            Supervisor { ticks, ..s },
            if ticks >= P2_TICK_BUDGET {
                TickAction::BudgetSpent
            } else {
                TickAction::Preempt
            },
        )
    }
}

/// What a fatal exception decides.
pub open spec fn faulted(s: Supervisor, running: Option<ThreadId>, crash: Crash) -> (
    Supervisor,
    FaultAction,
) {
    match running {
        None => (s, FaultAction::NobodyRan),
        Some(dead) => if s.watched == Some(dead) {
            (
                Supervisor { pending: Some(crash), ..s },
                match s.manager {
                    Some(manager) => FaultAction::HandOff { dead, manager },
                    None => FaultAction::Terminate { dead },
                },
            )
        } else {
            (s, FaultAction::Terminate { dead })
        },
    }
}

/// What a fault does to the threads: the one that faulted is dead, and a device manager that is
/// handed the CPU no longer waits.
pub open spec fn kernel_after_fault(k: KernelView, action: FaultAction, crash: Crash) -> KernelView {
    let exit = ThreadExit::Faulted { cause: crash.cause as u64 };
    match action {
        FaultAction::NobodyRan => k,
        FaultAction::HandOff { dead, manager } => KernelView {
            tcbs: with_woken(exited(k.tcbs, dead, exit), manager),
            ..k
        },
        FaultAction::Terminate { dead } => KernelView { tcbs: exited(k.tcbs, dead, exit), ..k },
    }
}

/// What waiting for a crash decides.
pub open spec fn wait_due(s: Supervisor, running: Option<ThreadId>) -> WaitAction {
    match running {
        Some(thread) => if s.pending is None {
            WaitAction::Block { thread }
        } else {
            WaitAction::GoOn
        },
        None => WaitAction::GoOn,
    }
}

/// What asking for a crash gives.
pub open spec fn crash_taken(s: Supervisor) -> (Supervisor, usize) {
    (
        Supervisor { pending: None, ..s },
        match s.pending {
            Some(crash) => crash.cause,
            None => 0,
        },
    )
}

impl Supervisor {
    /// Nobody is watched and no tick was counted.
    pub fn new() -> (s: Self)
        ensures
            s == unsupervised(),
    {
        Supervisor { watched: None, manager: None, pending: None, ticks: 0 }
    }

    /// Watches over `tid` from now on. A driver that was started again is a new thread.
    pub fn p2_watch_driver(&mut self, tid: ThreadId)
        ensures
            *final(self) == watching(*old(self), tid),
    {
        self.watched = Some(tid);
    }

    /// Makes `tid` the device manager.
    pub fn p2_register_device_manager(&mut self, tid: ThreadId)
        ensures
            *final(self) == managed_by(*old(self), Some(tid)),
    {
        self.manager = Some(tid);
    }

    /// The device manager gave up. From now on it is preempted like everyone else.
    pub fn p2_dm_supervision_done(&mut self)
        ensures
            *final(self) == managed_by(*old(self), None),
    {
        self.manager = None;
    }

    /// Whether the device manager, which waits for a crash, is blocked.
    pub fn p2_dm_wait_crash(&self, running: Option<ThreadId>) -> (r: WaitAction)
        ensures
            r == wait_due(*self, running),
    {
        if self.pending.is_some() {
            return WaitAction::GoOn;
        }
        match running {
            Some(thread) => WaitAction::Block { thread },
            None => WaitAction::GoOn,
        }
    }

    /// Takes the pending crash and returns its cause, or `0` if there is none.
    pub fn p2_poll_crash(&mut self) -> (cause: usize)
        ensures
            (*final(self), cause) == crash_taken(*old(self)),
    {
        let cause: usize = match self.pending {
            Some(crash) => crash.cause,
            None => 0,
        };
        self.pending = None;
        cause
    }

    /// A timer tick. The device manager alone is exempt while it supervises: nobody would give
    /// it back the CPU that its driver's restart depends on.
    pub fn p2_tick(&mut self, running: Option<ThreadId>) -> (r: TickAction)
        requires
            old(self).ticks < u32::MAX,
        ensures
            (*final(self), r) == tick_due(*old(self), running),
    {
        if let (Some(manager), Some(thread)) = (self.manager, running) {
            if manager == thread {
                return TickAction::Exempt;
            }
        }
        self.ticks = self.ticks + 1;
        if self.ticks >= P2_TICK_BUDGET {
            TickAction::BudgetSpent
        } else {
            TickAction::Preempt
        }
    }

    /// A fatal exception in user mode: the running thread is terminated. The death of the
    /// watched driver is kept for the device manager, which then runs next.
    pub fn p2_fault<const MMIO: usize>(
        &mut self,
        k: &mut KernelState<MMIO>,
        running: Option<ThreadId>,
        crash: Crash,
    ) -> (r: FaultAction)
        requires
            old(k).wf(),
        ensures
            final(k).wf(),
            (*final(self), r) == faulted(*old(self), running, crash),
            final(k)@ == kernel_after_fault(old(k)@, faulted(*old(self), running, crash).1, crash),
    {
        let dead = match running {
            Some(dead) => dead,
            None => {
                return FaultAction::NobodyRan;
            },
        };
        k.mark_exited(dead, ThreadExit::Faulted { cause: crash.cause as u64 });
        if let Some(watched) = self.watched {
            if watched == dead {
                self.pending = Some(crash);
                if let Some(manager) = self.manager {
                    k.wake_blocked(manager);
                    return FaultAction::HandOff { dead, manager };
                }
            }
        }
        FaultAction::Terminate { dead }
    }
}

/// A thread that was started in the root task's own spaces.
#[derive(Debug, Clone, Copy, PartialEq, Eq, Structural)]
pub struct SharedStart {
    /// The thread.
    pub thread: ThreadId,
    /// Whether the contexts of the caller and the thread can be switched.
    pub switch: bool,
}

/// A new thread in the root task's capability and address space, runnable from `entry` on.
pub open spec fn shared_thread_started(
    k: KernelView,
    entry: usize,
    spawner: Option<ThreadId>,
) -> Option<(KernelView, ThreadId)> {
    match first_free(k.tcbs) {
        None => None,
        Some(i) => {
            let thread = ThreadId(i as u32);
            let t = inactive_tcb(thread, k.root.cap_space, k.root.addr_space, spawner);
            Some(
                (
                    KernelView {
                        tcbs: started(k.tcbs.update(i, Some(t)), thread, entry),
                        ..k
                    },
                    thread,
                ),
            )
        },
    }
}

/// The kernel state after a thread, if there is one, was retired.
pub open spec fn retired(k: KernelView, thread: Option<ThreadId>) -> KernelView {
    match thread {
        Some(t) => KernelView { tcbs: exited(k.tcbs, t, ThreadExit::Unknown), ..k },
        None => k,
    }
}

/// What the start of preemption comes to.
pub open spec fn preemption_started(
    k: KernelView,
    loop_entry: usize,
    server: Option<ThreadId>,
    spawner: Option<ThreadId>,
) -> (KernelView, Option<SharedStart>) {
    if loop_entry == 0 {
        (k, None)
    } else {
        match shared_thread_started(k, loop_entry, spawner) {
            None => (k, None),
            Some((made, thread)) => {
                let after = retired(retired(made, Some(k.root.thread)), server);
                (
                    after,
                    Some(SharedStart { thread, switch: switchable(after, k.root.thread, thread) }),
                )
            },
        }
    }
}

/// What the start of the IPC demonstration's server comes to.
pub open spec fn server_started(
    k: KernelView,
    caller: ThreadId,
    entry: usize,
    returned: Returned,
    spawner: Option<ThreadId>,
) -> (KernelView, Option<(CapId, SharedStart)>) {
    match returned {
        Ok(SyscallReturn::NewCaps { cap, .. }) => match shared_thread_started(k, entry, spawner) {
            None => (k, None),
            Some((made, thread)) => (
                made,
                Some((cap, SharedStart { thread, switch: switchable(made, caller, thread) })),
            ),
        },
        _ => (k, None),
    }
}

impl<const MMIO: usize> KernelState<MMIO> {
    fn start_shared_thread(&mut self, entry: usize, spawner: Option<ThreadId>) -> (r: Option<ThreadId>)
        requires
            old(self).wf(),
        ensures
            final(self).wf(),
            match shared_thread_started(old(self)@, entry, spawner) {
                Some((k, thread)) => final(self)@ == k && r == Some(thread),
                None => final(self)@ == old(self)@ && r is None,
            },
    {
        let root = self.root();
        match self.alloc_tcb(root.cap_space, root.addr_space, spawner) {
            Some(thread) => {
                let _ = self.init_user_thread(thread, entry);
                Some(thread)
            },
            None => None,
        }
    }

    /// Starts preemption: a new thread in the root task's spaces takes over its counting loop
    /// from `loop_entry` on, with nothing on its account yet, and the root task's own thread is
    /// retired together with the server of the IPC demonstration. The scheduler is to drop the
    /// retired threads and to put the new one on the CPU. `None` if there is no loop to take
    /// over or no room for a thread; then everything stays as it is.
    pub fn p2_preempt_start(
        &mut self,
        loop_entry: usize,
        server: Option<ThreadId>,
        spawner: Option<ThreadId>,
    ) -> (r: Option<SharedStart>)
        requires
            old(self).wf(),
        ensures
            final(self).wf(),
            (final(self)@, r) == preemption_started(old(self)@, loop_entry, server, spawner),
    {
        if loop_entry == 0 {
            return None;
        }
        let root = self.root().thread;
        let thread = match self.start_shared_thread(loop_entry, spawner) {
            Some(thread) => thread,
            None => {
                return None;
            },
        };
        self.mark_exited(root, ThreadExit::Unknown);
        if let Some(server) = server {
            self.mark_exited(server, ThreadExit::Unknown);
        }
        let switch = self.user_ctx_switch_ptrs(root, thread).is_some();
        Some(SharedStart { thread, switch })
    }

    /// Starts the server of the IPC demonstration in the root task's own spaces, once its
    /// endpoint was created. Returns the endpoint's capability and the server. The scheduler is
    /// to make the caller ready and to put the server on the CPU.
    pub fn p2_ipc_demo_start(
        &mut self,
        caller: ThreadId,
        entry: usize,
        returned: Returned,
        spawner: Option<ThreadId>,
    ) -> (r: Option<(CapId, SharedStart)>)
        requires
            old(self).wf(),
        ensures
            final(self).wf(),
            (final(self)@, r) == server_started(old(self)@, caller, entry, returned, spawner),
    {
        let cap = match returned {
            Ok(SyscallReturn::NewCaps { cap, .. }) => cap,
            _ => {
                return None;
            },
        };
        match self.start_shared_thread(entry, spawner) {
            Some(thread) => {
                let switch = self.user_ctx_switch_ptrs(caller, thread).is_some();
                Some((cap, SharedStart { thread, switch }))
            },
            None => None,
        }
    }
}

/// A crash of the watched driver reaches the device manager, whether it waits already or only
/// later: it runs next, its wait does not block, and what it asks for is the cause. Asked
/// again, there is nothing left, and the next wait blocks.
pub proof fn crashes_reach_the_manager(
    s: Supervisor,
    driver: ThreadId,
    crash: Crash,
    waiter: ThreadId,
)
    requires
        s.watched == Some(driver),
    ensures
        ({
            let (after, action) = faulted(s, Some(driver), crash);
            let (asked, cause) = crash_taken(after);
            &&& wait_due(after, Some(waiter)) is GoOn
            &&& cause == crash.cause
            &&& crash_taken(asked).1 == 0
            &&& wait_due(asked, Some(waiter)) == (WaitAction::Block { thread: waiter })
            &&& s.manager matches Some(manager) ==> action == (FaultAction::HandOff {
                dead: driver,
                manager,
            })
        }),
{
}

/// A thread that is not watched dies without a trace in the supervision.
pub proof fn other_faults_are_not_reported(s: Supervisor, dead: ThreadId, crash: Crash)
    requires
        s.watched != Some(dead),
    ensures
        faulted(s, Some(dead), crash) == (s, FaultAction::Terminate { dead }),
{
}

/// The state after `n` ticks during which the device manager did not run.
pub open spec fn after_ticks(s: Supervisor, n: nat) -> Supervisor
    decreases n,
{
    if n == 0 {
        s
    } else {
        tick_due(after_ticks(s, (n - 1) as nat), None).0
    }
}

/// From a fresh start every tick preempts until the budget is spent, and the tick that spends
/// it gives the verdict.
pub proof fn verdict_comes_with_the_budget(s: Supervisor, n: nat)
    requires
        s.ticks == 0,
        n < P2_TICK_BUDGET,
    ensures
        after_ticks(s, n).ticks == n,
        tick_due(after_ticks(s, n), None).1 == if n + 1 == P2_TICK_BUDGET {
            TickAction::BudgetSpent
        } else {
            TickAction::Preempt
        },
    decreases n,
{
    if n > 0 {
        verdict_comes_with_the_budget(s, (n - 1) as nat);
    }
}

/// Once preemption started, nobody runs the root task's own thread or the server again: both
/// are terminated, and the thread that took over is runnable at the loop.
pub proof fn preemption_retires_the_old_threads(
    k: KernelView,
    loop_entry: usize,
    server: Option<ThreadId>,
    spawner: Option<ThreadId>,
)
    requires
        k.wf(),
        slot(k.tcbs, k.root.thread.0) is Some,
        server matches Some(s) ==> slot(k.tcbs, s.0) is Some,
        preemption_started(k, loop_entry, server, spawner).1 is Some,
    ensures
        ({
            let (after, start) = preemption_started(k, loop_entry, server, spawner);
            let fresh = slot(after.tcbs, start->0.thread.0);
            &&& slot(after.tcbs, k.root.thread.0)->0.state is Exited
            &&& server matches Some(s) ==> slot(after.tcbs, s.0)->0.state is Exited
            &&& fresh is Some && fresh->0.state is Runnable && fresh->0.entry == loop_entry
            &&& fresh->0.cap_space == k.root.cap_space
            &&& fresh->0.addr_space == k.root.addr_space
            &&& start->0.switch
        }),
{
    let made = shared_thread_started(k, loop_entry, spawner)->0;
    let i = first_free(k.tcbs)->0;
    crate::state::lemma_first_free(k.tcbs, i);
    assert(k.tcbs[i] is None);
    assert(made.1 != k.root.thread);
}

/// A tick counts against the budget unless the device manager runs; only then is it exempt, and
/// the supervision stays as it is. No tick changes who is watched, who manages, or what is pending.
pub proof fn only_the_manager_is_exempt(s: Supervisor, running: Option<ThreadId>)
    requires
        s.ticks < u32::MAX,
    ensures
        ({
            let (after, action) = tick_due(s, running);
            let managing = running is Some && s.manager is Some && running->0 == s.manager->0;
            &&& action is Exempt <==> managing
            &&& after.ticks == if managing {
                s.ticks as int
            } else {
                s.ticks + 1
            }
            &&& after.watched == s.watched
            &&& after.manager == s.manager
            &&& after.pending == s.pending
        }),
{
}

/// A thread that faults is dead for that reason, no other thread is, and nobody else changes but
/// for a device manager that waited and is handed the CPU. Where nobody ran, nothing happens.
pub proof fn a_fault_kills_the_thread_that_faulted(
    s: Supervisor,
    k: KernelView,
    dead: ThreadId,
    crash: Crash,
    other: int,
)
    requires
        k.tcbs.len() <= u32::MAX,
        dead.0 < k.tcbs.len(),
        k.tcbs[dead.0 as int] is Some,
        k.tcbs[dead.0 as int]->0.exit is None,
        0 <= other < k.tcbs.len(),
        other != dead.0,
    ensures
        ({
            let (later, action) = faulted(s, Some(dead), crash);
            let after = kernel_after_fault(k, action, crash);
            let t = k.tcbs[dead.0 as int]->0;
            let watched = s.watched is Some && s.watched->0 == dead;
            let is_manager = watched && s.manager is Some && s.manager->0 == ThreadId(other as u32);
            &&& after.tcbs[dead.0 as int] == Some(
                Tcb {
                    state: ThreadState::Exited,
                    exit: Some(ThreadExit::Faulted { cause: crash.cause as u64 }),
                    ..t
                },
            )
            &&& after == (KernelView { tcbs: after.tcbs, ..k })
            &&& after.tcbs[other] == if is_manager && k.tcbs[other] is Some
                && k.tcbs[other]->0.state is BlockedOnNotification {
                Some(Tcb { state: ThreadState::Runnable, ..k.tcbs[other]->0 })
            } else {
                k.tcbs[other]
            }
            &&& later.pending == if watched {
                Some(crash)
            } else {
                s.pending
            }
            &&& later.watched == s.watched && later.manager == s.manager && later.ticks == s.ticks
            &&& action is HandOff <==> watched && s.manager is Some
            &&& !(action is HandOff) ==> action == (FaultAction::Terminate { dead })
            &&& faulted(s, None, crash) == (s, FaultAction::NobodyRan)
            &&& kernel_after_fault(k, FaultAction::NobodyRan, crash) == k
        }),
{
}

/// A wait for a crash blocks just the thread that runs, and only while no crash is pending.
pub proof fn a_wait_blocks_while_nothing_is_pending(s: Supervisor, running: Option<ThreadId>)
    ensures
        wait_due(s, running) is GoOn <==> s.pending is Some || running is None,
        wait_due(s, running) matches WaitAction::Block { thread } ==> running == Some(thread),
        crash_taken(s).0.watched == s.watched,
        crash_taken(s).0.manager == s.manager,
        crash_taken(s).0.ticks == s.ticks,
        crash_taken(s).0.pending is None,
        s.pending is None ==> crash_taken(s).1 == 0,
{
}

/// The server of the demonstration is a new thread in the first process's own spaces, runnable at
/// its entry point, and the endpoint that it serves is the one just created. No other thread
/// changes. Without an endpoint, or without room for the thread, there is no server.
pub proof fn the_server_serves_the_new_endpoint(
    k: KernelView,
    caller: ThreadId,
    entry: usize,
    cap: CapId,
    count: u32,
    spawner: Option<ThreadId>,
    other: int,
    e: SyscallError,
)
    requires
        k.wf(),
        caller.0 < k.tcbs.len() && k.tcbs[caller.0 as int] is Some,
        exists|i: int| 0 <= i < k.tcbs.len() && (#[trigger] k.tcbs[i]) is None,
    ensures
        ({
            let returned = Ok(SyscallReturn::NewCaps { cap, count });
            let (after, r) = server_started(k, caller, entry, returned, spawner);
            let thread = (r->0).1.thread;
            let t = after.tcbs[thread.0 as int];
            &&& r is Some
            &&& (r->0).0 == cap
            &&& (r->0).1.switch
            &&& thread.0 < k.tcbs.len() && k.tcbs[thread.0 as int] is None
            &&& t is Some
            &&& t->0.id == thread
            &&& t->0.state is Runnable
            &&& t->0.entry == entry
            &&& t->0.cap_space == k.root.cap_space
            &&& t->0.addr_space == k.root.addr_space
            &&& t->0.spawner == spawner
            &&& t->0.pending_msg is None && t->0.pending_from is None && t->0.exit is None
            &&& after == (KernelView { tcbs: after.tcbs, ..k })
            &&& 0 <= other < k.tcbs.len() && other != thread.0 ==> after.tcbs[other]
                == k.tcbs[other]
            &&& server_started(k, caller, entry, Err(e), spawner) == (
                k,
                None::<(CapId, SharedStart)>,
            )
        }),
{
    crate::state::lemma_first_free(k.tcbs, 0);
    let i = first_free(k.tcbs)->0;
    crate::state::lemma_first_free(k.tcbs, i);
}

/// Preemption starts whenever there is a loop to take over and room for a thread, and otherwise
/// nothing changes. It takes nobody along but the first process's own thread and the server.
pub proof fn preemption_starts_with_a_loop_and_room(
    k: KernelView,
    loop_entry: usize,
    server: Option<ThreadId>,
    spawner: Option<ThreadId>,
    other: int,
)
    requires
        k.wf(),
    ensures
        ({
            let (after, start) = preemption_started(k, loop_entry, server, spawner);
            let room = exists|i: int| 0 <= i < k.tcbs.len() && (#[trigger] k.tcbs[i]) is None;
            &&& start is Some <==> loop_entry != 0 && room
            &&& start is None ==> after == k
            &&& start is Some ==> {
                let thread = start->0.thread;
                &&& thread.0 < k.tcbs.len() && k.tcbs[thread.0 as int] is None
                &&& after == (KernelView { tcbs: after.tcbs, ..k })
                &&& server != Some(thread) && k.root.thread != thread
                    ==> after.tcbs[thread.0 as int] is Some && after.tcbs[thread.0 as int]->0.spawner
                    == spawner && after.tcbs[thread.0 as int]->0.exit is None
                &&& 0 <= other < k.tcbs.len() && other != thread.0 && other != k.root.thread.0 && (
                server is None || server->0 != ThreadId(other as u32)) ==> after.tcbs[other] == k.tcbs[other]
            }
        }),
{
    crate::state::lemma_first_free(k.tcbs, 0);
    if first_free(k.tcbs) is Some {
        let i = first_free(k.tcbs)->0;
        crate::state::lemma_first_free(k.tcbs, i);
        assert(k.tcbs[i] is None);
    }
}

/// Whoever is watched last is the driver whose crash is kept, for whoever became the manager last:
/// that thread is handed the CPU and is exempt from ticks. Once the manager has given up, a crash
/// ends its driver like any other thread, and nobody is exempt. To begin with nobody is watched,
/// nobody manages, nothing is pending and no tick was counted.
pub proof fn the_driver_watched_is_the_one_reported(
    s: Supervisor,
    before: ThreadId,
    driver: ThreadId,
    manager: ThreadId,
    crash: Crash,
    running: Option<ThreadId>,
)
    ensures
        ({
            let set_up = managed_by(watching(watching(s, before), driver), Some(manager));
            let given_up = managed_by(set_up, None);
            &&& faulted(set_up, Some(driver), crash).1 == (FaultAction::HandOff {
                dead: driver,
                manager,
            })
            &&& crash_taken(faulted(set_up, Some(driver), crash).0).1 == crash.cause
            &&& before != driver ==> faulted(set_up, Some(before), crash) == (
                set_up,
                FaultAction::Terminate { dead: before },
            )
            &&& tick_due(set_up, Some(manager)).1 is Exempt
            &&& set_up.ticks == s.ticks && set_up.pending == s.pending
            &&& faulted(given_up, Some(driver), crash).1 == (FaultAction::Terminate { dead: driver })
            &&& !(tick_due(given_up, running).1 is Exempt)
            &&& crash_taken(unsupervised()).1 == 0
            &&& faulted(unsupervised(), Some(driver), crash) == (
                unsupervised(),
                FaultAction::Terminate { dead: driver },
            )
            &&& tick_due(unsupervised(), running).0.ticks == 1
        }),
{
}

} // verus!
