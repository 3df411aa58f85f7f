//! The scheduling step of the in-kernel path: which contexts are switched, and when not.

use crate::boot::started;
use crate::ids::ThreadId;
use crate::preempt::{user_start, Priority, StartPlan};
use crate::state::{slot, KernelState, KernelView};
use crate::tcb::{Tcb, ThreadState};
use vstd::prelude::*;

verus! {

/// The priority level of threads that the kernel itself starts.
pub const KERNEL_THREAD_PRIORITY: u32 = 20;

/// What a scheduling step came to.
#[derive(Debug, Clone, Copy, PartialEq, Eq, Structural)]
pub enum ScheduleOutcome {
    /// `to` is on the CPU.
    Switched {
        /// The thread that runs.
        to: ThreadId,
    },
    /// `thread` was picked but cannot be started: it is not runnable or has no entry point.
    NotStartable {
        /// The thread that was picked.
        thread: ThreadId,
    },
    /// Nothing is ready.
    Idle,
}

/// Which saved register contexts are switched.
#[derive(Debug, Clone, Copy, PartialEq, Eq, Structural)]
pub enum ContextSwitch {
    /// None.
    Stay,
    /// `from` is saved, `to` resumed.
    Warm {
        /// The thread that leaves the CPU.
        from: ThreadId,
        /// The thread that runs next.
        to: ThreadId,
    },
    /// `to` is resumed; what ran before is not worth saving.
    Cold {
        /// The thread that runs next.
        to: ThreadId,
    },
}

/// The thread can be put on the CPU: it is runnable and an image is loaded for it.
pub open spec fn startable(tcb: Option<Tcb>) -> bool {
    tcb is Some && tcb->0.state is Runnable && tcb->0.entry != 0
}

/// What a scheduling step decides.
pub open spec fn step_decided(
    tcbs: Seq<Option<Tcb>>,
    outgoing: Option<ThreadId>,
    next: Option<ThreadId>,
) -> (ScheduleOutcome, ContextSwitch) {
    match next {
        None => (ScheduleOutcome::Idle, ContextSwitch::Stay),
        Some(to) => if !startable(slot(tcbs, to.0)) {
            (ScheduleOutcome::NotStartable { thread: to }, ContextSwitch::Stay)
        } else {
            (
                ScheduleOutcome::Switched { to },
                match outgoing {
                    None => ContextSwitch::Cold { to },
                    Some(from) => if from == to {
                        ContextSwitch::Stay
                    } else {
                        ContextSwitch::Warm { from, to }
                    },
                },
            )
        },
    }
}

/// What is left to do for a kernel thread that was made runnable.
pub open spec fn kernel_start(tcbs: Seq<Option<Tcb>>, thread: ThreadId) -> StartPlan {
    StartPlan {
        seed_context: slot(tcbs, thread.0) is Some,
        priority: Priority::Level(KERNEL_THREAD_PRIORITY),
    }
}

/// What handing the CPU from one thread to another comes to: who is made ready first, and which
/// contexts are switched.
pub open spec fn cpu_handed_over(from: ThreadId, to: ThreadId, from_running: bool) -> (
    Option<ThreadId>,
    ContextSwitch,
) {
    if from == to {
        (None, ContextSwitch::Stay)
    } else {
        (
            if from_running {
                Some(from)
            } else {
                None
            },
            ContextSwitch::Warm { from, to },
        )
    }
}

impl<const MMIO: usize> KernelState<MMIO> {
    /// One scheduling step: `outgoing` was running and has been charged, `next` was picked
    /// then. On `Switched` the scheduler is to put the thread on the CPU before the contexts
    /// are switched.
    pub fn schedule_step(&self, outgoing: Option<ThreadId>, next: Option<ThreadId>) -> (r: (
        ScheduleOutcome,
        ContextSwitch,
    ))
        requires
            self.wf(),
            outgoing matches Some(from) ==> slot(self@.tcbs, from.0) is Some,
        ensures
            r == step_decided(self@.tcbs, outgoing, next),
            r.1 matches ContextSwitch::Warm { from, to } ==> {
                &&& from != to
                &&& slot(self@.tcbs, from.0) is Some
                &&& startable(slot(self@.tcbs, to.0))
            },
    {
        let to = match next {
            Some(to) => to,
            None => {
                return (ScheduleOutcome::Idle, ContextSwitch::Stay);
            },
        };
        let can_start = match self.tcb(to) {
            Some(t) => matches!(t.state, ThreadState::Runnable) && t.entry != 0,
            None => false,
        };
        if !can_start {
            return (ScheduleOutcome::NotStartable { thread: to }, ContextSwitch::Stay);
        }
        let switch = match outgoing {
            None => ContextSwitch::Cold { to },
            Some(from) => {
                if from == to {
                    ContextSwitch::Stay
                } else {
                    ContextSwitch::Warm { from, to }
                }
            },
        };
        (ScheduleOutcome::Switched { to }, switch)
    }

    /// Makes a kernel thread runnable from `entry` on.
    pub fn start_thread(&mut self, thread: ThreadId, entry: usize) -> (r: StartPlan)
        requires
            old(self).wf(),
        ensures
            final(self).wf(),
            final(self)@ == (KernelView {
                tcbs: started(old(self)@.tcbs, thread, entry),
                ..old(self)@
            }),
            r == kernel_start(old(self)@.tcbs, thread),
    {
        let seed_context = self.mark_runnable(thread, entry);
        StartPlan { seed_context, priority: Priority::Level(KERNEL_THREAD_PRIORITY) }
    }

    /// Hands the CPU from one thread to another. Returns the thread to make ready first, if
    /// `from` still counts as running, and the contexts to switch. Handing it to oneself does
    /// nothing.
    pub fn yield_to(&self, from: ThreadId, to: ThreadId, from_running: bool) -> (r: (
        Option<ThreadId>,
        ContextSwitch,
    ))
        requires
            self.wf(),
            from != to ==> slot(self@.tcbs, from.0) is Some && slot(self@.tcbs, to.0) is Some,
        ensures
            r == cpu_handed_over(from, to, from_running),
    {
        if from == to {
            return (None, ContextSwitch::Stay);
        }
        let ready = if from_running {
            Some(from)
        } else {
            None
        };
        (ready, ContextSwitch::Warm { from, to })
    }
}

/// Whose context is on the CPU after a switch, if `before` was there.
pub open spec fn on_cpu_after(before: Option<ThreadId>, switch: ContextSwitch) -> Option<ThreadId> {
    match switch {
        ContextSwitch::Stay => before,
        ContextSwitch::Warm { to, .. } => Some(to),
        ContextSwitch::Cold { to } => Some(to),
    }
}

/// Whose context a switch saves.
pub open spec fn saved_by(switch: ContextSwitch) -> Option<ThreadId> {
    match switch {
        ContextSwitch::Warm { from, .. } => Some(from),
        _ => None,
    }
}

/// What a scheduling step reports is what is on the CPU afterwards: the thread that it says was
/// switched to, and else whoever was there before. A thread that leaves the CPU for another is
/// saved, and no one else is; whoever stays is not switched.
pub proof fn the_thread_reported_is_on_the_cpu(
    tcbs: Seq<Option<Tcb>>,
    outgoing: Option<ThreadId>,
    next: Option<ThreadId>,
)
    ensures
        ({
            let (outcome, switch) = step_decided(tcbs, outgoing, next);
            let now = on_cpu_after(outgoing, switch);
            &&& outcome matches ScheduleOutcome::Switched { to } ==> now == Some(to)
            &&& !(outcome is Switched) ==> switch is Stay
            &&& now != outgoing ==> saved_by(switch) == outgoing
            &&& now == outgoing ==> switch is Stay
        }),
{
}

/// A scheduling step follows the scheduler's pick: the thread picked gets the CPU if it is
/// runnable and has an entry point, it is named otherwise, and without a pick nothing is ready.
pub proof fn the_thread_picked_gets_the_cpu(
    tcbs: Seq<Option<Tcb>>,
    outgoing: Option<ThreadId>,
    next: Option<ThreadId>,
)
    ensures
        ({
            let outcome = step_decided(tcbs, outgoing, next).0;
            &&& next is None ==> outcome is Idle
            &&& next matches Some(to) ==> {
                let there = to.0 < tcbs.len() && tcbs[to.0 as int] is Some;
                let t = tcbs[to.0 as int]->0;
                if there && t.state is Runnable && t.entry != 0 {
                    outcome == (ScheduleOutcome::Switched { to })
                } else {
                    outcome == (ScheduleOutcome::NotStartable { thread: to })
                }
            }
        }),
{
}

/// Whoever the CPU is handed to has it afterwards. Whoever gives it up is saved, and is made ready
/// again just if it counted as running; handing it to oneself does nothing.
pub proof fn a_hand_over_resumes_the_other(from: ThreadId, to: ThreadId, from_running: bool)
    ensures
        ({
            let (ready, switch) = cpu_handed_over(from, to, from_running);
            &&& on_cpu_after(Some(from), switch) == Some(to)
            &&& from != to ==> saved_by(switch) == Some(from)
            &&& from == to ==> switch is Stay && ready is None
            &&& ready is Some <==> from != to && from_running
            &&& ready is Some ==> ready == Some(from)
        }),
{
}

/// A thread that is started and has not exited can be put on the CPU, from the entry point given
/// on, and is otherwise as it was. No other thread changes, and one that has exited does not run
/// again.
pub proof fn a_started_thread_can_run(
    tcbs: Seq<Option<Tcb>>,
    thread: ThreadId,
    entry: usize,
    other: int,
    outgoing: Option<ThreadId>,
)
    ensures
        ({
            let after = started(tcbs, thread, entry);
            let there = thread.0 < tcbs.len() && tcbs[thread.0 as int] is Some;
            let t = tcbs[thread.0 as int]->0;
            &&& after.len() == tcbs.len()
            &&& 0 <= other < tcbs.len() && other != thread.0 ==> after[other] == tcbs[other]
            &&& there && !(t.state is Exited) ==> {
                &&& after[thread.0 as int] == Some(
                    Tcb { entry, state: ThreadState::Runnable, ..t },
                )
                &&& entry != 0 ==> step_decided(after, outgoing, Some(thread)).0 == (
                ScheduleOutcome::Switched { to: thread })
            }
            &&& there && t.state is Exited ==> {
                &&& after[thread.0 as int] == tcbs[thread.0 as int]
                &&& !(step_decided(after, outgoing, Some(thread)).0 is Switched)
            }
            &&& !there ==> after == tcbs
        }),
{
}

/// The context of a thread is seeded if there is such a thread, and threads of processes are
/// admitted at the highest priority, above those that the kernel starts for itself.
pub proof fn threads_of_processes_come_first(tcbs: Seq<Option<Tcb>>, thread: ThreadId)
    ensures
        ({
            let there = thread.0 < tcbs.len() && tcbs[thread.0 as int] is Some;
            &&& kernel_start(tcbs, thread).seed_context == there
            &&& user_start(tcbs, thread).seed_context == there
            &&& user_start(tcbs, thread).priority is Highest
            &&& kernel_start(tcbs, thread).priority == Priority::Level(20)
        }),
{
}

/// A context is switched only into a thread that can be started.
pub proof fn only_startable_threads_are_resumed(
    tcbs: Seq<Option<Tcb>>,
    outgoing: Option<ThreadId>,
    next: Option<ThreadId>,
)
    ensures
        step_decided(tcbs, outgoing, next).1 matches ContextSwitch::Warm { from, to } ==> startable(
            slot(tcbs, to.0),
        ),
        step_decided(tcbs, outgoing, next).1 matches ContextSwitch::Cold { to } ==> startable(
            slot(tcbs, to.0),
        ),
{
}

} // verus!
