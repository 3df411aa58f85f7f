//! Deciding who runs: timer ticks, voluntary yields and terminated threads.
//!
//! The scheduler keeps the ready threads and its own accounts. These functions take what it
//! answered and decide what it is told next and which contexts are switched.

use crate::boot::started;
use crate::ids::ThreadId;
use crate::state::{slot, KernelState, KernelView};
use crate::tcb::{Tcb, ThreadExit, ThreadState};
use vstd::prelude::*;

verus! {

/// What a tick or a yield came to.
#[derive(Debug, Clone, Copy, PartialEq, Eq, Structural)]
pub enum PreemptStep {
    /// Save the context of `outgoing` and resume that of `incoming`.
    Switch {
        /// The thread that leaves the CPU.
        outgoing: ThreadId,
        /// The thread that runs next.
        incoming: ThreadId,
    },
    /// No context is saved or resumed.
    Continue,
    /// Nothing is ready.
    Idle,
}

/// What a terminated thread leaves behind. There is nothing to save for it.
#[derive(Debug, Clone, Copy, PartialEq, Eq, Structural)]
pub enum TerminationOutcome {
    /// `incoming` runs next.
    Switched {
        /// The thread that runs next.
        incoming: ThreadId,
    },
    /// Nothing else is ready.
    Idle,
}

/// What the scheduler is told after it picked, and what becomes of the CPU.
#[derive(Debug, Clone, Copy, PartialEq, Eq, Structural)]
pub struct TickDecision {
    /// What becomes of the CPU.
    pub step: PreemptStep,
    /// The thread to make ready first.
    pub ready: Option<ThreadId>,
    /// The thread to put on the CPU.
    pub dispatch: Option<ThreadId>,
}

/// The priority at which a thread is admitted to the scheduler.
#[derive(Debug, Clone, Copy, PartialEq, Eq, Structural)]
pub enum Priority {
    /// The highest there is.
    Highest,
    /// This level.
    Level(u32),
}

/// What is left to do for a thread that was made runnable.
#[derive(Debug, Clone, Copy, PartialEq, Eq, Structural)]
pub struct StartPlan {
    /// Whether there is a thread whose register context is to be seeded.
    pub seed_context: bool,
    /// The priority to admit it at.
    pub priority: Priority,
}

/// What a tick decides: another thread that was picked takes the CPU, the same one keeps it.
pub open spec fn tick_decided(outgoing: Option<ThreadId>, next: Option<ThreadId>) -> TickDecision {
    match (outgoing, next) {
        (Some(o), Some(n)) => if n != o {
            TickDecision {
                step: PreemptStep::Switch { outgoing: o, incoming: n },
                ready: None,
                dispatch: Some(n),
            }
        } else {
            TickDecision { step: PreemptStep::Continue, ready: None, dispatch: Some(o) }
        },
        (Some(o), None) => TickDecision {
            step: PreemptStep::Continue,
            ready: Some(o),
            dispatch: Some(o),
        },
        (None, Some(n)) => TickDecision {
            step: PreemptStep::Continue,
            ready: None,
            dispatch: Some(n),
        },
        (None, None) => TickDecision { step: PreemptStep::Idle, ready: None, dispatch: None },
    }
}

/// What a yield decides. The yielding thread was not among the candidates; if nobody else was
/// ready it goes on.
pub open spec fn yield_decided(outgoing: Option<ThreadId>, next: Option<ThreadId>) -> TickDecision {
    match (outgoing, next) {
        (Some(o), None) => TickDecision {
            step: PreemptStep::Continue,
            ready: None,
            dispatch: Some(o),
        },
        _ => tick_decided(outgoing, next),
    }
}

/// The threads after `thread`, if it exists, terminated. A reason that is recorded already
/// stays.
pub open spec fn exited(tcbs: Seq<Option<Tcb>>, thread: ThreadId, exit: ThreadExit) -> Seq<
    Option<Tcb>,
> {
    match slot(tcbs, thread.0) {
        Some(t) => tcbs.update(
            thread.0 as int,
            Some(
                Tcb {
                    state: ThreadState::Exited,
                    exit: if t.exit is Some {
                        t.exit
                    } else {
                        Some(exit)
                    },
                    ..t
                },
            ),
        ),
        None => tcbs,
    }
}

/// Where the contexts of two threads stand that can be switched.
pub open spec fn contexts_switched(
    tcbs: Seq<Option<Tcb>>,
    outgoing: ThreadId,
    incoming: ThreadId,
) -> Option<(usize, usize)> {
    if outgoing != incoming && slot(tcbs, outgoing.0) is Some && slot(tcbs, incoming.0) is Some {
        Some((outgoing.0 as usize, incoming.0 as usize))
    } else {
        None
    }
}

/// What is left to do for a user-mode thread that was made runnable.
pub open spec fn user_start(tcbs: Seq<Option<Tcb>>, thread: ThreadId) -> StartPlan {
    StartPlan { seed_context: slot(tcbs, thread.0) is Some, priority: Priority::Highest }
}

/// Whether a thread that is terminated is to be charged first.
pub open spec fn charged_at_the_end(thread: ThreadId, running: Option<ThreadId>) -> bool {
    running == Some(thread)
}

/// Who runs after a terminated thread, if `next` was picked.
pub open spec fn termination_over(next: Option<ThreadId>) -> TerminationOutcome {
    match next {
        Some(incoming) => TerminationOutcome::Switched { incoming },
        None => TerminationOutcome::Idle,
    }
}

impl<const MMIO: usize> KernelState<MMIO> {
    /// A timer tick: `outgoing` was running and has been charged, `next` was picked then.
    pub fn preempt_tick(&self, outgoing: Option<ThreadId>, next: Option<ThreadId>) -> (d: TickDecision)
        ensures
            d == tick_decided(outgoing, next),
    {
        match (outgoing, next) {
            (Some(o), Some(n)) => {
                if n != o {
                    TickDecision {
                        step: PreemptStep::Switch { outgoing: o, incoming: n },
                        ready: None,
                        dispatch: Some(n),
                    }
                } else {
                    TickDecision { step: PreemptStep::Continue, ready: None, dispatch: Some(o) }
                }
            },
            (Some(o), None) => TickDecision {
                step: PreemptStep::Continue,
                ready: Some(o),
                dispatch: Some(o),
            },
            (None, Some(n)) => TickDecision {
                step: PreemptStep::Continue,
                ready: None,
                dispatch: Some(n),
            },
            (None, None) => TickDecision { step: PreemptStep::Idle, ready: None, dispatch: None },
        }
    }

    /// A voluntary yield: `outgoing` was running, has been charged and was hidden while `next`
    /// was picked, so that the CPU goes to someone else if anyone else is ready.
    pub fn cooperative_yield(&self, outgoing: Option<ThreadId>, next: Option<ThreadId>) -> (d:
        TickDecision)
        ensures
            d == yield_decided(outgoing, next),
    {
        match (outgoing, next) {
            (Some(o), None) => TickDecision {
                step: PreemptStep::Continue,
                ready: None,
                dispatch: Some(o),
            },
            _ => self.preempt_tick(outgoing, next),
        }
    }

    /// Where the saved contexts of two threads stand that are to be switched. `None` if they
    /// are the same thread or one of them does not exist.
    pub fn user_ctx_switch_ptrs(&self, outgoing: ThreadId, incoming: ThreadId) -> (r: Option<
        (usize, usize),
    >)
        requires
            self.wf(),
        ensures
            r == contexts_switched(self@.tcbs, outgoing, incoming),
    {
        if outgoing == incoming || self.tcb(outgoing).is_none() || self.tcb(incoming).is_none() {
            return None;
        }
        Some((outgoing.as_usize(), incoming.as_usize()))
    }

    /// Makes a user-mode thread runnable from `entry` on.
    pub fn init_user_thread(&mut self, thread: ThreadId, entry: usize) -> (r: StartPlan)
        requires
            old(self).wf(),
        ensures
            final(self).wf(),
            final(self)@ == (KernelView {
                tcbs: started(old(self)@.tcbs, thread, entry),
                ..old(self)@
            }),
            r == user_start(old(self)@.tcbs, thread),
    {
        let seed_context = self.mark_runnable(thread, entry);
        StartPlan { seed_context, priority: Priority::Highest }
    }

    /// Makes a thread runnable from `entry` on, if it exists and has not exited. Returns
    /// whether it exists.
    pub fn mark_runnable(&mut self, thread: ThreadId, entry: usize) -> (there: bool)
        requires
            old(self).wf(),
        ensures
            final(self).wf(),
            final(self)@ == (KernelView {
                tcbs: started(old(self)@.tcbs, thread, entry),
                ..old(self)@
            }),
            there == (slot(old(self)@.tcbs, thread.0) is Some),
    {
        if let Some(t) = self.tcb_mut(thread) {
            if !matches!(t.state, ThreadState::Exited) {
                t.entry = entry;
                t.state = ThreadState::Runnable;
            }
            true
        } else {
            false
        }
    }

    /// Records that a thread terminated, and why. A reason is recorded once and stays.
    pub fn mark_exited(&mut self, thread: ThreadId, exit: ThreadExit)
        requires
            old(self).wf(),
        ensures
            final(self).wf(),
            final(self)@ == (KernelView {
                tcbs: exited(old(self)@.tcbs, thread, exit),
                ..old(self)@
            }),
            slot(final(self)@.tcbs, thread.0) matches Some(t) ==> t.exit_recorded(),
    {
        if let Some(t) = self.tcb_mut(thread) {
            t.state = ThreadState::Exited;
            if t.exit.is_none() {
                t.exit = Some(exit);
            }
        }
    }

    /// Terminates a thread after a fatal exception: one process dies, the system goes on.
    /// Returns whether the thread is the one that runs and has to be charged before the
    /// scheduler drops it.
    pub fn terminate_thread(
        &mut self,
        thread: ThreadId,
        exit: ThreadExit,
        running: Option<ThreadId>,
    ) -> (charge: bool)
        requires
            old(self).wf(),
        ensures
            final(self).wf(),
            final(self)@ == (KernelView {
                tcbs: exited(old(self)@.tcbs, thread, exit),
                ..old(self)@
            }),
            charge == charged_at_the_end(thread, running),
    {
        self.mark_exited(thread, exit);
        match running {
            Some(r) => r == thread,
            None => false,
        }
    }

    /// Who runs once a terminated thread was dropped from the scheduler and `next` picked.
    pub fn after_termination(&self, next: Option<ThreadId>) -> (r: TerminationOutcome)
        ensures
            r == termination_over(next),
    {
        match next {
            Some(incoming) => TerminationOutcome::Switched { incoming },
            None => TerminationOutcome::Idle,
        }
    }
}

/// A switch is always between two different threads, the one that ran and the one that was
/// picked, and the picked one is put on the CPU.
pub proof fn switches_are_between_different_threads(
    outgoing: Option<ThreadId>,
    next: Option<ThreadId>,
)
    ensures
        tick_decided(outgoing, next).step matches PreemptStep::Switch { outgoing: o, incoming: n }
            ==> o != n && outgoing == Some(o) && next == Some(n) && tick_decided(
            outgoing,
            next,
        ).dispatch == Some(n),
        yield_decided(outgoing, next).step matches PreemptStep::Switch { outgoing: o, incoming: n }
            ==> o != n && outgoing == Some(o) && next == Some(n) && yield_decided(
            outgoing,
            next,
        ).dispatch == Some(n),
{
}

/// The scheduler and the CPU agree after a tick and after a yield. Whoever the scheduler picked it
/// is told to dispatch, and else whoever was running; if anyone was running, just that thread's
/// context is on the CPU.
pub proof fn scheduler_and_cpu_agree(outgoing: Option<ThreadId>, next: Option<ThreadId>, yields: bool)
    ensures
        ({
            let d = if yields {
                yield_decided(outgoing, next)
            } else {
                tick_decided(outgoing, next)
            };
            &&& next is Some ==> d.dispatch == next
            &&& next is None ==> d.dispatch == outgoing
            &&& outgoing is Some ==> d.dispatch == match d.step {
                PreemptStep::Switch { incoming, .. } => Some(incoming),
                PreemptStep::Continue => outgoing,
                PreemptStep::Idle => None,
            }
            &&& outgoing is Some && d.dispatch != outgoing ==> d.step == (PreemptStep::Switch {
                outgoing: outgoing->0,
                incoming: next->0,
            })
            &&& d.step is Idle <==> outgoing is None && next is None
        }),
{
}

/// A thread is made ready again just if a tick interrupts it and nobody was picked: one that is
/// replaced stays where the scheduler has it, and one that yields was never dropped.
pub proof fn only_an_unchallenged_thread_is_made_ready(
    outgoing: Option<ThreadId>,
    next: Option<ThreadId>,
)
    ensures
        tick_decided(outgoing, next).ready == if next is None {
            outgoing
        } else {
            None
        },
        yield_decided(outgoing, next).ready is None,
{
}

/// Two contexts are switched only if they are those of two different threads that are there, and
/// they are found under the numbers of these threads, the one that leaves first.
pub proof fn contexts_are_those_of_the_threads(
    tcbs: Seq<Option<Tcb>>,
    outgoing: ThreadId,
    incoming: ThreadId,
)
    requires
        tcbs.len() <= usize::MAX,
    ensures
        ({
            let there = |t: ThreadId| t.0 < tcbs.len() && tcbs[t.0 as int] is Some;
            let r = contexts_switched(tcbs, outgoing, incoming);
            &&& r is Some <==> outgoing.0 != incoming.0 && there(outgoing) && there(incoming)
            &&& r is Some ==> (r->0).0 == outgoing.0 && (r->0).1 == incoming.0
        }),
{
}

/// A terminated thread is charged just if it is the one that runs, and the CPU goes to whoever was
/// picked after it.
pub proof fn the_cpu_goes_on_after_a_termination(
    thread: ThreadId,
    running: Option<ThreadId>,
    next: Option<ThreadId>,
)
    ensures
        running is None ==> !charged_at_the_end(thread, running),
        running is Some ==> (charged_at_the_end(thread, running) <==> running->0 == thread),
        termination_over(next) is Idle <==> next is None,
        termination_over(next) matches TerminationOutcome::Switched { incoming } ==> next == Some(
            incoming,
        ),
{
}

/// As long as anything runs or is ready, a tick leaves a thread on the CPU.
pub proof fn ticks_never_idle_a_busy_cpu(outgoing: Option<ThreadId>, next: Option<ThreadId>)
    requires
        outgoing is Some || next is Some,
    ensures
        tick_decided(outgoing, next).dispatch is Some,
        !(tick_decided(outgoing, next).step is Idle),
        yield_decided(outgoing, next).dispatch is Some,
        !(yield_decided(outgoing, next).step is Idle),
{
}

/// A terminated thread takes no other with it, and is marked with the reason: the one given, or
/// the one that was recorded before, which nothing replaces.
pub proof fn termination_is_isolated(
    tcbs: Seq<Option<Tcb>>,
    thread: ThreadId,
    exit: ThreadExit,
    other: ThreadId,
)
    ensures
        other != thread ==> slot(exited(tcbs, thread, exit), other.0) == slot(tcbs, other.0),
        slot(tcbs, thread.0) is Some ==> {
            let t = slot(exited(tcbs, thread, exit), thread.0);
            let before = slot(tcbs, thread.0)->0.exit;
            &&& t is Some && t->0.state is Exited
            &&& before is None ==> t->0.exit == Some(exit)
            &&& before is Some ==> t->0.exit == before
        },
{
}

} // verus!
