//! Asynchronous signals: signalling, waiting, polling, and binding interrupt lines.

use crate::capability::KernelObjectKind;
use crate::config::NOTIF_WAITERS;
use crate::ids::{CapId, MmioRegionId, NotificationId, ThreadId};
use crate::ipc::{failed, with_state};
use crate::objects::NotificationError;
use crate::rights::{CapabilityRights, READ_BIT, WRITE_BIT};
use crate::state::{bound_irqs, notification_bound, slot, KernelState, KernelView};
use crate::syscall::{resolved, Pending, Request, Step, SyscallError, SyscallReturn, Woken};
use crate::tcb::{Tcb, ThreadState};
use vstd::prelude::*;

verus! {

/// The notification that `cap` of `caller` names, if it carries the rights needed.
pub open spec fn notification_named(
    k: KernelView,
    caller: ThreadId,
    cap: CapId,
    needed: CapabilityRights,
) -> Result<NotificationId, SyscallError> {
    match resolved(k, caller, cap, KernelObjectKind::Notification, needed) {
        Err(e) => Err(e),
        Ok(c) => if slot(k.notifications, c.object.id.0) is None {
            Err(SyscallError::BadCap)
        } else {
            Ok(NotificationId(c.object.id.0))
        },
    }
}

/// How a signal starts.
pub open spec fn signal_begun(k: KernelView, caller: ThreadId, cap: CapId, bits: u64) -> Step {
    match notification_named(k, caller, cap, CapabilityRights { bits: WRITE_BIT }) {
        Err(e) => failed(e),
        Ok(notification) => Step::Ask(
            Request::SignalBits { notification, bits },
            Pending::Signal { notification },
        ),
    }
}

/// The bits are set. They are taken out again only if there is a thread to hand them to right
/// now; otherwise they stay for whoever waits next.
pub open spec fn signalled(notification: NotificationId, woken: Woken) -> Step {
    if woken.len > 0 {
        Step::Ask(Request::TakeBits { notification }, Pending::SignalTake { woken })
    } else {
        Step::Finished(Ok(SyscallReturn::Done))
    }
}

/// The threads after one of those woken is made runnable again, if it waited.
pub open spec fn with_woken(tcbs: Seq<Option<Tcb>>, thread: ThreadId) -> Seq<Option<Tcb>> {
    match slot(tcbs, thread.0) {
        Some(t) => if t.state is BlockedOnNotification {
            tcbs.update(thread.0 as int, Some(Tcb { state: ThreadState::Runnable, ..t }))
        } else {
            tcbs
        },
        None => tcbs,
    }
}

/// The threads that a signal woke.
pub open spec fn woken_threads(woken: Woken) -> Seq<ThreadId> {
    woken.threads@.take(
        if woken.len <= NOTIF_WAITERS {
            woken.len as int
        } else {
            NOTIF_WAITERS as int
        },
    )
}

/// The threads after every one in `woken` that waited on a notification is runnable again. Any
/// other thread, one that has exited in particular, is left as it is.
pub open spec fn all_woken(tcbs: Seq<Option<Tcb>>, woken: Seq<ThreadId>) -> Seq<Option<Tcb>> {
    Seq::new(
        tcbs.len(),
        |i: int|
            match tcbs[i] {
                Some(t) => if t.state is BlockedOnNotification && woken.contains(ThreadId(i as u32)) {
                    Some(Tcb { state: ThreadState::Runnable, ..t })
                } else {
                    tcbs[i]
                },
                None => None,
            },
    )
}

/// The bits are taken, and the threads that waited for them are made runnable.
pub open spec fn signal_taken(k: KernelView, woken: Woken, value: u64) -> (KernelView, Step) {
    (
        KernelView { tcbs: all_woken(k.tcbs, woken_threads(woken)), ..k },
        Step::Ask(Request::WakeAll { woken }, Pending::SignalWake { woken, value }),
    )
}

/// How a signal that woke threads ends: a single one is handed the bits.
pub open spec fn signal_over(woken: Woken, value: u64) -> SyscallReturn {
    if woken.len == 1 {
        SyscallReturn::DeliveredValue { woke: woken.threads@[0], value }
    } else {
        SyscallReturn::Done
    }
}

/// How a wait starts.
pub open spec fn wait_begun(k: KernelView, caller: ThreadId, cap: CapId) -> Step {
    match notification_named(k, caller, cap, CapabilityRights { bits: READ_BIT }) {
        Err(e) => failed(e),
        Ok(notification) => Step::Ask(
            Request::TakeBits { notification },
            Pending::Wait { caller, notification },
        ),
    }
}

/// Bits that are there end a wait at once; otherwise the thread joins the waiters.
pub open spec fn wait_polled(caller: ThreadId, notification: NotificationId, bits: u64) -> Step {
    if bits != 0 {
        Step::Finished(Ok(SyscallReturn::Value(bits)))
    } else {
        Step::Ask(
            Request::AddWaiter { notification, thread: caller },
            Pending::WaitAdd { caller },
        )
    }
}

/// A thread that joined the waiters is blocked.
pub open spec fn wait_added(
    k: KernelView,
    caller: ThreadId,
    added: Result<(), NotificationError>,
) -> (KernelView, Step) {
    match added {
        Err(e) => (k, failed(SyscallError::Notify(e))),
        Ok(_) => (
            KernelView {
                tcbs: with_state(k.tcbs, caller, ThreadState::BlockedOnNotification),
                ..k
            },
            Step::Ask(Request::Block { thread: caller }, Pending::WaitBlock),
        ),
    }
}

/// How a poll starts.
pub open spec fn poll_begun(k: KernelView, caller: ThreadId, cap: CapId) -> Step {
    match notification_named(k, caller, cap, CapabilityRights { bits: READ_BIT }) {
        Err(e) => failed(e),
        Ok(notification) => Step::Ask(Request::TakeBits { notification }, Pending::Poll),
    }
}

/// How the binding of an interrupt line starts: holding the device window is what allows its
/// line, and no other, to be bound.
pub open spec fn irq_bind_begun(k: KernelView, caller: ThreadId, mmio: CapId, notification: CapId) -> (
    KernelView,
    Step,
) {
    let write = CapabilityRights { bits: WRITE_BIT };
    match resolved(k, caller, mmio, KernelObjectKind::MmioRegion, write) {
        Err(e) => (k, failed(e)),
        Ok(window) => match slot(k.mmio_regions, window.object.id.0) {
            None => (k, failed(SyscallError::BadCap)),
            Some(region) => match resolved(
                k,
                caller,
                notification,
                KernelObjectKind::Notification,
                write,
            ) {
                Err(e) => (k, failed(e)),
                Ok(c) => match bound_irqs(
                    k.irq_bindings,
                    region.irq,
                    NotificationId(c.object.id.0),
                ) {
                    None => (k, failed(SyscallError::ObjectTableFull)),
                    Some(irq_bindings) => (
                        KernelView { irq_bindings, ..k },
                        Step::Ask(
                            Request::InstallIrq { irq: region.irq },
                            Pending::IrqInstall,
                        ),
                    ),
                },
            },
        },
    }
}

/// The kernel state after an interrupt woke threads.
pub open spec fn irq_taken(k: KernelView, woken: Woken) -> KernelView {
    KernelView { tcbs: all_woken(k.tcbs, woken_threads(woken)), ..k }
}

/// The notification that an interrupt on the line `irq` signals.
pub open spec fn irq_reached(k: KernelView, irq: u32) -> Option<NotificationId> {
    match notification_bound(k.irq_bindings, irq) {
        Some(n) => if slot(k.notifications, n.0) is Some {
            Some(n)
        } else {
            None
        },
        None => None,
    }
}

/// Waking one thread more.
proof fn lemma_one_more_woken(tcbs: Seq<Option<Tcb>>, woken: Seq<ThreadId>, thread: ThreadId)
    requires
        tcbs.len() <= u32::MAX,
    ensures
        with_woken(all_woken(tcbs, woken), thread) == all_woken(tcbs, woken.push(thread)),
{
    let more = woken.push(thread);
    assert(more[woken.len() as int] == thread);
    assert forall|t: ThreadId| #[trigger] more.contains(t) <==> woken.contains(t) || t == thread by {
        if woken.contains(t) {
            let j = woken.index_of(t);
            assert(more[j] == t);
        }
        if more.contains(t) && t != thread {
            let j = more.index_of(t);
            assert(woken[j] == t);
        }
    }
    assert(with_woken(all_woken(tcbs, woken), thread) =~= all_woken(tcbs, more));
}

/// A living thread that waits is blocked on a notification until a signal wakes it, and is
/// runnable from then on; threads that the signal does not wake are left as they are.
pub proof fn waiting_lasts_until_the_signal(
    k: KernelView,
    waiter: ThreadId,
    other: ThreadId,
    woken: Woken,
    value: u64,
)
    requires
        k.wf(),
        slot(k.tcbs, waiter.0) is Some,
        !(slot(k.tcbs, waiter.0)->0.state is Exited),
        woken_threads(woken).contains(waiter),
        !woken_threads(woken).contains(other),
    ensures
        ({
            let waiting = wait_added(k, waiter, Ok(())).0;
            let after = signal_taken(waiting, woken, value).0;
            &&& slot(waiting.tcbs, waiter.0)->0.state is BlockedOnNotification
            &&& slot(after.tcbs, waiter.0) == Some(
                Tcb { state: ThreadState::Runnable, ..slot(k.tcbs, waiter.0)->0 },
            )
            &&& slot(after.tcbs, other.0) == slot(k.tcbs, other.0)
        }),
{
}

impl<const MMIO: usize> KernelState<MMIO> {
    /// Resolves a notification capability of `caller`.
    fn resolve_notification(&self, caller: ThreadId, cap: CapId, needed: CapabilityRights) -> (r:
        Result<NotificationId, SyscallError>)
        requires
            self.wf(),
        ensures
            r == notification_named(self@, caller, cap, needed),
    {
        let id = match self.resolve(caller, cap, KernelObjectKind::Notification, needed) {
            Ok(c) => NotificationId::new(c.object.id.as_u32()),
            Err(e) => {
                return Err(e);
            },
        };
        if self.notification(id).is_none() {
            return Err(SyscallError::BadCap);
        }
        Ok(id)
    }

    /// The notification that an interrupt on the line `irq` signals.
    pub fn irq_target(&self, irq: u32) -> (r: Option<NotificationId>)
        requires
            self.wf(),
        ensures
            r == irq_reached(self@, irq),
    {
        match self.notification_for_irq(irq) {
            Some(n) => {
                if self.notification(n).is_some() {
                    Some(n)
                } else {
                    None
                }
            },
            None => None,
        }
    }

    /// Starts a signal.
    pub fn do_signal(&self, caller: ThreadId, notification: CapId, bits: u64) -> (r: Step)
        requires
            self.wf(),
        ensures
            r == signal_begun(self@, caller, notification, bits),
    {
        match self.resolve_notification(caller, notification, CapabilityRights::write()) {
            Ok(notification) => Step::Ask(
                Request::SignalBits { notification, bits },
                Pending::Signal { notification },
            ),
            Err(e) => Step::Finished(Err(e)),
        }
    }

    /// Starts a wait.
    pub fn do_wait(&self, caller: ThreadId, notification: CapId) -> (r: Step)
        requires
            self.wf(),
        ensures
            r == wait_begun(self@, caller, notification),
    {
        match self.resolve_notification(caller, notification, CapabilityRights::read()) {
            Ok(notification) => Step::Ask(
                Request::TakeBits { notification },
                Pending::Wait { caller, notification },
            ),
            Err(e) => Step::Finished(Err(e)),
        }
    }

    /// Starts a poll.
    pub fn do_poll(&self, caller: ThreadId, notification: CapId) -> (r: Step)
        requires
            self.wf(),
        ensures
            r == poll_begun(self@, caller, notification),
    {
        match self.resolve_notification(caller, notification, CapabilityRights::read()) {
            Ok(notification) => Step::Ask(Request::TakeBits { notification }, Pending::Poll),
            Err(e) => Step::Finished(Err(e)),
        }
    }

    /// Makes a thread that was woken runnable again, if it waited on a notification.
    pub fn wake_blocked(&mut self, thread: ThreadId)
        requires
            old(self).wf(),
        ensures
            final(self).wf(),
            final(self)@ == (KernelView {
                tcbs: with_woken(old(self)@.tcbs, thread),
                ..old(self)@
            }),
    {
        if let Some(t) = self.tcb(thread) {
            if matches!(t.state, ThreadState::BlockedOnNotification) {
                self.set_thread_state(thread, ThreadState::Runnable);
            }
        }
    }

    /// Makes every thread that was woken runnable again, if it waited on a notification.
    fn wake_all(&mut self, woken: Woken)
        requires
            old(self).wf(),
        ensures
            final(self).wf(),
            final(self)@ == (KernelView {
                tcbs: all_woken(old(self)@.tcbs, woken_threads(woken)),
                ..old(self)@
            }),
    {
        let count: usize = if woken.len <= NOTIF_WAITERS {
            woken.len
        } else {
            NOTIF_WAITERS
        };
        let ghost tcbs = self@.tcbs;
        let mut i: usize = 0;
        proof {
            self.lemma_view_wf();
            assert(all_woken(tcbs, woken.threads@.take(0)) =~= tcbs);
        }
        while i < count
            invariant
                i <= count <= NOTIF_WAITERS,
                old(self).wf(),
                tcbs == old(self)@.tcbs,
                tcbs.len() <= u32::MAX,
                self.wf(),
                self@ == (KernelView {
                    tcbs: all_woken(tcbs, woken.threads@.take(i as int)),
                    ..old(self)@
                }),
            decreases count - i,
        {
            self.wake_blocked(woken.threads[i]);
            proof {
                lemma_one_more_woken(tcbs, woken.threads@.take(i as int), woken.threads@[i as int]);
                assert(woken.threads@.take(i + 1) =~= woken.threads@.take(i as int).push(
                    woken.threads@[i as int],
                ));
            }
            i = i + 1;
        }
    }

    /// Makes the threads that an interrupt woke runnable again. Its bits stay in the notification
    /// for the waits that they repeat; the scheduler is to make the threads ready.
    pub fn irq_signalled(&mut self, woken: Woken)
        requires
            old(self).wf(),
        ensures
            final(self).wf(),
            final(self)@ == irq_taken(old(self)@, woken),
    {
        self.wake_all(woken);
    }

    /// Goes on with a signal once the bits were taken for the threads that it woke.
    pub fn after_signal_take(&mut self, woken: Woken, value: u64) -> (r: Step)
        requires
            old(self).wf(),
        ensures
            final(self).wf(),
            (final(self)@, r) == signal_taken(old(self)@, woken, value),
    {
        self.wake_all(woken);
        Step::Ask(Request::WakeAll { woken }, Pending::SignalWake { woken, value })
    }

    /// Goes on with a wait once the thread has, or has not, joined the waiters.
    pub fn after_wait_add(&mut self, caller: ThreadId, added: Result<(), NotificationError>) -> (r:
        Step)
        requires
            old(self).wf(),
        ensures
            final(self).wf(),
            (final(self)@, r) == wait_added(old(self)@, caller, added),
    {
        match added {
            Err(e) => Step::Finished(Err(SyscallError::from(e))),
            Ok(_) => {
                self.set_thread_state(caller, ThreadState::BlockedOnNotification);
                Step::Ask(Request::Block { thread: caller }, Pending::WaitBlock)
            },
        }
    }

    /// Starts the binding of a device's interrupt line to a notification.
    pub fn do_irq_bind(&mut self, caller: ThreadId, mmio: CapId, notification: CapId) -> (r: Step)
        requires
            old(self).wf(),
        ensures
            final(self).wf(),
            (final(self)@, r) == irq_bind_begun(old(self)@, caller, mmio, notification),
    {
        let window = match self.resolve(
            caller,
            mmio,
            KernelObjectKind::MmioRegion,
            CapabilityRights::write(),
        ) {
            Ok(c) => MmioRegionId::new(c.object.id.as_u32()),
            Err(e) => {
                return Step::Finished(Err(e));
            },
        };
        let irq: u32 = match self.mmio_region(window) {
            Some(region) => region.irq,
            None => {
                return Step::Finished(Err(SyscallError::BadCap));
            },
        };
        let id = match self.resolve(
            caller,
            notification,
            KernelObjectKind::Notification,
            CapabilityRights::write(),
        ) {
            Ok(c) => NotificationId::new(c.object.id.as_u32()),
            Err(e) => {
                return Step::Finished(Err(e));
            },
        };
        if !self.bind_irq(irq, id) {
            return Step::Finished(Err(SyscallError::ObjectTableFull));
        }
        Step::Ask(Request::InstallIrq { irq }, Pending::IrqInstall)
    }
}

/// Goes on with a signal once the bits are set.
pub fn after_signal(notification: NotificationId, woken: Woken) -> (r: Step)
    ensures
        r == signalled(notification, woken),
{
    if woken.len > 0 {
        Step::Ask(Request::TakeBits { notification }, Pending::SignalTake { woken })
    } else {
        Step::Finished(Ok(SyscallReturn::Done))
    }
}

/// Ends a signal once the threads it woke are ready.
pub fn after_wake(woken: Woken, value: u64) -> (r: SyscallReturn)
    ensures
        r == signal_over(woken, value),
{
    if woken.len == 1 {
        SyscallReturn::DeliveredValue { woke: woken.threads[0], value }
    } else {
        SyscallReturn::Done
    }
}

/// Goes on with a wait once the bits were taken.
pub fn after_wait_poll(caller: ThreadId, notification: NotificationId, bits: u64) -> (r: Step)
    ensures
        r == wait_polled(caller, notification, bits),
{
    if bits != 0 {
        Step::Finished(Ok(SyscallReturn::Value(bits)))
    } else {
        Step::Ask(
            Request::AddWaiter { notification, thread: caller },
            Pending::WaitAdd { caller },
        )
    }
}

} // verus!
