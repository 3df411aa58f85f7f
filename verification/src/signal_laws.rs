//! What notifications are for: bits that are signalled reach whoever waits or asks next, and an
//! interrupt reaches the notification that its line was bound to.

use crate::call_laws::{
    answered, asks, empowers, ends, held, lives, only_state_differs, thread_at,
};
use crate::capability::KernelObjectKind;
use crate::config::NOTIF_WAITERS;
use crate::dispatch::dispatched;
use crate::ids::{CapId, NotificationId, ThreadId};
use crate::notify::{all_woken, irq_reached, irq_taken, woken_threads};
use crate::objects::{NotificationError, SchedError};
use crate::rights::{READ_BIT, WRITE_BIT};
use crate::state::{
    binding_one_irq_changes_no_other, binds, irqs_bound_once, lemma_bound_somewhere,
    lemma_first_free, KernelView,
};
use crate::syscall::{
    Reply, Request, Step, SyscallError, SyscallOp, SyscallReturn, Woken,
};
use crate::tcb::{Tcb, ThreadState};
use vstd::prelude::*;

verus! {

/// `thread` is one of those that a signal woke.
pub open spec fn is_woken(woken: Woken, thread: ThreadId) -> bool {
    exists|i: int|
        0 <= i < woken.len && i < NOTIF_WAITERS && #[trigger] woken.threads@[i] == thread
}

/// Of the threads, exactly those that were woken and waited on a notification have become
/// runnable. Nothing else has changed, neither in them nor elsewhere.
pub open spec fn exactly_the_woken_run(before: KernelView, after: KernelView, woken: Woken) -> bool {
    &&& after == (KernelView { tcbs: after.tcbs, ..before })
    &&& after.tcbs.len() == before.tcbs.len()
    &&& forall|t: ThreadId|
        (#[trigger] thread_at(after, t)) == if thread_at(before, t) is Some && thread_at(
            before,
            t,
        )->0.state is BlockedOnNotification && is_woken(woken, t) {
            Some(Tcb { state: ThreadState::Runnable, ..thread_at(before, t)->0 })
        } else {
            thread_at(before, t)
        }
}

/// A signal sets its bits in the notification named. If nobody waits they stay there: the call is
/// over, and nothing was taken out.
pub proof fn a_signal_without_waiters_leaves_its_bits(
    k: KernelView,
    caller: ThreadId,
    cap: CapId,
    id: u32,
    bits: u64,
    woken: Woken,
)
    requires
        empowers(k, caller, cap, KernelObjectKind::Notification, id, WRITE_BIT),
        id < k.notifications.len() && k.notifications[id as int] is Some,
        woken.len == 0,
    ensures
        ({
            let call = dispatched(k, caller, SyscallOp::Signal { notification: cap, bits });
            &&& call.0 == k
            &&& asks(call, Request::SignalBits { notification: NotificationId(id), bits })
            &&& answered(call, Reply::Woke(woken)) == (
                k,
                Step::Finished(Ok(SyscallReturn::Done)),
            )
        }),
{
}

/// A signal that woke threads takes the bits out of the notification for them, makes exactly them
/// runnable and ready, and hands the bits to a thread that was alone in waiting.
pub proof fn a_signal_wakes_its_waiters(
    k: KernelView,
    caller: ThreadId,
    cap: CapId,
    id: u32,
    bits: u64,
    woken: Woken,
    value: u64,
)
    requires
        k.tcbs.len() <= u32::MAX,
        empowers(k, caller, cap, KernelObjectKind::Notification, id, WRITE_BIT),
        id < k.notifications.len() && k.notifications[id as int] is Some,
        woken.len > 0,
    ensures
        ({
            let call = dispatched(k, caller, SyscallOp::Signal { notification: cap, bits });
            let taking = answered(call, Reply::Woke(woken));
            let waking = answered(taking, Reply::Bits(value));
            let over = answered(waking, Reply::Done);
            &&& taking.0 == k
            &&& asks(taking, Request::TakeBits { notification: NotificationId(id) })
            &&& exactly_the_woken_run(k, waking.0, woken)
            &&& asks(waking, Request::WakeAll { woken })
            &&& over.0 == waking.0
            &&& woken.len == 1 ==> ends(
                over,
                Ok(SyscallReturn::DeliveredValue { woke: woken.threads@[0], value }),
            )
            &&& woken.len > 1 ==> ends(over, Ok(SyscallReturn::Done))
        }),
{
    waking_makes_exactly_the_waiters_run(k, woken);
}

/// Waking threads, after a signal or an interrupt, makes exactly those runnable that were woken
/// and waited.
pub proof fn waking_makes_exactly_the_waiters_run(k: KernelView, woken: Woken)
    requires
        k.tcbs.len() <= u32::MAX,
    ensures
        exactly_the_woken_run(
            k,
            KernelView { tcbs: all_woken(k.tcbs, woken_threads(woken)), ..k },
            woken,
        ),
{
    let after = KernelView { tcbs: all_woken(k.tcbs, woken_threads(woken)), ..k };
    let threads = woken_threads(woken);
    assert forall|t: ThreadId| (#[trigger] thread_at(after, t)) == if thread_at(k, t) is Some
        && thread_at(k, t)->0.state is BlockedOnNotification && is_woken(woken, t) {
        Some(Tcb { state: ThreadState::Runnable, ..thread_at(k, t)->0 })
    } else {
        thread_at(k, t)
    } by {
        if t.0 < k.tcbs.len() {
            assert(ThreadId(t.0 as int as u32) == t);
            if threads.contains(t) {
                let i = choose|i: int| 0 <= i < threads.len() && threads[i] == t;
                assert(woken.threads@[i] == t);
            }
            if is_woken(woken, t) {
                let i = choose|i: int|
                    0 <= i < woken.len && i < NOTIF_WAITERS && #[trigger] woken.threads@[i] == t;
                assert(threads[i] == t);
            }
        }
    }
}

/// A poll takes the bits out of the notification named and hands its caller all of them, be they
/// none.
pub proof fn a_poll_yields_what_it_takes(
    k: KernelView,
    caller: ThreadId,
    cap: CapId,
    id: u32,
    bits: u64,
)
    requires
        empowers(k, caller, cap, KernelObjectKind::Notification, id, READ_BIT),
        id < k.notifications.len() && k.notifications[id as int] is Some,
    ensures
        ({
            let call = dispatched(k, caller, SyscallOp::Poll { notification: cap });
            &&& call.0 == k
            &&& asks(call, Request::TakeBits { notification: NotificationId(id) })
            &&& answered(call, Reply::Bits(bits)) == (
                k,
                Step::Finished(Ok(SyscallReturn::Value(bits))),
            )
        }),
{
}

/// A wait takes the bits out of the notification named, and if there are any hands its caller all
/// of them at once.
pub proof fn a_wait_yields_what_is_there(
    k: KernelView,
    caller: ThreadId,
    cap: CapId,
    id: u32,
    bits: u64,
)
    requires
        empowers(k, caller, cap, KernelObjectKind::Notification, id, READ_BIT),
        id < k.notifications.len() && k.notifications[id as int] is Some,
        bits != 0,
    ensures
        ({
            let call = dispatched(k, caller, SyscallOp::Wait { notification: cap });
            &&& call.0 == k
            &&& asks(call, Request::TakeBits { notification: NotificationId(id) })
            &&& answered(call, Reply::Bits(bits)) == (
                k,
                Step::Finished(Ok(SyscallReturn::Value(bits))),
            )
        }),
{
}

/// A wait that finds no bits puts its caller on the waiters of the notification named and blocks
/// it there. A notification without room for another waiter says so, and nothing changes.
pub proof fn a_wait_without_bits_blocks(
    k: KernelView,
    caller: ThreadId,
    cap: CapId,
    id: u32,
    e: NotificationError,
    scheduled: Result<(), SchedError>,
)
    requires
        empowers(k, caller, cap, KernelObjectKind::Notification, id, READ_BIT),
        id < k.notifications.len() && k.notifications[id as int] is Some,
        lives(k, caller),
    ensures
        ({
            let call = dispatched(k, caller, SyscallOp::Wait { notification: cap });
            let joining = answered(call, Reply::Bits(0));
            let waiting = answered(joining, Reply::Waiting(Ok(())));
            let over = answered(waiting, Reply::Scheduled(scheduled));
            &&& joining.0 == k
            &&& asks(
                joining,
                Request::AddWaiter { notification: NotificationId(id), thread: caller },
            )
            &&& answered(joining, Reply::Waiting(Err(e))) == (
                k,
                Step::Finished(Err(SyscallError::Notify(e))),
            )
            &&& only_state_differs(k, waiting.0, caller, ThreadState::BlockedOnNotification)
            &&& asks(waiting, Request::Block { thread: caller })
            &&& over.0 == waiting.0
            &&& ends(over, Ok(SyscallReturn::Blocked))
        }),
{
}

/// Bits that are signalled while nobody waits reach whoever polls or waits next, together with
/// those that were there: if the notification held `word` before, a poll and a wait both yield
/// `word` and the new bits.
pub proof fn signalled_bits_are_not_lost(
    k: KernelView,
    signaller: ThreadId,
    to_signal: CapId,
    bits: u64,
    woken: Woken,
    later: KernelView,
    reader: ThreadId,
    to_read: CapId,
    id: u32,
    word: u64,
)
    requires
        empowers(k, signaller, to_signal, KernelObjectKind::Notification, id, WRITE_BIT),
        id < k.notifications.len() && k.notifications[id as int] is Some,
        empowers(later, reader, to_read, KernelObjectKind::Notification, id, READ_BIT),
        id < later.notifications.len() && later.notifications[id as int] is Some,
        woken.len == 0,
        bits != 0,
    ensures
        ({
            let signal = dispatched(
                k,
                signaller,
                SyscallOp::Signal { notification: to_signal, bits },
            );
            let word_after = word | signal.1->Ask_0->SignalBits_bits;
            let poll = dispatched(later, reader, SyscallOp::Poll { notification: to_read });
            let wait = dispatched(later, reader, SyscallOp::Wait { notification: to_read });
            &&& answered(signal, Reply::Woke(woken)).1 is Finished
            &&& signal.1->Ask_0->SignalBits_notification
                == poll.1->Ask_0->TakeBits_notification
            &&& poll.1->Ask_0 == wait.1->Ask_0
            &&& ends(
                answered(poll, Reply::Bits(word_after)),
                Ok(SyscallReturn::Value(word | bits)),
            )
            &&& ends(
                answered(wait, Reply::Bits(word_after)),
                Ok(SyscallReturn::Value(word | bits)),
            )
        }),
{
    assert(word | bits != 0) by (bit_vector)
        requires
            bits != 0,
    ;
}

/// Whoever holds a device window may bind its line, and no other: afterwards an interrupt on that
/// line reaches the notification named, if there is one, and every other line reaches what it
/// reached before. The handler is installed for that line.
pub proof fn a_bound_line_reaches_its_notification(
    k: KernelView,
    caller: ThreadId,
    mmio: CapId,
    window: u32,
    notification: CapId,
    id: u32,
    other: u32,
)
    requires
        empowers(k, caller, mmio, KernelObjectKind::MmioRegion, window, WRITE_BIT),
        window < k.mmio_regions.len() && k.mmio_regions[window as int] is Some,
        empowers(k, caller, notification, KernelObjectKind::Notification, id, WRITE_BIT),
        id < k.notifications.len() && k.notifications[id as int] is Some,
        exists|i: int|
            0 <= i < k.irq_bindings.len() && {
                ||| (#[trigger] k.irq_bindings[i]) is None
                ||| (k.irq_bindings[i]->0).0 == k.mmio_regions[window as int]->0.irq
            },
        irqs_bound_once(k.irq_bindings),
    ensures
        ({
            let irq = k.mmio_regions[window as int]->0.irq;
            let call = dispatched(k, caller, SyscallOp::IrqBind { mmio, notification });
            &&& call.0 == (KernelView { irq_bindings: call.0.irq_bindings, ..k })
            &&& irq_reached(call.0, irq) == Some(NotificationId(id))
            &&& other != irq ==> irq_reached(call.0, other) == irq_reached(k, other)
            &&& asks(call, Request::InstallIrq { irq })
            &&& answered(call, Reply::IrqInstalled(true)) == (
                call.0,
                Step::Finished(Ok(SyscallReturn::Done)),
            )
            &&& answered(call, Reply::IrqInstalled(false)) == (
                call.0,
                Step::Finished(Err(SyscallError::IrqRegistrationFailed)),
            )
        }),
{
    let irq = k.mmio_regions[window as int]->0.irq;
    lemma_bound_somewhere(k.irq_bindings, irq);
    lemma_first_free(k.irq_bindings, 0);
    let i = choose|i: int|
        0 <= i < k.irq_bindings.len() && {
            ||| (#[trigger] k.irq_bindings[i]) is None
            ||| (k.irq_bindings[i]->0).0 == irq
        };
    assert(k.irq_bindings[i] is None || binds(k.irq_bindings[i], irq));
    binding_one_irq_changes_no_other(
        k.irq_bindings,
        irq,
        NotificationId(id),
        other,
    );
}

/// An interrupt on a line that is bound reaches the notification of the binding, if that is
/// there, and one on any other line reaches nothing.
pub proof fn interrupts_follow_the_bindings(k: KernelView, irq: u32, i: int)
    requires
        irqs_bound_once(k.irq_bindings),
    ensures
        0 <= i < k.irq_bindings.len() && k.irq_bindings[i] is Some && (k.irq_bindings[i]->0).0
            == irq ==> irq_reached(k, irq) == {
            let n = (k.irq_bindings[i]->0).1;
            if n.0 < k.notifications.len() && k.notifications[n.0 as int] is Some {
                Some(n)
            } else {
                None
            }
        },
        (forall|j: int|
            0 <= j < k.irq_bindings.len() && (#[trigger] k.irq_bindings[j]) is Some ==> (
            k.irq_bindings[j]->0).0 != irq) ==> irq_reached(k, irq) is None,
{
    lemma_bound_somewhere(k.irq_bindings, irq);
    if 0 <= i < k.irq_bindings.len() && k.irq_bindings[i] is Some && (k.irq_bindings[i]->0).0
        == irq {
        assert(binds(k.irq_bindings[i], irq));
    }
}

/// A line can be bound only if there is room: a full table without a binding of the line refuses,
/// and so does a caller without `WRITE` on the notification. Nothing changes then.
pub proof fn a_line_is_not_bound_without_room_or_right(
    k: KernelView,
    caller: ThreadId,
    mmio: CapId,
    window: u32,
    notification: CapId,
)
    requires
        empowers(k, caller, mmio, KernelObjectKind::MmioRegion, window, WRITE_BIT),
        window < k.mmio_regions.len() && k.mmio_regions[window as int] is Some,
    ensures
        ({
            let irq = k.mmio_regions[window as int]->0.irq;
            let call = dispatched(k, caller, SyscallOp::IrqBind { mmio, notification });
            let found = held(k, caller, notification);
            &&& found is None ==> call.0 == k && ends(call, Err(SyscallError::BadCap))
            &&& found is Some && !(found->0.object.kind is Notification) ==> call.0 == k && ends(
                call,
                Err(SyscallError::WrongObjectKind),
            )
            &&& found is Some && found->0.object.kind is Notification && found->0.rights.bits
                & WRITE_BIT != WRITE_BIT ==> call.0 == k && ends(
                call,
                Err(SyscallError::InsufficientRights),
            )
            &&& found is Some && found->0.object.kind is Notification && found->0.rights.bits
                & WRITE_BIT == WRITE_BIT && (forall|i: int|
                0 <= i < k.irq_bindings.len() ==> (#[trigger] k.irq_bindings[i]) is Some && (
                k.irq_bindings[i]->0).0 != irq) ==> call.0 == k && ends(
                call,
                Err(SyscallError::ObjectTableFull),
            )
        }),
{
    let irq = k.mmio_regions[window as int]->0.irq;
    lemma_bound_somewhere(k.irq_bindings, irq);
    lemma_first_free(k.irq_bindings, 0);
}

/// An interrupt makes exactly those runnable that it woke and that waited, as a signal does.
pub proof fn an_interrupt_wakes_its_waiters(k: KernelView, woken: Woken)
    requires
        k.tcbs.len() <= u32::MAX,
    ensures
        exactly_the_woken_run(k, irq_taken(k, woken), woken),
{
    waking_makes_exactly_the_waiters_run(k, woken);
}

} // verus!
