//! Handing the CPU over after an IPC system call: which contexts are switched, and what the
//! thread that is switched to finds in its registers.

use crate::ids::{CapId, ThreadId};
use crate::message::{MessageView, SmallMessage};
use crate::state::{slot, KernelState, KernelView};
use crate::syscall::{SyscallError, SyscallOp, SyscallReturn};
use crate::tcb::Tcb;
use vstd::prelude::*;

verus! {

/// A switch between two saved contexts.
#[derive(Debug, Clone, Copy, PartialEq, Eq)]
pub struct IpcSwitch {
    /// The thread whose context is saved.
    pub save: ThreadId,
    /// The thread whose context is resumed.
    pub into: ThreadId,
    /// What to put in the first two registers of the resumed context. Such a thread wakes to
    /// a delivery, so that what it last trapped with no longer counts.
    pub poke: Option<(usize, usize)>,
}

/// What a receive came to.
#[derive(Debug, Clone, Copy, PartialEq, Eq)]
pub enum IpcRecvOutcome {
    /// The receiver goes on with a message.
    Immediate {
        /// The sender.
        from: usize,
        /// The label of the message.
        label: usize,
    },
    /// The receiver blocks.
    Switch(IpcSwitch),
}

/// What waiting for an interrupt came to.
#[derive(Debug, Clone, Copy, PartialEq, Eq)]
pub enum IrqWaitOutcome {
    /// These signal bits were there.
    Ready(u64),
    /// The caller is blocked and idles until the interrupt comes.
    Blocked,
    /// The wait was refused.
    Error,
}

/// What follows an IPC call.
#[derive(Debug, Clone, Copy, PartialEq, Eq)]
pub struct Handover {
    /// The thread that the scheduler is to put on the CPU, before the contexts are switched.
    pub run: Option<ThreadId>,
    /// The contexts to switch.
    pub switch: Option<IpcSwitch>,
}

/// What follows a receive.
#[derive(Debug, Clone, Copy, PartialEq, Eq)]
pub struct RecvHandover {
    /// The thread that the scheduler is to put on the CPU, before the contexts are switched.
    pub run: Option<ThreadId>,
    /// What the receive came to.
    pub outcome: Option<IpcRecvOutcome>,
}

/// The result of a system call.
pub type Returned = Result<SyscallReturn, SyscallError>;

/// The thread that a blocked caller gives way to.
pub open spec fn next_after(returned: Returned) -> Option<ThreadId> {
    match returned {
        Ok(SyscallReturn::Reschedule { next }) => next,
        _ => None,
    }
}

/// Two contexts can be switched: they are those of two different threads that exist.
pub open spec fn switchable(k: KernelView, save: ThreadId, into: ThreadId) -> bool {
    save != into && slot(k.tcbs, save.0) is Some && slot(k.tcbs, into.0) is Some
}

/// What a thread that was delivered a call finds in its registers: the caller and the label.
pub open spec fn call_registers(t: Tcb) -> Option<(usize, usize)> {
    match (t.pending_from, t.pending_msg) {
        (Some(from), Some(msg)) => Some((from.0 as usize, msg.label as usize)),
        _ => None,
    }
}

/// The control block of a thread once it was handed what was delivered to it. A delivery
/// without a known sender stays.
pub open spec fn delivery_taken(t: Tcb) -> Tcb {
    if t.pending_from is Some {
        Tcb { pending_from: None, pending_msg: None, ..t }
    } else {
        t
    }
}

/// What a thread that was given a reply finds in its registers: the label.
pub open spec fn reply_registers(t: Tcb) -> Option<(usize, usize)> {
    match t.pending_msg {
        Some(msg) => Some((msg.label as usize, 0usize)),
        None => None,
    }
}

/// The kernel state with the control block of `thread` replaced.
pub open spec fn with_tcb(k: KernelView, thread: ThreadId, t: Tcb) -> KernelView {
    KernelView { tcbs: k.tcbs.update(thread.0 as int, Some(t)), ..k }
}

/// What follows a call whose caller gives way to `into`. The delivery is handed over if there
/// is one for `into`.
pub open spec fn call_handed_over(
    k: KernelView,
    caller: ThreadId,
    into: ThreadId,
    delivered: bool,
) -> (KernelView, Handover) {
    if !switchable(k, caller, into) {
        (k, Handover { run: Some(into), switch: None })
    } else if !delivered {
        (
            k,
            Handover {
                run: Some(into),
                switch: Some(IpcSwitch { save: caller, into, poke: None }),
            },
        )
    } else {
        let t = slot(k.tcbs, into.0)->0;
        (
            with_tcb(k, into, delivery_taken(t)),
            Handover {
                run: Some(into),
                switch: Some(IpcSwitch { save: caller, into, poke: call_registers(t) }),
            },
        )
    }
}

/// What follows a call.
pub open spec fn call_over(k: KernelView, caller: ThreadId, returned: Returned) -> (
    KernelView,
    Handover,
) {
    match next_after(returned) {
        Some(n) => call_handed_over(k, caller, n, true),
        None => (k, Handover { run: None, switch: None }),
    }
}

/// What follows a call to the service that `target` runs.
pub open spec fn directed_call_over(
    k: KernelView,
    caller: ThreadId,
    target: Option<ThreadId>,
    returned: Returned,
) -> (KernelView, Handover) {
    match (target, next_after(returned)) {
        (Some(target), Some(n)) => call_handed_over(k, caller, target, n == target),
        _ => (k, Handover { run: None, switch: None }),
    }
}

/// What follows a reply.
pub open spec fn reply_over(k: KernelView, caller: ThreadId, returned: Returned) -> (
    KernelView,
    Handover,
) {
    match next_after(returned) {
        Some(n) => if !switchable(k, caller, n) {
            (k, Handover { run: Some(n), switch: None })
        } else {
            let t = slot(k.tcbs, n.0)->0;
            (
                with_tcb(k, n, Tcb { pending_msg: None, ..t }),
                Handover {
                    run: Some(n),
                    switch: Some(IpcSwitch { save: caller, into: n, poke: reply_registers(t) }),
                },
            )
        },
        None => (k, Handover { run: None, switch: None }),
    }
}

/// What follows a receive.
pub open spec fn recv_over(k: KernelView, caller: ThreadId, returned: Returned) -> RecvHandover {
    match returned {
        Ok(SyscallReturn::Message { from, msg }) => RecvHandover {
            run: None,
            outcome: Some(
                IpcRecvOutcome::Immediate { from: from.0 as usize, label: msg.label as usize },
            ),
        },
        Ok(SyscallReturn::Reschedule { next: Some(_) }) => {
            let root = k.root.thread;
            RecvHandover {
                run: Some(root),
                outcome: if switchable(k, caller, root) {
                    Some(
                        IpcRecvOutcome::Switch(IpcSwitch { save: caller, into: root, poke: None }),
                    )
                } else {
                    None
                },
            }
        },
        _ => RecvHandover { run: None, outcome: None },
    }
}

/// What follows a wait for an interrupt.
pub open spec fn irq_wait_over(caller: ThreadId, returned: Returned) -> (
    Option<ThreadId>,
    IrqWaitOutcome,
) {
    match returned {
        Ok(SyscallReturn::Value(bits)) => (Some(caller), IrqWaitOutcome::Ready(bits)),
        Ok(SyscallReturn::Blocked) => (None, IrqWaitOutcome::Blocked),
        _ => (None::<ThreadId>, IrqWaitOutcome::Error),
    }
}

/// The system call is a call at an endpoint with a label alone.
pub open spec fn calls_with_label(op: SyscallOp, endpoint_raw: u32, label: u64) -> bool {
    op matches SyscallOp::Call { endpoint, msg } && endpoint == CapId(endpoint_raw) && msg@ == (
    MessageView { label, words: seq![] })
}

/// The system call is a reply to a thread with a label alone.
pub open spec fn replies_with_label(op: SyscallOp, to_raw: u32, label: u64) -> bool {
    op matches SyscallOp::Reply { to, msg } && to == ThreadId(to_raw) && msg@ == (MessageView {
        label,
        words: seq![],
    })
}

/// The system call behind a call that carries a label alone.
pub fn labelled_call(endpoint_raw: u32, label: u64) -> (op: SyscallOp)
    ensures
        calls_with_label(op, endpoint_raw, label),
{
    SyscallOp::Call { endpoint: CapId::new(endpoint_raw), msg: SmallMessage::new(label) }
}

/// The system call behind a reply that carries a label alone.
pub fn labelled_reply(to_raw: u32, label: u64) -> (op: SyscallOp)
    ensures
        replies_with_label(op, to_raw, label),
{
    SyscallOp::Reply { to: ThreadId::new(to_raw), msg: SmallMessage::new(label) }
}

/// The thread that a blocked caller gives way to.
fn next_of(returned: Returned) -> (r: Option<ThreadId>)
    ensures
        r == next_after(returned),
{
    match returned {
        Ok(SyscallReturn::Reschedule { next }) => next,
        _ => None,
    }
}

/// Switches from `caller` to `into`, handing over what was delivered to `into`, if anything.
fn hand_over_call<const MMIO: usize>(
    k: &mut KernelState<MMIO>,
    caller: ThreadId,
    into: ThreadId,
    delivered: bool,
) -> (r: Handover)
    requires
        old(k).wf(),
    ensures
        final(k).wf(),
        (final(k)@, r) == call_handed_over(old(k)@, caller, into, delivered),
{
    if k.user_ctx_switch_ptrs(caller, into).is_none() {
        return Handover { run: Some(into), switch: None };
    }
    if !delivered {
        return Handover {
            run: Some(into),
            switch: Some(IpcSwitch { save: caller, into, poke: None }),
        };
    }
    let poke = match k.tcb_mut(into) {
        Some(t) => {
            match t.pending_from {
                Some(from) => {
                    let msg = t.pending_msg;
                    t.pending_from = None;
                    t.pending_msg = None;
                    match msg {
                        Some(m) => Some((from.as_u32() as usize, m.label as usize)),
                        None => None,
                    }
                },
                None => None,
            }
        },
        None => None,
    };
    Handover { run: Some(into), switch: Some(IpcSwitch { save: caller, into, poke }) }
}

/// What follows a `Call`. Its caller blocks for the reply, so it either gives way to the thread
/// that was picked or the call failed.
pub fn p2_ipc_call<const MMIO: usize>(
    k: &mut KernelState<MMIO>,
    caller: ThreadId,
    returned: Returned,
) -> (r: Handover)
    requires
        old(k).wf(),
    ensures
        final(k).wf(),
        (final(k)@, r) == call_over(old(k)@, caller, returned),
{
    match next_of(returned) {
        Some(n) => hand_over_call(k, caller, n, true),
        None => Handover { run: None, switch: None },
    }
}

/// What follows a `Call` to a service whose thread is known. The service runs next, whoever was
/// picked: if the message was only queued, nobody else would ever let the service receive it.
pub fn service_call<const MMIO: usize>(
    k: &mut KernelState<MMIO>,
    caller: ThreadId,
    target: Option<ThreadId>,
    returned: Returned,
) -> (r: Handover)
    requires
        old(k).wf(),
    ensures
        final(k).wf(),
        (final(k)@, r) == directed_call_over(old(k)@, caller, target, returned),
{
    match (target, next_of(returned)) {
        (Some(target), Some(n)) => hand_over_call(k, caller, target, n == target),
        _ => Handover { run: None, switch: None },
    }
}

/// What follows a `Recv`. A receiver that blocks gives way to the root task's thread.
pub fn p2_ipc_recv<const MMIO: usize>(
    k: &KernelState<MMIO>,
    caller: ThreadId,
    returned: Returned,
) -> (r: RecvHandover)
    requires
        k.wf(),
    ensures
        r == recv_over(k@, caller, returned),
{
    match returned {
        Ok(SyscallReturn::Message { from, msg }) => RecvHandover {
            run: None,
            outcome: Some(
                IpcRecvOutcome::Immediate {
                    from: from.as_u32() as usize,
                    label: msg.label as usize,
                },
            ),
        },
        Ok(SyscallReturn::Reschedule { next: Some(_) }) => {
            let root = k.root().thread;
            let outcome = match k.user_ctx_switch_ptrs(caller, root) {
                Some(_) => Some(
                    IpcRecvOutcome::Switch(IpcSwitch { save: caller, into: root, poke: None }),
                ),
                None => None,
            };
            RecvHandover { run: Some(root), outcome }
        },
        _ => RecvHandover { run: None, outcome: None },
    }
}

/// What follows a `Reply`. The replier gives way to the thread it answered.
pub fn p2_ipc_reply<const MMIO: usize>(
    k: &mut KernelState<MMIO>,
    caller: ThreadId,
    returned: Returned,
) -> (r: Handover)
    requires
        old(k).wf(),
    ensures
        final(k).wf(),
        (final(k)@, r) == reply_over(old(k)@, caller, returned),
{
    let n = match next_of(returned) {
        Some(n) => n,
        None => {
            return Handover { run: None, switch: None };
        },
    };
    if k.user_ctx_switch_ptrs(caller, n).is_none() {
        return Handover { run: Some(n), switch: None };
    }
    let poke = match k.tcb_mut(n) {
        Some(t) => {
            let msg = t.pending_msg;
            t.pending_msg = None;
            match msg {
                Some(m) => Some((m.label as usize, 0usize)),
                None => None,
            }
        },
        None => None,
    };
    Handover { run: Some(n), switch: Some(IpcSwitch { save: caller, into: n, poke }) }
}

/// What follows a `Wait` for an interrupt. A caller that has its bits is put back on the CPU:
/// the wake-up made it ready and no more. Returns that caller and the outcome.
pub fn drv_irq_wait_step(caller: ThreadId, returned: Returned) -> (r: (
    Option<ThreadId>,
    IrqWaitOutcome,
))
    ensures
        r == irq_wait_over(caller, returned),
{
    match returned {
        Ok(SyscallReturn::Value(bits)) => (Some(caller), IrqWaitOutcome::Ready(bits)),
        Ok(SyscallReturn::Blocked) => (None, IrqWaitOutcome::Blocked),
        _ => (None, IrqWaitOutcome::Error),
    }
}

/// Whoever an IPC call gives way to is put on the CPU, and every switch is between two
/// different threads that exist.
pub proof fn handovers_are_consistent(
    k: KernelView,
    caller: ThreadId,
    target: Option<ThreadId>,
    returned: Returned,
)
    ensures
        ({
            let (_, call) = call_over(k, caller, returned);
            let (_, reply) = reply_over(k, caller, returned);
            let (_, directed) = directed_call_over(k, caller, target, returned);
            let recv = recv_over(k, caller, returned);
            &&& call.switch matches Some(s) ==> s.save == caller && call.run == Some(s.into)
                && switchable(k, caller, s.into)
            &&& reply.switch matches Some(s) ==> s.save == caller && reply.run == Some(s.into)
                && switchable(k, caller, s.into)
            &&& directed.switch matches Some(s) ==> s.save == caller && directed.run == Some(s.into)
                && Some(s.into) == target && switchable(k, caller, s.into)
            &&& recv.outcome matches Some(IpcRecvOutcome::Switch(s)) ==> s.save == caller
                && recv.run == Some(s.into) && s.into == k.root.thread && switchable(
                k,
                caller,
                s.into,
            )
        }),
{
}

/// What was delivered to a thread is handed to it once: after the switch nothing of it is left,
/// and no other thread is touched.
pub proof fn deliveries_are_taken_once(k: KernelView, caller: ThreadId, returned: Returned)
    requires
        next_after(returned) is Some,
        switchable(k, caller, next_after(returned)->0),
    ensures
        ({
            let n = next_after(returned)->0;
            let (after, h) = call_over(k, caller, returned);
            &&& h.switch->0.poke is Some ==> slot(after.tcbs, n.0)->0.pending_from is None && slot(
                after.tcbs,
                n.0,
            )->0.pending_msg is None
            &&& forall|t: ThreadId|
                t != n ==> #[trigger] slot(after.tcbs, t.0) == slot(k.tcbs, t.0)
            &&& call_over(after, caller, returned).1.switch->0.poke is None
        }),
        ({
            let n = next_after(returned)->0;
            let (after, h) = reply_over(k, caller, returned);
            &&& slot(after.tcbs, n.0)->0.pending_msg is None
            &&& forall|t: ThreadId|
                t != n ==> #[trigger] slot(after.tcbs, t.0) == slot(k.tcbs, t.0)
            &&& reply_over(after, caller, returned).1.switch->0.poke is None
        }),
{
}

/// Both threads are there and they are two.
pub open spec fn are_two_threads(k: KernelView, a: ThreadId, b: ThreadId) -> bool {
    &&& a.0 != b.0
    &&& a.0 < k.tcbs.len() && k.tcbs[a.0 as int] is Some
    &&& b.0 < k.tcbs.len() && k.tcbs[b.0 as int] is Some
}

/// A call gives way to the thread that was picked: that thread is put on the CPU, and its context
/// is resumed with the sender and the label of what was delivered to it in its registers, if there
/// is a delivery. Then nothing of the delivery is left, and nothing else changes.
pub proof fn a_call_resumes_its_receiver(
    k: KernelView,
    caller: ThreadId,
    next: ThreadId,
    from: ThreadId,
    msg: SmallMessage,
)
    requires
        are_two_threads(k, caller, next),
        k.tcbs[next.0 as int]->0.pending_from == Some(from),
        k.tcbs[next.0 as int]->0.pending_msg == Some(msg),
        msg.label <= usize::MAX,
    ensures
        ({
            let returned = Ok(SyscallReturn::Reschedule { next: Some(next) });
            let (after, h) = call_over(k, caller, returned);
            &&& h.run == Some(next)
            &&& h.switch is Some
            &&& h.switch->0.save == caller
            &&& h.switch->0.into == next
            &&& h.switch->0.poke is Some
            &&& (h.switch->0.poke->0).0 == from.0
            &&& (h.switch->0.poke->0).1 == msg.label
            &&& after.tcbs[next.0 as int] == Some(
                Tcb { pending_from: None, pending_msg: None, ..k.tcbs[next.0 as int]->0 },
            )
            &&& directed_call_over(k, caller, Some(next), returned) == (after, h)
        }),
{
}

/// A thread that nothing was delivered to resumes with its registers as they were.
pub proof fn without_a_delivery_registers_stay(k: KernelView, caller: ThreadId, next: ThreadId)
    requires
        are_two_threads(k, caller, next),
        k.tcbs[next.0 as int]->0.pending_from is None,
    ensures
        ({
            let returned = Ok(SyscallReturn::Reschedule { next: Some(next) });
            let (after, h) = call_over(k, caller, returned);
            &&& after == k
            &&& h.run == Some(next)
            &&& h.switch == Some(IpcSwitch { save: caller, into: next, poke: None })
        }),
{
    assert(k.tcbs.update(next.0 as int, k.tcbs[next.0 as int]) =~= k.tcbs);
}

/// A call to a service runs that service, whoever was picked. Unless it was picked, nothing was
/// delivered to it yet: it resumes as it was, to receive the message from the queue.
pub proof fn a_service_call_runs_the_service(
    k: KernelView,
    caller: ThreadId,
    target: ThreadId,
    picked: ThreadId,
)
    requires
        are_two_threads(k, caller, target),
    ensures
        ({
            let returned = Ok(SyscallReturn::Reschedule { next: Some(picked) });
            let (after, h) = directed_call_over(k, caller, Some(target), returned);
            &&& h.run == Some(target)
            &&& h.switch is Some && h.switch->0.save == caller && h.switch->0.into == target
            &&& picked != target ==> h.switch->0.poke is None && after == k
        }),
{
}

/// A reply resumes the thread that it answers with the label of the reply in its first register
/// and zero in the second; the reply is then gone, and nothing else changes.
pub proof fn a_reply_resumes_its_caller(
    k: KernelView,
    server: ThreadId,
    to: ThreadId,
    msg: SmallMessage,
)
    requires
        are_two_threads(k, server, to),
        k.tcbs[to.0 as int]->0.pending_msg == Some(msg),
        msg.label <= usize::MAX,
    ensures
        ({
            let returned = Ok(SyscallReturn::Reschedule { next: Some(to) });
            let (after, h) = reply_over(k, server, returned);
            &&& h.run == Some(to)
            &&& h.switch is Some
            &&& h.switch->0.save == server
            &&& h.switch->0.into == to
            &&& h.switch->0.poke is Some
            &&& (h.switch->0.poke->0).0 == msg.label
            &&& (h.switch->0.poke->0).1 == 0
            &&& after.tcbs[to.0 as int] == Some(
                Tcb { pending_msg: None, ..k.tcbs[to.0 as int]->0 },
            )
        }),
{
}

/// A receive that found a message goes on with its sender and its label. One that blocks gives way
/// to the first process. One that failed, like a call or a reply that failed, changes nobody's
/// turn.
pub proof fn a_receive_goes_on_or_gives_way(
    k: KernelView,
    caller: ThreadId,
    from: ThreadId,
    msg: SmallMessage,
    picked: ThreadId,
    target: Option<ThreadId>,
    e: SyscallError,
)
    requires
        msg.label <= usize::MAX,
        are_two_threads(k, caller, k.root.thread),
    ensures
        ({
            let now = recv_over(k, caller, Ok(SyscallReturn::Message { from, msg }));
            let blocked = recv_over(
                k,
                caller,
                Ok(SyscallReturn::Reschedule { next: Some(picked) }),
            );
            let failed = recv_over(k, caller, Err(e));
            &&& now.run is None
            &&& now.outcome matches Some(IpcRecvOutcome::Immediate { from: f, label: l }) && f
                == from.0 && l == msg.label
            &&& blocked.run == Some(k.root.thread)
            &&& blocked.outcome == Some(
                IpcRecvOutcome::Switch(
                    IpcSwitch { save: caller, into: k.root.thread, poke: None },
                ),
            )
            &&& failed.run is None && failed.outcome is None
            &&& call_over(k, caller, Err(e)) == (k, Handover { run: None, switch: None })
            &&& reply_over(k, caller, Err(e)) == (k, Handover { run: None, switch: None })
            &&& directed_call_over(k, caller, target, Err(e)) == (
                k,
                Handover { run: None, switch: None },
            )
        }),
{
}

/// A driver that waits for an interrupt gets all its bits and is put back on the CPU just then; it
/// learns whether it blocks, and anything else is an error.
pub proof fn an_interrupt_wait_hands_over_its_bits(caller: ThreadId, returned: Returned, bits: u64)
    ensures
        returned == Ok::<SyscallReturn, SyscallError>(SyscallReturn::Value(bits)) ==> {
            let (run, outcome) = irq_wait_over(caller, returned);
            run == Some(caller) && outcome == IrqWaitOutcome::Ready(bits)
        },
        ({
            let (run, outcome) = irq_wait_over(caller, returned);
            &&& run is Some <==> outcome is Ready
            &&& outcome is Ready <==> returned is Ok && returned->Ok_0 is Value
            &&& outcome is Blocked <==> returned is Ok && returned->Ok_0 is Blocked
        }),
{
}

/// A call or a reply with a label alone carries that label and no words, to the endpoint or the
/// thread with the number given.
pub proof fn labels_go_where_they_are_sent(op: SyscallOp, number: u32, label: u64)
    ensures
        calls_with_label(op, number, label) ==> op is Call && op->Call_endpoint.0 == number
            && op->Call_msg@.label == label && op->Call_msg@.words.len() == 0,
        replies_with_label(op, number, label) ==> op is Reply && op->to.0 == number
            && op->Reply_msg@.label == label && op->Reply_msg@.words.len() == 0,
{
}

/// Where contexts cannot be switched, because both are one thread or one is not there, whoever is
/// next is still put on the CPU, and nothing is taken from anyone.
pub proof fn without_contexts_nothing_is_taken(
    k: KernelView,
    caller: ThreadId,
    next: ThreadId,
    target: ThreadId,
)
    requires
        !are_two_threads(k, caller, next),
        !are_two_threads(k, caller, target),
    ensures
        ({
            let returned = Ok(SyscallReturn::Reschedule { next: Some(next) });
            let none = |t: ThreadId| (k, Handover { run: Some(t), switch: None });
            &&& call_over(k, caller, returned) == none(next)
            &&& reply_over(k, caller, returned) == none(next)
            &&& directed_call_over(k, caller, Some(target), returned) == none(target)
            &&& directed_call_over(k, caller, None, returned) == (
                k,
                Handover { run: None, switch: None },
            )
        }),
{
}

} // verus!
