//! What whole system calls are for: which object a call reaches, what it hands over, and what
//! its caller gets back, from its first step through every reply to its end.

use crate::capability::{Capability, KernelObjectKind};
use crate::dispatch::{dispatched, resumed};
use crate::ids::{CapId, EndpointId, ThreadId, UntypedId};
use crate::ipc::{with_message, with_state};
use crate::message::SmallMessage;
use crate::notify::{all_woken, woken_threads};
use crate::objects::{IpcError, KernelObjectType, SchedError};
use crate::rights::{READ_BIT, WRITE_BIT};
use crate::state::KernelView;
use crate::syscall::{
    Pending, RecvOutcome, Reply, Request, SendOutcome, Step, SyscallError, SyscallOp,
    SyscallReturn,
};
use crate::tcb::{Tcb, ThreadState};
use vstd::prelude::*;

verus! {

/// The thread with number `thread`.
pub open spec fn thread_at(k: KernelView, thread: ThreadId) -> Option<Tcb> {
    if thread.0 < k.tcbs.len() {
        k.tcbs[thread.0 as int]
    } else {
        None
    }
}

/// `thread` is there and has not exited.
pub open spec fn lives(k: KernelView, thread: ThreadId) -> bool {
    thread_at(k, thread) is Some && !(thread_at(k, thread)->0.state is Exited)
}

/// `thread` has a capability space.
pub open spec fn has_space(k: KernelView, thread: ThreadId) -> bool {
    &&& thread_at(k, thread) is Some
    &&& thread_at(k, thread)->0.cap_space.0 < k.spaces.len()
    &&& k.spaces[thread_at(k, thread)->0.cap_space.0 as int] is Some
}

/// The capability that stands in slot `cap` of the capability space of `thread`.
pub open spec fn held(k: KernelView, thread: ThreadId, cap: CapId) -> Option<Capability> {
    if has_space(k, thread) {
        let table = k.spaces[thread_at(k, thread)->0.cap_space.0 as int]->0;
        if cap.0 < table.entries.len() && table.entries[cap.0 as int] is Some {
            Some(table.entries[cap.0 as int]->0.cap)
        } else {
            None
        }
    } else {
        None
    }
}

/// Slot `cap` of `thread` holds a capability to the object `id` of kind `kind` that carries every
/// right in `rights`.
pub open spec fn empowers(
    k: KernelView,
    thread: ThreadId,
    cap: CapId,
    kind: KernelObjectKind,
    id: u32,
    rights: u32,
) -> bool {
    &&& held(k, thread, cap) is Some
    &&& held(k, thread, cap)->0.object.kind == kind
    &&& held(k, thread, cap)->0.object.id.0 == id
    &&& held(k, thread, cap)->0.rights.bits & rights == rights
}

/// The call has requested `request` and waits for the reply.
pub open spec fn asks(call: (KernelView, Step), request: Request) -> bool {
    call.1 is Ask && call.1->Ask_0 == request
}

/// The call has ended with `result`.
pub open spec fn ends(
    call: (KernelView, Step),
    result: Result<SyscallReturn, SyscallError>,
) -> bool {
    call.1 == Step::Finished(result)
}

/// The call has ended with an error.
pub open spec fn refused(call: (KernelView, Step)) -> bool {
    call.1 is Finished && call.1->Finished_0 is Err
}

/// Where a call stands once its request was replied to.
pub open spec fn answered(call: (KernelView, Step), reply: Reply) -> (KernelView, Step) {
    match call.1 {
        Step::Ask(_, pending) => resumed(call.0, pending, reply),
        Step::Finished(_) => call,
    }
}

/// `after` differs from `before` in the thread `thread` alone.
pub open spec fn only_thread_differs(before: KernelView, after: KernelView, thread: ThreadId) -> bool {
    &&& after == (KernelView { tcbs: after.tcbs, ..before })
    &&& after.tcbs.len() == before.tcbs.len()
    &&& forall|i: int|
        0 <= i < before.tcbs.len() && i != thread.0 ==> #[trigger] after.tcbs[i] == before.tcbs[i]
}

/// `thread` differs between `before` and `after` in nothing but its state, which is `state`
/// afterwards.
pub open spec fn only_state_differs(
    before: KernelView,
    after: KernelView,
    thread: ThreadId,
    state: ThreadState,
) -> bool {
    &&& only_thread_differs(before, after, thread)
    &&& thread_at(before, thread) is Some
    &&& thread_at(after, thread) == Some(Tcb { state, ..thread_at(before, thread)->0 })
}

/// `thread` was handed `msg` and became runnable; of the threads only it changed, and in nothing
/// else but, where `from` is given, whom the message is from.
pub open spec fn is_handed(
    before: KernelView,
    after: KernelView,
    thread: ThreadId,
    msg: SmallMessage,
    from: Option<ThreadId>,
) -> bool {
    &&& only_thread_differs(before, after, thread)
    &&& thread_at(after, thread) is Some
    &&& thread_at(after, thread)->0.pending_msg == Some(msg)
    &&& thread_at(after, thread)->0.state is Runnable
    &&& from is Some ==> thread_at(after, thread)->0.pending_from == from
    &&& from is None ==> thread_at(after, thread)->0.pending_from == thread_at(
        before,
        thread,
    )->0.pending_from
    &&& thread_at(after, thread)->0 == (Tcb {
        pending_msg: thread_at(after, thread)->0.pending_msg,
        pending_from: thread_at(after, thread)->0.pending_from,
        state: thread_at(after, thread)->0.state,
        ..thread_at(before, thread)->0
    })
}

/// A thread that may send on an endpoint reaches that endpoint, as itself, with its message
/// unchanged.
pub proof fn a_send_goes_to_the_endpoint_named(
    k: KernelView,
    caller: ThreadId,
    cap: CapId,
    id: u32,
    msg: SmallMessage,
)
    requires
        empowers(k, caller, cap, KernelObjectKind::Endpoint, id, WRITE_BIT),
        id < k.endpoints.len() && k.endpoints[id as int] is Some,
    ensures
        ({
            let call = dispatched(k, caller, SyscallOp::Send { endpoint: cap, msg });
            &&& call.0 == k
            &&& asks(call, Request::TrySend { endpoint: EndpointId(id), sender: caller, msg })
        }),
{
}

/// A call reaches the endpoint named in the same way, whether or not its receiver is found
/// waiting.
pub proof fn a_call_goes_to_the_endpoint_named(
    k: KernelView,
    caller: ThreadId,
    cap: CapId,
    id: u32,
    msg: SmallMessage,
    fast: bool,
)
    requires
        empowers(k, caller, cap, KernelObjectKind::Endpoint, id, READ_BIT | WRITE_BIT),
        id < k.endpoints.len() && k.endpoints[id as int] is Some,
    ensures
        ({
            let call = dispatched(k, caller, SyscallOp::Call { endpoint: cap, msg });
            let next = answered(call, Reply::Eligible(fast));
            &&& asks(call, Request::FastPath { endpoint: EndpointId(id), msg })
            &&& next.0 == k
            &&& asks(next, Request::TrySend { endpoint: EndpointId(id), sender: caller, msg })
        }),
{
}

/// A message that finds its receiver waiting is handed to that receiver as it was sent, with the
/// sender's name, and the receiver is made ready. Then a sender goes on at once.
pub proof fn a_delivered_message_is_handed_over(
    k: KernelView,
    sender: ThreadId,
    cap: CapId,
    id: u32,
    msg: SmallMessage,
    receiver: ThreadId,
)
    requires
        empowers(k, sender, cap, KernelObjectKind::Endpoint, id, WRITE_BIT),
        id < k.endpoints.len() && k.endpoints[id as int] is Some,
        lives(k, receiver),
    ensures
        ({
            let call = dispatched(k, sender, SyscallOp::Send { endpoint: cap, msg });
            let found = answered(call, Reply::Sent(Ok(SendOutcome::DeliveredTo(receiver))));
            let carried = call.1->Ask_0->TrySend_msg;
            let handed = answered(found, Reply::Taken(Some((receiver, carried))));
            let over = answered(handed, Reply::Scheduled(Ok(())));
            &&& found.0 == k
            &&& asks(found, Request::TakeDelivered { endpoint: EndpointId(id) })
            &&& is_handed(k, handed.0, receiver, msg, Some(sender))
            &&& asks(handed, Request::NoteReady { thread: receiver })
            &&& over.0 == handed.0
            &&& ends(over, Ok(SyscallReturn::Delivered { woke: receiver }))
        }),
{
}

/// A call that finds its receiver waiting hands over the request and then waits for the reply:
/// the caller is blocked on it, and the CPU goes to the receiver if that was known to wait
/// beforehand, else to whomever the scheduler picks.
pub proof fn a_delivered_call_waits_for_its_reply(
    k: KernelView,
    caller: ThreadId,
    cap: CapId,
    id: u32,
    msg: SmallMessage,
    fast: bool,
    receiver: ThreadId,
    next: Option<ThreadId>,
)
    requires
        empowers(k, caller, cap, KernelObjectKind::Endpoint, id, READ_BIT | WRITE_BIT),
        id < k.endpoints.len() && k.endpoints[id as int] is Some,
        lives(k, receiver),
        lives(k, caller),
        caller != receiver,
    ensures
        ({
            let call = dispatched(k, caller, SyscallOp::Call { endpoint: cap, msg });
            let sending = answered(call, Reply::Eligible(fast));
            let found = answered(sending, Reply::Sent(Ok(SendOutcome::DeliveredTo(receiver))));
            let carried = sending.1->Ask_0->TrySend_msg;
            let handed = answered(found, Reply::Taken(Some((receiver, carried))));
            let waiting = answered(handed, Reply::Scheduled(Ok(())));
            let away = answered(waiting, Reply::Scheduled(Ok(())));
            &&& asks(found, Request::TakeDelivered { endpoint: EndpointId(id) })
            &&& is_handed(k, handed.0, receiver, msg, Some(caller))
            &&& asks(handed, Request::NoteReady { thread: receiver })
            &&& only_state_differs(handed.0, waiting.0, caller, ThreadState::BlockedOnReply)
            &&& asks(waiting, Request::Block { thread: caller })
            &&& away.0 == waiting.0
            &&& fast ==> ends(away, Ok(SyscallReturn::Reschedule { next: Some(receiver) }))
            &&& !fast ==> asks(away, Request::PickNext) && ends(
                answered(away, Reply::Picked(next)),
                Ok(SyscallReturn::Reschedule { next }),
            )
        }),
{
}

/// A send that finds nobody waiting blocks its sender on the send, and the CPU goes to whomever
/// the scheduler picks.
pub proof fn a_queued_sender_blocks(
    k: KernelView,
    sender: ThreadId,
    cap: CapId,
    id: u32,
    msg: SmallMessage,
    next: Option<ThreadId>,
)
    requires
        empowers(k, sender, cap, KernelObjectKind::Endpoint, id, WRITE_BIT),
        id < k.endpoints.len() && k.endpoints[id as int] is Some,
        lives(k, sender),
    ensures
        ({
            let call = dispatched(k, sender, SyscallOp::Send { endpoint: cap, msg });
            let queued = answered(call, Reply::Sent(Ok(SendOutcome::SenderQueued)));
            let away = answered(queued, Reply::Scheduled(Ok(())));
            &&& only_state_differs(k, queued.0, sender, ThreadState::BlockedOnSend)
            &&& asks(queued, Request::Block { thread: sender })
            &&& away.0 == queued.0
            &&& asks(away, Request::PickNext)
            &&& answered(away, Reply::Picked(next)).0 == queued.0
            &&& ends(
                answered(away, Reply::Picked(next)),
                Ok(SyscallReturn::Reschedule { next }),
            )
        }),
{
}

/// A call that finds nobody waiting blocks its caller on the reply.
pub proof fn a_queued_caller_blocks(
    k: KernelView,
    caller: ThreadId,
    cap: CapId,
    id: u32,
    msg: SmallMessage,
    fast: bool,
    next: Option<ThreadId>,
)
    requires
        empowers(k, caller, cap, KernelObjectKind::Endpoint, id, READ_BIT | WRITE_BIT),
        id < k.endpoints.len() && k.endpoints[id as int] is Some,
        lives(k, caller),
    ensures
        ({
            let call = dispatched(k, caller, SyscallOp::Call { endpoint: cap, msg });
            let sending = answered(call, Reply::Eligible(fast));
            let queued = answered(sending, Reply::Sent(Ok(SendOutcome::SenderQueued)));
            let away = answered(queued, Reply::Scheduled(Ok(())));
            &&& only_state_differs(k, queued.0, caller, ThreadState::BlockedOnReply)
            &&& asks(queued, Request::Block { thread: caller })
            &&& away.0 == queued.0
            &&& asks(away, Request::PickNext)
            &&& ends(
                answered(away, Reply::Picked(next)),
                Ok(SyscallReturn::Reschedule { next }),
            )
        }),
{
}

/// What a thread sends on an endpoint is what a receive from that endpoint hands out: the message
/// that the endpoint was given with the sender comes back with all its words and the sender's
/// name, and the sender is made ready, whatever the scheduler says to that.
pub proof fn a_queued_message_is_received_as_sent(
    k: KernelView,
    sender: ThreadId,
    to_send: CapId,
    msg: SmallMessage,
    is_call: bool,
    fast: bool,
    later: KernelView,
    receiver: ThreadId,
    to_recv: CapId,
    id: u32,
    scheduled: Result<(), SchedError>,
)
    requires
        empowers(
            k,
            sender,
            to_send,
            KernelObjectKind::Endpoint,
            id,
            if is_call {
                READ_BIT | WRITE_BIT
            } else {
                WRITE_BIT
            },
        ),
        id < k.endpoints.len() && k.endpoints[id as int] is Some,
        empowers(later, receiver, to_recv, KernelObjectKind::Endpoint, id, READ_BIT),
        id < later.endpoints.len() && later.endpoints[id as int] is Some,
    ensures
        ({
            let sending = if is_call {
                answered(
                    dispatched(k, sender, SyscallOp::Call { endpoint: to_send, msg }),
                    Reply::Eligible(fast),
                )
            } else {
                dispatched(k, sender, SyscallOp::Send { endpoint: to_send, msg })
            };
            let recv = dispatched(later, receiver, SyscallOp::Recv { endpoint: to_recv });
            let given = sending.1->Ask_0;
            let outcome = RecvOutcome::Received {
                from: given->TrySend_sender,
                msg: given->TrySend_msg,
            };
            let waking = answered(recv, Reply::Received(Ok(outcome)));
            let over = answered(waking, Reply::Scheduled(scheduled));
            &&& given == Request::TrySend { endpoint: EndpointId(id), sender, msg }
            &&& asks(recv, Request::TryRecv { endpoint: EndpointId(id), receiver })
            &&& recv.0 == later
            &&& asks(waking, Request::NoteReady { thread: sender })
            &&& over.0 == waking.0
            &&& ends(over, Ok(SyscallReturn::Message { from: sender, msg }))
            &&& over.1->Finished_0->Ok_0->Message_msg@ == msg@
        }),
{
}

/// A sender whose message was received runs on; a caller whose request was received goes on
/// waiting for its reply. No other thread changes.
pub proof fn receiving_frees_the_sender_only(
    k: KernelView,
    receiver: ThreadId,
    cap: CapId,
    id: u32,
    from: ThreadId,
    msg: SmallMessage,
)
    requires
        empowers(k, receiver, cap, KernelObjectKind::Endpoint, id, READ_BIT),
        id < k.endpoints.len() && k.endpoints[id as int] is Some,
        lives(k, from),
    ensures
        ({
            let recv = dispatched(k, receiver, SyscallOp::Recv { endpoint: cap });
            let outcome = RecvOutcome::Received { from, msg };
            let after = answered(recv, Reply::Received(Ok(outcome))).0;
            if thread_at(k, from)->0.state is BlockedOnReply {
                after == k
            } else {
                only_state_differs(k, after, from, ThreadState::Runnable)
            }
        }),
{
}

/// A receive that finds nobody queued blocks its caller on the receive, and the CPU goes to
/// whomever the scheduler picks.
pub proof fn a_queued_receiver_blocks(
    k: KernelView,
    receiver: ThreadId,
    cap: CapId,
    id: u32,
    next: Option<ThreadId>,
)
    requires
        empowers(k, receiver, cap, KernelObjectKind::Endpoint, id, READ_BIT),
        id < k.endpoints.len() && k.endpoints[id as int] is Some,
        lives(k, receiver),
    ensures
        ({
            let recv = dispatched(k, receiver, SyscallOp::Recv { endpoint: cap });
            let queued = answered(recv, Reply::Received(Ok(RecvOutcome::ReceiverQueued)));
            let away = answered(queued, Reply::Scheduled(Ok(())));
            &&& only_state_differs(k, queued.0, receiver, ThreadState::BlockedOnRecv)
            &&& asks(queued, Request::Block { thread: receiver })
            &&& away.0 == queued.0
            &&& asks(away, Request::PickNext)
            &&& ends(
                answered(away, Reply::Picked(next)),
                Ok(SyscallReturn::Reschedule { next }),
            )
        }),
{
}

/// An endpoint whose queue is full fails a send, a call or a receive, and one that neither
/// delivers nor queues leaves the caller to block; either way nothing has changed.
pub proof fn an_endpoint_that_does_nothing_changes_nothing(
    k: KernelView,
    pending: Pending,
    fault: Reply,
)
    requires
        pending is SendTry || pending is RecvTry,
    ensures
        fault matches Reply::Sent(Err(_)) && pending is SendTry ==> resumed(k, pending, fault) == (
            k,
            Step::Finished(Err(SyscallError::Ipc(IpcError::QueueFull))),
        ),
        fault matches Reply::Received(Err(_)) && pending is RecvTry ==> resumed(k, pending, fault)
            == (k, Step::Finished(Err(SyscallError::Ipc(IpcError::QueueFull)))),
        fault == Reply::Sent(Ok(SendOutcome::WouldBlock)) && pending is SendTry ==> resumed(
            k,
            pending,
            fault,
        ) == (k, Step::Finished(Ok(SyscallReturn::Blocked))),
        fault == Reply::Received(Ok(RecvOutcome::WouldBlock)) && pending is RecvTry ==> resumed(
            k,
            pending,
            fault,
        ) == (k, Step::Finished(Ok(SyscallReturn::Blocked))),
{
}

/// A reply to a thread that awaits one is what that thread is handed, word for word; both run on,
/// and the CPU goes to the thread that was replied to. Who the message it got before came from
/// stays recorded.
pub proof fn a_reply_is_handed_to_the_caller(
    k: KernelView,
    server: ThreadId,
    to: ThreadId,
    msg: SmallMessage,
)
    requires
        server != to,
        thread_at(k, to) is Some,
        thread_at(k, to)->0.state is BlockedOnReply,
    ensures
        ({
            let call = dispatched(k, server, SyscallOp::Reply { to, msg });
            let handed = answered(call, Reply::Done);
            let woken = answered(handed, Reply::Scheduled(Ok(())));
            let over = answered(woken, Reply::Scheduled(Ok(())));
            &&& call.0 == k
            &&& asks(call, Request::Account)
            &&& is_handed(k, handed.0, to, msg, None)
            &&& asks(handed, Request::NoteReady { thread: to })
            &&& woken.0 == handed.0
            &&& asks(woken, Request::NoteReady { thread: server })
            &&& over.0 == handed.0
            &&& ends(over, Ok(SyscallReturn::Reschedule { next: Some(to) }))
        }),
{
}

/// Only a thread that awaits a reply can be replied to, and nobody replies to itself.
pub proof fn a_reply_needs_someone_who_awaits_it(
    k: KernelView,
    server: ThreadId,
    to: ThreadId,
    msg: SmallMessage,
)
    requires
        server == to || thread_at(k, to) is None || !(thread_at(k, to)->0.state is BlockedOnReply),
    ensures
        dispatched(k, server, SyscallOp::Reply { to, msg }) == (
            k,
            Step::Finished(Err(SyscallError::NotBlockedOnReply)),
        ),
{
}

/// A yield hands the CPU to whomever the scheduler picks.
pub proof fn a_yield_hands_the_cpu_over(k: KernelView, caller: ThreadId, next: Option<ThreadId>)
    ensures
        ({
            let call = dispatched(k, caller, SyscallOp::Yield);
            &&& call.0 == k
            &&& asks(call, Request::AccountAndPick)
            &&& answered(call, Reply::Picked(next)) == (
                k,
                Step::Finished(Ok(SyscallReturn::Reschedule { next })),
            )
        }),
{
}

/// A scheduler that refuses to block or to wake a thread ends the call with its own error.
pub proof fn scheduling_errors_are_passed_on(k: KernelView, pending: Pending, e: SchedError)
    requires
        pending is SendWake || pending is Block || pending is ReplyWake || pending is ReplyStay,
    ensures
        resumed(k, pending, Reply::Scheduled(Err(e))) == (
            k,
            Step::Finished(Err(SyscallError::Sched(e))),
        ),
{
}

/// The kind of object that a call acts on through its first capability, which slot that is in, and
/// the rights that it takes.
pub open spec fn acts_through(op: SyscallOp, cap: CapId, kind: KernelObjectKind, rights: u32) -> bool {
    match op {
        SyscallOp::Send { endpoint, .. } => endpoint == cap && kind is Endpoint && rights
            == WRITE_BIT,
        SyscallOp::Recv { endpoint } => endpoint == cap && kind is Endpoint && rights == READ_BIT,
        SyscallOp::Call { endpoint, .. } => endpoint == cap && kind is Endpoint && rights
            == READ_BIT | WRITE_BIT,
        SyscallOp::CapGrant { target_thread, .. } => target_thread == cap
            && kind is ThreadControlBlock && rights == WRITE_BIT,
        SyscallOp::Retype { untyped, .. } => untyped == cap && kind is UntypedMemory && rights
            == WRITE_BIT,
        SyscallOp::MapPage { page_table, .. } => page_table == cap && kind is PageTable && rights
            == WRITE_BIT,
        SyscallOp::Signal { notification, .. } => notification == cap && kind is Notification
            && rights == WRITE_BIT,
        SyscallOp::Wait { notification } => notification == cap && kind is Notification && rights
            == READ_BIT,
        SyscallOp::Poll { notification } => notification == cap && kind is Notification && rights
            == READ_BIT,
        SyscallOp::IrqBind { mmio, .. } => mmio == cap && kind is MmioRegion && rights
            == WRITE_BIT,
        SyscallOp::CapRevoke { .. } | SyscallOp::Reply { .. } | SyscallOp::Yield => false,
    }
}

/// Every call that acts through a capability is refused, with nothing changed, for the first of
/// these that holds: its caller has no capability space, the slot is empty, the capability names
/// an object of another kind, or it lacks a right that the call takes.
pub proof fn calls_are_refused_alike(
    k: KernelView,
    caller: ThreadId,
    op: SyscallOp,
    cap: CapId,
    kind: KernelObjectKind,
    rights: u32,
)
    requires
        acts_through(op, cap, kind, rights),
    ensures
        ({
            let call = dispatched(k, caller, op);
            let found = held(k, caller, cap);
            &&& !has_space(k, caller) ==> call.0 == k && ends(call, Err(SyscallError::NoCaller))
            &&& has_space(k, caller) && found is None ==> call.0 == k && ends(
                call,
                Err(SyscallError::BadCap),
            )
            &&& found is Some && found->0.object.kind != kind ==> call.0 == k && ends(
                call,
                Err(SyscallError::WrongObjectKind),
            )
            &&& found is Some && found->0.object.kind == kind && found->0.rights.bits & rights
                != rights ==> call.0 == k && ends(call, Err(SyscallError::InsufficientRights))
        }),
{
}

/// A retype asks for memory in the untyped object named, for as many objects of the type as its
/// caller wants.
pub proof fn a_retype_draws_on_the_memory_named(
    k: KernelView,
    caller: ThreadId,
    cap: CapId,
    id: u32,
    target_type: KernelObjectType,
    count: u32,
)
    requires
        empowers(k, caller, cap, KernelObjectKind::UntypedMemory, id, WRITE_BIT),
        id < k.untyped.len() && k.untyped[id as int] is Some,
    ensures
        ({
            let call = dispatched(
                k,
                caller,
                SyscallOp::Retype { untyped: cap, target_type, count },
            );
            &&& call.0 == k
            &&& asks(call, Request::Reserve { untyped: UntypedId(id), target_type, count })
        }),
{
}

/// A delivered message that the endpoint no longer holds was taken by its receiver already: a
/// sender goes on, and a caller waits for its reply, just as if it had been handed over now.
pub proof fn a_message_taken_already_is_delivered(
    k: KernelView,
    caller: ThreadId,
    fast: bool,
    receiver: ThreadId,
)
    requires
        lives(k, caller),
    ensures
        ({
            let sent = Pending::SendTake { caller, is_call: false, fast, receiver };
            let called = Pending::SendTake { caller, is_call: true, fast, receiver };
            let waiting = resumed(k, called, Reply::Taken(None));
            &&& resumed(k, sent, Reply::Taken(None)) == (
                k,
                Step::Finished(Ok(SyscallReturn::Delivered { woke: receiver })),
            )
            &&& only_state_differs(k, waiting.0, caller, ThreadState::BlockedOnReply)
            &&& asks(waiting, Request::Block { thread: caller })
        }),
{
}

/// There is an object of the kind with the number `id`.
pub open spec fn is_there(k: KernelView, kind: KernelObjectKind, id: u32) -> bool {
    match kind {
        KernelObjectKind::UntypedMemory => id < k.untyped.len() && k.untyped[id as int] is Some,
        KernelObjectKind::Endpoint => id < k.endpoints.len() && k.endpoints[id as int] is Some,
        KernelObjectKind::Notification => id < k.notifications.len()
            && k.notifications[id as int] is Some,
        KernelObjectKind::ThreadControlBlock => id < k.tcbs.len() && k.tcbs[id as int] is Some,
        KernelObjectKind::MmioRegion => id < k.mmio_regions.len()
            && k.mmio_regions[id as int] is Some,
        _ => true,
    }
}

/// A capability to an object that is gone is a bad one: a call through it fails, and nothing
/// changes.
pub proof fn a_call_needs_its_object(
    k: KernelView,
    caller: ThreadId,
    op: SyscallOp,
    cap: CapId,
    kind: KernelObjectKind,
    rights: u32,
    id: u32,
)
    requires
        acts_through(op, cap, kind, rights),
        empowers(k, caller, cap, kind, id, rights),
        !is_there(k, kind, id),
    ensures
        dispatched(k, caller, op) == (k, Step::Finished(Err(SyscallError::BadCap))),
{
}

/// The reply is one to the request that the call waits for.
pub open spec fn is_awaited(pending: Pending, reply: Reply) -> bool {
    match pending {
        Pending::Reschedule => reply is Picked,
        Pending::Retype { .. } => reply is Reserved,
        Pending::MapRecord { .. } => reply is PageRecorded,
        Pending::MapWalk { .. } => reply is Walked,
        Pending::MapUndo | Pending::MapFlush | Pending::ReplyCharge { .. }
        | Pending::SignalWake { .. } => reply is Done,
        Pending::CallFast { .. } => reply is Eligible,
        Pending::SendTry { .. } => reply is Sent,
        Pending::SendTake { .. } => reply is Taken,
        Pending::SendWake { .. } | Pending::Block { .. } | Pending::RecvWake { .. }
        | Pending::ReplyWake { .. } | Pending::ReplyStay { .. } | Pending::WaitBlock => reply
            is Scheduled,
        Pending::RecvTry { .. } => reply is Received,
        Pending::Signal { .. } => reply is Woke,
        Pending::SignalTake { .. } | Pending::Wait { .. } | Pending::Poll => reply is Bits,
        Pending::WaitAdd { .. } => reply is Waiting,
        Pending::IrqInstall => reply is IrqInstalled,
    }
}

/// A reply that is none to the request that is out ends the call as unsupported, and changes
/// nothing.
pub proof fn a_reply_out_of_turn_ends_the_call(k: KernelView, pending: Pending, reply: Reply)
    requires
        !is_awaited(pending, reply),
    ensures
        resumed(k, pending, reply) == (k, Step::Finished(Err(SyscallError::Unsupported))),
{
}

/// A thread that has exited is left as it is by every step of every call, whoever sends it a
/// message, signals it or blocks it.
pub proof fn the_dead_are_left_alone(
    k: KernelView,
    pending: Pending,
    reply: Reply,
    caller: ThreadId,
    op: SyscallOp,
    thread: ThreadId,
)
    requires
        k.wf(),
        thread_at(k, thread) is Some,
        thread_at(k, thread)->0.state is Exited,
    ensures
        thread_at(resumed(k, pending, reply).0, thread) == thread_at(k, thread),
        thread_at(dispatched(k, caller, op).0, thread) == thread_at(k, thread),
{
    crate::exit_laws::lemma_dispatch_leaves_threads(k, caller, op);
    if let Pending::Retype { caller, target_type } = pending {
        if let Reply::Reserved { grant: Ok(grant), running } = reply {
            crate::retype_laws::retyping_changes_no_other_object(
                k,
                caller,
                target_type,
                grant,
                running,
                0,
            );
        }
    } else {
        lemma_dead_left(k, pending, reply, thread);
    }
}

/// The thread `thread` of `after` is dead just as it was in `before`.
#[verifier::opaque]
pub open spec fn stays_dead(before: Seq<Option<Tcb>>, after: Seq<Option<Tcb>>, thread: ThreadId) -> bool {
    &&& after.len() == before.len()
    &&& thread.0 < before.len() && before[thread.0 as int] is Some
        && before[thread.0 as int]->0.state is Exited ==> after[thread.0 as int]
        == before[thread.0 as int]
}

proof fn lemma_dead_updates(
    tcbs: Seq<Option<Tcb>>,
    other: ThreadId,
    state: ThreadState,
    msg: SmallMessage,
    from: Option<ThreadId>,
    thread: ThreadId,
)
    ensures
        stays_dead(tcbs, tcbs, thread),
        stays_dead(tcbs, with_state(tcbs, other, state), thread),
        stays_dead(tcbs, with_message(tcbs, other, msg, from), thread),
{
    reveal(stays_dead);
}

proof fn lemma_dead_not_woken(tcbs: Seq<Option<Tcb>>, woken: Seq<ThreadId>, thread: ThreadId)
    ensures
        stays_dead(tcbs, all_woken(tcbs, woken), thread),
{
    reveal(stays_dead);
}

proof fn lemma_dead_stay(k: KernelView, pending: Pending, reply: Reply, thread: ThreadId)
    requires
        !(pending is Retype),
    ensures
        stays_dead(k.tcbs, resumed(k, pending, reply).0.tcbs, thread),
{
    let none = SmallMessage { label: 0, data: arbitrary(), len: 0 };
    lemma_dead_updates(k.tcbs, ThreadId(0), ThreadState::Runnable, none, None, thread);
    match (pending, reply) {
        (Pending::SendTry { caller, .. }, _) => {
            lemma_dead_updates(k.tcbs, caller, ThreadState::BlockedOnReply, none, None, thread);
            lemma_dead_updates(k.tcbs, caller, ThreadState::BlockedOnSend, none, None, thread);
        },
        (Pending::SendTake { caller, .. }, Reply::Taken(message)) => {
            lemma_dead_updates(k.tcbs, caller, ThreadState::BlockedOnReply, none, None, thread);
            if let Some((other, msg)) = message {
                lemma_dead_updates(
                    k.tcbs,
                    other,
                    ThreadState::Runnable,
                    msg,
                    Some(caller),
                    thread,
                );
            }
        },
        (Pending::SendWake { caller, .. }, _) => {
            lemma_dead_updates(k.tcbs, caller, ThreadState::BlockedOnReply, none, None, thread);
        },
        (Pending::RecvTry { caller }, Reply::Received(outcome)) => {
            lemma_dead_updates(k.tcbs, caller, ThreadState::BlockedOnRecv, none, None, thread);
            if let Ok(RecvOutcome::Received { from, msg }) = outcome {
                lemma_dead_updates(k.tcbs, from, ThreadState::Runnable, none, None, thread);
            }
        },
        (Pending::ReplyCharge { to, msg, .. }, _) => {
            lemma_dead_updates(k.tcbs, to, ThreadState::Runnable, msg, None, thread);
        },
        (Pending::SignalTake { woken }, _) => {
            lemma_dead_not_woken(k.tcbs, woken_threads(woken), thread);
        },
        (Pending::WaitAdd { caller }, _) => {
            lemma_dead_updates(
                k.tcbs,
                caller,
                ThreadState::BlockedOnNotification,
                none,
                None,
                thread,
            );
        },
        _ => {},
    }
}

proof fn lemma_dead_left(k: KernelView, pending: Pending, reply: Reply, thread: ThreadId)
    requires
        !(pending is Retype),
        thread_at(k, thread) is Some,
        thread_at(k, thread)->0.state is Exited,
    ensures
        thread_at(resumed(k, pending, reply).0, thread) == thread_at(k, thread),
{
    lemma_dead_stay(k, pending, reply, thread);
    reveal(stays_dead);
}

} // verus!
