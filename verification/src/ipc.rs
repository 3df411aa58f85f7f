//! Synchronous IPC: sending, calling, receiving and replying.

use crate::capability::KernelObjectKind;
use crate::ids::{CapId, EndpointId, ThreadId};
use crate::message::SmallMessage;
use crate::objects::{EndpointError, IpcError, SchedError};
use crate::rights::{CapabilityRights, READ_BIT, WRITE_BIT};
use crate::state::{slot, KernelState, KernelView};
use crate::syscall::{
    resolved, Pending, RecvOutcome, Request, SendOutcome, Step, SyscallError, SyscallReturn,
};
use crate::tcb::{Tcb, ThreadState};
use vstd::prelude::*;

verus! {

/// The threads after `thread`, if it exists, changed its state. A thread that has exited stays
/// as it is.
pub open spec fn with_state(tcbs: Seq<Option<Tcb>>, thread: ThreadId, state: ThreadState) -> Seq<
    Option<Tcb>,
> {
    match slot(tcbs, thread.0) {
        Some(t) => if t.state is Exited {
            tcbs
        } else {
            tcbs.update(thread.0 as int, Some(Tcb { state, ..t }))
        },
        None => tcbs,
    }
}

/// The threads after `thread`, if it exists, was handed a message and made runnable. `from`, if
/// given, is recorded as the sender. A thread that has exited stays as it is.
pub open spec fn with_message(
    tcbs: Seq<Option<Tcb>>,
    thread: ThreadId,
    msg: SmallMessage,
    from: Option<ThreadId>,
) -> Seq<Option<Tcb>> {
    match slot(tcbs, thread.0) {
        Some(t) => if t.state is Exited {
            tcbs
        } else {
            tcbs.update(
                thread.0 as int,
                Some(
                    Tcb {
                        pending_msg: Some(msg),
                        pending_from: if from is Some {
                            from
                        } else {
                            t.pending_from
                        },
                        state: ThreadState::Runnable,
                        ..t
                    },
                ),
            )
        },
        None => tcbs,
    }
}

/// The call is over with an error.
pub open spec fn failed(e: SyscallError) -> Step {
    Step::Finished(Err(e))
}

/// The rights on an endpoint that a send needs, and a call, which also receives the reply.
pub open spec fn rights_to_send(is_call: bool) -> CapabilityRights {
    if is_call {
        CapabilityRights { bits: READ_BIT | WRITE_BIT }
    } else {
        CapabilityRights { bits: WRITE_BIT }
    }
}

/// How a send or a call starts.
pub open spec fn send_begun(
    k: KernelView,
    caller: ThreadId,
    endpoint: CapId,
    msg: SmallMessage,
    is_call: bool,
) -> Step {
    match resolved(
        k,
        caller,
        endpoint,
        KernelObjectKind::Endpoint,
        rights_to_send(is_call),
    ) {
        Err(e) => failed(e),
        Ok(cap) => {
            let endpoint = EndpointId(cap.object.id.0);
            if slot(k.endpoints, endpoint.0) is None {
                failed(SyscallError::BadCap)
            } else if is_call {
                Step::Ask(
                    Request::FastPath { endpoint, msg },
                    Pending::CallFast { caller, endpoint, msg },
                )
            } else {
                try_send(caller, endpoint, msg, false, false)
            }
        },
    }
}

/// The message is sent. `fast` tells that a receiver was found waiting.
pub open spec fn try_send(
    caller: ThreadId,
    endpoint: EndpointId,
    msg: SmallMessage,
    is_call: bool,
    fast: bool,
) -> Step {
    Step::Ask(
        Request::TrySend { endpoint, sender: caller, msg },
        Pending::SendTry { caller, endpoint, is_call, fast },
    )
}

/// What sending came to. A sender that has to wait blocks on the send, a caller on its reply.
pub open spec fn sent(
    k: KernelView,
    caller: ThreadId,
    endpoint: EndpointId,
    is_call: bool,
    fast: bool,
    outcome: Result<SendOutcome, EndpointError>,
) -> (KernelView, Step) {
    match outcome {
        Err(_) => (k, failed(SyscallError::Ipc(IpcError::QueueFull))),
        Ok(SendOutcome::DeliveredTo(receiver)) => (
            k,
            Step::Ask(
                Request::TakeDelivered { endpoint },
                Pending::SendTake { caller, is_call, fast, receiver },
            ),
        ),
        Ok(SendOutcome::SenderQueued) => (
            KernelView {
                tcbs: with_state(
                    k.tcbs,
                    caller,
                    if is_call {
                        ThreadState::BlockedOnReply
                    } else {
                        ThreadState::BlockedOnSend
                    },
                ),
                ..k
            },
            Step::Ask(Request::Block { thread: caller }, Pending::Block { next: None }),
        ),
        Ok(SendOutcome::WouldBlock) => (k, Step::Finished(Ok(SyscallReturn::Blocked))),
    }
}

/// The receiver is handed the message that was delivered to it, with its sender, and is made
/// ready.
pub open spec fn taken(
    k: KernelView,
    caller: ThreadId,
    is_call: bool,
    fast: bool,
    receiver: ThreadId,
    message: Option<(ThreadId, SmallMessage)>,
) -> (KernelView, Step) {
    match message {
        Some((thread, msg)) => (
            KernelView { tcbs: with_message(k.tcbs, thread, msg, Some(caller)), ..k },
            Step::Ask(
                Request::NoteReady { thread },
                Pending::SendWake { caller, is_call, fast, receiver },
            ),
        ),
        None => delivered(k, caller, is_call, fast, receiver),
    }
}

/// The message is delivered. A sender goes on; a caller blocks until it is replied to, and a
/// receiver that was found waiting runs next.
pub open spec fn delivered(
    k: KernelView,
    caller: ThreadId,
    is_call: bool,
    fast: bool,
    receiver: ThreadId,
) -> (KernelView, Step) {
    if is_call {
        (
            KernelView {
                tcbs: with_state(k.tcbs, caller, ThreadState::BlockedOnReply),
                ..k
            },
            Step::Ask(
                Request::Block { thread: caller },
                Pending::Block {
                    next: if fast {
                        Some(receiver)
                    } else {
                        None
                    },
                },
            ),
        )
    } else {
        (k, Step::Finished(Ok(SyscallReturn::Delivered { woke: receiver })))
    }
}

/// The caller is blocked: `next` runs, or whoever the scheduler picks.
pub open spec fn blocked(next: Option<ThreadId>, scheduled: Result<(), SchedError>) -> Step {
    match scheduled {
        Err(e) => failed(SyscallError::Sched(e)),
        Ok(_) => match next {
            Some(_) => Step::Finished(Ok(SyscallReturn::Reschedule { next })),
            None => Step::Ask(Request::PickNext, Pending::Reschedule),
        },
    }
}

/// How a receive starts.
pub open spec fn recv_begun(k: KernelView, caller: ThreadId, endpoint: CapId) -> Step {
    match resolved(
        k,
        caller,
        endpoint,
        KernelObjectKind::Endpoint,
        CapabilityRights { bits: READ_BIT },
    ) {
        Err(e) => failed(e),
        Ok(cap) => {
            let endpoint = EndpointId(cap.object.id.0);
            if slot(k.endpoints, endpoint.0) is None {
                failed(SyscallError::BadCap)
            } else {
                Step::Ask(
                    Request::TryRecv { endpoint, receiver: caller },
                    Pending::RecvTry { caller },
                )
            }
        },
    }
}

/// What receiving came to. The sender of the message becomes runnable, unless it is a caller
/// that awaits its reply.
pub open spec fn received(
    k: KernelView,
    caller: ThreadId,
    outcome: Result<RecvOutcome, EndpointError>,
) -> (KernelView, Step) {
    match outcome {
        Err(_) => (k, failed(SyscallError::Ipc(IpcError::QueueFull))),
        Ok(RecvOutcome::Received { from, msg }) => (
            KernelView {
                tcbs: match slot(k.tcbs, from.0) {
                    Some(t) => if t.state is BlockedOnReply {
                        k.tcbs
                    } else {
                        with_state(k.tcbs, from, ThreadState::Runnable)
                    },
                    None => k.tcbs,
                },
                ..k
            },
            Step::Ask(Request::NoteReady { thread: from }, Pending::RecvWake { from, msg }),
        ),
        Ok(RecvOutcome::ReceiverQueued) => (
            KernelView {
                tcbs: with_state(k.tcbs, caller, ThreadState::BlockedOnRecv),
                ..k
            },
            Step::Ask(Request::Block { thread: caller }, Pending::Block { next: None }),
        ),
        Ok(RecvOutcome::WouldBlock) => (k, Step::Finished(Ok(SyscallReturn::Blocked))),
    }
}

/// How a reply starts. Only a thread that awaits a reply can be replied to, and never oneself.
pub open spec fn reply_begun(k: KernelView, caller: ThreadId, to: ThreadId, msg: SmallMessage) -> Step {
    if caller != to && slot(k.tcbs, to.0) is Some && slot(k.tcbs, to.0)->0.state is BlockedOnReply {
        Step::Ask(Request::Account, Pending::ReplyCharge { caller, to, msg })
    } else {
        failed(SyscallError::NotBlockedOnReply)
    }
}

/// The thread that is replied to is handed the reply and made ready.
pub open spec fn reply_charged(
    k: KernelView,
    caller: ThreadId,
    to: ThreadId,
    msg: SmallMessage,
) -> (KernelView, Step) {
    (
        KernelView { tcbs: with_message(k.tcbs, to, msg, None), ..k },
        Step::Ask(Request::NoteReady { thread: to }, Pending::ReplyWake { caller, to }),
    )
}

/// The replying thread stays ready as well.
pub open spec fn reply_woken(
    caller: ThreadId,
    to: ThreadId,
    scheduled: Result<(), SchedError>,
) -> Step {
    match scheduled {
        Err(e) => failed(SyscallError::Sched(e)),
        Ok(_) => Step::Ask(Request::NoteReady { thread: caller }, Pending::ReplyStay { to }),
    }
}

/// The CPU goes to the thread that was replied to.
pub open spec fn replied(to: ThreadId, scheduled: Result<(), SchedError>) -> Step {
    match scheduled {
        Err(e) => failed(SyscallError::Sched(e)),
        Ok(_) => Step::Finished(Ok(SyscallReturn::Reschedule { next: Some(to) })),
    }
}

impl<const MMIO: usize> KernelState<MMIO> {
    /// Changes the state of a thread, if it exists and has not exited.
    pub(crate) fn set_thread_state(&mut self, thread: ThreadId, state: ThreadState)
        requires
            old(self).wf(),
        ensures
            final(self).wf(),
            final(self)@ == (KernelView {
                tcbs: with_state(old(self)@.tcbs, thread, state),
                ..old(self)@
            }),
    {
        if let Some(t) = self.tcb_mut(thread) {
            if !matches!(t.state, ThreadState::Exited) {
                t.state = state;
            }
        }
    }

    /// Hands a thread a message and makes it runnable, if it exists and has not exited.
    fn deliver(&mut self, thread: ThreadId, msg: SmallMessage, from: Option<ThreadId>)
        requires
            old(self).wf(),
        ensures
            final(self).wf(),
            final(self)@ == (KernelView {
                tcbs: with_message(old(self)@.tcbs, thread, msg, from),
                ..old(self)@
            }),
    {
        if let Some(t) = self.tcb_mut(thread) {
            if !matches!(t.state, ThreadState::Exited) {
                t.pending_msg = Some(msg);
                if from.is_some() {
                    t.pending_from = from;
                }
                t.state = ThreadState::Runnable;
            }
        }
    }

    /// Starts a send, or a call, on an endpoint of `caller`.
    pub fn do_send(
        &self,
        caller: ThreadId,
        endpoint: CapId,
        msg: SmallMessage,
        is_call: bool,
    ) -> (r: Step)
        requires
            self.wf(),
        ensures
            r == send_begun(self@, caller, endpoint, msg, is_call),
    {
        let endpoint = match self.resolve(
            caller,
            endpoint,
            KernelObjectKind::Endpoint,
            if is_call {
                CapabilityRights::rw()
            } else {
                CapabilityRights::write()
            },
        ) {
            Ok(c) => EndpointId::new(c.object.id.as_u32()),
            Err(e) => {
                return Step::Finished(Err(e));
            },
        };
        if self.endpoint(endpoint).is_none() {
            return Step::Finished(Err(SyscallError::BadCap));
        }
        if is_call {
            Step::Ask(
                Request::FastPath { endpoint, msg },
                Pending::CallFast { caller, endpoint, msg },
            )
        } else {
            Step::Ask(
                Request::TrySend { endpoint, sender: caller, msg },
                Pending::SendTry { caller, endpoint, is_call: false, fast: false },
            )
        }
    }

    /// Goes on with a send once the endpoint has answered.
    pub fn after_send(
        &mut self,
        caller: ThreadId,
        endpoint: EndpointId,
        is_call: bool,
        fast: bool,
        outcome: Result<SendOutcome, EndpointError>,
    ) -> (r: Step)
        requires
            old(self).wf(),
        ensures
            final(self).wf(),
            (final(self)@, r) == sent(old(self)@, caller, endpoint, is_call, fast, outcome),
    {
        match outcome {
            Err(e) => Step::Finished(Err(SyscallError::from(e))),
            Ok(SendOutcome::DeliveredTo(receiver)) => Step::Ask(
                Request::TakeDelivered { endpoint },
                Pending::SendTake { caller, is_call, fast, receiver },
            ),
            Ok(SendOutcome::SenderQueued) => {
                let state = if is_call {
                    ThreadState::BlockedOnReply
                } else {
                    ThreadState::BlockedOnSend
                };
                self.set_thread_state(caller, state);
                Step::Ask(Request::Block { thread: caller }, Pending::Block { next: None })
            },
            Ok(SendOutcome::WouldBlock) => Step::Finished(Ok(SyscallReturn::Blocked)),
        }
    }

    /// Goes on with a send once the delivered message was taken out of the endpoint.
    pub fn after_take(
        &mut self,
        caller: ThreadId,
        is_call: bool,
        fast: bool,
        receiver: ThreadId,
        message: Option<(ThreadId, SmallMessage)>,
    ) -> (r: Step)
        requires
            old(self).wf(),
        ensures
            final(self).wf(),
            (final(self)@, r) == taken(old(self)@, caller, is_call, fast, receiver, message),
    {
        match message {
            Some((thread, msg)) => {
                self.deliver(thread, msg, Some(caller));
                Step::Ask(
                    Request::NoteReady { thread },
                    Pending::SendWake { caller, is_call, fast, receiver },
                )
            },
            None => self.after_delivery(caller, is_call, fast, receiver),
        }
    }

    /// Goes on with a send once its message is delivered.
    pub fn after_delivery(
        &mut self,
        caller: ThreadId,
        is_call: bool,
        fast: bool,
        receiver: ThreadId,
    ) -> (r: Step)
        requires
            old(self).wf(),
        ensures
            final(self).wf(),
            (final(self)@, r) == delivered(old(self)@, caller, is_call, fast, receiver),
    {
        if is_call {
            self.set_thread_state(caller, ThreadState::BlockedOnReply);
            let next = if fast {
                Some(receiver)
            } else {
                None
            };
            Step::Ask(Request::Block { thread: caller }, Pending::Block { next })
        } else {
            Step::Finished(Ok(SyscallReturn::Delivered { woke: receiver }))
        }
    }

    /// Starts a receive on an endpoint of `caller`.
    pub fn do_recv(&self, caller: ThreadId, endpoint: CapId) -> (r: Step)
        requires
            self.wf(),
        ensures
            r == recv_begun(self@, caller, endpoint),
    {
        let endpoint = match self.resolve(
            caller,
            endpoint,
            KernelObjectKind::Endpoint,
            CapabilityRights::read(),
        ) {
            Ok(c) => EndpointId::new(c.object.id.as_u32()),
            Err(e) => {
                return Step::Finished(Err(e));
            },
        };
        if self.endpoint(endpoint).is_none() {
            return Step::Finished(Err(SyscallError::BadCap));
        }
        Step::Ask(Request::TryRecv { endpoint, receiver: caller }, Pending::RecvTry { caller })
    }

    /// Goes on with a receive once the endpoint has answered.
    pub fn after_recv(&mut self, caller: ThreadId, outcome: Result<RecvOutcome, EndpointError>) -> (r:
        Step)
        requires
            old(self).wf(),
        ensures
            final(self).wf(),
            (final(self)@, r) == received(old(self)@, caller, outcome),
    {
        match outcome {
            Err(e) => Step::Finished(Err(SyscallError::from(e))),
            Ok(RecvOutcome::Received { from, msg }) => {
                let awaits_reply = match self.tcb(from) {
                    Some(t) => matches!(t.state, ThreadState::BlockedOnReply),
                    None => true,
                };
                if !awaits_reply {
                    self.set_thread_state(from, ThreadState::Runnable);
                }
                Step::Ask(Request::NoteReady { thread: from }, Pending::RecvWake { from, msg })
            },
            Ok(RecvOutcome::ReceiverQueued) => {
                self.set_thread_state(caller, ThreadState::BlockedOnRecv);
                Step::Ask(Request::Block { thread: caller }, Pending::Block { next: None })
            },
            Ok(RecvOutcome::WouldBlock) => Step::Finished(Ok(SyscallReturn::Blocked)),
        }
    }

    /// Starts a reply of `caller` to `to`.
    pub fn do_reply(&self, caller: ThreadId, to: ThreadId, msg: SmallMessage) -> (r: Step)
        requires
            self.wf(),
        ensures
            r == reply_begun(self@, caller, to, msg),
    {
        if caller == to {
            return Step::Finished(Err(SyscallError::NotBlockedOnReply));
        }
        let awaits_reply = match self.tcb(to) {
            Some(t) => matches!(t.state, ThreadState::BlockedOnReply),
            None => false,
        };
        if !awaits_reply {
            return Step::Finished(Err(SyscallError::NotBlockedOnReply));
        }
        Step::Ask(Request::Account, Pending::ReplyCharge { caller, to, msg })
    }

    /// Goes on with a reply once the replying thread was charged.
    pub fn after_charge(&mut self, caller: ThreadId, to: ThreadId, msg: SmallMessage) -> (r: Step)
        requires
            old(self).wf(),
        ensures
            final(self).wf(),
            (final(self)@, r) == reply_charged(old(self)@, caller, to, msg),
    {
        self.deliver(to, msg, None);
        Step::Ask(Request::NoteReady { thread: to }, Pending::ReplyWake { caller, to })
    }
}

} // verus!
