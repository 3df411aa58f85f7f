//! The one entry point of all system calls, and the one through which they are resumed.

use crate::capability::KernelObjectKind;
use crate::grant::{granted, revoked};
use crate::ids::{CapId, ThreadId, UntypedId};
use crate::ipc::{
    blocked, delivered, failed, received, recv_begun, replied, reply_begun, reply_charged,
    reply_woken, send_begun, sent, taken, try_send,
};
use crate::mapping::{map_begun, map_recorded, map_walked};
use crate::notify::{
    after_signal, after_wait_poll, after_wake, irq_bind_begun, poll_begun, signal_begun,
    signal_over, signal_taken, signalled, wait_added, wait_begun, wait_polled,
};
use crate::objects::{KernelObjectType, MmError};
use crate::retype::{grant_fits, retyped};
use crate::rights::{CapabilityRights, WRITE_BIT};
use crate::state::{slot, KernelState, KernelView};
use crate::syscall::{
    resolved, Pending, Reply, Request, Step, SyscallError, SyscallOp, SyscallReturn,
};
use vstd::prelude::*;

verus! {

/// How a retype starts: memory is reserved in the untyped memory object named.
pub open spec fn retype_begun(
    k: KernelView,
    caller: ThreadId,
    untyped: CapId,
    target_type: KernelObjectType,
    count: u32,
) -> Step {
    match resolved(
        k,
        caller,
        untyped,
        KernelObjectKind::UntypedMemory,
        CapabilityRights { bits: WRITE_BIT },
    ) {
        Err(e) => failed(e),
        Ok(cap) => if slot(k.untyped, cap.object.id.0) is None {
            failed(SyscallError::BadCap)
        } else {
            Step::Ask(
                Request::Reserve { untyped: UntypedId(cap.object.id.0), target_type, count },
                Pending::Retype { caller, target_type },
            )
        },
    }
}

/// The first step of a system call.
pub open spec fn dispatched(k: KernelView, caller: ThreadId, op: SyscallOp) -> (KernelView, Step) {
    match op {
        SyscallOp::Yield => (k, Step::Ask(Request::AccountAndPick, Pending::Reschedule)),
        SyscallOp::CapRevoke { cap } => {
            let (after, result) = revoked(k, caller, cap);
            (after, Step::Finished(result))
        },
        SyscallOp::CapGrant { target_thread, cap, rights } => {
            let (after, result) = granted(k, caller, target_thread, cap, rights);
            (after, Step::Finished(result))
        },
        SyscallOp::Retype { untyped, target_type, count } => (
            k,
            retype_begun(k, caller, untyped, target_type, count),
        ),
        SyscallOp::MapPage { page_table, frame, vaddr, perms } => (
            k,
            map_begun(k, caller, page_table, frame, vaddr, perms),
        ),
        SyscallOp::Send { endpoint, msg } => (k, send_begun(k, caller, endpoint, msg, false)),
        SyscallOp::Call { endpoint, msg } => (k, send_begun(k, caller, endpoint, msg, true)),
        SyscallOp::Recv { endpoint } => (k, recv_begun(k, caller, endpoint)),
        SyscallOp::Reply { to, msg } => (k, reply_begun(k, caller, to, msg)),
        SyscallOp::Signal { notification, bits } => (k, signal_begun(k, caller, notification, bits)),
        SyscallOp::Wait { notification } => (k, wait_begun(k, caller, notification)),
        SyscallOp::Poll { notification } => (k, poll_begun(k, caller, notification)),
        SyscallOp::IrqBind { mmio, notification } => irq_bind_begun(k, caller, mmio, notification),
    }
}

/// A later step of a system call. A reply that is not one to the request that is out ends the
/// call.
pub open spec fn resumed(k: KernelView, pending: Pending, reply: Reply) -> (KernelView, Step) {
    match (pending, reply) {
        (Pending::Reschedule, Reply::Picked(next)) => (
            k,
            Step::Finished(Ok(SyscallReturn::Reschedule { next })),
        ),
        (Pending::Retype { caller, target_type }, Reply::Reserved { grant, running }) => match grant {
            Err(e) => (k, failed(SyscallError::Mm(e))),
            Ok(grant) => {
                let (after, result) = retyped(k, caller, target_type, grant, running);
                (after, Step::Finished(result))
            },
        },
        (
            Pending::MapRecord { space, root_phys, vaddr, frame_phys, perms },
            Reply::PageRecorded(recorded),
        ) => (k, map_recorded(k, space, root_phys, vaddr, frame_phys, perms, recorded)),
        (Pending::MapWalk { space, vaddr }, Reply::Walked(consumed)) => map_walked(
            k,
            space,
            vaddr,
            consumed,
        ),
        (Pending::MapUndo, Reply::Done) => (
            k,
            failed(SyscallError::Mm(MmError::HardwareMapFailed)),
        ),
        (Pending::MapFlush, Reply::Done) => (k, Step::Finished(Ok(SyscallReturn::Mapped))),
        (Pending::CallFast { caller, endpoint, msg }, Reply::Eligible(fast)) => (
            k,
            try_send(caller, endpoint, msg, true, fast),
        ),
        (Pending::SendTry { caller, endpoint, is_call, fast }, Reply::Sent(outcome)) => sent(
            k,
            caller,
            endpoint,
            is_call,
            fast,
            outcome,
        ),
        (Pending::SendTake { caller, is_call, fast, receiver }, Reply::Taken(message)) => taken(
            k,
            caller,
            is_call,
            fast,
            receiver,
            message,
        ),
        (Pending::SendWake { caller, is_call, fast, receiver }, Reply::Scheduled(scheduled)) => {
            match scheduled {
                Err(e) => (k, failed(SyscallError::Sched(e))),
                Ok(_) => delivered(k, caller, is_call, fast, receiver),
            }
        },
        (Pending::Block { next }, Reply::Scheduled(scheduled)) => (k, blocked(next, scheduled)),
        (Pending::RecvTry { caller }, Reply::Received(outcome)) => received(k, caller, outcome),
        (Pending::RecvWake { from, msg }, Reply::Scheduled(_)) => (
            k,
            Step::Finished(Ok(SyscallReturn::Message { from, msg })),
        ),
        (Pending::ReplyCharge { caller, to, msg }, Reply::Done) => reply_charged(k, caller, to, msg),
        (Pending::ReplyWake { caller, to }, Reply::Scheduled(scheduled)) => (
            k,
            reply_woken(caller, to, scheduled),
        ),
        (Pending::ReplyStay { to }, Reply::Scheduled(scheduled)) => (k, replied(to, scheduled)),
        (Pending::Signal { notification }, Reply::Woke(woken)) => (
            k,
            signalled(notification, woken),
        ),
        (Pending::SignalTake { woken }, Reply::Bits(value)) => signal_taken(k, woken, value),
        (Pending::SignalWake { woken, value }, Reply::Done) => (
            k,
            Step::Finished(Ok(signal_over(woken, value))),
        ),
        (Pending::Wait { caller, notification }, Reply::Bits(bits)) => (
            k,
            wait_polled(caller, notification, bits),
        ),
        (Pending::WaitAdd { caller }, Reply::Waiting(added)) => wait_added(k, caller, added),
        (Pending::WaitBlock, Reply::Scheduled(_)) => (
            k,
            Step::Finished(Ok(SyscallReturn::Blocked)),
        ),
        (Pending::Poll, Reply::Bits(bits)) => (
            k,
            Step::Finished(Ok(SyscallReturn::Value(bits))),
        ),
        (Pending::IrqInstall, Reply::IrqInstalled(installed)) => (
            k,
            if installed {
                Step::Finished(Ok(SyscallReturn::Done))
            } else {
                failed(SyscallError::IrqRegistrationFailed)
            },
        ),
        _ => (k, failed(SyscallError::Unsupported)),
    }
}

/// The numbers in a reply make sense: a reserved range is one of addresses, and a page-table
/// walk used no more scratch frames than it was given.
pub open spec fn reply_fits(k: KernelView, pending: Pending, reply: Reply) -> bool {
    match (pending, reply) {
        (Pending::Retype { .. }, Reply::Reserved { grant: Ok(grant), .. }) => grant_fits(grant),
        (Pending::MapWalk { .. }, Reply::Walked(consumed)) => consumed == u32::MAX || consumed
            <= k.map_pool.len - k.map_pool.used,
        _ => true,
    }
}

impl<const MMIO: usize> KernelState<MMIO> {
    /// Starts a retype out of an untyped memory object of `caller`.
    fn begin_retype(
        &self,
        caller: ThreadId,
        untyped: CapId,
        target_type: KernelObjectType,
        count: u32,
    ) -> (r: Step)
        requires
            self.wf(),
        ensures
            r == retype_begun(self@, caller, untyped, target_type, count),
    {
        let id = match self.resolve(
            caller,
            untyped,
            KernelObjectKind::UntypedMemory,
            CapabilityRights::write(),
        ) {
            Ok(c) => UntypedId::new(c.object.id.as_u32()),
            Err(e) => {
                return Step::Finished(Err(e));
            },
        };
        if self.untyped(id).is_none() {
            return Step::Finished(Err(SyscallError::BadCap));
        }
        Step::Ask(
            Request::Reserve { untyped: id, target_type, count },
            Pending::Retype { caller, target_type },
        )
    }

    /// Starts a system call of `caller`.
    pub fn dispatch(&mut self, caller: ThreadId, op: SyscallOp) -> (r: Step)
        requires
            old(self).wf(),
        ensures
            final(self).wf(),
            (final(self)@, r) == dispatched(old(self)@, caller, op),
    {
        match op {
            SyscallOp::Yield => Step::Ask(Request::AccountAndPick, Pending::Reschedule),
            SyscallOp::CapRevoke { cap } => Step::Finished(self.do_cap_revoke(caller, cap)),
            SyscallOp::CapGrant { target_thread, cap, rights } => Step::Finished(
                self.do_cap_grant(caller, target_thread, cap, rights),
            ),
            SyscallOp::Retype { untyped, target_type, count } => self.begin_retype(
                caller,
                untyped,
                target_type,
                count,
            ),
            SyscallOp::MapPage { page_table, frame, vaddr, perms } => self.do_map(
                caller,
                page_table,
                frame,
                vaddr,
                perms,
            ),
            SyscallOp::Send { endpoint, msg } => self.do_send(caller, endpoint, msg, false),
            SyscallOp::Call { endpoint, msg } => self.do_send(caller, endpoint, msg, true),
            SyscallOp::Recv { endpoint } => self.do_recv(caller, endpoint),
            SyscallOp::Reply { to, msg } => self.do_reply(caller, to, msg),
            SyscallOp::Signal { notification, bits } => self.do_signal(caller, notification, bits),
            SyscallOp::Wait { notification } => self.do_wait(caller, notification),
            SyscallOp::Poll { notification } => self.do_poll(caller, notification),
            SyscallOp::IrqBind { mmio, notification } => self.do_irq_bind(
                caller,
                mmio,
                notification,
            ),
        }
    }

    /// Goes on with a system call once its request was performed.
    pub fn resume(&mut self, pending: Pending, reply: Reply) -> (r: Step)
        requires
            old(self).wf(),
            reply_fits(old(self)@, pending, reply),
        ensures
            final(self).wf(),
            (final(self)@, r) == resumed(old(self)@, pending, reply),
    {
        match (pending, reply) {
            (Pending::Reschedule, Reply::Picked(next)) => Step::Finished(
                Ok(SyscallReturn::Reschedule { next }),
            ),
            (Pending::Retype { caller, target_type }, Reply::Reserved { grant, running }) => {
                match grant {
                    Err(e) => Step::Finished(Err(SyscallError::from(e))),
                    Ok(grant) => Step::Finished(
                        self.do_retype(caller, target_type, grant, running),
                    ),
                }
            },
            (
                Pending::MapRecord { space, root_phys, vaddr, frame_phys, perms },
                Reply::PageRecorded(recorded),
            ) => self.after_record(space, root_phys, vaddr, frame_phys, perms, recorded),
            (Pending::MapWalk { space, vaddr }, Reply::Walked(consumed)) => self.after_walk(
                space,
                vaddr,
                consumed,
            ),
            (Pending::MapUndo, Reply::Done) => Step::Finished(
                Err(SyscallError::Mm(MmError::HardwareMapFailed)),
            ),
            (Pending::MapFlush, Reply::Done) => Step::Finished(Ok(SyscallReturn::Mapped)),
            (Pending::CallFast { caller, endpoint, msg }, Reply::Eligible(fast)) => Step::Ask(
                Request::TrySend { endpoint, sender: caller, msg },
                Pending::SendTry { caller, endpoint, is_call: true, fast },
            ),
            (Pending::SendTry { caller, endpoint, is_call, fast }, Reply::Sent(outcome)) => {
                self.after_send(caller, endpoint, is_call, fast, outcome)
            },
            (Pending::SendTake { caller, is_call, fast, receiver }, Reply::Taken(message)) => {
                self.after_take(caller, is_call, fast, receiver, message)
            },
            (Pending::SendWake { caller, is_call, fast, receiver }, Reply::Scheduled(scheduled)) => {
                match scheduled {
                    Err(e) => Step::Finished(Err(SyscallError::from(e))),
                    Ok(_) => self.after_delivery(caller, is_call, fast, receiver),
                }
            },
            (Pending::Block { next }, Reply::Scheduled(scheduled)) => match scheduled {
                Err(e) => Step::Finished(Err(SyscallError::from(e))),
                Ok(_) => match next {
                    Some(_) => Step::Finished(Ok(SyscallReturn::Reschedule { next })),
                    None => Step::Ask(Request::PickNext, Pending::Reschedule),
                },
            },
            (Pending::RecvTry { caller }, Reply::Received(outcome)) => self.after_recv(
                caller,
                outcome,
            ),
            (Pending::RecvWake { from, msg }, Reply::Scheduled(_)) => Step::Finished(
                Ok(SyscallReturn::Message { from, msg }),
            ),
            (Pending::ReplyCharge { caller, to, msg }, Reply::Done) => self.after_charge(
                caller,
                to,
                msg,
            ),
            (Pending::ReplyWake { caller, to }, Reply::Scheduled(scheduled)) => match scheduled {
                Err(e) => Step::Finished(Err(SyscallError::from(e))),
                Ok(_) => Step::Ask(
                    Request::NoteReady { thread: caller },
                    Pending::ReplyStay { to },
                ),
            },
            (Pending::ReplyStay { to }, Reply::Scheduled(scheduled)) => match scheduled {
                Err(e) => Step::Finished(Err(SyscallError::from(e))),
                Ok(_) => Step::Finished(Ok(SyscallReturn::Reschedule { next: Some(to) })),
            },
            (Pending::Signal { notification }, Reply::Woke(woken)) => after_signal(
                notification,
                woken,
            ),
            (Pending::SignalTake { woken }, Reply::Bits(value)) => self.after_signal_take(
                woken,
                value,
            ),
            (Pending::SignalWake { woken, value }, Reply::Done) => Step::Finished(
                Ok(after_wake(woken, value)),
            ),
            (Pending::Wait { caller, notification }, Reply::Bits(bits)) => after_wait_poll(
                caller,
                notification,
                bits,
            ),
            (Pending::WaitAdd { caller }, Reply::Waiting(added)) => self.after_wait_add(
                caller,
                added,
            ),
            (Pending::WaitBlock, Reply::Scheduled(_)) => Step::Finished(Ok(SyscallReturn::Blocked)),
            (Pending::Poll, Reply::Bits(bits)) => Step::Finished(Ok(SyscallReturn::Value(bits))),
            (Pending::IrqInstall, Reply::IrqInstalled(installed)) => {
                if installed {
                    Step::Finished(Ok(SyscallReturn::Done))
                } else {
                    Step::Finished(Err(SyscallError::IrqRegistrationFailed))
                }
            },
            _ => Step::Finished(Err(SyscallError::Unsupported)),
        }
    }
}

} // verus!
