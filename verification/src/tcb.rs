//! The kernel's record of one thread.

use crate::ids::{CapSpaceId, PageTableId, ThreadId};
use crate::message::SmallMessage;
use vstd::prelude::*;

verus! {

/// Lifecycle state of a thread.
#[derive(Debug, Clone, Copy, PartialEq, Eq, Structural)]
pub enum ThreadState {
    /// Created, never started.
    Inactive,
    /// Eligible to run.
    Runnable,
    /// In an endpoint's send queue, awaiting a receiver.
    BlockedOnSend,
    /// In an endpoint's receive queue, awaiting a sender.
    BlockedOnRecv,
    /// Delivered a call and awaits its reply.
    BlockedOnReply,
    /// Waits on a notification.
    BlockedOnNotification,
    /// Terminated.
    Exited,
}

impl ThreadState {
    /// The thread waits for something.
    pub open spec fn waits(self) -> bool {
        self is BlockedOnSend || self is BlockedOnRecv || self is BlockedOnReply
            || self is BlockedOnNotification
    }

    /// Whether the thread is in one of the blocked states.
    pub fn is_blocked(self) -> (r: bool)
        ensures
            r == self.waits(),
    {
        matches!(
            self,
            Self::BlockedOnSend | Self::BlockedOnRecv | Self::BlockedOnReply
                | Self::BlockedOnNotification
        )
    }
}

/// Why a thread terminated.
#[derive(Debug, Clone, Copy, PartialEq, Eq, Structural)]
pub enum ThreadExit {
    /// It terminated voluntarily and in order.
    Clean {
        /// Self-reported status, `0` for success. The kernel does not interpret it.
        code: u32,
    },
    /// The kernel terminated it after a fatal exception.
    Faulted {
        /// Raw, architecture-specific trap cause.
        cause: u64,
    },
    /// It terminated and no reason was recorded.
    Unknown,
}

impl ThreadExit {
    /// The thread did not end as it should.
    pub open spec fn fails(self) -> bool {
        self != (ThreadExit::Clean { code: 0 })
    }

    /// Whether a supervisor that restarts on failure should count this exit as one. An exit
    /// for an unrecorded reason counts as a failure.
    pub fn is_failure(self) -> (r: bool)
        ensures
            r == self.fails(),
    {
        match self {
            Self::Clean { code } => code != 0,
            Self::Faulted { .. } | Self::Unknown => true,
        }
    }
}

/// The kernel's control block of one thread. The saved register contexts are kept by the
/// architecture layer, which alone can interpret them.
#[derive(Debug, Clone, Copy)]
pub struct Tcb {
    /// This thread's id, its index in the thread table.
    pub id: ThreadId,
    /// The capability space that this thread's capability arguments are resolved in.
    pub cap_space: CapSpaceId,
    /// The address space that this thread executes in.
    pub addr_space: PageTableId,
    /// Initial instruction pointer, `0` while no image is loaded.
    pub entry: usize,
    /// Lifecycle state.
    pub state: ThreadState,
    /// A message delivered while this thread was blocked.
    pub pending_msg: Option<SmallMessage>,
    /// Who sent `pending_msg`, where the receiver has no other way to learn it.
    pub pending_from: Option<ThreadId>,
    /// The thread that created this one. Set once, at allocation.
    pub spawner: Option<ThreadId>,
    /// Why this thread terminated. Set exactly when it is `Exited`, and never changed then.
    pub exit: Option<ThreadExit>,
}

/// A thread control block that has never been started.
pub open spec fn inactive_tcb(
    id: ThreadId,
    cap_space: CapSpaceId,
    addr_space: PageTableId,
    spawner: Option<ThreadId>,
) -> Tcb {
    Tcb {
        id,
        cap_space,
        addr_space,
        entry: 0,
        state: ThreadState::Inactive,
        pending_msg: None,
        pending_from: None,
        spawner,
        exit: None,
    }
}

impl Tcb {
    /// The exit reason is there exactly if the thread terminated.
    pub open spec fn exit_recorded(self) -> bool {
        self.exit is Some <==> self.state is Exited
    }

    /// A never-started thread that nothing spawned.
    pub fn new_inactive(id: ThreadId, cap_space: CapSpaceId, addr_space: PageTableId) -> (t: Self)
        ensures
            t == inactive_tcb(id, cap_space, addr_space, None),
            t.exit_recorded(),
    {
        Self::new_inactive_spawned_by(id, cap_space, addr_space, None)
    }

    /// A never-started thread that `spawner` created.
    pub fn new_inactive_spawned_by(
        id: ThreadId,
        cap_space: CapSpaceId,
        addr_space: PageTableId,
        spawner: Option<ThreadId>,
    ) -> (t: Self)
        ensures
            t == inactive_tcb(id, cap_space, addr_space, spawner),
            t.exit_recorded(),
    {
        Tcb {
            id,
            cap_space,
            addr_space,
            entry: 0,
            state: ThreadState::Inactive,
            pending_msg: None,
            pending_from: None,
            spawner,
            exit: None,
        }
    }
}

/// A thread waits unless it was never started, can run, or has exited; and it has failed unless it
/// ended by itself with code zero.
pub proof fn threads_wait_or_end_in_one_way(state: ThreadState, exit: ThreadExit, n: u32, cause: u64)
    ensures
        state.waits() <==> !(state is Inactive || state is Runnable || state is Exited),
        (ThreadExit::Clean { code: n }).fails() <==> n != 0,
        (ThreadExit::Faulted { cause }).fails(),
        ThreadExit::Unknown.fails(),
{
}

} // verus!
