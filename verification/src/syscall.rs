//! The system calls: what a thread can ask for, what it is answered, and what the kernel asks
//! of the layers around it on the way.
//!
//! A system call runs in steps. Each step works on the kernel's tables alone and ends either
//! with the call's result or with one request to the scheduler, the IPC queues, the memory
//! layer or the hardware. The caller performs the request and resumes the call with the reply.

use crate::capability::{Capability, KernelObjectKind};
use crate::cdt::{CapEntry, CapTableError, CapTableView};
use crate::config::NOTIF_WAITERS;
use crate::ids::{
    CapId, CapSpaceId, EndpointId, NotificationId, PageTableId, ThreadId, UntypedId,
};
use crate::message::SmallMessage;
use crate::objects::{
    EndpointError, IpcError, KernelObjectType, MapPermissions, MmError, NotificationError,
    SchedError,
};
use crate::rights::CapabilityRights;
use crate::state::{slot, KernelState, KernelView};
use vstd::prelude::*;

verus! {

/// What a thread can ask the kernel for. Capabilities are resolved in the calling thread's
/// capability space.
#[derive(Debug, Clone, Copy, PartialEq, Eq)]
pub enum SyscallOp {
    /// Send a message; block if no receiver is waiting. Needs `WRITE`.
    Send {
        /// An endpoint.
        endpoint: CapId,
        /// The message.
        msg: SmallMessage,
    },
    /// Receive a message; block if no sender is waiting. Needs `READ`.
    Recv {
        /// An endpoint.
        endpoint: CapId,
    },
    /// Send a message and block for the reply. Needs `READ` and `WRITE`.
    Call {
        /// An endpoint.
        endpoint: CapId,
        /// The request.
        msg: SmallMessage,
    },
    /// Answer a thread that is blocked on a reply and hand the CPU to it.
    Reply {
        /// The caller to wake.
        to: ThreadId,
        /// The reply.
        msg: SmallMessage,
    },
    /// Give up the CPU.
    Yield,
    /// Copy `cap`, narrowed to `rights`, into the capability space of a thread. Needs `GRANT`
    /// on `cap` and `WRITE` on the thread.
    CapGrant {
        /// A thread control block.
        target_thread: CapId,
        /// The capability to copy.
        cap: CapId,
        /// Rights of the copy.
        rights: CapabilityRights,
    },
    /// Revoke `cap` and everything derived from it. Needs `REVOKE`.
    CapRevoke {
        /// The capability to revoke.
        cap: CapId,
    },
    /// Create objects out of untyped memory. Needs `WRITE`.
    Retype {
        /// An untyped memory object.
        untyped: CapId,
        /// What to create.
        target_type: KernelObjectType,
        /// How many; for a shared region, how many pages it spans.
        count: u32,
    },
    /// Map a page. Needs `WRITE` on the address space and rights on the frame that match the
    /// permissions.
    MapPage {
        /// An address space.
        page_table: CapId,
        /// An untyped memory object or a device window.
        frame: CapId,
        /// Virtual address to map at.
        vaddr: usize,
        /// What the mapping allows.
        perms: MapPermissions,
    },
    /// Set bits in a notification's signal word and wake its waiters. Needs `WRITE`.
    Signal {
        /// A notification.
        notification: CapId,
        /// The bits.
        bits: u64,
    },
    /// Take a notification's signal bits; block until there are some. Needs `READ`.
    Wait {
        /// A notification.
        notification: CapId,
    },
    /// Take a notification's signal bits without blocking. Needs `READ`.
    Poll {
        /// A notification.
        notification: CapId,
    },
    /// Have a device's interrupt line signal a notification. Needs `WRITE` on both.
    IrqBind {
        /// A device window; its interrupt line is the one that is bound.
        mmio: CapId,
        /// A notification.
        notification: CapId,
    },
}

/// How a system call ended.
#[derive(Debug, Clone, Copy, PartialEq, Eq)]
pub enum SyscallReturn {
    /// Done, with no value.
    Done,
    /// Done, with a value for the caller.
    Value(u64),
    /// `count` objects were created, with capabilities at `cap` and the slots after it.
    NewCaps {
        /// First new slot.
        cap: CapId,
        /// How many.
        count: u32,
    },
    /// A revocation freed this many slots.
    Revoked {
        /// Slots freed.
        freed: u32,
    },
    /// A copy was stored in the target thread's space.
    Granted {
        /// The slot there.
        dst: CapId,
    },
    /// The page is mapped.
    Mapped,
    /// The caller must block.
    Blocked,
    /// The message was delivered and its receiver made runnable. The caller goes on.
    Delivered {
        /// The receiver.
        woke: ThreadId,
    },
    /// A signal woke one waiter, which is to be handed the signal bits.
    DeliveredValue {
        /// The waiter.
        woke: ThreadId,
        /// The signal bits, taken out of the notification.
        value: u64,
    },
    /// A message was received.
    Message {
        /// The sender.
        from: ThreadId,
        /// The message.
        msg: SmallMessage,
    },
    /// The caller gives up the CPU to `next`, or idles.
    Reschedule {
        /// The thread to run.
        next: Option<ThreadId>,
    },
}

/// Why a system call failed.
#[derive(Debug, Clone, Copy, PartialEq, Eq, Structural)]
pub enum SyscallError {
    /// The calling thread does not exist.
    NoCaller,
    /// A capability argument names an empty slot, or the object behind it is gone.
    BadCap,
    /// A capability names an object of the wrong kind.
    WrongObjectKind,
    /// A capability lacks a right.
    InsufficientRights,
    /// The table of the objects to create is full.
    ObjectTableFull,
    /// The capability table refused.
    Cap(CapTableError),
    /// The memory layer refused.
    Mm(MmError),
    /// The IPC layer refused.
    Ipc(IpcError),
    /// The scheduler refused.
    Sched(SchedError),
    /// The thread to reply to awaits no reply.
    NotBlockedOnReply,
    /// The notification refused.
    Notify(NotificationError),
    /// The interrupt controller refused the line.
    IrqRegistrationFailed,
    /// The objects or capabilities of a batch could not be numbered one after the other.
    RetypeNotContiguous,
    /// The operation is not supported.
    Unsupported,
}

impl From<CapTableError> for SyscallError {
    fn from(e: CapTableError) -> (r: Self) {
        SyscallError::Cap(e)
    }
}

impl vstd::std_specs::convert::FromSpecImpl<CapTableError> for SyscallError {
    open spec fn obeys_from_spec() -> bool {
        true
    }

    open spec fn from_spec(e: CapTableError) -> Self {
        SyscallError::Cap(e)
    }
}

impl From<MmError> for SyscallError {
    fn from(e: MmError) -> (r: Self) {
        SyscallError::Mm(e)
    }
}

impl vstd::std_specs::convert::FromSpecImpl<MmError> for SyscallError {
    open spec fn obeys_from_spec() -> bool {
        true
    }

    open spec fn from_spec(e: MmError) -> Self {
        SyscallError::Mm(e)
    }
}

impl From<IpcError> for SyscallError {
    fn from(e: IpcError) -> (r: Self) {
        SyscallError::Ipc(e)
    }
}

impl vstd::std_specs::convert::FromSpecImpl<IpcError> for SyscallError {
    open spec fn obeys_from_spec() -> bool {
        true
    }

    open spec fn from_spec(e: IpcError) -> Self {
        SyscallError::Ipc(e)
    }
}

impl From<NotificationError> for SyscallError {
    fn from(e: NotificationError) -> (r: Self) {
        SyscallError::Notify(e)
    }
}

impl vstd::std_specs::convert::FromSpecImpl<NotificationError> for SyscallError {
    open spec fn obeys_from_spec() -> bool {
        true
    }

    open spec fn from_spec(e: NotificationError) -> Self {
        SyscallError::Notify(e)
    }
}

impl From<EndpointError> for SyscallError {
    /// A full wait queue is the only way an endpoint fails.
    fn from(e: EndpointError) -> (r: Self) {
        match e {
            EndpointError::QueueFull => SyscallError::Ipc(IpcError::QueueFull),
        }
    }
}

impl vstd::std_specs::convert::FromSpecImpl<EndpointError> for SyscallError {
    open spec fn obeys_from_spec() -> bool {
        true
    }

    open spec fn from_spec(e: EndpointError) -> Self {
        SyscallError::Ipc(IpcError::QueueFull)
    }
}

impl From<SchedError> for SyscallError {
    fn from(e: SchedError) -> (r: Self) {
        SyscallError::Sched(e)
    }
}

impl vstd::std_specs::convert::FromSpecImpl<SchedError> for SyscallError {
    open spec fn obeys_from_spec() -> bool {
        true
    }

    open spec fn from_spec(e: SchedError) -> Self {
        SyscallError::Sched(e)
    }
}

/// What sending on an endpoint came to.
#[derive(Debug, Clone, Copy, PartialEq, Eq, Structural)]
pub enum SendOutcome {
    /// A receiver was waiting and takes the message.
    DeliveredTo(ThreadId),
    /// The sender was queued.
    SenderQueued,
    /// The sender would have to block but was not queued.
    WouldBlock,
}

/// What receiving on an endpoint came to.
#[derive(Debug, Clone, Copy, PartialEq, Eq)]
pub enum RecvOutcome {
    /// A sender was queued.
    Received {
        /// The sender.
        from: ThreadId,
        /// Its message.
        msg: SmallMessage,
    },
    /// The receiver was queued.
    ReceiverQueued,
    /// The receiver would have to block but was not queued.
    WouldBlock,
}

/// The physical range that was reserved for a retype.
#[derive(Debug, Clone, Copy, PartialEq, Eq, Structural)]
pub struct RetypeGrant {
    /// First physical address.
    pub phys_base: u64,
    /// Length in bytes.
    pub phys_len: u64,
    /// Number of objects it was reserved for.
    pub count: u32,
    /// Bytes per object.
    pub object_bytes: u64,
}

/// The threads that a signal woke.
#[derive(Debug, Clone, Copy, PartialEq, Eq)]
pub struct Woken {
    /// Room for the threads.
    pub threads: [ThreadId; NOTIF_WAITERS],
    /// How many there are.
    pub len: usize,
}

/// What the kernel asks of the layers around it.
#[derive(Debug, Clone, Copy, PartialEq, Eq)]
pub enum Request {
    /// Charge the running thread for its time. Reply: `Done`.
    Account,
    /// Charge the running thread, then pick the thread to run next. Reply: `Picked`.
    AccountAndPick,
    /// Pick the thread to run next. Reply: `Picked`.
    PickNext,
    /// Make a thread ready. Reply: `Scheduled`.
    NoteReady {
        /// The thread.
        thread: ThreadId,
    },
    /// Charge the running thread, then take a thread out of the ready ones. Reply: `Scheduled`.
    Block {
        /// The thread.
        thread: ThreadId,
    },
    /// Make every one of these threads ready. Reply: `Done`.
    WakeAll {
        /// The threads.
        woken: Woken,
    },
    /// Reserve memory for `count` objects. Reply: `Reserved`.
    Reserve {
        /// The untyped memory object to take it from.
        untyped: UntypedId,
        /// What it is for.
        target_type: KernelObjectType,
        /// For how many.
        count: u32,
    },
    /// Record a mapping of one page in an address space. Reply: `PageRecorded`.
    RecordPage {
        /// The address space.
        space: PageTableId,
        /// Virtual address.
        vaddr: usize,
        /// Physical address.
        frame_phys: u64,
        /// What the mapping allows.
        perms: MapPermissions,
    },
    /// Forget a mapping. Reply: `Done`.
    ForgetPage {
        /// The address space.
        space: PageTableId,
        /// Virtual address.
        vaddr: usize,
    },
    /// Write a mapping of one page into the hardware's page tables. Reply: `Walked`.
    WalkPage {
        /// Physical address of the root page table.
        root_phys: u64,
        /// Virtual address.
        vaddr: usize,
        /// Physical address.
        frame_phys: u64,
        /// Read is 1, write is 2, execute is 4, user is 8.
        perm_bits: usize,
        /// Where unused scratch frames start.
        pool_base: usize,
        /// How many there are.
        pool_len: usize,
    },
    /// Discard stale address translations. Reply: `Done`.
    FlushTlb,
    /// Whether a call would find its receiver waiting. Reply: `Eligible`.
    FastPath {
        /// The endpoint.
        endpoint: EndpointId,
        /// The message.
        msg: SmallMessage,
    },
    /// Send on an endpoint, queueing the sender if need be. Reply: `Sent`.
    TrySend {
        /// The endpoint.
        endpoint: EndpointId,
        /// The sender.
        sender: ThreadId,
        /// The message.
        msg: SmallMessage,
    },
    /// Take the message that was just delivered. Reply: `Taken`.
    TakeDelivered {
        /// The endpoint.
        endpoint: EndpointId,
    },
    /// Receive on an endpoint, queueing the receiver if need be. Reply: `Received`.
    TryRecv {
        /// The endpoint.
        endpoint: EndpointId,
        /// The receiver.
        receiver: ThreadId,
    },
    /// Set signal bits. Reply: `Woke`.
    SignalBits {
        /// The notification.
        notification: NotificationId,
        /// The bits.
        bits: u64,
    },
    /// Take the signal bits. Reply: `Bits`.
    TakeBits {
        /// The notification.
        notification: NotificationId,
    },
    /// Put a thread on the list of waiters. Reply: `Waiting`.
    AddWaiter {
        /// The notification.
        notification: NotificationId,
        /// The thread.
        thread: ThreadId,
    },
    /// Install the interrupt handler for a line. Reply: `IrqInstalled`.
    InstallIrq {
        /// The line.
        irq: u32,
    },
}

/// What came of a request.
#[derive(Debug, Clone, Copy, PartialEq, Eq)]
pub enum Reply {
    /// It was done.
    Done,
    /// The thread to run next.
    Picked(Option<ThreadId>),
    /// Whether the scheduler went along.
    Scheduled(Result<(), SchedError>),
    /// The range reserved, and the thread that is running.
    Reserved {
        /// The range.
        grant: Result<RetypeGrant, MmError>,
        /// The running thread.
        running: Option<ThreadId>,
    },
    /// Whether the mapping was recorded.
    PageRecorded(Result<(), MmError>),
    /// Scratch frames used up, or `u32::MAX` for failure.
    Walked(u32),
    /// Whether a receiver is waiting.
    Eligible(bool),
    /// What sending came to.
    Sent(Result<SendOutcome, EndpointError>),
    /// The receiver and its message.
    Taken(Option<(ThreadId, SmallMessage)>),
    /// What receiving came to.
    Received(Result<RecvOutcome, EndpointError>),
    /// The threads that a signal woke.
    Woke(Woken),
    /// Signal bits.
    Bits(u64),
    /// Whether there was room on the list of waiters.
    Waiting(Result<(), NotificationError>),
    /// Whether the interrupt controller went along.
    IrqInstalled(bool),
}

/// Where a system call stands while a request is out.
#[derive(Debug, Clone, Copy, PartialEq, Eq)]
pub enum Pending {
    /// The thread to run next is being picked.
    Reschedule,
    /// Memory is being reserved for a retype.
    Retype {
        /// The calling thread.
        caller: ThreadId,
        /// What to create.
        target_type: KernelObjectType,
    },
    /// A mapping is being recorded.
    MapRecord {
        /// The address space.
        space: PageTableId,
        /// Physical address of its root page table.
        root_phys: u64,
        /// Virtual address.
        vaddr: usize,
        /// Physical address.
        frame_phys: u64,
        /// What the mapping allows.
        perms: MapPermissions,
    },
    /// A mapping is being written into the hardware's page tables.
    MapWalk {
        /// The address space.
        space: PageTableId,
        /// Virtual address.
        vaddr: usize,
    },
    /// A mapping that failed is being forgotten.
    MapUndo,
    /// Stale translations are being discarded after a mapping.
    MapFlush,
    /// A call asks whether its receiver is waiting.
    CallFast {
        /// The calling thread.
        caller: ThreadId,
        /// The endpoint.
        endpoint: EndpointId,
        /// The message.
        msg: SmallMessage,
    },
    /// A message is being sent.
    SendTry {
        /// The calling thread.
        caller: ThreadId,
        /// The endpoint.
        endpoint: EndpointId,
        /// Whether it is a call.
        is_call: bool,
        /// Whether the receiver was found waiting.
        fast: bool,
    },
    /// A delivered message is being taken out of the endpoint.
    SendTake {
        /// The calling thread.
        caller: ThreadId,
        /// Whether it is a call.
        is_call: bool,
        /// Whether the receiver was found waiting.
        fast: bool,
        /// The receiver.
        receiver: ThreadId,
    },
    /// The receiver of a delivered message is being made ready.
    SendWake {
        /// The calling thread.
        caller: ThreadId,
        /// Whether it is a call.
        is_call: bool,
        /// Whether the receiver was found waiting.
        fast: bool,
        /// The receiver.
        receiver: ThreadId,
    },
    /// The calling thread is being blocked; then `next` runs, or whoever is picked.
    Block {
        /// The thread to hand the CPU to.
        next: Option<ThreadId>,
    },
    /// A message is being received.
    RecvTry {
        /// The calling thread.
        caller: ThreadId,
    },
    /// The sender of a received message is being made ready.
    RecvWake {
        /// The sender.
        from: ThreadId,
        /// Its message.
        msg: SmallMessage,
    },
    /// The replying thread is being charged.
    ReplyCharge {
        /// The calling thread.
        caller: ThreadId,
        /// The thread to wake.
        to: ThreadId,
        /// The reply.
        msg: SmallMessage,
    },
    /// The thread that was replied to is being made ready.
    ReplyWake {
        /// The calling thread.
        caller: ThreadId,
        /// The thread to wake.
        to: ThreadId,
    },
    /// The replying thread is being made ready.
    ReplyStay {
        /// The thread to hand the CPU to.
        to: ThreadId,
    },
    /// Signal bits are being set.
    Signal {
        /// The notification.
        notification: NotificationId,
    },
    /// Signal bits are being taken for the threads that were woken.
    SignalTake {
        /// The threads.
        woken: Woken,
    },
    /// The threads that were woken are being made ready.
    SignalWake {
        /// The threads.
        woken: Woken,
        /// The signal bits.
        value: u64,
    },
    /// Signal bits are being taken for a thread that would wait.
    Wait {
        /// The calling thread.
        caller: ThreadId,
        /// The notification.
        notification: NotificationId,
    },
    /// The calling thread is being put on the list of waiters.
    WaitAdd {
        /// The calling thread.
        caller: ThreadId,
    },
    /// The waiting thread is being blocked.
    WaitBlock,
    /// Signal bits are being taken.
    Poll,
    /// An interrupt handler is being installed.
    IrqInstall,
}

/// One step of a system call.
#[derive(Debug, Clone, Copy, PartialEq, Eq)]
pub enum Step {
    /// The call is over.
    Finished(Result<SyscallReturn, SyscallError>),
    /// The request is to be performed and the call resumed with the reply.
    Ask(Request, Pending),
}

/// The capability table of a thread.
pub open spec fn space_of(k: KernelView, thread: ThreadId) -> Option<CapTableView> {
    match slot(k.tcbs, thread.0) {
        Some(t) => slot(k.spaces, t.cap_space.0),
        None => None,
    }
}

/// What stands at `cap` in the capability space of `caller`.
pub open spec fn looked_up(k: KernelView, caller: ThreadId, cap: CapId) -> Result<
    CapEntry,
    SyscallError,
> {
    match space_of(k, caller) {
        None => Err(SyscallError::NoCaller),
        Some(table) => match table.get(cap) {
            None => Err(SyscallError::BadCap),
            Some(entry) => Ok(entry),
        },
    }
}

/// The capability at `cap` in the space of `caller`, if it is one to an object of kind `kind`
/// and carries the rights needed.
pub open spec fn resolved(
    k: KernelView,
    caller: ThreadId,
    cap: CapId,
    kind: KernelObjectKind,
    needed: CapabilityRights,
) -> Result<Capability, SyscallError> {
    match looked_up(k, caller, cap) {
        Err(e) => Err(e),
        Ok(entry) => if entry.cap.object.kind != kind {
            Err(SyscallError::WrongObjectKind)
        } else if !entry.cap.rights.has_all(needed) {
            Err(SyscallError::InsufficientRights)
        } else {
            Ok(entry.cap)
        },
    }
}

impl<const MMIO: usize> KernelState<MMIO> {
    /// The capability space of `caller`.
    pub fn caller_cap_space(&self, caller: ThreadId) -> (r: Result<CapSpaceId, SyscallError>)
        requires
            self.wf(),
        ensures
            r == match slot(self@.tcbs, caller.0) {
                Some(t) => Ok::<CapSpaceId, SyscallError>(t.cap_space),
                None => Err(SyscallError::NoCaller),
            },
    {
        match self.tcb(caller) {
            Some(t) => Ok(t.cap_space),
            None => Err(SyscallError::NoCaller),
        }
    }

    /// The capability at `cap` in the space of `caller`.
    pub fn look_up(&self, caller: ThreadId, cap: CapId) -> (r: Result<Capability, SyscallError>)
        requires
            self.wf(),
        ensures
            match looked_up(self@, caller, cap) {
                Ok(entry) => r == Ok::<Capability, SyscallError>(entry.cap),
                Err(e) => r == Err::<Capability, SyscallError>(e),
            },
    {
        let cs = match self.caller_cap_space(caller) {
            Ok(cs) => cs,
            Err(e) => {
                return Err(e);
            },
        };
        match self.cap_space(cs) {
            Some(table) => match table.lookup(cap) {
                Some(c) => Ok(*c),
                None => Err(SyscallError::BadCap),
            },
            None => Err(SyscallError::NoCaller),
        }
    }

    /// The kind of the object that `cap` names in the space of `caller`.
    pub fn cap_kind_of(&self, caller: ThreadId, cap: CapId) -> (r: Result<
        KernelObjectKind,
        SyscallError,
    >)
        requires
            self.wf(),
        ensures
            match looked_up(self@, caller, cap) {
                Ok(entry) => r == Ok::<KernelObjectKind, SyscallError>(entry.cap.object.kind),
                Err(e) => r == Err::<KernelObjectKind, SyscallError>(e),
            },
    {
        match self.look_up(caller, cap) {
            Ok(c) => Ok(c.object.kind),
            Err(e) => Err(e),
        }
    }

    /// Resolves `cap` in the space of `caller`: it must name an object of kind `kind` and carry
    /// every right needed.
    pub fn resolve(
        &self,
        caller: ThreadId,
        cap: CapId,
        kind: KernelObjectKind,
        needed: CapabilityRights,
    ) -> (r: Result<Capability, SyscallError>)
        requires
            self.wf(),
        ensures
            r == resolved(self@, caller, cap, kind, needed),
    {
        let c = match self.look_up(caller, cap) {
            Ok(c) => c,
            Err(e) => {
                return Err(e);
            },
        };
        if c.object.kind != kind {
            return Err(SyscallError::WrongObjectKind);
        }
        if !c.allows(needed) {
            return Err(SyscallError::InsufficientRights);
        }
        Ok(c)
    }
}

} // verus!
