//! What the kernel records about its objects, and the errors of the services behind them.

use crate::rights::CapabilityRights;
use vstd::prelude::*;

verus! {

/// What a `Retype` can create.
#[derive(Debug, Clone, Copy, PartialEq, Eq, Structural)]
pub enum KernelObjectType {
    /// A smaller untyped memory object.
    Untyped,
    /// The root of an address space.
    PageTable,
    /// A thread control block.
    ThreadControlBlock,
    /// An endpoint.
    Endpoint,
    /// A notification.
    Notification,
    /// A capability space.
    CapabilitySpace,
    /// A shared memory region.
    SharedRegion,
}

/// What a mapping allows.
#[derive(Debug, Clone, Copy, PartialEq, Eq, Structural)]
pub struct MapPermissions {
    /// Loads are allowed.
    pub readable: bool,
    /// Stores are allowed.
    pub writable: bool,
    /// Instruction fetches are allowed.
    pub executable: bool,
    /// Device memory that must not be cached.
    pub device_uncached: bool,
}

/// The physical range `[base, base + size)` that an untyped memory object covers.
#[derive(Debug, Clone, Copy, PartialEq, Eq, Structural)]
pub struct UntypedMemory {
    /// First physical address.
    pub base: u64,
    /// Length in bytes.
    pub size: u64,
}

/// An address space.
#[derive(Debug, Clone, Copy, PartialEq, Eq, Structural)]
pub struct AddressSpace {
    /// Physical address of the root page table.
    pub root_phys: u64,
}

/// An endpoint. Its queues are kept by the IPC layer.
#[derive(Debug, Clone, Copy, PartialEq, Eq, Structural)]
pub struct Endpoint {}

/// A notification. Its signal word and waiters are kept by the IPC layer.
#[derive(Debug, Clone, Copy, PartialEq, Eq, Structural)]
pub struct Notification {}

/// A shared memory region.
#[derive(Debug, Clone, Copy, PartialEq, Eq, Structural)]
pub struct SharedRegion {
    /// First physical address.
    pub phys_base: u64,
    /// Length in bytes.
    pub size: usize,
    /// The widest rights a capability to the region may carry.
    pub max_rights: CapabilityRights,
}

/// A device's physical transport window and interrupt line. It is a fact about the machine,
/// never carved from untyped memory.
#[derive(Debug, Clone, Copy, PartialEq, Eq, Structural)]
pub struct MmioRegionDescriptor {
    /// Physical base address of the window.
    pub phys_base: u64,
    /// Size of the window in bytes.
    pub size: u64,
    /// The device's interrupt line.
    pub irq: u32,
    /// Address of the device's PCI configuration space, `0` if it has none.
    pub config_space_base: u64,
}

/// Why a memory operation failed.
#[derive(Debug, Clone, Copy, PartialEq, Eq, Structural)]
pub enum MmError {
    /// A retype of nothing.
    ZeroCount,
    /// The hardware page-table walk failed.
    HardwareMapFailed,
    /// The memory layer refused, for the reason that `code` stands for.
    Refused {
        /// The memory layer's own error number.
        code: u32,
    },
}

/// Why a message could not be built or queued.
#[derive(Debug, Clone, Copy, PartialEq, Eq, Structural)]
pub enum IpcError {
    /// The endpoint's wait queue is full.
    QueueFull,
    /// More data words than a message can carry.
    TooManyWords,
}

/// Why an endpoint operation failed.
#[derive(Debug, Clone, Copy, PartialEq, Eq, Structural)]
pub enum EndpointError {
    /// The endpoint's wait queue is full.
    QueueFull,
}

/// Why a scheduler operation failed.
#[derive(Debug, Clone, Copy, PartialEq, Eq, Structural)]
pub struct SchedError {
    /// The scheduler's own error number.
    pub code: u32,
}

/// Why a notification operation failed.
#[derive(Debug, Clone, Copy, PartialEq, Eq, Structural)]
pub struct NotificationError {
    /// The notification's own error number.
    pub code: u32,
}

} // verus!
