//! The capacities of the kernel's tables.

use vstd::prelude::*;

verus! {

/// Width of a saved register context, in bytes.
pub const CONTEXT_BYTES: usize = 160;

/// Bytes per page.
pub const PAGE_SIZE: usize = 4096;

/// Thread control blocks.
pub const MAX_THREADS: usize = 96;

/// Concurrent synchronous IPC chain groups.
pub const MAX_CHAIN_GROUPS: usize = 24;

/// Capability spaces, roughly one per process.
pub const MAX_CAP_SPACES: usize = 16;

/// Capability slots per capability space.
pub const CAP_SLOTS_PER_SPACE: usize = 96;

/// Address spaces.
pub const MAX_ADDR_SPACES: usize = 24;

/// Virtual mappings per address space.
pub const MAPPINGS_PER_SPACE: usize = 32;

/// Untyped memory objects.
pub const MAX_UNTYPED: usize = 80;

/// Endpoints.
pub const MAX_ENDPOINTS: usize = 48;

/// Notifications.
pub const MAX_NOTIFICATIONS: usize = 48;

/// Shared memory regions.
pub const MAX_SHARED_REGIONS: usize = 32;

/// Interrupt lines that can be bound to a notification at the same time.
pub const MAX_IRQ_BINDINGS: usize = 64;

/// Blocked threads that an endpoint can queue.
pub const ENDPOINT_QUEUE: usize = 8;

/// Threads that can wait on a notification.
pub const NOTIF_WAITERS: usize = 8;

/// Time slice of an interactive thread, in nanoseconds.
pub const INTERACTIVE_QUANTUM_NS: u64 = 3_000_000;

/// The slot number that stands for "no capability".
pub const NO_CAP: u32 = 0xffff_ffff;

} // verus!
