//! Capabilities: unforgeable references to kernel objects, with rights and a badge.

use crate::ids::ObjectId;
use crate::rights::{CapabilityRights, ALL_BITS};
use vstd::prelude::*;

verus! {

/// The kinds of kernel object that a capability can name.
#[derive(Debug, Clone, Copy, PartialEq, Eq, Structural)]
pub enum KernelObjectKind {
    /// A physical memory range that has not been given a type yet.
    UntypedMemory,
    /// The root of an address space.
    PageTable,
    /// The kernel's record of one thread.
    ThreadControlBlock,
    /// A synchronous IPC rendezvous point.
    Endpoint,
    /// A word of sticky signal bits with a wait queue.
    Notification,
    /// A process's table of capabilities.
    CapabilitySpace,
    /// Physical memory that several processes can map.
    SharedRegion,
    /// A device's memory-mapped transport window and interrupt line.
    MmioRegion,
}

/// The identity of one kernel object: its kind and its index in the table of that kind.
#[derive(Debug, Clone, Copy, PartialEq, Eq, Structural)]
pub struct ObjectRef {
    /// Which object table `id` indexes.
    pub kind: KernelObjectKind,
    /// Index into that table.
    pub id: ObjectId,
}

impl ObjectRef {
    /// A reference to the object `id` of kind `kind`.
    pub fn new(kind: KernelObjectKind, id: ObjectId) -> (r: Self)
        ensures
            r == (ObjectRef { kind, id }),
    {
        ObjectRef { kind, id }
    }
}

/// A reference to a kernel object, the rights its holder has, and a badge.
#[derive(Debug, Clone, Copy, PartialEq, Eq, Structural)]
pub struct Capability {
    /// The object this capability gives access to.
    pub object: ObjectRef,
    /// What the holder may do with `object`.
    pub rights: CapabilityRights,
    /// A tag that is set once and delivered along with IPC messages. `0` is no badge.
    pub badge: u64,
}

/// The capability with every right and no badge.
pub open spec fn full_capability(object: ObjectRef) -> Capability {
    Capability { object, rights: CapabilityRights { bits: ALL_BITS }, badge: 0 }
}

impl Capability {
    /// A capability with every right and no badge.
    pub fn full(object: ObjectRef) -> (c: Self)
        ensures
            c == full_capability(object),
    {
        Capability { object, rights: CapabilityRights::all(), badge: 0 }
    }

    /// This capability stamped with `badge`. Badges are write-once, so it must not carry one.
    pub fn with_badge(self, badge: u64) -> (c: Self)
        requires
            self.badge == 0,
        ensures
            c == (Capability { badge, ..self }),
    {
        Capability { object: self.object, rights: self.rights, badge }
    }

    /// Whether this capability carries every right in `needed`.
    pub fn allows(&self, needed: CapabilityRights) -> (r: bool)
        ensures
            r == self.rights.has_all(needed),
    {
        self.rights.contains(needed)
    }
}

} // verus!
