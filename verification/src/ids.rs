//! The small integer newtypes that name things inside the kernel: capability slots and
//! each kind of kernel object. Every id is an index into a fixed-capacity table.

use vstd::prelude::*;

verus! {

/// Index of one capability slot inside a capability space.
#[derive(Debug, Clone, Copy, PartialEq, Eq, PartialOrd, Ord, Hash, Structural)]
pub struct CapId(pub u32);

impl CapId {
    /// Wraps a raw table index.
    pub fn new(index: u32) -> (id: Self)
        ensures
            id == CapId(index),
    {
        CapId(index)
    }

    /// The raw table index.
    pub fn as_u32(self) -> (index: u32)
        ensures
            index == self.0,
    {
        self.0
    }

    /// The raw table index as `usize`, for indexing the backing array.
    pub fn as_usize(self) -> (index: usize)
        ensures
            index == self.0,
    {
        self.0 as usize
    }
}

/// Kind-local object id: an index into the object table that the accompanying
/// `KernelObjectKind` selects.
#[derive(Debug, Clone, Copy, PartialEq, Eq, PartialOrd, Ord, Hash, Structural)]
pub struct ObjectId(pub u32);

impl ObjectId {
    /// Wraps a raw table index.
    pub fn new(index: u32) -> (id: Self)
        ensures
            id == ObjectId(index),
    {
        ObjectId(index)
    }

    /// The raw table index.
    pub fn as_u32(self) -> (index: u32)
        ensures
            index == self.0,
    {
        self.0
    }

    /// The raw table index as `usize`, for indexing the backing array.
    pub fn as_usize(self) -> (index: usize)
        ensures
            index == self.0,
    {
        self.0 as usize
    }
}

/// Id of a thread control block.
#[derive(Debug, Clone, Copy, PartialEq, Eq, PartialOrd, Ord, Hash, Structural)]
pub struct ThreadId(pub u32);

impl ThreadId {
    /// Wraps a raw table index.
    pub fn new(index: u32) -> (id: Self)
        ensures
            id == ThreadId(index),
    {
        ThreadId(index)
    }

    /// The raw table index.
    pub fn as_u32(self) -> (index: u32)
        ensures
            index == self.0,
    {
        self.0
    }

    /// The raw table index as `usize`, for indexing the backing array.
    pub fn as_usize(self) -> (index: usize)
        ensures
            index == self.0,
    {
        self.0 as usize
    }
}

/// Id of an endpoint, a synchronous IPC rendezvous point.
#[derive(Debug, Clone, Copy, PartialEq, Eq, PartialOrd, Ord, Hash, Structural)]
pub struct EndpointId(pub u32);

impl EndpointId {
    /// Wraps a raw table index.
    pub fn new(index: u32) -> (id: Self)
        ensures
            id == EndpointId(index),
    {
        EndpointId(index)
    }

    /// The raw table index.
    pub fn as_u32(self) -> (index: u32)
        ensures
            index == self.0,
    {
        self.0
    }

    /// The raw table index as `usize`, for indexing the backing array.
    pub fn as_usize(self) -> (index: usize)
        ensures
            index == self.0,
    {
        self.0 as usize
    }
}

/// Id of a notification, an asynchronous signal object.
#[derive(Debug, Clone, Copy, PartialEq, Eq, PartialOrd, Ord, Hash, Structural)]
pub struct NotificationId(pub u32);

impl NotificationId {
    /// Wraps a raw table index.
    pub fn new(index: u32) -> (id: Self)
        ensures
            id == NotificationId(index),
    {
        NotificationId(index)
    }

    /// The raw table index.
    pub fn as_u32(self) -> (index: u32)
        ensures
            index == self.0,
    {
        self.0
    }

    /// The raw table index as `usize`, for indexing the backing array.
    pub fn as_usize(self) -> (index: usize)
        ensures
            index == self.0,
    {
        self.0 as usize
    }
}

/// Id of an untyped memory object, a physical range awaiting `retype`.
#[derive(Debug, Clone, Copy, PartialEq, Eq, PartialOrd, Ord, Hash, Structural)]
pub struct UntypedId(pub u32);

impl UntypedId {
    /// Wraps a raw table index.
    pub fn new(index: u32) -> (id: Self)
        ensures
            id == UntypedId(index),
    {
        UntypedId(index)
    }

    /// The raw table index.
    pub fn as_u32(self) -> (index: u32)
        ensures
            index == self.0,
    {
        self.0
    }

    /// The raw table index as `usize`, for indexing the backing array.
    pub fn as_usize(self) -> (index: usize)
        ensures
            index == self.0,
    {
        self.0 as usize
    }
}

/// Id of a page table object, the root of an address space.
#[derive(Debug, Clone, Copy, PartialEq, Eq, PartialOrd, Ord, Hash, Structural)]
pub struct PageTableId(pub u32);

impl PageTableId {
    /// Wraps a raw table index.
    pub fn new(index: u32) -> (id: Self)
        ensures
            id == PageTableId(index),
    {
        PageTableId(index)
    }

    /// The raw table index.
    pub fn as_u32(self) -> (index: u32)
        ensures
            index == self.0,
    {
        self.0
    }

    /// The raw table index as `usize`, for indexing the backing array.
    pub fn as_usize(self) -> (index: usize)
        ensures
            index == self.0,
    {
        self.0 as usize
    }
}

/// Id of a capability space, one process's capability table.
#[derive(Debug, Clone, Copy, PartialEq, Eq, PartialOrd, Ord, Hash, Structural)]
pub struct CapSpaceId(pub u32);

impl CapSpaceId {
    /// Wraps a raw table index.
    pub fn new(index: u32) -> (id: Self)
        ensures
            id == CapSpaceId(index),
    {
        CapSpaceId(index)
    }

    /// The raw table index.
    pub fn as_u32(self) -> (index: u32)
        ensures
            index == self.0,
    {
        self.0
    }

    /// The raw table index as `usize`, for indexing the backing array.
    pub fn as_usize(self) -> (index: usize)
        ensures
            index == self.0,
    {
        self.0 as usize
    }
}

/// Id of a scheduler chain group, the threads of one synchronous IPC chain.
#[derive(Debug, Clone, Copy, PartialEq, Eq, PartialOrd, Ord, Hash, Structural)]
pub struct ChainGroupId(pub u32);

impl ChainGroupId {
    /// Wraps a raw table index.
    pub fn new(index: u32) -> (id: Self)
        ensures
            id == ChainGroupId(index),
    {
        ChainGroupId(index)
    }

    /// The raw table index.
    pub fn as_u32(self) -> (index: u32)
        ensures
            index == self.0,
    {
        self.0
    }

    /// The raw table index as `usize`, for indexing the backing array.
    pub fn as_usize(self) -> (index: usize)
        ensures
            index == self.0,
    {
        self.0 as usize
    }
}

/// Id of a shared memory region.
#[derive(Debug, Clone, Copy, PartialEq, Eq, PartialOrd, Ord, Hash, Structural)]
pub struct SharedRegionId(pub u32);

impl SharedRegionId {
    /// Wraps a raw table index.
    pub fn new(index: u32) -> (id: Self)
        ensures
            id == SharedRegionId(index),
    {
        SharedRegionId(index)
    }

    /// The raw table index.
    pub fn as_u32(self) -> (index: u32)
        ensures
            index == self.0,
    {
        self.0
    }

    /// The raw table index as `usize`, for indexing the backing array.
    pub fn as_usize(self) -> (index: usize)
        ensures
            index == self.0,
    {
        self.0 as usize
    }
}

/// Id of a device's memory-mapped transport window.
#[derive(Debug, Clone, Copy, PartialEq, Eq, PartialOrd, Ord, Hash, Structural)]
pub struct MmioRegionId(pub u32);

impl MmioRegionId {
    /// Wraps a raw table index.
    pub fn new(index: u32) -> (id: Self)
        ensures
            id == MmioRegionId(index),
    {
        MmioRegionId(index)
    }

    /// The raw table index.
    pub fn as_u32(self) -> (index: u32)
        ensures
            index == self.0,
    {
        self.0
    }

    /// The raw table index as `usize`, for indexing the backing array.
    pub fn as_usize(self) -> (index: usize)
        ensures
            index == self.0,
    {
        self.0 as usize
    }
}

} // verus!
