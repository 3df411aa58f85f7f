//! The kernel's object tables.
//!
//! Slot `i` of a table is occupied exactly if the `Option` there is `Some`; every id that an
//! `alloc_*` function hands out names the slot that it occupied. The scheduler, the queues of
//! endpoints and notifications, the allocators inside untyped memory and the mappings of an
//! address space belong to other layers: what the kernel decides with is recorded here.

use crate::capability::{Capability, KernelObjectKind};
use crate::cdt::{
    empty_table, forest_of, root_removed, tables_wf, CapEntry, CapTable, CapTableError, Forest,
};
use crate::config::{
    CAP_SLOTS_PER_SPACE, MAX_ADDR_SPACES, MAX_CAP_SPACES, MAX_ENDPOINTS, MAX_IRQ_BINDINGS,
    MAX_NOTIFICATIONS, MAX_SHARED_REGIONS, MAX_THREADS, MAX_UNTYPED, NO_CAP, PAGE_SIZE,
};
use crate::ids::{
    CapId, CapSpaceId, EndpointId, MmioRegionId, NotificationId, PageTableId, SharedRegionId,
    ThreadId, UntypedId,
};
use crate::objects::{
    AddressSpace, Endpoint, MmioRegionDescriptor, Notification, SharedRegion, UntypedMemory,
};
use crate::tcb::{inactive_tcb, Tcb};
use vstd::prelude::*;

verus! {

/// Why the initial kernel state could not be built.
#[derive(Debug, Clone, Copy, PartialEq, Eq, Structural)]
pub enum KernelInitError {
    /// The boot information is not valid.
    BadBootInfo,
    /// No usable memory was left to hand to the first process.
    NoUsableMemory,
    /// A table is too small for the first process.
    CapacityExhausted,
    /// The kernel state was built before.
    AlreadyInitialised,
}

/// The scratch frames that page-table walks draw from when a page is mapped.
#[derive(Debug, Clone, Copy, PartialEq, Eq, Structural)]
pub struct MapPool {
    /// Physical address of the first frame, `0` if there is no pool.
    pub base: usize,
    /// Frames in the pool.
    pub len: u32,
    /// Frames used up.
    pub used: u32,
}

/// The first process.
#[derive(Debug, Clone, Copy, PartialEq, Eq, Structural)]
pub struct RootTask {
    /// Its thread.
    pub thread: ThreadId,
    /// Its capability space.
    pub cap_space: CapSpaceId,
    /// Its address space.
    pub addr_space: PageTableId,
    /// Its capability to its own address space, slot `NO_CAP` if there was no room for one.
    pub page_table_cap: CapId,
    /// Its capability to the first block device, slot `NO_CAP` if there is none.
    pub mmio_blk_cap: CapId,
    /// Its capability to the first network device, slot `NO_CAP` if there is none.
    pub mmio_net_cap: CapId,
    /// How many untyped memory objects it was given.
    pub untyped_count: u32,
}

/// The kernel's tables. `MMIO` is the number of devices the machine can report.
pub struct KernelState<const MMIO: usize> {
    cap_spaces: [Option<CapTable<CAP_SLOTS_PER_SPACE>>; MAX_CAP_SPACES],
    untyped: [Option<UntypedMemory>; MAX_UNTYPED],
    addr_spaces: [Option<AddressSpace>; MAX_ADDR_SPACES],
    endpoints: [Option<Endpoint>; MAX_ENDPOINTS],
    notifications: [Option<Notification>; MAX_NOTIFICATIONS],
    shared_regions: [Option<SharedRegion>; MAX_SHARED_REGIONS],
    mmio_regions: [Option<MmioRegionDescriptor>; MMIO],
    /// Which notification each bound interrupt line signals.
    irq_bindings: [Option<(u32, NotificationId)>; MAX_IRQ_BINDINGS],
    tcbs: [Option<Tcb>; MAX_THREADS],
    root: RootTask,
    map_pool: MapPool,
}

/// The kernel's tables as a mathematical value.
#[verifier::ext_equal]
pub struct KernelView {
    /// Capability spaces.
    pub spaces: Forest,
    /// Untyped memory objects.
    pub untyped: Seq<Option<UntypedMemory>>,
    /// Address spaces.
    pub addr_spaces: Seq<Option<AddressSpace>>,
    /// Endpoints.
    pub endpoints: Seq<Option<Endpoint>>,
    /// Notifications.
    pub notifications: Seq<Option<Notification>>,
    /// Shared memory regions.
    pub shared_regions: Seq<Option<SharedRegion>>,
    /// Device windows.
    pub mmio_regions: Seq<Option<MmioRegionDescriptor>>,
    /// Bound interrupt lines.
    pub irq_bindings: Seq<Option<(u32, NotificationId)>>,
    /// Threads.
    pub tcbs: Seq<Option<Tcb>>,
    /// The first process.
    pub root: RootTask,
    /// The scratch frames for page tables.
    pub map_pool: MapPool,
}

/// `i` is the lowest free slot.
pub open spec fn is_first_free<T>(table: Seq<Option<T>>, i: int) -> bool {
    &&& 0 <= i < table.len()
    &&& table[i] is None
    &&& forall|j: int| 0 <= j < i ==> (#[trigger] table[j]) is Some
}

/// The lowest free slot, if there is a free one.
pub open spec fn first_free<T>(table: Seq<Option<T>>) -> Option<int> {
    if exists|i: int| is_first_free(table, i) {
        Some(choose|i: int| is_first_free(table, i))
    } else {
        None
    }
}

/// The slot `i`; nothing for an index outside the table.
pub open spec fn slot<T>(table: Seq<Option<T>>, i: u32) -> Option<T> {
    if i < table.len() {
        table[i as int]
    } else {
        None
    }
}

/// `first_free` finds the slot that `is_first_free` describes.
pub proof fn lemma_first_free<T>(table: Seq<Option<T>>, i: int)
    ensures
        is_first_free(table, i) <==> first_free(table) == Some(i),
        first_free(table) is None <==> forall|j: int|
            0 <= j < table.len() ==> (#[trigger] table[j]) is Some,
{
    if is_first_free(table, i) {
        let k = choose|k: int| is_first_free(table, k);
        if k < i {
            assert(table[k] is Some);
        }
        if i < k {
            assert(table[i] is Some);
        }
    }
    if exists|j: int| 0 <= j < table.len() && (#[trigger] table[j]) is None {
        let j = choose|j: int| 0 <= j < table.len() && (#[trigger] table[j]) is None;
        let k = lemma_lowest_free(table, j);
        assert(is_first_free(table, k));
    }
}

proof fn lemma_lowest_free<T>(table: Seq<Option<T>>, j: int) -> (k: int)
    requires
        0 <= j < table.len(),
        table[j] is None,
    ensures
        is_first_free(table, k),
    decreases j,
{
    if forall|i: int| 0 <= i < j ==> (#[trigger] table[i]) is Some {
        j
    } else {
        let i = choose|i: int| 0 <= i < j && (#[trigger] table[i]) is None;
        lemma_lowest_free(table, i)
    }
}

/// The lowest free slot of a table.
fn find_free<T, const N: usize>(table: &[Option<T>; N]) -> (r: Option<usize>)
    ensures
        match r {
            Some(i) => i < N && first_free(table@) == Some(i as int) && table@[i as int] is None,
            None => first_free(table@) is None,
        },
{
    let mut i: usize = 0;
    while i < N
        invariant
            i <= N,
            forall|j: int| 0 <= j < i ==> (#[trigger] table@[j]) is Some,
        decreases N - i,
    {
        if table[i].is_none() {
            proof {
                lemma_first_free(table@, i as int);
            }
            return Some(i);
        }
        i = i + 1;
    }
    proof {
        lemma_first_free(table@, 0);
    }
    None
}

impl KernelView {
    /// The tables are well-formed: each capability space backs the slot it stands in and its
    /// free list is right, and the pool's frames are addressable.
    pub open spec fn wf(self) -> bool {
        &&& self.spaces.len() == MAX_CAP_SPACES
        &&& self.untyped.len() == MAX_UNTYPED
        &&& self.addr_spaces.len() == MAX_ADDR_SPACES
        &&& self.endpoints.len() == MAX_ENDPOINTS
        &&& self.notifications.len() == MAX_NOTIFICATIONS
        &&& self.shared_regions.len() == MAX_SHARED_REGIONS
        &&& self.irq_bindings.len() == MAX_IRQ_BINDINGS
        &&& self.tcbs.len() == MAX_THREADS
        &&& forall|s: int|
            0 <= s < MAX_CAP_SPACES && (#[trigger] self.spaces[s]) is Some ==> {
                let table = self.spaces[s]->0;
                table.wf() && table.space == CapSpaceId(s as u32) && table.entries.len()
                    == CAP_SLOTS_PER_SPACE
            }
        &&& self.map_pool.used <= self.map_pool.len
        &&& self.map_pool.base + self.map_pool.len * PAGE_SIZE <= usize::MAX
    }
}

impl<const MMIO: usize> View for KernelState<MMIO> {
    type V = KernelView;

    closed spec fn view(&self) -> KernelView {
        KernelView {
            spaces: forest_of(self.cap_spaces@),
            untyped: self.untyped@,
            addr_spaces: self.addr_spaces@,
            endpoints: self.endpoints@,
            notifications: self.notifications@,
            shared_regions: self.shared_regions@,
            mmio_regions: self.mmio_regions@,
            irq_bindings: self.irq_bindings@,
            tcbs: self.tcbs@,
            root: self.root,
            map_pool: self.map_pool,
        }
    }
}

/// Tables without any object.
pub open spec fn empty_kernel(mmio: nat) -> KernelView {
    KernelView {
        spaces: Seq::new(MAX_CAP_SPACES as nat, |i: int| None),
        untyped: Seq::new(MAX_UNTYPED as nat, |i: int| None),
        addr_spaces: Seq::new(MAX_ADDR_SPACES as nat, |i: int| None),
        endpoints: Seq::new(MAX_ENDPOINTS as nat, |i: int| None),
        notifications: Seq::new(MAX_NOTIFICATIONS as nat, |i: int| None),
        shared_regions: Seq::new(MAX_SHARED_REGIONS as nat, |i: int| None),
        mmio_regions: Seq::new(mmio, |i: int| None),
        irq_bindings: Seq::new(MAX_IRQ_BINDINGS as nat, |i: int| None),
        tcbs: Seq::new(MAX_THREADS as nat, |i: int| None),
        root: RootTask {
            thread: ThreadId(0),
            cap_space: CapSpaceId(0),
            addr_space: PageTableId(0),
            page_table_cap: CapId(NO_CAP),
            mmio_blk_cap: CapId(NO_CAP),
            mmio_net_cap: CapId(NO_CAP),
            untyped_count: 0,
        },
        map_pool: MapPool { base: 0, len: 0, used: 0 },
    }
}

impl<const MMIO: usize> KernelState<MMIO> {
    /// The tables are well-formed.
    pub closed spec fn wf(&self) -> bool {
        tables_wf(self.cap_spaces@) && self@.wf()
    }

    /// A well-formed kernel state has a well-formed view.
    pub proof fn lemma_view_wf(&self)
        requires
            self.wf(),
        ensures
            self@.wf(),
            self@.mmio_regions.len() == MMIO,
    {
    }

    /// Tables without any object.
    pub fn empty() -> (k: Self)
        ensures
            k.wf(),
            k@ == empty_kernel(MMIO as nat),
    {
        let k = KernelState {
            cap_spaces: [
                None,
                None,
                None,
                None,
                None,
                None,
                None,
                None,
                None,
                None,
                None,
                None,
                None,
                None,
                None,
                None,
            ],
            untyped: [None;MAX_UNTYPED],
            addr_spaces: [None;MAX_ADDR_SPACES],
            endpoints: [None;MAX_ENDPOINTS],
            notifications: [None;MAX_NOTIFICATIONS],
            shared_regions: [None;MAX_SHARED_REGIONS],
            mmio_regions: [None;MMIO],
            irq_bindings: [None;MAX_IRQ_BINDINGS],
            tcbs: [None;MAX_THREADS],
            root: RootTask {
                thread: ThreadId::new(0),
                cap_space: CapSpaceId::new(0),
                addr_space: PageTableId::new(0),
                page_table_cap: CapId::new(NO_CAP),
                mmio_blk_cap: CapId::new(NO_CAP),
                mmio_net_cap: CapId::new(NO_CAP),
                untyped_count: 0,
            },
            map_pool: MapPool { base: 0, len: 0, used: 0 },
        };
        assert(k@ =~= empty_kernel(MMIO as nat));
        k
    }

    /// The first process.
    pub fn root(&self) -> (r: RootTask)
        ensures
            r == self@.root,
    {
        self.root
    }

    /// Records the first process.
    pub fn set_root(&mut self, root: RootTask)
        requires
            old(self).wf(),
        ensures
            final(self).wf(),
            final(self)@ == (KernelView { root, ..old(self)@ }),
    {
        self.root = root;
    }

    /// Creates an empty capability space in the lowest free slot.
    pub fn alloc_cap_space(&mut self) -> (r: Option<CapSpaceId>)
        requires
            old(self).wf(),
        ensures
            final(self).wf(),
            match first_free(old(self)@.spaces) {
                Some(i) => {
                    &&& r == Some(CapSpaceId(i as u32))
                    &&& final(self)@ == (KernelView {
                        spaces: old(self)@.spaces.update(
                            i,
                            Some(empty_table(CAP_SLOTS_PER_SPACE as nat, CapSpaceId(i as u32))),
                        ),
                        ..old(self)@
                    })
                },
                None => r is None && final(self)@ == old(self)@,
            },
    {
        let ghost before = self@;
        proof {
            lemma_first_free(before.spaces, 0);
            lemma_first_free(self.cap_spaces@, 0);
            if first_free(self.cap_spaces@) is Some {
                let i = first_free(self.cap_spaces@)->0;
                lemma_first_free(self.cap_spaces@, i);
                assert forall|j: int| 0 <= j < i implies (#[trigger] before.spaces[j]) is Some by {
                    assert(self.cap_spaces@[j] is Some);
                }
                lemma_first_free(before.spaces, i);
            } else {
                assert forall|j: int| 0 <= j < before.spaces.len() implies (
                #[trigger] before.spaces[j]) is Some by {
                    assert(self.cap_spaces@[j] is Some);
                }
            }
        }
        match find_free(&self.cap_spaces) {
            Some(i) => {
                let id = CapSpaceId::new(i as u32);
                let table = CapTable::new(id);
                proof {
                    table.lemma_view_wf();
                }
                self.cap_spaces[i] = Some(table);
                assert(self@.spaces =~= before.spaces.update(i as int, Some(table@)));
                Some(id)
            },
            None => None,
        }
    }

    /// Creates an address space with its root page table at `root_phys`.
    pub fn alloc_addr_space(&mut self, root_phys: u64) -> (r: Option<PageTableId>)
        requires
            old(self).wf(),
        ensures
            final(self).wf(),
            match first_free(old(self)@.addr_spaces) {
                Some(i) => {
                    &&& r == Some(PageTableId(i as u32))
                    &&& final(self)@ == (KernelView {
                        addr_spaces: old(self)@.addr_spaces.update(
                            i,
                            Some(AddressSpace { root_phys }),
                        ),
                        ..old(self)@
                    })
                },
                None => r is None && final(self)@ == old(self)@,
            },
    {
        match find_free(&self.addr_spaces) {
            Some(i) => {
                self.addr_spaces[i] = Some(AddressSpace { root_phys });
                Some(PageTableId::new(i as u32))
            },
            None => None,
        }
    }

    /// Creates an untyped memory object that covers `[base, base + size)`.
    pub fn alloc_untyped(&mut self, base: u64, size: u64) -> (r: Option<UntypedId>)
        requires
            old(self).wf(),
        ensures
            final(self).wf(),
            match first_free(old(self)@.untyped) {
                Some(i) => {
                    &&& r == Some(UntypedId(i as u32))
                    &&& final(self)@ == (KernelView {
                        untyped: old(self)@.untyped.update(i, Some(UntypedMemory { base, size })),
                        ..old(self)@
                    })
                },
                None => r is None && final(self)@ == old(self)@,
            },
    {
        match find_free(&self.untyped) {
            Some(i) => {
                self.untyped[i] = Some(UntypedMemory { base, size });
                Some(UntypedId::new(i as u32))
            },
            None => None,
        }
    }

    /// Creates a never-started thread bound to `cap_space` and `addr_space`, on behalf of
    /// `spawner`, the thread that is running.
    pub fn alloc_tcb(
        &mut self,
        cap_space: CapSpaceId,
        addr_space: PageTableId,
        spawner: Option<ThreadId>,
    ) -> (r: Option<ThreadId>)
        requires
            old(self).wf(),
        ensures
            final(self).wf(),
            match first_free(old(self)@.tcbs) {
                Some(i) => {
                    &&& r == Some(ThreadId(i as u32))
                    &&& final(self)@ == (KernelView {
                        tcbs: old(self)@.tcbs.update(
                            i,
                            Some(inactive_tcb(ThreadId(i as u32), cap_space, addr_space, spawner)),
                        ),
                        ..old(self)@
                    })
                },
                None => r is None && final(self)@ == old(self)@,
            },
    {
        match find_free(&self.tcbs) {
            Some(i) => {
                let id = ThreadId::new(i as u32);
                self.tcbs[i] = Some(
                    Tcb::new_inactive_spawned_by(id, cap_space, addr_space, spawner),
                );
                Some(id)
            },
            None => None,
        }
    }

    /// Creates an endpoint.
    pub fn alloc_endpoint(&mut self) -> (r: Option<EndpointId>)
        requires
            old(self).wf(),
        ensures
            final(self).wf(),
            match first_free(old(self)@.endpoints) {
                Some(i) => {
                    &&& r == Some(EndpointId(i as u32))
                    &&& final(self)@ == (KernelView {
                        endpoints: old(self)@.endpoints.update(i, Some(Endpoint {  })),
                        ..old(self)@
                    })
                },
                None => r is None && final(self)@ == old(self)@,
            },
    {
        match find_free(&self.endpoints) {
            Some(i) => {
                self.endpoints[i] = Some(Endpoint {  });
                Some(EndpointId::new(i as u32))
            },
            None => None,
        }
    }

    /// Creates a notification.
    pub fn alloc_notification(&mut self) -> (r: Option<NotificationId>)
        requires
            old(self).wf(),
        ensures
            final(self).wf(),
            match first_free(old(self)@.notifications) {
                Some(i) => {
                    &&& r == Some(NotificationId(i as u32))
                    &&& final(self)@ == (KernelView {
                        notifications: old(self)@.notifications.update(i, Some(Notification {  })),
                        ..old(self)@
                    })
                },
                None => r is None && final(self)@ == old(self)@,
            },
    {
        match find_free(&self.notifications) {
            Some(i) => {
                self.notifications[i] = Some(Notification {  });
                Some(NotificationId::new(i as u32))
            },
            None => None,
        }
    }

    /// Records a shared memory region.
    pub fn alloc_shared_region(&mut self, region: SharedRegion) -> (r: Option<SharedRegionId>)
        requires
            old(self).wf(),
        ensures
            final(self).wf(),
            match first_free(old(self)@.shared_regions) {
                Some(i) => {
                    &&& r == Some(SharedRegionId(i as u32))
                    &&& final(self)@ == (KernelView {
                        shared_regions: old(self)@.shared_regions.update(i, Some(region)),
                        ..old(self)@
                    })
                },
                None => r is None && final(self)@ == old(self)@,
            },
    {
        match find_free(&self.shared_regions) {
            Some(i) => {
                self.shared_regions[i] = Some(region);
                Some(SharedRegionId::new(i as u32))
            },
            None => None,
        }
    }

    /// Records a device window. Ids are 32 bits wide, so a slot beyond that is not used.
    pub fn alloc_mmio_region_direct(&mut self, descriptor: MmioRegionDescriptor) -> (r: Option<
        MmioRegionId,
    >)
        requires
            old(self).wf(),
            MMIO <= u32::MAX,
        ensures
            final(self).wf(),
            match first_free(old(self)@.mmio_regions) {
                Some(i) => {
                    &&& r == Some(MmioRegionId(i as u32))
                    &&& final(self)@ == (KernelView {
                        mmio_regions: old(self)@.mmio_regions.update(i, Some(descriptor)),
                        ..old(self)@
                    })
                },
                None => r is None && final(self)@ == old(self)@,
            },
    {
        match find_free(&self.mmio_regions) {
            Some(i) => {
                self.mmio_regions[i] = Some(descriptor);
                Some(MmioRegionId::new(i as u32))
            },
            None => None,
        }
    }

    /// Binds the interrupt line `irq` to `notification`, in place of an earlier binding of the
    /// line if there is one. Returns `false` if the line is unbound and the table is full.
    pub fn bind_irq(&mut self, irq: u32, notification: NotificationId) -> (r: bool)
        requires
            old(self).wf(),
        ensures
            final(self).wf(),
            match bound_irqs(old(self)@.irq_bindings, irq, notification) {
                Some(bindings) => r && final(self)@ == (KernelView {
                    irq_bindings: bindings,
                    ..old(self)@
                }),
                None => !r && final(self)@ == old(self)@,
            },
    {
        let mut i: usize = 0;
        while i < MAX_IRQ_BINDINGS
            invariant
                i <= MAX_IRQ_BINDINGS,
                self.wf(),
                *self == *old(self),
                forall|j: int| 0 <= j < i ==> !binds(#[trigger] self@.irq_bindings[j], irq),
            decreases MAX_IRQ_BINDINGS - i,
        {
            if let Some((line, _)) = self.irq_bindings[i] {
                if line == irq {
                    proof {
                        lemma_binding_of(self@.irq_bindings, irq, i as int);
                    }
                    self.irq_bindings[i] = Some((irq, notification));
                    return true;
                }
            }
            i = i + 1;
        }
        proof {
            lemma_binding_of(self@.irq_bindings, irq, 0);
        }
        match find_free(&self.irq_bindings) {
            Some(free) => {
                self.irq_bindings[free] = Some((irq, notification));
                true
            },
            None => false,
        }
    }

    /// The notification that the interrupt line `irq` is bound to.
    pub fn notification_for_irq(&self, irq: u32) -> (r: Option<NotificationId>)
        requires
            self.wf(),
        ensures
            r == notification_bound(self@.irq_bindings, irq),
    {
        let mut i: usize = 0;
        while i < MAX_IRQ_BINDINGS
            invariant
                i <= MAX_IRQ_BINDINGS,
                self.wf(),
                forall|j: int| 0 <= j < i ==> !binds(#[trigger] self@.irq_bindings[j], irq),
            decreases MAX_IRQ_BINDINGS - i,
        {
            if let Some((line, notification)) = self.irq_bindings[i] {
                if line == irq {
                    proof {
                        lemma_binding_of(self@.irq_bindings, irq, i as int);
                    }
                    return Some(notification);
                }
            }
            i = i + 1;
        }
        proof {
            lemma_binding_of(self@.irq_bindings, irq, 0);
        }
        None
    }

    /// A capability space.
    pub fn cap_space(&self, id: CapSpaceId) -> (r: Option<&CapTable<CAP_SLOTS_PER_SPACE>>)
        requires
            self.wf(),
        ensures
            match r {
                Some(table) => table.wf() && slot(self@.spaces, id.0) == Some(table@),
                None => slot(self@.spaces, id.0) is None,
            },
    {
        let i = id.as_usize();
        if i < MAX_CAP_SPACES {
            self.cap_spaces[i].as_ref()
        } else {
            None
        }
    }

    /// Replacing one capability space by a well-formed one of the same id keeps the state
    /// well-formed.
    proof fn lemma_space_replaced(
        was: Self,
        will: Self,
        id: CapSpaceId,
        table: CapTable<CAP_SLOTS_PER_SPACE>,
    )
        requires
            was.wf(),
            id.0 < MAX_CAP_SPACES,
            will.cap_spaces@ == was.cap_spaces@.update(id.0 as int, Some(table)),
            will@ == (KernelView { spaces: will@.spaces, ..was@ }),
        ensures
            will@.spaces == was@.spaces.update(id.0 as int, Some(table@)),
            table.wf() && table@.space == id ==> will.wf(),
    {
        assert(will@.spaces =~= was@.spaces.update(id.0 as int, Some(table@)));
        if table.wf() && table@.space == id {
            table.lemma_view_wf();
            assert forall|s: int| 0 <= s < MAX_CAP_SPACES && (
            #[trigger] will@.spaces[s]) is Some implies {
                let t = will@.spaces[s]->0;
                t.wf() && t.space == CapSpaceId(s as u32) && t.entries.len() == CAP_SLOTS_PER_SPACE
            } by {
                assert(s != id.0 ==> will@.spaces[s] == was@.spaces[s]);
            }
        }
    }

    /// Replacing all capability spaces by well-formed ones in their places keeps the state
    /// well-formed.
    proof fn lemma_spaces_replaced(
        was: Self,
        will: Self,
        tables: [Option<CapTable<CAP_SLOTS_PER_SPACE>>; MAX_CAP_SPACES],
    )
        requires
            was.wf(),
            will.cap_spaces == tables,
            will@ == (KernelView { spaces: will@.spaces, ..was@ }),
        ensures
            tables_wf(tables@) && spaces_in_place(forest_of(tables@)) ==> will.wf(),
    {
        if tables_wf(tables@) && spaces_in_place(forest_of(tables@)) {
            assert forall|s: int| 0 <= s < MAX_CAP_SPACES && (
            #[trigger] will@.spaces[s]) is Some implies {
                let t = will@.spaces[s]->0;
                t.wf() && t.space == CapSpaceId(s as u32) && t.entries.len() == CAP_SLOTS_PER_SPACE
            } by {
                assert(tables@[s] is Some && forest_of(tables@)[s] is Some);
                tables@[s]->0.lemma_view_wf();
            }
        }
    }

    /// Mutable access to a capability space.
    pub fn cap_space_mut(&mut self, id: CapSpaceId) -> (r: Option<
        &mut CapTable<CAP_SLOTS_PER_SPACE>,
    >)
        requires
            old(self).wf(),
        ensures
            match r {
                Some(table) => {
                    &&& slot(old(self)@.spaces, id.0) == Some((*table)@)
                    &&& (*table).wf()
                    &&& final(self)@ == (KernelView {
                        spaces: old(self)@.spaces.update(id.0 as int, Some((*final(table))@)),
                        ..old(self)@
                    })
                    &&& (*final(table)).wf() && (*final(table))@.space == id ==> final(self).wf()
                },
                None => {
                    &&& slot(old(self)@.spaces, id.0) is None
                    &&& final(self).wf()
                    &&& final(self)@ == old(self)@
                },
            },
    {
        let i = id.as_usize();
        if i < MAX_CAP_SPACES {
            let ghost was = *self;
            let ghost will = *final(self);
            match &mut self.cap_spaces[i] {
                Some(table) => {
                    proof {
                        Self::lemma_space_replaced(was, will, id, *final(table));
                    }
                    Some(table)
                },
                None => {
                    assert(will.cap_spaces@ =~= was.cap_spaces@);
                    None
                },
            }
        } else {
            None
        }
    }

    /// Read access to the space `src` and mutable access to the space `dst` at once. `None` if
    /// they are the same space or one of them does not exist.
    pub fn cap_space_pair_mut(&mut self, src: CapSpaceId, dst: CapSpaceId) -> (r: Option<
        (&CapTable<CAP_SLOTS_PER_SPACE>, &mut CapTable<CAP_SLOTS_PER_SPACE>),
    >)
        requires
            old(self).wf(),
        ensures
            match r {
                Some((from, to)) => {
                    &&& src != dst
                    &&& slot(old(self)@.spaces, src.0) == Some(from@)
                    &&& slot(old(self)@.spaces, dst.0) == Some((*to)@)
                    &&& from.wf() && (*to).wf()
                    &&& final(self)@ == (KernelView {
                        spaces: old(self)@.spaces.update(dst.0 as int, Some((*final(to))@)),
                        ..old(self)@
                    })
                    &&& (*final(to)).wf() && (*final(to))@.space == dst ==> final(self).wf()
                },
                None => {
                    &&& src == dst || slot(old(self)@.spaces, src.0) is None || slot(
                        old(self)@.spaces,
                        dst.0,
                    ) is None
                    &&& final(self).wf()
                    &&& final(self)@ == old(self)@
                },
            },
    {
        let si = src.as_usize();
        let di = dst.as_usize();
        if si == di || si >= MAX_CAP_SPACES || di >= MAX_CAP_SPACES {
            return None;
        }
        if self.cap_spaces[si].is_none() || self.cap_spaces[di].is_none() {
            return None;
        }
        let ghost was = *self;
        let ghost will = *final(self);
        let at: usize = if si < di {
            di
        } else {
            si
        };
        let (left, right) = self.cap_spaces.split_at_mut(at);
        let (from, to) = if si < di {
            (&left[si], &mut right[0])
        } else {
            (&right[0], &mut left[di])
        };
        match (from, to) {
            (Some(from), Some(to)) => {
                proof {
                    assert(will.cap_spaces@ =~= was.cap_spaces@.update(
                        di as int,
                        Some(*final(to)),
                    ));
                    Self::lemma_space_replaced(was, will, dst, *final(to));
                }
                Some((from, to))
            },
            _ => None,
        }
    }

    /// Mutable access to every capability space at once.
    pub fn cap_spaces_mut(&mut self) -> (r: &mut [Option<
        CapTable<CAP_SLOTS_PER_SPACE>,
    >; MAX_CAP_SPACES])
        requires
            old(self).wf(),
        ensures
            tables_wf((*r)@),
            forest_of((*r)@) == old(self)@.spaces,
            final(self)@ == (KernelView { spaces: forest_of((*final(r))@), ..old(self)@ }),
            tables_wf((*final(r))@) && spaces_in_place(forest_of((*final(r))@)) ==> final(self).wf(),
    {
        let ghost was = *self;
        let ghost will = *final(self);
        let r = &mut self.cap_spaces;
        proof {
            Self::lemma_spaces_replaced(was, will, *final(r));
        }
        r
    }

    /// Stores the root capability `cap` in the capability space `cs`. `None` if the space does
    /// not exist.
    pub fn insert_root_into(&mut self, cs: CapSpaceId, cap: Capability) -> (r: Option<
        Result<CapId, CapTableError>,
    >)
        requires
            old(self).wf(),
        ensures
            final(self).wf(),
            match slot(old(self)@.spaces, cs.0) {
                Some(table) => if table.free.len() > 0 {
                    &&& r == Some(Ok::<CapId, CapTableError>(table.free[0]))
                    &&& final(self)@ == root_inserted(old(self)@, cs, cap)
                } else {
                    &&& r == Some(Err::<CapId, CapTableError>(CapTableError::Full))
                    &&& final(self)@ == old(self)@
                },
                None => r is None && final(self)@ == old(self)@,
            },
    {
        let ghost before = self@;
        proof {
            self.lemma_view_wf();
        }
        match self.cap_space_mut(cs) {
            Some(table) => {
                let r = table.insert_root(cap);
                assert(before.spaces.update(cs.0 as int, before.spaces[cs.0 as int])
                    =~= before.spaces);
                Some(r)
            },
            None => None,
        }
    }

    /// Takes the root capability at `cap` of the capability space `cs` back.
    pub fn remove_root_from(&mut self, cs: CapSpaceId, cap: CapId)
        requires
            old(self).wf(),
        ensures
            final(self).wf(),
            final(self)@ == match slot(old(self)@.spaces, cs.0) {
                Some(table) => KernelView {
                    spaces: old(self)@.spaces.update(cs.0 as int, Some(root_removed(table, cap))),
                    ..old(self)@
                },
                None => old(self)@,
            },
    {
        let ghost before = self@;
        proof {
            self.lemma_view_wf();
        }
        if let Some(table) = self.cap_space_mut(cs) {
            table.remove_root(cap);
            assert(before.spaces.update(cs.0 as int, before.spaces[cs.0 as int]) =~= before.spaces);
        }
    }

    /// Mutable access to an untyped memory object.
    pub fn untyped_mut(&mut self, id: UntypedId) -> (r: Option<&mut UntypedMemory>)
        requires
            old(self).wf(),
        ensures
            final(self).wf(),
            match r {
                Some(u) => {
                    &&& slot(old(self)@.untyped, id.0) == Some(*u)
                    &&& final(self)@ == (KernelView {
                        untyped: old(self)@.untyped.update(id.0 as int, Some(*final(u))),
                        ..old(self)@
                    })
                },
                None => slot(old(self)@.untyped, id.0) is None && final(self)@ == old(self)@,
            },
    {
        let i = id.as_usize();
        if i < MAX_UNTYPED {
            let ghost was = *self;
            let ghost will = *final(self);
            match &mut self.untyped[i] {
                Some(u) => Some(u),
                None => {
                    assert(will.untyped@ =~= was.untyped@);
                    None
                },
            }
        } else {
            None
        }
    }

    /// An untyped memory object.
    pub fn untyped(&self, id: UntypedId) -> (r: Option<UntypedMemory>)
        requires
            self.wf(),
        ensures
            r == slot(self@.untyped, id.0),
    {
        let i = id.as_usize();
        if i < MAX_UNTYPED {
            self.untyped[i]
        } else {
            None
        }
    }

    /// Mutable access to an address space.
    pub fn addr_space_mut(&mut self, id: PageTableId) -> (r: Option<&mut AddressSpace>)
        requires
            old(self).wf(),
        ensures
            final(self).wf(),
            match r {
                Some(a) => {
                    &&& slot(old(self)@.addr_spaces, id.0) == Some(*a)
                    &&& final(self)@ == (KernelView {
                        addr_spaces: old(self)@.addr_spaces.update(id.0 as int, Some(*final(a))),
                        ..old(self)@
                    })
                },
                None => slot(old(self)@.addr_spaces, id.0) is None && final(self)@ == old(self)@,
            },
    {
        let i = id.as_usize();
        if i < MAX_ADDR_SPACES {
            let ghost was = *self;
            let ghost will = *final(self);
            match &mut self.addr_spaces[i] {
                Some(a) => Some(a),
                None => {
                    assert(will.addr_spaces@ =~= was.addr_spaces@);
                    None
                },
            }
        } else {
            None
        }
    }

    /// An address space.
    pub fn addr_space(&self, id: PageTableId) -> (r: Option<AddressSpace>)
        requires
            self.wf(),
        ensures
            r == slot(self@.addr_spaces, id.0),
    {
        let i = id.as_usize();
        if i < MAX_ADDR_SPACES {
            self.addr_spaces[i]
        } else {
            None
        }
    }

    /// An endpoint.
    pub fn endpoint(&self, id: EndpointId) -> (r: Option<Endpoint>)
        requires
            self.wf(),
        ensures
            r == slot(self@.endpoints, id.0),
    {
        let i = id.as_usize();
        if i < MAX_ENDPOINTS {
            self.endpoints[i]
        } else {
            None
        }
    }

    /// A notification.
    pub fn notification(&self, id: NotificationId) -> (r: Option<Notification>)
        requires
            self.wf(),
        ensures
            r == slot(self@.notifications, id.0),
    {
        let i = id.as_usize();
        if i < MAX_NOTIFICATIONS {
            self.notifications[i]
        } else {
            None
        }
    }

    /// A shared memory region.
    pub fn shared_region(&self, id: SharedRegionId) -> (r: Option<&SharedRegion>)
        requires
            self.wf(),
        ensures
            match r {
                Some(region) => slot(self@.shared_regions, id.0) == Some(*region),
                None => slot(self@.shared_regions, id.0) is None,
            },
    {
        let i = id.as_usize();
        if i < MAX_SHARED_REGIONS {
            self.shared_regions[i].as_ref()
        } else {
            None
        }
    }

    /// A device window.
    pub fn mmio_region(&self, id: MmioRegionId) -> (r: Option<&MmioRegionDescriptor>)
        requires
            self.wf(),
        ensures
            match r {
                Some(region) => slot(self@.mmio_regions, id.0) == Some(*region),
                None => slot(self@.mmio_regions, id.0) is None,
            },
    {
        let i = id.as_usize();
        if i < MMIO {
            self.mmio_regions[i].as_ref()
        } else {
            None
        }
    }

    /// Mutable access to a thread's control block.
    pub fn tcb_mut(&mut self, id: ThreadId) -> (r: Option<&mut Tcb>)
        requires
            old(self).wf(),
        ensures
            final(self).wf(),
            match r {
                Some(t) => {
                    &&& slot(old(self)@.tcbs, id.0) == Some(*t)
                    &&& final(self)@ == (KernelView {
                        tcbs: old(self)@.tcbs.update(id.0 as int, Some(*final(t))),
                        ..old(self)@
                    })
                },
                None => slot(old(self)@.tcbs, id.0) is None && final(self)@ == old(self)@,
            },
    {
        let i = id.as_usize();
        if i < MAX_THREADS {
            let ghost was = *self;
            let ghost will = *final(self);
            match &mut self.tcbs[i] {
                Some(t) => Some(t),
                None => {
                    assert(will.tcbs@ =~= was.tcbs@);
                    None
                },
            }
        } else {
            None
        }
    }

    /// A thread's control block.
    pub fn tcb(&self, id: ThreadId) -> (r: Option<&Tcb>)
        requires
            self.wf(),
        ensures
            match r {
                Some(t) => slot(self@.tcbs, id.0) == Some(*t),
                None => slot(self@.tcbs, id.0) is None,
            },
    {
        let i = id.as_usize();
        if i < MAX_THREADS {
            self.tcbs[i].as_ref()
        } else {
            None
        }
    }

    /// Installs the scratch frames for page-table walks that map pages: `len` pages from physical
    /// address `base` on.
    pub fn install_map_pool(&mut self, base: usize, len: u32)
        requires
            old(self).wf(),
            base + len * PAGE_SIZE <= usize::MAX,
        ensures
            final(self).wf(),
            final(self)@ == (KernelView {
                map_pool: MapPool { base, len, used: 0 },
                ..old(self)@
            }),
    {
        self.map_pool = MapPool { base, len, used: 0 };
    }

    /// Physical address of the scratch frames, `0` if there are none.
    pub fn map_pool_base(&self) -> (base: usize)
        ensures
            base == self@.map_pool.base,
    {
        self.map_pool.base
    }

    /// Where the unused scratch frames start, and how many there are.
    pub fn map_pool_remaining(&self) -> (r: (usize, usize))
        requires
            self.wf(),
        ensures
            r.0 == self@.map_pool.base + self@.map_pool.used * PAGE_SIZE,
            r.1 == self@.map_pool.len - self@.map_pool.used,
    {
        assert(self.map_pool.used * PAGE_SIZE <= self.map_pool.len * PAGE_SIZE) by (nonlinear_arith)
            requires
                self.map_pool.used <= self.map_pool.len,
        ;
        (
            self.map_pool.base + self.map_pool.used as usize * PAGE_SIZE,
            (self.map_pool.len - self.map_pool.used) as usize,
        )
    }

    /// Takes `consumed` scratch frames out of the pool.
    pub fn map_pool_advance(&mut self, consumed: u32)
        requires
            old(self).wf(),
            consumed <= old(self)@.map_pool.len - old(self)@.map_pool.used,
        ensures
            final(self).wf(),
            final(self)@ == (KernelView {
                map_pool: MapPool {
                    used: (old(self)@.map_pool.used + consumed) as u32,
                    ..old(self)@.map_pool
                },
                ..old(self)@
            }),
    {
        self.map_pool.used = self.map_pool.used + consumed;
    }

    /// Bytes that all untyped memory objects cover together.
    pub fn total_untyped_bytes(&self) -> (total: u64)
        requires
            self.wf(),
            untyped_bytes(self@.untyped) <= u64::MAX,
        ensures
            total == untyped_bytes(self@.untyped),
    {
        let mut total: u64 = 0;
        let mut i: usize = 0;
        assert(self@.untyped.take(0) =~= seq![]);
        while i < MAX_UNTYPED
            invariant
                i <= MAX_UNTYPED,
                self.wf(),
                untyped_bytes(self@.untyped) <= u64::MAX,
                total == untyped_bytes(self@.untyped.take(i as int)),
            decreases MAX_UNTYPED - i,
        {
            proof {
                assert(self@.untyped.take(i + 1).drop_last() =~= self@.untyped.take(i as int));
                lemma_untyped_bytes_prefix(self@.untyped, i + 1);
            }
            if let Some(u) = self.untyped[i] {
                total = total + u.size;
            }
            i = i + 1;
        }
        assert(self@.untyped.take(i as int) =~= self@.untyped);
        total
    }

    /// Frees the slot of an object. A device window is never freed.
    pub fn free_kernel_object(&mut self, kind: KernelObjectKind, id: u32)
        requires
            old(self).wf(),
        ensures
            final(self).wf(),
            final(self)@ == object_freed(old(self)@, kind, id),
    {
        let i = id as usize;
        let ghost before = self@;
        match kind {
            KernelObjectKind::UntypedMemory => {
                if i < MAX_UNTYPED {
                    self.untyped[i] = None;
                }
            },
            KernelObjectKind::PageTable => {
                if i < MAX_ADDR_SPACES {
                    self.addr_spaces[i] = None;
                }
            },
            KernelObjectKind::ThreadControlBlock => {
                if i < MAX_THREADS {
                    self.tcbs[i] = None;
                }
            },
            KernelObjectKind::Endpoint => {
                if i < MAX_ENDPOINTS {
                    self.endpoints[i] = None;
                }
            },
            KernelObjectKind::Notification => {
                if i < MAX_NOTIFICATIONS {
                    self.notifications[i] = None;
                }
            },
            KernelObjectKind::CapabilitySpace => {
                if i < MAX_CAP_SPACES {
                    self.cap_spaces[i] = None;
                    assert(self@.spaces =~= before.spaces.update(i as int, None));
                }
            },
            KernelObjectKind::SharedRegion => {
                if i < MAX_SHARED_REGIONS {
                    self.shared_regions[i] = None;
                }
            },
            KernelObjectKind::MmioRegion => {},
        }
        assert(self@ =~= object_freed(before, kind, id));
    }
}

/// The kernel state after the root capability `cap` was stored in the space `cs`.
pub open spec fn root_inserted(k: KernelView, cs: CapSpaceId, cap: Capability) -> KernelView {
    KernelView {
        spaces: k.spaces.update(
            cs.0 as int,
            Some(k.spaces[cs.0 as int]->0.with_entry(CapEntry { cap, parent: None })),
        ),
        ..k
    }
}

/// The table with slot `i` empty.
pub open spec fn emptied<T>(table: Seq<Option<T>>, i: u32) -> Seq<Option<T>> {
    if i < table.len() {
        table.update(i as int, None)
    } else {
        table
    }
}

/// The kernel state after the slot of the object `id` of kind `kind` was freed.
pub open spec fn object_freed(k: KernelView, kind: KernelObjectKind, id: u32) -> KernelView {
    match kind {
        KernelObjectKind::UntypedMemory => KernelView { untyped: emptied(k.untyped, id), ..k },
        KernelObjectKind::PageTable => KernelView { addr_spaces: emptied(k.addr_spaces, id), ..k },
        KernelObjectKind::ThreadControlBlock => KernelView { tcbs: emptied(k.tcbs, id), ..k },
        KernelObjectKind::Endpoint => KernelView { endpoints: emptied(k.endpoints, id), ..k },
        KernelObjectKind::Notification => KernelView {
            notifications: emptied(k.notifications, id),
            ..k
        },
        KernelObjectKind::CapabilitySpace => KernelView { spaces: emptied(k.spaces, id), ..k },
        KernelObjectKind::SharedRegion => KernelView {
            shared_regions: emptied(k.shared_regions, id),
            ..k
        },
        KernelObjectKind::MmioRegion => k,
    }
}

/// Bytes that the untyped memory objects of a table cover together.
pub open spec fn untyped_bytes(table: Seq<Option<UntypedMemory>>) -> int
    decreases table.len(),
{
    if table.len() == 0 {
        0
    } else {
        untyped_bytes(table.drop_last()) + match table.last() {
            Some(u) => u.size as int,
            None => 0,
        }
    }
}

/// A part of the table covers no more than the whole.
proof fn lemma_untyped_bytes_prefix(table: Seq<Option<UntypedMemory>>, n: int)
    requires
        0 <= n <= table.len(),
    ensures
        0 <= untyped_bytes(table.take(n)) <= untyped_bytes(table),
    decreases table.len(),
{
    if n == table.len() {
        assert(table.take(n) =~= table);
        if n > 0 {
            lemma_untyped_bytes_prefix(table.drop_last(), n - 1);
            assert(table.drop_last().take(n - 1) =~= table.drop_last());
        }
    } else {
        lemma_untyped_bytes_prefix(table.drop_last(), n);
        assert(table.drop_last().take(n) =~= table.take(n));
    }
}

/// Every capability space backs the slot it stands in.
pub open spec fn spaces_in_place(spaces: Forest) -> bool {
    forall|s: int|
        0 <= s < spaces.len() && (#[trigger] spaces[s]) is Some ==> spaces[s]->0.space == CapSpaceId(
            s as u32,
        )
}

/// The binding is one of the interrupt line `irq`.
pub open spec fn binds(binding: Option<(u32, NotificationId)>, irq: u32) -> bool {
    binding is Some && (binding->0).0 == irq
}

/// The first binding of the interrupt line `irq`.
pub open spec fn binding_of(bindings: Seq<Option<(u32, NotificationId)>>, irq: u32) -> Option<int> {
    if exists|i: int| is_binding_of(bindings, irq, i) {
        Some(choose|i: int| is_binding_of(bindings, irq, i))
    } else {
        None
    }
}

/// `i` is the first binding of the interrupt line `irq`.
pub open spec fn is_binding_of(
    bindings: Seq<Option<(u32, NotificationId)>>,
    irq: u32,
    i: int,
) -> bool {
    &&& 0 <= i < bindings.len()
    &&& binds(bindings[i], irq)
    &&& forall|j: int| 0 <= j < i ==> !binds(#[trigger] bindings[j], irq)
}

/// `binding_of` finds the binding that `is_binding_of` describes.
proof fn lemma_binding_of(bindings: Seq<Option<(u32, NotificationId)>>, irq: u32, i: int)
    ensures
        is_binding_of(bindings, irq, i) ==> binding_of(bindings, irq) == Some(i),
        (forall|j: int| 0 <= j < bindings.len() ==> !binds(#[trigger] bindings[j], irq))
            ==> binding_of(bindings, irq) is None,
{
    if is_binding_of(bindings, irq, i) {
        let k = choose|k: int| is_binding_of(bindings, irq, k);
        if k < i {
            assert(!binds(bindings[k], irq));
        }
        if i < k {
            assert(!binds(bindings[i], irq));
        }
    }
}

/// The notification that the interrupt line `irq` is bound to.
pub open spec fn notification_bound(
    bindings: Seq<Option<(u32, NotificationId)>>,
    irq: u32,
) -> Option<NotificationId> {
    match binding_of(bindings, irq) {
        Some(i) => Some((bindings[i]->0).1),
        None => None,
    }
}

/// The bindings after `irq` was bound to `notification`: an earlier binding of the line is
/// replaced, else the lowest free slot is taken; `None` if there is neither.
pub open spec fn bound_irqs(
    bindings: Seq<Option<(u32, NotificationId)>>,
    irq: u32,
    notification: NotificationId,
) -> Option<Seq<Option<(u32, NotificationId)>>> {
    match binding_of(bindings, irq) {
        Some(i) => Some(bindings.update(i, Some((irq, notification)))),
        None => match first_free(bindings) {
            Some(i) => Some(bindings.update(i, Some((irq, notification)))),
            None => None,
        },
    }
}

/// Each interrupt line is bound at most once.
pub open spec fn irqs_bound_once(bindings: Seq<Option<(u32, NotificationId)>>) -> bool {
    forall|i: int, j: int|
        0 <= i < j < bindings.len() && (#[trigger] bindings[i]) is Some && (
        #[trigger] bindings[j]) is Some ==> (bindings[i]->0).0 != (bindings[j]->0).0
}

/// Binding a line makes it signal the notification named, changes no other line, and never
/// leaves a line with two bindings.
pub proof fn binding_one_irq_changes_no_other(
    bindings: Seq<Option<(u32, NotificationId)>>,
    irq: u32,
    notification: NotificationId,
    other: u32,
)
    requires
        irqs_bound_once(bindings),
        bound_irqs(bindings, irq, notification) is Some,
    ensures
        ({
            let after = bound_irqs(bindings, irq, notification)->0;
            &&& irqs_bound_once(after)
            &&& notification_bound(after, irq) == Some(notification)
            &&& other != irq ==> notification_bound(after, other) == notification_bound(
                bindings,
                other,
            )
        }),
{
    let after = bound_irqs(bindings, irq, notification)->0;
    let at = match binding_of(bindings, irq) {
        Some(i) => i,
        None => first_free(bindings)->0,
    };
    lemma_first_free(bindings, at);
    lemma_bound_somewhere(bindings, irq);
    lemma_bound_somewhere(bindings, other);
    assert(0 <= at < bindings.len());
    assert forall|j: int| 0 <= j < bindings.len() && j != at implies !binds(
        #[trigger] bindings[j],
        irq,
    ) by {
        if binds(bindings[j], irq) {
            let i = binding_of(bindings, irq)->0;
            assert(at == i);
            if i < j {
                assert((bindings[i]->0).0 != (bindings[j]->0).0);
            } else {
                assert((bindings[j]->0).0 != (bindings[i]->0).0);
            }
        }
    }
    assert(is_binding_of(after, irq, at)) by {
        assert forall|j: int| 0 <= j < at implies !binds(#[trigger] after[j], irq) by {
            assert(!binds(bindings[j], irq));
        }
    }
    lemma_binding_of(after, irq, at);
    assert(irqs_bound_once(after)) by {
        assert forall|i: int, j: int|
            0 <= i < j < after.len() && (#[trigger] after[i]) is Some && (#[trigger] after[j]) is Some implies (after[i]->0).0
            != (after[j]->0).0 by {
            if i == at {
                assert(!binds(bindings[j], irq));
            } else if j == at {
                assert(!binds(bindings[i], irq));
            }
        }
    }
    if other != irq {
        match binding_of(bindings, other) {
            Some(k) => {
                assert(k != at);
                assert(is_binding_of(after, other, k)) by {
                    assert forall|j: int| 0 <= j < k implies !binds(#[trigger] after[j], other) by {
                        assert(!binds(bindings[j], other));
                    }
                }
                lemma_binding_of(after, other, k);
            },
            None => {
                assert forall|j: int| 0 <= j < after.len() implies !binds(#[trigger] after[j], other) by {
                    assert(!binds(bindings[j], other));
                }
                lemma_binding_of(after, other, 0);
            },
        }
    }
}

/// A line with any binding has a first one.
pub proof fn lemma_bound_somewhere(bindings: Seq<Option<(u32, NotificationId)>>, irq: u32)
    ensures
        binding_of(bindings, irq) is None ==> forall|j: int|
            0 <= j < bindings.len() ==> !binds(#[trigger] bindings[j], irq),
        binding_of(bindings, irq) is Some ==> is_binding_of(
            bindings,
            irq,
            binding_of(bindings, irq)->0,
        ),
{
    if exists|j: int| 0 <= j < bindings.len() && binds(#[trigger] bindings[j], irq) {
        let j = choose|j: int| 0 <= j < bindings.len() && binds(#[trigger] bindings[j], irq);
        let i = lemma_lowest_binding(bindings, irq, j);
        assert(is_binding_of(bindings, irq, i));
    }
}

proof fn lemma_lowest_binding(
    bindings: Seq<Option<(u32, NotificationId)>>,
    irq: u32,
    j: int,
) -> (i: int)
    requires
        0 <= j < bindings.len(),
        binds(bindings[j], irq),
    ensures
        is_binding_of(bindings, irq, i),
    decreases j,
{
    if forall|k: int| 0 <= k < j ==> !binds(#[trigger] bindings[k], irq) {
        j
    } else {
        let k = choose|k: int| 0 <= k < j && binds(#[trigger] bindings[k], irq);
        lemma_lowest_binding(bindings, irq, k)
    }
}

} // verus!
