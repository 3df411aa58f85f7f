//! Building the initial kernel state: the first process and the memory it is given.

use crate::capability::{full_capability, Capability, KernelObjectKind, ObjectRef};
use crate::cdt::empty_table;
use crate::config::{CAP_SLOTS_PER_SPACE, NO_CAP, PAGE_SIZE};
use crate::ids::{CapId, CapSpaceId, ObjectId, PageTableId, ThreadId};
use crate::memory::{are_fragments, effective_holes, fragments, subtract_holes, MAX_HOLES};
use crate::objects::{AddressSpace, MmioRegionDescriptor, UntypedMemory};
use crate::state::{
    empty_kernel, first_free, lemma_first_free, root_inserted, slot, KernelInitError, KernelState,
    KernelView, RootTask,
};
use crate::tcb::{inactive_tcb, Tcb, ThreadState};
use vstd::prelude::*;

verus! {

/// One memory region that the firmware reports.
#[derive(Debug, Clone, Copy, PartialEq, Eq, Structural)]
pub struct MemoryRegion {
    /// First physical address.
    pub base: u64,
    /// Length in bytes.
    pub length: u64,
    /// Whether it is ordinary memory that nothing claims.
    pub usable: bool,
}

/// What a device is for.
#[derive(Debug, Clone, Copy, PartialEq, Eq, Structural)]
pub enum PeripheralKind {
    /// Block storage.
    Block,
    /// Networking.
    Network,
    /// Anything else.
    Other,
}

/// One device that the boot-time scan found.
#[derive(Debug, Clone, Copy, PartialEq, Eq, Structural)]
pub struct PeripheralDevice {
    /// What the device is for.
    pub kind: PeripheralKind,
    /// Its window and interrupt line.
    pub window: MmioRegionDescriptor,
}

/// What the boot loader hands over.
pub struct BootInfo<'a> {
    /// Whether the handover passed its own validation.
    pub valid: bool,
    /// Physical address of the page table in force.
    pub initial_page_table_phys: u64,
    /// Physical range of the kernel image.
    pub kernel_image: (u64, u64),
    /// Physical range that the boot loader still uses.
    pub boot_reserved: (u64, u64),
    /// The memory map.
    pub regions: &'a [MemoryRegion],
    /// The devices.
    pub devices: &'a [PeripheralDevice],
}

/// The ranges that no process may be given: the kernel image, what the boot loader still
/// uses, and everything below the kernel image, where firmware lives.
pub open spec fn holes_of(boot: BootInfo) -> Seq<(u64, u64)> {
    seq![boot.kernel_image, boot.boot_reserved, (0u64, boot.kernel_image.0)]
}

/// The end of a region, as far as addresses reach.
pub open spec fn region_end(region: MemoryRegion) -> u64 {
    if region.base + region.length > u64::MAX {
        u64::MAX
    } else {
        (region.base + region.length) as u64
    }
}

/// The ranges of at least a page, in order.
pub open spec fn whole_pages(ranges: Seq<(u64, u64)>) -> Seq<(u64, u64)>
    decreases ranges.len(),
{
    if ranges.len() == 0 {
        seq![]
    } else {
        let before = whole_pages(ranges.drop_last());
        if ranges.last().1 - ranges.last().0 >= PAGE_SIZE {
            before.push(ranges.last())
        } else {
            before
        }
    }
}

/// The fragments of one region that can be given away.
pub open spec fn region_fragments(boot: BootInfo, region: MemoryRegion) -> Seq<(u64, u64)> {
    if region.usable && region.length >= PAGE_SIZE {
        whole_pages(fragments(region.base, region_end(region), holes_of(boot)))
    } else {
        seq![]
    }
}

/// The fragments of the regions that can be given away, in the order of the memory map.
pub open spec fn free_fragments(boot: BootInfo, regions: Seq<MemoryRegion>) -> Seq<(u64, u64)>
    decreases regions.len(),
{
    if regions.len() == 0 {
        seq![]
    } else {
        free_fragments(boot, regions.drop_last()) + region_fragments(boot, regions.last())
    }
}

/// How far the seeding of untyped memory has come.
#[verifier::ext_equal]
pub struct Seeding {
    /// The kernel state.
    pub kernel: KernelView,
    /// Memory objects with a capability made so far.
    pub made: int,
    /// A table is full, nothing more is made.
    pub stopped: bool,
}

/// A full capability to the object `id` of kind `kind`.
pub open spec fn full_cap_to(kind: KernelObjectKind, id: int) -> Capability {
    full_capability(ObjectRef { kind, id: ObjectId(id as u32) })
}

/// Each fragment in turn becomes an untyped memory object, to which the space `cs` gets a full
/// capability, until the table of untyped memory or the space is full.
pub open spec fn seeded(k: KernelView, cs: CapSpaceId, ranges: Seq<(u64, u64)>) -> Seeding
    decreases ranges.len(),
{
    if ranges.len() == 0 {
        Seeding { kernel: k, made: 0, stopped: false }
    } else {
        seed_one(seeded(k, cs, ranges.drop_last()), cs, ranges.last())
    }
}

/// One step of `seeded`.
pub open spec fn seed_one(s: Seeding, cs: CapSpaceId, range: (u64, u64)) -> Seeding {
    if s.stopped {
        s
    } else {
        match first_free(s.kernel.untyped) {
            None => Seeding { stopped: true, ..s },
            Some(i) => {
                let made = KernelView {
                    untyped: s.kernel.untyped.update(
                        i,
                        Some(UntypedMemory { base: range.0, size: (range.1 - range.0) as u64 }),
                    ),
                    ..s.kernel
                };
                if s.kernel.spaces[cs.0 as int]->0.free.len() == 0 {
                    Seeding { kernel: made, made: s.made, stopped: true }
                } else {
                    Seeding {
                        kernel: root_inserted(
                            made,
                            cs,
                            full_cap_to(KernelObjectKind::UntypedMemory, i),
                        ),
                        made: s.made + 1,
                        stopped: false,
                    }
                }
            },
        }
    }
}

/// The slot a root capability gets in the space `cs`, `NO_CAP` if there is no room.
pub open spec fn next_slot(k: KernelView, cs: CapSpaceId) -> CapId {
    if k.spaces[cs.0 as int]->0.free.len() > 0 {
        k.spaces[cs.0 as int]->0.free[0]
    } else {
        CapId(NO_CAP)
    }
}

/// The state after a root capability was stored in the space `cs`, if there is room.
pub open spec fn root_inserted_if_room(k: KernelView, cs: CapSpaceId, cap: Capability) -> KernelView {
    if k.spaces[cs.0 as int]->0.free.len() > 0 {
        root_inserted(k, cs, cap)
    } else {
        k
    }
}

/// The first device of a kind.
pub open spec fn first_device(devices: Seq<PeripheralDevice>, kind: PeripheralKind) -> Option<
    PeripheralDevice,
>
    decreases devices.len(),
{
    if devices.len() == 0 {
        None
    } else if devices[0].kind == kind {
        Some(devices[0])
    } else {
        first_device(devices.skip(1), kind)
    }
}

/// The first device of a kind is recorded and the space `cs` gets a full capability to it, as
/// far as there is room. Yields the state and the slot of the capability.
pub open spec fn device_seeded(
    k: KernelView,
    cs: CapSpaceId,
    devices: Seq<PeripheralDevice>,
    kind: PeripheralKind,
) -> (KernelView, CapId) {
    match first_device(devices, kind) {
        None => (k, CapId(NO_CAP)),
        Some(d) => match first_free(k.mmio_regions) {
            None => (k, CapId(NO_CAP)),
            Some(i) => {
                let made = KernelView {
                    mmio_regions: k.mmio_regions.update(i, Some(d.window)),
                    ..k
                };
                (
                    root_inserted_if_room(made, cs, full_cap_to(KernelObjectKind::MmioRegion, i)),
                    next_slot(made, cs),
                )
            },
        },
    }
}

/// What `populate_from_boot_info` does: the kernel state it leaves and what it returns.
pub open spec fn booted(k: KernelView, boot: BootInfo) -> (
    KernelView,
    Result<RootTask, KernelInitError>,
) {
    if !boot.valid {
        (k, Err(KernelInitError::BadBootInfo))
    } else {
        match first_free(k.spaces) {
            None => (k, Err(KernelInitError::CapacityExhausted)),
            Some(c) => {
                let cs = CapSpaceId(c as u32);
                let k1 = KernelView {
                    spaces: k.spaces.update(
                        c,
                        Some(empty_table(CAP_SLOTS_PER_SPACE as nat, cs)),
                    ),
                    ..k
                };
                match first_free(k.addr_spaces) {
                    None => (k1, Err(KernelInitError::CapacityExhausted)),
                    Some(a) => {
                        let k2 = KernelView {
                            addr_spaces: k.addr_spaces.update(
                                a,
                                Some(AddressSpace { root_phys: boot.initial_page_table_phys }),
                            ),
                            ..k1
                        };
                        match first_free(k.tcbs) {
                            None => (k2, Err(KernelInitError::CapacityExhausted)),
                            Some(t) => {
                                let thread = ThreadId(t as u32);
                                let addr_space = PageTableId(a as u32);
                                let k3 = KernelView {
                                    tcbs: k.tcbs.update(
                                        t,
                                        Some(inactive_tcb(thread, cs, addr_space, None)),
                                    ),
                                    ..k2
                                };
                                booted_with(k3, boot, thread, cs, addr_space)
                            },
                        }
                    },
                }
            },
        }
    }
}

/// The rest of `booted`, once the first process has its thread, its capability space and its
/// address space: its memory, its page table capability, its devices.
pub open spec fn booted_with(
    k: KernelView,
    boot: BootInfo,
    thread: ThreadId,
    cs: CapSpaceId,
    addr_space: PageTableId,
) -> (KernelView, Result<RootTask, KernelInitError>) {
    let seeding = seeded(k, cs, free_fragments(boot, boot.regions@));
    if seeding.made == 0 {
        (seeding.kernel, Err(KernelInitError::NoUsableMemory))
    } else {
        let page_table_cap = next_slot(seeding.kernel, cs);
        let k4 = root_inserted_if_room(
            seeding.kernel,
            cs,
            full_cap_to(KernelObjectKind::PageTable, addr_space.0 as int),
        );
        let (k5, mmio_blk_cap) = device_seeded(k4, cs, boot.devices@, PeripheralKind::Block);
        let (k6, mmio_net_cap) = device_seeded(k5, cs, boot.devices@, PeripheralKind::Network);
        (
            k6,
            Ok(
                RootTask {
                    thread,
                    cap_space: cs,
                    addr_space,
                    page_table_cap,
                    mmio_blk_cap,
                    mmio_net_cap,
                    untyped_count: seeding.made as u32,
                },
            ),
        )
    }
}

/// Nothing is made any more once a table is full.
proof fn lemma_seeded_stopped(k: KernelView, cs: CapSpaceId, a: Seq<(u64, u64)>, b: Seq<(u64, u64)>)
    requires
        seeded(k, cs, a).stopped,
    ensures
        seeded(k, cs, a + b) == seeded(k, cs, a),
    decreases b.len(),
{
    if b.len() == 0 {
        assert(a + b =~= a);
    } else {
        lemma_seeded_stopped(k, cs, a, b.drop_last());
        assert((a + b).drop_last() =~= a + b.drop_last());
    }
}

/// The fragments of the first regions come first.
proof fn lemma_free_fragments_prefix(boot: BootInfo, regions: Seq<MemoryRegion>, n: int) -> (rest: Seq<
    (u64, u64),
>)
    requires
        0 <= n <= regions.len(),
    ensures
        free_fragments(boot, regions) == free_fragments(boot, regions.take(n)) + rest,
    decreases regions.len() - n,
{
    if n == regions.len() {
        assert(regions.take(n) =~= regions);
        assert(free_fragments(boot, regions) =~= free_fragments(boot, regions) + seq![]);
        seq![]
    } else {
        let rest = lemma_free_fragments_prefix(boot, regions, n + 1);
        assert(regions.take(n + 1).drop_last() =~= regions.take(n));
        let here = region_fragments(boot, regions[n]);
        assert(free_fragments(boot, regions) =~= free_fragments(boot, regions.take(n)) + (here
            + rest));
        here + rest
    }
}

/// The whole pages among the first ranges come first.
proof fn lemma_whole_pages_prefix(ranges: Seq<(u64, u64)>, n: int) -> (rest: Seq<(u64, u64)>)
    requires
        0 <= n <= ranges.len(),
    ensures
        whole_pages(ranges) == whole_pages(ranges.take(n)) + rest,
    decreases ranges.len() - n,
{
    if n == ranges.len() {
        assert(ranges.take(n) =~= ranges);
        assert(whole_pages(ranges) =~= whole_pages(ranges) + seq![]);
        seq![]
    } else {
        let rest = lemma_whole_pages_prefix(ranges, n + 1);
        assert(ranges.take(n + 1).drop_last() =~= ranges.take(n));
        if ranges[n].1 - ranges[n].0 >= PAGE_SIZE {
            let here = seq![ranges[n]];
            assert(whole_pages(ranges) =~= whole_pages(ranges.take(n)) + (here + rest));
            here + rest
        } else {
            rest
        }
    }
}

impl<const MMIO: usize> KernelState<MMIO> {
    /// Turns one fragment of memory into an untyped memory object and gives the space `cs` a
    /// full capability to it. Returns `false` if a table is full.
    fn seed_fragment(&mut self, cs: CapSpaceId, range: (u64, u64)) -> (made: bool)
        requires
            old(self).wf(),
            slot(old(self)@.spaces, cs.0) is Some,
            range.0 <= range.1,
        ensures
            final(self).wf(),
            ({
                let before = Seeding { kernel: old(self)@, made: 0, stopped: false };
                let after = seed_one(before, cs, range);
                after == (Seeding {
                    kernel: final(self)@,
                    made: if made {
                        1
                    } else {
                        0
                    },
                    stopped: !made,
                })
            }),
            slot(final(self)@.spaces, cs.0) is Some,
            made ==> slot(final(self)@.spaces, cs.0)->0.free.len() + 1 == slot(
                old(self)@.spaces,
                cs.0,
            )->0.free.len(),
    {
        proof {
            self.lemma_view_wf();
            lemma_first_free(self@.untyped, 0);
            if first_free(self@.untyped) is Some {
                lemma_first_free(self@.untyped, first_free(self@.untyped)->0);
            }
        }
        let id = match self.alloc_untyped(range.0, range.1 - range.0) {
            Some(id) => id,
            None => {
                return false;
            },
        };
        let cap = Capability::full(
            ObjectRef::new(KernelObjectKind::UntypedMemory, ObjectId::new(id.as_u32())),
        );
        match self.insert_root_into(cs, cap) {
            Some(Ok(_)) => true,
            _ => false,
        }
    }

    /// Gives the space `cs`, which must be empty, a full capability to each usable fragment of
    /// memory, as far as the tables reach, and returns how many it was given.
    fn seed_untyped(&mut self, boot: &BootInfo, cs: CapSpaceId) -> (made: u32)
        requires
            old(self).wf(),
            slot(old(self)@.spaces, cs.0) == Some(empty_table(CAP_SLOTS_PER_SPACE as nat, cs)),
        ensures
            final(self).wf(),
            ({
                let s = seeded(old(self)@, cs, free_fragments(*boot, boot.regions@));
                final(self)@ == s.kernel && made == s.made
            }),
            slot(final(self)@.spaces, cs.0) is Some,
    {
        let ghost k = self@;
        let holes: [(u64, u64); 3] = [
            boot.kernel_image,
            boot.boot_reserved,
            (0, boot.kernel_image.0),
        ];
        assert(holes@ =~= holes_of(*boot));
        let mut made: u32 = 0;
        let mut i: usize = 0;
        assert(boot.regions@.take(0) =~= seq![]);
        while i < boot.regions.len()
            invariant
                i <= boot.regions@.len(),
                k == old(self)@,
                self.wf(),
                holes@ == holes_of(*boot),
                slot(self@.spaces, cs.0) is Some,
                slot(self@.spaces, cs.0)->0.free.len() + made == CAP_SLOTS_PER_SPACE,
                seeded(k, cs, free_fragments(*boot, boot.regions@.take(i as int))) == (Seeding {
                    kernel: self@,
                    made: made as int,
                    stopped: false,
                }),
            decreases boot.regions@.len() - i,
        {
            let region = boot.regions[i];
            let ghost prefix = free_fragments(*boot, boot.regions@.take(i as int));
            proof {
                assert(boot.regions@.take(i + 1).drop_last() =~= boot.regions@.take(i as int));
            }
            if region.usable && region.length >= PAGE_SIZE as u64 {
                let end: u64 = region.base.saturating_add(region.length);
                assert(end == region_end(region));
                let mut frags: [(u64, u64); MAX_HOLES] = [(0, 0);MAX_HOLES];
                let n = subtract_holes(region.base, end, holes.as_slice(), &mut frags);
                let ghost all = fragments(region.base, end, holes@);
                proof {
                    lemma_three_holes(region.base, end, holes@);
                    assert(all.len() <= 4);
                    assert(n == all.len());
                    assert(forall|j: int| 0 <= j < n ==> frags@[j] == all[j]);
                    assert(all.take(0) =~= seq![]);
                    assert(prefix + whole_pages(all.take(0)) =~= prefix);
                }
                let mut j: usize = 0;
                while j < n
                    invariant
                        j <= n == all.len() <= MAX_HOLES,
                        i < boot.regions@.len(),
                        k == old(self)@,
                        region == boot.regions@[i as int],
                        region.usable && region.length >= PAGE_SIZE,
                        all == fragments(region.base, region_end(region), holes_of(*boot)),
                        prefix == free_fragments(*boot, boot.regions@.take(i as int)),
                        are_fragments(
                            all,
                            region.base,
                            end,
                            effective_holes(region.base, end, holes@),
                        ),
                        forall|m: int| 0 <= m < n ==> frags@[m] == all[m],
                        self.wf(),
                        slot(self@.spaces, cs.0) is Some,
                        slot(self@.spaces, cs.0)->0.free.len() + made == CAP_SLOTS_PER_SPACE,
                        seeded(k, cs, prefix + whole_pages(all.take(j as int))) == (Seeding {
                            kernel: self@,
                            made: made as int,
                            stopped: false,
                        }),
                    decreases n - j,
                {
                    let frag = frags[j];
                    let ghost so_far = prefix + whole_pages(all.take(j as int));
                    proof {
                        assert(frag == all[j as int]);
                        assert(all.take(j + 1).drop_last() =~= all.take(j as int));
                    }
                    if frag.1 - frag.0 >= PAGE_SIZE as u64 {
                        proof {
                            assert(prefix + whole_pages(all.take(j + 1)) =~= so_far.push(frag));
                            assert(so_far.push(frag).drop_last() =~= so_far);
                        }
                        if !self.seed_fragment(cs, frag) {
                            proof {
                                let here = so_far.push(frag);
                                assert(seeded(k, cs, here).stopped);
                                let more = lemma_whole_pages_prefix(all, j + 1);
                                let rest = lemma_free_fragments_prefix(*boot, boot.regions@, i + 1);
                                assert(boot.regions@.take(i + 1).drop_last()
                                    =~= boot.regions@.take(i as int));
                                assert(free_fragments(*boot, boot.regions@) =~= here + (more
                                    + rest));
                                lemma_seeded_stopped(k, cs, here, more + rest);
                            }
                            return made;
                        }
                        made = made + 1;
                    }
                    j = j + 1;
                }
                assert(all.take(n as int) =~= all);
            } else {
                assert(prefix + seq![] =~= prefix);
            }
            i = i + 1;
        }
        assert(boot.regions@.take(i as int) =~= boot.regions@);
        made
    }
}

/// Three holes cut a range into at most four fragments.
proof fn lemma_three_holes(start: u64, end: u64, holes: Seq<(u64, u64)>)
    requires
        holes.len() == 3,
    ensures
        effective_holes(start, end, holes).len() <= 3,
{
    reveal_with_fuel(effective_holes, 4);
}

impl<const MMIO: usize> KernelState<MMIO> {
    /// Records the first device of a kind and gives the space `cs` a full capability to it.
    /// Returns the slot of the capability, `NO_CAP` if there is no device or no room.
    fn seed_device(&mut self, devices: &[PeripheralDevice], cs: CapSpaceId, kind: PeripheralKind) -> (r:
        CapId)
        requires
            old(self).wf(),
            MMIO <= u32::MAX,
            slot(old(self)@.spaces, cs.0) is Some,
        ensures
            final(self).wf(),
            (final(self)@, r) == device_seeded(old(self)@, cs, devices@, kind),
            slot(final(self)@.spaces, cs.0) is Some,
    {
        proof {
            self.lemma_view_wf();
        }
        let mut i: usize = 0;
        assert(devices@.skip(0) =~= devices@);
        while i < devices.len()
            invariant
                i <= devices@.len(),
                *self == *old(self),
                self.wf(),
                MMIO <= u32::MAX,
                slot(self@.spaces, cs.0) is Some,
                first_device(devices@, kind) == first_device(devices@.skip(i as int), kind),
            decreases devices@.len() - i,
        {
            if devices[i].kind == kind {
                proof {
                    if first_free(self@.mmio_regions) is Some {
                        lemma_first_free(self@.mmio_regions, first_free(self@.mmio_regions)->0);
                    }
                }
                let id = match self.alloc_mmio_region_direct(devices[i].window) {
                    Some(id) => id,
                    None => {
                        return CapId::new(NO_CAP);
                    },
                };
                let cap = Capability::full(
                    ObjectRef::new(KernelObjectKind::MmioRegion, ObjectId::new(id.as_u32())),
                );
                return match self.insert_root_into(cs, cap) {
                    Some(Ok(slot)) => slot,
                    _ => CapId::new(NO_CAP),
                };
            }
            assert(devices@.skip(i as int).skip(1) =~= devices@.skip(i + 1));
            i = i + 1;
        }
        CapId::new(NO_CAP)
    }

    /// Builds the first process in the tables: its capability space, address space and thread,
    /// a capability to each free fragment of usable memory, one to its own address space and
    /// one each to the first block and network device. The caller schedules its thread and
    /// then calls `adopt_root_task`.
    pub fn populate_from_boot_info(&mut self, boot: &BootInfo) -> (r: Result<
        RootTask,
        KernelInitError,
    >)
        requires
            old(self).wf(),
            MMIO <= u32::MAX,
        ensures
            final(self).wf(),
            (final(self)@, r) == booted(old(self)@, *boot),
    {
        if !boot.valid {
            return Err(KernelInitError::BadBootInfo);
        }
        proof {
            self.lemma_view_wf();
            if first_free(self@.spaces) is Some {
                lemma_first_free(self@.spaces, first_free(self@.spaces)->0);
            }
            if first_free(self@.addr_spaces) is Some {
                lemma_first_free(self@.addr_spaces, first_free(self@.addr_spaces)->0);
            }
        }
        let cs = match self.alloc_cap_space() {
            Some(cs) => cs,
            None => {
                return Err(KernelInitError::CapacityExhausted);
            },
        };
        let addr_space = match self.alloc_addr_space(boot.initial_page_table_phys) {
            Some(a) => a,
            None => {
                return Err(KernelInitError::CapacityExhausted);
            },
        };
        let thread = match self.alloc_tcb(cs, addr_space, None) {
            Some(t) => t,
            None => {
                return Err(KernelInitError::CapacityExhausted);
            },
        };
        let untyped_count = self.seed_untyped(boot, cs);
        if untyped_count == 0 {
            return Err(KernelInitError::NoUsableMemory);
        }
        proof {
            self.lemma_view_wf();
        }
        let pt_cap = Capability::full(
            ObjectRef::new(KernelObjectKind::PageTable, ObjectId::new(addr_space.as_u32())),
        );
        let page_table_cap = match self.insert_root_into(cs, pt_cap) {
            Some(Ok(slot)) => slot,
            _ => CapId::new(NO_CAP),
        };
        let mmio_blk_cap = self.seed_device(boot.devices, cs, PeripheralKind::Block);
        let mmio_net_cap = self.seed_device(boot.devices, cs, PeripheralKind::Network);
        Ok(
            RootTask {
                thread,
                cap_space: cs,
                addr_space,
                page_table_cap,
                mmio_blk_cap,
                mmio_net_cap,
                untyped_count,
            },
        )
    }

    /// Tables with the first process in them.
    pub fn from_boot_info(boot: &BootInfo) -> (r: Result<(Self, RootTask), KernelInitError>)
        requires
            MMIO <= u32::MAX,
        ensures
            ({
                let (k, result) = booted(empty_kernel(MMIO as nat), *boot);
                match r {
                    Ok((state, root)) => state.wf() && state@ == k && result == Ok::<
                        RootTask,
                        KernelInitError,
                    >(root),
                    Err(e) => result == Err::<RootTask, KernelInitError>(e),
                }
            }),
    {
        let mut state = Self::empty();
        match state.populate_from_boot_info(boot) {
            Ok(root) => Ok((state, root)),
            Err(e) => Err(e),
        }
    }

    /// Makes the first process runnable and records it, once the scheduler has admitted its
    /// thread and made it ready.
    pub fn adopt_root_task(&mut self, root: RootTask, scheduled: bool) -> (r: Result<
        (),
        KernelInitError,
    >)
        requires
            old(self).wf(),
        ensures
            final(self).wf(),
            (final(self)@, r) == adopted(old(self)@, root, scheduled),
    {
        if !scheduled {
            return Err(KernelInitError::CapacityExhausted);
        }
        if let Some(tcb) = self.tcb_mut(root.thread) {
            if !matches!(tcb.state, ThreadState::Exited) {
                tcb.entry = 0;
                tcb.state = ThreadState::Runnable;
            }
        }
        self.set_root(root);
        Ok(())
    }
}

/// The first process is made runnable and recorded, unless the scheduler refused its thread.
pub open spec fn adopted(k: KernelView, root: RootTask, scheduled: bool) -> (
    KernelView,
    Result<(), KernelInitError>,
) {
    if scheduled {
        (KernelView { tcbs: started(k.tcbs, root.thread, 0), root, ..k }, Ok(()))
    } else {
        (k, Err(KernelInitError::CapacityExhausted))
    }
}

/// The threads after `thread`, if it exists, was made runnable from `entry` on. A thread that
/// has exited stays as it is.
pub open spec fn started(tcbs: Seq<Option<Tcb>>, thread: ThreadId, entry: usize) -> Seq<
    Option<Tcb>,
> {
    match slot(tcbs, thread.0) {
        Some(t) => if t.state is Exited {
            tcbs
        } else {
            tcbs.update(thread.0 as int, Some(Tcb { entry, state: ThreadState::Runnable, ..t }))
        },
        None => tcbs,
    }
}

} // verus!
