//! What holds of every kernel state that was built at boot.

use crate::boot::{
    adopted, booted, booted_with, device_seeded, first_device, free_fragments, full_cap_to, holes_of, region_end,
    root_inserted_if_room, seed_one, seeded, whole_pages, BootInfo, MemoryRegion,
    PeripheralDevice, PeripheralKind, Seeding,
};
use crate::capability::{Capability, KernelObjectKind};
use crate::cdt::{empty_table, CapEntry};
use crate::cdt_laws::{forest_sound, inserting_a_root_keeps_sound, new_space_keeps_sound, with_table};
use crate::config::{CAP_SLOTS_PER_SPACE, PAGE_SIZE};
use crate::ids::{CapId, CapSpaceId};
use crate::memory::{effective_holes_cover, fragments, fragments_exist, in_some};
use crate::rights::ALL_BITS;
use crate::state::{
    first_free, lemma_first_free, slot, KernelInitError, KernelView, RootTask,
};
use crate::tcb::{Tcb, ThreadState};
use vstd::prelude::*;

verus! {

/// `x` is ordinary memory that some region reports.
pub open spec fn usable_at(regions: Seq<MemoryRegion>, x: int) -> bool {
    exists|i: int|
        0 <= i < regions.len() && (#[trigger] regions[i]).usable && regions[i].base <= x
            < region_end(regions[i])
}

/// Every whole page range is one of the ranges.
proof fn lemma_whole_pages(ranges: Seq<(u64, u64)>, i: int) -> (j: int)
    requires
        0 <= i < whole_pages(ranges).len(),
    ensures
        0 <= j < ranges.len(),
        ranges[j] == whole_pages(ranges)[i],
        ranges[j].1 - ranges[j].0 >= PAGE_SIZE,
    decreases ranges.len(),
{
    let before = whole_pages(ranges.drop_last());
    if i < before.len() {
        lemma_whole_pages(ranges.drop_last(), i)
    } else {
        ranges.len() - 1
    }
}

/// What is given away at boot is at least a page of ordinary memory, and no byte of it belongs
/// to the kernel image, to the boot loader or to the firmware below the kernel.
pub proof fn given_memory_is_free(
    boot: BootInfo,
    regions: Seq<MemoryRegion>,
    i: int,
    x: int,
)
    requires
        0 <= i < free_fragments(boot, regions).len(),
        free_fragments(boot, regions)[i].0 <= x < free_fragments(boot, regions)[i].1,
    ensures
        usable_at(regions, x),
        !in_some(holes_of(boot), x),
        free_fragments(boot, regions)[i].1 - free_fragments(boot, regions)[i].0 >= PAGE_SIZE,
    decreases regions.len(),
{
    let rest = regions.drop_last();
    let before = free_fragments(boot, rest);
    if i < before.len() {
        given_memory_is_free(boot, rest, i, x);
        let j = choose|j: int|
            0 <= j < rest.len() && (#[trigger] rest[j]).usable && rest[j].base <= x < region_end(
                rest[j],
            );
        assert(regions[j] == rest[j]);
    } else {
        let region = regions.last();
        let (start, end) = (region.base, region_end(region));
        let all = fragments(start, end, holes_of(boot));
        let j = lemma_whole_pages(all, i - before.len());
        fragments_exist(start, end, holes_of(boot));
        assert(all[j].0 <= x < all[j].1);
        assert(in_some(all, x));
        effective_holes_cover(start, end, holes_of(boot), x);
        assert(regions[regions.len() - 1] == region);
    }
}

/// The space `cs` holds capabilities to the memory given so far, in its first slots, and each
/// names an untyped memory object.
spec fn memory_held(s: Seeding, cs: CapSpaceId) -> bool {
    let table = s.kernel.spaces[cs.0 as int]->0;
    &&& slot(s.kernel.spaces, cs.0) is Some
    &&& table.entries.len() == CAP_SLOTS_PER_SPACE
    &&& table.space == cs
    &&& 0 <= s.made <= CAP_SLOTS_PER_SPACE
    &&& table.free == Seq::new(
        (CAP_SLOTS_PER_SPACE - s.made) as nat,
        |i: int| CapId((s.made + i) as u32),
    )
    &&& forall|j: int| 0 <= j < s.made ==> holds_memory(s.kernel, #[trigger] table.entries[j])
}

/// The entry is a full root capability to an untyped memory object that exists.
pub open spec fn holds_memory(k: KernelView, entry: Option<CapEntry>) -> bool {
    &&& entry is Some
    &&& entry->0.parent is None
    &&& entry->0.cap == full_cap_to(
        KernelObjectKind::UntypedMemory,
        entry->0.cap.object.id.0 as int,
    )
    &&& slot(k.untyped, entry->0.cap.object.id.0) is Some
}

proof fn lemma_seeded(k: KernelView, cs: CapSpaceId, ranges: Seq<(u64, u64)>)
    requires
        k.untyped.len() <= u32::MAX,
        slot(k.spaces, cs.0) == Some(empty_table(CAP_SLOTS_PER_SPACE as nat, cs)),
    ensures
        memory_held(seeded(k, cs, ranges), cs),
        seeded(k, cs, ranges).kernel.tcbs == k.tcbs,
        seeded(k, cs, ranges).kernel.untyped.len() == k.untyped.len(),
        seeded(k, cs, ranges).kernel.spaces.len() == k.spaces.len(),
    decreases ranges.len(),
{
    if ranges.len() == 0 {
        let table = k.spaces[cs.0 as int]->0;
        assert(table.free =~= Seq::new(
            CAP_SLOTS_PER_SPACE as nat,
            |i: int| CapId((0 + i) as u32),
        ));
    } else {
        lemma_seeded(k, cs, ranges.drop_last());
        let s = seeded(k, cs, ranges.drop_last());
        let after = seed_one(s, cs, ranges.last());
        let before = s.kernel.spaces[cs.0 as int]->0;
        let table = after.kernel.spaces[cs.0 as int]->0;
        if !s.stopped && first_free(s.kernel.untyped) is Some {
            let i = first_free(s.kernel.untyped)->0;
            lemma_first_free(s.kernel.untyped, i);
            assert forall|j: int| 0 <= j < s.made implies holds_memory(
                after.kernel,
                #[trigger] table.entries[j],
            ) by {
                assert(holds_memory(s.kernel, before.entries[j]));
                assert(before.free.len() > 0 ==> before.free[0] == CapId(s.made as u32));
            }
            if before.free.len() > 0 {
                assert(before.free[0] == CapId(s.made as u32));
                assert(holds_memory(after.kernel, table.entries[s.made]));
                assert(table.free =~= Seq::new(
                    (CAP_SLOTS_PER_SPACE - after.made) as nat,
                    |i: int| CapId((after.made + i) as u32),
                ));
            }
        }
    }
}

/// Storing a root capability, if there is room, leaves the occupied slots alone.
proof fn lemma_root_keeps_entries(k: KernelView, cs: CapSpaceId, cap: Capability, j: int)
    requires
        slot(k.spaces, cs.0) is Some,
        k.spaces[cs.0 as int]->0.wf(),
        0 <= j < k.spaces[cs.0 as int]->0.entries.len(),
        k.spaces[cs.0 as int]->0.entries[j] is Some,
    ensures
        slot(root_inserted_if_room(k, cs, cap).spaces, cs.0) is Some,
        root_inserted_if_room(k, cs, cap).spaces[cs.0 as int]->0.entries[j]
            == k.spaces[cs.0 as int]->0.entries[j],
{
    let table = k.spaces[cs.0 as int]->0;
    if table.free.len() > 0 {
        assert(table.entries[table.free[0].0 as int] is None);
    }
}

/// Storing a root capability, if there is room, keeps the capability spaces sound.
proof fn lemma_root_keeps_sound(k: KernelView, cs: CapSpaceId, cap: Capability)
    requires
        forest_sound(k.spaces),
        slot(k.spaces, cs.0) is Some,
    ensures
        forest_sound(root_inserted_if_room(k, cs, cap).spaces),
        slot(root_inserted_if_room(k, cs, cap).spaces, cs.0) is Some,
{
    if k.spaces[cs.0 as int]->0.free.len() > 0 {
        inserting_a_root_keeps_sound(k.spaces, cs, cap);
    }
}

proof fn lemma_device_keeps(
    k: KernelView,
    cs: CapSpaceId,
    devices: Seq<PeripheralDevice>,
    kind: PeripheralKind,
)
    requires
        forest_sound(k.spaces),
        slot(k.spaces, cs.0) is Some,
    ensures
        ({
            let after = device_seeded(k, cs, devices, kind).0;
            &&& forest_sound(after.spaces)
            &&& slot(after.spaces, cs.0) is Some
            &&& after.tcbs == k.tcbs
            &&& after.untyped == k.untyped
            &&& after.spaces[cs.0 as int]->0.entries.len() == k.spaces[cs.0 as int]->0.entries.len()
            &&& forall|j: int|
                0 <= j < k.spaces[cs.0 as int]->0.entries.len() && (
                #[trigger] k.spaces[cs.0 as int]->0.entries[j]) is Some
                    ==> after.spaces[cs.0 as int]->0.entries[j] == k.spaces[cs.0 as int]->0.entries[j]
        }),
{
    let after = device_seeded(k, cs, devices, kind).0;
    if crate::boot::first_device(devices, kind) is Some && first_free(k.mmio_regions) is Some {
        let d = crate::boot::first_device(devices, kind)->0;
        let i = first_free(k.mmio_regions)->0;
        let made = KernelView { mmio_regions: k.mmio_regions.update(i, Some(d.window)), ..k };
        let cap = full_cap_to(KernelObjectKind::MmioRegion, i);
        lemma_root_keeps_sound(made, cs, cap);
        assert forall|j: int|
            0 <= j < k.spaces[cs.0 as int]->0.entries.len() && (
            #[trigger] k.spaces[cs.0 as int]->0.entries[j]) is Some implies after.spaces[cs.0 as int]->0.entries[j]
            == k.spaces[cs.0 as int]->0.entries[j] by {
            lemma_root_keeps_entries(made, cs, cap, j);
        }
    }
}

proof fn lemma_seeding_keeps_sound(k: KernelView, cs: CapSpaceId, ranges: Seq<(u64, u64)>)
    requires
        forest_sound(k.spaces),
        slot(k.spaces, cs.0) is Some,
    ensures
        forest_sound(seeded(k, cs, ranges).kernel.spaces),
        slot(seeded(k, cs, ranges).kernel.spaces, cs.0) is Some,
    decreases ranges.len(),
{
    if ranges.len() > 0 {
        lemma_seeding_keeps_sound(k, cs, ranges.drop_last());
        let s = seeded(k, cs, ranges.drop_last());
        if !s.stopped && first_free(s.kernel.untyped) is Some {
            let i = first_free(s.kernel.untyped)->0;
            if s.kernel.spaces[cs.0 as int]->0.free.len() > 0 {
                inserting_a_root_keeps_sound(
                    s.kernel.spaces,
                    cs,
                    full_cap_to(KernelObjectKind::UntypedMemory, i),
                );
            }
        }
    }
}

/// A boot that succeeds gives the first process memory: it has a thread bound to its own
/// capability space, whose first slots hold full capabilities to at least one untyped memory
/// object.
pub proof fn booted_process_holds_memory(k: KernelView, boot: BootInfo)
    requires
        k.wf(),
        forest_sound(k.spaces),
        booted(k, boot).1 is Ok,
    ensures
        ({
            let (after, result) = booted(k, boot);
            let root = result->Ok_0;
            let table = slot(after.spaces, root.cap_space.0)->0;
            &&& root.untyped_count >= 1
            &&& slot(after.tcbs, root.thread.0) is Some
            &&& slot(after.tcbs, root.thread.0)->0.cap_space == root.cap_space
            &&& slot(after.tcbs, root.thread.0)->0.addr_space == root.addr_space
            &&& slot(after.spaces, root.cap_space.0) is Some
            &&& forall|j: int|
                0 <= j < root.untyped_count ==> holds_memory(after, #[trigger] table.entries[j])
        }),
{
    let c = first_free(k.spaces)->0;
    let a = first_free(k.addr_spaces)->0;
    let t = first_free(k.tcbs)->0;
    lemma_first_free(k.spaces, c);
    lemma_first_free(k.addr_spaces, a);
    lemma_first_free(k.tcbs, t);
    let cs = CapSpaceId(c as u32);
    let addr_space = crate::ids::PageTableId(a as u32);
    let thread = crate::ids::ThreadId(t as u32);
    let fresh = empty_table(CAP_SLOTS_PER_SPACE as nat, cs);
    let k3 = KernelView {
        spaces: k.spaces.update(c, Some(fresh)),
        addr_spaces: k.addr_spaces.update(
            a,
            Some(crate::objects::AddressSpace { root_phys: boot.initial_page_table_phys }),
        ),
        tcbs: k.tcbs.update(
            t,
            Some(crate::tcb::inactive_tcb(thread, cs, addr_space, None)),
        ),
        ..k
    };
    assert(booted(k, boot) == booted_with(k3, boot, thread, cs, addr_space));
    new_space_keeps_sound(k.spaces, cs, CAP_SLOTS_PER_SPACE as nat);
    assert(k3.spaces == with_table(k.spaces, cs, fresh));
    let ranges = free_fragments(boot, boot.regions@);
    lemma_seeded(k3, cs, ranges);
    lemma_seeding_keeps_sound(k3, cs, ranges);
    let s = seeded(k3, cs, ranges);
    let table = s.kernel.spaces[cs.0 as int]->0;
    let pt = full_cap_to(KernelObjectKind::PageTable, addr_space.0 as int);
    lemma_root_keeps_sound(s.kernel, cs, pt);
    let k4 = root_inserted_if_room(s.kernel, cs, pt);
    lemma_device_keeps(k4, cs, boot.devices@, PeripheralKind::Block);
    let k5 = device_seeded(k4, cs, boot.devices@, PeripheralKind::Block).0;
    lemma_device_keeps(k5, cs, boot.devices@, PeripheralKind::Network);
    let k6 = device_seeded(k5, cs, boot.devices@, PeripheralKind::Network).0;
    assert(booted(k, boot).0 == k6);
    assert forall|j: int| 0 <= j < s.made implies holds_memory(
        k6,
        #[trigger] k6.spaces[cs.0 as int]->0.entries[j],
    ) by {
        assert(holds_memory(s.kernel, table.entries[j]));
        lemma_root_keeps_entries(s.kernel, cs, pt, j);
        assert(k4.spaces[cs.0 as int]->0.entries[j] is Some);
        assert(k5.spaces[cs.0 as int]->0.entries[j] is Some);
    }
}

/// A boot that succeeds leaves the capability spaces sound.
pub proof fn boot_keeps_sound(k: KernelView, boot: BootInfo)
    requires
        k.wf(),
        forest_sound(k.spaces),
        booted(k, boot).1 is Ok,
    ensures
        forest_sound(booted(k, boot).0.spaces),
{
    let c = first_free(k.spaces)->0;
    let a = first_free(k.addr_spaces)->0;
    let t = first_free(k.tcbs)->0;
    lemma_first_free(k.spaces, c);
    let cs = CapSpaceId(c as u32);
    let addr_space = crate::ids::PageTableId(a as u32);
    let thread = crate::ids::ThreadId(t as u32);
    let fresh = empty_table(CAP_SLOTS_PER_SPACE as nat, cs);
    new_space_keeps_sound(k.spaces, cs, CAP_SLOTS_PER_SPACE as nat);
    let k3 = KernelView {
        spaces: k.spaces.update(c, Some(fresh)),
        addr_spaces: k.addr_spaces.update(
            a,
            Some(crate::objects::AddressSpace { root_phys: boot.initial_page_table_phys }),
        ),
        tcbs: k.tcbs.update(
            t,
            Some(crate::tcb::inactive_tcb(thread, cs, addr_space, None)),
        ),
        ..k
    };
    assert(booted(k, boot) == booted_with(k3, boot, thread, cs, addr_space));
    assert(k3.spaces == with_table(k.spaces, cs, fresh));
    let ranges = free_fragments(boot, boot.regions@);
    lemma_seeding_keeps_sound(k3, cs, ranges);
    let s = seeded(k3, cs, ranges);
    let pt = full_cap_to(KernelObjectKind::PageTable, addr_space.0 as int);
    lemma_root_keeps_sound(s.kernel, cs, pt);
    let k4 = root_inserted_if_room(s.kernel, cs, pt);
    lemma_device_keeps(k4, cs, boot.devices@, PeripheralKind::Block);
    let k5 = device_seeded(k4, cs, boot.devices@, PeripheralKind::Block).0;
    lemma_device_keeps(k5, cs, boot.devices@, PeripheralKind::Network);
}

/// The memory objects of the seeding so far are the ranges in order, and as long as no table is
/// full there is one for each range.
proof fn lemma_seeded_ranges(k: KernelView, cs: CapSpaceId, ranges: Seq<(u64, u64)>)
    requires
        k.untyped.len() <= u32::MAX,
        slot(k.spaces, cs.0) == Some(empty_table(CAP_SLOTS_PER_SPACE as nat, cs)),
        forall|j: int| 0 <= j < ranges.len() ==> (#[trigger] ranges[j]).0 <= ranges[j].1,
    ensures
        ({
            let s = seeded(k, cs, ranges);
            let table = s.kernel.spaces[cs.0 as int]->0;
            &&& memory_held(s, cs)
            &&& s.made <= ranges.len()
            &&& !s.stopped ==> s.made == ranges.len()
            &&& s.stopped ==> table.free.len() == 0 || forall|i: int|
                0 <= i < s.kernel.untyped.len() ==> (#[trigger] s.kernel.untyped[i]) is Some
            &&& s.kernel.mmio_regions == k.mmio_regions
            &&& s.kernel.addr_spaces == k.addr_spaces
            &&& forall|j: int|
                0 <= j < s.made ==> covers_range(
                    s.kernel,
                    #[trigger] table.entries[j],
                    ranges[j].0,
                    ranges[j].1,
                )
        }),
    decreases ranges.len(),
{
    lemma_seeded(k, cs, ranges);
    if ranges.len() > 0 {
        let rest = ranges.drop_last();
        assert forall|j: int| 0 <= j < rest.len() implies (#[trigger] rest[j]).0 <= rest[j].1 by {
            assert(rest[j] == ranges[j]);
        }
        lemma_seeded_ranges(k, cs, rest);
        lemma_seeded(k, cs, rest);
        let s = seeded(k, cs, rest);
        let after = seeded(k, cs, ranges);
        let before = s.kernel.spaces[cs.0 as int]->0;
        let table = after.kernel.spaces[cs.0 as int]->0;
        lemma_first_free(s.kernel.untyped, 0);
        if !s.stopped && first_free(s.kernel.untyped) is Some {
            let i = first_free(s.kernel.untyped)->0;
            lemma_first_free(s.kernel.untyped, i);
            assert forall|j: int| 0 <= j < after.made implies covers_range(
                after.kernel,
                #[trigger] table.entries[j],
                ranges[j].0,
                ranges[j].1,
            ) by {
                if j < s.made {
                    assert(covers_range(s.kernel, before.entries[j], rest[j].0, rest[j].1));
                    assert(before.free.len() > 0 ==> before.free[0] == CapId(s.made as u32));
                } else {
                    assert(before.free[0] == CapId(s.made as u32));
                    assert(ranges[j] == ranges.last());
                }
            }
        } else {
            assert forall|j: int| 0 <= j < after.made implies covers_range(
                after.kernel,
                #[trigger] table.entries[j],
                ranges[j].0,
                ranges[j].1,
            ) by {
                assert(covers_range(s.kernel, before.entries[j], rest[j].0, rest[j].1));
            }
        }
    }
}

/// The entry is a full root capability to a memory object that covers just `[from, to)`.
pub open spec fn covers_range(k: KernelView, entry: Option<CapEntry>, from: u64, to: u64) -> bool {
    let id = entry->0.cap.object.id.0;
    &&& entry is Some
    &&& entry->0.cap.object.kind is UntypedMemory
    &&& entry->0.cap.rights.bits == ALL_BITS
    &&& entry->0.cap.badge == 0
    &&& entry->0.parent is None
    &&& id < k.untyped.len()
    &&& k.untyped[id as int] is Some
    &&& k.untyped[id as int]->0.base == from
    &&& k.untyped[id as int]->0.size == to - from
}

/// The byte at `x` is the kernel's, the boot loader's, or below the kernel.
pub open spec fn is_reserved(boot: BootInfo, x: int) -> bool {
    ||| boot.kernel_image.0 <= x < boot.kernel_image.1
    ||| boot.boot_reserved.0 <= x < boot.boot_reserved.1
    ||| x < boot.kernel_image.0
}

/// Some region of the memory map reports the byte at `x` as ordinary memory.
pub open spec fn is_ordinary(regions: Seq<MemoryRegion>, x: int) -> bool {
    exists|i: int|
        0 <= i < regions.len() && (#[trigger] regions[i]).usable && regions[i].base <= x
            < regions[i].base + regions[i].length
}

proof fn lemma_reserved(boot: BootInfo, x: int)
    requires
        x >= 0,
    ensures
        in_some(holes_of(boot), x) <==> is_reserved(boot, x),
{
    let holes = holes_of(boot);
    assert(holes[0] == boot.kernel_image && holes[1] == boot.boot_reserved && holes[2] == (
        0u64,
        boot.kernel_image.0,
    ));
    if in_some(holes, x) {
        let i = choose|i: int| 0 <= i < holes.len() && (#[trigger] holes[i]).0 <= x < holes[i].1;
        assert(i == 0 || i == 1 || i == 2);
    }
}

proof fn lemma_fragment_order(boot: BootInfo, regions: Seq<MemoryRegion>, i: int)
    requires
        0 <= i < free_fragments(boot, regions).len(),
    ensures
        free_fragments(boot, regions)[i].0 + PAGE_SIZE <= free_fragments(boot, regions)[i].1,
    decreases regions.len(),
{
    let before = free_fragments(boot, regions.drop_last());
    if i < before.len() {
        lemma_fragment_order(boot, regions.drop_last(), i);
    } else {
        let region = regions.last();
        let all = fragments(region.base, region_end(region), holes_of(boot));
        let j = lemma_whole_pages(all, i - before.len());
    }
}

/// The kernel state of a boot as it comes to its memory, and what is stored after that.
proof fn lemma_boot_parts(k: KernelView, boot: BootInfo) -> (parts: (KernelView, CapSpaceId))
    requires
        k.wf(),
        forest_sound(k.spaces),
        booted(k, boot).1 is Ok,
    ensures
        ({
            let (k3, cs) = parts;
            let (after, result) = booted(k, boot);
            let root = result->Ok_0;
            let s = seeded(k3, cs, free_fragments(boot, boot.regions@));
            let pt = full_cap_to(KernelObjectKind::PageTable, root.addr_space.0 as int);
            let k4 = root_inserted_if_room(s.kernel, cs, pt);
            let (k5, blk) = device_seeded(k4, cs, boot.devices@, PeripheralKind::Block);
            let (k6, net) = device_seeded(k5, cs, boot.devices@, PeripheralKind::Network);
            let a = first_free(k.addr_spaces)->0;
            let t = first_free(k.tcbs)->0;
            &&& root.cap_space == cs
            &&& root.untyped_count == s.made as u32
            &&& root.page_table_cap == crate::boot::next_slot(s.kernel, cs)
            &&& root.mmio_blk_cap == blk
            &&& root.mmio_net_cap == net
            &&& after == k6
            &&& slot(k.spaces, cs.0) is None
            &&& slot(k3.spaces, cs.0) == Some(empty_table(CAP_SLOTS_PER_SPACE as nat, cs))
            &&& forest_sound(s.kernel.spaces)
            &&& forest_sound(k4.spaces)
            &&& forest_sound(k5.spaces)
            &&& forest_sound(k6.spaces)
            &&& slot(k4.spaces, cs.0) is Some
            &&& slot(k5.spaces, cs.0) is Some
            &&& k3.untyped == k.untyped
            &&& k3.mmio_regions == k.mmio_regions
            &&& k3.addr_spaces.len() == k.addr_spaces.len()
            &&& k3.addr_spaces[a]->0.root_phys == boot.initial_page_table_phys
            &&& k3.addr_spaces[a] is Some
            &&& root.addr_space.0 == a
            &&& 0 <= a < k.addr_spaces.len()
            &&& k.addr_spaces[a] is None
            &&& root.thread.0 == t
            &&& 0 <= t < k.tcbs.len()
            &&& k.tcbs[t] is None
            &&& k3.tcbs[t] == Some(
                crate::tcb::inactive_tcb(root.thread, cs, root.addr_space, None),
            )
            &&& k3.tcbs.len() == k.tcbs.len()
            &&& s.made >= 1
            &&& after.tcbs == k3.tcbs
            &&& after.addr_spaces == k3.addr_spaces
        }),
{
    let c = first_free(k.spaces)->0;
    let a = first_free(k.addr_spaces)->0;
    let t = first_free(k.tcbs)->0;
    lemma_first_free(k.spaces, c);
    lemma_first_free(k.addr_spaces, a);
    lemma_first_free(k.tcbs, t);
    let cs = CapSpaceId(c as u32);
    let addr_space = crate::ids::PageTableId(a as u32);
    let thread = crate::ids::ThreadId(t as u32);
    let fresh = empty_table(CAP_SLOTS_PER_SPACE as nat, cs);
    new_space_keeps_sound(k.spaces, cs, CAP_SLOTS_PER_SPACE as nat);
    let k3 = KernelView {
        spaces: k.spaces.update(c, Some(fresh)),
        addr_spaces: k.addr_spaces.update(
            a,
            Some(crate::objects::AddressSpace { root_phys: boot.initial_page_table_phys }),
        ),
        tcbs: k.tcbs.update(
            t,
            Some(crate::tcb::inactive_tcb(thread, cs, addr_space, None)),
        ),
        ..k
    };
    assert(booted(k, boot) == booted_with(k3, boot, thread, cs, addr_space));
    assert(k3.spaces == with_table(k.spaces, cs, fresh));
    let ranges = free_fragments(boot, boot.regions@);
    assert forall|j: int| 0 <= j < ranges.len() implies (#[trigger] ranges[j]).0 <= ranges[j].1 by {
        lemma_fragment_order(boot, boot.regions@, j);
    }
    lemma_seeded(k3, cs, ranges);
    lemma_seeded_ranges(k3, cs, ranges);
    lemma_seeding_keeps_sound(k3, cs, ranges);
    let s = seeded(k3, cs, ranges);
    let pt = full_cap_to(KernelObjectKind::PageTable, addr_space.0 as int);
    lemma_root_keeps_sound(s.kernel, cs, pt);
    let k4 = root_inserted_if_room(s.kernel, cs, pt);
    lemma_device_keeps(k4, cs, boot.devices@, PeripheralKind::Block);
    let k5 = device_seeded(k4, cs, boot.devices@, PeripheralKind::Block).0;
    lemma_device_keeps(k5, cs, boot.devices@, PeripheralKind::Network);
    (k3, cs)
}

/// The memory that the first process gets is there for it: each of its first slots holds a full
/// capability to a memory object of at least a page, and every byte of that object is ordinary
/// memory that neither the kernel nor the boot loader nor the firmware uses.
pub proof fn the_first_process_gets_free_memory(k: KernelView, boot: BootInfo, j: int, x: int)
    requires
        k.wf(),
        forest_sound(k.spaces),
        booted(k, boot).1 is Ok,
        0 <= j < booted(k, boot).1->Ok_0.untyped_count,
    ensures
        ({
            let (after, result) = booted(k, boot);
            let root = result->Ok_0;
            let entry = after.spaces[root.cap_space.0 as int]->0.entries[j];
            let u = after.untyped[entry->0.cap.object.id.0 as int]->0;
            &&& root.untyped_count >= 1
            &&& u.base + u.size <= u64::MAX
            &&& covers_range(after, entry, u.base, (u.base + u.size) as u64)
            &&& u.size >= PAGE_SIZE
            &&& u.base <= x < u.base + u.size ==> is_ordinary(boot.regions@, x) && !is_reserved(
                boot,
                x,
            )
        }),
{
    let (k3, cs) = lemma_boot_parts(k, boot);
    let ranges = free_fragments(boot, boot.regions@);
    assert forall|i: int| 0 <= i < ranges.len() implies (#[trigger] ranges[i]).0 <= ranges[i].1 by {
        lemma_fragment_order(boot, boot.regions@, i);
    }
    lemma_seeded_ranges(k3, cs, ranges);
    let s = seeded(k3, cs, ranges);
    let table = s.kernel.spaces[cs.0 as int]->0;
    assert(covers_range(s.kernel, table.entries[j], ranges[j].0, ranges[j].1));
    let pt = full_cap_to(
        KernelObjectKind::PageTable,
        booted(k, boot).1->Ok_0.addr_space.0 as int,
    );
    lemma_root_keeps_entries(s.kernel, cs, pt, j);
    let k4 = root_inserted_if_room(s.kernel, cs, pt);
    assert(k4.spaces[cs.0 as int]->0.entries[j] is Some);
    lemma_device_keeps(k4, cs, boot.devices@, PeripheralKind::Block);
    let k5 = device_seeded(k4, cs, boot.devices@, PeripheralKind::Block).0;
    assert(k5.spaces[cs.0 as int]->0.entries[j] is Some);
    lemma_device_keeps(k5, cs, boot.devices@, PeripheralKind::Network);
    lemma_fragment_order(boot, boot.regions@, j);
    if ranges[j].0 <= x < ranges[j].1 {
        given_memory_is_free(boot, boot.regions@, j, x);
        lemma_reserved(boot, x);
        let i = choose|i: int|
            0 <= i < boot.regions@.len() && (#[trigger] boot.regions@[i]).usable
                && boot.regions@[i].base <= x < region_end(boot.regions@[i]);
        assert(boot.regions@[i].usable);
    }
}

/// `[from, to)` lies within one of the ranges.
pub open spec fn within_some(ranges: Seq<(u64, u64)>, from: int, to: int) -> bool {
    exists|i: int| 0 <= i < ranges.len() && (#[trigger] ranges[i]).0 <= from && to <= ranges[i].1
}

/// Ordinary memory is not held back: a stretch of at least a page within one region, no byte of
/// which is reserved, lies within one of the ranges that are given away.
pub proof fn free_memory_is_given(
    boot: BootInfo,
    regions: Seq<MemoryRegion>,
    r: int,
    from: int,
    to: int,
)
    requires
        0 <= r < regions.len(),
        regions[r].usable,
        regions[r].base <= from,
        from + PAGE_SIZE <= to,
        to <= regions[r].base + regions[r].length,
        to <= u64::MAX,
        forall|x: int| from <= x < to ==> !(#[trigger] is_reserved(boot, x)),
    ensures
        within_some(free_fragments(boot, regions), from, to),
    decreases regions.len(),
{
    let rest = regions.drop_last();
    let before = free_fragments(boot, rest);
    let now = free_fragments(boot, regions);
    if r < rest.len() {
        assert(rest[r] == regions[r]);
        free_memory_is_given(boot, rest, r, from, to);
        let i = choose|i: int|
            0 <= i < before.len() && (#[trigger] before[i]).0 <= from && to <= before[i].1;
        assert(now[i] == before[i]);
    } else {
        let region = regions.last();
        let (start, end) = (region.base, region_end(region));
        let holes = holes_of(boot);
        let eff = crate::memory::effective_holes(start, end, holes);
        let all = fragments(start, end, holes);
        fragments_exist(start, end, holes);
        assert forall|x: int| from <= x < to implies #[trigger] in_some(all, x) by {
            assert(!is_reserved(boot, x));
            lemma_reserved(boot, x);
            effective_holes_cover(start, end, holes, x);
        }
        assert(in_some(all, from));
        let i = choose|i: int| 0 <= i < all.len() && (#[trigger] all[i]).0 <= from < all[i].1;
        if all[i].1 < to {
            let x = all[i].1 as int;
            assert(in_some(all, x));
            let m = choose|m: int| 0 <= m < all.len() && (#[trigger] all[m]).0 <= x < all[m].1;
            if m < i {
                assert(all[m].1 < all[i].0);
            } else if i < m {
                assert(all[i].1 < all[m].0);
            }
        }
        let n = lemma_whole_pages_all(all, i);
        let part = whole_pages(all);
        assert(now[before.len() + n] == part[n]);
    }
}

/// Every range of at least a page is kept.
proof fn lemma_whole_pages_all(ranges: Seq<(u64, u64)>, j: int) -> (i: int)
    requires
        0 <= j < ranges.len(),
        ranges[j].1 - ranges[j].0 >= PAGE_SIZE,
    ensures
        0 <= i < whole_pages(ranges).len(),
        whole_pages(ranges)[i] == ranges[j],
    decreases ranges.len(),
{
    let before = whole_pages(ranges.drop_last());
    if j < ranges.len() - 1 {
        lemma_whole_pages_all(ranges.drop_last(), j)
    } else {
        before.len() as int
    }
}

/// The first process gets all the memory that there is, as far as the tables reach: there is a
/// slot for each range, or the table of memory objects or its capability space is full.
pub proof fn the_first_process_gets_all_free_memory(k: KernelView, boot: BootInfo, j: int)
    requires
        k.wf(),
        forest_sound(k.spaces),
        booted(k, boot).1 is Ok,
        0 <= j < free_fragments(boot, boot.regions@).len(),
    ensures
        ({
            let (after, result) = booted(k, boot);
            let root = result->Ok_0;
            let table = after.spaces[root.cap_space.0 as int]->0;
            let range = free_fragments(boot, boot.regions@)[j];
            ||| j < root.untyped_count && covers_range(after, table.entries[j], range.0, range.1)
            ||| forall|i: int| 0 <= i < after.untyped.len() ==> (#[trigger] after.untyped[i]) is Some
            ||| table.free.len() == 0
        }),
{
    let (k3, cs) = lemma_boot_parts(k, boot);
    let ranges = free_fragments(boot, boot.regions@);
    assert forall|i: int| 0 <= i < ranges.len() implies (#[trigger] ranges[i]).0 <= ranges[i].1 by {
        lemma_fragment_order(boot, boot.regions@, i);
    }
    lemma_seeded_ranges(k3, cs, ranges);
    let s = seeded(k3, cs, ranges);
    let table = s.kernel.spaces[cs.0 as int]->0;
    let pt = full_cap_to(
        KernelObjectKind::PageTable,
        booted(k, boot).1->Ok_0.addr_space.0 as int,
    );
    let k4 = root_inserted_if_room(s.kernel, cs, pt);
    let k5 = device_seeded(k4, cs, boot.devices@, PeripheralKind::Block).0;
    lemma_device_keeps(k4, cs, boot.devices@, PeripheralKind::Block);
    lemma_device_keeps(k5, cs, boot.devices@, PeripheralKind::Network);
    if j < s.made {
        assert(covers_range(s.kernel, table.entries[j], ranges[j].0, ranges[j].1));
        lemma_root_keeps_entries(s.kernel, cs, pt, j);
        assert(k4.spaces[cs.0 as int]->0.entries[j] is Some);
        assert(k5.spaces[cs.0 as int]->0.entries[j] is Some);
    }
}

/// The first device of a kind is one of that kind, and none before it is.
proof fn lemma_first_device(devices: Seq<PeripheralDevice>, kind: PeripheralKind) -> (i: int)
    ensures
        first_device(devices, kind) matches Some(d) ==> {
            &&& 0 <= i < devices.len()
            &&& devices[i] == d
            &&& d.kind == kind
            &&& forall|j: int| 0 <= j < i ==> (#[trigger] devices[j]).kind != kind
        },
        first_device(devices, kind) is None ==> forall|j: int|
            0 <= j < devices.len() ==> (#[trigger] devices[j]).kind != kind,
    decreases devices.len(),
{
    if devices.len() == 0 {
        0
    } else if devices[0].kind == kind {
        0
    } else {
        let rest = devices.skip(1);
        let i = lemma_first_device(rest, kind);
        assert forall|j: int| 1 <= j < devices.len() implies (#[trigger] devices[j]) == rest[
            j - 1] by {}
        i + 1
    }
}

/// Slot `cap` of the space `cs` holds a full capability to a device window, and it is the window of
/// the first device of the kind.
pub open spec fn holds_device(
    k: KernelView,
    cs: CapSpaceId,
    cap: CapId,
    devices: Seq<PeripheralDevice>,
    kind: PeripheralKind,
) -> bool {
    let entry = k.spaces[cs.0 as int]->0.entries[cap.0 as int];
    let id = entry->0.cap.object.id.0;
    &&& cap.0 < k.spaces[cs.0 as int]->0.entries.len()
    &&& entry is Some
    &&& entry->0.cap.object.kind is MmioRegion
    &&& entry->0.cap.rights.bits == ALL_BITS
    &&& entry->0.cap.badge == 0
    &&& id < k.mmio_regions.len()
    &&& k.mmio_regions[id as int] is Some
    &&& exists|i: int|
        0 <= i < devices.len() && (#[trigger] devices[i]).kind == kind && devices[i].window
            == k.mmio_regions[id as int]->0 && forall|j: int|
            0 <= j < i ==> (#[trigger] devices[j]).kind != kind
}

proof fn lemma_device_held(
    k: KernelView,
    cs: CapSpaceId,
    devices: Seq<PeripheralDevice>,
    kind: PeripheralKind,
)
    requires
        forest_sound(k.spaces),
        slot(k.spaces, cs.0) is Some,
        k.spaces[cs.0 as int]->0.entries.len() == CAP_SLOTS_PER_SPACE,
        k.mmio_regions.len() <= u32::MAX,
    ensures
        ({
            let (after, cap) = device_seeded(k, cs, devices, kind);
            &&& cap.0 != 0xffff_ffffu32 ==> holds_device(after, cs, cap, devices, kind)
            &&& cap.0 == 0xffff_ffffu32 ==> {
                ||| forall|j: int| 0 <= j < devices.len() ==> (#[trigger] devices[j]).kind != kind
                ||| forall|i: int|
                    0 <= i < k.mmio_regions.len() ==> (#[trigger] k.mmio_regions[i]) is Some
                ||| k.spaces[cs.0 as int]->0.free.len() == 0
            }
            &&& after.mmio_regions.len() == k.mmio_regions.len()
            &&& forall|i: int|
                0 <= i < k.mmio_regions.len() && (#[trigger] k.mmio_regions[i]) is Some
                    ==> after.mmio_regions[i] == k.mmio_regions[i]
            &&& k.spaces[cs.0 as int]->0.free.len() == 0 ==> after.spaces[cs.0 as int]
                == k.spaces[cs.0 as int]
        }),
{
    let i = lemma_first_device(devices, kind);
    lemma_first_free(k.mmio_regions, 0);
    let table = k.spaces[cs.0 as int]->0;
    if first_free(k.mmio_regions) is Some {
        lemma_first_free(k.mmio_regions, first_free(k.mmio_regions)->0);
    }
    if table.free.len() > 0 {
        assert(table.entries[table.free[0].0 as int] is None);
    }
    if first_device(devices, kind) is Some {
        assert(devices[i].kind == kind);
    }
}

/// The first process knows its devices: the slots recorded for the block and the network device
/// hold full capabilities to the windows of the first such devices that the machine reports. A
/// slot is missing only where there is no such device or a table is full.
pub proof fn the_first_process_holds_its_devices(k: KernelView, boot: BootInfo)
    requires
        k.wf(),
        k.mmio_regions.len() <= u32::MAX,
        forest_sound(k.spaces),
        booted(k, boot).1 is Ok,
    ensures
        ({
            let (after, result) = booted(k, boot);
            let root = result->Ok_0;
            let full = after.spaces[root.cap_space.0 as int]->0.free.len() == 0 || forall|i: int|
                0 <= i < after.mmio_regions.len() ==> (#[trigger] after.mmio_regions[i]) is Some;
            &&& device_known(
                after,
                root.cap_space,
                root.mmio_blk_cap,
                boot.devices@,
                PeripheralKind::Block,
                full,
            )
            &&& device_known(
                after,
                root.cap_space,
                root.mmio_net_cap,
                boot.devices@,
                PeripheralKind::Network,
                full,
            )
        }),
{
    let (k3, cs) = lemma_boot_parts(k, boot);
    let ranges = free_fragments(boot, boot.regions@);
    assert forall|i: int| 0 <= i < ranges.len() implies (#[trigger] ranges[i]).0 <= ranges[i].1 by {
        lemma_fragment_order(boot, boot.regions@, i);
    }
    lemma_seeded_ranges(k3, cs, ranges);
    let s = seeded(k3, cs, ranges);
    let pt = full_cap_to(
        KernelObjectKind::PageTable,
        booted(k, boot).1->Ok_0.addr_space.0 as int,
    );
    let k4 = root_inserted_if_room(s.kernel, cs, pt);
    lemma_device_held(k4, cs, boot.devices@, PeripheralKind::Block);
    lemma_device_keeps(k4, cs, boot.devices@, PeripheralKind::Block);
    let (k5, blk) = device_seeded(k4, cs, boot.devices@, PeripheralKind::Block);
    lemma_device_held(k5, cs, boot.devices@, PeripheralKind::Network);
    lemma_device_keeps(k5, cs, boot.devices@, PeripheralKind::Network);
    let k6 = device_seeded(k5, cs, boot.devices@, PeripheralKind::Network).0;
    if blk.0 != 0xffff_ffffu32 {
        assert(k5.spaces[cs.0 as int]->0.entries[blk.0 as int] is Some);
    }
}

/// A slot that is known holds the first device of its kind; one that is not has a reason.
pub open spec fn device_known(
    k: KernelView,
    cs: CapSpaceId,
    cap: CapId,
    devices: Seq<PeripheralDevice>,
    kind: PeripheralKind,
    full: bool,
) -> bool {
    &&& cap.0 != 0xffff_ffffu32 ==> holds_device(k, cs, cap, devices, kind)
    &&& cap.0 == 0xffff_ffffu32 ==> full || forall|j: int|
        0 <= j < devices.len() ==> (#[trigger] devices[j]).kind != kind
}

/// The first process has a thread, a capability space and an address space of its own, none of
/// which were there before. Its address space is the page table that the boot loader left in
/// force, to which it holds a full capability unless its space is full; its thread has yet to be
/// started and was made by nobody.
pub proof fn the_first_process_has_its_own_space(k: KernelView, boot: BootInfo)
    requires
        k.wf(),
        forest_sound(k.spaces),
        booted(k, boot).1 is Ok,
    ensures
        ({
            let (after, result) = booted(k, boot);
            let root = result->Ok_0;
            let table = after.spaces[root.cap_space.0 as int]->0;
            let t = after.tcbs[root.thread.0 as int];
            let pt = table.entries[root.page_table_cap.0 as int];
            &&& boot.valid
            &&& root.thread.0 < k.tcbs.len() && k.tcbs[root.thread.0 as int] is None
            &&& root.cap_space.0 < k.spaces.len() && k.spaces[root.cap_space.0 as int] is None
            &&& root.addr_space.0 < k.addr_spaces.len()
                && k.addr_spaces[root.addr_space.0 as int] is None
            &&& t is Some
            &&& t->0.id == root.thread
            &&& t->0.cap_space == root.cap_space
            &&& t->0.addr_space == root.addr_space
            &&& t->0.state is Inactive
            &&& t->0.spawner is None
            &&& after.addr_spaces[root.addr_space.0 as int] is Some
            &&& after.addr_spaces[root.addr_space.0 as int]->0.root_phys
                == boot.initial_page_table_phys
            &&& root.page_table_cap.0 == 0xffff_ffffu32 ==> table.free.len() == 0
            &&& root.page_table_cap.0 != 0xffff_ffffu32 ==> {
                &&& root.page_table_cap.0 < table.entries.len()
                &&& pt is Some
                &&& pt->0.cap.object.kind is PageTable
                &&& pt->0.cap.object.id.0 == root.addr_space.0
                &&& pt->0.cap.rights.bits == ALL_BITS
            }
        }),
{
    let (k3, cs) = lemma_boot_parts(k, boot);
    let ranges = free_fragments(boot, boot.regions@);
    assert forall|i: int| 0 <= i < ranges.len() implies (#[trigger] ranges[i]).0 <= ranges[i].1 by {
        lemma_fragment_order(boot, boot.regions@, i);
    }
    lemma_seeded_ranges(k3, cs, ranges);
    let s = seeded(k3, cs, ranges);
    let root = booted(k, boot).1->Ok_0;
    let pt = full_cap_to(KernelObjectKind::PageTable, root.addr_space.0 as int);
    let k4 = root_inserted_if_room(s.kernel, cs, pt);
    let before = s.kernel.spaces[cs.0 as int]->0;
    let k5 = device_seeded(k4, cs, boot.devices@, PeripheralKind::Block).0;
    lemma_device_keeps(k4, cs, boot.devices@, PeripheralKind::Block);
    lemma_device_keeps(k5, cs, boot.devices@, PeripheralKind::Network);
    if before.free.len() > 0 {
        assert(before.free[0].0 < before.entries.len());
        assert(k4.spaces[cs.0 as int]->0.entries[before.free[0].0 as int] is Some);
        assert(k5.spaces[cs.0 as int]->0.entries[before.free[0].0 as int] is Some);
    }
}

/// A boot fails for a reason: what the boot loader handed over is not valid, a table has no room
/// for the first process, or there is no memory to give it.
pub proof fn a_boot_fails_for_a_reason(k: KernelView, boot: BootInfo)
    requires
        k.wf(),
    ensures
        ({
            let result = booted(k, boot).1;
            let no_room = (forall|i: int|
                0 <= i < k.spaces.len() ==> (#[trigger] k.spaces[i]) is Some) || (forall|i: int|
                0 <= i < k.addr_spaces.len() ==> (#[trigger] k.addr_spaces[i]) is Some) || (forall|
                i: int,
            |
                0 <= i < k.tcbs.len() ==> (#[trigger] k.tcbs[i]) is Some);
            let no_memory = free_fragments(boot, boot.regions@).len() == 0 || (forall|i: int|
                0 <= i < k.untyped.len() ==> (#[trigger] k.untyped[i]) is Some);
            &&& !boot.valid ==> result == Err::<RootTask, KernelInitError>(
                KernelInitError::BadBootInfo,
            )
            &&& boot.valid && no_room ==> result == Err::<RootTask, KernelInitError>(
                KernelInitError::CapacityExhausted,
            )
            &&& boot.valid && !no_room && no_memory ==> result == Err::<
                RootTask,
                KernelInitError,
            >(KernelInitError::NoUsableMemory)
            &&& boot.valid && !no_room && !no_memory ==> result is Ok
        }),
{
    lemma_first_free(k.spaces, 0);
    lemma_first_free(k.addr_spaces, 0);
    lemma_first_free(k.tcbs, 0);
    lemma_first_free(k.untyped, 0);
    if boot.valid && first_free(k.spaces) is Some && first_free(k.addr_spaces) is Some
        && first_free(k.tcbs) is Some {
        let c = first_free(k.spaces)->0;
        let a = first_free(k.addr_spaces)->0;
        let t = first_free(k.tcbs)->0;
        lemma_first_free(k.spaces, c);
        let cs = CapSpaceId(c as u32);
        let addr_space = crate::ids::PageTableId(a as u32);
        let thread = crate::ids::ThreadId(t as u32);
        let k3 = KernelView {
            spaces: k.spaces.update(c, Some(empty_table(CAP_SLOTS_PER_SPACE as nat, cs))),
            addr_spaces: k.addr_spaces.update(
                a,
                Some(crate::objects::AddressSpace { root_phys: boot.initial_page_table_phys }),
            ),
            tcbs: k.tcbs.update(
                t,
                Some(crate::tcb::inactive_tcb(thread, cs, addr_space, None)),
            ),
            ..k
        };
        assert(booted(k, boot) == booted_with(k3, boot, thread, cs, addr_space));
        lemma_something_is_made(k3, cs, free_fragments(boot, boot.regions@));
    }
}

/// With room, the first range becomes a memory object.
proof fn lemma_something_is_made(k: KernelView, cs: CapSpaceId, ranges: Seq<(u64, u64)>)
    requires
        k.untyped.len() <= u32::MAX,
        slot(k.spaces, cs.0) == Some(empty_table(CAP_SLOTS_PER_SPACE as nat, cs)),
    ensures
        seeded(k, cs, ranges).made >= 0,
        ranges.len() == 0 ==> seeded(k, cs, ranges).made == 0,
        first_free(k.untyped) is None ==> seeded(k, cs, ranges).made == 0 && seeded(
            k,
            cs,
            ranges,
        ).kernel.untyped == k.untyped,
        ranges.len() > 0 && first_free(k.untyped) is Some ==> seeded(k, cs, ranges).made > 0,
    decreases ranges.len(),
{
    if ranges.len() > 0 {
        lemma_something_is_made(k, cs, ranges.drop_last());
        lemma_seeded(k, cs, ranges.drop_last());
        if ranges.len() == 1 {
            assert(ranges.drop_last() =~= seq![]);
        }
    }
}

/// The first process runs from its entry on and is on record once the scheduler has taken its
/// thread. If the scheduler refuses, nothing changes.
pub proof fn the_first_process_is_adopted_once_scheduled(
    k: KernelView,
    root: RootTask,
    other: int,
)
    requires
        root.thread.0 < k.tcbs.len(),
        k.tcbs[root.thread.0 as int] is Some,
        !(k.tcbs[root.thread.0 as int]->0.state is Exited),
    ensures
        ({
            let (after, result) = adopted(k, root, true);
            let t = k.tcbs[root.thread.0 as int]->0;
            &&& result is Ok
            &&& after.root == root
            &&& after == (KernelView { tcbs: after.tcbs, root, ..k })
            &&& after.tcbs[root.thread.0 as int] == Some(
                Tcb { entry: 0, state: ThreadState::Runnable, ..t },
            )
            &&& 0 <= other < k.tcbs.len() && other != root.thread.0 ==> after.tcbs[other]
                == k.tcbs[other]
            &&& adopted(k, root, false) == (
                k,
                Err::<(), KernelInitError>(KernelInitError::CapacityExhausted),
            )
        }),
{
}

} // verus!
