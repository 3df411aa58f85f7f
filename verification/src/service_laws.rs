//! What launching a service is for: the service finds its endpoint, its pages and its device where
//! it expects them, and whoever launched it knows the same pages.

use crate::capability::Capability;
use crate::cdt::{CapEntry, GlobalCapId};
use crate::config::{NO_CAP, PAGE_SIZE};
use crate::ids::{CapId, CapSpaceId, ThreadId};
use crate::launch::{
    granted_into, launch_at_start, launch_begun, launch_resumed, performed, ran, DeviceWindow,
    DriverDevice, DriverPages, op_at, program, Launch, LaunchOp, LaunchReply, LaunchRequest,
    LaunchStep, Launched, PageSlot, Service, ServiceProcess, COMPOSITOR_CONFIRM_VA,
    COMPOSITOR_FB_VA, COMPOSITOR_SHARED_VA, COMPOSITOR_STACK_VMA, FS_DATA_VA, FS_SHARED_VA,
    FS_STACK_VMA, MM_SHARED_VA, MM_STACK_VMA, MAX_PROGRAM, SERVICE_STACK_LEN,
};
use crate::objects::{KernelObjectType, MmioRegionDescriptor};
use crate::rights::{CapabilityRights, READ_BIT, WRITE_BIT};
use crate::spawn_laws::user_may;
use crate::state::KernelView;
use crate::syscall::{SyscallError, SyscallOp, SyscallReturn};
use vstd::prelude::*;

verus! {

/// What stands in slot `cap` of the capability space `cs`.
pub open spec fn in_slot(k: KernelView, cs: CapSpaceId, cap: CapId) -> Option<CapEntry> {
    if cs.0 < k.spaces.len() && k.spaces[cs.0 as int] is Some && cap.0
        < k.spaces[cs.0 as int]->0.entries.len() {
        k.spaces[cs.0 as int]->0.entries[cap.0 as int]
    } else {
        None
    }
}

/// A capability of the space `src` that may be read and written through can be handed to the space
/// `dst`: that is another one, and there is room.
pub open spec fn can_hand(k: KernelView, src: CapSpaceId, cap: CapId, dst: CapSpaceId) -> bool {
    &&& src != dst
    &&& in_slot(k, src, cap) is Some
    &&& in_slot(k, src, cap)->0.cap.rights.bits & (READ_BIT | WRITE_BIT) == READ_BIT | WRITE_BIT
    &&& dst.0 < k.spaces.len()
    &&& k.spaces[dst.0 as int] is Some
    &&& k.spaces[dst.0 as int]->0.free.len() > 0
}

/// The kernel once the space `dst` was handed a copy of a capability of the space `src`.
pub open spec fn with_copy(k: KernelView, src: CapSpaceId, cap: CapId, dst: CapSpaceId) -> KernelView {
    granted_into(k, src, cap, dst, CapabilityRights { bits: READ_BIT | WRITE_BIT }).0
}

/// A service is handed copies to read and write through: each stands in a slot that was empty,
/// names the same object as its source and hangs from it; no other slot changes.
pub proof fn a_service_is_handed_a_copy(
    k: KernelView,
    src: CapSpaceId,
    cap: CapId,
    dst: CapSpaceId,
    other: GlobalCapId,
)
    requires
        k.wf(),
        can_hand(k, src, cap, dst),
    ensures
        ({
            let (after, at) = granted_into(
                k,
                src,
                cap,
                dst,
                CapabilityRights { bits: READ_BIT | WRITE_BIT },
            );
            let source = in_slot(k, src, cap)->0.cap;
            &&& at is Some
            &&& in_slot(k, dst, at->0) is None
            &&& in_slot(after, dst, at->0) == Some(
                CapEntry {
                    cap: Capability {
                        object: source.object,
                        rights: CapabilityRights { bits: READ_BIT | WRITE_BIT },
                        badge: source.badge,
                    },
                    parent: Some(GlobalCapId { space: src, cap }),
                },
            )
            &&& other != (GlobalCapId { space: dst, cap: at->0 }) ==> in_slot(
                after,
                other.space,
                other.cap,
            ) == in_slot(k, other.space, other.cap)
            &&& after == (KernelView { spaces: after.spaces, ..k })
        }),
{
    let table = k.spaces[dst.0 as int]->0;
    assert(table.entries[table.free[0].0 as int] is None);
}

/// The launch asks for `request`.
pub open spec fn requests(step: LaunchStep, request: LaunchRequest) -> bool {
    step == LaunchStep::Ask(request)
}

/// The launch asks for one object of a type out of the first untyped memory of its caller.
pub open spec fn requests_object(step: LaunchStep, target_type: KernelObjectType) -> bool {
    requests(
        step,
        LaunchRequest::Syscall(SyscallOp::Retype { untyped: CapId(0), target_type, count: 1 }),
    )
}

/// The launch asks for the page at `phys` to be mapped at `va` for user code to read and write.
pub open spec fn requests_page(step: LaunchStep, root_pt: usize, va: usize, phys: usize) -> bool {
    &&& step matches LaunchStep::Ask(LaunchRequest::MapPage { root_pt: r, va: v, phys: p, perm_bits })
    &&& r == root_pt
    &&& v == va
    &&& p == phys
    &&& user_may(perm_bits, true, true, false)
}

/// An object was created and its capability is in slot `cap`.
pub open spec fn created(cap: CapId) -> LaunchReply {
    LaunchReply::Returned(Ok(SyscallReturn::NewCaps { cap, count: 1 }))
}

/// The physical address of the root page table of `thread` is `root_pt`.
pub open spec fn runs_under(k: KernelView, thread: ThreadId, root_pt: usize) -> bool {
    let space = k.tcbs[thread.0 as int]->0.addr_space.0;
    &&& thread.0 < k.tcbs.len() && k.tcbs[thread.0 as int] is Some
    &&& space < k.addr_spaces.len() && k.addr_spaces[space as int] is Some
    &&& k.addr_spaces[space as int]->0.root_phys == root_pt
}

/// Slot `cap` of the space `cs` names a shared region that starts at `phys`.
pub open spec fn names_region(k: KernelView, cs: CapSpaceId, cap: CapId, phys: usize) -> bool {
    let id = in_slot(k, cs, cap)->0.cap.object.id.0;
    &&& in_slot(k, cs, cap) is Some
    &&& id < k.shared_regions.len() && k.shared_regions[id as int] is Some
    &&& k.shared_regions[id as int]->0.phys_base == phys
}

/// The launch ended with the process `thread`, which can be switched to if both threads are there.
pub open spec fn launched(
    step: LaunchStep,
    k: KernelView,
    caller: ThreadId,
    thread: ThreadId,
) -> bool {
    step == LaunchStep::Finished(
        Some(
            Launched {
                thread,
                switch: caller.0 != thread.0 && caller.0 < k.tcbs.len()
                    && k.tcbs[caller.0 as int] is Some && thread.0 < k.tcbs.len()
                    && k.tcbs[thread.0 as int] is Some,
            },
        ),
    )
}

/// The launch asks for the page around a register window to be mapped, in the address space with
/// its root at `root_pt`, for the kernel's way of reading and writing registers.
pub open spec fn requests_window(step: LaunchStep, root_pt: usize, w: DeviceWindow) -> bool {
    &&& step matches LaunchStep::Ask(LaunchRequest::MapPage { root_pt: r, va, phys, perm_bits })
    &&& r == root_pt
    &&& va % PAGE_SIZE == 0 && va <= w.va < va + PAGE_SIZE
    &&& phys % PAGE_SIZE == 0 && phys <= w.phys < phys + PAGE_SIZE
    &&& perm_bits == 3
}

/// The first process was given a device, in slot `dev`, and this is its window.
pub open spec fn is_device(
    k: KernelView,
    src: CapSpaceId,
    net: bool,
    dev: CapId,
    window: MmioRegionDescriptor,
) -> bool {
    let id = in_slot(k, src, dev)->0.cap.object.id.0;
    &&& dev == if net {
        k.root.mmio_net_cap
    } else {
        k.root.mmio_blk_cap
    }
    &&& dev.0 != NO_CAP
    &&& in_slot(k, src, dev) is Some
    &&& id < k.mmio_regions.len()
    &&& k.mmio_regions[id as int] == Some(window)
}

/// The file system is started with an endpoint that it is handed, a message page and a page for data,
/// which it is handed too. Whoever launched it knows both pages. This is so whatever happens to the
/// kernel between the steps.
#[verifier::rlimit(20)]
pub proof fn the_file_system_gets_its_endpoint_and_pages(
    k: Seq<KernelView>,
    caller: ThreadId,
    src: CapSpaceId,
    endpoint: CapId,
    thread: ThreadId,
    cs: CapSpaceId,
    root_pt: usize,
    page: usize,
    region_one: CapId,
    data_one: usize,
)
    requires
        k.len() == 7,
        runs_under(k[2], thread, root_pt),
        can_hand(k[2], src, endpoint, cs),
        names_region(k[5], src, region_one, data_one),
        can_hand(k[5], src, region_one, cs),
    ensures
        ({
            let (k0, l0, s0) = ran(k[0], launch_at_start(Service::Fs, caller, src, None));
            let (k1, l1, s1) = launch_resumed(k[1], l0, created(endpoint));
            let (k2, l2, s2) = launch_resumed(k[2], l1, LaunchReply::Started(Some((thread, cs))));
            let (k3, l3, s3) = launch_resumed(k[3], l2, LaunchReply::Page(Some(page)));
            let (k4, l4, s4) = launch_resumed(k[4], l3, LaunchReply::Mapped(true));
            let (k5, l5, s5) = launch_resumed(k[5], l4, created(region_one));
            let (k6, l6, s6) = launch_resumed(k[6], l5, LaunchReply::Mapped(true));
            &&& requests_object(s0, KernelObjectType::Endpoint)
            &&& k0 == k[0]
            &&& requests(
                s1,
                LaunchRequest::StartProcess {
                    stack_vma: FS_STACK_VMA,
                    stack_len: SERVICE_STACK_LEN,
                },
            )
            &&& k1 == k[1]
            &&& requests(s2, LaunchRequest::NewPage)
            &&& k2 == with_copy(k[2], src, endpoint, cs)
            &&& requests_page(s3, root_pt, FS_SHARED_VA, page)
            &&& k3 == k[3]
            &&& requests_object(s4, KernelObjectType::SharedRegion)
            &&& k4 == k[4]
            &&& requests_page(s5, root_pt, FS_DATA_VA, data_one)
            &&& k5 == with_copy(k[5], src, region_one, cs)
            &&& launched(s6, k[6], caller, thread)
            &&& l6.endpoint == Some(endpoint)
            &&& l6.first == Some(page)
            &&& l6.second == Some(data_one)
            &&& l6.third is None
            &&& l6.direct is None
            &&& k6 == k[6]
        }),
{
    lemma_fs_program();
    let start = launch_at_start(Service::Fs, caller, src, None);
    lemma_stops(k[0], start);
    let n1 = Launch { cap: endpoint, pc: 1, ..start };
    lemma_goes_on(k[1], n1);
    let n2 = Launch { endpoint: Some(endpoint), pc: 2, ..n1 };
    lemma_stops(k[1], n2);
    let n3 = Launch {
        process: Some(ServiceProcess { thread, cap_space: cs, root_pt }),
        pc: 3,
        ..n2
    };
    lemma_goes_on(k[2], n3);
    let n4 = Launch { pc: 4, ..n3 };
    lemma_stops(with_copy(k[2], src, endpoint, cs), n4);
    let n5 = Launch { phys: page, pc: 5, ..n4 };
    lemma_stops(k[3], n5);
    let n6 = Launch { pc: 6, ..n5 };
    lemma_goes_on(k[4], n6);
    let n7 = Launch { first: Some(page), pc: 7, ..n6 };
    lemma_stops(k[4], n7);
    let n8 = Launch { cap: region_one, pc: 8, ..n7 };
    lemma_goes_on(k[5], n8);
    let n9 = Launch { phys: data_one, pc: 9, ..n8 };
    lemma_goes_on(k[5], n9);
    let n10 = Launch { pc: 10, ..n9 };
    lemma_stops(with_copy(k[5], src, region_one, cs), n10);
    let n11 = Launch { pc: 11, ..n10 };
    lemma_goes_on(k[6], n11);
    let n12 = Launch { second: Some(data_one), pc: 12, ..n11 };
    lemma_stops(k[6], n12);
}

/// The compositor is started with an endpoint that it is handed, a message page, a frame buffer,
/// which it is handed too, and a zeroed page to confirm frames in. Whoever launched it knows all
/// three pages.
#[verifier::rlimit(20)]
pub proof fn the_compositor_gets_its_endpoint_and_pages(
    k: Seq<KernelView>,
    caller: ThreadId,
    src: CapSpaceId,
    endpoint: CapId,
    thread: ThreadId,
    cs: CapSpaceId,
    root_pt: usize,
    page: usize,
    region_one: CapId,
    data_one: usize,
    region_two: CapId,
    data_two: usize,
)
    requires
        k.len() == 10,
        runs_under(k[2], thread, root_pt),
        can_hand(k[2], src, endpoint, cs),
        names_region(k[5], src, region_one, data_one),
        can_hand(k[5], src, region_one, cs),
        names_region(k[7], src, region_two, data_two),
    ensures
        ({
            let (k0, l0, s0) = ran(k[0], launch_at_start(Service::Compositor, caller, src, None));
            let (k1, l1, s1) = launch_resumed(k[1], l0, created(endpoint));
            let (k2, l2, s2) = launch_resumed(k[2], l1, LaunchReply::Started(Some((thread, cs))));
            let (k3, l3, s3) = launch_resumed(k[3], l2, LaunchReply::Page(Some(page)));
            let (k4, l4, s4) = launch_resumed(k[4], l3, LaunchReply::Mapped(true));
            let (k5, l5, s5) = launch_resumed(k[5], l4, created(region_one));
            let (k6, l6, s6) = launch_resumed(k[6], l5, LaunchReply::Mapped(true));
            let (k7, l7, s7) = launch_resumed(k[7], l6, created(region_two));
            let (k8, l8, s8) = launch_resumed(k[8], l7, LaunchReply::Done);
            let (k9, l9, s9) = launch_resumed(k[9], l8, LaunchReply::Mapped(true));
            &&& requests_object(s0, KernelObjectType::Endpoint)
            &&& k0 == k[0]
            &&& requests(
                s1,
                LaunchRequest::StartProcess {
                    stack_vma: COMPOSITOR_STACK_VMA,
                    stack_len: SERVICE_STACK_LEN,
                },
            )
            &&& k1 == k[1]
            &&& requests(s2, LaunchRequest::NewPage)
            &&& k2 == with_copy(k[2], src, endpoint, cs)
            &&& requests_page(s3, root_pt, COMPOSITOR_SHARED_VA, page)
            &&& k3 == k[3]
            &&& requests_object(s4, KernelObjectType::SharedRegion)
            &&& k4 == k[4]
            &&& requests_page(s5, root_pt, COMPOSITOR_FB_VA, data_one)
            &&& k5 == with_copy(k[5], src, region_one, cs)
            &&& requests_object(s6, KernelObjectType::SharedRegion)
            &&& k6 == k[6]
            &&& requests(s7, LaunchRequest::ClearPage { phys: data_two })
            &&& k7 == k[7]
            &&& requests_page(s8, root_pt, COMPOSITOR_CONFIRM_VA, data_two)
            &&& k8 == k[8]
            &&& launched(s9, k[9], caller, thread)
            &&& l9.endpoint == Some(endpoint)
            &&& l9.first == Some(page)
            &&& l9.second == Some(data_one)
            &&& l9.third == Some(data_two)
            &&& l9.direct is None
            &&& k9 == k[9]
        }),
{
    lemma_compositor_program();
    let start = launch_at_start(Service::Compositor, caller, src, None);
    lemma_stops(k[0], start);
    let n1 = Launch { cap: endpoint, pc: 1, ..start };
    lemma_goes_on(k[1], n1);
    let n2 = Launch { endpoint: Some(endpoint), pc: 2, ..n1 };
    lemma_stops(k[1], n2);
    let n3 = Launch {
        process: Some(ServiceProcess { thread, cap_space: cs, root_pt }),
        pc: 3,
        ..n2
    };
    lemma_goes_on(k[2], n3);
    let n4 = Launch { pc: 4, ..n3 };
    lemma_stops(with_copy(k[2], src, endpoint, cs), n4);
    let n5 = Launch { phys: page, pc: 5, ..n4 };
    lemma_stops(k[3], n5);
    let n6 = Launch { pc: 6, ..n5 };
    lemma_goes_on(k[4], n6);
    let n7 = Launch { first: Some(page), pc: 7, ..n6 };
    lemma_stops(k[4], n7);
    let n8 = Launch { cap: region_one, pc: 8, ..n7 };
    lemma_goes_on(k[5], n8);
    let n9 = Launch { phys: data_one, pc: 9, ..n8 };
    lemma_goes_on(k[5], n9);
    let n10 = Launch { pc: 10, ..n9 };
    lemma_stops(with_copy(k[5], src, region_one, cs), n10);
    let n11 = Launch { pc: 11, ..n10 };
    lemma_goes_on(k[6], n11);
    let n12 = Launch { second: Some(data_one), pc: 12, ..n11 };
    lemma_stops(k[6], n12);
    let n13 = Launch { cap: region_two, pc: 13, ..n12 };
    lemma_goes_on(k[7], n13);
    let n14 = Launch { phys: data_two, pc: 14, ..n13 };
    lemma_stops(k[7], n14);
    let n15 = Launch { pc: 15, ..n14 };
    lemma_stops(k[8], n15);
    let n16 = Launch { pc: 16, ..n15 };
    lemma_goes_on(k[9], n16);
    let n17 = Launch { third: Some(data_two), pc: 17, ..n16 };
    lemma_stops(k[9], n17);
}

/// The memory manager is started with an endpoint that it is handed and a message page.
#[verifier::rlimit(20)]
pub proof fn the_memory_manager_gets_its_endpoint_and_page(
    k: Seq<KernelView>,
    caller: ThreadId,
    src: CapSpaceId,
    endpoint: CapId,
    thread: ThreadId,
    cs: CapSpaceId,
    root_pt: usize,
    page: usize,
)
    requires
        k.len() == 5,
        runs_under(k[2], thread, root_pt),
        can_hand(k[2], src, endpoint, cs),
    ensures
        ({
            let (k0, l0, s0) = ran(k[0], launch_at_start(Service::Mm, caller, src, None));
            let (k1, l1, s1) = launch_resumed(k[1], l0, created(endpoint));
            let (k2, l2, s2) = launch_resumed(k[2], l1, LaunchReply::Started(Some((thread, cs))));
            let (k3, l3, s3) = launch_resumed(k[3], l2, LaunchReply::Page(Some(page)));
            let (k4, l4, s4) = launch_resumed(k[4], l3, LaunchReply::Mapped(true));
            &&& requests_object(s0, KernelObjectType::Endpoint)
            &&& k0 == k[0]
            &&& requests(
                s1,
                LaunchRequest::StartProcess {
                    stack_vma: MM_STACK_VMA,
                    stack_len: SERVICE_STACK_LEN,
                },
            )
            &&& k1 == k[1]
            &&& requests(s2, LaunchRequest::NewPage)
            &&& k2 == with_copy(k[2], src, endpoint, cs)
            &&& requests_page(s3, root_pt, MM_SHARED_VA, page)
            &&& k3 == k[3]
            &&& launched(s4, k[4], caller, thread)
            &&& l4.endpoint == Some(endpoint)
            &&& l4.first == Some(page)
            &&& l4.second is None
            &&& l4.third is None
            &&& l4.direct is None
            &&& k4 == k[4]
        }),
{
    lemma_mm_program();
    let start = launch_at_start(Service::Mm, caller, src, None);
    lemma_stops(k[0], start);
    let n1 = Launch { cap: endpoint, pc: 1, ..start };
    lemma_goes_on(k[1], n1);
    let n2 = Launch { endpoint: Some(endpoint), pc: 2, ..n1 };
    lemma_stops(k[1], n2);
    let n3 = Launch {
        process: Some(ServiceProcess { thread, cap_space: cs, root_pt }),
        pc: 3,
        ..n2
    };
    lemma_goes_on(k[2], n3);
    let n4 = Launch { pc: 4, ..n3 };
    lemma_stops(with_copy(k[2], src, endpoint, cs), n4);
    let n5 = Launch { phys: page, pc: 5, ..n4 };
    lemma_stops(k[3], n5);
    let n6 = Launch { pc: 6, ..n5 };
    lemma_goes_on(k[4], n6);
    let n7 = Launch { first: Some(page), pc: 7, ..n6 };
    lemma_stops(k[4], n7);
}

/// The instructions of the launch, one by one.
proof fn lemma_fs_program()
    ensures
        program(Service::Fs).len() == 13,
        op_at(Service::Fs, 0) == LaunchOp::Create(KernelObjectType::Endpoint),
        op_at(Service::Fs, 1) == LaunchOp::KeepEndpoint,
        op_at(Service::Fs, 2) == (LaunchOp::Start { stack_vma: FS_STACK_VMA }),
        op_at(Service::Fs, 3) == LaunchOp::Grant,
        op_at(Service::Fs, 4) == LaunchOp::NewPage,
        op_at(Service::Fs, 5) == (LaunchOp::MapPage { va: FS_SHARED_VA }),
        op_at(Service::Fs, 6) == LaunchOp::Keep(PageSlot::First),
        op_at(Service::Fs, 7) == LaunchOp::Create(KernelObjectType::SharedRegion),
        op_at(Service::Fs, 8) == LaunchOp::ResolveRegion,
        op_at(Service::Fs, 9) == LaunchOp::Grant,
        op_at(Service::Fs, 10) == (LaunchOp::MapPage { va: FS_DATA_VA }),
        op_at(Service::Fs, 11) == LaunchOp::Keep(PageSlot::Second),
        op_at(Service::Fs, 12) == LaunchOp::HandOff,
{
}

/// The instructions of the launch, one by one.
proof fn lemma_compositor_program()
    ensures
        program(Service::Compositor).len() == 18,
        op_at(Service::Compositor, 0) == LaunchOp::Create(KernelObjectType::Endpoint),
        op_at(Service::Compositor, 1) == LaunchOp::KeepEndpoint,
        op_at(Service::Compositor, 2) == (LaunchOp::Start { stack_vma: COMPOSITOR_STACK_VMA }),
        op_at(Service::Compositor, 3) == LaunchOp::Grant,
        op_at(Service::Compositor, 4) == LaunchOp::NewPage,
        op_at(Service::Compositor, 5) == (LaunchOp::MapPage { va: COMPOSITOR_SHARED_VA }),
        op_at(Service::Compositor, 6) == LaunchOp::Keep(PageSlot::First),
        op_at(Service::Compositor, 7) == LaunchOp::Create(KernelObjectType::SharedRegion),
        op_at(Service::Compositor, 8) == LaunchOp::ResolveRegion,
        op_at(Service::Compositor, 9) == LaunchOp::Grant,
        op_at(Service::Compositor, 10) == (LaunchOp::MapPage { va: COMPOSITOR_FB_VA }),
        op_at(Service::Compositor, 11) == LaunchOp::Keep(PageSlot::Second),
        op_at(Service::Compositor, 12) == LaunchOp::Create(KernelObjectType::SharedRegion),
        op_at(Service::Compositor, 13) == LaunchOp::ResolveRegion,
        op_at(Service::Compositor, 14) == LaunchOp::ClearPage,
        op_at(Service::Compositor, 15) == (LaunchOp::MapPage { va: COMPOSITOR_CONFIRM_VA }),
        op_at(Service::Compositor, 16) == LaunchOp::Keep(PageSlot::Third),
        op_at(Service::Compositor, 17) == LaunchOp::HandOff,
{
}

/// The instructions of the launch, one by one.
proof fn lemma_mm_program()
    ensures
        program(Service::Mm).len() == 8,
        op_at(Service::Mm, 0) == LaunchOp::Create(KernelObjectType::Endpoint),
        op_at(Service::Mm, 1) == LaunchOp::KeepEndpoint,
        op_at(Service::Mm, 2) == (LaunchOp::Start { stack_vma: MM_STACK_VMA }),
        op_at(Service::Mm, 3) == LaunchOp::Grant,
        op_at(Service::Mm, 4) == LaunchOp::NewPage,
        op_at(Service::Mm, 5) == (LaunchOp::MapPage { va: MM_SHARED_VA }),
        op_at(Service::Mm, 6) == LaunchOp::Keep(PageSlot::First),
        op_at(Service::Mm, 7) == LaunchOp::HandOff,
{
}

/// What an instruction that needs nobody leads to.
pub proof fn lemma_goes_on(k: KernelView, l: Launch)
    requires
        l.pc < program(l.service).len() <= MAX_PROGRAM,
    ensures
        ({
            let op = op_at(l.service, l.pc as int);
            let next = Launch { pc: (l.pc + 1) as usize, ..l };
            &&& op is KeepEndpoint ==> ran(k, l) == ran(
                k,
                Launch { endpoint: Some(l.cap), ..next },
            )
            &&& op is Grant && l.process is Some && can_hand(
                k,
                l.src,
                l.cap,
                l.process->0.cap_space,
            ) ==> ran(k, l) == ran(with_copy(k, l.src, l.cap, l.process->0.cap_space), next)
            &&& op is ResolveRegion ==> forall|phys: usize|
                #[trigger] names_region(k, l.src, l.cap, phys) ==> ran(k, l) == ran(
                    k,
                    Launch { phys, ..next },
                )
            &&& op == (LaunchOp::FindDevice { net: false }) ==> forall|
                dev: CapId,
                window: MmioRegionDescriptor,
            | #[trigger] is_device(k, l.src, false, dev, window) ==> ran(k, l) == ran(
                k,
                Launch { device: Some(DriverDevice { cap: dev, window }), ..next },
            )
            &&& op == (LaunchOp::FindDevice { net: true }) ==> forall|
                dev: CapId,
                window: MmioRegionDescriptor,
            | #[trigger] is_device(k, l.src, true, dev, window) ==> ran(k, l) == ran(
                k,
                Launch { device: Some(DriverDevice { cap: dev, window }), ..next },
            )
            &&& op is UseDriverEndpoint && l.driver is Some ==> ran(k, l) == ran(
                k,
                Launch { cap: l.driver->0.endpoint, ..next },
            )
            &&& op is UseDevicePage && l.device is Some ==> ran(k, l) == ran(
                k,
                Launch { phys: l.device->0.window.phys_base as usize, ..next },
            )
            &&& op is KeepDevice && l.device is Some ==> ran(k, l) == ran(
                k,
                Launch { direct: Some(l.device->0.window.phys_base as usize), ..next },
            )
            &&& l.driver is Some ==> (op matches LaunchOp::UseDriverPage { tx } ==> ran(k, l) == ran(
                k,
                Launch {
                    phys: if tx {
                        l.driver->0.tx
                    } else {
                        l.driver->0.rx
                    },
                    ..next
                },
            ))
            &&& op == LaunchOp::Use(PageSlot::First) && l.first is Some ==> ran(k, l) == ran(
                k,
                Launch { phys: l.first->0, ..next },
            )
            &&& op is NeedCallerSpace && (exists|root_pt: usize|
                runs_under(k, l.caller, root_pt)) ==> ran(k, l) == ran(k, next)
            &&& l.driver is Some ==> (op matches LaunchOp::MapWindow { notify, caller } ==> (if notify {
                l.driver->0.notify
            } else {
                l.driver->0.isr
            }) is None ==> ran(k, l) == ran(k, next))
            &&& l.device is Some && l.device->0.window.config_space_base != 0 ==> {
                &&& op matches LaunchOp::SkipIfPci(n) ==> n <= 3 ==> ran(k, l) == ran(
                    k,
                    Launch { pc: (l.pc + 1 + n) as usize, ..l },
                )
                &&& op is SkipUnlessPci ==> ran(k, l) == ran(k, next)
            }
            &&& l.device is Some && l.device->0.window.config_space_base == 0 ==> {
                &&& op matches LaunchOp::SkipUnlessPci(n) ==> n <= 3 ==> ran(k, l) == ran(
                    k,
                    Launch { pc: (l.pc + 1 + n) as usize, ..l },
                )
                &&& op is SkipIfPci ==> ran(k, l) == ran(k, next)
            }
            &&& op == LaunchOp::Keep(PageSlot::First) ==> ran(k, l) == ran(
                k,
                Launch { first: Some(l.phys), ..next },
            )
            &&& op == LaunchOp::Keep(PageSlot::Second) ==> ran(k, l) == ran(
                k,
                Launch { second: Some(l.phys), ..next },
            )
            &&& op == LaunchOp::Keep(PageSlot::Third) ==> ran(k, l) == ran(
                k,
                Launch { third: Some(l.phys), ..next },
            )
        }),
{
    reveal(performed);
}

/// What an instruction that needs somebody, or the last one, leads to.
pub proof fn lemma_stops(k: KernelView, l: Launch)
    requires
        l.pc < program(l.service).len() <= MAX_PROGRAM,
    ensures
        ({
            let op = op_at(l.service, l.pc as int);
            let (k1, l1, step) = ran(k, l);
            let stops = k1 == k && l1 == l;
            &&& op matches LaunchOp::Create(ty) ==> stops && requests_object(step, ty)
            &&& op matches LaunchOp::Start { stack_vma } ==> stops && requests(
                step,
                LaunchRequest::StartProcess { stack_vma, stack_len: SERVICE_STACK_LEN },
            )
            &&& op is NewPage ==> stops && requests(step, LaunchRequest::NewPage)
            &&& op is ClearPage ==> stops && requests(
                step,
                LaunchRequest::ClearPage { phys: l.phys },
            )
            &&& op is WriteHeader ==> stops && requests(
                step,
                LaunchRequest::WriteWord { phys: l.phys, word: l.phys as u64 },
            )
            &&& l.process is Some ==> (op matches LaunchOp::MapPage { va } ==> stops
                && requests_page(step, l.process->0.root_pt, va, l.phys))
            &&& l.process is Some && l.device is Some ==> (op matches LaunchOp::Wire { net } ==> forall|
                root_pt: usize,
            | #[trigger] runs_under(k, l.caller, root_pt) ==> stops && requests(
                step,
                LaunchRequest::Wire {
                    net,
                    driver_root_pt: l.process->0.root_pt,
                    caller_root_pt: root_pt,
                    config_phys: l.device->0.window.config_space_base,
                    region_phys: l.phys,
                    irq: l.device->0.window.irq,
                },
            ))
            &&& op is BindIrq && l.device is Some ==> stops && requests(
                step,
                LaunchRequest::Syscall(
                    SyscallOp::IrqBind { mmio: l.device->0.cap, notification: l.cap },
                ),
            )
            &&& l.process is Some && l.driver is Some ==> (op matches LaunchOp::MapWindow {
                notify,
                caller,
            } ==> {
                let w = if notify {
                    l.driver->0.notify
                } else {
                    l.driver->0.isr
                };
                &&& w is Some && !caller ==> stops && requests_window(
                    step,
                    l.process->0.root_pt,
                    w->0,
                )
                &&& w is Some && caller ==> forall|root_pt: usize|
                    #[trigger] runs_under(k, l.caller, root_pt) ==> stops && requests_window(
                        step,
                        root_pt,
                        w->0,
                    )
            })
            &&& op is HandOff && l.process is Some ==> stops && launched(
                step,
                k,
                l.caller,
                l.process->0.thread,
            )
        }),
{
    reveal(performed);
}

/// A launch whose request was refused fails, and nothing changes.
pub proof fn a_launch_fails_with_its_request(k: KernelView, l: Launch, e: SyscallError)
    ensures
        ({
            let failed = (k, l, LaunchStep::Finished(None::<Launched>));
            &&& launch_resumed(k, l, LaunchReply::Mapped(false)) == failed
            &&& launch_resumed(k, l, LaunchReply::Wired(false)) == failed
            &&& launch_resumed(k, l, LaunchReply::Page(None)) == failed
            &&& launch_resumed(k, l, LaunchReply::Started(None)) == failed
            &&& launch_resumed(k, l, LaunchReply::Returned(Err(e))) == failed
        }),
{
}

/// A launch begins for a thread that is there, in the capability space of that thread, and has
/// nothing yet.
pub proof fn a_launch_begins_for_its_caller(
    k: KernelView,
    service: Service,
    caller: ThreadId,
    driver: Option<DriverPages>,
)
    ensures
        ({
            let there = caller.0 < k.tcbs.len() && k.tcbs[caller.0 as int] is Some;
            let (after, begun) = launch_begun(k, service, caller, driver);
            let start = launch_at_start(
                service,
                caller,
                k.tcbs[caller.0 as int]->0.cap_space,
                driver,
            );
            &&& !there ==> after == k && begun is None
            &&& there ==> begun is Some && (after, (begun->0).0, (begun->0).1) == ran(k, start)
            &&& start.service == service && start.caller == caller && start.driver == driver
            &&& start.pc == 0 && start.endpoint is None && start.process is None
            &&& start.first is None && start.second is None && start.third is None
        }),
{
}

} // verus!
