//! What launching a driver, and the network service on top of one, is for: the driver finds its
//! device and its queues, the interrupt of the device reaches it, and the network service shares
//! the queues.

use crate::ids::{CapId, CapSpaceId, ThreadId};
use crate::launch::{
    launch_at_start, launch_resumed, netstack_begun, op_at, program, ran, DriverDevice, DriverPages,
    Launch, LaunchOp, LaunchReply, LaunchRequest, PageSlot, Service, ServiceProcess, DRV_MMIO_VA,
    DRV_NET_MMIO_VA, DRV_NET_RX_VA, DRV_NET_STACK_VMA, DRV_NET_TX_VA, DRV_QUEUE_VA, DRV_STACK_VMA,
    NETSTACK_BYPASS_SHARED_VA, NETSTACK_DRV_RX_VA, NETSTACK_DRV_TX_VA, NETSTACK_STACK_VMA,
    NETSTACK_STATUS_VA, SERVICE_STACK_LEN,
};
use crate::objects::{KernelObjectType, MmioRegionDescriptor};
use crate::service_laws::{
    can_hand, created, is_device, launched, lemma_goes_on, lemma_stops, names_region, requests,
    requests_object, requests_page, requests_window, runs_under, with_copy,
};
use crate::state::KernelView;
use crate::syscall::{SyscallOp, SyscallReturn};
use vstd::prelude::*;

verus! {

/// The block driver of a device that is not on the PCI bus is started with an endpoint, the registers
/// of its device, a zeroed queue that starts with its own address, and a notification that the line
/// of the device signals. The kernel keeps the registers to acknowledge interrupts in.
#[verifier::rlimit(20)]
pub proof fn the_block_driver_gets_its_registers(
    k: Seq<KernelView>,
    caller: ThreadId,
    src: CapSpaceId,
    dev: CapId,
    window: MmioRegionDescriptor,
    registers: usize,
    endpoint: CapId,
    thread: ThreadId,
    cs: CapSpaceId,
    root_pt: usize,
    region_one: CapId,
    data_one: usize,
    notification: CapId,
)
    requires
        k.len() == 10,
        is_device(k[0], src, false, dev, window),
        registers == window.phys_base,
        window.config_space_base == 0,
        runs_under(k[2], thread, root_pt),
        can_hand(k[2], src, endpoint, cs),
        names_region(k[4], src, region_one, data_one),
        can_hand(k[9], src, notification, cs),
    ensures
        ({
            let (k0, l0, s0) = ran(k[0], launch_at_start(Service::Block, caller, src, None));
            let (k1, l1, s1) = launch_resumed(k[1], l0, created(endpoint));
            let (k2, l2, s2) = launch_resumed(k[2], l1, LaunchReply::Started(Some((thread, cs))));
            let (k3, l3, s3) = launch_resumed(k[3], l2, LaunchReply::Mapped(true));
            let (k4, l4, s4) = launch_resumed(k[4], l3, created(region_one));
            let (k5, l5, s5) = launch_resumed(k[5], l4, LaunchReply::Done);
            let (k6, l6, s6) = launch_resumed(k[6], l5, LaunchReply::Done);
            let (k7, l7, s7) = launch_resumed(k[7], l6, LaunchReply::Mapped(true));
            let (k8, l8, s8) = launch_resumed(k[8], l7, created(notification));
            let (k9, l9, s9) = launch_resumed(
                k[9],
                l8,
                LaunchReply::Returned(Ok(SyscallReturn::Done)),
            );
            &&& requests_object(s0, KernelObjectType::Endpoint)
            &&& k0 == k[0]
            &&& requests(
                s1,
                LaunchRequest::StartProcess {
                    stack_vma: DRV_STACK_VMA,
                    stack_len: SERVICE_STACK_LEN,
                },
            )
            &&& k1 == k[1]
            &&& requests_page(s2, root_pt, DRV_MMIO_VA, registers)
            &&& k2 == with_copy(k[2], src, endpoint, cs)
            &&& requests_object(s3, KernelObjectType::SharedRegion)
            &&& k3 == k[3]
            &&& requests(s4, LaunchRequest::ClearPage { phys: data_one })
            &&& k4 == k[4]
            &&& requests(s5, LaunchRequest::WriteWord { phys: data_one, word: data_one as u64 })
            &&& k5 == k[5]
            &&& requests_page(s6, root_pt, DRV_QUEUE_VA, data_one)
            &&& k6 == k[6]
            &&& requests_object(s7, KernelObjectType::Notification)
            &&& k7 == k[7]
            &&& requests(
                s8,
                LaunchRequest::Syscall(SyscallOp::IrqBind { mmio: dev, notification }),
            )
            &&& k8 == k[8]
            &&& launched(s9, with_copy(k[9], src, notification, cs), caller, thread)
            &&& l9.endpoint == Some(endpoint)
            &&& l9.first == Some(data_one)
            &&& l9.second is None
            &&& l9.third is None
            &&& l9.direct == Some(registers)
            &&& k9 == with_copy(k[9], src, notification, cs)
        }),
{
    lemma_block_program();
    let start = launch_at_start(Service::Block, caller, src, None);
    lemma_goes_on(k[0], start);
    let n1 = Launch { device: Some(DriverDevice { cap: dev, window }), pc: 1, ..start };
    lemma_goes_on(k[0], n1);
    let n2 = Launch { pc: 2, ..n1 };
    lemma_goes_on(k[0], n2);
    let n3 = Launch { direct: Some(registers), pc: 3, ..n2 };
    lemma_stops(k[0], n3);
    let n4 = Launch { cap: endpoint, pc: 4, ..n3 };
    lemma_goes_on(k[1], n4);
    let n5 = Launch { endpoint: Some(endpoint), pc: 5, ..n4 };
    lemma_stops(k[1], n5);
    let n6 = Launch {
        process: Some(ServiceProcess { thread, cap_space: cs, root_pt }),
        pc: 6,
        ..n5
    };
    lemma_goes_on(k[2], n6);
    let n7 = Launch { pc: 7, ..n6 };
    lemma_goes_on(with_copy(k[2], src, endpoint, cs), n7);
    let n8 = Launch { pc: 8, ..n7 };
    lemma_goes_on(with_copy(k[2], src, endpoint, cs), n8);
    let n9 = Launch { phys: registers, pc: 9, ..n8 };
    lemma_stops(with_copy(k[2], src, endpoint, cs), n9);
    let n10 = Launch { pc: 10, ..n9 };
    lemma_stops(k[3], n10);
    let n11 = Launch { cap: region_one, pc: 11, ..n10 };
    lemma_goes_on(k[4], n11);
    let n12 = Launch { phys: data_one, pc: 12, ..n11 };
    lemma_stops(k[4], n12);
    let n13 = Launch { pc: 13, ..n12 };
    lemma_stops(k[5], n13);
    let n14 = Launch { pc: 14, ..n13 };
    lemma_goes_on(k[6], n14);
    let n15 = Launch { pc: 16, ..n14 };
    lemma_stops(k[6], n15);
    let n16 = Launch { pc: 17, ..n15 };
    lemma_goes_on(k[7], n16);
    let n17 = Launch { first: Some(data_one), pc: 18, ..n16 };
    lemma_stops(k[7], n17);
    let n18 = Launch { cap: notification, pc: 19, ..n17 };
    lemma_stops(k[8], n18);
    let n19 = Launch { pc: 20, ..n18 };
    lemma_goes_on(k[9], n19);
    let n20 = Launch { pc: 21, ..n19 };
    lemma_stops(with_copy(k[9], src, notification, cs), n20);
}

/// The block driver of a device on the PCI bus is started in the same way, but has its device wired
/// to it, with the information block in its queue, in place of its registers.
#[verifier::rlimit(20)]
pub proof fn the_block_driver_is_wired_to_its_device(
    k: Seq<KernelView>,
    caller: ThreadId,
    src: CapSpaceId,
    dev: CapId,
    window: MmioRegionDescriptor,
    registers: usize,
    endpoint: CapId,
    thread: ThreadId,
    cs: CapSpaceId,
    root_pt: usize,
    region_one: CapId,
    data_one: usize,
    caller_root: usize,
    notification: CapId,
)
    requires
        k.len() == 10,
        is_device(k[0], src, false, dev, window),
        registers == window.phys_base,
        window.config_space_base != 0,
        runs_under(k[2], thread, root_pt),
        can_hand(k[2], src, endpoint, cs),
        names_region(k[3], src, region_one, data_one),
        runs_under(k[5], caller, caller_root),
        can_hand(k[9], src, notification, cs),
    ensures
        ({
            let (k0, l0, s0) = ran(k[0], launch_at_start(Service::Block, caller, src, None));
            let (k1, l1, s1) = launch_resumed(k[1], l0, created(endpoint));
            let (k2, l2, s2) = launch_resumed(k[2], l1, LaunchReply::Started(Some((thread, cs))));
            let (k3, l3, s3) = launch_resumed(k[3], l2, created(region_one));
            let (k4, l4, s4) = launch_resumed(k[4], l3, LaunchReply::Done);
            let (k5, l5, s5) = launch_resumed(k[5], l4, LaunchReply::Done);
            let (k6, l6, s6) = launch_resumed(k[6], l5, LaunchReply::Wired(true));
            let (k7, l7, s7) = launch_resumed(k[7], l6, LaunchReply::Mapped(true));
            let (k8, l8, s8) = launch_resumed(k[8], l7, created(notification));
            let (k9, l9, s9) = launch_resumed(
                k[9],
                l8,
                LaunchReply::Returned(Ok(SyscallReturn::Done)),
            );
            &&& requests_object(s0, KernelObjectType::Endpoint)
            &&& k0 == k[0]
            &&& requests(
                s1,
                LaunchRequest::StartProcess {
                    stack_vma: DRV_STACK_VMA,
                    stack_len: SERVICE_STACK_LEN,
                },
            )
            &&& k1 == k[1]
            &&& requests_object(s2, KernelObjectType::SharedRegion)
            &&& k2 == with_copy(k[2], src, endpoint, cs)
            &&& requests(s3, LaunchRequest::ClearPage { phys: data_one })
            &&& k3 == k[3]
            &&& requests(s4, LaunchRequest::WriteWord { phys: data_one, word: data_one as u64 })
            &&& k4 == k[4]
            &&& requests(
                s5,
                LaunchRequest::Wire {
                    net: false,
                    driver_root_pt: root_pt,
                    caller_root_pt: caller_root,
                    config_phys: window.config_space_base,
                    region_phys: data_one,
                    irq: window.irq,
                },
            )
            &&& k5 == k[5]
            &&& requests_page(s6, root_pt, DRV_QUEUE_VA, data_one)
            &&& k6 == k[6]
            &&& requests_object(s7, KernelObjectType::Notification)
            &&& k7 == k[7]
            &&& requests(
                s8,
                LaunchRequest::Syscall(SyscallOp::IrqBind { mmio: dev, notification }),
            )
            &&& k8 == k[8]
            &&& launched(s9, with_copy(k[9], src, notification, cs), caller, thread)
            &&& l9.endpoint == Some(endpoint)
            &&& l9.first == Some(data_one)
            &&& l9.second is None
            &&& l9.third is None
            &&& l9.direct is None
            &&& k9 == with_copy(k[9], src, notification, cs)
        }),
{
    lemma_block_program();
    let start = launch_at_start(Service::Block, caller, src, None);
    lemma_goes_on(k[0], start);
    let n1 = Launch { device: Some(DriverDevice { cap: dev, window }), pc: 1, ..start };
    lemma_goes_on(k[0], n1);
    let n2 = Launch { pc: 3, ..n1 };
    lemma_stops(k[0], n2);
    let n3 = Launch { cap: endpoint, pc: 4, ..n2 };
    lemma_goes_on(k[1], n3);
    let n4 = Launch { endpoint: Some(endpoint), pc: 5, ..n3 };
    lemma_stops(k[1], n4);
    let n5 = Launch {
        process: Some(ServiceProcess { thread, cap_space: cs, root_pt }),
        pc: 6,
        ..n4
    };
    lemma_goes_on(k[2], n5);
    let n6 = Launch { pc: 7, ..n5 };
    lemma_goes_on(with_copy(k[2], src, endpoint, cs), n6);
    let n7 = Launch { pc: 10, ..n6 };
    lemma_stops(with_copy(k[2], src, endpoint, cs), n7);
    let n8 = Launch { cap: region_one, pc: 11, ..n7 };
    lemma_goes_on(k[3], n8);
    let n9 = Launch { phys: data_one, pc: 12, ..n8 };
    lemma_stops(k[3], n9);
    let n10 = Launch { pc: 13, ..n9 };
    lemma_stops(k[4], n10);
    let n11 = Launch { pc: 14, ..n10 };
    lemma_goes_on(k[5], n11);
    let n12 = Launch { pc: 15, ..n11 };
    lemma_stops(k[5], n12);
    let n13 = Launch { pc: 16, ..n12 };
    lemma_stops(k[6], n13);
    let n14 = Launch { pc: 17, ..n13 };
    lemma_goes_on(k[7], n14);
    let n15 = Launch { first: Some(data_one), pc: 18, ..n14 };
    lemma_stops(k[7], n15);
    let n16 = Launch { cap: notification, pc: 19, ..n15 };
    lemma_stops(k[8], n16);
    let n17 = Launch { pc: 20, ..n16 };
    lemma_goes_on(k[9], n17);
    let n18 = Launch { pc: 21, ..n17 };
    lemma_stops(with_copy(k[9], src, notification, cs), n18);
}

/// The network driver of a device that is not on the PCI bus is started with an endpoint, the
/// registers of its device, two zeroed queues that start with their own addresses, and a
/// notification that the line of the device signals.
#[verifier::rlimit(20)]
pub proof fn the_network_driver_gets_its_registers(
    k: Seq<KernelView>,
    caller: ThreadId,
    src: CapSpaceId,
    dev: CapId,
    window: MmioRegionDescriptor,
    registers: usize,
    endpoint: CapId,
    thread: ThreadId,
    cs: CapSpaceId,
    root_pt: usize,
    region_one: CapId,
    data_one: usize,
    region_two: CapId,
    data_two: usize,
    notification: CapId,
)
    requires
        k.len() == 14,
        is_device(k[0], src, true, dev, window),
        registers == window.phys_base,
        window.config_space_base == 0,
        runs_under(k[2], thread, root_pt),
        can_hand(k[2], src, endpoint, cs),
        names_region(k[4], src, region_one, data_one),
        names_region(k[8], src, region_two, data_two),
        can_hand(k[13], src, notification, cs),
    ensures
        ({
            let (k0, l0, s0) = ran(k[0], launch_at_start(Service::Net, caller, src, None));
            let (k1, l1, s1) = launch_resumed(k[1], l0, created(endpoint));
            let (k2, l2, s2) = launch_resumed(k[2], l1, LaunchReply::Started(Some((thread, cs))));
            let (k3, l3, s3) = launch_resumed(k[3], l2, LaunchReply::Mapped(true));
            let (k4, l4, s4) = launch_resumed(k[4], l3, created(region_one));
            let (k5, l5, s5) = launch_resumed(k[5], l4, LaunchReply::Done);
            let (k6, l6, s6) = launch_resumed(k[6], l5, LaunchReply::Done);
            let (k7, l7, s7) = launch_resumed(k[7], l6, LaunchReply::Mapped(true));
            let (k8, l8, s8) = launch_resumed(k[8], l7, created(region_two));
            let (k9, l9, s9) = launch_resumed(k[9], l8, LaunchReply::Done);
            let (k10, l10, s10) = launch_resumed(k[10], l9, LaunchReply::Done);
            let (k11, l11, s11) = launch_resumed(k[11], l10, LaunchReply::Mapped(true));
            let (k12, l12, s12) = launch_resumed(k[12], l11, created(notification));
            let (k13, l13, s13) = launch_resumed(
                k[13],
                l12,
                LaunchReply::Returned(Ok(SyscallReturn::Done)),
            );
            &&& requests_object(s0, KernelObjectType::Endpoint)
            &&& k0 == k[0]
            &&& requests(
                s1,
                LaunchRequest::StartProcess {
                    stack_vma: DRV_NET_STACK_VMA,
                    stack_len: SERVICE_STACK_LEN,
                },
            )
            &&& k1 == k[1]
            &&& requests_page(s2, root_pt, DRV_NET_MMIO_VA, registers)
            &&& k2 == with_copy(k[2], src, endpoint, cs)
            &&& requests_object(s3, KernelObjectType::SharedRegion)
            &&& k3 == k[3]
            &&& requests(s4, LaunchRequest::ClearPage { phys: data_one })
            &&& k4 == k[4]
            &&& requests(s5, LaunchRequest::WriteWord { phys: data_one, word: data_one as u64 })
            &&& k5 == k[5]
            &&& requests_page(s6, root_pt, DRV_NET_RX_VA, data_one)
            &&& k6 == k[6]
            &&& requests_object(s7, KernelObjectType::SharedRegion)
            &&& k7 == k[7]
            &&& requests(s8, LaunchRequest::ClearPage { phys: data_two })
            &&& k8 == k[8]
            &&& requests(s9, LaunchRequest::WriteWord { phys: data_two, word: data_two as u64 })
            &&& k9 == k[9]
            &&& requests_page(s10, root_pt, DRV_NET_TX_VA, data_two)
            &&& k10 == k[10]
            &&& requests_object(s11, KernelObjectType::Notification)
            &&& k11 == k[11]
            &&& requests(
                s12,
                LaunchRequest::Syscall(SyscallOp::IrqBind { mmio: dev, notification }),
            )
            &&& k12 == k[12]
            &&& launched(s13, with_copy(k[13], src, notification, cs), caller, thread)
            &&& l13.endpoint == Some(endpoint)
            &&& l13.first == Some(data_one)
            &&& l13.second == Some(data_two)
            &&& l13.third is None
            &&& l13.direct == Some(registers)
            &&& k13 == with_copy(k[13], src, notification, cs)
        }),
{
    lemma_net_program();
    let start = launch_at_start(Service::Net, caller, src, None);
    lemma_goes_on(k[0], start);
    let n1 = Launch { device: Some(DriverDevice { cap: dev, window }), pc: 1, ..start };
    lemma_stops(k[0], n1);
    let n2 = Launch { cap: endpoint, pc: 2, ..n1 };
    lemma_goes_on(k[1], n2);
    let n3 = Launch { endpoint: Some(endpoint), pc: 3, ..n2 };
    lemma_stops(k[1], n3);
    let n4 = Launch {
        process: Some(ServiceProcess { thread, cap_space: cs, root_pt }),
        pc: 4,
        ..n3
    };
    lemma_goes_on(k[2], n4);
    let n5 = Launch { pc: 5, ..n4 };
    lemma_goes_on(with_copy(k[2], src, endpoint, cs), n5);
    let n6 = Launch { pc: 6, ..n5 };
    lemma_goes_on(with_copy(k[2], src, endpoint, cs), n6);
    let n7 = Launch { phys: registers, pc: 7, ..n6 };
    lemma_stops(with_copy(k[2], src, endpoint, cs), n7);
    let n8 = Launch { pc: 8, ..n7 };
    lemma_goes_on(k[3], n8);
    let n9 = Launch { direct: Some(registers), pc: 9, ..n8 };
    lemma_stops(k[3], n9);
    let n10 = Launch { cap: region_one, pc: 10, ..n9 };
    lemma_goes_on(k[4], n10);
    let n11 = Launch { phys: data_one, pc: 11, ..n10 };
    lemma_stops(k[4], n11);
    let n12 = Launch { pc: 12, ..n11 };
    lemma_stops(k[5], n12);
    let n13 = Launch { pc: 13, ..n12 };
    lemma_stops(k[6], n13);
    let n14 = Launch { pc: 14, ..n13 };
    lemma_goes_on(k[7], n14);
    let n15 = Launch { first: Some(data_one), pc: 15, ..n14 };
    lemma_stops(k[7], n15);
    let n16 = Launch { cap: region_two, pc: 16, ..n15 };
    lemma_goes_on(k[8], n16);
    let n17 = Launch { phys: data_two, pc: 17, ..n16 };
    lemma_stops(k[8], n17);
    let n18 = Launch { pc: 18, ..n17 };
    lemma_stops(k[9], n18);
    let n19 = Launch { pc: 19, ..n18 };
    lemma_stops(k[10], n19);
    let n20 = Launch { pc: 20, ..n19 };
    lemma_goes_on(k[11], n20);
    let n21 = Launch { second: Some(data_two), pc: 21, ..n20 };
    lemma_goes_on(k[11], n21);
    let n22 = Launch { pc: 24, ..n21 };
    lemma_stops(k[11], n22);
    let n23 = Launch { cap: notification, pc: 25, ..n22 };
    lemma_stops(k[12], n23);
    let n24 = Launch { pc: 26, ..n23 };
    lemma_goes_on(k[13], n24);
    let n25 = Launch { pc: 27, ..n24 };
    lemma_stops(with_copy(k[13], src, notification, cs), n25);
}

/// The network driver of a device on the PCI bus is started in the same way, but has its device
/// wired to it, with the information block in its receive queue, in place of its registers.
#[verifier::rlimit(20)]
pub proof fn the_network_driver_is_wired_to_its_device(
    k: Seq<KernelView>,
    caller: ThreadId,
    src: CapSpaceId,
    dev: CapId,
    window: MmioRegionDescriptor,
    registers: usize,
    endpoint: CapId,
    thread: ThreadId,
    cs: CapSpaceId,
    root_pt: usize,
    region_one: CapId,
    data_one: usize,
    region_two: CapId,
    data_two: usize,
    caller_root: usize,
    notification: CapId,
)
    requires
        k.len() == 14,
        is_device(k[0], src, true, dev, window),
        registers == window.phys_base,
        window.config_space_base != 0,
        runs_under(k[2], thread, root_pt),
        can_hand(k[2], src, endpoint, cs),
        names_region(k[3], src, region_one, data_one),
        names_region(k[7], src, region_two, data_two),
        runs_under(k[10], caller, caller_root),
        can_hand(k[13], src, notification, cs),
    ensures
        ({
            let (k0, l0, s0) = ran(k[0], launch_at_start(Service::Net, caller, src, None));
            let (k1, l1, s1) = launch_resumed(k[1], l0, created(endpoint));
            let (k2, l2, s2) = launch_resumed(k[2], l1, LaunchReply::Started(Some((thread, cs))));
            let (k3, l3, s3) = launch_resumed(k[3], l2, created(region_one));
            let (k4, l4, s4) = launch_resumed(k[4], l3, LaunchReply::Done);
            let (k5, l5, s5) = launch_resumed(k[5], l4, LaunchReply::Done);
            let (k6, l6, s6) = launch_resumed(k[6], l5, LaunchReply::Mapped(true));
            let (k7, l7, s7) = launch_resumed(k[7], l6, created(region_two));
            let (k8, l8, s8) = launch_resumed(k[8], l7, LaunchReply::Done);
            let (k9, l9, s9) = launch_resumed(k[9], l8, LaunchReply::Done);
            let (k10, l10, s10) = launch_resumed(k[10], l9, LaunchReply::Mapped(true));
            let (k11, l11, s11) = launch_resumed(k[11], l10, LaunchReply::Wired(true));
            let (k12, l12, s12) = launch_resumed(k[12], l11, created(notification));
            let (k13, l13, s13) = launch_resumed(
                k[13],
                l12,
                LaunchReply::Returned(Ok(SyscallReturn::Done)),
            );
            &&& requests_object(s0, KernelObjectType::Endpoint)
            &&& k0 == k[0]
            &&& requests(
                s1,
                LaunchRequest::StartProcess {
                    stack_vma: DRV_NET_STACK_VMA,
                    stack_len: SERVICE_STACK_LEN,
                },
            )
            &&& k1 == k[1]
            &&& requests_object(s2, KernelObjectType::SharedRegion)
            &&& k2 == with_copy(k[2], src, endpoint, cs)
            &&& requests(s3, LaunchRequest::ClearPage { phys: data_one })
            &&& k3 == k[3]
            &&& requests(s4, LaunchRequest::WriteWord { phys: data_one, word: data_one as u64 })
            &&& k4 == k[4]
            &&& requests_page(s5, root_pt, DRV_NET_RX_VA, data_one)
            &&& k5 == k[5]
            &&& requests_object(s6, KernelObjectType::SharedRegion)
            &&& k6 == k[6]
            &&& requests(s7, LaunchRequest::ClearPage { phys: data_two })
            &&& k7 == k[7]
            &&& requests(s8, LaunchRequest::WriteWord { phys: data_two, word: data_two as u64 })
            &&& k8 == k[8]
            &&& requests_page(s9, root_pt, DRV_NET_TX_VA, data_two)
            &&& k9 == k[9]
            &&& requests(
                s10,
                LaunchRequest::Wire {
                    net: true,
                    driver_root_pt: root_pt,
                    caller_root_pt: caller_root,
                    config_phys: window.config_space_base,
                    region_phys: data_one,
                    irq: window.irq,
                },
            )
            &&& k10 == k[10]
            &&& requests_object(s11, KernelObjectType::Notification)
            &&& k11 == k[11]
            &&& requests(
                s12,
                LaunchRequest::Syscall(SyscallOp::IrqBind { mmio: dev, notification }),
            )
            &&& k12 == k[12]
            &&& launched(s13, with_copy(k[13], src, notification, cs), caller, thread)
            &&& l13.endpoint == Some(endpoint)
            &&& l13.first == Some(data_one)
            &&& l13.second == Some(data_two)
            &&& l13.third is None
            &&& l13.direct is None
            &&& k13 == with_copy(k[13], src, notification, cs)
        }),
{
    lemma_net_program();
    let start = launch_at_start(Service::Net, caller, src, None);
    lemma_goes_on(k[0], start);
    let n1 = Launch { device: Some(DriverDevice { cap: dev, window }), pc: 1, ..start };
    lemma_stops(k[0], n1);
    let n2 = Launch { cap: endpoint, pc: 2, ..n1 };
    lemma_goes_on(k[1], n2);
    let n3 = Launch { endpoint: Some(endpoint), pc: 3, ..n2 };
    lemma_stops(k[1], n3);
    let n4 = Launch {
        process: Some(ServiceProcess { thread, cap_space: cs, root_pt }),
        pc: 4,
        ..n3
    };
    lemma_goes_on(k[2], n4);
    let n5 = Launch { pc: 5, ..n4 };
    lemma_goes_on(with_copy(k[2], src, endpoint, cs), n5);
    let n6 = Launch { pc: 9, ..n5 };
    lemma_stops(with_copy(k[2], src, endpoint, cs), n6);
    let n7 = Launch { cap: region_one, pc: 10, ..n6 };
    lemma_goes_on(k[3], n7);
    let n8 = Launch { phys: data_one, pc: 11, ..n7 };
    lemma_stops(k[3], n8);
    let n9 = Launch { pc: 12, ..n8 };
    lemma_stops(k[4], n9);
    let n10 = Launch { pc: 13, ..n9 };
    lemma_stops(k[5], n10);
    let n11 = Launch { pc: 14, ..n10 };
    lemma_goes_on(k[6], n11);
    let n12 = Launch { first: Some(data_one), pc: 15, ..n11 };
    lemma_stops(k[6], n12);
    let n13 = Launch { cap: region_two, pc: 16, ..n12 };
    lemma_goes_on(k[7], n13);
    let n14 = Launch { phys: data_two, pc: 17, ..n13 };
    lemma_stops(k[7], n14);
    let n15 = Launch { pc: 18, ..n14 };
    lemma_stops(k[8], n15);
    let n16 = Launch { pc: 19, ..n15 };
    lemma_stops(k[9], n16);
    let n17 = Launch { pc: 20, ..n16 };
    lemma_goes_on(k[10], n17);
    let n18 = Launch { second: Some(data_two), pc: 21, ..n17 };
    lemma_goes_on(k[10], n18);
    let n19 = Launch { pc: 22, ..n18 };
    lemma_goes_on(k[10], n19);
    let n20 = Launch { phys: data_one, pc: 23, ..n19 };
    lemma_stops(k[10], n20);
    let n21 = Launch { pc: 24, ..n20 };
    lemma_stops(k[11], n21);
    let n22 = Launch { cap: notification, pc: 25, ..n21 };
    lemma_stops(k[12], n22);
    let n23 = Launch { pc: 26, ..n22 };
    lemma_goes_on(k[13], n23);
    let n24 = Launch { pc: 27, ..n23 };
    lemma_stops(with_copy(k[13], src, notification, cs), n24);
}

/// The network service is started with the endpoint of the driver, an endpoint of its own, both
/// queues of the driver, a page for direct access and a zeroed page for its status. A device without
/// register windows has none mapped.
#[verifier::rlimit(20)]
pub proof fn the_network_service_shares_the_queues(
    k: Seq<KernelView>,
    caller: ThreadId,
    src: CapSpaceId,
    driver: DriverPages,
    thread: ThreadId,
    cs: CapSpaceId,
    root_pt: usize,
    endpoint: CapId,
    page: usize,
    region_one: CapId,
    data_one: usize,
    caller_root: usize,
)
    requires
        k.len() == 10,
        runs_under(k[1], thread, root_pt),
        can_hand(k[1], src, driver.endpoint, cs),
        can_hand(k[2], src, endpoint, cs),
        names_region(k[7], src, region_one, data_one),
        runs_under(k[9], caller, caller_root),
        driver.isr is None,
        driver.notify is None,
    ensures
        ({
            let (k0, l0, s0) = ran(
                k[0],
                launch_at_start(Service::Netstack, caller, src, Some(driver)),
            );
            let (k1, l1, s1) = launch_resumed(k[1], l0, LaunchReply::Started(Some((thread, cs))));
            let (k2, l2, s2) = launch_resumed(k[2], l1, created(endpoint));
            let (k3, l3, s3) = launch_resumed(k[3], l2, LaunchReply::Mapped(true));
            let (k4, l4, s4) = launch_resumed(k[4], l3, LaunchReply::Mapped(true));
            let (k5, l5, s5) = launch_resumed(k[5], l4, LaunchReply::Page(Some(page)));
            let (k6, l6, s6) = launch_resumed(k[6], l5, LaunchReply::Mapped(true));
            let (k7, l7, s7) = launch_resumed(k[7], l6, created(region_one));
            let (k8, l8, s8) = launch_resumed(k[8], l7, LaunchReply::Done);
            let (k9, l9, s9) = launch_resumed(k[9], l8, LaunchReply::Mapped(true));
            &&& requests(
                s0,
                LaunchRequest::StartProcess {
                    stack_vma: NETSTACK_STACK_VMA,
                    stack_len: SERVICE_STACK_LEN,
                },
            )
            &&& k0 == k[0]
            &&& requests_object(s1, KernelObjectType::Endpoint)
            &&& k1 == with_copy(k[1], src, driver.endpoint, cs)
            &&& requests_page(s2, root_pt, NETSTACK_DRV_RX_VA, driver.rx)
            &&& k2 == with_copy(k[2], src, endpoint, cs)
            &&& requests_page(s3, root_pt, NETSTACK_DRV_TX_VA, driver.tx)
            &&& k3 == k[3]
            &&& requests(s4, LaunchRequest::NewPage)
            &&& k4 == k[4]
            &&& requests_page(s5, root_pt, NETSTACK_BYPASS_SHARED_VA, page)
            &&& k5 == k[5]
            &&& requests_object(s6, KernelObjectType::SharedRegion)
            &&& k6 == k[6]
            &&& requests(s7, LaunchRequest::ClearPage { phys: data_one })
            &&& k7 == k[7]
            &&& requests_page(s8, root_pt, NETSTACK_STATUS_VA, data_one)
            &&& k8 == k[8]
            &&& launched(s9, k[9], caller, thread)
            &&& l9.endpoint == Some(endpoint)
            &&& l9.first == Some(page)
            &&& l9.second == Some(data_one)
            &&& l9.third is None
            &&& l9.direct is None
            &&& k9 == k[9]
        }),
{
    lemma_netstack_program();
    let start = launch_at_start(Service::Netstack, caller, src, Some(driver));
    lemma_stops(k[0], start);
    let n1 = Launch {
        process: Some(ServiceProcess { thread, cap_space: cs, root_pt }),
        pc: 1,
        ..start
    };
    lemma_goes_on(k[1], n1);
    let n2 = Launch { cap: driver.endpoint, pc: 2, ..n1 };
    lemma_goes_on(k[1], n2);
    let n3 = Launch { pc: 3, ..n2 };
    lemma_stops(with_copy(k[1], src, driver.endpoint, cs), n3);
    let n4 = Launch { cap: endpoint, pc: 4, ..n3 };
    lemma_goes_on(k[2], n4);
    let n5 = Launch { pc: 5, ..n4 };
    lemma_goes_on(with_copy(k[2], src, endpoint, cs), n5);
    let n6 = Launch { endpoint: Some(endpoint), pc: 6, ..n5 };
    lemma_goes_on(with_copy(k[2], src, endpoint, cs), n6);
    let n7 = Launch { phys: driver.rx, pc: 7, ..n6 };
    lemma_stops(with_copy(k[2], src, endpoint, cs), n7);
    let n8 = Launch { pc: 8, ..n7 };
    lemma_goes_on(k[3], n8);
    let n9 = Launch { phys: driver.tx, pc: 9, ..n8 };
    lemma_stops(k[3], n9);
    let n10 = Launch { pc: 10, ..n9 };
    lemma_stops(k[4], n10);
    let n11 = Launch { phys: page, pc: 11, ..n10 };
    lemma_stops(k[5], n11);
    let n12 = Launch { pc: 12, ..n11 };
    lemma_goes_on(k[6], n12);
    let n13 = Launch { first: Some(page), pc: 13, ..n12 };
    lemma_stops(k[6], n13);
    let n14 = Launch { cap: region_one, pc: 14, ..n13 };
    lemma_goes_on(k[7], n14);
    let n15 = Launch { phys: data_one, pc: 15, ..n14 };
    lemma_stops(k[7], n15);
    let n16 = Launch { pc: 16, ..n15 };
    lemma_stops(k[8], n16);
    let n17 = Launch { pc: 17, ..n16 };
    lemma_goes_on(k[9], n17);
    let n18 = Launch { second: Some(data_one), pc: 18, ..n17 };
    lemma_goes_on(k[9], n18);
    let n19 = Launch { pc: 19, ..n18 };
    lemma_goes_on(k[9], n19);
    let n20 = Launch { pc: 20, ..n19 };
    lemma_goes_on(k[9], n20);
    let n21 = Launch { pc: 21, ..n20 };
    lemma_goes_on(k[9], n21);
    let n22 = Launch { pc: 22, ..n21 };
    lemma_goes_on(k[9], n22);
    let n23 = Launch { pc: 23, ..n22 };
    lemma_stops(k[9], n23);
}

/// If the network device has register windows, the network service and whoever launched it both get
/// the interrupt status and the doorbells mapped where the driver sees them.
#[verifier::rlimit(20)]
pub proof fn the_network_service_shares_the_register_windows(
    k: Seq<KernelView>,
    caller: ThreadId,
    src: CapSpaceId,
    driver: DriverPages,
    thread: ThreadId,
    cs: CapSpaceId,
    root_pt: usize,
    endpoint: CapId,
    page: usize,
    region_one: CapId,
    data_one: usize,
    caller_root: usize,
)
    requires
        k.len() == 14,
        runs_under(k[1], thread, root_pt),
        can_hand(k[1], src, driver.endpoint, cs),
        can_hand(k[2], src, endpoint, cs),
        names_region(k[7], src, region_one, data_one),
        runs_under(k[9], caller, caller_root),
        driver.isr is Some,
        runs_under(k[10], caller, caller_root),
        driver.notify is Some,
        runs_under(k[12], caller, caller_root),
    ensures
        ({
            let (k0, l0, s0) = ran(
                k[0],
                launch_at_start(Service::Netstack, caller, src, Some(driver)),
            );
            let (k1, l1, s1) = launch_resumed(k[1], l0, LaunchReply::Started(Some((thread, cs))));
            let (k2, l2, s2) = launch_resumed(k[2], l1, created(endpoint));
            let (k3, l3, s3) = launch_resumed(k[3], l2, LaunchReply::Mapped(true));
            let (k4, l4, s4) = launch_resumed(k[4], l3, LaunchReply::Mapped(true));
            let (k5, l5, s5) = launch_resumed(k[5], l4, LaunchReply::Page(Some(page)));
            let (k6, l6, s6) = launch_resumed(k[6], l5, LaunchReply::Mapped(true));
            let (k7, l7, s7) = launch_resumed(k[7], l6, created(region_one));
            let (k8, l8, s8) = launch_resumed(k[8], l7, LaunchReply::Done);
            let (k9, l9, s9) = launch_resumed(k[9], l8, LaunchReply::Mapped(true));
            let (k10, l10, s10) = launch_resumed(k[10], l9, LaunchReply::Mapped(true));
            let (k11, l11, s11) = launch_resumed(k[11], l10, LaunchReply::Mapped(true));
            let (k12, l12, s12) = launch_resumed(k[12], l11, LaunchReply::Mapped(true));
            let (k13, l13, s13) = launch_resumed(k[13], l12, LaunchReply::Mapped(true));
            &&& requests(
                s0,
                LaunchRequest::StartProcess {
                    stack_vma: NETSTACK_STACK_VMA,
                    stack_len: SERVICE_STACK_LEN,
                },
            )
            &&& k0 == k[0]
            &&& requests_object(s1, KernelObjectType::Endpoint)
            &&& k1 == with_copy(k[1], src, driver.endpoint, cs)
            &&& requests_page(s2, root_pt, NETSTACK_DRV_RX_VA, driver.rx)
            &&& k2 == with_copy(k[2], src, endpoint, cs)
            &&& requests_page(s3, root_pt, NETSTACK_DRV_TX_VA, driver.tx)
            &&& k3 == k[3]
            &&& requests(s4, LaunchRequest::NewPage)
            &&& k4 == k[4]
            &&& requests_page(s5, root_pt, NETSTACK_BYPASS_SHARED_VA, page)
            &&& k5 == k[5]
            &&& requests_object(s6, KernelObjectType::SharedRegion)
            &&& k6 == k[6]
            &&& requests(s7, LaunchRequest::ClearPage { phys: data_one })
            &&& k7 == k[7]
            &&& requests_page(s8, root_pt, NETSTACK_STATUS_VA, data_one)
            &&& k8 == k[8]
            &&& requests_window(s9, root_pt, driver.isr->0)
            &&& k9 == k[9]
            &&& requests_window(s10, caller_root, driver.isr->0)
            &&& k10 == k[10]
            &&& requests_window(s11, root_pt, driver.notify->0)
            &&& k11 == k[11]
            &&& requests_window(s12, caller_root, driver.notify->0)
            &&& k12 == k[12]
            &&& launched(s13, k[13], caller, thread)
            &&& l13.endpoint == Some(endpoint)
            &&& l13.first == Some(page)
            &&& l13.second == Some(data_one)
            &&& l13.third is None
            &&& l13.direct is None
            &&& k13 == k[13]
        }),
{
    lemma_netstack_program();
    let start = launch_at_start(Service::Netstack, caller, src, Some(driver));
    lemma_stops(k[0], start);
    let n1 = Launch {
        process: Some(ServiceProcess { thread, cap_space: cs, root_pt }),
        pc: 1,
        ..start
    };
    lemma_goes_on(k[1], n1);
    let n2 = Launch { cap: driver.endpoint, pc: 2, ..n1 };
    lemma_goes_on(k[1], n2);
    let n3 = Launch { pc: 3, ..n2 };
    lemma_stops(with_copy(k[1], src, driver.endpoint, cs), n3);
    let n4 = Launch { cap: endpoint, pc: 4, ..n3 };
    lemma_goes_on(k[2], n4);
    let n5 = Launch { pc: 5, ..n4 };
    lemma_goes_on(with_copy(k[2], src, endpoint, cs), n5);
    let n6 = Launch { endpoint: Some(endpoint), pc: 6, ..n5 };
    lemma_goes_on(with_copy(k[2], src, endpoint, cs), n6);
    let n7 = Launch { phys: driver.rx, pc: 7, ..n6 };
    lemma_stops(with_copy(k[2], src, endpoint, cs), n7);
    let n8 = Launch { pc: 8, ..n7 };
    lemma_goes_on(k[3], n8);
    let n9 = Launch { phys: driver.tx, pc: 9, ..n8 };
    lemma_stops(k[3], n9);
    let n10 = Launch { pc: 10, ..n9 };
    lemma_stops(k[4], n10);
    let n11 = Launch { phys: page, pc: 11, ..n10 };
    lemma_stops(k[5], n11);
    let n12 = Launch { pc: 12, ..n11 };
    lemma_goes_on(k[6], n12);
    let n13 = Launch { first: Some(page), pc: 13, ..n12 };
    lemma_stops(k[6], n13);
    let n14 = Launch { cap: region_one, pc: 14, ..n13 };
    lemma_goes_on(k[7], n14);
    let n15 = Launch { phys: data_one, pc: 15, ..n14 };
    lemma_stops(k[7], n15);
    let n16 = Launch { pc: 16, ..n15 };
    lemma_stops(k[8], n16);
    let n17 = Launch { pc: 17, ..n16 };
    lemma_goes_on(k[9], n17);
    let n18 = Launch { second: Some(data_one), pc: 18, ..n17 };
    lemma_goes_on(k[9], n18);
    let n19 = Launch { pc: 19, ..n18 };
    lemma_stops(k[9], n19);
    let n20 = Launch { pc: 20, ..n19 };
    lemma_stops(k[10], n20);
    let n21 = Launch { pc: 21, ..n20 };
    lemma_stops(k[11], n21);
    let n22 = Launch { pc: 22, ..n21 };
    lemma_stops(k[12], n22);
    let n23 = Launch { pc: 23, ..n22 };
    lemma_stops(k[13], n23);
}

/// The instructions of the launch, one by one.
proof fn lemma_block_program()
    ensures
        program(Service::Block).len() == 22,
        op_at(Service::Block, 0) == (LaunchOp::FindDevice { net: false }),
        op_at(Service::Block, 1) == LaunchOp::SkipIfPci(1),
        op_at(Service::Block, 2) == LaunchOp::KeepDevice,
        op_at(Service::Block, 3) == LaunchOp::Create(KernelObjectType::Endpoint),
        op_at(Service::Block, 4) == LaunchOp::KeepEndpoint,
        op_at(Service::Block, 5) == (LaunchOp::Start { stack_vma: DRV_STACK_VMA }),
        op_at(Service::Block, 6) == LaunchOp::Grant,
        op_at(Service::Block, 7) == LaunchOp::SkipIfPci(2),
        op_at(Service::Block, 8) == LaunchOp::UseDevicePage,
        op_at(Service::Block, 9) == (LaunchOp::MapPage { va: DRV_MMIO_VA }),
        op_at(Service::Block, 10) == LaunchOp::Create(KernelObjectType::SharedRegion),
        op_at(Service::Block, 11) == LaunchOp::ResolveRegion,
        op_at(Service::Block, 12) == LaunchOp::ClearPage,
        op_at(Service::Block, 13) == LaunchOp::WriteHeader,
        op_at(Service::Block, 14) == LaunchOp::SkipUnlessPci(1),
        op_at(Service::Block, 15) == (LaunchOp::Wire { net: false }),
        op_at(Service::Block, 16) == (LaunchOp::MapPage { va: DRV_QUEUE_VA }),
        op_at(Service::Block, 17) == LaunchOp::Keep(PageSlot::First),
        op_at(Service::Block, 18) == LaunchOp::Create(KernelObjectType::Notification),
        op_at(Service::Block, 19) == LaunchOp::BindIrq,
        op_at(Service::Block, 20) == LaunchOp::Grant,
        op_at(Service::Block, 21) == LaunchOp::HandOff,
{
}

/// The instructions of the launch, one by one.
proof fn lemma_net_program()
    ensures
        program(Service::Net).len() == 28,
        op_at(Service::Net, 0) == (LaunchOp::FindDevice { net: true }),
        op_at(Service::Net, 1) == LaunchOp::Create(KernelObjectType::Endpoint),
        op_at(Service::Net, 2) == LaunchOp::KeepEndpoint,
        op_at(Service::Net, 3) == (LaunchOp::Start { stack_vma: DRV_NET_STACK_VMA }),
        op_at(Service::Net, 4) == LaunchOp::Grant,
        op_at(Service::Net, 5) == LaunchOp::SkipIfPci(3),
        op_at(Service::Net, 6) == LaunchOp::UseDevicePage,
        op_at(Service::Net, 7) == (LaunchOp::MapPage { va: DRV_NET_MMIO_VA }),
        op_at(Service::Net, 8) == LaunchOp::KeepDevice,
        op_at(Service::Net, 9) == LaunchOp::Create(KernelObjectType::SharedRegion),
        op_at(Service::Net, 10) == LaunchOp::ResolveRegion,
        op_at(Service::Net, 11) == LaunchOp::ClearPage,
        op_at(Service::Net, 12) == LaunchOp::WriteHeader,
        op_at(Service::Net, 13) == (LaunchOp::MapPage { va: DRV_NET_RX_VA }),
        op_at(Service::Net, 14) == LaunchOp::Keep(PageSlot::First),
        op_at(Service::Net, 15) == LaunchOp::Create(KernelObjectType::SharedRegion),
        op_at(Service::Net, 16) == LaunchOp::ResolveRegion,
        op_at(Service::Net, 17) == LaunchOp::ClearPage,
        op_at(Service::Net, 18) == LaunchOp::WriteHeader,
        op_at(Service::Net, 19) == (LaunchOp::MapPage { va: DRV_NET_TX_VA }),
        op_at(Service::Net, 20) == LaunchOp::Keep(PageSlot::Second),
        op_at(Service::Net, 21) == LaunchOp::SkipUnlessPci(2),
        op_at(Service::Net, 22) == LaunchOp::Use(PageSlot::First),
        op_at(Service::Net, 23) == (LaunchOp::Wire { net: true }),
        op_at(Service::Net, 24) == LaunchOp::Create(KernelObjectType::Notification),
        op_at(Service::Net, 25) == LaunchOp::BindIrq,
        op_at(Service::Net, 26) == LaunchOp::Grant,
        op_at(Service::Net, 27) == LaunchOp::HandOff,
{
}

/// The instructions of the launch, one by one.
proof fn lemma_netstack_program()
    ensures
        program(Service::Netstack).len() == 24,
        op_at(Service::Netstack, 0) == (LaunchOp::Start { stack_vma: NETSTACK_STACK_VMA }),
        op_at(Service::Netstack, 1) == LaunchOp::UseDriverEndpoint,
        op_at(Service::Netstack, 2) == LaunchOp::Grant,
        op_at(Service::Netstack, 3) == LaunchOp::Create(KernelObjectType::Endpoint),
        op_at(Service::Netstack, 4) == LaunchOp::Grant,
        op_at(Service::Netstack, 5) == LaunchOp::KeepEndpoint,
        op_at(Service::Netstack, 6) == (LaunchOp::UseDriverPage { tx: false }),
        op_at(Service::Netstack, 7) == (LaunchOp::MapPage { va: NETSTACK_DRV_RX_VA }),
        op_at(Service::Netstack, 8) == (LaunchOp::UseDriverPage { tx: true }),
        op_at(Service::Netstack, 9) == (LaunchOp::MapPage { va: NETSTACK_DRV_TX_VA }),
        op_at(Service::Netstack, 10) == LaunchOp::NewPage,
        op_at(Service::Netstack, 11) == (LaunchOp::MapPage { va: NETSTACK_BYPASS_SHARED_VA }),
        op_at(Service::Netstack, 12) == LaunchOp::Keep(PageSlot::First),
        op_at(Service::Netstack, 13) == LaunchOp::Create(KernelObjectType::SharedRegion),
        op_at(Service::Netstack, 14) == LaunchOp::ResolveRegion,
        op_at(Service::Netstack, 15) == LaunchOp::ClearPage,
        op_at(Service::Netstack, 16) == (LaunchOp::MapPage { va: NETSTACK_STATUS_VA }),
        op_at(Service::Netstack, 17) == LaunchOp::Keep(PageSlot::Second),
        op_at(Service::Netstack, 18) == LaunchOp::NeedCallerSpace,
        op_at(Service::Netstack, 19) == (LaunchOp::MapWindow { notify: false, caller: false }),
        op_at(Service::Netstack, 20) == (LaunchOp::MapWindow { notify: false, caller: true }),
        op_at(Service::Netstack, 21) == (LaunchOp::MapWindow { notify: true, caller: false }),
        op_at(Service::Netstack, 22) == (LaunchOp::MapWindow { notify: true, caller: true }),
        op_at(Service::Netstack, 23) == LaunchOp::HandOff,
{
}

/// Before the network service is launched, the threads whose part is over are retired, and nobody
/// else: no thread but these changes, and neither runs again. Then it asks for its process.
pub proof fn the_network_service_starts_once_others_are_over(
    k: KernelView,
    caller: ThreadId,
    driver: DriverPages,
    server: ThreadId,
    second: ThreadId,
    other: int,
)
    requires
        caller.0 < k.tcbs.len() && k.tcbs[caller.0 as int] is Some,
        server.0 < k.tcbs.len() && k.tcbs[server.0 as int] is Some,
        second.0 < k.tcbs.len() && k.tcbs[second.0 as int] is Some,
    ensures
        ({
            let (after, begun) = netstack_begun(k, caller, driver, Some(server), Some(second));
            let (kept, _) = netstack_begun(k, caller, driver, None, None);
            &&& begun is Some
            &&& (begun->0).0.service is Netstack
            &&& (begun->0).0.caller == caller
            &&& (begun->0).0.driver == Some(driver)
            &&& requests(
                (begun->0).1,
                LaunchRequest::StartProcess {
                    stack_vma: NETSTACK_STACK_VMA,
                    stack_len: SERVICE_STACK_LEN,
                },
            )
            &&& after.tcbs[server.0 as int] is Some && after.tcbs[server.0 as int]->0.state is Exited
            &&& after.tcbs[second.0 as int] is Some && after.tcbs[second.0 as int]->0.state is Exited
            &&& 0 <= other < k.tcbs.len() && other != server.0 && other != second.0
                ==> after.tcbs[other] == k.tcbs[other]
            &&& after == (KernelView { tcbs: after.tcbs, ..k })
            &&& kept == k
        }),
{
    lemma_netstack_program();
    let retired_all = crate::supervise::retired(
        crate::supervise::retired(k, Some(server)),
        Some(second),
    );
    let src = retired_all.tcbs[caller.0 as int]->0.cap_space;
    lemma_stops(retired_all, launch_at_start(Service::Netstack, caller, src, Some(driver)));
    let src = k.tcbs[caller.0 as int]->0.cap_space;
    lemma_stops(k, launch_at_start(Service::Netstack, caller, src, Some(driver)));
}

} // verus!
