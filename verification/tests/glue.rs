//! The layer between the kernel and the machine: entering user mode, starting processes and
//! services, wiring devices, handing the CPU over, and the figures that are reported.

use simurgh_kernel::boot::{BootInfo, MemoryRegion, PeripheralDevice, PeripheralKind};
use simurgh_kernel::bypass::{
    bypass_frame, BypassSend, Descriptor, Doorbell, SendFailure, SendRequest, SendStep, TxLayout,
};
use simurgh_kernel::capability::KernelObjectKind;
use simurgh_kernel::config::PAGE_SIZE;
use simurgh_kernel::enter::{
    BootFacts, BootProtocol,
    Enter, EnterRequest, EnterStep, Entered, HaltReason, RunError, SecondFrames, P2_STACK_B_LEN,
    P2_STACK_B_VMA, P2_VA_A, P2_VA_B,
};
use simurgh_kernel::handover::{
    drv_irq_wait_step, labelled_call, labelled_reply, p2_ipc_call, p2_ipc_recv, p2_ipc_reply,
    service_call, Handover, IpcRecvOutcome, IpcSwitch, IrqWaitOutcome,
};
use simurgh_kernel::ids::{CapId, CapSpaceId, MmioRegionId, ThreadId};
use simurgh_kernel::inkernel::{
    bench_server_received, hello, CrossFrames, Demo, DemoHalt, DemoReply, DemoRequest, DemoStep,
    RevocationReport, ServerTurn, BENCH_REPLY_LABEL, BENCH_REQUEST_LABEL,
};
use simurgh_kernel::launch::{
    DeviceWindow, DriverPages, Launch, LaunchReply, LaunchRequest, LaunchStep,
    Service, FS_DATA_SHARED_CAP_SLOT, FS_DATA_VA, FS_SHARED_VA, SERVICE_STACK_LEN,
};
use simurgh_kernel::message::{SmallMessage, PAGE_WORDS};
use simurgh_kernel::objects::{
    IpcError, KernelObjectType, MmError, MmioRegionDescriptor,
};
use simurgh_kernel::paging::{
    identity_gib, map_from, round4k, stack_top, PoolCursor, UserImage, MAP_FAILED, USER_CODE,
    USER_DATA,
};
use simurgh_kernel::pci::{
    bar_kind, bar_offset, bar_window32, bar_window64, command_enabled, msix_enabled,
    walk_virtio_pci_capabilities, BarKind, BarPlan, BarTable, MsixLocation, VirtioPciCapWindow,
};
use simurgh_kernel::pci_wire::{PciWire, Space, WireRequest, WireStep};
use simurgh_kernel::report::{
    aliased, compositor_demo_frame, drv_blk_read_matches,
    drv_demo_write_data, fs_demo_write_data, fs_read_matches, fs_read_throughput_summary,
    fs_write_throughput_summary, mm_demo_process, mm_total_matches, mm_victim_matches,
    net_latency_summary, netstack_status, p2_report_a, p2_report_b, preemption_verdict,
    same_bytes, spaces_share_frame, LatencyVerdict, NetstackStatus, PreemptionVerdict, RoundTrips,
    IPC_BENCH_ITERATIONS, P2_A_SENTINEL, P2_B_SENTINEL,
};
use simurgh_kernel::rights::CapabilityRights;
use simurgh_kernel::spawn::{
    plan_segment, LinkedText, LoadSegment, SegmentFate, SegmentPlan, Spawn, SpawnFrames,
    SpawnRequest, SpawnStep, PF_R, PF_W, PF_X,
};
use simurgh_kernel::state::{KernelInitError, KernelState, RootTask};
use simurgh_kernel::supervise::{
    Crash, FaultAction, Supervisor, TickAction, WaitAction, P2_TICK_BUDGET,
};
use simurgh_kernel::syscall::{
    Reply, Request, RetypeGrant, Step, SyscallError, SyscallOp, SyscallReturn,
};
use simurgh_kernel::tcb::{ThreadExit, ThreadState};

type Kernel = KernelState<4>;

fn device(kind: PeripheralKind, config_space_base: u64) -> PeripheralDevice {
    PeripheralDevice {
        kind,
        window: MmioRegionDescriptor {
            phys_base: 0x1000_1000,
            size: 0x1000,
            irq: 7,
            config_space_base,
        },
    }
}

fn kernel_with(devices: &[PeripheralDevice]) -> (Kernel, RootTask) {
    let regions = [MemoryRegion { base: 0x100_0000, length: 0x200_0000, usable: true }];
    let boot = BootInfo {
        valid: true,
        initial_page_table_phys: 0x9000,
        kernel_image: (0x10_0000, 0x20_0000),
        boot_reserved: (0x20_0000, 0x21_0000),
        regions: &regions,
        devices,
    };
    let (mut k, root) = Kernel::from_boot_info(&boot).unwrap();
    k.adopt_root_task(root, true).unwrap();
    (k, root)
}

fn kernel() -> (Kernel, RootTask) {
    kernel_with(&[])
}

/// Makes a system call that asks for memory or an interrupt line at most.
fn syscall(
    k: &mut Kernel,
    caller: ThreadId,
    op: SyscallOp,
    next_phys: &mut u64,
) -> Result<SyscallReturn, SyscallError> {
    let mut step = k.dispatch(caller, op);
    loop {
        match step {
            Step::Finished(r) => return r,
            Step::Ask(Request::Reserve { count, .. }, pending) => {
                let grant = if count == 0 {
                    Err(MmError::ZeroCount)
                } else {
                    let phys_base = *next_phys;
                    *next_phys += count as u64 * PAGE_SIZE as u64;
                    Ok(RetypeGrant {
                        phys_base,
                        phys_len: count as u64 * PAGE_SIZE as u64,
                        count,
                        object_bytes: PAGE_SIZE as u64,
                    })
                };
                step = k.resume(pending, Reply::Reserved { grant, running: None });
            }
            Step::Ask(Request::InstallIrq { .. }, pending) => {
                step = k.resume(pending, Reply::IrqInstalled(true));
            }
            other => panic!("unexpected {other:?}"),
        }
    }
}

#[test]
fn throughput_is_in_whole_kilobytes_per_second() {
    assert_eq!(fs_write_throughput_summary(4096, 0), None);
    assert_eq!(fs_read_throughput_summary(4096, 0), None);
    // 4096 bytes in 2 ms are 2048 KB/s.
    assert_eq!(fs_write_throughput_summary(4096, 2_000_000), Some(2048));
    assert_eq!(fs_read_throughput_summary(1_000_003, 1_000_000_000), Some(1000));
    // A transfer too large to scale counts as the largest that can be.
    assert_eq!(fs_read_throughput_summary(usize::MAX, 1), Some(u64::MAX));
}

#[test]
fn latency_is_compared_in_percent() {
    assert_eq!(net_latency_summary(0, 100), LatencyVerdict::NoSamples);
    assert_eq!(net_latency_summary(100, 0), LatencyVerdict::NoSamples);
    assert_eq!(
        net_latency_summary(65, 100),
        LatencyVerdict::Faster { percent: 35, meets_target: true }
    );
    assert_eq!(
        net_latency_summary(70, 100),
        LatencyVerdict::Faster { percent: 30, meets_target: true }
    );
    assert_eq!(
        net_latency_summary(71, 100),
        LatencyVerdict::Faster { percent: 29, meets_target: false }
    );
    assert_eq!(net_latency_summary(200, 100), LatencyVerdict::Slower { percent: 50 });
    assert_eq!(net_latency_summary(100, 100), LatencyVerdict::Slower { percent: 0 });
}

#[test]
fn verdicts_need_every_value_to_be_right() {
    assert!(p2_report_b(P2_A_SENTINEL, P2_A_SENTINEL));
    assert!(!p2_report_b(P2_A_SENTINEL, 0));
    assert!(p2_report_a(P2_B_SENTINEL, P2_A_SENTINEL, P2_B_SENTINEL));
    assert!(!p2_report_a(P2_B_SENTINEL, 0, P2_B_SENTINEL));
    assert!(spaces_share_frame(0xA1A1, 0xB2B2));
    assert!(!spaces_share_frame(0xB2B2, 0xA1A1));
    assert!(aliased(Some(1), Some(1)));
    assert!(!aliased(None, None));
    assert_eq!(preemption_verdict(1, 2, Some(3)), PreemptionVerdict::Three);
    assert_eq!(preemption_verdict(1, 2, None), PreemptionVerdict::Two);
    assert_eq!(preemption_verdict(1, 2, Some(0)), PreemptionVerdict::Mismatch);
    assert_eq!(preemption_verdict(0, 2, None), PreemptionVerdict::Mismatch);
}

#[test]
fn round_trips_are_summed_up() {
    let mut t = RoundTrips::new();
    t.record(100, 350);
    t.record(400, 500);
    t.record(900, 800);
    assert_eq!((t.min_ns, t.max_ns, t.sum_ns), (0, 250, 350));
    assert_eq!(t.average_ns(), 350 / 200);
    assert_eq!(IPC_BENCH_ITERATIONS, 200);
}

#[test]
fn payloads_are_compared_byte_by_byte() {
    let data = fs_demo_write_data();
    assert_eq!(data[0], 0);
    assert_eq!(data[250], 250);
    assert_eq!(data[251], 0);
    assert!(fs_read_matches(4096, &data));
    assert!(!fs_read_matches(4095, &data));
    let mut wrong = data;
    wrong[4095] ^= 1;
    assert!(!fs_read_matches(4096, &wrong));
    assert_eq!(&drv_demo_write_data(), b"hello from root, virtio-blk demo!");
    assert!(drv_blk_read_matches(1, &drv_demo_write_data()));
    assert!(!drv_blk_read_matches(2, &drv_demo_write_data()));
    assert!(!drv_blk_read_matches(1, b"hello"));
    let frame = compositor_demo_frame();
    assert_eq!(frame[0], 0xDE);
    assert_eq!(frame[15], 0xF0);
    assert!(same_bytes(&[], &[]));
    assert!(!same_bytes(&[1], &[1, 2]));
}

#[test]
fn the_sacrificial_process_goes_first() {
    let (normal, small) = (mm_demo_process(0), mm_demo_process(1));
    assert_eq!(mm_demo_process(9), normal);
    assert!(small.sacrificial && !normal.sacrificial);
    assert!(normal.resident_bytes > small.resident_bytes);
    assert!(mm_victim_matches(small.thread));
    assert!(!mm_victim_matches(normal.thread));
    assert!(mm_total_matches(normal.resident_bytes + small.resident_bytes));
    assert!(!mm_total_matches(normal.resident_bytes));
}

#[test]
fn the_network_status_page_is_read() {
    let mut page = [0u8; 14];
    for (i, b) in page.iter_mut().enumerate().skip(8) {
        *b = i as u8;
    }
    let gateway = [8, 9, 10, 11, 12, 13];
    assert_eq!(netstack_status(None), (0, NetstackStatus::Running));
    assert_eq!(netstack_status(Some(&page)), (0, NetstackStatus::Running));
    page[0] = 1;
    assert_eq!(netstack_status(Some(&page)), (1, NetstackStatus::ArpFailed));
    page[0] = 2;
    assert_eq!(netstack_status(Some(&page)), (2, NetstackStatus::Mismatch { gateway }));
    page[0] = 3;
    assert_eq!(netstack_status(Some(&page)), (3, NetstackStatus::Match { gateway }));
    page[0] = 9;
    assert_eq!(netstack_status(Some(&page)), (9, NetstackStatus::Unknown { verdict: 9, gateway }));
}

#[test]
fn messages_go_through_a_shared_page() {
    let m = SmallMessage::from_words(0x77, &[1, 2, 3]).unwrap();
    let page = m.to_page();
    assert_eq!(page, [0x77, 1, 2, 3, 0, 0, 0]);
    assert_eq!(page.len(), PAGE_WORDS);
    let back = SmallMessage::from_page(&page);
    assert_eq!(back.label, 0x77);
    assert_eq!(back.words(), &[1, 2, 3, 0, 0, 0]);
    assert_eq!(
        SmallMessage::from_words(1, &[0; 7]),
        Err(IpcError::TooManyWords)
    );
    assert_eq!(SmallMessage::new(5).words(), &[] as &[u64]);
}

fn reschedule(next: Option<ThreadId>) -> Result<SyscallReturn, SyscallError> {
    Ok(SyscallReturn::Reschedule { next })
}

#[test]
fn a_call_hands_its_delivery_over_once() {
    let (mut k, root) = kernel();
    let server = k.alloc_tcb(root.cap_space, root.addr_space, None).unwrap();
    {
        let t = k.tcb_mut(server).unwrap();
        t.pending_from = Some(root.thread);
        t.pending_msg = Some(SmallMessage::new(0x55));
    }
    let h = p2_ipc_call(&mut k, root.thread, reschedule(Some(server)));
    let switch = IpcSwitch {
        save: root.thread,
        into: server,
        poke: Some((root.thread.as_usize(), 0x55)),
    };
    assert_eq!(h, Handover { run: Some(server), switch: Some(switch) });
    assert!(k.tcb(server).unwrap().pending_msg.is_none());
    assert!(k.tcb(server).unwrap().pending_from.is_none());
    let again = p2_ipc_call(&mut k, root.thread, reschedule(Some(server)));
    assert_eq!(again.switch.unwrap().poke, None);
    // A call that failed, or has nobody to give way to, switches nothing.
    assert_eq!(
        p2_ipc_call(&mut k, root.thread, Err(SyscallError::BadCap)),
        Handover { run: None, switch: None }
    );
    assert_eq!(
        p2_ipc_call(&mut k, root.thread, reschedule(None)),
        Handover { run: None, switch: None }
    );
    // The thread picked may be the caller itself.
    assert_eq!(
        p2_ipc_call(&mut k, root.thread, reschedule(Some(root.thread))),
        Handover { run: Some(root.thread), switch: None }
    );
}

#[test]
fn a_service_is_called_whoever_was_picked() {
    let (mut k, root) = kernel();
    let service = k.alloc_tcb(root.cap_space, root.addr_space, None).unwrap();
    let other = k.alloc_tcb(root.cap_space, root.addr_space, None).unwrap();
    {
        let t = k.tcb_mut(service).unwrap();
        t.pending_from = Some(root.thread);
        t.pending_msg = Some(SmallMessage::new(9));
    }
    // The message is only queued: the service runs, and nothing is put in its registers.
    let h = service_call(&mut k, root.thread, Some(service), reschedule(Some(other)));
    assert_eq!(h.run, Some(service));
    assert_eq!(
        h.switch,
        Some(IpcSwitch { save: root.thread, into: service, poke: None })
    );
    assert!(k.tcb(service).unwrap().pending_msg.is_some());
    // It was delivered: it is.
    let h = service_call(&mut k, root.thread, Some(service), reschedule(Some(service)));
    assert_eq!(h.switch.unwrap().poke, Some((root.thread.as_usize(), 9)));
    // There is no service.
    let h = service_call(&mut k, root.thread, None, reschedule(Some(other)));
    assert_eq!(h, Handover { run: None, switch: None });
}

#[test]
fn a_reply_hands_its_label_over() {
    let (mut k, root) = kernel();
    let server = k.alloc_tcb(root.cap_space, root.addr_space, None).unwrap();
    k.tcb_mut(root.thread).unwrap().pending_msg = Some(SmallMessage::new(0xBEEF));
    let h = p2_ipc_reply(&mut k, server, reschedule(Some(root.thread)));
    assert_eq!(h.switch.unwrap().poke, Some((0xBEEF, 0)));
    assert!(k.tcb(root.thread).unwrap().pending_msg.is_none());
    assert_eq!(
        p2_ipc_reply(&mut k, server, Err(SyscallError::NotBlockedOnReply)).run,
        None
    );
}

#[test]
fn a_receiver_that_blocks_gives_way_to_the_root_task() {
    let (mut k, root) = kernel();
    let server = k.alloc_tcb(root.cap_space, root.addr_space, None).unwrap();
    let other = k.alloc_tcb(root.cap_space, root.addr_space, None).unwrap();
    let h = p2_ipc_recv(&k, server, reschedule(Some(other)));
    assert_eq!(h.run, Some(root.thread));
    assert_eq!(
        h.outcome,
        Some(IpcRecvOutcome::Switch(IpcSwitch {
            save: server,
            into: root.thread,
            poke: None
        }))
    );
    let msg = SmallMessage::new(3);
    let h = p2_ipc_recv(&k, server, Ok(SyscallReturn::Message { from: other, msg }));
    assert_eq!(
        h.outcome,
        Some(IpcRecvOutcome::Immediate { from: other.as_usize(), label: 3 })
    );
    assert_eq!(p2_ipc_recv(&k, server, Err(SyscallError::BadCap)).outcome, None);
}

#[test]
fn waiting_for_an_interrupt_puts_the_driver_back_on_the_cpu() {
    let t = ThreadId::new(4);
    assert_eq!(
        drv_irq_wait_step(t, Ok(SyscallReturn::Value(5))),
        (Some(t), IrqWaitOutcome::Ready(5))
    );
    assert_eq!(
        drv_irq_wait_step(t, Ok(SyscallReturn::Blocked)),
        (None, IrqWaitOutcome::Blocked)
    );
    assert_eq!(
        drv_irq_wait_step(t, Err(SyscallError::WrongObjectKind)),
        (None, IrqWaitOutcome::Error)
    );
}

#[test]
fn labelled_messages_carry_no_words() {
    match labelled_call(3, 0x99) {
        SyscallOp::Call { endpoint, msg } => {
            assert_eq!(endpoint, CapId::new(3));
            assert_eq!((msg.label, msg.words().len()), (0x99, 0));
        }
        other => panic!("unexpected {other:?}"),
    }
    match labelled_reply(8, 0x11) {
        SyscallOp::Reply { to, msg } => {
            assert_eq!((to, msg.label), (ThreadId::new(8), 0x11));
        }
        other => panic!("unexpected {other:?}"),
    }
}

#[test]
fn a_watched_driver_is_reported_to_the_manager() {
    let (mut k, root) = kernel();
    let driver = k.alloc_tcb(root.cap_space, root.addr_space, None).unwrap();
    let manager = k.alloc_tcb(root.cap_space, root.addr_space, None).unwrap();
    let crash = Crash { cause: 13, pc: 0x1000, addr: 0 };
    let mut s = Supervisor::new();
    assert_eq!(s.p2_poll_crash(), 0);
    s.p2_watch_driver(driver);
    s.p2_register_device_manager(manager);
    assert_eq!(
        s.p2_dm_wait_crash(Some(manager)),
        WaitAction::Block { thread: manager }
    );
    // A manager that waits on a notification is woken.
    k.tcb_mut(manager).unwrap().state = ThreadState::BlockedOnNotification;
    assert_eq!(
        s.p2_fault(&mut k, Some(driver), crash),
        FaultAction::HandOff { dead: driver, manager }
    );
    assert_eq!(k.tcb(manager).unwrap().state, ThreadState::Runnable);
    assert_eq!(k.tcb(driver).unwrap().state, ThreadState::Exited);
    assert_eq!(
        k.tcb(driver).unwrap().exit,
        Some(ThreadExit::Faulted { cause: 13 })
    );
    assert_eq!(s.p2_dm_wait_crash(Some(manager)), WaitAction::GoOn);
    assert_eq!(s.p2_poll_crash(), 13);
    assert_eq!(s.p2_poll_crash(), 0);
    assert_eq!(s.p2_dm_wait_crash(None), WaitAction::GoOn);
}

#[test]
fn other_faults_end_one_thread_and_no_more() {
    let (mut k, root) = kernel();
    let crash = Crash { cause: 2, pc: 0, addr: 0 };
    let mut s = Supervisor::new();
    assert_eq!(s.p2_fault(&mut k, None, crash), FaultAction::NobodyRan);
    assert_eq!(k.tcb(root.thread).unwrap().state, ThreadState::Runnable);
    s.p2_register_device_manager(ThreadId::new(5));
    assert_eq!(
        s.p2_fault(&mut k, Some(root.thread), crash),
        FaultAction::Terminate { dead: root.thread }
    );
    assert_eq!(s.pending, None);
    // Without a manager the watched driver is dropped like any other, but kept in mind.
    let t = k.alloc_tcb(root.cap_space, root.addr_space, None).unwrap();
    s.p2_dm_supervision_done();
    s.p2_watch_driver(t);
    assert_eq!(
        s.p2_fault(&mut k, Some(t), crash),
        FaultAction::Terminate { dead: t }
    );
    assert_eq!(s.pending, Some(crash));
}

#[test]
fn ticks_count_up_to_the_budget() {
    let mut s = Supervisor::new();
    let manager = ThreadId::new(5);
    s.p2_register_device_manager(manager);
    assert_eq!(s.p2_tick(Some(manager)), TickAction::Exempt);
    assert_eq!(s.ticks, 0);
    for _ in 1..P2_TICK_BUDGET {
        assert_eq!(s.p2_tick(Some(ThreadId::new(1))), TickAction::Preempt);
    }
    assert_eq!(s.p2_tick(None), TickAction::BudgetSpent);
    s.p2_dm_supervision_done();
    assert_eq!(s.p2_tick(Some(manager)), TickAction::BudgetSpent);
}

#[test]
fn preemption_starts_with_a_fresh_thread() {
    let (mut k, root) = kernel();
    assert_eq!(k.p2_preempt_start(0, None, None), None);
    let server = k.alloc_tcb(root.cap_space, root.addr_space, None).unwrap();
    let start = k.p2_preempt_start(0xC000_0100, Some(server), Some(root.thread)).unwrap();
    assert!(start.switch);
    let fresh = k.tcb(start.thread).unwrap();
    assert_eq!((fresh.entry, fresh.state), (0xC000_0100, ThreadState::Runnable));
    assert_eq!(
        (fresh.cap_space, fresh.addr_space, fresh.spawner),
        (root.cap_space, root.addr_space, Some(root.thread))
    );
    assert_eq!(k.tcb(root.thread).unwrap().state, ThreadState::Exited);
    assert_eq!(k.tcb(server).unwrap().state, ThreadState::Exited);
}

#[test]
fn the_ipc_server_shares_the_root_tasks_spaces() {
    let (mut k, root) = kernel();
    let cap = CapId::new(6);
    let refused = k.p2_ipc_demo_start(root.thread, 0x100, Err(SyscallError::BadCap), None);
    assert_eq!(refused, None);
    let made = Ok(SyscallReturn::NewCaps { cap, count: 1 });
    let (ep, start) = k.p2_ipc_demo_start(root.thread, 0x100, made, None).unwrap();
    assert_eq!(ep, cap);
    assert!(start.switch);
    assert_eq!(k.tcb(start.thread).unwrap().cap_space, root.cap_space);
    assert_eq!(k.tcb(start.thread).unwrap().entry, 0x100);
}

/// A configuration space with capabilities at the given places.
fn config(caps: &[(u8, &[u8])]) -> [u8; PAGE_SIZE] {
    let mut c = [0u8; PAGE_SIZE];
    c[0x34] = caps.first().map(|(at, _)| *at).unwrap_or(0);
    for (i, (at, bytes)) in caps.iter().enumerate() {
        let at = *at as usize;
        c[at..at + bytes.len()].copy_from_slice(bytes);
        c[at + 1] = caps.get(i + 1).map(|(n, _)| *n).unwrap_or(0);
    }
    c
}

/// A capability of a virtio device.
fn virtio_cap(cfg_type: u8, bar: u8, offset: u32, extra: u32) -> Vec<u8> {
    let mut v = vec![0x09, 0, 20, cfg_type, bar, 0, 0, 0];
    v.extend_from_slice(&offset.to_le_bytes());
    v.extend_from_slice(&0x1000u32.to_le_bytes());
    v.extend_from_slice(&extra.to_le_bytes());
    v
}

#[test]
fn the_capability_list_is_walked() {
    let common = virtio_cap(1, 4, 0x0, 0);
    let notify = virtio_cap(2, 4, 0x3000, 4);
    let isr = virtio_cap(3, 4, 0x1000, 0);
    let dev = virtio_cap(4, 4, 0x2000, 0);
    let mut msix = vec![0x11, 0, 2, 0];
    msix.extend_from_slice(&0x0000_0801u32.to_le_bytes());
    let c = config(&[
        (0x98, &msix),
        (0x84, &isr),
        (0x70, &dev),
        (0x50, &notify),
        (0x3c, &common),
    ]);
    let l = walk_virtio_pci_capabilities(&c);
    assert_eq!(l.common, Some(VirtioPciCapWindow { bar: 4, offset: 0 }));
    assert_eq!(l.notify, Some(VirtioPciCapWindow { bar: 4, offset: 0x3000 }));
    assert_eq!(l.notify_off_multiplier, 4);
    assert_eq!(l.isr, Some(VirtioPciCapWindow { bar: 4, offset: 0x1000 }));
    assert_eq!(l.device, Some(VirtioPciCapWindow { bar: 4, offset: 0x2000 }));
    assert_eq!(
        l.msix,
        Some(MsixLocation { cap_ptr: 0x98, bar: 1, table_offset: 0x800 })
    );
}

#[test]
fn a_broken_capability_list_ends() {
    // The list points back at itself.
    let common = virtio_cap(1, 2, 0x10, 0);
    let mut c = config(&[(0x40, &common)]);
    c[0x41] = 0x40;
    let l = walk_virtio_pci_capabilities(&c);
    assert_eq!(l.common, Some(VirtioPciCapWindow { bar: 2, offset: 0x10 }));
    assert_eq!(walk_virtio_pci_capabilities(&[0; PAGE_SIZE]).common, None);
}

#[test]
fn bars_are_decoded() {
    assert_eq!(bar_offset(4), 0x20);
    assert_eq!(bar_kind(0xC001), BarKind::Io);
    assert_eq!(bar_kind(0xFEBF_0000), BarKind::Memory32);
    assert_eq!(bar_kind(0xFE00_000C), BarKind::Memory64);
    assert_eq!(bar_window32(0xFEBF_0008, 0xFFFF_F008), Some((0xFEBF_0000, 0x1000)));
    assert_eq!(bar_window32(0xFEBF_0000, 0), None);
    assert_eq!(
        bar_window64(0x0000_400C, 0x80, 0xFFFF_C00C, 0xFFFF_FFFF),
        Some((0x80_0000_4000, 0x4000))
    );
    assert_eq!(bar_window64(0x400C, 0x80, 0xC, 0), None);
    assert_eq!(command_enabled(0x0010_0000), 0x0010_0006);
    assert_eq!(msix_enabled(0x0003_8011), 0x8003_8011);
}

#[test]
fn bars_get_places_of_their_own() {
    let mut t = BarTable::new();
    assert_eq!(t.find(4), None);
    assert_eq!(
        t.plan(0x4000),
        Some(BarPlan { va: 0xD840_0000, len: 0x4000, pool_pages: 3 })
    );
    assert_eq!(t.plan(0), None);
    assert_eq!(t.plan(0x10_0001), None);
    assert_eq!(t.plan(0x10_0000).unwrap().pool_pages, 3);
    assert_eq!(t.plan(1).unwrap().len, 0x1000);
    t.record(4);
    t.record(1);
    assert_eq!(t.find(4), Some(0xD840_0000));
    assert_eq!(t.find(1), Some(0xD850_0000));
    t.record(2);
    t.record(3);
    assert_eq!(t.plan(0x1000), None);
}

/// Wires a device whose BARs are all at `0x80_0000_0000 + bar`, recording the requests.
fn wire(
    net: bool,
    config: &[u8; PAGE_SIZE],
    message: Option<(u64, u32)>,
    refuse_bar: Option<u8>,
) -> (Vec<WireRequest>, Option<simurgh_kernel::pci_wire::PciWiring>) {
    let (mut w, mut step) = if net {
        PciWire::wire_virtio_pci_transport_net(7, 0x40_1000_0000)
    } else {
        PciWire::wire_virtio_pci_transport(7, 0x40_1000_0000)
    };
    let mut asked = Vec::new();
    loop {
        let request = match step {
            WireStep::Finished(r) => return (asked, r),
            WireStep::Ask(request) => request,
        };
        asked.push(request);
        step = match request {
            WireRequest::MapRange { .. } => w.mapped(true),
            WireRequest::TurnOn => w.configured(config),
            WireRequest::ProbeBar { bar } => {
                if refuse_bar == Some(bar) {
                    w.probed(None)
                } else {
                    w.probed(Some((0x80_0000_0000 + ((bar as u64) << 20), 0x4000)))
                }
            }
            WireRequest::MsiMessage { .. } => w.messaged(message),
            WireRequest::ProgramMsix { .. } | WireRequest::AssignVector { .. } => w.done(),
        };
    }
}

fn full_config() -> [u8; PAGE_SIZE] {
    let common = virtio_cap(1, 4, 0x0, 0);
    let notify = virtio_cap(2, 4, 0x3000, 4);
    let isr = virtio_cap(3, 4, 0x1000, 0);
    let dev = virtio_cap(4, 2, 0x2000, 0);
    let mut msix = vec![0x11, 0, 2, 0];
    msix.extend_from_slice(&0x0000_0801u32.to_le_bytes());
    config(&[
        (0x98, &msix),
        (0x84, &isr),
        (0x70, &dev),
        (0x50, &notify),
        (0x3c, &common),
    ])
}

#[test]
fn a_device_is_wired_and_its_driver_told() {
    let (asked, wiring) = wire(false, &full_config(), None, None);
    let w = wiring.unwrap();
    // The driver sees BAR 4 in the first place and BAR 2 in the second; no vector is assigned.
    assert_eq!(
        w.info,
        [
            1,
            0xD840_0000,
            0xD840_3000,
            4,
            0xD840_1000,
            0xD850_2000,
            0xffff
        ]
    );
    assert_eq!((w.isr_phys, w.notify_phys), (None, None));
    // Each BAR is mapped once.
    let maps = asked
        .iter()
        .filter(|r| matches!(r, WireRequest::MapRange { space: Space::Driver, .. }))
        .count();
    assert_eq!(maps, 2);
    assert_eq!(
        asked[0],
        WireRequest::MapRange {
            space: Space::Caller,
            va: 0xD800_0000,
            phys: 0x40_1000_0000,
            len: 4096,
            perm_bits: 3,
            pool_pages: 2
        }
    );
}

#[test]
fn a_message_signalled_interrupt_is_programmed() {
    let (asked, wiring) = wire(true, &full_config(), Some((0x1_FEE0_0000, 44)), None);
    let w = wiring.unwrap();
    assert_eq!(w.info[6], 0);
    assert_eq!(w.isr_phys, Some(0x80_0040_1000));
    assert_eq!(w.notify_phys, Some(0x80_0040_3000));
    assert!(asked.contains(&WireRequest::ProgramMsix {
        entry_va: 0xD810_0800,
        entry: [0xFEE0_0000, 1, 44, 0],
        cap_ptr: 0x98
    }));
    assert!(asked.contains(&WireRequest::AssignVector {
        select_va: 0xD811_0016,
        vector_va: 0xD811_001a
    }));
}

#[test]
fn a_device_without_common_registers_cannot_be_wired() {
    let isr = virtio_cap(3, 4, 0x1000, 0);
    assert_eq!(wire(false, &config(&[(0x40, &isr)]), None, None).1, None);
    // Nor one whose common registers cannot be mapped.
    assert_eq!(wire(false, &full_config(), None, Some(4)).1, None);
    // Other registers can be missing.
    let w = wire(false, &full_config(), None, Some(2)).1.unwrap();
    assert_eq!(w.info[5], 0);
}

#[test]
fn a_configuration_space_that_cannot_be_mapped_ends_the_wiring() {
    let (mut w, _) = PciWire::wire_virtio_pci_transport(7, 0);
    assert_eq!(w.mapped(false), WireStep::Finished(None));
}

#[test]
fn pages_and_stacks_are_rounded() {
    assert_eq!(round4k(0), 0);
    assert_eq!(round4k(1), 4096);
    assert_eq!(round4k(4096), 4096);
    assert_eq!(stack_top(0x1000, 0x1009), 0x2000);
    assert_eq!(identity_gib(0x8060_0000), 3);
    assert_eq!(identity_gib(0x0200_0000), 1);
    assert_eq!(UserImage::default(), UserImage::empty());
    assert_eq!(UserImage::empty().text_len, 0);
}

#[test]
fn scratch_frames_are_used_once() {
    let mut p = PoolCursor::new(0x10_0000, 8);
    assert!(p.consume(3));
    let m = map_from(&p, 0x9000, 0xC000_0000, 0x20_0000, 4096, USER_DATA);
    assert_eq!((m.pool_base, m.pool_pages), (0x10_3000, 5));
    assert!(!p.consume(MAP_FAILED));
    assert!(p.consume(5));
    assert_eq!(p.remaining(), (0x10_8000, 0));
}

#[test]
fn segments_are_aligned_and_checked() {
    let seg = LoadSegment {
        vaddr: 0xC002_2790,
        mem_size: 0x900,
        file_offset: 0x2790,
        file_size: 0x100,
        flags: PF_R | PF_W,
    };
    assert_eq!(
        plan_segment(&seg, 0x3000),
        SegmentFate::Load(SegmentPlan {
            va: 0xC002_2000,
            len: 0x2000,
            page_off: 0x790,
            file_offset: 0x2790,
            file_size: 0x100,
            perm_bits: 11
        })
    );
    assert_eq!(plan_segment(&seg, 0x2800), SegmentFate::Invalid);
    let over = LoadSegment { file_size: 0x901, ..seg };
    assert_eq!(plan_segment(&over, 0x10_0000), SegmentFate::Invalid);
    let wraps = LoadSegment { file_offset: usize::MAX, ..seg };
    assert_eq!(plan_segment(&wraps, 0x10_0000), SegmentFate::Invalid);
    let empty = LoadSegment { vaddr: 0xC000_0000, mem_size: 0, file_size: 0, ..seg };
    assert_eq!(plan_segment(&empty, 0), SegmentFate::Skip);
    let code = LoadSegment { flags: PF_R | PF_X, ..seg };
    match plan_segment(&code, 0x3000) {
        SegmentFate::Load(p) => assert_eq!(p.perm_bits, USER_CODE),
        other => panic!("unexpected {other:?}"),
    }
}

const FRAMES: SpawnFrames = SpawnFrames { root_pt: 0x40_0000, pool: 0x50_0000, stack: 0x60_0000 };

#[test]
fn a_linked_process_is_started() {
    let (mut k, root) = kernel();
    let text = LinkedText { vma: 0xC000_0000, lma: 0x12_0000, len: 0x1801 };
    let (mut s, step) = Spawn::spawn_process(text, 0xC030_0000, 0x4000, 0xC000_0040);
    assert_eq!(
        step,
        SpawnStep::Ask(SpawnRequest::Reserve {
            root_bytes: 3 * 4096,
            pool_bytes: 8 * 4096,
            stack_bytes: 0x4000
        })
    );
    assert_eq!(
        s.reserved(Some(FRAMES)),
        SpawnStep::Ask(SpawnRequest::Prepare {
            root_pt: 0x40_0000,
            pool: 0x50_0000,
            pool_bytes: 8 * 4096
        })
    );
    match s.prepared(&[], 0) {
        SpawnStep::Ask(SpawnRequest::MapRange(m)) => {
            assert_eq!((m.va, m.phys, m.len, m.perm_bits), (0xC000_0000, 0x12_0000, 0x2000, 13));
            assert_eq!((m.pool_base, m.pool_pages), (0x50_0000, 8));
        }
        other => panic!("unexpected {other:?}"),
    }
    match s.mapped(&mut k, 2, &[], 0, Some(root.thread)) {
        SpawnStep::Ask(SpawnRequest::MapRange(m)) => {
            assert_eq!((m.va, m.phys, m.len, m.perm_bits), (0xC030_0000, 0x60_0000, 0x4000, 11));
            assert_eq!((m.pool_base, m.pool_pages), (0x50_2000, 6));
        }
        other => panic!("unexpected {other:?}"),
    }
    match s.mapped(&mut k, 1, &[], 0, Some(root.thread)) {
        SpawnStep::Finished(Some(p)) => {
            assert_eq!((p.stack_phys, p.stack_top, p.root_pt), (0x60_0000, 0xC030_4000, 0x40_0000));
            let t = k.tcb(p.thread).unwrap();
            assert_eq!((t.entry, t.state), (0xC000_0040, ThreadState::Runnable));
            assert_eq!(t.spawner, Some(root.thread));
            assert_ne!(t.addr_space, root.addr_space);
            assert_eq!(k.addr_space(t.addr_space).unwrap().root_phys, 0x40_0000);
            assert!(k.cap_space(p.cap_space).unwrap().is_empty());
        }
        other => panic!("unexpected {other:?}"),
    }
}

#[test]
fn a_process_is_loaded_segment_by_segment() {
    let (mut k, _) = kernel();
    let seg = LoadSegment {
        vaddr: 0xC100_0000,
        mem_size: 0x1000,
        file_offset: 0,
        file_size: 0x1000,
        flags: PF_R | PF_X,
    };
    let skip = LoadSegment { mem_size: 0, file_size: 0, ..seg };
    let data = LoadSegment { vaddr: 0xC100_1000, flags: PF_R | PF_W, ..seg };
    let segments = [seg, skip, data];
    let (mut s, _) = Spawn::spawn_process_from_elf(0xC040_0000, SERVICE_STACK_LEN, 0xC100_0000);
    s.reserved(Some(FRAMES));
    let load = |step: SpawnStep| match step {
        SpawnStep::Ask(SpawnRequest::LoadSegment { plan }) => plan.va,
        other => panic!("unexpected {other:?}"),
    };
    assert_eq!(load(s.prepared(&segments, 0x1000)), 0xC100_0000);
    assert!(matches!(s.loaded(Some(0x70_0000)), SpawnStep::Ask(SpawnRequest::MapRange(_))));
    assert_eq!(load(s.mapped(&mut k, 3, &segments, 0x1000, None)), 0xC100_1000);
    match s.loaded(Some(0x71_0000)) {
        SpawnStep::Ask(SpawnRequest::MapRange(m)) => {
            assert_eq!((m.phys, m.perm_bits), (0x71_0000, 11));
            assert_eq!((m.pool_base, m.pool_pages), (0x50_3000, 29));
        }
        other => panic!("unexpected {other:?}"),
    }
    // Then the stack, then the process.
    match s.mapped(&mut k, 0, &segments, 0x1000, None) {
        SpawnStep::Ask(SpawnRequest::MapRange(m)) => assert_eq!(m.va, 0xC040_0000),
        other => panic!("unexpected {other:?}"),
    }
    assert!(matches!(
        s.mapped(&mut k, 1, &segments, 0x1000, None),
        SpawnStep::Finished(Some(_))
    ));
}

#[test]
fn a_process_that_cannot_be_had_fails() {
    let (mut k, _) = kernel();
    let bad = LoadSegment {
        vaddr: 0,
        mem_size: 1,
        file_offset: 5,
        file_size: 1,
        flags: 0,
    };
    let begin = || Spawn::spawn_process_from_elf(0xC040_0000, 4096, 0).0;
    assert_eq!(begin().reserved(None), SpawnStep::Finished(None));
    let mut s = begin();
    s.reserved(Some(FRAMES));
    assert_eq!(s.prepared(&[bad], 5), SpawnStep::Finished(None));
    let mut s = begin();
    s.reserved(Some(FRAMES));
    s.prepared(&[bad], 6);
    assert_eq!(s.loaded(None), SpawnStep::Finished(None));
    let mut s = begin();
    s.reserved(Some(FRAMES));
    s.prepared(&[bad], 6);
    s.loaded(Some(0x70_0000));
    assert_eq!(
        s.mapped(&mut k, MAP_FAILED, &[bad], 6, None),
        SpawnStep::Finished(None)
    );
    // All the thread slots are taken.
    while k.alloc_tcb(CapSpaceId::new(0), simurgh_kernel::ids::PageTableId::new(0), None).is_some() {}
    let mut s = begin();
    s.reserved(Some(FRAMES));
    s.prepared(&[], 0);
    assert_eq!(s.mapped(&mut k, 0, &[], 0, None), SpawnStep::Finished(None));
}

fn image() -> UserImage {
    UserImage {
        text_vma: 0xC000_0000,
        text_lma: 0x11_0000,
        text_len: 0x1234,
        stack_vma: 0xC008_0000,
        stack_lma: 0x11_8000,
        stack_len: 0x4000,
        entry_vma: 0xC000_0000,
        worker_entry_vma: 0xC000_0200,
        subsystem_entry_vma: 0,
        a_loop_entry_vma: 0,
    }
}

/// Enters user mode, answering every mapping with one frame.
fn enter(
    k: &mut Kernel,
    user: UserImage,
    second: Option<SecondFrames>,
    fail_at: Option<usize>,
) -> (Vec<EnterRequest>, Entered) {
    let (mut e, mut step) = Enter::enter(k, user);
    let mut asked = Vec::new();
    let mut maps = 0;
    loop {
        let request = match step {
            EnterStep::Finished(r) => return (asked, r),
            EnterStep::Ask(request) => request,
        };
        asked.push(request);
        step = match request {
            EnterRequest::Reserve { .. } => e.reserved(k, Some(0x40_0000), Some(0x50_0000)),
            EnterRequest::ReservePool { .. } => e.pool_reserved(Some(0x58_0000)),
            EnterRequest::ReserveSecond { .. } => e.second_reserved(k, second),
            EnterRequest::Prepare { .. } => e.prepared(),
            EnterRequest::MapRange(_) => {
                maps += 1;
                let n = if fail_at == Some(maps) { MAP_FAILED } else { 1 };
                e.mapped(k, n, None)
            }
        };
    }
}

const SECOND: SecondFrames = SecondFrames {
    shared: 0x70_0000,
    root_pt: 0x71_0000,
    pool: 0x72_0000,
    stack: 0x73_0000,
};

#[test]
fn two_processes_are_entered_with_one_frame_shared() {
    let (mut k, root) = kernel();
    let (asked, entered) = enter(&mut k, image(), Some(SECOND), None);
    let worker = match entered {
        Entered::Two { worker, root_pt, sp, worker_root_pt, worker_sp, shared } => {
            assert_eq!((root_pt, sp), (0x40_0000, 0xC008_4000));
            assert_eq!((worker_root_pt, shared), (0x71_0000, 0x70_0000));
            assert_eq!(worker_sp, P2_STACK_B_VMA + P2_STACK_B_LEN);
            worker
        }
        other => panic!("unexpected {other:?}"),
    };
    let ranges: Vec<(usize, usize, usize, usize)> = asked
        .iter()
        .filter_map(|r| match r {
            EnterRequest::MapRange(m) => Some((m.root_pt, m.va, m.phys, m.perm_bits)),
            _ => None,
        })
        .collect();
    assert_eq!(
        ranges,
        vec![
            (0x40_0000, 0xC000_0000, 0x11_0000, 13),
            (0x40_0000, 0xC008_0000, 0x11_8000, 11),
            (0x40_0000, P2_VA_A, 0x70_0000, 11),
            (0x71_0000, 0xC000_0000, 0x11_0000, 13),
            (0x71_0000, P2_STACK_B_VMA, 0x73_0000, 11),
            (0x71_0000, P2_VA_B, 0x70_0000, 11),
        ]
    );
    let w = k.tcb(worker).unwrap();
    assert_eq!((w.entry, w.cap_space), (0xC000_0200, root.cap_space));
    assert_ne!(w.addr_space, root.addr_space);
    assert_eq!(k.tcb(root.thread).unwrap().entry, 0xC000_0000);
    assert_eq!(k.addr_space(root.addr_space).unwrap().root_phys, 0x40_0000);
    assert_eq!(k.map_pool_remaining(), (0x58_0000, 8));
}

#[test]
fn the_root_task_runs_alone_if_the_second_process_cannot() {
    let single = Entered::Single { root_pt: 0x40_0000, entry: 0xC000_0000, sp: 0xC008_4000 };
    let (mut k, _) = kernel();
    assert_eq!(enter(&mut k, image(), None, None).1, single);
    for failing in 3..7 {
        let (mut k, _) = kernel();
        assert_eq!(enter(&mut k, image(), Some(SECOND), Some(failing)).1, single);
        assert_eq!(k.map_pool_base(), 0x58_0000);
    }
    let (mut k, _) = kernel();
    let lone = UserImage { worker_entry_vma: 0, ..image() };
    assert_eq!(enter(&mut k, lone, Some(SECOND), None).1, single);
}

#[test]
fn without_an_image_or_memory_the_processor_halts() {
    let (mut k, _) = kernel();
    assert_eq!(
        enter(&mut k, UserImage::empty(), None, None).1,
        Entered::Halt(HaltReason::NoImage)
    );
    for failing in 1..3 {
        assert_eq!(
            enter(&mut k, image(), None, Some(failing)).1,
            Entered::Halt(HaltReason::MapFailed)
        );
    }
    let (mut e, _) = Enter::enter(&mut k, image());
    assert_eq!(
        e.reserved(&mut k, Some(0x1000), None),
        EnterStep::Finished(Entered::Halt(HaltReason::NoFrames))
    );
    let (mut e, _) = Enter::enter(&mut k, image());
    e.reserved(&mut k, Some(0x1000), Some(0x2000));
    assert_eq!(
        e.pool_reserved(None),
        EnterStep::Finished(Entered::Halt(HaltReason::NoMapPool))
    );
}

#[test]
fn the_boot_report_counts_memory_and_devices() {
    let (k, root) = kernel();
    let facts = BootFacts {
        protocol: BootProtocol::SbiDeviceTree,
        cpu_cores: 4,
        timer_hz: 10_000_000,
        peripheral_devices: 3,
    };
    let r = k.boot_report(facts, Some(root.thread));
    assert_eq!(
        (r.protocol, r.cpu_cores, r.timer_hz),
        (BootProtocol::SbiDeviceTree, 4, 10_000_000)
    );
    assert_eq!((r.untyped_objects, r.total_untyped_bytes), (1, 0x200_0000));
    assert_eq!((r.peripheral_devices, r.root_thread, r.first_scheduled), (3, 0, Some(0)));
    assert_eq!(
        RunError::from(KernelInitError::NoUsableMemory),
        RunError::Init(KernelInitError::NoUsableMemory)
    );
}

/// Begins a launch.
fn begin(
    k: &mut Kernel,
    root: RootTask,
    service: Service,
    driver: Option<DriverPages>,
) -> Option<(Launch, LaunchStep)> {
    match (service, driver) {
        (Service::Fs, _) => Launch::fs_demo_start(k, root.thread),
        (Service::Compositor, _) => Launch::compositor_demo_start(k, root.thread),
        (Service::Mm, _) => Launch::mm_demo_start(k, root.thread),
        (Service::Block, _) => Launch::spawn_virtio_blk_driver(k, root.thread),
        (Service::Net, _) => Launch::spawn_virtio_net_driver(k, root.thread),
        (Service::Netstack, Some(d)) => {
            Launch::spawn_netstack_service(k, root.thread, d, None, None)
        }
        (Service::Netstack, None) => None,
    }
}

/// Launches a service; every process gets the next spaces. Returns what was asked for, the
/// launch at its end, and whether it succeeded.
fn launch(
    k: &mut Kernel,
    root: RootTask,
    service: Service,
    driver: Option<DriverPages>,
    next_phys: &mut u64,
) -> (Vec<LaunchRequest>, Launch, Option<ThreadId>) {
    let (mut l, mut step) = begin(k, root, service, driver).unwrap();
    let mut asked = Vec::new();
    let mut page = 0x90_0000;
    loop {
        let request = match step {
            LaunchStep::Finished(end) => {
                return (asked, l, end.map(|e| {
                    assert!(e.switch);
                    e.thread
                }))
            }
            LaunchStep::Ask(request) => request,
        };
        asked.push(request);
        let reply = match request {
            LaunchRequest::Syscall(op) => {
                LaunchReply::Returned(syscall(k, root.thread, op, next_phys))
            }
            LaunchRequest::StartProcess { .. } => {
                let a = k.alloc_addr_space(0x40_0000).unwrap();
                let cs = k.alloc_cap_space().unwrap();
                let t = k.alloc_tcb(cs, a, Some(root.thread)).unwrap();
                LaunchReply::Started(Some((t, cs)))
            }
            LaunchRequest::NewPage => {
                page += PAGE_SIZE;
                LaunchReply::Page(Some(page))
            }
            LaunchRequest::ClearPage { .. } | LaunchRequest::WriteWord { .. } => LaunchReply::Done,
            LaunchRequest::MapPage { .. } => LaunchReply::Mapped(true),
            LaunchRequest::Wire { .. } => LaunchReply::Wired(true),
        };
        step = l.resume(k, reply);
    }
}

#[test]
fn the_file_system_is_launched() {
    let (mut k, root) = kernel();
    let mut phys = 0x200_0000;
    let (asked, l, thread) = launch(&mut k, root, Service::Fs, None, &mut phys);
    let p = l.process.unwrap();
    assert_eq!(thread, Some(p.thread));
    // Its own copies of the endpoint and of the data region are in the slots it expects.
    let table = k.cap_space(p.cap_space).unwrap();
    assert_eq!(table.len(), 2);
    let ep = table.lookup(CapId::new(0)).unwrap();
    assert_eq!(ep.object.kind, KernelObjectKind::Endpoint);
    assert_eq!(ep.rights, CapabilityRights::rw());
    let data = table.lookup(CapId::new(FS_DATA_SHARED_CAP_SLOT)).unwrap();
    assert_eq!(data.object.kind, KernelObjectKind::SharedRegion);
    // Its two pages are mapped where it expects them.
    let maps: Vec<(usize, usize)> = asked
        .iter()
        .filter_map(|r| match r {
            LaunchRequest::MapPage { va, phys, .. } => Some((*va, *phys)),
            _ => None,
        })
        .collect();
    assert_eq!(
        maps,
        vec![(FS_SHARED_VA, l.first.unwrap()), (FS_DATA_VA, l.second.unwrap())]
    );
    // The region was created behind the endpoint.
    assert_eq!(l.second, Some(0x200_1000));
    // Revoking the endpoint takes the file system's copy back.
    let op = SyscallOp::CapRevoke { cap: l.endpoint.unwrap() };
    let r = syscall(&mut k, root.thread, op, &mut phys);
    assert_eq!(r, Ok(SyscallReturn::Revoked { freed: 2 }));
    assert_eq!(k.cap_space(p.cap_space).unwrap().len(), 1);
}

#[test]
fn the_compositor_and_the_memory_manager_are_launched() {
    let (mut k, root) = kernel();
    let mut phys = 0x200_0000;
    let (asked, l, thread) = launch(&mut k, root, Service::Compositor, None, &mut phys);
    assert!(thread.is_some());
    assert_eq!(k.cap_space(l.process.unwrap().cap_space).unwrap().len(), 2);
    assert!(l.first.is_some() && l.second.is_some() && l.third.is_some());
    // The page that frames are confirmed in is cleared, and not handed over.
    assert!(asked.contains(&LaunchRequest::ClearPage { phys: l.third.unwrap() }));
    let (asked, l, thread) = launch(&mut k, root, Service::Mm, None, &mut phys);
    assert!(thread.is_some());
    assert_eq!(k.cap_space(l.process.unwrap().cap_space).unwrap().len(), 1);
    assert!(asked.contains(&LaunchRequest::StartProcess {
        stack_vma: 0xC0B0_0000,
        stack_len: 65536
    }));
}

#[test]
fn the_block_driver_is_given_its_device() {
    let (mut k, root) = kernel_with(&[device(PeripheralKind::Block, 0)]);
    let mut phys = 0x200_0000;
    let (asked, l, thread) = launch(&mut k, root, Service::Block, None, &mut phys);
    assert!(thread.is_some());
    assert!(asked.contains(&LaunchRequest::MapPage {
        root_pt: 0x40_0000,
        va: 0xD820_0000,
        phys: 0x1000_1000,
        perm_bits: 11
    }));
    let queue = l.first.unwrap();
    assert!(asked.contains(&LaunchRequest::WriteWord { phys: queue, word: queue as u64 }));
    assert!(!asked.iter().any(|r| matches!(r, LaunchRequest::Wire { .. })));
    assert_eq!(l.direct, Some(0x1000_1000));
    // Its interrupt signals the notification that it was handed in its second slot.
    let table = k.cap_space(l.process.unwrap().cap_space).unwrap();
    let n = table.lookup(CapId::new(1)).unwrap();
    assert_eq!(n.object.kind, KernelObjectKind::Notification);
    assert_eq!(
        k.notification_for_irq(7).unwrap().as_u32(),
        n.object.id.as_u32()
    );
}

#[test]
fn a_driver_on_the_pci_bus_is_wired() {
    let (mut k, root) = kernel_with(&[device(PeripheralKind::Network, 0x40_1000_8000)]);
    let mut phys = 0x200_0000;
    let (asked, l, thread) = launch(&mut k, root, Service::Net, None, &mut phys);
    assert!(thread.is_some());
    assert!(asked.contains(&LaunchRequest::Wire {
        net: true,
        driver_root_pt: 0x40_0000,
        caller_root_pt: 0x9000,
        config_phys: 0x40_1000_8000,
        region_phys: l.first.unwrap(),
        irq: 7
    }));
    // The device's window is not mapped as such.
    assert!(!asked
        .iter()
        .any(|r| matches!(r, LaunchRequest::MapPage { phys: 0x1000_1000, .. })));
    assert_eq!(l.second.unwrap(), l.first.unwrap() + PAGE_SIZE);
    assert_eq!(l.direct, None);
}

#[test]
fn a_network_driver_off_the_pci_bus_maps_its_device() {
    let (mut k, root) = kernel_with(&[device(PeripheralKind::Network, 0)]);
    let mut phys = 0x200_0000;
    let (asked, l, thread) = launch(&mut k, root, Service::Net, None, &mut phys);
    assert!(thread.is_some());
    assert!(asked.contains(&LaunchRequest::MapPage {
        root_pt: 0x40_0000,
        va: 0xD840_0000,
        phys: 0x1000_1000,
        perm_bits: 11
    }));
    assert_eq!(l.direct, Some(0x1000_1000));
    let table = k.cap_space(l.process.unwrap().cap_space).unwrap();
    assert_eq!(
        table.lookup(CapId::new(1)).unwrap().object.kind,
        KernelObjectKind::Notification
    );
}

#[test]
fn a_driver_without_a_device_is_not_launched() {
    let (mut k, root) = kernel();
    let mut phys = 0x200_0000;
    for service in [Service::Block, Service::Net] {
        let (asked, l, thread) = launch(&mut k, root, service, None, &mut phys);
        assert!(asked.is_empty() && thread.is_none());
        assert_eq!(l.process, None);
    }
    assert!(Launch::fs_demo_start(&mut k, ThreadId::new(70)).is_none());
}

#[test]
fn the_network_service_sees_the_drivers_pages_and_registers() {
    let (mut k, root) = kernel_with(&[device(PeripheralKind::Network, 0x40_1000_8000)]);
    let mut phys = 0x200_0000;
    let (_, d, _) = launch(&mut k, root, Service::Net, None, &mut phys);
    let driver = DriverPages {
        endpoint: d.endpoint.unwrap(),
        rx: d.first.unwrap(),
        tx: d.second.unwrap(),
        isr: Some(DeviceWindow { phys: 0x80_0000_1004, va: 0xD840_1004 }),
        notify: None,
    };
    let (asked, l, thread) = launch(&mut k, root, Service::Netstack, Some(driver), &mut phys);
    assert!(thread.is_some());
    // Its first slot is the driver's endpoint, its second its own.
    let table = k.cap_space(l.process.unwrap().cap_space).unwrap();
    let own = k.cap_space(root.cap_space).unwrap();
    assert_eq!(
        table.lookup(CapId::new(0)).unwrap().object,
        own.lookup(d.endpoint.unwrap()).unwrap().object
    );
    assert_eq!(
        table.lookup(CapId::new(1)).unwrap().object,
        own.lookup(l.endpoint.unwrap()).unwrap().object
    );
    assert!(asked.contains(&LaunchRequest::MapPage {
        root_pt: 0x40_0000,
        va: 0xD870_0000,
        phys: driver.rx,
        perm_bits: 11
    }));
    // The interrupt status is mapped page by page, for the service and for the caller.
    for root_pt in [0x40_0000, 0x9000] {
        assert!(asked.contains(&LaunchRequest::MapPage {
            root_pt,
            va: 0xD840_1000,
            phys: 0x80_0000_1000,
            perm_bits: 3
        }));
    }
}

#[test]
fn a_launch_ends_with_the_first_refusal() {
    let (mut k, root) = kernel();
    let (mut l, step) = Launch::mm_demo_start(&mut k, root.thread).unwrap();
    assert!(matches!(step, LaunchStep::Ask(LaunchRequest::Syscall(_))));
    let refused = LaunchReply::Returned(Err(SyscallError::ObjectTableFull));
    assert_eq!(l.resume(&mut k, refused), LaunchStep::Finished(None));
    let (mut l, _) = Launch::mm_demo_start(&mut k, root.thread).unwrap();
    let made = LaunchReply::Returned(Ok(SyscallReturn::NewCaps { cap: CapId::new(0), count: 1 }));
    assert!(matches!(
        l.resume(&mut k, made),
        LaunchStep::Ask(LaunchRequest::StartProcess { .. })
    ));
    assert_eq!(
        l.resume(&mut k, LaunchReply::Started(None)),
        LaunchStep::Finished(None)
    );
    assert_eq!(l.process, None);
}

#[test]
fn finished_threads_are_retired() {
    let (mut k, root) = kernel();
    let a = k.alloc_tcb(root.cap_space, root.addr_space, None).unwrap();
    let b = k.alloc_tcb(root.cap_space, root.addr_space, None).unwrap();
    let driver = DriverPages { endpoint: CapId::new(0), rx: 0, tx: 0, isr: None, notify: None };
    let (l, step) =
        Launch::spawn_netstack_service(&mut k, root.thread, driver, Some(a), None).unwrap();
    assert_eq!(l.driver, Some(driver));
    assert!(matches!(step, LaunchStep::Ask(LaunchRequest::StartProcess { .. })));
    assert_eq!(k.tcb(a).unwrap().state, ThreadState::Exited);
    assert_eq!(k.tcb(b).unwrap().state, ThreadState::Inactive);
    // They are retired even if nothing is launched.
    let nobody = ThreadId::new(70);
    assert!(Launch::spawn_netstack_service(&mut k, nobody, driver, None, Some(b)).is_none());
    assert_eq!(k.tcb(b).unwrap().exit, Some(ThreadExit::Unknown));
    assert_eq!(k.tcb(root.thread).unwrap().state, ThreadState::Runnable);
}

#[test]
fn a_capability_is_granted_between_spaces_only() {
    let (mut k, root) = kernel();
    let other = k.alloc_cap_space().unwrap();
    let rw = CapabilityRights::rw();
    assert_eq!(
        k.grant_cap_into(root.cap_space, CapId::new(0), other, rw),
        Some(CapId::new(0))
    );
    assert_eq!(k.grant_cap_into(root.cap_space, CapId::new(0), root.cap_space, rw), None);
    assert_eq!(k.grant_cap_into(root.cap_space, CapId::new(50), other, rw), None);
    assert_eq!(
        k.grant_cap_into(other, CapId::new(0), root.cap_space, CapabilityRights::all()),
        None
    );
    assert_eq!(k.grant_cap_into(root.cap_space, CapId::new(0), CapSpaceId::new(9), rw), None);
}

fn tx_layout() -> TxLayout {
    TxLayout {
        desc: 0x40,
        avail: 0x100,
        used: 0x200,
        buffer: 0x400,
        header_len: 12,
        queue_size: 8,
        queue: 1,
        queue_notify: 0x50,
        notify_off: 0x30,
    }
}

#[test]
fn a_frame_is_sent_past_the_driver() {
    let frame = bypass_frame();
    assert_eq!(&frame[..6], &[0xff; 6]);
    assert_eq!(&frame[6..12], &[0xb9; 6]);
    assert_eq!(&frame[12..14], &[0xff; 2]);
    assert_eq!(&frame[14..], &[0xb5; 50]);

    let doorbell = Doorbell::Mmio { phys: 0x1000_1000 };
    let (s, step) = BypassSend::net_bypass_direct_send(tx_layout(), Some(0x80_0000), doorbell);
    let mut s = s.unwrap();
    assert_eq!(
        step,
        SendStep::Ask(SendRequest::ReadIndexes { avail_at: 0x80_0102, used_at: 0x80_0202 })
    );
    assert_eq!(
        s.indexes(11, 11),
        SendStep::Ask(SendRequest::Stage { header_at: 0x80_0400, header_len: 12 })
    );
    assert_eq!(
        s.staged(1_000),
        SendStep::Ask(SendRequest::Publish {
            desc_at: 0x80_0040,
            desc: Descriptor { addr: 0x80_0400, len: 76, flags: 0, next: 0 },
            ring_at: 0x80_0104 + 6,
            index_at: 0x80_0102,
            index: 12
        })
    );
    assert_eq!(
        s.published(),
        SendStep::Ask(SendRequest::RingMmio { at: 0x1000_1050, queue: 1 })
    );
    let poll = SendStep::Ask(SendRequest::Poll { used_at: 0x80_0202 });
    assert_eq!(s.rung(), poll);
    assert_eq!(s.polled(11), poll);
    assert_eq!(s.polls, 1);
    assert_eq!(s.polled(12), SendStep::Ask(SendRequest::Stop));
    assert_eq!(s.stopped(1_250), SendStep::Sent(250));
}

#[test]
fn a_doorbell_on_the_pci_bus_is_located_first() {
    let doorbell = Doorbell::Pci { notify_va: 0xD840_3000, multiplier: 4, rx: 0x70_0000 };
    let (s, _) = BypassSend::net_bypass_direct_send(tx_layout(), Some(0x80_0000), doorbell);
    let mut s = s.unwrap();
    s.indexes(u16::MAX, u16::MAX);
    match s.staged(5) {
        SendStep::Ask(SendRequest::Publish { index, .. }) => assert_eq!(index, 0),
        other => panic!("unexpected {other:?}"),
    }
    assert_eq!(
        s.published(),
        SendStep::Ask(SendRequest::ReadNotifyOffset { at: 0x70_0030 })
    );
    assert_eq!(
        s.located(3),
        SendStep::Ask(SendRequest::RingPci { at: 0xD840_300C, half: 1 })
    );
}

#[test]
fn nothing_is_sent_when_the_queue_is_not_free() {
    let missing = Doorbell::Missing;
    let (none, step) = BypassSend::net_bypass_direct_send(tx_layout(), None, missing);
    assert!(none.is_none());
    assert_eq!(step, SendStep::Failed(SendFailure::NeverProbed));
    let (s, _) = BypassSend::net_bypass_direct_send(tx_layout(), Some(0x80_0000), missing);
    let mut s = s.unwrap();
    assert_eq!(s.indexes(4, 3), SendStep::Failed(SendFailure::StillPending));
    let (s, _) = BypassSend::net_bypass_direct_send(tx_layout(), Some(0x80_0000), missing);
    let mut s = s.unwrap();
    s.indexes(4, 4);
    s.staged(0);
    assert_eq!(s.published(), SendStep::Failed(SendFailure::NoDoorbell));
    let mmio = Doorbell::Mmio { phys: 0 };
    let (s, _) = BypassSend::net_bypass_direct_send(tx_layout(), Some(0x80_0000), mmio);
    let mut s = s.unwrap();
    s.indexes(4, 4);
    s.staged(0);
    s.published();
    let mut step = s.rung();
    let mut asked: u32 = 0;
    while let SendStep::Ask(_) = step {
        asked += 1;
        step = s.polled(4);
    }
    assert_eq!(step, SendStep::Failed(SendFailure::TimedOut));
    assert_eq!(asked, 20_000_000);
}

#[test]
fn revoking_a_subtree_leaves_its_parent() {
    let (mut k, root) = kernel();
    let before = k.cap_space(root.cap_space).unwrap().len();
    assert_eq!(
        k.show_revocation(CapId::new(0)),
        RevocationReport { present_before: true, freed: 2, gone_after: true }
    );
    assert_eq!(k.cap_space(root.cap_space).unwrap().len(), before);
}

/// The thread that measurements are taken with, as the demonstration meets it.
fn run_demo(k: &mut Kernel, root: RootTask, crossed: (u32, u32)) -> (Demo, DemoStep, u32) {
    let mut phys = 0x200_0000;
    let (mut d, mut step) = Demo::inkernel_demo(0x1000, 0x2000);
    let mut calls = 0;
    let mut clock = 0;
    let mut last = ThreadId::new(0);
    loop {
        let request = match step {
            DemoStep::Ask(request) => request,
            end => return (d, end, calls),
        };
        let reply = match request {
            DemoRequest::Syscall(SyscallOp::Recv { .. }) => {
                // The second thread sends its message while the root task waits.
                k.tcb_mut(root.thread).unwrap().pending_msg = Some(hello());
                DemoReply::Returned(reschedule(Some(last)))
            }
            DemoRequest::Syscall(op) => DemoReply::Returned(syscall(k, root.thread, op, &mut phys)),
            DemoRequest::TimedSyscall(op) => {
                match op {
                    SyscallOp::Call { msg, .. } => {
                        assert_eq!(msg.label, BENCH_REQUEST_LABEL);
                        assert_eq!(msg.words(), &[calls as u64]);
                    }
                    other => panic!("unexpected {other:?}"),
                }
                calls += 1;
                DemoReply::Timed { start_ns: clock, returned: reschedule(Some(last)) }
            }
            DemoRequest::StartThread { thread, bench } => {
                let entry = if bench { 0x2000 } else { 0x1000 };
                assert_eq!(k.tcb(thread).unwrap().entry, entry);
                last = thread;
                DemoReply::Done
            }
            DemoRequest::YieldTo { thread } => {
                assert_eq!(thread, last);
                clock += 10;
                DemoReply::Resumed { now_ns: clock }
            }
            DemoRequest::AliasPage { phys, first, second } => {
                assert_eq!((first, second), (0x5000_0000, 0x6000_0000));
                DemoReply::Translated(Some((Some(phys + 0x80), Some(phys + 0x80))))
            }
            DemoRequest::ReserveSpaces { .. } => DemoReply::Spaces(Some(CrossFrames {
                space_a: 0x40_0000,
                space_b: 0x41_0000,
                pool: 0x42_0000,
            })),
            DemoRequest::PrepareSpaces { .. } => DemoReply::Done,
            DemoRequest::MapRange(m) => {
                assert_eq!(m.perm_bits, 3);
                DemoReply::Mapped(2)
            }
            DemoRequest::Cross { mark_a, mark_b, .. } => {
                assert_eq!((mark_a, mark_b), (0xA1A1, 0xB2B2));
                DemoReply::Crossed { seen_in_b: crossed.0, seen_in_a: crossed.1 }
            }
        };
        step = d.resume(k, reply);
    }
}

#[test]
fn the_demonstration_shows_everything() {
    let (mut k, root) = kernel();
    let (d, end, calls) = run_demo(&mut k, root, (0xA1A1, 0xB2B2));
    assert_eq!(end, DemoStep::Finished);
    assert_eq!(
        d.revocation,
        Some(RevocationReport { present_before: true, freed: 2, gone_after: true })
    );
    assert_eq!(d.message.unwrap().words(), &[42, 7]);
    assert_eq!((calls, d.rounds), (IPC_BENCH_ITERATIONS, IPC_BENCH_ITERATIONS));
    let trips = d.trips.unwrap();
    assert_eq!((trips.min_ns, trips.max_ns, trips.average_ns()), (10, 10, 10));
    assert_eq!((d.aliased, d.shared), (Some(true), Some(true)));
    let (mut k, root) = kernel();
    let (d, _, _) = run_demo(&mut k, root, (0xA1A1, 0));
    assert_eq!(d.shared, Some(false));
}

#[test]
fn the_demonstration_halts_without_its_objects() {
    let (mut k, _) = kernel();
    let refused = DemoReply::Returned(Err(SyscallError::ObjectTableFull));
    let (mut d, _) = Demo::inkernel_demo(0x1000, 0x2000);
    assert_eq!(d.resume(&mut k, refused), DemoStep::Halt(DemoHalt::NoEndpoint));
    let (mut d, _) = Demo::inkernel_demo(0x1000, 0x2000);
    let ep = Ok(SyscallReturn::NewCaps { cap: CapId::new(0), count: 1 });
    d.resume(&mut k, DemoReply::Returned(ep));
    assert_eq!(d.resume(&mut k, refused), DemoStep::Halt(DemoHalt::NoThread));
}

#[test]
fn the_measurement_server_answers_until_the_last_request() {
    let (mut k, root) = kernel();
    let me = k.alloc_tcb(root.cap_space, root.addr_space, None).unwrap();
    let ep = CapId::new(3);
    assert_eq!(k.bench_server_request(me, 0), (ServerTurn::Stop, None));
    {
        let t = k.tcb_mut(me).unwrap();
        t.pending_from = Some(root.thread);
        t.pending_msg = Some(SmallMessage::new(1));
    }
    match k.bench_server_request(me, 7) {
        (ServerTurn::Reply(SyscallOp::Reply { to, msg }), Some(from)) => {
            assert_eq!((to, from), (root.thread, root.thread));
            assert_eq!((msg.label, msg.words()), (BENCH_REPLY_LABEL, &[7u64][..]));
        }
        other => panic!("unexpected {other:?}"),
    }
    assert!(k.tcb(me).unwrap().pending_msg.is_none());
    let ok = reschedule(Some(root.thread));
    assert_eq!(
        k.bench_server_answered(me, root.thread, ep, 7, ok),
        ServerTurn::Receive(SyscallOp::Recv { endpoint: ep })
    );
    assert_eq!(
        k.bench_server_answered(me, root.thread, ep, 7, Err(SyscallError::NotBlockedOnReply)),
        ServerTurn::Stop
    );
    assert_eq!(
        bench_server_received(ok),
        ServerTurn::YieldTo { thread: root.thread }
    );
    assert_eq!(bench_server_received(Err(SyscallError::BadCap)), ServerTurn::Stop);
    assert_eq!(
        k.bench_server_answered(me, root.thread, ep, 199, ok),
        ServerTurn::Leave { to: root.thread }
    );
    assert_eq!(k.tcb(me).unwrap().state, ThreadState::Exited);
    assert_eq!(k.tcb(me).unwrap().exit, Some(ThreadExit::Clean { code: 0 }));
    assert!(!k.tcb(me).unwrap().exit.unwrap().is_failure());
}

#[test]
fn a_device_window_is_recorded_once_for_each_device() {
    let (k, root) = kernel_with(&[
        device(PeripheralKind::Network, 0),
        device(PeripheralKind::Block, 0x77),
    ]);
    assert_ne!(root.mmio_blk_cap, root.mmio_net_cap);
    let c = k
        .resolve(
            root.thread,
            root.mmio_blk_cap,
            KernelObjectKind::MmioRegion,
            CapabilityRights::read(),
        )
        .unwrap();
    let window = k.mmio_region(MmioRegionId::new(c.object.id.as_u32())).unwrap();
    assert_eq!(window.config_space_base, 0x77);
}

#[test]
fn objects_are_freed_by_kind() {
    let (mut k, root) = kernel();
    let mut phys = 0x200_0000;
    let op = SyscallOp::Retype {
        untyped: CapId::new(0),
        target_type: KernelObjectType::Endpoint,
        count: 1,
    };
    assert!(syscall(&mut k, root.thread, op, &mut phys).is_ok());
    let id = simurgh_kernel::ids::EndpointId::new(0);
    assert!(k.endpoint(id).is_some());
    k.free_kernel_object(KernelObjectKind::Endpoint, 0);
    assert!(k.endpoint(id).is_none());
    k.free_kernel_object(KernelObjectKind::ThreadControlBlock, 10_000);
    assert!(k.tcb(root.thread).is_some());
}

#[test]
fn a_retired_server_keeps_the_cause_of_its_death() {
    let (mut k, root) = kernel();
    let server = k.alloc_tcb(root.cap_space, root.addr_space, None).unwrap();
    let second = k.alloc_tcb(root.cap_space, root.addr_space, None).unwrap();
    let mut s = Supervisor::new();
    let crash = Crash { cause: 7, pc: 0, addr: 0 };
    s.p2_fault(&mut k, Some(server), crash);
    assert!(k.p2_preempt_start(0x4000, Some(server), None).is_some());
    assert_eq!(k.tcb(server).unwrap().exit, Some(ThreadExit::Faulted { cause: 7 }));
    assert_eq!(k.tcb(root.thread).unwrap().exit, Some(ThreadExit::Unknown));
    let driver = DriverPages {
        endpoint: CapId::new(0),
        rx: usize::MAX,
        tx: usize::MAX,
        isr: None,
        notify: None,
    };
    let _ = Launch::spawn_netstack_service(&mut k, root.thread, driver, Some(server), Some(second));
    assert_eq!(k.tcb(server).unwrap().exit, Some(ThreadExit::Faulted { cause: 7 }));
    assert_eq!(k.tcb(second).unwrap().exit, Some(ThreadExit::Unknown));
    // Nothing starts it again.
    k.init_user_thread(server, 0x5000);
    assert_eq!(k.tcb(server).unwrap().state, ThreadState::Exited);
    assert_eq!(k.tcb(server).unwrap().entry, 0);
}
