//! System calls, run against simple stand-ins for the scheduler, the IPC queues, the memory
//! layer and the hardware.

use simurgh_kernel::boot::{BootInfo, MemoryRegion, PeripheralDevice, PeripheralKind};
use simurgh_kernel::capability::{Capability, KernelObjectKind, ObjectRef};
use simurgh_kernel::config::{ENDPOINT_QUEUE, MAX_ENDPOINTS, NOTIF_WAITERS, PAGE_SIZE};
use simurgh_kernel::ids::{
    CapId, CapSpaceId, EndpointId, MmioRegionId, NotificationId, ObjectId, PageTableId,
    SharedRegionId, ThreadId, UntypedId,
};
use simurgh_kernel::message::SmallMessage;
use simurgh_kernel::objects::{
    EndpointError, KernelObjectType, MapPermissions, MmError, MmioRegionDescriptor,
    NotificationError, SchedError,
};
use simurgh_kernel::preempt::{PreemptStep, TerminationOutcome};
use simurgh_kernel::rights::CapabilityRights;
use simurgh_kernel::run::{ContextSwitch, ScheduleOutcome};
use simurgh_kernel::state::{KernelState, RootTask};
use simurgh_kernel::syscall::{
    RecvOutcome, Reply, Request, RetypeGrant, SendOutcome, Step, SyscallError, SyscallOp,
    SyscallReturn, Woken,
};
use simurgh_kernel::tcb::{ThreadExit, ThreadState};
use std::collections::{BTreeMap, VecDeque};

#[derive(Debug, Clone, Copy, PartialEq, Eq)]
enum RunState {
    Admitted,
    Ready,
    Running,
    Blocked,
}

/// A fair scheduler: the least charged ready thread runs, the lowest id first.
#[derive(Default)]
struct Sched {
    entities: BTreeMap<u32, (RunState, u64)>,
    running: Option<ThreadId>,
    since: u64,
}

impl Sched {
    fn enrol(&mut self, t: ThreadId) {
        self.entities.entry(t.as_u32()).or_insert((RunState::Admitted, 0));
    }
    fn note_ready(&mut self, t: ThreadId) -> Result<(), SchedError> {
        match self.entities.get_mut(&t.as_u32()) {
            Some(e) => {
                e.0 = RunState::Ready;
                Ok(())
            }
            None => Err(SchedError { code: 1 }),
        }
    }
    fn note_blocked(&mut self, t: ThreadId) -> Result<(), SchedError> {
        if self.running == Some(t) {
            self.running = None;
        }
        match self.entities.get_mut(&t.as_u32()) {
            Some(e) => {
                e.0 = RunState::Blocked;
                Ok(())
            }
            None => Err(SchedError { code: 1 }),
        }
    }
    fn dispatch(&mut self, t: ThreadId, now: u64) {
        if let Some(e) = self.entities.get_mut(&t.as_u32()) {
            e.0 = RunState::Running;
            self.running = Some(t);
            self.since = now;
        }
    }
    fn account(&mut self, now: u64) {
        if let Some(t) = self.running {
            if let Some(e) = self.entities.get_mut(&t.as_u32()) {
                e.1 += now.saturating_sub(self.since);
                if e.0 == RunState::Running {
                    e.0 = RunState::Ready;
                }
            }
            self.since = now;
        }
    }
    fn pick_next(&self) -> Option<ThreadId> {
        self.entities
            .iter()
            .filter(|(_, e)| e.0 == RunState::Ready)
            .min_by_key(|(id, e)| (e.1, **id))
            .map(|(id, _)| ThreadId::new(*id))
    }
    fn remove(&mut self, t: ThreadId) {
        self.entities.remove(&t.as_u32());
        if self.running == Some(t) {
            self.running = None;
        }
    }
    fn state(&self, t: ThreadId) -> Option<RunState> {
        self.entities.get(&t.as_u32()).map(|e| e.0)
    }
}

#[derive(Default)]
struct Queues {
    senders: VecDeque<(ThreadId, SmallMessage)>,
    receivers: VecDeque<ThreadId>,
    delivered: Option<(ThreadId, SmallMessage)>,
}

#[derive(Default)]
struct Signals {
    bits: u64,
    waiters: Vec<ThreadId>,
}

/// The kernel and everything around it.
struct World {
    k: KernelState<4>,
    root: RootTask,
    sched: Sched,
    now: u64,
    queues: BTreeMap<u32, Queues>,
    signals: BTreeMap<u32, Signals>,
    taken: BTreeMap<u32, u64>,
    pages: BTreeMap<(u32, usize), u64>,
    walk: u32,
    flushes: u32,
    irqs: Vec<u32>,
    irq_ok: bool,
}

impl World {
    fn with(devices: &[PeripheralDevice], mb: u64) -> World {
        let regions = [MemoryRegion {
            base: 0x100_0000,
            length: mb * 1024 * 1024,
            usable: true,
        }];
        let boot = BootInfo {
            valid: true,
            initial_page_table_phys: 0,
            kernel_image: (0x10_0000, 0x20_0000),
            boot_reserved: (0x20_0000, 0x21_0000),
            regions: &regions,
            devices,
        };
        let (mut k, root) = KernelState::<4>::from_boot_info(&boot).unwrap();
        let mut sched = Sched::default();
        sched.enrol(root.thread);
        let ready = sched.note_ready(root.thread).is_ok();
        k.adopt_root_task(root, ready).unwrap();
        World {
            k,
            root,
            sched,
            now: 0,
            queues: BTreeMap::new(),
            signals: BTreeMap::new(),
            taken: BTreeMap::new(),
            pages: BTreeMap::new(),
            walk: u32::MAX,
            flushes: 0,
            irqs: Vec::new(),
            irq_ok: true,
        }
    }

    fn new() -> World {
        World::with(&[], 32)
    }

    fn queue(&mut self, e: EndpointId) -> &mut Queues {
        self.queues.entry(e.as_u32()).or_default()
    }

    fn signal(&mut self, n: NotificationId) -> &mut Signals {
        self.signals.entry(n.as_u32()).or_default()
    }

    fn perform(&mut self, request: Request) -> Reply {
        match request {
            Request::Account => {
                self.sched.account(self.now);
                Reply::Done
            }
            Request::AccountAndPick => {
                self.sched.account(self.now);
                Reply::Picked(self.sched.pick_next())
            }
            Request::PickNext => Reply::Picked(self.sched.pick_next()),
            Request::NoteReady { thread } => Reply::Scheduled(self.sched.note_ready(thread)),
            Request::Block { thread } => {
                self.sched.account(self.now);
                Reply::Scheduled(self.sched.note_blocked(thread))
            }
            Request::WakeAll { woken } => {
                for i in 0..woken.len {
                    let _ = self.sched.note_ready(woken.threads[i]);
                }
                Reply::Done
            }
            Request::Reserve { untyped, target_type: _, count } => {
                let running = self.sched.running;
                let u = self.k.untyped(untyped).unwrap();
                let used = self.taken.entry(untyped.as_u32()).or_insert(0);
                let bytes = count as u64 * PAGE_SIZE as u64;
                let grant = if count == 0 {
                    Err(MmError::ZeroCount)
                } else if *used + bytes > u.size {
                    Err(MmError::Refused { code: 2 })
                } else {
                    let phys_base = u.base + *used;
                    *used += bytes;
                    Ok(RetypeGrant {
                        phys_base,
                        phys_len: bytes,
                        count,
                        object_bytes: PAGE_SIZE as u64,
                    })
                };
                Reply::Reserved { grant, running }
            }
            Request::RecordPage { space, vaddr, frame_phys, .. } => {
                let key = (space.as_u32(), vaddr);
                let mapped = self.pages.keys().filter(|(s, _)| *s == space.as_u32()).count();
                if vaddr % PAGE_SIZE != 0 || self.pages.contains_key(&key) || mapped >= 32 {
                    return Reply::PageRecorded(Err(MmError::Refused { code: 3 }));
                }
                self.pages.insert(key, frame_phys);
                Reply::PageRecorded(Ok(()))
            }
            Request::ForgetPage { space, vaddr } => {
                self.pages.remove(&(space.as_u32(), vaddr));
                Reply::Done
            }
            Request::WalkPage { pool_len, .. } => {
                if self.walk != u32::MAX && self.walk as usize > pool_len {
                    Reply::Walked(u32::MAX)
                } else {
                    Reply::Walked(self.walk)
                }
            }
            Request::FlushTlb => {
                self.flushes += 1;
                Reply::Done
            }
            Request::FastPath { endpoint, .. } => {
                Reply::Eligible(!self.queue(endpoint).receivers.is_empty())
            }
            Request::TrySend { endpoint, sender, msg } => {
                let q = self.queue(endpoint);
                let outcome = if let Some(r) = q.receivers.pop_front() {
                    q.delivered = Some((r, msg));
                    Ok(SendOutcome::DeliveredTo(r))
                } else if q.senders.len() >= ENDPOINT_QUEUE {
                    Err(EndpointError::QueueFull)
                } else {
                    q.senders.push_back((sender, msg));
                    Ok(SendOutcome::SenderQueued)
                };
                Reply::Sent(outcome)
            }
            Request::TakeDelivered { endpoint } => Reply::Taken(self.queue(endpoint).delivered.take()),
            Request::TryRecv { endpoint, receiver } => {
                let q = self.queue(endpoint);
                let outcome = if let Some((from, msg)) = q.senders.pop_front() {
                    Ok(RecvOutcome::Received { from, msg })
                } else if q.receivers.len() >= ENDPOINT_QUEUE {
                    Err(EndpointError::QueueFull)
                } else {
                    q.receivers.push_back(receiver);
                    Ok(RecvOutcome::ReceiverQueued)
                };
                Reply::Received(outcome)
            }
            Request::SignalBits { notification, bits } => {
                let s = self.signal(notification);
                s.bits |= bits;
                let mut woken = Woken { threads: [ThreadId::new(0); NOTIF_WAITERS], len: 0 };
                for t in s.waiters.drain(..) {
                    woken.threads[woken.len] = t;
                    woken.len += 1;
                }
                Reply::Woke(woken)
            }
            Request::TakeBits { notification } => {
                let s = self.signal(notification);
                let bits = s.bits;
                s.bits = 0;
                Reply::Bits(bits)
            }
            Request::AddWaiter { notification, thread } => {
                let s = self.signal(notification);
                if s.waiters.len() >= NOTIF_WAITERS {
                    Reply::Waiting(Err(NotificationError { code: 4 }))
                } else {
                    s.waiters.push(thread);
                    Reply::Waiting(Ok(()))
                }
            }
            Request::InstallIrq { irq } => {
                self.irqs.push(irq);
                Reply::IrqInstalled(self.irq_ok)
            }
        }
    }

    fn dispatch(&mut self, caller: ThreadId, op: SyscallOp) -> Result<SyscallReturn, SyscallError> {
        let mut step = self.k.dispatch(caller, op);
        loop {
            match step {
                Step::Finished(result) => return result,
                Step::Ask(request, pending) => {
                    let reply = self.perform(request);
                    step = self.k.resume(pending, reply);
                }
            }
        }
    }

    fn retype(&mut self, target_type: KernelObjectType) -> CapId {
        let op = SyscallOp::Retype { untyped: CapId::new(0), target_type, count: 1 };
        match self.dispatch(self.root.thread, op).unwrap() {
            SyscallReturn::NewCaps { cap, .. } => cap,
            other => panic!("unexpected {other:?}"),
        }
    }

    /// A thread in the root task's spaces that the scheduler knows.
    fn thread(&mut self) -> ThreadId {
        let t = self.k.alloc_tcb(self.root.cap_space, self.root.addr_space, None).unwrap();
        self.sched.enrol(t);
        t
    }

    fn cap_count(&self) -> usize {
        self.k.cap_space(self.root.cap_space).unwrap().len()
    }
}

fn block_device() -> PeripheralDevice {
    PeripheralDevice {
        kind: PeripheralKind::Block,
        window: MmioRegionDescriptor {
            phys_base: 0x1000_1000,
            size: 0x1000,
            irq: 7,
            config_space_base: 0,
        },
    }
}

fn network_device() -> PeripheralDevice {
    PeripheralDevice {
        kind: PeripheralKind::Network,
        window: MmioRegionDescriptor {
            phys_base: 0x1000_2000,
            size: 0x1000,
            irq: 8,
            config_space_base: 0,
        },
    }
}

fn kernel_data() -> MapPermissions {
    MapPermissions {
        readable: true,
        writable: true,
        executable: false,
        device_uncached: false,
    }
}

#[test]
fn compiles() {}

#[test]
fn from_boot_info_creates_root_task_and_untyped() {
    let w = World::with(&[], 64);
    assert_eq!(w.root.untyped_count, 1);
    assert_eq!(w.k.total_untyped_bytes(), 64 * 1024 * 1024);
    // Root Task is runnable and is the only ready thread.
    assert_eq!(w.sched.pick_next(), Some(w.root.thread));
    assert_eq!(w.k.tcb(w.root.thread).unwrap().state, ThreadState::Runnable);
}

#[test]
fn retype_untyped_into_endpoint_gives_new_cap() {
    let mut w = World::new();
    let caller = w.root.thread;
    // The Root Task's first capability (slot 0) is an UntypedMemory cap.
    let r = w
        .dispatch(
            caller,
            SyscallOp::Retype {
                untyped: CapId::new(0),
                target_type: KernelObjectType::Endpoint,
                count: 1,
            },
        )
        .unwrap();
    match r {
        SyscallReturn::NewCaps { cap, count } => {
            assert_eq!(count, 1);
            // The new endpoint capability resolves and is an Endpoint.
            let c = w.k.resolve(caller, cap, KernelObjectKind::Endpoint, CapabilityRights::read());
            assert!(c.is_ok());
        }
        other => panic!("unexpected {other:?}"),
    }
}

#[test]
fn retype_untyped_into_shared_region_gives_new_cap() {
    let mut w = World::new();
    let caller = w.root.thread;
    let r = w
        .dispatch(
            caller,
            SyscallOp::Retype {
                untyped: CapId::new(0),
                target_type: KernelObjectType::SharedRegion,
                count: 1,
            },
        )
        .unwrap();
    match r {
        SyscallReturn::NewCaps { cap, count } => {
            assert_eq!(count, 1);
            let c = w
                .k
                .resolve(caller, cap, KernelObjectKind::SharedRegion, CapabilityRights::read())
                .unwrap();
            let region = w.k.shared_region(SharedRegionId::new(c.object.id.as_u32())).unwrap();
            assert_eq!(region.size, PAGE_SIZE);
            assert!(region.max_rights.contains(CapabilityRights::rw()));
        }
        other => panic!("unexpected {other:?}"),
    }
}

#[test]
fn retype_untyped_into_multi_page_shared_region_gives_one_cap_spanning_every_page() {
    let mut w = World::new();
    let caller = w.root.thread;
    const PAGES: u32 = 470; // about the pages of an 800x600 frame.
    let r = w
        .dispatch(
            caller,
            SyscallOp::Retype {
                untyped: CapId::new(0),
                target_type: KernelObjectType::SharedRegion,
                count: PAGES,
            },
        )
        .unwrap();
    match r {
        SyscallReturn::NewCaps { cap, count } => {
            // One capability and one object, not one per page.
            assert_eq!(count, 1);
            let c = w
                .k
                .resolve(caller, cap, KernelObjectKind::SharedRegion, CapabilityRights::read())
                .unwrap();
            let region = w.k.shared_region(SharedRegionId::new(c.object.id.as_u32())).unwrap();
            assert_eq!(region.size, PAGE_SIZE * PAGES as usize);
            assert!(region.max_rights.contains(CapabilityRights::rw()));
        }
        other => panic!("unexpected {other:?}"),
    }
}

#[test]
fn boot_seeds_mmio_region_cap_for_the_discovered_block_device() {
    let w = World::with(&[block_device()], 32);
    assert_ne!(w.root.mmio_blk_cap, CapId::new(u32::MAX));
    let c = w
        .k
        .resolve(
            w.root.thread,
            w.root.mmio_blk_cap,
            KernelObjectKind::MmioRegion,
            CapabilityRights::read(),
        )
        .unwrap();
    let region = w.k.mmio_region(MmioRegionId::new(c.object.id.as_u32())).unwrap();
    assert_eq!(region.phys_base, 0x1000_1000);
    assert_eq!(region.size, 0x1000);
    assert_eq!(region.irq, 7);
}

#[test]
fn boot_seeds_mmio_region_cap_for_the_discovered_network_device() {
    let w = World::with(&[network_device()], 32);
    assert_ne!(w.root.mmio_net_cap, CapId::new(u32::MAX));
    let c = w
        .k
        .resolve(
            w.root.thread,
            w.root.mmio_net_cap,
            KernelObjectKind::MmioRegion,
            CapabilityRights::read(),
        )
        .unwrap();
    let region = w.k.mmio_region(MmioRegionId::new(c.object.id.as_u32())).unwrap();
    assert_eq!(region.phys_base, 0x1000_2000);
    assert_eq!(region.size, 0x1000);
    assert_eq!(region.irq, 8);
}

#[test]
fn map_accepts_an_mmio_region_frame() {
    let mut w = World::with(&[block_device()], 32);
    let r = w.dispatch(
        w.root.thread,
        SyscallOp::MapPage {
            page_table: w.root.page_table_cap,
            frame: w.root.mmio_blk_cap,
            vaddr: 0x9000_0000,
            perms: MapPermissions {
                readable: true,
                writable: true,
                executable: false,
                device_uncached: true,
            },
        },
    );
    assert_eq!(r, Ok(SyscallReturn::Mapped));
}

#[test]
fn signal_wakes_a_waiting_thread() {
    let mut w = World::new();
    let caller = w.root.thread;
    let notif_cap = w.retype(KernelObjectType::Notification);

    // Nothing pending yet: Wait blocks the caller.
    let r = w.dispatch(caller, SyscallOp::Wait { notification: notif_cap });
    assert_eq!(r, Ok(SyscallReturn::Blocked));

    // Signal makes it ready again and hands out the bits that it waited for.
    let r = w.dispatch(caller, SyscallOp::Signal { notification: notif_cap, bits: 0b101 });
    assert_eq!(r, Ok(SyscallReturn::DeliveredValue { woke: caller, value: 0b101 }));
    assert_eq!(w.sched.state(caller).unwrap(), RunState::Ready);

    // The bits are not there a second time.
    let r = w.dispatch(caller, SyscallOp::Poll { notification: notif_cap });
    assert_eq!(r, Ok(SyscallReturn::Value(0)));
}

#[test]
fn signal_before_anyone_waits_leaves_the_bits_pending_for_a_later_wait() {
    let mut w = World::with(&[block_device()], 32);
    let caller = w.root.thread;
    let notif_cap = w.retype(KernelObjectType::Notification);

    // Nobody is waiting yet.
    let r = w.dispatch(caller, SyscallOp::Signal { notification: notif_cap, bits: 0b10 });
    assert_eq!(r, Ok(SyscallReturn::Done));

    // A later Wait must still see the bits.
    let r = w.dispatch(caller, SyscallOp::Wait { notification: notif_cap });
    assert_eq!(r, Ok(SyscallReturn::Value(0b10)));
}

#[test]
fn irq_bind_requires_mmio_and_notification_caps_and_registers_with_hal() {
    let mut w = World::with(&[block_device()], 32);
    let caller = w.root.thread;
    let mmio_cap = w.root.mmio_blk_cap;
    let notif_cap = w.retype(KernelObjectType::Notification);

    let r = w.dispatch(caller, SyscallOp::IrqBind { mmio: mmio_cap, notification: notif_cap });
    assert_eq!(r, Ok(SyscallReturn::Done));
    assert_eq!(
        w.k.notification_for_irq(7),
        Some(NotificationId::new(
            w.k.resolve(
                caller,
                notif_cap,
                KernelObjectKind::Notification,
                CapabilityRights::read()
            )
            .unwrap()
            .object
            .id
            .as_u32(),
        ))
    );
    assert_eq!(w.irqs, vec![7]);
    assert_eq!(w.k.irq_target(7), w.k.notification_for_irq(7));
    assert_eq!(w.k.irq_target(8), None);

    // Naming the notification cap as `mmio` must not succeed.
    let r = w.dispatch(caller, SyscallOp::IrqBind { mmio: notif_cap, notification: notif_cap });
    assert_eq!(r, Err(SyscallError::WrongObjectKind));
}

#[test]
fn revoke_requires_revoke_right_and_frees_slots() {
    let mut w = World::new();
    let caller = w.root.thread;
    // Make an endpoint, then revoke the untyped it came from: that capability has full rights.
    w.dispatch(
        caller,
        SyscallOp::Retype {
            untyped: CapId::new(0),
            target_type: KernelObjectType::Endpoint,
            count: 1,
        },
    )
    .unwrap();
    let r = w.dispatch(caller, SyscallOp::CapRevoke { cap: CapId::new(0) }).unwrap();
    assert!(matches!(r, SyscallReturn::Revoked { freed } if freed >= 1));
}

#[test]
fn cap_grant_into_another_space_then_revoke_source_reaches_the_grant() {
    let mut w = World::new();
    let caller = w.root.thread;

    // An endpoint capability in the caller's own space.
    let src_cap = w.retype(KernelObjectType::Endpoint);

    // A separate capability space, with a thread in it, and a capability to that thread.
    let dst_cs = w.k.alloc_cap_space().unwrap();
    let dst_tid = w.k.alloc_tcb(dst_cs, w.root.addr_space, None).unwrap();
    let target_thread = {
        let tcap = Capability::full(ObjectRef::new(
            KernelObjectKind::ThreadControlBlock,
            ObjectId::new(dst_tid.as_u32()),
        ));
        w.k.cap_space_mut(w.root.cap_space).unwrap().insert_root(tcap).unwrap()
    };

    // Grant a READ-only copy of the endpoint into the destination space.
    let granted = match w
        .dispatch(
            caller,
            SyscallOp::CapGrant {
                target_thread,
                cap: src_cap,
                rights: CapabilityRights::read(),
            },
        )
        .unwrap()
    {
        SyscallReturn::Granted { dst } => dst,
        other => panic!("unexpected {other:?}"),
    };
    assert!(w.k.cap_space(dst_cs).unwrap().lookup(granted).is_some());
    // The source is untouched by the grant.
    assert!(w.k.cap_space(w.root.cap_space).unwrap().lookup(src_cap).is_some());

    // Revoking the source must free the granted copy in the other space.
    let freed = match w.dispatch(caller, SyscallOp::CapRevoke { cap: src_cap }).unwrap() {
        SyscallReturn::Revoked { freed } => freed,
        other => panic!("unexpected {other:?}"),
    };
    assert_eq!(freed, 2); // src_cap itself + the cross-space grant
    assert!(w.k.cap_space(w.root.cap_space).unwrap().lookup(src_cap).is_none());
    assert!(w.k.cap_space(dst_cs).unwrap().lookup(granted).is_none());
}

#[test]
fn bad_cap_is_rejected() {
    let mut w = World::new();
    let e = w.dispatch(w.root.thread, SyscallOp::CapRevoke { cap: CapId::new(99) });
    assert_eq!(e, Err(SyscallError::BadCap));
}

#[test]
fn yield_reports_reschedule() {
    let mut w = World::new();
    let caller = w.root.thread;
    w.sched.dispatch(caller, 0);
    w.now = 1_000_000;
    let r = w.dispatch(caller, SyscallOp::Yield).unwrap();
    assert!(matches!(r, SyscallReturn::Reschedule { .. }));
}

#[test]
fn map_installs_hardware_ptes_when_a_pool_is_present() {
    let mut w = World::new();
    let caller = w.root.thread;

    // Retype a PageTable and a frame from the Root Task's first untyped.
    let pt_cap = w.retype(KernelObjectType::PageTable);
    let frame_cap = w.retype(KernelObjectType::Untyped);

    // No pool installed yet: `Map` succeeds without touching the hardware's page tables.
    let r = w.dispatch(
        caller,
        SyscallOp::MapPage {
            page_table: pt_cap,
            frame: frame_cap,
            vaddr: 0x4000_0000,
            perms: kernel_data(),
        },
    );
    assert_eq!(r, Ok(SyscallReturn::Mapped));

    // With a pool installed the walk is made, and fails: the mapping must not stay recorded.
    w.k.install_map_pool(0x1000, 8);
    let r2 = w.dispatch(
        caller,
        SyscallOp::MapPage {
            page_table: pt_cap,
            frame: frame_cap,
            vaddr: 0x5000_0000,
            perms: kernel_data(),
        },
    );
    assert_eq!(r2, Err(SyscallError::Mm(MmError::HardwareMapFailed)));
    let as_id = PageTableId::new(
        w.k.cap_space(w.root.cap_space)
            .and_then(|t| t.lookup(pt_cap))
            .map(|c| c.object.id.as_u32())
            .unwrap(),
    );
    assert!(w.k.addr_space(as_id).is_some());
    assert!(!w.pages.contains_key(&(as_id.as_u32(), 0x5000_0000)));
}

#[test]
fn call_fast_path_hands_off_directly_bypassing_pick_next() {
    let mut w = World::new();
    let root = w.root.thread;
    let ep_cap = w.retype(KernelObjectType::Endpoint);

    // `rx` blocks in Recv first, becoming the endpoint's queued receiver.
    let rx = w.thread();
    let r = w.dispatch(rx, SyscallOp::Recv { endpoint: ep_cap }).unwrap();
    assert!(matches!(r, SyscallReturn::Reschedule { .. }));
    assert_eq!(w.k.tcb(rx).unwrap().state, ThreadState::BlockedOnRecv);

    // `decoy` is Ready: it is whom the scheduler would pick once `root` blocks.
    let decoy = w.thread();
    w.sched.note_ready(decoy).unwrap();

    // `root` calls and meets `rx`. The CPU must go straight to `rx`.
    let msg = SmallMessage::from_words(0xCAFE, &[7]).unwrap();
    let r = w.dispatch(root, SyscallOp::Call { endpoint: ep_cap, msg }).unwrap();
    assert_eq!(r, SyscallReturn::Reschedule { next: Some(rx) });
    assert_ne!(w.sched.running, Some(decoy));

    assert_eq!(w.k.tcb(root).unwrap().state, ThreadState::BlockedOnReply);
    let delivered = w.k.tcb(rx).unwrap().pending_msg.expect("message delivered to rx");
    assert_eq!(delivered.label, 0xCAFE);
}

#[test]
fn plain_send_does_not_take_the_call_fast_path() {
    let mut w = World::new();
    let root = w.root.thread;
    let ep_cap = w.retype(KernelObjectType::Endpoint);
    let rx = w.thread();
    w.dispatch(rx, SyscallOp::Recv { endpoint: ep_cap }).unwrap();

    let msg = SmallMessage::new(0xF00D);
    let r = w.dispatch(root, SyscallOp::Send { endpoint: ep_cap, msg }).unwrap();
    assert_eq!(r, SyscallReturn::Delivered { woke: rx });
}

#[test]
fn call_then_reply_completes_the_round_trip() {
    let mut w = World::new();
    let root = w.root.thread;
    let ep_cap = w.retype(KernelObjectType::Endpoint);

    // `server` blocks in Recv first.
    let server = w.thread();
    w.dispatch(server, SyscallOp::Recv { endpoint: ep_cap }).unwrap();

    // `root` calls, meets it at once, and blocks for the reply.
    let request = SmallMessage::from_words(0x1, &[10]).unwrap();
    let r = w.dispatch(root, SyscallOp::Call { endpoint: ep_cap, msg: request }).unwrap();
    assert_eq!(r, SyscallReturn::Reschedule { next: Some(server) });
    assert_eq!(w.k.tcb(root).unwrap().state, ThreadState::BlockedOnReply);

    // `server` replies directly to `root`.
    let reply_msg = SmallMessage::from_words(0x2, &[20]).unwrap();
    let r = w.dispatch(server, SyscallOp::Reply { to: root, msg: reply_msg }).unwrap();
    assert_eq!(r, SyscallReturn::Reschedule { next: Some(root) });

    // `root` is runnable again with the reply message waiting.
    assert_eq!(w.k.tcb(root).unwrap().state, ThreadState::Runnable);
    let delivered = w.k.tcb(root).unwrap().pending_msg.expect("reply delivered to root");
    assert_eq!(delivered.label, 0x2);
    assert_eq!(delivered.words(), &[20]);
}

#[test]
fn call_queued_before_receiver_blocks_still_completes_the_round_trip() {
    let mut w = World::new();
    let root = w.root.thread;
    let ep_cap = w.retype(KernelObjectType::Endpoint);
    let server = w.thread();

    // `root` calls before `server` receives: the message is queued, and `root` must still end
    // up waiting for a reply.
    let request = SmallMessage::from_words(0x1, &[10]).unwrap();
    let r = w.dispatch(root, SyscallOp::Call { endpoint: ep_cap, msg: request }).unwrap();
    assert!(matches!(r, SyscallReturn::Reschedule { .. }));
    assert_eq!(w.k.tcb(root).unwrap().state, ThreadState::BlockedOnReply);

    // `server` now receives the queued message at once.
    let r = w.dispatch(server, SyscallOp::Recv { endpoint: ep_cap }).unwrap();
    match r {
        SyscallReturn::Message { from, msg } => {
            assert_eq!(from, root);
            assert_eq!(msg.label, 0x1);
        }
        other => panic!("unexpected {other:?}"),
    }
    // `root` must still be waiting for the reply.
    assert_eq!(w.k.tcb(root).unwrap().state, ThreadState::BlockedOnReply);

    // `server` replies: this must succeed.
    let reply_msg = SmallMessage::from_words(0x2, &[20]).unwrap();
    let r = w.dispatch(server, SyscallOp::Reply { to: root, msg: reply_msg }).unwrap();
    assert_eq!(r, SyscallReturn::Reschedule { next: Some(root) });

    assert_eq!(w.k.tcb(root).unwrap().state, ThreadState::Runnable);
    let delivered = w.k.tcb(root).unwrap().pending_msg.expect("reply delivered to root");
    assert_eq!(delivered.label, 0x2);
    assert_eq!(delivered.words(), &[20]);
}

#[test]
fn reply_to_non_blocked_thread_is_rejected() {
    let mut w = World::new();
    let root = w.root.thread;

    // `bystander` never called anyone.
    let bystander = w.k.alloc_tcb(w.root.cap_space, w.root.addr_space, None).unwrap();
    let r = w.dispatch(root, SyscallOp::Reply { to: bystander, msg: SmallMessage::new(0) });
    assert_eq!(r, Err(SyscallError::NotBlockedOnReply));

    // Replying to yourself is rejected too.
    let r = w.dispatch(root, SyscallOp::Reply { to: root, msg: SmallMessage::new(0) });
    assert_eq!(r, Err(SyscallError::NotBlockedOnReply));
}

#[test]
fn retype_batch_partial_failure_rolls_back_every_object_and_capability() {
    let mut w = World::new();
    let caller = w.root.thread;
    let cs_len_before = w.cap_count();

    // More endpoints than there is room for in one batch.
    let r = w.dispatch(
        caller,
        SyscallOp::Retype {
            untyped: CapId::new(0),
            target_type: KernelObjectType::Endpoint,
            count: MAX_ENDPOINTS as u32 + 5,
        },
    );
    assert_eq!(r, Err(SyscallError::ObjectTableFull));

    assert_eq!(
        w.cap_count(),
        cs_len_before,
        "a failed batch must leave the caller's cap table exactly as it found it"
    );

    // The objects must be gone too: an ordinary retype succeeds.
    let r2 = w.dispatch(
        caller,
        SyscallOp::Retype {
            untyped: CapId::new(0),
            target_type: KernelObjectType::Endpoint,
            count: 1,
        },
    );
    assert!(matches!(r2, Ok(SyscallReturn::NewCaps { count: 1, .. })));
}

#[test]
fn retype_batch_detects_non_contiguous_slots_and_rolls_back() {
    let mut w = World::new();
    let caller = w.root.thread;

    // Three single endpoint capabilities land at sequential slots in a fresh table.
    let mut caps = [CapId::new(0); 3];
    for c in caps.iter_mut() {
        *c = w.retype(KernelObjectType::Endpoint);
    }
    assert_eq!(caps[1].as_u32(), caps[0].as_u32() + 1);
    assert_eq!(caps[2].as_u32(), caps[0].as_u32() + 2);

    // Revoke only the first: the next allocation reuses its slot, the one after it does not
    // follow.
    let freed = match w.dispatch(caller, SyscallOp::CapRevoke { cap: caps[0] }).unwrap() {
        SyscallReturn::Revoked { freed } => freed,
        other => panic!("unexpected {other:?}"),
    };
    assert_eq!(freed, 1);

    let cs_len_before_batch = w.cap_count();

    let r = w.dispatch(
        caller,
        SyscallOp::Retype {
            untyped: CapId::new(0),
            target_type: KernelObjectType::Notification,
            count: 2,
        },
    );
    assert_eq!(r, Err(SyscallError::RetypeNotContiguous));

    // The whole batch is rolled back.
    assert_eq!(w.cap_count(), cs_len_before_batch);

    // The capability next to the reused slot must be untouched.
    let c1 = w.k.resolve(caller, caps[1], KernelObjectKind::Endpoint, CapabilityRights::read());
    assert!(c1.is_ok(), "an unrelated live capability must survive a failed Retype batch");
}

#[test]
fn cap_grant_to_a_sibling_thread_in_the_same_cap_space_succeeds() {
    let mut w = World::new();
    let caller = w.root.thread;

    // A sibling thread in the caller's own space.
    let sibling_cap = w.retype(KernelObjectType::ThreadControlBlock);
    let sibling_tid = ThreadId::new(
        w.k.resolve(
            caller,
            sibling_cap,
            KernelObjectKind::ThreadControlBlock,
            CapabilityRights::write(),
        )
        .unwrap()
        .object
        .id
        .as_u32(),
    );

    // An endpoint to grant a READ-only copy of.
    let ep_cap = w.retype(KernelObjectType::Endpoint);

    let r = w.dispatch(
        caller,
        SyscallOp::CapGrant {
            target_thread: sibling_cap,
            cap: ep_cap,
            rights: CapabilityRights::read(),
        },
    );
    let dst = match r.unwrap() {
        SyscallReturn::Granted { dst } => dst,
        other => panic!("unexpected {other:?}"),
    };

    // The copy is in the space that both share, narrowed, and the original is untouched.
    let sibling_cs = w.k.tcb(sibling_tid).unwrap().cap_space;
    assert_eq!(sibling_cs, w.k.tcb(caller).unwrap().cap_space);
    let granted = w.k.cap_space(sibling_cs).unwrap().lookup(dst).unwrap();
    assert_eq!(granted.rights, CapabilityRights::read());
    assert!(w.k.cap_space(sibling_cs).unwrap().lookup(ep_cap).is_some());

    // Revoking the original still reaches the copy.
    let freed = match w.dispatch(caller, SyscallOp::CapRevoke { cap: ep_cap }).unwrap() {
        SyscallReturn::Revoked { freed } => freed,
        other => panic!("unexpected {other:?}"),
    };
    assert_eq!(freed, 2); // ep_cap itself + the copy
    assert!(w.k.cap_space(sibling_cs).unwrap().lookup(dst).is_none());
}

/// Terminates a thread and has the scheduler pick the next one.
fn terminate(w: &mut World, thread: ThreadId, now: u64) -> TerminationOutcome {
    let exit = ThreadExit::Faulted { cause: 2 };
    if w.k.terminate_thread(thread, exit, w.sched.running) {
        w.sched.account(now);
    }
    w.sched.remove(thread);
    let next = w.sched.pick_next();
    if let Some(t) = next {
        w.sched.dispatch(t, now);
    }
    w.k.after_termination(next)
}

#[test]
fn terminate_thread_marks_exited_and_removed() {
    let mut w = World::new();
    let root = w.root.thread;
    w.sched.dispatch(root, 0);

    let outcome = terminate(&mut w, root, 1_000);
    assert_eq!(outcome, TerminationOutcome::Idle);
    assert_eq!(w.k.tcb(root).unwrap().state, ThreadState::Exited);
    assert!(w.sched.state(root).is_none());
    assert_eq!(w.sched.running, None);
    assert_eq!(w.k.tcb(root).unwrap().exit, Some(ThreadExit::Faulted { cause: 2 }));
}

#[test]
fn terminate_thread_switches_to_another_ready_thread() {
    let mut w = World::new();
    let root = w.root.thread;
    let other = w.thread();
    w.sched.note_ready(other).unwrap();
    w.sched.dispatch(root, 0);

    let outcome = terminate(&mut w, root, 1_000);
    assert_eq!(outcome, TerminationOutcome::Switched { incoming: other });
    assert_eq!(w.k.tcb(root).unwrap().state, ThreadState::Exited);
    assert!(w.sched.state(root).is_none());
    assert_eq!(w.sched.running, Some(other));
}

/// One scheduling step; returns its outcome and how many contexts were switched.
fn schedule(w: &mut World, now: u64) -> (ScheduleOutcome, u32) {
    let outgoing = w.sched.running;
    w.sched.account(now);
    let (outcome, switch) = w.k.schedule_step(outgoing, w.sched.pick_next());
    if let ScheduleOutcome::Switched { to } = outcome {
        w.sched.dispatch(to, now);
    }
    (outcome, if switch == ContextSwitch::Stay { 0 } else { 1 })
}

#[test]
fn root_task_without_loaded_image_is_not_startable() {
    let mut w = World::new();
    // Root Task exists and is Runnable, but entry == 0 (no image).
    let (outcome, switches) = schedule(&mut w, 1000);
    assert_eq!(outcome, ScheduleOutcome::NotStartable { thread: w.root.thread });
    assert_eq!(switches, 0);
}

#[test]
fn cold_start_switches_into_a_thread_with_an_entry_point() {
    let mut w = World::new();
    w.k.tcb_mut(w.root.thread).unwrap().entry = 0x20_0000;
    let (out, switches) = schedule(&mut w, 2000);
    assert_eq!(out, ScheduleOutcome::Switched { to: w.root.thread });
    assert_eq!(switches, 1);
    assert_eq!(w.sched.running, Some(w.root.thread));
}

/// A small generator of pseudo-random numbers that spreads its bits well.
struct Rng(u64);

impl Rng {
    fn next_u64(&mut self) -> u64 {
        self.0 = self.0.wrapping_add(0x9E37_79B9_7F4A_7C15);
        let mut z = self.0;
        z = (z ^ (z >> 30)).wrapping_mul(0xBF58_476D_1CE4_E5B9);
        z = (z ^ (z >> 27)).wrapping_mul(0x94D0_49BB_1331_11EB);
        z ^ (z >> 31)
    }
    fn next_u32(&mut self) -> u32 {
        (self.next_u64() >> 32) as u32
    }
    fn next_range(&mut self, bound: u32) -> u32 {
        if bound == 0 {
            0
        } else {
            self.next_u32() % bound
        }
    }
    fn next_bool(&mut self) -> bool {
        self.next_u64() & 1 == 1
    }
}

fn random_cap_id(rng: &mut Rng) -> CapId {
    match rng.next_range(4) {
        0 => CapId::new(0),
        1 => CapId::new(rng.next_range(32)),
        2 => CapId::new(u32::MAX - rng.next_range(4)),
        _ => CapId::new(rng.next_u32()),
    }
}

fn random_thread_id(rng: &mut Rng, root: ThreadId) -> ThreadId {
    match rng.next_range(3) {
        0 => root,
        1 => ThreadId::new(rng.next_range(200)),
        _ => ThreadId::new(rng.next_u32()),
    }
}

fn random_object_type(rng: &mut Rng) -> KernelObjectType {
    match rng.next_range(6) {
        0 => KernelObjectType::Untyped,
        1 => KernelObjectType::PageTable,
        2 => KernelObjectType::ThreadControlBlock,
        3 => KernelObjectType::Endpoint,
        4 => KernelObjectType::Notification,
        _ => KernelObjectType::CapabilitySpace,
    }
}

fn random_message(rng: &mut Rng) -> SmallMessage {
    let label = rng.next_u64();
    let n = rng.next_range(7) as usize;
    let mut words = [0u64; 6];
    for w in words.iter_mut().take(n) {
        *w = rng.next_u64();
    }
    SmallMessage::from_words(label, &words[..n]).unwrap_or_else(|_| SmallMessage::new(label))
}

fn random_op(rng: &mut Rng) -> SyscallOp {
    match rng.next_range(8) {
        0 => SyscallOp::Send {
            endpoint: random_cap_id(rng),
            msg: random_message(rng),
        },
        1 => SyscallOp::Recv {
            endpoint: random_cap_id(rng),
        },
        2 => SyscallOp::Call {
            endpoint: random_cap_id(rng),
            msg: random_message(rng),
        },
        3 => SyscallOp::Yield,
        4 => SyscallOp::CapGrant {
            target_thread: random_cap_id(rng),
            cap: random_cap_id(rng),
            rights: CapabilityRights::from_bits_truncate(rng.next_u32()),
        },
        5 => SyscallOp::CapRevoke {
            cap: random_cap_id(rng),
        },
        6 => SyscallOp::Retype {
            untyped: random_cap_id(rng),
            target_type: random_object_type(rng),
            count: match rng.next_range(4) {
                0 => 0,
                1 => 1,
                2 => rng.next_range(64),
                _ => u32::MAX - rng.next_range(4),
            },
        },
        _ => SyscallOp::MapPage {
            page_table: random_cap_id(rng),
            frame: random_cap_id(rng),
            vaddr: rng.next_u64() as usize,
            perms: MapPermissions {
                readable: rng.next_bool(),
                writable: rng.next_bool(),
                executable: rng.next_bool(),
                device_uncached: rng.next_bool(),
            },
        },
    }
}

#[test]
fn syscall_dispatch_survives_random_malformed_input() {
    const ITERATIONS: u32 = 200_000;
    const SEEDS: [u64; 4] = [0x1234_5678_9abc_def0, 0xdead_beef_cafe_babe, 1, 0];

    for &seed in &SEEDS {
        let mut w = World::with(&[], 64);
        let root = w.root.thread;
        let root_cs = w.root.cap_space;
        let mut rng = Rng(seed);
        // Every walk of the hardware's page tables fails, so that mappings are taken back.
        w.k.install_map_pool(0x1000, 4);

        for i in 0..ITERATIONS {
            let caller = if rng.next_range(5) == 0 {
                random_thread_id(&mut rng, root)
            } else {
                root
            };
            let op = random_op(&mut rng);
            w.now = i as u64 * 1_000;

            let _ = w.dispatch(caller, op);

            assert!(
                w.k.tcb(root).is_some(),
                "seed {:#x} iter {}: Root Task TCB vanished",
                seed,
                i
            );
            assert!(
                w.k.cap_space(root_cs).is_some(),
                "seed {:#x} iter {}: Root Task capability space vanished",
                seed,
                i
            );
        }
    }
}

#[test]
fn a_caller_that_does_not_exist_is_refused() {
    let mut w = World::new();
    let r = w.dispatch(ThreadId::new(77), SyscallOp::CapRevoke { cap: CapId::new(0) });
    assert_eq!(r, Err(SyscallError::NoCaller));
    let r = w.dispatch(ThreadId::new(u32::MAX), SyscallOp::Recv { endpoint: CapId::new(0) });
    assert_eq!(r, Err(SyscallError::NoCaller));
}

#[test]
fn rights_are_checked_before_anything_happens() {
    let mut w = World::new();
    let root = w.root.thread;
    let ep = w.retype(KernelObjectType::Endpoint);
    let narrowed = w
        .k
        .cap_space_mut(w.root.cap_space)
        .unwrap()
        .derive_child(ep, CapabilityRights::read(), 0)
        .unwrap();
    let msg = SmallMessage::new(1);
    assert_eq!(
        w.dispatch(root, SyscallOp::Send { endpoint: narrowed, msg }),
        Err(SyscallError::InsufficientRights)
    );
    assert_eq!(
        w.dispatch(root, SyscallOp::CapRevoke { cap: narrowed }),
        Err(SyscallError::InsufficientRights)
    );
    assert_eq!(
        w.dispatch(root, SyscallOp::Recv { endpoint: CapId::new(0) }),
        Err(SyscallError::WrongObjectKind)
    );
    assert!(w.queues.is_empty());
}

#[test]
fn a_retype_of_nothing_and_one_without_memory_fail() {
    let mut w = World::new();
    let root = w.root.thread;
    let retype = |count: u32| SyscallOp::Retype {
        untyped: CapId::new(0),
        target_type: KernelObjectType::Endpoint,
        count,
    };
    assert_eq!(w.dispatch(root, retype(0)), Err(SyscallError::Mm(MmError::ZeroCount)));
    assert_eq!(
        w.dispatch(root, retype(u32::MAX)),
        Err(SyscallError::Mm(MmError::Refused { code: 2 }))
    );
}

#[test]
fn a_full_endpoint_queue_is_reported() {
    let mut w = World::new();
    let ep = w.retype(KernelObjectType::Endpoint);
    for _ in 0..ENDPOINT_QUEUE {
        let t = w.thread();
        w.dispatch(t, SyscallOp::Send { endpoint: ep, msg: SmallMessage::new(1) }).unwrap();
        assert_eq!(w.k.tcb(t).unwrap().state, ThreadState::BlockedOnSend);
    }
    let late = w.thread();
    let r = w.dispatch(late, SyscallOp::Send { endpoint: ep, msg: SmallMessage::new(1) });
    assert_eq!(
        r,
        Err(SyscallError::Ipc(simurgh_kernel::objects::IpcError::QueueFull))
    );
    assert_eq!(w.k.tcb(late).unwrap().state, ThreadState::Inactive);
}

#[test]
fn a_thread_that_the_scheduler_does_not_know_cannot_block() {
    let mut w = World::new();
    let ep = w.retype(KernelObjectType::Endpoint);
    let stranger = w.k.alloc_tcb(w.root.cap_space, w.root.addr_space, None).unwrap();
    let r = w.dispatch(stranger, SyscallOp::Recv { endpoint: ep });
    assert_eq!(r, Err(SyscallError::Sched(SchedError { code: 1 })));
}

#[test]
fn a_full_list_of_waiters_is_reported() {
    let mut w = World::new();
    let n = w.retype(KernelObjectType::Notification);
    for _ in 0..NOTIF_WAITERS {
        let t = w.thread();
        assert_eq!(
            w.dispatch(t, SyscallOp::Wait { notification: n }),
            Ok(SyscallReturn::Blocked)
        );
    }
    let late = w.thread();
    assert_eq!(
        w.dispatch(late, SyscallOp::Wait { notification: n }),
        Err(SyscallError::Notify(NotificationError { code: 4 }))
    );
}

#[test]
fn a_refused_interrupt_line_is_reported() {
    let mut w = World::with(&[block_device()], 32);
    let n = w.retype(KernelObjectType::Notification);
    w.irq_ok = false;
    let op = SyscallOp::IrqBind { mmio: w.root.mmio_blk_cap, notification: n };
    assert_eq!(w.dispatch(w.root.thread, op), Err(SyscallError::IrqRegistrationFailed));
}

#[test]
fn a_walk_that_succeeds_uses_up_scratch_frames() {
    let mut w = World::new();
    let pt = w.retype(KernelObjectType::PageTable);
    let frame = w.retype(KernelObjectType::Untyped);
    w.k.install_map_pool(0x10_0000, 8);
    w.walk = 2;
    let op = SyscallOp::MapPage {
        page_table: pt,
        frame,
        vaddr: 0x4000_0000,
        perms: kernel_data(),
    };
    assert_eq!(w.dispatch(w.root.thread, op), Ok(SyscallReturn::Mapped));
    assert_eq!(w.k.map_pool_remaining(), (0x10_2000, 6));
    assert_eq!(w.flushes, 1);
    // The page is taken; the refusal of the memory layer comes through.
    assert_eq!(
        w.dispatch(w.root.thread, op),
        Err(SyscallError::Mm(MmError::Refused { code: 3 }))
    );
}

#[test]
fn a_retyped_thread_knows_who_created_it() {
    let mut w = World::new();
    w.sched.dispatch(w.root.thread, 0);
    let cap = w.retype(KernelObjectType::ThreadControlBlock);
    let c = w
        .k
        .resolve(
            w.root.thread,
            cap,
            KernelObjectKind::ThreadControlBlock,
            CapabilityRights::write(),
        )
        .unwrap();
    let t = w.k.tcb(ThreadId::new(c.object.id.as_u32())).unwrap();
    assert_eq!(t.spawner, Some(w.root.thread));
    assert_eq!(t.state, ThreadState::Inactive);
}

#[test]
fn ticks_switch_to_whoever_was_picked() {
    let w = World::new();
    let (a, b) = (ThreadId::new(1), ThreadId::new(2));
    let d = w.k.preempt_tick(Some(a), Some(b));
    assert_eq!(d.step, PreemptStep::Switch { outgoing: a, incoming: b });
    assert_eq!(d.dispatch, Some(b));
    let d = w.k.preempt_tick(Some(a), Some(a));
    assert_eq!((d.step, d.dispatch), (PreemptStep::Continue, Some(a)));
    let d = w.k.preempt_tick(Some(a), None);
    assert_eq!((d.step, d.ready, d.dispatch), (PreemptStep::Continue, Some(a), Some(a)));
    assert_eq!(w.k.preempt_tick(None, None).step, PreemptStep::Idle);
    let d = w.k.cooperative_yield(Some(a), None);
    assert_eq!((d.step, d.ready, d.dispatch), (PreemptStep::Continue, None, Some(a)));
}

#[test]
fn contexts_are_switched_between_two_threads_that_exist() {
    let mut w = World::new();
    let root = w.root.thread;
    let t = w.thread();
    assert_eq!(
        w.k.user_ctx_switch_ptrs(root, t),
        Some((root.as_usize(), t.as_usize()))
    );
    assert_eq!(w.k.user_ctx_switch_ptrs(root, root), None);
    assert_eq!(w.k.user_ctx_switch_ptrs(root, ThreadId::new(90)), None);
    assert_eq!(
        w.k.yield_to(root, t, true),
        (Some(root), ContextSwitch::Warm { from: root, to: t })
    );
    assert_eq!(w.k.yield_to(t, t, true), (None, ContextSwitch::Stay));
}

#[test]
fn exits_are_failures_unless_they_are_clean() {
    assert!(!ThreadExit::Clean { code: 0 }.is_failure());
    assert!(ThreadExit::Clean { code: 3 }.is_failure());
    assert!(ThreadExit::Faulted { cause: 13 }.is_failure());
    assert!(ThreadExit::Unknown.is_failure());
    assert!(ThreadState::BlockedOnReply.is_blocked());
    assert!(!ThreadState::Runnable.is_blocked());
    assert!(!ThreadState::Exited.is_blocked());
}

#[test]
fn binding_a_line_again_moves_it() {
    let mut w = World::new();
    assert!(w.k.bind_irq(7, NotificationId::new(1)));
    assert!(w.k.bind_irq(9, NotificationId::new(2)));
    assert!(w.k.bind_irq(7, NotificationId::new(3)));
    assert_eq!(w.k.notification_for_irq(7), Some(NotificationId::new(3)));
    assert_eq!(w.k.notification_for_irq(9), Some(NotificationId::new(2)));
    for line in 100..162 {
        assert!(w.k.bind_irq(line, NotificationId::new(0)));
    }
    assert!(!w.k.bind_irq(500, NotificationId::new(0)));
}

#[test]
fn a_mapping_needs_every_right_it_gives() {
    let mut w = World::new();
    let caller = w.root.thread;
    let pt = w.retype(KernelObjectType::PageTable);
    let frame = w.retype(KernelObjectType::Untyped);
    let cs = w.root.cap_space;
    let table = w.k.cap_space_mut(cs).unwrap();
    let readable = table.derive_child(frame, CapabilityRights::ro(), 0).unwrap();
    let data = table.derive_child(frame, CapabilityRights::rw(), 0).unwrap();
    let code = table.derive_child(frame, CapabilityRights::rx(), 0).unwrap();
    let mut vaddr = 0x4000_0000;
    let mut allowed = |frame: CapId, writable: bool, executable: bool| {
        vaddr += PAGE_SIZE;
        let perms =
            MapPermissions { readable: true, writable, executable, device_uncached: false };
        match w.dispatch(caller, SyscallOp::MapPage { page_table: pt, frame, vaddr, perms }) {
            Ok(SyscallReturn::Mapped) => true,
            Err(SyscallError::InsufficientRights) => false,
            other => panic!("unexpected {other:?}"),
        }
    };
    let mut access = |frame: CapId| {
        [
            allowed(frame, false, false),
            allowed(frame, true, false),
            allowed(frame, false, true),
            allowed(frame, true, true),
        ]
    };
    assert_eq!(access(readable), [true, false, false, false]);
    assert_eq!(access(data), [true, true, false, false]);
    assert_eq!(access(code), [true, false, true, false]);
    assert_eq!(access(frame), [true, true, true, true]);
}

#[test]
fn a_waiting_thread_is_blocked_until_it_is_signalled() {
    let mut w = World::new();
    let n = w.retype(KernelObjectType::Notification);
    let (first, second, idle) = (w.thread(), w.thread(), w.thread());
    for t in [first, second] {
        let r = w.dispatch(t, SyscallOp::Wait { notification: n });
        assert_eq!(r, Ok(SyscallReturn::Blocked));
        assert_eq!(w.k.tcb(t).unwrap().state, ThreadState::BlockedOnNotification);
    }
    // Whoever has exited meanwhile stays dead.
    w.k.mark_exited(second, ThreadExit::Clean { code: 0 });
    let op = SyscallOp::Signal { notification: n, bits: 1 };
    assert_eq!(w.dispatch(w.root.thread, op), Ok(SyscallReturn::Done));
    assert_eq!(w.k.tcb(first).unwrap().state, ThreadState::Runnable);
    assert_eq!(w.k.tcb(second).unwrap().state, ThreadState::Exited);
    assert_eq!(w.k.tcb(idle).unwrap().state, ThreadState::Inactive);
    assert_eq!(w.sched.state(first), Some(RunState::Ready));
    // An interrupt wakes threads one by one.
    let _ = w.dispatch(first, SyscallOp::Wait { notification: n });
    w.k.wake_blocked(first);
    assert_eq!(w.k.tcb(first).unwrap().state, ThreadState::Runnable);
    w.k.wake_blocked(idle);
    assert_eq!(w.k.tcb(idle).unwrap().state, ThreadState::Inactive);
}

/// Every capability names an object that exists, and every thread's spaces exist.
fn assert_nothing_dangles(k: &KernelState<4>) {
    for s in 0..64 {
        let Some(table) = k.cap_space(CapSpaceId::new(s)) else {
            continue;
        };
        for c in 0..256 {
            let Some(cap) = table.lookup(CapId::new(c)) else {
                continue;
            };
            let id = cap.object.id.as_u32();
            assert!(match cap.object.kind {
                KernelObjectKind::UntypedMemory => k.untyped(UntypedId::new(id)).is_some(),
                KernelObjectKind::PageTable => k.addr_space(PageTableId::new(id)).is_some(),
                KernelObjectKind::ThreadControlBlock => k.tcb(ThreadId::new(id)).is_some(),
                KernelObjectKind::Endpoint => k.endpoint(EndpointId::new(id)).is_some(),
                KernelObjectKind::Notification => {
                    k.notification(NotificationId::new(id)).is_some()
                }
                KernelObjectKind::CapabilitySpace => k.cap_space(CapSpaceId::new(id)).is_some(),
                KernelObjectKind::SharedRegion => {
                    k.shared_region(SharedRegionId::new(id)).is_some()
                }
                KernelObjectKind::MmioRegion => k.mmio_region(MmioRegionId::new(id)).is_some(),
            });
        }
    }
    for t in 0..64 {
        if let Some(t) = k.tcb(ThreadId::new(t)) {
            assert!(k.cap_space(t.cap_space).is_some());
            assert!(k.addr_space(t.addr_space).is_some());
        }
    }
}

#[test]
fn nothing_dangles_after_any_retype() {
    let mut w = World::with(&[block_device(), network_device()], 64);
    assert_nothing_dangles(&w.k);
    let types = [
        KernelObjectType::Endpoint,
        KernelObjectType::Notification,
        KernelObjectType::PageTable,
        KernelObjectType::CapabilitySpace,
        KernelObjectType::ThreadControlBlock,
        KernelObjectType::Untyped,
        KernelObjectType::SharedRegion,
    ];
    for target_type in types {
        let first = w.retype(target_type);
        let op = SyscallOp::Retype { untyped: CapId::new(0), target_type, count: 500 };
        // A shared region is one object; of the others there is no room for so many.
        let r = w.dispatch(w.root.thread, op);
        assert_eq!(r.is_ok(), target_type == KernelObjectType::SharedRegion);
        assert_nothing_dangles(&w.k);
        let _ = w.dispatch(w.root.thread, SyscallOp::CapRevoke { cap: first });
        assert_nothing_dangles(&w.k);
    }
}

#[test]
fn every_call_needs_its_rights() {
    let mut w = World::with(&[block_device()], 32);
    let caller = w.root.thread;
    let ep = w.retype(KernelObjectType::Endpoint);
    let n = w.retype(KernelObjectType::Notification);
    let table = w.k.cap_space_mut(w.root.cap_space).unwrap();
    let write = CapabilityRights::write();
    let read = CapabilityRights::read();
    let ep_w = table.derive_child(ep, write, 0).unwrap();
    let ep_r = table.derive_child(ep, read, 0).unwrap();
    let ep_rw = table.derive_child(ep, CapabilityRights::rw(), 0).unwrap();
    let n_w = table.derive_child(n, write, 0).unwrap();
    let n_r = table.derive_child(n, read, 0).unwrap();
    let mmio_r = table.derive_child(w.root.mmio_blk_cap, read, 0).unwrap();
    let msg = SmallMessage::new(1);
    let turned_away = [
        SyscallOp::Send { endpoint: ep_r, msg },
        SyscallOp::Call { endpoint: ep_r, msg },
        // A call also receives.
        SyscallOp::Call { endpoint: ep_w, msg },
        SyscallOp::Recv { endpoint: ep_w },
        SyscallOp::Signal { notification: n_r, bits: 1 },
        SyscallOp::Wait { notification: n_w },
        SyscallOp::Poll { notification: n_w },
        SyscallOp::CapRevoke { cap: ep_rw },
        SyscallOp::IrqBind { mmio: mmio_r, notification: n },
        SyscallOp::IrqBind { mmio: w.root.mmio_blk_cap, notification: n_r },
    ];
    for op in turned_away {
        assert_eq!(w.dispatch(caller, op), Err(SyscallError::InsufficientRights), "{op:?}");
    }
    let callee = w.thread();
    let server = w.dispatch(callee, SyscallOp::Recv { endpoint: ep_r });
    assert!(matches!(server, Ok(SyscallReturn::Reschedule { .. })));
    let call = w.dispatch(caller, SyscallOp::Call { endpoint: ep_rw, msg });
    assert_eq!(call, Ok(SyscallReturn::Reschedule { next: Some(callee) }));
}

#[test]
fn whoever_has_exited_stays_so() {
    let mut w = World::new();
    let ep = w.retype(KernelObjectType::Endpoint);
    let (receiver, sender) = (w.thread(), w.thread());
    w.dispatch(receiver, SyscallOp::Recv { endpoint: ep }).unwrap();
    w.k.mark_exited(receiver, ThreadExit::Faulted { cause: 7 });
    // The reason that is recorded first stays.
    w.k.mark_exited(receiver, ThreadExit::Unknown);
    w.k.terminate_thread(receiver, ThreadExit::Clean { code: 0 }, None);
    let op = SyscallOp::Send { endpoint: ep, msg: SmallMessage::new(9) };
    assert_eq!(w.dispatch(sender, op), Ok(SyscallReturn::Delivered { woke: receiver }));
    let t = w.k.tcb(receiver).unwrap();
    assert_eq!(t.state, ThreadState::Exited);
    assert_eq!(t.exit, Some(ThreadExit::Faulted { cause: 7 }));
    assert!(t.pending_msg.is_none() && t.pending_from.is_none());
    // Nor does a queued message of a dead sender bring that one back.
    w.dispatch(sender, op).unwrap();
    assert_eq!(w.k.tcb(sender).unwrap().state, ThreadState::BlockedOnSend);
    w.k.mark_exited(sender, ThreadExit::Clean { code: 0 });
    let other = w.thread();
    w.dispatch(other, SyscallOp::Recv { endpoint: ep }).unwrap();
    assert_eq!(w.k.tcb(sender).unwrap().state, ThreadState::Exited);
    assert!(!w.k.mark_runnable(ThreadId::new(60), 1));
    assert!(w.k.mark_runnable(sender, 1));
    assert_eq!(w.k.tcb(sender).unwrap().state, ThreadState::Exited);
}

#[test]
fn an_interrupt_wakes_whoever_waits() {
    let mut w = World::new();
    let n = w.retype(KernelObjectType::Notification);
    let (first, second, dead) = (w.thread(), w.thread(), w.thread());
    for t in [first, second, dead] {
        w.dispatch(t, SyscallOp::Wait { notification: n }).unwrap();
    }
    w.k.mark_exited(dead, ThreadExit::Unknown);
    let mut woken = Woken { threads: [ThreadId::new(0); NOTIF_WAITERS], len: 2 };
    woken.threads[0] = second;
    woken.threads[1] = dead;
    woken.threads[2] = first;
    w.k.irq_signalled(woken);
    // The third is beyond what was woken.
    assert_eq!(w.k.tcb(first).unwrap().state, ThreadState::BlockedOnNotification);
    assert_eq!(w.k.tcb(second).unwrap().state, ThreadState::Runnable);
    assert_eq!(w.k.tcb(dead).unwrap().state, ThreadState::Exited);
}
