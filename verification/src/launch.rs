//! Launching the system's services and drivers: each is started as an isolated process and
//! handed the capabilities and pages that it is to work with.
//!
//! What a launch does is written down as a list of instructions for each service. Working
//! through the list stops at every instruction that needs a system call, memory or the
//! hardware, and goes on with the reply.

use crate::capability::Capability;
use crate::cdt::{
    derive_child_cross_space, derived_capability, CapEntry, GlobalCapId,
};
use crate::config::{NO_CAP, PAGE_SIZE};
use crate::handover::{switchable, Returned};
use crate::ids::{CapId, CapSpaceId, MmioRegionId, SharedRegionId, ThreadId};
use crate::objects::{KernelObjectType, MmioRegionDescriptor};
use crate::paging::USER_DATA;
use crate::pci_wire::KERNEL_RW;
use crate::rights::{CapabilityRights, READ_BIT, WRITE_BIT};
use crate::state::{slot, KernelState, KernelView};
use crate::supervise::retired;
use crate::syscall::{SyscallOp, SyscallReturn};
use crate::tcb::ThreadExit;
use vstd::prelude::*;

verus! {

/// Length of a service's stack in bytes.
pub const SERVICE_STACK_LEN: usize = 65536;

/// Virtual address of the file system's stack.
pub const FS_STACK_VMA: usize = 0xC040_0000;

/// Where the file system sees its message page.
pub const FS_SHARED_VA: usize = 0xD800_0000;

/// Where the file system sees its data page.
pub const FS_DATA_VA: usize = 0xD810_0000;

/// The slot of the data page in the file system's own capability space.
pub const FS_DATA_SHARED_CAP_SLOT: u32 = 1;

/// Virtual address of the compositor's stack.
pub const COMPOSITOR_STACK_VMA: usize = 0xC050_0000;

/// Where the compositor sees its message page.
pub const COMPOSITOR_SHARED_VA: usize = 0xD840_0000;

/// Where the compositor sees the frame buffer.
pub const COMPOSITOR_FB_VA: usize = 0xD850_0000;

/// Where the compositor sees the page that it confirms frames in.
pub const COMPOSITOR_CONFIRM_VA: usize = 0xD860_0000;

/// Virtual address of the memory manager's stack.
pub const MM_STACK_VMA: usize = 0xC0B0_0000;

/// Where the memory manager sees its message page.
pub const MM_SHARED_VA: usize = 0xD870_0000;

/// Virtual address of the block driver's stack.
pub const DRV_STACK_VMA: usize = 0xC080_0000;

/// Where the block driver sees its device.
pub const DRV_MMIO_VA: usize = 0xD820_0000;

/// Where the block driver sees its queue.
pub const DRV_QUEUE_VA: usize = 0xD830_0000;

/// Virtual address of the network driver's stack.
pub const DRV_NET_STACK_VMA: usize = 0xC090_0000;

/// Where the network driver sees its device.
pub const DRV_NET_MMIO_VA: usize = 0xD840_0000;

/// Where the network driver sees its receive queue.
pub const DRV_NET_RX_VA: usize = 0xD850_0000;

/// Where the network driver sees its transmit queue.
pub const DRV_NET_TX_VA: usize = 0xD860_0000;

/// Virtual address of the network service's stack.
pub const NETSTACK_STACK_VMA: usize = 0xC0A0_0000;

/// Where the network service sees the driver's receive queue.
pub const NETSTACK_DRV_RX_VA: usize = 0xD870_0000;

/// Where the network service sees the driver's transmit queue.
pub const NETSTACK_DRV_TX_VA: usize = 0xD880_0000;

/// Where the network service sees its status page.
pub const NETSTACK_STATUS_VA: usize = 0xD890_0000;

/// Where the network service sees the message page for direct access.
pub const NETSTACK_BYPASS_SHARED_VA: usize = 0xD8A0_0000;

/// The rights of a service on what it is handed.
pub const SERVICE_RIGHTS: u32 = READ_BIT | WRITE_BIT;

/// No launch has more instructions than this.
pub const MAX_PROGRAM: usize = 32;

/// A service or driver.
#[derive(Debug, Clone, Copy, PartialEq, Eq, Structural)]
pub enum Service {
    /// The file system.
    Fs,
    /// The compositor.
    Compositor,
    /// The memory manager.
    Mm,
    /// The block driver.
    Block,
    /// The network driver.
    Net,
    /// The network service.
    Netstack,
}

/// The pages that a launch remembers, in the order in which they are set up.
#[derive(Debug, Clone, Copy, PartialEq, Eq, Structural)]
pub enum PageSlot {
    /// The first.
    First,
    /// The second.
    Second,
    /// The third.
    Third,
}

/// An instruction of a launch.
///
/// Instructions work on a current capability and a current page.
#[derive(Debug, Clone, Copy, PartialEq, Eq, Structural)]
pub enum LaunchOp {
    /// Look the device up that the root task was given a capability to.
    FindDevice {
        /// Whether it is the network device, not the block device.
        net: bool,
    },
    /// Create an object and make its capability the current one.
    Create(KernelObjectType),
    /// Remember the current capability as the service's endpoint.
    KeepEndpoint,
    /// Make the driver's endpoint the current capability.
    UseDriverEndpoint,
    /// Start the process.
    Start {
        /// Virtual address of its stack.
        stack_vma: usize,
    },
    /// Copy the current capability into the process's capability space.
    Grant,
    /// Make a new, zeroed page the current one.
    NewPage,
    /// Make the page behind the current capability, a shared region, the current one.
    ResolveRegion,
    /// Zero the current page.
    ClearPage,
    /// Write the current page's physical address at its start.
    WriteHeader,
    /// Make the device's window the current page.
    UseDevicePage,
    /// Remember the device's window as one that the kernel acknowledges interrupts in.
    KeepDevice,
    /// Make a page of the network driver the current one.
    UseDriverPage {
        /// Whether it is the transmit queue, not the receive queue.
        tx: bool,
    },
    /// Map the current page for the process.
    MapPage {
        /// Virtual address.
        va: usize,
    },
    /// Remember the current page.
    Keep(PageSlot),
    /// Make a remembered page the current one.
    Use(PageSlot),
    /// Skip the next instructions if the device is on the PCI bus.
    SkipIfPci(usize),
    /// Skip the next instructions unless the device is on the PCI bus.
    SkipUnlessPci(usize),
    /// Wire the device to the driver, whose information block is in the current page.
    Wire {
        /// Whether it is the network device.
        net: bool,
    },
    /// Have the device's interrupt signal the notification behind the current capability.
    BindIrq,
    /// Make sure that the caller has an address space.
    NeedCallerSpace,
    /// Map a register window of the network device, if it has one.
    MapWindow {
        /// Whether it is the doorbells, not the interrupt status.
        notify: bool,
        /// Whether it is mapped for the caller, not for the process.
        caller: bool,
    },
    /// Hand the CPU to the process.
    HandOff,
}

/// The instructions of the file system's launch.
pub open spec fn fs_program() -> Seq<LaunchOp> {
    seq![
        LaunchOp::Create(KernelObjectType::Endpoint),
        LaunchOp::KeepEndpoint,
        LaunchOp::Start { stack_vma: FS_STACK_VMA },
        LaunchOp::Grant,
        LaunchOp::NewPage,
        LaunchOp::MapPage { va: FS_SHARED_VA },
        LaunchOp::Keep(PageSlot::First),
        LaunchOp::Create(KernelObjectType::SharedRegion),
        LaunchOp::ResolveRegion,
        LaunchOp::Grant,
        LaunchOp::MapPage { va: FS_DATA_VA },
        LaunchOp::Keep(PageSlot::Second),
        LaunchOp::HandOff,
    ]
}

/// The instructions of the compositor's launch.
pub open spec fn compositor_program() -> Seq<LaunchOp> {
    seq![
        LaunchOp::Create(KernelObjectType::Endpoint),
        LaunchOp::KeepEndpoint,
        LaunchOp::Start { stack_vma: COMPOSITOR_STACK_VMA },
        LaunchOp::Grant,
        LaunchOp::NewPage,
        LaunchOp::MapPage { va: COMPOSITOR_SHARED_VA },
        LaunchOp::Keep(PageSlot::First),
        LaunchOp::Create(KernelObjectType::SharedRegion),
        LaunchOp::ResolveRegion,
        LaunchOp::Grant,
        LaunchOp::MapPage { va: COMPOSITOR_FB_VA },
        LaunchOp::Keep(PageSlot::Second),
        LaunchOp::Create(KernelObjectType::SharedRegion),
        LaunchOp::ResolveRegion,
        LaunchOp::ClearPage,
        LaunchOp::MapPage { va: COMPOSITOR_CONFIRM_VA },
        LaunchOp::Keep(PageSlot::Third),
        LaunchOp::HandOff,
    ]
}

/// The instructions of the memory manager's launch.
pub open spec fn mm_program() -> Seq<LaunchOp> {
    seq![
        LaunchOp::Create(KernelObjectType::Endpoint),
        LaunchOp::KeepEndpoint,
        LaunchOp::Start { stack_vma: MM_STACK_VMA },
        LaunchOp::Grant,
        LaunchOp::NewPage,
        LaunchOp::MapPage { va: MM_SHARED_VA },
        LaunchOp::Keep(PageSlot::First),
        LaunchOp::HandOff,
    ]
}

/// The instructions of the block driver's launch.
pub open spec fn block_program() -> Seq<LaunchOp> {
    seq![
        LaunchOp::FindDevice { net: false },
        LaunchOp::SkipIfPci(1),
        LaunchOp::KeepDevice,
        LaunchOp::Create(KernelObjectType::Endpoint),
        LaunchOp::KeepEndpoint,
        LaunchOp::Start { stack_vma: DRV_STACK_VMA },
        LaunchOp::Grant,
        LaunchOp::SkipIfPci(2),
        LaunchOp::UseDevicePage,
        LaunchOp::MapPage { va: DRV_MMIO_VA },
        LaunchOp::Create(KernelObjectType::SharedRegion),
        LaunchOp::ResolveRegion,
        LaunchOp::ClearPage,
        LaunchOp::WriteHeader,
        LaunchOp::SkipUnlessPci(1),
        LaunchOp::Wire { net: false },
        LaunchOp::MapPage { va: DRV_QUEUE_VA },
        LaunchOp::Keep(PageSlot::First),
        LaunchOp::Create(KernelObjectType::Notification),
        LaunchOp::BindIrq,
        LaunchOp::Grant,
        LaunchOp::HandOff,
    ]
}

/// The instructions of the network driver's launch.
pub open spec fn net_program() -> Seq<LaunchOp> {
    seq![
        LaunchOp::FindDevice { net: true },
        LaunchOp::Create(KernelObjectType::Endpoint),
        LaunchOp::KeepEndpoint,
        LaunchOp::Start { stack_vma: DRV_NET_STACK_VMA },
        LaunchOp::Grant,
        LaunchOp::SkipIfPci(3),
        LaunchOp::UseDevicePage,
        LaunchOp::MapPage { va: DRV_NET_MMIO_VA },
        LaunchOp::KeepDevice,
        LaunchOp::Create(KernelObjectType::SharedRegion),
        LaunchOp::ResolveRegion,
        LaunchOp::ClearPage,
        LaunchOp::WriteHeader,
        LaunchOp::MapPage { va: DRV_NET_RX_VA },
        LaunchOp::Keep(PageSlot::First),
        LaunchOp::Create(KernelObjectType::SharedRegion),
        LaunchOp::ResolveRegion,
        LaunchOp::ClearPage,
        LaunchOp::WriteHeader,
        LaunchOp::MapPage { va: DRV_NET_TX_VA },
        LaunchOp::Keep(PageSlot::Second),
        LaunchOp::SkipUnlessPci(2),
        LaunchOp::Use(PageSlot::First),
        LaunchOp::Wire { net: true },
        LaunchOp::Create(KernelObjectType::Notification),
        LaunchOp::BindIrq,
        LaunchOp::Grant,
        LaunchOp::HandOff,
    ]
}

/// The instructions of the network service's launch.
pub open spec fn netstack_program() -> Seq<LaunchOp> {
    seq![
        LaunchOp::Start { stack_vma: NETSTACK_STACK_VMA },
        LaunchOp::UseDriverEndpoint,
        LaunchOp::Grant,
        LaunchOp::Create(KernelObjectType::Endpoint),
        LaunchOp::Grant,
        LaunchOp::KeepEndpoint,
        LaunchOp::UseDriverPage { tx: false },
        LaunchOp::MapPage { va: NETSTACK_DRV_RX_VA },
        LaunchOp::UseDriverPage { tx: true },
        LaunchOp::MapPage { va: NETSTACK_DRV_TX_VA },
        LaunchOp::NewPage,
        LaunchOp::MapPage { va: NETSTACK_BYPASS_SHARED_VA },
        LaunchOp::Keep(PageSlot::First),
        LaunchOp::Create(KernelObjectType::SharedRegion),
        LaunchOp::ResolveRegion,
        LaunchOp::ClearPage,
        LaunchOp::MapPage { va: NETSTACK_STATUS_VA },
        LaunchOp::Keep(PageSlot::Second),
        LaunchOp::NeedCallerSpace,
        LaunchOp::MapWindow { notify: false, caller: false },
        LaunchOp::MapWindow { notify: false, caller: true },
        LaunchOp::MapWindow { notify: true, caller: false },
        LaunchOp::MapWindow { notify: true, caller: true },
        LaunchOp::HandOff,
    ]
}

/// The instructions of a service's launch.
pub open spec fn program(service: Service) -> Seq<LaunchOp> {
    match service {
        Service::Fs => fs_program(),
        Service::Compositor => compositor_program(),
        Service::Mm => mm_program(),
        Service::Block => block_program(),
        Service::Net => net_program(),
        Service::Netstack => netstack_program(),
    }
}

/// The instruction at `pc`. Behind the last one the CPU is handed over.
pub open spec fn op_at(service: Service, pc: int) -> LaunchOp {
    if 0 <= pc < program(service).len() {
        program(service)[pc]
    } else {
        LaunchOp::HandOff
    }
}

/// What a launch asks for.
#[derive(Debug, Clone, Copy, PartialEq, Eq)]
pub enum LaunchRequest {
    /// Make a system call on behalf of the caller. Reply: `Returned`.
    Syscall(SyscallOp),
    /// Start the process from its image. Reply: `Started`.
    StartProcess {
        /// Virtual address of its stack.
        stack_vma: usize,
        /// Length of its stack in bytes.
        stack_len: usize,
    },
    /// Reserve a page and zero it. Reply: `Page`.
    NewPage,
    /// Zero a page. Reply: `Done`.
    ClearPage {
        /// Its physical address.
        phys: usize,
    },
    /// Write a word. Reply: `Done`.
    WriteWord {
        /// Its physical address.
        phys: usize,
        /// The word.
        word: u64,
    },
    /// Map a page, with two zeroed scratch frames for the page tables, and discard stale
    /// translations if the address space is the caller's. Reply: `Mapped`.
    MapPage {
        /// Physical address of the root page table.
        root_pt: usize,
        /// Virtual address.
        va: usize,
        /// Physical address.
        phys: usize,
        /// Permission bits.
        perm_bits: usize,
    },
    /// Wire a device on the PCI bus to its driver. Reply: `Wired`.
    Wire {
        /// Whether it is a network device.
        net: bool,
        /// Physical address of the driver's root page table.
        driver_root_pt: usize,
        /// Physical address of the caller's root page table.
        caller_root_pt: usize,
        /// Physical address of the device's configuration space.
        config_phys: u64,
        /// Physical address of the page with the driver's information block.
        region_phys: usize,
        /// The device's interrupt line.
        irq: u32,
    },
}

/// The reply to a request.
#[derive(Debug, Clone, Copy, PartialEq, Eq)]
pub enum LaunchReply {
    /// How the system call ended.
    Returned(Returned),
    /// The process, if it could be started.
    Started(Option<(ThreadId, CapSpaceId)>),
    /// The page, if there was one.
    Page(Option<usize>),
    /// It is done.
    Done,
    /// Whether the page is mapped.
    Mapped(bool),
    /// Whether the device is wired.
    Wired(bool),
}

/// What a launch came to.
#[derive(Debug, Clone, Copy, PartialEq, Eq, Structural)]
pub struct Launched {
    /// The process's thread, which the scheduler is to put on the CPU, once the caller is made
    /// ready.
    pub thread: ThreadId,
    /// Whether the contexts of the caller and the thread can be switched.
    pub switch: bool,
}

/// How a step ended.
#[derive(Debug, Clone, Copy, PartialEq, Eq)]
pub enum LaunchStep {
    /// With a request.
    Ask(LaunchRequest),
    /// With the end of the launch, `None` if it failed.
    Finished(Option<Launched>),
}

/// What the process of a service consists of.
#[derive(Debug, Clone, Copy, PartialEq, Eq, Structural)]
pub struct ServiceProcess {
    /// Its thread.
    pub thread: ThreadId,
    /// Its capability space.
    pub cap_space: CapSpaceId,
    /// Physical address of its root page table.
    pub root_pt: usize,
}

/// The device of a driver.
#[derive(Debug, Clone, Copy, PartialEq, Eq, Structural)]
pub struct DriverDevice {
    /// The root task's capability to it.
    pub cap: CapId,
    /// Its window and interrupt line.
    pub window: MmioRegionDescriptor,
}

/// A register window of the network device.
#[derive(Debug, Clone, Copy, PartialEq, Eq, Structural)]
pub struct DeviceWindow {
    /// Physical address.
    pub phys: usize,
    /// Where the driver sees it.
    pub va: usize,
}

/// What the network driver's launch leaves for the network service's.
#[derive(Debug, Clone, Copy, PartialEq, Eq, Structural)]
pub struct DriverPages {
    /// The driver's endpoint.
    pub endpoint: CapId,
    /// Physical address of the receive queue.
    pub rx: usize,
    /// Physical address of the transmit queue.
    pub tx: usize,
    /// The interrupt status.
    pub isr: Option<DeviceWindow>,
    /// The doorbells.
    pub notify: Option<DeviceWindow>,
}

/// A launch under way.
#[derive(Debug, Clone, Copy, PartialEq, Eq, Structural)]
pub struct Launch {
    /// The service.
    pub service: Service,
    /// The thread that launches it.
    pub caller: ThreadId,
    /// That thread's capability space.
    pub src: CapSpaceId,
    /// What the network driver left, for the network service.
    pub driver: Option<DriverPages>,
    /// The instruction that is worked on.
    pub pc: usize,
    /// The current capability.
    pub cap: CapId,
    /// The current page.
    pub phys: usize,
    /// The service's endpoint.
    pub endpoint: Option<CapId>,
    /// The process.
    pub process: Option<ServiceProcess>,
    /// The device.
    pub device: Option<DriverDevice>,
    /// Physical address of the device's window, if interrupts are acknowledged in it.
    pub direct: Option<usize>,
    /// The pages that are remembered.
    pub first: Option<usize>,
    /// The second one.
    pub second: Option<usize>,
    /// The third one.
    pub third: Option<usize>,
}

/// How an instruction ends.
pub enum Outcome {
    /// The next instruction follows.
    Next(KernelView, Launch),
    /// A request follows.
    Wait(LaunchRequest),
    /// The launch ends.
    End(Option<Launched>),
}

/// What copying a capability of the space `src`, narrowed to `rights`, into another space does.
pub open spec fn granted_into(
    k: KernelView,
    src: CapSpaceId,
    cap: CapId,
    dst: CapSpaceId,
    rights: CapabilityRights,
) -> (KernelView, Option<CapId>) {
    match (slot(k.spaces, src.0), slot(k.spaces, dst.0)) {
        (Some(from), Some(to)) => match derived_capability(from.get(cap), rights, 0) {
            Ok(copy) => if src != dst && to.free.len() > 0 {
                let entry = CapEntry { cap: copy, parent: Some(GlobalCapId { space: src, cap }) };
                (
                    KernelView {
                        spaces: k.spaces.update(dst.0 as int, Some(to.with_entry(entry))),
                        ..k
                    },
                    Some(to.free[0]),
                )
            } else {
                (k, None)
            },
            Err(_) => (k, None),
        },
        _ => (k, None),
    }
}

/// The capability at `cap` of a capability space.
pub open spec fn cap_in(k: KernelView, cs: CapSpaceId, cap: CapId) -> Option<Capability> {
    match slot(k.spaces, cs.0) {
        Some(table) => match table.get(cap) {
            Some(entry) => Some(entry.cap),
            None => None,
        },
        None => None,
    }
}

/// The physical address of a thread's root page table.
pub open spec fn root_table_of(k: KernelView, thread: ThreadId) -> Option<usize> {
    match slot(k.tcbs, thread.0) {
        Some(t) => match slot(k.addr_spaces, t.addr_space.0) {
            Some(a) => Some(a.root_phys as usize),
            None => None,
        },
        None => None,
    }
}

/// The device that the root task was given a capability to.
pub open spec fn device_found(k: KernelView, src: CapSpaceId, net: bool) -> Option<DriverDevice> {
    let cap = if net {
        k.root.mmio_net_cap
    } else {
        k.root.mmio_blk_cap
    };
    if cap == CapId(NO_CAP) {
        None
    } else {
        match cap_in(k, src, cap) {
            Some(c) => match slot(k.mmio_regions, c.object.id.0) {
                Some(window) => Some(DriverDevice { cap, window }),
                None => None,
            },
            None => None,
        }
    }
}

/// The physical address of the shared region that a capability names.
pub open spec fn region_behind(k: KernelView, src: CapSpaceId, cap: CapId) -> Option<usize> {
    match cap_in(k, src, cap) {
        Some(c) => match slot(k.shared_regions, c.object.id.0) {
            Some(region) => Some(region.phys_base as usize),
            None => None,
        },
        None => None,
    }
}

/// The device is on the PCI bus.
pub open spec fn on_pci(l: Launch) -> bool {
    l.device is Some && l.device->0.window.config_space_base != 0
}

/// The launch with the next instruction, and `skip` more, behind it.
pub open spec fn moved_on(l: Launch, skip: int) -> Launch {
    Launch { pc: (l.pc + 1 + skip) as usize, ..l }
}

/// Goes on if there is a value, fails otherwise.
pub open spec fn next_if<T>(v: Option<T>, k: KernelView, l: spec_fn(T) -> Launch) -> Outcome {
    match v {
        Some(x) => Outcome::Next(k, l(x)),
        None => Outcome::End(None),
    }
}

/// The page that starts at or before an address.
pub open spec fn page_of(addr: usize) -> usize {
    (addr - addr % PAGE_SIZE) as usize
}

/// A register window of the network device, if it has one.
pub open spec fn window_of(l: Launch, notify: bool) -> Option<DeviceWindow> {
    match l.driver {
        Some(d) => if notify {
            d.notify
        } else {
            d.isr
        },
        None => None,
    }
}

/// What the next instruction does.
pub open spec fn executed(k: KernelView, l: Launch) -> Outcome {
    performed(op_at(l.service, l.pc as int), k, l)
}

/// What an instruction does.
#[verifier::opaque]
pub open spec fn performed(op: LaunchOp, k: KernelView, l: Launch) -> Outcome {
    let after = moved_on(l, 0);
    match op {
        LaunchOp::FindDevice { net } => next_if(
            device_found(k, l.src, net),
            k,
            |d: DriverDevice| Launch { device: Some(d), ..after },
        ),
        LaunchOp::Create(target_type) => Outcome::Wait(
            LaunchRequest::Syscall(
                SyscallOp::Retype { untyped: CapId(0), target_type, count: 1 },
            ),
        ),
        LaunchOp::KeepEndpoint => Outcome::Next(k, Launch { endpoint: Some(l.cap), ..after }),
        LaunchOp::UseDriverEndpoint => next_if(
            l.driver,
            k,
            |d: DriverPages| Launch { cap: d.endpoint, ..after },
        ),
        LaunchOp::Start { stack_vma } => Outcome::Wait(
            LaunchRequest::StartProcess { stack_vma, stack_len: SERVICE_STACK_LEN },
        ),
        LaunchOp::Grant => match l.process {
            Some(p) => match granted_into(
                k,
                l.src,
                l.cap,
                p.cap_space,
                CapabilityRights { bits: SERVICE_RIGHTS },
            ) {
                (granted, Some(_)) => Outcome::Next(granted, after),
                (_, None) => Outcome::End(None),
            },
            None => Outcome::End(None),
        },
        LaunchOp::NewPage => Outcome::Wait(LaunchRequest::NewPage),
        LaunchOp::ResolveRegion => next_if(
            region_behind(k, l.src, l.cap),
            k,
            |phys: usize| Launch { phys, ..after },
        ),
        LaunchOp::ClearPage => Outcome::Wait(LaunchRequest::ClearPage { phys: l.phys }),
        LaunchOp::WriteHeader => Outcome::Wait(
            LaunchRequest::WriteWord { phys: l.phys, word: l.phys as u64 },
        ),
        LaunchOp::UseDevicePage => next_if(
            l.device,
            k,
            |d: DriverDevice| Launch { phys: d.window.phys_base as usize, ..after },
        ),
        LaunchOp::KeepDevice => next_if(
            l.device,
            k,
            |d: DriverDevice| Launch { direct: Some(d.window.phys_base as usize), ..after },
        ),
        LaunchOp::UseDriverPage { tx } => next_if(
            l.driver,
            k,
            |d: DriverPages|
                Launch {
                    phys: if tx {
                        d.tx
                    } else {
                        d.rx
                    },
                    ..after
                },
        ),
        LaunchOp::MapPage { va } => match l.process {
            Some(p) => Outcome::Wait(
                LaunchRequest::MapPage {
                    root_pt: p.root_pt,
                    va,
                    phys: l.phys,
                    perm_bits: USER_DATA,
                },
            ),
            None => Outcome::End(None),
        },
        LaunchOp::Keep(page) => Outcome::Next(
            k,
            match page {
                PageSlot::First => Launch { first: Some(l.phys), ..after },
                PageSlot::Second => Launch { second: Some(l.phys), ..after },
                PageSlot::Third => Launch { third: Some(l.phys), ..after },
            },
        ),
        LaunchOp::Use(page) => next_if(
            match page {
                PageSlot::First => l.first,
                PageSlot::Second => l.second,
                PageSlot::Third => l.third,
            },
            k,
            |phys: usize| Launch { phys, ..after },
        ),
        LaunchOp::SkipIfPci(n) => Outcome::Next(
            k,
            if on_pci(l) {
                moved_on(l, n as int)
            } else {
                after
            },
        ),
        LaunchOp::SkipUnlessPci(n) => Outcome::Next(
            k,
            if on_pci(l) {
                after
            } else {
                moved_on(l, n as int)
            },
        ),
        LaunchOp::Wire { net } => match (l.process, l.device, root_table_of(k, l.caller)) {
            (Some(p), Some(d), Some(caller_root_pt)) => Outcome::Wait(
                LaunchRequest::Wire {
                    net,
                    driver_root_pt: p.root_pt,
                    caller_root_pt,
                    config_phys: d.window.config_space_base,
                    region_phys: l.phys,
                    irq: d.window.irq,
                },
            ),
            _ => Outcome::End(None),
        },
        LaunchOp::BindIrq => match l.device {
            Some(d) => Outcome::Wait(
                LaunchRequest::Syscall(SyscallOp::IrqBind { mmio: d.cap, notification: l.cap }),
            ),
            None => Outcome::End(None),
        },
        LaunchOp::NeedCallerSpace => next_if(
            root_table_of(k, l.caller),
            k,
            |root_pt: usize| after,
        ),
        LaunchOp::MapWindow { notify, caller } => match window_of(l, notify) {
            None => Outcome::Next(k, after),
            Some(w) => match if caller {
                root_table_of(k, l.caller)
            } else {
                match l.process {
                    Some(p) => Some(p.root_pt),
                    None => None,
                }
            } {
                Some(root_pt) => Outcome::Wait(
                    LaunchRequest::MapPage {
                        root_pt,
                        va: page_of(w.va),
                        phys: page_of(w.phys),
                        perm_bits: KERNEL_RW,
                    },
                ),
                None => Outcome::End(None),
            },
        },
        LaunchOp::HandOff => Outcome::End(
            match l.process {
                Some(p) => Some(
                    Launched { thread: p.thread, switch: switchable(k, l.caller, p.thread) },
                ),
                None => None,
            },
        ),
    }
}

/// An instruction changes nothing in the kernel unless it hands a capability to the process, and
/// never changes which process is launched.
pub proof fn lemma_only_grants_change_the_kernel(op: LaunchOp, k: KernelView, l: Launch)
    ensures
        performed(op, k, l) matches Outcome::Next(k1, l1) ==> {
            let handed = granted_into(
                k,
                l.src,
                l.cap,
                l.process->0.cap_space,
                CapabilityRights { bits: SERVICE_RIGHTS },
            );
            &&& l1.process == l.process
            &&& op is Grant ==> l.process is Some && k1 == handed.0 && handed.1 is Some
            &&& !(op is Grant) ==> k1 == k
        },
{
    reveal(performed);
}

/// How many instructions there are from the next one on.
pub open spec fn instructions_left(l: Launch) -> nat {
    let all = program(l.service).len();
    if l.pc < all {
        (all - l.pc) as nat
    } else {
        0
    }
}

/// What working through the instructions comes to, up to the next request or the end.
pub open spec fn ran(k: KernelView, l: Launch) -> (KernelView, Launch, LaunchStep)
    decreases instructions_left(l),
{
    match executed(k, l) {
        Outcome::Next(k1, l1) => if l.pc < l1.pc && l.service == l1.service && l.pc < program(
            l.service,
        ).len() {
            ran(k1, l1)
        } else {
            (k, l, LaunchStep::Finished(None))
        },
        Outcome::Wait(request) => (k, l, LaunchStep::Ask(request)),
        Outcome::End(end) => (k, l, LaunchStep::Finished(end)),
    }
}

/// The instruction that is worked on waits for this reply.
pub open spec fn launch_reply_fits(l: Launch, reply: LaunchReply) -> bool {
    match op_at(l.service, l.pc as int) {
        LaunchOp::Create(_) | LaunchOp::BindIrq => reply is Returned,
        LaunchOp::Start { .. } => reply is Started,
        LaunchOp::NewPage => reply is Page,
        LaunchOp::ClearPage | LaunchOp::WriteHeader => reply is Done,
        LaunchOp::MapPage { .. } | LaunchOp::MapWindow { .. } => reply is Mapped,
        LaunchOp::Wire { .. } => reply is Wired,
        _ => false,
    }
}

/// The launch after a reply, or `None` if it fails.
pub open spec fn reply_taken(k: KernelView, l: Launch, reply: LaunchReply) -> Option<Launch> {
    let after = moved_on(l, 0);
    match reply {
        LaunchReply::Returned(returned) => if op_at(l.service, l.pc as int) is BindIrq {
            match returned {
                Ok(SyscallReturn::Done) => Some(after),
                _ => None,
            }
        } else {
            match returned {
                Ok(SyscallReturn::NewCaps { cap, .. }) => Some(Launch { cap, ..after }),
                _ => None,
            }
        },
        LaunchReply::Started(started) => match started {
            Some((thread, cap_space)) => match root_table_of(k, thread) {
                Some(root_pt) => Some(
                    Launch {
                        process: Some(ServiceProcess { thread, cap_space, root_pt }),
                        ..after
                    },
                ),
                None => None,
            },
            None => None,
        },
        LaunchReply::Page(page) => match page {
            Some(phys) => Some(Launch { phys, ..after }),
            None => None,
        },
        LaunchReply::Done => Some(after),
        LaunchReply::Mapped(ok) | LaunchReply::Wired(ok) => if ok {
            Some(after)
        } else {
            None
        },
    }
}

/// What follows a reply.
pub open spec fn launch_resumed(k: KernelView, l: Launch, reply: LaunchReply) -> (
    KernelView,
    Launch,
    LaunchStep,
) {
    match reply_taken(k, l, reply) {
        Some(now) => ran(k, now),
        None => (k, l, LaunchStep::Finished(None)),
    }
}

/// A launch at its first instruction.
pub open spec fn launch_at_start(
    service: Service,
    caller: ThreadId,
    src: CapSpaceId,
    driver: Option<DriverPages>,
) -> Launch {
    Launch {
        service,
        caller,
        src,
        driver,
        pc: 0,
        cap: CapId(0),
        phys: 0,
        endpoint: None,
        process: None,
        device: None,
        direct: None,
        first: None,
        second: None,
        third: None,
    }
}

/// What beginning a launch comes to: nothing if there is no such caller.
pub open spec fn launch_begun(
    k: KernelView,
    service: Service,
    caller: ThreadId,
    driver: Option<DriverPages>,
) -> (KernelView, Option<(Launch, LaunchStep)>) {
    match slot(k.tcbs, caller.0) {
        Some(t) => {
            let (after, l, step) = ran(k, launch_at_start(service, caller, t.cap_space, driver));
            (after, Some((l, step)))
        },
        None => (k, None),
    }
}

/// What beginning the launch of the network service comes to: two threads are retired before.
pub open spec fn netstack_begun(
    k: KernelView,
    caller: ThreadId,
    driver: DriverPages,
    server: Option<ThreadId>,
    second_process: Option<ThreadId>,
) -> (KernelView, Option<(Launch, LaunchStep)>) {
    launch_begun(
        retired(retired(k, server), second_process),
        Service::Netstack,
        caller,
        Some(driver),
    )
}

/// An instruction that moves on is one of few, and skips few.
pub open spec fn is_short(op: LaunchOp, pc: int) -> bool {
    &&& !(op is HandOff) ==> pc < MAX_PROGRAM
    &&& op matches LaunchOp::SkipIfPci(n) ==> n <= 3
    &&& op matches LaunchOp::SkipUnlessPci(n) ==> n <= 3
}

/// The instruction at `pc`.
fn fs_op(pc: usize) -> (op: LaunchOp)
    ensures
        op == op_at(Service::Fs, pc as int),
        is_short(op, pc as int),
{
    match pc {
        0 => LaunchOp::Create(KernelObjectType::Endpoint),
        1 => LaunchOp::KeepEndpoint,
        2 => LaunchOp::Start { stack_vma: FS_STACK_VMA },
        3 => LaunchOp::Grant,
        4 => LaunchOp::NewPage,
        5 => LaunchOp::MapPage { va: FS_SHARED_VA },
        6 => LaunchOp::Keep(PageSlot::First),
        7 => LaunchOp::Create(KernelObjectType::SharedRegion),
        8 => LaunchOp::ResolveRegion,
        9 => LaunchOp::Grant,
        10 => LaunchOp::MapPage { va: FS_DATA_VA },
        11 => LaunchOp::Keep(PageSlot::Second),
        _ => LaunchOp::HandOff,
    }
}

/// The instruction at `pc`.
fn compositor_op(pc: usize) -> (op: LaunchOp)
    ensures
        op == op_at(Service::Compositor, pc as int),
        is_short(op, pc as int),
{
    match pc {
        0 => LaunchOp::Create(KernelObjectType::Endpoint),
        1 => LaunchOp::KeepEndpoint,
        2 => LaunchOp::Start { stack_vma: COMPOSITOR_STACK_VMA },
        3 => LaunchOp::Grant,
        4 => LaunchOp::NewPage,
        5 => LaunchOp::MapPage { va: COMPOSITOR_SHARED_VA },
        6 => LaunchOp::Keep(PageSlot::First),
        7 => LaunchOp::Create(KernelObjectType::SharedRegion),
        8 => LaunchOp::ResolveRegion,
        9 => LaunchOp::Grant,
        10 => LaunchOp::MapPage { va: COMPOSITOR_FB_VA },
        11 => LaunchOp::Keep(PageSlot::Second),
        12 => LaunchOp::Create(KernelObjectType::SharedRegion),
        13 => LaunchOp::ResolveRegion,
        14 => LaunchOp::ClearPage,
        15 => LaunchOp::MapPage { va: COMPOSITOR_CONFIRM_VA },
        16 => LaunchOp::Keep(PageSlot::Third),
        _ => LaunchOp::HandOff,
    }
}

/// The instruction at `pc`.
fn mm_op(pc: usize) -> (op: LaunchOp)
    ensures
        op == op_at(Service::Mm, pc as int),
        is_short(op, pc as int),
{
    match pc {
        0 => LaunchOp::Create(KernelObjectType::Endpoint),
        1 => LaunchOp::KeepEndpoint,
        2 => LaunchOp::Start { stack_vma: MM_STACK_VMA },
        3 => LaunchOp::Grant,
        4 => LaunchOp::NewPage,
        5 => LaunchOp::MapPage { va: MM_SHARED_VA },
        6 => LaunchOp::Keep(PageSlot::First),
        _ => LaunchOp::HandOff,
    }
}

/// The instruction at `pc`.
fn block_op(pc: usize) -> (op: LaunchOp)
    ensures
        op == op_at(Service::Block, pc as int),
        is_short(op, pc as int),
{
    match pc {
        0 => LaunchOp::FindDevice { net: false },
        1 => LaunchOp::SkipIfPci(1),
        2 => LaunchOp::KeepDevice,
        3 => LaunchOp::Create(KernelObjectType::Endpoint),
        4 => LaunchOp::KeepEndpoint,
        5 => LaunchOp::Start { stack_vma: DRV_STACK_VMA },
        6 => LaunchOp::Grant,
        7 => LaunchOp::SkipIfPci(2),
        8 => LaunchOp::UseDevicePage,
        9 => LaunchOp::MapPage { va: DRV_MMIO_VA },
        10 => LaunchOp::Create(KernelObjectType::SharedRegion),
        11 => LaunchOp::ResolveRegion,
        12 => LaunchOp::ClearPage,
        13 => LaunchOp::WriteHeader,
        14 => LaunchOp::SkipUnlessPci(1),
        15 => LaunchOp::Wire { net: false },
        16 => LaunchOp::MapPage { va: DRV_QUEUE_VA },
        17 => LaunchOp::Keep(PageSlot::First),
        18 => LaunchOp::Create(KernelObjectType::Notification),
        19 => LaunchOp::BindIrq,
        20 => LaunchOp::Grant,
        _ => LaunchOp::HandOff,
    }
}

/// The instruction at `pc`.
fn net_op(pc: usize) -> (op: LaunchOp)
    ensures
        op == op_at(Service::Net, pc as int),
        is_short(op, pc as int),
{
    match pc {
        0 => LaunchOp::FindDevice { net: true },
        1 => LaunchOp::Create(KernelObjectType::Endpoint),
        2 => LaunchOp::KeepEndpoint,
        3 => LaunchOp::Start { stack_vma: DRV_NET_STACK_VMA },
        4 => LaunchOp::Grant,
        5 => LaunchOp::SkipIfPci(3),
        6 => LaunchOp::UseDevicePage,
        7 => LaunchOp::MapPage { va: DRV_NET_MMIO_VA },
        8 => LaunchOp::KeepDevice,
        9 => LaunchOp::Create(KernelObjectType::SharedRegion),
        10 => LaunchOp::ResolveRegion,
        11 => LaunchOp::ClearPage,
        12 => LaunchOp::WriteHeader,
        13 => LaunchOp::MapPage { va: DRV_NET_RX_VA },
        14 => LaunchOp::Keep(PageSlot::First),
        15 => LaunchOp::Create(KernelObjectType::SharedRegion),
        16 => LaunchOp::ResolveRegion,
        17 => LaunchOp::ClearPage,
        18 => LaunchOp::WriteHeader,
        19 => LaunchOp::MapPage { va: DRV_NET_TX_VA },
        20 => LaunchOp::Keep(PageSlot::Second),
        21 => LaunchOp::SkipUnlessPci(2),
        22 => LaunchOp::Use(PageSlot::First),
        23 => LaunchOp::Wire { net: true },
        24 => LaunchOp::Create(KernelObjectType::Notification),
        25 => LaunchOp::BindIrq,
        26 => LaunchOp::Grant,
        _ => LaunchOp::HandOff,
    }
}

/// The instruction at `pc`.
fn netstack_op(pc: usize) -> (op: LaunchOp)
    ensures
        op == op_at(Service::Netstack, pc as int),
        is_short(op, pc as int),
{
    match pc {
        0 => LaunchOp::Start { stack_vma: NETSTACK_STACK_VMA },
        1 => LaunchOp::UseDriverEndpoint,
        2 => LaunchOp::Grant,
        3 => LaunchOp::Create(KernelObjectType::Endpoint),
        4 => LaunchOp::Grant,
        5 => LaunchOp::KeepEndpoint,
        6 => LaunchOp::UseDriverPage { tx: false },
        7 => LaunchOp::MapPage { va: NETSTACK_DRV_RX_VA },
        8 => LaunchOp::UseDriverPage { tx: true },
        9 => LaunchOp::MapPage { va: NETSTACK_DRV_TX_VA },
        10 => LaunchOp::NewPage,
        11 => LaunchOp::MapPage { va: NETSTACK_BYPASS_SHARED_VA },
        12 => LaunchOp::Keep(PageSlot::First),
        13 => LaunchOp::Create(KernelObjectType::SharedRegion),
        14 => LaunchOp::ResolveRegion,
        15 => LaunchOp::ClearPage,
        16 => LaunchOp::MapPage { va: NETSTACK_STATUS_VA },
        17 => LaunchOp::Keep(PageSlot::Second),
        18 => LaunchOp::NeedCallerSpace,
        19 => LaunchOp::MapWindow { notify: false, caller: false },
        20 => LaunchOp::MapWindow { notify: false, caller: true },
        21 => LaunchOp::MapWindow { notify: true, caller: false },
        22 => LaunchOp::MapWindow { notify: true, caller: true },
        _ => LaunchOp::HandOff,
    }
}

/// The instruction at `pc`.
pub fn launch_op(service: Service, pc: usize) -> (op: LaunchOp)
    ensures
        op == op_at(service, pc as int),
        is_short(op, pc as int),
{
    match service {
        Service::Fs => fs_op(pc),
        Service::Compositor => compositor_op(pc),
        Service::Mm => mm_op(pc),
        Service::Block => block_op(pc),
        Service::Net => net_op(pc),
        Service::Netstack => netstack_op(pc),
    }
}

impl<const MMIO: usize> KernelState<MMIO> {
    /// Copies a capability of the space `src`, narrowed to `rights`, into another space. The
    /// copy is derived from the capability, so that revoking the one takes the other back.
    pub fn grant_cap_into(
        &mut self,
        src: CapSpaceId,
        cap: CapId,
        dst: CapSpaceId,
        rights: CapabilityRights,
    ) -> (r: Option<CapId>)
        requires
            old(self).wf(),
        ensures
            final(self).wf(),
            (final(self)@, r) == granted_into(old(self)@, src, cap, dst, rights),
    {
        let ghost before = self@;
        proof {
            self.lemma_view_wf();
            assert(dst.0 < before.spaces.len() ==> before.spaces.update(
                dst.0 as int,
                before.spaces[dst.0 as int],
            ) =~= before.spaces);
        }
        match self.cap_space_pair_mut(src, dst) {
            Some((from, to)) => {
                match derive_child_cross_space(from, src, cap, to, rights, 0) {
                    Ok(id) => Some(id),
                    Err(_) => None,
                }
            },
            None => None,
        }
    }

    fn cap_of(&self, cs: CapSpaceId, cap: CapId) -> (r: Option<Capability>)
        requires
            self.wf(),
        ensures
            r == cap_in(self@, cs, cap),
    {
        match self.cap_space(cs) {
            Some(table) => match table.lookup(cap) {
                Some(c) => Some(*c),
                None => None,
            },
            None => None,
        }
    }

    fn root_table(&self, thread: ThreadId) -> (r: Option<usize>)
        requires
            self.wf(),
        ensures
            r == root_table_of(self@, thread),
    {
        match self.tcb(thread) {
            Some(t) => match self.addr_space(t.addr_space) {
                Some(a) => Some(a.root_phys as usize),
                None => None,
            },
            None => None,
        }
    }

    fn find_device(&self, src: CapSpaceId, net: bool) -> (r: Option<DriverDevice>)
        requires
            self.wf(),
        ensures
            r == device_found(self@, src, net),
    {
        let root = self.root();
        let cap = if net {
            root.mmio_net_cap
        } else {
            root.mmio_blk_cap
        };
        if cap == CapId::new(NO_CAP) {
            return None;
        }
        match self.cap_of(src, cap) {
            Some(c) => match self.mmio_region(MmioRegionId::new(c.object.id.as_u32())) {
                Some(window) => Some(DriverDevice { cap, window: *window }),
                None => None,
            },
            None => None,
        }
    }

    fn resolve_region(&self, src: CapSpaceId, cap: CapId) -> (r: Option<usize>)
        requires
            self.wf(),
        ensures
            r == region_behind(self@, src, cap),
    {
        match self.cap_of(src, cap) {
            Some(c) => match self.shared_region(SharedRegionId::new(c.object.id.as_u32())) {
                Some(region) => Some(region.phys_base as usize),
                None => None,
            },
            None => None,
        }
    }
}

/// The instruction reserves, chooses or maps a page.
spec fn is_paging(op: LaunchOp) -> bool {
    match op {
        LaunchOp::NewPage
        | LaunchOp::ResolveRegion
        | LaunchOp::ClearPage
        | LaunchOp::WriteHeader
        | LaunchOp::UseDevicePage
        | LaunchOp::UseDriverPage { .. }
        | LaunchOp::MapPage { .. }
        | LaunchOp::Keep(_)
        | LaunchOp::Use(_) => true,
        _ => false,
    }
}

/// The instruction is about the device or the driver.
spec fn is_about_device(op: LaunchOp) -> bool {
    match op {
        LaunchOp::FindDevice { .. }
        | LaunchOp::KeepDevice
        | LaunchOp::SkipIfPci(_)
        | LaunchOp::SkipUnlessPci(_)
        | LaunchOp::Wire { .. }
        | LaunchOp::BindIrq
        | LaunchOp::MapWindow { .. } => true,
        _ => false,
    }
}

/// The instruction did what it is to do: `step` is the request or the end that follows, `None`
/// if the next instruction does.
pub open spec fn executed_to(
    outcome: Outcome,
    k: KernelView,
    l: Launch,
    after: KernelView,
    now: Launch,
    step: Option<LaunchStep>,
) -> bool {
    match outcome {
        Outcome::Next(k1, l1) => step is None && after == k1 && now == l1,
        Outcome::Wait(request) => step == Some(LaunchStep::Ask(request)) && after == k && now == l,
        Outcome::End(end) => step == Some(LaunchStep::Finished(end)) && after == k && now == l,
    }
}

impl Launch {
    fn go_on(&mut self, skip: usize) -> (step: Option<LaunchStep>)
        requires
            old(self).pc < MAX_PROGRAM,
            skip <= 3,
        ensures
            *final(self) == moved_on(*old(self), skip as int),
            step is None,
    {
        self.pc = self.pc + 1 + skip;
        None
    }

    /// Makes `phys`, if there is one, the current page.
    fn use_page(&mut self, phys: Option<usize>) -> (step: Option<LaunchStep>)
        requires
            old(self).pc < MAX_PROGRAM,
        ensures
            match phys {
                Some(p) => step is None && *final(self) == (Launch {
                    phys: p,
                    ..moved_on(*old(self), 0)
                }),
                None => step == Some(LaunchStep::Finished(None)) && *final(self) == *old(self),
            },
    {
        match phys {
            Some(p) => {
                self.phys = p;
                self.go_on(0)
            },
            None => Some(LaunchStep::Finished(None)),
        }
    }

    /// Performs an instruction that reserves, chooses or maps a page.
    fn perform_paging<const MMIO: usize>(&mut self, op: LaunchOp, k: &mut KernelState<MMIO>) -> (step:
        Option<LaunchStep>)
        requires
            old(k).wf(),
            is_short(op, old(self).pc as int),
            is_paging(op),
        ensures
            final(k).wf(),
            executed_to(
                performed(op, old(k)@, *old(self)),
                old(k)@,
                *old(self),
                final(k)@,
                *final(self),
                step,
            ),
            step is None ==> !(op is HandOff) && final(self).pc > old(self).pc
                && final(self).service == old(self).service,
    {
        proof {
            reveal(performed);
        }
        match op {
            LaunchOp::NewPage => Some(LaunchStep::Ask(LaunchRequest::NewPage)),
            LaunchOp::ResolveRegion => {
                let phys = k.resolve_region(self.src, self.cap);
                self.use_page(phys)
            },
            LaunchOp::ClearPage => Some(
                LaunchStep::Ask(LaunchRequest::ClearPage { phys: self.phys }),
            ),
            LaunchOp::WriteHeader => Some(
                LaunchStep::Ask(
                    LaunchRequest::WriteWord { phys: self.phys, word: self.phys as u64 },
                ),
            ),
            LaunchOp::UseDevicePage => {
                let phys = match self.device {
                    Some(d) => Some(d.window.phys_base as usize),
                    None => None,
                };
                self.use_page(phys)
            },
            LaunchOp::UseDriverPage { tx } => {
                let phys = match self.driver {
                    Some(d) => Some(
                        if tx {
                            d.tx
                        } else {
                            d.rx
                        },
                    ),
                    None => None,
                };
                self.use_page(phys)
            },
            LaunchOp::MapPage { va } => match self.process {
                Some(p) => Some(
                    LaunchStep::Ask(
                        LaunchRequest::MapPage {
                            root_pt: p.root_pt,
                            va,
                            phys: self.phys,
                            perm_bits: USER_DATA,
                        },
                    ),
                ),
                None => Some(LaunchStep::Finished(None)),
            },
            LaunchOp::Keep(page) => {
                match page {
                    PageSlot::First => {
                        self.first = Some(self.phys);
                    },
                    PageSlot::Second => {
                        self.second = Some(self.phys);
                    },
                    PageSlot::Third => {
                        self.third = Some(self.phys);
                    },
                }
                self.go_on(0)
            },
            LaunchOp::Use(page) => {
                let phys = match page {
                    PageSlot::First => self.first,
                    PageSlot::Second => self.second,
                    PageSlot::Third => self.third,
                };
                self.use_page(phys)
            },
            _ => Some(LaunchStep::Finished(None)),
        }
    }

    /// Performs an instruction about the device or the driver.
    fn perform_device<const MMIO: usize>(&mut self, op: LaunchOp, k: &mut KernelState<MMIO>) -> (step:
        Option<LaunchStep>)
        requires
            old(k).wf(),
            is_short(op, old(self).pc as int),
            is_about_device(op),
        ensures
            final(k).wf(),
            executed_to(
                performed(op, old(k)@, *old(self)),
                old(k)@,
                *old(self),
                final(k)@,
                *final(self),
                step,
            ),
            step is None ==> !(op is HandOff) && final(self).pc > old(self).pc
                && final(self).service == old(self).service,
    {
        proof {
            reveal(performed);
        }
        match op {
            LaunchOp::FindDevice { net } => match k.find_device(self.src, net) {
                Some(d) => {
                    self.device = Some(d);
                    self.go_on(0)
                },
                None => Some(LaunchStep::Finished(None)),
            },
            LaunchOp::KeepDevice => match self.device {
                Some(d) => {
                    self.direct = Some(d.window.phys_base as usize);
                    self.go_on(0)
                },
                None => Some(LaunchStep::Finished(None)),
            },
            LaunchOp::SkipIfPci(n) => {
                let skip: usize = if self.is_on_pci() {
                    n
                } else {
                    0
                };
                self.go_on(skip)
            },
            LaunchOp::SkipUnlessPci(n) => {
                let skip: usize = if self.is_on_pci() {
                    0
                } else {
                    n
                };
                self.go_on(skip)
            },
            LaunchOp::Wire { net } => match (
                self.process,
                self.device,
                k.root_table(self.caller),
            ) {
                (Some(p), Some(d), Some(caller_root_pt)) => Some(
                    LaunchStep::Ask(
                        LaunchRequest::Wire {
                            net,
                            driver_root_pt: p.root_pt,
                            caller_root_pt,
                            config_phys: d.window.config_space_base,
                            region_phys: self.phys,
                            irq: d.window.irq,
                        },
                    ),
                ),
                _ => Some(LaunchStep::Finished(None)),
            },
            LaunchOp::BindIrq => match self.device {
                Some(d) => Some(
                    LaunchStep::Ask(
                        LaunchRequest::Syscall(
                            SyscallOp::IrqBind { mmio: d.cap, notification: self.cap },
                        ),
                    ),
                ),
                None => Some(LaunchStep::Finished(None)),
            },
            LaunchOp::MapWindow { notify, caller } => {
                let window = match self.driver {
                    Some(d) => if notify {
                        d.notify
                    } else {
                        d.isr
                    },
                    None => None,
                };
                let w = match window {
                    Some(w) => w,
                    None => {
                        return self.go_on(0);
                    },
                };
                let root = if caller {
                    k.root_table(self.caller)
                } else {
                    match self.process {
                        Some(p) => Some(p.root_pt),
                        None => None,
                    }
                };
                match root {
                    Some(root_pt) => Some(
                        LaunchStep::Ask(
                            LaunchRequest::MapPage {
                                root_pt,
                                va: w.va - w.va % PAGE_SIZE,
                                phys: w.phys - w.phys % PAGE_SIZE,
                                perm_bits: KERNEL_RW,
                            },
                        ),
                    ),
                    None => Some(LaunchStep::Finished(None)),
                }
            },
            _ => Some(LaunchStep::Finished(None)),
        }
    }

    /// Performs an instruction about the process and its capabilities.
    fn perform_process<const MMIO: usize>(&mut self, op: LaunchOp, k: &mut KernelState<MMIO>) -> (step:
        Option<LaunchStep>)
        requires
            old(k).wf(),
            is_short(op, old(self).pc as int),
            !is_paging(op) && !is_about_device(op),
        ensures
            final(k).wf(),
            executed_to(
                performed(op, old(k)@, *old(self)),
                old(k)@,
                *old(self),
                final(k)@,
                *final(self),
                step,
            ),
            step is None ==> !(op is HandOff) && final(self).pc > old(self).pc
                && final(self).service == old(self).service,
    {
        proof {
            reveal(performed);
        }
        match op {
            LaunchOp::Create(target_type) => Some(
                LaunchStep::Ask(
                    LaunchRequest::Syscall(
                        SyscallOp::Retype { untyped: CapId::new(0), target_type, count: 1 },
                    ),
                ),
            ),
            LaunchOp::KeepEndpoint => {
                self.endpoint = Some(self.cap);
                self.go_on(0)
            },
            LaunchOp::UseDriverEndpoint => match self.driver {
                Some(d) => {
                    self.cap = d.endpoint;
                    self.go_on(0)
                },
                None => Some(LaunchStep::Finished(None)),
            },
            LaunchOp::Start { stack_vma } => Some(
                LaunchStep::Ask(
                    LaunchRequest::StartProcess { stack_vma, stack_len: SERVICE_STACK_LEN },
                ),
            ),
            LaunchOp::Grant => {
                match self.process {
                    Some(p) => {
                        let rights = CapabilityRights { bits: SERVICE_RIGHTS };
                        match k.grant_cap_into(self.src, self.cap, p.cap_space, rights) {
                            Some(_) => self.go_on(0),
                            None => Some(LaunchStep::Finished(None)),
                        }
                    },
                    None => Some(LaunchStep::Finished(None)),
                }
            },
            LaunchOp::NeedCallerSpace => match k.root_table(self.caller) {
                Some(_) => self.go_on(0),
                None => Some(LaunchStep::Finished(None)),
            },
            LaunchOp::HandOff => {
                let end = match self.process {
                    Some(p) => Some(
                        Launched {
                            thread: p.thread,
                            switch: k.user_ctx_switch_ptrs(self.caller, p.thread).is_some(),
                        },
                    ),
                    None => None,
                };
                Some(LaunchStep::Finished(end))
            },
            _ => Some(LaunchStep::Finished(None)),
        }
    }

    /// Performs the next instruction.
    fn execute<const MMIO: usize>(&mut self, k: &mut KernelState<MMIO>) -> (step: Option<LaunchStep>)
        requires
            old(k).wf(),
        ensures
            final(k).wf(),
            executed_to(
                executed(old(k)@, *old(self)),
                old(k)@,
                *old(self),
                final(k)@,
                *final(self),
                step,
            ),
            step is None ==> final(self).pc > old(self).pc && old(self).pc < program(
                old(self).service,
            ).len() && final(self).service == old(self).service,
    {
        let op = launch_op(self.service, self.pc);
        match op {
            LaunchOp::NewPage
            | LaunchOp::ResolveRegion
            | LaunchOp::ClearPage
            | LaunchOp::WriteHeader
            | LaunchOp::UseDevicePage
            | LaunchOp::UseDriverPage { .. }
            | LaunchOp::MapPage { .. }
            | LaunchOp::Keep(_)
            | LaunchOp::Use(_) => self.perform_paging(op, k),
            LaunchOp::FindDevice { .. }
            | LaunchOp::KeepDevice
            | LaunchOp::SkipIfPci(_)
            | LaunchOp::SkipUnlessPci(_)
            | LaunchOp::Wire { .. }
            | LaunchOp::BindIrq
            | LaunchOp::MapWindow { .. } => self.perform_device(op, k),
            _ => self.perform_process(op, k),
        }
    }

    fn is_on_pci(&self) -> (r: bool)
        ensures
            r == on_pci(*self),
    {
        match self.device {
            Some(d) => d.window.config_space_base != 0,
            None => false,
        }
    }

    fn run<const MMIO: usize>(&mut self, k: &mut KernelState<MMIO>) -> (step: LaunchStep)
        requires
            old(k).wf(),
        ensures
            final(k).wf(),
            (final(k)@, *final(self), step) == ran(old(k)@, *old(self)),
    {
        loop
            invariant
                k.wf(),
                ran(k@, *self) == ran(old(k)@, *old(self)),
            decreases instructions_left(*self),
        {
            match self.execute(k) {
                Some(step) => {
                    return step;
                },
                None => {},
            }
        }
    }

    fn begin<const MMIO: usize>(
        k: &mut KernelState<MMIO>,
        service: Service,
        caller: ThreadId,
        driver: Option<DriverPages>,
    ) -> (r: Option<(Self, LaunchStep)>)
        requires
            old(k).wf(),
        ensures
            final(k).wf(),
            (final(k)@, r) == launch_begun(old(k)@, service, caller, driver),
    {
        let src = match k.tcb(caller) {
            Some(t) => t.cap_space,
            None => {
                return None;
            },
        };
        let mut l = Launch {
            service,
            caller,
            src,
            driver,
            pc: 0,
            cap: CapId::new(0),
            phys: 0,
            endpoint: None,
            process: None,
            device: None,
            direct: None,
            first: None,
            second: None,
            third: None,
        };
        let step = l.run(k);
        Some((l, step))
    }

    /// Begins to launch the file system on behalf of `caller`.
    pub fn fs_demo_start<const MMIO: usize>(k: &mut KernelState<MMIO>, caller: ThreadId) -> (r:
        Option<(Self, LaunchStep)>)
        requires
            old(k).wf(),
        ensures
            final(k).wf(),
            (final(k)@, r) == launch_begun(old(k)@, Service::Fs, caller, None),
    {
        Launch::begin(k, Service::Fs, caller, None)
    }

    /// Begins to launch the compositor on behalf of `caller`.
    pub fn compositor_demo_start<const MMIO: usize>(k: &mut KernelState<MMIO>, caller: ThreadId) -> (r:
        Option<(Self, LaunchStep)>)
        requires
            old(k).wf(),
        ensures
            final(k).wf(),
            (final(k)@, r) == launch_begun(old(k)@, Service::Compositor, caller, None),
    {
        Launch::begin(k, Service::Compositor, caller, None)
    }

    /// Begins to launch the memory manager on behalf of `caller`.
    pub fn mm_demo_start<const MMIO: usize>(k: &mut KernelState<MMIO>, caller: ThreadId) -> (r:
        Option<(Self, LaunchStep)>)
        requires
            old(k).wf(),
        ensures
            final(k).wf(),
            (final(k)@, r) == launch_begun(old(k)@, Service::Mm, caller, None),
    {
        Launch::begin(k, Service::Mm, caller, None)
    }

    /// Begins to launch the block driver on behalf of `caller`.
    pub fn spawn_virtio_blk_driver<const MMIO: usize>(k: &mut KernelState<MMIO>, caller: ThreadId) -> (r:
        Option<(Self, LaunchStep)>)
        requires
            old(k).wf(),
        ensures
            final(k).wf(),
            (final(k)@, r) == launch_begun(old(k)@, Service::Block, caller, None),
    {
        Launch::begin(k, Service::Block, caller, None)
    }

    /// Begins to launch the network driver on behalf of `caller`.
    pub fn spawn_virtio_net_driver<const MMIO: usize>(k: &mut KernelState<MMIO>, caller: ThreadId) -> (r:
        Option<(Self, LaunchStep)>)
        requires
            old(k).wf(),
        ensures
            final(k).wf(),
            (final(k)@, r) == launch_begun(old(k)@, Service::Net, caller, None),
    {
        Launch::begin(k, Service::Net, caller, None)
    }

    /// Begins to launch the network service on behalf of `caller`, on top of the network driver.
    /// Before, two threads whose part is over, and which nothing must resume again, are retired:
    /// the `server` of the IPC demonstration and the second process. The scheduler is to drop
    /// them.
    pub fn spawn_netstack_service<const MMIO: usize>(
        k: &mut KernelState<MMIO>,
        caller: ThreadId,
        driver: DriverPages,
        server: Option<ThreadId>,
        second_process: Option<ThreadId>,
    ) -> (r: Option<(Self, LaunchStep)>)
        requires
            old(k).wf(),
        ensures
            final(k).wf(),
            (final(k)@, r) == netstack_begun(old(k)@, caller, driver, server, second_process),
    {
        if let Some(t) = server {
            k.mark_exited(t, ThreadExit::Unknown);
        }
        if let Some(t) = second_process {
            k.mark_exited(t, ThreadExit::Unknown);
        }
        Launch::begin(k, Service::Netstack, caller, Some(driver))
    }

    /// Goes on with the reply to the last request.
    pub fn resume<const MMIO: usize>(&mut self, k: &mut KernelState<MMIO>, reply: LaunchReply) -> (step:
        LaunchStep)
        requires
            old(k).wf(),
            launch_reply_fits(*old(self), reply),
        ensures
            final(k).wf(),
            (final(k)@, *final(self), step) == launch_resumed(old(k)@, *old(self), reply),
    {
        let op = launch_op(self.service, self.pc);
        let ok = match reply {
            LaunchReply::Returned(returned) => {
                if matches!(op, LaunchOp::BindIrq) {
                    matches!(returned, Ok(SyscallReturn::Done))
                } else {
                    match returned {
                        Ok(SyscallReturn::NewCaps { cap, .. }) => {
                            self.cap = cap;
                            true
                        },
                        _ => false,
                    }
                }
            },
            LaunchReply::Started(started) => match started {
                Some((thread, cap_space)) => match k.root_table(thread) {
                    Some(root_pt) => {
                        self.process = Some(ServiceProcess { thread, cap_space, root_pt });
                        true
                    },
                    None => false,
                },
                None => false,
            },
            LaunchReply::Page(page) => match page {
                Some(phys) => {
                    self.phys = phys;
                    true
                },
                None => false,
            },
            LaunchReply::Done => true,
            LaunchReply::Mapped(ok) => ok,
            LaunchReply::Wired(ok) => ok,
        };
        if !ok {
            return LaunchStep::Finished(None);
        }
        let _ = self.go_on(0);
        self.run(k)
    }
}

} // verus!
