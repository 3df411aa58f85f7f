//! Wiring a virtio device on the PCI bus to its driver: mapping its register windows, routing
//! its interrupt, and telling the driver where everything is.
//!
//! The wiring runs in steps, each of which ends with one request to the memory layer or the
//! device, or with the result.

use crate::config::PAGE_SIZE;
use crate::pci::{
    bar_place, bar_plan, caps, layout_of, pages_for, walk_virtio_pci_capabilities, BarTable,
    ConfigSpace, VirtioPciCapLayout, VirtioPciCapWindow, DRV_PCI_BAR_VA_BASE,
    DRV_PCI_BAR_VA_STRIDE, DRV_PCI_MAX_BARS, MAX_CAPABILITIES,
};
use vstd::prelude::*;

verus! {

/// Where the device's configuration space is mapped for the kernel.
pub const KERNEL_PCI_CFG_VA: u64 = 0xD800_0000;

/// Where the BAR of the MSI-X table is mapped for the kernel.
pub const KERNEL_MSIX_BAR_VA: u64 = 0xD810_0000;

/// Where the BAR of the common registers is mapped for the kernel.
pub const KERNEL_MSIX_COMMON_VA: u64 = 0xD811_0000;

/// Offset of the queue selector in the common registers.
pub const VIRTIO_PCI_COMMON_QUEUE_SELECT: u64 = 0x16;

/// Offset of the selected queue's interrupt vector in the common registers.
pub const VIRTIO_PCI_COMMON_QUEUE_MSIX_VECTOR: u64 = 0x1a;

/// The vector of a queue that signals no interrupt.
pub const VIRTIO_MSI_NO_VECTOR: u16 = 0xffff;

/// Permission bits of a mapping for the kernel alone: read and write.
pub const KERNEL_RW: usize = 3;

/// Permission bits of a mapping for a user process: read, write and user.
pub const USER_RW: usize = 11;

/// Scratch pages that mapping a small window needs at most.
pub const SMALL_POOL: u64 = 2;

/// Words of the block that tells the driver where its device is.
pub const PCI_INFO_WORDS: usize = 7;

/// Whose address space a mapping goes to.
#[derive(Debug, Clone, Copy, PartialEq, Eq, Structural)]
pub enum Space {
    /// That of the thread that starts the driver, which is active.
    Caller,
    /// The driver's own.
    Driver,
}

/// What the wiring asks for.
#[derive(Debug, Clone, Copy, PartialEq, Eq)]
pub enum WireRequest {
    /// Map a physical range, with zeroed scratch pages for the page tables, and discard stale
    /// translations if the address space is active. Reply: `mapped`.
    MapRange {
        /// Where to.
        space: Space,
        /// Virtual address.
        va: u64,
        /// Physical address.
        phys: u64,
        /// Length in bytes.
        len: u64,
        /// Read is 1, write is 2, execute is 4, user is 8.
        perm_bits: usize,
        /// Scratch pages.
        pool_pages: u64,
    },
    /// Turn the device on and read its configuration space. Reply: `configured`.
    TurnOn,
    /// Probe the window of a BAR. Reply: `probed`.
    ProbeBar {
        /// Which.
        bar: u8,
    },
    /// Ask the interrupt controller for the message of an interrupt line. Reply: `messaged`.
    MsiMessage {
        /// The line.
        irq: u32,
    },
    /// Write an entry of the MSI-X table and turn MSI-X on. Reply: `done`.
    ProgramMsix {
        /// Virtual address of the entry.
        entry_va: u64,
        /// The entry.
        entry: [u32; 4],
        /// Where the capability stands in configuration space.
        cap_ptr: u8,
    },
    /// Select the first queue, then assign it the first vector. Reply: `done`.
    AssignVector {
        /// Virtual address of the queue selector.
        select_va: u64,
        /// Virtual address of the vector.
        vector_va: u64,
    },
}

/// Where everything is.
#[derive(Debug, Clone, Copy, PartialEq, Eq)]
pub struct PciWiring {
    /// The block for the driver.
    pub info: [u64; PCI_INFO_WORDS],
    /// Physical address of the interrupt status; only looked for on a network device.
    pub isr_phys: Option<u64>,
    /// Physical address of the doorbells; only looked for on a network device.
    pub notify_phys: Option<u64>,
}

/// How a step ended.
#[derive(Debug, Clone, Copy, PartialEq, Eq)]
pub enum WireStep {
    /// With a request.
    Ask(WireRequest),
    /// With the end of the wiring, `None` if it failed.
    Finished(Option<PciWiring>),
}

/// What the wiring waits for.
#[derive(Debug, Clone, Copy, PartialEq, Eq, Structural)]
pub enum WireStage {
    /// The mapping of the configuration space.
    Config,
    /// The configuration space.
    TurnOn,
    /// The probe of a register window's BAR.
    Window,
    /// The mapping of a register window's BAR.
    WindowMap,
    /// The message of the interrupt line.
    Message,
    /// The probe of the MSI-X table's BAR.
    MsixProbe,
    /// The mapping of the MSI-X table's BAR.
    MsixMap,
    /// The MSI-X table.
    MsixProgram,
    /// The probe of the common registers' BAR.
    CommonProbe,
    /// The mapping of the common registers' BAR for the kernel.
    CommonMap,
    /// The queue's vector.
    Vector,
    /// The probe for the physical address of the interrupt status.
    IsrPhys,
    /// The probe for the physical address of the doorbells.
    NotifyPhys,
    /// Nothing.
    Over,
}

/// A wiring under way, as a mathematical value.
#[verifier::ext_equal]
pub struct WireView {
    /// Whether it is a network device.
    pub net: bool,
    /// The device's interrupt line.
    pub irq: u32,
    /// What it waits for.
    pub stage: WireStage,
    /// What the capability list describes.
    pub layout: VirtioPciCapLayout,
    /// The BARs that the driver has mapped, in the order of their places.
    pub bars: Seq<u8>,
    /// The virtual addresses of the register windows that are settled, `0` for one that is
    /// missing. The order is common registers, doorbells, interrupt status, device registers.
    pub vas: Seq<u64>,
    /// The message of the interrupt line.
    pub message: (u64, u32),
    /// The vector of the first queue.
    pub vector: u16,
    /// Physical address of the interrupt status.
    pub isr_phys: Option<u64>,
}

/// A wiring under way.
#[derive(Debug, Clone, Copy)]
pub struct PciWire {
    /// Whether it is a network device.
    pub net: bool,
    /// The device's interrupt line.
    pub irq: u32,
    /// What it waits for.
    pub stage: WireStage,
    /// What the capability list describes.
    pub layout: VirtioPciCapLayout,
    /// The BARs that the driver has mapped.
    pub bars: BarTable,
    /// Room for the virtual addresses of the register windows.
    pub vas: [u64; 4],
    /// How many are settled.
    pub settled: usize,
    /// The message of the interrupt line.
    pub message: (u64, u32),
    /// The vector of the first queue.
    pub vector: u16,
    /// Physical address of the interrupt status.
    pub isr_phys: Option<u64>,
}

impl View for PciWire {
    type V = WireView;

    open spec fn view(&self) -> WireView {
        WireView {
            net: self.net,
            irq: self.irq,
            stage: self.stage,
            layout: self.layout,
            bars: self.bars@,
            vas: self.vas@.take(self.settled as int),
            message: self.message,
            vector: self.vector,
            isr_phys: self.isr_phys,
        }
    }
}

/// The register windows in the order in which they are settled.
pub open spec fn window_at(layout: VirtioPciCapLayout, i: int) -> Option<VirtioPciCapWindow> {
    if i == 0 {
        layout.common
    } else if i == 1 {
        layout.notify
    } else if i == 2 {
        layout.isr
    } else {
        layout.device
    }
}

impl WireView {
    /// The settled windows stand where their BARs are mapped.
    pub open spec fn windows_placed(self) -> bool {
        forall|i: int|
            0 <= i < self.vas.len() && (#[trigger] self.vas[i]) != 0 ==> {
                let w = window_at(self.layout, i);
                &&& w is Some
                &&& self.bars.contains(w->0.bar)
                &&& self.vas[i] == bar_place(self.bars.index_of(w->0.bar)) + w->0.offset
            }
    }

    /// The window that is being settled has a BAR that is not mapped yet and has a place.
    pub open spec fn settling(self) -> bool {
        let w = window_at(self.layout, self.vas.len() as int);
        &&& self.vas.len() < 4
        &&& w is Some
        &&& !self.bars.contains(w->0.bar)
        &&& self.bars.len() < DRV_PCI_MAX_BARS
    }

    /// What holds between two steps.
    pub open spec fn wf(self) -> bool {
        &&& self.vas.len() <= 4
        &&& self.bars.no_duplicates()
        &&& self.bars.len() <= DRV_PCI_MAX_BARS
        &&& self.windows_placed()
        &&& self.stage is Config || self.stage is TurnOn ==> self.vas.len() == 0 && self.bars.len()
            == 0
        &&& !(self.stage is Config || self.stage is TurnOn || self.stage is Over)
            ==> self.layout.common is Some
        &&& self.stage is Window || self.stage is WindowMap ==> self.settling()
        &&& !(self.stage is Config || self.stage is TurnOn || self.stage is Window
            || self.stage is WindowMap || self.stage is Over) ==> self.vas.len() == 4
        &&& self.stage is Message || self.stage is MsixProbe || self.stage is MsixMap
            || self.stage is MsixProgram ==> self.layout.msix is Some
        &&& self.stage is IsrPhys ==> self.layout.isr is Some
        &&& self.stage is NotifyPhys ==> self.layout.notify is Some
    }
}

impl PciWire {
    /// What holds between two steps.
    pub open spec fn wf(&self) -> bool {
        &&& self.settled <= 4
        &&& self.bars.wf()
        &&& self@.wf()
    }
}

/// The wiring failed.
pub open spec fn wiring_failed(w: WireView) -> (WireView, WireStep) {
    (WireView { stage: WireStage::Over, ..w }, WireStep::Finished(None))
}

/// What the driver is told: that its device is on the PCI bus, where its register windows are,
/// how far its doorbells are apart, and its queue's vector.
pub open spec fn info_block(w: WireView) -> Seq<u64> {
    seq![
        1,
        w.vas[0],
        w.vas[1],
        w.layout.notify_off_multiplier as u64,
        w.vas[2],
        w.vas[3],
        w.vector as u64,
    ]
}

/// The step ends the wiring with this result.
pub open spec fn finished_with(
    step: WireStep,
    info: Seq<u64>,
    isr_phys: Option<u64>,
    notify_phys: Option<u64>,
) -> bool {
    step matches WireStep::Finished(Some(wiring)) && wiring.info@ == info && wiring.isr_phys
        == isr_phys && wiring.notify_phys == notify_phys
}

/// The wiring goes on by looking for the physical address of the doorbells.
pub open spec fn notify_phys_begun(w: WireView, after: WireView, step: WireStep) -> bool {
    match w.layout.notify {
        Some(win) => {
            &&& after == (WireView { stage: WireStage::NotifyPhys, ..w })
            &&& step == WireStep::Ask(WireRequest::ProbeBar { bar: win.bar })
        },
        None => {
            &&& after == (WireView { stage: WireStage::Over, ..w })
            &&& finished_with(step, info_block(w), w.isr_phys, None)
        },
    }
}

/// The wiring goes on by looking for physical addresses, where they are wanted.
pub open spec fn phys_begun(w: WireView, after: WireView, step: WireStep) -> bool {
    if !w.net {
        &&& after == (WireView { stage: WireStage::Over, ..w })
        &&& finished_with(step, info_block(w), None, None)
    } else {
        match w.layout.isr {
            Some(win) => {
                &&& after == (WireView { stage: WireStage::IsrPhys, ..w })
                &&& step == WireStep::Ask(WireRequest::ProbeBar { bar: win.bar })
            },
            None => notify_phys_begun(w, after, step),
        }
    }
}

/// The windows from number `w.vas.len()` on that need no BAR to be mapped are settled: those
/// whose BAR is mapped stand in it, those that are missing or find no place are `0`.
pub open spec fn settled_without_mapping(w: WireView) -> Seq<u64>
    decreases 4 - w.vas.len(),
{
    if w.vas.len() >= 4 {
        w.vas
    } else {
        match window_at(w.layout, w.vas.len() as int) {
            None => settled_without_mapping(WireView { vas: w.vas.push(0), ..w }),
            Some(win) => if w.bars.contains(win.bar) {
                let va = bar_place(w.bars.index_of(win.bar)) + win.offset;
                settled_without_mapping(WireView { vas: w.vas.push(va as u64), ..w })
            } else if w.bars.len() >= DRV_PCI_MAX_BARS {
                settled_without_mapping(WireView { vas: w.vas.push(0), ..w })
            } else {
                w.vas
            },
        }
    }
}

/// The wiring goes on with the next BAR to map, or, if every window is settled, with the
/// interrupt.
pub open spec fn windows_resumed(w: WireView, after: WireView, step: WireStep) -> bool {
    let now = WireView { vas: settled_without_mapping(w), ..w };
    if now.vas.len() < 4 {
        &&& after == (WireView { stage: WireStage::Window, ..now })
        &&& step == WireStep::Ask(
            WireRequest::ProbeBar { bar: window_at(w.layout, now.vas.len() as int)->0.bar },
        )
    } else {
        match w.layout.msix {
            Some(_) => {
                &&& after == (WireView { stage: WireStage::Message, ..now })
                &&& step == WireStep::Ask(WireRequest::MsiMessage { irq: w.irq })
            },
            None => phys_begun(now, after, step),
        }
    }
}

/// The window that is being settled cannot be mapped. The common registers are indispensable.
pub open spec fn window_missing(w: WireView, after: WireView, step: WireStep) -> bool {
    if w.vas.len() == 0 {
        (after, step) == wiring_failed(w)
    } else {
        windows_resumed(WireView { vas: w.vas.push(0), ..w }, after, step)
    }
}

/// A mapping of a whole BAR for the kernel.
pub open spec fn kernel_bar(va: u64, window: (u64, u64)) -> WireStep {
    WireStep::Ask(
        WireRequest::MapRange {
            space: Space::Caller,
            va,
            phys: window.0,
            len: (pages_for(window.1 as int) * PAGE_SIZE) as u64,
            perm_bits: KERNEL_RW,
            pool_pages: SMALL_POOL,
        },
    )
}

/// What follows a mapping.
pub open spec fn mapped_to(w: WireView, ok: bool, after: WireView, step: WireStep) -> bool {
    match w.stage {
        WireStage::Config => if ok {
            &&& after == (WireView { stage: WireStage::TurnOn, ..w })
            &&& step == WireStep::Ask(WireRequest::TurnOn)
        } else {
            (after, step) == wiring_failed(w)
        },
        WireStage::WindowMap => if ok {
            let win = window_at(w.layout, w.vas.len() as int)->0;
            windows_resumed(
                WireView {
                    bars: w.bars.push(win.bar),
                    vas: w.vas.push((bar_place(w.bars.len() as int) + win.offset) as u64),
                    ..w
                },
                after,
                step,
            )
        } else {
            window_missing(w, after, step)
        },
        WireStage::MsixMap => if ok {
            let msix = w.layout.msix->0;
            &&& after == (WireView { stage: WireStage::MsixProgram, ..w })
            &&& step matches WireStep::Ask(WireRequest::ProgramMsix { entry_va, entry, cap_ptr })
            &&& entry_va == KERNEL_MSIX_BAR_VA + msix.table_offset
            &&& entry@ == seq![
                (w.message.0 % 0x1_0000_0000) as u32,
                (w.message.0 / 0x1_0000_0000) as u32,
                w.message.1,
                0,
            ]
            &&& cap_ptr == msix.cap_ptr
        } else {
            (after, step) == wiring_failed(w)
        },
        _ => if ok {
            let at = KERNEL_MSIX_COMMON_VA + w.layout.common->0.offset;
            &&& after == (WireView { stage: WireStage::Vector, ..w })
            &&& step == WireStep::Ask(
                WireRequest::AssignVector {
                    select_va: (at + VIRTIO_PCI_COMMON_QUEUE_SELECT) as u64,
                    vector_va: (at + VIRTIO_PCI_COMMON_QUEUE_MSIX_VECTOR) as u64,
                },
            )
        } else {
            (after, step) == wiring_failed(w)
        },
    }
}

/// What follows the probe of a BAR.
pub open spec fn probed_to(
    w: WireView,
    window: Option<(u64, u64)>,
    after: WireView,
    step: WireStep,
) -> bool {
    match w.stage {
        WireStage::Window => match window {
            Some((phys, size)) => match bar_plan(w.bars.len() as int, size as int) {
                Some(plan) => {
                    &&& after == (WireView { stage: WireStage::WindowMap, ..w })
                    &&& step == WireStep::Ask(
                        WireRequest::MapRange {
                            space: Space::Driver,
                            va: plan.va,
                            phys,
                            len: plan.len,
                            perm_bits: USER_RW,
                            pool_pages: plan.pool_pages,
                        },
                    )
                },
                None => window_missing(w, after, step),
            },
            None => window_missing(w, after, step),
        },
        WireStage::MsixProbe => match window {
            Some(win) => {
                &&& after == (WireView { stage: WireStage::MsixMap, ..w })
                &&& step == kernel_bar(KERNEL_MSIX_BAR_VA, win)
            },
            None => (after, step) == wiring_failed(w),
        },
        WireStage::CommonProbe => match window {
            Some(win) => {
                &&& after == (WireView { stage: WireStage::CommonMap, ..w })
                &&& step == kernel_bar(KERNEL_MSIX_COMMON_VA, win)
            },
            None => (after, step) == wiring_failed(w),
        },
        WireStage::IsrPhys => notify_phys_begun(
            WireView { isr_phys: window_phys(window, w.layout.isr->0), ..w },
            after,
            step,
        ),
        _ => {
            &&& after == (WireView { stage: WireStage::Over, ..w })
            &&& finished_with(
                step,
                info_block(w),
                w.isr_phys,
                window_phys(window, w.layout.notify->0),
            )
        },
    }
}

/// What follows the configuration space. Without common registers there is no using the device.
pub open spec fn config_read(w: WireView, config: Seq<u8>, after: WireView, step: WireStep) -> bool {
    let layout = layout_of(config, caps(config, MAX_CAPABILITIES as nat));
    let now = WireView { layout, ..w };
    if layout.common is Some {
        windows_resumed(now, after, step)
    } else {
        (after, step) == wiring_failed(now)
    }
}

/// What follows the message of the interrupt line.
pub open spec fn message_taken(
    w: WireView,
    message: Option<(u64, u32)>,
    after: WireView,
    step: WireStep,
) -> bool {
    match message {
        Some(m) => {
            &&& after == (WireView { stage: WireStage::MsixProbe, message: m, ..w })
            &&& step == WireStep::Ask(WireRequest::ProbeBar { bar: w.layout.msix->0.bar })
        },
        None => phys_begun(w, after, step),
    }
}

/// What follows a write to the device.
pub open spec fn device_written(w: WireView, after: WireView, step: WireStep) -> bool {
    if w.stage is MsixProgram {
        &&& after == (WireView { stage: WireStage::CommonProbe, ..w })
        &&& step == WireStep::Ask(WireRequest::ProbeBar { bar: w.layout.common->0.bar })
    } else {
        phys_begun(WireView { vector: 0, ..w }, after, step)
    }
}

/// The physical address of a register window.
pub open spec fn window_phys(bar: Option<(u64, u64)>, window: VirtioPciCapWindow) -> Option<u64> {
    match bar {
        Some((base, _)) => Some((base + window.offset) as u64),
        None => None,
    }
}

/// The window of a probed BAR is one that the next step can work with: what it maps or points
/// at is addressable.
pub open spec fn probe_fits(w: WireView, window: Option<(u64, u64)>) -> bool {
    window matches Some((base, size)) ==> match w.stage {
        WireStage::MsixProbe | WireStage::CommonProbe => pages_for(size as int) * PAGE_SIZE
            <= u64::MAX,
        WireStage::IsrPhys => base + w.layout.isr->0.offset <= u64::MAX,
        WireStage::NotifyPhys => base + w.layout.notify->0.offset <= u64::MAX,
        _ => true,
    }
}

/// The wiring of a device at its start: its configuration space is mapped for the kernel, within
/// the caller's address space.
pub open spec fn wiring_begun(net: bool, irq: u32, config_phys: u64) -> (WireView, WireStep) {
    (
        WireView {
            net,
            irq,
            stage: WireStage::Config,
            layout: VirtioPciCapLayout {
                common: None,
                notify: None,
                notify_off_multiplier: 0,
                isr: None,
                device: None,
                msix: None,
            },
            bars: seq![],
            vas: seq![],
            message: (0, 0),
            vector: VIRTIO_MSI_NO_VECTOR,
            isr_phys: None,
        },
        WireStep::Ask(
            WireRequest::MapRange {
                space: Space::Caller,
                va: KERNEL_PCI_CFG_VA,
                phys: config_phys,
                len: PAGE_SIZE as u64,
                perm_bits: KERNEL_RW,
                pool_pages: SMALL_POOL,
            },
        ),
    )
}

impl PciWire {
    fn begin(net: bool, irq: u32, config_phys: u64) -> (r: (Self, WireStep))
        ensures
            r.0.wf(),
            (r.0@, r.1) == wiring_begun(net, irq, config_phys),
    {
        let w = PciWire {
            net,
            irq,
            stage: WireStage::Config,
            layout: VirtioPciCapLayout {
                common: None,
                notify: None,
                notify_off_multiplier: 0,
                isr: None,
                device: None,
                msix: None,
            },
            bars: BarTable::new(),
            vas: [0;4],
            settled: 0,
            message: (0, 0),
            vector: VIRTIO_MSI_NO_VECTOR,
            isr_phys: None,
        };
        assert(w@.vas =~= seq![]);
        (
            w,
            WireStep::Ask(
                WireRequest::MapRange {
                    space: Space::Caller,
                    va: KERNEL_PCI_CFG_VA,
                    phys: config_phys,
                    len: PAGE_SIZE as u64,
                    perm_bits: KERNEL_RW,
                    pool_pages: SMALL_POOL,
                },
            ),
        )
    }

    /// Begins to wire the block device whose configuration space is at `config_phys`.
    pub fn wire_virtio_pci_transport(irq: u32, config_phys: u64) -> (r: (Self, WireStep))
        ensures
            r.0.wf(),
            (r.0@, r.1) == wiring_begun(false, irq, config_phys),
    {
        PciWire::begin(false, irq, config_phys)
    }

    /// Begins to wire the network device whose configuration space is at `config_phys`.
    pub fn wire_virtio_pci_transport_net(irq: u32, config_phys: u64) -> (r: (Self, WireStep))
        ensures
            r.0.wf(),
            (r.0@, r.1) == wiring_begun(true, irq, config_phys),
    {
        PciWire::begin(true, irq, config_phys)
    }

    fn fail(&mut self) -> (step: WireStep)
        requires
            old(self).wf(),
        ensures
            final(self).wf(),
            (final(self)@, step) == wiring_failed(old(self)@),
    {
        self.stage = WireStage::Over;
        WireStep::Finished(None)
    }

    fn finish(&mut self, isr_phys: Option<u64>, notify_phys: Option<u64>) -> (step: WireStep)
        requires
            old(self).wf(),
            old(self)@.vas.len() == 4,
        ensures
            final(self).wf(),
            final(self)@ == (WireView { stage: WireStage::Over, ..old(self)@ }),
            finished_with(step, info_block(old(self)@), isr_phys, notify_phys),
    {
        self.stage = WireStage::Over;
        let info: [u64; PCI_INFO_WORDS] = [
            1,
            self.vas[0],
            self.vas[1],
            self.layout.notify_off_multiplier as u64,
            self.vas[2],
            self.vas[3],
            self.vector as u64,
        ];
        assert(info@ =~= info_block(old(self)@));
        WireStep::Finished(Some(PciWiring { info, isr_phys, notify_phys }))
    }

    fn begin_notify_phys(&mut self) -> (step: WireStep)
        requires
            old(self).wf(),
            old(self)@.vas.len() == 4,
            old(self)@.layout.common is Some,
        ensures
            final(self).wf(),
            notify_phys_begun(old(self)@, final(self)@, step),
    {
        match self.layout.notify {
            Some(win) => {
                self.stage = WireStage::NotifyPhys;
                WireStep::Ask(WireRequest::ProbeBar { bar: win.bar })
            },
            None => {
                let isr_phys = self.isr_phys;
                self.finish(isr_phys, None)
            },
        }
    }

    fn begin_phys(&mut self) -> (step: WireStep)
        requires
            old(self).wf(),
            old(self)@.vas.len() == 4,
            old(self)@.layout.common is Some,
        ensures
            final(self).wf(),
            phys_begun(old(self)@, final(self)@, step),
    {
        if !self.net {
            return self.finish(None, None);
        }
        match self.layout.isr {
            Some(win) => {
                self.stage = WireStage::IsrPhys;
                WireStep::Ask(WireRequest::ProbeBar { bar: win.bar })
            },
            None => self.begin_notify_phys(),
        }
    }

    fn window(&self) -> (r: Option<VirtioPciCapWindow>)
        requires
            self.settled < 4,
        ensures
            r == window_at(self.layout, self.settled as int),
    {
        if self.settled == 0 {
            self.layout.common
        } else if self.settled == 1 {
            self.layout.notify
        } else if self.settled == 2 {
            self.layout.isr
        } else {
            self.layout.device
        }
    }

    /// Settles the next window at `va`, `0` for a missing one.
    fn settle(&mut self, va: u64)
        requires
            old(self).settled < 4,
        ensures
            *final(self) == (PciWire {
                vas: final(self).vas,
                settled: (old(self).settled + 1) as usize,
                ..*old(self)
            }),
            final(self)@ == (WireView { vas: old(self)@.vas.push(va), ..old(self)@ }),
    {
        self.vas[self.settled] = va;
        self.settled = self.settled + 1;
        assert(self@.vas =~= old(self)@.vas.push(va));
    }

    fn resume_windows(&mut self) -> (step: WireStep)
        requires
            old(self).settled <= 4,
            old(self).bars.wf(),
            old(self)@.windows_placed(),
            old(self)@.layout.common is Some,
        ensures
            final(self).wf(),
            windows_resumed(old(self)@, final(self)@, step),
    {
        let ghost start = self@;
        while self.settled < 4
            invariant
                self.settled <= 4,
                self.bars.wf(),
                self@.windows_placed(),
                start == old(self)@,
                self@ == (WireView { vas: self@.vas, ..start }),
                self@.layout.common is Some,
                settled_without_mapping(self@) == settled_without_mapping(start),
            decreases 4 - self.settled,
        {
            match self.window() {
                None => {
                    self.settle(0);
                },
                Some(win) => {
                    match self.bars.find(win.bar) {
                        Some(place) => {
                            proof {
                                lemma_places_are_low(self@.bars, win.bar);
                            }
                            self.settle(place + win.offset as u64);
                        },
                        None => {
                            if self.bars.count >= DRV_PCI_MAX_BARS {
                                self.settle(0);
                            } else {
                                self.stage = WireStage::Window;
                                return WireStep::Ask(WireRequest::ProbeBar { bar: win.bar });
                            }
                        },
                    }
                },
            }
        }
        if self.layout.msix.is_some() {
            self.stage = WireStage::Message;
            let irq: u32 = self.irq;
            return WireStep::Ask(WireRequest::MsiMessage { irq });
        }
        self.stage = WireStage::Over;
        self.begin_phys()
    }

    fn miss_window(&mut self) -> (step: WireStep)
        requires
            old(self).wf(),
            old(self)@.settling(),
            old(self)@.layout.common is Some,
        ensures
            final(self).wf(),
            window_missing(old(self)@, final(self)@, step),
    {
        if self.settled == 0 {
            return self.fail();
        }
        self.settle(0);
        self.resume_windows()
    }

    /// Goes on after a mapping.
    pub fn mapped(&mut self, ok: bool) -> (step: WireStep)
        requires
            old(self).wf(),
            old(self)@.stage is Config || old(self)@.stage is WindowMap || old(self)@.stage
                is MsixMap || old(self)@.stage is CommonMap,
        ensures
            final(self).wf(),
            mapped_to(old(self)@, ok, final(self)@, step),
    {
        match self.stage {
            WireStage::Config => {
                if !ok {
                    return self.fail();
                }
                self.stage = WireStage::TurnOn;
                WireStep::Ask(WireRequest::TurnOn)
            },
            WireStage::WindowMap => {
                if !ok {
                    return self.miss_window();
                }
                match self.window() {
                    Some(win) => {
                        let va: u64 = bar_va(self.bars.count) + win.offset as u64;
                        let ghost before = self@;
                        self.bars.record(win.bar);
                        self.settle(va);
                        proof {
                            lemma_places_stay(before, self@, win, va);
                        }
                        self.resume_windows()
                    },
                    None => self.fail(),
                }
            },
            WireStage::MsixMap => {
                match self.layout.msix {
                    Some(msix) if ok => {
                        self.stage = WireStage::MsixProgram;
                        let entry: [u32; 4] = [
                            (self.message.0 % 0x1_0000_0000) as u32,
                            (self.message.0 / 0x1_0000_0000) as u32,
                            self.message.1,
                            0,
                        ];
                        assert(entry@ =~= seq![
                            (self.message.0 % 0x1_0000_0000) as u32,
                            (self.message.0 / 0x1_0000_0000) as u32,
                            self.message.1,
                            0,
                        ]);
                        WireStep::Ask(
                            WireRequest::ProgramMsix {
                                entry_va: KERNEL_MSIX_BAR_VA + msix.table_offset as u64,
                                entry,
                                cap_ptr: msix.cap_ptr,
                            },
                        )
                    },
                    _ => self.fail(),
                }
            },
            _ => {
                match self.layout.common {
                    Some(common) if ok => {
                        self.stage = WireStage::Vector;
                        let at: u64 = KERNEL_MSIX_COMMON_VA + common.offset as u64;
                        WireStep::Ask(
                            WireRequest::AssignVector {
                                select_va: at + VIRTIO_PCI_COMMON_QUEUE_SELECT,
                                vector_va: at + VIRTIO_PCI_COMMON_QUEUE_MSIX_VECTOR,
                            },
                        )
                    },
                    _ => self.fail(),
                }
            },
        }
    }

    /// Goes on with the device's configuration space. Without common registers there is no
    /// using the device.
    pub fn configured(&mut self, config: &ConfigSpace) -> (step: WireStep)
        requires
            old(self).wf(),
            old(self)@.stage is TurnOn,
        ensures
            final(self).wf(),
            config_read(old(self)@, config@, final(self)@, step),
    {
        self.layout = walk_virtio_pci_capabilities(config);
        if self.layout.common.is_none() {
            self.stage = WireStage::Over;
            return WireStep::Finished(None);
        }
        self.resume_windows()
    }

    /// Goes on after the probe of a BAR.
    pub fn probed(&mut self, window: Option<(u64, u64)>) -> (step: WireStep)
        requires
            old(self).wf(),
            old(self)@.stage is Window || old(self)@.stage is MsixProbe || old(self)@.stage
                is CommonProbe || old(self)@.stage is IsrPhys || old(self)@.stage is NotifyPhys,
            probe_fits(old(self)@, window),
        ensures
            final(self).wf(),
            probed_to(old(self)@, window, final(self)@, step),
    {
        match self.stage {
            WireStage::Window => {
                if let Some((phys, size)) = window {
                    if let Some(plan) = self.bars.plan(size) {
                        self.stage = WireStage::WindowMap;
                        return WireStep::Ask(
                            WireRequest::MapRange {
                                space: Space::Driver,
                                va: plan.va,
                                phys,
                                len: plan.len,
                                perm_bits: USER_RW,
                                pool_pages: plan.pool_pages,
                            },
                        );
                    }
                }
                self.miss_window()
            },
            WireStage::MsixProbe => {
                match window {
                    Some((phys, size)) => {
                        self.stage = WireStage::MsixMap;
                        map_kernel_bar(KERNEL_MSIX_BAR_VA, phys, size)
                    },
                    None => self.fail(),
                }
            },
            WireStage::CommonProbe => {
                match window {
                    Some((phys, size)) => {
                        self.stage = WireStage::CommonMap;
                        map_kernel_bar(KERNEL_MSIX_COMMON_VA, phys, size)
                    },
                    None => self.fail(),
                }
            },
            WireStage::IsrPhys => {
                self.isr_phys = match (window, self.layout.isr) {
                    (Some((base, _)), Some(win)) => Some(base + win.offset as u64),
                    _ => None,
                };
                self.stage = WireStage::Over;
                self.begin_notify_phys()
            },
            _ => {
                let notify_phys = match (window, self.layout.notify) {
                    (Some((base, _)), Some(win)) => Some(base + win.offset as u64),
                    _ => None,
                };
                let isr_phys = self.isr_phys;
                self.finish(isr_phys, notify_phys)
            },
        }
    }

    /// Goes on with the message of the interrupt line. Without one the device keeps to its
    /// wired interrupt.
    pub fn messaged(&mut self, message: Option<(u64, u32)>) -> (step: WireStep)
        requires
            old(self).wf(),
            old(self)@.stage is Message,
        ensures
            final(self).wf(),
            message_taken(old(self)@, message, final(self)@, step),
    {
        match (message, self.layout.msix) {
            (Some(m), Some(msix)) => {
                self.message = m;
                self.stage = WireStage::MsixProbe;
                WireStep::Ask(WireRequest::ProbeBar { bar: msix.bar })
            },
            _ => self.begin_phys(),
        }
    }

    /// Goes on after the device was written to: once MSI-X is on, its queue is given the
    /// vector.
    pub fn done(&mut self) -> (step: WireStep)
        requires
            old(self).wf(),
            old(self)@.stage is MsixProgram || old(self)@.stage is Vector,
        ensures
            final(self).wf(),
            device_written(old(self)@, final(self)@, step),
    {
        match (self.stage, self.layout.common) {
            (WireStage::MsixProgram, Some(common)) => {
                self.stage = WireStage::CommonProbe;
                WireStep::Ask(WireRequest::ProbeBar { bar: common.bar })
            },
            _ => {
                self.vector = 0;
                self.begin_phys()
            },
        }
    }
}

/// The place of the BAR that is mapped as number `i`.
fn bar_va(i: usize) -> (va: u64)
    requires
        i < DRV_PCI_MAX_BARS,
    ensures
        va == bar_place(i as int),
        va <= 0xD870_0000,
{
    DRV_PCI_BAR_VA_BASE + i as u64 * DRV_PCI_BAR_VA_STRIDE
}

fn map_kernel_bar(va: u64, phys: u64, size: u64) -> (step: WireStep)
    requires
        pages_for(size as int) * PAGE_SIZE <= u64::MAX,
    ensures
        step == kernel_bar(va, (phys, size)),
{
    let pages: u64 = size / PAGE_SIZE as u64 + if size % PAGE_SIZE as u64 == 0 {
        0u64
    } else {
        1u64
    };
    assert(pages == pages_for(size as int));
    WireStep::Ask(
        WireRequest::MapRange {
            space: Space::Caller,
            va,
            phys,
            len: pages * PAGE_SIZE as u64,
            perm_bits: KERNEL_RW,
            pool_pages: SMALL_POOL,
        },
    )
}

/// The places of mapped BARs are low addresses.
proof fn lemma_places_are_low(bars: Seq<u8>, bar: u8)
    requires
        bars.contains(bar),
        bars.len() <= DRV_PCI_MAX_BARS,
    ensures
        bar_place(bars.index_of(bar)) <= 0xD870_0000,
        0 < bar_place(bars.index_of(bar)),
{
    let i = bars.index_of(bar);
    assert(0 <= i < bars.len() && bars[i] == bar);
}

/// Mapping one more BAR and settling its window there leaves the other windows in place.
proof fn lemma_places_stay(before: WireView, after: WireView, win: VirtioPciCapWindow, va: u64)
    requires
        before.windows_placed(),
        before.bars.no_duplicates(),
        !before.bars.contains(win.bar),
        window_at(before.layout, before.vas.len() as int) == Some(win),
        va == bar_place(before.bars.len() as int) + win.offset,
        after == (WireView {
            bars: before.bars.push(win.bar),
            vas: before.vas.push(va),
            ..before
        }),
    ensures
        after.windows_placed(),
{
    assert(after.bars.no_duplicates());
    assert forall|i: int| 0 <= i < after.vas.len() && (#[trigger] after.vas[i]) != 0 implies {
        let w = window_at(after.layout, i);
        &&& w is Some
        &&& after.bars.contains(w->0.bar)
        &&& after.vas[i] == bar_place(after.bars.index_of(w->0.bar)) + w->0.offset
    } by {
        if i < before.vas.len() {
            assert(after.vas[i] == before.vas[i]);
            let bar = window_at(before.layout, i)->0.bar;
            let j = before.bars.index_of(bar);
            assert(before.bars[j] == bar && after.bars[j] == bar);
            assert(after.bars.contains(bar));
            assert(after.bars.index_of(bar) == j);
        } else {
            let j = before.bars.len() as int;
            assert(after.bars[j] == win.bar);
            assert(after.bars.contains(win.bar));
            assert(after.bars.index_of(win.bar) == j);
        }
    }
}

} // verus!
