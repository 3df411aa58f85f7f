//! What wiring a device is for: the driver sees the device's registers where it is told, and the
//! device's interrupt arrives as its line's message.

use crate::config::PAGE_SIZE;
use crate::pci::{bar_place, caps, layout_of};
use crate::pci_wire::{
    config_read, device_written, mapped_to, message_taken, phys_begun, probed_to,
    settled_without_mapping, window_at, windows_resumed, wiring_begun, Space, WireRequest,
    WireStep, WireView,
};
use crate::spawn_laws::user_may;
use vstd::prelude::*;

verus! {

/// The step asks for `phys` to be mapped at `va` in an address space, in whole pages that hold
/// `len` bytes.
pub open spec fn maps_device(step: WireStep, space: Space, va: int, phys: u64, len: int) -> bool {
    &&& step matches WireStep::Ask(
        WireRequest::MapRange { space: s, va: v, phys: p, len: l, perm_bits, pool_pages },
    )
    &&& s == space
    &&& v == va
    &&& p == phys
    &&& len <= l < len + PAGE_SIZE
    &&& l % PAGE_SIZE as u64 == 0
    &&& space is Driver ==> user_may(perm_bits, true, true, false)
    &&& space is Caller ==> perm_bits == 3 && pool_pages == 2
}

/// The step asks for a BAR to be probed.
pub open spec fn probes(step: WireStep, bar: u8) -> bool {
    step == WireStep::Ask(WireRequest::ProbeBar { bar })
}

/// The wiring has failed.
pub open spec fn fails(after: WireView, step: WireStep) -> bool {
    after.stage is Over && step == WireStep::Finished(None)
}

/// Wiring begins with the device's configuration space, a page at its own physical address, mapped
/// for the kernel; then the device is turned on. It fails if that cannot be mapped.
pub proof fn wiring_begins_with_the_configuration_space(
    net: bool,
    irq: u32,
    config_phys: u64,
    ok: bool,
    after: WireView,
    step: WireStep,
)
    requires
        mapped_to(wiring_begun(net, irq, config_phys).0, ok, after, step),
    ensures
        ({
            let (w, begun) = wiring_begun(net, irq, config_phys);
            &&& w.net == net && w.irq == irq && w.vector == 0xffff && w.isr_phys is None
            &&& w.bars.len() == 0 && w.vas.len() == 0
            &&& maps_device(begun, Space::Caller, 0xD800_0000, config_phys, PAGE_SIZE as int)
            &&& ok ==> step == WireStep::Ask(WireRequest::TurnOn) && after.stage is TurnOn
            &&& !ok ==> fails(after, step)
            &&& after.net == net && after.irq == irq
        }),
{
}

/// What the capability list describes decides what is wired; a device without common registers
/// cannot be.
pub proof fn the_capability_list_decides(
    w: WireView,
    config: Seq<u8>,
    after: WireView,
    step: WireStep,
)
    requires
        config_read(w, config, after, step),
    ensures
        after.net == w.net && after.irq == w.irq,
        after.layout == layout_of(config, caps(config, 48)),
        layout_of(config, caps(config, 48)).common is None ==> fails(after, step),
{
    lemma_resumed_keeps(WireView { layout: after.layout, ..w }, after, step);
}

proof fn lemma_resumed_keeps(w: WireView, after: WireView, step: WireStep)
    ensures
        windows_resumed(w, after, step) ==> after.net == w.net && after.irq == w.irq && after.layout
            == w.layout && after.bars == w.bars && after.message == w.message,
{
}

/// The windows that need no BAR to be mapped are settled in their order: one whose BAR is mapped
/// stands in it at its offset, one that is missing or has no place left is not there; the first
/// one that needs a BAR stops it. What was settled stays.
pub proof fn windows_are_settled_in_order(w: WireView, i: int)
    requires
        w.vas.len() <= 4,
    ensures
        ({
            let vas = settled_without_mapping(w);
            let next = window_at(w.layout, vas.len() as int);
            let win = window_at(w.layout, i);
            let mapped = win is Some && w.bars.contains(win->0.bar);
            &&& w.vas.len() <= vas.len() <= 4
            &&& 0 <= i < w.vas.len() ==> vas[i] == w.vas[i]
            &&& w.vas.len() <= i < vas.len() && mapped ==> vas[i] == (bar_place(
                w.bars.index_of(win->0.bar),
            ) + win->0.offset) as u64
            &&& w.vas.len() <= i < vas.len() && !mapped ==> vas[i] == 0
            &&& vas.len() < 4 ==> next is Some && !w.bars.contains(next->0.bar) && w.bars.len() < 4
        }),
    decreases 4 - w.vas.len(),
{
    if w.vas.len() < 4 {
        let n = w.vas.len() as int;
        match window_at(w.layout, n) {
            None => {
                windows_are_settled_in_order(WireView { vas: w.vas.push(0), ..w }, i);
                windows_are_settled_in_order(WireView { vas: w.vas.push(0), ..w }, n);
            },
            Some(win) => if w.bars.contains(win.bar) {
                let va = (bar_place(w.bars.index_of(win.bar)) + win.offset) as u64;
                windows_are_settled_in_order(WireView { vas: w.vas.push(va), ..w }, i);
                windows_are_settled_in_order(WireView { vas: w.vas.push(va), ..w }, n);
            } else if w.bars.len() >= 4 {
                windows_are_settled_in_order(WireView { vas: w.vas.push(0), ..w }, i);
                windows_are_settled_in_order(WireView { vas: w.vas.push(0), ..w }, n);
            },
        }
    }
}

/// The windows are the common registers, the doorbells, the interrupt status and the registers of
/// the device's kind.
pub proof fn the_windows_have_an_order(w: WireView)
    ensures
        window_at(w.layout, 0) == w.layout.common,
        window_at(w.layout, 1) == w.layout.notify,
        window_at(w.layout, 2) == w.layout.isr,
        window_at(w.layout, 3) == w.layout.device,
{
}

/// Once no further window can be settled without mapping, the BAR of the next one is probed; once
/// all four are, the message of the device's line is asked for, or, for a device without an MSI-X
/// table, the physical addresses follow.
pub proof fn windows_come_before_the_interrupt(w: WireView, after: WireView, step: WireStep)
    requires
        w.vas.len() <= 4,
        windows_resumed(w, after, step),
    ensures
        ({
            let vas = settled_without_mapping(w);
            &&& after.vas == vas
            &&& after.bars == w.bars && after.layout == w.layout && after.irq == w.irq && after.net
                == w.net
            &&& vas.len() < 4 ==> after.stage is Window && probes(
                step,
                window_at(w.layout, vas.len() as int)->0.bar,
            )
            &&& vas.len() == 4 && w.layout.msix is Some ==> after.stage is Message && step
                == WireStep::Ask(WireRequest::MsiMessage { irq: w.irq })
            &&& vas.len() == 4 && w.layout.msix is None ==> phys_begun(
                WireView { vas, ..w },
                after,
                step,
            )
        }),
{
    windows_are_settled_in_order(w, 0);
}

/// A BAR that was probed is mapped for the driver, all of it, in the place behind those that are
/// mapped already; then its window stands there at its offset.
pub proof fn a_window_is_mapped_for_the_driver(
    w: WireView,
    phys: u64,
    size: u64,
    after: WireView,
    step: WireStep,
    later: WireView,
    next: WireStep,
)
    requires
        w.wf(),
        w.stage is Window,
        0 < size <= 0x10_0000,
        probed_to(w, Some((phys, size)), after, step),
        mapped_to(after, true, later, next),
    ensures
        ({
            let i = w.vas.len() as int;
            let win = window_at(w.layout, i)->0;
            let place = 0xD840_0000int + w.bars.len() * 0x10_0000;
            &&& maps_device(step, Space::Driver, place, phys, size as int)
            &&& after.stage is WindowMap
            &&& later.bars == w.bars.push(win.bar)
            &&& later.vas.len() > i
            &&& later.vas[i] == place + win.offset
            &&& forall|j: int| 0 <= j < i ==> later.vas[j] == w.vas[j]
        }),
{
    let i = w.vas.len() as int;
    let win = window_at(w.layout, i)->0;
    crate::pci_laws::a_bar_gets_a_place_if_it_fits(w.bars.len() as int, size as int);
    let now = WireView {
        bars: w.bars.push(win.bar),
        vas: w.vas.push((bar_place(w.bars.len() as int) + win.offset) as u64),
        ..after
    };
    windows_are_settled_in_order(now, i);
    assert forall|j: int| 0 <= j < i implies later.vas[j] == w.vas[j] by {
        windows_are_settled_in_order(now, j);
    }
}

/// A window that cannot be mapped is not there, and the wiring goes on without it; only the common
/// registers are indispensable.
pub proof fn a_missing_window_is_passed_over(
    w: WireView,
    after: WireView,
    step: WireStep,
)
    requires
        w.wf(),
        w.stage is Window && probed_to(w, None, after, step) || w.stage is WindowMap && mapped_to(
            w,
            false,
            after,
            step,
        ),
    ensures
        w.vas.len() == 0 ==> fails(after, step),
        w.vas.len() > 0 ==> after.vas.len() > w.vas.len() && after.vas[w.vas.len() as int] == 0
            && after.bars == w.bars,
{
    if w.vas.len() > 0 {
        let now = WireView { vas: w.vas.push(0), ..w };
        windows_are_settled_in_order(now, w.vas.len() as int);
    }
}

/// The interrupt of the device is made to arrive as the message of its line: the table's BAR is
/// mapped for the kernel, the first entry of the table gets the message's address, lower half
/// first, its value, and no mask, and MSI-X is turned on where the capability stands. Without a
/// message the device keeps to its wired interrupt.
pub proof fn the_interrupt_arrives_as_its_message(
    w: WireView,
    message: (u64, u32),
    probing: WireView,
    probe: WireStep,
    phys: u64,
    size: u64,
    mapping: WireView,
    map: WireStep,
    programming: WireView,
    program: WireStep,
)
    requires
        w.wf(),
        w.stage is Message,
        size + PAGE_SIZE <= u64::MAX,
        message_taken(w, Some(message), probing, probe),
        probed_to(probing, Some((phys, size)), mapping, map),
        mapped_to(mapping, true, programming, program),
    ensures
        ({
            let msix = w.layout.msix->0;
            &&& probes(probe, msix.bar)
            &&& maps_device(map, Space::Caller, 0xD810_0000, phys, size as int)
            &&& program matches WireStep::Ask(
                WireRequest::ProgramMsix { entry_va, entry, cap_ptr },
            )
            &&& entry_va == 0xD810_0000 + msix.table_offset
            &&& entry@.len() == 4
            &&& entry@[0] + entry@[1] * 0x1_0000_0000 == message.0
            &&& entry@[2] == message.1
            &&& entry@[3] == 0
            &&& cap_ptr == msix.cap_ptr
            &&& programming.stage is MsixProgram
            &&& programming.vas == w.vas && programming.layout == w.layout
        }),
{
    crate::spawn_laws::pages_and_stacks_are_tight(size as int, 0, 0);
}

/// The first queue is then given the first vector, through the common registers as the kernel sees
/// them, and the driver is told so.
pub proof fn the_queue_gets_the_first_vector(
    w: WireView,
    probing: WireView,
    probe: WireStep,
    phys: u64,
    size: u64,
    mapping: WireView,
    map: WireStep,
    assigning: WireView,
    assign: WireStep,
    after: WireView,
    step: WireStep,
)
    requires
        w.wf(),
        w.stage is MsixProgram,
        size + PAGE_SIZE <= u64::MAX,
        device_written(w, probing, probe),
        probed_to(probing, Some((phys, size)), mapping, map),
        mapped_to(mapping, true, assigning, assign),
        device_written(assigning, after, step),
    ensures
        ({
            let common = w.layout.common->0;
            &&& probes(probe, common.bar)
            &&& maps_device(map, Space::Caller, 0xD811_0000, phys, size as int)
            &&& assign matches WireStep::Ask(WireRequest::AssignVector { select_va, vector_va })
            &&& select_va == 0xD811_0000 + common.offset + 0x16
            &&& vector_va == 0xD811_0000 + common.offset + 0x1a
            &&& assigning.stage is Vector
            &&& after.vector == 0
            &&& after.vas == w.vas && after.layout == w.layout
        }),
{
    crate::spawn_laws::pages_and_stacks_are_tight(size as int, 0, 0);
}

/// A device whose interrupt cannot be set up is not wired.
pub proof fn without_its_table_the_wiring_fails(
    w: WireView,
    after: WireView,
    step: WireStep,
)
    requires
        (w.stage is MsixProbe || w.stage is CommonProbe) && probed_to(w, None, after, step) || (
        w.stage is MsixMap || w.stage is CommonMap) && mapped_to(w, false, after, step),
    ensures
        fails(after, step),
{
}

/// The step ends the wiring and tells the driver just this.
pub open spec fn tells_driver(step: WireStep, w: WireView) -> bool {
    &&& step matches WireStep::Finished(Some(wiring))
    &&& wiring.info@.len() == 7
    &&& wiring.info@[0] == 1
    &&& wiring.info@[1] == w.vas[0]
    &&& wiring.info@[2] == w.vas[1]
    &&& wiring.info@[3] == w.layout.notify_off_multiplier
    &&& wiring.info@[4] == w.vas[2]
    &&& wiring.info@[5] == w.vas[3]
    &&& wiring.info@[6] == w.vector
}

/// The driver is told that its device is on the PCI bus, where its four windows are, how far apart
/// its doorbells are, and which vector its queue has. That ends the wiring of a block device; for a
/// network device the BARs of the interrupt status and the doorbells are probed first, where there
/// are such windows.
pub proof fn the_driver_is_told_where_its_device_is(w: WireView, after: WireView, step: WireStep)
    requires
        w.vas.len() == 4,
        phys_begun(w, after, step),
    ensures
        !w.net ==> tells_driver(step, w) && step->Finished_0->0.isr_phys is None
            && step->Finished_0->0.notify_phys is None && after.stage is Over,
        w.net && w.layout.isr is Some ==> probes(step, w.layout.isr->0.bar) && after.stage
            is IsrPhys,
        w.net && w.layout.isr is None && w.layout.notify is Some ==> probes(
            step,
            w.layout.notify->0.bar,
        ) && after.stage is NotifyPhys,
        w.net && w.layout.isr is None && w.layout.notify is None ==> tells_driver(step, w)
            && step->Finished_0->0.isr_phys == w.isr_phys && step->Finished_0->0.notify_phys is None,
        after.vas == w.vas && after.layout == w.layout && after.vector == w.vector,
{
}

/// The physical addresses that are reported are those of the BARs that were probed, with the
/// offsets of the windows.
pub proof fn physical_addresses_are_reported(
    w: WireView,
    isr_base: u64,
    isr_size: u64,
    later: WireView,
    probe: WireStep,
    notify_base: u64,
    notify_size: u64,
    after: WireView,
    step: WireStep,
)
    requires
        w.wf(),
        w.stage is IsrPhys,
        w.layout.notify is Some,
        isr_base + w.layout.isr->0.offset <= u64::MAX,
        notify_base + w.layout.notify->0.offset <= u64::MAX,
        probed_to(w, Some((isr_base, isr_size)), later, probe),
        probed_to(later, Some((notify_base, notify_size)), after, step),
    ensures
        probes(probe, w.layout.notify->0.bar),
        later.stage is NotifyPhys,
        tells_driver(step, w),
        step->Finished_0->0.isr_phys is Some && step->Finished_0->0.isr_phys->0 == isr_base
            + w.layout.isr->0.offset,
        step->Finished_0->0.notify_phys is Some && step->Finished_0->0.notify_phys->0 == notify_base
            + w.layout.notify->0.offset,
{
}

} // verus!
