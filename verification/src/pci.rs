//! Finding a virtio device's registers: the capability list in its PCI configuration space and
//! the base address registers (BARs) that the capabilities refer to.

use crate::config::PAGE_SIZE;
use vstd::prelude::*;

verus! {

/// Offset of the pointer to the first capability.
pub const PCI_CAP_POINTER_OFFSET: u32 = 0x34;

/// Offset of the command register.
pub const PCI_COMMAND_OFFSET: u32 = 0x04;

/// Bit of the command register that turns on the decoding of memory BARs.
pub const PCI_COMMAND_MEMORY_SPACE: u32 = 0x2;

/// Bit of the command register that lets the device start memory transactions.
pub const PCI_COMMAND_BUS_MASTER: u32 = 0x4;

/// Id of a vendor-specific capability.
pub const PCI_CAP_ID_VENDOR_SPECIFIC: u8 = 0x09;

/// Id of the MSI-X capability.
pub const PCI_CAP_ID_MSIX: u8 = 0x11;

/// What a vendor-specific capability of a virtio device describes: the common registers.
pub const VIRTIO_PCI_CAP_COMMON_CFG: u8 = 1;

/// The doorbells.
pub const VIRTIO_PCI_CAP_NOTIFY_CFG: u8 = 2;

/// The interrupt status.
pub const VIRTIO_PCI_CAP_ISR_CFG: u8 = 3;

/// The registers of the particular kind of device.
pub const VIRTIO_PCI_CAP_DEVICE_CFG: u8 = 4;

/// Bit of the MSI-X capability's first word that turns MSI-X on.
pub const MSIX_ENABLE_BIT: u32 = 0x8000_0000;

/// Capabilities that are looked at before the list counts as broken.
pub const MAX_CAPABILITIES: u32 = 48;

/// Where the first BAR is mapped in a driver's address space.
pub const DRV_PCI_BAR_VA_BASE: u64 = 0xD840_0000;

/// Distance between the places of two BARs.
pub const DRV_PCI_BAR_VA_STRIDE: u64 = 0x10_0000;

/// BARs that a driver can have mapped.
pub const DRV_PCI_MAX_BARS: usize = 4;

/// Pages that one last-level page table maps.
pub const PAGES_PER_TABLE: u64 = 512;

/// A window of registers: an offset into a BAR.
#[derive(Debug, Clone, Copy, PartialEq, Eq, Structural)]
pub struct VirtioPciCapWindow {
    /// Which BAR.
    pub bar: u8,
    /// Byte offset.
    pub offset: u32,
}

/// Where the MSI-X table stands.
#[derive(Debug, Clone, Copy, PartialEq, Eq, Structural)]
pub struct MsixLocation {
    /// Where the capability itself stands in configuration space.
    pub cap_ptr: u8,
    /// The table's BAR.
    pub bar: u8,
    /// The table's byte offset into it.
    pub table_offset: u32,
}

/// What a virtio device's capability list describes.
#[derive(Debug, Clone, Copy, PartialEq, Eq, Structural)]
pub struct VirtioPciCapLayout {
    /// The common registers.
    pub common: Option<VirtioPciCapWindow>,
    /// The doorbells.
    pub notify: Option<VirtioPciCapWindow>,
    /// Distance between two doorbells, `0` if there are none.
    pub notify_off_multiplier: u32,
    /// The interrupt status.
    pub isr: Option<VirtioPciCapWindow>,
    /// The registers of the particular kind of device.
    pub device: Option<VirtioPciCapWindow>,
    /// The MSI-X table.
    pub msix: Option<MsixLocation>,
}

/// The configuration space of one function.
pub type ConfigSpace = [u8; PAGE_SIZE];

/// The little-endian word at an offset.
pub open spec fn word_at(config: Seq<u8>, at: int) -> u32 {
    (config[at] + config[at + 1] * 0x100 + config[at + 2] * 0x1_0000 + config[at + 3]
        * 0x100_0000) as u32
}

/// Where the capability number `n` of the list stands, `0` if the list has ended before.
pub open spec fn nth_cap(config: Seq<u8>, n: nat) -> u8
    decreases n,
{
    if n == 0 {
        config[PCI_CAP_POINTER_OFFSET as int]
    } else {
        let p = nth_cap(config, (n - 1) as nat);
        if p == 0 {
            0
        } else {
            config[p + 1]
        }
    }
}

/// Where the first `n` capabilities of the list stand, or fewer if it ends before.
pub open spec fn caps(config: Seq<u8>, n: nat) -> Seq<u8>
    decreases n,
{
    if n == 0 {
        seq![]
    } else {
        let p = nth_cap(config, (n - 1) as nat);
        if p == 0 {
            caps(config, (n - 1) as nat)
        } else {
            caps(config, (n - 1) as nat).push(p)
        }
    }
}

/// The capability at `p` is virtio's and describes what `cfg_type` stands for.
pub open spec fn is_virtio_cap(config: Seq<u8>, p: u8, cfg_type: u8) -> bool {
    config[p as int] == PCI_CAP_ID_VENDOR_SPECIFIC && config[p + 3] == cfg_type
}

/// The last capability in the list that describes what `cfg_type` stands for.
pub open spec fn last_virtio_cap(config: Seq<u8>, list: Seq<u8>, cfg_type: u8) -> Option<u8>
    decreases list.len(),
{
    if list.len() == 0 {
        None
    } else if is_virtio_cap(config, list.last(), cfg_type) {
        Some(list.last())
    } else {
        last_virtio_cap(config, list.drop_last(), cfg_type)
    }
}

/// The last MSI-X capability in the list.
pub open spec fn last_msix_cap(config: Seq<u8>, list: Seq<u8>) -> Option<u8>
    decreases list.len(),
{
    if list.len() == 0 {
        None
    } else if config[list.last() as int] == PCI_CAP_ID_MSIX {
        Some(list.last())
    } else {
        last_msix_cap(config, list.drop_last())
    }
}

/// The window that the last capability of a kind describes.
pub open spec fn window_of(config: Seq<u8>, list: Seq<u8>, cfg_type: u8) -> Option<
    VirtioPciCapWindow,
> {
    match last_virtio_cap(config, list, cfg_type) {
        Some(p) => Some(VirtioPciCapWindow { bar: config[p + 4], offset: word_at(config, p + 8) }),
        None => None,
    }
}

/// What a list of capabilities describes. Of two capabilities of one kind the later counts.
pub open spec fn layout_of(config: Seq<u8>, list: Seq<u8>) -> VirtioPciCapLayout {
    VirtioPciCapLayout {
        common: window_of(config, list, VIRTIO_PCI_CAP_COMMON_CFG),
        notify: window_of(config, list, VIRTIO_PCI_CAP_NOTIFY_CFG),
        notify_off_multiplier: match last_virtio_cap(config, list, VIRTIO_PCI_CAP_NOTIFY_CFG) {
            Some(p) => word_at(config, p + 16),
            None => 0,
        },
        isr: window_of(config, list, VIRTIO_PCI_CAP_ISR_CFG),
        device: window_of(config, list, VIRTIO_PCI_CAP_DEVICE_CFG),
        msix: match last_msix_cap(config, list) {
            Some(p) => Some(
                MsixLocation {
                    cap_ptr: p,
                    bar: (word_at(config, p + 4) % 8) as u8,
                    table_offset: (word_at(config, p + 4) - word_at(config, p + 4) % 8) as u32,
                },
            ),
            None => None,
        },
    }
}

/// Once the list has ended, looking further finds nothing more.
proof fn lemma_list_ended(config: Seq<u8>, n: nat, m: nat)
    requires
        nth_cap(config, n) == 0,
        n <= m,
    ensures
        nth_cap(config, m) == 0,
        caps(config, m) == caps(config, n),
    decreases m,
{
    if n < m {
        lemma_list_ended(config, n, (m - 1) as nat);
    }
}

fn read_word(config: &ConfigSpace, at: usize) -> (w: u32)
    requires
        at + 3 < PAGE_SIZE,
    ensures
        w == word_at(config@, at as int),
{
    config[at] as u32 + config[at + 1] as u32 * 0x100 + config[at + 2] as u32 * 0x1_0000 + config[at
        + 3] as u32 * 0x100_0000
}

/// Reads the capability list.
pub fn walk_virtio_pci_capabilities(config: &ConfigSpace) -> (layout: VirtioPciCapLayout)
    ensures
        layout == layout_of(config@, caps(config@, MAX_CAPABILITIES as nat)),
{
    let mut layout = VirtioPciCapLayout {
        common: None,
        notify: None,
        notify_off_multiplier: 0,
        isr: None,
        device: None,
        msix: None,
    };
    let mut ptr: u8 = config[PCI_CAP_POINTER_OFFSET as usize];
    let mut i: u32 = 0;
    while i < MAX_CAPABILITIES
        invariant
            i <= MAX_CAPABILITIES,
            ptr == nth_cap(config@, i as nat),
            layout == layout_of(config@, caps(config@, i as nat)),
        decreases MAX_CAPABILITIES - i,
    {
        if ptr == 0 {
            proof {
                lemma_list_ended(config@, i as nat, MAX_CAPABILITIES as nat);
            }
            return layout;
        }
        let at: usize = ptr as usize;
        let cap_id: u8 = config[at];
        let next: u8 = config[at + 1];
        if cap_id == PCI_CAP_ID_VENDOR_SPECIFIC {
            let cfg_type: u8 = config[at + 3];
            let window = VirtioPciCapWindow {
                bar: config[at + 4],
                offset: read_word(config, at + 8),
            };
            if cfg_type == VIRTIO_PCI_CAP_COMMON_CFG {
                layout.common = Some(window);
            } else if cfg_type == VIRTIO_PCI_CAP_NOTIFY_CFG {
                layout.notify = Some(window);
                layout.notify_off_multiplier = read_word(config, at + 16);
            } else if cfg_type == VIRTIO_PCI_CAP_ISR_CFG {
                layout.isr = Some(window);
            } else if cfg_type == VIRTIO_PCI_CAP_DEVICE_CFG {
                layout.device = Some(window);
            }
        } else if cap_id == PCI_CAP_ID_MSIX {
            let word: u32 = read_word(config, at + 4);
            layout.msix = Some(
                MsixLocation {
                    cap_ptr: ptr,
                    bar: (word % 8) as u8,
                    table_offset: word - word % 8,
                },
            );
        }
        proof {
            let list = caps(config@, i as nat);
            assert(caps(config@, (i + 1) as nat) == list.push(ptr));
            assert(list.push(ptr).drop_last() =~= list);
        }
        ptr = next;
        i = i + 1;
    }
    layout
}

/// The command register with memory decoding and bus mastering turned on.
pub open spec fn command_on(command: u32) -> u32 {
    command | PCI_COMMAND_MEMORY_SPACE | PCI_COMMAND_BUS_MASTER
}

/// The first word of the MSI-X capability with MSI-X turned on.
pub open spec fn msix_on(control: u32) -> u32 {
    control | MSIX_ENABLE_BIT
}

/// The command register with memory decoding and bus mastering turned on.
pub fn command_enabled(command: u32) -> (r: u32)
    ensures
        r == command_on(command),
{
    command | PCI_COMMAND_MEMORY_SPACE | PCI_COMMAND_BUS_MASTER
}

/// The MSI-X capability's first word with MSI-X turned on.
pub fn msix_enabled(control: u32) -> (r: u32)
    ensures
        r == msix_on(control),
{
    control | MSIX_ENABLE_BIT
}

/// Turning the device on changes no other bit of the registers.
pub proof fn enabling_keeps_other_bits(command: u32, control: u32, bit: u32)
    requires
        bit < 32,
    ensures
        ({
            let after = command_on(command);
            (after >> bit) & 1 == if bit == 1 || bit == 2 {
                1u32
            } else {
                (command >> bit) & 1
            }
        }),
        (msix_on(control) >> bit) & 1 == if bit == 31 {
            1u32
        } else {
            (control >> bit) & 1
        },
{
    assert(((command | 0x2u32 | 0x4u32) >> bit) & 1 == if bit == 1 || bit == 2 {
        1u32
    } else {
        (command >> bit) & 1
    }) by (bit_vector)
        requires
            bit < 32,
    ;
    assert(((control | 0x8000_0000u32) >> bit) & 1 == if bit == 31 {
        1u32
    } else {
        (control >> bit) & 1
    }) by (bit_vector)
        requires
            bit < 32,
    ;
}

/// What a BAR decodes.
#[derive(Debug, Clone, Copy, PartialEq, Eq, Structural)]
pub enum BarKind {
    /// I/O ports.
    Io,
    /// Memory; the register stands alone.
    Memory32,
    /// Memory; the next register holds the upper half of the address.
    Memory64,
}

/// What a BAR with this value decodes. Bit 0 tells ports from memory, bits 1 and 2 the width.
pub open spec fn bar_kind_of(bar: u32) -> BarKind {
    if bar % 2 != 0 {
        BarKind::Io
    } else if (bar / 2) % 4 == 2 {
        BarKind::Memory64
    } else {
        BarKind::Memory32
    }
}

/// What a BAR decodes.
pub fn bar_kind(bar: u32) -> (r: BarKind)
    ensures
        r == bar_kind_of(bar),
{
    if bar % 2 != 0 {
        BarKind::Io
    } else if (bar / 2) % 4 == 2 {
        BarKind::Memory64
    } else {
        BarKind::Memory32
    }
}

/// Offset of a BAR in configuration space.
pub open spec fn place_of_bar(index: u8) -> int {
    0x10 + 4 * index
}

/// Offset of a BAR in configuration space.
pub fn bar_offset(index: u8) -> (at: u32)
    ensures
        at == place_of_bar(index),
{
    0x10 + index as u32 * 4
}

/// The window of a 32-bit BAR: its base and its size.
///
/// `bar` is what the register held, `probe` what it read back after all ones were written. The
/// low four bits are no address bits; the address bits that stayed zero give the size.
pub open spec fn window32(bar: u32, probe: u32) -> Option<(u64, u64)> {
    if probe == 0 {
        None
    } else {
        Some(((bar - bar % 16) as u64, (0x1_0000_0000 - (probe - probe % 16)) as u64))
    }
}

/// The window of a 64-bit BAR, from its two registers.
pub open spec fn window64(bar: u32, upper: u32, probe: u32, upper_probe: u32) -> Option<
    (u64, u64),
> {
    let mask = upper_probe * 0x1_0000_0000 + (probe - probe % 16);
    if mask == 0 {
        None
    } else {
        Some(
            (
                (upper * 0x1_0000_0000 + (bar - bar % 16)) as u64,
                (0x1_0000_0000_0000_0000 - mask) as u64,
            ),
        )
    }
}

/// The window of a 32-bit BAR.
pub fn bar_window32(bar: u32, probe: u32) -> (r: Option<(u64, u64)>)
    ensures
        r == window32(bar, probe),
{
    if probe == 0 {
        return None;
    }
    Some(((bar - bar % 16) as u64, 0x1_0000_0000u64 - (probe - probe % 16) as u64))
}

/// The window of a 64-bit BAR.
pub fn bar_window64(bar: u32, upper: u32, probe: u32, upper_probe: u32) -> (r: Option<(u64, u64)>)
    ensures
        r == window64(bar, upper, probe, upper_probe),
{
    let mask: u64 = upper_probe as u64 * 0x1_0000_0000 + (probe - probe % 16) as u64;
    if mask == 0 {
        return None;
    }
    let base: u64 = upper as u64 * 0x1_0000_0000 + (bar - bar % 16) as u64;
    Some((base, u64::MAX - mask + 1))
}

/// A BAR of `size` bytes answers the probe with every address bit set that lies above its size.
/// From that answer its base and its size come out, whatever type bits stand in the low four.
pub proof fn probing_recovers_the_window(base: int, size: int, flags: int)
    requires
        0 <= flags < 16,
        size % 16 == 0,
        base % 16 == 0,
    ensures
        0 <= base < 0x1_0000_0000 && 0 < size < 0x1_0000_0000 ==> window32(
            (base + flags) as u32,
            (0x1_0000_0000 - size + flags) as u32,
        ) == Some((base as u64, size as u64)),
        0 <= base < 0x1_0000_0000_0000_0000 && 0 < size < 0x1_0000_0000_0000_0000 ==> {
            let mask = 0x1_0000_0000_0000_0000 - size;
            window64(
                (base % 0x1_0000_0000 + flags) as u32,
                (base / 0x1_0000_0000) as u32,
                (mask % 0x1_0000_0000 + flags) as u32,
                (mask / 0x1_0000_0000) as u32,
            ) == Some((base as u64, size as u64))
        },
{
    lemma_flags_drop(base, flags);
    lemma_flags_drop(0x1_0000_0000 - size, flags);
    let mask = 0x1_0000_0000_0000_0000 - size;
    lemma_low_half(base);
    lemma_low_half(mask);
    lemma_flags_drop(base % 0x1_0000_0000, flags);
    lemma_flags_drop(mask % 0x1_0000_0000, flags);
}

/// The low four bits of a register come off without a trace in the rest.
proof fn lemma_flags_drop(addr: int, flags: int)
    requires
        0 <= flags < 16,
        addr % 16 == 0,
    ensures
        0 <= addr < 0x1_0000_0000 ==> {
            let reg = (addr + flags) as u32;
            reg == addr + flags && reg - reg % 16 == addr
        },
{
    assert(addr == 16 * (addr / 16));
}

/// The lower half of an aligned address is aligned.
proof fn lemma_low_half(addr: int)
    requires
        addr % 16 == 0,
    ensures
        (addr % 0x1_0000_0000) % 16 == 0,
        0 <= addr % 0x1_0000_0000 < 0x1_0000_0000,
        addr == (addr / 0x1_0000_0000) * 0x1_0000_0000 + addr % 0x1_0000_0000,
{
    let low = addr % 0x1_0000_0000;
    assert(low == 16 * (addr / 16 - (addr / 0x1_0000_0000) * 0x1000_0000));
}

/// The number of pages that hold `bytes` bytes.
pub open spec fn pages_for(bytes: int) -> int {
    (bytes + PAGE_SIZE - 1) / PAGE_SIZE as int
}

/// Where and how a BAR is mapped.
#[derive(Debug, Clone, Copy, PartialEq, Eq, Structural)]
pub struct BarPlan {
    /// Virtual address.
    pub va: u64,
    /// Length in bytes, whole pages.
    pub len: u64,
    /// Scratch pages to set aside for page tables.
    pub pool_pages: u64,
}

/// The BARs that a driver has mapped, each with its virtual address.
#[derive(Debug, Clone, Copy, PartialEq, Eq)]
pub struct BarTable {
    /// Room for the BARs.
    pub bars: [(u8, u64); DRV_PCI_MAX_BARS],
    /// How many there are.
    pub count: usize,
}

/// The place of the BAR that is mapped as number `i`.
pub open spec fn bar_place(i: int) -> int {
    DRV_PCI_BAR_VA_BASE + i * DRV_PCI_BAR_VA_STRIDE
}

impl View for BarTable {
    type V = Seq<u8>;

    /// The BARs that are mapped, in the order of their places.
    open spec fn view(&self) -> Seq<u8> {
        Seq::new(self.count as nat, |i: int| self.bars@[i].0)
    }
}

/// How a new BAR of `size` bytes is mapped behind `count` others. `None` if there is no place
/// left, the BAR is empty, or it would reach into the next place.
pub open spec fn bar_plan(count: int, size: int) -> Option<BarPlan> {
    if count >= DRV_PCI_MAX_BARS || size == 0 || pages_for(size) * PAGE_SIZE
        > DRV_PCI_BAR_VA_STRIDE {
        None
    } else {
        Some(
            BarPlan {
                va: bar_place(count) as u64,
                len: (pages_for(size) * PAGE_SIZE) as u64,
                pool_pages: (2 + (pages_for(size) + PAGES_PER_TABLE - 1) / PAGES_PER_TABLE as int) as u64,
            },
        )
    }
}

impl BarTable {
    /// The table holds each BAR once, in its place.
    pub open spec fn wf(&self) -> bool {
        &&& self.count <= DRV_PCI_MAX_BARS
        &&& forall|i: int|
            0 <= i < self.count ==> (#[trigger] self.bars@[i]).1 == bar_place(i)
        &&& self@.no_duplicates()
    }

    /// No BAR is mapped.
    pub fn new() -> (t: Self)
        ensures
            t.wf(),
            t@ == Seq::<u8>::empty(),
    {
        let t = BarTable { bars: [(0, 0);DRV_PCI_MAX_BARS], count: 0 };
        assert(t@ =~= Seq::<u8>::empty());
        t
    }

    /// The virtual address of a BAR, if it is mapped.
    pub fn find(&self, bar: u8) -> (r: Option<u64>)
        requires
            self.wf(),
        ensures
            match r {
                Some(va) => self@.contains(bar) && va == bar_place(self@.index_of(bar)),
                None => !self@.contains(bar),
            },
    {
        let mut i: usize = 0;
        while i < self.count
            invariant
                self.wf(),
                i <= self.count,
                forall|j: int| 0 <= j < i ==> self@[j] != bar,
            decreases self.count - i,
        {
            if self.bars[i].0 == bar {
                assert(self@[i as int] == bar);
                assert(self@.contains(bar));
                return Some(self.bars[i].1);
            }
            i = i + 1;
        }
        None
    }

    /// How a BAR of `size` bytes that is not mapped yet can be.
    pub fn plan(&self, size: u64) -> (r: Option<BarPlan>)
        requires
            self.wf(),
        ensures
            r == bar_plan(self@.len() as int, size as int),
    {
        if self.count >= DRV_PCI_MAX_BARS || size == 0 || size > DRV_PCI_BAR_VA_STRIDE {
            return None;
        }
        let pages: u64 = (size + PAGE_SIZE as u64 - 1) / PAGE_SIZE as u64;
        let va: u64 = DRV_PCI_BAR_VA_BASE + self.count as u64 * DRV_PCI_BAR_VA_STRIDE;
        let pool_pages: u64 = 2 + (pages + PAGES_PER_TABLE - 1) / PAGES_PER_TABLE;
        Some(BarPlan { va, len: pages * PAGE_SIZE as u64, pool_pages })
    }

    /// Records a BAR that was mapped in the next place.
    pub fn record(&mut self, bar: u8)
        requires
            old(self).wf(),
            old(self)@.len() < DRV_PCI_MAX_BARS,
            !old(self)@.contains(bar),
        ensures
            final(self).wf(),
            final(self)@ == old(self)@.push(bar),
    {
        let va: u64 = DRV_PCI_BAR_VA_BASE + self.count as u64 * DRV_PCI_BAR_VA_STRIDE;
        self.bars[self.count] = (bar, va);
        self.count = self.count + 1;
        assert(self@ =~= old(self)@.push(bar));
    }
}

/// The BARs of a driver never overlap in its address space: each ends before the next begins.
pub proof fn bars_do_not_overlap(i: int, j: int, size: int)
    requires
        0 <= i < j,
        0 < size,
        bar_plan(i, size) is Some,
    ensures
        bar_plan(i, size)->0.va + bar_plan(i, size)->0.len <= bar_place(j),
        size <= bar_plan(i, size)->0.len,
{
    assert(bar_place(i + 1) <= bar_place(j)) by (nonlinear_arith)
        requires
            0 <= i < j,
            bar_place(i + 1) == 0xD840_0000 + (i + 1) * 0x10_0000,
            bar_place(j) == 0xD840_0000 + j * 0x10_0000,
    ;
}

} // verus!
