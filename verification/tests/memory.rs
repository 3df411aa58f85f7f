//! Subtracting holes from memory regions, and building the first process from the memory map.

use simurgh_kernel::boot::{BootInfo, MemoryRegion, PeripheralDevice};
use simurgh_kernel::memory::subtract_holes;
use simurgh_kernel::state::{KernelInitError, KernelState, RootTask};
use simurgh_kernel::tcb::ThreadState;

fn run(start: u64, end: u64, holes: &[(u64, u64)]) -> Frags {
    let mut out = [(0u64, 0u64); 8];
    let n = subtract_holes(start, end, holes, &mut out);
    Frags { out, n }
}

struct Frags {
    out: [(u64, u64); 8],
    n: usize,
}

impl Frags {
    fn as_slice(&self) -> &[(u64, u64)] {
        &self.out[..self.n]
    }
}

#[test]
fn no_holes_returns_whole_range() {
    assert_eq!(run(0, 100, &[]).as_slice(), &[(0, 100)]);
}

#[test]
fn one_interior_hole_splits_in_two() {
    assert_eq!(run(0, 100, &[(40, 60)]).as_slice(), &[(0, 40), (60, 100)]);
}

#[test]
fn two_holes_produce_three_fragments() {
    assert_eq!(
        run(0, 100, &[(60, 70), (20, 30)]).as_slice(),
        &[(0, 20), (30, 60), (70, 100)]
    );
}

#[test]
fn overlapping_holes_merge() {
    assert_eq!(
        run(0, 100, &[(20, 50), (40, 70)]).as_slice(),
        &[(0, 20), (70, 100)]
    );
}

#[test]
fn hole_at_start_and_end_clamps() {
    assert_eq!(
        run(100, 200, &[(0, 120), (180, 999)]).as_slice(),
        &[(120, 180)]
    );
}

#[test]
fn hole_covering_everything_yields_nothing() {
    assert_eq!(run(0, 100, &[(0, 100)]).as_slice(), &[] as &[(u64, u64)]);
}

#[test]
fn empty_and_distant_holes_change_nothing() {
    assert_eq!(run(10, 20, &[(15, 15), (30, 40), (0, 10)]).as_slice(), &[(10, 20)]);
    assert_eq!(run(20, 10, &[]).as_slice(), &[] as &[(u64, u64)]);
}

#[test]
fn holes_that_touch_leave_no_fragment_between_them() {
    assert_eq!(
        run(0, 100, &[(30, 50), (50, 60), (10, 30)]).as_slice(),
        &[(0, 10), (60, 100)]
    );
}

#[test]
fn fragments_beyond_the_room_are_left_out() {
    let mut out = [(0u64, 0u64); 2];
    let n = subtract_holes(0, 100, &[(10, 20), (30, 40), (50, 60)], &mut out);
    assert_eq!(n, 2);
    assert_eq!(out, [(0, 10), (20, 30)]);
}

fn boot<'a>(regions: &'a [MemoryRegion], devices: &'a [PeripheralDevice]) -> BootInfo<'a> {
    BootInfo {
        valid: true,
        initial_page_table_phys: 0,
        kernel_image: (0x10_0000, 0x20_0000),
        boot_reserved: (0x20_0000, 0x21_0000),
        regions,
        devices,
    }
}

fn usable(base: u64, length: u64) -> MemoryRegion {
    MemoryRegion { base, length, usable: true }
}

/// The state after the scheduler admitted the first thread.
fn booted(boot: &BootInfo) -> (KernelState<4>, RootTask) {
    let (mut k, root) = KernelState::<4>::from_boot_info(boot).unwrap();
    k.adopt_root_task(root, true).unwrap();
    (k, root)
}

#[test]
fn rejects_manifest_with_no_memory() {
    // A memory map without regions does not pass its own validation.
    let mut info = boot(&[], &[]);
    info.valid = false;
    assert!(matches!(
        KernelState::<4>::from_boot_info(&info),
        Err(KernelInitError::BadBootInfo)
    ));
}

#[test]
fn memory_that_is_all_taken_is_no_memory() {
    // Below and inside the kernel image, reserved, less than a page, or not usable at all.
    let regions = [
        usable(0x1000, 0x1f_f000),
        usable(0x20_0000, 0x1_0000),
        usable(0x30_0000, 0xfff),
        MemoryRegion { base: 0x100_0000, length: 0x100_0000, usable: false },
    ];
    assert!(matches!(
        KernelState::<4>::from_boot_info(&boot(&regions, &[])),
        Err(KernelInitError::NoUsableMemory)
    ));
}

#[test]
fn memory_below_and_around_the_kernel_is_held_back() {
    let regions = [usable(0x18_0000, 0x20_0800)];
    let (st, root) = booted(&boot(&regions, &[]));
    assert_eq!(root.untyped_count, 1);
    let u = st.untyped(simurgh_kernel::ids::UntypedId::new(0)).unwrap();
    assert_eq!((u.base, u.size), (0x21_0000, 0x17_0800));
}

#[test]
fn a_root_task_that_was_not_scheduled_is_not_adopted() {
    let regions = [usable(0x100_0000, 0x10_0000)];
    let (mut k, root) = KernelState::<4>::from_boot_info(&boot(&regions, &[])).unwrap();
    assert_eq!(
        k.adopt_root_task(root, false),
        Err(KernelInitError::CapacityExhausted)
    );
    assert_eq!(k.tcb(root.thread).unwrap().state, ThreadState::Inactive);
}
