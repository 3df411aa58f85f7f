//! Entering user mode: the root task's address space is built around its image, and, if the
//! image holds a second process, that process is set up beside it with one frame shared
//! between the two.
//!
//! Entering runs in steps, each of which ends with one request to the memory layer, or with
//! what to run.

use crate::boot::started;
use crate::config::PAGE_SIZE;
use crate::ids::{PageTableId, ThreadId};
use crate::objects::AddressSpace;
use crate::paging::{
    map_from, mapping_from, round4k, stack_top, top_of, whole, PoolCursor, RangeMapping, UserImage,
    MAP_FAILED, ROOT_TABLE_BYTES, USER_CODE, USER_DATA,
};
use crate::state::{
    first_free, lemma_first_free, slot, untyped_bytes, KernelInitError, KernelState, KernelView,
    MapPool,
};
use crate::tcb::inactive_tcb;
use vstd::prelude::*;

verus! {

/// Scratch frames of each of the two address spaces, and of later mappings.
pub const POOL_FRAMES: usize = 8;

/// Virtual address of the second process's stack.
pub const P2_STACK_B_VMA: usize = 0xC010_0000;

/// Length of the second process's stack in bytes.
pub const P2_STACK_B_LEN: usize = 16384;

/// Where the root task sees the shared frame.
pub const P2_VA_A: usize = 0xC004_0000;

/// Where the second process sees the shared frame.
pub const P2_VA_B: usize = 0xC020_0000;

/// Offset of the root task's counter in the shared frame.
pub const P2_COUNTER_A_OFF: usize = 8;

/// Offset of the second process's counter in the shared frame.
pub const P2_COUNTER_B_OFF: usize = 12;

/// Why the kernel could not be brought up.
#[derive(Debug, Clone, Copy, PartialEq, Eq, Structural)]
pub enum RunError {
    /// The initial state could not be built.
    Init(KernelInitError),
}

impl From<KernelInitError> for RunError {
    fn from(e: KernelInitError) -> (r: Self) {
        RunError::Init(e)
    }
}

impl vstd::std_specs::convert::FromSpecImpl<KernelInitError> for RunError {
    open spec fn obeys_from_spec() -> bool {
        true
    }

    open spec fn from_spec(e: KernelInitError) -> Self {
        RunError::Init(e)
    }
}

/// How the machine was booted.
#[derive(Debug, Clone, Copy, PartialEq, Eq, Structural)]
pub enum BootProtocol {
    /// By UEFI firmware.
    Uefi,
    /// By SBI firmware, with a device tree.
    SbiDeviceTree,
}

/// What the boot binary says of itself in the report.
#[derive(Debug, Clone, Copy, PartialEq, Eq, Structural)]
pub struct BootFacts {
    /// How the machine was booted.
    pub protocol: BootProtocol,
    /// Logical CPU cores.
    pub cpu_cores: usize,
    /// Frequency of the monotonic timer in Hz.
    pub timer_hz: u64,
    /// Devices that the boot-time scan found.
    pub peripheral_devices: u32,
}

/// What the kernel is like once its initial state is built.
#[derive(Debug, Clone, Copy, PartialEq, Eq, Structural)]
pub struct BootReport {
    /// How the machine was booted.
    pub protocol: BootProtocol,
    /// Logical CPU cores.
    pub cpu_cores: usize,
    /// Frequency of the monotonic timer in Hz.
    pub timer_hz: u64,
    /// Untyped memory objects that the root task was given.
    pub untyped_objects: u32,
    /// Bytes that they cover together.
    pub total_untyped_bytes: u64,
    /// Devices that the boot-time scan found.
    pub peripheral_devices: u32,
    /// The root task's thread.
    pub root_thread: u32,
    /// The thread that the scheduler would run first.
    pub first_scheduled: Option<u32>,
}

/// Why the processor is halted instead of entering user mode.
#[derive(Debug, Clone, Copy, PartialEq, Eq, Structural)]
pub enum HaltReason {
    /// There is no image.
    NoImage,
    /// There is no memory for page tables.
    NoFrames,
    /// There is no memory for the scratch frames of later mappings.
    NoMapPool,
    /// The image could not be mapped.
    MapFailed,
}

/// The memory of the second process.
#[derive(Debug, Clone, Copy, PartialEq, Eq, Structural)]
pub struct SecondFrames {
    /// Physical address of the shared frame.
    pub shared: usize,
    /// Physical address of its root page table.
    pub root_pt: usize,
    /// Physical address of its scratch frames.
    pub pool: usize,
    /// Physical address of its stack.
    pub stack: usize,
}

/// What entering user mode asks for.
#[derive(Debug, Clone, Copy, PartialEq, Eq)]
pub enum EnterRequest {
    /// Reserve memory for both of these. Reply: `reserved`.
    Reserve {
        /// Bytes for the root page table.
        root_bytes: usize,
        /// Bytes for the scratch frames.
        pool_bytes: usize,
    },
    /// Reserve memory. Reply: `pool_reserved`.
    ReservePool {
        /// Bytes.
        bytes: usize,
    },
    /// Reserve memory for all of these. Reply: `second_reserved`.
    ReserveSecond {
        /// Bytes for the shared frame.
        shared_bytes: usize,
        /// Bytes for the root page table.
        root_bytes: usize,
        /// Bytes for the scratch frames.
        pool_bytes: usize,
        /// Bytes for the stack.
        stack_bytes: usize,
    },
    /// Zero two ranges and map the kernel into an address space. Reply: `prepared`.
    Prepare {
        /// Physical address of the root page table.
        root_pt: usize,
        /// The ranges, each with its physical address and its length.
        zero: (usize, usize),
        /// The second one.
        zero_too: (usize, usize),
    },
    /// Map a range. Reply: `mapped`.
    MapRange(RangeMapping),
}

/// What to run.
#[derive(Debug, Clone, Copy, PartialEq, Eq, Structural)]
pub enum Entered {
    /// Nothing.
    Halt(HaltReason),
    /// The root task alone: activate its address space and drop to user mode.
    Single {
        /// Physical address of its root page table.
        root_pt: usize,
        /// Where it starts.
        entry: usize,
        /// The stack pointer it starts with.
        sp: usize,
    },
    /// Both processes: admit their threads to the scheduler, put the root task's on the CPU,
    /// activate its address space and resume its context.
    Two {
        /// Physical address of the root task's root page table.
        root_pt: usize,
        /// The stack pointer it starts with.
        sp: usize,
        /// The second process's thread.
        worker: ThreadId,
        /// Physical address of its root page table.
        worker_root_pt: usize,
        /// The stack pointer it starts with.
        worker_sp: usize,
        /// Physical address of the shared frame.
        shared: usize,
    },
}

/// How a step ended.
#[derive(Debug, Clone, Copy, PartialEq, Eq)]
pub enum EnterStep {
    /// With a request.
    Ask(EnterRequest),
    /// With what to run.
    Finished(Entered),
}

/// What entering user mode waits for.
#[derive(Debug, Clone, Copy, PartialEq, Eq, Structural)]
pub enum EnterStage {
    /// Memory for page tables.
    Frames,
    /// Scratch frames for later mappings.
    MapPool,
    /// The root task's address space.
    Space,
    /// The mapping of the root task's code.
    Text,
    /// The mapping of the root task's stack.
    Stack,
    /// Memory for the second process.
    Second,
    /// The second process's address space.
    SecondSpace,
    /// The mapping of the shared frame for the root task.
    SharedA,
    /// The mapping of the code for the second process.
    TextB,
    /// The mapping of the second process's stack.
    StackB,
    /// The mapping of the shared frame for the second process.
    SharedB,
    /// Nothing.
    Over,
}

/// Entering user mode, under way.
#[derive(Debug, Clone, Copy, PartialEq, Eq, Structural)]
pub struct Enter {
    /// The image.
    pub user: UserImage,
    /// Physical address of the root task's root page table.
    pub root_pt: usize,
    /// The root task's scratch frames.
    pub pool: PoolCursor,
    /// Physical address of the scratch frames for later mappings.
    pub map_pool: usize,
    /// The memory of the second process.
    pub second: SecondFrames,
    /// The second process's scratch frames.
    pub second_pool: PoolCursor,
    /// What it waits for.
    pub stage: EnterStage,
}

/// The image's parts can be counted in pages.
pub open spec fn image_fits(user: UserImage) -> bool {
    &&& user.text_len + PAGE_SIZE - 1 <= usize::MAX
    &&& user.stack_len + PAGE_SIZE - 1 <= usize::MAX
    &&& user.stack_vma + user.stack_len <= usize::MAX
}

/// A pool of that many frames at this address is addressable.
pub open spec fn pool_fits(base: int) -> bool {
    base + POOL_FRAMES * PAGE_SIZE <= usize::MAX
}

impl Enter {
    /// What holds between two steps.
    pub open spec fn wf(self) -> bool {
        &&& image_fits(self.user)
        &&& self.pool.wf()
        &&& self.second_pool.wf()
        &&& pool_fits(self.map_pool as int)
    }
}

/// Halted.
pub open spec fn halted(e: Enter, reason: HaltReason) -> (Enter, EnterStep) {
    (Enter { stage: EnterStage::Over, ..e }, EnterStep::Finished(Entered::Halt(reason)))
}

/// The kernel state with the scratch frames for later mappings installed.
pub open spec fn pool_installed(k: KernelView, e: Enter) -> KernelView {
    KernelView {
        map_pool: MapPool { base: e.map_pool, len: POOL_FRAMES as u32, used: 0 },
        ..k
    }
}

/// The root task is run alone.
pub open spec fn alone(k: KernelView, e: Enter) -> (KernelView, (Enter, EnterStep)) {
    (
        pool_installed(k, e),
        (
            Enter { stage: EnterStage::Over, ..e },
            EnterStep::Finished(
                Entered::Single {
                    root_pt: e.root_pt,
                    entry: e.user.entry_vma,
                    sp: top_of(e.user.stack_vma as int, e.user.stack_len as int) as usize,
                },
            ),
        ),
    )
}

/// The next request, and the stage that waits for its reply.
pub open spec fn asked(e: Enter, stage: EnterStage, request: EnterRequest) -> (Enter, EnterStep) {
    (Enter { stage, ..e }, EnterStep::Ask(request))
}

/// Entering user mode at a stage at which nothing is reserved yet.
pub open spec fn enter_at(user: UserImage, stage: EnterStage) -> Enter {
    Enter {
        user,
        root_pt: 0,
        pool: PoolCursor { base: 0, pages: 0, used: 0 },
        map_pool: 0,
        second: SecondFrames { shared: 0, root_pt: 0, pool: 0, stack: 0 },
        second_pool: PoolCursor { base: 0, pages: 0, used: 0 },
        stage,
    }
}

/// What entering begins with: without an image there is nothing to enter.
pub open spec fn entering(k: KernelView, user: UserImage) -> (KernelView, EnterStage, EnterStep) {
    if user.text_len == 0 {
        (k, EnterStage::Over, EnterStep::Finished(Entered::Halt(HaltReason::NoImage)))
    } else {
        (
            KernelView { tcbs: started(k.tcbs, k.root.thread, user.entry_vma), ..k },
            EnterStage::Frames,
            EnterStep::Ask(
                EnterRequest::Reserve {
                    root_bytes: ROOT_TABLE_BYTES,
                    pool_bytes: (POOL_FRAMES * PAGE_SIZE) as usize,
                },
            ),
        )
    }
}

/// The kernel state with the root page table of the root task's address space replaced.
pub open spec fn root_rebound(k: KernelView, root_pt: usize) -> KernelView {
    match slot(k.addr_spaces, k.root.addr_space.0) {
        Some(_) => KernelView {
            addr_spaces: k.addr_spaces.update(
                k.root.addr_space.0 as int,
                Some(AddressSpace { root_phys: root_pt as u64 }),
            ),
            ..k
        },
        None => k,
    }
}

/// What follows the reservation of memory for page tables.
pub open spec fn frames_taken(
    k: KernelView,
    e: Enter,
    root_pt: Option<usize>,
    pool: Option<usize>,
) -> (KernelView, (Enter, EnterStep)) {
    match (root_pt, pool) {
        (Some(r), Some(p)) => (
            root_rebound(k, r),
            asked(
                Enter {
                    root_pt: r,
                    pool: PoolCursor { base: p, pages: POOL_FRAMES, used: 0 },
                    ..e
                },
                EnterStage::MapPool,
                EnterRequest::ReservePool { bytes: (POOL_FRAMES * PAGE_SIZE) as usize },
            ),
        ),
        _ => (k, halted(e, HaltReason::NoFrames)),
    }
}

/// What follows the reservation of scratch frames for later mappings.
pub open spec fn map_pool_taken(e: Enter, map_pool: Option<usize>) -> (Enter, EnterStep) {
    match map_pool {
        Some(p) => asked(
            Enter { map_pool: p, ..e },
            EnterStage::Space,
            EnterRequest::Prepare {
                root_pt: e.root_pt,
                zero: (e.pool.base, (POOL_FRAMES * PAGE_SIZE) as usize),
                zero_too: (p, (POOL_FRAMES * PAGE_SIZE) as usize),
            },
        ),
        None => halted(e, HaltReason::NoMapPool),
    }
}

/// What follows the preparation of an address space.
pub open spec fn space_ready(e: Enter) -> (Enter, EnterStep) {
    if e.stage is Space {
        asked(
            e,
            EnterStage::Text,
            EnterRequest::MapRange(
                mapping_from(
                    e.pool,
                    e.root_pt,
                    e.user.text_vma,
                    e.user.text_lma,
                    whole(e.user.text_len as int),
                    USER_CODE,
                ),
            ),
        )
    } else {
        asked(
            e,
            EnterStage::SharedA,
            EnterRequest::MapRange(
                mapping_from(
                    e.pool,
                    e.root_pt,
                    P2_VA_A,
                    e.second.shared,
                    PAGE_SIZE as int,
                    USER_DATA,
                ),
            ),
        )
    }
}

/// What follows the reservation of memory for the second process.
pub open spec fn second_taken(k: KernelView, e: Enter, frames: Option<SecondFrames>) -> (
    KernelView,
    (Enter, EnterStep),
) {
    match frames {
        Some(f) => (
            k,
            asked(
                Enter {
                    second: f,
                    second_pool: PoolCursor { base: f.pool, pages: POOL_FRAMES, used: 0 },
                    ..e
                },
                EnterStage::SecondSpace,
                EnterRequest::Prepare {
                    root_pt: f.root_pt,
                    zero: (f.pool, (POOL_FRAMES * PAGE_SIZE) as usize),
                    zero_too: (f.shared, PAGE_SIZE),
                },
            ),
        ),
        None => alone(k, e),
    }
}

/// The second process comes into being: the root task's thread is runnable, and a new thread in
/// the root task's capability space and a new address space is, too. What was created before a
/// table turned out to be full stays.
pub open spec fn pair_made(k: KernelView, e: Enter, spawner: Option<ThreadId>) -> (
    KernelView,
    Option<ThreadId>,
) {
    let k1 = KernelView { tcbs: started(k.tcbs, k.root.thread, e.user.entry_vma), ..k };
    match first_free(k1.addr_spaces) {
        None => (k1, None),
        Some(a) => {
            let k2 = KernelView {
                addr_spaces: k1.addr_spaces.update(
                    a,
                    Some(AddressSpace { root_phys: e.second.root_pt as u64 }),
                ),
                ..k1
            };
            match first_free(k2.tcbs) {
                None => (k2, None),
                Some(t) => {
                    let worker = ThreadId(t as u32);
                    let tcb = inactive_tcb(
                        worker,
                        k.root.cap_space,
                        PageTableId(a as u32),
                        spawner,
                    );
                    (
                        KernelView {
                            tcbs: started(
                                k2.tcbs.update(t, Some(tcb)),
                                worker,
                                e.user.worker_entry_vma,
                            ),
                            ..k2
                        },
                        Some(worker),
                    )
                },
            }
        },
    }
}

/// What follows a mapping that used up `n` scratch frames.
pub open spec fn enter_mapped(k: KernelView, e: Enter, n: u32, spawner: Option<ThreadId>) -> (
    KernelView,
    (Enter, EnterStep),
) {
    let first = Enter { pool: e.pool.after(n), ..e };
    let second = Enter { second_pool: e.second_pool.after(n), ..e };
    match e.stage {
        EnterStage::Text => if n == MAP_FAILED {
            (k, halted(e, HaltReason::MapFailed))
        } else {
            (
                k,
                asked(
                    first,
                    EnterStage::Stack,
                    EnterRequest::MapRange(
                        mapping_from(
                            first.pool,
                            e.root_pt,
                            e.user.stack_vma,
                            e.user.stack_lma,
                            whole(e.user.stack_len as int),
                            USER_DATA,
                        ),
                    ),
                ),
            )
        },
        EnterStage::Stack => if n == MAP_FAILED {
            (k, halted(e, HaltReason::MapFailed))
        } else if e.user.worker_entry_vma == 0 {
            alone(k, first)
        } else {
            (
                k,
                asked(
                    first,
                    EnterStage::Second,
                    EnterRequest::ReserveSecond {
                        shared_bytes: PAGE_SIZE,
                        root_bytes: ROOT_TABLE_BYTES,
                        pool_bytes: (POOL_FRAMES * PAGE_SIZE) as usize,
                        stack_bytes: P2_STACK_B_LEN,
                    },
                ),
            )
        },
        _ => if n == MAP_FAILED {
            alone(k, e)
        } else {
            match e.stage {
                EnterStage::SharedA => (
                    k,
                    asked(
                        first,
                        EnterStage::TextB,
                        EnterRequest::MapRange(
                            mapping_from(
                                e.second_pool,
                                e.second.root_pt,
                                e.user.text_vma,
                                e.user.text_lma,
                                whole(e.user.text_len as int),
                                USER_CODE,
                            ),
                        ),
                    ),
                ),
                EnterStage::TextB => (
                    k,
                    asked(
                        second,
                        EnterStage::StackB,
                        EnterRequest::MapRange(
                            mapping_from(
                                second.second_pool,
                                e.second.root_pt,
                                P2_STACK_B_VMA,
                                e.second.stack,
                                P2_STACK_B_LEN as int,
                                USER_DATA,
                            ),
                        ),
                    ),
                ),
                EnterStage::StackB => (
                    k,
                    asked(
                        second,
                        EnterStage::SharedB,
                        EnterRequest::MapRange(
                            mapping_from(
                                second.second_pool,
                                e.second.root_pt,
                                P2_VA_B,
                                e.second.shared,
                                PAGE_SIZE as int,
                                USER_DATA,
                            ),
                        ),
                    ),
                ),
                _ => match pair_made(k, e, spawner) {
                    (made, None) => alone(made, second),
                    (made, Some(worker)) => (
                        pool_installed(made, e),
                        (
                            Enter { stage: EnterStage::Over, ..second },
                            EnterStep::Finished(
                                Entered::Two {
                                    root_pt: e.root_pt,
                                    sp: top_of(
                                        e.user.stack_vma as int,
                                        e.user.stack_len as int,
                                    ) as usize,
                                    worker,
                                    worker_root_pt: e.second.root_pt,
                                    worker_sp: top_of(
                                        P2_STACK_B_VMA as int,
                                        P2_STACK_B_LEN as int,
                                    ) as usize,
                                    shared: e.second.shared,
                                },
                            ),
                        ),
                    ),
                },
            }
        },
    }
}

/// The pool that the mapping under way draws on can have given `n` frames.
pub open spec fn enter_can_use(e: Enter, n: u32) -> bool {
    if e.stage is Text || e.stage is Stack || e.stage is SharedA {
        e.pool.can_use(n)
    } else {
        e.second_pool.can_use(n)
    }
}

/// What the initial state is like.
pub open spec fn reported(k: KernelView, facts: BootFacts, first_scheduled: Option<ThreadId>) -> BootReport {
    BootReport {
        protocol: facts.protocol,
        cpu_cores: facts.cpu_cores,
        timer_hz: facts.timer_hz,
        untyped_objects: k.root.untyped_count,
        total_untyped_bytes: untyped_bytes(k.untyped) as u64,
        peripheral_devices: facts.peripheral_devices,
        root_thread: k.root.thread.0,
        first_scheduled: match first_scheduled {
            Some(t) => Some(t.0),
            None => None,
        },
    }
}

impl<const MMIO: usize> KernelState<MMIO> {
    /// What the initial state is like.
    pub fn boot_report(&self, facts: BootFacts, first_scheduled: Option<ThreadId>) -> (r: BootReport)
        requires
            self.wf(),
            untyped_bytes(self@.untyped) <= u64::MAX,
        ensures
            r == reported(self@, facts, first_scheduled),
    {
        let root = self.root();
        BootReport {
            protocol: facts.protocol,
            cpu_cores: facts.cpu_cores,
            timer_hz: facts.timer_hz,
            untyped_objects: root.untyped_count,
            total_untyped_bytes: self.total_untyped_bytes(),
            peripheral_devices: facts.peripheral_devices,
            root_thread: root.thread.as_u32(),
            first_scheduled: match first_scheduled {
                Some(t) => Some(t.as_u32()),
                None => None,
            },
        }
    }
}

impl Enter {
    fn ask(&mut self, stage: EnterStage, request: EnterRequest) -> (step: EnterStep)
        requires
            old(self).wf(),
        ensures
            final(self).wf(),
            (*final(self), step) == asked(*old(self), stage, request),
    {
        self.stage = stage;
        EnterStep::Ask(request)
    }

    fn halt(&mut self, reason: HaltReason) -> (step: EnterStep)
        requires
            old(self).wf(),
        ensures
            final(self).wf(),
            (*final(self), step) == halted(*old(self), reason),
    {
        self.stage = EnterStage::Over;
        EnterStep::Finished(Entered::Halt(reason))
    }

    fn go_alone<const MMIO: usize>(&mut self, k: &mut KernelState<MMIO>) -> (step: EnterStep)
        requires
            old(k).wf(),
            old(self).wf(),
        ensures
            final(k).wf(),
            final(self).wf(),
            (final(k)@, (*final(self), step)) == alone(old(k)@, *old(self)),
    {
        k.install_map_pool(self.map_pool, POOL_FRAMES as u32);
        self.stage = EnterStage::Over;
        EnterStep::Finished(
            Entered::Single {
                root_pt: self.root_pt,
                entry: self.user.entry_vma,
                sp: stack_top(self.user.stack_vma, self.user.stack_len),
            },
        )
    }

    /// Begins to enter user mode with the root task's image.
    pub fn enter<const MMIO: usize>(k: &mut KernelState<MMIO>, user: UserImage) -> (r: (
        Self,
        EnterStep,
    ))
        requires
            old(k).wf(),
            image_fits(user),
        ensures
            final(k).wf(),
            r.0.wf(),
            r.0 == enter_at(user, r.0.stage),
            (final(k)@, r.0.stage, r.1) == entering(old(k)@, user),
    {
        let mut e = Enter {
            user,
            root_pt: 0,
            pool: PoolCursor::new(0, 0),
            map_pool: 0,
            second: SecondFrames { shared: 0, root_pt: 0, pool: 0, stack: 0 },
            second_pool: PoolCursor::new(0, 0),
            stage: EnterStage::Frames,
        };
        if user.text_len == 0 {
            let step = e.halt(HaltReason::NoImage);
            return (e, step);
        }
        let root = k.root().thread;
        let _ = k.mark_runnable(root, user.entry_vma);
        let step = e.ask(
            EnterStage::Frames,
            EnterRequest::Reserve {
                root_bytes: ROOT_TABLE_BYTES,
                pool_bytes: POOL_FRAMES * PAGE_SIZE,
            },
        );
        (e, step)
    }

    /// Goes on with the memory for page tables.
    pub fn reserved<const MMIO: usize>(
        &mut self,
        k: &mut KernelState<MMIO>,
        root_pt: Option<usize>,
        pool: Option<usize>,
    ) -> (step: EnterStep)
        requires
            old(k).wf(),
            old(self).wf(),
            old(self).stage is Frames,
            pool matches Some(p) ==> pool_fits(p as int),
        ensures
            final(k).wf(),
            final(self).wf(),
            (final(k)@, (*final(self), step)) == frames_taken(old(k)@, *old(self), root_pt, pool),
    {
        match (root_pt, pool) {
            (Some(r), Some(p)) => {
                self.root_pt = r;
                self.pool = PoolCursor::new(p, POOL_FRAMES);
                let space = k.root().addr_space;
                if let Some(a) = k.addr_space_mut(space) {
                    a.root_phys = r as u64;
                }
                self.ask(
                    EnterStage::MapPool,
                    EnterRequest::ReservePool { bytes: POOL_FRAMES * PAGE_SIZE },
                )
            },
            _ => self.halt(HaltReason::NoFrames),
        }
    }

    /// Goes on with the scratch frames for later mappings.
    pub fn pool_reserved(&mut self, map_pool: Option<usize>) -> (step: EnterStep)
        requires
            old(self).wf(),
            old(self).stage is MapPool,
            map_pool matches Some(p) ==> pool_fits(p as int),
        ensures
            final(self).wf(),
            (*final(self), step) == map_pool_taken(*old(self), map_pool),
    {
        match map_pool {
            Some(p) => {
                self.map_pool = p;
                let request = EnterRequest::Prepare {
                    root_pt: self.root_pt,
                    zero: (self.pool.base, POOL_FRAMES * PAGE_SIZE),
                    zero_too: (p, POOL_FRAMES * PAGE_SIZE),
                };
                self.ask(EnterStage::Space, request)
            },
            None => self.halt(HaltReason::NoMapPool),
        }
    }

    /// Goes on once the kernel is mapped in an address space.
    pub fn prepared(&mut self) -> (step: EnterStep)
        requires
            old(self).wf(),
            old(self).stage is Space || old(self).stage is SecondSpace,
        ensures
            final(self).wf(),
            (*final(self), step) == space_ready(*old(self)),
    {
        if matches!(self.stage, EnterStage::Space) {
            let len: usize = round4k(self.user.text_len);
            let m = map_from(
                &self.pool,
                self.root_pt,
                self.user.text_vma,
                self.user.text_lma,
                len,
                USER_CODE,
            );
            self.ask(EnterStage::Text, EnterRequest::MapRange(m))
        } else {
            let m = map_from(
                &self.pool,
                self.root_pt,
                P2_VA_A,
                self.second.shared,
                PAGE_SIZE,
                USER_DATA,
            );
            self.ask(EnterStage::SharedA, EnterRequest::MapRange(m))
        }
    }

    /// Goes on with the memory for the second process. Without it the root task runs alone.
    pub fn second_reserved<const MMIO: usize>(
        &mut self,
        k: &mut KernelState<MMIO>,
        frames: Option<SecondFrames>,
    ) -> (step: EnterStep)
        requires
            old(k).wf(),
            old(self).wf(),
            old(self).stage is Second,
            frames matches Some(f) ==> pool_fits(f.pool as int),
        ensures
            final(k).wf(),
            final(self).wf(),
            (final(k)@, (*final(self), step)) == second_taken(old(k)@, *old(self), frames),
    {
        match frames {
            Some(f) => {
                self.second = f;
                self.second_pool = PoolCursor::new(f.pool, POOL_FRAMES);
                self.ask(
                    EnterStage::SecondSpace,
                    EnterRequest::Prepare {
                        root_pt: f.root_pt,
                        zero: (f.pool, POOL_FRAMES * PAGE_SIZE),
                        zero_too: (f.shared, PAGE_SIZE),
                    },
                )
            },
            None => self.go_alone(k),
        }
    }

    /// Goes on after a mapping that used up `n` scratch frames. If the root task's own image
    /// cannot be mapped there is nothing to run; if anything of the second process cannot, the
    /// root task runs alone.
    pub fn mapped<const MMIO: usize>(
        &mut self,
        k: &mut KernelState<MMIO>,
        n: u32,
        spawner: Option<ThreadId>,
    ) -> (step: EnterStep)
        requires
            old(k).wf(),
            old(self).wf(),
            old(self).stage is Text || old(self).stage is Stack || old(self).stage is SharedA
                || old(self).stage is TextB || old(self).stage is StackB || old(self).stage
                is SharedB,
            enter_can_use(*old(self), n),
        ensures
            final(k).wf(),
            final(self).wf(),
            (final(k)@, (*final(self), step)) == enter_mapped(old(k)@, *old(self), n, spawner),
    {
        match self.stage {
            EnterStage::Text => {
                if !self.pool.consume(n) {
                    return self.halt(HaltReason::MapFailed);
                }
                let len: usize = round4k(self.user.stack_len);
                let m = map_from(
                    &self.pool,
                    self.root_pt,
                    self.user.stack_vma,
                    self.user.stack_lma,
                    len,
                    USER_DATA,
                );
                self.ask(EnterStage::Stack, EnterRequest::MapRange(m))
            },
            EnterStage::Stack => {
                if !self.pool.consume(n) {
                    return self.halt(HaltReason::MapFailed);
                }
                if self.user.worker_entry_vma == 0 {
                    return self.go_alone(k);
                }
                self.ask(
                    EnterStage::Second,
                    EnterRequest::ReserveSecond {
                        shared_bytes: PAGE_SIZE,
                        root_bytes: ROOT_TABLE_BYTES,
                        pool_bytes: POOL_FRAMES * PAGE_SIZE,
                        stack_bytes: P2_STACK_B_LEN,
                    },
                )
            },
            EnterStage::SharedA => {
                if !self.pool.consume(n) {
                    return self.go_alone(k);
                }
                let len: usize = round4k(self.user.text_len);
                let m = map_from(
                    &self.second_pool,
                    self.second.root_pt,
                    self.user.text_vma,
                    self.user.text_lma,
                    len,
                    USER_CODE,
                );
                self.ask(EnterStage::TextB, EnterRequest::MapRange(m))
            },
            EnterStage::TextB => {
                if !self.second_pool.consume(n) {
                    return self.go_alone(k);
                }
                let m = map_from(
                    &self.second_pool,
                    self.second.root_pt,
                    P2_STACK_B_VMA,
                    self.second.stack,
                    P2_STACK_B_LEN,
                    USER_DATA,
                );
                self.ask(EnterStage::StackB, EnterRequest::MapRange(m))
            },
            EnterStage::StackB => {
                if !self.second_pool.consume(n) {
                    return self.go_alone(k);
                }
                let m = map_from(
                    &self.second_pool,
                    self.second.root_pt,
                    P2_VA_B,
                    self.second.shared,
                    PAGE_SIZE,
                    USER_DATA,
                );
                self.ask(EnterStage::SharedB, EnterRequest::MapRange(m))
            },
            _ => {
                if !self.second_pool.consume(n) {
                    return self.go_alone(k);
                }
                match self.make_pair(k, spawner) {
                    Some(worker) => {
                        k.install_map_pool(self.map_pool, POOL_FRAMES as u32);
                        self.stage = EnterStage::Over;
                        EnterStep::Finished(
                            Entered::Two {
                                root_pt: self.root_pt,
                                sp: stack_top(self.user.stack_vma, self.user.stack_len),
                                worker,
                                worker_root_pt: self.second.root_pt,
                                worker_sp: stack_top(P2_STACK_B_VMA, P2_STACK_B_LEN),
                                shared: self.second.shared,
                            },
                        )
                    },
                    None => self.go_alone(k),
                }
            },
        }
    }

    /// Makes the root task's thread runnable and gives the second process its address space and
    /// thread.
    fn make_pair<const MMIO: usize>(
        &self,
        k: &mut KernelState<MMIO>,
        spawner: Option<ThreadId>,
    ) -> (r: Option<ThreadId>)
        requires
            old(k).wf(),
        ensures
            final(k).wf(),
            (final(k)@, r) == pair_made(old(k)@, *self, spawner),
    {
        let root = k.root();
        let _ = k.init_user_thread(root.thread, self.user.entry_vma);
        let space = match k.alloc_addr_space(self.second.root_pt as u64) {
            Some(a) => a,
            None => {
                return None;
            },
        };
        let worker = match k.alloc_tcb(root.cap_space, space, spawner) {
            Some(t) => t,
            None => {
                return None;
            },
        };
        let _ = k.init_user_thread(worker, self.user.worker_entry_vma);
        Some(worker)
    }
}

/// The two processes share one frame and nothing else that can be written: every range that is
/// mapped for both with the permission to write is the shared frame, and the code, which both
/// see, cannot be written by either.
pub proof fn processes_share_one_writable_frame(k: KernelView, e: Enter, n: u32)
    requires
        e.wf(),
        n != MAP_FAILED,
        enter_can_use(e, n),
    ensures
        e.stage is SecondSpace ==> {
            let m = space_ready(e).1->Ask_0->MapRange_0;
            m.root_pt == e.root_pt && m.phys == e.second.shared && m.perm_bits == USER_DATA
        },
        e.stage is SharedA ==> {
            let m = enter_mapped(k, e, n, None).1.1->Ask_0->MapRange_0;
            m.root_pt == e.second.root_pt && m.phys == e.user.text_lma && m.perm_bits == USER_CODE
        },
        e.stage is TextB ==> {
            let m = enter_mapped(k, e, n, None).1.1->Ask_0->MapRange_0;
            m.root_pt == e.second.root_pt && m.phys == e.second.stack && m.perm_bits == USER_DATA
        },
        e.stage is StackB ==> {
            let m = enter_mapped(k, e, n, None).1.1->Ask_0->MapRange_0;
            m.root_pt == e.second.root_pt && m.phys == e.second.shared && m.perm_bits == USER_DATA
        },
{
}

/// The second process runs in an address space of its own, and the root task's thread, which
/// has not exited, stays in the one it has.
pub proof fn second_process_has_its_own_space(k: KernelView, e: Enter, spawner: Option<ThreadId>)
    requires
        k.wf(),
        slot(k.tcbs, k.root.thread.0) is Some,
        !(slot(k.tcbs, k.root.thread.0)->0.state is Exited),
        slot(k.addr_spaces, slot(k.tcbs, k.root.thread.0)->0.addr_space.0) is Some,
        pair_made(k, e, spawner).1 is Some,
    ensures
        ({
            let (after, worker) = pair_made(k, e, spawner);
            let root = slot(after.tcbs, k.root.thread.0);
            let second = slot(after.tcbs, (worker->0).0);
            &&& worker->0 != k.root.thread
            &&& root is Some && second is Some
            &&& root->0.state is Runnable && second->0.state is Runnable
            &&& root->0.entry == e.user.entry_vma && second->0.entry == e.user.worker_entry_vma
            &&& root->0.addr_space == slot(k.tcbs, k.root.thread.0)->0.addr_space
            &&& root->0.addr_space != second->0.addr_space
            &&& slot(after.addr_spaces, second->0.addr_space.0) == Some(
                AddressSpace { root_phys: e.second.root_pt as u64 },
            )
        }),
{
    let k1 = KernelView { tcbs: started(k.tcbs, k.root.thread, e.user.entry_vma), ..k };
    let a = first_free(k1.addr_spaces)->0;
    lemma_first_free(k1.addr_spaces, a);
    let t = first_free(k1.tcbs)->0;
    lemma_first_free(k1.tcbs, t);
    assert(k1.tcbs[t] is None);
    assert(k1.addr_spaces[a] is None);
}

} // verus!
