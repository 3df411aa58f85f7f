//! Starting an isolated process: its address space is built, its image loaded, and it gets a
//! capability space and a thread of its own.
//!
//! Starting a process runs in steps, each of which ends with one request to the memory layer,
//! or with the result.

use crate::boot::started;
use crate::cdt::empty_table;
use crate::config::{CAP_SLOTS_PER_SPACE, PAGE_SIZE};
use crate::ids::{CapSpaceId, PageTableId, ThreadId};
use crate::objects::AddressSpace;
use crate::paging::{
    map_from, mapping_from, round4k, stack_top, top_of, whole, PoolCursor, RangeMapping,
    MAP_FAILED, PERM_R, PERM_U, PERM_W, PERM_X, ROOT_TABLE_BYTES, USER_CODE, USER_DATA,
};
use crate::state::{first_free, lemma_first_free, slot, KernelState, KernelView};
use crate::tcb::inactive_tcb;
use vstd::prelude::*;

verus! {

/// Scratch frames of a process whose code is part of the kernel image.
pub const LINKED_POOL_PAGES: usize = 8;

/// Scratch frames of a process that is loaded from an image of its own.
pub const LOADED_POOL_PAGES: usize = 32;

/// Flag of an executable segment.
pub const PF_X: u32 = 1;

/// Flag of a writable segment.
pub const PF_W: u32 = 2;

/// Flag of a readable segment.
pub const PF_R: u32 = 4;

/// A part of an image that is loaded.
#[derive(Debug, Clone, Copy, PartialEq, Eq, Structural)]
pub struct LoadSegment {
    /// Virtual address.
    pub vaddr: usize,
    /// Length in memory.
    pub mem_size: usize,
    /// Where its bytes stand in the image.
    pub file_offset: usize,
    /// How many bytes it has there; the rest is zero.
    pub file_size: usize,
    /// Its flags.
    pub flags: u32,
}

/// How a segment is loaded.
#[derive(Debug, Clone, Copy, PartialEq, Eq, Structural)]
pub struct SegmentPlan {
    /// Virtual address of its first page.
    pub va: usize,
    /// Length of its pages in bytes.
    pub len: usize,
    /// Where in its first page it begins.
    pub page_off: usize,
    /// Where its bytes stand in the image.
    pub file_offset: usize,
    /// How many bytes it has there.
    pub file_size: usize,
    /// Permission bits.
    pub perm_bits: usize,
}

/// What becomes of a segment.
#[derive(Debug, Clone, Copy, PartialEq, Eq, Structural)]
pub enum SegmentFate {
    /// It takes no memory.
    Skip,
    /// It claims bytes that the image does not have, or more than it has room for.
    Invalid,
    /// It is loaded.
    Load(SegmentPlan),
}

/// The permission bits of a segment.
pub open spec fn segment_perms(flags: u32) -> int {
    PERM_U + (if flags & PF_R != 0 {
        PERM_R
    } else {
        0
    }) + (if flags & PF_W != 0 {
        PERM_W
    } else {
        0
    }) + (if flags & PF_X != 0 {
        PERM_X
    } else {
        0
    })
}

/// The pages of a segment can be counted.
pub open spec fn segment_fits(seg: LoadSegment) -> bool {
    seg.mem_size + seg.vaddr % PAGE_SIZE + PAGE_SIZE - 1 <= usize::MAX
}

/// What becomes of a segment of an image of `image_len` bytes.
pub open spec fn segment_fate(seg: LoadSegment, image_len: int) -> SegmentFate {
    let page_off = seg.vaddr as int % PAGE_SIZE as int;
    if seg.mem_size + page_off == 0 {
        SegmentFate::Skip
    } else if seg.file_size > seg.mem_size || seg.file_offset + seg.file_size > image_len {
        SegmentFate::Invalid
    } else {
        SegmentFate::Load(
            SegmentPlan {
                va: (seg.vaddr - page_off) as usize,
                len: whole(seg.mem_size + page_off) as usize,
                page_off: page_off as usize,
                file_offset: seg.file_offset,
                file_size: seg.file_size,
                perm_bits: segment_perms(seg.flags) as usize,
            },
        )
    }
}

/// What becomes of a segment.
pub fn plan_segment(seg: &LoadSegment, image_len: usize) -> (r: SegmentFate)
    requires
        segment_fits(*seg),
    ensures
        r == segment_fate(*seg, image_len as int),
{
    let page_off: usize = seg.vaddr % PAGE_SIZE;
    let len: usize = round4k(seg.mem_size + page_off);
    if len == 0 {
        return SegmentFate::Skip;
    }
    if seg.file_size > seg.mem_size || seg.file_offset > image_len || seg.file_size > image_len
        - seg.file_offset {
        return SegmentFate::Invalid;
    }
    let mut perm_bits: usize = PERM_U;
    if seg.flags & PF_R != 0 {
        perm_bits = perm_bits + PERM_R;
    }
    if seg.flags & PF_W != 0 {
        perm_bits = perm_bits + PERM_W;
    }
    if seg.flags & PF_X != 0 {
        perm_bits = perm_bits + PERM_X;
    }
    SegmentFate::Load(
        SegmentPlan {
            va: seg.vaddr - page_off,
            len,
            page_off,
            file_offset: seg.file_offset,
            file_size: seg.file_size,
            perm_bits,
        },
    )
}

/// A loaded segment is mapped in whole pages, its bytes land at its own address and within its
/// pages, they are bytes of the image, and user mode gets no permission that the segment's
/// flags do not give.
pub proof fn segments_land_at_their_address(seg: LoadSegment, image_len: int)
    requires
        segment_fits(seg),
    ensures
        segment_fate(seg, image_len) matches SegmentFate::Load(p) ==> {
            &&& p.va % PAGE_SIZE == 0 && p.len % PAGE_SIZE == 0
            &&& p.va + p.page_off == seg.vaddr
            &&& seg.vaddr + seg.mem_size <= p.va + p.len
            &&& p.page_off + p.file_size <= p.len
            &&& p.file_offset + p.file_size <= image_len
            &&& p.perm_bits == segment_perms(seg.flags)
        },
{
}

/// The memory that a new process is given to begin with.
#[derive(Debug, Clone, Copy, PartialEq, Eq, Structural)]
pub struct SpawnFrames {
    /// Physical address of its root page table.
    pub root_pt: usize,
    /// Physical address of its scratch frames.
    pub pool: usize,
    /// Physical address of its stack.
    pub stack: usize,
}

/// What starting a process asks for.
#[derive(Debug, Clone, Copy, PartialEq, Eq, Structural)]
pub enum SpawnRequest {
    /// Reserve memory, in this order, stopping at the first that cannot be had. Reply:
    /// `reserved`.
    Reserve {
        /// Bytes for the root page table.
        root_bytes: usize,
        /// Bytes for the scratch frames.
        pool_bytes: usize,
        /// Bytes for the stack.
        stack_bytes: usize,
    },
    /// Zero the scratch frames and map the kernel into the new address space. Reply:
    /// `prepared`.
    Prepare {
        /// Physical address of the root page table.
        root_pt: usize,
        /// Physical address of the scratch frames.
        pool: usize,
        /// Bytes of scratch frames.
        pool_bytes: usize,
    },
    /// Reserve memory for a segment, zero it and copy the segment's bytes there. Reply:
    /// `loaded`.
    LoadSegment {
        /// How.
        plan: SegmentPlan,
    },
    /// Map a range. Reply: `mapped`.
    MapRange(RangeMapping),
}

/// A process that was started.
#[derive(Debug, Clone, Copy, PartialEq, Eq, Structural)]
pub struct Spawned {
    /// Its thread, which is to be admitted to the scheduler.
    pub thread: ThreadId,
    /// Its capability space.
    pub cap_space: CapSpaceId,
    /// Physical address of its stack.
    pub stack_phys: usize,
    /// The stack pointer it starts with.
    pub stack_top: usize,
    /// Physical address of its root page table.
    pub root_pt: usize,
}

/// How a step ended.
#[derive(Debug, Clone, Copy, PartialEq, Eq, Structural)]
pub enum SpawnStep {
    /// With a request.
    Ask(SpawnRequest),
    /// With the process, or `None` if it could not be started.
    Finished(Option<Spawned>),
}

/// What the start of a process waits for.
#[derive(Debug, Clone, Copy, PartialEq, Eq, Structural)]
pub enum SpawnStage {
    /// Memory.
    Frames,
    /// The address space.
    Space,
    /// A segment's bytes.
    Load(SegmentPlan),
    /// The mapping of a part of the image.
    Image,
    /// The mapping of the stack.
    Stack,
    /// Nothing.
    Over,
}

/// Code that is part of the kernel image.
#[derive(Debug, Clone, Copy, PartialEq, Eq, Structural)]
pub struct LinkedText {
    /// Virtual address.
    pub vma: usize,
    /// Physical address.
    pub lma: usize,
    /// Length in bytes.
    pub len: usize,
}

/// A process that is being started.
#[derive(Debug, Clone, Copy, PartialEq, Eq, Structural)]
pub struct Spawn {
    /// The code, if it is part of the kernel image.
    pub text: Option<LinkedText>,
    /// Where it starts.
    pub entry: usize,
    /// Virtual address of its stack.
    pub stack_vma: usize,
    /// Length of its stack in bytes.
    pub stack_len: usize,
    /// Physical address of its root page table.
    pub root_pt: usize,
    /// Its scratch frames.
    pub pool: PoolCursor,
    /// Physical address of its stack.
    pub stack_phys: usize,
    /// Segments that are dealt with.
    pub segments_done: usize,
    /// What it waits for.
    pub stage: SpawnStage,
}

impl Spawn {
    /// What holds between two steps.
    pub open spec fn wf(self) -> bool {
        &&& self.pool.wf()
        &&& self.stack_vma + self.stack_len <= usize::MAX
        &&& self.stack_len + PAGE_SIZE - 1 <= usize::MAX
        &&& self.text matches Some(t) ==> t.len + PAGE_SIZE - 1 <= usize::MAX
    }
}

/// The first segment from number `i` on that takes memory; the number of segments if there is
/// none.
pub open spec fn next_segment(segments: Seq<LoadSegment>, image_len: int, i: int) -> int
    decreases segments.len() - i,
{
    if i >= segments.len() {
        segments.len() as int
    } else if segment_fate(segments[i], image_len) is Skip {
        next_segment(segments, image_len, i + 1)
    } else {
        i
    }
}

/// Starting the process failed.
pub open spec fn spawn_failed(s: Spawn) -> (Spawn, SpawnStep) {
    (Spawn { stage: SpawnStage::Over, ..s }, SpawnStep::Finished(None))
}

/// The stack is mapped next.
pub open spec fn stack_begun(s: Spawn) -> (Spawn, SpawnStep) {
    (
        Spawn { stage: SpawnStage::Stack, ..s },
        SpawnStep::Ask(
            SpawnRequest::MapRange(
                mapping_from(
                    s.pool,
                    s.root_pt,
                    s.stack_vma,
                    s.stack_phys,
                    whole(s.stack_len as int),
                    USER_DATA,
                ),
            ),
        ),
    )
}

/// The next segment that takes memory is loaded, or, if there is none left, the stack is
/// mapped.
pub open spec fn segments_resumed(s: Spawn, segments: Seq<LoadSegment>, image_len: int) -> (
    Spawn,
    SpawnStep,
) {
    let i = next_segment(segments, image_len, s.segments_done as int);
    if i >= segments.len() {
        stack_begun(Spawn { segments_done: i as usize, ..s })
    } else {
        let now = Spawn { segments_done: (i + 1) as usize, ..s };
        match segment_fate(segments[i], image_len) {
            SegmentFate::Load(plan) => (
                Spawn { stage: SpawnStage::Load(plan), ..now },
                SpawnStep::Ask(SpawnRequest::LoadSegment { plan }),
            ),
            _ => spawn_failed(now),
        }
    }
}

/// What follows the reservation of memory.
pub open spec fn frames_reserved(s: Spawn, frames: Option<SpawnFrames>) -> (Spawn, SpawnStep) {
    match frames {
        None => spawn_failed(s),
        Some(f) => (
            Spawn {
                root_pt: f.root_pt,
                pool: PoolCursor { base: f.pool, ..s.pool },
                stack_phys: f.stack,
                stage: SpawnStage::Space,
                ..s
            },
            SpawnStep::Ask(
                SpawnRequest::Prepare {
                    root_pt: f.root_pt,
                    pool: f.pool,
                    pool_bytes: (s.pool.pages * PAGE_SIZE) as usize,
                },
            ),
        ),
    }
}

/// What follows the preparation of the address space.
pub open spec fn space_prepared(s: Spawn, segments: Seq<LoadSegment>, image_len: int) -> (
    Spawn,
    SpawnStep,
) {
    match s.text {
        Some(t) => (
            Spawn { stage: SpawnStage::Image, ..s },
            SpawnStep::Ask(
                SpawnRequest::MapRange(
                    mapping_from(s.pool, s.root_pt, t.vma, t.lma, whole(t.len as int), USER_CODE),
                ),
            ),
        ),
        None => segments_resumed(s, segments, image_len),
    }
}

/// What follows the loading of a segment.
pub open spec fn segment_loaded(s: Spawn, plan: SegmentPlan, phys: Option<usize>) -> (
    Spawn,
    SpawnStep,
) {
    match phys {
        None => spawn_failed(s),
        Some(p) => (
            Spawn { stage: SpawnStage::Image, ..s },
            SpawnStep::Ask(
                SpawnRequest::MapRange(
                    mapping_from(s.pool, s.root_pt, plan.va, p, plan.len as int, plan.perm_bits),
                ),
            ),
        ),
    }
}

/// The kernel state after a process was given an address space with its root page table at
/// `root_pt`, a capability space and a thread that is runnable from `entry` on. What was
/// created before a table turned out to be full stays.
pub open spec fn process_made(
    k: KernelView,
    root_pt: usize,
    entry: usize,
    spawner: Option<ThreadId>,
) -> (KernelView, Option<(ThreadId, CapSpaceId)>) {
    match first_free(k.addr_spaces) {
        None => (k, None),
        Some(a) => {
            let k1 = KernelView {
                addr_spaces: k.addr_spaces.update(
                    a,
                    Some(AddressSpace { root_phys: root_pt as u64 }),
                ),
                ..k
            };
            match first_free(k.spaces) {
                None => (k1, None),
                Some(c) => {
                    let cs = CapSpaceId(c as u32);
                    let k2 = KernelView {
                        spaces: k.spaces.update(
                            c,
                            Some(empty_table(CAP_SLOTS_PER_SPACE as nat, cs)),
                        ),
                        ..k1
                    };
                    match first_free(k.tcbs) {
                        None => (k2, None),
                        Some(t) => {
                            let thread = ThreadId(t as u32);
                            let tcb = inactive_tcb(thread, cs, PageTableId(a as u32), spawner);
                            (
                                KernelView {
                                    tcbs: started(k.tcbs.update(t, Some(tcb)), thread, entry),
                                    ..k2
                                },
                                Some((thread, cs)),
                            )
                        },
                    }
                },
            }
        },
    }
}

/// What follows a mapping.
pub open spec fn range_mapped(
    k: KernelView,
    s: Spawn,
    n: u32,
    segments: Seq<LoadSegment>,
    image_len: int,
    spawner: Option<ThreadId>,
) -> (KernelView, (Spawn, SpawnStep)) {
    if n == MAP_FAILED {
        (k, spawn_failed(s))
    } else {
        let now = Spawn { pool: s.pool.after(n), ..s };
        if s.stage is Image {
            match s.text {
                Some(_) => (k, stack_begun(now)),
                None => (k, segments_resumed(now, segments, image_len)),
            }
        } else {
            let (after, made) = process_made(k, s.root_pt, s.entry, spawner);
            (
                after,
                (
                    Spawn { stage: SpawnStage::Over, ..now },
                    SpawnStep::Finished(
                        match made {
                            Some((thread, cap_space)) => Some(
                                Spawned {
                                    thread,
                                    cap_space,
                                    stack_phys: s.stack_phys,
                                    stack_top: top_of(s.stack_vma as int, s.stack_len as int) as usize,
                                    root_pt: s.root_pt,
                                },
                            ),
                            None => None,
                        },
                    ),
                ),
            )
        }
    }
}

/// The memory that a process needs to begin with.
pub open spec fn frames_asked(pool_pages: int, stack_len: int) -> SpawnStep {
    SpawnStep::Ask(
        SpawnRequest::Reserve {
            root_bytes: ROOT_TABLE_BYTES,
            pool_bytes: (pool_pages * PAGE_SIZE) as usize,
            stack_bytes: whole(stack_len) as usize,
        },
    )
}

/// How the start of a process begins.
pub open spec fn spawn_begun(
    text: Option<LinkedText>,
    pool_pages: usize,
    stack_vma: usize,
    stack_len: usize,
    entry: usize,
) -> (Spawn, SpawnStep) {
    (
        Spawn {
            text,
            entry,
            stack_vma,
            stack_len,
            root_pt: 0,
            pool: PoolCursor { base: 0, pages: pool_pages, used: 0 },
            stack_phys: 0,
            segments_done: 0,
            stage: SpawnStage::Frames,
        },
        frames_asked(pool_pages as int, stack_len as int),
    )
}

impl Spawn {
    fn begin(
        text: Option<LinkedText>,
        pool_pages: usize,
        stack_vma: usize,
        stack_len: usize,
        entry: usize,
    ) -> (r: (Self, SpawnStep))
        requires
            pool_pages <= LOADED_POOL_PAGES,
            stack_vma + stack_len <= usize::MAX,
            stack_len + PAGE_SIZE - 1 <= usize::MAX,
            text matches Some(t) ==> t.len + PAGE_SIZE - 1 <= usize::MAX,
        ensures
            r.0.wf(),
            r == spawn_begun(text, pool_pages, stack_vma, stack_len, entry),
    {
        (
            Spawn {
                text,
                entry,
                stack_vma,
                stack_len,
                root_pt: 0,
                pool: PoolCursor::new(0, pool_pages),
                stack_phys: 0,
                segments_done: 0,
                stage: SpawnStage::Frames,
            },
            SpawnStep::Ask(
                SpawnRequest::Reserve {
                    root_bytes: ROOT_TABLE_BYTES,
                    pool_bytes: pool_pages * PAGE_SIZE,
                    stack_bytes: round4k(stack_len),
                },
            ),
        )
    }

    /// Begins to start a process whose code is part of the kernel image.
    pub fn spawn_process(text: LinkedText, stack_vma: usize, stack_len: usize, entry: usize) -> (r: (
        Self,
        SpawnStep,
    ))
        requires
            stack_vma + stack_len <= usize::MAX,
            stack_len + PAGE_SIZE - 1 <= usize::MAX,
            text.len + PAGE_SIZE - 1 <= usize::MAX,
        ensures
            r.0.wf(),
            r == spawn_begun(Some(text), LINKED_POOL_PAGES, stack_vma, stack_len, entry),
    {
        Self::begin(Some(text), LINKED_POOL_PAGES, stack_vma, stack_len, entry)
    }

    /// Begins to start a process that is loaded from an image of its own.
    pub fn spawn_process_from_elf(stack_vma: usize, stack_len: usize, entry: usize) -> (r: (
        Self,
        SpawnStep,
    ))
        requires
            stack_vma + stack_len <= usize::MAX,
            stack_len + PAGE_SIZE - 1 <= usize::MAX,
        ensures
            r.0.wf(),
            r == spawn_begun(None, LOADED_POOL_PAGES, stack_vma, stack_len, entry),
    {
        Self::begin(None, LOADED_POOL_PAGES, stack_vma, stack_len, entry)
    }

    fn fail(&mut self) -> (step: SpawnStep)
        requires
            old(self).wf(),
        ensures
            final(self).wf(),
            (*final(self), step) == spawn_failed(*old(self)),
    {
        self.stage = SpawnStage::Over;
        SpawnStep::Finished(None)
    }

    fn begin_stack(&mut self) -> (step: SpawnStep)
        requires
            old(self).wf(),
        ensures
            final(self).wf(),
            (*final(self), step) == stack_begun(*old(self)),
    {
        self.stage = SpawnStage::Stack;
        let len: usize = round4k(self.stack_len);
        SpawnStep::Ask(
            SpawnRequest::MapRange(
                map_from(
                    &self.pool,
                    self.root_pt,
                    self.stack_vma,
                    self.stack_phys,
                    len,
                    USER_DATA,
                ),
            ),
        )
    }

    fn resume_segments(&mut self, segments: &[LoadSegment], image_len: usize) -> (step: SpawnStep)
        requires
            old(self).wf(),
            old(self).segments_done <= segments@.len(),
            forall|i: int| 0 <= i < segments@.len() ==> segment_fits(#[trigger] segments@[i]),
        ensures
            final(self).wf(),
            (*final(self), step) == segments_resumed(*old(self), segments@, image_len as int),
            final(self).segments_done <= segments@.len(),
    {
        let ghost start = *self;
        while self.segments_done < segments.len()
            invariant
                start == *old(self),
                self.wf(),
                self.segments_done <= segments@.len(),
                *self == (Spawn { segments_done: self.segments_done, ..start }),
                forall|i: int| 0 <= i < segments@.len() ==> segment_fits(#[trigger] segments@[i]),
                next_segment(segments@, image_len as int, self.segments_done as int)
                    == next_segment(segments@, image_len as int, start.segments_done as int),
            decreases segments@.len() - self.segments_done,
        {
            match plan_segment(&segments[self.segments_done], image_len) {
                SegmentFate::Skip => {
                    self.segments_done = self.segments_done + 1;
                },
                SegmentFate::Invalid => {
                    self.segments_done = self.segments_done + 1;
                    return self.fail();
                },
                SegmentFate::Load(plan) => {
                    self.segments_done = self.segments_done + 1;
                    self.stage = SpawnStage::Load(plan);
                    return SpawnStep::Ask(SpawnRequest::LoadSegment { plan });
                },
            }
        }
        self.begin_stack()
    }

    /// Goes on with the memory that was reserved.
    pub fn reserved(&mut self, frames: Option<SpawnFrames>) -> (step: SpawnStep)
        requires
            old(self).wf(),
            old(self).stage is Frames,
            frames matches Some(f) ==> f.pool + old(self).pool.pages * PAGE_SIZE <= usize::MAX,
        ensures
            final(self).wf(),
            (*final(self), step) == frames_reserved(*old(self), frames),
    {
        match frames {
            Some(f) => {
                self.root_pt = f.root_pt;
                self.pool.base = f.pool;
                self.stack_phys = f.stack;
                self.stage = SpawnStage::Space;
                SpawnStep::Ask(
                    SpawnRequest::Prepare {
                        root_pt: f.root_pt,
                        pool: f.pool,
                        pool_bytes: self.pool.pages * PAGE_SIZE,
                    },
                )
            },
            None => self.fail(),
        }
    }

    /// Goes on once the kernel is mapped in the new address space.
    pub fn prepared(&mut self, segments: &[LoadSegment], image_len: usize) -> (step: SpawnStep)
        requires
            old(self).wf(),
            old(self).stage is Space,
            old(self).segments_done <= segments@.len(),
            forall|i: int| 0 <= i < segments@.len() ==> segment_fits(#[trigger] segments@[i]),
        ensures
            final(self).wf(),
            (*final(self), step) == space_prepared(*old(self), segments@, image_len as int),
            final(self).segments_done <= segments@.len(),
    {
        match self.text {
            Some(t) => {
                self.stage = SpawnStage::Image;
                let len: usize = round4k(t.len);
                SpawnStep::Ask(
                    SpawnRequest::MapRange(
                        map_from(&self.pool, self.root_pt, t.vma, t.lma, len, USER_CODE),
                    ),
                )
            },
            None => self.resume_segments(segments, image_len),
        }
    }

    /// Goes on with a segment that was loaded at `phys`.
    pub fn loaded(&mut self, phys: Option<usize>) -> (step: SpawnStep)
        requires
            old(self).wf(),
            old(self).stage is Load,
        ensures
            final(self).wf(),
            (*final(self), step) == segment_loaded(*old(self), old(self).stage->Load_0, phys),
    {
        match (phys, self.stage) {
            (Some(p), SpawnStage::Load(plan)) => {
                self.stage = SpawnStage::Image;
                SpawnStep::Ask(
                    SpawnRequest::MapRange(
                        map_from(
                            &self.pool,
                            self.root_pt,
                            plan.va,
                            p,
                            plan.len,
                            plan.perm_bits,
                        ),
                    ),
                )
            },
            _ => self.fail(),
        }
    }

    /// Goes on after a mapping that used up `n` scratch frames. Once the stack is mapped the
    /// process comes into being.
    pub fn mapped<const MMIO: usize>(
        &mut self,
        k: &mut KernelState<MMIO>,
        n: u32,
        segments: &[LoadSegment],
        image_len: usize,
        spawner: Option<ThreadId>,
    ) -> (step: SpawnStep)
        requires
            old(k).wf(),
            old(self).wf(),
            old(self).stage is Image || old(self).stage is Stack,
            old(self).pool.can_use(n),
            old(self).segments_done <= segments@.len(),
            forall|i: int| 0 <= i < segments@.len() ==> segment_fits(#[trigger] segments@[i]),
        ensures
            final(k).wf(),
            final(self).wf(),
            (final(k)@, (*final(self), step)) == range_mapped(
                old(k)@,
                *old(self),
                n,
                segments@,
                image_len as int,
                spawner,
            ),
            final(self).segments_done <= segments@.len(),
    {
        if !self.pool.consume(n) {
            return self.fail();
        }
        if matches!(self.stage, SpawnStage::Image) {
            if self.text.is_some() {
                return self.begin_stack();
            }
            return self.resume_segments(segments, image_len);
        }
        self.stage = SpawnStage::Over;
        match make_process(k, self.root_pt, self.entry, spawner) {
            Some((thread, cap_space)) => SpawnStep::Finished(
                Some(
                    Spawned {
                        thread,
                        cap_space,
                        stack_phys: self.stack_phys,
                        stack_top: stack_top(self.stack_vma, self.stack_len),
                        root_pt: self.root_pt,
                    },
                ),
            ),
            None => SpawnStep::Finished(None),
        }
    }
}

/// Gives a process its address space, capability space and thread.
fn make_process<const MMIO: usize>(
    k: &mut KernelState<MMIO>,
    root_pt: usize,
    entry: usize,
    spawner: Option<ThreadId>,
) -> (r: Option<(ThreadId, CapSpaceId)>)
    requires
        old(k).wf(),
    ensures
        final(k).wf(),
        (final(k)@, r) == process_made(old(k)@, root_pt, entry, spawner),
{
    let addr_space = match k.alloc_addr_space(root_pt as u64) {
        Some(a) => a,
        None => {
            return None;
        },
    };
    let cap_space = match k.alloc_cap_space() {
        Some(c) => c,
        None => {
            return None;
        },
    };
    let thread = match k.alloc_tcb(cap_space, addr_space, spawner) {
        Some(t) => t,
        None => {
            return None;
        },
    };
    let _ = k.init_user_thread(thread, entry);
    Some((thread, cap_space))
}

/// A new process is isolated: its address space, capability space and thread are new, its
/// capability space is empty, and every object that was there before is as it was.
pub proof fn new_processes_are_isolated(
    k: KernelView,
    root_pt: usize,
    entry: usize,
    spawner: Option<ThreadId>,
)
    requires
        k.wf(),
        process_made(k, root_pt, entry, spawner).1 is Some,
    ensures
        ({
            let (after, made) = process_made(k, root_pt, entry, spawner);
            let (thread, cs) = made->0;
            let t = slot(after.tcbs, thread.0)->0;
            &&& slot(k.tcbs, thread.0) is None && slot(after.tcbs, thread.0) is Some
            &&& t.cap_space == cs && t.state is Runnable && t.entry == entry && t.spawner == spawner
            &&& slot(k.spaces, cs.0) is None
            &&& slot(after.spaces, cs.0) == Some(empty_table(CAP_SLOTS_PER_SPACE as nat, cs))
            &&& slot(k.addr_spaces, t.addr_space.0) is None
            &&& slot(after.addr_spaces, t.addr_space.0) == Some(
                AddressSpace { root_phys: root_pt as u64 },
            )
            &&& forall|o: ThreadId|
                o != thread ==> #[trigger] slot(after.tcbs, o.0) == slot(k.tcbs, o.0)
            &&& forall|o: CapSpaceId|
                o != cs ==> #[trigger] slot(after.spaces, o.0) == slot(k.spaces, o.0)
            &&& forall|o: PageTableId|
                o != t.addr_space ==> #[trigger] slot(after.addr_spaces, o.0) == slot(
                    k.addr_spaces,
                    o.0,
                )
            &&& after == (KernelView {
                tcbs: after.tcbs,
                spaces: after.spaces,
                addr_spaces: after.addr_spaces,
                ..k
            })
        }),
{
    let a = first_free(k.addr_spaces)->0;
    let c = first_free(k.spaces)->0;
    let t = first_free(k.tcbs)->0;
    lemma_first_free(k.addr_spaces, a);
    lemma_first_free(k.spaces, c);
    lemma_first_free(k.tcbs, t);
    let (after, made) = process_made(k, root_pt, entry, spawner);
    let (thread, cs) = made->0;
    assert(thread == ThreadId(t as u32) && cs == CapSpaceId(c as u32));
}

} // verus!
