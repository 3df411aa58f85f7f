//! What starting a process is for: its code, its data and its stack appear where they belong in an
//! address space of its own, and its thread starts there.

use crate::config::PAGE_SIZE;
use crate::ids::ThreadId;
use crate::paging::{top_of, whole, RangeMapping, MAP_FAILED};
use crate::spawn::{
    frames_reserved, next_segment, process_made, range_mapped, segment_fate, segment_fits,
    segment_loaded, segments_resumed, space_prepared, spawn_begun, LinkedText, LoadSegment,
    SegmentFate, Spawn, SpawnFrames, SpawnRequest, SpawnStage, SpawnStep, Spawned,
    LOADED_POOL_PAGES, PF_R, PF_W, PF_X,
};
use crate::state::{lemma_first_free, KernelView};
use vstd::prelude::*;

verus! {

/// What a mapping lets user code do: whether it may read, write and execute.
pub open spec fn user_may(perm_bits: usize, read: bool, write: bool, execute: bool) -> bool {
    &&& perm_bits % 2 == 1 <==> read
    &&& (perm_bits / 2) % 2 == 1 <==> write
    &&& (perm_bits / 4) % 2 == 1 <==> execute
    &&& perm_bits / 8 == 1
}

/// The mapping puts the pages that hold `len` bytes from `phys` on at `va`, in the address space
/// with its root at `root_pt`, and may draw on the scratch frames from `pool_base` to `pool_end`.
pub open spec fn maps_pages(
    m: RangeMapping,
    root_pt: usize,
    va: usize,
    phys: usize,
    len: int,
    pool_base: int,
    pool_end: int,
) -> bool {
    &&& m.root_pt == root_pt
    &&& m.va == va
    &&& m.phys == phys
    &&& len <= m.len < len + PAGE_SIZE
    &&& m.len % PAGE_SIZE == 0
    &&& m.pool_base == pool_base
    &&& m.pool_base + m.pool_pages * PAGE_SIZE == pool_end
}

/// Rounding up to whole pages covers what is rounded and wastes less than a page. A stack starts
/// at its highest aligned address.
pub proof fn pages_and_stacks_are_tight(n: int, vma: int, len: int)
    requires
        n >= 0,
        vma + len >= 0,
    ensures
        n <= whole(n) < n + PAGE_SIZE,
        whole(n) % PAGE_SIZE as int == 0,
        top_of(vma, len) <= vma + len < top_of(vma, len) + 16,
        top_of(vma, len) % 16 == 0,
{
}

/// The request is to map a range, and this is how.
pub open spec fn maps(step: SpawnStep, m: RangeMapping) -> bool {
    step == SpawnStep::Ask(SpawnRequest::MapRange(m))
}

/// The mapping that a step asks for.
pub open spec fn mapping_of(step: SpawnStep) -> RangeMapping {
    step->Ask_0->MapRange_0
}

/// A process whose code is part of the kernel image asks for memory for its root page table, its
/// scratch frames and all of its stack, and has the kernel mapped into the memory that it got.
pub proof fn a_process_asks_for_its_memory(
    text: Option<LinkedText>,
    pool_pages: usize,
    stack_vma: usize,
    stack_len: usize,
    entry: usize,
    frames: SpawnFrames,
)
    requires
        pool_pages <= LOADED_POOL_PAGES,
        stack_len + PAGE_SIZE - 1 <= usize::MAX,
    ensures
        ({
            let (s, step) = spawn_begun(text, pool_pages, stack_vma, stack_len, entry);
            let (_, next) = frames_reserved(s, Some(frames));
            let (_, none) = frames_reserved(s, None);
            &&& s.stage is Frames
            &&& step matches SpawnStep::Ask(
                SpawnRequest::Reserve { root_bytes, pool_bytes, stack_bytes },
            )
            &&& root_bytes == 3 * PAGE_SIZE
            &&& pool_bytes == pool_pages * PAGE_SIZE
            &&& stack_len <= stack_bytes < stack_len + PAGE_SIZE
            &&& stack_bytes % PAGE_SIZE == 0
            &&& next == SpawnStep::Ask(
                SpawnRequest::Prepare { root_pt: frames.root_pt, pool: frames.pool, pool_bytes },
            )
            &&& none == SpawnStep::Finished(None)
        }),
{
    assert(pool_pages * PAGE_SIZE <= 32 * PAGE_SIZE) by (nonlinear_arith)
        requires
            pool_pages <= 32,
    ;
}

/// A process whose code is part of the kernel image has that code mapped, readable and executable
/// but not writable, and then its stack, readable and writable but not executable, both in the
/// address space and from the memory that it was given. No scratch frame is offered twice. Then it
/// comes into being: it starts at its entry point with the top of its stack, in that address
/// space.
pub proof fn a_linked_process_is_mapped_as_it_is_linked(
    k: KernelView,
    text: LinkedText,
    pool_pages: usize,
    stack_vma: usize,
    stack_len: usize,
    entry: usize,
    frames: SpawnFrames,
    n: u32,
    m: u32,
    segments: Seq<LoadSegment>,
    image_len: int,
    spawner: Option<ThreadId>,
)
    requires
        pool_pages <= LOADED_POOL_PAGES,
        stack_vma + stack_len <= usize::MAX,
        stack_len + PAGE_SIZE - 1 <= usize::MAX,
        text.len + PAGE_SIZE - 1 <= usize::MAX,
        frames.pool + pool_pages * PAGE_SIZE <= usize::MAX,
        n <= pool_pages,
        m <= pool_pages - n,
    ensures
        ({
            let s0 = spawn_begun(Some(text), pool_pages, stack_vma, stack_len, entry).0;
            let s1 = frames_reserved(s0, Some(frames)).0;
            let (s2, code) = space_prepared(s1, segments, image_len);
            let (k2, (s3, stack)) = range_mapped(k, s2, n, segments, image_len, spawner);
            let (after, (s4, over)) = range_mapped(k2, s3, m, segments, image_len, spawner);
            let end = frames.pool + pool_pages * PAGE_SIZE;
            let (made, process) = process_made(k, frames.root_pt, entry, spawner);
            let top = top_of(stack_vma as int, stack_len as int);
            &&& maps(code, mapping_of(code))
            &&& maps_pages(
                mapping_of(code),
                frames.root_pt,
                text.vma,
                text.lma,
                text.len as int,
                frames.pool as int,
                end,
            )
            &&& user_may(mapping_of(code).perm_bits, true, false, true)
            &&& k2 == k
            &&& maps(stack, mapping_of(stack))
            &&& maps_pages(
                mapping_of(stack),
                frames.root_pt,
                stack_vma,
                frames.stack,
                stack_len as int,
                frames.pool + n * PAGE_SIZE,
                end,
            )
            &&& user_may(mapping_of(stack).perm_bits, true, true, false)
            &&& after == made
            &&& process is None ==> over == SpawnStep::Finished(None)
            &&& process matches Some((thread, cap_space)) ==> over == SpawnStep::Finished(
                Some(
                    Spawned {
                        thread,
                        cap_space,
                        stack_phys: frames.stack,
                        stack_top: top as usize,
                        root_pt: frames.root_pt,
                    },
                ),
            )
        }),
{
    assert(n * PAGE_SIZE <= pool_pages * PAGE_SIZE && (pool_pages - n) * PAGE_SIZE == pool_pages
        * PAGE_SIZE - n * PAGE_SIZE && 0 <= n * PAGE_SIZE) by (nonlinear_arith)
        requires
            n <= pool_pages,
    ;
    pages_and_stacks_are_tight(text.len as int, 0, 0);
    pages_and_stacks_are_tight(stack_len as int, stack_vma as int, stack_len as int);
}

/// A segment that takes memory gets it with just the permissions that its flags give, and with all
/// of its bytes at its own address; a segment that takes none is passed over, and one that claims
/// bytes that the image does not have, or more than it has room for, is invalid.
pub proof fn segments_are_loaded_as_they_say(seg: LoadSegment, image_len: int)
    requires
        segment_fits(seg),
    ensures
        ({
            let fate = segment_fate(seg, image_len);
            let empty = seg.mem_size == 0 && seg.vaddr % PAGE_SIZE == 0;
            let sound = seg.file_size <= seg.mem_size && seg.file_offset + seg.file_size
                <= image_len;
            &&& fate is Skip <==> empty
            &&& fate is Load <==> !empty && sound
            &&& fate matches SegmentFate::Load(p) ==> {
                &&& p.va + p.page_off == seg.vaddr
                &&& p.va % PAGE_SIZE == 0
                &&& p.page_off < PAGE_SIZE
                &&& p.page_off + seg.mem_size <= p.len < p.page_off + seg.mem_size + PAGE_SIZE
                &&& p.len % PAGE_SIZE == 0
                &&& p.file_offset == seg.file_offset
                &&& p.file_size == seg.file_size
                &&& user_may(
                    p.perm_bits,
                    seg.flags & PF_R != 0,
                    seg.flags & PF_W != 0,
                    seg.flags & PF_X != 0,
                )
            }
        }),
{
    pages_and_stacks_are_tight(seg.mem_size + seg.vaddr % PAGE_SIZE, 0, 0);
}

/// The segments are loaded in order: the next one is the first from there on that takes memory.
pub proof fn no_segment_is_passed_over(segments: Seq<LoadSegment>, image_len: int, i: int, j: int)
    requires
        0 <= i,
    ensures
        ({
            let n = next_segment(segments, image_len, i);
            &&& i <= segments.len() ==> i <= n
            &&& n <= segments.len()
            &&& n < segments.len() ==> !(segment_fate(segments[n], image_len) is Skip)
            &&& i <= j < n ==> segment_fate(segments[j], image_len) is Skip
        }),
    decreases segments.len() - i,
{
    if i < segments.len() && segment_fate(segments[i], image_len) is Skip {
        no_segment_is_passed_over(segments, image_len, i + 1, j);
    }
}

/// A process that is loaded from an image has its segments dealt with one after the other: the
/// next one that takes memory is loaded, as planned for it, and mapped where it was loaded; an
/// invalid one ends it; after the last one the stack is mapped.
pub proof fn a_loaded_process_gets_its_segments(
    s: Spawn,
    segments: Seq<LoadSegment>,
    image_len: int,
    phys: usize,
)
    requires
        s.wf(),
        s.text is None,
        s.segments_done <= segments.len() <= usize::MAX,
    ensures
        ({
            let i = next_segment(segments, image_len, s.segments_done as int);
            let (now, step) = segments_resumed(s, segments, image_len);
            let end = s.pool.base + s.pool.pages * PAGE_SIZE;
            let used = s.pool.base + s.pool.used * PAGE_SIZE;
            &&& space_prepared(s, segments, image_len) == (now, step)
            &&& now.root_pt == s.root_pt && now.pool == s.pool && now.stack_phys == s.stack_phys
                && now.entry == s.entry && now.stack_vma == s.stack_vma && now.stack_len
                == s.stack_len && now.text is None
            &&& i < segments.len() && segment_fate(segments[i], image_len) is Invalid ==> step
                == SpawnStep::Finished(None)
            &&& i < segments.len() ==> now.segments_done == i + 1
            &&& i < segments.len() ==> (segment_fate(segments[i], image_len) matches SegmentFate::Load(
                plan,
            ) ==> {
                let (later, mapping) = segment_loaded(now, plan, Some(phys));
                let m = mapping_of(mapping);
                &&& step == SpawnStep::Ask(SpawnRequest::LoadSegment { plan })
                &&& now.stage == SpawnStage::Load(plan)
                &&& maps(mapping, m)
                &&& m.root_pt == s.root_pt && m.va == plan.va && m.phys == phys && m.len == plan.len
                    && m.perm_bits == plan.perm_bits
                &&& m.pool_base == used && m.pool_base + m.pool_pages * PAGE_SIZE == end
                &&& later.stage is Image
                &&& segment_loaded(now, plan, None).1 == SpawnStep::Finished(None)
            })
            &&& i >= segments.len() ==> {
                &&& now.stage is Stack
                &&& maps(step, mapping_of(step))
                &&& maps_pages(
                    mapping_of(step),
                    s.root_pt,
                    s.stack_vma,
                    s.stack_phys,
                    s.stack_len as int,
                    used,
                    end,
                )
                &&& user_may(mapping_of(step).perm_bits, true, true, false)
            }
        }),
{
    no_segment_is_passed_over(segments, image_len, s.segments_done as int, 0);
    pages_and_stacks_are_tight(s.stack_len as int, 0, 0);
    assert(s.pool.used * PAGE_SIZE <= s.pool.pages * PAGE_SIZE && (s.pool.pages - s.pool.used)
        * PAGE_SIZE == s.pool.pages * PAGE_SIZE - s.pool.used * PAGE_SIZE) by (nonlinear_arith)
        requires
            s.pool.used <= s.pool.pages,
    ;
}

/// A mapping that succeeds takes its scratch frames out of the pool, and the next segment follows;
/// one that fails ends the start of the process, with nothing made.
pub proof fn scratch_frames_of_a_process_are_used_once(
    k: KernelView,
    s: Spawn,
    n: u32,
    segments: Seq<LoadSegment>,
    image_len: int,
    spawner: Option<ThreadId>,
)
    requires
        s.wf(),
        s.stage is Image,
        s.text is None,
        n <= s.pool.pages - s.pool.used,
        n != MAP_FAILED,
    ensures
        ({
            let (after, (now, step)) = range_mapped(k, s, n, segments, image_len, spawner);
            let (kept, (over, failed)) = range_mapped(
                k,
                s,
                MAP_FAILED,
                segments,
                image_len,
                spawner,
            );
            &&& after == k
            &&& now.pool.base == s.pool.base
            &&& now.pool.pages == s.pool.pages
            &&& now.pool.used == s.pool.used + n
            &&& kept == k
            &&& over.stage is Over
            &&& failed == SpawnStep::Finished(None)
            &&& (now, step) == segments_resumed(
                Spawn { pool: now.pool, ..s },
                segments,
                image_len,
            )
        }),
{
}

/// A process comes into being just if there is room for its address space, its capability space
/// and its thread.
pub proof fn a_process_needs_room(
    k: KernelView,
    root_pt: usize,
    entry: usize,
    spawner: Option<ThreadId>,
)
    ensures
        process_made(k, root_pt, entry, spawner).1 is None <==> {
            ||| forall|i: int|
                0 <= i < k.addr_spaces.len() ==> (#[trigger] k.addr_spaces[i]) is Some
            ||| forall|i: int| 0 <= i < k.spaces.len() ==> (#[trigger] k.spaces[i]) is Some
            ||| forall|i: int| 0 <= i < k.tcbs.len() ==> (#[trigger] k.tcbs[i]) is Some
        },
{
    lemma_first_free(k.addr_spaces, 0);
    lemma_first_free(k.spaces, 0);
    lemma_first_free(k.tcbs, 0);
}

} // verus!
