//! What entering user mode is for: the first process, and a second one where the image has one,
//! find their code, their stacks and the frame that they share where they belong, and run.

use crate::config::PAGE_SIZE;
use crate::enter::{
    enter_at, enter_mapped, entering, frames_taken, map_pool_taken, pair_made, reported,
    second_taken, space_ready, BootFacts, Enter, EnterRequest, EnterStep, Entered, HaltReason,
    SecondFrames, P2_STACK_B_LEN, P2_STACK_B_VMA, P2_VA_A, P2_VA_B, POOL_FRAMES,
};
use crate::ids::ThreadId;
use crate::objects::AddressSpace;
use crate::paging::{top_of, RangeMapping, UserImage, MAP_FAILED};
use crate::spawn_laws::{maps_pages, pages_and_stacks_are_tight, user_may};
use crate::state::{lemma_first_free, KernelView, MapPool};
use crate::tcb::{Tcb, ThreadState};
use vstd::prelude::*;

verus! {

/// The mapping that a step asks for.
pub open spec fn range_of(step: EnterStep) -> RangeMapping {
    step->Ask_0->MapRange_0
}

/// The step asks for a mapping.
pub open spec fn asks_to_map(step: EnterStep) -> bool {
    step is Ask && step->Ask_0 is MapRange
}

/// Where the scratch frames end that a pool of the usual size at `base` has.
pub open spec fn end_of_pool(base: usize) -> int {
    base + POOL_FRAMES * PAGE_SIZE
}

/// An image with code makes the first process's thread runnable at its entry point, gets it page
/// tables, of which the address space that it runs in is made, and has the kernel mapped there.
/// Without code, page tables or scratch frames nothing is entered.
pub proof fn entering_builds_the_space_of_the_first_process(
    k: KernelView,
    user: UserImage,
    root_pt: usize,
    pool: usize,
    map_pool: usize,
    other: int,
)
    requires
        user.text_len > 0,
        k.root.thread.0 < k.tcbs.len(),
        k.tcbs[k.root.thread.0 as int] is Some,
        !(k.tcbs[k.root.thread.0 as int]->0.state is Exited),
        k.root.addr_space.0 < k.addr_spaces.len(),
        k.addr_spaces[k.root.addr_space.0 as int] is Some,
    ensures
        ({
            let (k1, stage, step) = entering(k, user);
            let e1 = enter_at(user, stage);
            let (k2, (e2, more)) = frames_taken(k1, e1, Some(root_pt), Some(pool));
            let (e3, prepare) = map_pool_taken(e2, Some(map_pool));
            let bytes = (POOL_FRAMES * PAGE_SIZE) as usize;
            let at = k.root.addr_space.0 as int;
            let t = k.root.thread.0 as int;
            &&& step == EnterStep::Ask(
                EnterRequest::Reserve { root_bytes: (3 * PAGE_SIZE) as usize, pool_bytes: bytes },
            )
            &&& k1.tcbs[t] == Some(
                Tcb { entry: user.entry_vma, state: ThreadState::Runnable, ..k.tcbs[t]->0 },
            )
            &&& 0 <= other < k.tcbs.len() && other != t ==> k2.tcbs[other] == k.tcbs[other]
            &&& more == EnterStep::Ask(EnterRequest::ReservePool { bytes })
            &&& k2.addr_spaces[at] == Some(AddressSpace { root_phys: root_pt as u64 })
            &&& 0 <= other < k.addr_spaces.len() && other != at ==> k2.addr_spaces[other]
                == k.addr_spaces[other]
            &&& k2 == (KernelView { tcbs: k1.tcbs, addr_spaces: k2.addr_spaces, ..k })
            &&& prepare == EnterStep::Ask(
                EnterRequest::Prepare {
                    root_pt,
                    zero: (pool, bytes),
                    zero_too: (map_pool, bytes),
                },
            )
            &&& e3.user == user && e3.root_pt == root_pt && e3.map_pool == map_pool
            &&& e3.pool.base == pool && e3.pool.pages == POOL_FRAMES && e3.pool.used == 0
            &&& e3.stage is Space
            &&& frames_taken(k1, e1, None, Some(pool)).1.1 == EnterStep::Finished(
                Entered::Halt(HaltReason::NoFrames),
            )
            &&& frames_taken(k1, e1, Some(root_pt), None).1.1 == EnterStep::Finished(
                Entered::Halt(HaltReason::NoFrames),
            )
            &&& map_pool_taken(e2, None).1 == EnterStep::Finished(
                Entered::Halt(HaltReason::NoMapPool),
            )
        }),
{
}

/// Without code there is nothing to enter, and nothing changes.
pub proof fn nothing_is_entered_without_an_image(k: KernelView, user: UserImage)
    requires
        user.text_len == 0,
    ensures
        entering(k, user).0 == k,
        entering(k, user).2 == EnterStep::Finished(Entered::Halt(HaltReason::NoImage)),
{
}

/// The first process's code is mapped where it is linked, to be read and executed, then its stack,
/// to be read and written. Alone it then starts at its entry point with the top of its stack, and
/// the scratch frames reserved for later mappings are all there. A mapping that fails halts.
pub proof fn the_first_process_is_mapped_as_it_is_linked(
    k: KernelView,
    e: Enter,
    n: u32,
    m: u32,
    spawner: Option<ThreadId>,
)
    requires
        e.wf(),
        e.stage is Space,
        e.pool.pages == POOL_FRAMES,
        e.pool.used == 0,
        n <= POOL_FRAMES,
        m <= POOL_FRAMES - n,
    ensures
        ({
            let (e1, code) = space_ready(e);
            let (k2, (e2, stack)) = enter_mapped(k, e1, n, spawner);
            let (k3, (e3, last)) = enter_mapped(k2, e2, m, spawner);
            let end = end_of_pool(e.pool.base);
            let top = top_of(e.user.stack_vma as int, e.user.stack_len as int);
            &&& asks_to_map(code) && asks_to_map(stack)
            &&& maps_pages(
                range_of(code),
                e.root_pt,
                e.user.text_vma,
                e.user.text_lma,
                e.user.text_len as int,
                e.pool.base as int,
                end,
            )
            &&& user_may(range_of(code).perm_bits, true, false, true)
            &&& maps_pages(
                range_of(stack),
                e.root_pt,
                e.user.stack_vma,
                e.user.stack_lma,
                e.user.stack_len as int,
                e.pool.base + n * PAGE_SIZE,
                end,
            )
            &&& user_may(range_of(stack).perm_bits, true, true, false)
            &&& k2 == k
            &&& e.user.worker_entry_vma == 0 ==> {
                &&& last == EnterStep::Finished(
                    Entered::Single {
                        root_pt: e.root_pt,
                        entry: e.user.entry_vma,
                        sp: top as usize,
                    },
                )
                &&& k3 == (KernelView { map_pool: k3.map_pool, ..k })
                &&& k3.map_pool.base == e.map_pool
                &&& k3.map_pool.len == POOL_FRAMES
                &&& k3.map_pool.used == 0
            }
            &&& e.user.worker_entry_vma != 0 ==> {
                &&& k3 == k
                &&& e3.stage is Second
                &&& last == EnterStep::Ask(
                    EnterRequest::ReserveSecond {
                        shared_bytes: PAGE_SIZE,
                        root_bytes: (3 * PAGE_SIZE) as usize,
                        pool_bytes: (POOL_FRAMES * PAGE_SIZE) as usize,
                        stack_bytes: P2_STACK_B_LEN,
                    },
                )
                &&& e3.pool.used == n + m && e3.pool.base == e.pool.base
            }
            &&& enter_mapped(k, e1, MAP_FAILED, spawner).1.1 == EnterStep::Finished(
                Entered::Halt(HaltReason::MapFailed),
            )
            &&& enter_mapped(k, e2, MAP_FAILED, spawner).1.1 == EnterStep::Finished(
                Entered::Halt(HaltReason::MapFailed),
            )
        }),
{
    assert(n * PAGE_SIZE <= POOL_FRAMES * PAGE_SIZE && (POOL_FRAMES - n) * PAGE_SIZE == POOL_FRAMES
        * PAGE_SIZE - n * PAGE_SIZE) by (nonlinear_arith)
        requires
            n <= POOL_FRAMES,
    ;
    pages_and_stacks_are_tight(e.user.text_len as int, 0, 0);
    pages_and_stacks_are_tight(e.user.stack_len as int, 0, 0);
}

/// The second process gets an address space of its own: the frame that both share is mapped for
/// the first at one address, and for the second at another; the second sees the same code and has
/// a stack of its own. No scratch frame of either is offered twice.
pub proof fn the_second_process_shares_one_frame(
    k: KernelView,
    e: Enter,
    f: SecondFrames,
    a: u32,
    b: u32,
    c: u32,
    spawner: Option<ThreadId>,
)
    requires
        e.wf(),
        e.stage is Second,
        f.pool + POOL_FRAMES * PAGE_SIZE <= usize::MAX,
        a <= e.pool.pages - e.pool.used,
        a != MAP_FAILED,
        b <= POOL_FRAMES,
        c <= POOL_FRAMES - b,
    ensures
        ({
            let (k1, (e1, prepare)) = second_taken(k, e, Some(f));
            let (e2, shared) = space_ready(e1);
            let (k3, (e3, code)) = enter_mapped(k1, e2, a, spawner);
            let (k4, (e4, stack)) = enter_mapped(k3, e3, b, spawner);
            let (k5, (e5, shared_too)) = enter_mapped(k4, e4, c, spawner);
            let end = end_of_pool(f.pool);
            let bytes = (POOL_FRAMES * PAGE_SIZE) as usize;
            &&& prepare == EnterStep::Ask(
                EnterRequest::Prepare {
                    root_pt: f.root_pt,
                    zero: (f.pool, bytes),
                    zero_too: (f.shared, PAGE_SIZE),
                },
            )
            &&& asks_to_map(shared) && asks_to_map(code) && asks_to_map(stack) && asks_to_map(
                shared_too,
            )
            &&& maps_pages(
                range_of(shared),
                e.root_pt,
                P2_VA_A,
                f.shared,
                PAGE_SIZE as int,
                e.pool.base + e.pool.used * PAGE_SIZE,
                e.pool.base + e.pool.pages * PAGE_SIZE,
            )
            &&& user_may(range_of(shared).perm_bits, true, true, false)
            &&& maps_pages(
                range_of(code),
                f.root_pt,
                e.user.text_vma,
                e.user.text_lma,
                e.user.text_len as int,
                f.pool as int,
                end,
            )
            &&& user_may(range_of(code).perm_bits, true, false, true)
            &&& maps_pages(
                range_of(stack),
                f.root_pt,
                P2_STACK_B_VMA,
                f.stack,
                P2_STACK_B_LEN as int,
                f.pool + b * PAGE_SIZE,
                end,
            )
            &&& user_may(range_of(stack).perm_bits, true, true, false)
            &&& maps_pages(
                range_of(shared_too),
                f.root_pt,
                P2_VA_B,
                f.shared,
                PAGE_SIZE as int,
                f.pool + (b + c) * PAGE_SIZE,
                end,
            )
            &&& user_may(range_of(shared_too).perm_bits, true, true, false)
            &&& k5 == k
            &&& e5.stage is SharedB && e5.second == f && e5.user == e.user && e5.root_pt == e.root_pt
                && e5.map_pool == e.map_pool
            &&& P2_VA_A != P2_VA_B
        }),
{
    assert((e.pool.pages - e.pool.used) * PAGE_SIZE == e.pool.pages * PAGE_SIZE - e.pool.used
        * PAGE_SIZE && e.pool.used * PAGE_SIZE <= e.pool.pages * PAGE_SIZE) by (nonlinear_arith)
        requires
            e.pool.used <= e.pool.pages,
    ;
    assert(b * PAGE_SIZE <= POOL_FRAMES * PAGE_SIZE && (POOL_FRAMES - b) * PAGE_SIZE == POOL_FRAMES
        * PAGE_SIZE - b * PAGE_SIZE && (b + c) * PAGE_SIZE <= POOL_FRAMES * PAGE_SIZE && (
    POOL_FRAMES - (b + c)) * PAGE_SIZE == POOL_FRAMES * PAGE_SIZE - (b + c) * PAGE_SIZE)
        by (nonlinear_arith)
        requires
            b + c <= POOL_FRAMES,
    ;
    pages_and_stacks_are_tight(e.user.text_len as int, 0, 0);
}

/// Once the second process is mapped both run, each with the top of its own stack and its own
/// address space, and the scratch frames for later mappings are all there. The second is a new
/// thread in the first one's capability space that starts at its own entry point. If there is no
/// room for it, or a mapping for it failed, the first process runs alone.
pub proof fn both_processes_run(
    k: KernelView,
    e: Enter,
    n: u32,
    spawner: Option<ThreadId>,
    other: int,
)
    requires
        k.wf(),
        e.wf(),
        e.stage is SharedB,
        n != MAP_FAILED,
        n <= e.second_pool.pages - e.second_pool.used,
        exists|i: int| 0 <= i < k.tcbs.len() && (#[trigger] k.tcbs[i]) is None,
        exists|i: int| 0 <= i < k.addr_spaces.len() && (#[trigger] k.addr_spaces[i]) is None,
    ensures
        ({
            let (after, (_, step)) = enter_mapped(k, e, n, spawner);
            let top = top_of(e.user.stack_vma as int, e.user.stack_len as int) as usize;
            let worker_top = top_of(P2_STACK_B_VMA as int, P2_STACK_B_LEN as int) as usize;
            let alone = Entered::Single { root_pt: e.root_pt, entry: e.user.entry_vma, sp: top };
            let worker = step->Finished_0->worker;
            let t = after.tcbs[worker.0 as int]->0;
            &&& step == EnterStep::Finished(
                Entered::Two {
                    root_pt: e.root_pt,
                    sp: top,
                    worker,
                    worker_root_pt: e.second.root_pt,
                    worker_sp: worker_top,
                    shared: e.second.shared,
                },
            )
            &&& after.map_pool == (MapPool { base: e.map_pool, len: POOL_FRAMES as u32, used: 0 })
            &&& worker.0 < k.tcbs.len() && k.tcbs[worker.0 as int] is None
            &&& after.tcbs[worker.0 as int] is Some
            &&& t.id == worker && t.cap_space == k.root.cap_space && t.entry
                == e.user.worker_entry_vma && t.state is Runnable && t.spawner == spawner
                && t.pending_msg is None && t.exit is None
            &&& t.addr_space.0 < k.addr_spaces.len() && k.addr_spaces[t.addr_space.0 as int] is None
            &&& after.addr_spaces[t.addr_space.0 as int] == Some(
                AddressSpace { root_phys: e.second.root_pt as u64 },
            )
            &&& 0 <= other < k.tcbs.len() && other != worker.0 && other != k.root.thread.0
                ==> after.tcbs[other] == k.tcbs[other]
            &&& 0 <= other < k.addr_spaces.len() && other != t.addr_space.0
                ==> after.addr_spaces[other] == k.addr_spaces[other]
            &&& enter_mapped(k, e, MAP_FAILED, spawner).1.1 == EnterStep::Finished(alone)
            &&& second_taken(k, e, None).1.1 == EnterStep::Finished(alone)
            &&& enter_mapped(k, e, MAP_FAILED, spawner).0 == (KernelView {
                map_pool: MapPool { base: e.map_pool, len: POOL_FRAMES as u32, used: 0 },
                ..k
            })
        }),
{
    lemma_first_free(k.addr_spaces, 0);
    let k1 = KernelView {
        tcbs: crate::boot::started(k.tcbs, k.root.thread, e.user.entry_vma),
        ..k
    };
    let free = choose|i: int| 0 <= i < k.tcbs.len() && (#[trigger] k.tcbs[i]) is None;
    assert(k1.tcbs[free] is None);
    lemma_first_free(k1.tcbs, 0);
    let a = crate::state::first_free(k1.addr_spaces)->0;
    let t = crate::state::first_free(k1.tcbs)->0;
    lemma_first_free(k1.addr_spaces, a);
    lemma_first_free(k1.tcbs, t);
    assert(pair_made(k, e, spawner).1 == Some(ThreadId(t as u32)));
}

/// The report says what is so: what the boot binary knows, how much memory the first process was
/// given, which thread is its, and who runs first.
pub proof fn the_report_is_true(
    k: KernelView,
    facts: BootFacts,
    first: Option<ThreadId>,
)
    requires
        crate::state::untyped_bytes(k.untyped) <= u64::MAX,
        crate::state::untyped_bytes(k.untyped) >= 0,
    ensures
        ({
            let r = reported(k, facts, first);
            &&& r.protocol == facts.protocol
            &&& r.cpu_cores == facts.cpu_cores
            &&& r.timer_hz == facts.timer_hz
            &&& r.peripheral_devices == facts.peripheral_devices
            &&& r.untyped_objects == k.root.untyped_count
            &&& r.total_untyped_bytes == crate::state::untyped_bytes(k.untyped)
            &&& ThreadId(r.root_thread) == k.root.thread
            &&& r.first_scheduled is Some <==> first is Some
            &&& first matches Some(t) ==> r.first_scheduled == Some(t.0)
        }),
{
}

} // verus!
