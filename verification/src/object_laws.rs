//! Every capability names an object that exists, and every thread has its spaces.
//!
//! Both hold of the kernel before boot, and no operation ever breaks them.

use crate::boot::{
    booted, booted_with, device_seeded, first_device, free_fragments, full_cap_to,
    root_inserted_if_room, seeded, started, BootInfo, PeripheralDevice, PeripheralKind,
};
use crate::capability::{Capability, KernelObjectKind, ObjectRef};
use crate::cdt::{derived_capability, empty_table, entry_at, CapEntry, CapTableView, GlobalCapId};
use crate::config::CAP_SLOTS_PER_SPACE;
use crate::dispatch::{dispatched, resumed};
use crate::enter::{pair_made, Enter};
use crate::ids::{CapId, CapSpaceId, ObjectId, PageTableId, ThreadId};
use crate::kernel_laws::{lemma_no_break, lemma_resume_touches_threads_only, threads_kept};
use crate::launch::{
    executed, granted_into, instructions_left, lemma_only_grants_change_the_kernel, op_at,
    program, ran, Launch, Outcome, SERVICE_RIGHTS,
};
use crate::objects::{AddressSpace, KernelObjectType};
use crate::retype::{
    batch_of, batch_state, in_sequence, is_first_break, lemma_table_bounds, object_free_at, retyped,
    Batch,
};
use crate::rights::CapabilityRights;
use crate::spawn::process_made;
use crate::state::{empty_kernel, first_free, lemma_first_free, slot, KernelView};
use crate::supervise::{kernel_after_fault, preemption_started, Crash, FaultAction};
use crate::syscall::{resolved, Pending, Reply, RetypeGrant, SyscallOp};
use crate::tcb::{inactive_tcb, Tcb};
use vstd::prelude::*;

verus! {

/// The object that a reference names exists.
pub open spec fn object_exists(k: KernelView, object: ObjectRef) -> bool {
    match object.kind {
        KernelObjectKind::UntypedMemory => slot(k.untyped, object.id.0) is Some,
        KernelObjectKind::PageTable => slot(k.addr_spaces, object.id.0) is Some,
        KernelObjectKind::ThreadControlBlock => slot(k.tcbs, object.id.0) is Some,
        KernelObjectKind::Endpoint => slot(k.endpoints, object.id.0) is Some,
        KernelObjectKind::Notification => slot(k.notifications, object.id.0) is Some,
        KernelObjectKind::CapabilitySpace => slot(k.spaces, object.id.0) is Some,
        KernelObjectKind::SharedRegion => slot(k.shared_regions, object.id.0) is Some,
        KernelObjectKind::MmioRegion => slot(k.mmio_regions, object.id.0) is Some,
    }
}

/// Every capability, in every space, names an object that exists.
pub open spec fn capabilities_name_objects(k: KernelView) -> bool {
    forall|id: GlobalCapId|
        (#[trigger] entry_at(k.spaces, id)) is Some ==> object_exists(
            k,
            entry_at(k.spaces, id)->0.cap.object,
        )
}

/// The capability space and the address space that a thread uses exist.
pub open spec fn housed(k: KernelView, t: Tcb) -> bool {
    slot(k.spaces, t.cap_space.0) is Some && slot(k.addr_spaces, t.addr_space.0) is Some
}

/// Every thread's capability space and address space exist.
pub open spec fn threads_are_housed(k: KernelView) -> bool {
    forall|i: int|
        0 <= i < k.tcbs.len() && (#[trigger] k.tcbs[i]) is Some ==> housed(k, k.tcbs[i]->0)
}

/// Nothing dangles: every capability names an object that exists, and every thread's spaces
/// exist.
pub open spec fn nothing_dangles(k: KernelView) -> bool {
    capabilities_name_objects(k) && threads_are_housed(k)
}

/// No object that `before` has is missing in `after`.
pub open spec fn objects_kept(before: KernelView, after: KernelView) -> bool {
    forall|object: ObjectRef| #[trigger]
        object_exists(before, object) ==> object_exists(after, object)
}

/// What to show of a step so that nothing dangles afterwards.
proof fn lemma_nothing_dangles(before: KernelView, after: KernelView)
    requires
        nothing_dangles(before),
        objects_kept(before, after),
        forall|id: GlobalCapId|
            (#[trigger] entry_at(after.spaces, id)) is Some ==> {
                let object = entry_at(after.spaces, id)->0.cap.object;
                ||| object_exists(after, object)
                ||| entry_at(before.spaces, id) is Some && entry_at(
                    before.spaces,
                    id,
                )->0.cap.object == object
            },
        forall|i: int|
            0 <= i < after.tcbs.len() && (#[trigger] after.tcbs[i]) is Some ==> {
                let t = after.tcbs[i]->0;
                ||| housed(after, t)
                ||| i < before.tcbs.len() && before.tcbs[i] is Some
                    && before.tcbs[i]->0.cap_space == t.cap_space
                    && before.tcbs[i]->0.addr_space == t.addr_space
            },
    ensures
        nothing_dangles(after),
{
    assert forall|i: int|
        0 <= i < after.tcbs.len() && (#[trigger] after.tcbs[i]) is Some implies housed(
        after,
        after.tcbs[i]->0,
    ) by {
        let t = after.tcbs[i]->0;
        if !housed(after, t) {
            assert(housed(before, before.tcbs[i]->0));
            let cs = ObjectRef {
                kind: KernelObjectKind::CapabilitySpace,
                id: ObjectId(t.cap_space.0),
            };
            let pt = ObjectRef { kind: KernelObjectKind::PageTable, id: ObjectId(t.addr_space.0) };
            assert(object_exists(before, cs));
            assert(object_exists(before, pt));
        }
    }
}

/// In a kernel without any object nothing dangles.
pub proof fn empty_kernel_has_nothing_dangling(mmio: nat)
    ensures
        nothing_dangles(empty_kernel(mmio)),
{
}

/// The free slots of a table are slots of it.
spec fn free_slots_in_range(table: CapTableView) -> bool {
    forall|i: int|
        0 <= i < table.free.len() ==> (#[trigger] table.free[i]).0 < table.entries.len()
}

/// Storing a capability to an object that exists.
proof fn lemma_stored(k: KernelView, cs: CapSpaceId, entry: CapEntry)
    requires
        nothing_dangles(k),
        slot(k.spaces, cs.0) is Some,
        k.spaces[cs.0 as int]->0.free.len() > 0,
        free_slots_in_range(k.spaces[cs.0 as int]->0),
        object_exists(k, entry.cap.object),
    ensures
        ({
            let table = k.spaces[cs.0 as int]->0.with_entry(entry);
            &&& nothing_dangles(
                KernelView { spaces: k.spaces.update(cs.0 as int, Some(table)), ..k },
            )
            &&& free_slots_in_range(table)
        }),
{
    let table = k.spaces[cs.0 as int]->0;
    let after = KernelView {
        spaces: k.spaces.update(cs.0 as int, Some(table.with_entry(entry))),
        ..k
    };
    assert(object_exists(after, entry.cap.object));
    assert(table.free[0].0 < table.entries.len());
    lemma_nothing_dangles(k, after);
}

/// A capability that resolves leads to an object.
pub proof fn resolved_capabilities_reach_their_object(
    k: KernelView,
    caller: ThreadId,
    cap: CapId,
    kind: KernelObjectKind,
    needed: CapabilityRights,
)
    requires
        nothing_dangles(k),
        resolved(k, caller, cap, kind, needed) is Ok,
    ensures
        resolved(k, caller, cap, kind, needed)->Ok_0.object.kind == kind,
        object_exists(k, resolved(k, caller, cap, kind, needed)->Ok_0.object),
{
    let id = GlobalCapId { space: k.tcbs[caller.0 as int]->0.cap_space, cap };
    assert(entry_at(k.spaces, id) is Some);
}

/// The first step of a system call leaves nothing dangling.
pub proof fn dispatch_leaves_nothing_dangling(k: KernelView, caller: ThreadId, op: SyscallOp)
    requires
        k.wf(),
        nothing_dangles(k),
    ensures
        nothing_dangles(dispatched(k, caller, op).0),
{
    let after = dispatched(k, caller, op).0;
    match op {
        SyscallOp::CapRevoke { cap } => {
            lemma_nothing_dangles(k, after);
        },
        SyscallOp::CapGrant { target_thread, cap, rights } => {
            let source = GlobalCapId { space: k.tcbs[caller.0 as int]->0.cap_space, cap };
            assert(entry_at(k.spaces, source) is Some ==> object_exists(
                k,
                entry_at(k.spaces, source)->0.cap.object,
            ));
            lemma_nothing_dangles(k, after);
        },
        _ => {
            lemma_nothing_dangles(k, after);
        },
    }
}

/// The capabilities and objects in the middle of a batch.
proof fn lemma_batch(k: KernelView, b: Batch, n: int)
    requires
        k.wf(),
        nothing_dangles(k),
        !(b.ty is SharedRegion),
        slot(k.tcbs, b.caller.0) is Some,
        k.tcbs[b.caller.0 as int]->0.cap_space == b.cs,
        slot(k.spaces, b.cs.0) is Some,
        b.first_obj >= 0,
        n > 0,
        forall|i: int| 0 <= i < n ==> #[trigger] in_sequence(k, b, i),
    ensures
        nothing_dangles(batch_state(k, b, 0, n)),
{
    let after = batch_state(k, b, 0, n);
    let table = k.spaces[b.cs.0 as int]->0;
    lemma_table_bounds(k, b.ty);
    assert(housed(k, k.tcbs[b.caller.0 as int]->0));
    if b.ty is CapabilitySpace && b.first_obj <= b.cs.0 < b.first_obj + n {
        assert(in_sequence(k, b, b.cs.0 - b.first_obj));
    }
    assert forall|object: ObjectRef| #[trigger] object_exists(k, object) implies object_exists(
        after,
        object,
    ) by {}
    assert forall|id: GlobalCapId| (#[trigger] entry_at(after.spaces, id)) is Some implies {
        let object = entry_at(after.spaces, id)->0.cap.object;
        ||| object_exists(after, object)
        ||| entry_at(k.spaces, id) is Some && entry_at(k.spaces, id)->0.cap.object == object
    } by {
        if id.space == b.cs && b.first_cap <= id.cap.0 < b.first_cap + n {
            let i = id.cap.0 - b.first_cap;
            assert(in_sequence(k, b, i));
            assert(object_free_at(k, b.ty, b.first_obj + i));
        }
    }
    assert forall|i: int| 0 <= i < after.tcbs.len() && (#[trigger] after.tcbs[i]) is Some implies {
        let t = after.tcbs[i]->0;
        ||| housed(after, t)
        ||| i < k.tcbs.len() && k.tcbs[i] is Some && k.tcbs[i]->0.cap_space == t.cap_space
            && k.tcbs[i]->0.addr_space == t.addr_space
    } by {}
    lemma_nothing_dangles(k, after);
}

/// A retype, whether it succeeds or not, leaves nothing dangling.
proof fn lemma_retype(
    k: KernelView,
    caller: ThreadId,
    ty: KernelObjectType,
    grant: RetypeGrant,
    running: Option<ThreadId>,
)
    requires
        k.wf(),
        nothing_dangles(k),
    ensures
        nothing_dangles(retyped(k, caller, ty, grant, running).0),
{
    let after = retyped(k, caller, ty, grant, running).0;
    if slot(k.tcbs, caller.0) is Some && slot(k.spaces, k.tcbs[caller.0 as int]->0.cap_space.0) is Some {
        let cs = k.tcbs[caller.0 as int]->0.cap_space;
        let table = k.spaces[cs.0 as int]->0;
        assert(table.wf());
        if ty is SharedRegion {
            if first_free(k.shared_regions) is Some && table.free.len() > 0 {
                let j = first_free(k.shared_regions)->0;
                lemma_first_free(k.shared_regions, j);
                let made = KernelView { shared_regions: after.shared_regions, ..k };
                lemma_nothing_dangles(k, made);
                lemma_stored(
                    made,
                    cs,
                    CapEntry {
                        cap: full_cap_to(KernelObjectKind::SharedRegion, j),
                        parent: None,
                    },
                );
            }
        } else {
            let b = batch_of(k, caller, ty, grant, running);
            let n = grant.count as int;
            lemma_table_bounds(k, ty);
            if n > 0 {
                if exists|m: int| is_first_break(k, b, n, m) {
                    lemma_nothing_dangles(k, after);
                } else {
                    lemma_no_break(k, b, n, n);
                    assert(in_sequence(k, b, 0));
                    lemma_batch(k, b, n);
                }
            }
        }
    }
}

/// A later step of a system call leaves nothing dangling; in particular what a retype hands out
/// names the objects that it created, and what it takes back is handed out nowhere.
pub proof fn resume_leaves_nothing_dangling(k: KernelView, pending: Pending, reply: Reply)
    requires
        k.wf(),
        nothing_dangles(k),
    ensures
        nothing_dangles(resumed(k, pending, reply).0),
{
    if let Pending::Retype { caller, target_type } = pending {
        if let Reply::Reserved { grant: Ok(grant), running } = reply {
            lemma_retype(k, caller, target_type, grant, running);
        }
    } else {
        lemma_resume_touches_threads_only(k, pending, reply);
        reveal(threads_kept);
        lemma_nothing_dangles(k, resumed(k, pending, reply).0);
    }
}

/// A space that capabilities can be stored in, in a kernel where nothing dangles.
spec fn open_for_storing(k: KernelView, cs: CapSpaceId) -> bool {
    &&& nothing_dangles(k)
    &&& slot(k.spaces, cs.0) is Some
    &&& free_slots_in_range(k.spaces[cs.0 as int]->0)
}

proof fn lemma_root_stored(k: KernelView, cs: CapSpaceId, cap: Capability)
    requires
        open_for_storing(k, cs),
        object_exists(k, cap.object),
    ensures
        open_for_storing(root_inserted_if_room(k, cs, cap), cs),
{
    if k.spaces[cs.0 as int]->0.free.len() > 0 {
        lemma_stored(k, cs, CapEntry { cap, parent: None });
    }
}

proof fn lemma_seeding(k: KernelView, cs: CapSpaceId, ranges: Seq<(u64, u64)>)
    requires
        open_for_storing(k, cs),
        k.untyped.len() <= u32::MAX,
    ensures
        ({
            let after = seeded(k, cs, ranges).kernel;
            &&& open_for_storing(after, cs)
            &&& after.untyped.len() == k.untyped.len()
            &&& after == (KernelView { untyped: after.untyped, spaces: after.spaces, ..k })
        }),
    decreases ranges.len(),
{
    if ranges.len() > 0 {
        lemma_seeding(k, cs, ranges.drop_last());
        let s = seeded(k, cs, ranges.drop_last());
        if !s.stopped && first_free(s.kernel.untyped) is Some {
            let i = first_free(s.kernel.untyped)->0;
            lemma_first_free(s.kernel.untyped, i);
            let after = seeded(k, cs, ranges).kernel;
            let made = KernelView { untyped: after.untyped, ..s.kernel };
            lemma_nothing_dangles(s.kernel, made);
            lemma_root_stored(made, cs, full_cap_to(KernelObjectKind::UntypedMemory, i));
        }
    }
}

proof fn lemma_device(
    k: KernelView,
    cs: CapSpaceId,
    devices: Seq<PeripheralDevice>,
    kind: PeripheralKind,
)
    requires
        open_for_storing(k, cs),
        k.mmio_regions.len() <= u32::MAX,
    ensures
        open_for_storing(device_seeded(k, cs, devices, kind).0, cs),
        device_seeded(k, cs, devices, kind).0.mmio_regions.len() == k.mmio_regions.len(),
{
    if first_device(devices, kind) is Some && first_free(k.mmio_regions) is Some {
        let i = first_free(k.mmio_regions)->0;
        lemma_first_free(k.mmio_regions, i);
        let made = KernelView {
            mmio_regions: k.mmio_regions.update(i, Some(first_device(devices, kind)->0.window)),
            ..k
        };
        lemma_nothing_dangles(k, made);
        lemma_root_stored(made, cs, full_cap_to(KernelObjectKind::MmioRegion, i));
    }
}

/// A boot, whether it succeeds or not, leaves nothing dangling.
pub proof fn boot_leaves_nothing_dangling(k: KernelView, boot: BootInfo)
    requires
        k.wf(),
        k.mmio_regions.len() <= u32::MAX,
        nothing_dangles(k),
    ensures
        nothing_dangles(booted(k, boot).0),
{
    let c = first_free(k.spaces)->0;
    let a = first_free(k.addr_spaces)->0;
    let t = first_free(k.tcbs)->0;
    lemma_first_free(k.spaces, c);
    lemma_first_free(k.addr_spaces, a);
    lemma_first_free(k.tcbs, t);
    let cs = CapSpaceId(c as u32);
    let addr_space = PageTableId(a as u32);
    let thread = ThreadId(t as u32);
    if boot.valid && first_free(k.spaces) is Some {
        let k1 = KernelView {
            spaces: k.spaces.update(c, Some(empty_table(CAP_SLOTS_PER_SPACE as nat, cs))),
            ..k
        };
        lemma_nothing_dangles(k, k1);
        if first_free(k.addr_spaces) is Some {
            let k2 = KernelView {
                addr_spaces: k.addr_spaces.update(
                    a,
                    Some(AddressSpace { root_phys: boot.initial_page_table_phys }),
                ),
                ..k1
            };
            lemma_nothing_dangles(k1, k2);
            if first_free(k.tcbs) is Some {
                let k3 = KernelView {
                    tcbs: k.tcbs.update(t, Some(inactive_tcb(thread, cs, addr_space, None))),
                    ..k2
                };
                lemma_nothing_dangles(k2, k3);
                assert(booted(k, boot) == booted_with(k3, boot, thread, cs, addr_space));
                let ranges = free_fragments(boot, boot.regions@);
                lemma_seeding(k3, cs, ranges);
                let s = seeded(k3, cs, ranges);
                let pt = full_cap_to(KernelObjectKind::PageTable, addr_space.0 as int);
                lemma_root_stored(s.kernel, cs, pt);
                let k4 = root_inserted_if_room(s.kernel, cs, pt);
                lemma_device(k4, cs, boot.devices@, PeripheralKind::Block);
                let k5 = device_seeded(k4, cs, boot.devices@, PeripheralKind::Block).0;
                lemma_device(k5, cs, boot.devices@, PeripheralKind::Network);
            }
        }
    }
}

/// Making a process, whether it succeeds or not, leaves nothing dangling.
pub proof fn making_a_process_leaves_nothing_dangling(
    k: KernelView,
    root_pt: usize,
    entry: usize,
    spawner: Option<ThreadId>,
)
    requires
        k.wf(),
        nothing_dangles(k),
    ensures
        nothing_dangles(process_made(k, root_pt, entry, spawner).0),
{
    lemma_first_free(k.spaces, first_free(k.spaces)->0);
    lemma_first_free(k.addr_spaces, first_free(k.addr_spaces)->0);
    lemma_first_free(k.tcbs, first_free(k.tcbs)->0);
    lemma_nothing_dangles(k, process_made(k, root_pt, entry, spawner).0);
}

/// The root task's capability space and address space exist.
pub open spec fn root_is_housed(k: KernelView) -> bool {
    slot(k.spaces, k.root.cap_space.0) is Some && slot(k.addr_spaces, k.root.addr_space.0) is Some
}

/// Making the second process, whether it succeeds or not, leaves nothing dangling.
pub proof fn making_the_pair_leaves_nothing_dangling(
    k: KernelView,
    e: Enter,
    spawner: Option<ThreadId>,
)
    requires
        k.wf(),
        nothing_dangles(k),
        root_is_housed(k),
    ensures
        nothing_dangles(pair_made(k, e, spawner).0),
{
    let started = KernelView {
        tcbs: started(k.tcbs, k.root.thread, e.user.entry_vma),
        ..k
    };
    lemma_first_free(started.addr_spaces, first_free(started.addr_spaces)->0);
    lemma_first_free(started.tcbs, first_free(started.tcbs)->0);
    lemma_nothing_dangles(k, pair_made(k, e, spawner).0);
}

/// The start of preemption leaves nothing dangling.
pub proof fn preemption_leaves_nothing_dangling(
    k: KernelView,
    loop_entry: usize,
    server: Option<ThreadId>,
    spawner: Option<ThreadId>,
)
    requires
        k.wf(),
        nothing_dangles(k),
        root_is_housed(k),
    ensures
        nothing_dangles(preemption_started(k, loop_entry, server, spawner).0),
{
    lemma_first_free(k.tcbs, first_free(k.tcbs)->0);
    lemma_nothing_dangles(k, preemption_started(k, loop_entry, server, spawner).0);
}

/// A fault leaves nothing dangling: a dead thread keeps its spaces.
pub proof fn faults_leave_nothing_dangling(k: KernelView, action: FaultAction, crash: Crash)
    requires
        nothing_dangles(k),
    ensures
        nothing_dangles(kernel_after_fault(k, action, crash)),
{
    lemma_nothing_dangles(k, kernel_after_fault(k, action, crash));
}

/// The free slots of every table are slots of it.
spec fn all_free_slots_in_range(k: KernelView) -> bool {
    forall|s: int|
        0 <= s < k.spaces.len() && (#[trigger] k.spaces[s]) is Some ==> free_slots_in_range(
            k.spaces[s]->0,
        )
}

proof fn lemma_handed_copy(
    k: KernelView,
    src: CapSpaceId,
    cap: CapId,
    dst: CapSpaceId,
    rights: CapabilityRights,
)
    requires
        all_free_slots_in_range(k),
        nothing_dangles(k),
    ensures
        nothing_dangles(granted_into(k, src, cap, dst, rights).0),
        all_free_slots_in_range(granted_into(k, src, cap, dst, rights).0),
{
    let (after, copy) = granted_into(k, src, cap, dst, rights);
    if copy is Some {
        let parent = GlobalCapId { space: src, cap };
        assert(entry_at(k.spaces, parent) is Some);
        assert(k.spaces[dst.0 as int] is Some);
        let entry = CapEntry {
            cap: derived_capability(k.spaces[src.0 as int]->0.get(cap), rights, 0)->Ok_0,
            parent: Some(parent),
        };
        lemma_stored(k, dst, entry);
        assert forall|s: int| 0 <= s < after.spaces.len() && (
        #[trigger] after.spaces[s]) is Some implies free_slots_in_range(after.spaces[s]->0) by {
            assert(k.spaces[s] is Some);
        }
    }
}

proof fn lemma_instruction(k: KernelView, l: Launch)
    requires
        all_free_slots_in_range(k),
        nothing_dangles(k),
    ensures
        executed(k, l) matches Outcome::Next(k1, _) ==> all_free_slots_in_range(k1)
            && nothing_dangles(k1),
{
    lemma_only_grants_change_the_kernel(op_at(l.service, l.pc as int), k, l);
    if let Outcome::Next(k1, l1) = executed(k, l) {
        if k1 != k {
            let p = l.process->0;
            let rights = CapabilityRights { bits: SERVICE_RIGHTS };
            assert(k1 == granted_into(k, l.src, l.cap, p.cap_space, rights).0);
            lemma_handed_copy(k, l.src, l.cap, p.cap_space, rights);
        }
    }
}

proof fn lemma_launch(k: KernelView, l: Launch)
    requires
        all_free_slots_in_range(k),
        nothing_dangles(k),
    ensures
        nothing_dangles(ran(k, l).0),
    decreases instructions_left(l),
{
    lemma_instruction(k, l);
    if let Outcome::Next(k1, l1) = executed(k, l) {
        if l.pc < l1.pc && l.service == l1.service && l.pc < program(l.service).len() {
            lemma_launch(k1, l1);
        }
    }
}

/// Working on a launch leaves nothing dangling.
pub proof fn launches_leave_nothing_dangling(k: KernelView, l: Launch)
    requires
        k.wf(),
        nothing_dangles(k),
    ensures
        nothing_dangles(ran(k, l).0),
{
    assert(all_free_slots_in_range(k)) by {
        assert forall|s: int|
            0 <= s < k.spaces.len() && (#[trigger] k.spaces[s]) is Some implies free_slots_in_range(
            k.spaces[s]->0,
        ) by {}
    }
    lemma_launch(k, l);
}

} // verus!
