//! What retyping is for: the memory that was reserved becomes objects, each on a piece of its own,
//! and its caller gets full capabilities to exactly these.

use crate::call_laws::{answered, empowers, ends, has_space, held, thread_at};
use crate::capability::{Capability, KernelObjectKind, ObjectRef};
use crate::cdt::{CapTableError, CapTableView};
use crate::config::CAP_SLOTS_PER_SPACE;
use crate::dispatch::{dispatched, resumed};
use crate::ids::{CapId, CapSpaceId, ObjectId, ThreadId};
use crate::kernel_laws::lemma_no_break;
use crate::objects::{KernelObjectType, MmError, SharedRegion};
use crate::retype::{
    batch_of, in_sequence, is_first_break, lemma_caller_kept, lemma_table_bounds, retyped,
};
use crate::rights::{CapabilityRights, ALL_BITS, READ_BIT, WRITE_BIT};
use crate::state::{first_free, lemma_first_free, KernelView};
use crate::syscall::{Pending, Reply, RetypeGrant, Step, SyscallError, SyscallOp, SyscallReturn};
use crate::tcb::ThreadState;
use vstd::prelude::*;

verus! {

/// The end of a retype for `caller`, once the memory is there.
pub open spec fn retype_over(
    k: KernelView,
    caller: ThreadId,
    target_type: KernelObjectType,
    grant: RetypeGrant,
    running: Option<ThreadId>,
) -> (KernelView, Step) {
    resumed(
        k,
        Pending::Retype { caller, target_type },
        Reply::Reserved { grant: Ok(grant), running },
    )
}

/// A retype that has ended well, and what it was for.
pub open spec fn has_made(call: (KernelView, Step), cap: CapId, count: u32) -> bool {
    ends(call, Ok(SyscallReturn::NewCaps { cap, count }))
}

/// Objects of the type `ty` are of kind `kind`.
pub open spec fn is_of(ty: KernelObjectType, kind: KernelObjectKind) -> bool {
    match ty {
        KernelObjectType::Untyped => kind is UntypedMemory,
        KernelObjectType::PageTable => kind is PageTable,
        KernelObjectType::ThreadControlBlock => kind is ThreadControlBlock,
        KernelObjectType::Endpoint => kind is Endpoint,
        KernelObjectType::Notification => kind is Notification,
        KernelObjectType::CapabilitySpace => kind is CapabilitySpace,
        KernelObjectType::SharedRegion => kind is SharedRegion,
    }
}

/// There is an object with number `id` in the table for its type.
pub open spec fn is_there(k: KernelView, ty: KernelObjectType, id: int) -> bool {
    match ty {
        KernelObjectType::Untyped => 0 <= id < k.untyped.len() && k.untyped[id] is Some,
        KernelObjectType::PageTable => 0 <= id < k.addr_spaces.len() && k.addr_spaces[id] is Some,
        KernelObjectType::ThreadControlBlock => 0 <= id < k.tcbs.len() && k.tcbs[id] is Some,
        KernelObjectType::Endpoint => 0 <= id < k.endpoints.len() && k.endpoints[id] is Some,
        KernelObjectType::Notification => 0 <= id < k.notifications.len()
            && k.notifications[id] is Some,
        KernelObjectType::CapabilitySpace => 0 <= id < k.spaces.len() && k.spaces[id] is Some,
        KernelObjectType::SharedRegion => 0 <= id < k.shared_regions.len()
            && k.shared_regions[id] is Some,
    }
}

/// How many objects of a type the kernel has room for.
pub open spec fn room_for(k: KernelView, ty: KernelObjectType) -> nat {
    match ty {
        KernelObjectType::Untyped => k.untyped.len(),
        KernelObjectType::PageTable => k.addr_spaces.len(),
        KernelObjectType::ThreadControlBlock => k.tcbs.len(),
        KernelObjectType::Endpoint => k.endpoints.len(),
        KernelObjectType::Notification => k.notifications.len(),
        KernelObjectType::CapabilitySpace => k.spaces.len(),
        KernelObjectType::SharedRegion => k.shared_regions.len(),
    }
}

/// The number of the object that slot `cap + i` of `thread` names.
pub open spec fn named(k: KernelView, thread: ThreadId, cap: CapId, i: int) -> u32 {
    held(k, thread, CapId((cap.0 + i) as u32))->0.object.id.0
}

/// The capability table of `thread`.
pub open spec fn table_of(k: KernelView, thread: ThreadId) -> CapTableView {
    k.spaces[thread_at(k, thread)->0.cap_space.0 as int]->0
}

/// What a batch that succeeded looks like from within.
proof fn lemma_batch_made(
    k: KernelView,
    caller: ThreadId,
    ty: KernelObjectType,
    grant: RetypeGrant,
    running: Option<ThreadId>,
)
    requires
        k.wf(),
        !(ty is SharedRegion),
        retyped(k, caller, ty, grant, running).1 is Ok,
    ensures
        ({
            let b = batch_of(k, caller, ty, grant, running);
            let n = grant.count as int;
            let table = k.spaces[b.cs.0 as int]->0;
            &&& has_space(k, caller)
            &&& n > 0
            &&& 0 <= b.first_obj
            &&& b.first_obj + n <= 1000
            &&& b.first_cap + n <= CAP_SLOTS_PER_SPACE
            &&& thread_at(retyped(k, caller, ty, grant, running).0, caller) == thread_at(k, caller)
            &&& ty is CapabilitySpace ==> !(b.first_obj <= b.cs.0 < b.first_obj + n)
            &&& forall|i: int| 0 <= i < n ==> #[trigger] in_sequence(k, b, i)
            &&& 0 <= b.first_cap
            &&& forall|s: int|
                b.first_cap <= s < b.first_cap + n ==> (#[trigger] table.entries[s]) is None
            &&& retyped(k, caller, ty, grant, running).0 == crate::retype::batch_state(k, b, 0, n)
            &&& retyped(k, caller, ty, grant, running).1 == Ok::<SyscallReturn, SyscallError>(
                SyscallReturn::NewCaps { cap: table.free[0], count: grant.count },
            )
        }),
{
    let b = batch_of(k, caller, ty, grant, running);
    let n = grant.count as int;
    let table = k.spaces[b.cs.0 as int]->0;
    lemma_no_break(k, b, n, n);
    assert(in_sequence(k, b, 0));
    assert(in_sequence(k, b, n - 1));
    assert(table.free[n - 1].0 < table.entries.len());
    lemma_caller_kept(k, b, n);
    lemma_table_bounds(k, ty);
    assert(crate::retype::object_free_at(k, ty, b.first_obj + n - 1));
    if ty is CapabilitySpace && b.first_obj <= b.cs.0 < b.first_obj + n {
        assert(in_sequence(k, b, b.cs.0 - b.first_obj));
    }
    assert forall|s: int| b.first_cap <= s < b.first_cap + n implies (
    #[trigger] table.entries[s]) is None by {
        let i = s - b.first_cap;
        assert(in_sequence(k, b, i));
        assert(table.entries[table.free[i].0 as int] is None);
    }
}

/// A retype that succeeds hands its caller as many capabilities as memory was reserved for, in
/// slots one after the other that were empty. Each is a full one, and they name objects one after
/// the other that were not there before and are there now.
pub proof fn new_capabilities_name_new_objects(
    k: KernelView,
    caller: ThreadId,
    ty: KernelObjectType,
    grant: RetypeGrant,
    running: Option<ThreadId>,
    kind: KernelObjectKind,
    i: int,
)
    requires
        k.wf(),
        !(ty is SharedRegion),
        is_of(ty, kind),
        retype_over(k, caller, ty, grant, running).1->Finished_0 is Ok,
        0 <= i < grant.count,
    ensures
        ({
            let call = retype_over(k, caller, ty, grant, running);
            let cap = call.1->Finished_0->Ok_0->NewCaps_cap;
            let at = CapId((cap.0 + i) as u32);
            let id = named(call.0, caller, cap, 0) + i;
            &&& has_made(call, cap, grant.count)
            &&& cap.0 + i < CAP_SLOTS_PER_SPACE
            &&& held(k, caller, at) is None
            &&& held(call.0, caller, at) == Some(
                Capability {
                    object: ObjectRef { kind, id: ObjectId(id as u32) },
                    rights: CapabilityRights { bits: ALL_BITS },
                    badge: 0,
                },
            )
            &&& id < room_for(k, ty)
            &&& !is_there(k, ty, id)
            &&& is_there(call.0, ty, id)
        }),
{
    lemma_batch_made(k, caller, ty, grant, running);
    let b = batch_of(k, caller, ty, grant, running);
    assert(in_sequence(k, b, 0));
    assert(in_sequence(k, b, i));
}

/// Every address space or memory object that a retype makes lies in the range that was reserved
/// for it, on a piece of its own: object `i` starts where the pieces of those before it end, and
/// the last one ends within the range.
pub proof fn new_objects_lie_in_the_memory_reserved(
    k: KernelView,
    caller: ThreadId,
    ty: KernelObjectType,
    grant: RetypeGrant,
    running: Option<ThreadId>,
    i: int,
    j: int,
)
    requires
        k.wf(),
        ty is PageTable || ty is Untyped,
        retype_over(k, caller, ty, grant, running).1->Finished_0 is Ok,
        grant.phys_base + grant.phys_len <= u64::MAX,
        grant.count * grant.object_bytes <= grant.phys_len,
        0 <= i < j < grant.count,
    ensures
        ({
            let call = retype_over(k, caller, ty, grant, running);
            let cap = call.1->Finished_0->Ok_0->NewCaps_cap;
            let first = start_of(call.0, ty, named(call.0, caller, cap, i));
            let second = start_of(call.0, ty, named(call.0, caller, cap, j));
            &&& grant.phys_base <= first
            &&& first + grant.object_bytes <= second
            &&& second + grant.object_bytes <= grant.phys_base + grant.phys_len
        }),
{
    a_new_object_has_its_own_piece(k, caller, ty, grant, running, i);
    a_new_object_has_its_own_piece(k, caller, ty, grant, running, j);
    assert(i * grant.object_bytes + grant.object_bytes <= j * grant.object_bytes) by (nonlinear_arith)
        requires
            i + 1 <= j,
            grant.object_bytes >= 0,
    ;
    assert(i * grant.object_bytes >= 0) by (nonlinear_arith)
        requires
            i >= 0,
            grant.object_bytes >= 0,
    ;
    assert(j * grant.object_bytes + grant.object_bytes <= grant.count * grant.object_bytes)
        by (nonlinear_arith)
        requires
            j + 1 <= grant.count,
            grant.object_bytes >= 0,
    ;
}

/// The physical address at which an address space or a memory object starts.
pub open spec fn start_of(k: KernelView, ty: KernelObjectType, id: u32) -> u64 {
    if ty is PageTable {
        k.addr_spaces[id as int]->0.root_phys
    } else {
        k.untyped[id as int]->0.base
    }
}

/// Object `i` of a retype starts `i` pieces into the range reserved and lies within it. A memory
/// object is as long as a piece.
pub proof fn a_new_object_has_its_own_piece(
    k: KernelView,
    caller: ThreadId,
    ty: KernelObjectType,
    grant: RetypeGrant,
    running: Option<ThreadId>,
    i: int,
)
    requires
        k.wf(),
        ty is PageTable || ty is Untyped,
        retype_over(k, caller, ty, grant, running).1->Finished_0 is Ok,
        grant.phys_base + grant.phys_len <= u64::MAX,
        grant.count * grant.object_bytes <= grant.phys_len,
        0 <= i < grant.count,
    ensures
        ({
            let call = retype_over(k, caller, ty, grant, running);
            let cap = call.1->Finished_0->Ok_0->NewCaps_cap;
            let id = named(call.0, caller, cap, i);
            let start = start_of(call.0, ty, id);
            &&& start == grant.phys_base + i * grant.object_bytes
            &&& grant.phys_base <= start
            &&& start + grant.object_bytes <= grant.phys_base + grant.phys_len
            &&& ty is Untyped ==> call.0.untyped[id as int]->0.size == grant.object_bytes
        }),
{
    lemma_batch_made(k, caller, ty, grant, running);
    let b = batch_of(k, caller, ty, grant, running);
    assert(in_sequence(k, b, 0));
    assert(in_sequence(k, b, i));
    assert(i * grant.object_bytes >= 0 && i * grant.object_bytes + grant.object_bytes <= grant.count
        * grant.object_bytes) by (nonlinear_arith)
        requires
            0 <= i,
            i + 1 <= grant.count,
            grant.object_bytes >= 0,
    ;
}

/// A new thread shares the capability space and the address space of the thread that made it, does
/// not run, has no message and no entry point, and knows who was running when it was made.
pub proof fn new_threads_share_the_spaces_of_their_maker(
    k: KernelView,
    caller: ThreadId,
    grant: RetypeGrant,
    running: Option<ThreadId>,
    i: int,
)
    requires
        k.wf(),
        retype_over(
            k,
            caller,
            KernelObjectType::ThreadControlBlock,
            grant,
            running,
        ).1->Finished_0 is Ok,
        0 <= i < grant.count,
    ensures
        ({
            let ty = KernelObjectType::ThreadControlBlock;
            let call = retype_over(k, caller, ty, grant, running);
            let cap = call.1->Finished_0->Ok_0->NewCaps_cap;
            let thread = ThreadId(named(call.0, caller, cap, i));
            let new = thread_at(call.0, thread);
            let maker = thread_at(k, caller)->0;
            &&& new is Some
            &&& new->0.id == thread
            &&& new->0.cap_space == maker.cap_space
            &&& new->0.addr_space == maker.addr_space
            &&& new->0.entry == 0
            &&& new->0.state == ThreadState::Inactive
            &&& new->0.pending_msg is None
            &&& new->0.pending_from is None
            &&& new->0.spawner == running
            &&& new->0.exit is None
        }),
{
    let ty = KernelObjectType::ThreadControlBlock;
    lemma_batch_made(k, caller, ty, grant, running);
    let b = batch_of(k, caller, ty, grant, running);
    assert(in_sequence(k, b, 0));
    assert(in_sequence(k, b, i));
}

/// A new capability space has all its slots, and all of them are empty.
pub proof fn new_capability_spaces_are_empty(
    k: KernelView,
    caller: ThreadId,
    grant: RetypeGrant,
    running: Option<ThreadId>,
    i: int,
    slot: int,
)
    requires
        k.wf(),
        retype_over(
            k,
            caller,
            KernelObjectType::CapabilitySpace,
            grant,
            running,
        ).1->Finished_0 is Ok,
        0 <= i < grant.count,
        0 <= slot < CAP_SLOTS_PER_SPACE,
    ensures
        ({
            let ty = KernelObjectType::CapabilitySpace;
            let call = retype_over(k, caller, ty, grant, running);
            let cap = call.1->Finished_0->Ok_0->NewCaps_cap;
            let id = named(call.0, caller, cap, i);
            let table = call.0.spaces[id as int]->0;
            &&& table.entries.len() == CAP_SLOTS_PER_SPACE
            &&& table.entries[slot] is None
            &&& table.free.len() == CAP_SLOTS_PER_SPACE
            &&& table.free[slot] == CapId(slot as u32)
            &&& table.space == CapSpaceId(id)
        }),
{
    let ty = KernelObjectType::CapabilitySpace;
    lemma_batch_made(k, caller, ty, grant, running);
    let b = batch_of(k, caller, ty, grant, running);
    assert(in_sequence(k, b, 0));
    assert(in_sequence(k, b, i));
}

/// `after` has every object of `before` unchanged, whatever it has besides.
pub open spec fn objects_unchanged<T>(before: Seq<Option<T>>, after: Seq<Option<T>>) -> bool {
    &&& after.len() == before.len()
    &&& forall|i: int|
        0 <= i < before.len() && (#[trigger] before[i]) is Some ==> after[i] == before[i]
}

/// A retype, whether it succeeds or not, changes no object that was there, touches the table of no
/// other type of object, and stores nothing in the capability space of anyone else.
pub proof fn retyping_changes_no_other_object(
    k: KernelView,
    caller: ThreadId,
    ty: KernelObjectType,
    grant: RetypeGrant,
    running: Option<ThreadId>,
    s: int,
)
    requires
        k.wf(),
    ensures
        ({
            let after = retype_over(k, caller, ty, grant, running).0;
            &&& objects_unchanged(k.untyped, after.untyped)
            &&& objects_unchanged(k.addr_spaces, after.addr_spaces)
            &&& objects_unchanged(k.tcbs, after.tcbs)
            &&& objects_unchanged(k.endpoints, after.endpoints)
            &&& objects_unchanged(k.notifications, after.notifications)
            &&& objects_unchanged(k.shared_regions, after.shared_regions)
            &&& !(ty is Untyped) ==> after.untyped == k.untyped
            &&& !(ty is PageTable) ==> after.addr_spaces == k.addr_spaces
            &&& !(ty is ThreadControlBlock) ==> after.tcbs == k.tcbs
            &&& !(ty is Endpoint) ==> after.endpoints == k.endpoints
            &&& !(ty is Notification) ==> after.notifications == k.notifications
            &&& !(ty is SharedRegion) ==> after.shared_regions == k.shared_regions
            &&& after.mmio_regions == k.mmio_regions
            &&& after.irq_bindings == k.irq_bindings
            &&& after.root == k.root
            &&& after.map_pool == k.map_pool
            &&& 0 <= s < k.spaces.len() && k.spaces[s] is Some && (thread_at(k, caller) is None
                || thread_at(k, caller)->0.cap_space.0 != s) ==> after.spaces[s] == k.spaces[s]
        }),
{
    if has_space(k, caller) {
        if ty is SharedRegion {
            if first_free(k.shared_regions) is Some {
                lemma_first_free(k.shared_regions, first_free(k.shared_regions)->0);
            }
        } else {
            let b = batch_of(k, caller, ty, grant, running);
            let n = grant.count as int;
            if n > 0 && !(exists|m: int| is_first_break(k, b, n, m)) {
                lemma_batch_made(k, caller, ty, grant, running);
                lemma_batch_touches_free_objects(k, caller, ty, grant, running);
                if ty is CapabilitySpace && b.first_obj <= s < b.first_obj + n {
                    assert(in_sequence(k, b, s - b.first_obj));
                }
            }
        }
    }
}

proof fn lemma_batch_touches_free_objects(
    k: KernelView,
    caller: ThreadId,
    ty: KernelObjectType,
    grant: RetypeGrant,
    running: Option<ThreadId>,
)
    requires
        k.wf(),
        !(ty is SharedRegion),
        retyped(k, caller, ty, grant, running).1 is Ok,
    ensures
        ({
            let after = retyped(k, caller, ty, grant, running).0;
            &&& objects_unchanged(k.untyped, after.untyped)
            &&& objects_unchanged(k.addr_spaces, after.addr_spaces)
            &&& objects_unchanged(k.tcbs, after.tcbs)
            &&& objects_unchanged(k.endpoints, after.endpoints)
            &&& objects_unchanged(k.notifications, after.notifications)
        }),
{
    lemma_batch_made(k, caller, ty, grant, running);
    let b = batch_of(k, caller, ty, grant, running);
    let n = grant.count as int;
    let after = retyped(k, caller, ty, grant, running).0;
    assert(objects_unchanged(k.untyped, after.untyped)) by {
        assert forall|i: int| 0 <= i < k.untyped.len() && (#[trigger] k.untyped[i]) is Some implies
            after.untyped[i] == k.untyped[i] by {
            if ty is Untyped && b.first_obj <= i < b.first_obj + n {
                assert(in_sequence(k, b, i - b.first_obj));
            }
        }
    }
    assert(objects_unchanged(k.addr_spaces, after.addr_spaces)) by {
        assert forall|i: int| 0 <= i < k.addr_spaces.len() && (#[trigger] k.addr_spaces[i]) is Some implies
            after.addr_spaces[i] == k.addr_spaces[i] by {
            if ty is PageTable && b.first_obj <= i < b.first_obj + n {
                assert(in_sequence(k, b, i - b.first_obj));
            }
        }
    }
    assert(objects_unchanged(k.tcbs, after.tcbs)) by {
        assert forall|i: int| 0 <= i < k.tcbs.len() && (#[trigger] k.tcbs[i]) is Some implies
            after.tcbs[i] == k.tcbs[i] by {
            if ty is ThreadControlBlock && b.first_obj <= i < b.first_obj + n {
                assert(in_sequence(k, b, i - b.first_obj));
            }
        }
    }
    assert(objects_unchanged(k.endpoints, after.endpoints)) by {
        assert forall|i: int| 0 <= i < k.endpoints.len() && (#[trigger] k.endpoints[i]) is Some implies
            after.endpoints[i] == k.endpoints[i] by {
            if ty is Endpoint && b.first_obj <= i < b.first_obj + n {
                assert(in_sequence(k, b, i - b.first_obj));
            }
        }
    }
    assert(objects_unchanged(k.notifications, after.notifications)) by {
        assert forall|i: int| 0 <= i < k.notifications.len() && (#[trigger] k.notifications[i]) is Some implies
            after.notifications[i] == k.notifications[i] by {
            if ty is Notification && b.first_obj <= i < b.first_obj + n {
                assert(in_sequence(k, b, i - b.first_obj));
            }
        }
    }
}

/// A shared region spans the whole range that was reserved, whatever the number of pages, and may
/// be shared for reading and writing. Its maker gets one full capability to it.
pub proof fn a_shared_region_spans_the_memory_reserved(
    k: KernelView,
    caller: ThreadId,
    grant: RetypeGrant,
    running: Option<ThreadId>,
)
    requires
        k.wf(),
        has_space(k, caller),
        table_of(k, caller).free.len() > 0,
        exists|j: int| 0 <= j < k.shared_regions.len() && (#[trigger] k.shared_regions[j]) is None,
        grant.phys_len <= usize::MAX,
    ensures
        ({
            let call = retype_over(k, caller, KernelObjectType::SharedRegion, grant, running);
            let cap = call.1->Finished_0->Ok_0->NewCaps_cap;
            let id = named(call.0, caller, cap, 0);
            &&& has_made(call, cap, 1)
            &&& held(k, caller, cap) is None
            &&& held(call.0, caller, cap) == Some(
                Capability {
                    object: ObjectRef { kind: KernelObjectKind::SharedRegion, id: ObjectId(id) },
                    rights: CapabilityRights { bits: ALL_BITS },
                    badge: 0,
                },
            )
            &&& !is_there(k, KernelObjectType::SharedRegion, id as int)
            &&& is_there(call.0, KernelObjectType::SharedRegion, id as int)
            &&& call.0.shared_regions[id as int]->0 == (SharedRegion {
                phys_base: grant.phys_base,
                size: grant.phys_len as usize,
                max_rights: CapabilityRights { bits: READ_BIT | WRITE_BIT },
            })
        }),
{
    lemma_first_free(k.shared_regions, 0);
    let j = first_free(k.shared_regions)->0;
    lemma_first_free(k.shared_regions, j);
    let table = table_of(k, caller);
    assert(table.entries[table.free[0].0 as int] is None);
}

/// The lowest number that is free for an object of a type.
pub open spec fn is_lowest_free(k: KernelView, ty: KernelObjectType, id: int) -> bool {
    &&& 0 <= id < room_for(k, ty)
    &&& !is_there(k, ty, id)
    &&& forall|j: int| 0 <= j < id ==> #[trigger] is_there(k, ty, j)
}

/// A retype of some objects succeeds whenever their numbers and their slots are free in a row from
/// the lowest free number and the next free slot on; it then starts at just these.
pub proof fn a_retype_with_room_succeeds(
    k: KernelView,
    caller: ThreadId,
    ty: KernelObjectType,
    grant: RetypeGrant,
    running: Option<ThreadId>,
    id: int,
)
    requires
        k.wf(),
        !(ty is SharedRegion),
        has_space(k, caller),
        grant.count > 0,
        is_lowest_free(k, ty, id),
        id + grant.count <= room_for(k, ty),
        forall|i: int| 0 <= i < grant.count ==> !is_there(k, ty, #[trigger] (id + i)),
        grant.count <= table_of(k, caller).free.len(),
        forall|i: int|
            0 <= i < grant.count ==> (#[trigger] table_of(k, caller).free[i]).0 == table_of(
                k,
                caller,
            ).free[0].0 + i,
    ensures
        ({
            let call = retype_over(k, caller, ty, grant, running);
            &&& has_made(call, table_of(k, caller).free[0], grant.count)
            &&& named(call.0, caller, table_of(k, caller).free[0], 0) == id
        }),
{
    let b = batch_of(k, caller, ty, grant, running);
    let n = grant.count as int;
    lemma_lowest(k, ty, id);
    assert(b.first_obj == id);
    assert forall|i: int| 0 <= i < n implies #[trigger] in_sequence(k, b, i) by {
        assert(!is_there(k, ty, id + i));
        assert(table_of(k, caller).free[i].0 == b.first_cap + i);
    }
    assert(forall|m: int| !is_first_break(k, b, n, m));
    lemma_batch_made(k, caller, ty, grant, running);
}

proof fn lemma_lowest(k: KernelView, ty: KernelObjectType, id: int)
    requires
        is_lowest_free(k, ty, id),
        !(ty is SharedRegion),
    ensures
        crate::retype::lowest_free_object(k, ty) == Some(id),
{
    assert(forall|j: int| 0 <= j < id ==> is_there(k, ty, j));
    match ty {
        KernelObjectType::Untyped => {
            assert forall|j: int| 0 <= j < id implies (#[trigger] k.untyped[j]) is Some by {
                assert(is_there(k, ty, j));
            }
            lemma_first_free(k.untyped, id);
        },
        KernelObjectType::PageTable => {
            assert forall|j: int| 0 <= j < id implies (#[trigger] k.addr_spaces[j]) is Some by {
                assert(is_there(k, ty, j));
            }
            lemma_first_free(k.addr_spaces, id);
        },
        KernelObjectType::ThreadControlBlock => {
            assert forall|j: int| 0 <= j < id implies (#[trigger] k.tcbs[j]) is Some by {
                assert(is_there(k, ty, j));
            }
            lemma_first_free(k.tcbs, id);
        },
        KernelObjectType::Endpoint => {
            assert forall|j: int| 0 <= j < id implies (#[trigger] k.endpoints[j]) is Some by {
                assert(is_there(k, ty, j));
            }
            lemma_first_free(k.endpoints, id);
        },
        KernelObjectType::Notification => {
            assert forall|j: int| 0 <= j < id implies (#[trigger] k.notifications[j]) is Some by {
                assert(is_there(k, ty, j));
            }
            lemma_first_free(k.notifications, id);
        },
        KernelObjectType::CapabilitySpace => {
            assert forall|j: int| 0 <= j < id implies (#[trigger] k.spaces[j]) is Some by {
                assert(is_there(k, ty, j));
            }
            lemma_first_free(k.spaces, id);
        },
        KernelObjectType::SharedRegion => {},
    }
}

/// Why a retype fails before anything is made: the memory was refused, its caller has no
/// capability space, nothing was to be made, the table of the objects is full, or else the
/// capability space is.
pub proof fn a_retype_without_room_fails(
    k: KernelView,
    caller: ThreadId,
    ty: KernelObjectType,
    grant: RetypeGrant,
    running: Option<ThreadId>,
    e: MmError,
)
    requires
        k.wf(),
    ensures
        resumed(
            k,
            Pending::Retype { caller, target_type: ty },
            Reply::Reserved { grant: Err(e), running },
        ) == (k, Step::Finished(Err(SyscallError::Mm(e)))),
        ({
            let call = retype_over(k, caller, ty, grant, running);
            let full = forall|j: int| 0 <= j < room_for(k, ty) ==> #[trigger] is_there(k, ty, j);
            &&& !has_space(k, caller) ==> ends(call, Err(SyscallError::NoCaller))
            &&& has_space(k, caller) && grant.count == 0 && !(ty is SharedRegion) ==> ends(
                call,
                Err(SyscallError::Mm(MmError::ZeroCount)),
            )
            &&& has_space(k, caller) && (grant.count > 0 || ty is SharedRegion) && full ==> ends(
                call,
                Err(SyscallError::ObjectTableFull),
            )
            &&& has_space(k, caller) && (grant.count > 0 || ty is SharedRegion) && !full
                && table_of(k, caller).free.len() == 0 ==> ends(
                call,
                Err(SyscallError::Cap(CapTableError::Full)),
            )
        }),
{
    if has_space(k, caller) && (grant.count > 0 || ty is SharedRegion) {
        lemma_full(k, ty);
        if !(ty is SharedRegion) {
            let b = batch_of(k, caller, ty, grant, running);
            if crate::retype::lowest_free_object(k, ty) is None || table_of(k, caller).free.len()
                == 0 {
                assert(!in_sequence(k, b, 0));
                assert(is_first_break(k, b, grant.count as int, 0));
                crate::retype::lemma_first_break(k, b, grant.count as int, 0);
                crate::retype::lemma_batch_start(k, b);
            }
        }
    }
}

proof fn lemma_full(k: KernelView, ty: KernelObjectType)
    ensures
        crate::retype::lowest_free_object(k, ty) is None <==> forall|j: int|
            0 <= j < room_for(k, ty) ==> #[trigger] is_there(k, ty, j),
{
    lemma_first_free(k.untyped, 0);
    lemma_first_free(k.addr_spaces, 0);
    lemma_first_free(k.tcbs, 0);
    lemma_first_free(k.endpoints, 0);
    lemma_first_free(k.notifications, 0);
    lemma_first_free(k.spaces, 0);
    lemma_first_free(k.shared_regions, 0);
    if forall|j: int| 0 <= j < room_for(k, ty) ==> #[trigger] is_there(k, ty, j) {
        assert forall|j: int| 0 <= j < room_for(k, ty) implies match ty {
            KernelObjectType::Untyped => k.untyped[j] is Some,
            KernelObjectType::PageTable => k.addr_spaces[j] is Some,
            KernelObjectType::ThreadControlBlock => k.tcbs[j] is Some,
            KernelObjectType::Endpoint => k.endpoints[j] is Some,
            KernelObjectType::Notification => k.notifications[j] is Some,
            KernelObjectType::CapabilitySpace => k.spaces[j] is Some,
            KernelObjectType::SharedRegion => k.shared_regions[j] is Some,
        } by {
            assert(is_there(k, ty, j));
        }
    }
}

/// Why a retype fails once it has made some of its objects, all of which it takes back: there is
/// no further room for an object, or else none for a capability, or else the next object or the
/// next capability could not be numbered in a row.
pub proof fn a_retype_out_of_room_or_out_of_row_fails(
    k: KernelView,
    caller: ThreadId,
    ty: KernelObjectType,
    grant: RetypeGrant,
    running: Option<ThreadId>,
    id: int,
    m: int,
)
    requires
        k.wf(),
        !(ty is SharedRegion),
        has_space(k, caller),
        is_lowest_free(k, ty, id),
        0 < m < grant.count,
        id + m <= room_for(k, ty),
        forall|i: int| 0 <= i < m ==> !is_there(k, ty, #[trigger] (id + i)),
        m <= table_of(k, caller).free.len(),
        forall|i: int|
            0 <= i < m ==> (#[trigger] table_of(k, caller).free[i]).0 == table_of(
                k,
                caller,
            ).free[0].0 + i,
    ensures
        ({
            let call = retype_over(k, caller, ty, grant, running);
            let free = table_of(k, caller).free;
            let full = forall|j: int|
                0 <= j < room_for(k, ty) && !(id <= j < id + m) ==> #[trigger] is_there(k, ty, j);
            let next_free = id + m < room_for(k, ty) && !is_there(k, ty, id + m);
            let in_row = m < free.len() && free[m].0 == free[0].0 + m;
            &&& full ==> ends(call, Err(SyscallError::ObjectTableFull))
            &&& !full && free.len() == m ==> ends(
                call,
                Err(SyscallError::Cap(CapTableError::Full)),
            )
            &&& !full && free.len() > m && !(next_free && in_row) ==> ends(
                call,
                Err(SyscallError::RetypeNotContiguous),
            )
        }),
{
    let b = batch_of(k, caller, ty, grant, running);
    let n = grant.count as int;
    let free = table_of(k, caller).free;
    lemma_lowest(k, ty, id);
    assert forall|i: int| 0 <= i < m implies #[trigger] in_sequence(k, b, i) by {
        assert(!is_there(k, ty, id + i));
        assert(free[i].0 == b.first_cap + i);
    }
    let full = forall|j: int|
        0 <= j < room_for(k, ty) && !(id <= j < id + m) ==> #[trigger] is_there(k, ty, j);
    let next_free = id + m < room_for(k, ty) && !is_there(k, ty, id + m);
    let in_row = m < free.len() && free[m].0 == free[0].0 + m;
    let now = crate::retype::batch_state(k, b, 0, m);
    crate::retype::lemma_next_object(k, b, m);
    lemma_full(now, ty);
    if full || free.len() == m || !(next_free && in_row) {
        if full && next_free {
            assert(is_there(k, ty, id + m));
        }
        assert(!in_sequence(k, b, m));
        assert(is_first_break(k, b, n, m));
        crate::retype::lemma_first_break(k, b, n, m);
    }
    if ty is CapabilitySpace && id <= b.cs.0 < id + m {
        assert(!is_there(k, ty, id + (b.cs.0 - id)));
    }
    if full {
        assert forall|j: int| 0 <= j < room_for(now, ty) implies #[trigger] is_there(now, ty, j) by {
            assert(id <= j < id + m || is_there(k, ty, j));
        }
    } else {
        let j = choose|j: int|
            0 <= j < room_for(k, ty) && !(id <= j < id + m) && !(#[trigger] is_there(k, ty, j));
        assert(!is_there(now, ty, j));
    }
}

/// What is made of the memory that a thread asked for is what it asked for, in its own name.
pub proof fn a_retype_makes_what_was_asked_for(
    k: KernelView,
    caller: ThreadId,
    cap: CapId,
    id: u32,
    target_type: KernelObjectType,
    count: u32,
    grant: RetypeGrant,
    running: Option<ThreadId>,
)
    requires
        empowers(k, caller, cap, KernelObjectKind::UntypedMemory, id, WRITE_BIT),
        id < k.untyped.len() && k.untyped[id as int] is Some,
    ensures
        ({
            let call = dispatched(
                k,
                caller,
                SyscallOp::Retype { untyped: cap, target_type, count },
            );
            answered(call, Reply::Reserved { grant: Ok(grant), running }) == retype_over(
                k,
                caller,
                target_type,
                grant,
                running,
            )
        }),
{
}

} // verus!
