//! What holds of the kernel as a whole, across every step of every system call.

use crate::boot::full_cap_to;
use crate::capability::KernelObjectKind;
use crate::cdt::{doomed, entry_at, CapEntry, Forest, GlobalCapId};
use crate::cdt_laws::{
    deriving_keeps_sound, forest_sound, inserting_a_root_keeps_sound, new_space_keeps_sound,
    revoking_keeps_sound, revoking_reaches_the_derived, rooted, slot_sound, with_table,
};
use crate::config::CAP_SLOTS_PER_SPACE;
use crate::dispatch::{dispatched, resumed};
use crate::grant::granted;
use crate::ids::{CapId, CapSpaceId, EndpointId, ThreadId};
use crate::ipc::{
    blocked, delivered, received, reply_begun, reply_charged, sent, with_message, with_state,
};
use crate::message::SmallMessage;
use crate::notify::{all_woken, woken_threads};
use crate::objects::KernelObjectType;
use crate::retype::{
    batch_of, batch_state, batch_taken_back, in_sequence, is_first_break, kind_of_type,
    lemma_batch_push, lemma_batch_start, lemma_caller_kept, lemma_table_bounds,
    lowest_free_object, new_object, object_free_at, object_made, retyped, Batch,
};
use crate::rights::{CapabilityRights, GRANT_BIT, READ_BIT, REVOKE_BIT, WRITE_BIT};
use crate::spawn::process_made;
use crate::state::{first_free, lemma_first_free, slot, KernelView};
use crate::syscall::{
    looked_up, resolved, Pending, RecvOutcome, Reply, Request, RetypeGrant, SendOutcome, Step,
    SyscallError, SyscallOp, SyscallReturn,
};
use crate::tcb::{Tcb, ThreadState};
use vstd::prelude::*;

verus! {

/// No thread and no capability space that `before` has is missing in `after`.
pub open spec fn nothing_lost(before: KernelView, after: KernelView) -> bool {
    &&& after.tcbs.len() == before.tcbs.len()
    &&& after.spaces.len() == before.spaces.len()
    &&& forall|i: int|
        0 <= i < before.tcbs.len() && (#[trigger] before.tcbs[i]) is Some ==> after.tcbs[i] is Some
    &&& forall|s: int|
        0 <= s < before.spaces.len() && (#[trigger] before.spaces[s]) is Some ==> after.spaces[s]
            is Some
}

/// A retype loses no thread and no capability space.
proof fn lemma_retype_loses_nothing(
    k: KernelView,
    caller: ThreadId,
    ty: KernelObjectType,
    grant: RetypeGrant,
    running: Option<ThreadId>,
)
    requires
        k.wf(),
    ensures
        nothing_lost(k, retyped(k, caller, ty, grant, running).0),
{
}

/// Whatever a thread asks for, the first step of the call loses no thread and no capability
/// space.
pub proof fn dispatch_loses_nothing(k: KernelView, caller: ThreadId, op: SyscallOp)
    requires
        k.wf(),
    ensures
        nothing_lost(k, dispatched(k, caller, op).0),
{
}

/// Whatever the layers around the kernel reply, no later step of a call loses a thread or a
/// capability space.
pub proof fn resume_loses_nothing(k: KernelView, pending: Pending, reply: Reply)
    requires
        k.wf(),
    ensures
        nothing_lost(k, resumed(k, pending, reply).0),
{
    if let Pending::Retype { caller, target_type } = pending {
        if let Reply::Reserved { grant: Ok(grant), running } = reply {
            lemma_retype_loses_nothing(k, caller, target_type, grant, running);
        }
    } else {
        lemma_resume_touches_threads_only(k, pending, reply);
        reveal(threads_kept);
    }
}

/// `after` has exactly the threads of `before`, and each still uses the same capability space
/// and the same address space and has the same creator. The same ones have exited, for the same reasons.
#[verifier::opaque]
pub open spec fn threads_kept(before: Seq<Option<Tcb>>, after: Seq<Option<Tcb>>) -> bool {
    &&& after.len() == before.len()
    &&& forall|i: int|
        0 <= i < before.len() ==> {
            &&& (#[trigger] after[i]) is Some <==> before[i] is Some
            &&& before[i] is Some ==> {
                &&& after[i]->0.cap_space == before[i]->0.cap_space
                &&& after[i]->0.addr_space == before[i]->0.addr_space
                &&& after[i]->0.spawner == before[i]->0.spawner
                &&& after[i]->0.exit == before[i]->0.exit
                &&& after[i]->0.state is Exited <==> before[i]->0.state is Exited
            }
        }
}

proof fn lemma_thread_updates(
    tcbs: Seq<Option<Tcb>>,
    thread: ThreadId,
    state: ThreadState,
    msg: SmallMessage,
    from: Option<ThreadId>,
)
    requires
        !(state is Exited),
    ensures
        threads_kept(tcbs, tcbs),
        threads_kept(tcbs, with_state(tcbs, thread, state)),
        threads_kept(tcbs, with_message(tcbs, thread, msg, from)),
{
    reveal(threads_kept);
}

proof fn lemma_waking_keeps_threads(tcbs: Seq<Option<Tcb>>, woken: Seq<ThreadId>)
    ensures
        threads_kept(tcbs, all_woken(tcbs, woken)),
{
    reveal(threads_kept);
}

/// A step that creates nothing changes nothing but the threads and the scratch frames, and has
/// the same threads afterwards.
pub proof fn lemma_resume_touches_threads_only(k: KernelView, pending: Pending, reply: Reply)
    requires
        !(pending is Retype),
    ensures
        ({
            let after = resumed(k, pending, reply).0;
            &&& after == (KernelView { tcbs: after.tcbs, map_pool: after.map_pool, ..k })
            &&& threads_kept(k.tcbs, after.tcbs)
        }),
{
    let none = SmallMessage { label: 0, data: arbitrary(), len: 0 };
    lemma_thread_updates(k.tcbs, ThreadId(0), ThreadState::Runnable, none, None);
    match (pending, reply) {
        (Pending::SendTry { caller, is_call, .. }, _) => {
            lemma_thread_updates(k.tcbs, caller, ThreadState::BlockedOnReply, none, None);
            lemma_thread_updates(k.tcbs, caller, ThreadState::BlockedOnSend, none, None);
        },
        (Pending::SendTake { caller, is_call, fast, receiver }, Reply::Taken(message)) => {
            lemma_thread_updates(k.tcbs, caller, ThreadState::BlockedOnReply, none, None);
            if let Some((thread, msg)) = message {
                lemma_thread_updates(k.tcbs, thread, ThreadState::Runnable, msg, Some(caller));
            }
        },
        (Pending::SendWake { caller, .. }, _) => {
            lemma_thread_updates(k.tcbs, caller, ThreadState::BlockedOnReply, none, None);
        },
        (Pending::RecvTry { caller }, Reply::Received(outcome)) => {
            lemma_thread_updates(k.tcbs, caller, ThreadState::BlockedOnRecv, none, None);
            if let Ok(RecvOutcome::Received { from, msg }) = outcome {
                lemma_thread_updates(k.tcbs, from, ThreadState::Runnable, none, None);
            }
        },
        (Pending::ReplyCharge { to, msg, .. }, _) => {
            lemma_thread_updates(k.tcbs, to, ThreadState::Runnable, msg, None);
        },
        (Pending::SignalTake { woken }, _) => {
            lemma_waking_keeps_threads(k.tcbs, woken_threads(woken));
        },
        (Pending::WaitAdd { caller }, _) => {
            lemma_thread_updates(k.tcbs, caller, ThreadState::BlockedOnNotification, none, None);
        },
        _ => {},
    }
}

/// Changing the order of the free slots keeps the forest sound.
proof fn lemma_reordered_keeps_sound(k: KernelView, b: Batch, m: int)
    requires
        k.wf(),
        forest_sound(k.spaces),
        slot(k.spaces, b.cs.0) is Some,
        0 <= m <= k.spaces[b.cs.0 as int]->0.free.len(),
    ensures
        forest_sound(batch_taken_back(k, b, m).spaces),
{
    let table = k.spaces[b.cs.0 as int]->0;
    let after = batch_taken_back(k, b, m).spaces;
    let next = after[b.cs.0 as int]->0;
    let front = table.free.take(m).reverse();
    assert forall|i: int| 0 <= i < next.free.len() implies #[trigger] next.free[i] == if i < m {
        table.free[m - 1 - i]
    } else {
        table.free[i]
    } by {}
    assert(next.wf()) by {
        assert forall|i: int| 0 <= i < next.entries.len() && (
        #[trigger] next.entries[i]) is None implies next.free.contains(CapId(i as u32)) by {
            assert(table.entries[i] is None);
            let j = choose|j: int| 0 <= j < table.free.len() && table.free[j] == CapId(i as u32);
            if j < m {
                assert(next.free[m - 1 - j] == table.free[j]);
            } else {
                assert(next.free[j] == table.free[j]);
            }
        }
        assert(next.free.no_duplicates());
    }
    assert forall|id: GlobalCapId| #[trigger] entry_at(after, id) == entry_at(k.spaces, id) by {}
    lemma_same_entries_sound(k.spaces, after);
}

/// A forest with the same entries is as sound, given that its free lists are right.
proof fn lemma_same_entries_sound(before: Forest, after: Forest)
    requires
        forest_sound(before),
        after.len() == before.len(),
        forall|s: int| 0 <= s < after.len() && (#[trigger] after[s]) is Some ==> after[s]->0.wf(),
        forall|id: GlobalCapId| #[trigger] entry_at(after, id) == entry_at(before, id),
    ensures
        forest_sound(after),
{
    assert forall|id: GlobalCapId| #[trigger] slot_sound(after, id) by {
        assert(slot_sound(before, id));
        if entry_at(before, id) is Some {
            let k = choose|k: nat|
                (#[trigger] crate::cdt::ancestor(before, id, k)) is Some && crate::cdt::parent_at(
                    before,
                    crate::cdt::ancestor(before, id, k)->0,
                ) is None;
            lemma_same_ancestors(before, after, id, k);
            assert(crate::cdt::ancestor(after, id, k) is Some);
            assert(rooted(after, id));
        }
    }
}

proof fn lemma_same_ancestors(before: Forest, after: Forest, id: GlobalCapId, k: nat)
    requires
        forall|g: GlobalCapId| #[trigger] entry_at(after, g) == entry_at(before, g),
    ensures
        crate::cdt::ancestor(after, id, k) == crate::cdt::ancestor(before, id, k),
    decreases k,
{
    if k > 0 {
        lemma_same_ancestors(before, after, id, (k - 1) as nat);
    }
}

/// The capability spaces in the middle of a batch are sound.
proof fn lemma_batch_keeps_sound(k: KernelView, b: Batch, m: int)
    requires
        k.wf(),
        forest_sound(k.spaces),
        !(b.ty is SharedRegion),
        slot(k.spaces, b.cs.0) is Some,
        0 <= m,
        b.first_obj >= 0,
        forall|i: int| 0 <= i < m ==> #[trigger] in_sequence(k, b, i),
    ensures
        forest_sound(batch_state(k, b, 0, m).spaces),
    decreases m,
{
    if m == 0 {
        lemma_batch_start(k, b);
    } else {
        lemma_batch_keeps_sound(k, b, m - 1);
        lemma_batch_push(k, b, m - 1);
        let now = batch_state(k, b, 0, m - 1);
        let j = b.first_obj + (m - 1);
        let made = object_made(now, b.ty, j, new_object(k, b.caller, b.grant, b.running, m - 1));
        assert(in_sequence(k, b, m - 1));
        lemma_table_bounds(k, b.ty);
        let table = k.spaces[b.cs.0 as int]->0;
        if b.ty is CapabilitySpace {
            assert(j != b.cs.0);
            assert(now.spaces[j] is None);
            new_space_keeps_sound(now.spaces, CapSpaceId(j as u32), CAP_SLOTS_PER_SPACE as nat);
            assert(made.spaces == with_table(
                now.spaces,
                CapSpaceId(j as u32),
                crate::cdt::empty_table(CAP_SLOTS_PER_SPACE as nat, CapSpaceId(j as u32)),
            ));
        }
        assert(made.spaces[b.cs.0 as int] == now.spaces[b.cs.0 as int]);
        let t = now.spaces[b.cs.0 as int]->0;
        assert(t.free =~= table.free.skip(m - 1));
        let cap = full_cap_to(kind_of_type(b.ty), j);
        inserting_a_root_keeps_sound(made.spaces, b.cs, cap);
        assert(batch_state(k, b, 0, m).spaces == with_table(
            made.spaces,
            b.cs,
            t.with_entry(CapEntry { cap, parent: None }),
        ));
    }
}

/// A retype keeps the capability spaces sound.
pub proof fn retype_keeps_sound(
    k: KernelView,
    caller: ThreadId,
    ty: KernelObjectType,
    grant: RetypeGrant,
    running: Option<ThreadId>,
)
    requires
        k.wf(),
        forest_sound(k.spaces),
    ensures
        forest_sound(retyped(k, caller, ty, grant, running).0.spaces),
{
    if slot(k.tcbs, caller.0) is Some && slot(k.spaces, k.tcbs[caller.0 as int]->0.cap_space.0) is Some {
        let t = k.tcbs[caller.0 as int]->0;
        let cs = t.cap_space;
        let table = k.spaces[cs.0 as int]->0;
        if ty is SharedRegion {
            if first_free(k.shared_regions) is Some && table.free.len() > 0 {
                let j = first_free(k.shared_regions)->0;
                inserting_a_root_keeps_sound(
                    k.spaces,
                    cs,
                    full_cap_to(KernelObjectKind::SharedRegion, j),
                );
            }
        } else {
            let b = batch_of(k, caller, ty, grant, running);
            let n = grant.count as int;
            lemma_table_bounds(k, ty);
            if n > 0 {
                if exists|m: int| is_first_break(k, b, n, m) {
                    let m = choose|m: int| is_first_break(k, b, n, m);
                    if m > 0 {
                        assert(in_sequence(k, b, m - 1));
                    }
                    lemma_reordered_keeps_sound(k, b, m);
                } else {
                    lemma_no_break(k, b, n, n);
                    assert(in_sequence(k, b, 0));
                    lemma_batch_keeps_sound(k, b, n);
                }
            }
        }
    }
}

/// Without a first number out of sequence, all are in sequence.
pub proof fn lemma_no_break(k: KernelView, b: Batch, n: int, m: int)
    requires
        0 <= m <= n,
        forall|i: int| !is_first_break(k, b, n, i),
    ensures
        forall|i: int| 0 <= i < m ==> #[trigger] in_sequence(k, b, i),
    decreases m,
{
    if m > 0 {
        lemma_no_break(k, b, n, m - 1);
        assert(!is_first_break(k, b, n, m - 1));
    }
}

/// The first step of a system call keeps the capability spaces sound: rights never escalate,
/// no capability outlives the one it was derived from, and derivations never run in a circle.
pub proof fn dispatch_keeps_sound(k: KernelView, caller: ThreadId, op: SyscallOp)
    requires
        k.wf(),
        forest_sound(k.spaces),
    ensures
        forest_sound(dispatched(k, caller, op).0.spaces),
{
    match op {
        SyscallOp::CapRevoke { cap } => {
            if looked_up(k, caller, cap) is Ok {
                let target = GlobalCapId { space: k.tcbs[caller.0 as int]->0.cap_space, cap };
                revoking_keeps_sound(k.spaces, target, CAP_SLOTS_PER_SPACE as nat);
            }
        },
        SyscallOp::CapGrant { target_thread, cap, rights } => {
            let (after, result) = granted(k, caller, target_thread, cap, rights);
            if result is Ok {
                lemma_grant(k, caller, target_thread, cap, rights);
                let (parent, space) = grant_edge(k, caller, target_thread, cap);
                deriving_keeps_sound(k.spaces, parent, space, rights, 0);
            }
        },
        _ => {},
    }
}

/// A later step of a system call keeps the capability spaces sound.
pub proof fn resume_keeps_sound(k: KernelView, pending: Pending, reply: Reply)
    requires
        k.wf(),
        forest_sound(k.spaces),
    ensures
        forest_sound(resumed(k, pending, reply).0.spaces),
{
    match (pending, reply) {
        (Pending::Retype { caller, target_type }, Reply::Reserved { grant: Ok(grant), running }) => {
            retype_keeps_sound(k, caller, target_type, grant, running);
        },
        _ => {},
    }
}

/// Making a process, whether it succeeds or not, keeps the capability spaces sound.
pub proof fn making_a_process_keeps_sound(
    k: KernelView,
    root_pt: usize,
    entry: usize,
    spawner: Option<ThreadId>,
)
    requires
        k.wf(),
        forest_sound(k.spaces),
    ensures
        forest_sound(process_made(k, root_pt, entry, spawner).0.spaces),
{
    if first_free(k.addr_spaces) is Some && first_free(k.spaces) is Some {
        let c = first_free(k.spaces)->0;
        lemma_first_free(k.spaces, c);
        new_space_keeps_sound(k.spaces, CapSpaceId(c as u32), CAP_SLOTS_PER_SPACE as nat);
    }
}

/// Which capability a grant derives from, and the space it derives into.
pub open spec fn grant_edge(k: KernelView, caller: ThreadId, target_thread: CapId, cap: CapId) -> (
    GlobalCapId,
    CapSpaceId,
) {
    let thread = looked_up(k, caller, target_thread)->Ok_0.cap.object.id.0;
    (
        GlobalCapId { space: k.tcbs[caller.0 as int]->0.cap_space, cap },
        k.tcbs[thread as int]->0.cap_space,
    )
}

/// A grant that succeeds is one derivation in the forest.
proof fn lemma_grant(
    k: KernelView,
    caller: ThreadId,
    target_thread: CapId,
    cap: CapId,
    rights: CapabilityRights,
)
    requires
        k.wf(),
        granted(k, caller, target_thread, cap, rights).1 is Ok,
    ensures
        ({
            let (parent, space) = grant_edge(k, caller, target_thread, cap);
            let table = slot(k.spaces, space.0)->0;
            let copy = crate::cdt::derived_capability(entry_at(k.spaces, parent), rights, 0);
            &&& slot(k.spaces, space.0) is Some
            &&& table.free.len() > 0
            &&& copy is Ok
            &&& granted(k, caller, target_thread, cap, rights).0.spaces == with_table(
                k.spaces,
                space,
                table.with_entry(CapEntry { cap: copy->Ok_0, parent: Some(parent) }),
            )
            &&& granted(k, caller, target_thread, cap, rights).1 == Ok::<
                SyscallReturn,
                SyscallError,
            >(SyscallReturn::Granted { dst: table.free[0] })
        }),
{
}

/// A granted copy has exactly the rights asked for, names the same object, and leaves the
/// capability it was copied from untouched; revoking that capability frees the copy too, in
/// whichever space it is.
pub proof fn grant_then_revoke_reaches_the_copy(
    k: KernelView,
    caller: ThreadId,
    target_thread: CapId,
    cap: CapId,
    rights: CapabilityRights,
)
    requires
        k.wf(),
        forest_sound(k.spaces),
        granted(k, caller, target_thread, cap, rights).1 is Ok,
    ensures
        ({
            let (parent, space) = grant_edge(k, caller, target_thread, cap);
            let after = granted(k, caller, target_thread, cap, rights).0;
            let copy = GlobalCapId { space, cap: slot(k.spaces, space.0)->0.free[0] };
            &&& entry_at(after.spaces, copy) is Some
            &&& entry_at(after.spaces, copy)->0.cap.rights == rights
            &&& entry_at(after.spaces, copy)->0.cap.object == entry_at(
                k.spaces,
                parent,
            )->0.cap.object
            &&& entry_at(after.spaces, parent) == entry_at(k.spaces, parent)
            &&& doomed(after.spaces, copy, parent)
            &&& entry_at(
                crate::cdt::revoked_forest(after.spaces, parent, CAP_SLOTS_PER_SPACE as nat),
                copy,
            ) is None
        }),
{
    lemma_grant(k, caller, target_thread, cap, rights);
    let (parent, space) = grant_edge(k, caller, target_thread, cap);
    let table = slot(k.spaces, space.0)->0;
    let derived = crate::cdt::derived_capability(entry_at(k.spaces, parent), rights, 0)->Ok_0;
    assert(table.entries[table.free[0].0 as int] is None);
    revoking_reaches_the_derived(k.spaces, parent, space, derived, parent);
    deriving_keeps_sound(k.spaces, parent, space, rights, 0);
    let after = granted(k, caller, target_thread, cap, rights).0;
    let copy = GlobalCapId { space, cap: table.free[0] };
    assert forall|s: int| 0 <= s < after.spaces.len() && (
    #[trigger] after.spaces[s]) is Some implies after.spaces[s]->0.entries.len()
        == CAP_SLOTS_PER_SPACE by {
        assert(k.spaces[s] is Some);
    }
    crate::cdt_laws::revoking_frees_exactly_the_subtree(
        after.spaces,
        parent,
        CAP_SLOTS_PER_SPACE as nat,
        copy,
    );
}

/// The same objects and capabilities; only the order in which free capability slots will be
/// handed out may differ.
pub open spec fn same_contents(before: KernelView, after: KernelView) -> bool {
    &&& after == (KernelView { spaces: after.spaces, ..before })
    &&& after.spaces.len() == before.spaces.len()
    &&& forall|s: int|
        0 <= s < before.spaces.len() ==> {
            ||| (#[trigger] after.spaces[s]) == before.spaces[s]
            ||| after.spaces[s] is Some && before.spaces[s] is Some && after.spaces[s]->0.entries
                == before.spaces[s]->0.entries && after.spaces[s]->0.space
                == before.spaces[s]->0.space
        }
}

/// The capability that a system call acts through, the kind of object that it has to name, and
/// the rights that it has to carry.
pub open spec fn authority_for(op: SyscallOp) -> Option<
    (CapId, KernelObjectKind, CapabilityRights),
> {
    let read = CapabilityRights { bits: READ_BIT };
    let write = CapabilityRights { bits: WRITE_BIT };
    let both = CapabilityRights { bits: READ_BIT | WRITE_BIT };
    match op {
        SyscallOp::Send { endpoint, .. } => Some((endpoint, KernelObjectKind::Endpoint, write)),
        SyscallOp::Recv { endpoint } => Some((endpoint, KernelObjectKind::Endpoint, read)),
        SyscallOp::Call { endpoint, .. } => Some((endpoint, KernelObjectKind::Endpoint, both)),
        SyscallOp::CapGrant { target_thread, .. } => Some(
            (target_thread, KernelObjectKind::ThreadControlBlock, write),
        ),
        SyscallOp::Retype { untyped, .. } => Some(
            (untyped, KernelObjectKind::UntypedMemory, write),
        ),
        SyscallOp::MapPage { page_table, .. } => Some(
            (page_table, KernelObjectKind::PageTable, write),
        ),
        SyscallOp::Signal { notification, .. } => Some(
            (notification, KernelObjectKind::Notification, write),
        ),
        SyscallOp::Wait { notification } => Some(
            (notification, KernelObjectKind::Notification, read),
        ),
        SyscallOp::Poll { notification } => Some(
            (notification, KernelObjectKind::Notification, read),
        ),
        SyscallOp::IrqBind { mmio, .. } => Some((mmio, KernelObjectKind::MmioRegion, write)),
        SyscallOp::CapRevoke { .. } | SyscallOp::Reply { .. } | SyscallOp::Yield => None,
    }
}

/// The capability `cap` of `caller` is there and carries the rights `needed`.
pub open spec fn carries(k: KernelView, caller: ThreadId, cap: CapId, needed: u32) -> bool {
    &&& looked_up(k, caller, cap) is Ok
    &&& looked_up(k, caller, cap)->Ok_0.cap.rights.has_all(CapabilityRights { bits: needed })
}

/// Nothing happens without the right capability: a system call that is not turned away acts
/// through a capability of the caller to an object of the right kind, with the rights that the
/// call needs. A grant also needs `GRANT` on what it copies, a revocation `REVOKE` on what it
/// revokes, and the binding of an interrupt line `WRITE` on the notification.
pub proof fn nothing_happens_without_a_capability(k: KernelView, caller: ThreadId, op: SyscallOp)
    requires
        !(dispatched(k, caller, op).1 matches Step::Finished(Err(_))),
    ensures
        authority_for(op) matches Some((cap, kind, needed)) ==> resolved(
            k,
            caller,
            cap,
            kind,
            needed,
        ) is Ok,
        op matches SyscallOp::CapGrant { cap, .. } ==> carries(k, caller, cap, GRANT_BIT),
        op matches SyscallOp::CapRevoke { cap } ==> carries(k, caller, cap, REVOKE_BIT),
        op matches SyscallOp::IrqBind { notification, .. } ==> carries(
            k,
            caller,
            notification,
            WRITE_BIT,
        ),
{
}

/// A system call that fails at its first step has changed nothing.
pub proof fn failed_dispatch_changes_nothing(k: KernelView, caller: ThreadId, op: SyscallOp)
    requires
        dispatched(k, caller, op).1 matches Step::Finished(Err(_)),
    ensures
        dispatched(k, caller, op).0 == k,
{
}

/// A later step that ends a system call with an error leaves no object and no capability
/// behind. In particular a retype that fails half-way is taken back whole.
pub proof fn failed_resume_leaves_nothing_behind(k: KernelView, pending: Pending, reply: Reply)
    requires
        k.wf(),
        resumed(k, pending, reply).1 matches Step::Finished(Err(_)),
    ensures
        same_contents(k, resumed(k, pending, reply).0),
{
    let after = resumed(k, pending, reply).0;
    match (pending, reply) {
        (Pending::Retype { caller, target_type }, Reply::Reserved { grant: Ok(grant), running }) => {
            assert(after == retyped(k, caller, target_type, grant, running).0);
        },
        _ => {},
    }
}

/// What a retype yields can be used: the capabilities at `cap` and after it are full ones to
/// the new objects, and every capability that was there before is still there unchanged.
pub proof fn retyped_capabilities_resolve(
    k: KernelView,
    caller: ThreadId,
    ty: KernelObjectType,
    grant: RetypeGrant,
    running: Option<ThreadId>,
    i: int,
)
    requires
        k.wf(),
        !(ty is SharedRegion),
        retyped(k, caller, ty, grant, running).1 is Ok,
        0 <= i < grant.count,
    ensures
        ({
            let (after, result) = retyped(k, caller, ty, grant, running);
            let first = result->Ok_0->NewCaps_cap;
            let obj = lowest_free_object(k, ty)->0 + i;
            &&& result == Ok::<SyscallReturn, SyscallError>(
                SyscallReturn::NewCaps { cap: first, count: grant.count },
            )
            &&& looked_up(after, caller, CapId((first.0 + i) as u32)) == Ok::<
                CapEntry,
                SyscallError,
            >(CapEntry { cap: full_cap_to(kind_of_type(ty), obj), parent: None })
            &&& object_free_at(k, ty, obj)
            &&& !object_free_at(after, ty, obj)
        }),
{
    let b = batch_of(k, caller, ty, grant, running);
    let n = grant.count as int;
    let table = k.spaces[b.cs.0 as int]->0;
    lemma_no_break(k, b, n, n);
    assert(in_sequence(k, b, i));
    assert(in_sequence(k, b, 0));
    assert(table.free[i].0 < table.entries.len());
    lemma_caller_kept(k, b, n);
    lemma_table_bounds(k, ty);
    if ty is CapabilitySpace && b.first_obj <= b.cs.0 < b.first_obj + n {
        assert(in_sequence(k, b, b.cs.0 - b.first_obj));
    }
}

/// A retype, whether it succeeds or not, leaves every capability that was there as it was.
pub proof fn retype_keeps_other_capabilities(
    k: KernelView,
    caller: ThreadId,
    ty: KernelObjectType,
    grant: RetypeGrant,
    running: Option<ThreadId>,
    id: GlobalCapId,
)
    requires
        k.wf(),
        entry_at(k.spaces, id) is Some,
    ensures
        entry_at(retyped(k, caller, ty, grant, running).0.spaces, id) == entry_at(k.spaces, id),
{
    if slot(k.tcbs, caller.0) is Some && slot(k.spaces, k.tcbs[caller.0 as int]->0.cap_space.0) is Some {
        let cs = k.tcbs[caller.0 as int]->0.cap_space;
        let table = k.spaces[cs.0 as int]->0;
        if table.free.len() > 0 {
            assert(table.entries[table.free[0].0 as int] is None);
        }
        if !(ty is SharedRegion) {
            let b = batch_of(k, caller, ty, grant, running);
            let n = grant.count as int;
            if n > 0 && !(exists|m: int| is_first_break(k, b, n, m)) {
                lemma_no_break(k, b, n, n);
                if ty is CapabilitySpace && b.first_obj <= id.space.0 < b.first_obj + n {
                    assert(in_sequence(k, b, id.space.0 - b.first_obj));
                }
                if id.space == cs && b.first_cap <= id.cap.0 < b.first_cap + n {
                    let i = id.cap.0 - b.first_cap;
                    assert(in_sequence(k, b, i));
                    assert(table.free[i].0 == id.cap.0);
                    assert(table.entries[table.free[i].0 as int] is None);
                }
            }
        }
    }
}

/// A living thread's call that is queued before its receiver is ready can still be answered:
/// receiving it leaves the caller waiting for its reply, and the reply reaches it.
pub proof fn queued_call_is_answered(
    k: KernelView,
    caller: ThreadId,
    server: ThreadId,
    endpoint: EndpointId,
    fast: bool,
    request: SmallMessage,
    answer: SmallMessage,
)
    requires
        slot(k.tcbs, caller.0) is Some,
        !(slot(k.tcbs, caller.0)->0.state is Exited),
        caller != server,
    ensures
        ({
            let queued = sent(k, caller, endpoint, true, fast, Ok(SendOutcome::SenderQueued)).0;
            let outcome = Ok(RecvOutcome::Received { from: caller, msg: request });
            let picked_up = received(queued, server, outcome).0;
            let woken = reply_charged(picked_up, server, caller, answer).0;
            &&& picked_up.tcbs[caller.0 as int]->0.state is BlockedOnReply
            &&& reply_begun(picked_up, server, caller, answer) == Step::Ask(
                Request::Account,
                Pending::ReplyCharge { caller: server, to: caller, msg: answer },
            )
            &&& woken.tcbs[caller.0 as int]->0.state is Runnable
            &&& woken.tcbs[caller.0 as int]->0.pending_msg == Some(answer)
        }),
{
}

/// A living thread's call that is delivered at once can be answered, and the receiver that was
/// found waiting runs next, whoever the scheduler would have picked.
pub proof fn delivered_call_is_answered(
    k: KernelView,
    caller: ThreadId,
    server: ThreadId,
    answer: SmallMessage,
)
    requires
        slot(k.tcbs, caller.0) is Some,
        !(slot(k.tcbs, caller.0)->0.state is Exited),
        caller != server,
    ensures
        ({
            let (waiting, step) = delivered(k, caller, true, true, server);
            let woken = reply_charged(waiting, server, caller, answer).0;
            &&& step == Step::Ask(
                Request::Block { thread: caller },
                Pending::Block { next: Some(server) },
            )
            &&& blocked(Some(server), Ok(())) == Step::Finished(
                Ok(SyscallReturn::Reschedule { next: Some(server) }),
            )
            &&& reply_begun(waiting, server, caller, answer) == Step::Ask(
                Request::Account,
                Pending::ReplyCharge { caller: server, to: caller, msg: answer },
            )
            &&& woken.tcbs[caller.0 as int]->0.state is Runnable
            &&& woken.tcbs[caller.0 as int]->0.pending_msg == Some(answer)
        }),
{
}

/// A plain send that finds its receiver lets the sender run on, and changes no thread but the
/// receiver.
pub proof fn plain_send_goes_on(k: KernelView, caller: ThreadId, fast: bool, receiver: ThreadId)
    ensures
        delivered(k, caller, false, fast, receiver) == (
            k,
            Step::Finished(Ok(SyscallReturn::Delivered { woke: receiver })),
        ),
{
}

/// Nobody can be replied to twice: once its reply is there, a caller awaits none.
pub proof fn reply_is_given_once(
    k: KernelView,
    server: ThreadId,
    caller: ThreadId,
    answer: SmallMessage,
    other: ThreadId,
    second: SmallMessage,
)
    requires
        slot(k.tcbs, caller.0) is Some,
    ensures
        reply_begun(reply_charged(k, server, caller, answer).0, other, caller, second)
            == Step::Finished(Err(SyscallError::NotBlockedOnReply)),
{
}

} // verus!
