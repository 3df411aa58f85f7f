//! What granting and revoking are for: a grant gives a thread a copy that is no wider than its
//! original and hangs from it, and a revocation takes back a capability with all its copies and
//! nothing else.

use crate::call_laws::{empowers, ends, has_space, held, thread_at};
use crate::capability::{Capability, KernelObjectKind};
use crate::cdt::{
    ancestor, descends_from, doomed, entry_at, parent_at, revoked_forest, CapEntry, CapTableError,
    Forest, GlobalCapId,
};
use crate::cdt_laws::{
    forest_sound, lemma_ancestor_adds, occupied_count, revoking_frees_as_many_as_reported,
    revoking_frees_exactly_the_subtree, slot_sound,
};
use crate::config::{CAP_SLOTS_PER_SPACE, MAX_CAP_SPACES};
use crate::dispatch::dispatched;
use crate::ids::{CapId, ThreadId};
use crate::rights::{CapabilityRights, GRANT_BIT, REVOKE_BIT, WRITE_BIT};
use crate::state::KernelView;
use crate::syscall::{SyscallError, SyscallOp, SyscallReturn};
use vstd::prelude::*;

verus! {

/// What stands in slot `id.cap` of the capability space `id.space`.
pub open spec fn stands_at(forest: Forest, id: GlobalCapId) -> Option<CapEntry> {
    if id.space.0 < forest.len() && forest[id.space.0 as int] is Some && id.cap.0
        < forest[id.space.0 as int]->0.entries.len() {
        forest[id.space.0 as int]->0.entries[id.cap.0 as int]
    } else {
        None
    }
}

/// Where slot `cap` of `thread` is among the slots of all spaces.
pub open spec fn place_of(k: KernelView, thread: ThreadId, cap: CapId) -> GlobalCapId {
    GlobalCapId { space: thread_at(k, thread)->0.cap_space, cap }
}

/// The capability space of `thread` has a free slot.
pub open spec fn has_room(k: KernelView, thread: ThreadId) -> bool {
    has_space(k, thread) && k.spaces[thread_at(k, thread)->0.cap_space.0 as int]->0.free.len() > 0
}

/// A grant of rights that the original carries gives the thread named a copy in a slot that was
/// empty: a capability to the same object with just the rights asked for and the badge of the
/// original, recorded as derived from it. No other slot changes, and nothing else does.
pub proof fn a_grant_stores_a_copy(
    k: KernelView,
    caller: ThreadId,
    target_thread: CapId,
    thread: ThreadId,
    cap: CapId,
    rights: CapabilityRights,
    other: GlobalCapId,
)
    requires
        k.wf(),
        empowers(
            k,
            caller,
            target_thread,
            KernelObjectKind::ThreadControlBlock,
            thread.0,
            WRITE_BIT,
        ),
        held(k, caller, cap) is Some,
        held(k, caller, cap)->0.rights.bits & GRANT_BIT != 0,
        held(k, caller, cap)->0.rights.bits & rights.bits == rights.bits,
        has_room(k, thread),
    ensures
        ({
            let call = dispatched(k, caller, SyscallOp::CapGrant { target_thread, cap, rights });
            let dst = call.1->Finished_0->Ok_0->Granted_dst;
            let original = held(k, caller, cap)->0;
            &&& ends(call, Ok(SyscallReturn::Granted { dst }))
            &&& held(k, thread, dst) is None
            &&& held(call.0, thread, dst) == Some(
                Capability { object: original.object, rights, badge: original.badge },
            )
            &&& stands_at(call.0.spaces, place_of(k, thread, dst))->0.parent == Some(
                place_of(k, caller, cap),
            )
            &&& other != place_of(k, thread, dst) ==> stands_at(call.0.spaces, other) == stands_at(
                k.spaces,
                other,
            )
            &&& call.0 == (KernelView { spaces: call.0.spaces, ..k })
        }),
{
    let a = held(k, caller, cap)->0.rights.bits;
    assert(a & 8 == 8) by (bit_vector)
        requires
            a & 8 != 0,
    ;
    let table = k.spaces[thread_at(k, thread)->0.cap_space.0 as int]->0;
    assert(table.entries[table.free[0].0 as int] is None);
}

/// A grant is refused, with nothing changed, for the first of these that holds: the thread named
/// is gone, the slot to copy is empty, the original may not be granted, the rights asked for are
/// more than it carries, there is no room for the copy.
pub proof fn a_grant_is_refused_without_cause_to_copy(
    k: KernelView,
    caller: ThreadId,
    target_thread: CapId,
    thread: ThreadId,
    cap: CapId,
    rights: CapabilityRights,
)
    requires
        k.wf(),
        empowers(
            k,
            caller,
            target_thread,
            KernelObjectKind::ThreadControlBlock,
            thread.0,
            WRITE_BIT,
        ),
    ensures
        ({
            let call = dispatched(k, caller, SyscallOp::CapGrant { target_thread, cap, rights });
            let original = held(k, caller, cap);
            let may_grant = original->0.rights.bits & GRANT_BIT != 0;
            let covered = original->0.rights.bits & rights.bits == rights.bits;
            let there = thread_at(k, thread) is Some;
            &&& !there ==> call.0 == k && ends(call, Err(SyscallError::BadCap))
            &&& there && original is None ==> call.0 == k && ends(call, Err(SyscallError::BadCap))
            &&& there && original is Some && !may_grant ==> call.0 == k && ends(
                call,
                Err(SyscallError::InsufficientRights),
            )
            &&& original is Some && may_grant && there && !has_space(k, thread) ==> call.0 == k
                && ends(call, Err(SyscallError::BadCap))
            &&& original is Some && may_grant && has_space(k, thread) && !covered ==> call.0 == k
                && ends(call, Err(SyscallError::Cap(CapTableError::RightsEscalation)))
            &&& original is Some && may_grant && has_space(k, thread) && covered && !has_room(
                k,
                thread,
            ) ==> call.0 == k && ends(call, Err(SyscallError::Cap(CapTableError::Full)))
        }),
{
    let a = held(k, caller, cap)->0.rights.bits;
    assert(a & 8 == 8 <==> a & 8 != 0) by (bit_vector);
}

/// A capability is doomed just if it is the target or its parent is doomed.
proof fn lemma_doomed_with_its_parent(forest: Forest, id: GlobalCapId, target: GlobalCapId)
    requires
        forest_sound(forest),
        entry_at(forest, id) is Some,
    ensures
        doomed(forest, id, target) <==> id == target || (parent_at(forest, id) is Some && doomed(
            forest,
            parent_at(forest, id)->0,
            target,
        )),
{
    reveal_with_fuel(ancestor, 2);
    assert(slot_sound(forest, id));
    let up = ancestor(forest, id, 1);
    assert(up == parent_at(forest, id));
    if descends_from(forest, id, target) && id != target {
        let j = choose|j: nat| j >= 1 && #[trigger] ancestor(forest, id, j) == Some(target);
        lemma_ancestor_there(forest, id, j);
        let p = parent_at(forest, id)->0;
        lemma_ancestor_adds(forest, id, p, 1, (j - 1) as nat);
        if j > 1 {
            assert(ancestor(forest, p, (j - 1) as nat) == Some(target));
        }
    }
    if parent_at(forest, id) is Some && doomed(forest, parent_at(forest, id)->0, target) {
        let p = parent_at(forest, id)->0;
        if p == target {
            assert(ancestor(forest, id, 1) == Some(target));
        } else {
            let j = choose|j: nat| j >= 1 && #[trigger] ancestor(forest, p, j) == Some(target);
            lemma_ancestor_adds(forest, id, p, 1, j);
            assert(ancestor(forest, id, 1 + j) == Some(target));
        }
    }
}

/// Whoever has an ancestor has a parent.
proof fn lemma_ancestor_there(forest: Forest, id: GlobalCapId, j: nat)
    requires
        j >= 1,
        ancestor(forest, id, j) is Some,
    ensures
        parent_at(forest, id) is Some,
    decreases j,
{
    reveal_with_fuel(ancestor, 2);
    if j > 1 {
        lemma_ancestor_there(forest, id, (j - 1) as nat);
    }
}

/// A revocation takes back the capability named, and every capability whose parent it takes back;
/// every other one, in whichever space, stays as it is. What it reports is how many it took back,
/// and nothing but the capability spaces changes.
pub proof fn a_revocation_takes_back_the_copies(
    k: KernelView,
    caller: ThreadId,
    cap: CapId,
    id: GlobalCapId,
)
    requires
        k.wf(),
        forest_sound(k.spaces),
        held(k, caller, cap) is Some,
        held(k, caller, cap)->0.rights.bits & REVOKE_BIT != 0,
    ensures
        ({
            let call = dispatched(k, caller, SyscallOp::CapRevoke { cap });
            let before = stands_at(k.spaces, id);
            let after = stands_at(call.0.spaces, id);
            let parent = before->0.parent;
            let freed = call.1->Finished_0->Ok_0->Revoked_freed;
            &&& ends(call, Ok(SyscallReturn::Revoked { freed }))
            &&& call.0 == (KernelView { spaces: call.0.spaces, ..k })
            &&& held(call.0, caller, cap) is None
            &&& before is None ==> after is None
            &&& before is Some && id != place_of(k, caller, cap) ==> after == if parent is Some
                && stands_at(call.0.spaces, parent->0) is None {
                None
            } else {
                before
            }
            &&& freed + occupied_count(call.0.spaces, k.spaces.len()) == occupied_count(
                k.spaces,
                k.spaces.len(),
            )
        }),
{
    let target = place_of(k, caller, cap);
    let n = CAP_SLOTS_PER_SPACE as nat;
    let a = held(k, caller, cap)->0.rights.bits;
    assert(a & 32 == 32) by (bit_vector)
        requires
            a & 32 != 0,
    ;
    crate::cdt::lemma_doomed_count_bound(k.spaces, target, n, MAX_CAP_SPACES as nat);
    revoking_frees_as_many_as_reported(k.spaces, target, n);
    revoking_frees_exactly_the_subtree(k.spaces, target, n, id);
    revoking_frees_exactly_the_subtree(k.spaces, target, n, target);
    let after = revoked_forest(k.spaces, target, n);
    assert forall|g: GlobalCapId| #[trigger] stands_at(after, g) == entry_at(after, g) by {}
    assert forall|g: GlobalCapId| #[trigger] stands_at(k.spaces, g) == entry_at(k.spaces, g) by {}
    assert(entry_at(k.spaces, target) is Some);
    if entry_at(k.spaces, id) is Some {
        lemma_doomed_with_its_parent(k.spaces, id, target);
        assert(slot_sound(k.spaces, id));
        if let Some(p) = parent_at(k.spaces, id) {
            revoking_frees_exactly_the_subtree(k.spaces, target, n, p);
        }
    }
}

/// A revocation is refused, with nothing changed, if its caller has no capability space, if the
/// slot is empty, or if the capability may not be revoked.
pub proof fn a_revocation_needs_its_right(k: KernelView, caller: ThreadId, cap: CapId)
    ensures
        ({
            let call = dispatched(k, caller, SyscallOp::CapRevoke { cap });
            let found = held(k, caller, cap);
            &&& !has_space(k, caller) ==> call.0 == k && ends(call, Err(SyscallError::NoCaller))
            &&& has_space(k, caller) && found is None ==> call.0 == k && ends(
                call,
                Err(SyscallError::BadCap),
            )
            &&& found is Some && found->0.rights.bits & REVOKE_BIT == 0 ==> call.0 == k && ends(
                call,
                Err(SyscallError::InsufficientRights),
            )
        }),
{
    let a = held(k, caller, cap)->0.rights.bits;
    assert(a & 32 == 32 <==> a & 32 != 0) by (bit_vector);
}

} // verus!
