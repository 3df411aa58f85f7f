//! What holds of the derivation forest as a whole, across every operation on it.

use crate::capability::Capability;
use crate::cdt::{
    ancestor, derived_capability, descends_from, doomed, doomed_count, doomed_slots, empty_table,
    entry_at, parent_at, revoked_forest, CapEntry, CapTableView, Forest, GlobalCapId,
};
use crate::ids::{CapId, CapSpaceId};
use crate::rights::{rights_include_themselves, rights_narrow_transitively, CapabilityRights};
use vstd::prelude::*;

verus! {

/// The child's authority is within the parent's: the same object, no further right, and the
/// parent's badge if it has one.
pub open spec fn within_authority(child: Capability, parent: Capability) -> bool {
    &&& child.object == parent.object
    &&& parent.rights.has_all(child.rights)
    &&& parent.badge != 0 ==> child.badge == parent.badge
}

/// Following parent links from `id` ends at a root.
pub open spec fn rooted(forest: Forest, id: GlobalCapId) -> bool {
    exists|k: nat|
        (#[trigger] ancestor(forest, id, k)) is Some && parent_at(forest, ancestor(forest, id, k)->0)
            is None
}

/// The derivation forest is sound: every table's free list is right, every parent link leads
/// to an occupied slot, no capability exceeds the authority of its parent, and parent links
/// never run in a circle.
pub open spec fn forest_sound(forest: Forest) -> bool {
    &&& forest.len() <= 0x1_0000_0000
    &&& forall|s: int| 0 <= s < forest.len() && (#[trigger] forest[s]) is Some ==> forest[s]->0.wf()
    &&& forall|id: GlobalCapId| #[trigger] slot_sound(forest, id)
}

/// A slot of a sound forest: if it is occupied, its parent link leads to an occupied slot that
/// has the authority, and up to a root.
pub open spec fn slot_sound(forest: Forest, id: GlobalCapId) -> bool {
    match entry_at(forest, id) {
        Some(entry) => {
            &&& entry.parent is Some ==> {
                let parent = entry_at(forest, entry.parent->0);
                parent is Some && within_authority(entry.cap, parent->0.cap)
            }
            &&& rooted(forest, id)
        },
        None => true,
    }
}

/// The forest after space `space` got the table `table`.
pub open spec fn with_table(forest: Forest, space: CapSpaceId, table: CapTableView) -> Forest {
    forest.update(space.0 as int, Some(table))
}

/// Climbing first `j` and then `k` links is climbing `j + k` links.
pub proof fn lemma_ancestor_adds(forest: Forest, id: GlobalCapId, mid: GlobalCapId, j: nat, k: nat)
    requires
        ancestor(forest, id, j) == Some(mid),
    ensures
        ancestor(forest, id, j + k) == ancestor(forest, mid, k),
    decreases k,
{
    if k > 0 {
        lemma_ancestor_adds(forest, id, mid, j, (k - 1) as nat);
    }
}

/// Every ancestor of an occupied slot of a sound forest is occupied.
proof fn lemma_ancestors_occupied(forest: Forest, id: GlobalCapId, k: nat)
    requires
        forest_sound(forest),
        entry_at(forest, id) is Some,
        ancestor(forest, id, k) is Some,
    ensures
        entry_at(forest, ancestor(forest, id, k)->0) is Some,
    decreases k,
{
    if k > 0 {
        lemma_ancestors_occupied(forest, id, (k - 1) as nat);
        assert(slot_sound(forest, ancestor(forest, id, (k - 1) as nat)->0));
    }
}

/// The chain above a slot is unchanged if the slots on it are.
proof fn lemma_same_chain(forest: Forest, after: Forest, id: GlobalCapId, k: nat)
    requires
        forall|j: nat|
            j < k && (#[trigger] ancestor(forest, id, j)) is Some ==> entry_at(
                after,
                ancestor(forest, id, j)->0,
            ) == entry_at(forest, ancestor(forest, id, j)->0),
    ensures
        ancestor(after, id, k) == ancestor(forest, id, k),
    decreases k,
{
    if k > 0 {
        lemma_same_chain(forest, after, id, (k - 1) as nat);
    }
}

/// A slot whose whole chain is unchanged is still rooted.
proof fn lemma_still_rooted(forest: Forest, after: Forest, id: GlobalCapId)
    requires
        rooted(forest, id),
        forall|j: nat|
            (#[trigger] ancestor(forest, id, j)) is Some ==> entry_at(
                after,
                ancestor(forest, id, j)->0,
            ) == entry_at(forest, ancestor(forest, id, j)->0),
    ensures
        rooted(after, id),
{
    let k = choose|k: nat|
        (#[trigger] ancestor(forest, id, k)) is Some && parent_at(forest, ancestor(forest, id, k)->0)
            is None;
    lemma_same_chain(forest, after, id, k);
    assert(ancestor(after, id, k) is Some);
}

/// What a slot of one space holds after the space's table was given one more entry.
proof fn lemma_entry_added(forest: Forest, space: CapSpaceId, entry: CapEntry, id: GlobalCapId)
    requires
        space.0 < forest.len(),
        forest[space.0 as int] is Some,
        forest[space.0 as int]->0.wf(),
        forest[space.0 as int]->0.free.len() > 0,
    ensures
        ({
            let table = forest[space.0 as int]->0;
            let new_id = GlobalCapId { space, cap: table.free[0] };
            let after = with_table(forest, space, table.with_entry(entry));
            &&& entry_at(forest, new_id) is None
            &&& entry_at(after, id) == if id == new_id {
                Some(entry)
            } else {
                entry_at(forest, id)
            }
            &&& table.with_entry(entry).wf()
        }),
{
    let table = forest[space.0 as int]->0;
    let next = table.with_entry(entry);
    assert(table.entries[table.free[0].0 as int] is None);
    assert forall|i: int| 0 <= i < next.entries.len() && (
    #[trigger] next.entries[i]) is None implies next.free.contains(CapId(i as u32)) by {
        assert(table.entries[i] is None);
        let k = choose|k: int| 0 <= k < table.free.len() && table.free[k] == CapId(i as u32);
        assert(next.free[k - 1] == CapId(i as u32));
    }
    assert forall|k: int| 0 <= k < next.free.len() implies (#[trigger] next.free[k]).0
        < next.entries.len() && next.entries[next.free[k].0 as int] is None by {
        assert(next.free[k] == table.free[k + 1]);
    }
}

/// Adding an entry whose parent link is sound keeps the forest sound.
proof fn lemma_add_keeps_sound(forest: Forest, space: CapSpaceId, entry: CapEntry)
    requires
        forest_sound(forest),
        space.0 < forest.len(),
        forest[space.0 as int] is Some,
        forest[space.0 as int]->0.free.len() > 0,
        entry.parent is Some ==> entry_at(forest, entry.parent->0) is Some && within_authority(
            entry.cap,
            entry_at(forest, entry.parent->0)->0.cap,
        ),
    ensures
        forest_sound(
            with_table(forest, space, forest[space.0 as int]->0.with_entry(entry)),
        ),
{
    let table = forest[space.0 as int]->0;
    let after = with_table(forest, space, table.with_entry(entry));
    let new_id = GlobalCapId { space, cap: table.free[0] };
    lemma_entry_added(forest, space, entry, new_id);
    assert forall|id: GlobalCapId| #[trigger] slot_sound(after, id) by {
        assert(slot_sound(forest, id));
        lemma_entry_added(forest, space, entry, id);
        if entry_at(after, id) is Some && entry_at(after, id)->0.parent is Some {
            lemma_entry_added(forest, space, entry, entry_at(after, id)->0.parent->0);
        }
        if id == new_id {
            let e = entry;
            assert(ancestor(after, id, 0) == Some(id));
            if e.parent is Some {
                let p = e.parent->0;
                lemma_chain_kept(forest, space, entry, p);
                assert(rooted(after, p));
                let k = choose|k: nat|
                    (#[trigger] ancestor(after, p, k)) is Some && parent_at(
                        after,
                        ancestor(after, p, k)->0,
                    ) is None;
                assert(ancestor(after, id, 1) == parent_at(after, ancestor(after, id, 0)->0));
                lemma_ancestor_adds(after, id, p, 1, k);
                assert(ancestor(after, id, 1 + k) is Some);
            }
        } else if entry_at(forest, id) is Some {
            lemma_chain_kept(forest, space, entry, id);
        }
    }
    assert forall|s: int| 0 <= s < after.len() && (#[trigger] after[s]) is Some implies after[s]->0.wf() by {
        assert(s != space.0 ==> after[s] == forest[s]);
    }
}

/// Adding an entry leaves the chains above the old entries alone.
proof fn lemma_chain_kept(forest: Forest, space: CapSpaceId, entry: CapEntry, id: GlobalCapId)
    requires
        forest_sound(forest),
        space.0 < forest.len(),
        forest[space.0 as int] is Some,
        forest[space.0 as int]->0.free.len() > 0,
        entry_at(forest, id) is Some,
    ensures
        rooted(with_table(forest, space, forest[space.0 as int]->0.with_entry(entry)), id),
        forall|k: nat| #[trigger]
            ancestor(
                with_table(forest, space, forest[space.0 as int]->0.with_entry(entry)),
                id,
                k,
            ) == ancestor(forest, id, k),
{
    let table = forest[space.0 as int]->0;
    let after = with_table(forest, space, table.with_entry(entry));
    assert forall|j: nat| (#[trigger] ancestor(forest, id, j)) is Some implies entry_at(
        after,
        ancestor(forest, id, j)->0,
    ) == entry_at(forest, ancestor(forest, id, j)->0) by {
        lemma_ancestors_occupied(forest, id, j);
        lemma_entry_added(forest, space, entry, ancestor(forest, id, j)->0);
    }
    assert(slot_sound(forest, id));
    lemma_still_rooted(forest, after, id);
    assert forall|k: nat| #[trigger] ancestor(after, id, k) == ancestor(forest, id, k) by {
        lemma_same_chain(forest, after, id, k);
    }
}

/// A forest without any table is sound.
pub proof fn no_tables_are_sound(forest: Forest)
    requires
        forest.len() <= 0x1_0000_0000,
        forall|s: int| 0 <= s < forest.len() ==> forest[s] is None,
    ensures
        forest_sound(forest),
{
    assert forall|id: GlobalCapId| #[trigger] slot_sound(forest, id) by {
        assert(entry_at(forest, id) is None);
    }
}

/// Giving an unused space an empty table keeps the forest sound.
pub proof fn new_space_keeps_sound(forest: Forest, space: CapSpaceId, n: nat)
    requires
        forest_sound(forest),
        space.0 < forest.len(),
        forest[space.0 as int] is None,
        n <= 0x1_0000_0000,
    ensures
        forest_sound(with_table(forest, space, empty_table(n, space))),
{
    let after = with_table(forest, space, empty_table(n, space));
    let table = empty_table(n, space);
    assert forall|i: int| 0 <= i < n && (#[trigger] table.entries[i]) is None implies table.free.contains(
        CapId(i as u32),
    ) by {
        assert(table.free[i] == CapId(i as u32));
    }
    assert(table.wf());
    assert forall|id: GlobalCapId| #[trigger] entry_at(after, id) == entry_at(forest, id) by {}
    assert forall|id: GlobalCapId| #[trigger] slot_sound(after, id) by {
        assert(slot_sound(forest, id));
        if entry_at(forest, id) is Some {
            lemma_still_rooted(forest, after, id);
        }
    }
    assert forall|s: int| 0 <= s < after.len() && (#[trigger] after[s]) is Some implies after[s]->0.wf() by {
        assert(s != space.0 ==> after[s] == forest[s]);
    }
}

/// Storing a root capability keeps the forest sound.
pub proof fn inserting_a_root_keeps_sound(forest: Forest, space: CapSpaceId, cap: Capability)
    requires
        forest_sound(forest),
        space.0 < forest.len(),
        forest[space.0 as int] is Some,
        forest[space.0 as int]->0.free.len() > 0,
    ensures
        forest_sound(
            with_table(
                forest,
                space,
                forest[space.0 as int]->0.with_entry(CapEntry { cap, parent: None }),
            ),
        ),
{
    lemma_add_keeps_sound(forest, space, CapEntry { cap, parent: None });
}

/// Deriving a capability, into its parent's space or another one, keeps the forest sound.
pub proof fn deriving_keeps_sound(
    forest: Forest,
    parent: GlobalCapId,
    space: CapSpaceId,
    rights: CapabilityRights,
    badge: u64,
)
    requires
        forest_sound(forest),
        space.0 < forest.len(),
        forest[space.0 as int] is Some,
        forest[space.0 as int]->0.free.len() > 0,
        derived_capability(entry_at(forest, parent), rights, badge) is Ok,
    ensures
        forest_sound(
            with_table(
                forest,
                space,
                forest[space.0 as int]->0.with_entry(
                    CapEntry {
                        cap: derived_capability(entry_at(forest, parent), rights, badge)->Ok_0,
                        parent: Some(parent),
                    },
                ),
            ),
        ),
{
    let cap = derived_capability(entry_at(forest, parent), rights, badge)->Ok_0;
    lemma_add_keeps_sound(forest, space, CapEntry { cap, parent: Some(parent) });
}

/// What a slot holds after a revocation: nothing if it was doomed, else what it held.
pub proof fn revoking_frees_exactly_the_subtree(
    forest: Forest,
    target: GlobalCapId,
    n: nat,
    id: GlobalCapId,
)
    requires
        forest_sound(forest),
        forall|s: int|
            0 <= s < forest.len() && (#[trigger] forest[s]) is Some ==> forest[s]->0.entries.len()
                == n,
    ensures
        entry_at(revoked_forest(forest, target, n), id) == if doomed(forest, id, target) {
            None
        } else {
            entry_at(forest, id)
        },
{
}

/// The doomed slots of one space: each is listed once, and only doomed slots are.
proof fn lemma_doomed_slots(forest: Forest, space: int, target: GlobalCapId, n: nat)
    requires
        n <= 0x1_0000_0000,
    ensures
        doomed_slots(forest, space, target, n).no_duplicates(),
        forall|k: int|
            0 <= k < doomed_slots(forest, space, target, n).len() ==> {
                let c = #[trigger] doomed_slots(forest, space, target, n)[k];
                &&& c.0 < n
                &&& doomed(forest, GlobalCapId { space: CapSpaceId(space as u32), cap: c }, target)
            },
        forall|c: CapId|
            c.0 < n && #[trigger] doomed(
                forest,
                GlobalCapId { space: CapSpaceId(space as u32), cap: c },
                target,
            ) ==> doomed_slots(forest, space, target, n).contains(c),
    decreases n,
{
    if n > 0 {
        let m = (n - 1) as nat;
        lemma_doomed_slots(forest, space, target, m);
        let below = doomed_slots(forest, space, target, m);
        let all = doomed_slots(forest, space, target, n);
        let id = GlobalCapId { space: CapSpaceId(space as u32), cap: CapId(m as u32) };
        assert forall|c: CapId|
            c.0 < n && #[trigger] doomed(
                forest,
                GlobalCapId { space: CapSpaceId(space as u32), cap: c },
                target,
            ) implies all.contains(c) by {
            if c.0 == m {
                assert(all[0] == c);
            } else {
                assert(below.contains(c));
                let k = choose|k: int| 0 <= k < below.len() && below[k] == c;
                if doomed(forest, id, target) {
                    assert(all[k + 1] == below[k]);
                }
            }
        }
        if doomed(forest, id, target) {
            assert forall|k: int| 0 <= k < all.len() implies {
                let c = #[trigger] all[k];
                &&& c.0 < n
                &&& doomed(forest, GlobalCapId { space: CapSpaceId(space as u32), cap: c }, target)
            } by {
                if k > 0 {
                    assert(all[k] == below[k - 1]);
                }
            }
        }
    }
}

/// Revoking a capability with everything derived from it keeps the forest sound. In
/// particular no survivor is left with a parent that is gone.
pub proof fn revoking_keeps_sound(forest: Forest, target: GlobalCapId, n: nat)
    requires
        forest_sound(forest),
        forall|s: int|
            0 <= s < forest.len() && (#[trigger] forest[s]) is Some ==> forest[s]->0.entries.len()
                == n,
    ensures
        forest_sound(revoked_forest(forest, target, n)),
{
    let after = revoked_forest(forest, target, n);
    assert forall|id: GlobalCapId| #[trigger] slot_sound(after, id) by {
        revoking_frees_exactly_the_subtree(forest, target, n, id);
        assert(slot_sound(forest, id));
        if entry_at(after, id) is Some {
            lemma_survivor_sound(forest, target, n, id);
        }
    }
    assert forall|s: int| 0 <= s < after.len() && (#[trigger] after[s]) is Some implies after[s]->0.wf() by {
        lemma_revoked_table_wf(forest, s, target, n);
    }
}

/// A slot that a revocation spares is as sound as it was.
proof fn lemma_survivor_sound(forest: Forest, target: GlobalCapId, n: nat, id: GlobalCapId)
    requires
        forest_sound(forest),
        forall|s: int|
            0 <= s < forest.len() && (#[trigger] forest[s]) is Some ==> forest[s]->0.entries.len()
                == n,
        entry_at(forest, id) is Some,
        !doomed(forest, id, target),
    ensures
        slot_sound(revoked_forest(forest, target, n), id),
{
    let after = revoked_forest(forest, target, n);
    revoking_frees_exactly_the_subtree(forest, target, n, id);
    assert(slot_sound(forest, id));
    assert forall|j: nat| (#[trigger] ancestor(forest, id, j)) is Some implies entry_at(
        after,
        ancestor(forest, id, j)->0,
    ) == entry_at(forest, ancestor(forest, id, j)->0) by {
        lemma_survivors_keep_ancestors(forest, target, n, id, j);
    }
    lemma_still_rooted(forest, after, id);
    if parent_at(forest, id) is Some {
        assert(ancestor(forest, id, 1) == parent_at(forest, ancestor(forest, id, 0)->0));
        assert(ancestor(forest, id, 1) is Some);
    }
}

proof fn lemma_revoked_table_wf(forest: Forest, s: int, target: GlobalCapId, n: nat)
    requires
        forest_sound(forest),
        0 <= s < forest.len(),
        forest[s] is Some,
        forest[s]->0.entries.len() == n,
    ensures
        revoked_forest(forest, target, n)[s]->0.wf(),
{
    let table = forest[s]->0;
    let after = revoked_forest(forest, target, n)[s]->0;
    let freed = doomed_slots(forest, s, target, n);
    lemma_doomed_slots(forest, s, target, n);
    assert forall|i: int| 0 <= i < after.entries.len() && (
    #[trigger] after.entries[i]) is None implies after.free.contains(CapId(i as u32)) by {
        let id = GlobalCapId { space: CapSpaceId(s as u32), cap: CapId(i as u32) };
        if doomed(forest, id, target) {
            let k = choose|k: int| 0 <= k < freed.len() && freed[k] == CapId(i as u32);
            assert(after.free[k] == CapId(i as u32));
        } else {
            assert(table.entries[i] is None);
            let k = choose|k: int| 0 <= k < table.free.len() && table.free[k] == CapId(i as u32);
            assert(after.free[freed.len() + k] == CapId(i as u32));
        }
    }
    assert forall|k: int| 0 <= k < after.free.len() implies (#[trigger] after.free[k]).0
        < after.entries.len() && after.entries[after.free[k].0 as int] is None by {
        if k < freed.len() {
            assert(after.free[k] == freed[k]);
        } else {
            assert(after.free[k] == table.free[k - freed.len()]);
        }
    }
    assert forall|j: int, k: int|
        0 <= j < freed.len() && 0 <= k < table.free.len() implies freed[j] != table.free[k] by {
        let c = freed[j];
        assert(doomed(forest, GlobalCapId { space: CapSpaceId(s as u32), cap: c }, target));
        assert(table.entries[table.free[k].0 as int] is None);
    }
    assert(after.free.no_duplicates()) by {
        assert forall|j: int, k: int| 0 <= j < k < after.free.len() implies after.free[j]
            != after.free[k] by {
            let m = freed.len();
            if k < m {
                assert(freed[j] != freed[k]);
            } else if j >= m {
                assert(table.free[j - m] != table.free[k - m]);
            } else {
                assert(freed[j] != table.free[k - m]);
            }
        }
    }
}

/// A survivor's ancestors survive.
proof fn lemma_survivors_keep_ancestors(
    forest: Forest,
    target: GlobalCapId,
    n: nat,
    id: GlobalCapId,
    j: nat,
)
    requires
        forest_sound(forest),
        forall|s: int|
            0 <= s < forest.len() && (#[trigger] forest[s]) is Some ==> forest[s]->0.entries.len()
                == n,
        entry_at(forest, id) is Some,
        !doomed(forest, id, target),
        ancestor(forest, id, j) is Some,
    ensures
        entry_at(revoked_forest(forest, target, n), ancestor(forest, id, j)->0) == entry_at(
            forest,
            ancestor(forest, id, j)->0,
        ),
{
    let a = ancestor(forest, id, j)->0;
    lemma_ancestors_occupied(forest, id, j);
    revoking_frees_exactly_the_subtree(forest, target, n, a);
    if doomed(forest, a, target) {
        if a == target {
            assert(j >= 1);
            assert(ancestor(forest, id, j) == Some(target));
        } else {
            let k = choose|k: nat| k >= 1 && #[trigger] ancestor(forest, a, k) == Some(target);
            lemma_ancestor_adds(forest, id, a, j, k);
            assert(ancestor(forest, id, j + k) == Some(target));
        }
        assert(descends_from(forest, id, target));
    }
}

/// Freeing an occupied slot keeps the free list right.
proof fn lemma_freed_slot_wf(table: CapTableView, id: CapId)
    requires
        table.wf(),
        table.get(id) is Some,
    ensures
        table.without(id).wf(),
{
    let next = table.without(id);
    assert forall|k: int| 0 <= k < table.free.len() implies table.free[k] != id by {
        assert(table.entries[table.free[k].0 as int] is None);
    }
    assert forall|i: int| 0 <= i < next.entries.len() && (
    #[trigger] next.entries[i]) is None implies next.free.contains(CapId(i as u32)) by {
        if i == id.0 {
            assert(next.free[0] == CapId(i as u32));
        } else {
            assert(table.entries[i] is None);
            let k = choose|k: int| 0 <= k < table.free.len() && table.free[k] == CapId(i as u32);
            assert(next.free[k + 1] == CapId(i as u32));
        }
    }
    assert forall|k: int| 0 <= k < next.free.len() implies (#[trigger] next.free[k]).0
        < next.entries.len() && next.entries[next.free[k].0 as int] is None by {
        if k > 0 {
            assert(next.free[k] == table.free[k - 1]);
        }
    }
    assert forall|j: int, k: int| 0 <= j < k < next.free.len() implies next.free[j]
        != next.free[k] by {
        if j == 0 {
            assert(next.free[k] == table.free[k - 1]);
        } else {
            assert(table.free[j - 1] != table.free[k - 1]);
        }
    }
}

/// Taking back a root from which nothing was derived keeps the forest sound.
pub proof fn removing_a_childless_root_keeps_sound(forest: Forest, id: GlobalCapId)
    requires
        forest_sound(forest),
        entry_at(forest, id) is Some,
        entry_at(forest, id)->0.parent is None,
        forall|c: GlobalCapId| #[trigger] parent_at(forest, c) != Some(id),
    ensures
        forest_sound(
            with_table(forest, id.space, forest[id.space.0 as int]->0.without(id.cap)),
        ),
{
    let table = forest[id.space.0 as int]->0;
    let next = table.without(id.cap);
    let after = with_table(forest, id.space, next);
    lemma_freed_slot_wf(table, id.cap);
    assert forall|c: GlobalCapId| #[trigger] entry_at(after, c) == if c == id {
        None
    } else {
        entry_at(forest, c)
    } by {}
    assert forall|c: GlobalCapId| #[trigger] slot_sound(after, c) by {
        assert(slot_sound(forest, c));
        assert(parent_at(forest, c) != Some(id));
        if c != id && entry_at(forest, c) is Some {
            assert forall|j: nat| (#[trigger] ancestor(forest, c, j)) is Some implies entry_at(
                after,
                ancestor(forest, c, j)->0,
            ) == entry_at(forest, ancestor(forest, c, j)->0) by {
                if j > 0 {
                    let below = ancestor(forest, c, (j - 1) as nat)->0;
                    assert(parent_at(forest, below) != Some(id));
                }
            }
            lemma_still_rooted(forest, after, c);
        }
    }
    assert forall|s: int| 0 <= s < after.len() && (#[trigger] after[s]) is Some implies after[s]->0.wf() by {
        assert(s != id.space.0 ==> after[s] == forest[s]);
    }
}

/// Authority never grows along a derivation: a capability is within the authority of every
/// capability it descends from.
pub proof fn authority_never_grows(forest: Forest, id: GlobalCapId, k: nat)
    requires
        forest_sound(forest),
        entry_at(forest, id) is Some,
        ancestor(forest, id, k) is Some,
    ensures
        entry_at(forest, ancestor(forest, id, k)->0) is Some,
        within_authority(
            entry_at(forest, id)->0.cap,
            entry_at(forest, ancestor(forest, id, k)->0)->0.cap,
        ),
    decreases k,
{
    lemma_ancestors_occupied(forest, id, k);
    let cap = entry_at(forest, id)->0.cap;
    rights_include_themselves(cap.rights);
    if k > 0 {
        authority_never_grows(forest, id, (k - 1) as nat);
        let below = ancestor(forest, id, (k - 1) as nat)->0;
        let above = ancestor(forest, id, k)->0;
        assert(slot_sound(forest, below));
        rights_narrow_transitively(
            entry_at(forest, above)->0.cap.rights,
            entry_at(forest, below)->0.cap.rights,
            cap.rights,
        );
    }
}

/// A revocation reaches what was derived: a capability derived from `parent`, into whichever
/// space, is freed by revoking `parent` or anything `parent` descends from.
pub proof fn revoking_reaches_the_derived(
    forest: Forest,
    parent: GlobalCapId,
    space: CapSpaceId,
    cap: Capability,
    target: GlobalCapId,
)
    requires
        forest_sound(forest),
        space.0 < forest.len(),
        forest[space.0 as int] is Some,
        forest[space.0 as int]->0.free.len() > 0,
        doomed(forest, parent, target),
    ensures
        ({
            let table = forest[space.0 as int]->0;
            let child = GlobalCapId { space, cap: table.free[0] };
            let after = with_table(
                forest,
                space,
                table.with_entry(CapEntry { cap, parent: Some(parent) }),
            );
            doomed(after, child, target) && doomed(after, parent, target)
        }),
{
    let table = forest[space.0 as int]->0;
    let entry = CapEntry { cap, parent: Some(parent) };
    let child = GlobalCapId { space, cap: table.free[0] };
    let after = with_table(forest, space, table.with_entry(entry));
    lemma_entry_added(forest, space, entry, child);
    lemma_entry_added(forest, space, entry, parent);
    lemma_chain_kept(forest, space, entry, parent);
    assert(ancestor(after, child, 1) == parent_at(after, ancestor(after, child, 0)->0));
    assert(ancestor(after, child, 1) == Some(parent));
    if parent != target {
        let k = choose|k: nat| k >= 1 && #[trigger] ancestor(forest, parent, k) == Some(target);
        assert(ancestor(after, parent, k) == Some(target));
        lemma_ancestor_adds(after, child, parent, 1, k);
        assert(ancestor(after, child, 1 + k) == Some(target));
    }
}

/// Deriving a capability dooms no other: what a revocation would spare it still spares.
pub proof fn deriving_dooms_nothing_else(
    forest: Forest,
    space: CapSpaceId,
    entry: CapEntry,
    target: GlobalCapId,
    id: GlobalCapId,
)
    requires
        forest_sound(forest),
        space.0 < forest.len(),
        forest[space.0 as int] is Some,
        forest[space.0 as int]->0.free.len() > 0,
        entry_at(forest, id) is Some,
    ensures
        doomed(
            with_table(forest, space, forest[space.0 as int]->0.with_entry(entry)),
            id,
            target,
        ) == doomed(forest, id, target),
{
    let after = with_table(forest, space, forest[space.0 as int]->0.with_entry(entry));
    lemma_entry_added(forest, space, entry, id);
    lemma_chain_kept(forest, space, entry, id);
    assert(descends_from(after, id, target) == descends_from(forest, id, target)) by {
        if descends_from(after, id, target) {
            let k = choose|k: nat| k >= 1 && #[trigger] ancestor(after, id, k) == Some(target);
            assert(ancestor(forest, id, k) == Some(target));
        }
        if descends_from(forest, id, target) {
            let k = choose|k: nat| k >= 1 && #[trigger] ancestor(forest, id, k) == Some(target);
            assert(ancestor(after, id, k) == Some(target));
        }
    }
}

/// A revoked capability is gone, so revoking it again finds an empty slot.
pub proof fn revoked_is_gone(forest: Forest, target: GlobalCapId, n: nat)
    requires
        forest_sound(forest),
        forall|s: int|
            0 <= s < forest.len() && (#[trigger] forest[s]) is Some ==> forest[s]->0.entries.len()
                == n,
        entry_at(forest, target) is Some,
    ensures
        entry_at(revoked_forest(forest, target, n), target) is None,
{
    revoking_frees_exactly_the_subtree(forest, target, n, target);
}

/// The number of slots freed is counted space by space.
proof fn lemma_count_includes(forest: Forest, target: GlobalCapId, n: nat, m: nat, s: int)
    requires
        0 <= s < m,
    ensures
        doomed_count(forest, target, n, m) >= doomed_slots(forest, s, target, n).len(),
    decreases m,
{
    if s < m - 1 {
        lemma_count_includes(forest, target, n, (m - 1) as nat, s);
    }
}

/// A revocation that succeeds frees at least the target.
pub proof fn revoking_frees_at_least_one(forest: Forest, target: GlobalCapId, n: nat)
    requires
        forest_sound(forest),
        forall|s: int|
            0 <= s < forest.len() && (#[trigger] forest[s]) is Some ==> forest[s]->0.entries.len()
                == n,
        entry_at(forest, target) is Some,
    ensures
        doomed_count(forest, target, n, forest.len()) >= 1,
{
    let s = target.space.0 as int;
    lemma_doomed_slots(forest, s, target, n);
    assert(target == (GlobalCapId { space: CapSpaceId(s as u32), cap: target.cap }));
    assert(doomed(forest, target, target));
    lemma_count_includes(forest, target, n, forest.len(), s);
}

/// Only the target is doomed, so it is all that is listed.
proof fn lemma_lone_doomed_slot(forest: Forest, space: int, target: GlobalCapId, n: nat)
    requires
        0 <= space <= u32::MAX,
        n <= 0x1_0000_0000,
        doomed(forest, target, target),
        forall|id: GlobalCapId| #[trigger] doomed(forest, id, target) ==> id == target,
    ensures
        doomed_slots(forest, space, target, n) == if space == target.space.0 && target.cap.0 < n {
            seq![target.cap]
        } else {
            seq![]
        },
    decreases n,
{
    if n > 0 {
        let m = (n - 1) as nat;
        lemma_lone_doomed_slot(forest, space, target, m);
        let id = GlobalCapId { space: CapSpaceId(space as u32), cap: CapId(m as u32) };
        assert(doomed(forest, id, target) <==> id == target);
        assert(doomed_slots(forest, space, target, n) =~= if space == target.space.0
            && target.cap.0 < n {
            seq![target.cap]
        } else {
            seq![]
        });
    }
}

/// Only the target is doomed, so it is all that is counted.
proof fn lemma_lone_doomed_count(forest: Forest, target: GlobalCapId, n: nat, m: nat)
    requires
        m <= 0x1_0000_0000,
        target.cap.0 < n <= 0x1_0000_0000,
        doomed(forest, target, target),
        forall|id: GlobalCapId| #[trigger] doomed(forest, id, target) ==> id == target,
    ensures
        doomed_count(forest, target, n, m) == if target.space.0 < m {
            1nat
        } else {
            0
        },
    decreases m,
{
    if m > 0 {
        lemma_lone_doomed_count(forest, target, n, (m - 1) as nat);
        lemma_lone_doomed_slot(forest, m - 1, target, n);
    }
}

/// Revoking what was stored last undoes it: every table is as it was before, down to the order
/// in which its free slots will be handed out, and exactly one slot is freed.
pub proof fn storing_then_revoking_changes_nothing(
    forest: Forest,
    space: CapSpaceId,
    entry: CapEntry,
    n: nat,
)
    requires
        forest_sound(forest),
        forall|s: int|
            0 <= s < forest.len() && (#[trigger] forest[s]) is Some ==> forest[s]->0.entries.len()
                == n,
        space.0 < forest.len(),
        forest[space.0 as int] is Some,
        forest[space.0 as int]->0.free.len() > 0,
    ensures
        ({
            let table = forest[space.0 as int]->0;
            let stored = GlobalCapId { space, cap: table.free[0] };
            let after = with_table(forest, space, table.with_entry(entry));
            &&& entry_at(after, stored) == Some(entry)
            &&& revoked_forest(after, stored, n) == forest
            &&& doomed_count(after, stored, n, forest.len()) == 1
        }),
{
    let table = forest[space.0 as int]->0;
    let stored = GlobalCapId { space, cap: table.free[0] };
    let after = with_table(forest, space, table.with_entry(entry));
    lemma_entry_added(forest, space, entry, stored);
    assert(table.free[0].0 < table.entries.len());
    assert forall|id: GlobalCapId| #[trigger] doomed(after, id, stored) implies id == stored by {
        lemma_entry_added(forest, space, entry, id);
        if id != stored {
            deriving_dooms_nothing_else(forest, space, entry, stored, id);
            let k = choose|k: nat| k >= 1 && #[trigger] ancestor(forest, id, k) == Some(stored);
            lemma_ancestors_occupied(forest, id, k);
        }
    }
    assert(doomed(after, stored, stored));
    lemma_lone_doomed_count(after, stored, n, forest.len());
    let undone = revoked_forest(after, stored, n);
    assert forall|s: int| 0 <= s < forest.len() implies undone[s] == forest[s] by {
        if forest[s] is Some {
            lemma_lone_doomed_slot(after, s, stored, n);
            let back = undone[s]->0;
            let was = forest[s]->0;
            assert forall|i: int| 0 <= i < n implies back.entries[i] == was.entries[i] by {
                let id = GlobalCapId { space: CapSpaceId(s as u32), cap: CapId(i as u32) };
                assert(doomed(after, id, stored) <==> id == stored);
                assert(was.wf());
                if id == stored {
                    assert(was.entries[was.free[0].0 as int] is None);
                }
            }
            assert(back.entries =~= was.entries);
            assert(back.free =~= was.free);
        }
    }
    assert(undone =~= forest);
}

/// Revoking a capability right after it was derived, into its parent's space or another one,
/// undoes the derivation.
pub proof fn deriving_then_revoking_changes_nothing(
    forest: Forest,
    parent: GlobalCapId,
    space: CapSpaceId,
    rights: CapabilityRights,
    badge: u64,
    n: nat,
)
    requires
        forest_sound(forest),
        forall|s: int|
            0 <= s < forest.len() && (#[trigger] forest[s]) is Some ==> forest[s]->0.entries.len()
                == n,
        space.0 < forest.len(),
        forest[space.0 as int] is Some,
        forest[space.0 as int]->0.free.len() > 0,
        derived_capability(entry_at(forest, parent), rights, badge) is Ok,
    ensures
        ({
            let table = forest[space.0 as int]->0;
            let child = GlobalCapId { space, cap: table.free[0] };
            let cap = derived_capability(entry_at(forest, parent), rights, badge)->Ok_0;
            let after = with_table(
                forest,
                space,
                table.with_entry(CapEntry { cap, parent: Some(parent) }),
            );
            &&& revoked_forest(after, child, n) == forest
            &&& doomed_count(after, child, n, forest.len()) == 1
        }),
{
    let cap = derived_capability(entry_at(forest, parent), rights, badge)->Ok_0;
    storing_then_revoking_changes_nothing(
        forest,
        space,
        CapEntry { cap, parent: Some(parent) },
        n,
    );
}

/// The slot freed last is the one handed out next: what is stored next goes there, the free
/// list is then as it was before, and no other slot is touched in between.
pub proof fn the_slot_freed_last_is_handed_out_next(v: CapTableView, id: CapId, entry: CapEntry)
    requires
        v.wf(),
        v.get(id) is Some,
    ensures
        v.without(id).wf(),
        v.without(id).get(id) is None,
        v.without(id).free[0] == id,
        v.without(id).free.skip(1) == v.free,
        v.without(id).with_entry(entry) == (CapTableView {
            entries: v.entries.update(id.0 as int, Some(entry)),
            ..v
        }),
        v.without(id).with_entry(entry).occupied_slots() == v.occupied_slots(),
        forall|other: CapId|
            other != id ==> #[trigger] v.without(id).with_entry(entry).get(other) == v.get(other),
{
    lemma_freed_slot_wf(v, id);
    let after = v.without(id).with_entry(entry);
    assert(after.entries =~= v.entries.update(id.0 as int, Some(entry)));
    assert(after.free =~= v.free);
    assert(v.without(id).free.skip(1) =~= v.free);
    assert(after.occupied_slots() =~= v.occupied_slots());
}

/// The occupied slots of the first `m` spaces, counted together.
pub open spec fn occupied_count(forest: Forest, m: nat) -> nat
    decreases m,
{
    if m == 0 {
        0
    } else {
        occupied_count(forest, (m - 1) as nat) + match forest[m - 1] {
            Some(table) => table.occupied_slots().len(),
            None => 0,
        }
    }
}

proof fn lemma_freed_are_counted(forest: Forest, target: GlobalCapId, n: nat, m: nat)
    requires
        forest_sound(forest),
        forall|s: int|
            0 <= s < forest.len() && (#[trigger] forest[s]) is Some ==> forest[s]->0.entries.len()
                == n,
        m <= forest.len(),
    ensures
        occupied_count(revoked_forest(forest, target, n), m) + doomed_count(forest, target, n, m)
            == occupied_count(forest, m),
    decreases m,
{
    if m > 0 {
        lemma_freed_are_counted(forest, target, n, (m - 1) as nat);
        let s = m - 1;
        if forest[s] is Some {
            lemma_revoked_table_wf(forest, s, target, n);
            forest[s]->0.lemma_slots_add_up();
            revoked_forest(forest, target, n)[s]->0.lemma_slots_add_up();
        } else {
            lemma_nothing_doomed_without_table(forest, s, target, n);
        }
    }
}

proof fn lemma_nothing_doomed_without_table(
    forest: Forest,
    space: int,
    target: GlobalCapId,
    n: nat,
)
    requires
        0 <= space < forest.len() <= 0x1_0000_0000,
        forest[space] is None,
    ensures
        doomed_slots(forest, space, target, n).len() == 0,
    decreases n,
{
    if n > 0 {
        lemma_nothing_doomed_without_table(forest, space, target, (n - 1) as nat);
    }
}

/// A revocation frees as many slots as it reports: the occupied slots of all spaces together
/// become fewer by exactly that number. In each space the slots that are not occupied are free,
/// each once.
pub proof fn revoking_frees_as_many_as_reported(forest: Forest, target: GlobalCapId, n: nat)
    requires
        forest_sound(forest),
        forall|s: int|
            0 <= s < forest.len() && (#[trigger] forest[s]) is Some ==> forest[s]->0.entries.len()
                == n,
    ensures
        ({
            let after = revoked_forest(forest, target, n);
            &&& occupied_count(after, forest.len()) + doomed_count(
                forest,
                target,
                n,
                forest.len(),
            ) == occupied_count(forest, forest.len())
            &&& forall|s: int|
                0 <= s < after.len() && (#[trigger] after[s]) is Some ==> {
                    &&& after[s]->0.wf()
                    &&& after[s]->0.occupied_slots().len() + after[s]->0.free.len() == n
                }
        }),
{
    lemma_freed_are_counted(forest, target, n, forest.len());
    let after = revoked_forest(forest, target, n);
    assert forall|s: int| 0 <= s < after.len() && (#[trigger] after[s]) is Some implies {
        &&& after[s]->0.wf()
        &&& after[s]->0.occupied_slots().len() + after[s]->0.free.len() == n
    } by {
        assert(forest[s] is Some);
        lemma_revoked_table_wf(forest, s, target, n);
        after[s]->0.lemma_slots_add_up();
    }
}

/// The table after these entries were stored one after the other.
pub open spec fn with_entries(table: CapTableView, entries: Seq<CapEntry>) -> CapTableView
    decreases entries.len(),
{
    if entries.len() == 0 {
        table
    } else {
        with_entries(table, entries.drop_last()).with_entry(entries.last())
    }
}

/// A table takes exactly as many entries as it has unoccupied slots: storing succeeds that many
/// times, and the table is full then.
pub proof fn every_free_slot_can_be_filled_once(table: CapTableView, entries: Seq<CapEntry>)
    requires
        table.wf(),
        entries.len() <= table.entries.len() - table.occupied_slots().len(),
    ensures
        with_entries(table, entries).wf(),
        with_entries(table, entries).free == table.free.skip(entries.len() as int),
        with_entries(table, entries).occupied_slots().len() == table.occupied_slots().len()
            + entries.len(),
        with_entries(table, entries).free.len() == 0 <==> entries.len() == table.entries.len()
            - table.occupied_slots().len(),
    decreases entries.len(),
{
    table.lemma_slots_add_up();
    if entries.len() == 0 {
        assert(table.free.skip(0) =~= table.free);
    } else {
        every_free_slot_can_be_filled_once(table, entries.drop_last());
        let before = with_entries(table, entries.drop_last());
        let after = with_entries(table, entries);
        lemma_entry_added(
            seq![Some(before)],
            CapSpaceId(0),
            entries.last(),
            GlobalCapId { space: CapSpaceId(0), cap: CapId(0) },
        );
        before.lemma_slots_add_up();
        after.lemma_slots_add_up();
        assert(after.free =~= table.free.skip(entries.len() as int));
    }
}

/// A space without the target and without anything derived from it is left as it was.
pub proof fn revoking_leaves_other_spaces_alone(
    forest: Forest,
    target: GlobalCapId,
    n: nat,
    space: CapSpaceId,
)
    requires
        forest_sound(forest),
        space.0 < forest.len(),
        forest[space.0 as int] is Some ==> forest[space.0 as int]->0.entries.len() == n,
        forall|id: GlobalCapId| id.space == space ==> !#[trigger] doomed(forest, id, target),
    ensures
        revoked_forest(forest, target, n)[space.0 as int] == forest[space.0 as int],
{
    let s = space.0 as int;
    if forest[s] is Some {
        let table = forest[s]->0;
        let after = revoked_forest(forest, target, n)[s]->0;
        lemma_doomed_slots(forest, s, target, n);
        let freed = doomed_slots(forest, s, target, n);
        if freed.len() > 0 {
            let c = freed[0];
            assert(doomed(forest, GlobalCapId { space: CapSpaceId(s as u32), cap: c }, target));
        }
        assert(after.entries =~= table.entries);
        assert(after.free =~= table.free);
    }
}

} // verus!
