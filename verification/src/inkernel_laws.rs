//! What the demonstration of revocation shows.

use crate::cdt::{
    ancestor, derived_capability, descends_from, doomed, doomed_count, doomed_slots, entry_at,
    CapEntry, Forest, GlobalCapId,
};
use crate::cdt_laws::{
    deriving_dooms_nothing_else, deriving_keeps_sound, forest_sound,
    revoking_frees_exactly_the_subtree, revoking_reaches_the_derived, slot_sound, with_table,
};
use crate::config::{CAP_SLOTS_PER_SPACE, MAX_CAP_SPACES};
use crate::ids::{CapId, CapSpaceId};
use crate::inkernel::{can_derive_twice, derived_twice, revocation_shown, RevocationReport};
use crate::rights::{CapabilityRights, ALL_BITS, READ_BIT, REVOKE_BIT, WRITE_BIT};
use crate::state::{slot, KernelView};
use vstd::prelude::*;

verus! {

/// In a sound forest nothing descends from an empty slot.
proof fn lemma_ancestors_are_there(forest: Forest, id: GlobalCapId, k: nat)
    requires
        forest_sound(forest),
        entry_at(forest, id) is Some,
        ancestor(forest, id, k) is Some,
    ensures
        entry_at(forest, ancestor(forest, id, k)->0) is Some,
    decreases k,
{
    if k > 0 {
        let below = ancestor(forest, id, (k - 1) as nat)->0;
        lemma_ancestors_are_there(forest, id, (k - 1) as nat);
        assert(slot_sound(forest, below));
    }
}

/// The doomed slots of a space, if exactly `a` and `b` are doomed in it.
proof fn lemma_two_slots(forest: Forest, s: int, target: GlobalCapId, n: nat, a: CapId, b: CapId)
    requires
        0 <= s <= u32::MAX,
        n <= CAP_SLOTS_PER_SPACE,
        a != b,
        forall|c: CapId|
            #[trigger] doomed(
                forest,
                GlobalCapId { space: CapSpaceId(s as u32), cap: c },
                target,
            ) <==> c == a || c == b,
    ensures
        doomed_slots(forest, s, target, n).len() == (if a.0 < n {
            1int
        } else {
            0
        }) + (if b.0 < n {
            1int
        } else {
            0
        }),
    decreases n,
{
    if n > 0 {
        lemma_two_slots(forest, s, target, (n - 1) as nat, a, b);
        let c = CapId((n - 1) as u32);
        let id = GlobalCapId { space: CapSpaceId(s as u32), cap: c };
        assert(doomed(forest, id, target) <==> c == a || c == b);
    }
}

/// A space in which nothing is doomed has no doomed slots.
proof fn lemma_no_slots(forest: Forest, s: int, target: GlobalCapId, n: nat)
    requires
        0 <= s <= u32::MAX,
        forall|c: CapId|
            !#[trigger] doomed(
                forest,
                GlobalCapId { space: CapSpaceId(s as u32), cap: c },
                target,
            ),
    ensures
        doomed_slots(forest, s, target, n).len() == 0,
    decreases n,
{
    if n > 0 {
        lemma_no_slots(forest, s, target, (n - 1) as nat);
        let id = GlobalCapId { space: CapSpaceId(s as u32), cap: CapId((n - 1) as u32) };
        assert(!doomed(forest, id, target));
    }
}

/// If exactly two slots of one space are doomed, two slots are.
proof fn lemma_two_doomed(forest: Forest, a: GlobalCapId, b: GlobalCapId, m: nat)
    requires
        m <= MAX_CAP_SPACES,
        a.space == b.space,
        a != b,
        a.cap.0 < CAP_SLOTS_PER_SPACE,
        b.cap.0 < CAP_SLOTS_PER_SPACE,
        forall|id: GlobalCapId| #[trigger] doomed(forest, id, a) <==> id == a || id == b,
    ensures
        doomed_count(forest, a, CAP_SLOTS_PER_SPACE as nat, m) == if a.space.0 < m {
            2int
        } else {
            0
        },
    decreases m,
{
    if m > 0 {
        lemma_two_doomed(forest, a, b, (m - 1) as nat);
        let s = m - 1;
        let n = CAP_SLOTS_PER_SPACE as nat;
        if s == a.space.0 {
            assert forall|c: CapId| #[trigger] doomed(
                forest,
                GlobalCapId { space: CapSpaceId(s as u32), cap: c },
                a,
            ) <==> c == a.cap || c == b.cap by {
                let id = GlobalCapId { space: CapSpaceId(s as u32), cap: c };
                assert(doomed(forest, id, a) <==> id == a || id == b);
            }
            lemma_two_slots(forest, s, a, n, a.cap, b.cap);
        } else {
            assert forall|c: CapId| !#[trigger] doomed(
                forest,
                GlobalCapId { space: CapSpaceId(s as u32), cap: c },
                a,
            ) by {
                let id = GlobalCapId { space: CapSpaceId(s as u32), cap: c };
                assert(doomed(forest, id, a) <==> id == a || id == b);
            }
            lemma_no_slots(forest, s, a, n);
        }
    }
}

/// Of two capabilities derived in a row, revoking the first dooms both and nothing else.
proof fn lemma_exactly_two(k: KernelView, ep: CapId)
    requires
        k.wf(),
        forest_sound(k.spaces),
        can_derive_twice(k, ep),
    ensures
        ({
            let cs = k.root.cap_space;
            let table = slot(k.spaces, cs.0)->0;
            let a = GlobalCapId { space: cs, cap: table.free[0] };
            let b = GlobalCapId { space: cs, cap: table.free[1] };
            let f2 = with_table(k.spaces, cs, derived_twice(table, ep));
            &&& a != b
            &&& a.cap.0 < CAP_SLOTS_PER_SPACE && b.cap.0 < CAP_SLOTS_PER_SPACE
            &&& forest_sound(f2)
            &&& entry_at(k.spaces, a) is None && entry_at(k.spaces, b) is None
            &&& entry_at(f2, a) is Some && entry_at(f2, b) is Some
            &&& entry_at(f2, a)->0.cap.rights == CapabilityRights { bits: ALL_BITS }
            &&& forall|id: GlobalCapId|
                id != a && id != b ==> #[trigger] entry_at(f2, id) == entry_at(k.spaces, id)
            &&& forall|id: GlobalCapId| #[trigger] doomed(f2, id, a) <==> id == a || id == b
        }),
{
    let cs = k.root.cap_space;
    let f0 = k.spaces;
    let table = slot(f0, cs.0)->0;
    let a = GlobalCapId { space: cs, cap: table.free[0] };
    let b = GlobalCapId { space: cs, cap: table.free[1] };
    let source = GlobalCapId { space: cs, cap: ep };
    let all = CapabilityRights { bits: ALL_BITS };
    let rw = CapabilityRights { bits: READ_BIT | WRITE_BIT };
    assert(f0[cs.0 as int] == Some(table));
    assert(table.entries[a.cap.0 as int] is None);
    assert(table.entries[b.cap.0 as int] is None);
    assert(a.cap != b.cap);
    assert(0x3fu32 & (0x1u32 | 0x2u32) == (0x1u32 | 0x2u32)) by (bit_vector);

    let cap_a = derived_capability(entry_at(f0, source), all, 0)->Ok_0;
    let entry_a = CapEntry { cap: cap_a, parent: Some(source) };
    let one = table.with_entry(entry_a);
    let f1 = with_table(f0, cs, one);
    deriving_keeps_sound(f0, source, cs, all, 0);
    assert(f1[cs.0 as int] == Some(one));
    assert(one.free[0] == b.cap);
    assert(entry_at(f1, a) == Some(entry_a));

    let cap_b = derived_capability(entry_at(f1, a), rw, 0)->Ok_0;
    let entry_b = CapEntry { cap: cap_b, parent: Some(a) };
    deriving_keeps_sound(f1, a, cs, rw, 0);
    let f2 = with_table(f0, cs, derived_twice(table, ep));
    assert(with_table(f1, cs, one.with_entry(entry_b)) =~= f2);

    assert(doomed(f1, a, a));
    revoking_reaches_the_derived(f1, a, cs, cap_b, a);
    assert forall|id: GlobalCapId| id != a && id != b implies #[trigger] entry_at(f2, id)
        == entry_at(f0, id) by {
        assert(entry_at(f1, id) == entry_at(f0, id));
    }
    assert forall|id: GlobalCapId| #[trigger] doomed(f2, id, a) <==> id == a || id == b by {
        if id != a && id != b && entry_at(f2, id) is Some {
            assert(entry_at(f1, id) == entry_at(f0, id));
            assert(entry_at(f2, id) == entry_at(f0, id));
            deriving_dooms_nothing_else(f1, cs, entry_b, a, id);
            deriving_dooms_nothing_else(f0, cs, entry_a, a, id);
            if descends_from(f0, id, a) {
                let j = choose|j: nat| j >= 1 && #[trigger] ancestor(f0, id, j) == Some(a);
                lemma_ancestors_are_there(f0, id, j);
            }
        }
    }
}

/// Two capabilities are derived in a row and the first is revoked: both were there, exactly two
/// slots are freed, both are gone, and every other capability in every space is as it was.
pub proof fn revocation_removes_exactly_the_subtree(k: KernelView, ep: CapId)
    requires
        k.wf(),
        forest_sound(k.spaces),
        can_derive_twice(k, ep),
        slot(k.tcbs, k.root.thread.0) is Some,
        slot(k.tcbs, k.root.thread.0)->0.cap_space == k.root.cap_space,
    ensures
        revocation_shown(k, ep).1 == (RevocationReport {
            present_before: true,
            freed: 2,
            gone_after: true,
        }),
        forall|id: GlobalCapId| #[trigger]
            entry_at(revocation_shown(k, ep).0.spaces, id) == entry_at(k.spaces, id),
        revocation_shown(k, ep).0 == (KernelView {
            spaces: revocation_shown(k, ep).0.spaces,
            ..k
        }),
{
    lemma_exactly_two(k, ep);
    let cs = k.root.cap_space;
    let table = slot(k.spaces, cs.0)->0;
    let a = GlobalCapId { space: cs, cap: table.free[0] };
    let b = GlobalCapId { space: cs, cap: table.free[1] };
    let f2 = with_table(k.spaces, cs, derived_twice(table, ep));
    let n = CAP_SLOTS_PER_SPACE as nat;
    assert(0x3fu32 & 0x20u32 == 0x20u32) by (bit_vector);
    assert(ALL_BITS & REVOKE_BIT == REVOKE_BIT);
    lemma_two_doomed(f2, a, b, MAX_CAP_SPACES as nat);
    assert forall|s: int| 0 <= s < f2.len() && (
    #[trigger] f2[s]) is Some implies f2[s]->0.entries.len() == n by {
        assert(k.spaces[s] is Some);
    }
    let after = revocation_shown(k, ep).0;
    assert forall|id: GlobalCapId| #[trigger] entry_at(after.spaces, id) == entry_at(
        k.spaces,
        id,
    ) by {
        revoking_frees_exactly_the_subtree(f2, a, n, id);
        assert(doomed(f2, id, a) <==> id == a || id == b);
    }
    let left = slot(after.spaces, cs.0)->0;
    let source = GlobalCapId { space: cs, cap: ep };
    assert(entry_at(after.spaces, a) == left.get(a.cap));
    assert(entry_at(after.spaces, b) == left.get(b.cap));
    assert(entry_at(after.spaces, source) == left.get(ep));
    assert(entry_at(k.spaces, source) is Some);
    assert(entry_at(f2, a) == derived_twice(table, ep).get(a.cap));
    assert(entry_at(f2, b) == derived_twice(table, ep).get(b.cap));
}

} // verus!
