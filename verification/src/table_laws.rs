//! What the kernel's tables are for: what is stored is found again, what is freed is gone, and
//! nothing else is touched on the way.

use crate::capability::{Capability, KernelObjectKind};
use crate::cdt::{
    derive_ensures, empty_table, root_removed, CapEntry, CapTableError, CapTableView, GlobalCapId,
};
use crate::ids::{CapId, CapSpaceId, PageTableId, ThreadId};
use crate::objects::UntypedMemory;
use crate::rights::CapabilityRights;
use crate::state::{
    empty_kernel, first_free, lemma_first_free, object_freed, untyped_bytes, KernelView,
};
use crate::tcb::inactive_tcb;
use vstd::prelude::*;

verus! {

/// A derivation that succeeds stores, in a slot that was empty, a capability to the same object
/// with just the rights asked for, which the parent has; it has the parent's badge if there is
/// one, else the badge given, and is recorded as derived from that parent. No other slot changes.
pub proof fn a_derived_capability_is_a_narrowed_copy(
    parent: Option<CapEntry>,
    parent_id: GlobalCapId,
    rights: CapabilityRights,
    badge: u64,
    before: CapTableView,
    after: CapTableView,
    result: Result<CapId, CapTableError>,
    other: int,
)
    requires
        before.wf(),
        derive_ensures(parent, parent_id, rights, badge, before, after, result),
        result is Ok,
    ensures
        ({
            let id = result->Ok_0;
            let original = parent->0.cap;
            &&& parent is Some
            &&& original.rights.bits & rights.bits == rights.bits
            &&& id.0 < before.entries.len()
            &&& before.entries[id.0 as int] is None
            &&& after.entries[id.0 as int] == Some(
                CapEntry {
                    cap: Capability {
                        object: original.object,
                        rights,
                        badge: if original.badge == 0 {
                            badge
                        } else {
                            original.badge
                        },
                    },
                    parent: Some(parent_id),
                },
            )
            &&& after.entries.len() == before.entries.len()
            &&& 0 <= other < before.entries.len() && other != id.0 ==> after.entries[other]
                == before.entries[other]
            &&& after.space == before.space
        }),
{
    assert(before.entries[before.free[0].0 as int] is None);
}

/// A derivation is refused, with nothing changed, for the first of these that holds: there is no
/// parent, a right asked for is one that it lacks, the badge given is not the one that it has, or
/// the table is full. Otherwise it succeeds.
pub proof fn a_derivation_is_refused_in_order(
    parent: Option<CapEntry>,
    parent_id: GlobalCapId,
    rights: CapabilityRights,
    badge: u64,
    before: CapTableView,
    after: CapTableView,
    result: Result<CapId, CapTableError>,
)
    requires
        before.wf(),
        derive_ensures(parent, parent_id, rights, badge, before, after, result),
    ensures
        ({
            let p = parent->0.cap;
            let widens = p.rights.bits & rights.bits != rights.bits;
            let conflicts = p.badge != 0 && badge != 0 && p.badge != badge;
            let full = forall|i: int|
                0 <= i < before.entries.len() ==> (#[trigger] before.entries[i]) is Some;
            &&& result is Err ==> after == before
            &&& parent is None <==> result == Err::<CapId, CapTableError>(CapTableError::EmptySlot)
            &&& parent is Some && widens <==> result == Err::<CapId, CapTableError>(
                CapTableError::RightsEscalation,
            )
            &&& parent is Some && !widens && conflicts <==> result == Err::<CapId, CapTableError>(
                CapTableError::BadgeConflict,
            )
            &&& parent is Some && !widens && !conflicts && full <==> result == Err::<
                CapId,
                CapTableError,
            >(CapTableError::Full)
        }),
{
    let full = forall|i: int|
        0 <= i < before.entries.len() ==> (#[trigger] before.entries[i]) is Some;
    if before.free.len() > 0 {
        assert(before.entries[before.free[0].0 as int] is None);
    }
    if !full {
        let i = choose|i: int| 0 <= i < before.entries.len() && (#[trigger] before.entries[i]) is None;
        assert(before.free.contains(CapId(i as u32)));
    }
}

/// What is stored in a table stands in a slot that was empty, and what is taken out leaves its
/// slot empty; either way no other slot changes and the table backs the same space. Taking out
/// what was just stored leaves the table as it was.
pub proof fn storing_and_freeing_touch_one_slot(
    table: CapTableView,
    entry: CapEntry,
    id: CapId,
    other: int,
)
    requires
        table.wf(),
        0 <= other < table.entries.len(),
    ensures
        table.free.len() > 0 ==> {
            let stored = table.with_entry(entry);
            let at = table.free[0].0 as int;
            &&& table.entries[at] is None
            &&& stored.entries.len() == table.entries.len()
            &&& stored.entries[at] == Some(entry)
            &&& other != at ==> stored.entries[other] == table.entries[other]
            &&& stored.space == table.space
            &&& stored.without(table.free[0]) == table
        },
        id.0 < table.entries.len() ==> {
            let freed = table.without(id);
            &&& freed.entries.len() == table.entries.len()
            &&& freed.entries[id.0 as int] is None
            &&& other != id.0 ==> freed.entries[other] == table.entries[other]
            &&& freed.free[0] == id
            &&& freed.space == table.space
        },
{
    if table.free.len() > 0 {
        let stored = table.with_entry(entry);
        assert(table.entries[table.free[0].0 as int] is None);
        assert(stored.without(table.free[0]).entries =~= table.entries);
        assert(stored.without(table.free[0]).free =~= table.free);
    }
}

/// A new capability table has no entry, backs the space it was made for, and hands its slots out
/// from the lowest on.
pub proof fn a_new_table_is_empty(n: nat, space: CapSpaceId, i: int)
    requires
        n <= 0x1_0000_0000,
        0 <= i < n,
    ensures
        ({
            let table = empty_table(n, space);
            &&& table.entries.len() == n
            &&& table.entries[i] is None
            &&& table.free.len() == n
            &&& table.free[i].0 == i
            &&& table.space == space
        }),
{
}

/// A kernel without objects has none of any kind, no scratch frames and no bound line, and no slot
/// of its first process is known.
pub proof fn an_empty_kernel_has_no_object(mmio: nat, i: int)
    ensures
        ({
            let k = empty_kernel(mmio);
            let no_cap = 0xffff_ffffu32;
            &&& 0 <= i < k.spaces.len() ==> k.spaces[i] is None
            &&& 0 <= i < k.untyped.len() ==> k.untyped[i] is None
            &&& 0 <= i < k.addr_spaces.len() ==> k.addr_spaces[i] is None
            &&& 0 <= i < k.endpoints.len() ==> k.endpoints[i] is None
            &&& 0 <= i < k.notifications.len() ==> k.notifications[i] is None
            &&& 0 <= i < k.shared_regions.len() ==> k.shared_regions[i] is None
            &&& 0 <= i < k.mmio_regions.len() ==> k.mmio_regions[i] is None
            &&& 0 <= i < k.irq_bindings.len() ==> k.irq_bindings[i] is None
            &&& 0 <= i < k.tcbs.len() ==> k.tcbs[i] is None
            &&& k.mmio_regions.len() == mmio
            &&& k.wf()
            &&& k.map_pool.base == 0 && k.map_pool.len == 0 && k.map_pool.used == 0
            &&& k.root.page_table_cap.0 == no_cap && k.root.mmio_blk_cap.0 == no_cap
                && k.root.mmio_net_cap.0 == no_cap && k.root.untyped_count == 0
        }),
{
}

/// The lowest free slot of a table is free, and there is none below it; a table without one is
/// full.
pub proof fn objects_take_the_lowest_free_slot<T>(table: Seq<Option<T>>, i: int)
    ensures
        first_free(table) matches Some(j) ==> 0 <= j < table.len() && table[j] is None,
        first_free(table) matches Some(j) ==> (0 <= i < j ==> table[i] is Some),
        first_free(table) is None ==> (0 <= i < table.len() ==> table[i] is Some),
{
    lemma_first_free(table, 0);
    if first_free(table) is Some {
        lemma_first_free(table, first_free(table)->0);
    }
}

/// Freeing an object leaves its number without an object, and nothing else changes. A device
/// window is not freed.
pub proof fn freeing_takes_one_object(k: KernelView, kind: KernelObjectKind, id: u32)
    ensures
        ({
            let after = object_freed(k, kind, id);
            &&& kind is UntypedMemory ==> only_freed(k.untyped, after.untyped, id) && after == (
            KernelView { untyped: after.untyped, ..k })
            &&& kind is PageTable ==> only_freed(k.addr_spaces, after.addr_spaces, id) && after == (
            KernelView { addr_spaces: after.addr_spaces, ..k })
            &&& kind is ThreadControlBlock ==> only_freed(k.tcbs, after.tcbs, id) && after == (
            KernelView { tcbs: after.tcbs, ..k })
            &&& kind is Endpoint ==> only_freed(k.endpoints, after.endpoints, id) && after == (
            KernelView { endpoints: after.endpoints, ..k })
            &&& kind is Notification ==> only_freed(k.notifications, after.notifications, id)
                && after == (KernelView { notifications: after.notifications, ..k })
            &&& kind is CapabilitySpace ==> only_freed(k.spaces, after.spaces, id) && after == (
            KernelView { spaces: after.spaces, ..k })
            &&& kind is SharedRegion ==> only_freed(k.shared_regions, after.shared_regions, id)
                && after == (KernelView { shared_regions: after.shared_regions, ..k })
            &&& kind is MmioRegion ==> after == k
        }),
{
}

/// `after` has the objects of `before` but for number `id`.
pub open spec fn only_freed<T>(before: Seq<Option<T>>, after: Seq<Option<T>>, id: u32) -> bool {
    &&& after.len() == before.len()
    &&& id < after.len() ==> after[id as int] is None
    &&& forall|i: int| 0 <= i < before.len() && i != id ==> #[trigger] after[i] == before[i]
}

/// The bytes of untyped memory add up: an object in a free slot adds its size, and without any
/// object there are none.
pub proof fn untyped_memory_adds_up(table: Seq<Option<UntypedMemory>>, i: int, u: UntypedMemory)
    requires
        0 <= i < table.len(),
        table[i] is None,
    ensures
        untyped_bytes(table.update(i, Some(u))) == untyped_bytes(table) + u.size,
        untyped_bytes(table) >= 0,
        (forall|j: int| 0 <= j < table.len() ==> (#[trigger] table[j]) is None) ==> untyped_bytes(
            table,
        ) == 0,
    decreases table.len(),
{
    let more = table.update(i, Some(u));
    lemma_some_bytes(table);
    if i == table.len() - 1 {
        assert(more.drop_last() =~= table.drop_last());
    } else {
        assert(more.drop_last() =~= table.drop_last().update(i, Some(u)));
        untyped_memory_adds_up(table.drop_last(), i, u);
    }
}

proof fn lemma_some_bytes(table: Seq<Option<UntypedMemory>>)
    ensures
        untyped_bytes(table) >= 0,
        (forall|j: int| 0 <= j < table.len() ==> (#[trigger] table[j]) is None) ==> untyped_bytes(
            table,
        ) == 0,
    decreases table.len(),
{
    if table.len() > 0 {
        lemma_some_bytes(table.drop_last());
        if forall|j: int| 0 <= j < table.len() ==> (#[trigger] table[j]) is None {
            assert(table.last() is None);
            assert forall|j: int| 0 <= j < table.len() - 1 implies (
            #[trigger] table.drop_last()[j]) is None by {
                assert(table[j] is None);
            }
        }
    }
}

/// A thread that was never started uses the spaces it was made with and remembers who made it; it
/// has no entry point, no message and no exit.
pub proof fn a_new_thread_is_as_it_was_made(
    id: ThreadId,
    cap_space: CapSpaceId,
    addr_space: PageTableId,
    spawner: Option<ThreadId>,
)
    ensures
        ({
            let t = inactive_tcb(id, cap_space, addr_space, spawner);
            &&& t.id == id
            &&& t.cap_space == cap_space
            &&& t.addr_space == addr_space
            &&& t.spawner == spawner
            &&& t.state is Inactive
            &&& t.entry == 0
            &&& t.pending_msg is None
            &&& t.pending_from is None
            &&& t.exit is None
        }),
{
}

/// A root capability that is taken back is gone. A capability that was derived is not one to be
/// taken back so, nor is an empty slot; then nothing changes. No other slot ever does.
pub proof fn only_roots_are_taken_back(table: CapTableView, id: CapId, other: int)
    requires
        id.0 < table.entries.len(),
        0 <= other < table.entries.len(),
    ensures
        ({
            let after = root_removed(table, id);
            let entry = table.entries[id.0 as int];
            &&& entry is Some && entry->0.parent is None ==> after.entries[id.0 as int] is None
            &&& entry is Some && entry->0.parent is Some ==> after == table
            &&& entry is None ==> after == table
            &&& other != id.0 ==> after.entries[other] == table.entries[other]
        }),
{
}

} // verus!
