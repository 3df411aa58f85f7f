//! The capability derivation tree and its storage.
//!
//! Each capability space is a fixed table of slots with a free list. A slot records the
//! capability it holds and, for a derived capability, which capability it was derived from.
//! A parent link names a space and a slot, so a capability granted into another space stays
//! a child of the one it came from and a revocation reaches it there.

use crate::capability::Capability;
use crate::ids::{CapId, CapSpaceId};
use crate::rights::CapabilityRights;
use vstd::prelude::*;

verus! {

/// Why an operation on a capability table failed.
#[derive(Debug, Clone, Copy, PartialEq, Eq, Structural)]
pub enum CapTableError {
    /// No free slot remains in the table.
    Full,
    /// The slot is outside the table or free.
    EmptySlot,
    /// A derivation asked for a right that the parent lacks.
    RightsEscalation,
    /// A derivation asked for a badge other than the one the parent already carries.
    BadgeConflict,
}

/// One capability slot among all spaces.
#[derive(Debug, Clone, Copy, PartialEq, Eq, Structural)]
pub struct GlobalCapId {
    /// The capability space that holds the slot.
    pub space: CapSpaceId,
    /// The slot within that space.
    pub cap: CapId,
}

impl GlobalCapId {
    /// The slot `cap` of space `space`.
    pub fn new(space: CapSpaceId, cap: CapId) -> (id: Self)
        ensures
            id == (GlobalCapId { space, cap }),
    {
        GlobalCapId { space, cap }
    }
}

/// One slot of a capability table.
#[derive(Debug, Clone, Copy)]
pub struct CapSlot {
    /// The capability held here, or `None` if the slot is free.
    pub cap: Option<Capability>,
    /// The capability this one was derived from, or `None` for a root.
    pub parent: Option<GlobalCapId>,
    /// The next free slot, while this one is free.
    free_next: Option<CapId>,
}

/// What an occupied slot holds.
pub struct CapEntry {
    /// The capability.
    pub cap: Capability,
    /// The capability it was derived from, or `None` for a root.
    pub parent: Option<GlobalCapId>,
}

/// A capability table as a mathematical value.
#[verifier::ext_equal]
pub struct CapTableView {
    /// What each slot holds, `None` for a free slot.
    pub entries: Seq<Option<CapEntry>>,
    /// The free slots, in the order in which they will be handed out.
    pub free: Seq<CapId>,
    /// The capability space that the table backs.
    pub space: CapSpaceId,
}

impl CapTableView {
    /// The free list holds exactly the free slots, each once.
    pub open spec fn wf(self) -> bool {
        &&& self.entries.len() <= 0x1_0000_0000
        &&& self.free.no_duplicates()
        &&& forall|k: int|
            0 <= k < self.free.len() ==> (#[trigger] self.free[k]).0 < self.entries.len()
                && self.entries[self.free[k].0 as int] is None
        &&& forall|i: int|
            0 <= i < self.entries.len() && (#[trigger] self.entries[i]) is None
                ==> self.free.contains(CapId(i as u32))
    }

    /// What the slot `id` holds; nothing for a slot outside the table.
    pub open spec fn get(self, id: CapId) -> Option<CapEntry> {
        if id.0 < self.entries.len() {
            self.entries[id.0 as int]
        } else {
            None
        }
    }

    /// The indices of the occupied slots.
    pub open spec fn occupied_slots(self) -> Set<int> {
        Set::new(|i: int| 0 <= i < self.entries.len() && self.entries[i] is Some)
    }

    /// The table after the first free slot was given `entry`.
    pub open spec fn with_entry(self, entry: CapEntry) -> CapTableView {
        CapTableView {
            entries: self.entries.update(self.free[0].0 as int, Some(entry)),
            free: self.free.skip(1),
            space: self.space,
        }
    }

    /// The table after the occupied slot `id` was freed.
    pub open spec fn without(self, id: CapId) -> CapTableView {
        CapTableView {
            entries: self.entries.update(id.0 as int, None),
            free: seq![id] + self.free,
            space: self.space,
        }
    }

    /// The occupied slots and the free list together make up the table.
    pub proof fn lemma_slots_add_up(self)
        requires
            self.wf(),
        ensures
            self.occupied_slots().finite(),
            self.occupied_slots().len() + self.free.len() == self.entries.len(),
    {
        let all = vstd::set_lib::set_int_range(0, self.entries.len() as int);
        vstd::set_lib::lemma_int_range(0, self.entries.len() as int);
        let indices = self.free.map_values(|c: CapId| c.0 as int);
        assert(indices.no_duplicates());
        indices.unique_seq_to_set();
        let free = indices.to_set();
        let occupied = self.occupied_slots();
        assert(occupied =~= all.difference(free)) by {
            assert forall|i: int| occupied.contains(i) implies all.difference(free).contains(i) by {
                if free.contains(i) {
                    let k = choose|k: int| 0 <= k < indices.len() && indices[k] == i;
                    assert(self.free[k].0 == i);
                }
            }
            assert forall|i: int| all.difference(free).contains(i) implies occupied.contains(i) by {
                if self.entries[i] is None {
                    assert(self.free.contains(CapId(i as u32)));
                    let k = choose|k: int| 0 <= k < self.free.len() && self.free[k] == CapId(i as u32);
                    assert(indices[k] == i);
                }
            }
        }
        assert(free.subset_of(all)) by {
            assert forall|i: int| free.contains(i) implies all.contains(i) by {
                let k = choose|k: int| 0 <= k < indices.len() && indices[k] == i;
                assert(self.free[k].0 == i);
            }
        }
        assert(all.intersect(free) =~= free);
        vstd::set_lib::lemma_set_difference_len(all, free);
    }
}

/// The capability that deriving from `parent` with `rights` and `badge` yields, or why it is
/// refused: a missing parent, then a right the parent lacks, then a badge that conflicts with
/// the parent's.
pub open spec fn derived_capability(
    parent: Option<CapEntry>,
    rights: CapabilityRights,
    badge: u64,
) -> Result<Capability, CapTableError> {
    match parent {
        None => Err(CapTableError::EmptySlot),
        Some(p) => if !p.cap.rights.has_all(rights) {
            Err(CapTableError::RightsEscalation)
        } else if p.cap.badge != 0 && badge != 0 && badge != p.cap.badge {
            Err(CapTableError::BadgeConflict)
        } else {
            Ok(
                Capability {
                    object: p.cap.object,
                    rights,
                    badge: if p.cap.badge != 0 {
                        p.cap.badge
                    } else {
                        badge
                    },
                },
            )
        },
    }
}

/// The table after the root capability at `id`, if there is one, was taken back.
pub open spec fn root_removed(table: CapTableView, id: CapId) -> CapTableView {
    if table.get(id) is Some && table.get(id)->0.parent is None {
        table.without(id)
    } else {
        table
    }
}

/// A table of `n` free slots that will be handed out in order.
pub open spec fn empty_table(n: nat, space: CapSpaceId) -> CapTableView {
    CapTableView {
        entries: Seq::new(n, |i: int| None),
        free: Seq::new(n, |i: int| CapId(i as u32)),
        space,
    }
}

/// A capability space of `N` slots.
pub struct CapTable<const N: usize> {
    slots: [CapSlot; N],
    /// Head of the free list, `None` when the table is full.
    free_head: Option<CapId>,
    /// Number of occupied slots.
    occupied: usize,
    /// The capability space this table backs.
    space_id: CapSpaceId,
    /// The free list from its head on.
    free: Ghost<Seq<CapId>>,
}

impl<const N: usize> View for CapTable<N> {
    type V = CapTableView;

    closed spec fn view(&self) -> CapTableView {
        CapTableView {
            entries: Seq::new(N as nat, |i: int| slot_entry(self.slots@[i])),
            free: self.free@,
            space: self.space_id,
        }
    }
}

spec fn slot_entry(slot: CapSlot) -> Option<CapEntry> {
    match slot.cap {
        Some(cap) => Some(CapEntry { cap, parent: slot.parent }),
        None => None,
    }
}

impl<const N: usize> CapTable<N> {
    /// The table is well-formed: the linked free list runs through exactly the free slots,
    /// a free slot has no parent link, and the occupancy count is right.
    pub closed spec fn wf(&self) -> bool {
        &&& self@.wf()
        &&& self.occupied + self.free@.len() == N
        &&& self.free_head == if self.free@.len() == 0 {
            None
        } else {
            Some(self.free@[0])
        }
        &&& forall|k: int|
            0 <= k < self.free@.len() ==> {
                let slot = self.slots@[(#[trigger] self.free@[k]).0 as int];
                &&& slot.parent is None
                &&& slot.free_next == if k + 1 < self.free@.len() {
                    Some(self.free@[k + 1])
                } else {
                    None
                }
            }
    }

    /// A well-formed table has a well-formed view with `N` slots.
    pub proof fn lemma_view_wf(&self)
        requires
            self.wf(),
        ensures
            self@.wf(),
            self@.entries.len() == N,
    {
    }

    /// An empty table for the capability space `space_id`. Slots are handed out from `0` up.
    /// A table has at most as many slots as a `CapId` can number.
    pub fn new(space_id: CapSpaceId) -> (t: Self)
        ensures
            N <= 0x1_0000_0000 ==> t.wf() && t@ == empty_table(N as nat, space_id),
    {
        let mut slots: [CapSlot; N] = [CapSlot { cap: None, parent: None, free_next: None };N];
        let mut i: usize = 0;
        while i < N
            invariant
                i <= N,
                forall|j: int|
                    0 <= j < N ==> (#[trigger] slots@[j]).cap is None && slots@[j].parent is None,
                forall|j: int|
                    0 <= j < i ==> (#[trigger] slots@[j]).free_next == if j + 1 < N {
                        Some(CapId((j + 1) as u32))
                    } else {
                        None
                    },
            decreases N - i,
        {
            slots[i].free_next = if i + 1 < N {
                Some(CapId::new(#[verifier::truncate] ((i + 1) as u32)))
            } else {
                None
            };
            i = i + 1;
        }
        let ghost free = Seq::new(N as nat, |i: int| CapId(i as u32));
        let t = CapTable {
            slots,
            free_head: if N > 0 {
                Some(CapId::new(0))
            } else {
                None
            },
            occupied: 0,
            space_id,
            free: Ghost(free),
        };
        proof {
            assert(t@.entries =~= empty_table(N as nat, space_id).entries);
            assert forall|i: int|
                0 <= i < t@.entries.len() && (#[trigger] t@.entries[i]) is None implies t@.free.contains(
                CapId(i as u32),
            ) by {
                assert(t@.free[i] == CapId(i as u32));
            }
        }
        t
    }

    /// The capability space this table backs.
    pub fn space_id(&self) -> (id: CapSpaceId)
        ensures
            id == self@.space,
    {
        self.space_id
    }

    /// The occupied slots and the free list together make up the table.
    proof fn lemma_occupied(&self)
        requires
            self.wf(),
        ensures
            self@.occupied_slots().finite(),
            self@.occupied_slots().len() == self.occupied,
    {
        self@.lemma_slots_add_up();
    }

    /// Number of occupied slots.
    pub fn len(&self) -> (n: usize)
        requires
            self.wf(),
        ensures
            self@.occupied_slots().finite(),
            n == self@.occupied_slots().len(),
    {
        proof {
            self.lemma_occupied();
        }
        self.occupied
    }

    /// Whether no slot is occupied.
    pub fn is_empty(&self) -> (r: bool)
        requires
            self.wf(),
        ensures
            r <==> forall|i: int| 0 <= i < self@.entries.len() ==> self@.entries[i] is None,
    {
        proof {
            self.lemma_occupied();
            let occupied = self@.occupied_slots();
            if self.occupied == 0 {
                assert forall|i: int| 0 <= i < self@.entries.len() implies self@.entries[i] is None by {
                    assert(!occupied.contains(i));
                }
            } else {
                let i = occupied.choose();
                assert(occupied.contains(i));
                assert(self@.entries[i] is Some);
            }
        }
        self.occupied == 0
    }

    /// Whether every slot is occupied.
    pub fn is_full(&self) -> (r: bool)
        requires
            self.wf(),
        ensures
            r <==> self@.free.len() == 0,
            r <==> forall|i: int| 0 <= i < self@.entries.len() ==> self@.entries[i] is Some,
    {
        proof {
            if self.free@.len() > 0 {
                assert(self@.entries[self@.free[0].0 as int] is None);
            } else {
                assert forall|i: int| 0 <= i < self@.entries.len() implies self@.entries[i] is Some by {
                    assert(self@.entries[i] is None ==> self@.free.contains(CapId(i as u32)));
                }
            }
        }
        self.free_head.is_none()
    }

    /// The capability at `id`, or `None` if `id` is outside the table or names a free slot.
    pub fn lookup(&self, id: CapId) -> (r: Option<&Capability>)
        requires
            self.wf(),
        ensures
            match r {
                Some(cap) => self@.get(id) is Some && self@.get(id)->0.cap == *cap,
                None => self@.get(id) is None,
            },
    {
        let i = id.as_usize();
        if i < N {
            self.slots[i].cap.as_ref()
        } else {
            None
        }
    }

    /// Mutable access to the capability at `id`. The slot's parent link, the other slots and
    /// the free list stay as they are whatever is written.
    pub fn lookup_mut(&mut self, id: CapId) -> (r: Option<&mut Capability>)
        requires
            old(self).wf(),
        ensures
            final(self).wf(),
            match r {
                Some(cap) => {
                    &&& old(self)@.get(id) is Some
                    &&& *cap == old(self)@.get(id)->0.cap
                    &&& final(self)@ == (CapTableView {
                        entries: old(self)@.entries.update(
                            id.0 as int,
                            Some(CapEntry { cap: *final(cap), parent: old(self)@.get(id)->0.parent }),
                        ),
                        ..old(self)@
                    })
                },
                None => old(self)@.get(id) is None && final(self)@ == old(self)@,
            },
    {
        let i = id.as_usize();
        if i < N {
            let ghost before = self@;
            let ghost after = final(self)@;
            let ghost was = *self;
            let ghost will = *final(self);
            match &mut self.slots[i].cap {
                Some(cap) => {
                    proof {
                        assert(after.entries =~= before.entries.update(
                            i as int,
                            Some(
                                CapEntry { cap: *final(cap), parent: before.entries[i as int]->0.parent },
                            ),
                        ));
                        assert forall|j: int| 0 <= j < after.entries.len() && (
                        #[trigger] after.entries[j]) is None implies after.free.contains(
                            CapId(j as u32),
                        ) by {
                            assert(before.entries[j] is None);
                        }
                        assert forall|k: int| 0 <= k < will.free@.len() implies will.slots@[(
                        #[trigger] will.free@[k]).0 as int] == was.slots@[will.free@[k].0 as int] by {
                            assert(was.free@[k] == will.free@[k]);
                            assert(before.entries[before.free[k].0 as int] is None);
                        }
                    }
                    Some(cap)
                },
                None => {
                    assert(will.slots@ =~= was.slots@);
                    None
                },
            }
        } else {
            None
        }
    }

    /// The parent link stored at `id`; `None` if `id` is outside the table, free or a root.
    fn parent_of(&self, id: CapId) -> (r: Option<GlobalCapId>)
        requires
            self.wf(),
        ensures
            r == match self@.get(id) {
                Some(e) => e.parent,
                None => None,
            },
    {
        let i = id.as_usize();
        if i < N {
            proof {
                if self@.entries[i as int] is None {
                    assert(self@.free.contains(CapId(i as u32)));
                }
            }
            self.slots[i].parent
        } else {
            None
        }
    }

    /// Takes the first free slot and stores `cap` in it, derived from `parent`.
    fn alloc_slot(&mut self, cap: Capability, parent: Option<GlobalCapId>) -> (r: Result<
        CapId,
        CapTableError,
    >)
        requires
            old(self).wf(),
        ensures
            final(self).wf(),
            match r {
                Ok(id) => {
                    &&& old(self)@.free.len() > 0
                    &&& id == old(self)@.free[0]
                    &&& final(self)@ == old(self)@.with_entry(CapEntry { cap, parent })
                },
                Err(e) => {
                    &&& e == CapTableError::Full
                    &&& old(self)@.free.len() == 0
                    &&& *final(self) == *old(self)
                },
            },
    {
        let id = match self.free_head {
            Some(id) => id,
            None => {
                return Err(CapTableError::Full);
            },
        };
        let i = id.as_usize();
        self.free_head = self.slots[i].free_next;
        self.slots[i] = CapSlot { cap: Some(cap), parent, free_next: None };
        self.occupied = self.occupied + 1;
        self.free = Ghost(self.free@.skip(1));
        proof {
            let before = old(self)@;
            assert(self@.entries =~= before.with_entry(CapEntry { cap, parent }).entries);
            assert forall|j: int| 0 <= j < self@.entries.len() && (
            #[trigger] self@.entries[j]) is None implies self@.free.contains(CapId(j as u32)) by {
                assert(before.entries[j] is None);
                let k = choose|k: int| 0 <= k < before.free.len() && before.free[k] == CapId(j as u32);
                assert(self@.free[k - 1] == CapId(j as u32));
            }
            assert forall|k: int| 0 <= k < self@.free.len() implies {
                &&& (#[trigger] self@.free[k]).0 < self@.entries.len()
                &&& self@.entries[self@.free[k].0 as int] is None
            } by {
                assert(self@.free[k] == before.free[k + 1]);
            }
            assert forall|k: int| 0 <= k < self.free@.len() implies {
                let slot = self.slots@[(#[trigger] self.free@[k]).0 as int];
                &&& slot.parent is None
                &&& slot.free_next == if k + 1 < self.free@.len() {
                    Some(self.free@[k + 1])
                } else {
                    None
                }
            } by {
                assert(self.free@[k] == before.free[k + 1]);
            }
        }
        Ok(id)
    }

    /// Frees the occupied slot `id`. It becomes the next slot to be handed out.
    fn free_slot(&mut self, id: CapId)
        requires
            old(self).wf(),
            old(self)@.get(id) is Some,
        ensures
            final(self).wf(),
            final(self)@ == old(self)@.without(id),
    {
        proof {
            self.lemma_occupied();
            assert(self@.occupied_slots().contains(id.0 as int));
        }
        let i = id.as_usize();
        self.slots[i] = CapSlot { cap: None, parent: None, free_next: self.free_head };
        self.free_head = Some(id);
        self.occupied = self.occupied - 1;
        self.free = Ghost(seq![id] + self.free@);
        proof {
            let before = old(self)@;
            assert(self@.entries =~= before.without(id).entries);
            assert forall|j: int| 0 <= j < self@.entries.len() && (
            #[trigger] self@.entries[j]) is None implies self@.free.contains(CapId(j as u32)) by {
                if j == i {
                    assert(self@.free[0] == CapId(j as u32));
                } else {
                    assert(before.entries[j] is None);
                    let k = choose|k: int|
                        0 <= k < before.free.len() && before.free[k] == CapId(j as u32);
                    assert(self@.free[k + 1] == CapId(j as u32));
                }
            }
            assert forall|k: int| 0 <= k < self.free@.len() implies {
                &&& (#[trigger] self.free@[k]).0 < self@.entries.len()
                &&& self@.entries[self.free@[k].0 as int] is None
                &&& self.slots@[self.free@[k].0 as int].parent is None
                &&& self.slots@[self.free@[k].0 as int].free_next == if k + 1 < self.free@.len() {
                    Some(self.free@[k + 1])
                } else {
                    None
                }
            } by {
                if k > 0 {
                    assert(self.free@[k] == before.free[k - 1]);
                }
            }
            assert(self.free@.no_duplicates()) by {
                assert forall|k: int| 0 <= k < before.free.len() implies before.free[k] != id by {
                    assert(before.entries[before.free[k].0 as int] is None);
                }
            }
        }
    }

    /// Stores a root capability, one derived from nothing.
    pub fn insert_root(&mut self, cap: Capability) -> (r: Result<CapId, CapTableError>)
        requires
            old(self).wf(),
        ensures
            final(self).wf(),
            match r {
                Ok(id) => {
                    &&& old(self)@.free.len() > 0
                    &&& id == old(self)@.free[0]
                    &&& final(self)@ == old(self)@.with_entry(CapEntry { cap, parent: None })
                },
                Err(e) => {
                    &&& e == CapTableError::Full
                    &&& old(self)@.free.len() == 0
                    &&& final(self)@ == old(self)@
                },
            },
    {
        self.alloc_slot(cap, None)
    }

    /// Takes back a root capability: frees the slot `id` if a root is stored there, and
    /// leaves the table alone otherwise.
    pub fn remove_root(&mut self, id: CapId)
        requires
            old(self).wf(),
        ensures
            final(self).wf(),
            final(self)@ == root_removed(old(self)@, id),
    {
        if self.lookup(id).is_some() && self.parent_of(id).is_none() {
            self.free_slot(id);
        }
    }

    /// Stores the capability derived from `parent_cap`, which stands at `parent_global`.
    fn insert_derived(
        dst: &mut Self,
        parent_cap: Capability,
        parent_global: GlobalCapId,
        rights: CapabilityRights,
        badge: u64,
    ) -> (r: Result<CapId, CapTableError>)
        requires
            old(dst).wf(),
        ensures
            final(dst).wf(),
            derive_ensures(
                Some(CapEntry { cap: parent_cap, parent: None }),
                parent_global,
                rights,
                badge,
                old(dst)@,
                final(dst)@,
                r,
            ),
    {
        if !rights.is_subset_of(parent_cap.rights) {
            return Err(CapTableError::RightsEscalation);
        }
        let effective_badge: u64 = if parent_cap.badge != 0 {
            if badge != 0 && badge != parent_cap.badge {
                return Err(CapTableError::BadgeConflict);
            }
            parent_cap.badge
        } else {
            badge
        };
        dst.alloc_slot(
            Capability { object: parent_cap.object, rights, badge: effective_badge },
            Some(parent_global),
        )
    }

    /// Derives a capability from `parent` in this same table, narrowed to `rights` and
    /// stamped with `badge` unless the parent already carries a badge.
    pub fn derive_child(&mut self, parent: CapId, rights: CapabilityRights, badge: u64) -> (r: Result<
        CapId,
        CapTableError,
    >)
        requires
            old(self).wf(),
        ensures
            final(self).wf(),
            derive_ensures(
                old(self)@.get(parent),
                GlobalCapId { space: old(self)@.space, cap: parent },
                rights,
                badge,
                old(self)@,
                final(self)@,
                r,
            ),
    {
        let parent_cap = match self.lookup(parent) {
            Some(cap) => *cap,
            None => {
                return Err(CapTableError::EmptySlot);
            },
        };
        let parent_global = GlobalCapId::new(self.space_id, parent);
        Self::insert_derived(self, parent_cap, parent_global, rights, badge)
    }
}

/// What a derivation from `parent`, standing at `parent_id`, does to the table it stores the
/// child in: on success the first free slot holds the derived capability with a link to its
/// parent; a refusal leaves the table as it was.
pub open spec fn derive_ensures(
    parent: Option<CapEntry>,
    parent_id: GlobalCapId,
    rights: CapabilityRights,
    badge: u64,
    before: CapTableView,
    after: CapTableView,
    result: Result<CapId, CapTableError>,
) -> bool {
    match derived_capability(parent, rights, badge) {
        Err(e) => result == Err::<CapId, CapTableError>(e) && after == before,
        Ok(cap) => if before.free.len() == 0 {
            result == Err::<CapId, CapTableError>(CapTableError::Full) && after == before
        } else {
            &&& result == Ok::<CapId, CapTableError>(before.free[0])
            &&& after == before.with_entry(CapEntry { cap, parent: Some(parent_id) })
        },
    }
}

impl<const N: usize> Default for CapTable<N> {
    /// An empty table for capability space `0`, where `N` slots can be numbered.
    fn default() -> (t: Self)
        ensures
            N <= 0x1_0000_0000 ==> t.wf() && t@ == empty_table(N as nat, CapSpaceId(0)),
    {
        Self::new(CapSpaceId::new(0))
    }
}

/// Derives a capability from `parent` in `src`, the table of space `src_space`, into `dst`,
/// the table of another space. `src` is only read.
pub fn derive_child_cross_space<const N: usize>(
    src: &CapTable<N>,
    src_space: CapSpaceId,
    parent: CapId,
    dst: &mut CapTable<N>,
    rights: CapabilityRights,
    badge: u64,
) -> (r: Result<CapId, CapTableError>)
    requires
        src.wf(),
        old(dst).wf(),
    ensures
        final(dst).wf(),
        derive_ensures(
            src@.get(parent),
            GlobalCapId { space: src_space, cap: parent },
            rights,
            badge,
            old(dst)@,
            final(dst)@,
            r,
        ),
{
    let parent_cap = match src.lookup(parent) {
        Some(cap) => *cap,
        None => {
            return Err(CapTableError::EmptySlot);
        },
    };
    let parent_global = GlobalCapId::new(src_space, parent);
    CapTable::<N>::insert_derived(dst, parent_cap, parent_global, rights, badge)
}

/// The capability tables of all spaces, indexed by space id.
pub type Forest = Seq<Option<CapTableView>>;

/// The forest that an array of tables makes up.
pub open spec fn forest_of<const N: usize>(tables: Seq<Option<CapTable<N>>>) -> Forest {
    Seq::new(
        tables.len(),
        |s: int|
            match tables[s] {
                Some(table) => Some(table@),
                None => None,
            },
    )
}

/// Every table in the array is well-formed.
pub open spec fn tables_wf<const N: usize>(tables: Seq<Option<CapTable<N>>>) -> bool {
    forall|s: int| 0 <= s < tables.len() && (#[trigger] tables[s]) is Some ==> tables[s]->0.wf()
}

/// What stands at `id`; nothing for a space or a slot that does not exist.
pub open spec fn entry_at(forest: Forest, id: GlobalCapId) -> Option<CapEntry> {
    if id.space.0 < forest.len() {
        match forest[id.space.0 as int] {
            Some(table) => table.get(id.cap),
            None => None,
        }
    } else {
        None
    }
}

/// The capability that the one at `id` was derived from.
pub open spec fn parent_at(forest: Forest, id: GlobalCapId) -> Option<GlobalCapId> {
    match entry_at(forest, id) {
        Some(entry) => entry.parent,
        None => None,
    }
}

/// Where following `k` parent links from `id` leads.
pub open spec fn ancestor(forest: Forest, id: GlobalCapId, k: nat) -> Option<GlobalCapId>
    decreases k,
{
    if k == 0 {
        Some(id)
    } else {
        match ancestor(forest, id, (k - 1) as nat) {
            Some(below) => parent_at(forest, below),
            None => None,
        }
    }
}

/// `id` was derived from `target`, through any number of derivations.
pub open spec fn descends_from(forest: Forest, id: GlobalCapId, target: GlobalCapId) -> bool {
    exists|k: nat| k >= 1 && #[trigger] ancestor(forest, id, k) == Some(target)
}

/// `id` holds `target` or a capability that descends from it.
pub open spec fn doomed(forest: Forest, id: GlobalCapId, target: GlobalCapId) -> bool {
    entry_at(forest, id) is Some && (id == target || descends_from(forest, id, target))
}

/// The slots below `n` of space `space` that a revocation of `target` frees, highest first.
pub open spec fn doomed_slots(forest: Forest, space: int, target: GlobalCapId, n: nat) -> Seq<CapId>
    decreases n,
{
    if n == 0 {
        seq![]
    } else {
        let below = doomed_slots(forest, space, target, (n - 1) as nat);
        let id = GlobalCapId { space: CapSpaceId(space as u32), cap: CapId((n - 1) as u32) };
        if doomed(forest, id, target) {
            seq![id.cap] + below
        } else {
            below
        }
    }
}

/// The number of slots that a revocation of `target` frees in the first `m` spaces.
pub open spec fn doomed_count(forest: Forest, target: GlobalCapId, n: nat, m: nat) -> nat
    decreases m,
{
    if m == 0 {
        0
    } else {
        doomed_count(forest, target, n, (m - 1) as nat) + doomed_slots(
            forest,
            m - 1,
            target,
            n,
        ).len()
    }
}

/// The forest after `target` and everything derived from it was revoked: exactly the doomed
/// slots are free, and they will be handed out again before the slots that were free already.
pub open spec fn revoked_forest(forest: Forest, target: GlobalCapId, n: nat) -> Forest {
    Seq::new(
        forest.len(),
        |s: int|
            match forest[s] {
                Some(table) => Some(revoked_table(forest, s, table, target, n)),
                None => None,
            },
    )
}

/// One table of `revoked_forest`, with the first `n` slots handled.
pub open spec fn revoked_table(
    forest: Forest,
    space: int,
    table: CapTableView,
    target: GlobalCapId,
    n: nat,
) -> CapTableView {
    CapTableView {
        entries: Seq::new(
            table.entries.len(),
            |i: int|
                {
                    let id = GlobalCapId { space: CapSpaceId(space as u32), cap: CapId(i as u32) };
                    if i < n && doomed(forest, id, target) {
                        None
                    } else {
                        table.entries[i]
                    }
                },
        ),
        free: doomed_slots(forest, space, target, n) + table.free,
        space: table.space,
    }
}

/// If two ancestors of `id` are the same, so are those the same number of links further up.
proof fn lemma_ancestor_shift(forest: Forest, id: GlobalCapId, i: nat, j: nat, d: nat)
    requires
        ancestor(forest, id, i) == ancestor(forest, id, j),
    ensures
        ancestor(forest, id, i + d) == ancestor(forest, id, j + d),
    decreases d,
{
    if d > 0 {
        lemma_ancestor_shift(forest, id, i, j, (d - 1) as nat);
    }
}

/// In a chain that repeats itself within `j` links, every ancestor occurs within `j` links.
proof fn lemma_cycle_covers(forest: Forest, id: GlobalCapId, i: nat, j: nat, k: nat) -> (m: nat)
    requires
        i < j,
        ancestor(forest, id, i) == ancestor(forest, id, j),
        k >= 1,
    ensures
        1 <= m <= j,
        ancestor(forest, id, m) == ancestor(forest, id, k),
    decreases k,
{
    if k <= j {
        k
    } else {
        lemma_ancestor_shift(forest, id, i, j, (k - j) as nat);
        lemma_cycle_covers(forest, id, i, j, (k - (j - i)) as nat)
    }
}

/// Among `n + 1` numbers below `n` two are equal.
proof fn lemma_pigeonhole(s: Seq<int>, n: nat)
    requires
        s.len() == n + 1,
        forall|i: int| 0 <= i < s.len() ==> 0 <= #[trigger] s[i] < n,
    ensures
        exists|i: int, j: int| 0 <= i < j < s.len() && s[i] == s[j],
{
    if forall|i: int, j: int| 0 <= i < j < s.len() ==> s[i] != s[j] {
        assert(s.no_duplicates());
        s.unique_seq_to_set();
        vstd::set_lib::lemma_int_range(0, n as int);
        assert(s.to_set().subset_of(vstd::set_lib::set_int_range(0, n as int)));
        vstd::set_lib::lemma_len_subset(s.to_set(), vstd::set_lib::set_int_range(0, n as int));
    }
}

/// Ancestors below an existing one exist.
proof fn lemma_ancestors_below(forest: Forest, id: GlobalCapId, k: nat, j: nat)
    requires
        j <= k,
        ancestor(forest, id, k) is Some,
    ensures
        ancestor(forest, id, j) is Some,
    decreases k,
{
    if j < k {
        lemma_ancestors_below(forest, id, (k - 1) as nat, j);
    }
}

/// Every ancestor is met within as many links as there are slots: a longer chain of links
/// visits some slot twice.
proof fn lemma_chain_bounded(forest: Forest, id: GlobalCapId, target: GlobalCapId, n: nat)
    requires
        forall|s: int|
            0 <= s < forest.len() && (#[trigger] forest[s]) is Some ==> forest[s]->0.entries.len()
                == n,
        descends_from(forest, id, target),
    ensures
        exists|k: nat|
            1 <= k <= forest.len() * n + 1 && #[trigger] ancestor(forest, id, k) == Some(target),
{
    let total = forest.len() * n;
    let k = choose|k: nat| k >= 1 && #[trigger] ancestor(forest, id, k) == Some(target);
    if k > total + 1 {
        let flat = Seq::new(
            total + 1,
            |i: int|
                {
                    let a = ancestor(forest, id, i as nat)->0;
                    a.space.0 * n + a.cap.0
                },
        );
        assert forall|i: int| 0 <= i < flat.len() implies 0 <= #[trigger] flat[i] < total by {
            lemma_ancestors_below(forest, id, k, (i + 1) as nat);
            lemma_ancestors_below(forest, id, k, i as nat);
            let a = ancestor(forest, id, i as nat)->0;
            assert(parent_at(forest, a) is Some);
            let s = a.space.0 as int;
            assert(forest[s] is Some);
            let len = forest.len() as int;
            let c = a.cap.0 as int;
            assert(0 <= s * n + c < len * n) by (nonlinear_arith)
                requires
                    0 <= s < len,
                    0 <= c < n,
            ;
        }
        lemma_pigeonhole(flat, total);
        let (i, j) = choose|i: int, j: int| 0 <= i < j < flat.len() && flat[i] == flat[j];
        lemma_ancestors_below(forest, id, k, (i + 1) as nat);
        lemma_ancestors_below(forest, id, k, i as nat);
        lemma_ancestors_below(forest, id, k, (j + 1) as nat);
        lemma_ancestors_below(forest, id, k, j as nat);
        let a = ancestor(forest, id, i as nat)->0;
        let b = ancestor(forest, id, j as nat)->0;
        assert(parent_at(forest, a) is Some && parent_at(forest, b) is Some);
        assert(forest[a.space.0 as int] is Some && forest[b.space.0 as int] is Some);
        let (sa, ca, sb, cb) = (a.space.0 as int, a.cap.0 as int, b.space.0 as int, b.cap.0 as int);
        assert(sa == sb && ca == cb) by (nonlinear_arith)
            requires
                sa * n + ca == sb * n + cb,
                0 <= ca < n,
                0 <= cb < n,
        ;
        assert(a == b);
        let m = lemma_cycle_covers(forest, id, i as nat, j as nat, k);
        assert(ancestor(forest, id, m) == Some(target));
    }
}

/// Whether following the parent link of `start`, and that of its parent, and so on, leads to
/// `target`. The walk is bounded by the number of slots, which no chain of links without a
/// repetition can exceed.
fn is_descendant_of<const N: usize, const M: usize>(
    tables: &[Option<CapTable<N>>; M],
    start: GlobalCapId,
    target: GlobalCapId,
) -> (r: bool)
    requires
        tables_wf(tables@),
        M * N < usize::MAX,
    ensures
        r == descends_from(forest_of(tables@), start, target),
{
    let ghost forest = forest_of(tables@);
    let mut cur = start;
    let mut step: usize = 0;
    while step < M * N + 1
        invariant
            tables_wf(tables@),
            M * N < usize::MAX,
            step <= M * N + 1,
            forest == forest_of(tables@),
            ancestor(forest, start, step as nat) == Some(cur),
            forall|k: nat| 1 <= k <= step ==> #[trigger] ancestor(forest, start, k) != Some(target),
        decreases M * N + 1 - step,
    {
        let s = cur.space.as_usize();
        let parent = if s < M {
            match &tables[s] {
                Some(table) => table.parent_of(cur.cap),
                None => None,
            }
        } else {
            None
        };
        assert(parent == parent_at(forest, cur));
        assert(parent == ancestor(forest, start, (step + 1) as nat));
        match parent {
            Some(p) => {
                if p == target {
                    return true;
                }
                cur = p;
            },
            None => {
                proof {
                    assert forall|k: nat| k >= 1 implies #[trigger] ancestor(forest, start, k) != Some(
                        target,
                    ) by {
                        if k > step {
                            if ancestor(forest, start, k) is Some {
                                lemma_ancestors_below(forest, start, k, (step + 1) as nat);
                            }
                        }
                    }
                }
                return false;
            },
        }
        step = step + 1;
    }
    proof {
        if descends_from(forest, start, target) {
            assert forall|s: int| 0 <= s < forest.len() && (#[trigger] forest[s]) is Some implies forest[s]->0.entries.len()
                == N by {
                assert(tables@[s] is Some);
                tables@[s]->0.lemma_view_wf();
            }
            lemma_chain_bounded(forest, start, target, N as nat);
        }
    }
    false
}

/// The forest in the middle of a revocation: spaces below `space` are done, the first `n`
/// slots of `space` are done, the rest is untouched.
spec fn partly_revoked(
    forest: Forest,
    target: GlobalCapId,
    slots: nat,
    space: int,
    n: nat,
) -> Forest {
    Seq::new(
        forest.len(),
        |s: int|
            match forest[s] {
                Some(table) => Some(
                    if s < space {
                        revoked_table(forest, s, table, target, slots)
                    } else if s == space {
                        revoked_table(forest, s, table, target, n)
                    } else {
                        table
                    },
                ),
                None => None,
            },
    )
}

/// A table of which no slot was handled yet is as it was.
proof fn lemma_revoked_table_start(
    forest: Forest,
    space: int,
    table: CapTableView,
    target: GlobalCapId,
)
    ensures
        revoked_table(forest, space, table, target, 0) == table,
{
    let start = revoked_table(forest, space, table, target, 0);
    assert(start.entries =~= table.entries);
    assert(start.free =~= table.free);
}

/// Handling one more slot frees it if it is doomed and changes nothing otherwise.
proof fn lemma_revoked_table_step(
    forest: Forest,
    space: int,
    table: CapTableView,
    target: GlobalCapId,
    n: nat,
)
    requires
        n < table.entries.len() <= 0x1_0000_0000,
    ensures
        ({
            let id = GlobalCapId { space: CapSpaceId(space as u32), cap: CapId(n as u32) };
            let before = revoked_table(forest, space, table, target, n);
            revoked_table(forest, space, table, target, n + 1) == if doomed(forest, id, target) {
                before.without(id.cap)
            } else {
                before
            }
        }),
{
    let id = GlobalCapId { space: CapSpaceId(space as u32), cap: CapId(n as u32) };
    let before = revoked_table(forest, space, table, target, n);
    let after = revoked_table(forest, space, table, target, n + 1);
    if doomed(forest, id, target) {
        assert(after.entries =~= before.without(id.cap).entries);
        assert(after.free =~= before.without(id.cap).free);
    } else {
        assert(after.entries =~= before.entries);
        assert(after.free =~= before.free);
    }
}

/// At most `n` of the first `n` slots are doomed.
proof fn lemma_doomed_slots_len(forest: Forest, space: int, target: GlobalCapId, n: nat)
    ensures
        doomed_slots(forest, space, target, n).len() <= n,
    decreases n,
{
    if n > 0 {
        lemma_doomed_slots_len(forest, space, target, (n - 1) as nat);
    }
}

/// The more slots are looked at, the more are doomed.
proof fn lemma_doomed_slots_grow(
    forest: Forest,
    space: int,
    target: GlobalCapId,
    few: nat,
    many: nat,
)
    requires
        few <= many,
    ensures
        doomed_slots(forest, space, target, few).len() <= doomed_slots(
            forest,
            space,
            target,
            many,
        ).len(),
    decreases many,
{
    if few < many {
        lemma_doomed_slots_grow(forest, space, target, few, (many - 1) as nat);
    }
}

/// The more spaces are looked at, the more slots are doomed.
proof fn lemma_doomed_count_grows(
    forest: Forest,
    target: GlobalCapId,
    n: nat,
    few: nat,
    many: nat,
)
    requires
        few <= many,
    ensures
        doomed_count(forest, target, n, few) <= doomed_count(forest, target, n, many),
    decreases many,
{
    if few < many {
        lemma_doomed_count_grows(forest, target, n, few, (many - 1) as nat);
    }
}

/// At most `m * n` slots of the first `m` spaces are doomed.
pub proof fn lemma_doomed_count_bound(forest: Forest, target: GlobalCapId, n: nat, m: nat)
    ensures
        doomed_count(forest, target, n, m) <= m * n,
    decreases m,
{
    if m > 0 {
        lemma_doomed_count_bound(forest, target, n, (m - 1) as nat);
        lemma_doomed_slots_len(forest, m - 1, target, n);
        assert((m - 1) * n + n == m * n) by (nonlinear_arith);
    }
}

/// Revokes the capability at `target` and every capability derived from it, in whichever of
/// the spaces it stands, and returns how many slots that freed. The tables are indexed by
/// space id.
pub fn revoke_cross_space<const N: usize, const M: usize>(
    tables: &mut [Option<CapTable<N>>; M],
    target: GlobalCapId,
) -> (r: Result<u32, CapTableError>)
    requires
        tables_wf(old(tables)@),
        M * N < usize::MAX,
        M <= 0x1_0000_0000,
        doomed_count(forest_of(old(tables)@), target, N as nat, M as nat) <= u32::MAX,
    ensures
        tables_wf(final(tables)@),
        ({
            let forest = forest_of(old(tables)@);
            match r {
                Ok(freed) => {
                    &&& entry_at(forest, target) is Some
                    &&& forest_of(final(tables)@) == revoked_forest(forest, target, N as nat)
                    &&& freed == doomed_count(forest, target, N as nat, M as nat)
                },
                Err(e) => {
                    &&& e == CapTableError::EmptySlot
                    &&& entry_at(forest, target) is None
                    &&& forest_of(final(tables)@) == forest
                },
            }
        }),
{
    let ghost forest = forest_of(tables@);
    let s = target.space.as_usize();
    if s >= M {
        return Err(CapTableError::EmptySlot);
    }
    match &tables[s] {
        Some(table) => {
            if table.lookup(target.cap).is_none() {
                return Err(CapTableError::EmptySlot);
            }
        },
        None => {
            return Err(CapTableError::EmptySlot);
        },
    }

    proof {
        tables@[s as int]->0.lemma_view_wf();
    }

    // Find every slot to free before freeing any: a freed slot loses its parent link.
    let mut marked: [[bool; N]; M] = [[false;N];M];
    let mut si: usize = 0;
    while si < M
        invariant
            si <= M,
            M * N < usize::MAX,
            M <= 0x1_0000_0000,
            N <= 0x1_0000_0000,
            tables_wf(tables@),
            forest == forest_of(tables@),
            forall|a: int, b: int|
                0 <= a < si && 0 <= b < N ==> (#[trigger] marked@[a]@[b]) == doomed(
                    forest,
                    GlobalCapId { space: CapSpaceId(a as u32), cap: CapId(b as u32) },
                    target,
                ),
            forall|a: int, b: int| si <= a < M && 0 <= b < N ==> !(#[trigger] marked@[a]@[b]),
        decreases M - si,
    {
        let mut i: usize = 0;
        while i < N
            invariant
                i <= N,
                si < M,
                M * N < usize::MAX,
                M <= 0x1_0000_0000,
                N <= 0x1_0000_0000,
                tables_wf(tables@),
                forest == forest_of(tables@),
                forall|a: int, b: int|
                    0 <= a < si && 0 <= b < N || a == si && 0 <= b < i ==> (
                    #[trigger] marked@[a]@[b]) == doomed(
                        forest,
                        GlobalCapId { space: CapSpaceId(a as u32), cap: CapId(b as u32) },
                        target,
                    ),
                forall|a: int, b: int|
                    si < a < M && 0 <= b < N || a == si && i <= b < N ==> !(
                    #[trigger] marked@[a]@[b]),
            decreases N - i,
        {
            let cand = GlobalCapId::new(CapSpaceId::new(si as u32), CapId::new(i as u32));
            let occupied = match &tables[si] {
                Some(table) => table.lookup(cand.cap).is_some(),
                None => false,
            };
            if occupied && (cand == target || is_descendant_of(tables, cand, target)) {
                marked[si][i] = true;
            }
            i = i + 1;
        }
        si = si + 1;
    }

    let mut freed: u32 = 0;
    si = 0;
    proof {
        assert(partly_revoked(forest, target, N as nat, 0, 0) =~= forest) by {
            if forest.len() > 0 && forest[0] is Some {
                lemma_revoked_table_start(forest, 0, forest[0]->0, target);
            }
        }
    }
    while si < M
        invariant
            si <= M,
            M * N < usize::MAX,
            M <= 0x1_0000_0000,
            N <= 0x1_0000_0000,
            forest.len() == M,
            forall|a: int|
                0 <= a < M && (#[trigger] forest[a]) is Some ==> forest[a]->0.entries.len() == N,
            tables_wf(tables@),
            forest_of(tables@) == partly_revoked(forest, target, N as nat, si as int, 0),
            freed == doomed_count(forest, target, N as nat, si as nat),
            doomed_count(forest, target, N as nat, M as nat) <= u32::MAX,
            forall|a: int, b: int|
                0 <= a < M && 0 <= b < N ==> (#[trigger] marked@[a]@[b]) == doomed(
                    forest,
                    GlobalCapId { space: CapSpaceId(a as u32), cap: CapId(b as u32) },
                    target,
                ),
        decreases M - si,
    {
        let mut i: usize = 0;
        while i < N
            invariant
                i <= N,
                si < M,
                M * N < usize::MAX,
                M <= 0x1_0000_0000,
                N <= 0x1_0000_0000,
                forest.len() == M,
                forall|a: int|
                    0 <= a < M && (#[trigger] forest[a]) is Some ==> forest[a]->0.entries.len() == N,
                tables_wf(tables@),
                forest_of(tables@) == partly_revoked(forest, target, N as nat, si as int, i as nat),
                freed == doomed_count(forest, target, N as nat, si as nat) + doomed_slots(
                    forest,
                    si as int,
                    target,
                    i as nat,
                ).len(),
                doomed_count(forest, target, N as nat, M as nat) <= u32::MAX,
                forall|a: int, b: int|
                    0 <= a < M && 0 <= b < N ==> (#[trigger] marked@[a]@[b]) == doomed(
                        forest,
                        GlobalCapId { space: CapSpaceId(a as u32), cap: CapId(b as u32) },
                        target,
                    ),
            decreases N - i,
        {
            let ghost current = forest_of(tables@);
            let ghost tables_before = tables@;
            let id = CapId::new(i as u32);
            proof {
                if forest[si as int] is Some {
                    lemma_revoked_table_step(
                        forest,
                        si as int,
                        forest[si as int]->0,
                        target,
                        i as nat,
                    );
                }
                lemma_doomed_slots_grow(forest, si as int, target, (i + 1) as nat, N as nat);
                lemma_doomed_count_grows(forest, target, N as nat, (si + 1) as nat, M as nat);
            }
            if marked[si][i] {
                assert(current[si as int] is Some);
                match &mut tables[si] {
                    Some(table) => {
                        table.free_slot(id);
                        freed = freed + 1;
                    },
                    None => {},
                }
            }
            proof {
                let next = partly_revoked(forest, target, N as nat, si as int, (i + 1) as nat);
                assert forall|s: int| 0 <= s < M implies forest_of(tables@)[s] == next[s] by {
                    assert(current[s] == partly_revoked(
                        forest,
                        target,
                        N as nat,
                        si as int,
                        i as nat,
                    )[s]);
                    if s != si {
                        assert(tables@[s] == tables_before[s]);
                    }
                }
                assert(forest_of(tables@) =~= next);
            }
            i = i + 1;
        }
        si = si + 1;
        proof {
            assert(partly_revoked(forest, target, N as nat, si - 1, N as nat) =~= partly_revoked(
                forest,
                target,
                N as nat,
                si as int,
                0,
            )) by {
                if si < M && forest[si as int] is Some {
                    lemma_revoked_table_start(forest, si as int, forest[si as int]->0, target);
                }
            }
        }
    }
    assert(forest_of(tables@) =~= revoked_forest(forest, target, N as nat));
    Ok(freed)
}

} // verus!
