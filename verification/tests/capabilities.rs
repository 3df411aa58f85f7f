//! Capability tables, derivation and revocation.

use simurgh_kernel::capability::{Capability, KernelObjectKind, ObjectRef};
use simurgh_kernel::cdt::{
    derive_child_cross_space, revoke_cross_space, CapTable, CapTableError, GlobalCapId,
};
use simurgh_kernel::ids::{CapId, CapSpaceId, ObjectId};
use simurgh_kernel::rights::CapabilityRights;

const N: usize = 16;

fn root_cap() -> Capability {
    Capability::full(ObjectRef::new(
        KernelObjectKind::UntypedMemory,
        ObjectId::new(0),
    ))
}

fn sid(i: u32) -> CapSpaceId {
    CapSpaceId::new(i)
}

#[test]
fn new_table_is_empty_and_lookups_miss() {
    let t: CapTable<N> = CapTable::new(sid(0));
    assert!(t.is_empty());
    assert!(t.lookup(CapId::new(0)).is_none());
}

#[test]
fn insert_root_then_lookup() {
    let mut t: CapTable<N> = CapTable::new(sid(0));
    let id = t.insert_root(root_cap()).unwrap();
    assert_eq!(t.len(), 1);
    assert_eq!(t.lookup(id).unwrap().rights, CapabilityRights::all());
}

#[test]
fn derive_narrows_rights_and_rejects_escalation() {
    let mut t: CapTable<N> = CapTable::new(sid(0));
    let root = t.insert_root(root_cap()).unwrap();
    let child = t.derive_child(root, CapabilityRights::ro(), 0).unwrap();
    assert_eq!(t.lookup(child).unwrap().rights, CapabilityRights::ro());
    // A grandchild cannot regain WRITE that its parent lacks.
    assert_eq!(
        t.derive_child(child, CapabilityRights::rw(), 0),
        Err(CapTableError::RightsEscalation)
    );
}

#[test]
fn badge_is_write_once() {
    let mut t: CapTable<N> = CapTable::new(sid(0));
    let root = t.insert_root(root_cap()).unwrap();
    let badged = t.derive_child(root, CapabilityRights::rw(), 0x1111).unwrap();
    assert_eq!(t.lookup(badged).unwrap().badge, 0x1111);
    // A child of a badged cap inherits the badge; asking for another fails.
    assert_eq!(
        t.derive_child(badged, CapabilityRights::rw(), 0x2222),
        Err(CapTableError::BadgeConflict)
    );
    let inherit = t.derive_child(badged, CapabilityRights::rw(), 0).unwrap();
    assert_eq!(t.lookup(inherit).unwrap().badge, 0x1111);
}

#[test]
fn revoke_frees_whole_subtree() {
    let mut tables: [Option<CapTable<N>>; 1] = [Some(CapTable::new(sid(0)))];
    let t = tables[0].as_mut().unwrap();
    let root = t.insert_root(root_cap()).unwrap();
    let a = t.derive_child(root, CapabilityRights::rw(), 0).unwrap();
    let b = t.derive_child(a, CapabilityRights::rw(), 0).unwrap();
    let c = t.derive_child(a, CapabilityRights::ro(), 0).unwrap();
    let d = t.derive_child(b, CapabilityRights::ro(), 0).unwrap();
    assert_eq!(t.len(), 5);

    let freed = revoke_cross_space(&mut tables, GlobalCapId::new(sid(0), a)).unwrap();
    assert_eq!(freed, 4); // a, b, c, d
    let t = tables[0].as_ref().unwrap();
    assert_eq!(t.len(), 1);
    assert!(t.lookup(a).is_none());
    assert!(t.lookup(b).is_none());
    assert!(t.lookup(c).is_none());
    assert!(t.lookup(d).is_none());
    // Root survives.
    assert!(t.lookup(root).is_some());
}

#[test]
fn revoke_root_empties_table_and_slots_are_reusable() {
    let mut tables: [Option<CapTable<N>>; 1] = [Some(CapTable::new(sid(0)))];
    let t = tables[0].as_mut().unwrap();
    let root = t.insert_root(root_cap()).unwrap();
    for _ in 0..5 {
        t.derive_child(root, CapabilityRights::ro(), 0).unwrap();
    }
    revoke_cross_space(&mut tables, GlobalCapId::new(sid(0), root)).unwrap();
    let t = tables[0].as_mut().unwrap();
    assert!(t.is_empty());
    // All slots came back: we can refill to capacity.
    let r2 = t.insert_root(root_cap()).unwrap();
    for _ in 0..(N - 1) {
        t.derive_child(r2, CapabilityRights::ro(), 0).unwrap();
    }
    assert!(t.is_full());
    assert_eq!(
        t.derive_child(r2, CapabilityRights::ro(), 0),
        Err(CapTableError::Full)
    );
}

#[test]
fn revoke_empty_slot_errors() {
    let mut tables: [Option<CapTable<N>>; 1] = [Some(CapTable::new(sid(0)))];
    assert_eq!(
        revoke_cross_space(&mut tables, GlobalCapId::new(sid(0), CapId::new(3))),
        Err(CapTableError::EmptySlot)
    );
}

#[test]
fn grant_into_another_space_then_revoke_source_reaches_it() {
    let mut tables: [Option<CapTable<N>>; 2] =
        [Some(CapTable::new(sid(0))), Some(CapTable::new(sid(1)))];

    let root = tables[0].as_mut().unwrap().insert_root(root_cap()).unwrap();

    // Grant a narrowed copy of `root` (space 0) directly into space 1.
    let granted = {
        let (left, right) = tables.split_at_mut(1);
        let src = left[0].as_ref().unwrap();
        let dst = right[0].as_mut().unwrap();
        derive_child_cross_space(src, sid(0), root, dst, CapabilityRights::ro(), 0).unwrap()
    };
    assert_eq!(
        tables[1].as_ref().unwrap().lookup(granted).unwrap().rights,
        CapabilityRights::ro()
    );
    // The source capability is completely untouched by the grant.
    assert!(tables[0].as_ref().unwrap().lookup(root).is_some());

    // Revoking `root` in space 0 must free the granted copy in space 1.
    let freed = revoke_cross_space(&mut tables, GlobalCapId::new(sid(0), root)).unwrap();
    assert_eq!(freed, 2); // root itself + the copy in space 1
    assert!(tables[0].as_ref().unwrap().lookup(root).is_none());
    assert!(tables[1].as_ref().unwrap().lookup(granted).is_none());
}

#[test]
fn revoke_reaches_a_grant_chained_through_a_third_space() {
    // space 0 --derive--> a (space 0) --grant--> b (space 1) --grant--> c (space 2)
    let mut tables: [Option<CapTable<N>>; 3] = [
        Some(CapTable::new(sid(0))),
        Some(CapTable::new(sid(1))),
        Some(CapTable::new(sid(2))),
    ];

    let root = tables[0].as_mut().unwrap().insert_root(root_cap()).unwrap();
    let a = tables[0]
        .as_mut()
        .unwrap()
        .derive_child(root, CapabilityRights::all(), 0)
        .unwrap();

    let b = {
        let (left, right) = tables.split_at_mut(1);
        let src = left[0].as_ref().unwrap();
        let dst = right[0].as_mut().unwrap();
        derive_child_cross_space(src, sid(0), a, dst, CapabilityRights::all(), 0).unwrap()
    };
    let c = {
        let (left, right) = tables.split_at_mut(2);
        let src = left[1].as_ref().unwrap();
        let dst = right[0].as_mut().unwrap();
        derive_child_cross_space(src, sid(1), b, dst, CapabilityRights::ro(), 0).unwrap()
    };
    assert!(tables[2].as_ref().unwrap().lookup(c).is_some());

    // Revoking `a` must reach through `b` to `c`, but must not touch `root`.
    let freed = revoke_cross_space(&mut tables, GlobalCapId::new(sid(0), a)).unwrap();
    assert_eq!(freed, 3); // a, b, c
    assert!(tables[0].as_ref().unwrap().lookup(root).is_some());
    assert!(tables[0].as_ref().unwrap().lookup(a).is_none());
    assert!(tables[1].as_ref().unwrap().lookup(b).is_none());
    assert!(tables[2].as_ref().unwrap().lookup(c).is_none());
}

#[test]
fn revoking_only_one_grant_leaves_a_sibling_grant_untouched() {
    let mut tables: [Option<CapTable<N>>; 3] = [
        Some(CapTable::new(sid(0))),
        Some(CapTable::new(sid(1))),
        Some(CapTable::new(sid(2))),
    ];
    let root = tables[0].as_mut().unwrap().insert_root(root_cap()).unwrap();

    let g1 = {
        let (left, right) = tables.split_at_mut(1);
        derive_child_cross_space(
            left[0].as_ref().unwrap(),
            sid(0),
            root,
            right[0].as_mut().unwrap(),
            CapabilityRights::ro(),
            0,
        )
        .unwrap()
    };
    let g2 = {
        let (left, right) = tables.split_at_mut(2);
        derive_child_cross_space(
            left[0].as_ref().unwrap(),
            sid(0),
            root,
            right[0].as_mut().unwrap(),
            CapabilityRights::ro(),
            0,
        )
        .unwrap()
    };

    let freed = revoke_cross_space(&mut tables, GlobalCapId::new(sid(1), g1)).unwrap();
    assert_eq!(freed, 1);
    assert!(tables[1].as_ref().unwrap().lookup(g1).is_none());
    assert!(tables[2].as_ref().unwrap().lookup(g2).is_some());
    assert!(tables[0].as_ref().unwrap().lookup(root).is_some());
}

#[test]
fn rights_are_compared_right_by_right() {
    assert!(CapabilityRights::ro().is_subset_of(CapabilityRights::rw()));
    assert!(!CapabilityRights::rw().is_subset_of(CapabilityRights::ro()));
    assert!(CapabilityRights::empty().is_subset_of(CapabilityRights::empty()));
    assert!(CapabilityRights::all().contains(CapabilityRights::rx()));
    assert_eq!(CapabilityRights::from_bits_truncate(0xffff_ffff), CapabilityRights::all());
    assert_eq!(CapabilityRights::from_bits_truncate(0x43).bits, 0x03);
    assert_eq!(
        CapabilityRights::read().union(CapabilityRights::write()),
        CapabilityRights::rw()
    );
}

#[test]
fn a_capability_allows_what_it_has_rights_for() {
    let mut c = root_cap();
    assert!(c.allows(CapabilityRights::all()));
    c.rights = CapabilityRights::ro();
    assert!(c.allows(CapabilityRights::read()));
    assert!(!c.allows(CapabilityRights::write()));
    assert_eq!(root_cap().with_badge(7).badge, 7);
}

#[test]
fn slots_are_handed_out_in_order_and_freed_ones_come_first() {
    let mut t: CapTable<N> = CapTable::new(sid(4));
    assert_eq!(t.space_id(), sid(4));
    let root = t.insert_root(root_cap()).unwrap();
    assert_eq!(root, CapId::new(0));
    assert_eq!(t.derive_child(root, CapabilityRights::ro(), 0), Ok(CapId::new(1)));
    let spare = t.insert_root(root_cap()).unwrap();
    assert_eq!(spare, CapId::new(2));
    t.remove_root(spare);
    assert_eq!(t.len(), 2);
    assert_eq!(t.insert_root(root_cap()), Ok(CapId::new(2)));
}

#[test]
fn only_roots_are_removed() {
    let mut t: CapTable<N> = CapTable::new(sid(0));
    let root = t.insert_root(root_cap()).unwrap();
    let child = t.derive_child(root, CapabilityRights::ro(), 0).unwrap();
    t.remove_root(child);
    assert!(t.lookup(child).is_some());
    t.remove_root(CapId::new(9));
    t.remove_root(CapId::new(99));
    assert_eq!(t.len(), 2);
}

#[test]
fn deriving_from_nothing_or_into_a_full_table_fails() {
    let mut t: CapTable<2> = CapTable::new(sid(0));
    assert_eq!(
        t.derive_child(CapId::new(0), CapabilityRights::ro(), 0),
        Err(CapTableError::EmptySlot)
    );
    assert_eq!(
        t.derive_child(CapId::new(77), CapabilityRights::ro(), 0),
        Err(CapTableError::EmptySlot)
    );
    let root = t.insert_root(root_cap()).unwrap();
    t.insert_root(root_cap()).unwrap();
    assert_eq!(t.insert_root(root_cap()), Err(CapTableError::Full));
    assert_eq!(
        t.derive_child(root, CapabilityRights::ro(), 0),
        Err(CapTableError::Full)
    );
}

#[test]
fn a_capability_can_be_changed_in_place() {
    let mut t: CapTable<N> = CapTable::new(sid(0));
    let root = t.insert_root(root_cap()).unwrap();
    t.lookup_mut(root).unwrap().badge = 5;
    assert_eq!(t.lookup(root).unwrap().badge, 5);
    assert!(t.lookup_mut(CapId::new(3)).is_none());
}

#[test]
fn revoking_outside_every_space_finds_nothing() {
    let mut tables: [Option<CapTable<N>>; 2] = [Some(CapTable::new(sid(0))), None];
    assert_eq!(
        revoke_cross_space(&mut tables, GlobalCapId::new(sid(1), CapId::new(0))),
        Err(CapTableError::EmptySlot)
    );
    assert_eq!(
        revoke_cross_space(&mut tables, GlobalCapId::new(sid(9), CapId::new(0))),
        Err(CapTableError::EmptySlot)
    );
}

#[test]
fn a_revoked_capability_cannot_be_revoked_again() {
    let mut tables: [Option<CapTable<N>>; 1] = [Some(CapTable::new(sid(0)))];
    let root = tables[0].as_mut().unwrap().insert_root(root_cap()).unwrap();
    let target = GlobalCapId::new(sid(0), root);
    assert_eq!(revoke_cross_space(&mut tables, target), Ok(1));
    assert_eq!(revoke_cross_space(&mut tables, target), Err(CapTableError::EmptySlot));
}

#[test]
fn a_default_table_is_empty() {
    let t: CapTable<N> = CapTable::default();
    assert!(t.is_empty() && !t.is_full());
    assert_eq!(t.space_id(), sid(0));
}

#[test]
fn revoking_what_was_just_derived_undoes_it() {
    let mut tables: [Option<CapTable<N>>; 2] =
        [Some(CapTable::new(sid(0))), Some(CapTable::new(sid(1)))];
    let t0 = tables[0].as_mut().unwrap();
    let root = t0.insert_root(root_cap()).unwrap();
    let other = t0.derive_child(root, CapabilityRights::ro(), 0).unwrap();
    // Into the same space.
    let child = t0.derive_child(other, CapabilityRights::ro(), 0).unwrap();
    assert_eq!(revoke_cross_space(&mut tables, GlobalCapId::new(sid(0), child)), Ok(1));
    let t0 = tables[0].as_mut().unwrap();
    assert_eq!(t0.len(), 2);
    assert!(t0.lookup(child).is_none() && t0.lookup(other).is_some());
    assert_eq!(t0.insert_root(root_cap()), Ok(child));
    // Into another one.
    let [Some(a), Some(b)] = &mut tables else {
        panic!("both tables are there");
    };
    let copy = derive_child_cross_space(a, sid(0), root, b, CapabilityRights::rw(), 0).unwrap();
    assert_eq!(revoke_cross_space(&mut tables, GlobalCapId::new(sid(1), copy)), Ok(1));
    let b = tables[1].as_mut().unwrap();
    assert!(b.is_empty());
    assert_eq!(b.insert_root(root_cap()), Ok(copy));
}

#[test]
fn the_slot_freed_last_comes_next_and_every_slot_once() {
    let mut tables: [Option<CapTable<N>>; 1] = [Some(CapTable::new(sid(0)))];
    let t = tables[0].as_mut().unwrap();
    let roots: Vec<CapId> = (0..5).map(|_| t.insert_root(root_cap()).unwrap()).collect();
    t.remove_root(roots[1]);
    t.remove_root(roots[3]);
    assert_eq!(t.insert_root(root_cap()), Ok(roots[3]));
    assert_eq!(t.insert_root(root_cap()), Ok(roots[1]));
    // A whole subtree comes back, and the table takes as many again as it has room for.
    let child = t.derive_child(roots[0], CapabilityRights::ro(), 0).unwrap();
    t.derive_child(child, CapabilityRights::ro(), 0).unwrap();
    let before = t.len();
    let freed = revoke_cross_space(&mut tables, GlobalCapId::new(sid(0), roots[0])).unwrap();
    let t = tables[0].as_mut().unwrap();
    assert_eq!((freed, t.len()), (3, before - 3));
    for _ in t.len()..N {
        assert!(t.insert_root(root_cap()).is_ok());
    }
    assert_eq!(t.insert_root(root_cap()), Err(CapTableError::Full));
}
