//! Creating kernel objects out of untyped memory.
//!
//! A batch of objects is numbered one after the other, and so are the capabilities to them. If
//! that cannot be done, or a table fills up half-way, the whole batch is taken back.

use crate::boot::full_cap_to;
use crate::capability::{Capability, KernelObjectKind, ObjectRef};
use crate::cdt::{empty_table, CapEntry, CapTableError, CapTableView};
use crate::config::CAP_SLOTS_PER_SPACE;
use crate::ids::{CapId, CapSpaceId, ObjectId, PageTableId, ThreadId};
use crate::objects::{
    AddressSpace, Endpoint, KernelObjectType, MmError, Notification, SharedRegion, UntypedMemory,
};
use crate::rights::{CapabilityRights, READ_BIT, WRITE_BIT};
use crate::state::{
    first_free, lemma_first_free, object_freed, root_inserted, slot, KernelState, KernelView,
};
use crate::syscall::{RetypeGrant, SyscallError, SyscallReturn};
use crate::tcb::inactive_tcb;
use vstd::prelude::*;

verus! {

/// The kind of the objects that a type stands for.
pub open spec fn kind_of_type(ty: KernelObjectType) -> KernelObjectKind {
    match ty {
        KernelObjectType::Endpoint => KernelObjectKind::Endpoint,
        KernelObjectType::Notification => KernelObjectKind::Notification,
        KernelObjectType::PageTable => KernelObjectKind::PageTable,
        KernelObjectType::CapabilitySpace => KernelObjectKind::CapabilitySpace,
        KernelObjectType::ThreadControlBlock => KernelObjectKind::ThreadControlBlock,
        KernelObjectType::Untyped => KernelObjectKind::UntypedMemory,
        KernelObjectType::SharedRegion => KernelObjectKind::SharedRegion,
    }
}

/// The lowest free slot in the table of the objects of a type.
pub open spec fn lowest_free_object(k: KernelView, ty: KernelObjectType) -> Option<int> {
    match ty {
        KernelObjectType::Endpoint => first_free(k.endpoints),
        KernelObjectType::Notification => first_free(k.notifications),
        KernelObjectType::PageTable => first_free(k.addr_spaces),
        KernelObjectType::CapabilitySpace => first_free(k.spaces),
        KernelObjectType::ThreadControlBlock => first_free(k.tcbs),
        KernelObjectType::Untyped => first_free(k.untyped),
        KernelObjectType::SharedRegion => first_free(k.shared_regions),
    }
}

/// The slot `j` is there and free.
pub open spec fn free_at<T>(table: Seq<Option<T>>, j: int) -> bool {
    0 <= j < table.len() && table[j] is None
}

/// The slot `j` of the table of the objects of a type is there and free.
pub open spec fn object_free_at(k: KernelView, ty: KernelObjectType, j: int) -> bool {
    match ty {
        KernelObjectType::Endpoint => free_at(k.endpoints, j),
        KernelObjectType::Notification => free_at(k.notifications, j),
        KernelObjectType::PageTable => free_at(k.addr_spaces, j),
        KernelObjectType::CapabilitySpace => free_at(k.spaces, j),
        KernelObjectType::ThreadControlBlock => free_at(k.tcbs, j),
        KernelObjectType::Untyped => free_at(k.untyped, j),
        KernelObjectType::SharedRegion => free_at(k.shared_regions, j),
    }
}

/// What a new object is made of.
pub struct NewObject {
    /// First physical address.
    pub phys: u64,
    /// Length in bytes.
    pub bytes: u64,
    /// The capability space that a new thread uses.
    pub cap_space: CapSpaceId,
    /// The address space that a new thread executes in.
    pub addr_space: PageTableId,
    /// The thread that is running.
    pub running: Option<ThreadId>,
}

/// The kernel state with a new object of a type in slot `j`.
pub open spec fn object_made(k: KernelView, ty: KernelObjectType, j: int, new: NewObject) -> KernelView {
    match ty {
        KernelObjectType::Endpoint => KernelView {
            endpoints: k.endpoints.update(j, Some(Endpoint {  })),
            ..k
        },
        KernelObjectType::Notification => KernelView {
            notifications: k.notifications.update(j, Some(Notification {  })),
            ..k
        },
        KernelObjectType::PageTable => KernelView {
            addr_spaces: k.addr_spaces.update(j, Some(AddressSpace { root_phys: new.phys })),
            ..k
        },
        KernelObjectType::CapabilitySpace => KernelView {
            spaces: k.spaces.update(
                j,
                Some(empty_table(CAP_SLOTS_PER_SPACE as nat, CapSpaceId(j as u32))),
            ),
            ..k
        },
        KernelObjectType::ThreadControlBlock => KernelView {
            tcbs: k.tcbs.update(
                j,
                Some(inactive_tcb(ThreadId(j as u32), new.cap_space, new.addr_space, new.running)),
            ),
            ..k
        },
        KernelObjectType::Untyped => KernelView {
            untyped: k.untyped.update(j, Some(UntypedMemory { base: new.phys, size: new.bytes })),
            ..k
        },
        KernelObjectType::SharedRegion => KernelView {
            shared_regions: k.shared_regions.update(
                j,
                Some(
                    SharedRegion {
                        phys_base: new.phys,
                        size: new.bytes as usize,
                        max_rights: CapabilityRights { bits: READ_BIT | WRITE_BIT },
                    },
                ),
            ),
            ..k
        },
    }
}

/// What a retype on behalf of a thread makes its objects of: `caller`'s spaces, the range
/// reserved and who is running.
pub open spec fn new_object(
    k: KernelView,
    caller: ThreadId,
    grant: RetypeGrant,
    running: Option<ThreadId>,
    i: int,
) -> NewObject {
    NewObject {
        phys: (grant.phys_base + i * grant.object_bytes) as u64,
        bytes: grant.object_bytes,
        cap_space: k.tcbs[caller.0 as int]->0.cap_space,
        addr_space: k.tcbs[caller.0 as int]->0.addr_space,
        running,
    }
}

/// A batch of objects that is being created.
pub struct Batch {
    /// The capability space that gets the capabilities.
    pub cs: CapSpaceId,
    /// What is created.
    pub ty: KernelObjectType,
    /// The number of the first object.
    pub first_obj: int,
    /// The slot of the first capability.
    pub first_cap: int,
    /// The calling thread.
    pub caller: ThreadId,
    /// The range reserved.
    pub grant: RetypeGrant,
    /// The running thread.
    pub running: Option<ThreadId>,
}

/// The batch that a retype on behalf of `caller` starts.
pub open spec fn batch_of(
    k: KernelView,
    caller: ThreadId,
    ty: KernelObjectType,
    grant: RetypeGrant,
    running: Option<ThreadId>,
) -> Batch {
    let cs = k.tcbs[caller.0 as int]->0.cap_space;
    Batch {
        cs,
        ty,
        first_obj: lowest_free_object(k, ty)->0,
        first_cap: k.spaces[cs.0 as int]->0.free[0].0 as int,
        caller,
        grant,
        running,
    }
}

/// Object and capability `i` of a batch can be numbered in sequence.
pub open spec fn in_sequence(k: KernelView, b: Batch, i: int) -> bool {
    let free = k.spaces[b.cs.0 as int]->0.free;
    &&& lowest_free_object(k, b.ty) is Some
    &&& object_free_at(k, b.ty, b.first_obj + i)
    &&& i < free.len()
    &&& free[i].0 == b.first_cap + i
}

/// The table with the slots from `from` to `to` filled.
pub open spec fn filled<T>(table: Seq<Option<T>>, from: int, to: int, f: spec_fn(int) -> T) -> Seq<
    Option<T>,
> {
    Seq::new(
        table.len(),
        |j: int|
            if from <= j < to {
                Some(f(j))
            } else {
                table[j]
            },
    )
}

/// The kernel state with the objects of a batch from number `lo` to number `hi`.
pub open spec fn with_objects(k: KernelView, b: Batch, lo: int, hi: int) -> KernelView {
    let from = b.first_obj + lo;
    let to = b.first_obj + hi;
    let new = |j: int| new_object(k, b.caller, b.grant, b.running, j - b.first_obj);
    match b.ty {
        KernelObjectType::Endpoint => KernelView {
            endpoints: filled(k.endpoints, from, to, |j: int| Endpoint {  }),
            ..k
        },
        KernelObjectType::Notification => KernelView {
            notifications: filled(k.notifications, from, to, |j: int| Notification {  }),
            ..k
        },
        KernelObjectType::PageTable => KernelView {
            addr_spaces: filled(
                k.addr_spaces,
                from,
                to,
                |j: int| AddressSpace { root_phys: new(j).phys },
            ),
            ..k
        },
        KernelObjectType::CapabilitySpace => KernelView {
            spaces: filled(
                k.spaces,
                from,
                to,
                |j: int| empty_table(CAP_SLOTS_PER_SPACE as nat, CapSpaceId(j as u32)),
            ),
            ..k
        },
        KernelObjectType::ThreadControlBlock => KernelView {
            tcbs: filled(
                k.tcbs,
                from,
                to,
                |j: int|
                    inactive_tcb(
                        ThreadId(j as u32),
                        new(j).cap_space,
                        new(j).addr_space,
                        new(j).running,
                    ),
            ),
            ..k
        },
        KernelObjectType::Untyped => KernelView {
            untyped: filled(
                k.untyped,
                from,
                to,
                |j: int| UntypedMemory { base: new(j).phys, size: new(j).bytes },
            ),
            ..k
        },
        KernelObjectType::SharedRegion => k,
    }
}

/// The capability table of a batch with the capabilities from number `lo` to number `hi`; those
/// below `lo` were there and taken back, so their slots head the free list, last first.
pub open spec fn with_caps(table: CapTableView, b: Batch, lo: int, hi: int) -> CapTableView {
    CapTableView {
        entries: Seq::new(
            table.entries.len(),
            |s: int|
                if b.first_cap + lo <= s < b.first_cap + hi {
                    Some(
                        CapEntry {
                            cap: full_cap_to(kind_of_type(b.ty), b.first_obj + (s - b.first_cap)),
                            parent: None,
                        },
                    )
                } else {
                    table.entries[s]
                },
        ),
        free: table.free.take(lo).reverse() + table.free.skip(hi),
        space: table.space,
    }
}

/// The kernel state in the middle of a batch: `hi` objects were created with their
/// capabilities and the first `lo` of them taken back.
pub open spec fn batch_state(k: KernelView, b: Batch, lo: int, hi: int) -> KernelView {
    let o = with_objects(k, b, lo, hi);
    KernelView {
        spaces: o.spaces.update(
            b.cs.0 as int,
            Some(with_caps(k.spaces[b.cs.0 as int]->0, b, lo, hi)),
        ),
        ..o
    }
}

/// The first number below `n` that is out of sequence.
pub open spec fn is_first_break(k: KernelView, b: Batch, n: int, m: int) -> bool {
    &&& 0 <= m < n
    &&& !in_sequence(k, b, m)
    &&& forall|i: int| 0 <= i < m ==> #[trigger] in_sequence(k, b, i)
}

/// Why a batch fails at number `m`: the object table is full, or else the capability table, or
/// else one of them skips a number.
pub open spec fn break_error(k: KernelView, b: Batch, m: int) -> SyscallError {
    if lowest_free_object(batch_state(k, b, 0, m), b.ty) is None {
        SyscallError::ObjectTableFull
    } else if m >= k.spaces[b.cs.0 as int]->0.free.len() {
        SyscallError::Cap(CapTableError::Full)
    } else {
        SyscallError::RetypeNotContiguous
    }
}

/// What a batch retype does, and how it ends. A failure leaves nothing behind but the order in
/// which free slots of the capability table will be handed out.
pub open spec fn batch_retyped(k: KernelView, b: Batch) -> (
    KernelView,
    Result<SyscallReturn, SyscallError>,
) {
    let n = b.grant.count as int;
    if n == 0 {
        (k, Err(SyscallError::Mm(MmError::ZeroCount)))
    } else if exists|m: int| is_first_break(k, b, n, m) {
        let m = choose|m: int| is_first_break(k, b, n, m);
        (batch_taken_back(k, b, m), Err(break_error(k, b, m)))
    } else {
        (
            batch_state(k, b, 0, n),
            Ok(
                SyscallReturn::NewCaps {
                    cap: k.spaces[b.cs.0 as int]->0.free[0],
                    count: b.grant.count,
                },
            ),
        )
    }
}

/// The kernel state after the `m` objects made so far were taken back.
pub open spec fn batch_taken_back(k: KernelView, b: Batch, m: int) -> KernelView {
    let table = k.spaces[b.cs.0 as int]->0;
    KernelView {
        spaces: k.spaces.update(
            b.cs.0 as int,
            Some(
                CapTableView { free: table.free.take(m).reverse() + table.free.skip(m), ..table },
            ),
        ),
        ..k
    }
}

/// What retyping the range `grant` on behalf of `caller` does, and how it ends. A shared region
/// is one object that spans the whole range.
pub open spec fn retyped(
    k: KernelView,
    caller: ThreadId,
    ty: KernelObjectType,
    grant: RetypeGrant,
    running: Option<ThreadId>,
) -> (KernelView, Result<SyscallReturn, SyscallError>) {
    match slot(k.tcbs, caller.0) {
        None => (k, Err(SyscallError::NoCaller)),
        Some(t) => match slot(k.spaces, t.cap_space.0) {
            None => (k, Err(SyscallError::NoCaller)),
            Some(table) => if ty is SharedRegion {
                match first_free(k.shared_regions) {
                    None => (k, Err(SyscallError::ObjectTableFull)),
                    Some(j) => if table.free.len() == 0 {
                        (k, Err(SyscallError::Cap(CapTableError::Full)))
                    } else {
                        let region = NewObject {
                            phys: grant.phys_base,
                            bytes: grant.phys_len,
                            cap_space: t.cap_space,
                            addr_space: t.addr_space,
                            running,
                        };
                        (
                            root_inserted(
                                object_made(k, ty, j, region),
                                t.cap_space,
                                full_cap_to(KernelObjectKind::SharedRegion, j),
                            ),
                            Ok(SyscallReturn::NewCaps { cap: table.free[0], count: 1 }),
                        )
                    },
                }
            } else {
                batch_retyped(k, batch_of(k, caller, ty, grant, running))
            },
        },
    }
}

/// The kind of the objects that a type stands for.
fn retype_target_kind(ty: KernelObjectType) -> (kind: KernelObjectKind)
    ensures
        kind == kind_of_type(ty),
{
    match ty {
        KernelObjectType::Endpoint => KernelObjectKind::Endpoint,
        KernelObjectType::Notification => KernelObjectKind::Notification,
        KernelObjectType::PageTable => KernelObjectKind::PageTable,
        KernelObjectType::CapabilitySpace => KernelObjectKind::CapabilitySpace,
        KernelObjectType::ThreadControlBlock => KernelObjectKind::ThreadControlBlock,
        KernelObjectType::Untyped => KernelObjectKind::UntypedMemory,
        KernelObjectType::SharedRegion => KernelObjectKind::SharedRegion,
    }
}

impl<const MMIO: usize> KernelState<MMIO> {
    /// Creates one object of a type in the lowest free slot.
    fn alloc_retyped_object(
        &mut self,
        caller: ThreadId,
        ty: KernelObjectType,
        phys: u64,
        bytes: u64,
        running: Option<ThreadId>,
    ) -> (r: Result<u32, SyscallError>)
        requires
            old(self).wf(),
            slot(old(self)@.tcbs, caller.0) is Some,
            bytes <= usize::MAX,
        ensures
            final(self).wf(),
            match lowest_free_object(old(self)@, ty) {
                None => {
                    &&& r == Err::<u32, SyscallError>(SyscallError::ObjectTableFull)
                    &&& final(self)@ == old(self)@
                },
                Some(j) => {
                    let t = old(self)@.tcbs[caller.0 as int]->0;
                    let new = NewObject {
                        phys,
                        bytes,
                        cap_space: t.cap_space,
                        addr_space: t.addr_space,
                        running,
                    };
                    &&& 0 <= j <= u32::MAX
                    &&& r == Ok::<u32, SyscallError>(j as u32)
                    &&& final(self)@ == object_made(old(self)@, ty, j, new)
                },
            },
    {
        proof {
            self.lemma_view_wf();
            let j = lowest_free_object(self@, ty)->0;
            lemma_first_free(self@.endpoints, j);
            lemma_first_free(self@.notifications, j);
            lemma_first_free(self@.addr_spaces, j);
            lemma_first_free(self@.spaces, j);
            lemma_first_free(self@.tcbs, j);
            lemma_first_free(self@.untyped, j);
            lemma_first_free(self@.shared_regions, j);
        }
        let id: Option<u32> = match ty {
            KernelObjectType::Endpoint => match self.alloc_endpoint() {
                Some(id) => Some(id.as_u32()),
                None => None,
            },
            KernelObjectType::Notification => match self.alloc_notification() {
                Some(id) => Some(id.as_u32()),
                None => None,
            },
            KernelObjectType::PageTable => match self.alloc_addr_space(phys) {
                Some(id) => Some(id.as_u32()),
                None => None,
            },
            KernelObjectType::CapabilitySpace => match self.alloc_cap_space() {
                Some(id) => Some(id.as_u32()),
                None => None,
            },
            KernelObjectType::ThreadControlBlock => {
                let (cs, addr_space) = match self.tcb(caller) {
                    Some(t) => (t.cap_space, t.addr_space),
                    None => {
                        return Err(SyscallError::NoCaller);
                    },
                };
                match self.alloc_tcb(cs, addr_space, running) {
                    Some(id) => Some(id.as_u32()),
                    None => None,
                }
            },
            KernelObjectType::Untyped => match self.alloc_untyped(phys, bytes) {
                Some(id) => Some(id.as_u32()),
                None => None,
            },
            KernelObjectType::SharedRegion => {
                let region = SharedRegion {
                    phys_base: phys,
                    size: bytes as usize,
                    max_rights: CapabilityRights::rw(),
                };
                match self.alloc_shared_region(region) {
                    Some(id) => Some(id.as_u32()),
                    None => None,
                }
            },
        };
        match id {
            Some(id) => Ok(id),
            None => Err(SyscallError::ObjectTableFull),
        }
    }
}

/// Two tables with the same free slots have the same lowest free slot.
proof fn lemma_same_free<A, B>(a: Seq<Option<A>>, b: Seq<Option<B>>)
    requires
        a.len() == b.len(),
        forall|j: int| 0 <= j < a.len() ==> ((#[trigger] a[j]) is None <==> b[j] is None),
    ensures
        first_free(a) == first_free(b),
{
    lemma_first_free(a, 0);
    lemma_first_free(b, 0);
    if first_free(a) is Some {
        let i = first_free(a)->0;
        lemma_first_free(a, i);
        assert forall|j: int| 0 <= j < i implies (#[trigger] b[j]) is Some by {
            assert(a[j] is Some);
        }
        lemma_first_free(b, i);
    } else {
        assert forall|j: int| 0 <= j < b.len() implies (#[trigger] b[j]) is Some by {
            assert(a[j] is Some);
        }
    }
}

/// With the slots from the lowest free one on filled, the next free slot is the one after them
/// if that one was free, and one further up otherwise.
proof fn lemma_next_free<T>(table: Seq<Option<T>>, from: int, m: int, f: spec_fn(int) -> T)
    requires
        first_free(table) == Some(from),
        0 <= m,
        forall|i: int| 0 <= i < m ==> free_at(table, #[trigger] (from + i)),
    ensures
        free_at(table, from + m) <==> first_free(filled(table, from, from + m, f)) == Some(
            from + m,
        ),
        first_free(filled(table, from, from + m, f)) is Some ==> free_at(
            filled(table, from, from + m, f),
            first_free(filled(table, from, from + m, f))->0,
        ),
{
    let after = filled(table, from, from + m, f);
    lemma_first_free(table, from);
    assert forall|j: int| 0 <= j < from + m && j < table.len() implies (#[trigger] after[j]) is Some by {
        if j < from {
            assert(table[j] is Some);
        }
    }
    lemma_first_free(after, from + m);
    if first_free(after) is Some {
        lemma_first_free(after, first_free(after)->0);
    }
}

/// The objects of a sequence are numbered from the lowest free slot on: the next one gets the
/// next number exactly if that slot is free.
pub proof fn lemma_next_object(k: KernelView, b: Batch, m: int)
    requires
        k.wf(),
        !(b.ty is SharedRegion),
        slot(k.spaces, b.cs.0) is Some,
        lowest_free_object(k, b.ty) == Some(b.first_obj),
        0 <= m,
        forall|i: int| 0 <= i < m ==> #[trigger] in_sequence(k, b, i),
    ensures
        ({
            let now = batch_state(k, b, 0, m);
            let next = lowest_free_object(now, b.ty);
            &&& object_free_at(k, b.ty, b.first_obj + m) <==> next == Some(b.first_obj + m)
            &&& next is Some ==> object_free_at(now, b.ty, next->0)
        }),
{
    let now = batch_state(k, b, 0, m);
    let from = b.first_obj;
    assert forall|i: int| 0 <= i < m implies object_free_at(k, b.ty, #[trigger] (from + i)) by {
        assert(in_sequence(k, b, i));
    }
    match b.ty {
        KernelObjectType::Endpoint => {
            lemma_next_free(k.endpoints, from, m, |j: int| Endpoint {  });
        },
        KernelObjectType::Notification => {
            lemma_next_free(k.notifications, from, m, |j: int| Notification {  });
        },
        KernelObjectType::PageTable => {
            lemma_next_free(
                k.addr_spaces,
                from,
                m,
                |j: int|
                    AddressSpace {
                        root_phys: new_object(k, b.caller, b.grant, b.running, j - b.first_obj).phys,
                    },
            );
        },
        KernelObjectType::CapabilitySpace => {
            let f = |j: int| empty_table(CAP_SLOTS_PER_SPACE as nat, CapSpaceId(j as u32));
            lemma_next_free(k.spaces, from, m, f);
            assert(!(from <= b.cs.0 < from + m)) by {
                if from <= b.cs.0 < from + m {
                    assert(free_at(k.spaces, from + (b.cs.0 - from)));
                }
            }
            lemma_same_free(filled(k.spaces, from, from + m, f), now.spaces);
        },
        KernelObjectType::ThreadControlBlock => {
            lemma_next_free(
                k.tcbs,
                from,
                m,
                |j: int|
                    {
                        let new = new_object(k, b.caller, b.grant, b.running, j - b.first_obj);
                        inactive_tcb(ThreadId(j as u32), new.cap_space, new.addr_space, new.running)
                    },
            );
            assert(now.tcbs =~= filled(
                k.tcbs,
                from,
                from + m,
                |j: int|
                    {
                        let new = new_object(k, b.caller, b.grant, b.running, j - b.first_obj);
                        inactive_tcb(ThreadId(j as u32), new.cap_space, new.addr_space, new.running)
                    },
            ));
        },
        KernelObjectType::Untyped => {
            let f = |j: int|
                {
                    let new = new_object(k, b.caller, b.grant, b.running, j - b.first_obj);
                    UntypedMemory { base: new.phys, size: new.bytes }
                };
            lemma_next_free(k.untyped, from, m, f);
            assert(now.untyped =~= filled(k.untyped, from, from + m, f));
        },
        KernelObjectType::SharedRegion => {},
    }
    if b.ty is PageTable {
        assert(now.addr_spaces =~= filled(
            k.addr_spaces,
            from,
            from + m,
            |j: int|
                AddressSpace {
                    root_phys: new_object(k, b.caller, b.grant, b.running, j - b.first_obj).phys,
                },
        ));
    }
}

/// Creating the next object of a sequence with its capability is the next state of the batch.
pub proof fn lemma_batch_push(k: KernelView, b: Batch, m: int)
    requires
        k.wf(),
        !(b.ty is SharedRegion),
        slot(k.spaces, b.cs.0) is Some,
        0 <= m,
        b.first_obj >= 0,
        forall|i: int| 0 <= i <= m ==> #[trigger] in_sequence(k, b, i),
    ensures
        root_inserted(
            object_made(
                batch_state(k, b, 0, m),
                b.ty,
                b.first_obj + m,
                new_object(k, b.caller, b.grant, b.running, m),
            ),
            b.cs,
            full_cap_to(kind_of_type(b.ty), b.first_obj + m),
        ) == batch_state(k, b, 0, m + 1),
{
    let table = k.spaces[b.cs.0 as int]->0;
    let now = batch_state(k, b, 0, m);
    let new = new_object(k, b.caller, b.grant, b.running, m);
    let made = object_made(now, b.ty, b.first_obj + m, new);
    let cap = full_cap_to(kind_of_type(b.ty), b.first_obj + m);
    let after = root_inserted(made, b.cs, cap);
    let goal = batch_state(k, b, 0, m + 1);
    assert(in_sequence(k, b, m));
    if b.ty is CapabilitySpace && b.first_obj <= b.cs.0 <= b.first_obj + m {
        assert(in_sequence(k, b, b.cs.0 - b.first_obj));
    }
    let t0 = with_caps(table, b, 0, m);
    let t1 = with_caps(table, b, 0, m + 1);
    assert(made.spaces[b.cs.0 as int] == Some(t0));
    let entry = CapEntry { cap, parent: None };
    assert(t0.free =~= table.free.skip(m));
    assert(t0.free[0] == table.free[m]);
    assert(t0.with_entry(entry).free =~= t1.free);
    assert(t0.with_entry(entry).entries =~= t1.entries);
    assert(after.spaces =~= goal.spaces);
    assert(after.endpoints =~= goal.endpoints);
    assert(after.notifications =~= goal.notifications);
    assert(after.addr_spaces =~= goal.addr_spaces);
    assert(after.tcbs =~= goal.tcbs);
    assert(after.untyped =~= goal.untyped);
}

/// Taking back the lowest object of a batch with its capability.
proof fn lemma_batch_pop(k: KernelView, b: Batch, lo: int, hi: int)
    requires
        k.wf(),
        !(b.ty is SharedRegion),
        slot(k.spaces, b.cs.0) is Some,
        0 <= lo < hi,
        b.first_obj >= 0,
        forall|i: int| 0 <= i < hi ==> #[trigger] in_sequence(k, b, i),
    ensures
        ({
            let now = batch_state(k, b, lo, hi);
            let cap = CapId((b.first_cap + lo) as u32);
            let table = slot(now.spaces, b.cs.0)->0;
            let removed = KernelView {
                spaces: now.spaces.update(b.cs.0 as int, Some(table.without(cap))),
                ..now
            };
            &&& slot(now.spaces, b.cs.0) is Some
            &&& table.get(cap) is Some
            &&& table.get(cap)->0.parent is None
            &&& object_freed(removed, kind_of_type(b.ty), (b.first_obj + lo) as u32) == batch_state(
                k,
                b,
                lo + 1,
                hi,
            )
        }),
{
    let table = k.spaces[b.cs.0 as int]->0;
    let now = batch_state(k, b, lo, hi);
    let cap = CapId((b.first_cap + lo) as u32);
    assert(in_sequence(k, b, lo));
    assert(table.free[lo].0 == b.first_cap + lo);
    assert(cap == table.free[lo]);
    assert(table.entries[cap.0 as int] is None);
    if b.ty is CapabilitySpace && b.first_obj <= b.cs.0 < b.first_obj + hi {
        assert(in_sequence(k, b, b.cs.0 - b.first_obj));
    }
    let t0 = with_caps(table, b, lo, hi);
    let t1 = with_caps(table, b, lo + 1, hi);
    assert(now.spaces[b.cs.0 as int] == Some(t0));
    assert(t0.without(cap).entries =~= t1.entries);
    assert(t0.without(cap).free =~= t1.free) by {
        assert(table.free.take(lo + 1).reverse() =~= seq![cap] + table.free.take(lo).reverse());
    }
    let removed = KernelView {
        spaces: now.spaces.update(b.cs.0 as int, Some(t0.without(cap))),
        ..now
    };
    let after = object_freed(removed, kind_of_type(b.ty), (b.first_obj + lo) as u32);
    let goal = batch_state(k, b, lo + 1, hi);
    assert(object_free_at(k, b.ty, b.first_obj + lo));
    assert(after.spaces =~= goal.spaces);
    assert(after.endpoints =~= goal.endpoints);
    assert(after.notifications =~= goal.notifications);
    assert(after.addr_spaces =~= goal.addr_spaces);
    assert(after.tcbs =~= goal.tcbs);
    assert(after.untyped =~= goal.untyped);
}

/// A batch that was taken back whole.
proof fn lemma_batch_taken_back(k: KernelView, b: Batch, m: int)
    requires
        k.wf(),
        !(b.ty is SharedRegion),
        slot(k.spaces, b.cs.0) is Some,
    ensures
        batch_state(k, b, m, m) == batch_taken_back(k, b, m),
{
    let s = batch_state(k, b, m, m);
    let goal = batch_taken_back(k, b, m);
    let table = k.spaces[b.cs.0 as int]->0;
    assert(with_caps(table, b, m, m).entries =~= table.entries);
    assert(s.spaces =~= goal.spaces);
    assert(s.endpoints =~= goal.endpoints);
    assert(s.notifications =~= goal.notifications);
    assert(s.addr_spaces =~= goal.addr_spaces);
    assert(s.tcbs =~= goal.tcbs);
    assert(s.untyped =~= goal.untyped);
}

/// A batch that was not started.
pub proof fn lemma_batch_start(k: KernelView, b: Batch)
    requires
        k.wf(),
        !(b.ty is SharedRegion),
        slot(k.spaces, b.cs.0) is Some,
    ensures
        batch_state(k, b, 0, 0) == k,
        batch_taken_back(k, b, 0) == k,
{
    lemma_batch_taken_back(k, b, 0);
    let table = k.spaces[b.cs.0 as int]->0;
    assert(table.free.take(0).reverse() + table.free.skip(0) =~= table.free);
    assert(batch_taken_back(k, b, 0).spaces =~= k.spaces);
}

/// Freeing an object that was just made in a free slot undoes it.
proof fn lemma_object_undone(k: KernelView, ty: KernelObjectType, j: int, new: NewObject)
    requires
        object_free_at(k, ty, j),
        j <= u32::MAX,
    ensures
        object_freed(object_made(k, ty, j, new), kind_of_type(ty), j as u32) == k,
{
    let after = object_freed(object_made(k, ty, j, new), kind_of_type(ty), j as u32);
    assert(after.spaces =~= k.spaces);
    assert(after.endpoints =~= k.endpoints);
    assert(after.notifications =~= k.notifications);
    assert(after.addr_spaces =~= k.addr_spaces);
    assert(after.tcbs =~= k.tcbs);
    assert(after.untyped =~= k.untyped);
    assert(after.shared_regions =~= k.shared_regions);
}

/// Taking back a root capability that was just stored undoes it.
proof fn lemma_root_undone(k: KernelView, cs: CapSpaceId, cap: Capability)
    requires
        slot(k.spaces, cs.0) is Some,
        k.spaces[cs.0 as int]->0.wf(),
        k.spaces[cs.0 as int]->0.free.len() > 0,
    ensures
        ({
            let id = k.spaces[cs.0 as int]->0.free[0];
            let after = root_inserted(k, cs, cap);
            let table = slot(after.spaces, cs.0)->0;
            &&& slot(after.spaces, cs.0) is Some
            &&& table.get(id) is Some
            &&& table.get(id)->0.parent is None
            &&& KernelView {
                spaces: after.spaces.update(cs.0 as int, Some(table.without(id))),
                ..after
            } == k
        }),
{
    let before = k.spaces[cs.0 as int]->0;
    let id = before.free[0];
    let after = root_inserted(k, cs, cap);
    let table = after.spaces[cs.0 as int]->0;
    assert(table.without(id).entries =~= before.entries);
    assert(table.without(id).free =~= before.free);
    assert(after.spaces.update(cs.0 as int, Some(table.without(id))) =~= k.spaces);
}

/// The range reserved is one of addresses.
pub open spec fn grant_fits(grant: RetypeGrant) -> bool {
    &&& grant.phys_base + grant.count * grant.object_bytes <= u64::MAX
    &&& grant.phys_len <= usize::MAX
    &&& grant.object_bytes <= usize::MAX
}

impl<const MMIO: usize> KernelState<MMIO> {
    /// Takes back the first `made` objects of a batch, and the capabilities to them, lowest
    /// first. Nothing can have been derived from them yet.
    fn unwind_retype_batch(
        &mut self,
        cs: CapSpaceId,
        kind: KernelObjectKind,
        first_cap: CapId,
        first_obj: u32,
        made: u32,
        Ghost(k): Ghost<KernelView>,
        Ghost(b): Ghost<Batch>,
    )
        requires
            old(self).wf(),
            k.wf(),
            !(b.ty is SharedRegion),
            slot(k.spaces, b.cs.0) is Some,
            cs == b.cs,
            kind == kind_of_type(b.ty),
            made > 0 ==> {
                &&& first_cap.0 == b.first_cap
                &&& first_obj == b.first_obj
                &&& b.first_obj + made <= u32::MAX
                &&& b.first_cap + made <= CAP_SLOTS_PER_SPACE
            },
            forall|i: int| 0 <= i < made ==> #[trigger] in_sequence(k, b, i),
            old(self)@ == batch_state(k, b, 0, made as int),
        ensures
            final(self).wf(),
            final(self)@ == batch_taken_back(k, b, made as int),
    {
        let mut j: u32 = 0;
        while j < made
            invariant
                j <= made,
                self.wf(),
                k.wf(),
                !(b.ty is SharedRegion),
                slot(k.spaces, b.cs.0) is Some,
                cs == b.cs,
                kind == kind_of_type(b.ty),
                made > 0 ==> {
                    &&& first_cap.0 == b.first_cap
                    &&& first_obj == b.first_obj
                    &&& b.first_obj + made <= u32::MAX
                    &&& b.first_cap + made <= CAP_SLOTS_PER_SPACE
                },
                forall|i: int| 0 <= i < made ==> #[trigger] in_sequence(k, b, i),
                self@ == batch_state(k, b, j as int, made as int),
            decreases made - j,
        {
            proof {
                lemma_batch_pop(k, b, j as int, made as int);
            }
            self.remove_root_from(cs, CapId::new(first_cap.as_u32() + j));
            self.free_kernel_object(kind, first_obj + j);
            j = j + 1;
        }
        proof {
            lemma_batch_taken_back(k, b, made as int);
        }
    }

    /// Creates a batch of objects, with a full capability to each in the space of `caller`.
    fn retype_batch(
        &mut self,
        caller: ThreadId,
        cs: CapSpaceId,
        ty: KernelObjectType,
        grant: RetypeGrant,
        running: Option<ThreadId>,
    ) -> (r: Result<SyscallReturn, SyscallError>)
        requires
            old(self).wf(),
            !(ty is SharedRegion),
            slot(old(self)@.tcbs, caller.0) is Some,
            cs == old(self)@.tcbs[caller.0 as int]->0.cap_space,
            slot(old(self)@.spaces, cs.0) is Some,
            grant_fits(grant),
        ensures
            final(self).wf(),
            (final(self)@, r) == batch_retyped(
                old(self)@,
                batch_of(old(self)@, caller, ty, grant, running),
            ),
    {
        let ghost k = self@;
        let ghost b = batch_of(k, caller, ty, grant, running);
        let ghost table = k.spaces[cs.0 as int]->0;
        let kind = retype_target_kind(ty);
        let mut first_cap = CapId::new(0);
        let mut first_obj: u32 = 0;
        let mut made: u32 = 0;
        proof {
            self.lemma_view_wf();
            lemma_batch_start(k, b);
        }
        while made < grant.count
            invariant
                made <= grant.count,
                self.wf(),
                k.wf(),
                k == old(self)@,
                b == batch_of(k, caller, ty, grant, running),
                table == k.spaces[cs.0 as int]->0,
                b.cs == cs,
                kind == kind_of_type(ty),
                !(ty is SharedRegion),
                slot(k.tcbs, caller.0) is Some,
                slot(k.spaces, cs.0) is Some,
                grant_fits(grant),
                made > 0 ==> {
                    &&& lowest_free_object(k, ty) == Some(b.first_obj)
                    &&& first_cap.0 == b.first_cap
                    &&& first_cap == table.free[0]
                    &&& first_obj == b.first_obj
                    &&& b.first_obj + made <= u32::MAX
                    &&& b.first_cap + made <= CAP_SLOTS_PER_SPACE
                },
                forall|i: int| 0 <= i < made ==> #[trigger] in_sequence(k, b, i),
                self@ == batch_state(k, b, 0, made as int),
                made == 0 ==> self@ == k,
            decreases grant.count - made,
        {
            let ghost m = made as int;
            let ghost now = self@;
            proof {
                let (i, n, per) = (made as int, grant.count as int, grant.object_bytes as int);
                assert(i * per <= n * per) by (nonlinear_arith)
                    requires
                        0 <= i <= n,
                        0 <= per,
                ;
                assert(0 <= i * per) by (nonlinear_arith)
                    requires
                        0 <= i,
                        0 <= per,
                ;
                if lowest_free_object(k, ty) is Some {
                    lemma_next_object(k, b, m);
                }
                lemma_table_bounds(k, ty);
                lemma_caller_kept(k, b, m);
            }
            let phys: u64 = grant.phys_base + made as u64 * grant.object_bytes;
            let obj = match self.alloc_retyped_object(
                caller,
                ty,
                phys,
                grant.object_bytes,
                running,
            ) {
                Ok(id) => id,
                Err(e) => {
                    proof {
                        if lowest_free_object(k, ty) is Some {
                            assert(!in_sequence(k, b, m));
                        }
                        lemma_first_break(k, b, grant.count as int, m);
                    }
                    self.unwind_retype_batch(
                        cs,
                        kind,
                        first_cap,
                        first_obj,
                        made,
                        Ghost(k),
                        Ghost(b),
                    );
                    return Err(e);
                },
            };
            let ghost made_state = self@;
            let ghost new = new_object(k, caller, grant, running, m);
            proof {
                self.lemma_view_wf();
                assert(made_state == object_made(now, ty, obj as int, new));
                assert(slot(made_state.spaces, cs.0) == slot(now.spaces, cs.0));
                assert(now.spaces[cs.0 as int] == Some(with_caps(table, b, 0, m)));
                assert(with_caps(table, b, 0, m).free =~= table.free.skip(m));
                lemma_object_undone(now, ty, obj as int, new);
            }
            let cap = Capability::full(ObjectRef::new(kind, ObjectId::new(obj)));
            let id = match self.insert_root_into(cs, cap) {
                Some(Ok(id)) => id,
                Some(Err(e)) => {
                    self.free_kernel_object(kind, obj);
                    proof {
                        assert(!in_sequence(k, b, m));
                        lemma_first_break(k, b, grant.count as int, m);
                    }
                    self.unwind_retype_batch(
                        cs,
                        kind,
                        first_cap,
                        first_obj,
                        made,
                        Ghost(k),
                        Ghost(b),
                    );
                    return Err(SyscallError::from(e));
                },
                None => {
                    return Err(SyscallError::NoCaller);
                },
            };
            proof {
                if m > 0 {
                    assert(in_sequence(k, b, m - 1));
                }
                assert(slot(made_state.spaces, cs.0)->0.free == table.free.skip(m));
                assert(table.free.skip(m)[0] == table.free[m]);
            }
            if made == 0 {
                first_cap = id;
                first_obj = obj;
            } else if id.as_u32() != first_cap.as_u32() + made || obj != first_obj + made {
                proof {
                    lemma_root_undone(made_state, cs, cap);
                    assert(!in_sequence(k, b, m));
                    lemma_first_break(k, b, grant.count as int, m);
                }
                self.remove_root_from(cs, id);
                self.free_kernel_object(kind, obj);
                self.unwind_retype_batch(
                    cs,
                    kind,
                    first_cap,
                    first_obj,
                    made,
                    Ghost(k),
                    Ghost(b),
                );
                return Err(SyscallError::RetypeNotContiguous);
            }
            proof {
                assert(in_sequence(k, b, m));
                assert(table.free[m].0 < table.entries.len());
                lemma_batch_push(k, b, m);
            }
            made = made + 1;
        }
        if made == 0 {
            return Err(SyscallError::Mm(MmError::ZeroCount));
        }
        proof {
            assert(forall|m: int| !is_first_break(k, b, grant.count as int, m));
        }
        Ok(SyscallReturn::NewCaps { cap: first_cap, count: made })
    }

    /// Turns the range reserved for a retype into objects, with full capabilities to them in
    /// the space of `caller`.
    pub fn do_retype(
        &mut self,
        caller: ThreadId,
        ty: KernelObjectType,
        grant: RetypeGrant,
        running: Option<ThreadId>,
    ) -> (r: Result<SyscallReturn, SyscallError>)
        requires
            old(self).wf(),
            grant_fits(grant),
        ensures
            final(self).wf(),
            (final(self)@, r) == retyped(old(self)@, caller, ty, grant, running),
    {
        let cs = match self.caller_cap_space(caller) {
            Ok(cs) => cs,
            Err(e) => {
                return Err(e);
            },
        };
        if self.cap_space(cs).is_none() {
            return Err(SyscallError::NoCaller);
        }
        if !matches!(ty, KernelObjectType::SharedRegion) {
            return self.retype_batch(caller, cs, ty, grant, running);
        }
        let ghost k = self@;
        proof {
            self.lemma_view_wf();
            lemma_first_free(k.shared_regions, first_free(k.shared_regions)->0);
        }
        let obj = match self.alloc_retyped_object(
            caller,
            ty,
            grant.phys_base,
            grant.phys_len,
            running,
        ) {
            Ok(id) => id,
            Err(e) => {
                return Err(e);
            },
        };
        let kind = retype_target_kind(ty);
        proof {
            let t = k.tcbs[caller.0 as int]->0;
            lemma_object_undone(
                k,
                ty,
                obj as int,
                NewObject {
                    phys: grant.phys_base,
                    bytes: grant.phys_len,
                    cap_space: t.cap_space,
                    addr_space: t.addr_space,
                    running,
                },
            );
        }
        let cap = Capability::full(ObjectRef::new(kind, ObjectId::new(obj)));
        match self.insert_root_into(cs, cap) {
            Some(Ok(id)) => Ok(SyscallReturn::NewCaps { cap: id, count: 1 }),
            Some(Err(e)) => {
                self.free_kernel_object(kind, obj);
                Err(SyscallError::from(e))
            },
            None => Err(SyscallError::NoCaller),
        }
    }
}

/// The first number that is out of sequence is the only one.
pub proof fn lemma_first_break(k: KernelView, b: Batch, n: int, m: int)
    requires
        is_first_break(k, b, n, m),
    ensures
        exists|i: int| is_first_break(k, b, n, i),
        (choose|i: int| is_first_break(k, b, n, i)) == m,
{
    let i = choose|i: int| is_first_break(k, b, n, i);
    if i < m {
        assert(in_sequence(k, b, i));
    } else if m < i {
        assert(in_sequence(k, b, m));
    }
}

/// Object numbers are small.
pub proof fn lemma_table_bounds(k: KernelView, ty: KernelObjectType)
    requires
        k.wf(),
    ensures
        lowest_free_object(k, ty) is Some && !(ty is SharedRegion) ==> 0 <= lowest_free_object(
            k,
            ty,
        )->0 < 1000,
        forall|j: int| #[trigger] object_free_at(k, ty, j) ==> j < 1000,
{
    let j = lowest_free_object(k, ty)->0;
    lemma_first_free(k.endpoints, j);
    lemma_first_free(k.notifications, j);
    lemma_first_free(k.addr_spaces, j);
    lemma_first_free(k.spaces, j);
    lemma_first_free(k.tcbs, j);
    lemma_first_free(k.untyped, j);
}

/// A batch leaves the thread that started it alone.
pub proof fn lemma_caller_kept(k: KernelView, b: Batch, m: int)
    requires
        k.wf(),
        slot(k.tcbs, b.caller.0) is Some,
        forall|i: int| 0 <= i < m ==> #[trigger] in_sequence(k, b, i),
    ensures
        slot(batch_state(k, b, 0, m).tcbs, b.caller.0) == slot(k.tcbs, b.caller.0),
{
    if b.ty is ThreadControlBlock && b.first_obj <= b.caller.0 < b.first_obj + m {
        assert(in_sequence(k, b, b.caller.0 - b.first_obj));
    }
}

} // verus!
