//! What mapping a page is for: the memory that a process names appears in the address space that
//! it names, where it says and as it says, in the kernel's records and in the hardware alike.

use crate::call_laws::{answered, asks, empowers, ends, held};
use crate::capability::KernelObjectKind;
use crate::config::PAGE_SIZE;
use crate::dispatch::{dispatched, resumed};
use crate::ids::{CapId, PageTableId, ThreadId};
use crate::objects::{MapPermissions, MmError};
use crate::rights::{EXECUTE_BIT, READ_BIT, WRITE_BIT};
use crate::state::KernelView;
use crate::syscall::{Pending, Reply, Request, Step, SyscallError, SyscallOp, SyscallReturn};
use vstd::prelude::*;

verus! {

/// Slot `frame` of `caller` names memory that starts at the physical address `phys`: an untyped
/// memory object or a device window.
pub open spec fn names_memory_at(k: KernelView, caller: ThreadId, frame: CapId, phys: u64) -> bool {
    let object = held(k, caller, frame)->0.object;
    let id = object.id.0;
    &&& held(k, caller, frame) is Some
    &&& {
        ||| object.kind is UntypedMemory && id < k.untyped.len() && k.untyped[id as int] is Some
            && k.untyped[id as int]->0.base == phys
        ||| object.kind is MmioRegion && id < k.mmio_regions.len()
            && k.mmio_regions[id as int] is Some && k.mmio_regions[id as int]->0.phys_base == phys
    }
}

/// The rights `bits` cover what `perms` allows. A frame that is mapped can always be read.
pub open spec fn rights_cover(bits: u32, perms: MapPermissions) -> bool {
    &&& bits & READ_BIT != 0
    &&& perms.writable ==> bits & WRITE_BIT != 0
    &&& perms.executable ==> bits & EXECUTE_BIT != 0
}

/// The permissions that the hardware is given say what `perms` says, and that user code may use
/// the page.
pub open spec fn says_the_same(perm_bits: usize, perms: MapPermissions) -> bool {
    &&& perm_bits % 2 == 1 <==> perms.readable
    &&& (perm_bits / 2) % 2 == 1 <==> perms.writable
    &&& (perm_bits / 4) % 2 == 1 <==> perms.executable
    &&& perm_bits / 8 == 1
}

proof fn lemma_rights_cover(bits: u32, perms: MapPermissions)
    ensures
        rights_cover(bits, perms) <==> bits & crate::mapping::rights_for(perms).bits
            == crate::mapping::rights_for(perms).bits,
{
    let w: u32 = if perms.writable {
        WRITE_BIT
    } else {
        0
    };
    let x: u32 = if perms.executable {
        EXECUTE_BIT
    } else {
        0
    };
    assert((bits & 1 != 0 && (w == 2 ==> bits & 2 != 0) && (x == 4 ==> bits & 4 != 0)) <==> (bits
        & ((1u32 | w) | x) == (1u32 | w) | x)) by (bit_vector)
        requires
            w == 0 || w == 2,
            x == 0 || x == 4,
    ;
}

/// Whoever may modify an address space and holds the rights to a frame maps that frame there: the
/// address space named is asked to record the very memory that the frame capability names, at the
/// address and with the permissions asked for.
pub proof fn a_mapping_records_the_memory_named(
    k: KernelView,
    caller: ThreadId,
    page_table: CapId,
    space: u32,
    frame: CapId,
    phys: u64,
    vaddr: usize,
    perms: MapPermissions,
)
    requires
        empowers(k, caller, page_table, KernelObjectKind::PageTable, space, WRITE_BIT),
        space < k.addr_spaces.len() && k.addr_spaces[space as int] is Some,
        names_memory_at(k, caller, frame, phys),
        rights_cover(held(k, caller, frame)->0.rights.bits, perms),
    ensures
        ({
            let call = dispatched(k, caller, SyscallOp::MapPage { page_table, frame, vaddr, perms });
            &&& call.0 == k
            &&& asks(
                call,
                Request::RecordPage {
                    space: PageTableId(space),
                    vaddr,
                    frame_phys: phys,
                    perms,
                },
            )
        }),
{
    lemma_rights_cover(held(k, caller, frame)->0.rights.bits, perms);
}

/// Without scratch frames a recorded mapping is done. With them the hardware is asked for the same
/// mapping as was recorded, under the root of the address space named, and gets all the scratch
/// frames that are unused.
pub proof fn the_hardware_maps_what_was_recorded(
    k: KernelView,
    caller: ThreadId,
    page_table: CapId,
    space: u32,
    frame: CapId,
    phys: u64,
    vaddr: usize,
    perms: MapPermissions,
    e: MmError,
)
    requires
        k.wf(),
        empowers(k, caller, page_table, KernelObjectKind::PageTable, space, WRITE_BIT),
        space < k.addr_spaces.len() && k.addr_spaces[space as int] is Some,
        names_memory_at(k, caller, frame, phys),
        rights_cover(held(k, caller, frame)->0.rights.bits, perms),
    ensures
        ({
            let call = dispatched(k, caller, SyscallOp::MapPage { page_table, frame, vaddr, perms });
            let walking = answered(call, Reply::PageRecorded(Ok(())));
            &&& walking.0 == k
            &&& k.map_pool.base == 0 ==> ends(walking, Ok(SyscallReturn::Mapped))
            &&& k.map_pool.base != 0 ==> {
                &&& walking.1 matches Step::Ask(
                    Request::WalkPage {
                        root_phys,
                        vaddr: at,
                        frame_phys,
                        perm_bits,
                        pool_base,
                        pool_len,
                    },
                    _,
                )
                &&& root_phys == k.addr_spaces[space as int]->0.root_phys
                &&& at == vaddr
                &&& frame_phys == phys
                &&& says_the_same(perm_bits, perms)
                &&& pool_base == k.map_pool.base + k.map_pool.used * PAGE_SIZE
                &&& pool_len == k.map_pool.len - k.map_pool.used
            }
            &&& answered(call, Reply::PageRecorded(Err(e))) == (
                k,
                Step::Finished(Err(SyscallError::Mm(e))),
            )
        }),
{
    lemma_rights_cover(held(k, caller, frame)->0.rights.bits, perms);
    assert(k.map_pool.used * PAGE_SIZE <= k.map_pool.len * PAGE_SIZE) by (nonlinear_arith)
        requires
            k.map_pool.used <= k.map_pool.len,
    ;
}

/// A mapping that the hardware refuses is forgotten where it was recorded, and the call fails with
/// nothing changed. One that it takes is done once stale translations are gone.
pub proof fn records_and_hardware_agree(
    k: KernelView,
    caller: ThreadId,
    page_table: CapId,
    space: u32,
    frame: CapId,
    phys: u64,
    vaddr: usize,
    perms: MapPermissions,
    consumed: u32,
)
    requires
        empowers(k, caller, page_table, KernelObjectKind::PageTable, space, WRITE_BIT),
        space < k.addr_spaces.len() && k.addr_spaces[space as int] is Some,
        names_memory_at(k, caller, frame, phys),
        rights_cover(held(k, caller, frame)->0.rights.bits, perms),
        k.map_pool.base != 0,
        k.map_pool.used + consumed <= u32::MAX,
        consumed != u32::MAX,
    ensures
        ({
            let call = dispatched(k, caller, SyscallOp::MapPage { page_table, frame, vaddr, perms });
            let walking = answered(call, Reply::PageRecorded(Ok(())));
            let undoing = answered(walking, Reply::Walked(u32::MAX));
            let flushing = answered(walking, Reply::Walked(consumed));
            &&& undoing.0 == k
            &&& asks(undoing, Request::ForgetPage { space: PageTableId(space), vaddr })
            &&& answered(undoing, Reply::Done) == (
                k,
                Step::Finished(Err(SyscallError::Mm(MmError::HardwareMapFailed))),
            )
            &&& flushing.0 == (KernelView { map_pool: flushing.0.map_pool, ..k })
            &&& flushing.0.map_pool.base == k.map_pool.base
            &&& flushing.0.map_pool.len == k.map_pool.len
            &&& flushing.0.map_pool.used == k.map_pool.used + consumed
            &&& asks(flushing, Request::FlushTlb)
            &&& answered(flushing, Reply::Done) == (
                flushing.0,
                Step::Finished(Ok(SyscallReturn::Mapped)),
            )
        }),
{
    lemma_rights_cover(held(k, caller, frame)->0.rights.bits, perms);
}

/// A scratch frame goes into the page tables once: after a walk used up `consumed` of them, the
/// next one starts right behind these and ends where the first one would have ended.
pub proof fn scratch_frames_are_used_once(
    k: KernelView,
    first: Pending,
    second: Pending,
    walk: Pending,
    consumed: u32,
)
    requires
        k.wf(),
        k.map_pool.base != 0,
        first is MapRecord,
        second is MapRecord,
        walk is MapWalk,
        consumed != u32::MAX,
        consumed <= k.map_pool.len - k.map_pool.used,
    ensures
        ({
            let one = resumed(k, first, Reply::PageRecorded(Ok(()))).1->Ask_0;
            let after = resumed(k, walk, Reply::Walked(consumed)).0;
            let two = resumed(after, second, Reply::PageRecorded(Ok(()))).1->Ask_0;
            &&& two->pool_base == one->pool_base + consumed * PAGE_SIZE
            &&& two->pool_base + two->pool_len * PAGE_SIZE == one->pool_base + one->pool_len
                * PAGE_SIZE
        }),
{
    let u = k.map_pool.used;
    let n = k.map_pool.len;
    assert(u * PAGE_SIZE <= n * PAGE_SIZE && (u + consumed) * PAGE_SIZE == u * PAGE_SIZE + consumed
        * PAGE_SIZE && (u + consumed) * PAGE_SIZE <= n * PAGE_SIZE && (n - u) * PAGE_SIZE == n
        * PAGE_SIZE - u * PAGE_SIZE && (n - (u + consumed)) * PAGE_SIZE == n * PAGE_SIZE - (u
        + consumed) * PAGE_SIZE) by (nonlinear_arith)
        requires
            u <= n,
            consumed <= n - u,
    ;
    if let Pending::MapRecord { space, root_phys, vaddr, frame_phys, perms } = first {
        let one = resumed(k, first, Reply::PageRecorded(Ok(()))).1->Ask_0;
        assert(one->pool_base == k.map_pool.base + u * PAGE_SIZE);
    }
}

/// What cannot be mapped is refused, with nothing changed: a frame slot that is empty, rights that
/// do not cover the permissions, an object that is not memory, an object that is gone.
pub proof fn what_cannot_be_mapped_is_refused(
    k: KernelView,
    caller: ThreadId,
    page_table: CapId,
    space: u32,
    frame: CapId,
    vaddr: usize,
    perms: MapPermissions,
)
    requires
        empowers(k, caller, page_table, KernelObjectKind::PageTable, space, WRITE_BIT),
    ensures
        ({
            let call = dispatched(k, caller, SyscallOp::MapPage { page_table, frame, vaddr, perms });
            let found = held(k, caller, frame);
            let covered = rights_cover(found->0.rights.bits, perms);
            let is_memory = found->0.object.kind is UntypedMemory
                || found->0.object.kind is MmioRegion;
            &&& found is None ==> call.0 == k && ends(call, Err(SyscallError::BadCap))
            &&& found is Some && !covered ==> call.0 == k && ends(
                call,
                Err(SyscallError::InsufficientRights),
            )
            &&& found is Some && covered && !is_memory ==> call.0 == k && ends(
                call,
                Err(SyscallError::WrongObjectKind),
            )
            &&& found is Some && covered && is_memory && ((forall|phys: u64|
                !names_memory_at(k, caller, frame, phys)) || space >= k.addr_spaces.len()
                || k.addr_spaces[space as int] is None) ==> call.0 == k && ends(
                call,
                Err(SyscallError::BadCap),
            )
        }),
{
    let found = held(k, caller, frame);
    lemma_rights_cover(found->0.rights.bits, perms);
    let id = found->0.object.id.0;
    if found is Some && found->0.object.kind is UntypedMemory && id < k.untyped.len()
        && k.untyped[id as int] is Some {
        assert(names_memory_at(k, caller, frame, k.untyped[id as int]->0.base));
    }
    if found is Some && found->0.object.kind is MmioRegion && id < k.mmio_regions.len()
        && k.mmio_regions[id as int] is Some {
        assert(names_memory_at(k, caller, frame, k.mmio_regions[id as int]->0.phys_base));
    }
}

} // verus!
