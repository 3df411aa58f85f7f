//! Mapping pages.
//!
//! A mapping is recorded in the address space first and then, where there are scratch frames,
//! written into the hardware's page tables. If the hardware refuses, the record is dropped
//! again, so that the two never differ.

use crate::capability::KernelObjectKind;
use crate::ids::{CapId, MmioRegionId, PageTableId, ThreadId, UntypedId};
use crate::ipc::failed;
use crate::objects::{MapPermissions, MmError};
use crate::rights::{CapabilityRights, EXECUTE_BIT, READ_BIT, WRITE_BIT};
use crate::config::PAGE_SIZE;
use crate::state::{slot, KernelState, KernelView, MapPool};
use crate::syscall::{looked_up, resolved, Pending, Request, Step, SyscallError, SyscallReturn};
use vstd::prelude::*;

verus! {

/// The rights on a frame that a mapping needs: to read it, and to write and to execute it if
/// the mapping allows that.
pub open spec fn rights_for(perms: MapPermissions) -> CapabilityRights {
    let write = if perms.writable {
        WRITE_BIT
    } else {
        0
    };
    let execute = if perms.executable {
        EXECUTE_BIT
    } else {
        0
    };
    CapabilityRights { bits: READ_BIT | write | execute }
}

/// The permissions as the page-table walk takes them. What a process maps it can use.
pub open spec fn walk_bits(perms: MapPermissions) -> int {
    (if perms.readable { 1int } else { 0 }) + (if perms.writable { 2int } else { 0 }) + (
    if perms.executable { 4int } else { 0 }) + 8
}

/// The physical address of the frame that an object provides.
pub open spec fn frame_address(k: KernelView, kind: KernelObjectKind, id: u32) -> Result<
    u64,
    SyscallError,
> {
    match kind {
        KernelObjectKind::UntypedMemory => match slot(k.untyped, id) {
            Some(u) => Ok(u.base),
            None => Err(SyscallError::BadCap),
        },
        KernelObjectKind::MmioRegion => match slot(k.mmio_regions, id) {
            Some(m) => Ok(m.phys_base),
            None => Err(SyscallError::BadCap),
        },
        _ => Err(SyscallError::WrongObjectKind),
    }
}

/// How a mapping starts.
pub open spec fn map_begun(
    k: KernelView,
    caller: ThreadId,
    page_table: CapId,
    frame: CapId,
    vaddr: usize,
    perms: MapPermissions,
) -> Step {
    match resolved(
        k,
        caller,
        page_table,
        KernelObjectKind::PageTable,
        CapabilityRights { bits: WRITE_BIT },
    ) {
        Err(e) => failed(e),
        Ok(pt) => match looked_up(k, caller, frame) {
            Err(e) => failed(e),
            Ok(entry) => if !entry.cap.rights.has_all(rights_for(perms)) {
                failed(SyscallError::InsufficientRights)
            } else {
                match frame_address(k, entry.cap.object.kind, entry.cap.object.id.0) {
                    Err(e) => failed(e),
                    Ok(frame_phys) => {
                        let space = PageTableId(pt.object.id.0);
                        match slot(k.addr_spaces, space.0) {
                            None => failed(SyscallError::BadCap),
                            Some(a) => Step::Ask(
                                Request::RecordPage { space, vaddr, frame_phys, perms },
                                Pending::MapRecord {
                                    space,
                                    root_phys: a.root_phys,
                                    vaddr,
                                    frame_phys,
                                    perms,
                                },
                            ),
                        }
                    },
                }
            },
        },
    }
}

/// A recorded mapping is written into the hardware's page tables if there are scratch frames.
pub open spec fn map_recorded(
    k: KernelView,
    space: PageTableId,
    root_phys: u64,
    vaddr: usize,
    frame_phys: u64,
    perms: MapPermissions,
    recorded: Result<(), MmError>,
) -> Step {
    match recorded {
        Err(e) => failed(SyscallError::Mm(e)),
        Ok(_) => if k.map_pool.base == 0 {
            Step::Finished(Ok(SyscallReturn::Mapped))
        } else {
            Step::Ask(
                Request::WalkPage {
                    root_phys,
                    vaddr,
                    frame_phys,
                    perm_bits: walk_bits(perms) as usize,
                    pool_base: (k.map_pool.base + k.map_pool.used * PAGE_SIZE) as usize,
                    pool_len: (k.map_pool.len - k.map_pool.used) as usize,
                },
                Pending::MapWalk { space, vaddr },
            )
        },
    }
}

/// The hardware went along and used up scratch frames, or it refused and the record is dropped.
pub open spec fn map_walked(k: KernelView, space: PageTableId, vaddr: usize, consumed: u32) -> (
    KernelView,
    Step,
) {
    if consumed == u32::MAX {
        (k, Step::Ask(Request::ForgetPage { space, vaddr }, Pending::MapUndo))
    } else {
        (
            KernelView {
                map_pool: MapPool { used: (k.map_pool.used + consumed) as u32, ..k.map_pool },
                ..k
            },
            Step::Ask(Request::FlushTlb, Pending::MapFlush),
        )
    }
}

/// A mapping gives no access that the capability to the frame does not carry: it can be read
/// only with `READ`, written only with `WRITE` and executed only with `EXECUTE`.
pub proof fn mappings_give_no_more_than_the_capability(
    k: KernelView,
    caller: ThreadId,
    page_table: CapId,
    frame: CapId,
    vaddr: usize,
    perms: MapPermissions,
)
    requires
        map_begun(k, caller, page_table, frame, vaddr, perms) is Ask,
    ensures
        ({
            let rights = looked_up(k, caller, frame)->Ok_0.cap.rights;
            &&& looked_up(k, caller, frame) is Ok
            &&& rights.bits & READ_BIT != 0
            &&& perms.writable ==> rights.bits & WRITE_BIT != 0
            &&& perms.executable ==> rights.bits & EXECUTE_BIT != 0
        }),
{
    let a = looked_up(k, caller, frame)->Ok_0.cap.rights.bits;
    let w: u32 = if perms.writable {
        WRITE_BIT
    } else {
        0
    };
    let x: u32 = if perms.executable {
        EXECUTE_BIT
    } else {
        0
    };
    assert(a & 1 != 0 && (w == 2 ==> a & 2 != 0) && (x == 4 ==> a & 4 != 0)) by (bit_vector)
        requires
            a & ((1u32 | w) | x) == (1u32 | w) | x,
    ;
}

impl<const MMIO: usize> KernelState<MMIO> {
    /// Starts a mapping of one page.
    pub fn do_map(
        &self,
        caller: ThreadId,
        page_table: CapId,
        frame: CapId,
        vaddr: usize,
        perms: MapPermissions,
    ) -> (r: Step)
        requires
            self.wf(),
        ensures
            r == map_begun(self@, caller, page_table, frame, vaddr, perms),
    {
        let space = match self.resolve(
            caller,
            page_table,
            KernelObjectKind::PageTable,
            CapabilityRights::write(),
        ) {
            Ok(c) => PageTableId::new(c.object.id.as_u32()),
            Err(e) => {
                return Step::Finished(Err(e));
            },
        };
        let need = CapabilityRights::read().union(
            if perms.writable {
                CapabilityRights::write()
            } else {
                CapabilityRights::empty()
            },
        ).union(
            if perms.executable {
                CapabilityRights::execute()
            } else {
                CapabilityRights::empty()
            },
        );
        let cap = match self.look_up(caller, frame) {
            Ok(c) => c,
            Err(e) => {
                return Step::Finished(Err(e));
            },
        };
        if !cap.allows(need) {
            return Step::Finished(Err(SyscallError::InsufficientRights));
        }
        let id: u32 = cap.object.id.as_u32();
        let frame_phys: u64 = match cap.object.kind {
            KernelObjectKind::UntypedMemory => match self.untyped(UntypedId::new(id)) {
                Some(u) => u.base,
                None => {
                    return Step::Finished(Err(SyscallError::BadCap));
                },
            },
            KernelObjectKind::MmioRegion => match self.mmio_region(MmioRegionId::new(id)) {
                Some(m) => m.phys_base,
                None => {
                    return Step::Finished(Err(SyscallError::BadCap));
                },
            },
            _ => {
                return Step::Finished(Err(SyscallError::WrongObjectKind));
            },
        };
        match self.addr_space(space) {
            Some(a) => Step::Ask(
                Request::RecordPage { space, vaddr, frame_phys, perms },
                Pending::MapRecord { space, root_phys: a.root_phys, vaddr, frame_phys, perms },
            ),
            None => Step::Finished(Err(SyscallError::BadCap)),
        }
    }

    /// Goes on with a mapping once it was recorded.
    pub fn after_record(
        &self,
        space: PageTableId,
        root_phys: u64,
        vaddr: usize,
        frame_phys: u64,
        perms: MapPermissions,
        recorded: Result<(), MmError>,
    ) -> (r: Step)
        requires
            self.wf(),
        ensures
            r == map_recorded(self@, space, root_phys, vaddr, frame_phys, perms, recorded),
    {
        if let Err(e) = recorded {
            return Step::Finished(Err(SyscallError::from(e)));
        }
        if self.map_pool_base() == 0 {
            return Step::Finished(Ok(SyscallReturn::Mapped));
        }
        let mut perm_bits: usize = 8;
        if perms.readable {
            perm_bits = perm_bits + 1;
        }
        if perms.writable {
            perm_bits = perm_bits + 2;
        }
        if perms.executable {
            perm_bits = perm_bits + 4;
        }
        let (pool_base, pool_len) = self.map_pool_remaining();
        Step::Ask(
            Request::WalkPage { root_phys, vaddr, frame_phys, perm_bits, pool_base, pool_len },
            Pending::MapWalk { space, vaddr },
        )
    }

    /// Goes on with a mapping once the hardware's page tables were walked.
    pub fn after_walk(&mut self, space: PageTableId, vaddr: usize, consumed: u32) -> (r: Step)
        requires
            old(self).wf(),
            consumed == u32::MAX || consumed <= old(self)@.map_pool.len - old(self)@.map_pool.used,
        ensures
            final(self).wf(),
            (final(self)@, r) == map_walked(old(self)@, space, vaddr, consumed),
    {
        if consumed == u32::MAX {
            return Step::Ask(Request::ForgetPage { space, vaddr }, Pending::MapUndo);
        }
        self.map_pool_advance(consumed);
        Step::Ask(Request::FlushTlb, Pending::MapFlush)
    }
}

} // verus!
