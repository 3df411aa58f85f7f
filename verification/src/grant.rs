//! Granting and revoking capabilities.

use crate::capability::KernelObjectKind;
use crate::cdt::{
    derive_child_cross_space, derived_capability, doomed_count, entry_at, lemma_doomed_count_bound,
    revoke_cross_space, revoked_forest, CapEntry, CapTableError, GlobalCapId,
};
use crate::config::{CAP_SLOTS_PER_SPACE, MAX_CAP_SPACES};
use crate::ids::{CapId, ThreadId};
use crate::rights::{CapabilityRights, GRANT_BIT, REVOKE_BIT, WRITE_BIT};
use crate::state::{slot, spaces_in_place, KernelState, KernelView};
use crate::syscall::{looked_up, resolved, SyscallError, SyscallReturn};
use vstd::prelude::*;

verus! {

/// What revoking `cap` on behalf of `caller` does, and how it ends.
pub open spec fn revoked(k: KernelView, caller: ThreadId, cap: CapId) -> (
    KernelView,
    Result<SyscallReturn, SyscallError>,
) {
    match looked_up(k, caller, cap) {
        Err(e) => (k, Err(e)),
        Ok(entry) => if !entry.cap.rights.has_all(CapabilityRights { bits: REVOKE_BIT }) {
            (k, Err(SyscallError::InsufficientRights))
        } else {
            let target = GlobalCapId { space: k.tcbs[caller.0 as int]->0.cap_space, cap };
            (
                KernelView {
                    spaces: revoked_forest(k.spaces, target, CAP_SLOTS_PER_SPACE as nat),
                    ..k
                },
                Ok(
                    SyscallReturn::Revoked {
                        freed: doomed_count(
                            k.spaces,
                            target,
                            CAP_SLOTS_PER_SPACE as nat,
                            MAX_CAP_SPACES as nat,
                        ) as u32,
                    },
                ),
            )
        },
    }
}

/// What granting `cap`, narrowed to `rights`, to a thread on behalf of `caller` does, and how
/// it ends. The copy is derived from `cap` itself, into whichever space the thread uses.
pub open spec fn granted(
    k: KernelView,
    caller: ThreadId,
    target_thread: CapId,
    cap: CapId,
    rights: CapabilityRights,
) -> (KernelView, Result<SyscallReturn, SyscallError>) {
    match resolved(
        k,
        caller,
        target_thread,
        KernelObjectKind::ThreadControlBlock,
        CapabilityRights { bits: WRITE_BIT },
    ) {
        Err(e) => (k, Err(e)),
        Ok(thread) => match slot(k.tcbs, thread.object.id.0) {
            None => (k, Err(SyscallError::BadCap)),
            Some(target) => match looked_up(k, caller, cap) {
                Err(e) => (k, Err(e)),
                Ok(entry) => if !entry.cap.rights.has_all(CapabilityRights { bits: GRANT_BIT }) {
                    (k, Err(SyscallError::InsufficientRights))
                } else {
                    match slot(k.spaces, target.cap_space.0) {
                        None => (k, Err(SyscallError::BadCap)),
                        Some(table) => match derived_capability(Some(entry), rights, 0) {
                            Err(e) => (k, Err(SyscallError::Cap(e))),
                            Ok(copy) => if table.free.len() == 0 {
                                (k, Err(SyscallError::Cap(CapTableError::Full)))
                            } else {
                                let parent = GlobalCapId {
                                    space: k.tcbs[caller.0 as int]->0.cap_space,
                                    cap,
                                };
                                (
                                    KernelView {
                                        spaces: k.spaces.update(
                                            target.cap_space.0 as int,
                                            Some(
                                                table.with_entry(
                                                    CapEntry { cap: copy, parent: Some(parent) },
                                                ),
                                            ),
                                        ),
                                        ..k
                                    },
                                    Ok(SyscallReturn::Granted { dst: table.free[0] }),
                                )
                            },
                        },
                    }
                },
            },
        },
    }
}

impl<const MMIO: usize> KernelState<MMIO> {
    /// Revokes a capability of `caller` with everything derived from it, in every space.
    pub fn do_cap_revoke(&mut self, caller: ThreadId, cap: CapId) -> (r: Result<
        SyscallReturn,
        SyscallError,
    >)
        requires
            old(self).wf(),
        ensures
            final(self).wf(),
            (final(self)@, r) == revoked(old(self)@, caller, cap),
    {
        let kind = match self.cap_kind_of(caller, cap) {
            Ok(kind) => kind,
            Err(e) => {
                return Err(e);
            },
        };
        if let Err(e) = self.resolve(caller, cap, kind, CapabilityRights::revoke()) {
            return Err(e);
        }
        let cs = match self.caller_cap_space(caller) {
            Ok(cs) => cs,
            Err(e) => {
                return Err(e);
            },
        };
        let target = GlobalCapId::new(cs, cap);
        let ghost before = self@;
        proof {
            self.lemma_view_wf();
            assert(entry_at(before.spaces, target) is Some);
            lemma_doomed_count_bound(
                before.spaces,
                target,
                CAP_SLOTS_PER_SPACE as nat,
                MAX_CAP_SPACES as nat,
            );
            let after = revoked_forest(before.spaces, target, CAP_SLOTS_PER_SPACE as nat);
            assert(spaces_in_place(after)) by {
                assert forall|s: int| 0 <= s < after.len() && (#[trigger] after[s]) is Some implies after[s]->0.space
                    == crate::ids::CapSpaceId(s as u32) by {
                    assert(before.spaces[s] is Some);
                }
            }
        }
        match revoke_cross_space(self.cap_spaces_mut(), target) {
            Ok(freed) => Ok(SyscallReturn::Revoked { freed }),
            Err(e) => Err(SyscallError::from(e)),
        }
    }

    /// Copies a capability of `caller`, narrowed to `rights`, into the capability space of the
    /// thread that `target_thread` names.
    pub fn do_cap_grant(
        &mut self,
        caller: ThreadId,
        target_thread: CapId,
        cap: CapId,
        rights: CapabilityRights,
    ) -> (r: Result<SyscallReturn, SyscallError>)
        requires
            old(self).wf(),
        ensures
            final(self).wf(),
            (final(self)@, r) == granted(old(self)@, caller, target_thread, cap, rights),
    {
        let thread = match self.resolve(
            caller,
            target_thread,
            KernelObjectKind::ThreadControlBlock,
            CapabilityRights::write(),
        ) {
            Ok(c) => ThreadId::new(c.object.id.as_u32()),
            Err(e) => {
                return Err(e);
            },
        };
        let dst = match self.tcb(thread) {
            Some(t) => t.cap_space,
            None => {
                return Err(SyscallError::BadCap);
            },
        };
        let kind = match self.cap_kind_of(caller, cap) {
            Ok(kind) => kind,
            Err(e) => {
                return Err(e);
            },
        };
        if let Err(e) = self.resolve(caller, cap, kind, CapabilityRights::grant()) {
            return Err(e);
        }
        let src = match self.caller_cap_space(caller) {
            Ok(cs) => cs,
            Err(e) => {
                return Err(e);
            },
        };
        let ghost before = self@;
        proof {
            self.lemma_view_wf();
            assert(dst.0 < before.spaces.len() ==> before.spaces.update(
                dst.0 as int,
                before.spaces[dst.0 as int],
            ) =~= before.spaces);
        }
        let derived = if src == dst {
            match self.cap_space_mut(src) {
                Some(table) => table.derive_child(cap, rights, 0),
                None => {
                    return Err(SyscallError::BadCap);
                },
            }
        } else {
            match self.cap_space_pair_mut(src, dst) {
                Some((from, to)) => derive_child_cross_space(from, src, cap, to, rights, 0),
                None => {
                    return Err(SyscallError::BadCap);
                },
            }
        };
        match derived {
            Ok(dst) => Ok(SyscallReturn::Granted { dst }),
            Err(e) => Err(SyscallError::from(e)),
        }
    }
}

} // verus!
