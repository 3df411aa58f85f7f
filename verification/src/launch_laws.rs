//! What holds of every launch.

use crate::cdt::{
    derived_capability, doomed, empty_table, entry_at, revoked_forest, CapTableView, GlobalCapId,
};
use crate::cdt_laws::{
    deriving_keeps_sound, forest_sound, revoking_frees_exactly_the_subtree,
    revoking_reaches_the_derived,
};
use crate::config::CAP_SLOTS_PER_SPACE;
use crate::ids::{CapId, CapSpaceId};
use crate::launch::{
    executed, granted_into, instructions_left, lemma_only_grants_change_the_kernel, op_at,
    performed, program, ran, Launch, LaunchOp, Outcome, Service, FS_DATA_SHARED_CAP_SLOT,
    FS_DATA_VA, SERVICE_RIGHTS,
};
use crate::objects::KernelObjectType;
use crate::rights::CapabilityRights;
use crate::state::{slot, KernelView};
use vstd::prelude::*;

verus! {

/// The slots of a table are handed out in order, and the first `i` have been.
pub open spec fn handed_out(table: CapTableView, n: nat, i: nat) -> bool {
    table.free == Seq::new((n - i) as nat, |j: int| CapId((i + j) as u32))
}

/// What is handed to a new process lands in its slots in order: the first capability in slot 0,
/// the next in slot 1, and so on. A process can therefore know the slots of its own
/// capabilities beforehand.
pub proof fn new_spaces_fill_in_order(
    k: KernelView,
    src: CapSpaceId,
    cap: CapId,
    dst: CapSpaceId,
    rights: CapabilityRights,
    i: nat,
)
    requires
        i < CAP_SLOTS_PER_SPACE,
        slot(k.spaces, dst.0) is Some,
        handed_out(slot(k.spaces, dst.0)->0, CAP_SLOTS_PER_SPACE as nat, i),
        granted_into(k, src, cap, dst, rights).1 is Some,
    ensures
        handed_out(empty_table(CAP_SLOTS_PER_SPACE as nat, dst), CAP_SLOTS_PER_SPACE as nat, 0),
        ({
            let (after, id) = granted_into(k, src, cap, dst, rights);
            &&& id == Some(CapId(i as u32))
            &&& slot(after.spaces, dst.0) is Some
            &&& handed_out(slot(after.spaces, dst.0)->0, CAP_SLOTS_PER_SPACE as nat, i + 1)
        }),
{
    let n = CAP_SLOTS_PER_SPACE as nat;
    let table = slot(k.spaces, dst.0)->0;
    assert(empty_table(n, dst).free =~= Seq::new((n - 0) as nat, |j: int| CapId((0 + j) as u32)));
    assert(table.free.skip(1) =~= Seq::new(
        (n - (i + 1)) as nat,
        |j: int| CapId(((i + 1) + j) as u32),
    ));
}

/// How many capabilities a launch hands over before the instruction at `pc`.
pub open spec fn grants_before(service: Service, pc: int) -> nat
    decreases pc,
{
    if pc <= 0 {
        0
    } else {
        grants_before(service, pc - 1) + if op_at(service, pc - 1) is Grant {
            1nat
        } else {
            0nat
        }
    }
}

/// The process that is launched holds what it was handed so far, in order.
pub open spec fn holds_in_order(k: KernelView, l: Launch) -> bool {
    &&& l.process is Some
    &&& slot(k.spaces, l.process->0.cap_space.0) is Some
    &&& handed_out(
        slot(k.spaces, l.process->0.cap_space.0)->0,
        CAP_SLOTS_PER_SPACE as nat,
        grants_before(l.service, l.pc as int),
    )
}

proof fn lemma_few_grants(service: Service, pc: int)
    requires
        0 <= pc,
    ensures
        grants_before(service, pc) <= pc,
    decreases pc,
{
    if pc > 0 {
        lemma_few_grants(service, pc - 1);
    }
}

/// Where instructions may be skipped.
proof fn lemma_skips_are_few(service: Service, pc: int)
    requires
        0 <= pc,
        op_at(service, pc) is SkipIfPci || op_at(service, pc) is SkipUnlessPci,
    ensures
        service is Block && (pc == 1 || pc == 7 || pc == 14) || service is Net && (pc == 5 || pc
            == 21),
{
}

/// No capability is handed over among instructions that may be skipped.
proof fn lemma_skips_pass_no_grant(service: Service, pc: int, skip: int)
    requires
        0 <= pc,
        op_at(service, pc) == LaunchOp::SkipIfPci(skip as usize) || op_at(service, pc)
            == LaunchOp::SkipUnlessPci(skip as usize),
        0 <= skip <= usize::MAX,
    ensures
        grants_before(service, pc + 1) == grants_before(service, pc),
        grants_before(service, pc + 1 + skip) == grants_before(service, pc),
{
    lemma_skips_are_few(service, pc);
    reveal_with_fuel(grants_before, 5);
    if service is Block && pc == 1 {
        assert(skip == 1);
    } else if service is Block && pc == 7 {
        assert(skip == 2);
    } else if service is Block && pc == 14 {
        assert(skip == 1);
    } else if service is Net && pc == 5 {
        assert(skip == 3);
    } else {
        assert(skip == 2);
    }
}

/// One instruction counts the capabilities that it hands over.
proof fn lemma_grants_are_counted(k: KernelView, l: Launch)
    ensures
        executed(k, l) matches Outcome::Next(k1, l1) ==> l1.service == l.service && grants_before(
            l1.service,
            l1.pc as int,
        ) == grants_before(l.service, l.pc as int) + if op_at(l.service, l.pc as int) is Grant {
            1nat
        } else {
            0nat
        },
{
    reveal(performed);
    match op_at(l.service, l.pc as int) {
        LaunchOp::SkipIfPci(n) => {
            lemma_skips_pass_no_grant(l.service, l.pc as int, n as int);
        },
        LaunchOp::SkipUnlessPci(n) => {
            lemma_skips_pass_no_grant(l.service, l.pc as int, n as int);
        },
        _ => {},
    }
}

/// Where a capability lands in the process depends on nothing but the instructions before: the
/// n-th one that is handed over is in slot n, whatever the device and whatever is skipped.
pub proof fn slots_are_known_beforehand(k: KernelView, l: Launch)
    requires
        holds_in_order(k, l),
    ensures
        executed(k, l) matches Outcome::Next(k1, l1) ==> {
            &&& holds_in_order(k1, l1)
            &&& op_at(l.service, l.pc as int) is Grant ==> granted_into(
                k,
                l.src,
                l.cap,
                l.process->0.cap_space,
                CapabilityRights { bits: SERVICE_RIGHTS },
            ).1 == Some(CapId(grants_before(l.service, l.pc as int) as u32))
        },
{
    lemma_only_grants_change_the_kernel(op_at(l.service, l.pc as int), k, l);
    lemma_grants_are_counted(k, l);
    lemma_few_grants(l.service, l.pc as int);
    let rights = CapabilityRights { bits: SERVICE_RIGHTS };
    if op_at(l.service, l.pc as int) is Grant && granted_into(
        k,
        l.src,
        l.cap,
        l.process->0.cap_space,
        rights,
    ).1 is Some {
        new_spaces_fill_in_order(
            k,
            l.src,
            l.cap,
            l.process->0.cap_space,
            rights,
            grants_before(l.service, l.pc as int),
        );
    }
}

/// Where capabilities are handed over.
proof fn lemma_grants_are_few(service: Service, pc: int)
    requires
        0 <= pc,
        op_at(service, pc) is Grant,
    ensures
        match service {
            Service::Fs | Service::Compositor => pc == 3 || pc == 9,
            Service::Mm => pc == 3,
            Service::Block => pc == 6 || pc == 20,
            Service::Net => pc == 4 || pc == 26,
            Service::Netstack => pc == 2 || pc == 4,
        },
{
}

/// The first capability of a service is handed over first, the other one second.
proof fn lemma_grants_are_numbered(service: Service, pc: int)
    requires
        0 <= pc,
        op_at(service, pc) is Grant,
    ensures
        grants_before(service, pc) == match service {
            Service::Fs | Service::Compositor => if pc == 3 {
                0nat
            } else {
                1nat
            },
            Service::Mm => 0nat,
            Service::Block => if pc == 6 {
                0nat
            } else {
                1nat
            },
            Service::Net => if pc == 4 {
                0nat
            } else {
                1nat
            },
            Service::Netstack => if pc == 2 {
                0nat
            } else {
                1nat
            },
        },
{
    lemma_grants_are_few(service, pc);
    reveal_with_fuel(grants_before, 28);
    match service {
        Service::Fs => {
            assert(grants_before(Service::Fs, 3) == 0);
            assert(grants_before(Service::Fs, 9) == 1);
        },
        Service::Compositor => {
            assert(grants_before(Service::Compositor, 3) == 0);
            assert(grants_before(Service::Compositor, 9) == 1);
        },
        Service::Mm => {
            assert(grants_before(Service::Mm, 3) == 0);
        },
        Service::Block => {
            assert(grants_before(Service::Block, 6) == 0);
            assert(grants_before(Service::Block, 20) == 1);
        },
        Service::Net => {
            assert(grants_before(Service::Net, 4) == 0);
            assert(grants_before(Service::Net, 26) == 1);
        },
        Service::Netstack => {
            assert(grants_before(Service::Netstack, 2) == 0);
            assert(grants_before(Service::Netstack, 4) == 1);
        },
    }
}

/// What the services find in their slots. Slot 0 holds the endpoint that the service answers at,
/// or, for the network service, the endpoint of the driver. Slot 1 holds a driver's notification,
/// which its interrupt is bound to; the network service's own endpoint; and the page that the
/// file system maps at `FS_DATA_VA`, which is the slot that requests name it by.
pub proof fn services_know_their_slots(service: Service, pc: int)
    requires
        0 <= pc,
        op_at(service, pc) is Grant,
    ensures
        grants_before(service, pc) <= 1,
        grants_before(service, pc) == 0 && !(service is Netstack) ==> op_at(service, pc - 1) is Start
            && op_at(service, pc - 2) is KeepEndpoint && op_at(service, pc - 3) == LaunchOp::Create(
            KernelObjectType::Endpoint,
        ),
        grants_before(service, pc) == 0 && service is Netstack ==> op_at(
            service,
            pc - 1,
        ) is UseDriverEndpoint,
        grants_before(service, pc) == 1 && (service is Block || service is Net) ==> op_at(
            service,
            pc - 1,
        ) is BindIrq && op_at(service, pc - 2) == LaunchOp::Create(KernelObjectType::Notification),
        grants_before(service, pc) == 1 && service is Netstack ==> op_at(service, pc - 1)
            == LaunchOp::Create(KernelObjectType::Endpoint) && op_at(service, pc + 1)
            is KeepEndpoint,
        grants_before(service, pc) == FS_DATA_SHARED_CAP_SLOT && service is Fs ==> op_at(
            service,
            pc + 1,
        ) == (LaunchOp::MapPage { va: FS_DATA_VA }),
{
    lemma_grants_are_few(service, pc);
    lemma_grants_are_numbered(service, pc);
}

/// What is handed to a process keeps the capability forest sound, gives no right that the
/// source does not have, and is taken back by revoking the source.
pub proof fn handed_copies_can_be_taken_back(
    k: KernelView,
    src: CapSpaceId,
    cap: CapId,
    dst: CapSpaceId,
    rights: CapabilityRights,
)
    requires
        k.wf(),
        forest_sound(k.spaces),
        granted_into(k, src, cap, dst, rights).1 is Some,
    ensures
        ({
            let (after, id) = granted_into(k, src, cap, dst, rights);
            let source = GlobalCapId { space: src, cap };
            let copy = GlobalCapId { space: dst, cap: id->0 };
            &&& forest_sound(after.spaces)
            &&& entry_at(k.spaces, source) is Some && entry_at(after.spaces, copy) is Some
            &&& entry_at(after.spaces, copy)->0.cap.rights == rights
            &&& entry_at(k.spaces, source)->0.cap.rights.has_all(rights)
            &&& entry_at(after.spaces, source) == entry_at(k.spaces, source)
            &&& doomed(after.spaces, copy, source)
            &&& entry_at(
                revoked_forest(after.spaces, source, CAP_SLOTS_PER_SPACE as nat),
                copy,
            ) is None
        }),
{
    let source = GlobalCapId { space: src, cap };
    let table = slot(k.spaces, dst.0)->0;
    let derived = derived_capability(entry_at(k.spaces, source), rights, 0)->Ok_0;
    let copy = GlobalCapId { space: dst, cap: table.free[0] };
    let after = granted_into(k, src, cap, dst, rights).0;
    assert(entry_at(k.spaces, source) == slot(k.spaces, src.0)->0.get(cap));
    assert(table.entries[table.free[0].0 as int] is None);
    assert(doomed(k.spaces, source, source));
    revoking_reaches_the_derived(k.spaces, source, dst, derived, source);
    deriving_keeps_sound(k.spaces, source, dst, rights, 0);
    assert forall|s: int| 0 <= s < after.spaces.len() && (
    #[trigger] after.spaces[s]) is Some implies after.spaces[s]->0.entries.len()
        == CAP_SLOTS_PER_SPACE by {
        assert(k.spaces[s] is Some);
    }
    revoking_frees_exactly_the_subtree(
        after.spaces,
        source,
        CAP_SLOTS_PER_SPACE as nat,
        copy,
    );
}

/// An instruction changes nothing in the kernel but the capability space of the launched
/// process, and never the process that is launched.
proof fn lemma_instruction_is_confined(k: KernelView, l: Launch)
    requires
        k.wf(),
        forest_sound(k.spaces),
    ensures
        executed(k, l) matches Outcome::Next(k1, l1) ==> {
            &&& l1.process == l.process
            &&& confined(k, k1, l)
            &&& k1.wf()
            &&& forest_sound(k1.spaces)
        },
{
    lemma_only_grants_change_the_kernel(op_at(l.service, l.pc as int), k, l);
    if let Outcome::Next(k1, l1) = executed(k, l) {
        if k1 != k {
            let p = l.process->0;
            let rights = CapabilityRights { bits: SERVICE_RIGHTS };
            assert(k1 == granted_into(k, l.src, l.cap, p.cap_space, rights).0);
            handed_copies_can_be_taken_back(k, l.src, l.cap, p.cap_space, rights);
            lemma_granting_keeps_wf(k, l.src, l.cap, p.cap_space, rights);
        }
    }
}

/// Copying a capability keeps the tables well-formed.
proof fn lemma_granting_keeps_wf(
    k: KernelView,
    src: CapSpaceId,
    cap: CapId,
    dst: CapSpaceId,
    rights: CapabilityRights,
)
    requires
        k.wf(),
        forest_sound(granted_into(k, src, cap, dst, rights).0.spaces),
    ensures
        granted_into(k, src, cap, dst, rights).0.wf(),
{
    let after = granted_into(k, src, cap, dst, rights).0;
    if after != k {
        let table = slot(k.spaces, dst.0)->0;
        assert(k.spaces[dst.0 as int] == Some(table));
        assert forall|s: int| 0 <= s < after.spaces.len() && (
        #[trigger] after.spaces[s]) is Some implies {
            let t = after.spaces[s]->0;
            t.wf() && t.space == CapSpaceId(s as u32) && t.entries.len() == CAP_SLOTS_PER_SPACE
        } by {
            assert(k.spaces[s] is Some);
        }
    }
}

/// Nothing changed but the capability space of the launched process.
pub open spec fn confined(k: KernelView, after: KernelView, l: Launch) -> bool {
    &&& after == (KernelView { spaces: after.spaces, ..k })
    &&& forall|s: CapSpaceId|
        #![trigger slot(after.spaces, s.0)]
        (l.process is None || s != l.process->0.cap_space) ==> slot(after.spaces, s.0) == slot(
            k.spaces,
            s.0,
        )
}

/// A launch, of itself, touches nothing but the capability space of the process that it
/// launches, and keeps the capability forest sound, up to every request and to its end.
pub proof fn launches_touch_only_their_process(k: KernelView, l: Launch)
    requires
        k.wf(),
        forest_sound(k.spaces),
    ensures
        ({
            let (after, now, step) = ran(k, l);
            &&& now.process == l.process
            &&& confined(k, after, l)
            &&& after.wf()
            &&& forest_sound(after.spaces)
        }),
    decreases instructions_left(l),
{
    lemma_instruction_is_confined(k, l);
    if let Outcome::Next(k1, l1) = executed(k, l) {
        if l.pc < l1.pc && l.service == l1.service && l.pc < program(l.service).len() {
            launches_touch_only_their_process(k1, l1);
            let after = ran(k1, l1).0;
            assert forall|s: CapSpaceId| l.process is None || s
                != l.process->0.cap_space implies #[trigger] slot(after.spaces, s.0) == slot(
                k.spaces,
                s.0,
            ) by {
                assert(slot(k1.spaces, s.0) == slot(k.spaces, s.0));
            }
        }
    }
}

} // verus!
