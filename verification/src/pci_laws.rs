//! What reading a device's configuration is for: its register windows are where its capability list
//! says, and its BARs decode what they say.

use crate::config::PAGE_SIZE;
use crate::pci::{
    bar_kind_of, bar_plan, caps, last_msix_cap, last_virtio_cap, layout_of, nth_cap,
    pages_for, place_of_bar, word_at, VirtioPciCapWindow, DRV_PCI_MAX_BARS,
};
use vstd::prelude::*;

verus! {

/// A word of the configuration space is made of its four bytes, the lowest first.
pub proof fn words_are_little_endian(config: Seq<u8>, at: int)
    ensures
        ({
            let w = word_at(config, at);
            &&& w % 0x100 == config[at]
            &&& (w / 0x100) % 0x100 == config[at + 1]
            &&& (w / 0x1_0000) % 0x100 == config[at + 2]
            &&& w / 0x100_0000 == config[at + 3]
        }),
{
}

/// The capability list starts where byte 0x34 points and goes on from each capability to where its
/// second byte points, until a pointer is zero or enough capabilities were looked at.
pub proof fn the_list_follows_its_pointers(config: Seq<u8>, n: nat, i: int)
    ensures
        ({
            let list = caps(config, n);
            &&& list.len() <= n
            &&& 0 <= i < list.len() ==> list[i] != 0 && list[i] == nth_cap(config, i as nat)
            &&& list.len() > 0 ==> list[0] == config[0x34]
            &&& 0 < i < list.len() ==> list[i] == config[list[i - 1] + 1]
            &&& 0 < list.len() < n ==> config[list.last() + 1] == 0
            &&& n > 0 && list.len() == 0 ==> config[0x34] == 0
        }),
    decreases n,
{
    reveal_with_fuel(nth_cap, 2);
    if n > 0 {
        the_list_follows_its_pointers(config, (n - 1) as nat, i);
        let before = caps(config, (n - 1) as nat);
        the_list_follows_its_pointers(config, (n - 1) as nat, before.len() - 1);
        let p = nth_cap(config, (n - 1) as nat);
        if p != 0 && n > 1 {
            lemma_no_gap(config, (n - 1) as nat);
            if before.len() > 0 {
                the_list_follows_its_pointers(config, (n - 1) as nat, before.len() - 1);
            }
        }
    }
}

/// If the list goes on, it has had no end before.
proof fn lemma_no_gap(config: Seq<u8>, n: nat)
    requires
        nth_cap(config, n) != 0,
    ensures
        caps(config, n).len() == n,
        n > 0 ==> nth_cap(config, (n - 1) as nat) != 0,
    decreases n,
{
    if n > 0 {
        lemma_no_gap(config, (n - 1) as nat);
    }
}

/// A capability of virtio's that describes what `cfg_type` stands for stands at `p`.
pub open spec fn describes(config: Seq<u8>, p: u8, cfg_type: u8) -> bool {
    config[p as int] == 0x09 && config[p + 3] == cfg_type
}

/// `p` is the last one in the list of which `f` holds.
pub open spec fn is_last(list: Seq<u8>, p: u8, f: spec_fn(u8) -> bool) -> bool {
    exists|i: int|
        0 <= i < list.len() && #[trigger] list[i] == p && f(p) && forall|j: int|
            i < j < list.len() ==> !f(#[trigger] list[j])
}

proof fn lemma_last_virtio(config: Seq<u8>, list: Seq<u8>, cfg_type: u8)
    ensures
        last_virtio_cap(config, list, cfg_type) matches Some(p) ==> is_last(
            list,
            p,
            |q: u8| describes(config, q, cfg_type),
        ),
        last_virtio_cap(config, list, cfg_type) is None ==> forall|j: int|
            0 <= j < list.len() ==> !describes(config, #[trigger] list[j], cfg_type),
    decreases list.len(),
{
    if list.len() > 0 {
        let rest = list.drop_last();
        let f = |q: u8| describes(config, q, cfg_type);
        lemma_last_virtio(config, rest, cfg_type);
        let n = list.len() - 1;
        if describes(config, list.last(), cfg_type) {
            assert(list[n] == list.last());
            assert(is_last(list, list.last(), f));
        } else {
            if let Some(p) = last_virtio_cap(config, rest, cfg_type) {
                let i = choose|i: int|
                    0 <= i < rest.len() && #[trigger] rest[i] == p && f(p) && forall|j: int|
                        i < j < rest.len() ==> !f(#[trigger] rest[j]);
                assert(list[i] == rest[i]);
                assert forall|j: int| i < j < list.len() implies !f(#[trigger] list[j]) by {
                    if j < n {
                        assert(rest[j] == list[j]);
                    }
                }
                assert(is_last(list, p, f));
            } else {
                assert forall|j: int| 0 <= j < list.len() implies !describes(
                    config,
                    #[trigger] list[j],
                    cfg_type,
                ) by {
                    if j < n {
                        assert(rest[j] == list[j]);
                    }
                }
            }
        }
    }
}

proof fn lemma_last_msix(config: Seq<u8>, list: Seq<u8>)
    ensures
        last_msix_cap(config, list) matches Some(p) ==> is_last(
            list,
            p,
            |q: u8| config[q as int] == 0x11,
        ),
        last_msix_cap(config, list) is None ==> forall|j: int|
            0 <= j < list.len() ==> config[(#[trigger] list[j]) as int] != 0x11,
    decreases list.len(),
{
    if list.len() > 0 {
        let rest = list.drop_last();
        let f = |q: u8| config[q as int] == 0x11;
        lemma_last_msix(config, rest);
        let n = list.len() - 1;
        if config[list.last() as int] == 0x11 {
            assert(list[n] == list.last());
            assert(is_last(list, list.last(), f));
        } else {
            if let Some(p) = last_msix_cap(config, rest) {
                let i = choose|i: int|
                    0 <= i < rest.len() && #[trigger] rest[i] == p && f(p) && forall|j: int|
                        i < j < rest.len() ==> !f(#[trigger] rest[j]);
                assert(list[i] == rest[i]);
                assert forall|j: int| i < j < list.len() implies !f(#[trigger] list[j]) by {
                    if j < n {
                        assert(rest[j] == list[j]);
                    }
                }
                assert(is_last(list, p, f));
            } else {
                assert forall|j: int| 0 <= j < list.len() implies config[(
                #[trigger] list[j]) as int] != 0x11 by {
                    if j < n {
                        assert(rest[j] == list[j]);
                    }
                }
            }
        }
    }
}

/// The window is the one that the last capability of its kind describes, which names the BAR and
/// the offset in it; without such a capability there is none.
pub open spec fn is_window(
    config: Seq<u8>,
    list: Seq<u8>,
    cfg_type: u8,
    window: Option<VirtioPciCapWindow>,
) -> bool {
    match window {
        Some(w) => exists|p: u8|
            #![trigger describes(config, p, cfg_type)]
            is_last(list, p, |q: u8| describes(config, q, cfg_type)) && w.bar == config[p + 4]
                && w.offset == word_at(config, p + 8),
        None => forall|j: int|
            0 <= j < list.len() ==> !describes(config, #[trigger] list[j], cfg_type),
    }
}

/// The register windows of a device are where its capabilities say: the common registers, the
/// doorbells, the interrupt status and the registers of its kind are the windows that the last
/// capabilities of types one to four describe. The doorbells are as far apart as their capability
/// says, and the MSI-X table is in the BAR and at the offset that its word holds.
pub proof fn windows_are_where_the_list_says(config: Seq<u8>, list: Seq<u8>)
    ensures
        ({
            let layout = layout_of(config, list);
            &&& is_window(config, list, 1, layout.common)
            &&& is_window(config, list, 2, layout.notify)
            &&& is_window(config, list, 3, layout.isr)
            &&& is_window(config, list, 4, layout.device)
            &&& layout.notify is None ==> layout.notify_off_multiplier == 0
            &&& layout.notify is Some ==> exists|p: u8|
                #![trigger describes(config, p, 2)]
                is_last(list, p, |q: u8| describes(config, q, 2)) && layout.notify_off_multiplier
                    == word_at(config, p + 16)
            &&& layout.msix is None ==> forall|j: int|
                0 <= j < list.len() ==> config[(#[trigger] list[j]) as int] != 0x11
            &&& layout.msix matches Some(m) ==> {
                &&& is_last(list, m.cap_ptr, |q: u8| config[q as int] == 0x11)
                &&& m.bar < 8
                &&& m.table_offset % 8 == 0
                &&& m.bar + m.table_offset == word_at(config, m.cap_ptr + 4)
            }
        }),
{
    lemma_last_virtio(config, list, 1);
    lemma_last_virtio(config, list, 2);
    lemma_last_virtio(config, list, 3);
    lemma_last_virtio(config, list, 4);
    lemma_last_msix(config, list);
    if let Some(p) = last_virtio_cap(config, list, 1) {
        assert(describes(config, p, 1));
    }
    if let Some(p) = last_virtio_cap(config, list, 2) {
        assert(describes(config, p, 2));
    }
    if let Some(p) = last_virtio_cap(config, list, 3) {
        assert(describes(config, p, 3));
    }
    if let Some(p) = last_virtio_cap(config, list, 4) {
        assert(describes(config, p, 4));
    }
}

/// A BAR's lowest bit tells ports from memory, and the two bits above it tell whether the next
/// register holds the upper half of the address. The registers of the BARs stand one after the
/// other, four bytes each, from 0x10 on.
pub proof fn the_low_bits_of_a_bar_tell_its_kind(bar: u32, index: u8)
    ensures
        bar_kind_of(bar) is Io <==> bar & 1 == 1,
        bar_kind_of(bar) is Memory64 <==> bar & 1 == 0 && (bar >> 1) & 3 == 2,
        bar_kind_of(bar) is Memory32 <==> bar & 1 == 0 && (bar >> 1) & 3 != 2,
        place_of_bar(0) == 0x10,
        index < u8::MAX ==> place_of_bar((index + 1) as u8) == place_of_bar(index) + 4,
{
    assert(bar & 1 == bar % 2) by (bit_vector);
    assert((bar >> 1) & 3 == (bar / 2) % 4) by (bit_vector);
}

/// A BAR gets a place of its own just if one is left and the BAR, in whole pages, is not empty and
/// fits there: all of it is mapped, with scratch pages for every table that this takes and two
/// more.
pub proof fn a_bar_gets_a_place_if_it_fits(count: int, size: int)
    requires
        0 <= count,
        0 <= size,
    ensures
        ({
            let plan = bar_plan(count, size);
            &&& plan is Some <==> count < DRV_PCI_MAX_BARS && 0 < size <= 0x10_0000
            &&& plan matches Some(p) ==> {
                &&& p.va == 0xD840_0000 + count * 0x10_0000
                &&& size <= p.len < size + PAGE_SIZE
                &&& p.len % PAGE_SIZE as u64 == 0
                &&& pages_for(size) * PAGE_SIZE == p.len
                &&& pages_for(size) <= (p.pool_pages - 2) * 512 < pages_for(size) + 512
            }
        }),
{
}

} // verus!
