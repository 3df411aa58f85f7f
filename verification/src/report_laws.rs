//! What the figures and verdicts of the boot log mean.

use crate::report::{
    average_of, crossed_both_ways, demo_byte, demo_process, figures, kb_per_sec, latency_judged,
    preemption_judged, same_place, seen_by_both, seen_by_second, status_read, LatencyVerdict,
    NetstackStatus, RoundTrips, MM_DEMO_EXPECTED_TOTAL, MM_DEMO_EXPECTED_VICTIM,
};
use vstd::prelude::*;

verus! {

/// A throughput is the most whole kilobytes per second that the bytes amount to: at that rate no
/// more than the bytes are moved in the time, and at one more than that they are exceeded. More
/// bytes, or less time, are never a lower throughput.
pub proof fn a_throughput_is_bytes_over_time(bytes: int, ns: int, more: int, longer: int)
    requires
        0 <= bytes <= more,
        0 < ns <= longer,
        more * 1_000_000 <= u64::MAX,
    ensures
        kb_per_sec(bytes, ns) * ns <= bytes * 1_000_000,
        bytes * 1_000_000 < (kb_per_sec(bytes, ns) + 1) * ns,
        kb_per_sec(bytes, ns) <= kb_per_sec(more, ns),
        kb_per_sec(bytes, longer) <= kb_per_sec(bytes, ns),
{
    let a = bytes * 1_000_000;
    let b = more * 1_000_000;
    vstd::arithmetic::div_mod::lemma_fundamental_div_mod(a, ns);
    vstd::arithmetic::div_mod::lemma_mod_bound(a, ns);
    vstd::arithmetic::div_mod::lemma_div_is_ordered(a, b, ns);
    vstd::arithmetic::div_mod::lemma_div_is_ordered_by_denominator(a, ns, longer);
    let q = a / ns;
    assert(q * ns == ns * q && (q + 1) * ns == ns * q + ns) by (nonlinear_arith);
}

/// A transfer too large to scale counts as one that can just be scaled.
pub proof fn a_throughput_never_overflows(bytes: int, ns: int)
    requires
        0 < ns,
        bytes * 1_000_000 > u64::MAX,
    ensures
        kb_per_sec(bytes, ns) == u64::MAX as int / ns,
{
}

/// The direct path is judged by its share of the standard path: without samples of both there is
/// no verdict; if it is faster, it is so by the whole percents of the standard path that it saves,
/// and on target from thirty percent on; otherwise it is slower by the whole percents of its own
/// time that the standard path saves.
pub proof fn the_faster_path_is_told(bypass: usize, standard: usize)
    requires
        bypass != 0 && standard != 0 ==> {
            &&& (standard - bypass) * 100 <= usize::MAX
            &&& (bypass - standard) * 100 <= usize::MAX
        },
    ensures
        ({
            let verdict = latency_judged(bypass, standard);
            &&& verdict is NoSamples <==> bypass == 0 || standard == 0
            &&& verdict is Faster <==> 0 < bypass < standard
            &&& verdict matches LatencyVerdict::Faster { percent, meets_target } ==> {
                &&& percent * standard <= (standard - bypass) * 100 < (percent + 1) * standard
                &&& meets_target <==> (standard - bypass) * 100 >= 30 * standard
            }
            &&& verdict matches LatencyVerdict::Slower { percent } ==> percent * bypass <= (bypass
                - standard) * 100 < (percent + 1) * bypass
        }),
{
    if 0 < bypass < standard {
        let a = (standard - bypass) * 100;
        let n = standard as int;
        vstd::arithmetic::div_mod::lemma_fundamental_div_mod(a, n);
        vstd::arithmetic::div_mod::lemma_mod_bound(a, n);
        let q = a / n;
        assert(0 <= q <= a) by {
            vstd::arithmetic::div_mod::lemma_div_pos_is_pos(a, n);
            vstd::arithmetic::div_mod::lemma_div_nonincreasing(a, n);
        }
        assert(q * n == n * q && (q + 1) * n == n * q + n) by (nonlinear_arith);
        assert(q >= 30 ==> q * n >= 30 * n) by (nonlinear_arith)
            requires
                n > 0,
        ;
        assert(q < 30 ==> (q + 1) * n <= 30 * n) by (nonlinear_arith)
            requires
                n > 0,
        ;
    } else if bypass != 0 && standard != 0 {
        let a = (bypass - standard) * 100;
        let n = bypass as int;
        vstd::arithmetic::div_mod::lemma_fundamental_div_mod(a, n);
        vstd::arithmetic::div_mod::lemma_mod_bound(a, n);
        let q = a / n;
        assert(0 <= q <= a) by {
            vstd::arithmetic::div_mod::lemma_div_pos_is_pos(a, n);
            vstd::arithmetic::div_mod::lemma_div_nonincreasing(a, n);
        }
        assert(q * n == n * q && (q + 1) * n == n * q + n) by (nonlinear_arith);
    }
}

/// Preemption works if every process there is has moved its counter, and the verdict says how many
/// there are.
pub proof fn every_process_must_have_run(a: u32, b: u32, c: Option<u32>)
    ensures
        preemption_judged(a, b, c) is Mismatch <==> a == 0 || b == 0 || c == Some(0u32),
        preemption_judged(a, b, c) is Three ==> c is Some,
        preemption_judged(a, b, c) is Two ==> c is None,
{
}

/// The figures of a measurement bound each of its round trips, are reached by one of them, and add
/// up.
pub proof fn the_figures_bound_every_round_trip(trips: RoundTrips, times: Seq<u64>, i: int)
    requires
        trips.over(times),
        0 <= i < times.len(),
    ensures
        trips.min_ns <= times[i] <= trips.max_ns,
        times.contains(trips.min_ns),
        times.contains(trips.max_ns),
        trips.sum_ns >= times[i],
        trips.sum_ns == sum_of(times),
{
    lemma_figures(times);
    assert(figures(times).0 <= times[i]);
    lemma_part_of_sum(times, i);
}

/// All round trips together.
pub open spec fn sum_of(times: Seq<u64>) -> int {
    times.fold_left(0int, |sum: int, t: u64| sum + t)
}

proof fn lemma_figures(times: Seq<u64>)
    ensures
        forall|i: int| 0 <= i < times.len() ==> figures(times).0 <= #[trigger] times[i] <= figures(times).1,
        times.len() > 0 ==> exists|i: int|
            0 <= i < times.len() && #[trigger] times[i] == figures(times).0,
        times.len() > 0 ==> exists|i: int|
            0 <= i < times.len() && #[trigger] times[i] == figures(times).1,
        figures(times).2 == sum_of(times),
        figures(times).2 >= 0,
        0 <= figures(times).1 <= u64::MAX,
        0 <= figures(times).0 <= u64::MAX,
    decreases times.len(),
{
    if times.len() > 0 {
        let rest = times.drop_last();
        let n = times.len() - 1;
        lemma_figures(rest);
        assert forall|i: int| 0 <= i < times.len() implies figures(times).0 <= #[trigger] times[i]
            <= figures(times).1 by {
            if i < n {
                assert(rest[i] == times[i]);
            }
        }
        if rest.len() > 0 {
            let a = choose|i: int| 0 <= i < rest.len() && #[trigger] rest[i] == figures(rest).0;
            let b = choose|i: int| 0 <= i < rest.len() && #[trigger] rest[i] == figures(rest).1;
            assert(times[a] == rest[a] && times[b] == rest[b]);
        }
        assert(times[n] == times.last());
    }
}

proof fn lemma_part_of_sum(times: Seq<u64>, i: int)
    requires
        0 <= i < times.len(),
    ensures
        figures(times).2 >= times[i],
    decreases times.len(),
{
    let rest = times.drop_last();
    lemma_figures(rest);
    if i < rest.len() {
        lemma_part_of_sum(rest, i);
        assert(rest[i] == times[i]);
    }
}

/// The average is the sum over all two hundred round trips, rounded down.
pub proof fn the_average_is_over_all_round_trips(sum_ns: int)
    requires
        sum_ns >= 0,
    ensures
        average_of(sum_ns) * 200 <= sum_ns < (average_of(sum_ns) + 1) * 200,
{
}

/// What the processes saw of one another counts only if it is what was written: one sentinel went
/// one way and another came back, and the kernel saw the same.
pub proof fn only_the_sentinels_count(value: usize, b_saw: usize, kernel_view: usize, a: u32, b: u32)
    ensures
        seen_by_second(value, kernel_view) <==> value == 0xC0DE && kernel_view == value,
        seen_by_both(value, b_saw, kernel_view) <==> b_saw == 0xC0DE && value == 0xB00B
            && kernel_view == value,
        crossed_both_ways(a, b) <==> a == 0xA1A1 && b == 0xB2B2,
{
}

/// Two addresses lead to the same place if both lead somewhere, and to the same place.
pub proof fn missing_translations_are_not_the_same(first: Option<usize>, second: Option<usize>)
    ensures
        same_place(first, second) ==> first is Some && second is Some && first->0 == second->0,
        first is None || second is None ==> !same_place(first, second),
        first is Some && second is Some && first->0 == second->0 ==> same_place(first, second),
{
}

/// The status page begins with the verdict, which is zero while there is no page; every verdict
/// but the first two comes with the address that stands from byte eight on.
pub proof fn the_status_is_what_the_page_says(
    page: Seq<u8>,
    code: usize,
    status: NetstackStatus,
)
    requires
        page.len() == 14,
        status_read(Some(page), code, status),
    ensures
        code == page[0],
        status is Running <==> page[0] == 0,
        status is ArpFailed <==> page[0] == 1,
        status is Mismatch <==> page[0] == 2,
        status is Match <==> page[0] == 3,
        status is Unknown <==> page[0] > 3,
        status matches NetstackStatus::Mismatch { gateway } ==> forall|i: int|
            0 <= i < 6 ==> gateway@[i] == page[8 + i],
        status matches NetstackStatus::Match { gateway } ==> forall|i: int|
            0 <= i < 6 ==> gateway@[i] == page[8 + i],
        status matches NetstackStatus::Unknown { verdict, gateway } ==> verdict == page[0]
            && forall|i: int| 0 <= i < 6 ==> gateway@[i] == page[8 + i],
        forall|c: usize, s: NetstackStatus|
            #[trigger] status_read(None, c, s) ==> c == 0 && s is Running,
{
    assert(page.subrange(8, 14).len() == 6);
    assert forall|i: int| 0 <= i < 6 implies page.subrange(8, 14)[i] == page[8 + i] by {}
}

/// The victim that is expected is the process that may be sacrificed, though it is the smaller one,
/// and the total that is expected is that of both processes.
pub proof fn what_is_expected_follows_from_the_processes(which: u32)
    ensures
        demo_process(1).sacrificial && !demo_process(0).sacrificial,
        demo_process(1).resident_bytes < demo_process(0).resident_bytes,
        demo_process(1).thread == MM_DEMO_EXPECTED_VICTIM,
        demo_process(0).thread != demo_process(1).thread,
        demo_process(0).resident_bytes + demo_process(1).resident_bytes == MM_DEMO_EXPECTED_TOTAL,
        which != 1 ==> demo_process(which) == demo_process(0),
        demo_process(0).resident_bytes == 100 * 1024 * 1024,
        demo_process(1).resident_bytes == 4 * 1024 * 1024,
{
}

/// The payload of the file system demonstration counts up, and starts over after byte 250.
pub proof fn the_payload_counts_up(i: int)
    requires
        0 <= i,
    ensures
        i < 251 ==> demo_byte(i) == i,
        demo_byte(i + 251) == demo_byte(i),
{
}

} // verus!
