//! Carving usable physical memory into the fragments that nothing else occupies.

use vstd::prelude::*;

verus! {

/// How many holes are taken into account.
pub const MAX_HOLES: usize = 8;

/// `x` lies in one of the half-open ranges.
pub open spec fn in_some(ranges: Seq<(u64, u64)>, x: int) -> bool {
    exists|i: int| 0 <= i < ranges.len() && (#[trigger] ranges[i]).0 <= x < ranges[i].1
}

/// The holes cut down to `[start, end)`, without those that leave nothing there, in the
/// order given; at most `MAX_HOLES` of them.
pub open spec fn effective_holes(start: u64, end: u64, holes: Seq<(u64, u64)>) -> Seq<(u64, u64)>
    decreases holes.len(),
{
    if holes.len() == 0 {
        seq![]
    } else {
        let before = effective_holes(start, end, holes.drop_last());
        let (a, b) = holes.last();
        let from = if a < start {
            start
        } else {
            a
        };
        let to = if b > end {
            end
        } else {
            b
        };
        if from < to && before.len() < MAX_HOLES {
            before.push((from, to))
        } else {
            before
        }
    }
}

/// `fragments` are the maximal sub-ranges of `[start, end)` outside the holes, ascending.
pub open spec fn are_fragments(
    fragments: Seq<(u64, u64)>,
    start: u64,
    end: u64,
    holes: Seq<(u64, u64)>,
) -> bool {
    &&& forall|i: int|
        0 <= i < fragments.len() ==> (#[trigger] fragments[i]).0 < fragments[i].1
    &&& forall|i: int, j: int|
        0 <= i < j < fragments.len() ==> (#[trigger] fragments[i]).1 < (#[trigger] fragments[j]).0
    &&& forall|x: int| #[trigger]
        in_some(fragments, x) <==> start <= x < end && !in_some(holes, x)
}

/// The maximal sub-ranges of `[start, end)` outside the holes, ascending.
pub open spec fn fragments(start: u64, end: u64, holes: Seq<(u64, u64)>) -> Seq<(u64, u64)> {
    choose|f: Seq<(u64, u64)>| are_fragments(f, start, end, effective_holes(start, end, holes))
}

/// The first fragment starts at the lowest free point: two fragment lists of the same ranges
/// start alike.
proof fn lemma_first_fragment(
    f: Seq<(u64, u64)>,
    g: Seq<(u64, u64)>,
    start: u64,
    end: u64,
    holes: Seq<(u64, u64)>,
    k: int,
)
    requires
        are_fragments(f, start, end, holes),
        are_fragments(g, start, end, holes),
        0 <= k < f.len(),
        k <= g.len(),
        forall|i: int| 0 <= i < k ==> f[i] == g[i],
    ensures
        k < g.len(),
        g[k].0 <= f[k].0,
        g[k].0 == f[k].0 ==> g[k].1 >= f[k].1,
{
    let x = f[k].0 as int;
    assert(in_some(f, x));
    assert(in_some(g, x));
    let j = choose|j: int| 0 <= j < g.len() && (#[trigger] g[j]).0 <= x < g[j].1;
    if j < k {
        assert(f[j].1 < f[k].0);
    }
    if k < j {
        assert(g[k].1 < g[j].0);
    }
    if g[k].0 == f[k].0 && g[k].1 < f[k].1 {
        let y = g[k].1 as int;
        assert(f[k].0 <= y < f[k].1);
        assert(in_some(f, y));
        assert(in_some(g, y));
        let m = choose|m: int| 0 <= m < g.len() && (#[trigger] g[m]).0 <= y < g[m].1;
        if m < k {
            assert(g[m].1 < g[k].0);
        } else if m > k {
            assert(g[k].1 < g[m].0);
        }
    }
}

/// There is only one list of fragments.
pub proof fn fragments_are_unique(
    f: Seq<(u64, u64)>,
    g: Seq<(u64, u64)>,
    start: u64,
    end: u64,
    holes: Seq<(u64, u64)>,
)
    requires
        are_fragments(f, start, end, holes),
        are_fragments(g, start, end, holes),
    ensures
        f == g,
{
    lemma_same_prefix(f, g, start, end, holes, f.len());
    lemma_same_prefix(g, f, start, end, holes, g.len());
    assert(f =~= g);
}

proof fn lemma_same_prefix(
    f: Seq<(u64, u64)>,
    g: Seq<(u64, u64)>,
    start: u64,
    end: u64,
    holes: Seq<(u64, u64)>,
    n: nat,
)
    requires
        are_fragments(f, start, end, holes),
        are_fragments(g, start, end, holes),
        n <= f.len(),
    ensures
        n <= g.len(),
        forall|i: int| 0 <= i < n ==> f[i] == g[i],
    decreases n,
{
    if n > 0 {
        lemma_same_prefix(f, g, start, end, holes, (n - 1) as nat);
        lemma_first_fragment(f, g, start, end, holes, n - 1);
        lemma_first_fragment(g, f, start, end, holes, n - 1);
    }
}

/// Fills `out` with the sub-ranges of `[start, end)` that no hole covers, ascending, as far as
/// `out` has room, and returns how many were written. Holes may overlap, touch and reach
/// beyond the range.
pub fn subtract_holes(start: u64, end: u64, holes: &[(u64, u64)], out: &mut [(u64, u64)]) -> (n: usize)
    ensures
        are_fragments(
            fragments(start, end, holes@),
            start,
            end,
            effective_holes(start, end, holes@),
        ),
        n == if fragments(start, end, holes@).len() < old(out)@.len() {
            fragments(start, end, holes@).len()
        } else {
            old(out)@.len()
        },
        final(out)@ == fragments(start, end, holes@).take(n as int) + old(out)@.skip(n as int),
        fragments(start, end, holes@).len() <= effective_holes(start, end, holes@).len() + 1,
{
    let ghost out_before = out@;
    let mut sorted: [(u64, u64); MAX_HOLES] = [(0, 0);MAX_HOLES];
    let mut n: usize = 0;
    let mut h: usize = 0;
    assert(holes@.take(0) =~= seq![]);
    while h < holes.len()
        invariant
            h <= holes.len(),
            n <= MAX_HOLES,
            n == effective_holes(start, end, holes@.take(h as int)).len(),
            forall|i: int, j: int| 0 <= i < j < n ==> (#[trigger] sorted@[i]).0 <= (#[trigger] sorted@[j]).0,
            forall|i: int|
                0 <= i < n ==> start <= (#[trigger] sorted@[i]).0 < sorted@[i].1 <= end,
            forall|x: int| #[trigger]
                in_some(sorted@.take(n as int), x) <==> in_some(
                    effective_holes(start, end, holes@.take(h as int)),
                    x,
                ),
        decreases holes.len() - h,
    {
        let ghost before = effective_holes(start, end, holes@.take(h as int));
        let ghost after = effective_holes(start, end, holes@.take(h + 1));
        assert(holes@.take(h + 1).drop_last() =~= holes@.take(h as int));
        let (ha, hb) = holes[h];
        let a: u64 = if ha < start {
            start
        } else {
            ha
        };
        let b: u64 = if hb > end {
            end
        } else {
            hb
        };
        if a < b && n < MAX_HOLES {
            assert(after == before.push((a, b)));
            let ghost was = sorted@;
            let mut i: usize = n;
            while i > 0 && sorted[i - 1].0 > a
                invariant
                    i <= n < MAX_HOLES,
                    was.len() == MAX_HOLES,
                    forall|j: int| 0 <= j < i ==> sorted@[j] == was[j],
                    forall|j: int| i < j <= n ==> #[trigger] sorted@[j] == was[j - 1],
                    forall|j: int| i <= j < n ==> (#[trigger] was[j]).0 > a,
                decreases i,
            {
                sorted[i] = sorted[i - 1];
                i = i - 1;
            }
            sorted[i] = (a, b);
            proof {
                assert(i > 0 ==> was[i - 1].0 <= a);
                assert forall|j: int| 0 <= j < n + 1 implies #[trigger] sorted@[j] == if j < i {
                    was[j]
                } else if j == i {
                    (a, b)
                } else {
                    was[j - 1]
                } by {}
                assert forall|p: int, q: int| 0 <= p < q < n + 1 implies (#[trigger] sorted@[p]).0 <= (
                #[trigger] sorted@[q]).0 by {
                    if p < i && q == i {
                        assert(p < i - 1 ==> was[p].0 <= was[i - 1].0);
                    }
                }
                assert forall|j: int| 0 <= j < n + 1 implies start <= (#[trigger] sorted@[j]).0 < sorted@[j].1
                    <= end by {}
                assert forall|x: int| #[trigger]
                    in_some(sorted@.take(n + 1), x) <==> in_some(after, x) by {
                    let now = sorted@.take(n + 1);
                    let prev = was.take(n as int);
                    assert(in_some(prev, x) <==> in_some(before, x));
                    if in_some(now, x) {
                        let k = choose|k: int| 0 <= k < now.len() && (#[trigger] now[k]).0 <= x < now[k].1;
                        if k == i {
                            assert(after[before.len() as int] == (a, b));
                        } else {
                            if k < i {
                                assert(prev[k] == now[k]);
                            } else {
                                assert(prev[k - 1] == now[k]);
                            }
                            let m = choose|m: int|
                                0 <= m < before.len() && (#[trigger] before[m]).0 <= x < before[m].1;
                            assert(after[m] == before[m]);
                        }
                    }
                    if in_some(after, x) {
                        let m = choose|m: int| 0 <= m < after.len() && (#[trigger] after[m]).0 <= x < after[m].1;
                        if m == before.len() {
                            assert(now[i as int] == (a, b));
                        } else {
                            assert(before[m] == after[m]);
                            let k = choose|k: int| 0 <= k < prev.len() && (#[trigger] prev[k]).0 <= x < prev[k].1;
                            if k < i {
                                assert(now[k] == prev[k]);
                            } else {
                                assert(now[k + 1] == prev[k]);
                            }
                        }
                    }
                }
            }
            n = n + 1;
        }
        h = h + 1;
    }
    assert(holes@.take(h as int) =~= holes@);
    let ghost eff = effective_holes(start, end, holes@);

    let mut cur: u64 = start;
    let mut k: usize = 0;
    let mut m: usize = 0;
    let ghost mut found: Seq<(u64, u64)> = seq![];
    assert(n > 0 ==> start <= sorted@[0].0 < end);
    while m < n
        invariant
            m <= n <= MAX_HOLES,
            out@.len() == out_before.len(),
            forall|i: int, j: int| 0 <= i < j < n ==> (#[trigger] sorted@[i]).0 <= (#[trigger] sorted@[j]).0,
            forall|i: int|
                0 <= i < n ==> start <= (#[trigger] sorted@[i]).0 < sorted@[i].1 <= end,
            start <= cur,
            n > 0 ==> cur <= end,
            m == 0 ==> cur == start,
            found.len() <= m,
            k == if found.len() < out_before.len() {
                found.len()
            } else {
                out_before.len()
            },
            out@ =~= found.take(k as int) + out_before.skip(k as int),
            forall|i: int| 0 <= i < found.len() ==> (#[trigger] found[i]).0 < found[i].1,
            forall|i: int, j: int|
                0 <= i < j < found.len() ==> (#[trigger] found[i]).1 < (#[trigger] found[j]).0,
            forall|i: int| 0 <= i < found.len() ==> start <= (#[trigger] found[i]).0 && found[i].1 < cur,
            forall|i: int, j: int|
                0 <= i < found.len() && m <= j < n ==> (#[trigger] found[i]).1 <= (#[trigger] sorted@[j]).0,
            forall|j: int| 0 <= j < m ==> (#[trigger] sorted@[j]).1 <= cur,
            forall|x: int| #[trigger]
                in_some(found, x) <==> start <= x < cur && !in_some(sorted@.take(m as int), x),
        decreases n - m,
    {
        let (a, b) = sorted[m];
        let ghost was_found = found;
        let ghost was_cur = cur;
        if a > cur {
            proof {
                found = found.push((cur, a));
            }
            if k < out.len() {
                out[k] = (cur, a);
                k = k + 1;
                assert(out@ =~= found.take(k as int) + out_before.skip(k as int));
            } else {
                assert(out@ =~= found.take(k as int) + out_before.skip(k as int));
            }
        }
        if b > cur {
            cur = b;
        }
        proof {
            let now = sorted@.take(m + 1);
            let prev = sorted@.take(m as int);
            assert forall|x: int| #[trigger]
                in_some(found, x) <==> start <= x < cur && !in_some(now, x) by {
                assert(in_some(was_found, x) <==> start <= x < was_cur && !in_some(prev, x));
                if in_some(prev, x) {
                    let j = choose|j: int| 0 <= j < prev.len() && (#[trigger] prev[j]).0 <= x < prev[j].1;
                    assert(now[j] == prev[j]);
                }
                if in_some(now, x) {
                    let j = choose|j: int| 0 <= j < now.len() && (#[trigger] now[j]).0 <= x < now[j].1;
                    if j < m {
                        assert(prev[j] == now[j]);
                    }
                }
                if in_some(was_found, x) {
                    let j = choose|j: int|
                        0 <= j < was_found.len() && (#[trigger] was_found[j]).0 <= x < was_found[j].1;
                    assert(found[j] == was_found[j]);
                    assert(was_found[j].1 <= sorted@[m as int].0);
                }
                if in_some(found, x) {
                    let j = choose|j: int| 0 <= j < found.len() && (#[trigger] found[j]).0 <= x < found[j].1;
                    if j < was_found.len() {
                        assert(was_found[j] == found[j]);
                    }
                }
                assert(now[m as int] == (a, b));
                if a > was_cur {
                    assert(found[was_found.len() as int] == (was_cur, a));
                }
                if was_cur <= x < cur {
                    assert(!in_some(prev, x));
                    if x < a {
                        assert(in_some(found, x));
                    } else {
                        assert(in_some(now, x));
                    }
                }
            }
        }
        m = m + 1;
    }
    let ghost was_found = found;
    if cur < end {
        proof {
            found = found.push((cur, end));
        }
        if k < out.len() {
            out[k] = (cur, end);
            k = k + 1;
        }
        assert(out@ =~= found.take(k as int) + out_before.skip(k as int));
    }
    proof {
        let all = sorted@.take(n as int);
        assert forall|x: int| #[trigger]
            in_some(found, x) <==> start <= x < end && !in_some(eff, x) by {
            assert(in_some(all, x) <==> in_some(eff, x));
            assert(in_some(was_found, x) <==> start <= x < cur && !in_some(all, x));
            if in_some(was_found, x) {
                let j = choose|j: int|
                    0 <= j < was_found.len() && (#[trigger] was_found[j]).0 <= x < was_found[j].1;
                assert(found[j] == was_found[j]);
            }
            if in_some(found, x) {
                let j = choose|j: int| 0 <= j < found.len() && (#[trigger] found[j]).0 <= x < found[j].1;
                if j < was_found.len() {
                    assert(was_found[j] == found[j]);
                }
            }
            if in_some(all, x) {
                let j = choose|j: int| 0 <= j < all.len() && (#[trigger] all[j]).0 <= x < all[j].1;
                assert(sorted@[j].1 <= cur);
            }
            if cur < end {
                assert(found[was_found.len() as int] == (cur, end));
            }
        }
        assert(are_fragments(found, start, end, eff));
        fragments_are_unique(found, fragments(start, end, holes@), start, end, eff);
    }
    k
}

/// Where the run of free points that `x` may continue ends.
spec fn run_end(x: int, end: int, holes: Seq<(u64, u64)>) -> int
    decreases end - x,
{
    if x >= end || in_some(holes, x) {
        x
    } else {
        run_end(x + 1, end, holes)
    }
}

/// The runs of free points from `x` on.
spec fn runs(x: int, end: int, holes: Seq<(u64, u64)>) -> Seq<(u64, u64)>
    decreases end - x,
{
    if x >= end {
        seq![]
    } else if in_some(holes, x) {
        runs(x + 1, end, holes)
    } else {
        let e = run_end(x + 1, end, holes);
        if e <= x || e > end {
            seq![]
        } else {
            seq![(x as u64, e as u64)] + runs(e, end, holes)
        }
    }
}

proof fn lemma_run_end(x: int, end: int, holes: Seq<(u64, u64)>)
    requires
        x <= end,
    ensures
        x <= run_end(x, end, holes) <= end,
        run_end(x, end, holes) == end || in_some(holes, run_end(x, end, holes)),
        forall|y: int| x <= y < run_end(x, end, holes) ==> !#[trigger] in_some(holes, y),
    decreases end - x,
{
    if x < end && !in_some(holes, x) {
        lemma_run_end(x + 1, end, holes);
    }
}

proof fn lemma_runs(x: int, end: int, holes: Seq<(u64, u64)>)
    requires
        0 <= x,
        end <= u64::MAX,
    ensures
        forall|i: int|
            0 <= i < runs(x, end, holes).len() ==> x <= (#[trigger] runs(x, end, holes)[i]).0
                < runs(x, end, holes)[i].1,
        forall|i: int, j: int|
            0 <= i < j < runs(x, end, holes).len() ==> (#[trigger] runs(x, end, holes)[i]).1 < (
            #[trigger] runs(x, end, holes)[j]).0,
        forall|y: int| #[trigger]
            in_some(runs(x, end, holes), y) <==> x <= y < end && !in_some(holes, y),
        in_some(holes, x) ==> forall|i: int|
            0 <= i < runs(x, end, holes).len() ==> x < (#[trigger] runs(x, end, holes)[i]).0,
    decreases end - x,
{
    let r = runs(x, end, holes);
    if x < end {
        if in_some(holes, x) {
            lemma_runs(x + 1, end, holes);
            assert(r == runs(x + 1, end, holes));
        } else {
            let e = run_end(x + 1, end, holes);
            lemma_run_end(x + 1, end, holes);
            lemma_runs(e, end, holes);
            let rest = runs(e, end, holes);
            assert(r =~= seq![(x as u64, e as u64)] + rest);
            assert forall|i: int| 0 <= i < r.len() implies x <= (#[trigger] r[i]).0 < r[i].1 by {
                if i > 0 {
                    assert(r[i] == rest[i - 1]);
                }
            }
            assert forall|i: int, j: int| 0 <= i < j < r.len() implies (#[trigger] r[i]).1 < (
            #[trigger] r[j]).0 by {
                assert(r[j] == rest[j - 1]);
                if i > 0 {
                    assert(r[i] == rest[i - 1]);
                } else if e < end {
                    assert(in_some(holes, e));
                } else {
                    assert(in_some(rest, rest[j - 1].0 as int));
                }
            }
            assert forall|y: int| #[trigger]
                in_some(r, y) <==> x <= y < end && !in_some(holes, y) by {
                assert(in_some(rest, y) <==> e <= y < end && !in_some(holes, y));
                if in_some(r, y) {
                    let i = choose|i: int| 0 <= i < r.len() && (#[trigger] r[i]).0 <= y < r[i].1;
                    if i > 0 {
                        assert(rest[i - 1] == r[i]);
                    } else if y > x {
                        assert(!in_some(holes, y));
                    }
                }
                if in_some(rest, y) {
                    let i = choose|i: int| 0 <= i < rest.len() && (#[trigger] rest[i]).0 <= y < rest[i].1;
                    assert(r[i + 1] == rest[i]);
                }
                if x <= y < e {
                    assert(r[0].0 <= y < r[0].1);
                }
            }
        }
    } else {
        assert forall|y: int| !(#[trigger] in_some(r, y)) by {}
    }
}

/// Every range has a list of fragments.
pub proof fn fragments_exist(start: u64, end: u64, holes: Seq<(u64, u64)>)
    ensures
        are_fragments(
            fragments(start, end, holes),
            start,
            end,
            effective_holes(start, end, holes),
        ),
{
    let eff = effective_holes(start, end, holes);
    lemma_runs(start as int, end as int, eff);
    assert(are_fragments(runs(start as int, end as int, eff), start, end, eff));
}

/// Within the range the holes that are taken into account cover what all of them cover, as long
/// as there are not too many.
pub proof fn effective_holes_cover(start: u64, end: u64, holes: Seq<(u64, u64)>, x: int)
    requires
        holes.len() <= MAX_HOLES,
        start <= x < end,
    ensures
        in_some(effective_holes(start, end, holes), x) <==> in_some(holes, x),
    decreases holes.len(),
{
    lemma_effective_len(start, end, holes);
    if holes.len() > 0 {
        let rest = holes.drop_last();
        effective_holes_cover(start, end, rest, x);
        lemma_effective_len(start, end, rest);
        let before = effective_holes(start, end, rest);
        let eff = effective_holes(start, end, holes);
        if in_some(holes, x) {
            let i = choose|i: int| 0 <= i < holes.len() && (#[trigger] holes[i]).0 <= x < holes[i].1;
            if i < rest.len() {
                assert(rest[i] == holes[i]);
                let j = choose|j: int| 0 <= j < before.len() && (#[trigger] before[j]).0 <= x < before[j].1;
                assert(eff[j] == before[j]);
            } else {
                assert(eff[before.len() as int].0 <= x < eff[before.len() as int].1);
            }
        }
        if in_some(eff, x) {
            let j = choose|j: int| 0 <= j < eff.len() && (#[trigger] eff[j]).0 <= x < eff[j].1;
            if j < before.len() {
                assert(before[j] == eff[j]);
                let i = choose|i: int| 0 <= i < rest.len() && (#[trigger] rest[i]).0 <= x < rest[i].1;
                assert(holes[i] == rest[i]);
            } else {
                assert(holes[holes.len() - 1].0 <= x < holes[holes.len() - 1].1);
            }
        }
    }
}

proof fn lemma_effective_len(start: u64, end: u64, holes: Seq<(u64, u64)>)
    ensures
        effective_holes(start, end, holes).len() <= holes.len(),
    decreases holes.len(),
{
    if holes.len() > 0 {
        lemma_effective_len(start, end, holes.drop_last());
    }
}

} // verus!
