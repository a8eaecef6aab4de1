//! Choosing the top entries of a list of totals, in a fixed order.

use vstd::prelude::*;

verus! {

/// Entry `i` comes before entry `j`: by a greater total, or by a smaller one
/// when `ascending`; equal totals keep the order of the entries.
pub open spec fn ranks_before(t: Seq<u64>, ascending: bool, i: int, j: int) -> bool {
    if ascending {
        t[i] < t[j] || (t[i] == t[j] && i < j)
    } else {
        t[i] > t[j] || (t[i] == t[j] && i < j)
    }
}

/// `r` lists the first `limit` eligible entries of `t`, or all of them where
/// there are fewer, in ranking order.
pub open spec fn is_ranking(t: Seq<u64>, eligible: Seq<bool>, limit: nat, ascending: bool, r: Seq<usize>) -> bool {
    &&& r.len() <= limit
    &&& forall|k: int| 0 <= k < r.len() ==> (#[trigger] r[k]) < t.len() && r[k] < eligible.len() && eligible[r[k] as int]
    &&& forall|a: int, b: int| 0 <= a < b < r.len() ==> ranks_before(t, ascending, #[trigger] r[a] as int, #[trigger] r[b] as int)
    &&& forall|i: int|
        0 <= i < t.len() && i < eligible.len() && eligible[i] && !r.contains(i as usize) ==> r.len() == limit
            && forall|k: int| 0 <= k < r.len() ==> ranks_before(t, ascending, #[trigger] r[k] as int, i)
}

/// There is one ranking of given totals: two lists that both rank them are
/// the same list.
pub proof fn lemma_ranking_unique(
    t: Seq<u64>,
    eligible: Seq<bool>,
    limit: nat,
    ascending: bool,
    r1: Seq<usize>,
    r2: Seq<usize>,
)
    requires
        is_ranking(t, eligible, limit, ascending, r1),
        is_ranking(t, eligible, limit, ascending, r2),
    ensures
        r1 == r2,
{
    lemma_ranking_prefix(t, eligible, limit, ascending, r1, r2, 0);
}

proof fn lemma_ranking_prefix(
    t: Seq<u64>,
    eligible: Seq<bool>,
    limit: nat,
    ascending: bool,
    r1: Seq<usize>,
    r2: Seq<usize>,
    k: int,
)
    requires
        is_ranking(t, eligible, limit, ascending, r1),
        is_ranking(t, eligible, limit, ascending, r2),
        0 <= k,
        k <= r1.len(),
        k <= r2.len(),
        forall|m: int| 0 <= m < k ==> r1[m] == r2[m],
    ensures
        r1 == r2,
    decreases limit + 1 - k,
{
    if k < r1.len() && k < r2.len() {
        let x = r1[k];
        let y = r2[k];
        if x != y {
            // `x` is not among the first k entries of r2, which are those of r1
            if r2.contains(x) {
                let p = choose|p: int| 0 <= p < r2.len() && r2[p] == x;
                if p < k {
                    assert(r1[p] == x);
                    assert(ranks_before(t, ascending, r1[p] as int, r1[k] as int));
                } else {
                    assert(p > k);
                    assert(ranks_before(t, ascending, r2[k] as int, r2[p] as int));
                }
            } else {
                assert(ranks_before(t, ascending, r2[k] as int, x as int));
            }
            if r1.contains(y) {
                let p = choose|p: int| 0 <= p < r1.len() && r1[p] == y;
                if p < k {
                    assert(r2[p] == y);
                    assert(ranks_before(t, ascending, r2[p] as int, r2[k] as int));
                } else {
                    assert(p > k);
                    assert(ranks_before(t, ascending, r1[k] as int, r1[p] as int));
                }
            } else {
                assert(ranks_before(t, ascending, r1[k] as int, y as int));
            }
            assert(false);
        }
        lemma_ranking_prefix(t, eligible, limit, ascending, r1, r2, k + 1);
    } else if k < r1.len() {
        // r2 stops early, so it holds every eligible entry, r1[k] too
        let x = r1[k];
        assert(r2.len() < limit);
        assert(r2.contains(x));
        let p = choose|p: int| 0 <= p < r2.len() && r2[p] == x;
        assert(r1[p] == x);
        assert(ranks_before(t, ascending, r1[p] as int, r1[k] as int));
    } else if k < r2.len() {
        let y = r2[k];
        assert(r1.len() < limit);
        assert(r1.contains(y));
        let p = choose|p: int| 0 <= p < r1.len() && r1[p] == y;
        assert(r2[p] == y);
        assert(ranks_before(t, ascending, r2[p] as int, r2[k] as int));
    } else {
        assert(r1 =~= r2);
    }
}

fn before(t: &Vec<u64>, ascending: bool, i: usize, j: usize) -> (r: bool)
    requires
        i < t@.len(),
        j < t@.len(),
    ensures
        r == ranks_before(t@, ascending, i as int, j as int),
{
    if ascending {
        t[i] < t[j] || (t[i] == t[j] && i < j)
    } else {
        t[i] > t[j] || (t[i] == t[j] && i < j)
    }
}

/// The indexes of the first `limit` eligible entries of `totals` in ranking
/// order: by total, descending unless `ascending`, and by index among equal
/// totals.
pub fn rank(totals: &Vec<u64>, eligible: &Vec<bool>, limit: usize, ascending: bool) -> (r: Vec<usize>)
    requires
        totals@.len() == eligible@.len(),
    ensures
        is_ranking(totals@, eligible@, limit as nat, ascending, r@),
{
    let n = totals.len();
    let mut chosen: Vec<bool> = Vec::new();
    let mut i: usize = 0;
    while i < n
        invariant
            i <= n == totals@.len(),
            chosen@.len() == i,
            forall|j: int| 0 <= j < i ==> !(#[trigger] chosen@[j]),
        decreases n - i,
    {
        chosen.push(false);
        i = i + 1;
    }
    let mut out: Vec<usize> = Vec::new();
    while out.len() < limit
        invariant
            n == totals@.len() == eligible@.len() == chosen@.len(),
            out@.len() <= limit,
            forall|k: int| 0 <= k < out@.len() ==> (#[trigger] out@[k]) < n && eligible@[out@[k] as int],
            forall|j: int| 0 <= j < n ==> (#[trigger] chosen@[j] <==> out@.contains(j as usize)),
            forall|a: int, b: int| 0 <= a < b < out@.len() ==> ranks_before(totals@, ascending, #[trigger] out@[a] as int, #[trigger] out@[b] as int),
            forall|j: int| 0 <= j < n && eligible@[j] && !chosen@[j] ==> forall|k: int| 0 <= k < out@.len() ==> ranks_before(totals@, ascending, #[trigger] out@[k] as int, j),
        decreases limit - out@.len(),
    {
        let mut best: usize = n;
        let mut j: usize = 0;
        while j < n
            invariant
                j <= n == totals@.len() == eligible@.len() == chosen@.len(),
                best == n || (best < j && eligible@[best as int] && !chosen@[best as int]),
                forall|m: int| 0 <= m < j && eligible@[m] && !chosen@[m] ==> best < n && (m == best || ranks_before(totals@, ascending, best as int, m)),
            decreases n - j,
        {
            if eligible[j] && !chosen[j] {
                if best == n || before(totals, ascending, j, best) {
                    best = j;
                }
            }
            j = j + 1;
        }
        if best == n {
            assert forall|m: int| 0 <= m < n && eligible@[m] && !out@.contains(m as usize) implies out@.len() == limit by {
                assert(!chosen@[m]);
            }
            return out;
        }
        let ghost old_out = out@;
        out.push(best);
        chosen.set(best, true);
        assert forall|m: int| 0 <= m < n implies (#[trigger] chosen@[m] <==> out@.contains(m as usize)) by {
            if m == best {
                assert(out@[old_out.len() as int] == best);
            } else {
                if out@.contains(m as usize) {
                    let p = choose|p: int| 0 <= p < out@.len() && out@[p] == m as usize;
                    assert(p < old_out.len());
                    assert(old_out.contains(m as usize));
                }
                if old_out.contains(m as usize) {
                    let p = choose|p: int| 0 <= p < old_out.len() && old_out[p] == m as usize;
                    assert(out@[p] == m as usize);
                }
            }
        }
        assert forall|a: int, b: int| 0 <= a < b < out@.len() implies ranks_before(totals@, ascending, #[trigger] out@[a] as int, #[trigger] out@[b] as int) by {
            if b == old_out.len() {
                assert(ranks_before(totals@, ascending, old_out[a] as int, best as int));
            } else {
                assert(ranks_before(totals@, ascending, old_out[a] as int, old_out[b] as int));
            }
        }
        assert forall|m: int| 0 <= m < n && eligible@[m] && !chosen@[m] implies forall|k: int| 0 <= k < out@.len() ==> ranks_before(totals@, ascending, #[trigger] out@[k] as int, m) by {
            assert(m != best);
            assert forall|k: int| 0 <= k < out@.len() implies ranks_before(totals@, ascending, #[trigger] out@[k] as int, m) by {
                if k < old_out.len() {
                    assert(out@[k] == old_out[k]);
                }
            }
        }
    }
    assert forall|m: int| 0 <= m < n && eligible@[m] && !out@.contains(m as usize) implies out@.len() == limit && forall|k: int| 0 <= k < out@.len() ==> ranks_before(totals@, ascending, #[trigger] out@[k] as int, m) by {
        assert(!chosen@[m]);
    }
    out
}

} // verus!
