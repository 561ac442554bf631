//! Bursts: clusters of three or more commits to one file within a day.

use vstd::prelude::*;
use vstd::relations::{sorted_by, total_ordering};
use vstd::seq_lib::lemma_sorted_unique;
use crate::file_map::{each_once, unique_names, FileMap};
use crate::tally::{as_nats, largest, peak, share, share_of, touches};
use crate::types::{names, BurstData, Commit, SCORE_MAX};

verus! {

/// The length of the window that a burst must fit in, in seconds.
pub const BURST_WINDOW_SECS: i64 = 86_400;

/// The number of commits that make a burst.
pub const BURST_MIN_COMMITS: usize = 3;

/// The timestamps of those of the first `upto` commits that touch `name`,
/// in commit order.
pub open spec fn touch_times(commits: Seq<Commit>, name: Seq<char>, upto: int) -> Seq<i64>
    decreases upto,
{
    if upto <= 0 {
        Seq::empty()
    } else if commits[upto - 1].touches(name) {
        touch_times(commits, name, upto - 1).push(commits[upto - 1].timestamp)
    } else {
        touch_times(commits, name, upto - 1)
    }
}

/// The order on timestamps.
pub open spec fn earlier_or_same() -> spec_fn(i64, i64) -> bool {
    |a: i64, b: i64| a <= b
}

/// `ts` in ascending order.
pub open spec fn ascending(ts: Seq<i64>) -> Seq<i64> {
    ts.sort_by(earlier_or_same())
}

/// Where the window that starts at `start` ends: the first position from
/// `j` on whose timestamp lies more than a day after that of `start`.
pub open spec fn window_end(ts: Seq<i64>, start: int, j: int) -> int
    decreases ts.len() - j,
{
    if 0 <= start < ts.len() && 0 <= j < ts.len() && ts[j] - ts[start] <= BURST_WINDOW_SECS {
        window_end(ts, start, j + 1)
    } else {
        j
    }
}

/// The number of bursts that a scan of the ascending timestamps `ts`
/// finds from position `i` on. A window of three or more commits is one
/// burst and the scan goes on behind it; a smaller one moves the scan on
/// by one commit.
pub open spec fn bursts_from(ts: Seq<i64>, i: int) -> nat
    decreases ts.len() - i,
{
    if i < 0 || i >= ts.len() {
        0
    } else {
        let j = window_end(ts, i, i + 1);
        if j - i >= 3 {
            proof {
                lemma_window_end(ts, i, i + 1);
            }
            1 + bursts_from(ts, j)
        } else {
            bursts_from(ts, i + 1)
        }
    }
}

/// The number of bursts in the history of the file `name`.
pub open spec fn burst_incidents(commits: Seq<Commit>, name: Seq<char>) -> nat {
    bursts_from(ascending(touch_times(commits, name, commits.len() as int)), 0)
}

/// The number of bursts of each file of `files`.
pub open spec fn burst_counts(commits: Seq<Commit>, files: Seq<String>) -> Seq<nat> {
    Seq::new(files.len(), |i: int| burst_incidents(commits, files[i]@))
}

pub proof fn lemma_window_end(ts: Seq<i64>, start: int, j: int)
    requires
        0 <= start < ts.len(),
        0 <= j <= ts.len(),
    ensures
        j <= window_end(ts, start, j) <= ts.len(),
    decreases ts.len() - j,
{
    if j < ts.len() && ts[j] - ts[start] <= BURST_WINDOW_SECS {
        lemma_window_end(ts, start, j + 1);
    }
}

proof fn lemma_time_order()
    ensures
        total_ordering(earlier_or_same()),
{
}

proof fn lemma_insert_multiset(s: Seq<i64>, p: int, x: i64)
    requires
        0 <= p <= s.len(),
    ensures
        s.insert(p, x).to_multiset() =~= s.to_multiset().insert(x),
{
    broadcast use vstd::multiset::group_multiset_axioms;
    broadcast use vstd::seq_lib::group_to_multiset_ensures;

    let t = s.insert(p, x);
    assert(t.remove(p) =~= s);
    assert(t[p] == x);
    vstd::seq_lib::to_multiset_remove(t, p);
}

/// The timestamps of the commits that touch `name`, in commit order.
pub fn collect_times(commits: &[Commit], name: &String) -> (r: Vec<i64>)
    ensures
        r@ == touch_times(commits@, name@, commits.len() as int),
{
    let mut r: Vec<i64> = Vec::new();
    let mut i: usize = 0;
    while i < commits.len()
        invariant
            i <= commits.len(),
            r@ == touch_times(commits@, name@, i as int),
        decreases commits.len() - i,
    {
        if touches(&commits[i], name) {
            r.push(commits[i].timestamp);
        }
        i += 1;
    }
    r
}

/// `ts` in ascending order.
pub fn sort_times(ts: &Vec<i64>) -> (r: Vec<i64>)
    ensures
        r@ == ascending(ts@),
{
    let mut r: Vec<i64> = Vec::new();
    let mut i: usize = 0;
    proof {
        assert(ts@.take(0) =~= Seq::<i64>::empty());
    }
    while i < ts.len()
        invariant
            i <= ts.len(),
            r.len() == i,
            sorted_by(r@, earlier_or_same()),
            r@.to_multiset() =~= ts@.take(i as int).to_multiset(),
        decreases ts.len() - i,
    {
        let x = ts[i];
        let mut p: usize = r.len();
        while p > 0 && r[p - 1] > x
            invariant
                p <= r.len(),
                forall|k: int| p <= k < r.len() ==> r[k] > x,
            decreases p,
        {
            p -= 1;
        }
        proof {
            lemma_insert_multiset(r@, p as int, x);
            vstd::seq_lib::to_multiset_build(ts@.take(i as int), x);
            assert(ts@.take(i as int).push(x) =~= ts@.take(i + 1));
            let t = r@.insert(p as int, x);
            assert forall|a: int, b: int| 0 <= a < b < t.len() implies #[trigger] earlier_or_same()(
                t[a],
                t[b],
            ) by {
                if a < p && b > p {
                    assert(earlier_or_same()(r@[a], r@[b - 1]));
                } else if a < p && b < p {
                    assert(earlier_or_same()(r@[a], r@[b]));
                } else if a > p {
                    assert(earlier_or_same()(r@[a - 1], r@[b - 1]));
                } else if a == p {
                    assert(r@[b - 1] > x);
                } else {
                    assert(r@[p - 1] <= x);
                    if a < p - 1 {
                        assert(earlier_or_same()(r@[a], r@[p - 1]));
                    }
                }
            }
        }
        r.insert(p, x);
        i += 1;
    }
    proof {
        assert(ts@.take(ts.len() as int) =~= ts@);
        lemma_time_order();
        ts@.lemma_sort_by_ensures(earlier_or_same());
        lemma_sorted_unique(r@, ascending(ts@), earlier_or_same());
    }
    r
}

/// The number of bursts among the ascending timestamps `ts`.
pub fn count_bursts(ts: &Vec<i64>) -> (r: usize)
    ensures
        r == bursts_from(ts@, 0),
        r <= ts.len(),
{
    let n = ts.len();
    let mut incidents: usize = 0;
    let mut i: usize = 0;
    while i < n
        invariant
            n == ts.len(),
            i <= n,
            incidents + bursts_from(ts@, i as int) == bursts_from(ts@, 0),
            incidents <= i,
        decreases n - i,
    {
        let mut j: usize = i + 1;
        while j < n && (ts[j] as i128) - (ts[i] as i128) <= BURST_WINDOW_SECS as i128
            invariant
                n == ts.len(),
                i < j <= n,
                window_end(ts@, i as int, i + 1) == window_end(ts@, i as int, j as int),
            decreases n - j,
        {
            j += 1;
        }
        if j - i >= BURST_MIN_COMMITS {
            incidents += 1;
            i = j;
        } else {
            i += 1;
        }
    }
    incidents
}

/// The number of bursts in the history of the file `name`.
pub fn file_bursts(commits: &[Commit], name: &String) -> (r: usize)
    ensures
        r == burst_incidents(commits@, name@),
{
    let times = collect_times(commits, name);
    let sorted = sort_times(&times);
    count_bursts(&sorted)
}

/// The keys of `m` are the candidates, each once, in the order in which
/// they first occur. Its records hold, for each key, the number of its
/// bursts and that number as a share of the largest number among the
/// keys.
pub open spec fn is_burst_data(m: FileMap<BurstData>, commits: Seq<Commit>, files: Seq<String>) -> bool {
    &&& m.wf()
    &&& m.paths() == each_once(names(files))
    &&& forall|i: int|
        0 <= i < m.keys.len() ==> (#[trigger] m.values[i]).burst_incidents == burst_counts(
            commits,
            m.keys@,
        )[i]
    &&& forall|i: int|
        0 <= i < m.keys.len() ==> (#[trigger] m.values[i]).burst_score == share(
            burst_counts(commits, m.keys@)[i] as int,
            peak(burst_counts(commits, m.keys@)) as int,
            SCORE_MAX as int,
        )
}

/// Detects bursts of commits per file. The record of a file holds the
/// number of its bursts and that number as a share of the largest number
/// among the candidates.
pub fn analyze_bursts(commits: &[Commit], files: &[String]) -> (r: FileMap<BurstData>)
    ensures
        is_burst_data(r, commits@, files@),
        forall|i: int| 0 <= i < r.values.len() ==> (#[trigger] r.values[i]).burst_score <= SCORE_MAX,
{
    let files = unique_names(files);
    let mut counts: Vec<usize> = Vec::new();
    let mut i: usize = 0;
    while i < files.len()
        invariant
            i <= files.len(),
            counts.len() == i,
            forall|k: int| 0 <= k < i ==> #[trigger] counts[k] == burst_counts(commits@, files@)[k],
        decreases files.len() - i,
    {
        let c = file_bursts(commits, &files[i]);
        counts.push(c);
        i += 1;
    }
    assert(as_nats(counts@) =~= burst_counts(commits@, files@));
    let top = largest(&counts);
    let mut values: Vec<BurstData> = Vec::new();
    let mut k: usize = 0;
    while k < files.len()
        invariant
            k <= files.len(),
            counts.len() == files.len(),
            values.len() == k,
            as_nats(counts@) == burst_counts(commits@, files@),
            top == peak(burst_counts(commits@, files@)),
            forall|j: int| 0 <= j < counts.len() ==> #[trigger] counts[j] <= top,
            forall|j: int|
                0 <= j < k ==> (#[trigger] values[j]).burst_incidents == burst_counts(
                    commits@,
                    files@,
                )[j],
            forall|j: int|
                0 <= j < k ==> (#[trigger] values[j]).burst_score == share(
                    burst_counts(commits@, files@)[j] as int,
                    peak(burst_counts(commits@, files@)) as int,
                    SCORE_MAX as int,
                ),
            forall|j: int| 0 <= j < k ==> (#[trigger] values[j]).burst_score <= SCORE_MAX,
        decreases files.len() - k,
    {
        let c = counts[k];
        assert(as_nats(counts@)[k as int] == c);
        let score = share_of(c, top, SCORE_MAX);
        values.push(BurstData { burst_incidents: c, burst_score: score });
        k += 1;
    }
    FileMap { keys: files, values }
}

} // verus!
