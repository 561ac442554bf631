//! Churn: how often a file changes, with recent changes counting more.

use vstd::prelude::*;
use crate::file_map::{each_once, unique_names, FileMap};
use crate::tally::{
    all_flagged, all_true, lemma_share_range, peak, peak_upto, share, share_of, tally, touch_counts,
    touches,
};
use crate::types::{names, ChurnData, Commit, SCORE_MAX};

verus! {

/// The weight of a commit of today.
pub const DECAY_ONE: u64 = 1_000_000_000;

/// The weight that is left of a weight of `DECAY_ONE` after one day: the
/// weight falls by the factor e^(-0.005) per day, which halves it in
/// about 139 days.
pub const DECAY_PER_DAY: u64 = 995_012_479;

pub const SECONDS_PER_DAY: i64 = 86_400;

/// The raw score of a file that every commit touches (500 points),
/// before it is capped at the highest score.
pub const RAW_SCALE: u64 = 500_000_000;

/// The weight of a commit that is `days` days old: `DECAY_ONE` times
/// e^(-0.005 * days), computed day by day in whole units.
pub open spec fn decay(days: nat) -> nat
    decreases days,
{
    if days == 0 {
        DECAY_ONE as nat
    } else {
        decay((days - 1) as nat) * DECAY_PER_DAY as nat / DECAY_ONE as nat
    }
}

/// The age of a commit in whole days; 0 for a commit of the future.
pub open spec fn days_ago(now: i64, timestamp: i64) -> nat {
    if now > timestamp {
        ((now - timestamp) / SECONDS_PER_DAY as int) as nat
    } else {
        0
    }
}

/// The sum of the weights of those of the first `upto` commits that
/// touch `name`.
pub open spec fn weighted_touches(commits: Seq<Commit>, name: Seq<char>, now: i64, upto: int) -> nat
    decreases upto,
{
    if upto <= 0 {
        0
    } else {
        weighted_touches(commits, name, now, upto - 1) + if commits[upto - 1].touches(name) {
            decay(days_ago(now, commits[upto - 1].timestamp))
        } else {
            0nat
        }
    }
}

/// The weighted churn of each file of `files`.
pub open spec fn weighted_counts(commits: Seq<Commit>, files: Seq<String>, now: i64) -> Seq<nat> {
    Seq::new(files.len(), |i: int| weighted_touches(commits, files[i]@, now, commits.len() as int))
}

/// The raw score of a file that `count` of `total` commits touch: five
/// times its share, capped at the highest score.
pub open spec fn raw_score_of(count: int, total: int) -> int {
    let s = share(count, total, RAW_SCALE as int);
    if s > SCORE_MAX {
        SCORE_MAX as int
    } else {
        s
    }
}

/// The keys of `m` are the candidates, each once, in the order in which
/// they first occur. Its records hold, for each key, the number of
/// commits that touch it, its raw score and its weighted churn as a
/// share of the largest.
pub open spec fn is_churn_data(
    m: FileMap<ChurnData>,
    commits: Seq<Commit>,
    files: Seq<String>,
    now: i64,
) -> bool {
    &&& m.wf()
    &&& m.paths() == each_once(names(files))
    &&& forall|i: int|
        0 <= i < m.keys.len() ==> (#[trigger] m.values[i]).commit_count == touch_counts(
            commits,
            all_flagged(commits.len()),
            m.keys@,
        )[i]
    &&& forall|i: int|
        0 <= i < m.keys.len() ==> (#[trigger] m.values[i]).raw_score == raw_score_of(
            touch_counts(commits, all_flagged(commits.len()), m.keys@)[i] as int,
            commits.len() as int,
        )
    &&& forall|i: int|
        0 <= i < m.keys.len() ==> (#[trigger] m.values[i]).weighted_score == share(
            weighted_counts(commits, m.keys@, now)[i] as int,
            peak(weighted_counts(commits, m.keys@, now)) as int,
            SCORE_MAX as int,
        )
}

/// A file that more commits touch never has the smaller raw score, and
/// every raw score lies on the scale.
pub proof fn lemma_raw_score_monotone(low: int, high: int, total: int)
    requires
        0 <= low <= high,
    ensures
        0 <= raw_score_of(low, total) <= raw_score_of(high, total) <= SCORE_MAX,
{
    crate::tally::lemma_share_monotone(low, high, total, RAW_SCALE as int);
    crate::tally::lemma_share_monotone(0, low, total, RAW_SCALE as int);
    crate::tally::lemma_share_zero(total, RAW_SCALE as int);
}

pub proof fn lemma_decay_bound(days: nat)
    ensures
        decay(days) <= DECAY_ONE,
        days > 0 && decay((days - 1) as nat) > 0 ==> decay(days) < decay((days - 1) as nat),
    decreases days,
{
    if days > 0 {
        lemma_decay_bound((days - 1) as nat);
        let w = decay((days - 1) as nat) as int;
        let q = DECAY_PER_DAY as int;
        let one = DECAY_ONE as int;
        assert(w * q / one <= w) by (nonlinear_arith)
            requires
                0 <= w,
                0 <= q < one,
        ;
        if w > 0 {
            assert(w * q / one < w) by (nonlinear_arith)
                requires
                    0 < w,
                    0 <= q < one,
            ;
        }
    }
}

/// A weight that has fallen to 0 stays there.
pub proof fn lemma_decay_stays_zero(from: nat, days: nat)
    requires
        decay(from) == 0,
        from <= days,
    ensures
        decay(days) == 0,
    decreases days,
{
    if days > from {
        lemma_decay_stays_zero(from, (days - 1) as nat);
        assert(0 * DECAY_PER_DAY as nat / DECAY_ONE as nat == 0) by (nonlinear_arith);
    }
}

proof fn lemma_weighted_bound(commits: Seq<Commit>, name: Seq<char>, now: i64, upto: int)
    requires
        0 <= upto,
    ensures
        weighted_touches(commits, name, now, upto) <= upto * DECAY_ONE,
    decreases upto,
{
    if upto > 0 {
        lemma_weighted_bound(commits, name, now, upto - 1);
        lemma_decay_bound(days_ago(now, commits[upto - 1].timestamp));
        assert((upto - 1) * DECAY_ONE + DECAY_ONE == upto * DECAY_ONE) by (nonlinear_arith);
    }
}

/// The weights of the commits by their age in days, up to the first day
/// on which the weight has fallen to 0.
pub fn decay_table() -> (r: Vec<u64>)
    ensures
        r.len() >= 1,
        forall|d: int| 0 <= d < r.len() ==> #[trigger] r[d] == decay(d as nat),
        forall|d: int| 0 <= d < r.len() - 1 ==> #[trigger] r[d] > 0,
        r[r.len() - 1] == 0,
{
    let mut table: Vec<u64> = Vec::new();
    let mut w: u64 = DECAY_ONE;
    table.push(w);
    while w > 0
        invariant
            table.len() >= 1,
            table.len() <= DECAY_ONE - w + 1,
            w == table[table.len() - 1],
            forall|d: int| 0 <= d < table.len() ==> #[trigger] table[d] == decay(d as nat),
            forall|d: int| 0 <= d < table.len() - 1 ==> #[trigger] table[d] > 0,
        decreases w,
    {
        proof {
            lemma_decay_bound(table.len() as nat);
            assert(w * DECAY_PER_DAY <= DECAY_ONE * DECAY_PER_DAY) by (nonlinear_arith)
                requires
                    0 <= w <= DECAY_ONE,
            ;
        }
        w = w * DECAY_PER_DAY / DECAY_ONE;
        table.push(w);
    }
    table
}

/// The weight of a commit made at `timestamp`, seen from `now`.
pub fn recency(table: &Vec<u64>, now: i64, timestamp: i64) -> (r: u64)
    requires
        table.len() >= 1,
        forall|d: int| 0 <= d < table.len() ==> #[trigger] table[d] == decay(d as nat),
        table[table.len() - 1] == 0,
    ensures
        r == decay(days_ago(now, timestamp)),
        r <= DECAY_ONE,
{
    proof {
        lemma_decay_bound(days_ago(now, timestamp));
    }
    if now <= timestamp {
        return table[0];
    }
    let diff: i128 = now as i128 - timestamp as i128;
    let days: i128 = diff / SECONDS_PER_DAY as i128;
    let last: usize = table.len() - 1;
    if days >= last as i128 {
        proof {
            lemma_decay_stays_zero(last as nat, days as nat);
        }
        0
    } else {
        table[days as usize]
    }
}

/// `count` as a share of `whole` on a scale from 0 to `scale`, for large
/// counts.
pub fn share_of_weight(count: u128, whole: u128, scale: u64) -> (r: u64)
    requires
        count <= whole,
        whole <= 0xffff_ffff_ffff_ffff_ffff_ffff,
        scale <= 0xffff_ffff,
    ensures
        r == share(count as int, whole as int, scale as int),
        r <= scale,
{
    if whole == 0 {
        return 0;
    }
    proof {
        lemma_share_range(count as int, whole as int, scale as int);
        assert(count * scale <= 0xffff_ffff_ffff_ffff_ffff_ffff * 0xffff_ffff) by (nonlinear_arith)
            requires
                0 <= count <= 0xffff_ffff_ffff_ffff_ffff_ffff,
                0 <= scale <= 0xffff_ffff,
        ;
    }
    let wide: u128 = (count * (scale as u128) + whole - 1) / whole;
    wide as u64
}

/// The weighted churn of the file `name`.
fn weigh_touches(
    commits: &[Commit],
    weights: &Vec<u64>,
    name: &String,
    Ghost(now): Ghost<i64>,
) -> (r: u128)
    requires
        weights.len() == commits.len(),
        forall|c: int|
            0 <= c < commits.len() ==> #[trigger] weights[c] == decay(
                days_ago(now, commits[c].timestamp),
            ),
    ensures
        r == weighted_touches(commits@, name@, now, commits.len() as int),
        r <= commits.len() * DECAY_ONE,
{
    let mut sum: u128 = 0;
    let mut i: usize = 0;
    while i < commits.len()
        invariant
            i <= commits.len(),
            weights.len() == commits.len(),
            forall|c: int|
                0 <= c < commits.len() ==> #[trigger] weights[c] == decay(
                    days_ago(now, commits[c].timestamp),
                ),
            sum == weighted_touches(commits@, name@, now, i as int),
            sum <= i * DECAY_ONE,
        decreases commits.len() - i,
    {
        proof {
            lemma_weighted_bound(commits@, name@, now, i + 1);
            assert(i * DECAY_ONE <= 0xffff_ffff_ffff_ffff * DECAY_ONE) by (nonlinear_arith)
                requires
                    i <= 0xffff_ffff_ffff_ffff,
            ;
        }
        if touches(&commits[i], name) {
            sum = sum + weights[i] as u128;
        }
        i += 1;
    }
    sum
}

/// The churn of each candidate as seen at the time `now`, in seconds
/// since 1970: the number of commits that touch it, a raw score from its
/// share of all commits, and its weighted churn as a share of the
/// largest weighted churn among the candidates.
pub fn analyze_churn(commits: &[Commit], files: &[String], now: i64) -> (r: FileMap<ChurnData>)
    ensures
        is_churn_data(r, commits@, files@, now),
        forall|i: int|
            0 <= i < r.values.len() ==> (#[trigger] r.values[i]).weighted_score <= SCORE_MAX
                && r.values[i].raw_score <= SCORE_MAX,
{
    let files = unique_names(files);
    let table = decay_table();
    let mut weights: Vec<u64> = Vec::new();
    let mut c: usize = 0;
    while c < commits.len()
        invariant
            c <= commits.len(),
            table.len() >= 1,
            forall|d: int| 0 <= d < table.len() ==> #[trigger] table[d] == decay(d as nat),
            table[table.len() - 1] == 0,
            weights.len() == c,
            forall|k: int|
                0 <= k < c ==> #[trigger] weights[k] == decay(days_ago(now, commits[k].timestamp)),
        decreases commits.len() - c,
    {
        weights.push(recency(&table, now, commits[c].timestamp));
        c += 1;
    }
    let all = all_true(commits.len());
    let counts = tally(commits, &all, &files);
    let ghost wanted = weighted_counts(commits@, files@, now);
    let mut sums: Vec<u128> = Vec::new();
    let mut top: u128 = 0;
    let mut i: usize = 0;
    while i < files.len()
        invariant
            i <= files.len(),
            weights.len() == commits.len(),
            forall|k: int|
                0 <= k < commits.len() ==> #[trigger] weights[k] == decay(
                    days_ago(now, commits[k].timestamp),
                ),
            wanted == weighted_counts(commits@, files@, now),
            sums.len() == i,
            forall|k: int| 0 <= k < i ==> #[trigger] sums[k] == wanted[k],
            forall|k: int| 0 <= k < i ==> #[trigger] sums[k] <= top,
            top == peak_upto(wanted, i as int),
            top <= commits.len() * DECAY_ONE,
        decreases files.len() - i,
    {
        let sum = weigh_touches(commits, &weights, &files[i], Ghost(now));
        if sum > top {
            top = sum;
        }
        sums.push(sum);
        i += 1;
    }
    let total = commits.len();
    let mut values: Vec<ChurnData> = Vec::new();
    let mut k: usize = 0;
    while k < files.len()
        invariant
            k <= files.len(),
            total == commits.len(),
            counts.len() == files.len(),
            sums.len() == files.len(),
            wanted == weighted_counts(commits@, files@, now),
            forall|j: int|
                0 <= j < files.len() ==> #[trigger] counts[j] == touch_counts(
                    commits@,
                    all_flagged(commits.len() as nat),
                    files@,
                )[j],
            forall|j: int| 0 <= j < files.len() ==> #[trigger] counts[j] <= commits.len(),
            forall|j: int| 0 <= j < files.len() ==> #[trigger] sums[j] == wanted[j],
            forall|j: int| 0 <= j < files.len() ==> #[trigger] sums[j] <= top,
            top == peak(wanted),
            top <= commits.len() * DECAY_ONE,
            values.len() == k,
            forall|j: int|
                0 <= j < k ==> (#[trigger] values[j]).commit_count == counts[j]
                    && values[j].raw_score == raw_score_of(counts[j] as int, total as int)
                    && values[j].weighted_score == share(
                    wanted[j] as int,
                    peak(wanted) as int,
                    SCORE_MAX as int,
                ) && values[j].weighted_score <= SCORE_MAX && values[j].raw_score <= SCORE_MAX,
        decreases files.len() - k,
    {
        let count = counts[k];
        let raw = share_of(count, total, RAW_SCALE);
        let raw_score = if raw > SCORE_MAX {
            SCORE_MAX
        } else {
            raw
        };
        proof {
            assert(commits.len() * DECAY_ONE <= 0xffff_ffff_ffff_ffff * DECAY_ONE) by (nonlinear_arith)
                requires
                    commits.len() <= 0xffff_ffff_ffff_ffff,
            ;
        }
        let weighted_score = share_of_weight(sums[k], top, SCORE_MAX);
        values.push(ChurnData { commit_count: count, weighted_score, raw_score });
        k += 1;
    }
    FileMap { keys: files, values }
}

} // verus!
