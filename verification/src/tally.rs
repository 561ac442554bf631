//! Counting the commits that touch a file, and turning counts into scores.

use vstd::prelude::*;
use crate::patterns::{regex_is_match, Pattern};
use crate::text::{chars_of, string_of, trimmed};
use crate::types::{names, Commit};

verus! {

/// How many of the first `upto` commits are flagged and touch `name`.
pub open spec fn flagged_touches(
    commits: Seq<Commit>,
    flags: Seq<bool>,
    name: Seq<char>,
    upto: int,
) -> nat
    decreases upto,
{
    if upto <= 0 {
        0
    } else {
        flagged_touches(commits, flags, name, upto - 1) + if flags[upto - 1] && commits[upto
            - 1].touches(name) {
            1nat
        } else {
            0nat
        }
    }
}

/// How many flagged commits touch `name`.
pub open spec fn touch_count(commits: Seq<Commit>, flags: Seq<bool>, name: Seq<char>) -> nat {
    flagged_touches(commits, flags, name, commits.len() as int)
}

/// The count of each file of `files`.
pub open spec fn touch_counts(commits: Seq<Commit>, flags: Seq<bool>, files: Seq<String>) -> Seq<
    nat,
> {
    Seq::new(files.len(), |i: int| touch_count(commits, flags, files[i]@))
}

/// A flag sequence that selects every commit.
pub open spec fn all_flagged(n: nat) -> Seq<bool> {
    Seq::new(n, |i: int| true)
}

/// How many commits touch `name`.
pub open spec fn total_touches(commits: Seq<Commit>, name: Seq<char>) -> nat {
    touch_count(commits, all_flagged(commits.len()), name)
}

/// The largest of the first `upto` values, and 0 where there is none.
pub open spec fn peak_upto(counts: Seq<nat>, upto: int) -> nat
    decreases upto,
{
    if upto <= 0 {
        0
    } else if counts[upto - 1] > peak_upto(counts, upto - 1) {
        counts[upto - 1]
    } else {
        peak_upto(counts, upto - 1)
    }
}

/// The largest value of `counts`, and 0 where it is empty.
pub open spec fn peak(counts: Seq<nat>) -> nat {
    peak_upto(counts, counts.len() as int)
}

/// `count` as a share of `whole`, on a scale from 0 to `scale`, rounded
/// up; 0 where `whole` is 0.
pub open spec fn share(count: int, whole: int, scale: int) -> int {
    if whole <= 0 {
        0
    } else {
        (count * scale + whole - 1) / whole
    }
}

pub proof fn lemma_peak_upto(counts: Seq<nat>, upto: int)
    requires
        0 <= upto <= counts.len(),
    ensures
        forall|i: int| 0 <= i < upto ==> #[trigger] counts[i] <= peak_upto(counts, upto),
        upto > 0 ==> exists|i: int| 0 <= i < upto && #[trigger] counts[i] == peak_upto(counts, upto),
        upto == 0 ==> peak_upto(counts, upto) == 0,
    decreases upto,
{
    if upto > 0 {
        lemma_peak_upto(counts, upto - 1);
        let now = peak_upto(counts, upto);
        if counts[upto - 1] > peak_upto(counts, upto - 1) || upto == 1 {
            assert(counts[upto - 1] == now);
        } else {
            let w = choose|i: int|
                0 <= i < upto - 1 && #[trigger] counts[i] == peak_upto(counts, upto - 1);
            assert(counts[w] == now);
        }
    }
}

/// The peak bounds every value, and some value reaches it.
pub proof fn lemma_peak(counts: Seq<nat>)
    ensures
        forall|i: int| 0 <= i < counts.len() ==> #[trigger] counts[i] <= peak(counts),
        counts.len() > 0 ==> exists|i: int|
            0 <= i < counts.len() && #[trigger] counts[i] == peak(counts),
        counts.len() == 0 ==> peak(counts) == 0,
{
    lemma_peak_upto(counts, counts.len() as int);
}

/// A share of a whole lies between 0 and the scale.
pub proof fn lemma_share_range(count: int, whole: int, scale: int)
    requires
        0 <= count <= whole,
        0 <= scale,
    ensures
        0 <= share(count, whole, scale) <= scale,
{
    if whole > 0 {
        assert(0 <= count * scale <= whole * scale) by (nonlinear_arith)
            requires
                0 <= count <= whole,
                0 <= scale,
        ;
        let top = count * scale + whole - 1;
        assert(top / whole <= scale) by (nonlinear_arith)
            requires
                0 <= top < whole * scale + whole,
                whole > 0,
        ;
        assert(0 <= top / whole) by (nonlinear_arith)
            requires
                0 <= top,
                whole > 0,
        ;
    }
}

/// A larger count never has a smaller share.
pub proof fn lemma_share_monotone(low: int, high: int, whole: int, scale: int)
    requires
        0 <= low <= high,
        0 <= scale,
    ensures
        share(low, whole, scale) <= share(high, whole, scale),
{
    if whole > 0 {
        assert(low * scale <= high * scale) by (nonlinear_arith)
            requires
                0 <= low <= high,
                0 <= scale,
        ;
        let x = low * scale + whole - 1;
        let y = high * scale + whole - 1;
        assert(x / whole <= y / whole) by (nonlinear_arith)
            requires
                x <= y,
                whole > 0,
        ;
    }
}

/// The whole itself has the full scale as its share.
pub proof fn lemma_share_full(whole: int, scale: int)
    requires
        0 < whole,
    ensures
        share(whole, whole, scale) == scale,
{
    assert((whole * scale + whole - 1) / whole == scale) by (nonlinear_arith)
        requires
            0 < whole,
    ;
}

/// A count of nothing has share 0.
pub proof fn lemma_share_zero(whole: int, scale: int)
    ensures
        share(0, whole, scale) == 0,
{
    if whole > 0 {
        assert((0 * scale + whole - 1) / whole == 0) by (nonlinear_arith)
            requires
                whole > 0,
        ;
    }
}

/// A count of something has a share of something.
pub proof fn lemma_share_positive(count: int, whole: int, scale: int)
    requires
        0 < count,
        0 < whole,
        0 < scale,
    ensures
        0 < share(count, whole, scale),
{
    assert(count * scale >= 1) by (nonlinear_arith)
        requires
            0 < count,
            0 < scale,
    ;
    let top = count * scale + whole - 1;
    assert(top / whole >= 1) by (nonlinear_arith)
        requires
            top >= whole,
            whole > 0,
    ;
}

/// Of two files, the one with the larger count never has the smaller
/// share of the largest count.
pub proof fn lemma_larger_count_scores_no_less(counts: Seq<nat>, i: int, j: int, scale: int)
    requires
        0 <= i < counts.len(),
        0 <= j < counts.len(),
        counts[i] <= counts[j],
        0 <= scale,
    ensures
        share(counts[i] as int, peak(counts) as int, scale) <= share(
            counts[j] as int,
            peak(counts) as int,
            scale,
        ),
{
    lemma_share_monotone(counts[i] as int, counts[j] as int, peak(counts) as int, scale);
}

/// A file that reaches the largest count, where that is not 0, has the
/// full scale as its share, and every share lies on the scale.
pub proof fn lemma_largest_count_scores_full(counts: Seq<nat>, i: int, scale: int)
    requires
        0 <= i < counts.len(),
        0 <= scale,
    ensures
        0 <= share(counts[i] as int, peak(counts) as int, scale) <= scale,
        counts[i] == peak(counts) && counts[i] > 0 ==> share(
            counts[i] as int,
            peak(counts) as int,
            scale,
        ) == scale,
        counts[i] == 0 ==> share(counts[i] as int, peak(counts) as int, scale) == 0,
{
    lemma_peak(counts);
    lemma_share_range(counts[i] as int, peak(counts) as int, scale);
    if counts[i] > 0 {
        lemma_share_full(peak(counts) as int, scale);
    } else {
        lemma_share_zero(peak(counts) as int, scale);
    }
}

/// Whether `commit` lists the path `name`.
pub fn touches(commit: &Commit, name: &String) -> (r: bool)
    ensures
        r == commit.touches(name@),
{
    let mut k: usize = 0;
    while k < commit.files.len()
        invariant
            k <= commit.files.len(),
            forall|j: int| 0 <= j < k ==> commit.files[j]@ != name@,
        decreases commit.files.len() - k,
    {
        if commit.files[k] == *name {
            assert(commit.paths()[k as int] == name@);
            return true;
        }
        k += 1;
    }
    assert(!commit.paths().contains(name@)) by {
        if commit.paths().contains(name@) {
            let j = choose|j: int| 0 <= j < commit.paths().len() && commit.paths()[j] == name@;
            assert(commit.files[j]@ != name@);
        }
    }
    false
}

/// The number of flagged commits that touch `name`.
pub fn count_touches(commits: &[Commit], flags: &Vec<bool>, name: &String) -> (r: usize)
    requires
        flags.len() == commits.len(),
    ensures
        r == touch_count(commits@, flags@, name@),
        r <= commits.len(),
{
    let mut count: usize = 0;
    let mut i: usize = 0;
    while i < commits.len()
        invariant
            i <= commits.len(),
            flags.len() == commits.len(),
            count == flagged_touches(commits@, flags@, name@, i as int),
            count <= i,
        decreases commits.len() - i,
    {
        if flags[i] && touches(&commits[i], name) {
            count += 1;
        }
        i += 1;
    }
    count
}

/// The count of each file of `files`.
pub fn tally(commits: &[Commit], flags: &Vec<bool>, files: &[String]) -> (r: Vec<usize>)
    requires
        flags.len() == commits.len(),
    ensures
        r.len() == files.len(),
        forall|i: int|
            0 <= i < files.len() ==> #[trigger] r[i] == touch_counts(commits@, flags@, files@)[i],
        forall|i: int| 0 <= i < files.len() ==> #[trigger] r[i] <= commits.len(),
{
    let mut r: Vec<usize> = Vec::new();
    let mut i: usize = 0;
    while i < files.len()
        invariant
            i <= files.len(),
            flags.len() == commits.len(),
            r.len() == i,
            forall|k: int|
                0 <= k < i ==> #[trigger] r[k] == touch_counts(commits@, flags@, files@)[k],
            forall|k: int| 0 <= k < i ==> #[trigger] r[k] <= commits.len(),
        decreases files.len() - i,
    {
        let c = count_touches(commits, flags, &files[i]);
        r.push(c);
        i += 1;
    }
    r
}

/// `n` flags that select every commit.
pub fn all_true(n: usize) -> (r: Vec<bool>)
    ensures
        r@ == all_flagged(n as nat),
{
    let mut r: Vec<bool> = Vec::new();
    let mut i: usize = 0;
    while i < n
        invariant
            i <= n,
            r@ =~= all_flagged(i as nat),
        decreases n - i,
    {
        r.push(true);
        i += 1;
    }
    r
}

/// The values of a vector of counts.
pub open spec fn as_nats(counts: Seq<usize>) -> Seq<nat> {
    Seq::new(counts.len(), |i: int| counts[i] as nat)
}

/// The largest of `counts`, and 0 where it is empty.
pub fn largest(counts: &Vec<usize>) -> (r: usize)
    ensures
        r == peak(as_nats(counts@)),
        forall|i: int| 0 <= i < counts.len() ==> #[trigger] counts[i] <= r,
{
    let mut m: usize = 0;
    let mut i: usize = 0;
    while i < counts.len()
        invariant
            i <= counts.len(),
            m == peak_upto(as_nats(counts@), i as int),
        decreases counts.len() - i,
    {
        if counts[i] > m {
            m = counts[i];
        }
        i += 1;
    }
    proof {
        lemma_peak(as_nats(counts@));
        assert forall|i: int| 0 <= i < counts.len() implies #[trigger] counts[i] <= m by {
            assert(as_nats(counts@)[i] <= peak(as_nats(counts@)));
        }
    }
    m
}

/// For each commit, whether `pattern` matches its subject; with `trim`,
/// its subject without the white space at its ends.
pub open spec fn subject_flags(commits: Seq<Commit>, pattern: Seq<char>, trim: bool) -> Seq<bool> {
    Seq::new(
        commits.len(),
        |i: int|
            regex_is_match(
                pattern,
                if trim {
                    trimmed(commits[i].subject@)
                } else {
                    commits[i].subject@
                },
            ),
    )
}

/// For each commit, whether `pattern` matches its subject.
pub fn match_subjects(pattern: &Pattern, commits: &[Commit], trim: bool) -> (r: Vec<bool>)
    ensures
        r@ == subject_flags(commits@, pattern@, trim),
{
    let mut r: Vec<bool> = Vec::new();
    let mut i: usize = 0;
    while i < commits.len()
        invariant
            i <= commits.len(),
            r.len() == i,
            forall|k: int| 0 <= k < i ==> r[k] == subject_flags(commits@, pattern@, trim)[k],
        decreases commits.len() - i,
    {
        let hit = if trim {
            let subject = string_of(&crate::text::trim(&chars_of(commits[i].subject.as_str())));
            pattern.matches(subject.as_str())
        } else {
            pattern.matches(commits[i].subject.as_str())
        };
        r.push(hit);
        i += 1;
    }
    assert(r@ =~= subject_flags(commits@, pattern@, trim));
    r
}

/// Each count as a share of the largest, on a scale from 0 to `scale`.
/// The largest count, where it is not 0, has the full scale, and a
/// larger count never has a smaller share.
pub fn shares_of_largest(counts: &Vec<usize>, scale: u64) -> (r: Vec<u64>)
    ensures
        r.len() == counts.len(),
        forall|i: int|
            0 <= i < counts.len() ==> #[trigger] r[i] == share(
                counts[i] as int,
                peak(as_nats(counts@)) as int,
                scale as int,
            ),
        forall|i: int| 0 <= i < counts.len() ==> #[trigger] r[i] <= scale,
        forall|i: int, j: int|
            0 <= i < counts.len() && 0 <= j < counts.len() && counts[i] <= counts[j] ==> #[trigger] r[i]
                <= #[trigger] r[j],
        forall|i: int|
            0 <= i < counts.len() && counts[i] > 0 && counts[i] == peak(as_nats(counts@))
                ==> #[trigger] r[i] == scale,
{
    let top = largest(counts);
    let mut r: Vec<u64> = Vec::new();
    let mut i: usize = 0;
    while i < counts.len()
        invariant
            i <= counts.len(),
            r.len() == i,
            top == peak(as_nats(counts@)),
            forall|k: int| 0 <= k < counts.len() ==> #[trigger] counts[k] <= top,
            forall|k: int|
                0 <= k < i ==> #[trigger] r[k] == share(counts[k] as int, top as int, scale as int),
            forall|k: int| 0 <= k < i ==> #[trigger] r[k] <= scale,
        decreases counts.len() - i,
    {
        r.push(share_of(counts[i], top, scale));
        i += 1;
    }
    proof {
        assert forall|i: int, j: int|
            0 <= i < counts.len() && 0 <= j < counts.len() && counts[i] <= counts[j] implies #[trigger] r[i]
            <= #[trigger] r[j] by {
            lemma_share_monotone(counts[i] as int, counts[j] as int, top as int, scale as int);
        }
        assert forall|i: int|
            0 <= i < counts.len() && counts[i] > 0 && counts[i] == peak(
                as_nats(counts@),
            ) implies #[trigger] r[i] == scale by {
            lemma_share_full(top as int, scale as int);
        }
    }
    r
}

/// `count` as a share of `whole` on a scale from 0 to `scale`, for a
/// whole of up to twice the machine's range.
pub fn share_wide(count: usize, whole: u128, scale: u64) -> (r: u64)
    requires
        count <= whole,
        whole <= 0x1_ffff_ffff_ffff_fffe,
    ensures
        r == share(count as int, whole as int, scale as int),
        r <= scale,
{
    if whole == 0 {
        return 0;
    }
    proof {
        lemma_share_range(count as int, whole as int, scale as int);
        assert(count * scale <= 0xffff_ffff_ffff_ffff * 0xffff_ffff_ffff_ffff) by (nonlinear_arith)
            requires
                0 <= count <= 0xffff_ffff_ffff_ffff,
                0 <= scale <= 0xffff_ffff_ffff_ffff,
        ;
    }
    let wide: u128 = ((count as u128) * (scale as u128) + whole - 1) / whole;
    wide as u64
}

/// `count` as a share of `whole` on a scale from 0 to `scale`.
pub fn share_of(count: usize, whole: usize, scale: u64) -> (r: u64)
    requires
        count <= whole,
    ensures
        r == share(count as int, whole as int, scale as int),
        r <= scale,
{
    share_wide(count, whole as u128, scale)
}

} // verus!
