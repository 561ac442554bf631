//! Commit quality: how often a file is part of a careless or an
//! oversized commit.

use vstd::prelude::*;
use crate::file_map::{each_once, unique_names, FileMap};
use crate::patterns::{regex_compiles, regex_is_match, Pattern, PatternError};
use crate::tally::{as_nats, peak, share, shares_of_largest, tally, touch_counts};
use crate::text::{chars_of, string_of, trim, trimmed};
use crate::types::{names, Commit, CommitQualityData};

verus! {

/// Subjects of work in progress: one of the key words as a whole word,
/// or nothing but one of the generic words.
pub const WIP_PATTERN: &'static str =
    r"(?i)\b(wip|temp|tmp|fixup|squash|hack|dirty|oops|typo|debug|draft)\b|^(fix|update|changes|stuff|misc|test|cleanup|commit|save|ok|done)[.!\s]*$";

/// A commit that touches more files than this is large.
pub const LARGE_COMMIT_THRESHOLD: usize = 30;

/// A trimmed subject with fewer characters than this is careless.
pub const SHORT_MSG_MIN_LENGTH: usize = 10;

/// The part of the score that careless commits make up (60 points).
pub const WIP_SHARE: u64 = 60_000_000;

/// The part of the score that large commits make up (40 points).
pub const LARGE_SHARE: u64 = 40_000_000;

/// Whether a subject is careless, given whether the pattern matches it
/// trimmed.
pub open spec fn is_careless(subject: Seq<char>, matched: bool) -> bool {
    matched || trimmed(subject).len() < SHORT_MSG_MIN_LENGTH
}

/// For each commit, whether its subject is careless.
pub open spec fn wip_flags(commits: Seq<Commit>) -> Seq<bool> {
    Seq::new(
        commits.len(),
        |i: int|
            is_careless(
                commits[i].subject@,
                regex_is_match(WIP_PATTERN@, trimmed(commits[i].subject@)),
            ),
    )
}

/// For each commit, whether it is large.
pub open spec fn large_flags(commits: Seq<Commit>) -> Seq<bool> {
    Seq::new(commits.len(), |i: int| commits[i].files.len() > LARGE_COMMIT_THRESHOLD)
}

/// The score of a file: 60 points times its careless commits as a share
/// of the largest such number, plus 40 points times its large commits as
/// a share of the largest such number.
pub open spec fn quality_score(wip: int, top_wip: int, large: int, top_large: int) -> int {
    share(wip, top_wip, WIP_SHARE as int) + share(large, top_large, LARGE_SHARE as int)
}

/// The keys of `m` are the candidates, each once, in the order in which
/// they first occur. Its records hold, for each key, the numbers of
/// careless and of large commits that touch it, and the score that
/// follows from them.
pub open spec fn is_quality_data(
    m: FileMap<CommitQualityData>,
    commits: Seq<Commit>,
    wip: Seq<bool>,
    files: Seq<String>,
) -> bool {
    &&& m.wf()
    &&& m.paths() == each_once(names(files))
    &&& forall|i: int|
        0 <= i < m.keys.len() ==> (#[trigger] m.values[i]).wip_commits == touch_counts(
            commits,
            wip,
            m.keys@,
        )[i]
    &&& forall|i: int|
        0 <= i < m.keys.len() ==> (#[trigger] m.values[i]).large_commit_count == touch_counts(
            commits,
            large_flags(commits),
            m.keys@,
        )[i]
    &&& forall|i: int|
        0 <= i < m.keys.len() ==> (#[trigger] m.values[i]).commit_quality_score == quality_score(
            touch_counts(commits, wip, m.keys@)[i] as int,
            peak(touch_counts(commits, wip, m.keys@)) as int,
            touch_counts(commits, large_flags(commits), m.keys@)[i] as int,
            peak(touch_counts(commits, large_flags(commits), m.keys@)) as int,
        )
}

/// Whether a subject is careless, given whether the pattern matches it
/// trimmed.
pub fn careless(subject: &str, matched: bool) -> (r: bool)
    ensures
        r == is_careless(subject@, matched),
{
    if matched {
        return true;
    }
    let t = trim(&chars_of(subject));
    t.len() < SHORT_MSG_MIN_LENGTH
}

/// For each commit, whether it is large.
pub fn mark_large(commits: &[Commit]) -> (r: Vec<bool>)
    ensures
        r@ == large_flags(commits@),
{
    let mut r: Vec<bool> = Vec::new();
    let mut i: usize = 0;
    while i < commits.len()
        invariant
            i <= commits.len(),
            r.len() == i,
            forall|k: int| 0 <= k < i ==> r[k] == large_flags(commits@)[k],
        decreases commits.len() - i,
    {
        r.push(commits[i].files.len() > LARGE_COMMIT_THRESHOLD);
        i += 1;
    }
    assert(r@ =~= large_flags(commits@));
    r
}

/// Counts, for each candidate, the careless commits, as `wip` marks
/// them, and the large commits that touch it, and scores the two counts.
pub fn commit_quality_from_flags(commits: &[Commit], wip: &Vec<bool>, files: &[String]) -> (r:
    FileMap<CommitQualityData>)
    requires
        wip.len() == commits.len(),
    ensures
        is_quality_data(r, commits@, wip@, files@),
        forall|i: int|
            0 <= i < r.values.len() ==> (#[trigger] r.values[i]).commit_quality_score
                <= crate::types::SCORE_MAX,
{
    let files = unique_names(files);
    let large = mark_large(commits);
    let wip_counts = tally(commits, wip, &files);
    let large_counts = tally(commits, &large, &files);
    assert(as_nats(wip_counts@) =~= touch_counts(commits@, wip@, files@));
    assert(as_nats(large_counts@) =~= touch_counts(commits@, large_flags(commits@), files@));
    let wip_scores = shares_of_largest(&wip_counts, WIP_SHARE);
    let large_scores = shares_of_largest(&large_counts, LARGE_SHARE);
    let mut values: Vec<CommitQualityData> = Vec::new();
    let mut i: usize = 0;
    while i < files.len()
        invariant
            i <= files.len(),
            wip_counts.len() == files.len(),
            large_counts.len() == files.len(),
            wip_scores.len() == files.len(),
            large_scores.len() == files.len(),
            forall|k: int| 0 <= k < files.len() ==> #[trigger] wip_scores[k] <= WIP_SHARE,
            forall|k: int| 0 <= k < files.len() ==> #[trigger] large_scores[k] <= LARGE_SHARE,
            values.len() == i,
            forall|k: int|
                0 <= k < i ==> (#[trigger] values[k]).wip_commits == wip_counts[k]
                    && values[k].large_commit_count == large_counts[k]
                    && values[k].commit_quality_score == wip_scores[k] + large_scores[k],
        decreases files.len() - i,
    {
        values.push(
            CommitQualityData {
                wip_commits: wip_counts[i],
                large_commit_count: large_counts[i],
                commit_quality_score: wip_scores[i] + large_scores[i],
            },
        );
        i += 1;
    }
    FileMap { keys: files, values }
}

/// Tracks, per file, the careless and the oversized commits that touch
/// it. The call fails only where the pattern does not compile.
pub fn analyze_commit_quality(commits: &[Commit], files: &[String]) -> (r: Result<
    FileMap<CommitQualityData>,
    PatternError,
>)
    ensures
        r is Ok <==> regex_compiles(WIP_PATTERN@),
        r matches Ok(m) ==> is_quality_data(m, commits@, wip_flags(commits@), files@),
        r matches Ok(m) ==> forall|i: int|
            0 <= i < m.values.len() ==> (#[trigger] m.values[i]).commit_quality_score
                <= crate::types::SCORE_MAX,
{
    let pattern = match Pattern::new(WIP_PATTERN) {
        Ok(p) => p,
        Err(e) => {
            return Err(e);
        },
    };
    let mut wip: Vec<bool> = Vec::new();
    let mut i: usize = 0;
    while i < commits.len()
        invariant
            i <= commits.len(),
            pattern@ == WIP_PATTERN@,
            wip.len() == i,
            forall|k: int| 0 <= k < i ==> wip[k] == wip_flags(commits@)[k],
        decreases commits.len() - i,
    {
        let subject = commits[i].subject.as_str();
        let trimmed_subject = string_of(&trim(&chars_of(subject)));
        let matched = pattern.matches(trimmed_subject.as_str());
        wip.push(careless(subject, matched));
        i += 1;
    }
    assert(wip@ =~= wip_flags(commits@));
    Ok(commit_quality_from_flags(commits, &wip, files))
}

} // verus!
