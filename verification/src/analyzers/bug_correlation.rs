//! Bug correlation: how often a file is part of a commit that speaks of
//! a defect.

use vstd::prelude::*;
use crate::file_map::{each_once, unique_names, FileMap};
use crate::patterns::{regex_compiles, Pattern, PatternError};
use crate::tally::{
    as_nats, match_subjects, peak, share, shares_of_largest, subject_flags, tally, touch_counts,
};
use crate::types::{names, BugData, Commit, SCORE_MAX};

verus! {

/// The words that mark a commit as fixing a defect, as whole words and
/// without regard to case.
pub const BUG_PATTERN: &'static str =
    r"(?i)\b(fix|bug|patch|hotfix|regression|broken|crash|defect|issue|error)\b";

/// For each commit, whether its subject speaks of a defect.
pub open spec fn bug_flags(commits: Seq<Commit>) -> Seq<bool> {
    subject_flags(commits, BUG_PATTERN@, false)
}

/// The keys of `m` are the candidates, each once, in the order in which
/// they first occur. Its records hold, for each key, the number of
/// flagged commits that touch it and that number as a share of the
/// largest such number.
pub open spec fn is_bug_data(
    m: FileMap<BugData>,
    commits: Seq<Commit>,
    flags: Seq<bool>,
    files: Seq<String>,
) -> bool {
    &&& m.wf()
    &&& m.paths() == each_once(names(files))
    &&& forall|i: int|
        0 <= i < m.keys.len() ==> (#[trigger] m.values[i]).bug_commits == touch_counts(
            commits,
            flags,
            m.keys@,
        )[i]
    &&& forall|i: int|
        0 <= i < m.keys.len() ==> (#[trigger] m.values[i]).bug_score == share(
            touch_counts(commits, flags, m.keys@)[i] as int,
            peak(touch_counts(commits, flags, m.keys@)) as int,
            SCORE_MAX as int,
        )
}

/// Counts, for each candidate, the commits that `flags` marks and that
/// touch it, and scores each count as a share of the largest.
pub fn bug_correlation_from_flags(
    commits: &[Commit],
    flags: &Vec<bool>,
    files: &[String],
) -> (r: FileMap<BugData>)
    requires
        flags.len() == commits.len(),
    ensures
        is_bug_data(r, commits@, flags@, files@),
        forall|i: int| 0 <= i < r.values.len() ==> (#[trigger] r.values[i]).bug_score <= SCORE_MAX,
{
    let files = unique_names(files);
    let counts = tally(commits, flags, &files);
    assert(as_nats(counts@) =~= touch_counts(commits@, flags@, files@));
    let scores = shares_of_largest(&counts, SCORE_MAX);
    let mut values: Vec<BugData> = Vec::new();
    let mut i: usize = 0;
    while i < files.len()
        invariant
            i <= files.len(),
            counts.len() == files.len(),
            scores.len() == files.len(),
            values.len() == i,
            forall|k: int|
                0 <= k < i ==> (#[trigger] values[k]).bug_commits == counts[k] && values[k].bug_score
                    == scores[k],
        decreases files.len() - i,
    {
        values.push(BugData { bug_commits: counts[i], bug_score: scores[i] });
        i += 1;
    }
    FileMap { keys: files, values }
}

/// Finds the files that often are part of bug-fix commits. The call
/// fails only where the pattern does not compile.
pub fn analyze_bug_correlation(commits: &[Commit], files: &[String]) -> (r: Result<
    FileMap<BugData>,
    PatternError,
>)
    ensures
        r is Ok <==> regex_compiles(BUG_PATTERN@),
        r matches Ok(m) ==> is_bug_data(m, commits@, bug_flags(commits@), files@),
        r matches Ok(m) ==> forall|i: int|
            0 <= i < m.values.len() ==> (#[trigger] m.values[i]).bug_score <= SCORE_MAX,
{
    let pattern = match Pattern::new(BUG_PATTERN) {
        Ok(p) => p,
        Err(e) => {
            return Err(e);
        },
    };
    let flags = match_subjects(&pattern, commits, false);
    Ok(bug_correlation_from_flags(commits, &flags, files))
}

} // verus!
