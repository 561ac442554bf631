//! Reverts: how often a file is part of a commit that undoes another.

use vstd::prelude::*;
use crate::file_map::{each_once, unique_names, FileMap};
use crate::patterns::{regex_compiles, Pattern, PatternError};
use crate::tally::{
    as_nats, match_subjects, peak, share, shares_of_largest, subject_flags, tally, touch_counts,
};
use crate::types::{names, Commit, RevertData, SCORE_MAX};

verus! {

/// A subject that starts with the word `revert`, without regard to case.
pub const REVERT_PATTERN: &'static str = r"(?i)^revert\b";

/// For each commit, whether its trimmed subject starts with the word
/// `revert`.
pub open spec fn revert_flags(commits: Seq<Commit>) -> Seq<bool> {
    subject_flags(commits, REVERT_PATTERN@, true)
}

/// The keys of `m` are the candidates, each once, in the order in which
/// they first occur. Its records hold, for each key, the number of
/// flagged commits that touch it and that number as a share of the
/// largest such number.
pub open spec fn is_revert_data(
    m: FileMap<RevertData>,
    commits: Seq<Commit>,
    flags: Seq<bool>,
    files: Seq<String>,
) -> bool {
    &&& m.wf()
    &&& m.paths() == each_once(names(files))
    &&& forall|i: int|
        0 <= i < m.keys.len() ==> (#[trigger] m.values[i]).revert_count == touch_counts(
            commits,
            flags,
            m.keys@,
        )[i]
    &&& forall|i: int|
        0 <= i < m.keys.len() ==> (#[trigger] m.values[i]).revert_score == share(
            touch_counts(commits, flags, m.keys@)[i] as int,
            peak(touch_counts(commits, flags, m.keys@)) as int,
            SCORE_MAX as int,
        )
}

/// Counts, for each candidate, the commits that `flags` marks and that
/// touch it, and scores each count as a share of the largest.
pub fn reverts_from_flags(commits: &[Commit], flags: &Vec<bool>, files: &[String]) -> (r:
    FileMap<RevertData>)
    requires
        flags.len() == commits.len(),
    ensures
        is_revert_data(r, commits@, flags@, files@),
        forall|i: int|
            0 <= i < r.values.len() ==> (#[trigger] r.values[i]).revert_score <= SCORE_MAX,
{
    let files = unique_names(files);
    let counts = tally(commits, flags, &files);
    assert(as_nats(counts@) =~= touch_counts(commits@, flags@, files@));
    let scores = shares_of_largest(&counts, SCORE_MAX);
    let mut values: Vec<RevertData> = Vec::new();
    let mut i: usize = 0;
    while i < files.len()
        invariant
            i <= files.len(),
            counts.len() == files.len(),
            scores.len() == files.len(),
            values.len() == i,
            forall|k: int|
                0 <= k < i ==> (#[trigger] values[k]).revert_count == counts[k]
                    && values[k].revert_score == scores[k],
        decreases files.len() - i,
    {
        values.push(RevertData { revert_count: counts[i], revert_score: scores[i] });
        i += 1;
    }
    FileMap { keys: files, values }
}

/// Finds the files that revert commits touch. The call fails only where
/// the pattern does not compile.
pub fn analyze_reverts(commits: &[Commit], files: &[String]) -> (r: Result<
    FileMap<RevertData>,
    PatternError,
>)
    ensures
        r is Ok <==> regex_compiles(REVERT_PATTERN@),
        r matches Ok(m) ==> is_revert_data(m, commits@, revert_flags(commits@), files@),
        r matches Ok(m) ==> forall|i: int|
            0 <= i < m.values.len() ==> (#[trigger] m.values[i]).revert_score <= SCORE_MAX,
{
    let pattern = match Pattern::new(REVERT_PATTERN) {
        Ok(p) => p,
        Err(e) => {
            return Err(e);
        },
    };
    let flags = match_subjects(&pattern, commits, true);
    Ok(reverts_from_flags(commits, &flags, files))
}

} // verus!
