//! Line counts alone, from a log that may or may not name its commits.

use vstd::prelude::*;
use crate::git::log_parser::{parse_commit_output, parsed, DiffStatsMap, RENAME_PATTERN};
use crate::patterns::{regex_compiles, PatternError};
use crate::types::names;

verus! {

/// Adds up the lines added and deleted per file. The lines of commits
/// count for nothing here, and the lines of binary files neither. The
/// call fails only where the pattern of a rename does not compile.
pub fn parse_numstat_output(output: &str) -> (r: Result<DiffStatsMap, PatternError>)
    ensures
        r is Ok <==> regex_compiles(RENAME_PATTERN@),
        r matches Ok(m) ==> m.wf() && m.paths() == parsed(output@).stat_keys && m.values@ == parsed(
            output@,
        ).stat_values,
{
    match parse_commit_output(output) {
        Ok(p) => Ok(p.1),
        Err(e) => Err(e),
    }
}

/// The arguments that ask the version-control tool for line counts.
pub open spec fn numstat_arguments_of(since: Seq<char>, path_filter: Option<Seq<char>>) -> Seq<
    Seq<char>,
> {
    let base = seq!["log"@, "--format=COMMIT|%H"@, "--numstat"@];
    let windowed = if since.len() == 0 {
        base
    } else {
        base.push("--since="@ + since)
    };
    match path_filter {
        Some(p) => windowed.push("--"@).push(p),
        None => windowed,
    }
}

/// The arguments that ask for line counts: then the time window, if
/// `since` is not empty, and the path, if there is one.
pub fn numstat_arguments(since: &str, path_filter: Option<&str>) -> (r: Vec<String>)
    ensures
        names(r@) == numstat_arguments_of(
            since@,
            match path_filter {
                Some(p) => Some(p@),
                None => None,
            },
        ),
{
    let mut args: Vec<String> = Vec::new();
    args.push("log".to_owned());
    args.push("--format=COMMIT|%H".to_owned());
    args.push("--numstat".to_owned());
    if !since.is_empty() {
        let mut window = "--since=".to_owned();
        window.append(since);
        args.push(window);
    }
    match path_filter {
        Some(p) => {
            args.push("--".to_owned());
            args.push(p.to_owned());
        },
        None => {},
    }
    assert(names(args@) =~= numstat_arguments_of(
        since@,
        match path_filter {
            Some(p) => Some(p@),
            None => None,
        },
    ));
    args
}

} // verus!
