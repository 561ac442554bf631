//! What can end a scan early.

use vstd::prelude::*;
use crate::git::log_parser::{parse_commit_output, parsed, log_state, DiffStatsMap, RENAME_PATTERN};
use crate::patterns::{regex_compiles, PatternError};
use crate::types::Commit;

verus! {

/// The reasons for which a scan gives no report.
#[derive(Debug)]
pub enum ScanError {
    /// The log command could not be started.
    LaunchFailed { detail: String },
    /// The log command ended with a failure; `stderr` is what it wrote
    /// to its error stream.
    CommandFailed { stderr: String },
    /// The log holds no commit.
    NoCommits { repo_path: String },
    /// The filter left no file.
    NoFiles,
    /// The seven weights are all 0.
    InvalidWeights,
    /// A pattern of the library did not compile.
    Pattern(PatternError),
}

impl ScanError {
    /// The text of the error, for the user.
    pub open spec fn text(&self) -> Seq<char> {
        match self {
            ScanError::LaunchFailed { detail } => "Failed to run git: "@ + detail@,
            ScanError::CommandFailed { stderr } => "git log failed: "@ + stderr@,
            ScanError::NoCommits { repo_path } => "No commits found in '"@ + repo_path@
                + "'. Try --since=\"4 years ago\""@,
            ScanError::NoFiles => "No files found after filtering. Try --path or --since."@,
            ScanError::InvalidWeights => "The weights must not all be 0."@,
            ScanError::Pattern(e) => "Pattern does not compile: "@ + e.pattern@,
        }
    }

    /// The text of the error, for the user.
    pub fn message(&self) -> (r: String)
        ensures
            r@ == self.text(),
    {
        match self {
            ScanError::LaunchFailed { detail } => {
                let mut s = "Failed to run git: ".to_owned();
                s.append(detail.as_str());
                s
            },
            ScanError::CommandFailed { stderr } => {
                let mut s = "git log failed: ".to_owned();
                s.append(stderr.as_str());
                s
            },
            ScanError::NoCommits { repo_path } => {
                let mut s = "No commits found in '".to_owned();
                s.append(repo_path.as_str());
                s.append("'. Try --since=\"4 years ago\"");
                s
            },
            ScanError::NoFiles => "No files found after filtering. Try --path or --since.".to_owned(),
            ScanError::InvalidWeights => "The weights must not all be 0.".to_owned(),
            ScanError::Pattern(e) => {
                let mut s = "Pattern does not compile: ".to_owned();
                s.append(e.pattern.as_str());
                s
            },
        }
    }
}

/// What the run of the log command comes to: its error stream where it
/// failed, and never a part of its output then; else what its output
/// parses to.
pub fn parse_log_output(success: bool, stdout: &str, stderr: &str) -> (r: Result<
    (Vec<Commit>, DiffStatsMap),
    ScanError,
>)
    ensures
        r is Ok <==> success && regex_compiles(RENAME_PATTERN@),
        !success ==> (r matches Err(ScanError::CommandFailed { stderr: e }) && e@ == stderr@),
        success && r is Err ==> (r matches Err(e) && e is Pattern),
        r matches Ok(p) ==> p.1.wf() && log_state(p.0@, None, p.1) == parsed(stdout@),
{
    if !success {
        return Err(ScanError::CommandFailed { stderr: stderr.to_owned() });
    }
    match parse_commit_output(stdout) {
        Ok(p) => Ok(p),
        Err(e) => Err(ScanError::Pattern(e)),
    }
}

/// What came of starting the log command and waiting for its end.
#[derive(Debug, Clone)]
pub struct LogRun {
    /// Whether the command ended without a failure.
    pub success: bool,
    /// What the command wrote to its output.
    pub stdout: String,
    /// What the command wrote to its error stream.
    pub stderr: String,
}

/// What an attempt to run the log command comes to. `Err` is the reason
/// for which the command could not be started; `Ok` is its run, which
/// `parse_log_output` takes on.
pub fn parse_log_run(run: Result<LogRun, String>) -> (r: Result<
    (Vec<Commit>, DiffStatsMap),
    ScanError,
>)
    ensures
        match run {
            Err(d) => r matches Err(ScanError::LaunchFailed { detail: e }) && e@ == d@,
            Ok(o) => {
                &&& r is Ok <==> o.success && regex_compiles(RENAME_PATTERN@)
                &&& !o.success ==> (r matches Err(ScanError::CommandFailed { stderr: e }) && e@
                    == o.stderr@)
                &&& o.success && r is Err ==> (r matches Err(e) && e is Pattern)
                &&& r matches Ok(p) ==> p.1.wf() && log_state(p.0@, None, p.1) == parsed(o.stdout@)
            },
        },
{
    match run {
        Err(detail) => Err(ScanError::LaunchFailed { detail }),
        Ok(o) => parse_log_output(o.success, o.stdout.as_str(), o.stderr.as_str()),
    }
}

} // verus!
