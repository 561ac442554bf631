//! The whole scan: from commits to a report.
//!
//! The seven analyzers are independent of each other: each reads the same
//! commits and candidates and returns a result of its own. They run side
//! by side, and the aggregator starts when all of them have returned.

use vstd::prelude::*;
use crate::analyzers::blame::{analyze_authors, is_silo_data};
use crate::analyzers::bug_correlation::{analyze_bug_correlation, bug_flags, is_bug_data, BUG_PATTERN};
use crate::analyzers::burst_detector::{analyze_bursts, is_burst_data};
use crate::analyzers::churn::{analyze_churn, is_churn_data};
use crate::analyzers::commit_quality::{
    analyze_commit_quality, is_quality_data, wip_flags, WIP_PATTERN,
};
use crate::analyzers::coupling::{analyze_coupling, is_coupling_list};
use crate::analyzers::revert_tracker::{analyze_reverts, is_revert_data, revert_flags, REVERT_PATTERN};
use crate::analyzers::security::{analyze_security, is_security_report, patterns_compile};
use crate::config::FilterOverrides;
use crate::error::{parse_log_run, LogRun, ScanError};
use crate::file_map::{distinct, find_name, gathered, lemma_gathered, FileMap};
use crate::filters::{filter_files_with, kept, scope_view};
use crate::git::log_parser::{log_state, parsed, DiffStatsMap, RENAME_PATTERN};
use crate::order::{arranged, sort_descending, sorts_descending};
use crate::patterns::{regex_compiles, PatternError};
use crate::scoring::{is_scoring, score_hotspots};
use crate::types::{
    names, BugData, BurstData, ChurnData, Commit, CommitQualityData, CouplingEntry, HotspotResult,
    Report, ReportMeta, RevertData, SecurityRisk, SiloData, Weights,
};

verus! {

/// `rayon::join`: runs the two closures, side by side where it can, and
/// returns what they return, the first closure's result first.
pub assume_specification<A, B, RA, RB>[ rayon::join::<A, B, RA, RB> ](oper_a: A, oper_b: B) -> (r: (
    RA,
    RB,
))
    where A: FnOnce() -> RA + Send, B: FnOnce() -> RB + Send, RA: Send, RB: Send
    requires
        call_requires(oper_a, ()),
        call_requires(oper_b, ()),
    ensures
        call_ensures(oper_a, (), r.0),
        call_ensures(oper_b, (), r.1),
;

/// The number of couplings that a report holds at most.
pub const MAX_REPORTED_COUPLINGS: usize = 10;

/// What a scan is asked for.
#[derive(Debug, Clone)]
pub struct AnalysisOptions {
    /// The time window, in the words of the version-control tool; empty
    /// for all history.
    pub since: String,
    /// The path that the scan is limited to.
    pub path: Option<String>,
    /// The number of results that the report holds at most.
    pub top: usize,
    /// Whether the report holds only files that bug-fix commits touch.
    pub bugs_only: bool,
    pub weights: Weights,
    pub overrides: FilterOverrides,
}

/// The results of the seven analyzers.
pub struct SignalData {
    pub churn: FileMap<ChurnData>,
    pub bugs: FileMap<BugData>,
    pub reverts: FileMap<RevertData>,
    pub bursts: FileMap<BurstData>,
    pub couplings: Vec<CouplingEntry>,
    pub silo: FileMap<SiloData>,
    pub quality: FileMap<CommitQualityData>,
}

/// Whether the patterns of the analyzers compile.
pub open spec fn analyzer_patterns_compile() -> bool {
    regex_compiles(BUG_PATTERN@) && regex_compiles(REVERT_PATTERN@) && regex_compiles(WIP_PATTERN@)
}

/// `d` holds what each analyzer makes of the commits and candidates.
pub open spec fn is_signal_data(
    d: SignalData,
    commits: Seq<Commit>,
    files: Seq<String>,
    now: i64,
) -> bool {
    &&& is_churn_data(d.churn, commits, files, now)
    &&& is_bug_data(d.bugs, commits, bug_flags(commits), files)
    &&& is_revert_data(d.reverts, commits, revert_flags(commits), files)
    &&& is_burst_data(d.bursts, commits, files)
    &&& is_coupling_list(d.couplings@, commits, names(files))
    &&& is_silo_data(d.silo, commits, files)
    &&& is_quality_data(d.quality, commits, wip_flags(commits), files)
}

/// The paths that the first `upto` commits touch, each once, in the
/// order in which the history first lists them.
pub open spec fn paths_upto(commits: Seq<Commit>, upto: int) -> Seq<Seq<char>>
    decreases upto,
{
    if upto <= 0 {
        Seq::empty()
    } else {
        gathered(
            paths_upto(commits, upto - 1),
            commits[upto - 1].paths(),
            commits[upto - 1].paths().len() as int,
        )
    }
}

/// The paths that the history touches.
pub open spec fn touched_paths(commits: Seq<Commit>) -> Seq<Seq<char>> {
    paths_upto(commits, commits.len() as int)
}

/// The candidates of a scan: the touched paths that the filter keeps.
pub open spec fn candidates(
    commits: Seq<Commit>,
    path: Option<Seq<char>>,
    overrides: crate::config::OverridesView,
) -> Seq<Seq<char>> {
    kept(touched_paths(commits), path, overrides, touched_paths(commits).len() as int)
}

proof fn lemma_paths_upto_distinct(commits: Seq<Commit>, upto: int)
    ensures
        distinct(paths_upto(commits, upto)),
    decreases upto,
{
    if upto > 0 {
        lemma_paths_upto_distinct(commits, upto - 1);
        lemma_gathered(
            paths_upto(commits, upto - 1),
            commits[upto - 1].paths(),
            commits[upto - 1].paths().len() as int,
        );
    }
}

/// No path occurs twice among the candidates of a scan, so each map of
/// an analyzer holds exactly one record for each candidate.
pub proof fn lemma_candidates_distinct(
    commits: Seq<Commit>,
    path: Option<Seq<char>>,
    overrides: crate::config::OverridesView,
)
    ensures
        distinct(touched_paths(commits)),
        distinct(candidates(commits, path, overrides)),
{
    lemma_paths_upto_distinct(commits, commits.len() as int);
    crate::filters::lemma_kept_distinct(
        touched_paths(commits),
        path,
        overrides,
        touched_paths(commits).len() as int,
    );
}

/// Whether a result belongs in the report.
pub open spec fn is_wanted(r: HotspotResult, bugs_only: bool) -> bool {
    !bugs_only || r.details.bug_commits > 0
}

/// Those of the first `upto` results that belong in the report.
pub open spec fn wanted_upto(results: Seq<HotspotResult>, bugs_only: bool, upto: int) -> Seq<
    HotspotResult,
>
    decreases upto,
{
    if upto <= 0 {
        Seq::empty()
    } else if is_wanted(results[upto - 1], bugs_only) {
        wanted_upto(results, bugs_only, upto - 1).push(results[upto - 1])
    } else {
        wanted_upto(results, bugs_only, upto - 1)
    }
}

/// The first `n` of `s`, or all of it where it has fewer.
pub open spec fn first_of<T>(s: Seq<T>, n: int) -> Seq<T> {
    if n < s.len() {
        s.take(n)
    } else {
        s
    }
}

/// The hotspot scores of a list of results.
pub open spec fn hotspot_scores(results: Seq<HotspotResult>) -> Seq<u64> {
    Seq::new(results.len(), |i: int| results[i].hotspot_score)
}

/// `out` is the ranking of `scored`: the results in descending order of
/// their hotspot scores, results with the same score in the order they
/// had; of these, with `bugs_only`, those that bug-fix commits touch; of
/// these the first `top`.
pub open spec fn is_ranking(
    out: Seq<HotspotResult>,
    scored: Seq<HotspotResult>,
    bugs_only: bool,
    top: usize,
) -> bool {
    exists|perm: Seq<int>, ranked: Seq<HotspotResult>|
        sorts_descending(perm, hotspot_scores(scored)) && arranged(ranked, scored, perm) && out
            == first_of(wanted_upto(ranked, bugs_only, ranked.len() as int), top as int)
}

/// The paths that the history touches, each once, in the order in which
/// the history first lists them.
pub fn touched_files(commits: &[Commit]) -> (r: Vec<String>)
    ensures
        names(r@) == touched_paths(commits@),
{
    let mut found: Vec<String> = Vec::new();
    let mut c: usize = 0;
    assert(names(found@) =~= paths_upto(commits@, 0));
    while c < commits.len()
        invariant
            c <= commits.len(),
            names(found@) == paths_upto(commits@, c as int),
        decreases commits.len() - c,
    {
        let commit = &commits[c];
        let ghost base = names(found@);
        let mut k: usize = 0;
        while k < commit.files.len()
            invariant
                c < commits.len(),
                commit == &commits[c as int],
                k <= commit.files.len(),
                base == paths_upto(commits@, c as int),
                names(found@) == gathered(base, commit.paths(), k as int),
            decreases commit.files.len() - k,
        {
            let file = &commit.files[k];
            assert(commit.paths()[k as int] == file@);
            if find_name(&found, file).is_none() {
                let ghost before = names(found@);
                found.push(file.clone());
                assert(names(found@) =~= before.push(file@));
            }
            k += 1;
        }
        assert(commit.paths().len() == commit.files.len());
        c += 1;
    }
    found
}

/// Ranks the results: descending by hotspot score; with `bugs_only`,
/// only the files that bug-fix commits touch; at most `top` of them.
pub fn rank_results(results: Vec<HotspotResult>, bugs_only: bool, top: usize) -> (r: Vec<
    HotspotResult,
>)
    ensures
        is_ranking(r@, results@, bugs_only, top),
        r.len() <= top,
{
    let ghost scored = results@;
    let mut keys: Vec<u64> = Vec::new();
    let mut i: usize = 0;
    while i < results.len()
        invariant
            i <= results.len(),
            keys.len() == i,
            forall|k: int| 0 <= k < i ==> #[trigger] keys[k] == results[k].hotspot_score,
        decreases results.len() - i,
    {
        keys.push(results[i].hotspot_score);
        i += 1;
    }
    assert(keys@ =~= hotspot_scores(scored));
    let sorted = sort_descending(results, &keys);
    let ghost ranked = sorted@;
    let mut out: Vec<HotspotResult> = Vec::new();
    assert(out@ =~= first_of(wanted_upto(ranked, bugs_only, 0), top as int));
    for item in it: sorted.into_iter()
        invariant
            it.seq() == ranked,
            out@ == first_of(wanted_upto(ranked, bugs_only, it.index() as int), top as int),
            out.len() <= top,
    {
        let ghost before = wanted_upto(ranked, bugs_only, it.index() as int);
        let ghost held = out@;
        assert(ranked[it.index() as int] == item);
        if !bugs_only || item.details.bug_commits > 0 {
            if out.len() < top {
                out.push(item);
                assert(out@ =~= first_of(before.push(item), top as int));
            } else {
                assert(held =~= first_of(before.push(item), top as int));
            }
        }
    }
    proof {
        let perm = choose|perm: Seq<int>|
            sorts_descending(perm, keys@) && arranged(ranked, scored, perm);
        assert(sorts_descending(perm, hotspot_scores(scored)) && arranged(ranked, scored, perm));
    }
    out
}

/// Runs the seven analyzers side by side. The call fails only where one
/// of their patterns does not compile.
pub fn run_analyzers(commits: &[Commit], files: &[String], now: i64) -> (r: Result<
    SignalData,
    PatternError,
>)
    ensures
        r is Ok <==> analyzer_patterns_compile(),
        r matches Ok(d) ==> is_signal_data(d, commits@, files@, now),
{
    let churn = || -> (r: FileMap<ChurnData>)
        ensures
            is_churn_data(r, commits@, files@, now),
    {
        analyze_churn(commits, files, now)
    };
    let bugs = || -> (r: Result<FileMap<BugData>, PatternError>)
        ensures
            r is Ok <==> regex_compiles(BUG_PATTERN@),
            r matches Ok(m) ==> is_bug_data(m, commits@, bug_flags(commits@), files@),
    {
        analyze_bug_correlation(commits, files)
    };
    let reverts = || -> (r: Result<FileMap<RevertData>, PatternError>)
        ensures
            r is Ok <==> regex_compiles(REVERT_PATTERN@),
            r matches Ok(m) ==> is_revert_data(m, commits@, revert_flags(commits@), files@),
    {
        analyze_reverts(commits, files)
    };
    let bursts = || -> (r: FileMap<BurstData>)
        ensures
            is_burst_data(r, commits@, files@),
    {
        analyze_bursts(commits, files)
    };
    let coupling = || -> (r: Vec<CouplingEntry>)
        ensures
            is_coupling_list(r@, commits@, names(files@)),
    {
        analyze_coupling(commits, files)
    };
    let silo = || -> (r: FileMap<SiloData>)
        ensures
            is_silo_data(r, commits@, files@),
    {
        analyze_authors(commits, files)
    };
    let quality = || -> (r: Result<FileMap<CommitQualityData>, PatternError>)
        ensures
            r is Ok <==> regex_compiles(WIP_PATTERN@),
            r matches Ok(m) ==> is_quality_data(m, commits@, wip_flags(commits@), files@),
    {
        analyze_commit_quality(commits, files)
    };
    let bugs_and_reverts = || -> (r: (
        Result<FileMap<BugData>, PatternError>,
        Result<FileMap<RevertData>, PatternError>,
    ))
        ensures
            call_ensures(bugs, (), r.0),
            call_ensures(reverts, (), r.1),
    {
        rayon::join(bugs, reverts)
    };
    let silo_and_quality = || -> (r: (
        FileMap<SiloData>,
        Result<FileMap<CommitQualityData>, PatternError>,
    ))
        ensures
            call_ensures(silo, (), r.0),
            call_ensures(quality, (), r.1),
    {
        rayon::join(silo, quality)
    };
    let first_half = || -> (r: (
        FileMap<ChurnData>,
        (Result<FileMap<BugData>, PatternError>, Result<FileMap<RevertData>, PatternError>),
    ))
        ensures
            call_ensures(churn, (), r.0),
            call_ensures(bugs_and_reverts, (), r.1),
    {
        rayon::join(churn, bugs_and_reverts)
    };
    let coupling_and_rest = || -> (r: (
        Vec<CouplingEntry>,
        (FileMap<SiloData>, Result<FileMap<CommitQualityData>, PatternError>),
    ))
        ensures
            call_ensures(coupling, (), r.0),
            call_ensures(silo_and_quality, (), r.1),
    {
        rayon::join(coupling, silo_and_quality)
    };
    let second_half = || -> (r: (
        FileMap<BurstData>,
        (
            Vec<CouplingEntry>,
            (FileMap<SiloData>, Result<FileMap<CommitQualityData>, PatternError>),
        ),
    ))
        ensures
            call_ensures(bursts, (), r.0),
            call_ensures(coupling_and_rest, (), r.1),
    {
        rayon::join(bursts, coupling_and_rest)
    };
    let ((churn_data, (bug_result, revert_result)), (burst_data, (couplings, (silo_data, quality_result)))) =
        rayon::join(first_half, second_half);
    let bug_data = match bug_result {
        Ok(m) => m,
        Err(e) => {
            return Err(e);
        },
    };
    let revert_data = match revert_result {
        Ok(m) => m,
        Err(e) => {
            return Err(e);
        },
    };
    let quality_data = match quality_result {
        Ok(m) => m,
        Err(e) => {
            return Err(e);
        },
    };
    Ok(
        SignalData {
            churn: churn_data,
            bugs: bug_data,
            reverts: revert_data,
            bursts: burst_data,
            couplings,
            silo: silo_data,
            quality: quality_data,
        },
    )
}

/// `m` tells of the scan: the window in words, the numbers of commits
/// and of candidates, and the two texts handed in.
pub open spec fn is_meta(
    m: ReportMeta,
    since: Seq<char>,
    commit_count: nat,
    file_count: nat,
    analyzed_at: Seq<char>,
    repo_path: Seq<char>,
) -> bool {
    &&& m.since@ == if since.len() == 0 {
        "all history"@
    } else {
        since
    }
    &&& m.commit_count == commit_count
    &&& m.file_count == file_count
    &&& m.analyzed_at@ == analyzed_at
    &&& m.repo_path@ == repo_path
}

/// The scope of a scan.
pub open spec fn scope_of(o: AnalysisOptions) -> Option<Seq<char>> {
    match o.path {
        Some(p) => Some(p@),
        None => None,
    }
}

/// `report` is the report of the scan of `commits`.
pub open spec fn is_report(
    report: Report,
    commits: Seq<Commit>,
    diff_stats: DiffStatsMap,
    o: AnalysisOptions,
    repo_path: Seq<char>,
    analyzed_at: Seq<char>,
    now: i64,
) -> bool {
    exists|files: Seq<String>, d: SignalData, scored: Seq<HotspotResult>|
        {
            &&& names(files) == candidates(commits, scope_of(o), o.overrides@)
            &&& is_signal_data(d, commits, files, now)
            &&& is_scoring(
                scored,
                files,
                d.churn,
                d.bugs,
                d.reverts,
                d.bursts,
                d.couplings@,
                d.silo,
                d.quality,
                diff_stats,
                o.weights,
            )
            &&& is_ranking(report.results@, scored, o.bugs_only, o.top)
            &&& report.couplings@ == first_of(d.couplings@, MAX_REPORTED_COUPLINGS as int)
            &&& is_security_report(report.security_risks@, commits)
            &&& is_meta(
                report.meta,
                o.since@,
                commits.len(),
                files.len(),
                analyzed_at,
                repo_path,
            )
        }
}

/// Why a scan gives no report, if it gives none: the first of these that
/// holds. The weights are all 0; there is no commit; a pattern of the
/// security scan does not compile; the filter leaves no file; a pattern
/// of an analyzer does not compile.
pub open spec fn failure_of(commits: Seq<Commit>, o: AnalysisOptions, e: ScanError) -> bool {
    if o.weights.total() == 0 {
        e is InvalidWeights
    } else if commits.len() == 0 {
        e is NoCommits
    } else if !patterns_compile() {
        e is Pattern
    } else if candidates(commits, scope_of(o), o.overrides@).len() == 0 {
        e is NoFiles
    } else {
        !analyzer_patterns_compile() && e is Pattern
    }
}

/// Whether a scan gives a report.
pub open spec fn succeeds(commits: Seq<Commit>, o: AnalysisOptions) -> bool {
    &&& o.weights.total() > 0
    &&& commits.len() > 0
    &&& patterns_compile()
    &&& candidates(commits, scope_of(o), o.overrides@).len() > 0
    &&& analyzer_patterns_compile()
}

/// Scans the history: the security scan over all commits, the filter
/// over the touched paths, the seven analyzers over the candidates, the
/// aggregator and the ranking. `now` is the time of the scan in seconds
/// since 1970; `analyzed_at` is that time as the report is to show it.
pub fn run_analysis(
    commits: &[Commit],
    diff_stats: &DiffStatsMap,
    options: &AnalysisOptions,
    repo_path: &str,
    analyzed_at: &str,
    now: i64,
) -> (r: Result<Report, ScanError>)
    requires
        diff_stats.wf(),
    ensures
        r is Ok <==> succeeds(commits@, *options),
        r matches Ok(report) ==> is_report(
            report,
            commits@,
            *diff_stats,
            *options,
            repo_path@,
            analyzed_at@,
            now,
        ),
        r matches Err(e) ==> failure_of(commits@, *options, e),
        r matches Err(ScanError::NoCommits { repo_path: p }) ==> p@ == repo_path@,
{
    if options.weights.sum() == 0 {
        return Err(ScanError::InvalidWeights);
    }
    if commits.len() == 0 {
        return Err(ScanError::NoCommits { repo_path: repo_path.to_owned() });
    }
    let security_risks = match analyze_security(commits) {
        Ok(v) => v,
        Err(e) => {
            return Err(ScanError::Pattern(e));
        },
    };
    let all_files = touched_files(commits);
    let path: Option<&str> = match &options.path {
        Some(p) => Some(p.as_str()),
        None => None,
    };
    let files = filter_files_with(&all_files, path, &options.overrides);
    assert(names(files@) == candidates(commits@, scope_of(*options), options.overrides@));
    if files.len() == 0 {
        return Err(ScanError::NoFiles);
    }
    let data = match run_analyzers(commits, &files, now) {
        Ok(d) => d,
        Err(e) => {
            return Err(ScanError::Pattern(e));
        },
    };
    let scored = score_hotspots(
        &files,
        &data.churn,
        &data.bugs,
        &data.reverts,
        &data.bursts,
        &data.couplings,
        &data.silo,
        &data.quality,
        diff_stats,
        &options.weights,
    );
    let ghost scored_seq = scored@;
    let results = rank_results(scored, options.bugs_only, options.top);
    let ghost d = data;
    let mut couplings = data.couplings;
    couplings.truncate(MAX_REPORTED_COUPLINGS);
    let since = if options.since.as_str().is_empty() {
        "all history".to_owned()
    } else {
        options.since.clone()
    };
    let report = Report {
        meta: ReportMeta {
            since,
            commit_count: commits.len(),
            file_count: files.len(),
            analyzed_at: analyzed_at.to_owned(),
            repo_path: repo_path.to_owned(),
        },
        results,
        couplings,
        security_risks,
    };
    proof {
        assert(is_signal_data(d, commits@, files@, now));
        assert(is_scoring(
            scored_seq,
            files@,
            d.churn,
            d.bugs,
            d.reverts,
            d.bursts,
            d.couplings@,
            d.silo,
            d.quality,
            *diff_stats,
            options.weights,
        ));
        assert(report.couplings@ =~= first_of(d.couplings@, MAX_REPORTED_COUPLINGS as int));
        assert(is_report(report, commits@, *diff_stats, *options, repo_path@, analyzed_at@, now));
    }
    Ok(report)
}

/// What the scan of a parsed log comes to.
pub open spec fn is_scan_of(
    r: Result<Report, ScanError>,
    commits: Seq<Commit>,
    diff_stats: DiffStatsMap,
    o: AnalysisOptions,
    repo_path: Seq<char>,
    analyzed_at: Seq<char>,
    now: i64,
) -> bool {
    &&& r is Ok <==> succeeds(commits, o)
    &&& r matches Ok(report) ==> is_report(report, commits, diff_stats, o, repo_path, analyzed_at, now)
    &&& r matches Err(e) ==> failure_of(commits, o, e)
}

/// From an attempt to run the log command to a report: the run is
/// parsed as `parse_log_run` parses it, and what it parses to is scanned
/// as `run_analysis` scans it.
pub fn scan_log(
    run: Result<LogRun, String>,
    options: &AnalysisOptions,
    repo_path: &str,
    analyzed_at: &str,
    now: i64,
) -> (r: Result<Report, ScanError>)
    ensures
        match run {
            Err(d) => r matches Err(ScanError::LaunchFailed { detail: e }) && e@ == d@,
            Ok(o) => if !o.success {
                r matches Err(ScanError::CommandFailed { stderr: e }) && e@ == o.stderr@
            } else if !regex_compiles(RENAME_PATTERN@) {
                r matches Err(e) && e is Pattern
            } else {
                exists|commits: Seq<Commit>, diff_stats: DiffStatsMap|
                    diff_stats.wf() && #[trigger] log_state(commits, None, diff_stats) == parsed(
                        o.stdout@,
                    ) && is_scan_of(
                        r,
                        commits,
                        diff_stats,
                        *options,
                        repo_path@,
                        analyzed_at@,
                        now,
                    )
            },
        },
{
    match parse_log_run(run) {
        Err(e) => Err(e),
        Ok(parsed_log) => {
            let r = run_analysis(
                &parsed_log.0,
                &parsed_log.1,
                options,
                repo_path,
                analyzed_at,
                now,
            );
            proof {
                assert(log_state(parsed_log.0@, None, parsed_log.1) == parsed(run->Ok_0.stdout@));
                assert(is_scan_of(
                    r,
                    parsed_log.0@,
                    parsed_log.1,
                    *options,
                    repo_path@,
                    analyzed_at@,
                    now,
                ));
            }
            r
        },
    }
}

} // verus!
