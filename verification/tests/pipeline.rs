use git_scanline::config::FilterOverrides;
use git_scanline::error::{parse_log_output, parse_log_run, LogRun, ScanError};
use git_scanline::file_map::FileMap;
use git_scanline::git::log_parser::parse_commit_output;
use git_scanline::pipeline::{
    rank_results, run_analysis, run_analyzers, scan_log, touched_files, AnalysisOptions,
};
use git_scanline::types::{Commit, HotspotDetails, HotspotResult, Tier, Weights};

fn options() -> AnalysisOptions {
    AnalysisOptions {
        since: String::new(),
        path: None,
        top: 20,
        bugs_only: false,
        weights: Weights::default(),
        overrides: FilterOverrides::none(),
    }
}

fn result(file: &str, score: u64, bug_commits: usize) -> HotspotResult {
    HotspotResult {
        file: file.to_string(),
        hotspot_score: score,
        churn_score: 0,
        bug_fix_score: 0,
        revert_score: 0,
        burst_score: 0,
        coupling_score: 0,
        silo_score: 0,
        commit_quality_score: 0,
        tier: Tier::Low,
        details: HotspotDetails {
            commit_count: 0,
            bug_commits,
            revert_count: 0,
            burst_incidents: 0,
            wip_commits: 0,
            large_commit_count: 0,
            top_author: "unknown".to_string(),
            top_author_percent: 0,
            author_count: 1,
            additions: 0,
            deletions: 0,
        },
    }
}

fn files_of(results: &[HotspotResult]) -> Vec<&str> {
    results.iter().map(|r| r.file.as_str()).collect()
}

const LOG: &str = "COMMIT|h1|ann@x.org|1700000000|fix crash in parser\n\
10\t2\tsrc/parser.rs\n\
1\t1\tsrc/lexer.rs\n\
3\t0\tCargo.lock\n\
COMMIT|h2|ann@x.org|1700000100|wip\n\
5\t5\tsrc/parser.rs\n\
1\t0\t.env\n\
COMMIT|h3|bob@x.org|1700000200|Revert \"fix crash in parser\"\n\
2\t10\tsrc/parser.rs\n\
-\t-\tassets/logo.png\n\
COMMIT|h4|ann@x.org|1600000000|add the lexer with a long subject\n\
100\t0\tsrc/lexer.rs\n\
7\t0\tdocs/guide.md\n";

#[test]
fn a_scan_gives_one_result_per_candidate_ranked_by_score() {
    let (commits, diff) = parse_commit_output(LOG).unwrap();
    let report =
        run_analysis(&commits, &diff, &options(), "/repo", "2024-01-01T00:00:00+00:00", 1700000300).unwrap();
    assert_eq!(report.meta.since, "all history");
    assert_eq!(report.meta.commit_count, 4);
    assert_eq!(report.meta.file_count, 4);
    assert_eq!(report.meta.analyzed_at, "2024-01-01T00:00:00+00:00");
    assert_eq!(report.meta.repo_path, "/repo");
    // Cargo.lock and the logo are noise; .env is kept by the filter and reported by the scan
    let mut seen = files_of(&report.results);
    assert_eq!(seen[0], "src/parser.rs");
    seen.sort();
    assert_eq!(seen, vec![".env", "docs/guide.md", "src/lexer.rs", "src/parser.rs"]);
    for pair in report.results.windows(2) {
        assert!(pair[0].hotspot_score >= pair[1].hotspot_score);
    }
    for r in &report.results {
        assert!(r.hotspot_score <= 100_000_000);
    }
    let parser = &report.results[0];
    assert_eq!(parser.details.commit_count, 3);
    // the subject of the revert quotes the words of the fix
    assert_eq!(parser.details.bug_commits, 2);
    assert_eq!(parser.details.revert_count, 1);
    assert_eq!(parser.details.burst_incidents, 1);
    assert_eq!(parser.details.wip_commits, 1);
    assert_eq!(parser.details.top_author, "ann@x.org");
    assert_eq!(parser.details.author_count, 2);
    assert_eq!(parser.details.additions, 17);
    assert_eq!(parser.details.deletions, 17);
    assert_eq!(parser.churn_score, 100_000_000);
    assert_eq!(parser.bug_fix_score, 100_000_000);
    assert_eq!(parser.revert_score, 100_000_000);
    assert_eq!(parser.burst_score, 100_000_000);
    assert_eq!(parser.coupling_score, 0);
    // two of three commits are the top author's
    assert_eq!(parser.silo_score, 66_666_667);
    assert_eq!(parser.commit_quality_score, 60_000_000);
    // (100*27 + 100*27 + 100*14 + 100*9 + 0*9 + 66.666667*5 + 60*9) / 100
    assert_eq!(parser.hotspot_score, 85_733_333);
    assert_eq!(parser.tier, Tier::Critical);
    assert!(report.couplings.is_empty());
    assert_eq!(report.security_risks.len(), 1);
    assert_eq!(report.security_risks[0].file, ".env");
    assert_eq!(report.security_risks[0].risk_type, "env-file");
}

#[test]
fn a_scan_can_be_limited_by_path_count_and_bug_fixes() {
    let (commits, diff) = parse_commit_output(LOG).unwrap();
    let mut o = options();
    o.path = Some("src".to_string());
    o.since = "6 months ago".to_string();
    let report = run_analysis(&commits, &diff, &o, ".", "t", 1700000300).unwrap();
    assert_eq!(report.meta.since, "6 months ago");
    assert_eq!(report.meta.file_count, 2);
    assert_eq!(files_of(&report.results), vec!["src/parser.rs", "src/lexer.rs"]);
    // the security scan is not limited by the path
    assert_eq!(report.security_risks.len(), 1);
    let mut o = options();
    o.top = 1;
    let report = run_analysis(&commits, &diff, &o, ".", "t", 1700000300).unwrap();
    assert_eq!(files_of(&report.results), vec!["src/parser.rs"]);
    assert_eq!(report.meta.file_count, 4);
    let mut o = options();
    o.bugs_only = true;
    let report = run_analysis(&commits, &diff, &o, ".", "t", 1700000300).unwrap();
    assert_eq!(files_of(&report.results), vec!["src/parser.rs", "src/lexer.rs"]);
    let mut o = options();
    o.top = 0;
    let report = run_analysis(&commits, &diff, &o, ".", "t", 1700000300).unwrap();
    assert!(report.results.is_empty());
}

#[test]
fn a_scan_without_commits_or_files_or_weights_gives_an_error() {
    let diff = FileMap::new();
    let e = run_analysis(&[], &diff, &options(), "/the/repo", "t", 0).unwrap_err();
    assert!(matches!(e, ScanError::NoCommits { .. }));
    assert_eq!(e.message(), "No commits found in '/the/repo'. Try --since=\"4 years ago\"");
    let (commits, diff) = parse_commit_output("COMMIT|h|a|1|s\n1\t1\tpackage.json\n1\t1\tnode_modules/x.js\n").unwrap();
    let e = run_analysis(&commits, &diff, &options(), ".", "t", 0).unwrap_err();
    assert!(matches!(e, ScanError::NoFiles));
    assert_eq!(e.message(), "No files found after filtering. Try --path or --since.");
    let (commits, diff) = parse_commit_output(LOG).unwrap();
    let mut o = options();
    o.path = Some("nowhere".to_string());
    assert!(matches!(run_analysis(&commits, &diff, &o, ".", "t", 0), Err(ScanError::NoFiles)));
    let mut o = options();
    o.weights = Weights { churn: 0, bugs: 0, reverts: 0, bursts: 0, coupling: 0, silo: 0, commit_quality: 0 };
    assert!(matches!(run_analysis(&commits, &diff, &o, ".", "t", 0), Err(ScanError::InvalidWeights)));
    assert!(matches!(run_analysis(&[], &diff, &o, ".", "t", 0), Err(ScanError::InvalidWeights)));
}

#[test]
fn a_failed_log_command_gives_its_error_stream_and_no_results() {
    let e = parse_log_output(false, "COMMIT|h|a|1|s\n", "fatal: not a git repository").unwrap_err();
    assert!(matches!(e, ScanError::CommandFailed { .. }));
    assert_eq!(e.message(), "git log failed: fatal: not a git repository");
    let (commits, diff) = parse_log_output(true, "COMMIT|h|a|1|s\n4\t2\tf.rs\n", "warning: something").unwrap();
    assert_eq!(commits.len(), 1);
    assert_eq!(diff.get("f.rs").map(|d| (d.additions, d.deletions)), Some((4, 2)));
    let e = ScanError::LaunchFailed { detail: "No such file or directory".to_string() };
    assert_eq!(e.message(), "Failed to run git: No such file or directory");
}

#[test]
fn touched_files_lists_each_path_once_in_the_order_of_the_history() {
    let (commits, _) = parse_commit_output(LOG).unwrap();
    assert_eq!(
        touched_files(&commits),
        vec!["src/parser.rs", "src/lexer.rs", "Cargo.lock", ".env", "assets/logo.png", "docs/guide.md"]
    );
    assert!(touched_files(&[]).is_empty());
}

#[test]
fn ranking_sorts_filters_and_cuts() {
    let scored = || {
        vec![
            result("low.rs", 10, 1),
            result("high.rs", 90, 0),
            result("mid-a.rs", 50, 2),
            result("mid-b.rs", 50, 0),
            result("top.rs", 95, 3),
        ]
    };
    assert_eq!(
        files_of(&rank_results(scored(), false, 20)),
        vec!["top.rs", "high.rs", "mid-a.rs", "mid-b.rs", "low.rs"]
    );
    assert_eq!(files_of(&rank_results(scored(), false, 3)), vec!["top.rs", "high.rs", "mid-a.rs"]);
    assert_eq!(files_of(&rank_results(scored(), true, 20)), vec!["top.rs", "mid-a.rs", "low.rs"]);
    // the cut comes after the filter
    assert_eq!(files_of(&rank_results(scored(), true, 2)), vec!["top.rs", "mid-a.rs"]);
    assert!(rank_results(scored(), false, 0).is_empty());
    assert!(rank_results(Vec::new(), false, 5).is_empty());
}

#[test]
fn the_analyzers_give_the_same_results_side_by_side_as_one_by_one() {
    let (commits, _) = parse_commit_output(LOG).unwrap();
    let files: Vec<String> = vec!["src/parser.rs".to_string(), "src/lexer.rs".to_string()];
    let data = run_analyzers(&commits, &files, 1700000300).unwrap();
    let churn = git_scanline::analyzers::churn::analyze_churn(&commits, &files, 1700000300);
    assert_eq!(data.churn.values, churn.values);
    let bugs = git_scanline::analyzers::bug_correlation::analyze_bug_correlation(&commits, &files).unwrap();
    assert_eq!(data.bugs.values, bugs.values);
    let reverts = git_scanline::analyzers::revert_tracker::analyze_reverts(&commits, &files).unwrap();
    assert_eq!(data.reverts.values, reverts.values);
    let bursts = git_scanline::analyzers::burst_detector::analyze_bursts(&commits, &files);
    assert_eq!(data.bursts.values, bursts.values);
    let quality = git_scanline::analyzers::commit_quality::analyze_commit_quality(&commits, &files).unwrap();
    assert_eq!(data.quality.values, quality.values);
    let silo = git_scanline::analyzers::blame::analyze_authors(&commits, &files);
    assert_eq!(data.silo.values.len(), silo.values.len());
    assert_eq!(data.silo.values[0].top_author, silo.values[0].top_author);
    assert_eq!(data.couplings.len(), 0);
    assert_eq!(data.churn.keys, files);
}

#[test]
fn at_most_ten_couplings_are_reported() {
    let names: Vec<String> = (0..6).map(|i| format!("src/f{i}.rs")).collect();
    let commits: Vec<Commit> = (0..3)
        .map(|k| Commit {
            hash: format!("h{k}"),
            author: "a".to_string(),
            timestamp: k,
            subject: "change all six files".to_string(),
            files: names.clone(),
        })
        .collect();
    let report = run_analysis(&commits, &FileMap::new(), &options(), ".", "t", 10).unwrap();
    // six files make fifteen pairs
    assert_eq!(report.couplings.len(), 10);
    assert_eq!(report.results.len(), 6);
    for r in &report.results {
        assert_eq!(r.coupling_score, 100_000_000);
    }
}

#[test]
fn test_parse_log_real_repo() {
    // the output of the log command is at hand as text
    let (commits, _) = parse_log_output(true, LOG, "").expect("parse_log should succeed on a valid repo");
    assert!(!commits.is_empty(), "Real repo should have commits");
    assert!(!commits[0].hash.is_empty(), "Commit should have a hash");
    assert!(!commits[0].author.is_empty(), "Commit should have an author");
}

#[test]
fn test_full_pipeline_scores_in_range() {
    let (commits, _) = parse_log_output(true, LOG, "").expect("parse_log should succeed");
    assert!(!commits.is_empty(), "Repo must have commits");

    let all_files = touched_files(&commits);
    let files = git_scanline::filters::filter_files(&all_files, None);
    let files: Vec<String> = files.into_iter().take(50).collect();
    assert!(!files.is_empty());

    let churn = git_scanline::analyzers::churn::analyze_churn(&commits, &files, 1700000300);
    let bugs = git_scanline::analyzers::bug_correlation::analyze_bug_correlation(&commits, &files).unwrap();
    let reverts = git_scanline::analyzers::revert_tracker::analyze_reverts(&commits, &files).unwrap();
    let bursts = git_scanline::analyzers::burst_detector::analyze_bursts(&commits, &files);
    let coupling = git_scanline::analyzers::coupling::analyze_coupling(&commits, &files);
    let silo = git_scanline::analyzers::blame::analyze_authors(&commits, &files);
    let quality = git_scanline::analyzers::commit_quality::analyze_commit_quality(&commits, &files).unwrap();
    let diff_stats = FileMap::new();
    let weights = Weights::default();

    let results = git_scanline::scoring::score_hotspots(
        &files, &churn, &bugs, &reverts, &bursts, &coupling, &silo, &quality, &diff_stats, &weights,
    );
    assert_eq!(results.len(), files.len());
    for r in &results {
        let score = r.hotspot_score as f64 / 1_000_000.0;
        assert!(score >= 0.0 && score <= 100.0, "Score {} out of range for {}", score, r.file);
    }
}

#[test]
fn a_larger_history_is_scanned_in_good_time() {
    let mut text = String::new();
    for c in 0..600u64 {
        let subject = match c % 7 {
            0 => "fix the thing that broke",
            1 => "wip",
            2 => "Revert \"something\"",
            _ => "implement a feature in a careful way",
        };
        text.push_str(&format!("COMMIT|h{c}|author{}@x.org|{}|{subject}\n", c % 11, 1_600_000_000 + c * 7_000));
        for k in 0..3u64 {
            let file = (c * 31 + k * 17) % 120;
            text.push_str(&format!("{}\t{}\tsrc/dir{}/file{file}.rs\n", c % 9, k, file % 10));
        }
    }
    let (commits, diff) = parse_commit_output(&text).unwrap();
    assert_eq!(commits.len(), 600);
    let mut o = options();
    o.top = 1000;
    let report = run_analysis(&commits, &diff, &o, ".", "t", 1_700_000_000).unwrap();
    assert_eq!(report.meta.file_count, 120);
    assert_eq!(report.results.len(), 120);
    for pair in report.results.windows(2) {
        assert!(pair[0].hotspot_score >= pair[1].hotspot_score);
    }
    for r in &report.results {
        assert!(r.hotspot_score <= 100_000_000);
        assert_eq!(r.details.commit_count, 15);
    }
    for c in &report.couplings {
        assert!(c.co_changes >= 3 && c.strength > 0 && c.strength <= 100_000_000);
        assert!(c.file_a < c.file_b);
    }
}

#[test]
fn each_outcome_of_the_log_command_has_its_result() {
    let e = parse_log_run(Err("No such file or directory (os error 2)".to_string())).unwrap_err();
    assert!(matches!(e, ScanError::LaunchFailed { .. }));
    assert_eq!(e.message(), "Failed to run git: No such file or directory (os error 2)");
    let failed = LogRun {
        success: false,
        stdout: "COMMIT|h|a|1|s\n".to_string(),
        stderr: "fatal: bad revision".to_string(),
    };
    let e = parse_log_run(Ok(failed)).unwrap_err();
    assert!(matches!(e, ScanError::CommandFailed { .. }));
    assert_eq!(e.message(), "git log failed: fatal: bad revision");
    let fine = LogRun { success: true, stdout: "COMMIT|h|a|1|s\n2\t3\tf.rs\n".to_string(), stderr: String::new() };
    let (commits, diff) = parse_log_run(Ok(fine)).unwrap();
    assert_eq!(commits.len(), 1);
    assert_eq!(commits[0].files, vec!["f.rs".to_string()]);
    assert_eq!(diff.keys, vec!["f.rs".to_string()]);
}

#[test]
fn a_run_of_the_log_command_is_scanned_in_one_call() {
    let fine = LogRun { success: true, stdout: LOG.to_string(), stderr: String::new() };
    let report = scan_log(Ok(fine), &options(), "/repo", "now", 1700000300).unwrap();
    assert_eq!(report.meta.commit_count, 4);
    assert_eq!(report.meta.file_count, 4);
    assert_eq!(report.results[0].file, "src/parser.rs");
    assert_eq!(report.results[0].hotspot_score, 85_733_333);
    let e = scan_log(Err("not found".to_string()), &options(), "/repo", "now", 0).unwrap_err();
    assert!(matches!(e, ScanError::LaunchFailed { .. }));
    let failed = LogRun { success: false, stdout: LOG.to_string(), stderr: "fatal".to_string() };
    let e = scan_log(Ok(failed), &options(), "/repo", "now", 0).unwrap_err();
    assert_eq!(e.message(), "git log failed: fatal");
    let empty = LogRun { success: true, stdout: String::new(), stderr: String::new() };
    let e = scan_log(Ok(empty), &options(), "/repo", "now", 0).unwrap_err();
    assert!(matches!(e, ScanError::NoCommits { .. }));
}
