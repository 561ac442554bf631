use git_scanline::analyzers::blame::{analyze_authors, file_silo};
use git_scanline::analyzers::bug_correlation::{analyze_bug_correlation, bug_correlation_from_flags};
use git_scanline::analyzers::churn::{analyze_churn, decay_table, recency};
use git_scanline::analyzers::commit_quality::{
    analyze_commit_quality, careless, commit_quality_from_flags,
};
use git_scanline::analyzers::revert_tracker::{analyze_reverts, reverts_from_flags};
use git_scanline::types::Commit;

fn make_commit(subject: &str, files: &[&str]) -> Commit {
    Commit {
        hash: "abc".to_string(),
        author: "dev@test.com".to_string(),
        timestamp: 1700000000,
        subject: subject.to_string(),
        files: files.iter().map(|s| s.to_string()).collect(),
    }
}

fn by(author: &str, files: &[&str]) -> Commit {
    Commit {
        hash: "abc".to_string(),
        author: author.to_string(),
        timestamp: 1700000000,
        subject: "change".to_string(),
        files: files.iter().map(|s| s.to_string()).collect(),
    }
}

fn at(timestamp: i64, files: &[&str]) -> Commit {
    Commit {
        hash: "abc".to_string(),
        author: "dev@test.com".to_string(),
        timestamp,
        subject: "change".to_string(),
        files: files.iter().map(|s| s.to_string()).collect(),
    }
}

fn now_commit(files: &[&str]) -> Commit {
    at(chrono::Utc::now().timestamp(), files)
}

fn names(v: &[&str]) -> Vec<String> {
    v.iter().map(|s| s.to_string()).collect()
}

fn points(score: u64) -> f64 {
    score as f64 / 1_000_000.0
}

// ── bug correlation ─────────────────────────────────────────────────────────

#[test]
fn test_detects_fix_commits() {
    let commits = vec![
        make_commit("fix: null pointer in auth", &["src/auth.rs"]),
        make_commit("add feature", &["src/feature.rs"]),
    ];
    let files = vec!["src/auth.rs".to_string(), "src/feature.rs".to_string()];
    let result = analyze_bug_correlation(&commits, &files).unwrap();
    assert!(result.get("src/auth.rs").unwrap().bug_commits > 0, "auth.rs should have bug commits");
    assert_eq!(result.get("src/feature.rs").unwrap().bug_commits, 0, "feature.rs should have no bug commits");
}

#[test]
fn test_detects_multiple_bug_keywords() {
    for kw in &["fix", "bug", "patch", "hotfix", "regression", "crash", "defect", "error"] {
        let commits = vec![make_commit(&format!("{} something", kw), &["src/a.rs"])];
        let files = vec!["src/a.rs".to_string()];
        let result = analyze_bug_correlation(&commits, &files).unwrap();
        assert!(result.get("src/a.rs").unwrap().bug_commits > 0, "keyword '{}' should trigger bug detection", kw);
    }
}

#[test]
fn test_scores_in_range() {
    let commits = vec![
        make_commit("fix crash", &["a.rs", "b.rs"]),
        make_commit("fix more", &["a.rs"]),
        make_commit("regular commit", &["b.rs"]),
    ];
    let files = vec!["a.rs".to_string(), "b.rs".to_string()];
    let result = analyze_bug_correlation(&commits, &files).unwrap();
    for data in &result.values {
        let score = points(data.bug_score);
        assert!(score >= 0.0 && score <= 100.0, "bug_score {} out of range", score);
    }
}

#[test]
fn test_highest_bug_count_gets_score_100() {
    let commits = vec![
        make_commit("fix a", &["hot.rs"]),
        make_commit("fix b", &["hot.rs"]),
        make_commit("fix c", &["cold.rs"]),
    ];
    let files = vec!["hot.rs".to_string(), "cold.rs".to_string()];
    let result = analyze_bug_correlation(&commits, &files).unwrap();
    assert!((points(result.get("hot.rs").unwrap().bug_score) - 100.0).abs() < 0.001, "Most-blamed file should score 100");
    assert!(points(result.get("cold.rs").unwrap().bug_score) < 100.0);
    assert_eq!(result.get("cold.rs").unwrap().bug_score, 50_000_000);
}

#[test]
fn bug_words_count_as_whole_words_only() {
    let commits = vec![
        make_commit("prefix the names", &["a.rs"]),
        make_commit("debugging output", &["a.rs"]),
        make_commit("FIX: upper case", &["b.rs"]),
        make_commit("this is broken.", &["b.rs"]),
        make_commit("closes issue #4", &["b.rs"]),
        make_commit("errors everywhere", &["c.rs"]),
    ];
    let files = names(&["a.rs", "b.rs", "c.rs", "d.rs"]);
    let result = analyze_bug_correlation(&commits, &files).unwrap();
    let counts: Vec<usize> = result.values.iter().map(|d| d.bug_commits).collect();
    assert_eq!(counts, vec![0, 3, 0, 0]);
    let scores: Vec<u64> = result.values.iter().map(|d| d.bug_score).collect();
    assert_eq!(scores, vec![0, 100_000_000, 0, 0]);
    assert_eq!(result.keys, files);
}

#[test]
fn counts_follow_the_flags_that_are_handed_in() {
    let commits = vec![
        make_commit("one", &["a.rs", "b.rs"]),
        make_commit("two", &["a.rs"]),
        make_commit("three", &["a.rs", "a.rs", "c.rs"]),
        make_commit("four", &["b.rs"]),
    ];
    let files = names(&["a.rs", "b.rs", "c.rs", "never.rs"]);
    let result = bug_correlation_from_flags(&commits, &vec![true, false, true, true], &files);
    let seen: Vec<(usize, u64)> = result.values.iter().map(|d| (d.bug_commits, d.bug_score)).collect();
    assert_eq!(seen, vec![(2, 100_000_000), (2, 100_000_000), (1, 50_000_000), (0, 0)]);
    let none = bug_correlation_from_flags(&commits, &vec![false; 4], &files);
    assert!(none.values.iter().all(|d| d.bug_commits == 0 && d.bug_score == 0));
    let thirds = bug_correlation_from_flags(&commits, &vec![true; 4], &files);
    // a: 3, b: 2, c: 1 of a largest count of 3; shares are rounded up
    let scores: Vec<u64> = thirds.values.iter().map(|d| d.bug_score).collect();
    assert_eq!(scores, vec![100_000_000, 66_666_667, 33_333_334, 0]);
}

// ── reverts ─────────────────────────────────────────────────────────────────

#[test]
fn test_detects_revert_commits() {
    let commits = vec![
        make_commit("Revert \"add feature\"", &["src/feature.rs"]),
        make_commit("add another feature", &["src/other.rs"]),
    ];
    let files = vec!["src/feature.rs".to_string(), "src/other.rs".to_string()];
    let result = analyze_reverts(&commits, &files).unwrap();
    assert_eq!(result.get("src/feature.rs").unwrap().revert_count, 1, "feature.rs should have 1 revert");
    assert_eq!(result.get("src/other.rs").unwrap().revert_count, 0, "other.rs should have 0 reverts");
}

#[test]
fn test_non_revert_commits_score_zero() {
    let commits = vec![make_commit("add feature", &["a.rs"]), make_commit("update something", &["a.rs"])];
    let files = vec!["a.rs".to_string()];
    let result = analyze_reverts(&commits, &files).unwrap();
    assert_eq!(result.get("a.rs").unwrap().revert_count, 0);
    assert_eq!(points(result.get("a.rs").unwrap().revert_score), 0.0);
}

#[test]
fn test_revert_detection_is_case_insensitive() {
    for prefix in &["Revert", "revert", "REVERT"] {
        let commits = vec![make_commit(&format!("{} something", prefix), &["a.rs"])];
        let files = vec!["a.rs".to_string()];
        let result = analyze_reverts(&commits, &files).unwrap();
        assert!(result.get("a.rs").unwrap().revert_count > 0, "prefix '{}' should be detected as a revert", prefix);
    }
}

#[test]
fn test_revert_score_in_range() {
    let commits = vec![
        make_commit("Revert commit A", &["a.rs"]),
        make_commit("Revert commit B", &["a.rs", "b.rs"]),
    ];
    let files = vec!["a.rs".to_string(), "b.rs".to_string()];
    let result = analyze_reverts(&commits, &files).unwrap();
    for data in &result.values {
        let score = points(data.revert_score);
        assert!(score >= 0.0 && score <= 100.0, "revert_score {} out of range", score);
    }
    assert_eq!(result.get("a.rs").unwrap().revert_score, 100_000_000);
    assert_eq!(result.get("b.rs").unwrap().revert_score, 50_000_000);
}

#[test]
fn a_revert_starts_the_trimmed_subject_as_a_whole_word() {
    let commits = vec![
        make_commit("  revert the change", &["a.rs"]),
        make_commit("reverted the change", &["b.rs"]),
        make_commit("please revert", &["c.rs"]),
        make_commit("revert", &["d.rs"]),
        make_commit("Revert: x", &["e.rs"]),
    ];
    let files = names(&["a.rs", "b.rs", "c.rs", "d.rs", "e.rs"]);
    let result = analyze_reverts(&commits, &files).unwrap();
    let counts: Vec<usize> = result.values.iter().map(|d| d.revert_count).collect();
    assert_eq!(counts, vec![1, 0, 0, 1, 1]);
    let handed = reverts_from_flags(&commits, &vec![false, true, true, false, false], &files);
    let counts: Vec<usize> = handed.values.iter().map(|d| d.revert_count).collect();
    assert_eq!(counts, vec![0, 1, 1, 0, 0]);
}

// ── commit quality ──────────────────────────────────────────────────────────

#[test]
fn test_detects_wip_keyword() {
    let commits = vec![
        make_commit("WIP: still working on this", &["a.rs"]),
        make_commit("implement user authentication properly", &["b.rs"]),
    ];
    let files = vec!["a.rs".to_string(), "b.rs".to_string()];
    let result = analyze_commit_quality(&commits, &files).unwrap();
    assert!(result.get("a.rs").unwrap().wip_commits > 0, "WIP commit should be detected for a.rs");
    assert_eq!(result.get("b.rs").unwrap().wip_commits, 0, "Well-described commit should not count as WIP");
}

#[test]
fn test_detects_short_message_as_wip() {
    let commits = vec![make_commit("fix", &["a.rs"])];
    let files = vec!["a.rs".to_string()];
    let result = analyze_commit_quality(&commits, &files).unwrap();
    assert!(result.get("a.rs").unwrap().wip_commits > 0, "Short commit message should count as WIP");
}

#[test]
fn test_detects_large_commit() {
    let large_files: Vec<String> = (0..35).map(|i| format!("src/file{i}.rs")).collect();
    let commit = Commit {
        hash: "abc".to_string(),
        author: "dev@test.com".to_string(),
        timestamp: 1700000000,
        subject: "massive reformat of entire codebase".to_string(),
        files: large_files.clone(),
    };
    let watched = vec!["src/file0.rs".to_string()];
    let result = analyze_commit_quality(&[commit], &watched).unwrap();
    assert!(result.get("src/file0.rs").unwrap().large_commit_count > 0, "Large commit should be detected");
}

#[test]
fn test_quality_score_in_range() {
    let commits = vec![make_commit("wip", &["a.rs"]), make_commit("tmp hack", &["a.rs"])];
    let files = vec!["a.rs".to_string()];
    let result = analyze_commit_quality(&commits, &files).unwrap();
    let score = points(result.get("a.rs").unwrap().commit_quality_score);
    assert!(score >= 0.0 && score <= 100.0, "commit_quality_score {} out of range", score);
}

#[test]
fn test_clean_commits_score_zero() {
    let commits = vec![
        make_commit("implement OAuth2 token refresh with retry logic", &["auth.rs"]),
        make_commit("add unit tests for token expiry edge cases", &["auth.rs"]),
    ];
    let files = vec!["auth.rs".to_string()];
    let result = analyze_commit_quality(&commits, &files).unwrap();
    assert_eq!(result.get("auth.rs").unwrap().wip_commits, 0, "Well-described commits should not be WIP");
    assert_eq!(result.get("auth.rs").unwrap().large_commit_count, 0, "Small commits should not be large");
}

#[test]
fn careless_subjects_are_short_or_matched() {
    assert!(careless("123456789", false));
    assert!(!careless("1234567890", false));
    assert!(careless("   123456789   ", false));
    assert!(!careless("  1234567890  ", false));
    assert!(careless("a long and careful subject", true));
    // length is counted in characters, not bytes
    assert!(careless("äöüäöüäöü", false));
    assert!(!careless("äöüäöüäöüä", false));
    assert!(careless("", false));
}

#[test]
fn generic_subjects_and_key_words_are_careless() {
    let commits = vec![
        make_commit("update the documentation of the parser", &["a.rs"]),
        make_commit("temporary workaround for the build", &["a.rs"]),
        make_commit("squash me into the previous commit", &["b.rs"]),
        make_commit("remove a debug statement from main", &["b.rs"]),
        make_commit("Changes...!!  ", &["c.rs"]),
        make_commit("cleanup", &["c.rs"]),
    ];
    let files = names(&["a.rs", "b.rs", "c.rs"]);
    let result = analyze_commit_quality(&commits, &files).unwrap();
    let counts: Vec<usize> = result.values.iter().map(|d| d.wip_commits).collect();
    assert_eq!(counts, vec![0, 2, 2]);
}

#[test]
fn quality_score_blends_careless_and_large_commits() {
    let many: Vec<String> = (0..31).map(|i| format!("f{i}.rs")).collect();
    let many_refs: Vec<&str> = many.iter().map(|s| s.as_str()).collect();
    let thirty: Vec<String> = (0..30).map(|i| format!("f{i}.rs")).collect();
    let thirty_refs: Vec<&str> = thirty.iter().map(|s| s.as_str()).collect();
    let commits = vec![
        make_commit("first", &many_refs),
        make_commit("second", &many_refs),
        make_commit("third", &thirty_refs),
        make_commit("fourth", &["f0.rs", "x.rs"]),
        make_commit("fifth", &["x.rs"]),
    ];
    let files = names(&["f0.rs", "f30.rs", "x.rs", "none.rs"]);
    let wip = vec![true, false, true, true, true];
    let result = commit_quality_from_flags(&commits, &wip, &files);
    let seen: Vec<(usize, usize, u64)> = result
        .values
        .iter()
        .map(|d| (d.wip_commits, d.large_commit_count, d.commit_quality_score))
        .collect();
    // f0: 3 of 3 careless, 2 of 2 large; f30: 1 of 3, 2 of 2; x: 2 of 3, 0 of 2
    assert_eq!(seen, vec![(3, 2, 100_000_000), (1, 2, 60_000_000), (2, 0, 40_000_000), (0, 0, 0)]);
}

// ── churn ───────────────────────────────────────────────────────────────────

#[test]
fn test_churn_scores_in_range() {
    let commits = vec![
        now_commit(&["src/a.rs", "src/b.rs"]),
        now_commit(&["src/a.rs"]),
        now_commit(&["src/a.rs", "src/c.rs"]),
    ];
    let files = vec!["src/a.rs".to_string(), "src/b.rs".to_string(), "src/c.rs".to_string()];
    let result = analyze_churn(&commits, &files, chrono::Utc::now().timestamp());
    for data in &result.values {
        let weighted = points(data.weighted_score);
        let raw = points(data.raw_score);
        assert!(weighted >= 0.0 && weighted <= 100.0, "weighted_score {} out of range", weighted);
        assert!(raw >= 0.0 && raw <= 100.0, "raw_score {} out of range", raw);
    }
}

#[test]
fn test_most_churned_file_has_highest_score() {
    let commits = vec![now_commit(&["hot.rs", "cold.rs"]), now_commit(&["hot.rs"]), now_commit(&["hot.rs"])];
    let files = vec!["hot.rs".to_string(), "cold.rs".to_string()];
    let result = analyze_churn(&commits, &files, chrono::Utc::now().timestamp());
    assert!(
        result.get("hot.rs").unwrap().weighted_score > result.get("cold.rs").unwrap().weighted_score,
        "hot.rs appears in more commits and should have a higher score"
    );
}

#[test]
fn test_file_not_in_commits_has_zero_count() {
    let commits = vec![now_commit(&["a.rs"])];
    let files = vec!["a.rs".to_string(), "b.rs".to_string()];
    let result = analyze_churn(&commits, &files, chrono::Utc::now().timestamp());
    assert_eq!(result.get("b.rs").unwrap().commit_count, 0, "b.rs was never committed, count must be 0");
    assert_eq!(points(result.get("b.rs").unwrap().weighted_score), 0.0, "b.rs was never committed, score must be 0");
}

#[test]
fn test_all_files_present_in_output() {
    let commits = vec![now_commit(&["a.rs"])];
    let files = vec!["a.rs".to_string(), "b.rs".to_string(), "c.rs".to_string()];
    let result = analyze_churn(&commits, &files, chrono::Utc::now().timestamp());
    assert_eq!(result.len(), 3, "Output should contain every input file");
}

#[test]
fn weights_fall_by_the_day() {
    let table = decay_table();
    assert_eq!(table[0], 1_000_000_000);
    assert_eq!(table[1], 995_012_479);
    assert_eq!(table[2], 990_049_833);
    assert_eq!(*table.last().unwrap(), 0);
    assert!(table.windows(2).all(|w| w[1] < w[0] || w[0] == 0));
    // the weight has halved after about 139 days
    assert!(table[138] > 500_000_000 && table[139] < 500_000_000);
    // within a few millionths of e^(-0.005 * days)
    for days in [1usize, 10, 100, 139, 365, 1000, 2000] {
        let exact = (-0.005 * days as f64).exp() * 1e9;
        assert!((table[days] as f64 - exact).abs() < 300.0, "day {days}: {} vs {exact}", table[days]);
    }
    let day = 86_400;
    assert_eq!(recency(&table, 1_000 * day, 1_000 * day), 1_000_000_000);
    assert_eq!(recency(&table, 1_000 * day, 1_000 * day + 5), 1_000_000_000);
    assert_eq!(recency(&table, 1_000 * day, 999 * day + 1), 1_000_000_000);
    assert_eq!(recency(&table, 1_000 * day, 999 * day), 995_012_479);
    assert_eq!(recency(&table, 1_000 * day, 998 * day), 990_049_833);
    assert_eq!(recency(&table, i64::MAX, i64::MIN), 0);
    assert_eq!(recency(&table, i64::MIN, i64::MAX), 1_000_000_000);
}

#[test]
fn churn_counts_commits_and_weighs_them_by_age() {
    let day = 86_400;
    let now = 20_000 * day;
    let commits = vec![
        at(now, &["new.rs", "both.rs"]),
        at(now - day, &["new.rs"]),
        at(now - 139 * day, &["old.rs", "both.rs"]),
        at(now + 500, &["future.rs"]),
        at(now - 30_000 * day, &["ancient.rs"]),
    ];
    let files = names(&["new.rs", "old.rs", "both.rs", "future.rs", "ancient.rs", "none.rs"]);
    let result = analyze_churn(&commits, &files, now);
    let counts: Vec<usize> = result.values.iter().map(|d| d.commit_count).collect();
    assert_eq!(counts, vec![2, 1, 2, 1, 1, 0]);
    // raw: five times the share of all commits, capped at 100
    let raw: Vec<u64> = result.values.iter().map(|d| d.raw_score).collect();
    assert_eq!(raw, vec![100_000_000, 100_000_000, 100_000_000, 100_000_000, 100_000_000, 0]);
    let table = decay_table();
    let top = 1_000_000_000u128 + 995_012_479;
    let share = |w: u128| ((w * 100_000_000 + top - 1) / top) as u64;
    let weighted: Vec<u64> = result.values.iter().map(|d| d.weighted_score).collect();
    assert_eq!(
        weighted,
        vec![
            100_000_000,
            share(table[139] as u128),
            share(1_000_000_000 + table[139] as u128),
            share(1_000_000_000),
            0,
            0
        ]
    );
}

#[test]
fn raw_score_is_five_times_the_share_of_all_commits() {
    let mut commits = Vec::new();
    for k in 0..10 {
        commits.push(at(0, if k == 0 { &["one.rs", "all.rs"] } else { &["all.rs"] }));
    }
    let files = names(&["one.rs", "all.rs"]);
    let result = analyze_churn(&commits, &files, 0);
    assert_eq!(result.get("one.rs").unwrap().raw_score, 50_000_000);
    assert_eq!(result.get("all.rs").unwrap().raw_score, 100_000_000);
    let empty = analyze_churn(&Vec::new(), &files, 0);
    assert_eq!(empty.get("one.rs").unwrap().raw_score, 0);
    assert_eq!(empty.get("one.rs").unwrap().weighted_score, 0);
}

// ── author silo ─────────────────────────────────────────────────────────────

#[test]
fn file_without_history_has_an_unknown_author() {
    let result = analyze_authors(&vec![by("ann", &["a.rs"])], &names(&["ghost.rs", "a.rs"]));
    let ghost = result.get("ghost.rs").unwrap();
    assert_eq!(ghost.top_author, "unknown");
    assert_eq!(ghost.top_author_percent, 100_000_000);
    assert_eq!(ghost.author_count, 1);
    let a = result.get("a.rs").unwrap();
    assert_eq!(a.top_author, "ann");
    assert_eq!(a.top_author_percent, 100_000_000);
    assert_eq!(a.author_count, 1);
}

#[test]
fn top_author_has_the_most_commits_on_the_file() {
    let commits = vec![
        by("ann", &["a.rs", "b.rs"]),
        by("bob", &["a.rs"]),
        by("bob", &["a.rs", "b.rs"]),
        by("cy", &["a.rs"]),
        by("bob", &["c.rs"]),
    ];
    let files = names(&["a.rs", "b.rs", "c.rs"]);
    let result = analyze_authors(&commits, &files);
    let a = result.get("a.rs").unwrap();
    assert_eq!((a.top_author.as_str(), a.top_author_percent, a.author_count), ("bob", 50_000_000, 3));
    // ann and bob have one commit each on b.rs: the one who appears first is at the top
    let b = result.get("b.rs").unwrap();
    assert_eq!((b.top_author.as_str(), b.top_author_percent, b.author_count), ("ann", 50_000_000, 2));
    let c = result.get("c.rs").unwrap();
    assert_eq!((c.top_author.as_str(), c.top_author_percent, c.author_count), ("bob", 100_000_000, 1));
}

#[test]
fn share_of_the_top_author_is_rounded_up() {
    let commits = vec![by("ann", &["a.rs"]), by("bob", &["a.rs"]), by("cy", &["a.rs"])];
    let silo = file_silo(&commits, &"a.rs".to_string());
    assert_eq!(silo.top_author, "ann");
    assert_eq!(silo.top_author_percent, 33_333_334);
    assert_eq!(silo.author_count, 3);
}

#[test]
fn weighted_churn_agrees_with_the_exponential_within_a_thousandth_of_a_point() {
    let day = 86_400i64;
    let now = 19_000 * day;
    let mut commits = Vec::new();
    for k in 0..400i64 {
        let age = (k * 37) % 1500;
        let files: Vec<String> = (0..3).map(|j| format!("f{}.rs", (k * 7 + j * 13) % 40)).collect();
        commits.push(Commit {
            hash: format!("h{k}"),
            author: "a".to_string(),
            timestamp: now - age * day - 123,
            subject: "s".to_string(),
            files,
        });
    }
    let files: Vec<String> = (0..40).map(|i| format!("f{i}.rs")).collect();
    let result = analyze_churn(&commits, &files, now);
    let mut sums = vec![0.0f64; files.len()];
    for c in &commits {
        let days_ago = ((now - c.timestamp) / day).max(0) as f64;
        let weight = (-0.005 * days_ago).exp();
        for (i, f) in files.iter().enumerate() {
            if c.files.contains(f) {
                sums[i] += weight;
            }
        }
    }
    let max = sums.iter().cloned().fold(0.0001_f64, f64::max);
    for (i, f) in files.iter().enumerate() {
        let expected = sums[i] / max * 100.0;
        let actual = points(result.get(f).unwrap().weighted_score);
        assert!((actual - expected).abs() < 0.001, "{f}: {actual} vs {expected}");
    }
}

// ── repeated candidates ─────────────────────────────────────────────────────

#[test]
fn a_candidate_that_is_named_twice_has_one_record() {
    let commits = vec![
        make_commit("fix: one", &["a.rs", "b.rs"]),
        make_commit("Revert \"one\"", &["a.rs"]),
        make_commit("wip", &["b.rs"]),
    ];
    let files = names(&["b.rs", "a.rs", "b.rs", "c.rs", "a.rs", "b.rs"]);
    let once = names(&["b.rs", "a.rs", "c.rs"]);

    let bugs = analyze_bug_correlation(&commits, &files).unwrap();
    assert_eq!(bugs.keys, once);
    assert_eq!(bugs.len(), 3);
    let counts: Vec<usize> = bugs.values.iter().map(|d| d.bug_commits).collect();
    assert_eq!(counts, vec![1, 1, 0]);

    let reverts = analyze_reverts(&commits, &files).unwrap();
    assert_eq!(reverts.keys, once);
    assert_eq!(reverts.values.len(), 3);

    let quality = analyze_commit_quality(&commits, &files).unwrap();
    assert_eq!(quality.keys, once);
    assert_eq!(quality.values.len(), 3);

    let churn = analyze_churn(&commits, &files, 1700000000);
    assert_eq!(churn.keys, once);
    let counts: Vec<usize> = churn.values.iter().map(|d| d.commit_count).collect();
    assert_eq!(counts, vec![2, 2, 0]);

    let silo = analyze_authors(&commits, &files);
    assert_eq!(silo.keys, once);
    assert_eq!(silo.values.len(), 3);
    assert_eq!(silo.get("c.rs").unwrap().top_author, "unknown");

    let bursts = git_scanline::analyzers::burst_detector::analyze_bursts(&commits, &files);
    assert_eq!(bursts.keys, once);
    assert_eq!(bursts.values.len(), 3);

    let scores = git_scanline::analyzers::coupling::get_coupling_scores(&files, &[]);
    assert_eq!(scores.keys, once);
    assert_eq!(scores.values, vec![0, 0, 0]);

    // a list without repetition is kept as it is
    let plain = analyze_bug_correlation(&commits, &once).unwrap();
    assert_eq!(plain.keys, once);
    for f in &files {
        assert!(bugs.contains_key(f));
    }
    assert!(!bugs.contains_key("d.rs"));
}
