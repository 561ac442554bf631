use git_scanline::analyzers::coupling::{analyze_coupling, get_coupling_scores};
use git_scanline::types::{Commit, CouplingEntry};

fn make_commit(files: &[&str]) -> Commit {
    Commit {
        hash: "abc".to_string(),
        author: "dev@test.com".to_string(),
        timestamp: 1700000000,
        subject: "change".to_string(),
        files: files.iter().map(|s| s.to_string()).collect(),
    }
}

fn score_of(scores: &git_scanline::file_map::FileMap<u64>, name: &str) -> f64 {
    *scores.get(name).unwrap() as f64 / 1_000_000.0
}

#[test]
fn test_detects_coupled_files() {
    // a.rs and b.rs change together 3 times — should be coupled
    let commits = vec![
        make_commit(&["a.rs", "b.rs"]),
        make_commit(&["a.rs", "b.rs"]),
        make_commit(&["a.rs", "b.rs"]),
        make_commit(&["c.rs"]),
    ];
    let files = vec!["a.rs".to_string(), "b.rs".to_string(), "c.rs".to_string()];
    let result = analyze_coupling(&commits, &files);
    assert!(!result.is_empty(), "Should detect a coupled pair");
    let pair = result.iter().find(|e| {
        (e.file_a == "a.rs" && e.file_b == "b.rs") || (e.file_a == "b.rs" && e.file_b == "a.rs")
    });
    assert!(pair.is_some(), "a.rs and b.rs should be identified as coupled");
}

#[test]
fn test_no_coupling_below_threshold() {
    // Files only co-change twice — below the minimum of 3
    let commits = vec![
        make_commit(&["a.rs", "b.rs"]),
        make_commit(&["a.rs", "b.rs"]),
        make_commit(&["a.rs"]),
    ];
    let files = vec!["a.rs".to_string(), "b.rs".to_string()];
    let result = analyze_coupling(&commits, &files);
    assert!(result.is_empty(), "Two co-changes should not meet the coupling threshold");
}

#[test]
fn test_coupling_scores_populated_for_coupled_pair() {
    let commits = vec![
        make_commit(&["a.rs", "b.rs"]),
        make_commit(&["a.rs", "b.rs"]),
        make_commit(&["a.rs", "b.rs"]),
    ];
    let files = vec!["a.rs".to_string(), "b.rs".to_string()];
    let couplings = analyze_coupling(&commits, &files);
    let scores = get_coupling_scores(&files, &couplings);
    assert!(score_of(&scores, "a.rs") > 0.0, "a.rs should have a non-zero coupling score");
    assert!(score_of(&scores, "b.rs") > 0.0, "b.rs should have a non-zero coupling score");
}

#[test]
fn test_uncoupled_file_scores_zero() {
    let commits = vec![
        make_commit(&["a.rs", "b.rs"]),
        make_commit(&["a.rs", "b.rs"]),
        make_commit(&["a.rs", "b.rs"]),
        make_commit(&["lone.rs"]),
    ];
    let files = vec!["a.rs".to_string(), "b.rs".to_string(), "lone.rs".to_string()];
    let couplings = analyze_coupling(&commits, &files);
    let scores = get_coupling_scores(&files, &couplings);
    assert_eq!(score_of(&scores, "lone.rs"), 0.0, "lone.rs never co-changes, should score 0");
}

#[test]
fn test_large_commits_are_excluded_from_coupling() {
    // 21 watched files that all co-change 3 times — pairing should be skipped.
    let watched: Vec<String> = (0..21).map(|i| format!("watched{i}.rs")).collect();
    let watched_refs: Vec<&str> = watched.iter().map(|s| s.as_str()).collect();
    let commits: Vec<Commit> = (0..3).map(|_| make_commit(&watched_refs)).collect();
    let result = analyze_coupling(&commits, &watched);
    assert!(
        result.is_empty(),
        "Commits with > 20 watched files should be excluded from coupling analysis"
    );
}

#[test]
fn twenty_files_in_one_commit_still_count() {
    let watched: Vec<String> = (0..20).map(|i| format!("w{i:02}.rs")).collect();
    let refs: Vec<&str> = watched.iter().map(|s| s.as_str()).collect();
    let commits: Vec<Commit> = (0..3).map(|_| make_commit(&refs)).collect();
    let result = analyze_coupling(&commits, &watched);
    assert_eq!(result.len(), 190);
    for e in &result {
        assert!(e.file_a < e.file_b);
        assert_eq!(e.co_changes, 3);
        assert_eq!(e.strength, 100_000_000);
    }
}

#[test]
fn files_outside_the_candidates_do_not_count_towards_the_cap() {
    let mut listed: Vec<String> = (0..40).map(|i| format!("noise{i}.rs")).collect();
    listed.push("a.rs".to_string());
    listed.push("b.rs".to_string());
    let refs: Vec<&str> = listed.iter().map(|s| s.as_str()).collect();
    let commits: Vec<Commit> = (0..4).map(|_| make_commit(&refs)).collect();
    let files = vec!["b.rs".to_string(), "a.rs".to_string()];
    let result = analyze_coupling(&commits, &files);
    assert_eq!(result.len(), 1);
    assert_eq!(result[0].file_a, "a.rs");
    assert_eq!(result[0].file_b, "b.rs");
    assert_eq!(result[0].co_changes, 4);
}

#[test]
fn strength_is_the_share_of_common_commits() {
    // a: 5 commits, b: 4 commits, together 3: 3 / (5 + 4 - 3) = 50 points.
    let commits = vec![
        make_commit(&["a.rs", "b.rs"]),
        make_commit(&["a.rs", "b.rs"]),
        make_commit(&["b.rs", "a.rs"]),
        make_commit(&["a.rs"]),
        make_commit(&["a.rs"]),
        make_commit(&["b.rs"]),
    ];
    let files = vec!["a.rs".to_string(), "b.rs".to_string()];
    let result = analyze_coupling(&commits, &files);
    assert_eq!(result.len(), 1);
    assert_eq!(result[0].co_changes, 3);
    assert_eq!(result[0].strength, 50_000_000);
}

#[test]
fn entries_come_in_descending_order_of_common_commits() {
    let mut commits = Vec::new();
    for _ in 0..3 {
        commits.push(make_commit(&["a.rs", "b.rs"]));
    }
    for _ in 0..5 {
        commits.push(make_commit(&["c.rs", "d.rs"]));
    }
    for _ in 0..4 {
        commits.push(make_commit(&["a.rs", "d.rs"]));
    }
    let files: Vec<String> = ["a.rs", "b.rs", "c.rs", "d.rs"].iter().map(|s| s.to_string()).collect();
    let result = analyze_coupling(&commits, &files);
    let seen: Vec<(String, String, usize)> =
        result.iter().map(|e| (e.file_a.clone(), e.file_b.clone(), e.co_changes)).collect();
    assert_eq!(
        seen,
        vec![
            ("c.rs".to_string(), "d.rs".to_string(), 5),
            ("a.rs".to_string(), "d.rs".to_string(), 4),
            ("a.rs".to_string(), "b.rs".to_string(), 3),
        ]
    );
}

#[test]
fn a_path_listed_twice_counts_once() {
    let commits = vec![
        make_commit(&["a.rs", "a.rs", "b.rs"]),
        make_commit(&["a.rs", "b.rs"]),
        make_commit(&["a.rs", "b.rs"]),
    ];
    let files = vec!["a.rs".to_string(), "b.rs".to_string(), "a.rs".to_string()];
    let result = analyze_coupling(&commits, &files);
    assert_eq!(result.len(), 1);
    assert_eq!(result[0].co_changes, 3);
    assert_eq!(result[0].strength, 100_000_000);
}

#[test]
fn coupling_score_is_the_strongest_strength() {
    let couplings = vec![
        CouplingEntry { file_a: "a".to_string(), file_b: "b".to_string(), co_changes: 3, strength: 40_000_000 },
        CouplingEntry { file_a: "a".to_string(), file_b: "c".to_string(), co_changes: 3, strength: 70_000_000 },
        CouplingEntry { file_a: "b".to_string(), file_b: "c".to_string(), co_changes: 3, strength: 10_000_000 },
    ];
    let files = vec!["a".to_string(), "b".to_string(), "c".to_string(), "d".to_string()];
    let scores = get_coupling_scores(&files, &couplings);
    assert_eq!(scores.get("a"), Some(&70_000_000));
    assert_eq!(scores.get("b"), Some(&40_000_000));
    assert_eq!(scores.get("c"), Some(&70_000_000));
    assert_eq!(scores.get("d"), Some(&0));
}
