use git_scanline::file_map::FileMap;
use git_scanline::scoring::{combine, get_tier, score_hotspots, SignalScores};
use git_scanline::types::{
    BugData, BurstData, ChurnData, CommitQualityData, CouplingEntry, DiffStats, RevertData,
    SiloData, Tier, Weights,
};

fn map_of<T>(files: &[String], make: impl Fn() -> T) -> FileMap<T> {
    FileMap { keys: files.to_vec(), values: files.iter().map(|_| make()).collect() }
}

fn zero_churn(files: &[String]) -> FileMap<ChurnData> {
    map_of(files, || ChurnData { commit_count: 0, weighted_score: 0, raw_score: 0 })
}

fn zero_bugs(files: &[String]) -> FileMap<BugData> {
    map_of(files, || BugData { bug_commits: 0, bug_score: 0 })
}

fn zero_reverts(files: &[String]) -> FileMap<RevertData> {
    map_of(files, || RevertData { revert_count: 0, revert_score: 0 })
}

fn zero_bursts(files: &[String]) -> FileMap<BurstData> {
    map_of(files, || BurstData { burst_incidents: 0, burst_score: 0 })
}

fn zero_silo(files: &[String]) -> FileMap<SiloData> {
    map_of(files, || SiloData { top_author: "dev".to_string(), top_author_percent: 0, author_count: 1 })
}

fn zero_quality(files: &[String]) -> FileMap<CommitQualityData> {
    map_of(files, || CommitQualityData { wip_commits: 0, large_commit_count: 0, commit_quality_score: 0 })
}

fn points(score: u64) -> f64 {
    score as f64 / 1_000_000.0
}

const FULL: u64 = 100_000_000;

#[test]
fn test_all_zero_signals_gives_zero_score() {
    let files = vec!["src/main.rs".to_string()];
    let results = score_hotspots(
        &files,
        &zero_churn(&files),
        &zero_bugs(&files),
        &zero_reverts(&files),
        &zero_bursts(&files),
        &Vec::new(),
        &zero_silo(&files),
        &zero_quality(&files),
        &FileMap::new(),
        &Weights::default(),
    );
    assert_eq!(results.len(), 1);
    assert_eq!(points(results[0].hotspot_score), 0.0, "All-zero signals should produce score 0");
    assert_eq!(results[0].tier, Tier::Low, "Score 0 should be Tier::Low");
}

#[test]
fn test_tier_thresholds() {
    assert_eq!(get_tier(100_000_000), Tier::Critical, "100 should be Critical");
    assert_eq!(get_tier(75_000_000), Tier::Critical, "75 should be Critical");
    assert_eq!(get_tier(74_900_000), Tier::High, "74.9 should be High");
    assert_eq!(get_tier(50_000_000), Tier::High, "50 should be High");
    assert_eq!(get_tier(49_900_000), Tier::Medium, "49.9 should be Medium");
    assert_eq!(get_tier(25_000_000), Tier::Medium, "25 should be Medium");
    assert_eq!(get_tier(24_900_000), Tier::Low, "24.9 should be Low");
    assert_eq!(get_tier(0), Tier::Low, "0 should be Low");
}

#[test]
fn test_churn_weight_applied_correctly() {
    let files = vec!["a.rs".to_string()];
    let mut churn = zero_churn(&files);
    churn.values[0].weighted_score = FULL;
    let results = score_hotspots(
        &files,
        &churn,
        &zero_bugs(&files),
        &zero_reverts(&files),
        &zero_bursts(&files),
        &Vec::new(),
        &zero_silo(&files),
        &zero_quality(&files),
        &FileMap::new(),
        &Weights::default(),
    );
    let weights = Weights::default();
    let expected = 100.0 * (weights.churn as f64 / weights.sum() as f64);
    let actual = points(results[0].hotspot_score);
    assert!(
        (actual - expected).abs() < 0.001,
        "Expected hotspot_score {expected:.3}, got {actual:.3}"
    );
    assert_eq!(results[0].hotspot_score, 27_000_000);
}

#[test]
fn test_output_count_matches_input() {
    let files: Vec<String> = (0..5).map(|i| format!("file{i}.rs")).collect();
    let results = score_hotspots(
        &files,
        &zero_churn(&files),
        &zero_bugs(&files),
        &zero_reverts(&files),
        &zero_bursts(&files),
        &Vec::new(),
        &zero_silo(&files),
        &zero_quality(&files),
        &FileMap::new(),
        &Weights::default(),
    );
    assert_eq!(results.len(), files.len(), "Output should have one entry per input file");
    for (r, f) in results.iter().zip(files.iter()) {
        assert_eq!(&r.file, f);
    }
}

#[test]
fn test_max_signals_produces_critical_tier() {
    let files = vec!["a.rs".to_string()];
    let mut churn = zero_churn(&files);
    let mut bugs = zero_bugs(&files);
    let mut reverts = zero_reverts(&files);
    let mut bursts = zero_bursts(&files);
    let mut quality = zero_quality(&files);
    let mut silo = zero_silo(&files);
    churn.values[0].weighted_score = FULL;
    bugs.values[0].bug_score = FULL;
    reverts.values[0].revert_score = FULL;
    bursts.values[0].burst_score = FULL;
    quality.values[0].commit_quality_score = FULL;
    silo.values[0].top_author_percent = FULL;
    let results = score_hotspots(
        &files,
        &churn,
        &bugs,
        &reverts,
        &bursts,
        &Vec::new(),
        &silo,
        &quality,
        &FileMap::new(),
        &Weights::default(),
    );
    assert!(points(results[0].hotspot_score) > 75.0, "All signals at max should produce CRITICAL score");
    assert_eq!(results[0].tier, Tier::Critical);
}

#[test]
fn all_signals_full_with_coupling_scores_exactly_100() {
    let s = SignalScores {
        churn: FULL,
        bugs: FULL,
        reverts: FULL,
        bursts: FULL,
        coupling: FULL,
        silo: FULL,
        commit_quality: FULL,
    };
    let w = Weights { churn: 3, bugs: 1, reverts: 4, bursts: 1, coupling: 5, silo: 9, commit_quality: 2 };
    assert_eq!(combine(&s, &w), FULL);
    assert_eq!(get_tier(combine(&s, &w)), Tier::Critical);
}

#[test]
fn weights_are_divided_by_their_sum() {
    let s = SignalScores {
        churn: 10_000_000,
        bugs: 20_000_000,
        reverts: 30_000_000,
        bursts: 40_000_000,
        coupling: 50_000_000,
        silo: 60_000_000,
        commit_quality: 70_000_000,
    };
    let w = Weights { churn: 1, bugs: 2, reverts: 3, bursts: 4, coupling: 5, silo: 6, commit_quality: 7 };
    // (10 + 40 + 90 + 160 + 250 + 360 + 490) / 28 = 50 points
    assert_eq!(combine(&s, &w), 50_000_000);
    let doubled = Weights { churn: 2, bugs: 4, reverts: 6, bursts: 8, coupling: 10, silo: 12, commit_quality: 14 };
    assert_eq!(combine(&s, &doubled), 50_000_000);
    // the mean is rounded down
    let thirds = Weights { churn: 1, bugs: 1, reverts: 1, bursts: 0, coupling: 0, silo: 0, commit_quality: 0 };
    let t = SignalScores { churn: 1, bugs: 0, reverts: 0, bursts: 0, coupling: 0, silo: 0, commit_quality: 0 };
    assert_eq!(combine(&t, &thirds), 0);
}

#[test]
fn missing_records_count_as_neutral() {
    let files = vec!["a.rs".to_string(), "b.rs".to_string()];
    let only_a = vec!["a.rs".to_string()];
    let mut churn = zero_churn(&only_a);
    churn.values[0] = ChurnData { commit_count: 7, weighted_score: 80_000_000, raw_score: 0 };
    let mut silo = zero_silo(&only_a);
    silo.values[0] = SiloData { top_author: "ann".to_string(), top_author_percent: 60_000_000, author_count: 3 };
    let mut diff: FileMap<DiffStats> = FileMap::new();
    diff.keys.push("b.rs".to_string());
    diff.values.push(DiffStats { additions: 12, deletions: 5 });
    let couplings = vec![CouplingEntry {
        file_a: "a.rs".to_string(),
        file_b: "b.rs".to_string(),
        co_changes: 4,
        strength: 200_000_000,
    }];
    let results = score_hotspots(
        &files,
        &churn,
        &FileMap::new(),
        &FileMap::new(),
        &FileMap::new(),
        &couplings,
        &silo,
        &FileMap::new(),
        &diff,
        &Weights::default(),
    );
    assert_eq!(results.len(), 2);
    let a = &results[0];
    assert_eq!(a.file, "a.rs");
    assert_eq!(a.churn_score, 80_000_000);
    assert_eq!(a.silo_score, 60_000_000);
    // a strength above the scale counts as 100 points
    assert_eq!(a.coupling_score, 100_000_000);
    // (80 * 27 + 100 * 9 + 60 * 5) / 100 = 33.6
    assert_eq!(a.hotspot_score, 33_600_000);
    assert_eq!(a.tier, Tier::Medium);
    assert_eq!(a.details.commit_count, 7);
    assert_eq!(a.details.top_author, "ann");
    assert_eq!(a.details.author_count, 3);
    assert_eq!(a.details.additions, 0);
    let b = &results[1];
    assert_eq!(b.churn_score, 0);
    assert_eq!(b.coupling_score, 100_000_000);
    assert_eq!(b.hotspot_score, 9_000_000);
    assert_eq!(b.tier, Tier::Low);
    assert_eq!(b.details.top_author, "unknown");
    assert_eq!(b.details.top_author_percent, 0);
    assert_eq!(b.details.author_count, 1);
    assert_eq!(b.details.additions, 12);
    assert_eq!(b.details.deletions, 5);
}
