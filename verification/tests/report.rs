use git_scanline::report::{
    build_recommendations, chart_label, color_score, esc, file_name, make_bar, notable_couplings,
    round_score, summarize, tier_badge, tier_color, tier_label, truncate_path, Advice,
    Recommendation, ScoreStyle, Summary,
};
use git_scanline::types::{CouplingEntry, HotspotDetails, HotspotResult, Tier};

fn result(file: &str, tier: Tier, details: HotspotDetails) -> HotspotResult {
    HotspotResult {
        file: file.to_string(),
        hotspot_score: 0,
        churn_score: 0,
        bug_fix_score: 0,
        revert_score: 0,
        burst_score: 0,
        coupling_score: 0,
        silo_score: 0,
        commit_quality_score: 0,
        tier,
        details,
    }
}

fn details() -> HotspotDetails {
    HotspotDetails {
        commit_count: 0,
        bug_commits: 0,
        revert_count: 0,
        burst_incidents: 0,
        wip_commits: 0,
        large_commit_count: 0,
        top_author: "dev".to_string(),
        top_author_percent: 0,
        author_count: 5,
        additions: 0,
        deletions: 0,
    }
}

fn rec(name: &str, advice: Advice, amount: u64) -> Recommendation {
    Recommendation { name: name.to_string(), advice, amount }
}

#[test]
fn scores_round_to_the_nearest_point() {
    assert_eq!(round_score(0), 0);
    assert_eq!(round_score(499_999), 0);
    assert_eq!(round_score(500_000), 1);
    assert_eq!(round_score(74_500_000), 75);
    assert_eq!(round_score(74_499_999), 74);
    assert_eq!(round_score(100_000_000), 100);
    assert_eq!(round_score(u64::MAX), 18_446_744_073_710);
}

#[test]
fn styles_follow_the_rounded_score() {
    assert_eq!(color_score(100), ScoreStyle::Critical);
    assert_eq!(color_score(75), ScoreStyle::Critical);
    assert_eq!(color_score(74), ScoreStyle::High);
    assert_eq!(color_score(50), ScoreStyle::High);
    assert_eq!(color_score(49), ScoreStyle::Medium);
    assert_eq!(color_score(25), ScoreStyle::Medium);
    assert_eq!(color_score(24), ScoreStyle::Calm);
    assert_eq!(color_score(0), ScoreStyle::Calm);
    assert_eq!(color_score(101), ScoreStyle::Calm);
}

#[test]
fn tiers_have_labels_colours_and_badges() {
    assert_eq!(tier_label(&Tier::Critical), "🔴 CRITICAL");
    assert_eq!(tier_label(&Tier::High), "🟠 HIGH");
    assert_eq!(tier_label(&Tier::Medium), "🟡 MEDIUM");
    assert_eq!(tier_label(&Tier::Low), "🟢 LOW");
    assert_eq!(tier_color(&Tier::Critical), "rgba(239,68,68,0.75)");
    assert_eq!(tier_color(&Tier::Low), "rgba(34,197,94,0.75)");
    assert_eq!(tier_badge(&Tier::High), "<span class=\"badge badge-high\">🟠 HIGH</span>");
    assert_eq!(tier_badge(&Tier::Medium), "<span class=\"badge badge-medium\">🟡 MEDIUM</span>");
    assert_eq!(Tier::Critical.label(), "CRITICAL");
    assert_eq!(Tier::Low.label(), "LOW");
}

#[test]
fn text_is_escaped_for_a_page() {
    assert_eq!(esc("a & b"), "a &amp; b");
    assert_eq!(esc("<script>alert(\"x\")</script>"), "&lt;script&gt;alert(&quot;x&quot;)&lt;/script&gt;");
    assert_eq!(esc("it's"), "it&#x27;s");
    assert_eq!(esc("&amp;"), "&amp;amp;");
    assert_eq!(esc("plain/päth.rs"), "plain/päth.rs");
    assert_eq!(esc(""), "");
}

#[test]
fn long_paths_keep_their_end() {
    assert_eq!(truncate_path("src/main.rs", 44), "src/main.rs");
    assert_eq!(truncate_path("abcdef", 6), "abcdef");
    assert_eq!(truncate_path("abcdefg", 6), "…cdefg");
    assert_eq!(truncate_path("abcdefg", 1), "…");
    assert_eq!(truncate_path("äöüäöü", 4), "…äöü");
    let long = "a/very/long/path/that/goes/on/and/on/and/on/file.rs";
    let cut = truncate_path(long, 44);
    assert_eq!(cut.chars().count(), 44);
    assert!(cut.starts_with('…') && cut.ends_with("on/file.rs"));
}

#[test]
fn chart_labels_are_the_last_two_segments() {
    assert_eq!(chart_label("a/b/c/d.rs"), "c/d.rs");
    assert_eq!(chart_label("c/d.rs"), "c/d.rs");
    assert_eq!(chart_label("d.rs"), "d.rs");
    assert_eq!(chart_label("a//d.rs"), "/d.rs");
    assert_eq!(file_name("a/b/c/d.rs"), "d.rs");
    assert_eq!(file_name("d.rs"), "d.rs");
    assert_eq!(file_name("dir/"), "");
}

#[test]
fn bars_have_a_cell_per_twenty_points() {
    assert_eq!(make_bar(0), (0, 0));
    assert_eq!(make_bar(19), (0, 7));
    assert_eq!(make_bar(20), (1, 0));
    assert_eq!(make_bar(50), (2, 4));
    assert_eq!(make_bar(99), (4, 7));
    assert_eq!(make_bar(100), (5, 0));
}

#[test]
fn advice_follows_the_thresholds() {
    let mut silo = details();
    silo.top_author_percent = 80_000_000;
    silo.author_count = 2;
    let mut not_silo = details();
    not_silo.top_author_percent = 79_999_999;
    not_silo.author_count = 1;
    let mut many_authors = details();
    many_authors.top_author_percent = 100_000_000;
    many_authors.author_count = 3;
    let mut busy = details();
    busy.burst_incidents = 3;
    busy.revert_count = 2;
    busy.wip_commits = 3;
    busy.large_commit_count = 3;
    let mut below = details();
    below.burst_incidents = 2;
    below.revert_count = 1;
    below.wip_commits = 2;
    below.large_commit_count = 2;
    let results = vec![
        result("src/a/silo.rs", Tier::High, silo),
        result("not_silo.rs", Tier::Low, not_silo),
        result("many.rs", Tier::Low, many_authors),
        result("deep/dir/busy.rs", Tier::Critical, busy),
        result("below.rs", Tier::Low, below),
    ];
    assert_eq!(
        build_recommendations(&results),
        vec![
            rec("silo.rs", Advice::Silo, 80),
            rec("busy.rs", Advice::Bursts, 3),
            rec("busy.rs", Advice::Reverts, 2),
            rec("busy.rs", Advice::Careless, 3),
            rec("busy.rs", Advice::Swept, 3),
        ]
    );
    assert!(build_recommendations(&[]).is_empty());
}

#[test]
fn advice_stops_after_enough_pieces_and_ten_results() {
    let mut busy = details();
    busy.burst_incidents = 4;
    busy.revert_count = 4;
    busy.wip_commits = 4;
    let results: Vec<HotspotResult> =
        (0..5).map(|i| result(&format!("f{i}.rs"), Tier::Low, busy.clone())).collect();
    // three pieces per file: nine after the third file, which is enough
    let recs = build_recommendations(&results);
    assert_eq!(recs.len(), 9);
    assert_eq!(recs[8], rec("f2.rs", Advice::Careless, 4));
    let mut one = details();
    one.revert_count = 2;
    let mut results: Vec<HotspotResult> =
        (0..10).map(|i| result(&format!("quiet{i}.rs"), Tier::Low, details())).collect();
    results[9] = result("tenth.rs", Tier::Low, one.clone());
    results.push(result("eleventh.rs", Tier::Low, one));
    assert_eq!(build_recommendations(&results), vec![rec("tenth.rs", Advice::Reverts, 2)]);
}

#[test]
fn five_notable_couplings_are_shown() {
    let entry = |n: usize| CouplingEntry {
        file_a: "a".to_string(),
        file_b: "b".to_string(),
        co_changes: n,
        strength: 1,
    };
    let list: Vec<CouplingEntry> = [9, 4, 8, 5, 3, 7, 6, 5, 5].iter().map(|n| entry(*n)).collect();
    assert_eq!(notable_couplings(&list), vec![0, 2, 3, 5, 6]);
    assert_eq!(notable_couplings(&list[..4]), vec![0, 2, 3]);
    assert!(notable_couplings(&[]).is_empty());
}

#[test]
fn the_summary_counts_tiers_and_bug_fixes() {
    let mut with_bugs = details();
    with_bugs.bug_commits = 4;
    let mut huge = details();
    huge.bug_commits = usize::MAX;
    let results = vec![
        result("a", Tier::Critical, with_bugs.clone()),
        result("b", Tier::High, details()),
        result("c", Tier::Critical, with_bugs),
        result("d", Tier::Low, details()),
        result("e", Tier::Medium, details()),
    ];
    assert_eq!(summarize(&results), Summary { critical: 2, high: 1, bug_commits: 8 });
    assert_eq!(summarize(&[]), Summary { critical: 0, high: 0, bug_commits: 0 });
    let results = vec![result("a", Tier::Low, huge.clone()), result("b", Tier::Low, huge)];
    assert_eq!(summarize(&results).bug_commits, usize::MAX);
}
