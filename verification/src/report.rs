//! What a report shows beyond the numbers: rounded scores, bars, labels,
//! escaped text and advice. Colours and layout are the caller's.

use vstd::prelude::*;
use crate::text::{chars_of, copy_range, rows, split, split_on, string_of};
use crate::types::{names, CouplingEntry, HotspotResult, Tier, SCORE_UNIT};

verus! {

/// A score in whole points, rounded to the nearest; a half rounds up.
pub open spec fn rounded(score: u64) -> int {
    (score + SCORE_UNIT / 2) / SCORE_UNIT as int
}

/// A score in whole points.
pub fn round_score(score: u64) -> (r: u64)
    ensures
        r == rounded(score),
{
    ((score as u128 + (SCORE_UNIT / 2) as u128) / SCORE_UNIT as u128) as u64
}

/// How a score is to stand out.
#[derive(Debug, Clone, Copy, PartialEq, Eq, Structural)]
pub enum ScoreStyle {
    Critical,
    High,
    Medium,
    Calm,
}

/// The style of a score of `points` whole points: critical from 75 to
/// 100, high from 50, medium from 25, calm for anything else.
pub open spec fn style_of(points: u64) -> ScoreStyle {
    if 75 <= points <= 100 {
        ScoreStyle::Critical
    } else if 50 <= points <= 74 {
        ScoreStyle::High
    } else if 25 <= points <= 49 {
        ScoreStyle::Medium
    } else {
        ScoreStyle::Calm
    }
}

/// The style of a score of `points` whole points.
pub fn color_score(points: u64) -> (r: ScoreStyle)
    ensures
        r == style_of(points),
{
    if 75 <= points && points <= 100 {
        ScoreStyle::Critical
    } else if 50 <= points && points <= 74 {
        ScoreStyle::High
    } else if 25 <= points && points <= 49 {
        ScoreStyle::Medium
    } else {
        ScoreStyle::Calm
    }
}

/// The label of a tier in a table.
pub fn tier_label(tier: &Tier) -> (r: &'static str)
    ensures
        r@ == match *tier {
            Tier::Critical => "🔴 CRITICAL"@,
            Tier::High => "🟠 HIGH"@,
            Tier::Medium => "🟡 MEDIUM"@,
            Tier::Low => "🟢 LOW"@,
        },
{
    match tier {
        Tier::Critical => "🔴 CRITICAL",
        Tier::High => "🟠 HIGH",
        Tier::Medium => "🟡 MEDIUM",
        Tier::Low => "🟢 LOW",
    }
}

/// The colour of a tier in a chart.
pub fn tier_color(tier: &Tier) -> (r: &'static str)
    ensures
        r@ == match *tier {
            Tier::Critical => "rgba(239,68,68,0.75)"@,
            Tier::High => "rgba(249,115,22,0.75)"@,
            Tier::Medium => "rgba(234,179,8,0.75)"@,
            Tier::Low => "rgba(34,197,94,0.75)"@,
        },
{
    match tier {
        Tier::Critical => "rgba(239,68,68,0.75)",
        Tier::High => "rgba(249,115,22,0.75)",
        Tier::Medium => "rgba(234,179,8,0.75)",
        Tier::Low => "rgba(34,197,94,0.75)",
    }
}

/// The badge of a tier in a page.
pub fn tier_badge(tier: &Tier) -> (r: &'static str)
    ensures
        r@ == match *tier {
            Tier::Critical => "<span class=\"badge badge-critical\">🔴 CRITICAL</span>"@,
            Tier::High => "<span class=\"badge badge-high\">🟠 HIGH</span>"@,
            Tier::Medium => "<span class=\"badge badge-medium\">🟡 MEDIUM</span>"@,
            Tier::Low => "<span class=\"badge badge-low\">🟢 LOW</span>"@,
        },
{
    match tier {
        Tier::Critical => "<span class=\"badge badge-critical\">🔴 CRITICAL</span>",
        Tier::High => "<span class=\"badge badge-high\">🟠 HIGH</span>",
        Tier::Medium => "<span class=\"badge badge-medium\">🟡 MEDIUM</span>",
        Tier::Low => "<span class=\"badge badge-low\">🟢 LOW</span>",
    }
}

/// What stands for one character in a page.
pub open spec fn escaped_char(c: char) -> Seq<char> {
    if c == '&' {
        "&amp;"@
    } else if c == '<' {
        "&lt;"@
    } else if c == '>' {
        "&gt;"@
    } else if c == '"' {
        "&quot;"@
    } else if c == '\'' {
        "&#x27;"@
    } else {
        seq![c]
    }
}

/// The first `upto` characters of `s`, each as it stands in a page.
pub open spec fn escaped_upto(s: Seq<char>, upto: int) -> Seq<char>
    decreases upto,
{
    if upto <= 0 {
        Seq::empty()
    } else {
        escaped_upto(s, upto - 1) + escaped_char(s[upto - 1])
    }
}

/// `s` as it stands in a page: `&`, `<`, `>` and the two quotes written
/// as entities.
pub open spec fn escaped(s: Seq<char>) -> Seq<char> {
    escaped_upto(s, s.len() as int)
}

/// `s` as it stands in a page.
pub fn esc(s: &str) -> (r: String)
    ensures
        r@ == escaped(s@),
{
    let v = chars_of(s);
    let mut out = String::new();
    let mut i: usize = 0;
    assert(out@ =~= escaped_upto(v@, 0));
    while i < v.len()
        invariant
            i <= v.len(),
            v@ == s@,
            out@ == escaped_upto(v@, i as int),
        decreases v.len() - i,
    {
        let c = v[i];
        if c == '&' {
            out.append("&amp;");
        } else if c == '<' {
            out.append("&lt;");
        } else if c == '>' {
            out.append("&gt;");
        } else if c == '"' {
            out.append("&quot;");
        } else if c == '\'' {
            out.append("&#x27;");
        } else {
            let one = string_of(&copy_range(&v, i, i + 1));
            assert(one@ =~= seq![c]);
            out.append(one.as_str());
        }
        i += 1;
    }
    out
}

/// A path that fits in `max` characters: the path itself, or `…` and its
/// last `max - 1` characters.
pub open spec fn truncated(path: Seq<char>, max: int) -> Seq<char> {
    if path.len() <= max {
        path
    } else {
        seq!['…'] + path.skip(path.len() - (max - 1))
    }
}

/// A path that fits in `max` characters.
pub fn truncate_path(path: &str, max: usize) -> (r: String)
    requires
        max >= 1,
    ensures
        r@ == truncated(path@, max as int),
        r@.len() <= max || r@ == path@,
{
    let v = chars_of(path);
    if v.len() <= max {
        return string_of(&v);
    }
    let mut out: Vec<char> = Vec::new();
    out.push('…');
    let from = v.len() - (max - 1);
    let mut i: usize = from;
    while i < v.len()
        invariant
            from <= i <= v.len(),
            out@ == seq!['…'] + v@.subrange(from as int, i as int),
        decreases v.len() - i,
    {
        let ghost before = out@;
        out.push(v[i]);
        assert(out@ =~= seq!['…'] + v@.subrange(from as int, i + 1));
        i += 1;
    }
    assert(v@.subrange(from as int, v.len() as int) =~= v@.skip(from as int));
    string_of(&out)
}

/// The last two segments of a path, or the path where it has fewer.
pub open spec fn short_label(path: Seq<char>) -> Seq<char> {
    let segments = split_on(path, '/');
    if segments.len() < 2 {
        path
    } else {
        segments[segments.len() - 2] + seq!['/'] + segments[segments.len() - 1]
    }
}

/// The label of a file in a chart: the last two segments of its path.
pub fn chart_label(path: &str) -> (r: String)
    ensures
        r@ == short_label(path@),
{
    let v = chars_of(path);
    let segments = split(&v, '/');
    let n = segments.len();
    if n < 2 {
        return string_of(&v);
    }
    let mut out = string_of(&segments[n - 2]);
    out.append("/");
    out.append(string_of(&segments[n - 1]).as_str());
    proof {
        reveal_strlit("/");
        assert("/"@ =~= seq!['/']);
        assert(rows(segments@)[n - 2] == segments[n - 2]@);
        assert(rows(segments@)[n - 1] == segments[n - 1]@);
    }
    out
}

/// The file name of a path: its last segment.
pub fn file_name(path: &str) -> (r: String)
    ensures
        r@ == split_on(path@, '/').last(),
{
    let v = chars_of(path);
    let segments = split(&v, '/');
    let n = segments.len();
    assert(rows(segments@)[n - 1] == segments[n - 1]@);
    string_of(&segments[n - 1])
}

/// The bar of a score: the full cells and the eighths of the next cell.
/// A cell stands for 20 points.
pub open spec fn bar_of(points: u64) -> (int, int) {
    (points as int / 20, (points as int % 20) * 8 / 20)
}

/// The bar of a score of `points` whole points.
pub fn make_bar(points: u64) -> (r: (u64, u64))
    ensures
        (r.0 as int, r.1 as int) == bar_of(points),
        r.1 < 8,
{
    (points / 20, (points % 20) * 8 / 20)
}

/// What a piece of advice is about.
#[derive(Debug, Clone, Copy, PartialEq, Eq, Structural)]
pub enum Advice {
    /// One author has most of the commits; the amount is that author's
    /// share in whole points.
    Silo,
    /// The file has bursts; the amount is their number.
    Bursts,
    /// The file has been reverted; the amount is the number of reverts.
    Reverts,
    /// Careless commits touch the file; the amount is their number.
    Careless,
    /// Large commits touch the file; the amount is their number.
    Swept,
}

/// A piece of advice about one file.
#[derive(Debug, Clone, PartialEq, Eq)]
pub struct Recommendation {
    /// The file name, without its directories.
    pub name: String,
    pub advice: Advice,
    pub amount: u64,
}

/// What a `Recommendation` holds.
pub struct RecommendationView {
    pub name: Seq<char>,
    pub advice: Advice,
    pub amount: u64,
}

impl View for Recommendation {
    type V = RecommendationView;

    open spec fn view(&self) -> RecommendationView {
        RecommendationView { name: self.name@, advice: self.advice, amount: self.amount }
    }
}

/// From this share of the top author on, a file with at most two authors
/// is a silo (80 points).
pub const SILO_SHARE: u64 = 80_000_000;

/// The number of results that advice is given for.
pub const ADVISED_RESULTS: usize = 10;

/// The number of pieces of advice from which no further result is
/// looked at.
pub const ENOUGH_ADVICE: usize = 8;

/// From this number of common commits on a coupling is notable.
pub const NOTABLE_CO_CHANGES: usize = 5;

/// The number of notable couplings that are shown.
pub const SHOWN_COUPLINGS: usize = 5;

/// The advice that one result calls for, in the order silo, bursts,
/// reverts, careless commits, large commits.
pub open spec fn advice_for(r: HotspotResult) -> Seq<RecommendationView> {
    let name = split_on(r.file@, '/').last();
    let d = r.details;
    let a = if d.top_author_percent >= SILO_SHARE && d.author_count <= 2 {
        seq![
            RecommendationView {
                name,
                advice: Advice::Silo,
                amount: rounded(d.top_author_percent) as u64,
            },
        ]
    } else {
        Seq::empty()
    };
    let b = if d.burst_incidents >= 3 {
        a.push(RecommendationView { name, advice: Advice::Bursts, amount: d.burst_incidents as u64 })
    } else {
        a
    };
    let c = if d.revert_count >= 2 {
        b.push(RecommendationView { name, advice: Advice::Reverts, amount: d.revert_count as u64 })
    } else {
        b
    };
    let e = if d.wip_commits >= 3 {
        c.push(RecommendationView { name, advice: Advice::Careless, amount: d.wip_commits as u64 })
    } else {
        c
    };
    if d.large_commit_count >= 3 {
        e.push(
            RecommendationView { name, advice: Advice::Swept, amount: d.large_commit_count as u64 },
        )
    } else {
        e
    }
}

/// The advice for the first `upto` results: that for each result in
/// turn, and none for the results that follow the one with which the
/// advice has come to `ENOUGH_ADVICE` pieces.
pub open spec fn advice_upto(results: Seq<HotspotResult>, upto: int) -> Seq<RecommendationView>
    decreases upto,
{
    if upto <= 0 {
        Seq::empty()
    } else {
        let before = advice_upto(results, upto - 1);
        if before.len() >= ENOUGH_ADVICE {
            before
        } else {
            before + advice_for(results[upto - 1])
        }
    }
}

/// The advice for a list of results: that for the first
/// `ADVISED_RESULTS` of them.
pub open spec fn advice_of(results: Seq<HotspotResult>) -> Seq<RecommendationView> {
    advice_upto(
        results,
        if results.len() < ADVISED_RESULTS {
            results.len() as int
        } else {
            ADVISED_RESULTS as int
        },
    )
}

/// The views of a list of recommendations.
pub open spec fn advice_views(v: Seq<Recommendation>) -> Seq<RecommendationView> {
    Seq::new(v.len(), |i: int| v[i]@)
}

/// The advice that the results call for.
pub fn build_recommendations(results: &[HotspotResult]) -> (r: Vec<Recommendation>)
    ensures
        advice_views(r@) == advice_of(results@),
{
    let limit = if results.len() < ADVISED_RESULTS {
        results.len()
    } else {
        ADVISED_RESULTS
    };
    let mut recs: Vec<Recommendation> = Vec::new();
    let mut i: usize = 0;
    assert(advice_views(recs@) =~= advice_upto(results@, 0));
    while i < limit
        invariant
            i <= limit <= results.len(),
            advice_views(recs@) == advice_upto(results@, i as int),
        decreases limit - i,
    {
        if recs.len() < ENOUGH_ADVICE {
            let r = &results[i];
            let d = &r.details;
            let ghost before = advice_views(recs@);
            let ghost name = split_on(r.file@, '/').last();
            if d.top_author_percent >= SILO_SHARE && d.author_count <= 2 {
                recs.push(
                    Recommendation {
                        name: file_name(r.file.as_str()),
                        advice: Advice::Silo,
                        amount: round_score(d.top_author_percent),
                    },
                );
            }
            if d.burst_incidents >= 3 {
                recs.push(
                    Recommendation {
                        name: file_name(r.file.as_str()),
                        advice: Advice::Bursts,
                        amount: d.burst_incidents as u64,
                    },
                );
            }
            if d.revert_count >= 2 {
                recs.push(
                    Recommendation {
                        name: file_name(r.file.as_str()),
                        advice: Advice::Reverts,
                        amount: d.revert_count as u64,
                    },
                );
            }
            if d.wip_commits >= 3 {
                recs.push(
                    Recommendation {
                        name: file_name(r.file.as_str()),
                        advice: Advice::Careless,
                        amount: d.wip_commits as u64,
                    },
                );
            }
            if d.large_commit_count >= 3 {
                recs.push(
                    Recommendation {
                        name: file_name(r.file.as_str()),
                        advice: Advice::Swept,
                        amount: d.large_commit_count as u64,
                    },
                );
            }
            assert(advice_views(recs@) =~= before + advice_for(results[i as int]));
        }
        i += 1;
    }
    recs
}

/// Whether a coupling is notable.
pub open spec fn is_notable(e: CouplingEntry) -> bool {
    e.co_changes >= NOTABLE_CO_CHANGES
}

/// The positions of the notable couplings among the first `upto`.
pub open spec fn notable_upto(couplings: Seq<CouplingEntry>, upto: int) -> Seq<usize>
    decreases upto,
{
    if upto <= 0 {
        Seq::empty()
    } else if is_notable(couplings[upto - 1]) {
        notable_upto(couplings, upto - 1).push((upto - 1) as usize)
    } else {
        notable_upto(couplings, upto - 1)
    }
}

/// The positions of the couplings to show: the first `SHOWN_COUPLINGS`
/// of the notable ones.
pub fn notable_couplings(couplings: &[CouplingEntry]) -> (r: Vec<usize>)
    ensures
        r@ == crate::pipeline::first_of(
            notable_upto(couplings@, couplings.len() as int),
            SHOWN_COUPLINGS as int,
        ),
        forall|k: int| 0 <= k < r.len() ==> #[trigger] r[k] < couplings.len(),
{
    let mut out: Vec<usize> = Vec::new();
    let mut i: usize = 0;
    assert(out@ =~= crate::pipeline::first_of(notable_upto(couplings@, 0), SHOWN_COUPLINGS as int));
    while i < couplings.len()
        invariant
            i <= couplings.len(),
            out@ == crate::pipeline::first_of(
                notable_upto(couplings@, i as int),
                SHOWN_COUPLINGS as int,
            ),
            out.len() <= SHOWN_COUPLINGS,
            forall|k: int| 0 <= k < out.len() ==> #[trigger] out[k] < couplings.len(),
        decreases couplings.len() - i,
    {
        let ghost before = notable_upto(couplings@, i as int);
        let ghost held = out@;
        if couplings[i].co_changes >= NOTABLE_CO_CHANGES {
            if out.len() < SHOWN_COUPLINGS {
                out.push(i);
                assert(out@ =~= crate::pipeline::first_of(before.push(i), SHOWN_COUPLINGS as int));
            } else {
                assert(held =~= crate::pipeline::first_of(before.push(i), SHOWN_COUPLINGS as int));
            }
        }
        i += 1;
    }
    out
}

/// The numbers at the head of a page.
#[derive(Debug, Clone, Copy, PartialEq, Eq, Structural)]
pub struct Summary {
    pub critical: usize,
    pub high: usize,
    pub bug_commits: usize,
}

/// The sum of two counts; the largest count where the sum lies beyond it.
pub open spec fn capped(x: usize, y: usize) -> usize {
    if x + y > usize::MAX {
        usize::MAX
    } else {
        (x + y) as usize
    }
}

/// The numbers at the head of a page for the first `upto` results: how
/// many are critical, how many at high risk, and the bug-fix commits of
/// all of them together.
pub open spec fn summary_upto(results: Seq<HotspotResult>, upto: int) -> Summary
    decreases upto,
{
    if upto <= 0 {
        Summary { critical: 0, high: 0, bug_commits: 0 }
    } else {
        let s = summary_upto(results, upto - 1);
        let r = results[upto - 1];
        Summary {
            critical: if r.tier == Tier::Critical {
                capped(s.critical, 1)
            } else {
                s.critical
            },
            high: if r.tier == Tier::High {
                capped(s.high, 1)
            } else {
                s.high
            },
            bug_commits: capped(s.bug_commits, r.details.bug_commits),
        }
    }
}

/// The numbers at the head of a page.
pub fn summarize(results: &[HotspotResult]) -> (r: Summary)
    ensures
        r == summary_upto(results@, results.len() as int),
{
    let mut s = Summary { critical: 0, high: 0, bug_commits: 0 };
    let mut i: usize = 0;
    while i < results.len()
        invariant
            i <= results.len(),
            s == summary_upto(results@, i as int),
            s.critical <= i,
            s.high <= i,
        decreases results.len() - i,
    {
        let r = &results[i];
        let critical = if r.tier == Tier::Critical {
            s.critical + 1
        } else {
            s.critical
        };
        let high = if r.tier == Tier::High {
            s.high + 1
        } else {
            s.high
        };
        let bug_commits = match s.bug_commits.checked_add(r.details.bug_commits) {
            Some(v) => v,
            None => usize::MAX,
        };
        s = Summary { critical, high, bug_commits };
        i += 1;
    }
    s
}

} // verus!
