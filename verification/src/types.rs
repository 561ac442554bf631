//! The data model: commits, per-file signal records, weights and results.
//!
//! Every score lives on the 0 to 100 scale and is stored as a whole number
//! of millionths of a point, so `100_000_000` stands for a score of 100.

use vstd::prelude::*;

verus! {

/// One point of score, in stored units.
pub const SCORE_UNIT: u64 = 1_000_000;

/// The highest score (100 points), in stored units.
pub const SCORE_MAX: u64 = 100_000_000;

/// The views of a list of strings.
pub open spec fn names(v: Seq<String>) -> Seq<Seq<char>> {
    Seq::new(v.len(), |i: int| v[i]@)
}

/// One entry of the history log.
#[derive(Debug, Clone)]
pub struct Commit {
    pub hash: String,
    pub author: String,
    pub timestamp: i64,
    pub subject: String,
    pub files: Vec<String>,
}

/// What a `Commit` holds.
pub struct CommitView {
    pub hash: Seq<char>,
    pub author: Seq<char>,
    pub timestamp: i64,
    pub subject: Seq<char>,
    pub files: Seq<Seq<char>>,
}

impl View for Commit {
    type V = CommitView;

    open spec fn view(&self) -> CommitView {
        CommitView {
            hash: self.hash@,
            author: self.author@,
            timestamp: self.timestamp,
            subject: self.subject@,
            files: names(self.files@),
        }
    }
}

/// The views of a list of commits.
pub open spec fn commit_views(v: Seq<Commit>) -> Seq<CommitView> {
    Seq::new(v.len(), |i: int| v[i]@)
}

impl Commit {
    /// The paths this commit lists.
    pub open spec fn paths(&self) -> Seq<Seq<char>> {
        names(self.files@)
    }

    /// Whether the commit lists the path `name`.
    pub open spec fn touches(&self, name: Seq<char>) -> bool {
        self.paths().contains(name)
    }
}

/// Lines added to and deleted from one file, summed over the history.
#[derive(Debug, Clone, Copy, PartialEq, Eq, Structural)]
pub struct DiffStats {
    pub additions: usize,
    pub deletions: usize,
}

impl Default for DiffStats {
    fn default() -> (r: Self)
        ensures
            r.additions == 0,
            r.deletions == 0,
    {
        DiffStats { additions: 0, deletions: 0 }
    }
}

/// The churn of one file: the commits that touch it, its weighted churn
/// as a share of the largest, and a raw score from its share of all
/// commits.
#[derive(Debug, Clone, Copy, PartialEq, Eq, Structural)]
pub struct ChurnData {
    pub commit_count: usize,
    pub weighted_score: u64,
    pub raw_score: u64,
}

/// The bug-fix commits that touch one file, and their number as a share
/// of the largest such number.
#[derive(Debug, Clone, Copy, PartialEq, Eq, Structural)]
pub struct BugData {
    pub bug_commits: usize,
    pub bug_score: u64,
}

/// The reverts that touch one file, and their number as a share of the
/// largest such number.
#[derive(Debug, Clone, Copy, PartialEq, Eq, Structural)]
pub struct RevertData {
    pub revert_count: usize,
    pub revert_score: u64,
}

/// The bursts of one file, and their number as a share of the largest
/// such number.
#[derive(Debug, Clone, Copy, PartialEq, Eq, Structural)]
pub struct BurstData {
    pub burst_incidents: usize,
    pub burst_score: u64,
}

/// The authors of one file: the one with the most commits, that
/// author's share of the commits, and the number of authors.
#[derive(Debug, Clone)]
pub struct SiloData {
    pub top_author: String,
    pub top_author_percent: u64,
    pub author_count: usize,
}

/// The careless and the oversized commits that touch one file, and the
/// score that follows from them.
#[derive(Debug, Clone, Copy, PartialEq, Eq, Structural)]
pub struct CommitQualityData {
    pub wip_commits: usize,
    pub large_commit_count: usize,
    pub commit_quality_score: u64,
}

/// Two files that change together; `file_a` sorts before `file_b`.
#[derive(Debug, Clone)]
pub struct CouplingEntry {
    pub file_a: String,
    pub file_b: String,
    pub co_changes: usize,
    pub strength: u64,
}

/// A sensitive file that the history has held at some time.
#[derive(Debug, Clone)]
pub struct SecurityRisk {
    pub file: String,
    pub risk_type: String,
    pub commit_count: usize,
    pub first_seen: String,
    pub last_seen: String,
}

/// Discrete risk band of a file.
#[derive(Debug, Clone, Copy, PartialEq, Eq, Structural)]
pub enum Tier {
    Critical,
    High,
    Medium,
    Low,
}

impl Tier {
    /// The upper-case label of the band.
    pub fn label(&self) -> (r: &'static str)
        ensures
            r@ == match *self {
                Tier::Critical => "CRITICAL"@,
                Tier::High => "HIGH"@,
                Tier::Medium => "MEDIUM"@,
                Tier::Low => "LOW"@,
            },
    {
        match self {
            Tier::Critical => "CRITICAL",
            Tier::High => "HIGH",
            Tier::Medium => "MEDIUM",
            Tier::Low => "LOW",
        }
    }
}

/// The raw counts behind a result, kept for display.
#[derive(Debug, Clone)]
pub struct HotspotDetails {
    pub commit_count: usize,
    pub bug_commits: usize,
    pub revert_count: usize,
    pub burst_incidents: usize,
    pub wip_commits: usize,
    pub large_commit_count: usize,
    pub top_author: String,
    pub top_author_percent: u64,
    pub author_count: usize,
    pub additions: usize,
    pub deletions: usize,
}

/// The result of one file: its seven signal scores, the hotspot score
/// that combines them, its tier and its raw counts.
#[derive(Debug, Clone)]
pub struct HotspotResult {
    pub file: String,
    pub hotspot_score: u64,
    pub churn_score: u64,
    pub bug_fix_score: u64,
    pub revert_score: u64,
    pub burst_score: u64,
    pub coupling_score: u64,
    pub silo_score: u64,
    pub commit_quality_score: u64,
    pub tier: Tier,
    pub details: HotspotDetails,
}

/// The weight 1, in the units of `Weights`.
pub const WEIGHT_UNIT: u64 = 1_000_000;

/// Relative weight of each signal, in millionths. Only the ratios
/// matter: the aggregator divides by their sum.
#[derive(Debug, Clone, Copy, PartialEq, Eq, Structural)]
pub struct Weights {
    pub churn: u64,
    pub bugs: u64,
    pub reverts: u64,
    pub bursts: u64,
    pub coupling: u64,
    pub silo: u64,
    pub commit_quality: u64,
}

impl Weights {
    /// The sum of the seven weights.
    pub open spec fn total(&self) -> int {
        self.churn + self.bugs + self.reverts + self.bursts + self.coupling + self.silo
            + self.commit_quality
    }

    /// The sum of the seven weights.
    pub fn sum(&self) -> (r: u128)
        ensures
            r == self.total(),
    {
        let a: u128 = self.churn as u128 + self.bugs as u128 + self.reverts as u128;
        let b: u128 = self.bursts as u128 + self.coupling as u128 + self.silo as u128;
        a + b + self.commit_quality as u128
    }
}

impl Default for Weights {
    /// Churn 0.27, bugs 0.27, reverts 0.14, bursts 0.09, coupling 0.09,
    /// silo 0.05 and commit quality 0.09.
    fn default() -> (r: Self)
        ensures
            r == (Weights {
                churn: 270_000,
                bugs: 270_000,
                reverts: 140_000,
                bursts: 90_000,
                coupling: 90_000,
                silo: 50_000,
                commit_quality: 90_000,
            }),
            r.total() == WEIGHT_UNIT,
    {
        Weights {
            churn: 270_000,
            bugs: 270_000,
            reverts: 140_000,
            bursts: 90_000,
            coupling: 90_000,
            silo: 50_000,
            commit_quality: 90_000,
        }
    }
}

/// What a report says of the scan itself.
#[derive(Debug, Clone)]
pub struct ReportMeta {
    pub since: String,
    pub commit_count: usize,
    pub file_count: usize,
    pub analyzed_at: String,
    pub repo_path: String,
}

/// The outcome of a scan.
#[derive(Debug, Clone)]
pub struct Report {
    pub meta: ReportMeta,
    pub results: Vec<HotspotResult>,
    pub couplings: Vec<CouplingEntry>,
    pub security_risks: Vec<SecurityRisk>,
}

} // verus!
