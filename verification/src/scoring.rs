//! The aggregator: one weighted score and one risk tier per candidate.

use vstd::prelude::*;
use crate::analyzers::coupling::{best_strength, strongest_coupling};
use crate::file_map::FileMap;
use crate::types::{
    names, BugData, BurstData, ChurnData, CommitQualityData, CouplingEntry, DiffStats,
    HotspotDetails, HotspotResult, RevertData, SiloData, Tier, Weights, SCORE_MAX,
};

verus! {

/// From this score on a file is critical (75 points).
pub const TIER_CRITICAL: u64 = 75_000_000;

/// From this score on a file is at high risk (50 points).
pub const TIER_HIGH: u64 = 50_000_000;

/// From this score on a file is at medium risk (25 points).
pub const TIER_MEDIUM: u64 = 25_000_000;

/// The seven signal scores of one file.
#[derive(Debug, Clone, Copy, PartialEq, Eq, Structural)]
pub struct SignalScores {
    pub churn: u64,
    pub bugs: u64,
    pub reverts: u64,
    pub bursts: u64,
    pub coupling: u64,
    pub silo: u64,
    pub commit_quality: u64,
}

/// `x`, and the highest score where `x` lies above it.
pub open spec fn clamped(x: u64) -> u64 {
    if x > SCORE_MAX {
        SCORE_MAX
    } else {
        x
    }
}

/// The sum of the scores, each times its weight.
pub open spec fn weighted_sum(s: SignalScores, w: Weights) -> int {
    s.churn * w.churn + s.bugs * w.bugs + s.reverts * w.reverts + s.bursts * w.bursts + s.coupling
        * w.coupling + s.silo * w.silo + s.commit_quality * w.commit_quality
}

/// The hotspot score: the weighted mean of the scores, rounded down.
pub open spec fn blend(s: SignalScores, w: Weights) -> int {
    weighted_sum(s, w) / w.total()
}

/// The tier of a score.
pub open spec fn tier_of(score: int) -> Tier {
    if score >= TIER_CRITICAL {
        Tier::Critical
    } else if score >= TIER_HIGH {
        Tier::High
    } else if score >= TIER_MEDIUM {
        Tier::Medium
    } else {
        Tier::Low
    }
}

/// The scores of the file `name` as the analyzers' maps give them: a score
/// above the scale counts as the highest, a missing record as 0. The
/// silo score is the share of the top author.
pub open spec fn signals_of(
    name: Seq<char>,
    churn: FileMap<ChurnData>,
    bugs: FileMap<BugData>,
    reverts: FileMap<RevertData>,
    bursts: FileMap<BurstData>,
    couplings: Seq<CouplingEntry>,
    silo: FileMap<SiloData>,
    quality: FileMap<CommitQualityData>,
) -> SignalScores {
    SignalScores {
        churn: match churn.lookup(name) {
            Some(d) => clamped(d.weighted_score),
            None => 0,
        },
        bugs: match bugs.lookup(name) {
            Some(d) => clamped(d.bug_score),
            None => 0,
        },
        reverts: match reverts.lookup(name) {
            Some(d) => clamped(d.revert_score),
            None => 0,
        },
        bursts: match bursts.lookup(name) {
            Some(d) => clamped(d.burst_score),
            None => 0,
        },
        coupling: clamped(best_strength(couplings, name, couplings.len() as int)),
        silo: match silo.lookup(name) {
            Some(d) => clamped(d.top_author_percent),
            None => 0,
        },
        commit_quality: match quality.lookup(name) {
            Some(d) => clamped(d.commit_quality_score),
            None => 0,
        },
    }
}

/// The raw counts of the file `name` as the maps give them, with the
/// neutral value where a record is missing.
pub open spec fn details_match(
    d: HotspotDetails,
    name: Seq<char>,
    churn: FileMap<ChurnData>,
    bugs: FileMap<BugData>,
    reverts: FileMap<RevertData>,
    bursts: FileMap<BurstData>,
    silo: FileMap<SiloData>,
    quality: FileMap<CommitQualityData>,
    diff: FileMap<DiffStats>,
) -> bool {
    &&& d.commit_count == match churn.lookup(name) {
        Some(x) => x.commit_count,
        None => 0,
    }
    &&& d.bug_commits == match bugs.lookup(name) {
        Some(x) => x.bug_commits,
        None => 0,
    }
    &&& d.revert_count == match reverts.lookup(name) {
        Some(x) => x.revert_count,
        None => 0,
    }
    &&& d.burst_incidents == match bursts.lookup(name) {
        Some(x) => x.burst_incidents,
        None => 0,
    }
    &&& d.wip_commits == match quality.lookup(name) {
        Some(x) => x.wip_commits,
        None => 0,
    }
    &&& d.large_commit_count == match quality.lookup(name) {
        Some(x) => x.large_commit_count,
        None => 0,
    }
    &&& d.top_author@ == match silo.lookup(name) {
        Some(x) => x.top_author@,
        None => "unknown"@,
    }
    &&& d.top_author_percent == match silo.lookup(name) {
        Some(x) => x.top_author_percent,
        None => 0,
    }
    &&& d.author_count == match silo.lookup(name) {
        Some(x) => x.author_count,
        None => 1,
    }
    &&& d.additions == match diff.lookup(name) {
        Some(x) => x.additions,
        None => 0,
    }
    &&& d.deletions == match diff.lookup(name) {
        Some(x) => x.deletions,
        None => 0,
    }
}

/// `r` carries the scores `s` and what follows from them under `w`.
pub open spec fn carries(r: HotspotResult, s: SignalScores, w: Weights) -> bool {
    &&& r.churn_score == s.churn
    &&& r.bug_fix_score == s.bugs
    &&& r.revert_score == s.reverts
    &&& r.burst_score == s.bursts
    &&& r.coupling_score == s.coupling
    &&& r.silo_score == s.silo
    &&& r.commit_quality_score == s.commit_quality
    &&& r.hotspot_score == blend(s, w)
    &&& r.tier == tier_of(r.hotspot_score as int)
}

/// Every score of `s` lies on the scale.
pub open spec fn on_scale(s: SignalScores) -> bool {
    &&& s.churn <= SCORE_MAX
    &&& s.bugs <= SCORE_MAX
    &&& s.reverts <= SCORE_MAX
    &&& s.bursts <= SCORE_MAX
    &&& s.coupling <= SCORE_MAX
    &&& s.silo <= SCORE_MAX
    &&& s.commit_quality <= SCORE_MAX
}

/// The same score for every signal.
pub open spec fn uniform(x: u64) -> SignalScores {
    SignalScores {
        churn: x,
        bugs: x,
        reverts: x,
        bursts: x,
        coupling: x,
        silo: x,
        commit_quality: x,
    }
}

/// The hotspot score of scores on the scale lies on the scale.
pub proof fn lemma_blend_range(s: SignalScores, w: Weights)
    requires
        on_scale(s),
        w.total() > 0,
    ensures
        0 <= weighted_sum(s, w) <= SCORE_MAX * w.total(),
        0 <= blend(s, w) <= SCORE_MAX,
{
    let m = SCORE_MAX as int;
    assert(0 <= s.churn * w.churn <= m * w.churn) by (nonlinear_arith)
        requires
            0 <= s.churn <= m,
            0 <= w.churn,
    ;
    assert(0 <= s.bugs * w.bugs <= m * w.bugs) by (nonlinear_arith)
        requires
            0 <= s.bugs <= m,
            0 <= w.bugs,
    ;
    assert(0 <= s.reverts * w.reverts <= m * w.reverts) by (nonlinear_arith)
        requires
            0 <= s.reverts <= m,
            0 <= w.reverts,
    ;
    assert(0 <= s.bursts * w.bursts <= m * w.bursts) by (nonlinear_arith)
        requires
            0 <= s.bursts <= m,
            0 <= w.bursts,
    ;
    assert(0 <= s.coupling * w.coupling <= m * w.coupling) by (nonlinear_arith)
        requires
            0 <= s.coupling <= m,
            0 <= w.coupling,
    ;
    assert(0 <= s.silo * w.silo <= m * w.silo) by (nonlinear_arith)
        requires
            0 <= s.silo <= m,
            0 <= w.silo,
    ;
    assert(0 <= s.commit_quality * w.commit_quality <= m * w.commit_quality) by (nonlinear_arith)
        requires
            0 <= s.commit_quality <= m,
            0 <= w.commit_quality,
    ;
    let sum = weighted_sum(s, w);
    let t = w.total();
    assert(m * t == m * w.churn + m * w.bugs + m * w.reverts + m * w.bursts + m * w.coupling + m
        * w.silo + m * w.commit_quality) by (nonlinear_arith)
        requires
            t == w.churn + w.bugs + w.reverts + w.bursts + w.coupling + w.silo + w.commit_quality,
    ;
    assert(0 <= sum / t <= m) by (nonlinear_arith)
        requires
            0 <= sum <= m * t,
            t > 0,
    ;
}

/// With every signal at 0 the hotspot score is 0 and the tier is low.
pub proof fn lemma_all_zero_is_low(w: Weights)
    requires
        w.total() > 0,
    ensures
        blend(uniform(0), w) == 0,
        tier_of(blend(uniform(0), w)) == Tier::Low,
{
    assert(weighted_sum(uniform(0), w) == 0) by (nonlinear_arith);
    assert(0int / w.total() == 0) by (nonlinear_arith)
        requires
            w.total() > 0,
    ;
}

/// With every signal at the highest score the hotspot score is the highest
/// score, which lies above the critical threshold.
pub proof fn lemma_all_full_is_critical(w: Weights)
    requires
        w.total() > 0,
    ensures
        blend(uniform(SCORE_MAX), w) == SCORE_MAX,
        blend(uniform(SCORE_MAX), w) > TIER_CRITICAL,
        tier_of(blend(uniform(SCORE_MAX), w)) == Tier::Critical,
{
    let m = SCORE_MAX as int;
    let t = w.total();
    assert(weighted_sum(uniform(SCORE_MAX), w) == m * t) by (nonlinear_arith)
        requires
            weighted_sum(uniform(SCORE_MAX), w) == m * w.churn + m * w.bugs + m * w.reverts + m
                * w.bursts + m * w.coupling + m * w.silo + m * w.commit_quality,
            t == w.churn + w.bugs + w.reverts + w.bursts + w.coupling + w.silo + w.commit_quality,
    ;
    assert((m * t) / t == m) by (nonlinear_arith)
        requires
            t > 0,
    ;
}

/// With churn alone at the highest score, the hotspot score is the
/// highest score times the share of the churn weight in the sum of the
/// weights.
pub proof fn lemma_churn_alone(w: Weights)
    requires
        w.total() > 0,
    ensures
        blend(
            SignalScores {
                churn: SCORE_MAX,
                bugs: 0,
                reverts: 0,
                bursts: 0,
                coupling: 0,
                silo: 0,
                commit_quality: 0,
            },
            w,
        ) == SCORE_MAX * w.churn / w.total(),
{
    let s = SignalScores {
        churn: SCORE_MAX,
        bugs: 0,
        reverts: 0,
        bursts: 0,
        coupling: 0,
        silo: 0,
        commit_quality: 0,
    };
    assert(weighted_sum(s, w) == SCORE_MAX * w.churn) by (nonlinear_arith)
        requires
            weighted_sum(s, w) == SCORE_MAX * w.churn + 0 * w.bugs + 0 * w.reverts + 0 * w.bursts + 0
                * w.coupling + 0 * w.silo + 0 * w.commit_quality,
    ;
}

/// Only the ratios of the weights matter: with every weight multiplied
/// by the same factor the hotspot score stays as it is.
pub proof fn lemma_blend_ignores_scale(s: SignalScores, w: Weights, v: Weights, k: int)
    requires
        k > 0,
        w.total() > 0,
        v.churn == k * w.churn,
        v.bugs == k * w.bugs,
        v.reverts == k * w.reverts,
        v.bursts == k * w.bursts,
        v.coupling == k * w.coupling,
        v.silo == k * w.silo,
        v.commit_quality == k * w.commit_quality,
    ensures
        blend(s, v) == blend(s, w),
{
    let a = weighted_sum(s, w);
    let b = w.total();
    let t1 = s.churn * w.churn;
    let t2 = s.bugs * w.bugs;
    let t3 = s.reverts * w.reverts;
    let t4 = s.bursts * w.bursts;
    let t5 = s.coupling * w.coupling;
    let t6 = s.silo * w.silo;
    let t7 = s.commit_quality * w.commit_quality;
    assert(s.churn * (k * w.churn) == k * t1) by (nonlinear_arith)
        requires
            t1 == s.churn * w.churn,
    ;
    assert(s.bugs * (k * w.bugs) == k * t2) by (nonlinear_arith)
        requires
            t2 == s.bugs * w.bugs,
    ;
    assert(s.reverts * (k * w.reverts) == k * t3) by (nonlinear_arith)
        requires
            t3 == s.reverts * w.reverts,
    ;
    assert(s.bursts * (k * w.bursts) == k * t4) by (nonlinear_arith)
        requires
            t4 == s.bursts * w.bursts,
    ;
    assert(s.coupling * (k * w.coupling) == k * t5) by (nonlinear_arith)
        requires
            t5 == s.coupling * w.coupling,
    ;
    assert(s.silo * (k * w.silo) == k * t6) by (nonlinear_arith)
        requires
            t6 == s.silo * w.silo,
    ;
    assert(s.commit_quality * (k * w.commit_quality) == k * t7) by (nonlinear_arith)
        requires
            t7 == s.commit_quality * w.commit_quality,
    ;
    assert(k * t1 + k * t2 + k * t3 + k * t4 + k * t5 + k * t6 + k * t7 == k * (t1 + t2 + t3 + t4
        + t5 + t6 + t7)) by (nonlinear_arith);
    assert(weighted_sum(s, v) == k * a);
    assert(k * w.churn + k * w.bugs + k * w.reverts + k * w.bursts + k * w.coupling + k * w.silo + k
        * w.commit_quality == k * b) by (nonlinear_arith)
        requires
            b == w.churn + w.bugs + w.reverts + w.bursts + w.coupling + w.silo + w.commit_quality,
    ;
    assert(a >= 0) by (nonlinear_arith)
        requires
            a == t1 + t2 + t3 + t4 + t5 + t6 + t7,
            t1 == s.churn * w.churn,
            t2 == s.bugs * w.bugs,
            t3 == s.reverts * w.reverts,
            t4 == s.bursts * w.bursts,
            t5 == s.coupling * w.coupling,
            t6 == s.silo * w.silo,
            t7 == s.commit_quality * w.commit_quality,
            s.churn >= 0,
            s.bugs >= 0,
            s.reverts >= 0,
            s.bursts >= 0,
            s.coupling >= 0,
            s.silo >= 0,
            s.commit_quality >= 0,
            w.churn >= 0,
            w.bugs >= 0,
            w.reverts >= 0,
            w.bursts >= 0,
            w.coupling >= 0,
            w.silo >= 0,
            w.commit_quality >= 0,
    ;
    vstd::arithmetic::div_mod::lemma_div_multiples_vanish_quotient(k, a, b);
}

/// The tier of a score: critical from 75 points, high from 50, medium
/// from 25, low below.
pub fn get_tier(score: u64) -> (r: Tier)
    ensures
        r == tier_of(score as int),
{
    if score >= TIER_CRITICAL {
        Tier::Critical
    } else if score >= TIER_HIGH {
        Tier::High
    } else if score >= TIER_MEDIUM {
        Tier::Medium
    } else {
        Tier::Low
    }
}

/// `x`, and the highest score where `x` lies above it.
pub fn clamp_score(x: u64) -> (r: u64)
    ensures
        r == clamped(x),
        r <= SCORE_MAX,
{
    if x > SCORE_MAX {
        SCORE_MAX
    } else {
        x
    }
}

/// The hotspot score of the scores `s` under the weights `w`.
pub fn combine(s: &SignalScores, w: &Weights) -> (r: u64)
    requires
        on_scale(*s),
        w.total() > 0,
    ensures
        r == blend(*s, *w),
        r <= SCORE_MAX,
{
    proof {
        lemma_blend_range(*s, *w);
        let m = SCORE_MAX as int;
        assert(0 <= s.churn * w.churn <= m * 0xffff_ffff_ffff_ffff) by (nonlinear_arith)
            requires
                0 <= s.churn <= m,
                0 <= w.churn <= 0xffff_ffff_ffff_ffff,
        ;
        assert(0 <= s.bugs * w.bugs <= m * 0xffff_ffff_ffff_ffff) by (nonlinear_arith)
            requires
                0 <= s.bugs <= m,
                0 <= w.bugs <= 0xffff_ffff_ffff_ffff,
        ;
        assert(0 <= s.reverts * w.reverts <= m * 0xffff_ffff_ffff_ffff) by (nonlinear_arith)
            requires
                0 <= s.reverts <= m,
                0 <= w.reverts <= 0xffff_ffff_ffff_ffff,
        ;
        assert(0 <= s.bursts * w.bursts <= m * 0xffff_ffff_ffff_ffff) by (nonlinear_arith)
            requires
                0 <= s.bursts <= m,
                0 <= w.bursts <= 0xffff_ffff_ffff_ffff,
        ;
        assert(0 <= s.coupling * w.coupling <= m * 0xffff_ffff_ffff_ffff) by (nonlinear_arith)
            requires
                0 <= s.coupling <= m,
                0 <= w.coupling <= 0xffff_ffff_ffff_ffff,
        ;
        assert(0 <= s.silo * w.silo <= m * 0xffff_ffff_ffff_ffff) by (nonlinear_arith)
            requires
                0 <= s.silo <= m,
                0 <= w.silo <= 0xffff_ffff_ffff_ffff,
        ;
        assert(0 <= s.commit_quality * w.commit_quality <= m * 0xffff_ffff_ffff_ffff) by (nonlinear_arith)
            requires
                0 <= s.commit_quality <= m,
                0 <= w.commit_quality <= 0xffff_ffff_ffff_ffff,
        ;
    }
    let a: u128 = (s.churn as u128) * (w.churn as u128);
    let b: u128 = (s.bugs as u128) * (w.bugs as u128);
    let c: u128 = (s.reverts as u128) * (w.reverts as u128);
    let d: u128 = (s.bursts as u128) * (w.bursts as u128);
    let e: u128 = (s.coupling as u128) * (w.coupling as u128);
    let f: u128 = (s.silo as u128) * (w.silo as u128);
    let g: u128 = (s.commit_quality as u128) * (w.commit_quality as u128);
    let sum: u128 = a + b + c + d + e + f + g;
    let total: u128 = w.sum();
    (sum / total) as u64
}

/// `r` holds the result of each candidate, in the order of the
/// candidates.
pub open spec fn is_scoring(
    r: Seq<HotspotResult>,
    files: Seq<String>,
    churn: FileMap<ChurnData>,
    bugs: FileMap<BugData>,
    reverts: FileMap<RevertData>,
    bursts: FileMap<BurstData>,
    couplings: Seq<CouplingEntry>,
    silo: FileMap<SiloData>,
    quality: FileMap<CommitQualityData>,
    diff: FileMap<DiffStats>,
    w: Weights,
) -> bool {
    &&& r.len() == files.len()
    &&& forall|i: int| 0 <= i < r.len() ==> (#[trigger] r[i]).file@ == files[i]@
    &&& forall|i: int|
        0 <= i < r.len() ==> carries(
            #[trigger] r[i],
            signals_of(files[i]@, churn, bugs, reverts, bursts, couplings, silo, quality),
            w,
        )
    &&& forall|i: int|
        0 <= i < r.len() ==> details_match(
            (#[trigger] r[i]).details,
            files[i]@,
            churn,
            bugs,
            reverts,
            bursts,
            silo,
            quality,
            diff,
        )
}

/// Combines the analyzers' outputs into one result per candidate, in the
/// order of the candidates. The hotspot score is the weighted mean of the
/// seven signal scores; the weights are divided by their sum.
pub fn score_hotspots(
    files: &[String],
    churn_data: &FileMap<ChurnData>,
    bug_data: &FileMap<BugData>,
    revert_data: &FileMap<RevertData>,
    burst_data: &FileMap<BurstData>,
    coupling_data: &[CouplingEntry],
    silo_data: &FileMap<SiloData>,
    commit_quality_data: &FileMap<CommitQualityData>,
    diff_stats: &FileMap<DiffStats>,
    weights: &Weights,
) -> (r: Vec<HotspotResult>)
    requires
        churn_data.wf(),
        bug_data.wf(),
        revert_data.wf(),
        burst_data.wf(),
        silo_data.wf(),
        commit_quality_data.wf(),
        diff_stats.wf(),
        weights.total() > 0,
    ensures
        is_scoring(
            r@,
            files@,
            *churn_data,
            *bug_data,
            *revert_data,
            *burst_data,
            coupling_data@,
            *silo_data,
            *commit_quality_data,
            *diff_stats,
            *weights,
        ),
        forall|i: int| 0 <= i < r.len() ==> (#[trigger] r[i]).hotspot_score <= SCORE_MAX,
{
    let mut out: Vec<HotspotResult> = Vec::new();
    let mut i: usize = 0;
    while i < files.len()
        invariant
            i <= files.len(),
            out.len() == i,
            churn_data.wf(),
            bug_data.wf(),
            revert_data.wf(),
            burst_data.wf(),
            silo_data.wf(),
            commit_quality_data.wf(),
            diff_stats.wf(),
            weights.total() > 0,
            forall|k: int| 0 <= k < i ==> (#[trigger] out[k]).file@ == files[k]@,
            forall|k: int|
                0 <= k < i ==> carries(
                    #[trigger] out[k],
                    signals_of(
                        files[k]@,
                        *churn_data,
                        *bug_data,
                        *revert_data,
                        *burst_data,
                        coupling_data@,
                        *silo_data,
                        *commit_quality_data,
                    ),
                    *weights,
                ),
            forall|k: int|
                0 <= k < i ==> details_match(
                    (#[trigger] out[k]).details,
                    files[k]@,
                    *churn_data,
                    *bug_data,
                    *revert_data,
                    *burst_data,
                    *silo_data,
                    *commit_quality_data,
                    *diff_stats,
                ),
            forall|k: int| 0 <= k < i ==> (#[trigger] out[k]).hotspot_score <= SCORE_MAX,
        decreases files.len() - i,
    {
        let name = files[i].as_str();
        let churn = churn_data.get(name);
        let bugs = bug_data.get(name);
        let reverts = revert_data.get(name);
        let bursts = burst_data.get(name);
        let silo = silo_data.get(name);
        let quality = commit_quality_data.get(name);
        let diff = diff_stats.get(name);
        let scores = SignalScores {
            churn: match churn {
                Some(d) => clamp_score(d.weighted_score),
                None => 0,
            },
            bugs: match bugs {
                Some(d) => clamp_score(d.bug_score),
                None => 0,
            },
            reverts: match reverts {
                Some(d) => clamp_score(d.revert_score),
                None => 0,
            },
            bursts: match bursts {
                Some(d) => clamp_score(d.burst_score),
                None => 0,
            },
            coupling: clamp_score(strongest_coupling(coupling_data, &files[i])),
            silo: match silo {
                Some(d) => clamp_score(d.top_author_percent),
                None => 0,
            },
            commit_quality: match quality {
                Some(d) => clamp_score(d.commit_quality_score),
                None => 0,
            },
        };
        let hotspot_score = combine(&scores, weights);
        let details = HotspotDetails {
            commit_count: match churn {
                Some(d) => d.commit_count,
                None => 0,
            },
            bug_commits: match bugs {
                Some(d) => d.bug_commits,
                None => 0,
            },
            revert_count: match reverts {
                Some(d) => d.revert_count,
                None => 0,
            },
            burst_incidents: match bursts {
                Some(d) => d.burst_incidents,
                None => 0,
            },
            wip_commits: match quality {
                Some(d) => d.wip_commits,
                None => 0,
            },
            large_commit_count: match quality {
                Some(d) => d.large_commit_count,
                None => 0,
            },
            top_author: match silo {
                Some(d) => d.top_author.clone(),
                None => "unknown".to_owned(),
            },
            top_author_percent: match silo {
                Some(d) => d.top_author_percent,
                None => 0,
            },
            author_count: match silo {
                Some(d) => d.author_count,
                None => 1,
            },
            additions: match diff {
                Some(d) => d.additions,
                None => 0,
            },
            deletions: match diff {
                Some(d) => d.deletions,
                None => 0,
            },
        };
        out.push(
            HotspotResult {
                file: files[i].clone(),
                hotspot_score,
                churn_score: scores.churn,
                bug_fix_score: scores.bugs,
                revert_score: scores.reverts,
                burst_score: scores.bursts,
                coupling_score: scores.coupling,
                silo_score: scores.silo,
                commit_quality_score: scores.commit_quality,
                tier: get_tier(hotspot_score),
                details,
            },
        );
        i += 1;
    }
    out
}

} // verus!
