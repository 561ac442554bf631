//! The security scan: sensitive files that the history has ever held.
//!
//! The scan reads the unfiltered history, since a deleted secret can
//! still be read from it.

use chrono::TimeZone;
use std::fmt::Write;
use vstd::prelude::*;
use crate::file_map::find_name;
use crate::order::{arranged, sort_descending, sorts_descending};
use crate::patterns::{regex_compiles, regex_is_match, Pattern, PatternError};
use crate::tally::touches;
use crate::types::{names, Commit, SecurityRisk};

verus! {

/// Environment files: `.env` and `.env.*` anywhere in the path.
pub const ENV_PATTERN: &'static str = r"(?i)(?:^|/)\.(env)(\.|$)";

/// Key and certificate files, by extension.
pub const KEY_PATTERN: &'static str = r"(?i)\.(pem|key|p12|pfx|cer|crt|jks|ppk|keystore)$";

/// File names that speak of credentials.
pub const CRED_PATTERN: &'static str =
    r"(?i)(?:^|/)(?:credential|secret|password|passwd|private[_-]?key|api[_-]?key|auth[_-]?token)[^/]*$";

/// The class of a sensitive file.
#[derive(Debug, Clone, Copy, PartialEq, Eq, Structural)]
pub enum RiskType {
    EnvFile,
    KeyOrCert,
    CredentialFile,
}

impl RiskType {
    /// The name of the class in reports.
    pub open spec fn name(self) -> Seq<char> {
        match self {
            RiskType::EnvFile => "env-file"@,
            RiskType::KeyOrCert => "key-or-cert"@,
            RiskType::CredentialFile => "credential-file"@,
        }
    }

    /// The name of the class in reports.
    pub fn label(&self) -> (r: &'static str)
        ensures
            r@ == self.name(),
    {
        match self {
            RiskType::EnvFile => "env-file",
            RiskType::KeyOrCert => "key-or-cert",
            RiskType::CredentialFile => "credential-file",
        }
    }
}

/// The class that follows from the three pattern matches: the first
/// pattern that matches decides.
pub open spec fn class_of(env: bool, key: bool, cred: bool) -> Option<RiskType> {
    if env {
        Some(RiskType::EnvFile)
    } else if key {
        Some(RiskType::KeyOrCert)
    } else if cred {
        Some(RiskType::CredentialFile)
    } else {
        None
    }
}

/// The class of the path `file`, if it is sensitive.
pub open spec fn risk_of(file: Seq<char>) -> Option<RiskType> {
    class_of(
        regex_is_match(ENV_PATTERN@, file),
        regex_is_match(KEY_PATTERN@, file),
        regex_is_match(CRED_PATTERN@, file),
    )
}

/// Whether the three patterns compile.
pub open spec fn patterns_compile() -> bool {
    regex_compiles(ENV_PATTERN@) && regex_compiles(KEY_PATTERN@) && regex_compiles(CRED_PATTERN@)
}

/// The class that follows from the three pattern matches.
pub fn classify(env: bool, key: bool, cred: bool) -> (r: Option<RiskType>)
    ensures
        r == class_of(env, key, cred),
{
    if env {
        Some(RiskType::EnvFile)
    } else if key {
        Some(RiskType::KeyOrCert)
    } else if cred {
        Some(RiskType::CredentialFile)
    } else {
        None
    }
}

/// The three compiled patterns of the scan.
pub struct RiskPatterns {
    env: Pattern,
    key: Pattern,
    cred: Pattern,
}

impl RiskPatterns {
    /// The patterns are those of the scan.
    pub closed spec fn wf(&self) -> bool {
        &&& self.env@ == ENV_PATTERN@
        &&& self.key@ == KEY_PATTERN@
        &&& self.cred@ == CRED_PATTERN@
    }

    /// Compiles the three patterns.
    pub fn new() -> (r: Result<RiskPatterns, PatternError>)
        ensures
            r is Ok <==> patterns_compile(),
            r matches Ok(p) ==> p.wf(),
    {
        let env = match Pattern::new(ENV_PATTERN) {
            Ok(p) => p,
            Err(e) => {
                return Err(e);
            },
        };
        let key = match Pattern::new(KEY_PATTERN) {
            Ok(p) => p,
            Err(e) => {
                return Err(e);
            },
        };
        let cred = match Pattern::new(CRED_PATTERN) {
            Ok(p) => p,
            Err(e) => {
                return Err(e);
            },
        };
        Ok(RiskPatterns { env, key, cred })
    }

    /// The class of the path `file`, if it is sensitive.
    pub fn risk_type(&self, file: &str) -> (r: Option<RiskType>)
        requires
            self.wf(),
        ensures
            r == risk_of(file@),
    {
        let env = self.env.matches(file);
        let key = self.key.matches(file);
        let cred = self.cred.matches(file);
        classify(env, key, cred)
    }
}

/// The name of the class of the path `file`, if it is sensitive.
pub fn get_risk_type(patterns: &RiskPatterns, file: &str) -> (r: Option<&'static str>)
    requires
        patterns.wf(),
    ensures
        match r {
            Some(label) => risk_of(file@) matches Some(k) && label@ == k.name(),
            None => risk_of(file@) is None,
        },
{
    match patterns.risk_type(file) {
        Some(k) => Some(k.label()),
        None => None,
    }
}

/// The format of the dates of a record: year, month and day with
/// hyphens between them.
pub const DATE_FORMAT: &'static str = "%Y-%m-%d";

/// The moment `timestamp`, in seconds since 1970, in UTC, written as
/// `chrono` writes it in the format `format`; `None` where the
/// timestamp lies outside the range of dates that `chrono` has, or
/// where `chrono` cannot write the format.
pub uninterp spec fn utc_text(timestamp: i64, format: Seq<char>) -> Option<Seq<char>>;

/// `chrono::Utc.timestamp_opt(..).single()` and `DateTime::format`,
/// written into a string: the moment in the format, which is the text
/// that `utc_text` names.
#[verifier::external_body]
fn format_utc(timestamp: i64, format: &str) -> (r: Option<String>)
    ensures
        match r {
            Some(s) => utc_text(timestamp, format@) == Some(s@),
            None => utc_text(timestamp, format@) is None,
        },
{
    let moment = chrono::Utc.timestamp_opt(timestamp, 0).single()?;
    let mut text = String::new();
    write!(text, "{}", moment.format(format)).ok()?;
    Some(text)
}

/// The date shown for a timestamp: `unknown` where there is none.
pub open spec fn seen_text(time: Option<i64>) -> Seq<char> {
    match time {
        Some(t) => match utc_text(t, DATE_FORMAT@) {
            Some(s) => s,
            None => "unknown"@,
        },
        None => "unknown"@,
    }
}

/// The date shown for a timestamp.
pub fn fmt_date(time: Option<i64>) -> (r: String)
    ensures
        r@ == seen_text(time),
{
    match time {
        Some(t) => match format_utc(t, DATE_FORMAT) {
            Some(s) => s,
            None => "unknown".to_owned(),
        },
        None => "unknown".to_owned(),
    }
}

/// `found`, grown by the sensitive paths among the first `upto` of
/// `paths` that it does not hold yet.
pub open spec fn grown(found: Seq<Seq<char>>, paths: Seq<Seq<char>>, upto: int) -> Seq<Seq<char>>
    decreases upto,
{
    if upto <= 0 {
        found
    } else {
        let rest = grown(found, paths, upto - 1);
        if risk_of(paths[upto - 1]) is Some && !rest.contains(paths[upto - 1]) {
            rest.push(paths[upto - 1])
        } else {
            rest
        }
    }
}

/// The sensitive paths of the first `upto` commits, each once, in the
/// order in which the history first lists them.
pub open spec fn sensitive_upto(commits: Seq<Commit>, upto: int) -> Seq<Seq<char>>
    decreases upto,
{
    if upto <= 0 {
        Seq::empty()
    } else {
        grown(
            sensitive_upto(commits, upto - 1),
            commits[upto - 1].paths(),
            commits[upto - 1].paths().len() as int,
        )
    }
}

/// The sensitive paths of the history.
pub open spec fn sensitive_files(commits: Seq<Commit>) -> Seq<Seq<char>> {
    sensitive_upto(commits, commits.len() as int)
}

/// The earliest timestamp among those of the first `upto` commits that
/// touch `name`.
pub open spec fn earliest(commits: Seq<Commit>, name: Seq<char>, upto: int) -> Option<i64>
    decreases upto,
{
    if upto <= 0 {
        None
    } else {
        let rest = earliest(commits, name, upto - 1);
        let t = commits[upto - 1].timestamp;
        if commits[upto - 1].touches(name) && (rest is None || t < rest->0) {
            Some(t)
        } else {
            rest
        }
    }
}

/// The latest timestamp among those of the first `upto` commits that
/// touch `name`.
pub open spec fn latest(commits: Seq<Commit>, name: Seq<char>, upto: int) -> Option<i64>
    decreases upto,
{
    if upto <= 0 {
        None
    } else {
        let rest = latest(commits, name, upto - 1);
        let t = commits[upto - 1].timestamp;
        if commits[upto - 1].touches(name) && (rest is None || t > rest->0) {
            Some(t)
        } else {
            rest
        }
    }
}

/// How many of the first `upto` positions of `paths` hold `name`.
pub open spec fn listed_upto(paths: Seq<Seq<char>>, name: Seq<char>, upto: int) -> nat
    decreases upto,
{
    if upto <= 0 {
        0
    } else {
        listed_upto(paths, name, upto - 1) + if paths[upto - 1] == name {
            1nat
        } else {
            0nat
        }
    }
}

/// How often the first `upto` commits list `name`: a commit that lists
/// it twice counts twice.
pub open spec fn listings_upto(commits: Seq<Commit>, name: Seq<char>, upto: int) -> nat
    decreases upto,
{
    if upto <= 0 {
        0
    } else {
        listings_upto(commits, name, upto - 1) + listed_upto(
            commits[upto - 1].paths(),
            name,
            commits[upto - 1].paths().len() as int,
        )
    }
}

/// How often the history lists `name`.
pub open spec fn listings(commits: Seq<Commit>, name: Seq<char>) -> nat {
    listings_upto(commits, name, commits.len() as int)
}

/// A number as a count: the largest count where it lies beyond it.
pub open spec fn as_count(n: nat) -> usize {
    if n > usize::MAX {
        usize::MAX
    } else {
        n as usize
    }
}

/// How often the history lists `name`.
pub fn count_listings(commits: &[Commit], name: &String) -> (r: usize)
    ensures
        r == as_count(listings(commits@, name@)),
{
    let mut total: usize = 0;
    let mut c: usize = 0;
    while c < commits.len()
        invariant
            c <= commits.len(),
            total == as_count(listings_upto(commits@, name@, c as int)),
        decreases commits.len() - c,
    {
        let commit = &commits[c];
        let mut here: usize = 0;
        let mut k: usize = 0;
        while k < commit.files.len()
            invariant
                k <= commit.files.len(),
                here == listed_upto(commit.paths(), name@, k as int),
                here <= k,
            decreases commit.files.len() - k,
        {
            assert(commit.paths()[k as int] == commit.files[k as int]@);
            if commit.files[k] == *name {
                here += 1;
            }
            k += 1;
        }
        assert(commit.paths().len() == commit.files.len());
        total = match total.checked_add(here) {
            Some(v) => v,
            None => usize::MAX,
        };
        c += 1;
    }
    total
}

/// `e` is the record of the sensitive path `name`.
pub open spec fn is_risk_of(e: SecurityRisk, commits: Seq<Commit>, name: Seq<char>) -> bool {
    &&& e.file@ == name
    &&& risk_of(name) matches Some(k) && e.risk_type@ == k.name()
    &&& e.commit_count == as_count(listings(commits, name))
    &&& e.first_seen@ == seen_text(earliest(commits, name, commits.len() as int))
    &&& e.last_seen@ == seen_text(latest(commits, name, commits.len() as int))
}

/// How often the history lists each sensitive path.
pub open spec fn risk_counts(commits: Seq<Commit>) -> Seq<u64> {
    Seq::new(
        sensitive_files(commits).len(),
        |i: int| as_count(listings(commits, sensitive_files(commits)[i])) as u64,
    )
}

/// The first commit that touches a path is no later than the last, and
/// a path that some commit touches has both.
pub proof fn lemma_first_before_last(commits: Seq<Commit>, name: Seq<char>, upto: int)
    ensures
        earliest(commits, name, upto) is Some <==> latest(commits, name, upto) is Some,
        earliest(commits, name, upto) is Some ==> earliest(commits, name, upto)->0 <= latest(
            commits,
            name,
            upto,
        )->0,
        forall|c: int|
            0 <= c < upto && (#[trigger] commits[c]).touches(name) ==> earliest(
                commits,
                name,
                upto,
            ) is Some,
    decreases upto,
{
    if upto > 0 {
        lemma_first_before_last(commits, name, upto - 1);
    }
}

proof fn lemma_grown_distinct(found: Seq<Seq<char>>, paths: Seq<Seq<char>>, upto: int)
    requires
        crate::file_map::distinct(found),
    ensures
        crate::file_map::distinct(grown(found, paths, upto)),
    decreases upto,
{
    if upto > 0 {
        lemma_grown_distinct(found, paths, upto - 1);
        let rest = grown(found, paths, upto - 1);
        let now = grown(found, paths, upto);
        if risk_of(paths[upto - 1]) is Some && !rest.contains(paths[upto - 1]) {
            assert forall|i: int, j: int| 0 <= i < j < now.len() implies now[i] != now[j] by {
                if j < rest.len() {
                    assert(rest[i] != rest[j]);
                } else {
                    assert(rest.contains(rest[i]));
                }
            }
        }
    }
}

/// No path has two records: the sensitive paths of a history hold no
/// path twice.
pub proof fn lemma_sensitive_distinct(commits: Seq<Commit>, upto: int)
    ensures
        crate::file_map::distinct(sensitive_upto(commits, upto)),
    decreases upto,
{
    if upto > 0 {
        lemma_sensitive_distinct(commits, upto - 1);
        lemma_grown_distinct(
            sensitive_upto(commits, upto - 1),
            commits[upto - 1].paths(),
            commits[upto - 1].paths().len() as int,
        );
    }
}

/// The earliest and the latest timestamp among the commits that touch
/// `name`.
pub fn time_span(commits: &[Commit], name: &String) -> (r: (Option<i64>, Option<i64>))
    ensures
        r.0 == earliest(commits@, name@, commits.len() as int),
        r.1 == latest(commits@, name@, commits.len() as int),
{
    let mut first: Option<i64> = None;
    let mut last: Option<i64> = None;
    let mut i: usize = 0;
    while i < commits.len()
        invariant
            i <= commits.len(),
            first == earliest(commits@, name@, i as int),
            last == latest(commits@, name@, i as int),
        decreases commits.len() - i,
    {
        if touches(&commits[i], name) {
            let t = commits[i].timestamp;
            let lower = match first {
                Some(f) => t < f,
                None => true,
            };
            if lower {
                first = Some(t);
            }
            let higher = match last {
                Some(l) => t > l,
                None => true,
            };
            if higher {
                last = Some(t);
            }
        }
        i += 1;
    }
    (first, last)
}

/// The sensitive paths of the history, each once, in the order in which
/// the history first lists them, and the class of each.
pub fn find_sensitive(patterns: &RiskPatterns, commits: &[Commit]) -> (r: (
    Vec<String>,
    Vec<RiskType>,
))
    requires
        patterns.wf(),
    ensures
        names(r.0@) == sensitive_files(commits@),
        r.1.len() == r.0.len(),
        forall|k: int| 0 <= k < r.0.len() ==> risk_of(r.0[k]@) == Some(#[trigger] r.1[k]),
{
    let mut found: Vec<String> = Vec::new();
    let mut kinds: Vec<RiskType> = Vec::new();
    let mut c: usize = 0;
    assert(names(found@) =~= sensitive_upto(commits@, 0));
    while c < commits.len()
        invariant
            patterns.wf(),
            c <= commits.len(),
            names(found@) == sensitive_upto(commits@, c as int),
            kinds.len() == found.len(),
            forall|k: int| 0 <= k < found.len() ==> risk_of(found[k]@) == Some(#[trigger] kinds[k]),
        decreases commits.len() - c,
    {
        let commit = &commits[c];
        let ghost base = names(found@);
        let mut k: usize = 0;
        while k < commit.files.len()
            invariant
                patterns.wf(),
                c < commits.len(),
                commit == &commits[c as int],
                k <= commit.files.len(),
                base == sensitive_upto(commits@, c as int),
                names(found@) == grown(base, commit.paths(), k as int),
                kinds.len() == found.len(),
                forall|j: int|
                    0 <= j < found.len() ==> risk_of(found[j]@) == Some(#[trigger] kinds[j]),
            decreases commit.files.len() - k,
        {
            let file = &commit.files[k];
            assert(commit.paths()[k as int] == file@);
            match patterns.risk_type(file.as_str()) {
                Some(kind) => {
                    if find_name(&found, file).is_none() {
                        let ghost before = names(found@);
                        found.push(file.clone());
                        kinds.push(kind);
                        assert(names(found@) =~= before.push(file@));
                    }
                },
                None => {},
            }
            k += 1;
        }
        assert(commit.paths().len() == commit.files.len());
        c += 1;
    }
    (found, kinds)
}

/// `v` holds the record of each sensitive path of the history, in
/// descending order of how often the history lists the path; records
/// with the same number come in the order in which the history first
/// lists their paths.
pub open spec fn is_security_report(v: Seq<SecurityRisk>, commits: Seq<Commit>) -> bool {
    &&& v.len() == sensitive_files(commits).len()
    &&& exists|perm: Seq<int>|
        sorts_descending(perm, risk_counts(commits)) && forall|k: int|
            0 <= k < v.len() ==> is_risk_of(#[trigger] v[k], commits, sensitive_files(commits)[perm[k]])
}

/// Lists every sensitive path that a commit of the unfiltered history
/// touches, with the number of times the history lists it and the dates
/// of the first and the last commit that does. The call fails only
/// where a pattern does not compile.
pub fn analyze_security(commits: &[Commit]) -> (r: Result<Vec<SecurityRisk>, PatternError>)
    ensures
        r is Ok <==> patterns_compile(),
        r matches Ok(v) ==> is_security_report(v@, commits@),
{
    let patterns = match RiskPatterns::new() {
        Ok(p) => p,
        Err(e) => {
            return Err(e);
        },
    };
    let (found, kinds) = find_sensitive(&patterns, commits);
    let ghost wanted = sensitive_files(commits@);
    let mut entries: Vec<SecurityRisk> = Vec::new();
    let mut keys: Vec<u64> = Vec::new();
    let mut i: usize = 0;
    while i < found.len()
        invariant
            i <= found.len(),
            names(found@) == wanted,
            wanted == sensitive_files(commits@),
            kinds.len() == found.len(),
            forall|k: int| 0 <= k < found.len() ==> risk_of(found[k]@) == Some(#[trigger] kinds[k]),
            entries.len() == i,
            keys.len() == i,
            forall|k: int| 0 <= k < i ==> is_risk_of(#[trigger] entries[k], commits@, wanted[k]),
            forall|k: int| 0 <= k < i ==> #[trigger] keys[k] == risk_counts(commits@)[k],
        decreases found.len() - i,
    {
        let name = &found[i];
        assert(wanted[i as int] == name@);
        let count = count_listings(commits, name);
        let (first, last) = time_span(commits, name);
        entries.push(
            SecurityRisk {
                file: name.clone(),
                risk_type: kinds[i].label().to_owned(),
                commit_count: count,
                first_seen: fmt_date(first),
                last_seen: fmt_date(last),
            },
        );
        keys.push(count as u64);
        i += 1;
    }
    assert(keys@ =~= risk_counts(commits@));
    let ghost unsorted = entries@;
    let sorted = sort_descending(entries, &keys);
    proof {
        let perm = choose|perm: Seq<int>|
            sorts_descending(perm, keys@) && arranged(sorted@, unsorted, perm);
        assert forall|k: int| 0 <= k < sorted.len() implies is_risk_of(
            #[trigger] sorted[k],
            commits@,
            wanted[perm[k]],
        ) by {
            assert(sorted[k] == unsorted[perm[k]]);
        }
    }
    Ok(sorted)
}

} // verus!
