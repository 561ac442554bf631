//! The log parser: from the text of the log to commits and line counts,
//! in one pass over its lines.
//!
//! A line that starts with the marker opens a commit; its fields, divided
//! by `|`, are the hash, the author, the timestamp and the subject, and
//! the subject may hold `|` itself. A line of three fields divided by
//! tabs tells of one changed file: lines added, lines deleted, path. For
//! a binary file the two counts are `-`. Blank lines divide the commits.

use vstd::prelude::*;
use vstd::std_specs::iter::IteratorSpec;
use crate::file_map::{distinct, find_name, lemma_position, position, FileMap};
use crate::patterns::{regex_compiles, regex_replace, Pattern, PatternError};
use crate::text::{
    after_last, chars_of, collapse_slashes, collapsed, copy_range, count_of, find_char, has_char,
    has_prefix, holds, holds_sub, index_from, last_piece, read_count, read_time,
    split_on, starts_with, string_of, time_of, trim, trimmed,
};
use crate::types::{commit_views, names, Commit, CommitView, DiffStats};

verus! {

/// Line counts per file.
pub type DiffStatsMap = FileMap<DiffStats>;

/// What opens the line of a commit.
pub const COMMIT_MARKER: &'static str = "COMMIT|";

/// A rename within a path: `{old => new}`.
pub const RENAME_PATTERN: &'static str = r"\{[^}]+ => ([^}]+)\}";

/// What a rename within a path is replaced by: its new part.
pub const RENAME_REPLACEMENT: &'static str = "$1";

/// The arrow of a rename of a whole path.
pub const RENAME_ARROW: &'static str = " => ";

/// The arrow that, with a brace, marks a rename within a path.
pub const BARE_ARROW: &'static str = "=>";

/// What stands for a count in the line of a binary file.
pub const BINARY_MARK: &'static str = "-";

/// What a line of the log says.
pub enum Line {
    /// The line of a commit; `None` where it has fewer than four fields.
    Header(Option<CommitView>),
    /// An empty line.
    Blank,
    /// The line of a changed file.
    Change { added: Seq<char>, deleted: Seq<char>, raw_name: Seq<char> },
    /// Anything else.
    Other,
}

/// The timestamp that a field writes, and 0 where it writes none.
pub open spec fn time_or_zero(field: Seq<char>) -> i64 {
    match time_of(field) {
        Some(t) => t as i64,
        None => 0,
    }
}

/// The count that a field writes, and 0 where it writes none.
pub open spec fn count_or_zero(field: Seq<char>) -> usize {
    match count_of(field) {
        Some(n) => n as usize,
        None => 0,
    }
}

/// The commit that the fields after the marker describe: hash, author
/// and timestamp up to the first three `|`, and the subject behind the
/// third.
pub open spec fn header_of(rest: Seq<char>) -> Option<CommitView> {
    let a = index_from(rest, '|', 0);
    let b = index_from(rest, '|', a + 1);
    let c = index_from(rest, '|', b + 1);
    if a < rest.len() && b < rest.len() && c < rest.len() {
        Some(
            CommitView {
                hash: rest.subrange(0, a),
                author: rest.subrange(a + 1, b),
                timestamp: time_or_zero(rest.subrange(b + 1, c)),
                subject: rest.subrange(c + 1, rest.len() as int),
                files: Seq::empty(),
            },
        )
    } else {
        None
    }
}

/// What the line `line` says.
pub open spec fn line_of(line: Seq<char>) -> Line {
    let t = trimmed(line);
    if starts_with(t, COMMIT_MARKER@) {
        Line::Header(header_of(t.skip(COMMIT_MARKER@.len() as int)))
    } else if t.len() == 0 {
        Line::Blank
    } else {
        let a = index_from(t, '\t', 0);
        let b = index_from(t, '\t', a + 1);
        if a < t.len() && b < t.len() {
            Line::Change {
                added: t.subrange(0, a),
                deleted: t.subrange(a + 1, b),
                raw_name: t.subrange(b + 1, t.len() as int),
            }
        } else {
            Line::Other
        }
    }
}

/// The path that is left of a path with a rename in braces once the
/// rename is replaced: doubled `/` made one, the ends trimmed; `None`
/// where a brace is left.
pub open spec fn resolved(replaced: Seq<char>) -> Option<Seq<char>> {
    let r = collapsed(replaced);
    if r.contains('{') {
        None
    } else {
        Some(trimmed(r))
    }
}

/// The path that a raw path names. `a/{old => new}/b` names `a/new/b`,
/// `old => new` names `new`, and any other path names itself, trimmed;
/// an empty path names none.
pub open spec fn normalized(raw: Seq<char>) -> Option<Seq<char>> {
    if raw.contains('{') && holds(raw, BARE_ARROW@) {
        resolved(regex_replace(RENAME_PATTERN@, raw, RENAME_REPLACEMENT@))
    } else if holds(raw, RENAME_ARROW@) {
        Some(trimmed(last_piece(raw, RENAME_ARROW@)))
    } else if trimmed(raw).len() == 0 {
        None
    } else {
        Some(trimmed(raw))
    }
}

/// The sum of two counts; the largest count where the sum lies beyond it.
pub open spec fn capped_sum(x: usize, y: usize) -> usize {
    if x + y > usize::MAX {
        usize::MAX
    } else {
        (x + y) as usize
    }
}

/// The state of the parser between two lines.
pub struct LogState {
    /// The commits that are complete.
    pub commits: Seq<CommitView>,
    /// The commit that the lines are telling of.
    pub current: Option<CommitView>,
    /// The files that have line counts, in the order of their first line.
    pub stat_keys: Seq<Seq<char>>,
    /// The line counts of those files.
    pub stat_values: Seq<DiffStats>,
}

/// The state before the first line.
pub open spec fn initial_state() -> LogState {
    LogState {
        commits: Seq::empty(),
        current: None,
        stat_keys: Seq::empty(),
        stat_values: Seq::empty(),
    }
}

/// The state with `added` and `deleted` added to the counts of `name`.
pub open spec fn with_counts(s: LogState, name: Seq<char>, added: usize, deleted: usize) -> LogState {
    let p = position(s.stat_keys, name);
    if p < s.stat_values.len() {
        LogState {
            stat_values: s.stat_values.update(
                p,
                DiffStats {
                    additions: capped_sum(s.stat_values[p].additions, added),
                    deletions: capped_sum(s.stat_values[p].deletions, deleted),
                },
            ),
            ..s
        }
    } else {
        LogState {
            stat_keys: s.stat_keys.push(name),
            stat_values: s.stat_values.push(DiffStats { additions: added, deletions: deleted }),
            ..s
        }
    }
}

/// The state with `name` added to the files of the current commit.
pub open spec fn with_file(s: LogState, name: Seq<char>) -> LogState {
    match s.current {
        Some(c) => LogState { current: Some(CommitView { files: c.files.push(name), ..c }), ..s },
        None => s,
    }
}

/// The state with the current commit, if there is one, among the
/// complete ones.
pub open spec fn closed(s: LogState) -> LogState {
    match s.current {
        Some(c) => LogState { commits: s.commits.push(c), current: None, ..s },
        None => s,
    }
}

/// The state after one more line. The line of a commit completes the
/// commit before it. The line of a changed file adds its counts to those
/// of the file, unless the file is binary, and its path to the current
/// commit, if there is one; a path that names no file is passed over.
#[verifier::opaque]
pub open spec fn step(s: LogState, line: Seq<char>) -> LogState {
    match line_of(line) {
        Line::Header(h) => LogState { current: h, ..closed(s) },
        Line::Blank => s,
        Line::Other => s,
        Line::Change { added, deleted, raw_name } => match normalized(raw_name) {
            None => s,
            Some(name) => {
                let counted = if added == BINARY_MARK@ || deleted == BINARY_MARK@ {
                    s
                } else {
                    with_counts(s, name, count_or_zero(added), count_or_zero(deleted))
                };
                with_file(counted, name)
            },
        },
    }
}

/// The state after the first `upto` of `lines`.
pub open spec fn run(lines: Seq<Seq<char>>, upto: int) -> LogState
    decreases upto,
{
    if upto <= 0 {
        initial_state()
    } else {
        step(run(lines, upto - 1), lines[upto - 1])
    }
}

/// The state after all lines of `text`, with the last commit complete.
pub open spec fn parsed(text: Seq<char>) -> LogState {
    closed(run(split_on(text, '\n'), split_on(text, '\n').len() as int))
}

/// The state that the values of the parser stand for.
pub open spec fn log_state(
    commits: Seq<Commit>,
    current: Option<Commit>,
    diff_stats: DiffStatsMap,
) -> LogState {
    LogState {
        commits: commit_views(commits),
        current: match current {
            Some(c) => Some(c@),
            None => None,
        },
        stat_keys: diff_stats.paths(),
        stat_values: diff_stats.values@,
    }
}

/// Between any two lines every file with line counts has them once.
pub proof fn lemma_stat_keys_distinct(lines: Seq<Seq<char>>, upto: int)
    ensures
        distinct(run(lines, upto).stat_keys),
        run(lines, upto).stat_keys.len() == run(lines, upto).stat_values.len(),
    decreases upto,
{
    reveal(step);
    if upto > 0 {
        lemma_stat_keys_distinct(lines, upto - 1);
        let s = run(lines, upto - 1);
        let t = run(lines, upto);
        match line_of(lines[upto - 1]) {
            Line::Change { added, deleted, raw_name } => match normalized(raw_name) {
                Some(name) => {
                    lemma_position(s.stat_keys, name);
                    if !(added == BINARY_MARK@ || deleted == BINARY_MARK@) && position(
                        s.stat_keys,
                        name,
                    ) >= s.stat_values.len() {
                        assert(t.stat_keys == s.stat_keys.push(name));
                        assert forall|i: int, j: int|
                            0 <= i < j < t.stat_keys.len() implies t.stat_keys[i]
                            != t.stat_keys[j] by {
                            if j < s.stat_keys.len() {
                                assert(s.stat_keys[i] != s.stat_keys[j]);
                            } else {
                                assert(s.stat_keys.contains(s.stat_keys[i]));
                            }
                        }
                    }
                },
                None => {},
            },
            _ => {},
        }
    }
}

/// A parsed log holds the line counts of each file once.
pub proof fn lemma_parsed_keys_distinct(text: Seq<char>)
    ensures
        distinct(parsed(text).stat_keys),
        parsed(text).stat_keys.len() == parsed(text).stat_values.len(),
{
    lemma_stat_keys_distinct(split_on(text, '\n'), split_on(text, '\n').len() as int);
}

proof fn lemma_run_prefix(a: Seq<Seq<char>>, b: Seq<Seq<char>>, upto: int)
    requires
        0 <= upto <= a.len(),
        upto <= b.len(),
        forall|k: int| 0 <= k < upto ==> a[k] == b[k],
    ensures
        run(a, upto) == run(b, upto),
    decreases upto,
{
    if upto > 0 {
        lemma_run_prefix(a, b, upto - 1);
    }
}

/// The compiled pattern of a rename within a path, and the marks of the
/// log as characters.
pub struct RenamePattern {
    pattern: Pattern,
    marker: Vec<char>,
    bare_arrow: Vec<char>,
    arrow: Vec<char>,
}

impl RenamePattern {
    /// The pattern is that of a rename, and the marks are those of the
    /// log.
    pub closed spec fn wf(&self) -> bool {
        &&& self.pattern@ == RENAME_PATTERN@
        &&& self.marker@ == COMMIT_MARKER@
        &&& self.bare_arrow@ == BARE_ARROW@
        &&& self.arrow@ == RENAME_ARROW@
    }

    /// Compiles the pattern.
    pub fn new() -> (r: Result<RenamePattern, PatternError>)
        ensures
            r is Ok <==> regex_compiles(RENAME_PATTERN@),
            r matches Ok(p) ==> p.wf(),
    {
        match Pattern::new(RENAME_PATTERN) {
            Ok(pattern) => Ok(
                RenamePattern {
                    pattern,
                    marker: chars_of(COMMIT_MARKER),
                    bare_arrow: chars_of(BARE_ARROW),
                    arrow: chars_of(RENAME_ARROW),
                },
            ),
            Err(e) => Err(e),
        }
    }

    /// `raw` with its first rename in braces replaced by the new part.
    pub fn replace(&self, raw: &str) -> (r: String)
        requires
            self.wf(),
        ensures
            r@ == regex_replace(RENAME_PATTERN@, raw@, RENAME_REPLACEMENT@),
    {
        self.pattern.replace_first(raw, RENAME_REPLACEMENT)
    }
}

/// The path that is left of a path with a rename in braces once the
/// rename is replaced.
pub fn finish_rename(replaced: &str) -> (r: Option<String>)
    ensures
        match r {
            Some(s) => resolved(replaced@) == Some(s@),
            None => resolved(replaced@) is None,
        },
{
    let result = collapse_slashes(&chars_of(replaced));
    if has_char(&result, '{') {
        None
    } else {
        Some(string_of(&trim(&result)))
    }
}

/// The path that the raw path `raw` names.
pub fn normalize_filename(rename: &RenamePattern, raw: &str) -> (r: Option<String>)
    requires
        rename.wf(),
    ensures
        match r {
            Some(s) => normalized(raw@) == Some(s@),
            None => normalized(raw@) is None,
        },
{
    let chars = chars_of(raw);
    proof {
        reveal_strlit("=>");
        reveal_strlit(" => ");
    }
    if has_char(&chars, '{') && holds_sub(&chars, &rename.bare_arrow) {
        let replaced = rename.replace(raw);
        return finish_rename(replaced.as_str());
    }
    if holds_sub(&chars, &rename.arrow) {
        return Some(string_of(&trim(&after_last(&chars, &rename.arrow))));
    }
    let t = trim(&chars);
    if t.len() == 0 {
        None
    } else {
        Some(string_of(&t))
    }
}

/// The commit that the fields after the marker describe.
pub fn read_header(rest: &Vec<char>) -> (r: Option<Commit>)
    ensures
        match r {
            Some(c) => header_of(rest@) == Some(c@),
            None => header_of(rest@) is None,
        },
{
    let n = rest.len();
    let a = find_char(rest, '|', 0);
    if a >= n {
        return None;
    }
    let b = find_char(rest, '|', a + 1);
    if b >= n {
        return None;
    }
    let c = find_char(rest, '|', b + 1);
    if c >= n {
        return None;
    }
    let timestamp = match read_time(&copy_range(rest, b + 1, c)) {
        Some(t) => t,
        None => 0,
    };
    let commit = Commit {
        hash: string_of(&copy_range(rest, 0, a)),
        author: string_of(&copy_range(rest, a + 1, b)),
        timestamp,
        subject: string_of(&copy_range(rest, c + 1, n)),
        files: Vec::new(),
    };
    assert(commit@.files =~= Seq::empty());
    Some(commit)
}

/// Adds `added` and `deleted` to the counts of `name`.
pub fn add_counts(diff_stats: &mut DiffStatsMap, name: &String, added: usize, deleted: usize)
    requires
        old(diff_stats).wf(),
    ensures
        final(diff_stats).wf(),
        forall|commits: Seq<Commit>, current: Option<Commit>|
            #[trigger] log_state(commits, current, *final(diff_stats)) == with_counts(
                log_state(commits, current, *old(diff_stats)),
                name@,
                added,
                deleted,
            ),
{
    let ghost before = *diff_stats;
    proof {
        lemma_position(before.paths(), name@);
    }
    match find_name(&diff_stats.keys, name) {
        Some(p) => {
            let entry = diff_stats.values[p];
            let additions = match entry.additions.checked_add(added) {
                Some(v) => v,
                None => usize::MAX,
            };
            let deletions = match entry.deletions.checked_add(deleted) {
                Some(v) => v,
                None => usize::MAX,
            };
            diff_stats.values[p] = DiffStats { additions, deletions };
            assert(diff_stats.paths() == before.paths());
            assert(diff_stats.values@ =~= before.values@.update(
                p as int,
                DiffStats {
                    additions: capped_sum(before.values[p as int].additions, added),
                    deletions: capped_sum(before.values[p as int].deletions, deleted),
                },
            ));
        },
        None => {
            diff_stats.keys.push(name.clone());
            diff_stats.values.push(DiffStats { additions: added, deletions: deleted });
            assert(diff_stats.paths() =~= before.paths().push(name@));
        },
    }
}

/// Whether a field is the mark of a binary file.
fn is_binary_mark(field: &Vec<char>) -> (r: bool)
    ensures
        r == (field@ == BINARY_MARK@),
{
    proof {
        reveal_strlit("-");
    }
    let r = field.len() == 1 && field[0] == '-';
    assert(r ==> field@ =~= BINARY_MARK@);
    r
}

/// Takes one line of the log, given as its characters.
fn take_line(
    rename: &RenamePattern,
    line: &Vec<char>,
    commits: &mut Vec<Commit>,
    diff_stats: &mut DiffStatsMap,
    current: &mut Option<Commit>,
)
    requires
        rename.wf(),
        old(diff_stats).wf(),
    ensures
        final(diff_stats).wf(),
        log_state(final(commits)@, *final(current), *final(diff_stats)) == step(
            log_state(old(commits)@, *old(current), *old(diff_stats)),
            line@,
        ),
{
    reveal(step);
    let ghost s0 = log_state(commits@, *current, *diff_stats);
    let t = trim(line);
    if has_prefix(&t, &rename.marker) {
        let ghost before = commits@;
        match current.take() {
            Some(c) => {
                commits.push(c);
                assert(commit_views(commits@) =~= commit_views(before).push(c@));
            },
            None => {},
        }
        let rest = copy_range(&t, rename.marker.len(), t.len());
        assert(rest@ =~= t@.skip(rename.marker.len() as int));
        *current = read_header(&rest);
        assert(log_state(commits@, *current, *diff_stats) == step(s0, line@));
        return ;
    }
    if t.len() == 0 {
        return ;
    }
    let n = t.len();
    let a = find_char(&t, '\t', 0);
    if a >= n {
        return ;
    }
    let b = find_char(&t, '\t', a + 1);
    if b >= n {
        return ;
    }
    let added = copy_range(&t, 0, a);
    let deleted = copy_range(&t, a + 1, b);
    let raw = string_of(&copy_range(&t, b + 1, n));
    match normalize_filename(rename, raw.as_str()) {
        None => {},
        Some(name) => {
            if !is_binary_mark(&added) && !is_binary_mark(&deleted) {
                let plus = match read_count(&added) {
                    Some(v) => v,
                    None => 0,
                };
                let minus = match read_count(&deleted) {
                    Some(v) => v,
                    None => 0,
                };
                add_counts(diff_stats, &name, plus, minus);
            }
            let ghost s1 = log_state(commits@, *current, *diff_stats);
            match current.take() {
                Some(c) => {
                    let mut c = c;
                    let ghost files = names(c.files@);
                    c.files.push(name);
                    assert(names(c.files@) =~= files.push(name@));
                    *current = Some(c);
                },
                None => {},
            }
            assert(log_state(commits@, *current, *diff_stats) == with_file(s1, name@));
        },
    }
}

/// Takes one line of the log: `commits`, `current` and `diff_stats`
/// become what `step` makes of them.
pub fn parse_commit_line(
    rename: &RenamePattern,
    line: &str,
    commits: &mut Vec<Commit>,
    diff_stats: &mut DiffStatsMap,
    current: &mut Option<Commit>,
)
    requires
        rename.wf(),
        old(diff_stats).wf(),
    ensures
        final(diff_stats).wf(),
        log_state(final(commits)@, *final(current), *final(diff_stats)) == step(
            log_state(old(commits)@, *old(current), *old(diff_stats)),
            line@,
        ),
{
    let chars = chars_of(line);
    take_line(rename, &chars, commits, diff_stats, current);
}

/// Completes the commit that the lines were telling of.
pub fn finish_log(commits: &mut Vec<Commit>, current: &mut Option<Commit>)
    ensures
        *final(current) is None,
        forall|diff_stats: DiffStatsMap|
            #[trigger] log_state(final(commits)@, *final(current), diff_stats) == closed(
                log_state(old(commits)@, *old(current), diff_stats),
            ),
{
    let ghost before = commits@;
    match current.take() {
        Some(c) => {
            commits.push(c);
            assert(commit_views(commits@) =~= commit_views(before).push(c@));
        },
        None => {},
    }
}

/// Parses the text of a log into its commits, in the order of the text,
/// and the line counts per file. The call fails only where the pattern
/// of a rename does not compile.
pub fn parse_commit_output(output: &str) -> (r: Result<(Vec<Commit>, DiffStatsMap), PatternError>)
    ensures
        r is Ok <==> regex_compiles(RENAME_PATTERN@),
        r matches Ok(p) ==> p.1.wf() && log_state(p.0@, None, p.1) == parsed(output@),
{
    let rename = match RenamePattern::new() {
        Ok(p) => p,
        Err(e) => {
            return Err(e);
        },
    };
    broadcast use vstd::string::group_string_axioms;

    let ghost text = output@;
    let mut commits: Vec<Commit> = Vec::new();
    let mut diff_stats: DiffStatsMap = FileMap::new();
    let mut current: Option<Commit> = None;
    let mut buffer: Vec<char> = Vec::new();
    let ghost mut done: Seq<Seq<char>> = Seq::empty();
    proof {
        assert(text.take(0) =~= Seq::<char>::empty());
        assert(done.push(buffer@) =~= split_on(text.take(0), '\n'));
        assert(commit_views(commits@) =~= Seq::empty());
        assert(diff_stats.paths() =~= Seq::empty());
        assert(diff_stats.values@ =~= Seq::empty());
    }
    for c in it: output.chars()
        invariant
            it.seq() == text,
            text == output@,
            rename.wf(),
            diff_stats.wf(),
            split_on(text.take(it.index() as int), '\n') == done.push(buffer@),
            log_state(commits@, current, diff_stats) == run(done, done.len() as int),
    {
        let ghost i = it.index() as int;
        let ghost lines = done.push(buffer@);
        proof {
            assert(text.take(i + 1).drop_last() =~= text.take(i));
            assert(text.take(i + 1).last() == c);
            assert(lines.drop_last() =~= done);
            assert(lines.last() == buffer@);
        }
        if c == '\n' {
            take_line(&rename, &buffer, &mut commits, &mut diff_stats, &mut current);
            proof {
                lemma_run_prefix(lines, done, done.len() as int);
                done = lines;
            }
            buffer = Vec::new();
            assert(done.push(buffer@) =~= lines.push(Seq::empty()));
        } else {
            buffer.push(c);
            assert(done.push(buffer@) =~= lines.drop_last().push(lines.last().push(c)));
        }
    }
    let ghost lines = done.push(buffer@);
    take_line(&rename, &buffer, &mut commits, &mut diff_stats, &mut current);
    proof {
        assert(text.take(text.len() as int) =~= text);
        lemma_run_prefix(lines, done, done.len() as int);
        assert(log_state(commits@, current, diff_stats) == run(lines, lines.len() as int));
    }
    finish_log(&mut commits, &mut current);
    Ok((commits, diff_stats))
}

/// The arguments that ask the version-control tool for the log that
/// `parse_commit_output` reads.
pub open spec fn log_arguments_of(since: Seq<char>, path_filter: Option<Seq<char>>) -> Seq<Seq<char>> {
    let base = seq![
        "log"@,
        "--format=COMMIT|%H|%ae|%ad|%s"@,
        "--date=unix"@,
        "--numstat"@,
        "--diff-filter=ACDMRT"@,
    ];
    let windowed = if since.len() == 0 {
        base
    } else {
        base.push("--since="@ + since)
    };
    match path_filter {
        Some(p) => windowed.push("--"@).push(p),
        None => windowed,
    }
}

/// The arguments that ask for the log: the format of the lines, then the
/// time window, if `since` is not empty, and the path, if there is one.
pub fn log_arguments(since: &str, path_filter: Option<&str>) -> (r: Vec<String>)
    ensures
        names(r@) == log_arguments_of(
            since@,
            match path_filter {
                Some(p) => Some(p@),
                None => None,
            },
        ),
{
    let mut args: Vec<String> = Vec::new();
    args.push("log".to_owned());
    args.push("--format=COMMIT|%H|%ae|%ad|%s".to_owned());
    args.push("--date=unix".to_owned());
    args.push("--numstat".to_owned());
    args.push("--diff-filter=ACDMRT".to_owned());
    if !since.is_empty() {
        let mut window = "--since=".to_owned();
        window.append(since);
        args.push(window);
    }
    match path_filter {
        Some(p) => {
            args.push("--".to_owned());
            args.push(p.to_owned());
        },
        None => {},
    }
    assert(names(args@) =~= log_arguments_of(
        since@,
        match path_filter {
            Some(p) => Some(p@),
            None => None,
        },
    ));
    args
}

} // verus!
