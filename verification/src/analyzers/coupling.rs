//! Co-change coupling: pairs of files that the same commits touch.

use vstd::prelude::*;
use crate::file_map::{each_once, find_name, lemma_position, position, unique_names, FileMap};
use crate::order::{arranged, sort_descending, sorts_descending};
use crate::tally::{
    all_flagged, all_true, flagged_touches, lemma_share_positive, lemma_share_range, share,
    share_wide, tally, total_touches, touches,
};
use crate::text::{lemma_precedes_total, precedes, sorts_before};
use crate::types::{names, Commit, CouplingEntry, SCORE_MAX};

verus! {

/// A commit that touches more candidates than this counts for no pair.
pub const MAX_FILES_PER_COMMIT: usize = 20;

/// The number of common commits from which two files are coupled.
pub const MIN_CO_CHANGES: usize = 3;

/// Whether position `i` is the first of `files` that holds its path.
pub open spec fn is_first(files: Seq<Seq<char>>, i: int) -> bool {
    position(files, files[i]) == i
}

/// How many different paths among the first `upto` candidates the commit
/// lists.
pub open spec fn touched_upto(commit: Commit, files: Seq<Seq<char>>, upto: int) -> nat
    decreases upto,
{
    if upto <= 0 {
        0
    } else {
        touched_upto(commit, files, upto - 1) + if is_first(files, upto - 1) && commit.touches(
            files[upto - 1],
        ) {
            1nat
        } else {
            0nat
        }
    }
}

/// How many different candidates the commit touches.
pub open spec fn touched_count(commit: Commit, files: Seq<Seq<char>>) -> nat {
    touched_upto(commit, files, files.len() as int)
}

/// Whether the commit counts for pairs: it touches at most
/// `MAX_FILES_PER_COMMIT` candidates.
pub open spec fn counts_for_pairs(commit: Commit, files: Seq<Seq<char>>) -> bool {
    touched_count(commit, files) <= MAX_FILES_PER_COMMIT
}

/// How many of the first `upto` commits count for pairs and touch both
/// `a` and `b`.
pub open spec fn together_upto(
    commits: Seq<Commit>,
    files: Seq<Seq<char>>,
    a: Seq<char>,
    b: Seq<char>,
    upto: int,
) -> nat
    decreases upto,
{
    if upto <= 0 {
        0
    } else {
        together_upto(commits, files, a, b, upto - 1) + if counts_for_pairs(
            commits[upto - 1],
            files,
        ) && commits[upto - 1].touches(a) && commits[upto - 1].touches(b) {
            1nat
        } else {
            0nat
        }
    }
}

/// How many commits that count for pairs touch both `a` and `b`.
pub open spec fn co_changes(
    commits: Seq<Commit>,
    files: Seq<Seq<char>>,
    a: Seq<char>,
    b: Seq<char>,
) -> nat {
    together_upto(commits, files, a, b, commits.len() as int)
}

/// The commits that touch both files as a share of those that touch
/// either, on the scale of scores.
pub open spec fn coupling_strength(
    commits: Seq<Commit>,
    files: Seq<Seq<char>>,
    a: Seq<char>,
    b: Seq<char>,
) -> int {
    let co = co_changes(commits, files, a, b);
    share(co as int, total_touches(commits, a) + total_touches(commits, b) - co, SCORE_MAX as int)
}

/// `e` is the entry of a coupled pair of candidates.
pub open spec fn is_coupling_of(e: CouplingEntry, commits: Seq<Commit>, files: Seq<Seq<char>>) -> bool {
    &&& files.contains(e.file_a@)
    &&& files.contains(e.file_b@)
    &&& precedes(e.file_a@, e.file_b@)
    &&& e.co_changes == co_changes(commits, files, e.file_a@, e.file_b@)
    &&& e.co_changes >= MIN_CO_CHANGES
    &&& e.strength == coupling_strength(commits, files, e.file_a@, e.file_b@)
}

/// The strongest coupling among the first `upto` entries that involve
/// `name`, and 0 where there is none.
pub open spec fn best_strength(couplings: Seq<CouplingEntry>, name: Seq<char>, upto: int) -> u64
    decreases upto,
{
    if upto <= 0 {
        0
    } else {
        let rest = best_strength(couplings, name, upto - 1);
        let e = couplings[upto - 1];
        if (e.file_a@ == name || e.file_b@ == name) && e.strength > rest {
            e.strength
        } else {
            rest
        }
    }
}

pub proof fn lemma_together_bound(
    commits: Seq<Commit>,
    files: Seq<Seq<char>>,
    a: Seq<char>,
    b: Seq<char>,
    upto: int,
)
    requires
        0 <= upto <= commits.len(),
    ensures
        together_upto(commits, files, a, b, upto) <= flagged_touches(
            commits,
            all_flagged(commits.len()),
            a,
            upto,
        ),
        together_upto(commits, files, a, b, upto) <= flagged_touches(
            commits,
            all_flagged(commits.len()),
            b,
            upto,
        ),
    decreases upto,
{
    if upto > 0 {
        lemma_together_bound(commits, files, a, b, upto - 1);
        assert(all_flagged(commits.len())[upto - 1]);
    }
}

pub proof fn lemma_together_symmetric(
    commits: Seq<Commit>,
    files: Seq<Seq<char>>,
    a: Seq<char>,
    b: Seq<char>,
    upto: int,
)
    ensures
        together_upto(commits, files, a, b, upto) == together_upto(commits, files, b, a, upto),
    decreases upto,
{
    if upto > 0 {
        lemma_together_symmetric(commits, files, a, b, upto - 1);
    }
}

/// Coupling does not depend on the order of the two files.
pub proof fn lemma_coupling_symmetric(
    commits: Seq<Commit>,
    files: Seq<Seq<char>>,
    a: Seq<char>,
    b: Seq<char>,
)
    ensures
        co_changes(commits, files, a, b) == co_changes(commits, files, b, a),
        coupling_strength(commits, files, a, b) == coupling_strength(commits, files, b, a),
{
    lemma_together_symmetric(commits, files, a, b, commits.len() as int);
}

/// Two files that change together at least once have a strength above 0
/// and at most the full score.
pub proof fn lemma_strength_range(
    commits: Seq<Commit>,
    files: Seq<Seq<char>>,
    a: Seq<char>,
    b: Seq<char>,
)
    ensures
        co_changes(commits, files, a, b) <= total_touches(commits, a),
        co_changes(commits, files, a, b) <= total_touches(commits, b),
        0 <= coupling_strength(commits, files, a, b) <= SCORE_MAX,
        co_changes(commits, files, a, b) > 0 ==> coupling_strength(commits, files, a, b) > 0,
{
    lemma_together_bound(commits, files, a, b, commits.len() as int);
    let co = co_changes(commits, files, a, b) as int;
    let whole = total_touches(commits, a) + total_touches(commits, b) - co;
    lemma_share_range(co, whole, SCORE_MAX as int);
    if co > 0 {
        lemma_share_positive(co, whole, SCORE_MAX as int);
    }
}

/// A history in which every commit touches more candidates than the cap
/// couples no two files, however often they change together.
pub proof fn lemma_large_commits_couple_nothing(
    commits: Seq<Commit>,
    files: Seq<Seq<char>>,
    a: Seq<char>,
    b: Seq<char>,
)
    requires
        forall|c: int|
            0 <= c < commits.len() ==> touched_count(#[trigger] commits[c], files)
                > MAX_FILES_PER_COMMIT,
    ensures
        co_changes(commits, files, a, b) == 0,
{
    lemma_no_pairs_without_small_commits(commits, files, a, b, commits.len() as int);
}

proof fn lemma_no_pairs_without_small_commits(
    commits: Seq<Commit>,
    files: Seq<Seq<char>>,
    a: Seq<char>,
    b: Seq<char>,
    upto: int,
)
    requires
        0 <= upto <= commits.len(),
        forall|c: int| 0 <= c < commits.len() ==> !counts_for_pairs(#[trigger] commits[c], files),
    ensures
        together_upto(commits, files, a, b, upto) == 0,
    decreases upto,
{
    if upto > 0 {
        lemma_no_pairs_without_small_commits(commits, files, a, b, upto - 1);
    }
}

/// For each candidate, whether it is the first that holds its path.
fn first_flags(files: &[String]) -> (r: Vec<bool>)
    ensures
        r.len() == files.len(),
        forall|i: int| 0 <= i < files.len() ==> #[trigger] r[i] == is_first(names(files@), i),
{
    let mut r: Vec<bool> = Vec::new();
    let mut i: usize = 0;
    while i < files.len()
        invariant
            i <= files.len(),
            r.len() == i,
            forall|k: int| 0 <= k < i ==> #[trigger] r[k] == is_first(names(files@), k),
        decreases files.len() - i,
    {
        let found = find_name(files, &files[i]);
        assert(names(files@)[i as int] == files[i as int]@);
        let first = match found {
            Some(p) => p == i,
            None => false,
        };
        r.push(first);
        i += 1;
    }
    r
}

/// The positions, in ascending order, of the candidates that the commit
/// touches, each path at its first position.
fn touched_indices(commit: &Commit, files: &[String], first: &Vec<bool>) -> (r: Vec<usize>)
    requires
        first.len() == files.len(),
        forall|i: int| 0 <= i < files.len() ==> #[trigger] first[i] == is_first(names(files@), i),
    ensures
        r.len() == touched_count(*commit, names(files@)),
        forall|q: int| 0 <= q < r.len() ==> #[trigger] r[q] < files.len(),
        forall|q: int, s: int| 0 <= q < s < r.len() ==> r[q] < r[s],
        forall|i: usize|
            i < files.len() ==> (#[trigger] r@.contains(i) <==> first[i as int] && commit.touches(
                files[i as int]@,
            )),
{
    let mut r: Vec<usize> = Vec::new();
    let mut i: usize = 0;
    while i < files.len()
        invariant
            i <= files.len(),
            first.len() == files.len(),
            forall|k: int| 0 <= k < files.len() ==> #[trigger] first[k] == is_first(names(files@), k),
            r.len() == touched_upto(*commit, names(files@), i as int),
            r.len() <= i,
            forall|q: int| 0 <= q < r.len() ==> #[trigger] r[q] < i,
            forall|q: int, s: int| 0 <= q < s < r.len() ==> r[q] < r[s],
            forall|k: usize|
                k < i ==> (#[trigger] r@.contains(k) <==> first[k as int] && commit.touches(
                    files[k as int]@,
                )),
        decreases files.len() - i,
    {
        let ghost before = r@;
        assert(names(files@)[i as int] == files[i as int]@);
        if first[i] && touches(commit, &files[i]) {
            r.push(i);
            proof {
                assert(r@[r.len() - 1] == i);
                assert forall|k: usize| k < i + 1 implies (#[trigger] r@.contains(k) <==> first[k as int]
                    && commit.touches(files[k as int]@)) by {
                    if k < i {
                        if before.contains(k) {
                            let q = choose|q: int| 0 <= q < before.len() && before[q] == k;
                            assert(r@[q] == k);
                        }
                        if r@.contains(k) {
                            let q = choose|q: int| 0 <= q < r@.len() && r@[q] == k;
                            assert(before[q] == k);
                        }
                    }
                }
            }
        } else {
            proof {
                assert forall|k: usize| k < i + 1 implies (#[trigger] r@.contains(k) <==> first[k as int]
                    && commit.touches(files[k as int]@)) by {
                    if k == i && r@.contains(k) {
                        let q = choose|q: int| 0 <= q < r@.len() && r@[q] == k;
                        assert(r[q] < i);
                    }
                }
            }
        }
        i += 1;
    }
    r
}

/// Whether the ascending list `list` holds `x`.
fn holds_index(list: &Vec<usize>, x: usize) -> (r: bool)
    ensures
        r == list@.contains(x),
{
    let mut q: usize = 0;
    while q < list.len()
        invariant
            q <= list.len(),
            forall|k: int| 0 <= k < q ==> list[k] != x,
        decreases list.len() - q,
    {
        if list[q] == x {
            return true;
        }
        q += 1;
    }
    false
}

/// What is known of the touched positions of every commit.
spec fn indexed(commits: Seq<Commit>, files: Seq<String>, idx: Seq<Vec<usize>>) -> bool {
    &&& idx.len() == commits.len()
    &&& forall|c: int|
        0 <= c < commits.len() ==> (#[trigger] idx[c]).len() == touched_count(
            commits[c],
            names(files),
        )
    &&& forall|c: int, q: int|
        0 <= c < commits.len() && 0 <= q < idx[c].len() ==> #[trigger] idx[c][q] < files.len()
    &&& forall|c: int, q: int, s: int|
        0 <= c < commits.len() && 0 <= q < s < idx[c].len() ==> #[trigger] idx[c][q]
            < #[trigger] idx[c][s]
    &&& forall|c: int, i: usize|
        0 <= c < commits.len() && i < files.len() ==> (#[trigger] idx[c]@.contains(i) <==> is_first(
            names(files),
            i as int,
        ) && commits[c].touches(files[i as int]@))
}

/// For the candidate at position `a` and each later candidate, the number
/// of commits that count for pairs and touch both.
fn pair_counts(
    commits: &[Commit],
    files: &[String],
    idx: &Vec<Vec<usize>>,
    a: usize,
) -> (co: Vec<usize>)
    requires
        a < files.len(),
        is_first(names(files@), a as int),
        indexed(commits@, files@, idx@),
    ensures
        co.len() == files.len(),
        forall|b: int|
            a < b < files.len() && is_first(names(files@), b) ==> #[trigger] co[b] == co_changes(
                commits@,
                names(files@),
                files[a as int]@,
                files[b]@,
            ),
{
    let n = files.len();
    let ghost fnames = names(files@);
    let mut co: Vec<usize> = Vec::new();
    let mut z: usize = 0;
    while z < n
        invariant
            z <= n,
            co.len() == z,
            forall|b: int| 0 <= b < z ==> #[trigger] co[b] == 0,
        decreases n - z,
    {
        co.push(0);
        z += 1;
    }
    let mut c: usize = 0;
    while c < commits.len()
        invariant
            n == files.len(),
            a < n,
            fnames == names(files@),
            is_first(fnames, a as int),
            indexed(commits@, files@, idx@),
            c <= commits.len(),
            co.len() == n,
            forall|b: int| 0 <= b < n ==> #[trigger] co[b] <= c,
            forall|b: int|
                a < b < n && is_first(fnames, b) ==> #[trigger] co[b] == together_upto(
                    commits@,
                    fnames,
                    files[a as int]@,
                    files[b]@,
                    c as int,
                ),
        decreases commits.len() - c,
    {
        let list = &idx[c];
        let ghost start = co@;
        assert(idx@[c as int]@.contains(a) <==> is_first(fnames, a as int) && commits[c as int].touches(
            files[a as int]@,
        ));
        let small = list.len() <= MAX_FILES_PER_COMMIT;
        assert(small == counts_for_pairs(commits[c as int], fnames));
        if small && holds_index(list, a) {
            let mut q: usize = 0;
            while q < list.len()
                invariant
                    n == files.len(),
                    a < n,
                    c < commits.len(),
                    list == idx[c as int],
                    indexed(commits@, files@, idx@),
                    q <= list.len(),
                    co.len() == n,
                    start.len() == n,
                    forall|b: int| 0 <= b < n ==> #[trigger] start[b] <= c,
                    forall|b: int|
                        0 <= b < n ==> #[trigger] co[b] == start[b] + if b > a && list@.take(
                            q as int,
                        ).contains(b as usize) {
                            1int
                        } else {
                            0int
                        },
                decreases list.len() - q,
            {
                let b = list[q];
                let ghost prev = co@;
                assert(idx[c as int][q as int] < files.len());
                if b > a {
                    assert(!list@.take(q as int).contains(b)) by {
                        if list@.take(q as int).contains(b) {
                            let s = choose|s: int|
                                0 <= s < list@.take(q as int).len() && list@.take(q as int)[s] == b;
                            assert(idx[c as int][s] < idx[c as int][q as int]);
                        }
                    }
                    co[b] += 1;
                }
                proof {
                    assert(list@.take(q + 1) =~= list@.take(q as int).push(b));
                    assert forall|x: int| 0 <= x < n implies #[trigger] co[x] == start[x] + if x > a
                        && list@.take(q + 1).contains(x as usize) {
                        1int
                    } else {
                        0int
                    } by {
                        let t0 = list@.take(q as int);
                        let t1 = list@.take(q + 1);
                        assert(prev[x] == start[x] + if x > a && t0.contains(x as usize) {
                            1int
                        } else {
                            0int
                        });
                        if t0.contains(x as usize) {
                            let s = choose|s: int| 0 <= s < t0.len() && t0[s] == x as usize;
                            assert(t1[s] == x as usize);
                        }
                        if x == b {
                            assert(t1[q as int] == b);
                        } else if t1.contains(x as usize) {
                            let s = choose|s: int| 0 <= s < t1.len() && t1[s] == x as usize;
                            assert(t0[s] == x as usize);
                        }
                    }
                }
                q += 1;
            }
            proof {
                assert(list@.take(list.len() as int) =~= list@);
            }
        }
        proof {
            assert forall|b: int| a < b < n && is_first(fnames, b) implies #[trigger] co[b]
                == together_upto(commits@, fnames, files[a as int]@, files[b]@, c + 1) by {
                assert(start[b] == together_upto(
                    commits@,
                    fnames,
                    files[a as int]@,
                    files[b]@,
                    c as int,
                ));
                assert(idx@[c as int]@.contains(b as usize) <==> is_first(fnames, b as usize as int)
                    && commits[c as int].touches(files[b as usize as int]@));
            }
        }
        c += 1;
    }
    co
}

/// `e` is the entry of the candidates at the positions `i` and `j`.
spec fn pairs_up(
    e: CouplingEntry,
    commits: Seq<Commit>,
    files: Seq<Seq<char>>,
    i: int,
    j: int,
) -> bool {
    &&& 0 <= i < j < files.len()
    &&& is_first(files, i)
    &&& is_first(files, j)
    &&& (e.file_a@ == files[i] && e.file_b@ == files[j]) || (e.file_a@ == files[j] && e.file_b@
        == files[i])
    &&& is_coupling_of(e, commits, files)
}

/// The entries of all coupled pairs, in the order of the candidates.
fn gather_couplings(commits: &[Commit], files: &[String]) -> (r: (
    Vec<CouplingEntry>,
    Ghost<Seq<(int, int)>>,
))
    ensures
        r.1@.len() == r.0.len(),
        forall|k: int|
            0 <= k < r.0.len() ==> pairs_up(
                #[trigger] r.0[k],
                commits@,
                names(files@),
                r.1@[k].0,
                r.1@[k].1,
            ),
        forall|k: int, l: int| 0 <= k < l < r.0.len() ==> r.1@[k] != r.1@[l],
        forall|i: int, j: int|
            0 <= i < j < files.len() && is_first(names(files@), i) && is_first(names(files@), j)
                && #[trigger] co_changes(commits@, names(files@), files[i]@, files[j]@)
                >= MIN_CO_CHANGES ==> r.1@.contains((i, j)),
{
    let n = files.len();
    let ghost fnames = names(files@);
    let first = first_flags(files);
    let all = all_true(commits.len());
    let mut idx: Vec<Vec<usize>> = Vec::new();
    let mut c: usize = 0;
    while c < commits.len()
        invariant
            c <= commits.len(),
            first.len() == files.len(),
            forall|i: int| 0 <= i < files.len() ==> #[trigger] first[i] == is_first(names(files@), i),
            indexed(commits@.take(c as int), files@, idx@),
        decreases commits.len() - c,
    {
        let list = touched_indices(&commits[c], files, &first);
        proof {
            assert(commits@.take(c as int + 1) =~= commits@.take(c as int).push(commits[c as int]));
        }
        idx.push(list);
        c += 1;
    }
    proof {
        assert(commits@.take(commits.len() as int) =~= commits@);
    }
    let totals = tally(commits, &all, files);
    let mut out: Vec<CouplingEntry> = Vec::new();
    let ghost mut pairs: Seq<(int, int)> = Seq::empty();
    let mut a: usize = 0;
    while a < n
        invariant
            n == files.len(),
            fnames == names(files@),
            a <= n,
            first.len() == n,
            forall|i: int| 0 <= i < n ==> #[trigger] first[i] == is_first(fnames, i),
            indexed(commits@, files@, idx@),
            all@ == all_flagged(commits.len() as nat),
            totals.len() == n,
            forall|i: int| 0 <= i < n ==> #[trigger] totals[i] == total_touches(commits@, files[i]@),
            pairs.len() == out.len(),
            forall|k: int|
                0 <= k < out.len() ==> pairs_up(
                    #[trigger] out[k],
                    commits@,
                    fnames,
                    pairs[k].0,
                    pairs[k].1,
                ),
            forall|k: int| 0 <= k < out.len() ==> (#[trigger] pairs[k]).0 < a,
            forall|k: int, l: int| 0 <= k < l < out.len() ==> pairs[k] != pairs[l],
            forall|i: int, j: int|
                0 <= i < j < n && i < a && is_first(fnames, i) && is_first(fnames, j)
                    && #[trigger] co_changes(commits@, fnames, files[i]@, files[j]@)
                    >= MIN_CO_CHANGES ==> pairs.contains((i, j)),
        decreases n - a,
    {
        if first[a] {
            let co = pair_counts(commits, files, &idx, a);
            let mut b: usize = a + 1;
            while b < n
                invariant
                    n == files.len(),
                    fnames == names(files@),
                    a < b <= n,
                    first.len() == n,
                    first[a as int],
                    forall|i: int| 0 <= i < n ==> #[trigger] first[i] == is_first(fnames, i),
                    totals.len() == n,
                    forall|i: int|
                        0 <= i < n ==> #[trigger] totals[i] == total_touches(commits@, files[i]@),
                    co.len() == n,
                    forall|x: int|
                        a < x < n && is_first(fnames, x) ==> #[trigger] co[x] == co_changes(
                            commits@,
                            fnames,
                            files[a as int]@,
                            files[x]@,
                        ),
                    pairs.len() == out.len(),
                    forall|k: int|
                        0 <= k < out.len() ==> pairs_up(
                            #[trigger] out[k],
                            commits@,
                            fnames,
                            pairs[k].0,
                            pairs[k].1,
                        ),
                    forall|k: int|
                        0 <= k < out.len() ==> (#[trigger] pairs[k]).0 < a || (pairs[k].0 == a
                            && pairs[k].1 < b),
                    forall|k: int, l: int| 0 <= k < l < out.len() ==> pairs[k] != pairs[l],
                    forall|i: int, j: int|
                        0 <= i < j < n && (i < a || (i == a && j < b)) && is_first(fnames, i)
                            && is_first(fnames, j) && #[trigger] co_changes(
                            commits@,
                            fnames,
                            files[i]@,
                            files[j]@,
                        ) >= MIN_CO_CHANGES ==> pairs.contains((i, j)),
                decreases n - b,
            {
                let ghost old_pairs = pairs;
                if first[b] && co[b] >= MIN_CO_CHANGES {
                    let shared = co[b];
                    proof {
                        lemma_strength_range(commits@, fnames, files[a as int]@, files[b as int]@);
                        lemma_coupling_symmetric(
                            commits@,
                            fnames,
                            files[a as int]@,
                            files[b as int]@,
                        );
                        lemma_precedes_total(files[a as int]@, files[b as int]@);
                        lemma_position(fnames, files[a as int]@);
                        lemma_position(fnames, files[b as int]@);
                        assert(fnames[a as int] == files[a as int]@);
                        assert(fnames[b as int] == files[b as int]@);
                    }
                    let whole: u128 = (totals[a] as u128) + (totals[b] as u128) - (shared as u128);
                    let strength = share_wide(shared, whole, SCORE_MAX);
                    let entry = if sorts_before(&files[a], &files[b]) {
                        CouplingEntry {
                            file_a: files[a].clone(),
                            file_b: files[b].clone(),
                            co_changes: shared,
                            strength,
                        }
                    } else {
                        CouplingEntry {
                            file_a: files[b].clone(),
                            file_b: files[a].clone(),
                            co_changes: shared,
                            strength,
                        }
                    };
                    assert(pairs_up(entry, commits@, fnames, a as int, b as int));
                    out.push(entry);
                    proof {
                        pairs = old_pairs.push((a as int, b as int));
                        assert(pairs[pairs.len() - 1] == (a as int, b as int));
                    }
                }
                proof {
                    assert forall|i: int, j: int|
                        0 <= i < j < n && (i < a || (i == a && j < b + 1)) && is_first(fnames, i)
                            && is_first(fnames, j) && #[trigger] co_changes(
                            commits@,
                            fnames,
                            files[i]@,
                            files[j]@,
                        ) >= MIN_CO_CHANGES implies pairs.contains((i, j)) by {
                        if i == a && j == b {
                            assert(pairs[pairs.len() - 1] == (a as int, b as int));
                        } else {
                            assert(old_pairs.contains((i, j)));
                            let k = choose|k: int| 0 <= k < old_pairs.len() && old_pairs[k] == (i, j);
                            assert(pairs[k] == (i, j));
                        }
                    }
                }
                b += 1;
            }
        }
        a += 1;
    }
    (out, Ghost(pairs))
}

/// `r` holds exactly one entry for each pair of candidates that at least
/// `MIN_CO_CHANGES` commits touch together, in descending order of
/// those commits.
pub open spec fn is_coupling_list(
    r: Seq<CouplingEntry>,
    commits: Seq<Commit>,
    files: Seq<Seq<char>>,
) -> bool {
    &&& forall|k: int| 0 <= k < r.len() ==> is_coupling_of(#[trigger] r[k], commits, files)
    &&& forall|k: int, l: int| 0 <= k < l < r.len() ==> r[k].co_changes >= r[l].co_changes
    &&& forall|k: int, l: int|
        0 <= k < l < r.len() ==> !(r[k].file_a@ == r[l].file_a@ && r[k].file_b@ == r[l].file_b@)
    &&& forall|x: Seq<char>, y: Seq<char>|
        files.contains(x) && files.contains(y) && precedes(x, y) && #[trigger] co_changes(
            commits,
            files,
            x,
            y,
        ) >= MIN_CO_CHANGES ==> exists|k: int|
            0 <= k < r.len() && (#[trigger] r[k]).file_a@ == x && r[k].file_b@ == y
}

/// Two files that fewer than `MIN_CO_CHANGES` commits touch together
/// have no entry.
pub proof fn lemma_below_threshold_excluded(
    r: Seq<CouplingEntry>,
    commits: Seq<Commit>,
    files: Seq<Seq<char>>,
    x: Seq<char>,
    y: Seq<char>,
)
    requires
        is_coupling_list(r, commits, files),
        co_changes(commits, files, x, y) < MIN_CO_CHANGES,
    ensures
        forall|k: int|
            0 <= k < r.len() ==> !((#[trigger] r[k]).file_a@ == x && r[k].file_b@ == y) && !(r[k].file_a@
                == y && r[k].file_b@ == x),
{
    lemma_coupling_symmetric(commits, files, x, y);
    assert forall|k: int| 0 <= k < r.len() implies !((#[trigger] r[k]).file_a@ == x && r[k].file_b@
        == y) && !(r[k].file_a@ == y && r[k].file_b@ == x) by {
        assert(is_coupling_of(r[k], commits, files));
    }
}

/// Two files that at least `MIN_CO_CHANGES` commits touch together have
/// an entry, whose strength lies above 0 and at most at the full score.
pub proof fn lemma_coupled_pair_has_entry(
    r: Seq<CouplingEntry>,
    commits: Seq<Commit>,
    files: Seq<Seq<char>>,
    x: Seq<char>,
    y: Seq<char>,
)
    requires
        is_coupling_list(r, commits, files),
        files.contains(x),
        files.contains(y),
        x != y,
        co_changes(commits, files, x, y) >= MIN_CO_CHANGES,
    ensures
        exists|k: int|
            0 <= k < r.len() && (((#[trigger] r[k]).file_a@ == x && r[k].file_b@ == y) || (r[k].file_a@
                == y && r[k].file_b@ == x)) && r[k].co_changes >= MIN_CO_CHANGES && 0 < r[k].strength
                <= SCORE_MAX,
{
    lemma_precedes_total(x, y);
    lemma_coupling_symmetric(commits, files, x, y);
    if precedes(x, y) {
        let k = choose|k: int| 0 <= k < r.len() && (#[trigger] r[k]).file_a@ == x && r[k].file_b@ == y;
        assert(is_coupling_of(r[k], commits, files));
        lemma_strength_range(commits, files, x, y);
    } else {
        assert(co_changes(commits, files, y, x) >= MIN_CO_CHANGES);
        let k = choose|k: int| 0 <= k < r.len() && (#[trigger] r[k]).file_a@ == y && r[k].file_b@ == x;
        assert(is_coupling_of(r[k], commits, files));
        lemma_strength_range(commits, files, y, x);
    }
}

/// Where every commit touches more candidates than the cap, no two
/// files are coupled, however often they change together.
pub proof fn lemma_large_commits_give_no_entries(
    r: Seq<CouplingEntry>,
    commits: Seq<Commit>,
    files: Seq<Seq<char>>,
)
    requires
        is_coupling_list(r, commits, files),
        forall|c: int|
            0 <= c < commits.len() ==> touched_count(#[trigger] commits[c], files)
                > MAX_FILES_PER_COMMIT,
    ensures
        r.len() == 0,
{
    if r.len() > 0 {
        assert(is_coupling_of(r[0], commits, files));
        lemma_large_commits_couple_nothing(commits, files, r[0].file_a@, r[0].file_b@);
    }
}

/// Finds the pairs of candidates that at least `MIN_CO_CHANGES` commits
/// touch together, among the commits that touch at most
/// `MAX_FILES_PER_COMMIT` candidates. Each such pair has exactly one
/// entry; the entries come in descending order of their common commits.
pub fn analyze_coupling(commits: &[Commit], files: &[String]) -> (r: Vec<CouplingEntry>)
    ensures
        is_coupling_list(r@, commits@, names(files@)),
        forall|k: int| 0 <= k < r.len() ==> 0 < (#[trigger] r[k]).strength <= SCORE_MAX,
{
    let ghost fnames = names(files@);
    let (raw, Ghost(pairs)) = gather_couplings(commits, files);
    let mut keys: Vec<u64> = Vec::new();
    let mut i: usize = 0;
    while i < raw.len()
        invariant
            i <= raw.len(),
            keys.len() == i,
            forall|k: int| 0 <= k < i ==> #[trigger] keys[k] == raw[k].co_changes,
        decreases raw.len() - i,
    {
        keys.push(raw[i].co_changes as u64);
        i += 1;
    }
    let ghost raw_seq = raw@;
    let r = sort_descending(raw, &keys);
    proof {
        let perm = choose|perm: Seq<int>| sorts_descending(perm, keys@) && arranged(r@, raw_seq, perm);
        assert forall|k: int| 0 <= k < r.len() implies is_coupling_of(
            #[trigger] r[k],
            commits@,
            fnames,
        ) by {
            assert(r[k] == raw_seq[perm[k]]);
        }
        assert forall|k: int| 0 <= k < r.len() implies 0 < (#[trigger] r[k]).strength
            <= SCORE_MAX by {
            assert(is_coupling_of(r[k], commits@, fnames));
            lemma_strength_range(commits@, fnames, r[k].file_a@, r[k].file_b@);
        }
        assert forall|k: int, l: int| 0 <= k < l < r.len() implies r[k].co_changes
            >= r[l].co_changes by {
            assert(r[k] == raw_seq[perm[k]]);
            assert(r[l] == raw_seq[perm[l]]);
            assert(keys[perm[k]] >= keys[perm[l]]);
        }
        assert forall|k: int, l: int| 0 <= k < l < r.len() implies !(r[k].file_a@ == r[l].file_a@
            && r[k].file_b@ == r[l].file_b@) by {
            let pk = perm[k];
            let pl = perm[l];
            assert(r[k] == raw_seq[pk]);
            assert(r[l] == raw_seq[pl]);
            assert(pk != pl);
            assert(pairs_up(raw_seq[pk], commits@, fnames, pairs[pk].0, pairs[pk].1));
            assert(pairs_up(raw_seq[pl], commits@, fnames, pairs[pl].0, pairs[pl].1));
            if pk < pl {
                assert(pairs[pk] != pairs[pl]);
            } else {
                assert(pairs[pl] != pairs[pk]);
            }
            lemma_precedes_total(r[k].file_a@, r[k].file_b@);
        }
        assert forall|x: Seq<char>, y: Seq<char>|
            fnames.contains(x) && fnames.contains(y) && precedes(x, y) && #[trigger] co_changes(
                commits@,
                fnames,
                x,
                y,
            ) >= MIN_CO_CHANGES implies exists|k: int|
            0 <= k < r.len() && (#[trigger] r[k]).file_a@ == x && r[k].file_b@ == y by {
            lemma_position(fnames, x);
            lemma_position(fnames, y);
            lemma_precedes_total(x, y);
            let px = position(fnames, x);
            let py = position(fnames, y);
            assert(fnames[px] == files[px]@);
            assert(fnames[py] == files[py]@);
            lemma_coupling_symmetric(commits@, fnames, x, y);
            let lo = if px < py {
                px
            } else {
                py
            };
            let hi = if px < py {
                py
            } else {
                px
            };
            assert(co_changes(commits@, fnames, files[lo]@, files[hi]@) >= MIN_CO_CHANGES);
            assert(pairs.contains((lo, hi)));
            let m = choose|m: int| 0 <= m < pairs.len() && pairs[m] == (lo, hi);
            assert(pairs_up(raw_seq[m], commits@, fnames, lo, hi));
            assert(perm.contains(m));
            let k = choose|k: int| 0 <= k < perm.len() && perm[k] == m;
            assert(r[k] == raw_seq[m]);
            lemma_precedes_total(y, x);
        }
    }
    r
}

/// The strength of the strongest coupling that involves `name`, and 0
/// where there is none.
pub fn strongest_coupling(couplings: &[CouplingEntry], name: &String) -> (r: u64)
    ensures
        r == best_strength(couplings@, name@, couplings.len() as int),
{
    let mut best: u64 = 0;
    let mut c: usize = 0;
    while c < couplings.len()
        invariant
            c <= couplings.len(),
            best == best_strength(couplings@, name@, c as int),
        decreases couplings.len() - c,
    {
        let e = &couplings[c];
        if (e.file_a == *name || e.file_b == *name) && e.strength > best {
            best = e.strength;
        }
        c += 1;
    }
    best
}

/// The coupling score of each candidate: the strength of its strongest
/// coupling, and 0 where it has none. The keys are the candidates, each
/// once, in the order in which they first occur.
pub fn get_coupling_scores(files: &[String], couplings: &[CouplingEntry]) -> (r: FileMap<u64>)
    ensures
        r.wf(),
        r.paths() == each_once(names(files@)),
        forall|i: int|
            0 <= i < r.keys.len() ==> #[trigger] r.values[i] == best_strength(
                couplings@,
                r.keys[i]@,
                couplings.len() as int,
            ),
{
    let files = unique_names(files);
    let mut values: Vec<u64> = Vec::new();
    let mut i: usize = 0;
    while i < files.len()
        invariant
            i <= files.len(),
            values.len() == i,
            forall|k: int|
                0 <= k < i ==> #[trigger] values[k] == best_strength(
                    couplings@,
                    files[k]@,
                    couplings.len() as int,
                ),
        decreases files.len() - i,
    {
        values.push(strongest_coupling(couplings, &files[i]));
        i += 1;
    }
    FileMap { keys: files, values }
}

} // verus!
