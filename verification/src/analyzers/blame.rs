//! Author silos: how much of a file's history is the work of one author.

use vstd::prelude::*;
use crate::file_map::{distinct, each_once, find_name, lemma_position, unique_names, FileMap};
use crate::tally::{
    all_flagged, as_nats, flagged_touches, peak, peak_upto, share, share_of, total_touches, touches,
};
use crate::types::{names, Commit, SiloData, SCORE_MAX};

verus! {

/// The authors of those of the first `upto` commits that touch `name`,
/// each once, in the order in which they first appear.
pub open spec fn authors_upto(commits: Seq<Commit>, name: Seq<char>, upto: int) -> Seq<Seq<char>>
    decreases upto,
{
    if upto <= 0 {
        Seq::empty()
    } else {
        let rest = authors_upto(commits, name, upto - 1);
        let c = commits[upto - 1];
        if c.touches(name) && !rest.contains(c.author@) {
            rest.push(c.author@)
        } else {
            rest
        }
    }
}

/// How many of the first `upto` commits touch `name` and are the work of
/// `author`.
pub open spec fn author_commits(
    commits: Seq<Commit>,
    name: Seq<char>,
    author: Seq<char>,
    upto: int,
) -> nat
    decreases upto,
{
    if upto <= 0 {
        0
    } else {
        author_commits(commits, name, author, upto - 1) + if commits[upto - 1].touches(name)
            && commits[upto - 1].author@ == author {
            1nat
        } else {
            0nat
        }
    }
}

/// The authors of the file `name`.
pub open spec fn file_authors(commits: Seq<Commit>, name: Seq<char>) -> Seq<Seq<char>> {
    authors_upto(commits, name, commits.len() as int)
}

/// The number of commits of each author of the file `name`.
pub open spec fn author_counts(commits: Seq<Commit>, name: Seq<char>) -> Seq<nat> {
    Seq::new(
        file_authors(commits, name).len(),
        |k: int| author_commits(commits, name, file_authors(commits, name)[k], commits.len() as int),
    )
}

/// Position `k` holds the largest count, and no position before it does.
/// Of several authors with the largest count, the one who appears first
/// in the history is at the top.
pub open spec fn is_top(counts: Seq<nat>, k: int) -> bool {
    &&& 0 <= k < counts.len()
    &&& counts[k] == peak(counts)
    &&& forall|j: int| 0 <= j < k ==> #[trigger] counts[j] < counts[k]
}

/// `d` is the record of the file `name`: its top author, that author's
/// share of the commits that touch the file, and the number of its
/// authors. A file without authors has the author `unknown` with the
/// full share.
pub open spec fn is_silo_of(d: SiloData, commits: Seq<Commit>, name: Seq<char>) -> bool {
    let authors = file_authors(commits, name);
    let counts = author_counts(commits, name);
    if authors.len() == 0 {
        &&& d.top_author@ == "unknown"@
        &&& d.top_author_percent == SCORE_MAX
        &&& d.author_count == 1
    } else {
        &&& d.author_count == authors.len()
        &&& exists|k: int|
            is_top(counts, k) && d.top_author@ == #[trigger] authors[k] && d.top_author_percent
                == share(counts[k] as int, total_touches(commits, name) as int, SCORE_MAX as int)
    }
}

proof fn lemma_unseen_author(commits: Seq<Commit>, name: Seq<char>, author: Seq<char>, upto: int)
    requires
        !authors_upto(commits, name, upto).contains(author),
    ensures
        author_commits(commits, name, author, upto) == 0,
    decreases upto,
{
    if upto > 0 {
        let rest = authors_upto(commits, name, upto - 1);
        let now = authors_upto(commits, name, upto);
        if rest.contains(author) {
            let k = choose|k: int| 0 <= k < rest.len() && rest[k] == author;
            assert(now[k] == author);
        }
        lemma_unseen_author(commits, name, author, upto - 1);
        let c = commits[upto - 1];
        if c.touches(name) && c.author@ == author {
            assert(now[now.len() - 1] == author);
        }
    }
}

/// No author has more commits on a file than the file has.
pub proof fn lemma_author_commits_bound(
    commits: Seq<Commit>,
    name: Seq<char>,
    author: Seq<char>,
    upto: int,
)
    requires
        0 <= upto <= commits.len(),
    ensures
        author_commits(commits, name, author, upto) <= flagged_touches(
            commits,
            all_flagged(commits.len()),
            name,
            upto,
        ),
    decreases upto,
{
    if upto > 0 {
        lemma_author_commits_bound(commits, name, author, upto - 1);
        assert(all_flagged(commits.len())[upto - 1]);
    }
}

/// The record of the file `name`.
pub fn file_silo(commits: &[Commit], name: &String) -> (r: SiloData)
    ensures
        is_silo_of(r, commits@, name@),
        r.top_author_percent <= SCORE_MAX,
{
    let mut authors: Vec<String> = Vec::new();
    let mut counts: Vec<usize> = Vec::new();
    let mut total: usize = 0;
    let mut i: usize = 0;
    assert(names(authors@) =~= authors_upto(commits@, name@, 0));
    while i < commits.len()
        invariant
            i <= commits.len(),
            names(authors@) == authors_upto(commits@, name@, i as int),
            distinct(names(authors@)),
            counts.len() == authors.len(),
            forall|k: int|
                0 <= k < authors.len() ==> #[trigger] counts[k] == author_commits(
                    commits@,
                    name@,
                    authors[k]@,
                    i as int,
                ),
            forall|k: int| 0 <= k < authors.len() ==> #[trigger] counts[k] <= i,
            total == flagged_touches(commits@, all_flagged(commits.len() as nat), name@, i as int),
            total <= i,
        decreases commits.len() - i,
    {
        assert(all_flagged(commits.len() as nat)[i as int]);
        if touches(&commits[i], name) {
            total += 1;
            let author = &commits[i].author;
            let ghost before = names(authors@);
            proof {
                lemma_position(before, author@);
            }
            match find_name(&authors, author) {
                Some(p) => {
                    counts[p] += 1;
                    proof {
                        assert(before[p as int] == authors[p as int]@);
                        assert forall|k: int| 0 <= k < authors.len() implies #[trigger] counts[k]
                            == author_commits(commits@, name@, authors[k]@, i + 1) by {
                            assert(before[k] == authors[k]@);
                        }
                    }
                },
                None => {
                    proof {
                        lemma_unseen_author(commits@, name@, author@, i as int);
                    }
                    authors.push(author.clone());
                    counts.push(1);
                    proof {
                        assert(names(authors@) =~= before.push(author@));
                        assert forall|k: int| 0 <= k < authors.len() implies #[trigger] counts[k]
                            == author_commits(commits@, name@, authors[k]@, i + 1) by {
                            if k < before.len() {
                                assert(before[k] == authors[k]@);
                                assert(before.contains(before[k]));
                            }
                        }
                        assert forall|a: int, b: int|
                            0 <= a < b < names(authors@).len() implies names(authors@)[a] != names(
                            authors@,
                        )[b] by {
                            if b == before.len() {
                                assert(before.contains(before[a]));
                            } else {
                                assert(before[a] != before[b]);
                            }
                        }
                    }
                },
            }
        }
        i += 1;
    }
    if authors.len() == 0 {
        return SiloData {
            top_author: "unknown".to_owned(),
            top_author_percent: SCORE_MAX,
            author_count: 1,
        };
    }
    let ghost wanted = author_counts(commits@, name@);
    assert(as_nats(counts@) =~= wanted) by {
        assert forall|k: int| 0 <= k < counts.len() implies as_nats(counts@)[k] == wanted[k] by {
            assert(names(authors@)[k] == authors[k]@);
        }
    }
    let mut best: usize = 0;
    let mut k: usize = 1;
    proof {
        assert(peak_upto(as_nats(counts@), 0) == 0);
        assert(as_nats(counts@)[0] == counts[0]);
    }
    while k < counts.len()
        invariant
            1 <= k <= counts.len(),
            best < k,
            counts[best as int] == peak_upto(as_nats(counts@), k as int),
            forall|j: int| 0 <= j < best ==> #[trigger] counts[j] < counts[best as int],
            forall|j: int| 0 <= j < k ==> #[trigger] counts[j] <= counts[best as int],
        decreases counts.len() - k,
    {
        assert(as_nats(counts@)[k as int] == counts[k as int]);
        if counts[k] > counts[best] {
            best = k;
        }
        k += 1;
    }
    proof {
        lemma_author_commits_bound(commits@, name@, authors[best as int]@, commits.len() as int);
        assert(is_top(wanted, best as int));
        assert(names(authors@)[best as int] == authors[best as int]@);
    }
    let percent = share_of(counts[best], total, SCORE_MAX);
    SiloData {
        top_author: authors[best].clone(),
        top_author_percent: percent,
        author_count: authors.len(),
    }
}

/// The keys of `m` are the candidates, each once, in the order in which
/// they first occur, and its records are those of its keys.
pub open spec fn is_silo_data(m: FileMap<SiloData>, commits: Seq<Commit>, files: Seq<String>) -> bool {
    &&& m.wf()
    &&& m.paths() == each_once(names(files))
    &&& forall|i: int|
        0 <= i < m.keys.len() ==> is_silo_of(#[trigger] m.values[i], commits, m.keys[i]@)
}

/// Measures, per file, how much of its history is the work of its top
/// author.
pub fn analyze_authors(commits: &[Commit], files: &[String]) -> (r: FileMap<SiloData>)
    ensures
        is_silo_data(r, commits@, files@),
        forall|i: int|
            0 <= i < r.values.len() ==> (#[trigger] r.values[i]).top_author_percent <= SCORE_MAX,
{
    let files = unique_names(files);
    let mut values: Vec<SiloData> = Vec::new();
    let mut i: usize = 0;
    while i < files.len()
        invariant
            i <= files.len(),
            values.len() == i,
            forall|k: int| 0 <= k < i ==> is_silo_of(#[trigger] values[k], commits@, files[k]@),
            forall|k: int| 0 <= k < i ==> (#[trigger] values[k]).top_author_percent <= SCORE_MAX,
        decreases files.len() - i,
    {
        values.push(file_silo(commits, &files[i]));
        i += 1;
    }
    FileMap { keys: files, values }
}

} // verus!
