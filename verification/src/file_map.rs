//! A small map from file paths to records, kept as two parallel vectors in
//! insertion order and searched from the front. No path is a key twice.

use vstd::prelude::*;
use crate::types::names;

verus! {

/// The first position at or after `from` at which `keys` holds `name`, or
/// `keys.len()` where there is none.
pub open spec fn position_from(keys: Seq<Seq<char>>, name: Seq<char>, from: int) -> int
    decreases keys.len() - from,
{
    if from < 0 || from >= keys.len() {
        keys.len() as int
    } else if keys[from] == name {
        from
    } else {
        position_from(keys, name, from + 1)
    }
}

/// The first position at which `keys` holds `name`, or `keys.len()`.
pub open spec fn position(keys: Seq<Seq<char>>, name: Seq<char>) -> int {
    position_from(keys, name, 0)
}

/// No path occurs twice in `keys`.
pub open spec fn distinct(keys: Seq<Seq<char>>) -> bool {
    forall|i: int, j: int| 0 <= i < j < keys.len() ==> keys[i] != keys[j]
}

pub proof fn lemma_position_from(keys: Seq<Seq<char>>, name: Seq<char>, from: int)
    requires
        0 <= from <= keys.len(),
    ensures
        from <= position_from(keys, name, from) <= keys.len(),
        position_from(keys, name, from) < keys.len() ==> keys[position_from(keys, name, from)]
            == name,
        forall|k: int| from <= k < position_from(keys, name, from) ==> #[trigger] keys[k] != name,
    decreases keys.len() - from,
{
    if from < keys.len() && keys[from] != name {
        lemma_position_from(keys, name, from + 1);
    }
}

/// `position` finds the first occurrence, and finds one exactly when the
/// sequence contains the name.
pub proof fn lemma_position(keys: Seq<Seq<char>>, name: Seq<char>)
    ensures
        0 <= position(keys, name) <= keys.len(),
        position(keys, name) < keys.len() <==> keys.contains(name),
        position(keys, name) < keys.len() ==> keys[position(keys, name)] == name,
        forall|k: int| 0 <= k < position(keys, name) ==> #[trigger] keys[k] != name,
{
    lemma_position_from(keys, name, 0);
    if keys.contains(name) {
        let k = choose|k: int| 0 <= k < keys.len() && keys[k] == name;
        if position(keys, name) >= keys.len() {
            assert(keys[k] != name);
        }
    }
}

/// In a sequence without repetition every position is the first of its name.
pub proof fn lemma_position_distinct(keys: Seq<Seq<char>>, i: int)
    requires
        distinct(keys),
        0 <= i < keys.len(),
    ensures
        position(keys, keys[i]) == i,
{
    lemma_position(keys, keys[i]);
    let p = position(keys, keys[i]);
    if p < i {
        assert(keys[p] != keys[i]);
    }
}

/// `found`, grown by those of the first `upto` of `paths` that it does
/// not hold yet.
pub open spec fn gathered(found: Seq<Seq<char>>, paths: Seq<Seq<char>>, upto: int) -> Seq<Seq<char>>
    decreases upto,
{
    if upto <= 0 {
        found
    } else {
        let rest = gathered(found, paths, upto - 1);
        if rest.contains(paths[upto - 1]) {
            rest
        } else {
            rest.push(paths[upto - 1])
        }
    }
}

/// The paths of `paths`, each once, in the order in which they first
/// occur.
pub open spec fn each_once(paths: Seq<Seq<char>>) -> Seq<Seq<char>> {
    gathered(Seq::empty(), paths, paths.len() as int)
}

/// Gathering adds no path twice, leaves out none and adds none of its
/// own.
pub proof fn lemma_gathered(found: Seq<Seq<char>>, paths: Seq<Seq<char>>, upto: int)
    requires
        distinct(found),
        0 <= upto <= paths.len(),
    ensures
        distinct(gathered(found, paths, upto)),
        found.len() <= gathered(found, paths, upto).len() <= found.len() + upto,
        forall|k: int| 0 <= k < found.len() ==> gathered(found, paths, upto)[k] == found[k],
        forall|x: Seq<char>|
            #[trigger] gathered(found, paths, upto).contains(x) <==> found.contains(x)
                || paths.take(upto).contains(x),
    decreases upto,
{
    let now = gathered(found, paths, upto);
    if upto > 0 {
        lemma_gathered(found, paths, upto - 1);
        let rest = gathered(found, paths, upto - 1);
        let p = paths[upto - 1];
        let shorter = paths.take(upto - 1);
        let longer = paths.take(upto);
        assert(longer[upto - 1] == p);
        if !rest.contains(p) {
            assert forall|i: int, j: int| 0 <= i < j < now.len() implies now[i] != now[j] by {
                if j < rest.len() {
                    assert(rest[i] != rest[j]);
                } else {
                    assert(rest.contains(rest[i]));
                }
            }
        }
        assert forall|x: Seq<char>| #[trigger]
            now.contains(x) <==> found.contains(x) || longer.contains(x) by {
            if now.contains(x) {
                let k = choose|k: int| 0 <= k < now.len() && now[k] == x;
                if k < rest.len() {
                    assert(rest[k] == x);
                    assert(rest.contains(x));
                    if shorter.contains(x) {
                        let j = choose|j: int| 0 <= j < shorter.len() && shorter[j] == x;
                        assert(longer[j] == x);
                    }
                } else {
                    assert(x == p);
                }
            }
            if found.contains(x) || longer.contains(x) {
                if longer.contains(x) && !found.contains(x) {
                    let j = choose|j: int| 0 <= j < longer.len() && longer[j] == x;
                    if j < upto - 1 {
                        assert(shorter[j] == x);
                    }
                }
                if x == p && !rest.contains(p) {
                    assert(now[now.len() - 1] == x);
                } else {
                    assert(rest.contains(x));
                    let k = choose|k: int| 0 <= k < rest.len() && rest[k] == x;
                    assert(now[k] == x);
                }
            }
        }
    } else {
        assert(paths.take(0) =~= Seq::<Seq<char>>::empty());
    }
}

/// `each_once` holds no path twice, and holds exactly the paths of the
/// list.
pub proof fn lemma_each_once(paths: Seq<Seq<char>>)
    ensures
        distinct(each_once(paths)),
        each_once(paths).len() <= paths.len(),
        forall|x: Seq<char>| #[trigger] each_once(paths).contains(x) <==> paths.contains(x),
{
    lemma_gathered(Seq::empty(), paths, paths.len() as int);
    assert(paths.take(paths.len() as int) =~= paths);
}

proof fn lemma_gathered_of_distinct(paths: Seq<Seq<char>>, upto: int)
    requires
        distinct(paths),
        0 <= upto <= paths.len(),
    ensures
        gathered(Seq::empty(), paths, upto) == paths.take(upto),
    decreases upto,
{
    if upto > 0 {
        lemma_gathered_of_distinct(paths, upto - 1);
        let rest = paths.take(upto - 1);
        if rest.contains(paths[upto - 1]) {
            let k = choose|k: int| 0 <= k < rest.len() && rest[k] == paths[upto - 1];
            assert(paths[k] != paths[upto - 1]);
        }
        assert(rest.push(paths[upto - 1]) =~= paths.take(upto));
    } else {
        assert(paths.take(0) =~= Seq::<Seq<char>>::empty());
    }
}

/// A list without repetition is its own `each_once`.
pub proof fn lemma_each_once_of_distinct(paths: Seq<Seq<char>>)
    requires
        distinct(paths),
    ensures
        each_once(paths) == paths,
{
    lemma_gathered_of_distinct(paths, paths.len() as int);
    assert(paths.take(paths.len() as int) =~= paths);
}

/// The first index at which `keys` holds `name`.
pub fn find_name(keys: &[String], name: &String) -> (r: Option<usize>)
    ensures
        match r {
            Some(i) => i < keys.len() && i == position(names(keys@), name@),
            None => position(names(keys@), name@) == keys.len(),
        },
        r is Some <==> names(keys@).contains(name@),
{
    proof {
        lemma_position(names(keys@), name@);
    }
    let mut i: usize = 0;
    while i < keys.len()
        invariant
            i <= keys.len(),
            position(names(keys@), name@) == position_from(names(keys@), name@, i as int),
        decreases keys.len() - i,
    {
        if keys[i] == *name {
            return Some(i);
        }
        i += 1;
    }
    None
}

/// Records keyed by file path.
#[derive(Debug, Clone)]
pub struct FileMap<T> {
    pub keys: Vec<String>,
    pub values: Vec<T>,
}

impl<T> FileMap<T> {
    /// Every key has its record, and no path is a key twice.
    pub open spec fn wf(&self) -> bool {
        &&& self.keys.len() == self.values.len()
        &&& distinct(self.paths())
    }

    /// The paths that have a record, in insertion order.
    pub open spec fn paths(&self) -> Seq<Seq<char>> {
        names(self.keys@)
    }

    /// The record of `name`: that of its first key.
    pub open spec fn lookup(&self, name: Seq<char>) -> Option<T> {
        if position(self.paths(), name) < self.values.len() {
            Some(self.values[position(self.paths(), name)])
        } else {
            None
        }
    }

    /// A map without records.
    pub fn new() -> (r: Self)
        ensures
            r.wf(),
            r.keys.len() == 0,
    {
        let r = FileMap { keys: Vec::new(), values: Vec::new() };
        assert(r.paths() =~= Seq::<Seq<char>>::empty());
        r
    }

    /// The number of records.
    pub fn len(&self) -> (r: usize)
        ensures
            r == self.keys.len(),
    {
        self.keys.len()
    }

    pub fn is_empty(&self) -> (r: bool)
        ensures
            r == (self.keys.len() == 0),
    {
        self.keys.len() == 0
    }

    /// The record of `name`, if it has one.
    pub fn get(&self, name: &str) -> (r: Option<&T>)
        requires
            self.wf(),
        ensures
            match r {
                Some(v) => self.lookup(name@) == Some(*v),
                None => self.lookup(name@) is None,
            },
            r is Some <==> self.paths().contains(name@),
    {
        let key = name.to_owned();
        match find_name(&self.keys, &key) {
            Some(i) => Some(&self.values[i]),
            None => None,
        }
    }

    /// Whether `name` has a record.
    pub fn contains_key(&self, name: &str) -> (r: bool)
        ensures
            r == self.paths().contains(name@),
    {
        let key = name.to_owned();
        find_name(&self.keys, &key).is_some()
    }
}

/// A map whose keys are the paths of a list, each once, holds exactly
/// one record for each path of the list and none for any other path.
pub proof fn lemma_one_record_per_path<T>(m: FileMap<T>, files: Seq<Seq<char>>)
    requires
        m.wf(),
        m.paths() == each_once(files),
    ensures
        forall|name: Seq<char>| files.contains(name) <==> #[trigger] m.lookup(name) is Some,
        forall|i: int|
            0 <= i < m.keys.len() ==> m.lookup(#[trigger] m.paths()[i]) == Some(m.values[i]),
        m.values.len() == each_once(files).len(),
        distinct(files) ==> m.paths() == files,
{
    lemma_each_once(files);
    assert forall|i: int| 0 <= i < m.keys.len() implies m.lookup(#[trigger] m.paths()[i]) == Some(
        m.values[i],
    ) by {
        lemma_position_distinct(m.paths(), i);
    }
    assert forall|name: Seq<char>| files.contains(name) <==> #[trigger] m.lookup(name) is Some by {
        lemma_position(m.paths(), name);
        assert(each_once(files).contains(name) <==> files.contains(name));
    }
    if distinct(files) {
        lemma_each_once_of_distinct(files);
    }
}

/// The paths of `files`, each once, in the order in which they first
/// occur.
pub fn unique_names(files: &[String]) -> (r: Vec<String>)
    ensures
        names(r@) == each_once(names(files@)),
        distinct(names(r@)),
        r.len() <= files.len(),
{
    let ghost paths = names(files@);
    let mut found: Vec<String> = Vec::new();
    let mut k: usize = 0;
    assert(names(found@) =~= gathered(Seq::empty(), paths, 0));
    while k < files.len()
        invariant
            k <= files.len(),
            paths == names(files@),
            names(found@) == gathered(Seq::empty(), paths, k as int),
        decreases files.len() - k,
    {
        let file = &files[k];
        assert(paths[k as int] == file@);
        if find_name(&found, file).is_none() {
            let ghost before = names(found@);
            found.push(file.clone());
            assert(names(found@) =~= before.push(file@));
        }
        k += 1;
    }
    proof {
        lemma_each_once(paths);
    }
    found
}

/// A copy of a list of paths.
pub fn clone_names(files: &[String]) -> (r: Vec<String>)
    ensures
        r@ == files@,
        names(r@) == names(files@),
        r.len() == files.len(),
{
    let mut r: Vec<String> = Vec::new();
    let mut i: usize = 0;
    while i < files.len()
        invariant
            i <= files.len(),
            r.len() == i,
            forall|k: int| 0 <= k < i ==> r[k] == files[k],
        decreases files.len() - i,
    {
        r.push(files[i].clone());
        i += 1;
    }
    assert(r@ =~= files@);
    r
}

} // verus!
