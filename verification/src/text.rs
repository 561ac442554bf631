//! Character-level helpers: conversion between strings and character
//! vectors, trimming, searching and decimal numbers.

use vstd::prelude::*;
use vstd::std_specs::iter::IteratorSpec;

verus! {

/// Appends one character to a string (`String::push`).
#[verifier::external_body]
fn push_char(s: &mut String, c: char)
    ensures
        final(s)@ == old(s)@.push(c),
{
    s.push(c)
}

/// The characters of `s`, in order.
pub fn chars_of(s: &str) -> (v: Vec<char>)
    ensures
        v@ == s@,
{
    broadcast use vstd::string::group_string_axioms;

    let mut v: Vec<char> = Vec::new();
    for c in it: s.chars()
        invariant
            it.seq() == s@,
            v@ =~= s@.take(it.index() as int),
    {
        v.push(c);
    }
    assert(v@ =~= s@);
    v
}

/// The string made of the characters `v[from..to]`.
pub fn text_of(v: &Vec<char>, from: usize, to: usize) -> (s: String)
    requires
        from <= to <= v.len(),
    ensures
        s@ == v@.subrange(from as int, to as int),
{
    let mut s = String::new();
    let mut i: usize = from;
    while i < to
        invariant
            from <= i <= to <= v.len(),
            s@ =~= v@.subrange(from as int, i as int),
        decreases to - i,
    {
        push_char(&mut s, v[i]);
        i += 1;
    }
    s
}

/// The string made of all the characters of `v`.
pub fn string_of(v: &Vec<char>) -> (s: String)
    ensures
        s@ == v@,
{
    let s = text_of(v, 0, v.len());
    assert(v@.subrange(0, v.len() as int) =~= v@);
    s
}

/// A copy of the characters `v[from..to]`.
pub fn copy_range(v: &Vec<char>, from: usize, to: usize) -> (r: Vec<char>)
    requires
        from <= to <= v.len(),
    ensures
        r@ == v@.subrange(from as int, to as int),
{
    let mut r: Vec<char> = Vec::new();
    let mut i: usize = from;
    while i < to
        invariant
            from <= i <= to <= v.len(),
            r@ =~= v@.subrange(from as int, i as int),
        decreases to - i,
    {
        r.push(v[i]);
        i += 1;
    }
    r
}

/// Whether `c` is white space: the code points with the Unicode property
/// `White_Space`.
pub open spec fn is_space(c: char) -> bool {
    let n = c as u32;
    ||| 0x09 <= n <= 0x0d
    ||| n == 0x20
    ||| n == 0x85
    ||| n == 0xa0
    ||| n == 0x1680
    ||| 0x2000 <= n <= 0x200a
    ||| n == 0x2028
    ||| n == 0x2029
    ||| n == 0x202f
    ||| n == 0x205f
    ||| n == 0x3000
}

pub fn is_whitespace(c: char) -> (r: bool)
    ensures
        r == is_space(c),
{
    let n: u32 = c as u32;
    (0x09 <= n && n <= 0x0d) || n == 0x20 || n == 0x85 || n == 0xa0 || n == 0x1680 || (0x2000 <= n
        && n <= 0x200a) || n == 0x2028 || n == 0x2029 || n == 0x202f || n == 0x205f || n == 0x3000
}

/// The number of white-space characters at the front of `s`, counted
/// from position `from`.
pub open spec fn leading_spaces(s: Seq<char>, from: int) -> int
    decreases s.len() - from,
{
    if 0 <= from < s.len() && is_space(s[from]) {
        1 + leading_spaces(s, from + 1)
    } else {
        0
    }
}

/// The number of white-space characters at the back of `s[..to]`.
pub open spec fn trailing_spaces(s: Seq<char>, to: int) -> int
    decreases to,
{
    if 0 < to <= s.len() && is_space(s[to - 1]) {
        1 + trailing_spaces(s, to - 1)
    } else {
        0
    }
}

/// Where the trimmed part of `s` starts.
pub open spec fn trim_start_at(s: Seq<char>) -> int {
    leading_spaces(s, 0)
}

/// Where the trimmed part of `s` ends: after the last character that is
/// not white space, and never before `trim_start_at`.
pub open spec fn trim_end_at(s: Seq<char>) -> int {
    if trim_start_at(s) == s.len() {
        s.len() as int
    } else {
        s.len() - trailing_spaces(s, s.len() as int)
    }
}

/// `s` without the white space at its two ends.
pub open spec fn trimmed(s: Seq<char>) -> Seq<char> {
    s.subrange(trim_start_at(s), trim_end_at(s))
}

pub proof fn lemma_leading_spaces(s: Seq<char>, from: int)
    requires
        0 <= from <= s.len(),
    ensures
        0 <= leading_spaces(s, from) <= s.len() - from,
        forall|k: int| from <= k < from + leading_spaces(s, from) ==> is_space(#[trigger] s[k]),
        from + leading_spaces(s, from) < s.len() ==> !is_space(s[from + leading_spaces(s, from)]),
    decreases s.len() - from,
{
    if from < s.len() && is_space(s[from]) {
        lemma_leading_spaces(s, from + 1);
    }
}

pub proof fn lemma_trailing_spaces(s: Seq<char>, to: int)
    requires
        0 <= to <= s.len(),
    ensures
        0 <= trailing_spaces(s, to) <= to,
        forall|k: int| to - trailing_spaces(s, to) <= k < to ==> is_space(#[trigger] s[k]),
        to - trailing_spaces(s, to) > 0 ==> !is_space(s[to - trailing_spaces(s, to) - 1]),
    decreases to,
{
    if 0 < to && is_space(s[to - 1]) {
        lemma_trailing_spaces(s, to - 1);
    }
}

/// The trimmed part lies inside the sequence, and neither of its ends is
/// white space.
pub proof fn lemma_trim_bounds(s: Seq<char>)
    ensures
        0 <= trim_start_at(s) <= trim_end_at(s) <= s.len(),
        trimmed(s).len() > 0 ==> !is_space(trimmed(s).first()) && !is_space(trimmed(s).last()),
        forall|k: int| 0 <= k < trim_start_at(s) ==> is_space(#[trigger] s[k]),
        forall|k: int| trim_end_at(s) <= k < s.len() ==> is_space(#[trigger] s[k]),
{
    lemma_leading_spaces(s, 0);
    lemma_trailing_spaces(s, s.len() as int);
    let a = trim_start_at(s);
    if a < s.len() {
        let t = trailing_spaces(s, s.len() as int);
        if s.len() - t <= a {
            assert(is_space(s[a]));
        }
    }
}

/// The bounds of the trimmed part of `v`.
pub fn trim_bounds(v: &Vec<char>) -> (r: (usize, usize))
    ensures
        r.0 == trim_start_at(v@),
        r.1 == trim_end_at(v@),
        r.0 <= r.1 <= v.len(),
{
    proof {
        lemma_trim_bounds(v@);
    }
    let mut a: usize = 0;
    while a < v.len() && is_whitespace(v[a])
        invariant
            a <= v.len(),
            leading_spaces(v@, 0) == a + leading_spaces(v@, a as int),
        decreases v.len() - a,
    {
        a += 1;
    }
    if a == v.len() {
        return (a, a);
    }
    let mut b: usize = v.len();
    while b > 0 && is_whitespace(v[b - 1])
        invariant
            b <= v.len(),
            trailing_spaces(v@, v.len() as int) == (v.len() - b) + trailing_spaces(v@, b as int),
        decreases b,
    {
        b -= 1;
    }
    (a, b)
}

/// A trimmed copy of `v`.
pub fn trim(v: &Vec<char>) -> (r: Vec<char>)
    ensures
        r@ == trimmed(v@),
{
    let (a, b) = trim_bounds(v);
    copy_range(v, a, b)
}

/// The views of a list of character vectors.
pub open spec fn rows(v: Seq<Vec<char>>) -> Seq<Seq<char>> {
    Seq::new(v.len(), |i: int| v[i]@)
}

/// The pieces of `s` between the occurrences of `sep`, in order. A
/// sequence without `sep` is one piece; `sep` at the end leaves an empty
/// last piece.
pub open spec fn split_on(s: Seq<char>, sep: char) -> Seq<Seq<char>>
    decreases s.len(),
{
    if s.len() == 0 {
        seq![Seq::empty()]
    } else {
        let init = split_on(s.drop_last(), sep);
        if s.last() == sep {
            init.push(Seq::empty())
        } else {
            init.drop_last().push(init.last().push(s.last()))
        }
    }
}

/// The pieces of `v` between the occurrences of `sep`.
pub fn split(v: &Vec<char>, sep: char) -> (r: Vec<Vec<char>>)
    ensures
        rows(r@) == split_on(v@, sep),
        r.len() >= 1,
{
    let mut pieces: Vec<Vec<char>> = Vec::new();
    let mut current: Vec<char> = Vec::new();
    let mut i: usize = 0;
    proof {
        assert(v@.take(0) =~= Seq::<char>::empty());
        assert(rows(pieces@).push(current@) =~= split_on(v@.take(0), sep));
    }
    while i < v.len()
        invariant
            i <= v.len(),
            rows(pieces@).push(current@) == split_on(v@.take(i as int), sep),
        decreases v.len() - i,
    {
        let ghost before = rows(pieces@).push(current@);
        let ghost done = rows(pieces@);
        let ghost cur = current@;
        proof {
            assert(v@.take(i + 1).drop_last() =~= v@.take(i as int));
            assert(v@.take(i + 1).last() == v[i as int]);
            assert(before.drop_last() =~= done);
            assert(before.last() == cur);
        }
        if v[i] == sep {
            pieces.push(current);
            current = Vec::new();
            proof {
                assert(rows(pieces@) =~= done.push(cur));
                assert(rows(pieces@).push(current@) =~= before.push(Seq::empty()));
            }
        } else {
            current.push(v[i]);
            proof {
                assert(rows(pieces@).push(current@) =~= before.drop_last().push(
                    before.last().push(v[i as int]),
                ));
            }
        }
        i += 1;
    }
    proof {
        assert(v@.take(v.len() as int) =~= v@);
    }
    let ghost done = rows(pieces@);
    pieces.push(current);
    assert(rows(pieces@) =~= done.push(current@));
    pieces
}

/// Whether `s` starts with `prefix`.
pub open spec fn starts_with(s: Seq<char>, prefix: Seq<char>) -> bool {
    prefix.len() <= s.len() && s.subrange(0, prefix.len() as int) == prefix
}

/// Whether `s` ends with `suffix`.
pub open spec fn ends_with(s: Seq<char>, suffix: Seq<char>) -> bool {
    suffix.len() <= s.len() && s.subrange(s.len() - suffix.len(), s.len() as int) == suffix
}

/// Whether the characters of `v` from position `at` on start with `pat`.
pub fn matches_at(v: &Vec<char>, at: usize, pat: &Vec<char>) -> (r: bool)
    requires
        at <= v.len(),
    ensures
        r == (at + pat.len() <= v.len() && v@.subrange(at as int, at + pat.len()) == pat@),
{
    if pat.len() > v.len() - at {
        return false;
    }
    let mut k: usize = 0;
    while k < pat.len()
        invariant
            k <= pat.len(),
            at + pat.len() <= v.len(),
            forall|j: int| 0 <= j < k ==> v[at + j] == pat[j],
        decreases pat.len() - k,
    {
        if v[at + k] != pat[k] {
            assert(v@.subrange(at as int, at + pat.len())[k as int] != pat@[k as int]);
            return false;
        }
        k += 1;
    }
    assert(v@.subrange(at as int, at + pat.len()) =~= pat@);
    true
}

/// Whether `v` starts with `prefix`.
pub fn has_prefix(v: &Vec<char>, prefix: &Vec<char>) -> (r: bool)
    ensures
        r == starts_with(v@, prefix@),
{
    matches_at(v, 0, prefix)
}

/// Whether `v` ends with `suffix`.
pub fn has_suffix(v: &Vec<char>, suffix: &Vec<char>) -> (r: bool)
    ensures
        r == ends_with(v@, suffix@),
{
    if suffix.len() > v.len() {
        return false;
    }
    matches_at(v, v.len() - suffix.len(), suffix)
}

/// Whether `a` and `b` hold the same characters.
pub fn same_chars(a: &Vec<char>, b: &Vec<char>) -> (r: bool)
    ensures
        r == (a@ == b@),
{
    if a.len() != b.len() {
        return false;
    }
    let r = matches_at(a, 0, b);
    assert(a@.subrange(0, a.len() as int) =~= a@);
    r
}

/// The first position from `from` on at which `s` holds `c`, or
/// `s.len()` where there is none.
pub open spec fn index_from(s: Seq<char>, c: char, from: int) -> int
    decreases s.len() - from,
{
    if from < 0 || from >= s.len() {
        s.len() as int
    } else if s[from] == c {
        from
    } else {
        index_from(s, c, from + 1)
    }
}

pub proof fn lemma_index_from(s: Seq<char>, c: char, from: int)
    requires
        0 <= from <= s.len(),
    ensures
        from <= index_from(s, c, from) <= s.len(),
        index_from(s, c, from) < s.len() ==> s[index_from(s, c, from)] == c,
        forall|k: int| from <= k < index_from(s, c, from) ==> #[trigger] s[k] != c,
    decreases s.len() - from,
{
    if from < s.len() && s[from] != c {
        lemma_index_from(s, c, from + 1);
    }
}

/// The first position from `from` on at which `v` holds `c`, or
/// `v.len()`.
pub fn find_char(v: &Vec<char>, c: char, from: usize) -> (r: usize)
    requires
        from <= v.len(),
    ensures
        r == index_from(v@, c, from as int),
        from <= r <= v.len(),
{
    proof {
        lemma_index_from(v@, c, from as int);
    }
    let mut i: usize = from;
    while i < v.len() && v[i] != c
        invariant
            from <= i <= v.len(),
            index_from(v@, c, from as int) == index_from(v@, c, i as int),
        decreases v.len() - i,
    {
        i += 1;
    }
    i
}

/// Whether `v` holds `c`.
pub fn has_char(v: &Vec<char>, c: char) -> (r: bool)
    ensures
        r == v@.contains(c),
{
    proof {
        lemma_index_from(v@, c, 0);
    }
    let p = find_char(v, c, 0);
    proof {
        if p < v.len() {
            assert(v@[p as int] == c);
        } else if v@.contains(c) {
            let k = choose|k: int| 0 <= k < v@.len() && v@[k] == c;
            assert(v@[k] != c);
        }
    }
    p < v.len()
}

/// Whether `pat` stands in `s` at position `at`.
pub open spec fn stands_at(s: Seq<char>, pat: Seq<char>, at: int) -> bool {
    0 <= at && at + pat.len() <= s.len() && s.subrange(at, at + pat.len()) == pat
}

/// The first position from `from` on at which `pat` stands in `s`, or
/// `s.len() + 1` where there is none.
pub open spec fn match_from(s: Seq<char>, pat: Seq<char>, from: int) -> int
    decreases s.len() + 1 - from,
{
    if from < 0 || from + pat.len() > s.len() {
        (s.len() + 1) as int
    } else if stands_at(s, pat, from) {
        from
    } else {
        match_from(s, pat, from + 1)
    }
}

/// Whether `pat` stands somewhere in `s`.
pub open spec fn holds(s: Seq<char>, pat: Seq<char>) -> bool {
    match_from(s, pat, 0) <= s.len()
}

pub proof fn lemma_match_from(s: Seq<char>, pat: Seq<char>, from: int)
    requires
        0 <= from,
    ensures
        match_from(s, pat, from) <= s.len() ==> from <= match_from(s, pat, from) && stands_at(
            s,
            pat,
            match_from(s, pat, from),
        ),
        match_from(s, pat, from) > s.len() ==> match_from(s, pat, from) == s.len() + 1,
        forall|k: int|
            from <= k && k < match_from(s, pat, from) ==> !#[trigger] stands_at(s, pat, k),
    decreases s.len() + 1 - from,
{
    if from + pat.len() <= s.len() && !stands_at(s, pat, from) {
        lemma_match_from(s, pat, from + 1);
    }
}

/// The first position from `from` on at which `pat` stands in `v`. An
/// empty `pat` stands at `from` itself.
pub fn find_sub(v: &Vec<char>, pat: &Vec<char>, from: usize) -> (r: Option<usize>)
    requires
        from <= v.len(),
    ensures
        match r {
            Some(p) => p == match_from(v@, pat@, from as int) && from <= p && p + pat.len()
                <= v.len(),
            None => match_from(v@, pat@, from as int) == v.len() + 1,
        },
{
    proof {
        lemma_match_from(v@, pat@, from as int);
    }
    if pat.len() == 0 {
        assert(v@.subrange(from as int, from as int) =~= pat@);
        return Some(from);
    }
    if pat.len() > v.len() {
        return None;
    }
    let last = v.len() - pat.len();
    let mut i: usize = from;
    while i <= last
        invariant
            from <= i,
            last == v.len() - pat.len(),
            0 < pat.len() <= v.len(),
            match_from(v@, pat@, from as int) == match_from(v@, pat@, i as int),
        decreases last + 1 - i,
    {
        if matches_at(v, i, pat) {
            return Some(i);
        }
        i += 1;
    }
    None
}

/// Whether `pat` stands somewhere in `v`.
pub fn holds_sub(v: &Vec<char>, pat: &Vec<char>) -> (r: bool)
    ensures
        r == holds(v@, pat@),
{
    find_sub(v, pat, 0).is_some()
}

/// What follows the last of the occurrences of `pat` that a scan of `s`
/// from `from` on finds, each scan going on behind the occurrence
/// before; all of `s` from `from` on where there is none, or where
/// `pat` is empty.
pub open spec fn last_piece_from(s: Seq<char>, pat: Seq<char>, from: int) -> Seq<char>
    decreases s.len() - from,
{
    let p = match_from(s, pat, from);
    if 0 <= from && from <= p && p + pat.len() <= s.len() && pat.len() > 0 {
        last_piece_from(s, pat, p + pat.len())
    } else {
        s.skip(from)
    }
}

/// What follows the last occurrence of `pat` in `s`.
pub open spec fn last_piece(s: Seq<char>, pat: Seq<char>) -> Seq<char> {
    last_piece_from(s, pat, 0)
}

/// What follows the last occurrence of `pat` in `v`; all of `v` where
/// `pat` is empty.
pub fn after_last(v: &Vec<char>, pat: &Vec<char>) -> (r: Vec<char>)
    ensures
        r@ == last_piece(v@, pat@),
{
    if pat.len() == 0 {
        let r = copy_range(v, 0, v.len());
        assert(v@.subrange(0, v.len() as int) =~= v@.skip(0));
        return r;
    }
    let mut start: usize = 0;
    loop
        invariant
            start <= v.len(),
            pat.len() > 0,
            last_piece(v@, pat@) == last_piece_from(v@, pat@, start as int),
        decreases v.len() - start,
    {
        match find_sub(v, pat, start) {
            Some(p) => {
                start = p + pat.len();
            },
            None => {
                let r = copy_range(v, start, v.len());
                assert(v@.subrange(start as int, v.len() as int) =~= v@.skip(start as int));
                return r;
            },
        }
    }
}

/// `s` from position `i` on, with each `//` that a scan from the left
/// finds made one `/`.
pub open spec fn collapsed_from(s: Seq<char>, i: int) -> Seq<char>
    decreases s.len() - i,
{
    if i < 0 || i >= s.len() {
        Seq::empty()
    } else if i + 1 < s.len() && s[i] == '/' && s[i + 1] == '/' {
        seq!['/'] + collapsed_from(s, i + 2)
    } else {
        seq![s[i]] + collapsed_from(s, i + 1)
    }
}

/// `s` with each `//` made one `/`.
pub open spec fn collapsed(s: Seq<char>) -> Seq<char> {
    collapsed_from(s, 0)
}

/// `v` with each `//` made one `/`.
pub fn collapse_slashes(v: &Vec<char>) -> (r: Vec<char>)
    ensures
        r@ == collapsed(v@),
{
    let mut r: Vec<char> = Vec::new();
    let mut i: usize = 0;
    while i < v.len()
        invariant
            i <= v.len(),
            r@ + collapsed_from(v@, i as int) == collapsed(v@),
        decreases v.len() - i,
    {
        let ghost before = r@;
        if i + 1 < v.len() && v[i] == '/' && v[i + 1] == '/' {
            r.push('/');
            assert(r@ + collapsed_from(v@, i + 2) =~= before + (seq!['/'] + collapsed_from(
                v@,
                i + 2,
            )));
            i += 2;
        } else {
            r.push(v[i]);
            assert(r@ + collapsed_from(v@, i + 1) =~= before + (seq![v@[i as int]]
                + collapsed_from(v@, i + 1)));
            i += 1;
        }
    }
    assert(r@ + collapsed_from(v@, i as int) =~= r@);
    r
}

/// Whether `c` is one of the digits `0` to `9`.
pub open spec fn is_digit(c: char) -> bool {
    '0' <= c <= '9'
}

/// The value of the digit `c`.
pub open spec fn digit_value(c: char) -> nat {
    (c as int - '0' as int) as nat
}

/// The number that the digits `s` write.
pub open spec fn decimal_value(s: Seq<char>) -> nat
    decreases s.len(),
{
    if s.len() == 0 {
        0
    } else {
        decimal_value(s.drop_last()) * 10 + digit_value(s.last())
    }
}

/// Whether `s` holds digits only.
pub open spec fn all_digits(s: Seq<char>) -> bool {
    forall|i: int| 0 <= i < s.len() ==> is_digit(#[trigger] s[i])
}

/// The number that `digits` write, where they are digits, at least one,
/// and write no more than `limit`.
pub open spec fn number(digits: Seq<char>, limit: nat) -> Option<nat> {
    if digits.len() > 0 && all_digits(digits) && decimal_value(digits) <= limit {
        Some(decimal_value(digits))
    } else {
        None
    }
}

/// The count that `s` writes: digits, with `+` before them or not, within
/// the machine's range.
pub open spec fn count_of(s: Seq<char>) -> Option<nat> {
    if s.len() > 0 && s[0] == '+' {
        number(s.skip(1), usize::MAX as nat)
    } else {
        number(s, usize::MAX as nat)
    }
}

/// The timestamp that `s` writes: digits, with `+` or `-` before them or
/// not, within the range of `i64`.
pub open spec fn time_of(s: Seq<char>) -> Option<int> {
    if s.len() > 0 && s[0] == '-' {
        match number(s.skip(1), 0x8000_0000_0000_0000) {
            Some(n) => Some(-(n as int)),
            None => None,
        }
    } else if s.len() > 0 && s[0] == '+' {
        match number(s.skip(1), 0x7fff_ffff_ffff_ffff) {
            Some(n) => Some(n as int),
            None => None,
        }
    } else {
        match number(s, 0x7fff_ffff_ffff_ffff) {
            Some(n) => Some(n as int),
            None => None,
        }
    }
}

proof fn lemma_decimal_grows(s: Seq<char>, k: int)
    requires
        0 <= k <= s.len(),
    ensures
        decimal_value(s.take(k)) <= decimal_value(s),
    decreases s.len() - k,
{
    if k < s.len() {
        lemma_decimal_grows(s, k + 1);
        assert(s.take(k + 1).drop_last() =~= s.take(k));
    } else {
        assert(s.take(k) =~= s);
    }
}

/// The number that the characters of `v` from `from` on write.
pub fn read_number(v: &Vec<char>, from: usize, limit: u64) -> (r: Option<u64>)
    requires
        from <= v.len(),
    ensures
        match r {
            Some(n) => number(v@.skip(from as int), limit as nat) == Some(n as nat),
            None => number(v@.skip(from as int), limit as nat) is None,
        },
{
    let ghost digits = v@.skip(from as int);
    if from == v.len() {
        return None;
    }
    let mut acc: u64 = 0;
    let mut i: usize = from;
    proof {
        assert(digits.take(0) =~= Seq::<char>::empty());
    }
    while i < v.len()
        invariant
            from <= i <= v.len(),
            digits == v@.skip(from as int),
            acc == decimal_value(digits.take(i - from)),
            acc <= limit,
            forall|k: int| 0 <= k < i - from ==> is_digit(#[trigger] digits[k]),
        decreases v.len() - i,
    {
        let c = v[i];
        assert(digits[i - from] == c);
        if c < '0' || c > '9' {
            return None;
        }
        let d: u64 = (c as u32 - '0' as u32) as u64;
        proof {
            assert(digits.take(i - from + 1).drop_last() =~= digits.take(i - from));
            assert(digits.take(i - from + 1).last() == c);
            lemma_decimal_grows(digits, i - from + 1);
        }
        let wide: u128 = acc as u128 * 10 + d as u128;
        if wide > limit as u128 {
            return None;
        }
        acc = wide as u64;
        i += 1;
    }
    proof {
        assert(digits.take(v.len() - from) =~= digits);
    }
    Some(acc)
}

/// The count that `v` writes.
pub fn read_count(v: &Vec<char>) -> (r: Option<usize>)
    ensures
        match r {
            Some(n) => count_of(v@) == Some(n as nat),
            None => count_of(v@) is None,
        },
{
    let from: usize = if v.len() > 0 && v[0] == '+' {
        1
    } else {
        0
    };
    assert(v@.skip(0) =~= v@);
    match read_number(v, from, usize::MAX as u64) {
        Some(n) => Some(n as usize),
        None => None,
    }
}

/// The timestamp that `v` writes.
pub fn read_time(v: &Vec<char>) -> (r: Option<i64>)
    ensures
        match r {
            Some(n) => time_of(v@) == Some(n as int),
            None => time_of(v@) is None,
        },
{
    assert(v@.skip(0) =~= v@);
    if v.len() > 0 && v[0] == '-' {
        match read_number(v, 1, 0x8000_0000_0000_0000) {
            Some(n) => Some((-(n as i128)) as i64),
            None => None,
        }
    } else if v.len() > 0 && v[0] == '+' {
        match read_number(v, 1, 0x7fff_ffff_ffff_ffff) {
            Some(n) => Some(n as i64),
            None => None,
        }
    } else {
        match read_number(v, 0, 0x7fff_ffff_ffff_ffff) {
            Some(n) => Some(n as i64),
            None => None,
        }
    }
}

/// The character of the digit `d`.
pub open spec fn digit_char(d: nat) -> char {
    if d == 0 {
        '0'
    } else if d == 1 {
        '1'
    } else if d == 2 {
        '2'
    } else if d == 3 {
        '3'
    } else if d == 4 {
        '4'
    } else if d == 5 {
        '5'
    } else if d == 6 {
        '6'
    } else if d == 7 {
        '7'
    } else if d == 8 {
        '8'
    } else {
        '9'
    }
}

/// The digits that write `n`, without zeros in front.
pub open spec fn decimal_digits(n: nat) -> Seq<char>
    decreases n,
{
    if n < 10 {
        seq![digit_char(n)]
    } else {
        decimal_digits(n / 10).push(digit_char(n % 10))
    }
}

/// The digits behind the point that write `f` millionths, without zeros
/// at the end; at most `left` of them.
pub open spec fn fraction_digits(f: nat, left: nat) -> Seq<char>
    decreases left,
{
    if f == 0 || left == 0 {
        Seq::empty()
    } else {
        seq![digit_char(f * 10 / 1_000_000)] + fraction_digits(
            f * 10 % 1_000_000,
            (left - 1) as nat,
        )
    }
}

/// A number of millionths written as a decimal number: a `-` where it
/// lies below 0, the whole part, and, where there is one, a point and
/// the part behind it.
pub open spec fn millionths_text(v: int) -> Seq<char> {
    let m = if v < 0 {
        -v
    } else {
        v
    };
    let sign = if v < 0 {
        seq!['-']
    } else {
        Seq::empty()
    };
    let whole = decimal_digits((m / 1_000_000) as nat);
    if m % 1_000_000 == 0 {
        sign + whole
    } else {
        sign + whole + seq!['.'] + fraction_digits((m % 1_000_000) as nat, 6)
    }
}

/// The character of the digit `d`.
pub fn digit_of(d: u64) -> (r: char)
    requires
        d < 10,
    ensures
        r == digit_char(d as nat),
{
    if d == 0 {
        '0'
    } else if d == 1 {
        '1'
    } else if d == 2 {
        '2'
    } else if d == 3 {
        '3'
    } else if d == 4 {
        '4'
    } else if d == 5 {
        '5'
    } else if d == 6 {
        '6'
    } else if d == 7 {
        '7'
    } else if d == 8 {
        '8'
    } else {
        '9'
    }
}

/// Appends the digits that write `n`.
pub fn push_digits(out: &mut Vec<char>, n: u64)
    ensures
        final(out)@ == old(out)@ + decimal_digits(n as nat),
    decreases n,
{
    if n >= 10 {
        push_digits(out, n / 10);
    }
    out.push(digit_of(n % 10));
    proof {
        if n >= 10 {
            assert(out@ =~= old(out)@ + decimal_digits((n / 10) as nat).push(
                digit_char((n % 10) as nat),
            ));
        } else {
            assert(out@ =~= old(out)@ + seq![digit_char(n as nat)]);
        }
    }
}

/// A number of millionths written as a decimal number.
pub fn write_millionths(v: i64) -> (r: String)
    ensures
        r@ == millionths_text(v as int),
{
    let m: u64 = if v < 0 {
        (-(v as i128)) as u64
    } else {
        v as u64
    };
    let mut out: Vec<char> = Vec::new();
    if v < 0 {
        out.push('-');
    }
    push_digits(&mut out, m / 1_000_000);
    let mut f: u64 = m % 1_000_000;
    if f != 0 {
        out.push('.');
        let ghost head = out@;
        let ghost whole = fraction_digits(f as nat, 6);
        let mut left: usize = 6;
        while f != 0 && left > 0
            invariant
                f < 1_000_000,
                left <= 6,
                out@ + fraction_digits(f as nat, left as nat) == head + whole,
            decreases left,
        {
            let ghost before = out@;
            let d = f * 10 / 1_000_000;
            out.push(digit_of(d));
            f = f * 10 % 1_000_000;
            left -= 1;
            assert(out@ + fraction_digits(f as nat, left as nat) =~= before + (seq![
                digit_char(d as nat),
            ] + fraction_digits(f as nat, left as nat)));
        }
        assert(out@ + fraction_digits(f as nat, left as nat) =~= out@);
        assert(out@ =~= millionths_text(v as int));
    } else {
        assert(out@ =~= millionths_text(v as int));
    }
    string_of(&out)
}

/// `s` in lower case, as `str::to_lowercase` gives it.
pub uninterp spec fn lowercase(s: Seq<char>) -> Seq<char>;

/// `str::to_lowercase`: the lower-case form of `s`, which is the one
/// that `lowercase` names.
#[verifier::external_body]
pub(crate) fn to_lowercase(s: &str) -> (r: String)
    ensures
        r@ == lowercase(s@),
{
    s.to_lowercase()
}

/// Whether `a` comes before `b` in the order of strings, decided from
/// position `k` on: at the first position where they differ the smaller
/// code point wins, and a proper prefix comes first.
pub open spec fn precedes_from(a: Seq<char>, b: Seq<char>, k: int) -> bool
    decreases a.len() - k,
{
    if k < 0 || k >= b.len() {
        false
    } else if k >= a.len() {
        true
    } else if a[k] != b[k] {
        a[k] < b[k]
    } else {
        precedes_from(a, b, k + 1)
    }
}

/// Whether `a` comes strictly before `b` in the order of strings.
pub open spec fn precedes(a: Seq<char>, b: Seq<char>) -> bool {
    precedes_from(a, b, 0)
}

pub proof fn lemma_precedes_from(a: Seq<char>, b: Seq<char>, k: int)
    requires
        0 <= k <= a.len(),
        k <= b.len(),
        forall|i: int| 0 <= i < k ==> a[i] == b[i],
    ensures
        a != b ==> precedes_from(a, b, k) || precedes_from(b, a, k),
        !(precedes_from(a, b, k) && precedes_from(b, a, k)),
        a == b ==> !precedes_from(a, b, k),
    decreases a.len() - k,
{
    if k >= b.len() || k >= a.len() {
        if a.len() == b.len() {
            assert(a =~= b);
        }
    } else if a[k] == b[k] {
        lemma_precedes_from(a, b, k + 1);
    } else {
        assert(a[k] < b[k] || b[k] < a[k]);
    }
}

/// Of two different strings exactly one comes before the other, and no
/// string comes before itself.
pub proof fn lemma_precedes_total(a: Seq<char>, b: Seq<char>)
    ensures
        a != b ==> precedes(a, b) || precedes(b, a),
        !(precedes(a, b) && precedes(b, a)),
        a == b ==> !precedes(a, b),
{
    lemma_precedes_from(a, b, 0);
}

/// Whether `a` comes strictly before `b` in the order of strings.
pub fn sorts_before(a: &String, b: &String) -> (r: bool)
    ensures
        r == precedes(a@, b@),
{
    let x = chars_of(a.as_str());
    let y = chars_of(b.as_str());
    let mut k: usize = 0;
    loop
        invariant
            x@ == a@,
            y@ == b@,
            k <= x.len(),
            k <= y.len(),
            precedes(a@, b@) == precedes_from(a@, b@, k as int),
        decreases x.len() - k,
    {
        if k >= y.len() {
            return false;
        }
        if k >= x.len() {
            return true;
        }
        if x[k] != y[k] {
            return x[k] < y[k];
        }
        k += 1;
    }
}

} // verus!
