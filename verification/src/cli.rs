//! The decisions of a command-line front end that do not touch the file
//! system or the terminal: names of output files, which directories a
//! search for repositories passes over, and how answers are read.

use vstd::prelude::*;
use crate::file_map::find_name;
use crate::text::{chars_of, lowercase, string_of, to_lowercase, trim, trimmed};
use crate::types::names;

verus! {

/// Whether `c` is a letter or a digit, as `char::is_alphanumeric` has it.
pub uninterp spec fn alphanumeric(c: char) -> bool;

/// `char::is_alphanumeric`: whether `c` is a letter or a digit, which is
/// what `alphanumeric` names.
#[verifier::external_body]
fn is_alphanumeric(c: char) -> (r: bool)
    ensures
        r == alphanumeric(c),
{
    c.is_alphanumeric()
}

/// The character that stands for `c` in a file name: `c` itself where
/// `letter` says that it is a letter or a digit, or where it is `-` or
/// `_`; else `-`.
pub open spec fn safe_char(c: char, letter: bool) -> char {
    if letter || c == '-' || c == '_' {
        c
    } else {
        '-'
    }
}

/// A name with every character that is not safe in a file name made `-`.
pub open spec fn sanitized(name: Seq<char>) -> Seq<char> {
    Seq::new(name.len(), |i: int| safe_char(name[i], alphanumeric(name[i])))
}

/// The character that stands for `c` in a file name.
pub fn sanitize_char(c: char, letter: bool) -> (r: char)
    ensures
        r == safe_char(c, letter),
{
    if letter || c == '-' || c == '_' {
        c
    } else {
        '-'
    }
}

/// `name` with every character that is not safe in a file name made `-`.
pub fn sanitize_name(name: &str) -> (r: String)
    ensures
        r@ == sanitized(name@),
{
    let v = chars_of(name);
    let mut out: Vec<char> = Vec::new();
    let mut i: usize = 0;
    while i < v.len()
        invariant
            i <= v.len(),
            v@ == name@,
            out.len() == i,
            forall|k: int| 0 <= k < i ==> out[k] == sanitized(name@)[k],
        decreases v.len() - i,
    {
        out.push(sanitize_char(v[i], is_alphanumeric(v[i])));
        i += 1;
    }
    assert(out@ =~= sanitized(name@));
    string_of(&out)
}

/// The name of the output file of one repository among several: the stem
/// of the base name, the name of the repository made safe, and the
/// extension of the base name. A base name without a stem counts as
/// `hotspot`, one without an extension as `html`.
pub open spec fn output_name(
    stem: Option<Seq<char>>,
    extension: Option<Seq<char>>,
    repo_name: Seq<char>,
) -> Seq<char> {
    let s = match stem {
        Some(x) => x,
        None => "hotspot"@,
    };
    let e = match extension {
        Some(x) => x,
        None => "html"@,
    };
    s + "-"@ + sanitized(repo_name) + "."@ + e
}

/// The name of the output file of the repository `repo_name`, from the
/// stem and the extension of the base name.
pub fn make_output_path(stem: Option<&str>, extension: Option<&str>, repo_name: &str) -> (r: String)
    ensures
        r@ == output_name(
            match stem {
                Some(x) => Some(x@),
                None => None,
            },
            match extension {
                Some(x) => Some(x@),
                None => None,
            },
            repo_name@,
        ),
{
    let mut out: String = match stem {
        Some(x) => x.to_owned(),
        None => "hotspot".to_owned(),
    };
    out.append("-");
    out.append(sanitize_name(repo_name).as_str());
    out.append(".");
    match extension {
        Some(x) => out.append(x),
        None => out.append("html"),
    }
    out
}

/// A search for repositories goes no deeper than this.
pub const MAX_SCAN_DEPTH: usize = 6;

/// The directories that a search for repositories passes over.
pub open spec fn skipped_dir_names() -> Seq<&'static str> {
    seq![
        "node_modules",
        "vendor",
        "target",
        "dist",
        "build",
        ".cache",
        ".git",
        "__pycache__",
        ".npm",
        ".yarn",
    ]
}

/// Whether a search for repositories passes over the directory `name`:
/// it is hidden, or one of those that hold no sources of their own.
pub open spec fn is_skipped(name: Seq<char>) -> bool {
    (name.len() > 0 && name[0] == '.') || crate::filters::str_views(skipped_dir_names()).contains(
        name,
    )
}

/// Whether a search for repositories passes over the directory `name`.
pub fn skips_directory(name: &str) -> (r: bool)
    ensures
        r == is_skipped(name@),
{
    let v = chars_of(name);
    if v.len() > 0 && v[0] == '.' {
        return true;
    }
    let list: Vec<&'static str> = vec![
        "node_modules",
        "vendor",
        "target",
        "dist",
        "build",
        ".cache",
        ".git",
        "__pycache__",
        ".npm",
        ".yarn",
    ];
    let mut i: usize = 0;
    while i < list.len()
        invariant
            i <= list.len(),
            v@ == name@,
            list@ == skipped_dir_names(),
            forall|k: int| 0 <= k < i ==> crate::filters::str_views(list@)[k] != name@,
        decreases list.len() - i,
    {
        if crate::text::same_chars(&chars_of(list[i]), &v) {
            assert(crate::filters::str_views(list@)[i as int] == name@);
            return true;
        }
        i += 1;
    }
    false
}

/// Whether a search may go into a directory at depth `depth`.
pub fn within_scan_depth(depth: usize) -> (r: bool)
    ensures
        r == (depth <= MAX_SCAN_DEPTH),
{
    depth <= MAX_SCAN_DEPTH
}

/// Whether an answer, given in lower case and trimmed, says yes.
pub open spec fn says_yes(lowered: Seq<char>) -> bool {
    lowered == "yes"@ || lowered == "y"@
}

/// Whether an answer, given in lower case and trimmed, says yes.
pub fn answer_is_yes(lowered: &str) -> (r: bool)
    ensures
        r == says_yes(lowered@),
{
    let low = lowered.to_owned();
    low == "yes".to_owned() || low == "y".to_owned()
}

/// Whether the answer `answer` says yes: `yes` or `y`, whatever the case
/// and the white space around it.
pub fn is_yes(answer: &str) -> (r: bool)
    ensures
        r == says_yes(lowercase(trimmed(answer@))),
{
    let t = string_of(&trim(&chars_of(answer)));
    let low = to_lowercase(t.as_str());
    answer_is_yes(low.as_str())
}

} // verus!
