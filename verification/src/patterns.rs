//! Regular expressions, compiled and matched by the `regex` crate.
//!
//! What a pattern matches is not proved here: it is named by the
//! functions `regex_compiles`, `regex_is_match` and `regex_replace`, and
//! the contracts of this library are stated over those names.

use vstd::prelude::*;

verus! {

/// `regex::Regex`, a compiled regular expression. Nothing of its inside
/// is known here.
#[verifier::external_type_specification]
#[verifier::external_body]
pub struct ExRegex(regex::Regex);

/// `regex::Error`, the reason for which a pattern did not compile.
/// Nothing of its inside is known here.
#[verifier::external_type_specification]
#[verifier::external_body]
pub struct ExRegexError(regex::Error);

/// Whether `regex::Regex::new` accepts `source`.
pub uninterp spec fn regex_compiles(source: Seq<char>) -> bool;

/// Whether the regular expression `source` matches anywhere in `haystack`.
pub uninterp spec fn regex_is_match(source: Seq<char>, haystack: Seq<char>) -> bool;

/// `haystack` with the leftmost match of the regular expression `source`
/// replaced by the expansion of `replacement`.
pub uninterp spec fn regex_replace(
    source: Seq<char>,
    haystack: Seq<char>,
    replacement: Seq<char>,
) -> Seq<char>;

/// A pattern that did not compile.
#[derive(Debug)]
pub struct PatternError {
    pub pattern: String,
}

/// A compiled regular expression together with the text it was compiled
/// from. `Pattern::new` is the only way to make one, so the two always
/// belong together.
pub struct Pattern {
    source: String,
    compiled: regex::Regex,
}

impl View for Pattern {
    type V = Seq<char>;

    /// The text the pattern was compiled from.
    closed spec fn view(&self) -> Seq<char> {
        self.source@
    }
}

/// `regex::Regex::new`: compiles `source`. It succeeds exactly where
/// `regex_compiles` says so.
#[verifier::external_body]
fn compile(source: &str) -> (r: Result<regex::Regex, regex::Error>)
    ensures
        r is Ok <==> regex_compiles(source@),
{
    regex::Regex::new(source)
}

/// `regex::Regex::is_match`: whether the pattern matches anywhere in
/// `haystack`. The result is the one that `regex_is_match` names for the
/// pattern's text and the haystack.
#[verifier::external_body]
fn is_match(pattern: &Pattern, haystack: &str) -> (r: bool)
    ensures
        r == regex_is_match(pattern@, haystack@),
{
    pattern.compiled.is_match(haystack)
}

/// `regex::Regex::replace`: `haystack` with the leftmost match replaced
/// by the expansion of `replacement`, and unchanged where nothing
/// matches. The result is the one that `regex_replace` names.
#[verifier::external_body]
fn replace(pattern: &Pattern, haystack: &str, replacement: &str) -> (r: String)
    ensures
        r@ == regex_replace(pattern@, haystack@, replacement@),
{
    pattern.compiled.replace(haystack, replacement).into_owned()
}

impl Pattern {
    /// Compiles `source`.
    pub fn new(source: &str) -> (r: Result<Pattern, PatternError>)
        ensures
            r is Ok <==> regex_compiles(source@),
            r matches Ok(p) ==> p@ == source@,
            r matches Err(e) ==> e.pattern@ == source@,
    {
        match compile(source) {
            Ok(compiled) => Ok(Pattern { source: source.to_owned(), compiled }),
            Err(_) => Err(PatternError { pattern: source.to_owned() }),
        }
    }

    /// Whether the pattern matches anywhere in `haystack`.
    pub fn matches(&self, haystack: &str) -> (r: bool)
        ensures
            r == regex_is_match(self@, haystack@),
    {
        is_match(self, haystack)
    }

    /// `haystack` with the leftmost match replaced by the expansion of
    /// `replacement`.
    pub fn replace_first(&self, haystack: &str, replacement: &str) -> (r: String)
        ensures
            r@ == regex_replace(self@, haystack@, replacement@),
    {
        replace(self, haystack, replacement)
    }
}

} // verus!
