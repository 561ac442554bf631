//! The file filter: keeps the paths that are worth analysing.
//!
//! Dependency manifests, build output, binaries and the like change for
//! reasons that say nothing about defects. Sensitive files are not
//! removed here: the security scan reports them on its own.

use vstd::prelude::*;
use crate::config::{FilterOverrides, OverridesView};
use crate::file_map::{clone_names, find_name};
use crate::text::{
    chars_of, ends_with, has_prefix, has_suffix, lowercase, rows, same_chars, split,
    split_on, starts_with, string_of, to_lowercase,
};
use crate::types::names;

verus! {

/// The views of a list of string slices.
pub open spec fn str_views(v: Seq<&'static str>) -> Seq<Seq<char>> {
    Seq::new(v.len(), |i: int| v[i]@)
}

/// The built-in noise directories.
pub open spec fn builtin_dir_names() -> Seq<&'static str> {
    seq![
        "node_modules",
        ".git",
        "vendor",
        "dist",
        "build",
        "coverage",
        ".nyc_output",
        "__pycache__",
        ".pytest_cache",
        "venv",
        ".venv",
        "env",
        ".next",
        ".nuxt",
        "target",
        "out",
        ".cache",
        ".turbo",
        ".parcel-cache",
        "public",
        "static",
    ]
}

/// The built-in noise file names: dependency manifests, lock files,
/// tool settings and files that the operating system leaves behind.
pub open spec fn builtin_file_names() -> Seq<&'static str> {
    seq![
        "package.json",
        "package-lock.json",
        "yarn.lock",
        "pnpm-lock.yaml",
        "composer.lock",
        "Gemfile.lock",
        "Pipfile.lock",
        "poetry.lock",
        "go.sum",
        "Cargo.lock",
        "packages.lock.json",
        "npm-shrinkwrap.json",
        ".gitignore",
        ".gitattributes",
        ".editorconfig",
        ".eslintrc",
        ".prettierrc",
        ".browserslistrc",
        "CHANGELOG.md",
        "CHANGELOG",
        ".DS_Store",
        "Thumbs.db",
    ]
}

/// The built-in noise endings, in lower case.
pub open spec fn builtin_ending_names() -> Seq<&'static str> {
    seq![
        ".lock",
        ".map",
        ".snap",
        ".png",
        ".jpg",
        ".jpeg",
        ".gif",
        ".svg",
        ".ico",
        ".webp",
        ".avif",
        ".woff",
        ".woff2",
        ".ttf",
        ".eot",
        ".otf",
        ".mp4",
        ".mp3",
        ".wav",
        ".ogg",
        ".webm",
        ".pdf",
        ".zip",
        ".tar",
        ".gz",
        ".bz2",
        ".xz",
        ".7z",
        ".dmg",
        ".exe",
        ".min.js",
        ".min.css",
    ]
}

pub open spec fn builtin_dirs() -> Seq<Seq<char>> {
    str_views(builtin_dir_names())
}

pub open spec fn builtin_filenames() -> Seq<Seq<char>> {
    str_views(builtin_file_names())
}

pub open spec fn builtin_extensions() -> Seq<Seq<char>> {
    str_views(builtin_ending_names())
}

/// `scope` with a `/` at its end.
pub open spec fn with_slash(scope: Seq<char>) -> Seq<char> {
    if scope.len() > 0 && scope.last() == '/' {
        scope
    } else {
        scope.push('/')
    }
}

/// Whether `path` lies within `scope`: it is the scope itself or lies
/// below it. Without a scope every path does.
pub open spec fn in_scope(path: Seq<char>, scope: Option<Seq<char>>) -> bool {
    match scope {
        None => true,
        Some(s) => path == s || starts_with(path, with_slash(s)),
    }
}

/// Whether a path segment names a noise directory.
pub open spec fn is_noise_dir(segment: Seq<char>, o: OverridesView) -> bool {
    (builtin_dirs().contains(segment) && !o.allow_dirs.contains(segment))
        || o.extra_exclude_dirs.contains(segment)
}

/// Whether some segment of the path names a noise directory.
pub open spec fn under_noise_dir(segments: Seq<Seq<char>>, o: OverridesView) -> bool {
    exists|i: int| 0 <= i < segments.len() && is_noise_dir(#[trigger] segments[i], o)
}

/// Whether a file name is a noise file name.
pub open spec fn is_noise_name(name: Seq<char>, o: OverridesView) -> bool {
    builtin_filenames().contains(name) || o.extra_exclude_files.contains(name)
}

/// Whether `name` ends with one of `endings`.
pub open spec fn ends_with_any(name: Seq<char>, endings: Seq<Seq<char>>) -> bool {
    exists|i: int| 0 <= i < endings.len() && ends_with(name, #[trigger] endings[i])
}

/// Each of `endings` in lower case.
pub open spec fn lowered_all(endings: Seq<Seq<char>>) -> Seq<Seq<char>> {
    Seq::new(endings.len(), |i: int| lowercase(endings[i]))
}

/// Whether a path is noise, given the lower-case form of its file name
/// and the lower-case forms of the caller's endings.
pub open spec fn noise_given(
    path: Seq<char>,
    lowered: Seq<char>,
    extra_endings: Seq<Seq<char>>,
    o: OverridesView,
) -> bool {
    let segments = split_on(path, '/');
    ||| under_noise_dir(segments, o)
    ||| is_noise_name(segments.last(), o)
    ||| ends_with_any(lowered, builtin_extensions())
    ||| ends_with_any(lowered, extra_endings)
}

/// Whether a path is noise: one of its segments names a noise directory,
/// its file name is a noise file name, or its file name has a noise
/// ending, whatever the case of either.
pub open spec fn is_noise(path: Seq<char>, o: OverridesView) -> bool {
    noise_given(
        path,
        lowercase(split_on(path, '/').last()),
        lowered_all(o.extra_exclude_extensions),
        o,
    )
}

/// Whether the filter keeps `path`.
pub open spec fn keeps(path: Seq<char>, scope: Option<Seq<char>>, o: OverridesView) -> bool {
    in_scope(path, scope) && !is_noise(path, o)
}

/// The paths among the first `upto` that the filter keeps, in order.
pub open spec fn kept(
    paths: Seq<Seq<char>>,
    scope: Option<Seq<char>>,
    o: OverridesView,
    upto: int,
) -> Seq<Seq<char>>
    decreases upto,
{
    if upto <= 0 {
        Seq::empty()
    } else if keeps(paths[upto - 1], scope, o) {
        kept(paths, scope, o, upto - 1).push(paths[upto - 1])
    } else {
        kept(paths, scope, o, upto - 1)
    }
}

/// The filter only drops paths: what it keeps was there, in scope and
/// not noise.
pub proof fn lemma_kept(paths: Seq<Seq<char>>, scope: Option<Seq<char>>, o: OverridesView, upto: int)
    requires
        0 <= upto <= paths.len(),
    ensures
        kept(paths, scope, o, upto).len() <= upto,
        forall|k: int|
            0 <= k < kept(paths, scope, o, upto).len() ==> keeps(
                #[trigger] kept(paths, scope, o, upto)[k],
                scope,
                o,
            ) && paths.take(upto).contains(kept(paths, scope, o, upto)[k]),
        forall|i: int|
            0 <= i < upto && keeps(paths[i], scope, o) ==> kept(paths, scope, o, upto).contains(
                #[trigger] paths[i],
            ),
    decreases upto,
{
    if upto > 0 {
        lemma_kept(paths, scope, o, upto - 1);
        let prev = kept(paths, scope, o, upto - 1);
        let now = kept(paths, scope, o, upto);
        assert forall|k: int| 0 <= k < now.len() implies keeps(#[trigger] now[k], scope, o)
            && paths.take(upto).contains(now[k]) by {
            if k < prev.len() {
                let shorter = paths.take(upto - 1);
                assert(shorter.contains(prev[k]));
                let j = choose|j: int| 0 <= j < shorter.len() && shorter[j] == prev[k];
                assert(paths.take(upto)[j] == prev[k]);
            } else {
                assert(paths.take(upto)[upto - 1] == paths[upto - 1]);
            }
        }
        assert forall|i: int| 0 <= i < upto && keeps(paths[i], scope, o) implies now.contains(
            #[trigger] paths[i],
        ) by {
            if i < upto - 1 {
                assert(prev.contains(paths[i]));
                let j = choose|j: int| 0 <= j < prev.len() && prev[j] == paths[i];
                assert(now[j] == paths[i]);
            } else {
                assert(now[now.len() - 1] == paths[i]);
            }
        }
    }
}

/// The filter keeps the order: of two paths that it keeps, the one that
/// came first still comes first. So it keeps a list without repetition
/// without repetition.
pub proof fn lemma_kept_distinct(
    paths: Seq<Seq<char>>,
    scope: Option<Seq<char>>,
    o: OverridesView,
    upto: int,
)
    requires
        0 <= upto <= paths.len(),
        crate::file_map::distinct(paths),
    ensures
        crate::file_map::distinct(kept(paths, scope, o, upto)),
    decreases upto,
{
    if upto > 0 {
        lemma_kept_distinct(paths, scope, o, upto - 1);
        lemma_kept(paths, scope, o, upto - 1);
        let prev = kept(paths, scope, o, upto - 1);
        let now = kept(paths, scope, o, upto);
        assert forall|i: int, j: int| 0 <= i < j < now.len() implies now[i] != now[j] by {
            if j < prev.len() {
                assert(prev[i] != prev[j]);
            } else {
                let shorter = paths.take(upto - 1);
                assert(shorter.contains(prev[i]));
                let k = choose|k: int| 0 <= k < shorter.len() && shorter[k] == prev[i];
                assert(paths[k] != paths[upto - 1]);
            }
        }
    }
}

/// Owned copies of a list of string slices.
fn owned(list: &Vec<&'static str>) -> (r: Vec<String>)
    ensures
        names(r@) == str_views(list@),
{
    let mut r: Vec<String> = Vec::new();
    let mut i: usize = 0;
    while i < list.len()
        invariant
            i <= list.len(),
            r.len() == i,
            forall|k: int| 0 <= k < i ==> r[k]@ == list[k]@,
        decreases list.len() - i,
    {
        r.push(list[i].to_owned());
        i += 1;
    }
    assert(names(r@) =~= str_views(list@));
    r
}

/// The characters of each string of a list.
fn char_rows(list: &[String]) -> (r: Vec<Vec<char>>)
    ensures
        rows(r@) == names(list@),
{
    let mut r: Vec<Vec<char>> = Vec::new();
    let mut i: usize = 0;
    while i < list.len()
        invariant
            i <= list.len(),
            r.len() == i,
            forall|k: int| 0 <= k < i ==> r[k]@ == list[k]@,
        decreases list.len() - i,
    {
        r.push(chars_of(list[i].as_str()));
        i += 1;
    }
    assert(rows(r@) =~= names(list@));
    r
}

/// The lower-case form of each string of a list, as characters.
fn lowered_rows(list: &Vec<String>) -> (r: Vec<Vec<char>>)
    ensures
        rows(r@) == lowered_all(names(list@)),
{
    let mut r: Vec<Vec<char>> = Vec::new();
    let mut i: usize = 0;
    while i < list.len()
        invariant
            i <= list.len(),
            r.len() == i,
            forall|k: int| 0 <= k < i ==> r[k]@ == lowercase(list[k]@),
        decreases list.len() - i,
    {
        r.push(chars_of(to_lowercase(list[i].as_str()).as_str()));
        i += 1;
    }
    assert(rows(r@) =~= lowered_all(names(list@)));
    r
}

/// The lists that decide what is noise: the built-in ones and the
/// caller's changes to them.
pub struct NoiseRules {
    dirs: Vec<String>,
    allow_dirs: Vec<String>,
    extra_dirs: Vec<String>,
    filenames: Vec<String>,
    extra_files: Vec<String>,
    extensions: Vec<Vec<char>>,
    extra_extensions: Vec<String>,
    extra_lowered: Vec<Vec<char>>,
}

impl View for NoiseRules {
    type V = OverridesView;

    /// The caller's changes to the built-in lists.
    closed spec fn view(&self) -> OverridesView {
        OverridesView {
            extra_exclude_dirs: names(self.extra_dirs@),
            allow_dirs: names(self.allow_dirs@),
            extra_exclude_files: names(self.extra_files@),
            extra_exclude_extensions: names(self.extra_extensions@),
        }
    }
}

impl NoiseRules {
    /// The built-in lists are the built-in ones, and the caller's
    /// endings are at hand in lower case.
    pub closed spec fn wf(&self) -> bool {
        &&& names(self.dirs@) == builtin_dirs()
        &&& names(self.filenames@) == builtin_filenames()
        &&& rows(self.extensions@) == builtin_extensions()
        &&& rows(self.extra_lowered@) == lowered_all(names(self.extra_extensions@))
    }

    /// The caller's endings in lower case.
    pub closed spec fn extra_endings(&self) -> Seq<Seq<char>> {
        rows(self.extra_lowered@)
    }

    /// The built-in lists with the changes of `o`.
    pub fn new(o: &FilterOverrides) -> (r: NoiseRules)
        ensures
            r.wf(),
            r@ == o@,
            r.extra_endings() == lowered_all(o@.extra_exclude_extensions),
    {
        let dirs = owned(
            &vec![
                "node_modules",
                ".git",
                "vendor",
                "dist",
                "build",
                "coverage",
                ".nyc_output",
                "__pycache__",
                ".pytest_cache",
                "venv",
                ".venv",
                "env",
                ".next",
                ".nuxt",
                "target",
                "out",
                ".cache",
                ".turbo",
                ".parcel-cache",
                "public",
                "static",
            ],
        );
        let filenames = owned(
            &vec![
                "package.json",
                "package-lock.json",
                "yarn.lock",
                "pnpm-lock.yaml",
                "composer.lock",
                "Gemfile.lock",
                "Pipfile.lock",
                "poetry.lock",
                "go.sum",
                "Cargo.lock",
                "packages.lock.json",
                "npm-shrinkwrap.json",
                ".gitignore",
                ".gitattributes",
                ".editorconfig",
                ".eslintrc",
                ".prettierrc",
                ".browserslistrc",
                "CHANGELOG.md",
                "CHANGELOG",
                ".DS_Store",
                "Thumbs.db",
            ],
        );
        let endings = owned(
            &vec![
                ".lock",
                ".map",
                ".snap",
                ".png",
                ".jpg",
                ".jpeg",
                ".gif",
                ".svg",
                ".ico",
                ".webp",
                ".avif",
                ".woff",
                ".woff2",
                ".ttf",
                ".eot",
                ".otf",
                ".mp4",
                ".mp3",
                ".wav",
                ".ogg",
                ".webm",
                ".pdf",
                ".zip",
                ".tar",
                ".gz",
                ".bz2",
                ".xz",
                ".7z",
                ".dmg",
                ".exe",
                ".min.js",
                ".min.css",
            ],
        );
        NoiseRules {
            dirs,
            allow_dirs: clone_names(&o.allow_dirs),
            extra_dirs: clone_names(&o.extra_exclude_dirs),
            filenames,
            extra_files: clone_names(&o.extra_exclude_files),
            extensions: char_rows(&endings),
            extra_extensions: clone_names(&o.extra_exclude_extensions),
            extra_lowered: lowered_rows(&o.extra_exclude_extensions),
        }
    }
}

/// Whether `name` ends with one of `endings`.
pub fn has_any_suffix(name: &Vec<char>, endings: &Vec<Vec<char>>) -> (r: bool)
    ensures
        r == ends_with_any(name@, rows(endings@)),
{
    let mut i: usize = 0;
    while i < endings.len()
        invariant
            i <= endings.len(),
            forall|k: int| 0 <= k < i ==> !ends_with(name@, #[trigger] rows(endings@)[k]),
        decreases endings.len() - i,
    {
        if has_suffix(name, &endings[i]) {
            assert(ends_with(name@, rows(endings@)[i as int]));
            return true;
        }
        i += 1;
    }
    false
}

/// Whether the path `path` is noise, given the lower-case form of its
/// file name.
pub fn is_noise_given(rules: &NoiseRules, path: &Vec<char>, lowered: &Vec<char>) -> (r: bool)
    requires
        rules.wf(),
    ensures
        r == noise_given(path@, lowered@, rules.extra_endings(), rules@),
{
    let segments = split(path, '/');
    let ghost segs = split_on(path@, '/');
    let mut i: usize = 0;
    while i < segments.len()
        invariant
            rules.wf(),
            i <= segments.len(),
            rows(segments@) == segs,
            segs == split_on(path@, '/'),
            forall|k: int| 0 <= k < i ==> !is_noise_dir(#[trigger] segs[k], rules@),
        decreases segments.len() - i,
    {
        let segment = string_of(&segments[i]);
        assert(segs[i as int] == segment@);
        let builtin = find_name(&rules.dirs, &segment).is_some();
        let allowed = find_name(&rules.allow_dirs, &segment).is_some();
        let extra = find_name(&rules.extra_dirs, &segment).is_some();
        if (builtin && !allowed) || extra {
            assert(is_noise_dir(segs[i as int], rules@));
            assert(under_noise_dir(segs, rules@));
            return true;
        }
        i += 1;
    }
    assert(!under_noise_dir(segs, rules@));
    let last = &segments[segments.len() - 1];
    let name = string_of(last);
    assert(segs.last() == name@);
    if find_name(&rules.filenames, &name).is_some() || find_name(&rules.extra_files, &name).is_some() {
        return true;
    }
    has_any_suffix(lowered, &rules.extensions) || has_any_suffix(lowered, &rules.extra_lowered)
}

/// Whether the path `path` is noise.
pub fn is_noise_path(rules: &NoiseRules, path: &Vec<char>) -> (r: bool)
    requires
        rules.wf(),
    ensures
        r == is_noise(path@, rules@),
{
    let segments = split(path, '/');
    let name = string_of(&segments[segments.len() - 1]);
    assert(name@ == split_on(path@, '/').last());
    let lowered = chars_of(to_lowercase(name.as_str()).as_str());
    is_noise_given(rules, path, &lowered)
}

/// Whether `path` lies within `scope`.
pub fn is_in_scope(path: &Vec<char>, scope: &Option<Vec<char>>) -> (r: bool)
    ensures
        r == in_scope(
            path@,
            match scope {
                Some(s) => Some(s@),
                None => None,
            },
        ),
{
    match scope {
        None => true,
        Some(s) => {
            if same_chars(path, s) {
                return true;
            }
            if s.len() > 0 && s[s.len() - 1] == '/' {
                has_prefix(path, s)
            } else {
                let mut slashed = s.clone();
                slashed.push('/');
                has_prefix(path, &slashed)
            }
        },
    }
}

/// The view of an optional scope.
pub open spec fn scope_view(scope: Option<&str>) -> Option<Seq<char>> {
    match scope {
        Some(s) => Some(s@),
        None => None,
    }
}

/// Keeps the paths that lie within `path_filter` and are not noise under
/// the built-in lists as `overrides` change them. The order of the paths
/// stays.
pub fn filter_files_with(
    files: &[String],
    path_filter: Option<&str>,
    overrides: &FilterOverrides,
) -> (r: Vec<String>)
    ensures
        names(r@) == kept(names(files@), scope_view(path_filter), overrides@, files.len() as int),
{
    let rules = NoiseRules::new(overrides);
    let scope: Option<Vec<char>> = match path_filter {
        Some(s) => Some(chars_of(s)),
        None => None,
    };
    let ghost paths = names(files@);
    let ghost sv = scope_view(path_filter);
    let mut out: Vec<String> = Vec::new();
    let mut i: usize = 0;
    assert(names(out@) =~= kept(paths, sv, overrides@, 0));
    while i < files.len()
        invariant
            rules.wf(),
            rules@ == overrides@,
            rules.extra_endings() == lowered_all(overrides@.extra_exclude_extensions),
            i <= files.len(),
            paths == names(files@),
            sv == scope_view(path_filter),
            sv == match scope {
                Some(s) => Some(s@),
                None => None,
            },
            names(out@) == kept(paths, sv, overrides@, i as int),
        decreases files.len() - i,
    {
        let path = chars_of(files[i].as_str());
        assert(paths[i as int] == path@);
        if is_in_scope(&path, &scope) && !is_noise_path(&rules, &path) {
            let ghost before = names(out@);
            out.push(files[i].clone());
            assert(names(out@) =~= before.push(paths[i as int]));
        }
        i += 1;
    }
    out
}

/// Keeps the paths that lie within `path_filter` and are not noise under
/// the built-in lists. The order of the paths stays.
pub fn filter_files(files: &[String], path_filter: Option<&str>) -> (r: Vec<String>)
    ensures
        names(r@) == kept(
            names(files@),
            scope_view(path_filter),
            OverridesView::none(),
            files.len() as int,
        ),
{
    let overrides = FilterOverrides::none();
    filter_files_with(files, path_filter, &overrides)
}

} // verus!
