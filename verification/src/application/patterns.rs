//! Patterns of files, as in ignore files.

use crate::paths::{written, FilePath, PathPartModel};
use crate::text::{starts_with, strip_prefix, without_prefix};
use vstd::prelude::*;

verus! {

/// Whether the `ignore` crate takes a path below `root` for ignored where `pattern` is the
/// only line of an ignore file at `root`.
pub uninterp spec fn pattern_hits(root: Seq<char>, pattern: Seq<char>, path: Seq<char>) -> bool;

/// Asks `ignore::gitignore` whether a path is ignored: a `GitignoreBuilder` at `root` is
/// given `pattern` by `add_line` and built, and `matched_path_or_any_parents` is asked about
/// the path below `root`. The answer depends on the three texts alone, and is no where the
/// crate refuses the pattern. The crate panics on a path that is absolute behind the root;
/// the two conditions leave out those paths.
#[verifier::external_body]
fn is_ignored_by(root: &str, pattern: &str, path: &str) -> (r: bool)
    requires
        !"/"@.is_prefix_of(path@),
        !".//"@.is_prefix_of(path@),
    ensures
        r == pattern_hits(root@, pattern@, path@),
{
    let mut builder = ignore::gitignore::GitignoreBuilder::new(root);
    if builder.add_line(None, pattern).is_err() {
        return false;
    }
    builder.build().is_ok_and(
        |matcher|
            matcher.matched_path_or_any_parents(
                std::path::Path::new(root).join(path),
                false,
            ).is_ignore(),
    )
}

/// Whether a text is a path below a root.
pub open spec fn is_below_root(path: Seq<char>) -> bool {
    !"/"@.is_prefix_of(path) && !".//"@.is_prefix_of(path)
}

/// What is asked about at a root: an absolute path without the root that it starts with, and
/// any other path as it is.
pub open spec fn asked_at(root: Seq<char>, path: Seq<char>) -> Seq<char> {
    if "/"@.is_prefix_of(path) {
        match without_prefix(path, root) {
            Some(rest) => match without_prefix(rest, "/"@) {
                Some(below) => below,
                None => rest,
            },
            None => path,
        }
    } else {
        path
    }
}

/// Whether a pattern at a root means a path: one below it, or an absolute one that starts
/// with it.
pub open spec fn hits(
    root: Seq<PathPartModel>,
    pattern: Seq<char>,
    path: Seq<PathPartModel>,
) -> bool {
    let asked = asked_at(written(root), written(path));
    is_below_root(asked) && pattern_hits(written(root), pattern, asked)
}

/// What is asked about at a root.
fn ask_at(root: &str, path: String) -> (r: String)
    ensures
        r@ == asked_at(root@, path@),
{
    if !starts_with(&path, "/") {
        return path;
    }
    match strip_prefix(&path, root) {
        Some(rest) => match strip_prefix(&rest, "/") {
            Some(below) => below,
            None => rest,
        },
        None => path,
    }
}

/// Whether a pattern at a root means a path.
#[must_use]
pub fn pattern_matches(root: &FilePath, pattern: &str, path: &FilePath) -> (r: bool)
    ensures
        r == hits(root.deep_view(), pattern@, path.deep_view()),
{
    let base: String = root.text();
    let below: String = ask_at(&base, path.text());
    if starts_with(&below, "/") || starts_with(&below, ".//") {
        return false;
    }
    is_ignored_by(&base, pattern, &below)
}

/// Which of some paths a pattern at a root means.
pub open spec fn hits_among(
    root: Seq<PathPartModel>,
    pattern: Seq<char>,
    paths: Seq<Seq<PathPartModel>>,
) -> Seq<bool> {
    paths.map_values(|path: Seq<PathPartModel>| hits(root, pattern, path))
}

/// Which of some paths a pattern at a root means.
#[must_use]
pub fn matches_among(root: &FilePath, pattern: &str, paths: &Vec<FilePath>) -> (r: Vec<bool>)
    ensures
        r@ == hits_among(root.deep_view(), pattern@, paths.deep_view()),
{
    let ghost model = paths.deep_view();
    let mut out: Vec<bool> = Vec::new();
    let mut i: usize = 0;
    while i < paths.len()
        invariant
            i <= paths.len(),
            model == paths.deep_view(),
            out@ =~= hits_among(root.deep_view(), pattern@, model.take(i as int)),
        decreases paths.len() - i,
    {
        assert(model.take(i + 1) =~= model.take(i as int).push(paths@[i as int].deep_view()));
        out.push(pattern_matches(root, pattern, &paths[i]));
        i = i + 1;
    }
    assert(model.take(i as int) =~= model);
    out
}

} // verus!
