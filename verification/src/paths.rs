//! Paths as lists of their parts.

use crate::text::{
    chars_of, concat3, cut_at_last, join as join_text, joined, pieces, replace_char, rsplit_once,
    same, split, with_char,
};
use crate::values::{list_before, push_item, Ordered, Value};
use vstd::prelude::*;

verus! {

/// A part of a path.
#[derive(Debug, PartialEq, Eq)]
pub enum PathPart {
    /// The root directory, at the start of an absolute path.
    Root,
    /// A dot at the start of a relative path.
    Current,
    /// Two dots.
    Parent,
    /// A name.
    Name(String),
}

/// What a [`PathPart`] holds.
pub enum PathPartModel {
    Root,
    Current,
    Parent,
    Name(Seq<char>),
}

impl DeepView for PathPart {
    type V = PathPartModel;

    open spec fn deep_view(&self) -> PathPartModel {
        match self {
            PathPart::Root => PathPartModel::Root,
            PathPart::Current => PathPartModel::Current,
            PathPart::Parent => PathPartModel::Parent,
            PathPart::Name(x) => PathPartModel::Name(x.deep_view()),
        }
    }
}

impl Value for PathPart {
    fn replicate(&self) -> (r: Self) {
        match self {
            PathPart::Root => PathPart::Root,
            PathPart::Current => PathPart::Current,
            PathPart::Parent => PathPart::Parent,
            PathPart::Name(x) => PathPart::Name(x.replicate()),
        }
    }

    fn same_value(&self, other: &Self) -> (r: bool) {
        match (self, other) {
            (PathPart::Root, PathPart::Root) => true,
            (PathPart::Current, PathPart::Current) => true,
            (PathPart::Parent, PathPart::Parent) => true,
            (PathPart::Name(x), PathPart::Name(y)) => x.same_value(y),
            _ => false,
        }
    }
}

impl PathPartModel {
    /// The place of the variant in the order of the type.
    pub open spec fn place(self) -> nat {
        match self {
            PathPartModel::Root => 0,
            PathPartModel::Current => 1,
            PathPartModel::Parent => 2,
            PathPartModel::Name(_) => 3,
        }
    }
}

impl PathPart {
    fn place_of(&self) -> (r: u8)
        ensures
            r == self.deep_view().place(),
    {
        match self {
            PathPart::Root => 0,
            PathPart::Current => 1,
            PathPart::Parent => 2,
            PathPart::Name(_) => 3,
        }
    }
}

impl Ordered for PathPart {
    open spec fn before(a: PathPartModel, b: PathPartModel) -> bool {
        match (a, b) {
            (PathPartModel::Name(x), PathPartModel::Name(y)) => <String as Ordered>::before(x, y),
            _ => a.place() < b.place(),
        }
    }

    fn is_before(&self, other: &Self) -> (r: bool) {
        match (self, other) {
            (PathPart::Name(x), PathPart::Name(y)) => x.is_before(y),
            _ => self.place_of() < other.place_of(),
        }
    }

    proof fn before_irreflexive(a: PathPartModel) {
        match a {
            PathPartModel::Name(x) => <String as Ordered>::before_irreflexive(x),
            _ => {},
        }
    }

    proof fn before_transitive(a: PathPartModel, b: PathPartModel, c: PathPartModel) {
        match (a, b, c) {
            (PathPartModel::Name(x), PathPartModel::Name(y), PathPartModel::Name(z)) => <String as Ordered>::before_transitive(x, y, z),
            _ => {},
        }
    }

    proof fn before_total(a: PathPartModel, b: PathPartModel) {
        match (a, b) {
            (PathPartModel::Name(x), PathPartModel::Name(y)) => <String as Ordered>::before_total(x, y),
            _ => {},
        }
    }
}

/// A path, as the list of its parts.
#[derive(Debug, PartialEq, Eq)]
pub struct FilePath {
    pub parts: Vec<PathPart>,
}

impl DeepView for FilePath {
    type V = Seq<PathPartModel>;

    open spec fn deep_view(&self) -> Seq<PathPartModel> {
        self.parts.deep_view()
    }
}

impl Value for FilePath {
    fn replicate(&self) -> (r: Self) {
        FilePath { parts: self.parts.replicate() }
    }

    fn same_value(&self, other: &Self) -> (r: bool) {
        self.parts.same_value(&other.parts)
    }
}

/// Paths are ordered part by part.
impl Ordered for FilePath {
    open spec fn before(a: Seq<PathPartModel>, b: Seq<PathPartModel>) -> bool {
        list_before::<PathPart>(a, b)
    }

    fn is_before(&self, other: &Self) -> (r: bool) {
        self.parts.is_before(&other.parts)
    }

    proof fn before_irreflexive(a: Seq<PathPartModel>) {
        <Vec<PathPart> as Ordered>::before_irreflexive(a);
    }

    proof fn before_transitive(
        a: Seq<PathPartModel>,
        b: Seq<PathPartModel>,
        c: Seq<PathPartModel>,
    ) {
        <Vec<PathPart> as Ordered>::before_transitive(a, b, c);
    }

    proof fn before_total(a: Seq<PathPartModel>, b: Seq<PathPartModel>) {
        <Vec<PathPart> as Ordered>::before_total(a, b);
    }
}

/// The part that a piece of a path's text stands for. A dot says nothing unless the
/// path starts with it.
pub open spec fn part_of(piece: Seq<char>, first: bool) -> Option<PathPartModel> {
    if piece == ""@ {
        None
    } else if piece == "."@ {
        if first {
            Some(PathPartModel::Current)
        } else {
            None
        }
    } else if piece == ".."@ {
        Some(PathPartModel::Parent)
    } else {
        Some(PathPartModel::Name(piece))
    }
}

/// The parts that the pieces of a text stand for.
pub open spec fn parts_of(items: Seq<Seq<char>>) -> Seq<PathPartModel>
    decreases items.len(),
{
    if items.len() == 0 {
        Seq::empty()
    } else {
        let rest = parts_of(items.drop_last());
        let last = items.last();
        match part_of(last, items.len() == 1) {
            Some(part) => rest.push(part),
            None => rest,
        }
    }
}

/// The parts of a path that is written as `text`.
pub open spec fn parsed(text: Seq<char>) -> Seq<PathPartModel> {
    if text.len() > 0 && text[0] == '/' {
        seq![PathPartModel::Root] + parts_of(pieces(text, '/'))
    } else {
        parts_of(pieces(text, '/'))
    }
}

/// How a part is written.
pub open spec fn part_text(part: PathPartModel) -> Seq<char> {
    match part {
        PathPartModel::Root => ""@,
        PathPartModel::Current => "."@,
        PathPartModel::Parent => ".."@,
        PathPartModel::Name(name) => name,
    }
}

/// How a path is written, with `/` between its parts.
pub open spec fn written(path: Seq<PathPartModel>) -> Seq<char> {
    if path == seq![PathPartModel::Root] {
        "/"@
    } else {
        joined(path.map_values(|part: PathPartModel| part_text(part)), "/"@)
    }
}

/// How a path is written with forward slashes alone.
pub open spec fn slashed(path: Seq<PathPartModel>) -> Seq<char> {
    with_char(written(path), '\\', '/')
}

/// The path that follows from `base` by `relative`.
pub open spec fn path_joined(
    base: Seq<PathPartModel>,
    relative: Seq<PathPartModel>,
) -> Seq<PathPartModel> {
    if relative.len() > 0 && relative[0] == PathPartModel::Root {
        relative
    } else if base.len() > 0 && relative.len() > 0 && relative[0] == PathPartModel::Current {
        base + relative.drop_first()
    } else {
        base + relative
    }
}

/// What is left of `path` below `base`, or nothing where it is not below it.
pub open spec fn path_below(
    path: Seq<PathPartModel>,
    base: Seq<PathPartModel>,
) -> Option<Seq<PathPartModel>> {
    if base.len() <= path.len() && path.take(base.len() as int) == base {
        Some(path.skip(base.len() as int))
    } else {
        None
    }
}

/// The names among the parts of a path.
pub open spec fn names_of(items: Seq<PathPartModel>) -> Seq<PathPartModel>
    decreases items.len(),
{
    if items.len() == 0 {
        Seq::empty()
    } else {
        let rest = names_of(items.drop_last());
        let last = items.last();
        if last is Name { rest.push(last) } else { rest }
    }
}

/// The name of the file that a path leads to.
pub open spec fn file_name(path: Seq<PathPartModel>) -> Option<Seq<char>> {
    if path.len() > 0 && path.last() is Name {
        Some(path.last()->0)
    } else {
        None
    }
}

/// What follows the last dot of a name, unless the name starts with that dot.
pub open spec fn name_extension(name: Seq<char>) -> Option<Seq<char>> {
    match cut_at_last(name, '.') {
        Some((stem, extension)) => if stem.len() == 0 {
            None
        } else {
            Some(extension)
        },
        None => None,
    }
}

/// A name without its extension.
pub open spec fn name_stem(name: Seq<char>) -> Seq<char> {
    match cut_at_last(name, '.') {
        Some((stem, extension)) => if stem.len() == 0 {
            name
        } else {
            stem
        },
        None => name,
    }
}

/// The extension of the file that a path leads to.
pub open spec fn extension_of(path: Seq<PathPartModel>) -> Option<Seq<char>> {
    match file_name(path) {
        Some(name) => name_extension(name),
        None => None,
    }
}

/// A path with another extension, or without one where that is empty.
pub open spec fn with_extension_of(
    path: Seq<PathPartModel>,
    extension: Seq<char>,
) -> Seq<PathPartModel> {
    match file_name(path) {
        Some(name) => path.drop_last().push(
            PathPartModel::Name(
                if extension == ""@ {
                    name_stem(name)
                } else {
                    name_stem(name) + "."@ + extension
                },
            ),
        ),
        None => path,
    }
}

/// What follows the last dot of a name, unless the name starts with that dot.
pub fn extension_of_name(name: &str) -> (r: Option<String>)
    ensures
        r.deep_view() == name_extension(name@),
{
    match rsplit_once(name, '.') {
        Some((stem, extension)) => {
            if same(&stem, "") {
                proof {
                    reveal_strlit("");
                }
                None
            } else {
                proof {
                    reveal_strlit("");
                    if stem@.len() == 0 {
                        assert(stem@ =~= ""@);
                    }
                }
                Some(extension)
            }
        },
        None => None,
    }
}

fn stem_of_name(name: &str) -> (r: String)
    ensures
        r@ == name_stem(name@),
{
    match rsplit_once(name, '.') {
        Some((stem, extension)) => {
            if same(&stem, "") {
                proof {
                    reveal_strlit("");
                }
                name.to_string()
            } else {
                proof {
                    reveal_strlit("");
                    if stem@.len() == 0 {
                        assert(stem@ =~= ""@);
                    }
                }
                stem
            }
        },
        None => name.to_string(),
    }
}

impl FilePath {
    /// The path that is written as `text`.
    #[must_use]
    pub fn parse(text: &str) -> (r: FilePath)
        ensures
            r.deep_view() == parsed(text@),
    {
        let items: Vec<String> = split(text, '/');
        let chars: Vec<char> = chars_of(text);
        let mut parts: Vec<PathPart> = Vec::new();
        let absolute: bool = chars.len() > 0 && chars[0] == '/';
        if absolute {
            push_item(&mut parts, PathPart::Root);
        }
        let ghost start = parts.deep_view();
        assert(start =~= if text@.len() > 0 && text@[0] == '/' {
            seq![PathPartModel::Root]
        } else {
            Seq::empty()
        });
        let ghost model = items.deep_view();
        let mut i: usize = 0;
        while i < items.len()
            invariant
                i <= items.len(),
                model == items.deep_view(),
                parts.deep_view() =~= start + parts_of(model.take(i as int)),
            decreases items.len() - i,
        {
            proof {
                assert(model.take(i + 1).drop_last() =~= model.take(i as int));
                assert(model.take(i + 1).last() == items@[i as int].deep_view());
            }
            if same(&items[i], "") {
            } else if same(&items[i], ".") {
                if i == 0 {
                    push_item(&mut parts, PathPart::Current);
                }
            } else if same(&items[i], "..") {
                push_item(&mut parts, PathPart::Parent);
            } else {
                push_item(&mut parts, PathPart::Name(items[i].replicate()));
            }
            assert(parts.deep_view() =~= start + parts_of(model.take(i + 1)));
            i = i + 1;
        }
        assert(model.take(i as int) =~= model);
        FilePath { parts }
    }

    /// How the path is written with forward slashes alone.
    #[must_use]
    pub fn slashed(&self) -> (r: String)
        ensures
            r@ == slashed(self.deep_view()),
    {
        replace_char(&self.text(), '\\', '/')
    }

    /// How the path is written.
    #[must_use]
    pub fn text(&self) -> (r: String)
        ensures
            r@ == written(self.deep_view()),
    {
        let n: usize = self.parts.len();
        if n == 1 {
            match self.parts[0] {
                PathPart::Root => {
                    proof {
                        assert(self.deep_view() =~= seq![PathPartModel::Root]);
                    }
                    return "/".to_string();
                },
                _ => {},
            }
        }
        let mut texts: Vec<String> = Vec::new();
        let ghost model = self.parts.deep_view();
        let mut i: usize = 0;
        while i < self.parts.len()
            invariant
                i <= self.parts.len(),
                model == self.parts.deep_view(),
                texts.deep_view() =~= model.take(i as int).map_values(|part: PathPartModel| part_text(part)),
            decreases self.parts.len() - i,
        {
            proof {
                assert(model.take(i + 1).drop_last() =~= model.take(i as int));
                assert(model.take(i + 1).last() == self.parts@[i as int].deep_view());
            }
            let text: String = match &self.parts[i] {
                PathPart::Root => "".to_string(),
                PathPart::Current => ".".to_string(),
                PathPart::Parent => "..".to_string(),
                PathPart::Name(name) => name.replicate(),
            };
            push_item(&mut texts, text);
            proof {
                assert(model.take(i + 1) =~= model.take(i as int).push(model[i as int]));
            }
            i = i + 1;
        }
        assert(model.take(i as int) =~= model);
        proof {
            if n == 1 {
                assert(self.deep_view()[0] == self.parts@[0].deep_view());
            }
        }
        join_text(&texts, "/")
    }

    /// The path that follows from this one by `relative`.
    #[must_use]
    pub fn join(&self, relative: &FilePath) -> (r: FilePath)
        ensures
            r.deep_view() == path_joined(self.deep_view(), relative.deep_view()),
    {
        let n: usize = relative.parts.len();
        let mut absolute: bool = false;
        let mut from: usize = 0;
        if n > 0 {
            match relative.parts[0] {
                PathPart::Root => {
                    absolute = true;
                },
                PathPart::Current => {
                    if self.parts.len() > 0 {
                        from = 1;
                    }
                },
                _ => {},
            }
        }
        if absolute {
            return relative.replicate();
        }
        let mut parts: Vec<PathPart> = self.parts.replicate();
        let ghost base = self.deep_view();
        let ghost other = relative.deep_view();
        let mut i: usize = from;
        while i < relative.parts.len()
            invariant
                from <= i <= relative.parts.len(),
                other == relative.deep_view(),
                parts.deep_view() =~= base + other.subrange(from as int, i as int),
            decreases relative.parts.len() - i,
        {
            push_item(&mut parts, relative.parts[i].replicate());
            assert(other.subrange(from as int, i + 1) =~= other.subrange(
                from as int,
                i as int,
            ).push(other[i as int]));
            i = i + 1;
        }
        proof {
            if from == 1 {
                assert(other.subrange(1, i as int) =~= other.drop_first());
            } else {
                assert(other.subrange(0, i as int) =~= other);
            }
        }
        FilePath { parts }
    }

    /// What is left of the path below `base`.
    #[must_use]
    pub fn strip_prefix(&self, base: &FilePath) -> (r: Option<FilePath>)
        ensures
            r.deep_view() == path_below(self.deep_view(), base.deep_view()),
    {
        let n: usize = base.parts.len();
        let m: usize = self.parts.len();
        let ghost path = self.deep_view();
        let ghost start = base.deep_view();
        if n > m {
            return None;
        }
        let mut i: usize = 0;
        while i < n
            invariant
                i <= n,
                n <= m,
                n == base.parts.len(),
                m == self.parts.len(),
                path == self.deep_view(),
                start == base.deep_view(),
                path.take(i as int) == start.take(i as int),
            decreases n - i,
        {
            if !self.parts[i].same_value(&base.parts[i]) {
                proof {
                    assert(path.take(n as int)[i as int] != start[i as int]);
                }
                return None;
            }
            proof {
                assert(path.take(i + 1) =~= path.take(i as int).push(path[i as int]));
                assert(start.take(i + 1) =~= start.take(i as int).push(start[i as int]));
            }
            i = i + 1;
        }
        proof {
            assert(start.take(n as int) =~= start);
        }
        let mut parts: Vec<PathPart> = Vec::new();
        while i < m
            invariant
                n <= i <= m,
                m == self.parts.len(),
                path == self.deep_view(),
                parts.deep_view() =~= path.subrange(n as int, i as int),
            decreases m - i,
        {
            push_item(&mut parts, self.parts[i].replicate());
            assert(path.subrange(n as int, i + 1) =~= path.subrange(n as int, i as int).push(
                path[i as int],
            ));
            i = i + 1;
        }
        assert(path.subrange(n as int, m as int) =~= path.skip(n as int));
        Some(FilePath { parts })
    }

    /// The path as the names in it.
    #[must_use]
    pub fn names(&self) -> (r: FilePath)
        ensures
            r.deep_view() == names_of(self.deep_view()),
    {
        let mut parts: Vec<PathPart> = Vec::new();
        let ghost model = self.parts.deep_view();
        let mut i: usize = 0;
        while i < self.parts.len()
            invariant
                i <= self.parts.len(),
                model == self.parts.deep_view(),
                parts.deep_view() =~= names_of(model.take(i as int)),
            decreases self.parts.len() - i,
        {
            proof {
                assert(model.take(i + 1).drop_last() =~= model.take(i as int));
                assert(model.take(i + 1).last() == self.parts@[i as int].deep_view());
            }
            match &self.parts[i] {
                PathPart::Name(name) => {
                    push_item(&mut parts, PathPart::Name(name.replicate()));
                },
                _ => {},
            }
            i = i + 1;
        }
        assert(model.take(i as int) =~= model);
        FilePath { parts }
    }

    /// The name of the file that the path leads to.
    #[must_use]
    pub fn file_name(&self) -> (r: Option<String>)
        ensures
            r.deep_view() == file_name(self.deep_view()),
    {
        let n: usize = self.parts.len();
        if n == 0 {
            return None;
        }
        assert(self.deep_view().last() == self.parts@[n - 1].deep_view());
        match &self.parts[n - 1] {
            PathPart::Name(name) => Some(name.replicate()),
            _ => None,
        }
    }

    /// The extension of the file that the path leads to.
    #[must_use]
    pub fn extension(&self) -> (r: Option<String>)
        ensures
            r.deep_view() == extension_of(self.deep_view()),
    {
        match self.file_name() {
            Some(name) => extension_of_name(&name),
            None => None,
        }
    }

    /// The path with another extension.
    #[must_use]
    pub fn with_extension(&self, extension: &str) -> (r: FilePath)
        ensures
            r.deep_view() == with_extension_of(self.deep_view(), extension@),
    {
        match self.file_name() {
            Some(name) => {
                let stem: String = stem_of_name(&name);
                let renamed: String = if same(extension, "") {
                    stem
                } else {
                    concat3(&stem, ".", extension)
                };
                let mut parts: Vec<PathPart> = self.parts.replicate();
                let ghost before = parts.deep_view();
                let n: usize = parts.len();
                let ghost held = parts@;
                parts.set(n - 1, PathPart::Name(renamed));
                proof {
                    let after = parts.deep_view();
                    let expected = with_extension_of(self.deep_view(), extension@);
                    assert(after.len() == expected.len());
                    assert forall|k: int| 0 <= k < after.len() implies after[k] == expected[k] by {
                        if k < n - 1 {
                            assert(parts@[k] == held[k]);
                            assert(before[k] == held[k].deep_view());
                        }
                    }
                    assert(after =~= expected);
                }
                FilePath { parts }
            },
            None => self.replicate(),
        }
    }
}

/// The extensions of source files that can be analyzed.
pub open spec fn source_extension(extension: Option<Seq<char>>) -> bool {
    match extension {
        Some(text) => {
            ||| text == "js"@
            ||| text == "jsx"@
            ||| text == "mjs"@
            ||| text == "cjs"@
            ||| text == "ts"@
            ||| text == "tsx"@
            ||| text == "mts"@
            ||| text == "cts"@
        },
        None => false,
    }
}

/// The extensions of assets that hold no modules.
pub open spec fn inert_extension(extension: Option<Seq<char>>) -> bool {
    match extension {
        Some(text) => {
            ||| text == "avif"@
            ||| text == "css"@
            ||| text == "gif"@
            ||| text == "ico"@
            ||| text == "jpeg"@
            ||| text == "jpg"@
            ||| text == "json"@
            ||| text == "less"@
            ||| text == "otf"@
            ||| text == "png"@
            ||| text == "sass"@
            ||| text == "scss"@
            ||| text == "styl"@
            ||| text == "svg"@
            ||| text == "ttf"@
            ||| text == "wasm"@
            ||| text == "webp"@
            ||| text == "woff"@
            ||| text == "woff2"@
        },
        None => false,
    }
}

/// Whether a path leads to a source file that can be analyzed.
#[must_use]
pub fn is_analyzable_source(path: &FilePath) -> (r: bool)
    ensures
        r == source_extension(extension_of(path.deep_view())),
{
    match path.extension() {
        Some(text) => {
            same(&text, "js")
                || same(&text, "jsx")
                || same(&text, "mjs")
                || same(&text, "cjs")
                || same(&text, "ts")
                || same(&text, "tsx")
                || same(&text, "mts")
                || same(&text, "cts")
        },
        None => false,
    }
}

/// Whether a path leads to an asset that holds no modules.
#[must_use]
pub fn is_inert_asset(path: &FilePath) -> (r: bool)
    ensures
        r == inert_extension(extension_of(path.deep_view())),
{
    match path.extension() {
        Some(text) => {
            same(&text, "avif")
                || same(&text, "css")
                || same(&text, "gif")
                || same(&text, "ico")
                || same(&text, "jpeg")
                || same(&text, "jpg")
                || same(&text, "json")
                || same(&text, "less")
                || same(&text, "otf")
                || same(&text, "png")
                || same(&text, "sass")
                || same(&text, "scss")
                || same(&text, "styl")
                || same(&text, "svg")
                || same(&text, "ttf")
                || same(&text, "wasm")
                || same(&text, "webp")
                || same(&text, "woff")
                || same(&text, "woff2")
        },
        None => false,
    }
}

/// Whether a path leads through a directory of installed packages.
pub open spec fn through_dependencies(path: Seq<PathPartModel>) -> bool {
    path.contains(PathPartModel::Name("node_modules"@))
}

/// Whether a path leads through a directory of installed packages.
#[must_use]
pub fn is_dependency_path(path: &FilePath) -> (r: bool)
    ensures
        r == through_dependencies(path.deep_view()),
{
    let ghost model = path.deep_view();
    let mut i: usize = 0;
    while i < path.parts.len()
        invariant
            i <= path.parts.len(),
            model == path.deep_view(),
            forall|k: int| 0 <= k < i ==> #[trigger] model[k] != PathPartModel::Name("node_modules"@),
        decreases path.parts.len() - i,
    {
        assert(model[i as int] == path.parts@[i as int].deep_view());
        let found: bool = match &path.parts[i] {
            PathPart::Name(name) => same(name, "node_modules"),
            _ => false,
        };
        if found {
            return true;
        }
        i = i + 1;
    }
    false
}

/// Whether a part of a path is the name of an archive.
pub open spec fn names_archive(part: PathPartModel) -> bool {
    part is Name && name_extension(part->0) == Some("zip"@)
}

/// Whether a path leads to a directory of installed packages inside an archive.
pub open spec fn inside_archived_dependencies(path: Seq<PathPartModel>) -> bool {
    exists|i: int, j: int|
        0 <= i < j < path.len() && #[trigger] names_archive(path[i]) && #[trigger] path[j]
            == PathPartModel::Name("node_modules"@)
}

/// Whether a path leads to a directory of installed packages inside an archive.
#[must_use]
pub fn is_pnp_virtual_dependency_path(path: &FilePath) -> (r: bool)
    ensures
        r == inside_archived_dependencies(path.deep_view()),
{
    let ghost model = path.deep_view();
    let mut inside_archive: bool = false;
    let mut i: usize = 0;
    while i < path.parts.len()
        invariant
            i <= path.parts.len(),
            model == path.deep_view(),
            inside_archive == (exists|k: int| 0 <= k < i && #[trigger] names_archive(model[k])),
            forall|k: int, j: int|
                0 <= k < j < i && #[trigger] names_archive(model[k]) ==> #[trigger] model[j]
                    != PathPartModel::Name("node_modules"@),
        decreases path.parts.len() - i,
    {
        assert(model[i as int] == path.parts@[i as int].deep_view());
        match &path.parts[i] {
            PathPart::Name(name) => {
                if inside_archive && same(name, "node_modules") {
                    proof {
                        let k = choose|k: int| 0 <= k < i && #[trigger] names_archive(model[k]);
                        assert(names_archive(model[k]));
                        assert(model[i as int] == PathPartModel::Name("node_modules"@));
                    }
                    return true;
                }
                let archive: bool = match extension_of_name(name) {
                    Some(extension) => same(&extension, "zip"),
                    None => false,
                };
                assert(archive == names_archive(model[i as int]));
                if archive {
                    inside_archive = true;
                }
            },
            _ => {
                assert(!names_archive(model[i as int]));
            },
        }
        i = i + 1;
    }
    false
}

} // verus!
