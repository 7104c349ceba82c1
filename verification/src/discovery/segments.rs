//! Static evidence in one segment of a package script.

use crate::collections::{
    with_item, with_items, OrderedSet,
};
use crate::discovery::tokenizer::{
    tokenize_script, tokenized, ScriptSegment, ScriptSegmentModel, ScriptSpan, ScriptToken,
    ScriptTokenModel, UnmodeledScriptKind,
};
use crate::text::{
    ascii_lowered, chars_of, cut_at_first, cut_at_last, rsplit_once, same, slice, split_once,
    starts_with, strip_prefix, to_ascii_lowercase, strip_suffix, without_prefix, without_suffix,
};
use crate::values::{push_item, Ordered, Value};
use vstd::prelude::*;

verus! {

/// What a script refers to.
#[derive(Debug, Clone, Copy, PartialEq, Eq, Structural)]
pub enum ScriptReferenceKind {
    Binary,
    File,
    Package,
}

impl DeepView for ScriptReferenceKind {
    type V = ScriptReferenceKind;

    open spec fn deep_view(&self) -> ScriptReferenceKind {
        *self
    }
}

impl Value for ScriptReferenceKind {
    fn replicate(&self) -> (r: Self) {
        *self
    }

    fn same_value(&self, other: &Self) -> (r: bool) {
        *self == *other
    }
}

impl ScriptReferenceKind {
    /// The place of the variant in the order of the type.
    pub open spec fn place(self) -> nat {
        match self {
            ScriptReferenceKind::Binary => 0,
            ScriptReferenceKind::File => 1,
            ScriptReferenceKind::Package => 2,
        }
    }

    fn place_of(&self) -> (r: u8)
        ensures
            r == self.place(),
    {
        match self {
            ScriptReferenceKind::Binary => 0,
            ScriptReferenceKind::File => 1,
            ScriptReferenceKind::Package => 2,
        }
    }
}

impl Ordered for ScriptReferenceKind {
    open spec fn before(a: ScriptReferenceKind, b: ScriptReferenceKind) -> bool {
        a.place() < b.place()
    }

    fn is_before(&self, other: &Self) -> (r: bool) {
        self.place_of() < other.place_of()
    }

    proof fn before_irreflexive(a: ScriptReferenceKind) {
    }

    proof fn before_transitive(
        a: ScriptReferenceKind,
        b: ScriptReferenceKind,
        c: ScriptReferenceKind,
    ) {
    }

    proof fn before_total(a: ScriptReferenceKind, b: ScriptReferenceKind) {
    }
}

/// Static evidence contributed by a reachable package script.
#[derive(Debug, PartialEq, Eq)]
pub struct ScriptReference {
    pub script: String,
    pub kind: ScriptReferenceKind,
    pub value: String,
    pub span: ScriptSpan,
}

/// What a [`ScriptReference`] holds.
pub struct ScriptReferenceModel {
    pub script: Seq<char>,
    pub kind: ScriptReferenceKind,
    pub value: Seq<char>,
    pub span: ScriptSpan,
}

impl DeepView for ScriptReference {
    type V = ScriptReferenceModel;

    open spec fn deep_view(&self) -> ScriptReferenceModel {
        ScriptReferenceModel {
            script: self.script.deep_view(),
            kind: self.kind.deep_view(),
            value: self.value.deep_view(),
            span: self.span.deep_view(),
        }
    }
}

impl Value for ScriptReference {
    fn replicate(&self) -> (r: Self) {
        ScriptReference {
            script: self.script.replicate(),
            kind: self.kind.replicate(),
            value: self.value.replicate(),
            span: self.span.replicate(),
        }
    }

    fn same_value(&self, other: &Self) -> (r: bool) {
        self.script.same_value(&other.script)
            && self.kind.same_value(&other.kind)
            && self.value.same_value(&other.value)
            && self.span.same_value(&other.span)
    }
}

impl Ordered for ScriptReference {
    open spec fn before(a: ScriptReferenceModel, b: ScriptReferenceModel) -> bool {
        <String as Ordered>::before(a.script, b.script) || (a.script == b.script && (<ScriptReferenceKind as Ordered>::before(a.kind, b.kind) || (a.kind == b.kind && (<String as Ordered>::before(a.value, b.value) || (a.value == b.value && (<ScriptSpan as Ordered>::before(a.span, b.span)))))))
    }

    fn is_before(&self, other: &Self) -> (r: bool) {
        self.script.is_before(&other.script) || (self.script.same_value(&other.script) && (self.kind.is_before(&other.kind) || (self.kind.same_value(&other.kind) && (self.value.is_before(&other.value) || (self.value.same_value(&other.value) && (self.span.is_before(&other.span)))))))
    }

    proof fn before_irreflexive(a: ScriptReferenceModel) {
        <String as Ordered>::before_irreflexive(a.script);
        <ScriptReferenceKind as Ordered>::before_irreflexive(a.kind);
        <String as Ordered>::before_irreflexive(a.value);
        <ScriptSpan as Ordered>::before_irreflexive(a.span);
    }

    proof fn before_transitive(
        a: ScriptReferenceModel,
        b: ScriptReferenceModel,
        c: ScriptReferenceModel,
    ) {
        if <String as Ordered>::before(a.script, b.script) && <String as Ordered>::before(b.script, c.script) {
            <String as Ordered>::before_transitive(a.script, b.script, c.script);
        }
        if <ScriptReferenceKind as Ordered>::before(a.kind, b.kind) && <ScriptReferenceKind as Ordered>::before(b.kind, c.kind) {
            <ScriptReferenceKind as Ordered>::before_transitive(a.kind, b.kind, c.kind);
        }
        if <String as Ordered>::before(a.value, b.value) && <String as Ordered>::before(b.value, c.value) {
            <String as Ordered>::before_transitive(a.value, b.value, c.value);
        }
        if <ScriptSpan as Ordered>::before(a.span, b.span) && <ScriptSpan as Ordered>::before(b.span, c.span) {
            <ScriptSpan as Ordered>::before_transitive(a.span, b.span, c.span);
        }
    }

    proof fn before_total(a: ScriptReferenceModel, b: ScriptReferenceModel) {
        <String as Ordered>::before_total(a.script, b.script);
        <ScriptReferenceKind as Ordered>::before_total(a.kind, b.kind);
        <String as Ordered>::before_total(a.value, b.value);
        <ScriptSpan as Ordered>::before_total(a.span, b.span);
    }
}

/// What one segment contributes.
#[derive(Debug, PartialEq, Eq)]
pub struct SegmentContribution {
    pub nested_scripts: OrderedSet<(String, ScriptSpan)>,
    pub references: OrderedSet<ScriptReference>,
    pub unmodeled: OrderedSet<(ScriptSpan, UnmodeledScriptKind)>,
}

/// What a [`SegmentContribution`] holds.
pub struct SegmentContributionModel {
    pub nested_scripts: Seq<(Seq<char>, ScriptSpan)>,
    pub references: Seq<ScriptReferenceModel>,
    pub unmodeled: Seq<(ScriptSpan, UnmodeledScriptKind)>,
}

impl DeepView for SegmentContribution {
    type V = SegmentContributionModel;

    open spec fn deep_view(&self) -> SegmentContributionModel {
        SegmentContributionModel {
            nested_scripts: self.nested_scripts.deep_view(),
            references: self.references.deep_view(),
            unmodeled: self.unmodeled.deep_view(),
        }
    }
}

impl SegmentContribution {
    /// Nothing contributed yet.
    pub fn new() -> (r: Self)
        ensures
            r.deep_view() == no_contribution(),
    {
        SegmentContribution {
            nested_scripts: OrderedSet::new(),
            references: OrderedSet::new(),
            unmodeled: OrderedSet::new(),
        }
    }
}

/// Nothing contributed yet.
pub open spec fn no_contribution() -> SegmentContributionModel {
    SegmentContributionModel {
        nested_scripts: Seq::empty(),
        references: Seq::empty(),
        unmodeled: Seq::empty(),
    }
}

/// A reference is contributed, unless its value is empty.
pub open spec fn with_reference(
    c: SegmentContributionModel,
    script: Seq<char>,
    kind: ScriptReferenceKind,
    value: Seq<char>,
    span: ScriptSpan,
) -> SegmentContributionModel {
    if value.len() == 0 {
        c
    } else {
        SegmentContributionModel {
            references: with_item::<ScriptReference>(
                c.references,
                ScriptReferenceModel { script, kind, value, span },
            ),
            ..c
        }
    }
}

/// A run of another script is contributed.
pub open spec fn with_nested(
    c: SegmentContributionModel,
    callee: Seq<char>,
    span: ScriptSpan,
) -> SegmentContributionModel {
    SegmentContributionModel {
        nested_scripts: with_item::<(String, ScriptSpan)>(c.nested_scripts, (callee, span)),
        ..c
    }
}

/// An unmodeled part is contributed.
pub open spec fn with_unmodeled(
    c: SegmentContributionModel,
    span: ScriptSpan,
    kind: UnmodeledScriptKind,
) -> SegmentContributionModel {
    SegmentContributionModel {
        unmodeled: with_item::<(ScriptSpan, UnmodeledScriptKind)>(c.unmodeled, (span, kind)),
        ..c
    }
}

fn add_reference(
    contribution: &mut SegmentContribution,
    script_name: &str,
    kind: ScriptReferenceKind,
    value: &str,
    span: ScriptSpan,
)
    ensures
        final(contribution).deep_view() == with_reference(
            old(contribution).deep_view(),
            script_name@,
            kind,
            value@,
            span,
        ),
{
    if value.is_empty() {
        return ;
    }
    contribution.references.insert(
        ScriptReference { script: script_name.to_owned(), kind, value: value.to_owned(), span },
    );
}

fn add_nested(contribution: &mut SegmentContribution, callee: &str, span: ScriptSpan)
    ensures
        final(contribution).deep_view() == with_nested(
            old(contribution).deep_view(),
            callee@,
            span,
        ),
{
    contribution.nested_scripts.insert((callee.to_owned(), span));
}

fn add_unmodeled(
    contribution: &mut SegmentContribution,
    span: ScriptSpan,
    kind: UnmodeledScriptKind,
)
    ensures
        final(contribution).deep_view() == with_unmodeled(
            old(contribution).deep_view(),
            span,
            kind,
        ),
{
    contribution.unmodeled.insert((span, kind));
}

/// Where the last path separator of `s` stands; -1 when there is none.
pub open spec fn last_separator(s: Seq<char>) -> int
    decreases s.len(),
{
    if s.len() == 0 {
        -1
    } else if s.last() == '/' || s.last() == '\\' {
        s.len() - 1
    } else {
        last_separator(s.drop_last())
    }
}

/// What follows the last path separator.
pub open spec fn base_name(s: Seq<char>) -> Seq<char> {
    s.skip(last_separator(s) + 1)
}

/// The name of the program that a command runs.
pub open spec fn program_name(s: Seq<char>) -> Seq<char> {
    let base = base_name(s);
    match without_suffix(base, ".cmd"@) {
        Some(name) => name,
        None => match without_suffix(base, ".exe"@) {
            Some(name) => name,
            None => base,
        },
    }
}

/// The name of the program that `command` runs.
pub fn binary_name(command: &str) -> (r: String)
    ensures
        r@ == program_name(command@),
{
    let chars = chars_of(command);
    let mut i: usize = chars.len();
    assert(chars@.take(i as int) =~= chars@);
    while i > 0 && chars[i - 1] != '/' && chars[i - 1] != '\\'
        invariant
            i <= chars.len(),
            last_separator(chars@) == last_separator(chars@.take(i as int)),
        decreases i,
    {
        assert(chars@.take(i as int).drop_last() =~= chars@.take(i - 1));
        i = i - 1;
    }
    let base = slice(&chars, i, chars.len());
    assert(base@ =~= base_name(command@));
    match strip_suffix(&base, ".cmd") {
        Some(name) => name,
        None => match strip_suffix(&base, ".exe") {
            Some(name) => name,
            None => base,
        },
    }
}

/// The extensions by which an argument is taken for a file.
pub open spec fn file_extension(s: Seq<char>) -> bool {
    ||| s == "js"@
    ||| s == "jsx"@
    ||| s == "mjs"@
    ||| s == "cjs"@
    ||| s == "ts"@
    ||| s == "tsx"@
    ||| s == "mts"@
    ||| s == "cts"@
    ||| s == "json"@
    ||| s == "jsonc"@
    ||| s == "yaml"@
    ||| s == "yml"@
    ||| s == "css"@
    ||| s == "scss"@
    ||| s == "html"@
}

/// The extensions by which an argument is taken for a file.
fn is_file_extension(s: &str) -> (r: bool)
    ensures
        r == file_extension(s@),
{
    same(s, "js")
        || same(s, "jsx")
        || same(s, "mjs")
        || same(s, "cjs")
        || same(s, "ts")
        || same(s, "tsx")
        || same(s, "mts")
        || same(s, "cts")
        || same(s, "json")
        || same(s, "jsonc")
        || same(s, "yaml")
        || same(s, "yml")
        || same(s, "css")
        || same(s, "scss")
        || same(s, "html")
}

/// Whether a word is taken for a file.
pub open spec fn file_like(s: Seq<char>) -> bool {
    ||| "./"@.is_prefix_of(s)
    ||| "../"@.is_prefix_of(s)
    ||| "/"@.is_prefix_of(s)
    ||| ".\\"@.is_prefix_of(s)
    ||| "..\\"@.is_prefix_of(s)
    ||| match cut_at_last(s, '.') {
        Some((_, extension)) => file_extension(extension),
        None => false,
    }
}

/// Whether `value` is taken for a file.
pub fn looks_like_file(value: &str) -> (r: bool)
    ensures
        r == file_like(value@),
{
    if starts_with(value, "./") || starts_with(value, "../") || starts_with(value, "/")
        || starts_with(value, ".\\") || starts_with(value, "..\\") {
        return true;
    }
    match rsplit_once(value, '.') {
        Some((_, extension)) => is_file_extension(&extension),
        None => false,
    }
}

/// ASCII letters and `_`.
pub open spec fn name_start(c: char) -> bool {
    c == '_' || ('a' <= c && c <= 'z') || ('A' <= c && c <= 'Z')
}

/// ASCII letters, digits and `_`.
pub open spec fn name_part(c: char) -> bool {
    name_start(c) || ('0' <= c && c <= '9')
}

/// Whether `name` can be the name of an environment variable.
pub open spec fn variable_name(name: Seq<char>) -> bool {
    &&& name.len() > 0
    &&& name_start(name[0])
    &&& forall|i: int| 1 <= i < name.len() ==> name_part(#[trigger] name[i])
}

/// Name and value of an environment assignment.
pub open spec fn assignment(token: Seq<char>) -> Option<(Seq<char>, Seq<char>)> {
    match cut_at_first(token, '=') {
        Some((name, value)) => if variable_name(name) {
            Some((name, value))
        } else {
            None
        },
        None => None,
    }
}

/// Name and value of an environment assignment.
pub fn environment_assignment(token: &str) -> (r: Option<(String, String)>)
    ensures
        r.deep_view() == assignment(token@),
{
    match split_once(token, '=') {
        Some((name, value)) => {
            let chars = chars_of(&name);
            if chars.len() == 0 {
                return None;
            }
            let first = chars[0];
            if !(first == '_' || ('a' <= first && first <= 'z') || ('A' <= first && first <= 'Z')) {
                return None;
            }
            let mut i: usize = 1;
            while i < chars.len()
                invariant
                    1 <= i <= chars.len(),
                    chars@ == name@,
                    cut_at_first(token@, '=') == Some((name@, value@)),
                    forall|j: int| 1 <= j < i ==> name_part(#[trigger] chars@[j]),
                decreases chars.len() - i,
            {
                let c = chars[i];
                if !(c == '_' || ('a' <= c && c <= 'z') || ('A' <= c && c <= 'Z') || ('0' <= c && c
                    <= '9')) {
                    assert(!name_part(chars@[i as int]));
                    return None;
                }
                i = i + 1;
            }
            Some((name, value))
        },
        None => None,
    }
}

/// The part of a flag that names the loaded module.
pub open spec fn inline_loader(flag: Seq<char>) -> Option<Seq<char>> {
    if without_prefix(flag, "--require="@) is Some {
        without_prefix(flag, "--require="@)
    } else if without_prefix(flag, "--import="@) is Some {
        without_prefix(flag, "--import="@)
    } else if without_prefix(flag, "--loader="@) is Some {
        without_prefix(flag, "--loader="@)
    } else if without_prefix(flag, "--experimental-loader="@) is Some {
        without_prefix(flag, "--experimental-loader="@)
    } else {
        match without_prefix(flag, "-r"@) {
            Some(value) => if value.len() > 0 {
                Some(value)
            } else {
                None
            },
            None => None,
        }
    }
}

/// The part of a flag that names the loaded module.
pub fn inline_node_loader_value(flag: &str) -> (r: Option<String>)
    ensures
        r.deep_view() == inline_loader(flag@),
{
    if let Some(value) = strip_prefix(flag, "--require=") {
        return Some(value);
    }
    if let Some(value) = strip_prefix(flag, "--import=") {
        return Some(value);
    }
    if let Some(value) = strip_prefix(flag, "--loader=") {
        return Some(value);
    }
    if let Some(value) = strip_prefix(flag, "--experimental-loader=") {
        return Some(value);
    }
    match strip_prefix(flag, "-r") {
        Some(value) => if value.as_str().is_empty() {
            None
        } else {
            Some(value)
        },
        None => None,
    }
}

/// The flags of `node` that load the module named by the next word.
pub open spec fn loader_flag(s: Seq<char>) -> bool {
    ||| s == "-r"@
    ||| s == "--require"@
    ||| s == "--import"@
    ||| s == "--loader"@
    ||| s == "--experimental-loader"@
}

/// The flags of `node` that load the module named by the next word.
pub fn is_node_loader_flag(s: &str) -> (r: bool)
    ensures
        r == loader_flag(s@),
{
    same(s, "-r")
        || same(s, "--require")
        || same(s, "--import")
        || same(s, "--loader")
        || same(s, "--experimental-loader")
}

/// The flags of `node` that take the next word.
pub open spec fn valued_node_flag(s: Seq<char>) -> bool {
    ||| s == "--conditions"@
    ||| s == "--diagnostic-dir"@
    ||| s == "--dns-result-order"@
    ||| s == "--inspect-port"@
    ||| s == "--max-http-header-size"@
    ||| s == "--redirect-warnings"@
    ||| s == "--title"@
    ||| s == "--trace-event-categories"@
    ||| s == "--trace-event-file-pattern"@
}

/// The flags of `node` that take the next word.
pub fn node_flag_takes_value(s: &str) -> (r: bool)
    ensures
        r == valued_node_flag(s@),
{
    same(s, "--conditions")
        || same(s, "--diagnostic-dir")
        || same(s, "--dns-result-order")
        || same(s, "--inspect-port")
        || same(s, "--max-http-header-size")
        || same(s, "--redirect-warnings")
        || same(s, "--title")
        || same(s, "--trace-event-categories")
        || same(s, "--trace-event-file-pattern")
}

/// The tools whose arguments name files.
pub open spec fn file_tool(s: Seq<char>) -> bool {
    ||| s == "ava"@
    ||| s == "babel"@
    ||| s == "eslint"@
    ||| s == "jest"@
    ||| s == "mocha"@
    ||| s == "prettier"@
    ||| s == "rollup"@
    ||| s == "ts-node"@
    ||| s == "tsc"@
    ||| s == "tsx"@
    ||| s == "vite"@
    ||| s == "vitest"@
    ||| s == "webpack"@
}

/// The tools whose arguments name files.
pub fn is_supported_file_tool(s: &str) -> (r: bool)
    ensures
        r == file_tool(s@),
{
    same(s, "ava")
        || same(s, "babel")
        || same(s, "eslint")
        || same(s, "jest")
        || same(s, "mocha")
        || same(s, "prettier")
        || same(s, "rollup")
        || same(s, "ts-node")
        || same(s, "tsc")
        || same(s, "tsx")
        || same(s, "vite")
        || same(s, "vitest")
        || same(s, "webpack")
}

/// The commands that no dependency provides.
pub open spec fn system_command(s: Seq<char>) -> bool {
    ||| s == "bun"@
    ||| s == "cd"@
    ||| s == "cp"@
    ||| s == "echo"@
    ||| s == "export"@
    ||| s == "false"@
    ||| s == "git"@
    ||| s == "mkdir"@
    ||| s == "mv"@
    ||| s == "node"@
    ||| s == "npm"@
    ||| s == "npx"@
    ||| s == "pnpm"@
    ||| s == "printf"@
    ||| s == "rm"@
    ||| s == "set"@
    ||| s == "sleep"@
    ||| s == "test"@
    ||| s == "true"@
    ||| s == "yarn"@
}

/// The commands that no dependency provides.
pub fn is_system_command(s: &str) -> (r: bool)
    ensures
        r == system_command(s@),
{
    same(s, "bun")
        || same(s, "cd")
        || same(s, "cp")
        || same(s, "echo")
        || same(s, "export")
        || same(s, "false")
        || same(s, "git")
        || same(s, "mkdir")
        || same(s, "mv")
        || same(s, "node")
        || same(s, "npm")
        || same(s, "npx")
        || same(s, "pnpm")
        || same(s, "printf")
        || same(s, "rm")
        || same(s, "set")
        || same(s, "sleep")
        || same(s, "test")
        || same(s, "true")
        || same(s, "yarn")
}

/// Verbs that every supported package manager handles itself. An implicit `run` never applies to them, so they are never package-script calls.
pub open spec fn manager_command(s: Seq<char>) -> bool {
    ||| s == "add"@
    ||| s == "audit"@
    ||| s == "bin"@
    ||| s == "ci"@
    ||| s == "config"@
    ||| s == "dedupe"@
    ||| s == "deploy"@
    ||| s == "import"@
    ||| s == "init"@
    ||| s == "install"@
    ||| s == "i"@
    ||| s == "link"@
    ||| s == "ln"@
    ||| s == "list"@
    ||| s == "login"@
    ||| s == "logout"@
    ||| s == "outdated"@
    ||| s == "pack"@
    ||| s == "patch"@
    ||| s == "pm"@
    ||| s == "prune"@
    ||| s == "publish"@
    ||| s == "rebuild"@
    ||| s == "remove"@
    ||| s == "rm"@
    ||| s == "store"@
    ||| s == "unlink"@
    ||| s == "uninstall"@
    ||| s == "up"@
    ||| s == "update"@
    ||| s == "upgrade"@
    ||| s == "why"@
}

/// Verbs that every supported package manager handles itself. An implicit `run` never applies to them, so they are never package-script calls.
pub fn is_package_manager_command(s: &str) -> (r: bool)
    ensures
        r == manager_command(s@),
{
    same(s, "add")
        || same(s, "audit")
        || same(s, "bin")
        || same(s, "ci")
        || same(s, "config")
        || same(s, "dedupe")
        || same(s, "deploy")
        || same(s, "import")
        || same(s, "init")
        || same(s, "install")
        || same(s, "i")
        || same(s, "link")
        || same(s, "ln")
        || same(s, "list")
        || same(s, "login")
        || same(s, "logout")
        || same(s, "outdated")
        || same(s, "pack")
        || same(s, "patch")
        || same(s, "pm")
        || same(s, "prune")
        || same(s, "publish")
        || same(s, "rebuild")
        || same(s, "remove")
        || same(s, "rm")
        || same(s, "store")
        || same(s, "unlink")
        || same(s, "uninstall")
        || same(s, "up")
        || same(s, "update")
        || same(s, "upgrade")
        || same(s, "why")
}

/// The options of package managers that take the next word.
pub open spec fn manager_option(s: Seq<char>) -> bool {
    ||| s == "--filter"@
    ||| s == "-F"@
    ||| s == "--workspace"@
    ||| s == "--prefix"@
    ||| s == "--cwd"@
    ||| s == "--dir"@
    ||| s == "-C"@
}

/// The options of package managers that take the next word.
fn is_manager_option(s: &str) -> (r: bool)
    ensures
        r == manager_option(s@),
{
    same(s, "--filter")
        || same(s, "-F")
        || same(s, "--workspace")
        || same(s, "--prefix")
        || same(s, "--cwd")
        || same(s, "--dir")
        || same(s, "-C")
}

/// The options of `env` that take the next word.
pub open spec fn env_option(s: Seq<char>) -> bool {
    ||| s == "-u"@
    ||| s == "--unset"@
    ||| s == "-C"@
    ||| s == "--chdir"@
}

/// The options of `env` that take the next word.
fn is_env_option(s: &str) -> (r: bool)
    ensures
        r == env_option(s@),
{
    same(s, "-u")
        || same(s, "--unset")
        || same(s, "-C")
        || same(s, "--chdir")
}

/// The flags of `node` that run the next word as code.
pub open spec fn inline_code_flag(s: Seq<char>) -> bool {
    ||| s == "-e"@
    ||| s == "--eval"@
    ||| s == "-p"@
    ||| s == "--print"@
}

/// The flags of `node` that run the next word as code.
fn is_inline_code_flag(s: &str) -> (r: bool)
    ensures
        r == inline_code_flag(s@),
{
    same(s, "-e")
        || same(s, "--eval")
        || same(s, "-p")
        || same(s, "--print")
}

/// The options of file tools that are followed by a path.
pub open spec fn path_option(s: Seq<char>) -> bool {
    ||| s == "--config"@
    ||| s == "--project"@
    ||| s == "--require"@
    ||| s == "-c"@
    ||| s == "-p"@
    ||| s == "-r"@
}

/// The options of file tools that are followed by a path.
fn is_path_option(s: &str) -> (r: bool)
    ensures
        r == path_option(s@),
{
    same(s, "--config")
        || same(s, "--project")
        || same(s, "--require")
        || same(s, "-c")
        || same(s, "-p")
        || same(s, "-r")
}

/// The commands that run another command line.
pub open spec fn shell_wrapper(s: Seq<char>) -> bool {
    ||| s == "cross-env-shell"@
    ||| s == "sh"@
    ||| s == "bash"@
    ||| s == "cmd"@
    ||| s == "powershell"@
    ||| s == "pwsh"@
}

/// The commands that run another command line.
fn is_shell_wrapper(s: &str) -> (r: bool)
    ensures
        r == shell_wrapper(s@),
{
    same(s, "cross-env-shell")
        || same(s, "sh")
        || same(s, "bash")
        || same(s, "cmd")
        || same(s, "powershell")
        || same(s, "pwsh")
}

/// The commands that run scripts by name.
pub open spec fn script_runner(s: Seq<char>) -> bool {
    ||| s == "npm-run-all"@
    ||| s == "run-s"@
    ||| s == "run-p"@
}

/// The commands that run scripts by name.
fn is_script_runner(s: &str) -> (r: bool)
    ensures
        r == script_runner(s@),
{
    same(s, "npm-run-all")
        || same(s, "run-s")
        || same(s, "run-p")
}

/// The package managers.
pub open spec fn package_manager(s: Seq<char>) -> bool {
    ||| s == "npm"@
    ||| s == "pnpm"@
    ||| s == "yarn"@
    ||| s == "bun"@
}

/// The package managers.
fn is_package_manager(s: &str) -> (r: bool)
    ensures
        r == package_manager(s@),
{
    same(s, "npm")
        || same(s, "pnpm")
        || same(s, "yarn")
        || same(s, "bun")
}

/// The package managers that run a script named by an unknown verb.
pub open spec fn implicit_runner(s: Seq<char>) -> bool {
    ||| s == "yarn"@
    ||| s == "pnpm"@
    ||| s == "bun"@
}

/// The package managers that run a script named by an unknown verb.
fn is_implicit_runner(s: &str) -> (r: bool)
    ensures
        r == implicit_runner(s@),
{
    same(s, "yarn")
        || same(s, "pnpm")
        || same(s, "bun")
}

/// The verbs of `npm` that run the script of that name.
pub open spec fn npm_script_verb(s: Seq<char>) -> bool {
    ||| s == "start"@
    ||| s == "stop"@
    ||| s == "restart"@
    ||| s == "test"@
}

/// The verbs of `npm` that run the script of that name.
fn is_npm_script_verb(s: &str) -> (r: bool)
    ensures
        r == npm_script_verb(s@),
{
    same(s, "start")
        || same(s, "stop")
        || same(s, "restart")
        || same(s, "test")
}

/// The verbs of package managers that run a program.
pub open spec fn exec_verb(s: Seq<char>) -> bool {
    ||| s == "exec"@
    ||| s == "dlx"@
    ||| s == "x"@
}

/// The verbs of package managers that run a program.
fn is_exec_verb(s: &str) -> (r: bool)
    ensures
        r == exec_verb(s@),
{
    same(s, "exec")
        || same(s, "dlx")
        || same(s, "x")
}

/// Whether a word is an option.
pub open spec fn dashed(token: ScriptTokenModel) -> bool {
    "-"@.is_prefix_of(token.value)
}

/// How many tokens stand at or after `index`.
pub open spec fn left_from(tokens: Seq<ScriptTokenModel>, index: nat) -> nat {
    if index < tokens.len() {
        (tokens.len() - index) as nat
    } else {
        0
    }
}

/// The position behind `index` and the word that it takes.
pub open spec fn past_two(tokens: Seq<ScriptTokenModel>, index: nat) -> nat {
    if index + 2 <= tokens.len() {
        index + 2
    } else {
        tokens.len()
    }
}

fn skip_two(tokens: &Vec<ScriptToken>, index: usize) -> (r: usize)
    requires
        index <= tokens@.len(),
    ensures
        r == past_two(tokens.deep_view(), index as nat),
        r <= tokens@.len(),
{
    let end: usize = tokens.len();
    if end - index >= 2 {
        index + 2
    } else {
        end
    }
}

/// The first token at or after `index` that is no option; the end when there is none.
pub open spec fn first_plain(tokens: Seq<ScriptTokenModel>, index: nat) -> nat
    decreases left_from(tokens, index),
{
    if index < tokens.len() && dashed(tokens[index as int]) {
        first_plain(tokens, index + 1)
    } else {
        index
    }
}

pub proof fn first_plain_bounds(tokens: Seq<ScriptTokenModel>, index: nat)
    ensures
        index <= first_plain(tokens, index),
        index <= tokens.len() ==> first_plain(tokens, index) <= tokens.len(),
    decreases left_from(tokens, index),
{
    if index < tokens.len() && dashed(tokens[index as int]) {
        first_plain_bounds(tokens, index + 1);
    }
}

fn skip_options(tokens: &Vec<ScriptToken>, start: usize) -> (r: usize)
    requires
        start <= tokens@.len(),
    ensures
        r == first_plain(tokens.deep_view(), start as nat),
        start <= r <= tokens@.len(),
{
    let mut index: usize = start;
    while index < tokens.len() && starts_with(&tokens[index].value, "-")
        invariant
            start <= index <= tokens@.len(),
            first_plain(tokens.deep_view(), start as nat) == first_plain(
                tokens.deep_view(),
                index as nat,
            ),
        decreases tokens.len() - index,
    {
        index = index + 1;
    }
    index
}

/// The position behind the options of `env` at `index`.
pub open spec fn past_env_options(tokens: Seq<ScriptTokenModel>, index: nat) -> nat
    decreases left_from(tokens, index),
{
    if index >= tokens.len() {
        index
    } else if env_option(tokens[index as int].value) {
        past_env_options(tokens, past_two(tokens, index))
    } else if dashed(tokens[index as int]) {
        past_env_options(tokens, index + 1)
    } else {
        index
    }
}

pub proof fn past_env_options_bounds(tokens: Seq<ScriptTokenModel>, index: nat)
    ensures
        index <= past_env_options(tokens, index),
    decreases left_from(tokens, index),
{
    if index < tokens.len() {
        if env_option(tokens[index as int].value) {
            past_env_options_bounds(tokens, past_two(tokens, index));
        } else if dashed(tokens[index as int]) {
            past_env_options_bounds(tokens, index + 1);
        }
    }
}

fn skip_env_options(tokens: &Vec<ScriptToken>, start: usize) -> (r: usize)
    requires
        start <= tokens@.len(),
    ensures
        r == past_env_options(tokens.deep_view(), start as nat),
        start <= r <= tokens@.len(),
{
    let mut index: usize = start;
    while index < tokens.len()
        invariant
            start <= index <= tokens@.len(),
            past_env_options(tokens.deep_view(), start as nat) == past_env_options(
                tokens.deep_view(),
                index as nat,
            ),
        decreases tokens.len() - index,
    {
        assert(tokens.deep_view()[index as int] == tokens@[index as int].deep_view());
        if is_env_option(&tokens[index].value) {
            index = skip_two(tokens, index);
        } else if starts_with(&tokens[index].value, "-") {
            index = index + 1;
        } else {
            return index;
        }
    }
    index
}

/// A module loaded by `node` is a file or a package.
pub open spec fn with_loader(
    c: SegmentContributionModel,
    script: Seq<char>,
    value: Seq<char>,
    span: ScriptSpan,
) -> SegmentContributionModel {
    with_reference(
        c,
        script,
        if file_like(value) {
            ScriptReferenceKind::File
        } else {
            ScriptReferenceKind::Package
        },
        value,
        span,
    )
}

fn add_node_loader_reference(
    script_name: &str,
    value: &str,
    span: ScriptSpan,
    contribution: &mut SegmentContribution,
)
    ensures
        final(contribution).deep_view() == with_loader(
            old(contribution).deep_view(),
            script_name@,
            value@,
            span,
        ),
{
    let kind = if looks_like_file(value) {
        ScriptReferenceKind::File
    } else {
        ScriptReferenceKind::Package
    };
    add_reference(contribution, script_name, kind, value, span);
}

/// The modules that the words of `NODE_OPTIONS` from `index` on load.
pub open spec fn option_loaders(
    script: Seq<char>,
    tokens: Seq<ScriptTokenModel>,
    index: nat,
    outer: ScriptSpan,
    c: SegmentContributionModel,
) -> SegmentContributionModel
    decreases left_from(tokens, index),
{
    if index >= tokens.len() {
        c
    } else {
        let token = tokens[index as int];
        match inline_loader(token.value) {
            Some(value) => option_loaders(
                script,
                tokens,
                index + 1,
                outer,
                with_loader(c, script, value, outer),
            ),
            None => if loader_flag(token.value) {
                option_loaders(
                    script,
                    tokens,
                    past_two(tokens, index),
                    outer,
                    if index + 1 < tokens.len() {
                        with_loader(c, script, tokens[index as int + 1].value, outer)
                    } else {
                        c
                    },
                )
            } else {
                option_loaders(script, tokens, index + 1, outer, c)
            },
        }
    }
}

/// What a value of `NODE_OPTIONS` contributes.
pub open spec fn node_options(
    script: Seq<char>,
    options: Seq<char>,
    outer: ScriptSpan,
    c: SegmentContributionModel,
) -> SegmentContributionModel {
    let t = tokenized(options);
    if t.unmodeled.len() > 0 || t.segments.len() != 1 {
        with_unmodeled(c, outer, UnmodeledScriptKind::ShellExpansion)
    } else {
        option_loaders(script, t.segments[0].tokens, 0, outer, c)
    }
}

fn analyze_node_options(
    script_name: &str,
    options: &str,
    outer_span: ScriptSpan,
    contribution: &mut SegmentContribution,
)
    ensures
        final(contribution).deep_view() == node_options(
            script_name@,
            options@,
            outer_span,
            old(contribution).deep_view(),
        ),
{
    let tokenized_options = tokenize_script(options);
    if tokenized_options.unmodeled.len() > 0 || tokenized_options.segments.len() != 1 {
        add_unmodeled(contribution, outer_span, UnmodeledScriptKind::ShellExpansion);
        return ;
    }
    let tokens = &tokenized_options.segments[0].tokens;
    let ghost start = contribution.deep_view();
    let ghost words = tokens.deep_view();
    assert(words == tokenized(options@).segments[0].tokens);
    let mut index: usize = 0;
    while index < tokens.len()
        invariant
            index <= tokens@.len(),
            words == tokens.deep_view(),
            option_loaders(script_name@, words, 0, outer_span, start) == option_loaders(
                script_name@,
                words,
                index as nat,
                outer_span,
                contribution.deep_view(),
            ),
        decreases tokens.len() - index,
    {
        assert(words[index as int] == tokens@[index as int].deep_view());
        let token = &tokens[index];
        if let Some(value) = inline_node_loader_value(&token.value) {
            add_node_loader_reference(script_name, &value, outer_span, contribution);
            index = index + 1;
        } else if is_node_loader_flag(&token.value) {
            if index + 1 < tokens.len() {
                assert(words[index + 1] == tokens@[index + 1].deep_view());
                add_node_loader_reference(
                    script_name,
                    &tokens[index + 1].value,
                    outer_span,
                    contribution,
                );
            }
            index = skip_two(tokens, index);
        } else {
            index = index + 1;
        }
    }
}

/// The position behind the environment assignments at `index`.
pub open spec fn past_assignments(tokens: Seq<ScriptTokenModel>, index: nat) -> nat
    decreases left_from(tokens, index),
{
    if index < tokens.len() && assignment(tokens[index as int].value) is Some {
        past_assignments(tokens, index + 1)
    } else {
        index
    }
}

/// What the environment assignments at `index` contribute.
pub open spec fn assigned(
    script: Seq<char>,
    tokens: Seq<ScriptTokenModel>,
    index: nat,
    c: SegmentContributionModel,
) -> SegmentContributionModel
    decreases left_from(tokens, index),
{
    if index >= tokens.len() {
        c
    } else {
        match assignment(tokens[index as int].value) {
            None => c,
            Some((name, value)) => assigned(
                script,
                tokens,
                index + 1,
                if name == "NODE_OPTIONS"@ {
                    node_options(script, value, tokens[index as int].span, c)
                } else {
                    c
                },
            ),
        }
    }
}

pub proof fn past_assignments_bounds(tokens: Seq<ScriptTokenModel>, index: nat)
    ensures
        index <= past_assignments(tokens, index),
    decreases left_from(tokens, index),
{
    if index < tokens.len() && assignment(tokens[index as int].value) is Some {
        past_assignments_bounds(tokens, index + 1);
    }
}

fn consume_environment_assignments(
    script_name: &str,
    tokens: &Vec<ScriptToken>,
    start: usize,
    contribution: &mut SegmentContribution,
) -> (r: usize)
    requires
        start <= tokens@.len(),
    ensures
        r == past_assignments(tokens.deep_view(), start as nat),
        start <= r <= tokens@.len(),
        final(contribution).deep_view() == assigned(
            script_name@,
            tokens.deep_view(),
            start as nat,
            old(contribution).deep_view(),
        ),
{
    let ghost first = contribution.deep_view();
    let ghost words = tokens.deep_view();
    let mut index: usize = start;
    while index < tokens.len()
        invariant
            start <= index <= tokens@.len(),
            first == old(contribution).deep_view(),
            words == tokens.deep_view(),
            past_assignments(words, start as nat) == past_assignments(words, index as nat),
            assigned(script_name@, words, start as nat, first) == assigned(
                script_name@,
                words,
                index as nat,
                contribution.deep_view(),
            ),
        decreases tokens.len() - index,
    {
        assert(words[index as int] == tokens@[index as int].deep_view());
        match environment_assignment(&tokens[index].value) {
            None => {
                return index;
            },
            Some((name, value)) => {
                if same(&name, "NODE_OPTIONS") {
                    analyze_node_options(script_name, &value, tokens[index].span, contribution);
                }
            },
        }
        index = index + 1;
    }
    index
}

/// The position of the command that the words from `index` on run, with what the words in front
/// of it contribute.
pub open spec fn command_from(
    script: Seq<char>,
    tokens: Seq<ScriptTokenModel>,
    index: nat,
    c: SegmentContributionModel,
) -> (Option<nat>, SegmentContributionModel)
    decreases left_from(tokens, index),
{
    if index >= tokens.len() {
        (None, c)
    } else {
        let name = program_name(tokens[index as int].value);
        if name == "env"@ {
            let i = past_env_options(tokens, index + 1);
            proof {
                past_env_options_bounds(tokens, index + 1);
                past_assignments_bounds(tokens, i);
            }
            command_from(
                script,
                tokens,
                past_assignments(tokens, i),
                assigned(script, tokens, i, c),
            )
        } else if name == "cross-env"@ {
            let i = first_plain(tokens, index + 1);
            proof {
                first_plain_bounds(tokens, index + 1);
                past_assignments_bounds(tokens, i);
            }
            command_from(
                script,
                tokens,
                past_assignments(tokens, i),
                assigned(script, tokens, i, c),
            )
        } else if name == "command"@ || name == "exec"@ {
            proof {
                first_plain_bounds(tokens, index + 1);
            }
            command_from(script, tokens, first_plain(tokens, index + 1), c)
        } else {
            (Some(index), c)
        }
    }
}

/// The command of a segment, behind its environment assignments.
pub open spec fn command_of(
    script: Seq<char>,
    tokens: Seq<ScriptTokenModel>,
    c: SegmentContributionModel,
) -> (Option<nat>, SegmentContributionModel) {
    command_from(script, tokens, past_assignments(tokens, 0), assigned(script, tokens, 0, c))
}

fn find_command_index(
    script_name: &str,
    tokens: &Vec<ScriptToken>,
    contribution: &mut SegmentContribution,
) -> (r: Option<usize>)
    ensures
        r matches Some(i) ==> i < tokens@.len() && command_of(
            script_name@,
            tokens.deep_view(),
            old(contribution).deep_view(),
        ).0 == Some(i as nat),
        r is None ==> command_of(
            script_name@,
            tokens.deep_view(),
            old(contribution).deep_view(),
        ).0 is None,
        final(contribution).deep_view() == command_of(
            script_name@,
            tokens.deep_view(),
            old(contribution).deep_view(),
        ).1,
{
    let ghost first = contribution.deep_view();
    let ghost words = tokens.deep_view();
    let mut index = consume_environment_assignments(script_name, tokens, 0, contribution);
    while index < tokens.len()
        invariant
            index <= tokens@.len(),
            first == old(contribution).deep_view(),
            words == tokens.deep_view(),
            command_of(script_name@, words, first) == command_from(
                script_name@,
                words,
                index as nat,
                contribution.deep_view(),
            ),
        decreases tokens.len() - index,
    {
        assert(words[index as int] == tokens@[index as int].deep_view());
        let name = binary_name(&tokens[index].value);
        if same(&name, "env") {
            index = skip_env_options(tokens, index + 1);
            index = consume_environment_assignments(script_name, tokens, index, contribution);
        } else if same(&name, "cross-env") {
            index = skip_options(tokens, index + 1);
            index = consume_environment_assignments(script_name, tokens, index, contribution);
        } else if same(&name, "command") || same(&name, "exec") {
            index = skip_options(tokens, index + 1);
        } else {
            return Some(index);
        }
    }
    None
}

/// The position of the verb of a package manager.
pub open spec fn action_index(tokens: Seq<ScriptTokenModel>, index: nat) -> nat
    decreases left_from(tokens, index),
{
    if index >= tokens.len() {
        index
    } else if manager_option(tokens[index as int].value) {
        action_index(tokens, past_two(tokens, index))
    } else if dashed(tokens[index as int]) {
        action_index(tokens, index + 1)
    } else {
        index
    }
}

fn package_manager_action_index(tokens: &Vec<ScriptToken>, start: usize) -> (r: usize)
    requires
        start <= tokens@.len(),
    ensures
        r == action_index(tokens.deep_view(), start as nat),
        r <= tokens@.len(),
{
    let mut index: usize = start;
    while index < tokens.len()
        invariant
            index <= tokens@.len(),
            action_index(tokens.deep_view(), start as nat) == action_index(
                tokens.deep_view(),
                index as nat,
            ),
        decreases tokens.len() - index,
    {
        assert(tokens.deep_view()[index as int] == tokens@[index as int].deep_view());
        if is_manager_option(&tokens[index].value) {
            index = skip_two(tokens, index);
        } else if starts_with(&tokens[index].value, "-") {
            index = index + 1;
        } else {
            return index;
        }
    }
    index
}

/// What the words from `index` on behind a program runner contribute.
pub open spec fn executed(
    script: Seq<char>,
    tokens: Seq<ScriptTokenModel>,
    index: nat,
    c: SegmentContributionModel,
) -> SegmentContributionModel
    decreases left_from(tokens, index),
{
    if index >= tokens.len() {
        c
    } else {
        let token = tokens[index as int];
        if token.value == "--package"@ || token.value == "-p"@ {
            executed(
                script,
                tokens,
                past_two(tokens, index),
                if index + 1 < tokens.len() {
                    with_reference(
                        c,
                        script,
                        ScriptReferenceKind::Package,
                        tokens[index as int + 1].value,
                        tokens[index as int + 1].span,
                    )
                } else {
                    c
                },
            )
        } else {
            match without_prefix(token.value, "--package="@) {
                Some(package) => executed(
                    script,
                    tokens,
                    index + 1,
                    with_reference(c, script, ScriptReferenceKind::Package, package, token.span),
                ),
                None => if dashed(token) {
                    executed(script, tokens, index + 1, c)
                } else {
                    with_reference(
                        c,
                        script,
                        ScriptReferenceKind::Binary,
                        program_name(token.value),
                        token.span,
                    )
                },
            }
        }
    }
}

fn analyze_exec_command(
    script_name: &str,
    tokens: &Vec<ScriptToken>,
    start: usize,
    contribution: &mut SegmentContribution,
)
    requires
        start <= tokens@.len(),
    ensures
        final(contribution).deep_view() == executed(
            script_name@,
            tokens.deep_view(),
            start as nat,
            old(contribution).deep_view(),
        ),
{
    let ghost first = contribution.deep_view();
    let ghost words = tokens.deep_view();
    let mut index: usize = start;
    while index < tokens.len()
        invariant
            index <= tokens@.len(),
            first == old(contribution).deep_view(),
            words == tokens.deep_view(),
            executed(script_name@, words, start as nat, first) == executed(
                script_name@,
                words,
                index as nat,
                contribution.deep_view(),
            ),
        decreases tokens.len() - index,
    {
        assert(words[index as int] == tokens@[index as int].deep_view());
        let token = &tokens[index];
        if same(&token.value, "--package") || same(&token.value, "-p") {
            if index + 1 < tokens.len() {
                assert(words[index + 1] == tokens@[index + 1].deep_view());
                let package = &tokens[index + 1];
                add_reference(
                    contribution,
                    script_name,
                    ScriptReferenceKind::Package,
                    &package.value,
                    package.span,
                );
            }
            index = skip_two(tokens, index);
        } else if let Some(package) = strip_prefix(&token.value, "--package=") {
            add_reference(
                contribution,
                script_name,
                ScriptReferenceKind::Package,
                &package,
                token.span,
            );
            index = index + 1;
        } else if starts_with(&token.value, "-") {
            index = index + 1;
        } else {
            let name = binary_name(&token.value);
            add_reference(
                contribution,
                script_name,
                ScriptReferenceKind::Binary,
                &name,
                token.span,
            );
            return ;
        }
    }
}

/// What the words from `start` on behind a package manager contribute.
pub open spec fn managed(
    script: Seq<char>,
    manager: Seq<char>,
    tokens: Seq<ScriptTokenModel>,
    start: nat,
    c: SegmentContributionModel,
) -> SegmentContributionModel {
    let action = action_index(tokens, start);
    if action >= tokens.len() {
        c
    } else {
        let first = tokens[action as int];
        if first.value == "run"@ || first.value == "run-script"@ {
            let callee = first_plain(tokens, action + 1);
            if callee < tokens.len() {
                with_nested(c, tokens[callee as int].value, tokens[callee as int].span)
            } else {
                c
            }
        } else if manager == "npm"@ && npm_script_verb(first.value) {
            with_nested(c, first.value, first.span)
        } else if exec_verb(first.value) {
            executed(script, tokens, action + 1, c)
        } else if implicit_runner(manager) && !dashed(first) && !manager_command(first.value) {
            with_nested(c, first.value, first.span)
        } else {
            c
        }
    }
}

fn analyze_package_manager(
    script_name: &str,
    manager: &str,
    tokens: &Vec<ScriptToken>,
    start: usize,
    contribution: &mut SegmentContribution,
)
    requires
        start <= tokens@.len(),
    ensures
        final(contribution).deep_view() == managed(
            script_name@,
            manager@,
            tokens.deep_view(),
            start as nat,
            old(contribution).deep_view(),
        ),
{
    let action = package_manager_action_index(tokens, start);
    if action >= tokens.len() {
        return ;
    }
    assert(tokens.deep_view()[action as int] == tokens@[action as int].deep_view());
    let first = &tokens[action];
    if same(&first.value, "run") || same(&first.value, "run-script") {
        let callee = skip_options(tokens, action + 1);
        if callee < tokens.len() {
            assert(tokens.deep_view()[callee as int] == tokens@[callee as int].deep_view());
            add_nested(contribution, &tokens[callee].value, tokens[callee].span);
        }
        return ;
    }
    if same(manager, "npm") && is_npm_script_verb(&first.value) {
        add_nested(contribution, &first.value, first.span);
        return ;
    }
    if is_exec_verb(&first.value) {
        analyze_exec_command(script_name, tokens, action + 1, contribution);
        return ;
    }
    if is_implicit_runner(manager) && !starts_with(&first.value, "-")
        && !is_package_manager_command(&first.value) {
        add_nested(contribution, &first.value, first.span);
    }
}

/// The scripts named by the words from `index` on.
pub open spec fn listed(
    tokens: Seq<ScriptTokenModel>,
    index: nat,
    c: SegmentContributionModel,
) -> SegmentContributionModel
    decreases left_from(tokens, index),
{
    if index >= tokens.len() {
        c
    } else {
        let token = tokens[index as int];
        listed(
            tokens,
            index + 1,
            if dashed(token) {
                c
            } else {
                with_nested(c, token.value, token.span)
            },
        )
    }
}

fn analyze_script_list(
    tokens: &Vec<ScriptToken>,
    start: usize,
    contribution: &mut SegmentContribution,
)
    requires
        start <= tokens@.len(),
    ensures
        final(contribution).deep_view() == listed(
            tokens.deep_view(),
            start as nat,
            old(contribution).deep_view(),
        ),
{
    let ghost first = contribution.deep_view();
    let mut index: usize = start;
    while index < tokens.len()
        invariant
            index <= tokens@.len(),
            listed(tokens.deep_view(), start as nat, first) == listed(
                tokens.deep_view(),
                index as nat,
                contribution.deep_view(),
            ),
        decreases tokens.len() - index,
    {
        assert(tokens.deep_view()[index as int] == tokens@[index as int].deep_view());
        let token = &tokens[index];
        if !starts_with(&token.value, "-") {
            add_nested(contribution, &token.value, token.span);
        }
        index = index + 1;
    }
}

/// What the words from `index` on behind `node` contribute.
pub open spec fn node_words(
    script: Seq<char>,
    tokens: Seq<ScriptTokenModel>,
    index: nat,
    test_mode: bool,
    c: SegmentContributionModel,
) -> SegmentContributionModel
    decreases left_from(tokens, index),
{
    if index >= tokens.len() {
        c
    } else {
        let token = tokens[index as int];
        if let Some(value) = inline_loader(token.value) {
            node_words(
                script,
                tokens,
                index + 1,
                test_mode,
                with_loader(c, script, value, token.span),
            )
        } else if loader_flag(token.value) {
            node_words(
                script,
                tokens,
                past_two(tokens, index),
                test_mode,
                if index + 1 < tokens.len() {
                    with_loader(
                        c,
                        script,
                        tokens[index as int + 1].value,
                        tokens[index as int + 1].span,
                    )
                } else {
                    c
                },
            )
        } else if inline_code_flag(token.value) {
            with_unmodeled(
                c,
                ScriptSpan {
                    start: token.span.start,
                    end: if index + 1 < tokens.len() {
                        tokens[index as int + 1].span.end
                    } else {
                        token.span.end
                    },
                },
                UnmodeledScriptKind::InlineCode,
            )
        } else if token.value == "--test"@ || "--test="@.is_prefix_of(token.value) {
            node_words(script, tokens, index + 1, true, c)
        } else if dashed(token) {
            node_words(
                script,
                tokens,
                if valued_node_flag(token.value) {
                    past_two(tokens, index)
                } else {
                    index + 1
                },
                test_mode,
                c,
            )
        } else {
            let next = if file_like(token.value) {
                with_reference(c, script, ScriptReferenceKind::File, token.value, token.span)
            } else {
                c
            };
            if test_mode {
                node_words(script, tokens, index + 1, test_mode, next)
            } else {
                next
            }
        }
    }
}

fn analyze_node_command(
    script_name: &str,
    tokens: &Vec<ScriptToken>,
    start: usize,
    contribution: &mut SegmentContribution,
)
    requires
        start <= tokens@.len(),
    ensures
        final(contribution).deep_view() == node_words(
            script_name@,
            tokens.deep_view(),
            start as nat,
            false,
            old(contribution).deep_view(),
        ),
{
    let ghost first = contribution.deep_view();
    let ghost words = tokens.deep_view();
    let mut index: usize = start;
    let mut test_mode = false;
    while index < tokens.len()
        invariant
            index <= tokens@.len(),
            first == old(contribution).deep_view(),
            words == tokens.deep_view(),
            node_words(script_name@, words, start as nat, false, first) == node_words(
                script_name@,
                words,
                index as nat,
                test_mode,
                contribution.deep_view(),
            ),
        decreases tokens.len() - index,
    {
        assert(words[index as int] == tokens@[index as int].deep_view());
        let token = &tokens[index];
        if let Some(value) = inline_node_loader_value(&token.value) {
            add_node_loader_reference(script_name, &value, token.span, contribution);
            index = index + 1;
        } else if is_node_loader_flag(&token.value) {
            if index + 1 < tokens.len() {
                assert(words[index + 1] == tokens@[index + 1].deep_view());
                let value = &tokens[index + 1];
                add_node_loader_reference(script_name, &value.value, value.span, contribution);
            }
            index = skip_two(tokens, index);
        } else if is_inline_code_flag(&token.value) {
            let end: usize = if index + 1 < tokens.len() {
                assert(words[index + 1] == tokens@[index + 1].deep_view());
                tokens[index + 1].span.end
            } else {
                token.span.end
            };
            add_unmodeled(
                contribution,
                ScriptSpan { start: token.span.start, end },
                UnmodeledScriptKind::InlineCode,
            );
            return ;
        } else if same(&token.value, "--test") || starts_with(&token.value, "--test=") {
            test_mode = true;
            index = index + 1;
        } else if starts_with(&token.value, "-") {
            if node_flag_takes_value(&token.value) {
                index = skip_two(tokens, index);
            } else {
                index = index + 1;
            }
        } else {
            if looks_like_file(&token.value) {
                add_reference(
                    contribution,
                    script_name,
                    ScriptReferenceKind::File,
                    &token.value,
                    token.span,
                );
            }
            index = index + 1;
            if !test_mode {
                return ;
            }
        }
    }
}

/// The files named by the words from `index` on behind a file tool.
pub open spec fn tool_files(
    script: Seq<char>,
    tokens: Seq<ScriptTokenModel>,
    index: nat,
    wants_path: bool,
    c: SegmentContributionModel,
) -> SegmentContributionModel
    decreases left_from(tokens, index),
{
    if index >= tokens.len() {
        c
    } else {
        let token = tokens[index as int];
        if wants_path || (!dashed(token) && file_like(token.value)) {
            tool_files(
                script,
                tokens,
                index + 1,
                false,
                if file_like(token.value) {
                    with_reference(c, script, ScriptReferenceKind::File, token.value, token.span)
                } else {
                    c
                },
            )
        } else {
            tool_files(script, tokens, index + 1, path_option(token.value), c)
        }
    }
}

fn analyze_tool_files(
    script_name: &str,
    tokens: &Vec<ScriptToken>,
    start: usize,
    contribution: &mut SegmentContribution,
)
    requires
        start <= tokens@.len(),
    ensures
        final(contribution).deep_view() == tool_files(
            script_name@,
            tokens.deep_view(),
            start as nat,
            false,
            old(contribution).deep_view(),
        ),
{
    let ghost first = contribution.deep_view();
    let ghost words = tokens.deep_view();
    let mut index: usize = start;
    let mut previous_wants_path = false;
    while index < tokens.len()
        invariant
            index <= tokens@.len(),
            words == tokens.deep_view(),
            tool_files(script_name@, words, start as nat, false, first) == tool_files(
                script_name@,
                words,
                index as nat,
                previous_wants_path,
                contribution.deep_view(),
            ),
        decreases tokens.len() - index,
    {
        assert(words[index as int] == tokens@[index as int].deep_view());
        let token = &tokens[index];
        if previous_wants_path || (!starts_with(&token.value, "-") && looks_like_file(
            &token.value,
        )) {
            if looks_like_file(&token.value) {
                add_reference(
                    contribution,
                    script_name,
                    ScriptReferenceKind::File,
                    &token.value,
                    token.span,
                );
            }
            previous_wants_path = false;
        } else {
            previous_wants_path = is_path_option(&token.value);
        }
        index = index + 1;
    }
}

/// The flag of a shell behind which its command line stands.
pub open spec fn command_flag(wrapper: Seq<char>, word: Seq<char>) -> bool {
    if wrapper == "cmd"@ {
        ascii_lowered(word) == "/c"@
    } else if wrapper == "powershell"@ || wrapper == "pwsh"@ {
        ascii_lowered(word) == "-command"@ || ascii_lowered(word) == "-c"@
    } else {
        word == "-c"@
    }
}

fn is_command_flag(wrapper: &str, word: &str) -> (r: bool)
    ensures
        r == command_flag(wrapper@, word@),
{
    if same(wrapper, "cmd") {
        same(&to_ascii_lowercase(word), "/c")
    } else if same(wrapper, "powershell") || same(wrapper, "pwsh") {
        let lowered = to_ascii_lowercase(word);
        same(&lowered, "-command") || same(&lowered, "-c")
    } else {
        same(word, "-c")
    }
}

/// The position of the command line that a shell runs, from `index` on.
pub open spec fn command_line(
    wrapper: Seq<char>,
    tokens: Seq<ScriptTokenModel>,
    index: nat,
) -> Option<nat>
    decreases left_from(tokens, index),
{
    if wrapper == "cross-env-shell"@ {
        if past_assignments(tokens, index) < tokens.len() {
            Some(past_assignments(tokens, index))
        } else {
            None
        }
    } else if index + 1 >= tokens.len() {
        None
    } else if command_flag(wrapper, tokens[index as int].value) {
        Some(index + 1)
    } else {
        command_line(wrapper, tokens, index + 1)
    }
}

fn find_command_line(wrapper: &str, tokens: &Vec<ScriptToken>, start: usize) -> (r: Option<usize>)
    requires
        start <= tokens@.len(),
    ensures
        match r {
            Some(i) => i < tokens@.len() && command_line(
                wrapper@,
                tokens.deep_view(),
                start as nat,
            ) == Some(i as nat),
            None => command_line(wrapper@, tokens.deep_view(), start as nat) is None,
        },
{
    let ghost words = tokens.deep_view();
    let mut index: usize = start;
    if same(wrapper, "cross-env-shell") {
        while index < tokens.len()
            invariant
                index <= tokens@.len(),
                wrapper@ == "cross-env-shell"@,
                words == tokens.deep_view(),
                past_assignments(words, start as nat) == past_assignments(words, index as nat),
            decreases tokens.len() - index,
        {
            assert(words[index as int] == tokens@[index as int].deep_view());
            if environment_assignment(&tokens[index].value).is_none() {
                return Some(index);
            }
            index = index + 1;
        }
        return None;
    }
    while index < tokens.len() && tokens.len() - index > 1
        invariant
            index <= tokens@.len(),
            wrapper@ != "cross-env-shell"@,
            words == tokens.deep_view(),
            command_line(wrapper@, words, start as nat) == command_line(
                wrapper@,
                words,
                index as nat,
            ),
        decreases tokens.len() - index,
    {
        assert(words[index as int] == tokens@[index as int].deep_view());
        if is_command_flag(wrapper, &tokens[index].value) {
            return Some(index + 1);
        }
        index = index + 1;
    }
    None
}

/// A contribution seen from outside a quoted command line: everything stands at `span`.
pub open spec fn relocated(
    c: SegmentContributionModel,
    nested: SegmentContributionModel,
    span: ScriptSpan,
) -> SegmentContributionModel {
    SegmentContributionModel {
        nested_scripts: with_items::<(String, ScriptSpan)>(
            c.nested_scripts,
            nested.nested_scripts.map_values(|n: (Seq<char>, ScriptSpan)| (n.0, span)),
        ),
        references: with_items::<ScriptReference>(
            c.references,
            nested.references.map_values(
                |r: ScriptReferenceModel| (ScriptReferenceModel { span, ..r }),
            ),
        ),
        unmodeled: with_items::<(ScriptSpan, UnmodeledScriptKind)>(
            c.unmodeled,
            nested.unmodeled.map_values(|u: (ScriptSpan, UnmodeledScriptKind)| (span, u.1)),
        ),
    }
}

fn relocate(
    contribution: &mut SegmentContribution,
    nested: SegmentContribution,
    span: ScriptSpan,
)
    ensures
        final(contribution).deep_view() == relocated(
            old(contribution).deep_view(),
            nested.deep_view(),
            span,
        ),
{
    let ghost calls = nested.deep_view().nested_scripts.map_values(
        |n: (Seq<char>, ScriptSpan)| (n.0, span),
    );
    let mut moved_calls: Vec<(String, ScriptSpan)> = Vec::new();
    let mut i: usize = 0;
    while i < nested.nested_scripts.items().len()
        invariant
            i <= nested.nested_scripts.items().len(),
            calls == nested.deep_view().nested_scripts.map_values(
                |n: (Seq<char>, ScriptSpan)| (n.0, span),
            ),
            moved_calls.deep_view() == calls.take(i as int),
        decreases nested.nested_scripts.items().len() - i,
    {
        push_item(&mut moved_calls, (nested.nested_scripts.items()[i].0.replicate(), span));
        i = i + 1;
        assert(moved_calls.deep_view() =~= calls.take(i as int));
    }
    assert(calls.take(i as int) =~= calls);
    contribution.nested_scripts.extend(&moved_calls);

    let ghost references = nested.deep_view().references.map_values(
        |r: ScriptReferenceModel| (ScriptReferenceModel { span, ..r }),
    );
    let mut moved_references: Vec<ScriptReference> = Vec::new();
    let mut j: usize = 0;
    while j < nested.references.items().len()
        invariant
            j <= nested.references.items().len(),
            references == nested.deep_view().references.map_values(
                |r: ScriptReferenceModel| (ScriptReferenceModel { span, ..r }),
            ),
            moved_references.deep_view() == references.take(j as int),
        decreases nested.references.items().len() - j,
    {
        let reference = &nested.references.items()[j];
        push_item(
            &mut moved_references,
            ScriptReference {
                script: reference.script.replicate(),
                kind: reference.kind,
                value: reference.value.replicate(),
                span,
            },
        );
        j = j + 1;
        assert(moved_references.deep_view() =~= references.take(j as int));
    }
    assert(references.take(j as int) =~= references);
    contribution.references.extend(&moved_references);

    let ghost unmodeled = nested.deep_view().unmodeled.map_values(
        |u: (ScriptSpan, UnmodeledScriptKind)| (span, u.1),
    );
    let mut moved_unmodeled: Vec<(ScriptSpan, UnmodeledScriptKind)> = Vec::new();
    let mut k: usize = 0;
    while k < nested.unmodeled.items().len()
        invariant
            k <= nested.unmodeled.items().len(),
            unmodeled == nested.deep_view().unmodeled.map_values(
                |u: (ScriptSpan, UnmodeledScriptKind)| (span, u.1),
            ),
            moved_unmodeled.deep_view() == unmodeled.take(k as int),
        decreases nested.unmodeled.items().len() - k,
    {
        push_item(&mut moved_unmodeled, (span, nested.unmodeled.items()[k].1));
        k = k + 1;
        assert(moved_unmodeled.deep_view() =~= unmodeled.take(k as int));
    }
    assert(unmodeled.take(k as int) =~= unmodeled);
    contribution.unmodeled.extend(&moved_unmodeled);
}

/// How many more shells may be entered.
pub open spec fn shells_left(depth: nat) -> nat {
    if depth < 4 {
        (4 - depth) as nat
    } else {
        0
    }
}

/// What a shell with the words from `start` on contributes.
pub open spec fn wrapped(
    script: Seq<char>,
    wrapper: Seq<char>,
    tokens: Seq<ScriptTokenModel>,
    start: nat,
    depth: nat,
    segment_span: ScriptSpan,
    c: SegmentContributionModel,
) -> SegmentContributionModel
    decreases shells_left(depth), 1nat, 0nat,
{
    if depth >= 4 {
        with_unmodeled(c, segment_span, UnmodeledScriptKind::UnsupportedShellWrapper)
    } else {
        match command_line(wrapper, tokens, start) {
            None => with_unmodeled(c, segment_span, UnmodeledScriptKind::UnsupportedShellWrapper),
            Some(index) => {
                let command = tokens[index as int];
                let nested = tokenized(command.value);
                if nested.unmodeled.len() > 0 {
                    with_unmodeled(
                        c,
                        command.span,
                        UnmodeledScriptKind::UnsupportedShellWrapper,
                    )
                } else {
                    relocated(
                        c,
                        all_segments(script, nested.segments, depth + 1),
                        command.span,
                    )
                }
            },
        }
    }
}

/// What the segments of a quoted command line contribute together.
pub open spec fn all_segments(
    script: Seq<char>,
    segments: Seq<ScriptSegmentModel>,
    depth: nat,
) -> SegmentContributionModel
    decreases shells_left(depth), 3nat, segments.len(),
{
    if segments.len() == 0 {
        no_contribution()
    } else {
        analyzed_segment(
            script,
            segments.last(),
            depth,
            all_segments(script, segments.drop_last(), depth),
        )
    }
}

/// What one segment adds to `c`.
pub open spec fn analyzed_segment(
    script: Seq<char>,
    segment: ScriptSegmentModel,
    depth: nat,
    c: SegmentContributionModel,
) -> SegmentContributionModel
    decreases shells_left(depth), 2nat, 0nat,
{
    let tokens = segment.tokens;
    let (found, c1) = command_of(script, tokens, c);
    match found {
        None => c1,
        Some(index) => {
            let command = tokens[index as int];
            let name = program_name(command.value);
            if shell_wrapper(name) {
                wrapped(script, name, tokens, index + 1, depth, segment.span, c1)
            } else if name == "concurrently"@ {
                with_unmodeled(
                    with_reference(c1, script, ScriptReferenceKind::Binary, name, command.span),
                    segment.span,
                    UnmodeledScriptKind::UnsupportedShellWrapper,
                )
            } else if name == "node"@ {
                node_words(script, tokens, index + 1, false, c1)
            } else if package_manager(name) {
                managed(script, name, tokens, index + 1, c1)
            } else if name == "npx"@ || name == "bunx"@ {
                executed(script, tokens, index + 1, c1)
            } else if script_runner(name) {
                listed(tokens, index + 1, c1)
            } else if file_like(command.value) {
                with_reference(c1, script, ScriptReferenceKind::File, command.value, command.span)
            } else if system_command(name) {
                c1
            } else {
                let c2 = with_reference(
                    c1,
                    script,
                    ScriptReferenceKind::Binary,
                    name,
                    command.span,
                );
                if file_tool(name) {
                    tool_files(script, tokens, index + 1, false, c2)
                } else {
                    c2
                }
            }
        },
    }
}

fn analyze_static_shell_wrapper(
    script_name: &str,
    wrapper: &str,
    tokens: &Vec<ScriptToken>,
    start: usize,
    recursion_depth: usize,
    segment_span: ScriptSpan,
    contribution: &mut SegmentContribution,
)
    requires
        start <= tokens@.len(),
    ensures
        final(contribution).deep_view() == wrapped(
            script_name@,
            wrapper@,
            tokens.deep_view(),
            start as nat,
            recursion_depth as nat,
            segment_span,
            old(contribution).deep_view(),
        ),
    decreases shells_left(recursion_depth as nat), 1nat,
{
    if recursion_depth >= 4 {
        add_unmodeled(contribution, segment_span, UnmodeledScriptKind::UnsupportedShellWrapper);
        return ;
    }
    let index = match find_command_line(wrapper, tokens, start) {
        Some(index) => index,
        None => {
            add_unmodeled(
                contribution,
                segment_span,
                UnmodeledScriptKind::UnsupportedShellWrapper,
            );
            return ;
        },
    };
    assert(tokens.deep_view()[index as int] == tokens@[index as int].deep_view());
    let command = &tokens[index];
    let nested = tokenize_script(&command.value);
    if nested.unmodeled.len() > 0 {
        add_unmodeled(
            contribution,
            command.span,
            UnmodeledScriptKind::UnsupportedShellWrapper,
        );
        return ;
    }
    let ghost segments = nested.segments.deep_view();
    let mut nested_contribution = SegmentContribution::new();
    let mut i: usize = 0;
    while i < nested.segments.len()
        invariant
            i <= nested.segments.len(),
            recursion_depth < 4,
            segments == nested.segments.deep_view(),
            nested_contribution.deep_view() == all_segments(
                script_name@,
                segments.take(i as int),
                (recursion_depth + 1) as nat,
            ),
        decreases nested.segments.len() - i,
    {
        analyze_segment(
            script_name,
            &nested.segments[i],
            recursion_depth + 1,
            &mut nested_contribution,
        );
        i = i + 1;
        assert(segments.take(i as int).drop_last() =~= segments.take(i - 1));
        assert(segments.take(i as int).last() == nested.segments@[i - 1].deep_view());
    }
    assert(segments.take(i as int) =~= segments);
    relocate(contribution, nested_contribution, command.span);
}

/// Adds what one segment of a script contributes.
pub fn analyze_segment(
    script_name: &str,
    segment: &ScriptSegment,
    recursion_depth: usize,
    contribution: &mut SegmentContribution,
)
    ensures
        final(contribution).deep_view() == analyzed_segment(
            script_name@,
            segment.deep_view(),
            recursion_depth as nat,
            old(contribution).deep_view(),
        ),
    decreases shells_left(recursion_depth as nat), 2nat,
{
    let tokens = &segment.tokens;
    let command_index = match find_command_index(script_name, tokens, contribution) {
        Some(index) => index,
        None => {
            return ;
        },
    };
    assert(tokens.deep_view()[command_index as int] == tokens@[command_index as int].deep_view());
    let command = &tokens[command_index];
    let name = binary_name(&command.value);
    assert(command_index < tokens.len());
    let arguments: usize = command_index + 1;
    if is_shell_wrapper(&name) {
        analyze_static_shell_wrapper(
            script_name,
            &name,
            tokens,
            arguments,
            recursion_depth,
            segment.span,
            contribution,
        );
    } else if same(&name, "concurrently") {
        add_reference(
            contribution,
            script_name,
            ScriptReferenceKind::Binary,
            &name,
            command.span,
        );
        add_unmodeled(
            contribution,
            segment.span,
            UnmodeledScriptKind::UnsupportedShellWrapper,
        );
    } else if same(&name, "node") {
        analyze_node_command(script_name, tokens, arguments, contribution);
    } else if is_package_manager(&name) {
        analyze_package_manager(script_name, &name, tokens, arguments, contribution);
    } else if same(&name, "npx") || same(&name, "bunx") {
        analyze_exec_command(script_name, tokens, arguments, contribution);
    } else if is_script_runner(&name) {
        analyze_script_list(tokens, arguments, contribution);
    } else if looks_like_file(&command.value) {
        add_reference(
            contribution,
            script_name,
            ScriptReferenceKind::File,
            &command.value,
            command.span,
        );
    } else if !is_system_command(&name) {
        add_reference(
            contribution,
            script_name,
            ScriptReferenceKind::Binary,
            &name,
            command.span,
        );
        if is_supported_file_tool(&name) {
            analyze_tool_files(script_name, tokens, arguments, contribution);
        }
    }
}

} // verus!
