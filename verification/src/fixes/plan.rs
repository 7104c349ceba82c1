//! Fix plans: exact changes to exact contents.

use crate::cache::key::ContentDigest;
use crate::fixes::eligibility::EligibleFix;
use crate::fixes::package_manager::{
    command_error, PackageManagerCommand, PackageManagerCommandModel,
};
use crate::text::{
    byte_len, byte_length, concat2, contains_char, contains_control, has_control, pieces, same,
    split, trim, trimmed,
};
use crate::values::{push_item, Value};
use vstd::prelude::*;

verus! {

/// A part of a path that stays inside the directory it is in.
pub open spec fn safe_component(c: Seq<char>) -> bool {
    c.len() > 0 && c != "."@ && c != ".."@
}

/// Whether a text is a path below the project root, written with `/`.
pub open spec fn safe_path(s: Seq<char>) -> bool {
    &&& !s.contains('\\')
    &&& !has_control(s)
    &&& forall|i: int|
        0 <= i < pieces(s, '/').len() ==> safe_component(#[trigger] pieces(s, '/')[i])
}

/// A path below the project root, or the root itself.
#[derive(Debug, PartialEq, Eq)]
pub struct ProjectPath {
    path: String,
}

impl DeepView for ProjectPath {
    type V = Seq<char>;

    closed spec fn deep_view(&self) -> Seq<char> {
        self.path@
    }
}

impl ProjectPath {
    #[verifier::type_invariant]
    spec fn stays_inside(self) -> bool {
        self.path@ == "."@ || safe_path(self.path@)
    }

    /// The path with this text.
    ///
    /// # Errors
    ///
    /// Returns an error when the text does not name something below the project root.
    pub fn new(path: &str) -> (r: Result<ProjectPath, FixPlanError>)
        ensures
            match r {
                Ok(p) => safe_path(path@) && p.deep_view() == path@,
                Err(e) => !safe_path(path@) && e.deep_view() == FixPlanErrorModel::UnsafePath(path@),
            },
    {
        let parts = split(path, '/');
        let ghost model = pieces(path@, '/');
        if contains_char(path, '\\') || contains_control(path) {
            return Err(FixPlanError::UnsafePath(path.to_owned()));
        }
        let mut i: usize = 0;
        while i < parts.len()
            invariant
                i <= parts.len(),
                model == parts.deep_view(),
                model == pieces(path@, '/'),
                forall|j: int| 0 <= j < i ==> safe_component(#[trigger] model[j]),
            decreases parts.len() - i,
        {
            assert(model[i as int] == parts@[i as int]@);
            if parts[i].as_str().is_empty() || same(&parts[i], ".") || same(&parts[i], "..") {
                assert(!safe_component(pieces(path@, '/')[i as int]));
                return Err(FixPlanError::UnsafePath(path.to_owned()));
            }
            i = i + 1;
        }
        Ok(ProjectPath { path: path.to_owned() })
    }

    /// The project root.
    #[must_use]
    pub fn root() -> (r: ProjectPath)
        ensures
            r.deep_view() == "."@,
    {
        ProjectPath { path: ".".to_owned() }
    }

    /// The text of the path.
    #[must_use]
    pub fn as_str(&self) -> (r: &str)
        ensures
            r@ == self.deep_view(),
    {
        self.path.as_str()
    }

    /// The path of the package manifest in this directory.
    #[must_use]
    pub fn package_manifest(&self) -> (r: ProjectPath)
        ensures
            r.deep_view() == manifest_path(self.deep_view()),
    {
        proof {
            use_type_invariant(self);
            manifest_is_safe(Seq::empty());
        }
        if same(&self.path, ".") {
            ProjectPath { path: "package.json".to_owned() }
        } else {
            proof {
                manifest_is_safe(self.path@);
            }
            ProjectPath { path: concat2(&self.path, "/package.json") }
        }
    }
}

impl Value for ProjectPath {
    fn replicate(&self) -> (r: Self) {
        proof {
            use_type_invariant(self);
        }
        ProjectPath { path: self.path.clone() }
    }

    fn same_value(&self, other: &Self) -> (r: bool) {
        same(&self.path, &other.path)
    }
}

/// The path of the package manifest in a directory.
pub open spec fn manifest_path(directory: Seq<char>) -> Seq<char> {
    if directory == "."@ {
        "package.json"@
    } else {
        directory + "/package.json"@
    }
}

/// A package manifest below a safe directory has a safe path.
proof fn manifest_is_safe(directory: Seq<char>)
    ensures
        safe_path("package.json"@),
        safe_path(directory) ==> safe_path(directory + "/package.json"@),
{
    reveal_strlit("package.json");
    reveal_strlit("/package.json");
    reveal_strlit(".");
    reveal_strlit("..");
    let name = "package.json"@;
    plain_pieces(name, 12);
    assert(name.take(12) =~= name);
    assert(pieces(name, '/') =~= seq![name]);
    assert forall|i: int| 0 <= i < name.len() implies !crate::text::control(#[trigger] name[i]) && name[i]
        != '\\' by {}
    let whole = directory + "/package.json"@;
    assert(whole =~= directory.push('/') + name);
    crate::text::pieces_of_joined(directory, name, '/');
    if safe_path(directory) {
        assert forall|i: int| 0 <= i < whole.len() implies !crate::text::control(#[trigger] whole[i])
            && whole[i] != '\\' by {
            if i < directory.len() {
                assert(whole[i] == directory[i]);
                assert(directory.contains(directory[i]));
            } else if i > directory.len() {
                assert(whole[i] == name[i - directory.len() - 1]);
            }
        }
        assert forall|i: int| 0 <= i < pieces(whole, '/').len() implies safe_component(
            #[trigger] pieces(whole, '/')[i],
        ) by {
            let front = pieces(directory, '/');
            if i < front.len() {
                assert(pieces(whole, '/')[i] == front[i]);
            } else {
                assert(pieces(whole, '/')[i] == name);
            }
        }
    }
}

/// A text without separators is one piece.
proof fn plain_pieces(s: Seq<char>, n: nat)
    requires
        n <= s.len(),
        forall|i: int| 0 <= i < s.len() ==> #[trigger] s[i] != '/',
    ensures
        pieces(s.take(n as int), '/') == seq![s.take(n as int)],
    decreases n,
{
    if n > 0 {
        plain_pieces(s, (n - 1) as nat);
        assert(s.take(n as int).drop_last() =~= s.take(n - 1));
        assert(s.take(n as int).last() == s[n - 1]);
        assert(seq![s.take(n - 1)].drop_last().push(s.take(n - 1).push(s[n - 1])) =~= seq![
            s.take(n as int),
        ]) by {
            assert(s.take(n - 1).push(s[n - 1]) =~= s.take(n as int));
        }
    } else {
        assert(s.take(0) =~= Seq::empty());
    }
}

/// Why a fix plan is refused.
#[derive(Debug, PartialEq, Eq)]
pub enum FixPlanError {
    /// The text names nothing below the project root.
    UnsafePath(String),
    /// A span ends before it starts.
    InvalidSpan,
    /// The edits of this file are not in order, or touch the same bytes.
    OverlappingEdits(String),
    /// This file is changed twice.
    DuplicateFile(String),
    /// A title or reason is empty, unbounded, or unsafe to display.
    InvalidText,
    /// A package-manager command is not what its typed operation says.
    InvalidCommand(String),
}

/// What a [`FixPlanError`] holds.
pub enum FixPlanErrorModel {
    UnsafePath(Seq<char>),
    InvalidSpan,
    OverlappingEdits(Seq<char>),
    DuplicateFile(Seq<char>),
    InvalidText,
    InvalidCommand(Seq<char>),
}

impl DeepView for FixPlanError {
    type V = FixPlanErrorModel;

    open spec fn deep_view(&self) -> FixPlanErrorModel {
        match self {
            FixPlanError::UnsafePath(x) => FixPlanErrorModel::UnsafePath(x.deep_view()),
            FixPlanError::InvalidSpan => FixPlanErrorModel::InvalidSpan,
            FixPlanError::OverlappingEdits(x) => FixPlanErrorModel::OverlappingEdits(x.deep_view()),
            FixPlanError::DuplicateFile(x) => FixPlanErrorModel::DuplicateFile(x.deep_view()),
            FixPlanError::InvalidText => FixPlanErrorModel::InvalidText,
            FixPlanError::InvalidCommand(x) => FixPlanErrorModel::InvalidCommand(x.deep_view()),
        }
    }
}

impl Value for FixPlanError {
    fn replicate(&self) -> (r: Self) {
        match self {
            FixPlanError::UnsafePath(x) => FixPlanError::UnsafePath(x.replicate()),
            FixPlanError::InvalidSpan => FixPlanError::InvalidSpan,
            FixPlanError::OverlappingEdits(x) => FixPlanError::OverlappingEdits(x.replicate()),
            FixPlanError::DuplicateFile(x) => FixPlanError::DuplicateFile(x.replicate()),
            FixPlanError::InvalidText => FixPlanError::InvalidText,
            FixPlanError::InvalidCommand(x) => FixPlanError::InvalidCommand(x.replicate()),
        }
    }

    fn same_value(&self, other: &Self) -> (r: bool) {
        match (self, other) {
            (FixPlanError::UnsafePath(x), FixPlanError::UnsafePath(y)) => x.same_value(y),
            (FixPlanError::InvalidSpan, FixPlanError::InvalidSpan) => true,
            (FixPlanError::OverlappingEdits(x), FixPlanError::OverlappingEdits(y)) => x.same_value(
                y,
            ),
            (FixPlanError::DuplicateFile(x), FixPlanError::DuplicateFile(y)) => x.same_value(y),
            (FixPlanError::InvalidText, FixPlanError::InvalidText) => true,
            (FixPlanError::InvalidCommand(x), FixPlanError::InvalidCommand(y)) => x.same_value(y),
            _ => false,
        }
    }
}

impl FixPlanErrorModel {
    /// The error in words.
    pub open spec fn text(self) -> Seq<char> {
        match self {
            FixPlanErrorModel::UnsafePath(x) => "fix path is not inside the project: "@ + x,
            FixPlanErrorModel::InvalidSpan => "an edit span ends before it starts"@,
            FixPlanErrorModel::OverlappingEdits(x) => "edits are out of order or overlap in "@ + x,
            FixPlanErrorModel::DuplicateFile(x) => "a file is changed more than once: "@ + x,
            FixPlanErrorModel::InvalidText =>
                "fix text is empty, unbounded, or unsafe to display"@,
            FixPlanErrorModel::InvalidCommand(x) => x,
        }
    }
}

impl FixPlanError {
    /// The error in words.
    #[must_use]
    pub fn message(&self) -> (r: String)
        ensures
            r@ == self.deep_view().text(),
    {
        match self {
            FixPlanError::UnsafePath(x) => concat2("fix path is not inside the project: ", x),
            FixPlanError::InvalidSpan => "an edit span ends before it starts".to_owned(),
            FixPlanError::OverlappingEdits(x) => concat2(
                "edits are out of order or overlap in ",
                x,
            ),
            FixPlanError::DuplicateFile(x) => concat2("a file is changed more than once: ", x),
            FixPlanError::InvalidText =>
                "fix text is empty, unbounded, or unsafe to display".to_owned(),
            FixPlanError::InvalidCommand(x) => x.replicate(),
        }
    }
}

/// Bytes of a file.
#[derive(Debug, Clone, Copy, PartialEq, Eq, Structural)]
pub struct ByteSpan {
    pub start: usize,
    pub end: usize,
}

impl DeepView for ByteSpan {
    type V = ByteSpan;

    open spec fn deep_view(&self) -> ByteSpan {
        *self
    }
}

impl Value for ByteSpan {
    fn replicate(&self) -> (r: Self) {
        *self
    }

    fn same_value(&self, other: &Self) -> (r: bool) {
        *self == *other
    }
}

impl ByteSpan {
    /// The bytes from `start` up to `end`.
    ///
    /// # Errors
    ///
    /// Returns an error when the span ends before it starts.
    pub fn new(start: usize, end: usize) -> (r: Result<ByteSpan, FixPlanError>)
        ensures
            match r {
                Ok(span) => start <= end && span == (ByteSpan { start, end }),
                Err(e) => start > end && e.deep_view() == FixPlanErrorModel::InvalidSpan,
            },
    {
        if start > end {
            Err(FixPlanError::InvalidSpan)
        } else {
            Ok(ByteSpan { start, end })
        }
    }
}

/// The replacement of some bytes.
#[derive(Debug, PartialEq, Eq)]
pub struct SourceEdit {
    pub span: ByteSpan,
    pub replacement: String,
}

/// What a [`SourceEdit`] holds.
pub struct SourceEditModel {
    pub span: ByteSpan,
    pub replacement: Seq<char>,
}

impl DeepView for SourceEdit {
    type V = SourceEditModel;

    open spec fn deep_view(&self) -> SourceEditModel {
        SourceEditModel {
            span: self.span.deep_view(),
            replacement: self.replacement.deep_view(),
        }
    }
}

impl Value for SourceEdit {
    fn replicate(&self) -> (r: Self) {
        SourceEdit {
            span: self.span.replicate(),
            replacement: self.replacement.replicate(),
        }
    }

    fn same_value(&self, other: &Self) -> (r: bool) {
        self.span.same_value(&other.span)
            && self.replacement.same_value(&other.replacement)
    }
}

impl SourceEdit {
    /// Replaces `span` by `replacement`.
    #[must_use]
    pub fn new(span: ByteSpan, replacement: &str) -> (r: SourceEdit)
        ensures
            r.span == span,
            r.replacement@ == replacement@,
    {
        SourceEdit { span, replacement: replacement.to_owned() }
    }
}

/// A change to one file.
#[derive(Debug, PartialEq, Eq)]
pub enum FileChange {
    Modify {
        path: ProjectPath,
        expected_content: ContentDigest,
        edits: Vec<SourceEdit>,
        reason: String,
    },
    Delete { path: ProjectPath, expected_content: ContentDigest, reason: String },
}

/// What a [`FileChange`] holds; a deletion has no edits.
pub struct FileChangeModel {
    pub path: Seq<char>,
    pub expected_content: ContentDigest,
    pub edits: Option<Seq<SourceEditModel>>,
    pub reason: Seq<char>,
}

impl DeepView for FileChange {
    type V = FileChangeModel;

    open spec fn deep_view(&self) -> FileChangeModel {
        match self {
            FileChange::Modify { path, expected_content, edits, reason } => FileChangeModel {
                path: path.deep_view(),
                expected_content: *expected_content,
                edits: Some(edits.deep_view()),
                reason: reason@,
            },
            FileChange::Delete { path, expected_content, reason } => FileChangeModel {
                path: path.deep_view(),
                expected_content: *expected_content,
                edits: None,
                reason: reason@,
            },
        }
    }
}

impl FileChange {
    /// The changed file.
    #[must_use]
    pub fn path(&self) -> (r: &ProjectPath)
        ensures
            r.deep_view() == self.deep_view().path,
    {
        match self {
            FileChange::Modify { path, .. } => path,
            FileChange::Delete { path, .. } => path,
        }
    }

    /// The digest of the content that was analyzed.
    #[must_use]
    pub fn expected_content(&self) -> (r: ContentDigest)
        ensures
            r == self.deep_view().expected_content,
    {
        match self {
            FileChange::Modify { expected_content, .. } => *expected_content,
            FileChange::Delete { expected_content, .. } => *expected_content,
        }
    }

    /// Why the file is changed.
    #[must_use]
    pub fn reason(&self) -> (r: &str)
        ensures
            r@ == self.deep_view().reason,
    {
        match self {
            FileChange::Modify { reason, .. } => reason.as_str(),
            FileChange::Delete { reason, .. } => reason.as_str(),
        }
    }
}

impl Value for FileChange {
    fn replicate(&self) -> (r: Self) {
        match self {
            FileChange::Modify { path, expected_content, edits, reason } => FileChange::Modify {
                path: path.replicate(),
                expected_content: *expected_content,
                edits: edits.replicate(),
                reason: reason.replicate(),
            },
            FileChange::Delete { path, expected_content, reason } => FileChange::Delete {
                path: path.replicate(),
                expected_content: *expected_content,
                reason: reason.replicate(),
            },
        }
    }

    fn same_value(&self, other: &Self) -> (r: bool) {
        match (self, other) {
            (
                FileChange::Modify { path: a, expected_content: b, edits: c, reason: d },
                FileChange::Modify { path: w, expected_content: x, edits: y, reason: z },
            ) => a.same_value(w) && *b == *x && c.same_value(y) && d.same_value(z),
            (
                FileChange::Delete { path: a, expected_content: b, reason: c },
                FileChange::Delete { path: x, expected_content: y, reason: z },
            ) => a.same_value(x) && *b == *y && c.same_value(z),
            _ => false,
        }
    }
}

/// Whether edits stand in order and touch different bytes.
pub open spec fn ordered_edits(edits: Seq<SourceEditModel>) -> bool {
    &&& forall|i: int|
        0 <= i < edits.len() ==> (#[trigger] edits[i]).span.start <= edits[i].span.end
    &&& forall|i: int, j: int|
        0 <= i < j < edits.len() ==> (#[trigger] edits[i]).span.end <= (
        #[trigger] edits[j]).span.start
}

fn are_ordered(edits: &Vec<SourceEdit>) -> (r: bool)
    ensures
        r == ordered_edits(edits.deep_view()),
{
    let ghost model = edits.deep_view();
    let mut i: usize = 0;
    while i < edits.len()
        invariant
            i <= edits.len(),
            model == edits.deep_view(),
            forall|j: int|
                0 <= j < i ==> (#[trigger] model[j]).span.start <= model[j].span.end,
            forall|j: int, k: int|
                0 <= j < k < i ==> (#[trigger] model[j]).span.end <= (
                #[trigger] model[k]).span.start,
        decreases edits.len() - i,
    {
        assert(model[i as int] == edits@[i as int].deep_view());
        let span = edits[i].span;
        if span.start > span.end {
            return false;
        }
        if i > 0 {
            assert(model[i - 1] == edits@[i - 1].deep_view());
            if edits[i - 1].span.end > span.start {
                return false;
            }
        }
        i = i + 1;
    }
    true
}

/// Whether a text can be shown to the user as a title or reason.
pub open spec fn showable(s: Seq<char>) -> bool {
    trimmed(s).len() > 0 && byte_length(s) <= 4096 && !has_control(s)
}

/// Whether `s` can be shown to the user as a title or reason.
pub fn is_showable(s: &str) -> (r: bool)
    ensures
        r == showable(s@),
{
    !trim(s).as_str().is_empty() && byte_len(s) <= 4096 && !contains_control(s)
}

/// The changes of one fix.
#[derive(Debug, PartialEq, Eq)]
pub struct FixPlan {
    pub plan_id: String,
    pub title: String,
    pub file_changes: Vec<FileChange>,
    pub package_commands: Vec<PackageManagerCommand>,
}

/// What a [`FixPlan`] holds.
pub struct FixPlanModel {
    pub plan_id: Seq<char>,
    pub title: Seq<char>,
    pub file_changes: Seq<FileChangeModel>,
    pub package_commands: Seq<PackageManagerCommandModel>,
}

impl DeepView for FixPlan {
    type V = FixPlanModel;

    open spec fn deep_view(&self) -> FixPlanModel {
        FixPlanModel {
            plan_id: self.plan_id.deep_view(),
            title: self.title.deep_view(),
            file_changes: self.file_changes.deep_view(),
            package_commands: self.package_commands.deep_view(),
        }
    }
}

impl Value for FixPlan {
    fn replicate(&self) -> (r: Self) {
        FixPlan {
            plan_id: self.plan_id.replicate(),
            title: self.title.replicate(),
            file_changes: self.file_changes.replicate(),
            package_commands: self.package_commands.replicate(),
        }
    }

    fn same_value(&self, other: &Self) -> (r: bool) {
        self.plan_id.same_value(&other.plan_id)
            && self.title.same_value(&other.title)
            && self.file_changes.same_value(&other.file_changes)
            && self.package_commands.same_value(&other.package_commands)
    }
}

/// An explicit selection of files to delete.
#[derive(Debug, Clone, Copy, PartialEq, Eq, Structural)]
pub struct ExplicitFileFixScope;

impl ExplicitFileFixScope {
    /// The user named the file.
    #[must_use]
    pub fn selected() -> (r: ExplicitFileFixScope)
        ensures
            r == ExplicitFileFixScope,
    {
        ExplicitFileFixScope
    }
}

/// Whether a plan changes this file already.
pub open spec fn changes_file(changes: Seq<FileChangeModel>, path: Seq<char>) -> bool {
    exists|i: int| 0 <= i < changes.len() && (#[trigger] changes[i]).path == path
}

fn finds_file(changes: &Vec<FileChange>, n: usize, path: &ProjectPath) -> (r: bool)
    requires
        n <= changes@.len(),
    ensures
        r == changes_file(changes.deep_view().take(n as int), path.deep_view()),
{
    let ghost model = changes.deep_view().take(n as int);
    let mut i: usize = 0;
    while i < n
        invariant
            i <= n <= changes.len(),
            model == changes.deep_view().take(n as int),
            forall|j: int| 0 <= j < i ==> (#[trigger] model[j]).path != path.deep_view(),
        decreases n - i,
    {
        assert(model[i as int] == changes@[i as int].deep_view());
        if changes[i].path().same_value(path) {
            return true;
        }
        i = i + 1;
    }
    false
}

/// The first error among changes, each seen after those in front of it.
pub open spec fn first_change_error(
    plan: FixPlanModel,
    changes: Seq<FileChangeModel>,
) -> Option<FixPlanErrorModel>
    decreases changes.len(),
{
    if changes.len() == 0 {
        None
    } else {
        match first_change_error(plan, changes.drop_last()) {
            Some(error) => Some(error),
            None => change_error(
                FixPlanModel { file_changes: changes.drop_last(), ..plan },
                changes.last(),
            ),
        }
    }
}

/// The first error among commands.
pub open spec fn first_command_error(
    commands: Seq<PackageManagerCommandModel>,
) -> Option<FixPlanErrorModel>
    decreases commands.len(),
{
    if commands.len() == 0 {
        None
    } else {
        match first_command_error(commands.drop_last()) {
            Some(error) => Some(error),
            None => match command_error(commands.last()) {
                Some(message) => Some(FixPlanErrorModel::InvalidCommand(message)),
                None => None,
            },
        }
    }
}

/// Why a plan is refused, if so.
pub open spec fn plan_error(plan: FixPlanModel) -> Option<FixPlanErrorModel> {
    if !showable(plan.plan_id) || !showable(plan.title) {
        Some(FixPlanErrorModel::InvalidText)
    } else if first_change_error(plan, plan.file_changes) is Some {
        first_change_error(plan, plan.file_changes)
    } else {
        first_command_error(plan.package_commands)
    }
}

proof fn change_error_stays(plan: FixPlanModel, changes: Seq<FileChangeModel>, n: nat)
    requires
        n <= changes.len(),
        first_change_error(plan, changes.take(n as int)) is Some,
    ensures
        first_change_error(plan, changes) == first_change_error(plan, changes.take(n as int)),
    decreases changes.len() - n,
{
    if n < changes.len() {
        assert(changes.take(n as int + 1).drop_last() =~= changes.take(n as int));
        change_error_stays(plan, changes, n + 1);
    } else {
        assert(changes.take(n as int) =~= changes);
    }
}

proof fn command_error_stays(commands: Seq<PackageManagerCommandModel>, n: nat)
    requires
        n <= commands.len(),
        first_command_error(commands.take(n as int)) is Some,
    ensures
        first_command_error(commands) == first_command_error(commands.take(n as int)),
    decreases commands.len() - n,
{
    if n < commands.len() {
        assert(commands.take(n as int + 1).drop_last() =~= commands.take(n as int));
        command_error_stays(commands, n + 1);
    } else {
        assert(commands.take(n as int) =~= commands);
    }
}

/// Why a change cannot join a plan, if so.
pub open spec fn change_error(
    plan: FixPlanModel,
    change: FileChangeModel,
) -> Option<FixPlanErrorModel> {
    if !showable(change.reason) {
        Some(FixPlanErrorModel::InvalidText)
    } else if changes_file(plan.file_changes, change.path) {
        Some(FixPlanErrorModel::DuplicateFile(change.path))
    } else if change.edits matches Some(edits) && !ordered_edits(edits) {
        Some(FixPlanErrorModel::OverlappingEdits(change.path))
    } else {
        None
    }
}

impl FixPlan {
    /// A plan without changes.
    ///
    /// # Errors
    ///
    /// Returns an error when the identifier or the title cannot be shown.
    pub fn new(plan_id: &str, title: &str) -> (r: Result<FixPlan, FixPlanError>)
        ensures
            match r {
                Ok(plan) => showable(plan_id@) && showable(title@) && plan.deep_view() == (
                FixPlanModel {
                    plan_id: plan_id@,
                    title: title@,
                    file_changes: Seq::empty(),
                    package_commands: Seq::empty(),
                }),
                Err(e) => !(showable(plan_id@) && showable(title@)) && e.deep_view()
                    == FixPlanErrorModel::InvalidText,
            },
    {
        if !is_showable(plan_id) || !is_showable(title) {
            return Err(FixPlanError::InvalidText);
        }
        let plan = FixPlan {
            plan_id: plan_id.to_owned(),
            title: title.to_owned(),
            file_changes: Vec::new(),
            package_commands: Vec::new(),
        };
        assert(plan.file_changes.deep_view() =~= Seq::empty());
        assert(plan.package_commands.deep_view() =~= Seq::empty());
        Ok(plan)
    }

    fn add_change(&mut self, change: FileChange) -> (r: Result<(), FixPlanError>)
        ensures
            match r {
                Ok(_) => change_error(old(self).deep_view(), change.deep_view()) is None && final(self).deep_view() == (FixPlanModel {
                    file_changes: old(self).deep_view().file_changes.push(change.deep_view()),
                    ..old(self).deep_view()
                }),
                Err(e) => change_error(old(self).deep_view(), change.deep_view()) == Some(
                    e.deep_view(),
                ) && final(self).deep_view() == old(self).deep_view(),
            },
    {
        if !is_showable(change.reason()) {
            return Err(FixPlanError::InvalidText);
        }
        assert(self.file_changes.deep_view().take(self.file_changes.len() as int)
            =~= self.file_changes.deep_view());
        if finds_file(&self.file_changes, self.file_changes.len(), change.path()) {
            return Err(FixPlanError::DuplicateFile(change.path().as_str().to_owned()));
        }
        if let FileChange::Modify { edits, path, .. } = &change {
            if !are_ordered(edits) {
                return Err(FixPlanError::OverlappingEdits(path.as_str().to_owned()));
            }
        }
        push_item(&mut self.file_changes, change);
        Ok(())
    }

    /// Plans edits of one file with the analyzed content.
    ///
    /// # Errors
    ///
    /// Returns an error when the reason cannot be shown, the file is changed already, or the
    /// edits overlap.
    pub fn add_source_edits(
        &mut self,
        eligibility: EligibleFix,
        path: ProjectPath,
        edits: Vec<SourceEdit>,
        reason: &str,
    ) -> (r: Result<(), FixPlanError>)
        ensures
            ({
                let change = FileChangeModel {
                    path: path.deep_view(),
                    expected_content: eligibility.content(),
                    edits: Some(edits.deep_view()),
                    reason: reason@,
                };
                match r {
                    Ok(_) => change_error(old(self).deep_view(), change) is None && final(self).deep_view() == (FixPlanModel {
                        file_changes: old(self).deep_view().file_changes.push(change),
                        ..old(self).deep_view()
                    }),
                    Err(e) => change_error(old(self).deep_view(), change) == Some(e.deep_view())
                        && final(self).deep_view() == old(self).deep_view(),
                }
            }),
    {
        self.add_change(
            FileChange::Modify {
                path,
                expected_content: eligibility.expected_content(),
                edits,
                reason: reason.to_owned(),
            },
        )
    }

    /// Plans the deletion of one selected file with the analyzed content.
    ///
    /// # Errors
    ///
    /// Returns an error when the reason cannot be shown or the file is changed already.
    pub fn add_file_deletion(
        &mut self,
        eligibility: EligibleFix,
        path: ProjectPath,
        _scope: ExplicitFileFixScope,
        reason: &str,
    ) -> (r: Result<(), FixPlanError>)
        ensures
            ({
                let change = FileChangeModel {
                    path: path.deep_view(),
                    expected_content: eligibility.content(),
                    edits: None,
                    reason: reason@,
                };
                match r {
                    Ok(_) => change_error(old(self).deep_view(), change) is None && final(self).deep_view() == (FixPlanModel {
                        file_changes: old(self).deep_view().file_changes.push(change),
                        ..old(self).deep_view()
                    }),
                    Err(e) => change_error(old(self).deep_view(), change) == Some(e.deep_view())
                        && final(self).deep_view() == old(self).deep_view(),
                }
            }),
    {
        self.add_change(
            FileChange::Delete {
                path,
                expected_content: eligibility.expected_content(),
                reason: reason.to_owned(),
            },
        )
    }

    /// Checks the whole plan.
    ///
    /// # Errors
    ///
    /// Returns the first error of the plan.
    pub fn validate(&self) -> (r: Result<(), FixPlanError>)
        ensures
            match r {
                Ok(_) => plan_error(self.deep_view()) is None,
                Err(e) => plan_error(self.deep_view()) == Some(e.deep_view()),
            },
    {
        let ghost plan = self.deep_view();
        if !is_showable(&self.plan_id) || !is_showable(&self.title) {
            return Err(FixPlanError::InvalidText);
        }
        let mut i: usize = 0;
        while i < self.file_changes.len()
            invariant
                i <= self.file_changes.len(),
                plan == self.deep_view(),
                showable(plan.plan_id),
                showable(plan.title),
                first_change_error(plan, plan.file_changes.take(i as int)) is None,
            decreases self.file_changes.len() - i,
        {
            let ghost longer = plan.file_changes.take(i + 1);
            assert(longer.drop_last() =~= plan.file_changes.take(i as int));
            assert(longer.last() == self.file_changes@[i as int].deep_view());
            proof {
                if first_change_error(plan, longer) is Some {
                    change_error_stays(plan, plan.file_changes, (i + 1) as nat);
                }
            }
            let change = &self.file_changes[i];
            if !is_showable(change.reason()) {
                return Err(FixPlanError::InvalidText);
            }
            if finds_file(&self.file_changes, i, change.path()) {
                return Err(FixPlanError::DuplicateFile(change.path().as_str().to_owned()));
            }
            if let FileChange::Modify { edits, path, .. } = change {
                if !are_ordered(edits) {
                    return Err(FixPlanError::OverlappingEdits(path.as_str().to_owned()));
                }
            }
            i = i + 1;
        }
        assert(plan.file_changes.take(i as int) =~= plan.file_changes);
        let mut j: usize = 0;
        while j < self.package_commands.len()
            invariant
                j <= self.package_commands.len(),
                plan == self.deep_view(),
                showable(plan.plan_id),
                showable(plan.title),
                first_change_error(plan, plan.file_changes) is None,
                first_command_error(plan.package_commands.take(j as int)) is None,
            decreases self.package_commands.len() - j,
        {
            let ghost longer = plan.package_commands.take(j + 1);
            assert(longer.drop_last() =~= plan.package_commands.take(j as int));
            assert(longer.last() == self.package_commands@[j as int].deep_view());
            if let Err(message) = self.package_commands[j].validate() {
                proof {
                    command_error_stays(plan.package_commands, (j + 1) as nat);
                }
                return Err(FixPlanError::InvalidCommand(message.to_owned()));
            }
            j = j + 1;
        }
        assert(plan.package_commands.take(j as int) =~= plan.package_commands);
        Ok(())
    }

    /// Plans a package-manager command.
    pub fn add_package_command(&mut self, command: PackageManagerCommand)
        ensures
            final(self).deep_view() == (FixPlanModel {
                package_commands: old(self).deep_view().package_commands.push(command.deep_view()),
                ..old(self).deep_view()
            }),
    {
        push_item(&mut self.package_commands, command);
    }
}

} // verus!
