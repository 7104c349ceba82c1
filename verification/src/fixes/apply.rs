//! Previewing and applying fix plans.

use crate::cache::digest::{hex, sha256, Digest};
use crate::cache::key::ContentDigest;
use crate::fixes::package_manager::{PackageManagerCommand, PackageManagerCommandModel};
use crate::fixes::plan::{
    ordered_edits, FileChange, FileChangeModel, FixPlan, FixPlanError, FixPlanErrorModel,
    FixPlanModel, ProjectPath, SourceEdit, SourceEditModel,
};
use crate::text::{concat2, concat3, concat4, concat7, decimal, digits};
use crate::values::{push_item, Value};
use vstd::prelude::*;
use vstd::utf8::encode_utf8;

verus! {

/// What happens to a file.
#[derive(Debug, Clone, Copy, PartialEq, Eq, Structural)]
pub enum PreviewChangeKind {
    Modify,
    Delete,
}

impl DeepView for PreviewChangeKind {
    type V = PreviewChangeKind;

    open spec fn deep_view(&self) -> PreviewChangeKind {
        *self
    }
}

impl Value for PreviewChangeKind {
    fn replicate(&self) -> (r: Self) {
        *self
    }

    fn same_value(&self, other: &Self) -> (r: bool) {
        *self == *other
    }
}

/// A change to one file, with the content before and after it.
#[derive(Debug, PartialEq, Eq)]
pub struct PreviewedFileChange {
    pub path: ProjectPath,
    pub kind: PreviewChangeKind,
    pub before_digest: ContentDigest,
    pub after_digest: Option<ContentDigest>,
    pub original_content: Vec<u8>,
    pub updated_content: Option<Vec<u8>>,
}

/// What a [`PreviewedFileChange`] holds.
pub struct PreviewedFileChangeModel {
    pub path: Seq<char>,
    pub kind: PreviewChangeKind,
    pub before_digest: ContentDigest,
    pub after_digest: Option<ContentDigest>,
    pub original_content: Seq<u8>,
    pub updated_content: Option<Seq<u8>>,
}

impl DeepView for PreviewedFileChange {
    type V = PreviewedFileChangeModel;

    open spec fn deep_view(&self) -> PreviewedFileChangeModel {
        PreviewedFileChangeModel {
            path: self.path.deep_view(),
            kind: self.kind.deep_view(),
            before_digest: self.before_digest.deep_view(),
            after_digest: self.after_digest.deep_view(),
            original_content: self.original_content.deep_view(),
            updated_content: self.updated_content.deep_view(),
        }
    }
}

impl Value for PreviewedFileChange {
    fn replicate(&self) -> (r: Self) {
        PreviewedFileChange {
            path: self.path.replicate(),
            kind: self.kind.replicate(),
            before_digest: self.before_digest.replicate(),
            after_digest: self.after_digest.replicate(),
            original_content: self.original_content.replicate(),
            updated_content: self.updated_content.replicate(),
        }
    }

    fn same_value(&self, other: &Self) -> (r: bool) {
        self.path.same_value(&other.path)
            && self.kind.same_value(&other.kind)
            && self.before_digest.same_value(&other.before_digest)
            && self.after_digest.same_value(&other.after_digest)
            && self.original_content.same_value(&other.original_content)
            && self.updated_content.same_value(&other.updated_content)
    }
}

impl PreviewedFileChange {
    /// The content before the change.
    #[must_use]
    pub fn original_content(&self) -> (r: &[u8])
        ensures
            r@ == self.original_content@,
    {
        self.original_content.as_slice()
    }

    /// The content after the change; a deleted file has none.
    #[must_use]
    pub fn updated_content(&self) -> (r: Option<&[u8]>)
        ensures
            match r {
                Some(content) => self.updated_content matches Some(bytes) && content@ == bytes@,
                None => self.updated_content is None,
            },
    {
        match &self.updated_content {
            Some(bytes) => Some(bytes.as_slice()),
            None => None,
        }
    }
}

/// Why a fix is not previewed or not applied.
#[derive(Debug, PartialEq, Eq)]
pub enum FixError {
    /// The plan is refused.
    InvalidPlan(FixPlanError),
    /// The project root is not a directory.
    InvalidRoot(String),
    /// The authorization is for another preview.
    AuthorizationMismatch,
    /// What is to be edited is a symlink, or no file.
    UnsafeFileType(String),
    /// A file changed since it was analyzed.
    HashMismatch { path: String, expected: ContentDigest, actual: ContentDigest },
    /// An edit ends behind the end of its file.
    SpanOutOfBounds { path: String, start: usize, end: usize, length: usize },
    /// The plan could not be written.
    Serialize(String),
    /// A file could not be reached.
    Io { path: String, reason: String },
}

/// What a [`FixError`] holds.
pub enum FixErrorModel {
    InvalidPlan(FixPlanErrorModel),
    InvalidRoot(Seq<char>),
    AuthorizationMismatch,
    UnsafeFileType(Seq<char>),
    HashMismatch { path: Seq<char>, expected: ContentDigest, actual: ContentDigest },
    SpanOutOfBounds { path: Seq<char>, start: usize, end: usize, length: usize },
    Serialize(Seq<char>),
    Io { path: Seq<char>, reason: Seq<char> },
}

impl DeepView for FixError {
    type V = FixErrorModel;

    open spec fn deep_view(&self) -> FixErrorModel {
        match self {
            FixError::InvalidPlan(x) => FixErrorModel::InvalidPlan(x.deep_view()),
            FixError::InvalidRoot(x) => FixErrorModel::InvalidRoot(x@),
            FixError::AuthorizationMismatch => FixErrorModel::AuthorizationMismatch,
            FixError::UnsafeFileType(x) => FixErrorModel::UnsafeFileType(x@),
            FixError::HashMismatch { path, expected, actual } => FixErrorModel::HashMismatch {
                path: path@,
                expected: *expected,
                actual: *actual,
            },
            FixError::SpanOutOfBounds { path, start, end, length } =>
                FixErrorModel::SpanOutOfBounds {
                path: path@,
                start: *start,
                end: *end,
                length: *length,
            },
            FixError::Serialize(x) => FixErrorModel::Serialize(x@),
            FixError::Io { path, reason } => FixErrorModel::Io { path: path@, reason: reason@ },
        }
    }
}

impl FixError {
    /// The same error once more.
    #[must_use]
    pub fn replicate(&self) -> (r: FixError)
        ensures
            r.deep_view() == self.deep_view(),
    {
        match self {
            FixError::InvalidPlan(x) => FixError::InvalidPlan(x.replicate()),
            FixError::InvalidRoot(x) => FixError::InvalidRoot(x.replicate()),
            FixError::AuthorizationMismatch => FixError::AuthorizationMismatch,
            FixError::UnsafeFileType(x) => FixError::UnsafeFileType(x.replicate()),
            FixError::HashMismatch { path, expected, actual } => FixError::HashMismatch {
                path: path.replicate(),
                expected: *expected,
                actual: *actual,
            },
            FixError::SpanOutOfBounds { path, start, end, length } => FixError::SpanOutOfBounds {
                path: path.replicate(),
                start: *start,
                end: *end,
                length: *length,
            },
            FixError::Serialize(x) => FixError::Serialize(x.replicate()),
            FixError::Io { path, reason } => FixError::Io {
                path: path.replicate(),
                reason: reason.replicate(),
            },
        }
    }
}

impl FixErrorModel {
    /// The error in words.
    pub open spec fn text(self) -> Seq<char> {
        match self {
            FixErrorModel::InvalidPlan(x) => x.text(),
            FixErrorModel::InvalidRoot(x) => "project root is not a directory: "@ + x,
            FixErrorModel::AuthorizationMismatch =>
                "apply authorization does not match the preview"@,
            FixErrorModel::UnsafeFileType(x) =>
                "refusing to follow a symlink or edit a non-file: "@ + x,
            FixErrorModel::HashMismatch { path, .. } => "file changed since analysis: "@ + path,
            FixErrorModel::SpanOutOfBounds { path, start, end, length } => "edit span "@ + digits(
                start as nat,
            ) + ".."@ + digits(end as nat) + " is outside "@ + path + " ("@ + digits(
                length as nat,
            ) + " bytes)"@,
            FixErrorModel::Serialize(x) => "failed to serialize fix preview: "@ + x,
            FixErrorModel::Io { path, reason } => "fix I/O failed for "@ + path + ": "@ + reason,
        }
    }
}

impl FixError {
    /// The error in words.
    #[must_use]
    pub fn message(&self) -> (r: String)
        ensures
            r@ == self.deep_view().text(),
    {
        match self {
            FixError::InvalidPlan(x) => x.message(),
            FixError::InvalidRoot(x) => concat2("project root is not a directory: ", x),
            FixError::AuthorizationMismatch =>
                "apply authorization does not match the preview".to_owned(),
            FixError::UnsafeFileType(x) => concat2(
                "refusing to follow a symlink or edit a non-file: ",
                x,
            ),
            FixError::HashMismatch { path, .. } => concat2("file changed since analysis: ", path),
            FixError::SpanOutOfBounds { path, start, end, length } => {
                let place = concat7(
                    "edit span ",
                    &decimal(*start as u64),
                    "..",
                    &decimal(*end as u64),
                    " is outside ",
                    path,
                    " (",
                );
                concat3(&place, &decimal(*length as u64), " bytes)")
            },
            FixError::Serialize(x) => concat2("failed to serialize fix preview: ", x),
            FixError::Io { path, reason } => concat4("fix I/O failed for ", path, ": ", reason),
        }
    }
}

/// `content` with the bytes of one span replaced.
pub open spec fn spliced(content: Seq<u8>, edit: SourceEditModel) -> Seq<u8> {
    content.take(edit.span.start as int) + encode_utf8(edit.replacement) + content.skip(
        edit.span.end as int,
    )
}

/// `content` with the edits made from the last to the first.
pub open spec fn edited(
    path: Seq<char>,
    content: Seq<u8>,
    edits: Seq<SourceEditModel>,
) -> Result<Seq<u8>, FixErrorModel>
    decreases edits.len(),
{
    if edits.len() == 0 {
        Ok(content)
    } else {
        let edit = edits.last();
        if edit.span.end > content.len() {
            Err(
                FixErrorModel::SpanOutOfBounds {
                    path,
                    start: edit.span.start,
                    end: edit.span.end,
                    length: content.len() as usize,
                },
            )
        } else {
            edited(path, spliced(content, edit), edits.drop_last())
        }
    }
}

fn append_bytes(out: &mut Vec<u8>, bytes: &[u8], from: usize, to: usize)
    requires
        from <= to <= bytes@.len(),
    ensures
        final(out)@ == old(out)@ + bytes@.subrange(from as int, to as int),
{
    let ghost front = out@;
    let mut i: usize = from;
    assert(front + bytes@.subrange(from as int, from as int) =~= front);
    while i < to
        invariant
            from <= i <= to <= bytes@.len(),
            out@ == front + bytes@.subrange(from as int, i as int),
        decreases to - i,
    {
        out.push(bytes[i]);
        i = i + 1;
        assert(out@ =~= front + bytes@.subrange(from as int, i as int));
    }
}

fn apply_edits(path: &ProjectPath, original: &Vec<u8>, edits: &Vec<SourceEdit>) -> (r: Result<
    Vec<u8>,
    FixError,
>)
    requires
        ordered_edits(edits.deep_view()),
    ensures
        match r {
            Ok(updated) => edited(path.deep_view(), original@, edits.deep_view()) == Ok::<
                _,
                FixErrorModel,
            >(updated@),
            Err(error) => edited(path.deep_view(), original@, edits.deep_view()) == Err::<
                Seq<u8>,
                _,
            >(error.deep_view()),
        },
{
    let ghost model = edits.deep_view();
    let ghost name = path.deep_view();
    let mut updated: Vec<u8> = Vec::new();
    append_bytes(&mut updated, original.as_slice(), 0, original.len());
    assert(updated@ =~= original@);
    let mut i: usize = edits.len();
    assert(model.take(i as int) =~= model);
    while i > 0
        invariant
            i <= edits.len(),
            model == edits.deep_view(),
            ordered_edits(model),
            name == path.deep_view(),
            edited(name, original@, model) == edited(name, updated@, model.take(i as int)),
        decreases i,
    {
        assert(model.take(i as int).drop_last() =~= model.take(i - 1));
        assert(model.take(i as int).last() == model[i - 1]);
        i = i - 1;
        assert(model[i as int] == edits@[i as int].deep_view());
        let span = edits[i].span;
        let length: usize = updated.len();
        if span.end > length {
            return Err(
                FixError::SpanOutOfBounds {
                    path: path.as_str().to_owned(),
                    start: span.start,
                    end: span.end,
                    length,
                },
            );
        }
        let replacement = edits[i].replacement.as_str().as_bytes();
        let mut next: Vec<u8> = Vec::new();
        append_bytes(&mut next, updated.as_slice(), 0, span.start);
        append_bytes(&mut next, replacement, 0, replacement.len());
        append_bytes(&mut next, updated.as_slice(), span.end, length);
        assert(next@ =~= spliced(updated@, model[i as int]));
        updated = next;
    }
    assert(model.take(0) =~= Seq::empty());
    Ok(updated)
}

/// Checks that a file still has the analyzed content.
pub open spec fn content_error(
    path: Seq<char>,
    expected: ContentDigest,
    content: Seq<u8>,
) -> Option<FixErrorModel> {
    if sha256(content) == expected.0 {
        None
    } else {
        Some(
            FixErrorModel::HashMismatch { path, expected, actual: ContentDigest(sha256(content)) },
        )
    }
}

pub(crate) fn check_content(
    path: &ProjectPath,
    expected: ContentDigest,
    content: &[u8],
) -> (r: Result<
    (),
    FixError,
>)
    ensures
        match r {
            Ok(_) => content_error(path.deep_view(), expected, content@) is None,
            Err(error) => content_error(path.deep_view(), expected, content@) == Some(
                error.deep_view(),
            ),
        },
{
    let actual = ContentDigest::of_bytes(content);
    if actual != expected {
        return Err(
            FixError::HashMismatch { path: path.as_str().to_owned(), expected, actual },
        );
    }
    Ok(())
}

/// The preview of a change to a file with this content.
pub open spec fn previewed(change: FileChangeModel, content: Seq<u8>) -> Result<
    PreviewedFileChangeModel,
    FixErrorModel,
> {
    match content_error(change.path, change.expected_content, content) {
        Some(error) => Err(error),
        None => match change.edits {
            None => Ok(
                PreviewedFileChangeModel {
                    path: change.path,
                    kind: PreviewChangeKind::Delete,
                    before_digest: change.expected_content,
                    after_digest: None,
                    original_content: content,
                    updated_content: None,
                },
            ),
            Some(edits) => match edited(change.path, content, edits) {
                Err(error) => Err(error),
                Ok(updated) => Ok(
                    PreviewedFileChangeModel {
                        path: change.path,
                        kind: PreviewChangeKind::Modify,
                        before_digest: change.expected_content,
                        after_digest: Some(ContentDigest(sha256(updated))),
                        original_content: content,
                        updated_content: Some(updated),
                    },
                ),
            },
        },
    }
}

/// Previews a change to a file whose content was read: refused when the content is not the
/// analyzed one, or when an edit does not fit.
pub fn preview_file_change(change: &FileChange, original_content: Vec<u8>) -> (r: Result<
    PreviewedFileChange,
    FixError,
>)
    requires
        change.deep_view().edits matches Some(edits) ==> ordered_edits(edits),
    ensures
        match r {
            Ok(preview) => previewed(change.deep_view(), original_content@) == Ok::<
                _,
                FixErrorModel,
            >(preview.deep_view()),
            Err(error) => previewed(change.deep_view(), original_content@) == Err::<
                PreviewedFileChangeModel,
                _,
            >(error.deep_view()),
        },
{
    let path = change.path().replicate();
    if let Err(error) = check_content(&path, change.expected_content(), original_content.as_slice()) {
        return Err(error);
    }
    let before_digest = change.expected_content();
    match change {
        FileChange::Modify { edits, .. } => match apply_edits(&path, &original_content, edits) {
            Err(error) => Err(error),
            Ok(updated) => {
                let after_digest = ContentDigest::of_bytes(updated.as_slice());
                assert(original_content.deep_view() =~= original_content@);
                assert(updated.deep_view() =~= updated@);
                Ok(
                    PreviewedFileChange {
                        path,
                        kind: PreviewChangeKind::Modify,
                        before_digest,
                        after_digest: Some(after_digest),
                        original_content,
                        updated_content: Some(updated),
                    },
                )
            },
        },
        FileChange::Delete { .. } => {
            assert(original_content.deep_view() =~= original_content@);
            Ok(
                PreviewedFileChange {
                    path,
                    kind: PreviewChangeKind::Delete,
                    before_digest,
                    after_digest: None,
                    original_content,
                    updated_content: None,
                },
            )
        },
    }
}

/// A plan with the changes that it makes.
#[derive(Debug, PartialEq, Eq)]
pub struct FixPreview {
    plan: FixPlan,
    fingerprint: Digest,
    pub file_changes: Vec<PreviewedFileChange>,
}

/// What a [`FixPreview`] holds.
pub struct FixPreviewModel {
    pub plan: FixPlanModel,
    pub fingerprint: Digest,
    pub file_changes: Seq<PreviewedFileChangeModel>,
}

impl DeepView for FixPreview {
    type V = FixPreviewModel;

    closed spec fn deep_view(&self) -> FixPreviewModel {
        FixPreviewModel {
            plan: self.plan.deep_view(),
            fingerprint: self.fingerprint,
            file_changes: self.file_changes.deep_view(),
        }
    }
}

/// The digests of a change: before it, and after it where something is left.
pub open spec fn digests_of_change(change: PreviewedFileChangeModel) -> Seq<u8> {
    encode_utf8(hex(change.before_digest.0)) + match change.after_digest {
        Some(after) => encode_utf8(hex(after.0)),
        None => Seq::empty(),
    }
}

fn add_digests(input: &mut Vec<u8>, change: &PreviewedFileChange)
    ensures
        final(input)@ == old(input)@ + digests_of_change(change.deep_view()),
{
    let ghost start = input@;
    let before = change.before_digest.0.to_hex();
    let bytes = before.as_str().as_bytes();
    append_bytes(input, bytes, 0, bytes.len());
    assert(bytes@.subrange(0, bytes@.len() as int) =~= bytes@);
    assert(input@ =~= start + encode_utf8(hex(change.before_digest.0)));
    if let Some(digest) = change.after_digest {
        let after = digest.0.to_hex();
        let bytes = after.as_str().as_bytes();
        append_bytes(input, bytes, 0, bytes.len());
        assert(bytes@.subrange(0, bytes@.len() as int) =~= bytes@);
    }
    assert(input@ =~= start + digests_of_change(change.deep_view()));
}

/// The digests of the changes, one after the other.
pub open spec fn change_digests(changes: Seq<PreviewedFileChangeModel>) -> Seq<u8>
    decreases changes.len(),
{
    if changes.len() == 0 {
        Seq::empty()
    } else {
        change_digests(changes.drop_last()) + digests_of_change(changes.last())
    }
}

/// What identifies a preview: the written plan and the digests of its changes.
pub open spec fn preview_fingerprint(
    plan_bytes: Seq<u8>,
    changes: Seq<PreviewedFileChangeModel>,
) -> Digest {
    sha256(plan_bytes + change_digests(changes))
}

impl FixPreview {
    /// The preview of `plan`, which was written as `plan_bytes`, with these changes.
    #[must_use]
    pub fn new(plan: FixPlan, plan_bytes: Vec<u8>, file_changes: Vec<PreviewedFileChange>) -> (r:
        FixPreview)
        ensures
            r.deep_view() == (FixPreviewModel {
                plan: plan.deep_view(),
                fingerprint: preview_fingerprint(plan_bytes@, file_changes.deep_view()),
                file_changes: file_changes.deep_view(),
            }),
    {
        let ghost model = file_changes.deep_view();
        let ghost start = plan_bytes@;
        let mut input = plan_bytes;
        let mut i: usize = 0;
        assert(start + change_digests(model.take(0)) =~= start);
        while i < file_changes.len()
            invariant
                i <= file_changes.len(),
                model == file_changes.deep_view(),
                input@ == start + change_digests(model.take(i as int)),
            decreases file_changes.len() - i,
        {
            let ghost front = change_digests(model.take(i as int));
            let ghost added = digests_of_change(model[i as int]);
            assert(model.take(i + 1).drop_last() =~= model.take(i as int));
            assert(model.take(i + 1).last() == file_changes@[i as int].deep_view());
            add_digests(&mut input, &file_changes[i]);
            assert((start + front) + added =~= start + (front + added));
            i = i + 1;
        }
        assert(model.take(i as int) =~= model);
        let fingerprint = Digest::of_bytes(input.as_slice());
        FixPreview { plan, fingerprint, file_changes }
    }

    /// The previewed plan.
    #[must_use]
    pub fn plan(&self) -> (r: &FixPlan)
        ensures
            r.deep_view() == self.deep_view().plan,
    {
        &self.plan
    }

    /// The changes of files.
    #[must_use]
    pub fn changes(&self) -> (r: &Vec<PreviewedFileChange>)
        ensures
            r.deep_view() == self.deep_view().file_changes,
    {
        &self.file_changes
    }

    /// What identifies the preview.
    #[must_use]
    pub fn fingerprint(&self) -> (r: Digest)
        ensures
            r == self.deep_view().fingerprint,
    {
        self.fingerprint
    }

    /// Produces the capability that applying requires, after the caller has
    /// displayed this preview and received explicit apply authorization.
    #[must_use]
    pub fn explicit_apply_authorization(&self) -> (r: ApplyAuthorization)
        ensures
            r.authorizes() == self.deep_view().fingerprint,
    {
        ApplyAuthorization { fingerprint: self.fingerprint }
    }
}

/// The permission to apply one preview.
#[derive(Debug, Clone, Copy, PartialEq, Eq, Structural)]
pub struct ApplyAuthorization {
    fingerprint: Digest,
}

impl ApplyAuthorization {
    /// The fingerprint of the preview that may be applied.
    pub closed spec fn authorizes(self) -> Digest {
        self.fingerprint
    }
}

/// What came of a command.
#[derive(Debug, PartialEq, Eq)]
pub struct CommandExecution {
    pub command: PackageManagerCommand,
    pub success: bool,
    pub exit_code: Option<i32>,
    pub message: String,
}

/// What a [`CommandExecution`] holds.
pub struct CommandExecutionModel {
    pub command: PackageManagerCommandModel,
    pub success: bool,
    pub exit_code: Option<i32>,
    pub message: Seq<char>,
}

impl DeepView for CommandExecution {
    type V = CommandExecutionModel;

    open spec fn deep_view(&self) -> CommandExecutionModel {
        CommandExecutionModel {
            command: self.command.deep_view(),
            success: self.success.deep_view(),
            exit_code: self.exit_code.deep_view(),
            message: self.message.deep_view(),
        }
    }
}

impl Value for CommandExecution {
    fn replicate(&self) -> (r: Self) {
        CommandExecution {
            command: self.command.replicate(),
            success: self.success.replicate(),
            exit_code: self.exit_code.replicate(),
            message: self.message.replicate(),
        }
    }

    fn same_value(&self, other: &Self) -> (r: bool) {
        self.command.same_value(&other.command)
            && self.success.same_value(&other.success)
            && self.exit_code.same_value(&other.exit_code)
            && self.message.same_value(&other.message)
    }
}

/// Runs package-manager commands.
pub trait CommandExecutor {
    /// Executes an already-previewed package-manager command in its exact workspace.
    fn execute(&mut self, project_root: &str, command: &PackageManagerCommand) -> CommandExecution;
}

/// What is to be looked at after a fix.
#[derive(Debug)]
pub struct RevalidationRequest<'a> {
    pub project_root: &'a str,
    pub plan_id: &'a str,
    pub changed_paths: &'a Vec<ProjectPath>,
    pub package_commands: &'a Vec<CommandExecution>,
}

/// What came of looking at the project after a fix.
#[derive(Debug, PartialEq, Eq)]
pub enum RevalidationOutcome {
    Passed { notes: Vec<String> },
    Failed { diagnostics: Vec<String> },
}

/// What a [`RevalidationOutcome`] holds.
pub enum RevalidationOutcomeModel {
    Passed { notes: Seq<Seq<char>> },
    Failed { diagnostics: Seq<Seq<char>> },
}

impl DeepView for RevalidationOutcome {
    type V = RevalidationOutcomeModel;

    open spec fn deep_view(&self) -> RevalidationOutcomeModel {
        match self {
            RevalidationOutcome::Passed { notes } => RevalidationOutcomeModel::Passed {
                notes: notes.deep_view(),
            },
            RevalidationOutcome::Failed { diagnostics } => RevalidationOutcomeModel::Failed {
                diagnostics: diagnostics.deep_view(),
            },
        }
    }
}

/// Looks at the project after a fix.
pub trait Revalidator {
    /// Re-scans affected analysis scopes and may run configured validation commands.
    fn revalidate(&mut self, request: RevalidationRequest<'_>) -> RevalidationOutcome;
}

/// What came of applying a fix.
#[derive(Debug, PartialEq, Eq)]
pub struct ApplyReport {
    pub plan_id: String,
    pub changed_paths: Vec<ProjectPath>,
    pub package_commands: Vec<CommandExecution>,
    pub revalidation: RevalidationOutcome,
}

/// What a [`ApplyReport`] holds.
pub struct ApplyReportModel {
    pub plan_id: Seq<char>,
    pub changed_paths: Seq<Seq<char>>,
    pub package_commands: Seq<CommandExecutionModel>,
    pub revalidation: RevalidationOutcomeModel,
}

impl DeepView for ApplyReport {
    type V = ApplyReportModel;

    open spec fn deep_view(&self) -> ApplyReportModel {
        ApplyReportModel {
            plan_id: self.plan_id.deep_view(),
            changed_paths: self.changed_paths.deep_view(),
            package_commands: self.package_commands.deep_view(),
            revalidation: self.revalidation.deep_view(),
        }
    }
}

/// What is to be done next while a preview is applied; numbers count changes or commands.
#[derive(Debug, Clone, Copy, PartialEq, Eq, Structural)]
pub enum ApplyPhase {
    /// Read this file, to see that it is unchanged before anything is written.
    VerifyFile(usize),
    /// Read the manifest of this command, to see that it is unchanged before anything is written.
    VerifyManifest(usize),
    /// Read this file once more.
    ReadFile(usize),
    /// Make this change.
    WriteFile(usize),
    /// Read the manifest of this command once more.
    CheckManifest(usize),
    /// Run this command.
    Execute(usize),
    /// Look at the project.
    Revalidate,
}

/// The phase behind the last item of a list is the first of the next list.
pub open spec fn settled(files: nat, commands: nat, phase: ApplyPhase) -> ApplyPhase {
    let check = if commands > 0 {
        ApplyPhase::CheckManifest(0)
    } else {
        ApplyPhase::Revalidate
    };
    let read = if files > 0 {
        ApplyPhase::ReadFile(0)
    } else {
        check
    };
    let verify = if commands > 0 {
        ApplyPhase::VerifyManifest(0)
    } else {
        read
    };
    match phase {
        ApplyPhase::VerifyFile(i) => if i < files {
            phase
        } else {
            verify
        },
        ApplyPhase::VerifyManifest(i) => if i < commands {
            phase
        } else {
            read
        },
        ApplyPhase::ReadFile(i) => if i < files {
            phase
        } else {
            check
        },
        ApplyPhase::CheckManifest(i) => if i < commands {
            phase
        } else {
            ApplyPhase::Revalidate
        },
        _ => phase,
    }
}

fn settle(files: usize, commands: usize, phase: ApplyPhase) -> (r: ApplyPhase)
    ensures
        r == settled(files as nat, commands as nat, phase),
{
    let check = if commands > 0 {
        ApplyPhase::CheckManifest(0)
    } else {
        ApplyPhase::Revalidate
    };
    let read = if files > 0 {
        ApplyPhase::ReadFile(0)
    } else {
        check
    };
    let verify = if commands > 0 {
        ApplyPhase::VerifyManifest(0)
    } else {
        read
    };
    match phase {
        ApplyPhase::VerifyFile(i) => if i < files {
            phase
        } else {
            verify
        },
        ApplyPhase::VerifyManifest(i) => if i < commands {
            phase
        } else {
            read
        },
        ApplyPhase::ReadFile(i) => if i < files {
            phase
        } else {
            check
        },
        ApplyPhase::CheckManifest(i) => if i < commands {
            phase
        } else {
            ApplyPhase::Revalidate
        },
        _ => phase,
    }
}

/// The application of an authorized preview.
#[derive(Debug)]
pub struct ApplySession {
    preview: FixPreview,
    phase: ApplyPhase,
    changed_paths: Vec<ProjectPath>,
    executions: Vec<CommandExecution>,
}

/// What an [`ApplySession`] holds.
pub struct ApplySessionModel {
    pub preview: FixPreviewModel,
    pub phase: ApplyPhase,
    pub changed_paths: Seq<Seq<char>>,
    pub executions: Seq<CommandExecutionModel>,
}

impl ApplySessionModel {
    /// The phase is about a change or a command that exists.
    pub open spec fn wf(self) -> bool {
        let files = self.preview.file_changes.len();
        let commands = self.preview.plan.package_commands.len();
        &&& files <= usize::MAX
        &&& commands <= usize::MAX
        &&& match self.phase {
            ApplyPhase::VerifyFile(i) | ApplyPhase::ReadFile(i) | ApplyPhase::WriteFile(i) => i
                < files,
            ApplyPhase::VerifyManifest(i)
            | ApplyPhase::CheckManifest(i)
            | ApplyPhase::Execute(i) => i < commands,
            ApplyPhase::Revalidate => true,
        }
    }

    /// The file that is to be read, and the content that it must have.
    pub open spec fn awaited(self) -> Option<(Seq<char>, ContentDigest)> {
        match self.phase {
            ApplyPhase::VerifyFile(i) | ApplyPhase::ReadFile(i) => Some(
                (
                    self.preview.file_changes[i as int].path,
                    self.preview.file_changes[i as int].before_digest,
                ),
            ),
            ApplyPhase::VerifyManifest(i) | ApplyPhase::CheckManifest(i) => Some(
                (
                    self.preview.plan.package_commands[i as int].manifest_path,
                    self.preview.plan.package_commands[i as int].analyzed_manifest_content,
                ),
            ),
            _ => None,
        }
    }

    /// The session once the awaited file has been found unchanged.
    pub open spec fn after_check(self) -> ApplySessionModel {
        let files = self.preview.file_changes.len();
        let commands = self.preview.plan.package_commands.len();
        ApplySessionModel {
            phase: match self.phase {
                ApplyPhase::VerifyFile(i) => settled(
                    files,
                    commands,
                    ApplyPhase::VerifyFile((i + 1) as usize),
                ),
                ApplyPhase::VerifyManifest(i) => settled(
                    files,
                    commands,
                    ApplyPhase::VerifyManifest((i + 1) as usize),
                ),
                ApplyPhase::ReadFile(i) => ApplyPhase::WriteFile(i),
                ApplyPhase::CheckManifest(i) => ApplyPhase::Execute(i),
                _ => self.phase,
            },
            ..self
        }
    }

    /// The session once the change has been made.
    pub open spec fn after_write(self) -> ApplySessionModel {
        let files = self.preview.file_changes.len();
        let commands = self.preview.plan.package_commands.len();
        match self.phase {
            ApplyPhase::WriteFile(i) => ApplySessionModel {
                phase: settled(files, commands, ApplyPhase::ReadFile((i + 1) as usize)),
                changed_paths: self.changed_paths.push(self.preview.file_changes[i as int].path),
                ..self
            },
            _ => self,
        }
    }

    /// The session once the command has run: after a failure no further command runs.
    pub open spec fn after_execution(self, execution: CommandExecutionModel) -> ApplySessionModel {
        let files = self.preview.file_changes.len();
        let commands = self.preview.plan.package_commands.len();
        match self.phase {
            ApplyPhase::Execute(i) => ApplySessionModel {
                phase: if execution.success {
                    settled(files, commands, ApplyPhase::CheckManifest((i + 1) as usize))
                } else {
                    ApplyPhase::Revalidate
                },
                executions: self.executions.push(execution),
                ..self
            },
            _ => self,
        }
    }
}

impl DeepView for ApplySession {
    type V = ApplySessionModel;

    closed spec fn deep_view(&self) -> ApplySessionModel {
        ApplySessionModel {
            preview: self.preview.deep_view(),
            phase: self.phase,
            changed_paths: self.changed_paths.deep_view(),
            executions: self.executions.deep_view(),
        }
    }
}

impl ApplySession {
    /// Begins to apply a previously previewed plan.
    ///
    /// # Errors
    ///
    /// Returns an error when the authorization is for another preview.
    pub fn begin(preview: FixPreview, authorization: ApplyAuthorization) -> (r: Result<
        ApplySession,
        FixError,
    >)
        ensures
            match r {
                Ok(session) => authorization.authorizes() == preview.deep_view().fingerprint
                    && session.deep_view().wf() && session.deep_view() == begun(
                    preview.deep_view(),
                ),
                Err(error) => authorization.authorizes() != preview.deep_view().fingerprint
                    && error.deep_view() == FixErrorModel::AuthorizationMismatch,
            },
    {
        if authorization.fingerprint != preview.fingerprint {
            return Err(FixError::AuthorizationMismatch);
        }
        let phase = settle(
            preview.file_changes.len(),
            preview.plan.package_commands.len(),
            ApplyPhase::VerifyFile(0),
        );
        let session = ApplySession {
            preview,
            phase,
            changed_paths: Vec::new(),
            executions: Vec::new(),
        };
        assert(session.changed_paths.deep_view() =~= Seq::empty());
        assert(session.executions.deep_view() =~= Seq::empty());
        Ok(session)
    }

    /// What is to be done next.
    #[must_use]
    pub fn phase(&self) -> (r: ApplyPhase)
        ensures
            r == self.deep_view().phase,
    {
        self.phase
    }

    /// The preview that is applied.
    #[must_use]
    pub fn preview(&self) -> (r: &FixPreview)
        ensures
            r.deep_view() == self.deep_view().preview,
    {
        &self.preview
    }

    /// Takes the content of the file that was to be read.
    ///
    /// # Errors
    ///
    /// Returns an error when the file changed since it was analyzed; nothing more is to be done
    /// then.
    pub fn checked(&mut self, content: &[u8]) -> (r: Result<(), FixError>)
        requires
            old(self).deep_view().wf(),
            old(self).deep_view().awaited() is Some,
        ensures
            final(self).deep_view().wf(),
            match r {
                Ok(_) => content_error(
                    (old(self).deep_view().awaited()->0).0,
                    (old(self).deep_view().awaited()->0).1,
                    content@,
                ) is None && final(self).deep_view() == old(self).deep_view().after_check(),
                Err(error) => content_error(
                    (old(self).deep_view().awaited()->0).0,
                    (old(self).deep_view().awaited()->0).1,
                    content@,
                ) == Some(error.deep_view()) && final(self).deep_view() == old(self).deep_view(),
            },
    {
        let ghost model = self.deep_view();
        let files: usize = self.preview.file_changes.len();
        let commands: usize = self.preview.plan.package_commands.len();
        match self.phase {
            ApplyPhase::VerifyFile(i) | ApplyPhase::ReadFile(i) => {
                assert(model.preview.file_changes[i as int]
                    == self.preview.file_changes@[i as int].deep_view());
                let change = &self.preview.file_changes[i];
                if let Err(error) = check_content(&change.path, change.before_digest, content) {
                    return Err(error);
                }
            },
            ApplyPhase::VerifyManifest(i) | ApplyPhase::CheckManifest(i) => {
                assert(model.preview.plan.package_commands[i as int]
                    == self.preview.plan.package_commands@[i as int].deep_view());
                let command = &self.preview.plan.package_commands[i];
                if let Err(error) = check_content(
                    &command.manifest_path,
                    command.analyzed_manifest_content,
                    content,
                ) {
                    return Err(error);
                }
            },
            _ => {},
        }
        self.phase =
        match self.phase {
            ApplyPhase::VerifyFile(i) => settle(files, commands, ApplyPhase::VerifyFile(i + 1)),
            ApplyPhase::VerifyManifest(i) => settle(
                files,
                commands,
                ApplyPhase::VerifyManifest(i + 1),
            ),
            ApplyPhase::ReadFile(i) => ApplyPhase::WriteFile(i),
            ApplyPhase::CheckManifest(i) => ApplyPhase::Execute(i),
            other => other,
        };
        Ok(())
    }

    /// Notes that the change has been made.
    pub fn written(&mut self)
        requires
            old(self).deep_view().wf(),
            old(self).deep_view().phase is WriteFile,
        ensures
            final(self).deep_view().wf(),
            final(self).deep_view() == old(self).deep_view().after_write(),
    {
        let ghost model = self.deep_view();
        let files: usize = self.preview.file_changes.len();
        let commands: usize = self.preview.plan.package_commands.len();
        if let ApplyPhase::WriteFile(i) = self.phase {
            assert(model.preview.file_changes[i as int]
                == self.preview.file_changes@[i as int].deep_view());
            let path = self.preview.file_changes[i].path.replicate();
            push_item(&mut self.changed_paths, path);
            self.phase = settle(files, commands, ApplyPhase::ReadFile(i + 1));
        }
    }

    /// Takes what came of the command.
    pub fn executed(&mut self, execution: CommandExecution)
        requires
            old(self).deep_view().wf(),
            old(self).deep_view().phase is Execute,
        ensures
            final(self).deep_view().wf(),
            final(self).deep_view() == old(self).deep_view().after_execution(
                execution.deep_view(),
            ),
    {
        let files: usize = self.preview.file_changes.len();
        let commands: usize = self.preview.plan.package_commands.len();
        if let ApplyPhase::Execute(i) = self.phase {
            self.phase = if execution.success {
                settle(files, commands, ApplyPhase::CheckManifest(i + 1))
            } else {
                ApplyPhase::Revalidate
            };
            push_item(&mut self.executions, execution);
        }
    }

    /// The files changed so far.
    #[must_use]
    pub fn changed_paths(&self) -> (r: &Vec<ProjectPath>)
        ensures
            r.deep_view() == self.deep_view().changed_paths,
    {
        &self.changed_paths
    }

    /// What came of the commands so far.
    #[must_use]
    pub fn executions(&self) -> (r: &Vec<CommandExecution>)
        ensures
            r.deep_view() == self.deep_view().executions,
    {
        &self.executions
    }

    /// Takes what came of looking at the project.
    #[must_use]
    pub fn finish(self, revalidation: RevalidationOutcome) -> (r: ApplyReport)
        ensures
            r.deep_view() == (ApplyReportModel {
                plan_id: self.deep_view().preview.plan.plan_id,
                changed_paths: self.deep_view().changed_paths,
                package_commands: self.deep_view().executions,
                revalidation: revalidation.deep_view(),
            }),
    {
        ApplyReport {
            plan_id: self.preview.plan.plan_id.clone(),
            changed_paths: self.changed_paths,
            package_commands: self.executions,
            revalidation,
        }
    }
}

/// Edits that stand in order do not disturb each other: the bytes in front of the first edit stay
/// where they are, and what earlier edits do is what they do to the part in front of the last.
pub proof fn edits_are_independent(
    path: Seq<char>,
    content: Seq<u8>,
    tail: Seq<u8>,
    edits: Seq<SourceEditModel>,
)
    requires
        ordered_edits(edits),
        edits.len() > 0 ==> edits.last().span.end <= content.len(),
    ensures
        edited(path, content + tail, edits) == Ok::<_, FixErrorModel>(
            replaced(content, edits) + tail,
        ),
    decreases edits.len(),
{
    if edits.len() > 0 {
        let edit = edits.last();
        let front = edits.drop_last();
        let start = edit.span.start as int;
        let end = edit.span.end as int;
        assert(edits[edits.len() - 1].span.start <= edits[edits.len() - 1].span.end);
        assert(content.len() >= end);
        let middle = encode_utf8(edit.replacement);
        assert(spliced(content + tail, edit) =~= content.take(start) + (middle + content.skip(end)
            + tail));
        assert(ordered_edits(front)) by {
            assert forall|i: int| 0 <= i < front.len() implies (#[trigger] front[i]).span.start
                <= front[i].span.end by {
                assert(front[i] == edits[i]);
            }
            assert forall|i: int, j: int| 0 <= i < j < front.len() implies (
            #[trigger] front[i]).span.end <= (#[trigger] front[j]).span.start by {
                assert(front[i] == edits[i] && front[j] == edits[j]);
            }
        }
        if front.len() > 0 {
            assert(front.last() == edits[front.len() - 1]);
            assert(edits[front.len() - 1].span.end <= edits[edits.len() - 1].span.start);
        }
        edits_are_independent(
            path,
            content.take(start),
            middle + content.skip(end) + tail,
            front,
        );
        assert(replaced(content.take(start), front) + (middle + content.skip(end) + tail)
            =~= replaced(content, edits) + tail);
    } else {
        assert(content + tail =~= replaced(content, edits) + tail);
    }
}

/// `content` with each span replaced where it stands.
pub open spec fn replaced(content: Seq<u8>, edits: Seq<SourceEditModel>) -> Seq<u8>
    decreases edits.len(),
{
    if edits.len() == 0 {
        content
    } else {
        let edit = edits.last();
        replaced(content.take(edit.span.start as int), edits.drop_last()) + encode_utf8(
            edit.replacement,
        ) + content.skip(edit.span.end as int)
    }
}

/// A change is only made, and a command only run, right after its file or manifest was found with
/// the analyzed content.
pub proof fn writing_follows_a_check(session: ApplySessionModel, i: usize)
    requires
        session.wf(),
        session.awaited() is Some,
    ensures
        session.after_check().phase == ApplyPhase::WriteFile(i) ==> session.phase
            == ApplyPhase::ReadFile(i) && session.awaited() == Some(
            (
                session.preview.file_changes[i as int].path,
                session.preview.file_changes[i as int].before_digest,
            ),
        ),
        session.after_check().phase == ApplyPhase::Execute(i) ==> session.phase
            == ApplyPhase::CheckManifest(i) && session.awaited() == Some(
            (
                session.preview.plan.package_commands[i as int].manifest_path,
                session.preview.plan.package_commands[i as int].analyzed_manifest_content,
            ),
        ),
{
}

/// A step in the application of a preview.
pub enum ApplyStep {
    /// The awaited file was read, with this content.
    Checked(Seq<u8>),
    /// The change was made.
    Written,
    /// The command was run.
    Executed(CommandExecutionModel),
}

impl ApplySessionModel {
    /// Whether a step can be taken: the content that was read is the analyzed one, and nothing is
    /// written or run but what is to be.
    pub open spec fn allows(self, step: ApplyStep) -> bool {
        match step {
            ApplyStep::Checked(content) => match self.awaited() {
                Some((path, digest)) => content_error(path, digest, content) is None,
                None => false,
            },
            ApplyStep::Written => self.phase is WriteFile,
            ApplyStep::Executed(_) => self.phase is Execute,
        }
    }

    /// The session once a step has been taken.
    pub open spec fn after_step(self, step: ApplyStep) -> ApplySessionModel {
        match step {
            ApplyStep::Checked(_) => self.after_check(),
            ApplyStep::Written => self.after_write(),
            ApplyStep::Executed(execution) => self.after_execution(execution),
        }
    }

    /// The session once steps have been taken.
    pub open spec fn after_steps(self, steps: Seq<ApplyStep>) -> ApplySessionModel
        decreases steps.len(),
    {
        if steps.len() == 0 {
            self
        } else {
            self.after_steps(steps.drop_last()).after_step(steps.last())
        }
    }

    /// Whether steps can be taken, one after the other.
    pub open spec fn allows_all(self, steps: Seq<ApplyStep>) -> bool
        decreases steps.len(),
    {
        steps.len() == 0 || self.allows_all(steps.drop_last()) && self.after_steps(
            steps.drop_last(),
        ).allows(steps.last())
    }

    /// Whether one of some steps was a check in a phase, with the analyzed content.
    pub open spec fn passed(self, steps: Seq<ApplyStep>, phase: ApplyPhase) -> bool {
        exists|k: int|
            0 <= k < steps.len() && (#[trigger] steps[k]) is Checked && self.after_steps(
                steps.take(k),
            ).phase == phase && self.after_steps(steps.take(k)).allows(steps[k])
    }
}

/// The session that begins to apply a preview.
pub open spec fn begun(preview: FixPreviewModel) -> ApplySessionModel {
    ApplySessionModel {
        preview,
        phase: settled(
            preview.file_changes.len(),
            preview.plan.package_commands.len(),
            ApplyPhase::VerifyFile(0),
        ),
        changed_paths: Seq::empty(),
        executions: Seq::empty(),
    }
}

spec fn files_verified(files: nat, phase: ApplyPhase) -> nat {
    match phase {
        ApplyPhase::VerifyFile(i) => i as nat,
        _ => files,
    }
}

spec fn manifests_verified(commands: nat, phase: ApplyPhase) -> nat {
    match phase {
        ApplyPhase::VerifyFile(_) => 0,
        ApplyPhase::VerifyManifest(i) => i as nat,
        _ => commands,
    }
}

proof fn passing_stays(
    session: ApplySessionModel,
    steps: Seq<ApplyStep>,
    step: ApplyStep,
    phase: ApplyPhase,
)
    ensures
        session.passed(steps, phase) ==> session.passed(steps.push(step), phase),
        step is Checked && session.after_steps(steps).phase == phase && session.after_steps(
            steps,
        ).allows(step) ==> session.passed(steps.push(step), phase),
{
    let more = steps.push(step);
    assert(more.take(steps.len() as int) =~= steps);
    assert(more[steps.len() as int] == step);
    if session.passed(steps, phase) {
        let k = choose|k: int|
            0 <= k < steps.len() && (#[trigger] steps[k]) is Checked && session.after_steps(
                steps.take(k),
            ).phase == phase && session.after_steps(steps.take(k)).allows(steps[k]);
        assert(more[k] == steps[k]);
        assert(more.take(k) =~= steps.take(k));
    }
}

proof fn verified_so_far(preview: FixPreviewModel, steps: Seq<ApplyStep>)
    requires
        preview.file_changes.len() <= usize::MAX,
        preview.plan.package_commands.len() <= usize::MAX,
        begun(preview).allows_all(steps),
    ensures
        ({
            let session = begun(preview).after_steps(steps);
            let files = preview.file_changes.len();
            let commands = preview.plan.package_commands.len();
            &&& session.preview == preview
            &&& session.wf()
            &&& forall|i: usize|
                i < files_verified(files, session.phase) ==> #[trigger] begun(preview).passed(
                    steps,
                    ApplyPhase::VerifyFile(i),
                )
            &&& forall|i: usize|
                i < manifests_verified(commands, session.phase) ==> #[trigger] begun(
                    preview,
                ).passed(steps, ApplyPhase::VerifyManifest(i))
        }),
    decreases steps.len(),
{
    let start = begun(preview);
    let files = preview.file_changes.len();
    let commands = preview.plan.package_commands.len();
    if steps.len() > 0 {
        let front = steps.drop_last();
        let step = steps.last();
        let before = start.after_steps(front);
        let session = start.after_steps(steps);
        verified_so_far(preview, front);
        assert(front.push(step) =~= steps);
        assert forall|i: usize| i < files_verified(files, session.phase) implies #[trigger] start.passed(
            steps,
            ApplyPhase::VerifyFile(i),
        ) by {
            passing_stays(start, front, step, ApplyPhase::VerifyFile(i));
            if i < files_verified(files, before.phase) {
                assert(start.passed(front, ApplyPhase::VerifyFile(i)));
            }
        }
        assert forall|i: usize|
            i < manifests_verified(commands, session.phase) implies #[trigger] start.passed(
            steps,
            ApplyPhase::VerifyManifest(i),
        ) by {
            passing_stays(start, front, step, ApplyPhase::VerifyManifest(i));
            if i < manifests_verified(commands, before.phase) {
                assert(start.passed(front, ApplyPhase::VerifyManifest(i)));
            }
        }
    }
}

/// Before anything is written or run, every file that is changed and the manifest of every
/// command have been read with the analyzed content.
pub proof fn all_inputs_are_verified_before_the_first_change(
    preview: FixPreviewModel,
    steps: Seq<ApplyStep>,
)
    requires
        preview.file_changes.len() <= usize::MAX,
        preview.plan.package_commands.len() <= usize::MAX,
        begun(preview).allows_all(steps),
    ensures
        ({
            let phase = begun(preview).after_steps(steps).phase;
            phase is WriteFile || phase is Execute ==> {
                &&& forall|i: usize|
                    i < preview.file_changes.len() ==> #[trigger] begun(preview).passed(
                        steps,
                        ApplyPhase::VerifyFile(i),
                    )
                &&& forall|i: usize|
                    i < preview.plan.package_commands.len() ==> #[trigger] begun(preview).passed(
                        steps,
                        ApplyPhase::VerifyManifest(i),
                    )
            }
        }),
{
    verified_so_far(preview, steps);
}

/// No step but a check leads to writing or running, and none of the others leads back to
/// verifying.
pub proof fn only_checks_lead_to_changes(
    session: ApplySessionModel,
    execution: CommandExecutionModel,
)
    ensures
        session.phase is WriteFile ==> !(session.after_write().phase is WriteFile)
            && !(session.after_write().phase is Execute) && !(
        session.after_write().phase is VerifyFile) && !(
        session.after_write().phase is VerifyManifest),
        session.phase is Execute ==> !(session.after_execution(execution).phase is WriteFile) && !(
        session.after_execution(execution).phase is Execute) && !(session.after_execution(
            execution,
        ).phase is VerifyFile) && !(session.after_execution(execution).phase is VerifyManifest),
{
}

/// A failed command is the last one.
pub proof fn a_failed_command_is_the_last(
    session: ApplySessionModel,
    execution: CommandExecutionModel,
)
    requires
        session.phase is Execute,
        !execution.success,
    ensures
        session.after_execution(execution).phase == ApplyPhase::Revalidate,
        session.after_execution(execution).executions.last() == execution,
{
}

} // verus!
