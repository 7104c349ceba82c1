//! The engine that previews plans for one project and begins to apply them.

use crate::fixes::apply::{
    begun, check_content, content_error, preview_file_change, preview_fingerprint, previewed,
    ApplyAuthorization, ApplySession, FixError, FixErrorModel,
    FixPreview, FixPreviewModel, PreviewedFileChange, PreviewedFileChangeModel,
};
use crate::fixes::package_manager::{PackageManagerCommand, PackageManagerCommandModel};
use crate::fixes::plan::{
    first_change_error, ordered_edits, plan_error, FileChangeModel, FixPlan,
    FixPlanModel,
};
use crate::values::{push_item, Value};
use vstd::prelude::*;

verus! {

/// What came of reading a file that is to be neither followed nor guessed at.
#[derive(Debug, PartialEq, Eq)]
pub enum FileRead {
    Content(Vec<u8>),
    Failed(FixError),
}

/// What a [`FileRead`] holds.
pub enum FileReadModel {
    Content(Seq<u8>),
    Failed(FixErrorModel),
}

impl DeepView for FileRead {
    type V = FileReadModel;

    open spec fn deep_view(&self) -> FileReadModel {
        match self {
            FileRead::Content(content) => FileReadModel::Content(content@),
            FileRead::Failed(error) => FileReadModel::Failed(error.deep_view()),
        }
    }
}

/// Why the manifest of a command cannot be relied on, if so.
pub open spec fn manifest_error(
    command: PackageManagerCommandModel,
    read: FileReadModel,
) -> Option<FixErrorModel> {
    match read {
        FileReadModel::Failed(error) => Some(error),
        FileReadModel::Content(content) => content_error(
            command.manifest_path,
            command.analyzed_manifest_content,
            content,
        ),
    }
}

fn verify_package_command(command: &PackageManagerCommand, read: &FileRead) -> (r: Option<FixError>)
    ensures
        match r {
            Some(error) => manifest_error(command.deep_view(), read.deep_view()) == Some(
                error.deep_view(),
            ),
            None => manifest_error(command.deep_view(), read.deep_view()) is None,
        },
{
    match read {
        FileRead::Failed(error) => Some(error.replicate()),
        FileRead::Content(content) => match check_content(
            &command.manifest_path,
            command.analyzed_manifest_content,
            content.as_slice(),
        ) {
            Ok(_) => None,
            Err(error) => Some(error),
        },
    }
}

/// Why the manifests of commands cannot be relied on: the first reason, if there is one.
pub open spec fn first_manifest_error(
    commands: Seq<PackageManagerCommandModel>,
    reads: Seq<FileReadModel>,
) -> Option<FixErrorModel>
    decreases commands.len(),
{
    if commands.len() == 0 {
        None
    } else {
        match first_manifest_error(commands.drop_last(), reads) {
            Some(error) => Some(error),
            None => manifest_error(commands.last(), reads[commands.len() - 1]),
        }
    }
}

proof fn manifest_error_stays(
    commands: Seq<PackageManagerCommandModel>,
    reads: Seq<FileReadModel>,
    n: nat,
)
    requires
        n <= commands.len(),
        first_manifest_error(commands.take(n as int), reads) is Some,
    ensures
        first_manifest_error(commands, reads) == first_manifest_error(
            commands.take(n as int),
            reads,
        ),
    decreases commands.len() - n,
{
    if n < commands.len() {
        assert(commands.take(n as int + 1).drop_last() =~= commands.take(n as int));
        manifest_error_stays(commands, reads, n + 1);
    } else {
        assert(commands.take(n as int) =~= commands);
    }
}

fn verify_package_commands(commands: &Vec<PackageManagerCommand>, reads: &Vec<FileRead>) -> (r:
    Option<FixError>)
    requires
        reads@.len() == commands@.len(),
    ensures
        match r {
            Some(error) => first_manifest_error(commands.deep_view(), reads.deep_view()) == Some(
                error.deep_view(),
            ),
            None => first_manifest_error(commands.deep_view(), reads.deep_view()) is None,
        },
{
    let ghost model = commands.deep_view();
    let ghost given = reads.deep_view();
    let mut i: usize = 0;
    while i < commands.len()
        invariant
            i <= commands.len(),
            reads@.len() == commands@.len(),
            model == commands.deep_view(),
            given == reads.deep_view(),
            first_manifest_error(model.take(i as int), given) is None,
        decreases commands.len() - i,
    {
        let ghost longer = model.take(i + 1);
        assert(longer.drop_last() =~= model.take(i as int));
        assert(longer.last() == commands@[i as int].deep_view());
        assert(given[i as int] == reads@[i as int].deep_view());
        if let Some(error) = verify_package_command(&commands[i], &reads[i]) {
            proof {
                manifest_error_stays(model, given, (i + 1) as nat);
            }
            return Some(error);
        }
        i = i + 1;
    }
    assert(model.take(i as int) =~= model);
    None
}

/// The previews of changes to files that were read, or why there are none: what is wrong with
/// the first file that something is wrong with.
pub open spec fn previewed_changes(
    changes: Seq<FileChangeModel>,
    reads: Seq<FileReadModel>,
) -> Result<Seq<PreviewedFileChangeModel>, FixErrorModel>
    decreases changes.len(),
{
    if changes.len() == 0 {
        Ok(Seq::empty())
    } else {
        match previewed_changes(changes.drop_last(), reads) {
            Err(error) => Err(error),
            Ok(front) => match reads[changes.len() - 1] {
                FileReadModel::Failed(error) => Err(error),
                FileReadModel::Content(content) => match previewed(changes.last(), content) {
                    Err(error) => Err(error),
                    Ok(change) => Ok(front.push(change)),
                },
            },
        }
    }
}

proof fn preview_error_stays(changes: Seq<FileChangeModel>, reads: Seq<FileReadModel>, n: nat)
    requires
        n <= changes.len(),
        previewed_changes(changes.take(n as int), reads) is Err,
    ensures
        previewed_changes(changes, reads) == previewed_changes(changes.take(n as int), reads),
    decreases changes.len() - n,
{
    if n < changes.len() {
        assert(changes.take(n as int + 1).drop_last() =~= changes.take(n as int));
        preview_error_stays(changes, reads, n + 1);
    } else {
        assert(changes.take(n as int) =~= changes);
    }
}

/// The edits of every change of an accepted plan are in order.
proof fn accepted_edits_are_ordered(plan: FixPlanModel, changes: Seq<FileChangeModel>, i: int)
    requires
        first_change_error(plan, changes) is None,
        0 <= i < changes.len(),
    ensures
        changes[i].edits matches Some(edits) ==> ordered_edits(edits),
    decreases changes.len(),
{
    if i < changes.len() - 1 {
        accepted_edits_are_ordered(plan, changes.drop_last(), i);
    }
}

fn preview_changes(plan: &FixPlan, reads: &Vec<FileRead>) -> (r: Result<
    Vec<PreviewedFileChange>,
    FixError,
>)
    requires
        plan_error(plan.deep_view()) is None,
        reads@.len() == plan.file_changes@.len(),
    ensures
        match r {
            Ok(changes) => previewed_changes(
                plan.deep_view().file_changes,
                reads.deep_view(),
            ) == Ok::<_, FixErrorModel>(changes.deep_view()),
            Err(error) => previewed_changes(
                plan.deep_view().file_changes,
                reads.deep_view(),
            ) == Err::<Seq<PreviewedFileChangeModel>, _>(error.deep_view()),
        },
{
    let ghost model = plan.deep_view().file_changes;
    let ghost given = reads.deep_view();
    let mut out: Vec<PreviewedFileChange> = Vec::new();
    let mut i: usize = 0;
    assert(out.deep_view() =~= Seq::empty());
    while i < plan.file_changes.len()
        invariant
            i <= plan.file_changes.len(),
            reads@.len() == plan.file_changes@.len(),
            plan_error(plan.deep_view()) is None,
            model == plan.deep_view().file_changes,
            given == reads.deep_view(),
            previewed_changes(model.take(i as int), given) == Ok::<_, FixErrorModel>(
                out.deep_view(),
            ),
        decreases plan.file_changes.len() - i,
    {
        let ghost longer = model.take(i + 1);
        assert(longer.drop_last() =~= model.take(i as int));
        assert(longer.last() == plan.file_changes@[i as int].deep_view());
        assert(given[i as int] == reads@[i as int].deep_view());
        proof {
            accepted_edits_are_ordered(plan.deep_view(), model, i as int);
        }
        match &reads[i] {
            FileRead::Failed(error) => {
                proof {
                    preview_error_stays(model, given, (i + 1) as nat);
                }
                return Err(error.replicate());
            },
            FileRead::Content(content) => {
                let copy: Vec<u8> = content.replicate();
                assert(copy.deep_view() =~= copy@);
                assert(content.deep_view() =~= content@);
                match preview_file_change(&plan.file_changes[i], copy) {
                    Err(error) => {
                        proof {
                            preview_error_stays(model, given, (i + 1) as nat);
                        }
                        return Err(error);
                    },
                    Ok(change) => {
                        push_item(&mut out, change);
                    },
                }
            },
        }
        i = i + 1;
    }
    assert(model.take(i as int) =~= model);
    Ok(out)
}

/// The preview of a plan whose manifests and files were read, or why there is none.
pub open spec fn preview_of(
    plan: FixPlanModel,
    plan_bytes: Result<Seq<u8>, Seq<char>>,
    manifests: Seq<FileReadModel>,
    contents: Seq<FileReadModel>,
) -> Result<FixPreviewModel, FixErrorModel> {
    if plan_error(plan) is Some {
        Err(FixErrorModel::InvalidPlan(plan_error(plan)->0))
    } else if first_manifest_error(plan.package_commands, manifests) is Some {
        Err(first_manifest_error(plan.package_commands, manifests)->0)
    } else {
        match previewed_changes(plan.file_changes, contents) {
            Err(error) => Err(error),
            Ok(changes) => match plan_bytes {
                Err(reason) => Err(FixErrorModel::Serialize(reason)),
                Ok(bytes) => Ok(
                    FixPreviewModel {
                        plan,
                        fingerprint: preview_fingerprint(bytes, changes),
                        file_changes: changes,
                    },
                ),
            },
        }
    }
}

/// Previews and applies the fixes of one project.
#[derive(Debug, PartialEq, Eq)]
pub struct FixEngine {
    project_root: String,
}

impl FixEngine {
    /// The directory that the fixes are below.
    pub closed spec fn root_of(self) -> Seq<char> {
        self.project_root@
    }

    /// Creates a fix engine rooted at an existing project directory: `resolved` is what came of
    /// resolving the supplied path, and `is_directory` tells whether a directory is there.
    ///
    /// # Errors
    ///
    /// Returns an error when the root cannot be resolved or is not a directory.
    pub fn new(supplied: &str, resolved: Result<String, String>, is_directory: bool) -> (r: Result<
        FixEngine,
        FixError,
    >)
        ensures
            match resolved {
                Err(reason) => r matches Err(error) && error.deep_view() == (FixErrorModel::Io {
                    path: supplied@,
                    reason: reason@,
                }),
                Ok(root) => match r {
                    Ok(engine) => is_directory && engine.root_of() == root@,
                    Err(error) => !is_directory && error.deep_view()
                        == FixErrorModel::InvalidRoot(root@),
                },
            },
    {
        match resolved {
            Err(reason) => Err(FixError::Io { path: supplied.to_owned(), reason }),
            Ok(project_root) => if is_directory {
                Ok(FixEngine { project_root })
            } else {
                Err(FixError::InvalidRoot(project_root))
            },
        }
    }

    /// The directory that the fixes are below.
    #[must_use]
    pub fn project_root(&self) -> (r: &str)
        ensures
            r@ == self.root_of(),
    {
        self.project_root.as_str()
    }

    /// Previews a plan without changing project files: `plan_bytes` is the written plan,
    /// `manifests` what came of reading the manifest of each command, `contents` what came of
    /// reading each file that is to be changed.
    ///
    /// # Errors
    ///
    /// Returns an error for an invalid plan, unsafe path, changed file, or I/O failure.
    pub fn preview(
        &self,
        plan: FixPlan,
        plan_bytes: Result<Vec<u8>, String>,
        manifests: &Vec<FileRead>,
        contents: &Vec<FileRead>,
    ) -> (r: Result<FixPreview, FixError>)
        requires
            manifests@.len() == plan.package_commands@.len(),
            contents@.len() == plan.file_changes@.len(),
        ensures
            ({
                let written = match plan_bytes {
                    Ok(bytes) => Ok(bytes@),
                    Err(reason) => Err(reason@),
                };
                let expected = preview_of(
                    plan.deep_view(),
                    written,
                    manifests.deep_view(),
                    contents.deep_view(),
                );
                match r {
                    Ok(preview) => expected == Ok::<_, FixErrorModel>(preview.deep_view()),
                    Err(error) => expected == Err::<FixPreviewModel, _>(error.deep_view()),
                }
            }),
    {
        match plan.validate() {
            Ok(_) => {},
            Err(error) => {
                return Err(FixError::InvalidPlan(error));
            },
        }
        if let Some(error) = verify_package_commands(&plan.package_commands, manifests) {
            return Err(error);
        }
        match preview_changes(&plan, contents) {
            Err(error) => Err(error),
            Ok(changes) => match plan_bytes {
                Err(reason) => Err(FixError::Serialize(reason)),
                Ok(bytes) => Ok(FixPreview::new(plan, bytes, changes)),
            },
        }
    }

    /// Begins to apply a previously previewed plan.
    ///
    /// # Errors
    ///
    /// Returns an error when the authorization is for another preview.
    pub fn apply(&self, preview: FixPreview, authorization: ApplyAuthorization) -> (r: Result<
        ApplySession,
        FixError,
    >)
        ensures
            match r {
                Ok(session) => authorization.authorizes() == preview.deep_view().fingerprint
                    && session.deep_view().wf() && session.deep_view() == begun(
                    preview.deep_view(),
                ),
                Err(error) => authorization.authorizes() != preview.deep_view().fingerprint
                    && error.deep_view() == FixErrorModel::AuthorizationMismatch,
            },
    {
        ApplySession::begin(preview, authorization)
    }
}

/// A preview shows every planned change: one preview for each change, of the same file, from
/// the content that was analyzed.
pub proof fn previews_show_every_change(
    plan: FixPlanModel,
    plan_bytes: Result<Seq<u8>, Seq<char>>,
    manifests: Seq<FileReadModel>,
    contents: Seq<FileReadModel>,
    i: int,
)
    requires
        preview_of(plan, plan_bytes, manifests, contents) is Ok,
        0 <= i < plan.file_changes.len(),
    ensures
        ({
            let changes = preview_of(plan, plan_bytes, manifests, contents)->Ok_0.file_changes;
            &&& changes.len() == plan.file_changes.len()
            &&& changes[i].path == plan.file_changes[i].path
            &&& changes[i].before_digest == plan.file_changes[i].expected_content
            &&& contents[i] == FileReadModel::Content(changes[i].original_content)
        }),
{
    change_is_shown(plan.file_changes, contents, i);
}

proof fn change_is_shown(changes: Seq<FileChangeModel>, reads: Seq<FileReadModel>, i: int)
    requires
        previewed_changes(changes, reads) is Ok,
        0 <= i < changes.len(),
    ensures
        previewed_changes(changes, reads)->Ok_0.len() == changes.len(),
        previewed_changes(changes, reads)->Ok_0[i].path == changes[i].path,
        previewed_changes(changes, reads)->Ok_0[i].before_digest == changes[i].expected_content,
        reads[i] == FileReadModel::Content(
            previewed_changes(changes, reads)->Ok_0[i].original_content,
        ),
    decreases changes.len(),
{
    if i < changes.len() - 1 {
        change_is_shown(changes.drop_last(), reads, i);
    } else if changes.len() > 1 {
        change_is_shown(changes.drop_last(), reads, 0);
    }
}

} // verus!
