//! Fixes, from what was selected to what came of them.

use crate::cache::digest::{digest_of_hex, hex, Digest};
use crate::cache::key::ContentDigest;
use crate::collections::{
    ascending, collected, keys_of, lookup, lookup_after_with_entry, lookup_other_after_with_entry, with_entry,
    with_entry_keys, with_item, with_item_ascending, OrderedMap, OrderedSet,
};
use crate::discovery::workspace::{
    display_workspace, removes_packages, workspace_name, WorkspacePackageManager,
};
use crate::domain::facts::{AnalysisDiagnostic, AnalysisDiagnosticModel, SourceSpan};
use crate::domain::report::{
    AnalysisStatus, Confidence, FileReport, FileReportModel, Finding, FindingModel, FixEligibility,
    ImportReport, ImportReportModel, ResolutionStatus, ScanReport, ScanReportModel,
};
use crate::fixes::apply::{
    ApplyReport, ApplyReportModel, CommandExecution, CommandExecutionModel, FixPreview,
    FixPreviewModel, PreviewChangeKind, PreviewedFileChange, PreviewedFileChangeModel,
    RevalidationOutcome, RevalidationOutcomeModel,
};
use crate::fixes::eligibility::{
    AnalysisConfidence, EligibilityDecision, FixCandidate, PublicApiExposure, WorldAssumption,
};
use crate::fixes::package_manager::{
    command_line, grouping_error, removal_command, removal_error, safe_package_name, unsafe_name,
    DependencyKind, DependencyRemoval, DependencyRemovalModel, DirectDependency,
    DirectDependencyModel, PackageManager, PackageManagerCommand, PackageManagerCommandModel,
};
use crate::fixes::plan::{
    change_error, safe_path, showable, ExplicitFileFixScope, FileChange, FileChangeModel, FixPlan,
    FixPlanError, FixPlanErrorModel, FixPlanModel, ProjectPath,
};
use crate::paths::FilePath;
use crate::render::{safe, safe_text};
use crate::text::{
    byte_length, concat2, concat3, concat5, contains_control, decimal, digits, has_control, join,
    joined, no_texts, one_text, same, space, trim, trimmed, trimmed_end, trimmed_start,
};
use crate::values::{append_items, push_item, Value};
use vstd::prelude::*;

verus! {

/// Why fixes are not planned.
#[derive(Debug, PartialEq, Eq)]
pub enum FixWorkflowError {
    InvalidArguments(String),
    Plan(FixPlanError),
}

/// What a [`FixWorkflowError`] holds.
pub enum FixWorkflowErrorModel {
    InvalidArguments(Seq<char>),
    Plan(FixPlanErrorModel),
}

impl DeepView for FixWorkflowError {
    type V = FixWorkflowErrorModel;

    open spec fn deep_view(&self) -> FixWorkflowErrorModel {
        match self {
            FixWorkflowError::InvalidArguments(x) => FixWorkflowErrorModel::InvalidArguments(x.deep_view()),
            FixWorkflowError::Plan(x) => FixWorkflowErrorModel::Plan(x.deep_view()),
        }
    }
}

/// Whether the removal of a dependency can be planned: one that is only to be previewed is not
/// applied.
pub open spec fn can_be_planned(eligibility: FixEligibility, apply: bool) -> bool {
    match eligibility {
        FixEligibility::Eligible => true,
        FixEligibility::PreviewOnly => !apply,
        FixEligibility::NotAvailable => false,
        FixEligibility::Blocked => false,
    }
}

/// Whether the removal of a dependency can be planned: one that is only to be previewed is not
/// applied.
#[must_use]
pub fn dependency_fix_can_be_planned(eligibility: FixEligibility, apply: bool) -> (r: bool)
    ensures
        r == can_be_planned(eligibility, apply),
{
    match eligibility {
        FixEligibility::Eligible => true,
        FixEligibility::PreviewOnly => !apply,
        FixEligibility::NotAvailable => false,
        FixEligibility::Blocked => false,
    }
}

/// The package manager that removes packages, where it is one that is known.
pub open spec fn removing_manager(
    detected: Option<WorkspacePackageManager>,
) -> Option<PackageManager> {
    match detected {
        Some(WorkspacePackageManager::Npm) => Some(PackageManager::Npm),
        Some(WorkspacePackageManager::Pnpm) => Some(PackageManager::Pnpm),
        Some(WorkspacePackageManager::Yarn) => Some(PackageManager::Yarn),
        Some(WorkspacePackageManager::Bun) => Some(PackageManager::Bun),
        Some(WorkspacePackageManager::Other) => None,
        None => None,
    }
}

/// The package manager that removes packages, where it is one that is known.
#[must_use]
pub fn fix_package_manager(manager: Option<WorkspacePackageManager>) -> (r: Option<PackageManager>)
    ensures
        r == removing_manager(manager),
        r is Some <==> removes_packages(manager),
{
    match manager {
        Some(WorkspacePackageManager::Npm) => Some(PackageManager::Npm),
        Some(WorkspacePackageManager::Pnpm) => Some(PackageManager::Pnpm),
        Some(WorkspacePackageManager::Yarn) => Some(PackageManager::Yarn),
        Some(WorkspacePackageManager::Bun) => Some(PackageManager::Bun),
        Some(WorkspacePackageManager::Other) => None,
        None => None,
    }
}

/// The manifest of a package as it was when it was analyzed.
#[derive(Debug, PartialEq, Eq)]
pub struct AnalyzedManifest {
    pub working_directory: ProjectPath,
    pub content: ContentDigest,
}

/// What a [`AnalyzedManifest`] holds.
pub struct AnalyzedManifestModel {
    pub working_directory: Seq<char>,
    pub content: ContentDigest,
}

impl DeepView for AnalyzedManifest {
    type V = AnalyzedManifestModel;

    open spec fn deep_view(&self) -> AnalyzedManifestModel {
        AnalyzedManifestModel {
            working_directory: self.working_directory.deep_view(),
            content: self.content.deep_view(),
        }
    }
}

impl Value for AnalyzedManifest {
    fn replicate(&self) -> (r: Self) {
        AnalyzedManifest {
            working_directory: self.working_directory.replicate(),
            content: self.content.replicate(),
        }
    }

    fn same_value(&self, other: &Self) -> (r: bool) {
        self.working_directory.same_value(&other.working_directory)
            && self.content.same_value(&other.content)
    }
}

/// The name and the directory of the package at `root`, where its manifest can be changed.
///
/// # Errors
///
/// Returns an error when the directory is not one below the project root.
pub fn manifest_directory(root: &FilePath) -> (r: Result<(String, ProjectPath), FixPlanError>)
    ensures
        ({
            let name = workspace_name(root.deep_view());
            match r {
                Ok(found) => (name == "."@ || safe_path(name)) && found.0@ == name
                    && found.1.deep_view() == name,
                Err(error) => name != "."@ && !safe_path(name) && error.deep_view()
                    == FixPlanErrorModel::UnsafePath(name),
            }
        }),
{
    let name: String = display_workspace(root);
    if same(&name, ".") {
        Ok((name, ProjectPath::root()))
    } else {
        match ProjectPath::new(&name) {
            Ok(path) => Ok((name, path)),
            Err(error) => Err(error),
        }
    }
}

/// Notes the manifest of a package with what it held when it was analyzed.
pub fn capture_analyzed_manifest(
    manifests: &mut OrderedMap<String, AnalyzedManifest>,
    workspace: String,
    working_directory: ProjectPath,
    content: &[u8],
)
    ensures
        final(manifests).deep_view() == with_entry::<String, AnalyzedManifestModel>(
            old(manifests).deep_view(),
            workspace@,
            AnalyzedManifestModel {
                working_directory: working_directory.deep_view(),
                content: ContentDigest(crate::cache::digest::sha256(content@)),
            },
        ),
{
    manifests.insert(
        workspace,
        AnalyzedManifest { working_directory, content: ContentDigest::of_bytes(content) },
    );
}

/// The files and the dependencies that were selected for fixes.
#[derive(Debug, PartialEq, Eq)]
pub struct FixRequest {
    pub files: OrderedSet<String>,
    pub dependencies: OrderedSet<String>,
}

/// What a [`FixRequest`] holds.
pub struct FixRequestModel {
    pub files: Seq<Seq<char>>,
    pub dependencies: Seq<Seq<char>>,
}

impl DeepView for FixRequest {
    type V = FixRequestModel;

    open spec fn deep_view(&self) -> FixRequestModel {
        FixRequestModel {
            files: self.files.deep_view(),
            dependencies: self.dependencies.deep_view(),
        }
    }
}

/// The files that were selected, up to the first that is not below the project root.
pub open spec fn files_requested(
    items: Seq<Seq<char>>,
    start: Seq<Seq<char>>,
) -> Result<Seq<Seq<char>>, FixWorkflowErrorModel>
    decreases items.len(),
{
    if items.len() == 0 {
        Ok(start)
    } else {
        let last = items.last();
        match files_requested(items.drop_last(), start) {
            Ok(state) => if safe_path(last) {
                Ok(with_item::<String>(state, last))
            } else {
                Err(FixWorkflowErrorModel::Plan(FixPlanErrorModel::UnsafePath(last)))
            },
            Err(error) => Err(error),
        }
    }
}

proof fn files_requested_stops(items: Seq<Seq<char>>, n: nat, start: Seq<Seq<char>>)
    requires
        n <= items.len(),
        files_requested(items.take(n as int), start) is Err,
    ensures
        files_requested(items, start) == files_requested(items.take(n as int), start),
    decreases items.len() - n,
{
    if n < items.len() {
        assert(items.take(n as int + 1).drop_last() =~= items.take(n as int));
        files_requested_stops(items, n + 1, start);
    } else {
        assert(items.take(n as int) =~= items);
    }
}

fn add_requested_files(
    items: &Vec<String>,
    state: &mut OrderedSet<String>,
) -> (r: Result<(), FixWorkflowError>)
    ensures
        match r {
            Ok(_) => files_requested(items.deep_view(), old(state).deep_view()) == Ok::<Seq<Seq<char>>, FixWorkflowErrorModel>(
                final(state).deep_view(),
            ),
            Err(error) => files_requested(items.deep_view(), old(state).deep_view()) == Err::<
                Seq<Seq<char>>,
                FixWorkflowErrorModel,
            >(error.deep_view()),
        },
{
    let ghost start = state.deep_view();
    let ghost model = items.deep_view();
    let mut i: usize = 0;
    while i < items.len()
        invariant
            i <= items.len(),
            model == items.deep_view(),
            start == old(state).deep_view(),
            files_requested(model.take(i as int), start) == Ok::<Seq<Seq<char>>, FixWorkflowErrorModel>(
                state.deep_view(),
            ),
        decreases items.len() - i,
    {
        proof {
            assert(model.take(i + 1).drop_last() =~= model.take(i as int));
            assert(model.take(i + 1).last() == items@[i as int].deep_view());
        }
        let item: &String = &items[i];
        match add_requested_file(state, item) {
            Ok(_) => {},
            Err(error) => {
                proof {
                    files_requested_stops(model, (i + 1) as nat, start);
                }
                return Err(error);
            },
        }
        i = i + 1;
    }
    assert(model.take(i as int) =~= model);
    Ok(())
}

fn add_requested_file(
    state: &mut OrderedSet<String>,
    path: &str,
) -> (r: Result<(), FixWorkflowError>)
    ensures
        match r {
            Ok(_) => safe_path(path@) && final(state).deep_view() == with_item::<String>(
                old(state).deep_view(),
                path@,
            ),
            Err(error) => !safe_path(path@) && error.deep_view() == FixWorkflowErrorModel::Plan(
                FixPlanErrorModel::UnsafePath(path@),
            ),
        },
{
    match ProjectPath::new(path) {
        Ok(_) => {
            let _ = state.insert(path.to_string());
            Ok(())
        },
        Err(error) => Err(FixWorkflowError::Plan(error)),
    }
}

/// What is said of a selected dependency that names nothing.
pub open spec fn empty_selector() -> FixWorkflowErrorModel {
    FixWorkflowErrorModel::InvalidArguments(
        "--fix-dependency values must be non-empty package selectors"@,
    )
}

/// Whether a text can select a dependency.
pub open spec fn selects(dependency: Seq<char>) -> bool {
    trimmed(dependency).len() > 0 && !has_control(trimmed(dependency))
}

fn add_requested_dependency(state: &mut OrderedSet<String>, dependency: &str) -> (r: Result<
    (),
    FixWorkflowError,
>)
    ensures
        match r {
            Ok(_) => selects(dependency@) && final(state).deep_view() == with_item::<String>(
                old(state).deep_view(),
                trimmed(dependency@),
            ),
            Err(error) => !selects(dependency@) && error.deep_view() == empty_selector(),
        },
{
    let selector: String = trim(dependency);
    if selector.as_str().unicode_len() == 0 || contains_control(&selector) {
        Err(
            FixWorkflowError::InvalidArguments(
                "--fix-dependency values must be non-empty package selectors".to_string(),
            ),
        )
    } else {
        let _ = state.insert(selector);
        Ok(())
    }
}

/// The dependencies that were selected, up to the first that names nothing.
pub open spec fn dependencies_requested(
    items: Seq<Seq<char>>,
    start: Seq<Seq<char>>,
) -> Result<Seq<Seq<char>>, FixWorkflowErrorModel>
    decreases items.len(),
{
    if items.len() == 0 {
        Ok(start)
    } else {
        let last = items.last();
        match dependencies_requested(items.drop_last(), start) {
            Ok(state) => if selects(last) {
                Ok(with_item::<String>(state, trimmed(last)))
            } else {
                Err(empty_selector())
            },
            Err(error) => Err(error),
        }
    }
}

proof fn dependencies_requested_stops(items: Seq<Seq<char>>, n: nat, start: Seq<Seq<char>>)
    requires
        n <= items.len(),
        dependencies_requested(items.take(n as int), start) is Err,
    ensures
        dependencies_requested(items, start) == dependencies_requested(items.take(n as int), start),
    decreases items.len() - n,
{
    if n < items.len() {
        assert(items.take(n as int + 1).drop_last() =~= items.take(n as int));
        dependencies_requested_stops(items, n + 1, start);
    } else {
        assert(items.take(n as int) =~= items);
    }
}

fn add_requested_dependencies(
    items: &Vec<String>,
    state: &mut OrderedSet<String>,
) -> (r: Result<(), FixWorkflowError>)
    ensures
        match r {
            Ok(_) => dependencies_requested(items.deep_view(), old(state).deep_view()) == Ok::<Seq<Seq<char>>, FixWorkflowErrorModel>(
                final(state).deep_view(),
            ),
            Err(error) => dependencies_requested(items.deep_view(), old(state).deep_view()) == Err::<
                Seq<Seq<char>>,
                FixWorkflowErrorModel,
            >(error.deep_view()),
        },
{
    let ghost start = state.deep_view();
    let ghost model = items.deep_view();
    let mut i: usize = 0;
    while i < items.len()
        invariant
            i <= items.len(),
            model == items.deep_view(),
            start == old(state).deep_view(),
            dependencies_requested(model.take(i as int), start) == Ok::<Seq<Seq<char>>, FixWorkflowErrorModel>(
                state.deep_view(),
            ),
        decreases items.len() - i,
    {
        proof {
            assert(model.take(i + 1).drop_last() =~= model.take(i as int));
            assert(model.take(i + 1).last() == items@[i as int].deep_view());
        }
        let item: &String = &items[i];
        match add_requested_dependency(state, item) {
            Ok(_) => {},
            Err(error) => {
                proof {
                    dependencies_requested_stops(model, (i + 1) as nat, start);
                }
                return Err(error);
            },
        }
        i = i + 1;
    }
    assert(model.take(i as int) =~= model);
    Ok(())
}

/// What is said where an analysis is not complete enough to change anything.
pub open spec fn incomplete_refusal() -> FixWorkflowErrorModel {
    FixWorkflowErrorModel::InvalidArguments(
        "refusing to apply fixes while analysis is incomplete; resolve blocking diagnostics first"@,
    )
}

/// What was selected for fixes, or why nothing can be.
pub open spec fn requested_fixes(
    files: Seq<Seq<char>>,
    dependencies: Seq<Seq<char>>,
    apply: bool,
    status: AnalysisStatus,
) -> Result<FixRequestModel, FixWorkflowErrorModel> {
    match files_requested(files, Seq::empty()) {
        Err(error) => Err(error),
        Ok(selected_files) => match dependencies_requested(dependencies, Seq::empty()) {
            Err(error) => Err(error),
            Ok(selected_dependencies) => if apply && status != AnalysisStatus::Complete {
                Err(incomplete_refusal())
            } else {
                Ok(
                    FixRequestModel {
                        files: selected_files,
                        dependencies: selected_dependencies,
                    },
                )
            },
        },
    }
}

/// Reads what was selected for fixes.
///
/// # Errors
///
/// Returns an error when a file is not one below the project root, a dependency names nothing,
/// or fixes are to be applied while the analysis is incomplete.
pub fn read_fix_request(
    files: &Vec<String>,
    dependencies: &Vec<String>,
    apply: bool,
    status: AnalysisStatus,
) -> (r: Result<FixRequest, FixWorkflowError>)
    ensures
        match r {
            Ok(request) => requested_fixes(
                files.deep_view(),
                dependencies.deep_view(),
                apply,
                status,
            ) == Ok::<FixRequestModel, FixWorkflowErrorModel>(request.deep_view()),
            Err(error) => requested_fixes(
                files.deep_view(),
                dependencies.deep_view(),
                apply,
                status,
            ) == Err::<FixRequestModel, FixWorkflowErrorModel>(error.deep_view()),
        },
{
    let mut selected_files: OrderedSet<String> = OrderedSet::new();
    match add_requested_files(files, &mut selected_files) {
        Err(error) => {
            return Err(error);
        },
        Ok(_) => {},
    }
    let mut selected_dependencies: OrderedSet<String> = OrderedSet::new();
    match add_requested_dependencies(dependencies, &mut selected_dependencies) {
        Err(error) => {
            return Err(error);
        },
        Ok(_) => {},
    }
    if apply && status != AnalysisStatus::Complete {
        return Err(
            FixWorkflowError::InvalidArguments(
                "refusing to apply fixes while analysis is incomplete; resolve blocking diagnostics first".to_string(),
            ),
        );
    }
    Ok(FixRequest { files: selected_files, dependencies: selected_dependencies })
}

/// Nothing is applied while the analysis is incomplete.
pub proof fn incomplete_analyses_change_nothing(
    files: Seq<Seq<char>>,
    dependencies: Seq<Seq<char>>,
)
    ensures
        requested_fixes(files, dependencies, true, AnalysisStatus::Incomplete) is Err,
{
}

/// The fixes that are planned so far.
#[derive(Debug, PartialEq, Eq)]
pub struct FixSelection {
    pub plan: FixPlan,
    /// The dependencies that are removed, each behind its package.
    pub dependencies: OrderedSet<String>,
    /// What selected the dependencies that are removed.
    pub selectors: OrderedSet<String>,
    /// What is removed from each package.
    pub removals: OrderedMap<String, Vec<DependencyRemoval>>,
    /// The files that are deleted.
    pub files: OrderedSet<String>,
}

/// What a [`FixSelection`] holds.
pub struct FixSelectionModel {
    pub plan: FixPlanModel,
    pub dependencies: Seq<Seq<char>>,
    pub selectors: Seq<Seq<char>>,
    pub removals: Seq<(Seq<char>, Seq<DependencyRemovalModel>)>,
    pub files: Seq<Seq<char>>,
}

impl DeepView for FixSelection {
    type V = FixSelectionModel;

    open spec fn deep_view(&self) -> FixSelectionModel {
        FixSelectionModel {
            plan: self.plan.deep_view(),
            dependencies: self.dependencies.deep_view(),
            selectors: self.selectors.deep_view(),
            removals: self.removals.deep_view(),
            files: self.files.deep_view(),
        }
    }
}

/// Whether a finding is on an unused dependency of a name whose removal can be planned.
pub open spec fn removable(finding: FindingModel, dependency: Seq<char>, apply: bool) -> bool {
    finding.issue_type == "unusedDependency"@ && finding.dependency == Some(dependency)
        && can_be_planned(finding.fix_eligibility, apply)
}

fn is_removable(finding: &Finding, dependency: &str, apply: bool) -> (r: bool)
    ensures
        r == removable(finding.deep_view(), dependency@, apply),
{
    let named: bool = match &finding.dependency {
        Some(name) => same(name, dependency),
        None => false,
    };
    same(finding.issue_type, "unusedDependency") && named && dependency_fix_can_be_planned(
        finding.fix_eligibility,
        apply,
    )
}

/// The findings on unused dependencies of a name whose removal can be planned.
pub open spec fn removables(
    items: Seq<FindingModel>,
    start: Seq<FindingModel>,
    dependency: Seq<char>,
    apply: bool,
) -> Seq<FindingModel>
    decreases items.len(),
{
    if items.len() == 0 {
        start
    } else {
        let rest = removables(items.drop_last(), start, dependency, apply);
        let last = items.last();
        if removable(last, dependency, apply) {
            rest.push(last)
        } else {
            rest
        }
    }
}

fn choose_removables(
    items: &Vec<Finding>,
    dependency: &str,
    apply: bool,
    out: &mut Vec<Finding>,
)
    ensures
        final(out).deep_view() == removables(items.deep_view(), old(out).deep_view(), dependency@, apply),
{
    let ghost start = out.deep_view();
    let ghost model = items.deep_view();
    let mut i: usize = 0;
    while i < items.len()
        invariant
            i <= items.len(),
            model == items.deep_view(),
            out.deep_view() =~= removables(model.take(i as int), start, dependency@, apply),
        decreases items.len() - i,
    {
        proof {
            assert(model.take(i + 1).drop_last() =~= model.take(i as int));
            assert(model.take(i + 1).last() == items@[i as int].deep_view());
        }
        let item: &Finding = &items[i];
        if is_removable(item, dependency, apply) {
            push_item(out, item.replicate());
        }
        i = i + 1;
    }
    assert(model.take(i as int) =~= model);
}

/// A dependency behind its package.
pub open spec fn qualified_name(workspace: Seq<char>, dependency: Seq<char>) -> Seq<char> {
    workspace + ":"@ + dependency
}

/// What is said of a selected dependency that more than one package declares.
pub open spec fn ambiguous_selector(dependency: Seq<char>) -> FixWorkflowErrorModel {
    FixWorkflowErrorModel::InvalidArguments(
        "dependency selector `"@ + dependency + "` is ambiguous; use WORKSPACE:"@ + dependency,
    )
}

/// What is removed from a package so far.
pub open spec fn removals_from(
    removals: Seq<(Seq<char>, Seq<DependencyRemovalModel>)>,
    workspace: Seq<char>,
) -> Seq<DependencyRemovalModel> {
    match lookup(removals, workspace) {
        Some(found) => found,
        None => Seq::empty(),
    }
}

/// The planned fixes with the removal of a dependency.
pub open spec fn with_removal(
    state: FixSelectionModel,
    workspace: Seq<char>,
    dependency: Seq<char>,
    summary: Seq<char>,
    selector: Seq<char>,
) -> Result<FixSelectionModel, FixWorkflowErrorModel> {
    let removal = DependencyRemovalModel {
        dependency: DirectDependencyModel { name: dependency, kind: DependencyKind::Production },
        reason: summary,
    };
    if !safe_package_name(dependency) {
        Err(FixWorkflowErrorModel::InvalidArguments(unsafe_name()))
    } else if removal_error(removal) is Some {
        Err(FixWorkflowErrorModel::InvalidArguments(removal_error(removal)->0))
    } else {
        Ok(
            FixSelectionModel {
                dependencies: with_item::<String>(
                    state.dependencies,
                    qualified_name(workspace, dependency),
                ),
                selectors: with_item::<String>(state.selectors, selector),
                removals: with_entry::<String, Seq<DependencyRemovalModel>>(
                    state.removals,
                    workspace,
                    removals_from(state.removals, workspace).push(removal),
                ),
                ..state
            },
        )
    }
}

fn add_removal(
    state: &mut FixSelection,
    workspace: &str,
    dependency: &str,
    summary: &str,
    selector: String,
) -> (r: Result<(), FixWorkflowError>)
    ensures
        match r {
            Ok(_) => with_removal(
                old(state).deep_view(),
                workspace@,
                dependency@,
                summary@,
                selector@,
            ) == Ok::<FixSelectionModel, FixWorkflowErrorModel>(final(state).deep_view()),
            Err(error) => with_removal(
                old(state).deep_view(),
                workspace@,
                dependency@,
                summary@,
                selector@,
            ) == Err::<FixSelectionModel, FixWorkflowErrorModel>(error.deep_view()),
        },
{
    let direct: DirectDependency = match DirectDependency::new(
        dependency,
        DependencyKind::Production,
    ) {
        Ok(direct) => direct,
        Err(message) => {
            return Err(FixWorkflowError::InvalidArguments(message.to_string()));
        },
    };
    let removal: DependencyRemoval = match DependencyRemoval::new(direct, summary) {
        Ok(removal) => removal,
        Err(message) => {
            return Err(FixWorkflowError::InvalidArguments(message.to_string()));
        },
    };
    let key: String = workspace.to_string();
    let mut removals: Vec<DependencyRemoval> = match state.removals.get(&key) {
        Some(found) => found.replicate(),
        None => Vec::new(),
    };
    assert(removals.deep_view() =~= removals_from(state.removals.deep_view(), workspace@));
    push_item(&mut removals, removal);
    let _ = state.dependencies.insert(concat3(workspace, ":", dependency));
    let _ = state.selectors.insert(selector);
    state.removals.insert(key, removals);
    Ok(())
}

/// The planned fixes with the removal of the dependency of a finding, where it was selected.
pub open spec fn with_dependency_fix(
    state: FixSelectionModel,
    finding: FindingModel,
    dependency: Seq<char>,
    requested: Seq<Seq<char>>,
    findings: Seq<FindingModel>,
    apply: bool,
) -> Result<FixSelectionModel, FixWorkflowErrorModel> {
    let qualified = qualified_name(finding.workspace, dependency);
    if !requested.contains(dependency) && !requested.contains(qualified) {
        Ok(state)
    } else if requested.contains(dependency) && removables(
        findings,
        Seq::empty(),
        dependency,
        apply,
    ).len() > 1 {
        Err(ambiguous_selector(dependency))
    } else {
        with_removal(
            state,
            finding.workspace,
            dependency,
            finding.summary,
            if requested.contains(qualified) {
                qualified
            } else {
                dependency
            },
        )
    }
}

fn add_dependency_fix(
    state: &mut FixSelection,
    finding: &Finding,
    dependency: &String,
    requested: &OrderedSet<String>,
    findings: &Vec<Finding>,
    apply: bool,
) -> (r: Result<(), FixWorkflowError>)
    ensures
        match r {
            Ok(_) => with_dependency_fix(
                old(state).deep_view(),
                finding.deep_view(),
                dependency@,
                requested.deep_view(),
                findings.deep_view(),
                apply,
            ) == Ok::<FixSelectionModel, FixWorkflowErrorModel>(final(state).deep_view()),
            Err(error) => with_dependency_fix(
                old(state).deep_view(),
                finding.deep_view(),
                dependency@,
                requested.deep_view(),
                findings.deep_view(),
                apply,
            ) == Err::<FixSelectionModel, FixWorkflowErrorModel>(error.deep_view()),
        },
{
    let qualified: String = concat3(&finding.workspace, ":", dependency);
    let by_name: bool = requested.contains(dependency);
    let by_place: bool = requested.contains(&qualified);
    if !by_name && !by_place {
        return Ok(());
    }
    if by_name {
        let mut candidates: Vec<Finding> = Vec::new();
        assert(candidates.deep_view() =~= Seq::empty());
        choose_removables(findings, dependency, apply, &mut candidates);
        if candidates.len() > 1 {
            return Err(
                FixWorkflowError::InvalidArguments(
                    concat2(
                        &concat3("dependency selector `", dependency, "` is ambiguous; use WORKSPACE:"),
                        dependency,
                    ),
                ),
            );
        }
    }
    let selector: String = if by_place {
        qualified
    } else {
        dependency.replicate()
    };
    add_removal(state, &finding.workspace, dependency, &finding.summary, selector)
}

/// The first report on a file.
pub open spec fn report_of_file(
    files: Seq<FileReportModel>,
    path: Seq<char>,
) -> Option<FileReportModel>
    decreases files.len(),
{
    if files.len() == 0 {
        None
    } else {
        match report_of_file(files.drop_last(), path) {
            Some(found) => Some(found),
            None => if files.last().path == path {
                Some(files.last())
            } else {
                None
            },
        }
    }
}

proof fn first_report_stays(files: Seq<FileReportModel>, n: nat, path: Seq<char>)
    requires
        n <= files.len(),
        report_of_file(files.take(n as int), path) is Some,
    ensures
        report_of_file(files, path) == report_of_file(files.take(n as int), path),
    decreases files.len() - n,
{
    if n < files.len() {
        assert(files.take(n as int + 1).drop_last() =~= files.take(n as int));
        first_report_stays(files, n + 1, path);
    } else {
        assert(files.take(n as int) =~= files);
    }
}

fn find_report<'a>(files: &'a Vec<FileReport>, path: &str) -> (r: Option<&'a FileReport>)
    ensures
        match r {
            Some(found) => report_of_file(files.deep_view(), path@) == Some(found.deep_view()),
            None => report_of_file(files.deep_view(), path@) is None,
        },
{
    let ghost model = files.deep_view();
    let mut i: usize = 0;
    while i < files.len()
        invariant
            i <= files.len(),
            model == files.deep_view(),
            report_of_file(model.take(i as int), path@) is None,
        decreases files.len() - i,
    {
        proof {
            assert(model.take(i + 1).drop_last() =~= model.take(i as int));
            assert(model.take(i + 1).last() == files@[i as int].deep_view());
        }
        if same(&files[i].path, path) {
            proof {
                first_report_stays(model, (i + 1) as nat, path@);
            }
            return Some(&files[i]);
        }
        i = i + 1;
    }
    assert(model.take(i as int) =~= model);
    None
}

/// What is said of a finding on a file that the report does not hold.
pub open spec fn missing_report(path: Seq<char>) -> FixWorkflowErrorModel {
    FixWorkflowErrorModel::InvalidArguments(
        "eligible file finding references missing report path `"@ + path + "`"@,
    )
}

/// What is said of a file whose digest cannot be read.
pub open spec fn unreadable_digest(path: Seq<char>) -> FixWorkflowErrorModel {
    FixWorkflowErrorModel::InvalidArguments(
        "report contains an invalid content digest for `"@ + path
            + "`: a digest is 64 hexadecimal digits"@,
    )
}

/// The planned fixes with the deletion of a file, where it was selected and is not planned yet.
pub open spec fn with_file_fix(
    state: FixSelectionModel,
    path: Seq<char>,
    summary: Seq<char>,
    requested: Seq<Seq<char>>,
    files: Seq<FileReportModel>,
) -> Result<FixSelectionModel, FixWorkflowErrorModel> {
    if !requested.contains(path) || state.files.contains(path) {
        Ok(state)
    } else {
        match report_of_file(files, path) {
            None => Err(missing_report(path)),
            Some(file) => match digest_of_hex(file.content_digest) {
                None => Err(unreadable_digest(path)),
                Some(digest) => {
                    let change = FileChangeModel {
                        path,
                        expected_content: ContentDigest(digest),
                        edits: None,
                        reason: summary,
                    };
                    if !safe_path(path) {
                        Err(FixWorkflowErrorModel::Plan(FixPlanErrorModel::UnsafePath(path)))
                    } else if change_error(state.plan, change) is Some {
                        Err(FixWorkflowErrorModel::Plan(change_error(state.plan, change)->0))
                    } else {
                        Ok(
                            FixSelectionModel {
                                plan: FixPlanModel {
                                    file_changes: state.plan.file_changes.push(change),
                                    ..state.plan
                                },
                                files: with_item::<String>(state.files, path),
                                ..state
                            },
                        )
                    }
                },
            },
        }
    }
}

fn add_file_fix(
    state: &mut FixSelection,
    path: &String,
    summary: &str,
    requested: &OrderedSet<String>,
    files: &Vec<FileReport>,
) -> (r: Result<(), FixWorkflowError>)
    ensures
        match r {
            Ok(_) => with_file_fix(
                old(state).deep_view(),
                path@,
                summary@,
                requested.deep_view(),
                files.deep_view(),
            ) == Ok::<FixSelectionModel, FixWorkflowErrorModel>(final(state).deep_view()),
            Err(error) => with_file_fix(
                old(state).deep_view(),
                path@,
                summary@,
                requested.deep_view(),
                files.deep_view(),
            ) == Err::<FixSelectionModel, FixWorkflowErrorModel>(error.deep_view()),
        },
{
    if !requested.contains(path) || state.files.contains(path) {
        return Ok(());
    }
    let file: &FileReport = match find_report(files, path) {
        Some(file) => file,
        None => {
            return Err(
                FixWorkflowError::InvalidArguments(
                    concat3("eligible file finding references missing report path `", path, "`"),
                ),
            );
        },
    };
    let digest: Digest = match Digest::from_hex(&file.content_digest) {
        Ok(digest) => digest,
        Err(_) => {
            return Err(
                FixWorkflowError::InvalidArguments(
                    concat3(
                        "report contains an invalid content digest for `",
                        path,
                        "`: a digest is 64 hexadecimal digits",
                    ),
                ),
            );
        },
    };
    let candidate = FixCandidate {
        confidence: AnalysisConfidence::High,
        world: WorldAssumption::Closed,
        public_api: PublicApiExposure::OutsidePublicApi,
        blockers: Vec::new(),
        expected_content: Some(ContentDigest(digest)),
        preserves_trivia_and_semantics: true,
    };
    assert(crate::fixes::eligibility::safe(candidate.deep_view()));
    match candidate.evaluate() {
        EligibilityDecision::Eligible(eligibility) => {
            let place: ProjectPath = match ProjectPath::new(path) {
                Ok(place) => place,
                Err(error) => {
                    return Err(FixWorkflowError::Plan(error));
                },
            };
            match state.plan.add_file_deletion(
                eligibility,
                place,
                ExplicitFileFixScope::selected(),
                summary,
            ) {
                Ok(_) => {
                    let _ = state.files.insert(path.replicate());
                    Ok(())
                },
                Err(error) => Err(FixWorkflowError::Plan(error)),
            }
        },
        EligibilityDecision::Ineligible(_) => Err(
            FixWorkflowError::InvalidArguments(
                concat3("file `", path, "` no longer satisfies the fix safety policy"),
            ),
        ),
    }
}

/// The planned fixes with the deletions of the files of a finding.
pub open spec fn with_file_fixes(
    items: Seq<Seq<char>>,
    start: FixSelectionModel,
    summary: Seq<char>,
    requested: Seq<Seq<char>>,
    files: Seq<FileReportModel>,
) -> Result<FixSelectionModel, FixWorkflowErrorModel>
    decreases items.len(),
{
    if items.len() == 0 {
        Ok(start)
    } else {
        let last = items.last();
        match with_file_fixes(items.drop_last(), start, summary, requested, files) {
            Ok(state) => with_file_fix(state, last, summary, requested, files),
            Err(error) => Err(error),
        }
    }
}

proof fn with_file_fixes_stops(
    items: Seq<Seq<char>>,
    n: nat,
    start: FixSelectionModel,
    summary: Seq<char>,
    requested: Seq<Seq<char>>,
    files: Seq<FileReportModel>,
)
    requires
        n <= items.len(),
        with_file_fixes(items.take(n as int), start, summary, requested, files) is Err,
    ensures
        with_file_fixes(items, start, summary, requested, files) == with_file_fixes(items.take(n as int), start, summary, requested, files),
    decreases items.len() - n,
{
    if n < items.len() {
        assert(items.take(n as int + 1).drop_last() =~= items.take(n as int));
        with_file_fixes_stops(items, n + 1, start, summary, requested, files);
    } else {
        assert(items.take(n as int) =~= items);
    }
}

fn add_file_fixes(
    items: &Vec<String>,
    summary: &str,
    requested: &OrderedSet<String>,
    files: &Vec<FileReport>,
    state: &mut FixSelection,
) -> (r: Result<(), FixWorkflowError>)
    ensures
        match r {
            Ok(_) => with_file_fixes(items.deep_view(), old(state).deep_view(), summary@, requested.deep_view(), files.deep_view()) == Ok::<FixSelectionModel, FixWorkflowErrorModel>(
                final(state).deep_view(),
            ),
            Err(error) => with_file_fixes(items.deep_view(), old(state).deep_view(), summary@, requested.deep_view(), files.deep_view()) == Err::<
                FixSelectionModel,
                FixWorkflowErrorModel,
            >(error.deep_view()),
        },
{
    let ghost start = state.deep_view();
    let ghost model = items.deep_view();
    let ghost requested_model = requested.deep_view();
    let ghost files_model = files.deep_view();
    let mut i: usize = 0;
    while i < items.len()
        invariant
            i <= items.len(),
            model == items.deep_view(),
            start == old(state).deep_view(),
            requested_model == requested.deep_view(),
            files_model == files.deep_view(),
            with_file_fixes(model.take(i as int), start, summary@, requested_model, files_model) == Ok::<FixSelectionModel, FixWorkflowErrorModel>(
                state.deep_view(),
            ),
        decreases items.len() - i,
    {
        proof {
            assert(model.take(i + 1).drop_last() =~= model.take(i as int));
            assert(model.take(i + 1).last() == items@[i as int].deep_view());
        }
        let item: &String = &items[i];
        match add_file_fix(state, item, summary, requested, files) {
            Ok(_) => {},
            Err(error) => {
                proof {
                    with_file_fixes_stops(
                        model,
                        (i + 1) as nat,
                        start,
                        summary@,
                        requested_model,
                        files_model,
                    );
                }
                return Err(error);
            },
        }
        i = i + 1;
    }
    assert(model.take(i as int) =~= model);
    Ok(())
}

/// The planned fixes with those of a finding.
pub open spec fn with_fix(
    state: FixSelectionModel,
    finding: FindingModel,
    request: FixRequestModel,
    findings: Seq<FindingModel>,
    files: Seq<FileReportModel>,
    managed: bool,
    apply: bool,
) -> Result<FixSelectionModel, FixWorkflowErrorModel> {
    if finding.issue_type == "unusedDependency"@ && can_be_planned(finding.fix_eligibility, apply)
        && managed && finding.dependency is Some {
        with_dependency_fix(
            state,
            finding,
            finding.dependency->0,
            request.dependencies,
            findings,
            apply,
        )
    } else if finding.issue_type == "unusedFiles"@ && finding.fix_eligibility
        == FixEligibility::Eligible {
        with_file_fixes(finding.paths, state, finding.summary, request.files, files)
    } else {
        Ok(state)
    }
}

fn add_fix(
    state: &mut FixSelection,
    finding: &Finding,
    request: &FixRequest,
    findings: &Vec<Finding>,
    files: &Vec<FileReport>,
    managed: bool,
    apply: bool,
) -> (r: Result<(), FixWorkflowError>)
    ensures
        match r {
            Ok(_) => with_fix(
                old(state).deep_view(),
                finding.deep_view(),
                request.deep_view(),
                findings.deep_view(),
                files.deep_view(),
                managed,
                apply,
            ) == Ok::<FixSelectionModel, FixWorkflowErrorModel>(final(state).deep_view()),
            Err(error) => with_fix(
                old(state).deep_view(),
                finding.deep_view(),
                request.deep_view(),
                findings.deep_view(),
                files.deep_view(),
                managed,
                apply,
            ) == Err::<FixSelectionModel, FixWorkflowErrorModel>(error.deep_view()),
        },
{
    if same(finding.issue_type, "unusedDependency") && dependency_fix_can_be_planned(
        finding.fix_eligibility,
        apply,
    ) && managed {
        if let Some(dependency) = &finding.dependency {
            return add_dependency_fix(
                state,
                finding,
                dependency,
                &request.dependencies,
                findings,
                apply,
            );
        }
    }
    if same(finding.issue_type, "unusedFiles") && finding.fix_eligibility
        == FixEligibility::Eligible {
        add_file_fixes(&finding.paths, &finding.summary, &request.files, files, state)
    } else {
        Ok(())
    }
}

/// The planned fixes with those of findings.
pub open spec fn with_fixes(
    items: Seq<FindingModel>,
    start: FixSelectionModel,
    request: FixRequestModel,
    findings: Seq<FindingModel>,
    files: Seq<FileReportModel>,
    managed: bool,
    apply: bool,
) -> Result<FixSelectionModel, FixWorkflowErrorModel>
    decreases items.len(),
{
    if items.len() == 0 {
        Ok(start)
    } else {
        let last = items.last();
        match with_fixes(items.drop_last(), start, request, findings, files, managed, apply) {
            Ok(state) => with_fix(state, last, request, findings, files, managed, apply),
            Err(error) => Err(error),
        }
    }
}

proof fn with_fixes_stops(
    items: Seq<FindingModel>,
    n: nat,
    start: FixSelectionModel,
    request: FixRequestModel,
    findings: Seq<FindingModel>,
    files: Seq<FileReportModel>,
    managed: bool,
    apply: bool,
)
    requires
        n <= items.len(),
        with_fixes(items.take(n as int), start, request, findings, files, managed, apply) is Err,
    ensures
        with_fixes(items, start, request, findings, files, managed, apply) == with_fixes(items.take(n as int), start, request, findings, files, managed, apply),
    decreases items.len() - n,
{
    if n < items.len() {
        assert(items.take(n as int + 1).drop_last() =~= items.take(n as int));
        with_fixes_stops(items, n + 1, start, request, findings, files, managed, apply);
    } else {
        assert(items.take(n as int) =~= items);
    }
}

fn add_fixes(
    items: &Vec<Finding>,
    request: &FixRequest,
    findings: &Vec<Finding>,
    files: &Vec<FileReport>,
    managed: bool,
    apply: bool,
    state: &mut FixSelection,
) -> (r: Result<(), FixWorkflowError>)
    ensures
        match r {
            Ok(_) => with_fixes(items.deep_view(), old(state).deep_view(), request.deep_view(), findings.deep_view(), files.deep_view(), managed, apply) == Ok::<FixSelectionModel, FixWorkflowErrorModel>(
                final(state).deep_view(),
            ),
            Err(error) => with_fixes(items.deep_view(), old(state).deep_view(), request.deep_view(), findings.deep_view(), files.deep_view(), managed, apply) == Err::<
                FixSelectionModel,
                FixWorkflowErrorModel,
            >(error.deep_view()),
        },
{
    let ghost start = state.deep_view();
    let ghost model = items.deep_view();
    let ghost request_model = request.deep_view();
    let ghost findings_model = findings.deep_view();
    let ghost files_model = files.deep_view();
    let mut i: usize = 0;
    while i < items.len()
        invariant
            i <= items.len(),
            model == items.deep_view(),
            start == old(state).deep_view(),
            request_model == request.deep_view(),
            findings_model == findings.deep_view(),
            files_model == files.deep_view(),
            with_fixes(model.take(i as int), start, request_model, findings_model, files_model, managed, apply) == Ok::<FixSelectionModel, FixWorkflowErrorModel>(
                state.deep_view(),
            ),
        decreases items.len() - i,
    {
        proof {
            assert(model.take(i + 1).drop_last() =~= model.take(i as int));
            assert(model.take(i + 1).last() == items@[i as int].deep_view());
        }
        let item: &Finding = &items[i];
        match add_fix(state, item, request, findings, files, managed, apply) {
            Ok(_) => {},
            Err(error) => {
                proof {
                    with_fixes_stops(
                        model,
                        (i + 1) as nat,
                        start,
                        request_model,
                        findings_model,
                        files_model,
                        managed,
                        apply,
                    );
                }
                return Err(error);
            },
        }
        i = i + 1;
    }
    assert(model.take(i as int) =~= model);
    Ok(())
}

/// What was asked for and not selected.
pub open spec fn unavailable(
    items: Seq<Seq<char>>,
    start: Seq<Seq<char>>,
    selected: Seq<Seq<char>>,
) -> Seq<Seq<char>>
    decreases items.len(),
{
    if items.len() == 0 {
        start
    } else {
        let rest = unavailable(items.drop_last(), start, selected);
        let last = items.last();
        if !selected.contains(last) {
            rest.push(last)
        } else {
            rest
        }
    }
}

fn choose_unavailable(
    items: &Vec<String>,
    selected: &OrderedSet<String>,
    out: &mut Vec<String>,
)
    ensures
        final(out).deep_view() == unavailable(items.deep_view(), old(out).deep_view(), selected.deep_view()),
{
    let ghost start = out.deep_view();
    let ghost selected_model = selected.deep_view();
    let ghost model = items.deep_view();
    let mut i: usize = 0;
    while i < items.len()
        invariant
            i <= items.len(),
            model == items.deep_view(),
            selected_model == selected.deep_view(),
            out.deep_view() =~= unavailable(model.take(i as int), start, selected_model),
        decreases items.len() - i,
    {
        proof {
            assert(model.take(i + 1).drop_last() =~= model.take(i as int));
            assert(model.take(i + 1).last() == items@[i as int].deep_view());
        }
        let item: &String = &items[i];
        if !selected.contains(item) {
            push_item(out, item.replicate());
        }
        i = i + 1;
    }
    assert(model.take(i as int) =~= model);
}

/// What is said of a package that the analysis did not find.
pub open spec fn unknown_workspace(workspace: Seq<char>) -> FixWorkflowErrorModel {
    FixWorkflowErrorModel::InvalidArguments(
        "dependency finding references unknown workspace `"@ + workspace + "`"@,
    )
}

/// A plan with the command that removes dependencies from a package.
pub open spec fn with_command(
    state: FixPlanModel,
    removals: (Seq<char>, Seq<DependencyRemovalModel>),
    manager: PackageManager,
    manifests: Seq<(Seq<char>, AnalyzedManifestModel)>,
) -> Result<FixPlanModel, FixWorkflowErrorModel> {
    match lookup(manifests, removals.0) {
        None => Err(unknown_workspace(removals.0)),
        Some(manifest) => match grouping_error(removals.1) {
            Some(message) => Err(FixWorkflowErrorModel::InvalidArguments(message)),
            None => Ok(
                FixPlanModel {
                    package_commands: state.package_commands.push(
                        removal_command(
                            manager,
                            manifest.working_directory,
                            manifest.content,
                            removals.1,
                        ),
                    ),
                    ..state
                },
            ),
        },
    }
}

fn add_command(
    state: &mut FixPlan,
    removals: &(String, Vec<DependencyRemoval>),
    manager: PackageManager,
    manifests: &OrderedMap<String, AnalyzedManifest>,
) -> (r: Result<(), FixWorkflowError>)
    ensures
        match r {
            Ok(_) => with_command(
                old(state).deep_view(),
                removals.deep_view(),
                manager,
                manifests.deep_view(),
            ) == Ok::<FixPlanModel, FixWorkflowErrorModel>(final(state).deep_view()),
            Err(error) => with_command(
                old(state).deep_view(),
                removals.deep_view(),
                manager,
                manifests.deep_view(),
            ) == Err::<FixPlanModel, FixWorkflowErrorModel>(error.deep_view()),
        },
{
    let manifest: &AnalyzedManifest = match manifests.get(&removals.0) {
        Some(manifest) => manifest,
        None => {
            return Err(
                FixWorkflowError::InvalidArguments(
                    concat3(
                        "dependency finding references unknown workspace `",
                        &removals.0,
                        "`",
                    ),
                ),
            );
        },
    };
    match PackageManagerCommand::remove_direct_dependencies(
        manager,
        manifest.working_directory.replicate(),
        manifest.content,
        removals.1.replicate(),
    ) {
        Ok(command) => {
            state.add_package_command(command);
            Ok(())
        },
        Err(message) => Err(FixWorkflowError::InvalidArguments(message.to_string())),
    }
}

/// A plan with the commands that remove dependencies from packages.
pub open spec fn with_commands(
    items: Seq<(Seq<char>, Seq<DependencyRemovalModel>)>,
    start: FixPlanModel,
    manager: PackageManager,
    manifests: Seq<(Seq<char>, AnalyzedManifestModel)>,
) -> Result<FixPlanModel, FixWorkflowErrorModel>
    decreases items.len(),
{
    if items.len() == 0 {
        Ok(start)
    } else {
        let last = items.last();
        match with_commands(items.drop_last(), start, manager, manifests) {
            Ok(state) => with_command(state, last, manager, manifests),
            Err(error) => Err(error),
        }
    }
}

proof fn with_commands_stops(
    items: Seq<(Seq<char>, Seq<DependencyRemovalModel>)>,
    n: nat,
    start: FixPlanModel,
    manager: PackageManager,
    manifests: Seq<(Seq<char>, AnalyzedManifestModel)>,
)
    requires
        n <= items.len(),
        with_commands(items.take(n as int), start, manager, manifests) is Err,
    ensures
        with_commands(items, start, manager, manifests) == with_commands(items.take(n as int), start, manager, manifests),
    decreases items.len() - n,
{
    if n < items.len() {
        assert(items.take(n as int + 1).drop_last() =~= items.take(n as int));
        with_commands_stops(items, n + 1, start, manager, manifests);
    } else {
        assert(items.take(n as int) =~= items);
    }
}

fn add_commands(
    items: &Vec<(String, Vec<DependencyRemoval>)>,
    manager: PackageManager,
    manifests: &OrderedMap<String, AnalyzedManifest>,
    state: &mut FixPlan,
) -> (r: Result<(), FixWorkflowError>)
    ensures
        match r {
            Ok(_) => with_commands(items.deep_view(), old(state).deep_view(), manager, manifests.deep_view()) == Ok::<FixPlanModel, FixWorkflowErrorModel>(
                final(state).deep_view(),
            ),
            Err(error) => with_commands(items.deep_view(), old(state).deep_view(), manager, manifests.deep_view()) == Err::<
                FixPlanModel,
                FixWorkflowErrorModel,
            >(error.deep_view()),
        },
{
    let ghost start = state.deep_view();
    let ghost model = items.deep_view();
    let ghost manifests_model = manifests.deep_view();
    let mut i: usize = 0;
    while i < items.len()
        invariant
            i <= items.len(),
            model == items.deep_view(),
            start == old(state).deep_view(),
            manifests_model == manifests.deep_view(),
            with_commands(model.take(i as int), start, manager, manifests_model) == Ok::<FixPlanModel, FixWorkflowErrorModel>(
                state.deep_view(),
            ),
        decreases items.len() - i,
    {
        proof {
            assert(model.take(i + 1).drop_last() =~= model.take(i as int));
            assert(model.take(i + 1).last() == items@[i as int].deep_view());
        }
        let item: &(String, Vec<DependencyRemoval>) = &items[i];
        match add_command(state, item, manager, manifests) {
            Ok(_) => {},
            Err(error) => {
                proof {
                    with_commands_stops(model, (i + 1) as nat, start, manager, manifests_model);
                }
                return Err(error);
            },
        }
        i = i + 1;
    }
    assert(model.take(i as int) =~= model);
    Ok(())
}

/// What stands in the plan of the fixes of a scan.
pub open spec fn empty_selection() -> FixSelectionModel {
    FixSelectionModel {
        plan: FixPlanModel {
            plan_id: "orphanode-scan-fix"@,
            title: "Remove selected eligible unused files and direct dependencies"@,
            file_changes: Seq::empty(),
            package_commands: Seq::empty(),
        },
        dependencies: Seq::empty(),
        selectors: Seq::empty(),
        removals: Seq::empty(),
        files: Seq::empty(),
    }
}

/// The fixes with the commands that make them, or why they cannot be made: everything that was
/// asked for has to be among them.
pub open spec fn settled_selection(
    selection: FixSelectionModel,
    request: FixRequestModel,
    manager: Option<PackageManager>,
    manifests: Seq<(Seq<char>, AnalyzedManifestModel)>,
) -> Result<FixSelectionModel, FixWorkflowErrorModel> {
    let files = unavailable(request.files, Seq::empty(), selection.files);
    let dependencies = unavailable(request.dependencies, Seq::empty(), selection.selectors);
    if files.len() > 0 {
        Err(
            FixWorkflowErrorModel::InvalidArguments(
                "--fix-file requires an eligible closed-world unused-file finding; unavailable: "@
                    + joined(files, ", "@),
            ),
        )
    } else if dependencies.len() > 0 {
        Err(
            FixWorkflowErrorModel::InvalidArguments(
                "--fix-dependency requires an eligible unused direct dependency and a supported package manager; unavailable: "@
                    + joined(dependencies, ", "@),
            ),
        )
    } else if selection.removals.len() == 0 {
        Ok(selection)
    } else {
        match manager {
            None => Err(
                FixWorkflowErrorModel::InvalidArguments(
                    "selected dependency fixes require an unambiguous supported package manager"@,
                ),
            ),
            Some(manager) => match with_commands(
                selection.removals,
                selection.plan,
                manager,
                manifests,
            ) {
                Ok(plan) => Ok(FixSelectionModel { plan, ..selection }),
                Err(error) => Err(error),
            },
        }
    }
}

/// The plan of the fixes that were asked for, or why it cannot be made.
pub open spec fn planned_fixes(
    request: FixRequestModel,
    report: ScanReportModel,
    manager: Option<PackageManager>,
    manifests: Seq<(Seq<char>, AnalyzedManifestModel)>,
    apply: bool,
) -> Result<FixSelectionModel, FixWorkflowErrorModel> {
    match with_fixes(
        report.findings,
        empty_selection(),
        request,
        report.findings,
        report.files,
        manager is Some,
        apply,
    ) {
        Ok(selection) => settled_selection(selection, request, manager, manifests),
        Err(error) => Err(error),
    }
}

proof fn bytes_are_bounded(s: Seq<char>)
    ensures
        byte_length(s) <= 4 * s.len(),
    decreases s.len(),
{
    if s.len() > 0 {
        bytes_are_bounded(s.drop_last());
    }
}

/// A short text without control characters that neither starts nor ends with a space can be
/// shown.
proof fn plain_text_is_showable(s: Seq<char>)
    requires
        0 < s.len() <= 1024,
        !space(s[0]),
        !space(s.last()),
        !has_control(s),
    ensures
        showable(s),
{
    bytes_are_bounded(s);
    assert(trimmed_start(s) == s);
    assert(trimmed_end(s) == s);
}

proof fn titles_are_showable()
    ensures
        showable("orphanode-scan-fix"@),
        showable("Remove selected eligible unused files and direct dependencies"@),
{
    reveal_strlit("orphanode-scan-fix");
    reveal_strlit("Remove selected eligible unused files and direct dependencies");
    plain_text_is_showable("orphanode-scan-fix"@);
    plain_text_is_showable("Remove selected eligible unused files and direct dependencies"@);
}

fn start_selection() -> (r: FixSelection)
    ensures
        r.deep_view() == empty_selection(),
{
    proof {
        titles_are_showable();
    }
    let plan: FixPlan = match FixPlan::new(
        "orphanode-scan-fix",
        "Remove selected eligible unused files and direct dependencies",
    ) {
        Ok(plan) => plan,
        Err(_) => {
            assert(false);
            FixPlan {
                plan_id: "orphanode-scan-fix".to_string(),
                title: "Remove selected eligible unused files and direct dependencies".to_string(),
                file_changes: Vec::new(),
                package_commands: Vec::new(),
            }
        },
    };
    FixSelection {
        plan,
        dependencies: OrderedSet::new(),
        selectors: OrderedSet::new(),
        removals: OrderedMap::new(),
        files: OrderedSet::new(),
    }
}

/// Plans the fixes that were asked for: the deletion of unused files and the removal of unused
/// dependencies, each only where it was selected and is eligible.
///
/// # Errors
///
/// Returns an error when something that was asked for cannot be fixed, or a selector is
/// ambiguous.
pub fn plan_fixes(
    request: &FixRequest,
    report: &ScanReport,
    manager: Option<PackageManager>,
    manifests: &OrderedMap<String, AnalyzedManifest>,
    apply: bool,
) -> (r: Result<FixSelection, FixWorkflowError>)
    ensures
        match r {
            Ok(selection) => planned_fixes(
                request.deep_view(),
                report.deep_view(),
                manager,
                manifests.deep_view(),
                apply,
            ) == Ok::<FixSelectionModel, FixWorkflowErrorModel>(selection.deep_view()),
            Err(error) => planned_fixes(
                request.deep_view(),
                report.deep_view(),
                manager,
                manifests.deep_view(),
                apply,
            ) == Err::<FixSelectionModel, FixWorkflowErrorModel>(error.deep_view()),
        },
{
    let mut selection: FixSelection = start_selection();
    match add_fixes(
        &report.findings,
        request,
        &report.findings,
        &report.files,
        manager.is_some(),
        apply,
        &mut selection,
    ) {
        Ok(_) => {},
        Err(error) => {
            return Err(error);
        },
    }
    let mut files: Vec<String> = no_texts();
    choose_unavailable(request.files.items(), &selection.files, &mut files);
    if files.len() > 0 {
        return Err(
            FixWorkflowError::InvalidArguments(
                concat2(
                    "--fix-file requires an eligible closed-world unused-file finding; unavailable: ",
                    &join(&files, ", "),
                ),
            ),
        );
    }
    let mut dependencies: Vec<String> = no_texts();
    choose_unavailable(request.dependencies.items(), &selection.selectors, &mut dependencies);
    if dependencies.len() > 0 {
        return Err(
            FixWorkflowError::InvalidArguments(
                concat2(
                    "--fix-dependency requires an eligible unused direct dependency and a supported package manager; unavailable: ",
                    &join(&dependencies, ", "),
                ),
            ),
        );
    }
    if selection.removals.entries().len() == 0 {
        return Ok(selection);
    }
    match manager {
        None => Err(
            FixWorkflowError::InvalidArguments(
                "selected dependency fixes require an unambiguous supported package manager".to_string(),
            ),
        ),
        Some(manager) => {
            match add_commands(
                selection.removals.entries(),
                manager,
                manifests,
                &mut selection.plan,
            ) {
                Ok(_) => Ok(selection),
                Err(error) => Err(error),
            }
        },
    }
}

/// A text with the dependencies that a command removes.
pub open spec fn removal_lines(items: Seq<DependencyRemovalModel>, start: Seq<char>) -> Seq<char>
    decreases items.len(),
{
    if items.len() == 0 {
        start
    } else {
        let rest = removal_lines(items.drop_last(), start);
        let last = items.last();
        rest + "      remove  "@ + safe(last.dependency.name, "<invalid dependency>"@) + "\n        reason  "@ + safe(last.reason, "<missing reason>"@) + "\n"@
    }
}

fn write_removals(
    items: &Vec<DependencyRemoval>,
    out: &mut String,
)
    ensures
        final(out)@ == removal_lines(items.deep_view(), old(out)@),
{
    let ghost start = out@;
    let ghost model = items.deep_view();
    let mut i: usize = 0;
    while i < items.len()
        invariant
            i <= items.len(),
            model == items.deep_view(),
            out@ == removal_lines(model.take(i as int), start),
        decreases items.len() - i,
    {
        proof {
            assert(model.take(i + 1).drop_last() =~= model.take(i as int));
            assert(model.take(i + 1).last() == items@[i as int].deep_view());
        }
        let item: &DependencyRemoval = &items[i];
        out.append("      remove  ");
        out.append(&safe_text(&item.dependency.name, "<invalid dependency>"));
        out.append("\n        reason  ");
        out.append(&safe_text(&item.reason, "<missing reason>"));
        out.append("\n");
        i = i + 1;
    }
    assert(model.take(i as int) =~= model);
}

/// A text with the commands of a plan.
pub open spec fn command_lines(
    items: Seq<PackageManagerCommandModel>,
    start: Seq<char>,
) -> Seq<char>
    decreases items.len(),
{
    if items.len() == 0 {
        start
    } else {
        let rest = command_lines(items.drop_last(), start);
        let last = items.last();
        removal_lines(last.removals, rest + "    workspace  "@ + safe(last.working_directory, "."@) + "\n      manifest  "@ + safe(last.manifest_path, "package.json"@) + "\n"@) + "      command  "@ + safe(command_line(last), "<invalid command>"@) + "\n"@
    }
}

fn write_commands(
    items: &Vec<PackageManagerCommand>,
    out: &mut String,
)
    ensures
        final(out)@ == command_lines(items.deep_view(), old(out)@),
{
    let ghost start = out@;
    let ghost model = items.deep_view();
    let mut i: usize = 0;
    while i < items.len()
        invariant
            i <= items.len(),
            model == items.deep_view(),
            out@ == command_lines(model.take(i as int), start),
        decreases items.len() - i,
    {
        proof {
            assert(model.take(i + 1).drop_last() =~= model.take(i as int));
            assert(model.take(i + 1).last() == items@[i as int].deep_view());
        }
        let item: &PackageManagerCommand = &items[i];
        out.append("    workspace  ");
        out.append(&safe_text(item.working_directory.as_str(), "."));
        out.append("\n      manifest  ");
        out.append(&safe_text(item.manifest_path.as_str(), "package.json"));
        out.append("\n");
        write_removals(&item.removals, out);
        out.append("      command  ");
        out.append(&safe_text(&item.display_command(), "<invalid command>"));
        out.append("\n");
        i = i + 1;
    }
    assert(model.take(i as int) =~= model);
}

/// Everything that commands remove.
pub open spec fn all_removals(items: Seq<PackageManagerCommandModel>) -> Seq<DependencyRemovalModel>
    decreases items.len(),
{
    if items.len() == 0 {
        Seq::empty()
    } else {
        let rest = all_removals(items.drop_last());
        let last = items.last();
        rest + last.removals
    }
}

fn list_removals(commands: &Vec<PackageManagerCommand>) -> (r: Vec<DependencyRemoval>)
    ensures
        r.deep_view() == all_removals(commands.deep_view()),
{
    let mut out: Vec<DependencyRemoval> = Vec::new();
    assert(out.deep_view() =~= Seq::empty());
    let ghost model = commands.deep_view();
    let mut i: usize = 0;
    while i < commands.len()
        invariant
            i <= commands.len(),
            model == commands.deep_view(),
            out.deep_view() == all_removals(model.take(i as int)),
        decreases commands.len() - i,
    {
        proof {
            assert(model.take(i + 1).drop_last() =~= model.take(i as int));
            assert(model.take(i + 1).last() == commands@[i as int].deep_view());
        }
        append_items(&mut out, &commands[i].removals);
        i = i + 1;
    }
    assert(model.take(i as int) =~= model);
    out
}

/// What is done to a file.
pub open spec fn change_action(kind: PreviewChangeKind) -> Seq<char> {
    match kind {
        PreviewChangeKind::Modify => "modify"@,
        PreviewChangeKind::Delete => "delete"@,
    }
}

fn name_of_action(kind: PreviewChangeKind) -> (r: &'static str)
    ensures
        r@ == change_action(kind),
{
    match kind {
        PreviewChangeKind::Modify => "modify",
        PreviewChangeKind::Delete => "delete",
    }
}

/// A text with the first `count` changes to files and the reasons for them.
pub open spec fn change_lines(
    changes: Seq<PreviewedFileChangeModel>,
    planned: Seq<FileChangeModel>,
    count: nat,
    start: Seq<char>,
) -> Seq<char>
    decreases count,
{
    if count == 0 {
        start
    } else {
        let rest = change_lines(changes, planned, (count - 1) as nat, start);
        let change = changes[count - 1];
        rest + "    "@ + change_action(change.kind) + "  "@ + safe(
            change.path,
            "<invalid path>"@,
        ) + "\n      reason  "@ + safe(planned[count - 1].reason, "<missing reason>"@) + "\n"@
    }
}

fn write_changes(
    changes: &Vec<PreviewedFileChange>,
    planned: &Vec<FileChange>,
    out: &mut String,
)
    ensures
        final(out)@ == change_lines(
            changes.deep_view(),
            planned.deep_view(),
            shorter(changes.deep_view().len(), planned.deep_view().len()),
            old(out)@,
        ),
{
    let ghost start = out@;
    let mut i: usize = 0;
    while i < changes.len() && i < planned.len()
        invariant
            i <= changes.len(),
            i <= planned.len(),
            out@ == change_lines(changes.deep_view(), planned.deep_view(), i as nat, start),
        decreases changes.len() - i,
    {
        assert(changes.deep_view()[i as int] == changes@[i as int].deep_view());
        assert(planned.deep_view()[i as int] == planned@[i as int].deep_view());
        out.append("    ");
        out.append(name_of_action(changes[i].kind));
        out.append("  ");
        out.append(&safe_text(changes[i].path.as_str(), "<invalid path>"));
        out.append("\n      reason  ");
        out.append(&safe_text(planned[i].reason(), "<missing reason>"));
        out.append("\n");
        i = i + 1;
    }
}

/// The smaller of two numbers.
pub open spec fn shorter(a: nat, b: nat) -> nat {
    if a <= b {
        a
    } else {
        b
    }
}

/// What is shown where nothing was selected.
pub open spec fn nothing_selected() -> Seq<char> {
    "\nFIX PREVIEW\n  No items selected. Add --fix-file PATH or --fix-dependency [WORKSPACE:]PACKAGE to preview an exact plan. Declaration and member findings remain review-only unless an exact, trivia-preserving edit is proven.\n"@
}

/// What is shown where nothing was selected; nothing where the plan changes something.
pub fn show_empty_plan(plan: &FixPlan) -> (r: Option<&'static str>)
    ensures
        match r {
            Some(text) => plan.deep_view().package_commands.len() == 0
                && plan.deep_view().file_changes.len() == 0 && text@ == nothing_selected(),
            None => plan.deep_view().package_commands.len() > 0
                || plan.deep_view().file_changes.len() > 0,
        },
{
    if plan.package_commands.len() == 0 && plan.file_changes.len() == 0 {
        Some(
            "\nFIX PREVIEW\n  No items selected. Add --fix-file PATH or --fix-dependency [WORKSPACE:]PACKAGE to preview an exact plan. Declaration and member findings remain review-only unless an exact, trivia-preserving edit is proven.\n",
        )
    } else {
        None
    }
}

/// What is shown of a plan before it is applied.
pub open spec fn preview_text(preview: FixPreviewModel, apply: bool) -> Seq<char> {
    let head = "\nFIX PREVIEW\n"@ + "  fingerprint  "@ + hex(preview.fingerprint) + "\n"@;
    let counted = if preview.file_changes.len() > 0 {
        head + "  FILE CHANGES ("@ + digits(preview.file_changes.len()) + ")\n"@
    } else {
        head
    };
    let changed = change_lines(
        preview.file_changes,
        preview.plan.file_changes,
        shorter(preview.file_changes.len(), preview.plan.file_changes.len()),
        counted,
    );
    let removals = all_removals(preview.plan.package_commands);
    let titled = if removals.len() > 0 {
        changed + "  DEPENDENCY CHANGES ("@ + digits(removals.len()) + ")\n"@
    } else {
        changed
    };
    let commanded = command_lines(preview.plan.package_commands, titled);
    if apply {
        commanded
    } else {
        commanded
            + "  Preview only. Re-run with --fix --apply to authorize exactly this plan.\n"@
    }
}

/// Shows a plan before it is applied.
#[must_use]
pub fn render_fix_preview(preview: &FixPreview, apply: bool) -> (r: String)
    ensures
        r@ == preview_text(preview.deep_view(), apply),
{
    let mut out: String = "\nFIX PREVIEW\n".to_string();
    out.append("  fingerprint  ");
    out.append(&preview.fingerprint().to_hex());
    out.append("\n");
    if preview.changes().len() > 0 {
        out.append("  FILE CHANGES (");
        out.append(&decimal(preview.changes().len() as u64));
        out.append(")\n");
    }
    write_changes(preview.changes(), &preview.plan().file_changes, &mut out);
    let removals: Vec<DependencyRemoval> = list_removals(&preview.plan().package_commands);
    if removals.len() > 0 {
        out.append("  DEPENDENCY CHANGES (");
        out.append(&decimal(removals.len() as u64));
        out.append(")\n");
    }
    write_commands(&preview.plan().package_commands, &mut out);
    if !apply {
        out.append("  Preview only. Re-run with --fix --apply to authorize exactly this plan.\n");
    }
    out
}

/// A text with lines of a report.
pub open spec fn note_lines(
    items: Seq<Seq<char>>,
    start: Seq<char>,
    fallback: Seq<char>,
) -> Seq<char>
    decreases items.len(),
{
    if items.len() == 0 {
        start
    } else {
        let rest = note_lines(items.drop_last(), start, fallback);
        let last = items.last();
        rest + "    "@ + safe(last, fallback) + "\n"@
    }
}

fn write_notes(
    items: &Vec<String>,
    fallback: &str,
    out: &mut String,
)
    ensures
        final(out)@ == note_lines(items.deep_view(), old(out)@, fallback@),
{
    let ghost start = out@;
    let ghost model = items.deep_view();
    let mut i: usize = 0;
    while i < items.len()
        invariant
            i <= items.len(),
            model == items.deep_view(),
            out@ == note_lines(model.take(i as int), start, fallback@),
        decreases items.len() - i,
    {
        proof {
            assert(model.take(i + 1).drop_last() =~= model.take(i as int));
            assert(model.take(i + 1).last() == items@[i as int].deep_view());
        }
        let item: &String = &items[i];
        out.append("    ");
        out.append(&safe_text(item, fallback));
        out.append("\n");
        i = i + 1;
    }
    assert(model.take(i as int) =~= model);
}

/// A text with what came of commands.
pub open spec fn execution_lines(items: Seq<CommandExecutionModel>, start: Seq<char>) -> Seq<char>
    decreases items.len(),
{
    if items.len() == 0 {
        start
    } else {
        let rest = execution_lines(items.drop_last(), start);
        let last = items.last();
        {
            let line = rest + "  "@ + if last.success {
                "ok"@
            } else {
                "failed"@
            } + "  "@ + safe(command_line(last.command), "<invalid command>"@) + "\n"@;
            if last.message.len() > 0 {
                line + "    "@ + safe(last.message, "<no process output>"@) + "\n"@
            } else {
                line
            }
        }
    }
}

fn write_executions(
    items: &Vec<CommandExecution>,
    out: &mut String,
)
    ensures
        final(out)@ == execution_lines(items.deep_view(), old(out)@),
{
    let ghost start = out@;
    let ghost model = items.deep_view();
    let mut i: usize = 0;
    while i < items.len()
        invariant
            i <= items.len(),
            model == items.deep_view(),
            out@ == execution_lines(model.take(i as int), start),
        decreases items.len() - i,
    {
        proof {
            assert(model.take(i + 1).drop_last() =~= model.take(i as int));
            assert(model.take(i + 1).last() == items@[i as int].deep_view());
        }
        let item: &CommandExecution = &items[i];
        out.append("  ");
        if item.success {
            out.append("ok");
        } else {
            out.append("failed");
        }
        out.append("  ");
        out.append(&safe_text(&item.command.display_command(), "<invalid command>"));
        out.append("\n");
        if item.message.as_str().unicode_len() > 0 {
            out.append("    ");
            out.append(&safe_text(&item.message, "<no process output>"));
            out.append("\n");
        }
        i = i + 1;
    }
    assert(model.take(i as int) =~= model);
}

/// A text with what came of applying a plan.
pub open spec fn apply_text(start: Seq<char>, report: ApplyReportModel) -> Seq<char> {
    let executed = execution_lines(report.package_commands, start + "\nAPPLY\n"@);
    match report.revalidation {
        RevalidationOutcomeModel::Passed { notes } => note_lines(
            notes,
            executed + "  revalidation  passed\n"@,
            "<empty note>"@,
        ),
        RevalidationOutcomeModel::Failed { diagnostics } => note_lines(
            diagnostics,
            executed + "  revalidation  failed\n"@,
            "<empty diagnostic>"@,
        ),
    }
}

/// Writes what came of applying a plan.
pub fn render_apply_report(output: &mut String, report: &ApplyReport)
    ensures
        final(output)@ == apply_text(old(output)@, report.deep_view()),
{
    output.append("\nAPPLY\n");
    write_executions(&report.package_commands, output);
    match &report.revalidation {
        RevalidationOutcome::Passed { notes } => {
            output.append("  revalidation  passed\n");
            write_notes(notes, "<empty note>", output);
        },
        RevalidationOutcome::Failed { diagnostics } => {
            output.append("  revalidation  failed\n");
            write_notes(diagnostics, "<empty diagnostic>", output);
        },
    }
}

/// What is said where the project is not as it should be after fixes were applied.
pub open spec fn failure_after_fixes(diagnostics: Seq<Seq<char>>) -> Seq<char> {
    "fixes were applied but post-apply validation failed; changes were not rolled back: "@ + joined(
        diagnostics,
        "; "@,
    )
}

/// What is said where the project is not as it should be after fixes were applied.
#[must_use]
pub fn revalidation_failure(outcome: &RevalidationOutcome) -> (r: Option<String>)
    ensures
        match outcome.deep_view() {
            RevalidationOutcomeModel::Passed { .. } => r is None,
            RevalidationOutcomeModel::Failed { diagnostics } => r is Some && (r->0)@
                == failure_after_fixes(diagnostics),
        },
{
    match outcome {
        RevalidationOutcome::Passed { .. } => None,
        RevalidationOutcome::Failed { diagnostics } => Some(
            concat2(
                "fixes were applied but post-apply validation failed; changes were not rolled back: ",
                &join(diagnostics, "; "),
            ),
        ),
    }
}

/// The name of a degree of confidence.
pub open spec fn confidence_word(value: Confidence) -> Seq<char> {
    match value {
        Confidence::High => "High"@,
        Confidence::Medium => "Medium"@,
        Confidence::Low => "Low"@,
        Confidence::Incomplete => "Incomplete"@,
    }
}

/// The name of a degree of confidence.
#[must_use]
fn word_of_confidence(value: Confidence) -> (r: &'static str)
    ensures
        r@ == confidence_word(value),
{
    match value {
        Confidence::High => "High",
        Confidence::Medium => "Medium",
        Confidence::Low => "Low",
        Confidence::Incomplete => "Incomplete",
    }
}

/// A text, or nothing.
pub open spec fn text_or_empty(text: Option<Seq<char>>) -> Seq<char> {
    match text {
        Some(text) => text,
        None => ""@,
    }
}

fn or_empty(text: &Option<String>) -> (r: &str)
    ensures
        r@ == text_or_empty(text.deep_view()),
{
    match text {
        Some(text) => text.as_str(),
        None => "",
    }
}

/// What tells a finding from others.
pub open spec fn key_of_finding(finding: FindingModel) -> Seq<char> {
    finding.issue_id + ":"@ + finding.workspace + ":"@ + joined(finding.paths, "|"@) + ":"@
        + text_or_empty(finding.symbol) + ":"@ + text_or_empty(finding.dependency) + ":"@
        + confidence_word(finding.confidence)
}

/// What tells a finding from others.
#[must_use]
pub fn finding_key(finding: &Finding) -> (r: String)
    ensures
        r@ == key_of_finding(finding.deep_view()),
{
    let mut out: String = finding.issue_id.to_string();
    out.append(":");
    out.append(&finding.workspace);
    out.append(":");
    out.append(&join(&finding.paths, "|"));
    out.append(":");
    out.append(or_empty(&finding.symbol));
    out.append(":");
    out.append(or_empty(&finding.dependency));
    out.append(":");
    out.append(word_of_confidence(finding.confidence));
    out
}

/// Where something stands, in words.
pub open spec fn span_words(span: SourceSpan) -> Seq<char> {
    "SourceSpan { start: "@ + digits(span.start as nat) + ", end: "@ + digits(span.end as nat)
        + " }"@
}

fn write_span(span: SourceSpan) -> (r: String)
    ensures
        r@ == span_words(span),
{
    concat5(
        "SourceSpan { start: ",
        &decimal(span.start as u64),
        ", end: ",
        &decimal(span.end as u64),
        " }",
    )
}

/// Where something stands, if anywhere, in words.
pub open spec fn place_words(span: Option<SourceSpan>) -> Seq<char> {
    match span {
        Some(span) => "Some("@ + span_words(span) + ")"@,
        None => "None"@,
    }
}

fn write_place(span: Option<SourceSpan>) -> (r: String)
    ensures
        r@ == place_words(span),
{
    match span {
        Some(span) => concat3("Some(", &write_span(span), ")"),
        None => "None".to_string(),
    }
}

/// What tells a diagnostic from others.
pub open spec fn key_of_diagnostic(diagnostic: AnalysisDiagnosticModel) -> Seq<char> {
    diagnostic.code + ":"@ + diagnostic.path + ":"@ + place_words(diagnostic.span) + ":"@
        + if diagnostic.blocks_reachability {
        "true"@
    } else {
        "false"@
    } + ":"@ + diagnostic.message
}

/// What tells a diagnostic from others.
#[must_use]
pub fn diagnostic_key(diagnostic: &AnalysisDiagnostic) -> (r: String)
    ensures
        r@ == key_of_diagnostic(diagnostic.deep_view()),
{
    let mut out: String = diagnostic.code.replicate();
    out.append(":");
    out.append(&diagnostic.path);
    out.append(":");
    out.append(&write_place(diagnostic.span));
    out.append(":");
    if diagnostic.blocks_reachability {
        out.append("true");
    } else {
        out.append("false");
    }
    out.append(":");
    out.append(&diagnostic.message);
    out
}

/// Whether an import leads to nothing that is known.
pub open spec fn is_gap(import: ImportReportModel) -> bool {
    import.status == ResolutionStatus::Unresolved || import.status == ResolutionStatus::Unsupported
}

/// What tells an import from others.
pub open spec fn key_of_import(path: Seq<char>, import: ImportReportModel) -> Seq<char> {
    path + ":"@ + import.specifier + ":"@ + span_words(import.span)
}

/// What tells findings from others.
pub open spec fn finding_keys(items: Seq<FindingModel>) -> Seq<Seq<char>> {
    items.map_values(|item: FindingModel| key_of_finding(item))
}

fn list_finding_keys(items: &Vec<Finding>) -> (r: Vec<String>)
    ensures
        r.deep_view() == finding_keys(items.deep_view()),
{
    let mut out: Vec<String> = Vec::new();
    let ghost model = items.deep_view();
    let mut i: usize = 0;
    while i < items.len()
        invariant
            i <= items.len(),
            model == items.deep_view(),
            out.deep_view() =~= finding_keys(model.take(i as int)),
        decreases items.len() - i,
    {
        proof {
            assert(model.take(i + 1).drop_last() =~= model.take(i as int));
            assert(model.take(i + 1).last() == items@[i as int].deep_view());
        }
        assert(model.take(i + 1) =~= model.take(i as int).push(items@[i as int].deep_view()));
        let item: &Finding = &items[i];
        push_item(&mut out, finding_key(item));
        i = i + 1;
    }
    assert(model.take(i as int) =~= model);
    out
}

/// What tells diagnostics from others.
pub open spec fn diagnostic_keys(items: Seq<AnalysisDiagnosticModel>) -> Seq<Seq<char>> {
    items.map_values(|item: AnalysisDiagnosticModel| key_of_diagnostic(item))
}

fn list_diagnostic_keys(items: &Vec<AnalysisDiagnostic>) -> (r: Vec<String>)
    ensures
        r.deep_view() == diagnostic_keys(items.deep_view()),
{
    let mut out: Vec<String> = Vec::new();
    let ghost model = items.deep_view();
    let mut i: usize = 0;
    while i < items.len()
        invariant
            i <= items.len(),
            model == items.deep_view(),
            out.deep_view() =~= diagnostic_keys(model.take(i as int)),
        decreases items.len() - i,
    {
        proof {
            assert(model.take(i + 1).drop_last() =~= model.take(i as int));
            assert(model.take(i + 1).last() == items@[i as int].deep_view());
        }
        assert(model.take(i + 1) =~= model.take(i as int).push(items@[i as int].deep_view()));
        let item: &AnalysisDiagnostic = &items[i];
        push_item(&mut out, diagnostic_key(item));
        i = i + 1;
    }
    assert(model.take(i as int) =~= model);
    out
}

/// What tells the imports of a file that lead to nothing from others.
pub open spec fn gaps_of_file(
    items: Seq<ImportReportModel>,
    start: Seq<Seq<char>>,
    path: Seq<char>,
) -> Seq<Seq<char>>
    decreases items.len(),
{
    if items.len() == 0 {
        start
    } else {
        let rest = gaps_of_file(items.drop_last(), start, path);
        let last = items.last();
        if is_gap(last) {
            with_item::<String>(rest, key_of_import(path, last))
        } else {
            rest
        }
    }
}

fn add_gaps(
    items: &Vec<ImportReport>,
    path: &str,
    out: &mut OrderedSet<String>,
)
    ensures
        final(out).deep_view() == gaps_of_file(items.deep_view(), old(out).deep_view(), path@),
{
    let ghost start = out.deep_view();
    let ghost model = items.deep_view();
    let mut i: usize = 0;
    while i < items.len()
        invariant
            i <= items.len(),
            model == items.deep_view(),
            out.deep_view() == gaps_of_file(model.take(i as int), start, path@),
        decreases items.len() - i,
    {
        proof {
            assert(model.take(i + 1).drop_last() =~= model.take(i as int));
            assert(model.take(i + 1).last() == items@[i as int].deep_view());
        }
        let item: &ImportReport = &items[i];
        if item.status == ResolutionStatus::Unresolved || item.status == ResolutionStatus::Unsupported {
            let _ = out.insert(
                concat5(path, ":", &item.specifier, ":", &write_span(item.span)),
            );
        }
        i = i + 1;
    }
    assert(model.take(i as int) =~= model);
}

/// What tells the imports of files that lead to nothing from others.
pub open spec fn gaps_of_files(items: Seq<FileReportModel>, start: Seq<Seq<char>>) -> Seq<Seq<char>>
    decreases items.len(),
{
    if items.len() == 0 {
        start
    } else {
        let rest = gaps_of_files(items.drop_last(), start);
        let last = items.last();
        gaps_of_file(last.imports, rest, last.path)
    }
}

fn add_file_gaps(
    items: &Vec<FileReport>,
    out: &mut OrderedSet<String>,
)
    ensures
        final(out).deep_view() == gaps_of_files(items.deep_view(), old(out).deep_view()),
{
    let ghost start = out.deep_view();
    let ghost model = items.deep_view();
    let mut i: usize = 0;
    while i < items.len()
        invariant
            i <= items.len(),
            model == items.deep_view(),
            out.deep_view() == gaps_of_files(model.take(i as int), start),
        decreases items.len() - i,
    {
        proof {
            assert(model.take(i + 1).drop_last() =~= model.take(i as int));
            assert(model.take(i + 1).last() == items@[i as int].deep_view());
        }
        let item: &FileReport = &items[i];
        add_gaps(&item.imports, &item.path, out);
        i = i + 1;
    }
    assert(model.take(i as int) =~= model);
}

/// What tells the imports of a report that lead to nothing from others.
#[must_use]
pub fn import_gap_keys(report: &ScanReport) -> (r: OrderedSet<String>)
    ensures
        r.deep_view() == gaps_of_files(report.deep_view().files, Seq::empty()),
{
    let mut out: OrderedSet<String> = OrderedSet::new();
    add_file_gaps(&report.files, &mut out);
    out
}

/// What was known of a project before fixes were applied, and what they remove.
#[derive(Debug, PartialEq, Eq)]
pub struct RevalidationBaseline {
    pub dependencies: OrderedSet<String>,
    pub files: OrderedSet<String>,
    pub findings: OrderedSet<String>,
    pub diagnostics: OrderedSet<String>,
    pub import_gaps: OrderedSet<String>,
}

/// What a [`RevalidationBaseline`] holds.
pub struct RevalidationBaselineModel {
    pub dependencies: Seq<Seq<char>>,
    pub files: Seq<Seq<char>>,
    pub findings: Seq<Seq<char>>,
    pub diagnostics: Seq<Seq<char>>,
    pub import_gaps: Seq<Seq<char>>,
}

impl DeepView for RevalidationBaseline {
    type V = RevalidationBaselineModel;

    open spec fn deep_view(&self) -> RevalidationBaselineModel {
        RevalidationBaselineModel {
            dependencies: self.dependencies.deep_view(),
            files: self.files.deep_view(),
            findings: self.findings.deep_view(),
            diagnostics: self.diagnostics.deep_view(),
            import_gaps: self.import_gaps.deep_view(),
        }
    }
}

/// What is known before fixes are applied.
pub open spec fn baseline_of(
    report: ScanReportModel,
    dependencies: Seq<Seq<char>>,
    files: Seq<Seq<char>>,
) -> RevalidationBaselineModel {
    RevalidationBaselineModel {
        dependencies,
        files,
        findings: collected::<String>(finding_keys(report.findings)),
        diagnostics: collected::<String>(diagnostic_keys(report.diagnostics)),
        import_gaps: gaps_of_files(report.files, Seq::empty()),
    }
}

impl RevalidationBaseline {
    /// What is known before fixes are applied.
    #[must_use]
    pub fn new(
        report: &ScanReport,
        dependencies: OrderedSet<String>,
        files: OrderedSet<String>,
    ) -> (r: RevalidationBaseline)
        ensures
            r.deep_view() == baseline_of(
                report.deep_view(),
                dependencies.deep_view(),
                files.deep_view(),
            ),
    {
        RevalidationBaseline {
            dependencies,
            files,
            findings: OrderedSet::from_items(list_finding_keys(&report.findings)),
            diagnostics: OrderedSet::from_items(list_diagnostic_keys(&report.diagnostics)),
            import_gaps: import_gap_keys(report),
        }
    }
}

/// The commands that failed.
pub open spec fn failed_commands(
    items: Seq<CommandExecutionModel>,
    start: Seq<Seq<char>>,
) -> Seq<Seq<char>>
    decreases items.len(),
{
    if items.len() == 0 {
        start
    } else {
        let rest = failed_commands(items.drop_last(), start);
        let last = items.last();
        if last.success {
            rest
        } else {
            rest.push(command_line(last.command))
        }
    }
}

fn list_failed_commands(
    items: &Vec<CommandExecution>,
    out: &mut Vec<String>,
)
    ensures
        final(out).deep_view() == failed_commands(items.deep_view(), old(out).deep_view()),
{
    let ghost start = out.deep_view();
    let ghost model = items.deep_view();
    let mut i: usize = 0;
    while i < items.len()
        invariant
            i <= items.len(),
            model == items.deep_view(),
            out.deep_view() =~= failed_commands(model.take(i as int), start),
        decreases items.len() - i,
    {
        proof {
            assert(model.take(i + 1).drop_last() =~= model.take(i as int));
            assert(model.take(i + 1).last() == items@[i as int].deep_view());
        }
        let item: &CommandExecution = &items[i];
        if !item.success {
            push_item(out, item.command.display_command());
        }
        i = i + 1;
    }
    assert(model.take(i as int) =~= model);
}

/// What came of applying a plan where a command failed; nothing where none did.
pub open spec fn judged_commands(
    executions: Seq<CommandExecutionModel>,
) -> Option<RevalidationOutcomeModel> {
    let failed = failed_commands(executions, Seq::empty());
    if failed.len() > 0 {
        Some(
            RevalidationOutcomeModel::Failed {
                diagnostics: seq!["package-manager command failed: "@ + joined(failed, ", "@)],
            },
        )
    } else {
        None
    }
}

/// What came of applying a plan where a command failed; nothing where none did.
#[must_use]
pub fn judge_commands(executions: &Vec<CommandExecution>) -> (r: Option<RevalidationOutcome>)
    ensures
        r.deep_view() == judged_commands(executions.deep_view()),
{
    let mut failed: Vec<String> = no_texts();
    list_failed_commands(executions, &mut failed);
    if failed.len() > 0 {
        Some(
            RevalidationOutcome::Failed {
                diagnostics: one_text(
                    &concat2("package-manager command failed: ", &join(&failed, ", ")),
                ),
            },
        )
    } else {
        None
    }
}

/// The removed dependencies that findings are still on.
pub open spec fn residual_dependencies(
    items: Seq<FindingModel>,
    start: Seq<Seq<char>>,
    removed: Seq<Seq<char>>,
) -> Seq<Seq<char>>
    decreases items.len(),
{
    if items.len() == 0 {
        start
    } else {
        let rest = residual_dependencies(items.drop_last(), start, removed);
        let last = items.last();
        match last.dependency {
            Some(dependency) => if removed.contains(qualified_name(last.workspace, dependency)) {
                rest.push(qualified_name(last.workspace, dependency))
            } else {
                rest
            },
            None => rest,
        }
    }
}

fn list_residual_dependencies(
    items: &Vec<Finding>,
    removed: &OrderedSet<String>,
    out: &mut Vec<String>,
)
    ensures
        final(out).deep_view() == residual_dependencies(items.deep_view(), old(out).deep_view(), removed.deep_view()),
{
    let ghost start = out.deep_view();
    let ghost removed_model = removed.deep_view();
    let ghost model = items.deep_view();
    let mut i: usize = 0;
    while i < items.len()
        invariant
            i <= items.len(),
            model == items.deep_view(),
            removed_model == removed.deep_view(),
            out.deep_view() =~= residual_dependencies(model.take(i as int), start, removed_model),
        decreases items.len() - i,
    {
        proof {
            assert(model.take(i + 1).drop_last() =~= model.take(i as int));
            assert(model.take(i + 1).last() == items@[i as int].deep_view());
        }
        let item: &Finding = &items[i];
        if let Some(dependency) = &item.dependency {
            let qualified: String = concat3(&item.workspace, ":", dependency);
            if removed.contains(&qualified) {
                push_item(out, qualified);
            }
        }
        i = i + 1;
    }
    assert(model.take(i as int) =~= model);
}

/// The deleted files that are still there.
pub open spec fn residual_files(
    items: Seq<FileReportModel>,
    start: Seq<Seq<char>>,
    removed: Seq<Seq<char>>,
) -> Seq<Seq<char>>
    decreases items.len(),
{
    if items.len() == 0 {
        start
    } else {
        let rest = residual_files(items.drop_last(), start, removed);
        let last = items.last();
        if removed.contains(last.path) {
            rest.push(last.path)
        } else {
            rest
        }
    }
}

fn list_residual_files(
    items: &Vec<FileReport>,
    removed: &OrderedSet<String>,
    out: &mut Vec<String>,
)
    ensures
        final(out).deep_view() == residual_files(items.deep_view(), old(out).deep_view(), removed.deep_view()),
{
    let ghost start = out.deep_view();
    let ghost removed_model = removed.deep_view();
    let ghost model = items.deep_view();
    let mut i: usize = 0;
    while i < items.len()
        invariant
            i <= items.len(),
            model == items.deep_view(),
            removed_model == removed.deep_view(),
            out.deep_view() =~= residual_files(model.take(i as int), start, removed_model),
        decreases items.len() - i,
    {
        proof {
            assert(model.take(i + 1).drop_last() =~= model.take(i as int));
            assert(model.take(i + 1).last() == items@[i as int].deep_view());
        }
        let item: &FileReport = &items[i];
        if removed.contains(&item.path) {
            push_item(out, item.path.replicate());
        }
        i = i + 1;
    }
    assert(model.take(i as int) =~= model);
}

/// What speaks against a project after fixes, where something of a kind was found.
pub open spec fn with_failure(
    failures: Seq<Seq<char>>,
    title: Seq<char>,
    found: Seq<Seq<char>>,
) -> Seq<Seq<char>> {
    if found.len() > 0 {
        failures.push(title + joined(found, ", "@))
    } else {
        failures
    }
}

fn add_failure(failures: &mut Vec<String>, title: &str, found: &Vec<String>)
    ensures
        final(failures).deep_view() == with_failure(
            old(failures).deep_view(),
            title@,
            found.deep_view(),
        ),
{
    if found.len() > 0 {
        push_item(failures, concat2(title, &join(found, ", ")));
    }
}

/// What is still there after fixes.
pub open spec fn residual(
    baseline: RevalidationBaselineModel,
    report: ScanReportModel,
) -> Seq<Seq<char>> {
    residual_files(
        report.files,
        residual_dependencies(report.findings, Seq::empty(), baseline.dependencies),
        baseline.files,
    )
}

/// What speaks against a project after fixes.
pub open spec fn revalidation_failures(
    baseline: RevalidationBaselineModel,
    report: ScanReportModel,
) -> Seq<Seq<char>> {
    let open = if report.status != AnalysisStatus::Complete {
        seq!["post-apply analysis is incomplete; inspect blocking diagnostics"@]
    } else {
        Seq::empty()
    };
    let remaining = with_failure(open, "findings remain for: "@, residual(baseline, report));
    let found = with_failure(
        remaining,
        "new findings appeared: "@,
        unavailable(finding_keys(report.findings), Seq::empty(), baseline.findings),
    );
    let told = with_failure(
        found,
        "new diagnostics appeared: "@,
        unavailable(diagnostic_keys(report.diagnostics), Seq::empty(), baseline.diagnostics),
    );
    with_failure(
        told,
        "new unresolved or unsupported imports appeared: "@,
        unavailable(
            gaps_of_files(report.files, Seq::empty()),
            Seq::empty(),
            baseline.import_gaps,
        ),
    )
}

/// What came of applying a plan, from the report on the project after it.
pub open spec fn judged(
    baseline: RevalidationBaselineModel,
    report: ScanReportModel,
) -> RevalidationOutcomeModel {
    let failures = revalidation_failures(baseline, report);
    if failures.len() == 0 {
        RevalidationOutcomeModel::Passed {
            notes: seq![
                "Post-apply scan is complete with no new findings, diagnostics, or import gaps"@,
            ],
        }
    } else {
        RevalidationOutcomeModel::Failed { diagnostics: failures }
    }
}

/// Decides what came of applying a plan, from the report on the project after it.
#[must_use]
pub fn revalidate(baseline: &RevalidationBaseline, report: &ScanReport) -> (r: RevalidationOutcome)
    ensures
        r.deep_view() == judged(baseline.deep_view(), report.deep_view()),
{
    let mut failures: Vec<String> = if report.status != AnalysisStatus::Complete {
        one_text("post-apply analysis is incomplete; inspect blocking diagnostics")
    } else {
        no_texts()
    };
    let mut remaining: Vec<String> = no_texts();
    list_residual_dependencies(&report.findings, &baseline.dependencies, &mut remaining);
    list_residual_files(&report.files, &baseline.files, &mut remaining);
    add_failure(&mut failures, "findings remain for: ", &remaining);
    let mut new_findings: Vec<String> = no_texts();
    choose_unavailable(
        &list_finding_keys(&report.findings),
        &baseline.findings,
        &mut new_findings,
    );
    add_failure(&mut failures, "new findings appeared: ", &new_findings);
    let mut new_diagnostics: Vec<String> = no_texts();
    choose_unavailable(
        &list_diagnostic_keys(&report.diagnostics),
        &baseline.diagnostics,
        &mut new_diagnostics,
    );
    add_failure(&mut failures, "new diagnostics appeared: ", &new_diagnostics);
    let mut new_gaps: Vec<String> = no_texts();
    choose_unavailable(import_gap_keys(report).items(), &baseline.import_gaps, &mut new_gaps);
    add_failure(
        &mut failures,
        "new unresolved or unsupported imports appeared: ",
        &new_gaps,
    );
    if failures.len() == 0 {
        RevalidationOutcome::Passed {
            notes: one_text(
                "Post-apply scan is complete with no new findings, diagnostics, or import gaps",
            ),
        }
    } else {
        RevalidationOutcome::Failed { diagnostics: failures }
    }
}

proof fn available_where_none_is_left(
    items: Seq<Seq<char>>,
    start: Seq<Seq<char>>,
    selected: Seq<Seq<char>>,
    i: int,
)
    requires
        0 <= i < items.len(),
        unavailable(items, start, selected).len() == 0,
    ensures
        selected.contains(items[i]),
    decreases items.len(),
{
    if i < items.len() - 1 {
        assert(items.drop_last()[i] == items[i]);
        available_where_none_is_left(items.drop_last(), start, selected, i);
    }
}

proof fn no_file_is_left(
    files: Seq<FileReportModel>,
    start: Seq<Seq<char>>,
    removed: Seq<Seq<char>>,
    i: int,
)
    requires
        0 <= i < files.len(),
        residual_files(files, start, removed).len() == 0,
    ensures
        !removed.contains(files[i].path),
        start.len() == 0,
    decreases files.len(),
{
    let front = files.drop_last();
    if i < files.len() - 1 {
        assert(front[i] == files[i]);
        no_file_is_left(front, start, removed, i);
    } else {
        residual_files_grow(front, start, removed);
    }
}

proof fn residual_files_grow(
    files: Seq<FileReportModel>,
    start: Seq<Seq<char>>,
    removed: Seq<Seq<char>>,
)
    ensures
        residual_files(files, start, removed).len() >= start.len(),
    decreases files.len(),
{
    if files.len() > 0 {
        residual_files_grow(files.drop_last(), start, removed);
    }
}

proof fn no_dependency_is_left(
    findings: Seq<FindingModel>,
    removed: Seq<Seq<char>>,
    i: int,
)
    requires
        0 <= i < findings.len(),
        residual_dependencies(findings, Seq::empty(), removed).len() == 0,
    ensures
        findings[i].dependency matches Some(dependency) ==> !removed.contains(
            qualified_name(findings[i].workspace, dependency),
        ),
    decreases findings.len(),
{
    if i < findings.len() - 1 {
        assert(findings.drop_last()[i] == findings[i]);
        no_dependency_is_left(findings.drop_last(), removed, i);
    }
}

/// Where the look at a project after fixes finds nothing against it, its analysis is complete;
/// every finding, diagnostic and import that leads to nothing was there before; and nothing
/// that was removed is left.
pub proof fn passing_means_nothing_new(
    baseline: RevalidationBaselineModel,
    report: ScanReportModel,
)
    requires
        judged(baseline, report) is Passed,
    ensures
        report.status == AnalysisStatus::Complete,
        forall|i: int|
            0 <= i < report.findings.len() ==> baseline.findings.contains(
                key_of_finding(#[trigger] report.findings[i]),
            ),
        forall|i: int|
            0 <= i < report.diagnostics.len() ==> baseline.diagnostics.contains(
                key_of_diagnostic(#[trigger] report.diagnostics[i]),
            ),
        forall|i: int|
            0 <= i < gaps_of_files(report.files, Seq::empty()).len()
                ==> baseline.import_gaps.contains(
                #[trigger] gaps_of_files(report.files, Seq::empty())[i],
            ),
        forall|i: int|
            0 <= i < report.files.len() ==> !baseline.files.contains(
                (#[trigger] report.files[i]).path,
            ),
        forall|i: int|
            0 <= i < report.findings.len() ==> ((#[trigger] report.findings[i]).dependency matches Some(
                dependency,
            ) ==> !baseline.dependencies.contains(
                qualified_name(report.findings[i].workspace, dependency),
            )),
{
    let findings = finding_keys(report.findings);
    let diagnostics = diagnostic_keys(report.diagnostics);
    let gaps = gaps_of_files(report.files, Seq::empty());
    let dependencies = residual_dependencies(
        report.findings,
        Seq::empty(),
        baseline.dependencies,
    );
    residual_files_grow(report.files, dependencies, baseline.files);
    assert forall|i: int| 0 <= i < report.findings.len() implies baseline.findings.contains(
        key_of_finding(#[trigger] report.findings[i]),
    ) by {
        assert(findings[i] == key_of_finding(report.findings[i]));
        available_where_none_is_left(findings, Seq::empty(), baseline.findings, i);
    }
    assert forall|i: int|
        0 <= i < report.diagnostics.len() implies baseline.diagnostics.contains(
        key_of_diagnostic(#[trigger] report.diagnostics[i]),
    ) by {
        assert(diagnostics[i] == key_of_diagnostic(report.diagnostics[i]));
        available_where_none_is_left(diagnostics, Seq::empty(), baseline.diagnostics, i);
    }
    assert forall|i: int| 0 <= i < gaps.len() implies baseline.import_gaps.contains(
        #[trigger] gaps[i],
    ) by {
        available_where_none_is_left(gaps, Seq::empty(), baseline.import_gaps, i);
    }
    assert forall|i: int| 0 <= i < report.files.len() implies !baseline.files.contains(
        (#[trigger] report.files[i]).path,
    ) by {
        no_file_is_left(report.files, dependencies, baseline.files, i);
    }
    assert forall|i: int| 0 <= i < report.findings.len() implies ((
    #[trigger] report.findings[i]).dependency matches Some(dependency)
        ==> !baseline.dependencies.contains(
        qualified_name(report.findings[i].workspace, dependency),
    )) by {
        no_dependency_is_left(report.findings, baseline.dependencies, i);
    }
}

/// Whether the change of a file is the deletion of a selected one, with the content that was
/// reported.
pub open spec fn deletes_selected(
    change: FileChangeModel,
    requested: Seq<Seq<char>>,
    files: Seq<FileReportModel>,
) -> bool {
    &&& requested.contains(change.path)
    &&& change.edits is None
    &&& report_of_file(files, change.path) matches Some(file) && digest_of_hex(file.content_digest)
        == Some(change.expected_content.0)
}

/// Whether all changes of files are deletions of selected ones, with the content that was
/// reported.
pub open spec fn only_deletes_selected(
    changes: Seq<FileChangeModel>,
    requested: Seq<Seq<char>>,
    files: Seq<FileReportModel>,
) -> bool {
    forall|i: int|
        0 <= i < changes.len() ==> deletes_selected(#[trigger] changes[i], requested, files)
}

proof fn file_fixes_are_selected(
    paths: Seq<Seq<char>>,
    state: FixSelectionModel,
    summary: Seq<char>,
    requested: Seq<Seq<char>>,
    files: Seq<FileReportModel>,
)
    requires
        only_deletes_selected(state.plan.file_changes, requested, files),
    ensures
        with_file_fixes(paths, state, summary, requested, files) matches Ok(after)
            ==> only_deletes_selected(after.plan.file_changes, requested, files)
            && after.removals == state.removals,
    decreases paths.len(),
{
    if paths.len() > 0 {
        file_fixes_are_selected(paths.drop_last(), state, summary, requested, files);
    }
}

/// Whether a removal was selected, by the name of the dependency or behind its package.
pub open spec fn removes_selected(
    removal: DependencyRemovalModel,
    workspace: Seq<char>,
    requested: Seq<Seq<char>>,
) -> bool {
    requested.contains(removal.dependency.name) || requested.contains(
        qualified_name(workspace, removal.dependency.name),
    )
}

/// Whether everything that is removed from packages was selected.
pub open spec fn only_removes_selected(
    removals: Seq<(Seq<char>, Seq<DependencyRemovalModel>)>,
    requested: Seq<Seq<char>>,
) -> bool {
    forall|workspace: Seq<char>, i: int|
        0 <= i < removals_from(removals, workspace).len() ==> removes_selected(
            #[trigger] removals_from(removals, workspace)[i],
            workspace,
            requested,
        )
}

proof fn removals_are_selected(
    state: FixSelectionModel,
    finding: FindingModel,
    dependency: Seq<char>,
    requested: Seq<Seq<char>>,
    findings: Seq<FindingModel>,
    apply: bool,
)
    requires
        ascending::<String>(keys_of(state.removals)),
        only_removes_selected(state.removals, requested),
    ensures
        with_dependency_fix(state, finding, dependency, requested, findings, apply) matches Ok(after)
            ==> after.plan == state.plan && ascending::<String>(keys_of(after.removals))
            && only_removes_selected(after.removals, requested),
{
    match with_dependency_fix(state, finding, dependency, requested, findings, apply) {
        Ok(after) => {
            if after.removals != state.removals {
                let removal = DependencyRemovalModel {
                    dependency: DirectDependencyModel {
                        name: dependency,
                        kind: DependencyKind::Production,
                    },
                    reason: finding.summary,
                };
                let old_ones = removals_from(state.removals, finding.workspace);
                let all = old_ones.push(removal);
                with_entry_keys::<String, Seq<DependencyRemovalModel>>(
                    state.removals,
                    finding.workspace,
                    all,
                );
                with_item_ascending::<String>(keys_of(state.removals), finding.workspace);
                lookup_after_with_entry::<String, Seq<DependencyRemovalModel>>(
                    state.removals,
                    finding.workspace,
                    all,
                );
                assert forall|workspace: Seq<char>, i: int|
                    0 <= i < removals_from(after.removals, workspace).len() implies removes_selected(
                    #[trigger] removals_from(after.removals, workspace)[i],
                    workspace,
                    requested,
                ) by {
                    if workspace == finding.workspace {
                        assert(removals_from(after.removals, workspace) == all);
                        if i < old_ones.len() {
                            assert(all[i] == old_ones[i]);
                            assert(removes_selected(
                                removals_from(state.removals, workspace)[i],
                                workspace,
                                requested,
                            ));
                        }
                    } else {
                        lookup_other_after_with_entry::<String, Seq<DependencyRemovalModel>>(
                            state.removals,
                            finding.workspace,
                            all,
                            workspace,
                        );
                        assert(removes_selected(
                            removals_from(state.removals, workspace)[i],
                            workspace,
                            requested,
                        ));
                    }
                }
            }
        },
        Err(_) => {},
    }
}

proof fn fixes_are_selected(
    items: Seq<FindingModel>,
    request: FixRequestModel,
    findings: Seq<FindingModel>,
    files: Seq<FileReportModel>,
    managed: bool,
    apply: bool,
)
    ensures
        with_fixes(items, empty_selection(), request, findings, files, managed, apply) matches Ok(after)
            ==> only_deletes_selected(after.plan.file_changes, request.files, files)
            && after.plan.package_commands.len() == 0 && ascending::<String>(
            keys_of(after.removals),
        ) && only_removes_selected(after.removals, request.dependencies),
    decreases items.len(),
{
    if items.len() > 0 {
        let finding = items.last();
        fixes_are_selected(items.drop_last(), request, findings, files, managed, apply);
        match with_fixes(
            items.drop_last(),
            empty_selection(),
            request,
            findings,
            files,
            managed,
            apply,
        ) {
            Ok(state) => {
                if finding.issue_type == "unusedDependency"@ && can_be_planned(
                    finding.fix_eligibility,
                    apply,
                ) && managed && finding.dependency is Some {
                    removals_are_selected(
                        state,
                        finding,
                        finding.dependency->0,
                        request.dependencies,
                        findings,
                        apply,
                    );
                } else if finding.issue_type == "unusedFiles"@ && finding.fix_eligibility
                    == FixEligibility::Eligible {
                    file_fixes_are_selected(
                        finding.paths,
                        state,
                        finding.summary,
                        request.files,
                        files,
                    );
                    file_fixes_keep_commands(
                        finding.paths,
                        state,
                        finding.summary,
                        request.files,
                        files,
                    );
                }
            },
            Err(_) => {},
        }
    }
}

proof fn file_fixes_keep_commands(
    paths: Seq<Seq<char>>,
    state: FixSelectionModel,
    summary: Seq<char>,
    requested: Seq<Seq<char>>,
    files: Seq<FileReportModel>,
)
    ensures
        with_file_fixes(paths, state, summary, requested, files) matches Ok(after)
            ==> after.plan.package_commands == state.plan.package_commands,
    decreases paths.len(),
{
    if paths.len() > 0 {
        file_fixes_keep_commands(paths.drop_last(), state, summary, requested, files);
    }
}

proof fn commands_keep_changes(
    removals: Seq<(Seq<char>, Seq<DependencyRemovalModel>)>,
    plan: FixPlanModel,
    manager: PackageManager,
    manifests: Seq<(Seq<char>, AnalyzedManifestModel)>,
)
    ensures
        with_commands(removals, plan, manager, manifests) matches Ok(after)
            ==> after.file_changes == plan.file_changes,
    decreases removals.len(),
{
    if removals.len() > 0 {
        commands_keep_changes(removals.drop_last(), plan, manager, manifests);
    }
}

/// A plan changes nothing that was not selected: each change of a file is the deletion of a
/// selected one with the content that was reported, and each dependency that is removed from a
/// package was selected. Everything that was selected is in the plan.
pub proof fn plans_hold_what_was_selected(
    request: FixRequestModel,
    report: ScanReportModel,
    manager: Option<PackageManager>,
    manifests: Seq<(Seq<char>, AnalyzedManifestModel)>,
    apply: bool,
)
    requires
        planned_fixes(request, report, manager, manifests, apply) is Ok,
    ensures
        ({
            let selection = planned_fixes(request, report, manager, manifests, apply)->Ok_0;
            &&& only_deletes_selected(selection.plan.file_changes, request.files, report.files)
            &&& only_removes_selected(selection.removals, request.dependencies)
            &&& forall|i: int|
                0 <= i < request.files.len() ==> selection.files.contains(
                    #[trigger] request.files[i],
                )
            &&& forall|i: int|
                0 <= i < request.dependencies.len() ==> selection.selectors.contains(
                    #[trigger] request.dependencies[i],
                )
        }),
{
    fixes_are_selected(
        report.findings,
        request,
        report.findings,
        report.files,
        manager is Some,
        apply,
    );
    let selection = with_fixes(
        report.findings,
        empty_selection(),
        request,
        report.findings,
        report.files,
        manager is Some,
        apply,
    )->Ok_0;
    if selection.removals.len() > 0 && manager is Some {
        commands_keep_changes(selection.removals, selection.plan, manager->0, manifests);
    }
    assert forall|i: int| 0 <= i < request.files.len() implies selection.files.contains(
        #[trigger] request.files[i],
    ) by {
        available_where_none_is_left(request.files, Seq::empty(), selection.files, i);
    }
    assert forall|i: int|
        0 <= i < request.dependencies.len() implies selection.selectors.contains(
        #[trigger] request.dependencies[i],
    ) by {
        available_where_none_is_left(
            request.dependencies,
            Seq::empty(),
            selection.selectors,
            i,
        );
    }
}

} // verus!
