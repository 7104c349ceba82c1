//! What the configuration of a project makes of findings.

use crate::analysis::packages::{npm_package, package_name};
use crate::application::patterns::{hits, pattern_matches};
use crate::application::profiles::{statuses_of, summarize};
use crate::application::scan::status_count;
use crate::collections::{
    collected, keys_of, lookup, with_entry, with_item, with_item_contains, OrderedMap, OrderedSet,
};
use crate::discovery::segments::{ScriptReference, ScriptReferenceModel};
use crate::discovery::workspace::{
    context_named, find_named_context, owner_name, owner_root, ConfidenceLevel,
    PackageContext, PackageContextModel, RetainRule, RetainRuleModel, WorkspaceDiscovery,
    WorkspaceDiscoveryModel,
};
use crate::domain::facts::{AnalysisDiagnostic, AnalysisDiagnosticModel};
use crate::domain::report::{
    Confidence, FileReport, FileReportModel, FileStatus, Finding, FindingModel, FixEligibility,
    ImportReport, ImportReportModel, ReportSummary, RetentionReport, RetentionReportModel,
    ScanReport, ScanReportModel,
};
use crate::domain::target::WorldMode;
use crate::paths::{parsed, path_below, FilePath, PathPartModel};
use crate::plugins::contract::{
    DetectedBuiltinPlugin, DetectedBuiltinPluginModel, ExportRootContribution,
    ExportRootContributionModel, MemberRootContribution, MemberRootContributionModel,
    PatternContribution, PatternContributionModel,
};
use crate::text::{concat2, concat3, ends_with, join, joined, no_texts, one_text, same};
use crate::values::{append_items, push_item, Ordered, Value};
use vstd::prelude::*;

verus! {

/// Target profiles of a finding, where those that it was made without stand for all.
pub open spec fn profiles_for(own: Seq<Seq<char>>, profiles: Seq<Seq<char>>) -> Seq<Seq<char>> {
    if own.len() == 1 && own[0] == "default"@ {
        profiles
    } else {
        own
    }
}

fn choose_profiles(own: &Vec<String>, profiles: &Vec<String>) -> (r: Vec<String>)
    ensures
        r.deep_view() == profiles_for(own.deep_view(), profiles.deep_view()),
{
    if own.len() == 1 {
        assert(own.deep_view()[0] == own@[0]@);
        if same(&own[0], "default") {
            return profiles.replicate();
        }
    }
    own.replicate()
}

/// A finding with the package that it belongs to and its target profiles.
pub open spec fn placed_finding(
    finding: FindingModel,
    project: WorkspaceDiscoveryModel,
    profiles: Seq<Seq<char>>,
) -> FindingModel {
    FindingModel {
        workspace: if finding.paths.len() > 0 {
            owner_name(project.packages, parsed(finding.paths[0]))
        } else {
            finding.workspace
        },
        target_profiles: profiles_for(finding.target_profiles, profiles),
        ..finding
    }
}

fn place_finding(finding: &Finding, project: &WorkspaceDiscovery, profiles: &Vec<String>) -> (r:
    Finding)
    ensures
        r.deep_view() == placed_finding(
            finding.deep_view(),
            project.deep_view(),
            profiles.deep_view(),
        ),
{
    let mut placed: Finding = finding.replicate();
    if finding.paths.len() > 0 {
        assert(finding.paths.deep_view()[0] == finding.paths@[0]@);
        placed.workspace = project.name_for_path(&FilePath::parse(&finding.paths[0]));
    }
    placed.target_profiles = choose_profiles(&finding.target_profiles, profiles);
    placed
}

/// A retention with its target profiles.
pub open spec fn placed_retention(
    retention: RetentionReportModel,
    profiles: Seq<Seq<char>>,
) -> RetentionReportModel {
    RetentionReportModel {
        target_profiles: profiles_for(retention.target_profiles, profiles),
        ..retention
    }
}

fn place_retention(retention: &RetentionReport, profiles: &Vec<String>) -> (r: RetentionReport)
    ensures
        r.deep_view() == placed_retention(retention.deep_view(), profiles.deep_view()),
{
    let mut placed: RetentionReport = retention.replicate();
    placed.target_profiles = choose_profiles(&retention.target_profiles, profiles);
    placed
}

/// Findings with the packages that they belong to and their target profiles.
pub open spec fn placed_findings(
    items: Seq<FindingModel>,
    project: WorkspaceDiscoveryModel,
    profiles: Seq<Seq<char>>,
) -> Seq<FindingModel> {
    items.map_values(|item: FindingModel| placed_finding(item, project, profiles))
}

fn place_findings(
    items: &Vec<Finding>,
    project: &WorkspaceDiscovery,
    profiles: &Vec<String>,
) -> (r: Vec<Finding>)
    ensures
        r.deep_view() == placed_findings(items.deep_view(), project.deep_view(), profiles.deep_view()),
{
    let ghost project_model = project.deep_view();
    let ghost profiles_model = profiles.deep_view();
    let mut out: Vec<Finding> = Vec::new();
    let ghost model = items.deep_view();
    let mut i: usize = 0;
    while i < items.len()
        invariant
            i <= items.len(),
            model == items.deep_view(),
            project_model == project.deep_view(),
            profiles_model == profiles.deep_view(),
            out.deep_view() =~= placed_findings(model.take(i as int), project_model, profiles_model),
        decreases items.len() - i,
    {
        proof {
            assert(model.take(i + 1).drop_last() =~= model.take(i as int));
            assert(model.take(i + 1).last() == items@[i as int].deep_view());
        }
        assert(model.take(i + 1) =~= model.take(i as int).push(items@[i as int].deep_view()));
        let item: &Finding = &items[i];
        push_item(&mut out, place_finding(item, project, profiles));
        i = i + 1;
    }
    assert(model.take(i as int) =~= model);
    out
}

/// Retentions with their target profiles.
pub open spec fn placed_retentions(
    items: Seq<RetentionReportModel>,
    profiles: Seq<Seq<char>>,
) -> Seq<RetentionReportModel> {
    items.map_values(|item: RetentionReportModel| placed_retention(item, profiles))
}

fn place_retentions(
    items: &Vec<RetentionReport>,
    profiles: &Vec<String>,
) -> (r: Vec<RetentionReport>)
    ensures
        r.deep_view() == placed_retentions(items.deep_view(), profiles.deep_view()),
{
    let ghost profiles_model = profiles.deep_view();
    let mut out: Vec<RetentionReport> = Vec::new();
    let ghost model = items.deep_view();
    let mut i: usize = 0;
    while i < items.len()
        invariant
            i <= items.len(),
            model == items.deep_view(),
            profiles_model == profiles.deep_view(),
            out.deep_view() =~= placed_retentions(model.take(i as int), profiles_model),
        decreases items.len() - i,
    {
        proof {
            assert(model.take(i + 1).drop_last() =~= model.take(i as int));
            assert(model.take(i + 1).last() == items@[i as int].deep_view());
        }
        assert(model.take(i + 1) =~= model.take(i as int).push(items@[i as int].deep_view()));
        let item: &RetentionReport = &items[i];
        push_item(&mut out, place_retention(item, profiles));
        i = i + 1;
    }
    assert(model.take(i as int) =~= model);
    out
}

/// A report whose findings are placed.
pub open spec fn with_context(
    report: ScanReportModel,
    project: WorkspaceDiscoveryModel,
    profiles: Seq<Seq<char>>,
) -> ScanReportModel {
    ScanReportModel {
        findings: placed_findings(report.findings, project, profiles),
        retentions: placed_retentions(report.retentions, profiles),
        ..report
    }
}

/// Gives each finding the package that it belongs to, and its target profiles.
pub fn assign_project_context(
    workspace: &WorkspaceDiscovery,
    profiles: &Vec<String>,
    report: &mut ScanReport,
)
    ensures
        final(report).deep_view() == with_context(old(report).deep_view(), workspace.deep_view(), profiles.deep_view()),
{
    report.findings = place_findings(&report.findings, workspace, profiles);
    report.retentions = place_retentions(&report.retentions, profiles);
}

/// What is concluded of each file.
pub open spec fn status_table(items: Seq<FileReportModel>) -> Seq<(Seq<char>, FileStatus)>
    decreases items.len(),
{
    if items.len() == 0 {
        Seq::empty()
    } else {
        let rest = status_table(items.drop_last());
        let last = items.last();
        with_entry::<String, FileStatus>(rest, last.path, last.status)
    }
}

fn table_of_statuses(files: &Vec<FileReport>) -> (r: OrderedMap<String, FileStatus>)
    ensures
        r.deep_view() == status_table(files.deep_view()),
{
    let mut table: OrderedMap<String, FileStatus> = OrderedMap::new();
    let ghost model = files.deep_view();
    let mut i: usize = 0;
    while i < files.len()
        invariant
            i <= files.len(),
            model == files.deep_view(),
            table.deep_view() == status_table(model.take(i as int)),
        decreases files.len() - i,
    {
        proof {
            assert(model.take(i + 1).drop_last() =~= model.take(i as int));
            assert(model.take(i + 1).last() == files@[i as int].deep_view());
        }
        table.insert(files[i].path.replicate(), files[i].status);
        i = i + 1;
    }
    assert(model.take(i as int) =~= model);
    table
}

/// Whether nothing outside a project can use a package.
pub open spec fn is_closed(contexts: Seq<PackageContextModel>, workspace: Seq<char>) -> bool {
    match context_named(contexts, workspace) {
        Some(place) => match contexts[place as int].effective.world {
            Some(world) => world == WorldMode::Closed,
            None => true,
        },
        None => false,
    }
}

fn is_closed_world(contexts: &Vec<PackageContext>, workspace: &str) -> (r: bool)
    ensures
        r == is_closed(contexts.deep_view(), workspace@),
{
    match find_named_context(contexts, workspace) {
        Some(place) => {
            assert(contexts.deep_view()[place as int] == contexts@[place as int].deep_view());
            match contexts[place].effective.world {
                Some(world) => world == WorldMode::Closed,
                None => true,
            }
        },
        None => false,
    }
}

/// Whether one of some files is not unreachable.
pub open spec fn some_not_unreachable(
    items: Seq<Seq<char>>,
    statuses: Seq<(Seq<char>, FileStatus)>,
) -> bool {
    exists|i: int| 0 <= i < items.len() && some_not_unreachable_at(#[trigger] items[i], statuses)
}

/// Whether this holds of one.
pub open spec fn some_not_unreachable_at(
    item: Seq<char>,
    statuses: Seq<(Seq<char>, FileStatus)>,
) -> bool {
    lookup(statuses, item) != Some(FileStatus::Unreachable)
}

fn has_not_unreachable(items: &Vec<String>, statuses: &OrderedMap<String, FileStatus>) -> (r: bool)
    ensures
        r == some_not_unreachable(items.deep_view(), statuses.deep_view()),
{
    let ghost statuses_model = statuses.deep_view();
    let ghost model = items.deep_view();
    let mut i: usize = 0;
    while i < items.len()
        invariant
            i <= items.len(),
            model == items.deep_view(),
            statuses_model == statuses.deep_view(),
            forall|k: int| 0 <= k < i ==> !some_not_unreachable_at(#[trigger] model[k], statuses_model),
        decreases items.len() - i,
    {
        assert(model[i as int] == items@[i as int].deep_view());
        let item: &String = &items[i];
        if !(match statuses.get(item) {
            Some(status) => *status == FileStatus::Unreachable,
            None => false,
        }) {
            return true;
        }
        i = i + 1;
    }
    false
}

/// A finding with whether its files can be removed: where it is sure that they are unused,
/// nothing outside can use them, no target profile uses them, and none is used.
pub open spec fn fixable_finding(
    finding: FindingModel,
    contexts: Seq<PackageContextModel>,
    profiles: Seq<Seq<char>>,
    statuses: Seq<(Seq<char>, FileStatus)>,
) -> FindingModel {
    if finding.issue_type != "unusedFiles"@ || finding.confidence != Confidence::High {
        finding
    } else {
        FindingModel {
            fix_eligibility: if is_closed(contexts, finding.workspace) && collected::<String>(
                finding.target_profiles,
            ) == collected::<String>(profiles) && !some_not_unreachable(finding.paths, statuses) {
                FixEligibility::Eligible
            } else {
                FixEligibility::PreviewOnly
            },
            ..finding
        }
    }
}

fn fix_finding(
    finding: &Finding,
    contexts: &Vec<PackageContext>,
    profiles: &Vec<String>,
    statuses: &OrderedMap<String, FileStatus>,
) -> (r: Finding)
    ensures
        r.deep_view() == fixable_finding(
            finding.deep_view(),
            contexts.deep_view(),
            profiles.deep_view(),
            statuses.deep_view(),
        ),
{
    let mut fixable: Finding = finding.replicate();
    if same(finding.issue_type, "unusedFiles") && finding.confidence == Confidence::High {
        let closed: bool = is_closed_world(contexts, &finding.workspace);
        let own: OrderedSet<String> = OrderedSet::from_items(finding.target_profiles.replicate());
        let selected: OrderedSet<String> = OrderedSet::from_items(profiles.replicate());
        let everywhere: bool = own.same_value(&selected);
        let unreachable: bool = !has_not_unreachable(&finding.paths, statuses);
        fixable.fix_eligibility = if closed && everywhere && unreachable {
            FixEligibility::Eligible
        } else {
            FixEligibility::PreviewOnly
        };
    }
    fixable
}

/// Findings with whether they can be applied.
pub open spec fn fixable_findings(
    items: Seq<FindingModel>,
    contexts: Seq<PackageContextModel>,
    profiles: Seq<Seq<char>>,
    statuses: Seq<(Seq<char>, FileStatus)>,
) -> Seq<FindingModel> {
    items.map_values(|item: FindingModel| fixable_finding(item, contexts, profiles, statuses))
}

fn fix_findings(
    items: &Vec<Finding>,
    contexts: &Vec<PackageContext>,
    profiles: &Vec<String>,
    statuses: &OrderedMap<String, FileStatus>,
) -> (r: Vec<Finding>)
    ensures
        r.deep_view() == fixable_findings(items.deep_view(), contexts.deep_view(), profiles.deep_view(), statuses.deep_view()),
{
    let ghost contexts_model = contexts.deep_view();
    let ghost profiles_model = profiles.deep_view();
    let ghost statuses_model = statuses.deep_view();
    let mut out: Vec<Finding> = Vec::new();
    let ghost model = items.deep_view();
    let mut i: usize = 0;
    while i < items.len()
        invariant
            i <= items.len(),
            model == items.deep_view(),
            contexts_model == contexts.deep_view(),
            profiles_model == profiles.deep_view(),
            statuses_model == statuses.deep_view(),
            out.deep_view() =~= fixable_findings(model.take(i as int), contexts_model, profiles_model, statuses_model),
        decreases items.len() - i,
    {
        proof {
            assert(model.take(i + 1).drop_last() =~= model.take(i as int));
            assert(model.take(i + 1).last() == items@[i as int].deep_view());
        }
        assert(model.take(i + 1) =~= model.take(i as int).push(items@[i as int].deep_view()));
        let item: &Finding = &items[i];
        push_item(&mut out, fix_finding(item, contexts, profiles, statuses));
        i = i + 1;
    }
    assert(model.take(i as int) =~= model);
    out
}

/// A report whose findings on files say whether they can be applied.
pub open spec fn with_fix_eligibility(
    report: ScanReportModel,
    contexts: Seq<PackageContextModel>,
    profiles: Seq<Seq<char>>,
) -> ScanReportModel {
    ScanReportModel {
        findings: fixable_findings(
            report.findings,
            contexts,
            profiles,
            status_table(report.files),
        ),
        ..report
    }
}

/// Decides which findings on files can be applied.
pub fn apply_file_fix_eligibility(
    contexts: &Vec<PackageContext>,
    profiles: &Vec<String>,
    report: &mut ScanReport,
)
    ensures
        final(report).deep_view() == with_fix_eligibility(old(report).deep_view(), contexts.deep_view(), profiles.deep_view()),
{
    let statuses: OrderedMap<String, FileStatus> = table_of_statuses(&report.files);
    report.findings = fix_findings(&report.findings, contexts, profiles, &statuses);
}

/// Whether some file of a package is used.
pub open spec fn has_live_file(
    items: Seq<FileReportModel>,
    project: WorkspaceDiscoveryModel,
    root: Seq<PathPartModel>,
) -> bool {
    exists|i: int| 0 <= i < items.len() && has_live_file_at(#[trigger] items[i], project, root)
}

/// Whether this holds of one.
pub open spec fn has_live_file_at(
    item: FileReportModel,
    project: WorkspaceDiscoveryModel,
    root: Seq<PathPartModel>,
) -> bool {
    item.status == FileStatus::Reachable && owner_root(
        project.packages,
        parsed(item.path),
    ) == Some(root)
}

fn any_live_file(
    items: &Vec<FileReport>,
    project: &WorkspaceDiscovery,
    root: &FilePath,
) -> (r: bool)
    ensures
        r == has_live_file(items.deep_view(), project.deep_view(), root.deep_view()),
{
    let ghost project_model = project.deep_view();
    let ghost root_model = root.deep_view();
    let ghost model = items.deep_view();
    let mut i: usize = 0;
    while i < items.len()
        invariant
            i <= items.len(),
            model == items.deep_view(),
            project_model == project.deep_view(),
            root_model == root.deep_view(),
            forall|k: int| 0 <= k < i ==> !has_live_file_at(#[trigger] model[k], project_model, root_model),
        decreases items.len() - i,
    {
        assert(model[i as int] == items@[i as int].deep_view());
        let item: &FileReport = &items[i];
        if item.status == FileStatus::Reachable && project.belongs_to(&FilePath::parse(&item.path), root) {
            return true;
        }
        i = i + 1;
    }
    false
}

/// Whether some import names a package.
pub open spec fn imports_package(items: Seq<ImportReportModel>, name: Seq<char>) -> bool {
    exists|i: int| 0 <= i < items.len() && imports_package_at(#[trigger] items[i], name)
}

/// Whether this holds of one.
pub open spec fn imports_package_at(item: ImportReportModel, name: Seq<char>) -> bool {
    npm_package(item.specifier) == Some(name)
}

fn any_import_of(items: &Vec<ImportReport>, name: &str) -> (r: bool)
    ensures
        r == imports_package(items.deep_view(), name@),
{
    let ghost model = items.deep_view();
    let mut i: usize = 0;
    while i < items.len()
        invariant
            i <= items.len(),
            model == items.deep_view(),
            forall|k: int| 0 <= k < i ==> !imports_package_at(#[trigger] model[k], name@),
        decreases items.len() - i,
    {
        assert(model[i as int] == items@[i as int].deep_view());
        let item: &ImportReport = &items[i];
        if (match package_name(&item.specifier) {
            Some(package) => same(&package, name),
            None => false,
        }) {
            return true;
        }
        i = i + 1;
    }
    false
}

/// Whether some file of another package imports a package.
pub open spec fn imported_elsewhere(
    items: Seq<FileReportModel>,
    project: WorkspaceDiscoveryModel,
    root: Seq<PathPartModel>,
    name: Seq<char>,
) -> bool {
    exists|i: int| 0 <= i < items.len() && imported_elsewhere_at(#[trigger] items[i], project, root, name)
}

/// Whether this holds of one.
pub open spec fn imported_elsewhere_at(
    item: FileReportModel,
    project: WorkspaceDiscoveryModel,
    root: Seq<PathPartModel>,
    name: Seq<char>,
) -> bool {
    owner_root(project.packages, parsed(item.path)) is Some && owner_root(
        project.packages,
        parsed(item.path),
    ) != Some(root) && imports_package(item.imports, name)
}

fn is_imported_elsewhere(
    items: &Vec<FileReport>,
    project: &WorkspaceDiscovery,
    root: &FilePath,
    name: &str,
) -> (r: bool)
    ensures
        r == imported_elsewhere(items.deep_view(), project.deep_view(), root.deep_view(), name@),
{
    let ghost project_model = project.deep_view();
    let ghost root_model = root.deep_view();
    let ghost model = items.deep_view();
    let mut i: usize = 0;
    while i < items.len()
        invariant
            i <= items.len(),
            model == items.deep_view(),
            project_model == project.deep_view(),
            root_model == root.deep_view(),
            forall|k: int| 0 <= k < i ==> !imported_elsewhere_at(#[trigger] model[k], project_model, root_model, name@),
        decreases items.len() - i,
    {
        assert(model[i as int] == items@[i as int].deep_view());
        let item: &FileReport = &items[i];
        if project.package_for_path(&FilePath::parse(&item.path)).is_some() && !project.belongs_to(
            &FilePath::parse(&item.path),
            root,
        ) && any_import_of(&item.imports, name) {
            return true;
        }
        i = i + 1;
    }
    false
}

/// Whether some reference of scripts names a package.
pub open spec fn script_names(
    items: Seq<ScriptReferenceModel>,
    label: Seq<char>,
    root: Seq<PathPartModel>,
) -> bool {
    exists|i: int| 0 <= i < items.len() && script_names_at(#[trigger] items[i], label, root)
}

/// Whether this holds of one.
pub open spec fn script_names_at(
    item: ScriptReferenceModel,
    label: Seq<char>,
    root: Seq<PathPartModel>,
) -> bool {
    item.value == label || parsed(item.value) == root
}

fn any_script_names(items: &Vec<ScriptReference>, label: &str, root: &FilePath) -> (r: bool)
    ensures
        r == script_names(items.deep_view(), label@, root.deep_view()),
{
    let ghost root_model = root.deep_view();
    let ghost model = items.deep_view();
    let mut i: usize = 0;
    while i < items.len()
        invariant
            i <= items.len(),
            model == items.deep_view(),
            root_model == root.deep_view(),
            forall|k: int| 0 <= k < i ==> !script_names_at(#[trigger] model[k], label@, root_model),
        decreases items.len() - i,
    {
        assert(model[i as int] == items@[i as int].deep_view());
        let item: &ScriptReference = &items[i];
        if same(&item.value, label) || FilePath::parse(&item.value).same_value(root) {
            return true;
        }
        i = i + 1;
    }
    false
}

/// Whether the scripts of some package name a package.
pub open spec fn scripts_name(
    items: Seq<PackageContextModel>,
    label: Seq<char>,
    root: Seq<PathPartModel>,
) -> bool {
    exists|i: int| 0 <= i < items.len() && scripts_name_at(#[trigger] items[i], label, root)
}

/// Whether this holds of one.
pub open spec fn scripts_name_at(
    item: PackageContextModel,
    label: Seq<char>,
    root: Seq<PathPartModel>,
) -> bool {
    script_names(item.scripts.references, label, root)
}

fn any_scripts_name(items: &Vec<PackageContext>, label: &str, root: &FilePath) -> (r: bool)
    ensures
        r == scripts_name(items.deep_view(), label@, root.deep_view()),
{
    let ghost root_model = root.deep_view();
    let ghost model = items.deep_view();
    let mut i: usize = 0;
    while i < items.len()
        invariant
            i <= items.len(),
            model == items.deep_view(),
            root_model == root.deep_view(),
            forall|k: int| 0 <= k < i ==> !scripts_name_at(#[trigger] model[k], label@, root_model),
        decreases items.len() - i,
    {
        assert(model[i as int] == items@[i as int].deep_view());
        let item: &PackageContext = &items[i];
        if any_script_names(&item.scripts.references, label, root) {
            return true;
        }
        i = i + 1;
    }
    false
}

/// Whether a diagnostic leaves open what a package is used for.
pub open spec fn blocked_package(
    items: Seq<AnalysisDiagnosticModel>,
    project: WorkspaceDiscoveryModel,
    root: Seq<PathPartModel>,
) -> bool {
    exists|i: int| 0 <= i < items.len() && blocked_package_at(#[trigger] items[i], project, root)
}

/// Whether this holds of one.
pub open spec fn blocked_package_at(
    item: AnalysisDiagnosticModel,
    project: WorkspaceDiscoveryModel,
    root: Seq<PathPartModel>,
) -> bool {
    item.blocks_reachability && (item.path == "package.json"@ || owner_root(
        project.packages,
        parsed(item.path),
    ) == Some(root))
}

fn any_blocks_package(
    items: &Vec<AnalysisDiagnostic>,
    project: &WorkspaceDiscovery,
    root: &FilePath,
) -> (r: bool)
    ensures
        r == blocked_package(items.deep_view(), project.deep_view(), root.deep_view()),
{
    let ghost project_model = project.deep_view();
    let ghost root_model = root.deep_view();
    let ghost model = items.deep_view();
    let mut i: usize = 0;
    while i < items.len()
        invariant
            i <= items.len(),
            model == items.deep_view(),
            project_model == project.deep_view(),
            root_model == root.deep_view(),
            forall|k: int| 0 <= k < i ==> !blocked_package_at(#[trigger] model[k], project_model, root_model),
        decreases items.len() - i,
    {
        assert(model[i as int] == items@[i as int].deep_view());
        let item: &AnalysisDiagnostic = &items[i];
        if item.blocks_reachability && (same(&item.path, "package.json") || project.belongs_to(&FilePath::parse(&item.path), root)) {
            return true;
        }
        i = i + 1;
    }
    false
}

/// What a package calls itself, else where it is.
pub open spec fn package_label(context: PackageContextModel) -> Seq<char> {
    match context.package.manifest.name {
        Some(name) => name,
        None => context.workspace_name,
    }
}

fn label_of(context: &PackageContext) -> (r: String)
    ensures
        r@ == package_label(context.deep_view()),
{
    match &context.package.manifest.name {
        Some(name) => name.replicate(),
        None => context.workspace_name.replicate(),
    }
}

/// Why a package of a project is kept, if it is: it can be published, one of its files is
/// used, another package imports it, a script names it, or that is not known.
pub open spec fn package_evidence(
    context: PackageContextModel,
    contexts: Seq<PackageContextModel>,
    project: WorkspaceDiscoveryModel,
    report: ScanReportModel,
) -> Option<Seq<char>> {
    let root = context.package.root;
    if !context.package.manifest.private {
        Some("The package is publishable and therefore open world"@)
    } else if has_live_file(report.files, project, root) {
        Some("At least one package file is reachable from a configured root"@)
    } else if (match context.package.manifest.name {
        Some(name) => imported_elsewhere(report.files, project, root, name),
        None => false,
    }) {
        Some("Another workspace imports the package by its declared name"@)
    } else if scripts_name(contexts, package_label(context), root) {
        Some("A reachable package script references the workspace"@)
    } else if blocked_package(report.diagnostics, project, root) {
        Some("Coverage is incomplete for this workspace"@)
    } else {
        None
    }
}

fn evidence_for_package(
    context: &PackageContext,
    contexts: &Vec<PackageContext>,
    project: &WorkspaceDiscovery,
    report: &ScanReport,
) -> (r: Option<&'static str>)
    ensures
        r.deep_view() == package_evidence(
            context.deep_view(),
            contexts.deep_view(),
            project.deep_view(),
            report.deep_view(),
        ),
{
    let root: &FilePath = &context.package.root;
    if !context.package.manifest.private {
        return Some("The package is publishable and therefore open world");
    }
    if any_live_file(&report.files, project, root) {
        return Some("At least one package file is reachable from a configured root");
    }
    let imported: bool = match &context.package.manifest.name {
        Some(name) => is_imported_elsewhere(&report.files, project, root, name),
        None => false,
    };
    if imported {
        return Some("Another workspace imports the package by its declared name");
    }
    if any_scripts_name(contexts, &label_of(context), root) {
        return Some("A reachable package script references the workspace");
    }
    if any_blocks_package(&report.diagnostics, project, root) {
        return Some("Coverage is incomplete for this workspace");
    }
    None
}

/// A package that is kept.
pub open spec fn kept_package(
    context: PackageContextModel,
    target_profiles: Seq<Seq<char>>,
    evidence: Seq<char>,
) -> RetentionReportModel {
    RetentionReportModel {
        item: package_label(context),
        item_type: "workspace"@,
        workspace: context.workspace_name,
        target_profiles: target_profiles,
        summary: "Workspace retained by live or conservative evidence"@,
        evidence: seq![evidence],
    }
}

fn keep_package(
    context: &PackageContext,
    target_profiles: &Vec<String>,
    evidence: &str,
) -> (r: RetentionReport)
    ensures
        r.deep_view() == kept_package(context.deep_view(), target_profiles.deep_view(), evidence@),
{
    RetentionReport {
        item: label_of(context),
        item_type: "workspace",
        workspace: context.workspace_name.replicate(),
        target_profiles: target_profiles.replicate(),
        summary: "Workspace retained by live or conservative evidence".to_string(),
        evidence: one_text(evidence),
    }
}

/// That a package is unused.
pub open spec fn unused_package(
    context: PackageContextModel,
    target_profiles: Seq<Seq<char>>,
) -> FindingModel {
    FindingModel {
        issue_id: "ORP3001"@,
        issue_type: "unusedWorkspace"@,
        workspace: context.workspace_name,
        target_profiles: target_profiles,
        paths: seq![context.workspace_name + "/package.json"@],
        span: None,
        symbol: None,
        dependency: None,
        confidence: Confidence::High,
        summary: "workspace "@ + package_label(context) + " has no live root or consumer"@,
        evidence: seq!["No reachable file, package-name import, package script, or public contract retains this private workspace"@],
        blockers: Seq::empty(),
        suggested_actions: seq!["Review workspace consumers and configuration before removing the package"@],
        fix_eligibility: FixEligibility::NotAvailable,
    }
}

fn unused_package_finding(context: &PackageContext, target_profiles: &Vec<String>) -> (r: Finding)
    ensures
        r.deep_view() == unused_package(context.deep_view(), target_profiles.deep_view()),
{
    Finding {
        issue_id: "ORP3001",
        issue_type: "unusedWorkspace",
        workspace: context.workspace_name.replicate(),
        target_profiles: target_profiles.replicate(),
        paths: one_text(&concat2(&context.workspace_name, "/package.json")),
        span: None,
        symbol: None,
        dependency: None,
        confidence: Confidence::High,
        summary: concat3("workspace ", &label_of(context), " has no live root or consumer"),
        evidence: one_text("No reachable file, package-name import, package script, or public contract retains this private workspace"),
        blockers: no_texts(),
        suggested_actions: one_text("Review workspace consumers and configuration before removing the package"),
        fix_eligibility: FixEligibility::NotAvailable,
    }
}

/// The findings of a report, with those on packages.
pub open spec fn with_package_findings(
    items: Seq<PackageContextModel>,
    all: Seq<PackageContextModel>,
    project: WorkspaceDiscoveryModel,
    report: ScanReportModel,
    target_profiles: Seq<Seq<char>>,
) -> Seq<FindingModel>
    decreases items.len(),
{
    if items.len() == 0 {
        report.findings
    } else {
        let rest = with_package_findings(items.drop_last(), all, project, report, target_profiles);
        let last = items.last();
        if last.package.root.len() == 0 || package_evidence(last, all, project, report) is Some {
            rest
        } else {
            rest.push(unused_package(last, target_profiles))
        }
    }
}

/// What a report keeps, with the packages that are kept.
pub open spec fn with_package_retentions(
    items: Seq<PackageContextModel>,
    all: Seq<PackageContextModel>,
    project: WorkspaceDiscoveryModel,
    report: ScanReportModel,
    target_profiles: Seq<Seq<char>>,
) -> Seq<RetentionReportModel>
    decreases items.len(),
{
    if items.len() == 0 {
        report.retentions
    } else {
        let rest = with_package_retentions(
            items.drop_last(),
            all,
            project,
            report,
            target_profiles,
        );
        let last = items.last();
        if last.package.root.len() == 0 {
            rest
        } else {
            match package_evidence(last, all, project, report) {
                Some(evidence) => rest.push(kept_package(last, target_profiles, evidence)),
                None => rest,
            }
        }
    }
}

/// A report with what is concluded of the packages.
pub open spec fn with_workspace_results(
    report: ScanReportModel,
    contexts: Seq<PackageContextModel>,
    project: WorkspaceDiscoveryModel,
    target_profiles: Seq<Seq<char>>,
) -> ScanReportModel {
    ScanReportModel {
        findings: with_package_findings(contexts, contexts, project, report, target_profiles),
        retentions: with_package_retentions(contexts, contexts, project, report, target_profiles),
        ..report
    }
}

/// Adds to a report what is concluded of the packages: all but the one at the root of the
/// project are kept or found unused.
pub fn append_workspace_results(
    workspace: &WorkspaceDiscovery,
    contexts: &Vec<PackageContext>,
    target_profiles: &Vec<String>,
    report: &mut ScanReport,
)
    ensures
        final(report).deep_view() == with_workspace_results(old(report).deep_view(), contexts.deep_view(), workspace.deep_view(), target_profiles.deep_view()),
{
    let ghost before = report.deep_view();
    let ghost project = workspace.deep_view();
    let ghost profiles = target_profiles.deep_view();
    let mut findings: Vec<Finding> = report.findings.replicate();
    let mut retentions: Vec<RetentionReport> = report.retentions.replicate();
    let ghost model = contexts.deep_view();
    let mut i: usize = 0;
    while i < contexts.len()
        invariant
            i <= contexts.len(),
            model == contexts.deep_view(),
            before == report.deep_view(),
            project == workspace.deep_view(),
            profiles == target_profiles.deep_view(),
            findings.deep_view() =~= with_package_findings(model.take(i as int), model, project, before, profiles),
            retentions.deep_view() =~= with_package_retentions(model.take(i as int), model, project, before, profiles),
        decreases contexts.len() - i,
    {
        proof {
            assert(model.take(i + 1).drop_last() =~= model.take(i as int));
            assert(model.take(i + 1).last() == contexts@[i as int].deep_view());
        }
        let context: &PackageContext = &contexts[i];
        assert(context.package.root.deep_view().len() == context.package.root.parts@.len());
        if context.package.root.parts.len() > 0 {
            match evidence_for_package(context, contexts, workspace, report) {
                Some(evidence) => {
                    push_item(&mut retentions, keep_package(context, target_profiles, evidence));
                },
                None => {
                    push_item(&mut findings, unused_package_finding(context, target_profiles));
                },
            }
        }
        i = i + 1;
    }
    assert(model.take(i as int) =~= model);
    report.findings = findings;
    report.retentions = retentions;
}

/// What configurations call an issue.
pub open spec fn issue_name(issue_type: Seq<char>) -> Seq<char> {
    if issue_type == "unusedFiles"@ {
        "files"@
    } else if issue_type == "unusedExport"@ {
        "exports"@
    } else if issue_type == "unusedDeclaration"@ {
        "declarations"@
    } else if issue_type == "unusedMember"@ {
        "members"@
    } else if issue_type == "unusedDependency"@ || issue_type == "unlistedDependency"@ || issue_type == "misplacedDependency"@ {
        "dependencies"@
    } else if issue_type == "unusedWorkspace"@ {
        "workspaces"@
    } else {
        issue_type
    }
}

/// What configurations call an issue.
#[must_use]
pub fn configuration_issue_name(issue_type: &'static str) -> (r: &'static str)
    ensures
        r@ == issue_name(issue_type@),
{
    if same(issue_type, "unusedFiles") {
        "files"
    } else if same(issue_type, "unusedExport") {
        "exports"
    } else if same(issue_type, "unusedDeclaration") {
        "declarations"
    } else if same(issue_type, "unusedMember") {
        "members"
    } else if same(issue_type, "unusedDependency") || same(issue_type, "unlistedDependency") || same(issue_type, "misplacedDependency") {
        "dependencies"
    } else if same(issue_type, "unusedWorkspace") {
        "workspaces"
    } else {
        issue_type
    }
}

/// What an issue is about.
pub open spec fn item_type_of(issue_type: Seq<char>) -> Seq<char> {
    if issue_type == "unusedFiles"@ {
        "file"@
    } else if issue_type == "unusedExport"@ {
        "export"@
    } else if issue_type == "unusedDeclaration"@ {
        "declaration"@
    } else if issue_type == "unusedMember"@ {
        "member"@
    } else if issue_type == "unusedDependency"@ || issue_type == "unlistedDependency"@ || issue_type == "misplacedDependency"@ {
        "dependency"@
    } else if issue_type == "unusedWorkspace"@ {
        "workspace"@
    } else {
        "item"@
    }
}

/// What an issue is about.
#[must_use]
pub fn retention_item_type(issue_type: &'static str) -> (r: &'static str)
    ensures
        r@ == item_type_of(issue_type@),
{
    if same(issue_type, "unusedFiles") {
        "file"
    } else if same(issue_type, "unusedExport") {
        "export"
    } else if same(issue_type, "unusedDeclaration") {
        "declaration"
    } else if same(issue_type, "unusedMember") {
        "member"
    } else if same(issue_type, "unusedDependency") || same(issue_type, "unlistedDependency") || same(issue_type, "misplacedDependency") {
        "dependency"
    } else if same(issue_type, "unusedWorkspace") {
        "workspace"
    } else {
        "item"
    }
}

/// What a finding is about: a symbol, else a dependency, else files.
pub open spec fn item_of(finding: FindingModel) -> Seq<char> {
    match finding.symbol {
        Some(symbol) => symbol,
        None => match finding.dependency {
            Some(dependency) => dependency,
            None => joined(finding.paths, ", "@),
        },
    }
}

/// What a finding is about.
#[must_use]
pub fn finding_item(finding: &Finding) -> (r: String)
    ensures
        r@ == item_of(finding.deep_view()),
{
    match &finding.symbol {
        Some(symbol) => symbol.replicate(),
        None => match &finding.dependency {
            Some(dependency) => dependency.replicate(),
            None => join(&finding.paths, ", "),
        },
    }
}

/// All that a finding is about: each file, or one thing.
pub open spec fn items_of(finding: FindingModel) -> Seq<Seq<char>> {
    if finding.issue_type == "unusedFiles"@ {
        finding.paths
    } else {
        seq![item_of(finding)]
    }
}

/// What a finding was about, where that is kept.
pub open spec fn retained_item(
    item: Seq<char>,
    finding: FindingModel,
    summary: Seq<char>,
    evidence: Seq<Seq<char>>,
) -> RetentionReportModel {
    RetentionReportModel {
        item: item,
        item_type: item_type_of(finding.issue_type),
        workspace: finding.workspace,
        target_profiles: finding.target_profiles,
        summary: summary,
        evidence: evidence,
    }
}

fn retain_item(
    item: &str,
    finding: &Finding,
    summary: &str,
    evidence: &Vec<String>,
) -> (r: RetentionReport)
    ensures
        r.deep_view() == retained_item(item@, finding.deep_view(), summary@, evidence.deep_view()),
{
    RetentionReport {
        item: item.to_string(),
        item_type: retention_item_type(finding.issue_type),
        workspace: finding.workspace.replicate(),
        target_profiles: finding.target_profiles.replicate(),
        summary: summary.to_string(),
        evidence: evidence.replicate(),
    }
}

/// What a finding was about, where all of that is kept.
pub open spec fn retained_items(
    items: Seq<Seq<char>>,
    finding: FindingModel,
    summary: Seq<char>,
    evidence: Seq<Seq<char>>,
) -> Seq<RetentionReportModel> {
    items.map_values(|item: Seq<char>| retained_item(item, finding, summary, evidence))
}

fn retain_items(
    items: &Vec<String>,
    finding: &Finding,
    summary: &str,
    evidence: &Vec<String>,
) -> (r: Vec<RetentionReport>)
    ensures
        r.deep_view() == retained_items(items.deep_view(), finding.deep_view(), summary@, evidence.deep_view()),
{
    let ghost finding_model = finding.deep_view();
    let ghost evidence_model = evidence.deep_view();
    let mut out: Vec<RetentionReport> = Vec::new();
    let ghost model = items.deep_view();
    let mut i: usize = 0;
    while i < items.len()
        invariant
            i <= items.len(),
            model == items.deep_view(),
            finding_model == finding.deep_view(),
            evidence_model == evidence.deep_view(),
            out.deep_view() =~= retained_items(model.take(i as int), finding_model, summary@, evidence_model),
        decreases items.len() - i,
    {
        proof {
            assert(model.take(i + 1).drop_last() =~= model.take(i as int));
            assert(model.take(i + 1).last() == items@[i as int].deep_view());
        }
        assert(model.take(i + 1) =~= model.take(i as int).push(items@[i as int].deep_view()));
        let item: &String = &items[i];
        push_item(&mut out, retain_item(item, finding, summary, evidence));
        i = i + 1;
    }
    assert(model.take(i as int) =~= model);
    out
}

/// What is kept in place of a finding.
#[must_use]
pub fn retentions_for_finding(finding: &Finding, summary: &str, evidence: &Vec<String>) -> (r: Vec<
    RetentionReport,
>)
    ensures
        r.deep_view() == retained_items(
            items_of(finding.deep_view()),
            finding.deep_view(),
            summary@,
            evidence.deep_view(),
        ),
{
    let items: Vec<String> = if same(finding.issue_type, "unusedFiles") {
        finding.paths.replicate()
    } else {
        one_text(&finding_item(finding))
    };
    retain_items(&items, finding, summary, evidence)
}

/// The packages of which not all is known.
pub open spec fn blocked_names(
    items: Seq<AnalysisDiagnosticModel>,
    project: WorkspaceDiscoveryModel,
) -> Seq<Seq<char>>
    decreases items.len(),
{
    if items.len() == 0 {
        Seq::empty()
    } else {
        let rest = blocked_names(items.drop_last(), project);
        let last = items.last();
        if last.blocks_reachability {
            with_item::<String>(rest, owner_name(project.packages, parsed(last.path)))
        } else {
            rest
        }
    }
}

fn names_of_blocked(
    diagnostics: &Vec<AnalysisDiagnostic>,
    project: &WorkspaceDiscovery,
) -> (r: OrderedSet<String>)
    ensures
        r.deep_view() == blocked_names(diagnostics.deep_view(), project.deep_view()),
{
    let mut names: OrderedSet<String> = OrderedSet::new();
    let ghost given = project.deep_view();
    let ghost model = diagnostics.deep_view();
    let mut i: usize = 0;
    while i < diagnostics.len()
        invariant
            i <= diagnostics.len(),
            model == diagnostics.deep_view(),
            given == project.deep_view(),
            names.deep_view() == blocked_names(model.take(i as int), given),
        decreases diagnostics.len() - i,
    {
        proof {
            assert(model.take(i + 1).drop_last() =~= model.take(i as int));
            assert(model.take(i + 1).last() == diagnostics@[i as int].deep_view());
        }
        if diagnostics[i].blocks_reachability {
            names.insert(project.name_for_path(&FilePath::parse(&diagnostics[i].path)));
        }
        i = i + 1;
    }
    assert(model.take(i as int) =~= model);
    names
}

/// Whether not all is known of a package: of itself, or of the one at the root.
pub open spec fn is_blocked(names: Seq<Seq<char>>, workspace: Seq<char>) -> bool {
    names.contains("."@) || names.contains(workspace)
}

fn is_blocked_name(names: &OrderedSet<String>, workspace: &String) -> (r: bool)
    ensures
        r == is_blocked(names.deep_view(), workspace@),
{
    names.contains(&".".to_string()) || names.contains(workspace)
}

/// What is left of a conclusion where not all is known.
pub open spec fn doubted(status: FileStatus) -> FileStatus {
    if status == FileStatus::Unreachable {
        FileStatus::Incomplete
    } else {
        status
    }
}

/// Conclusions for target profiles where not all is known.
pub open spec fn doubted_targets(
    items: Seq<(Seq<char>, FileStatus)>,
) -> Seq<(Seq<char>, FileStatus)> {
    items.map_values(|item: (Seq<char>, FileStatus)| (item.0, doubted(item.1)))
}

fn doubt_targets(items: &Vec<(String, FileStatus)>) -> (r: Vec<(String, FileStatus)>)
    ensures
        r.deep_view() == doubted_targets(items.deep_view()),
{
    let mut out: Vec<(String, FileStatus)> = Vec::new();
    let ghost model = items.deep_view();
    let mut i: usize = 0;
    while i < items.len()
        invariant
            i <= items.len(),
            model == items.deep_view(),
            out.deep_view() =~= doubted_targets(model.take(i as int)),
        decreases items.len() - i,
    {
        proof {
            assert(model.take(i + 1).drop_last() =~= model.take(i as int));
            assert(model.take(i + 1).last() == items@[i as int].deep_view());
        }
        assert(model.take(i + 1) =~= model.take(i as int).push(items@[i as int].deep_view()));
        let item: &(String, FileStatus) = &items[i];
        push_item(
            &mut out,
            (item.0.replicate(), if item.1 == FileStatus::Unreachable { FileStatus::Incomplete } else { item.1 }),
        );
        i = i + 1;
    }
    assert(model.take(i as int) =~= model);
    out
}

/// A file where not all is known of some packages.
pub open spec fn doubted_file(
    file: FileReportModel,
    names: Seq<Seq<char>>,
    project: WorkspaceDiscoveryModel,
) -> FileReportModel {
    if file.status == FileStatus::Unreachable && is_blocked(
        names,
        owner_name(project.packages, parsed(file.path)),
    ) {
        FileReportModel {
            status: FileStatus::Incomplete,
            target_statuses: doubted_targets(file.target_statuses),
            ..file
        }
    } else {
        file
    }
}

fn doubt_file(file: &FileReport, names: &OrderedSet<String>, project: &WorkspaceDiscovery) -> (r:
    FileReport)
    ensures
        r.deep_view() == doubted_file(
            file.deep_view(),
            names.deep_view(),
            project.deep_view(),
        ),
{
    let mut doubted: FileReport = file.replicate();
    let owner: String = project.name_for_path(&FilePath::parse(&file.path));
    if file.status == FileStatus::Unreachable && is_blocked_name(names, &owner) {
        doubted.status = FileStatus::Incomplete;
        let targets: Vec<(String, FileStatus)> = doubt_targets(file.target_statuses.entries());
        assert(keys_of(targets.deep_view()) =~= keys_of(file.target_statuses.deep_view()));
        doubted.target_statuses = OrderedMap::from_entries(targets);
        assert(doubted.target_statuses.deep_view() =~= targets.deep_view());
    }
    doubted
}

/// Files where not all is known of some packages.
pub open spec fn doubted_files(
    items: Seq<FileReportModel>,
    names: Seq<Seq<char>>,
    project: WorkspaceDiscoveryModel,
) -> Seq<FileReportModel> {
    items.map_values(|item: FileReportModel| doubted_file(item, names, project))
}

fn doubt_files(
    items: &Vec<FileReport>,
    names: &OrderedSet<String>,
    project: &WorkspaceDiscovery,
) -> (r: Vec<FileReport>)
    ensures
        r.deep_view() == doubted_files(items.deep_view(), names.deep_view(), project.deep_view()),
{
    let ghost names_model = names.deep_view();
    let ghost project_model = project.deep_view();
    let mut out: Vec<FileReport> = Vec::new();
    let ghost model = items.deep_view();
    let mut i: usize = 0;
    while i < items.len()
        invariant
            i <= items.len(),
            model == items.deep_view(),
            names_model == names.deep_view(),
            project_model == project.deep_view(),
            out.deep_view() =~= doubted_files(model.take(i as int), names_model, project_model),
        decreases items.len() - i,
    {
        proof {
            assert(model.take(i + 1).drop_last() =~= model.take(i as int));
            assert(model.take(i + 1).last() == items@[i as int].deep_view());
        }
        assert(model.take(i + 1) =~= model.take(i as int).push(items@[i as int].deep_view()));
        let item: &FileReport = &items[i];
        push_item(&mut out, doubt_file(item, names, project));
        i = i + 1;
    }
    assert(model.take(i as int) =~= model);
    out
}

/// Findings with those of packages of which all is known.
pub open spec fn unblocked_findings(
    items: Seq<FindingModel>,
    start: Seq<FindingModel>,
    names: Seq<Seq<char>>,
) -> Seq<FindingModel>
    decreases items.len(),
{
    if items.len() == 0 {
        start
    } else {
        let rest = unblocked_findings(items.drop_last(), start, names);
        let last = items.last();
        if !is_blocked(names, last.workspace) {
            rest.push(last)
        } else {
            rest
        }
    }
}

fn choose_unblocked(
    items: &Vec<Finding>,
    names: &OrderedSet<String>,
    out: &mut Vec<Finding>,
)
    ensures
        final(out).deep_view() == unblocked_findings(items.deep_view(), old(out).deep_view(), names.deep_view()),
{
    let ghost start = out.deep_view();
    let ghost names_model = names.deep_view();
    let ghost model = items.deep_view();
    let mut i: usize = 0;
    while i < items.len()
        invariant
            i <= items.len(),
            model == items.deep_view(),
            names_model == names.deep_view(),
            out.deep_view() =~= unblocked_findings(model.take(i as int), start, names_model),
        decreases items.len() - i,
    {
        proof {
            assert(model.take(i + 1).drop_last() =~= model.take(i as int));
            assert(model.take(i + 1).last() == items@[i as int].deep_view());
        }
        let item: &Finding = &items[i];
        if !is_blocked_name(names, &item.workspace) {
            push_item(out, item.replicate());
        }
        i = i + 1;
    }
    assert(model.take(i as int) =~= model);
}

/// Retentions with what findings on packages were about of which not all is known.
pub open spec fn with_blocked_items(
    items: Seq<FindingModel>,
    start: Seq<RetentionReportModel>,
    names: Seq<Seq<char>>,
) -> Seq<RetentionReportModel>
    decreases items.len(),
{
    if items.len() == 0 {
        start
    } else {
        let rest = with_blocked_items(items.drop_last(), start, names);
        let last = items.last();
        if is_blocked(names, last.workspace) {
            rest + retained_items(
                items_of(last),
                last,
                "Potential issue retained because coverage is incomplete"@,
                seq!["A blocking diagnostic could provide an unmodeled path to this item"@],
            )
        } else {
            rest
        }
    }
}

fn add_blocked_items(
    items: &Vec<Finding>,
    names: &OrderedSet<String>,
    out: &mut Vec<RetentionReport>,
)
    ensures
        final(out).deep_view() == with_blocked_items(items.deep_view(), old(out).deep_view(), names.deep_view()),
{
    let ghost start = out.deep_view();
    let ghost names_model = names.deep_view();
    let ghost model = items.deep_view();
    let mut i: usize = 0;
    while i < items.len()
        invariant
            i <= items.len(),
            model == items.deep_view(),
            names_model == names.deep_view(),
            out.deep_view() =~= with_blocked_items(model.take(i as int), start, names_model),
        decreases items.len() - i,
    {
        proof {
            assert(model.take(i + 1).drop_last() =~= model.take(i as int));
            assert(model.take(i + 1).last() == items@[i as int].deep_view());
        }
        let item: &Finding = &items[i];
        if is_blocked_name(names, &item.workspace) {
            let reasons: Vec<String> = one_text("A blocking diagnostic could provide an unmodeled path to this item");
            let kept: Vec<RetentionReport> = retentions_for_finding(item, "Potential issue retained because coverage is incomplete", &reasons);
            append_items(out, &kept);
        }
        i = i + 1;
    }
    assert(model.take(i as int) =~= model);
}

/// A report without conclusions on packages of which not all is known.
pub open spec fn without_blocked(
    report: ScanReportModel,
    project: WorkspaceDiscoveryModel,
) -> ScanReportModel {
    let names = blocked_names(report.diagnostics, project);
    if names.len() == 0 {
        report
    } else {
        let files = doubted_files(report.files, names, project);
        ScanReportModel {
            files,
            summary: ReportSummary {
                reachable_files: status_count(statuses_of(files), FileStatus::Reachable) as usize,
                unreachable_files: status_count(
                    statuses_of(files),
                    FileStatus::Unreachable,
                ) as usize,
                incomplete_files: status_count(
                    statuses_of(files),
                    FileStatus::Incomplete,
                ) as usize,
                ..report.summary
            },
            findings: unblocked_findings(report.findings, Seq::empty(), names),
            retentions: with_blocked_items(report.findings, report.retentions, names),
            ..report
        }
    }
}

/// Takes back what was concluded on packages of which not all is known: unreachable files
/// are then of unknown use, and what findings were about is kept.
pub fn suppress_blocked_findings(
    workspace: &WorkspaceDiscovery,
    report: &mut ScanReport,
)
    ensures
        final(report).deep_view() == without_blocked(old(report).deep_view(), workspace.deep_view()),
{
    let names: OrderedSet<String> = names_of_blocked(&report.diagnostics, workspace);
    if names.is_empty() {
        return;
    }
    let files: Vec<FileReport> = doubt_files(&report.files, &names, workspace);
    let counted: ReportSummary = summarize(&files, report.summary.diagnostics);
    let mut findings: Vec<Finding> = Vec::new();
    assert(findings.deep_view() =~= Seq::empty());
    choose_unblocked(&report.findings, &names, &mut findings);
    let mut retentions: Vec<RetentionReport> = report.retentions.replicate();
    add_blocked_items(&report.findings, &names, &mut retentions);
    let summary: ReportSummary = ReportSummary {
        files: report.summary.files,
        reachable_files: counted.reachable_files,
        unreachable_files: counted.unreachable_files,
        incomplete_files: counted.incomplete_files,
        diagnostics: report.summary.diagnostics,
    };
    report.files = files;
    report.summary = summary;
    report.findings = findings;
    report.retentions = retentions;
}

/// A path as seen from a directory, where it is below it.
pub open spec fn seen_from(
    path: Seq<PathPartModel>,
    base: Seq<PathPartModel>,
) -> Seq<PathPartModel> {
    match path_below(path, base) {
        Some(relative) => relative,
        None => path,
    }
}

/// A path as seen from a directory, where it is below it.
#[must_use]
pub fn relative_to(path: &FilePath, base: &FilePath) -> (r: FilePath)
    ensures
        r.deep_view() == seen_from(path.deep_view(), base.deep_view()),
{
    match path.strip_prefix(base) {
        Some(relative) => relative,
        None => path.replicate(),
    }
}

/// Whether a pattern at a directory means a path.
#[verifier::opaque]
pub open spec fn rule_hits(
    path: Seq<char>,
    base: Seq<PathPartModel>,
    pattern: Seq<char>,
) -> bool {
    hits(parsed("."@), pattern, seen_from(parsed(path), base))
}

fn rule_means(path: &str, base: &FilePath, pattern: &str) -> (r: bool)
    ensures
        r == rule_hits(path@, base.deep_view(), pattern@),
{
    reveal(rule_hits);
    let relative: FilePath = relative_to(&FilePath::parse(path), base);
    pattern_matches(&FilePath::parse("."), pattern, &relative)
}

/// Whether a pattern at a directory does not mean one of some paths.
pub open spec fn some_unmatched(
    items: Seq<Seq<char>>,
    base: Seq<PathPartModel>,
    pattern: Seq<char>,
) -> bool {
    exists|i: int| 0 <= i < items.len() && some_unmatched_at(#[trigger] items[i], base, pattern)
}

/// Whether this holds of one.
pub open spec fn some_unmatched_at(
    item: Seq<char>,
    base: Seq<PathPartModel>,
    pattern: Seq<char>,
) -> bool {
    !rule_hits(item, base, pattern)
}

fn has_unmatched(items: &Vec<String>, base: &FilePath, pattern: &str) -> (r: bool)
    ensures
        r == some_unmatched(items.deep_view(), base.deep_view(), pattern@),
{
    let ghost base_model = base.deep_view();
    let ghost model = items.deep_view();
    let mut i: usize = 0;
    while i < items.len()
        invariant
            i <= items.len(),
            model == items.deep_view(),
            base_model == base.deep_view(),
            forall|k: int| 0 <= k < i ==> !some_unmatched_at(#[trigger] model[k], base_model, pattern@),
        decreases items.len() - i,
    {
        assert(model[i as int] == items@[i as int].deep_view());
        let item: &String = &items[i];
        if !rule_means(item, base, pattern) {
            return true;
        }
        i = i + 1;
    }
    false
}

/// Whether a pattern means all the files of a finding.
#[must_use]
pub fn finding_paths_match_rule(finding: &Finding, context: &PackageContext, pattern: &str) -> (r:
    bool)
    ensures
        r == !some_unmatched(
            finding.deep_view().paths,
            context.deep_view().retain_base,
            pattern@,
        ),
{
    !has_unmatched(&finding.paths, &context.retain_base, pattern)
}

/// Whether a rule on files is about an issue.
pub open spec fn rule_covers(issues: Seq<Seq<char>>, issue: Seq<char>) -> bool {
    issues.len() == 0 || issues.contains(issue)
}

/// Whether a rule on files is about an issue.
#[must_use]
pub fn covers_issue(rule: &RetainRule, issue: &str) -> (r: bool)
    ensures
        r == rule_covers(rule.deep_view().issues, issue@),
{
    rule.issues.is_empty() || rule.issues.contains(&issue.to_string())
}

/// Why the first rule that means all the files of a finding keeps them.
pub open spec fn configured_reason(
    items: Seq<RetainRuleModel>,
    finding: FindingModel,
    base: Seq<PathPartModel>,
) -> Option<Seq<char>>
    decreases items.len(),
{
    if items.len() == 0 {
        None
    } else {
        let rest = configured_reason(items.drop_last(), finding, base);
        let last = items.last();
        if rest is Some {
            rest
        } else if rule_covers(last.issues, issue_name(finding.issue_type)) && !some_unmatched(
            finding.paths,
            base,
            last.pattern,
        ) {
            Some(last.reason)
        } else {
            None
        }
    }
}

/// Why a rule of the configuration keeps what a finding is about, if one does.
pub open spec fn rule_reason(
    finding: FindingModel,
    context: PackageContextModel,
) -> Option<Seq<char>> {
    match context.effective.retain {
        Some(rules) => configured_reason(rules, finding, context.retain_base),
        None => None,
    }
}

fn find_rule_reason(finding: &Finding, context: &PackageContext) -> (r: Option<String>)
    ensures
        r.deep_view() == rule_reason(finding.deep_view(), context.deep_view()),
{
    let issue: &'static str = configuration_issue_name(finding.issue_type);
    match &context.effective.retain {
        Some(rules) => {
            let ghost about = finding.deep_view();
            let ghost base = context.deep_view().retain_base;
            let mut found: Option<String> = None;
            let ghost model = rules.deep_view();
            let mut i: usize = 0;
            while i < rules.len()
                invariant
                    i <= rules.len(),
                    model == rules.deep_view(),
                    about == finding.deep_view(),
                    base == context.deep_view().retain_base,
                    issue@ == issue_name(about.issue_type),
                    found.deep_view() == configured_reason(model.take(i as int), about, base),
                decreases rules.len() - i,
            {
                proof {
                    assert(model.take(i + 1).drop_last() =~= model.take(i as int));
                    assert(model.take(i + 1).last() == rules@[i as int].deep_view());
                }
                let missing: bool = found.is_none();
                if missing && covers_issue(&rules[i], issue) && finding_paths_match_rule(
                    finding,
                    context,
                    &rules[i].pattern,
                ) {
                    found = Some(rules[i].reason.replicate());
                }
                i = i + 1;
            }
            assert(model.take(i as int) =~= model);
            found
        },
        None => None,
    }
}

/// Why the first pattern of generated files that means a path does so.
pub open spec fn generated_reason(
    items: Seq<PatternContributionModel>,
    relative: Seq<PathPartModel>,
) -> Option<Seq<char>>
    decreases items.len(),
{
    if items.len() == 0 {
        None
    } else {
        let rest = generated_reason(items.drop_last(), relative);
        let last = items.last();
        if rest is Some {
            rest
        } else if hits(parsed("."@), last.pattern, relative) {
            Some(last.reason)
        } else {
            None
        }
    }
}

fn find_generated_reason(
    items: &Vec<PatternContribution>,
    relative: &FilePath,
) -> (r: Option<String>)
    ensures
        r.deep_view() == generated_reason(items.deep_view(), relative.deep_view()),
{
    let ghost relative_model = relative.deep_view();
    let mut found: Option<String> = None;
    let ghost model = items.deep_view();
    let mut i: usize = 0;
    while i < items.len()
        invariant
            i <= items.len(),
            model == items.deep_view(),
            relative_model == relative.deep_view(),
            found.deep_view() == generated_reason(model.take(i as int), relative_model),
        decreases items.len() - i,
    {
        proof {
            assert(model.take(i + 1).drop_last() =~= model.take(i as int));
            assert(model.take(i + 1).last() == items@[i as int].deep_view());
        }
        let missing: bool = found.is_none();
        let item: &PatternContribution = &items[i];
        if missing && pattern_matches(&FilePath::parse("."), &item.pattern, relative) {
            found = Some(item.reason.replicate());
        }
        i = i + 1;
    }
    assert(model.take(i as int) =~= model);
    found
}

/// Why the first export that a plugin keeps is the one found.
pub open spec fn export_reason(
    items: Seq<ExportRootContributionModel>,
    relative: Seq<PathPartModel>,
    symbol: Option<Seq<char>>,
) -> Option<Seq<char>>
    decreases items.len(),
{
    if items.len() == 0 {
        None
    } else {
        let rest = export_reason(items.drop_last(), relative, symbol);
        let last = items.last();
        if rest is Some {
            rest
        } else if hits(parsed("."@), last.module_pattern, relative) && symbol == Some(
            last.export_name,
        ) {
            Some(last.reason)
        } else {
            None
        }
    }
}

fn find_export_reason(
    items: &Vec<ExportRootContribution>,
    relative: &FilePath,
    symbol: &Option<String>,
) -> (r: Option<String>)
    ensures
        r.deep_view() == export_reason(items.deep_view(), relative.deep_view(), symbol.deep_view()),
{
    let ghost relative_model = relative.deep_view();
    let ghost symbol_model = symbol.deep_view();
    let mut found: Option<String> = None;
    let ghost model = items.deep_view();
    let mut i: usize = 0;
    while i < items.len()
        invariant
            i <= items.len(),
            model == items.deep_view(),
            relative_model == relative.deep_view(),
            symbol_model == symbol.deep_view(),
            found.deep_view() == export_reason(model.take(i as int), relative_model, symbol_model),
        decreases items.len() - i,
    {
        proof {
            assert(model.take(i + 1).drop_last() =~= model.take(i as int));
            assert(model.take(i + 1).last() == items@[i as int].deep_view());
        }
        let missing: bool = found.is_none();
        let item: &ExportRootContribution = &items[i];
        if missing && pattern_matches(
            &FilePath::parse("."),
            &item.module_pattern,
            relative,
        ) && (match symbol {
            Some(name) => same(name, &item.export_name),
            None => false,
        }) {
            found = Some(item.reason.replicate());
        }
        i = i + 1;
    }
    assert(model.take(i as int) =~= model);
    found
}

/// Whether a symbol is a member of a class, or of any class.
pub open spec fn names_member(
    symbol: Seq<char>,
    export_name: Seq<char>,
    member_name: Seq<char>,
) -> bool {
    symbol == export_name + "."@ + member_name || ("."@ + member_name).is_suffix_of(symbol)
}

/// Whether a symbol is a member of a class, or of any class.
#[must_use]
pub fn is_member(symbol: &str, export_name: &str, member_name: &str) -> (r: bool)
    ensures
        r == names_member(symbol@, export_name@, member_name@),
{
    same(symbol, &concat3(export_name, ".", member_name)) || ends_with(
        symbol,
        &concat2(".", member_name),
    )
}

/// Why the first member that a plugin keeps is the one found.
pub open spec fn member_reason(
    items: Seq<MemberRootContributionModel>,
    relative: Seq<PathPartModel>,
    symbol: Option<Seq<char>>,
) -> Option<Seq<char>>
    decreases items.len(),
{
    if items.len() == 0 {
        None
    } else {
        let rest = member_reason(items.drop_last(), relative, symbol);
        let last = items.last();
        if rest is Some {
            rest
        } else if hits(parsed("."@), last.module_pattern, relative) && (match symbol {
            Some(name) => names_member(name, last.export_name, last.member_name),
            None => false,
        }) {
            Some(last.reason)
        } else {
            None
        }
    }
}

fn find_member_reason(
    items: &Vec<MemberRootContribution>,
    relative: &FilePath,
    symbol: &Option<String>,
) -> (r: Option<String>)
    ensures
        r.deep_view() == member_reason(items.deep_view(), relative.deep_view(), symbol.deep_view()),
{
    let ghost relative_model = relative.deep_view();
    let ghost symbol_model = symbol.deep_view();
    let mut found: Option<String> = None;
    let ghost model = items.deep_view();
    let mut i: usize = 0;
    while i < items.len()
        invariant
            i <= items.len(),
            model == items.deep_view(),
            relative_model == relative.deep_view(),
            symbol_model == symbol.deep_view(),
            found.deep_view() == member_reason(model.take(i as int), relative_model, symbol_model),
        decreases items.len() - i,
    {
        proof {
            assert(model.take(i + 1).drop_last() =~= model.take(i as int));
            assert(model.take(i + 1).last() == items@[i as int].deep_view());
        }
        let missing: bool = found.is_none();
        let item: &MemberRootContribution = &items[i];
        if missing && pattern_matches(
            &FilePath::parse("."),
            &item.module_pattern,
            relative,
        ) && (match symbol {
            Some(name) => is_member(name, &item.export_name, &item.member_name),
            None => false,
        }) {
            found = Some(item.reason.replicate());
        }
        i = i + 1;
    }
    assert(model.take(i as int) =~= model);
    found
}

/// What the contracts of a plugin keep, if they do: generated files, exports and members.
pub open spec fn contract_reason(
    display_name: Seq<char>,
    issue_type: Seq<char>,
    generated: Option<Seq<char>>,
    export: Option<Seq<char>>,
    member: Option<Seq<char>>,
) -> Option<Seq<char>> {
    match generated {
        Some(reason) => Some(display_name + " generated-file contract: "@ + reason),
        None => if issue_type == "unusedExport"@ && export is Some {
            Some(display_name + " export contract: "@ + export->0)
        } else if issue_type == "unusedMember"@ && member is Some {
            Some(display_name + " member contract: "@ + member->0)
        } else {
            None
        },
    }
}

/// What the contracts of a plugin keep, if they do.
#[must_use]
pub fn choose_contract_reason(
    display_name: &str,
    issue_type: &str,
    generated: &Option<String>,
    export: &Option<String>,
    member: &Option<String>,
) -> (r: Option<String>)
    ensures
        r.deep_view() == contract_reason(
            display_name@,
            issue_type@,
            generated.deep_view(),
            export.deep_view(),
            member.deep_view(),
        ),
{
    match generated {
        Some(reason) => {
            return Some(concat3(display_name, " generated-file contract: ", reason));
        },
        None => {},
    }
    if same(issue_type, "unusedExport") {
        match export {
            Some(reason) => {
                return Some(concat3(display_name, " export contract: ", reason));
            },
            None => {},
        }
    }
    if same(issue_type, "unusedMember") {
        match member {
            Some(reason) => {
                return Some(concat3(display_name, " member contract: ", reason));
            },
            None => {},
        }
    }
    None
}

/// What a plugin keeps of a finding, if it does.
pub open spec fn reason_of_plugin(
    detected: DetectedBuiltinPluginModel,
    finding: FindingModel,
    relative: Seq<PathPartModel>,
) -> Option<Seq<char>> {
    let contributions = detected.plugin.contributions;
    contract_reason(
        detected.plugin.display_name,
        finding.issue_type,
        generated_reason(contributions.generated_file_patterns, relative),
        export_reason(contributions.export_roots, relative, finding.symbol),
        member_reason(contributions.member_roots, relative, finding.symbol),
    )
}

fn find_reason_of_plugin(detected: &DetectedBuiltinPlugin, finding: &Finding, relative: &FilePath)
    -> (r: Option<String>)
    ensures
        r.deep_view() == reason_of_plugin(
            detected.deep_view(),
            finding.deep_view(),
            relative.deep_view(),
        ),
{
    let contributions = &detected.plugin.contributions;
    let generated: Option<String> = find_generated_reason(
        &contributions.generated_file_patterns,
        relative,
    );
    let export: Option<String> = find_export_reason(
        &contributions.export_roots,
        relative,
        &finding.symbol,
    );
    let member: Option<String> = find_member_reason(
        &contributions.member_roots,
        relative,
        &finding.symbol,
    );
    choose_contract_reason(
        &detected.plugin.display_name,
        finding.issue_type,
        &generated,
        &export,
        &member,
    )
}

/// What the first of some plugins keeps of a finding, if one does.
pub open spec fn reason_of_plugins(
    items: Seq<DetectedBuiltinPluginModel>,
    finding: FindingModel,
    relative: Seq<PathPartModel>,
) -> Option<Seq<char>>
    decreases items.len(),
{
    if items.len() == 0 {
        None
    } else {
        let rest = reason_of_plugins(items.drop_last(), finding, relative);
        let last = items.last();
        if rest is Some { rest } else { reason_of_plugin(last, finding, relative) }
    }
}

/// A path as seen from a package.
pub open spec fn path_in_package(path: Seq<char>, workspace: Seq<char>) -> Seq<PathPartModel> {
    if workspace == "."@ {
        parsed(path)
    } else {
        seen_from(parsed(path), parsed(workspace))
    }
}

/// What the plugins of a package keep of a finding in a target profile, if they do.
pub open spec fn plugin_reason(
    finding: FindingModel,
    context: PackageContextModel,
    profile: Seq<char>,
) -> Option<Seq<char>> {
    if finding.paths.len() == 0 {
        None
    } else {
        match lookup(context.plugins_by_profile, profile) {
            Some(plugins) => reason_of_plugins(
                plugins,
                finding,
                path_in_package(finding.paths[0], context.workspace_name),
            ),
            None => None,
        }
    }
}

/// What the plugins of a package keep of a finding in a target profile, if they do.
#[must_use]
pub fn plugin_retention_reason(finding: &Finding, context: &PackageContext, profile: &str) -> (r:
    Option<String>)
    ensures
        r.deep_view() == plugin_reason(finding.deep_view(), context.deep_view(), profile@),
{
    if finding.paths.len() == 0 {
        return None;
    }
    assert(finding.paths.deep_view()[0] == finding.paths@[0]@);
    let path: FilePath = FilePath::parse(&finding.paths[0]);
    let relative: FilePath = if same(&context.workspace_name, ".") {
        path
    } else {
        relative_to(&path, &FilePath::parse(&context.workspace_name))
    };
    match context.plugins_by_profile.get(&profile.to_string()) {
        Some(plugins) => {
            let ghost about = finding.deep_view();
            let ghost place = relative.deep_view();
            let mut found: Option<String> = None;
            let ghost model = plugins.deep_view();
            let mut i: usize = 0;
            while i < plugins.len()
                invariant
                    i <= plugins.len(),
                    model == plugins.deep_view(),
                    about == finding.deep_view(),
                    place == relative.deep_view(),
                    found.deep_view() == reason_of_plugins(model.take(i as int), about, place),
                decreases plugins.len() - i,
            {
                proof {
                    assert(model.take(i + 1).drop_last() =~= model.take(i as int));
                    assert(model.take(i + 1).last() == plugins@[i as int].deep_view());
                }
                let missing: bool = found.is_none();
                if missing {
                    found = find_reason_of_plugin(&plugins[i], finding, &relative);
                }
                i = i + 1;
            }
            assert(model.take(i as int) =~= model);
            found
        },
        None => None,
    }
}

/// What the plugins of a package keep of a finding in each of some target profiles.
pub open spec fn plugin_reasons(
    items: Seq<Seq<char>>,
    finding: FindingModel,
    context: PackageContextModel,
) -> Seq<Option<Seq<char>>> {
    items.map_values(|item: Seq<char>| plugin_reason(finding, context, item))
}

fn find_plugin_reasons(
    items: &Vec<String>,
    finding: &Finding,
    context: &PackageContext,
) -> (r: Vec<Option<String>>)
    ensures
        r.deep_view() == plugin_reasons(items.deep_view(), finding.deep_view(), context.deep_view()),
{
    let ghost finding_model = finding.deep_view();
    let ghost context_model = context.deep_view();
    let mut out: Vec<Option<String>> = Vec::new();
    let ghost model = items.deep_view();
    let mut i: usize = 0;
    while i < items.len()
        invariant
            i <= items.len(),
            model == items.deep_view(),
            finding_model == finding.deep_view(),
            context_model == context.deep_view(),
            out.deep_view() =~= plugin_reasons(model.take(i as int), finding_model, context_model),
        decreases items.len() - i,
    {
        proof {
            assert(model.take(i + 1).drop_last() =~= model.take(i as int));
            assert(model.take(i + 1).last() == items@[i as int].deep_view());
        }
        assert(model.take(i + 1) =~= model.take(i as int).push(items@[i as int].deep_view()));
        let item: &String = &items[i];
        push_item(&mut out, plugin_retention_reason(finding, context, item));
        i = i + 1;
    }
    assert(model.take(i as int) =~= model);
    out
}

/// The target profiles in which nothing keeps what a finding is about.
pub open spec fn profiles_without(
    items: Seq<Seq<char>>,
    reasons: Seq<Option<Seq<char>>>,
) -> Seq<Seq<char>>
    decreases items.len(),
{
    if items.len() == 0 {
        Seq::empty()
    } else {
        let rest = profiles_without(items.drop_last(), reasons);
        let last = items.last();
        if reasons[items.len() - 1] is Some { rest } else { rest.push(last) }
    }
}

/// What is kept of a finding, for each target profile in which something keeps it.
pub open spec fn kept_for_profiles(
    items: Seq<Seq<char>>,
    finding: FindingModel,
    reasons: Seq<Option<Seq<char>>>,
) -> Seq<RetentionReportModel>
    decreases items.len(),
{
    if items.len() == 0 {
        Seq::empty()
    } else {
        let rest = kept_for_profiles(items.drop_last(), finding, reasons);
        let last = items.last();
        match reasons[items.len() - 1] {
            Some(reason) => rest + retained_items(
                items_of(finding),
                FindingModel { target_profiles: seq![last], ..finding },
                "Item retained by an explicit static contract"@,
                seq![reason],
            ),
            None => rest,
        }
    }
}

/// A finding, or what is kept in its place.
#[verifier::ext_equal]
pub struct SettledModel {
    pub finding: Option<FindingModel>,
    pub retentions: Seq<RetentionReportModel>,
}

/// A finding, or what is kept in its place.
pub struct Settled {
    pub finding: Option<Finding>,
    pub retentions: Vec<RetentionReport>,
}

/// What becomes of a finding where the configuration keeps what it is about for `rule`, and
/// plugins in each of its target profiles for `reasons`.
pub open spec fn settled_finding(
    finding: FindingModel,
    rule: Option<Seq<char>>,
    reasons: Seq<Option<Seq<char>>>,
) -> SettledModel {
    match rule {
        Some(reason) => SettledModel {
            finding: None,
            retentions: retained_items(
                items_of(finding),
                finding,
                "Item retained by an explicit static contract"@,
                seq!["Configured retain rule: "@ + reason],
            ),
        },
        None => {
            let live = profiles_without(finding.target_profiles, reasons);
            SettledModel {
                finding: if live.len() == 0 {
                    None
                } else {
                    Some(FindingModel { target_profiles: live, ..finding })
                },
                retentions: kept_for_profiles(finding.target_profiles, finding, reasons),
            }
        },
    }
}

/// What becomes of a finding where the configuration keeps what it is about for `rule`, and
/// plugins in each of its target profiles for `reasons`.
#[must_use]
pub fn settle_finding(
    finding: &Finding,
    rule: &Option<String>,
    reasons: &Vec<Option<String>>,
) -> (r:
    Settled)
    requires
        rule is None ==> reasons@.len() == finding.target_profiles@.len(),
    ensures
        ({
            let settled = settled_finding(
                finding.deep_view(),
                rule.deep_view(),
                reasons.deep_view(),
            );
            &&& r.finding.deep_view() == settled.finding
            &&& r.retentions.deep_view() == settled.retentions
        }),
{
    match rule {
        Some(reason) => {
            let why: Vec<String> = one_text(&concat2("Configured retain rule: ", reason));
            return Settled {
                finding: None,
                retentions: retentions_for_finding(finding, "Item retained by an explicit static contract", &why),
            };
        },
        None => {},
    }
    let profiles: &Vec<String> = &finding.target_profiles;
    let ghost about = finding.deep_view();
    let ghost given = reasons.deep_view();
    let mut live: Vec<String> = Vec::new();
    let mut retentions: Vec<RetentionReport> = Vec::new();
    let ghost model = profiles.deep_view();
    let mut i: usize = 0;
    while i < profiles.len()
        invariant
            i <= profiles.len(),
            model == profiles.deep_view(),
            profiles@.len() == reasons@.len(),
            about == finding.deep_view(),
            given == reasons.deep_view(),
            live.deep_view() =~= profiles_without(model.take(i as int), given),
            retentions.deep_view() =~= kept_for_profiles(model.take(i as int), about, given),
        decreases profiles.len() - i,
    {
        proof {
            assert(model.take(i + 1).drop_last() =~= model.take(i as int));
            assert(model.take(i + 1).last() == profiles@[i as int].deep_view());
        }
        assert(given[i as int] == reasons@[i as int].deep_view());
        match &reasons[i] {
            Some(reason) => {
                let mut one: Finding = finding.replicate();
                one.target_profiles = one_text(&profiles[i]);
                let why: Vec<String> = one_text(reason);
                let kept: Vec<RetentionReport> = retentions_for_finding(&one, "Item retained by an explicit static contract", &why);
                assert(items_of(one.deep_view()) == items_of(about));
                append_items(&mut retentions, &kept);
            },
            None => {
                push_item(&mut live, profiles[i].replicate());
            },
        }
        i = i + 1;
    }
    assert(model.take(i as int) =~= model);
    if live.len() == 0 {
        return Settled { finding: None, retentions };
    }
    let mut remaining: Finding = finding.replicate();
    remaining.target_profiles = live;
    Settled { finding: Some(remaining), retentions }
}

/// What becomes of a finding under the rules and the plugins of its package.
pub open spec fn ruled_finding(
    finding: FindingModel,
    contexts: Seq<PackageContextModel>,
) -> SettledModel {
    match context_named(contexts, finding.workspace) {
        Some(place) => settled_finding(
            finding,
            rule_reason(finding, contexts[place as int]),
            plugin_reasons(finding.target_profiles, finding, contexts[place as int]),
        ),
        None => SettledModel { finding: Some(finding), retentions: Seq::empty() },
    }
}

fn rule_on_finding(finding: &Finding, contexts: &Vec<PackageContext>) -> (r: Settled)
    ensures
        r.finding.deep_view() == ruled_finding(
            finding.deep_view(),
            contexts.deep_view(),
        ).finding,
        r.retentions.deep_view() == ruled_finding(
            finding.deep_view(),
            contexts.deep_view(),
        ).retentions,
{
    match find_named_context(contexts, &finding.workspace) {
        Some(place) => {
            assert(contexts.deep_view()[place as int] == contexts@[place as int].deep_view());
            let context: &PackageContext = &contexts[place];
            let rule: Option<String> = find_rule_reason(finding, context);
            let reasons: Vec<Option<String>> = find_plugin_reasons(
                &finding.target_profiles,
                finding,
                context,
            );
            assert(reasons.deep_view().len() == reasons@.len());
            assert(finding.target_profiles.deep_view().len() == finding.target_profiles@.len());
            settle_finding(finding, &rule, &reasons)
        },
        None => {
            let retentions: Vec<RetentionReport> = Vec::new();
            assert(retentions.deep_view() =~= Seq::empty());
            Settled { finding: Some(finding.replicate()), retentions }
        },
    }
}

/// What remains of findings under rules and plugins.
pub open spec fn remaining_findings(
    items: Seq<FindingModel>,
    contexts: Seq<PackageContextModel>,
) -> Seq<FindingModel>
    decreases items.len(),
{
    if items.len() == 0 {
        Seq::empty()
    } else {
        let rest = remaining_findings(items.drop_last(), contexts);
        let last = items.last();
        match ruled_finding(last, contexts).finding {
            Some(finding) => rest.push(finding),
            None => rest,
        }
    }
}

/// Retentions with what rules and plugins keep of findings.
pub open spec fn with_ruled_retentions(
    items: Seq<FindingModel>,
    start: Seq<RetentionReportModel>,
    contexts: Seq<PackageContextModel>,
) -> Seq<RetentionReportModel>
    decreases items.len(),
{
    if items.len() == 0 {
        start
    } else {
        let rest = with_ruled_retentions(items.drop_last(), start, contexts);
        let last = items.last();
        rest + ruled_finding(last, contexts).retentions
    }
}

/// A report under the rules and plugins of the packages.
pub open spec fn with_retain_rules(
    report: ScanReportModel,
    contexts: Seq<PackageContextModel>,
) -> ScanReportModel {
    ScanReportModel {
        findings: remaining_findings(report.findings, contexts),
        retentions: with_ruled_retentions(report.findings, report.retentions, contexts),
        ..report
    }
}

/// Keeps what the rules and plugins of the packages keep.
pub fn apply_retain_rules(
    contexts: &Vec<PackageContext>,
    report: &mut ScanReport,
)
    ensures
        final(report).deep_view() == with_retain_rules(old(report).deep_view(), contexts.deep_view()),
{
    let ghost before = report.deep_view();
    let ghost given = contexts.deep_view();
    let all: Vec<Finding> = report.findings.replicate();
    let mut remaining: Vec<Finding> = Vec::new();
    let mut retentions: Vec<RetentionReport> = report.retentions.replicate();
    let ghost model = all.deep_view();
    let mut i: usize = 0;
    while i < all.len()
        invariant
            i <= all.len(),
            model == all.deep_view(),
            given == contexts.deep_view(),
            remaining.deep_view() =~= remaining_findings(model.take(i as int), given),
            retentions.deep_view() =~= with_ruled_retentions(model.take(i as int), before.retentions, given),
        decreases all.len() - i,
    {
        proof {
            assert(model.take(i + 1).drop_last() =~= model.take(i as int));
            assert(model.take(i + 1).last() == all@[i as int].deep_view());
        }
        let settled: Settled = rule_on_finding(&all[i], contexts);
        match settled.finding {
            Some(finding) => {
                push_item(&mut remaining, finding);
            },
            None => {},
        }
        append_items(&mut retentions, &settled.retentions);
        i = i + 1;
    }
    assert(model.take(i as int) =~= model);
    report.findings = remaining;
    report.retentions = retentions;
}

/// How firmly a level of confidence stands.
pub open spec fn level_confidence(level: ConfidenceLevel) -> Confidence {
    match level {
        ConfidenceLevel::Low => Confidence::Low,
        ConfidenceLevel::Medium => Confidence::Medium,
        ConfidenceLevel::High => Confidence::High,
    }
}

/// How firmly a level of confidence stands.
#[must_use]
pub fn configuration_confidence(confidence: ConfidenceLevel) -> (r: Confidence)
    ensures
        r == level_confidence(confidence),
{
    match confidence {
        ConfidenceLevel::Low => Confidence::Low,
        ConfidenceLevel::Medium => Confidence::Medium,
        ConfidenceLevel::High => Confidence::High,
    }
}

/// Confidence as a number.
pub open spec fn firmness(confidence: Confidence) -> u8 {
    match confidence {
        Confidence::Incomplete => 0,
        Confidence::Low => 1,
        Confidence::Medium => 2,
        Confidence::High => 3,
    }
}

/// Confidence as a number.
#[must_use]
pub fn confidence_rank(confidence: Confidence) -> (r: u8)
    ensures
        r == firmness(confidence),
{
    match confidence {
        Confidence::Incomplete => 0,
        Confidence::Low => 1,
        Confidence::Medium => 2,
        Confidence::High => 3,
    }
}

/// How firmly findings on a package have to stand to be reported.
pub open spec fn report_level(
    contexts: Seq<PackageContextModel>,
    workspace: Seq<char>,
) -> ConfidenceLevel {
    match context_named(contexts, workspace) {
        Some(place) => match contexts[place as int].effective.confidence {
            Some(confidence) => match confidence.report {
                Some(level) => level,
                None => ConfidenceLevel::Medium,
            },
            None => ConfidenceLevel::Medium,
        },
        None => ConfidenceLevel::Medium,
    }
}

fn find_report_level(contexts: &Vec<PackageContext>, workspace: &str) -> (r: ConfidenceLevel)
    ensures
        r == report_level(contexts.deep_view(), workspace@),
{
    match find_named_context(contexts, workspace) {
        Some(place) => {
            assert(contexts.deep_view()[place as int] == contexts@[place as int].deep_view());
            match contexts[place].effective.confidence {
                Some(confidence) => match confidence.report {
                    Some(level) => level,
                    None => ConfidenceLevel::Medium,
                },
                None => ConfidenceLevel::Medium,
            }
        },
        None => ConfidenceLevel::Medium,
    }
}

/// Findings with those that stand firmly enough.
pub open spec fn firm_findings(
    items: Seq<FindingModel>,
    start: Seq<FindingModel>,
    contexts: Seq<PackageContextModel>,
) -> Seq<FindingModel>
    decreases items.len(),
{
    if items.len() == 0 {
        start
    } else {
        let rest = firm_findings(items.drop_last(), start, contexts);
        let last = items.last();
        if firmness(last.confidence) >= firmness(level_confidence(report_level(contexts, last.workspace))) {
            rest.push(last)
        } else {
            rest
        }
    }
}

fn choose_firm(
    items: &Vec<Finding>,
    contexts: &Vec<PackageContext>,
    out: &mut Vec<Finding>,
)
    ensures
        final(out).deep_view() == firm_findings(items.deep_view(), old(out).deep_view(), contexts.deep_view()),
{
    let ghost start = out.deep_view();
    let ghost contexts_model = contexts.deep_view();
    let ghost model = items.deep_view();
    let mut i: usize = 0;
    while i < items.len()
        invariant
            i <= items.len(),
            model == items.deep_view(),
            contexts_model == contexts.deep_view(),
            out.deep_view() =~= firm_findings(model.take(i as int), start, contexts_model),
        decreases items.len() - i,
    {
        proof {
            assert(model.take(i + 1).drop_last() =~= model.take(i as int));
            assert(model.take(i + 1).last() == items@[i as int].deep_view());
        }
        let item: &Finding = &items[i];
        if confidence_rank(item.confidence) >= confidence_rank(configuration_confidence(find_report_level(contexts, &item.workspace))) {
            push_item(out, item.replicate());
        }
        i = i + 1;
    }
    assert(model.take(i as int) =~= model);
}

/// A report with the findings that stand firmly enough.
pub open spec fn with_confidence(
    report: ScanReportModel,
    contexts: Seq<PackageContextModel>,
) -> ScanReportModel {
    ScanReportModel { findings: firm_findings(report.findings, Seq::empty(), contexts), ..report }
}

/// Leaves out findings that do not stand firmly enough.
pub fn apply_confidence_thresholds(
    contexts: &Vec<PackageContext>,
    report: &mut ScanReport,
)
    ensures
        final(report).deep_view() == with_confidence(old(report).deep_view(), contexts.deep_view()),
{
    let mut findings: Vec<Finding> = Vec::new();
    assert(findings.deep_view() =~= Seq::empty());
    choose_firm(&report.findings, contexts, &mut findings);
    report.findings = findings;
}

/// How firmly findings on a package have to stand to fail a run.
pub open spec fn fail_confidence(context: PackageContextModel) -> Confidence {
    match context.effective.confidence {
        Some(confidence) => match confidence.fail {
            Some(level) => level_confidence(level),
            None => Confidence::High,
        },
        None => Confidence::High,
    }
}

/// How firmly findings on each package have to stand to fail a run.
pub open spec fn fail_table(items: Seq<PackageContextModel>) -> Seq<(Seq<char>, Confidence)>
    decreases items.len(),
{
    if items.len() == 0 {
        Seq::empty()
    } else {
        let rest = fail_table(items.drop_last());
        let last = items.last();
        with_entry::<String, Confidence>(rest, last.workspace_name, fail_confidence(last))
    }
}

/// How firmly findings on each package have to stand to fail a run.
#[must_use]
pub fn failure_thresholds(contexts: &Vec<PackageContext>) -> (r: OrderedMap<String, Confidence>)
    ensures
        r.deep_view() == fail_table(contexts.deep_view()),
{
    let mut table: OrderedMap<String, Confidence> = OrderedMap::new();
    let ghost model = contexts.deep_view();
    let mut i: usize = 0;
    while i < contexts.len()
        invariant
            i <= contexts.len(),
            model == contexts.deep_view(),
            table.deep_view() == fail_table(model.take(i as int)),
        decreases contexts.len() - i,
    {
        proof {
            assert(model.take(i + 1).drop_last() =~= model.take(i as int));
            assert(model.take(i + 1).last() == contexts@[i as int].deep_view());
        }
        let context: &PackageContext = &contexts[i];
        let confidence: Confidence = match context.effective.confidence {
            Some(confidence) => match confidence.fail {
                Some(level) => configuration_confidence(level),
                None => Confidence::High,
            },
            None => Confidence::High,
        };
        table.insert(context.workspace_name.replicate(), confidence);
        i = i + 1;
    }
    assert(model.take(i as int) =~= model);
    table
}

proof fn gaps_name_packages(
    diagnostics: Seq<AnalysisDiagnosticModel>,
    project: WorkspaceDiscoveryModel,
    d: int,
)
    requires
        0 <= d < diagnostics.len(),
        diagnostics[d].blocks_reachability,
    ensures
        blocked_names(diagnostics, project).contains(
            owner_name(project.packages, parsed(diagnostics[d].path)),
        ),
    decreases diagnostics.len(),
{
    let rest = diagnostics.drop_last();
    let last = diagnostics.last();
    with_item_contains::<String>(
        blocked_names(rest, project),
        owner_name(project.packages, parsed(last.path)),
    );
    if d < rest.len() {
        assert(rest[d] == diagnostics[d]);
        gaps_name_packages(rest, project, d);
    }
}

proof fn unblocked_findings_are_unblocked(
    findings: Seq<FindingModel>,
    names: Seq<Seq<char>>,
    i: int,
)
    requires
        0 <= i < unblocked_findings(findings, Seq::empty(), names).len(),
    ensures
        !is_blocked(names, unblocked_findings(findings, Seq::empty(), names)[i].workspace),
    decreases findings.len(),
{
    if findings.len() > 0 {
        let rest = unblocked_findings(findings.drop_last(), Seq::empty(), names);
        if i < rest.len() {
            unblocked_findings_are_unblocked(findings.drop_last(), names, i);
        }
    }
}

/// Where a diagnostic says that not all is known of a package, nothing is found in it and none
/// of its files is called unused; and where it is the package at the root, nothing is in any.
pub proof fn gaps_take_back_conclusions(
    report: ScanReportModel,
    project: WorkspaceDiscoveryModel,
    d: int,
)
    requires
        0 <= d < report.diagnostics.len(),
        report.diagnostics[d].blocks_reachability,
    ensures
        ({
            let name = owner_name(project.packages, parsed(report.diagnostics[d].path));
            let after = without_blocked(report, project);
            &&& forall|i: int|
                0 <= i < after.findings.len() ==> name != "."@ && (
                #[trigger] after.findings[i]).workspace != name
            &&& forall|i: int|
                0 <= i < after.files.len() && (#[trigger] after.files[i]).status
                    == FileStatus::Unreachable ==> name != "."@ && owner_name(
                    project.packages,
                    parsed(after.files[i].path),
                ) != name
        }),
{
    let names = blocked_names(report.diagnostics, project);
    let name = owner_name(project.packages, parsed(report.diagnostics[d].path));
    let after = without_blocked(report, project);
    gaps_name_packages(report.diagnostics, project, d);
    assert(names.len() > 0);
    assert forall|i: int| 0 <= i < after.findings.len() implies name != "."@ && (
    #[trigger] after.findings[i]).workspace != name by {
        unblocked_findings_are_unblocked(report.findings, names, i);
    }
    assert forall|i: int|
        0 <= i < after.files.len() && (#[trigger] after.files[i]).status
            == FileStatus::Unreachable implies name != "."@ && owner_name(
        project.packages,
        parsed(after.files[i].path),
    ) != name by {
        assert(after.files[i] == doubted_file(report.files[i], names, project));
    }
}

} // verus!
