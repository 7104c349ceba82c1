//! The analysis of a whole project: what is to be scanned, and what is reported.

use crate::analysis::members::AnalysisMode;
use crate::application::dependency_results::{
    append_dependency_results, with_dependency_results, InstalledPackage, InstalledPackageModel,
};
use crate::application::diagnostics::{
    analysis_status, enforce_project_diagnostic_limit, limited_for_project, status_of, tidied,
    tidy_diagnostics,
};
use crate::application::errors::{ProjectScanError, ProjectScanErrorModel};
use crate::application::exports::{
    declared_names, declared_package_names, module_targets, workspace_module_targets,
};
use crate::application::findings::{sort_findings, ByFindingPlace};
use crate::application::notices::{
    append_configuration_diagnostics, with_stale_rules, StaleRules, StaleRulesModel,
};
use crate::application::plugin_edges::{
    apply_ignore_rules, collect_plugin_file_edges, edges_of_plugins_need_no_diagnostics, member_modes, member_modes_by_file,
    open_entries, open_world_entries, plugin_edges, project_mode, project_mode_name,
    remaining_files,
};
use crate::application::policy::{
    append_workspace_results, apply_confidence_thresholds, apply_file_fix_eligibility,
    apply_retain_rules, assign_project_context, blocked_names, fail_table, failure_thresholds,
    firm_findings, is_blocked, items_of, remaining_findings, suppress_blocked_findings,
    unblocked_findings, with_blocked_items, with_confidence, with_context, with_fix_eligibility,
    with_package_findings, with_package_retentions, with_retain_rules, with_workspace_results,
    without_blocked,
};
use crate::application::profiles::{
    caches_do_not_change_merged_reports, merge_profile_reports, merged_reports, missed_nothing,
    same_but_for_caches, total_hits, total_misses, with_cache,
};
use crate::application::requests::{
    collect_profile_entries, has_pnp_manifest, has_yarn_pnp_manifest, is_test_path, profile_entries,
    test_path, AnalysisIssue, ProfileEntriesModel, ProjectScanRequest, ProjectScanRequestModel,
};
use crate::application::resolution::{
    AdditionalFileEdge, AdditionalFileEdgeModel, WorkspaceModuleTarget, WorkspaceModuleTargetModel,
};
use crate::application::scan::AnalysisLimits;
use crate::application::targets::{resolve_target_conditions, resolver_conditions};
use crate::collections::{
    collected, lookup, sorted_by, sorted_by_keeps_items, with_entry, with_item, OrderedMap, OrderedSet,
};
use crate::discovery::workspace::{
    PackageContext, PackageContextModel, ProjectConfiguration, ProjectConfigurationModel,
    WorkspaceDiscovery, WorkspaceDiscoveryModel,
};
use crate::domain::facts::{AnalysisDiagnostic, AnalysisDiagnosticModel};
use crate::domain::report::{
    CacheReportModel, Finding, FindingModel, ProjectReport, ProjectReportModel, ReportSummary, RetentionReportModel,
    ScanReport, ScanReportModel,
};
use crate::domain::target::WorldMode;
use crate::paths::{FilePath, PathPartModel};
use crate::plugins::contract::{DetectedBuiltinPlugin, DetectedBuiltinPluginModel};
use crate::text::{join, joined, one_text, same};
use crate::values::{append_items, push_item, Value};
use vstd::prelude::*;

verus! {

/// How a project is scanned in a target profile.
#[derive(Debug, PartialEq, Eq)]
pub struct ProfilePlan {
    pub profile: String,
    pub entries: Vec<FilePath>,
    pub conditions: Vec<String>,
    pub open_world_entries: OrderedSet<String>,
    pub module_targets: Vec<WorkspaceModuleTarget>,
    pub file_edges: Vec<AdditionalFileEdge>,
}

/// What a [`ProfilePlan`] holds.
pub struct ProfilePlanModel {
    pub profile: Seq<char>,
    pub entries: Seq<Seq<PathPartModel>>,
    pub conditions: Seq<Seq<char>>,
    pub open_world_entries: Seq<Seq<char>>,
    pub module_targets: Seq<WorkspaceModuleTargetModel>,
    pub file_edges: Seq<AdditionalFileEdgeModel>,
}

impl DeepView for ProfilePlan {
    type V = ProfilePlanModel;

    open spec fn deep_view(&self) -> ProfilePlanModel {
        ProfilePlanModel {
            profile: self.profile.deep_view(),
            entries: self.entries.deep_view(),
            conditions: self.conditions.deep_view(),
            open_world_entries: self.open_world_entries.deep_view(),
            module_targets: self.module_targets.deep_view(),
            file_edges: self.file_edges.deep_view(),
        }
    }
}

impl Value for ProfilePlan {
    fn replicate(&self) -> (r: Self) {
        ProfilePlan {
            profile: self.profile.replicate(),
            entries: self.entries.replicate(),
            conditions: self.conditions.replicate(),
            open_world_entries: self.open_world_entries.replicate(),
            module_targets: self.module_targets.replicate(),
            file_edges: self.file_edges.replicate(),
        }
    }

    fn same_value(&self, other: &Self) -> (r: bool) {
        self.profile.same_value(&other.profile)
            && self.entries.same_value(&other.entries)
            && self.conditions.same_value(&other.conditions)
            && self.open_world_entries.same_value(&other.open_world_entries)
            && self.module_targets.same_value(&other.module_targets)
            && self.file_edges.same_value(&other.file_edges)
    }
}

/// How a project is scanned.
#[derive(Debug, PartialEq, Eq)]
pub struct ProjectPlan {
    pub files: Vec<FilePath>,
    pub profiles: Vec<ProfilePlan>,
    pub external_packages: OrderedSet<String>,
    pub member_modes: OrderedMap<String, AnalysisMode>,
    /// Whether members of some package are analyzed with the types.
    pub deep: bool,
    pub yarn_pnp: bool,
    /// What tells the facts of these target profiles from those of others.
    pub cache_profile: String,
    pub diagnostics: Vec<AnalysisDiagnostic>,
}

/// What a [`ProjectPlan`] holds.
pub struct ProjectPlanModel {
    pub files: Seq<Seq<PathPartModel>>,
    pub profiles: Seq<ProfilePlanModel>,
    pub external_packages: Seq<Seq<char>>,
    pub member_modes: Seq<(Seq<char>, AnalysisMode)>,
    pub deep: bool,
    pub yarn_pnp: bool,
    pub cache_profile: Seq<char>,
    pub diagnostics: Seq<AnalysisDiagnosticModel>,
}

impl DeepView for ProjectPlan {
    type V = ProjectPlanModel;

    open spec fn deep_view(&self) -> ProjectPlanModel {
        ProjectPlanModel {
            files: self.files.deep_view(),
            profiles: self.profiles.deep_view(),
            external_packages: self.external_packages.deep_view(),
            member_modes: self.member_modes.deep_view(),
            deep: self.deep.deep_view(),
            yarn_pnp: self.yarn_pnp.deep_view(),
            cache_profile: self.cache_profile.deep_view(),
            diagnostics: self.diagnostics.deep_view(),
        }
    }
}

/// How a project is scanned in some target profiles, and what is to be said.
#[verifier::ext_equal]
pub struct PlannedModel {
    pub profiles: Seq<ProfilePlanModel>,
    pub diagnostics: Seq<AnalysisDiagnosticModel>,
}

/// How a project is scanned in one more target profile.
pub open spec fn with_profile_plan(
    rest: PlannedModel,
    profile: Seq<char>,
    entries: Seq<(Seq<char>, Seq<Seq<PathPartModel>>)>,
    project: WorkspaceDiscoveryModel,
    contexts: Seq<PackageContextModel>,
    configurations: Seq<ProjectConfigurationModel>,
    files: Seq<Seq<PathPartModel>>,
    discovered: Seq<Seq<PathPartModel>>,
    limits: AnalysisLimits,
) -> Result<PlannedModel, ProjectScanErrorModel> {
    match lookup(entries, profile) {
        None => Err(ProjectScanErrorModel::NoEntryRoots),
        Some(own) => match resolver_conditions(seq![profile], contexts) {
            Err(error) => Err(error),
            Ok(conditions) => match module_targets(
                project.packages,
                contexts,
                configurations,
                collected::<FilePath>(files),
                profile,
            ) {
                Err(error) => Err(error),
                Ok(targets) => {
                    let made = plugin_edges(
                        rest.diagnostics,
                        project,
                        contexts,
                        files,
                        discovered,
                        profile,
                        limits,
                    );
                    Ok(
                        PlannedModel {
                            profiles: rest.profiles.push(
                                ProfilePlanModel {
                                    profile,
                                    entries: own,
                                    conditions,
                                    open_world_entries: open_entries(own, project, contexts),
                                    module_targets: targets,
                                    file_edges: made.edges,
                                },
                            ),
                            diagnostics: made.diagnostics,
                        },
                    )
                },
            },
        },
    }
}

/// How a project is scanned in some target profiles, or why it cannot be.
pub open spec fn planned_profiles(
    items: Seq<Seq<char>>,
    start: Seq<AnalysisDiagnosticModel>,
    entries: Seq<(Seq<char>, Seq<Seq<PathPartModel>>)>,
    project: WorkspaceDiscoveryModel,
    contexts: Seq<PackageContextModel>,
    configurations: Seq<ProjectConfigurationModel>,
    files: Seq<Seq<PathPartModel>>,
    discovered: Seq<Seq<PathPartModel>>,
    limits: AnalysisLimits,
) -> Result<PlannedModel, ProjectScanErrorModel>
    decreases items.len(),
{
    if items.len() == 0 {
        Ok(PlannedModel { profiles: Seq::empty(), diagnostics: start })
    } else {
        let rest = planned_profiles(
            items.drop_last(),
            start,
            entries,
            project,
            contexts,
            configurations,
            files,
            discovered,
            limits,
        );
        let last = items.last();
        match rest {
            Ok(planned) => with_profile_plan(
                planned,
                last,
                entries,
                project,
                contexts,
                configurations,
                files,
                discovered,
                limits,
            ),
            Err(error) => Err(error),
        }
    }
}

proof fn planned_profiles_fail_early(
    items: Seq<Seq<char>>,
    start: Seq<AnalysisDiagnosticModel>,
    entries: Seq<(Seq<char>, Seq<Seq<PathPartModel>>)>,
    project: WorkspaceDiscoveryModel,
    contexts: Seq<PackageContextModel>,
    configurations: Seq<ProjectConfigurationModel>,
    files: Seq<Seq<PathPartModel>>,
    discovered: Seq<Seq<PathPartModel>>,
    limits: AnalysisLimits,
    n: int,
)
    requires
        0 <= n <= items.len(),
        planned_profiles(items.take(n), start, entries, project, contexts, configurations, files, discovered, limits) is Err,
    ensures
        planned_profiles(items, start, entries, project, contexts, configurations, files, discovered, limits) == planned_profiles(items.take(n), start, entries, project, contexts, configurations, files, discovered, limits),
    decreases items.len() - n,
{
    if n < items.len() {
        assert(items.take(n + 1).drop_last() =~= items.take(n));
        planned_profiles_fail_early(
            items,
            start,
            entries,
            project,
            contexts,
            configurations,
            files,
            discovered,
            limits,
            n + 1,
        );
    } else {
        assert(items.take(n) =~= items);
    }
}

/// Whether the members of some package are analyzed with the types.
pub open spec fn is_deep(items: Seq<PackageContextModel>) -> bool {
    exists|i: int| 0 <= i < items.len() && is_deep_at(#[trigger] items[i])
}

/// Whether this holds of one.
pub open spec fn is_deep_at(item: PackageContextModel) -> bool {
    item.effective.mode == Some(AnalysisMode::Deep)
}

fn any_deep(items: &Vec<PackageContext>) -> (r: bool)
    ensures
        r == is_deep(items.deep_view()),
{
    let ghost model = items.deep_view();
    let mut i: usize = 0;
    while i < items.len()
        invariant
            i <= items.len(),
            model == items.deep_view(),
            forall|k: int| 0 <= k < i ==> !is_deep_at(#[trigger] model[k]),
        decreases items.len() - i,
    {
        assert(model[i as int] == items@[i as int].deep_view());
        let item: &PackageContext = &items[i];
        if (match item.effective.mode { Some(mode) => mode == AnalysisMode::Deep, None => false }) {
            return true;
        }
        i = i + 1;
    }
    false
}

/// What tells the facts of some target profiles from those of others.
pub open spec fn cache_profile(
    conditions: Seq<Seq<char>>,
    profiles: Seq<Seq<char>>,
) -> Seq<char> {
    joined(collected::<String>(conditions + profiles), "\0"@)
}

/// How a project is scanned: which files are left, from where each target profile starts, and
/// what its packages are to each other; or why it cannot be scanned.
pub open spec fn project_plan(
    project: WorkspaceDiscoveryModel,
    contexts: Seq<PackageContextModel>,
    configurations: Seq<ProjectConfigurationModel>,
    files: Seq<Seq<PathPartModel>>,
    discovered: Seq<Seq<PathPartModel>>,
    request: ProjectScanRequestModel,
    profiles: Seq<Seq<char>>,
    pending: Seq<AnalysisDiagnosticModel>,
) -> Result<ProjectPlanModel, ProjectScanErrorModel> {
    let left = remaining_files(files, Seq::empty(), project, contexts);
    if left.len() == 0 {
        Err(ProjectScanErrorModel::NoSourceFiles)
    } else {
        match resolver_conditions(profiles, contexts) {
            Err(error) => Err(error),
            Ok(conditions) => match profile_entries(
                pending,
                project,
                contexts,
                configurations,
                collected::<FilePath>(left),
                request,
                profiles,
            ) {
                Err(error) => Err(error),
                Ok(found) => match planned_profiles(
                    profiles,
                    found.diagnostics,
                    found.entries,
                    project,
                    contexts,
                    configurations,
                    left,
                    discovered,
                    request.limits,
                ) {
                    Err(error) => Err(error),
                    Ok(planned) => Ok(
                        ProjectPlanModel {
                            files: left,
                            profiles: planned.profiles,
                            external_packages: declared_names(project.packages),
                            member_modes: member_modes(left, project, contexts),
                            deep: is_deep(contexts),
                            yarn_pnp: has_pnp_manifest(project.yarn_plug_and_play),
                            cache_profile: cache_profile(conditions, profiles),
                            diagnostics: planned.diagnostics,
                        },
                    ),
                },
            },
        }
    }
}

fn plan_profile(
    profile: &String,
    entries: &OrderedMap<String, Vec<FilePath>>,
    workspace: &WorkspaceDiscovery,
    contexts: &Vec<PackageContext>,
    project_configurations: &Vec<ProjectConfiguration>,
    files: &Vec<FilePath>,
    discovered: &Vec<FilePath>,
    limits: AnalysisLimits,
    Ghost(before): Ghost<PlannedModel>,
    diagnostics: &mut Vec<AnalysisDiagnostic>,
) -> (r: Result<ProfilePlan, ProjectScanError>)
    requires
        before.diagnostics == old(diagnostics).deep_view(),
    ensures
        ({
            let after = with_profile_plan(
                before,
                profile@,
                entries.deep_view(),
                workspace.deep_view(),
                contexts.deep_view(),
                project_configurations.deep_view(),
                files.deep_view(),
                discovered.deep_view(),
                limits,
            );
            match r {
                Ok(plan) => after == Ok::<PlannedModel, ProjectScanErrorModel>(
                    PlannedModel {
                        profiles: before.profiles.push(plan.deep_view()),
                        diagnostics: final(diagnostics).deep_view(),
                    },
                ),
                Err(error) => after == Err::<PlannedModel, ProjectScanErrorModel>(
                    error.deep_view(),
                ),
            }
        }),
{
    let own: Vec<FilePath> = match entries.get(profile) {
        Some(own) => own.replicate(),
        None => {
            return Err(ProjectScanError::NoEntryRoots);
        },
    };
    let selected: Vec<String> = one_text(profile);
    let conditions: Vec<String> = match resolve_target_conditions(&selected, contexts) {
        Ok(conditions) => conditions,
        Err(error) => {
            return Err(error);
        },
    };
    let open: OrderedSet<String> = open_world_entries(&own, workspace, contexts);
    let file_set: OrderedSet<FilePath> = OrderedSet::from_items(files.replicate());
    let targets: Vec<WorkspaceModuleTarget> = match workspace_module_targets(
        workspace,
        contexts,
        project_configurations,
        &file_set,
        profile,
    ) {
        Ok(targets) => targets,
        Err(error) => {
            return Err(error);
        },
    };
    let edges: Vec<AdditionalFileEdge> = collect_plugin_file_edges(
        workspace,
        contexts,
        files,
        discovered,
        profile,
        limits,
        diagnostics,
    );
    Ok(
        ProfilePlan {
            profile: profile.replicate(),
            entries: own,
            conditions,
            open_world_entries: open,
            module_targets: targets,
            file_edges: edges,
        },
    )
}

/// How a project is scanned: which files are left, from where each target profile starts, and
/// what its packages are to each other; or why it cannot be scanned. `discovered` are the
/// files of the project, analyzed or not, and `pending` what is already to be said.
pub fn plan_project(
    workspace: &WorkspaceDiscovery,
    contexts: &Vec<PackageContext>,
    project_configurations: &Vec<ProjectConfiguration>,
    files: &Vec<FilePath>,
    discovered: &Vec<FilePath>,
    request: &ProjectScanRequest,
    profiles: &Vec<String>,
    pending: &Vec<AnalysisDiagnostic>,
) -> (r: Result<ProjectPlan, ProjectScanError>)
    ensures
        ({
            let plan = project_plan(
                workspace.deep_view(),
                contexts.deep_view(),
                project_configurations.deep_view(),
                files.deep_view(),
                discovered.deep_view(),
                request.deep_view(),
                profiles.deep_view(),
                pending.deep_view(),
            );
            match r {
                Ok(found) => plan == Ok::<ProjectPlanModel, ProjectScanErrorModel>(
                    found.deep_view(),
                ),
                Err(error) => plan == Err::<ProjectPlanModel, ProjectScanErrorModel>(
                    error.deep_view(),
                ),
            }
        }),
{
    let mut left: Vec<FilePath> = files.replicate();
    apply_ignore_rules(&mut left, workspace, contexts);
    assert(left.deep_view().len() == left@.len());
    if left.len() == 0 {
        return Err(ProjectScanError::NoSourceFiles);
    }
    let conditions: Vec<String> = match resolve_target_conditions(profiles, contexts) {
        Ok(conditions) => conditions,
        Err(error) => {
            return Err(error);
        },
    };
    let mut diagnostics: Vec<AnalysisDiagnostic> = pending.replicate();
    let file_set: OrderedSet<FilePath> = OrderedSet::from_items(left.replicate());
    let entries: OrderedMap<String, Vec<FilePath>> = match collect_profile_entries(
        workspace,
        contexts,
        project_configurations,
        &file_set,
        request,
        profiles,
        &mut diagnostics,
    ) {
        Ok(entries) => entries,
        Err(error) => {
            return Err(error);
        },
    };
    let ghost start = diagnostics.deep_view();
    let ghost starts = entries.deep_view();
    let ghost project = workspace.deep_view();
    let ghost given = contexts.deep_view();
    let ghost configurations = project_configurations.deep_view();
    let ghost kept = left.deep_view();
    let ghost others = discovered.deep_view();
    let ghost all = project_plan(
        project,
        given,
        configurations,
        files.deep_view(),
        others,
        request.deep_view(),
        profiles.deep_view(),
        pending.deep_view(),
    );
    assert(all is Err <==> planned_profiles(
        profiles.deep_view(),
        start,
        starts,
        project,
        given,
        configurations,
        kept,
        others,
        request.limits,
    ) is Err);
    let mut plans: Vec<ProfilePlan> = Vec::new();
    assert(plans.deep_view() =~= Seq::empty());
    let ghost model = profiles.deep_view();
    let mut i: usize = 0;
    while i < profiles.len()
        invariant
            i <= profiles.len(),
            model == profiles.deep_view(),
            starts == entries.deep_view(),
            project == workspace.deep_view(),
            given == contexts.deep_view(),
            configurations == project_configurations.deep_view(),
            kept == left.deep_view(),
            others == discovered.deep_view(),
            all == project_plan(
                project,
                given,
                configurations,
                files.deep_view(),
                others,
                request.deep_view(),
                model,
                pending.deep_view(),
            ),
            planned_profiles(model, start, starts, project, given, configurations, kept, others, request.limits) matches Err(e) ==> all == Err::<ProjectPlanModel, ProjectScanErrorModel>(e),
            planned_profiles(model.take(i as int), start, starts, project, given, configurations, kept, others, request.limits) == Ok::<PlannedModel, ProjectScanErrorModel>(PlannedModel { profiles: plans.deep_view(), diagnostics: diagnostics.deep_view() }),
        decreases profiles.len() - i,
    {
        proof {
            assert(model.take(i + 1).drop_last() =~= model.take(i as int));
            assert(model.take(i + 1).last() == profiles@[i as int].deep_view());
        }
        let ghost before = PlannedModel {
            profiles: plans.deep_view(),
            diagnostics: diagnostics.deep_view(),
        };
        match plan_profile(
            &profiles[i],
            &entries,
            workspace,
            contexts,
            project_configurations,
            &left,
            discovered,
            request.limits,
            Ghost(before),
            &mut diagnostics,
        ) {
            Ok(plan) => {
                push_item(&mut plans, plan);
            },
            Err(error) => {
                proof {
                    planned_profiles_fail_early(
                        model,
                        start,
                        starts,
                        project,
                        given,
                        configurations,
                        kept,
                        others,
                        request.limits,
                        i + 1,
                    );
                }
                return Err(error);
            },
        }
        i = i + 1;
    }
    assert(model.take(i as int) =~= model);
    let mut texts: Vec<String> = conditions.replicate();
    append_items(&mut texts, profiles);
    let named: OrderedSet<String> = OrderedSet::from_items(texts);
    let member_modes: OrderedMap<String, AnalysisMode> = member_modes_by_file(
        &left,
        workspace,
        contexts,
    );
    Ok(
        ProjectPlan {
            files: left,
            profiles: plans,
            external_packages: declared_package_names(workspace),
            member_modes,
            deep: any_deep(contexts),
            yarn_pnp: has_yarn_pnp_manifest(&workspace.yarn_plug_and_play),
            cache_profile: join(named.items(), "\0"),
            diagnostics,
        },
    )
}

/// The family that a type of findings belongs to.
pub open spec fn family_of(issue_type: Seq<char>) -> Option<AnalysisIssue> {
    if issue_type == "unusedFiles"@ {
        Some(AnalysisIssue::Files)
    } else if issue_type == "unusedExport"@ {
        Some(AnalysisIssue::Exports)
    } else if issue_type == "unusedDeclaration"@ {
        Some(AnalysisIssue::Declarations)
    } else if issue_type == "unusedMember"@ {
        Some(AnalysisIssue::Members)
    } else if issue_type == "unusedDependency"@ || issue_type == "unlistedDependency"@ || issue_type == "misplacedDependency"@ {
        Some(AnalysisIssue::Dependencies)
    } else if issue_type == "unusedWorkspace"@ {
        Some(AnalysisIssue::Workspaces)
    } else {
        None
    }
}

/// The family that a type of findings belongs to.
#[must_use]
pub fn issue_family(issue_type: &str) -> (r: Option<AnalysisIssue>)
    ensures
        r == family_of(issue_type@),
{
    if same(issue_type, "unusedFiles") {
        Some(AnalysisIssue::Files)
    } else if same(issue_type, "unusedExport") {
        Some(AnalysisIssue::Exports)
    } else if same(issue_type, "unusedDeclaration") {
        Some(AnalysisIssue::Declarations)
    } else if same(issue_type, "unusedMember") {
        Some(AnalysisIssue::Members)
    } else if same(issue_type, "unusedDependency") || same(issue_type, "unlistedDependency") || same(issue_type, "misplacedDependency") {
        Some(AnalysisIssue::Dependencies)
    } else if same(issue_type, "unusedWorkspace") {
        Some(AnalysisIssue::Workspaces)
    } else {
        None
    }
}

/// Whether findings of a type are wanted.
pub open spec fn is_wanted(issue_type: Seq<char>, issues: Seq<AnalysisIssue>) -> bool {
    match family_of(issue_type) {
        Some(issue) => issues.contains(issue),
        None => true,
    }
}

/// Whether findings of a type are wanted.
#[must_use]
pub fn wants(issue_type: &str, issues: &OrderedSet<AnalysisIssue>) -> (r: bool)
    ensures
        r == is_wanted(issue_type@, issues.deep_view()),
{
    match issue_family(issue_type) {
        Some(issue) => issues.contains(&issue),
        None => true,
    }
}

/// Whether one of some paths is one of a test.
pub open spec fn names_test_path(items: Seq<Seq<char>>) -> bool {
    exists|i: int| 0 <= i < items.len() && test_path(#[trigger] items[i])
}

fn any_test_path(items: &Vec<String>) -> (r: bool)
    ensures
        r == names_test_path(items.deep_view()),
{
    let ghost model = items.deep_view();
    let mut i: usize = 0;
    while i < items.len()
        invariant
            i <= items.len(),
            model == items.deep_view(),
            forall|k: int| 0 <= k < i ==> !test_path(#[trigger] model[k]),
        decreases items.len() - i,
    {
        assert(model[i as int] == items@[i as int].deep_view());
        let item: &String = &items[i];
        if is_test_path(item) {
            return true;
        }
        i = i + 1;
    }
    false
}

/// Findings with those that are not on files.
pub open spec fn other_findings(
    items: Seq<FindingModel>,
    start: Seq<FindingModel>,
) -> Seq<FindingModel>
    decreases items.len(),
{
    if items.len() == 0 {
        start
    } else {
        let rest = other_findings(items.drop_last(), start);
        let last = items.last();
        if last.issue_type != "unusedFiles"@ {
            rest.push(last)
        } else {
            rest
        }
    }
}

fn choose_others(
    items: &Vec<Finding>,
    out: &mut Vec<Finding>,
)
    ensures
        final(out).deep_view() == other_findings(items.deep_view(), old(out).deep_view()),
{
    let ghost start = out.deep_view();
    let ghost model = items.deep_view();
    let mut i: usize = 0;
    while i < items.len()
        invariant
            i <= items.len(),
            model == items.deep_view(),
            out.deep_view() =~= other_findings(model.take(i as int), start),
        decreases items.len() - i,
    {
        proof {
            assert(model.take(i + 1).drop_last() =~= model.take(i as int));
            assert(model.take(i + 1).last() == items@[i as int].deep_view());
        }
        let item: &Finding = &items[i];
        if !same(item.issue_type, "unusedFiles") {
            push_item(out, item.replicate());
        }
        i = i + 1;
    }
    assert(model.take(i as int) =~= model);
}

/// Findings with those that are wanted.
pub open spec fn wanted_findings(
    items: Seq<FindingModel>,
    start: Seq<FindingModel>,
    issues: Seq<AnalysisIssue>,
    report_tests: bool,
) -> Seq<FindingModel>
    decreases items.len(),
{
    if items.len() == 0 {
        start
    } else {
        let rest = wanted_findings(items.drop_last(), start, issues, report_tests);
        let last = items.last();
        if is_wanted(last.issue_type, issues) && (report_tests || !names_test_path(last.paths)) {
            rest.push(last)
        } else {
            rest
        }
    }
}

fn choose_wanted(
    items: &Vec<Finding>,
    issues: &OrderedSet<AnalysisIssue>,
    report_tests: bool,
    out: &mut Vec<Finding>,
)
    ensures
        final(out).deep_view() == wanted_findings(items.deep_view(), old(out).deep_view(), issues.deep_view(), report_tests),
{
    let ghost start = out.deep_view();
    let ghost issues_model = issues.deep_view();
    let ghost model = items.deep_view();
    let mut i: usize = 0;
    while i < items.len()
        invariant
            i <= items.len(),
            model == items.deep_view(),
            issues_model == issues.deep_view(),
            out.deep_view() =~= wanted_findings(model.take(i as int), start, issues_model, report_tests),
        decreases items.len() - i,
    {
        proof {
            assert(model.take(i + 1).drop_last() =~= model.take(i as int));
            assert(model.take(i + 1).last() == items@[i as int].deep_view());
        }
        let item: &Finding = &items[i];
        if wants(item.issue_type, issues) && (report_tests || !any_test_path(&item.paths)) {
            push_item(out, item.replicate());
        }
        i = i + 1;
    }
    assert(model.take(i as int) =~= model);
}

/// The names of packages.
pub open spec fn context_names(items: Seq<PackageContextModel>) -> Seq<Seq<char>>
    decreases items.len(),
{
    if items.len() == 0 {
        Seq::empty()
    } else {
        let rest = context_names(items.drop_last());
        let last = items.last();
        rest.push(last.workspace_name)
    }
}

/// Whether anything outside can use a package, in one word.
pub open spec fn world_text(context: PackageContextModel) -> Seq<char> {
    match context.effective.world {
        Some(world) => if world == WorldMode::Open {
            "open"@
        } else {
            "closed"@
        },
        None => "closed"@,
    }
}

/// Whether anything outside can use each package.
pub open spec fn world_table(items: Seq<PackageContextModel>) -> Seq<(Seq<char>, Seq<char>)>
    decreases items.len(),
{
    if items.len() == 0 {
        Seq::empty()
    } else {
        let rest = world_table(items.drop_last());
        let last = items.last();
        with_entry::<String, Seq<char>>(rest, last.workspace_name, world_text(last))
    }
}

/// Names with those of plugins.
pub open spec fn with_plugin_ids(
    items: Seq<DetectedBuiltinPluginModel>,
    start: Seq<Seq<char>>,
) -> Seq<Seq<char>>
    decreases items.len(),
{
    if items.len() == 0 {
        start
    } else {
        let rest = with_plugin_ids(items.drop_last(), start);
        let last = items.last();
        with_item::<String>(rest, last.plugin.id)
    }
}

/// The plugins of packages, in order.
pub open spec fn plugin_ids(items: Seq<PackageContextModel>) -> Seq<Seq<char>>
    decreases items.len(),
{
    if items.len() == 0 {
        Seq::empty()
    } else {
        let rest = plugin_ids(items.drop_last());
        let last = items.last();
        with_plugin_ids(last.plugins, rest)
    }
}

fn add_plugin_ids(plugins: &Vec<DetectedBuiltinPlugin>, ids: &mut OrderedSet<String>)
    ensures
        final(ids).deep_view() == with_plugin_ids(plugins.deep_view(), old(ids).deep_view()),
{
    let ghost start = ids.deep_view();
    let ghost model = plugins.deep_view();
    let mut i: usize = 0;
    while i < plugins.len()
        invariant
            i <= plugins.len(),
            model == plugins.deep_view(),
            ids.deep_view() == with_plugin_ids(model.take(i as int), start),
        decreases plugins.len() - i,
    {
        proof {
            assert(model.take(i + 1).drop_last() =~= model.take(i as int));
            assert(model.take(i + 1).last() == plugins@[i as int].deep_view());
        }
        ids.insert(plugins[i].plugin.id.replicate());
        i = i + 1;
    }
    assert(model.take(i as int) =~= model);
}

/// What a report says of the project.
pub open spec fn project_summary(
    contexts: Seq<PackageContextModel>,
    profiles: Seq<Seq<char>>,
    sources: Seq<Seq<char>>,
) -> ProjectReportModel {
    ProjectReportModel {
        mode: project_mode(contexts),
        workspaces: context_names(contexts),
        worlds: world_table(contexts),
        target_profiles: profiles,
        failure_thresholds: fail_table(contexts),
        detected_plugins: plugin_ids(contexts),
        configuration_sources: sources,
    }
}

/// What a report says of the project.
#[must_use]
pub fn summarize_project(
    contexts: &Vec<PackageContext>,
    profiles: &Vec<String>,
    sources: &Vec<String>,
) -> (r: ProjectReport)
    ensures
        r.deep_view() == project_summary(
            contexts.deep_view(),
            profiles.deep_view(),
            sources.deep_view(),
        ),
{
    let mut workspaces: Vec<String> = Vec::new();
    let mut worlds: OrderedMap<String, String> = OrderedMap::new();
    let mut plugins: OrderedSet<String> = OrderedSet::new();
    let ghost model = contexts.deep_view();
    let mut i: usize = 0;
    while i < contexts.len()
        invariant
            i <= contexts.len(),
            model == contexts.deep_view(),
            workspaces.deep_view() =~= context_names(model.take(i as int)),
            worlds.deep_view() == world_table(model.take(i as int)),
            plugins.deep_view() == plugin_ids(model.take(i as int)),
        decreases contexts.len() - i,
    {
        proof {
            assert(model.take(i + 1).drop_last() =~= model.take(i as int));
            assert(model.take(i + 1).last() == contexts@[i as int].deep_view());
        }
        let context: &PackageContext = &contexts[i];
        let world: WorldMode = match context.effective.world {
            Some(world) => world,
            None => WorldMode::Closed,
        };
        let text: &'static str = if world == WorldMode::Open {
            "open"
        } else {
            "closed"
        };
        push_item(&mut workspaces, context.workspace_name.replicate());
        worlds.insert(context.workspace_name.replicate(), text.to_string());
        add_plugin_ids(&context.plugins, &mut plugins);
        i = i + 1;
    }
    assert(model.take(i as int) =~= model);
    ProjectReport {
        mode: project_mode_name(contexts),
        workspaces,
        worlds,
        target_profiles: profiles.replicate(),
        failure_thresholds: failure_thresholds(contexts),
        detected_plugins: plugins.into_items(),
        configuration_sources: sources.replicate(),
    }
}

/// A report whose status and number of diagnostics follow from its diagnostics.
pub open spec fn refreshed(report: ScanReportModel) -> ScanReportModel {
    ScanReportModel {
        summary: ReportSummary {
            diagnostics: report.diagnostics.len() as usize,
            ..report.summary
        },
        status: status_of(report.diagnostics),
        ..report
    }
}

/// Makes the status and the number of diagnostics follow from the diagnostics.
pub fn refresh_report_state(report: &mut ScanReport)
    ensures
        final(report).deep_view() == refreshed(old(report).deep_view()),
{
    assert(report.diagnostics.deep_view().len() == report.diagnostics@.len());
    report.summary = ReportSummary {
        files: report.summary.files,
        reachable_files: report.summary.reachable_files,
        unreachable_files: report.summary.unreachable_files,
        incomplete_files: report.summary.incomplete_files,
        diagnostics: report.diagnostics.len(),
    };
    report.status = analysis_status(&report.diagnostics);
}

/// What is known of a project besides what its scans say.
pub struct ProjectKnowledge<'a> {
    pub workspace: &'a WorkspaceDiscovery,
    pub contexts: &'a Vec<PackageContext>,
    pub project_configurations: &'a Vec<ProjectConfiguration>,
    /// The installed dependencies, as far as their manifests can be read.
    pub installed: &'a Vec<InstalledPackage>,
    /// The rules of each package that mean no file.
    pub stale: &'a Vec<StaleRules>,
    /// The configurations that were read.
    pub configuration_sources: &'a Vec<String>,
}

/// What is known of a project besides what its scans say.
#[verifier::ext_equal]
pub struct ProjectKnowledgeModel {
    pub workspace: WorkspaceDiscoveryModel,
    pub contexts: Seq<PackageContextModel>,
    pub project_configurations: Seq<ProjectConfigurationModel>,
    pub installed: Seq<InstalledPackageModel>,
    pub stale: Seq<StaleRulesModel>,
    pub configuration_sources: Seq<Seq<char>>,
}

impl DeepView for ProjectKnowledge<'_> {
    type V = ProjectKnowledgeModel;

    open spec fn deep_view(&self) -> ProjectKnowledgeModel {
        ProjectKnowledgeModel {
            workspace: self.workspace.deep_view(),
            contexts: self.contexts.deep_view(),
            project_configurations: self.project_configurations.deep_view(),
            installed: self.installed.deep_view(),
            stale: self.stale.deep_view(),
            configuration_sources: self.configuration_sources.deep_view(),
        }
    }
}

/// A report with what is to be said besides, in order and as far as the limit allows.
pub open spec fn with_pending(
    report: ScanReportModel,
    pending: Seq<AnalysisDiagnosticModel>,
    stale: Seq<StaleRulesModel>,
    limit: usize,
) -> ScanReportModel {
    ScanReportModel {
        diagnostics: tidied(
            limited_for_project(report.diagnostics + with_stale_rules(stale, pending), limit),
        ),
        ..report
    }
}

fn add_pending(
    report: &mut ScanReport,
    pending: &Vec<AnalysisDiagnostic>,
    stale: &Vec<StaleRules>,
    limit: usize,
)
    ensures
        final(report).deep_view() == with_pending(
            old(report).deep_view(),
            pending.deep_view(),
            stale.deep_view(),
            limit,
        ),
{
    let mut more: Vec<AnalysisDiagnostic> = pending.replicate();
    append_configuration_diagnostics(&mut more, stale);
    let mut diagnostics: Vec<AnalysisDiagnostic> = report.diagnostics.replicate();
    append_items(&mut diagnostics, &more);
    enforce_project_diagnostic_limit(&mut diagnostics, limit);
    tidy_diagnostics(&mut diagnostics);
    report.diagnostics = diagnostics;
}

/// A report with the results that are wanted: on dependencies and on packages, and on files
/// unless they are not.
pub open spec fn with_wanted_results(
    report: ScanReportModel,
    known: ProjectKnowledgeModel,
    issues: Seq<AnalysisIssue>,
    profiles: Seq<Seq<char>>,
) -> ScanReportModel {
    let files = if issues.contains(AnalysisIssue::Files) {
        report
    } else {
        ScanReportModel { findings: other_findings(report.findings, Seq::empty()), ..report }
    };
    let dependencies = if issues.contains(AnalysisIssue::Dependencies) {
        with_dependency_results(
            files,
            known.workspace,
            known.contexts,
            known.project_configurations,
            known.installed,
            profiles,
        )
    } else {
        files
    };
    if issues.contains(AnalysisIssue::Workspaces) {
        with_workspace_results(dependencies, known.contexts, known.workspace, profiles)
    } else {
        dependencies
    }
}

fn add_wanted_results(
    report: &mut ScanReport,
    known: &ProjectKnowledge<'_>,
    issues: &OrderedSet<AnalysisIssue>,
    profiles: &Vec<String>,
)
    ensures
        final(report).deep_view() == with_wanted_results(
            old(report).deep_view(),
            known.deep_view(),
            issues.deep_view(),
            profiles.deep_view(),
        ),
{
    if !issues.contains(&AnalysisIssue::Files) {
        let mut findings: Vec<Finding> = Vec::new();
        assert(findings.deep_view() =~= Seq::empty());
        choose_others(&report.findings, &mut findings);
        report.findings = findings;
    }
    if issues.contains(&AnalysisIssue::Dependencies) {
        append_dependency_results(
            known.workspace,
            known.contexts,
            known.project_configurations,
            known.installed,
            profiles,
            report,
        );
    }
    if issues.contains(&AnalysisIssue::Workspaces) {
        append_workspace_results(known.workspace, known.contexts, profiles, report);
    }
}

/// A report under the configuration of the project: findings are placed, may be applied,
/// are taken back where not all is known, are kept away by rules and plugins, and have to
/// stand firmly enough.
pub open spec fn under_policy(
    report: ScanReportModel,
    known: ProjectKnowledgeModel,
    profiles: Seq<Seq<char>>,
) -> ScanReportModel {
    let placed = with_context(report, known.workspace, profiles);
    let fixable = with_fix_eligibility(placed, known.contexts, profiles);
    let certain = without_blocked(fixable, known.workspace);
    with_confidence(with_retain_rules(certain, known.contexts), known.contexts)
}

/// The report on a project.
pub open spec fn project_report(
    report: ScanReportModel,
    known: ProjectKnowledgeModel,
    request: ProjectScanRequestModel,
    profiles: Seq<Seq<char>>,
    pending: Seq<AnalysisDiagnosticModel>,
) -> ScanReportModel {
    let noted = with_pending(
        with_context(report, known.workspace, profiles),
        pending,
        known.stale,
        request.limits.max_diagnostics,
    );
    let decided = under_policy(
        with_wanted_results(noted, known, request.issues, profiles),
        known,
        profiles,
    );
    refreshed(
        ScanReportModel {
            findings: sorted_by::<Finding, ByFindingPlace>(
                wanted_findings(
                    decided.findings,
                    Seq::empty(),
                    request.issues,
                    request.report_tests,
                ),
            ),
            project: Some(
                project_summary(known.contexts, profiles, known.configuration_sources),
            ),
            ..decided
        },
    )
}

/// The report on a project, from the merged report of its target profiles.
#[must_use]
pub fn conclude_project(
    merged: ScanReport,
    known: &ProjectKnowledge<'_>,
    request: &ProjectScanRequest,
    profiles: &Vec<String>,
    pending: &Vec<AnalysisDiagnostic>,
) -> (r: ScanReport)
    ensures
        r.deep_view() == project_report(
            merged.deep_view(),
            known.deep_view(),
            request.deep_view(),
            profiles.deep_view(),
            pending.deep_view(),
        ),
{
    let mut report: ScanReport = merged;
    assign_project_context(known.workspace, profiles, &mut report);
    add_pending(&mut report, pending, known.stale, request.limits.max_diagnostics);
    add_wanted_results(&mut report, known, &request.issues, profiles);
    assign_project_context(known.workspace, profiles, &mut report);
    apply_file_fix_eligibility(known.contexts, profiles, &mut report);
    suppress_blocked_findings(known.workspace, &mut report);
    apply_retain_rules(known.contexts, &mut report);
    apply_confidence_thresholds(known.contexts, &mut report);
    let mut findings: Vec<Finding> = Vec::new();
    assert(findings.deep_view() =~= Seq::empty());
    choose_wanted(&report.findings, &request.issues, request.report_tests, &mut findings);
    sort_findings(&mut findings);
    report.findings = findings;
    report.project = Some(
        summarize_project(known.contexts, profiles, known.configuration_sources),
    );
    refresh_report_state(&mut report);
    report
}

/// The report on a project, from the reports of its target profiles, or why there is none.
pub open spec fn scanned_project(
    reports: Seq<(Seq<char>, ScanReportModel)>,
    known: ProjectKnowledgeModel,
    request: ProjectScanRequestModel,
    profiles: Seq<Seq<char>>,
    pending: Seq<AnalysisDiagnosticModel>,
) -> Result<ScanReportModel, ProjectScanErrorModel> {
    match merged_reports(reports) {
        Err(error) => Err(error),
        Ok(merged) => Ok(project_report(merged, known, request, profiles, pending)),
    }
}

/// Reports on a project from the reports of its target profiles.
///
/// # Errors
///
/// Returns an error where no target profile was scanned.
pub fn scan_project(
    reports: &Vec<(String, ScanReport)>,
    known: &ProjectKnowledge<'_>,
    request: &ProjectScanRequest,
    profiles: &Vec<String>,
    pending: &Vec<AnalysisDiagnostic>,
) -> (r: Result<ScanReport, ProjectScanError>)
    requires
        total_hits(reports.deep_view()) <= usize::MAX,
        total_misses(reports.deep_view()) <= usize::MAX,
    ensures
        match r {
            Ok(report) => scanned_project(
                reports.deep_view(),
                known.deep_view(),
                request.deep_view(),
                profiles.deep_view(),
                pending.deep_view(),
            ) == Ok::<ScanReportModel, ProjectScanErrorModel>(report.deep_view()),
            Err(error) => scanned_project(
                reports.deep_view(),
                known.deep_view(),
                request.deep_view(),
                profiles.deep_view(),
                pending.deep_view(),
            ) == Err::<ScanReportModel, ProjectScanErrorModel>(error.deep_view()),
        },
{
    match merge_profile_reports(reports) {
        Err(error) => Err(error),
        Ok(merged) => Ok(conclude_project(merged, known, request, profiles, pending)),
    }
}

/// Whether none of some findings is on a package of which not all is known.
pub open spec fn none_blocked(findings: Seq<FindingModel>, names: Seq<Seq<char>>) -> bool {
    forall|i: int|
        0 <= i < findings.len() ==> !is_blocked(names, (#[trigger] findings[i]).workspace)
}

proof fn unblocked_are_not_blocked(
    items: Seq<FindingModel>,
    start: Seq<FindingModel>,
    names: Seq<Seq<char>>,
)
    requires
        none_blocked(start, names),
    ensures
        none_blocked(unblocked_findings(items, start, names), names),
    decreases items.len(),
{
    if items.len() > 0 {
        unblocked_are_not_blocked(items.drop_last(), start, names);
    }
}

proof fn remaining_are_not_blocked(
    items: Seq<FindingModel>,
    contexts: Seq<PackageContextModel>,
    names: Seq<Seq<char>>,
)
    requires
        none_blocked(items, names),
    ensures
        none_blocked(remaining_findings(items, contexts), names),
    decreases items.len(),
{
    if items.len() > 0 {
        let rest = items.drop_last();
        assert forall|i: int| 0 <= i < rest.len() implies !is_blocked(
            names,
            (#[trigger] rest[i]).workspace,
        ) by {
            assert(rest[i] == items[i]);
        }
        remaining_are_not_blocked(rest, contexts, names);
        assert(items.last() == items[items.len() - 1]);
    }
}

proof fn firm_are_not_blocked(
    items: Seq<FindingModel>,
    start: Seq<FindingModel>,
    contexts: Seq<PackageContextModel>,
    names: Seq<Seq<char>>,
)
    requires
        none_blocked(items, names),
        none_blocked(start, names),
    ensures
        none_blocked(firm_findings(items, start, contexts), names),
    decreases items.len(),
{
    if items.len() > 0 {
        let rest = items.drop_last();
        assert forall|i: int| 0 <= i < rest.len() implies !is_blocked(
            names,
            (#[trigger] rest[i]).workspace,
        ) by {
            assert(rest[i] == items[i]);
        }
        firm_are_not_blocked(rest, start, contexts, names);
        assert(items.last() == items[items.len() - 1]);
    }
}

/// Whether all of some findings are wanted, firm enough, and not on packages of which not all
/// is known.
pub open spec fn all_reportable(
    findings: Seq<FindingModel>,
    names: Seq<Seq<char>>,
    issues: Seq<AnalysisIssue>,
    report_tests: bool,
) -> bool {
    forall|i: int|
        0 <= i < findings.len() ==> is_reportable(
            #[trigger] findings[i],
            names,
            issues,
            report_tests,
        )
}

/// Whether a finding is wanted and not on a package of which not all is known.
pub open spec fn is_reportable(
    finding: FindingModel,
    names: Seq<Seq<char>>,
    issues: Seq<AnalysisIssue>,
    report_tests: bool,
) -> bool {
    &&& !is_blocked(names, finding.workspace)
    &&& is_wanted(finding.issue_type, issues)
    &&& report_tests || !names_test_path(finding.paths)
}

proof fn wanted_are_reportable(
    items: Seq<FindingModel>,
    names: Seq<Seq<char>>,
    issues: Seq<AnalysisIssue>,
    report_tests: bool,
)
    requires
        none_blocked(items, names),
    ensures
        all_reportable(
            wanted_findings(items, Seq::empty(), issues, report_tests),
            names,
            issues,
            report_tests,
        ),
    decreases items.len(),
{
    if items.len() > 0 {
        let rest = items.drop_last();
        assert forall|i: int| 0 <= i < rest.len() implies !is_blocked(
            names,
            (#[trigger] rest[i]).workspace,
        ) by {
            assert(rest[i] == items[i]);
        }
        wanted_are_reportable(rest, names, issues, report_tests);
        assert(items.last() == items[items.len() - 1]);
    }
}

proof fn sorting_keeps_reportable(
    findings: Seq<FindingModel>,
    names: Seq<Seq<char>>,
    issues: Seq<AnalysisIssue>,
    report_tests: bool,
)
    requires
        all_reportable(findings, names, issues, report_tests),
    ensures
        all_reportable(
            sorted_by::<Finding, ByFindingPlace>(findings),
            names,
            issues,
            report_tests,
        ),
{
    let sorted = sorted_by::<Finding, ByFindingPlace>(findings);
    sorted_by_keeps_items::<Finding, ByFindingPlace>(findings);
    findings.to_multiset_ensures();
    sorted.to_multiset_ensures();
    assert forall|i: int| 0 <= i < sorted.len() implies is_reportable(
        #[trigger] sorted[i],
        names,
        issues,
        report_tests,
    ) by {
        assert(sorted.contains(sorted[i]));
        assert(sorted.to_multiset().count(sorted[i]) > 0);
        assert(findings.to_multiset().count(sorted[i]) > 0);
        assert(findings.contains(sorted[i]));
        let k = choose|k: int| 0 <= k < findings.len() && findings[k] == sorted[i];
        assert(is_reportable(findings[k], names, issues, report_tests));
    }
}

/// Whatever the scans of a project say, its report holds no finding on a package of which a
/// diagnostic says that not all is known, none of a family that was not asked for, and none
/// on test files unless these were asked for.
pub proof fn reports_hold_no_unwanted_findings(
    report: ScanReportModel,
    known: ProjectKnowledgeModel,
    request: ProjectScanRequestModel,
    profiles: Seq<Seq<char>>,
    pending: Seq<AnalysisDiagnosticModel>,
)
    ensures
        ({
            let result = project_report(report, known, request, profiles, pending);
            all_reportable(
                result.findings,
                blocked_names(result.diagnostics, known.workspace),
                request.issues,
                request.report_tests,
            )
        }),
{
    let noted = with_pending(
        with_context(report, known.workspace, profiles),
        pending,
        known.stale,
        request.limits.max_diagnostics,
    );
    let full = with_wanted_results(noted, known, request.issues, profiles);
    let placed = with_context(full, known.workspace, profiles);
    let fixable = with_fix_eligibility(placed, known.contexts, profiles);
    let names = blocked_names(fixable.diagnostics, known.workspace);
    let certain = without_blocked(fixable, known.workspace);
    assert(none_blocked(certain.findings, names)) by {
        if names.len() > 0 {
            unblocked_are_not_blocked(fixable.findings, Seq::empty(), names);
        }
    }
    remaining_are_not_blocked(certain.findings, known.contexts, names);
    let ruled = with_retain_rules(certain, known.contexts);
    firm_are_not_blocked(ruled.findings, Seq::empty(), known.contexts, names);
    let decided = with_confidence(ruled, known.contexts);
    wanted_are_reportable(decided.findings, names, request.issues, request.report_tests);
    sorting_keeps_reportable(
        wanted_findings(
            decided.findings,
            Seq::empty(),
            request.issues,
            request.report_tests,
        ),
        names,
        request.issues,
        request.report_tests,
    );
}

/// Whether something is among what is kept.
pub open spec fn keeps(retentions: Seq<RetentionReportModel>, item: Seq<char>) -> bool {
    exists|j: int| 0 <= j < retentions.len() && (#[trigger] retentions[j]).item == item
}

proof fn blocked_items_are_added(
    items: Seq<FindingModel>,
    start: Seq<RetentionReportModel>,
    names: Seq<Seq<char>>,
    i: int,
    k: int,
)
    requires
        0 <= i < items.len(),
        is_blocked(names, items[i].workspace),
        0 <= k < items_of(items[i]).len(),
    ensures
        keeps(with_blocked_items(items, start, names), items_of(items[i])[k]),
    decreases items.len(),
{
    let rest = with_blocked_items(items.drop_last(), start, names);
    let all = with_blocked_items(items, start, names);
    if i < items.len() - 1 {
        assert(items.drop_last()[i] == items[i]);
        blocked_items_are_added(items.drop_last(), start, names, i, k);
        let j = choose|j: int|
            0 <= j < rest.len() && (#[trigger] rest[j]).item == items_of(items[i])[k];
        assert(all[j] == rest[j]);
    } else {
        assert(items.last() == items[i]);
        assert(all[rest.len() + k].item == items_of(items[i])[k]);
    }
}

/// What a finding was about that is taken back is kept: nothing is dropped silently.
pub proof fn taken_back_findings_are_kept(
    report: ScanReportModel,
    project: WorkspaceDiscoveryModel,
    i: int,
    k: int,
)
    requires
        0 <= i < report.findings.len(),
        is_blocked(blocked_names(report.diagnostics, project), report.findings[i].workspace),
        0 <= k < items_of(report.findings[i]).len(),
    ensures
        keeps(without_blocked(report, project).retentions, items_of(report.findings[i])[k]),
{
    blocked_items_are_added(
        report.findings,
        report.retentions,
        blocked_names(report.diagnostics, project),
        i,
        k,
    );
}

/// Whether two plans of a target profile differ in nothing but their roots.
pub open spec fn differ_in_roots(a: ProfilePlanModel, b: ProfilePlanModel) -> bool {
    a == ProfilePlanModel {
        entries: a.entries,
        open_world_entries: a.open_world_entries,
        ..b
    }
}

proof fn profiles_differ_in_roots(
    items: Seq<Seq<char>>,
    a: ProfileEntriesModel,
    b: ProfileEntriesModel,
    project: WorkspaceDiscoveryModel,
    contexts: Seq<PackageContextModel>,
    configurations: Seq<ProjectConfigurationModel>,
    files: Seq<Seq<PathPartModel>>,
    discovered: Seq<Seq<PathPartModel>>,
    limits: AnalysisLimits,
)
    requires
        planned_profiles(items, a.diagnostics, a.entries, project, contexts, configurations, files, discovered, limits) is Ok,
        planned_profiles(items, b.diagnostics, b.entries, project, contexts, configurations, files, discovered, limits) is Ok,
    ensures
        ({
            let x = planned_profiles(items, a.diagnostics, a.entries, project, contexts, configurations, files, discovered, limits)->Ok_0;
            let y = planned_profiles(items, b.diagnostics, b.entries, project, contexts, configurations, files, discovered, limits)->Ok_0;
            &&& x.profiles.len() == y.profiles.len()
            &&& forall|k: int|
                0 <= k < x.profiles.len() ==> differ_in_roots(
                    #[trigger] x.profiles[k],
                    y.profiles[k],
                )
        }),
    decreases items.len(),
{
    if items.len() > 0 {
        let front = items.drop_last();
        profiles_differ_in_roots(
            front,
            a,
            b,
            project,
            contexts,
            configurations,
            files,
            discovered,
            limits,
        );
        let x = planned_profiles(front, a.diagnostics, a.entries, project, contexts, configurations, files, discovered, limits)->Ok_0;
        let y = planned_profiles(front, b.diagnostics, b.entries, project, contexts, configurations, files, discovered, limits)->Ok_0;
        edges_of_plugins_need_no_diagnostics(
            x.diagnostics,
            y.diagnostics,
            project,
            contexts,
            files,
            discovered,
            items.last(),
            limits,
        );
    }
}

/// Asking for other entries changes only the roots: the files, the packages that are known, the
/// modes, and in each target profile the conditions, the module targets and the edges of plugins
/// are those of the project.
pub proof fn entries_change_only_roots(
    project: WorkspaceDiscoveryModel,
    contexts: Seq<PackageContextModel>,
    configurations: Seq<ProjectConfigurationModel>,
    files: Seq<Seq<PathPartModel>>,
    discovered: Seq<Seq<PathPartModel>>,
    request: ProjectScanRequestModel,
    entries: Seq<Seq<PathPartModel>>,
    profiles: Seq<Seq<char>>,
    pending: Seq<AnalysisDiagnosticModel>,
)
    requires
        project_plan(project, contexts, configurations, files, discovered, request, profiles, pending) is Ok,
        project_plan(project, contexts, configurations, files, discovered, ProjectScanRequestModel { entries, ..request }, profiles, pending) is Ok,
    ensures
        ({
            let asked = ProjectScanRequestModel { entries, ..request };
            let a = project_plan(project, contexts, configurations, files, discovered, request, profiles, pending)->Ok_0;
            let b = project_plan(project, contexts, configurations, files, discovered, asked, profiles, pending)->Ok_0;
            &&& a == (ProjectPlanModel {
                profiles: a.profiles,
                diagnostics: a.diagnostics,
                ..b
            })
            &&& a.profiles.len() == b.profiles.len()
            &&& forall|k: int|
                0 <= k < a.profiles.len() ==> differ_in_roots(
                    #[trigger] a.profiles[k],
                    b.profiles[k],
                )
        }),
{
    let asked = ProjectScanRequestModel { entries, ..request };
    let left = remaining_files(files, Seq::empty(), project, contexts);
    let set = collected::<FilePath>(left);
    profiles_differ_in_roots(
        profiles,
        profile_entries(pending, project, contexts, configurations, set, request, profiles)->Ok_0,
        profile_entries(pending, project, contexts, configurations, set, asked, profiles)->Ok_0,
        project,
        contexts,
        configurations,
        left,
        discovered,
        request.limits,
    );
}

/// The plugins of the target profiles one after another.
pub open spec fn plugins_in_order(
    by_profile: Seq<(Seq<char>, Seq<DetectedBuiltinPluginModel>)>,
) -> Seq<DetectedBuiltinPluginModel>
    decreases by_profile.len(),
{
    if by_profile.len() == 0 {
        Seq::empty()
    } else {
        plugins_in_order(by_profile.drop_last()) + by_profile.last().1
    }
}

/// The plugins of the target profiles one after another.
#[must_use]
pub fn plugins_of_profiles(
    by_profile: &OrderedMap<String, Vec<DetectedBuiltinPlugin>>,
) -> (r: Vec<DetectedBuiltinPlugin>)
    ensures
        r.deep_view() == plugins_in_order(by_profile.deep_view()),
{
    let entries: &Vec<(String, Vec<DetectedBuiltinPlugin>)> = by_profile.entries();
    let ghost model = entries.deep_view();
    let mut out: Vec<DetectedBuiltinPlugin> = Vec::new();
    assert(out.deep_view() =~= Seq::empty());
    let mut i: usize = 0;
    while i < entries.len()
        invariant
            i <= entries.len(),
            model == entries.deep_view(),
            out.deep_view() == plugins_in_order(model.take(i as int)),
        decreases entries.len() - i,
    {
        proof {
            assert(model.take(i + 1).drop_last() =~= model.take(i as int));
            assert(model.take(i + 1).last() == entries@[i as int].deep_view());
        }
        append_items(&mut out, &entries[i].1);
        i = i + 1;
    }
    assert(model.take(i as int) =~= model);
    out
}

/// How many plugins packages have, each counted once.
#[must_use]
pub fn count_plugins(contexts: &Vec<PackageContext>) -> (r: usize)
    ensures
        r == plugin_ids(contexts.deep_view()).len(),
{
    let ghost model = contexts.deep_view();
    let mut ids: OrderedSet<String> = OrderedSet::new();
    let mut i: usize = 0;
    while i < contexts.len()
        invariant
            i <= contexts.len(),
            model == contexts.deep_view(),
            ids.deep_view() == plugin_ids(model.take(i as int)),
        decreases contexts.len() - i,
    {
        proof {
            assert(model.take(i + 1).drop_last() =~= model.take(i as int));
            assert(model.take(i + 1).last() == contexts@[i as int].deep_view());
        }
        add_plugin_ids(&contexts[i].plugins, &mut ids);
        i = i + 1;
    }
    assert(model.take(i as int) =~= model);
    ids.len()
}

proof fn caches_do_not_change_package_results(
    items: Seq<PackageContextModel>,
    all: Seq<PackageContextModel>,
    project: WorkspaceDiscoveryModel,
    report: ScanReportModel,
    cache: Option<CacheReportModel>,
    profiles: Seq<Seq<char>>,
)
    ensures
        with_package_findings(items, all, project, with_cache(report, cache), profiles)
            == with_package_findings(items, all, project, report, profiles),
        with_package_retentions(items, all, project, with_cache(report, cache), profiles)
            == with_package_retentions(items, all, project, report, profiles),
    decreases items.len(),
{
    if items.len() > 0 {
        caches_do_not_change_package_results(
            items.drop_last(),
            all,
            project,
            report,
            cache,
            profiles,
        );
    }
}

proof fn caches_do_not_change_conclusions(
    merged: ScanReportModel,
    cache: Option<CacheReportModel>,
    known: ProjectKnowledgeModel,
    request: ProjectScanRequestModel,
    profiles: Seq<Seq<char>>,
    pending: Seq<AnalysisDiagnosticModel>,
)
    ensures
        project_report(with_cache(merged, cache), known, request, profiles, pending) == with_cache(
            project_report(merged, known, request, profiles, pending),
            cache,
        ),
{
    let given = with_cache(merged, cache);
    let a = with_context(merged, known.workspace, profiles);
    let b = with_context(given, known.workspace, profiles);
    assert(b == with_cache(a, cache));
    let limit = request.limits.max_diagnostics;
    let noted = with_pending(a, pending, known.stale, limit);
    assert(with_pending(b, pending, known.stale, limit) == with_cache(noted, cache));
    let wanted = with_wanted_results(noted, known, request.issues, profiles);
    let files = if request.issues.contains(AnalysisIssue::Files) {
        noted
    } else {
        ScanReportModel { findings: other_findings(noted.findings, Seq::empty()), ..noted }
    };
    let depended = with_dependency_results(
        files,
        known.workspace,
        known.contexts,
        known.project_configurations,
        known.installed,
        profiles,
    );
    assert(with_dependency_results(
        with_cache(files, cache),
        known.workspace,
        known.contexts,
        known.project_configurations,
        known.installed,
        profiles,
    ) == with_cache(depended, cache));
    let wanted_so_far = if request.issues.contains(AnalysisIssue::Dependencies) {
        depended
    } else {
        files
    };
    caches_do_not_change_package_results(
        known.contexts,
        known.contexts,
        known.workspace,
        wanted_so_far,
        cache,
        profiles,
    );
    assert(with_workspace_results(
        with_cache(wanted_so_far, cache),
        known.contexts,
        known.workspace,
        profiles,
    ) == with_cache(
        with_workspace_results(wanted_so_far, known.contexts, known.workspace, profiles),
        cache,
    ));
    assert(with_wanted_results(with_cache(noted, cache), known, request.issues, profiles)
        == with_cache(wanted, cache));
    let placed = with_context(wanted, known.workspace, profiles);
    assert(with_context(with_cache(wanted, cache), known.workspace, profiles) == with_cache(
        placed,
        cache,
    ));
    let fixable = with_fix_eligibility(placed, known.contexts, profiles);
    assert(with_fix_eligibility(with_cache(placed, cache), known.contexts, profiles) == with_cache(
        fixable,
        cache,
    ));
    let certain = without_blocked(fixable, known.workspace);
    assert(without_blocked(with_cache(fixable, cache), known.workspace) == with_cache(
        certain,
        cache,
    ));
    let kept = with_retain_rules(certain, known.contexts);
    assert(with_retain_rules(with_cache(certain, cache), known.contexts) == with_cache(kept, cache));
    assert(with_confidence(with_cache(kept, cache), known.contexts) == with_cache(
        with_confidence(kept, known.contexts),
        cache,
    ));
}

/// A second scan of a project on which the profiles are reported as before says the same, but
/// for what the cache did; and where the cache lacked nothing for any profile, it lacked
/// nothing for the project, and nothing was written to it.
pub proof fn scanning_again_says_the_same(
    first: Seq<(Seq<char>, ScanReportModel)>,
    second: Seq<(Seq<char>, ScanReportModel)>,
    known: ProjectKnowledgeModel,
    request: ProjectScanRequestModel,
    profiles: Seq<Seq<char>>,
    pending: Seq<AnalysisDiagnosticModel>,
)
    requires
        same_but_for_caches(first, second),
    ensures
        match (
            scanned_project(first, known, request, profiles, pending),
            scanned_project(second, known, request, profiles, pending),
        ) {
            (Ok(x), Ok(y)) => with_cache(x, y.cache) == y && ((forall|i: int|
                0 <= i < second.len() ==> missed_nothing((#[trigger] second[i]).1))
                ==> missed_nothing(y)),
            (Err(x), Err(y)) => x == y,
            _ => false,
        },
{
    caches_do_not_change_merged_reports(first, second);
    match (merged_reports(first), merged_reports(second)) {
        (Ok(x), Ok(y)) => {
            caches_do_not_change_conclusions(x, y.cache, known, request, profiles, pending);
            caches_do_not_change_conclusions(y, y.cache, known, request, profiles, pending);
        },
        _ => {},
    }
}

} // verus!
