//! What the analysis of dependencies says of a project.

use crate::analysis::dependencies::{
    analyze_dependencies, dependency_analysis, DependencyAnalysis, DependencyAnalysisInput,
    DependencyAnalysisInputModel, DependencyBlocker, DependencyBlockerModel, DependencyCategory,
    DependencyConfidence, DependencyEvidence, DependencyEvidenceKind, DependencyEvidenceModel,
    DependencyEvidenceScope, DependencyManifest, DependencyManifestModel, DependencyOutcome,
    DependencyOutcomeKind, DependencyOutcomeModel, NormalizedDependencyEvidence,
    NormalizedDependencyEvidenceModel,
};
use crate::analysis::packages::{package_name, npm_package};
use crate::collections::{
    sort_by, sorted_by, with_entry, OrderedMap, Ranking,
};
use crate::discovery::segments::{ScriptReference, ScriptReferenceKind, ScriptReferenceModel};
use crate::discovery::workspace::{
    can_remove_packages, owner_name, removes_packages, PackageContext, PackageContextModel,
    PackageManifest, PackageManifestModel, ProjectConfiguration, ProjectConfigurationModel,
    WorkspaceDiscovery, WorkspaceDiscoveryModel,
};
use crate::domain::facts::{AnalysisDiagnostic, AnalysisDiagnosticModel};
use crate::domain::report::{
    Confidence, FileReport, FileReportModel, FileStatus, Finding, FindingModel, FixEligibility,
    ImportReport, ImportReportModel, ResolutionStatus, RetentionReport, RetentionReportModel,
    ScanReport, ScanReportModel,
};
use crate::paths::{parsed, path_joined, slashed, FilePath, PathPartModel};
use crate::plugins::contract::{
    DetectedBuiltinPlugin, DetectedBuiltinPluginModel, ReferenceContribution,
    ReferenceContributionModel, ReferenceKind,
};
use crate::text::{
    concat2, concat3, concat4, concat5, cut_at_last, join, joined, no_texts, one_text, rsplit_once,
    same,
};
use crate::values::{push_item, Ordered, Value};
use vstd::prelude::*;

verus! {

/// What a script runs, as evidence.
pub open spec fn script_kind(kind: ScriptReferenceKind) -> Option<DependencyEvidenceKind> {
    match kind {
        ScriptReferenceKind::Binary => Some(DependencyEvidenceKind::Binary),
        ScriptReferenceKind::Package => Some(DependencyEvidenceKind::Script),
        ScriptReferenceKind::File => None,
    }
}

fn kind_in_script(kind: ScriptReferenceKind) -> (r: Option<DependencyEvidenceKind>)
    ensures
        r == script_kind(kind),
{
    match kind {
        ScriptReferenceKind::Binary => Some(DependencyEvidenceKind::Binary),
        ScriptReferenceKind::Package => Some(DependencyEvidenceKind::Script),
        ScriptReferenceKind::File => None,
    }
}

/// Evidence with that of scripts: the binaries and packages that they run.
pub open spec fn with_script_evidence(
    items: Seq<ScriptReferenceModel>,
    start: Seq<DependencyEvidenceModel>,
    workspace: Seq<char>,
) -> Seq<DependencyEvidenceModel>
    decreases items.len(),
{
    if items.len() == 0 {
        start
    } else {
        let rest = with_script_evidence(items.drop_last(), start, workspace);
        let last = items.last();
        match script_kind(last.kind) {
            Some(kind) => rest.push(
            DependencyEvidenceModel {
                workspace: workspace,
                reference: last.value,
                kind: kind,
                scope: DependencyEvidenceScope::Development,
                source: "package.json scripts."@ + last.script,
                reachable: true,
            }),
            None => rest,
        }
    }
}

/// Evidence with that of scripts: the binaries and packages that they run.
pub fn add_script_evidence(
    items: &Vec<ScriptReference>,
    workspace: &str,
    out: &mut Vec<DependencyEvidence>,
)
    ensures
        final(out).deep_view() == with_script_evidence(items.deep_view(), old(out).deep_view(), workspace@),
{
    let ghost start = out.deep_view();
    let ghost model = items.deep_view();
    let mut i: usize = 0;
    while i < items.len()
        invariant
            i <= items.len(),
            model == items.deep_view(),
            out.deep_view() =~= with_script_evidence(model.take(i as int), start, workspace@),
        decreases items.len() - i,
    {
        proof {
            assert(model.take(i + 1).drop_last() =~= model.take(i as int));
            assert(model.take(i + 1).last() == items@[i as int].deep_view());
        }
        let item: &ScriptReference = &items[i];
        match kind_in_script(item.kind) {
            Some(kind) => {
                push_item(out, DependencyEvidence {
                    workspace: workspace.to_string(),
                    reference: item.value.replicate(),
                    kind: kind,
                    scope: DependencyEvidenceScope::Development,
                    source: concat2("package.json scripts.", &item.script),
                    reachable: true,
                });
            },
            None => {},
        }
        i = i + 1;
    }
    assert(model.take(i as int) =~= model);
}

/// Evidence with what a plugin says that a package uses.
pub open spec fn with_reference_evidence(
    items: Seq<ReferenceContributionModel>,
    start: Seq<DependencyEvidenceModel>,
    workspace: Seq<char>,
    id: Seq<char>,
) -> Seq<DependencyEvidenceModel>
    decreases items.len(),
{
    if items.len() == 0 {
        start
    } else {
        let rest = with_reference_evidence(items.drop_last(), start, workspace, id);
        let last = items.last();
        rest.push(DependencyEvidenceModel {
                workspace: workspace,
                reference: last.name,
                kind: match last.kind { ReferenceKind::Package => DependencyEvidenceKind::Config, ReferenceKind::Binary => DependencyEvidenceKind::Binary },
                scope: DependencyEvidenceScope::Development,
                source: id + " plugin convention"@,
                reachable: true,
            })
    }
}

/// Evidence with what a plugin says that a package uses.
pub fn add_reference_evidence(
    items: &Vec<ReferenceContribution>,
    workspace: &str,
    id: &str,
    out: &mut Vec<DependencyEvidence>,
)
    ensures
        final(out).deep_view() == with_reference_evidence(items.deep_view(), old(out).deep_view(), workspace@, id@),
{
    let ghost start = out.deep_view();
    let ghost model = items.deep_view();
    let mut i: usize = 0;
    while i < items.len()
        invariant
            i <= items.len(),
            model == items.deep_view(),
            out.deep_view() =~= with_reference_evidence(model.take(i as int), start, workspace@, id@),
        decreases items.len() - i,
    {
        proof {
            assert(model.take(i + 1).drop_last() =~= model.take(i as int));
            assert(model.take(i + 1).last() == items@[i as int].deep_view());
        }
        let item: &ReferenceContribution = &items[i];
        push_item(out, DependencyEvidence {
            workspace: workspace.to_string(),
            reference: item.name.replicate(),
            kind: match item.kind { ReferenceKind::Package => DependencyEvidenceKind::Config, ReferenceKind::Binary => DependencyEvidenceKind::Binary },
            scope: DependencyEvidenceScope::Development,
            source: concat2(id, " plugin convention"),
            reachable: true,
        });
        i = i + 1;
    }
    assert(model.take(i as int) =~= model);
}

/// Evidence with what plugins say that a package uses.
pub open spec fn with_plugin_evidence(
    items: Seq<DetectedBuiltinPluginModel>,
    start: Seq<DependencyEvidenceModel>,
    workspace: Seq<char>,
) -> Seq<DependencyEvidenceModel>
    decreases items.len(),
{
    if items.len() == 0 {
        start
    } else {
        let rest = with_plugin_evidence(items.drop_last(), start, workspace);
        let last = items.last();
        with_reference_evidence(
            last.plugin.contributions.references,
            rest,
            workspace,
            last.plugin.id,
        )
    }
}

/// Evidence with what plugins say that a package uses.
pub fn add_plugin_evidence(
    items: &Vec<DetectedBuiltinPlugin>,
    workspace: &str,
    out: &mut Vec<DependencyEvidence>,
)
    ensures
        final(out).deep_view() == with_plugin_evidence(items.deep_view(), old(out).deep_view(), workspace@),
{
    let ghost start = out.deep_view();
    let ghost model = items.deep_view();
    let mut i: usize = 0;
    while i < items.len()
        invariant
            i <= items.len(),
            model == items.deep_view(),
            out.deep_view() =~= with_plugin_evidence(model.take(i as int), start, workspace@),
        decreases items.len() - i,
    {
        proof {
            assert(model.take(i + 1).drop_last() =~= model.take(i as int));
            assert(model.take(i + 1).last() == items@[i as int].deep_view());
        }
        let item: &DetectedBuiltinPlugin = &items[i];
        add_reference_evidence(
            &item.plugin.contributions.references,
            workspace,
            &item.plugin.id,
            out,
        );
        i = i + 1;
    }
    assert(model.take(i as int) =~= model);
}

/// Evidence with that of the scripts and the plugins of packages.
pub open spec fn with_context_evidence(
    items: Seq<PackageContextModel>,
    start: Seq<DependencyEvidenceModel>,
) -> Seq<DependencyEvidenceModel>
    decreases items.len(),
{
    if items.len() == 0 {
        start
    } else {
        let rest = with_context_evidence(items.drop_last(), start);
        let last = items.last();
        with_plugin_evidence(
            last.plugins,
            with_script_evidence(last.scripts.references, rest, last.workspace_name),
            last.workspace_name,
        )
    }
}

/// Evidence with that of the scripts and the plugins of packages.
pub fn add_context_evidence(
    items: &Vec<PackageContext>,
    out: &mut Vec<DependencyEvidence>,
)
    ensures
        final(out).deep_view() == with_context_evidence(items.deep_view(), old(out).deep_view()),
{
    let ghost start = out.deep_view();
    let ghost model = items.deep_view();
    let mut i: usize = 0;
    while i < items.len()
        invariant
            i <= items.len(),
            model == items.deep_view(),
            out.deep_view() =~= with_context_evidence(model.take(i as int), start),
        decreases items.len() - i,
    {
        proof {
            assert(model.take(i + 1).drop_last() =~= model.take(i as int));
            assert(model.take(i + 1).last() == items@[i as int].deep_view());
        }
        let item: &PackageContext = &items[i];
        add_script_evidence(&item.scripts.references, &item.workspace_name, out);
        add_plugin_evidence(&item.plugins, &item.workspace_name, out);
        i = i + 1;
    }
    assert(model.take(i as int) =~= model);
}

/// Evidence with the packages that a configuration names.
pub open spec fn with_named_evidence(
    items: Seq<Seq<char>>,
    start: Seq<DependencyEvidenceModel>,
    workspace: Seq<char>,
    source: Seq<char>,
) -> Seq<DependencyEvidenceModel>
    decreases items.len(),
{
    if items.len() == 0 {
        start
    } else {
        let rest = with_named_evidence(items.drop_last(), start, workspace, source);
        let last = items.last();
        rest.push(DependencyEvidenceModel {
                workspace: workspace,
                reference: last,
                kind: DependencyEvidenceKind::Config,
                scope: DependencyEvidenceScope::Development,
                source: source,
                reachable: true,
            })
    }
}

/// Evidence with the packages that a configuration names.
pub fn add_named_evidence(
    items: &Vec<String>,
    workspace: &str,
    source: &str,
    out: &mut Vec<DependencyEvidence>,
)
    ensures
        final(out).deep_view() == with_named_evidence(items.deep_view(), old(out).deep_view(), workspace@, source@),
{
    let ghost start = out.deep_view();
    let ghost model = items.deep_view();
    let mut i: usize = 0;
    while i < items.len()
        invariant
            i <= items.len(),
            model == items.deep_view(),
            out.deep_view() =~= with_named_evidence(model.take(i as int), start, workspace@, source@),
        decreases items.len() - i,
    {
        proof {
            assert(model.take(i + 1).drop_last() =~= model.take(i as int));
            assert(model.take(i + 1).last() == items@[i as int].deep_view());
        }
        let item: &String = &items[i];
        push_item(out, DependencyEvidence {
            workspace: workspace.to_string(),
            reference: item.replicate(),
            kind: DependencyEvidenceKind::Config,
            scope: DependencyEvidenceScope::Development,
            source: source.to_string(),
            reachable: true,
        });
        i = i + 1;
    }
    assert(model.take(i as int) =~= model);
}

/// Evidence with the packages that compiler configurations name.
pub open spec fn with_configuration_evidence(
    items: Seq<ProjectConfigurationModel>,
    start: Seq<DependencyEvidenceModel>,
    project: WorkspaceDiscoveryModel,
) -> Seq<DependencyEvidenceModel>
    decreases items.len(),
{
    if items.len() == 0 {
        start
    } else {
        let rest = with_configuration_evidence(items.drop_last(), start, project);
        let last = items.last();
        with_named_evidence(
            last.dependency_evidence,
            rest,
            owner_name(project.packages, last.path),
            slashed(last.path),
        )
    }
}

/// Evidence with the packages that compiler configurations name.
pub fn add_configuration_evidence(
    items: &Vec<ProjectConfiguration>,
    project: &WorkspaceDiscovery,
    out: &mut Vec<DependencyEvidence>,
)
    ensures
        final(out).deep_view() == with_configuration_evidence(items.deep_view(), old(out).deep_view(), project.deep_view()),
{
    let ghost start = out.deep_view();
    let ghost project_model = project.deep_view();
    let ghost model = items.deep_view();
    let mut i: usize = 0;
    while i < items.len()
        invariant
            i <= items.len(),
            model == items.deep_view(),
            project_model == project.deep_view(),
            out.deep_view() =~= with_configuration_evidence(model.take(i as int), start, project_model),
        decreases items.len() - i,
    {
        proof {
            assert(model.take(i + 1).drop_last() =~= model.take(i as int));
            assert(model.take(i + 1).last() == items@[i as int].deep_view());
        }
        let item: &ProjectConfiguration = &items[i];
        let owner: String = project.name_for_path(&item.path);
        let source: String = item.path.slashed();
        add_named_evidence(&item.dependency_evidence, &owner, &source, out);
        i = i + 1;
    }
    assert(model.take(i as int) =~= model);
}

/// Whether an import leads to a file of the project, used or left out, and not to a
/// package.
pub open spec fn leads_inside(import: ImportReportModel) -> bool {
    import.status == ResolutionStatus::Resolved || (import.status == ResolutionStatus::External
        && import.target is Some)
}

/// Evidence with the packages that a file imports.
pub open spec fn with_import_evidence(
    items: Seq<ImportReportModel>,
    start: Seq<DependencyEvidenceModel>,
    workspace: Seq<char>,
    path: Seq<char>,
    reachable: bool,
) -> Seq<DependencyEvidenceModel>
    decreases items.len(),
{
    if items.len() == 0 {
        start
    } else {
        let rest = with_import_evidence(items.drop_last(), start, workspace, path, reachable);
        let last = items.last();
        match npm_package(last.specifier) {
            Some(package) => if leads_inside(last) {
                rest
            } else {
                rest.push(DependencyEvidenceModel {
                workspace: workspace,
                reference: package,
                kind: if last.type_only { DependencyEvidenceKind::TypeOnlyImport } else { DependencyEvidenceKind::SourceImport },
                scope: if last.type_only { DependencyEvidenceScope::Contract } else { DependencyEvidenceScope::Runtime },
                source: path + " imports "@ + last.specifier,
                reachable: reachable,
            })
            },
            None => rest,
        }
    }
}

/// Evidence with the packages that a file imports.
pub fn add_import_evidence(
    items: &Vec<ImportReport>,
    workspace: &str,
    path: &str,
    reachable: bool,
    out: &mut Vec<DependencyEvidence>,
)
    ensures
        final(out).deep_view() == with_import_evidence(items.deep_view(), old(out).deep_view(), workspace@, path@, reachable),
{
    let ghost start = out.deep_view();
    let ghost model = items.deep_view();
    let mut i: usize = 0;
    while i < items.len()
        invariant
            i <= items.len(),
            model == items.deep_view(),
            out.deep_view() =~= with_import_evidence(model.take(i as int), start, workspace@, path@, reachable),
        decreases items.len() - i,
    {
        proof {
            assert(model.take(i + 1).drop_last() =~= model.take(i as int));
            assert(model.take(i + 1).last() == items@[i as int].deep_view());
        }
        let item: &ImportReport = &items[i];
        match package_name(&item.specifier) {
            Some(package) => {
                let inside: bool = item.status == ResolutionStatus::Resolved || (item.status
                    == ResolutionStatus::External && item.target.is_some());
                if !inside {
                    push_item(out, DependencyEvidence {
                        workspace: workspace.to_string(),
                        reference: package,
                        kind: if item.type_only { DependencyEvidenceKind::TypeOnlyImport } else { DependencyEvidenceKind::SourceImport },
                        scope: if item.type_only { DependencyEvidenceScope::Contract } else { DependencyEvidenceScope::Runtime },
                        source: concat3(path, " imports ", &item.specifier),
                        reachable: reachable,
                    });
                }
            },
            None => {},
        }
        i = i + 1;
    }
    assert(model.take(i as int) =~= model);
}

/// Evidence with the packages that files import.
pub open spec fn with_source_evidence(
    items: Seq<FileReportModel>,
    start: Seq<DependencyEvidenceModel>,
    project: WorkspaceDiscoveryModel,
) -> Seq<DependencyEvidenceModel>
    decreases items.len(),
{
    if items.len() == 0 {
        start
    } else {
        let rest = with_source_evidence(items.drop_last(), start, project);
        let last = items.last();
        with_import_evidence(
            last.imports,
            rest,
            owner_name(project.packages, parsed(last.path)),
            last.path,
            last.status == FileStatus::Reachable,
        )
    }
}

/// Evidence with the packages that files import.
pub fn add_source_evidence(
    items: &Vec<FileReport>,
    project: &WorkspaceDiscovery,
    out: &mut Vec<DependencyEvidence>,
)
    ensures
        final(out).deep_view() == with_source_evidence(items.deep_view(), old(out).deep_view(), project.deep_view()),
{
    let ghost start = out.deep_view();
    let ghost project_model = project.deep_view();
    let ghost model = items.deep_view();
    let mut i: usize = 0;
    while i < items.len()
        invariant
            i <= items.len(),
            model == items.deep_view(),
            project_model == project.deep_view(),
            out.deep_view() =~= with_source_evidence(model.take(i as int), start, project_model),
        decreases items.len() - i,
    {
        proof {
            assert(model.take(i + 1).drop_last() =~= model.take(i as int));
            assert(model.take(i + 1).last() == items@[i as int].deep_view());
        }
        let item: &FileReport = &items[i];
        let owner: String = project.name_for_path(&FilePath::parse(&item.path));
        let reachable: bool = item.status == FileStatus::Reachable;
        add_import_evidence(&item.imports, &owner, &item.path, reachable, out);
        i = i + 1;
    }
    assert(model.take(i as int) =~= model);
}

/// The packages that files import: those that lead inside the project are none.
#[must_use]
pub fn source_dependency_evidence(workspace: &WorkspaceDiscovery, report: &ScanReport) -> (r: Vec<
    DependencyEvidence,
>)
    ensures
        r.deep_view() == with_source_evidence(
            report.deep_view().files,
            Seq::empty(),
            workspace.deep_view(),
        ),
{
    let mut out: Vec<DependencyEvidence> = Vec::new();
    assert(out.deep_view() =~= Seq::empty());
    add_source_evidence(&report.files, workspace, &mut out);
    out
}

/// Blockers with one for each package whose scripts are not understood.
pub open spec fn with_script_blockers(
    items: Seq<PackageContextModel>,
    start: Seq<DependencyBlockerModel>,
) -> Seq<DependencyBlockerModel>
    decreases items.len(),
{
    if items.len() == 0 {
        start
    } else {
        let rest = with_script_blockers(items.drop_last(), start);
        let last = items.last();
        if last.scripts.unmodeled.len() > 0 {
            rest.push(
                DependencyBlockerModel {
                    workspace: last.workspace_name,
                    package: None,
                    reason: "one or more reachable package-script spans were not modeled"@,
                },
            )
        } else {
            rest
        }
    }
}

/// Blockers with one for each package whose scripts are not understood.
pub fn add_script_blockers(
    items: &Vec<PackageContext>,
    out: &mut Vec<DependencyBlocker>,
)
    ensures
        final(out).deep_view() == with_script_blockers(items.deep_view(), old(out).deep_view()),
{
    let ghost start = out.deep_view();
    let ghost model = items.deep_view();
    let mut i: usize = 0;
    while i < items.len()
        invariant
            i <= items.len(),
            model == items.deep_view(),
            out.deep_view() =~= with_script_blockers(model.take(i as int), start),
        decreases items.len() - i,
    {
        proof {
            assert(model.take(i + 1).drop_last() =~= model.take(i as int));
            assert(model.take(i + 1).last() == items@[i as int].deep_view());
        }
        let item: &PackageContext = &items[i];
        if item.scripts.unmodeled.len() > 0 {
            push_item(
                out,
                DependencyBlocker {
                    workspace: item.workspace_name.replicate(),
                    package: None,
                    reason: "one or more reachable package-script spans were not modeled".to_string(),
                },
            );
        }
        i = i + 1;
    }
    assert(model.take(i as int) =~= model);
}

/// Blockers with one for each diagnostic that blocks.
pub open spec fn with_diagnostic_blockers(
    items: Seq<AnalysisDiagnosticModel>,
    start: Seq<DependencyBlockerModel>,
    project: WorkspaceDiscoveryModel,
) -> Seq<DependencyBlockerModel>
    decreases items.len(),
{
    if items.len() == 0 {
        start
    } else {
        let rest = with_diagnostic_blockers(items.drop_last(), start, project);
        let last = items.last();
        if last.blocks_reachability {
            rest.push(
                DependencyBlockerModel {
                    workspace: owner_name(project.packages, parsed(last.path)),
                    package: None,
                    reason: last.code + ": "@ + last.message,
                },
            )
        } else {
            rest
        }
    }
}

/// Blockers with one for each diagnostic that blocks.
pub fn add_diagnostic_blockers(
    items: &Vec<AnalysisDiagnostic>,
    project: &WorkspaceDiscovery,
    out: &mut Vec<DependencyBlocker>,
)
    ensures
        final(out).deep_view() == with_diagnostic_blockers(items.deep_view(), old(out).deep_view(), project.deep_view()),
{
    let ghost start = out.deep_view();
    let ghost project_model = project.deep_view();
    let ghost model = items.deep_view();
    let mut i: usize = 0;
    while i < items.len()
        invariant
            i <= items.len(),
            model == items.deep_view(),
            project_model == project.deep_view(),
            out.deep_view() =~= with_diagnostic_blockers(model.take(i as int), start, project_model),
        decreases items.len() - i,
    {
        proof {
            assert(model.take(i + 1).drop_last() =~= model.take(i as int));
            assert(model.take(i + 1).last() == items@[i as int].deep_view());
        }
        let item: &AnalysisDiagnostic = &items[i];
        if item.blocks_reachability {
            push_item(
                out,
                DependencyBlocker {
                    workspace: project.name_for_path(&FilePath::parse(&item.path)),
                    package: None,
                    reason: concat3(&item.code, ": ", &item.message),
                },
            );
        }
        i = i + 1;
    }
    assert(model.take(i as int) =~= model);
}

/// Manifests with those of packages.
pub open spec fn with_manifests(
    items: Seq<PackageContextModel>,
    start: Seq<DependencyManifestModel>,
) -> Seq<DependencyManifestModel>
    decreases items.len(),
{
    if items.len() == 0 {
        start
    } else {
        let rest = with_manifests(items.drop_last(), start);
        let last = items.last();
        rest.push(
            DependencyManifestModel {
                workspace: last.workspace_name,
                dependencies: last.package.manifest.dependencies,
                dev_dependencies: last.package.manifest.dev_dependencies,
                peer_dependencies: last.package.manifest.peer_dependencies,
                optional_dependencies: last.package.manifest.optional_dependencies,
                bundled_dependencies: last.package.manifest.bundled_dependencies,
            },
        )
    }
}

/// Manifests with those of packages.
pub fn add_manifests(
    items: &Vec<PackageContext>,
    out: &mut Vec<DependencyManifest>,
)
    ensures
        final(out).deep_view() == with_manifests(items.deep_view(), old(out).deep_view()),
{
    let ghost start = out.deep_view();
    let ghost model = items.deep_view();
    let mut i: usize = 0;
    while i < items.len()
        invariant
            i <= items.len(),
            model == items.deep_view(),
            out.deep_view() =~= with_manifests(model.take(i as int), start),
        decreases items.len() - i,
    {
        proof {
            assert(model.take(i + 1).drop_last() =~= model.take(i as int));
            assert(model.take(i + 1).last() == items@[i as int].deep_view());
        }
        let item: &PackageContext = &items[i];
        push_item(
            out,
            DependencyManifest {
                workspace: item.workspace_name.replicate(),
                dependencies: item.package.manifest.dependencies.replicate(),
                dev_dependencies: item.package.manifest.dev_dependencies.replicate(),
                peer_dependencies: item.package.manifest.peer_dependencies.replicate(),
                optional_dependencies: item.package.manifest.optional_dependencies.replicate(),
                bundled_dependencies: item.package.manifest.bundled_dependencies.replicate(),
            },
        );
        i = i + 1;
    }
    assert(model.take(i as int) =~= model);
}

/// The binaries that an installed package declares.
#[derive(Debug, PartialEq, Eq)]
pub enum BinaryDeclaration {
    Absent,
    Single(String),
    Named(OrderedMap<String, String>),
}

/// What a [`BinaryDeclaration`] holds.
pub enum BinaryDeclarationModel {
    Absent,
    Single(Seq<char>),
    Named(Seq<(Seq<char>, Seq<char>)>),
}

impl DeepView for BinaryDeclaration {
    type V = BinaryDeclarationModel;

    open spec fn deep_view(&self) -> BinaryDeclarationModel {
        match self {
            BinaryDeclaration::Absent => BinaryDeclarationModel::Absent,
            BinaryDeclaration::Single(x) => BinaryDeclarationModel::Single(x.deep_view()),
            BinaryDeclaration::Named(x) => BinaryDeclarationModel::Named(x.deep_view()),
        }
    }
}

impl Value for BinaryDeclaration {
    fn replicate(&self) -> (r: Self) {
        match self {
            BinaryDeclaration::Absent => BinaryDeclaration::Absent,
            BinaryDeclaration::Single(x) => BinaryDeclaration::Single(x.replicate()),
            BinaryDeclaration::Named(x) => BinaryDeclaration::Named(x.replicate()),
        }
    }

    fn same_value(&self, other: &Self) -> (r: bool) {
        match (self, other) {
            (BinaryDeclaration::Absent, BinaryDeclaration::Absent) => true,
            (BinaryDeclaration::Single(x), BinaryDeclaration::Single(y)) => x.same_value(y),
            (BinaryDeclaration::Named(x), BinaryDeclaration::Named(y)) => x.same_value(y),
            _ => false,
        }
    }
}

/// An installed package: as what it is depended on, what it calls itself, and which
/// binaries it declares.
#[derive(Debug, PartialEq, Eq)]
pub struct InstalledPackage {
    pub dependency: String,
    pub name: Option<String>,
    pub bin: BinaryDeclaration,
}

/// What a [`InstalledPackage`] holds.
pub struct InstalledPackageModel {
    pub dependency: Seq<char>,
    pub name: Option<Seq<char>>,
    pub bin: BinaryDeclarationModel,
}

impl DeepView for InstalledPackage {
    type V = InstalledPackageModel;

    open spec fn deep_view(&self) -> InstalledPackageModel {
        InstalledPackageModel {
            dependency: self.dependency.deep_view(),
            name: self.name.deep_view(),
            bin: self.bin.deep_view(),
        }
    }
}

impl Value for InstalledPackage {
    fn replicate(&self) -> (r: Self) {
        InstalledPackage {
            dependency: self.dependency.replicate(),
            name: self.name.replicate(),
            bin: self.bin.replicate(),
        }
    }

    fn same_value(&self, other: &Self) -> (r: bool) {
        self.dependency.same_value(&other.dependency)
            && self.name.same_value(&other.name)
            && self.bin.same_value(&other.bin)
    }
}

/// The name that a single binary of a package goes by.
pub open spec fn binary_of(name: Option<Seq<char>>, dependency: Seq<char>) -> Seq<char> {
    match name {
        Some(name) => match cut_at_last(name, '/') {
            Some((_, base)) => base,
            None => name,
        },
        None => dependency,
    }
}

/// Owners of binaries with those that a package names.
pub open spec fn with_binaries(
    items: Seq<(Seq<char>, Seq<char>)>,
    start: Seq<(Seq<char>, Seq<char>)>,
    dependency: Seq<char>,
) -> Seq<(Seq<char>, Seq<char>)>
    decreases items.len(),
{
    if items.len() == 0 {
        start
    } else {
        let rest = with_binaries(items.drop_last(), start, dependency);
        let last = items.last();
        with_entry::<String, Seq<char>>(rest, last.0, dependency)
    }
}

/// Owners of binaries with those of an installed package.
pub open spec fn with_installed(
    owners: Seq<(Seq<char>, Seq<char>)>,
    package: InstalledPackageModel,
) -> Seq<(Seq<char>, Seq<char>)> {
    match package.bin {
        BinaryDeclarationModel::Absent => owners,
        BinaryDeclarationModel::Single(_) => with_entry::<String, Seq<char>>(
            owners,
            binary_of(package.name, package.dependency),
            package.dependency,
        ),
        BinaryDeclarationModel::Named(binaries) => with_binaries(
            binaries,
            owners,
            package.dependency,
        ),
    }
}

/// Which dependency each binary belongs to: the last one that declares it.
pub open spec fn owners_of_binaries(
    items: Seq<InstalledPackageModel>,
) -> Seq<(Seq<char>, Seq<char>)>
    decreases items.len(),
{
    if items.len() == 0 {
        Seq::empty()
    } else {
        let rest = owners_of_binaries(items.drop_last());
        let last = items.last();
        with_installed(rest, last)
    }
}

fn add_binaries(
    binaries: &Vec<(String, String)>,
    dependency: &str,
    owners: &mut OrderedMap<String, String>,
)
    ensures
        final(owners).deep_view() == with_binaries(
            binaries.deep_view(),
            old(owners).deep_view(),
            dependency@,
        ),
{
    let ghost start = owners.deep_view();
    let ghost model = binaries.deep_view();
    let mut i: usize = 0;
    while i < binaries.len()
        invariant
            i <= binaries.len(),
            model == binaries.deep_view(),
            owners.deep_view() == with_binaries(model.take(i as int), start, dependency@),
        decreases binaries.len() - i,
    {
        proof {
            assert(model.take(i + 1).drop_last() =~= model.take(i as int));
            assert(model.take(i + 1).last() == binaries@[i as int].deep_view());
        }
        owners.insert(binaries[i].0.replicate(), dependency.to_string());
        i = i + 1;
    }
    assert(model.take(i as int) =~= model);
}

/// Which dependency each binary of some installed packages belongs to.
#[must_use]
pub fn collect_binary_owners(installed: &Vec<InstalledPackage>) -> (r: OrderedMap<String, String>)
    ensures
        r.deep_view() == owners_of_binaries(installed.deep_view()),
{
    let mut owners: OrderedMap<String, String> = OrderedMap::new();
    let ghost model = installed.deep_view();
    let mut i: usize = 0;
    while i < installed.len()
        invariant
            i <= installed.len(),
            model == installed.deep_view(),
            owners.deep_view() == owners_of_binaries(model.take(i as int)),
        decreases installed.len() - i,
    {
        proof {
            assert(model.take(i + 1).drop_last() =~= model.take(i as int));
            assert(model.take(i + 1).last() == installed@[i as int].deep_view());
        }
        let package: &InstalledPackage = &installed[i];
        match &package.bin {
            BinaryDeclaration::Absent => {},
            BinaryDeclaration::Single(_) => {
                let binary: String = match &package.name {
                    Some(name) => match rsplit_once(name, '/') {
                        Some((_, base)) => base,
                        None => name.replicate(),
                    },
                    None => package.dependency.replicate(),
                };
                owners.insert(binary, package.dependency.replicate());
            },
            BinaryDeclaration::Named(binaries) => {
                add_binaries(binaries.entries(), &package.dependency, &mut owners);
            },
        }
        i = i + 1;
    }
    assert(model.take(i as int) =~= model);
    owners
}

/// Names with the keys of a table.
pub open spec fn with_names(
    items: Seq<(Seq<char>, Seq<char>)>,
    start: Seq<Seq<char>>,
) -> Seq<Seq<char>>
    decreases items.len(),
{
    if items.len() == 0 {
        start
    } else {
        let rest = with_names(items.drop_last(), start);
        let last = items.last();
        rest.push(last.0)
    }
}

fn add_names(
    items: &Vec<(String, String)>,
    out: &mut Vec<String>,
)
    ensures
        final(out).deep_view() == with_names(items.deep_view(), old(out).deep_view()),
{
    let ghost start = out.deep_view();
    let ghost model = items.deep_view();
    let mut i: usize = 0;
    while i < items.len()
        invariant
            i <= items.len(),
            model == items.deep_view(),
            out.deep_view() =~= with_names(model.take(i as int), start),
        decreases items.len() - i,
    {
        proof {
            assert(model.take(i + 1).drop_last() =~= model.take(i as int));
            assert(model.take(i + 1).last() == items@[i as int].deep_view());
        }
        let item: &(String, String) = &items[i];
        push_item(out, item.0.replicate());
        i = i + 1;
    }
    assert(model.take(i as int) =~= model);
}

/// The dependencies whose installed manifests can declare binaries for a package.
pub open spec fn binary_dependencies(manifest: PackageManifestModel) -> Seq<Seq<char>> {
    with_names(
        manifest.optional_dependencies,
        with_names(
            manifest.dev_dependencies,
            with_names(manifest.dependencies, Seq::empty()),
        ),
    )
}

/// The dependencies whose installed manifests can declare binaries for a package.
#[must_use]
pub fn list_binary_dependencies(manifest: &PackageManifest) -> (r: Vec<String>)
    ensures
        r.deep_view() == binary_dependencies(manifest.deep_view()),
{
    let mut out: Vec<String> = Vec::new();
    assert(out.deep_view() =~= Seq::empty());
    add_names(manifest.dependencies.entries(), &mut out);
    add_names(manifest.dev_dependencies.entries(), &mut out);
    add_names(manifest.optional_dependencies.entries(), &mut out);
    out
}

/// Where the manifest of an installed dependency of a package is.
pub open spec fn installed_manifest(
    package_root: Seq<PathPartModel>,
    dependency: Seq<char>,
) -> Seq<PathPartModel> {
    path_joined(
        path_joined(path_joined(package_root, parsed("node_modules"@)), parsed(dependency)),
        parsed("package.json"@),
    )
}

/// Where the manifest of an installed dependency of a package is.
#[must_use]
pub fn installed_manifest_path(package_root: &FilePath, dependency: &str) -> (r: FilePath)
    ensures
        r.deep_view() == installed_manifest(package_root.deep_view(), dependency@),
{
    package_root.join(&FilePath::parse("node_modules")).join(&FilePath::parse(dependency)).join(
        &FilePath::parse("package.json"),
    )
}

/// What a kind of declaration is called.
pub open spec fn category_text(value: DependencyCategory) -> Seq<char> {
    match value {
        DependencyCategory::Runtime => "Runtime"@,
        DependencyCategory::Development => "Development"@,
        DependencyCategory::Peer => "Peer"@,
        DependencyCategory::Optional => "Optional"@,
    }
}

/// What a kind of declaration is called.
#[must_use]
fn text_of_category(value: DependencyCategory) -> (r: &'static str)
    ensures
        r@ == category_text(value),
{
    match value {
        DependencyCategory::Runtime => "Runtime",
        DependencyCategory::Development => "Development",
        DependencyCategory::Peer => "Peer",
        DependencyCategory::Optional => "Optional",
    }
}

/// Texts with the names of kinds of declarations.
pub open spec fn with_category_texts(
    items: Seq<DependencyCategory>,
    start: Seq<Seq<char>>,
) -> Seq<Seq<char>>
    decreases items.len(),
{
    if items.len() == 0 {
        start
    } else {
        let rest = with_category_texts(items.drop_last(), start);
        let last = items.last();
        rest.push(category_text(last))
    }
}

fn add_category_texts(
    items: &Vec<DependencyCategory>,
    out: &mut Vec<String>,
)
    ensures
        final(out).deep_view() == with_category_texts(items.deep_view(), old(out).deep_view()),
{
    let ghost start = out.deep_view();
    let ghost model = items.deep_view();
    let mut i: usize = 0;
    while i < items.len()
        invariant
            i <= items.len(),
            model == items.deep_view(),
            out.deep_view() =~= with_category_texts(model.take(i as int), start),
        decreases items.len() - i,
    {
        proof {
            assert(model.take(i + 1).drop_last() =~= model.take(i as int));
            assert(model.take(i + 1).last() == items@[i as int].deep_view());
        }
        let item: &DependencyCategory = &items[i];
        push_item(out, text_of_category(*item).to_string());
        i = i + 1;
    }
    assert(model.take(i as int) =~= model);
}

/// Kinds of declarations as a list.
pub open spec fn categories_text(categories: Seq<DependencyCategory>) -> Seq<char> {
    "Declared categories: ["@ + joined(with_category_texts(categories, Seq::empty()), ", "@) + "]"@
}

fn text_of_categories(categories: &Vec<DependencyCategory>) -> (r: String)
    ensures
        r@ == categories_text(categories.deep_view()),
{
    let mut names: Vec<String> = Vec::new();
    assert(names.deep_view() =~= Seq::empty());
    add_category_texts(categories, &mut names);
    concat3("Declared categories: [", &join(&names, ", "), "]")
}

/// The manifest of a package.
pub open spec fn manifest_of(workspace: Seq<char>) -> Seq<char> {
    if workspace == "."@ {
        "package.json"@
    } else {
        workspace + "/package.json"@
    }
}

/// The manifest of a package.
#[must_use]
pub fn manifest_path(workspace: &str) -> (r: String)
    ensures
        r@ == manifest_of(workspace@),
{
    if same(workspace, ".") {
        "package.json".to_string()
    } else {
        concat2(workspace, "/package.json")
    }
}

/// Whether a dependency could be removed but for the package manager.
pub open spec fn removable(confidence: DependencyConfidence, issue_id: Seq<char>) -> bool {
    confidence == DependencyConfidence::High && issue_id == "ORP2001"@
}

/// How firmly a finding on a dependency stands.
pub open spec fn confidence_of(confidence: DependencyConfidence) -> Confidence {
    match confidence {
        DependencyConfidence::High => Confidence::High,
        DependencyConfidence::Medium => Confidence::Medium,
        DependencyConfidence::NotApplicable => Confidence::Incomplete,
    }
}

fn finding_confidence(confidence: DependencyConfidence) -> (r: Confidence)
    ensures
        r == confidence_of(confidence),
{
    match confidence {
        DependencyConfidence::High => Confidence::High,
        DependencyConfidence::Medium => Confidence::Medium,
        DependencyConfidence::NotApplicable => Confidence::Incomplete,
    }
}

/// What a finding on a dependency is made of.
pub struct DependencyFindingInput<'a> {
    pub issue_id: &'static str,
    pub issue_type: &'static str,
    pub summary: String,
    pub outcome: &'a DependencyOutcome,
    pub package_manager_supported: bool,
    pub target_profiles: &'a Vec<String>,
}

/// A finding on a dependency. It can be applied only where the dependency is surely unused
/// and the package manager is known.
pub open spec fn finding_on_dependency(
    issue_id: Seq<char>,
    issue_type: Seq<char>,
    summary: Seq<char>,
    outcome: DependencyOutcomeModel,
    package_manager_supported: bool,
    target_profiles: Seq<Seq<char>>,
) -> FindingModel {
    FindingModel {
        issue_id: issue_id,
        issue_type: issue_type,
        workspace: outcome.workspace,
        target_profiles: target_profiles,
        paths: seq![manifest_of(outcome.workspace)],
        span: None,
        symbol: None,
        dependency: Some(outcome.package),
        confidence: confidence_of(outcome.confidence),
        summary: summary,
        evidence: seq![categories_text(outcome.categories)],
        blockers: if removable(outcome.confidence, issue_id) && !package_manager_supported {
            seq![
                "No unambiguous supported npm, pnpm, Yarn, or Bun package manager was detected"@,
            ]
        } else {
            Seq::empty()
        },
        suggested_actions: seq![
            "Review the owning workspace and run a fix preview before changing the manifest"@,
        ],
        fix_eligibility: if removable(outcome.confidence, issue_id) && package_manager_supported {
            FixEligibility::Eligible
        } else if outcome.confidence == DependencyConfidence::High {
            FixEligibility::PreviewOnly
        } else {
            FixEligibility::Blocked
        },
    }
}

/// A finding on a dependency.
#[must_use]
pub fn dependency_finding(input: DependencyFindingInput<'_>) -> (r: Finding)
    ensures
        r.deep_view() == finding_on_dependency(
            input.issue_id@,
            input.issue_type@,
            input.summary@,
            input.outcome.deep_view(),
            input.package_manager_supported,
            input.target_profiles.deep_view(),
        ),
{
    let outcome: &DependencyOutcome = input.outcome;
    let otherwise_eligible: bool = outcome.confidence == DependencyConfidence::High && same(
        input.issue_id,
        "ORP2001",
    );
    Finding {
        issue_id: input.issue_id,
        issue_type: input.issue_type,
        workspace: outcome.workspace.replicate(),
        target_profiles: input.target_profiles.replicate(),
        paths: one_text(&manifest_path(&outcome.workspace)),
        span: None,
        symbol: None,
        dependency: Some(outcome.package.replicate()),
        confidence: finding_confidence(outcome.confidence),
        summary: input.summary,
        evidence: one_text(&text_of_categories(&outcome.categories)),
        blockers: if otherwise_eligible && !input.package_manager_supported {
            one_text(
                "No unambiguous supported npm, pnpm, Yarn, or Bun package manager was detected",
            )
        } else {
            no_texts()
        },
        suggested_actions: one_text(
            "Review the owning workspace and run a fix preview before changing the manifest",
        ),
        fix_eligibility: if otherwise_eligible && input.package_manager_supported {
            FixEligibility::Eligible
        } else if outcome.confidence == DependencyConfidence::High {
            FixEligibility::PreviewOnly
        } else {
            FixEligibility::Blocked
        },
    }
}

/// What is said of a dependency without evidence.
pub open spec fn unused_summary(kind: DependencyOutcomeKind, package: Seq<char>) -> Seq<char> {
    match kind {
        DependencyOutcomeKind::UnreferencedPeer => "peer dependency "@ + package
            + " has no reachable contract evidence"@,
        DependencyOutcomeKind::UnreferencedOptional => "optional dependency "@ + package
            + " has no reachable conditional evidence"@,
        _ => "dependency "@ + package + " has no reachable evidence"@,
    }
}

/// What is said of a dependency without evidence.
#[must_use]
pub fn dependency_summary(kind: DependencyOutcomeKind, package: &str) -> (r: String)
    ensures
        r@ == unused_summary(kind, package@),
{
    match kind {
        DependencyOutcomeKind::UnreferencedPeer => concat3(
            "peer dependency ",
            package,
            " has no reachable contract evidence",
        ),
        DependencyOutcomeKind::UnreferencedOptional => concat3(
            "optional dependency ",
            package,
            " has no reachable conditional evidence",
        ),
        _ => concat3("dependency ", package, " has no reachable evidence"),
    }
}

/// What is said of a package that is used without being declared where it is used.
pub open spec fn undeclared_summary(outcome: DependencyOutcomeModel) -> Seq<char> {
    match outcome.declared_workspace {
        Some(owner) => outcome.package + " is used by "@ + outcome.workspace + " but declared in "@
            + owner,
        None => outcome.package + " is used by "@ + outcome.workspace
            + " without a direct declaration"@,
    }
}

fn undeclared_text(outcome: &DependencyOutcome) -> (r: String)
    ensures
        r@ == undeclared_summary(outcome.deep_view()),
{
    match &outcome.declared_workspace {
        Some(owner) => concat5(
            &outcome.package,
            " is used by ",
            &outcome.workspace,
            " but declared in ",
            owner,
        ),
        None => concat4(
            &outcome.package,
            " is used by ",
            &outcome.workspace,
            " without a direct declaration",
        ),
    }
}

/// Texts with where evidence comes from.
pub open spec fn with_sources(
    items: Seq<NormalizedDependencyEvidenceModel>,
    start: Seq<Seq<char>>,
) -> Seq<Seq<char>>
    decreases items.len(),
{
    if items.len() == 0 {
        start
    } else {
        let rest = with_sources(items.drop_last(), start);
        let last = items.last();
        rest.push(last.source)
    }
}

fn add_sources(
    items: &Vec<NormalizedDependencyEvidence>,
    out: &mut Vec<String>,
)
    ensures
        final(out).deep_view() == with_sources(items.deep_view(), old(out).deep_view()),
{
    let ghost start = out.deep_view();
    let ghost model = items.deep_view();
    let mut i: usize = 0;
    while i < items.len()
        invariant
            i <= items.len(),
            model == items.deep_view(),
            out.deep_view() =~= with_sources(model.take(i as int), start),
        decreases items.len() - i,
    {
        proof {
            assert(model.take(i + 1).drop_last() =~= model.take(i as int));
            assert(model.take(i + 1).last() == items@[i as int].deep_view());
        }
        let item: &NormalizedDependencyEvidence = &items[i];
        push_item(out, item.source.replicate());
        i = i + 1;
    }
    assert(model.take(i as int) =~= model);
}

/// A dependency that is kept.
pub open spec fn retained_dependency(
    outcome: DependencyOutcomeModel,
    target_profiles: Seq<Seq<char>>,
    ending: Seq<char>,
    evidence: Seq<Seq<char>>,
) -> RetentionReportModel {
    RetentionReportModel {
        item: outcome.package,
        item_type: "dependency"@,
        workspace: outcome.workspace,
        target_profiles: target_profiles,
        summary: outcome.package + ending,
        evidence: evidence,
    }
}

fn retain_dependency(
    outcome: &DependencyOutcome,
    target_profiles: &Vec<String>,
    ending: &str,
    evidence: Vec<String>,
) -> (r: RetentionReport)
    ensures
        r.deep_view() == retained_dependency(outcome.deep_view(), target_profiles.deep_view(), ending@, evidence.deep_view()),
{
    RetentionReport {
        item: outcome.package.replicate(),
        item_type: "dependency",
        workspace: outcome.workspace.replicate(),
        target_profiles: target_profiles.replicate(),
        summary: concat2(&outcome.package, ending),
        evidence: evidence,
    }
}

/// What the outcome for a dependency is reported as: what is kept, or a finding.
pub open spec fn reported_outcome(
    outcome: DependencyOutcomeModel,
    package_manager_supported: bool,
    target_profiles: Seq<Seq<char>>,
) -> Result<FindingModel, RetentionReportModel> {
    match outcome.kind {
        DependencyOutcomeKind::Retained => Err(
            retained_dependency(
                outcome,
                target_profiles,
                " is retained by reachable evidence"@,
                with_sources(outcome.evidence, Seq::empty()),
            ),
        ),
        DependencyOutcomeKind::Undetermined => Err(
            retained_dependency(
                outcome,
                target_profiles,
                " is retained because dependency analysis is incomplete"@,
                outcome.blockers,
            ),
        ),
        DependencyOutcomeKind::Unlisted => Ok(
            finding_on_dependency(
                "ORP2002"@,
                "unlistedDependency"@,
                undeclared_summary(outcome),
                outcome,
                package_manager_supported,
                target_profiles,
            ),
        ),
        DependencyOutcomeKind::Misplaced => Ok(
            finding_on_dependency(
                "ORP2002"@,
                "misplacedDependency"@,
                undeclared_summary(outcome),
                outcome,
                package_manager_supported,
                target_profiles,
            ),
        ),
        _ => Ok(
            finding_on_dependency(
                "ORP2001"@,
                "unusedDependency"@,
                unused_summary(outcome.kind, outcome.package),
                outcome,
                package_manager_supported,
                target_profiles,
            ),
        ),
    }
}

fn report_outcome(
    outcome: &DependencyOutcome,
    package_manager_supported: bool,
    target_profiles: &Vec<String>,
) -> (r: Result<Finding, RetentionReport>)
    ensures
        match r {
            Ok(finding) => reported_outcome(
                outcome.deep_view(),
                package_manager_supported,
                target_profiles.deep_view(),
            ) == Ok::<FindingModel, RetentionReportModel>(finding.deep_view()),
            Err(retention) => reported_outcome(
                outcome.deep_view(),
                package_manager_supported,
                target_profiles.deep_view(),
            ) == Err::<FindingModel, RetentionReportModel>(retention.deep_view()),
        },
{
    match outcome.kind {
        DependencyOutcomeKind::Retained => {
            let mut sources: Vec<String> = Vec::new();
            assert(sources.deep_view() =~= Seq::empty());
            add_sources(&outcome.evidence, &mut sources);
            Err(
                retain_dependency(
                    outcome,
                    target_profiles,
                    " is retained by reachable evidence",
                    sources,
                ),
            )
        },
        DependencyOutcomeKind::Undetermined => Err(
            retain_dependency(
                outcome,
                target_profiles,
                " is retained because dependency analysis is incomplete",
                outcome.blockers.replicate(),
            ),
        ),
        DependencyOutcomeKind::Unlisted => Ok(
            dependency_finding(
                DependencyFindingInput {
                    issue_id: "ORP2002",
                    issue_type: "unlistedDependency",
                    summary: undeclared_text(outcome),
                    outcome,
                    package_manager_supported,
                    target_profiles,
                },
            ),
        ),
        DependencyOutcomeKind::Misplaced => Ok(
            dependency_finding(
                DependencyFindingInput {
                    issue_id: "ORP2002",
                    issue_type: "misplacedDependency",
                    summary: undeclared_text(outcome),
                    outcome,
                    package_manager_supported,
                    target_profiles,
                },
            ),
        ),
        _ => Ok(
            dependency_finding(
                DependencyFindingInput {
                    issue_id: "ORP2001",
                    issue_type: "unusedDependency",
                    summary: dependency_summary(outcome.kind, &outcome.package),
                    outcome,
                    package_manager_supported,
                    target_profiles,
                },
            ),
        ),
    }
}

/// Findings with those on dependencies.
pub open spec fn with_outcome_findings(
    items: Seq<DependencyOutcomeModel>,
    start: Seq<FindingModel>,
    package_manager_supported: bool,
    target_profiles: Seq<Seq<char>>,
) -> Seq<FindingModel>
    decreases items.len(),
{
    if items.len() == 0 {
        start
    } else {
        let rest = with_outcome_findings(
            items.drop_last(),
            start,
            package_manager_supported,
            target_profiles,
        );
        let last = items.last();
        match reported_outcome(last, package_manager_supported, target_profiles) {
            Ok(finding) => rest.push(finding),
            Err(_) => rest,
        }
    }
}

/// What is kept, with the dependencies that are.
pub open spec fn with_outcome_retentions(
    items: Seq<DependencyOutcomeModel>,
    start: Seq<RetentionReportModel>,
    package_manager_supported: bool,
    target_profiles: Seq<Seq<char>>,
) -> Seq<RetentionReportModel>
    decreases items.len(),
{
    if items.len() == 0 {
        start
    } else {
        let rest = with_outcome_retentions(
            items.drop_last(),
            start,
            package_manager_supported,
            target_profiles,
        );
        let last = items.last();
        match reported_outcome(last, package_manager_supported, target_profiles) {
            Ok(_) => rest,
            Err(retention) => rest.push(retention),
        }
    }
}

/// Retentions by workspace, type and item.
pub struct ByKindOfRetention;

impl Ranking<RetentionReport> for ByKindOfRetention {
    type Key = (String, (String, String));

    open spec fn key(m: RetentionReportModel) -> (Seq<char>, (Seq<char>, Seq<char>)) {
        (m.workspace, (m.item_type, m.item))
    }

    fn ranks_before(a: &RetentionReport, b: &RetentionReport) -> (r: bool) {
        a.workspace.is_before(&b.workspace) || (a.workspace.same_value(&b.workspace) && (a.item_type.is_before(&b.item_type) || (a.item_type.same_value(&b.item_type) && (a.item.is_before(&b.item)))))
    }
}

/// All that the analysis of dependencies goes by: what packages declare, what their scripts,
/// plugins, files and compiler configurations use, who owns which binary, and what may be
/// missing.
pub open spec fn dependency_input(
    workspace: WorkspaceDiscoveryModel,
    contexts: Seq<PackageContextModel>,
    configurations: Seq<ProjectConfigurationModel>,
    installed: Seq<InstalledPackageModel>,
    report: ScanReportModel,
) -> DependencyAnalysisInputModel {
    DependencyAnalysisInputModel {
        root_workspace: "."@,
        manifests: with_manifests(contexts, Seq::empty()),
        evidence: with_configuration_evidence(
            configurations,
            with_context_evidence(
                contexts,
                with_source_evidence(report.files, Seq::empty(), workspace),
            ),
            workspace,
        ),
        binary_owners: owners_of_binaries(installed),
        blockers: with_diagnostic_blockers(
            report.diagnostics,
            with_script_blockers(contexts, Seq::empty()),
            workspace,
        ),
    }
}

/// A report with what the analysis of dependencies says.
pub open spec fn with_dependency_results(
    report: ScanReportModel,
    workspace: WorkspaceDiscoveryModel,
    contexts: Seq<PackageContextModel>,
    configurations: Seq<ProjectConfigurationModel>,
    installed: Seq<InstalledPackageModel>,
    target_profiles: Seq<Seq<char>>,
) -> ScanReportModel {
    let outcomes = dependency_analysis(
        dependency_input(workspace, contexts, configurations, installed, report),
    ).outcomes;
    let supported = removes_packages(workspace.package_manager);
    ScanReportModel {
        findings: with_outcome_findings(outcomes, report.findings, supported, target_profiles),
        retentions: sorted_by::<RetentionReport, ByKindOfRetention>(
            with_outcome_retentions(outcomes, report.retentions, supported, target_profiles),
        ),
        ..report
    }
}

/// Adds to a report what the analysis of dependencies says. `installed` are the installed
/// dependencies of the packages, as far as their manifests can be read.
pub fn append_dependency_results(
    workspace: &WorkspaceDiscovery,
    contexts: &Vec<PackageContext>,
    project_configurations: &Vec<ProjectConfiguration>,
    installed: &Vec<InstalledPackage>,
    target_profiles: &Vec<String>,
    report: &mut ScanReport,
)
    ensures
        final(report).deep_view() == with_dependency_results(
            old(report).deep_view(),
            workspace.deep_view(),
            contexts.deep_view(),
            project_configurations.deep_view(),
            installed.deep_view(),
            target_profiles.deep_view(),
        ),
{
    let ghost before = report.deep_view();
    let mut manifests: Vec<DependencyManifest> = Vec::new();
    assert(manifests.deep_view() =~= Seq::empty());
    add_manifests(contexts, &mut manifests);
    let mut evidence: Vec<DependencyEvidence> = source_dependency_evidence(workspace, report);
    add_context_evidence(contexts, &mut evidence);
    add_configuration_evidence(project_configurations, workspace, &mut evidence);
    let mut blockers: Vec<DependencyBlocker> = Vec::new();
    assert(blockers.deep_view() =~= Seq::empty());
    add_script_blockers(contexts, &mut blockers);
    add_diagnostic_blockers(&report.diagnostics, workspace, &mut blockers);
    let binary_owners: OrderedMap<String, String> = collect_binary_owners(installed);
    let analysis: DependencyAnalysis = analyze_dependencies(
        DependencyAnalysisInput {
            root_workspace: ".",
            manifests: &manifests,
            evidence: &evidence,
            binary_owners: &binary_owners,
            blockers: &blockers,
        },
    );
    assert(analysis.deep_view() == dependency_analysis(
        dependency_input(
            workspace.deep_view(),
            contexts.deep_view(),
            project_configurations.deep_view(),
            installed.deep_view(),
            before,
        ),
    ));
    let supported: bool = can_remove_packages(workspace.package_manager);
    let outcomes: &Vec<DependencyOutcome> = &analysis.outcomes;
    let mut findings: Vec<Finding> = report.findings.replicate();
    let mut retentions: Vec<RetentionReport> = report.retentions.replicate();
    let ghost profiles = target_profiles.deep_view();
    let ghost model = outcomes.deep_view();
    let mut i: usize = 0;
    while i < outcomes.len()
        invariant
            i <= outcomes.len(),
            model == outcomes.deep_view(),
            profiles == target_profiles.deep_view(),
            findings.deep_view() =~= with_outcome_findings(model.take(i as int), before.findings, supported, profiles),
            retentions.deep_view() =~= with_outcome_retentions(model.take(i as int), before.retentions, supported, profiles),
        decreases outcomes.len() - i,
    {
        proof {
            assert(model.take(i + 1).drop_last() =~= model.take(i as int));
            assert(model.take(i + 1).last() == outcomes@[i as int].deep_view());
        }
        match report_outcome(&outcomes[i], supported, target_profiles) {
            Ok(finding) => {
                push_item(&mut findings, finding);
            },
            Err(retention) => {
                push_item(&mut retentions, retention);
            },
        }
        i = i + 1;
    }
    assert(model.take(i as int) =~= model);
    sort_by::<RetentionReport, ByKindOfRetention>(&mut retentions);
    report.findings = findings;
    report.retentions = retentions;
}

} // verus!
