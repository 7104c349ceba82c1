//! What a report says of the dependencies that a project uses.

use crate::analysis::dependencies::{
    dependency_analysis, outcomes_are_ordered_and_complete, DependencyAnalysisInputModel,
    DependencyBlockerModel,
    DependencyConfidence, DependencyEvidenceKind, DependencyEvidenceModel,
    DependencyEvidenceScope, DependencyManifestModel, DependencyOutcomeKind,
    DependencyOutcomeModel,
};
use crate::analysis::dependency_laws::{
    blockers_leave_results_open,
    field_of, is_for, listed_in, listed_under, lists_package, named_packages_are_accounted_for,
    owners_of_binaries_are_retained, refers_to, runs_binary_of,
};
use crate::analysis::packages::{named_packages_are_names, npm_package, spaceless};
use crate::application::dependency_results::{
    binary_of, dependency_input, owners_of_binaries, reported_outcome, with_binaries,
    with_configuration_evidence, with_diagnostic_blockers, with_script_blockers,
    with_context_evidence, with_dependency_results, with_import_evidence, with_installed,
    with_manifests, with_named_evidence, with_outcome_findings, with_plugin_evidence,
    with_reference_evidence, with_script_evidence, with_source_evidence, BinaryDeclarationModel,
    InstalledPackageModel,
};
use crate::collections::{
    ascending, keys_of, lookup, lookup_after_with_entry, lookup_other_after_with_entry,
};
use crate::discovery::segments::{program_name, ScriptReferenceKind, ScriptReferenceModel};
use crate::discovery::workspace::{
    owner_name, PackageContextModel, ProjectConfigurationModel, WorkspaceDiscoveryModel,
    WorkspacePackageManager,
};
use crate::domain::facts::AnalysisDiagnosticModel;
use crate::domain::report::{
    Confidence, FileReportModel, FileStatus, FindingModel, FixEligibility, ImportReportModel,
    ResolutionStatus, RetentionReportModel, ScanReportModel,
};
use crate::paths::parsed;
use crate::plugins::contract::{
    DetectedBuiltinPluginModel, ReferenceContributionModel, ReferenceKind,
};
use crate::values::Ordered;
use vstd::prelude::*;

verus! {

/// Whether a manifest of the workspace lists the package as a dependency of any kind.
pub open spec fn workspace_lists(
    contexts: Seq<PackageContextModel>,
    workspace: Seq<char>,
    package: Seq<char>,
) -> bool {
    exists|c: int|
        0 <= c < contexts.len() && (#[trigger] contexts[c]).workspace_name == workspace && {
            let manifest = contexts[c].package.manifest;
            ||| lists_package(manifest.dependencies, package)
            ||| lists_package(manifest.dev_dependencies, package)
            ||| lists_package(manifest.peer_dependencies, package)
            ||| lists_package(manifest.optional_dependencies, package)
        }
}

/// Whether a reachable file of the workspace imports the package, for types or for values, and
/// not as a part of the project itself.
pub open spec fn imports_it(
    report: ScanReportModel,
    project: WorkspaceDiscoveryModel,
    workspace: Seq<char>,
    package: Seq<char>,
) -> bool {
    exists|i: int, k: int|
        #![trigger report.files[i].imports[k]]
        0 <= i < report.files.len() && 0 <= k < report.files[i].imports.len()
            && report.files[i].status == FileStatus::Reachable && owner_name(
            project.packages,
            parsed(report.files[i].path),
        ) == workspace && npm_package(report.files[i].imports[k].specifier) == Some(package)
            && spaceless(report.files[i].imports[k].specifier)
            && report.files[i].imports[k].status != ResolutionStatus::Resolved
            && report.files[i].imports[k].target is None
}

/// Whether a script of the workspace that runs names the package.
pub open spec fn script_names_it(
    contexts: Seq<PackageContextModel>,
    workspace: Seq<char>,
    package: Seq<char>,
) -> bool {
    exists|c: int, k: int|
        #![trigger contexts[c].scripts.references[k]]
        0 <= c < contexts.len() && 0 <= k < contexts[c].scripts.references.len()
            && contexts[c].workspace_name == workspace && contexts[c].scripts.references[k].kind
            == ScriptReferenceKind::Package && npm_package(
            contexts[c].scripts.references[k].value,
        ) == Some(package)
}

/// Whether a plugin of the workspace refers to the package.
pub open spec fn plugin_names_it(
    contexts: Seq<PackageContextModel>,
    workspace: Seq<char>,
    package: Seq<char>,
) -> bool {
    exists|c: int, q: int, k: int|
        #![trigger contexts[c].plugins[q].plugin.contributions.references[k]]
        0 <= c < contexts.len() && 0 <= q < contexts[c].plugins.len() && 0 <= k
            < contexts[c].plugins[q].plugin.contributions.references.len()
            && contexts[c].workspace_name == workspace
            && contexts[c].plugins[q].plugin.contributions.references[k].kind
            == ReferenceKind::Package && npm_package(
            contexts[c].plugins[q].plugin.contributions.references[k].name,
        ) == Some(package)
}

/// Whether a configuration that belongs to the workspace refers to the package.
pub open spec fn configuration_names_it(
    configurations: Seq<ProjectConfigurationModel>,
    project: WorkspaceDiscoveryModel,
    workspace: Seq<char>,
    package: Seq<char>,
) -> bool {
    exists|i: int, k: int|
        #![trigger configurations[i].dependency_evidence[k]]
        0 <= i < configurations.len() && 0 <= k < configurations[i].dependency_evidence.len()
            && owner_name(project.packages, configurations[i].path) == workspace && npm_package(
            configurations[i].dependency_evidence[k],
        ) == Some(package)
}

/// Whether a script of the workspace that runs calls a binary of the package.
pub open spec fn script_runs_it(
    contexts: Seq<PackageContextModel>,
    installed: Seq<InstalledPackageModel>,
    workspace: Seq<char>,
    package: Seq<char>,
) -> bool {
    exists|c: int, k: int, i: int|
        #![trigger contexts[c].scripts.references[k], installed[i]]
        0 <= c < contexts.len() && 0 <= k < contexts[c].scripts.references.len()
            && contexts[c].workspace_name == workspace && contexts[c].scripts.references[k].kind
            == ScriptReferenceKind::Binary && is_last_to_bring(
            installed,
            i,
            program_name(contexts[c].scripts.references[k].value),
        ) && npm_package(installed[i].dependency) == Some(package)
}

/// Whether an installed package brings a binary of the given name.
pub open spec fn brings(package: InstalledPackageModel, binary: Seq<char>) -> bool {
    match package.bin {
        BinaryDeclarationModel::Absent => false,
        BinaryDeclarationModel::Single(_) => binary == binary_of(package.name, package.dependency),
        BinaryDeclarationModel::Named(binaries) => exists|k: int|
            0 <= k < binaries.len() && (#[trigger] binaries[k]).0 == binary,
    }
}

/// Whether an installed package brings the binary, and none behind it does.
pub open spec fn is_last_to_bring(
    installed: Seq<InstalledPackageModel>,
    i: int,
    binary: Seq<char>,
) -> bool {
    &&& 0 <= i < installed.len()
    &&& brings(installed[i], binary)
    &&& forall|j: int| i < j < installed.len() ==> !brings(#[trigger] installed[j], binary)
}

proof fn script_evidence_is_kept(
    items: Seq<ScriptReferenceModel>,
    start: Seq<DependencyEvidenceModel>,
    workspace: Seq<char>,
    x: DependencyEvidenceModel,
    k: int,
)
    requires
        start.contains(x) || (0 <= k < items.len() && items[k].kind != ScriptReferenceKind::File
            && x == (DependencyEvidenceModel {
            workspace,
            reference: items[k].value,
            kind: if items[k].kind == ScriptReferenceKind::Binary {
                DependencyEvidenceKind::Binary
            } else {
                DependencyEvidenceKind::Script
            },
            scope: DependencyEvidenceScope::Development,
            source: "package.json scripts."@ + items[k].script,
            reachable: true,
        })),
    ensures
        with_script_evidence(items, start, workspace).contains(x),
    decreases items.len(),
{
    if items.len() > 0 {
        let front = items.drop_last();
        let rest = with_script_evidence(front, start, workspace);
        let all = with_script_evidence(items, start, workspace);
        if !start.contains(x) && k == items.len() - 1 {
            assert(all[all.len() - 1] == x);
        } else {
            script_evidence_is_kept(front, start, workspace, x, k);
            let j = choose|j: int| 0 <= j < rest.len() && rest[j] == x;
            assert(all[j] == x);
        }
    }
}

proof fn reference_evidence_is_kept(
    items: Seq<ReferenceContributionModel>,
    start: Seq<DependencyEvidenceModel>,
    workspace: Seq<char>,
    id: Seq<char>,
    x: DependencyEvidenceModel,
    k: int,
)
    requires
        start.contains(x) || (0 <= k < items.len() && x == (DependencyEvidenceModel {
            workspace,
            reference: items[k].name,
            kind: if items[k].kind == ReferenceKind::Package {
                DependencyEvidenceKind::Config
            } else {
                DependencyEvidenceKind::Binary
            },
            scope: DependencyEvidenceScope::Development,
            source: id + " plugin convention"@,
            reachable: true,
        })),
    ensures
        with_reference_evidence(items, start, workspace, id).contains(x),
    decreases items.len(),
{
    if items.len() > 0 {
        let front = items.drop_last();
        let rest = with_reference_evidence(front, start, workspace, id);
        let all = with_reference_evidence(items, start, workspace, id);
        if !start.contains(x) && k == items.len() - 1 {
            assert(all[all.len() - 1] == x);
        } else {
            reference_evidence_is_kept(front, start, workspace, id, x, k);
            let j = choose|j: int| 0 <= j < rest.len() && rest[j] == x;
            assert(all[j] == x);
        }
    }
}

proof fn plugin_evidence_is_kept(
    items: Seq<DetectedBuiltinPluginModel>,
    start: Seq<DependencyEvidenceModel>,
    workspace: Seq<char>,
    x: DependencyEvidenceModel,
    q: int,
    k: int,
)
    requires
        start.contains(x) || (0 <= q < items.len() && 0 <= k
            < items[q].plugin.contributions.references.len() && x == (DependencyEvidenceModel {
            workspace,
            reference: items[q].plugin.contributions.references[k].name,
            kind: if items[q].plugin.contributions.references[k].kind == ReferenceKind::Package {
                DependencyEvidenceKind::Config
            } else {
                DependencyEvidenceKind::Binary
            },
            scope: DependencyEvidenceScope::Development,
            source: items[q].plugin.id + " plugin convention"@,
            reachable: true,
        })),
    ensures
        with_plugin_evidence(items, start, workspace).contains(x),
    decreases items.len(),
{
    if items.len() > 0 {
        let front = items.drop_last();
        let last = items.last();
        if start.contains(x) || q < front.len() {
            plugin_evidence_is_kept(front, start, workspace, x, q, k);
        }
        reference_evidence_is_kept(
            last.plugin.contributions.references,
            with_plugin_evidence(front, start, workspace),
            workspace,
            last.plugin.id,
            x,
            k,
        );
    }
}

/// Evidence from the scripts or the plugins of a package stays among the evidence.
proof fn context_evidence_is_kept(
    items: Seq<PackageContextModel>,
    start: Seq<DependencyEvidenceModel>,
    x: DependencyEvidenceModel,
    c: int,
    q: int,
    k: int,
)
    requires
        start.contains(x) || (0 <= c < items.len() && ((0 <= k
            < items[c].scripts.references.len() && items[c].scripts.references[k].kind
            != ScriptReferenceKind::File && x == (DependencyEvidenceModel {
            workspace: items[c].workspace_name,
            reference: items[c].scripts.references[k].value,
            kind: if items[c].scripts.references[k].kind == ScriptReferenceKind::Binary {
                DependencyEvidenceKind::Binary
            } else {
                DependencyEvidenceKind::Script
            },
            scope: DependencyEvidenceScope::Development,
            source: "package.json scripts."@ + items[c].scripts.references[k].script,
            reachable: true,
        })) || (0 <= q < items[c].plugins.len() && 0 <= k
            < items[c].plugins[q].plugin.contributions.references.len() && x == (
        DependencyEvidenceModel {
            workspace: items[c].workspace_name,
            reference: items[c].plugins[q].plugin.contributions.references[k].name,
            kind: if items[c].plugins[q].plugin.contributions.references[k].kind
                == ReferenceKind::Package {
                DependencyEvidenceKind::Config
            } else {
                DependencyEvidenceKind::Binary
            },
            scope: DependencyEvidenceScope::Development,
            source: items[c].plugins[q].plugin.id + " plugin convention"@,
            reachable: true,
        })))),
    ensures
        with_context_evidence(items, start).contains(x),
    decreases items.len(),
{
    if items.len() > 0 {
        let front = items.drop_last();
        let last = items.last();
        let rest = with_context_evidence(front, start);
        let scripts = with_script_evidence(last.scripts.references, rest, last.workspace_name);
        if start.contains(x) || c < front.len() {
            context_evidence_is_kept(front, start, x, c, q, k);
            script_evidence_is_kept(last.scripts.references, rest, last.workspace_name, x, k);
            plugin_evidence_is_kept(last.plugins, scripts, last.workspace_name, x, q, k);
        } else if 0 <= k < last.scripts.references.len() && last.scripts.references[k].kind
            != ScriptReferenceKind::File && x == (DependencyEvidenceModel {
            workspace: last.workspace_name,
            reference: last.scripts.references[k].value,
            kind: if last.scripts.references[k].kind == ScriptReferenceKind::Binary {
                DependencyEvidenceKind::Binary
            } else {
                DependencyEvidenceKind::Script
            },
            scope: DependencyEvidenceScope::Development,
            source: "package.json scripts."@ + last.scripts.references[k].script,
            reachable: true,
        }) {
            script_evidence_is_kept(last.scripts.references, rest, last.workspace_name, x, k);
            plugin_evidence_is_kept(last.plugins, scripts, last.workspace_name, x, q, k);
        } else {
            plugin_evidence_is_kept(last.plugins, scripts, last.workspace_name, x, q, k);
        }
    }
}

proof fn named_evidence_is_kept(
    items: Seq<Seq<char>>,
    start: Seq<DependencyEvidenceModel>,
    workspace: Seq<char>,
    source: Seq<char>,
    x: DependencyEvidenceModel,
    k: int,
)
    requires
        start.contains(x) || (0 <= k < items.len() && x == (DependencyEvidenceModel {
            workspace,
            reference: items[k],
            kind: DependencyEvidenceKind::Config,
            scope: DependencyEvidenceScope::Development,
            source,
            reachable: true,
        })),
    ensures
        with_named_evidence(items, start, workspace, source).contains(x),
    decreases items.len(),
{
    if items.len() > 0 {
        let front = items.drop_last();
        let rest = with_named_evidence(front, start, workspace, source);
        let all = with_named_evidence(items, start, workspace, source);
        if !start.contains(x) && k == items.len() - 1 {
            assert(all[all.len() - 1] == x);
        } else {
            named_evidence_is_kept(front, start, workspace, source, x, k);
            let j = choose|j: int| 0 <= j < rest.len() && rest[j] == x;
            assert(all[j] == x);
        }
    }
}

proof fn configuration_evidence_is_kept(
    items: Seq<ProjectConfigurationModel>,
    start: Seq<DependencyEvidenceModel>,
    project: WorkspaceDiscoveryModel,
    x: DependencyEvidenceModel,
    i: int,
    k: int,
)
    requires
        start.contains(x) || (0 <= i < items.len() && 0 <= k < items[i].dependency_evidence.len()
            && x == (DependencyEvidenceModel {
            workspace: owner_name(project.packages, items[i].path),
            reference: items[i].dependency_evidence[k],
            kind: DependencyEvidenceKind::Config,
            scope: DependencyEvidenceScope::Development,
            source: crate::paths::slashed(items[i].path),
            reachable: true,
        })),
    ensures
        with_configuration_evidence(items, start, project).contains(x),
    decreases items.len(),
{
    if items.len() > 0 {
        let front = items.drop_last();
        let last = items.last();
        if start.contains(x) || i < front.len() {
            configuration_evidence_is_kept(front, start, project, x, i, k);
        }
        named_evidence_is_kept(
            last.dependency_evidence,
            with_configuration_evidence(front, start, project),
            owner_name(project.packages, last.path),
            crate::paths::slashed(last.path),
            x,
            k,
        );
    }
}

proof fn import_evidence_is_kept(
    items: Seq<ImportReportModel>,
    start: Seq<DependencyEvidenceModel>,
    workspace: Seq<char>,
    path: Seq<char>,
    reachable: bool,
    x: DependencyEvidenceModel,
    k: int,
)
    requires
        start.contains(x) || (0 <= k < items.len() && npm_package(items[k].specifier) is Some
            && items[k].status != ResolutionStatus::Resolved && items[k].target is None && x == (
        DependencyEvidenceModel {
            workspace,
            reference: npm_package(items[k].specifier)->0,
            kind: if items[k].type_only {
                DependencyEvidenceKind::TypeOnlyImport
            } else {
                DependencyEvidenceKind::SourceImport
            },
            scope: if items[k].type_only {
                DependencyEvidenceScope::Contract
            } else {
                DependencyEvidenceScope::Runtime
            },
            source: path + " imports "@ + items[k].specifier,
            reachable,
        })),
    ensures
        with_import_evidence(items, start, workspace, path, reachable).contains(x),
    decreases items.len(),
{
    if items.len() > 0 {
        let front = items.drop_last();
        let rest = with_import_evidence(front, start, workspace, path, reachable);
        let all = with_import_evidence(items, start, workspace, path, reachable);
        if !start.contains(x) && k == items.len() - 1 {
            assert(all[all.len() - 1] == x);
        } else {
            import_evidence_is_kept(front, start, workspace, path, reachable, x, k);
            let j = choose|j: int| 0 <= j < rest.len() && rest[j] == x;
            assert(all[j] == x);
        }
    }
}

proof fn source_evidence_is_kept(
    items: Seq<FileReportModel>,
    project: WorkspaceDiscoveryModel,
    x: DependencyEvidenceModel,
    i: int,
    k: int,
)
    requires
        0 <= i < items.len(),
        0 <= k < items[i].imports.len(),
        npm_package(items[i].imports[k].specifier) is Some,
        items[i].imports[k].status != ResolutionStatus::Resolved,
        items[i].imports[k].target is None,
        x == (DependencyEvidenceModel {
            workspace: owner_name(project.packages, parsed(items[i].path)),
            reference: npm_package(items[i].imports[k].specifier)->0,
            kind: if items[i].imports[k].type_only {
                DependencyEvidenceKind::TypeOnlyImport
            } else {
                DependencyEvidenceKind::SourceImport
            },
            scope: if items[i].imports[k].type_only {
                DependencyEvidenceScope::Contract
            } else {
                DependencyEvidenceScope::Runtime
            },
            source: items[i].path + " imports "@ + items[i].imports[k].specifier,
            reachable: items[i].status == FileStatus::Reachable,
        }),
    ensures
        with_source_evidence(items, Seq::empty(), project).contains(x),
    decreases items.len(),
{
    let front = items.drop_last();
    let last = items.last();
    if i < front.len() {
        source_evidence_is_kept(front, project, x, i, k);
    }
    import_evidence_is_kept(
        last.imports,
        with_source_evidence(front, Seq::empty(), project),
        owner_name(project.packages, parsed(last.path)),
        last.path,
        last.status == FileStatus::Reachable,
        x,
        k,
    );
}

proof fn manifests_are_those_of_the_packages(items: Seq<PackageContextModel>)
    ensures
        with_manifests(items, Seq::empty()).len() == items.len(),
        forall|c: int|
            0 <= c < items.len() ==> (#[trigger] with_manifests(items, Seq::empty())[c])
                == (DependencyManifestModel {
                workspace: items[c].workspace_name,
                dependencies: items[c].package.manifest.dependencies,
                dev_dependencies: items[c].package.manifest.dev_dependencies,
                peer_dependencies: items[c].package.manifest.peer_dependencies,
                optional_dependencies: items[c].package.manifest.optional_dependencies,
                bundled_dependencies: items[c].package.manifest.bundled_dependencies,
            }),
    decreases items.len(),
{
    if items.len() > 0 {
        manifests_are_those_of_the_packages(items.drop_last());
    }
}

proof fn listing_is_that_of_the_packages(contexts: Seq<PackageContextModel>, w: Seq<char>, p: Seq<char>)
    ensures
        listed_in(with_manifests(contexts, Seq::empty()), w, p) <==> workspace_lists(
            contexts,
            w,
            p,
        ),
{
    manifests_are_those_of_the_packages(contexts);
    let manifests = with_manifests(contexts, Seq::empty());
    if workspace_lists(contexts, w, p) {
        let c = choose|c: int|
            0 <= c < contexts.len() && (#[trigger] contexts[c]).workspace_name == w && {
                let manifest = contexts[c].package.manifest;
                ||| lists_package(manifest.dependencies, p)
                ||| lists_package(manifest.dev_dependencies, p)
                ||| lists_package(manifest.peer_dependencies, p)
                ||| lists_package(manifest.optional_dependencies, p)
            };
        assert(manifests[c].workspace == w);
    }
    if listed_in(manifests, w, p) {
        let category = if listed_under(
            manifests,
            w,
            p,
            crate::analysis::dependencies::DependencyCategory::Runtime,
        ) {
            crate::analysis::dependencies::DependencyCategory::Runtime
        } else if listed_under(
            manifests,
            w,
            p,
            crate::analysis::dependencies::DependencyCategory::Development,
        ) {
            crate::analysis::dependencies::DependencyCategory::Development
        } else if listed_under(
            manifests,
            w,
            p,
            crate::analysis::dependencies::DependencyCategory::Peer,
        ) {
            crate::analysis::dependencies::DependencyCategory::Peer
        } else {
            crate::analysis::dependencies::DependencyCategory::Optional
        };
        let c = choose|c: int|
            0 <= c < manifests.len() && (#[trigger] manifests[c]).workspace == w && lists_package(
                field_of(manifests[c], category),
                p,
            );
        assert(contexts[c].workspace_name == w);
    }
}

proof fn binaries_are_owned(
    items: Seq<(Seq<char>, Seq<char>)>,
    start: Seq<(Seq<char>, Seq<char>)>,
    dependency: Seq<char>,
    binary: Seq<char>,
)
    requires
        ascending::<String>(keys_of(start)),
    ensures
        ascending::<String>(keys_of(with_binaries(items, start, dependency))),
        lookup(with_binaries(items, start, dependency), binary) == (if exists|k: int|
            0 <= k < items.len() && (#[trigger] items[k]).0 == binary {
            Some(dependency)
        } else {
            lookup(start, binary)
        }),
    decreases items.len(),
{
    if items.len() > 0 {
        let front = items.drop_last();
        binaries_are_owned(front, start, dependency, binary);
        let rest = with_binaries(front, start, dependency);
        let last = items.last();
        lookup_after_with_entry::<String, Seq<char>>(rest, last.0, dependency);
        if last.0 != binary {
            lookup_other_after_with_entry::<String, Seq<char>>(rest, last.0, dependency, binary);
        }
        assert(items[items.len() - 1] == last);
        if exists|k: int| 0 <= k < items.len() && (#[trigger] items[k]).0 == binary {
            let k = choose|k: int| 0 <= k < items.len() && (#[trigger] items[k]).0 == binary;
            if k < front.len() {
                assert(front[k] == items[k]);
            }
        }
        if exists|k: int| 0 <= k < front.len() && (#[trigger] front[k]).0 == binary {
            let k = choose|k: int| 0 <= k < front.len() && (#[trigger] front[k]).0 == binary;
            assert(items[k] == front[k]);
        }
    }
}

proof fn installed_package_owns(
    owners: Seq<(Seq<char>, Seq<char>)>,
    package: InstalledPackageModel,
    binary: Seq<char>,
)
    requires
        ascending::<String>(keys_of(owners)),
    ensures
        ascending::<String>(keys_of(with_installed(owners, package))),
        lookup(with_installed(owners, package), binary) == (if brings(package, binary) {
            Some(package.dependency)
        } else {
            lookup(owners, binary)
        }),
{
    match package.bin {
        BinaryDeclarationModel::Absent => {},
        BinaryDeclarationModel::Single(_) => {
            let own = binary_of(package.name, package.dependency);
            lookup_after_with_entry::<String, Seq<char>>(owners, own, package.dependency);
            if own != binary {
                lookup_other_after_with_entry::<String, Seq<char>>(
                    owners,
                    own,
                    package.dependency,
                    binary,
                );
            }
        },
        BinaryDeclarationModel::Named(binaries) => {
            binaries_are_owned(binaries, owners, package.dependency, binary);
        },
    }
}

proof fn owners_are_ordered(items: Seq<InstalledPackageModel>)
    ensures
        ascending::<String>(keys_of(owners_of_binaries(items))),
    decreases items.len(),
{
    if items.len() > 0 {
        owners_are_ordered(items.drop_last());
        installed_package_owns(owners_of_binaries(items.drop_last()), items.last(), Seq::empty());
    } else {
        assert(keys_of(owners_of_binaries(items)) =~= Seq::empty());
    }
}

/// A binary is owned by the last installed package that brings it; one that no installed package
/// brings has no owner.
pub proof fn binaries_belong_to_what_brings_them(
    installed: Seq<InstalledPackageModel>,
    binary: Seq<char>,
)
    ensures
        forall|i: int| #[trigger]
            is_last_to_bring(installed, i, binary) ==> lookup(
                owners_of_binaries(installed),
                binary,
            ) == Some(installed[i].dependency),
        (forall|i: int| 0 <= i < installed.len() ==> !brings(#[trigger] installed[i], binary))
            ==> lookup(owners_of_binaries(installed), binary) is None,
    decreases installed.len(),
{
    if installed.len() > 0 {
        let front = installed.drop_last();
        binaries_belong_to_what_brings_them(front, binary);
        owners_are_ordered(front);
        installed_package_owns(owners_of_binaries(front), installed.last(), binary);
        assert(installed[installed.len() - 1] == installed.last());
        assert forall|i: int| 0 <= i < front.len() implies #[trigger] installed[i] == front[i] by {}
        assert forall|i: int| #[trigger] is_last_to_bring(installed, i, binary) implies lookup(
            owners_of_binaries(installed),
            binary,
        ) == Some(installed[i].dependency) by {
            if i < front.len() {
                assert(!brings(installed[installed.len() - 1], binary));
                assert forall|j: int| i < j < front.len() implies !brings(
                    #[trigger] front[j],
                    binary,
                ) by {
                    assert(!brings(installed[j], binary));
                }
                assert(is_last_to_bring(front, i, binary));
            }
        }
        if forall|i: int| 0 <= i < installed.len() ==> !brings(#[trigger] installed[i], binary) {
            assert forall|i: int| 0 <= i < front.len() implies !brings(
                #[trigger] front[i],
                binary,
            ) by {
                assert(!brings(installed[i], binary));
            }
        }
    }
}

/// Whether something in use says that the workspace uses the package.
pub open spec fn uses_package(
    report: ScanReportModel,
    project: WorkspaceDiscoveryModel,
    contexts: Seq<PackageContextModel>,
    configurations: Seq<ProjectConfigurationModel>,
    workspace: Seq<char>,
    package: Seq<char>,
) -> bool {
    ||| imports_it(report, project, workspace, package)
    ||| script_names_it(contexts, workspace, package)
    ||| plugin_names_it(contexts, workspace, package)
    ||| configuration_names_it(configurations, project, workspace, package)
}

proof fn use_is_evidence(
    report: ScanReportModel,
    project: WorkspaceDiscoveryModel,
    contexts: Seq<PackageContextModel>,
    configurations: Seq<ProjectConfigurationModel>,
    installed: Seq<InstalledPackageModel>,
    w: Seq<char>,
    p: Seq<char>,
) -> (e: int)
    requires
        uses_package(report, project, contexts, configurations, w, p),
    ensures
        ({
            let input = dependency_input(project, contexts, configurations, installed, report);
            0 <= e < input.evidence.len() && refers_to(input.evidence[e], w, p)
        }),
{
    let input = dependency_input(project, contexts, configurations, installed, report);
    let sources = with_source_evidence(report.files, Seq::empty(), project);
    let own = with_context_evidence(contexts, sources);
    let x = if imports_it(report, project, w, p) {
        let (i, k) = choose|i: int, k: int|
            #![trigger report.files[i].imports[k]]
            0 <= i < report.files.len() && 0 <= k < report.files[i].imports.len()
                && report.files[i].status == FileStatus::Reachable && owner_name(
                project.packages,
                parsed(report.files[i].path),
            ) == w && npm_package(report.files[i].imports[k].specifier) == Some(p) && spaceless(
                report.files[i].imports[k].specifier,
            ) && report.files[i].imports[k].status != ResolutionStatus::Resolved
                && report.files[i].imports[k].target is None;
        let import = report.files[i].imports[k];
        let x = DependencyEvidenceModel {
            workspace: w,
            reference: p,
            kind: if import.type_only {
                DependencyEvidenceKind::TypeOnlyImport
            } else {
                DependencyEvidenceKind::SourceImport
            },
            scope: if import.type_only {
                DependencyEvidenceScope::Contract
            } else {
                DependencyEvidenceScope::Runtime
            },
            source: report.files[i].path + " imports "@ + import.specifier,
            reachable: true,
        };
        named_packages_are_names(import.specifier);
        source_evidence_is_kept(report.files, project, x, i, k);
        context_evidence_is_kept(contexts, sources, x, 0, 0, 0);
        configuration_evidence_is_kept(configurations, own, project, x, 0, 0);
        x
    } else if script_names_it(contexts, w, p) {
        let (c, k) = choose|c: int, k: int|
            #![trigger contexts[c].scripts.references[k]]
            0 <= c < contexts.len() && 0 <= k < contexts[c].scripts.references.len()
                && contexts[c].workspace_name == w && contexts[c].scripts.references[k].kind
                == ScriptReferenceKind::Package && npm_package(
                contexts[c].scripts.references[k].value,
            ) == Some(p);
        let x = DependencyEvidenceModel {
            workspace: w,
            reference: contexts[c].scripts.references[k].value,
            kind: DependencyEvidenceKind::Script,
            scope: DependencyEvidenceScope::Development,
            source: "package.json scripts."@ + contexts[c].scripts.references[k].script,
            reachable: true,
        };
        context_evidence_is_kept(contexts, sources, x, c, 0, k);
        configuration_evidence_is_kept(configurations, own, project, x, 0, 0);
        x
    } else if plugin_names_it(contexts, w, p) {
        let (c, q, k) = choose|c: int, q: int, k: int|
            #![trigger contexts[c].plugins[q].plugin.contributions.references[k]]
            0 <= c < contexts.len() && 0 <= q < contexts[c].plugins.len() && 0 <= k
                < contexts[c].plugins[q].plugin.contributions.references.len()
                && contexts[c].workspace_name == w
                && contexts[c].plugins[q].plugin.contributions.references[k].kind
                == ReferenceKind::Package && npm_package(
                contexts[c].plugins[q].plugin.contributions.references[k].name,
            ) == Some(p);
        let x = DependencyEvidenceModel {
            workspace: w,
            reference: contexts[c].plugins[q].plugin.contributions.references[k].name,
            kind: DependencyEvidenceKind::Config,
            scope: DependencyEvidenceScope::Development,
            source: contexts[c].plugins[q].plugin.id + " plugin convention"@,
            reachable: true,
        };
        context_evidence_is_kept(contexts, sources, x, c, q, k);
        configuration_evidence_is_kept(configurations, own, project, x, 0, 0);
        x
    } else {
        let (i, k) = choose|i: int, k: int|
            #![trigger configurations[i].dependency_evidence[k]]
            0 <= i < configurations.len() && 0 <= k < configurations[i].dependency_evidence.len()
                && owner_name(project.packages, configurations[i].path) == w && npm_package(
                configurations[i].dependency_evidence[k],
            ) == Some(p);
        let x = DependencyEvidenceModel {
            workspace: w,
            reference: configurations[i].dependency_evidence[k],
            kind: DependencyEvidenceKind::Config,
            scope: DependencyEvidenceScope::Development,
            source: crate::paths::slashed(configurations[i].path),
            reachable: true,
        };
        configuration_evidence_is_kept(configurations, own, project, x, i, k);
        x
    };
    assert(input.evidence.contains(x));
    choose|e: int| 0 <= e < input.evidence.len() && input.evidence[e] == x
}

pub(crate) proof fn finding_is_of(
    items: Seq<DependencyOutcomeModel>,
    start: Seq<FindingModel>,
    supported: bool,
    profiles: Seq<Seq<char>>,
    f: int,
) -> (o: int)
    requires
        start.len() <= f < with_outcome_findings(items, start, supported, profiles).len(),
    ensures
        0 <= o < items.len(),
        reported_outcome(items[o], supported, profiles) == Ok::<FindingModel, RetentionReportModel>(
            with_outcome_findings(items, start, supported, profiles)[f],
        ),
    decreases items.len(),
{
    let front = items.drop_last();
    if f < with_outcome_findings(front, start, supported, profiles).len() {
        finding_is_of(front, start, supported, profiles, f)
    } else {
        items.len() - 1
    }
}

proof fn finding_of(
    items: Seq<DependencyOutcomeModel>,
    start: Seq<FindingModel>,
    supported: bool,
    profiles: Seq<Seq<char>>,
    o: int,
) -> (f: int)
    requires
        0 <= o < items.len(),
        reported_outcome(items[o], supported, profiles) is Ok,
    ensures
        start.len() <= f < with_outcome_findings(items, start, supported, profiles).len(),
        reported_outcome(items[o], supported, profiles) == Ok::<FindingModel, RetentionReportModel>(
            with_outcome_findings(items, start, supported, profiles)[f],
        ),
    decreases items.len(),
{
    let front = items.drop_last();
    findings_grow(front, start, supported, profiles);
    if o < front.len() {
        finding_of(front, start, supported, profiles, o)
    } else {
        with_outcome_findings(front, start, supported, profiles).len() as int
    }
}

pub(crate) proof fn findings_grow(
    items: Seq<DependencyOutcomeModel>,
    start: Seq<FindingModel>,
    supported: bool,
    profiles: Seq<Seq<char>>,
)
    ensures
        start.is_prefix_of(with_outcome_findings(items, start, supported, profiles)),
    decreases items.len(),
{
    if items.len() > 0 {
        findings_grow(items.drop_last(), start, supported, profiles);
        let all = with_outcome_findings(items, start, supported, profiles);
        assert(start =~= all.subrange(0, start.len() as int));
    } else {
        assert(start =~= start.subrange(0, start.len() as int));
    }
}

proof fn outcomes_are_unique(input: DependencyAnalysisInputModel, a: int, b: int)
    requires
        0 <= a < dependency_analysis(input).outcomes.len(),
        0 <= b < dependency_analysis(input).outcomes.len(),
        is_for(
            dependency_analysis(input).outcomes[a],
            dependency_analysis(input).outcomes[b].workspace,
            dependency_analysis(input).outcomes[b].package,
        ),
    ensures
        a == b,
{
    outcomes_are_ordered_and_complete(input);
    let outcomes = dependency_analysis(input).outcomes;
    <(String, String) as Ordered>::before_irreflexive((outcomes[a].workspace, outcomes[a].package));
    if a < b {
        assert(<(String, String) as Ordered>::before(
            (outcomes[a].workspace, outcomes[a].package),
            (outcomes[b].workspace, outcomes[b].package),
        ));
    }
    if b < a {
        assert(<(String, String) as Ordered>::before(
            (outcomes[b].workspace, outcomes[b].package),
            (outcomes[a].workspace, outcomes[a].package),
        ));
    }
}

/// Whether a finding says that the package is unused in the workspace.
pub open spec fn says_unused(finding: FindingModel, workspace: Seq<char>, package: Seq<char>) -> bool {
    finding.issue_id == "ORP2001"@ && finding.workspace == workspace && finding.dependency == Some(
        package,
    )
}

/// Whether a finding says that the workspace uses the package without listing it.
pub open spec fn says_not_listed(
    finding: FindingModel,
    workspace: Seq<char>,
    package: Seq<char>,
) -> bool {
    finding.issue_id == "ORP2002"@ && finding.workspace == workspace && finding.dependency == Some(
        package,
    )
}

/// A package that a workspace uses, by an import of a reachable file, a script that runs, a
/// plugin or a configuration, is never reported as unused there. Where the workspace does not
/// list it, the report says so, and only there.
pub proof fn used_packages_are_not_reported_as_unused(
    report: ScanReportModel,
    project: WorkspaceDiscoveryModel,
    contexts: Seq<PackageContextModel>,
    configurations: Seq<ProjectConfigurationModel>,
    installed: Seq<InstalledPackageModel>,
    profiles: Seq<Seq<char>>,
    workspace: Seq<char>,
    package: Seq<char>,
)
    requires
        uses_package(report, project, contexts, configurations, workspace, package),
    ensures
        ({
            let after = with_dependency_results(
                report,
                project,
                contexts,
                configurations,
                installed,
                profiles,
            );
            &&& report.findings.is_prefix_of(after.findings)
            &&& forall|f: int|
                report.findings.len() <= f < after.findings.len() ==> !says_unused(
                    #[trigger] after.findings[f],
                    workspace,
                    package,
                )
            &&& !workspace_lists(contexts, workspace, package) <==> exists|f: int|
                report.findings.len() <= f < after.findings.len() && says_not_listed(
                    #[trigger] after.findings[f],
                    workspace,
                    package,
                )
        }),
{
    reveal_strlit("ORP2001");
    reveal_strlit("ORP2002");
    assert("ORP2001"@[6] == '1' && "ORP2002"@[6] == '2');
    let input = dependency_input(project, contexts, configurations, installed, report);
    let e = use_is_evidence(
        report,
        project,
        contexts,
        configurations,
        installed,
        workspace,
        package,
    );
    let o = named_packages_are_accounted_for(input, e, package);
    listing_is_that_of_the_packages(contexts, workspace, package);
    let outcomes = dependency_analysis(input).outcomes;
    let supported = crate::discovery::workspace::removes_packages(project.package_manager);
    let after = with_dependency_results(
        report,
        project,
        contexts,
        configurations,
        installed,
        profiles,
    );
    findings_grow(outcomes, report.findings, supported, profiles);
    assert forall|f: int| report.findings.len() <= f < after.findings.len() implies !says_unused(
        #[trigger] after.findings[f],
        workspace,
        package,
    ) by {
        let other = finding_is_of(outcomes, report.findings, supported, profiles, f);
        if says_unused(after.findings[f], workspace, package) {
            outcomes_are_unique(input, other, o);
        }
    }
    if !workspace_lists(contexts, workspace, package) {
        let f = finding_of(outcomes, report.findings, supported, profiles, o);
        assert(says_not_listed(after.findings[f], workspace, package));
    }
    if exists|f: int|
        report.findings.len() <= f < after.findings.len() && says_not_listed(
            #[trigger] after.findings[f],
            workspace,
            package,
        ) {
        let f = choose|f: int|
            report.findings.len() <= f < after.findings.len() && says_not_listed(
                #[trigger] after.findings[f],
                workspace,
                package,
            );
        let other = finding_is_of(outcomes, report.findings, supported, profiles, f);
        outcomes_are_unique(input, other, o);
    }
}

/// A package that a workspace lists and that brings a binary which a script of the workspace
/// runs is never reported as unused there.
pub proof fn owners_of_used_binaries_are_not_reported(
    report: ScanReportModel,
    project: WorkspaceDiscoveryModel,
    contexts: Seq<PackageContextModel>,
    configurations: Seq<ProjectConfigurationModel>,
    installed: Seq<InstalledPackageModel>,
    profiles: Seq<Seq<char>>,
    workspace: Seq<char>,
    package: Seq<char>,
    f: int,
)
    requires
        script_runs_it(contexts, installed, workspace, package),
        workspace_lists(contexts, workspace, package),
        report.findings.len() <= f < with_dependency_results(
            report,
            project,
            contexts,
            configurations,
            installed,
            profiles,
        ).findings.len(),
    ensures
        ({
            let finding = with_dependency_results(
                report,
                project,
                contexts,
                configurations,
                installed,
                profiles,
            ).findings[f];
            !(finding.workspace == workspace && finding.dependency == Some(package))
        }),
{
    let input = dependency_input(project, contexts, configurations, installed, report);
    let sources = with_source_evidence(report.files, Seq::empty(), project);
    let own = with_context_evidence(contexts, sources);
    let (c, k, i) = choose|c: int, k: int, i: int|
        #![trigger contexts[c].scripts.references[k], installed[i]]
        0 <= c < contexts.len() && 0 <= k < contexts[c].scripts.references.len()
            && contexts[c].workspace_name == workspace && contexts[c].scripts.references[k].kind
            == ScriptReferenceKind::Binary && is_last_to_bring(
            installed,
            i,
            program_name(contexts[c].scripts.references[k].value),
        ) && npm_package(installed[i].dependency) == Some(package);
    let reference = contexts[c].scripts.references[k];
    let x = DependencyEvidenceModel {
        workspace,
        reference: reference.value,
        kind: DependencyEvidenceKind::Binary,
        scope: DependencyEvidenceScope::Development,
        source: "package.json scripts."@ + reference.script,
        reachable: true,
    };
    context_evidence_is_kept(contexts, sources, x, c, 0, k);
    configuration_evidence_is_kept(configurations, own, project, x, 0, 0);
    assert(input.evidence.contains(x));
    let e = choose|e: int| 0 <= e < input.evidence.len() && input.evidence[e] == x;
    binaries_belong_to_what_brings_them(installed, program_name(reference.value));
    assert(runs_binary_of(input.evidence[e], input.binary_owners, workspace, package));
    listing_is_that_of_the_packages(contexts, workspace, package);
    let o = owners_of_binaries_are_retained(input, e, package);
    let outcomes = dependency_analysis(input).outcomes;
    let supported = crate::discovery::workspace::removes_packages(project.package_manager);
    let other = finding_is_of(outcomes, report.findings, supported, profiles, f);
    let finding = with_dependency_results(
        report,
        project,
        contexts,
        configurations,
        installed,
        profiles,
    ).findings[f];
    if finding.workspace == workspace && finding.dependency == Some(package) {
        outcomes_are_unique(input, other, o);
    }
}

/// Of each outcome of the analysis the report has a finding where it calls for one: that a
/// package is unused, where nothing refers to it; that it is not listed, where it is used and
/// not listed, or listed elsewhere. Only what is unused for certain may be removed, and only
/// where the package manager is one that can remove it. Of no other outcome is there a finding.
pub proof fn outcomes_are_reported(
    report: ScanReportModel,
    project: WorkspaceDiscoveryModel,
    contexts: Seq<PackageContextModel>,
    configurations: Seq<ProjectConfigurationModel>,
    installed: Seq<InstalledPackageModel>,
    profiles: Seq<Seq<char>>,
    o: int,
)
    requires
        0 <= o < dependency_analysis(
            dependency_input(project, contexts, configurations, installed, report),
        ).outcomes.len(),
    ensures
        ({
            let outcome = dependency_analysis(
                dependency_input(project, contexts, configurations, installed, report),
            ).outcomes[o];
            let after = with_dependency_results(
                report,
                project,
                contexts,
                configurations,
                installed,
                profiles,
            );
            let unused = outcome.kind == DependencyOutcomeKind::Unused || outcome.kind
                == DependencyOutcomeKind::UnreferencedPeer || outcome.kind
                == DependencyOutcomeKind::UnreferencedOptional;
            let not_listed = outcome.kind == DependencyOutcomeKind::Unlisted || outcome.kind
                == DependencyOutcomeKind::Misplaced;
            let can_remove = project.package_manager == Some(WorkspacePackageManager::Npm)
                || project.package_manager == Some(WorkspacePackageManager::Pnpm)
                || project.package_manager == Some(WorkspacePackageManager::Yarn)
                || project.package_manager == Some(WorkspacePackageManager::Bun);
            &&& unused <==> exists|f: int|
                report.findings.len() <= f < after.findings.len() && says_unused(
                    #[trigger] after.findings[f],
                    outcome.workspace,
                    outcome.package,
                )
            &&& not_listed <==> exists|f: int|
                report.findings.len() <= f < after.findings.len() && says_not_listed(
                    #[trigger] after.findings[f],
                    outcome.workspace,
                    outcome.package,
                )
            &&& forall|f: int|
                report.findings.len() <= f < after.findings.len() && (
                #[trigger] after.findings[f]).workspace == outcome.workspace
                    && after.findings[f].dependency == Some(outcome.package) ==> {
                    &&& unused || not_listed
                    &&& after.findings[f].fix_eligibility == FixEligibility::Eligible <==> unused
                        && outcome.confidence == DependencyConfidence::High && can_remove
                    &&& after.findings[f].confidence == Confidence::High <==> outcome.confidence
                        == DependencyConfidence::High
                    &&& after.findings[f].target_profiles == profiles
                }
        }),
{
    reveal_strlit("ORP2001");
    reveal_strlit("ORP2002");
    assert("ORP2001"@[6] == '1' && "ORP2002"@[6] == '2');
    let input = dependency_input(project, contexts, configurations, installed, report);
    let outcomes = dependency_analysis(input).outcomes;
    let outcome = outcomes[o];
    let supported = crate::discovery::workspace::removes_packages(project.package_manager);
    let after = with_dependency_results(
        report,
        project,
        contexts,
        configurations,
        installed,
        profiles,
    );
    if reported_outcome(outcome, supported, profiles) is Ok {
        let f = finding_of(outcomes, report.findings, supported, profiles, o);
        assert(after.findings[f].workspace == outcome.workspace);
        assert(says_unused(after.findings[f], outcome.workspace, outcome.package)
            || says_not_listed(after.findings[f], outcome.workspace, outcome.package));
    }
    assert forall|f: int|
        report.findings.len() <= f < after.findings.len() && (
        #[trigger] after.findings[f]).workspace == outcome.workspace
            && after.findings[f].dependency == Some(
            outcome.package,
        ) implies reported_outcome(outcome, supported, profiles) == Ok::<
        FindingModel,
        RetentionReportModel,
    >(after.findings[f]) by {
        let other = finding_is_of(outcomes, report.findings, supported, profiles, f);
        outcomes_are_unique(input, other, o);
    }
}

proof fn script_blockers_hold(items: Seq<PackageContextModel>, c: int)
    requires
        0 <= c < items.len(),
        items[c].scripts.unmodeled.len() > 0,
    ensures
        exists|b: int|
            0 <= b < with_script_blockers(items, Seq::empty()).len() && (
            #[trigger] with_script_blockers(items, Seq::empty())[b]).workspace
                == items[c].workspace_name && with_script_blockers(items, Seq::empty())[b].package
                is None,
    decreases items.len(),
{
    let front = items.drop_last();
    let rest = with_script_blockers(front, Seq::empty());
    let all = with_script_blockers(items, Seq::empty());
    if c < front.len() {
        assert(front[c] == items[c]);
        script_blockers_hold(front, c);
        let b = choose|b: int|
            0 <= b < rest.len() && (#[trigger] with_script_blockers(front, Seq::empty())[b]).workspace
                == front[c].workspace_name && with_script_blockers(front, Seq::empty())[b].package
                is None;
        assert(all[b] == rest[b]);
    } else {
        assert(all[all.len() - 1].workspace == items[c].workspace_name);
    }
}

proof fn diagnostic_blockers_hold(
    items: Seq<AnalysisDiagnosticModel>,
    start: Seq<DependencyBlockerModel>,
    project: WorkspaceDiscoveryModel,
    d: int,
)
    ensures
        start.is_prefix_of(with_diagnostic_blockers(items, start, project)),
        0 <= d < items.len() && items[d].blocks_reachability ==> exists|b: int|
            0 <= b < with_diagnostic_blockers(items, start, project).len() && (
            #[trigger] with_diagnostic_blockers(items, start, project)[b]).workspace == owner_name(
                project.packages,
                parsed(items[d].path),
            ) && with_diagnostic_blockers(items, start, project)[b].package is None,
    decreases items.len(),
{
    let all = with_diagnostic_blockers(items, start, project);
    if items.len() > 0 {
        let front = items.drop_last();
        diagnostic_blockers_hold(front, start, project, d);
        let rest = with_diagnostic_blockers(front, start, project);
        assert(start =~= all.subrange(0, start.len() as int)) by {
            assert(start =~= rest.subrange(0, start.len() as int));
        }
        if 0 <= d < front.len() && items[d].blocks_reachability {
            assert(front[d] == items[d]);
            let b = choose|b: int|
                0 <= b < rest.len() && (#[trigger] with_diagnostic_blockers(
                    front,
                    start,
                    project,
                )[b]).workspace == owner_name(project.packages, parsed(front[d].path))
                    && with_diagnostic_blockers(front, start, project)[b].package is None;
            assert(all[b] == rest[b]);
        }
        if d == front.len() && items[d].blocks_reachability {
            assert(all[all.len() - 1].workspace == owner_name(
                project.packages,
                parsed(items[d].path),
            ));
        }
    } else {
        assert(start =~= all.subrange(0, start.len() as int));
    }
}

/// While something of the scripts of a workspace is left to the shell, or a gap in the analysis
/// concerns its files, none of its dependencies is reported as unused.
pub proof fn gaps_keep_dependencies(
    report: ScanReportModel,
    project: WorkspaceDiscoveryModel,
    contexts: Seq<PackageContextModel>,
    configurations: Seq<ProjectConfigurationModel>,
    installed: Seq<InstalledPackageModel>,
    profiles: Seq<Seq<char>>,
    workspace: Seq<char>,
    f: int,
)
    requires
        (exists|c: int|
            0 <= c < contexts.len() && (#[trigger] contexts[c]).workspace_name == workspace
                && contexts[c].scripts.unmodeled.len() > 0) || (exists|d: int|
            0 <= d < report.diagnostics.len() && (
            #[trigger] report.diagnostics[d]).blocks_reachability && owner_name(
                project.packages,
                parsed(report.diagnostics[d].path),
            ) == workspace),
        report.findings.len() <= f < with_dependency_results(
            report,
            project,
            contexts,
            configurations,
            installed,
            profiles,
        ).findings.len(),
    ensures
        ({
            let finding = with_dependency_results(
                report,
                project,
                contexts,
                configurations,
                installed,
                profiles,
            ).findings[f];
            !(finding.workspace == workspace && finding.issue_id == "ORP2001"@)
        }),
{
    reveal_strlit("ORP2001");
    reveal_strlit("ORP2002");
    assert("ORP2001"@[6] == '1' && "ORP2002"@[6] == '2');
    let input = dependency_input(project, contexts, configurations, installed, report);
    let scripted = with_script_blockers(contexts, Seq::empty());
    let outcomes = dependency_analysis(input).outcomes;
    let supported = crate::discovery::workspace::removes_packages(project.package_manager);
    let o = finding_is_of(outcomes, report.findings, supported, profiles, f);
    let finding = with_dependency_results(
        report,
        project,
        contexts,
        configurations,
        installed,
        profiles,
    ).findings[f];
    if finding.workspace == workspace {
        let b = if exists|c: int|
            0 <= c < contexts.len() && (#[trigger] contexts[c]).workspace_name == workspace
                && contexts[c].scripts.unmodeled.len() > 0 {
            let c = choose|c: int|
                0 <= c < contexts.len() && (#[trigger] contexts[c]).workspace_name == workspace
                    && contexts[c].scripts.unmodeled.len() > 0;
            script_blockers_hold(contexts, c);
            diagnostic_blockers_hold(report.diagnostics, scripted, project, 0);
            let b = choose|b: int|
                0 <= b < scripted.len() && (#[trigger] with_script_blockers(
                    contexts,
                    Seq::empty(),
                )[b]).workspace == contexts[c].workspace_name && with_script_blockers(
                    contexts,
                    Seq::empty(),
                )[b].package is None;
            assert(input.blockers.subrange(0, scripted.len() as int)[b] == scripted[b]);
            b
        } else {
            let d = choose|d: int|
                0 <= d < report.diagnostics.len() && (
                #[trigger] report.diagnostics[d]).blocks_reachability && owner_name(
                    project.packages,
                    parsed(report.diagnostics[d].path),
                ) == workspace;
            diagnostic_blockers_hold(report.diagnostics, scripted, project, d);
            choose|b: int|
                0 <= b < input.blockers.len() && (#[trigger] with_diagnostic_blockers(
                    report.diagnostics,
                    scripted,
                    project,
                )[b]).workspace == workspace && with_diagnostic_blockers(
                    report.diagnostics,
                    scripted,
                    project,
                )[b].package is None
        };
        assert(input.blockers[b].workspace == workspace && input.blockers[b].package is None);
        blockers_leave_results_open(input, b, o);
    }
}

} // verus!
