//! What keeps a package of a project, and when one is reported as unused.

use crate::analysis::packages::npm_package;
use crate::application::policy::{
    blocked_package, blocked_package_at, has_live_file, has_live_file_at, imported_elsewhere,
    imported_elsewhere_at, imports_package, imports_package_at, kept_package, package_evidence,
    package_label, script_names, script_names_at, scripts_name, scripts_name_at, unused_package,
    with_package_findings, with_package_retentions, with_workspace_results,
};
use crate::discovery::workspace::{
    owner_place, owner_root, the_innermost_package_owns, PackageContextModel,
    WorkspaceDiscoveryModel, WorkspacePackageModel,
};
use crate::domain::report::{Confidence, FileStatus, FindingModel, ScanReportModel};
use crate::paths::{parsed, path_below, PathPartModel};
use vstd::prelude::*;

verus! {

/// Whether a path lies in the package at `root`, and in no package further in.
pub open spec fn lies_in(
    packages: Seq<WorkspacePackageModel>,
    path: Seq<PathPartModel>,
    root: Seq<PathPartModel>,
) -> bool {
    &&& root.is_prefix_of(path)
    &&& exists|i: int| 0 <= i < packages.len() && (#[trigger] packages[i]).root == root
    &&& forall|i: int|
        0 <= i < packages.len() && (#[trigger] packages[i]).root.is_prefix_of(path)
            ==> packages[i].root.len() <= root.len()
}

/// Whether a path lies in some package that is not the one at `root`.
pub open spec fn lies_in_another(
    packages: Seq<WorkspacePackageModel>,
    path: Seq<PathPartModel>,
    root: Seq<PathPartModel>,
) -> bool {
    !lies_in(packages, path, root) && exists|i: int|
        0 <= i < packages.len() && (#[trigger] packages[i]).root.is_prefix_of(path)
}

/// Whether one of the files of the package at `root` is in use.
pub open spec fn holds_a_live_file(
    report: ScanReportModel,
    project: WorkspaceDiscoveryModel,
    root: Seq<PathPartModel>,
) -> bool {
    exists|i: int|
        0 <= i < report.files.len() && (#[trigger] report.files[i]).status == FileStatus::Reachable
            && lies_in(project.packages, parsed(report.files[i].path), root)
}

/// Whether a file of another package imports something of the package at `root` by its name.
pub open spec fn imported_by_another(
    report: ScanReportModel,
    project: WorkspaceDiscoveryModel,
    root: Seq<PathPartModel>,
    name: Seq<char>,
) -> bool {
    exists|i: int, k: int|
        #![trigger report.files[i].imports[k]]
        0 <= i < report.files.len() && 0 <= k < report.files[i].imports.len() && npm_package(
            report.files[i].imports[k].specifier,
        ) == Some(name) && lies_in_another(project.packages, parsed(report.files[i].path), root)
}

/// Whether a script that runs names the package, by what it is called or by where it is.
pub open spec fn named_by_a_script(
    contexts: Seq<PackageContextModel>,
    called: Seq<char>,
    root: Seq<PathPartModel>,
) -> bool {
    exists|j: int, k: int|
        #![trigger contexts[j].scripts.references[k]]
        0 <= j < contexts.len() && 0 <= k < contexts[j].scripts.references.len() && (
        contexts[j].scripts.references[k].value == called || parsed(
            contexts[j].scripts.references[k].value,
        ) == root)
}

/// Whether a gap in the analysis concerns the package at `root`.
pub open spec fn has_a_gap(
    report: ScanReportModel,
    project: WorkspaceDiscoveryModel,
    root: Seq<PathPartModel>,
) -> bool {
    exists|d: int|
        0 <= d < report.diagnostics.len() && (#[trigger] report.diagnostics[d]).blocks_reachability
            && (report.diagnostics[d].path == "package.json"@ || lies_in(
            project.packages,
            parsed(report.diagnostics[d].path),
            root,
        ))
}

/// What the package is called: its name, or else its place.
pub open spec fn called(context: PackageContextModel) -> Seq<char> {
    if context.package.manifest.name is Some {
        context.package.manifest.name->0
    } else {
        context.workspace_name
    }
}

/// Whether one of the findings from the `from`th on says that the workspace is unused.
pub open spec fn says_unused(findings: Seq<FindingModel>, from: nat, workspace: Seq<char>) -> bool {
    exists|f: int|
        from <= f < findings.len() && (#[trigger] findings[f]).issue_id == "ORP3001"@
            && findings[f].issue_type == "unusedWorkspace"@ && findings[f].workspace == workspace
            && findings[f].paths == seq![workspace + "/package.json"@] && findings[f].confidence
            == Confidence::High
}

/// Whether one of the retentions from the `from`th on says that the workspace is kept.
pub open spec fn says_kept(
    after: ScanReportModel,
    from: nat,
    workspace: Seq<char>,
    item: Seq<char>,
) -> bool {
    exists|k: int|
        from <= k < after.retentions.len() && (#[trigger] after.retentions[k]).item_type
            == "workspace"@ && after.retentions[k].workspace == workspace
            && after.retentions[k].item == item && after.retentions[k].evidence.len() == 1
}

proof fn owner_is_where_it_lies(
    packages: Seq<WorkspacePackageModel>,
    path: Seq<PathPartModel>,
    root: Seq<PathPartModel>,
)
    requires
        packages.len() <= usize::MAX,
    ensures
        owner_root(packages, path) == Some(root) <==> lies_in(packages, path, root),
        owner_root(packages, path) is Some && owner_root(packages, path) != Some(root)
            <==> lies_in_another(packages, path, root),
{
    the_innermost_package_owns(packages, path);
    assert forall|base: Seq<PathPartModel>|
        path_below(path, base) is Some <==> #[trigger] base.is_prefix_of(path) by {
        if base.is_prefix_of(path) {
            assert(path.take(base.len() as int) =~= base);
        }
        if path_below(path, base) is Some {
            assert(base =~= path.subrange(0, base.len() as int));
        }
    }
    match owner_place(packages, path) {
        Some(place) => {
            let own = packages[place as int].root;
            assert(own.is_prefix_of(path));
            if lies_in(packages, path, root) {
                assert(own.len() == root.len());
                assert(own =~= root);
            }
        },
        None => {},
    }
}

pub(crate) proof fn evidence_is_what_keeps(
    context: PackageContextModel,
    contexts: Seq<PackageContextModel>,
    project: WorkspaceDiscoveryModel,
    report: ScanReportModel,
)
    requires
        project.packages.len() <= usize::MAX,
    ensures
        package_evidence(context, contexts, project, report) is None <==> {
            let root = context.package.root;
            &&& context.package.manifest.private
            &&& !holds_a_live_file(report, project, root)
            &&& !(context.package.manifest.name is Some && imported_by_another(
                report,
                project,
                root,
                context.package.manifest.name->0,
            ))
            &&& !named_by_a_script(contexts, called(context), root)
            &&& !has_a_gap(report, project, root)
        },
{
    let root = context.package.root;
    assert(has_live_file(report.files, project, root) == holds_a_live_file(report, project, root))
        by {
        if has_live_file(report.files, project, root) {
            let i = choose|i: int|
                0 <= i < report.files.len() && has_live_file_at(
                    #[trigger] report.files[i],
                    project,
                    root,
                );
            owner_is_where_it_lies(project.packages, parsed(report.files[i].path), root);
            assert(holds_a_live_file(report, project, root));
        }
        if holds_a_live_file(report, project, root) {
            let i = choose|i: int|
                0 <= i < report.files.len() && (#[trigger] report.files[i]).status
                    == FileStatus::Reachable && lies_in(
                    project.packages,
                    parsed(report.files[i].path),
                    root,
                );
            owner_is_where_it_lies(project.packages, parsed(report.files[i].path), root);
            assert(has_live_file_at(report.files[i], project, root));
        }
    }
    if context.package.manifest.name is Some {
        let name = context.package.manifest.name->0;
        if imported_elsewhere(report.files, project, root, name) {
            let i = choose|i: int|
                0 <= i < report.files.len() && imported_elsewhere_at(
                    #[trigger] report.files[i],
                    project,
                    root,
                    name,
                );
            owner_is_where_it_lies(project.packages, parsed(report.files[i].path), root);
            let imports = report.files[i].imports;
            assert(imports_package(imports, name));
            let k = choose|k: int|
                0 <= k < imports.len() && imports_package_at(#[trigger] imports[k], name);
            assert(npm_package(report.files[i].imports[k].specifier) == Some(name));
            assert(imported_by_another(report, project, root, name));
        }
        if imported_by_another(report, project, root, name) {
            let (i, k) = choose|i: int, k: int|
                #![trigger report.files[i].imports[k]]
                0 <= i < report.files.len() && 0 <= k < report.files[i].imports.len()
                    && npm_package(report.files[i].imports[k].specifier) == Some(name)
                    && lies_in_another(project.packages, parsed(report.files[i].path), root);
            owner_is_where_it_lies(project.packages, parsed(report.files[i].path), root);
            assert(imports_package_at(report.files[i].imports[k], name));
            assert(imported_elsewhere_at(report.files[i], project, root, name));
        }
    }
    assert(package_label(context) == called(context));
    let label = called(context);
    if scripts_name(contexts, label, root) {
        let j = choose|j: int|
            0 <= j < contexts.len() && scripts_name_at(#[trigger] contexts[j], label, root);
        let references = contexts[j].scripts.references;
        assert(script_names(references, label, root));
        let k = choose|k: int|
            0 <= k < references.len() && script_names_at(#[trigger] references[k], label, root);
        assert(contexts[j].scripts.references[k] == references[k]);
        assert(named_by_a_script(contexts, label, root));
    }
    if named_by_a_script(contexts, label, root) {
        let (j, k) = choose|j: int, k: int|
            #![trigger contexts[j].scripts.references[k]]
            0 <= j < contexts.len() && 0 <= k < contexts[j].scripts.references.len() && (
            contexts[j].scripts.references[k].value == label || parsed(
                contexts[j].scripts.references[k].value,
            ) == root);
        assert(script_names_at(contexts[j].scripts.references[k], label, root));
        assert(scripts_name_at(contexts[j], label, root));
    }
    if blocked_package(report.diagnostics, project, root) {
        let d = choose|d: int|
            0 <= d < report.diagnostics.len() && blocked_package_at(
                #[trigger] report.diagnostics[d],
                project,
                root,
            );
        owner_is_where_it_lies(project.packages, parsed(report.diagnostics[d].path), root);
        assert(has_a_gap(report, project, root));
    }
    if has_a_gap(report, project, root) {
        let d = choose|d: int|
            0 <= d < report.diagnostics.len() && (
            #[trigger] report.diagnostics[d]).blocks_reachability && (report.diagnostics[d].path
                == "package.json"@ || lies_in(
                project.packages,
                parsed(report.diagnostics[d].path),
                root,
            ));
        owner_is_where_it_lies(project.packages, parsed(report.diagnostics[d].path), root);
        assert(blocked_package_at(report.diagnostics[d], project, root));
    }
}

pub(crate) proof fn results_are_added(
    items: Seq<PackageContextModel>,
    all: Seq<PackageContextModel>,
    project: WorkspaceDiscoveryModel,
    report: ScanReportModel,
    target_profiles: Seq<Seq<char>>,
)
    ensures
        report.findings.is_prefix_of(
            with_package_findings(items, all, project, report, target_profiles),
        ),
        report.retentions.is_prefix_of(
            with_package_retentions(items, all, project, report, target_profiles),
        ),
    decreases items.len(),
{
    if items.len() > 0 {
        results_are_added(items.drop_last(), all, project, report, target_profiles);
        let findings = with_package_findings(items, all, project, report, target_profiles);
        let retentions = with_package_retentions(items, all, project, report, target_profiles);
        assert(report.findings =~= findings.subrange(0, report.findings.len() as int));
        assert(report.retentions =~= retentions.subrange(0, report.retentions.len() as int));
    }
}

/// The package that an added finding is about.
pub(crate) proof fn finding_is_about(
    items: Seq<PackageContextModel>,
    all: Seq<PackageContextModel>,
    project: WorkspaceDiscoveryModel,
    report: ScanReportModel,
    target_profiles: Seq<Seq<char>>,
    f: int,
) -> (c: int)
    requires
        report.findings.len() <= f < with_package_findings(
            items,
            all,
            project,
            report,
            target_profiles,
        ).len(),
    ensures
        0 <= c < items.len(),
        items[c].package.root.len() > 0,
        package_evidence(items[c], all, project, report) is None,
        with_package_findings(items, all, project, report, target_profiles)[f] == unused_package(
            items[c],
            target_profiles,
        ),
    decreases items.len(),
{
    let front = items.drop_last();
    if f < with_package_findings(front, all, project, report, target_profiles).len() {
        finding_is_about(front, all, project, report, target_profiles, f)
    } else {
        items.len() - 1
    }
}

/// The package that an added retention is about.
proof fn retention_is_about(
    items: Seq<PackageContextModel>,
    all: Seq<PackageContextModel>,
    project: WorkspaceDiscoveryModel,
    report: ScanReportModel,
    target_profiles: Seq<Seq<char>>,
    k: int,
) -> (c: int)
    requires
        report.retentions.len() <= k < with_package_retentions(
            items,
            all,
            project,
            report,
            target_profiles,
        ).len(),
    ensures
        0 <= c < items.len(),
        items[c].package.root.len() > 0,
        package_evidence(items[c], all, project, report) is Some,
        with_package_retentions(items, all, project, report, target_profiles)[k] == kept_package(
            items[c],
            target_profiles,
            package_evidence(items[c], all, project, report)->0,
        ),
    decreases items.len(),
{
    let front = items.drop_last();
    if k < with_package_retentions(front, all, project, report, target_profiles).len() {
        retention_is_about(front, all, project, report, target_profiles, k)
    } else {
        items.len() - 1
    }
}

/// The finding about a package that nothing keeps.
proof fn finding_about(
    items: Seq<PackageContextModel>,
    all: Seq<PackageContextModel>,
    project: WorkspaceDiscoveryModel,
    report: ScanReportModel,
    target_profiles: Seq<Seq<char>>,
    c: int,
) -> (f: int)
    requires
        0 <= c < items.len(),
        items[c].package.root.len() > 0,
        package_evidence(items[c], all, project, report) is None,
    ensures
        report.findings.len() <= f < with_package_findings(
            items,
            all,
            project,
            report,
            target_profiles,
        ).len(),
        with_package_findings(items, all, project, report, target_profiles)[f] == unused_package(
            items[c],
            target_profiles,
        ),
    decreases items.len(),
{
    let front = items.drop_last();
    results_are_added(front, all, project, report, target_profiles);
    if c < front.len() {
        finding_about(front, all, project, report, target_profiles, c)
    } else {
        with_package_findings(front, all, project, report, target_profiles).len() as int
    }
}

/// The retention of a package that something keeps.
proof fn retention_about(
    items: Seq<PackageContextModel>,
    all: Seq<PackageContextModel>,
    project: WorkspaceDiscoveryModel,
    report: ScanReportModel,
    target_profiles: Seq<Seq<char>>,
    c: int,
) -> (k: int)
    requires
        0 <= c < items.len(),
        items[c].package.root.len() > 0,
        package_evidence(items[c], all, project, report) is Some,
    ensures
        report.retentions.len() <= k < with_package_retentions(
            items,
            all,
            project,
            report,
            target_profiles,
        ).len(),
        with_package_retentions(items, all, project, report, target_profiles)[k] == kept_package(
            items[c],
            target_profiles,
            package_evidence(items[c], all, project, report)->0,
        ),
    decreases items.len(),
{
    let front = items.drop_last();
    results_are_added(front, all, project, report, target_profiles);
    if c < front.len() {
        retention_about(front, all, project, report, target_profiles, c)
    } else {
        with_package_retentions(front, all, project, report, target_profiles).len() as int
    }
}

/// A package, other than the one at the root of the project, is reported as unused exactly
/// where it is private, none of its files is in use, no file of another package imports it by
/// its name, no script that runs names it, and no gap in the analysis concerns it. Every other
/// such package is said to be kept, and none is both. What was in the report before stays.
pub proof fn workspaces_without_use_are_reported(
    report: ScanReportModel,
    contexts: Seq<PackageContextModel>,
    project: WorkspaceDiscoveryModel,
    target_profiles: Seq<Seq<char>>,
    c: int,
)
    requires
        project.packages.len() <= usize::MAX,
        0 <= c < contexts.len(),
        contexts[c].package.root.len() > 0,
        forall|i: int, j: int|
            0 <= i < j < contexts.len() ==> (#[trigger] contexts[i]).workspace_name != (
            #[trigger] contexts[j]).workspace_name,
    ensures
        ({
            let after = with_workspace_results(report, contexts, project, target_profiles);
            let context = contexts[c];
            let root = context.package.root;
            let unused = says_unused(after.findings, report.findings.len(), context.workspace_name);
            let kept = says_kept(
                after,
                report.retentions.len(),
                context.workspace_name,
                called(context),
            );
            &&& report.findings.is_prefix_of(after.findings)
            &&& report.retentions.is_prefix_of(after.retentions)
            &&& unused <==> {
                &&& context.package.manifest.private
                &&& !holds_a_live_file(report, project, root)
                &&& !(context.package.manifest.name is Some && imported_by_another(
                    report,
                    project,
                    root,
                    context.package.manifest.name->0,
                ))
                &&& !named_by_a_script(contexts, called(context), root)
                &&& !has_a_gap(report, project, root)
            }
            &&& kept <==> !unused
        }),
{
    results_are_added(contexts, contexts, project, report, target_profiles);
    let context = contexts[c];
    evidence_is_what_keeps(context, contexts, project, report);
    let after = with_workspace_results(report, contexts, project, target_profiles);
    let n = report.findings.len();
    let m = report.retentions.len();
    let name = context.workspace_name;
    assert(package_label(context) == called(context));
    if package_evidence(context, contexts, project, report) is None {
        let f = finding_about(contexts, contexts, project, report, target_profiles, c);
        assert(after.findings[f] == unused_package(context, target_profiles));
        assert(says_unused(after.findings, n, name));
    } else {
        let k = retention_about(contexts, contexts, project, report, target_profiles, c);
        assert(after.retentions[k].workspace == name);
        assert(says_kept(after, m, name, called(context)));
    }
    if says_unused(after.findings, n, name) {
        let f = choose|f: int|
            n <= f < after.findings.len() && (#[trigger] after.findings[f]).issue_id == "ORP3001"@
                && after.findings[f].issue_type == "unusedWorkspace"@ && after.findings[f].workspace
                == name && after.findings[f].paths == seq![name + "/package.json"@]
                && after.findings[f].confidence == Confidence::High;
        let other = finding_is_about(contexts, contexts, project, report, target_profiles, f);
        assert(contexts[other].workspace_name == contexts[c].workspace_name);
        assert(other == c);
    }
    if says_kept(after, m, name, called(context)) {
        let k = choose|k: int|
            m <= k < after.retentions.len() && (#[trigger] after.retentions[k]).item_type
                == "workspace"@ && after.retentions[k].workspace == name
                && after.retentions[k].item == called(context)
                && after.retentions[k].evidence.len() == 1;
        let other = retention_is_about(contexts, contexts, project, report, target_profiles, k);
        assert(contexts[other].workspace_name == contexts[c].workspace_name);
        assert(other == c);
    }
}

/// Whether a package further in than the root of the project has the given place.
pub open spec fn is_inner(contexts: Seq<PackageContextModel>, workspace: Seq<char>) -> bool {
    exists|c: int|
        0 <= c < contexts.len() && (#[trigger] contexts[c]).package.root.len() > 0
            && contexts[c].workspace_name == workspace
}

/// The package at the root of the project is neither reported as unused nor said to be kept:
/// what is added to a report speaks of packages further in alone, and of all profiles.
pub proof fn the_root_package_is_not_judged(
    report: ScanReportModel,
    contexts: Seq<PackageContextModel>,
    project: WorkspaceDiscoveryModel,
    target_profiles: Seq<Seq<char>>,
)
    ensures
        ({
            let after = with_workspace_results(report, contexts, project, target_profiles);
            &&& forall|f: int|
                report.findings.len() <= f < after.findings.len() ==> (
                #[trigger] after.findings[f]).issue_id == "ORP3001"@ && is_inner(
                    contexts,
                    after.findings[f].workspace,
                ) && after.findings[f].target_profiles == target_profiles
            &&& forall|k: int|
                report.retentions.len() <= k < after.retentions.len() ==> (
                #[trigger] after.retentions[k]).item_type == "workspace"@ && is_inner(
                    contexts,
                    after.retentions[k].workspace,
                ) && after.retentions[k].target_profiles == target_profiles
            &&& after.files == report.files && after.diagnostics == report.diagnostics
        }),
{
    let after = with_workspace_results(report, contexts, project, target_profiles);
    assert forall|f: int| report.findings.len() <= f < after.findings.len() implies (
    #[trigger] after.findings[f]).issue_id == "ORP3001"@ && is_inner(
        contexts,
        after.findings[f].workspace,
    ) && after.findings[f].target_profiles == target_profiles by {
        let c = finding_is_about(contexts, contexts, project, report, target_profiles, f);
        assert(contexts[c].package.root.len() > 0);
    }
    assert forall|k: int| report.retentions.len() <= k < after.retentions.len() implies (
    #[trigger] after.retentions[k]).item_type == "workspace"@ && is_inner(
        contexts,
        after.retentions[k].workspace,
    ) && after.retentions[k].target_profiles == target_profiles by {
        let c = retention_is_about(contexts, contexts, project, report, target_profiles, k);
        assert(contexts[c].package.root.len() > 0);
    }
}

} // verus!
