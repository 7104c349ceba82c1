//! What becomes of conclusions on their way into the report of a project.

use crate::application::dependency_results::with_dependency_results;
use crate::application::findings::ByFindingPlace;
use crate::application::policy::{
    placed_finding, with_confidence, with_context, with_fix_eligibility, with_retain_rules,
    with_workspace_results, without_blocked,
};
use crate::application::policy_laws::{
    findings_are_as_certain_as_asked, gaps_take_back_what_they_concern, has_a_gap,
    is_certain_enough, is_context, is_kept_by_rule, rule_keeps, rules_keep_what_they_cover,
};
use crate::application::project::{
    is_wanted, names_test_path, other_findings, project_report, under_policy, wanted_findings,
    with_pending, with_wanted_results, ProjectKnowledgeModel,
};
use crate::application::requests::{AnalysisIssue, ProjectScanRequestModel};
use crate::application::scan_laws::sorted_items_stay;
use crate::application::workspace_laws::{
    called, holds_a_live_file, imported_by_another, named_by_a_script,
    the_root_package_is_not_judged, workspaces_without_use_are_reported,
};
use crate::collections::lookup;
use crate::discovery::workspace::{
    owner_name, ConfidenceLevel, PackageContextModel, WorkspaceDiscoveryModel,
};
use crate::domain::facts::AnalysisDiagnosticModel;
use crate::domain::report::{Finding, FindingModel, ScanReportModel};
use crate::paths::parsed;
use vstd::prelude::*;

verus! {

/// Whether findings of the type were asked for.
pub open spec fn is_asked_for(issue_type: Seq<char>, issues: Seq<AnalysisIssue>) -> bool {
    &&& issue_type == "unusedFiles"@ ==> issues.contains(AnalysisIssue::Files)
    &&& issue_type == "unusedExport"@ ==> issues.contains(AnalysisIssue::Exports)
    &&& issue_type == "unusedDeclaration"@ ==> issues.contains(AnalysisIssue::Declarations)
    &&& issue_type == "unusedMember"@ ==> issues.contains(AnalysisIssue::Members)
    &&& issue_type == "unusedDependency"@ || issue_type == "unlistedDependency"@ || issue_type
        == "misplacedDependency"@ ==> issues.contains(AnalysisIssue::Dependencies)
    &&& issue_type == "unusedWorkspace"@ ==> issues.contains(AnalysisIssue::Workspaces)
}

/// Whether a finding is where it belongs: it names the package that holds its first path, and
/// the profiles that it holds for.
pub open spec fn is_placed(
    finding: FindingModel,
    project: WorkspaceDiscoveryModel,
    profiles: Seq<Seq<char>>,
) -> bool {
    &&& finding.paths.len() > 0
    &&& owner_name(project.packages, parsed(finding.paths[0])) == finding.workspace
    &&& finding.target_profiles.len() > 0
    &&& finding.target_profiles == seq!["default"@] ==> profiles == seq!["default"@]
}

/// Whether nothing in the configuration of its package speaks against a finding: it is as
/// certain as asked for, no rule keeps it, and no plugin speaks of its profiles.
pub open spec fn is_let_through(
    finding: FindingModel,
    contexts: Seq<PackageContextModel>,
    c: int,
) -> bool {
    &&& is_context(contexts, c, finding.workspace)
    &&& !is_kept_by_rule(contexts[c], finding)
    &&& is_certain_enough(
        finding.confidence,
        match contexts[c].effective.confidence {
            Some(asked) => match asked.report {
                Some(level) => level,
                None => ConfidenceLevel::Medium,
            },
            None => ConfidenceLevel::Medium,
        },
    )
    &&& forall|k: int|
        0 <= k < finding.target_profiles.len() ==> lookup(
            contexts[c].plugins_by_profile,
            #[trigger] finding.target_profiles[k],
        ) is None
}

/// Whether a finding stands among others, but for what it says of fixes.
pub open spec fn stands_among(finding: FindingModel, findings: Seq<FindingModel>) -> bool {
    exists|f: int|
        0 <= f < findings.len() && (#[trigger] findings[f]) == (FindingModel {
            fix_eligibility: findings[f].fix_eligibility,
            ..finding
        })
}

proof fn wanted_findings_hold(
    items: Seq<FindingModel>,
    issues: Seq<AnalysisIssue>,
    report_tests: bool,
    x: FindingModel,
)
    ensures
        wanted_findings(items, Seq::empty(), issues, report_tests).contains(x) <==> items.contains(
            x,
        ) && is_wanted(x.issue_type, issues) && (report_tests || !names_test_path(x.paths)),
    decreases items.len(),
{
    if items.len() > 0 {
        let front = items.drop_last();
        wanted_findings_hold(front, issues, report_tests, x);
        let rest = wanted_findings(front, Seq::empty(), issues, report_tests);
        let all = wanted_findings(items, Seq::empty(), issues, report_tests);
        if rest.contains(x) {
            let j = choose|j: int| 0 <= j < rest.len() && rest[j] == x;
            assert(all[j] == x);
        }
        if front.contains(x) {
            let j = choose|j: int| 0 <= j < front.len() && front[j] == x;
            assert(items[j] == x);
        }
        if items.last() == x {
            assert(items[items.len() - 1] == x);
            if is_wanted(x.issue_type, issues) && (report_tests || !names_test_path(x.paths)) {
                assert(all[all.len() - 1] == x);
            }
        }
        if items.contains(x) && items.last() != x {
            let j = choose|j: int| 0 <= j < items.len() && items[j] == x;
            assert(front[j] == x);
        }
        if all.contains(x) && !rest.contains(x) {
            let j = choose|j: int| 0 <= j < all.len() && all[j] == x;
            if j < rest.len() {
                assert(rest[j] == x);
            }
        }
    }
}

proof fn asked_for_is_wanted(issue_type: Seq<char>, issues: Seq<AnalysisIssue>)
    ensures
        is_asked_for(issue_type, issues) <==> is_wanted(issue_type, issues),
{
    reveal_strlit("unusedFiles");
    reveal_strlit("unusedExport");
    reveal_strlit("unusedDeclaration");
    reveal_strlit("unusedMember");
    reveal_strlit("unusedDependency");
    reveal_strlit("unlistedDependency");
    reveal_strlit("misplacedDependency");
    reveal_strlit("unusedWorkspace");
    assert("unusedFiles"@.len() == 11 && "unusedExport"@.len() == 12 && "unusedDeclaration"@.len()
        == 17 && "unusedMember"@.len() == 12 && "unusedDependency"@.len() == 16
        && "unlistedDependency"@.len() == 18 && "misplacedDependency"@.len() == 19
        && "unusedWorkspace"@.len() == 15);
    assert("unusedExport"@[6] == 'E' && "unusedMember"@[6] == 'M');
}

proof fn rules_look_at_paths_and_type(
    context: PackageContextModel,
    a: FindingModel,
    b: FindingModel,
)
    requires
        a.paths == b.paths,
        a.issue_type == b.issue_type,
    ensures
        is_kept_by_rule(context, a) ==> is_kept_by_rule(context, b),
        is_kept_by_rule(context, b) ==> is_kept_by_rule(context, a),
{
    if is_kept_by_rule(context, a) {
        let rules = context.effective.retain->0;
        let r = choose|r: int| 0 <= r < rules.len() && rule_keeps(#[trigger] rules[r], context, a);
        assert(rule_keeps(rules[r], context, b));
    }
    if is_kept_by_rule(context, b) {
        let rules = context.effective.retain->0;
        let r = choose|r: int| 0 <= r < rules.len() && rule_keeps(#[trigger] rules[r], context, b);
        assert(rule_keeps(rules[r], context, a));
    }
}

/// What is concluded passes the policy of the project.
proof fn let_through_stays(
    report: ScanReportModel,
    known: ProjectKnowledgeModel,
    request: ProjectScanRequestModel,
    profiles: Seq<Seq<char>>,
    x: FindingModel,
    c: int,
)
    requires
        known.contexts.len() <= usize::MAX,
        report.findings.contains(x),
        report.files.len() > 0,
        is_placed(x, known.workspace, profiles),
        is_let_through(x, known.contexts, c),
        !has_a_gap(report, known.workspace, x.workspace),
    ensures
        ({
            let decided = under_policy(report, known, profiles);
            exists|y: FindingModel| #[trigger]
                decided.findings.contains(y) && y == (FindingModel {
                    fix_eligibility: y.fix_eligibility,
                    ..x
                })
        }),
{
    let placed = with_context(report, known.workspace, profiles);
    let i = choose|i: int| 0 <= i < report.findings.len() && report.findings[i] == x;
    assert(placed.findings[i] == placed_finding(x, known.workspace, profiles));
    if x.target_profiles.len() == 1 && x.target_profiles[0] == "default"@ {
        assert(x.target_profiles =~= seq!["default"@]);
    }
    assert(placed_finding(x, known.workspace, profiles) == x);
    let fixable = with_fix_eligibility(placed, known.contexts, profiles);
    let y = fixable.findings[i];
    assert(y == (FindingModel { fix_eligibility: y.fix_eligibility, ..x }));
    assert(fixable.findings.contains(y));
    gaps_take_back_what_they_concern(fixable, known.workspace, y, 0);
    assert(has_a_gap(fixable, known.workspace, y.workspace) == has_a_gap(
        report,
        known.workspace,
        x.workspace,
    )) by {
        assert(fixable.diagnostics == report.diagnostics);
        if has_a_gap(fixable, known.workspace, y.workspace) {
            let d = choose|d: int|
                0 <= d < fixable.diagnostics.len() && (
                #[trigger] fixable.diagnostics[d]).blocks_reachability && (owner_name(
                    known.workspace.packages,
                    parsed(fixable.diagnostics[d].path),
                ) == "."@ || owner_name(
                    known.workspace.packages,
                    parsed(fixable.diagnostics[d].path),
                ) == y.workspace);
            assert(report.diagnostics[d].blocks_reachability);
        }
    }
    let certain = without_blocked(fixable, known.workspace);
    assert(certain.findings.contains(y));
    rules_look_at_paths_and_type(known.contexts[c], x, y);
    rules_keep_what_they_cover(certain, known.contexts, y, y, c);
    let ruled = with_retain_rules(certain, known.contexts);
    assert(ruled.findings.contains(y));
    findings_are_as_certain_as_asked(ruled, known.contexts, y, c);
    assert(with_confidence(ruled, known.contexts).findings.contains(y));
}

proof fn other_findings_hold(items: Seq<FindingModel>, x: FindingModel)
    ensures
        other_findings(items, Seq::empty()).contains(x) <==> items.contains(x) && x.issue_type
            != "unusedFiles"@,
    decreases items.len(),
{
    if items.len() > 0 {
        let front = items.drop_last();
        other_findings_hold(front, x);
        let rest = other_findings(front, Seq::empty());
        let all = other_findings(items, Seq::empty());
        if rest.contains(x) {
            let j = choose|j: int| 0 <= j < rest.len() && rest[j] == x;
            assert(all[j] == x);
        }
        if front.contains(x) {
            let j = choose|j: int| 0 <= j < front.len() && front[j] == x;
            assert(items[j] == x);
        }
        if items.last() == x {
            assert(items[items.len() - 1] == x);
            if x.issue_type != "unusedFiles"@ {
                assert(all[all.len() - 1] == x);
            }
        }
        if items.contains(x) && items.last() != x {
            let j = choose|j: int| 0 <= j < items.len() && items[j] == x;
            assert(front[j] == x);
        }
        if all.contains(x) && !rest.contains(x) {
            let j = choose|j: int| 0 <= j < all.len() && all[j] == x;
            if j < rest.len() {
                assert(rest[j] == x);
            }
        }
    }
}

proof fn prefixes_hold(a: Seq<FindingModel>, b: Seq<FindingModel>, x: FindingModel)
    requires
        a.is_prefix_of(b),
        a.contains(x),
    ensures
        b.contains(x),
{
    let i = choose|i: int| 0 <= i < a.len() && a[i] == x;
    assert(b.subrange(0, a.len() as int)[i] == x);
    assert(b[i] == x);
}

proof fn given_findings_stay(
    report: ScanReportModel,
    known: ProjectKnowledgeModel,
    issues: Seq<AnalysisIssue>,
    profiles: Seq<Seq<char>>,
    x: FindingModel,
)
    requires
        report.findings.contains(x),
        is_asked_for(x.issue_type, issues),
    ensures
        with_wanted_results(report, known, issues, profiles).findings.contains(x),
{
    other_findings_hold(report.findings, x);
    let files = if issues.contains(AnalysisIssue::Files) {
        report
    } else {
        ScanReportModel { findings: other_findings(report.findings, Seq::empty()), ..report }
    };
    assert(files.findings.contains(x));
    let outcomes = crate::analysis::dependencies::dependency_analysis(
        crate::application::dependency_results::dependency_input(
            known.workspace,
            known.contexts,
            known.project_configurations,
            known.installed,
            files,
        ),
    ).outcomes;
    crate::application::dependency_report_laws::findings_grow(
        outcomes,
        files.findings,
        crate::discovery::workspace::removes_packages(known.workspace.package_manager),
        profiles,
    );
    let dependencies = if issues.contains(AnalysisIssue::Dependencies) {
        with_dependency_results(
            files,
            known.workspace,
            known.contexts,
            known.project_configurations,
            known.installed,
            profiles,
        )
    } else {
        files
    };
    if issues.contains(AnalysisIssue::Dependencies) {
        prefixes_hold(files.findings, dependencies.findings, x);
    }
    crate::application::workspace_laws::results_are_added(
        known.contexts,
        known.contexts,
        known.workspace,
        dependencies,
        profiles,
    );
    if issues.contains(AnalysisIssue::Workspaces) {
        prefixes_hold(
            dependencies.findings,
            with_workspace_results(
                dependencies,
                known.contexts,
                known.workspace,
                profiles,
            ).findings,
            x,
        );
    }
}

/// The report as it is when conclusions about packages are drawn.
spec fn noted(
    report: ScanReportModel,
    known: ProjectKnowledgeModel,
    request: ProjectScanRequestModel,
    profiles: Seq<Seq<char>>,
    pending: Seq<AnalysisDiagnosticModel>,
) -> ScanReportModel {
    with_pending(
        with_context(report, known.workspace, profiles),
        pending,
        known.stale,
        request.limits.max_diagnostics,
    )
}

proof fn reports_show_what_is_let_through(
    report: ScanReportModel,
    known: ProjectKnowledgeModel,
    request: ProjectScanRequestModel,
    profiles: Seq<Seq<char>>,
    pending: Seq<AnalysisDiagnosticModel>,
    x: FindingModel,
    c: int,
)
    requires
        known.contexts.len() <= usize::MAX,
        report.files.len() > 0,
        with_wanted_results(
            noted(report, known, request, profiles, pending),
            known,
            request.issues,
            profiles,
        ).findings.contains(x),
        is_asked_for(x.issue_type, request.issues),
        request.report_tests || !names_test_path(x.paths),
        is_placed(x, known.workspace, profiles),
        is_let_through(x, known.contexts, c),
        !has_a_gap(
            project_report(report, known, request, profiles, pending),
            known.workspace,
            x.workspace,
        ),
    ensures
        stands_among(x, project_report(report, known, request, profiles, pending).findings),
{
    let result = project_report(report, known, request, profiles, pending);
    let concluded = with_wanted_results(
        noted(report, known, request, profiles, pending),
        known,
        request.issues,
        profiles,
    );
    let decided = under_policy(concluded, known, profiles);
    assert(concluded.diagnostics == result.diagnostics);
    if has_a_gap(concluded, known.workspace, x.workspace) {
        let d = choose|d: int|
            0 <= d < concluded.diagnostics.len() && (
            #[trigger] concluded.diagnostics[d]).blocks_reachability && (owner_name(
                known.workspace.packages,
                parsed(concluded.diagnostics[d].path),
            ) == "."@ || owner_name(
                known.workspace.packages,
                parsed(concluded.diagnostics[d].path),
            ) == x.workspace);
        assert(result.diagnostics[d].blocks_reachability);
    }
    let_through_stays(concluded, known, request, profiles, x, c);
    let y = choose|y: FindingModel| #[trigger]
        decided.findings.contains(y) && y == (FindingModel {
            fix_eligibility: y.fix_eligibility,
            ..x
        });
    asked_for_is_wanted(y.issue_type, request.issues);
    wanted_findings_hold(decided.findings, request.issues, request.report_tests, y);
    let wanted = wanted_findings(
        decided.findings,
        Seq::empty(),
        request.issues,
        request.report_tests,
    );
    sorted_items_stay::<Finding, ByFindingPlace>(wanted, y);
    let f = choose|f: int| 0 <= f < result.findings.len() && result.findings[f] == y;
    assert(result.findings[f] == (FindingModel {
        fix_eligibility: result.findings[f].fix_eligibility,
        ..x
    }));
}

/// What the scans of a project found is in its report, where it was asked for and nothing speaks
/// against it: no gap, no rule, no plugin, no higher demand for certainty, and no test file
/// where tests are left out.
pub proof fn reports_show_what_was_found(
    report: ScanReportModel,
    known: ProjectKnowledgeModel,
    request: ProjectScanRequestModel,
    profiles: Seq<Seq<char>>,
    pending: Seq<AnalysisDiagnosticModel>,
    x: FindingModel,
    c: int,
)
    requires
        known.contexts.len() <= usize::MAX,
        report.files.len() > 0,
        report.findings.contains(x),
        is_asked_for(x.issue_type, request.issues),
        request.report_tests || !names_test_path(x.paths),
        is_placed(x, known.workspace, profiles),
        is_let_through(x, known.contexts, c),
        !has_a_gap(
            project_report(report, known, request, profiles, pending),
            known.workspace,
            x.workspace,
        ),
    ensures
        stands_among(x, project_report(report, known, request, profiles, pending).findings),
{
    let placed = with_context(report, known.workspace, profiles);
    let i = choose|i: int| 0 <= i < report.findings.len() && report.findings[i] == x;
    assert(placed.findings[i] == placed_finding(x, known.workspace, profiles));
    if x.target_profiles.len() == 1 && x.target_profiles[0] == "default"@ {
        assert(x.target_profiles =~= seq!["default"@]);
    }
    assert(placed.findings[i] == x);
    assert(placed.findings.contains(x));
    given_findings_stay(
        noted(report, known, request, profiles, pending),
        known,
        request.issues,
        profiles,
        x,
    );
    reports_show_what_is_let_through(report, known, request, profiles, pending, x, c);
}

/// Whether two findings are about the same, wherever they are placed and whatever the profiles.
pub open spec fn is_about_the_same(a: FindingModel, b: FindingModel) -> bool {
    &&& a.issue_id == b.issue_id && a.issue_type == b.issue_type && a.paths == b.paths
    &&& a.span == b.span && a.symbol == b.symbol && a.dependency == b.dependency
    &&& a.confidence == b.confidence
}

proof fn shown_findings_were_concluded(
    concluded: ScanReportModel,
    known: ProjectKnowledgeModel,
    request: ProjectScanRequestModel,
    profiles: Seq<Seq<char>>,
    y: FindingModel,
) -> (j: int)
    requires
        known.contexts.len() <= usize::MAX,
        under_policy(concluded, known, profiles).findings.contains(y),
    ensures
        0 <= j < concluded.findings.len(),
        is_about_the_same(y, concluded.findings[j]),
{
    let placed = with_context(concluded, known.workspace, profiles);
    let fixable = with_fix_eligibility(placed, known.contexts, profiles);
    let certain = without_blocked(fixable, known.workspace);
    let ruled = with_retain_rules(certain, known.contexts);
    crate::application::policy_laws::kept_findings_were_given(
        certain,
        ruled,
        known.contexts,
        y,
    );
    let q = choose|q: int|
        0 <= q < certain.findings.len() && is_about_the_same(y, #[trigger] certain.findings[q]);
    let z = certain.findings[q];
    assert(certain.findings.contains(z));
    crate::application::policy_laws::certain_findings_were_given(fixable, known.workspace, z);
    let j = choose|j: int| 0 <= j < fixable.findings.len() && fixable.findings[j] == z;
    assert(placed.findings[j] == placed_finding(
        concluded.findings[j],
        known.workspace,
        profiles,
    ));
    assert(is_about_the_same(z, concluded.findings[j]));
    j
}

/// The report of a project shows nothing but what was found: what the scans found, or what was
/// concluded of the dependencies or of the packages.
pub proof fn reports_show_only_what_was_concluded(
    report: ScanReportModel,
    known: ProjectKnowledgeModel,
    request: ProjectScanRequestModel,
    profiles: Seq<Seq<char>>,
    pending: Seq<AnalysisDiagnosticModel>,
    f: int,
)
    requires
        known.contexts.len() <= usize::MAX,
        known.workspace.packages.len() <= usize::MAX,
        0 <= f < project_report(report, known, request, profiles, pending).findings.len(),
    ensures
        ({
            let y = project_report(report, known, request, profiles, pending).findings[f];
            ||| exists|j: int|
                0 <= j < report.findings.len() && is_about_the_same(y, #[trigger] report.findings[j])
            ||| y.issue_id == "ORP2001"@ || y.issue_id == "ORP2002"@
            ||| y.issue_id == "ORP3001"@ && exists|c: int|
                0 <= c < known.contexts.len() && (#[trigger] known.contexts[c]).package.root.len()
                    > 0 && y.paths == seq![known.contexts[c].workspace_name + "/package.json"@]
                    && !holds_a_live_file(report, known.workspace, known.contexts[c].package.root)
                    && known.contexts[c].package.manifest.private && !named_by_a_script(
                    known.contexts,
                    called(known.contexts[c]),
                    known.contexts[c].package.root,
                )
        }),
{
    let result = project_report(report, known, request, profiles, pending);
    let y = result.findings[f];
    let start = noted(report, known, request, profiles, pending);
    let concluded = with_wanted_results(start, known, request.issues, profiles);
    let decided = under_policy(concluded, known, profiles);
    let wanted = wanted_findings(
        decided.findings,
        Seq::empty(),
        request.issues,
        request.report_tests,
    );
    assert(result.findings.contains(y));
    sorted_items_stay::<Finding, ByFindingPlace>(wanted, y);
    wanted_findings_hold(decided.findings, request.issues, request.report_tests, y);
    let j = shown_findings_were_concluded(concluded, known, request, profiles, y);
    let x = concluded.findings[j];
    let files = if request.issues.contains(AnalysisIssue::Files) {
        start
    } else {
        ScanReportModel { findings: other_findings(start.findings, Seq::empty()), ..start }
    };
    let dependencies = if request.issues.contains(AnalysisIssue::Dependencies) {
        with_dependency_results(
            files,
            known.workspace,
            known.contexts,
            known.project_configurations,
            known.installed,
            profiles,
        )
    } else {
        files
    };
    crate::application::workspace_laws::results_are_added(
        known.contexts,
        known.contexts,
        known.workspace,
        dependencies,
        profiles,
    );
    if j >= dependencies.findings.len() {
        let c = crate::application::workspace_laws::finding_is_about(
            known.contexts,
            known.contexts,
            known.workspace,
            dependencies,
            profiles,
            j,
        );
        crate::application::workspace_laws::evidence_is_what_keeps(
            known.contexts[c],
            known.contexts,
            known.workspace,
            dependencies,
        );
        assert(dependencies.files == report.files);
        assert(holds_a_live_file(dependencies, known.workspace, known.contexts[c].package.root)
            == holds_a_live_file(report, known.workspace, known.contexts[c].package.root)) by {
            let root = known.contexts[c].package.root;
            if holds_a_live_file(report, known.workspace, root) {
                let i = choose|i: int|
                    0 <= i < report.files.len() && (#[trigger] report.files[i]).status
                        == crate::domain::report::FileStatus::Reachable
                        && crate::application::workspace_laws::lies_in(
                        known.workspace.packages,
                        parsed(report.files[i].path),
                        root,
                    );
                assert(dependencies.files[i].status
                    == crate::domain::report::FileStatus::Reachable);
            }
            if holds_a_live_file(dependencies, known.workspace, root) {
                let i = choose|i: int|
                    0 <= i < dependencies.files.len() && (#[trigger] dependencies.files[i]).status
                        == crate::domain::report::FileStatus::Reachable
                        && crate::application::workspace_laws::lies_in(
                        known.workspace.packages,
                        parsed(dependencies.files[i].path),
                        root,
                    );
                assert(report.files[i].status == crate::domain::report::FileStatus::Reachable);
            }
        }
        assert(known.contexts[c].package.root.len() > 0);
    } else {
        assert(dependencies.findings[j] == x);
        let outcomes = crate::analysis::dependencies::dependency_analysis(
            crate::application::dependency_results::dependency_input(
                known.workspace,
                known.contexts,
                known.project_configurations,
                known.installed,
                files,
            ),
        ).outcomes;
        let supported = crate::discovery::workspace::removes_packages(
            known.workspace.package_manager,
        );
        crate::application::dependency_report_laws::findings_grow(
            outcomes,
            files.findings,
            supported,
            profiles,
        );
        if j >= files.findings.len() {
            let o = crate::application::dependency_report_laws::finding_is_of(
                outcomes,
                files.findings,
                supported,
                profiles,
                j,
            );
        } else {
            assert(files.findings[j] == x);
            assert(files.findings.contains(x));
            other_findings_hold(start.findings, x);
            assert(start.findings.contains(x));
            let q = choose|q: int| 0 <= q < start.findings.len() && start.findings[q] == x;
            assert(start.findings[q] == placed_finding(
                report.findings[q],
                known.workspace,
                profiles,
            ));
            assert(is_about_the_same(y, report.findings[q]));
        }
    }
}

/// A private package further in than the root that nothing uses is in the report of the project
/// as unused, where packages are looked at and nothing in its configuration speaks against it.
pub proof fn unused_packages_are_in_the_report(
    report: ScanReportModel,
    known: ProjectKnowledgeModel,
    request: ProjectScanRequestModel,
    profiles: Seq<Seq<char>>,
    pending: Seq<AnalysisDiagnosticModel>,
    c: int,
)
    requires
        known.contexts.len() <= usize::MAX,
        known.workspace.packages.len() <= usize::MAX,
        report.files.len() > 0,
        profiles.len() > 0,
        0 <= c < known.contexts.len(),
        known.contexts[c].package.root.len() > 0,
        forall|i: int, j: int|
            0 <= i < j < known.contexts.len() ==> (#[trigger] known.contexts[i]).workspace_name != (
            #[trigger] known.contexts[j]).workspace_name,
        known.contexts[c].package.manifest.private,
        !holds_a_live_file(report, known.workspace, known.contexts[c].package.root),
        known.contexts[c].package.manifest.name is Some ==> !imported_by_another(
            report,
            known.workspace,
            known.contexts[c].package.root,
            known.contexts[c].package.manifest.name->0,
        ),
        !named_by_a_script(
            known.contexts,
            called(known.contexts[c]),
            known.contexts[c].package.root,
        ),
        forall|d: int|
            0 <= d < project_report(report, known, request, profiles, pending).diagnostics.len()
                ==> !(#[trigger] project_report(
                report,
                known,
                request,
                profiles,
                pending,
            ).diagnostics[d]).blocks_reachability,
        request.issues.contains(AnalysisIssue::Workspaces),
        owner_name(
            known.workspace.packages,
            parsed(known.contexts[c].workspace_name + "/package.json"@),
        ) == known.contexts[c].workspace_name,
        request.report_tests || !names_test_path(
            seq![known.contexts[c].workspace_name + "/package.json"@],
        ),
        known.contexts[c].effective.retain is None,
        forall|k: int|
            0 <= k < profiles.len() ==> lookup(
                known.contexts[c].plugins_by_profile,
                #[trigger] profiles[k],
            ) is None,
    ensures
        ({
            let findings = project_report(report, known, request, profiles, pending).findings;
            exists|f: int|
                0 <= f < findings.len() && (#[trigger] findings[f]).issue_id == "ORP3001"@
                    && findings[f].workspace == known.contexts[c].workspace_name
                    && findings[f].paths == seq![
                    known.contexts[c].workspace_name + "/package.json"@,
                ]
        }),
{
    let result = project_report(report, known, request, profiles, pending);
    let start = noted(report, known, request, profiles, pending);
    let concluded = with_wanted_results(start, known, request.issues, profiles);
    let context = known.contexts[c];
    let root = context.package.root;
    let name = context.workspace_name;
    let files = if request.issues.contains(AnalysisIssue::Files) {
        start
    } else {
        ScanReportModel { findings: other_findings(start.findings, Seq::empty()), ..start }
    };
    let dependencies = if request.issues.contains(AnalysisIssue::Dependencies) {
        with_dependency_results(
            files,
            known.workspace,
            known.contexts,
            known.project_configurations,
            known.installed,
            profiles,
        )
    } else {
        files
    };
    assert(dependencies.files == report.files);
    assert(dependencies.diagnostics == result.diagnostics);
    same_files_same_use(report, dependencies, known.workspace, root, called(context));
    if context.package.manifest.name is Some {
        same_files_same_use(
            report,
            dependencies,
            known.workspace,
            root,
            context.package.manifest.name->0,
        );
    }
    if crate::application::workspace_laws::has_a_gap(dependencies, known.workspace, root) {
        let d = choose|d: int|
            0 <= d < dependencies.diagnostics.len() && (
            #[trigger] dependencies.diagnostics[d]).blocks_reachability && (
            dependencies.diagnostics[d].path == "package.json"@
                || crate::application::workspace_laws::lies_in(
                known.workspace.packages,
                parsed(dependencies.diagnostics[d].path),
                root,
            ));
        assert(!result.diagnostics[d].blocks_reachability);
    }
    workspaces_without_use_are_reported(
        dependencies,
        known.contexts,
        known.workspace,
        profiles,
        c,
    );
    the_root_package_is_not_judged(dependencies, known.contexts, known.workspace, profiles);
    let j = choose|j: int|
        dependencies.findings.len() <= j < concluded.findings.len() && (
        #[trigger] concluded.findings[j]).issue_id == "ORP3001"@
            && concluded.findings[j].issue_type == "unusedWorkspace"@
            && concluded.findings[j].workspace == name && concluded.findings[j].paths == seq![
            name + "/package.json"@,
        ] && concluded.findings[j].confidence == crate::domain::report::Confidence::High;
    let x = concluded.findings[j];
    assert(concluded.findings.contains(x));
    assert(x.target_profiles == profiles);
    assert(x.paths[0] == name + "/package.json"@);
    assert(is_context(known.contexts, c, name)) by {
        assert forall|d: int| 0 <= d < c implies (#[trigger] known.contexts[d]).workspace_name
            != name by {
            assert(known.contexts[d].workspace_name != known.contexts[c].workspace_name);
        }
    }
    assert(is_let_through(x, known.contexts, c));
    if has_a_gap(result, known.workspace, x.workspace) {
        let d = choose|d: int|
            0 <= d < result.diagnostics.len() && (
            #[trigger] result.diagnostics[d]).blocks_reachability && (owner_name(
                known.workspace.packages,
                parsed(result.diagnostics[d].path),
            ) == "."@ || owner_name(
                known.workspace.packages,
                parsed(result.diagnostics[d].path),
            ) == x.workspace);
        assert(!result.diagnostics[d].blocks_reachability);
    }
    assert(is_asked_for(x.issue_type, request.issues)) by {
        asked_for_is_wanted(x.issue_type, request.issues);
        reveal_strlit("unusedFiles");
        reveal_strlit("unusedExport");
        reveal_strlit("unusedDeclaration");
        reveal_strlit("unusedMember");
        reveal_strlit("unusedDependency");
        reveal_strlit("unlistedDependency");
        reveal_strlit("misplacedDependency");
        reveal_strlit("unusedWorkspace");
        assert("unusedWorkspace"@.len() == 15 && "unusedFiles"@.len() == 11
            && "unusedExport"@.len() == 12 && "unusedDeclaration"@.len() == 17
            && "unusedMember"@.len() == 12 && "unusedDependency"@.len() == 16
            && "unlistedDependency"@.len() == 18 && "misplacedDependency"@.len() == 19);
    }
    reports_show_what_is_let_through(report, known, request, profiles, pending, x, c);
    let f = choose|f: int|
        0 <= f < result.findings.len() && (#[trigger] result.findings[f]) == (FindingModel {
            fix_eligibility: result.findings[f].fix_eligibility,
            ..x
        });
    assert(result.findings[f].issue_id == "ORP3001"@);
}

proof fn same_files_same_use(
    a: ScanReportModel,
    b: ScanReportModel,
    project: WorkspaceDiscoveryModel,
    root: Seq<crate::paths::PathPartModel>,
    name: Seq<char>,
)
    requires
        a.files == b.files,
    ensures
        holds_a_live_file(a, project, root) == holds_a_live_file(b, project, root),
        imported_by_another(a, project, root, name) == imported_by_another(b, project, root, name),
{
    let c = ScanReportModel { files: b.files, ..a };
    assert(c == a);
    if holds_a_live_file(a, project, root) {
        let i = choose|i: int|
            0 <= i < a.files.len() && (#[trigger] a.files[i]).status
                == crate::domain::report::FileStatus::Reachable
                && crate::application::workspace_laws::lies_in(
                project.packages,
                parsed(a.files[i].path),
                root,
            );
        assert(b.files[i].status == crate::domain::report::FileStatus::Reachable);
    }
    if holds_a_live_file(b, project, root) {
        let i = choose|i: int|
            0 <= i < b.files.len() && (#[trigger] b.files[i]).status
                == crate::domain::report::FileStatus::Reachable
                && crate::application::workspace_laws::lies_in(
                project.packages,
                parsed(b.files[i].path),
                root,
            );
        assert(a.files[i].status == crate::domain::report::FileStatus::Reachable);
    }
    if imported_by_another(a, project, root, name) {
        let (i, k) = choose|i: int, k: int|
            #![trigger a.files[i].imports[k]]
            0 <= i < a.files.len() && 0 <= k < a.files[i].imports.len()
                && crate::analysis::packages::npm_package(a.files[i].imports[k].specifier) == Some(
                name,
            ) && crate::application::workspace_laws::lies_in_another(
                project.packages,
                parsed(a.files[i].path),
                root,
            );
        assert(b.files[i].imports[k] == a.files[i].imports[k]);
    }
    if imported_by_another(b, project, root, name) {
        let (i, k) = choose|i: int, k: int|
            #![trigger b.files[i].imports[k]]
            0 <= i < b.files.len() && 0 <= k < b.files[i].imports.len()
                && crate::analysis::packages::npm_package(b.files[i].imports[k].specifier) == Some(
                name,
            ) && crate::application::workspace_laws::lies_in_another(
                project.packages,
                parsed(b.files[i].path),
                root,
            );
        assert(a.files[i].imports[k] == b.files[i].imports[k]);
    }
}

} // verus!
