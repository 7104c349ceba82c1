//! Which findings a project keeps, and which it may act on.

use crate::application::policy::{
    blocked_names, configured_reason, doubted_file, firm_findings, firmness, fixable_finding,
    is_blocked, issue_name, level_confidence, placed_finding, plugin_reasons, profiles_without,
    remaining_findings, report_level, rule_covers, rule_hits, ruled_finding, some_not_unreachable,
    some_not_unreachable_at, some_unmatched, some_unmatched_at, status_table, unblocked_findings,
    with_confidence, with_context, with_fix_eligibility, with_retain_rules, without_blocked,
};
use crate::collections::{
    ascending, ascending_is_unique, collected, collected_is_ordered, keys_of, lookup,
    lookup_after_with_entry, lookup_other_after_with_entry, with_item_contains,
};
use crate::discovery::workspace::{
    context_named, owner_name, ConfidenceLevel, PackageContextModel, RetainRuleModel,
    WorkspaceDiscoveryModel,
};
use crate::domain::facts::AnalysisDiagnosticModel;
use crate::domain::report::{
    Confidence, FileReportModel, FileStatus, FindingModel, FixEligibility, ScanReportModel,
};
use crate::domain::target::WorldMode;
use crate::paths::parsed;
use vstd::prelude::*;

verus! {

/// Whether a gap in the analysis concerns the workspace: a diagnostic says so of a file of it,
/// or of the package at the root of the project.
pub open spec fn has_a_gap(
    report: ScanReportModel,
    project: WorkspaceDiscoveryModel,
    workspace: Seq<char>,
) -> bool {
    exists|d: int|
        0 <= d < report.diagnostics.len() && (#[trigger] report.diagnostics[d]).blocks_reachability
            && (owner_name(project.packages, parsed(report.diagnostics[d].path)) == "."@
            || owner_name(project.packages, parsed(report.diagnostics[d].path)) == workspace)
}

proof fn blocked_are_those_with_gaps(
    items: Seq<AnalysisDiagnosticModel>,
    project: WorkspaceDiscoveryModel,
    name: Seq<char>,
)
    ensures
        blocked_names(items, project).contains(name) <==> exists|d: int|
            0 <= d < items.len() && (#[trigger] items[d]).blocks_reachability && owner_name(
                project.packages,
                parsed(items[d].path),
            ) == name,
    decreases items.len(),
{
    if items.len() > 0 {
        let front = items.drop_last();
        let last = items.last();
        blocked_are_those_with_gaps(front, project, name);
        with_item_contains::<String>(
            blocked_names(front, project),
            owner_name(project.packages, parsed(last.path)),
        );
        if exists|d: int|
            0 <= d < front.len() && (#[trigger] front[d]).blocks_reachability && owner_name(
                project.packages,
                parsed(front[d].path),
            ) == name {
            let d = choose|d: int|
                0 <= d < front.len() && (#[trigger] front[d]).blocks_reachability && owner_name(
                    project.packages,
                    parsed(front[d].path),
                ) == name;
            assert(items[d] == front[d]);
        }
        assert(items[items.len() - 1] == last);
        if exists|d: int|
            0 <= d < items.len() && (#[trigger] items[d]).blocks_reachability && owner_name(
                project.packages,
                parsed(items[d].path),
            ) == name {
            let d = choose|d: int|
                0 <= d < items.len() && (#[trigger] items[d]).blocks_reachability && owner_name(
                    project.packages,
                    parsed(items[d].path),
                ) == name;
            if d < front.len() {
                assert(front[d] == items[d]);
            }
        }
    }
}

proof fn blocked_is_gap(
    report: ScanReportModel,
    project: WorkspaceDiscoveryModel,
    workspace: Seq<char>,
)
    ensures
        is_blocked(blocked_names(report.diagnostics, project), workspace) <==> has_a_gap(
            report,
            project,
            workspace,
        ),
{
    blocked_are_those_with_gaps(report.diagnostics, project, "."@);
    blocked_are_those_with_gaps(report.diagnostics, project, workspace);
}

proof fn unblocked_findings_hold(
    items: Seq<FindingModel>,
    names: Seq<Seq<char>>,
    x: FindingModel,
)
    ensures
        unblocked_findings(items, Seq::empty(), names).contains(x) <==> items.contains(x)
            && !is_blocked(names, x.workspace),
    decreases items.len(),
{
    if items.len() > 0 {
        let front = items.drop_last();
        unblocked_findings_hold(front, names, x);
        let rest = unblocked_findings(front, Seq::empty(), names);
        let all = unblocked_findings(items, Seq::empty(), names);
        if rest.contains(x) {
            let j = choose|j: int| 0 <= j < rest.len() && rest[j] == x;
            assert(all[j] == x);
        }
        if front.contains(x) {
            let j = choose|j: int| 0 <= j < front.len() && front[j] == x;
            assert(items[j] == x);
        }
        if items.last() == x {
            assert(items[items.len() - 1] == x);
            if !is_blocked(names, x.workspace) {
                assert(all[all.len() - 1] == x);
            }
        }
        if items.contains(x) && items.last() != x {
            let j = choose|j: int| 0 <= j < items.len() && items[j] == x;
            assert(front[j] == x);
        }
        if all.contains(x) && !rest.contains(x) {
            let j = choose|j: int| 0 <= j < all.len() && all[j] == x;
            if j < rest.len() {
                assert(rest[j] == x);
            }
        }
    }
}

/// Where a gap concerns a workspace, and only there, its findings are taken back and its files
/// that were called unreachable are left open. Files in use stay in use, and files without a
/// gap stay as they are.
pub proof fn gaps_take_back_what_they_concern(
    report: ScanReportModel,
    project: WorkspaceDiscoveryModel,
    x: FindingModel,
    i: int,
)
    requires
        0 <= i < report.files.len(),
    ensures
        ({
            let after = without_blocked(report, project);
            let file = report.files[i];
            let doubtful = has_a_gap(
                report,
                project,
                owner_name(project.packages, parsed(file.path)),
            );
            &&& after.findings.contains(x) <==> report.findings.contains(x) && !has_a_gap(
                report,
                project,
                x.workspace,
            )
            &&& after.files.len() == report.files.len()
            &&& after.files[i].path == file.path
            &&& file.status == FileStatus::Unreachable && doubtful ==> after.files[i].status
                == FileStatus::Incomplete
            &&& file.status != FileStatus::Unreachable || !doubtful ==> after.files[i] == file
            &&& after.diagnostics == report.diagnostics
        }),
{
    let names = blocked_names(report.diagnostics, project);
    blocked_is_gap(report, project, x.workspace);
    blocked_is_gap(report, project, owner_name(project.packages, parsed(report.files[i].path)));
    unblocked_findings_hold(report.findings, names, x);
    if names.len() > 0 {
        let after = without_blocked(report, project);
        assert(after.files[i] == doubted_file(report.files[i], names, project));
    } else {
        assert(!names.contains("."@));
        assert(!names.contains(x.workspace));
    }
}

/// Whether the `c`th package is the one that goes by the name of the workspace.
pub open spec fn is_context(
    contexts: Seq<PackageContextModel>,
    c: int,
    workspace: Seq<char>,
) -> bool {
    &&& 0 <= c < contexts.len()
    &&& contexts[c].workspace_name == workspace
    &&& forall|d: int| 0 <= d < c ==> (#[trigger] contexts[d]).workspace_name != workspace
}

proof fn named_context(contexts: Seq<PackageContextModel>, workspace: Seq<char>)
    requires
        contexts.len() <= usize::MAX,
    ensures
        match context_named(contexts, workspace) {
            Some(c) => is_context(contexts, c as int, workspace),
            None => forall|d: int|
                0 <= d < contexts.len() ==> (#[trigger] contexts[d]).workspace_name != workspace,
        },
    decreases contexts.len(),
{
    if contexts.len() > 0 {
        let front = contexts.drop_last();
        named_context(front, workspace);
        assert forall|d: int| 0 <= d < front.len() implies #[trigger] contexts[d] == front[d] by {}
    }
}

proof fn context_is_named(contexts: Seq<PackageContextModel>, c: int, workspace: Seq<char>)
    requires
        contexts.len() <= usize::MAX,
        is_context(contexts, c, workspace),
    ensures
        context_named(contexts, workspace) == Some(c as usize),
{
    named_context(contexts, workspace);
    let found = context_named(contexts, workspace);
    assert(found is Some) by {
        assert(contexts[c].workspace_name == workspace);
    }
    let d = found->0 as int;
    assert(!(d < c));
    assert(!(c < d));
}

/// Whether a finding is at least as certain as the level asks for.
pub open spec fn is_certain_enough(confidence: Confidence, level: ConfidenceLevel) -> bool {
    match level {
        ConfidenceLevel::Low => confidence != Confidence::Incomplete,
        ConfidenceLevel::Medium => confidence == Confidence::Medium || confidence
            == Confidence::High,
        ConfidenceLevel::High => confidence == Confidence::High,
    }
}

proof fn firm_findings_hold(
    items: Seq<FindingModel>,
    contexts: Seq<PackageContextModel>,
    x: FindingModel,
)
    ensures
        firm_findings(items, Seq::empty(), contexts).contains(x) <==> items.contains(x)
            && firmness(x.confidence) >= firmness(
            level_confidence(report_level(contexts, x.workspace)),
        ),
    decreases items.len(),
{
    if items.len() > 0 {
        let front = items.drop_last();
        firm_findings_hold(front, contexts, x);
        let rest = firm_findings(front, Seq::empty(), contexts);
        let all = firm_findings(items, Seq::empty(), contexts);
        if rest.contains(x) {
            let j = choose|j: int| 0 <= j < rest.len() && rest[j] == x;
            assert(all[j] == x);
        }
        if front.contains(x) {
            let j = choose|j: int| 0 <= j < front.len() && front[j] == x;
            assert(items[j] == x);
        }
        if items.last() == x {
            assert(items[items.len() - 1] == x);
            if firmness(x.confidence) >= firmness(
                level_confidence(report_level(contexts, x.workspace)),
            ) {
                assert(all[all.len() - 1] == x);
            }
        }
        if items.contains(x) && items.last() != x {
            let j = choose|j: int| 0 <= j < items.len() && items[j] == x;
            assert(front[j] == x);
        }
        if all.contains(x) && !rest.contains(x) {
            let j = choose|j: int| 0 <= j < all.len() && all[j] == x;
            if j < rest.len() {
                assert(rest[j] == x);
            }
        }
    }
}

/// A finding is reported exactly where it is as certain as its package asks for; a package that
/// asks for nothing asks for medium certainty.
pub proof fn findings_are_as_certain_as_asked(
    report: ScanReportModel,
    contexts: Seq<PackageContextModel>,
    x: FindingModel,
    c: int,
)
    requires
        contexts.len() <= usize::MAX,
    ensures
        ({
            let after = with_confidence(report, contexts);
            let kept = after.findings.contains(x);
            let given = report.findings.contains(x);
            &&& is_context(contexts, c, x.workspace) ==> (kept <==> given && is_certain_enough(
                x.confidence,
                match contexts[c].effective.confidence {
                    Some(asked) => match asked.report {
                        Some(level) => level,
                        None => ConfidenceLevel::Medium,
                    },
                    None => ConfidenceLevel::Medium,
                },
            ))
            &&& (forall|d: int|
                0 <= d < contexts.len() ==> (#[trigger] contexts[d]).workspace_name
                    != x.workspace) ==> (kept <==> given && is_certain_enough(
                x.confidence,
                ConfidenceLevel::Medium,
            ))
        }),
{
    firm_findings_hold(report.findings, contexts, x);
    named_context(contexts, x.workspace);
    if is_context(contexts, c, x.workspace) {
        context_is_named(contexts, c, x.workspace);
    }
}

/// What the configuration calls findings of a type.
pub open spec fn configured_name(issue_type: Seq<char>) -> Seq<char> {
    if issue_type == "unusedFiles"@ {
        "files"@
    } else if issue_type == "unusedExport"@ {
        "exports"@
    } else if issue_type == "unusedDeclaration"@ {
        "declarations"@
    } else if issue_type == "unusedMember"@ {
        "members"@
    } else if issue_type == "unusedDependency"@ || issue_type == "unlistedDependency"@ || issue_type
        == "misplacedDependency"@ {
        "dependencies"@
    } else if issue_type == "unusedWorkspace"@ {
        "workspaces"@
    } else {
        issue_type
    }
}

/// Whether a rule keeps what the finding is about: it is for findings of its type, or for all,
/// and its pattern matches every path.
pub open spec fn rule_keeps(
    rule: RetainRuleModel,
    context: PackageContextModel,
    finding: FindingModel,
) -> bool {
    &&& rule.issues.len() == 0 || rule.issues.contains(configured_name(finding.issue_type))
    &&& forall|k: int|
        0 <= k < finding.paths.len() ==> rule_hits(
            #[trigger] finding.paths[k],
            context.retain_base,
            rule.pattern,
        )
}

/// Whether a rule of the package keeps what the finding is about.
pub open spec fn is_kept_by_rule(context: PackageContextModel, finding: FindingModel) -> bool {
    match context.effective.retain {
        Some(rules) => exists|r: int|
            0 <= r < rules.len() && rule_keeps(#[trigger] rules[r], context, finding),
        None => false,
    }
}

proof fn rule_gives_a_reason(
    rule: RetainRuleModel,
    finding: FindingModel,
    context: PackageContextModel,
)
    ensures
        rule_keeps(rule, context, finding) <==> rule_covers(
            rule.issues,
            issue_name(finding.issue_type),
        ) && !some_unmatched(finding.paths, context.retain_base, rule.pattern),
{
    assert(issue_name(finding.issue_type) == configured_name(finding.issue_type));
    let base = context.retain_base;
    if some_unmatched(finding.paths, base, rule.pattern) {
        let k = choose|k: int|
            0 <= k < finding.paths.len() && some_unmatched_at(
                #[trigger] finding.paths[k],
                base,
                rule.pattern,
            );
        assert(!rule_hits(finding.paths[k], base, rule.pattern));
    } else {
        assert forall|k: int| 0 <= k < finding.paths.len() implies rule_hits(
            #[trigger] finding.paths[k],
            base,
            rule.pattern,
        ) by {
            assert(!some_unmatched_at(finding.paths[k], base, rule.pattern));
        }
    }
}

proof fn rules_give_reasons(
    rules: Seq<RetainRuleModel>,
    finding: FindingModel,
    context: PackageContextModel,
)
    ensures
        configured_reason(rules, finding, context.retain_base) is Some <==> exists|r: int|
            0 <= r < rules.len() && rule_keeps(#[trigger] rules[r], context, finding),
    decreases rules.len(),
{
    if rules.len() > 0 {
        let front = rules.drop_last();
        let last = rules.last();
        rules_give_reasons(front, finding, context);
        rule_gives_a_reason(last, finding, context);
        assert(rules[rules.len() - 1] == last);
        if exists|r: int|
            0 <= r < front.len() && rule_keeps(#[trigger] front[r], context, finding) {
            let r = choose|r: int|
                0 <= r < front.len() && rule_keeps(#[trigger] front[r], context, finding);
            assert(rules[r] == front[r]);
        }
        if exists|r: int|
            0 <= r < rules.len() && rule_keeps(#[trigger] rules[r], context, finding) {
            let r = choose|r: int|
                0 <= r < rules.len() && rule_keeps(#[trigger] rules[r], context, finding);
            if r < front.len() {
                assert(rules[r] == front[r]);
            }
        }
    }
}

proof fn remaining_hold(
    items: Seq<FindingModel>,
    contexts: Seq<PackageContextModel>,
    y: FindingModel,
)
    ensures
        remaining_findings(items, contexts).contains(y) <==> exists|j: int|
            0 <= j < items.len() && ruled_finding(#[trigger] items[j], contexts).finding == Some(y),
    decreases items.len(),
{
    if items.len() > 0 {
        let front = items.drop_last();
        remaining_hold(front, contexts, y);
        let rest = remaining_findings(front, contexts);
        let all = remaining_findings(items, contexts);
        if rest.contains(y) {
            let j = choose|j: int| 0 <= j < rest.len() && rest[j] == y;
            assert(all[j] == y);
            let i = choose|i: int|
                0 <= i < front.len() && ruled_finding(#[trigger] front[i], contexts).finding
                    == Some(y);
            assert(items[i] == front[i]);
        }
        if ruled_finding(items.last(), contexts).finding == Some(y) {
            assert(items[items.len() - 1] == items.last());
            assert(all[all.len() - 1] == y);
        }
        if all.contains(y) && !rest.contains(y) {
            let j = choose|j: int| 0 <= j < all.len() && all[j] == y;
            if j < rest.len() {
                assert(rest[j] == y);
            }
        }
        if exists|j: int|
            0 <= j < items.len() && ruled_finding(#[trigger] items[j], contexts).finding == Some(
                y,
            ) {
            let j = choose|j: int|
                0 <= j < items.len() && ruled_finding(#[trigger] items[j], contexts).finding
                    == Some(y);
            if j < front.len() {
                assert(front[j] == items[j]);
            }
        }
    }
}

/// What a rule of its package keeps is not found: no finding with its type, workspace and paths
/// is left. A finding that no rule keeps, and of whose profiles no plugin speaks, stays as it
/// is. And nothing is found that was not found before.
pub proof fn rules_keep_what_they_cover(
    report: ScanReportModel,
    contexts: Seq<PackageContextModel>,
    x: FindingModel,
    y: FindingModel,
    c: int,
)
    requires
        contexts.len() <= usize::MAX,
        is_context(contexts, c, x.workspace),
    ensures
        ({
            let after = with_retain_rules(report, contexts);
            &&& is_kept_by_rule(contexts[c], x) && y.issue_type == x.issue_type && y.workspace
                == x.workspace && y.paths == x.paths ==> !after.findings.contains(y)
            &&& report.findings.contains(x) && !is_kept_by_rule(contexts[c], x)
                && x.target_profiles.len() > 0 && (forall|k: int|
                0 <= k < x.target_profiles.len() ==> lookup(
                    contexts[c].plugins_by_profile,
                    #[trigger] x.target_profiles[k],
                ) is None) ==> after.findings.contains(x)
            &&& after.findings.contains(y) ==> exists|j: int|
                0 <= j < report.findings.len() && y == (FindingModel {
                    target_profiles: y.target_profiles,
                    ..#[trigger] report.findings[j]
                })
        }),
{
    context_is_named(contexts, c, x.workspace);
    remaining_hold(report.findings, contexts, y);
    let after = with_retain_rules(report, contexts);
    let items = report.findings;
    match contexts[c].effective.retain {
        Some(rules) => {
            rules_give_reasons(rules, x, contexts[c]);
            rules_give_reasons(rules, y, contexts[c]);
        },
        None => {},
    }
    if after.findings.contains(y) {
        let j = choose|j: int|
            0 <= j < items.len() && ruled_finding(#[trigger] items[j], contexts).finding == Some(y);
        assert(y == (FindingModel { target_profiles: y.target_profiles, ..items[j] }));
        if y.issue_type == x.issue_type && y.workspace == x.workspace && y.paths == x.paths {
            match contexts[c].effective.retain {
                Some(rules) => {
                    rules_give_reasons(rules, items[j], contexts[c]);
                },
                None => {},
            }
        }
    }
    if report.findings.contains(x) && !is_kept_by_rule(contexts[c], x) && x.target_profiles.len()
        > 0 && (forall|k: int|
        0 <= k < x.target_profiles.len() ==> lookup(
            contexts[c].plugins_by_profile,
            #[trigger] x.target_profiles[k],
        ) is None) {
        let reasons = plugin_reasons(x.target_profiles, x, contexts[c]);
        assert forall|k: int| 0 <= k < x.target_profiles.len() implies #[trigger] reasons[k]
            is None by {
            assert(lookup(contexts[c].plugins_by_profile, x.target_profiles[k]) is None);
        }
        all_profiles_stay(x.target_profiles, reasons);
        assert(ruled_finding(x, contexts).finding == Some(x));
        let j = choose|j: int| 0 <= j < items.len() && items[j] == x;
        assert(ruled_finding(items[j], contexts).finding == Some(x));
        remaining_hold(report.findings, contexts, x);
    }
}

proof fn all_profiles_stay(items: Seq<Seq<char>>, reasons: Seq<Option<Seq<char>>>)
    requires
        items.len() <= reasons.len(),
        forall|k: int| 0 <= k < items.len() ==> #[trigger] reasons[k] is None,
    ensures
        profiles_without(items, reasons) == items,
    decreases items.len(),
{
    if items.len() > 0 {
        all_profiles_stay(items.drop_last(), reasons);
        assert(reasons[items.len() - 1] is None);
        assert(items.drop_last().push(items.last()) =~= items);
    } else {
        assert(profiles_without(items, reasons) =~= items);
    }
}

proof fn status_of_path(items: Seq<FileReportModel>, i: int)
    requires
        0 <= i < items.len(),
        forall|a: int, b: int|
            0 <= a < b < items.len() ==> (#[trigger] items[a]).path != (#[trigger] items[b]).path,
    ensures
        lookup(status_table(items), items[i].path) == Some(items[i].status),
    decreases items.len(),
{
    let front = items.drop_last();
    let last = items.last();
    table_is_ordered(front);
    lookup_after_with_entry::<String, FileStatus>(status_table(front), last.path, last.status);
    if i < front.len() {
        assert forall|a: int, b: int| 0 <= a < b < front.len() implies (#[trigger] front[a]).path
            != (#[trigger] front[b]).path by {
            assert(items[a].path != items[b].path);
        }
        status_of_path(front, i);
        assert(items[i].path != items[items.len() - 1].path);
        lookup_other_after_with_entry::<String, FileStatus>(
            status_table(front),
            last.path,
            last.status,
            items[i].path,
        );
    }
}

proof fn table_is_ordered(items: Seq<FileReportModel>)
    ensures
        ascending::<String>(keys_of(status_table(items))),
    decreases items.len(),
{
    if items.len() > 0 {
        table_is_ordered(items.drop_last());
        lookup_after_with_entry::<String, FileStatus>(
            status_table(items.drop_last()),
            items.last().path,
            items.last().status,
        );
    } else {
        assert(keys_of(status_table(items)) =~= Seq::empty());
    }
}

/// Whether a finding is about files that may be deleted: it is certain, it holds for all
/// profiles, no one outside may use its package, and no file that it names is in use or in doubt.
pub open spec fn may_be_deleted(
    report: ScanReportModel,
    contexts: Seq<PackageContextModel>,
    profiles: Seq<Seq<char>>,
    finding: FindingModel,
    c: int,
) -> bool {
    &&& is_context(contexts, c, finding.workspace)
    &&& contexts[c].effective.world is None || contexts[c].effective.world == Some(WorldMode::Closed)
    &&& forall|p: Seq<char>| #[trigger]
        finding.target_profiles.contains(p) <==> profiles.contains(p)
    &&& forall|k: int, i: int|
        #![trigger finding.paths[k], report.files[i]]
        0 <= k < finding.paths.len() && 0 <= i < report.files.len() && report.files[i].path
            == finding.paths[k] ==> report.files[i].status == FileStatus::Unreachable
}

/// A certain finding about files may be acted on exactly where they may be deleted; what other
/// findings say of that is left alone, and so is all else.
pub proof fn only_dead_files_may_be_deleted(
    report: ScanReportModel,
    contexts: Seq<PackageContextModel>,
    profiles: Seq<Seq<char>>,
    f: int,
    c: int,
)
    requires
        contexts.len() <= usize::MAX,
        0 <= f < report.findings.len(),
        is_context(contexts, c, report.findings[f].workspace),
        forall|a: int, b: int|
            0 <= a < b < report.files.len() ==> (#[trigger] report.files[a]).path != (
            #[trigger] report.files[b]).path,
        forall|k: int|
            0 <= k < report.findings[f].paths.len() ==> exists|i: int|
                0 <= i < report.files.len() && (#[trigger] report.files[i]).path
                    == #[trigger] report.findings[f].paths[k],
    ensures
        ({
            let after = with_fix_eligibility(report, contexts, profiles);
            let finding = report.findings[f];
            let certain = finding.issue_type == "unusedFiles"@ && finding.confidence
                == Confidence::High;
            &&& after.findings.len() == report.findings.len()
            &&& after.findings[f] == (FindingModel {
                fix_eligibility: after.findings[f].fix_eligibility,
                ..finding
            })
            &&& certain ==> (after.findings[f].fix_eligibility == FixEligibility::Eligible
                <==> may_be_deleted(report, contexts, profiles, finding, c))
            &&& !certain ==> after.findings[f] == finding
        }),
{
    let finding = report.findings[f];
    let statuses = status_table(report.files);
    let after = with_fix_eligibility(report, contexts, profiles);
    assert(after.findings[f] == fixable_finding(finding, contexts, profiles, statuses));
    context_is_named(contexts, c, finding.workspace);
    let own = finding.target_profiles;
    collected_is_ordered::<String>(own);
    collected_is_ordered::<String>(profiles);
    assert(collected::<String>(own) == collected::<String>(profiles) <==> forall|p: Seq<char>|
        #[trigger] own.contains(p) <==> profiles.contains(p)) by {
        if collected::<String>(own) == collected::<String>(profiles) {
            assert forall|p: Seq<char>| #[trigger] own.contains(p) <==> profiles.contains(p) by {
                assert(collected::<String>(own).contains(p) <==> own.contains(p));
                assert(collected::<String>(profiles).contains(p) <==> profiles.contains(p));
            }
        }
        if forall|p: Seq<char>| #[trigger] own.contains(p) <==> profiles.contains(p) {
            assert forall|p: Seq<char>| #[trigger]
                collected::<String>(own).contains(p) <==> collected::<String>(profiles).contains(
                    p,
                ) by {
                assert(own.contains(p) <==> profiles.contains(p));
                assert(collected::<String>(profiles).contains(p) <==> profiles.contains(p));
            }
            ascending_is_unique::<String>(
                collected::<String>(own),
                collected::<String>(profiles),
            );
        }
    }
    if some_not_unreachable(finding.paths, statuses) {
        let k = choose|k: int|
            0 <= k < finding.paths.len() && some_not_unreachable_at(
                #[trigger] finding.paths[k],
                statuses,
            );
        let i = choose|i: int|
            0 <= i < report.files.len() && (#[trigger] report.files[i]).path
                == report.findings[f].paths[k];
        status_of_path(report.files, i);
        assert(report.files[i].status != FileStatus::Unreachable);
        assert(!may_be_deleted(report, contexts, profiles, finding, c));
    } else {
        assert forall|k: int, i: int|
            #![trigger finding.paths[k], report.files[i]]
            0 <= k < finding.paths.len() && 0 <= i < report.files.len() && report.files[i].path
                == finding.paths[k] implies report.files[i].status == FileStatus::Unreachable by {
            assert(!some_not_unreachable_at(finding.paths[k], statuses));
            status_of_path(report.files, i);
        }
    }
}

/// A finding belongs to the package that holds its first path, and one that names no profile
/// of its own holds for all of them.
pub proof fn findings_belong_to_packages(
    report: ScanReportModel,
    project: WorkspaceDiscoveryModel,
    profiles: Seq<Seq<char>>,
    f: int,
)
    requires
        0 <= f < report.findings.len(),
    ensures
        ({
            let after = with_context(report, project, profiles);
            let finding = report.findings[f];
            let placed = after.findings[f];
            &&& after.findings.len() == report.findings.len()
            &&& finding.paths.len() > 0 ==> placed.workspace == owner_name(
                project.packages,
                parsed(finding.paths[0]),
            )
            &&& finding.target_profiles == seq!["default"@] ==> placed.target_profiles == profiles
            &&& finding.target_profiles.len() > 1 ==> placed.target_profiles
                == finding.target_profiles
            &&& placed == (FindingModel {
                workspace: placed.workspace,
                target_profiles: placed.target_profiles,
                ..finding
            })
        }),
{
    let after = with_context(report, project, profiles);
    assert(after.findings[f] == placed_finding(report.findings[f], project, profiles));
}

/// What is left under the rules and the demand for certainty was there before, but for its
/// profiles.
pub(crate) proof fn kept_findings_were_given(
    given: ScanReportModel,
    ruled: ScanReportModel,
    contexts: Seq<PackageContextModel>,
    y: FindingModel,
)
    requires
        ruled == with_retain_rules(given, contexts),
        with_confidence(ruled, contexts).findings.contains(y),
    ensures
        exists|q: int|
            0 <= q < given.findings.len() && crate::application::project_laws::is_about_the_same(
                y,
                #[trigger] given.findings[q],
            ),
{
    firm_findings_hold(ruled.findings, contexts, y);
    remaining_hold(given.findings, contexts, y);
    let items = given.findings;
    let j = choose|j: int|
        0 <= j < items.len() && ruled_finding(#[trigger] items[j], contexts).finding == Some(y);
    assert(crate::application::project_laws::is_about_the_same(y, given.findings[j]));
}

/// What is left where gaps have taken back what they concern was there before.
pub(crate) proof fn certain_findings_were_given(
    report: ScanReportModel,
    project: WorkspaceDiscoveryModel,
    x: FindingModel,
)
    requires
        without_blocked(report, project).findings.contains(x),
    ensures
        report.findings.contains(x),
{
    unblocked_findings_hold(report.findings, blocked_names(report.diagnostics, project), x);
}

} // verus!
