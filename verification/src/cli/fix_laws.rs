//! What a plan of fixes may touch.

use crate::cli::fixing::{
    can_be_planned, empty_selection, planned_fixes, removals_from, with_commands, with_file_fix,
    with_file_fixes, with_fixes, with_removal, AnalyzedManifestModel, FixRequestModel,
    FixSelectionModel,
};
use crate::collections::{
    ascending, keys_of, lookup_after_with_entry, lookup_other_after_with_entry,
};
use crate::domain::report::{FileReportModel, FindingModel, FixEligibility, ScanReportModel};
use crate::fixes::package_manager::{DependencyRemovalModel, PackageManager};
use crate::fixes::plan::FixPlanModel;
use vstd::prelude::*;

verus! {

/// Whether a finding says that the file is unused and may be deleted.
pub open spec fn may_delete(findings: Seq<FindingModel>, path: Seq<char>) -> bool {
    exists|f: int|
        0 <= f < findings.len() && (#[trigger] findings[f]).issue_type == "unusedFiles"@
            && findings[f].fix_eligibility == FixEligibility::Eligible
            && findings[f].paths.contains(path)
}

/// Whether a finding says that the dependency of the workspace is unused and may be removed; to
/// look at what would happen, it is enough that the removal may be shown.
pub open spec fn may_remove(
    findings: Seq<FindingModel>,
    workspace: Seq<char>,
    dependency: Seq<char>,
    apply: bool,
) -> bool {
    exists|f: int|
        0 <= f < findings.len() && (#[trigger] findings[f]).issue_type == "unusedDependency"@
            && findings[f].workspace == workspace && findings[f].dependency == Some(dependency) && (
        findings[f].fix_eligibility == FixEligibility::Eligible || (!apply
            && findings[f].fix_eligibility == FixEligibility::PreviewOnly))
}

spec fn is_allowed(
    state: FixSelectionModel,
    findings: Seq<FindingModel>,
    apply: bool,
) -> bool {
    &&& ascending::<String>(keys_of(state.removals))
    &&& forall|i: int|
        0 <= i < state.plan.file_changes.len() ==> may_delete(
            findings,
            (#[trigger] state.plan.file_changes[i]).path,
        )
    &&& forall|w: Seq<char>, i: int|
        0 <= i < removals_from(state.removals, w).len() ==> may_remove(
            findings,
            w,
            (#[trigger] removals_from(state.removals, w)[i]).dependency.name,
            apply,
        )
}

proof fn file_fix_is_allowed(
    state: FixSelectionModel,
    path: Seq<char>,
    summary: Seq<char>,
    requested: Seq<Seq<char>>,
    files: Seq<FileReportModel>,
    findings: Seq<FindingModel>,
    apply: bool,
)
    requires
        is_allowed(state, findings, apply),
        may_delete(findings, path),
        with_file_fix(state, path, summary, requested, files) is Ok,
    ensures
        is_allowed(with_file_fix(state, path, summary, requested, files)->Ok_0, findings, apply),
{
    let after = with_file_fix(state, path, summary, requested, files)->Ok_0;
    assert(after.removals == state.removals);
    assert forall|i: int| 0 <= i < after.plan.file_changes.len() implies may_delete(
        findings,
        (#[trigger] after.plan.file_changes[i]).path,
    ) by {
        if i < state.plan.file_changes.len() {
            assert(after.plan.file_changes[i] == state.plan.file_changes[i]);
        }
    }
}

proof fn file_fixes_are_allowed(
    items: Seq<Seq<char>>,
    start: FixSelectionModel,
    summary: Seq<char>,
    requested: Seq<Seq<char>>,
    files: Seq<FileReportModel>,
    findings: Seq<FindingModel>,
    apply: bool,
)
    requires
        is_allowed(start, findings, apply),
        forall|k: int| 0 <= k < items.len() ==> may_delete(findings, #[trigger] items[k]),
        with_file_fixes(items, start, summary, requested, files) is Ok,
    ensures
        is_allowed(
            with_file_fixes(items, start, summary, requested, files)->Ok_0,
            findings,
            apply,
        ),
    decreases items.len(),
{
    if items.len() > 0 {
        let front = items.drop_last();
        assert forall|k: int| 0 <= k < front.len() implies may_delete(
            findings,
            #[trigger] front[k],
        ) by {
            assert(front[k] == items[k]);
        }
        file_fixes_are_allowed(front, start, summary, requested, files, findings, apply);
        let state = with_file_fixes(front, start, summary, requested, files)->Ok_0;
        assert(may_delete(findings, items[items.len() - 1]));
        file_fix_is_allowed(state, items.last(), summary, requested, files, findings, apply);
    }
}

proof fn removal_is_allowed(
    state: FixSelectionModel,
    workspace: Seq<char>,
    dependency: Seq<char>,
    summary: Seq<char>,
    selector: Seq<char>,
    findings: Seq<FindingModel>,
    apply: bool,
)
    requires
        is_allowed(state, findings, apply),
        may_remove(findings, workspace, dependency, apply),
        with_removal(state, workspace, dependency, summary, selector) is Ok,
    ensures
        is_allowed(
            with_removal(state, workspace, dependency, summary, selector)->Ok_0,
            findings,
            apply,
        ),
{
    let after = with_removal(state, workspace, dependency, summary, selector)->Ok_0;
    let old_list = removals_from(state.removals, workspace);
    let new_list = removals_from(after.removals, workspace);
    lookup_after_with_entry::<String, Seq<DependencyRemovalModel>>(
        state.removals,
        workspace,
        new_list,
    );
    let removal = DependencyRemovalModel {
        dependency: crate::fixes::package_manager::DirectDependencyModel {
            name: dependency,
            kind: crate::fixes::package_manager::DependencyKind::Production,
        },
        reason: summary,
    };
    lookup_after_with_entry::<String, Seq<DependencyRemovalModel>>(
        state.removals,
        workspace,
        old_list.push(removal),
    );
    assert(new_list == old_list.push(removal));
    assert(after.plan == state.plan);
    assert forall|w: Seq<char>, i: int|
        0 <= i < removals_from(after.removals, w).len() implies may_remove(
        findings,
        w,
        (#[trigger] removals_from(after.removals, w)[i]).dependency.name,
        apply,
    ) by {
        if w == workspace {
            if i < old_list.len() {
                assert(removals_from(after.removals, w)[i] == removals_from(state.removals, w)[i]);
            }
        } else {
            lookup_other_after_with_entry::<String, Seq<DependencyRemovalModel>>(
                state.removals,
                workspace,
                old_list.push(removal),
                w,
            );
            assert(removals_from(after.removals, w) == removals_from(state.removals, w));
            assert(removals_from(state.removals, w)[i].dependency.name == removals_from(
                after.removals,
                w,
            )[i].dependency.name);
        }
    }
}

proof fn fixes_are_allowed(
    items: Seq<FindingModel>,
    request: FixRequestModel,
    findings: Seq<FindingModel>,
    files: Seq<FileReportModel>,
    managed: bool,
    apply: bool,
)
    requires
        items.is_prefix_of(findings),
        with_fixes(items, empty_selection(), request, findings, files, managed, apply) is Ok,
    ensures
        is_allowed(
            with_fixes(items, empty_selection(), request, findings, files, managed, apply)->Ok_0,
            findings,
            apply,
        ),
    decreases items.len(),
{
    if items.len() == 0 {
        let none = empty_selection();
        assert(keys_of(none.removals) =~= Seq::empty());
        assert forall|w: Seq<char>, i: int|
            0 <= i < removals_from(none.removals, w).len() implies may_remove(
            findings,
            w,
            (#[trigger] removals_from(none.removals, w)[i]).dependency.name,
            apply,
        ) by {}
    } else {
        let front = items.drop_last();
        let last = items.last();
        assert(front =~= findings.subrange(0, front.len() as int)) by {
            assert(items =~= findings.subrange(0, items.len() as int));
        }
        fixes_are_allowed(front, request, findings, files, managed, apply);
        let state = with_fixes(
            front,
            empty_selection(),
            request,
            findings,
            files,
            managed,
            apply,
        )->Ok_0;
        let n = items.len() - 1;
        assert(findings.subrange(0, items.len() as int)[n] == last);
        assert(findings[n] == last);
        if last.issue_type == "unusedDependency"@ && can_be_planned(last.fix_eligibility, apply)
            && managed && last.dependency is Some {
            assert(may_remove(findings, last.workspace, last.dependency->0, apply));
            let qualified = crate::cli::fixing::qualified_name(
                last.workspace,
                last.dependency->0,
            );
            let after = with_fixes(
                items,
                empty_selection(),
                request,
                findings,
                files,
                managed,
                apply,
            )->Ok_0;
            if after != state {
                removal_is_allowed(
                    state,
                    last.workspace,
                    last.dependency->0,
                    last.summary,
                    if request.dependencies.contains(qualified) {
                        qualified
                    } else {
                        last.dependency->0
                    },
                    findings,
                    apply,
                );
            }
        } else if last.issue_type == "unusedFiles"@ && last.fix_eligibility
            == FixEligibility::Eligible {
            assert forall|k: int| 0 <= k < last.paths.len() implies may_delete(
                findings,
                #[trigger] last.paths[k],
            ) by {
                assert(findings[n].paths.contains(last.paths[k]));
            }
            file_fixes_are_allowed(
                last.paths,
                state,
                last.summary,
                request.files,
                files,
                findings,
                apply,
            );
        }
    }
}

proof fn commands_keep_file_changes(
    items: Seq<(Seq<char>, Seq<DependencyRemovalModel>)>,
    plan: FixPlanModel,
    manager: PackageManager,
    manifests: Seq<(Seq<char>, AnalyzedManifestModel)>,
)
    requires
        with_commands(items, plan, manager, manifests) is Ok,
    ensures
        with_commands(items, plan, manager, manifests)->Ok_0.file_changes == plan.file_changes,
    decreases items.len(),
{
    if items.len() > 0 {
        commands_keep_file_changes(items.drop_last(), plan, manager, manifests);
    }
}

/// A plan deletes no file but one that a finding says to be unused and safe to delete, and
/// removes no dependency but one that a finding says to be unused in that package and safe to
/// remove; in a mere preview it may also show removals that may not be applied.
pub proof fn plans_touch_only_what_is_safe(
    request: FixRequestModel,
    report: ScanReportModel,
    manager: Option<PackageManager>,
    manifests: Seq<(Seq<char>, AnalyzedManifestModel)>,
    apply: bool,
)
    requires
        planned_fixes(request, report, manager, manifests, apply) is Ok,
    ensures
        ({
            let selection = planned_fixes(request, report, manager, manifests, apply)->Ok_0;
            &&& forall|i: int|
                0 <= i < selection.plan.file_changes.len() ==> may_delete(
                    report.findings,
                    (#[trigger] selection.plan.file_changes[i]).path,
                )
            &&& forall|w: Seq<char>, i: int|
                0 <= i < removals_from(selection.removals, w).len() ==> may_remove(
                    report.findings,
                    w,
                    (#[trigger] removals_from(selection.removals, w)[i]).dependency.name,
                    apply,
                )
        }),
{
    let findings = report.findings;
    assert(findings =~= findings.subrange(0, findings.len() as int));
    fixes_are_allowed(findings, request, findings, report.files, manager is Some, apply);
    let chosen = with_fixes(
        findings,
        empty_selection(),
        request,
        findings,
        report.files,
        manager is Some,
        apply,
    )->Ok_0;
    let selection = planned_fixes(request, report, manager, manifests, apply)->Ok_0;
    if chosen.removals.len() > 0 {
        commands_keep_file_changes(chosen.removals, chosen.plan, manager->0, manifests);
    }
    assert(selection.removals == chosen.removals);
    assert(selection.plan.file_changes == chosen.plan.file_changes);
}

} // verus!
