//! Which files the report of a scan calls reachable, and what it finds of the others.

use crate::application::diagnostics::{any_blocks, limited_by_file, ByPlace};
use crate::application::findings::{
    declaration_findings, export_findings, file_findings, paths_of, unused_exports,
    ByFindingPlace, DeadGroupModel,
};
use crate::application::import_laws::{
    added_use, added_uses_become_edges, edges_are_what_imports_use, import_uses, told_apart,
};
use crate::application::member_results::{
    all_members, file_members, MemberOutcome, MemberResultsModel,
};
use crate::application::resolution::{
    edges_are_inside, resolved_imports, ResolutionInputModel, WithEdgesModel,
};
use crate::application::scan::{
    any_fatal, diagnostics_in, file_statuses, flattened, imports_in, is_complete, is_fatal,
    open_flags, paths_in, reachable_blocker, reachable_flags, report_of, scan_graph,
    unreachable_flags, AnalysisLimits, ScanEvidenceModel,
};
use crate::application::symbols::{symbol_links, ResolvedSymbolLink};
use crate::collections::{sorted_by, sorted_by_keeps_items, Ranking};
use crate::domain::facts::{
    AnalysisDiagnostic, AnalysisDiagnosticModel, ClassMemberFactModel, ExportBindingModel,
    FileFactsModel,
};
use crate::domain::graph::{
    components, components_hold_included_files, reached_from, reached_stays_inside, reaches,
    reaches_further, reaches_itself, uses,
};
use crate::domain::report::{FileStatus, Finding, FindingModel};
use crate::analysis::members::MemberDecisionModel;
use vstd::prelude::*;

verus! {

/// Whether the file at `from` uses the file at `to`: by one of its imports, or by a use that
/// no import shows.
pub open spec fn file_uses(
    input: ResolutionInputModel,
    evidence: ScanEvidenceModel,
    from: int,
    to: int,
) -> bool {
    ||| exists|i: int|
        0 <= i < evidence.facts[from].imports.len() && import_uses(
            input,
            #[trigger] evidence.facts[from].imports[i],
            evidence.resolutions[from][i],
            to,
        )
    ||| added_use(input.files, evidence.additional_file_edges, from, to)
}

/// Whether the entries are among the given files, and with each file all that it uses.
pub open spec fn is_closed_under_use(
    input: ResolutionInputModel,
    evidence: ScanEvidenceModel,
    entries: Seq<usize>,
    live: Seq<bool>,
) -> bool {
    &&& live.len() == input.files.len()
    &&& forall|k: int| 0 <= k < entries.len() ==> live[#[trigger] entries[k] as int]
    &&& forall|from: int, to: int|
        0 <= from < live.len() && 0 <= to < live.len() && live[from] && #[trigger] file_uses(
            input,
            evidence,
            from,
            to,
        ) ==> live[to]
}

/// Whether the entries are files of the project.
pub open spec fn are_files(input: ResolutionInputModel, entries: Seq<usize>) -> bool {
    forall|k: int| 0 <= k < entries.len() ==> #[trigger] entries[k] < input.files.len()
}

proof fn edges_are_uses(
    input: ResolutionInputModel,
    evidence: ScanEvidenceModel,
    limits: AnalysisLimits,
    entries: Seq<usize>,
    from: int,
    to: int,
)
    requires
        is_complete(input, evidence, limits, entries),
        told_apart(input.files),
        0 <= from < input.files.len(),
        0 <= to < input.files.len(),
    ensures
        scan_graph(input, evidence, limits).edges.contains((from as usize, to as usize))
            <==> file_uses(input, evidence, from, to),
{
    let limit = if limits.max_diagnostics == 0 {
        1usize
    } else {
        limits.max_diagnostics
    };
    let imports = imports_in(evidence.facts);
    let diagnostics = limited_by_file(
        paths_in(evidence.facts),
        diagnostics_in(evidence.facts),
        limit,
    );
    let resolved = resolved_imports(input, imports, diagnostics, evidence.resolutions);
    edges_are_what_imports_use(input, imports, diagnostics, evidence.resolutions, from, to);
    added_uses_become_edges(
        WithEdgesModel { edges: resolved.edges, imports: resolved.imports },
        input.files,
        evidence.additional_file_edges,
        from,
        to,
    );
    assert(imports[from] == evidence.facts[from].imports);
    if exists|i: int|
        0 <= i < imports[from].len() && import_uses(
            input,
            #[trigger] imports[from][i],
            evidence.resolutions[from][i],
            to,
        ) {
        let i = choose|i: int|
            0 <= i < imports[from].len() && import_uses(
                input,
                #[trigger] imports[from][i],
                evidence.resolutions[from][i],
                to,
            );
        assert(import_uses(
            input,
            evidence.facts[from].imports[i],
            evidence.resolutions[from][i],
            to,
        ));
    }
    if exists|i: int|
        0 <= i < evidence.facts[from].imports.len() && import_uses(
            input,
            #[trigger] evidence.facts[from].imports[i],
            evidence.resolutions[from][i],
            to,
        ) {
        let i = choose|i: int|
            0 <= i < evidence.facts[from].imports.len() && import_uses(
                input,
                #[trigger] evidence.facts[from].imports[i],
                evidence.resolutions[from][i],
                to,
            );
        assert(import_uses(input, imports[from][i], evidence.resolutions[from][i], to));
    }
}

proof fn edges_stay_inside(
    input: ResolutionInputModel,
    evidence: ScanEvidenceModel,
    limits: AnalysisLimits,
    entries: Seq<usize>,
)
    requires
        is_complete(input, evidence, limits, entries),
        input.files.len() <= usize::MAX,
    ensures
        forall|k: int|
            0 <= k < scan_graph(input, evidence, limits).edges.len() ==> (#[trigger] scan_graph(
                input,
                evidence,
                limits,
            ).edges[k]).0 < input.files.len() && scan_graph(input, evidence, limits).edges[k].1
                < input.files.len(),
        scan_graph(input, evidence, limits).diagnostics.len() == evidence.facts.len(),
        scan_graph(input, evidence, limits).imports.len() == input.files.len(),
{
    let limit = if limits.max_diagnostics == 0 {
        1usize
    } else {
        limits.max_diagnostics
    };
    let imports = imports_in(evidence.facts);
    let diagnostics = limited_by_file(
        paths_in(evidence.facts),
        diagnostics_in(evidence.facts),
        limit,
    );
    let resolved = resolved_imports(input, imports, diagnostics, evidence.resolutions);
    edges_are_inside(input, imports, diagnostics, evidence.resolutions);
    crate::application::resolution::added_edges_are_inside(
        WithEdgesModel { edges: resolved.edges, imports: resolved.imports },
        input.files,
        evidence.additional_file_edges,
    );
}

proof fn use_reaches_further(
    edges: Seq<(usize, usize)>,
    entries: Seq<usize>,
    from: usize,
    to: usize,
)
    requires
        reached_from(edges, entries, from),
        edges.contains((from, to)),
    ensures
        reached_from(edges, entries, to),
{
    let i = choose|i: int|
        0 <= i < entries.len() && reaches(uses(edges), #[trigger] entries[i], from);
    reaches_further(uses(edges), entries[i], from, to);
}

/// What a reachable file uses is not called unreachable: neither what it imports, by whatever
/// kind of import, nor what it uses without an import.
pub proof fn used_files_are_not_unreachable(
    input: ResolutionInputModel,
    evidence: ScanEvidenceModel,
    limits: AnalysisLimits,
    entries: Seq<usize>,
    from: int,
    to: int,
)
    requires
        is_complete(input, evidence, limits, entries),
        told_apart(input.files),
        0 <= from < input.files.len(),
        0 <= to < input.files.len(),
        file_uses(input, evidence, from, to),
        report_of(input, evidence, limits, entries).files[from].status == FileStatus::Reachable,
    ensures
        report_of(input, evidence, limits, entries).files[to].status != FileStatus::Unreachable,
        (forall|d: int|
            0 <= d < report_of(input, evidence, limits, entries).diagnostics.len() ==> !is_fatal(
                (#[trigger] report_of(input, evidence, limits, entries).diagnostics[d]).code,
            )) ==> report_of(input, evidence, limits, entries).files[to].status
            == FileStatus::Reachable,
{
    edges_stay_inside(input, evidence, limits, entries);
    edges_are_uses(input, evidence, limits, entries, from, to);
    let graph = scan_graph(input, evidence, limits);
    use_reaches_further(graph.edges, entries, from as usize, to as usize);
    if any_fatal(graph.diagnostics[to]) {
        let k = choose|k: int|
            0 <= k < graph.diagnostics[to].len() && is_fatal(
                (#[trigger] graph.diagnostics[to][k]).code,
            );
        own_diagnostics_are_told(input, evidence, limits, entries, to, k);
    }
}

/// An entry is never called unreachable.
pub proof fn entries_are_not_unreachable(
    input: ResolutionInputModel,
    evidence: ScanEvidenceModel,
    limits: AnalysisLimits,
    entries: Seq<usize>,
    k: int,
)
    requires
        is_complete(input, evidence, limits, entries),
        told_apart(input.files),
        are_files(input, entries),
        0 <= k < entries.len(),
    ensures
        report_of(input, evidence, limits, entries).files[entries[k] as int].status
            != FileStatus::Unreachable,
{
    edges_stay_inside(input, evidence, limits, entries);
    let graph = scan_graph(input, evidence, limits);
    reaches_itself(uses(graph.edges), entries[k]);
    assert(reached_from(graph.edges, entries, entries[k]));
}

/// Nothing is called reachable that need not be: a file that stands outside some set of files
/// which holds the entries, and with each file all that it uses, is not.
pub proof fn files_that_nothing_uses_are_not_reachable(
    input: ResolutionInputModel,
    evidence: ScanEvidenceModel,
    limits: AnalysisLimits,
    entries: Seq<usize>,
    live: Seq<bool>,
    file: int,
)
    requires
        is_complete(input, evidence, limits, entries),
        told_apart(input.files),
        are_files(input, entries),
        is_closed_under_use(input, evidence, entries, live),
        0 <= file < input.files.len(),
        !live[file],
    ensures
        report_of(input, evidence, limits, entries).files[file].status != FileStatus::Reachable,
{
    edges_stay_inside(input, evidence, limits, entries);
    let graph = scan_graph(input, evidence, limits);
    if reached_from(graph.edges, entries, file as usize) {
        let i = choose|i: int|
            0 <= i < entries.len() && reaches(
                uses(graph.edges),
                #[trigger] entries[i],
                file as usize,
            );
        let inside = |f: usize| f < live.len() && live[f as int];
        assert forall|x: usize, y: usize| #[trigger]
            inside(x) && #[trigger] uses(graph.edges)(x, y) implies inside(y) by {
            let k = choose|k: int| 0 <= k < graph.edges.len() && graph.edges[k] == (x, y);
            assert(graph.edges[k].1 < input.files.len());
            edges_are_uses(input, evidence, limits, entries, x as int, y as int);
            assert(file_uses(input, evidence, x as int, y as int));
        }
        assert(inside(entries[i]));
        reached_stays_inside(uses(graph.edges), inside, entries[i], file as usize);
    }
}

proof fn flattened_holds(items: Seq<Seq<AnalysisDiagnosticModel>>, i: int, k: int)
    requires
        0 <= i < items.len(),
        0 <= k < items[i].len(),
    ensures
        flattened(items).contains(items[i][k]),
    decreases items.len(),
{
    let front = items.drop_last();
    let rest = flattened(front);
    if i < front.len() {
        flattened_holds(front, i, k);
        let j = choose|j: int| 0 <= j < rest.len() && rest[j] == front[i][k];
        assert(flattened(items)[j] == items[i][k]);
    } else {
        assert(flattened(items)[rest.len() + k] == items[i][k]);
    }
}

proof fn members_keep_diagnostics(
    start: MemberOutcome,
    path: Seq<char>,
    members: Seq<ClassMemberFactModel>,
    decisions: Seq<MemberDecisionModel>,
)
    ensures
        start.diagnostics.is_prefix_of(
            file_members(start, path, members, decisions).diagnostics,
        ),
    decreases members.len(),
{
    if members.len() > 0 {
        members_keep_diagnostics(start, path, members.drop_last(), decisions);
        let before = file_members(start, path, members.drop_last(), decisions);
        let after = file_members(start, path, members, decisions);
        assert(start.diagnostics =~= after.diagnostics.subrange(
            0,
            start.diagnostics.len() as int,
        ));
    }
}

proof fn all_members_keep_diagnostics(
    facts: Seq<FileFactsModel>,
    reachable: Seq<bool>,
    decisions: Seq<Seq<MemberDecisionModel>>,
    diagnostics: Seq<Seq<AnalysisDiagnosticModel>>,
)
    ensures
        all_members(facts, reachable, decisions, diagnostics).diagnostics.len() == facts.len(),
        forall|i: int|
            0 <= i < facts.len() ==> diagnostics[i].is_prefix_of(
                #[trigger] all_members(facts, reachable, decisions, diagnostics).diagnostics[i],
            ),
    decreases facts.len(),
{
    if facts.len() > 0 {
        let n = facts.len() - 1;
        let rest = all_members(facts.drop_last(), reachable, decisions, diagnostics);
        all_members_keep_diagnostics(facts.drop_last(), reachable, decisions, diagnostics);
        members_keep_diagnostics(
            MemberOutcome {
                findings: rest.findings,
                retentions: rest.retentions,
                diagnostics: diagnostics[n],
            },
            facts.last().path,
            facts.last().member_facts,
            decisions[n],
        );
        let all = all_members(facts, reachable, decisions, diagnostics);
        assert forall|i: int| 0 <= i < facts.len() implies diagnostics[i].is_prefix_of(
            #[trigger] all.diagnostics[i],
        ) by {
            if i < n {
                assert(all.diagnostics[i] == rest.diagnostics[i]);
            } else {
                assert(diagnostics[n].is_prefix_of(diagnostics[n])) by {
                    assert(diagnostics[n] =~= diagnostics[n].subrange(
                        0,
                        diagnostics[n].len() as int,
                    ));
                }
            }
        }
    }
}

/// What is sorted is held as before.
pub proof fn sorted_items_stay<T: DeepView, R: Ranking<T>>(items: Seq<T::V>, item: T::V)
    ensures
        sorted_by::<T, R>(items).contains(item) <==> items.contains(item),
{
    broadcast use vstd::seq_lib::group_to_multiset_ensures;

    sorted_by_keeps_items::<T, R>(items);
    assert(items.contains(item) <==> items.to_multiset().count(item) > 0);
    assert(sorted_by::<T, R>(items).contains(item) <==> sorted_by::<T, R>(
        items,
    ).to_multiset().count(item) > 0);
}

proof fn own_diagnostics_are_told(
    input: ResolutionInputModel,
    evidence: ScanEvidenceModel,
    limits: AnalysisLimits,
    entries: Seq<usize>,
    file: int,
    k: int,
)
    requires
        is_complete(input, evidence, limits, entries),
        input.files.len() <= usize::MAX,
        0 <= file < input.files.len(),
        0 <= k < scan_graph(input, evidence, limits).diagnostics[file].len(),
    ensures
        exists|d: int|
            0 <= d < report_of(input, evidence, limits, entries).diagnostics.len() && (
            #[trigger] report_of(input, evidence, limits, entries).diagnostics[d]) == scan_graph(
                input,
                evidence,
                limits,
            ).diagnostics[file][k],
{
    edges_stay_inside(input, evidence, limits, entries);
    let facts = evidence.facts;
    let graph = scan_graph(input, evidence, limits);
    let reachable = reachable_flags(facts.len(), graph.edges, entries);
    let blocked = reachable_blocker(graph.diagnostics, reachable);
    let members = all_members(facts, reachable, evidence.member_decisions, graph.diagnostics);
    all_members_keep_diagnostics(facts, reachable, evidence.member_decisions, graph.diagnostics);
    let x = graph.diagnostics[file][k];
    let told = if blocked {
        graph.diagnostics
    } else {
        members.diagnostics
    };
    assert(graph.diagnostics[file].is_prefix_of(members.diagnostics[file]));
    assert(told[file][k] == x);
    flattened_holds(told, file, k);
    sorted_items_stay::<AnalysisDiagnostic, ByPlace>(flattened(told), x);
    let report = report_of(input, evidence, limits, entries);
    assert(report.diagnostics.contains(x));
    let d = choose|d: int| 0 <= d < report.diagnostics.len() && report.diagnostics[d] == x;
    assert(report.diagnostics[d] == x);
}

/// Where the diagnostics of a report tell of no gap and of no file that could not be read,
/// every file is called reachable or unreachable.
pub proof fn without_gaps_every_file_is_decided(
    input: ResolutionInputModel,
    evidence: ScanEvidenceModel,
    limits: AnalysisLimits,
    entries: Seq<usize>,
    file: int,
)
    requires
        is_complete(input, evidence, limits, entries),
        input.files.len() <= usize::MAX,
        0 <= file < input.files.len(),
        forall|d: int|
            0 <= d < report_of(input, evidence, limits, entries).diagnostics.len() ==> !(
            #[trigger] report_of(input, evidence, limits, entries).diagnostics[d]).blocks_reachability
                && !is_fatal(report_of(input, evidence, limits, entries).diagnostics[d].code),
    ensures
        report_of(input, evidence, limits, entries).files[file].status != FileStatus::Incomplete,
{
    edges_stay_inside(input, evidence, limits, entries);
    let graph = scan_graph(input, evidence, limits);
    let reachable = reachable_flags(evidence.facts.len(), graph.edges, entries);
    if any_fatal(graph.diagnostics[file]) {
        let k = choose|k: int|
            0 <= k < graph.diagnostics[file].len() && is_fatal(
                (#[trigger] graph.diagnostics[file][k]).code,
            );
        own_diagnostics_are_told(input, evidence, limits, entries, file, k);
    }
    if reachable_blocker(graph.diagnostics, reachable) {
        let i = choose|i: int|
            0 <= i < graph.diagnostics.len() && reachable[i] && any_blocks(
                #[trigger] graph.diagnostics[i],
            );
        let k = choose|k: int|
            0 <= k < graph.diagnostics[i].len() && (
            #[trigger] graph.diagnostics[i][k]).blocks_reachability;
        own_diagnostics_are_told(input, evidence, limits, entries, i, k);
    }
}

proof fn export_findings_are_called(
    items: Seq<ExportBindingModel>,
    path: Seq<char>,
    file: usize,
    links: Seq<ResolvedSymbolLink>,
)
    ensures
        forall|i: int|
            0 <= i < unused_exports(items, path, file, links).len() ==> (
            #[trigger] unused_exports(items, path, file, links)[i]).issue_id == "ORP1002"@,
    decreases items.len(),
{
    if items.len() > 0 {
        export_findings_are_called(items.drop_last(), path, file, links);
    }
}

proof fn all_export_findings_are_called(
    items: Seq<FileFactsModel>,
    reachable: Seq<bool>,
    open: Seq<bool>,
    complete: Seq<bool>,
    links: Seq<ResolvedSymbolLink>,
)
    ensures
        forall|i: int|
            0 <= i < export_findings(items, reachable, open, complete, links).len() ==> (
            #[trigger] export_findings(items, reachable, open, complete, links)[i]).issue_id
                == "ORP1002"@,
    decreases items.len(),
{
    if items.len() > 0 {
        all_export_findings_are_called(items.drop_last(), reachable, open, complete, links);
        export_findings_are_called(
            items.last().symbol_facts.exports,
            items.last().path,
            (items.len() - 1) as usize,
            links,
        );
    }
}

proof fn declaration_findings_are_called(items: Seq<DeadGroupModel>, facts: Seq<FileFactsModel>)
    ensures
        forall|i: int|
            0 <= i < declaration_findings(items, facts).len() ==> (
            #[trigger] declaration_findings(items, facts)[i]).issue_id == "ORP1003"@,
    decreases items.len(),
{
    if items.len() > 0 {
        declaration_findings_are_called(items.drop_last(), facts);
    }
}

proof fn file_member_findings_are_called(
    start: MemberOutcome,
    path: Seq<char>,
    members: Seq<ClassMemberFactModel>,
    decisions: Seq<MemberDecisionModel>,
)
    requires
        forall|i: int|
            0 <= i < start.findings.len() ==> (#[trigger] start.findings[i]).issue_id
                == "ORP1004"@,
    ensures
        forall|i: int|
            0 <= i < file_members(start, path, members, decisions).findings.len() ==> (
            #[trigger] file_members(start, path, members, decisions).findings[i]).issue_id
                == "ORP1004"@,
    decreases members.len(),
{
    if members.len() > 0 {
        file_member_findings_are_called(start, path, members.drop_last(), decisions);
    }
}

proof fn member_findings_are_called(
    facts: Seq<FileFactsModel>,
    reachable: Seq<bool>,
    decisions: Seq<Seq<MemberDecisionModel>>,
    diagnostics: Seq<Seq<AnalysisDiagnosticModel>>,
)
    ensures
        forall|i: int|
            0 <= i < all_members(facts, reachable, decisions, diagnostics).findings.len() ==> (
            #[trigger] all_members(facts, reachable, decisions, diagnostics).findings[i]).issue_id
                == "ORP1004"@,
    decreases facts.len(),
{
    if facts.len() > 0 {
        let n = facts.len() - 1;
        let rest = all_members(facts.drop_last(), reachable, decisions, diagnostics);
        member_findings_are_called(facts.drop_last(), reachable, decisions, diagnostics);
        file_member_findings_are_called(
            MemberOutcome {
                findings: rest.findings,
                retentions: rest.retentions,
                diagnostics: diagnostics[n],
            },
            facts.last().path,
            facts.last().member_facts,
            decisions[n],
        );
    }
}

/// Whether something that is in use stands in the way of conclusions.
pub open spec fn is_blocked(
    input: ResolutionInputModel,
    evidence: ScanEvidenceModel,
    limits: AnalysisLimits,
    entries: Seq<usize>,
) -> bool {
    let graph = scan_graph(input, evidence, limits);
    reachable_blocker(
        graph.diagnostics,
        reachable_flags(evidence.facts.len(), graph.edges, entries),
    )
}

/// The groups of files that nothing in use reaches.
pub open spec fn dead_files(
    input: ResolutionInputModel,
    evidence: ScanEvidenceModel,
    limits: AnalysisLimits,
    entries: Seq<usize>,
) -> Seq<Seq<usize>> {
    let graph = scan_graph(input, evidence, limits);
    let reachable = reachable_flags(evidence.facts.len(), graph.edges, entries);
    let statuses = file_statuses(
        graph.diagnostics,
        reachable,
        reachable_blocker(graph.diagnostics, reachable),
    );
    components(graph.edges, unreachable_flags(statuses), statuses.len())
}

/// The findings of a scan about exports.
pub open spec fn dead_exports(
    input: ResolutionInputModel,
    evidence: ScanEvidenceModel,
    limits: AnalysisLimits,
    entries: Seq<usize>,
) -> Seq<FindingModel> {
    let graph = scan_graph(input, evidence, limits);
    export_findings(
        evidence.facts,
        reachable_flags(evidence.facts.len(), graph.edges, entries),
        open_flags(
            evidence.facts,
            entries,
            evidence.manifest_open_world,
            evidence.open_world_entries,
        ),
        evidence.symbol_analysis.exports_complete,
        symbol_links(evidence.facts, graph.imports),
    )
}

/// What a scan says of members.
pub open spec fn judged_members(
    input: ResolutionInputModel,
    evidence: ScanEvidenceModel,
    limits: AnalysisLimits,
    entries: Seq<usize>,
) -> MemberResultsModel {
    let graph = scan_graph(input, evidence, limits);
    all_members(
        evidence.facts,
        reachable_flags(evidence.facts.len(), graph.edges, entries),
        evidence.member_decisions,
        graph.diagnostics,
    )
}

/// The findings of a report are told apart by what they are called: what is called a finding
/// about files, exports, declarations or members comes from where those are looked for.
pub proof fn findings_come_from_where_they_are_looked_for(
    input: ResolutionInputModel,
    evidence: ScanEvidenceModel,
    limits: AnalysisLimits,
    entries: Seq<usize>,
    finding: FindingModel,
)
    ensures
        ({
            let found = report_of(input, evidence, limits, entries).findings.contains(finding);
            let free = !is_blocked(input, evidence, limits, entries);
            let names = entries.map_values(
                |entry: usize| paths_in(evidence.facts)[entry as int],
            );
            &&& finding.issue_id == "ORP1001"@ ==> (found <==> free && file_findings(
                dead_files(input, evidence, limits, entries),
                paths_in(evidence.facts),
                names,
            ).contains(finding))
            &&& finding.issue_id == "ORP1002"@ ==> (found <==> free && dead_exports(
                input,
                evidence,
                limits,
                entries,
            ).contains(finding))
            &&& finding.issue_id == "ORP1003"@ ==> (found <==> free && declaration_findings(
                evidence.symbol_analysis.dead_groups,
                evidence.facts,
            ).contains(finding))
            &&& finding.issue_id == "ORP1004"@ ==> (found <==> free && judged_members(
                input,
                evidence,
                limits,
                entries,
            ).findings.contains(finding))
        }),
{
    reveal_strlit("ORP1001");
    reveal_strlit("ORP1002");
    reveal_strlit("ORP1003");
    reveal_strlit("ORP1004");
    assert("ORP1001"@[6] == '1' && "ORP1002"@[6] == '2' && "ORP1003"@[6] == '3' && "ORP1004"@[6]
        == '4');
    let facts = evidence.facts;
    let graph = scan_graph(input, evidence, limits);
    let reachable = reachable_flags(facts.len(), graph.edges, entries);
    let open = open_flags(
        facts,
        entries,
        evidence.manifest_open_world,
        evidence.open_world_entries,
    );
    let complete = evidence.symbol_analysis.exports_complete;
    let links = symbol_links(facts, graph.imports);
    let names = entries.map_values(|entry: usize| paths_in(facts)[entry as int]);
    let files = file_findings(
        dead_files(input, evidence, limits, entries),
        paths_in(facts),
        names,
    );
    let exports = export_findings(facts, reachable, open, complete, links);
    let declarations = declaration_findings(evidence.symbol_analysis.dead_groups, facts);
    let members = all_members(facts, reachable, evidence.member_decisions, graph.diagnostics);
    all_export_findings_are_called(facts, reachable, open, complete, links);
    declaration_findings_are_called(evidence.symbol_analysis.dead_groups, facts);
    member_findings_are_called(facts, reachable, evidence.member_decisions, graph.diagnostics);
    let more = exports + declarations;
    let some = files + more;
    let all = some + members.findings;
    sorted_items_stay::<Finding, ByFindingPlace>(all, finding);
    joined_hold(exports, declarations, finding);
    joined_hold(files, more, finding);
    joined_hold(some, members.findings, finding);
    assert(all == files + more + members.findings);
}

proof fn joined_hold(a: Seq<FindingModel>, b: Seq<FindingModel>, x: FindingModel)
    ensures
        (a + b).contains(x) <==> a.contains(x) || b.contains(x),
{
    if a.contains(x) {
        let i = choose|i: int| 0 <= i < a.len() && a[i] == x;
        assert((a + b)[i] == x);
    }
    if b.contains(x) {
        let i = choose|i: int| 0 <= i < b.len() && b[i] == x;
        assert((a + b)[a.len() + i] == x);
    }
}

/// What a finding says to be unreachable files are files that the report calls unreachable: a
/// file that is in use is not among them.
pub proof fn unreachable_findings_name_unreachable_files(
    input: ResolutionInputModel,
    evidence: ScanEvidenceModel,
    limits: AnalysisLimits,
    entries: Seq<usize>,
    f: int,
    k: int,
)
    requires
        is_complete(input, evidence, limits, entries),
        input.files.len() <= usize::MAX,
        0 <= f < report_of(input, evidence, limits, entries).findings.len(),
        report_of(input, evidence, limits, entries).findings[f].issue_id == "ORP1001"@,
        0 <= k < report_of(input, evidence, limits, entries).findings[f].paths.len(),
    ensures
        exists|file: int|
            #![trigger report_of(input, evidence, limits, entries).files[file]]
            0 <= file < evidence.facts.len() && {
                let report = report_of(input, evidence, limits, entries);
                report.files[file].status == FileStatus::Unreachable
                    && report.files[file].path == report.findings[f].paths[k]
            },
{
    edges_stay_inside(input, evidence, limits, entries);
    let report = report_of(input, evidence, limits, entries);
    let finding = report.findings[f];
    findings_come_from_where_they_are_looked_for(input, evidence, limits, entries, finding);
    assert(report.findings.contains(finding));
    let facts = evidence.facts;
    let names = entries.map_values(|entry: usize| paths_in(facts)[entry as int]);
    let groups = dead_files(input, evidence, limits, entries);
    let found = file_findings(groups, paths_in(facts), names);
    let g = choose|g: int| 0 <= g < found.len() && found[g] == finding;
    assert(finding.paths == paths_of(groups[g], paths_in(facts)));
    let graph = scan_graph(input, evidence, limits);
    let reachable = reachable_flags(facts.len(), graph.edges, entries);
    let statuses = file_statuses(
        graph.diagnostics,
        reachable,
        reachable_blocker(graph.diagnostics, reachable),
    );
    let dead = unreachable_flags(statuses);
    components_hold_included_files(graph.edges, dead, dead.len());
    let file = groups[g][k];
    assert(components(graph.edges, dead, dead.len())[g][k] == file);
    assert(file < dead.len() && dead[file as int]);
    assert(statuses[file as int] == FileStatus::Unreachable);
    assert(report.files[file as int].path == facts[file as int].path);
}

/// Where the diagnostics of a report tell of no gap, nothing stands in the way of conclusions.
pub proof fn nothing_blocks_where_no_gap_is_told(
    input: ResolutionInputModel,
    evidence: ScanEvidenceModel,
    limits: AnalysisLimits,
    entries: Seq<usize>,
)
    requires
        is_complete(input, evidence, limits, entries),
        input.files.len() <= usize::MAX,
        forall|d: int|
            0 <= d < report_of(input, evidence, limits, entries).diagnostics.len() ==> !(
            #[trigger] report_of(input, evidence, limits, entries).diagnostics[d]).blocks_reachability,
    ensures
        !is_blocked(input, evidence, limits, entries),
{
    edges_stay_inside(input, evidence, limits, entries);
    let graph = scan_graph(input, evidence, limits);
    let reachable = reachable_flags(evidence.facts.len(), graph.edges, entries);
    if reachable_blocker(graph.diagnostics, reachable) {
        let i = choose|i: int|
            0 <= i < graph.diagnostics.len() && reachable[i] && any_blocks(
                #[trigger] graph.diagnostics[i],
            );
        let k = choose|k: int|
            0 <= k < graph.diagnostics[i].len() && (
            #[trigger] graph.diagnostics[i][k]).blocks_reachability;
        own_diagnostics_are_told(input, evidence, limits, entries, i, k);
    }
}

/// A file that the report calls reachable is reached from an entry.
pub proof fn reachable_files_are_reached(
    input: ResolutionInputModel,
    evidence: ScanEvidenceModel,
    limits: AnalysisLimits,
    entries: Seq<usize>,
    file: int,
)
    requires
        is_complete(input, evidence, limits, entries),
        input.files.len() <= usize::MAX,
        0 <= file < input.files.len(),
        report_of(input, evidence, limits, entries).files[file].status == FileStatus::Reachable,
    ensures
        reached_from(scan_graph(input, evidence, limits).edges, entries, file as usize),
{
    edges_stay_inside(input, evidence, limits, entries);
}

/// The report has the rows of the imports of every file.
pub proof fn rows_are_for_every_file(
    input: ResolutionInputModel,
    evidence: ScanEvidenceModel,
    limits: AnalysisLimits,
    entries: Seq<usize>,
)
    requires
        is_complete(input, evidence, limits, entries),
        input.files.len() <= usize::MAX,
    ensures
        scan_graph(input, evidence, limits).imports.len() == input.files.len(),
        report_of(input, evidence, limits, entries).files.len() == input.files.len(),
        forall|i: int|
            0 <= i < input.files.len() ==> (#[trigger] report_of(
                input,
                evidence,
                limits,
                entries,
            ).files[i]).imports == scan_graph(input, evidence, limits).imports[i],
{
    edges_stay_inside(input, evidence, limits, entries);
}

} // verus!
