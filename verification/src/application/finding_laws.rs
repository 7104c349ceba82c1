//! Which declarations and members are reported as unused.

use crate::analysis::members::MemberDecisionModel;
use crate::application::findings::{
    declaration_findings, declared_member, declared_members, flag_at, group_members,
    symbol_with_id, unused_declaration, ByDeclaration, DeadGroupModel, DeadMember,
    DeadMemberModel,
};
use crate::application::member_results::{all_members, file_members, MemberOutcome};
use crate::application::resolution::ResolutionInputModel;
use crate::application::scan::{
    is_complete, reachable_flags, report_of, scan_graph, AnalysisLimits, ScanEvidenceModel,
};
use crate::application::scan_laws::{
    findings_come_from_where_they_are_looked_for, judged_members,
    nothing_blocks_where_no_gap_is_told, reachable_files_are_reached, sorted_items_stay,
};
use crate::application::symbols::SymbolKey;
use crate::collections::collected_is_ordered;
use crate::domain::facts::{
    AnalysisDiagnosticModel, ClassMemberFactModel, DeclarationKind, FileFactsModel,
    SymbolFactModel,
};
use crate::domain::ids::SymbolId;
use crate::domain::report::{FileStatus, FindingModel};
use vstd::prelude::*;

verus! {

/// Whether a finding says that nothing uses the member of the file at `path`.
pub open spec fn says_unused(
    finding: FindingModel,
    path: Seq<char>,
    member: ClassMemberFactModel,
) -> bool {
    &&& finding.issue_id == "ORP1004"@
    &&& finding.paths == seq![path]
    &&& finding.span == Some(member.span)
    &&& finding.symbol == Some(member.declaring_class + "."@ + member.name)
}

proof fn decided_members_are_found(
    start: MemberOutcome,
    path: Seq<char>,
    members: Seq<ClassMemberFactModel>,
    decisions: Seq<MemberDecisionModel>,
)
    requires
        members.len() <= decisions.len(),
    ensures
        ({
            let after = file_members(start, path, members, decisions).findings;
            &&& start.findings.is_prefix_of(after)
            &&& forall|k: int|
                0 <= k < members.len() && (#[trigger] decisions[k]) is Finding ==> exists|f: int|
                    start.findings.len() <= f < after.len() && says_unused(
                        #[trigger] after[f],
                        path,
                        members[k],
                    )
        }),
    decreases members.len(),
{
    if members.len() > 0 {
        let front = members.drop_last();
        decided_members_are_found(start, path, front, decisions);
        let before = file_members(start, path, front, decisions).findings;
        let after = file_members(start, path, members, decisions).findings;
        let n = members.len() - 1;
        assert(before.is_prefix_of(after)) by {
            assert(before =~= after.subrange(0, before.len() as int));
        }
        assert(start.findings =~= after.subrange(0, start.findings.len() as int)) by {
            assert(start.findings =~= before.subrange(0, start.findings.len() as int));
        }
        assert forall|k: int| 0 <= k < members.len() && (
        #[trigger] decisions[k]) is Finding implies exists|f: int|
            start.findings.len() <= f < after.len() && says_unused(
                #[trigger] after[f],
                path,
                members[k],
            ) by {
            if k < n {
                assert(front[k] == members[k]);
                let f = choose|f: int|
                    start.findings.len() <= f < before.len() && says_unused(
                        #[trigger] before[f],
                        path,
                        front[k],
                    );
                assert(after[f] == before[f]);
                assert(says_unused(after[f], path, members[k]));
            } else {
                assert(says_unused(after[before.len() as int], path, members[k]));
            }
        }
    } else {
        assert(start.findings =~= start.findings.subrange(0, start.findings.len() as int));
    }
}

proof fn found_members_were_decided(
    start: MemberOutcome,
    path: Seq<char>,
    members: Seq<ClassMemberFactModel>,
    decisions: Seq<MemberDecisionModel>,
    f: int,
) -> (k: int)
    requires
        members.len() <= decisions.len(),
        start.findings.len() <= f < file_members(start, path, members, decisions).findings.len(),
    ensures
        0 <= k < members.len(),
        decisions[k] is Finding,
        says_unused(file_members(start, path, members, decisions).findings[f], path, members[k]),
    decreases members.len(),
{
    let front = members.drop_last();
    let before = file_members(start, path, front, decisions).findings;
    decided_members_are_found(start, path, front, decisions);
    if f < before.len() {
        found_members_were_decided(start, path, front, decisions, f)
    } else {
        members.len() - 1
    }
}

proof fn all_decided_members_are_found(
    facts: Seq<FileFactsModel>,
    reachable: Seq<bool>,
    decisions: Seq<Seq<MemberDecisionModel>>,
    diagnostics: Seq<Seq<AnalysisDiagnosticModel>>,
    i: int,
    k: int,
)
    requires
        0 <= i < facts.len(),
        i < reachable.len(),
        reachable[i],
        forall|j: int|
            0 <= j < facts.len() && j < reachable.len() && reachable[j] ==> (
            #[trigger] facts[j]).member_facts.len() <= decisions[j].len(),
        0 <= k < facts[i].member_facts.len(),
        decisions[i][k] is Finding,
    ensures
        exists|f: int|
            0 <= f < all_members(facts, reachable, decisions, diagnostics).findings.len()
                && says_unused(
                #[trigger] all_members(facts, reachable, decisions, diagnostics).findings[f],
                facts[i].path,
                facts[i].member_facts[k],
            ),
    decreases facts.len(),
{
    let front = facts.drop_last();
    let n = facts.len() - 1;
    let rest = all_members(front, reachable, decisions, diagnostics);
    let all = all_members(facts, reachable, decisions, diagnostics).findings;
    let start = MemberOutcome {
        findings: rest.findings,
        retentions: rest.retentions,
        diagnostics: diagnostics[n],
    };
    assert(facts[n] == facts.last());
    if flag_at(reachable, n) {
        decided_members_are_found(start, facts.last().path, facts.last().member_facts, decisions[n]);
    }
    if i < n {
        assert(front[i] == facts[i]);
        assert forall|j: int|
            0 <= j < front.len() && j < reachable.len() && reachable[j] implies (
        #[trigger] front[j]).member_facts.len() <= decisions[j].len() by {
            assert(facts[j].member_facts.len() <= decisions[j].len());
        }
        all_decided_members_are_found(front, reachable, decisions, diagnostics, i, k);
        let f = choose|f: int|
            0 <= f < rest.findings.len() && says_unused(
                #[trigger] all_members(front, reachable, decisions, diagnostics).findings[f],
                front[i].path,
                front[i].member_facts[k],
            );
        assert(all[f] == rest.findings[f]) by {
            if flag_at(reachable, n) {
                assert(all.subrange(0, rest.findings.len() as int)[f] == rest.findings[f]);
            }
        }
        assert(says_unused(all[f], facts[i].path, facts[i].member_facts[k]));
    } else {
        assert(decisions[n][k] is Finding);
        let f = choose|f: int|
            start.findings.len() <= f < all.len() && says_unused(
                #[trigger] all[f],
                facts[n].path,
                facts[n].member_facts[k],
            );
        assert(says_unused(all[f], facts[i].path, facts[i].member_facts[k]));
    }
}

proof fn all_found_members_were_decided(
    facts: Seq<FileFactsModel>,
    reachable: Seq<bool>,
    decisions: Seq<Seq<MemberDecisionModel>>,
    diagnostics: Seq<Seq<AnalysisDiagnosticModel>>,
    f: int,
) -> (found: (int, int))
    requires
        forall|j: int|
            0 <= j < facts.len() && j < reachable.len() && reachable[j] ==> (
            #[trigger] facts[j]).member_facts.len() <= decisions[j].len(),
        0 <= f < all_members(facts, reachable, decisions, diagnostics).findings.len(),
    ensures
        0 <= found.0 < facts.len(),
        found.0 < reachable.len() && reachable[found.0],
        0 <= found.1 < facts[found.0].member_facts.len(),
        decisions[found.0][found.1] is Finding,
        says_unused(
            all_members(facts, reachable, decisions, diagnostics).findings[f],
            facts[found.0].path,
            facts[found.0].member_facts[found.1],
        ),
    decreases facts.len(),
{
    let front = facts.drop_last();
    let n = facts.len() - 1;
    let rest = all_members(front, reachable, decisions, diagnostics);
    let all = all_members(facts, reachable, decisions, diagnostics).findings;
    let start = MemberOutcome {
        findings: rest.findings,
        retentions: rest.retentions,
        diagnostics: diagnostics[n],
    };
    assert(facts[n] == facts.last());
    if flag_at(reachable, n) {
        decided_members_are_found(start, facts.last().path, facts.last().member_facts, decisions[n]);
    }
    if f < rest.findings.len() {
        assert forall|j: int|
            0 <= j < front.len() && j < reachable.len() && reachable[j] implies (
        #[trigger] front[j]).member_facts.len() <= decisions[j].len() by {
            assert(facts[j].member_facts.len() <= decisions[j].len());
        }
        let found = all_found_members_were_decided(front, reachable, decisions, diagnostics, f);
        assert(front[found.0] == facts[found.0]);
        assert(all[f] == rest.findings[f]) by {
            if flag_at(reachable, n) {
                assert(all.subrange(0, rest.findings.len() as int)[f] == rest.findings[f]);
            }
        }
        found
    } else {
        let k = found_members_were_decided(
            start,
            facts.last().path,
            facts.last().member_facts,
            decisions[n],
            f,
        );
        (n, k)
    }
}

/// In a report without gaps, every member of a reachable file on which the decision is that it
/// is unused is reported.
pub proof fn unused_members_are_reported(
    input: ResolutionInputModel,
    evidence: ScanEvidenceModel,
    limits: AnalysisLimits,
    entries: Seq<usize>,
    file: int,
    k: int,
)
    requires
        is_complete(input, evidence, limits, entries),
        input.files.len() <= usize::MAX,
        0 <= file < input.files.len(),
        0 <= k < evidence.facts[file].member_facts.len(),
        evidence.member_decisions[file][k] is Finding,
        report_of(input, evidence, limits, entries).files[file].status == FileStatus::Reachable,
        forall|d: int|
            0 <= d < report_of(input, evidence, limits, entries).diagnostics.len() ==> !(
            #[trigger] report_of(input, evidence, limits, entries).diagnostics[d]).blocks_reachability,
    ensures
        exists|f: int|
            0 <= f < report_of(input, evidence, limits, entries).findings.len() && says_unused(
                #[trigger] report_of(input, evidence, limits, entries).findings[f],
                evidence.facts[file].path,
                evidence.facts[file].member_facts[k],
            ),
{
    nothing_blocks_where_no_gap_is_told(input, evidence, limits, entries);
    reachable_files_are_reached(input, evidence, limits, entries, file);
    let graph = scan_graph(input, evidence, limits);
    let reachable = reachable_flags(evidence.facts.len(), graph.edges, entries);
    assert(reachable[file]);
    assert forall|j: int|
        0 <= j < evidence.facts.len() && j < reachable.len() && reachable[j] implies (
    #[trigger] evidence.facts[j]).member_facts.len() <= evidence.member_decisions[j].len() by {
        assert(evidence.member_decisions[j].len() == evidence.facts[j].member_facts.len());
    }
    all_decided_members_are_found(
        evidence.facts,
        reachable,
        evidence.member_decisions,
        graph.diagnostics,
        file,
        k,
    );
    let all = judged_members(input, evidence, limits, entries).findings;
    let f = choose|f: int|
        0 <= f < all.len() && says_unused(
            #[trigger] all_members(
                evidence.facts,
                reachable,
                evidence.member_decisions,
                graph.diagnostics,
            ).findings[f],
            evidence.facts[file].path,
            evidence.facts[file].member_facts[k],
        );
    assert(all.contains(all[f]));
    findings_come_from_where_they_are_looked_for(input, evidence, limits, entries, all[f]);
    let report = report_of(input, evidence, limits, entries);
    let g = choose|g: int| 0 <= g < report.findings.len() && report.findings[g] == all[f];
    assert(says_unused(
        report.findings[g],
        evidence.facts[file].path,
        evidence.facts[file].member_facts[k],
    ));
}

/// What is reported as an unused member is a member of a file that is not unreachable, on which
/// the decision is that it is unused: what is retained or left open is not reported.
pub proof fn reported_members_are_unused(
    input: ResolutionInputModel,
    evidence: ScanEvidenceModel,
    limits: AnalysisLimits,
    entries: Seq<usize>,
    f: int,
) -> (found: (int, int))
    requires
        is_complete(input, evidence, limits, entries),
        input.files.len() <= usize::MAX,
        0 <= f < report_of(input, evidence, limits, entries).findings.len(),
        report_of(input, evidence, limits, entries).findings[f].issue_id == "ORP1004"@,
    ensures
        0 <= found.0 < input.files.len(),
        report_of(input, evidence, limits, entries).files[found.0].status
            != FileStatus::Unreachable,
        0 <= found.1 < evidence.facts[found.0].member_facts.len(),
        evidence.member_decisions[found.0][found.1] is Finding,
        says_unused(
            report_of(input, evidence, limits, entries).findings[f],
            evidence.facts[found.0].path,
            evidence.facts[found.0].member_facts[found.1],
        ),
{
    let report = report_of(input, evidence, limits, entries);
    let graph = scan_graph(input, evidence, limits);
    let reachable = reachable_flags(evidence.facts.len(), graph.edges, entries);
    let finding = report.findings[f];
    assert(report.findings.contains(finding));
    findings_come_from_where_they_are_looked_for(input, evidence, limits, entries, finding);
    let all = judged_members(input, evidence, limits, entries).findings;
    let g = choose|g: int| 0 <= g < all.len() && all[g] == finding;
    assert forall|j: int|
        0 <= j < evidence.facts.len() && j < reachable.len() && reachable[j] implies (
    #[trigger] evidence.facts[j]).member_facts.len() <= evidence.member_decisions[j].len() by {
        assert(evidence.member_decisions[j].len() == evidence.facts[j].member_facts.len());
    }
    let found = all_found_members_were_decided(
        evidence.facts,
        reachable,
        evidence.member_decisions,
        graph.diagnostics,
        g,
    );
    crate::application::scan::statuses_follow_reachability(
        input,
        evidence,
        limits,
        entries,
        found.0,
    );
    found
}

/// Whether the symbol is declared in a file of the project, and not by an import.
pub open spec fn is_declared_here(facts: Seq<FileFactsModel>, key: SymbolKey) -> bool {
    key.file < facts.len() && exists|s: int|
        0 <= s < facts[key.file as int].symbol_facts.symbols.len() && {
            let symbol = #[trigger] facts[key.file as int].symbol_facts.symbols[s];
            &&& symbol.id == key.symbol
            &&& symbol.kind != DeclarationKind::Import
            &&& forall|r: int|
                0 <= r < s ==> (#[trigger] facts[key.file as int].symbol_facts.symbols[r]).id
                    != key.symbol
        }
}

proof fn symbol_is_first(items: Seq<SymbolFactModel>, id: SymbolId)
    ensures
        match symbol_with_id(items, id) {
            Some(symbol) => exists|s: int|
                0 <= s < items.len() && #[trigger] items[s] == symbol && symbol.id == id && forall|
                    r: int,
                |
                    0 <= r < s ==> (#[trigger] items[r]).id != id,
            None => forall|r: int| 0 <= r < items.len() ==> (#[trigger] items[r]).id != id,
        },
    decreases items.len(),
{
    if items.len() > 0 {
        let front = items.drop_last();
        symbol_is_first(front, id);
        assert forall|r: int| 0 <= r < front.len() implies #[trigger] items[r] == front[r] by {}
        match symbol_with_id(front, id) {
            Some(symbol) => {
                let s = choose|s: int|
                    0 <= s < front.len() && #[trigger] front[s] == symbol && symbol.id == id
                        && forall|r: int| 0 <= r < s ==> (#[trigger] front[r]).id != id;
                assert(items[s] == symbol);
            },
            None => {
                assert(items[items.len() - 1] == items.last());
            },
        }
    }
}

proof fn declared_members_are_here(facts: Seq<FileFactsModel>, key: SymbolKey)
    ensures
        declared_member(facts, key) is Some <==> is_declared_here(facts, key),
        declared_member(facts, key) matches Some(member) ==> member.path
            == facts[key.file as int].path && member.key == key,
{
    if key.file < facts.len() {
        let items = facts[key.file as int].symbol_facts.symbols;
        symbol_is_first(items, key.symbol);
        match symbol_with_id(items, key.symbol) {
            Some(symbol) => {
                let s = choose|s: int|
                    0 <= s < items.len() && #[trigger] items[s] == symbol && symbol.id == key.symbol
                        && forall|r: int| 0 <= r < s ==> (#[trigger] items[r]).id != key.symbol;
                assert(facts[key.file as int].symbol_facts.symbols[s] == symbol);
                if is_declared_here(facts, key) {
                    let u = choose|u: int|
                        0 <= u < facts[key.file as int].symbol_facts.symbols.len() && {
                            let symbol = #[trigger] facts[key.file as int].symbol_facts.symbols[u];
                            &&& symbol.id == key.symbol
                            &&& symbol.kind != DeclarationKind::Import
                            &&& forall|r: int|
                                0 <= r < u ==> (
                                #[trigger] facts[key.file as int].symbol_facts.symbols[r]).id
                                    != key.symbol
                        };
                    assert(!(u < s)) by {
                        if u < s {
                            assert(items[u].id != key.symbol);
                        }
                    }
                    assert(!(s < u)) by {
                        if s < u {
                            assert(facts[key.file as int].symbol_facts.symbols[s].id != key.symbol);
                        }
                    }
                }
            },
            None => {
                if is_declared_here(facts, key) {
                    let u = choose|u: int|
                        0 <= u < facts[key.file as int].symbol_facts.symbols.len() && {
                            let symbol = #[trigger] facts[key.file as int].symbol_facts.symbols[u];
                            &&& symbol.id == key.symbol
                            &&& symbol.kind != DeclarationKind::Import
                            &&& forall|r: int|
                                0 <= r < u ==> (
                                #[trigger] facts[key.file as int].symbol_facts.symbols[r]).id
                                    != key.symbol
                        };
                    assert(items[u].id == key.symbol);
                }
            },
        }
    }
}

proof fn declared_members_hold(items: Seq<SymbolKey>, facts: Seq<FileFactsModel>, k: int)
    requires
        0 <= k < items.len(),
        declared_member(facts, items[k]) is Some,
    ensures
        declared_members(items, facts).contains(declared_member(facts, items[k])->0),
    decreases items.len(),
{
    let front = items.drop_last();
    let rest = declared_members(front, facts);
    let all = declared_members(items, facts);
    let member = declared_member(facts, items[k])->0;
    if k < front.len() {
        declared_members_hold(front, facts, k);
        let j = choose|j: int| 0 <= j < rest.len() && rest[j] == member;
        assert(all[j] == member);
    } else {
        assert(all[all.len() - 1] == member);
    }
}

/// A group of symbols that nothing in use reaches is reported where one of them is declared in
/// the project and not by an import, and the files of all such symbols are named.
pub proof fn dead_declarations_are_reported(
    groups: Seq<DeadGroupModel>,
    facts: Seq<FileFactsModel>,
    g: int,
    k: int,
)
    requires
        0 <= g < groups.len(),
        0 <= k < groups[g].members.len(),
        is_declared_here(facts, groups[g].members[k]),
    ensures
        exists|f: int|
            0 <= f < declaration_findings(groups, facts).len() && (
            #[trigger] declaration_findings(groups, facts)[f]).issue_id == "ORP1003"@
                && declaration_findings(groups, facts)[f].paths.contains(
                facts[groups[g].members[k].file as int].path,
            ),
    decreases groups.len(),
{
    let front = groups.drop_last();
    let rest = declaration_findings(front, facts);
    let all = declaration_findings(groups, facts);
    let key = groups[g].members[k];
    if g < front.len() {
        assert(front[g] == groups[g]);
        dead_declarations_are_reported(front, facts, g, k);
        let f = choose|f: int|
            0 <= f < rest.len() && (#[trigger] declaration_findings(front, facts)[f]).issue_id
                == "ORP1003"@ && declaration_findings(front, facts)[f].paths.contains(
                facts[front[g].members[k].file as int].path,
            );
        assert(all[f] == rest[f]);
    } else {
        let group = groups[g];
        let given = declared_members(group.members, facts);
        declared_members_are_here(facts, key);
        declared_members_hold(group.members, facts, k);
        let member = declared_member(facts, key)->0;
        sorted_items_stay::<DeadMember, ByDeclaration>(given, member);
        let members = group_members(facts, group);
        assert(members.contains(member));
        let m = choose|m: int| 0 <= m < members.len() && members[m] == member;
        let paths = members.map_values(|x: DeadMemberModel| x.path);
        assert(paths[m] == member.path);
        assert(paths.contains(member.path));
        collected_is_ordered::<String>(paths);
        let finding = unused_declaration(members, group.cyclic);
        assert(finding.paths.contains(member.path));
        assert(all[all.len() - 1] == finding);
    }
}

/// What is reported as an unused declaration is a group of symbols that nothing in use reaches,
/// one of which is declared in the project and not by an import.
pub proof fn reported_declarations_are_dead(
    groups: Seq<DeadGroupModel>,
    facts: Seq<FileFactsModel>,
    f: int,
) -> (found: (int, int))
    requires
        0 <= f < declaration_findings(groups, facts).len(),
    ensures
        0 <= found.0 < groups.len(),
        0 <= found.1 < groups[found.0].members.len(),
        is_declared_here(facts, groups[found.0].members[found.1]),
    decreases groups.len(),
{
    let front = groups.drop_last();
    if f < declaration_findings(front, facts).len() {
        reported_declarations_are_dead(front, facts, f)
    } else {
        let group = groups.last();
        let given = declared_members(group.members, facts);
        let members = group_members(facts, group);
        let member = members[0];
        assert(members.contains(member));
        sorted_items_stay::<DeadMember, ByDeclaration>(given, member);
        let j = choose|j: int| 0 <= j < given.len() && given[j] == member;
        let k = declared_member_is_of(group.members, facts, j);
        declared_members_are_here(facts, group.members[k]);
        (groups.len() - 1, k)
    }
}

proof fn declared_member_is_of(
    items: Seq<SymbolKey>,
    facts: Seq<FileFactsModel>,
    j: int,
) -> (k: int)
    requires
        0 <= j < declared_members(items, facts).len(),
    ensures
        0 <= k < items.len(),
        declared_member(facts, items[k]) == Some(declared_members(items, facts)[j]),
    decreases items.len(),
{
    let front = items.drop_last();
    if j < declared_members(front, facts).len() {
        declared_member_is_of(front, facts, j)
    } else {
        items.len() - 1
    }
}

} // verus!
