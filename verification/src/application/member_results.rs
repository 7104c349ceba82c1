//! From conclusions about class members to findings, retentions and diagnostics.

use crate::analysis::members::{
    candidate_of, deferral_text, evidence_text, member_candidate, member_deferral_reason,
    member_evidence, member_retention_reason, retention_text, AnalysisMode, DeepResolution,
    DeepResolutionModel, FindingEvidence, MemberCandidate, MemberCandidateModel, MemberDecision,
    MemberDecisionModel, MemberDeferral, MemberDeferralModel, RetentionReason,
};
use crate::application::diagnostics::{analysis_status, sort_diagnostics, status_of, ByPlace};
use crate::application::errors::{ScanError, ScanErrorModel};
use crate::application::findings::{flag_at, sort_findings, ByFindingPlace};
use crate::application::symbols::place_of_path;
use crate::collections::{
    collected, lookup, sort_by, sorted_by, OrderedMap, OrderedSet, Ranking,
};
use crate::domain::facts::{
    AnalysisDiagnostic, AnalysisDiagnosticModel, ClassMemberFact, ClassMemberFactModel,
    DiagnosticSeverity, FileFacts, FileFactsModel,
};
use crate::domain::report::{
    Confidence, Finding, FindingModel, FixEligibility, ReportSummary, RetentionReport,
    RetentionReportModel, ScanReport, ScanReportModel,
};
use crate::text::{concat2, concat3, concat5, decimal, digits, no_texts, one_text, same};
use crate::values::{push_item, Ordered, Value};
use vstd::prelude::*;

verus! {

/// A member as it is named to the user.
pub open spec fn member_symbol(member: ClassMemberFactModel) -> Seq<char> {
    member.declaring_class + "."@ + member.name
}

fn symbol_of_member(member: &ClassMemberFact) -> (r: String)
    ensures
        r@ == member_symbol(member.deep_view()),
{
    concat3(&member.declaring_class, ".", &member.name)
}

/// Why a member counts as unused, in words.
pub open spec fn evidence_texts(evidence: Seq<FindingEvidence>) -> Seq<Seq<char>> {
    evidence.map_values(|item: FindingEvidence| evidence_text(item))
}

fn write_evidence(evidence: &Vec<FindingEvidence>) -> (r: Vec<String>)
    ensures
        r.deep_view() == evidence_texts(evidence.deep_view()),
{
    let mut texts: Vec<String> = Vec::new();
    let ghost model = evidence.deep_view();
    let mut i: usize = 0;
    while i < evidence.len()
        invariant
            i <= evidence.len(),
            model == evidence.deep_view(),
            texts.deep_view() =~= evidence_texts(model.take(i as int)),
        decreases evidence.len() - i,
    {
        proof {
            assert(model.take(i + 1).drop_last() =~= model.take(i as int));
            assert(model.take(i + 1).last() == evidence@[i as int].deep_view());
        }
        assert(model.take(i + 1) =~= model.take(i as int).push(evidence@[i as int]));
        push_item(&mut texts, member_evidence(evidence[i]).to_string());
        i = i + 1;
    }
    assert(model.take(i as int) =~= model);
    texts
}

/// The finding about a member that nothing uses.
pub open spec fn unused_member(
    path: Seq<char>,
    member: ClassMemberFactModel,
    evidence: Seq<FindingEvidence>,
) -> FindingModel {
    FindingModel {
        issue_id: "ORP1004"@,
        issue_type: "unusedMember"@,
        workspace: "."@,
        target_profiles: seq!["default"@],
        paths: seq![path],
        span: Some(member.span),
        symbol: Some(member_symbol(member)),
        dependency: None,
        confidence: Confidence::High,
        summary: "member "@ + member_symbol(member) + " has no live reference"@,
        evidence: evidence_texts(evidence),
        blockers: Seq::empty(),
        suggested_actions: seq![
            "Review the member and request a fix preview before editing"@,
        ],
        fix_eligibility: FixEligibility::PreviewOnly,
    }
}

fn unused_member_finding(
    path: &str,
    member: &ClassMemberFact,
    evidence: &Vec<FindingEvidence>,
) -> (r: Finding)
    ensures
        r.deep_view() == unused_member(path@, member.deep_view(), evidence.deep_view()),
{
    Finding {
        issue_id: "ORP1004",
        issue_type: "unusedMember",
        workspace: ".".to_string(),
        target_profiles: one_text("default"),
        paths: one_text(path),
        span: Some(member.span),
        symbol: Some(symbol_of_member(member)),
        dependency: None,
        confidence: Confidence::High,
        summary: concat3(
            "member ",
            &symbol_of_member(member),
            " has no live reference",
        ),
        evidence: write_evidence(evidence),
        blockers: no_texts(),
        suggested_actions: one_text("Review the member and request a fix preview before editing"),
        fix_eligibility: FixEligibility::PreviewOnly,
    }
}

/// That a member is kept.
pub open spec fn member_retention(
    member: ClassMemberFactModel,
    reason: RetentionReason,
) -> RetentionReportModel {
    RetentionReportModel {
        item: member_symbol(member),
        item_type: "member"@,
        workspace: "."@,
        target_profiles: seq!["default"@],
        summary: "Member retained by conservative safety policy"@,
        evidence: seq![retention_text(reason)],
    }
}

fn member_retention_report(
    member: &ClassMemberFact,
    reason: RetentionReason,
) -> (r: RetentionReport)
    ensures
        r.deep_view() == member_retention(member.deep_view(), reason),
{
    RetentionReport {
        item: symbol_of_member(member),
        item_type: "member",
        workspace: ".".to_string(),
        target_profiles: one_text("default"),
        summary: "Member retained by conservative safety policy".to_string(),
        evidence: one_text(member_retention_reason(reason)),
    }
}

/// What a deferral says of missing capabilities.
pub open spec fn capability_text(note: Option<Seq<char>>) -> Seq<char> {
    match note {
        Some(note) => "; "@ + note,
        None => ""@,
    }
}

fn write_capability(note: &Option<String>) -> (r: String)
    ensures
        r@ == capability_text(note.deep_view()),
{
    match note {
        Some(note) => concat2("; ", note),
        None => "".to_string(),
    }
}

/// That nothing is concluded of a member.
pub open spec fn member_deferred(
    path: Seq<char>,
    member: ClassMemberFactModel,
    deferral: MemberDeferralModel,
) -> AnalysisDiagnosticModel {
    AnalysisDiagnosticModel {
        code: "member_analysis_deferred"@,
        path: path,
        severity: DiagnosticSeverity::Warning,
        span: Some(member.span),
        message: "Member analysis for "@ + member_symbol(member) + " was deferred: "@
            + deferral_text(deferral.reason) + capability_text(deferral.capability_note),
        blocks_reachability: false,
    }
}

fn member_deferred_diagnostic(
    path: &str,
    member: &ClassMemberFact,
    deferral: &MemberDeferral,
) -> (r: AnalysisDiagnostic)
    ensures
        r.deep_view() == member_deferred(path@, member.deep_view(), deferral.deep_view()),
{
    AnalysisDiagnostic {
        code: "member_analysis_deferred".to_string(),
        path: path.to_string(),
        severity: DiagnosticSeverity::Warning,
        span: Some(member.span),
        message: concat5(
            "Member analysis for ",
            &symbol_of_member(member),
            " was deferred: ",
            member_deferral_reason(deferral.reason),
            &write_capability(&deferral.capability_note),
        ),
        blocks_reachability: false,
    }
}

/// Retentions by workspace and item.
pub struct ByRetainedItem;

impl Ranking<RetentionReport> for ByRetainedItem {
    type Key = (String, String);

    open spec fn key(m: RetentionReportModel) -> (Seq<char>, Seq<char>) {
        (m.workspace, m.item)
    }

    fn ranks_before(a: &RetentionReport, b: &RetentionReport) -> (r: bool) {
        a.workspace.is_before(&b.workspace) || (a.workspace.same_value(&b.workspace) && (a.item.is_before(&b.item)))
    }
}

/// What follows from decisions on members.
#[verifier::ext_equal]
pub struct MemberOutcome {
    pub findings: Seq<FindingModel>,
    pub retentions: Seq<RetentionReportModel>,
    pub diagnostics: Seq<AnalysisDiagnosticModel>,
}

/// What follows from a decision on one more member.
pub open spec fn with_decision(
    rest: MemberOutcome,
    path: Seq<char>,
    member: ClassMemberFactModel,
    decision: MemberDecisionModel,
) -> MemberOutcome {
    match decision {
        MemberDecisionModel::Finding(evidence) => MemberOutcome {
            findings: rest.findings.push(unused_member(path, member, evidence)),
            ..rest
        },
        MemberDecisionModel::Retained(reason) => MemberOutcome {
            retentions: rest.retentions.push(member_retention(member, reason)),
            ..rest
        },
        MemberDecisionModel::Deferred(deferral) => MemberOutcome {
            diagnostics: rest.diagnostics.push(member_deferred(path, member, deferral)),
            ..rest
        },
    }
}

/// What follows from the decisions on the members of a file.
pub open spec fn file_members(
    start: MemberOutcome,
    path: Seq<char>,
    members: Seq<ClassMemberFactModel>,
    decisions: Seq<MemberDecisionModel>,
) -> MemberOutcome
    decreases members.len(),
{
    if members.len() == 0 {
        start
    } else {
        with_decision(
            file_members(start, path, members.drop_last(), decisions),
            path,
            members.last(),
            decisions[members.len() - 1],
        )
    }
}

/// What follows from the decisions on the members of all files, the diagnostics file by
/// file.
#[verifier::ext_equal]
pub struct MemberResultsModel {
    pub findings: Seq<FindingModel>,
    pub retentions: Seq<RetentionReportModel>,
    pub diagnostics: Seq<Seq<AnalysisDiagnosticModel>>,
}

/// What follows from the decisions on the members of the first files that are in use.
pub open spec fn all_members(
    facts: Seq<FileFactsModel>,
    reachable: Seq<bool>,
    decisions: Seq<Seq<MemberDecisionModel>>,
    diagnostics: Seq<Seq<AnalysisDiagnosticModel>>,
) -> MemberResultsModel
    decreases facts.len(),
{
    if facts.len() == 0 {
        MemberResultsModel {
            findings: Seq::empty(),
            retentions: Seq::empty(),
            diagnostics: Seq::empty(),
        }
    } else {
        let n = facts.len() - 1;
        let rest = all_members(facts.drop_last(), reachable, decisions, diagnostics);
        if flag_at(reachable, n) {
            let own = file_members(
                MemberOutcome {
                    findings: rest.findings,
                    retentions: rest.retentions,
                    diagnostics: diagnostics[n],
                },
                facts.last().path,
                facts.last().member_facts,
                decisions[n],
            );
            MemberResultsModel {
                findings: own.findings,
                retentions: own.retentions,
                diagnostics: rest.diagnostics.push(own.diagnostics),
            }
        } else {
            MemberResultsModel {
                findings: rest.findings,
                retentions: rest.retentions,
                diagnostics: rest.diagnostics.push(diagnostics[n]),
            }
        }
    }
}

fn add_decision(
    path: &str,
    member: &ClassMemberFact,
    decision: &MemberDecision,
    findings: &mut Vec<Finding>,
    retentions: &mut Vec<RetentionReport>,
    diagnostics: &mut Vec<AnalysisDiagnostic>,
)
    ensures
        ({
            let after = with_decision(
                MemberOutcome {
                    findings: old(findings).deep_view(),
                    retentions: old(retentions).deep_view(),
                    diagnostics: old(diagnostics).deep_view(),
                },
                path@,
                member.deep_view(),
                decision.deep_view(),
            );
            &&& final(findings).deep_view() == after.findings
            &&& final(retentions).deep_view() == after.retentions
            &&& final(diagnostics).deep_view() == after.diagnostics
        }),
{
    match decision {
        MemberDecision::Finding(evidence) => {
            push_item(findings, unused_member_finding(path, member, evidence));
        },
        MemberDecision::Retained(reason) => {
            push_item(retentions, member_retention_report(member, *reason));
        },
        MemberDecision::Deferred(deferral) => {
            push_item(diagnostics, member_deferred_diagnostic(path, member, deferral));
        },
    }
}

fn add_file_members(
    path: &str,
    members: &Vec<ClassMemberFact>,
    decisions: &Vec<MemberDecision>,
    findings: &mut Vec<Finding>,
    retentions: &mut Vec<RetentionReport>,
    diagnostics: &mut Vec<AnalysisDiagnostic>,
)
    requires
        members@.len() == decisions@.len(),
    ensures
        ({
            let after = file_members(
                MemberOutcome {
                    findings: old(findings).deep_view(),
                    retentions: old(retentions).deep_view(),
                    diagnostics: old(diagnostics).deep_view(),
                },
                path@,
                members.deep_view(),
                decisions.deep_view(),
            );
            &&& final(findings).deep_view() == after.findings
            &&& final(retentions).deep_view() == after.retentions
            &&& final(diagnostics).deep_view() == after.diagnostics
        }),
{
    let ghost start = MemberOutcome {
        findings: findings.deep_view(),
        retentions: retentions.deep_view(),
        diagnostics: diagnostics.deep_view(),
    };
    let ghost decided = decisions.deep_view();
    let ghost model = members.deep_view();
    let mut i: usize = 0;
    while i < members.len()
        invariant
            i <= members.len(),
            model == members.deep_view(),
            decided == decisions.deep_view(),
            members@.len() == decisions@.len(),
            findings.deep_view() == file_members(start, path@, model.take(i as int), decided).findings,
            retentions.deep_view() == file_members(start, path@, model.take(i as int), decided).retentions,
            diagnostics.deep_view() == file_members(start, path@, model.take(i as int), decided).diagnostics,
        decreases members.len() - i,
    {
        proof {
            assert(model.take(i + 1).drop_last() =~= model.take(i as int));
            assert(model.take(i + 1).last() == members@[i as int].deep_view());
        }
        assert(decided[i as int] == decisions@[i as int].deep_view());
        let ghost rest = file_members(start, path@, model.take(i as int), decided);
        add_decision(path, &members[i], &decisions[i], findings, retentions, diagnostics);
        i = i + 1;
    }
    assert(model.take(i as int) =~= model);
}

/// Findings, retentions and diagnostics that follow from the decisions on members. The
/// diagnostics of each file start with those that it had.
pub struct MemberResults {
    pub findings: Vec<Finding>,
    pub retentions: Vec<RetentionReport>,
    pub diagnostics: Vec<Vec<AnalysisDiagnostic>>,
}

/// What follows from the decisions on the members of the files that are in use.
#[must_use]
pub fn build_member_results(
    facts: &Vec<FileFacts>,
    reachable: &Vec<bool>,
    decisions: &Vec<Vec<MemberDecision>>,
    diagnostics: &Vec<Vec<AnalysisDiagnostic>>,
) -> (r: MemberResults)
    requires
        decisions@.len() == facts@.len(),
        diagnostics@.len() == facts@.len(),
        forall|i: int|
            0 <= i < facts@.len() && flag_at(reachable.deep_view(), i) ==> (
            #[trigger] decisions@[i])@.len() == facts@[i].member_facts@.len(),
    ensures
        ({
            let all = all_members(
                facts.deep_view(),
                reachable.deep_view(),
                decisions.deep_view(),
                diagnostics.deep_view(),
            );
            &&& r.findings.deep_view() == all.findings
            &&& r.retentions.deep_view() == sorted_by::<RetentionReport, ByRetainedItem>(
                all.retentions,
            )
            &&& r.diagnostics.deep_view() == all.diagnostics
        }),
{
    let ghost live = reachable.deep_view();
    let ghost decided = decisions.deep_view();
    let ghost before = diagnostics.deep_view();
    let mut findings: Vec<Finding> = Vec::new();
    let mut retentions: Vec<RetentionReport> = Vec::new();
    let mut notices: Vec<Vec<AnalysisDiagnostic>> = Vec::new();
    let ghost model = facts.deep_view();
    let mut i: usize = 0;
    while i < facts.len()
        invariant
            i <= facts.len(),
            model == facts.deep_view(),
            live == reachable.deep_view(),
            decided == decisions.deep_view(),
            before == diagnostics.deep_view(),
            decisions@.len() == facts@.len(),
            diagnostics@.len() == facts@.len(),
            forall|k: int|
                0 <= k < facts@.len() && flag_at(live, k) ==> (#[trigger] decisions@[k])@.len() == facts@[k].member_facts@.len(),
            findings.deep_view() =~= all_members(model.take(i as int), live, decided, before).findings,
            retentions.deep_view() =~= all_members(model.take(i as int), live, decided, before).retentions,
            notices.deep_view() =~= all_members(model.take(i as int), live, decided, before).diagnostics,
        decreases facts.len() - i,
    {
        proof {
            assert(model.take(i + 1).drop_last() =~= model.take(i as int));
            assert(model.take(i + 1).last() == facts@[i as int].deep_view());
        }
        assert(decided[i as int] == decisions@[i as int].deep_view());
        assert(before[i as int] == diagnostics@[i as int].deep_view());
        let mut own: Vec<AnalysisDiagnostic> = diagnostics[i].replicate();
        let used: bool = i < reachable.len() && reachable[i];
        assert(used == flag_at(live, i as int));
        if used {
            add_file_members(
                &facts[i].path,
                &facts[i].member_facts,
                &decisions[i],
                &mut findings,
                &mut retentions,
                &mut own,
            );
        }
        push_item(&mut notices, own);
        i = i + 1;
    }
    assert(model.take(i as int) =~= model);
    sort_by::<RetentionReport, ByRetainedItem>(&mut retentions);
    MemberResults { findings, retentions, diagnostics: notices }
}

/// The mode in which the members of a file are analyzed.
pub open spec fn mode_for(
    path: Seq<char>,
    default_mode: AnalysisMode,
    modes: Seq<(Seq<char>, AnalysisMode)>,
) -> AnalysisMode {
    match lookup(modes, path) {
        Some(mode) => mode,
        None => default_mode,
    }
}

/// What decisions on the members of a file rest on.
pub open spec fn file_candidates(
    file: FileFactsModel,
    open_world: bool,
    mode: AnalysisMode,
    evidence: Seq<((Seq<char>, u32), DeepResolutionModel)>,
) -> Seq<MemberCandidateModel> {
    file.member_facts.map_values(
        |member: ClassMemberFactModel|
            candidate_of(
                member,
                file.source_kind,
                open_world,
                mode,
                lookup(evidence, (file.path, member.span.start)),
            ),
    )
}

/// What decisions on the members of the files in use rest on.
pub open spec fn all_candidates(
    items: Seq<FileFactsModel>,
    reachable: Seq<bool>,
    open_world_files: Seq<bool>,
    default_mode: AnalysisMode,
    modes: Seq<(Seq<char>, AnalysisMode)>,
    evidence: Seq<((Seq<char>, u32), DeepResolutionModel)>,
) -> Seq<Seq<MemberCandidateModel>>
    decreases items.len(),
{
    if items.len() == 0 {
        Seq::empty()
    } else {
        let rest = all_candidates(
            items.drop_last(),
            reachable,
            open_world_files,
            default_mode,
            modes,
            evidence,
        );
        let last = items.last();
        if flag_at(reachable, items.len() - 1) {
            rest.push(
                file_candidates(
                    last,
                    flag_at(open_world_files, items.len() - 1),
                    mode_for(last.path, default_mode, modes),
                    evidence,
                ),
            )
        } else {
            rest.push(Seq::empty())
        }
    }
}

fn candidates_of_file(
    file: &FileFacts,
    open_world: bool,
    mode: AnalysisMode,
    evidence: &OrderedMap<(String, u32), DeepResolution>,
) -> (r: Vec<MemberCandidate>)
    ensures
        r.deep_view() == file_candidates(
            file.deep_view(),
            open_world,
            mode,
            evidence.deep_view(),
        ),
{
    let ghost known = evidence.deep_view();
    let ghost whole = file.deep_view();
    let members: &Vec<ClassMemberFact> = &file.member_facts;
    let mut out: Vec<MemberCandidate> = Vec::new();
    let ghost model = members.deep_view();
    let mut i: usize = 0;
    while i < members.len()
        invariant
            i <= members.len(),
            model == members.deep_view(),
            whole == file.deep_view(),
            model == whole.member_facts,
            known == evidence.deep_view(),
            out.deep_view() =~= file_candidates(whole, open_world, mode, known).take(i as int),
        decreases members.len() - i,
    {
        proof {
            assert(model.take(i + 1).drop_last() =~= model.take(i as int));
            assert(model.take(i + 1).last() == members@[i as int].deep_view());
        }
        let member: &ClassMemberFact = &members[i];
        let key: (String, u32) = (file.path.replicate(), member.span.start);
        let answer: Option<&DeepResolution> = evidence.get(&key);
        push_item(&mut out, member_candidate(member, file.source_kind, open_world, mode, answer));
        proof {
            let all = file_candidates(whole, open_world, mode, known);
            assert(all.take(i + 1) =~= all.take(i as int).push(all[i as int]));
            assert(model[i as int] == member.deep_view());
        }
        i = i + 1;
    }
    assert(model.take(i as int) =~= model);
    proof {
        let all = file_candidates(whole, open_world, mode, known);
        assert(all.take(i as int) =~= all);
    }
    out
}

/// What decisions on the members of the files in use rest on.
#[must_use]
pub fn member_candidates(
    facts: &Vec<FileFacts>,
    reachable: &Vec<bool>,
    open_world_files: &Vec<bool>,
    default_mode: AnalysisMode,
    member_modes_by_file: &OrderedMap<String, AnalysisMode>,
    deep_member_evidence: &OrderedMap<(String, u32), DeepResolution>,
) -> (r: Vec<Vec<MemberCandidate>>)
    ensures
        r.deep_view() == all_candidates(
            facts.deep_view(),
            reachable.deep_view(),
            open_world_files.deep_view(),
            default_mode,
            member_modes_by_file.deep_view(),
            deep_member_evidence.deep_view(),
        ),
{
    let ghost live = reachable.deep_view();
    let ghost open = open_world_files.deep_view();
    let ghost modes = member_modes_by_file.deep_view();
    let ghost known = deep_member_evidence.deep_view();
    let mut out: Vec<Vec<MemberCandidate>> = Vec::new();
    let ghost model = facts.deep_view();
    let mut i: usize = 0;
    while i < facts.len()
        invariant
            i <= facts.len(),
            model == facts.deep_view(),
            live == reachable.deep_view(),
            open == open_world_files.deep_view(),
            modes == member_modes_by_file.deep_view(),
            known == deep_member_evidence.deep_view(),
            out.deep_view() =~= all_candidates(model.take(i as int), live, open, default_mode, modes, known),
        decreases facts.len() - i,
    {
        proof {
            assert(model.take(i + 1).drop_last() =~= model.take(i as int));
            assert(model.take(i + 1).last() == facts@[i as int].deep_view());
        }
        let used: bool = i < reachable.len() && reachable[i];
        assert(used == flag_at(live, i as int));
        if used {
            let open_world: bool = i < open_world_files.len() && open_world_files[i];
            assert(open_world == flag_at(open, i as int));
            let mode: AnalysisMode = match member_modes_by_file.get(&facts[i].path) {
                Some(mode) => *mode,
                None => default_mode,
            };
            let own: Vec<MemberCandidate> = candidates_of_file(
                &facts[i],
                open_world,
                mode,
                deep_member_evidence,
            );
            push_item(&mut out, own);
        } else {
            let none: Vec<MemberCandidate> = Vec::new();
            assert(none.deep_view() =~= Seq::<MemberCandidateModel>::empty());
            push_item(&mut out, none);
        }
        i = i + 1;
    }
    assert(model.take(i as int) =~= model);
    out
}

/// The member that a deferral is about.
pub open spec fn deferred_member(diagnostic: AnalysisDiagnosticModel) -> Option<(Seq<char>, u32)> {
    if diagnostic.code == "member_analysis_deferred"@ && diagnostic.span is Some {
        Some((diagnostic.path, diagnostic.span->0.start))
    } else {
        None
    }
}

fn member_deferred_by(diagnostic: &AnalysisDiagnostic) -> (r: Option<(String, u32)>)
    ensures
        r.deep_view() == deferred_member(diagnostic.deep_view()),
{
    if same(&diagnostic.code, "member_analysis_deferred") {
        match &diagnostic.span {
            Some(span) => Some((diagnostic.path.replicate(), span.start)),
            None => None,
        }
    } else {
        None
    }
}

/// The deferred members of which deep analysis says something.
pub open spec fn deferred_with_evidence(
    items: Seq<AnalysisDiagnosticModel>,
    evidence: Seq<((Seq<char>, u32), DeepResolutionModel)>,
) -> Seq<(Seq<char>, u32)>
    decreases items.len(),
{
    if items.len() == 0 {
        Seq::empty()
    } else {
        let rest = deferred_with_evidence(items.drop_last(), evidence);
        let last = items.last();
        match deferred_member(last) {
            Some(key) => if lookup(evidence, key) is Some {
                rest.push(key)
            } else {
                rest
            },
            None => rest,
        }
    }
}

/// The deferred members of which deep analysis says something, in order.
pub open spec fn deep_keys(
    diagnostics: Seq<AnalysisDiagnosticModel>,
    evidence: Seq<((Seq<char>, u32), DeepResolutionModel)>,
) -> Seq<(Seq<char>, u32)> {
    collected::<(String, u32)>(deferred_with_evidence(diagnostics, evidence))
}

/// The deferred members of which deep analysis says something, in order.
#[must_use]
pub fn find_deep_keys(
    diagnostics: &Vec<AnalysisDiagnostic>,
    evidence: &OrderedMap<(String, u32), DeepResolution>,
) -> (r: OrderedSet<(String, u32)>)
    ensures
        r.deep_view() == deep_keys(diagnostics.deep_view(), evidence.deep_view()),
{
    let ghost known = evidence.deep_view();
    let mut keys: Vec<(String, u32)> = Vec::new();
    let ghost model = diagnostics.deep_view();
    let mut i: usize = 0;
    while i < diagnostics.len()
        invariant
            i <= diagnostics.len(),
            model == diagnostics.deep_view(),
            known == evidence.deep_view(),
            keys.deep_view() =~= deferred_with_evidence(model.take(i as int), known),
        decreases diagnostics.len() - i,
    {
        proof {
            assert(model.take(i + 1).drop_last() =~= model.take(i as int));
            assert(model.take(i + 1).last() == diagnostics@[i as int].deep_view());
        }
        match member_deferred_by(&diagnostics[i]) {
            Some(key) => {
                if evidence.contains_key(&key) {
                    push_item(&mut keys, key);
                }
            },
            None => {},
        }
        i = i + 1;
    }
    assert(model.take(i as int) =~= model);
    OrderedSet::from_items(keys)
}

/// The diagnostics without the deferrals of some members.
pub open spec fn without_answered(
    items: Seq<AnalysisDiagnosticModel>,
    keys: Seq<(Seq<char>, u32)>,
) -> Seq<AnalysisDiagnosticModel>
    decreases items.len(),
{
    if items.len() == 0 {
        Seq::empty()
    } else {
        let rest = without_answered(items.drop_last(), keys);
        let last = items.last();
        match deferred_member(last) {
            Some(key) => if keys.contains(key) {
                rest
            } else {
                rest.push(last)
            },
            None => rest.push(last),
        }
    }
}

/// The first member that starts at a position.
pub open spec fn member_at(
    items: Seq<ClassMemberFactModel>,
    position: u32,
) -> Option<ClassMemberFactModel>
    decreases items.len(),
{
    if items.len() == 0 {
        None
    } else {
        let rest = member_at(items.drop_last(), position);
        let last = items.last();
        if rest is Some {
            rest
        } else if last.span.start == position {
            Some(last)
        } else {
            None
        }
    }
}

/// What follows from decisions on deferred members, or why it cannot be told.
pub open spec fn deep_outcome(
    start: MemberOutcome,
    facts: Seq<FileFactsModel>,
    keys: Seq<(Seq<char>, u32)>,
    decisions: Seq<MemberDecisionModel>,
) -> Result<MemberOutcome, ScanErrorModel>
    decreases keys.len(),
{
    if keys.len() == 0 {
        Ok(start)
    } else {
        match deep_outcome(start, facts, keys.drop_last(), decisions) {
            Ok(rest) => {
                let key = keys.last();
                match place_of_path(facts, key.0) {
                    Some(place) => match member_at(facts[place as int].member_facts, key.1) {
                        Some(member) => Ok(
                            with_decision(
                                rest,
                                facts[place as int].path,
                                member,
                                decisions[keys.len() - 1],
                            ),
                        ),
                        None => Err(
                            ScanErrorModel::MissingParsedFact(key.0 + ":"@ + digits(key.1 as nat)),
                        ),
                    },
                    None => Err(ScanErrorModel::MissingParsedFact(key.0)),
                }
            },
            Err(error) => Err(error),
        }
    }
}

fn find_member(members: &Vec<ClassMemberFact>, position: u32) -> (r: Option<usize>)
    ensures
        match r {
            Some(k) => k < members@.len() && member_at(members.deep_view(), position) == Some(
                members@[k as int].deep_view(),
            ),
            None => member_at(members.deep_view(), position) is None,
        },
{
    let mut found: Option<usize> = None;
    let ghost model = members.deep_view();
    let mut i: usize = 0;
    while i < members.len()
        invariant
            i <= members.len(),
            model == members.deep_view(),
            match found {
            Some(k) => k < i && member_at(model.take(i as int), position) == Some(members@[k as int].deep_view()),
            None => member_at(model.take(i as int), position) is None,
        },
        decreases members.len() - i,
    {
        proof {
            assert(model.take(i + 1).drop_last() =~= model.take(i as int));
            assert(model.take(i + 1).last() == members@[i as int].deep_view());
        }
        if found.is_none() && members[i].span.start == position {
            found = Some(i);
        }
        i = i + 1;
    }
    assert(model.take(i as int) =~= model);
    found
}

fn find_file(facts: &Vec<FileFacts>, path: &str) -> (r: Option<usize>)
    ensures
        r == place_of_path(facts.deep_view(), path@),
        r matches Some(i) ==> i < facts@.len(),
{
    let mut found: Option<usize> = None;
    let ghost model = facts.deep_view();
    let mut i: usize = 0;
    while i < facts.len()
        invariant
            i <= facts.len(),
            model == facts.deep_view(),
            found == place_of_path(model.take(i as int), path@),
            found matches Some(k) ==> k < i,
        decreases facts.len() - i,
    {
        proof {
            assert(model.take(i + 1).drop_last() =~= model.take(i as int));
            assert(model.take(i + 1).last() == facts@[i as int].deep_view());
        }
        if same(&facts[i].path, path) {
            found = Some(i);
        }
        i = i + 1;
    }
    assert(model.take(i as int) =~= model);
    found
}

proof fn deep_outcome_fails_early(
    start: MemberOutcome,
    facts: Seq<FileFactsModel>,
    keys: Seq<(Seq<char>, u32)>,
    decisions: Seq<MemberDecisionModel>,
    n: int,
)
    requires
        0 <= n <= keys.len(),
        deep_outcome(start, facts, keys.take(n), decisions) is Err,
    ensures
        deep_outcome(start, facts, keys, decisions) == deep_outcome(
            start,
            facts,
            keys.take(n),
            decisions,
        ),
    decreases keys.len() - n,
{
    if n < keys.len() {
        assert(keys.take(n + 1).drop_last() =~= keys.take(n));
        deep_outcome_fails_early(start, facts, keys, decisions, n + 1);
    } else {
        assert(keys.take(n) =~= keys);
    }
}

/// What is to be decided deeply about deferred members, or why it cannot be told.
pub open spec fn deferred_candidates(
    facts: Seq<FileFactsModel>,
    keys: Seq<(Seq<char>, u32)>,
    evidence: Seq<((Seq<char>, u32), DeepResolutionModel)>,
) -> Result<Seq<MemberCandidateModel>, ScanErrorModel>
    decreases keys.len(),
{
    if keys.len() == 0 {
        Ok(Seq::empty())
    } else {
        match deferred_candidates(facts, keys.drop_last(), evidence) {
            Ok(rest) => {
                let key = keys.last();
                match place_of_path(facts, key.0) {
                    Some(place) => match member_at(facts[place as int].member_facts, key.1) {
                        Some(member) => Ok(
                            rest.push(
                                candidate_of(
                                    member,
                                    facts[place as int].source_kind,
                                    false,
                                    AnalysisMode::Deep,
                                    lookup(evidence, key),
                                ),
                            ),
                        ),
                        None => Err(
                            ScanErrorModel::MissingParsedFact(key.0 + ":"@ + digits(key.1 as nat)),
                        ),
                    },
                    None => Err(ScanErrorModel::MissingParsedFact(key.0)),
                }
            },
            Err(error) => Err(error),
        }
    }
}

proof fn deferred_candidates_fail_early(
    facts: Seq<FileFactsModel>,
    keys: Seq<(Seq<char>, u32)>,
    evidence: Seq<((Seq<char>, u32), DeepResolutionModel)>,
    n: int,
)
    requires
        0 <= n <= keys.len(),
        deferred_candidates(facts, keys.take(n), evidence) is Err,
    ensures
        deferred_candidates(facts, keys, evidence) == deferred_candidates(
            facts,
            keys.take(n),
            evidence,
        ),
    decreases keys.len() - n,
{
    if n < keys.len() {
        assert(keys.take(n + 1).drop_last() =~= keys.take(n));
        deferred_candidates_fail_early(facts, keys, evidence, n + 1);
    } else {
        assert(keys.take(n) =~= keys);
    }
}

/// What is to be decided deeply about the deferred members of a report: one candidate for each
/// of which `evidence` says something, in their order. A member that was deferred is neither
/// part of an open world nor otherwise retained.
///
/// # Errors
///
/// Returns an error where the facts of a file or of a member are missing.
pub fn deep_candidates_of(
    diagnostics: &Vec<AnalysisDiagnostic>,
    facts: &Vec<FileFacts>,
    evidence: &OrderedMap<(String, u32), DeepResolution>,
) -> (r: Result<Vec<MemberCandidate>, ScanError>)
    ensures
        ({
            let keys = deep_keys(diagnostics.deep_view(), evidence.deep_view());
            let expected = deferred_candidates(facts.deep_view(), keys, evidence.deep_view());
            match r {
                Ok(candidates) => expected == Ok::<_, ScanErrorModel>(candidates.deep_view()),
                Err(error) => expected == Err::<Seq<MemberCandidateModel>, _>(error.deep_view()),
            }
        }),
{
    let keys: Vec<(String, u32)> = find_deep_keys(diagnostics, evidence).into_items();
    let ghost model = keys.deep_view();
    let ghost known = evidence.deep_view();
    let ghost files = facts.deep_view();
    let mut out: Vec<MemberCandidate> = Vec::new();
    let mut i: usize = 0;
    assert(out.deep_view() =~= Seq::empty());
    while i < keys.len()
        invariant
            i <= keys.len(),
            model == keys.deep_view(),
            known == evidence.deep_view(),
            files == facts.deep_view(),
            model == deep_keys(diagnostics.deep_view(), known),
            deferred_candidates(files, model.take(i as int), known) == Ok::<_, ScanErrorModel>(
                out.deep_view(),
            ),
        decreases keys.len() - i,
    {
        let ghost longer = model.take(i + 1);
        assert(longer.drop_last() =~= model.take(i as int));
        assert(longer.last() == keys@[i as int].deep_view());
        let key: &(String, u32) = &keys[i];
        match find_file(facts, &key.0) {
            None => {
                proof {
                    deferred_candidates_fail_early(files, model, known, i + 1);
                }
                return Err(ScanError::MissingParsedFact(key.0.replicate()));
            },
            Some(place) => {
                let file: &FileFacts = &facts[place];
                assert(files[place as int] == file.deep_view());
                match find_member(&file.member_facts, key.1) {
                    None => {
                        proof {
                            deferred_candidates_fail_early(files, model, known, i + 1);
                        }
                        return Err(
                            ScanError::MissingParsedFact(
                                concat3(&key.0, ":", &decimal(key.1 as u64)),
                            ),
                        );
                    },
                    Some(k) => {
                        push_item(
                            &mut out,
                            member_candidate(
                                &file.member_facts[k],
                                file.source_kind,
                                false,
                                AnalysisMode::Deep,
                                evidence.get(key),
                            ),
                        );
                    },
                }
            },
        }
        i = i + 1;
    }
    assert(model.take(i as int) =~= model);
    Ok(out)
}

/// A report with the decisions that deep analysis allows on members that were deferred.
pub open spec fn deepened(
    report: ScanReportModel,
    facts: Seq<FileFactsModel>,
    evidence: Seq<((Seq<char>, u32), DeepResolutionModel)>,
    decisions: Seq<MemberDecisionModel>,
) -> Result<(ScanReportModel, nat), ScanErrorModel> {
    let keys = deep_keys(report.diagnostics, evidence);
    let start = MemberOutcome {
        findings: report.findings,
        retentions: report.retentions,
        diagnostics: without_answered(report.diagnostics, keys),
    };
    match deep_outcome(start, facts, keys, decisions) {
        Ok(after) => {
            let diagnostics = sorted_by::<AnalysisDiagnostic, ByPlace>(after.diagnostics);
            Ok(
                (
                    ScanReportModel {
                        findings: sorted_by::<Finding, ByFindingPlace>(after.findings),
                        retentions: sorted_by::<RetentionReport, ByRetainedItem>(after.retentions),
                        summary: ReportSummary {
                            diagnostics: diagnostics.len() as usize,
                            ..report.summary
                        },
                        status: status_of(diagnostics),
                        diagnostics,
                        ..report
                    },
                    keys.len(),
                ),
            )
        },
        Err(error) => Err(error),
    }
}

/// Puts decisions that deep analysis allows in the place of deferrals, and tells how many
/// members it was asked about. `decisions` holds one for each deferred member of which
/// `evidence` says something, in their order.
pub fn apply_deep_member_evidence(
    report: ScanReport,
    facts: &Vec<FileFacts>,
    evidence: &OrderedMap<(String, u32), DeepResolution>,
    decisions: &Vec<MemberDecision>,
) -> (r: Result<(ScanReport, usize), ScanError>)
    requires
        decisions@.len() == deep_keys(
            report.diagnostics.deep_view(),
            evidence.deep_view(),
        ).len(),
    ensures
        match r {
            Ok((after, count)) => deepened(
                report.deep_view(),
                facts.deep_view(),
                evidence.deep_view(),
                decisions.deep_view(),
            ) == Ok::<(ScanReportModel, nat), ScanErrorModel>((after.deep_view(), count as nat)),
            Err(error) => deepened(
                report.deep_view(),
                facts.deep_view(),
                evidence.deep_view(),
                decisions.deep_view(),
            ) == Err::<(ScanReportModel, nat), ScanErrorModel>(error.deep_view()),
        },
{
    let ghost given = report.deep_view();
    let ghost fs = facts.deep_view();
    let ghost decided = decisions.deep_view();
    let keys: OrderedSet<(String, u32)> = find_deep_keys(&report.diagnostics, evidence);
    let ghost wanted = keys.deep_view();
    let mut notices: Vec<AnalysisDiagnostic> = Vec::new();
    let kept: &Vec<AnalysisDiagnostic> = &report.diagnostics;
    let ghost model = kept.deep_view();
    let mut i: usize = 0;
    while i < kept.len()
        invariant
            i <= kept.len(),
            model == kept.deep_view(),
            wanted == keys.deep_view(),
            notices.deep_view() =~= without_answered(model.take(i as int), wanted),
        decreases kept.len() - i,
    {
        proof {
            assert(model.take(i + 1).drop_last() =~= model.take(i as int));
            assert(model.take(i + 1).last() == kept@[i as int].deep_view());
        }
        let answered: bool = match member_deferred_by(&kept[i]) {
            Some(key) => keys.contains(&key),
            None => false,
        };
        if !answered {
            push_item(&mut notices, kept[i].replicate());
        }
        i = i + 1;
    }
    assert(model.take(i as int) =~= model);
    let ghost start = MemberOutcome {
        findings: given.findings,
        retentions: given.retentions,
        diagnostics: notices.deep_view(),
    };
    let mut findings: Vec<Finding> = report.findings.replicate();
    let mut retentions: Vec<RetentionReport> = report.retentions.replicate();
    let mut k: usize = 0;
    let asked: &Vec<(String, u32)> = keys.items();
    let count: usize = asked.len();
    while k < count
        invariant
            k <= count,
            given == report.deep_view(),
            count == asked@.len(),
            asked.deep_view() == wanted,
            wanted == deep_keys(given.diagnostics, evidence.deep_view()),
            decisions@.len() == count,
            decided == decisions.deep_view(),
            fs == facts.deep_view(),
            start == (MemberOutcome {
                findings: given.findings,
                retentions: given.retentions,
                diagnostics: without_answered(given.diagnostics, wanted),
            }),
            deep_outcome(start, fs, wanted.take(k as int), decided)
                == Ok::<MemberOutcome, ScanErrorModel>(
                MemberOutcome {
                    findings: findings.deep_view(),
                    retentions: retentions.deep_view(),
                    diagnostics: notices.deep_view(),
                },
            ),
        decreases count - k,
    {
        proof {
            assert(wanted.take(k + 1).drop_last() =~= wanted.take(k as int));
            assert(wanted.take(k + 1).last() == asked@[k as int].deep_view());
            assert(decided[k as int] == decisions@[k as int].deep_view());
        }
        let key: &(String, u32) = &asked[k];
        match find_file(facts, &key.0) {
            Some(place) => {
                let file: &FileFacts = &facts[place];
                assert(fs[place as int] == file.deep_view());
                match find_member(&file.member_facts, key.1) {
                    Some(m) => {
                        add_decision(
                            &file.path,
                            &file.member_facts[m],
                            &decisions[k],
                            &mut findings,
                            &mut retentions,
                            &mut notices,
                        );
                    },
                    None => {
                        proof {
                            deep_outcome_fails_early(start, fs, wanted, decided, k + 1);
                        }
                        return Err(
                            ScanError::MissingParsedFact(
                                concat3(&key.0, ":", &decimal(key.1 as u64)),
                            ),
                        );
                    },
                }
            },
            None => {
                proof {
                    deep_outcome_fails_early(start, fs, wanted, decided, k + 1);
                }
                return Err(ScanError::MissingParsedFact(key.0.replicate()));
            },
        }
        k = k + 1;
    }
    assert(wanted.take(k as int) =~= wanted);
    sort_findings(&mut findings);
    sort_by::<RetentionReport, ByRetainedItem>(&mut retentions);
    sort_diagnostics(&mut notices);
    let mut deepened_report: ScanReport = report;
    deepened_report.summary.diagnostics = notices.len();
    deepened_report.status = analysis_status(&notices);
    deepened_report.findings = findings;
    deepened_report.retentions = retentions;
    deepened_report.diagnostics = notices;
    Ok((deepened_report, count))
}

} // verus!
