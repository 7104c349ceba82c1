//! From conclusions to findings.

use crate::application::diagnostics::{span_start, start_of};
use crate::application::symbols::{usage, ResolvedSymbolLink, SymbolKey};
use crate::collections::{collected, sort_by, sorted_by, OrderedSet, Ranking};
use crate::domain::facts::{
    DeclarationKind, ExportBinding, ExportBindingModel, FileFacts, FileFactsModel, SourceSpan,
    SymbolFact, SymbolFactModel, SymbolFlags, UsageKind,
};
use crate::domain::ids::SymbolId;
use crate::domain::report::{Confidence, Finding, FindingModel, FixEligibility};
use crate::text::{
    concat2, concat3, concat5, decimal, digits, join, joined, no_texts, one_text, two_texts,
};
use crate::values::{push_item, Ordered, Value};
use vstd::prelude::*;

verus! {

/// The first of some paths.
pub open spec fn first_path(paths: Seq<Seq<char>>) -> Option<Seq<char>> {
    if paths.len() > 0 {
        Some(paths[0])
    } else {
        None
    }
}

fn path_is_before(a: &Vec<String>, b: &Vec<String>) -> (r: bool)
    ensures
        r == <Option<String> as Ordered>::before(
            first_path(a.deep_view()),
            first_path(b.deep_view()),
        ),
{
    if b.len() == 0 {
        return false;
    }
    assert(b.deep_view()[0] == b@[0]@);
    if a.len() == 0 {
        return true;
    }
    assert(a.deep_view()[0] == a@[0]@);
    a[0].is_before(&b[0])
}

fn same_path(a: &Vec<String>, b: &Vec<String>) -> (r: bool)
    ensures
        r == (first_path(a.deep_view()) == first_path(b.deep_view())),
{
    if a.len() == 0 || b.len() == 0 {
        return a.len() == b.len();
    }
    assert(a.deep_view()[0] == a@[0]@);
    assert(b.deep_view()[0] == b@[0]@);
    a[0].same_value(&b[0])
}

/// Findings by workspace, first path, place, rule, symbol and dependency.
pub struct ByFindingPlace;

impl Ranking<Finding> for ByFindingPlace {
    type Key = (String, (Option<String>, (u32, (&'static str, (Option<String>, Option<String>)))));

    open spec fn key(
        m: FindingModel,
    ) -> (Seq<char>, (Option<Seq<char>>, (u32, (Seq<char>, (Option<Seq<char>>, Option<Seq<char>>))))) {
        (m.workspace, (first_path(m.paths), (start_of(m.span), (m.issue_id, (m.symbol, m.dependency)))))
    }

    fn ranks_before(a: &Finding, b: &Finding) -> (r: bool) {
        a.workspace.is_before(&b.workspace) || (a.workspace.same_value(&b.workspace) && (path_is_before(&a.paths, &b.paths) || (same_path(&a.paths, &b.paths) && (span_start(&a.span).is_before(&span_start(&b.span)) || (span_start(&a.span) == span_start(&b.span) && (a.issue_id.is_before(&b.issue_id) || (a.issue_id.same_value(&b.issue_id) && (a.symbol.is_before(&b.symbol) || (a.symbol.same_value(&b.symbol) && (a.dependency.is_before(&b.dependency)))))))))))
    }
}

/// Puts findings in order.
pub fn sort_findings(findings: &mut Vec<Finding>)
    ensures
        final(findings).deep_view() == sorted_by::<Finding, ByFindingPlace>(
            old(findings).deep_view(),
        ),
{
    sort_by::<Finding, ByFindingPlace>(findings);
}

/// What is said of files that nothing reaches.
pub open spec fn unreachable_summary(paths: Seq<Seq<char>>) -> Seq<char> {
    if paths.len() > 1 {
        digits(paths.len()) + " files form an unreachable cycle"@
    } else {
        paths[0] + " is unreachable"@
    }
}

/// Why files count as unreachable.
pub open spec fn unreachable_evidence(
    paths: Seq<Seq<char>>,
    entries: Seq<Seq<char>>,
) -> Seq<Seq<char>> {
    let first = if entries.len() == 1 {
        "No resolved path from configured entry "@ + entries[0]
    } else {
        "No resolved path from any of the "@ + digits(entries.len()) + " configured entries"@
    };
    if paths.len() > 1 {
        seq![first, "The files retain one another but have no live incoming edge"@]
    } else {
        seq![first]
    }
}

fn summarize_unreachable(paths: &Vec<String>) -> (r: String)
    requires
        paths@.len() > 0,
    ensures
        r@ == unreachable_summary(paths.deep_view()),
{
    let n: usize = paths.len();
    if n > 1 {
        concat2(&decimal(n as u64), " files form an unreachable cycle")
    } else {
        assert(paths.deep_view()[0] == paths@[0]@);
        concat2(&paths[0], " is unreachable")
    }
}

fn explain_unreachable(paths: &Vec<String>, entries: &Vec<String>) -> (r: Vec<String>)
    ensures
        r.deep_view() == unreachable_evidence(paths.deep_view(), entries.deep_view()),
{
    let n: usize = entries.len();
    let first: String = if n == 1 {
        assert(entries.deep_view()[0] == entries@[0]@);
        concat2("No resolved path from configured entry ", &entries[0])
    } else {
        concat3("No resolved path from any of the ", &decimal(n as u64), " configured entries")
    };
    if paths.len() > 1 {
        two_texts(&first, "The files retain one another but have no live incoming edge")
    } else {
        one_text(&first)
    }
}

/// The finding about files that nothing reaches.
pub open spec fn unreachable_files(paths: Seq<Seq<char>>, entries: Seq<Seq<char>>) -> FindingModel {
    FindingModel {
        issue_id: "ORP1001"@,
        issue_type: "unusedFiles"@,
        workspace: "."@,
        target_profiles: seq!["default"@],
        paths: paths,
        span: None,
        symbol: None,
        dependency: None,
        confidence: Confidence::High,
        summary: unreachable_summary(paths),
        evidence: unreachable_evidence(paths, entries),
        blockers: Seq::empty(),
        suggested_actions: seq!["Review the files or configure an additional entry before removal"@],
        fix_eligibility: FixEligibility::PreviewOnly,
    }
}

fn unreachable_files_finding(paths: &Vec<String>, entries: &Vec<String>) -> (r: Finding)
    requires
        paths@.len() > 0,
    ensures
        r.deep_view() == unreachable_files(paths.deep_view(), entries.deep_view()),
{
    Finding {
        issue_id: "ORP1001",
        issue_type: "unusedFiles",
        workspace: ".".to_string(),
        target_profiles: one_text("default"),
        paths: paths.replicate(),
        span: None,
        symbol: None,
        dependency: None,
        confidence: Confidence::High,
        summary: summarize_unreachable(paths),
        evidence: explain_unreachable(paths, entries),
        blockers: no_texts(),
        suggested_actions: one_text(
            "Review the files or configure an additional entry before removal",
        ),
        fix_eligibility: FixEligibility::PreviewOnly,
    }
}

/// The paths of some files.
pub open spec fn paths_of(files: Seq<usize>, paths: Seq<Seq<char>>) -> Seq<Seq<char>> {
    files.map_values(|file: usize| paths[file as int])
}

/// The findings about groups of files that nothing reaches.
pub open spec fn file_findings(
    groups: Seq<Seq<usize>>,
    paths: Seq<Seq<char>>,
    entries: Seq<Seq<char>>,
) -> Seq<FindingModel> {
    groups.map_values(|group: Seq<usize>| unreachable_files(paths_of(group, paths), entries))
}

fn find_paths(files: &Vec<usize>, paths: &Vec<String>) -> (r: Vec<String>)
    requires
        forall|i: int| 0 <= i < files@.len() ==> #[trigger] files@[i] < paths@.len(),
    ensures
        r.deep_view() == paths_of(files.deep_view(), paths.deep_view()),
{
    let ghost names = paths.deep_view();
    let mut out: Vec<String> = Vec::new();
    let ghost model = files.deep_view();
    let mut i: usize = 0;
    while i < files.len()
        invariant
            i <= files.len(),
            model == files.deep_view(),
            out.deep_view() =~= paths_of(model.take(i as int), names),
            names == paths.deep_view(),
            forall|k: int| 0 <= k < files@.len() ==> #[trigger] files@[k] < paths@.len(),
        decreases files.len() - i,
    {
        proof {
            assert(model.take(i + 1).drop_last() =~= model.take(i as int));
            assert(model.take(i + 1).last() == files@[i as int].deep_view());
        }
        assert(model.take(i + 1) =~= model.take(i as int).push(files@[i as int]));
        push_item(&mut out, paths[files[i]].replicate());
        i = i + 1;
    }
    assert(model.take(i as int) =~= model);
    out
}

/// The findings about groups of files that nothing reaches.
#[must_use]
pub fn build_findings(
    groups: &Vec<Vec<usize>>,
    paths: &Vec<String>,
    entries: &Vec<String>,
) -> (r: Vec<Finding>)
    requires
        forall|g: int| 0 <= g < groups@.len() ==> (#[trigger] groups@[g])@.len() > 0,
        forall|g: int, k: int|
            0 <= g < groups@.len() && 0 <= k < groups@[g]@.len() ==> #[trigger] groups@[g]@[k]
                < paths@.len(),
    ensures
        r.deep_view() == file_findings(
            groups.deep_view(),
            paths.deep_view(),
            entries.deep_view(),
        ),
{
    let ghost names = paths.deep_view();
    let ghost starts = entries.deep_view();
    let mut out: Vec<Finding> = Vec::new();
    let ghost model = groups.deep_view();
    let mut i: usize = 0;
    while i < groups.len()
        invariant
            i <= groups.len(),
            model == groups.deep_view(),
            out.deep_view() =~= file_findings(model.take(i as int), names, starts),
            names == paths.deep_view(),
            starts == entries.deep_view(),
            forall|g: int| 0 <= g < groups@.len() ==> (#[trigger] groups@[g])@.len() > 0,
            forall|g: int, k: int|
                0 <= g < groups@.len() && 0 <= k < groups@[g]@.len() ==> #[trigger] groups@[g]@[k] < paths@.len(),
        decreases groups.len() - i,
    {
        proof {
            assert(model.take(i + 1).drop_last() =~= model.take(i as int));
            assert(model.take(i + 1).last() == groups@[i as int].deep_view());
        }
        assert(model.take(i + 1) =~= model.take(i as int).push(groups@[i as int].deep_view()));
        let group: Vec<String> = find_paths(&groups[i], paths);
        assert(group@.len() == groups@[i as int]@.len()) by {
            assert(group.deep_view().len() == groups@[i as int].deep_view().len());
        }
        push_item(&mut out, unreachable_files_finding(&group, entries));
        i = i + 1;
    }
    assert(model.take(i as int) =~= model);
    out
}

/// Whether a link leads to a symbol for a use.
pub open spec fn consumed(
    links: Seq<ResolvedSymbolLink>,
    target: SymbolKey,
    target_usage: UsageKind,
) -> bool {
    exists|i: int|
        0 <= i < links.len() && (#[trigger] links[i]).target == target && links[i].target_usage
            == target_usage
}

fn is_consumed(links: &Vec<ResolvedSymbolLink>, target: SymbolKey, target_usage: UsageKind) -> (r:
    bool)
    ensures
        r == consumed(links.deep_view(), target, target_usage),
{
    let ghost model = links.deep_view();
    let mut i: usize = 0;
    while i < links.len()
        invariant
            i <= links.len(),
            model == links.deep_view(),
            forall|k: int|
                0 <= k < i ==> (#[trigger] model[k]).target != target || model[k].target_usage
                    != target_usage,
        decreases links.len() - i,
    {
        assert(model[i as int] == links@[i as int]);
        if links[i].target == target && links[i].target_usage == target_usage {
            return true;
        }
        i = i + 1;
    }
    false
}

/// The finding about an export that nothing uses.
pub open spec fn unused_export(path: Seq<char>, export: ExportBindingModel) -> FindingModel {
    FindingModel {
        issue_id: "ORP1002"@,
        issue_type: "unusedExport"@,
        workspace: "."@,
        target_profiles: seq!["default"@],
        paths: seq![path],
        span: Some(export.span),
        symbol: Some(export.exported),
        dependency: None,
        confidence: Confidence::High,
        summary: "export "@ + export.exported + " from "@ + path + " has no live consumer"@,
        evidence: seq![
            "No resolved import or re-export reaches this export binding"@,
            "The package is analyzed as closed world for this entry"@,
        ],
        blockers: Seq::empty(),
        suggested_actions: seq![
            "Review the public contract and request a fix preview before editing"@,
        ],
        fix_eligibility: FixEligibility::PreviewOnly,
    }
}

fn unused_export_finding(path: &str, export: &ExportBinding) -> (r: Finding)
    ensures
        r.deep_view() == unused_export(path@, export.deep_view()),
{
    Finding {
        issue_id: "ORP1002",
        issue_type: "unusedExport",
        workspace: ".".to_string(),
        target_profiles: one_text("default"),
        paths: one_text(path),
        span: Some(export.span),
        symbol: Some(export.exported.replicate()),
        dependency: None,
        confidence: Confidence::High,
        summary: concat5(
            "export ",
            &export.exported,
            " from ",
            path,
            " has no live consumer",
        ),
        evidence: two_texts(
            "No resolved import or re-export reaches this export binding",
            "The package is analyzed as closed world for this entry",
        ),
        blockers: no_texts(),
        suggested_actions: one_text(
            "Review the public contract and request a fix preview before editing",
        ),
        fix_eligibility: FixEligibility::PreviewOnly,
    }
}

/// The findings about the exports of a file that nothing uses.
pub open spec fn unused_exports(
    items: Seq<ExportBindingModel>,
    path: Seq<char>,
    file: usize,
    links: Seq<ResolvedSymbolLink>,
) -> Seq<FindingModel>
    decreases items.len(),
{
    if items.len() == 0 {
        Seq::empty()
    } else {
        let rest = unused_exports(items.drop_last(), path, file, links);
        let last = items.last();
        match last.local {
            Some(local) => if consumed(
                links,
                SymbolKey { file, symbol: local },
                usage(last.type_only),
            ) {
                rest
            } else {
                rest.push(unused_export(path, last))
            },
            None => rest,
        }
    }
}

/// Symbols that nothing in use reaches.
#[derive(Debug, PartialEq, Eq)]
pub struct DeadGroup {
    pub members: Vec<SymbolKey>,
    pub cyclic: bool,
}

/// What a [`DeadGroup`] holds.
pub struct DeadGroupModel {
    pub members: Seq<SymbolKey>,
    pub cyclic: bool,
}

impl DeepView for DeadGroup {
    type V = DeadGroupModel;

    open spec fn deep_view(&self) -> DeadGroupModel {
        DeadGroupModel {
            members: self.members.deep_view(),
            cyclic: self.cyclic.deep_view(),
        }
    }
}

/// What symbol analysis concludes.
#[derive(Debug, PartialEq, Eq)]
pub struct SymbolAnalysis {
    /// For each file whether all its exports are known.
    pub exports_complete: Vec<bool>,
    pub dead_groups: Vec<DeadGroup>,
}

/// What a [`SymbolAnalysis`] holds.
pub struct SymbolAnalysisModel {
    pub exports_complete: Seq<bool>,
    pub dead_groups: Seq<DeadGroupModel>,
}

impl DeepView for SymbolAnalysis {
    type V = SymbolAnalysisModel;

    open spec fn deep_view(&self) -> SymbolAnalysisModel {
        SymbolAnalysisModel {
            exports_complete: self.exports_complete.deep_view(),
            dead_groups: self.dead_groups.deep_view(),
        }
    }
}

/// Whether the flag at a place is set.
pub open spec fn flag_at(flags: Seq<bool>, i: int) -> bool {
    0 <= i < flags.len() && flags[i]
}

fn flag(flags: &Vec<bool>, i: usize) -> (r: bool)
    ensures
        r == flag_at(flags.deep_view(), i as int),
{
    i < flags.len() && flags[i]
}

/// Whether the unused exports of a file are reported: it is in use, not open to the
/// world, and all its exports are known.
pub open spec fn exports_judged(
    reachable: Seq<bool>,
    open_world_files: Seq<bool>,
    exports_complete: Seq<bool>,
    i: int,
) -> bool {
    flag_at(reachable, i) && !flag_at(open_world_files, i) && flag_at(exports_complete, i)
}

/// The findings about exports that nothing uses.
pub open spec fn export_findings(
    items: Seq<FileFactsModel>,
    reachable: Seq<bool>,
    open_world_files: Seq<bool>,
    exports_complete: Seq<bool>,
    links: Seq<ResolvedSymbolLink>,
) -> Seq<FindingModel>
    decreases items.len(),
{
    if items.len() == 0 {
        Seq::empty()
    } else {
        let rest = export_findings(
            items.drop_last(),
            reachable,
            open_world_files,
            exports_complete,
            links,
        );
        let last = items.last();
        if exports_judged(reachable, open_world_files, exports_complete, items.len() - 1) {
            rest + unused_exports(
                last.symbol_facts.exports,
                last.path,
                (items.len() - 1) as usize,
                links,
            )
        } else {
            rest
        }
    }
}

fn add_unused_exports(
    exports: &Vec<ExportBinding>,
    path: &str,
    file: usize,
    links: &Vec<ResolvedSymbolLink>,
    findings: &mut Vec<Finding>,
)
    ensures
        final(findings).deep_view() == old(findings).deep_view() + unused_exports(
            exports.deep_view(),
            path@,
            file,
            links.deep_view(),
        ),
{
    let ghost known = links.deep_view();
    let ghost first = findings.deep_view();
    let ghost model = exports.deep_view();
    let mut i: usize = 0;
    while i < exports.len()
        invariant
            i <= exports.len(),
            model == exports.deep_view(),
            findings.deep_view() =~= first + unused_exports(model.take(i as int), path@, file, known),
            known == links.deep_view(),
        decreases exports.len() - i,
    {
        proof {
            assert(model.take(i + 1).drop_last() =~= model.take(i as int));
            assert(model.take(i + 1).last() == exports@[i as int].deep_view());
        }
        let export: &ExportBinding = &exports[i];
        match export.local {
            Some(local) => {
                let use_of: UsageKind = if export.type_only {
                    UsageKind::Type
                } else {
                    UsageKind::Runtime
                };
                if !is_consumed(links, SymbolKey { file, symbol: local }, use_of) {
                    push_item(findings, unused_export_finding(path, export));
                }
            },
            None => {},
        }
        i = i + 1;
    }
    assert(model.take(i as int) =~= model);
}

/// The findings about exports that nothing uses.
#[must_use]
pub fn build_unused_export_findings(
    facts: &Vec<FileFacts>,
    reachable: &Vec<bool>,
    open_world_files: &Vec<bool>,
    links: &Vec<ResolvedSymbolLink>,
    analysis: &SymbolAnalysis,
) -> (r: Vec<Finding>)
    ensures
        r.deep_view() == export_findings(
            facts.deep_view(),
            reachable.deep_view(),
            open_world_files.deep_view(),
            analysis.exports_complete.deep_view(),
            links.deep_view(),
        ),
{
    let ghost live = reachable.deep_view();
    let ghost open = open_world_files.deep_view();
    let ghost complete = analysis.exports_complete.deep_view();
    let ghost known = links.deep_view();
    let mut findings: Vec<Finding> = Vec::new();
    let ghost model = facts.deep_view();
    let mut i: usize = 0;
    while i < facts.len()
        invariant
            i <= facts.len(),
            model == facts.deep_view(),
            findings.deep_view() =~= export_findings(model.take(i as int), live, open, complete, known),
            live == reachable.deep_view(),
            open == open_world_files.deep_view(),
            complete == analysis.exports_complete.deep_view(),
            known == links.deep_view(),
        decreases facts.len() - i,
    {
        proof {
            assert(model.take(i + 1).drop_last() =~= model.take(i as int));
            assert(model.take(i + 1).last() == facts@[i as int].deep_view());
        }
        if flag(reachable, i) && !flag(open_world_files, i) && flag(&analysis.exports_complete, i) {
            add_unused_exports(
                &facts[i].symbol_facts.exports,
                &facts[i].path,
                i,
                links,
                &mut findings,
            );
        }
        i = i + 1;
    }
    assert(model.take(i as int) =~= model);
    findings
}

/// A symbol that nothing in use reaches, where it stands.
#[derive(Debug, PartialEq, Eq)]
pub struct DeadMember {
    pub key: SymbolKey,
    pub path: String,
    pub name: String,
    pub span: SourceSpan,
    pub flags: SymbolFlags,
}

/// What a [`DeadMember`] holds.
pub struct DeadMemberModel {
    pub key: SymbolKey,
    pub path: Seq<char>,
    pub name: Seq<char>,
    pub span: SourceSpan,
    pub flags: SymbolFlags,
}

impl DeepView for DeadMember {
    type V = DeadMemberModel;

    open spec fn deep_view(&self) -> DeadMemberModel {
        DeadMemberModel {
            key: self.key.deep_view(),
            path: self.path.deep_view(),
            name: self.name.deep_view(),
            span: self.span.deep_view(),
            flags: self.flags.deep_view(),
        }
    }
}

impl Value for DeadMember {
    fn replicate(&self) -> (r: Self) {
        DeadMember {
            key: self.key.replicate(),
            path: self.path.replicate(),
            name: self.name.replicate(),
            span: self.span.replicate(),
            flags: self.flags.replicate(),
        }
    }

    fn same_value(&self, other: &Self) -> (r: bool) {
        self.key.same_value(&other.key)
            && self.path.same_value(&other.path)
            && self.name.same_value(&other.name)
            && self.span.same_value(&other.span)
            && self.flags.same_value(&other.flags)
    }
}

/// Symbols by file, number and place.
pub struct ByDeclaration;

impl Ranking<DeadMember> for ByDeclaration {
    type Key = (SymbolKey, u32);

    open spec fn key(m: DeadMemberModel) -> (SymbolKey, u32) {
        (m.key, m.span.start)
    }

    fn ranks_before(a: &DeadMember, b: &DeadMember) -> (r: bool) {
        assert(a.key.deep_view() == a.key && b.key.deep_view() == b.key);
        assert(a.span.start.deep_view() == a.span.start && b.span.start.deep_view() == b.span.start);
        a.key.is_before(&b.key) || (a.key == b.key && (a.span.start.is_before(&b.span.start)))
    }
}

/// The first symbol with a number.
pub open spec fn symbol_with_id(
    items: Seq<SymbolFactModel>,
    id: SymbolId,
) -> Option<SymbolFactModel>
    decreases items.len(),
{
    if items.len() == 0 {
        None
    } else {
        let rest = symbol_with_id(items.drop_last(), id);
        let last = items.last();
        if rest is Some {
            rest
        } else if last.id == id {
            Some(last)
        } else {
            None
        }
    }
}

/// A symbol where it is declared, unless it is imported.
pub open spec fn declared_member(
    facts: Seq<FileFactsModel>,
    key: SymbolKey,
) -> Option<DeadMemberModel> {
    if key.file < facts.len() {
        match symbol_with_id(facts[key.file as int].symbol_facts.symbols, key.symbol) {
            Some(symbol) => if symbol.kind == DeclarationKind::Import {
                None
            } else {
                Some(
                    DeadMemberModel {
                        key,
                        path: facts[key.file as int].path,
                        name: symbol.name,
                        span: symbol.span,
                        flags: symbol.flags,
                    },
                )
            },
            None => None,
        }
    } else {
        None
    }
}

/// The declared ones of some symbols.
pub open spec fn declared_members(
    items: Seq<SymbolKey>,
    facts: Seq<FileFactsModel>,
) -> Seq<DeadMemberModel>
    decreases items.len(),
{
    if items.len() == 0 {
        Seq::empty()
    } else {
        let rest = declared_members(items.drop_last(), facts);
        let last = items.last();
        match declared_member(facts, last) {
            Some(member) => rest.push(member),
            None => rest,
        }
    }
}

fn find_declared(facts: &Vec<FileFacts>, key: SymbolKey) -> (r: Option<DeadMember>)
    ensures
        r.deep_view() == declared_member(facts.deep_view(), key),
{
    if key.file >= facts.len() {
        return None;
    }
    let file: &FileFacts = &facts[key.file];
    assert(facts.deep_view()[key.file as int] == file.deep_view());
    let symbols: &Vec<SymbolFact> = &file.symbol_facts.symbols;
    let mut found: Option<usize> = None;
    let ghost model = symbols.deep_view();
    let mut i: usize = 0;
    while i < symbols.len()
        invariant
            i <= symbols.len(),
            model == symbols.deep_view(),
            match found {
            Some(k) => k < i && symbol_with_id(model.take(i as int), key.symbol) == Some(symbols@[k as int].deep_view()),
            None => symbol_with_id(model.take(i as int), key.symbol) is None,
        },
        decreases symbols.len() - i,
    {
        proof {
            assert(model.take(i + 1).drop_last() =~= model.take(i as int));
            assert(model.take(i + 1).last() == symbols@[i as int].deep_view());
        }
        if found.is_none() && symbols[i].id == key.symbol {
            found = Some(i);
        }
        i = i + 1;
    }
    assert(model.take(i as int) =~= model);
    match found {
        Some(k) => {
            let symbol: &SymbolFact = &symbols[k];
            if symbol.kind == DeclarationKind::Import {
                None
            } else {
                Some(
                    DeadMember {
                        key,
                        path: file.path.replicate(),
                        name: symbol.name.replicate(),
                        span: symbol.span,
                        flags: symbol.flags,
                    },
                )
            }
        },
        None => None,
    }
}

/// The names of some symbols.
pub open spec fn member_names(members: Seq<DeadMemberModel>) -> Seq<Seq<char>> {
    members.map_values(|member: DeadMemberModel| member.name)
}

/// The files of some symbols, in order.
pub open spec fn member_paths(members: Seq<DeadMemberModel>) -> Seq<Seq<char>> {
    collected::<String>(members.map_values(|member: DeadMemberModel| member.path))
}

/// What is said of declarations that nothing in use reaches.
pub open spec fn declaration_summary(members: Seq<DeadMemberModel>, cyclic: bool) -> Seq<char> {
    if members.len() == 1 {
        "declaration "@ + members[0].name + " has no live reference"@
    } else if cyclic {
        digits(members.len()) + " declarations form a dead recursive group: "@ + joined(
            member_names(members),
            ", "@,
        )
    } else {
        digits(members.len()) + " declarations are unreachable"@
    }
}

/// Whether a declaration can be cut out: it stands alone, its span is its own, and its
/// initializer does nothing.
pub open spec fn removal_is_safe(members: Seq<DeadMemberModel>) -> bool {
    members.len() == 1 && members[0].flags.safe_removal_span
        && !members[0].flags.initializer_effectful
}

fn names_of_members(members: &Vec<DeadMember>) -> (r: Vec<String>)
    ensures
        r.deep_view() == member_names(members.deep_view()),
{
    let mut names: Vec<String> = Vec::new();
    let ghost model = members.deep_view();
    let mut i: usize = 0;
    while i < members.len()
        invariant
            i <= members.len(),
            model == members.deep_view(),
            names.deep_view() =~= member_names(model.take(i as int)),
        decreases members.len() - i,
    {
        proof {
            assert(model.take(i + 1).drop_last() =~= model.take(i as int));
            assert(model.take(i + 1).last() == members@[i as int].deep_view());
        }
        assert(model.take(i + 1) =~= model.take(i as int).push(members@[i as int].deep_view()));
        push_item(&mut names, members[i].name.replicate());
        i = i + 1;
    }
    assert(model.take(i as int) =~= model);
    names
}

fn paths_of_members(members: &Vec<DeadMember>) -> (r: Vec<String>)
    ensures
        r.deep_view() == member_paths(members.deep_view()),
{
    let mut paths: Vec<String> = Vec::new();
    let ghost model = members.deep_view();
    let mut i: usize = 0;
    while i < members.len()
        invariant
            i <= members.len(),
            model == members.deep_view(),
            paths.deep_view() =~= model.take(i as int).map_values(|member: DeadMemberModel| member.path),
        decreases members.len() - i,
    {
        proof {
            assert(model.take(i + 1).drop_last() =~= model.take(i as int));
            assert(model.take(i + 1).last() == members@[i as int].deep_view());
        }
        assert(model.take(i + 1) =~= model.take(i as int).push(members@[i as int].deep_view()));
        push_item(&mut paths, members[i].path.replicate());
        i = i + 1;
    }
    assert(model.take(i as int) =~= model);
    let unique: OrderedSet<String> = OrderedSet::from_items(paths);
    unique.into_items()
}

fn summarize_declarations(members: &Vec<DeadMember>, cyclic: bool) -> (r: String)
    ensures
        r@ == declaration_summary(members.deep_view(), cyclic),
{
    let n: usize = members.len();
    if n == 1 {
        assert(members.deep_view()[0] == members@[0].deep_view());
        concat3("declaration ", &members[0].name, " has no live reference")
    } else if cyclic {
        let names: Vec<String> = names_of_members(members);
        concat3(
            &decimal(n as u64),
            " declarations form a dead recursive group: ",
            &join(&names, ", "),
        )
    } else {
        concat2(&decimal(n as u64), " declarations are unreachable")
    }
}

/// Why declarations count as unused.
pub open spec fn declaration_evidence(cyclic: bool) -> Seq<char> {
    if cyclic {
        "The declarations reference one another but no live root reaches the group"@
    } else {
        "No reachable execution region, import, export contract, or live declaration reaches this binding"@
    }
}

/// What to do about declarations that are not used.
pub open spec fn declaration_action(members: Seq<DeadMemberModel>) -> Seq<char> {
    if removal_is_safe(members) {
        "Inspect the exact declaration span in a fix preview"@
    } else {
        "The binding may be unused while its initializer or attached trivia still requires review"@
    }
}

fn explain_declarations(cyclic: bool) -> (r: &'static str)
    ensures
        r@ == declaration_evidence(cyclic),
{
    if cyclic {
        "The declarations reference one another but no live root reaches the group"
    } else {
        "No reachable execution region, import, export contract, or live declaration reaches this binding"
    }
}

fn advise_on_declarations(members: &Vec<DeadMember>) -> (r: &'static str)
    ensures
        r@ == declaration_action(members.deep_view()),
{
    if members.len() == 1 {
        assert(members.deep_view()[0] == members@[0].deep_view());
    }
    if members.len() == 1 && members[0].flags.safe_removal_span
        && !members[0].flags.initializer_effectful {
        "Inspect the exact declaration span in a fix preview"
    } else {
        "The binding may be unused while its initializer or attached trivia still requires review"
    }
}

/// The finding about declarations that nothing in use reaches.
pub open spec fn unused_declaration(members: Seq<DeadMemberModel>, cyclic: bool) -> FindingModel {
    FindingModel {
        issue_id: "ORP1003"@,
        issue_type: "unusedDeclaration"@,
        workspace: "."@,
        target_profiles: seq!["default"@],
        paths: member_paths(members),
        span: Some(members[0].span),
        symbol: Some(joined(member_names(members), ", "@)),
        dependency: None,
        confidence: Confidence::High,
        summary: declaration_summary(members, cyclic),
        evidence: seq![declaration_evidence(cyclic)],
        blockers: Seq::empty(),
        suggested_actions: seq![declaration_action(members)],
        fix_eligibility: FixEligibility::PreviewOnly,
    }
}

fn unused_declaration_finding(members: &Vec<DeadMember>, cyclic: bool) -> (r: Finding)
    requires
        members@.len() > 0,
    ensures
        r.deep_view() == unused_declaration(members.deep_view(), cyclic),
{
    assert(members.deep_view()[0] == members@[0].deep_view());
    Finding {
        issue_id: "ORP1003",
        issue_type: "unusedDeclaration",
        workspace: ".".to_string(),
        target_profiles: one_text("default"),
        paths: paths_of_members(members),
        span: Some(members[0].span),
        symbol: Some(join(&names_of_members(members), ", ")),
        dependency: None,
        confidence: Confidence::High,
        summary: summarize_declarations(members, cyclic),
        evidence: one_text(explain_declarations(cyclic)),
        blockers: no_texts(),
        suggested_actions: one_text(advise_on_declarations(members)),
        fix_eligibility: FixEligibility::PreviewOnly,
    }
}

/// The declared symbols of a group, in order.
pub open spec fn group_members(
    facts: Seq<FileFactsModel>,
    group: DeadGroupModel,
) -> Seq<DeadMemberModel> {
    sorted_by::<DeadMember, ByDeclaration>(declared_members(group.members, facts))
}

/// The findings about declarations that nothing in use reaches.
pub open spec fn declaration_findings(
    items: Seq<DeadGroupModel>,
    facts: Seq<FileFactsModel>,
) -> Seq<FindingModel>
    decreases items.len(),
{
    if items.len() == 0 {
        Seq::empty()
    } else {
        let rest = declaration_findings(items.drop_last(), facts);
        let last = items.last();
        if group_members(facts, last).len() == 0 {
            rest
        } else {
            rest.push(unused_declaration(group_members(facts, last), last.cyclic))
        }
    }
}

fn members_of_group(facts: &Vec<FileFacts>, group: &DeadGroup) -> (r: Vec<DeadMember>)
    ensures
        r.deep_view() == group_members(facts.deep_view(), group.deep_view()),
{
    let ghost fs = facts.deep_view();
    let keys: &Vec<SymbolKey> = &group.members;
    let mut members: Vec<DeadMember> = Vec::new();
    let ghost model = keys.deep_view();
    let mut i: usize = 0;
    while i < keys.len()
        invariant
            i <= keys.len(),
            model == keys.deep_view(),
            members.deep_view() =~= declared_members(model.take(i as int), fs),
            fs == facts.deep_view(),
        decreases keys.len() - i,
    {
        proof {
            assert(model.take(i + 1).drop_last() =~= model.take(i as int));
            assert(model.take(i + 1).last() == keys@[i as int].deep_view());
        }
        match find_declared(facts, keys[i]) {
            Some(member) => {
                push_item(&mut members, member);
            },
            None => {},
        }
        i = i + 1;
    }
    assert(model.take(i as int) =~= model);
    sort_by::<DeadMember, ByDeclaration>(&mut members);
    members
}

/// The findings about exports and declarations that nothing uses.
#[must_use]
pub fn build_symbol_findings(
    facts: &Vec<FileFacts>,
    reachable: &Vec<bool>,
    open_world_files: &Vec<bool>,
    links: &Vec<ResolvedSymbolLink>,
    analysis: &SymbolAnalysis,
) -> (r: Vec<Finding>)
    ensures
        r.deep_view() == export_findings(
            facts.deep_view(),
            reachable.deep_view(),
            open_world_files.deep_view(),
            analysis.exports_complete.deep_view(),
            links.deep_view(),
        ) + declaration_findings(analysis.dead_groups.deep_view(), facts.deep_view()),
{
    let ghost fs = facts.deep_view();
    let mut findings: Vec<Finding> = build_unused_export_findings(
        facts,
        reachable,
        open_world_files,
        links,
        analysis,
    );
    let ghost first = findings.deep_view();
    let groups: &Vec<DeadGroup> = &analysis.dead_groups;
    let ghost model = groups.deep_view();
    let mut i: usize = 0;
    while i < groups.len()
        invariant
            i <= groups.len(),
            model == groups.deep_view(),
            findings.deep_view() =~= first + declaration_findings(model.take(i as int), fs),
            fs == facts.deep_view(),
        decreases groups.len() - i,
    {
        proof {
            assert(model.take(i + 1).drop_last() =~= model.take(i as int));
            assert(model.take(i + 1).last() == groups@[i as int].deep_view());
        }
        let members: Vec<DeadMember> = members_of_group(facts, &groups[i]);
        if members.len() > 0 {
            push_item(&mut findings, unused_declaration_finding(&members, groups[i].cyclic));
        }
        i = i + 1;
    }
    assert(model.take(i as int) =~= model);
    findings
}

/// Every finding about files that nothing reaches comes with evidence.
pub proof fn file_findings_come_with_evidence(
    groups: Seq<Seq<usize>>,
    paths: Seq<Seq<char>>,
    entries: Seq<Seq<char>>,
    i: int,
)
    requires
        0 <= i < file_findings(groups, paths, entries).len(),
    ensures
        file_findings(groups, paths, entries)[i].evidence.len() > 0,
{
}

proof fn exports_of_a_file_come_with_evidence(
    items: Seq<ExportBindingModel>,
    path: Seq<char>,
    file: usize,
    links: Seq<ResolvedSymbolLink>,
)
    ensures
        forall|i: int|
            0 <= i < unused_exports(items, path, file, links).len() ==> (
            #[trigger] unused_exports(items, path, file, links)[i]).evidence.len() > 0,
    decreases items.len(),
{
    if items.len() > 0 {
        exports_of_a_file_come_with_evidence(items.drop_last(), path, file, links);
    }
}

/// Every finding about exports that nothing uses comes with evidence.
pub proof fn export_findings_come_with_evidence(
    items: Seq<FileFactsModel>,
    reachable: Seq<bool>,
    open_world_files: Seq<bool>,
    exports_complete: Seq<bool>,
    links: Seq<ResolvedSymbolLink>,
)
    ensures
        ({
            let all = export_findings(items, reachable, open_world_files, exports_complete, links);
            forall|i: int| 0 <= i < all.len() ==> (#[trigger] all[i]).evidence.len() > 0
        }),
    decreases items.len(),
{
    if items.len() > 0 {
        export_findings_come_with_evidence(
            items.drop_last(),
            reachable,
            open_world_files,
            exports_complete,
            links,
        );
        exports_of_a_file_come_with_evidence(
            items.last().symbol_facts.exports,
            items.last().path,
            (items.len() - 1) as usize,
            links,
        );
    }
}

/// Every finding about declarations that nothing in use reaches comes with evidence.
pub proof fn declaration_findings_come_with_evidence(
    items: Seq<DeadGroupModel>,
    facts: Seq<FileFactsModel>,
)
    ensures
        forall|i: int|
            0 <= i < declaration_findings(items, facts).len() ==> (
            #[trigger] declaration_findings(items, facts)[i]).evidence.len() > 0,
    decreases items.len(),
{
    if items.len() > 0 {
        declaration_findings_come_with_evidence(items.drop_last(), facts);
    }
}

} // verus!
