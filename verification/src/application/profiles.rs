//! One report from those of several target profiles.

use crate::application::diagnostics::{
    analysis_status, any_blocks, blocks_stay_when_merged, merge_duplicate_diagnostics,
    merged_diagnostics, status_of,
};
use crate::application::errors::{ProjectScanError, ProjectScanErrorModel};
use crate::application::findings::{sort_findings, ByFindingPlace};
use crate::application::scan::status_count;
use crate::collections::{
    collected, collected_is_ordered, sort_by, sorted_by, sorted_by_keeps_items, with_entry, OrderedMap,
    OrderedSet, Ranking,
};
use crate::domain::facts::{AnalysisDiagnostic, AnalysisDiagnosticModel, ExportFact};
use crate::domain::report::{
    AnalysisStatus, CacheReport, CacheReportModel, FileReport, FileReportModel, FileStatus,
    Finding, FindingModel, ImportReport, ImportReportModel, ReportSummary, RetentionReport,
    RetentionReportModel, ScanReport, ScanReportModel,
};
use crate::text::{concat4, one_text, same};
use crate::values::{append_items, push_item, replace_item, Ordered, Value};
use vstd::prelude::*;

verus! {

/// What is concluded of a file from what two profiles conclude: one that uses it is
/// enough to keep it, and one that cannot tell is enough not to tell.
pub open spec fn merged_status(left: FileStatus, right: FileStatus) -> FileStatus {
    if left == FileStatus::Reachable || right == FileStatus::Reachable {
        FileStatus::Reachable
    } else if left == FileStatus::Incomplete || right == FileStatus::Incomplete {
        FileStatus::Incomplete
    } else {
        FileStatus::Unreachable
    }
}

/// What is concluded of a file from what two profiles conclude.
#[must_use]
pub fn merge_file_status(left: FileStatus, right: FileStatus) -> (r: FileStatus)
    ensures
        r == merged_status(left, right),
{
    if left == FileStatus::Reachable || right == FileStatus::Reachable {
        FileStatus::Reachable
    } else if left == FileStatus::Incomplete || right == FileStatus::Incomplete {
        FileStatus::Incomplete
    } else {
        FileStatus::Unreachable
    }
}

/// Whether two findings are about the same thing.
pub open spec fn about_the_same(left: FindingModel, right: FindingModel) -> bool {
    &&& left.issue_id == right.issue_id
    &&& left.issue_type == right.issue_type
    &&& left.workspace == right.workspace
    &&& left.paths == right.paths
    &&& left.span == right.span
    &&& left.symbol == right.symbol
    &&& left.dependency == right.dependency
}

/// Whether two findings are about the same thing.
#[must_use]
pub fn same_finding(left: &Finding, right: &Finding) -> (r: bool)
    ensures
        r == about_the_same(left.deep_view(), right.deep_view()),
{
    left.issue_id.same_value(&right.issue_id) && left.issue_type.same_value(&right.issue_type)
        && left.workspace.same_value(&right.workspace) && left.paths.same_value(&right.paths)
        && left.span.same_value(&right.span) && left.symbol.same_value(&right.symbol)
        && left.dependency.same_value(&right.dependency)
}

/// An import as a profile sees it.
pub open spec fn tagged_import(import: ImportReportModel, profile: Seq<char>) -> ImportReportModel {
    ImportReportModel { target_profiles: seq![profile], ..import }
}

/// A file as a profile sees it.
pub open spec fn tagged_file(file: FileReportModel, profile: Seq<char>) -> FileReportModel {
    FileReportModel {
        target_statuses: seq![(profile, file.status)],
        imports: tagged_imports(file.imports, profile),
        ..file
    }
}

/// A finding as a profile makes it.
pub open spec fn tagged_finding(finding: FindingModel, profile: Seq<char>) -> FindingModel {
    FindingModel { target_profiles: seq![profile], ..finding }
}

/// A retention as a profile makes it.
pub open spec fn tagged_retention(
    retention: RetentionReportModel,
    profile: Seq<char>,
) -> RetentionReportModel {
    RetentionReportModel { target_profiles: seq![profile], ..retention }
}

/// A diagnostic as a profile makes it.
pub open spec fn tagged_diagnostic(
    diagnostic: AnalysisDiagnosticModel,
    profile: Seq<char>,
) -> AnalysisDiagnosticModel {
    AnalysisDiagnosticModel {
        message: "[target "@ + profile + "] "@ + diagnostic.message,
        ..diagnostic
    }
}

/// Imports as a profile sees them.
pub open spec fn tagged_imports(
    items: Seq<ImportReportModel>,
    profile: Seq<char>,
) -> Seq<ImportReportModel> {
    items.map_values(|item: ImportReportModel| tagged_import(item, profile))
}

fn tag_imports(items: &Vec<ImportReport>, profile: &str) -> (r: Vec<ImportReport>)
    ensures
        r.deep_view() == tagged_imports(items.deep_view(), profile@),
{
    let mut out: Vec<ImportReport> = Vec::new();
    let ghost model = items.deep_view();
    let mut i: usize = 0;
    while i < items.len()
        invariant
            i <= items.len(),
            model == items.deep_view(),
            out.deep_view() =~= tagged_imports(model.take(i as int), profile@),
        decreases items.len() - i,
    {
        proof {
            assert(model.take(i + 1).drop_last() =~= model.take(i as int));
            assert(model.take(i + 1).last() == items@[i as int].deep_view());
        }
        assert(model.take(i + 1) =~= model.take(i as int).push(items@[i as int].deep_view()));
        let mut item: ImportReport = items[i].replicate();
        item.target_profiles = one_text(profile);
        push_item(&mut out, item);
        i = i + 1;
    }
    assert(model.take(i as int) =~= model);
    out
}

/// Files as a profile sees them.
pub open spec fn tagged_files(
    items: Seq<FileReportModel>,
    profile: Seq<char>,
) -> Seq<FileReportModel> {
    items.map_values(|item: FileReportModel| tagged_file(item, profile))
}

fn tag_files(items: &Vec<FileReport>, profile: &str) -> (r: Vec<FileReport>)
    ensures
        r.deep_view() == tagged_files(items.deep_view(), profile@),
{
    let mut out: Vec<FileReport> = Vec::new();
    let ghost model = items.deep_view();
    let mut i: usize = 0;
    while i < items.len()
        invariant
            i <= items.len(),
            model == items.deep_view(),
            out.deep_view() =~= tagged_files(model.take(i as int), profile@),
        decreases items.len() - i,
    {
        proof {
            assert(model.take(i + 1).drop_last() =~= model.take(i as int));
            assert(model.take(i + 1).last() == items@[i as int].deep_view());
        }
        assert(model.take(i + 1) =~= model.take(i as int).push(items@[i as int].deep_view()));
        let mut item: FileReport = items[i].replicate();
        let mut statuses: OrderedMap<String, FileStatus> = OrderedMap::new();
        statuses.insert(profile.to_string(), item.status);
        assert(statuses.deep_view() =~= seq![(profile@, item.status)]);
        item.target_statuses = statuses;
        let imports: Vec<ImportReport> = tag_imports(&item.imports, profile);
        item.imports = imports;
        push_item(&mut out, item);
        i = i + 1;
    }
    assert(model.take(i as int) =~= model);
    out
}

/// Findings as a profile makes them.
pub open spec fn tagged_findings(
    items: Seq<FindingModel>,
    profile: Seq<char>,
) -> Seq<FindingModel> {
    items.map_values(|item: FindingModel| tagged_finding(item, profile))
}

fn tag_findings(items: &Vec<Finding>, profile: &str) -> (r: Vec<Finding>)
    ensures
        r.deep_view() == tagged_findings(items.deep_view(), profile@),
{
    let mut out: Vec<Finding> = Vec::new();
    let ghost model = items.deep_view();
    let mut i: usize = 0;
    while i < items.len()
        invariant
            i <= items.len(),
            model == items.deep_view(),
            out.deep_view() =~= tagged_findings(model.take(i as int), profile@),
        decreases items.len() - i,
    {
        proof {
            assert(model.take(i + 1).drop_last() =~= model.take(i as int));
            assert(model.take(i + 1).last() == items@[i as int].deep_view());
        }
        assert(model.take(i + 1) =~= model.take(i as int).push(items@[i as int].deep_view()));
        let mut item: Finding = items[i].replicate();
        item.target_profiles = one_text(profile);
        push_item(&mut out, item);
        i = i + 1;
    }
    assert(model.take(i as int) =~= model);
    out
}

/// Retentions as a profile makes them.
pub open spec fn tagged_retentions(
    items: Seq<RetentionReportModel>,
    profile: Seq<char>,
) -> Seq<RetentionReportModel> {
    items.map_values(|item: RetentionReportModel| tagged_retention(item, profile))
}

fn tag_retentions(items: &Vec<RetentionReport>, profile: &str) -> (r: Vec<RetentionReport>)
    ensures
        r.deep_view() == tagged_retentions(items.deep_view(), profile@),
{
    let mut out: Vec<RetentionReport> = Vec::new();
    let ghost model = items.deep_view();
    let mut i: usize = 0;
    while i < items.len()
        invariant
            i <= items.len(),
            model == items.deep_view(),
            out.deep_view() =~= tagged_retentions(model.take(i as int), profile@),
        decreases items.len() - i,
    {
        proof {
            assert(model.take(i + 1).drop_last() =~= model.take(i as int));
            assert(model.take(i + 1).last() == items@[i as int].deep_view());
        }
        assert(model.take(i + 1) =~= model.take(i as int).push(items@[i as int].deep_view()));
        let mut item: RetentionReport = items[i].replicate();
        item.target_profiles = one_text(profile);
        push_item(&mut out, item);
        i = i + 1;
    }
    assert(model.take(i as int) =~= model);
    out
}

/// Diagnostics as a profile makes them.
pub open spec fn tagged_diagnostics(
    items: Seq<AnalysisDiagnosticModel>,
    profile: Seq<char>,
) -> Seq<AnalysisDiagnosticModel> {
    items.map_values(|item: AnalysisDiagnosticModel| tagged_diagnostic(item, profile))
}

fn tag_diagnostics(items: &Vec<AnalysisDiagnostic>, profile: &str) -> (r: Vec<AnalysisDiagnostic>)
    ensures
        r.deep_view() == tagged_diagnostics(items.deep_view(), profile@),
{
    let mut out: Vec<AnalysisDiagnostic> = Vec::new();
    let ghost model = items.deep_view();
    let mut i: usize = 0;
    while i < items.len()
        invariant
            i <= items.len(),
            model == items.deep_view(),
            out.deep_view() =~= tagged_diagnostics(model.take(i as int), profile@),
        decreases items.len() - i,
    {
        proof {
            assert(model.take(i + 1).drop_last() =~= model.take(i as int));
            assert(model.take(i + 1).last() == items@[i as int].deep_view());
        }
        assert(model.take(i + 1) =~= model.take(i as int).push(items@[i as int].deep_view()));
        let mut item: AnalysisDiagnostic = items[i].replicate();
        let message: String = concat4("[target ", profile, "] ", &item.message);
        item.message = message;
        push_item(&mut out, item);
        i = i + 1;
    }
    assert(model.take(i as int) =~= model);
    out
}

/// Statuses by target profile with some more.
pub open spec fn with_statuses(
    items: Seq<(Seq<char>, FileStatus)>,
    start: Seq<(Seq<char>, FileStatus)>,
) -> Seq<(Seq<char>, FileStatus)>
    decreases items.len(),
{
    if items.len() == 0 {
        start
    } else {
        let rest = with_statuses(items.drop_last(), start);
        let last = items.last();
        with_entry::<String, FileStatus>(rest, last.0, last.1)
    }
}

/// A file as two profiles see it together.
pub open spec fn merged_file(left: FileReportModel, right: FileReportModel) -> FileReportModel {
    FileReportModel {
        status: merged_status(left.status, right.status),
        target_statuses: with_statuses(right.target_statuses, left.target_statuses),
        imports: collected::<ImportReport>(left.imports + right.imports),
        exports: collected::<ExportFact>(left.exports + right.exports),
        ..left
    }
}

fn merge_file(left: &FileReport, right: &FileReport) -> (r: FileReport)
    ensures
        r.deep_view() == merged_file(left.deep_view(), right.deep_view()),
{
    let mut statuses: OrderedMap<String, FileStatus> = left.target_statuses.replicate();
    let ghost start = left.target_statuses.deep_view();
    let more: &Vec<(String, FileStatus)> = right.target_statuses.entries();
    let ghost model = more.deep_view();
    let mut i: usize = 0;
    while i < more.len()
        invariant
            i <= more.len(),
            model == more.deep_view(),
            statuses.deep_view() == with_statuses(model.take(i as int), start),
        decreases more.len() - i,
    {
        proof {
            assert(model.take(i + 1).drop_last() =~= model.take(i as int));
            assert(model.take(i + 1).last() == more@[i as int].deep_view());
        }
        statuses.insert(more[i].0.replicate(), more[i].1);
        i = i + 1;
    }
    assert(model.take(i as int) =~= model);
    let mut imports: Vec<ImportReport> = left.imports.replicate();
    append_items(&mut imports, &right.imports);
    let unique_imports: OrderedSet<ImportReport> = OrderedSet::from_items(imports);
    let mut exports: Vec<ExportFact> = left.exports.replicate();
    append_items(&mut exports, &right.exports);
    let unique_exports: OrderedSet<ExportFact> = OrderedSet::from_items(exports);
    FileReport {
        path: left.path.replicate(),
        status: merge_file_status(left.status, right.status),
        target_statuses: statuses,
        source_kind: left.source_kind,
        module_kind: left.module_kind,
        byte_len: left.byte_len,
        line_count: left.line_count,
        content_digest: left.content_digest.replicate(),
        imports: unique_imports.into_items(),
        exports: unique_exports.into_items(),
    }
}

/// A finding that two profiles make together.
pub open spec fn merged_finding(left: FindingModel, right: FindingModel) -> FindingModel {
    FindingModel {
        target_profiles: collected::<String>(left.target_profiles + right.target_profiles),
        ..left
    }
}

/// Whether two retentions are about the same thing.
pub open spec fn retain_the_same(left: RetentionReportModel, right: RetentionReportModel) -> bool {
    &&& left.item == right.item
    &&& left.item_type == right.item_type
    &&& left.workspace == right.workspace
    &&& left.summary == right.summary
}

/// A retention that two profiles make together.
pub open spec fn merged_retention(
    left: RetentionReportModel,
    right: RetentionReportModel,
) -> RetentionReportModel {
    RetentionReportModel {
        target_profiles: collected::<String>(left.target_profiles + right.target_profiles),
        evidence: collected::<String>(left.evidence + right.evidence),
        ..left
    }
}

fn unite(left: &Vec<String>, right: &Vec<String>) -> (r: Vec<String>)
    ensures
        r.deep_view() == collected::<String>(left.deep_view() + right.deep_view()),
{
    let mut all: Vec<String> = left.replicate();
    append_items(&mut all, right);
    let unique: OrderedSet<String> = OrderedSet::from_items(all);
    unique.into_items()
}

fn merge_finding(left: &Finding, right: &Finding) -> (r: Finding)
    ensures
        r.deep_view() == merged_finding(left.deep_view(), right.deep_view()),
{
    let mut both: Finding = left.replicate();
    both.target_profiles = unite(&left.target_profiles, &right.target_profiles);
    both
}

fn same_retention(left: &RetentionReport, right: &RetentionReport) -> (r: bool)
    ensures
        r == retain_the_same(left.deep_view(), right.deep_view()),
{
    left.item.same_value(&right.item) && left.item_type.same_value(&right.item_type)
        && left.workspace.same_value(&right.workspace) && left.summary.same_value(&right.summary)
}

fn merge_retention(left: &RetentionReport, right: &RetentionReport) -> (r: RetentionReport)
    ensures
        r.deep_view() == merged_retention(left.deep_view(), right.deep_view()),
{
    let mut both: RetentionReport = left.replicate();
    both.target_profiles = unite(&left.target_profiles, &right.target_profiles);
    both.evidence = unite(&left.evidence, &right.evidence);
    both
}

/// The place of the first file with the path of another.
pub open spec fn first_file(items: Seq<FileReportModel>, wanted: FileReportModel) -> Option<nat>
    decreases items.len(),
{
    if items.len() == 0 {
        None
    } else {
        let rest = first_file(items.drop_last(), wanted);
        let last = items.last();
        if rest is Some {
            rest
        } else if last.path == wanted.path {
            Some((items.len() - 1) as nat)
        } else {
            None
        }
    }
}

/// Files with one more, merged with the one of its path.
pub open spec fn with_file(
    items: Seq<FileReportModel>,
    item: FileReportModel,
) -> Seq<FileReportModel> {
    match first_file(items, item) {
        Some(i) => items.update(i as int, merged_file(items[i as int], item)),
        None => items.push(item),
    }
}

/// Files with some more, each merged with the one of its path.
pub open spec fn with_files(
    items: Seq<FileReportModel>,
    start: Seq<FileReportModel>,
) -> Seq<FileReportModel>
    decreases items.len(),
{
    if items.len() == 0 {
        start
    } else {
        let rest = with_files(items.drop_last(), start);
        let last = items.last();
        with_file(rest, last)
    }
}

fn find_file(items: &Vec<FileReport>, wanted: &FileReport) -> (r: Option<usize>)
    ensures
        match r {
            Some(i) => i < items@.len() && first_file(items.deep_view(), wanted.deep_view()) == Some(
                i as nat,
            ),
            None => first_file(items.deep_view(), wanted.deep_view()) is None,
        },
{
    let mut found: Option<usize> = None;
    let ghost goal = wanted.deep_view();
    let ghost model = items.deep_view();
    let mut i: usize = 0;
    while i < items.len()
        invariant
            i <= items.len(),
            model == items.deep_view(),
            match found {
            Some(k) => k < i && first_file(model.take(i as int), goal) == Some(k as nat),
            None => first_file(model.take(i as int), goal) is None,
        },
            goal == wanted.deep_view(),
        decreases items.len() - i,
    {
        proof {
            assert(model.take(i + 1).drop_last() =~= model.take(i as int));
            assert(model.take(i + 1).last() == items@[i as int].deep_view());
        }
        if found.is_none() && same(&items[i].path, &wanted.path) {
            found = Some(i);
        }
        i = i + 1;
    }
    assert(model.take(i as int) =~= model);
    found
}

fn add_files(items: &mut Vec<FileReport>, more: &Vec<FileReport>)
    ensures
        final(items).deep_view() == with_files(more.deep_view(), old(items).deep_view()),
{
    let ghost start = items.deep_view();
    let ghost model = more.deep_view();
    let mut i: usize = 0;
    while i < more.len()
        invariant
            i <= more.len(),
            model == more.deep_view(),
            items.deep_view() == with_files(model.take(i as int), start),
        decreases more.len() - i,
    {
        proof {
            assert(model.take(i + 1).drop_last() =~= model.take(i as int));
            assert(model.take(i + 1).last() == more@[i as int].deep_view());
        }
        match find_file(items, &more[i]) {
            Some(k) => {
                let ghost held = items.deep_view();
                assert(held[k as int] == items@[k as int].deep_view());
                let both: FileReport = merge_file(&items[k], &more[i]);
                replace_item(items, k, both);
            },
            None => {
                push_item(items, more[i].replicate());
            },
        }
        i = i + 1;
    }
    assert(model.take(i as int) =~= model);
}

/// The place of the first finding that is about the same as another.
pub open spec fn first_finding(items: Seq<FindingModel>, wanted: FindingModel) -> Option<nat>
    decreases items.len(),
{
    if items.len() == 0 {
        None
    } else {
        let rest = first_finding(items.drop_last(), wanted);
        let last = items.last();
        if rest is Some {
            rest
        } else if about_the_same(last, wanted) {
            Some((items.len() - 1) as nat)
        } else {
            None
        }
    }
}

/// Findings with one more, merged with one about the same.
pub open spec fn with_finding(items: Seq<FindingModel>, item: FindingModel) -> Seq<FindingModel> {
    match first_finding(items, item) {
        Some(i) => items.update(i as int, merged_finding(items[i as int], item)),
        None => items.push(item),
    }
}

/// Findings with some more, each merged with one about the same.
pub open spec fn with_findings(
    items: Seq<FindingModel>,
    start: Seq<FindingModel>,
) -> Seq<FindingModel>
    decreases items.len(),
{
    if items.len() == 0 {
        start
    } else {
        let rest = with_findings(items.drop_last(), start);
        let last = items.last();
        with_finding(rest, last)
    }
}

fn find_finding(items: &Vec<Finding>, wanted: &Finding) -> (r: Option<usize>)
    ensures
        match r {
            Some(i) => i < items@.len() && first_finding(items.deep_view(), wanted.deep_view()) == Some(
                i as nat,
            ),
            None => first_finding(items.deep_view(), wanted.deep_view()) is None,
        },
{
    let mut found: Option<usize> = None;
    let ghost goal = wanted.deep_view();
    let ghost model = items.deep_view();
    let mut i: usize = 0;
    while i < items.len()
        invariant
            i <= items.len(),
            model == items.deep_view(),
            match found {
            Some(k) => k < i && first_finding(model.take(i as int), goal) == Some(k as nat),
            None => first_finding(model.take(i as int), goal) is None,
        },
            goal == wanted.deep_view(),
        decreases items.len() - i,
    {
        proof {
            assert(model.take(i + 1).drop_last() =~= model.take(i as int));
            assert(model.take(i + 1).last() == items@[i as int].deep_view());
        }
        if found.is_none() && same_finding(&items[i], wanted) {
            found = Some(i);
        }
        i = i + 1;
    }
    assert(model.take(i as int) =~= model);
    found
}

fn add_findings(items: &mut Vec<Finding>, more: &Vec<Finding>)
    ensures
        final(items).deep_view() == with_findings(more.deep_view(), old(items).deep_view()),
{
    let ghost start = items.deep_view();
    let ghost model = more.deep_view();
    let mut i: usize = 0;
    while i < more.len()
        invariant
            i <= more.len(),
            model == more.deep_view(),
            items.deep_view() == with_findings(model.take(i as int), start),
        decreases more.len() - i,
    {
        proof {
            assert(model.take(i + 1).drop_last() =~= model.take(i as int));
            assert(model.take(i + 1).last() == more@[i as int].deep_view());
        }
        match find_finding(items, &more[i]) {
            Some(k) => {
                let ghost held = items.deep_view();
                assert(held[k as int] == items@[k as int].deep_view());
                let both: Finding = merge_finding(&items[k], &more[i]);
                replace_item(items, k, both);
            },
            None => {
                push_item(items, more[i].replicate());
            },
        }
        i = i + 1;
    }
    assert(model.take(i as int) =~= model);
}

/// The place of the first retention that is about the same as another.
pub open spec fn first_retention(
    items: Seq<RetentionReportModel>,
    wanted: RetentionReportModel,
) -> Option<nat>
    decreases items.len(),
{
    if items.len() == 0 {
        None
    } else {
        let rest = first_retention(items.drop_last(), wanted);
        let last = items.last();
        if rest is Some {
            rest
        } else if retain_the_same(last, wanted) {
            Some((items.len() - 1) as nat)
        } else {
            None
        }
    }
}

/// Retentions with one more, merged with one about the same.
pub open spec fn with_retention(
    items: Seq<RetentionReportModel>,
    item: RetentionReportModel,
) -> Seq<RetentionReportModel> {
    match first_retention(items, item) {
        Some(i) => items.update(i as int, merged_retention(items[i as int], item)),
        None => items.push(item),
    }
}

/// Retentions with some more, each merged with one about the same.
pub open spec fn with_retentions(
    items: Seq<RetentionReportModel>,
    start: Seq<RetentionReportModel>,
) -> Seq<RetentionReportModel>
    decreases items.len(),
{
    if items.len() == 0 {
        start
    } else {
        let rest = with_retentions(items.drop_last(), start);
        let last = items.last();
        with_retention(rest, last)
    }
}

fn find_retention(items: &Vec<RetentionReport>, wanted: &RetentionReport) -> (r: Option<usize>)
    ensures
        match r {
            Some(i) => i < items@.len() && first_retention(items.deep_view(), wanted.deep_view()) == Some(
                i as nat,
            ),
            None => first_retention(items.deep_view(), wanted.deep_view()) is None,
        },
{
    let mut found: Option<usize> = None;
    let ghost goal = wanted.deep_view();
    let ghost model = items.deep_view();
    let mut i: usize = 0;
    while i < items.len()
        invariant
            i <= items.len(),
            model == items.deep_view(),
            match found {
            Some(k) => k < i && first_retention(model.take(i as int), goal) == Some(k as nat),
            None => first_retention(model.take(i as int), goal) is None,
        },
            goal == wanted.deep_view(),
        decreases items.len() - i,
    {
        proof {
            assert(model.take(i + 1).drop_last() =~= model.take(i as int));
            assert(model.take(i + 1).last() == items@[i as int].deep_view());
        }
        if found.is_none() && same_retention(&items[i], wanted) {
            found = Some(i);
        }
        i = i + 1;
    }
    assert(model.take(i as int) =~= model);
    found
}

fn add_retentions(items: &mut Vec<RetentionReport>, more: &Vec<RetentionReport>)
    ensures
        final(items).deep_view() == with_retentions(more.deep_view(), old(items).deep_view()),
{
    let ghost start = items.deep_view();
    let ghost model = more.deep_view();
    let mut i: usize = 0;
    while i < more.len()
        invariant
            i <= more.len(),
            model == more.deep_view(),
            items.deep_view() == with_retentions(model.take(i as int), start),
        decreases more.len() - i,
    {
        proof {
            assert(model.take(i + 1).drop_last() =~= model.take(i as int));
            assert(model.take(i + 1).last() == more@[i as int].deep_view());
        }
        match find_retention(items, &more[i]) {
            Some(k) => {
                let ghost held = items.deep_view();
                assert(held[k as int] == items@[k as int].deep_view());
                let both: RetentionReport = merge_retention(&items[k], &more[i]);
                replace_item(items, k, both);
            },
            None => {
                push_item(items, more[i].replicate());
            },
        }
        i = i + 1;
    }
    assert(model.take(i as int) =~= model);
}

/// Files by path.
pub struct ByReportPath;

impl Ranking<FileReport> for ByReportPath {
    type Key = String;

    open spec fn key(m: FileReportModel) -> Seq<char> {
        m.path
    }

    fn ranks_before(a: &FileReport, b: &FileReport) -> (r: bool) {
        a.path.is_before(&b.path)
    }
}

/// What the cache did for two profiles together, where it did something for both.
pub open spec fn merged_cache(
    left: Option<CacheReportModel>,
    right: Option<CacheReportModel>,
) -> Option<CacheReportModel> {
    match (left, right) {
        (Some(a), Some(b)) => Some(
            CacheReportModel {
                hits: (a.hits + b.hits) as usize,
                misses: (a.misses + b.misses) as usize,
                generation_written: a.generation_written || b.generation_written,
                ..a
            },
        ),
        _ => left,
    }
}

/// A report as a profile makes it.
pub open spec fn tagged(report: ScanReportModel, profile: Seq<char>) -> ScanReportModel {
    ScanReportModel {
        files: tagged_files(report.files, profile),
        findings: tagged_findings(report.findings, profile),
        retentions: tagged_retentions(report.retentions, profile),
        diagnostics: tagged_diagnostics(report.diagnostics, profile),
        ..report
    }
}

/// A report with that of one more profile.
pub open spec fn with_profile(rest: ScanReportModel, next: ScanReportModel) -> ScanReportModel {
    ScanReportModel {
        entries: collected::<String>(rest.entries + next.entries),
        files: with_files(next.files, rest.files),
        findings: with_findings(next.findings, rest.findings),
        retentions: with_retentions(next.retentions, rest.retentions),
        diagnostics: rest.diagnostics + next.diagnostics,
        cache: merged_cache(rest.cache, next.cache),
        ..rest
    }
}

/// The reports of the first profiles in one, not yet in order.
pub open spec fn gathered(reports: Seq<(Seq<char>, ScanReportModel)>) -> ScanReportModel
    recommends
        reports.len() > 0,
    decreases reports.len(),
{
    let last = tagged(reports.last().1, reports.last().0);
    if reports.len() <= 1 {
        last
    } else {
        with_profile(gathered(reports.drop_last()), last)
    }
}

/// What is concluded of each file of a report.
pub open spec fn statuses_of(files: Seq<FileReportModel>) -> Seq<FileStatus> {
    files.map_values(|file: FileReportModel| file.status)
}

/// A report in order, with its numbers.
pub open spec fn settled(report: ScanReportModel) -> ScanReportModel {
    let files = sorted_by::<FileReport, ByReportPath>(report.files);
    let diagnostics = merged_diagnostics(report.diagnostics);
    ScanReportModel {
        files,
        findings: sorted_by::<Finding, ByFindingPlace>(report.findings),
        diagnostics,
        summary: summary_of(statuses_of(files), diagnostics.len()),
        status: status_of(diagnostics),
        ..report
    }
}

/// One report from those of the profiles, or that there is none.
pub open spec fn merged_reports(reports: Seq<(Seq<char>, ScanReportModel)>) -> Result<
    ScanReportModel,
    ProjectScanErrorModel,
> {
    if reports.len() == 0 {
        Err(ProjectScanErrorModel::NoEntryRoots)
    } else {
        Ok(settled(gathered(reports)))
    }
}

/// How often the cache helped the profiles.
pub open spec fn total_hits(reports: Seq<(Seq<char>, ScanReportModel)>) -> nat
    decreases reports.len(),
{
    if reports.len() == 0 {
        0
    } else {
        total_hits(reports.drop_last()) + match reports.last().1.cache {
            Some(cache) => cache.hits as nat,
            None => 0nat,
        }
    }
}

/// How often the cache lacked something for the profiles.
pub open spec fn total_misses(reports: Seq<(Seq<char>, ScanReportModel)>) -> nat
    decreases reports.len(),
{
    if reports.len() == 0 {
        0
    } else {
        total_misses(reports.drop_last()) + match reports.last().1.cache {
            Some(cache) => cache.misses as nat,
            None => 0nat,
        }
    }
}

proof fn totals_grow(reports: Seq<(Seq<char>, ScanReportModel)>, n: int)
    requires
        0 <= n <= reports.len(),
    ensures
        total_hits(reports.take(n)) <= total_hits(reports),
        total_misses(reports.take(n)) <= total_misses(reports),
    decreases reports.len() - n,
{
    if n < reports.len() {
        totals_grow(reports, n + 1);
        assert(reports.take(n + 1).drop_last() =~= reports.take(n));
    } else {
        assert(reports.take(n) =~= reports);
    }
}

/// Marks what a report says as said by a profile.
pub fn tag_profile_report(report: &ScanReport, profile: &str) -> (r: ScanReport)
    ensures
        r.deep_view() == tagged(report.deep_view(), profile@),
{
    ScanReport {
        schema_version: report.schema_version,
        status: report.status,
        entries: report.entries.replicate(),
        summary: report.summary,
        files: tag_files(&report.files, profile),
        findings: tag_findings(&report.findings, profile),
        retentions: tag_retentions(&report.retentions, profile),
        project: report.project.replicate(),
        cache: report.cache.replicate(),
        diagnostics: tag_diagnostics(&report.diagnostics, profile),
    }
}

fn merge_caches(left: &Option<CacheReport>, right: &Option<CacheReport>) -> (r: Option<CacheReport>)
    requires
        match (left.deep_view(), right.deep_view()) {
            (Some(a), Some(b)) => a.hits + b.hits <= usize::MAX && a.misses + b.misses
                <= usize::MAX,
            _ => true,
        },
    ensures
        r.deep_view() == merged_cache(left.deep_view(), right.deep_view()),
{
    match (left, right) {
        (Some(a), Some(b)) => Some(
            CacheReport {
                status: a.status.replicate(),
                hits: a.hits + b.hits,
                misses: a.misses + b.misses,
                generation_written: a.generation_written || b.generation_written,
            },
        ),
        _ => left.replicate(),
    }
}

fn add_profile(rest: ScanReport, next: &ScanReport) -> (r: ScanReport)
    requires
        match (rest.cache.deep_view(), next.cache.deep_view()) {
            (Some(a), Some(b)) => a.hits + b.hits <= usize::MAX && a.misses + b.misses
                <= usize::MAX,
            _ => true,
        },
    ensures
        r.deep_view() == with_profile(rest.deep_view(), next.deep_view()),
{
    let mut report: ScanReport = rest;
    let entries: Vec<String> = unite(&report.entries, &next.entries);
    let cache: Option<CacheReport> = merge_caches(&report.cache, &next.cache);
    report.entries = entries;
    report.cache = cache;
    add_files(&mut report.files, &next.files);
    add_findings(&mut report.findings, &next.findings);
    add_retentions(&mut report.retentions, &next.retentions);
    append_items(&mut report.diagnostics, &next.diagnostics);
    report
}

fn list_statuses(files: &Vec<FileReport>) -> (r: Vec<FileStatus>)
    ensures
        r.deep_view() == statuses_of(files.deep_view()),
{
    let mut out: Vec<FileStatus> = Vec::new();
    let ghost model = files.deep_view();
    let mut i: usize = 0;
    while i < files.len()
        invariant
            i <= files.len(),
            model == files.deep_view(),
            out.deep_view() =~= statuses_of(model.take(i as int)),
        decreases files.len() - i,
    {
        proof {
            assert(model.take(i + 1).drop_last() =~= model.take(i as int));
            assert(model.take(i + 1).last() == files@[i as int].deep_view());
        }
        assert(model.take(i + 1) =~= model.take(i as int).push(files@[i as int].deep_view()));
        push_item(&mut out, files[i].status);
        i = i + 1;
    }
    assert(model.take(i as int) =~= model);
    out
}

/// The numbers of a report, from its files and its diagnostics.
pub open spec fn summary_of(
    statuses: Seq<FileStatus>,
    diagnostics: nat,
) -> ReportSummary {
    ReportSummary {
        files: statuses.len() as usize,
        reachable_files: status_count(statuses, FileStatus::Reachable) as usize,
        unreachable_files: status_count(statuses, FileStatus::Unreachable) as usize,
        incomplete_files: status_count(statuses, FileStatus::Incomplete) as usize,
        diagnostics: diagnostics as usize,
    }
}

/// The numbers of a report, from its files and its diagnostics.
#[must_use]
pub fn summarize(files: &Vec<FileReport>, diagnostics: usize) -> (r: ReportSummary)
    ensures
        r == summary_of(statuses_of(files.deep_view()), diagnostics as nat),
{
    let statuses: Vec<FileStatus> = list_statuses(files);
    let mut reachable_files: usize = 0;
    let mut unreachable_files: usize = 0;
    let mut incomplete_files: usize = 0;
    let ghost model = statuses.deep_view();
    let mut i: usize = 0;
    while i < statuses.len()
        invariant
            i <= statuses.len(),
            model == statuses.deep_view(),
            reachable_files == status_count(model.take(i as int), FileStatus::Reachable),
            unreachable_files == status_count(model.take(i as int), FileStatus::Unreachable),
            incomplete_files == status_count(model.take(i as int), FileStatus::Incomplete),
            reachable_files <= i,
            unreachable_files <= i,
            incomplete_files <= i,
        decreases statuses.len() - i,
    {
        proof {
            assert(model.take(i + 1).drop_last() =~= model.take(i as int));
            assert(model.take(i + 1).last() == statuses@[i as int].deep_view());
        }
        match statuses[i] {
            FileStatus::Reachable => {
                reachable_files = reachable_files + 1;
            },
            FileStatus::Unreachable => {
                unreachable_files = unreachable_files + 1;
            },
            FileStatus::Incomplete => {
                incomplete_files = incomplete_files + 1;
            },
        }
        i = i + 1;
    }
    assert(model.take(i as int) =~= model);
    let count: usize = statuses.len();
    assert(statuses.deep_view().len() == count);
    ReportSummary {
        files: count,
        reachable_files,
        unreachable_files,
        incomplete_files,
        diagnostics,
    }
}

/// Makes one report of those of the profiles.
pub fn merge_profile_reports(reports: &Vec<(String, ScanReport)>) -> (r: Result<
    ScanReport,
    ProjectScanError,
>)
    requires
        total_hits(reports.deep_view()) <= usize::MAX,
        total_misses(reports.deep_view()) <= usize::MAX,
    ensures
        match r {
            Ok(report) => merged_reports(reports.deep_view()) == Ok::<
                ScanReportModel,
                ProjectScanErrorModel,
            >(report.deep_view()),
            Err(error) => merged_reports(reports.deep_view()) == Err::<
                ScanReportModel,
                ProjectScanErrorModel,
            >(error.deep_view()),
        },
{
    let n: usize = reports.len();
    if n == 0 {
        return Err(ProjectScanError::NoEntryRoots);
    }
    let ghost model = reports.deep_view();
    let mut report: ScanReport = tag_profile_report(&reports[0].1, &reports[0].0);
    proof {
        assert(model.take(1).last() == reports@[0].deep_view());
        assert(model.take(1).drop_last() =~= model.take(0));
        assert(total_hits(model.take(0)) == 0);
        assert(total_misses(model.take(0)) == 0);
    }
    let mut i: usize = 1;
    while i < n
        invariant
            1 <= i <= n,
            n == reports@.len(),
            model == reports.deep_view(),
            total_hits(model) <= usize::MAX,
            total_misses(model) <= usize::MAX,
            report.deep_view() == gathered(model.take(i as int)),
            report.cache.deep_view() matches Some(cache) ==> cache.hits <= total_hits(
                model.take(i as int),
            ) && cache.misses <= total_misses(model.take(i as int)),
        decreases n - i,
    {
        proof {
            assert(model.take(i + 1).drop_last() =~= model.take(i as int));
            assert(model.take(i + 1).last() == reports@[i as int].deep_view());
            totals_grow(model, i + 1);
        }
        let next: ScanReport = tag_profile_report(&reports[i].1, &reports[i].0);
        report = add_profile(report, &next);
        i = i + 1;
    }
    assert(model.take(n as int) =~= model);
    sort_by::<FileReport, ByReportPath>(&mut report.files);
    sort_findings(&mut report.findings);
    merge_duplicate_diagnostics(&mut report.diagnostics);
    let count: usize = report.diagnostics.len();
    let summary: ReportSummary = summarize(&report.files, count);
    assert(report.diagnostics.deep_view().len() == count);
    let status: AnalysisStatus = analysis_status(&report.diagnostics);
    report.summary = summary;
    report.status = status;
    Ok(report)
}

/// It does not matter in which order profiles are merged, or how often: what is concluded of a
/// file stays the same.
pub proof fn statuses_merge_in_any_order(a: FileStatus, b: FileStatus, c: FileStatus)
    ensures
        merged_status(a, b) == merged_status(b, a),
        merged_status(merged_status(a, b), c) == merged_status(a, merged_status(b, c)),
        merged_status(a, a) == a,
{
}

/// Whether files hold one of a path that is in use.
pub open spec fn holds_used(files: Seq<FileReportModel>, path: Seq<char>) -> bool {
    exists|i: int|
        0 <= i < files.len() && (#[trigger] files[i]).path == path && files[i].status
            == FileStatus::Reachable
}

proof fn first_file_fits(items: Seq<FileReportModel>, wanted: FileReportModel)
    ensures
        first_file(items, wanted) matches Some(i) ==> i < items.len() && items[i as int].path
            == wanted.path,
    decreases items.len(),
{
    if items.len() > 0 {
        first_file_fits(items.drop_last(), wanted);
    }
}

proof fn used_stays_used(items: Seq<FileReportModel>, item: FileReportModel, path: Seq<char>)
    requires
        holds_used(items, path) || (item.path == path && item.status == FileStatus::Reachable),
    ensures
        holds_used(with_file(items, item), path),
{
    first_file_fits(items, item);
    let after = with_file(items, item);
    match first_file(items, item) {
        Some(i) => {
            if holds_used(items, path) {
                let w = choose|w: int|
                    0 <= w < items.len() && (#[trigger] items[w]).path == path && items[w].status
                        == FileStatus::Reachable;
                assert(after[w].path == path && after[w].status == FileStatus::Reachable);
            } else {
                assert(after[i as int].path == path && after[i as int].status
                    == FileStatus::Reachable);
            }
        },
        None => {
            if holds_used(items, path) {
                let w = choose|w: int|
                    0 <= w < items.len() && (#[trigger] items[w]).path == path && items[w].status
                        == FileStatus::Reachable;
                assert(after[w] == items[w]);
            } else {
                assert(after[items.len() as int] == item);
            }
        },
    }
}

proof fn used_stays_used_among(
    items: Seq<FileReportModel>,
    start: Seq<FileReportModel>,
    path: Seq<char>,
)
    requires
        holds_used(items, path) || holds_used(start, path),
    ensures
        holds_used(with_files(items, start), path),
    decreases items.len(),
{
    if items.len() > 0 {
        let rest = items.drop_last();
        if holds_used(start, path) {
            used_stays_used_among(rest, start, path);
        } else {
            let w = choose|w: int|
                0 <= w < items.len() && (#[trigger] items[w]).path == path && items[w].status
                    == FileStatus::Reachable;
            if w < rest.len() {
                assert(rest[w] == items[w]);
                used_stays_used_among(rest, start, path);
            }
        }
        used_stays_used(with_files(rest, start), items.last(), path);
    }
}

proof fn gathered_holds_used(
    reports: Seq<(Seq<char>, ScanReportModel)>,
    k: int,
    path: Seq<char>,
)
    requires
        0 <= k < reports.len(),
        holds_used(reports[k].1.files, path),
    ensures
        holds_used(gathered(reports).files, path),
    decreases reports.len(),
{
    let last = tagged(reports.last().1, reports.last().0);
    if k == reports.len() - 1 {
        let files = reports.last().1.files;
        let w = choose|w: int|
            0 <= w < files.len() && (#[trigger] files[w]).path == path && files[w].status
                == FileStatus::Reachable;
        assert(last.files[w].path == path && last.files[w].status == FileStatus::Reachable);
    }
    if reports.len() > 1 {
        let rest = reports.drop_last();
        if k < rest.len() {
            assert(rest[k] == reports[k]);
            gathered_holds_used(rest, k, path);
        }
        used_stays_used_among(last.files, gathered(rest).files, path);
    }
}

/// A file that one profile uses is in use for the project.
pub proof fn used_in_one_profile_is_used(
    reports: Seq<(Seq<char>, ScanReportModel)>,
    k: int,
    path: Seq<char>,
)
    requires
        0 <= k < reports.len(),
        holds_used(reports[k].1.files, path),
    ensures
        merged_reports(reports) matches Ok(report) && holds_used(report.files, path),
{
    broadcast use vstd::seq_lib::group_to_multiset_ensures;

    gathered_holds_used(reports, k, path);
    let files = gathered(reports).files;
    let ordered = sorted_by::<FileReport, ByReportPath>(files);
    let w = choose|w: int|
        0 <= w < files.len() && (#[trigger] files[w]).path == path && files[w].status
            == FileStatus::Reachable;
    sorted_by_keeps_items::<FileReport, ByReportPath>(files);
    assert(files.contains(files[w]));
    assert(files.to_multiset().count(files[w]) > 0);
    assert(ordered.contains(files[w]));
    let i = choose|i: int| 0 <= i < ordered.len() && ordered[i] == files[w];
    assert(ordered[i].path == path && ordered[i].status == FileStatus::Reachable);
}

/// Whether findings hold one about the same as another, for a profile.
pub open spec fn holds_finding(
    findings: Seq<FindingModel>,
    finding: FindingModel,
    profile: Seq<char>,
) -> bool {
    exists|i: int|
        0 <= i < findings.len() && about_the_same(#[trigger] findings[i], finding)
            && findings[i].target_profiles.contains(profile)
}

proof fn first_finding_fits(items: Seq<FindingModel>, wanted: FindingModel)
    ensures
        first_finding(items, wanted) matches Some(i) ==> i < items.len() && about_the_same(
            items[i as int],
            wanted,
        ),
    decreases items.len(),
{
    if items.len() > 0 {
        first_finding_fits(items.drop_last(), wanted);
    }
}

proof fn merged_finding_is_for_both(left: FindingModel, right: FindingModel, profile: Seq<char>)
    ensures
        merged_finding(left, right).target_profiles.contains(profile) <==> (
        left.target_profiles.contains(profile) || right.target_profiles.contains(profile)),
{
    let both = left.target_profiles + right.target_profiles;
    collected_is_ordered::<String>(both);
    if left.target_profiles.contains(profile) {
        let i = choose|i: int|
            0 <= i < left.target_profiles.len() && left.target_profiles[i] == profile;
        assert(both[i] == profile);
    }
    if right.target_profiles.contains(profile) {
        let i = choose|i: int|
            0 <= i < right.target_profiles.len() && right.target_profiles[i] == profile;
        assert(both[left.target_profiles.len() + i] == profile);
    }
}

proof fn findings_stay(
    items: Seq<FindingModel>,
    item: FindingModel,
    finding: FindingModel,
    profile: Seq<char>,
)
    requires
        holds_finding(items, finding, profile) || (about_the_same(item, finding)
            && item.target_profiles.contains(profile)),
    ensures
        holds_finding(with_finding(items, item), finding, profile),
{
    first_finding_fits(items, item);
    let after = with_finding(items, item);
    match first_finding(items, item) {
        Some(i) => {
            merged_finding_is_for_both(items[i as int], item, profile);
            if holds_finding(items, finding, profile) {
                let w = choose|w: int|
                    0 <= w < items.len() && about_the_same(#[trigger] items[w], finding)
                        && items[w].target_profiles.contains(profile);
                assert(about_the_same(after[w], finding));
                assert(after[w].target_profiles.contains(profile));
            } else {
                assert(about_the_same(after[i as int], finding));
                assert(after[i as int].target_profiles.contains(profile));
            }
        },
        None => {
            if holds_finding(items, finding, profile) {
                let w = choose|w: int|
                    0 <= w < items.len() && about_the_same(#[trigger] items[w], finding)
                        && items[w].target_profiles.contains(profile);
                assert(after[w] == items[w]);
            } else {
                assert(after[items.len() as int] == item);
            }
        },
    }
}

proof fn findings_stay_among(
    items: Seq<FindingModel>,
    start: Seq<FindingModel>,
    finding: FindingModel,
    profile: Seq<char>,
)
    requires
        holds_finding(items, finding, profile) || holds_finding(start, finding, profile),
    ensures
        holds_finding(with_findings(items, start), finding, profile),
    decreases items.len(),
{
    if items.len() > 0 {
        let rest = items.drop_last();
        if holds_finding(start, finding, profile) {
            findings_stay_among(rest, start, finding, profile);
        } else {
            let w = choose|w: int|
                0 <= w < items.len() && about_the_same(#[trigger] items[w], finding)
                    && items[w].target_profiles.contains(profile);
            if w < rest.len() {
                assert(rest[w] == items[w]);
                findings_stay_among(rest, start, finding, profile);
            }
        }
        findings_stay(with_findings(rest, start), items.last(), finding, profile);
    }
}

proof fn gathered_holds_finding(
    reports: Seq<(Seq<char>, ScanReportModel)>,
    k: int,
    j: int,
)
    requires
        0 <= k < reports.len(),
        0 <= j < reports[k].1.findings.len(),
    ensures
        holds_finding(gathered(reports).findings, reports[k].1.findings[j], reports[k].0),
    decreases reports.len(),
{
    let finding = reports[k].1.findings[j];
    let profile = reports[k].0;
    let last = tagged(reports.last().1, reports.last().0);
    if k == reports.len() - 1 {
        assert(last.findings[j].target_profiles[0] == profile);
        assert(last.findings[j].target_profiles.contains(profile));
        assert(about_the_same(last.findings[j], finding));
    }
    if reports.len() > 1 {
        let rest = reports.drop_last();
        if k < rest.len() {
            assert(rest[k] == reports[k]);
            gathered_holds_finding(rest, k, j);
        }
        findings_stay_among(last.findings, gathered(rest).findings, finding, profile);
    }
}

/// What a profile found is in the merged report, for that profile.
pub proof fn findings_of_profiles_are_kept(
    reports: Seq<(Seq<char>, ScanReportModel)>,
    k: int,
    j: int,
)
    requires
        0 <= k < reports.len(),
        0 <= j < reports[k].1.findings.len(),
    ensures
        merged_reports(reports) matches Ok(report) && holds_finding(
            report.findings,
            reports[k].1.findings[j],
            reports[k].0,
        ),
{
    broadcast use vstd::seq_lib::group_to_multiset_ensures;

    gathered_holds_finding(reports, k, j);
    let finding = reports[k].1.findings[j];
    let profile = reports[k].0;
    let findings = gathered(reports).findings;
    let ordered = sorted_by::<Finding, ByFindingPlace>(findings);
    let w = choose|w: int|
        0 <= w < findings.len() && about_the_same(#[trigger] findings[w], finding)
            && findings[w].target_profiles.contains(profile);
    sorted_by_keeps_items::<Finding, ByFindingPlace>(findings);
    assert(findings.contains(findings[w]));
    assert(findings.to_multiset().count(findings[w]) > 0);
    assert(ordered.contains(findings[w]));
    let i = choose|i: int| 0 <= i < ordered.len() && ordered[i] == findings[w];
    assert(about_the_same(ordered[i], finding));
}

proof fn gathered_blocks(reports: Seq<(Seq<char>, ScanReportModel)>, k: int)
    requires
        0 <= k < reports.len(),
        any_blocks(reports[k].1.diagnostics),
    ensures
        any_blocks(gathered(reports).diagnostics),
    decreases reports.len(),
{
    let last = tagged(reports.last().1, reports.last().0);
    if k == reports.len() - 1 {
        let diagnostics = reports.last().1.diagnostics;
        let w = choose|w: int|
            0 <= w < diagnostics.len() && (#[trigger] diagnostics[w]).blocks_reachability;
        assert(last.diagnostics[w].blocks_reachability);
    }
    if reports.len() > 1 {
        let rest = reports.drop_last();
        let all = gathered(reports).diagnostics;
        let front = gathered(rest).diagnostics;
        if k < rest.len() {
            assert(rest[k] == reports[k]);
            gathered_blocks(rest, k);
            let w = choose|w: int|
                0 <= w < front.len() && (#[trigger] front[w]).blocks_reachability;
            assert(all[w] == front[w]);
        } else {
            let w = choose|w: int|
                0 <= w < last.diagnostics.len()
                    && (#[trigger] last.diagnostics[w]).blocks_reachability;
            assert(all[front.len() + w] == last.diagnostics[w]);
        }
    }
}

/// Where one profile cannot tell, the project cannot: a blocked analysis stays incomplete when
/// reports are merged.
pub proof fn blocked_profiles_stay_incomplete(
    reports: Seq<(Seq<char>, ScanReportModel)>,
    k: int,
)
    requires
        0 <= k < reports.len(),
        any_blocks(reports[k].1.diagnostics),
    ensures
        merged_reports(reports) matches Ok(report) && report.status == AnalysisStatus::Incomplete,
{
    gathered_blocks(reports, k);
    blocks_stay_when_merged(gathered(reports).diagnostics);
}

/// Whether the sums of what the cache did for the profiles can be counted.
#[must_use]
pub fn totals_fit(reports: &Vec<(String, ScanReport)>) -> (r: bool)
    ensures
        r == (total_hits(reports.deep_view()) <= usize::MAX && total_misses(reports.deep_view())
            <= usize::MAX),
{
    let ghost model = reports.deep_view();
    let mut hits: usize = 0;
    let mut misses: usize = 0;
    let mut i: usize = 0;
    assert(model.take(0) =~= Seq::empty());
    while i < reports.len()
        invariant
            i <= reports.len(),
            model == reports.deep_view(),
            hits == total_hits(model.take(i as int)),
            misses == total_misses(model.take(i as int)),
        decreases reports.len() - i,
    {
        proof {
            assert(model.take(i + 1).drop_last() =~= model.take(i as int));
            assert(model.take(i + 1).last() == reports@[i as int].deep_view());
            totals_grow(model, i + 1);
        }
        match &reports[i].1.cache {
            Some(cache) => {
                assert(model[i as int].1.cache == Some(cache.deep_view()));
                match (hits.checked_add(cache.hits), misses.checked_add(cache.misses)) {
                    (Some(more_hits), Some(more_misses)) => {
                        hits = more_hits;
                        misses = more_misses;
                    },
                    _ => {
                        return false;
                    },
                }
            },
            None => {},
        }
        i = i + 1;
    }
    assert(model.take(i as int) =~= model);
    true
}

/// A report with another account of what the cache did.
pub open spec fn with_cache(
    report: ScanReportModel,
    cache: Option<CacheReportModel>,
) -> ScanReportModel {
    ScanReportModel { cache, ..report }
}

/// Whether reports of the same profiles say the same, but for what the cache did.
pub open spec fn same_but_for_caches(
    a: Seq<(Seq<char>, ScanReportModel)>,
    b: Seq<(Seq<char>, ScanReportModel)>,
) -> bool {
    a.len() == b.len() && forall|i: int|
        #![trigger a[i]]
        #![trigger b[i]]
        0 <= i < a.len() ==> a[i].0 == b[i].0 && with_cache(a[i].1, b[i].1.cache) == b[i].1
}

/// Whether the cache lacked nothing for a report, and nothing was written to it.
pub open spec fn missed_nothing(report: ScanReportModel) -> bool {
    match report.cache {
        Some(cache) => cache.misses == 0 && !cache.generation_written,
        None => false,
    }
}

proof fn gathered_but_for_caches(
    a: Seq<(Seq<char>, ScanReportModel)>,
    b: Seq<(Seq<char>, ScanReportModel)>,
)
    requires
        same_but_for_caches(a, b),
        a.len() > 0,
    ensures
        with_cache(gathered(a), gathered(b).cache) == gathered(b),
        (forall|i: int| 0 <= i < b.len() ==> missed_nothing((#[trigger] b[i]).1)) ==> missed_nothing(
            gathered(b),
        ),
    decreases a.len(),
{
    let n = a.len() - 1;
    assert(a.last() == a[n]);
    assert(b.last() == b[n]);
    if a.len() > 1 {
        let x = a.drop_last();
        let y = b.drop_last();
        assert forall|i: int|
            #![trigger x[i]]
            #![trigger y[i]]
            0 <= i < x.len() implies x[i].0 == y[i].0 && with_cache(x[i].1, y[i].1.cache)
            == y[i].1 by {
            assert(x[i] == a[i]);
            assert(y[i] == b[i]);
        }
        gathered_but_for_caches(x, y);
        if forall|i: int| 0 <= i < b.len() ==> missed_nothing((#[trigger] b[i]).1) {
            assert forall|i: int| 0 <= i < y.len() implies missed_nothing(
                (#[trigger] y[i]).1,
            ) by {
                assert(y[i] == b[i]);
            }
        }
    }
}

/// What the cache did changes nothing in the merged report but the account of it; and where it
/// lacked nothing for any profile, it lacked nothing for all of them.
pub proof fn caches_do_not_change_merged_reports(
    a: Seq<(Seq<char>, ScanReportModel)>,
    b: Seq<(Seq<char>, ScanReportModel)>,
)
    requires
        same_but_for_caches(a, b),
    ensures
        match (merged_reports(a), merged_reports(b)) {
            (Ok(x), Ok(y)) => with_cache(x, y.cache) == y && ((forall|i: int|
                0 <= i < b.len() ==> missed_nothing((#[trigger] b[i]).1)) ==> missed_nothing(y)),
            (Err(x), Err(y)) => x == y,
            _ => false,
        },
{
    if a.len() > 0 {
        gathered_but_for_caches(a, b);
    }
}

} // verus!
