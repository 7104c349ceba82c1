//! Which exports are in use, and which are reported as unused.

use crate::application::findings::{
    consumed, export_findings, unused_export, unused_exports,
};
use crate::application::resolution::ResolutionInputModel;
use crate::application::scan::{
    is_complete, open_flags, reachable_flags, report_of, scan_graph, AnalysisLimits,
    ScanEvidenceModel,
};
use crate::application::scan_laws::{
    dead_exports, findings_come_from_where_they_are_looked_for,
    nothing_blocks_where_no_gap_is_told, reachable_files_are_reached,
    rows_are_for_every_file,
};
use crate::application::symbols::{
    answers, binds, bound_names, export_targets, first_resolved, is_export_target, is_exported,
    links_by_binding, links_by_file, links_by_name, links_to, name_at_source, names_export,
    names_exported, offered_names, passes_on, place_of_path, reexport_roots, reexport_step,
    roots_by_binding, roots_by_file, roots_by_name, roots_of, stands_for, star_step, symbol_links,
    takes_from, target_file, ResolvedSymbolLink, SymbolKey, SymbolRoot,
};
use crate::collections::{ascending, collected, collected_is_ordered, listed};
use crate::domain::facts::{
    ExportBindingKind, ExportBindingModel, FileFactsModel, ImportBindingKind, ImportBindingModel,
    UsageKind,
};
use crate::domain::graph::{reached_stays_inside, reaches, reaches_further, reaches_itself};
use crate::domain::report::{FileStatus, FindingModel, ImportReportModel, ResolutionStatus};
use crate::values::Ordered;
use vstd::prelude::*;

verus! {

/// The way in which an export is used where it is: as a type, or at run time.
pub open spec fn use_of(export: ExportBindingModel) -> UsageKind {
    if export.type_only {
        UsageKind::Type
    } else {
        UsageKind::Runtime
    }
}

/// Whether some link leads to the symbol, used in the given way.
pub open spec fn is_linked(
    links: Seq<ResolvedSymbolLink>,
    target: SymbolKey,
    usage: UsageKind,
) -> bool {
    exists|l: int|
        0 <= l < links.len() && (#[trigger] links[l]).target == target && links[l].target_usage
            == usage
}

/// Whether a finding says that nothing uses the export of the file at `path`.
pub open spec fn says_unused(
    finding: FindingModel,
    path: Seq<char>,
    export: ExportBindingModel,
) -> bool {
    &&& finding.issue_id == "ORP1002"@
    &&& finding.paths == seq![path]
    &&& finding.span == Some(export.span)
    &&& finding.symbol == Some(export.exported)
}

/// Whether the exports of a file are judged: the file is in use, no one outside the project may
/// import it, and all of its exports are known.
pub open spec fn is_judged(
    reachable: Seq<bool>,
    open: Seq<bool>,
    complete: Seq<bool>,
    file: int,
) -> bool {
    &&& file < reachable.len() && reachable[file]
    &&& !(file < open.len() && open[file])
    &&& file < complete.len() && complete[file]
}

proof fn unused_in_file(
    items: Seq<ExportBindingModel>,
    path: Seq<char>,
    file: usize,
    links: Seq<ResolvedSymbolLink>,
    k: int,
)
    requires
        0 <= k < items.len(),
        items[k].local is Some,
        !is_linked(links, SymbolKey { file, symbol: items[k].local->0 }, use_of(items[k])),
    ensures
        unused_exports(items, path, file, links).contains(unused_export(path, items[k])),
    decreases items.len(),
{
    let front = items.drop_last();
    let rest = unused_exports(front, path, file, links);
    let all = unused_exports(items, path, file, links);
    if k < front.len() {
        unused_in_file(front, path, file, links, k);
        let j = choose|j: int| 0 <= j < rest.len() && rest[j] == unused_export(path, front[k]);
        assert(all[j] == unused_export(path, items[k]));
    } else {
        if consumed(links, SymbolKey { file, symbol: items[k].local->0 }, use_of(items[k])) {
            let l = choose|l: int|
                0 <= l < links.len() && (#[trigger] links[l]).target == (SymbolKey {
                    file,
                    symbol: items[k].local->0,
                }) && links[l].target_usage == use_of(items[k]);
            assert(is_linked(links, SymbolKey { file, symbol: items[k].local->0 }, use_of(items[k])));
        }
        assert(all[all.len() - 1] == unused_export(path, items[k]));
    }
}

proof fn reported_in_file(
    items: Seq<ExportBindingModel>,
    path: Seq<char>,
    file: usize,
    links: Seq<ResolvedSymbolLink>,
    j: int,
) -> (k: int)
    requires
        0 <= j < unused_exports(items, path, file, links).len(),
    ensures
        0 <= k < items.len(),
        items[k].local is Some,
        !is_linked(links, SymbolKey { file, symbol: items[k].local->0 }, use_of(items[k])),
        unused_exports(items, path, file, links)[j] == unused_export(path, items[k]),
    decreases items.len(),
{
    let front = items.drop_last();
    if j < unused_exports(front, path, file, links).len() {
        reported_in_file(front, path, file, links, j)
    } else {
        let last = items.last();
        let target = SymbolKey { file, symbol: last.local->0 };
        if is_linked(links, target, use_of(last)) {
            let l = choose|l: int|
                0 <= l < links.len() && (#[trigger] links[l]).target == target
                    && links[l].target_usage == use_of(last);
            assert(consumed(links, target, use_of(last)));
        }
        items.len() - 1
    }
}

/// An export of a file whose exports are judged is reported where no link leads to its symbol.
pub proof fn unused_exports_are_reported(
    facts: Seq<FileFactsModel>,
    reachable: Seq<bool>,
    open: Seq<bool>,
    complete: Seq<bool>,
    links: Seq<ResolvedSymbolLink>,
    file: int,
    k: int,
)
    requires
        facts.len() <= usize::MAX,
        0 <= file < facts.len(),
        is_judged(reachable, open, complete, file),
        0 <= k < facts[file].symbol_facts.exports.len(),
        ({
            let export = facts[file].symbol_facts.exports[k];
            export.local is Some && !is_linked(
                links,
                SymbolKey { file: file as usize, symbol: export.local->0 },
                use_of(export),
            )
        }),
    ensures
        exists|f: int|
            0 <= f < export_findings(facts, reachable, open, complete, links).len() && says_unused(
                #[trigger] export_findings(facts, reachable, open, complete, links)[f],
                facts[file].path,
                facts[file].symbol_facts.exports[k],
            ),
    decreases facts.len(),
{
    let front = facts.drop_last();
    let rest = export_findings(front, reachable, open, complete, links);
    let all = export_findings(facts, reachable, open, complete, links);
    let export = facts[file].symbol_facts.exports[k];
    if file < front.len() {
        assert(front[file] == facts[file]);
        unused_exports_are_reported(front, reachable, open, complete, links, file, k);
        let f = choose|f: int|
            0 <= f < rest.len() && says_unused(
                #[trigger] export_findings(front, reachable, open, complete, links)[f],
                front[file].path,
                front[file].symbol_facts.exports[k],
            );
        assert(all[f] == rest[f]);
        assert(says_unused(all[f], facts[file].path, export));
    } else {
        let own = unused_exports(
            facts[file].symbol_facts.exports,
            facts[file].path,
            file as usize,
            links,
        );
        unused_in_file(
            facts[file].symbol_facts.exports,
            facts[file].path,
            file as usize,
            links,
            k,
        );
        let j = choose|j: int|
            0 <= j < own.len() && own[j] == unused_export(facts[file].path, export);
        assert(all == rest + own);
        assert(all[rest.len() + j] == own[j]);
        assert(says_unused(all[rest.len() + j], facts[file].path, export));
    }
}

/// What is reported as an unused export is an export of a file whose exports are judged, with a
/// symbol of its own to which no link leads.
pub proof fn reported_exports_are_unused(
    facts: Seq<FileFactsModel>,
    reachable: Seq<bool>,
    open: Seq<bool>,
    complete: Seq<bool>,
    links: Seq<ResolvedSymbolLink>,
    f: int,
) -> (found: (int, int))
    requires
        facts.len() <= usize::MAX,
        0 <= f < export_findings(facts, reachable, open, complete, links).len(),
    ensures
        0 <= found.0 < facts.len(),
        is_judged(reachable, open, complete, found.0),
        0 <= found.1 < facts[found.0].symbol_facts.exports.len(),
        says_unused(
            export_findings(facts, reachable, open, complete, links)[f],
            facts[found.0].path,
            facts[found.0].symbol_facts.exports[found.1],
        ),
        facts[found.0].symbol_facts.exports[found.1].local is Some,
        !is_linked(
            links,
            SymbolKey {
                file: found.0 as usize,
                symbol: facts[found.0].symbol_facts.exports[found.1].local->0,
            },
            use_of(facts[found.0].symbol_facts.exports[found.1]),
        ),
    decreases facts.len(),
{
    let front = facts.drop_last();
    let n = facts.len() - 1;
    let rest = export_findings(front, reachable, open, complete, links);
    if f < rest.len() {
        reported_exports_are_unused(front, reachable, open, complete, links, f)
    } else {
        let k = reported_in_file(
            facts.last().symbol_facts.exports,
            facts.last().path,
            n as usize,
            links,
            f - rest.len(),
        );
        (n, k)
    }
}

/// Whether files outside the project may import the file: it is an entry, and is named as open,
/// or else the package is open.
pub open spec fn is_open(evidence: ScanEvidenceModel, entries: Seq<usize>, file: int) -> bool {
    entries.contains(file as usize) && match evidence.open_world_entries {
        Some(paths) => paths.contains(evidence.facts[file].path),
        None => evidence.manifest_open_world,
    }
}

/// In a report without gaps, an export of a reachable file that no one outside may
/// import, and whose exports are all known, is reported where no link leads to its symbol.
pub proof fn scans_report_unused_exports(
    input: ResolutionInputModel,
    evidence: ScanEvidenceModel,
    limits: AnalysisLimits,
    entries: Seq<usize>,
    file: int,
    k: int,
)
    requires
        is_complete(input, evidence, limits, entries),
        input.files.len() <= usize::MAX,
        0 <= file < input.files.len(),
        0 <= k < evidence.facts[file].symbol_facts.exports.len(),
        forall|d: int|
            0 <= d < report_of(input, evidence, limits, entries).diagnostics.len() ==> !(
            #[trigger] report_of(input, evidence, limits, entries).diagnostics[d]).blocks_reachability,
        report_of(input, evidence, limits, entries).files[file].status == FileStatus::Reachable,
        !is_open(evidence, entries, file),
        file < evidence.symbol_analysis.exports_complete.len(),
        evidence.symbol_analysis.exports_complete[file],
        evidence.facts[file].symbol_facts.exports[k].local is Some,
        !is_linked(
            symbol_links(evidence.facts, scan_graph(input, evidence, limits).imports),
            SymbolKey {
                file: file as usize,
                symbol: evidence.facts[file].symbol_facts.exports[k].local->0,
            },
            use_of(evidence.facts[file].symbol_facts.exports[k]),
        ),
    ensures
        exists|f: int|
            0 <= f < report_of(input, evidence, limits, entries).findings.len() && says_unused(
                #[trigger] report_of(input, evidence, limits, entries).findings[f],
                evidence.facts[file].path,
                evidence.facts[file].symbol_facts.exports[k],
            ),
{
    nothing_blocks_where_no_gap_is_told(input, evidence, limits, entries);
    let graph = scan_graph(input, evidence, limits);
    let reachable = reachable_flags(evidence.facts.len(), graph.edges, entries);
    let open = open_flags(
        evidence.facts,
        entries,
        evidence.manifest_open_world,
        evidence.open_world_entries,
    );
    let complete = evidence.symbol_analysis.exports_complete;
    let links = symbol_links(evidence.facts, graph.imports);
    reachable_files_are_reached(input, evidence, limits, entries, file);
    assert(reachable[file]);
    assert(!open[file]);
    unused_exports_are_reported(evidence.facts, reachable, open, complete, links, file, k);
    let all = export_findings(evidence.facts, reachable, open, complete, links);
    let f = choose|f: int|
        0 <= f < all.len() && says_unused(
            #[trigger] export_findings(evidence.facts, reachable, open, complete, links)[f],
            evidence.facts[file].path,
            evidence.facts[file].symbol_facts.exports[k],
        );
    assert(dead_exports(input, evidence, limits, entries) == all);
    assert(all.contains(all[f]));
    findings_come_from_where_they_are_looked_for(input, evidence, limits, entries, all[f]);
    let report = report_of(input, evidence, limits, entries);
    let g = choose|g: int| 0 <= g < report.findings.len() && report.findings[g] == all[f];
    assert(says_unused(
        report.findings[g],
        evidence.facts[file].path,
        evidence.facts[file].symbol_facts.exports[k],
    ));
}

/// Whether no two files are called alike, and no two exports of a file stand at one place.
pub open spec fn exports_told_apart(facts: Seq<FileFactsModel>) -> bool {
    &&& facts.len() <= usize::MAX
    &&& forall|i: int, j: int|
        0 <= i < j < facts.len() ==> (#[trigger] facts[i]).path != (#[trigger] facts[j]).path
    &&& forall|i: int, k: int, l: int|
        #![trigger facts[i].symbol_facts.exports[k], facts[i].symbol_facts.exports[l]]
        0 <= i < facts.len() && 0 <= k < l < facts[i].symbol_facts.exports.len() ==> (
        facts[i].symbol_facts.exports[k].span, facts[i].symbol_facts.exports[k].exported) != (
        facts[i].symbol_facts.exports[l].span, facts[i].symbol_facts.exports[l].exported)
}

/// No finding is about an export to which a link leads, about an export of a file that the
/// report calls unreachable, or about an export of a file that may be imported from outside.
pub proof fn exports_in_use_are_not_reported(
    input: ResolutionInputModel,
    evidence: ScanEvidenceModel,
    limits: AnalysisLimits,
    entries: Seq<usize>,
    file: int,
    k: int,
    f: int,
)
    requires
        is_complete(input, evidence, limits, entries),
        exports_told_apart(evidence.facts),
        0 <= file < input.files.len(),
        0 <= k < evidence.facts[file].symbol_facts.exports.len(),
        ({
            let export = evidence.facts[file].symbol_facts.exports[k];
            ||| export.local is Some && is_linked(
                symbol_links(evidence.facts, scan_graph(input, evidence, limits).imports),
                SymbolKey { file: file as usize, symbol: export.local->0 },
                use_of(export),
            )
            ||| export.local is None
            ||| report_of(input, evidence, limits, entries).files[file].status
                == FileStatus::Unreachable
            ||| is_open(evidence, entries, file)
        }),
        0 <= f < report_of(input, evidence, limits, entries).findings.len(),
    ensures
        !says_unused(
            report_of(input, evidence, limits, entries).findings[f],
            evidence.facts[file].path,
            evidence.facts[file].symbol_facts.exports[k],
        ),
{
    let facts = evidence.facts;
    let graph = scan_graph(input, evidence, limits);
    let reachable = reachable_flags(facts.len(), graph.edges, entries);
    let open = open_flags(
        facts,
        entries,
        evidence.manifest_open_world,
        evidence.open_world_entries,
    );
    let complete = evidence.symbol_analysis.exports_complete;
    let links = symbol_links(facts, graph.imports);
    let report = report_of(input, evidence, limits, entries);
    let export = facts[file].symbol_facts.exports[k];
    if says_unused(report.findings[f], facts[file].path, export) {
        assert(report.findings.contains(report.findings[f]));
        findings_come_from_where_they_are_looked_for(
            input,
            evidence,
            limits,
            entries,
            report.findings[f],
        );
        let all = export_findings(facts, reachable, open, complete, links);
        let g = choose|g: int| 0 <= g < all.len() && all[g] == report.findings[f];
        let (i, l) = reported_exports_are_unused(facts, reachable, open, complete, links, g);
        assert(seq![facts[i].path][0] == seq![facts[file].path][0]);
        assert(facts[i].path == facts[file].path);
        assert(i == file);
        let other = facts[file].symbol_facts.exports[l];
        assert(other.span == export.span && other.exported == export.exported);
        assert(l == k);
        assert(reachable[file]);
        crate::application::scan::statuses_follow_reachability(
            input,
            evidence,
            limits,
            entries,
            file,
        );
        assert(!open[file]);
    }
}

/// Whether the imports of a file by the given specifier lead to the file at `path`: one of them
/// is resolved, and all that are lead there.
pub open spec fn comes_from(
    rows: Seq<ImportReportModel>,
    specifier: Seq<char>,
    path: Seq<char>,
) -> bool {
    &&& exists|r: int|
        0 <= r < rows.len() && (#[trigger] rows[r]).specifier == specifier && rows[r].status
            == ResolutionStatus::Resolved
    &&& forall|r: int|
        0 <= r < rows.len() && (#[trigger] rows[r]).specifier == specifier && rows[r].status
            == ResolutionStatus::Resolved ==> rows[r].target == Some(path)
}

/// Whether a file passes on the name of another file as its own: it re-exports it, under this
/// name or another, or re-exports all that the other exports.
pub open spec fn hands_on(
    facts: Seq<FileFactsModel>,
    imports: Seq<Seq<ImportReportModel>>,
    from: (usize, Seq<char>),
    to: (usize, Seq<char>),
) -> bool {
    from.0 < facts.len() && from.0 < imports.len() && to.0 < facts.len() && exists|k: int|
        0 <= k < facts[from.0 as int].symbol_facts.exports.len() && {
            let export = #[trigger] facts[from.0 as int].symbol_facts.exports[k];
            &&& export.source is Some
            &&& comes_from(
                imports[from.0 as int],
                export.source->0,
                facts[to.0 as int].path,
            )
            &&& if export.kind == ExportBindingKind::Star {
                to.1 == from.1
            } else {
                export.exported == from.1 && to.1 == (if export.imported is Some {
                    export.imported->0
                } else {
                    from.1
                })
            }
        }
}

/// From a name of a file to the names of others that it stands for, in one step.
pub open spec fn handing_on(
    facts: Seq<FileFactsModel>,
    imports: Seq<Seq<ImportReportModel>>,
) -> spec_fn((usize, Seq<char>), (usize, Seq<char>)) -> bool {
    |a: (usize, Seq<char>), b: (usize, Seq<char>)| hands_on(facts, imports, a, b)
}

/// Whether a file re-exports all that another exports.
pub open spec fn re_exports_all(
    facts: Seq<FileFactsModel>,
    imports: Seq<Seq<ImportReportModel>>,
    from: usize,
    to: usize,
) -> bool {
    from < facts.len() && from < imports.len() && to < facts.len() && exists|k: int|
        0 <= k < facts[from as int].symbol_facts.exports.len() && {
            let export = #[trigger] facts[from as int].symbol_facts.exports[k];
            export.kind == ExportBindingKind::Star && export.source is Some && comes_from(
                imports[from as int],
                export.source->0,
                facts[to as int].path,
            )
        }
}

/// From a file to those that it re-exports all of, in one step.
pub open spec fn re_exporting_all(
    facts: Seq<FileFactsModel>,
    imports: Seq<Seq<ImportReportModel>>,
) -> spec_fn(usize, usize) -> bool {
    |a: usize, b: usize| re_exports_all(facts, imports, a, b)
}

/// Whether a file exports the name itself.
pub open spec fn exports_name(exports: Seq<ExportBindingModel>, name: Seq<char>) -> bool {
    exists|k: int|
        0 <= k < exports.len() && (#[trigger] exports[k]).kind != ExportBindingKind::Star
            && exports[k].exported == name
}

/// Whether an import binding takes the name from the file at `g`: its own one, or the default
/// one, or any that the file exports, itself or by re-exporting all of another.
pub open spec fn takes_name(
    binding: ImportBindingModel,
    facts: Seq<FileFactsModel>,
    imports: Seq<Seq<ImportReportModel>>,
    g: int,
    name: Seq<char>,
) -> bool {
    match binding.kind {
        ImportBindingKind::Default => name == "default"@,
        ImportBindingKind::Named => binding.imported == Some(name),
        _ => exists|f: usize|
            f < facts.len() && #[trigger] reaches(re_exporting_all(facts, imports), g as usize, f)
                && exports_name(facts[f as int].symbol_facts.exports, name),
    }
}

proof fn listed_holds<T: Ordered>(condition: spec_fn(T::V) -> bool, pool: Seq<T::V>)
    requires
        forall|x: T::V| #[trigger] condition(x) ==> pool.contains(x),
    ensures
        forall|x: T::V| #[trigger] listed::<T>(condition).contains(x) <==> condition(x),
{
    broadcast use vstd::seq_lib::group_filter_ensures;

    let held = pool.filter(condition);
    let s = collected::<T>(held);
    collected_is_ordered::<T>(held);
    assert forall|x: T::V| #[trigger] s.contains(x) <==> condition(x) by {
        assert(s.contains(x) <==> held.contains(x));
        if held.contains(x) {
            let i = choose|i: int| 0 <= i < held.len() && held[i] == x;
            assert(condition(held[i]));
        }
        if condition(x) {
            assert(pool.contains(x));
            let i = choose|i: int| 0 <= i < pool.len() && pool[i] == x;
            assert(held.contains(pool[i]));
        }
    }
    assert(ascending::<T>(s));
}

spec fn all_names(facts: Seq<FileFactsModel>) -> Seq<Seq<char>>
    decreases facts.len(),
{
    if facts.len() == 0 {
        Seq::empty()
    } else {
        all_names(facts.drop_last()) + facts.last().symbol_facts.exports.map_values(
            |export: ExportBindingModel| export.exported,
        )
    }
}

proof fn all_names_hold(facts: Seq<FileFactsModel>, i: int, k: int)
    requires
        0 <= i < facts.len(),
        0 <= k < facts[i].symbol_facts.exports.len(),
    ensures
        all_names(facts).contains(facts[i].symbol_facts.exports[k].exported),
    decreases facts.len(),
{
    let rest = all_names(facts.drop_last());
    let name = facts[i].symbol_facts.exports[k].exported;
    if i < facts.len() - 1 {
        all_names_hold(facts.drop_last(), i, k);
        let j = choose|j: int| 0 <= j < rest.len() && rest[j] == name;
        assert(all_names(facts)[j] == name);
    } else {
        assert(all_names(facts)[rest.len() + k] == name);
    }
}

spec fn all_targets(facts: Seq<FileFactsModel>) -> Seq<(SymbolKey, UsageKind)>
    decreases facts.len(),
{
    if facts.len() == 0 {
        Seq::empty()
    } else {
        let file = (facts.len() - 1) as usize;
        all_targets(facts.drop_last()) + facts.last().symbol_facts.exports.map_values(
            |export: ExportBindingModel|
                (SymbolKey { file, symbol: export.local->0 }, use_of(export)),
        )
    }
}

proof fn all_targets_hold(facts: Seq<FileFactsModel>, i: int, k: int)
    requires
        0 <= i < facts.len(),
        0 <= k < facts[i].symbol_facts.exports.len(),
    ensures
        all_targets(facts).contains(
            (
                SymbolKey {
                    file: i as usize,
                    symbol: facts[i].symbol_facts.exports[k].local->0,
                },
                use_of(facts[i].symbol_facts.exports[k]),
            ),
        ),
    decreases facts.len(),
{
    let rest = all_targets(facts.drop_last());
    let export = facts[i].symbol_facts.exports[k];
    let target = (SymbolKey { file: i as usize, symbol: export.local->0 }, use_of(export));
    if i < facts.len() - 1 {
        all_targets_hold(facts.drop_last(), i, k);
        let j = choose|j: int| 0 <= j < rest.len() && rest[j] == target;
        assert(all_targets(facts)[j] == target);
    } else {
        assert(all_targets(facts)[rest.len() + k] == target);
    }
}

proof fn targets_are_listed(
    facts: Seq<FileFactsModel>,
    imports: Seq<Seq<ImportReportModel>>,
    file: usize,
    name: Seq<char>,
)
    ensures
        forall|t: (SymbolKey, UsageKind)| #[trigger]
            export_targets(facts, imports, file, name).contains(t) <==> is_export_target(
                facts,
                imports,
                file,
                name,
                t,
            ),
{
    let condition = |t: (SymbolKey, UsageKind)| is_export_target(facts, imports, file, name, t);
    let pool = all_targets(facts);
    assert forall|t: (SymbolKey, UsageKind)| #[trigger] condition(t) implies pool.contains(t) by {
        let at = choose|at: (usize, Seq<char>)| #[trigger]
            reaches(reexport_step(facts, imports), (file, name), at) && stands_for(facts, at, t);
        let exports = facts[at.0 as int].symbol_facts.exports;
        let k = choose|k: int| 0 <= k < exports.len() && binds(at, #[trigger] exports[k], t);
        all_targets_hold(facts, at.0 as int, k);
    }
    listed_holds::<(SymbolKey, UsageKind)>(condition, pool);
    assert forall|t: (SymbolKey, UsageKind)| #[trigger]
        export_targets(facts, imports, file, name).contains(t) <==> is_export_target(
            facts,
            imports,
            file,
            name,
            t,
        ) by {
        assert(listed::<(SymbolKey, UsageKind)>(condition).contains(t) <==> condition(t));
    }
}

proof fn names_are_listed(
    facts: Seq<FileFactsModel>,
    imports: Seq<Seq<ImportReportModel>>,
    file: usize,
)
    ensures
        forall|name: Seq<char>| #[trigger]
            names_exported(facts, imports, file).contains(name) <==> is_exported(
                facts,
                imports,
                file,
                name,
            ),
{
    let condition = |name: Seq<char>| is_exported(facts, imports, file, name);
    let pool = all_names(facts);
    assert forall|name: Seq<char>| #[trigger] condition(name) implies pool.contains(name) by {
        let f = choose|f: usize|
            f < facts.len() && #[trigger] reaches(star_step(facts, imports), file, f)
                && names_export(facts[f as int].symbol_facts.exports, name);
        let exports = facts[f as int].symbol_facts.exports;
        let k = choose|k: int|
            0 <= k < exports.len() && (#[trigger] exports[k]).kind != ExportBindingKind::Star
                && exports[k].exported == name;
        all_names_hold(facts, f as int, k);
    }
    listed_holds::<String>(condition, pool);
    assert forall|name: Seq<char>| #[trigger]
        names_exported(facts, imports, file).contains(name) <==> is_exported(
            facts,
            imports,
            file,
            name,
        ) by {
        assert(listed::<String>(condition).contains(name) <==> condition(name));
    }
}

proof fn first_row(rows: Seq<ImportReportModel>, specifier: Seq<char>)
    ensures
        match first_resolved(rows, specifier) {
            Some(row) => rows.contains(row) && row.specifier == specifier && row.status
                == ResolutionStatus::Resolved,
            None => forall|r: int|
                0 <= r < rows.len() ==> (#[trigger] rows[r]).specifier != specifier
                    || rows[r].status != ResolutionStatus::Resolved,
        },
    decreases rows.len(),
{
    if rows.len() > 0 {
        let front = rows.drop_last();
        first_row(front, specifier);
        assert forall|r: int| 0 <= r < front.len() implies #[trigger] rows[r] == front[r] by {}
        match first_resolved(front, specifier) {
            Some(row) => {
                let r = choose|r: int| 0 <= r < front.len() && front[r] == row;
                assert(rows[r] == row);
            },
            None => {
                assert(rows[rows.len() - 1] == rows.last());
            },
        }
    }
}

proof fn place_is(facts: Seq<FileFactsModel>, g: int)
    requires
        facts.len() <= usize::MAX,
        0 <= g < facts.len(),
        forall|i: int, j: int|
            0 <= i < j < facts.len() ==> (#[trigger] facts[i]).path != (#[trigger] facts[j]).path,
    ensures
        place_of_path(facts, facts[g].path) == Some(g as usize),
    decreases facts.len(),
{
    if g < facts.len() - 1 {
        let front = facts.drop_last();
        assert forall|i: int, j: int| 0 <= i < j < front.len() implies (#[trigger] front[i]).path
            != (#[trigger] front[j]).path by {
            assert(facts[i].path != facts[j].path);
        }
        place_is(front, g);
        assert(facts[g].path != facts[facts.len() - 1].path);
    }
}

proof fn target_is(
    facts: Seq<FileFactsModel>,
    imports: Seq<Seq<ImportReportModel>>,
    a: usize,
    specifier: Seq<char>,
    g: int,
)
    requires
        facts.len() <= usize::MAX,
        0 <= g < facts.len(),
        forall|i: int, j: int|
            0 <= i < j < facts.len() ==> (#[trigger] facts[i]).path != (#[trigger] facts[j]).path,
        a < imports.len(),
        comes_from(imports[a as int], specifier, facts[g].path),
    ensures
        target_file(facts, imports, a, specifier) == Some(g as usize),
{
    let rows = imports[a as int];
    first_row(rows, specifier);
    place_is(facts, g);
    let r = choose|r: int|
        0 <= r < rows.len() && (#[trigger] rows[r]).specifier == specifier && rows[r].status
            == ResolutionStatus::Resolved;
    let row = first_resolved(rows, specifier)->0;
    let q = choose|q: int| 0 <= q < rows.len() && rows[q] == row;
    assert(rows[q].target == Some(facts[g].path));
}

proof fn links_by_name_hold(
    names: Seq<Seq<char>>,
    facts: Seq<FileFactsModel>,
    imports: Seq<Seq<ImportReportModel>>,
    source: SymbolKey,
    usage: UsageKind,
    target: usize,
    n: int,
    t: (SymbolKey, UsageKind),
)
    requires
        0 <= n < names.len(),
        export_targets(facts, imports, target, names[n]).contains(t),
    ensures
        links_by_name(names, facts, imports, source, usage, target).contains(
            ResolvedSymbolLink { source, source_usage: usage, target: t.0, target_usage: t.1 },
        ),
    decreases names.len(),
{
    let link = ResolvedSymbolLink {
        source,
        source_usage: usage,
        target: t.0,
        target_usage: t.1,
    };
    let front = names.drop_last();
    let rest = links_by_name(front, facts, imports, source, usage, target);
    let all = links_by_name(names, facts, imports, source, usage, target);
    if n < front.len() {
        links_by_name_hold(front, facts, imports, source, usage, target, n, t);
        let j = choose|j: int| 0 <= j < rest.len() && rest[j] == link;
        assert(all[j] == link);
    } else {
        let targets = export_targets(facts, imports, target, names[n]);
        let j = choose|j: int| 0 <= j < targets.len() && targets[j] == t;
        assert(links_to(source, usage, targets)[j] == link);
        assert(all[rest.len() + j] == link);
    }
}

proof fn links_by_binding_hold(
    items: Seq<ImportBindingModel>,
    facts: Seq<FileFactsModel>,
    imports: Seq<Seq<ImportReportModel>>,
    file: usize,
    i: int,
    target: usize,
    link: ResolvedSymbolLink,
)
    requires
        0 <= i < items.len(),
        target_file(facts, imports, file, items[i].source) == Some(target),
        links_by_name(
            bound_names(facts, imports, items[i], target),
            facts,
            imports,
            SymbolKey { file, symbol: items[i].local },
            crate::application::symbols::usage(items[i].type_only),
            target,
        ).contains(link),
    ensures
        links_by_binding(items, facts, imports, file).contains(link),
    decreases items.len(),
{
    let front = items.drop_last();
    let rest = links_by_binding(front, facts, imports, file);
    let all = links_by_binding(items, facts, imports, file);
    if i < front.len() {
        links_by_binding_hold(front, facts, imports, file, i, target, link);
        let j = choose|j: int| 0 <= j < rest.len() && rest[j] == link;
        assert(all[j] == link);
    } else {
        let own = links_by_name(
            bound_names(facts, imports, items[i], target),
            facts,
            imports,
            SymbolKey { file, symbol: items[i].local },
            crate::application::symbols::usage(items[i].type_only),
            target,
        );
        let j = choose|j: int| 0 <= j < own.len() && own[j] == link;
        assert(all[rest.len() + j] == link);
    }
}

proof fn links_by_file_hold(
    items: Seq<FileFactsModel>,
    facts: Seq<FileFactsModel>,
    imports: Seq<Seq<ImportReportModel>>,
    a: int,
    link: ResolvedSymbolLink,
)
    requires
        0 <= a < items.len(),
        links_by_binding(items[a].symbol_facts.imports, facts, imports, a as usize).contains(link),
    ensures
        links_by_file(items, facts, imports).contains(link),
    decreases items.len(),
{
    let front = items.drop_last();
    let rest = links_by_file(front, facts, imports);
    let all = links_by_file(items, facts, imports);
    if a < front.len() {
        links_by_file_hold(front, facts, imports, a, link);
        let j = choose|j: int| 0 <= j < rest.len() && rest[j] == link;
        assert(all[j] == link);
    } else {
        let own = links_by_binding(items[a].symbol_facts.imports, facts, imports, a as usize);
        let j = choose|j: int| 0 <= j < own.len() && own[j] == link;
        assert(all[rest.len() + j] == link);
    }
}

proof fn stars_lead_on(
    facts: Seq<FileFactsModel>,
    imports: Seq<Seq<ImportReportModel>>,
    g: usize,
    f: usize,
)
    requires
        facts.len() <= usize::MAX,
        forall|i: int, j: int|
            0 <= i < j < facts.len() ==> (#[trigger] facts[i]).path != (#[trigger] facts[j]).path,
        reaches(re_exporting_all(facts, imports), g, f),
    ensures
        reaches(star_step(facts, imports), g, f),
{
    let step = star_step(facts, imports);
    let inside = |x: usize| reaches(step, g, x);
    assert forall|x: usize, y: usize| #[trigger]
        inside(x) && #[trigger] re_exporting_all(facts, imports)(x, y) implies inside(y) by {
        let k = choose|k: int|
            0 <= k < facts[x as int].symbol_facts.exports.len() && {
                let export = #[trigger] facts[x as int].symbol_facts.exports[k];
                export.kind == ExportBindingKind::Star && export.source is Some && comes_from(
                    imports[x as int],
                    export.source->0,
                    facts[y as int].path,
                )
            };
        let export = facts[x as int].symbol_facts.exports[k];
        target_is(facts, imports, x, export.source->0, y as int);
        assert(passes_on(facts, imports, x, export, y));
        assert(step(x, y));
        reaches_further(step, g, x, y);
    }
    reaches_itself(step, g);
    assert(inside(g));
    reached_stays_inside(re_exporting_all(facts, imports), inside, g, f);
}

proof fn names_stand_for_symbols(
    facts: Seq<FileFactsModel>,
    imports: Seq<Seq<ImportReportModel>>,
    g: int,
    name: Seq<char>,
    at: (usize, Seq<char>),
    k: int,
)
    requires
        facts.len() <= usize::MAX,
        forall|i: int, j: int|
            0 <= i < j < facts.len() ==> (#[trigger] facts[i]).path != (#[trigger] facts[j]).path,
        0 <= g < facts.len(),
        reaches(handing_on(facts, imports), (g as usize, name), at),
        at.0 < facts.len(),
        0 <= k < facts[at.0 as int].symbol_facts.exports.len(),
        facts[at.0 as int].symbol_facts.exports[k].exported == at.1,
        facts[at.0 as int].symbol_facts.exports[k].local is Some,
    ensures
        export_targets(facts, imports, g as usize, name).contains(
            (
                SymbolKey {
                    file: at.0,
                    symbol: facts[at.0 as int].symbol_facts.exports[k].local->0,
                },
                use_of(facts[at.0 as int].symbol_facts.exports[k]),
            ),
        ),
{
    let export = facts[at.0 as int].symbol_facts.exports[k];
    let t = (SymbolKey { file: at.0, symbol: export.local->0 }, use_of(export));
    let step = reexport_step(facts, imports);
    let start = (g as usize, name);
    let inside = |x: (usize, Seq<char>)| reaches(step, start, x);
    assert forall|x: (usize, Seq<char>), y: (usize, Seq<char>)| #[trigger]
        inside(x) && #[trigger] handing_on(facts, imports)(x, y) implies inside(y) by {
        let exports = facts[x.0 as int].symbol_facts.exports;
        let q = choose|q: int|
            0 <= q < facts[x.0 as int].symbol_facts.exports.len() && {
                let export = #[trigger] facts[x.0 as int].symbol_facts.exports[q];
                &&& export.source is Some
                &&& comes_from(imports[x.0 as int], export.source->0, facts[y.0 as int].path)
                &&& if export.kind == ExportBindingKind::Star {
                    y.1 == x.1
                } else {
                    export.exported == x.1 && y.1 == (if export.imported is Some {
                        export.imported->0
                    } else {
                        x.1
                    })
                }
            };
        let passed = facts[x.0 as int].symbol_facts.exports[q];
        target_is(facts, imports, x.0, passed.source->0, y.0 as int);
        assert(answers(passed, x.1));
        assert(name_at_source(passed, x.1) == y.1);
        assert(takes_from(facts, imports, x, passed, y));
        assert(step(x, y));
        reaches_further(step, start, x, y);
    }
    reaches_itself(step, start);
    assert(inside(start));
    reached_stays_inside(handing_on(facts, imports), inside, start, at);
    assert(binds(at, export, t));
    assert(stands_for(facts, at, t));
    assert(is_export_target(facts, imports, g as usize, name, t));
    targets_are_listed(facts, imports, g as usize, name);
    assert(export_targets(facts, imports, g as usize, name).contains(t));
}

/// What is imported is linked. Where the imports of a file by a specifier lead to a file, and a
/// binding for that specifier takes a name from it, the binding is linked to what the name
/// stands for: the symbol that the file exports under it, or that any file exports to which the
/// name is handed on from file to file by re-exports.
pub proof fn imported_names_are_linked(
    facts: Seq<FileFactsModel>,
    imports: Seq<Seq<ImportReportModel>>,
    a: int,
    i: int,
    g: int,
    name: Seq<char>,
    at: (usize, Seq<char>),
    k: int,
)
    requires
        facts.len() <= usize::MAX,
        forall|i: int, j: int|
            0 <= i < j < facts.len() ==> (#[trigger] facts[i]).path != (#[trigger] facts[j]).path,
        0 <= a < facts.len(),
        a < imports.len(),
        0 <= i < facts[a].symbol_facts.imports.len(),
        0 <= g < facts.len(),
        comes_from(imports[a], facts[a].symbol_facts.imports[i].source, facts[g].path),
        takes_name(facts[a].symbol_facts.imports[i], facts, imports, g, name),
        reaches(handing_on(facts, imports), (g as usize, name), at),
        at.0 < facts.len(),
        0 <= k < facts[at.0 as int].symbol_facts.exports.len(),
        facts[at.0 as int].symbol_facts.exports[k].exported == at.1,
        facts[at.0 as int].symbol_facts.exports[k].local is Some,
    ensures
        ({
            let binding = facts[a].symbol_facts.imports[i];
            let export = facts[at.0 as int].symbol_facts.exports[k];
            symbol_links(facts, imports).contains(
                ResolvedSymbolLink {
                    source: SymbolKey { file: a as usize, symbol: binding.local },
                    source_usage: if binding.type_only {
                        UsageKind::Type
                    } else {
                        UsageKind::Runtime
                    },
                    target: SymbolKey { file: at.0, symbol: export.local->0 },
                    target_usage: use_of(export),
                },
            )
        }),
{
    let binding = facts[a].symbol_facts.imports[i];
    let export = facts[at.0 as int].symbol_facts.exports[k];
    let t = (SymbolKey { file: at.0, symbol: export.local->0 }, use_of(export));
    target_is(facts, imports, a as usize, binding.source, g);
    names_stand_for_symbols(facts, imports, g, name, at, k);
    let names = bound_names(facts, imports, binding, g as usize);
    match binding.kind {
        ImportBindingKind::Default => {
            assert(names[0] == name);
        },
        ImportBindingKind::Named => {
            assert(names[0] == name);
        },
        _ => {
            names_are_listed(facts, imports, g as usize);
            let f = choose|f: usize|
                f < facts.len() && #[trigger] reaches(
                    re_exporting_all(facts, imports),
                    g as usize,
                    f,
                ) && exports_name(facts[f as int].symbol_facts.exports, name);
            stars_lead_on(facts, imports, g as usize, f);
            let exports = facts[f as int].symbol_facts.exports;
            let q = choose|q: int|
                0 <= q < exports.len() && (#[trigger] exports[q]).kind != ExportBindingKind::Star
                    && exports[q].exported == name;
            assert(names_export(facts[f as int].symbol_facts.exports, name));
            assert(is_exported(facts, imports, g as usize, name));
            assert(names_exported(facts, imports, g as usize).contains(name));
        },
    }
    assert(names.contains(name));
    let n = choose|n: int| 0 <= n < names.len() && names[n] == name;
    let source = SymbolKey { file: a as usize, symbol: binding.local };
    let usage = crate::application::symbols::usage(binding.type_only);
    let link = ResolvedSymbolLink {
        source,
        source_usage: usage,
        target: t.0,
        target_usage: t.1,
    };
    links_by_name_hold(names, facts, imports, source, usage, g as usize, n, t);
    links_by_binding_hold(
        facts[a].symbol_facts.imports,
        facts,
        imports,
        a as usize,
        i,
        g as usize,
        link,
    );
    links_by_file_hold(facts, facts, imports, a, link);
    collected_is_ordered::<ResolvedSymbolLink>(links_by_file(facts, facts, imports));
}

/// An export that some file imports is not reported as unused. What leads there is told by the
/// report: its rows say that the imports of the file by a specifier lead to another file, and a
/// binding for that specifier takes a name from that file which stands for the export, there
/// or through any number of re-exports.
pub proof fn imported_exports_are_not_reported(
    input: ResolutionInputModel,
    evidence: ScanEvidenceModel,
    limits: AnalysisLimits,
    entries: Seq<usize>,
    a: int,
    i: int,
    g: int,
    name: Seq<char>,
    at: (usize, Seq<char>),
    k: int,
    f: int,
)
    requires
        is_complete(input, evidence, limits, entries),
        exports_told_apart(evidence.facts),
        0 <= a < evidence.facts.len(),
        0 <= i < evidence.facts[a].symbol_facts.imports.len(),
        0 <= g < evidence.facts.len(),
        comes_from(
            report_of(input, evidence, limits, entries).files[a].imports,
            evidence.facts[a].symbol_facts.imports[i].source,
            evidence.facts[g].path,
        ),
        takes_name(
            evidence.facts[a].symbol_facts.imports[i],
            evidence.facts,
            scan_graph(input, evidence, limits).imports,
            g,
            name,
        ),
        reaches(
            handing_on(evidence.facts, scan_graph(input, evidence, limits).imports),
            (g as usize, name),
            at,
        ),
        at.0 < evidence.facts.len(),
        0 <= k < evidence.facts[at.0 as int].symbol_facts.exports.len(),
        evidence.facts[at.0 as int].symbol_facts.exports[k].exported == at.1,
        0 <= f < report_of(input, evidence, limits, entries).findings.len(),
    ensures
        !says_unused(
            report_of(input, evidence, limits, entries).findings[f],
            evidence.facts[at.0 as int].path,
            evidence.facts[at.0 as int].symbol_facts.exports[k],
        ),
{
    let facts = evidence.facts;
    let imports = scan_graph(input, evidence, limits).imports;
    let export = facts[at.0 as int].symbol_facts.exports[k];
    if export.local is Some {
        rows_are_for_every_file(input, evidence, limits, entries);
        imported_names_are_linked(facts, imports, a, i, g, name, at, k);
        let links = symbol_links(facts, imports);
        let binding = facts[a].symbol_facts.imports[i];
        let link = ResolvedSymbolLink {
            source: SymbolKey { file: a as usize, symbol: binding.local },
            source_usage: if binding.type_only {
                UsageKind::Type
            } else {
                UsageKind::Runtime
            },
            target: SymbolKey { file: at.0, symbol: export.local->0 },
            target_usage: use_of(export),
        };
        assert(links.contains(link));
        let l = choose|l: int| 0 <= l < links.len() && links[l] == link;
        assert(links[l].target == link.target);
        assert(is_linked(links, SymbolKey { file: at.0, symbol: export.local->0 }, use_of(export)));
    }
    exports_in_use_are_not_reported(input, evidence, limits, entries, at.0 as int, k, f);
}

/// Whether one of the resolved imports of a file by the specifier leads to the file at `path`.
pub open spec fn may_come_from(
    rows: Seq<ImportReportModel>,
    specifier: Seq<char>,
    path: Seq<char>,
) -> bool {
    exists|r: int|
        0 <= r < rows.len() && (#[trigger] rows[r]).specifier == specifier && rows[r].status
            == ResolutionStatus::Resolved && rows[r].target == Some(path)
}

/// Whether a file may pass on the name of another file as its own.
pub open spec fn may_hand_on(
    facts: Seq<FileFactsModel>,
    imports: Seq<Seq<ImportReportModel>>,
    from: (usize, Seq<char>),
    to: (usize, Seq<char>),
) -> bool {
    from.0 < facts.len() && from.0 < imports.len() && to.0 < facts.len() && exists|k: int|
        0 <= k < facts[from.0 as int].symbol_facts.exports.len() && {
            let export = #[trigger] facts[from.0 as int].symbol_facts.exports[k];
            &&& export.source is Some
            &&& may_come_from(
                imports[from.0 as int],
                export.source->0,
                facts[to.0 as int].path,
            )
            &&& if export.kind == ExportBindingKind::Star {
                to.1 == from.1
            } else {
                export.exported == from.1 && to.1 == (if export.imported is Some {
                    export.imported->0
                } else {
                    from.1
                })
            }
        }
}

/// From a name of a file to the names of others that it may stand for, in one step.
pub open spec fn may_be_handing_on(
    facts: Seq<FileFactsModel>,
    imports: Seq<Seq<ImportReportModel>>,
) -> spec_fn((usize, Seq<char>), (usize, Seq<char>)) -> bool {
    |a: (usize, Seq<char>), b: (usize, Seq<char>)| may_hand_on(facts, imports, a, b)
}

proof fn place_has_path(facts: Seq<FileFactsModel>, path: Seq<char>)
    requires
        facts.len() <= usize::MAX,
    ensures
        place_of_path(facts, path) matches Some(g) ==> g < facts.len() && facts[g as int].path
            == path,
    decreases facts.len(),
{
    if facts.len() > 0 {
        place_has_path(facts.drop_last(), path);
    }
}

proof fn target_comes_from(
    facts: Seq<FileFactsModel>,
    imports: Seq<Seq<ImportReportModel>>,
    a: usize,
    specifier: Seq<char>,
    g: usize,
)
    requires
        facts.len() <= usize::MAX,
        target_file(facts, imports, a, specifier) == Some(g),
    ensures
        g < facts.len(),
        a < imports.len(),
        may_come_from(imports[a as int], specifier, facts[g as int].path),
{
    let rows = imports[a as int];
    first_row(rows, specifier);
    let row = first_resolved(rows, specifier)->0;
    place_has_path(facts, row.target->0);
    let r = choose|r: int| 0 <= r < rows.len() && rows[r] == row;
    assert(rows[r].target == Some(facts[g as int].path));
}

proof fn link_by_name(
    names: Seq<Seq<char>>,
    facts: Seq<FileFactsModel>,
    imports: Seq<Seq<ImportReportModel>>,
    source: SymbolKey,
    usage: UsageKind,
    target: usize,
    j: int,
) -> (n: int)
    requires
        0 <= j < links_by_name(names, facts, imports, source, usage, target).len(),
    ensures
        0 <= n < names.len(),
        ({
            let link = links_by_name(names, facts, imports, source, usage, target)[j];
            &&& link.source == source && link.source_usage == usage
            &&& export_targets(facts, imports, target, names[n]).contains(
                (link.target, link.target_usage),
            )
        }),
    decreases names.len(),
{
    let front = names.drop_last();
    let rest = links_by_name(front, facts, imports, source, usage, target);
    if j < rest.len() {
        link_by_name(front, facts, imports, source, usage, target, j)
    } else {
        let targets = export_targets(facts, imports, target, names.last());
        let t = targets[j - rest.len()];
        assert(links_to(source, usage, targets)[j - rest.len()].target == t.0);
        assert(targets.contains(t));
        names.len() - 1
    }
}

proof fn link_by_binding(
    items: Seq<ImportBindingModel>,
    facts: Seq<FileFactsModel>,
    imports: Seq<Seq<ImportReportModel>>,
    file: usize,
    j: int,
) -> (found: (int, usize, Seq<char>))
    requires
        0 <= j < links_by_binding(items, facts, imports, file).len(),
    ensures
        0 <= found.0 < items.len(),
        ({
            let link = links_by_binding(items, facts, imports, file)[j];
            let binding = items[found.0];
            &&& target_file(facts, imports, file, binding.source) == Some(found.1)
            &&& bound_names(facts, imports, binding, found.1).contains(found.2)
            &&& link.source == (SymbolKey { file, symbol: binding.local })
            &&& link.source_usage == crate::application::symbols::usage(binding.type_only)
            &&& export_targets(facts, imports, found.1, found.2).contains(
                (link.target, link.target_usage),
            )
        }),
    decreases items.len(),
{
    let front = items.drop_last();
    let rest = links_by_binding(front, facts, imports, file);
    if j < rest.len() {
        link_by_binding(front, facts, imports, file, j)
    } else {
        let binding = items.last();
        let target = target_file(facts, imports, file, binding.source)->0;
        let names = bound_names(facts, imports, binding, target);
        let n = link_by_name(
            names,
            facts,
            imports,
            SymbolKey { file, symbol: binding.local },
            crate::application::symbols::usage(binding.type_only),
            target,
            j - rest.len(),
        );
        (items.len() - 1, target, names[n])
    }
}

proof fn link_by_file(
    items: Seq<FileFactsModel>,
    facts: Seq<FileFactsModel>,
    imports: Seq<Seq<ImportReportModel>>,
    j: int,
) -> (found: (int, int))
    requires
        0 <= j < links_by_file(items, facts, imports).len(),
    ensures
        0 <= found.0 < items.len(),
        0 <= found.1 < links_by_binding(
            items[found.0].symbol_facts.imports,
            facts,
            imports,
            found.0 as usize,
        ).len(),
        links_by_binding(items[found.0].symbol_facts.imports, facts, imports, found.0 as usize)[found.1]
            == links_by_file(items, facts, imports)[j],
    decreases items.len(),
{
    let front = items.drop_last();
    let rest = links_by_file(front, facts, imports);
    if j < rest.len() {
        link_by_file(front, facts, imports, j)
    } else {
        (items.len() - 1, j - rest.len())
    }
}

/// Nothing is linked that is not imported: behind every link stands an import binding of a file,
/// the specifier of which leads to another file, and a name that the binding may take from it;
/// and the link leads to the symbol that the name stands for, there or through re-exports.
pub proof fn links_stem_from_imports(
    facts: Seq<FileFactsModel>,
    imports: Seq<Seq<ImportReportModel>>,
    l: int,
) -> (found: (int, int, int, Seq<char>, (usize, Seq<char>), int))
    requires
        facts.len() <= usize::MAX,
        0 <= l < symbol_links(facts, imports).len(),
    ensures
        ({
            let link = symbol_links(facts, imports)[l];
            let (a, i, g, name, at, k) = found;
            let binding = facts[a].symbol_facts.imports[i];
            let export = facts[at.0 as int].symbol_facts.exports[k];
            &&& 0 <= a < facts.len() && a < imports.len()
            &&& 0 <= i < facts[a].symbol_facts.imports.len()
            &&& 0 <= g < facts.len()
            &&& link.source == (SymbolKey { file: a as usize, symbol: binding.local })
            &&& may_come_from(imports[a], binding.source, facts[g].path)
            &&& binding.kind == ImportBindingKind::Default ==> name == "default"@
            &&& binding.kind == ImportBindingKind::Named ==> binding.imported == Some(name)
            &&& reaches(may_be_handing_on(facts, imports), (g as usize, name), at)
            &&& at.0 < facts.len()
            &&& 0 <= k < facts[at.0 as int].symbol_facts.exports.len()
            &&& export.local == Some(link.target.symbol)
            &&& at.0 == link.target.file
            &&& use_of(export) == link.target_usage
            &&& export.exported == at.1 || export.kind == ExportBindingKind::Star
        }),
{
    let given = links_by_file(facts, facts, imports);
    let link = symbol_links(facts, imports)[l];
    collected_is_ordered::<ResolvedSymbolLink>(given);
    assert(symbol_links(facts, imports).contains(link));
    assert(given.contains(link));
    let j = choose|j: int| 0 <= j < given.len() && given[j] == link;
    let (a, q) = link_by_file(facts, facts, imports, j);
    let (i, target, name) = link_by_binding(
        facts[a].symbol_facts.imports,
        facts,
        imports,
        a as usize,
        q,
    );
    let binding = facts[a].symbol_facts.imports[i];
    target_comes_from(facts, imports, a as usize, binding.source, target);
    targets_are_listed(facts, imports, target, name);
    let t = (link.target, link.target_usage);
    assert(is_export_target(facts, imports, target, name, t));
    let step = reexport_step(facts, imports);
    let start = (target, name);
    let at = choose|at: (usize, Seq<char>)| #[trigger]
        reaches(step, start, at) && stands_for(facts, at, t);
    let exports = facts[at.0 as int].symbol_facts.exports;
    let k = choose|k: int| 0 <= k < exports.len() && binds(at, #[trigger] exports[k], t);
    let weak = may_be_handing_on(facts, imports);
    let inside = |x: (usize, Seq<char>)| reaches(weak, start, x);
    assert forall|x: (usize, Seq<char>), y: (usize, Seq<char>)| #[trigger]
        inside(x) && #[trigger] step(x, y) implies inside(y) by {
        let own = facts[x.0 as int].symbol_facts.exports;
        let e = choose|e: int| 0 <= e < own.len() && takes_from(facts, imports, x, #[trigger] own[e], y);
        target_comes_from(facts, imports, x.0, own[e].source->0, y.0);
        assert(facts[x.0 as int].symbol_facts.exports[e] == own[e]);
        assert(may_hand_on(facts, imports, x, y));
        assert(weak(x, y));
        reaches_further(weak, start, x, y);
    }
    reaches_itself(weak, start);
    assert(inside(start));
    reached_stays_inside(step, inside, start, at);
    match binding.kind {
        ImportBindingKind::Default => {
            let names = bound_names(facts, imports, binding, target);
            let n = choose|n: int| 0 <= n < names.len() && names[n] == name;
            assert(names[n] == "default"@);
        },
        ImportBindingKind::Named => {
            let names = bound_names(facts, imports, binding, target);
            let n = choose|n: int| 0 <= n < names.len() && names[n] == name;
        },
        _ => {},
    }
    (a, i, target as int, name, at, k)
}

/// Whether an export that a file takes from elsewhere offers the name: its own one, or, where it
/// re-exports all of a file, any that the file exports.
pub open spec fn offers_name(
    facts: Seq<FileFactsModel>,
    imports: Seq<Seq<ImportReportModel>>,
    file: int,
    export: ExportBindingModel,
    g: int,
    name: Seq<char>,
) -> bool {
    if export.kind != ExportBindingKind::Star {
        name == export.exported
    } else {
        &&& export.source is Some
        &&& 0 <= g < facts.len()
        &&& comes_from(imports[file], export.source->0, facts[g].path)
        &&& exists|f: usize|
            f < facts.len() && #[trigger] reaches(re_exporting_all(facts, imports), g as usize, f)
                && exports_name(facts[f as int].symbol_facts.exports, name)
    }
}

proof fn roots_by_name_hold(
    names: Seq<Seq<char>>,
    facts: Seq<FileFactsModel>,
    imports: Seq<Seq<ImportReportModel>>,
    file: usize,
    n: int,
    t: (SymbolKey, UsageKind),
)
    requires
        0 <= n < names.len(),
        export_targets(facts, imports, file, names[n]).contains(t),
    ensures
        roots_by_name(names, facts, imports, file).contains(
            SymbolRoot { symbol: t.0, usage: t.1 },
        ),
    decreases names.len(),
{
    let root = SymbolRoot { symbol: t.0, usage: t.1 };
    let front = names.drop_last();
    let rest = roots_by_name(front, facts, imports, file);
    let all = roots_by_name(names, facts, imports, file);
    if n < front.len() {
        roots_by_name_hold(front, facts, imports, file, n, t);
        let j = choose|j: int| 0 <= j < rest.len() && rest[j] == root;
        assert(all[j] == root);
    } else {
        let targets = export_targets(facts, imports, file, names[n]);
        let j = choose|j: int| 0 <= j < targets.len() && targets[j] == t;
        assert(roots_of(targets)[j] == root);
        assert(all[rest.len() + j] == root);
    }
}

proof fn roots_by_binding_hold(
    items: Seq<ExportBindingModel>,
    facts: Seq<FileFactsModel>,
    imports: Seq<Seq<ImportReportModel>>,
    file: usize,
    k: int,
    root: SymbolRoot,
)
    requires
        0 <= k < items.len(),
        items[k].local is None,
        roots_by_name(
            offered_names(facts, imports, file, items[k]),
            facts,
            imports,
            file,
        ).contains(root),
    ensures
        roots_by_binding(items, facts, imports, file).contains(root),
    decreases items.len(),
{
    let front = items.drop_last();
    let rest = roots_by_binding(front, facts, imports, file);
    let all = roots_by_binding(items, facts, imports, file);
    if k < front.len() {
        roots_by_binding_hold(front, facts, imports, file, k, root);
        let j = choose|j: int| 0 <= j < rest.len() && rest[j] == root;
        assert(all[j] == root);
    } else {
        let own = roots_by_name(
            offered_names(facts, imports, file, items[k]),
            facts,
            imports,
            file,
        );
        let j = choose|j: int| 0 <= j < own.len() && own[j] == root;
        assert(all[rest.len() + j] == root);
    }
}

proof fn roots_by_file_hold(
    items: Seq<bool>,
    facts: Seq<FileFactsModel>,
    imports: Seq<Seq<ImportReportModel>>,
    i: int,
    root: SymbolRoot,
)
    requires
        0 <= i < items.len(),
        items[i],
        roots_by_binding(facts[i].symbol_facts.exports, facts, imports, i as usize).contains(root),
    ensures
        roots_by_file(items, facts, imports).contains(root),
    decreases items.len(),
{
    let front = items.drop_last();
    let rest = roots_by_file(front, facts, imports);
    let all = roots_by_file(items, facts, imports);
    if i < front.len() {
        roots_by_file_hold(front, facts, imports, i, root);
        let j = choose|j: int| 0 <= j < rest.len() && rest[j] == root;
        assert(all[j] == root);
    } else {
        let own = roots_by_binding(facts[i].symbol_facts.exports, facts, imports, i as usize);
        let j = choose|j: int| 0 <= j < own.len() && own[j] == root;
        assert(all[rest.len() + j] == root);
    }
}

/// What a file that may be imported from outside takes from other files and exports is in use:
/// the symbol that such a name stands for, however many files hand it on, is a root.
pub proof fn public_names_are_roots(
    facts: Seq<FileFactsModel>,
    imports: Seq<Seq<ImportReportModel>>,
    open: Seq<bool>,
    file: int,
    k: int,
    g: int,
    name: Seq<char>,
    at: (usize, Seq<char>),
    q: int,
)
    requires
        facts.len() <= usize::MAX,
        forall|i: int, j: int|
            0 <= i < j < facts.len() ==> (#[trigger] facts[i]).path != (#[trigger] facts[j]).path,
        0 <= file < facts.len(),
        file < imports.len(),
        file < open.len(),
        open[file],
        0 <= k < facts[file].symbol_facts.exports.len(),
        facts[file].symbol_facts.exports[k].local is None,
        offers_name(facts, imports, file, facts[file].symbol_facts.exports[k], g, name),
        reaches(handing_on(facts, imports), (file as usize, name), at),
        at.0 < facts.len(),
        0 <= q < facts[at.0 as int].symbol_facts.exports.len(),
        facts[at.0 as int].symbol_facts.exports[q].exported == at.1,
        facts[at.0 as int].symbol_facts.exports[q].local is Some,
    ensures
        reexport_roots(facts, imports, open).contains(
            SymbolRoot {
                symbol: SymbolKey {
                    file: at.0,
                    symbol: facts[at.0 as int].symbol_facts.exports[q].local->0,
                },
                usage: use_of(facts[at.0 as int].symbol_facts.exports[q]),
            },
        ),
{
    let export = facts[file].symbol_facts.exports[k];
    let last = facts[at.0 as int].symbol_facts.exports[q];
    let t = (SymbolKey { file: at.0, symbol: last.local->0 }, use_of(last));
    let root = SymbolRoot { symbol: t.0, usage: t.1 };
    names_stand_for_symbols(facts, imports, file, name, at, q);
    let names = offered_names(facts, imports, file as usize, export);
    if export.kind == ExportBindingKind::Star {
        target_is(facts, imports, file as usize, export.source->0, g);
        names_are_listed(facts, imports, g as usize);
        let f = choose|f: usize|
            f < facts.len() && #[trigger] reaches(re_exporting_all(facts, imports), g as usize, f)
                && exports_name(facts[f as int].symbol_facts.exports, name);
        stars_lead_on(facts, imports, g as usize, f);
        let exports = facts[f as int].symbol_facts.exports;
        let e = choose|e: int|
            0 <= e < exports.len() && (#[trigger] exports[e]).kind != ExportBindingKind::Star
                && exports[e].exported == name;
        assert(names_export(facts[f as int].symbol_facts.exports, name));
        assert(is_exported(facts, imports, g as usize, name));
        assert(names_exported(facts, imports, g as usize).contains(name));
        assert(names.contains(name));
    } else {
        assert(names[0] == name);
        assert(names.contains(name));
    }
    let n = choose|n: int| 0 <= n < names.len() && names[n] == name;
    roots_by_name_hold(names, facts, imports, file as usize, n, t);
    roots_by_binding_hold(
        facts[file].symbol_facts.exports,
        facts,
        imports,
        file as usize,
        k,
        root,
    );
    roots_by_file_hold(open, facts, imports, file, root);
    collected_is_ordered::<SymbolRoot>(roots_by_file(open, facts, imports));
}

} // verus!
