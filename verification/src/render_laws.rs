//! What a reader finds in a rendered report.

use crate::domain::facts::AnalysisDiagnosticModel;
use crate::domain::report::{AnalysisStatus, FindingModel, ScanReportModel};
use crate::render::{
    all_diagnostics, all_findings, compact_line, compact_lines, compact_report, diagnostic_section,
    diagnostics_section, drawn, drawn_piece, finding_head, finding_name, finding_section,
    findings_section, footer, header, piece, position_text, report_pieces, safe, sanitized,
    section_heading, summary_line, text_list, PieceModel, Style,
};
use crate::text::{occurs, stands_at};
use vstd::prelude::*;

verus! {

proof fn occurs_in_front(a: Seq<char>, b: Seq<char>, text: Seq<char>)
    requires
        occurs(a, text),
    ensures
        occurs(a + b, text),
{
    let i = choose|i: int| stands_at(a, text, i);
    assert((a + b).subrange(i, i + text.len()) =~= a.subrange(i, i + text.len()));
    assert(stands_at(a + b, text, i));
}

proof fn occurs_behind(a: Seq<char>, b: Seq<char>, text: Seq<char>)
    requires
        occurs(b, text),
    ensures
        occurs(a + b, text),
{
    let i = choose|i: int| stands_at(b, text, i);
    let j = a.len() + i;
    assert((a + b).subrange(j, j + text.len()) =~= b.subrange(i, i + text.len()));
    assert(stands_at(a + b, text, j));
}

proof fn occurs_as_a_whole(text: Seq<char>)
    ensures
        occurs(text, text),
{
    assert(text.subrange(0, text.len() as int) =~= text);
    assert(stands_at(text, text, 0));
}

proof fn pieces_are_drawn(pieces: Seq<PieceModel>, color: bool, k: int)
    requires
        0 <= k < pieces.len(),
    ensures
        occurs(drawn(pieces, color), pieces[k].text),
    decreases pieces.len(),
{
    let front = pieces.drop_last();
    let last = pieces.last();
    let rest = drawn(front, color);
    if k < front.len() {
        pieces_are_drawn(front, color, k);
        occurs_in_front(rest, drawn_piece(last, color), pieces[k].text);
    } else {
        let text = last.text;
        occurs_as_a_whole(text);
        if color && last.style != Style::Plain {
            let before = "\u{1b}["@ + crate::render::style_code(last.style) + "m"@;
            occurs_behind(before, text, text);
            occurs_in_front(before + text, "\u{1b}[0m"@, text);
        }
        occurs_behind(rest, drawn_piece(last, color), text);
    }
}

/// Whether one of the pieces has the text.
spec fn shows(pieces: Seq<PieceModel>, text: Seq<char>) -> bool {
    exists|k: int| 0 <= k < pieces.len() && (#[trigger] pieces[k]).text == text
}

proof fn sums_show(a: Seq<PieceModel>, b: Seq<PieceModel>, text: Seq<char>)
    ensures
        shows(a, text) ==> shows(a + b, text),
        shows(b, text) ==> shows(a + b, text),
{
    if shows(a, text) {
        let k = choose|k: int| 0 <= k < a.len() && (#[trigger] a[k]).text == text;
        assert((a + b)[k].text == text);
    }
    if shows(b, text) {
        let k = choose|k: int| 0 <= k < b.len() && (#[trigger] b[k]).text == text;
        assert((a + b)[a.len() + k].text == text);
    }
}

proof fn shown_is_drawn(pieces: Seq<PieceModel>, color: bool, text: Seq<char>)
    requires
        shows(pieces, text),
    ensures
        occurs(drawn(pieces, color), text),
{
    let k = choose|k: int| 0 <= k < pieces.len() && (#[trigger] pieces[k]).text == text;
    pieces_are_drawn(pieces, color, k);
}

proof fn finding_shows_itself(finding: FindingModel, unicode: bool)
    ensures
        shows(finding_section(finding, unicode), safe(finding.issue_id, "UNKNOWN"@)),
        finding.summary.len() > 0 ==> shows(
            finding_section(finding, unicode),
            safe(finding.summary, "<no summary>"@),
        ),
{
    let id = safe(finding.issue_id, "UNKNOWN"@);
    let text = safe(finding.summary, "<no summary>"@);
    let a = finding_head(finding, unicode);
    let b = if finding.summary.len() > 0 {
        summary_line(finding.summary)
    } else {
        Seq::empty()
    };
    let c = match finding.symbol {
        Some(symbol) => crate::render::labeled_line("Symbol"@, symbol),
        None => Seq::empty(),
    };
    let d = match finding.dependency {
        Some(dependency) => crate::render::labeled_line("Dependency"@, dependency),
        None => Seq::empty(),
    };
    let e = text_list("Paths"@, finding.paths, "No paths reported"@, unicode);
    let f = text_list("Evidence"@, finding.evidence, "No evidence provided"@, unicode);
    let g = if finding.blockers.len() > 0 {
        text_list("Blockers"@, finding.blockers, "No blockers"@, unicode)
    } else {
        Seq::empty()
    };
    let h = if finding.suggested_actions.len() > 0 {
        text_list("Next"@, finding.suggested_actions, "No action suggested"@, unicode)
    } else {
        Seq::empty()
    };
    assert(a[2].text == id);
    assert(shows(a, id));
    if finding.summary.len() > 0 {
        assert(b[1].text == text);
        assert(shows(b, text));
    }
    sums_show(a, b, id);
    sums_show(a, b, text);
    sums_show(a + b, c, id);
    sums_show(a + b, c, text);
    sums_show(a + b + c, d, id);
    sums_show(a + b + c, d, text);
    sums_show(a + b + c + d, e, id);
    sums_show(a + b + c + d, e, text);
    sums_show(a + b + c + d + e, f, id);
    sums_show(a + b + c + d + e, f, text);
    sums_show(a + b + c + d + e + f, g, id);
    sums_show(a + b + c + d + e + f, g, text);
    sums_show(a + b + c + d + e + f + g, h, id);
    sums_show(a + b + c + d + e + f + g, h, text);
    assert(finding_section(finding, unicode) == a + b + c + d + e + f + g + h);
}

proof fn all_findings_show(
    items: Seq<FindingModel>,
    unicode: bool,
    i: int,
    text: Seq<char>,
)
    requires
        0 <= i < items.len(),
        shows(finding_section(items[i], unicode), text),
    ensures
        shows(all_findings(items, unicode), text),
    decreases items.len(),
{
    let front = items.drop_last();
    let rest = all_findings(front, unicode);
    let gap = seq![piece("\n"@, Style::Plain)];
    let own = finding_section(items.last(), unicode);
    if i < front.len() {
        all_findings_show(front, unicode, i, text);
    }
    sums_show(rest, gap, text);
    sums_show(rest + gap, own, text);
    sums_show(rest, own, text);
}

proof fn all_diagnostics_show(
    items: Seq<AnalysisDiagnosticModel>,
    unicode: bool,
    i: int,
    text: Seq<char>,
)
    requires
        0 <= i < items.len(),
        shows(diagnostic_section(items[i], unicode), text),
    ensures
        shows(all_diagnostics(items, unicode), text),
    decreases items.len(),
{
    let front = items.drop_last();
    let rest = all_diagnostics(front, unicode);
    let gap = seq![piece("\n"@, Style::Plain)];
    let own = diagnostic_section(items.last(), unicode);
    if i < front.len() {
        all_diagnostics_show(front, unicode, i, text);
    }
    sums_show(rest, gap, text);
    sums_show(rest + gap, own, text);
    sums_show(rest, own, text);
}

proof fn sections_are_drawn(
    report: ScanReportModel,
    unicode: bool,
    color: bool,
    text: Seq<char>,
)
    requires
        shows(findings_section(report.findings, unicode), text) || shows(
            diagnostics_section(report.diagnostics, unicode),
            text,
        ) || shows(footer(report.status, unicode), text),
    ensures
        occurs(drawn(report_pieces(report, unicode), color), text),
{
    let a = header(report, unicode);
    let b = findings_section(report.findings, unicode);
    let c = diagnostics_section(report.diagnostics, unicode);
    let e = footer(report.status, unicode);
    sums_show(a, b, text);
    sums_show(a + b, c, text);
    sums_show(a + b + c, e, text);
    shown_is_drawn(report_pieces(report, unicode), color, text);
}

proof fn finding_is_drawn(report: ScanReportModel, unicode: bool, color: bool, i: int, text: Seq<char>)
    requires
        0 <= i < report.findings.len(),
        shows(finding_section(report.findings[i], unicode), text),
    ensures
        occurs(drawn(report_pieces(report, unicode), color), text),
{
    all_findings_show(report.findings, unicode, i, text);
    sums_show(section_heading("FINDINGS"@), all_findings(report.findings, unicode), text);
    sections_are_drawn(report, unicode, color, text);
}

proof fn diagnostic_is_drawn(
    report: ScanReportModel,
    unicode: bool,
    color: bool,
    d: int,
    text: Seq<char>,
)
    requires
        0 <= d < report.diagnostics.len(),
        shows(diagnostic_section(report.diagnostics[d], unicode), text),
    ensures
        occurs(drawn(report_pieces(report, unicode), color), text),
{
    all_diagnostics_show(report.diagnostics, unicode, d, text);
    sums_show(section_heading("DIAGNOSTICS"@), all_diagnostics(report.diagnostics, unicode), text);
    sections_are_drawn(report, unicode, color, text);
}

proof fn diagnostic_shows_itself(diagnostic: AnalysisDiagnosticModel, unicode: bool)
    ensures
        shows(diagnostic_section(diagnostic, unicode), safe(diagnostic.message, "<no message>"@)),
        shows(diagnostic_section(diagnostic, unicode), safe(diagnostic.path, "<unknown>"@)),
{
    let own = diagnostic_section(diagnostic, unicode);
    assert(own[10].text == safe(diagnostic.message, "<no message>"@));
    assert(own[4].text == safe(diagnostic.path, "<unknown>"@));
}

proof fn status_is_drawn(report: ScanReportModel, unicode: bool, color: bool)
    ensures
        report.status == AnalysisStatus::Complete ==> occurs(
            drawn(report_pieces(report, unicode), color),
            "COMPLETE"@,
        ),
        report.status == AnalysisStatus::Incomplete ==> occurs(
            drawn(report_pieces(report, unicode), color),
            "INCOMPLETE"@,
        ),
{
    let hint = crate::render::json_hint(unicode);
    match report.status {
        AnalysisStatus::Complete => {
            let last = crate::render::complete_footer(unicode);
            assert(last[3].text == "COMPLETE"@);
            sums_show(last, hint, "COMPLETE"@);
            sections_are_drawn(report, unicode, color, "COMPLETE"@);
        },
        AnalysisStatus::Incomplete => {
            let last = crate::render::incomplete_footer(unicode);
            assert(last[3].text == "INCOMPLETE"@);
            sums_show(last, hint, "INCOMPLETE"@);
            sections_are_drawn(report, unicode, color, "INCOMPLETE"@);
        },
    }
}

/// A report for people tells of every finding, by what it is called and what it says, and of
/// every diagnostic, by its path, its code and its message; and it says at its end whether the
/// analysis is complete.
pub proof fn readers_see_every_finding(
    report: ScanReportModel,
    unicode: bool,
    color: bool,
    i: int,
    d: int,
)
    ensures
        ({
            let text = drawn(report_pieces(report, unicode), color);
            &&& 0 <= i < report.findings.len() && sanitized(report.findings[i].issue_id).len() > 0
                ==> occurs(text, sanitized(report.findings[i].issue_id))
            &&& 0 <= i < report.findings.len() && report.findings[i].summary.len() > 0 && sanitized(
                report.findings[i].summary,
            ).len() > 0 ==> occurs(text, sanitized(report.findings[i].summary))
            &&& 0 <= d < report.diagnostics.len() && sanitized(report.diagnostics[d].message).len()
                > 0 ==> occurs(text, sanitized(report.diagnostics[d].message))
            &&& 0 <= d < report.diagnostics.len() && sanitized(report.diagnostics[d].path).len() > 0
                ==> occurs(text, sanitized(report.diagnostics[d].path))
            &&& report.status == AnalysisStatus::Complete ==> occurs(text, "COMPLETE"@)
            &&& report.status == AnalysisStatus::Incomplete ==> occurs(text, "INCOMPLETE"@)
        }),
{
    if 0 <= i < report.findings.len() {
        let finding = report.findings[i];
        finding_shows_itself(finding, unicode);
        finding_is_drawn(report, unicode, color, i, safe(finding.issue_id, "UNKNOWN"@));
        if finding.summary.len() > 0 {
            finding_is_drawn(report, unicode, color, i, safe(finding.summary, "<no summary>"@));
        }
    }
    if 0 <= d < report.diagnostics.len() {
        let diagnostic = report.diagnostics[d];
        diagnostic_shows_itself(diagnostic, unicode);
        diagnostic_is_drawn(
            report,
            unicode,
            color,
            d,
            safe(diagnostic.message, "<no message>"@),
        );
        diagnostic_is_drawn(report, unicode, color, d, safe(diagnostic.path, "<unknown>"@));
    }
    status_is_drawn(report, unicode, color);
}

/// What a finding is about: a symbol, or else a dependency, or else things of its type.
pub open spec fn subject(finding: FindingModel) -> Seq<char> {
    if finding.symbol is Some {
        finding.symbol->0
    } else if finding.dependency is Some {
        finding.dependency->0
    } else {
        finding.issue_type
    }
}

proof fn lines_are_written(
    items: Seq<Seq<char>>,
    start: Seq<char>,
    finding: FindingModel,
    sources: Seq<(Seq<char>, Seq<u8>)>,
    k: int,
    text: Seq<char>,
)
    requires
        occurs(start, text) || (0 <= k < items.len() && text == compact_line(
            finding,
            items[k],
            sources,
        )),
    ensures
        occurs(compact_lines(items, start, finding, sources), text),
    decreases items.len(),
{
    if items.len() > 0 {
        let front = items.drop_last();
        let rest = compact_lines(front, start, finding, sources);
        let line = compact_line(finding, items.last(), sources);
        if occurs(start, text) || k < front.len() {
            lines_are_written(front, start, finding, sources, k, text);
            occurs_in_front(rest, line, text);
        } else {
            occurs_as_a_whole(text);
            occurs_behind(rest, line, text);
        }
    }
}

proof fn findings_are_written(
    items: Seq<FindingModel>,
    sources: Seq<(Seq<char>, Seq<u8>)>,
    i: int,
    k: int,
)
    requires
        0 <= i < items.len(),
        0 <= k < items[i].paths.len(),
    ensures
        occurs(
            compact_report(items, sources),
            compact_line(items[i], items[i].paths[k], sources),
        ),
    decreases items.len(),
{
    let front = items.drop_last();
    let rest = compact_report(front, sources);
    let last = items.last();
    let text = compact_line(items[i], items[i].paths[k], sources);
    if i < front.len() {
        findings_are_written(front, sources, i, k);
    }
    lines_are_written(last.paths, rest, last, sources, k, text);
}

/// A compact report has a line for every path of every finding, which names the path, the kind
/// of the finding and what it is about; a finding without a place in the file, or with several
/// files, says no more.
pub proof fn compact_reports_name_every_path(
    items: Seq<FindingModel>,
    sources: Seq<(Seq<char>, Seq<u8>)>,
    i: int,
    k: int,
)
    requires
        0 <= i < items.len(),
        0 <= k < items[i].paths.len(),
    ensures
        exists|place: Seq<char>|
            #![trigger items[i].paths[k] + place]
            occurs(
                compact_report(items, sources),
                items[i].paths[k] + place + " - "@ + items[i].issue_id + " '"@ + subject(items[i])
                    + "' is unused\n"@,
            ) && (items[i].span is None || items[i].paths.len() != 1 ==> place.len() == 0),
{
    findings_are_written(items, sources, i, k);
    let finding = items[i];
    let place = position_text(finding, finding.paths[k], sources);
    assert(finding_name(finding) == subject(finding));
    reveal_strlit("");
    assert(compact_line(finding, finding.paths[k], sources) == items[i].paths[k] + place + " - "@
        + items[i].issue_id + " '"@ + subject(items[i]) + "' is unused\n"@);
}

} // verus!
