use orphanode::collections::OrderedMap;
use orphanode::domain::facts::{AnalysisDiagnostic, DiagnosticSeverity, SourceSpan};
use orphanode::domain::report::{
    AnalysisStatus, Confidence, Finding, FixEligibility, ReportSummary, ScanReport,
    REPORT_SCHEMA_VERSION,
};
use orphanode::render::{
    render_compact, render_human, sanitize_terminal_text, source_position, RenderOptions,
};

#[test]
fn colorless_output_contains_no_ansi_sequences() {
    let output = render_human(
        &sample_report(),
        RenderOptions {
            color: false,
            unicode: true,
        },
    );

    assert!(!output.contains('\u{1b}'));
    assert!(output.contains("ORPHANODE"));
    assert!(output.contains("ORP1001"));
}

#[test]
fn colors_change_nothing_but_colors() {
    let report = sample_report();
    let render = |color: bool, unicode: bool| render_human(&report, RenderOptions { color, unicode });
    let uncolored = |text: &str| {
        let mut out = String::new();
        let mut rest = text;
        while let Some((plain, sequence)) = rest.split_once("\u{1b}[") {
            out.push_str(plain);
            rest = sequence.split_once('m').expect("end of the sequence").1;
        }
        out + rest
    };

    assert_ne!(render(true, true), render(false, true));
    assert_eq!(uncolored(&render(true, true)), render(false, true));
    assert_eq!(uncolored(&render(true, false)), render(false, false));
    assert!(render(true, false).is_ascii());
}

#[test]
fn ascii_mode_uses_only_ascii_with_ascii_input() {
    let output = render_human(
        &sample_report(),
        RenderOptions {
            color: false,
            unicode: false,
        },
    );

    assert!(output.is_ascii());
    assert!(output.contains("|- src/unused.ts"));
    assert!(output.contains("`- src/legacy.ts"));
    assert!(output.contains("! WARNING"));
}

#[test]
fn compact_output_uses_ts_prune_style_positions() {
    let source = "export const alpha = 1;\nexport const beta = 2;\n";
    let mut sources = OrderedMap::new();
    sources.insert("src/one.ts".to_owned(), source.as_bytes().to_vec());

    let mut report = sample_report();
    report.findings = vec![Finding {
        issue_id: "ORP1002",
        issue_type: "unusedExport",
        workspace: ".".to_owned(),
        target_profiles: vec!["default".to_owned()],
        paths: vec!["src/one.ts".to_owned()],
        span: Some(SourceSpan::new(
            u32::try_from(source.find("beta").unwrap()).unwrap_or(0),
            20,
        )),
        symbol: Some("beta".to_owned()),
        dependency: None,
        confidence: Confidence::High,
        summary: "unused export".to_owned(),
        evidence: Vec::new(),
        blockers: Vec::new(),
        suggested_actions: Vec::new(),
        fix_eligibility: FixEligibility::NotAvailable,
    }];

    let output = render_compact(&report, &sources);

    assert_eq!(output, "src/one.ts:2:14 - ORP1002 'beta' is unused\n");
}

#[test]
fn compact_multi_path_groups_list_every_path_without_positions() {
    let report = sample_report();

    let output = render_compact(&report, &OrderedMap::new());

    assert!(output.contains("src/unused.ts - ORP1001 'unused_files' is unused"));
    assert!(output.contains("src/legacy.ts - ORP1001 'unused_files' is unused"));
    assert!(!output.contains(':'));
}

#[test]
fn source_control_characters_are_rendered_inert() {
    let mut report = sample_report();
    report.entries[0] = "src/\u{1b}[31mowned\nfile.ts".to_owned();
    report.findings[0].paths[0] = "src/bad\tpath.ts".to_owned();
    report.findings[0].evidence[0] = "bell\u{0007}\u{202e}txt".to_owned();
    report.diagnostics[0].message = "first\rsecond".to_owned();

    let output = render_human(
        &report,
        RenderOptions {
            color: false,
            unicode: true,
        },
    );

    assert!(!output.contains('\u{1b}'));
    assert!(!output.contains('\u{0007}'));
    assert!(!output.contains('\u{202e}'));
    assert!(output.contains(r"src/\u{1b}[31mowned\nfile.ts"));
    assert!(output.contains(r"src/bad\tpath.ts"));
    assert!(output.contains(r"bell\u{7}\u{202e}txt"));
    assert!(output.contains(r"first\rsecond"));
}

#[test]
fn incomplete_empty_report_has_explicit_states_and_json_hint() {
    let report = ScanReport {
        schema_version: REPORT_SCHEMA_VERSION,
        status: AnalysisStatus::Incomplete,
        entries: Vec::new(),
        summary: ReportSummary {
            files: 0,
            reachable_files: 0,
            unreachable_files: 0,
            incomplete_files: 0,
            diagnostics: 0,
        },
        files: Vec::new(),
        findings: Vec::new(),
        retentions: Vec::new(),
        project: None,
        cache: None,
        diagnostics: Vec::new(),
    };

    let output = render_human(
        &report,
        RenderOptions {
            color: false,
            unicode: false,
        },
    );

    assert!(output.contains("> Entries  none configured"));
    assert_eq!(output.matches("None reported").count(), 2);
    assert!(output.contains("0 reachable | 0 unreachable | 0 incomplete | 0 diagnostics"));
    assert!(output.contains("! INCOMPLETE  Resolve coverage diagnostics, then scan again."));
    assert!(output.contains("--format json"));
}

#[test]
fn multiple_entries_are_compact_and_scannable() {
    let mut report = sample_report();
    report.entries = vec![
        "app/layout.tsx".to_owned(),
        "app/page.tsx".to_owned(),
        "app/about/page.tsx".to_owned(),
        "tests/routing.test.ts".to_owned(),
    ];

    let output = render_human(
        &report,
        RenderOptions {
            color: false,
            unicode: false,
        },
    );

    assert!(output.contains("> Entries  4 configured"));
    assert!(output.contains("|- app/layout.tsx"));
    assert!(output.contains("`- ... 1 more"));
}

#[test]
fn colors_are_escape_sequences_around_the_same_text() {
    let plain = render_human(
        &sample_report(),
        RenderOptions {
            color: false,
            unicode: true,
        },
    );
    let colored = render_human(
        &sample_report(),
        RenderOptions {
            color: true,
            unicode: true,
        },
    );

    assert!(colored.contains("\u{1b}["));
    let mut stripped = String::new();
    let mut inside = false;
    for c in colored.chars() {
        if c == '\u{1b}' {
            inside = true;
        } else if inside {
            inside = c != 'm';
        } else {
            stripped.push(c);
        }
    }
    assert_eq!(stripped, plain);
}

#[test]
fn positions_count_lines_and_characters() {
    let bytes = "a\né1\n".as_bytes().to_vec();

    assert_eq!(source_position(&bytes, 0), (1, 1));
    assert_eq!(source_position(&bytes, 2), (2, 1));
    assert_eq!(source_position(&bytes, 4), (2, 2));
}

#[test]
fn terminal_text_is_written_inert() {
    assert_eq!(sanitize_terminal_text("a\tb"), "a\\tb");
    assert_eq!(sanitize_terminal_text("\u{1b}"), "\\u{1b}");
    assert_eq!(sanitize_terminal_text("plain"), "plain");
}

fn sample_report() -> ScanReport {
    ScanReport {
        schema_version: REPORT_SCHEMA_VERSION,
        status: AnalysisStatus::Complete,
        entries: vec!["src/index.ts".to_owned()],
        summary: ReportSummary {
            files: 3,
            reachable_files: 1,
            unreachable_files: 2,
            incomplete_files: 0,
            diagnostics: 1,
        },
        files: Vec::new(),
        findings: vec![Finding {
            issue_id: "ORP1001",
            issue_type: "unused_files",
            workspace: "workspace".to_owned(),
            target_profiles: vec!["default".to_owned()],
            paths: vec!["src/unused.ts".to_owned(), "src/legacy.ts".to_owned()],
            span: None,
            symbol: None,
            dependency: None,
            confidence: Confidence::High,
            summary: "2 files are unreachable from the entry point".to_owned(),
            evidence: vec![
                "No inbound path from src/index.ts".to_owned(),
                "Static imports were fully resolved".to_owned(),
            ],
            blockers: Vec::new(),
            suggested_actions: Vec::new(),
            fix_eligibility: FixEligibility::NotAvailable,
        }],
        retentions: Vec::new(),
        project: None,
        cache: None,
        diagnostics: vec![AnalysisDiagnostic {
            code: "ORP2001".to_owned(),
            path: "src/index.ts".to_owned(),
            severity: DiagnosticSeverity::Warning,
            span: Some(SourceSpan::new(8, 21)),
            message: "Dynamic import cannot be resolved statically".to_owned(),
            blocks_reachability: true,
        }],
    }
}
