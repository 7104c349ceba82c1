use orphanode::application::metrics::{
    aggregate_scan_measurements, ProjectScanMetrics, ProjectStageMetrics, ScanStageMetrics,
};
use orphanode::application::requests::AnalysisIssue;
use orphanode::cache::digest::Digest;
use orphanode::cache::key::ContentDigest;
use orphanode::cli::fixing::{
    capture_analyzed_manifest, dependency_fix_can_be_planned, fix_package_manager, judge_commands,
    manifest_directory, plan_fixes, read_fix_request, render_apply_report, render_fix_preview,
    revalidate, revalidation_failure, show_empty_plan, AnalyzedManifest, FixWorkflowError,
    RevalidationBaseline,
};
use orphanode::cli::options::{
    check_scan_options, clean_action, explain_issue, filter_findings, issue_description,
    load_file_universe, project_request_from_arguments, render_explanation, report_exit_code,
    selected_scan_issues, should_colorize, should_use_project_discovery, should_use_unicode,
    CacheTarget, CleanAction, CliFailure, ColorChoice, Explanation, ExplanationStatus,
    FileManifest, FileUniverse, OutputFormat, ScanOptions, UniverseOptions,
};
use orphanode::cli::telemetry::{
    append_human_timings, debug_telemetry, machine_timings, ScanTelemetry,
};
use orphanode::collections::{OrderedMap, OrderedSet};
use orphanode::discovery::workspace::WorkspacePackageManager;
use orphanode::domain::facts::{AnalysisDiagnostic, DiagnosticSeverity, ModuleKind, SourceKind};
use orphanode::domain::report::{
    AnalysisStatus, Confidence, FileReport, FileStatus, Finding, FixEligibility, ProjectReport,
    ReportSummary, ScanReport, REPORT_SCHEMA_VERSION,
};
use orphanode::fixes::apply::{
    preview_file_change, ApplyReport, CommandExecution, FixPreview, RevalidationOutcome,
};
use orphanode::fixes::package_manager::PackageManager;
use orphanode::fixes::plan::{FixPlanError, ProjectPath};
use orphanode::paths::FilePath;

#[test]
fn dependency_fix_eligibility_controls_preview_and_apply() {
    assert!(dependency_fix_can_be_planned(
        FixEligibility::PreviewOnly,
        false
    ));
    assert!(!dependency_fix_can_be_planned(
        FixEligibility::PreviewOnly,
        true
    ));
    assert!(dependency_fix_can_be_planned(
        FixEligibility::Eligible,
        false
    ));
    assert!(dependency_fix_can_be_planned(
        FixEligibility::Eligible,
        true
    ));
    assert!(!dependency_fix_can_be_planned(
        FixEligibility::NotAvailable,
        false
    ));
    assert!(!dependency_fix_can_be_planned(
        FixEligibility::Blocked,
        false
    ));
}

#[test]
fn workspace_is_rejected_with_an_explicit_file_universe() {
    let mut options = options();
    options.universe.entries = vec![FilePath::parse("src/index.js")];
    options.universe.files = vec![FilePath::parse("src/index.js")];
    options.workspace = Some(FilePath::parse("."));

    let message = check_scan_options(&options).unwrap_err();

    assert!(message.contains("--workspace cannot be combined with --file or --files-from"));
    assert_eq!(CliFailure::InvalidArguments.exit_code(), 2);
}

#[test]
fn project_only_options_are_rejected_with_an_explicit_file_universe() {
    let mut options = options();
    options.universe.entries = vec![FilePath::parse("src/index.js")];
    options.universe.files = vec![FilePath::parse("src/index.js")];
    options.mode = Some(orphanode::analysis::members::AnalysisMode::Deep);

    let message = check_scan_options(&options).unwrap_err();

    assert!(message.contains("--mode cannot be used with the explicit"));
    options.targets = vec!["node".to_owned()];
    assert!(check_scan_options(&options)
        .unwrap_err()
        .starts_with("--mode, --target cannot be used"));
}

#[test]
fn fixes_are_shown_to_people() {
    let mut options = options();
    options.fix = true;
    assert!(check_scan_options(&options).is_ok());
    options.format = OutputFormat::Json;
    assert!(check_scan_options(&options)
        .unwrap_err()
        .contains("--format human"));
}

#[test]
fn explain_describes_a_stable_issue_identifier() {
    let (title, _) = issue_description("ORP1001").expect("known issue");

    assert_eq!(title, "Unreachable source files");
    assert!(explain_issue("ORP1001")
        .unwrap()
        .starts_with("ORP1001  Unreachable source files\n\nReported only when"));
    assert_eq!(
        explain_issue("ORP9").unwrap_err(),
        "unknown issue identifier `ORP9`"
    );
}

#[test]
fn incomplete_analysis_uses_dedicated_exit_code() {
    let mut report = report();
    report.status = AnalysisStatus::Incomplete;

    assert_eq!(report_exit_code(&report), 2);
}

#[test]
fn findings_fail_from_their_threshold_on() {
    let mut report = report();
    assert_eq!(report_exit_code(&report), 0);
    report.findings = vec![file_finding("src/unused.js", Confidence::Medium)];
    assert_eq!(report_exit_code(&report), 1);
    let mut thresholds = OrderedMap::new();
    thresholds.insert(".".to_owned(), Confidence::High);
    report.project = Some(ProjectReport {
        mode: "balanced".to_owned(),
        workspaces: vec![".".to_owned()],
        worlds: OrderedMap::new(),
        target_profiles: Vec::new(),
        failure_thresholds: thresholds,
        detected_plugins: Vec::new(),
        configuration_sources: Vec::new(),
    });
    assert_eq!(report_exit_code(&report), 0);
}

#[test]
fn failures_have_exit_codes() {
    for failure in [
        CliFailure::InvalidArguments,
        CliFailure::ReadManifest,
        CliFailure::ParseManifest,
        CliFailure::Discovery,
        CliFailure::Workspace,
        CliFailure::Configuration,
        CliFailure::Project,
        CliFailure::Scan,
    ] {
        assert_eq!(failure.exit_code(), 2);
    }
    for failure in [
        CliFailure::FixPlan,
        CliFailure::Fix,
        CliFailure::FixRevalidation,
        CliFailure::CacheIo,
        CliFailure::Serialize,
        CliFailure::WriteOutput,
    ] {
        assert_eq!(failure.exit_code(), 3);
    }
    assert_eq!(ExplanationStatus::Incomplete.exit_code(), 2);
    assert_eq!(ExplanationStatus::NotFound.exit_code(), 1);
    assert_eq!(ExplanationStatus::Retained.exit_code(), 0);
    assert_eq!(ExplanationStatus::Reported.exit_code(), 0);
}

#[test]
fn issues_follow_the_universe() {
    let mut options = options();
    assert!(should_use_project_discovery(&options));
    assert_eq!(selected_scan_issues(&options).len(), 6);
    options.universe.files = vec![FilePath::parse("a.js")];
    assert!(!should_use_project_discovery(&options));
    assert_eq!(
        selected_scan_issues(&options).into_items(),
        [
            AnalysisIssue::Files,
            AnalysisIssue::Exports,
            AnalysisIssue::Declarations,
            AnalysisIssue::Members,
        ]
    );
    options.issues = vec![AnalysisIssue::Exports, AnalysisIssue::Files];
    assert_eq!(
        selected_scan_issues(&options).into_items(),
        [AnalysisIssue::Files, AnalysisIssue::Exports]
    );
}

#[test]
fn unwanted_findings_are_left_out() {
    let mut report = report();
    report.findings = vec![
        file_finding("src/unused.js", Confidence::High),
        dependency_finding("unused", ".", FixEligibility::Eligible),
    ];

    filter_findings(
        &mut report,
        &OrderedSet::from_items(vec![AnalysisIssue::Dependencies]),
    );

    assert_eq!(report.findings.len(), 1);
    assert_eq!(report.findings[0].issue_type, "unusedDependency");
}

#[test]
fn requests_say_what_was_asked() {
    let mut options = options();
    options.open_world = true;
    options.report_tests = true;
    options.targets = vec!["node".to_owned()];

    let request = project_request_from_arguments(&options);

    assert_eq!(request.closed_world, Some(false));
    assert!(request.report_tests);
    assert_eq!(request.target_profiles, ["node"]);
    assert_eq!(request.issues.len(), 6);
    options.closed_world = true;
    assert_eq!(
        project_request_from_arguments(&options).closed_world,
        Some(true)
    );
}

#[test]
fn files_come_from_one_place() {
    let mut universe = options().universe;
    assert_eq!(
        load_file_universe(&universe).unwrap_err(),
        "provide --files-from or at least one --entry"
    );
    universe.entries = vec![FilePath::parse("a.js")];
    assert!(matches!(
        load_file_universe(&universe),
        Ok(FileUniverse::Discovered(_))
    ));
    universe.files = vec![FilePath::parse("a.js")];
    assert!(matches!(
        load_file_universe(&universe),
        Ok(FileUniverse::Given(_))
    ));
    universe.files_from = Some(FilePath::parse("files.json"));
    assert!(load_file_universe(&universe)
        .unwrap_err()
        .contains("--files-from cannot be combined"));
    universe.entries = Vec::new();
    universe.files = Vec::new();
    let Ok(FileUniverse::Named(path)) = load_file_universe(&universe) else {
        panic!("a file names the universe");
    };
    assert_eq!(path.text(), "/project/files.json");
}

#[test]
fn manifests_name_entries_in_one_way() {
    let manifest = |entry: Option<&str>, entries: &[&str]| FileManifest {
        entry: entry.map(FilePath::parse),
        entries: entries.iter().map(|path| FilePath::parse(path)).collect(),
        files: vec![FilePath::parse("a.js")],
    };

    assert_eq!(
        manifest(Some("a.js"), &[]).into_universe().unwrap().0,
        [FilePath::parse("a.js")]
    );
    assert_eq!(
        manifest(None, &["a.js", "b.js"]).into_universe().unwrap().0.len(),
        2
    );
    assert!(manifest(Some("a.js"), &["b.js"])
        .into_universe()
        .unwrap_err()
        .contains("both"));
    assert!(manifest(None, &[])
        .into_universe()
        .unwrap_err()
        .contains("must contain"));
}

#[test]
fn colors_follow_the_terminal() {
    assert!(should_colorize(ColorChoice::Always, false, true, Some("dumb")));
    assert!(!should_colorize(ColorChoice::Never, true, false, None));
    assert!(should_colorize(ColorChoice::Auto, true, false, Some("xterm")));
    assert!(!should_colorize(ColorChoice::Auto, true, true, None));
    assert!(!should_colorize(ColorChoice::Auto, false, false, None));
    assert!(!should_colorize(ColorChoice::Auto, true, false, Some("dumb")));
    assert!(should_use_unicode(false, None));
    assert!(!should_use_unicode(true, None));
    assert!(!should_use_unicode(false, Some("dumb")));
}

#[test]
fn explanations_are_drawn_as_branches() {
    let text = render_explanation(&Explanation {
        status: ExplanationStatus::Retained,
        summary: "kept".to_owned(),
        steps: vec!["first".to_owned(), "second".to_owned()],
    });

    assert_eq!(text, "ORPHANODE  WHY\n\nkept\n├─ first\n└─ second\n");
}

#[test]
fn only_what_is_a_cache_is_removed() {
    assert_eq!(clean_action(CacheTarget::Directory), CleanAction::RemoveDirectory);
    assert_eq!(clean_action(CacheTarget::FileOrLink), CleanAction::RemoveFile);
    assert_eq!(clean_action(CacheTarget::Missing), CleanAction::Nothing);
    assert_eq!(clean_action(CacheTarget::Other), CleanAction::Refuse);
}

#[test]
fn whole_file_fixes_require_selection_preview_and_revalidate() {
    let content = b"export const unused = true;\n";
    let mut before = report();
    before.files = vec![file("src/index.js", b"1"), file("src/unused.js", content)];
    before.findings = vec![file_finding("src/unused.js", Confidence::High)];

    let nothing = read_fix_request(&vec![], &vec![], false, before.status).unwrap();
    let empty = plan_fixes(&nothing, &before, None, &OrderedMap::new(), false).unwrap();
    assert!(show_empty_plan(&empty.plan).unwrap().contains("No items selected"));

    let request = read_fix_request(
        &vec!["src/unused.js".to_owned()],
        &vec![],
        true,
        before.status,
    )
    .unwrap();
    let selection = plan_fixes(&request, &before, None, &OrderedMap::new(), true).unwrap();
    assert!(show_empty_plan(&selection.plan).is_none());
    let change = preview_file_change(&selection.plan.file_changes[0], content.to_vec()).unwrap();
    let preview = FixPreview::new(selection.plan, b"plan".to_vec(), vec![change]);
    let text = render_fix_preview(&preview, false);
    assert!(text.contains("FILE CHANGES (1)"));
    assert!(text.contains("delete  src/unused.js"));
    assert!(text.contains("reason  src/unused.js is unreachable"));
    assert!(text.contains("Preview only."));
    assert!(text.contains(&preview.fingerprint().to_hex()));
    assert!(!render_fix_preview(&preview, true).contains("Preview only."));

    let baseline = RevalidationBaseline::new(&before, selection.dependencies, selection.files);
    let mut after = report();
    after.files = vec![file("src/index.js", b"1")];
    assert!(matches!(
        revalidate(&baseline, &after),
        RevalidationOutcome::Passed { .. }
    ));
    let RevalidationOutcome::Failed { diagnostics } = revalidate(&baseline, &before) else {
        panic!("the file is still there");
    };
    assert_eq!(diagnostics, ["findings remain for: src/unused.js"]);
}

#[test]
fn dependency_fix_preview_groups_workspace_changes_and_explains_each_removal() {
    let mut before = report();
    before.findings = vec![dependency_finding("unused", ".", FixEligibility::PreviewOnly)];
    let mut manifests: OrderedMap<String, AnalyzedManifest> = OrderedMap::new();
    let (name, directory) = manifest_directory(&FilePath::parse("")).unwrap();
    assert_eq!(name, ".");
    capture_analyzed_manifest(&mut manifests, name, directory, b"{}");
    let request =
        read_fix_request(&vec![], &vec!["unused".to_owned()], false, before.status).unwrap();
    let manager = fix_package_manager(Some(WorkspacePackageManager::Npm));

    let selection = plan_fixes(&request, &before, manager, &manifests, false).unwrap();
    let preview = FixPreview::new(selection.plan, b"plan".to_vec(), Vec::new());
    let text = render_fix_preview(&preview, false);

    assert!(text.contains("DEPENDENCY CHANGES (1)"));
    assert!(text.contains("workspace  ."));
    assert!(text.contains("manifest  package.json"));
    assert!(text.contains("remove  unused"));
    assert!(text.contains("reason  dependency unused has no reachable evidence"));
    assert!(text.contains("command  npm uninstall unused"));
}

#[test]
fn fixes_are_refused_with_reasons() {
    let mut before = report();
    before.findings = vec![
        dependency_finding("twice", "a", FixEligibility::Eligible),
        dependency_finding("twice", "b", FixEligibility::Eligible),
        dependency_finding("lost", "gone", FixEligibility::Eligible),
        file_finding("src/missing.js", Confidence::High),
        file_finding("src/odd.js", Confidence::High),
    ];
    let mut odd = file("src/odd.js", b"1");
    odd.content_digest = "zz".to_owned();
    before.files = vec![odd];
    let message = |files: &[&str], dependencies: &[&str], manager: Option<PackageManager>| {
        let request = read_fix_request(
            &files.iter().map(|file| (*file).to_owned()).collect(),
            &dependencies.iter().map(|name| (*name).to_owned()).collect(),
            false,
            AnalysisStatus::Complete,
        )
        .unwrap();
        match plan_fixes(&request, &before, manager, &OrderedMap::new(), false) {
            Err(FixWorkflowError::InvalidArguments(message)) => message,
            other => panic!("unexpected {other:?}"),
        }
    };
    let npm = Some(PackageManager::Npm);

    assert_eq!(
        message(&[], &["twice"], npm),
        "dependency selector `twice` is ambiguous; use WORKSPACE:twice"
    );
    assert!(message(&[], &["a:twice"], npm).contains("unknown workspace `a`"));
    assert!(message(&[], &["lost"], npm).contains("unknown workspace `gone`"));
    assert!(message(&[], &["lost"], None).contains("unavailable: lost"));
    assert!(message(&["src/other.js"], &[], npm).contains("unavailable: src/other.js"));
    assert!(message(&["src/missing.js"], &[], npm).contains("missing report path"));
    assert!(message(&["src/odd.js"], &[], npm).contains("invalid content digest"));
    assert_eq!(fix_package_manager(Some(WorkspacePackageManager::Other)), None);
}

#[test]
fn requests_for_fixes_are_checked() {
    assert!(matches!(
        read_fix_request(
            &vec!["../out.js".to_owned()],
            &vec![],
            false,
            AnalysisStatus::Complete
        ),
        Err(FixWorkflowError::Plan(FixPlanError::UnsafePath(_)))
    ));
    assert!(matches!(
        read_fix_request(
            &vec![],
            &vec!["  ".to_owned()],
            false,
            AnalysisStatus::Complete
        ),
        Err(FixWorkflowError::InvalidArguments(_))
    ));
    assert!(matches!(
        read_fix_request(&vec![], &vec![], true, AnalysisStatus::Incomplete),
        Err(FixWorkflowError::InvalidArguments(_))
    ));
    assert!(read_fix_request(&vec![], &vec![], false, AnalysisStatus::Incomplete).is_ok());
}

#[test]
fn what_is_new_after_fixes_is_told() {
    let before = report();
    let baseline = RevalidationBaseline::new(&before, OrderedSet::new(), OrderedSet::new());
    let mut after = report();
    after.status = AnalysisStatus::Incomplete;
    after.findings = vec![file_finding("src/new.js", Confidence::High)];
    after.diagnostics = vec![AnalysisDiagnostic {
        code: "note".to_owned(),
        path: "a.js".to_owned(),
        severity: DiagnosticSeverity::Warning,
        span: None,
        message: "text".to_owned(),
        blocks_reachability: false,
    }];

    let outcome = revalidate(&baseline, &after);
    let RevalidationOutcome::Failed { diagnostics } = &outcome else {
        panic!("something is new");
    };
    assert_eq!(
        *diagnostics,
        [
            "post-apply analysis is incomplete; inspect blocking diagnostics",
            "new findings appeared: ORP1001:.:src/new.js:::High",
            "new diagnostics appeared: note:a.js:None:false:text",
        ]
    );
    assert!(revalidation_failure(&outcome)
        .unwrap()
        .starts_with("fixes were applied but post-apply validation failed"));
    assert!(revalidation_failure(&RevalidationOutcome::Passed { notes: Vec::new() }).is_none());
}

#[test]
fn failed_commands_fail_the_fix() {
    let mut before = report();
    before.findings = vec![dependency_finding("unused", ".", FixEligibility::Eligible)];
    let mut manifests = OrderedMap::new();
    manifests.insert(
        ".".to_owned(),
        AnalyzedManifest {
            working_directory: ProjectPath::root(),
            content: ContentDigest::of_bytes(b"{}"),
        },
    );
    let request =
        read_fix_request(&vec![], &vec![".:unused".to_owned()], true, before.status).unwrap();
    let mut selection =
        plan_fixes(&request, &before, Some(PackageManager::Yarn), &manifests, true).unwrap();
    let command = selection.plan.package_commands.pop().expect("command");
    let execution = CommandExecution {
        command,
        success: false,
        exit_code: Some(1),
        message: "denied".to_owned(),
    };
    let executions = vec![execution];
    let outcome = judge_commands(&executions).expect("a command failed");
    let RevalidationOutcome::Failed { diagnostics } = &outcome else {
        panic!("a command failed");
    };
    assert_eq!(
        *diagnostics,
        ["package-manager command failed: yarn remove unused"]
    );
    let mut output = String::new();
    render_apply_report(
        &mut output,
        &ApplyReport {
            plan_id: "orphanode-scan-fix".to_owned(),
            changed_paths: Vec::new(),
            package_commands: executions,
            revalidation: outcome,
        },
    );
    assert_eq!(
        output,
        "\nAPPLY\n  failed  yarn remove unused\n    denied\n  revalidation  failed\n    package-manager command failed: yarn remove unused\n"
    );
    assert!(judge_commands(&vec![]).is_none());
}

#[test]
fn timings_do_not_corrupt_machine_readable_output() {
    let mut telemetry = ScanTelemetry::new();
    telemetry.push("analysis", 2_500_000, 3);
    telemetry.push("render", 1_000_000, 4);

    let text = machine_timings(&telemetry, 9_999_999);

    assert_eq!(
        text,
        "orphanode: timings: analysis 2 ms\norphanode: timings: render 1 ms\norphanode: timings: total 9 ms\n"
    );
    let mut output = "report\n".to_owned();
    append_human_timings(&mut output, &telemetry, 9_999_999);
    assert_eq!(
        output,
        format!(
            "report\n\nTIMINGS\n  {:<24} 2 ms\n  {:<24} 1 ms\n  {:<24} 9 ms\n",
            "analysis", "render", "total"
        )
    );
}

#[test]
fn debug_reports_project_stages_counts_cache_and_diagnostics_on_stderr() {
    let mut metrics = ProjectScanMetrics::default();
    metrics.file_discovery = ProjectStageMetrics {
        duration: 3_000_000,
        count: 7,
    };
    metrics.cache.hits = 5;
    aggregate_scan_measurements(
        &mut metrics,
        ScanStageMetrics {
            fact_loading: ProjectStageMetrics {
                duration: 1_000_000,
                count: 1,
            },
            module_resolution_graph: ProjectStageMetrics {
                duration: 0,
                count: 0,
            },
            reachability_rules_report: ProjectStageMetrics {
                duration: 0,
                count: 0,
            },
            cache_persist: ProjectStageMetrics {
                duration: 0,
                count: 2,
            },
        },
    );
    assert_eq!(metrics.fact_loading.count, 1);
    assert_eq!(metrics.cache_persistence.count, 2);
    let mut telemetry = ScanTelemetry::new();
    telemetry.extend_project_metrics(&metrics);
    telemetry.effective_configuration = Some("{}".to_owned());

    let text = debug_telemetry(&telemetry, &report(), 1);

    assert!(text.contains("orphanode: debug: stage=workspace_discovery elapsed_ms=0 count=0\n"));
    assert!(text.contains("orphanode: debug: stage=file_discovery elapsed_ms=3 count=7\n"));
    assert!(text.contains("orphanode: debug: cache hits=5 misses=0 generation_writes=0\n"));
    assert!(text.contains("orphanode: debug: effective_configuration={}\n"));
    assert!(text.contains("findings=0"));
    assert!(text.contains("diagnostics=0"));
    let mut again = ScanTelemetry::new();
    again.extend_revalidation_metrics(&metrics);
    assert_eq!(again.stages[2].name, "revalidation_file_discovery");
    assert!(debug_telemetry(&ScanTelemetry::new(), &report(), 1).contains("cache unavailable"));
}

#[test]
fn entry_only_scans_use_project_discovery() {
    let mut options = options();
    options.universe.entries = vec![FilePath::parse("src/index.ts")];

    assert!(should_use_project_discovery(&options));
    assert_eq!(
        project_request_from_arguments(&options).entries,
        [FilePath::parse("src/index.ts")]
    );
}

fn options() -> ScanOptions {
    ScanOptions {
        universe: UniverseOptions {
            root: FilePath::parse("/project"),
            entries: Vec::new(),
            files: Vec::new(),
            files_from: None,
        },
        format: OutputFormat::Human,
        report_tests: false,
        color: ColorChoice::Auto,
        ascii: false,
        pretty: false,
        workspace: None,
        issues: Vec::new(),
        mode: None,
        targets: Vec::new(),
        closed_world: false,
        open_world: false,
        fix: false,
        apply: false,
        fix_files: Vec::new(),
        fix_dependencies: Vec::new(),
        timings: false,
        debug: false,
    }
}

fn report() -> ScanReport {
    ScanReport {
        schema_version: REPORT_SCHEMA_VERSION,
        status: AnalysisStatus::Complete,
        entries: vec!["src/index.js".to_owned()],
        summary: ReportSummary {
            files: 1,
            reachable_files: 1,
            unreachable_files: 0,
            incomplete_files: 0,
            diagnostics: 0,
        },
        files: Vec::new(),
        findings: Vec::new(),
        retentions: Vec::new(),
        project: None,
        cache: None,
        diagnostics: Vec::new(),
    }
}

fn file(path: &str, content: &[u8]) -> FileReport {
    FileReport {
        path: path.to_owned(),
        status: FileStatus::Reachable,
        target_statuses: OrderedMap::new(),
        source_kind: SourceKind::JavaScript,
        module_kind: ModuleKind::Esm,
        byte_len: content.len(),
        line_count: 1,
        content_digest: Digest::of_bytes(content).to_hex(),
        imports: Vec::new(),
        exports: Vec::new(),
    }
}

fn file_finding(path: &str, confidence: Confidence) -> Finding {
    Finding {
        issue_id: "ORP1001",
        issue_type: "unusedFiles",
        workspace: ".".to_owned(),
        target_profiles: vec!["node".to_owned()],
        paths: vec![path.to_owned()],
        span: None,
        symbol: None,
        dependency: None,
        confidence,
        summary: format!("{path} is unreachable"),
        evidence: Vec::new(),
        blockers: Vec::new(),
        suggested_actions: Vec::new(),
        fix_eligibility: FixEligibility::Eligible,
    }
}

fn dependency_finding(name: &str, workspace: &str, fix_eligibility: FixEligibility) -> Finding {
    Finding {
        issue_id: "ORP2001",
        issue_type: "unusedDependency",
        workspace: workspace.to_owned(),
        target_profiles: vec!["node".to_owned()],
        paths: vec!["package.json".to_owned()],
        span: None,
        symbol: None,
        dependency: Some(name.to_owned()),
        confidence: Confidence::High,
        summary: format!("dependency {name} has no reachable evidence"),
        evidence: Vec::new(),
        blockers: Vec::new(),
        suggested_actions: Vec::new(),
        fix_eligibility,
    }
}
