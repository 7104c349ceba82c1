//! The options of the command line, and what follows from them.

use crate::analysis::members::AnalysisMode;
use crate::application::policy::{confidence_rank, firmness};
use crate::application::project::{is_wanted, wants};
use crate::application::requests::{
    every_issue, plain_request, AnalysisIssue, ProjectScanRequest, ProjectScanRequestModel,
};
use crate::collections::{collected, lookup, OrderedSet};
use crate::domain::report::{
    AnalysisStatus, Confidence, Finding, FindingModel, ProjectReport, ProjectReportModel, ScanReport,
    ScanReportModel,
};
use crate::paths::{path_joined, FilePath, PathPartModel};
use crate::render::{safe, safe_text};
use crate::text::{concat2, concat5, join, joined, no_texts, same};
use crate::values::{push_item, Value};
use vstd::prelude::*;

verus! {

/// How a report is presented.
#[derive(Debug, Clone, Copy, PartialEq, Eq, Structural)]
pub enum OutputFormat {
    Human,
    /// One line for each finding.
    Compact,
    Json,
    Sarif,
}

impl DeepView for OutputFormat {
    type V = OutputFormat;

    open spec fn deep_view(&self) -> OutputFormat {
        *self
    }
}

impl Value for OutputFormat {
    fn replicate(&self) -> (r: Self) {
        *self
    }

    fn same_value(&self, other: &Self) -> (r: bool) {
        *self == *other
    }
}

/// When colors are used.
#[derive(Debug, Clone, Copy, PartialEq, Eq, Structural)]
pub enum ColorChoice {
    Auto,
    Always,
    Never,
}

impl DeepView for ColorChoice {
    type V = ColorChoice;

    open spec fn deep_view(&self) -> ColorChoice {
        *self
    }
}

impl Value for ColorChoice {
    fn replicate(&self) -> (r: Self) {
        *self
    }

    fn same_value(&self, other: &Self) -> (r: bool) {
        *self == *other
    }
}

/// The files that are looked at.
#[derive(Debug, PartialEq, Eq)]
pub struct UniverseOptions {
    /// The project root, against which paths are taken.
    pub root: FilePath,
    /// Where the analysis starts.
    pub entries: Vec<FilePath>,
    /// The whole universe of files, where it is given.
    pub files: Vec<FilePath>,
    /// The file that names the universe of files, where there is one.
    pub files_from: Option<FilePath>,
}

/// What a [`UniverseOptions`] holds.
pub struct UniverseOptionsModel {
    pub root: Seq<PathPartModel>,
    pub entries: Seq<Seq<PathPartModel>>,
    pub files: Seq<Seq<PathPartModel>>,
    pub files_from: Option<Seq<PathPartModel>>,
}

impl DeepView for UniverseOptions {
    type V = UniverseOptionsModel;

    open spec fn deep_view(&self) -> UniverseOptionsModel {
        UniverseOptionsModel {
            root: self.root.deep_view(),
            entries: self.entries.deep_view(),
            files: self.files.deep_view(),
            files_from: self.files_from.deep_view(),
        }
    }
}

/// What a scan is asked for.
#[derive(Debug, PartialEq, Eq)]
pub struct ScanOptions {
    pub universe: UniverseOptions,
    pub format: OutputFormat,
    pub report_tests: bool,
    pub color: ColorChoice,
    pub ascii: bool,
    pub pretty: bool,
    pub workspace: Option<FilePath>,
    pub issues: Vec<AnalysisIssue>,
    pub mode: Option<AnalysisMode>,
    pub targets: Vec<String>,
    pub closed_world: bool,
    pub open_world: bool,
    pub fix: bool,
    pub apply: bool,
    pub fix_files: Vec<String>,
    pub fix_dependencies: Vec<String>,
    pub timings: bool,
    pub debug: bool,
}

/// What a [`ScanOptions`] holds.
pub struct ScanOptionsModel {
    pub universe: UniverseOptionsModel,
    pub format: OutputFormat,
    pub report_tests: bool,
    pub color: ColorChoice,
    pub ascii: bool,
    pub pretty: bool,
    pub workspace: Option<Seq<PathPartModel>>,
    pub issues: Seq<AnalysisIssue>,
    pub mode: Option<AnalysisMode>,
    pub targets: Seq<Seq<char>>,
    pub closed_world: bool,
    pub open_world: bool,
    pub fix: bool,
    pub apply: bool,
    pub fix_files: Seq<Seq<char>>,
    pub fix_dependencies: Seq<Seq<char>>,
    pub timings: bool,
    pub debug: bool,
}

impl DeepView for ScanOptions {
    type V = ScanOptionsModel;

    open spec fn deep_view(&self) -> ScanOptionsModel {
        ScanOptionsModel {
            universe: self.universe.deep_view(),
            format: self.format.deep_view(),
            report_tests: self.report_tests.deep_view(),
            color: self.color.deep_view(),
            ascii: self.ascii.deep_view(),
            pretty: self.pretty.deep_view(),
            workspace: self.workspace.deep_view(),
            issues: self.issues.deep_view(),
            mode: self.mode.deep_view(),
            targets: self.targets.deep_view(),
            closed_world: self.closed_world.deep_view(),
            open_world: self.open_world.deep_view(),
            fix: self.fix.deep_view(),
            apply: self.apply.deep_view(),
            fix_files: self.fix_files.deep_view(),
            fix_dependencies: self.fix_dependencies.deep_view(),
            timings: self.timings.deep_view(),
            debug: self.debug.deep_view(),
        }
    }
}

/// Whether the universe of files is given.
pub open spec fn is_explicit(universe: UniverseOptionsModel) -> bool {
    universe.files_from is Some || universe.files.len() > 0
}

/// Whether the universe of files is given.
#[must_use]
pub fn uses_explicit_file_universe(universe: &UniverseOptions) -> (r: bool)
    ensures
        r == is_explicit(universe.deep_view()),
{
    universe.files_from.is_some() || universe.files.len() > 0
}

/// Whether a scan looks at a whole project.
#[must_use]
pub fn should_use_project_discovery(options: &ScanOptions) -> (r: bool)
    ensures
        r == !is_explicit(options.deep_view().universe),
{
    !uses_explicit_file_universe(&options.universe)
}

/// The issues that are looked for: all where none are named.
pub open spec fn chosen_issues(issues: Seq<AnalysisIssue>) -> Seq<AnalysisIssue> {
    if issues.len() == 0 {
        every_issue()
    } else {
        collected::<AnalysisIssue>(issues)
    }
}

/// The issues that are looked for: all where none are named.
#[must_use]
pub fn selected_issues(issues: &Vec<AnalysisIssue>) -> (r: OrderedSet<AnalysisIssue>)
    ensures
        r.deep_view() == chosen_issues(issues.deep_view()),
{
    if issues.len() == 0 {
        AnalysisIssue::all()
    } else {
        OrderedSet::from_items(issues.replicate())
    }
}

/// The issues that are looked for where the universe of files is given and none are named.
pub open spec fn file_issues() -> Seq<AnalysisIssue> {
    collected::<AnalysisIssue>(
        seq![
            AnalysisIssue::Files,
            AnalysisIssue::Exports,
            AnalysisIssue::Declarations,
            AnalysisIssue::Members,
        ],
    )
}

/// The issues that a scan looks for.
pub open spec fn scanned_issues(options: ScanOptionsModel) -> Seq<AnalysisIssue> {
    if is_explicit(options.universe) && options.issues.len() == 0 {
        file_issues()
    } else {
        chosen_issues(options.issues)
    }
}

/// The issues that a scan looks for.
#[must_use]
pub fn selected_scan_issues(options: &ScanOptions) -> (r: OrderedSet<AnalysisIssue>)
    ensures
        r.deep_view() == scanned_issues(options.deep_view()),
{
    if uses_explicit_file_universe(&options.universe) && options.issues.len() == 0 {
        let mut issues: Vec<AnalysisIssue> = Vec::new();
        issues.push(AnalysisIssue::Files);
        issues.push(AnalysisIssue::Exports);
        issues.push(AnalysisIssue::Declarations);
        issues.push(AnalysisIssue::Members);
        assert(issues.deep_view() =~= seq![
            AnalysisIssue::Files,
            AnalysisIssue::Exports,
            AnalysisIssue::Declarations,
            AnalysisIssue::Members,
        ]);
        OrderedSet::from_items(issues)
    } else {
        selected_issues(&options.issues)
    }
}

/// The findings that are asked for.
pub open spec fn wanted_findings(
    items: Seq<FindingModel>,
    start: Seq<FindingModel>,
    issues: Seq<AnalysisIssue>,
) -> Seq<FindingModel>
    decreases items.len(),
{
    if items.len() == 0 {
        start
    } else {
        let rest = wanted_findings(items.drop_last(), start, issues);
        let last = items.last();
        if is_wanted(last.issue_type, issues) {
            rest.push(last)
        } else {
            rest
        }
    }
}

fn choose_wanted_findings(
    items: &Vec<Finding>,
    issues: &OrderedSet<AnalysisIssue>,
    out: &mut Vec<Finding>,
)
    ensures
        final(out).deep_view() == wanted_findings(items.deep_view(), old(out).deep_view(), issues.deep_view()),
{
    let ghost start = out.deep_view();
    let ghost issues_model = issues.deep_view();
    let ghost model = items.deep_view();
    let mut i: usize = 0;
    while i < items.len()
        invariant
            i <= items.len(),
            model == items.deep_view(),
            issues_model == issues.deep_view(),
            out.deep_view() =~= wanted_findings(model.take(i as int), start, issues_model),
        decreases items.len() - i,
    {
        proof {
            assert(model.take(i + 1).drop_last() =~= model.take(i as int));
            assert(model.take(i + 1).last() == items@[i as int].deep_view());
        }
        let item: &Finding = &items[i];
        if wants(item.issue_type, issues) {
            push_item(out, item.replicate());
        }
        i = i + 1;
    }
    assert(model.take(i as int) =~= model);
}

/// Leaves the findings that are asked for.
pub fn filter_findings(report: &mut ScanReport, issues: &OrderedSet<AnalysisIssue>)
    ensures
        final(report).deep_view() == (ScanReportModel {
            findings: wanted_findings(
                old(report).deep_view().findings,
                Seq::empty(),
                issues.deep_view(),
            ),
            ..old(report).deep_view()
        }),
{
    let mut findings: Vec<Finding> = Vec::new();
    assert(findings.deep_view() =~= Seq::empty());
    choose_wanted_findings(&report.findings, issues, &mut findings);
    report.findings = findings;
}

/// Whether one of some issues needs a whole project.
pub open spec fn needs_project(issue: AnalysisIssue) -> bool {
    issue == AnalysisIssue::Dependencies || issue == AnalysisIssue::Workspaces
}

/// Whether some issues need a whole project.
pub open spec fn some_need_project(items: Seq<AnalysisIssue>) -> bool {
    exists|i: int| 0 <= i < items.len() && needs_project(#[trigger] items[i])
}

fn any_needs_project(items: &Vec<AnalysisIssue>) -> (r: bool)
    ensures
        r == some_need_project(items.deep_view()),
{
    let ghost model = items.deep_view();
    let mut i: usize = 0;
    while i < items.len()
        invariant
            i <= items.len(),
            model == items.deep_view(),
            forall|k: int| 0 <= k < i ==> !needs_project(#[trigger] model[k]),
        decreases items.len() - i,
    {
        assert(model[i as int] == items@[i as int].deep_view());
        let item: &AnalysisIssue = &items[i];
        if *item == AnalysisIssue::Dependencies || *item == AnalysisIssue::Workspaces {
            return true;
        }
        i = i + 1;
    }
    false
}

/// A list with an option, where it was given.
pub open spec fn with_option(
    options: Seq<Seq<char>>,
    given: bool,
    name: Seq<char>,
) -> Seq<Seq<char>> {
    if given {
        options.push(name)
    } else {
        options
    }
}

fn add_option(options: &mut Vec<String>, given: bool, name: &str)
    ensures
        final(options).deep_view() == with_option(old(options).deep_view(), given, name@),
{
    if given {
        push_item(options, name.to_string());
    }
}

/// The given options that need a whole project.
pub open spec fn project_options(options: ScanOptionsModel) -> Seq<Seq<char>> {
    let none: Seq<Seq<char>> = Seq::empty();
    let l0 = with_option(none, options.mode is Some, "--mode"@);
    let l1 = with_option(l0, options.targets.len() > 0, "--target"@);
    let l2 = with_option(l1, options.closed_world, "--closed-world"@);
    let l3 = with_option(l2, options.open_world, "--open-world"@);
    let l4 = with_option(l3, some_need_project(options.issues), "--issues dependencies/workspaces"@);
    let l5 = with_option(l4, options.fix || options.apply, "--fix/--apply"@);
    l5
}

/// What is wrong with options, if anything.
pub open spec fn universe_fault(options: ScanOptionsModel) -> Option<Seq<char>> {
    if !is_explicit(options.universe) {
        None
    } else if options.workspace is Some {
        Some("--workspace cannot be combined with --file or --files-from"@)
    } else if project_options(options).len() == 0 {
        None
    } else {
        Some(
            joined(project_options(options), ", "@)
                + " cannot be used with the explicit --file/--files-from universe because the legacy scanner cannot honor those project options"@,
        )
    }
}

/// Checks options against a universe of files that is given.
///
/// # Errors
///
/// Returns an error when the universe of files is given together with options that need a whole
/// project.
pub fn validate_scan_universe_options(options: &ScanOptions) -> (r: Result<(), String>)
    ensures
        match r {
            Ok(_) => universe_fault(options.deep_view()) is None,
            Err(message) => universe_fault(options.deep_view()) == Some(message@),
        },
{
    if !uses_explicit_file_universe(&options.universe) {
        return Ok(());
    }
    if options.workspace.is_some() {
        return Err("--workspace cannot be combined with --file or --files-from".to_string());
    }
    let mut unsupported: Vec<String> = no_texts();
    add_option(&mut unsupported, options.mode.is_some(), "--mode");
    add_option(&mut unsupported, options.targets.len() > 0, "--target");
    add_option(&mut unsupported, options.closed_world, "--closed-world");
    add_option(&mut unsupported, options.open_world, "--open-world");
    add_option(&mut unsupported, any_needs_project(&options.issues), "--issues dependencies/workspaces");
    add_option(&mut unsupported, options.fix || options.apply, "--fix/--apply");
    if unsupported.len() == 0 {
        return Ok(());
    }
    Err(
        concat2(
            &join(&unsupported, ", "),
            " cannot be used with the explicit --file/--files-from universe because the legacy scanner cannot honor those project options",
        ),
    )
}

/// What is wrong with the options of a scan, if anything.
pub open spec fn options_fault(options: ScanOptionsModel) -> Option<Seq<char>> {
    if (options.fix || options.apply) && options.format != OutputFormat::Human {
        Some(
            "--fix and --apply currently require --format human so the plan is reviewed before execution"@,
        )
    } else {
        universe_fault(options)
    }
}

/// Checks the options of a scan.
///
/// # Errors
///
/// Returns an error when options exclude each other.
pub fn check_scan_options(options: &ScanOptions) -> (r: Result<(), String>)
    ensures
        match r {
            Ok(_) => options_fault(options.deep_view()) is None,
            Err(message) => options_fault(options.deep_view()) == Some(message@),
        },
{
    if (options.fix || options.apply) && options.format != OutputFormat::Human {
        return Err(
            "--fix and --apply currently require --format human so the plan is reviewed before execution".to_string(),
        );
    }
    validate_scan_universe_options(options)
}

/// The kind of project that was asked for, if one was.
pub open spec fn asked_world(options: ScanOptionsModel) -> Option<bool> {
    if options.closed_world {
        Some(true)
    } else if options.open_world {
        Some(false)
    } else {
        None
    }
}

/// What is asked of the analysis of a project.
pub open spec fn requested_scan(options: ScanOptionsModel) -> ProjectScanRequestModel {
    ProjectScanRequestModel {
        workspace: options.workspace,
        entries: options.universe.entries,
        mode: options.mode,
        closed_world: asked_world(options),
        target_profiles: options.targets,
        issues: chosen_issues(options.issues),
        report_tests: options.report_tests,
        ..plain_request(options.universe.root)
    }
}

/// What is asked of the analysis of a project.
#[must_use]
pub fn project_request_from_arguments(options: &ScanOptions) -> (r: ProjectScanRequest)
    ensures
        r.deep_view() == requested_scan(options.deep_view()),
{
    let mut request: ProjectScanRequest = ProjectScanRequest::new(options.universe.root.replicate());
    request.workspace = options.workspace.replicate();
    request.entries = options.universe.entries.replicate();
    request.mode = options.mode;
    request.closed_world = if options.closed_world {
        Some(true)
    } else if options.open_world {
        Some(false)
    } else {
        None
    };
    request.target_profiles = options.targets.replicate();
    request.issues = selected_issues(&options.issues);
    request.report_tests = options.report_tests;
    request
}

/// How firmly a finding has to stand for a scan to fail on it.
pub open spec fn failing_level(
    project: Option<ProjectReportModel>,
    workspace: Seq<char>,
) -> Confidence {
    match project {
        Some(project) => match lookup(project.failure_thresholds, workspace) {
            Some(level) => level,
            None => Confidence::Low,
        },
        None => Confidence::Low,
    }
}

/// Whether a scan fails on a finding.
pub open spec fn fails_on(finding: FindingModel, project: Option<ProjectReportModel>) -> bool {
    firmness(finding.confidence) >= firmness(failing_level(project, finding.workspace))
}

fn is_failure(finding: &Finding, project: &Option<ProjectReport>) -> (r: bool)
    ensures
        r == fails_on(finding.deep_view(), project.deep_view()),
{
    let level: Confidence = match project {
        Some(project) => match project.failure_thresholds.get(&finding.workspace) {
            Some(level) => *level,
            None => Confidence::Low,
        },
        None => Confidence::Low,
    };
    confidence_rank(finding.confidence) >= confidence_rank(level)
}

/// Whether a scan fails on one of some findings.
pub open spec fn some_fail(items: Seq<FindingModel>, project: Option<ProjectReportModel>) -> bool {
    exists|i: int| 0 <= i < items.len() && fails_on(#[trigger] items[i], project)
}

fn any_failure(items: &Vec<Finding>, project: &Option<ProjectReport>) -> (r: bool)
    ensures
        r == some_fail(items.deep_view(), project.deep_view()),
{
    let ghost project_model = project.deep_view();
    let ghost model = items.deep_view();
    let mut i: usize = 0;
    while i < items.len()
        invariant
            i <= items.len(),
            model == items.deep_view(),
            project_model == project.deep_view(),
            forall|k: int| 0 <= k < i ==> !fails_on(#[trigger] model[k], project_model),
        decreases items.len() - i,
    {
        assert(model[i as int] == items@[i as int].deep_view());
        let item: &Finding = &items[i];
        if is_failure(item, project) {
            return true;
        }
        i = i + 1;
    }
    false
}

/// The exit code of a scan: that its analysis is incomplete, that it found something, or that
/// all is well.
pub open spec fn exit_code_of(report: ScanReportModel) -> u8 {
    if report.status == AnalysisStatus::Incomplete {
        2
    } else if some_fail(report.findings, report.project) {
        1
    } else {
        0
    }
}

/// The exit code of a scan: that its analysis is incomplete, that it found something, or that
/// all is well.
#[must_use]
pub fn report_exit_code(report: &ScanReport) -> (r: u8)
    ensures
        r == exit_code_of(report.deep_view()),
{
    if report.status == AnalysisStatus::Incomplete {
        2
    } else if any_failure(&report.findings, &report.project) {
        1
    } else {
        0
    }
}

/// A scan ends well only where its analysis is complete and no finding stands firmly enough to
/// fail on: an incomplete analysis is never silently clean.
pub proof fn clean_scans_are_complete(report: ScanReportModel)
    ensures
        exit_code_of(report) == 0 <==> report.status == AnalysisStatus::Complete && forall|i: int|
            0 <= i < report.findings.len() ==> !fails_on(
                #[trigger] report.findings[i],
                report.project,
            ),
        report.status == AnalysisStatus::Incomplete <==> exit_code_of(report) == 2,
{
    if some_fail(report.findings, report.project) {
        let i = choose|i: int|
            0 <= i < report.findings.len() && fails_on(
                #[trigger] report.findings[i],
                report.project,
            );
        assert(fails_on(report.findings[i], report.project));
    } else {
        assert forall|i: int| 0 <= i < report.findings.len() implies !fails_on(
            #[trigger] report.findings[i],
            report.project,
        ) by {
            assert(!fails_on(report.findings[i], report.project));
        }
    }
}

/// How a command failed.
#[derive(Debug, Clone, Copy, PartialEq, Eq, Structural)]
pub enum CliFailure {
    InvalidArguments,
    ReadManifest,
    ParseManifest,
    Discovery,
    Workspace,
    Configuration,
    Project,
    Scan,
    FixPlan,
    Fix,
    FixRevalidation,
    CacheIo,
    Serialize,
    WriteOutput,
}

impl DeepView for CliFailure {
    type V = CliFailure;

    open spec fn deep_view(&self) -> CliFailure {
        *self
    }
}

impl Value for CliFailure {
    fn replicate(&self) -> (r: Self) {
        *self
    }

    fn same_value(&self, other: &Self) -> (r: bool) {
        *self == *other
    }
}

impl CliFailure {
    /// Whether a command failed before it changed or wrote anything.
    pub open spec fn is_early(self) -> bool {
        match self {
            CliFailure::InvalidArguments => true,
            CliFailure::ReadManifest => true,
            CliFailure::ParseManifest => true,
            CliFailure::Discovery => true,
            CliFailure::Workspace => true,
            CliFailure::Configuration => true,
            CliFailure::Project => true,
            CliFailure::Scan => true,
            CliFailure::FixPlan => false,
            CliFailure::Fix => false,
            CliFailure::FixRevalidation => false,
            CliFailure::CacheIo => false,
            CliFailure::Serialize => false,
            CliFailure::WriteOutput => false,
        }
    }

    /// The exit code of the failure.
    #[must_use]
    pub fn exit_code(self) -> (r: u8)
        ensures
            r == if self.is_early() {
                2u8
            } else {
                3u8
            },
    {
        match self {
            CliFailure::InvalidArguments => 2,
            CliFailure::ReadManifest => 2,
            CliFailure::ParseManifest => 2,
            CliFailure::Discovery => 2,
            CliFailure::Workspace => 2,
            CliFailure::Configuration => 2,
            CliFailure::Project => 2,
            CliFailure::Scan => 2,
            CliFailure::FixPlan => 3,
            CliFailure::Fix => 3,
            CliFailure::FixRevalidation => 3,
            CliFailure::CacheIo => 3,
            CliFailure::Serialize => 3,
            CliFailure::WriteOutput => 3,
        }
    }
}

/// Where the files of a scan come from.
#[derive(Debug, PartialEq, Eq)]
pub enum FileUniverse {
    /// A file names entries and files.
    Named(FilePath),
    /// Entries and files are given.
    Given((Vec<FilePath>, Vec<FilePath>)),
    /// Entries are given; the files are those below the root.
    Discovered(Vec<FilePath>),
}

/// What a [`FileUniverse`] holds.
pub enum FileUniverseModel {
    Named(Seq<PathPartModel>),
    Given((Seq<Seq<PathPartModel>>, Seq<Seq<PathPartModel>>)),
    Discovered(Seq<Seq<PathPartModel>>),
}

impl DeepView for FileUniverse {
    type V = FileUniverseModel;

    open spec fn deep_view(&self) -> FileUniverseModel {
        match self {
            FileUniverse::Named(x) => FileUniverseModel::Named(x.deep_view()),
            FileUniverse::Given(x) => FileUniverseModel::Given(x.deep_view()),
            FileUniverse::Discovered(x) => FileUniverseModel::Discovered(x.deep_view()),
        }
    }
}

/// Where the files of a scan come from, or why they come from nowhere.
pub open spec fn universe_of(
    universe: UniverseOptionsModel,
) -> Result<FileUniverseModel, Seq<char>> {
    match universe.files_from {
        Some(manifest) => if universe.entries.len() > 0 || universe.files.len() > 0 {
            Err("--files-from cannot be combined with --entry or --file"@)
        } else {
            Ok(FileUniverseModel::Named(path_joined(universe.root, manifest)))
        },
        None => if universe.entries.len() == 0 {
            Err("provide --files-from or at least one --entry"@)
        } else if universe.files.len() > 0 {
            Ok(FileUniverseModel::Given((universe.entries, universe.files)))
        } else {
            Ok(FileUniverseModel::Discovered(universe.entries))
        },
    }
}

/// A path, taken against a root.
#[must_use]
pub fn rooted_path(root: &FilePath, path: &FilePath) -> (r: FilePath)
    ensures
        r.deep_view() == path_joined(root.deep_view(), path.deep_view()),
{
    root.join(path)
}

/// Decides where the files of a scan come from.
///
/// # Errors
///
/// Returns an error when they come from nowhere, or from two places.
pub fn load_file_universe(universe: &UniverseOptions) -> (r: Result<FileUniverse, String>)
    ensures
        match r {
            Ok(found) => universe_of(universe.deep_view()) == Ok::<FileUniverseModel, Seq<char>>(
                found.deep_view(),
            ),
            Err(message) => universe_of(universe.deep_view()) == Err::<
                FileUniverseModel,
                Seq<char>,
            >(message@),
        },
{
    match &universe.files_from {
        Some(manifest) => if universe.entries.len() > 0 || universe.files.len() > 0 {
            Err("--files-from cannot be combined with --entry or --file".to_string())
        } else {
            Ok(FileUniverse::Named(rooted_path(&universe.root, manifest)))
        },
        None => if universe.entries.len() == 0 {
            Err("provide --files-from or at least one --entry".to_string())
        } else if universe.files.len() > 0 {
            Ok(FileUniverse::Given((universe.entries.replicate(), universe.files.replicate())))
        } else {
            Ok(FileUniverse::Discovered(universe.entries.replicate()))
        },
    }
}

/// A file that names entries and files.
#[derive(Debug, PartialEq, Eq)]
pub struct FileManifest {
    pub entry: Option<FilePath>,
    pub entries: Vec<FilePath>,
    pub files: Vec<FilePath>,
}

/// What a [`FileManifest`] holds.
pub struct FileManifestModel {
    pub entry: Option<Seq<PathPartModel>>,
    pub entries: Seq<Seq<PathPartModel>>,
    pub files: Seq<Seq<PathPartModel>>,
}

impl DeepView for FileManifest {
    type V = FileManifestModel;

    open spec fn deep_view(&self) -> FileManifestModel {
        FileManifestModel {
            entry: self.entry.deep_view(),
            entries: self.entries.deep_view(),
            files: self.files.deep_view(),
        }
    }
}

/// The entries that a file names, or why it names none.
pub open spec fn named_entries(manifest: FileManifestModel) -> Result<
    Seq<Seq<PathPartModel>>,
    Seq<char>,
> {
    match manifest.entry {
        Some(entry) => if manifest.entries.len() == 0 {
            Ok(seq![entry])
        } else {
            Err("manifest cannot contain both `entry` and `entries`"@)
        },
        None => if manifest.entries.len() > 0 {
            Ok(manifest.entries)
        } else {
            Err("manifest must contain `entry` or a non-empty `entries` array"@)
        },
    }
}

impl FileManifest {
    /// The entries that the file names, and its files.
    ///
    /// # Errors
    ///
    /// Returns an error when the file names entries in two ways, or not at all.
    pub fn into_universe(self) -> (r: Result<(Vec<FilePath>, Vec<FilePath>), String>)
        ensures
            match r {
                Ok(found) => named_entries(self.deep_view()) == Ok::<
                    Seq<Seq<PathPartModel>>,
                    Seq<char>,
                >(found.0.deep_view()) && found.1.deep_view() == self.deep_view().files,
                Err(message) => named_entries(self.deep_view()) == Err::<
                    Seq<Seq<PathPartModel>>,
                    Seq<char>,
                >(message@),
            },
    {
        match self.entry {
            Some(entry) => if self.entries.len() == 0 {
                let mut entries: Vec<FilePath> = Vec::new();
                let ghost model = entry.deep_view();
                entries.push(entry);
                assert(entries.deep_view() =~= seq![model]);
                Ok((entries, self.files))
            } else {
                Err("manifest cannot contain both `entry` and `entries`".to_string())
            },
            None => if self.entries.len() > 0 {
                Ok((self.entries, self.files))
            } else {
                Err("manifest must contain `entry` or a non-empty `entries` array".to_string())
            },
        }
    }
}

/// Whether a terminal can show more than plain text.
pub open spec fn is_capable(term: Option<Seq<char>>) -> bool {
    term != Some("dumb"@)
}

fn can_show(term: Option<&str>) -> (r: bool)
    ensures
        r == is_capable(
            match term {
                Some(name) => Some(name@),
                None => None,
            },
        ),
{
    match term {
        Some(name) => !same(name, "dumb"),
        None => true,
    }
}

/// Whether colors are used. Where nothing is said, they are on a terminal that can show them,
/// unless `NO_COLOR` is set.
#[must_use]
pub fn should_colorize(
    choice: ColorChoice,
    terminal: bool,
    no_color: bool,
    term: Option<&str>,
) -> (r:
    bool)
    ensures
        r == match choice {
            ColorChoice::Always => true,
            ColorChoice::Never => false,
            ColorChoice::Auto => terminal && !no_color && is_capable(
                match term {
                    Some(name) => Some(name@),
                    None => None,
                },
            ),
        },
{
    match choice {
        ColorChoice::Always => true,
        ColorChoice::Never => false,
        ColorChoice::Auto => terminal && !no_color && can_show(term),
    }
}

/// Whether characters beyond ASCII are used.
#[must_use]
pub fn should_use_unicode(ascii: bool, term: Option<&str>) -> (r: bool)
    ensures
        r == (!ascii && is_capable(
            match term {
                Some(name) => Some(name@),
                None => None,
            },
        )),
{
    !ascii && can_show(term)
}

/// The title of an issue and the policy behind it.
pub open spec fn described(issue_id: Seq<char>) -> Option<(Seq<char>, Seq<char>)> {
    if issue_id == "ORP1001"@ {
        Some(
            (
                "Unreachable source files"@,
                "Reported only when no supported path exists from any configured entry and no reachable coverage blocker could invalidate that conclusion. Review roots before removal."@,
            ),
        )
    } else if issue_id == "ORP1002"@ {
        Some(
            (
                "Unused export"@,
                "Requires symbol-level linking and the applicable open- or closed-world package contract. Public exports are retained by default for publishable packages."@,
            ),
        )
    } else if issue_id == "ORP1003"@ {
        Some(
            (
                "Unused declaration"@,
                "A dead binding is distinct from a removable initializer. Automatic changes require effect and comment-preservation proof."@,
            ),
        )
    } else if issue_id == "ORP1004"@ {
        Some(
            (
                "Unused member"@,
                "Member findings are blocked by relevant escape, reflection, decorator, inheritance, override, and framework uncertainty."@,
            ),
        )
    } else if issue_id == "ORP2001"@ {
        Some(
            (
                "Unused dependency"@,
                "A direct dependency is unused only when no reachable runtime, type, script, config, binary, plugin, peer, optional, or bundled contract retains it."@,
            ),
        )
    } else if issue_id == "ORP2002"@ {
        Some(
            (
                "Unlisted or misplaced dependency"@,
                "A reachable package reference has no declaration in its owning workspace, or is declared in a different workspace. Hoisting is not treated as ownership."@,
            ),
        )
    } else if issue_id == "ORP3001"@ {
        Some(
            (
                "Unused workspace package"@,
                "A private workspace is reported only when no live workspace, script, configuration, framework, or public root retains it. Its unreachable contents remain separate file findings."@,
            ),
        )
    } else {
        None
    }
}

/// The title of an issue and the policy behind it.
#[must_use]
pub fn issue_description(issue_id: &str) -> (r: Option<(&'static str, &'static str)>)
    ensures
        match r {
            Some(found) => described(issue_id@) == Some((found.0@, found.1@)),
            None => described(issue_id@) is None,
        },
{
    if same(issue_id, "ORP1001") {
        Some(
            (
                "Unreachable source files",
                "Reported only when no supported path exists from any configured entry and no reachable coverage blocker could invalidate that conclusion. Review roots before removal.",
            ),
        )
    } else if same(issue_id, "ORP1002") {
        Some(
            (
                "Unused export",
                "Requires symbol-level linking and the applicable open- or closed-world package contract. Public exports are retained by default for publishable packages.",
            ),
        )
    } else if same(issue_id, "ORP1003") {
        Some(
            (
                "Unused declaration",
                "A dead binding is distinct from a removable initializer. Automatic changes require effect and comment-preservation proof.",
            ),
        )
    } else if same(issue_id, "ORP1004") {
        Some(
            (
                "Unused member",
                "Member findings are blocked by relevant escape, reflection, decorator, inheritance, override, and framework uncertainty.",
            ),
        )
    } else if same(issue_id, "ORP2001") {
        Some(
            (
                "Unused dependency",
                "A direct dependency is unused only when no reachable runtime, type, script, config, binary, plugin, peer, optional, or bundled contract retains it.",
            ),
        )
    } else if same(issue_id, "ORP2002") {
        Some(
            (
                "Unlisted or misplaced dependency",
                "A reachable package reference has no declaration in its owning workspace, or is declared in a different workspace. Hoisting is not treated as ownership.",
            ),
        )
    } else if same(issue_id, "ORP3001") {
        Some(
            (
                "Unused workspace package",
                "A private workspace is reported only when no live workspace, script, configuration, framework, or public root retains it. Its unreachable contents remain separate file findings.",
            ),
        )
    } else {
        None
    }
}

/// What is told of an issue, or that it is not one.
pub open spec fn issue_text(issue_id: Seq<char>) -> Result<Seq<char>, Seq<char>> {
    match described(issue_id) {
        Some(found) => Ok(issue_id + "  "@ + found.0 + "\n\n"@ + found.1),
        None => Err("unknown issue identifier `"@ + issue_id + "`"@),
    }
}

/// Tells of an issue.
///
/// # Errors
///
/// Returns an error when there is no such issue.
pub fn explain_issue(issue_id: &str) -> (r: Result<String, String>)
    ensures
        match r {
            Ok(text) => issue_text(issue_id@) == Ok::<Seq<char>, Seq<char>>(text@),
            Err(message) => issue_text(issue_id@) == Err::<Seq<char>, Seq<char>>(message@),
        },
{
    match issue_description(issue_id) {
        Some(found) => Ok(concat5(issue_id, "  ", found.0, "\n\n", found.1)),
        None => Err(crate::text::concat3("unknown issue identifier `", issue_id, "`")),
    }
}

/// What is known of something that was asked about.
#[derive(Debug, Clone, Copy, PartialEq, Eq, Structural)]
pub enum ExplanationStatus {
    Retained,
    Reported,
    Incomplete,
    NotFound,
}

impl DeepView for ExplanationStatus {
    type V = ExplanationStatus;

    open spec fn deep_view(&self) -> ExplanationStatus {
        *self
    }
}

impl Value for ExplanationStatus {
    fn replicate(&self) -> (r: Self) {
        *self
    }

    fn same_value(&self, other: &Self) -> (r: bool) {
        *self == *other
    }
}

/// What is known of something that was asked about, and why.
#[derive(Debug, PartialEq, Eq)]
pub struct Explanation {
    pub status: ExplanationStatus,
    pub summary: String,
    /// The steps that lead there.
    pub steps: Vec<String>,
}

/// What a [`Explanation`] holds.
pub struct ExplanationModel {
    pub status: ExplanationStatus,
    pub summary: Seq<char>,
    pub steps: Seq<Seq<char>>,
}

impl DeepView for Explanation {
    type V = ExplanationModel;

    open spec fn deep_view(&self) -> ExplanationModel {
        ExplanationModel {
            status: self.status.deep_view(),
            summary: self.summary.deep_view(),
            steps: self.steps.deep_view(),
        }
    }
}

impl ExplanationStatus {
    /// The exit code of a question with this answer.
    #[must_use]
    pub fn exit_code(self) -> (r: u8)
        ensures
            r == match self {
                ExplanationStatus::Incomplete => 2u8,
                ExplanationStatus::NotFound => 1u8,
                ExplanationStatus::Retained => 0u8,
                ExplanationStatus::Reported => 0u8,
            },
    {
        match self {
            ExplanationStatus::Incomplete => 2,
            ExplanationStatus::NotFound => 1,
            ExplanationStatus::Retained => 0,
            ExplanationStatus::Reported => 0,
        }
    }
}

/// A text with the first `count` steps of an explanation.
pub open spec fn step_lines(steps: Seq<Seq<char>>, count: nat, start: Seq<char>) -> Seq<char>
    decreases count,
{
    if count == 0 {
        start
    } else {
        step_lines(steps, (count - 1) as nat, start) + if count == steps.len() {
            "└─"@
        } else {
            "├─"@
        } + " "@ + safe(steps[count - 1], "No evidence provided"@) + "\n"@
    }
}

/// What is told of something that was asked about.
pub open spec fn explanation_text(explanation: ExplanationModel) -> Seq<char> {
    step_lines(
        explanation.steps,
        explanation.steps.len(),
        "ORPHANODE  WHY\n\n"@ + safe(explanation.summary, "No explanation available"@) + "\n"@,
    )
}

/// Tells of something that was asked about.
#[must_use]
pub fn render_explanation(explanation: &Explanation) -> (r: String)
    ensures
        r@ == explanation_text(explanation.deep_view()),
{
    let ghost steps = explanation.steps.deep_view();
    let mut out: String = "ORPHANODE  WHY\n\n".to_string();
    out.append(&safe_text(&explanation.summary, "No explanation available"));
    out.append("\n");
    let ghost start = out@;
    let mut i: usize = 0;
    while i < explanation.steps.len()
        invariant
            i <= explanation.steps.len(),
            steps == explanation.steps.deep_view(),
            out@ == step_lines(steps, i as nat, start),
        decreases explanation.steps.len() - i,
    {
        assert(steps[i as int] == explanation.steps@[i as int].deep_view());
        let number: usize = i + 1;
        if number == explanation.steps.len() {
            out.append("└─");
        } else {
            out.append("├─");
        }
        out.append(" ");
        out.append(&safe_text(&explanation.steps[i], "No evidence provided"));
        out.append("\n");
        i = i + 1;
    }
    out
}

/// What the shape of a path that holds the cache calls for.
#[derive(Debug, Clone, Copy, PartialEq, Eq, Structural)]
pub enum CacheTarget {
    FileOrLink,
    Directory,
    Other,
    Missing,
}

/// What is done to clean the cache.
#[derive(Debug, Clone, Copy, PartialEq, Eq, Structural)]
pub enum CleanAction {
    RemoveFile,
    RemoveDirectory,
    Nothing,
    Refuse,
}

/// What is done to clean the cache: only a file, a link or a directory is removed.
#[must_use]
pub fn clean_action(target: CacheTarget) -> (r: CleanAction)
    ensures
        r == match target {
            CacheTarget::FileOrLink => CleanAction::RemoveFile,
            CacheTarget::Directory => CleanAction::RemoveDirectory,
            CacheTarget::Missing => CleanAction::Nothing,
            CacheTarget::Other => CleanAction::Refuse,
        },
{
    match target {
        CacheTarget::FileOrLink => CleanAction::RemoveFile,
        CacheTarget::Directory => CleanAction::RemoveDirectory,
        CacheTarget::Missing => CleanAction::Nothing,
        CacheTarget::Other => CleanAction::Refuse,
    }
}

} // verus!
