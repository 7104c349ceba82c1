//! What is told of how long a scan took.

use crate::application::metrics::{ProjectScanMetrics, ProjectStageMetrics};
use crate::domain::facts::{AnalysisDiagnostic, AnalysisDiagnosticModel, DiagnosticSeverity};
use crate::domain::report::{ScanReport, ScanReportModel};
use crate::render::{safe, safe_text};
use crate::text::{chars_of, decimal, digits};
use crate::values::{push_item, Value};
use vstd::prelude::*;

verus! {

/// A stage of a scan: what it took, in nanoseconds, and how many things it went through.
#[derive(Debug, PartialEq, Eq)]
pub struct StageTelemetry {
    pub name: String,
    pub duration: u128,
    pub count: usize,
}

/// What a [`StageTelemetry`] holds.
pub struct StageTelemetryModel {
    pub name: Seq<char>,
    pub duration: u128,
    pub count: usize,
}

impl DeepView for StageTelemetry {
    type V = StageTelemetryModel;

    open spec fn deep_view(&self) -> StageTelemetryModel {
        StageTelemetryModel {
            name: self.name.deep_view(),
            duration: self.duration.deep_view(),
            count: self.count.deep_view(),
        }
    }
}

impl Value for StageTelemetry {
    fn replicate(&self) -> (r: Self) {
        StageTelemetry {
            name: self.name.replicate(),
            duration: self.duration.replicate(),
            count: self.count.replicate(),
        }
    }

    fn same_value(&self, other: &Self) -> (r: bool) {
        self.name.same_value(&other.name)
            && self.duration.same_value(&other.duration)
            && self.count.same_value(&other.count)
    }
}

/// What is told of how long a scan took.
#[derive(Debug, PartialEq, Eq)]
pub struct ScanTelemetry {
    pub stages: Vec<StageTelemetry>,
    /// Hits, misses and written generations.
    pub cache: Option<(usize, usize, usize)>,
    pub effective_configuration: Option<String>,
}

/// What a [`ScanTelemetry`] holds.
pub struct ScanTelemetryModel {
    pub stages: Seq<StageTelemetryModel>,
    pub cache: Option<(usize, usize, usize)>,
    pub effective_configuration: Option<Seq<char>>,
}

impl DeepView for ScanTelemetry {
    type V = ScanTelemetryModel;

    open spec fn deep_view(&self) -> ScanTelemetryModel {
        ScanTelemetryModel {
            stages: self.stages.deep_view(),
            cache: self.cache.deep_view(),
            effective_configuration: self.effective_configuration.deep_view(),
        }
    }
}

impl ScanTelemetry {
    /// Nothing to tell.
    #[must_use]
    pub fn new() -> (r: ScanTelemetry)
        ensures
            r.deep_view() == (ScanTelemetryModel {
                stages: Seq::empty(),
                cache: None,
                effective_configuration: None,
            }),
    {
        let telemetry = ScanTelemetry {
            stages: Vec::new(),
            cache: None,
            effective_configuration: None,
        };
        assert(telemetry.stages.deep_view() =~= Seq::empty());
        telemetry
    }

    /// Notes a stage.
    pub fn push(&mut self, name: &str, duration: u128, count: usize)
        ensures
            final(self).deep_view() == (ScanTelemetryModel {
                stages: old(self).deep_view().stages.push(
                    StageTelemetryModel { name: name@, duration, count },
                ),
                ..old(self).deep_view()
            }),
    {
        push_item(&mut self.stages, StageTelemetry { name: name.to_string(), duration, count });
    }

    fn push_project_stage(&mut self, name: &str, stage: ProjectStageMetrics)
        ensures
            final(self).deep_view() == (ScanTelemetryModel {
                stages: old(self).deep_view().stages.push(named_stage(name@, stage)),
                ..old(self).deep_view()
            }),
    {
        self.push(name, stage.duration, stage.count);
    }

    /// Notes the stages of the analysis of a project.
    pub fn extend_project_metrics(&mut self, metrics: &ProjectScanMetrics)
        ensures
            final(self).deep_view() == (ScanTelemetryModel {
                stages: old(self).deep_view().stages + project_stages(*metrics),
                cache: Some(cache_numbers(*metrics)),
                ..old(self).deep_view()
            }),
    {
        let ghost start = self.deep_view().stages;
        self.push_project_stage("workspace_discovery", metrics.workspace_discovery);
        self.push_project_stage("configuration_loading", metrics.configuration_loading);
        self.push_project_stage("file_discovery", metrics.file_discovery);
        self.push_project_stage("plugin_discovery", metrics.plugin_discovery);
        self.push_project_stage("fact_loading", metrics.fact_loading);
        self.push_project_stage("module_resolution_graph", metrics.module_resolution_graph);
        self.push_project_stage("reachability_rules_report", metrics.reachability_rules_report);
        self.push_project_stage("cache_persistence", metrics.cache_persistence);
        self.push_project_stage("deep_analysis", metrics.deep_analysis);
        self.push_project_stage("profile_analysis", metrics.profile_analysis);
        self.push_project_stage("policy", metrics.policy);
        assert(self.deep_view().stages =~= start + project_stages(*metrics));
        self.cache = Some(
            (metrics.cache.hits, metrics.cache.misses, metrics.cache.generation_writes),
        );
    }

    /// Notes the stages of the analysis of a project after fixes.
    pub fn extend_revalidation_metrics(&mut self, metrics: &ProjectScanMetrics)
        ensures
            final(self).deep_view() == (ScanTelemetryModel {
                stages: old(self).deep_view().stages + revalidation_stages(*metrics),
                cache: Some(cache_numbers(*metrics)),
                ..old(self).deep_view()
            }),
    {
        let ghost start = self.deep_view().stages;
        self.push_project_stage("revalidation_workspace_discovery", metrics.workspace_discovery);
        self.push_project_stage("revalidation_configuration_loading", metrics.configuration_loading);
        self.push_project_stage("revalidation_file_discovery", metrics.file_discovery);
        self.push_project_stage("revalidation_plugin_discovery", metrics.plugin_discovery);
        self.push_project_stage("revalidation_fact_loading", metrics.fact_loading);
        self.push_project_stage("revalidation_module_resolution_graph", metrics.module_resolution_graph);
        self.push_project_stage("revalidation_reachability_rules_report", metrics.reachability_rules_report);
        self.push_project_stage("revalidation_cache_persistence", metrics.cache_persistence);
        self.push_project_stage("revalidation_deep_analysis", metrics.deep_analysis);
        self.push_project_stage("revalidation_profile_analysis", metrics.profile_analysis);
        self.push_project_stage("revalidation_policy", metrics.policy);
        assert(self.deep_view().stages =~= start + revalidation_stages(*metrics));
        self.cache = Some(
            (metrics.cache.hits, metrics.cache.misses, metrics.cache.generation_writes),
        );
    }
}

/// A stage under a name.
pub open spec fn named_stage(name: Seq<char>, stage: ProjectStageMetrics) -> StageTelemetryModel {
    StageTelemetryModel { name, duration: stage.duration, count: stage.count }
}

/// The stages of the analysis of a project.
pub open spec fn project_stages(metrics: ProjectScanMetrics) -> Seq<StageTelemetryModel> {
    seq![
        named_stage("workspace_discovery"@, metrics.workspace_discovery),
        named_stage("configuration_loading"@, metrics.configuration_loading),
        named_stage("file_discovery"@, metrics.file_discovery),
        named_stage("plugin_discovery"@, metrics.plugin_discovery),
        named_stage("fact_loading"@, metrics.fact_loading),
        named_stage("module_resolution_graph"@, metrics.module_resolution_graph),
        named_stage("reachability_rules_report"@, metrics.reachability_rules_report),
        named_stage("cache_persistence"@, metrics.cache_persistence),
        named_stage("deep_analysis"@, metrics.deep_analysis),
        named_stage("profile_analysis"@, metrics.profile_analysis),
        named_stage("policy"@, metrics.policy),
    ]
}

/// The stages of the analysis of a project after fixes.
pub open spec fn revalidation_stages(metrics: ProjectScanMetrics) -> Seq<StageTelemetryModel> {
    seq![
        named_stage("revalidation_workspace_discovery"@, metrics.workspace_discovery),
        named_stage("revalidation_configuration_loading"@, metrics.configuration_loading),
        named_stage("revalidation_file_discovery"@, metrics.file_discovery),
        named_stage("revalidation_plugin_discovery"@, metrics.plugin_discovery),
        named_stage("revalidation_fact_loading"@, metrics.fact_loading),
        named_stage("revalidation_module_resolution_graph"@, metrics.module_resolution_graph),
        named_stage("revalidation_reachability_rules_report"@, metrics.reachability_rules_report),
        named_stage("revalidation_cache_persistence"@, metrics.cache_persistence),
        named_stage("revalidation_deep_analysis"@, metrics.deep_analysis),
        named_stage("revalidation_profile_analysis"@, metrics.profile_analysis),
        named_stage("revalidation_policy"@, metrics.policy),
    ]
}

/// Hits, misses and written generations.
pub open spec fn cache_numbers(metrics: ProjectScanMetrics) -> (usize, usize, usize) {
    (metrics.cache.hits, metrics.cache.misses, metrics.cache.generation_writes)
}

/// Milliseconds, in whole ones.
pub open spec fn milliseconds(nanoseconds: u128) -> nat {
    (nanoseconds / 1_000_000) as nat
}

fn write_milliseconds(nanoseconds: u128) -> (r: String)
    ensures
        r@ == digits(milliseconds(nanoseconds)),
{
    decimal_wide(nanoseconds / 1_000_000)
}

fn decimal_wide(n: u128) -> (r: String)
    ensures
        r@ == digits(n as nat),
    decreases n,
{
    if n < 10 {
        decimal(n as u64)
    } else {
        let mut out: String = decimal_wide(n / 10);
        let last: String = decimal((n % 10) as u64);
        out.append(&last);
        assert(out@ =~= digits(n as nat));
        out
    }
}

/// `count` spaces.
pub open spec fn spaces(count: nat) -> Seq<char> {
    Seq::new(count, |i: int| ' ')
}

/// A text with spaces behind it, up to a width.
pub open spec fn padded(text: Seq<char>, width: nat) -> Seq<char> {
    if text.len() < width {
        text + spaces((width - text.len()) as nat)
    } else {
        text
    }
}

fn pad(text: &str, width: usize) -> (r: String)
    ensures
        r@ == padded(text@, width as nat),
{
    let mut out: String = text.to_string();
    let mut i: usize = chars_of(text).len();
    assert(out@ =~= text@ + spaces(0));
    while i < width
        invariant
            text@.len() <= i,
            i <= width || i == text@.len(),
            out@ == text@ + spaces((i - text@.len()) as nat),
        decreases width - i,
    {
        out.append(" ");
        i = i + 1;
        proof {
            reveal_strlit(" ");
        }
        assert(out@ =~= text@ + spaces((i - text@.len()) as nat));
    }
    assert(text@ + spaces(0) =~= text@);
    out
}

/// A text with what stages took, for people.
pub open spec fn human_stages(items: Seq<StageTelemetryModel>, start: Seq<char>) -> Seq<char>
    decreases items.len(),
{
    if items.len() == 0 {
        start
    } else {
        let rest = human_stages(items.drop_last(), start);
        let last = items.last();
        rest + "  "@ + padded(last.name, 24) + " "@ + digits(milliseconds(last.duration)) + " ms\n"@
    }
}

fn write_human_stages(
    items: &Vec<StageTelemetry>,
    out: &mut String,
)
    ensures
        final(out)@ == human_stages(items.deep_view(), old(out)@),
{
    let ghost start = out@;
    let ghost model = items.deep_view();
    let mut i: usize = 0;
    while i < items.len()
        invariant
            i <= items.len(),
            model == items.deep_view(),
            out@ == human_stages(model.take(i as int), start),
        decreases items.len() - i,
    {
        proof {
            assert(model.take(i + 1).drop_last() =~= model.take(i as int));
            assert(model.take(i + 1).last() == items@[i as int].deep_view());
        }
        let item: &StageTelemetry = &items[i];
        out.append("  ");
        out.append(&pad(&item.name, 24));
        out.append(" ");
        out.append(&write_milliseconds(item.duration));
        out.append(" ms\n");
        i = i + 1;
    }
    assert(model.take(i as int) =~= model);
}

/// A text with what a scan took, for people.
pub open spec fn human_timings(
    start: Seq<char>,
    telemetry: ScanTelemetryModel,
    total: u128,
) -> Seq<char> {
    human_stages(telemetry.stages, start + "\nTIMINGS\n"@) + "  "@ + padded("total"@, 24) + " "@
        + digits(milliseconds(total)) + " ms\n"@
}

/// Writes what a scan took, for people.
pub fn append_human_timings(output: &mut String, telemetry: &ScanTelemetry, total: u128)
    ensures
        final(output)@ == human_timings(old(output)@, telemetry.deep_view(), total),
{
    output.append("\nTIMINGS\n");
    write_human_stages(&telemetry.stages, output);
    output.append("  ");
    output.append(&pad("total", 24));
    output.append(" ");
    output.append(&write_milliseconds(total));
    output.append(" ms\n");
}

/// A text with what stages took, for programs.
pub open spec fn machine_stages(items: Seq<StageTelemetryModel>, start: Seq<char>) -> Seq<char>
    decreases items.len(),
{
    if items.len() == 0 {
        start
    } else {
        let rest = machine_stages(items.drop_last(), start);
        let last = items.last();
        rest + "orphanode: timings: "@ + last.name + " "@ + digits(milliseconds(last.duration)) + " ms\n"@
    }
}

fn write_machine_stages(
    items: &Vec<StageTelemetry>,
    out: &mut String,
)
    ensures
        final(out)@ == machine_stages(items.deep_view(), old(out)@),
{
    let ghost start = out@;
    let ghost model = items.deep_view();
    let mut i: usize = 0;
    while i < items.len()
        invariant
            i <= items.len(),
            model == items.deep_view(),
            out@ == machine_stages(model.take(i as int), start),
        decreases items.len() - i,
    {
        proof {
            assert(model.take(i + 1).drop_last() =~= model.take(i as int));
            assert(model.take(i + 1).last() == items@[i as int].deep_view());
        }
        let item: &StageTelemetry = &items[i];
        out.append("orphanode: timings: ");
        out.append(&item.name);
        out.append(" ");
        out.append(&write_milliseconds(item.duration));
        out.append(" ms\n");
        i = i + 1;
    }
    assert(model.take(i as int) =~= model);
}

/// What a scan took, for programs.
#[must_use]
pub fn machine_timings(telemetry: &ScanTelemetry, total: u128) -> (r: String)
    ensures
        r@ == machine_stages(telemetry.deep_view().stages, ""@) + "orphanode: timings: total "@
            + digits(milliseconds(total)) + " ms\n"@,
{
    let mut out: String = "".to_string();
    write_machine_stages(&telemetry.stages, &mut out);
    out.append("orphanode: timings: total ");
    out.append(&write_milliseconds(total));
    out.append(" ms\n");
    out
}

/// A text with what stages took and went through.
pub open spec fn debug_stages(items: Seq<StageTelemetryModel>, start: Seq<char>) -> Seq<char>
    decreases items.len(),
{
    if items.len() == 0 {
        start
    } else {
        let rest = debug_stages(items.drop_last(), start);
        let last = items.last();
        rest + "orphanode: debug: stage="@ + last.name + " elapsed_ms="@ + digits(milliseconds(last.duration)) + " count="@ + digits(last.count as nat) + "\n"@
    }
}

fn write_debug_stages(
    items: &Vec<StageTelemetry>,
    out: &mut String,
)
    ensures
        final(out)@ == debug_stages(items.deep_view(), old(out)@),
{
    let ghost start = out@;
    let ghost model = items.deep_view();
    let mut i: usize = 0;
    while i < items.len()
        invariant
            i <= items.len(),
            model == items.deep_view(),
            out@ == debug_stages(model.take(i as int), start),
        decreases items.len() - i,
    {
        proof {
            assert(model.take(i + 1).drop_last() =~= model.take(i as int));
            assert(model.take(i + 1).last() == items@[i as int].deep_view());
        }
        let item: &StageTelemetry = &items[i];
        out.append("orphanode: debug: stage=");
        out.append(&item.name);
        out.append(" elapsed_ms=");
        out.append(&write_milliseconds(item.duration));
        out.append(" count=");
        out.append(&decimal(item.count as u64));
        out.append("\n");
        i = i + 1;
    }
    assert(model.take(i as int) =~= model);
}

/// The name of a severity.
pub open spec fn severity_word(value: DiagnosticSeverity) -> Seq<char> {
    match value {
        DiagnosticSeverity::Error => "Error"@,
        DiagnosticSeverity::Warning => "Warning"@,
    }
}

/// The name of a severity.
#[must_use]
fn word_of_severity(value: DiagnosticSeverity) -> (r: &'static str)
    ensures
        r@ == severity_word(value),
{
    match value {
        DiagnosticSeverity::Error => "Error",
        DiagnosticSeverity::Warning => "Warning",
    }
}

/// The word for a truth value.
pub open spec fn truth(value: bool) -> Seq<char> {
    if value {
        "true"@
    } else {
        "false"@
    }
}

fn word_of_truth(value: bool) -> (r: &'static str)
    ensures
        r@ == truth(value),
{
    if value {
        "true"
    } else {
        "false"
    }
}

/// A text with diagnostics.
pub open spec fn debug_diagnostics(
    items: Seq<AnalysisDiagnosticModel>,
    start: Seq<char>,
) -> Seq<char>
    decreases items.len(),
{
    if items.len() == 0 {
        start
    } else {
        let rest = debug_diagnostics(items.drop_last(), start);
        let last = items.last();
        rest + "orphanode: debug: diagnostic code="@ + safe(last.code, "<invalid code>"@) + " path="@ + safe(last.path, "<invalid path>"@) + " severity="@ + severity_word(last.severity) + " blocks_reachability="@ + truth(last.blocks_reachability) + " message="@ + safe(last.message, "<invalid message>"@) + "\n"@
    }
}

fn write_debug_diagnostics(
    items: &Vec<AnalysisDiagnostic>,
    out: &mut String,
)
    ensures
        final(out)@ == debug_diagnostics(items.deep_view(), old(out)@),
{
    let ghost start = out@;
    let ghost model = items.deep_view();
    let mut i: usize = 0;
    while i < items.len()
        invariant
            i <= items.len(),
            model == items.deep_view(),
            out@ == debug_diagnostics(model.take(i as int), start),
        decreases items.len() - i,
    {
        proof {
            assert(model.take(i + 1).drop_last() =~= model.take(i as int));
            assert(model.take(i + 1).last() == items@[i as int].deep_view());
        }
        let item: &AnalysisDiagnostic = &items[i];
        out.append("orphanode: debug: diagnostic code=");
        out.append(&safe_text(&item.code, "<invalid code>"));
        out.append(" path=");
        out.append(&safe_text(&item.path, "<invalid path>"));
        out.append(" severity=");
        out.append(word_of_severity(item.severity));
        out.append(" blocks_reachability=");
        out.append(word_of_truth(item.blocks_reachability));
        out.append(" message=");
        out.append(&safe_text(&item.message, "<invalid message>"));
        out.append("\n");
        i = i + 1;
    }
    assert(model.take(i as int) =~= model);
}

/// What is told of a scan to those who look for faults in it.
pub open spec fn debug_text(
    telemetry: ScanTelemetryModel,
    report: ScanReportModel,
    total: u128,
) -> Seq<char> {
    let staged = debug_stages(telemetry.stages, ""@)
        + "orphanode: debug: stage=total elapsed_ms="@ + digits(milliseconds(total)) + " count="@
        + digits(report.summary.files as nat) + "\n"@;
    let cached = match telemetry.cache {
        Some(cache) => staged + "orphanode: debug: cache hits="@ + digits(cache.0 as nat)
            + " misses="@ + digits(cache.1 as nat) + " generation_writes="@ + digits(cache.2 as nat)
            + "\n"@,
        None => staged + "orphanode: debug: cache unavailable\n"@,
    };
    let configured = match telemetry.effective_configuration {
        Some(configuration) => cached + "orphanode: debug: effective_configuration="@
            + configuration + "\n"@,
        None => cached,
    };
    debug_diagnostics(
        report.diagnostics,
        configured + "orphanode: debug: report files="@ + digits(report.summary.files as nat) + " reachable="@ + digits(report.summary.reachable_files as nat) + " unreachable="@ + digits(report.summary.unreachable_files as nat) + " incomplete="@ + digits(report.summary.incomplete_files as nat) + " findings="@ + digits(report.findings.len() as nat) + " diagnostics="@ + digits(report.diagnostics.len() as nat) + "\n"@,
    )
}

/// Tells of a scan to those who look for faults in it.
#[must_use]
pub fn debug_telemetry(telemetry: &ScanTelemetry, report: &ScanReport, total: u128) -> (r: String)
    ensures
        r@ == debug_text(telemetry.deep_view(), report.deep_view(), total),
{
    let mut out: String = "".to_string();
    write_debug_stages(&telemetry.stages, &mut out);
    out.append("orphanode: debug: stage=total elapsed_ms=");
    out.append(&write_milliseconds(total));
    out.append(" count=");
    out.append(&decimal(report.summary.files as u64));
    out.append("\n");
    match &telemetry.cache {
        Some(cache) => {
            out.append("orphanode: debug: cache hits=");
            out.append(&decimal(cache.0 as u64));
            out.append(" misses=");
            out.append(&decimal(cache.1 as u64));
            out.append(" generation_writes=");
            out.append(&decimal(cache.2 as u64));
            out.append("\n");
        },
        None => {
            out.append("orphanode: debug: cache unavailable\n");
        },
    }
    match &telemetry.effective_configuration {
        Some(configuration) => {
            out.append("orphanode: debug: effective_configuration=");
            out.append(configuration);
            out.append("\n");
        },
        None => {},
    }
    out.append("orphanode: debug: report files=");
    out.append(&decimal(report.summary.files as u64));
    out.append(" reachable=");
    out.append(&decimal(report.summary.reachable_files as u64));
    out.append(" unreachable=");
    out.append(&decimal(report.summary.unreachable_files as u64));
    out.append(" incomplete=");
    out.append(&decimal(report.summary.incomplete_files as u64));
    out.append(" findings=");
    out.append(&decimal(report.findings.len() as u64));
    out.append(" diagnostics=");
    out.append(&decimal(report.diagnostics.len() as u64));
    out.append("\n");
    write_debug_diagnostics(&report.diagnostics, &mut out);
    out
}

} // verus!
