//! Diagnostics on scripts, plugins and configurations.

use crate::discovery::scripts::{
    MissingScriptReference, MissingScriptReferenceModel, ScriptAnalysis, ScriptAnalysisModel,
    UnmodeledScriptSpan, UnmodeledScriptSpanModel,
};
use crate::discovery::tokenizer::UnmodeledScriptKind;
use crate::discovery::workspace::{PatternRule, PatternRuleModel};
use crate::domain::facts::{AnalysisDiagnostic, AnalysisDiagnosticModel, DiagnosticSeverity};
use crate::paths::{path_below, FilePath, PathPartModel};
use crate::plugins::contract::{
    DetectedBuiltinPlugin, DetectedBuiltinPluginModel, DetectionEvidenceKind, PluginDiagnostic,
    PluginDiagnosticModel, PluginDiagnosticSeverity, UnsupportedCase, UnsupportedCaseModel,
};
use crate::text::{concat3, concat4, concat5, decimal, digits, same};
use crate::values::{push_item, Value};
use vstd::prelude::*;

verus! {

/// A path in a package, as seen from the project.
pub open spec fn path_in(workspace: Seq<char>, relative: Seq<char>) -> Seq<char> {
    if workspace == "."@ {
        relative
    } else {
        workspace + "/"@ + relative
    }
}

/// A path in a package, as seen from the project.
#[must_use]
pub fn workspace_path(workspace: &str, relative: &str) -> (r: String)
    ensures
        r@ == path_in(workspace@, relative@),
{
    if same(workspace, ".") {
        relative.to_string()
    } else {
        concat3(workspace, "/", relative)
    }
}

/// The manifest of a package.
#[must_use]
pub fn workspace_manifest_path(workspace: &str) -> (r: String)
    ensures
        r@ == path_in(workspace@, "package.json"@),
{
    workspace_path(workspace, "package.json")
}

/// A diagnostic without a place in its file.
pub open spec fn placeless(
    code: Seq<char>,
    path: Seq<char>,
    severity: DiagnosticSeverity,
    message: Seq<char>,
    blocks_reachability: bool,
) -> AnalysisDiagnosticModel {
    AnalysisDiagnosticModel { code, path, severity, span: None, message, blocks_reachability }
}

fn placeless_diagnostic(
    code: &str,
    path: String,
    severity: DiagnosticSeverity,
    message: String,
    blocks_reachability: bool,
) -> (r: AnalysisDiagnostic)
    ensures
        r.deep_view() == placeless(code@, path@, severity, message@, blocks_reachability),
{
    AnalysisDiagnostic {
        code: code.to_string(),
        path,
        severity,
        span: None,
        message,
        blocks_reachability,
    }
}

/// What a part of a script that is not understood is called.
pub open spec fn unmodeled_text(value: UnmodeledScriptKind) -> Seq<char> {
    match value {
        UnmodeledScriptKind::DanglingEscape => "DanglingEscape"@,
        UnmodeledScriptKind::GlobExpansion => "GlobExpansion"@,
        UnmodeledScriptKind::InlineCode => "InlineCode"@,
        UnmodeledScriptKind::Redirection => "Redirection"@,
        UnmodeledScriptKind::ShellExpansion => "ShellExpansion"@,
        UnmodeledScriptKind::UnsupportedShellSyntax => "UnsupportedShellSyntax"@,
        UnmodeledScriptKind::UnsupportedShellWrapper => "UnsupportedShellWrapper"@,
        UnmodeledScriptKind::UnterminatedDoubleQuote => "UnterminatedDoubleQuote"@,
        UnmodeledScriptKind::UnterminatedSingleQuote => "UnterminatedSingleQuote"@,
    }
}

/// What a part of a script that is not understood is called.
#[must_use]
pub fn text_of_unmodeled(value: UnmodeledScriptKind) -> (r: &'static str)
    ensures
        r@ == unmodeled_text(value),
{
    match value {
        UnmodeledScriptKind::DanglingEscape => "DanglingEscape",
        UnmodeledScriptKind::GlobExpansion => "GlobExpansion",
        UnmodeledScriptKind::InlineCode => "InlineCode",
        UnmodeledScriptKind::Redirection => "Redirection",
        UnmodeledScriptKind::ShellExpansion => "ShellExpansion",
        UnmodeledScriptKind::UnsupportedShellSyntax => "UnsupportedShellSyntax",
        UnmodeledScriptKind::UnsupportedShellWrapper => "UnsupportedShellWrapper",
        UnmodeledScriptKind::UnterminatedDoubleQuote => "UnterminatedDoubleQuote",
        UnmodeledScriptKind::UnterminatedSingleQuote => "UnterminatedSingleQuote",
    }
}

/// Whether a part of a script that is not understood could run anything.
pub open spec fn could_run_anything(kind: UnmodeledScriptKind) -> bool {
    match kind {
        UnmodeledScriptKind::ShellExpansion => true,
        UnmodeledScriptKind::GlobExpansion => true,
        UnmodeledScriptKind::UnsupportedShellSyntax => true,
        UnmodeledScriptKind::UnsupportedShellWrapper => true,
        _ => false,
    }
}

fn runs_anything(kind: UnmodeledScriptKind) -> (r: bool)
    ensures
        r == could_run_anything(kind),
{
    match kind {
        UnmodeledScriptKind::ShellExpansion => true,
        UnmodeledScriptKind::GlobExpansion => true,
        UnmodeledScriptKind::UnsupportedShellSyntax => true,
        UnmodeledScriptKind::UnsupportedShellWrapper => true,
        _ => false,
    }
}

/// That a part of a script is not understood.
pub open spec fn unmodeled_message(unmodeled: UnmodeledScriptSpanModel) -> Seq<char> {
    "scripts."@ + unmodeled.script + " contains an unmodeled "@ + unmodeled_text(unmodeled.kind)
        + (" span at bytes "@ + digits(unmodeled.span.start as nat) + ".."@ + digits(
        unmodeled.span.end as nat,
    ))
}

fn unmodeled_span_text(unmodeled: &UnmodeledScriptSpan) -> (r: String)
    ensures
        r@ == unmodeled_message(unmodeled.deep_view()),
{
    let place: String = concat4(
        " span at bytes ",
        &decimal(unmodeled.span.start as u64),
        "..",
        &decimal(unmodeled.span.end as u64),
    );
    concat5(
        "scripts.",
        &unmodeled.script,
        " contains an unmodeled ",
        text_of_unmodeled(unmodeled.kind),
        &place,
    )
}

/// Diagnostics with the parts of scripts that are not understood.
pub open spec fn with_unmodeled(
    items: Seq<UnmodeledScriptSpanModel>,
    start: Seq<AnalysisDiagnosticModel>,
    workspace: Seq<char>,
) -> Seq<AnalysisDiagnosticModel>
    decreases items.len(),
{
    if items.len() == 0 {
        start
    } else {
        let rest = with_unmodeled(items.drop_last(), start, workspace);
        let last = items.last();
        rest.push(
            placeless(
                "unmodeled_package_script"@,
                path_in(workspace, "package.json"@),
                DiagnosticSeverity::Warning,
                unmodeled_message(last),
                could_run_anything(last.kind),
            ),
        )
    }
}

fn add_unmodeled(
    items: &Vec<UnmodeledScriptSpan>,
    workspace: &str,
    out: &mut Vec<AnalysisDiagnostic>,
)
    ensures
        final(out).deep_view() == with_unmodeled(items.deep_view(), old(out).deep_view(), workspace@),
{
    let ghost start = out.deep_view();
    let ghost model = items.deep_view();
    let mut i: usize = 0;
    while i < items.len()
        invariant
            i <= items.len(),
            model == items.deep_view(),
            out.deep_view() =~= with_unmodeled(model.take(i as int), start, workspace@),
        decreases items.len() - i,
    {
        proof {
            assert(model.take(i + 1).drop_last() =~= model.take(i as int));
            assert(model.take(i + 1).last() == items@[i as int].deep_view());
        }
        let item: &UnmodeledScriptSpan = &items[i];
        push_item(
            out,
            placeless_diagnostic(
                "unmodeled_package_script",
                workspace_manifest_path(workspace),
                DiagnosticSeverity::Warning,
                unmodeled_span_text(item),
                runs_anything(item.kind),
            ),
        );
        i = i + 1;
    }
    assert(model.take(i as int) =~= model);
}

/// Diagnostics with the scripts that are run and do not exist. They name no file, so they
/// block nothing.
pub open spec fn with_missing(
    items: Seq<MissingScriptReferenceModel>,
    start: Seq<AnalysisDiagnosticModel>,
    workspace: Seq<char>,
) -> Seq<AnalysisDiagnosticModel>
    decreases items.len(),
{
    if items.len() == 0 {
        start
    } else {
        let rest = with_missing(items.drop_last(), start, workspace);
        let last = items.last();
        rest.push(
            placeless(
                "missing_package_script"@,
                path_in(workspace, "package.json"@),
                DiagnosticSeverity::Warning,
                "scripts."@ + last.caller + " invokes missing script "@ + last.callee,
                false,
            ),
        )
    }
}

fn add_missing(
    items: &Vec<MissingScriptReference>,
    workspace: &str,
    out: &mut Vec<AnalysisDiagnostic>,
)
    ensures
        final(out).deep_view() == with_missing(items.deep_view(), old(out).deep_view(), workspace@),
{
    let ghost start = out.deep_view();
    let ghost model = items.deep_view();
    let mut i: usize = 0;
    while i < items.len()
        invariant
            i <= items.len(),
            model == items.deep_view(),
            out.deep_view() =~= with_missing(model.take(i as int), start, workspace@),
        decreases items.len() - i,
    {
        proof {
            assert(model.take(i + 1).drop_last() =~= model.take(i as int));
            assert(model.take(i + 1).last() == items@[i as int].deep_view());
        }
        let item: &MissingScriptReference = &items[i];
        push_item(
            out,
            placeless_diagnostic(
                "missing_package_script",
                workspace_manifest_path(workspace),
                DiagnosticSeverity::Warning,
                concat4("scripts.", &item.caller, " invokes missing script ", &item.callee),
                false,
            ),
        );
        i = i + 1;
    }
    assert(model.take(i as int) =~= model);
}

/// Diagnostics with those on the scripts of a package.
pub open spec fn with_script_diagnostics(
    start: Seq<AnalysisDiagnosticModel>,
    workspace: Seq<char>,
    analysis: ScriptAnalysisModel,
) -> Seq<AnalysisDiagnosticModel> {
    with_missing(
        analysis.missing_scripts,
        with_unmodeled(analysis.unmodeled, start, workspace),
        workspace,
    )
}

/// Adds the diagnostics on the scripts of a package.
pub fn append_script_diagnostics(
    diagnostics: &mut Vec<AnalysisDiagnostic>,
    workspace: &str,
    analysis: &ScriptAnalysis,
)
    ensures
        final(diagnostics).deep_view() == with_script_diagnostics(
            old(diagnostics).deep_view(),
            workspace@,
            analysis.deep_view(),
        ),
{
    add_unmodeled(&analysis.unmodeled, workspace, diagnostics);
    add_missing(&analysis.missing_scripts, workspace, diagnostics);
}

/// How serious what a plugin says is.
pub open spec fn plugin_severity(severity: PluginDiagnosticSeverity) -> DiagnosticSeverity {
    match severity {
        PluginDiagnosticSeverity::Warning => DiagnosticSeverity::Warning,
        PluginDiagnosticSeverity::Error => DiagnosticSeverity::Error,
    }
}

fn severity_of(severity: PluginDiagnosticSeverity) -> (r: DiagnosticSeverity)
    ensures
        r == plugin_severity(severity),
{
    match severity {
        PluginDiagnosticSeverity::Warning => DiagnosticSeverity::Warning,
        PluginDiagnosticSeverity::Error => DiagnosticSeverity::Error,
    }
}

/// Diagnostics with those that a plugin contributes.
pub open spec fn with_reported(
    items: Seq<PluginDiagnosticModel>,
    start: Seq<AnalysisDiagnosticModel>,
    workspace: Seq<char>,
    name: Seq<char>,
) -> Seq<AnalysisDiagnosticModel>
    decreases items.len(),
{
    if items.len() == 0 {
        start
    } else {
        let rest = with_reported(items.drop_last(), start, workspace, name);
        let last = items.last();
        rest.push(
            placeless(
                last.code,
                match last.path {
                    Some(path) => path_in(workspace, path),
                    None => path_in(workspace, "package.json"@),
                },
                plugin_severity(last.severity),
                name + ": "@ + last.message,
                last.blocks_reachability,
            ),
        )
    }
}

fn add_reported(
    items: &Vec<PluginDiagnostic>,
    workspace: &str,
    name: &str,
    out: &mut Vec<AnalysisDiagnostic>,
)
    ensures
        final(out).deep_view() == with_reported(items.deep_view(), old(out).deep_view(), workspace@, name@),
{
    let ghost start = out.deep_view();
    let ghost model = items.deep_view();
    let mut i: usize = 0;
    while i < items.len()
        invariant
            i <= items.len(),
            model == items.deep_view(),
            out.deep_view() =~= with_reported(model.take(i as int), start, workspace@, name@),
        decreases items.len() - i,
    {
        proof {
            assert(model.take(i + 1).drop_last() =~= model.take(i as int));
            assert(model.take(i + 1).last() == items@[i as int].deep_view());
        }
        let item: &PluginDiagnostic = &items[i];
        push_item(
            out,
            placeless_diagnostic(
                &item.code,
                match &item.path {
                    Some(path) => workspace_path(workspace, path),
                    None => workspace_manifest_path(workspace),
                },
                severity_of(item.severity),
                concat3(name, ": ", &item.message),
                item.blocks_reachability,
            ),
        );
        i = i + 1;
    }
    assert(model.take(i as int) =~= model);
}

/// Diagnostics with what a plugin does not support.
pub open spec fn with_unsupported(
    items: Seq<UnsupportedCaseModel>,
    start: Seq<AnalysisDiagnosticModel>,
    workspace: Seq<char>,
    name: Seq<char>,
) -> Seq<AnalysisDiagnosticModel>
    decreases items.len(),
{
    if items.len() == 0 {
        start
    } else {
        let rest = with_unsupported(items.drop_last(), start, workspace, name);
        let last = items.last();
        rest.push(
            placeless(
                last.code,
                path_in(workspace, "package.json"@),
                DiagnosticSeverity::Warning,
                name + ": "@ + last.summary,
                last.blocks_reachability,
            ),
        )
    }
}

fn add_unsupported(
    items: &Vec<UnsupportedCase>,
    workspace: &str,
    name: &str,
    out: &mut Vec<AnalysisDiagnostic>,
)
    ensures
        final(out).deep_view() == with_unsupported(items.deep_view(), old(out).deep_view(), workspace@, name@),
{
    let ghost start = out.deep_view();
    let ghost model = items.deep_view();
    let mut i: usize = 0;
    while i < items.len()
        invariant
            i <= items.len(),
            model == items.deep_view(),
            out.deep_view() =~= with_unsupported(model.take(i as int), start, workspace@, name@),
        decreases items.len() - i,
    {
        proof {
            assert(model.take(i + 1).drop_last() =~= model.take(i as int));
            assert(model.take(i + 1).last() == items@[i as int].deep_view());
        }
        let item: &UnsupportedCase = &items[i];
        push_item(
            out,
            placeless_diagnostic(
                &item.code,
                workspace_manifest_path(workspace),
                DiagnosticSeverity::Warning,
                concat3(name, ": ", &item.summary),
                item.blocks_reachability,
            ),
        );
        i = i + 1;
    }
    assert(model.take(i as int) =~= model);
}

/// Whether a plugin never covers all that its tool does.
pub open spec fn has_intrinsic_gap(s: Seq<char>) -> bool {
    ||| s == "astro"@
    ||| s == "next"@
    ||| s == "nuxt"@
    ||| s == "storybook"@
    ||| s == "sveltekit"@
    ||| s == "vite"@
}

/// Whether a plugin never covers all that its tool does.
fn has_coverage_gap(s: &str) -> (r: bool)
    ensures
        r == has_intrinsic_gap(s@),
{
    same(s, "astro")
        || same(s, "next")
        || same(s, "nuxt")
        || same(s, "storybook")
        || same(s, "sveltekit")
        || same(s, "vite")
}

/// Whether something that a plugin does not support may be there: it was not found by
/// evidence, it never covers everything, or there is a configuration file.
pub open spec fn may_be_unsupported(detected: DetectedBuiltinPluginModel) -> bool {
    ||| detected.evidence.len() == 0
    ||| has_intrinsic_gap(detected.plugin.id)
    ||| detected.evidence.contains(DetectionEvidenceKind::ConfigFile)
}

fn is_maybe_unsupported(detected: &DetectedBuiltinPlugin) -> (r: bool)
    ensures
        r == may_be_unsupported(detected.deep_view()),
{
    if detected.evidence.len() == 0 || has_coverage_gap(&detected.plugin.id) {
        return true;
    }
    let evidence: &Vec<DetectionEvidenceKind> = &detected.evidence;
    let ghost model = detected.deep_view().evidence;
    let mut i: usize = 0;
    while i < evidence.len()
        invariant
            i <= evidence.len(),
            model == evidence.deep_view(),
            model == detected.deep_view().evidence,
            forall|k: int| 0 <= k < i ==> model[k] != DetectionEvidenceKind::ConfigFile,
        decreases evidence.len() - i,
    {
        assert(model[i as int] == evidence@[i as int]);
        if evidence[i] == DetectionEvidenceKind::ConfigFile {
            return true;
        }
        i = i + 1;
    }
    false
}

/// Diagnostics with those on the plugins of a package.
pub open spec fn with_plugin_diagnostics(
    items: Seq<DetectedBuiltinPluginModel>,
    start: Seq<AnalysisDiagnosticModel>,
    workspace: Seq<char>,
) -> Seq<AnalysisDiagnosticModel>
    decreases items.len(),
{
    if items.len() == 0 {
        start
    } else {
        let rest = with_plugin_diagnostics(items.drop_last(), start, workspace);
        let last = items.last();
        {
            let reported = with_reported(
                last.plugin.contributions.diagnostics,
                rest,
                workspace,
                last.plugin.display_name,
            );
            if may_be_unsupported(last) {
                with_unsupported(
                    last.plugin.unsupported_cases,
                    reported,
                    workspace,
                    last.plugin.display_name,
                )
            } else {
                reported
            }
        }
    }
}

fn add_plugin_diagnostics(
    items: &Vec<DetectedBuiltinPlugin>,
    workspace: &str,
    out: &mut Vec<AnalysisDiagnostic>,
)
    ensures
        final(out).deep_view() == with_plugin_diagnostics(items.deep_view(), old(out).deep_view(), workspace@),
{
    let ghost start = out.deep_view();
    let ghost model = items.deep_view();
    let mut i: usize = 0;
    while i < items.len()
        invariant
            i <= items.len(),
            model == items.deep_view(),
            out.deep_view() =~= with_plugin_diagnostics(model.take(i as int), start, workspace@),
        decreases items.len() - i,
    {
        proof {
            assert(model.take(i + 1).drop_last() =~= model.take(i as int));
            assert(model.take(i + 1).last() == items@[i as int].deep_view());
        }
        let item: &DetectedBuiltinPlugin = &items[i];
        add_reported(
            &item.plugin.contributions.diagnostics,
            workspace,
            &item.plugin.display_name,
            out,
        );
        if is_maybe_unsupported(item) {
            add_unsupported(
                &item.plugin.unsupported_cases,
                workspace,
                &item.plugin.display_name,
                out,
            );
        }
        i = i + 1;
    }
    assert(model.take(i as int) =~= model);
}

/// Adds the diagnostics on the plugins of a package.
pub fn append_plugin_diagnostics(
    diagnostics: &mut Vec<AnalysisDiagnostic>,
    workspace: &str,
    plugins: &Vec<DetectedBuiltinPlugin>,
)
    ensures
        final(diagnostics).deep_view() == with_plugin_diagnostics(
            plugins.deep_view(),
            old(diagnostics).deep_view(),
            workspace@,
        ),
{
    add_plugin_diagnostics(plugins, workspace, diagnostics);
}

/// The rules of a package that mean no file.
#[derive(Debug, PartialEq, Eq)]
pub struct StaleRules {
    pub retain: Vec<PatternRule>,
    pub ignore: Vec<PatternRule>,
}

/// What a [`StaleRules`] holds.
pub struct StaleRulesModel {
    pub retain: Seq<PatternRuleModel>,
    pub ignore: Seq<PatternRuleModel>,
}

impl DeepView for StaleRules {
    type V = StaleRulesModel;

    open spec fn deep_view(&self) -> StaleRulesModel {
        StaleRulesModel {
            retain: self.retain.deep_view(),
            ignore: self.ignore.deep_view(),
        }
    }
}

impl Value for StaleRules {
    fn replicate(&self) -> (r: Self) {
        StaleRules {
            retain: self.retain.replicate(),
            ignore: self.ignore.replicate(),
        }
    }

    fn same_value(&self, other: &Self) -> (r: bool) {
        self.retain.same_value(&other.retain)
            && self.ignore.same_value(&other.ignore)
    }
}

/// Diagnostics with the retain rules that mean no file.
pub open spec fn with_stale_retain(
    items: Seq<PatternRuleModel>,
    start: Seq<AnalysisDiagnosticModel>,
) -> Seq<AnalysisDiagnosticModel>
    decreases items.len(),
{
    if items.len() == 0 {
        start
    } else {
        let rest = with_stale_retain(items.drop_last(), start);
        let last = items.last();
        rest.push(
            placeless(
                "stale_retain_rule"@,
                "orphanode.jsonc"@,
                DiagnosticSeverity::Warning,
                "retain rule `"@ + last.pattern + "` matches no discovered file ("@ + last.reason + ")"@,
                false,
            ),
        )
    }
}

fn add_stale_retain(
    items: &Vec<PatternRule>,
    out: &mut Vec<AnalysisDiagnostic>,
)
    ensures
        final(out).deep_view() == with_stale_retain(items.deep_view(), old(out).deep_view()),
{
    let ghost start = out.deep_view();
    let ghost model = items.deep_view();
    let mut i: usize = 0;
    while i < items.len()
        invariant
            i <= items.len(),
            model == items.deep_view(),
            out.deep_view() =~= with_stale_retain(model.take(i as int), start),
        decreases items.len() - i,
    {
        proof {
            assert(model.take(i + 1).drop_last() =~= model.take(i as int));
            assert(model.take(i + 1).last() == items@[i as int].deep_view());
        }
        let item: &PatternRule = &items[i];
        push_item(
            out,
            placeless_diagnostic(
                "stale_retain_rule",
                "orphanode.jsonc".to_string(),
                DiagnosticSeverity::Warning,
                concat5("retain rule `", &item.pattern, "` matches no discovered file (", &item.reason, ")"),
                false,
            ),
        );
        i = i + 1;
    }
    assert(model.take(i as int) =~= model);
}

/// Diagnostics with the ignore rules that mean no file.
pub open spec fn with_stale_ignore(
    items: Seq<PatternRuleModel>,
    start: Seq<AnalysisDiagnosticModel>,
) -> Seq<AnalysisDiagnosticModel>
    decreases items.len(),
{
    if items.len() == 0 {
        start
    } else {
        let rest = with_stale_ignore(items.drop_last(), start);
        let last = items.last();
        rest.push(
            placeless(
                "stale_ignore_rule"@,
                "orphanode.jsonc"@,
                DiagnosticSeverity::Warning,
                "ignore rule `"@ + last.pattern + "` matches no discovered file ("@ + last.reason + ")"@,
                false,
            ),
        )
    }
}

fn add_stale_ignore(
    items: &Vec<PatternRule>,
    out: &mut Vec<AnalysisDiagnostic>,
)
    ensures
        final(out).deep_view() == with_stale_ignore(items.deep_view(), old(out).deep_view()),
{
    let ghost start = out.deep_view();
    let ghost model = items.deep_view();
    let mut i: usize = 0;
    while i < items.len()
        invariant
            i <= items.len(),
            model == items.deep_view(),
            out.deep_view() =~= with_stale_ignore(model.take(i as int), start),
        decreases items.len() - i,
    {
        proof {
            assert(model.take(i + 1).drop_last() =~= model.take(i as int));
            assert(model.take(i + 1).last() == items@[i as int].deep_view());
        }
        let item: &PatternRule = &items[i];
        push_item(
            out,
            placeless_diagnostic(
                "stale_ignore_rule",
                "orphanode.jsonc".to_string(),
                DiagnosticSeverity::Warning,
                concat5("ignore rule `", &item.pattern, "` matches no discovered file (", &item.reason, ")"),
                false,
            ),
        );
        i = i + 1;
    }
    assert(model.take(i as int) =~= model);
}

/// Diagnostics with the rules of packages that mean no file.
pub open spec fn with_stale_rules(
    items: Seq<StaleRulesModel>,
    start: Seq<AnalysisDiagnosticModel>,
) -> Seq<AnalysisDiagnosticModel>
    decreases items.len(),
{
    if items.len() == 0 {
        start
    } else {
        let rest = with_stale_rules(items.drop_last(), start);
        let last = items.last();
        with_stale_ignore(last.ignore, with_stale_retain(last.retain, rest))
    }
}

fn add_stale_rules(
    items: &Vec<StaleRules>,
    out: &mut Vec<AnalysisDiagnostic>,
)
    ensures
        final(out).deep_view() == with_stale_rules(items.deep_view(), old(out).deep_view()),
{
    let ghost start = out.deep_view();
    let ghost model = items.deep_view();
    let mut i: usize = 0;
    while i < items.len()
        invariant
            i <= items.len(),
            model == items.deep_view(),
            out.deep_view() =~= with_stale_rules(model.take(i as int), start),
        decreases items.len() - i,
    {
        proof {
            assert(model.take(i + 1).drop_last() =~= model.take(i as int));
            assert(model.take(i + 1).last() == items@[i as int].deep_view());
        }
        let item: &StaleRules = &items[i];
        add_stale_retain(&item.retain, out);
        add_stale_ignore(&item.ignore, out);
        i = i + 1;
    }
    assert(model.take(i as int) =~= model);
}

/// Adds the diagnostics on rules of the packages that mean no file.
pub fn append_configuration_diagnostics(
    diagnostics: &mut Vec<AnalysisDiagnostic>,
    stale: &Vec<StaleRules>,
)
    ensures
        final(diagnostics).deep_view() == with_stale_rules(
            stale.deep_view(),
            old(diagnostics).deep_view(),
        ),
{
    add_stale_rules(stale, diagnostics);
}

/// Paths with those that rules at a directory can mean.
pub open spec fn with_ruled_paths(
    items: Seq<Seq<PathPartModel>>,
    start: Seq<Seq<PathPartModel>>,
    at_root: bool,
    base: Seq<PathPartModel>,
) -> Seq<Seq<PathPartModel>>
    decreases items.len(),
{
    if items.len() == 0 {
        start
    } else {
        let rest = with_ruled_paths(items.drop_last(), start, at_root, base);
        let last = items.last();
        if at_root {
            rest.push(last)
        } else {
            match path_below(last, base) {
                Some(relative) => rest.push(relative),
                None => rest,
            }
        }
    }
}

fn add_ruled_paths(
    items: &Vec<FilePath>,
    at_root: bool,
    base: &FilePath,
    out: &mut Vec<FilePath>,
)
    ensures
        final(out).deep_view() == with_ruled_paths(items.deep_view(), old(out).deep_view(), at_root, base.deep_view()),
{
    let ghost start = out.deep_view();
    let ghost base_model = base.deep_view();
    let ghost model = items.deep_view();
    let mut i: usize = 0;
    while i < items.len()
        invariant
            i <= items.len(),
            model == items.deep_view(),
            base_model == base.deep_view(),
            out.deep_view() =~= with_ruled_paths(model.take(i as int), start, at_root, base_model),
        decreases items.len() - i,
    {
        proof {
            assert(model.take(i + 1).drop_last() =~= model.take(i as int));
            assert(model.take(i + 1).last() == items@[i as int].deep_view());
        }
        let item: &FilePath = &items[i];
        if at_root {
            push_item(out, item.replicate());
        } else {
            match item.strip_prefix(base) {
                Some(relative) => {
                    push_item(out, relative);
                },
                None => {},
            }
        }
        i = i + 1;
    }
    assert(model.take(i as int) =~= model);
}

/// The paths that the rules of a package can mean, as seen from where the rules start: all
/// for the package at the root of the project, else those below.
pub open spec fn ruled_paths(
    root: Seq<PathPartModel>,
    base: Seq<PathPartModel>,
    paths: Seq<Seq<PathPartModel>>,
) -> Seq<Seq<PathPartModel>> {
    with_ruled_paths(paths, Seq::empty(), root.len() == 0, base)
}

/// The paths that the rules of a package can mean, as seen from where the rules start.
#[must_use]
pub fn paths_for_rules(
    root: &FilePath,
    base: &FilePath,
    paths: &Vec<FilePath>,
) -> (r: Vec<FilePath>)
    ensures
        r.deep_view() == ruled_paths(root.deep_view(), base.deep_view(), paths.deep_view()),
{
    let mut out: Vec<FilePath> = Vec::new();
    assert(out.deep_view() =~= Seq::empty());
    assert(root.deep_view().len() == root.parts@.len());
    add_ruled_paths(paths, root.parts.len() == 0, base, &mut out);
    out
}

} // verus!
