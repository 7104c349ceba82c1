//! The report of a scan.

use crate::collections::OrderedMap;
use crate::domain::facts::{
    Activation, AnalysisDiagnostic, AnalysisDiagnosticModel, ExportFact, ExportFactModel,
    ImportKind, ModuleKind, ResolutionMode, SourceKind, SourceSpan,
};
use crate::values::{Ordered, Value};
use vstd::prelude::*;

verus! {

/// The version of the report's form.
pub const REPORT_SCHEMA_VERSION: &'static str = "0.2";

/// Whether something blocks conclusions.
#[derive(Debug, Clone, Copy, PartialEq, Eq, Structural)]
pub enum AnalysisStatus {
    Complete,
    Incomplete,
}

impl DeepView for AnalysisStatus {
    type V = AnalysisStatus;

    open spec fn deep_view(&self) -> AnalysisStatus {
        *self
    }
}

impl Value for AnalysisStatus {
    fn replicate(&self) -> (r: Self) {
        *self
    }

    fn same_value(&self, other: &Self) -> (r: bool) {
        *self == *other
    }
}

/// What is concluded of a file.
#[derive(Debug, Clone, Copy, PartialEq, Eq, Structural)]
pub enum FileStatus {
    Reachable,
    Unreachable,
    Incomplete,
}

impl DeepView for FileStatus {
    type V = FileStatus;

    open spec fn deep_view(&self) -> FileStatus {
        *self
    }
}

impl Value for FileStatus {
    fn replicate(&self) -> (r: Self) {
        *self
    }

    fn same_value(&self, other: &Self) -> (r: bool) {
        *self == *other
    }
}

/// How firmly a finding stands.
#[derive(Debug, Clone, Copy, PartialEq, Eq, Structural)]
pub enum Confidence {
    High,
    Medium,
    Low,
    Incomplete,
}

impl DeepView for Confidence {
    type V = Confidence;

    open spec fn deep_view(&self) -> Confidence {
        *self
    }
}

impl Value for Confidence {
    fn replicate(&self) -> (r: Self) {
        *self
    }

    fn same_value(&self, other: &Self) -> (r: bool) {
        *self == *other
    }
}

/// Whether a finding can be fixed.
#[derive(Debug, Clone, Copy, PartialEq, Eq, Structural)]
pub enum FixEligibility {
    NotAvailable,
    PreviewOnly,
    Eligible,
    Blocked,
}

impl DeepView for FixEligibility {
    type V = FixEligibility;

    open spec fn deep_view(&self) -> FixEligibility {
        *self
    }
}

impl Value for FixEligibility {
    fn replicate(&self) -> (r: Self) {
        *self
    }

    fn same_value(&self, other: &Self) -> (r: bool) {
        *self == *other
    }
}

/// What became of an import.
#[derive(Debug, Clone, Copy, PartialEq, Eq, Structural)]
pub enum ResolutionStatus {
    Resolved,
    External,
    Unresolved,
    Unsupported,
    Deferred,
}

impl DeepView for ResolutionStatus {
    type V = ResolutionStatus;

    open spec fn deep_view(&self) -> ResolutionStatus {
        *self
    }
}

impl Value for ResolutionStatus {
    fn replicate(&self) -> (r: Self) {
        *self
    }

    fn same_value(&self, other: &Self) -> (r: bool) {
        *self == *other
    }
}

impl ResolutionStatus {
    /// The place of the variant in the order of the type.
    pub open spec fn place(self) -> nat {
        match self {
            ResolutionStatus::Resolved => 0,
            ResolutionStatus::External => 1,
            ResolutionStatus::Unresolved => 2,
            ResolutionStatus::Unsupported => 3,
            ResolutionStatus::Deferred => 4,
        }
    }

    fn place_of(&self) -> (r: u8)
        ensures
            r == self.place(),
    {
        match self {
            ResolutionStatus::Resolved => 0,
            ResolutionStatus::External => 1,
            ResolutionStatus::Unresolved => 2,
            ResolutionStatus::Unsupported => 3,
            ResolutionStatus::Deferred => 4,
        }
    }
}

impl Ordered for ResolutionStatus {
    open spec fn before(a: ResolutionStatus, b: ResolutionStatus) -> bool {
        a.place() < b.place()
    }

    fn is_before(&self, other: &Self) -> (r: bool) {
        assert(Self::before(*self, *other) == (self.place() < other.place()));
        self.place_of() < other.place_of()
    }

    proof fn before_irreflexive(a: ResolutionStatus) {
    }

    proof fn before_transitive(a: ResolutionStatus, b: ResolutionStatus, c: ResolutionStatus) {
    }

    proof fn before_total(a: ResolutionStatus, b: ResolutionStatus) {
    }
}

/// The numbers of a report.
#[derive(Debug, Clone, Copy, PartialEq, Eq, Structural)]
pub struct ReportSummary {
    pub files: usize,
    pub reachable_files: usize,
    pub unreachable_files: usize,
    pub incomplete_files: usize,
    pub diagnostics: usize,
}

impl DeepView for ReportSummary {
    type V = ReportSummary;

    open spec fn deep_view(&self) -> ReportSummary {
        *self
    }
}

impl Value for ReportSummary {
    fn replicate(&self) -> (r: Self) {
        *self
    }

    fn same_value(&self, other: &Self) -> (r: bool) {
        *self == *other
    }
}

/// What the cache did for a scan.
#[derive(Debug, PartialEq, Eq)]
pub struct CacheReport {
    pub status: String,
    pub hits: usize,
    pub misses: usize,
    pub generation_written: bool,
}

/// What a [`CacheReport`] holds.
pub struct CacheReportModel {
    pub status: Seq<char>,
    pub hits: usize,
    pub misses: usize,
    pub generation_written: bool,
}

impl DeepView for CacheReport {
    type V = CacheReportModel;

    open spec fn deep_view(&self) -> CacheReportModel {
        CacheReportModel {
            status: self.status.deep_view(),
            hits: self.hits.deep_view(),
            misses: self.misses.deep_view(),
            generation_written: self.generation_written.deep_view(),
        }
    }
}

impl Value for CacheReport {
    fn replicate(&self) -> (r: Self) {
        CacheReport {
            status: self.status.replicate(),
            hits: self.hits.replicate(),
            misses: self.misses.replicate(),
            generation_written: self.generation_written.replicate(),
        }
    }

    fn same_value(&self, other: &Self) -> (r: bool) {
        self.status.same_value(&other.status)
            && self.hits.same_value(&other.hits)
            && self.misses.same_value(&other.misses)
            && self.generation_written.same_value(&other.generation_written)
    }
}

/// An import, and what became of it.
#[derive(Debug, PartialEq, Eq)]
pub struct ImportReport {
    pub specifier: String,
    pub kind: ImportKind,
    pub resolution_mode: ResolutionMode,
    pub activation: Activation,
    pub type_only: bool,
    pub status: ResolutionStatus,
    pub target_profiles: Vec<String>,
    pub target: Option<String>,
    pub span: SourceSpan,
}

/// What a [`ImportReport`] holds.
pub struct ImportReportModel {
    pub specifier: Seq<char>,
    pub kind: ImportKind,
    pub resolution_mode: ResolutionMode,
    pub activation: Activation,
    pub type_only: bool,
    pub status: ResolutionStatus,
    pub target_profiles: Seq<Seq<char>>,
    pub target: Option<Seq<char>>,
    pub span: SourceSpan,
}

impl DeepView for ImportReport {
    type V = ImportReportModel;

    open spec fn deep_view(&self) -> ImportReportModel {
        ImportReportModel {
            specifier: self.specifier.deep_view(),
            kind: self.kind.deep_view(),
            resolution_mode: self.resolution_mode.deep_view(),
            activation: self.activation.deep_view(),
            type_only: self.type_only.deep_view(),
            status: self.status.deep_view(),
            target_profiles: self.target_profiles.deep_view(),
            target: self.target.deep_view(),
            span: self.span.deep_view(),
        }
    }
}

impl Value for ImportReport {
    fn replicate(&self) -> (r: Self) {
        ImportReport {
            specifier: self.specifier.replicate(),
            kind: self.kind.replicate(),
            resolution_mode: self.resolution_mode.replicate(),
            activation: self.activation.replicate(),
            type_only: self.type_only.replicate(),
            status: self.status.replicate(),
            target_profiles: self.target_profiles.replicate(),
            target: self.target.replicate(),
            span: self.span.replicate(),
        }
    }

    fn same_value(&self, other: &Self) -> (r: bool) {
        self.specifier.same_value(&other.specifier)
            && self.kind.same_value(&other.kind)
            && self.resolution_mode.same_value(&other.resolution_mode)
            && self.activation.same_value(&other.activation)
            && self.type_only.same_value(&other.type_only)
            && self.status.same_value(&other.status)
            && self.target_profiles.same_value(&other.target_profiles)
            && self.target.same_value(&other.target)
            && self.span.same_value(&other.span)
    }
}

impl Ordered for ImportReport {
    open spec fn before(a: ImportReportModel, b: ImportReportModel) -> bool {
        <String as Ordered>::before(a.specifier, b.specifier) || (a.specifier == b.specifier && (<ImportKind as Ordered>::before(a.kind, b.kind) || (a.kind == b.kind && (<ResolutionMode as Ordered>::before(a.resolution_mode, b.resolution_mode) || (a.resolution_mode == b.resolution_mode && (<Activation as Ordered>::before(a.activation, b.activation) || (a.activation == b.activation && (<bool as Ordered>::before(a.type_only, b.type_only) || (a.type_only == b.type_only && (<ResolutionStatus as Ordered>::before(a.status, b.status) || (a.status == b.status && (<Vec<String> as Ordered>::before(a.target_profiles, b.target_profiles) || (a.target_profiles == b.target_profiles && (<Option<String> as Ordered>::before(a.target, b.target) || (a.target == b.target && (<SourceSpan as Ordered>::before(a.span, b.span)))))))))))))))))
    }

    fn is_before(&self, other: &Self) -> (r: bool) {
        assert(Self::before(self.deep_view(), other.deep_view()) == (<String as Ordered>::before(self.deep_view().specifier, other.deep_view().specifier) || (self.deep_view().specifier == other.deep_view().specifier && (<ImportKind as Ordered>::before(self.deep_view().kind, other.deep_view().kind) || (self.deep_view().kind == other.deep_view().kind && (<ResolutionMode as Ordered>::before(self.deep_view().resolution_mode, other.deep_view().resolution_mode) || (self.deep_view().resolution_mode == other.deep_view().resolution_mode && (<Activation as Ordered>::before(self.deep_view().activation, other.deep_view().activation) || (self.deep_view().activation == other.deep_view().activation && (<bool as Ordered>::before(self.deep_view().type_only, other.deep_view().type_only) || (self.deep_view().type_only == other.deep_view().type_only && (<ResolutionStatus as Ordered>::before(self.deep_view().status, other.deep_view().status) || (self.deep_view().status == other.deep_view().status && (<Vec<String> as Ordered>::before(self.deep_view().target_profiles, other.deep_view().target_profiles) || (self.deep_view().target_profiles == other.deep_view().target_profiles && (<Option<String> as Ordered>::before(self.deep_view().target, other.deep_view().target) || (self.deep_view().target == other.deep_view().target && (<SourceSpan as Ordered>::before(self.deep_view().span, other.deep_view().span)))))))))))))))))));
        if self.specifier.is_before(&other.specifier) {
            return true;
        }
        if !self.specifier.same_value(&other.specifier) {
            return false;
        }
        if self.kind.is_before(&other.kind) {
            return true;
        }
        if !self.kind.same_value(&other.kind) {
            return false;
        }
        if self.resolution_mode.is_before(&other.resolution_mode) {
            return true;
        }
        if !self.resolution_mode.same_value(&other.resolution_mode) {
            return false;
        }
        if self.activation.is_before(&other.activation) {
            return true;
        }
        if !self.activation.same_value(&other.activation) {
            return false;
        }
        if self.type_only.is_before(&other.type_only) {
            return true;
        }
        if !self.type_only.same_value(&other.type_only) {
            return false;
        }
        if self.status.is_before(&other.status) {
            return true;
        }
        if !self.status.same_value(&other.status) {
            return false;
        }
        if self.target_profiles.is_before(&other.target_profiles) {
            return true;
        }
        if !self.target_profiles.same_value(&other.target_profiles) {
            return false;
        }
        if self.target.is_before(&other.target) {
            return true;
        }
        if !self.target.same_value(&other.target) {
            return false;
        }
        self.span.is_before(&other.span)
    }

    proof fn before_irreflexive(a: ImportReportModel) {
        <String as Ordered>::before_irreflexive(a.specifier);
        <ImportKind as Ordered>::before_irreflexive(a.kind);
        <ResolutionMode as Ordered>::before_irreflexive(a.resolution_mode);
        <Activation as Ordered>::before_irreflexive(a.activation);
        <bool as Ordered>::before_irreflexive(a.type_only);
        <ResolutionStatus as Ordered>::before_irreflexive(a.status);
        <Vec<String> as Ordered>::before_irreflexive(a.target_profiles);
        <Option<String> as Ordered>::before_irreflexive(a.target);
        <SourceSpan as Ordered>::before_irreflexive(a.span);
    }

    proof fn before_transitive(a: ImportReportModel, b: ImportReportModel, c: ImportReportModel) {
        if <String as Ordered>::before(a.specifier, b.specifier) && <String as Ordered>::before(b.specifier, c.specifier) {
            <String as Ordered>::before_transitive(a.specifier, b.specifier, c.specifier);
        }
        if <ImportKind as Ordered>::before(a.kind, b.kind) && <ImportKind as Ordered>::before(b.kind, c.kind) {
            <ImportKind as Ordered>::before_transitive(a.kind, b.kind, c.kind);
        }
        if <ResolutionMode as Ordered>::before(a.resolution_mode, b.resolution_mode) && <ResolutionMode as Ordered>::before(b.resolution_mode, c.resolution_mode) {
            <ResolutionMode as Ordered>::before_transitive(
                a.resolution_mode,
                b.resolution_mode,
                c.resolution_mode,
            );
        }
        if <Activation as Ordered>::before(a.activation, b.activation) && <Activation as Ordered>::before(b.activation, c.activation) {
            <Activation as Ordered>::before_transitive(a.activation, b.activation, c.activation);
        }
        if <bool as Ordered>::before(a.type_only, b.type_only) && <bool as Ordered>::before(b.type_only, c.type_only) {
            <bool as Ordered>::before_transitive(a.type_only, b.type_only, c.type_only);
        }
        if <ResolutionStatus as Ordered>::before(a.status, b.status) && <ResolutionStatus as Ordered>::before(b.status, c.status) {
            <ResolutionStatus as Ordered>::before_transitive(a.status, b.status, c.status);
        }
        if <Vec<String> as Ordered>::before(a.target_profiles, b.target_profiles) && <Vec<String> as Ordered>::before(b.target_profiles, c.target_profiles) {
            <Vec<String> as Ordered>::before_transitive(
                a.target_profiles,
                b.target_profiles,
                c.target_profiles,
            );
        }
        if <Option<String> as Ordered>::before(a.target, b.target) && <Option<String> as Ordered>::before(b.target, c.target) {
            <Option<String> as Ordered>::before_transitive(a.target, b.target, c.target);
        }
        if <SourceSpan as Ordered>::before(a.span, b.span) && <SourceSpan as Ordered>::before(b.span, c.span) {
            <SourceSpan as Ordered>::before_transitive(a.span, b.span, c.span);
        }
    }

    proof fn before_total(a: ImportReportModel, b: ImportReportModel) {
        <String as Ordered>::before_total(a.specifier, b.specifier);
        <ImportKind as Ordered>::before_total(a.kind, b.kind);
        <ResolutionMode as Ordered>::before_total(a.resolution_mode, b.resolution_mode);
        <Activation as Ordered>::before_total(a.activation, b.activation);
        <bool as Ordered>::before_total(a.type_only, b.type_only);
        <ResolutionStatus as Ordered>::before_total(a.status, b.status);
        <Vec<String> as Ordered>::before_total(a.target_profiles, b.target_profiles);
        <Option<String> as Ordered>::before_total(a.target, b.target);
        <SourceSpan as Ordered>::before_total(a.span, b.span);
    }
}

/// A file, and what is concluded of it.
#[derive(Debug, PartialEq, Eq)]
pub struct FileReport {
    pub path: String,
    pub status: FileStatus,
    pub target_statuses: OrderedMap<String, FileStatus>,
    pub source_kind: SourceKind,
    pub module_kind: ModuleKind,
    pub byte_len: usize,
    pub line_count: usize,
    pub content_digest: String,
    pub imports: Vec<ImportReport>,
    pub exports: Vec<ExportFact>,
}

/// What a [`FileReport`] holds.
pub struct FileReportModel {
    pub path: Seq<char>,
    pub status: FileStatus,
    pub target_statuses: Seq<(Seq<char>, FileStatus)>,
    pub source_kind: SourceKind,
    pub module_kind: ModuleKind,
    pub byte_len: usize,
    pub line_count: usize,
    pub content_digest: Seq<char>,
    pub imports: Seq<ImportReportModel>,
    pub exports: Seq<ExportFactModel>,
}

impl DeepView for FileReport {
    type V = FileReportModel;

    open spec fn deep_view(&self) -> FileReportModel {
        FileReportModel {
            path: self.path.deep_view(),
            status: self.status.deep_view(),
            target_statuses: self.target_statuses.deep_view(),
            source_kind: self.source_kind.deep_view(),
            module_kind: self.module_kind.deep_view(),
            byte_len: self.byte_len.deep_view(),
            line_count: self.line_count.deep_view(),
            content_digest: self.content_digest.deep_view(),
            imports: self.imports.deep_view(),
            exports: self.exports.deep_view(),
        }
    }
}

impl Value for FileReport {
    fn replicate(&self) -> (r: Self) {
        FileReport {
            path: self.path.replicate(),
            status: self.status.replicate(),
            target_statuses: self.target_statuses.replicate(),
            source_kind: self.source_kind.replicate(),
            module_kind: self.module_kind.replicate(),
            byte_len: self.byte_len.replicate(),
            line_count: self.line_count.replicate(),
            content_digest: self.content_digest.replicate(),
            imports: self.imports.replicate(),
            exports: self.exports.replicate(),
        }
    }

    fn same_value(&self, other: &Self) -> (r: bool) {
        self.path.same_value(&other.path)
            && self.status.same_value(&other.status)
            && self.target_statuses.same_value(&other.target_statuses)
            && self.source_kind.same_value(&other.source_kind)
            && self.module_kind.same_value(&other.module_kind)
            && self.byte_len.same_value(&other.byte_len)
            && self.line_count.same_value(&other.line_count)
            && self.content_digest.same_value(&other.content_digest)
            && self.imports.same_value(&other.imports)
            && self.exports.same_value(&other.exports)
    }
}

/// Something that is not used.
#[derive(Debug, PartialEq, Eq)]
pub struct Finding {
    pub issue_id: &'static str,
    pub issue_type: &'static str,
    pub workspace: String,
    pub target_profiles: Vec<String>,
    pub paths: Vec<String>,
    pub span: Option<SourceSpan>,
    pub symbol: Option<String>,
    pub dependency: Option<String>,
    pub confidence: Confidence,
    pub summary: String,
    pub evidence: Vec<String>,
    pub blockers: Vec<String>,
    pub suggested_actions: Vec<String>,
    pub fix_eligibility: FixEligibility,
}

/// What a [`Finding`] holds.
pub struct FindingModel {
    pub issue_id: Seq<char>,
    pub issue_type: Seq<char>,
    pub workspace: Seq<char>,
    pub target_profiles: Seq<Seq<char>>,
    pub paths: Seq<Seq<char>>,
    pub span: Option<SourceSpan>,
    pub symbol: Option<Seq<char>>,
    pub dependency: Option<Seq<char>>,
    pub confidence: Confidence,
    pub summary: Seq<char>,
    pub evidence: Seq<Seq<char>>,
    pub blockers: Seq<Seq<char>>,
    pub suggested_actions: Seq<Seq<char>>,
    pub fix_eligibility: FixEligibility,
}

impl DeepView for Finding {
    type V = FindingModel;

    open spec fn deep_view(&self) -> FindingModel {
        FindingModel {
            issue_id: self.issue_id.deep_view(),
            issue_type: self.issue_type.deep_view(),
            workspace: self.workspace.deep_view(),
            target_profiles: self.target_profiles.deep_view(),
            paths: self.paths.deep_view(),
            span: self.span.deep_view(),
            symbol: self.symbol.deep_view(),
            dependency: self.dependency.deep_view(),
            confidence: self.confidence.deep_view(),
            summary: self.summary.deep_view(),
            evidence: self.evidence.deep_view(),
            blockers: self.blockers.deep_view(),
            suggested_actions: self.suggested_actions.deep_view(),
            fix_eligibility: self.fix_eligibility.deep_view(),
        }
    }
}

impl Value for Finding {
    fn replicate(&self) -> (r: Self) {
        Finding {
            issue_id: self.issue_id.replicate(),
            issue_type: self.issue_type.replicate(),
            workspace: self.workspace.replicate(),
            target_profiles: self.target_profiles.replicate(),
            paths: self.paths.replicate(),
            span: self.span.replicate(),
            symbol: self.symbol.replicate(),
            dependency: self.dependency.replicate(),
            confidence: self.confidence.replicate(),
            summary: self.summary.replicate(),
            evidence: self.evidence.replicate(),
            blockers: self.blockers.replicate(),
            suggested_actions: self.suggested_actions.replicate(),
            fix_eligibility: self.fix_eligibility.replicate(),
        }
    }

    fn same_value(&self, other: &Self) -> (r: bool) {
        self.issue_id.same_value(&other.issue_id)
            && self.issue_type.same_value(&other.issue_type)
            && self.workspace.same_value(&other.workspace)
            && self.target_profiles.same_value(&other.target_profiles)
            && self.paths.same_value(&other.paths)
            && self.span.same_value(&other.span)
            && self.symbol.same_value(&other.symbol)
            && self.dependency.same_value(&other.dependency)
            && self.confidence.same_value(&other.confidence)
            && self.summary.same_value(&other.summary)
            && self.evidence.same_value(&other.evidence)
            && self.blockers.same_value(&other.blockers)
            && self.suggested_actions.same_value(&other.suggested_actions)
            && self.fix_eligibility.same_value(&other.fix_eligibility)
    }
}

/// A finding about files.
pub type UnusedFilesFinding = Finding;

/// Something that is kept although it looks unused.
#[derive(Debug, PartialEq, Eq)]
pub struct RetentionReport {
    pub item: String,
    pub item_type: &'static str,
    pub workspace: String,
    pub target_profiles: Vec<String>,
    pub summary: String,
    pub evidence: Vec<String>,
}

/// What a [`RetentionReport`] holds.
pub struct RetentionReportModel {
    pub item: Seq<char>,
    pub item_type: Seq<char>,
    pub workspace: Seq<char>,
    pub target_profiles: Seq<Seq<char>>,
    pub summary: Seq<char>,
    pub evidence: Seq<Seq<char>>,
}

impl DeepView for RetentionReport {
    type V = RetentionReportModel;

    open spec fn deep_view(&self) -> RetentionReportModel {
        RetentionReportModel {
            item: self.item.deep_view(),
            item_type: self.item_type.deep_view(),
            workspace: self.workspace.deep_view(),
            target_profiles: self.target_profiles.deep_view(),
            summary: self.summary.deep_view(),
            evidence: self.evidence.deep_view(),
        }
    }
}

impl Value for RetentionReport {
    fn replicate(&self) -> (r: Self) {
        RetentionReport {
            item: self.item.replicate(),
            item_type: self.item_type.replicate(),
            workspace: self.workspace.replicate(),
            target_profiles: self.target_profiles.replicate(),
            summary: self.summary.replicate(),
            evidence: self.evidence.replicate(),
        }
    }

    fn same_value(&self, other: &Self) -> (r: bool) {
        self.item.same_value(&other.item)
            && self.item_type.same_value(&other.item_type)
            && self.workspace.same_value(&other.workspace)
            && self.target_profiles.same_value(&other.target_profiles)
            && self.summary.same_value(&other.summary)
            && self.evidence.same_value(&other.evidence)
    }
}

/// The project that was scanned.
#[derive(Debug, PartialEq, Eq)]
pub struct ProjectReport {
    pub mode: String,
    pub workspaces: Vec<String>,
    pub worlds: OrderedMap<String, String>,
    pub target_profiles: Vec<String>,
    pub failure_thresholds: OrderedMap<String, Confidence>,
    pub detected_plugins: Vec<String>,
    pub configuration_sources: Vec<String>,
}

/// What a [`ProjectReport`] holds.
pub struct ProjectReportModel {
    pub mode: Seq<char>,
    pub workspaces: Seq<Seq<char>>,
    pub worlds: Seq<(Seq<char>, Seq<char>)>,
    pub target_profiles: Seq<Seq<char>>,
    pub failure_thresholds: Seq<(Seq<char>, Confidence)>,
    pub detected_plugins: Seq<Seq<char>>,
    pub configuration_sources: Seq<Seq<char>>,
}

impl DeepView for ProjectReport {
    type V = ProjectReportModel;

    open spec fn deep_view(&self) -> ProjectReportModel {
        ProjectReportModel {
            mode: self.mode.deep_view(),
            workspaces: self.workspaces.deep_view(),
            worlds: self.worlds.deep_view(),
            target_profiles: self.target_profiles.deep_view(),
            failure_thresholds: self.failure_thresholds.deep_view(),
            detected_plugins: self.detected_plugins.deep_view(),
            configuration_sources: self.configuration_sources.deep_view(),
        }
    }
}

impl Value for ProjectReport {
    fn replicate(&self) -> (r: Self) {
        ProjectReport {
            mode: self.mode.replicate(),
            workspaces: self.workspaces.replicate(),
            worlds: self.worlds.replicate(),
            target_profiles: self.target_profiles.replicate(),
            failure_thresholds: self.failure_thresholds.replicate(),
            detected_plugins: self.detected_plugins.replicate(),
            configuration_sources: self.configuration_sources.replicate(),
        }
    }

    fn same_value(&self, other: &Self) -> (r: bool) {
        self.mode.same_value(&other.mode)
            && self.workspaces.same_value(&other.workspaces)
            && self.worlds.same_value(&other.worlds)
            && self.target_profiles.same_value(&other.target_profiles)
            && self.failure_thresholds.same_value(&other.failure_thresholds)
            && self.detected_plugins.same_value(&other.detected_plugins)
            && self.configuration_sources.same_value(&other.configuration_sources)
    }
}

/// The outcome of a scan.
#[derive(Debug, PartialEq, Eq)]
pub struct ScanReport {
    pub schema_version: &'static str,
    pub status: AnalysisStatus,
    pub entries: Vec<String>,
    pub summary: ReportSummary,
    pub files: Vec<FileReport>,
    pub findings: Vec<Finding>,
    pub retentions: Vec<RetentionReport>,
    pub project: Option<ProjectReport>,
    pub cache: Option<CacheReport>,
    pub diagnostics: Vec<AnalysisDiagnostic>,
}

/// What a [`ScanReport`] holds.
pub struct ScanReportModel {
    pub schema_version: Seq<char>,
    pub status: AnalysisStatus,
    pub entries: Seq<Seq<char>>,
    pub summary: ReportSummary,
    pub files: Seq<FileReportModel>,
    pub findings: Seq<FindingModel>,
    pub retentions: Seq<RetentionReportModel>,
    pub project: Option<ProjectReportModel>,
    pub cache: Option<CacheReportModel>,
    pub diagnostics: Seq<AnalysisDiagnosticModel>,
}

impl DeepView for ScanReport {
    type V = ScanReportModel;

    open spec fn deep_view(&self) -> ScanReportModel {
        ScanReportModel {
            schema_version: self.schema_version.deep_view(),
            status: self.status.deep_view(),
            entries: self.entries.deep_view(),
            summary: self.summary.deep_view(),
            files: self.files.deep_view(),
            findings: self.findings.deep_view(),
            retentions: self.retentions.deep_view(),
            project: self.project.deep_view(),
            cache: self.cache.deep_view(),
            diagnostics: self.diagnostics.deep_view(),
        }
    }
}

impl Value for ScanReport {
    fn replicate(&self) -> (r: Self) {
        ScanReport {
            schema_version: self.schema_version.replicate(),
            status: self.status.replicate(),
            entries: self.entries.replicate(),
            summary: self.summary.replicate(),
            files: self.files.replicate(),
            findings: self.findings.replicate(),
            retentions: self.retentions.replicate(),
            project: self.project.replicate(),
            cache: self.cache.replicate(),
            diagnostics: self.diagnostics.replicate(),
        }
    }

    fn same_value(&self, other: &Self) -> (r: bool) {
        self.schema_version.same_value(&other.schema_version)
            && self.status.same_value(&other.status)
            && self.entries.same_value(&other.entries)
            && self.summary.same_value(&other.summary)
            && self.files.same_value(&other.files)
            && self.findings.same_value(&other.findings)
            && self.retentions.same_value(&other.retentions)
            && self.project.same_value(&other.project)
            && self.cache.same_value(&other.cache)
            && self.diagnostics.same_value(&other.diagnostics)
    }
}

} // verus!
