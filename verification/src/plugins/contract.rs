//! What plugins contribute.

use crate::text::{
    byte_len, byte_length, concat3, concat5, contains_control, has_control, split, pieces,
};
use crate::values::{append_items, push_item, Ordered, Value};
use vstd::prelude::*;

verus! {

/// A kind of contribution.
#[derive(Debug, Clone, Copy, PartialEq, Eq, Structural)]
pub enum PluginCapability {
    Entries,
    ProjectFiles,
    ConfigFiles,
    Exclusions,
    FileEdges,
    References,
    ExportRoots,
    MemberRoots,
    GeneratedFiles,
    DynamicImports,
    TargetConditions,
    FileTransforms,
    Diagnostics,
}

impl DeepView for PluginCapability {
    type V = PluginCapability;

    open spec fn deep_view(&self) -> PluginCapability {
        *self
    }
}

impl Value for PluginCapability {
    fn replicate(&self) -> (r: Self) {
        *self
    }

    fn same_value(&self, other: &Self) -> (r: bool) {
        *self == *other
    }
}

impl PluginCapability {
    /// The place of the variant in the order of the type.
    pub open spec fn place(self) -> nat {
        match self {
            PluginCapability::Entries => 0,
            PluginCapability::ProjectFiles => 1,
            PluginCapability::ConfigFiles => 2,
            PluginCapability::Exclusions => 3,
            PluginCapability::FileEdges => 4,
            PluginCapability::References => 5,
            PluginCapability::ExportRoots => 6,
            PluginCapability::MemberRoots => 7,
            PluginCapability::GeneratedFiles => 8,
            PluginCapability::DynamicImports => 9,
            PluginCapability::TargetConditions => 10,
            PluginCapability::FileTransforms => 11,
            PluginCapability::Diagnostics => 12,
        }
    }

    fn place_of(&self) -> (r: u8)
        ensures
            r == self.place(),
    {
        match self {
            PluginCapability::Entries => 0,
            PluginCapability::ProjectFiles => 1,
            PluginCapability::ConfigFiles => 2,
            PluginCapability::Exclusions => 3,
            PluginCapability::FileEdges => 4,
            PluginCapability::References => 5,
            PluginCapability::ExportRoots => 6,
            PluginCapability::MemberRoots => 7,
            PluginCapability::GeneratedFiles => 8,
            PluginCapability::DynamicImports => 9,
            PluginCapability::TargetConditions => 10,
            PluginCapability::FileTransforms => 11,
            PluginCapability::Diagnostics => 12,
        }
    }
}

impl Ordered for PluginCapability {
    open spec fn before(a: PluginCapability, b: PluginCapability) -> bool {
        a.place() < b.place()
    }

    fn is_before(&self, other: &Self) -> (r: bool) {
        assert(Self::before(*self, *other) == (self.place() < other.place()));
        self.place_of() < other.place_of()
    }

    proof fn before_irreflexive(a: PluginCapability) {
    }

    proof fn before_transitive(a: PluginCapability, b: PluginCapability, c: PluginCapability) {
    }

    proof fn before_total(a: PluginCapability, b: PluginCapability) {
    }
}

/// The name of a kind of contribution.
pub open spec fn capability_name(value: PluginCapability) -> Seq<char> {
    match value {
        PluginCapability::Entries => "Entries"@,
        PluginCapability::ProjectFiles => "ProjectFiles"@,
        PluginCapability::ConfigFiles => "ConfigFiles"@,
        PluginCapability::Exclusions => "Exclusions"@,
        PluginCapability::FileEdges => "FileEdges"@,
        PluginCapability::References => "References"@,
        PluginCapability::ExportRoots => "ExportRoots"@,
        PluginCapability::MemberRoots => "MemberRoots"@,
        PluginCapability::GeneratedFiles => "GeneratedFiles"@,
        PluginCapability::DynamicImports => "DynamicImports"@,
        PluginCapability::TargetConditions => "TargetConditions"@,
        PluginCapability::FileTransforms => "FileTransforms"@,
        PluginCapability::Diagnostics => "Diagnostics"@,
    }
}

/// The name of a kind of contribution.
pub fn name_of_capability(value: PluginCapability) -> (r: &'static str)
    ensures
        r@ == capability_name(value),
{
    match value {
        PluginCapability::Entries => "Entries",
        PluginCapability::ProjectFiles => "ProjectFiles",
        PluginCapability::ConfigFiles => "ConfigFiles",
        PluginCapability::Exclusions => "Exclusions",
        PluginCapability::FileEdges => "FileEdges",
        PluginCapability::References => "References",
        PluginCapability::ExportRoots => "ExportRoots",
        PluginCapability::MemberRoots => "MemberRoots",
        PluginCapability::GeneratedFiles => "GeneratedFiles",
        PluginCapability::DynamicImports => "DynamicImports",
        PluginCapability::TargetConditions => "TargetConditions",
        PluginCapability::FileTransforms => "FileTransforms",
        PluginCapability::Diagnostics => "Diagnostics",
    }
}

/// How grave a diagnostic of a plugin is.
#[derive(Debug, Clone, Copy, PartialEq, Eq, Structural)]
pub enum PluginDiagnosticSeverity {
    Warning,
    Error,
}

impl DeepView for PluginDiagnosticSeverity {
    type V = PluginDiagnosticSeverity;

    open spec fn deep_view(&self) -> PluginDiagnosticSeverity {
        *self
    }
}

impl Value for PluginDiagnosticSeverity {
    fn replicate(&self) -> (r: Self) {
        *self
    }

    fn same_value(&self, other: &Self) -> (r: bool) {
        *self == *other
    }
}

/// What a plugin refers to.
#[derive(Debug, Clone, Copy, PartialEq, Eq, Structural)]
pub enum ReferenceKind {
    Package,
    Binary,
}

impl DeepView for ReferenceKind {
    type V = ReferenceKind;

    open spec fn deep_view(&self) -> ReferenceKind {
        *self
    }
}

impl Value for ReferenceKind {
    fn replicate(&self) -> (r: Self) {
        *self
    }

    fn same_value(&self, other: &Self) -> (r: bool) {
        *self == *other
    }
}

/// Files that a plugin speaks of.
#[derive(Debug, PartialEq, Eq)]
pub struct PatternContribution {
    pub pattern: String,
    pub reason: String,
}

/// What a [`PatternContribution`] holds.
pub struct PatternContributionModel {
    pub pattern: Seq<char>,
    pub reason: Seq<char>,
}

impl DeepView for PatternContribution {
    type V = PatternContributionModel;

    open spec fn deep_view(&self) -> PatternContributionModel {
        PatternContributionModel {
            pattern: self.pattern.deep_view(),
            reason: self.reason.deep_view(),
        }
    }
}

impl Value for PatternContribution {
    fn replicate(&self) -> (r: Self) {
        PatternContribution {
            pattern: self.pattern.replicate(),
            reason: self.reason.replicate(),
        }
    }

    fn same_value(&self, other: &Self) -> (r: bool) {
        self.pattern.same_value(&other.pattern)
            && self.reason.same_value(&other.reason)
    }
}

/// Uses of files by others that a plugin knows of.
#[derive(Debug, PartialEq, Eq)]
pub struct FileEdgeContribution {
    pub from_pattern: String,
    pub to_pattern: String,
    pub reason: String,
}

/// What a [`FileEdgeContribution`] holds.
pub struct FileEdgeContributionModel {
    pub from_pattern: Seq<char>,
    pub to_pattern: Seq<char>,
    pub reason: Seq<char>,
}

impl DeepView for FileEdgeContribution {
    type V = FileEdgeContributionModel;

    open spec fn deep_view(&self) -> FileEdgeContributionModel {
        FileEdgeContributionModel {
            from_pattern: self.from_pattern.deep_view(),
            to_pattern: self.to_pattern.deep_view(),
            reason: self.reason.deep_view(),
        }
    }
}

impl Value for FileEdgeContribution {
    fn replicate(&self) -> (r: Self) {
        FileEdgeContribution {
            from_pattern: self.from_pattern.replicate(),
            to_pattern: self.to_pattern.replicate(),
            reason: self.reason.replicate(),
        }
    }

    fn same_value(&self, other: &Self) -> (r: bool) {
        self.from_pattern.same_value(&other.from_pattern)
            && self.to_pattern.same_value(&other.to_pattern)
            && self.reason.same_value(&other.reason)
    }
}

/// A package or binary that a plugin knows to be in use.
#[derive(Debug, PartialEq, Eq)]
pub struct ReferenceContribution {
    pub name: String,
    pub kind: ReferenceKind,
    pub reason: String,
}

/// What a [`ReferenceContribution`] holds.
pub struct ReferenceContributionModel {
    pub name: Seq<char>,
    pub kind: ReferenceKind,
    pub reason: Seq<char>,
}

impl DeepView for ReferenceContribution {
    type V = ReferenceContributionModel;

    open spec fn deep_view(&self) -> ReferenceContributionModel {
        ReferenceContributionModel {
            name: self.name.deep_view(),
            kind: self.kind.deep_view(),
            reason: self.reason.deep_view(),
        }
    }
}

impl Value for ReferenceContribution {
    fn replicate(&self) -> (r: Self) {
        ReferenceContribution {
            name: self.name.replicate(),
            kind: self.kind.replicate(),
            reason: self.reason.replicate(),
        }
    }

    fn same_value(&self, other: &Self) -> (r: bool) {
        self.name.same_value(&other.name)
            && self.kind.same_value(&other.kind)
            && self.reason.same_value(&other.reason)
    }
}

/// An export that a plugin knows to be in use.
#[derive(Debug, PartialEq, Eq)]
pub struct ExportRootContribution {
    pub module_pattern: String,
    pub export_name: String,
    pub reason: String,
}

/// What a [`ExportRootContribution`] holds.
pub struct ExportRootContributionModel {
    pub module_pattern: Seq<char>,
    pub export_name: Seq<char>,
    pub reason: Seq<char>,
}

impl DeepView for ExportRootContribution {
    type V = ExportRootContributionModel;

    open spec fn deep_view(&self) -> ExportRootContributionModel {
        ExportRootContributionModel {
            module_pattern: self.module_pattern.deep_view(),
            export_name: self.export_name.deep_view(),
            reason: self.reason.deep_view(),
        }
    }
}

impl Value for ExportRootContribution {
    fn replicate(&self) -> (r: Self) {
        ExportRootContribution {
            module_pattern: self.module_pattern.replicate(),
            export_name: self.export_name.replicate(),
            reason: self.reason.replicate(),
        }
    }

    fn same_value(&self, other: &Self) -> (r: bool) {
        self.module_pattern.same_value(&other.module_pattern)
            && self.export_name.same_value(&other.export_name)
            && self.reason.same_value(&other.reason)
    }
}

/// A class member that a plugin knows to be in use.
#[derive(Debug, PartialEq, Eq)]
pub struct MemberRootContribution {
    pub module_pattern: String,
    pub export_name: String,
    pub member_name: String,
    pub reason: String,
}

/// What a [`MemberRootContribution`] holds.
pub struct MemberRootContributionModel {
    pub module_pattern: Seq<char>,
    pub export_name: Seq<char>,
    pub member_name: Seq<char>,
    pub reason: Seq<char>,
}

impl DeepView for MemberRootContribution {
    type V = MemberRootContributionModel;

    open spec fn deep_view(&self) -> MemberRootContributionModel {
        MemberRootContributionModel {
            module_pattern: self.module_pattern.deep_view(),
            export_name: self.export_name.deep_view(),
            member_name: self.member_name.deep_view(),
            reason: self.reason.deep_view(),
        }
    }
}

impl Value for MemberRootContribution {
    fn replicate(&self) -> (r: Self) {
        MemberRootContribution {
            module_pattern: self.module_pattern.replicate(),
            export_name: self.export_name.replicate(),
            member_name: self.member_name.replicate(),
            reason: self.reason.replicate(),
        }
    }

    fn same_value(&self, other: &Self) -> (r: bool) {
        self.module_pattern.same_value(&other.module_pattern)
            && self.export_name.same_value(&other.export_name)
            && self.member_name.same_value(&other.member_name)
            && self.reason.same_value(&other.reason)
    }
}

/// Imports at run time that a plugin knows of.
#[derive(Debug, PartialEq, Eq)]
pub struct DynamicImportContribution {
    pub importer_pattern: String,
    pub specifier_pattern: String,
    pub reason: String,
}

/// What a [`DynamicImportContribution`] holds.
pub struct DynamicImportContributionModel {
    pub importer_pattern: Seq<char>,
    pub specifier_pattern: Seq<char>,
    pub reason: Seq<char>,
}

impl DeepView for DynamicImportContribution {
    type V = DynamicImportContributionModel;

    open spec fn deep_view(&self) -> DynamicImportContributionModel {
        DynamicImportContributionModel {
            importer_pattern: self.importer_pattern.deep_view(),
            specifier_pattern: self.specifier_pattern.deep_view(),
            reason: self.reason.deep_view(),
        }
    }
}

impl Value for DynamicImportContribution {
    fn replicate(&self) -> (r: Self) {
        DynamicImportContribution {
            importer_pattern: self.importer_pattern.replicate(),
            specifier_pattern: self.specifier_pattern.replicate(),
            reason: self.reason.replicate(),
        }
    }

    fn same_value(&self, other: &Self) -> (r: bool) {
        self.importer_pattern.same_value(&other.importer_pattern)
            && self.specifier_pattern.same_value(&other.specifier_pattern)
            && self.reason.same_value(&other.reason)
    }
}

/// Files that a plugin knows to be made from others.
#[derive(Debug, PartialEq, Eq)]
pub struct FileTransformContribution {
    pub source_pattern: String,
    pub output_extensions: Vec<String>,
    pub reason: String,
}

/// What a [`FileTransformContribution`] holds.
pub struct FileTransformContributionModel {
    pub source_pattern: Seq<char>,
    pub output_extensions: Seq<Seq<char>>,
    pub reason: Seq<char>,
}

impl DeepView for FileTransformContribution {
    type V = FileTransformContributionModel;

    open spec fn deep_view(&self) -> FileTransformContributionModel {
        FileTransformContributionModel {
            source_pattern: self.source_pattern.deep_view(),
            output_extensions: self.output_extensions.deep_view(),
            reason: self.reason.deep_view(),
        }
    }
}

impl Value for FileTransformContribution {
    fn replicate(&self) -> (r: Self) {
        FileTransformContribution {
            source_pattern: self.source_pattern.replicate(),
            output_extensions: self.output_extensions.replicate(),
            reason: self.reason.replicate(),
        }
    }

    fn same_value(&self, other: &Self) -> (r: bool) {
        self.source_pattern.same_value(&other.source_pattern)
            && self.output_extensions.same_value(&other.output_extensions)
            && self.reason.same_value(&other.reason)
    }
}

/// Something that a plugin has to say.
#[derive(Debug, PartialEq, Eq)]
pub struct PluginDiagnostic {
    pub path: Option<String>,
    pub code: String,
    pub severity: PluginDiagnosticSeverity,
    pub message: String,
    pub blocks_reachability: bool,
}

/// What a [`PluginDiagnostic`] holds.
pub struct PluginDiagnosticModel {
    pub path: Option<Seq<char>>,
    pub code: Seq<char>,
    pub severity: PluginDiagnosticSeverity,
    pub message: Seq<char>,
    pub blocks_reachability: bool,
}

impl DeepView for PluginDiagnostic {
    type V = PluginDiagnosticModel;

    open spec fn deep_view(&self) -> PluginDiagnosticModel {
        PluginDiagnosticModel {
            path: self.path.deep_view(),
            code: self.code.deep_view(),
            severity: self.severity.deep_view(),
            message: self.message.deep_view(),
            blocks_reachability: self.blocks_reachability.deep_view(),
        }
    }
}

impl Value for PluginDiagnostic {
    fn replicate(&self) -> (r: Self) {
        PluginDiagnostic {
            path: self.path.replicate(),
            code: self.code.replicate(),
            severity: self.severity.replicate(),
            message: self.message.replicate(),
            blocks_reachability: self.blocks_reachability.replicate(),
        }
    }

    fn same_value(&self, other: &Self) -> (r: bool) {
        self.path.same_value(&other.path)
            && self.code.same_value(&other.code)
            && self.severity.same_value(&other.severity)
            && self.message.same_value(&other.message)
            && self.blocks_reachability.same_value(&other.blocks_reachability)
    }
}

/// All that a plugin contributes.
#[derive(Debug, PartialEq, Eq)]
pub struct PluginContributions {
    pub entry_patterns: Vec<PatternContribution>,
    pub project_file_patterns: Vec<PatternContribution>,
    pub config_file_patterns: Vec<PatternContribution>,
    pub exclusion_patterns: Vec<PatternContribution>,
    pub generated_file_patterns: Vec<PatternContribution>,
    pub file_edges: Vec<FileEdgeContribution>,
    pub references: Vec<ReferenceContribution>,
    pub export_roots: Vec<ExportRootContribution>,
    pub member_roots: Vec<MemberRootContribution>,
    pub dynamic_imports: Vec<DynamicImportContribution>,
    pub target_conditions: Vec<String>,
    pub file_transforms: Vec<FileTransformContribution>,
    pub diagnostics: Vec<PluginDiagnostic>,
}

/// What a [`PluginContributions`] holds.
pub struct PluginContributionsModel {
    pub entry_patterns: Seq<PatternContributionModel>,
    pub project_file_patterns: Seq<PatternContributionModel>,
    pub config_file_patterns: Seq<PatternContributionModel>,
    pub exclusion_patterns: Seq<PatternContributionModel>,
    pub generated_file_patterns: Seq<PatternContributionModel>,
    pub file_edges: Seq<FileEdgeContributionModel>,
    pub references: Seq<ReferenceContributionModel>,
    pub export_roots: Seq<ExportRootContributionModel>,
    pub member_roots: Seq<MemberRootContributionModel>,
    pub dynamic_imports: Seq<DynamicImportContributionModel>,
    pub target_conditions: Seq<Seq<char>>,
    pub file_transforms: Seq<FileTransformContributionModel>,
    pub diagnostics: Seq<PluginDiagnosticModel>,
}

impl DeepView for PluginContributions {
    type V = PluginContributionsModel;

    open spec fn deep_view(&self) -> PluginContributionsModel {
        PluginContributionsModel {
            entry_patterns: self.entry_patterns.deep_view(),
            project_file_patterns: self.project_file_patterns.deep_view(),
            config_file_patterns: self.config_file_patterns.deep_view(),
            exclusion_patterns: self.exclusion_patterns.deep_view(),
            generated_file_patterns: self.generated_file_patterns.deep_view(),
            file_edges: self.file_edges.deep_view(),
            references: self.references.deep_view(),
            export_roots: self.export_roots.deep_view(),
            member_roots: self.member_roots.deep_view(),
            dynamic_imports: self.dynamic_imports.deep_view(),
            target_conditions: self.target_conditions.deep_view(),
            file_transforms: self.file_transforms.deep_view(),
            diagnostics: self.diagnostics.deep_view(),
        }
    }
}

impl Value for PluginContributions {
    fn replicate(&self) -> (r: Self) {
        PluginContributions {
            entry_patterns: self.entry_patterns.replicate(),
            project_file_patterns: self.project_file_patterns.replicate(),
            config_file_patterns: self.config_file_patterns.replicate(),
            exclusion_patterns: self.exclusion_patterns.replicate(),
            generated_file_patterns: self.generated_file_patterns.replicate(),
            file_edges: self.file_edges.replicate(),
            references: self.references.replicate(),
            export_roots: self.export_roots.replicate(),
            member_roots: self.member_roots.replicate(),
            dynamic_imports: self.dynamic_imports.replicate(),
            target_conditions: self.target_conditions.replicate(),
            file_transforms: self.file_transforms.replicate(),
            diagnostics: self.diagnostics.replicate(),
        }
    }

    fn same_value(&self, other: &Self) -> (r: bool) {
        self.entry_patterns.same_value(&other.entry_patterns)
            && self.project_file_patterns.same_value(&other.project_file_patterns)
            && self.config_file_patterns.same_value(&other.config_file_patterns)
            && self.exclusion_patterns.same_value(&other.exclusion_patterns)
            && self.generated_file_patterns.same_value(&other.generated_file_patterns)
            && self.file_edges.same_value(&other.file_edges)
            && self.references.same_value(&other.references)
            && self.export_roots.same_value(&other.export_roots)
            && self.member_roots.same_value(&other.member_roots)
            && self.dynamic_imports.same_value(&other.dynamic_imports)
            && self.target_conditions.same_value(&other.target_conditions)
            && self.file_transforms.same_value(&other.file_transforms)
            && self.diagnostics.same_value(&other.diagnostics)
    }
}

/// Something that a plugin does not cover.
#[derive(Debug, PartialEq, Eq)]
pub struct UnsupportedCase {
    pub code: String,
    pub summary: String,
    pub blocks_reachability: bool,
}

/// What a [`UnsupportedCase`] holds.
pub struct UnsupportedCaseModel {
    pub code: Seq<char>,
    pub summary: Seq<char>,
    pub blocks_reachability: bool,
}

impl DeepView for UnsupportedCase {
    type V = UnsupportedCaseModel;

    open spec fn deep_view(&self) -> UnsupportedCaseModel {
        UnsupportedCaseModel {
            code: self.code.deep_view(),
            summary: self.summary.deep_view(),
            blocks_reachability: self.blocks_reachability.deep_view(),
        }
    }
}

impl Value for UnsupportedCase {
    fn replicate(&self) -> (r: Self) {
        UnsupportedCase {
            code: self.code.replicate(),
            summary: self.summary.replicate(),
            blocks_reachability: self.blocks_reachability.replicate(),
        }
    }

    fn same_value(&self, other: &Self) -> (r: bool) {
        self.code.same_value(&other.code)
            && self.summary.same_value(&other.summary)
            && self.blocks_reachability.same_value(&other.blocks_reachability)
    }
}

/// A plugin.
#[derive(Debug, PartialEq, Eq)]
pub struct DeclarativePlugin {
    pub id: String,
    pub version: String,
    pub display_name: String,
    pub contributions: PluginContributions,
    pub unsupported_cases: Vec<UnsupportedCase>,
}

/// What a [`DeclarativePlugin`] holds.
pub struct DeclarativePluginModel {
    pub id: Seq<char>,
    pub version: Seq<char>,
    pub display_name: Seq<char>,
    pub contributions: PluginContributionsModel,
    pub unsupported_cases: Seq<UnsupportedCaseModel>,
}

impl DeepView for DeclarativePlugin {
    type V = DeclarativePluginModel;

    open spec fn deep_view(&self) -> DeclarativePluginModel {
        DeclarativePluginModel {
            id: self.id.deep_view(),
            version: self.version.deep_view(),
            display_name: self.display_name.deep_view(),
            contributions: self.contributions.deep_view(),
            unsupported_cases: self.unsupported_cases.deep_view(),
        }
    }
}

impl Value for DeclarativePlugin {
    fn replicate(&self) -> (r: Self) {
        DeclarativePlugin {
            id: self.id.replicate(),
            version: self.version.replicate(),
            display_name: self.display_name.replicate(),
            contributions: self.contributions.replicate(),
            unsupported_cases: self.unsupported_cases.replicate(),
        }
    }

    fn same_value(&self, other: &Self) -> (r: bool) {
        self.id.same_value(&other.id)
            && self.version.same_value(&other.version)
            && self.display_name.same_value(&other.display_name)
            && self.contributions.same_value(&other.contributions)
            && self.unsupported_cases.same_value(&other.unsupported_cases)
    }
}

/// How the use of a plugin shows.
#[derive(Debug, Clone, Copy, PartialEq, Eq, Structural)]
pub enum DetectionEvidenceKind {
    Package,
    ConfigFile,
}

impl DeepView for DetectionEvidenceKind {
    type V = DetectionEvidenceKind;

    open spec fn deep_view(&self) -> DetectionEvidenceKind {
        *self
    }
}

impl Value for DetectionEvidenceKind {
    fn replicate(&self) -> (r: Self) {
        *self
    }

    fn same_value(&self, other: &Self) -> (r: bool) {
        *self == *other
    }
}

/// A plugin that is in use, and how that shows. One that was configured shows nothing.
#[derive(Debug, PartialEq, Eq)]
pub struct DetectedBuiltinPlugin {
    pub plugin: DeclarativePlugin,
    pub evidence: Vec<DetectionEvidenceKind>,
}

/// What a [`DetectedBuiltinPlugin`] holds.
pub struct DetectedBuiltinPluginModel {
    pub plugin: DeclarativePluginModel,
    pub evidence: Seq<DetectionEvidenceKind>,
}

impl DeepView for DetectedBuiltinPlugin {
    type V = DetectedBuiltinPluginModel;

    open spec fn deep_view(&self) -> DetectedBuiltinPluginModel {
        DetectedBuiltinPluginModel {
            plugin: self.plugin.deep_view(),
            evidence: self.evidence.deep_view(),
        }
    }
}

impl Value for DetectedBuiltinPlugin {
    fn replicate(&self) -> (r: Self) {
        DetectedBuiltinPlugin {
            plugin: self.plugin.replicate(),
            evidence: self.evidence.replicate(),
        }
    }

    fn same_value(&self, other: &Self) -> (r: bool) {
        self.plugin.same_value(&other.plugin)
            && self.evidence.same_value(&other.evidence)
    }
}

/// The kinds of contribution that are made.
pub open spec fn capabilities_used(c: PluginContributionsModel) -> Seq<PluginCapability> {
    if_made(c.entry_patterns.len(), PluginCapability::Entries)
        + if_made(c.project_file_patterns.len(), PluginCapability::ProjectFiles)
        + if_made(c.config_file_patterns.len(), PluginCapability::ConfigFiles)
        + if_made(c.exclusion_patterns.len(), PluginCapability::Exclusions)
        + if_made(c.file_edges.len(), PluginCapability::FileEdges)
        + if_made(c.references.len(), PluginCapability::References)
        + if_made(c.export_roots.len(), PluginCapability::ExportRoots)
        + if_made(c.member_roots.len(), PluginCapability::MemberRoots)
        + if_made(c.generated_file_patterns.len(), PluginCapability::GeneratedFiles)
        + if_made(c.dynamic_imports.len(), PluginCapability::DynamicImports)
        + if_made(c.target_conditions.len(), PluginCapability::TargetConditions)
        + if_made(c.file_transforms.len(), PluginCapability::FileTransforms)
        + if_made(c.diagnostics.len(), PluginCapability::Diagnostics)
}

/// One kind of contribution, where there is something of it.
pub open spec fn if_made(count: nat, capability: PluginCapability) -> Seq<PluginCapability> {
    if count > 0 {
        seq![capability]
    } else {
        Seq::empty()
    }
}

/// Whether nothing is contributed but diagnostics.
pub open spec fn only_diagnostics(c: PluginContributionsModel) -> bool {
    &&& c.entry_patterns.len() == 0
    &&& c.project_file_patterns.len() == 0
    &&& c.config_file_patterns.len() == 0
    &&& c.exclusion_patterns.len() == 0
    &&& c.generated_file_patterns.len() == 0
    &&& c.file_edges.len() == 0
    &&& c.references.len() == 0
    &&& c.export_roots.len() == 0
    &&& c.member_roots.len() == 0
    &&& c.dynamic_imports.len() == 0
    &&& c.target_conditions.len() == 0
    &&& c.file_transforms.len() == 0
}

fn note_capability(used: &mut Vec<PluginCapability>, count: usize, capability: PluginCapability)
    ensures
        final(used)@ == old(used)@ + if_made(count as nat, capability),
{
    if count > 0 {
        used.push(capability);
    }
    assert(used@ =~= old(used)@ + if_made(count as nat, capability));
}

impl PluginContributions {
    /// No contributions.
    #[must_use]
    pub fn none() -> (r: PluginContributions)
        ensures
            r.entry_patterns@.len() == 0,
            r.project_file_patterns@.len() == 0,
            r.config_file_patterns@.len() == 0,
            r.exclusion_patterns@.len() == 0,
            r.generated_file_patterns@.len() == 0,
            r.file_edges@.len() == 0,
            r.references@.len() == 0,
            r.export_roots@.len() == 0,
            r.member_roots@.len() == 0,
            r.dynamic_imports@.len() == 0,
            r.target_conditions@.len() == 0,
            r.file_transforms@.len() == 0,
            r.diagnostics@.len() == 0,
    {
        PluginContributions {
            entry_patterns: Vec::new(),
            project_file_patterns: Vec::new(),
            config_file_patterns: Vec::new(),
            exclusion_patterns: Vec::new(),
            generated_file_patterns: Vec::new(),
            file_edges: Vec::new(),
            references: Vec::new(),
            export_roots: Vec::new(),
            member_roots: Vec::new(),
            dynamic_imports: Vec::new(),
            target_conditions: Vec::new(),
            file_transforms: Vec::new(),
            diagnostics: Vec::new(),
        }
    }

    /// The kinds of contribution that are made, in order.
    #[must_use]
    pub fn used_capabilities(&self) -> (r: Vec<PluginCapability>)
        ensures
            r@ == capabilities_used(self.deep_view()),
    {
        let ghost c = self.deep_view();
        let mut used: Vec<PluginCapability> = Vec::new();
        note_capability(&mut used, self.entry_patterns.len(), PluginCapability::Entries);
        assert(used@ =~= if_made(c.entry_patterns.len(), PluginCapability::Entries));
        note_capability(
            &mut used,
            self.project_file_patterns.len(),
            PluginCapability::ProjectFiles,
        );
        note_capability(&mut used, self.config_file_patterns.len(), PluginCapability::ConfigFiles);
        note_capability(&mut used, self.exclusion_patterns.len(), PluginCapability::Exclusions);
        note_capability(&mut used, self.file_edges.len(), PluginCapability::FileEdges);
        note_capability(&mut used, self.references.len(), PluginCapability::References);
        note_capability(&mut used, self.export_roots.len(), PluginCapability::ExportRoots);
        note_capability(&mut used, self.member_roots.len(), PluginCapability::MemberRoots);
        note_capability(
            &mut used,
            self.generated_file_patterns.len(),
            PluginCapability::GeneratedFiles,
        );
        note_capability(&mut used, self.dynamic_imports.len(), PluginCapability::DynamicImports);
        note_capability(
            &mut used,
            self.target_conditions.len(),
            PluginCapability::TargetConditions,
        );
        note_capability(&mut used, self.file_transforms.len(), PluginCapability::FileTransforms);
        note_capability(&mut used, self.diagnostics.len(), PluginCapability::Diagnostics);
        used
    }

    /// Whether nothing is contributed but diagnostics.
    #[must_use]
    pub fn is_empty_except_diagnostics(&self) -> (r: bool)
        ensures
            r == only_diagnostics(self.deep_view()),
    {
        self.entry_patterns.len() == 0
            && self.project_file_patterns.len() == 0
            && self.config_file_patterns.len() == 0
            && self.exclusion_patterns.len() == 0
            && self.generated_file_patterns.len() == 0
            && self.file_edges.len() == 0
            && self.references.len() == 0
            && self.export_roots.len() == 0
            && self.member_roots.len() == 0
            && self.dynamic_imports.len() == 0
            && self.target_conditions.len() == 0
            && self.file_transforms.len() == 0
    }
}

/// The contributions of two answers together.
pub open spec fn contributions_of_both(
    a: PluginContributionsModel,
    b: PluginContributionsModel,
) -> PluginContributionsModel {
    PluginContributionsModel {
        entry_patterns: a.entry_patterns + b.entry_patterns,
        project_file_patterns: a.project_file_patterns + b.project_file_patterns,
        config_file_patterns: a.config_file_patterns + b.config_file_patterns,
        exclusion_patterns: a.exclusion_patterns + b.exclusion_patterns,
        generated_file_patterns: a.generated_file_patterns + b.generated_file_patterns,
        file_edges: a.file_edges + b.file_edges,
        references: a.references + b.references,
        export_roots: a.export_roots + b.export_roots,
        member_roots: a.member_roots + b.member_roots,
        dynamic_imports: a.dynamic_imports + b.dynamic_imports,
        target_conditions: a.target_conditions + b.target_conditions,
        file_transforms: a.file_transforms + b.file_transforms,
        diagnostics: a.diagnostics + b.diagnostics,
    }
}

/// Adds the contributions of another answer.
pub fn merge_plugin_contributions(
    aggregate: &mut PluginContributions,
    additional: &PluginContributions,
)
    ensures
        final(aggregate).deep_view() == contributions_of_both(
            old(aggregate).deep_view(),
            additional.deep_view(),
        ),
{
    append_items(&mut aggregate.entry_patterns, &additional.entry_patterns);
    append_items(&mut aggregate.project_file_patterns, &additional.project_file_patterns);
    append_items(&mut aggregate.config_file_patterns, &additional.config_file_patterns);
    append_items(&mut aggregate.exclusion_patterns, &additional.exclusion_patterns);
    append_items(&mut aggregate.generated_file_patterns, &additional.generated_file_patterns);
    append_items(&mut aggregate.file_edges, &additional.file_edges);
    append_items(&mut aggregate.references, &additional.references);
    append_items(&mut aggregate.export_roots, &additional.export_roots);
    append_items(&mut aggregate.member_roots, &additional.member_roots);
    append_items(&mut aggregate.dynamic_imports, &additional.dynamic_imports);
    append_items(&mut aggregate.target_conditions, &additional.target_conditions);
    append_items(&mut aggregate.file_transforms, &additional.file_transforms);
    append_items(&mut aggregate.diagnostics, &additional.diagnostics);
}

/// A value that is not allowed where it stands.
#[derive(Debug, PartialEq, Eq)]
pub struct FieldFault {
    pub field: &'static str,
    pub value: String,
}

/// What a [`FieldFault`] holds.
pub struct FieldFaultModel {
    pub field: Seq<char>,
    pub value: Seq<char>,
}

impl DeepView for FieldFault {
    type V = FieldFaultModel;

    open spec fn deep_view(&self) -> FieldFaultModel {
        FieldFaultModel {
            field: self.field.deep_view(),
            value: self.value.deep_view(),
        }
    }
}

impl Value for FieldFault {
    fn replicate(&self) -> (r: Self) {
        FieldFault {
            field: self.field.replicate(),
            value: self.value.replicate(),
        }
    }

    fn same_value(&self, other: &Self) -> (r: bool) {
        self.field.same_value(&other.field)
            && self.value.same_value(&other.value)
    }
}

/// Why something of a plugin is not valid.
#[derive(Debug, PartialEq, Eq)]
pub enum PluginValidationError {
    InvalidIdentifier(FieldFault),
    InvalidVersion(String),
    InvalidReference(FieldFault),
    InvalidText(&'static str),
    InvalidPattern(String),
    EscapingPath(String),
}

/// What a [`PluginValidationError`] holds.
pub enum PluginValidationErrorModel {
    InvalidIdentifier(FieldFaultModel),
    InvalidVersion(Seq<char>),
    InvalidReference(FieldFaultModel),
    InvalidText(Seq<char>),
    InvalidPattern(Seq<char>),
    EscapingPath(Seq<char>),
}

impl DeepView for PluginValidationError {
    type V = PluginValidationErrorModel;

    open spec fn deep_view(&self) -> PluginValidationErrorModel {
        match self {
            PluginValidationError::InvalidIdentifier(x) => PluginValidationErrorModel::InvalidIdentifier(x.deep_view()),
            PluginValidationError::InvalidVersion(x) => PluginValidationErrorModel::InvalidVersion(x.deep_view()),
            PluginValidationError::InvalidReference(x) => PluginValidationErrorModel::InvalidReference(x.deep_view()),
            PluginValidationError::InvalidText(x) => PluginValidationErrorModel::InvalidText(x.deep_view()),
            PluginValidationError::InvalidPattern(x) => PluginValidationErrorModel::InvalidPattern(x.deep_view()),
            PluginValidationError::EscapingPath(x) => PluginValidationErrorModel::EscapingPath(x.deep_view()),
        }
    }
}

impl Value for PluginValidationError {
    fn replicate(&self) -> (r: Self) {
        match self {
            PluginValidationError::InvalidIdentifier(x) => PluginValidationError::InvalidIdentifier(x.replicate()),
            PluginValidationError::InvalidVersion(x) => PluginValidationError::InvalidVersion(x.replicate()),
            PluginValidationError::InvalidReference(x) => PluginValidationError::InvalidReference(x.replicate()),
            PluginValidationError::InvalidText(x) => PluginValidationError::InvalidText(x.replicate()),
            PluginValidationError::InvalidPattern(x) => PluginValidationError::InvalidPattern(x.replicate()),
            PluginValidationError::EscapingPath(x) => PluginValidationError::EscapingPath(x.replicate()),
        }
    }

    fn same_value(&self, other: &Self) -> (r: bool) {
        match (self, other) {
            (PluginValidationError::InvalidIdentifier(x), PluginValidationError::InvalidIdentifier(y)) => x.same_value(y),
            (PluginValidationError::InvalidVersion(x), PluginValidationError::InvalidVersion(y)) => x.same_value(y),
            (PluginValidationError::InvalidReference(x), PluginValidationError::InvalidReference(y)) => x.same_value(y),
            (PluginValidationError::InvalidText(x), PluginValidationError::InvalidText(y)) => x.same_value(y),
            (PluginValidationError::InvalidPattern(x), PluginValidationError::InvalidPattern(y)) => x.same_value(y),
            (PluginValidationError::EscapingPath(x), PluginValidationError::EscapingPath(y)) => x.same_value(y),
            _ => false,
        }
    }
}

impl PluginValidationErrorModel {
    /// The error in words.
    pub open spec fn text(self) -> Seq<char> {
        match self {
            PluginValidationErrorModel::InvalidIdentifier(x) => "`"@ + x.field
                + "` is not a valid identifier: `"@ + x.value + "`"@,
            PluginValidationErrorModel::InvalidVersion(x) => "`"@ + x
                + "` is not a valid plugin version"@,
            PluginValidationErrorModel::InvalidReference(x) => "`"@ + x.field
                + "` is not a valid reference: `"@ + x.value + "`"@,
            PluginValidationErrorModel::InvalidText(x) => "`"@ + x + "` is not valid text"@,
            PluginValidationErrorModel::InvalidPattern(x) => "`"@ + x
                + "` is not a workspace-relative pattern"@,
            PluginValidationErrorModel::EscapingPath(x) => "`"@ + x
                + "` does not name a path inside the workspace"@,
        }
    }
}

impl PluginValidationError {
    /// The error in words.
    #[must_use]
    pub fn message(&self) -> (r: String)
        ensures
            r@ == self.deep_view().text(),
    {
        match self {
            PluginValidationError::InvalidIdentifier(x) => concat5(
                "`",
                x.field,
                "` is not a valid identifier: `",
                &x.value,
                "`",
            ),
            PluginValidationError::InvalidVersion(x) => concat3(
                "`",
                x,
                "` is not a valid plugin version",
            ),
            PluginValidationError::InvalidReference(x) => concat5(
                "`",
                x.field,
                "` is not a valid reference: `",
                &x.value,
                "`",
            ),
            PluginValidationError::InvalidText(x) => concat3("`", x, "` is not valid text"),
            PluginValidationError::InvalidPattern(x) => concat3(
                "`",
                x,
                "` is not a workspace-relative pattern",
            ),
            PluginValidationError::EscapingPath(x) => concat3(
                "`",
                x,
                "` does not name a path inside the workspace",
            ),
        }
    }
}

/// Whether a character may stand in an identifier.
pub open spec fn identifier_char(c: char) -> bool {
    ||| 'a' <= c <= 'z'
    ||| 'A' <= c <= 'Z'
    ||| '0' <= c <= '9'
    ||| c == '-'
    ||| c == '_'
    ||| c == '.'
}

/// Whether a text is an identifier: short, and of letters, digits, dots and dashes.
pub open spec fn is_identifier(s: Seq<char>) -> bool {
    0 < s.len() <= 128 && forall|i: int| 0 <= i < s.len() ==> identifier_char(#[trigger] s[i])
}

/// Whether a text can name a package or a binary.
pub open spec fn is_reference(s: Seq<char>) -> bool {
    0 < s.len() <= 256 && !has_control(s)
}

/// Whether a text can be shown: not empty, not long, and without control characters.
pub open spec fn is_plain_text(s: Seq<char>) -> bool {
    0 < byte_length(s) <= 1_024 && !has_control(s)
}

/// Whether a character makes a path a pattern.
pub open spec fn glob_char(c: char) -> bool {
    ||| c == '*'
    ||| c == '?'
    ||| c == '['
    ||| c == ']'
    ||| c == '{'
    ||| c == '}'
}

/// Whether a text is a pattern and not a path.
pub open spec fn has_glob(s: Seq<char>) -> bool {
    exists|i: int| 0 <= i < s.len() && glob_char(#[trigger] s[i])
}

/// Whether a pattern stays inside the workspace: relative, with `/` between its parts,
/// and never leading up.
pub open spec fn is_workspace_pattern(s: Seq<char>) -> bool {
    &&& 0 < s.len() <= 1_024
    &&& s[0] != '/'
    &&& !s.contains('\\')
    &&& !has_control(s)
    &&& !pieces(s, '/').contains(".."@)
}

fn char_count(s: &str) -> (r: usize)
    ensures
        r == s@.len(),
{
    crate::text::chars_of(s).len()
}

/// Whether a text is an identifier.
#[must_use]
pub fn valid_identifier(s: &str) -> (r: bool)
    ensures
        r == is_identifier(s@),
{
    let chars: Vec<char> = crate::text::chars_of(s);
    if chars.len() == 0 || chars.len() > 128 {
        return false;
    }
    let mut i: usize = 0;
    while i < chars.len()
        invariant
            i <= chars.len(),
            chars@ == s@,
            forall|k: int| 0 <= k < i ==> identifier_char(#[trigger] s@[k]),
        decreases chars.len() - i,
    {
        let c: char = chars[i];
        let good: bool = ('a' <= c && c <= 'z') || ('A' <= c && c <= 'Z') || ('0' <= c && c <= '9')
            || c == '-' || c == '_' || c == '.';
        if !good {
            assert(!identifier_char(s@[i as int]));
            return false;
        }
        i = i + 1;
    }
    true
}

/// Whether a text is a pattern and not a path.
#[must_use]
pub fn contains_glob_meta(s: &str) -> (r: bool)
    ensures
        r == has_glob(s@),
{
    let chars: Vec<char> = crate::text::chars_of(s);
    let mut i: usize = 0;
    while i < chars.len()
        invariant
            i <= chars.len(),
            chars@ == s@,
            forall|k: int| 0 <= k < i ==> !glob_char(#[trigger] s@[k]),
        decreases chars.len() - i,
    {
        let c: char = chars[i];
        if c == '*' || c == '?' || c == '[' || c == ']' || c == '{' || c == '}' {
            assert(glob_char(s@[i as int]));
            return true;
        }
        i = i + 1;
    }
    false
}

/// Why a value is no identifier.
pub open spec fn identifier_fault(
    field: Seq<char>,
    value: Seq<char>,
) -> Option<PluginValidationErrorModel> {
    if is_identifier(value) {
        None
    } else {
        Some(PluginValidationErrorModel::InvalidIdentifier(FieldFaultModel { field, value }))
    }
}

/// Refuses a value that is no identifier.
pub fn validate_identifier(field: &'static str, value: &str) -> (r: Option<PluginValidationError>)
    ensures
        r.deep_view() == identifier_fault(field@, value@),
{
    if valid_identifier(value) {
        None
    } else {
        Some(
            PluginValidationError::InvalidIdentifier(
                FieldFault { field, value: value.to_string() },
            ),
        )
    }
}

/// Why a value is no version.
pub open spec fn version_fault(value: Seq<char>) -> Option<PluginValidationErrorModel> {
    if is_identifier(value) {
        None
    } else {
        Some(PluginValidationErrorModel::InvalidVersion(value))
    }
}

/// Refuses a value that is no version.
pub fn validate_version(value: &str) -> (r: Option<PluginValidationError>)
    ensures
        r.deep_view() == version_fault(value@),
{
    if valid_identifier(value) {
        None
    } else {
        Some(PluginValidationError::InvalidVersion(value.to_string()))
    }
}

/// Why a value names no package or binary.
pub open spec fn reference_fault(
    field: Seq<char>,
    value: Seq<char>,
) -> Option<PluginValidationErrorModel> {
    if is_reference(value) {
        None
    } else {
        Some(PluginValidationErrorModel::InvalidReference(FieldFaultModel { field, value }))
    }
}

/// Refuses a value that names no package or binary.
pub fn validate_reference_name(field: &'static str, value: &str) -> (r: Option<
    PluginValidationError,
>)
    ensures
        r.deep_view() == reference_fault(field@, value@),
{
    let count: usize = char_count(value);
    if count > 0 && count <= 256 && !contains_control(value) {
        None
    } else {
        Some(
            PluginValidationError::InvalidReference(
                FieldFault { field, value: value.to_string() },
            ),
        )
    }
}

/// Why a value is no pattern inside the workspace.
pub open spec fn pattern_fault(value: Seq<char>) -> Option<PluginValidationErrorModel> {
    if is_workspace_pattern(value) {
        None
    } else {
        Some(PluginValidationErrorModel::InvalidPattern(value))
    }
}

/// Refuses a value that is no pattern inside the workspace.
pub fn validate_workspace_pattern(value: &str) -> (r: Option<PluginValidationError>)
    ensures
        r.deep_view() == pattern_fault(value@),
{
    let chars: Vec<char> = crate::text::chars_of(value);
    let parts: Vec<String> = split(value, '/');
    let mut leads_up: bool = false;
    let ghost model = parts.deep_view();
    let mut i: usize = 0;
    while i < parts.len()
        invariant
            i <= parts.len(),
            model == parts.deep_view(),
            leads_up == (exists|k: int| 0 <= k < i && #[trigger] model[k] == ".."@),
        decreases parts.len() - i,
    {
        assert(model[i as int] == parts@[i as int]@);
        if crate::text::same(&parts[i], "..") {
            leads_up = true;
        }
        i = i + 1;
    }
    if chars.len() > 0 && chars.len() <= 1_024 && chars[0] != '/' && !crate::text::contains_char(
        value,
        '\\',
    ) && !contains_control(value) && !leads_up {
        None
    } else {
        Some(PluginValidationError::InvalidPattern(value.to_string()))
    }
}

/// Why a diagnostic of a plugin is not valid.
pub open spec fn diagnostic_fault(d: PluginDiagnosticModel) -> Option<PluginValidationErrorModel> {
    if !is_identifier(d.code) {
        Some(
            PluginValidationErrorModel::InvalidIdentifier(
                FieldFaultModel { field: "diagnostics.code"@, value: d.code },
            ),
        )
    } else if !is_plain_text(d.message) {
        Some(PluginValidationErrorModel::InvalidText("diagnostics.message"@))
    } else {
        match d.path {
            Some(path) => pattern_fault(path),
            None => None,
        }
    }
}

impl PluginDiagnostic {
    /// Refuses a diagnostic that is not valid.
    pub fn validate(&self) -> (r: Result<(), PluginValidationError>)
        ensures
            match r {
                Ok(_) => diagnostic_fault(self.deep_view()) is None,
                Err(error) => diagnostic_fault(self.deep_view()) == Some(error.deep_view()),
            },
    {
        match validate_identifier("diagnostics.code", &self.code) {
            Some(error) => {
                return Err(error);
            },
            None => {},
        }
        let bytes: usize = byte_len(&self.message);
        if bytes == 0 || bytes > 1_024 || contains_control(&self.message) {
            return Err(PluginValidationError::InvalidText("diagnostics.message"));
        }
        match &self.path {
            Some(path) => {
                match validate_workspace_pattern(path) {
                    Some(error) => Err(error),
                    None => Ok(()),
                }
            },
            None => Ok(()),
        }
    }
}

/// The patterns of some contributions.
pub open spec fn pattern_paths(items: Seq<PatternContributionModel>) -> Seq<Seq<char>>
    decreases items.len(),
{
    if items.len() == 0 {
        Seq::empty()
    } else {
        let rest = pattern_paths(items.drop_last());
        let last = items.last();
        rest.push(last.pattern)
    }
}

fn list_pattern_paths(items: &Vec<PatternContribution>, out: &mut Vec<String>)
    ensures
        final(out).deep_view() == old(out).deep_view() + pattern_paths(items.deep_view()),
{
    let ghost first = out.deep_view();
    let ghost model = items.deep_view();
    let mut i: usize = 0;
    while i < items.len()
        invariant
            i <= items.len(),
            model == items.deep_view(),
            out.deep_view() =~= first + pattern_paths(model.take(i as int)),
        decreases items.len() - i,
    {
        proof {
            assert(model.take(i + 1).drop_last() =~= model.take(i as int));
            assert(model.take(i + 1).last() == items@[i as int].deep_view());
        }
        push_item(out, items[i].pattern.replicate());
        i = i + 1;
    }
    assert(model.take(i as int) =~= model);
}

/// The patterns of some contributions.
pub open spec fn file_edge_paths(items: Seq<FileEdgeContributionModel>) -> Seq<Seq<char>>
    decreases items.len(),
{
    if items.len() == 0 {
        Seq::empty()
    } else {
        let rest = file_edge_paths(items.drop_last());
        let last = items.last();
        rest.push(last.from_pattern).push(last.to_pattern)
    }
}

fn list_file_edge_paths(items: &Vec<FileEdgeContribution>, out: &mut Vec<String>)
    ensures
        final(out).deep_view() == old(out).deep_view() + file_edge_paths(items.deep_view()),
{
    let ghost first = out.deep_view();
    let ghost model = items.deep_view();
    let mut i: usize = 0;
    while i < items.len()
        invariant
            i <= items.len(),
            model == items.deep_view(),
            out.deep_view() =~= first + file_edge_paths(model.take(i as int)),
        decreases items.len() - i,
    {
        proof {
            assert(model.take(i + 1).drop_last() =~= model.take(i as int));
            assert(model.take(i + 1).last() == items@[i as int].deep_view());
        }
        push_item(out, items[i].from_pattern.replicate());
        push_item(out, items[i].to_pattern.replicate());
        i = i + 1;
    }
    assert(model.take(i as int) =~= model);
}

/// The patterns of some contributions.
pub open spec fn export_root_paths(items: Seq<ExportRootContributionModel>) -> Seq<Seq<char>>
    decreases items.len(),
{
    if items.len() == 0 {
        Seq::empty()
    } else {
        let rest = export_root_paths(items.drop_last());
        let last = items.last();
        rest.push(last.module_pattern)
    }
}

fn list_export_root_paths(items: &Vec<ExportRootContribution>, out: &mut Vec<String>)
    ensures
        final(out).deep_view() == old(out).deep_view() + export_root_paths(items.deep_view()),
{
    let ghost first = out.deep_view();
    let ghost model = items.deep_view();
    let mut i: usize = 0;
    while i < items.len()
        invariant
            i <= items.len(),
            model == items.deep_view(),
            out.deep_view() =~= first + export_root_paths(model.take(i as int)),
        decreases items.len() - i,
    {
        proof {
            assert(model.take(i + 1).drop_last() =~= model.take(i as int));
            assert(model.take(i + 1).last() == items@[i as int].deep_view());
        }
        push_item(out, items[i].module_pattern.replicate());
        i = i + 1;
    }
    assert(model.take(i as int) =~= model);
}

/// The patterns of some contributions.
pub open spec fn member_root_paths(items: Seq<MemberRootContributionModel>) -> Seq<Seq<char>>
    decreases items.len(),
{
    if items.len() == 0 {
        Seq::empty()
    } else {
        let rest = member_root_paths(items.drop_last());
        let last = items.last();
        rest.push(last.module_pattern)
    }
}

fn list_member_root_paths(items: &Vec<MemberRootContribution>, out: &mut Vec<String>)
    ensures
        final(out).deep_view() == old(out).deep_view() + member_root_paths(items.deep_view()),
{
    let ghost first = out.deep_view();
    let ghost model = items.deep_view();
    let mut i: usize = 0;
    while i < items.len()
        invariant
            i <= items.len(),
            model == items.deep_view(),
            out.deep_view() =~= first + member_root_paths(model.take(i as int)),
        decreases items.len() - i,
    {
        proof {
            assert(model.take(i + 1).drop_last() =~= model.take(i as int));
            assert(model.take(i + 1).last() == items@[i as int].deep_view());
        }
        push_item(out, items[i].module_pattern.replicate());
        i = i + 1;
    }
    assert(model.take(i as int) =~= model);
}

/// The patterns of some contributions.
pub open spec fn dynamic_import_paths(items: Seq<DynamicImportContributionModel>) -> Seq<Seq<char>>
    decreases items.len(),
{
    if items.len() == 0 {
        Seq::empty()
    } else {
        let rest = dynamic_import_paths(items.drop_last());
        let last = items.last();
        rest.push(last.importer_pattern)
    }
}

fn list_dynamic_import_paths(items: &Vec<DynamicImportContribution>, out: &mut Vec<String>)
    ensures
        final(out).deep_view() == old(out).deep_view() + dynamic_import_paths(items.deep_view()),
{
    let ghost first = out.deep_view();
    let ghost model = items.deep_view();
    let mut i: usize = 0;
    while i < items.len()
        invariant
            i <= items.len(),
            model == items.deep_view(),
            out.deep_view() =~= first + dynamic_import_paths(model.take(i as int)),
        decreases items.len() - i,
    {
        proof {
            assert(model.take(i + 1).drop_last() =~= model.take(i as int));
            assert(model.take(i + 1).last() == items@[i as int].deep_view());
        }
        push_item(out, items[i].importer_pattern.replicate());
        i = i + 1;
    }
    assert(model.take(i as int) =~= model);
}

/// The patterns of some contributions.
pub open spec fn file_transform_paths(items: Seq<FileTransformContributionModel>) -> Seq<Seq<char>>
    decreases items.len(),
{
    if items.len() == 0 {
        Seq::empty()
    } else {
        let rest = file_transform_paths(items.drop_last());
        let last = items.last();
        rest.push(last.source_pattern)
    }
}

fn list_file_transform_paths(items: &Vec<FileTransformContribution>, out: &mut Vec<String>)
    ensures
        final(out).deep_view() == old(out).deep_view() + file_transform_paths(items.deep_view()),
{
    let ghost first = out.deep_view();
    let ghost model = items.deep_view();
    let mut i: usize = 0;
    while i < items.len()
        invariant
            i <= items.len(),
            model == items.deep_view(),
            out.deep_view() =~= first + file_transform_paths(model.take(i as int)),
        decreases items.len() - i,
    {
        proof {
            assert(model.take(i + 1).drop_last() =~= model.take(i as int));
            assert(model.take(i + 1).last() == items@[i as int].deep_view());
        }
        push_item(out, items[i].source_pattern.replicate());
        i = i + 1;
    }
    assert(model.take(i as int) =~= model);
}

/// The patterns of files in all contributions that take part in reachability.
pub open spec fn contributed_paths(c: PluginContributionsModel) -> Seq<Seq<char>> {
    pattern_paths(c.entry_patterns)
        + pattern_paths(c.project_file_patterns)
        + pattern_paths(c.config_file_patterns)
        + file_edge_paths(c.file_edges)
        + export_root_paths(c.export_roots)
        + member_root_paths(c.member_roots)
        + dynamic_import_paths(c.dynamic_imports)
        + file_transform_paths(c.file_transforms)
}

/// The patterns of files in all contributions that take part in reachability.
#[must_use]
pub fn list_contributed_paths(c: &PluginContributions) -> (r: Vec<String>)
    ensures
        r.deep_view() == contributed_paths(c.deep_view()),
{
    let mut out: Vec<String> = Vec::new();
    list_pattern_paths(&c.entry_patterns, &mut out);
    list_pattern_paths(&c.project_file_patterns, &mut out);
    list_pattern_paths(&c.config_file_patterns, &mut out);
    list_file_edge_paths(&c.file_edges, &mut out);
    list_export_root_paths(&c.export_roots, &mut out);
    list_member_root_paths(&c.member_roots, &mut out);
    list_dynamic_import_paths(&c.dynamic_imports, &mut out);
    list_file_transform_paths(&c.file_transforms, &mut out);
    out
}

/// Why some patterns are not all inside the workspace: the first that is not.
pub open spec fn first_pattern_fault(items: Seq<Seq<char>>) -> Option<PluginValidationErrorModel>
    decreases items.len(),
{
    if items.len() == 0 {
        None
    } else {
        let rest = first_pattern_fault(items.drop_last());
        let last = items.last();
        if rest is Some { rest } else { pattern_fault(last) }
    }
}

/// Why some diagnostics are not all valid: the first that is not.
pub open spec fn first_diagnostic_fault(
    items: Seq<PluginDiagnosticModel>,
) -> Option<PluginValidationErrorModel>
    decreases items.len(),
{
    if items.len() == 0 {
        None
    } else {
        let rest = first_diagnostic_fault(items.drop_last());
        let last = items.last();
        if rest is Some { rest } else { diagnostic_fault(last) }
    }
}

/// Why contributions are not valid: the first pattern that leads out of the workspace,
/// else the first diagnostic that is not valid.
pub open spec fn contributions_fault(c: PluginContributionsModel) -> Option<
    PluginValidationErrorModel,
> {
    if first_pattern_fault(contributed_paths(c)) is Some {
        first_pattern_fault(contributed_paths(c))
    } else {
        first_diagnostic_fault(c.diagnostics)
    }
}

impl PluginContributions {
    /// Refuses contributions that are not valid.
    pub fn validate(&self) -> (r: Option<PluginValidationError>)
        ensures
            r.deep_view() == contributions_fault(self.deep_view()),
    {
        let paths: Vec<String> = list_contributed_paths(self);
        let mut fault: Option<PluginValidationError> = None;
        let ghost model = paths.deep_view();
        let mut i: usize = 0;
        while i < paths.len()
            invariant
                i <= paths.len(),
                model == paths.deep_view(),
                fault.deep_view() == first_pattern_fault(model.take(i as int)),
            decreases paths.len() - i,
        {
            proof {
                assert(model.take(i + 1).drop_last() =~= model.take(i as int));
                assert(model.take(i + 1).last() == paths@[i as int].deep_view());
            }
            let missing: bool = fault.is_none();
            if missing {
                fault = validate_workspace_pattern(&paths[i]);
            }
            i = i + 1;
        }
        assert(model.take(i as int) =~= model);
        if fault.is_some() {
            return fault;
        }
        let diagnostics: &Vec<PluginDiagnostic> = &self.diagnostics;
        let ghost said = diagnostics.deep_view();
        let mut k: usize = 0;
        while k < diagnostics.len()
            invariant
                k <= diagnostics.len(),
                said == diagnostics.deep_view(),
                fault.deep_view() == first_diagnostic_fault(said.take(k as int)),
            decreases diagnostics.len() - k,
        {
            proof {
                assert(said.take(k + 1).drop_last() =~= said.take(k as int));
                assert(said.take(k + 1).last() == diagnostics@[k as int].deep_view());
            }
            let missing: bool = fault.is_none();
            if missing {
                fault = match diagnostics[k].validate() {
                    Ok(_) => None,
                    Err(error) => Some(error),
                };
            }
            k = k + 1;
        }
        assert(said.take(k as int) =~= said);
        fault
    }
}

} // verus!
