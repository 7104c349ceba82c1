//! Facts about source files.

use crate::domain::ids::SymbolId;
use crate::values::{Ordered, Value};
use vstd::prelude::*;

verus! {

/// Bytes of a source file.
#[derive(Debug, Clone, Copy, PartialEq, Eq, Structural)]
pub struct SourceSpan {
    pub start: u32,
    pub end: u32,
}

impl DeepView for SourceSpan {
    type V = SourceSpan;

    open spec fn deep_view(&self) -> SourceSpan {
        *self
    }
}

impl Value for SourceSpan {
    fn replicate(&self) -> (r: Self) {
        *self
    }

    fn same_value(&self, other: &Self) -> (r: bool) {
        *self == *other
    }
}

impl Ordered for SourceSpan {
    open spec fn before(a: SourceSpan, b: SourceSpan) -> bool {
        <u32 as Ordered>::before(a.start, b.start) || (a.start == b.start && (<u32 as Ordered>::before(a.end, b.end)))
    }

    fn is_before(&self, other: &Self) -> (r: bool) {
        assert(Self::before(self.deep_view(), other.deep_view()) == (<u32 as Ordered>::before(self.deep_view().start, other.deep_view().start) || (self.deep_view().start == other.deep_view().start && (<u32 as Ordered>::before(self.deep_view().end, other.deep_view().end)))));
        if self.start.is_before(&other.start) {
            return true;
        }
        if !self.start.same_value(&other.start) {
            return false;
        }
        self.end.is_before(&other.end)
    }

    proof fn before_irreflexive(a: SourceSpan) {
        <u32 as Ordered>::before_irreflexive(a.start);
        <u32 as Ordered>::before_irreflexive(a.end);
    }

    proof fn before_transitive(a: SourceSpan, b: SourceSpan, c: SourceSpan) {
        if <u32 as Ordered>::before(a.start, b.start) && <u32 as Ordered>::before(b.start, c.start) {
            <u32 as Ordered>::before_transitive(a.start, b.start, c.start);
        }
        if <u32 as Ordered>::before(a.end, b.end) && <u32 as Ordered>::before(b.end, c.end) {
            <u32 as Ordered>::before_transitive(a.end, b.end, c.end);
        }
    }

    proof fn before_total(a: SourceSpan, b: SourceSpan) {
        <u32 as Ordered>::before_total(a.start, b.start);
        <u32 as Ordered>::before_total(a.end, b.end);
    }
}

impl SourceSpan {
    /// The bytes from `start` up to `end`.
    #[must_use]
    pub fn new(start: u32, end: u32) -> (r: SourceSpan)
        ensures
            r == (SourceSpan { start, end }),
    {
        SourceSpan { start, end }
    }
}

/// How grave a diagnostic is.
#[derive(Debug, Clone, Copy, PartialEq, Eq, Structural)]
pub enum DiagnosticSeverity {
    Warning,
    Error,
}

impl DeepView for DiagnosticSeverity {
    type V = DiagnosticSeverity;

    open spec fn deep_view(&self) -> DiagnosticSeverity {
        *self
    }
}

impl Value for DiagnosticSeverity {
    fn replicate(&self) -> (r: Self) {
        *self
    }

    fn same_value(&self, other: &Self) -> (r: bool) {
        *self == *other
    }
}

impl DiagnosticSeverity {
    /// The place of the variant in the order of the type.
    pub open spec fn place(self) -> nat {
        match self {
            DiagnosticSeverity::Warning => 0,
            DiagnosticSeverity::Error => 1,
        }
    }

    fn place_of(&self) -> (r: u8)
        ensures
            r == self.place(),
    {
        match self {
            DiagnosticSeverity::Warning => 0,
            DiagnosticSeverity::Error => 1,
        }
    }
}

impl Ordered for DiagnosticSeverity {
    open spec fn before(a: DiagnosticSeverity, b: DiagnosticSeverity) -> bool {
        a.place() < b.place()
    }

    fn is_before(&self, other: &Self) -> (r: bool) {
        assert(Self::before(*self, *other) == (self.place() < other.place()));
        self.place_of() < other.place_of()
    }

    proof fn before_irreflexive(a: DiagnosticSeverity) {
    }

    proof fn before_transitive(
        a: DiagnosticSeverity,
        b: DiagnosticSeverity,
        c: DiagnosticSeverity,
    ) {
    }

    proof fn before_total(a: DiagnosticSeverity, b: DiagnosticSeverity) {
    }
}

/// Something that the user should know of.
#[derive(Debug, PartialEq, Eq)]
pub struct AnalysisDiagnostic {
    pub code: String,
    pub path: String,
    pub severity: DiagnosticSeverity,
    pub span: Option<SourceSpan>,
    pub message: String,
    pub blocks_reachability: bool,
}

/// What a [`AnalysisDiagnostic`] holds.
pub struct AnalysisDiagnosticModel {
    pub code: Seq<char>,
    pub path: Seq<char>,
    pub severity: DiagnosticSeverity,
    pub span: Option<SourceSpan>,
    pub message: Seq<char>,
    pub blocks_reachability: bool,
}

impl DeepView for AnalysisDiagnostic {
    type V = AnalysisDiagnosticModel;

    open spec fn deep_view(&self) -> AnalysisDiagnosticModel {
        AnalysisDiagnosticModel {
            code: self.code.deep_view(),
            path: self.path.deep_view(),
            severity: self.severity.deep_view(),
            span: self.span.deep_view(),
            message: self.message.deep_view(),
            blocks_reachability: self.blocks_reachability.deep_view(),
        }
    }
}

impl Value for AnalysisDiagnostic {
    fn replicate(&self) -> (r: Self) {
        AnalysisDiagnostic {
            code: self.code.replicate(),
            path: self.path.replicate(),
            severity: self.severity.replicate(),
            span: self.span.replicate(),
            message: self.message.replicate(),
            blocks_reachability: self.blocks_reachability.replicate(),
        }
    }

    fn same_value(&self, other: &Self) -> (r: bool) {
        self.code.same_value(&other.code)
            && self.path.same_value(&other.path)
            && self.severity.same_value(&other.severity)
            && self.span.same_value(&other.span)
            && self.message.same_value(&other.message)
            && self.blocks_reachability.same_value(&other.blocks_reachability)
    }
}

/// The language of a file.
#[derive(Debug, Clone, Copy, PartialEq, Eq, Structural)]
pub enum SourceKind {
    JavaScript,
    Jsx,
    TypeScript,
    Tsx,
}

impl DeepView for SourceKind {
    type V = SourceKind;

    open spec fn deep_view(&self) -> SourceKind {
        *self
    }
}

impl Value for SourceKind {
    fn replicate(&self) -> (r: Self) {
        *self
    }

    fn same_value(&self, other: &Self) -> (r: bool) {
        *self == *other
    }
}

/// The module system of a file.
#[derive(Debug, Clone, Copy, PartialEq, Eq, Structural)]
pub enum ModuleKind {
    Esm,
    CommonJs,
}

impl DeepView for ModuleKind {
    type V = ModuleKind;

    open spec fn deep_view(&self) -> ModuleKind {
        *self
    }
}

impl Value for ModuleKind {
    fn replicate(&self) -> (r: Self) {
        *self
    }

    fn same_value(&self, other: &Self) -> (r: bool) {
        *self == *other
    }
}

/// How a module is imported.
#[derive(Debug, Clone, Copy, PartialEq, Eq, Structural)]
pub enum ImportKind {
    Static,
    SideEffect,
    Dynamic,
    CommonJsRequire,
    ReExport,
    Plugin,
}

impl DeepView for ImportKind {
    type V = ImportKind;

    open spec fn deep_view(&self) -> ImportKind {
        *self
    }
}

impl Value for ImportKind {
    fn replicate(&self) -> (r: Self) {
        *self
    }

    fn same_value(&self, other: &Self) -> (r: bool) {
        *self == *other
    }
}

impl ImportKind {
    /// The place of the variant in the order of the type.
    pub open spec fn place(self) -> nat {
        match self {
            ImportKind::Static => 0,
            ImportKind::SideEffect => 1,
            ImportKind::Dynamic => 2,
            ImportKind::CommonJsRequire => 3,
            ImportKind::ReExport => 4,
            ImportKind::Plugin => 5,
        }
    }

    fn place_of(&self) -> (r: u8)
        ensures
            r == self.place(),
    {
        match self {
            ImportKind::Static => 0,
            ImportKind::SideEffect => 1,
            ImportKind::Dynamic => 2,
            ImportKind::CommonJsRequire => 3,
            ImportKind::ReExport => 4,
            ImportKind::Plugin => 5,
        }
    }
}

impl Ordered for ImportKind {
    open spec fn before(a: ImportKind, b: ImportKind) -> bool {
        a.place() < b.place()
    }

    fn is_before(&self, other: &Self) -> (r: bool) {
        assert(Self::before(*self, *other) == (self.place() < other.place()));
        self.place_of() < other.place_of()
    }

    proof fn before_irreflexive(a: ImportKind) {
    }

    proof fn before_transitive(a: ImportKind, b: ImportKind, c: ImportKind) {
    }

    proof fn before_total(a: ImportKind, b: ImportKind) {
    }
}

/// The module system by which a specifier is resolved.
#[derive(Debug, Clone, Copy, PartialEq, Eq, Structural)]
pub enum ResolutionMode {
    Esm,
    CommonJs,
}

impl DeepView for ResolutionMode {
    type V = ResolutionMode;

    open spec fn deep_view(&self) -> ResolutionMode {
        *self
    }
}

impl Value for ResolutionMode {
    fn replicate(&self) -> (r: Self) {
        *self
    }

    fn same_value(&self, other: &Self) -> (r: bool) {
        *self == *other
    }
}

impl ResolutionMode {
    /// The place of the variant in the order of the type.
    pub open spec fn place(self) -> nat {
        match self {
            ResolutionMode::Esm => 0,
            ResolutionMode::CommonJs => 1,
        }
    }

    fn place_of(&self) -> (r: u8)
        ensures
            r == self.place(),
    {
        match self {
            ResolutionMode::Esm => 0,
            ResolutionMode::CommonJs => 1,
        }
    }
}

impl Ordered for ResolutionMode {
    open spec fn before(a: ResolutionMode, b: ResolutionMode) -> bool {
        a.place() < b.place()
    }

    fn is_before(&self, other: &Self) -> (r: bool) {
        assert(Self::before(*self, *other) == (self.place() < other.place()));
        self.place_of() < other.place_of()
    }

    proof fn before_irreflexive(a: ResolutionMode) {
    }

    proof fn before_transitive(a: ResolutionMode, b: ResolutionMode, c: ResolutionMode) {
    }

    proof fn before_total(a: ResolutionMode, b: ResolutionMode) {
    }
}

/// When an import takes effect.
#[derive(Debug, Clone, Copy, PartialEq, Eq, Structural)]
pub enum Activation {
    Module,
    Deferred,
}

impl DeepView for Activation {
    type V = Activation;

    open spec fn deep_view(&self) -> Activation {
        *self
    }
}

impl Value for Activation {
    fn replicate(&self) -> (r: Self) {
        *self
    }

    fn same_value(&self, other: &Self) -> (r: bool) {
        *self == *other
    }
}

impl Activation {
    /// The place of the variant in the order of the type.
    pub open spec fn place(self) -> nat {
        match self {
            Activation::Module => 0,
            Activation::Deferred => 1,
        }
    }

    fn place_of(&self) -> (r: u8)
        ensures
            r == self.place(),
    {
        match self {
            Activation::Module => 0,
            Activation::Deferred => 1,
        }
    }
}

impl Ordered for Activation {
    open spec fn before(a: Activation, b: Activation) -> bool {
        a.place() < b.place()
    }

    fn is_before(&self, other: &Self) -> (r: bool) {
        assert(Self::before(*self, *other) == (self.place() < other.place()));
        self.place_of() < other.place_of()
    }

    proof fn before_irreflexive(a: Activation) {
    }

    proof fn before_transitive(a: Activation, b: Activation, c: Activation) {
    }

    proof fn before_total(a: Activation, b: Activation) {
    }
}

/// An import in a file.
#[derive(Debug, PartialEq, Eq)]
pub struct ImportFact {
    pub specifier: String,
    pub kind: ImportKind,
    pub resolution_mode: ResolutionMode,
    pub activation: Activation,
    pub type_only: bool,
    pub span: SourceSpan,
}

/// What a [`ImportFact`] holds.
pub struct ImportFactModel {
    pub specifier: Seq<char>,
    pub kind: ImportKind,
    pub resolution_mode: ResolutionMode,
    pub activation: Activation,
    pub type_only: bool,
    pub span: SourceSpan,
}

impl DeepView for ImportFact {
    type V = ImportFactModel;

    open spec fn deep_view(&self) -> ImportFactModel {
        ImportFactModel {
            specifier: self.specifier.deep_view(),
            kind: self.kind.deep_view(),
            resolution_mode: self.resolution_mode.deep_view(),
            activation: self.activation.deep_view(),
            type_only: self.type_only.deep_view(),
            span: self.span.deep_view(),
        }
    }
}

impl Value for ImportFact {
    fn replicate(&self) -> (r: Self) {
        ImportFact {
            specifier: self.specifier.replicate(),
            kind: self.kind.replicate(),
            resolution_mode: self.resolution_mode.replicate(),
            activation: self.activation.replicate(),
            type_only: self.type_only.replicate(),
            span: self.span.replicate(),
        }
    }

    fn same_value(&self, other: &Self) -> (r: bool) {
        self.specifier.same_value(&other.specifier)
            && self.kind.same_value(&other.kind)
            && self.resolution_mode.same_value(&other.resolution_mode)
            && self.activation.same_value(&other.activation)
            && self.type_only.same_value(&other.type_only)
            && self.span.same_value(&other.span)
    }
}

/// How something is exported.
#[derive(Debug, Clone, Copy, PartialEq, Eq, Structural)]
pub enum ExportKind {
    Named,
    Default,
    Star,
    CommonJs,
}

impl DeepView for ExportKind {
    type V = ExportKind;

    open spec fn deep_view(&self) -> ExportKind {
        *self
    }
}

impl Value for ExportKind {
    fn replicate(&self) -> (r: Self) {
        *self
    }

    fn same_value(&self, other: &Self) -> (r: bool) {
        *self == *other
    }
}

impl ExportKind {
    /// The place of the variant in the order of the type.
    pub open spec fn place(self) -> nat {
        match self {
            ExportKind::Named => 0,
            ExportKind::Default => 1,
            ExportKind::Star => 2,
            ExportKind::CommonJs => 3,
        }
    }

    fn place_of(&self) -> (r: u8)
        ensures
            r == self.place(),
    {
        match self {
            ExportKind::Named => 0,
            ExportKind::Default => 1,
            ExportKind::Star => 2,
            ExportKind::CommonJs => 3,
        }
    }
}

impl Ordered for ExportKind {
    open spec fn before(a: ExportKind, b: ExportKind) -> bool {
        a.place() < b.place()
    }

    fn is_before(&self, other: &Self) -> (r: bool) {
        assert(Self::before(*self, *other) == (self.place() < other.place()));
        self.place_of() < other.place_of()
    }

    proof fn before_irreflexive(a: ExportKind) {
    }

    proof fn before_transitive(a: ExportKind, b: ExportKind, c: ExportKind) {
    }

    proof fn before_total(a: ExportKind, b: ExportKind) {
    }
}

/// An export of a file.
#[derive(Debug, PartialEq, Eq)]
pub struct ExportFact {
    pub name: String,
    pub kind: ExportKind,
    pub type_only: bool,
    pub span: SourceSpan,
}

/// What a [`ExportFact`] holds.
pub struct ExportFactModel {
    pub name: Seq<char>,
    pub kind: ExportKind,
    pub type_only: bool,
    pub span: SourceSpan,
}

impl DeepView for ExportFact {
    type V = ExportFactModel;

    open spec fn deep_view(&self) -> ExportFactModel {
        ExportFactModel {
            name: self.name.deep_view(),
            kind: self.kind.deep_view(),
            type_only: self.type_only.deep_view(),
            span: self.span.deep_view(),
        }
    }
}

impl Value for ExportFact {
    fn replicate(&self) -> (r: Self) {
        ExportFact {
            name: self.name.replicate(),
            kind: self.kind.replicate(),
            type_only: self.type_only.replicate(),
            span: self.span.replicate(),
        }
    }

    fn same_value(&self, other: &Self) -> (r: bool) {
        self.name.same_value(&other.name)
            && self.kind.same_value(&other.kind)
            && self.type_only.same_value(&other.type_only)
            && self.span.same_value(&other.span)
    }
}

impl Ordered for ExportFact {
    open spec fn before(a: ExportFactModel, b: ExportFactModel) -> bool {
        <String as Ordered>::before(a.name, b.name) || (a.name == b.name && (<ExportKind as Ordered>::before(a.kind, b.kind) || (a.kind == b.kind && (<bool as Ordered>::before(a.type_only, b.type_only) || (a.type_only == b.type_only && (<SourceSpan as Ordered>::before(a.span, b.span)))))))
    }

    fn is_before(&self, other: &Self) -> (r: bool) {
        assert(Self::before(self.deep_view(), other.deep_view()) == (<String as Ordered>::before(self.deep_view().name, other.deep_view().name) || (self.deep_view().name == other.deep_view().name && (<ExportKind as Ordered>::before(self.deep_view().kind, other.deep_view().kind) || (self.deep_view().kind == other.deep_view().kind && (<bool as Ordered>::before(self.deep_view().type_only, other.deep_view().type_only) || (self.deep_view().type_only == other.deep_view().type_only && (<SourceSpan as Ordered>::before(self.deep_view().span, other.deep_view().span)))))))));
        if self.name.is_before(&other.name) {
            return true;
        }
        if !self.name.same_value(&other.name) {
            return false;
        }
        if self.kind.is_before(&other.kind) {
            return true;
        }
        if !self.kind.same_value(&other.kind) {
            return false;
        }
        if self.type_only.is_before(&other.type_only) {
            return true;
        }
        if !self.type_only.same_value(&other.type_only) {
            return false;
        }
        self.span.is_before(&other.span)
    }

    proof fn before_irreflexive(a: ExportFactModel) {
        <String as Ordered>::before_irreflexive(a.name);
        <ExportKind as Ordered>::before_irreflexive(a.kind);
        <bool as Ordered>::before_irreflexive(a.type_only);
        <SourceSpan as Ordered>::before_irreflexive(a.span);
    }

    proof fn before_transitive(a: ExportFactModel, b: ExportFactModel, c: ExportFactModel) {
        if <String as Ordered>::before(a.name, b.name) && <String as Ordered>::before(b.name, c.name) {
            <String as Ordered>::before_transitive(a.name, b.name, c.name);
        }
        if <ExportKind as Ordered>::before(a.kind, b.kind) && <ExportKind as Ordered>::before(b.kind, c.kind) {
            <ExportKind as Ordered>::before_transitive(a.kind, b.kind, c.kind);
        }
        if <bool as Ordered>::before(a.type_only, b.type_only) && <bool as Ordered>::before(b.type_only, c.type_only) {
            <bool as Ordered>::before_transitive(a.type_only, b.type_only, c.type_only);
        }
        if <SourceSpan as Ordered>::before(a.span, b.span) && <SourceSpan as Ordered>::before(b.span, c.span) {
            <SourceSpan as Ordered>::before_transitive(a.span, b.span, c.span);
        }
    }

    proof fn before_total(a: ExportFactModel, b: ExportFactModel) {
        <String as Ordered>::before_total(a.name, b.name);
        <ExportKind as Ordered>::before_total(a.kind, b.kind);
        <bool as Ordered>::before_total(a.type_only, b.type_only);
        <SourceSpan as Ordered>::before_total(a.span, b.span);
    }
}

/// What a symbol is used for.
#[derive(Debug, Clone, Copy, PartialEq, Eq, Structural)]
pub enum UsageKind {
    Runtime,
    Type,
}

impl DeepView for UsageKind {
    type V = UsageKind;

    open spec fn deep_view(&self) -> UsageKind {
        *self
    }
}

impl Value for UsageKind {
    fn replicate(&self) -> (r: Self) {
        *self
    }

    fn same_value(&self, other: &Self) -> (r: bool) {
        *self == *other
    }
}

impl UsageKind {
    /// The place of the variant in the order of the type.
    pub open spec fn place(self) -> nat {
        match self {
            UsageKind::Runtime => 0,
            UsageKind::Type => 1,
        }
    }

    fn place_of(&self) -> (r: u8)
        ensures
            r == self.place(),
    {
        match self {
            UsageKind::Runtime => 0,
            UsageKind::Type => 1,
        }
    }
}

impl Ordered for UsageKind {
    open spec fn before(a: UsageKind, b: UsageKind) -> bool {
        a.place() < b.place()
    }

    fn is_before(&self, other: &Self) -> (r: bool) {
        assert(Self::before(*self, *other) == (self.place() < other.place()));
        self.place_of() < other.place_of()
    }

    proof fn before_irreflexive(a: UsageKind) {
    }

    proof fn before_transitive(a: UsageKind, b: UsageKind, c: UsageKind) {
    }

    proof fn before_total(a: UsageKind, b: UsageKind) {
    }
}

/// What an imported name is bound to.
#[derive(Debug, Clone, Copy, PartialEq, Eq, Structural)]
pub enum ImportBindingKind {
    Default,
    Named,
    Namespace,
    CommonJs,
}

impl DeepView for ImportBindingKind {
    type V = ImportBindingKind;

    open spec fn deep_view(&self) -> ImportBindingKind {
        *self
    }
}

impl Value for ImportBindingKind {
    fn replicate(&self) -> (r: Self) {
        *self
    }

    fn same_value(&self, other: &Self) -> (r: bool) {
        *self == *other
    }
}

/// A name bound by an import.
#[derive(Debug, PartialEq, Eq)]
pub struct ImportBinding {
    pub source: String,
    pub kind: ImportBindingKind,
    pub imported: Option<String>,
    pub local: SymbolId,
    pub type_only: bool,
}

/// What a [`ImportBinding`] holds.
pub struct ImportBindingModel {
    pub source: Seq<char>,
    pub kind: ImportBindingKind,
    pub imported: Option<Seq<char>>,
    pub local: SymbolId,
    pub type_only: bool,
}

impl DeepView for ImportBinding {
    type V = ImportBindingModel;

    open spec fn deep_view(&self) -> ImportBindingModel {
        ImportBindingModel {
            source: self.source.deep_view(),
            kind: self.kind.deep_view(),
            imported: self.imported.deep_view(),
            local: self.local.deep_view(),
            type_only: self.type_only.deep_view(),
        }
    }
}

impl Value for ImportBinding {
    fn replicate(&self) -> (r: Self) {
        ImportBinding {
            source: self.source.replicate(),
            kind: self.kind.replicate(),
            imported: self.imported.replicate(),
            local: self.local.replicate(),
            type_only: self.type_only.replicate(),
        }
    }

    fn same_value(&self, other: &Self) -> (r: bool) {
        self.source.same_value(&other.source)
            && self.kind.same_value(&other.kind)
            && self.imported.same_value(&other.imported)
            && self.local.same_value(&other.local)
            && self.type_only.same_value(&other.type_only)
    }
}

/// What an exported name stands for.
#[derive(Debug, Clone, Copy, PartialEq, Eq, Structural)]
pub enum ExportBindingKind {
    Local,
    ReExport,
    Star,
}

impl DeepView for ExportBindingKind {
    type V = ExportBindingKind;

    open spec fn deep_view(&self) -> ExportBindingKind {
        *self
    }
}

impl Value for ExportBindingKind {
    fn replicate(&self) -> (r: Self) {
        *self
    }

    fn same_value(&self, other: &Self) -> (r: bool) {
        *self == *other
    }
}

/// A name that a file exports.
#[derive(Debug, PartialEq, Eq)]
pub struct ExportBinding {
    pub exported: String,
    pub kind: ExportBindingKind,
    pub local: Option<SymbolId>,
    pub source: Option<String>,
    pub imported: Option<String>,
    pub type_only: bool,
    pub span: SourceSpan,
}

/// What a [`ExportBinding`] holds.
pub struct ExportBindingModel {
    pub exported: Seq<char>,
    pub kind: ExportBindingKind,
    pub local: Option<SymbolId>,
    pub source: Option<Seq<char>>,
    pub imported: Option<Seq<char>>,
    pub type_only: bool,
    pub span: SourceSpan,
}

impl DeepView for ExportBinding {
    type V = ExportBindingModel;

    open spec fn deep_view(&self) -> ExportBindingModel {
        ExportBindingModel {
            exported: self.exported.deep_view(),
            kind: self.kind.deep_view(),
            local: self.local.deep_view(),
            source: self.source.deep_view(),
            imported: self.imported.deep_view(),
            type_only: self.type_only.deep_view(),
            span: self.span.deep_view(),
        }
    }
}

impl Value for ExportBinding {
    fn replicate(&self) -> (r: Self) {
        ExportBinding {
            exported: self.exported.replicate(),
            kind: self.kind.replicate(),
            local: self.local.replicate(),
            source: self.source.replicate(),
            imported: self.imported.replicate(),
            type_only: self.type_only.replicate(),
            span: self.span.replicate(),
        }
    }

    fn same_value(&self, other: &Self) -> (r: bool) {
        self.exported.same_value(&other.exported)
            && self.kind.same_value(&other.kind)
            && self.local.same_value(&other.local)
            && self.source.same_value(&other.source)
            && self.imported.same_value(&other.imported)
            && self.type_only.same_value(&other.type_only)
            && self.span.same_value(&other.span)
    }
}

/// What declares a symbol.
#[derive(Debug, Clone, Copy, PartialEq, Eq, Structural)]
pub enum DeclarationKind {
    Variable,
    Function,
    Class,
    Interface,
    TypeAlias,
    Enum,
    Import,
}

impl DeepView for DeclarationKind {
    type V = DeclarationKind;

    open spec fn deep_view(&self) -> DeclarationKind {
        *self
    }
}

impl Value for DeclarationKind {
    fn replicate(&self) -> (r: Self) {
        *self
    }

    fn same_value(&self, other: &Self) -> (r: bool) {
        *self == *other
    }
}

/// What removing a symbol would touch.
#[derive(Debug, Clone, Copy, PartialEq, Eq, Structural)]
pub struct SymbolFlags {
    pub safe_removal_span: bool,
    pub initializer_effectful: bool,
}

impl DeepView for SymbolFlags {
    type V = SymbolFlags;

    open spec fn deep_view(&self) -> SymbolFlags {
        *self
    }
}

impl Value for SymbolFlags {
    fn replicate(&self) -> (r: Self) {
        *self
    }

    fn same_value(&self, other: &Self) -> (r: bool) {
        *self == *other
    }
}

/// A symbol that a file declares.
#[derive(Debug, PartialEq, Eq)]
pub struct SymbolFact {
    pub id: SymbolId,
    pub name: String,
    pub kind: DeclarationKind,
    pub span: SourceSpan,
    pub flags: SymbolFlags,
}

/// What a [`SymbolFact`] holds.
pub struct SymbolFactModel {
    pub id: SymbolId,
    pub name: Seq<char>,
    pub kind: DeclarationKind,
    pub span: SourceSpan,
    pub flags: SymbolFlags,
}

impl DeepView for SymbolFact {
    type V = SymbolFactModel;

    open spec fn deep_view(&self) -> SymbolFactModel {
        SymbolFactModel {
            id: self.id.deep_view(),
            name: self.name.deep_view(),
            kind: self.kind.deep_view(),
            span: self.span.deep_view(),
            flags: self.flags.deep_view(),
        }
    }
}

impl Value for SymbolFact {
    fn replicate(&self) -> (r: Self) {
        SymbolFact {
            id: self.id.replicate(),
            name: self.name.replicate(),
            kind: self.kind.replicate(),
            span: self.span.replicate(),
            flags: self.flags.replicate(),
        }
    }

    fn same_value(&self, other: &Self) -> (r: bool) {
        self.id.same_value(&other.id)
            && self.name.same_value(&other.name)
            && self.kind.same_value(&other.kind)
            && self.span.same_value(&other.span)
            && self.flags.same_value(&other.flags)
    }
}

/// The symbols of a file.
#[derive(Debug, PartialEq, Eq)]
pub struct SymbolFacts {
    pub imports: Vec<ImportBinding>,
    pub exports: Vec<ExportBinding>,
    pub symbols: Vec<SymbolFact>,
}

/// What a [`SymbolFacts`] holds.
pub struct SymbolFactsModel {
    pub imports: Seq<ImportBindingModel>,
    pub exports: Seq<ExportBindingModel>,
    pub symbols: Seq<SymbolFactModel>,
}

impl DeepView for SymbolFacts {
    type V = SymbolFactsModel;

    open spec fn deep_view(&self) -> SymbolFactsModel {
        SymbolFactsModel {
            imports: self.imports.deep_view(),
            exports: self.exports.deep_view(),
            symbols: self.symbols.deep_view(),
        }
    }
}

impl Value for SymbolFacts {
    fn replicate(&self) -> (r: Self) {
        SymbolFacts {
            imports: self.imports.replicate(),
            exports: self.exports.replicate(),
            symbols: self.symbols.replicate(),
        }
    }

    fn same_value(&self, other: &Self) -> (r: bool) {
        self.imports.same_value(&other.imports)
            && self.exports.same_value(&other.exports)
            && self.symbols.same_value(&other.symbols)
    }
}

/// What a class member is.
#[derive(Debug, Clone, Copy, PartialEq, Eq, Structural)]
pub enum ClassMemberKind {
    Method,
    Field,
    Getter,
    Setter,
    Accessor,
}

impl DeepView for ClassMemberKind {
    type V = ClassMemberKind;

    open spec fn deep_view(&self) -> ClassMemberKind {
        *self
    }
}

impl Value for ClassMemberKind {
    fn replicate(&self) -> (r: Self) {
        *self
    }

    fn same_value(&self, other: &Self) -> (r: bool) {
        *self == *other
    }
}

/// Who can see a class member.
#[derive(Debug, Clone, Copy, PartialEq, Eq, Structural)]
pub enum ClassMemberVisibility {
    JavaScriptPrivate,
    TypeScriptPrivate,
    Protected,
    Public,
}

impl DeepView for ClassMemberVisibility {
    type V = ClassMemberVisibility;

    open spec fn deep_view(&self) -> ClassMemberVisibility {
        *self
    }
}

impl Value for ClassMemberVisibility {
    fn replicate(&self) -> (r: Self) {
        *self
    }

    fn same_value(&self, other: &Self) -> (r: bool) {
        *self == *other
    }
}

/// A member of a class, with what is known of its uses.
#[derive(Debug, PartialEq, Eq)]
pub struct ClassMemberFact {
    pub declaring_class: String,
    pub name: String,
    pub kind: ClassMemberKind,
    pub visibility: ClassMemberVisibility,
    pub is_static: bool,
    pub span: SourceSpan,
    pub directly_referenced: bool,
    pub class_exported: bool,
    pub class_escaped: bool,
    pub decorated: bool,
    pub emitted_decorator_metadata: bool,
    pub unknown_bracket_access: bool,
    pub reflected_or_enumerated: bool,
    pub serialized: bool,
    pub object_spread: bool,
    pub proxied: bool,
    pub passed_to_unknown_code: bool,
    pub participates_in_inheritance: bool,
    pub relationships_complete: bool,
    pub overrides_live_base_member: bool,
    pub has_live_override: bool,
    pub implements_external_contract: bool,
}

/// What a [`ClassMemberFact`] holds.
pub struct ClassMemberFactModel {
    pub declaring_class: Seq<char>,
    pub name: Seq<char>,
    pub kind: ClassMemberKind,
    pub visibility: ClassMemberVisibility,
    pub is_static: bool,
    pub span: SourceSpan,
    pub directly_referenced: bool,
    pub class_exported: bool,
    pub class_escaped: bool,
    pub decorated: bool,
    pub emitted_decorator_metadata: bool,
    pub unknown_bracket_access: bool,
    pub reflected_or_enumerated: bool,
    pub serialized: bool,
    pub object_spread: bool,
    pub proxied: bool,
    pub passed_to_unknown_code: bool,
    pub participates_in_inheritance: bool,
    pub relationships_complete: bool,
    pub overrides_live_base_member: bool,
    pub has_live_override: bool,
    pub implements_external_contract: bool,
}

impl DeepView for ClassMemberFact {
    type V = ClassMemberFactModel;

    open spec fn deep_view(&self) -> ClassMemberFactModel {
        ClassMemberFactModel {
            declaring_class: self.declaring_class.deep_view(),
            name: self.name.deep_view(),
            kind: self.kind.deep_view(),
            visibility: self.visibility.deep_view(),
            is_static: self.is_static.deep_view(),
            span: self.span.deep_view(),
            directly_referenced: self.directly_referenced.deep_view(),
            class_exported: self.class_exported.deep_view(),
            class_escaped: self.class_escaped.deep_view(),
            decorated: self.decorated.deep_view(),
            emitted_decorator_metadata: self.emitted_decorator_metadata.deep_view(),
            unknown_bracket_access: self.unknown_bracket_access.deep_view(),
            reflected_or_enumerated: self.reflected_or_enumerated.deep_view(),
            serialized: self.serialized.deep_view(),
            object_spread: self.object_spread.deep_view(),
            proxied: self.proxied.deep_view(),
            passed_to_unknown_code: self.passed_to_unknown_code.deep_view(),
            participates_in_inheritance: self.participates_in_inheritance.deep_view(),
            relationships_complete: self.relationships_complete.deep_view(),
            overrides_live_base_member: self.overrides_live_base_member.deep_view(),
            has_live_override: self.has_live_override.deep_view(),
            implements_external_contract: self.implements_external_contract.deep_view(),
        }
    }
}

/// What parsing a file brought to light.
#[derive(Debug, PartialEq, Eq)]
pub struct FileFacts {
    pub path: String,
    pub source_kind: SourceKind,
    pub module_kind: ModuleKind,
    pub byte_len: usize,
    pub line_count: usize,
    pub imports: Vec<ImportFact>,
    pub exports: Vec<ExportFact>,
    pub symbol_facts: SymbolFacts,
    pub member_facts: Vec<ClassMemberFact>,
    pub diagnostics: Vec<AnalysisDiagnostic>,
}

/// What a [`FileFacts`] holds.
pub struct FileFactsModel {
    pub path: Seq<char>,
    pub source_kind: SourceKind,
    pub module_kind: ModuleKind,
    pub byte_len: usize,
    pub line_count: usize,
    pub imports: Seq<ImportFactModel>,
    pub exports: Seq<ExportFactModel>,
    pub symbol_facts: SymbolFactsModel,
    pub member_facts: Seq<ClassMemberFactModel>,
    pub diagnostics: Seq<AnalysisDiagnosticModel>,
}

impl DeepView for FileFacts {
    type V = FileFactsModel;

    open spec fn deep_view(&self) -> FileFactsModel {
        FileFactsModel {
            path: self.path.deep_view(),
            source_kind: self.source_kind.deep_view(),
            module_kind: self.module_kind.deep_view(),
            byte_len: self.byte_len.deep_view(),
            line_count: self.line_count.deep_view(),
            imports: self.imports.deep_view(),
            exports: self.exports.deep_view(),
            symbol_facts: self.symbol_facts.deep_view(),
            member_facts: self.member_facts.deep_view(),
            diagnostics: self.diagnostics.deep_view(),
        }
    }
}

} // verus!
