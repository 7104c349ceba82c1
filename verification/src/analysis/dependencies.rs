//! Which declared dependencies are used, and which used packages are declared.

use crate::analysis::packages::{alias_target, npm_alias_target, npm_package, package_name};
use crate::collections::{
    ascending_is_unique, collected, collected_is_ordered, lookup, OrderedMap, OrderedSet,
};
use crate::discovery::segments::{binary_name, program_name};
use crate::text::{concat5, same};
use crate::values::{push_item, Ordered, Value};
use vstd::prelude::*;

verus! {

/// The manifest field that declares a dependency.
#[derive(Debug, Clone, Copy, PartialEq, Eq, Structural)]
pub enum DependencyCategory {
    Runtime,
    Development,
    Peer,
    Optional,
}

impl DeepView for DependencyCategory {
    type V = DependencyCategory;

    open spec fn deep_view(&self) -> DependencyCategory {
        *self
    }
}

impl Value for DependencyCategory {
    fn replicate(&self) -> (r: Self) {
        *self
    }

    fn same_value(&self, other: &Self) -> (r: bool) {
        *self == *other
    }
}

impl DependencyCategory {
    /// The place of the variant in the order of the type.
    pub open spec fn place(self) -> nat {
        match self {
            DependencyCategory::Runtime => 0,
            DependencyCategory::Development => 1,
            DependencyCategory::Peer => 2,
            DependencyCategory::Optional => 3,
        }
    }

    fn place_of(&self) -> (r: u8)
        ensures
            r == self.place(),
    {
        match self {
            DependencyCategory::Runtime => 0,
            DependencyCategory::Development => 1,
            DependencyCategory::Peer => 2,
            DependencyCategory::Optional => 3,
        }
    }
}

impl Ordered for DependencyCategory {
    open spec fn before(a: DependencyCategory, b: DependencyCategory) -> bool {
        a.place() < b.place()
    }

    fn is_before(&self, other: &Self) -> (r: bool) {
        self.place_of() < other.place_of()
    }

    proof fn before_irreflexive(a: DependencyCategory) {
    }

    proof fn before_transitive(
        a: DependencyCategory,
        b: DependencyCategory,
        c: DependencyCategory,
    ) {
    }

    proof fn before_total(a: DependencyCategory, b: DependencyCategory) {
    }
}

/// The dependencies that one package manifest declares.
#[derive(Debug, PartialEq, Eq)]
pub struct DependencyManifest {
    pub workspace: String,
    pub dependencies: OrderedMap<String, String>,
    pub dev_dependencies: OrderedMap<String, String>,
    pub peer_dependencies: OrderedMap<String, String>,
    pub optional_dependencies: OrderedMap<String, String>,
    pub bundled_dependencies: OrderedSet<String>,
}

/// What a [`DependencyManifest`] holds.
pub struct DependencyManifestModel {
    pub workspace: Seq<char>,
    pub dependencies: Seq<(Seq<char>, Seq<char>)>,
    pub dev_dependencies: Seq<(Seq<char>, Seq<char>)>,
    pub peer_dependencies: Seq<(Seq<char>, Seq<char>)>,
    pub optional_dependencies: Seq<(Seq<char>, Seq<char>)>,
    pub bundled_dependencies: Seq<Seq<char>>,
}

impl DeepView for DependencyManifest {
    type V = DependencyManifestModel;

    open spec fn deep_view(&self) -> DependencyManifestModel {
        DependencyManifestModel {
            workspace: self.workspace.deep_view(),
            dependencies: self.dependencies.deep_view(),
            dev_dependencies: self.dev_dependencies.deep_view(),
            peer_dependencies: self.peer_dependencies.deep_view(),
            optional_dependencies: self.optional_dependencies.deep_view(),
            bundled_dependencies: self.bundled_dependencies.deep_view(),
        }
    }
}

impl Value for DependencyManifest {
    fn replicate(&self) -> (r: Self) {
        DependencyManifest {
            workspace: self.workspace.replicate(),
            dependencies: self.dependencies.replicate(),
            dev_dependencies: self.dev_dependencies.replicate(),
            peer_dependencies: self.peer_dependencies.replicate(),
            optional_dependencies: self.optional_dependencies.replicate(),
            bundled_dependencies: self.bundled_dependencies.replicate(),
        }
    }

    fn same_value(&self, other: &Self) -> (r: bool) {
        self.workspace.same_value(&other.workspace)
            && self.dependencies.same_value(&other.dependencies)
            && self.dev_dependencies.same_value(&other.dev_dependencies)
            && self.peer_dependencies.same_value(&other.peer_dependencies)
            && self.optional_dependencies.same_value(&other.optional_dependencies)
            && self.bundled_dependencies.same_value(&other.bundled_dependencies)
    }
}

/// Where a reference to a package stands.
#[derive(Debug, Clone, Copy, PartialEq, Eq, Structural)]
pub enum DependencyEvidenceKind {
    Binary,
    Bundled,
    Config,
    PublicType,
    Script,
    SourceImport,
    TypeOnlyImport,
}

impl DeepView for DependencyEvidenceKind {
    type V = DependencyEvidenceKind;

    open spec fn deep_view(&self) -> DependencyEvidenceKind {
        *self
    }
}

impl Value for DependencyEvidenceKind {
    fn replicate(&self) -> (r: Self) {
        *self
    }

    fn same_value(&self, other: &Self) -> (r: bool) {
        *self == *other
    }
}

impl DependencyEvidenceKind {
    /// The place of the variant in the order of the type.
    pub open spec fn place(self) -> nat {
        match self {
            DependencyEvidenceKind::Binary => 0,
            DependencyEvidenceKind::Bundled => 1,
            DependencyEvidenceKind::Config => 2,
            DependencyEvidenceKind::PublicType => 3,
            DependencyEvidenceKind::Script => 4,
            DependencyEvidenceKind::SourceImport => 5,
            DependencyEvidenceKind::TypeOnlyImport => 6,
        }
    }

    fn place_of(&self) -> (r: u8)
        ensures
            r == self.place(),
    {
        match self {
            DependencyEvidenceKind::Binary => 0,
            DependencyEvidenceKind::Bundled => 1,
            DependencyEvidenceKind::Config => 2,
            DependencyEvidenceKind::PublicType => 3,
            DependencyEvidenceKind::Script => 4,
            DependencyEvidenceKind::SourceImport => 5,
            DependencyEvidenceKind::TypeOnlyImport => 6,
        }
    }
}

impl Ordered for DependencyEvidenceKind {
    open spec fn before(a: DependencyEvidenceKind, b: DependencyEvidenceKind) -> bool {
        a.place() < b.place()
    }

    fn is_before(&self, other: &Self) -> (r: bool) {
        self.place_of() < other.place_of()
    }

    proof fn before_irreflexive(a: DependencyEvidenceKind) {
    }

    proof fn before_transitive(
        a: DependencyEvidenceKind,
        b: DependencyEvidenceKind,
        c: DependencyEvidenceKind,
    ) {
    }

    proof fn before_total(a: DependencyEvidenceKind, b: DependencyEvidenceKind) {
    }
}

/// What a reference to a package is for.
#[derive(Debug, Clone, Copy, PartialEq, Eq, Structural)]
pub enum DependencyEvidenceScope {
    Runtime,
    Development,
    Contract,
}

impl DeepView for DependencyEvidenceScope {
    type V = DependencyEvidenceScope;

    open spec fn deep_view(&self) -> DependencyEvidenceScope {
        *self
    }
}

impl Value for DependencyEvidenceScope {
    fn replicate(&self) -> (r: Self) {
        *self
    }

    fn same_value(&self, other: &Self) -> (r: bool) {
        *self == *other
    }
}

impl DependencyEvidenceScope {
    /// The place of the variant in the order of the type.
    pub open spec fn place(self) -> nat {
        match self {
            DependencyEvidenceScope::Runtime => 0,
            DependencyEvidenceScope::Development => 1,
            DependencyEvidenceScope::Contract => 2,
        }
    }

    fn place_of(&self) -> (r: u8)
        ensures
            r == self.place(),
    {
        match self {
            DependencyEvidenceScope::Runtime => 0,
            DependencyEvidenceScope::Development => 1,
            DependencyEvidenceScope::Contract => 2,
        }
    }
}

impl Ordered for DependencyEvidenceScope {
    open spec fn before(a: DependencyEvidenceScope, b: DependencyEvidenceScope) -> bool {
        a.place() < b.place()
    }

    fn is_before(&self, other: &Self) -> (r: bool) {
        self.place_of() < other.place_of()
    }

    proof fn before_irreflexive(a: DependencyEvidenceScope) {
    }

    proof fn before_transitive(
        a: DependencyEvidenceScope,
        b: DependencyEvidenceScope,
        c: DependencyEvidenceScope,
    ) {
    }

    proof fn before_total(a: DependencyEvidenceScope, b: DependencyEvidenceScope) {
    }
}

/// A statically known package or binary reference.
#[derive(Debug, PartialEq, Eq)]
pub struct DependencyEvidence {
    pub workspace: String,
    pub reference: String,
    pub kind: DependencyEvidenceKind,
    pub scope: DependencyEvidenceScope,
    pub source: String,
    pub reachable: bool,
}

/// What a [`DependencyEvidence`] holds.
pub struct DependencyEvidenceModel {
    pub workspace: Seq<char>,
    pub reference: Seq<char>,
    pub kind: DependencyEvidenceKind,
    pub scope: DependencyEvidenceScope,
    pub source: Seq<char>,
    pub reachable: bool,
}

impl DeepView for DependencyEvidence {
    type V = DependencyEvidenceModel;

    open spec fn deep_view(&self) -> DependencyEvidenceModel {
        DependencyEvidenceModel {
            workspace: self.workspace.deep_view(),
            reference: self.reference.deep_view(),
            kind: self.kind.deep_view(),
            scope: self.scope.deep_view(),
            source: self.source.deep_view(),
            reachable: self.reachable.deep_view(),
        }
    }
}

impl Value for DependencyEvidence {
    fn replicate(&self) -> (r: Self) {
        DependencyEvidence {
            workspace: self.workspace.replicate(),
            reference: self.reference.replicate(),
            kind: self.kind.replicate(),
            scope: self.scope.replicate(),
            source: self.source.replicate(),
            reachable: self.reachable.replicate(),
        }
    }

    fn same_value(&self, other: &Self) -> (r: bool) {
        self.workspace.same_value(&other.workspace)
            && self.reference.same_value(&other.reference)
            && self.kind.same_value(&other.kind)
            && self.scope.same_value(&other.scope)
            && self.source.same_value(&other.source)
            && self.reachable.same_value(&other.reachable)
    }
}

/// Why a conclusion of non-use cannot be drawn.
#[derive(Debug, PartialEq, Eq)]
pub struct DependencyBlocker {
    pub workspace: String,
    /// `None` blocks workspace-wide unused conclusions. A package value may be
    /// a bare name or subpath and is normalized before matching.
    pub package: Option<String>,
    pub reason: String,
}

/// What a [`DependencyBlocker`] holds.
pub struct DependencyBlockerModel {
    pub workspace: Seq<char>,
    pub package: Option<Seq<char>>,
    pub reason: Seq<char>,
}

impl DeepView for DependencyBlocker {
    type V = DependencyBlockerModel;

    open spec fn deep_view(&self) -> DependencyBlockerModel {
        DependencyBlockerModel {
            workspace: self.workspace.deep_view(),
            package: self.package.deep_view(),
            reason: self.reason.deep_view(),
        }
    }
}

impl Value for DependencyBlocker {
    fn replicate(&self) -> (r: Self) {
        DependencyBlocker {
            workspace: self.workspace.replicate(),
            package: self.package.replicate(),
            reason: self.reason.replicate(),
        }
    }

    fn same_value(&self, other: &Self) -> (r: bool) {
        self.workspace.same_value(&other.workspace)
            && self.package.same_value(&other.package)
            && self.reason.same_value(&other.reason)
    }
}

/// What the dependency rules read.
#[derive(Debug, Clone, Copy)]
pub struct DependencyAnalysisInput<'a> {
    pub root_workspace: &'a str,
    pub manifests: &'a Vec<DependencyManifest>,
    pub evidence: &'a Vec<DependencyEvidence>,
    /// Installed binary name to owning package name.
    pub binary_owners: &'a OrderedMap<String, String>,
    pub blockers: &'a Vec<DependencyBlocker>,
}

/// What a [`DependencyAnalysisInput`] holds.
pub struct DependencyAnalysisInputModel {
    pub root_workspace: Seq<char>,
    pub manifests: Seq<DependencyManifestModel>,
    pub evidence: Seq<DependencyEvidenceModel>,
    pub binary_owners: Seq<(Seq<char>, Seq<char>)>,
    pub blockers: Seq<DependencyBlockerModel>,
}

impl DeepView for DependencyAnalysisInput<'_> {
    type V = DependencyAnalysisInputModel;

    open spec fn deep_view(&self) -> DependencyAnalysisInputModel {
        DependencyAnalysisInputModel {
            root_workspace: self.root_workspace@,
            manifests: self.manifests.deep_view(),
            evidence: self.evidence.deep_view(),
            binary_owners: self.binary_owners.deep_view(),
            blockers: self.blockers.deep_view(),
        }
    }
}

/// What is concluded of a package in a workspace.
#[derive(Debug, Clone, Copy, PartialEq, Eq, Structural)]
pub enum DependencyOutcomeKind {
    Retained,
    Unused,
    UnreferencedPeer,
    UnreferencedOptional,
    Unlisted,
    Misplaced,
    Undetermined,
}

impl DeepView for DependencyOutcomeKind {
    type V = DependencyOutcomeKind;

    open spec fn deep_view(&self) -> DependencyOutcomeKind {
        *self
    }
}

impl Value for DependencyOutcomeKind {
    fn replicate(&self) -> (r: Self) {
        *self
    }

    fn same_value(&self, other: &Self) -> (r: bool) {
        *self == *other
    }
}

impl DependencyOutcomeKind {
    /// The place of the variant in the order of the type.
    pub open spec fn place(self) -> nat {
        match self {
            DependencyOutcomeKind::Retained => 0,
            DependencyOutcomeKind::Unused => 1,
            DependencyOutcomeKind::UnreferencedPeer => 2,
            DependencyOutcomeKind::UnreferencedOptional => 3,
            DependencyOutcomeKind::Unlisted => 4,
            DependencyOutcomeKind::Misplaced => 5,
            DependencyOutcomeKind::Undetermined => 6,
        }
    }

    fn place_of(&self) -> (r: u8)
        ensures
            r == self.place(),
    {
        match self {
            DependencyOutcomeKind::Retained => 0,
            DependencyOutcomeKind::Unused => 1,
            DependencyOutcomeKind::UnreferencedPeer => 2,
            DependencyOutcomeKind::UnreferencedOptional => 3,
            DependencyOutcomeKind::Unlisted => 4,
            DependencyOutcomeKind::Misplaced => 5,
            DependencyOutcomeKind::Undetermined => 6,
        }
    }
}

impl Ordered for DependencyOutcomeKind {
    open spec fn before(a: DependencyOutcomeKind, b: DependencyOutcomeKind) -> bool {
        a.place() < b.place()
    }

    fn is_before(&self, other: &Self) -> (r: bool) {
        self.place_of() < other.place_of()
    }

    proof fn before_irreflexive(a: DependencyOutcomeKind) {
    }

    proof fn before_transitive(
        a: DependencyOutcomeKind,
        b: DependencyOutcomeKind,
        c: DependencyOutcomeKind,
    ) {
    }

    proof fn before_total(a: DependencyOutcomeKind, b: DependencyOutcomeKind) {
    }
}

/// How firmly a conclusion stands.
#[derive(Debug, Clone, Copy, PartialEq, Eq, Structural)]
pub enum DependencyConfidence {
    NotApplicable,
    Medium,
    High,
}

impl DeepView for DependencyConfidence {
    type V = DependencyConfidence;

    open spec fn deep_view(&self) -> DependencyConfidence {
        *self
    }
}

impl Value for DependencyConfidence {
    fn replicate(&self) -> (r: Self) {
        *self
    }

    fn same_value(&self, other: &Self) -> (r: bool) {
        *self == *other
    }
}

impl DependencyConfidence {
    /// The place of the variant in the order of the type.
    pub open spec fn place(self) -> nat {
        match self {
            DependencyConfidence::NotApplicable => 0,
            DependencyConfidence::Medium => 1,
            DependencyConfidence::High => 2,
        }
    }

    fn place_of(&self) -> (r: u8)
        ensures
            r == self.place(),
    {
        match self {
            DependencyConfidence::NotApplicable => 0,
            DependencyConfidence::Medium => 1,
            DependencyConfidence::High => 2,
        }
    }
}

impl Ordered for DependencyConfidence {
    open spec fn before(a: DependencyConfidence, b: DependencyConfidence) -> bool {
        a.place() < b.place()
    }

    fn is_before(&self, other: &Self) -> (r: bool) {
        self.place_of() < other.place_of()
    }

    proof fn before_irreflexive(a: DependencyConfidence) {
    }

    proof fn before_transitive(
        a: DependencyConfidence,
        b: DependencyConfidence,
        c: DependencyConfidence,
    ) {
    }

    proof fn before_total(a: DependencyConfidence, b: DependencyConfidence) {
    }
}

/// A reachable reference, by package.
#[derive(Debug, PartialEq, Eq)]
pub struct NormalizedDependencyEvidence {
    pub workspace: String,
    pub package: String,
    pub kind: DependencyEvidenceKind,
    pub scope: DependencyEvidenceScope,
    pub source: String,
}

/// What a [`NormalizedDependencyEvidence`] holds.
pub struct NormalizedDependencyEvidenceModel {
    pub workspace: Seq<char>,
    pub package: Seq<char>,
    pub kind: DependencyEvidenceKind,
    pub scope: DependencyEvidenceScope,
    pub source: Seq<char>,
}

impl DeepView for NormalizedDependencyEvidence {
    type V = NormalizedDependencyEvidenceModel;

    open spec fn deep_view(&self) -> NormalizedDependencyEvidenceModel {
        NormalizedDependencyEvidenceModel {
            workspace: self.workspace.deep_view(),
            package: self.package.deep_view(),
            kind: self.kind.deep_view(),
            scope: self.scope.deep_view(),
            source: self.source.deep_view(),
        }
    }
}

impl Value for NormalizedDependencyEvidence {
    fn replicate(&self) -> (r: Self) {
        NormalizedDependencyEvidence {
            workspace: self.workspace.replicate(),
            package: self.package.replicate(),
            kind: self.kind.replicate(),
            scope: self.scope.replicate(),
            source: self.source.replicate(),
        }
    }

    fn same_value(&self, other: &Self) -> (r: bool) {
        self.workspace.same_value(&other.workspace)
            && self.package.same_value(&other.package)
            && self.kind.same_value(&other.kind)
            && self.scope.same_value(&other.scope)
            && self.source.same_value(&other.source)
    }
}

impl Ordered for NormalizedDependencyEvidence {
    open spec fn before(
        a: NormalizedDependencyEvidenceModel,
        b: NormalizedDependencyEvidenceModel,
    ) -> bool {
        <String as Ordered>::before(a.workspace, b.workspace) || (a.workspace == b.workspace && (<String as Ordered>::before(a.package, b.package) || (a.package == b.package && (<DependencyEvidenceKind as Ordered>::before(a.kind, b.kind) || (a.kind == b.kind && (<DependencyEvidenceScope as Ordered>::before(a.scope, b.scope) || (a.scope == b.scope && (<String as Ordered>::before(a.source, b.source)))))))))
    }

    fn is_before(&self, other: &Self) -> (r: bool) {
        self.workspace.is_before(&other.workspace) || (self.workspace.same_value(&other.workspace) && (self.package.is_before(&other.package) || (self.package.same_value(&other.package) && (self.kind.is_before(&other.kind) || (self.kind.same_value(&other.kind) && (self.scope.is_before(&other.scope) || (self.scope.same_value(&other.scope) && (self.source.is_before(&other.source)))))))))
    }

    proof fn before_irreflexive(a: NormalizedDependencyEvidenceModel) {
        <String as Ordered>::before_irreflexive(a.workspace);
        <String as Ordered>::before_irreflexive(a.package);
        <DependencyEvidenceKind as Ordered>::before_irreflexive(a.kind);
        <DependencyEvidenceScope as Ordered>::before_irreflexive(a.scope);
        <String as Ordered>::before_irreflexive(a.source);
    }

    proof fn before_transitive(
        a: NormalizedDependencyEvidenceModel,
        b: NormalizedDependencyEvidenceModel,
        c: NormalizedDependencyEvidenceModel,
    ) {
        if <String as Ordered>::before(a.workspace, b.workspace) && <String as Ordered>::before(b.workspace, c.workspace) {
            <String as Ordered>::before_transitive(a.workspace, b.workspace, c.workspace);
        }
        if <String as Ordered>::before(a.package, b.package) && <String as Ordered>::before(b.package, c.package) {
            <String as Ordered>::before_transitive(a.package, b.package, c.package);
        }
        if <DependencyEvidenceKind as Ordered>::before(a.kind, b.kind) && <DependencyEvidenceKind as Ordered>::before(b.kind, c.kind) {
            <DependencyEvidenceKind as Ordered>::before_transitive(a.kind, b.kind, c.kind);
        }
        if <DependencyEvidenceScope as Ordered>::before(a.scope, b.scope) && <DependencyEvidenceScope as Ordered>::before(b.scope, c.scope) {
            <DependencyEvidenceScope as Ordered>::before_transitive(a.scope, b.scope, c.scope);
        }
        if <String as Ordered>::before(a.source, b.source) && <String as Ordered>::before(b.source, c.source) {
            <String as Ordered>::before_transitive(a.source, b.source, c.source);
        }
    }

    proof fn before_total(
        a: NormalizedDependencyEvidenceModel,
        b: NormalizedDependencyEvidenceModel,
    ) {
        <String as Ordered>::before_total(a.workspace, b.workspace);
        <String as Ordered>::before_total(a.package, b.package);
        <DependencyEvidenceKind as Ordered>::before_total(a.kind, b.kind);
        <DependencyEvidenceScope as Ordered>::before_total(a.scope, b.scope);
        <String as Ordered>::before_total(a.source, b.source);
    }
}

/// The conclusion on one package in one workspace.
#[derive(Debug, PartialEq, Eq)]
pub struct DependencyOutcome {
    pub workspace: String,
    pub package: String,
    pub declared_workspace: Option<String>,
    pub categories: Vec<DependencyCategory>,
    pub kind: DependencyOutcomeKind,
    pub confidence: DependencyConfidence,
    pub evidence: Vec<NormalizedDependencyEvidence>,
    pub blockers: Vec<String>,
}

/// What a [`DependencyOutcome`] holds.
pub struct DependencyOutcomeModel {
    pub workspace: Seq<char>,
    pub package: Seq<char>,
    pub declared_workspace: Option<Seq<char>>,
    pub categories: Seq<DependencyCategory>,
    pub kind: DependencyOutcomeKind,
    pub confidence: DependencyConfidence,
    pub evidence: Seq<NormalizedDependencyEvidenceModel>,
    pub blockers: Seq<Seq<char>>,
}

impl DeepView for DependencyOutcome {
    type V = DependencyOutcomeModel;

    open spec fn deep_view(&self) -> DependencyOutcomeModel {
        DependencyOutcomeModel {
            workspace: self.workspace.deep_view(),
            package: self.package.deep_view(),
            declared_workspace: self.declared_workspace.deep_view(),
            categories: self.categories.deep_view(),
            kind: self.kind.deep_view(),
            confidence: self.confidence.deep_view(),
            evidence: self.evidence.deep_view(),
            blockers: self.blockers.deep_view(),
        }
    }
}

impl Value for DependencyOutcome {
    fn replicate(&self) -> (r: Self) {
        DependencyOutcome {
            workspace: self.workspace.replicate(),
            package: self.package.replicate(),
            declared_workspace: self.declared_workspace.replicate(),
            categories: self.categories.replicate(),
            kind: self.kind.replicate(),
            confidence: self.confidence.replicate(),
            evidence: self.evidence.replicate(),
            blockers: self.blockers.replicate(),
        }
    }

    fn same_value(&self, other: &Self) -> (r: bool) {
        self.workspace.same_value(&other.workspace)
            && self.package.same_value(&other.package)
            && self.declared_workspace.same_value(&other.declared_workspace)
            && self.categories.same_value(&other.categories)
            && self.kind.same_value(&other.kind)
            && self.confidence.same_value(&other.confidence)
            && self.evidence.same_value(&other.evidence)
            && self.blockers.same_value(&other.blockers)
    }
}

/// A reachable binary that no installed package is known to own.
#[derive(Debug, PartialEq, Eq)]
pub struct UnmappedBinary {
    pub workspace: String,
    pub binary: String,
    pub source: String,
}

/// What a [`UnmappedBinary`] holds.
pub struct UnmappedBinaryModel {
    pub workspace: Seq<char>,
    pub binary: Seq<char>,
    pub source: Seq<char>,
}

impl DeepView for UnmappedBinary {
    type V = UnmappedBinaryModel;

    open spec fn deep_view(&self) -> UnmappedBinaryModel {
        UnmappedBinaryModel {
            workspace: self.workspace.deep_view(),
            binary: self.binary.deep_view(),
            source: self.source.deep_view(),
        }
    }
}

impl Value for UnmappedBinary {
    fn replicate(&self) -> (r: Self) {
        UnmappedBinary {
            workspace: self.workspace.replicate(),
            binary: self.binary.replicate(),
            source: self.source.replicate(),
        }
    }

    fn same_value(&self, other: &Self) -> (r: bool) {
        self.workspace.same_value(&other.workspace)
            && self.binary.same_value(&other.binary)
            && self.source.same_value(&other.source)
    }
}

impl Ordered for UnmappedBinary {
    open spec fn before(a: UnmappedBinaryModel, b: UnmappedBinaryModel) -> bool {
        <String as Ordered>::before(a.workspace, b.workspace) || (a.workspace == b.workspace && (<String as Ordered>::before(a.binary, b.binary) || (a.binary == b.binary && (<String as Ordered>::before(a.source, b.source)))))
    }

    fn is_before(&self, other: &Self) -> (r: bool) {
        self.workspace.is_before(&other.workspace) || (self.workspace.same_value(&other.workspace) && (self.binary.is_before(&other.binary) || (self.binary.same_value(&other.binary) && (self.source.is_before(&other.source)))))
    }

    proof fn before_irreflexive(a: UnmappedBinaryModel) {
        <String as Ordered>::before_irreflexive(a.workspace);
        <String as Ordered>::before_irreflexive(a.binary);
        <String as Ordered>::before_irreflexive(a.source);
    }

    proof fn before_transitive(
        a: UnmappedBinaryModel,
        b: UnmappedBinaryModel,
        c: UnmappedBinaryModel,
    ) {
        if <String as Ordered>::before(a.workspace, b.workspace) && <String as Ordered>::before(b.workspace, c.workspace) {
            <String as Ordered>::before_transitive(a.workspace, b.workspace, c.workspace);
        }
        if <String as Ordered>::before(a.binary, b.binary) && <String as Ordered>::before(b.binary, c.binary) {
            <String as Ordered>::before_transitive(a.binary, b.binary, c.binary);
        }
        if <String as Ordered>::before(a.source, b.source) && <String as Ordered>::before(b.source, c.source) {
            <String as Ordered>::before_transitive(a.source, b.source, c.source);
        }
    }

    proof fn before_total(a: UnmappedBinaryModel, b: UnmappedBinaryModel) {
        <String as Ordered>::before_total(a.workspace, b.workspace);
        <String as Ordered>::before_total(a.binary, b.binary);
        <String as Ordered>::before_total(a.source, b.source);
    }
}

/// What the dependency rules conclude.
#[derive(Debug, PartialEq, Eq)]
pub struct DependencyAnalysis {
    pub outcomes: Vec<DependencyOutcome>,
    pub unmapped_binaries: Vec<UnmappedBinary>,
}

/// What a [`DependencyAnalysis`] holds.
pub struct DependencyAnalysisModel {
    pub outcomes: Seq<DependencyOutcomeModel>,
    pub unmapped_binaries: Seq<UnmappedBinaryModel>,
}

impl DeepView for DependencyAnalysis {
    type V = DependencyAnalysisModel;

    open spec fn deep_view(&self) -> DependencyAnalysisModel {
        DependencyAnalysisModel {
            outcomes: self.outcomes.deep_view(),
            unmapped_binaries: self.unmapped_binaries.deep_view(),
        }
    }
}

impl Value for DependencyAnalysis {
    fn replicate(&self) -> (r: Self) {
        DependencyAnalysis {
            outcomes: self.outcomes.replicate(),
            unmapped_binaries: self.unmapped_binaries.replicate(),
        }
    }

    fn same_value(&self, other: &Self) -> (r: bool) {
        self.outcomes.same_value(&other.outcomes)
            && self.unmapped_binaries.same_value(&other.unmapped_binaries)
    }
}

/// One entry of a manifest, by the package that it names.
#[derive(Debug, PartialEq, Eq)]
pub struct Declaration {
    pub workspace: String,
    pub package: String,
    pub category: DependencyCategory,
    /// The package behind an `npm:` alias.
    pub alias: Option<String>,
    /// The position of the manifest.
    pub manifest: usize,
}

/// What a [`Declaration`] holds.
pub struct DeclarationModel {
    pub workspace: Seq<char>,
    pub package: Seq<char>,
    pub category: DependencyCategory,
    pub alias: Option<Seq<char>>,
    pub manifest: usize,
}

impl DeepView for Declaration {
    type V = DeclarationModel;

    open spec fn deep_view(&self) -> DeclarationModel {
        DeclarationModel {
            workspace: self.workspace.deep_view(),
            package: self.package.deep_view(),
            category: self.category.deep_view(),
            alias: self.alias.deep_view(),
            manifest: self.manifest.deep_view(),
        }
    }
}

impl Value for Declaration {
    fn replicate(&self) -> (r: Self) {
        Declaration {
            workspace: self.workspace.replicate(),
            package: self.package.replicate(),
            category: self.category.replicate(),
            alias: self.alias.replicate(),
            manifest: self.manifest.replicate(),
        }
    }

    fn same_value(&self, other: &Self) -> (r: bool) {
        self.workspace.same_value(&other.workspace)
            && self.package.same_value(&other.package)
            && self.category.same_value(&other.category)
            && self.alias.same_value(&other.alias)
            && self.manifest.same_value(&other.manifest)
    }
}

/// The declarations of one manifest field.
pub open spec fn field_declarations(
    field: Seq<(Seq<char>, Seq<char>)>,
    workspace: Seq<char>,
    category: DependencyCategory,
    manifest: usize,
) -> Seq<DeclarationModel>
    decreases field.len(),
{
    if field.len() == 0 {
        Seq::empty()
    } else {
        let front = field_declarations(field.drop_last(), workspace, category, manifest);
        match npm_package(field.last().0) {
            Some(package) => front.push(
                DeclarationModel {
                    workspace,
                    package,
                    category,
                    alias: alias_target(field.last().1),
                    manifest,
                },
            ),
            None => front,
        }
    }
}

/// The declarations of one manifest.
pub open spec fn manifest_declarations(
    m: DependencyManifestModel,
    manifest: usize,
) -> Seq<DeclarationModel> {
    field_declarations(m.dependencies, m.workspace, DependencyCategory::Runtime, manifest)
        + field_declarations(
        m.dev_dependencies,
        m.workspace,
        DependencyCategory::Development,
        manifest,
    ) + field_declarations(m.peer_dependencies, m.workspace, DependencyCategory::Peer, manifest)
        + field_declarations(
        m.optional_dependencies,
        m.workspace,
        DependencyCategory::Optional,
        manifest,
    )
}

/// The declarations of all manifests.
pub open spec fn declarations(manifests: Seq<DependencyManifestModel>) -> Seq<DeclarationModel>
    decreases manifests.len(),
{
    if manifests.len() == 0 {
        Seq::empty()
    } else {
        declarations(manifests.drop_last()) + manifest_declarations(
            manifests.last(),
            (manifests.len() - 1) as usize,
        )
    }
}

fn add_category(
    declared: &mut Vec<Declaration>,
    field: &OrderedMap<String, String>,
    workspace: &str,
    category: DependencyCategory,
    manifest: usize,
)
    ensures
        final(declared).deep_view() == old(declared).deep_view() + field_declarations(
            field.deep_view(),
            workspace@,
            category,
            manifest,
        ),
{
    let ghost start = declared.deep_view();
    let ghost entries = field.deep_view();
    let mut i: usize = 0;
    assert(start + field_declarations(entries.take(0), workspace@, category, manifest) =~= start);
    while i < field.entries().len()
        invariant
            i <= field.entries().len(),
            entries == field.deep_view(),
            declared.deep_view() == start + field_declarations(
                entries.take(i as int),
                workspace@,
                category,
                manifest,
            ),
        decreases field.entries().len() - i,
    {
        assert(entries.take(i + 1).drop_last() =~= entries.take(i as int));
        assert(entries.take(i + 1).last() == entries[i as int]);
        assert(entries[i as int] == field.entries()@[i as int].deep_view());
        let entry = &field.entries()[i];
        if let Some(package) = package_name(&entry.0) {
            let declaration = Declaration {
                workspace: workspace.to_owned(),
                package,
                category,
                alias: npm_alias_target(&entry.1),
                manifest,
            };
            push_item(declared, declaration);
        }
        i = i + 1;
        assert(declared.deep_view() =~= start + field_declarations(
            entries.take(i as int),
            workspace@,
            category,
            manifest,
        ));
    }
    assert(entries.take(i as int) =~= entries);
}

fn collect_declarations(manifests: &Vec<DependencyManifest>) -> (r: Vec<Declaration>)
    ensures
        r.deep_view() == declarations(manifests.deep_view()),
{
    let ghost model = manifests.deep_view();
    let mut declared: Vec<Declaration> = Vec::new();
    let mut i: usize = 0;
    assert(declared.deep_view() =~= declarations(model.take(0)));
    while i < manifests.len()
        invariant
            i <= manifests.len(),
            model == manifests.deep_view(),
            declared.deep_view() == declarations(model.take(i as int)),
        decreases manifests.len() - i,
    {
        let ghost front = declared.deep_view();
        assert(model.take(i + 1).drop_last() =~= model.take(i as int));
        assert(model.take(i + 1).last() == model[i as int]);
        let manifest = &manifests[i];
        add_category(
            &mut declared,
            &manifest.dependencies,
            &manifest.workspace,
            DependencyCategory::Runtime,
            i,
        );
        add_category(
            &mut declared,
            &manifest.dev_dependencies,
            &manifest.workspace,
            DependencyCategory::Development,
            i,
        );
        add_category(
            &mut declared,
            &manifest.peer_dependencies,
            &manifest.workspace,
            DependencyCategory::Peer,
            i,
        );
        add_category(
            &mut declared,
            &manifest.optional_dependencies,
            &manifest.workspace,
            DependencyCategory::Optional,
            i,
        );
        assert(declared.deep_view() =~= front + manifest_declarations(model[i as int], i));
        i = i + 1;
    }
    assert(model.take(i as int) =~= model);
    declared
}

/// Whether `d` declares `package` in `workspace`.
pub open spec fn declares(
    d: DeclarationModel,
    workspace: Seq<char>,
    package: Seq<char>,
) -> bool {
    d.workspace == workspace && d.package == package
}

/// Whether `package` is declared in `workspace`.
pub open spec fn is_declared(
    declared: Seq<DeclarationModel>,
    workspace: Seq<char>,
    package: Seq<char>,
) -> bool {
    exists|i: int| 0 <= i < declared.len() && declares(#[trigger] declared[i], workspace, package)
}

/// Whether `package` is declared in `workspace` in this category.
pub open spec fn declared_as(
    declared: Seq<DeclarationModel>,
    workspace: Seq<char>,
    package: Seq<char>,
    category: DependencyCategory,
) -> bool {
    exists|i: int|
        0 <= i < declared.len() && declares(#[trigger] declared[i], workspace, package)
            && declared[i].category == category
}

fn find_declaration(declared: &Vec<Declaration>, workspace: &str, package: &str) -> (r: bool)
    ensures
        r == is_declared(declared.deep_view(), workspace@, package@),
{
    let ghost model = declared.deep_view();
    let mut i: usize = 0;
    while i < declared.len()
        invariant
            i <= declared.len(),
            model == declared.deep_view(),
            forall|j: int| 0 <= j < i ==> !declares(#[trigger] model[j], workspace@, package@),
        decreases declared.len() - i,
    {
        assert(model[i as int] == declared@[i as int].deep_view());
        if same(&declared[i].workspace, workspace) && same(&declared[i].package, package) {
            return true;
        }
        i = i + 1;
    }
    false
}

fn find_category(
    declared: &Vec<Declaration>,
    workspace: &str,
    package: &str,
    category: DependencyCategory,
) -> (r: bool)
    ensures
        r == declared_as(declared.deep_view(), workspace@, package@, category),
{
    let ghost model = declared.deep_view();
    let mut i: usize = 0;
    while i < declared.len()
        invariant
            i <= declared.len(),
            model == declared.deep_view(),
            forall|j: int|
                0 <= j < i ==> !(declares(#[trigger] model[j], workspace@, package@)
                    && model[j].category == category),
        decreases declared.len() - i,
    {
        assert(model[i as int] == declared@[i as int].deep_view());
        if same(&declared[i].workspace, workspace) && same(&declared[i].package, package)
            && declared[i].category == category {
            return true;
        }
        i = i + 1;
    }
    false
}

/// The categories in which `package` is declared, in the order of the type.
pub open spec fn categories_of(
    declared: Seq<DeclarationModel>,
    workspace: Seq<char>,
    package: Seq<char>,
) -> Seq<DependencyCategory> {
    let one = |category: DependencyCategory|
        if declared_as(declared, workspace, package, category) {
            seq![category]
        } else {
            Seq::empty()
        };
    one(DependencyCategory::Runtime) + one(DependencyCategory::Development) + one(
        DependencyCategory::Peer,
    ) + one(DependencyCategory::Optional)
}

fn categories(declared: &Vec<Declaration>, workspace: &str, package: &str) -> (r: Vec<
    DependencyCategory,
>)
    ensures
        r.deep_view() == categories_of(declared.deep_view(), workspace@, package@),
{
    let mut out: Vec<DependencyCategory> = Vec::new();
    assert(out.deep_view() =~= Seq::empty());
    if find_category(declared, workspace, package, DependencyCategory::Runtime) {
        push_item(&mut out, DependencyCategory::Runtime);
    }
    if find_category(declared, workspace, package, DependencyCategory::Development) {
        push_item(&mut out, DependencyCategory::Development);
    }
    if find_category(declared, workspace, package, DependencyCategory::Peer) {
        push_item(&mut out, DependencyCategory::Peer);
    }
    if find_category(declared, workspace, package, DependencyCategory::Optional) {
        push_item(&mut out, DependencyCategory::Optional);
    }
    assert(out.deep_view() =~= categories_of(declared.deep_view(), workspace@, package@));
    out
}

/// Whether `d` declares an alias of `target` in `workspace`.
pub open spec fn aliases(d: DeclarationModel, workspace: Seq<char>, target: Seq<char>) -> bool {
    d.workspace == workspace && d.alias == Some(target)
}

/// Whether `name` is the one package that is declared as an alias of `target`.
pub open spec fn sole_alias(
    declared: Seq<DeclarationModel>,
    workspace: Seq<char>,
    target: Seq<char>,
    name: Seq<char>,
) -> bool {
    &&& exists|i: int|
        0 <= i < declared.len() && aliases(#[trigger] declared[i], workspace, target)
            && declared[i].package == name
    &&& forall|i: int|
        0 <= i < declared.len() && aliases(#[trigger] declared[i], workspace, target)
            ==> declared[i].package == name
}

/// The package by which a workspace knows `target`: the sole alias of an undeclared package, else
/// `target` itself.
pub open spec fn known_as(
    declared: Seq<DeclarationModel>,
    workspace: Seq<char>,
    target: Seq<char>,
) -> Seq<char> {
    if !is_declared(declared, workspace, target) && (exists|name: Seq<char>| #[trigger]
        sole_alias(declared, workspace, target, name)) {
        choose|name: Seq<char>| #[trigger] sole_alias(declared, workspace, target, name)
    } else {
        target
    }
}

fn resolve_alias(declared: &Vec<Declaration>, workspace: &str, target: String) -> (r: String)
    ensures
        r@ == known_as(declared.deep_view(), workspace@, target@),
{
    let ghost model = declared.deep_view();
    if find_declaration(declared, workspace, &target) {
        return target;
    }
    let mut found: Option<String> = None;
    let mut i: usize = 0;
    while i < declared.len()
        invariant
            i <= declared.len(),
            model == declared.deep_view(),
            !is_declared(model, workspace@, target@),
            match found {
                None => forall|j: int|
                    0 <= j < i ==> !aliases(#[trigger] model[j], workspace@, target@),
                Some(name) => {
                    &&& exists|j: int|
                        0 <= j < i && aliases(#[trigger] model[j], workspace@, target@)
                            && model[j].package == name@
                    &&& forall|j: int|
                        0 <= j < i && aliases(#[trigger] model[j], workspace@, target@)
                            ==> model[j].package == name@
                },
            },
        decreases declared.len() - i,
    {
        assert(model[i as int] == declared@[i as int].deep_view());
        let declaration = &declared[i];
        if same(&declaration.workspace, workspace) {
            if let Some(alias) = &declaration.alias {
                if same(alias, &target) {
                    match &found {
                        None => {
                            found = Some(declaration.package.clone());
                        },
                        Some(name) => {
                            if !same(name, &declaration.package) {
                                proof {
                                    let j = choose|j: int|
                                        0 <= j < i && aliases(
                                            #[trigger] model[j],
                                            workspace@,
                                            target@,
                                        ) && model[j].package == name@;
                                    assert(aliases(model[j], workspace@, target@));
                                    assert(aliases(model[i as int], workspace@, target@));
                                    assert(forall|n: Seq<char>|
                                        !#[trigger] sole_alias(model, workspace@, target@, n));
                                }
                                return target;
                            }
                        },
                    }
                }
            }
        }
        i = i + 1;
    }
    match found {
        None => {
            assert(forall|n: Seq<char>| !#[trigger] sole_alias(model, workspace@, target@, n));
            target
        },
        Some(name) => {
            assert(sole_alias(model, workspace@, target@, name@));
            proof {
                let n = choose|n: Seq<char>| #[trigger]
                    sole_alias(model, workspace@, target@, n);
                assert(sole_alias(model, workspace@, target@, n));
                let j = choose|j: int|
                    0 <= j < model.len() && aliases(#[trigger] model[j], workspace@, target@)
                        && model[j].package == n;
                assert(aliases(model[j], workspace@, target@));
            }
            name
        },
    }
}

/// The package that a reachable reference is about.
pub open spec fn evidenced_package(
    e: DependencyEvidenceModel,
    owners: Seq<(Seq<char>, Seq<char>)>,
    declared: Seq<DeclarationModel>,
) -> Option<Seq<char>> {
    if e.kind == DependencyEvidenceKind::Binary {
        match lookup(owners, program_name(e.reference)) {
            None => None,
            Some(owner) => match npm_package(owner) {
                None => None,
                Some(package) => Some(known_as(declared, e.workspace, package)),
            },
        }
    } else {
        npm_package(e.reference)
    }
}

/// Whether `e` names a binary whose owner is not known.
pub open spec fn unowned(e: DependencyEvidenceModel, owners: Seq<(Seq<char>, Seq<char>)>) -> bool {
    &&& e.reachable
    &&& e.kind == DependencyEvidenceKind::Binary
    &&& lookup(owners, program_name(e.reference)) is None
}

/// The reachable references, by package, in the order in which they were given.
pub open spec fn package_references(
    evidence: Seq<DependencyEvidenceModel>,
    owners: Seq<(Seq<char>, Seq<char>)>,
    declared: Seq<DeclarationModel>,
) -> Seq<NormalizedDependencyEvidenceModel>
    decreases evidence.len(),
{
    if evidence.len() == 0 {
        Seq::empty()
    } else {
        let front = package_references(evidence.drop_last(), owners, declared);
        let e = evidence.last();
        match evidenced_package(e, owners, declared) {
            Some(package) => if e.reachable {
                front.push(
                    NormalizedDependencyEvidenceModel {
                        workspace: e.workspace,
                        package,
                        kind: e.kind,
                        scope: e.scope,
                        source: e.source,
                    },
                )
            } else {
                front
            },
            None => front,
        }
    }
}

/// The reachable binaries without a known owner, in the order in which they were given.
pub open spec fn unowned_binaries(
    evidence: Seq<DependencyEvidenceModel>,
    owners: Seq<(Seq<char>, Seq<char>)>,
) -> Seq<UnmappedBinaryModel>
    decreases evidence.len(),
{
    if evidence.len() == 0 {
        Seq::empty()
    } else {
        let front = unowned_binaries(evidence.drop_last(), owners);
        let e = evidence.last();
        if unowned(e, owners) {
            front.push(
                UnmappedBinaryModel {
                    workspace: e.workspace,
                    binary: program_name(e.reference),
                    source: e.source,
                },
            )
        } else {
            front
        }
    }
}

fn normalize_evidence(
    evidence: &Vec<DependencyEvidence>,
    binary_owners: &OrderedMap<String, String>,
    declared: &Vec<Declaration>,
) -> (r: (OrderedSet<NormalizedDependencyEvidence>, OrderedSet<UnmappedBinary>))
    ensures
        r.0.deep_view() == collected::<NormalizedDependencyEvidence>(
            package_references(
                evidence.deep_view(),
                binary_owners.deep_view(),
                declared.deep_view(),
            ),
        ),
        r.1.deep_view() == collected::<UnmappedBinary>(
            unowned_binaries(evidence.deep_view(), binary_owners.deep_view()),
        ),
{
    let ghost model = evidence.deep_view();
    let ghost owners = binary_owners.deep_view();
    let ghost known = declared.deep_view();
    let mut normalized: OrderedSet<NormalizedDependencyEvidence> = OrderedSet::new();
    let mut unmapped: OrderedSet<UnmappedBinary> = OrderedSet::new();
    let mut i: usize = 0;
    while i < evidence.len()
        invariant
            i <= evidence.len(),
            model == evidence.deep_view(),
            owners == binary_owners.deep_view(),
            known == declared.deep_view(),
            normalized.deep_view() == collected::<NormalizedDependencyEvidence>(
                package_references(model.take(i as int), owners, known),
            ),
            unmapped.deep_view() == collected::<UnmappedBinary>(
                unowned_binaries(model.take(i as int), owners),
            ),
        decreases evidence.len() - i,
    {
        proof {
            assert(model.take(i + 1).drop_last() =~= model.take(i as int));
            assert(model.take(i + 1).last() == model[i as int]);
            assert(model[i as int] == evidence@[i as int].deep_view());
            let refs = package_references(model.take(i as int), owners, known);
            let bins = unowned_binaries(model.take(i as int), owners);
            assert forall|x: NormalizedDependencyEvidenceModel| #[trigger]
                refs.push(x).drop_last() == refs by {
                assert(refs.push(x).drop_last() =~= refs);
            }
            assert forall|x: UnmappedBinaryModel| #[trigger] bins.push(x).drop_last() == bins by {
                assert(bins.push(x).drop_last() =~= bins);
            }
        }
        let item = &evidence[i];
        i = i + 1;
        if item.reachable {
            let package = if item.kind == DependencyEvidenceKind::Binary {
                let binary = binary_name(&item.reference);
                match binary_owners.get(&binary) {
                    None => {
                        unmapped.insert(
                            UnmappedBinary {
                                workspace: item.workspace.clone(),
                                binary,
                                source: item.source.clone(),
                            },
                        );
                        None
                    },
                    Some(owner) => match package_name(owner) {
                        None => None,
                        Some(package) => Some(resolve_alias(declared, &item.workspace, package)),
                    },
                }
            } else {
                package_name(&item.reference)
            };
            if let Some(package) = package {
                normalized.insert(
                    NormalizedDependencyEvidence {
                        workspace: item.workspace.clone(),
                        package,
                        kind: item.kind,
                        scope: item.scope,
                        source: item.source.clone(),
                    },
                );
            }
        }
    }
    assert(model.take(i as int) =~= model);
    (normalized, unmapped)
}

/// Whether a manifest bundles `package`, which it or an earlier manifest declares.
pub open spec fn bundles(
    manifests: Seq<DependencyManifestModel>,
    declared: Seq<DeclarationModel>,
    i: int,
    workspace: Seq<char>,
    package: Seq<char>,
) -> bool {
    &&& manifests[i].workspace == workspace
    &&& exists|k: int|
        0 <= k < manifests[i].bundled_dependencies.len() && npm_package(
            #[trigger] manifests[i].bundled_dependencies[k],
        ) == Some(package)
    &&& exists|j: int|
        0 <= j < declared.len() && declares(#[trigger] declared[j], workspace, package)
            && declared[j].manifest <= i
}

/// Whether `package` is bundled in `workspace`.
pub open spec fn is_bundled(
    manifests: Seq<DependencyManifestModel>,
    workspace: Seq<char>,
    package: Seq<char>,
) -> bool {
    exists|i: int|
        0 <= i < manifests.len() && #[trigger] bundles(
            manifests,
            declarations(manifests),
            i,
            workspace,
            package,
        )
}

fn names_package(names: &OrderedSet<String>, package: &str) -> (r: bool)
    ensures
        r == (exists|k: int|
            0 <= k < names.deep_view().len() && npm_package(#[trigger] names.deep_view()[k])
                == Some(package@)),
{
    let ghost model = names.deep_view();
    let mut k: usize = 0;
    while k < names.items().len()
        invariant
            k <= names.items().len(),
            model == names.deep_view(),
            forall|j: int| 0 <= j < k ==> npm_package(#[trigger] model[j]) != Some(package@),
        decreases names.items().len() - k,
    {
        assert(model[k as int] == names.items()@[k as int]@);
        if let Some(name) = package_name(&names.items()[k]) {
            if same(&name, package) {
                return true;
            }
        }
        k = k + 1;
    }
    false
}

fn declared_by(
    declared: &Vec<Declaration>,
    workspace: &str,
    package: &str,
    manifest: usize,
) -> (r: bool)
    ensures
        r == (exists|j: int|
            0 <= j < declared.deep_view().len() && declares(
                #[trigger] declared.deep_view()[j],
                workspace@,
                package@,
            ) && declared.deep_view()[j].manifest <= manifest),
{
    let ghost model = declared.deep_view();
    let mut i: usize = 0;
    while i < declared.len()
        invariant
            i <= declared.len(),
            model == declared.deep_view(),
            forall|j: int|
                0 <= j < i ==> !(declares(#[trigger] model[j], workspace@, package@)
                    && model[j].manifest <= manifest),
        decreases declared.len() - i,
    {
        assert(model[i as int] == declared@[i as int].deep_view());
        if same(&declared[i].workspace, workspace) && same(&declared[i].package, package)
            && declared[i].manifest <= manifest {
            return true;
        }
        i = i + 1;
    }
    false
}

fn find_bundled(
    manifests: &Vec<DependencyManifest>,
    declared: &Vec<Declaration>,
    workspace: &str,
    package: &str,
) -> (r: bool)
    requires
        declared.deep_view() == declarations(manifests.deep_view()),
    ensures
        r == is_bundled(manifests.deep_view(), workspace@, package@),
{
    let ghost model = manifests.deep_view();
    let ghost known = declared.deep_view();
    let mut i: usize = 0;
    while i < manifests.len()
        invariant
            i <= manifests.len(),
            model == manifests.deep_view(),
            known == declared.deep_view(),
            known == declarations(model),
            forall|j: int|
                0 <= j < i ==> !#[trigger] bundles(model, known, j, workspace@, package@),
        decreases manifests.len() - i,
    {
        assert(model[i as int] == manifests@[i as int].deep_view());
        if same(&manifests[i].workspace, workspace) && names_package(
            &manifests[i].bundled_dependencies,
            package,
        ) && declared_by(declared, workspace, package, i) {
            assert(bundles(model, known, i as int, workspace@, package@));
            return true;
        }
        i = i + 1;
    }
    false
}

/// The blocked package of a blocker, normalized; `None` when it names no package.
pub open spec fn blocked_package(package: Option<Seq<char>>) -> Option<Option<Seq<char>>> {
    match package {
        None => Some(None),
        Some(name) => match npm_package(name) {
            Some(normal) => Some(Some(normal)),
            None => None,
        },
    }
}

/// The blockers of one workspace, in the order in which they were given.
pub open spec fn stated_blockers(
    blockers: Seq<DependencyBlockerModel>,
    workspace: Seq<char>,
) -> Seq<(Option<Seq<char>>, Seq<char>)>
    decreases blockers.len(),
{
    if blockers.len() == 0 {
        Seq::empty()
    } else {
        let front = stated_blockers(blockers.drop_last(), workspace);
        let b = blockers.last();
        match blocked_package(b.package) {
            Some(package) => if b.workspace == workspace {
                front.push((package, b.reason))
            } else {
                front
            },
            None => front,
        }
    }
}

/// Why a binary without a known owner blocks conclusions.
pub open spec fn unmapped_reason(u: UnmappedBinaryModel) -> Seq<char> {
    "reachable binary `"@ + u.binary + "` could not be mapped to an owning package ("@ + u.source
        + ")"@
}

/// The blockers of one workspace that come from binaries without a known owner.
pub open spec fn binary_blockers(
    unmapped: Seq<UnmappedBinaryModel>,
    workspace: Seq<char>,
) -> Seq<(Option<Seq<char>>, Seq<char>)>
    decreases unmapped.len(),
{
    if unmapped.len() == 0 {
        Seq::empty()
    } else {
        let front = binary_blockers(unmapped.drop_last(), workspace);
        if unmapped.last().workspace == workspace {
            front.push((None, unmapped_reason(unmapped.last())))
        } else {
            front
        }
    }
}

/// All blockers of one workspace, in order and each once.
pub open spec fn workspace_blockers(
    blockers: Seq<DependencyBlockerModel>,
    unmapped: Seq<UnmappedBinaryModel>,
    workspace: Seq<char>,
) -> Seq<(Option<Seq<char>>, Seq<char>)> {
    collected::<(Option<String>, String)>(
        stated_blockers(blockers, workspace) + binary_blockers(unmapped, workspace),
    )
}

fn normalize_blockers(
    blockers: &Vec<DependencyBlocker>,
    unmapped: &Vec<UnmappedBinary>,
    workspace: &str,
) -> (r: OrderedSet<(Option<String>, String)>)
    ensures
        r.deep_view() == workspace_blockers(
            blockers.deep_view(),
            unmapped.deep_view(),
            workspace@,
        ),
{
    let ghost stated = blockers.deep_view();
    let ghost binaries = unmapped.deep_view();
    let mut all: Vec<(Option<String>, String)> = Vec::new();
    assert(all.deep_view() =~= Seq::empty());
    let mut i: usize = 0;
    while i < blockers.len()
        invariant
            i <= blockers.len(),
            stated == blockers.deep_view(),
            all.deep_view() == stated_blockers(stated.take(i as int), workspace@),
        decreases blockers.len() - i,
    {
        assert(stated.take(i + 1).drop_last() =~= stated.take(i as int));
        assert(stated.take(i + 1).last() == stated[i as int]);
        assert(stated[i as int] == blockers@[i as int].deep_view());
        let blocker = &blockers[i];
        i = i + 1;
        if same(&blocker.workspace, workspace) {
            match &blocker.package {
                None => push_item(&mut all, (None, blocker.reason.clone())),
                Some(name) => if let Some(package) = package_name(name) {
                    push_item(&mut all, (Some(package), blocker.reason.clone()));
                },
            }
        }
    }
    assert(stated.take(i as int) =~= stated);
    let ghost first = all.deep_view();
    let mut j: usize = 0;
    assert(first + binary_blockers(binaries.take(0), workspace@) =~= first);
    while j < unmapped.len()
        invariant
            j <= unmapped.len(),
            binaries == unmapped.deep_view(),
            all.deep_view() == first + binary_blockers(binaries.take(j as int), workspace@),
        decreases unmapped.len() - j,
    {
        assert(binaries.take(j + 1).drop_last() =~= binaries.take(j as int));
        assert(binaries.take(j + 1).last() == binaries[j as int]);
        assert(binaries[j as int] == unmapped@[j as int].deep_view());
        let binary = &unmapped[j];
        if same(&binary.workspace, workspace) {
            let reason = concat5(
                "reachable binary `",
                &binary.binary,
                "` could not be mapped to an owning package (",
                &binary.source,
                ")",
            );
            push_item(&mut all, (None, reason));
        }
        j = j + 1;
        assert(all.deep_view() =~= first + binary_blockers(binaries.take(j as int), workspace@));
    }
    assert(binaries.take(j as int) =~= binaries);
    OrderedSet::from_items(all)
}

/// The reasons among `blockers` that concern `package`.
pub open spec fn reasons_for(
    blockers: Seq<(Option<Seq<char>>, Seq<char>)>,
    package: Seq<char>,
) -> Seq<Seq<char>>
    decreases blockers.len(),
{
    if blockers.len() == 0 {
        Seq::empty()
    } else {
        let front = reasons_for(blockers.drop_last(), package);
        if blockers.last().0 is None || blockers.last().0 == Some(package) {
            front.push(blockers.last().1)
        } else {
            front
        }
    }
}

fn matching_blockers(blockers: &OrderedSet<(Option<String>, String)>, package: &str) -> (r: Vec<
    String,
>)
    ensures
        r.deep_view() == reasons_for(blockers.deep_view(), package@),
{
    let ghost model = blockers.deep_view();
    let mut out: Vec<String> = Vec::new();
    assert(out.deep_view() =~= Seq::empty());
    let mut i: usize = 0;
    while i < blockers.items().len()
        invariant
            i <= blockers.items().len(),
            model == blockers.deep_view(),
            out.deep_view() == reasons_for(model.take(i as int), package@),
        decreases blockers.items().len() - i,
    {
        assert(model.take(i + 1).drop_last() =~= model.take(i as int));
        assert(model.take(i + 1).last() == model[i as int]);
        assert(model[i as int] == blockers.items()@[i as int].deep_view());
        let concerned = match &blockers.items()[i].0 {
            None => true,
            Some(name) => same(name, package),
        };
        if concerned {
            push_item(&mut out, blockers.items()[i].1.clone());
        }
        i = i + 1;
    }
    assert(model.take(i as int) =~= model);
    out
}

/// The references among `evidence` to `package` in `workspace`.
pub open spec fn references_to(
    evidence: Seq<NormalizedDependencyEvidenceModel>,
    workspace: Seq<char>,
    package: Seq<char>,
) -> Seq<NormalizedDependencyEvidenceModel>
    decreases evidence.len(),
{
    if evidence.len() == 0 {
        Seq::empty()
    } else {
        let front = references_to(evidence.drop_last(), workspace, package);
        if evidence.last().workspace == workspace && evidence.last().package == package {
            front.push(evidence.last())
        } else {
            front
        }
    }
}

fn group_evidence(
    evidence: &OrderedSet<NormalizedDependencyEvidence>,
    workspace: &str,
    package: &str,
) -> (r: Vec<NormalizedDependencyEvidence>)
    ensures
        r.deep_view() == references_to(evidence.deep_view(), workspace@, package@),
{
    let ghost model = evidence.deep_view();
    let mut out: Vec<NormalizedDependencyEvidence> = Vec::new();
    assert(out.deep_view() =~= Seq::empty());
    let mut i: usize = 0;
    while i < evidence.items().len()
        invariant
            i <= evidence.items().len(),
            model == evidence.deep_view(),
            out.deep_view() == references_to(model.take(i as int), workspace@, package@),
        decreases evidence.items().len() - i,
    {
        assert(model.take(i + 1).drop_last() =~= model.take(i as int));
        assert(model.take(i + 1).last() == model[i as int]);
        assert(model[i as int] == evidence.items()@[i as int].deep_view());
        let item = &evidence.items()[i];
        if same(&item.workspace, workspace) && same(&item.package, package) {
            push_item(&mut out, item.replicate());
        }
        i = i + 1;
    }
    assert(model.take(i as int) =~= model);
    out
}

/// The conclusion on a declared package: references retain it, blockers leave it open, and
/// otherwise its category decides.
pub open spec fn declared_conclusion(
    categories: Seq<DependencyCategory>,
    referenced: bool,
    blocked: bool,
) -> (DependencyOutcomeKind, DependencyConfidence) {
    if referenced {
        (DependencyOutcomeKind::Retained, DependencyConfidence::NotApplicable)
    } else if blocked {
        (DependencyOutcomeKind::Undetermined, DependencyConfidence::NotApplicable)
    } else if categories.contains(DependencyCategory::Peer) {
        (DependencyOutcomeKind::UnreferencedPeer, DependencyConfidence::Medium)
    } else if categories.contains(DependencyCategory::Optional) {
        (DependencyOutcomeKind::UnreferencedOptional, DependencyConfidence::Medium)
    } else {
        (DependencyOutcomeKind::Unused, DependencyConfidence::High)
    }
}

fn holds_category(categories: &Vec<DependencyCategory>, category: DependencyCategory) -> (r: bool)
    ensures
        r == categories.deep_view().contains(category),
{
    let mut i: usize = 0;
    while i < categories.len()
        invariant
            i <= categories.len(),
            forall|j: int| 0 <= j < i ==> categories.deep_view()[j] != category,
        decreases categories.len() - i,
    {
        if categories[i] == category {
            assert(categories.deep_view()[i as int] == category);
            return true;
        }
        i = i + 1;
    }
    false
}

fn declaration_outcome(
    categories: &Vec<DependencyCategory>,
    evidence: &Vec<NormalizedDependencyEvidence>,
    blockers: &Vec<String>,
) -> (r: (DependencyOutcomeKind, DependencyConfidence))
    ensures
        r == declared_conclusion(
            categories.deep_view(),
            evidence.deep_view().len() > 0,
            blockers.deep_view().len() > 0,
        ),
{
    if evidence.len() > 0 {
        return (DependencyOutcomeKind::Retained, DependencyConfidence::NotApplicable);
    }
    if blockers.len() > 0 {
        return (DependencyOutcomeKind::Undetermined, DependencyConfidence::NotApplicable);
    }
    if holds_category(categories, DependencyCategory::Peer) {
        return (DependencyOutcomeKind::UnreferencedPeer, DependencyConfidence::Medium);
    }
    if holds_category(categories, DependencyCategory::Optional) {
        return (DependencyOutcomeKind::UnreferencedOptional, DependencyConfidence::Medium);
    }
    (DependencyOutcomeKind::Unused, DependencyConfidence::High)
}

/// The reference that bundling is.
pub open spec fn bundling(
    workspace: Seq<char>,
    package: Seq<char>,
) -> NormalizedDependencyEvidenceModel {
    NormalizedDependencyEvidenceModel {
        workspace,
        package,
        kind: DependencyEvidenceKind::Bundled,
        scope: DependencyEvidenceScope::Runtime,
        source: "package.json bundled dependencies"@,
    }
}

/// All reachable references, by package, in order and each once.
pub open spec fn all_references(
    input: DependencyAnalysisInputModel,
) -> Seq<NormalizedDependencyEvidenceModel> {
    collected::<NormalizedDependencyEvidence>(
        package_references(input.evidence, input.binary_owners, declarations(input.manifests)),
    )
}

/// The reachable binaries without a known owner, in order and each once.
pub open spec fn all_unmapped(input: DependencyAnalysisInputModel) -> Seq<UnmappedBinaryModel> {
    collected::<UnmappedBinary>(unowned_binaries(input.evidence, input.binary_owners))
}

/// What retains a declared package.
pub open spec fn retaining_references(
    input: DependencyAnalysisInputModel,
    workspace: Seq<char>,
    package: Seq<char>,
) -> Seq<NormalizedDependencyEvidenceModel> {
    let found = references_to(all_references(input), workspace, package);
    if is_bundled(input.manifests, workspace, package) {
        collected::<NormalizedDependencyEvidence>(found.push(bundling(workspace, package)))
    } else {
        collected::<NormalizedDependencyEvidence>(found)
    }
}

/// The outcome for a package that its workspace declares.
pub open spec fn declared_outcome(
    input: DependencyAnalysisInputModel,
    workspace: Seq<char>,
    package: Seq<char>,
) -> DependencyOutcomeModel {
    let declared = declarations(input.manifests);
    let categories = categories_of(declared, workspace, package);
    let evidence = retaining_references(input, workspace, package);
    let blockers = reasons_for(
        workspace_blockers(input.blockers, all_unmapped(input), workspace),
        package,
    );
    let (kind, confidence) = declared_conclusion(categories, evidence.len() > 0, blockers.len() > 0);
    DependencyOutcomeModel {
        workspace,
        package,
        declared_workspace: Some(workspace),
        categories,
        kind,
        confidence,
        evidence,
        blockers,
    }
}

/// The outcome for a package that its workspace uses and does not declare.
pub open spec fn undeclared_outcome(
    input: DependencyAnalysisInputModel,
    workspace: Seq<char>,
    package: Seq<char>,
) -> DependencyOutcomeModel {
    let declared = declarations(input.manifests);
    let misplaced = workspace != input.root_workspace && is_declared(
        declared,
        input.root_workspace,
        package,
    );
    DependencyOutcomeModel {
        workspace,
        package,
        declared_workspace: if misplaced {
            Some(input.root_workspace)
        } else {
            None
        },
        categories: if misplaced {
            categories_of(declared, input.root_workspace, package)
        } else {
            Seq::empty()
        },
        kind: if misplaced {
            DependencyOutcomeKind::Misplaced
        } else {
            DependencyOutcomeKind::Unlisted
        },
        confidence: DependencyConfidence::High,
        evidence: references_to(all_references(input), workspace, package),
        blockers: Seq::empty(),
    }
}

/// The outcome for one package in one workspace.
pub open spec fn outcome_for(
    input: DependencyAnalysisInputModel,
    workspace: Seq<char>,
    package: Seq<char>,
) -> DependencyOutcomeModel {
    if is_declared(declarations(input.manifests), workspace, package) {
        declared_outcome(input, workspace, package)
    } else {
        undeclared_outcome(input, workspace, package)
    }
}

/// Workspace and package of each declaration.
pub open spec fn declared_pairs(declared: Seq<DeclarationModel>) -> Seq<(Seq<char>, Seq<char>)> {
    declared.map_values(|d: DeclarationModel| (d.workspace, d.package))
}

/// Workspace and package of each reference.
pub open spec fn referenced_pairs(
    evidence: Seq<NormalizedDependencyEvidenceModel>,
) -> Seq<(Seq<char>, Seq<char>)> {
    evidence.map_values(|e: NormalizedDependencyEvidenceModel| (e.workspace, e.package))
}

/// The pairs of workspace and package that are declared or referenced, in order and each once.
pub open spec fn concerned_pairs(
    input: DependencyAnalysisInputModel,
) -> Seq<(Seq<char>, Seq<char>)> {
    collected::<(String, String)>(
        declared_pairs(declarations(input.manifests)) + referenced_pairs(all_references(input)),
    )
}

/// What the rules conclude: one outcome for each declared or referenced package of a workspace, in
/// the order of workspace and package.
pub open spec fn dependency_analysis(
    input: DependencyAnalysisInputModel,
) -> DependencyAnalysisModel {
    DependencyAnalysisModel {
        outcomes: concerned_pairs(input).map_values(
            |p: (Seq<char>, Seq<char>)| outcome_for(input, p.0, p.1),
        ),
        unmapped_binaries: all_unmapped(input),
    }
}

fn collect_pairs(
    declared: &Vec<Declaration>,
    references: &OrderedSet<NormalizedDependencyEvidence>,
) -> (r: OrderedSet<(String, String)>)
    ensures
        r.deep_view() == collected::<(String, String)>(
            declared_pairs(declared.deep_view()) + referenced_pairs(references.deep_view()),
        ),
{
    let ghost first = declared_pairs(declared.deep_view());
    let ghost second = referenced_pairs(references.deep_view());
    let mut all: Vec<(String, String)> = Vec::new();
    let mut i: usize = 0;
    assert(all.deep_view() =~= first.take(0));
    while i < declared.len()
        invariant
            i <= declared.len(),
            first == declared_pairs(declared.deep_view()),
            all.deep_view() == first.take(i as int),
        decreases declared.len() - i,
    {
        push_item(&mut all, (declared[i].workspace.clone(), declared[i].package.clone()));
        i = i + 1;
        assert(all.deep_view() =~= first.take(i as int));
    }
    assert(first.take(i as int) =~= first);
    let mut j: usize = 0;
    assert(all.deep_view() =~= first + second.take(0));
    while j < references.items().len()
        invariant
            j <= references.items().len(),
            second == referenced_pairs(references.deep_view()),
            all.deep_view() == first + second.take(j as int),
        decreases references.items().len() - j,
    {
        let item = &references.items()[j];
        push_item(&mut all, (item.workspace.clone(), item.package.clone()));
        j = j + 1;
        assert(all.deep_view() =~= first + second.take(j as int));
    }
    assert(second.take(j as int) =~= second);
    OrderedSet::from_items(all)
}

/// Classifies declared packages and reachable evidence without resolving or
/// executing project code.
///
/// A child-workspace reference satisfied only by the root manifest is reported
/// as misplaced. Unreachable evidence never retains a declaration. A blocker
/// changes an otherwise-unused result to `Undetermined`.
#[must_use]
pub fn analyze_dependencies(input: DependencyAnalysisInput<'_>) -> (r: DependencyAnalysis)
    ensures
        r.deep_view() == dependency_analysis(input.deep_view()),
{
    let ghost model = input.deep_view();
    let declared = collect_declarations(input.manifests);
    let (references, unmapped) = normalize_evidence(
        input.evidence,
        input.binary_owners,
        &declared,
    );
    let pairs = collect_pairs(&declared, &references);
    let ghost expected = dependency_analysis(model).outcomes;
    let mut outcomes: Vec<DependencyOutcome> = Vec::new();
    let mut i: usize = 0;
    assert(outcomes.deep_view() =~= expected.take(0));
    while i < pairs.items().len()
        invariant
            i <= pairs.items().len(),
            model == input.deep_view(),
            declared.deep_view() == declarations(model.manifests),
            references.deep_view() == all_references(model),
            unmapped.deep_view() == all_unmapped(model),
            pairs.deep_view() == concerned_pairs(model),
            expected == dependency_analysis(model).outcomes,
            outcomes.deep_view() == expected.take(i as int),
        decreases pairs.items().len() - i,
    {
        assert(concerned_pairs(model)[i as int] == pairs.items()@[i as int].deep_view());
        let workspace = &pairs.items()[i].0;
        let package = &pairs.items()[i].1;
        let found = group_evidence(&references, workspace, package);
        let outcome = if find_declaration(&declared, workspace, package) {
            let mut evidence = found;
            if find_bundled(input.manifests, &declared, workspace, package) {
                push_item(
                    &mut evidence,
                    NormalizedDependencyEvidence {
                        workspace: workspace.clone(),
                        package: package.clone(),
                        kind: DependencyEvidenceKind::Bundled,
                        scope: DependencyEvidenceScope::Runtime,
                        source: "package.json bundled dependencies".to_owned(),
                    },
                );
            }
            let evidence = OrderedSet::from_items(evidence).into_items();
            let relevant = normalize_blockers(input.blockers, unmapped.items(), workspace);
            let blockers = matching_blockers(&relevant, package);
            let categories = categories(&declared, workspace, package);
            let (kind, confidence) = declaration_outcome(&categories, &evidence, &blockers);
            DependencyOutcome {
                workspace: workspace.clone(),
                package: package.clone(),
                declared_workspace: Some(workspace.clone()),
                categories,
                kind,
                confidence,
                evidence,
                blockers,
            }
        } else {
            let misplaced = !same(workspace, input.root_workspace) && find_declaration(
                &declared,
                input.root_workspace,
                package,
            );
            let none: Vec<DependencyCategory> = Vec::new();
            let blockers: Vec<String> = Vec::new();
            assert(none.deep_view() =~= Seq::empty());
            assert(blockers.deep_view() =~= Seq::empty());
            DependencyOutcome {
                workspace: workspace.clone(),
                package: package.clone(),
                declared_workspace: if misplaced {
                    Some(input.root_workspace.to_owned())
                } else {
                    None
                },
                categories: if misplaced {
                    categories(&declared, input.root_workspace, package)
                } else {
                    none
                },
                kind: if misplaced {
                    DependencyOutcomeKind::Misplaced
                } else {
                    DependencyOutcomeKind::Unlisted
                },
                confidence: DependencyConfidence::High,
                evidence: found,
                blockers,
            }
        };
        assert(outcome.deep_view() == outcome_for(model, workspace@, package@));
        push_item(&mut outcomes, outcome);
        i = i + 1;
        assert(outcomes.deep_view() =~= expected.take(i as int));
    }
    assert(expected.take(i as int) =~= expected);
    DependencyAnalysis { outcomes, unmapped_binaries: unmapped.into_items() }
}

/// Evidence that is not reachable changes nothing.
pub proof fn unreachable_evidence_never_retains(
    input: DependencyAnalysisInputModel,
    before: Seq<DependencyEvidenceModel>,
    e: DependencyEvidenceModel,
    after: Seq<DependencyEvidenceModel>,
)
    requires
        !e.reachable,
    ensures
        dependency_analysis(
            DependencyAnalysisInputModel { evidence: before.push(e) + after, ..input },
        ) == dependency_analysis(
            DependencyAnalysisInputModel { evidence: before + after, ..input },
        ),
{
    let declared = declarations(input.manifests);
    references_skip_unreachable(before, e, after, input.binary_owners, declared);
    let with = DependencyAnalysisInputModel { evidence: before.push(e) + after, ..input };
    let without = DependencyAnalysisInputModel { evidence: before + after, ..input };
    assert(all_references(with) == all_references(without));
    assert(all_unmapped(with) == all_unmapped(without));
    assert(concerned_pairs(with) == concerned_pairs(without));
    assert forall|w: Seq<char>, p: Seq<char>| #[trigger]
        outcome_for(with, w, p) == outcome_for(without, w, p) by {}
    assert(dependency_analysis(with).outcomes =~= dependency_analysis(without).outcomes);
}

proof fn references_skip_unreachable(
    before: Seq<DependencyEvidenceModel>,
    e: DependencyEvidenceModel,
    after: Seq<DependencyEvidenceModel>,
    owners: Seq<(Seq<char>, Seq<char>)>,
    declared: Seq<DeclarationModel>,
)
    requires
        !e.reachable,
    ensures
        package_references(before.push(e) + after, owners, declared) == package_references(
            before + after,
            owners,
            declared,
        ),
        unowned_binaries(before.push(e) + after, owners) == unowned_binaries(before + after, owners),
    decreases after.len(),
{
    if after.len() == 0 {
        assert(before.push(e) + after =~= before.push(e));
        assert(before.push(e).drop_last() =~= before);
        assert(before + after =~= before);
    } else {
        references_skip_unreachable(before, e, after.drop_last(), owners, declared);
        assert((before.push(e) + after).drop_last() =~= before.push(e) + after.drop_last());
        assert((before + after).drop_last() =~= before + after.drop_last());
    }
}

/// The outcomes stand in the order of workspace and package, and there is one for each package
/// that a workspace declares or reachably references, and for no other.
pub proof fn outcomes_are_ordered_and_complete(input: DependencyAnalysisInputModel)
    ensures
        ({
            let outcomes = dependency_analysis(input).outcomes;
            &&& forall|i: int, j: int|
                0 <= i < j < outcomes.len() ==> <(String, String) as Ordered>::before(
                    ((#[trigger] outcomes[i]).workspace, outcomes[i].package),
                    ((#[trigger] outcomes[j]).workspace, outcomes[j].package),
                )
            &&& forall|w: Seq<char>, p: Seq<char>|
                is_declared(declarations(input.manifests), w, p) || references_to(
                    all_references(input),
                    w,
                    p,
                ).len() > 0 <==> outcomes.contains(#[trigger] outcome_for(input, w, p))
        }),
{
    let outcomes = dependency_analysis(input).outcomes;
    let pairs = concerned_pairs(input);
    let declared = declarations(input.manifests);
    let refs = all_references(input);
    let listed = declared_pairs(declared) + referenced_pairs(refs);
    collected_is_ordered::<(String, String)>(listed);
    assert forall|i: int, j: int| 0 <= i < j < outcomes.len() implies <(
        String,
        String,
    ) as Ordered>::before(
        ((#[trigger] outcomes[i]).workspace, outcomes[i].package),
        ((#[trigger] outcomes[j]).workspace, outcomes[j].package),
    ) by {
        assert(outcomes[i] == outcome_for(input, pairs[i].0, pairs[i].1));
        assert(outcomes[j] == outcome_for(input, pairs[j].0, pairs[j].1));
        assert(<(String, String) as Ordered>::before(pairs[i], pairs[j]));
    }
    assert forall|w: Seq<char>, p: Seq<char>|
        is_declared(declared, w, p) || references_to(refs, w, p).len() > 0 <==> outcomes.contains(
            #[trigger] outcome_for(input, w, p),
        ) by {
        referenced_pair_is_listed(refs, w, p);
        if is_declared(declared, w, p) {
            let k = choose|k: int| 0 <= k < declared.len() && declares(#[trigger] declared[k], w, p);
            assert(listed[k] == (w, p));
            assert(listed.contains((w, p)));
        } else if references_to(refs, w, p).len() > 0 {
            let k = choose|k: int|
                0 <= k < refs.len() && (#[trigger] refs[k]).workspace == w && refs[k].package == p;
            assert(listed[declared.len() + k] == (w, p));
            assert(listed.contains((w, p)));
        }
        if listed.contains((w, p)) {
            assert(pairs.contains((w, p)));
            let k = choose|k: int| 0 <= k < pairs.len() && pairs[k] == (w, p);
            assert(outcomes[k] == outcome_for(input, w, p));
        }
        if outcomes.contains(outcome_for(input, w, p)) {
            let k = choose|k: int| 0 <= k < outcomes.len() && outcomes[k] == outcome_for(input, w, p);
            assert(outcomes[k] == outcome_for(input, pairs[k].0, pairs[k].1));
            assert(pairs[k] == (w, p));
            assert(pairs.contains((w, p)));
            let m = choose|m: int| 0 <= m < listed.len() && listed[m] == (w, p);
            if m < declared.len() {
                assert(declares(declared[m], w, p));
            } else {
                assert(refs[m - declared.len()].workspace == w);
            }
        }
    }
}

/// References to a package exist exactly when one of the references names it.
pub proof fn referenced_pair_is_listed(
    refs: Seq<NormalizedDependencyEvidenceModel>,
    workspace: Seq<char>,
    package: Seq<char>,
)
    ensures
        references_to(refs, workspace, package).len() > 0 <==> exists|k: int|
            0 <= k < refs.len() && (#[trigger] refs[k]).workspace == workspace && refs[k].package
                == package,
    decreases refs.len(),
{
    if refs.len() > 0 {
        let front = refs.drop_last();
        referenced_pair_is_listed(front, workspace, package);
        if refs.last().workspace == workspace && refs.last().package == package {
            assert(refs[refs.len() - 1].workspace == workspace);
        } else {
            if references_to(front, workspace, package).len() > 0 {
                let k = choose|k: int|
                    0 <= k < front.len() && (#[trigger] front[k]).workspace == workspace
                        && front[k].package == package;
                assert(refs[k].workspace == workspace);
            }
            if exists|k: int|
                0 <= k < refs.len() && (#[trigger] refs[k]).workspace == workspace
                    && refs[k].package == package {
                let k = choose|k: int|
                    0 <= k < refs.len() && (#[trigger] refs[k]).workspace == workspace
                        && refs[k].package == package;
                assert(front[k].workspace == workspace);
            }
        }
    }
}

/// A declared package without references is never reported as unused while a blocker concerns it:
/// the result is left open.
pub proof fn a_blocker_leaves_the_result_open(
    input: DependencyAnalysisInputModel,
    workspace: Seq<char>,
    package: Seq<char>,
)
    requires
        is_declared(declarations(input.manifests), workspace, package),
        retaining_references(input, workspace, package).len() == 0,
        reasons_for(
            workspace_blockers(input.blockers, all_unmapped(input), workspace),
            package,
        ).len() > 0,
    ensures
        outcome_for(input, workspace, package).kind == DependencyOutcomeKind::Undetermined,
{
}

/// A declared package is retained exactly when something reachable refers to it or it is bundled.
pub proof fn references_retain(
    input: DependencyAnalysisInputModel,
    workspace: Seq<char>,
    package: Seq<char>,
)
    requires
        is_declared(declarations(input.manifests), workspace, package),
    ensures
        outcome_for(input, workspace, package).kind == DependencyOutcomeKind::Retained <==> (
        references_to(all_references(input), workspace, package).len() > 0 || is_bundled(
            input.manifests,
            workspace,
            package,
        )),
{
    let found = references_to(all_references(input), workspace, package);
    let all = if is_bundled(input.manifests, workspace, package) {
        found.push(bundling(workspace, package))
    } else {
        found
    };
    collected_is_ordered::<NormalizedDependencyEvidence>(all);
    if all.len() > 0 {
        assert(all.contains(all[0]));
        assert(collected::<NormalizedDependencyEvidence>(all).contains(all[0]));
    }
}

/// A reference in a child workspace that only the root manifest declares is misplaced, and is no
/// use of the root declaration.
pub proof fn root_declarations_do_not_serve_children(
    input: DependencyAnalysisInputModel,
    workspace: Seq<char>,
    package: Seq<char>,
)
    requires
        workspace != input.root_workspace,
        !is_declared(declarations(input.manifests), workspace, package),
        is_declared(declarations(input.manifests), input.root_workspace, package),
        references_to(all_references(input), workspace, package).len() > 0,
    ensures
        outcome_for(input, workspace, package).kind == DependencyOutcomeKind::Misplaced,
        outcome_for(input, workspace, package).declared_workspace == Some(input.root_workspace),
        dependency_analysis(input).outcomes.contains(outcome_for(input, workspace, package)),
        references_to(all_references(input), input.root_workspace, package).len() == 0
            && !is_bundled(input.manifests, input.root_workspace, package) ==> outcome_for(
            input,
            input.root_workspace,
            package,
        ).kind != DependencyOutcomeKind::Retained,
{
    outcomes_are_ordered_and_complete(input);
    references_retain(input, input.root_workspace, package);
}

/// The reference that a piece of evidence is.
pub open spec fn reference_of(
    e: DependencyEvidenceModel,
    owners: Seq<(Seq<char>, Seq<char>)>,
    declared: Seq<DeclarationModel>,
) -> Option<NormalizedDependencyEvidenceModel> {
    match evidenced_package(e, owners, declared) {
        Some(package) => if e.reachable {
            Some(
                NormalizedDependencyEvidenceModel {
                    workspace: e.workspace,
                    package,
                    kind: e.kind,
                    scope: e.scope,
                    source: e.source,
                },
            )
        } else {
            None
        },
        None => None,
    }
}

/// The binary without a known owner that a piece of evidence names.
pub open spec fn binary_of(
    e: DependencyEvidenceModel,
    owners: Seq<(Seq<char>, Seq<char>)>,
) -> Option<UnmappedBinaryModel> {
    if unowned(e, owners) {
        Some(
            UnmappedBinaryModel {
                workspace: e.workspace,
                binary: program_name(e.reference),
                source: e.source,
            },
        )
    } else {
        None
    }
}

pub(crate) proof fn references_are_those_given(
    evidence: Seq<DependencyEvidenceModel>,
    owners: Seq<(Seq<char>, Seq<char>)>,
    declared: Seq<DeclarationModel>,
    r: NormalizedDependencyEvidenceModel,
)
    ensures
        package_references(evidence, owners, declared).contains(r) <==> exists|k: int|
            0 <= k < evidence.len() && reference_of(#[trigger] evidence[k], owners, declared)
                == Some(r),
    decreases evidence.len(),
{
    let all = package_references(evidence, owners, declared);
    if evidence.len() > 0 {
        let rest = evidence.drop_last();
        let front = package_references(rest, owners, declared);
        references_are_those_given(rest, owners, declared, r);
        if all.contains(r) {
            let i = choose|i: int| 0 <= i < all.len() && all[i] == r;
            if i < front.len() {
                assert(front[i] == r);
                assert(front.contains(r));
                let k = choose|k: int|
                    0 <= k < rest.len() && reference_of(#[trigger] rest[k], owners, declared)
                        == Some(r);
                assert(evidence[k] == rest[k]);
            } else {
                let k = evidence.len() - 1;
                assert(reference_of(evidence[k], owners, declared) == Some(r));
            }
        }
        if exists|k: int|
            0 <= k < evidence.len() && reference_of(#[trigger] evidence[k], owners, declared)
                == Some(r) {
            let k = choose|k: int|
                0 <= k < evidence.len() && reference_of(#[trigger] evidence[k], owners, declared)
                    == Some(r);
            if k < rest.len() {
                assert(rest[k] == evidence[k]);
                assert(front.contains(r));
                let i = choose|i: int| 0 <= i < front.len() && front[i] == r;
                assert(all[i] == r);
            } else {
                assert(all.last() == r);
            }
        }
    }
}

pub(crate) proof fn binaries_are_those_given(
    evidence: Seq<DependencyEvidenceModel>,
    owners: Seq<(Seq<char>, Seq<char>)>,
    r: UnmappedBinaryModel,
)
    ensures
        unowned_binaries(evidence, owners).contains(r) <==> exists|k: int|
            0 <= k < evidence.len() && binary_of(#[trigger] evidence[k], owners) == Some(r),
    decreases evidence.len(),
{
    let all = unowned_binaries(evidence, owners);
    if evidence.len() > 0 {
        let rest = evidence.drop_last();
        let front = unowned_binaries(rest, owners);
        binaries_are_those_given(rest, owners, r);
        if all.contains(r) {
            let i = choose|i: int| 0 <= i < all.len() && all[i] == r;
            if i < front.len() {
                assert(front[i] == r);
                assert(front.contains(r));
                let k = choose|k: int|
                    0 <= k < rest.len() && binary_of(#[trigger] rest[k], owners) == Some(r);
                assert(evidence[k] == rest[k]);
            } else {
                let k = evidence.len() - 1;
                assert(binary_of(evidence[k], owners) == Some(r));
            }
        }
        if exists|k: int|
            0 <= k < evidence.len() && binary_of(#[trigger] evidence[k], owners) == Some(r) {
            let k = choose|k: int|
                0 <= k < evidence.len() && binary_of(#[trigger] evidence[k], owners) == Some(r);
            if k < rest.len() {
                assert(rest[k] == evidence[k]);
                assert(front.contains(r));
                let i = choose|i: int| 0 <= i < front.len() && front[i] == r;
                assert(all[i] == r);
            } else {
                assert(all.last() == r);
            }
        }
    }
}

/// Whether what is reachable among some evidence is among other evidence too.
pub open spec fn reachable_within(
    a: Seq<DependencyEvidenceModel>,
    b: Seq<DependencyEvidenceModel>,
) -> bool {
    forall|i: int| 0 <= i < a.len() && (#[trigger] a[i]).reachable ==> b.contains(a[i])
}

proof fn references_stay_within(
    a: Seq<DependencyEvidenceModel>,
    b: Seq<DependencyEvidenceModel>,
    owners: Seq<(Seq<char>, Seq<char>)>,
    declared: Seq<DeclarationModel>,
)
    requires
        reachable_within(a, b),
    ensures
        forall|r: NormalizedDependencyEvidenceModel|
            package_references(a, owners, declared).contains(r) ==> #[trigger] package_references(
                b,
                owners,
                declared,
            ).contains(r),
        forall|r: UnmappedBinaryModel|
            unowned_binaries(a, owners).contains(r) ==> #[trigger] unowned_binaries(
                b,
                owners,
            ).contains(r),
{
    assert forall|r: NormalizedDependencyEvidenceModel|
        package_references(a, owners, declared).contains(r) implies #[trigger] package_references(
        b,
        owners,
        declared,
    ).contains(r) by {
        references_are_those_given(a, owners, declared, r);
        references_are_those_given(b, owners, declared, r);
        let k = choose|k: int|
            0 <= k < a.len() && reference_of(#[trigger] a[k], owners, declared) == Some(r);
        assert(b.contains(a[k]));
        let j = choose|j: int| 0 <= j < b.len() && b[j] == a[k];
        assert(reference_of(b[j], owners, declared) == Some(r));
    }
    assert forall|r: UnmappedBinaryModel| unowned_binaries(a, owners).contains(
        r,
    ) implies #[trigger] unowned_binaries(b, owners).contains(r) by {
        binaries_are_those_given(a, owners, r);
        binaries_are_those_given(b, owners, r);
        let k = choose|k: int|
            0 <= k < a.len() && binary_of(#[trigger] a[k], owners) == Some(r);
        assert(b.contains(a[k]));
        let j = choose|j: int| 0 <= j < b.len() && b[j] == a[k];
        assert(binary_of(b[j], owners) == Some(r));
    }
}

/// The results depend on the set of the reachable evidence alone: neither its order, nor how
/// often a piece is given, nor what is not reachable changes them.
pub proof fn results_depend_on_reachable_evidence_alone(
    input: DependencyAnalysisInputModel,
    other: Seq<DependencyEvidenceModel>,
)
    requires
        reachable_within(input.evidence, other),
        reachable_within(other, input.evidence),
    ensures
        dependency_analysis(DependencyAnalysisInputModel { evidence: other, ..input })
            == dependency_analysis(input),
{
    let declared = declarations(input.manifests);
    let owners = input.binary_owners;
    let changed = DependencyAnalysisInputModel { evidence: other, ..input };
    references_stay_within(input.evidence, other, owners, declared);
    references_stay_within(other, input.evidence, owners, declared);
    let a = package_references(input.evidence, owners, declared);
    let b = package_references(other, owners, declared);
    collected_is_ordered::<NormalizedDependencyEvidence>(a);
    collected_is_ordered::<NormalizedDependencyEvidence>(b);
    ascending_is_unique::<NormalizedDependencyEvidence>(
        collected::<NormalizedDependencyEvidence>(a),
        collected::<NormalizedDependencyEvidence>(b),
    );
    let c = unowned_binaries(input.evidence, owners);
    let d = unowned_binaries(other, owners);
    collected_is_ordered::<UnmappedBinary>(c);
    collected_is_ordered::<UnmappedBinary>(d);
    ascending_is_unique::<UnmappedBinary>(
        collected::<UnmappedBinary>(c),
        collected::<UnmappedBinary>(d),
    );
    assert(all_references(changed) == all_references(input));
    assert(all_unmapped(changed) == all_unmapped(input));
    assert(concerned_pairs(changed) == concerned_pairs(input));
    assert forall|w: Seq<char>, p: Seq<char>| #[trigger]
        outcome_for(changed, w, p) == outcome_for(input, w, p) by {}
    assert(dependency_analysis(changed).outcomes =~= dependency_analysis(input).outcomes);
}

/// Whether a reason concerns a package.
pub open spec fn concerns(blocker: (Option<Seq<char>>, Seq<char>), package: Seq<char>) -> bool {
    blocker.0 is None || blocker.0 == Some(package)
}

pub(crate) proof fn reasons_are_those_given(
    blockers: Seq<(Option<Seq<char>>, Seq<char>)>,
    package: Seq<char>,
    reason: Seq<char>,
)
    ensures
        reasons_for(blockers, package).contains(reason) <==> exists|k: int|
            0 <= k < blockers.len() && concerns(#[trigger] blockers[k], package) && blockers[k].1
                == reason,
    decreases blockers.len(),
{
    let all = reasons_for(blockers, package);
    if blockers.len() > 0 {
        let rest = blockers.drop_last();
        let front = reasons_for(rest, package);
        reasons_are_those_given(rest, package, reason);
        if all.contains(reason) {
            let i = choose|i: int| 0 <= i < all.len() && all[i] == reason;
            if i < front.len() {
                assert(front[i] == reason);
                assert(front.contains(reason));
                let k = choose|k: int|
                    0 <= k < rest.len() && concerns(#[trigger] rest[k], package) && rest[k].1
                        == reason;
                assert(blockers[k] == rest[k]);
            } else {
                let k = blockers.len() - 1;
                assert(concerns(blockers[k], package));
            }
        }
        if exists|k: int|
            0 <= k < blockers.len() && concerns(#[trigger] blockers[k], package) && blockers[k].1
                == reason {
            let k = choose|k: int|
                0 <= k < blockers.len() && concerns(#[trigger] blockers[k], package)
                    && blockers[k].1 == reason;
            if k < rest.len() {
                assert(rest[k] == blockers[k]);
                assert(front.contains(reason));
                let i = choose|i: int| 0 <= i < front.len() && front[i] == reason;
                assert(all[i] == reason);
            } else {
                assert(all.last() == reason);
            }
        }
    }
}

proof fn stated_blockers_stay(
    blockers: Seq<DependencyBlockerModel>,
    more: Seq<DependencyBlockerModel>,
    workspace: Seq<char>,
)
    ensures
        stated_blockers(blockers + more, workspace) == stated_blockers(blockers, workspace)
            + stated_blockers(more, workspace),
    decreases more.len(),
{
    if more.len() == 0 {
        assert(blockers + more =~= blockers);
        assert(stated_blockers(blockers, workspace) + stated_blockers(more, workspace)
            =~= stated_blockers(blockers, workspace));
    } else {
        stated_blockers_stay(blockers, more.drop_last(), workspace);
        assert((blockers + more).drop_last() =~= blockers + more.drop_last());
        assert(stated_blockers(blockers + more, workspace) =~= stated_blockers(blockers, workspace)
            + stated_blockers(more, workspace));
    }
}

/// Whether a result says that nothing refers to a declared package.
pub open spec fn says_unreferenced(kind: DependencyOutcomeKind) -> bool {
    ||| kind == DependencyOutcomeKind::Unused
    ||| kind == DependencyOutcomeKind::UnreferencedOptional
    ||| kind == DependencyOutcomeKind::UnreferencedPeer
}

/// Whether two results are on the same package with the same evidence, the second keeps the
/// reasons of the first, and they conclude the same, or the second leaves open what the first
/// says is not referenced.
pub open spec fn at_most_left_open(
    before: DependencyOutcomeModel,
    after: DependencyOutcomeModel,
) -> bool {
    &&& after.workspace == before.workspace && after.package == before.package
    &&& after.declared_workspace == before.declared_workspace
    &&& after.categories == before.categories
    &&& after.evidence == before.evidence
    &&& forall|reason: Seq<char>| #[trigger]
        before.blockers.contains(reason) ==> after.blockers.contains(reason)
    &&& {
        ||| after.kind == before.kind && after.confidence == before.confidence
        ||| says_unreferenced(before.kind) && after.kind == DependencyOutcomeKind::Undetermined
            && after.confidence == DependencyConfidence::NotApplicable
    }
}

proof fn more_blockers_leave_one_open(
    input: DependencyAnalysisInputModel,
    more: Seq<DependencyBlockerModel>,
    workspace: Seq<char>,
    package: Seq<char>,
)
    ensures
        at_most_left_open(
            outcome_for(input, workspace, package),
            outcome_for(
                DependencyAnalysisInputModel { blockers: input.blockers + more, ..input },
                workspace,
                package,
            ),
        ),
{
    let with = DependencyAnalysisInputModel { blockers: input.blockers + more, ..input };
    let before = outcome_for(input, workspace, package);
    let after = outcome_for(with, workspace, package);
    assert(all_references(with) == all_references(input));
    assert(all_unmapped(with) == all_unmapped(input));
    let unmapped = all_unmapped(input);
    stated_blockers_stay(input.blockers, more, workspace);
    let given = stated_blockers(input.blockers, workspace) + binary_blockers(unmapped, workspace);
    let given_more = stated_blockers(with.blockers, workspace) + binary_blockers(
        unmapped,
        workspace,
    );
    collected_is_ordered::<(Option<String>, String)>(given);
    collected_is_ordered::<(Option<String>, String)>(given_more);
    let known = workspace_blockers(input.blockers, unmapped, workspace);
    let known_more = workspace_blockers(with.blockers, unmapped, workspace);
    assert forall|reason: Seq<char>| #[trigger] reasons_for(known, package).contains(
        reason,
    ) implies reasons_for(known_more, package).contains(reason) by {
        reasons_are_those_given(known, package, reason);
        reasons_are_those_given(known_more, package, reason);
        let k = choose|k: int|
            0 <= k < known.len() && concerns(#[trigger] known[k], package) && known[k].1 == reason;
        assert(known.contains(known[k]));
        assert(given.contains(known[k]));
        let j = choose|j: int| 0 <= j < given.len() && given[j] == known[k];
        let first = stated_blockers(input.blockers, workspace);
        if j < first.len() {
            assert(given_more[j] == given[j]);
        } else {
            assert(given_more[j + stated_blockers(more, workspace).len()] == given[j]);
        }
        assert(given_more.contains(known[k]));
        assert(known_more.contains(known[k]));
        let m = choose|m: int| 0 <= m < known_more.len() && known_more[m] == known[k];
        assert(concerns(known_more[m], package));
    }
    if is_declared(declarations(input.manifests), workspace, package) {
        if before.blockers.len() > 0 {
            assert(before.blockers.contains(before.blockers[0]));
            assert(reasons_for(known, package).contains(before.blockers[0]));
            assert(after.blockers.contains(before.blockers[0]));
        }
    }
}

/// Further blockers change no result but one that says that nothing refers to a package: that
/// one may be left open instead. What was blocked stays blocked.
pub proof fn further_blockers_only_leave_results_open(
    input: DependencyAnalysisInputModel,
    more: Seq<DependencyBlockerModel>,
)
    ensures
        ({
            let before = dependency_analysis(input);
            let after = dependency_analysis(
                DependencyAnalysisInputModel { blockers: input.blockers + more, ..input },
            );
            &&& after.unmapped_binaries == before.unmapped_binaries
            &&& after.outcomes.len() == before.outcomes.len()
            &&& forall|i: int|
                0 <= i < before.outcomes.len() ==> at_most_left_open(
                    #[trigger] before.outcomes[i],
                    after.outcomes[i],
                )
        }),
{
    let with = DependencyAnalysisInputModel { blockers: input.blockers + more, ..input };
    let before = dependency_analysis(input);
    let after = dependency_analysis(with);
    assert(all_references(with) == all_references(input));
    assert(concerned_pairs(with) == concerned_pairs(input));
    let pairs = concerned_pairs(input);
    assert forall|i: int| 0 <= i < before.outcomes.len() implies at_most_left_open(
        #[trigger] before.outcomes[i],
        after.outcomes[i],
    ) by {
        more_blockers_leave_one_open(input, more, pairs[i].0, pairs[i].1);
    }
}

} // verus!
