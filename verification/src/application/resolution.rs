//! What becomes of the imports of a project's files.

use crate::analysis::packages::{npm_package, package_name};
use crate::application::diagnostics::{sort_diagnostics, ByPlace};
use crate::collections::{sort_by, sorted_by, OrderedSet, Ranking};
use crate::domain::facts::{
    Activation, AnalysisDiagnostic, AnalysisDiagnosticModel, DiagnosticSeverity, ImportFact,
    ImportFactModel, ImportKind, ResolutionMode, SourceSpan,
};
use crate::domain::report::{ImportReport, ImportReportModel, ResolutionStatus};
use crate::paths::{
    extension_of, inert_extension, inside_archived_dependencies, is_analyzable_source,
    is_dependency_path, is_inert_asset, is_pnp_virtual_dependency_path, path_below,
    source_extension, through_dependencies, written, FilePath, PathPartModel,
};
use crate::text::{concat2, concat3, concat5, replace_char, same, starts_with, with_char};
use crate::values::{push_item, replace_item, Ordered, Value};
use vstd::prelude::*;

verus! {

/// Where the list of the files to analyze comes from.
#[derive(Debug, Clone, Copy, PartialEq, Eq, Structural)]
pub enum SourceUniverseKind {
    /// Discovery, which leaves files out on purpose.
    Discovered,
    /// The caller.
    Explicit,
}

impl DeepView for SourceUniverseKind {
    type V = SourceUniverseKind;

    open spec fn deep_view(&self) -> SourceUniverseKind {
        *self
    }
}

impl Value for SourceUniverseKind {
    fn replicate(&self) -> (r: Self) {
        *self
    }

    fn same_value(&self, other: &Self) -> (r: bool) {
        *self == *other
    }
}

/// The source files behind a specifier of a workspace package.
#[derive(Debug, PartialEq, Eq)]
pub struct WorkspaceModuleTarget {
    pub package: String,
    pub specifier: String,
    pub esm: Vec<String>,
    pub common_js: Vec<String>,
}

/// What a [`WorkspaceModuleTarget`] holds.
pub struct WorkspaceModuleTargetModel {
    pub package: Seq<char>,
    pub specifier: Seq<char>,
    pub esm: Seq<Seq<char>>,
    pub common_js: Seq<Seq<char>>,
}

impl DeepView for WorkspaceModuleTarget {
    type V = WorkspaceModuleTargetModel;

    open spec fn deep_view(&self) -> WorkspaceModuleTargetModel {
        WorkspaceModuleTargetModel {
            package: self.package.deep_view(),
            specifier: self.specifier.deep_view(),
            esm: self.esm.deep_view(),
            common_js: self.common_js.deep_view(),
        }
    }
}

impl Value for WorkspaceModuleTarget {
    fn replicate(&self) -> (r: Self) {
        WorkspaceModuleTarget {
            package: self.package.replicate(),
            specifier: self.specifier.replicate(),
            esm: self.esm.replicate(),
            common_js: self.common_js.replicate(),
        }
    }

    fn same_value(&self, other: &Self) -> (r: bool) {
        self.package.same_value(&other.package)
            && self.specifier.same_value(&other.specifier)
            && self.esm.same_value(&other.esm)
            && self.common_js.same_value(&other.common_js)
    }
}

impl Ordered for WorkspaceModuleTarget {
    open spec fn before(a: WorkspaceModuleTargetModel, b: WorkspaceModuleTargetModel) -> bool {
        <String as Ordered>::before(a.package, b.package) || (a.package == b.package && (<String as Ordered>::before(a.specifier, b.specifier) || (a.specifier == b.specifier && (<Vec<String> as Ordered>::before(a.esm, b.esm) || (a.esm == b.esm && (<Vec<String> as Ordered>::before(a.common_js, b.common_js)))))))
    }

    fn is_before(&self, other: &Self) -> (r: bool) {
        assert(Self::before(self.deep_view(), other.deep_view()) == (<String as Ordered>::before(self.deep_view().package, other.deep_view().package) || (self.deep_view().package == other.deep_view().package && (<String as Ordered>::before(self.deep_view().specifier, other.deep_view().specifier) || (self.deep_view().specifier == other.deep_view().specifier && (<Vec<String> as Ordered>::before(self.deep_view().esm, other.deep_view().esm) || (self.deep_view().esm == other.deep_view().esm && (<Vec<String> as Ordered>::before(self.deep_view().common_js, other.deep_view().common_js)))))))));
        if self.package.is_before(&other.package) {
            return true;
        }
        if !self.package.same_value(&other.package) {
            return false;
        }
        if self.specifier.is_before(&other.specifier) {
            return true;
        }
        if !self.specifier.same_value(&other.specifier) {
            return false;
        }
        if self.esm.is_before(&other.esm) {
            return true;
        }
        if !self.esm.same_value(&other.esm) {
            return false;
        }
        self.common_js.is_before(&other.common_js)
    }

    proof fn before_irreflexive(a: WorkspaceModuleTargetModel) {
        <String as Ordered>::before_irreflexive(a.package);
        <String as Ordered>::before_irreflexive(a.specifier);
        <Vec<String> as Ordered>::before_irreflexive(a.esm);
        <Vec<String> as Ordered>::before_irreflexive(a.common_js);
    }

    proof fn before_transitive(
        a: WorkspaceModuleTargetModel,
        b: WorkspaceModuleTargetModel,
        c: WorkspaceModuleTargetModel,
    ) {
        if <String as Ordered>::before(a.package, b.package) && <String as Ordered>::before(b.package, c.package) {
            <String as Ordered>::before_transitive(a.package, b.package, c.package);
        }
        if <String as Ordered>::before(a.specifier, b.specifier) && <String as Ordered>::before(b.specifier, c.specifier) {
            <String as Ordered>::before_transitive(a.specifier, b.specifier, c.specifier);
        }
        if <Vec<String> as Ordered>::before(a.esm, b.esm) && <Vec<String> as Ordered>::before(b.esm, c.esm) {
            <Vec<String> as Ordered>::before_transitive(a.esm, b.esm, c.esm);
        }
        if <Vec<String> as Ordered>::before(a.common_js, b.common_js) && <Vec<String> as Ordered>::before(b.common_js, c.common_js) {
            <Vec<String> as Ordered>::before_transitive(a.common_js, b.common_js, c.common_js);
        }
    }

    proof fn before_total(a: WorkspaceModuleTargetModel, b: WorkspaceModuleTargetModel) {
        <String as Ordered>::before_total(a.package, b.package);
        <String as Ordered>::before_total(a.specifier, b.specifier);
        <Vec<String> as Ordered>::before_total(a.esm, b.esm);
        <Vec<String> as Ordered>::before_total(a.common_js, b.common_js);
    }
}

/// A use of a file by another that no import shows.
#[derive(Debug, PartialEq, Eq)]
pub struct AdditionalFileEdge {
    pub from: String,
    pub to: String,
    pub reason: String,
}

/// What a [`AdditionalFileEdge`] holds.
pub struct AdditionalFileEdgeModel {
    pub from: Seq<char>,
    pub to: Seq<char>,
    pub reason: Seq<char>,
}

impl DeepView for AdditionalFileEdge {
    type V = AdditionalFileEdgeModel;

    open spec fn deep_view(&self) -> AdditionalFileEdgeModel {
        AdditionalFileEdgeModel {
            from: self.from.deep_view(),
            to: self.to.deep_view(),
            reason: self.reason.deep_view(),
        }
    }
}

impl Value for AdditionalFileEdge {
    fn replicate(&self) -> (r: Self) {
        AdditionalFileEdge {
            from: self.from.replicate(),
            to: self.to.replicate(),
            reason: self.reason.replicate(),
        }
    }

    fn same_value(&self, other: &Self) -> (r: bool) {
        self.from.same_value(&other.from)
            && self.to.same_value(&other.to)
            && self.reason.same_value(&other.reason)
    }
}

impl Ordered for AdditionalFileEdge {
    open spec fn before(a: AdditionalFileEdgeModel, b: AdditionalFileEdgeModel) -> bool {
        <String as Ordered>::before(a.from, b.from) || (a.from == b.from && (<String as Ordered>::before(a.to, b.to) || (a.to == b.to && (<String as Ordered>::before(a.reason, b.reason)))))
    }

    fn is_before(&self, other: &Self) -> (r: bool) {
        assert(Self::before(self.deep_view(), other.deep_view()) == (<String as Ordered>::before(self.deep_view().from, other.deep_view().from) || (self.deep_view().from == other.deep_view().from && (<String as Ordered>::before(self.deep_view().to, other.deep_view().to) || (self.deep_view().to == other.deep_view().to && (<String as Ordered>::before(self.deep_view().reason, other.deep_view().reason)))))));
        if self.from.is_before(&other.from) {
            return true;
        }
        if !self.from.same_value(&other.from) {
            return false;
        }
        if self.to.is_before(&other.to) {
            return true;
        }
        if !self.to.same_value(&other.to) {
            return false;
        }
        self.reason.is_before(&other.reason)
    }

    proof fn before_irreflexive(a: AdditionalFileEdgeModel) {
        <String as Ordered>::before_irreflexive(a.from);
        <String as Ordered>::before_irreflexive(a.to);
        <String as Ordered>::before_irreflexive(a.reason);
    }

    proof fn before_transitive(
        a: AdditionalFileEdgeModel,
        b: AdditionalFileEdgeModel,
        c: AdditionalFileEdgeModel,
    ) {
        if <String as Ordered>::before(a.from, b.from) && <String as Ordered>::before(b.from, c.from) {
            <String as Ordered>::before_transitive(a.from, b.from, c.from);
        }
        if <String as Ordered>::before(a.to, b.to) && <String as Ordered>::before(b.to, c.to) {
            <String as Ordered>::before_transitive(a.to, b.to, c.to);
        }
        if <String as Ordered>::before(a.reason, b.reason) && <String as Ordered>::before(b.reason, c.reason) {
            <String as Ordered>::before_transitive(a.reason, b.reason, c.reason);
        }
    }

    proof fn before_total(a: AdditionalFileEdgeModel, b: AdditionalFileEdgeModel) {
        <String as Ordered>::before_total(a.from, b.from);
        <String as Ordered>::before_total(a.to, b.to);
        <String as Ordered>::before_total(a.reason, b.reason);
    }
}

/// A file to analyze: where it is, and how it is called.
#[derive(Debug, PartialEq, Eq)]
pub struct PreparedFile {
    pub physical_path: FilePath,
    pub display_path: String,
}

/// What a [`PreparedFile`] holds.
pub struct PreparedFileModel {
    pub physical_path: Seq<PathPartModel>,
    pub display_path: Seq<char>,
}

impl DeepView for PreparedFile {
    type V = PreparedFileModel;

    open spec fn deep_view(&self) -> PreparedFileModel {
        PreparedFileModel {
            physical_path: self.physical_path.deep_view(),
            display_path: self.display_path.deep_view(),
        }
    }
}

impl Value for PreparedFile {
    fn replicate(&self) -> (r: Self) {
        PreparedFile {
            physical_path: self.physical_path.replicate(),
            display_path: self.display_path.replicate(),
        }
    }

    fn same_value(&self, other: &Self) -> (r: bool) {
        self.physical_path.same_value(&other.physical_path)
            && self.display_path.same_value(&other.display_path)
    }
}

/// The file that a specifier was resolved to.
#[derive(Debug, PartialEq, Eq)]
pub struct ResolvedFile {
    pub path: FilePath,
    /// The path without links, where there is such a file.
    pub canonical: Option<FilePath>,
}

/// What a [`ResolvedFile`] holds.
pub struct ResolvedFileModel {
    pub path: Seq<PathPartModel>,
    pub canonical: Option<Seq<PathPartModel>>,
}

impl DeepView for ResolvedFile {
    type V = ResolvedFileModel;

    open spec fn deep_view(&self) -> ResolvedFileModel {
        ResolvedFileModel {
            path: self.path.deep_view(),
            canonical: self.canonical.deep_view(),
        }
    }
}

impl Value for ResolvedFile {
    fn replicate(&self) -> (r: Self) {
        ResolvedFile {
            path: self.path.replicate(),
            canonical: self.canonical.replicate(),
        }
    }

    fn same_value(&self, other: &Self) -> (r: bool) {
        self.path.same_value(&other.path)
            && self.canonical.same_value(&other.canonical)
    }
}

/// What a module resolver says of a specifier.
#[derive(Debug, PartialEq, Eq)]
pub enum ModuleResolution {
    /// The module is not a file.
    External,
    /// The module is a file.
    File(ResolvedFile),
    /// The resolver found nothing.
    Failed,
}

/// What a [`ModuleResolution`] holds.
pub enum ModuleResolutionModel {
    External,
    File(ResolvedFileModel),
    Failed,
}

impl DeepView for ModuleResolution {
    type V = ModuleResolutionModel;

    open spec fn deep_view(&self) -> ModuleResolutionModel {
        match self {
            ModuleResolution::External => ModuleResolutionModel::External,
            ModuleResolution::File(x) => ModuleResolutionModel::File(x.deep_view()),
            ModuleResolution::Failed => ModuleResolutionModel::Failed,
        }
    }
}

impl Value for ModuleResolution {
    fn replicate(&self) -> (r: Self) {
        match self {
            ModuleResolution::External => ModuleResolution::External,
            ModuleResolution::File(x) => ModuleResolution::File(x.replicate()),
            ModuleResolution::Failed => ModuleResolution::Failed,
        }
    }

    fn same_value(&self, other: &Self) -> (r: bool) {
        match (self, other) {
            (ModuleResolution::External, ModuleResolution::External) => true,
            (ModuleResolution::File(x), ModuleResolution::File(y)) => x.same_value(y),
            (ModuleResolution::Failed, ModuleResolution::Failed) => true,
            _ => false,
        }
    }
}

/// What the resolution of imports rests on besides the imports.
#[derive(Debug, PartialEq, Eq)]
pub struct ResolutionInput {
    pub root: FilePath,
    pub files: Vec<PreparedFile>,
    pub target_profiles: Vec<String>,
    pub external_packages: OrderedSet<String>,
    pub workspace_module_targets: Vec<WorkspaceModuleTarget>,
    pub yarn_pnp: bool,
    pub universe_kind: SourceUniverseKind,
}

/// What a [`ResolutionInput`] holds.
pub struct ResolutionInputModel {
    pub root: Seq<PathPartModel>,
    pub files: Seq<PreparedFileModel>,
    pub target_profiles: Seq<Seq<char>>,
    pub external_packages: Seq<Seq<char>>,
    pub workspace_module_targets: Seq<WorkspaceModuleTargetModel>,
    pub yarn_pnp: bool,
    pub universe_kind: SourceUniverseKind,
}

impl DeepView for ResolutionInput {
    type V = ResolutionInputModel;

    open spec fn deep_view(&self) -> ResolutionInputModel {
        ResolutionInputModel {
            root: self.root.deep_view(),
            files: self.files.deep_view(),
            target_profiles: self.target_profiles.deep_view(),
            external_packages: self.external_packages.deep_view(),
            workspace_module_targets: self.workspace_module_targets.deep_view(),
            yarn_pnp: self.yarn_pnp.deep_view(),
            universe_kind: self.universe_kind.deep_view(),
        }
    }
}

impl Value for ResolutionInput {
    fn replicate(&self) -> (r: Self) {
        ResolutionInput {
            root: self.root.replicate(),
            files: self.files.replicate(),
            target_profiles: self.target_profiles.replicate(),
            external_packages: self.external_packages.replicate(),
            workspace_module_targets: self.workspace_module_targets.replicate(),
            yarn_pnp: self.yarn_pnp.replicate(),
            universe_kind: self.universe_kind.replicate(),
        }
    }

    fn same_value(&self, other: &Self) -> (r: bool) {
        self.root.same_value(&other.root)
            && self.files.same_value(&other.files)
            && self.target_profiles.same_value(&other.target_profiles)
            && self.external_packages.same_value(&other.external_packages)
            && self.workspace_module_targets.same_value(&other.workspace_module_targets)
            && self.yarn_pnp.same_value(&other.yarn_pnp)
            && self.universe_kind.same_value(&other.universe_kind)
    }
}

/// What becomes of one import.
#[derive(Debug, PartialEq, Eq)]
pub struct ImportDecision {
    pub status: ResolutionStatus,
    pub target: Option<String>,
    pub diagnostic: Option<AnalysisDiagnostic>,
    pub edges: Vec<usize>,
}

/// What a [`ImportDecision`] holds.
pub struct ImportDecisionModel {
    pub status: ResolutionStatus,
    pub target: Option<Seq<char>>,
    pub diagnostic: Option<AnalysisDiagnosticModel>,
    pub edges: Seq<usize>,
}

impl DeepView for ImportDecision {
    type V = ImportDecisionModel;

    open spec fn deep_view(&self) -> ImportDecisionModel {
        ImportDecisionModel {
            status: self.status.deep_view(),
            target: self.target.deep_view(),
            diagnostic: self.diagnostic.deep_view(),
            edges: self.edges.deep_view(),
        }
    }
}

/// What becomes of the imports of all files.
#[derive(Debug, PartialEq, Eq)]
pub struct ResolvedImports {
    /// Which file uses which, in the order in which the imports say so.
    pub edges: Vec<(usize, usize)>,
    pub imports: Vec<Vec<ImportReport>>,
    pub diagnostics: Vec<Vec<AnalysisDiagnostic>>,
}

/// What a [`ResolvedImports`] holds.
pub struct ResolvedImportsModel {
    pub edges: Seq<(usize, usize)>,
    pub imports: Seq<Seq<ImportReportModel>>,
    pub diagnostics: Seq<Seq<AnalysisDiagnosticModel>>,
}

impl DeepView for ResolvedImports {
    type V = ResolvedImportsModel;

    open spec fn deep_view(&self) -> ResolvedImportsModel {
        ResolvedImportsModel {
            edges: self.edges.deep_view(),
            imports: self.imports.deep_view(),
            diagnostics: self.diagnostics.deep_view(),
        }
    }
}

/// The place of the file that is called `path`.
pub open spec fn place_of_display(items: Seq<PreparedFileModel>, path: Seq<char>) -> Option<usize>
    decreases items.len(),
{
    if items.len() == 0 {
        None
    } else {
        let rest = place_of_display(items.drop_last(), path);
        let last = items.last();
        if last.display_path == path {
            Some((items.len() - 1) as usize)
        } else {
            rest
        }
    }
}

/// The place of the file that is at `path`.
pub open spec fn place_of_physical(
    items: Seq<PreparedFileModel>,
    path: Seq<PathPartModel>,
) -> Option<usize>
    decreases items.len(),
{
    if items.len() == 0 {
        None
    } else {
        let rest = place_of_physical(items.drop_last(), path);
        let last = items.last();
        if last.physical_path == path {
            Some((items.len() - 1) as usize)
        } else {
            rest
        }
    }
}

fn find_display(files: &Vec<PreparedFile>, path: &str) -> (r: Option<usize>)
    ensures
        r == place_of_display(files.deep_view(), path@),
        r matches Some(i) ==> i < files@.len(),
{
    let mut found: Option<usize> = None;
    let ghost model = files.deep_view();
    let mut i: usize = 0;
    while i < files.len()
        invariant
            i <= files.len(),
            model == files.deep_view(),
            found == place_of_display(model.take(i as int), path@),
            found matches Some(k) ==> k < i,
        decreases files.len() - i,
    {
        proof {
            assert(model.take(i + 1).drop_last() =~= model.take(i as int));
            assert(model.take(i + 1).last() == files@[i as int].deep_view());
        }
        if same(&files[i].display_path, path) {
            found = Some(i);
        }
        i = i + 1;
    }
    assert(model.take(i as int) =~= model);
    found
}

fn find_physical(files: &Vec<PreparedFile>, path: &FilePath) -> (r: Option<usize>)
    ensures
        r == place_of_physical(files.deep_view(), path.deep_view()),
        r matches Some(i) ==> i < files@.len(),
{
    let mut found: Option<usize> = None;
    let ghost model = files.deep_view();
    let mut i: usize = 0;
    while i < files.len()
        invariant
            i <= files.len(),
            model == files.deep_view(),
            found == place_of_physical(model.take(i as int), path.deep_view()),
            found matches Some(k) ==> k < i,
        decreases files.len() - i,
    {
        proof {
            assert(model.take(i + 1).drop_last() =~= model.take(i as int));
            assert(model.take(i + 1).last() == files@[i as int].deep_view());
        }
        if files[i].physical_path.same_value(path) {
            found = Some(i);
        }
        i = i + 1;
    }
    assert(model.take(i as int) =~= model);
    found
}

/// The first target for a specifier.
pub open spec fn target_of_specifier(
    items: Seq<WorkspaceModuleTargetModel>,
    specifier: Seq<char>,
) -> Option<WorkspaceModuleTargetModel>
    decreases items.len(),
{
    if items.len() == 0 {
        None
    } else {
        let rest = target_of_specifier(items.drop_last(), specifier);
        let last = items.last();
        if rest is Some {
            rest
        } else if last.specifier == specifier {
            Some(last)
        } else {
            None
        }
    }
}

/// The files behind a target for a module system.
pub open spec fn files_for_mode(
    target: WorkspaceModuleTargetModel,
    mode: ResolutionMode,
) -> Seq<Seq<char>> {
    if mode == ResolutionMode::CommonJs && target.common_js.len() > 0 {
        target.common_js
    } else {
        target.esm
    }
}

/// The places of the files with the given names, as far as there are such files.
pub open spec fn places_of(items: Seq<Seq<char>>, files: Seq<PreparedFileModel>) -> Seq<usize>
    decreases items.len(),
{
    if items.len() == 0 {
        Seq::empty()
    } else {
        let rest = places_of(items.drop_last(), files);
        let last = items.last();
        match place_of_display(files, last) {
            Some(place) => rest.push(place),
            None => rest,
        }
    }
}

/// The files of the project that an import of a workspace package stands for.
pub open spec fn workspace_targets(input: ResolutionInputModel, import: ImportFactModel) -> Seq<
    usize,
> {
    match target_of_specifier(input.workspace_module_targets, import.specifier) {
        Some(target) => places_of(files_for_mode(target, import.resolution_mode), input.files),
        None => Seq::empty(),
    }
}

/// Whether some workspace package has the given name.
pub open spec fn names_workspace_package(
    targets: Seq<WorkspaceModuleTargetModel>,
    package: Option<Seq<char>>,
) -> bool {
    package is Some && exists|i: int|
        0 <= i < targets.len() && (#[trigger] targets[i]).package == package->0
}

/// Whether a specifier is relative to the importing file.
pub open spec fn relative_specifier(specifier: Seq<char>) -> bool {
    ||| specifier == "."@
    ||| specifier == ".."@
    ||| "./"@.is_prefix_of(specifier)
    ||| "../"@.is_prefix_of(specifier)
}

/// Whether a specifier is relative to the importing file.
#[must_use]
pub fn is_relative(specifier: &str) -> (r: bool)
    ensures
        r == relative_specifier(specifier@),
{
    same(specifier, ".") || same(specifier, "..") || starts_with(specifier, "./") || starts_with(
        specifier,
        "../",
    )
}

/// Whether a specifier names one of the packages.
pub open spec fn declared_external(specifier: Seq<char>, packages: Seq<Seq<char>>) -> bool {
    npm_package(specifier) is Some && packages.contains(npm_package(specifier)->0)
}

/// Whether a specifier names one of the packages.
#[must_use]
pub fn is_declared_external(specifier: &str, packages: &OrderedSet<String>) -> (r: bool)
    ensures
        r == declared_external(specifier@, packages.deep_view()),
{
    match package_name(specifier) {
        Some(package) => packages.contains(&package),
        None => false,
    }
}

/// Whether a specifier was resolved to a package in an archive of the package manager.
pub open spec fn archived_external(
    specifier: Seq<char>,
    path: Seq<PathPartModel>,
    is_workspace_package: bool,
    yarn_pnp: bool,
) -> bool {
    yarn_pnp && !is_workspace_package && npm_package(specifier) is Some
        && inside_archived_dependencies(path)
}

/// Whether a specifier was resolved to a package in an archive of the package manager.
#[must_use]
pub fn is_pnp_external_resolution(
    specifier: &str,
    resolved_path: &FilePath,
    is_workspace_package: bool,
    yarn_pnp: bool,
) -> (r: bool)
    ensures
        r == archived_external(
            specifier@,
            resolved_path.deep_view(),
            is_workspace_package,
            yarn_pnp,
        ),
{
    yarn_pnp && !is_workspace_package && package_name(specifier).is_some()
        && is_pnp_virtual_dependency_path(resolved_path)
}

/// That a specifier names neither a package nor a file.
pub open spec fn unsupported_specifier(
    path: Seq<char>,
    specifier: Seq<char>,
    span: SourceSpan,
) -> AnalysisDiagnosticModel {
    AnalysisDiagnosticModel {
        code: "unsupported_specifier"@,
        path,
        severity: DiagnosticSeverity::Warning,
        span: Some(span),
        message: "`"@ + specifier
            + "` is neither a declared external package nor a statically resolved local module"@,
        blocks_reachability: true,
    }
}

fn unsupported_specifier_diagnostic(
    path: &str,
    specifier: &str,
    span: SourceSpan,
) -> (r: AnalysisDiagnostic)
    ensures
        r.deep_view() == unsupported_specifier(path@, specifier@, span),
{
    AnalysisDiagnostic {
        code: "unsupported_specifier".to_string(),
        path: path.to_string(),
        severity: DiagnosticSeverity::Warning,
        span: Some(span),
        message: concat3(
            "`",
            specifier,
            "` is neither a declared external package nor a statically resolved local module",
        ),
        blocks_reachability: true,
    }
}

/// That a specifier leads to a file that is not analyzed.
pub open spec fn outside_universe(
    path: Seq<char>,
    specifier: Seq<char>,
    span: SourceSpan,
) -> AnalysisDiagnosticModel {
    AnalysisDiagnosticModel {
        code: "outside_file_universe"@,
        path,
        severity: DiagnosticSeverity::Error,
        span: Some(span),
        message: "`"@ + specifier
            + "` resolved to a file that was not included in the supplied file universe"@,
        blocks_reachability: true,
    }
}

fn outside_universe_diagnostic(
    path: &str,
    specifier: &str,
    span: SourceSpan,
) -> (r: AnalysisDiagnostic)
    ensures
        r.deep_view() == outside_universe(path@, specifier@, span),
{
    AnalysisDiagnostic {
        code: "outside_file_universe".to_string(),
        path: path.to_string(),
        severity: DiagnosticSeverity::Error,
        span: Some(span),
        message: concat3(
            "`",
            specifier,
            "` resolved to a file that was not included in the supplied file universe",
        ),
        blocks_reachability: true,
    }
}

/// That a specifier leads to a file that discovery leaves out.
pub open spec fn excluded_path(
    path: Seq<char>,
    specifier: Seq<char>,
    span: SourceSpan,
    target: Seq<char>,
) -> AnalysisDiagnosticModel {
    AnalysisDiagnosticModel {
        code: "resolved_into_excluded_path"@,
        path,
        severity: DiagnosticSeverity::Warning,
        span: Some(span),
        message: "`"@ + specifier + "` resolved to `"@ + target
            + "`, which discovery excludes from the source universe; it is treated as an external boundary"@,
        blocks_reachability: false,
    }
}

fn excluded_path_diagnostic(
    path: &str,
    specifier: &str,
    span: SourceSpan,
    target: &str,
) -> (r: AnalysisDiagnostic)
    ensures
        r.deep_view() == excluded_path(path@, specifier@, span, target@),
{
    AnalysisDiagnostic {
        code: "resolved_into_excluded_path".to_string(),
        path: path.to_string(),
        severity: DiagnosticSeverity::Warning,
        span: Some(span),
        message: concat5(
            "`",
            specifier,
            "` resolved to `",
            target,
            "`, which discovery excludes from the source universe; it is treated as an external boundary",
        ),
        blocks_reachability: false,
    }
}

/// That a specifier leads out of the project.
pub open spec fn outside_analysis_root(
    path: Seq<char>,
    specifier: Seq<char>,
    span: SourceSpan,
) -> AnalysisDiagnosticModel {
    AnalysisDiagnosticModel {
        code: "outside_analysis_root"@,
        path,
        severity: DiagnosticSeverity::Error,
        span: Some(span),
        message: "`"@ + specifier + "` resolved to source outside the configured project root"@,
        blocks_reachability: true,
    }
}

fn outside_analysis_root_diagnostic(
    path: &str,
    specifier: &str,
    span: SourceSpan,
) -> (r: AnalysisDiagnostic)
    ensures
        r.deep_view() == outside_analysis_root(path@, specifier@, span),
{
    AnalysisDiagnostic {
        code: "outside_analysis_root".to_string(),
        path: path.to_string(),
        severity: DiagnosticSeverity::Error,
        span: Some(span),
        message: concat3(
            "`",
            specifier,
            "` resolved to source outside the configured project root",
        ),
        blocks_reachability: true,
    }
}

/// That a specifier leads to a file of a kind that is not analyzed.
pub open spec fn unsupported_imported_source(
    path: Seq<char>,
    specifier: Seq<char>,
    span: SourceSpan,
) -> AnalysisDiagnosticModel {
    AnalysisDiagnosticModel {
        code: "unsupported_imported_source"@,
        path,
        severity: DiagnosticSeverity::Warning,
        span: Some(span),
        message: "`"@ + specifier
            + "` resolved to a source format whose embedded module graph is not modeled"@,
        blocks_reachability: true,
    }
}

fn unsupported_imported_source_diagnostic(
    path: &str,
    specifier: &str,
    span: SourceSpan,
) -> (r: AnalysisDiagnostic)
    ensures
        r.deep_view() == unsupported_imported_source(path@, specifier@, span),
{
    AnalysisDiagnostic {
        code: "unsupported_imported_source".to_string(),
        path: path.to_string(),
        severity: DiagnosticSeverity::Warning,
        span: Some(span),
        message: concat3(
            "`",
            specifier,
            "` resolved to a source format whose embedded module graph is not modeled",
        ),
        blocks_reachability: true,
    }
}

/// That a specifier leads nowhere.
pub open spec fn unresolved(
    path: Seq<char>,
    specifier: Seq<char>,
    span: SourceSpan,
    reason: Seq<char>,
) -> AnalysisDiagnosticModel {
    AnalysisDiagnosticModel {
        code: "unresolved_import"@,
        path,
        severity: DiagnosticSeverity::Error,
        span: Some(span),
        message: "Could not resolve `"@ + specifier + "`: "@ + reason,
        blocks_reachability: true,
    }
}

fn unresolved_diagnostic(
    path: &str,
    specifier: &str,
    span: SourceSpan,
    reason: &str,
) -> (r: AnalysisDiagnostic)
    ensures
        r.deep_view() == unresolved(path@, specifier@, span, reason@),
{
    AnalysisDiagnostic {
        code: "unresolved_import".to_string(),
        path: path.to_string(),
        severity: DiagnosticSeverity::Error,
        span: Some(span),
        message: crate::text::concat4("Could not resolve `", specifier, "`: ", reason),
        blocks_reachability: true,
    }
}

/// An import of which nothing more is to be said.
pub open spec fn quiet(status: ResolutionStatus) -> ImportDecisionModel {
    ImportDecisionModel { status, target: None, diagnostic: None, edges: Seq::empty() }
}

/// An import that stands in the way of conclusions.
pub open spec fn refused(
    status: ResolutionStatus,
    diagnostic: AnalysisDiagnosticModel,
) -> ImportDecisionModel {
    ImportDecisionModel {
        status,
        target: None,
        diagnostic: Some(diagnostic),
        edges: Seq::empty(),
    }
}

fn decide_quietly(status: ResolutionStatus) -> (r: ImportDecision)
    ensures
        r.deep_view() == quiet(status),
{
    let edges: Vec<usize> = Vec::new();
    assert(edges.deep_view() =~= Seq::<usize>::empty());
    ImportDecision { status, target: None, diagnostic: None, edges }
}

fn decide_refused(status: ResolutionStatus, diagnostic: AnalysisDiagnostic) -> (r: ImportDecision)
    ensures
        r.deep_view() == refused(status, diagnostic.deep_view()),
{
    let edges: Vec<usize> = Vec::new();
    assert(edges.deep_view() =~= Seq::<usize>::empty());
    ImportDecision { status, target: None, diagnostic: Some(diagnostic), edges }
}

/// What a file is called below the root of the project.
pub open spec fn display_below(
    path: Seq<PathPartModel>,
    root: Seq<PathPartModel>,
) -> Seq<char> {
    match path_below(path, root) {
        Some(below) => written(below),
        None => written(path),
    }
}

/// What becomes of an import that was resolved to the file at `target`.
pub open spec fn file_decision(
    input: ResolutionInputModel,
    path: Seq<char>,
    import: ImportFactModel,
    target: Seq<PathPartModel>,
) -> ImportDecisionModel {
    match place_of_physical(input.files, target) {
        Some(place) => ImportDecisionModel {
            status: ResolutionStatus::Resolved,
            target: Some(input.files[place as int].display_path),
            diagnostic: None,
            edges: seq![place],
        },
        None => if through_dependencies(target) {
            quiet(ResolutionStatus::External)
        } else if path_below(target, input.root) is None {
            refused(
                ResolutionStatus::Unresolved,
                outside_analysis_root(path, import.specifier, import.span),
            )
        } else if inert_extension(extension_of(target)) {
            quiet(ResolutionStatus::External)
        } else if !source_extension(extension_of(target)) {
            refused(
                ResolutionStatus::Unsupported,
                unsupported_imported_source(path, import.specifier, import.span),
            )
        } else if input.universe_kind == SourceUniverseKind::Discovered {
            ImportDecisionModel {
                status: ResolutionStatus::External,
                target: Some(with_char(display_below(target, input.root), '\\', '/')),
                diagnostic: Some(
                    excluded_path(
                        path,
                        import.specifier,
                        import.span,
                        display_below(target, input.root),
                    ),
                ),
                edges: Seq::empty(),
            }
        } else {
            refused(
                ResolutionStatus::Unresolved,
                outside_universe(path, import.specifier, import.span),
            )
        },
    }
}

/// What becomes of an import of which the resolver says `resolution`.
pub open spec fn resolver_decision(
    input: ResolutionInputModel,
    path: Seq<char>,
    import: ImportFactModel,
    resolution: ModuleResolutionModel,
) -> ImportDecisionModel {
    let workspace = names_workspace_package(
        input.workspace_module_targets,
        npm_package(import.specifier),
    );
    match resolution {
        ModuleResolutionModel::External => if workspace {
            refused(
                ResolutionStatus::Unresolved,
                unresolved(
                    path,
                    import.specifier,
                    import.span,
                    "the workspace package target is not mapped into the analyzed source universe"@,
                ),
            )
        } else {
            quiet(ResolutionStatus::External)
        },
        ModuleResolutionModel::File(file) => if archived_external(
            import.specifier,
            file.path,
            workspace,
            input.yarn_pnp,
        ) {
            quiet(ResolutionStatus::External)
        } else {
            match file.canonical {
                Some(target) => file_decision(input, path, import, target),
                None => refused(
                    ResolutionStatus::Unresolved,
                    unresolved(
                        path,
                        import.specifier,
                        import.span,
                        "the resolved target could not be canonicalized"@,
                    ),
                ),
            }
        },
        ModuleResolutionModel::Failed => if workspace {
            refused(
                ResolutionStatus::Unresolved,
                unresolved(
                    path,
                    import.specifier,
                    import.span,
                    "the workspace package or subpath has no source target under the configured resolution profile"@,
                ),
            )
        } else if declared_external(import.specifier, input.external_packages) {
            quiet(ResolutionStatus::External)
        } else if relative_specifier(import.specifier) {
            refused(
                ResolutionStatus::Unresolved,
                unresolved(
                    path,
                    import.specifier,
                    import.span,
                    "no matching file exists under the configured resolution profile"@,
                ),
            )
        } else {
            refused(
                ResolutionStatus::Unsupported,
                unsupported_specifier(path, import.specifier, import.span),
            )
        },
    }
}

/// What becomes of an import in the file that is called `path`. Imports that take effect
/// later are left alone, and imports of workspace packages lead to their sources; only
/// what is left goes by the resolver.
pub open spec fn import_decision(
    input: ResolutionInputModel,
    path: Seq<char>,
    import: ImportFactModel,
    resolution: ModuleResolutionModel,
) -> ImportDecisionModel {
    let targets = workspace_targets(input, import);
    if import.activation == Activation::Deferred {
        quiet(ResolutionStatus::Deferred)
    } else if targets.len() > 0 {
        ImportDecisionModel {
            status: ResolutionStatus::Resolved,
            target: Some(input.files[targets[0] as int].display_path),
            diagnostic: None,
            edges: targets,
        }
    } else {
        resolver_decision(input, path, import, resolution)
    }
}

fn find_places(names: &Vec<String>, files: &Vec<PreparedFile>) -> (r: Vec<usize>)
    ensures
        r.deep_view() == places_of(names.deep_view(), files.deep_view()),
        forall|k: int| 0 <= k < r@.len() ==> #[trigger] r@[k] < files@.len(),
{
    let mut places: Vec<usize> = Vec::new();
    let ghost model = names.deep_view();
    let mut i: usize = 0;
    while i < names.len()
        invariant
            i <= names.len(),
            model == names.deep_view(),
            places.deep_view() =~= places_of(model.take(i as int), files.deep_view()),
            forall|k: int| 0 <= k < places@.len() ==> #[trigger] places@[k] < files@.len(),
        decreases names.len() - i,
    {
        proof {
            assert(model.take(i + 1).drop_last() =~= model.take(i as int));
            assert(model.take(i + 1).last() == names@[i as int].deep_view());
        }
        match find_display(files, &names[i]) {
            Some(place) => {
                push_item(&mut places, place);
            },
            None => {},
        }
        i = i + 1;
    }
    assert(model.take(i as int) =~= model);
    places
}

fn find_workspace_targets(input: &ResolutionInput, import: &ImportFact) -> (r: Vec<usize>)
    ensures
        r.deep_view() == workspace_targets(input.deep_view(), import.deep_view()),
        forall|k: int| 0 <= k < r@.len() ==> #[trigger] r@[k] < input.files@.len(),
{
    let targets: &Vec<WorkspaceModuleTarget> = &input.workspace_module_targets;
    let mut found: Option<usize> = None;
    let ghost specifier = import.specifier@;
    let ghost model = targets.deep_view();
    let mut i: usize = 0;
    while i < targets.len()
        invariant
            i <= targets.len(),
            model == targets.deep_view(),
            match found {
            Some(k) => k < i && target_of_specifier(model.take(i as int), specifier) == Some(
                targets@[k as int].deep_view(),
            ),
            None => target_of_specifier(model.take(i as int), specifier) is None,
        },
            specifier == import.specifier@,
        decreases targets.len() - i,
    {
        proof {
            assert(model.take(i + 1).drop_last() =~= model.take(i as int));
            assert(model.take(i + 1).last() == targets@[i as int].deep_view());
        }
        if found.is_none() && same(&targets[i].specifier, &import.specifier) {
            found = Some(i);
        }
        i = i + 1;
    }
    assert(model.take(i as int) =~= model);
    match found {
        Some(k) => {
            let target: &WorkspaceModuleTarget = &targets[k];
            let common_js: bool = match import.resolution_mode {
                ResolutionMode::Esm => false,
                ResolutionMode::CommonJs => target.common_js.len() > 0,
            };
            if common_js {
                find_places(&target.common_js, &input.files)
            } else {
                find_places(&target.esm, &input.files)
            }
        },
        None => {
            let none: Vec<usize> = Vec::new();
            assert(none.deep_view() =~= Seq::<usize>::empty());
            none
        },
    }
}

fn is_workspace_package(
    targets: &Vec<WorkspaceModuleTarget>,
    package: &Option<String>,
) -> (r: bool)
    ensures
        r == names_workspace_package(targets.deep_view(), package.deep_view()),
{
    let ghost model = targets.deep_view();
    match package {
        Some(name) => {
            let mut i: usize = 0;
            while i < targets.len()
                invariant
                    i <= targets.len(),
                    model == targets.deep_view(),
                    package.deep_view() == Some(name@),
                    forall|k: int| 0 <= k < i ==> (#[trigger] model[k]).package != name@,
                decreases targets.len() - i,
            {
                assert(model[i as int] == targets@[i as int].deep_view());
                if same(&targets[i].package, name) {
                    return true;
                }
                i = i + 1;
            }
            false
        },
        None => false,
    }
}

fn show_below(path: &FilePath, root: &FilePath) -> (r: String)
    ensures
        r@ == display_below(path.deep_view(), root.deep_view()),
{
    match path.strip_prefix(root) {
        Some(below) => below.text(),
        None => path.text(),
    }
}

fn decide_file(
    input: &ResolutionInput,
    path: &str,
    import: &ImportFact,
    target: &FilePath,
) -> (r: ImportDecision)
    ensures
        r.deep_view() == file_decision(
            input.deep_view(),
            path@,
            import.deep_view(),
            target.deep_view(),
        ),
{
    match find_physical(&input.files, target) {
        Some(place) => {
            let mut edges: Vec<usize> = Vec::new();
            push_item(&mut edges, place);
            assert(edges.deep_view() =~= seq![place]);
            ImportDecision {
                status: ResolutionStatus::Resolved,
                target: Some(input.files[place].display_path.replicate()),
                diagnostic: None,
                edges,
            }
        },
        None => {
            if is_dependency_path(target) {
                decide_quietly(ResolutionStatus::External)
            } else if target.strip_prefix(&input.root).is_none() {
                decide_refused(
                    ResolutionStatus::Unresolved,
                    outside_analysis_root_diagnostic(path, &import.specifier, import.span),
                )
            } else if is_inert_asset(target) {
                decide_quietly(ResolutionStatus::External)
            } else if !is_analyzable_source(target) {
                decide_refused(
                    ResolutionStatus::Unsupported,
                    unsupported_imported_source_diagnostic(path, &import.specifier, import.span),
                )
            } else if input.universe_kind == SourceUniverseKind::Discovered {
                let shown: String = show_below(target, &input.root);
                let edges: Vec<usize> = Vec::new();
                assert(edges.deep_view() =~= Seq::<usize>::empty());
                let diagnostic: AnalysisDiagnostic = excluded_path_diagnostic(
                    path,
                    &import.specifier,
                    import.span,
                    &shown,
                );
                ImportDecision {
                    status: ResolutionStatus::External,
                    target: Some(replace_char(&shown, '\\', '/')),
                    diagnostic: Some(diagnostic),
                    edges,
                }
            } else {
                decide_refused(
                    ResolutionStatus::Unresolved,
                    outside_universe_diagnostic(path, &import.specifier, import.span),
                )
            }
        },
    }
}

/// What becomes of an import that goes by what the resolver says of it.
pub fn decide_resolution(
    input: &ResolutionInput,
    path: &str,
    import: &ImportFact,
    resolution: &ModuleResolution,
) -> (r: ImportDecision)
    ensures
        r.deep_view() == resolver_decision(
            input.deep_view(),
            path@,
            import.deep_view(),
            resolution.deep_view(),
        ),
{
    let package: Option<String> = package_name(&import.specifier);
    let workspace: bool = is_workspace_package(&input.workspace_module_targets, &package);
    match resolution {
        ModuleResolution::External => {
            if workspace {
                decide_refused(
                    ResolutionStatus::Unresolved,
                    unresolved_diagnostic(
                        path,
                        &import.specifier,
                        import.span,
                        "the workspace package target is not mapped into the analyzed source universe",
                    ),
                )
            } else {
                decide_quietly(ResolutionStatus::External)
            }
        },
        ModuleResolution::File(file) => {
            if is_pnp_external_resolution(&import.specifier, &file.path, workspace, input.yarn_pnp) {
                decide_quietly(ResolutionStatus::External)
            } else {
                match &file.canonical {
                    Some(target) => decide_file(input, path, import, target),
                    None => decide_refused(
                        ResolutionStatus::Unresolved,
                        unresolved_diagnostic(
                            path,
                            &import.specifier,
                            import.span,
                            "the resolved target could not be canonicalized",
                        ),
                    ),
                }
            }
        },
        ModuleResolution::Failed => {
            if workspace {
                decide_refused(
                    ResolutionStatus::Unresolved,
                    unresolved_diagnostic(
                        path,
                        &import.specifier,
                        import.span,
                        "the workspace package or subpath has no source target under the configured resolution profile",
                    ),
                )
            } else if is_declared_external(&import.specifier, &input.external_packages) {
                decide_quietly(ResolutionStatus::External)
            } else if is_relative(&import.specifier) {
                decide_refused(
                    ResolutionStatus::Unresolved,
                    unresolved_diagnostic(
                        path,
                        &import.specifier,
                        import.span,
                        "no matching file exists under the configured resolution profile",
                    ),
                )
            } else {
                decide_refused(
                    ResolutionStatus::Unsupported,
                    unsupported_specifier_diagnostic(path, &import.specifier, import.span),
                )
            }
        },
    }
}

/// What becomes of an import in the file that is called `path`.
#[must_use]
pub fn decide_import(
    input: &ResolutionInput,
    path: &str,
    import: &ImportFact,
    resolution: &ModuleResolution,
) -> (r: ImportDecision)
    ensures
        r.deep_view() == import_decision(
            input.deep_view(),
            path@,
            import.deep_view(),
            resolution.deep_view(),
        ),
{
    let targets: Vec<usize> = find_workspace_targets(input, import);
    let n: usize = targets.len();
    if import.activation == Activation::Deferred {
        decide_quietly(ResolutionStatus::Deferred)
    } else if n > 0 {
        let first: usize = targets[0];
        assert(targets.deep_view()[0] == first);
        assert(input.files.deep_view()[first as int] == input.files@[first as int].deep_view());
        ImportDecision {
            status: ResolutionStatus::Resolved,
            target: Some(input.files[first].display_path.replicate()),
            diagnostic: None,
            edges: targets,
        }
    } else {
        decide_resolution(input, path, import, resolution)
    }
}

/// What the report says of an import.
pub open spec fn import_report(
    import: ImportFactModel,
    decision: ImportDecisionModel,
    target_profiles: Seq<Seq<char>>,
) -> ImportReportModel {
    ImportReportModel {
        specifier: import.specifier,
        kind: import.kind,
        resolution_mode: import.resolution_mode,
        activation: import.activation,
        type_only: import.type_only,
        status: decision.status,
        target_profiles,
        target: decision.target,
        span: import.span,
    }
}

/// What becomes of the imports of one file.
#[verifier::ext_equal]
pub struct FileImportsModel {
    pub edges: Seq<(usize, usize)>,
    pub imports: Seq<ImportReportModel>,
    pub diagnostics: Seq<AnalysisDiagnosticModel>,
}

/// Edges from one file to each of some others.
pub open spec fn edges_from(file: usize, targets: Seq<usize>) -> Seq<(usize, usize)> {
    targets.map_values(|target: usize| (file, target))
}

/// What becomes of the imports of the file at place `file`, with what the resolver says
/// of each.
pub open spec fn file_imports(
    input: ResolutionInputModel,
    file: usize,
    imports: Seq<ImportFactModel>,
    resolutions: Seq<ModuleResolutionModel>,
) -> FileImportsModel
    decreases imports.len(),
{
    if imports.len() == 0 {
        FileImportsModel {
            edges: Seq::empty(),
            imports: Seq::empty(),
            diagnostics: Seq::empty(),
        }
    } else {
        let rest = file_imports(input, file, imports.drop_last(), resolutions);
        let import = imports.last();
        let decision = import_decision(
            input,
            input.files[file as int].display_path,
            import,
            resolutions[imports.len() - 1],
        );
        FileImportsModel {
            edges: rest.edges + edges_from(file, decision.edges),
            imports: rest.imports.push(import_report(import, decision, input.target_profiles)),
            diagnostics: match decision.diagnostic {
                Some(diagnostic) => rest.diagnostics.push(diagnostic),
                None => rest.diagnostics,
            },
        }
    }
}

/// What becomes of the imports of the first files.
pub open spec fn resolved_imports(
    input: ResolutionInputModel,
    imports: Seq<Seq<ImportFactModel>>,
    diagnostics: Seq<Seq<AnalysisDiagnosticModel>>,
    resolutions: Seq<Seq<ModuleResolutionModel>>,
) -> ResolvedImportsModel
    decreases imports.len(),
{
    if imports.len() == 0 {
        ResolvedImportsModel {
            edges: Seq::empty(),
            imports: Seq::empty(),
            diagnostics: Seq::empty(),
        }
    } else {
        let n = imports.len() - 1;
        let rest = resolved_imports(input, imports.drop_last(), diagnostics, resolutions);
        let own = file_imports(input, n as usize, imports.last(), resolutions[n]);
        ResolvedImportsModel {
            edges: rest.edges + own.edges,
            imports: rest.imports.push(own.imports),
            diagnostics: rest.diagnostics.push(
                sorted_by::<AnalysisDiagnostic, ByPlace>(diagnostics[n] + own.diagnostics),
            ),
        }
    }
}

/// What becomes of all imports: which file uses which, what the report says of each
/// import, and the diagnostics of each file, those it had before among them.
#[must_use]
pub fn resolve_imports(
    input: &ResolutionInput,
    imports: &Vec<Vec<ImportFact>>,
    diagnostics: &Vec<Vec<AnalysisDiagnostic>>,
    resolutions: &Vec<Vec<ModuleResolution>>,
) -> (r: ResolvedImports)
    requires
        imports@.len() == input.files@.len(),
        diagnostics@.len() == input.files@.len(),
        resolutions@.len() == input.files@.len(),
        forall|i: int|
            0 <= i < imports@.len() ==> (#[trigger] imports@[i])@.len() == resolutions@[i]@.len(),
    ensures
        r.deep_view() == resolved_imports(
            input.deep_view(),
            imports.deep_view(),
            diagnostics.deep_view(),
            resolutions.deep_view(),
        ),
{
    let ghost context = input.deep_view();
    let ghost model = imports.deep_view();
    let ghost before = diagnostics.deep_view();
    let ghost said = resolutions.deep_view();
    let mut edges: Vec<(usize, usize)> = Vec::new();
    let mut reports: Vec<Vec<ImportReport>> = Vec::new();
    let mut notices: Vec<Vec<AnalysisDiagnostic>> = Vec::new();
    let mut i: usize = 0;
    while i < imports.len()
        invariant
            i <= imports.len(),
            imports@.len() == input.files@.len(),
            diagnostics@.len() == input.files@.len(),
            resolutions@.len() == input.files@.len(),
            forall|k: int|
                0 <= k < imports@.len() ==> (#[trigger] imports@[k])@.len()
                    == resolutions@[k]@.len(),
            context == input.deep_view(),
            model == imports.deep_view(),
            before == diagnostics.deep_view(),
            said == resolutions.deep_view(),
            edges.deep_view() =~= resolved_imports(
                context,
                model.take(i as int),
                before,
                said,
            ).edges,
            reports.deep_view() =~= resolved_imports(
                context,
                model.take(i as int),
                before,
                said,
            ).imports,
            notices.deep_view() =~= resolved_imports(
                context,
                model.take(i as int),
                before,
                said,
            ).diagnostics,
        decreases imports.len() - i,
    {
        proof {
            assert(model.take(i + 1).drop_last() =~= model.take(i as int));
            assert(model.take(i + 1).last() == imports@[i as int].deep_view());
            assert(before[i as int] == diagnostics@[i as int].deep_view());
            assert(said[i as int] == resolutions@[i as int].deep_view());
        }
        let mut own: Vec<ImportReport> = Vec::new();
        let mut own_notices: Vec<AnalysisDiagnostic> = diagnostics[i].replicate();
        let ghost earlier = edges.deep_view();
        resolve_file(
            input,
            i,
            &imports[i],
            &resolutions[i],
            &mut edges,
            &mut own,
            &mut own_notices,
        );
        sort_diagnostics(&mut own_notices);
        push_item(&mut reports, own);
        push_item(&mut notices, own_notices);
        i = i + 1;
    }
    assert(model.take(i as int) =~= model);
    ResolvedImports { edges, imports: reports, diagnostics: notices }
}

fn resolve_file(
    input: &ResolutionInput,
    file: usize,
    imports: &Vec<ImportFact>,
    resolutions: &Vec<ModuleResolution>,
    edges: &mut Vec<(usize, usize)>,
    reports: &mut Vec<ImportReport>,
    notices: &mut Vec<AnalysisDiagnostic>,
)
    requires
        file < input.files@.len(),
        imports@.len() == resolutions@.len(),
        old(reports)@.len() == 0,
    ensures
        ({
            let own = file_imports(
                input.deep_view(),
                file,
                imports.deep_view(),
                resolutions.deep_view(),
            );
            &&& final(edges).deep_view() == old(edges).deep_view() + own.edges
            &&& final(reports).deep_view() == own.imports
            &&& final(notices).deep_view() == old(notices).deep_view() + own.diagnostics
        }),
{
    let ghost context = input.deep_view();
    let ghost model = imports.deep_view();
    let ghost said = resolutions.deep_view();
    let ghost first_edges = edges.deep_view();
    let ghost first_notices = notices.deep_view();
    let ghost path = context.files[file as int].display_path;
    assert(path == input.files@[file as int].display_path@);
    let mut i: usize = 0;
    while i < imports.len()
        invariant
            i <= imports.len(),
            file < input.files@.len(),
            imports@.len() == resolutions@.len(),
            context == input.deep_view(),
            path == context.files[file as int].display_path,
            path == input.files@[file as int].display_path@,
            model == imports.deep_view(),
            said == resolutions.deep_view(),
            edges.deep_view() =~= first_edges + file_imports(
                context,
                file,
                model.take(i as int),
                said,
            ).edges,
            reports.deep_view() =~= file_imports(context, file, model.take(i as int), said).imports,
            notices.deep_view() =~= first_notices + file_imports(
                context,
                file,
                model.take(i as int),
                said,
            ).diagnostics,
        decreases imports.len() - i,
    {
        proof {
            assert(model.take(i + 1).drop_last() =~= model.take(i as int));
            assert(model.take(i + 1).last() == imports@[i as int].deep_view());
            assert(said[i as int] == resolutions@[i as int].deep_view());
        }
        let import: &ImportFact = &imports[i];
        let decision: ImportDecision = decide_import(
            input,
            &input.files[file].display_path,
            import,
            &resolutions[i],
        );
        let ghost decided = decision.deep_view();
        let ghost rest = file_imports(context, file, model.take(i as int), said);
        add_edges(edges, file, &decision.edges);
        push_item(
            reports,
            ImportReport {
                specifier: import.specifier.replicate(),
                kind: import.kind,
                resolution_mode: import.resolution_mode,
                activation: import.activation,
                type_only: import.type_only,
                status: decision.status,
                target_profiles: input.target_profiles.replicate(),
                target: decision.target.replicate(),
                span: import.span,
            },
        );
        match &decision.diagnostic {
            Some(diagnostic) => {
                push_item(notices, diagnostic.replicate());
            },
            None => {},
        }
        i = i + 1;
    }
    assert(model.take(i as int) =~= model);
}

fn add_edges(edges: &mut Vec<(usize, usize)>, file: usize, targets: &Vec<usize>)
    ensures
        final(edges).deep_view() == old(edges).deep_view() + edges_from(file, targets.deep_view()),
{
    let ghost first = edges.deep_view();
    let ghost model = targets.deep_view();
    let mut i: usize = 0;
    while i < targets.len()
        invariant
            i <= targets.len(),
            model == targets.deep_view(),
            edges.deep_view() =~= first + edges_from(file, model.take(i as int)),
        decreases targets.len() - i,
    {
        proof {
            assert(model.take(i + 1).drop_last() =~= model.take(i as int));
            assert(model.take(i + 1).last() == targets@[i as int].deep_view());
        }
        push_item(edges, (file, targets[i]));
        assert(edges_from(file, model.take(i + 1)) =~= edges_from(file, model.take(i as int)).push(
            (file, targets@[i as int]),
        ));
        i = i + 1;
    }
    assert(model.take(i as int) =~= model);
}

/// Imports by place, specifier and target.
pub struct ByImportPlace;

impl Ranking<ImportReport> for ByImportPlace {
    type Key = (u32, (u32, (String, Option<String>)));

    open spec fn key(m: ImportReportModel) -> (u32, (u32, (Seq<char>, Option<Seq<char>>))) {
        (m.span.start, (m.span.end, (m.specifier, m.target)))
    }

    fn ranks_before(a: &ImportReport, b: &ImportReport) -> (r: bool) {
        assert(a.span.start.deep_view() == a.span.start && b.span.start.deep_view() == b.span.start);
        assert(a.span.end.deep_view() == a.span.end && b.span.end.deep_view() == b.span.end);
        a.span.start.is_before(&b.span.start) || (a.span.start == b.span.start && (a.span.end.is_before(&b.span.end) || (a.span.end == b.span.end && (a.specifier.is_before(&b.specifier) || (a.specifier.same_value(&b.specifier) && (a.target.is_before(&b.target)))))))
    }
}

/// What the report says of a use of a file that no import shows.
pub open spec fn edge_report(edge: AdditionalFileEdgeModel) -> ImportReportModel {
    ImportReportModel {
        specifier: "plugin: "@ + edge.reason,
        kind: ImportKind::Plugin,
        resolution_mode: ResolutionMode::Esm,
        activation: Activation::Module,
        type_only: false,
        status: ResolutionStatus::Resolved,
        target_profiles: Seq::empty(),
        target: Some(edge.to),
        span: SourceSpan { start: 0, end: 0 },
    }
}

/// The imports and the edges with the uses that no import shows.
#[verifier::ext_equal]
pub struct WithEdgesModel {
    pub edges: Seq<(usize, usize)>,
    pub imports: Seq<Seq<ImportReportModel>>,
}

/// The imports and the edges with the uses that no import shows, as far as both files of
/// a use are there.
pub open spec fn with_edges(
    start: WithEdgesModel,
    files: Seq<PreparedFileModel>,
    additional: Seq<AdditionalFileEdgeModel>,
) -> WithEdgesModel
    decreases additional.len(),
{
    if additional.len() == 0 {
        start
    } else {
        let rest = with_edges(start, files, additional.drop_last());
        let edge = additional.last();
        match (place_of_display(files, edge.from), place_of_display(files, edge.to)) {
            (Some(from), Some(to)) => WithEdgesModel {
                edges: rest.edges.push((from, to)),
                imports: rest.imports.update(
                    from as int,
                    rest.imports[from as int].push(edge_report(edge)),
                ),
            },
            _ => rest,
        }
    }
}

/// Adds uses of files that no import shows, and puts the imports of each file in order.
pub fn add_additional_file_edges(
    edges: &mut Vec<(usize, usize)>,
    imports: &mut Vec<Vec<ImportReport>>,
    files: &Vec<PreparedFile>,
    additional: &Vec<AdditionalFileEdge>,
)
    requires
        old(imports)@.len() == files@.len(),
    ensures
        ({
            let added = with_edges(
                WithEdgesModel {
                    edges: old(edges).deep_view(),
                    imports: old(imports).deep_view(),
                },
                files.deep_view(),
                additional.deep_view(),
            );
            &&& final(edges).deep_view() == added.edges
            &&& final(imports).deep_view() == added.imports.map_values(
                |own: Seq<ImportReportModel>| sorted_by::<ImportReport, ByImportPlace>(own),
            )
        }),
{
    let ghost start = WithEdgesModel { edges: edges.deep_view(), imports: imports.deep_view() };
    let ghost places = files.deep_view();
    let ghost model = additional.deep_view();
    let mut i: usize = 0;
    while i < additional.len()
        invariant
            i <= additional.len(),
            model == additional.deep_view(),
            edges.deep_view() == with_edges(start, places, model.take(i as int)).edges,
            imports.deep_view() == with_edges(start, places, model.take(i as int)).imports,
            places == files.deep_view(),
            imports@.len() == files@.len(),
        decreases additional.len() - i,
    {
        proof {
            assert(model.take(i + 1).drop_last() =~= model.take(i as int));
            assert(model.take(i + 1).last() == additional@[i as int].deep_view());
        }
        let edge: &AdditionalFileEdge = &additional[i];
        match (find_display(files, &edge.from), find_display(files, &edge.to)) {
            (Some(from), Some(to)) => {
                push_item(edges, (from, to));
                let ghost held = imports.deep_view();
                let mut own: Vec<ImportReport> = imports[from].replicate();
                let none: Vec<String> = Vec::new();
                assert(none.deep_view() =~= Seq::<Seq<char>>::empty());
                push_item(
                    &mut own,
                    ImportReport {
                        specifier: concat2("plugin: ", &edge.reason),
                        kind: ImportKind::Plugin,
                        resolution_mode: ResolutionMode::Esm,
                        activation: Activation::Module,
                        type_only: false,
                        status: ResolutionStatus::Resolved,
                        target_profiles: none,
                        target: Some(edge.to.replicate()),
                        span: SourceSpan { start: 0, end: 0 },
                    },
                );
                replace_item(imports, from, own);
            },
            _ => {},
        }
        i = i + 1;
    }
    assert(model.take(i as int) =~= model);
    let ghost added = imports.deep_view();
    let mut k: usize = 0;
    while k < imports.len()
        invariant
            k <= imports.len(),
            imports@.len() == added.len(),
            forall|j: int|
                0 <= j < k ==> #[trigger] imports.deep_view()[j] == sorted_by::<
                    ImportReport,
                    ByImportPlace,
                >(added[j]),
            forall|j: int| k <= j < added.len() ==> #[trigger] imports.deep_view()[j] == added[j],
        decreases imports.len() - k,
    {
        let mut own: Vec<ImportReport> = imports[k].replicate();
        assert(imports.deep_view()[k as int] == imports@[k as int].deep_view());
        sort_by::<ImportReport, ByImportPlace>(&mut own);
        replace_item(imports, k, own);
        k = k + 1;
    }
    assert(imports.deep_view() =~= added.map_values(
        |own: Seq<ImportReportModel>| sorted_by::<ImportReport, ByImportPlace>(own),
    ));
}

proof fn place_of_display_is_inside(files: Seq<PreparedFileModel>, path: Seq<char>)
    requires
        files.len() <= usize::MAX,
    ensures
        place_of_display(files, path) matches Some(i) ==> i < files.len()
            && files[i as int].display_path == path,
    decreases files.len(),
{
    if files.len() > 0 && files.last().display_path != path {
        place_of_display_is_inside(files.drop_last(), path);
    }
}

proof fn place_of_physical_is_inside(files: Seq<PreparedFileModel>, path: Seq<PathPartModel>)
    requires
        files.len() <= usize::MAX,
    ensures
        place_of_physical(files, path) matches Some(i) ==> i < files.len()
            && files[i as int].physical_path == path,
    decreases files.len(),
{
    if files.len() > 0 && files.last().physical_path != path {
        place_of_physical_is_inside(files.drop_last(), path);
    }
}

proof fn places_are_inside(names: Seq<Seq<char>>, files: Seq<PreparedFileModel>)
    requires
        files.len() <= usize::MAX,
    ensures
        forall|k: int|
            0 <= k < places_of(names, files).len() ==> #[trigger] places_of(names, files)[k]
                < files.len(),
    decreases names.len(),
{
    if names.len() > 0 {
        places_are_inside(names.drop_last(), files);
        place_of_display_is_inside(files, names.last());
        let rest = places_of(names.drop_last(), files);
        assert forall|k: int| 0 <= k < places_of(names, files).len() implies #[trigger] places_of(
            names,
            files,
        )[k] < files.len() by {
            if k < rest.len() {
                assert(places_of(names, files)[k] == rest[k]);
            }
        }
    }
}

/// An import is called resolved exactly where it makes the file use others. Those are
/// files of the project, and the target that is reported is the first of them.
pub proof fn resolved_imports_lead_to_files(
    input: ResolutionInputModel,
    path: Seq<char>,
    import: ImportFactModel,
    resolution: ModuleResolutionModel,
)
    requires
        input.files.len() <= usize::MAX,
    ensures
        ({
            let decision = import_decision(input, path, import, resolution);
            &&& decision.status == ResolutionStatus::Resolved <==> decision.edges.len() > 0
            &&& decision.status == ResolutionStatus::Resolved ==> decision.target == Some(
                input.files[decision.edges[0] as int].display_path,
            )
            &&& forall|k: int|
                0 <= k < decision.edges.len() ==> #[trigger] decision.edges[k] < input.files.len()
        }),
{
    match target_of_specifier(input.workspace_module_targets, import.specifier) {
        Some(target) => {
            places_are_inside(files_for_mode(target, import.resolution_mode), input.files);
        },
        None => {},
    }
    match resolution {
        ModuleResolutionModel::File(file) => {
            if file.canonical is Some {
                place_of_physical_is_inside(input.files, file.canonical->0);
            }
        },
        _ => {},
    }
}

/// What stands in the way of conclusions is an import that is unresolved or not
/// supported, and each such import does.
pub proof fn gaps_block_conclusions(
    input: ResolutionInputModel,
    path: Seq<char>,
    import: ImportFactModel,
    resolution: ModuleResolutionModel,
)
    ensures
        ({
            let decision = import_decision(input, path, import, resolution);
            (decision.status == ResolutionStatus::Unresolved || decision.status
                == ResolutionStatus::Unsupported) <==> (decision.diagnostic is Some
                && decision.diagnostic->0.blocks_reachability)
        }),
{
}

/// Where discovery made the list of files, an import of a source file of the project that
/// is not on the list is a visible boundary that blocks nothing. Where the caller made
/// the list, it is an error that blocks conclusions.
pub proof fn excluded_files_are_boundaries(
    input: ResolutionInputModel,
    path: Seq<char>,
    import: ImportFactModel,
    target: Seq<PathPartModel>,
)
    requires
        place_of_physical(input.files, target) is None,
        !through_dependencies(target),
        path_below(target, input.root) is Some,
        source_extension(extension_of(target)),
        !inert_extension(extension_of(target)),
    ensures
        ({
            let decision = file_decision(input, path, import, target);
            &&& decision.diagnostic is Some
            &&& decision.edges.len() == 0
            &&& input.universe_kind == SourceUniverseKind::Discovered ==> {
                &&& decision.status == ResolutionStatus::External
                &&& decision.diagnostic->0.severity == DiagnosticSeverity::Warning
                &&& !decision.diagnostic->0.blocks_reachability
            }
            &&& input.universe_kind == SourceUniverseKind::Explicit ==> {
                &&& decision.status == ResolutionStatus::Unresolved
                &&& decision.diagnostic->0.severity == DiagnosticSeverity::Error
                &&& decision.diagnostic->0.blocks_reachability
            }
        }),
{
}

proof fn file_edges_are_inside(
    input: ResolutionInputModel,
    file: usize,
    imports: Seq<ImportFactModel>,
    resolutions: Seq<ModuleResolutionModel>,
)
    requires
        input.files.len() <= usize::MAX,
        file < input.files.len(),
    ensures
        forall|k: int|
            0 <= k < file_imports(input, file, imports, resolutions).edges.len() ==> {
                let edge = #[trigger] file_imports(input, file, imports, resolutions).edges[k];
                edge.0 < input.files.len() && edge.1 < input.files.len()
            },
    decreases imports.len(),
{
    if imports.len() > 0 {
        file_edges_are_inside(input, file, imports.drop_last(), resolutions);
        resolved_imports_lead_to_files(
            input,
            input.files[file as int].display_path,
            imports.last(),
            resolutions[imports.len() - 1],
        );
        let rest = file_imports(input, file, imports.drop_last(), resolutions).edges;
        let all = file_imports(input, file, imports, resolutions).edges;
        let decision = import_decision(
            input,
            input.files[file as int].display_path,
            imports.last(),
            resolutions[imports.len() - 1],
        );
        assert forall|k: int| 0 <= k < all.len() implies {
            let edge = #[trigger] all[k];
            edge.0 < input.files.len() && edge.1 < input.files.len()
        } by {
            if k < rest.len() {
                assert(all[k] == rest[k]);
            } else {
                assert(all[k] == (file, decision.edges[k - rest.len()]));
            }
        }
    }
}

/// What becomes of all imports has a list for each file, and its edges are between files
/// of the project.
pub proof fn edges_are_inside(
    input: ResolutionInputModel,
    imports: Seq<Seq<ImportFactModel>>,
    diagnostics: Seq<Seq<AnalysisDiagnosticModel>>,
    resolutions: Seq<Seq<ModuleResolutionModel>>,
)
    requires
        input.files.len() <= usize::MAX,
        imports.len() <= input.files.len(),
    ensures
        ({
            let resolved = resolved_imports(input, imports, diagnostics, resolutions);
            &&& resolved.imports.len() == imports.len()
            &&& resolved.diagnostics.len() == imports.len()
            &&& forall|k: int|
                0 <= k < resolved.edges.len() ==> (#[trigger] resolved.edges[k]).0
                    < input.files.len() && resolved.edges[k].1 < input.files.len()
        }),
    decreases imports.len(),
{
    if imports.len() > 0 {
        let n = imports.len() - 1;
        edges_are_inside(input, imports.drop_last(), diagnostics, resolutions);
        file_edges_are_inside(input, n as usize, imports.last(), resolutions[n]);
        let rest = resolved_imports(input, imports.drop_last(), diagnostics, resolutions).edges;
        let own = file_imports(input, n as usize, imports.last(), resolutions[n]).edges;
        let all = resolved_imports(input, imports, diagnostics, resolutions).edges;
        assert forall|k: int| 0 <= k < all.len() implies (#[trigger] all[k]).0 < input.files.len()
            && all[k].1 < input.files.len() by {
            if k < rest.len() {
                assert(all[k] == rest[k]);
            } else {
                assert(all[k] == own[k - rest.len()]);
            }
        }
    }
}

/// Uses that no import shows are between files of the project too.
pub proof fn added_edges_are_inside(
    start: WithEdgesModel,
    files: Seq<PreparedFileModel>,
    additional: Seq<AdditionalFileEdgeModel>,
)
    requires
        files.len() <= usize::MAX,
        start.imports.len() == files.len(),
        forall|k: int|
            0 <= k < start.edges.len() ==> (#[trigger] start.edges[k]).0 < files.len()
                && start.edges[k].1 < files.len(),
    ensures
        ({
            let added = with_edges(start, files, additional);
            &&& added.imports.len() == files.len()
            &&& forall|k: int|
                0 <= k < added.edges.len() ==> (#[trigger] added.edges[k]).0 < files.len()
                    && added.edges[k].1 < files.len()
        }),
    decreases additional.len(),
{
    if additional.len() > 0 {
        added_edges_are_inside(start, files, additional.drop_last());
        place_of_display_is_inside(files, additional.last().from);
        place_of_display_is_inside(files, additional.last().to);
        let rest = with_edges(start, files, additional.drop_last()).edges;
        let all = with_edges(start, files, additional).edges;
        assert forall|k: int| 0 <= k < all.len() implies (#[trigger] all[k]).0 < files.len()
            && all[k].1 < files.len() by {
            if k < rest.len() {
                assert(all[k] == rest[k]);
            }
        }
    }
}

/// Every import has its row in the report, in the order of the imports.
pub proof fn every_import_is_reported(
    input: ResolutionInputModel,
    file: usize,
    imports: Seq<ImportFactModel>,
    resolutions: Seq<ModuleResolutionModel>,
)
    ensures
        ({
            let own = file_imports(input, file, imports, resolutions);
            &&& own.imports.len() == imports.len()
            &&& forall|i: int|
                0 <= i < imports.len() ==> (#[trigger] own.imports[i]).specifier
                    == imports[i].specifier && own.imports[i].span == imports[i].span
        }),
    decreases imports.len(),
{
    if imports.len() > 0 {
        every_import_is_reported(input, file, imports.drop_last(), resolutions);
    }
}

} // verus!
