//! The packages of a project, and how they are configured.

use crate::analysis::members::AnalysisMode;
use crate::collections::{OrderedMap, OrderedSet};
use crate::discovery::scripts::{ScriptAnalysis, ScriptAnalysisModel};
use crate::domain::target::WorldMode;
use crate::paths::{
    extension_of, is_analyzable_source, path_below, slashed, source_extension, FilePath,
    PathPartModel,
};
use crate::plugins::contract::{DetectedBuiltinPlugin, DetectedBuiltinPluginModel};
use crate::values::{Ordered, Value};
use vstd::prelude::*;

verus! {

/// A value of a JSON document. The members of an object stand in the order of its keys.
#[derive(Debug, PartialEq, Eq)]
pub enum Json {
    Null,
    Bool(bool),
    Number(String),
    Text(String),
    List(Vec<Json>),
    Object(Vec<(String, Json)>),
}

impl DeepView for Json {
    type V = Json;

    open spec fn deep_view(&self) -> Json {
        *self
    }
}

/// For whom a manifest declares entries.
#[derive(Debug, Clone, Copy, PartialEq, Eq, Structural)]
pub enum EntryTargetProfile {
    NodeImport,
    NodeRequire,
    Bundler,
    Browser,
    Types,
    CommandLine,
}

impl DeepView for EntryTargetProfile {
    type V = EntryTargetProfile;

    open spec fn deep_view(&self) -> EntryTargetProfile {
        *self
    }
}

impl Value for EntryTargetProfile {
    fn replicate(&self) -> (r: Self) {
        *self
    }

    fn same_value(&self, other: &Self) -> (r: bool) {
        *self == *other
    }
}

impl EntryTargetProfile {
    /// The place of the variant in the order of the type.
    pub open spec fn place(self) -> nat {
        match self {
            EntryTargetProfile::NodeImport => 0,
            EntryTargetProfile::NodeRequire => 1,
            EntryTargetProfile::Bundler => 2,
            EntryTargetProfile::Browser => 3,
            EntryTargetProfile::Types => 4,
            EntryTargetProfile::CommandLine => 5,
        }
    }

    fn place_of(&self) -> (r: u8)
        ensures
            r == self.place(),
    {
        match self {
            EntryTargetProfile::NodeImport => 0,
            EntryTargetProfile::NodeRequire => 1,
            EntryTargetProfile::Bundler => 2,
            EntryTargetProfile::Browser => 3,
            EntryTargetProfile::Types => 4,
            EntryTargetProfile::CommandLine => 5,
        }
    }
}

impl Ordered for EntryTargetProfile {
    open spec fn before(a: EntryTargetProfile, b: EntryTargetProfile) -> bool {
        a.place() < b.place()
    }

    fn is_before(&self, other: &Self) -> (r: bool) {
        assert(Self::before(*self, *other) == (self.place() < other.place()));
        self.place_of() < other.place_of()
    }

    proof fn before_irreflexive(a: EntryTargetProfile) {
    }

    proof fn before_transitive(
        a: EntryTargetProfile,
        b: EntryTargetProfile,
        c: EntryTargetProfile,
    ) {
    }

    proof fn before_total(a: EntryTargetProfile, b: EntryTargetProfile) {
    }
}

/// An entry that a manifest declares, and in which field.
#[derive(Debug, PartialEq, Eq)]
pub struct PackageEntryRoot {
    pub path: FilePath,
    pub field: String,
}

/// What a [`PackageEntryRoot`] holds.
pub struct PackageEntryRootModel {
    pub path: Seq<PathPartModel>,
    pub field: Seq<char>,
}

impl DeepView for PackageEntryRoot {
    type V = PackageEntryRootModel;

    open spec fn deep_view(&self) -> PackageEntryRootModel {
        PackageEntryRootModel {
            path: self.path.deep_view(),
            field: self.field.deep_view(),
        }
    }
}

impl Value for PackageEntryRoot {
    fn replicate(&self) -> (r: Self) {
        PackageEntryRoot {
            path: self.path.replicate(),
            field: self.field.replicate(),
        }
    }

    fn same_value(&self, other: &Self) -> (r: bool) {
        self.path.same_value(&other.path)
            && self.field.same_value(&other.field)
    }
}

/// The manifest of a package.
#[derive(Debug, PartialEq, Eq)]
pub struct PackageManifest {
    pub name: Option<String>,
    pub private: bool,
    pub package_type: Option<String>,
    pub dependencies: OrderedMap<String, String>,
    pub dev_dependencies: OrderedMap<String, String>,
    pub peer_dependencies: OrderedMap<String, String>,
    pub optional_dependencies: OrderedMap<String, String>,
    pub bundled_dependencies: OrderedSet<String>,
    pub exports: Option<Json>,
    /// The entries that it declares.
    pub entry_roots: OrderedMap<EntryTargetProfile, Vec<PackageEntryRoot>>,
}

/// What a [`PackageManifest`] holds.
pub struct PackageManifestModel {
    pub name: Option<Seq<char>>,
    pub private: bool,
    pub package_type: Option<Seq<char>>,
    pub dependencies: Seq<(Seq<char>, Seq<char>)>,
    pub dev_dependencies: Seq<(Seq<char>, Seq<char>)>,
    pub peer_dependencies: Seq<(Seq<char>, Seq<char>)>,
    pub optional_dependencies: Seq<(Seq<char>, Seq<char>)>,
    pub bundled_dependencies: Seq<Seq<char>>,
    pub exports: Option<Json>,
    pub entry_roots: Seq<(EntryTargetProfile, Seq<PackageEntryRootModel>)>,
}

impl DeepView for PackageManifest {
    type V = PackageManifestModel;

    open spec fn deep_view(&self) -> PackageManifestModel {
        PackageManifestModel {
            name: self.name.deep_view(),
            private: self.private.deep_view(),
            package_type: self.package_type.deep_view(),
            dependencies: self.dependencies.deep_view(),
            dev_dependencies: self.dev_dependencies.deep_view(),
            peer_dependencies: self.peer_dependencies.deep_view(),
            optional_dependencies: self.optional_dependencies.deep_view(),
            bundled_dependencies: self.bundled_dependencies.deep_view(),
            exports: self.exports.deep_view(),
            entry_roots: self.entry_roots.deep_view(),
        }
    }
}

/// A package of a project.
#[derive(Debug, PartialEq, Eq)]
pub struct WorkspacePackage {
    pub root: FilePath,
    pub manifest: PackageManifest,
}

/// What a [`WorkspacePackage`] holds.
pub struct WorkspacePackageModel {
    pub root: Seq<PathPartModel>,
    pub manifest: PackageManifestModel,
}

impl DeepView for WorkspacePackage {
    type V = WorkspacePackageModel;

    open spec fn deep_view(&self) -> WorkspacePackageModel {
        WorkspacePackageModel {
            root: self.root.deep_view(),
            manifest: self.manifest.deep_view(),
        }
    }
}

/// The program that installs the packages of a project.
#[derive(Debug, Clone, Copy, PartialEq, Eq, Structural)]
pub enum WorkspacePackageManager {
    Npm,
    Pnpm,
    Yarn,
    Bun,
    Other,
}

impl DeepView for WorkspacePackageManager {
    type V = WorkspacePackageManager;

    open spec fn deep_view(&self) -> WorkspacePackageManager {
        *self
    }
}

impl Value for WorkspacePackageManager {
    fn replicate(&self) -> (r: Self) {
        *self
    }

    fn same_value(&self, other: &Self) -> (r: bool) {
        *self == *other
    }
}

/// Whether dependencies can be removed from a project: it has a package manager, and one that is
/// known.
pub open spec fn removes_packages(manager: Option<WorkspacePackageManager>) -> bool {
    match manager {
        Some(WorkspacePackageManager::Npm) => true,
        Some(WorkspacePackageManager::Pnpm) => true,
        Some(WorkspacePackageManager::Yarn) => true,
        Some(WorkspacePackageManager::Bun) => true,
        Some(WorkspacePackageManager::Other) => false,
        None => false,
    }
}

/// Whether dependencies can be removed from a project.
#[must_use]
pub fn can_remove_packages(manager: Option<WorkspacePackageManager>) -> (r: bool)
    ensures
        r == removes_packages(manager),
{
    match manager {
        Some(WorkspacePackageManager::Npm) => true,
        Some(WorkspacePackageManager::Pnpm) => true,
        Some(WorkspacePackageManager::Yarn) => true,
        Some(WorkspacePackageManager::Bun) => true,
        Some(WorkspacePackageManager::Other) => false,
        None => false,
    }
}

/// The packages of a project.
#[derive(Debug, PartialEq, Eq)]
pub struct WorkspaceDiscovery {
    pub workspace_root: FilePath,
    pub packages: Vec<WorkspacePackage>,
    pub package_manager: Option<WorkspacePackageManager>,
    pub yarn_plug_and_play: Vec<FilePath>,
}

/// What a [`WorkspaceDiscovery`] holds.
pub struct WorkspaceDiscoveryModel {
    pub workspace_root: Seq<PathPartModel>,
    pub packages: Seq<WorkspacePackageModel>,
    pub package_manager: Option<WorkspacePackageManager>,
    pub yarn_plug_and_play: Seq<Seq<PathPartModel>>,
}

impl DeepView for WorkspaceDiscovery {
    type V = WorkspaceDiscoveryModel;

    open spec fn deep_view(&self) -> WorkspaceDiscoveryModel {
        WorkspaceDiscoveryModel {
            workspace_root: self.workspace_root.deep_view(),
            packages: self.packages.deep_view(),
            package_manager: self.package_manager.deep_view(),
            yarn_plug_and_play: self.yarn_plug_and_play.deep_view(),
        }
    }
}

/// The language that a configuration of the compiler is for.
#[derive(Debug, Clone, Copy, PartialEq, Eq, Structural)]
pub enum ProjectConfigurationKind {
    TypeScript,
    JavaScript,
}

impl DeepView for ProjectConfigurationKind {
    type V = ProjectConfigurationKind;

    open spec fn deep_view(&self) -> ProjectConfigurationKind {
        *self
    }
}

impl Value for ProjectConfigurationKind {
    fn replicate(&self) -> (r: Self) {
        *self
    }

    fn same_value(&self, other: &Self) -> (r: bool) {
        *self == *other
    }
}

/// A configuration of the compiler: where it is, what it is for, from where to where it
/// emits, and which packages it names.
#[derive(Debug, PartialEq, Eq)]
pub struct ProjectConfiguration {
    pub path: FilePath,
    pub root: FilePath,
    pub kind: ProjectConfigurationKind,
    pub root_dir: Option<FilePath>,
    pub out_dir: Option<FilePath>,
    pub dependency_evidence: Vec<String>,
}

/// What a [`ProjectConfiguration`] holds.
pub struct ProjectConfigurationModel {
    pub path: Seq<PathPartModel>,
    pub root: Seq<PathPartModel>,
    pub kind: ProjectConfigurationKind,
    pub root_dir: Option<Seq<PathPartModel>>,
    pub out_dir: Option<Seq<PathPartModel>>,
    pub dependency_evidence: Seq<Seq<char>>,
}

impl DeepView for ProjectConfiguration {
    type V = ProjectConfigurationModel;

    open spec fn deep_view(&self) -> ProjectConfigurationModel {
        ProjectConfigurationModel {
            path: self.path.deep_view(),
            root: self.root.deep_view(),
            kind: self.kind.deep_view(),
            root_dir: self.root_dir.deep_view(),
            out_dir: self.out_dir.deep_view(),
            dependency_evidence: self.dependency_evidence.deep_view(),
        }
    }
}

impl Value for ProjectConfiguration {
    fn replicate(&self) -> (r: Self) {
        ProjectConfiguration {
            path: self.path.replicate(),
            root: self.root.replicate(),
            kind: self.kind.replicate(),
            root_dir: self.root_dir.replicate(),
            out_dir: self.out_dir.replicate(),
            dependency_evidence: self.dependency_evidence.replicate(),
        }
    }

    fn same_value(&self, other: &Self) -> (r: bool) {
        self.path.same_value(&other.path)
            && self.root.same_value(&other.root)
            && self.kind.same_value(&other.kind)
            && self.root_dir.same_value(&other.root_dir)
            && self.out_dir.same_value(&other.out_dir)
            && self.dependency_evidence.same_value(&other.dependency_evidence)
    }
}

/// Files that are left out, and why.
#[derive(Debug, PartialEq, Eq)]
pub struct PatternRule {
    pub pattern: String,
    pub reason: String,
}

/// What a [`PatternRule`] holds.
pub struct PatternRuleModel {
    pub pattern: Seq<char>,
    pub reason: Seq<char>,
}

impl DeepView for PatternRule {
    type V = PatternRuleModel;

    open spec fn deep_view(&self) -> PatternRuleModel {
        PatternRuleModel {
            pattern: self.pattern.deep_view(),
            reason: self.reason.deep_view(),
        }
    }
}

impl Value for PatternRule {
    fn replicate(&self) -> (r: Self) {
        PatternRule {
            pattern: self.pattern.replicate(),
            reason: self.reason.replicate(),
        }
    }

    fn same_value(&self, other: &Self) -> (r: bool) {
        self.pattern.same_value(&other.pattern)
            && self.reason.same_value(&other.reason)
    }
}

/// Files about which nothing is reported, and why. Where no issues are named, all are
/// meant.
#[derive(Debug, PartialEq, Eq)]
pub struct RetainRule {
    pub pattern: String,
    pub reason: String,
    pub issues: OrderedSet<String>,
}

/// What a [`RetainRule`] holds.
pub struct RetainRuleModel {
    pub pattern: Seq<char>,
    pub reason: Seq<char>,
    pub issues: Seq<Seq<char>>,
}

impl DeepView for RetainRule {
    type V = RetainRuleModel;

    open spec fn deep_view(&self) -> RetainRuleModel {
        RetainRuleModel {
            pattern: self.pattern.deep_view(),
            reason: self.reason.deep_view(),
            issues: self.issues.deep_view(),
        }
    }
}

impl Value for RetainRule {
    fn replicate(&self) -> (r: Self) {
        RetainRule {
            pattern: self.pattern.replicate(),
            reason: self.reason.replicate(),
            issues: self.issues.replicate(),
        }
    }

    fn same_value(&self, other: &Self) -> (r: bool) {
        self.pattern.same_value(&other.pattern)
            && self.reason.same_value(&other.reason)
            && self.issues.same_value(&other.issues)
    }
}

/// How firmly a finding has to stand.
#[derive(Debug, Clone, Copy, PartialEq, Eq, Structural)]
pub enum ConfidenceLevel {
    Low,
    Medium,
    High,
}

impl DeepView for ConfidenceLevel {
    type V = ConfidenceLevel;

    open spec fn deep_view(&self) -> ConfidenceLevel {
        *self
    }
}

impl Value for ConfidenceLevel {
    fn replicate(&self) -> (r: Self) {
        *self
    }

    fn same_value(&self, other: &Self) -> (r: bool) {
        *self == *other
    }
}

/// How firmly findings have to stand to be reported and to fail a run.
#[derive(Debug, Clone, Copy, PartialEq, Eq, Structural)]
pub struct ConfidenceConfiguration {
    pub report: Option<ConfidenceLevel>,
    pub fail: Option<ConfidenceLevel>,
}

impl DeepView for ConfidenceConfiguration {
    type V = ConfidenceConfiguration;

    open spec fn deep_view(&self) -> ConfidenceConfiguration {
        *self
    }
}

impl Value for ConfidenceConfiguration {
    fn replicate(&self) -> (r: Self) {
        *self
    }

    fn same_value(&self, other: &Self) -> (r: bool) {
        *self == *other
    }
}

/// A target profile of the project.
#[derive(Debug, PartialEq, Eq)]
pub struct TargetConfiguration {
    pub extends: Option<String>,
    pub conditions: Vec<String>,
}

/// What a [`TargetConfiguration`] holds.
pub struct TargetConfigurationModel {
    pub extends: Option<Seq<char>>,
    pub conditions: Seq<Seq<char>>,
}

impl DeepView for TargetConfiguration {
    type V = TargetConfigurationModel;

    open spec fn deep_view(&self) -> TargetConfigurationModel {
        TargetConfigurationModel {
            extends: self.extends.deep_view(),
            conditions: self.conditions.deep_view(),
        }
    }
}

impl Value for TargetConfiguration {
    fn replicate(&self) -> (r: Self) {
        TargetConfiguration {
            extends: self.extends.replicate(),
            conditions: self.conditions.replicate(),
        }
    }

    fn same_value(&self, other: &Self) -> (r: bool) {
        self.extends.same_value(&other.extends)
            && self.conditions.same_value(&other.conditions)
    }
}

/// What is configured for a package.
#[derive(Debug, PartialEq, Eq)]
pub struct ConfigurationOverride {
    pub mode: Option<AnalysisMode>,
    pub world: Option<WorldMode>,
    pub entry: Option<Vec<FilePath>>,
    pub ignore: Option<Vec<PatternRule>>,
    pub retain: Option<Vec<RetainRule>>,
    pub plugins: Option<Vec<String>>,
    pub targets: OrderedMap<String, TargetConfiguration>,
    pub confidence: Option<ConfidenceConfiguration>,
}

/// What a [`ConfigurationOverride`] holds.
pub struct ConfigurationOverrideModel {
    pub mode: Option<AnalysisMode>,
    pub world: Option<WorldMode>,
    pub entry: Option<Seq<Seq<PathPartModel>>>,
    pub ignore: Option<Seq<PatternRuleModel>>,
    pub retain: Option<Seq<RetainRuleModel>>,
    pub plugins: Option<Seq<Seq<char>>>,
    pub targets: Seq<(Seq<char>, TargetConfigurationModel)>,
    pub confidence: Option<ConfidenceConfiguration>,
}

impl DeepView for ConfigurationOverride {
    type V = ConfigurationOverrideModel;

    open spec fn deep_view(&self) -> ConfigurationOverrideModel {
        ConfigurationOverrideModel {
            mode: self.mode.deep_view(),
            world: self.world.deep_view(),
            entry: self.entry.deep_view(),
            ignore: self.ignore.deep_view(),
            retain: self.retain.deep_view(),
            plugins: self.plugins.deep_view(),
            targets: self.targets.deep_view(),
            confidence: self.confidence.deep_view(),
        }
    }
}

impl Value for ConfigurationOverride {
    fn replicate(&self) -> (r: Self) {
        ConfigurationOverride {
            mode: self.mode.replicate(),
            world: self.world.replicate(),
            entry: self.entry.replicate(),
            ignore: self.ignore.replicate(),
            retain: self.retain.replicate(),
            plugins: self.plugins.replicate(),
            targets: self.targets.replicate(),
            confidence: self.confidence.replicate(),
        }
    }

    fn same_value(&self, other: &Self) -> (r: bool) {
        self.mode.same_value(&other.mode)
            && self.world.same_value(&other.world)
            && self.entry.same_value(&other.entry)
            && self.ignore.same_value(&other.ignore)
            && self.retain.same_value(&other.retain)
            && self.plugins.same_value(&other.plugins)
            && self.targets.same_value(&other.targets)
            && self.confidence.same_value(&other.confidence)
    }
}

/// A package with all that decides how it is analyzed.
#[derive(Debug, PartialEq, Eq)]
pub struct PackageContext {
    pub package: WorkspacePackage,
    pub workspace_name: String,
    pub effective: ConfigurationOverride,
    pub configured_entries: Vec<FilePath>,
    /// Where the patterns of files to leave out start.
    pub ignore_base: FilePath,
    /// Where the patterns of files to keep start.
    pub retain_base: FilePath,
    pub scripts: ScriptAnalysis,
    pub plugins: Vec<DetectedBuiltinPlugin>,
    pub plugins_by_profile: OrderedMap<String, Vec<DetectedBuiltinPlugin>>,
}

/// What a [`PackageContext`] holds.
pub struct PackageContextModel {
    pub package: WorkspacePackageModel,
    pub workspace_name: Seq<char>,
    pub effective: ConfigurationOverrideModel,
    pub configured_entries: Seq<Seq<PathPartModel>>,
    pub ignore_base: Seq<PathPartModel>,
    pub retain_base: Seq<PathPartModel>,
    pub scripts: ScriptAnalysisModel,
    pub plugins: Seq<DetectedBuiltinPluginModel>,
    pub plugins_by_profile: Seq<(Seq<char>, Seq<DetectedBuiltinPluginModel>)>,
}

impl DeepView for PackageContext {
    type V = PackageContextModel;

    open spec fn deep_view(&self) -> PackageContextModel {
        PackageContextModel {
            package: self.package.deep_view(),
            workspace_name: self.workspace_name.deep_view(),
            effective: self.effective.deep_view(),
            configured_entries: self.configured_entries.deep_view(),
            ignore_base: self.ignore_base.deep_view(),
            retain_base: self.retain_base.deep_view(),
            scripts: self.scripts.deep_view(),
            plugins: self.plugins.deep_view(),
            plugins_by_profile: self.plugins_by_profile.deep_view(),
        }
    }
}

/// What a package is called: its directory, with forward slashes alone.
pub open spec fn workspace_name(root: Seq<PathPartModel>) -> Seq<char> {
    if root.len() == 0 {
        "."@
    } else {
        slashed(root)
    }
}

/// What a package is called: its directory, with forward slashes alone.
#[must_use]
pub fn display_workspace(root: &FilePath) -> (r: String)
    ensures
        r@ == workspace_name(root.deep_view()),
{
    if root.parts.len() == 0 {
        ".".to_string()
    } else {
        root.slashed()
    }
}

/// The place of the package that a file belongs to: the innermost that it is below.
pub open spec fn owner_place(
    items: Seq<WorkspacePackageModel>,
    path: Seq<PathPartModel>,
) -> Option<usize>
    decreases items.len(),
{
    if items.len() == 0 {
        None
    } else {
        let rest = owner_place(items.drop_last(), path);
        let last = items.last();
        if path_below(path, last.root) is Some && (rest is None || items[rest->0 as int].root.len()
            < last.root.len()) {
            Some((items.len() - 1) as usize)
        } else {
            rest
        }
    }
}

/// The name of the package that a file belongs to.
pub open spec fn owner_name(packages: Seq<WorkspacePackageModel>, path: Seq<PathPartModel>) -> Seq<
    char,
> {
    match owner_place(packages, path) {
        Some(place) => workspace_name(packages[place as int].root),
        None => "."@,
    }
}

/// The root of the package that a file belongs to.
pub open spec fn owner_root(
    packages: Seq<WorkspacePackageModel>,
    path: Seq<PathPartModel>,
) -> Option<Seq<PathPartModel>> {
    match owner_place(packages, path) {
        Some(place) => Some(packages[place as int].root),
        None => None,
    }
}

impl WorkspaceDiscovery {
    /// The place of the package that a file belongs to.
    #[must_use]
    pub fn package_for_path(&self, path: &FilePath) -> (r: Option<usize>)
        ensures
            r == owner_place(self.deep_view().packages, path.deep_view()),
            r matches Some(i) ==> i < self.packages@.len(),
    {
        let packages: &Vec<WorkspacePackage> = &self.packages;
        let mut found: Option<usize> = None;
        let ghost model = packages.deep_view();
        let mut i: usize = 0;
        while i < packages.len()
            invariant
                i <= packages.len(),
                model == packages.deep_view(),
                found == owner_place(model.take(i as int), path.deep_view()),
                found matches Some(k) ==> k < i,
            decreases packages.len() - i,
        {
            proof {
                assert(model.take(i + 1).drop_last() =~= model.take(i as int));
                assert(model.take(i + 1).last() == packages@[i as int].deep_view());
            }
            if path.strip_prefix(&packages[i].root).is_some() {
                match found {
                    Some(k) => {
                        assert(model.take(i + 1)[k as int] == packages@[k as int].deep_view());
                        if packages[k].root.parts.len() < packages[i].root.parts.len() {
                            found = Some(i);
                        }
                    },
                    None => {
                        found = Some(i);
                    },
                }
            }
            i = i + 1;
        }
        assert(model.take(i as int) =~= model);
        found
    }

    /// The name of the package that a file belongs to.
    #[must_use]
    pub fn name_for_path(&self, path: &FilePath) -> (r: String)
        ensures
            r@ == owner_name(self.deep_view().packages, path.deep_view()),
    {
        match self.package_for_path(path) {
            Some(place) => {
                assert(self.deep_view().packages[place as int]
                    == self.packages@[place as int].deep_view());
                display_workspace(&self.packages[place].root)
            },
            None => ".".to_string(),
        }
    }

    /// Whether a file belongs to the package at a root.
    #[must_use]
    pub fn belongs_to(&self, path: &FilePath, root: &FilePath) -> (r: bool)
        ensures
            r == (owner_root(self.deep_view().packages, path.deep_view()) == Some(
                root.deep_view(),
            )),
    {
        match self.package_for_path(path) {
            Some(place) => {
                assert(self.deep_view().packages[place as int]
                    == self.packages@[place as int].deep_view());
                self.packages[place].root.same_value(root)
            },
            None => false,
        }
    }
}

/// The place of the first context of the package at a root.
pub open spec fn context_of_root(
    items: Seq<PackageContextModel>,
    root: Seq<PathPartModel>,
) -> Option<usize>
    decreases items.len(),
{
    if items.len() == 0 {
        None
    } else {
        let rest = context_of_root(items.drop_last(), root);
        let last = items.last();
        if rest is Some {
            rest
        } else if last.package.root == root {
            Some((items.len() - 1) as usize)
        } else {
            None
        }
    }
}

/// The place of the context of the package that a file belongs to.
pub open spec fn context_place(
    packages: Seq<WorkspacePackageModel>,
    contexts: Seq<PackageContextModel>,
    path: Seq<PathPartModel>,
) -> Option<usize> {
    match owner_root(packages, path) {
        Some(root) => context_of_root(contexts, root),
        None => None,
    }
}

/// The place of the first context of the package at a root.
#[must_use]
pub fn find_context(contexts: &Vec<PackageContext>, root: &FilePath) -> (r: Option<usize>)
    ensures
        r == context_of_root(contexts.deep_view(), root.deep_view()),
        r matches Some(i) ==> i < contexts@.len(),
{
    let mut found: Option<usize> = None;
    let ghost model = contexts.deep_view();
    let mut i: usize = 0;
    while i < contexts.len()
        invariant
            i <= contexts.len(),
            model == contexts.deep_view(),
            found == context_of_root(model.take(i as int), root.deep_view()),
            found matches Some(k) ==> k < i,
        decreases contexts.len() - i,
    {
        proof {
            assert(model.take(i + 1).drop_last() =~= model.take(i as int));
            assert(model.take(i + 1).last() == contexts@[i as int].deep_view());
        }
        if found.is_none() && contexts[i].package.root.same_value(root) {
            found = Some(i);
        }
        i = i + 1;
    }
    assert(model.take(i as int) =~= model);
    found
}

/// The place of the context of the package that a file belongs to.
#[must_use]
pub fn context_for_path(
    workspace: &WorkspaceDiscovery,
    contexts: &Vec<PackageContext>,
    path: &FilePath,
) -> (r: Option<usize>)
    ensures
        r == context_place(
            workspace.deep_view().packages,
            contexts.deep_view(),
            path.deep_view(),
        ),
        r matches Some(i) ==> i < contexts@.len(),
{
    match workspace.package_for_path(path) {
        Some(place) => {
            assert(workspace.deep_view().packages[place as int]
                == workspace.packages@[place as int].deep_view());
            find_context(contexts, &workspace.packages[place].root)
        },
        None => None,
    }
}

/// The place of the first context with a name.
pub open spec fn context_named(items: Seq<PackageContextModel>, name: Seq<char>) -> Option<usize>
    decreases items.len(),
{
    if items.len() == 0 {
        None
    } else {
        let rest = context_named(items.drop_last(), name);
        let last = items.last();
        if rest is Some {
            rest
        } else if last.workspace_name == name {
            Some((items.len() - 1) as usize)
        } else {
            None
        }
    }
}

/// The place of the first context with a name.
#[must_use]
pub fn find_named_context(contexts: &Vec<PackageContext>, name: &str) -> (r: Option<usize>)
    ensures
        r == context_named(contexts.deep_view(), name@),
        r matches Some(i) ==> i < contexts@.len(),
{
    let mut found: Option<usize> = None;
    let ghost model = contexts.deep_view();
    let mut i: usize = 0;
    while i < contexts.len()
        invariant
            i <= contexts.len(),
            model == contexts.deep_view(),
            found == context_named(model.take(i as int), name@),
            found matches Some(k) ==> k < i,
        decreases contexts.len() - i,
    {
        proof {
            assert(model.take(i + 1).drop_last() =~= model.take(i as int));
            assert(model.take(i + 1).last() == contexts@[i as int].deep_view());
        }
        if found.is_none() && crate::text::same(&contexts[i].workspace_name, name) {
            found = Some(i);
        }
        i = i + 1;
    }
    assert(model.take(i as int) =~= model);
    found
}

/// A package inside another owns its files: no file belongs to a package while one
/// further in holds it.
pub proof fn the_innermost_package_owns(
    packages: Seq<WorkspacePackageModel>,
    path: Seq<PathPartModel>,
)
    requires
        packages.len() <= usize::MAX,
    ensures
        match owner_place(packages, path) {
            Some(place) => {
                &&& place < packages.len()
                &&& path_below(path, packages[place as int].root) is Some
                &&& forall|i: int|
                    0 <= i < packages.len() && path_below(path, (#[trigger] packages[i]).root)
                        is Some ==> packages[i].root.len() <= packages[place as int].root.len()
            },
            None => forall|i: int|
                0 <= i < packages.len() ==> path_below(path, (#[trigger] packages[i]).root)
                    is None,
        },
    decreases packages.len(),
{
    if packages.len() > 0 {
        the_innermost_package_owns(packages.drop_last(), path);
        let rest = packages.drop_last();
        assert forall|i: int|
            0 <= i < packages.len() && path_below(path, (#[trigger] packages[i]).root)
                is Some implies owner_place(packages, path) is Some && packages[i].root.len()
            <= packages[owner_place(packages, path)->0 as int].root.len() by {
            if i < rest.len() {
                assert(rest[i] == packages[i]);
            }
            if owner_place(rest, path) is Some {
                let k = owner_place(rest, path)->0 as int;
                assert(rest[k] == packages[k]);
            }
        }
    }
}

/// Whether a path below a package leads to a source file of its own: one that is in none of
/// the packages nested in it.
pub open spec fn own_source(
    path: Seq<PathPartModel>,
    nested: Seq<Seq<PathPartModel>>,
) -> bool {
    source_extension(extension_of(path)) && forall|i: int|
        0 <= i < nested.len() ==> path_below(path, #[trigger] nested[i]) is None
}

/// Whether a path below a package leads to a source file of its own.
#[must_use]
pub fn is_own_source(path: &FilePath, nested: &Vec<FilePath>) -> (r: bool)
    ensures
        r == own_source(path.deep_view(), nested.deep_view()),
{
    let ghost model = nested.deep_view();
    let mut i: usize = 0;
    while i < nested.len()
        invariant
            i <= nested.len(),
            model == nested.deep_view(),
            forall|j: int|
                0 <= j < i ==> path_below(path.deep_view(), #[trigger] model[j]) is None,
        decreases nested.len() - i,
    {
        if path.strip_prefix(&nested[i]).is_some() {
            assert(path_below(path.deep_view(), model[i as int]) is Some);
            return false;
        }
        i = i + 1;
    }
    is_analyzable_source(path)
}

} // verus!
