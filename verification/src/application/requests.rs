//! What is asked of the analysis of a project.

use crate::analysis::members::AnalysisMode;
use crate::application::entries::{
    collect_package_entries, package_entries, with_configured, EntriesModel,
};
use crate::application::errors::{
    ProjectScanError, ProjectScanErrorModel, ScanError, ScanErrorModel,
};
use crate::application::policy::{relative_to, seen_from};
use crate::application::scan::{default_limits, AnalysisLimits};
use crate::application::targets::{default_profiles, default_target_profiles};
use crate::collections::{
    collected, collected_is_ordered, with_entry, with_item, OrderedMap, OrderedSet,
};
use crate::discovery::workspace::{
    ConfigurationOverride, ConfigurationOverrideModel, PackageContext, PackageContextModel,
    ProjectConfiguration, ProjectConfigurationModel, WorkspaceDiscovery, WorkspaceDiscoveryModel,
    WorkspacePackage, WorkspacePackageModel,
};
use crate::domain::facts::{AnalysisDiagnostic, AnalysisDiagnosticModel};
use crate::domain::target::WorldMode;
use crate::paths::{
    names_of, parsed, path_below, path_joined, slashed, written, FilePath, PathPartModel,
};
use crate::text::{
    cut_at_last, ends_with, pieces, replace_char, rsplit_once, same, split, strip_suffix,
    with_char, without_suffix,
};
use crate::values::{push_item, Ordered, Value};
use vstd::prelude::*;

verus! {

/// A family of issues that an analysis looks for.
#[derive(Debug, Clone, Copy, PartialEq, Eq, Structural)]
pub enum AnalysisIssue {
    Files,
    Exports,
    Declarations,
    Members,
    Dependencies,
    Workspaces,
}

impl DeepView for AnalysisIssue {
    type V = AnalysisIssue;

    open spec fn deep_view(&self) -> AnalysisIssue {
        *self
    }
}

impl Value for AnalysisIssue {
    fn replicate(&self) -> (r: Self) {
        *self
    }

    fn same_value(&self, other: &Self) -> (r: bool) {
        *self == *other
    }
}

impl AnalysisIssue {
    /// The place of the variant in the order of the type.
    pub open spec fn place(self) -> nat {
        match self {
            AnalysisIssue::Files => 0,
            AnalysisIssue::Exports => 1,
            AnalysisIssue::Declarations => 2,
            AnalysisIssue::Members => 3,
            AnalysisIssue::Dependencies => 4,
            AnalysisIssue::Workspaces => 5,
        }
    }

    fn place_of(&self) -> (r: u8)
        ensures
            r == self.place(),
    {
        match self {
            AnalysisIssue::Files => 0,
            AnalysisIssue::Exports => 1,
            AnalysisIssue::Declarations => 2,
            AnalysisIssue::Members => 3,
            AnalysisIssue::Dependencies => 4,
            AnalysisIssue::Workspaces => 5,
        }
    }
}

impl Ordered for AnalysisIssue {
    open spec fn before(a: AnalysisIssue, b: AnalysisIssue) -> bool {
        a.place() < b.place()
    }

    fn is_before(&self, other: &Self) -> (r: bool) {
        assert(Self::before(*self, *other) == (self.place() < other.place()));
        self.place_of() < other.place_of()
    }

    proof fn before_irreflexive(a: AnalysisIssue) {
    }

    proof fn before_transitive(a: AnalysisIssue, b: AnalysisIssue, c: AnalysisIssue) {
    }

    proof fn before_total(a: AnalysisIssue, b: AnalysisIssue) {
    }
}

/// Every family of issues.
pub open spec fn every_issue() -> Seq<AnalysisIssue> {
    collected::<AnalysisIssue>(
        seq![
            AnalysisIssue::Files,
            AnalysisIssue::Exports,
            AnalysisIssue::Declarations,
            AnalysisIssue::Members,
            AnalysisIssue::Dependencies,
            AnalysisIssue::Workspaces,
        ],
    )
}

impl AnalysisIssue {
    /// Every family of issues.
    #[must_use]
    pub fn all() -> (r: OrderedSet<AnalysisIssue>)
        ensures
            r.deep_view() == every_issue(),
    {
        let mut issues: Vec<AnalysisIssue> = Vec::new();
        issues.push(AnalysisIssue::Files);
        issues.push(AnalysisIssue::Exports);
        issues.push(AnalysisIssue::Declarations);
        issues.push(AnalysisIssue::Members);
        issues.push(AnalysisIssue::Dependencies);
        issues.push(AnalysisIssue::Workspaces);
        assert(issues.deep_view() =~= seq![
            AnalysisIssue::Files,
            AnalysisIssue::Exports,
            AnalysisIssue::Declarations,
            AnalysisIssue::Members,
            AnalysisIssue::Dependencies,
            AnalysisIssue::Workspaces,
        ]);
        OrderedSet::from_items(issues)
    }
}

/// Every family of issues is among them.
pub proof fn all_issues_are_looked_for(issue: AnalysisIssue)
    ensures
        every_issue().contains(issue),
{
    let listed = seq![
        AnalysisIssue::Files,
        AnalysisIssue::Exports,
        AnalysisIssue::Declarations,
        AnalysisIssue::Members,
        AnalysisIssue::Dependencies,
        AnalysisIssue::Workspaces,
    ];
    collected_is_ordered::<AnalysisIssue>(listed);
    assert(listed[issue.place() as int] == issue);
    assert(listed.contains(issue));
}

/// What is asked of the analysis of a project.
#[derive(Debug, PartialEq, Eq)]
pub struct ProjectScanRequest {
    pub root: FilePath,
    pub workspace: Option<FilePath>,
    pub entries: Vec<FilePath>,
    pub mode: Option<AnalysisMode>,
    pub closed_world: Option<bool>,
    pub target_profiles: Vec<String>,
    pub issues: OrderedSet<AnalysisIssue>,
    pub limits: AnalysisLimits,
    /// Whether findings on test files are reported. Tests are entries in any case.
    pub report_tests: bool,
}

/// What a [`ProjectScanRequest`] holds.
pub struct ProjectScanRequestModel {
    pub root: Seq<PathPartModel>,
    pub workspace: Option<Seq<PathPartModel>>,
    pub entries: Seq<Seq<PathPartModel>>,
    pub mode: Option<AnalysisMode>,
    pub closed_world: Option<bool>,
    pub target_profiles: Seq<Seq<char>>,
    pub issues: Seq<AnalysisIssue>,
    pub limits: AnalysisLimits,
    pub report_tests: bool,
}

impl DeepView for ProjectScanRequest {
    type V = ProjectScanRequestModel;

    open spec fn deep_view(&self) -> ProjectScanRequestModel {
        ProjectScanRequestModel {
            root: self.root.deep_view(),
            workspace: self.workspace.deep_view(),
            entries: self.entries.deep_view(),
            mode: self.mode.deep_view(),
            closed_world: self.closed_world.deep_view(),
            target_profiles: self.target_profiles.deep_view(),
            issues: self.issues.deep_view(),
            limits: self.limits.deep_view(),
            report_tests: self.report_tests.deep_view(),
        }
    }
}

impl Value for ProjectScanRequest {
    fn replicate(&self) -> (r: Self) {
        ProjectScanRequest {
            root: self.root.replicate(),
            workspace: self.workspace.replicate(),
            entries: self.entries.replicate(),
            mode: self.mode.replicate(),
            closed_world: self.closed_world.replicate(),
            target_profiles: self.target_profiles.replicate(),
            issues: self.issues.replicate(),
            limits: self.limits.replicate(),
            report_tests: self.report_tests.replicate(),
        }
    }

    fn same_value(&self, other: &Self) -> (r: bool) {
        self.root.same_value(&other.root)
            && self.workspace.same_value(&other.workspace)
            && self.entries.same_value(&other.entries)
            && self.mode.same_value(&other.mode)
            && self.closed_world.same_value(&other.closed_world)
            && self.target_profiles.same_value(&other.target_profiles)
            && self.issues.same_value(&other.issues)
            && self.limits.same_value(&other.limits)
            && self.report_tests.same_value(&other.report_tests)
    }
}

/// What is asked of the analysis of a project where nothing is said.
pub open spec fn plain_request(root: Seq<PathPartModel>) -> ProjectScanRequestModel {
    ProjectScanRequestModel {
        root,
        workspace: None,
        entries: Seq::empty(),
        mode: None,
        closed_world: None,
        target_profiles: default_profiles(),
        issues: every_issue(),
        limits: default_limits(),
        report_tests: false,
    }
}

impl ProjectScanRequest {
    /// What is asked of the analysis of a project where nothing is said.
    #[must_use]
    pub fn new(root: FilePath) -> (r: ProjectScanRequest)
        ensures
            r.deep_view() == plain_request(root.deep_view()),
    {
        let entries: Vec<FilePath> = Vec::new();
        assert(entries.deep_view() =~= Seq::empty());
        ProjectScanRequest {
            root,
            workspace: None,
            entries,
            mode: None,
            closed_world: None,
            target_profiles: default_target_profiles(),
            issues: AnalysisIssue::all(),
            limits: AnalysisLimits::default(),
            report_tests: false,
        }
    }
}

/// A configuration that says how to analyze and whether anything outside can use what is
/// exported.
pub open spec fn mode_and_world(
    mode: Option<AnalysisMode>,
    world: Option<WorldMode>,
) -> ConfigurationOverrideModel {
    ConfigurationOverrideModel {
        mode,
        world,
        entry: None,
        ignore: None,
        retain: None,
        plugins: None,
        targets: Seq::empty(),
        confidence: None,
    }
}

fn configure(mode: Option<AnalysisMode>, world: Option<WorldMode>) -> (r: ConfigurationOverride)
    ensures
        r.deep_view() == mode_and_world(mode, world),
{
    ConfigurationOverride {
        mode,
        world,
        entry: None,
        ignore: None,
        retain: None,
        plugins: None,
        targets: OrderedMap::new(),
        confidence: None,
    }
}

/// What the command line configures.
pub open spec fn command_line_configuration(
    request: ProjectScanRequestModel,
) -> ConfigurationOverrideModel {
    mode_and_world(
        request.mode,
        match request.closed_world {
            Some(closed) => Some(
                if closed {
                    WorldMode::Closed
                } else {
                    WorldMode::Open
                },
            ),
            None => None,
        },
    )
}

/// What the command line configures.
#[must_use]
pub fn cli_configuration(request: &ProjectScanRequest) -> (r: ConfigurationOverride)
    ensures
        r.deep_view() == command_line_configuration(request.deep_view()),
{
    let world: Option<WorldMode> = match request.closed_world {
        Some(closed) => Some(
            if closed {
                WorldMode::Closed
            } else {
                WorldMode::Open
            },
        ),
        None => None,
    };
    configure(request.mode, world)
}

/// What follows from a manifest alone: a private package is used by nothing outside.
pub open spec fn inferred(private: bool) -> ConfigurationOverrideModel {
    mode_and_world(
        Some(AnalysisMode::Balanced),
        Some(
            if private {
                WorldMode::Closed
            } else {
                WorldMode::Open
            },
        ),
    )
}

/// What follows from a manifest alone.
#[must_use]
pub fn inferred_configuration(private: bool) -> (r: ConfigurationOverride)
    ensures
        r.deep_view() == inferred(private),
{
    configure(
        Some(AnalysisMode::Balanced),
        Some(
            if private {
                WorldMode::Closed
            } else {
                WorldMode::Open
            },
        ),
    )
}

/// The entries that are configured for a package: for the one at the root of the project
/// those of the whole, else its own.
pub open spec fn own_entries(
    root: Seq<PathPartModel>,
    effective: ConfigurationOverrideModel,
    own: ConfigurationOverrideModel,
) -> Seq<Seq<PathPartModel>> {
    let entry = if root.len() == 0 {
        effective.entry
    } else {
        own.entry
    };
    match entry {
        Some(entries) => entries,
        None => Seq::empty(),
    }
}

/// Where the rules of a package start: at the package where it has its own, else at the
/// project.
pub open spec fn rule_base(root: Seq<PathPartModel>, has_own: bool) -> Seq<PathPartModel> {
    if has_own {
        root
    } else {
        Seq::empty()
    }
}

fn base_of_rules(root: &FilePath, has_own: bool) -> (r: FilePath)
    ensures
        r.deep_view() == rule_base(root.deep_view(), has_own),
{
    if has_own {
        root.replicate()
    } else {
        let none: FilePath = FilePath { parts: Vec::new() };
        assert(none.deep_view() =~= Seq::empty());
        none
    }
}

/// Where the entries and the rules of a package come from. `own` is what is configured for
/// it alone, and `effective` what holds for it.
#[verifier::ext_equal]
pub struct PackageBasesModel {
    pub configured_entries: Seq<Seq<PathPartModel>>,
    pub ignore_base: Seq<PathPartModel>,
    pub retain_base: Seq<PathPartModel>,
}

/// Where the entries and the rules of a package come from.
pub struct PackageBases {
    pub configured_entries: Vec<FilePath>,
    pub ignore_base: FilePath,
    pub retain_base: FilePath,
}

/// Where the entries and the rules of a package come from.
pub open spec fn bases_of(
    root: Seq<PathPartModel>,
    effective: ConfigurationOverrideModel,
    own: ConfigurationOverrideModel,
) -> PackageBasesModel {
    PackageBasesModel {
        configured_entries: own_entries(root, effective, own),
        ignore_base: rule_base(root, root.len() > 0 && own.ignore is Some),
        retain_base: rule_base(root, root.len() > 0 && own.retain is Some),
    }
}

/// Where the entries and the rules of a package come from.
#[must_use]
pub fn package_bases(
    root: &FilePath,
    effective: &ConfigurationOverride,
    own: &ConfigurationOverride,
) -> (r: PackageBases)
    ensures
        ({
            let bases = bases_of(root.deep_view(), effective.deep_view(), own.deep_view());
            &&& r.configured_entries.deep_view() == bases.configured_entries
            &&& r.ignore_base.deep_view() == bases.ignore_base
            &&& r.retain_base.deep_view() == bases.retain_base
        }),
{
    assert(root.deep_view().len() == root.parts@.len());
    let at_root: bool = root.parts.len() == 0;
    let entry: &Option<Vec<FilePath>> = if at_root {
        &effective.entry
    } else {
        &own.entry
    };
    let configured_entries: Vec<FilePath> = match entry {
        Some(entries) => entries.replicate(),
        None => {
            let none: Vec<FilePath> = Vec::new();
            assert(none.deep_view() =~= Seq::empty());
            none
        },
    };
    PackageBases {
        configured_entries,
        ignore_base: base_of_rules(root, !at_root && own.ignore.is_some()),
        retain_base: base_of_rules(root, !at_root && own.retain.is_some()),
    }
}

/// The first package at a root.
pub open spec fn package_at(
    items: Seq<WorkspacePackageModel>,
    root: Seq<PathPartModel>,
) -> Option<usize>
    decreases items.len(),
{
    if items.len() == 0 {
        None
    } else {
        let rest = package_at(items.drop_last(), root);
        let last = items.last();
        if rest is Some {
            rest
        } else if last.root == root {
            Some((items.len() - 1) as usize)
        } else {
            None
        }
    }
}

/// The packages that are analyzed: the one that is asked for, else all; or that the one
/// asked for is not declared.
pub open spec fn selection(
    packages: Seq<WorkspacePackageModel>,
    requested: Option<Seq<PathPartModel>>,
) -> Result<Seq<usize>, ProjectScanErrorModel> {
    match requested {
        None => Ok(Seq::new(packages.len(), |i: int| i as usize)),
        Some(path) => match package_at(packages, names_of(path)) {
            Some(place) => Ok(seq![place]),
            None => Err(ProjectScanErrorModel::UnknownWorkspace(written(path))),
        },
    }
}

/// The packages that are analyzed, by their places.
pub fn selected_packages(
    workspace: &WorkspaceDiscovery,
    requested: &Option<FilePath>,
) -> (r: Result<
    Vec<usize>,
    ProjectScanError,
>)
    ensures
        match r {
            Ok(places) => selection(workspace.deep_view().packages, requested.deep_view()) == Ok::<
                Seq<usize>,
                ProjectScanErrorModel,
            >(places@),
            Err(error) => selection(workspace.deep_view().packages, requested.deep_view()) == Err::<
                Seq<usize>,
                ProjectScanErrorModel,
            >(error.deep_view()),
        },
{
    let packages: &Vec<WorkspacePackage> = &workspace.packages;
    let path: &FilePath = match requested {
        Some(path) => path,
        None => {
            let mut all: Vec<usize> = Vec::new();
            let mut k: usize = 0;
            while k < packages.len()
                invariant
                    k <= packages.len(),
                    all@ =~= Seq::new(k as nat, |i: int| i as usize),
                decreases packages.len() - k,
            {
                all.push(k);
                k = k + 1;
            }
            assert(workspace.deep_view().packages.len() == packages@.len());
            return Ok(all);
        },
    };
    let normalized: FilePath = path.names();
    let ghost root = normalized.deep_view();
    let mut found: Option<usize> = None;
    let ghost model = packages.deep_view();
    let mut i: usize = 0;
    while i < packages.len()
        invariant
            i <= packages.len(),
            model == packages.deep_view(),
            root == normalized.deep_view(),
            found == package_at(model.take(i as int), root),
        decreases packages.len() - i,
    {
        proof {
            assert(model.take(i + 1).drop_last() =~= model.take(i as int));
            assert(model.take(i + 1).last() == packages@[i as int].deep_view());
        }
        let missing: bool = found.is_none();
        if missing && packages[i].root.same_value(&normalized) {
            found = Some(i);
        }
        i = i + 1;
    }
    assert(model.take(i as int) =~= model);
    match found {
        Some(place) => {
            let mut one: Vec<usize> = Vec::new();
            one.push(place);
            assert(one@ =~= seq![place]);
            Ok(one)
        },
        None => Err(ProjectScanError::UnknownWorkspace(path.text())),
    }
}

/// Directories with the packages inside a package, as seen from it.
pub open spec fn with_nested(
    items: Seq<WorkspacePackageModel>,
    start: Seq<Seq<PathPartModel>>,
    root: Seq<PathPartModel>,
) -> Seq<Seq<PathPartModel>>
    decreases items.len(),
{
    if items.len() == 0 {
        start
    } else {
        let rest = with_nested(items.drop_last(), start, root);
        let last = items.last();
        match path_below(last.root, root) {
            Some(inner) => if last.root != root && inner.len() > 0 {
                rest.push(inner)
            } else {
                rest
            },
            None => rest,
        }
    }
}

fn add_nested(
    items: &Vec<WorkspacePackage>,
    root: &FilePath,
    out: &mut Vec<FilePath>,
)
    ensures
        final(out).deep_view() == with_nested(items.deep_view(), old(out).deep_view(), root.deep_view()),
{
    let ghost start = out.deep_view();
    let ghost root_model = root.deep_view();
    let ghost model = items.deep_view();
    let mut i: usize = 0;
    while i < items.len()
        invariant
            i <= items.len(),
            model == items.deep_view(),
            root_model == root.deep_view(),
            out.deep_view() =~= with_nested(model.take(i as int), start, root_model),
        decreases items.len() - i,
    {
        proof {
            assert(model.take(i + 1).drop_last() =~= model.take(i as int));
            assert(model.take(i + 1).last() == items@[i as int].deep_view());
        }
        let item: &WorkspacePackage = &items[i];
        match item.root.strip_prefix(root) {
            Some(inner) => {
                assert(inner.deep_view().len() == inner.parts@.len());
                if !item.root.same_value(root) && inner.parts.len() > 0 {
                    push_item(out, inner);
                }
            },
            None => {},
        }
        i = i + 1;
    }
    assert(model.take(i as int) =~= model);
}

/// The packages inside a package, as seen from it. Their files are not its own.
#[must_use]
pub fn nested_packages(workspace: &WorkspaceDiscovery, root: &FilePath) -> (r: Vec<FilePath>)
    ensures
        r.deep_view() == with_nested(
            workspace.deep_view().packages,
            Seq::empty(),
            root.deep_view(),
        ),
{
    let mut out: Vec<FilePath> = Vec::new();
    assert(out.deep_view() =~= Seq::empty());
    add_nested(&workspace.packages, root, &mut out);
    out
}

/// Files with those of a package.
pub open spec fn with_discovered(
    items: Seq<Seq<PathPartModel>>,
    start: Seq<Seq<PathPartModel>>,
    root: Seq<PathPartModel>,
) -> Seq<Seq<PathPartModel>>
    decreases items.len(),
{
    if items.len() == 0 {
        start
    } else {
        let rest = with_discovered(items.drop_last(), start, root);
        let last = items.last();
        with_item::<FilePath>(rest, path_joined(root, last))
    }
}

/// Adds the files of a package to those of the project, and says whether no limit is then
/// exceeded.
pub fn add_discovered_files(
    sources: &Vec<FilePath>,
    root: &FilePath,
    limits: AnalysisLimits,
    files: &mut OrderedSet<FilePath>,
) -> (r: bool)
    ensures
        r == (with_discovered(
            sources.deep_view(),
            old(files).deep_view(),
            root.deep_view(),
        ).len() <= limits.max_discovered_files),
        final(files).deep_view() == with_discovered(
            sources.deep_view(),
            old(files).deep_view(),
            root.deep_view(),
        ),
{
    let ghost start = files.deep_view();
    let ghost at = root.deep_view();
    let ghost model = sources.deep_view();
    let mut i: usize = 0;
    while i < sources.len()
        invariant
            i <= sources.len(),
            model == sources.deep_view(),
            at == root.deep_view(),
            files.deep_view() == with_discovered(model.take(i as int), start, at),
        decreases sources.len() - i,
    {
        proof {
            assert(model.take(i + 1).drop_last() =~= model.take(i as int));
            assert(model.take(i + 1).last() == sources@[i as int].deep_view());
        }
        files.insert(root.join(&sources[i]));
        i = i + 1;
    }
    assert(model.take(i as int) =~= model);
    files.len() <= limits.max_discovered_files
}

/// Whether the table of Plug'n'Play is among some files.
pub open spec fn has_pnp_manifest(items: Seq<Seq<PathPartModel>>) -> bool {
    exists|i: int| 0 <= i < items.len() && has_pnp_manifest_at(#[trigger] items[i])
}

/// Whether this holds of one.
pub open spec fn has_pnp_manifest_at(item: Seq<PathPartModel>) -> bool {
    item == parsed(".pnp.cjs"@)
}

/// Whether the table of Plug'n'Play is among some files.
pub fn has_yarn_pnp_manifest(items: &Vec<FilePath>) -> (r: bool)
    ensures
        r == has_pnp_manifest(items.deep_view()),
{
    let ghost model = items.deep_view();
    let mut i: usize = 0;
    while i < items.len()
        invariant
            i <= items.len(),
            model == items.deep_view(),
            forall|k: int| 0 <= k < i ==> !has_pnp_manifest_at(#[trigger] model[k]),
        decreases items.len() - i,
    {
        assert(model[i as int] == items@[i as int].deep_view());
        let item: &FilePath = &items[i];
        if item.same_value(&FilePath::parse(".pnp.cjs")) {
            return true;
        }
        i = i + 1;
    }
    false
}

/// A path as it is shown: as seen from a root, with forward slashes.
#[must_use]
pub fn normalize_path(path: &FilePath, root: &FilePath) -> (r: String)
    ensures
        r@ == slashed(seen_from(path.deep_view(), root.deep_view())),
{
    relative_to(path, root).slashed()
}

/// A file name without the extension of a source file.
pub open spec fn source_stem(name: Seq<char>) -> Seq<char> {
    if without_suffix(name, ".js"@) is Some {
        without_suffix(name, ".js"@)->0
    } else    if without_suffix(name, ".jsx"@) is Some {
        without_suffix(name, ".jsx"@)->0
    } else    if without_suffix(name, ".mjs"@) is Some {
        without_suffix(name, ".mjs"@)->0
    } else    if without_suffix(name, ".cjs"@) is Some {
        without_suffix(name, ".cjs"@)->0
    } else    if without_suffix(name, ".ts"@) is Some {
        without_suffix(name, ".ts"@)->0
    } else    if without_suffix(name, ".tsx"@) is Some {
        without_suffix(name, ".tsx"@)->0
    } else    if without_suffix(name, ".mts"@) is Some {
        without_suffix(name, ".mts"@)->0
    } else    if without_suffix(name, ".cts"@) is Some {
        without_suffix(name, ".cts"@)->0
    } else {
        name
    }
}

fn stem_of_source(name: &str) -> (r: String)
    ensures
        r@ == source_stem(name@),
{
    match strip_suffix(name, ".js") {
        Some(stem) => {
            return stem;
        },
        None => {},
    }
    match strip_suffix(name, ".jsx") {
        Some(stem) => {
            return stem;
        },
        None => {},
    }
    match strip_suffix(name, ".mjs") {
        Some(stem) => {
            return stem;
        },
        None => {},
    }
    match strip_suffix(name, ".cjs") {
        Some(stem) => {
            return stem;
        },
        None => {},
    }
    match strip_suffix(name, ".ts") {
        Some(stem) => {
            return stem;
        },
        None => {},
    }
    match strip_suffix(name, ".tsx") {
        Some(stem) => {
            return stem;
        },
        None => {},
    }
    match strip_suffix(name, ".mts") {
        Some(stem) => {
            return stem;
        },
        None => {},
    }
    match strip_suffix(name, ".cts") {
        Some(stem) => {
            return stem;
        },
        None => {},
    }
    name.to_string()
}

/// Whether a file name is one of a test.
pub open spec fn is_test_name(name: Seq<char>) -> bool {
    let stem = source_stem(name);
    ||| stem == "test"@
    ||| stem == "spec"@
    ||| ".test"@.is_suffix_of(stem)
    ||| ".spec"@.is_suffix_of(stem)
    ||| ".e2e-spec"@.is_suffix_of(stem)
    ||| ".stories"@.is_suffix_of(stem)
    ||| "_test"@.is_suffix_of(stem)
}

fn names_a_test(name: &str) -> (r: bool)
    ensures
        r == is_test_name(name@),
{
    let stem: String = stem_of_source(name);
    same(&stem, "test") || same(&stem, "spec") || ends_with(&stem, ".test") || ends_with(
        &stem,
        ".spec",
    ) || ends_with(&stem, ".e2e-spec") || ends_with(&stem, ".stories") || ends_with(&stem, "_test")
}

/// Whether a directory is one of tests.
pub open spec fn test_directory(s: Seq<char>) -> bool {
    ||| s == "__tests__"@
    ||| s == "__mocks__"@
    ||| s == "test"@
    ||| s == "tests"@
    ||| s == "e2e"@
}

/// Whether a directory is one of tests.
fn is_test_directory(s: &str) -> (r: bool)
    ensures
        r == test_directory(s@),
{
    same(s, "__tests__")
        || same(s, "__mocks__")
        || same(s, "test")
        || same(s, "tests")
        || same(s, "e2e")
}

/// Whether one of some directories is one of tests.
pub open spec fn in_test_directory(items: Seq<Seq<char>>) -> bool {
    exists|i: int| 0 <= i < items.len() && test_directory(#[trigger] items[i])
}

fn is_in_test_directory(items: &Vec<String>) -> (r: bool)
    ensures
        r == in_test_directory(items.deep_view()),
{
    let ghost model = items.deep_view();
    let mut i: usize = 0;
    while i < items.len()
        invariant
            i <= items.len(),
            model == items.deep_view(),
            forall|k: int| 0 <= k < i ==> !test_directory(#[trigger] model[k]),
        decreases items.len() - i,
    {
        assert(model[i as int] == items@[i as int].deep_view());
        let item: &String = &items[i];
        if is_test_directory(item) {
            return true;
        }
        i = i + 1;
    }
    false
}

/// Whether a path is one of a test, by the conventions of common test runners.
pub open spec fn test_path(path: Seq<char>) -> bool {
    let normalized = with_char(path, '\\', '/');
    is_test_name(
        match cut_at_last(normalized, '/') {
            Some((_, name)) => name,
            None => normalized,
        },
    ) || in_test_directory(pieces(normalized, '/'))
}

/// Whether a path is one of a test, by the conventions of common test runners.
#[must_use]
pub fn is_test_path(path: &str) -> (r: bool)
    ensures
        r == test_path(path@),
{
    let normalized: String = replace_char(path, '\\', '/');
    let named: bool = match rsplit_once(&normalized, '/') {
        Some((_, name)) => names_a_test(&name),
        None => names_a_test(&normalized),
    };
    named || is_in_test_directory(&split(&normalized, '/'))
}

/// The directory that the entries of a request are seen from.
pub open spec fn entry_base(
    root: Seq<PathPartModel>,
    workspace: Option<Seq<PathPartModel>>,
) -> Seq<PathPartModel> {
    match workspace {
        Some(path) => path_joined(root, path),
        None => root,
    }
}

/// An entry of a request, as seen from the project.
pub open spec fn requested_entry(
    entry: Seq<PathPartModel>,
    base: Seq<PathPartModel>,
    root: Seq<PathPartModel>,
) -> Seq<PathPartModel> {
    seen_from(path_joined(base, entry), root)
}

/// The entries of a request, in order, or the first that is no file of the project.
pub open spec fn requested_entries(
    items: Seq<Seq<PathPartModel>>,
    base: Seq<PathPartModel>,
    root: Seq<PathPartModel>,
    files: Seq<Seq<PathPartModel>>,
) -> Result<Seq<Seq<PathPartModel>>, ProjectScanErrorModel>
    decreases items.len(),
{
    if items.len() == 0 {
        Ok(Seq::empty())
    } else {
        let rest = requested_entries(items.drop_last(), base, root, files);
        let last = items.last();
        match rest {
            Ok(entries) => if files.contains(requested_entry(last, base, root)) {
                Ok(with_item::<FilePath>(entries, requested_entry(last, base, root)))
            } else {
                Err(
                    ProjectScanErrorModel::Scan(
                        ScanErrorModel::EntryNotSupplied(written(last)),
                    ),
                )
            },
            Err(error) => Err(error),
        }
    }
}

proof fn requested_entries_fail_early(
    items: Seq<Seq<PathPartModel>>,
    base: Seq<PathPartModel>,
    root: Seq<PathPartModel>,
    files: Seq<Seq<PathPartModel>>,
    n: int,
)
    requires
        0 <= n <= items.len(),
        requested_entries(items.take(n), base, root, files) is Err,
    ensures
        requested_entries(items, base, root, files) == requested_entries(items.take(n), base, root, files),
    decreases items.len() - n,
{
    if n < items.len() {
        assert(items.take(n + 1).drop_last() =~= items.take(n));
        requested_entries_fail_early(items, base, root, files, n + 1);
    } else {
        assert(items.take(n) =~= items);
    }
}

/// The entries of a request, in order, or the first that is no file of the project.
pub fn normalize_requested_entries(
    workspace: &WorkspaceDiscovery,
    request: &ProjectScanRequest,
    file_set: &OrderedSet<FilePath>,
) -> (r: Result<Vec<FilePath>, ProjectScanError>)
    ensures
        ({
            let all = requested_entries(
                request.deep_view().entries,
                entry_base(workspace.deep_view().workspace_root, request.deep_view().workspace),
                workspace.deep_view().workspace_root,
                file_set.deep_view(),
            );
            match r {
                Ok(entries) => all == Ok::<Seq<Seq<PathPartModel>>, ProjectScanErrorModel>(
                    entries.deep_view(),
                ),
                Err(error) => all == Err::<Seq<Seq<PathPartModel>>, ProjectScanErrorModel>(
                    error.deep_view(),
                ),
            }
        }),
{
    let base: FilePath = match &request.workspace {
        Some(path) => workspace.workspace_root.join(path),
        None => workspace.workspace_root.replicate(),
    };
    let ghost from = base.deep_view();
    let ghost root = workspace.deep_view().workspace_root;
    let ghost files = file_set.deep_view();
    let ghost given = request.deep_view();
    let mut entries: OrderedSet<FilePath> = OrderedSet::new();
    let asked: &Vec<FilePath> = &request.entries;
    let ghost model = asked.deep_view();
    let mut i: usize = 0;
    while i < asked.len()
        invariant
            i <= asked.len(),
            model == asked.deep_view(),
            from == base.deep_view(),
            root == workspace.deep_view().workspace_root,
            files == file_set.deep_view(),
            given == request.deep_view(),
            from == entry_base(root, given.workspace),
            model == given.entries,
            requested_entries(model.take(i as int), from, root, files) == Ok::<Seq<Seq<PathPartModel>>, ProjectScanErrorModel>(entries.deep_view()),
        decreases asked.len() - i,
    {
        proof {
            assert(model.take(i + 1).drop_last() =~= model.take(i as int));
            assert(model.take(i + 1).last() == asked@[i as int].deep_view());
        }
        let candidate: FilePath = base.join(&asked[i]);
        let relative: FilePath = relative_to(&candidate, &workspace.workspace_root);
        if file_set.contains(&relative) {
            entries.insert(relative);
        } else {
            proof {
                requested_entries_fail_early(model, from, root, files, i + 1);
            }
            return Err(ProjectScanError::Scan(ScanError::EntryNotSupplied(asked[i].text())));
        }
        i = i + 1;
    }
    assert(model.take(i as int) =~= model);
    Ok(entries.into_items())
}

/// Entries with those of packages in a target profile, or why that cannot be resolved.
pub open spec fn entries_of_packages(
    items: Seq<PackageContextModel>,
    start: EntriesModel,
    root: Seq<PathPartModel>,
    configurations: Seq<ProjectConfigurationModel>,
    files: Seq<Seq<PathPartModel>>,
    asked: Option<Seq<PathPartModel>>,
    profile: Seq<char>,
) -> Result<EntriesModel, ProjectScanErrorModel>
    decreases items.len(),
{
    if items.len() == 0 {
        Ok(start)
    } else {
        let rest = entries_of_packages(
            items.drop_last(),
            start,
            root,
            configurations,
            files,
            asked,
            profile,
        );
        let last = items.last();
        match rest {
            Ok(entries) => package_entries(
                entries,
                root,
                last,
                configurations,
                files,
                asked,
                profile,
            ),
            Err(error) => Err(error),
        }
    }
}

/// What is said of the entries of packages, also where one of them has none to give: then what
/// was said so far, and what its configuration gives rise to.
pub open spec fn said_of_packages(
    items: Seq<PackageContextModel>,
    start: EntriesModel,
    root: Seq<PathPartModel>,
    configurations: Seq<ProjectConfigurationModel>,
    files: Seq<Seq<PathPartModel>>,
    asked: Option<Seq<PathPartModel>>,
    profile: Seq<char>,
) -> Seq<AnalysisDiagnosticModel>
    decreases items.len(),
{
    if items.len() == 0 {
        start.diagnostics
    } else {
        let rest = items.drop_last();
        let last = items.last();
        match entries_of_packages(rest, start, root, configurations, files, asked, profile) {
            Ok(entries) => match package_entries(
                entries,
                root,
                last,
                configurations,
                files,
                asked,
                profile,
            ) {
                Ok(after) => after.diagnostics,
                Err(_) => with_configured(
                    last.configured_entries,
                    entries,
                    last.package.root,
                    configurations,
                    files,
                ).diagnostics,
            },
            Err(_) => said_of_packages(rest, start, root, configurations, files, asked, profile),
        }
    }
}

proof fn entries_of_packages_fail_early(
    items: Seq<PackageContextModel>,
    start: EntriesModel,
    root: Seq<PathPartModel>,
    configurations: Seq<ProjectConfigurationModel>,
    files: Seq<Seq<PathPartModel>>,
    asked: Option<Seq<PathPartModel>>,
    profile: Seq<char>,
    n: int,
)
    requires
        0 <= n <= items.len(),
        entries_of_packages(items.take(n), start, root, configurations, files, asked, profile) is Err,
    ensures
        entries_of_packages(items, start, root, configurations, files, asked, profile)
            == entries_of_packages(
            items.take(n),
            start,
            root,
            configurations,
            files,
            asked,
            profile,
        ),
        said_of_packages(items, start, root, configurations, files, asked, profile)
            == said_of_packages(
            items.take(n),
            start,
            root,
            configurations,
            files,
            asked,
            profile,
        ),
    decreases items.len() - n,
{
    if n < items.len() {
        assert(items.take(n + 1).drop_last() =~= items.take(n));
        entries_of_packages_fail_early(
            items,
            start,
            root,
            configurations,
            files,
            asked,
            profile,
            n + 1,
        );
    } else {
        assert(items.take(n) =~= items);
    }
}

/// The entries of each target profile, and what is to be said.
#[verifier::ext_equal]
pub struct ProfileEntriesModel {
    pub entries: Seq<(Seq<char>, Seq<Seq<PathPartModel>>)>,
    pub diagnostics: Seq<AnalysisDiagnosticModel>,
}

/// The entries that are found for each target profile, or why there are none.
pub open spec fn found_entries(
    items: Seq<Seq<char>>,
    start: Seq<AnalysisDiagnosticModel>,
    root: Seq<PathPartModel>,
    contexts: Seq<PackageContextModel>,
    configurations: Seq<ProjectConfigurationModel>,
    files: Seq<Seq<PathPartModel>>,
    asked: Option<Seq<PathPartModel>>,
) -> Result<ProfileEntriesModel, ProjectScanErrorModel>
    decreases items.len(),
{
    if items.len() == 0 {
        Ok(
            ProfileEntriesModel { entries: Seq::empty(), diagnostics: start },
        )
    } else {
        let rest = found_entries(
            items.drop_last(),
            start,
            root,
            contexts,
            configurations,
            files,
            asked,
        );
        let last = items.last();
        match rest {
            Ok(before) => match entries_of_packages(
                contexts,
                EntriesModel { entries: Seq::empty(), diagnostics: before.diagnostics },
                root,
                configurations,
                files,
                asked,
                last,
            ) {
                Ok(found) => if found.entries.len() == 0 {
                    Err(ProjectScanErrorModel::NoEntryRoots)
                } else {
                    Ok(
                        ProfileEntriesModel {
                            entries: with_entry::<String, Seq<Seq<PathPartModel>>>(
                                before.entries,
                                last,
                                found.entries,
                            ),
                            diagnostics: found.diagnostics,
                        },
                    )
                },
                Err(error) => Err(error),
            },
            Err(error) => Err(error),
        }
    }
}

/// What is said of the entries that are found for target profiles, also where one of them has
/// none.
pub open spec fn said_of_profiles(
    items: Seq<Seq<char>>,
    start: Seq<AnalysisDiagnosticModel>,
    root: Seq<PathPartModel>,
    contexts: Seq<PackageContextModel>,
    configurations: Seq<ProjectConfigurationModel>,
    files: Seq<Seq<PathPartModel>>,
    asked: Option<Seq<PathPartModel>>,
) -> Seq<AnalysisDiagnosticModel>
    decreases items.len(),
{
    if items.len() == 0 {
        start
    } else {
        let rest = items.drop_last();
        match found_entries(rest, start, root, contexts, configurations, files, asked) {
            Ok(before) => said_of_packages(
                contexts,
                EntriesModel { entries: Seq::empty(), diagnostics: before.diagnostics },
                root,
                configurations,
                files,
                asked,
                items.last(),
            ),
            Err(_) => said_of_profiles(
                rest,
                start,
                root,
                contexts,
                configurations,
                files,
                asked,
            ),
        }
    }
}

proof fn found_entries_fail_early(
    items: Seq<Seq<char>>,
    start: Seq<AnalysisDiagnosticModel>,
    root: Seq<PathPartModel>,
    contexts: Seq<PackageContextModel>,
    configurations: Seq<ProjectConfigurationModel>,
    files: Seq<Seq<PathPartModel>>,
    asked: Option<Seq<PathPartModel>>,
    n: int,
)
    requires
        0 <= n <= items.len(),
        found_entries(items.take(n), start, root, contexts, configurations, files, asked) is Err,
    ensures
        found_entries(items, start, root, contexts, configurations, files, asked) == found_entries(
            items.take(n),
            start,
            root,
            contexts,
            configurations,
            files,
            asked,
        ),
        said_of_profiles(items, start, root, contexts, configurations, files, asked)
            == said_of_profiles(
            items.take(n),
            start,
            root,
            contexts,
            configurations,
            files,
            asked,
        ),
    decreases items.len() - n,
{
    if n < items.len() {
        assert(items.take(n + 1).drop_last() =~= items.take(n));
        found_entries_fail_early(items, start, root, contexts, configurations, files, asked, n + 1);
    } else {
        assert(items.take(n) =~= items);
    }
}

/// The same entries for each target profile.
pub open spec fn same_entries(
    items: Seq<Seq<char>>,
    entries: Seq<Seq<PathPartModel>>,
) -> Seq<(Seq<char>, Seq<Seq<PathPartModel>>)>
    decreases items.len(),
{
    if items.len() == 0 {
        Seq::empty()
    } else {
        let rest = same_entries(items.drop_last(), entries);
        let last = items.last();
        with_entry::<String, Seq<Seq<PathPartModel>>>(rest, last, entries)
    }
}

/// The entries of each target profile: those that are asked for, else those that are found.
pub open spec fn profile_entries(
    start: Seq<AnalysisDiagnosticModel>,
    project: WorkspaceDiscoveryModel,
    contexts: Seq<PackageContextModel>,
    configurations: Seq<ProjectConfigurationModel>,
    files: Seq<Seq<PathPartModel>>,
    request: ProjectScanRequestModel,
    profiles: Seq<Seq<char>>,
) -> Result<ProfileEntriesModel, ProjectScanErrorModel> {
    let root = project.workspace_root;
    if request.entries.len() > 0 {
        match requested_entries(
            request.entries,
            entry_base(root, request.workspace),
            root,
            files,
        ) {
            Ok(entries) => if entries.len() == 0 {
                Err(ProjectScanErrorModel::NoEntryRoots)
            } else {
                Ok(
                    ProfileEntriesModel {
                        entries: same_entries(profiles, entries),
                        diagnostics: start,
                    },
                )
            },
            Err(error) => Err(error),
        }
    } else {
        found_entries(profiles, start, root, contexts, configurations, files, request.workspace)
    }
}

fn entries_in_profile(
    workspace: &WorkspaceDiscovery,
    contexts: &Vec<PackageContext>,
    project_configurations: &Vec<ProjectConfiguration>,
    file_set: &OrderedSet<FilePath>,
    asked: &Option<FilePath>,
    profile: &str,
    diagnostics: &mut Vec<AnalysisDiagnostic>,
) -> (r: Result<OrderedSet<FilePath>, ProjectScanError>)
    ensures
        ({
            let all = entries_of_packages(
                contexts.deep_view(),
                EntriesModel { entries: Seq::empty(), diagnostics: old(diagnostics).deep_view() },
                workspace.deep_view().workspace_root,
                project_configurations.deep_view(),
                file_set.deep_view(),
                asked.deep_view(),
                profile@,
            );
            match r {
                Ok(entries) => all == Ok::<EntriesModel, ProjectScanErrorModel>(
                    EntriesModel {
                        entries: entries.deep_view(),
                        diagnostics: final(diagnostics).deep_view(),
                    },
                ),
                Err(error) => all == Err::<EntriesModel, ProjectScanErrorModel>(
                    error.deep_view(),
                ),
            }
        }),
        final(diagnostics).deep_view() == said_of_packages(
            contexts.deep_view(),
            (EntriesModel { entries: Seq::empty(), diagnostics: old(diagnostics).deep_view() }),
            workspace.deep_view().workspace_root,
            project_configurations.deep_view(),
            file_set.deep_view(),
            asked.deep_view(),
            profile@,
        ),
{
    let mut entries: OrderedSet<FilePath> = OrderedSet::new();
    let ghost start = EntriesModel {
        entries: entries.deep_view(),
        diagnostics: diagnostics.deep_view(),
    };
    let ghost root = workspace.deep_view().workspace_root;
    let ghost configurations = project_configurations.deep_view();
    let ghost files = file_set.deep_view();
    let ghost wanted = asked.deep_view();
    let ghost model = contexts.deep_view();
    let mut i: usize = 0;
    while i < contexts.len()
        invariant
            i <= contexts.len(),
            model == contexts.deep_view(),
            start.entries == Seq::<Seq<PathPartModel>>::empty(),
            start.diagnostics == old(diagnostics).deep_view(),
            root == workspace.deep_view().workspace_root,
            configurations == project_configurations.deep_view(),
            files == file_set.deep_view(),
            wanted == asked.deep_view(),
            diagnostics.deep_view() == said_of_packages(model.take(i as int), start, root, configurations, files, wanted, profile@),
            entries_of_packages(model.take(i as int), start, root, configurations, files, wanted, profile@) == Ok::<EntriesModel, ProjectScanErrorModel>(EntriesModel { entries: entries.deep_view(), diagnostics: diagnostics.deep_view() }),
        decreases contexts.len() - i,
    {
        proof {
            assert(model.take(i + 1).drop_last() =~= model.take(i as int));
            assert(model.take(i + 1).last() == contexts@[i as int].deep_view());
        }
        match collect_package_entries(
            &workspace.workspace_root,
            &contexts[i],
            project_configurations,
            file_set,
            asked,
            profile,
            &mut entries,
            diagnostics,
        ) {
            Ok(_) => {},
            Err(error) => {
                proof {
                    entries_of_packages_fail_early(
                        model,
                        start,
                        root,
                        configurations,
                        files,
                        wanted,
                        profile@,
                        i + 1,
                    );
                }
                return Err(error);
            },
        }
        i = i + 1;
    }
    assert(model.take(i as int) =~= model);
    Ok(entries)
}

/// The entries of each target profile: those that are asked for, else those that are found.
pub fn collect_profile_entries(
    workspace: &WorkspaceDiscovery,
    contexts: &Vec<PackageContext>,
    project_configurations: &Vec<ProjectConfiguration>,
    file_set: &OrderedSet<FilePath>,
    request: &ProjectScanRequest,
    profiles: &Vec<String>,
    diagnostics: &mut Vec<AnalysisDiagnostic>,
) -> (r: Result<OrderedMap<String, Vec<FilePath>>, ProjectScanError>)
    ensures
        ({
            let all = profile_entries(
                old(diagnostics).deep_view(),
                workspace.deep_view(),
                contexts.deep_view(),
                project_configurations.deep_view(),
                file_set.deep_view(),
                request.deep_view(),
                profiles.deep_view(),
            );
            match r {
                Ok(entries) => all == Ok::<ProfileEntriesModel, ProjectScanErrorModel>(
                    ProfileEntriesModel {
                        entries: entries.deep_view(),
                        diagnostics: final(diagnostics).deep_view(),
                    },
                ),
                Err(error) => all == Err::<ProfileEntriesModel, ProjectScanErrorModel>(
                    error.deep_view(),
                ),
            }
        }),
        final(diagnostics).deep_view() == if request.deep_view().entries.len() > 0 {
            old(diagnostics).deep_view()
        } else {
            said_of_profiles(
                profiles.deep_view(),
                old(diagnostics).deep_view(),
                workspace.deep_view().workspace_root,
                contexts.deep_view(),
                project_configurations.deep_view(),
                file_set.deep_view(),
                request.deep_view().workspace,
            )
        },
{
    let ghost start = diagnostics.deep_view();
    let mut by_profile: OrderedMap<String, Vec<FilePath>> = OrderedMap::new();
    assert(request.entries.deep_view().len() == request.entries@.len());
    if request.entries.len() > 0 {
        let entries: Vec<FilePath> = match normalize_requested_entries(
            workspace,
            request,
            file_set,
        ) {
            Ok(entries) => entries,
            Err(error) => {
                return Err(error);
            },
        };
        assert(entries.deep_view().len() == entries@.len());
        if entries.len() == 0 {
            return Err(ProjectScanError::NoEntryRoots);
        }
        let ghost all = entries.deep_view();
        let ghost model = profiles.deep_view();
        let mut i: usize = 0;
        while i < profiles.len()
            invariant
                i <= profiles.len(),
                model == profiles.deep_view(),
                all == entries.deep_view(),
                by_profile.deep_view() == same_entries(model.take(i as int), all),
            decreases profiles.len() - i,
        {
            proof {
                assert(model.take(i + 1).drop_last() =~= model.take(i as int));
                assert(model.take(i + 1).last() == profiles@[i as int].deep_view());
            }
            by_profile.insert(profiles[i].replicate(), entries.replicate());
            i = i + 1;
        }
        assert(model.take(i as int) =~= model);
        return Ok(by_profile);
    }
    let ghost root = workspace.deep_view().workspace_root;
    let ghost given = contexts.deep_view();
    let ghost configurations = project_configurations.deep_view();
    let ghost files = file_set.deep_view();
    let ghost wanted = request.deep_view();
    let ghost model = profiles.deep_view();
    let mut i: usize = 0;
    while i < profiles.len()
        invariant
            i <= profiles.len(),
            model == profiles.deep_view(),
            start == old(diagnostics).deep_view(),
            root == workspace.deep_view().workspace_root,
            given == contexts.deep_view(),
            configurations == project_configurations.deep_view(),
            files == file_set.deep_view(),
            wanted == request.deep_view(),
            wanted.entries.len() == 0,
            diagnostics.deep_view() == said_of_profiles(model.take(i as int), start, root, given, configurations, files, wanted.workspace),
            found_entries(model.take(i as int), start, root, given, configurations, files, wanted.workspace) == Ok::<ProfileEntriesModel, ProjectScanErrorModel>(ProfileEntriesModel { entries: by_profile.deep_view(), diagnostics: diagnostics.deep_view() }),
        decreases profiles.len() - i,
    {
        proof {
            assert(model.take(i + 1).drop_last() =~= model.take(i as int));
            assert(model.take(i + 1).last() == profiles@[i as int].deep_view());
        }
        let entries: OrderedSet<FilePath> = match entries_in_profile(
            workspace,
            contexts,
            project_configurations,
            file_set,
            &request.workspace,
            &profiles[i],
            diagnostics,
        ) {
            Ok(entries) => entries,
            Err(error) => {
                proof {
                    found_entries_fail_early(
                        model,
                        start,
                        root,
                        given,
                        configurations,
                        files,
                        wanted.workspace,
                        i + 1,
                    );
                }
                return Err(error);
            },
        };
        if entries.is_empty() {
            proof {
                found_entries_fail_early(
                    model,
                    start,
                    root,
                    given,
                    configurations,
                    files,
                    wanted.workspace,
                    i + 1,
                );
            }
            return Err(ProjectScanError::NoEntryRoots);
        }
        by_profile.insert(profiles[i].replicate(), entries.into_items());
        i = i + 1;
    }
    assert(model.take(i as int) =~= model);
    Ok(by_profile)
}

} // verus!
