//! What executable plugins are told, and what becomes of their answers.

use crate::analysis::packages::{npm_package, package_name};
use crate::application::notices::{path_in, workspace_manifest_path};
use crate::collections::{collected, with_entry, with_item, with_items, OrderedMap, OrderedSet};
use crate::discovery::workspace::{
    display_workspace, workspace_name, Json, WorkspacePackage, WorkspacePackageModel,
};
use crate::paths::{extension_of, file_name, slashed, FilePath, PathPartModel};
use crate::plugins::contract::{
    contributions_of_both, merge_plugin_contributions, DeclarativePlugin, DeclarativePluginModel,
    DetectedBuiltinPlugin, DetectedBuiltinPluginModel, DetectionEvidenceKind, PluginCapability, PluginContributions,
    PluginContributionsModel, PluginDiagnostic, PluginDiagnosticModel, PluginDiagnosticSeverity,
};
use crate::plugins::executable::{
    HostConfigFact, HostConfigFactModel, HostConfigFormat, HostManifestFacts,
    HostManifestFactsModel, HostPackageFact, HostPackageFactModel, HostPackageKind,
    HostPackageType,
};
use crate::text::{ascii_lowered, contains, occurs, same, starts_with, to_ascii_lowercase};
use crate::values::{push_item, Value};
use vstd::prelude::*;

verus! {

/// All that a plugin can contribute.
pub open spec fn all_capabilities() -> Seq<PluginCapability> {
    seq![
        PluginCapability::Entries,
        PluginCapability::ProjectFiles,
        PluginCapability::ConfigFiles,
        PluginCapability::Exclusions,
        PluginCapability::FileEdges,
        PluginCapability::References,
        PluginCapability::ExportRoots,
        PluginCapability::MemberRoots,
        PluginCapability::GeneratedFiles,
        PluginCapability::DynamicImports,
        PluginCapability::TargetConditions,
        PluginCapability::FileTransforms,
        PluginCapability::Diagnostics,
    ]
}

/// All that a plugin can contribute.
#[must_use]
pub fn all_plugin_capabilities() -> (r: Vec<PluginCapability>)
    ensures
        r@ == all_capabilities(),
{
    let mut all: Vec<PluginCapability> = Vec::new();
    all.push(PluginCapability::Entries);
    all.push(PluginCapability::ProjectFiles);
    all.push(PluginCapability::ConfigFiles);
    all.push(PluginCapability::Exclusions);
    all.push(PluginCapability::FileEdges);
    all.push(PluginCapability::References);
    all.push(PluginCapability::ExportRoots);
    all.push(PluginCapability::MemberRoots);
    all.push(PluginCapability::GeneratedFiles);
    all.push(PluginCapability::DynamicImports);
    all.push(PluginCapability::TargetConditions);
    all.push(PluginCapability::FileTransforms);
    all.push(PluginCapability::Diagnostics);
    assert(all@ =~= all_capabilities());
    all
}

/// Dependencies with those of one kind.
pub open spec fn with_package_facts(
    items: Seq<(Seq<char>, Seq<char>)>,
    start: Seq<HostPackageFactModel>,
    kind: HostPackageKind,
) -> Seq<HostPackageFactModel>
    decreases items.len(),
{
    if items.len() == 0 {
        start
    } else {
        let rest = with_package_facts(items.drop_last(), start, kind);
        let last = items.last();
        rest.push(HostPackageFactModel { name: last.0, version: Some(last.1), kind })
    }
}

fn add_package_facts(
    items: &Vec<(String, String)>,
    kind: HostPackageKind,
    out: &mut Vec<HostPackageFact>,
)
    ensures
        final(out).deep_view() == with_package_facts(items.deep_view(), old(out).deep_view(), kind),
{
    let ghost start = out.deep_view();
    let ghost model = items.deep_view();
    let mut i: usize = 0;
    while i < items.len()
        invariant
            i <= items.len(),
            model == items.deep_view(),
            out.deep_view() =~= with_package_facts(model.take(i as int), start, kind),
        decreases items.len() - i,
    {
        proof {
            assert(model.take(i + 1).drop_last() =~= model.take(i as int));
            assert(model.take(i + 1).last() == items@[i as int].deep_view());
        }
        let item: &(String, String) = &items[i];
        push_item(
            out,
            HostPackageFact { name: item.0.replicate(), version: Some(item.1.replicate()), kind },
        );
        i = i + 1;
    }
    assert(model.take(i as int) =~= model);
}

/// The dependencies that a package declares, in order.
pub open spec fn package_facts(package: WorkspacePackageModel) -> Seq<HostPackageFactModel> {
    let m = package.manifest;
    collected::<HostPackageFact>(with_package_facts(m.optional_dependencies, with_package_facts(m.peer_dependencies, with_package_facts(m.dev_dependencies, with_package_facts(m.dependencies, Seq::empty(), HostPackageKind::Dependency), HostPackageKind::Development), HostPackageKind::Peer), HostPackageKind::Optional))
}

/// The kind of modules that a package says it holds.
pub open spec fn type_of_package(text: Option<Seq<char>>) -> Option<HostPackageType> {
    match text {
        Some(text) => if text == "module"@ {
            Some(HostPackageType::Module)
        } else if text == "commonjs"@ {
            Some(HostPackageType::CommonJs)
        } else {
            None
        },
        None => None,
    }
}

/// What a plugin is told of the manifest of a package.
pub open spec fn manifest_facts(package: WorkspacePackageModel) -> HostManifestFactsModel {
    HostManifestFactsModel {
        path: path_in(workspace_name(package.root), "package.json"@),
        name: package.manifest.name,
        private: Some(package.manifest.private),
        package_type: type_of_package(package.manifest.package_type),
        packages: package_facts(package),
    }
}

/// What a plugin is told of the manifest of a package.
#[must_use]
pub fn executable_manifest_facts(package: &WorkspacePackage) -> (r: HostManifestFacts)
    ensures
        r.deep_view() == manifest_facts(package.deep_view()),
{
    let mut facts: Vec<HostPackageFact> = Vec::new();
    assert(facts.deep_view() =~= Seq::empty());
    add_package_facts(
        package.manifest.dependencies.entries(),
        HostPackageKind::Dependency,
        &mut facts,
    );
    add_package_facts(
        package.manifest.dev_dependencies.entries(),
        HostPackageKind::Development,
        &mut facts,
    );
    add_package_facts(
        package.manifest.peer_dependencies.entries(),
        HostPackageKind::Peer,
        &mut facts,
    );
    add_package_facts(
        package.manifest.optional_dependencies.entries(),
        HostPackageKind::Optional,
        &mut facts,
    );
    let unique: OrderedSet<HostPackageFact> = OrderedSet::from_items(facts);
    let package_type: Option<HostPackageType> = match &package.manifest.package_type {
        Some(text) => {
            if same(text, "module") {
                Some(HostPackageType::Module)
            } else if same(text, "commonjs") {
                Some(HostPackageType::CommonJs)
            } else {
                None
            }
        },
        None => None,
    };
    HostManifestFacts {
        path: workspace_manifest_path(&display_workspace(&package.root)),
        name: package.manifest.name.replicate(),
        private: Some(package.manifest.private),
        package_type,
        packages: unique.into_items(),
    }
}

/// How a configuration file is written.
pub open spec fn config_format(path: Seq<PathPartModel>) -> HostConfigFormat {
    match extension_of(path) {
        Some(extension) => if extension == "json"@ || extension == "jsonc"@ {
            HostConfigFormat::Json
        } else if extension == "js"@ || extension == "cjs"@ || extension == "mjs"@ {
            HostConfigFormat::JavaScript
        } else if extension == "ts"@ || extension == "cts"@ || extension == "mts"@ {
            HostConfigFormat::TypeScript
        } else {
            HostConfigFormat::Unknown
        },
        None => HostConfigFormat::Unknown,
    }
}

/// How a configuration file is written.
#[must_use]
pub fn format_of_config(path: &FilePath) -> (r: HostConfigFormat)
    ensures
        r == config_format(path.deep_view()),
{
    match path.extension() {
        Some(extension) => {
            if same(&extension, "json") || same(&extension, "jsonc") {
                HostConfigFormat::Json
            } else if same(&extension, "js") || same(&extension, "cjs") || same(
                &extension,
                "mjs",
            ) {
                HostConfigFormat::JavaScript
            } else if same(&extension, "ts") || same(&extension, "cts") || same(
                &extension,
                "mts",
            ) {
                HostConfigFormat::TypeScript
            } else {
                HostConfigFormat::Unknown
            }
        },
        None => HostConfigFormat::Unknown,
    }
}

/// Whether a source file is shown to plugins as a configuration.
pub open spec fn names_config(path: Seq<PathPartModel>) -> bool {
    match file_name(path) {
        Some(name) => occurs(name, "config"@) || "."@.is_prefix_of(name),
        None => false,
    }
}

/// Whether a source file is shown to plugins as a configuration.
#[must_use]
pub fn is_config_source(path: &FilePath) -> (r: bool)
    ensures
        r == names_config(path.deep_view()),
{
    match path.file_name() {
        Some(name) => contains(&name, "config") || starts_with(&name, "."),
        None => false,
    }
}

/// Whether a property of a configuration names packages.
pub open spec fn property_names_packages(property: Seq<char>) -> bool {
    let lowered = ascii_lowered(property);
    ||| occurs(lowered, "extends"@)
    ||| occurs(lowered, "environment"@)
    ||| occurs(lowered, "importsource"@)
    ||| occurs(lowered, "parser"@)
    ||| occurs(lowered, "plugin"@)
    ||| occurs(lowered, "preset"@)
    ||| occurs(lowered, "resolver"@)
    ||| occurs(lowered, "runner"@)
    ||| occurs(lowered, "setup"@)
    ||| occurs(lowered, "transform"@)
    ||| occurs(lowered, "types"@)
}

/// Whether a property of a configuration names packages.
#[must_use]
pub fn config_property_references_package(property: &str) -> (r: bool)
    ensures
        r == property_names_packages(property@),
{
    let lowered: String = to_ascii_lowercase(property);
    contains(&lowered, "extends")
        || contains(&lowered, "environment")
        || contains(&lowered, "importsource")
        || contains(&lowered, "parser")
        || contains(&lowered, "plugin")
        || contains(&lowered, "preset")
        || contains(&lowered, "resolver")
        || contains(&lowered, "runner")
        || contains(&lowered, "setup")
        || contains(&lowered, "transform")
        || contains(&lowered, "types")
}

/// The packages that a value of a configuration names: texts of properties that name
/// packages.
pub open spec fn config_packages(value: Json, property: Option<Seq<char>>) -> Seq<Seq<char>>
    decreases value,
{
    match value {
        Json::Object(members) => member_packages(members@),
        Json::List(values) => listed_packages(values@, property),
        Json::Text(reference) => if property is Some && property_names_packages(property->0) {
            match npm_package(reference@) {
                Some(package) => seq![package],
                None => Seq::empty(),
            }
        } else {
            Seq::empty()
        },
        _ => Seq::empty(),
    }
}

/// The packages that the members of a configuration name.
pub open spec fn member_packages(members: Seq<(String, Json)>) -> Seq<Seq<char>>
    decreases members,
{
    if members.len() == 0 {
        Seq::empty()
    } else {
        member_packages(members.drop_last()) + config_packages(
            members.last().1,
            Some(members.last().0@),
        )
    }
}

/// The packages that the values of a list in a configuration name.
pub open spec fn listed_packages(values: Seq<Json>, property: Option<Seq<char>>) -> Seq<Seq<char>>
    decreases values,
{
    if values.len() == 0 {
        Seq::empty()
    } else {
        listed_packages(values.drop_last(), property) + config_packages(values.last(), property)
    }
}

proof fn with_items_in_parts(s: Seq<Seq<char>>, first: Seq<Seq<char>>, second: Seq<Seq<char>>)
    ensures
        with_items::<String>(s, first + second) == with_items::<String>(
            with_items::<String>(s, first),
            second,
        ),
    decreases second.len(),
{
    if second.len() == 0 {
        assert(first + second =~= first);
    } else {
        assert((first + second).drop_last() =~= first + second.drop_last());
        with_items_in_parts(s, first, second.drop_last());
    }
}

/// Adds the packages that a value of a configuration names.
pub fn collect_static_config_packages(
    value: &Json,
    property: Option<&str>,
    packages: &mut OrderedSet<String>,
)
    ensures
        final(packages).deep_view() == with_items::<String>(
            old(packages).deep_view(),
            config_packages(
                *value,
                match property {
                    Some(name) => Some(name@),
                    None => None,
                },
            ),
        ),
    decreases value,
{
    let ghost start = packages.deep_view();
    let ghost under: Option<Seq<char>> = match property {
        Some(name) => Some(name@),
        None => None,
    };
    match value {
        Json::Object(members) => {
            assert(decreases_to!(value => members));
            let mut i: usize = 0;
            while i < members.len()
                invariant
                    i <= members.len(),
                    decreases_to!(value => members),
                    packages.deep_view() == with_items::<String>(
                        start,
                        member_packages(members@.take(i as int)),
                    ),
                decreases members.len() - i,
            {
                proof {
                    assert(members@.take(i + 1).drop_last() =~= members@.take(i as int));
                    assert(members@.take(i + 1).last() == members@[i as int]);
                    assert(decreases_to!(members => members@[i as int]));
                    assert(decreases_to!(members@[i as int] => members@[i as int].1));
                    with_items_in_parts(
                        start,
                        member_packages(members@.take(i as int)),
                        config_packages(members@[i as int].1, Some(members@[i as int].0@)),
                    );
                }
                collect_static_config_packages(
                    &members[i].1,
                    Some(members[i].0.as_str()),
                    packages,
                );
                i = i + 1;
            }
            assert(members@.take(i as int) =~= members@);
        },
        Json::List(values) => {
            assert(decreases_to!(value => values));
            let mut i: usize = 0;
            while i < values.len()
                invariant
                    i <= values.len(),
                    decreases_to!(value => values),
                    under == (match property {
                        Some(name) => Some(name@),
                        None => None,
                    }),
                    packages.deep_view() == with_items::<String>(
                        start,
                        listed_packages(values@.take(i as int), under),
                    ),
                decreases values.len() - i,
            {
                proof {
                    assert(values@.take(i + 1).drop_last() =~= values@.take(i as int));
                    assert(values@.take(i + 1).last() == values@[i as int]);
                    assert(decreases_to!(values => values@[i as int]));
                    with_items_in_parts(
                        start,
                        listed_packages(values@.take(i as int), under),
                        config_packages(values@[i as int], under),
                    );
                }
                collect_static_config_packages(&values[i], property, packages);
                i = i + 1;
            }
            assert(values@.take(i as int) =~= values@);
        },
        Json::Text(reference) => {
            let named: bool = match property {
                Some(name) => config_property_references_package(name),
                None => false,
            };
            if named {
                match package_name(reference) {
                    Some(package) => {
                        let ghost text = package@;
                        packages.insert(package);
                        assert(seq![text].drop_last() =~= Seq::empty());
                        reveal_with_fuel(with_items, 2);
                    },
                    None => {},
                }
            }
        },
        _ => {},
    }
}

/// What a configuration file holds, as far as it can be read.
pub enum ConfigContent {
    /// Nothing that can be read.
    Unreadable,
    /// A module with these imports.
    Imports(Vec<String>),
    /// A document.
    Document(Json),
}

/// The packages that some imports name.
pub open spec fn imported_packages(items: Seq<Seq<char>>) -> Seq<Seq<char>>
    decreases items.len(),
{
    if items.len() == 0 {
        Seq::empty()
    } else {
        let rest = imported_packages(items.drop_last());
        let last = items.last();
        match npm_package(last) {
            Some(package) => with_item::<String>(rest, package),
            None => rest,
        }
    }
}

/// The packages that a configuration file names.
pub open spec fn content_packages(
    format: HostConfigFormat,
    content: ConfigContent,
) -> Seq<Seq<char>> {
    match (format, content) {
        (HostConfigFormat::JavaScript, ConfigContent::Imports(imports)) => imported_packages(
            imports.deep_view(),
        ),
        (HostConfigFormat::TypeScript, ConfigContent::Imports(imports)) => imported_packages(
            imports.deep_view(),
        ),
        (HostConfigFormat::Json, ConfigContent::Document(value)) => with_items::<String>(
            Seq::empty(),
            config_packages(value, None),
        ),
        _ => Seq::empty(),
    }
}

fn packages_in_imports(imports: &Vec<String>) -> (r: OrderedSet<String>)
    ensures
        r.deep_view() == imported_packages(imports.deep_view()),
{
    let mut packages: OrderedSet<String> = OrderedSet::new();
    let ghost model = imports.deep_view();
    let mut i: usize = 0;
    while i < imports.len()
        invariant
            i <= imports.len(),
            model == imports.deep_view(),
            packages.deep_view() == imported_packages(model.take(i as int)),
        decreases imports.len() - i,
    {
        proof {
            assert(model.take(i + 1).drop_last() =~= model.take(i as int));
            assert(model.take(i + 1).last() == imports@[i as int].deep_view());
        }
        match package_name(&imports[i]) {
            Some(package) => {
                packages.insert(package);
            },
            None => {},
        }
        i = i + 1;
    }
    assert(model.take(i as int) =~= model);
    packages
}

/// What a plugin is told of a configuration file.
pub open spec fn config_fact(
    path: Seq<PathPartModel>,
    content: ConfigContent,
) -> HostConfigFactModel {
    HostConfigFactModel {
        path: slashed(path),
        format: config_format(path),
        referenced_packages: content_packages(config_format(path), content),
    }
}

/// What a plugin is told of a configuration file.
#[must_use]
pub fn executable_config_fact(path: &FilePath, content: &ConfigContent) -> (r: HostConfigFact)
    ensures
        r.deep_view() == config_fact(path.deep_view(), *content),
{
    let format: HostConfigFormat = format_of_config(path);
    let packages: OrderedSet<String> = match (format, content) {
        (HostConfigFormat::JavaScript, ConfigContent::Imports(imports)) => packages_in_imports(
            imports,
        ),
        (HostConfigFormat::TypeScript, ConfigContent::Imports(imports)) => packages_in_imports(
            imports,
        ),
        (HostConfigFormat::Json, ConfigContent::Document(value)) => {
            let mut named: OrderedSet<String> = OrderedSet::new();
            collect_static_config_packages(value, None, &mut named);
            named
        },
        _ => OrderedSet::new(),
    };
    HostConfigFact {
        path: path.slashed(),
        format,
        referenced_packages: packages.into_items(),
    }
}

/// What came of asking a plugin about a target profile.
pub enum HostOutcome {
    /// The question was not valid, for this reason.
    InvalidRequest(String),
    /// The plugin could not be run, or did not answer, for this reason.
    Failed(String),
    /// The answer was not valid, for this reason.
    InvalidResponse(String),
    /// The plugin contributes this.
    Answered(PluginContributions),
}

/// What came of asking a plugin about a target profile.
pub enum HostOutcomeModel {
    InvalidRequest(Seq<char>),
    Failed(Seq<char>),
    InvalidResponse(Seq<char>),
    Answered(PluginContributionsModel),
}

impl DeepView for HostOutcome {
    type V = HostOutcomeModel;

    open spec fn deep_view(&self) -> HostOutcomeModel {
        match self {
            HostOutcome::InvalidRequest(reason) => HostOutcomeModel::InvalidRequest(reason@),
            HostOutcome::Failed(reason) => HostOutcomeModel::Failed(reason@),
            HostOutcome::InvalidResponse(reason) => HostOutcomeModel::InvalidResponse(reason@),
            HostOutcome::Answered(contributions) => HostOutcomeModel::Answered(
                contributions.deep_view(),
            ),
        }
    }
}

/// Contributions with one more diagnostic, which blocks.
pub open spec fn with_host_fault(
    contributions: PluginContributionsModel,
    code: Seq<char>,
    message: Seq<char>,
) -> PluginContributionsModel {
    PluginContributionsModel {
        diagnostics: contributions.diagnostics.push(
            PluginDiagnosticModel {
                path: None,
                code,
                severity: PluginDiagnosticSeverity::Error,
                message,
                blocks_reachability: true,
            },
        ),
        ..contributions
    }
}

fn add_host_fault(contributions: &mut PluginContributions, code: &str, message: &str)
    ensures
        final(contributions).deep_view() == with_host_fault(
            old(contributions).deep_view(),
            code@,
            message@,
        ),
{
    push_item(
        &mut contributions.diagnostics,
        PluginDiagnostic {
            path: None,
            code: code.to_string(),
            severity: PluginDiagnosticSeverity::Error,
            message: message.to_string(),
            blocks_reachability: true,
        },
    );
}

/// Whether a plugin is asked no further.
pub open spec fn stops(outcomes: Seq<HostOutcomeModel>) -> bool {
    exists|i: int| 0 <= i < outcomes.len() && !(#[trigger] outcomes[i] is Answered)
}

/// Nothing contributed.
pub open spec fn no_contributions() -> PluginContributionsModel {
    PluginContributionsModel {
        entry_patterns: Seq::empty(),
        project_file_patterns: Seq::empty(),
        config_file_patterns: Seq::empty(),
        exclusion_patterns: Seq::empty(),
        generated_file_patterns: Seq::empty(),
        file_edges: Seq::empty(),
        references: Seq::empty(),
        export_roots: Seq::empty(),
        member_roots: Seq::empty(),
        dynamic_imports: Seq::empty(),
        target_conditions: Seq::empty(),
        file_transforms: Seq::empty(),
        diagnostics: Seq::empty(),
    }
}

/// What a plugin contributes: all of its answers up to the first fault, which is said.
pub open spec fn host_contributions(items: Seq<HostOutcomeModel>) -> PluginContributionsModel
    decreases items.len(),
{
    if items.len() == 0 {
        no_contributions()
    } else {
        let rest = host_contributions(items.drop_last());
        let last = items.last();
        if stops(items.drop_last()) {
            rest
        } else {
            match last {
                HostOutcomeModel::InvalidRequest(reason) => with_host_fault(
                    rest,
                    "plugin_host_invalid_request"@,
                    reason,
                ),
                HostOutcomeModel::Failed(reason) => with_host_fault(
                    rest,
                    "plugin_host_failure"@,
                    reason,
                ),
                HostOutcomeModel::InvalidResponse(reason) => with_host_fault(
                    rest,
                    "plugin_host_invalid_response"@,
                    reason,
                ),
                HostOutcomeModel::Answered(contributions) => contributions_of_both(
                    rest,
                    contributions,
                ),
            }
        }
    }
}

/// Adds what came of asking a plugin about a target profile. Says whether it is asked on.
pub fn take_host_outcome(
    contributions: &mut PluginContributions,
    outcome: &HostOutcome,
) -> (r: bool)
    ensures
        r == (outcome is Answered),
        final(contributions).deep_view() == (match outcome.deep_view() {
            HostOutcomeModel::InvalidRequest(reason) => with_host_fault(
                old(contributions).deep_view(),
                "plugin_host_invalid_request"@,
                reason,
            ),
            HostOutcomeModel::Failed(reason) => with_host_fault(
                old(contributions).deep_view(),
                "plugin_host_failure"@,
                reason,
            ),
            HostOutcomeModel::InvalidResponse(reason) => with_host_fault(
                old(contributions).deep_view(),
                "plugin_host_invalid_response"@,
                reason,
            ),
            HostOutcomeModel::Answered(more) => contributions_of_both(
                old(contributions).deep_view(),
                more,
            ),
        }),
{
    match outcome {
        HostOutcome::InvalidRequest(reason) => {
            add_host_fault(contributions, "plugin_host_invalid_request", reason);
            false
        },
        HostOutcome::Failed(reason) => {
            add_host_fault(contributions, "plugin_host_failure", reason);
            false
        },
        HostOutcome::InvalidResponse(reason) => {
            add_host_fault(contributions, "plugin_host_invalid_response", reason);
            false
        },
        HostOutcome::Answered(more) => {
            merge_plugin_contributions(contributions, more);
            true
        },
    }
}

/// What a plugin contributes, from what came of asking it about each target profile.
#[must_use]
pub fn contributions_from_host(outcomes: &Vec<HostOutcome>) -> (r: PluginContributions)
    ensures
        r.deep_view() == host_contributions(outcomes.deep_view()),
{
    let mut contributions: PluginContributions = PluginContributions::none();
    proof {
        let made = contributions.deep_view();
        assert(made.entry_patterns =~= Seq::empty());
        assert(made.project_file_patterns =~= Seq::empty());
        assert(made.config_file_patterns =~= Seq::empty());
        assert(made.exclusion_patterns =~= Seq::empty());
        assert(made.generated_file_patterns =~= Seq::empty());
        assert(made.file_edges =~= Seq::empty());
        assert(made.references =~= Seq::empty());
        assert(made.export_roots =~= Seq::empty());
        assert(made.member_roots =~= Seq::empty());
        assert(made.dynamic_imports =~= Seq::empty());
        assert(made.target_conditions =~= Seq::empty());
        assert(made.file_transforms =~= Seq::empty());
        assert(made.diagnostics =~= Seq::empty());
    }
    let mut stopped: bool = false;
    let ghost model = outcomes.deep_view();
    let mut i: usize = 0;
    while i < outcomes.len()
        invariant
            i <= outcomes.len(),
            model == outcomes.deep_view(),
            contributions.deep_view() == host_contributions(model.take(i as int)),
            stopped == stops(model.take(i as int)),
        decreases outcomes.len() - i,
    {
        proof {
            assert(model.take(i + 1).drop_last() =~= model.take(i as int));
            assert(model.take(i + 1).last() == outcomes@[i as int].deep_view());
        }
        proof {
            let before = model.take(i as int);
            let now = model.take(i + 1);
            if stops(before) {
                let k = choose|k: int| 0 <= k < before.len() && !(#[trigger] before[k] is Answered);
                assert(!(now[k] is Answered));
            }
            if stops(now) && !stops(before) {
                let k = choose|k: int| 0 <= k < now.len() && !(#[trigger] now[k] is Answered);
                if k < i {
                    assert(before[k] == now[k]);
                }
                assert(k == i);
            }
            assert(now[i as int] == outcomes@[i as int].deep_view());
        }
        if !stopped {
            stopped = !take_host_outcome(&mut contributions, &outcomes[i]);
        }
        i = i + 1;
    }
    assert(model.take(i as int) =~= model);
    contributions
}

/// A fault of a plugin always blocks: where asking it stops, a diagnostic of the plugin says
/// so.
pub proof fn host_faults_block(outcomes: Seq<HostOutcomeModel>)
    requires
        stops(outcomes),
    ensures
        exists|i: int|
            0 <= i < host_contributions(outcomes).diagnostics.len()
                && (#[trigger] host_contributions(outcomes).diagnostics[i]).blocks_reachability,
    decreases outcomes.len(),
{
    let before = outcomes.drop_last();
    if stops(before) {
        host_faults_block(before);
        assert(host_contributions(outcomes) == host_contributions(before));
    } else {
        let k = choose|k: int| 0 <= k < outcomes.len() && !(#[trigger] outcomes[k] is Answered);
        if k < before.len() {
            assert(before[k] == outcomes[k]);
        }
        let said = host_contributions(outcomes).diagnostics;
        assert(said.last().blocks_reachability);
        assert(said[said.len() - 1].blocks_reachability);
    }
}

/// Configured plugins by their names, the last of each name.
pub open spec fn plugins_by_id(
    items: Seq<DeclarativePluginModel>,
) -> Seq<(Seq<char>, DetectedBuiltinPluginModel)>
    decreases items.len(),
{
    if items.len() == 0 {
        Seq::empty()
    } else {
        let rest = plugins_by_id(items.drop_last());
        let last = items.last();
        with_entry::<String, DetectedBuiltinPluginModel>(
            rest,
            last.id,
            DetectedBuiltinPluginModel { plugin: last, evidence: Seq::empty() },
        )
    }
}

/// The plugins of a table.
pub open spec fn detected_plugins(
    items: Seq<(Seq<char>, DetectedBuiltinPluginModel)>,
) -> Seq<DetectedBuiltinPluginModel> {
    items.map_values(|item: (Seq<char>, DetectedBuiltinPluginModel)| item.1)
}

fn list_detected(items: &Vec<(String, DetectedBuiltinPlugin)>) -> (r: Vec<DetectedBuiltinPlugin>)
    ensures
        r.deep_view() == detected_plugins(items.deep_view()),
{
    let mut out: Vec<DetectedBuiltinPlugin> = Vec::new();
    let ghost model = items.deep_view();
    let mut i: usize = 0;
    while i < items.len()
        invariant
            i <= items.len(),
            model == items.deep_view(),
            out.deep_view() =~= detected_plugins(model.take(i as int)),
        decreases items.len() - i,
    {
        proof {
            assert(model.take(i + 1).drop_last() =~= model.take(i as int));
            assert(model.take(i + 1).last() == items@[i as int].deep_view());
        }
        assert(model.take(i + 1) =~= model.take(i as int).push(items@[i as int].deep_view()));
        let item: &(String, DetectedBuiltinPlugin) = &items[i];
        push_item(&mut out, item.1.replicate());
        i = i + 1;
    }
    assert(model.take(i as int) =~= model);
    out
}

/// The configured plugins of a package, in the order of their names.
#[must_use]
pub fn select_configured_plugins(
    plugins: &Vec<DeclarativePlugin>,
) -> (r: Vec<DetectedBuiltinPlugin>)
    ensures
        r.deep_view() == detected_plugins(plugins_by_id(plugins.deep_view())),
{
    let mut selected: OrderedMap<String, DetectedBuiltinPlugin> = OrderedMap::new();
    let ghost model = plugins.deep_view();
    let mut i: usize = 0;
    while i < plugins.len()
        invariant
            i <= plugins.len(),
            model == plugins.deep_view(),
            selected.deep_view() == plugins_by_id(model.take(i as int)),
        decreases plugins.len() - i,
    {
        proof {
            assert(model.take(i + 1).drop_last() =~= model.take(i as int));
            assert(model.take(i + 1).last() == plugins@[i as int].deep_view());
        }
        let evidence: Vec<DetectionEvidenceKind> = Vec::new();
        assert(evidence.deep_view() =~= Seq::empty());
        selected.insert(
            plugins[i].id.replicate(),
            DetectedBuiltinPlugin { plugin: plugins[i].replicate(), evidence },
        );
        i = i + 1;
    }
    assert(model.take(i as int) =~= model);
    assert(selected.entries().deep_view() =~= selected.deep_view());
    list_detected(selected.entries())
}

} // verus!
