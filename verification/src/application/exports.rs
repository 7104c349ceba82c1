//! What the packages of a project export to each other.

use crate::application::entries::{map_entry_to_source, roots_for, source_of_entry};
use crate::application::errors::{ProjectScanError, ProjectScanErrorModel};
use crate::application::resolution::{WorkspaceModuleTarget, WorkspaceModuleTargetModel};
use crate::application::targets::{
    conditions_for, manifest_profiles, manifest_profiles_for, resolve_conditions_for_targets,
};
use crate::collections::{
    collected, lookup, with_entry, with_item, with_items, OrderedMap, OrderedSet,
};
use crate::discovery::workspace::{
    context_of_root, find_context, EntryTargetProfile, Json, PackageContext, PackageContextModel,
    PackageEntryRoot, PackageEntryRootModel, PackageManifest, PackageManifestModel,
    ProjectConfiguration, ProjectConfigurationModel, TargetConfiguration, TargetConfigurationModel,
    WorkspaceDiscovery, WorkspacePackage, WorkspacePackageModel,
};
use crate::paths::{
    extension_of, names_of, parsed, path_below, path_joined, slashed, with_extension_of, written,
    FilePath, PathPartModel,
};
use crate::text::{
    chars_of, concat2, concat3, contains_char, cut_at_first, ends_with, no_texts, one_text,
    pieces, replace_char, same, slice, split, split_once, starts_with, strip_prefix, strip_suffix,
    two_texts, with_char, without_prefix, without_suffix,
};
use crate::values::{append_items, push_item, Value};
use vstd::prelude::*;

verus! {

/// Names with the keys of a table.
pub open spec fn with_keys(
    items: Seq<(Seq<char>, Seq<char>)>,
    start: Seq<Seq<char>>,
) -> Seq<Seq<char>>
    decreases items.len(),
{
    if items.len() == 0 {
        start
    } else {
        let rest = with_keys(items.drop_last(), start);
        let last = items.last();
        with_item::<String>(rest, last.0)
    }
}

fn add_keys(entries: &Vec<(String, String)>, names: &mut OrderedSet<String>)
    ensures
        final(names).deep_view() == with_keys(entries.deep_view(), old(names).deep_view()),
{
    let ghost start = names.deep_view();
    let ghost model = entries.deep_view();
    let mut i: usize = 0;
    while i < entries.len()
        invariant
            i <= entries.len(),
            model == entries.deep_view(),
            names.deep_view() == with_keys(model.take(i as int), start),
        decreases entries.len() - i,
    {
        proof {
            assert(model.take(i + 1).drop_last() =~= model.take(i as int));
            assert(model.take(i + 1).last() == entries@[i as int].deep_view());
        }
        names.insert(entries[i].0.replicate());
        i = i + 1;
    }
    assert(model.take(i as int) =~= model);
}

/// The packages that a manifest depends on in any way.
pub open spec fn dependencies_of(m: PackageManifestModel) -> Seq<Seq<char>> {
    with_keys(
        m.optional_dependencies,
        with_keys(
            m.peer_dependencies,
            with_keys(m.dev_dependencies, with_keys(m.dependencies, Seq::empty())),
        ),
    )
}

/// The packages that a manifest depends on in any way.
#[must_use]
pub fn dependency_names(manifest: &PackageManifest) -> (r: OrderedSet<String>)
    ensures
        r.deep_view() == dependencies_of(manifest.deep_view()),
{
    let mut names: OrderedSet<String> = OrderedSet::new();
    add_keys(manifest.dependencies.entries(), &mut names);
    add_keys(manifest.dev_dependencies.entries(), &mut names);
    add_keys(manifest.peer_dependencies.entries(), &mut names);
    add_keys(manifest.optional_dependencies.entries(), &mut names);
    names
}

/// What the manifest at a root tells a scan of the files below it.
#[derive(Debug)]
pub struct PackageManifestEvidence {
    pub packages: OrderedSet<String>,
    pub open_world: bool,
}

/// What a manifest tells a scan: the packages that are known to be outside, and whether others
/// may use what the package exports. Where there is no manifest, nothing is known and nobody may.
#[must_use]
pub fn package_manifest_evidence(manifest: &Option<PackageManifest>) -> (r: PackageManifestEvidence)
    ensures
        match *manifest {
            Some(manifest) => r.packages.deep_view() == dependencies_of(manifest.deep_view())
                && r.open_world == !manifest.private,
            None => r.packages.deep_view() == Seq::<Seq<char>>::empty() && !r.open_world,
        },
{
    match manifest {
        Some(manifest) => PackageManifestEvidence {
            packages: dependency_names(manifest),
            open_world: !manifest.private,
        },
        None => PackageManifestEvidence { packages: OrderedSet::new(), open_world: false },
    }
}

/// The packages that a project knows by name: its own, and those that these depend on.
pub open spec fn declared_names(items: Seq<WorkspacePackageModel>) -> Seq<Seq<char>>
    decreases items.len(),
{
    if items.len() == 0 {
        Seq::empty()
    } else {
        let rest = declared_names(items.drop_last());
        let last = items.last();
        {
            let m = last.manifest;
            let dependencies = with_keys(
                m.optional_dependencies,
                with_keys(
                    m.peer_dependencies,
                    with_keys(m.dev_dependencies, with_keys(m.dependencies, rest)),
                ),
            );
            match m.name {
                Some(name) => with_item::<String>(dependencies, name),
                None => dependencies,
            }
        }
    }
}

/// The packages that a project knows by name.
#[must_use]
pub fn declared_package_names(workspace: &WorkspaceDiscovery) -> (r: OrderedSet<String>)
    ensures
        r.deep_view() == declared_names(workspace.deep_view().packages),
{
    let mut names: OrderedSet<String> = OrderedSet::new();
    let packages: &Vec<WorkspacePackage> = &workspace.packages;
    let ghost model = packages.deep_view();
    let mut i: usize = 0;
    while i < packages.len()
        invariant
            i <= packages.len(),
            model == packages.deep_view(),
            names.deep_view() == declared_names(model.take(i as int)),
        decreases packages.len() - i,
    {
        proof {
            assert(model.take(i + 1).drop_last() =~= model.take(i as int));
            assert(model.take(i + 1).last() == packages@[i as int].deep_view());
        }
        let manifest: &PackageManifest = &packages[i].manifest;
        add_keys(manifest.dependencies.entries(), &mut names);
        add_keys(manifest.dev_dependencies.entries(), &mut names);
        add_keys(manifest.peer_dependencies.entries(), &mut names);
        add_keys(manifest.optional_dependencies.entries(), &mut names);
        match &manifest.name {
            Some(name) => {
                names.insert(name.replicate());
            },
            None => {},
        }
        i = i + 1;
    }
    assert(model.take(i as int) =~= model);
    names
}

/// Texts without those that stand before.
pub open spec fn first_occurrences(items: Seq<Seq<char>>) -> Seq<Seq<char>>
    decreases items.len(),
{
    if items.len() == 0 {
        Seq::empty()
    } else {
        let rest = first_occurrences(items.drop_last());
        let last = items.last();
        if rest.contains(last) { rest } else { rest.push(last) }
    }
}

fn holds(texts: &Vec<String>, wanted: &str) -> (r: bool)
    ensures
        r == texts.deep_view().contains(wanted@),
{
    let ghost model = texts.deep_view();
    let mut i: usize = 0;
    while i < texts.len()
        invariant
            i <= texts.len(),
            model == texts.deep_view(),
            forall|k: int| 0 <= k < i ==> model[k] != wanted@,
        decreases texts.len() - i,
    {
        assert(model[i as int] == texts@[i as int]@);
        if same(&texts[i], wanted) {
            return true;
        }
        i = i + 1;
    }
    false
}

/// Leaves out the texts that stand before.
pub fn deduplicate_preserving_order(values: &mut Vec<String>)
    ensures
        final(values).deep_view() == first_occurrences(old(values).deep_view()),
{
    let all: Vec<String> = values.replicate();
    let mut kept: Vec<String> = Vec::new();
    let ghost model = all.deep_view();
    let mut i: usize = 0;
    while i < all.len()
        invariant
            i <= all.len(),
            model == all.deep_view(),
            kept.deep_view() =~= first_occurrences(model.take(i as int)),
        decreases all.len() - i,
    {
        proof {
            assert(model.take(i + 1).drop_last() =~= model.take(i as int));
            assert(model.take(i + 1).last() == all@[i as int].deep_view());
        }
        if !holds(&kept, &all[i]) {
            push_item(&mut kept, all[i].replicate());
        }
        i = i + 1;
    }
    assert(model.take(i as int) =~= model);
    *values = kept;
}

/// Keeping the first of equal texts keeps every text, and none twice.
pub proof fn first_occurrences_are_the_texts_once(texts: Seq<Seq<char>>)
    ensures
        first_occurrences(texts).no_duplicates(),
        forall|text: Seq<char>| #[trigger]
            first_occurrences(texts).contains(text) == texts.contains(text),
    decreases texts.len(),
{
    if texts.len() > 0 {
        first_occurrences_are_the_texts_once(texts.drop_last());
        let rest = first_occurrences(texts.drop_last());
        let last = texts.last();
        assert forall|text: Seq<char>| #[trigger]
            first_occurrences(texts).contains(text) == texts.contains(text) by {
            if rest.contains(text) {
                let k = choose|k: int| 0 <= k < texts.drop_last().len() && texts.drop_last()[k] == text;
                assert(texts[k] == text);
                let j = choose|j: int| 0 <= j < rest.len() && rest[j] == text;
                if !rest.contains(last) {
                    assert(rest.push(last)[j] == text);
                }
            }
            if text == last {
                assert(texts[texts.len() - 1] == text);
                if !rest.contains(last) {
                    assert(rest.push(last)[rest.len() as int] == text);
                }
            }
            if texts.contains(text) && text != last {
                let k = choose|k: int| 0 <= k < texts.len() && texts[k] == text;
                assert(texts.drop_last()[k] == text);
            }
            if first_occurrences(texts).contains(text) && !rest.contains(text) {
                let j = choose|j: int|
                    0 <= j < first_occurrences(texts).len() && first_occurrences(texts)[j] == text;
                assert(j == rest.len());
            }
        }
    }
}

/// A module of a package that leads nowhere yet.
pub open spec fn empty_target(
    package: Seq<char>,
    specifier: Seq<char>,
) -> WorkspaceModuleTargetModel {
    WorkspaceModuleTargetModel {
        package,
        specifier,
        esm: Seq::empty(),
        common_js: Seq::empty(),
    }
}

/// A module of a package, as known so far.
pub open spec fn known_target(
    targets: Seq<(Seq<char>, WorkspaceModuleTargetModel)>,
    package: Seq<char>,
    specifier: Seq<char>,
) -> WorkspaceModuleTargetModel {
    match lookup(targets, specifier) {
        Some(target) => target,
        None => empty_target(package, specifier),
    }
}

fn find_target(
    targets: &OrderedMap<String, WorkspaceModuleTarget>,
    package: &str,
    specifier: &String,
) -> (r: WorkspaceModuleTarget)
    ensures
        r.deep_view() == known_target(targets.deep_view(), package@, specifier@),
{
    match targets.get(specifier) {
        Some(target) => target.replicate(),
        None => WorkspaceModuleTarget {
            package: package.to_string(),
            specifier: specifier.replicate(),
            esm: no_texts(),
            common_js: no_texts(),
        },
    }
}

/// Modules with one more file for one of them.
pub open spec fn with_module_target(
    targets: Seq<(Seq<char>, WorkspaceModuleTargetModel)>,
    package: Seq<char>,
    specifier: Seq<char>,
    profile: EntryTargetProfile,
    source: Seq<char>,
) -> Seq<(Seq<char>, WorkspaceModuleTargetModel)> {
    let target = known_target(targets, package, specifier);
    with_entry::<String, WorkspaceModuleTargetModel>(
        targets,
        specifier,
        if profile == EntryTargetProfile::NodeRequire {
            WorkspaceModuleTargetModel { common_js: target.common_js.push(source), ..target }
        } else {
            WorkspaceModuleTargetModel { esm: target.esm.push(source), ..target }
        },
    )
}

/// Adds a file to a module.
pub fn add_workspace_module_target(
    targets: &mut OrderedMap<String, WorkspaceModuleTarget>,
    package: &str,
    specifier: &str,
    profile: EntryTargetProfile,
    source: String,
)
    ensures
        final(targets).deep_view() == with_module_target(
            old(targets).deep_view(),
            package@,
            specifier@,
            profile,
            source@,
        ),
{
    let key: String = specifier.to_string();
    let mut target: WorkspaceModuleTarget = find_target(targets, package, &key);
    if profile == EntryTargetProfile::NodeRequire {
        push_item(&mut target.common_js, source);
    } else {
        push_item(&mut target.esm, source);
    }
    targets.insert(key, target);
}

/// Whether a member of an export map is selected.
pub open spec fn is_selected(member: (String, Json), conditions: Seq<Seq<char>>) -> bool {
    member.0@ == "default"@ || conditions.contains(member.0@)
}

/// Where the first selected member from a place on is.
pub open spec fn first_selected(
    members: Seq<(String, Json)>,
    conditions: Seq<Seq<char>>,
    from: int,
) -> int
    decreases members.len() - from,
{
    if from < 0 || from >= members.len() || is_selected(members[from], conditions) {
        from
    } else {
        first_selected(members, conditions, from + 1)
    }
}

/// The files that a value of an export map names under conditions: a text itself, all that
/// the values of a list name, and what the first member of an object names whose condition
/// holds.
pub open spec fn export_targets(value: Json, conditions: Seq<Seq<char>>) -> Seq<Seq<char>>
    decreases value,
{
    match value {
        Json::Text(target) => seq![target@],
        Json::List(values) => all_export_targets(values@, conditions),
        Json::Object(members) => {
            let k = first_selected(members@, conditions, 0);
            if 0 <= k < members@.len() {
                export_targets(members@[k].1, conditions)
            } else {
                Seq::empty()
            }
        },
        _ => Seq::empty(),
    }
}

/// The files that all of some values of an export map name.
pub open spec fn all_export_targets(values: Seq<Json>, conditions: Seq<Seq<char>>) -> Seq<Seq<char>>
    decreases values,
{
    if values.len() == 0 {
        Seq::empty()
    } else {
        all_export_targets(values.drop_last(), conditions) + export_targets(
            values.last(),
            conditions,
        )
    }
}

/// Adds the files that a value of an export map names under conditions.
pub fn collect_conditional_export_targets(
    value: &Json,
    conditions: &OrderedSet<String>,
    targets: &mut Vec<String>,
)
    ensures
        final(targets).deep_view() == old(targets).deep_view() + export_targets(
            *value,
            conditions.deep_view(),
        ),
    decreases value,
{
    let ghost start = targets.deep_view();
    let ghost known = conditions.deep_view();
    match value {
        Json::Text(target) => {
            push_item(targets, target.replicate());
            assert(targets.deep_view() =~= start + export_targets(*value, known));
        },
        Json::List(values) => {
            assert(decreases_to!(value => values));
            let mut i: usize = 0;
            while i < values.len()
                invariant
                    i <= values.len(),
                    decreases_to!(value => values),
                    known == conditions.deep_view(),
                    targets.deep_view() =~= start + all_export_targets(
                        values@.take(i as int),
                        known,
                    ),
                decreases values.len() - i,
            {
                proof {
                    assert(values@.take(i + 1).drop_last() =~= values@.take(i as int));
                    assert(values@.take(i + 1).last() == values@[i as int]);
                    assert(decreases_to!(values => values@[i as int]));
                }
                collect_conditional_export_targets(&values[i], conditions, targets);
                i = i + 1;
            }
            assert(values@.take(i as int) =~= values@);
        },
        Json::Object(members) => {
            let mut i: usize = 0;
            while i < members.len() && !(same(&members[i].0, "default") || conditions.contains(
                &members[i].0,
            ))
                invariant
                    i <= members.len(),
                    known == conditions.deep_view(),
                    first_selected(members@, known, 0) == first_selected(
                        members@,
                        known,
                        i as int,
                    ),
                decreases members.len() - i,
            {
                i = i + 1;
            }
            if i < members.len() {
                proof {
                    assert(decreases_to!(value => members));
                    assert(decreases_to!(members => members@[i as int]));
                    assert(decreases_to!(members@[i as int] => members@[i as int].1));
                }
                collect_conditional_export_targets(&members[i].1, conditions, targets);
            } else {
                assert(targets.deep_view() =~= start + export_targets(*value, known));
            }
        },
        _ => {
            assert(targets.deep_view() =~= start + export_targets(*value, known));
        },
    }
}

/// The conditions that hold for whom a manifest declares entries.
pub open spec fn profile_conditions(profile: EntryTargetProfile) -> Seq<Seq<char>> {
    match profile {
        EntryTargetProfile::NodeImport => seq!["node"@, "import"@],
        EntryTargetProfile::NodeRequire => seq!["node"@, "require"@],
        EntryTargetProfile::Bundler => seq!["import"@, "module"@],
        EntryTargetProfile::Browser => seq!["browser"@, "import"@],
        EntryTargetProfile::Types => seq!["types"@],
        EntryTargetProfile::CommandLine => Seq::empty(),
    }
}

fn list_profile_conditions(profile: EntryTargetProfile) -> (r: Vec<String>)
    ensures
        r.deep_view() == profile_conditions(profile),
{
    match profile {
        EntryTargetProfile::NodeImport => two_texts("node", "import"),
        EntryTargetProfile::NodeRequire => two_texts("node", "require"),
        EntryTargetProfile::Bundler => two_texts("import", "module"),
        EntryTargetProfile::Browser => two_texts("browser", "import"),
        EntryTargetProfile::Types => one_text("types"),
        EntryTargetProfile::CommandLine => no_texts(),
    }
}

/// Whether an export map is one of subpaths.
pub open spec fn has_subpath(members: Seq<(String, Json)>) -> bool {
    exists|i: int| 0 <= i < members.len() && "."@.is_prefix_of(#[trigger] members[i].0@)
}

fn any_subpath(members: &Vec<(String, Json)>) -> (r: bool)
    ensures
        r == has_subpath(members@),
{
    let mut i: usize = 0;
    while i < members.len()
        invariant
            i <= members.len(),
            forall|k: int| 0 <= k < i ==> !"."@.is_prefix_of(#[trigger] members@[k].0@),
        decreases members.len() - i,
    {
        if starts_with(&members[i].0, ".") {
            return true;
        }
        i = i + 1;
    }
    false
}

/// A key together with each of some files.
pub open spec fn keyed(key: Seq<char>, targets: Seq<Seq<char>>) -> Seq<(Seq<char>, Seq<char>)> {
    targets.map_values(|target: Seq<char>| (key, target))
}

/// The subpaths that members of an export map declare, each with the files that it names.
pub open spec fn subpath_pairs(
    members: Seq<(String, Json)>,
    conditions: Seq<Seq<char>>,
) -> Seq<(Seq<char>, Seq<char>)>
    decreases members.len(),
{
    if members.len() == 0 {
        Seq::empty()
    } else {
        let rest = subpath_pairs(members.drop_last(), conditions);
        let key = members.last().0@;
        if key == "."@ || !"./"@.is_prefix_of(key) {
            rest
        } else {
            rest + keyed(key, export_targets(members.last().1, conditions))
        }
    }
}

/// The subpaths that a manifest exports to someone under conditions, each with the files that
/// it names.
pub open spec fn subpath_exports(
    manifest: PackageManifestModel,
    profile: EntryTargetProfile,
    conditions: Seq<Seq<char>>,
) -> Seq<(Seq<char>, Seq<char>)> {
    match manifest.exports {
        Some(Json::Object(members)) => if has_subpath(members@) {
            subpath_pairs(members@, with_items::<String>(conditions, profile_conditions(profile)))
        } else {
            Seq::empty()
        },
        _ => Seq::empty(),
    }
}

fn pair_with(key: &str, targets: &Vec<String>) -> (r: Vec<(String, String)>)
    ensures
        r.deep_view() == keyed(key@, targets.deep_view()),
{
    let mut out: Vec<(String, String)> = Vec::new();
    let ghost model = targets.deep_view();
    let mut i: usize = 0;
    while i < targets.len()
        invariant
            i <= targets.len(),
            model == targets.deep_view(),
            out.deep_view() =~= keyed(key@, model.take(i as int)),
        decreases targets.len() - i,
    {
        proof {
            assert(model.take(i + 1).drop_last() =~= model.take(i as int));
            assert(model.take(i + 1).last() == targets@[i as int].deep_view());
        }
        push_item(&mut out, (key.to_string(), targets[i].replicate()));
        i = i + 1;
    }
    assert(model.take(i as int) =~= model);
    out
}

/// The subpaths that a manifest exports to someone under conditions, each with the files that
/// it names.
#[must_use]
pub fn package_subpath_exports(
    manifest: &PackageManifest,
    profile: EntryTargetProfile,
    target_conditions: &OrderedSet<String>,
) -> (r: Vec<(String, String)>)
    ensures
        r.deep_view() == subpath_exports(
            manifest.deep_view(),
            profile,
            target_conditions.deep_view(),
        ),
{
    let mut selected: Vec<(String, String)> = Vec::new();
    assert(selected.deep_view() =~= Seq::empty());
    let members: &Vec<(String, Json)> = match &manifest.exports {
        Some(Json::Object(members)) => members,
        _ => {
            return selected;
        },
    };
    if !any_subpath(members) {
        return selected;
    }
    let mut conditions: OrderedSet<String> = target_conditions.replicate();
    conditions.extend(&list_profile_conditions(profile));
    let ghost known = conditions.deep_view();
    let mut i: usize = 0;
    while i < members.len()
        invariant
            i <= members.len(),
            known == conditions.deep_view(),
            selected.deep_view() =~= subpath_pairs(members@.take(i as int), known),
        decreases members.len() - i,
    {
        proof {
            assert(members@.take(i + 1).drop_last() =~= members@.take(i as int));
            assert(members@.take(i + 1).last() == members@[i as int]);
        }
        let key: &String = &members[i].0;
        if !same(key, ".") && starts_with(key, "./") {
            let mut values: Vec<String> = Vec::new();
            assert(values.deep_view() =~= Seq::empty());
            collect_conditional_export_targets(&members[i].1, &conditions, &mut values);
            assert(values.deep_view() =~= export_targets(members@[i as int].1, known));
            append_items(&mut selected, &pair_with(key, &values));
        }
        i = i + 1;
    }
    assert(members@.take(i as int) =~= members@);
    selected
}

/// Where a source file is emitted to, in its directory.
pub open spec fn runtime_output(path: Seq<PathPartModel>) -> Seq<PathPartModel> {
    match extension_of(path) {
        Some(extension) => if extension == "ts"@ || extension == "tsx"@ {
            with_extension_of(path, "js"@)
        } else if extension == "mts"@ {
            with_extension_of(path, "mjs"@)
        } else if extension == "cts"@ {
            with_extension_of(path, "cjs"@)
        } else {
            path
        },
        None => path,
    }
}

/// Where a source file is emitted to, in its directory.
#[must_use]
pub fn runtime_output_path(path: &FilePath) -> (r: FilePath)
    ensures
        r.deep_view() == runtime_output(path.deep_view()),
{
    match path.extension() {
        Some(extension) => {
            if same(&extension, "ts") || same(&extension, "tsx") {
                path.with_extension("js")
            } else if same(&extension, "mts") {
                path.with_extension("mjs")
            } else if same(&extension, "cts") {
                path.with_extension("cjs")
            } else {
                path.replicate()
            }
        },
        None => path.replicate(),
    }
}

/// Paths with those that compiler configurations emit a source file to.
pub open spec fn emitted_by(
    items: Seq<ProjectConfigurationModel>,
    start: Seq<Seq<PathPartModel>>,
    source: Seq<PathPartModel>,
) -> Seq<Seq<PathPartModel>>
    decreases items.len(),
{
    if items.len() == 0 {
        start
    } else {
        let rest = emitted_by(items.drop_last(), start, source);
        let last = items.last();
        match (last.root_dir, last.out_dir) {
            (Some(root_dir), Some(out_dir)) => match path_below(source, root_dir) {
                Some(relative) => {
                    let output = path_joined(out_dir, relative);
                    with_item::<FilePath>(
                        with_item::<FilePath>(rest, output),
                        runtime_output(output),
                    )
                },
                None => rest,
            },
            _ => rest,
        }
    }
}

/// Where a source file may stand for others: itself, and where it is emitted to.
pub open spec fn emitted_variants(
    source: Seq<PathPartModel>,
    configurations: Seq<ProjectConfigurationModel>,
) -> Seq<Seq<PathPartModel>> {
    emitted_by(
        configurations,
        collected::<FilePath>(seq![names_of(source), runtime_output(source)]),
        source,
    )
}

/// Where a source file may stand for others.
#[must_use]
pub fn emitted_source_variants(
    source: &FilePath,
    project_configurations: &Vec<ProjectConfiguration>,
) -> (r: OrderedSet<FilePath>)
    ensures
        r.deep_view() == emitted_variants(source.deep_view(), project_configurations.deep_view()),
{
    let ghost path = source.deep_view();
    let mut both: Vec<FilePath> = Vec::new();
    push_item(&mut both, source.names());
    push_item(&mut both, runtime_output_path(source));
    assert(both.deep_view() =~= seq![names_of(path), runtime_output(path)]);
    let mut variants: OrderedSet<FilePath> = OrderedSet::from_items(both);
    let ghost start = variants.deep_view();
    let ghost model = project_configurations.deep_view();
    let mut i: usize = 0;
    while i < project_configurations.len()
        invariant
            i <= project_configurations.len(),
            model == project_configurations.deep_view(),
            path == source.deep_view(),
            variants.deep_view() == emitted_by(model.take(i as int), start, path),
        decreases project_configurations.len() - i,
    {
        proof {
            assert(model.take(i + 1).drop_last() =~= model.take(i as int));
            assert(model.take(i + 1).last() == project_configurations@[i as int].deep_view());
        }
        let configuration: &ProjectConfiguration = &project_configurations[i];
        match (&configuration.root_dir, &configuration.out_dir) {
            (Some(root_dir), Some(out_dir)) => {
                match source.strip_prefix(root_dir) {
                    Some(relative) => {
                        let output: FilePath = out_dir.join(&relative);
                        let emitted: FilePath = runtime_output_path(&output);
                        variants.insert(output);
                        variants.insert(emitted);
                    },
                    None => {},
                }
            },
            _ => {},
        }
        i = i + 1;
    }
    assert(model.take(i as int) =~= model);
    variants
}

/// What a star in a pattern stands for.
pub open spec fn wildcard_capture(pattern: Seq<char>, value: Seq<char>) -> Option<Seq<char>> {
    match cut_at_first(pattern, '*') {
        Some((prefix, suffix)) => match without_prefix(value, prefix) {
            Some(rest) => without_suffix(rest, suffix),
            None => None,
        },
        None => None,
    }
}

/// What a star in a pattern stands for.
#[must_use]
pub fn single_wildcard_capture(pattern: &str, value: &str) -> (r: Option<String>)
    ensures
        r.deep_view() == wildcard_capture(pattern@, value@),
{
    match split_once(pattern, '*') {
        Some((prefix, suffix)) => match strip_prefix(value, &prefix) {
            Some(rest) => strip_suffix(&rest, &suffix),
            None => None,
        },
        None => None,
    }
}

/// What a star stands for is what has to be put in its place.
pub proof fn captures_fit(pattern: Seq<char>, value: Seq<char>)
    ensures
        match wildcard_capture(pattern, value) {
            Some(capture) => with_capture(pattern, capture) == value,
            None => true,
        },
{
    match cut_at_first(pattern, '*') {
        Some((prefix, suffix)) => {
            match without_prefix(value, prefix) {
                Some(rest) => {
                    match without_suffix(rest, suffix) {
                        Some(capture) => {
                            assert(value =~= prefix + capture + suffix);
                        },
                        None => {},
                    }
                },
                None => {},
            }
        },
        None => {},
    }
}

/// A pattern with something in place of its first star.
pub open spec fn with_capture(pattern: Seq<char>, capture: Seq<char>) -> Seq<char> {
    match cut_at_first(pattern, '*') {
        Some((before, after)) => before + capture + after,
        None => pattern,
    }
}

fn put_capture(pattern: &str, capture: &str) -> (r: String)
    ensures
        r@ == with_capture(pattern@, capture@),
{
    match split_once(pattern, '*') {
        Some((before, after)) => concat3(&before, capture, &after),
        None => pattern.to_string(),
    }
}

/// A text without all "./" that it starts with.
pub open spec fn without_steps(s: Seq<char>) -> Seq<char>
    decreases s.len(),
{
    if s.len() >= 2 && s[0] == '.' && s[1] == '/' {
        without_steps(s.skip(2))
    } else {
        s
    }
}

fn trim_steps(s: &str) -> (r: String)
    ensures
        r@ == without_steps(s@),
{
    let chars: Vec<char> = chars_of(s);
    let mut from: usize = 0;
    assert(s@.skip(0) =~= s@);
    while chars.len() - from >= 2 && chars[from] == '.' && chars[from + 1] == '/'
        invariant
            from <= chars.len(),
            chars.len() <= usize::MAX,
            chars@ == s@,
            without_steps(s@) == without_steps(s@.skip(from as int)),
        decreases chars.len() - from,
    {
        assert(s@.skip(from as int).skip(2) =~= s@.skip(from + 2));
        from = from + 2;
    }
    let rest: String = slice(&chars, from, chars.len());
    assert(rest@ =~= s@.skip(from as int));
    rest
}

/// What a module of a package is imported as.
pub open spec fn subpath_specifier(package_name: Seq<char>, subpath: Seq<char>) -> Seq<char> {
    package_name + "/"@ + without_steps(subpath)
}

/// Files that a pattern of an export means, each with what it is imported as.
pub open spec fn with_emitted(
    items: Seq<Seq<PathPartModel>>,
    start: Seq<(Seq<char>, Seq<char>)>,
    source: Seq<PathPartModel>,
    pattern: Seq<char>,
    package_name: Seq<char>,
    export_key: Seq<char>,
) -> Seq<(Seq<char>, Seq<char>)>
    decreases items.len(),
{
    if items.len() == 0 {
        start
    } else {
        let rest = with_emitted(
            items.drop_last(),
            start,
            source,
            pattern,
            package_name,
            export_key,
        );
        match wildcard_capture(pattern, slashed(items.last())) {
            Some(capture) => with_item::<(String, String)>(
                rest,
                (
                    subpath_specifier(package_name, with_capture(export_key, capture)),
                    slashed(source),
                ),
            ),
            None => rest,
        }
    }
}

fn add_emitted(
    emitted: &Vec<FilePath>,
    source: &FilePath,
    pattern: &str,
    package_name: &str,
    export_key: &str,
    expanded: &mut OrderedSet<(String, String)>,
)
    ensures
        final(expanded).deep_view() == with_emitted(
            emitted.deep_view(),
            old(expanded).deep_view(),
            source.deep_view(),
            pattern@,
            package_name@,
            export_key@,
        ),
{
    let ghost start = expanded.deep_view();
    let ghost path = source.deep_view();
    let ghost model = emitted.deep_view();
    let mut i: usize = 0;
    while i < emitted.len()
        invariant
            i <= emitted.len(),
            model == emitted.deep_view(),
            path == source.deep_view(),
            expanded.deep_view() == with_emitted(model.take(i as int), start, path, pattern@, package_name@, export_key@),
        decreases emitted.len() - i,
    {
        proof {
            assert(model.take(i + 1).drop_last() =~= model.take(i as int));
            assert(model.take(i + 1).last() == emitted@[i as int].deep_view());
        }
        match single_wildcard_capture(pattern, &emitted[i].slashed()) {
            Some(capture) => {
                let subpath: String = trim_steps(&put_capture(export_key, &capture));
                let specifier: String = concat3(package_name, "/", &subpath);
                let shown: String = source.slashed();
                expanded.insert((specifier, shown));
            },
            None => {},
        }
        i = i + 1;
    }
    assert(model.take(i as int) =~= model);
}

/// The files of a package that a pattern of an export means, each with what it is imported
/// as.
pub open spec fn expanded_files(
    items: Seq<Seq<PathPartModel>>,
    root: Seq<PathPartModel>,
    pattern: Seq<char>,
    package_name: Seq<char>,
    export_key: Seq<char>,
    configurations: Seq<ProjectConfigurationModel>,
) -> Seq<(Seq<char>, Seq<char>)>
    decreases items.len(),
{
    if items.len() == 0 {
        Seq::empty()
    } else {
        let rest = expanded_files(
            items.drop_last(),
            root,
            pattern,
            package_name,
            export_key,
            configurations,
        );
        let last = items.last();
        if path_below(last, root) is Some {
            with_emitted(
                emitted_variants(last, configurations),
                rest,
                last,
                pattern,
                package_name,
                export_key,
            )
        } else {
            rest
        }
    }
}

/// The file that an export target names, without the step that it starts with.
pub open spec fn normalized_target(target: Seq<char>) -> Seq<char> {
    match without_prefix(target, "./"@) {
        Some(rest) => rest,
        None => target,
    }
}

/// A text of a path behind a directory, each character of it kept: the text alone where it is
/// absolute.
pub open spec fn text_behind(root: Seq<char>, text: Seq<char>) -> Seq<char> {
    if "/"@.is_prefix_of(text) || root == ""@ {
        text
    } else if "/"@.is_suffix_of(root) {
        root + text
    } else {
        root + "/"@ + text
    }
}

/// A text of a path behind a directory, each character of it kept.
fn put_behind(root: &str, text: &str) -> (r: String)
    ensures
        r@ == text_behind(root@, text@),
{
    if starts_with(text, "/") || same(root, "") {
        text.to_string()
    } else if ends_with(root, "/") {
        concat2(root, text)
    } else {
        concat3(root, "/", text)
    }
}

/// What the files of a package are held against for an export target with a star, with
/// forward slashes alone.
pub open spec fn target_pattern(root: Seq<PathPartModel>, target: Seq<char>) -> Seq<char> {
    with_char(text_behind(written(root), target), '\\', '/')
}

/// The modules that an export of a package means, each with its file: one where there is no
/// star, and all that fit where there is one on both sides.
pub open spec fn expanded_export(
    root: Seq<PathPartModel>,
    package_name: Seq<char>,
    export_key: Seq<char>,
    export_target: Seq<char>,
    configurations: Seq<ProjectConfigurationModel>,
    files: Seq<Seq<PathPartModel>>,
) -> Seq<(Seq<char>, Seq<char>)> {
    let target = normalized_target(export_target);
    if !export_key.contains('*') && !target.contains('*') {
        match source_of_entry(path_joined(root, parsed(target)), configurations, files) {
            Some(source) => seq![
                (subpath_specifier(package_name, export_key), slashed(source)),
            ],
            None => Seq::empty(),
        }
    } else if pieces(export_key, '*').len() != 2 || pieces(target, '*').len() != 2 {
        Seq::empty()
    } else {
        expanded_files(
            files,
            root,
            target_pattern(root, target),
            package_name,
            export_key,
            configurations,
        )
    }
}

/// The modules that an export of a package means, each with its file.
#[must_use]
pub fn expand_workspace_export(
    package: &WorkspacePackage,
    package_name: &str,
    export_key: &str,
    export_target: &str,
    project_configurations: &Vec<ProjectConfiguration>,
    file_set: &OrderedSet<FilePath>,
) -> (r: Vec<(String, String)>)
    ensures
        r.deep_view() == expanded_export(
            package.deep_view().root,
            package_name@,
            export_key@,
            export_target@,
            project_configurations.deep_view(),
            file_set.deep_view(),
        ),
{
    let target: String = match strip_prefix(export_target, "./") {
        Some(rest) => rest,
        None => export_target.to_string(),
    };
    let mut out: Vec<(String, String)> = Vec::new();
    assert(out.deep_view() =~= Seq::empty());
    if !contains_char(export_key, '*') && !contains_char(&target, '*') {
        let place: FilePath = package.root.join(&FilePath::parse(&target));
        match map_entry_to_source(&place, project_configurations, file_set) {
            Some(source) => {
                let specifier: String = concat3(package_name, "/", &trim_steps(export_key));
                push_item(&mut out, (specifier, source.slashed()));
                assert(out.deep_view() =~= expanded_export(
                    package.deep_view().root,
                    package_name@,
                    export_key@,
                    export_target@,
                    project_configurations.deep_view(),
                    file_set.deep_view(),
                ));
            },
            None => {},
        }
        return out;
    }
    let key_parts: Vec<String> = split(export_key, '*');
    let target_parts: Vec<String> = split(&target, '*');
    assert(key_parts.deep_view().len() == key_parts@.len());
    assert(target_parts.deep_view().len() == target_parts@.len());
    if key_parts.len() != 2 || target_parts.len() != 2 {
        return out;
    }
    let pattern: String = replace_char(&put_behind(&package.root.text(), &target), '\\', '/');
    let mut expanded: OrderedSet<(String, String)> = OrderedSet::new();
    let files: &Vec<FilePath> = file_set.items();
    let ghost root = package.deep_view().root;
    let ghost configurations = project_configurations.deep_view();
    let ghost model = files.deep_view();
    let mut i: usize = 0;
    while i < files.len()
        invariant
            i <= files.len(),
            model == files.deep_view(),
            root == package.deep_view().root,
            configurations == project_configurations.deep_view(),
            expanded.deep_view() == expanded_files(model.take(i as int), root, pattern@, package_name@, export_key@, configurations),
        decreases files.len() - i,
    {
        proof {
            assert(model.take(i + 1).drop_last() =~= model.take(i as int));
            assert(model.take(i + 1).last() == files@[i as int].deep_view());
        }
        if files[i].strip_prefix(&package.root).is_some() {
            let emitted: OrderedSet<FilePath> = emitted_source_variants(
                &files[i],
                project_configurations,
            );
            add_emitted(
                emitted.items(),
                &files[i],
                &pattern,
                package_name,
                export_key,
                &mut expanded,
            );
        }
        i = i + 1;
    }
    assert(model.take(i as int) =~= model);
    expanded.into_items()
}

/// Modules with the entries of a package.
pub open spec fn with_root_modules(
    items: Seq<PackageEntryRootModel>,
    start: Seq<(Seq<char>, WorkspaceModuleTargetModel)>,
    root: Seq<PathPartModel>,
    package_name: Seq<char>,
    profile: EntryTargetProfile,
    configurations: Seq<ProjectConfigurationModel>,
    files: Seq<Seq<PathPartModel>>,
) -> Seq<(Seq<char>, WorkspaceModuleTargetModel)>
    decreases items.len(),
{
    if items.len() == 0 {
        start
    } else {
        let rest = with_root_modules(
            items.drop_last(),
            start,
            root,
            package_name,
            profile,
            configurations,
            files,
        );
        let last = items.last();
        match source_of_entry(path_joined(root, last.path), configurations, files) {
            Some(source) => with_module_target(
                rest,
                package_name,
                package_name,
                profile,
                slashed(source),
            ),
            None => rest,
        }
    }
}

/// Modules with those that an export means.
pub open spec fn with_expanded(
    items: Seq<(Seq<char>, Seq<char>)>,
    start: Seq<(Seq<char>, WorkspaceModuleTargetModel)>,
    package_name: Seq<char>,
    profile: EntryTargetProfile,
) -> Seq<(Seq<char>, WorkspaceModuleTargetModel)>
    decreases items.len(),
{
    if items.len() == 0 {
        start
    } else {
        let rest = with_expanded(items.drop_last(), start, package_name, profile);
        let last = items.last();
        with_module_target(rest, package_name, last.0, profile, last.1)
    }
}

/// Modules with those that exports mean.
pub open spec fn with_export_modules(
    items: Seq<(Seq<char>, Seq<char>)>,
    start: Seq<(Seq<char>, WorkspaceModuleTargetModel)>,
    root: Seq<PathPartModel>,
    package_name: Seq<char>,
    profile: EntryTargetProfile,
    configurations: Seq<ProjectConfigurationModel>,
    files: Seq<Seq<PathPartModel>>,
) -> Seq<(Seq<char>, WorkspaceModuleTargetModel)>
    decreases items.len(),
{
    if items.len() == 0 {
        start
    } else {
        let rest = with_export_modules(
            items.drop_last(),
            start,
            root,
            package_name,
            profile,
            configurations,
            files,
        );
        let last = items.last();
        with_expanded(
            expanded_export(root, package_name, last.0, last.1, configurations, files),
            rest,
            package_name,
            profile,
        )
    }
}

/// Modules with those of a package for everyone.
pub open spec fn with_profile_modules(
    items: Seq<EntryTargetProfile>,
    start: Seq<(Seq<char>, WorkspaceModuleTargetModel)>,
    package: WorkspacePackageModel,
    package_name: Seq<char>,
    conditions: Seq<Seq<char>>,
    configurations: Seq<ProjectConfigurationModel>,
    files: Seq<Seq<PathPartModel>>,
) -> Seq<(Seq<char>, WorkspaceModuleTargetModel)>
    decreases items.len(),
{
    if items.len() == 0 {
        start
    } else {
        let rest = with_profile_modules(
            items.drop_last(),
            start,
            package,
            package_name,
            conditions,
            configurations,
            files,
        );
        let last = items.last();
        with_export_modules(
            subpath_exports(package.manifest, last, conditions),
            with_root_modules(
                roots_for(package, last),
                rest,
                package.root,
                package_name,
                last,
                configurations,
                files,
            ),
            package.root,
            package_name,
            last,
            configurations,
            files,
        )
    }
}

fn add_root_modules(
    roots: &Vec<PackageEntryRoot>,
    root: &FilePath,
    package_name: &str,
    profile: EntryTargetProfile,
    project_configurations: &Vec<ProjectConfiguration>,
    file_set: &OrderedSet<FilePath>,
    targets: &mut OrderedMap<String, WorkspaceModuleTarget>,
)
    ensures
        final(targets).deep_view() == with_root_modules(
            roots.deep_view(),
            old(targets).deep_view(),
            root.deep_view(),
            package_name@,
            profile,
            project_configurations.deep_view(),
            file_set.deep_view(),
        ),
{
    let ghost start = targets.deep_view();
    let ghost configurations = project_configurations.deep_view();
    let ghost files = file_set.deep_view();
    let ghost at = root.deep_view();
    let ghost model = roots.deep_view();
    let mut i: usize = 0;
    while i < roots.len()
        invariant
            i <= roots.len(),
            model == roots.deep_view(),
            configurations == project_configurations.deep_view(),
            files == file_set.deep_view(),
            at == root.deep_view(),
            targets.deep_view() == with_root_modules(model.take(i as int), start, at, package_name@, profile, configurations, files),
        decreases roots.len() - i,
    {
        proof {
            assert(model.take(i + 1).drop_last() =~= model.take(i as int));
            assert(model.take(i + 1).last() == roots@[i as int].deep_view());
        }
        match map_entry_to_source(&root.join(&roots[i].path), project_configurations, file_set) {
            Some(source) => {
                let shown: String = source.slashed();
                add_workspace_module_target(targets, package_name, package_name, profile, shown);
            },
            None => {},
        }
        i = i + 1;
    }
    assert(model.take(i as int) =~= model);
}

fn add_expanded(
    expanded: &Vec<(String, String)>,
    package_name: &str,
    profile: EntryTargetProfile,
    targets: &mut OrderedMap<String, WorkspaceModuleTarget>,
)
    ensures
        final(targets).deep_view() == with_expanded(
            expanded.deep_view(),
            old(targets).deep_view(),
            package_name@,
            profile,
        ),
{
    let ghost start = targets.deep_view();
    let ghost model = expanded.deep_view();
    let mut i: usize = 0;
    while i < expanded.len()
        invariant
            i <= expanded.len(),
            model == expanded.deep_view(),
            targets.deep_view() == with_expanded(model.take(i as int), start, package_name@, profile),
        decreases expanded.len() - i,
    {
        proof {
            assert(model.take(i + 1).drop_last() =~= model.take(i as int));
            assert(model.take(i + 1).last() == expanded@[i as int].deep_view());
        }
        add_workspace_module_target(
            targets,
            package_name,
            &expanded[i].0,
            profile,
            expanded[i].1.replicate(),
        );
        i = i + 1;
    }
    assert(model.take(i as int) =~= model);
}

fn add_export_modules(
    exports: &Vec<(String, String)>,
    package: &WorkspacePackage,
    package_name: &str,
    profile: EntryTargetProfile,
    project_configurations: &Vec<ProjectConfiguration>,
    file_set: &OrderedSet<FilePath>,
    targets: &mut OrderedMap<String, WorkspaceModuleTarget>,
)
    ensures
        final(targets).deep_view() == with_export_modules(
            exports.deep_view(),
            old(targets).deep_view(),
            package.deep_view().root,
            package_name@,
            profile,
            project_configurations.deep_view(),
            file_set.deep_view(),
        ),
{
    let ghost start = targets.deep_view();
    let ghost configurations = project_configurations.deep_view();
    let ghost files = file_set.deep_view();
    let ghost at = package.deep_view().root;
    let ghost model = exports.deep_view();
    let mut i: usize = 0;
    while i < exports.len()
        invariant
            i <= exports.len(),
            model == exports.deep_view(),
            configurations == project_configurations.deep_view(),
            files == file_set.deep_view(),
            at == package.deep_view().root,
            targets.deep_view() == with_export_modules(model.take(i as int), start, at, package_name@, profile, configurations, files),
        decreases exports.len() - i,
    {
        proof {
            assert(model.take(i + 1).drop_last() =~= model.take(i as int));
            assert(model.take(i + 1).last() == exports@[i as int].deep_view());
        }
        let expanded: Vec<(String, String)> = expand_workspace_export(
            package,
            package_name,
            &exports[i].0,
            &exports[i].1,
            project_configurations,
            file_set,
        );
        add_expanded(&expanded, package_name, profile, targets);
        i = i + 1;
    }
    assert(model.take(i as int) =~= model);
}

fn add_profile_modules(
    wanted: &Vec<EntryTargetProfile>,
    package: &WorkspacePackage,
    package_name: &str,
    conditions: &OrderedSet<String>,
    project_configurations: &Vec<ProjectConfiguration>,
    file_set: &OrderedSet<FilePath>,
    targets: &mut OrderedMap<String, WorkspaceModuleTarget>,
)
    ensures
        final(targets).deep_view() == with_profile_modules(
            wanted@,
            old(targets).deep_view(),
            package.deep_view(),
            package_name@,
            conditions.deep_view(),
            project_configurations.deep_view(),
            file_set.deep_view(),
        ),
{
    let ghost start = targets.deep_view();
    let ghost configurations = project_configurations.deep_view();
    let ghost files = file_set.deep_view();
    let ghost given = package.deep_view();
    let ghost known = conditions.deep_view();
    assert(wanted.deep_view() =~= wanted@);
    let ghost model = wanted.deep_view();
    let mut i: usize = 0;
    while i < wanted.len()
        invariant
            i <= wanted.len(),
            model == wanted.deep_view(),
            configurations == project_configurations.deep_view(),
            files == file_set.deep_view(),
            given == package.deep_view(),
            known == conditions.deep_view(),
            targets.deep_view() == with_profile_modules(model.take(i as int), start, given, package_name@, known, configurations, files),
        decreases wanted.len() - i,
    {
        proof {
            assert(model.take(i + 1).drop_last() =~= model.take(i as int));
            assert(model.take(i + 1).last() == wanted@[i as int].deep_view());
        }
        let ghost before = targets.deep_view();
        match package.manifest.entry_roots.get(&wanted[i]) {
            Some(roots) => {
                add_root_modules(
                    roots,
                    &package.root,
                    package_name,
                    wanted[i],
                    project_configurations,
                    file_set,
                    targets,
                );
            },
            None => {
                assert(with_root_modules(
                    Seq::<PackageEntryRootModel>::empty(),
                    before,
                    given.root,
                    package_name@,
                    wanted@[i as int],
                    configurations,
                    files,
                ) == before);
            },
        }
        let exports: Vec<(String, String)> = package_subpath_exports(
            &package.manifest,
            wanted[i],
            conditions,
        );
        add_export_modules(
            &exports,
            package,
            package_name,
            wanted[i],
            project_configurations,
            file_set,
            targets,
        );
        i = i + 1;
    }
    assert(model.take(i as int) =~= model);
}

/// The target profiles that are configured for a package.
pub open spec fn configured_targets(
    package: WorkspacePackageModel,
    contexts: Seq<PackageContextModel>,
) -> Seq<(Seq<char>, TargetConfigurationModel)> {
    match context_of_root(contexts, package.root) {
        Some(place) => contexts[place as int].effective.targets,
        None => Seq::empty(),
    }
}

/// Modules with those of a package in a target profile, or why that profile cannot be
/// resolved. A package with a name is a module even where it leads nowhere.
pub open spec fn with_package_modules(
    start: Seq<(Seq<char>, WorkspaceModuleTargetModel)>,
    package: WorkspacePackageModel,
    contexts: Seq<PackageContextModel>,
    configurations: Seq<ProjectConfigurationModel>,
    files: Seq<Seq<PathPartModel>>,
    profile: Seq<char>,
) -> Result<Seq<(Seq<char>, WorkspaceModuleTargetModel)>, ProjectScanErrorModel> {
    match package.manifest.name {
        None => Ok(start),
        Some(name) => {
            let targets = configured_targets(package, contexts);
            match (
                conditions_for(seq![profile], targets),
                manifest_profiles_for(seq![profile], targets),
            ) {
                (Ok(conditions), Ok(wanted)) => {
                    let after = with_profile_modules(
                        wanted,
                        start,
                        package,
                        name,
                        conditions,
                        configurations,
                        files,
                    );
                    Ok(
                        match lookup(after, name) {
                            Some(_) => after,
                            None => with_entry::<String, WorkspaceModuleTargetModel>(
                                after,
                                name,
                                empty_target(name, name),
                            ),
                        },
                    )
                },
                (Err(error), _) => Err(error),
                (_, Err(error)) => Err(error),
            }
        },
    }
}

fn add_package_modules(
    package: &WorkspacePackage,
    contexts: &Vec<PackageContext>,
    project_configurations: &Vec<ProjectConfiguration>,
    file_set: &OrderedSet<FilePath>,
    profile: &str,
    targets: &mut OrderedMap<String, WorkspaceModuleTarget>,
) -> (r: Result<(), ProjectScanError>)
    ensures
        ({
            let after = with_package_modules(
                old(targets).deep_view(),
                package.deep_view(),
                contexts.deep_view(),
                project_configurations.deep_view(),
                file_set.deep_view(),
                profile@,
            );
            match r {
                Ok(_) => after == Ok::<
                    Seq<(Seq<char>, WorkspaceModuleTargetModel)>,
                    ProjectScanErrorModel,
                >(final(targets).deep_view()),
                Err(error) => after == Err::<
                    Seq<(Seq<char>, WorkspaceModuleTargetModel)>,
                    ProjectScanErrorModel,
                >(error.deep_view()),
            }
        }),
{
    let name: &String = match &package.manifest.name {
        Some(name) => name,
        None => {
            return Ok(());
        },
    };
    let none: OrderedMap<String, TargetConfiguration> = OrderedMap::new();
    let configured: &OrderedMap<String, TargetConfiguration> = match find_context(
        contexts,
        &package.root,
    ) {
        Some(place) => {
            assert(contexts.deep_view()[place as int] == contexts@[place as int].deep_view());
            &contexts[place].effective.targets
        },
        None => &none,
    };
    assert(configured.deep_view() == configured_targets(
        package.deep_view(),
        contexts.deep_view(),
    ));
    let selected: Vec<String> = one_text(profile);
    let conditions: OrderedSet<String> = match resolve_conditions_for_targets(
        &selected,
        configured,
    ) {
        Ok(conditions) => conditions,
        Err(error) => {
            return Err(error);
        },
    };
    let wanted: Vec<EntryTargetProfile> = match manifest_profiles(&selected, configured) {
        Ok(wanted) => wanted,
        Err(error) => {
            return Err(error);
        },
    };
    add_profile_modules(
        &wanted,
        package,
        name,
        &conditions,
        project_configurations,
        file_set,
        targets,
    );
    if !targets.contains_key(name) {
        targets.insert(
            name.replicate(),
            WorkspaceModuleTarget {
                package: name.replicate(),
                specifier: name.replicate(),
                esm: no_texts(),
                common_js: no_texts(),
            },
        );
    }
    Ok(())
}

/// The modules of packages in a target profile, or why that cannot be resolved.
pub open spec fn gathered_modules(
    items: Seq<WorkspacePackageModel>,
    contexts: Seq<PackageContextModel>,
    configurations: Seq<ProjectConfigurationModel>,
    files: Seq<Seq<PathPartModel>>,
    profile: Seq<char>,
) -> Result<Seq<(Seq<char>, WorkspaceModuleTargetModel)>, ProjectScanErrorModel>
    decreases items.len(),
{
    if items.len() == 0 {
        Ok(Seq::empty())
    } else {
        let rest = gathered_modules(items.drop_last(), contexts, configurations, files, profile);
        let last = items.last();
        match rest {
            Ok(targets) => with_package_modules(
                targets,
                last,
                contexts,
                configurations,
                files,
                profile,
            ),
            Err(error) => Err(error),
        }
    }
}

proof fn gathered_modules_fail_early(
    packages: Seq<WorkspacePackageModel>,
    contexts: Seq<PackageContextModel>,
    configurations: Seq<ProjectConfigurationModel>,
    files: Seq<Seq<PathPartModel>>,
    profile: Seq<char>,
    n: int,
)
    requires
        0 <= n <= packages.len(),
        gathered_modules(packages.take(n), contexts, configurations, files, profile) is Err,
    ensures
        gathered_modules(packages, contexts, configurations, files, profile) == gathered_modules(
            packages.take(n),
            contexts,
            configurations,
            files,
            profile,
        ),
    decreases packages.len() - n,
{
    if n < packages.len() {
        assert(packages.take(n + 1).drop_last() =~= packages.take(n));
        gathered_modules_fail_early(packages, contexts, configurations, files, profile, n + 1);
    } else {
        assert(packages.take(n) =~= packages);
    }
}

/// A module without files that it names twice.
pub open spec fn tidy_target(target: WorkspaceModuleTargetModel) -> WorkspaceModuleTargetModel {
    WorkspaceModuleTargetModel {
        esm: first_occurrences(target.esm),
        common_js: first_occurrences(target.common_js),
        ..target
    }
}

fn tidy(target: &WorkspaceModuleTarget) -> (r: WorkspaceModuleTarget)
    ensures
        r.deep_view() == tidy_target(target.deep_view()),
{
    let mut tidied: WorkspaceModuleTarget = target.replicate();
    deduplicate_preserving_order(&mut tidied.esm);
    deduplicate_preserving_order(&mut tidied.common_js);
    tidied
}

/// Modules without files that they name twice.
pub open spec fn tidy_targets(
    items: Seq<(Seq<char>, WorkspaceModuleTargetModel)>,
) -> Seq<WorkspaceModuleTargetModel> {
    items.map_values(|item: (Seq<char>, WorkspaceModuleTargetModel)| tidy_target(item.1))
}

fn tidy_all(items: &Vec<(String, WorkspaceModuleTarget)>) -> (r: Vec<WorkspaceModuleTarget>)
    ensures
        r.deep_view() == tidy_targets(items.deep_view()),
{
    let mut out: Vec<WorkspaceModuleTarget> = Vec::new();
    let ghost model = items.deep_view();
    let mut i: usize = 0;
    while i < items.len()
        invariant
            i <= items.len(),
            model == items.deep_view(),
            out.deep_view() =~= tidy_targets(model.take(i as int)),
        decreases items.len() - i,
    {
        proof {
            assert(model.take(i + 1).drop_last() =~= model.take(i as int));
            assert(model.take(i + 1).last() == items@[i as int].deep_view());
        }
        assert(model.take(i + 1) =~= model.take(i as int).push(items@[i as int].deep_view()));
        let item: &(String, WorkspaceModuleTarget) = &items[i];
        push_item(&mut out, tidy(&item.1));
        i = i + 1;
    }
    assert(model.take(i as int) =~= model);
    out
}

/// The modules that the packages of a project are to each other in a target profile, or why
/// that profile cannot be resolved.
pub open spec fn module_targets(
    packages: Seq<WorkspacePackageModel>,
    contexts: Seq<PackageContextModel>,
    configurations: Seq<ProjectConfigurationModel>,
    files: Seq<Seq<PathPartModel>>,
    profile: Seq<char>,
) -> Result<Seq<WorkspaceModuleTargetModel>, ProjectScanErrorModel> {
    match gathered_modules(packages, contexts, configurations, files, profile) {
        Ok(targets) => Ok(tidy_targets(targets)),
        Err(error) => Err(error),
    }
}

/// The modules that the packages of a project are to each other in a target profile.
pub fn workspace_module_targets(
    workspace: &WorkspaceDiscovery,
    contexts: &Vec<PackageContext>,
    project_configurations: &Vec<ProjectConfiguration>,
    file_set: &OrderedSet<FilePath>,
    profile: &str,
) -> (r: Result<Vec<WorkspaceModuleTarget>, ProjectScanError>)
    ensures
        ({
            let all = module_targets(
                workspace.deep_view().packages,
                contexts.deep_view(),
                project_configurations.deep_view(),
                file_set.deep_view(),
                profile@,
            );
            match r {
                Ok(targets) => all == Ok::<
                    Seq<WorkspaceModuleTargetModel>,
                    ProjectScanErrorModel,
                >(targets.deep_view()),
                Err(error) => all == Err::<
                    Seq<WorkspaceModuleTargetModel>,
                    ProjectScanErrorModel,
                >(error.deep_view()),
            }
        }),
{
    let mut targets: OrderedMap<String, WorkspaceModuleTarget> = OrderedMap::new();
    let packages: &Vec<WorkspacePackage> = &workspace.packages;
    let ghost known = contexts.deep_view();
    let ghost configurations = project_configurations.deep_view();
    let ghost files = file_set.deep_view();
    let ghost model = packages.deep_view();
    let mut i: usize = 0;
    while i < packages.len()
        invariant
            i <= packages.len(),
            model == packages.deep_view(),
            model == workspace.deep_view().packages,
            known == contexts.deep_view(),
            configurations == project_configurations.deep_view(),
            files == file_set.deep_view(),
            gathered_modules(model.take(i as int), known, configurations, files, profile@) == Ok::<Seq<(Seq<char>, WorkspaceModuleTargetModel)>, ProjectScanErrorModel>(targets.deep_view()),
        decreases packages.len() - i,
    {
        proof {
            assert(model.take(i + 1).drop_last() =~= model.take(i as int));
            assert(model.take(i + 1).last() == packages@[i as int].deep_view());
        }
        match add_package_modules(
            &packages[i],
            contexts,
            project_configurations,
            file_set,
            profile,
            &mut targets,
        ) {
            Ok(_) => {},
            Err(error) => {
                proof {
                    gathered_modules_fail_early(
                        model,
                        known,
                        configurations,
                        files,
                        profile@,
                        i + 1,
                    );
                }
                return Err(error);
            },
        }
        i = i + 1;
    }
    assert(model.take(i as int) =~= model);
    assert(targets.entries().deep_view() =~= targets.deep_view());
    Ok(tidy_all(targets.entries()))
}

} // verus!
