//! Where the analysis of a project starts.

use crate::application::errors::{ProjectScanError, ProjectScanErrorModel};
use crate::application::patterns::{hits_among, matches_among};
use crate::application::targets::{manifest_profiles, manifest_profiles_for, plugins_in};
use crate::collections::{collected, lookup, with_item, OrderedSet};
use crate::discovery::segments::{ScriptReference, ScriptReferenceKind, ScriptReferenceModel};
use crate::discovery::workspace::{
    EntryTargetProfile, PackageContext, PackageContextModel, PackageEntryRoot,
    PackageEntryRootModel, ProjectConfiguration, ProjectConfigurationModel, WorkspacePackage,
    WorkspacePackageModel,
};
use crate::domain::facts::{AnalysisDiagnostic, AnalysisDiagnosticModel, DiagnosticSeverity};
use crate::paths::{
    extension_of, file_name, names_of, parsed, path_below, path_joined, slashed, with_extension_of,
    FilePath, PathPartModel,
};
use crate::plugins::contract::{
    DetectedBuiltinPlugin, DetectedBuiltinPluginModel, PatternContribution,
    PatternContributionModel,
};
use crate::text::{concat2, concat3, contains, occurs, same, starts_with};
use crate::values::{push_item, Ordered, Value};
use vstd::prelude::*;

verus! {

/// The extensions of the sources that a file with an extension can stand for.
pub open spec fn source_extensions(extension: Option<Seq<char>>) -> Seq<Seq<char>> {
    match extension {
        Some(text) => if text == "js"@ {
            seq!["ts"@, "tsx"@, "js"@, "jsx"@]
        } else if text == "mjs"@ {
            seq!["mts"@, "mjs"@]
        } else if text == "cjs"@ {
            seq!["cts"@, "cjs"@]
        } else {
            Seq::empty()
        },
        None => seq!["ts"@, "tsx"@, "mts"@, "cts"@, "js"@, "jsx"@, "mjs"@, "cjs"@],
    }
}

fn add_texts(out: &mut Vec<String>, first: &str, second: &str)
    ensures
        final(out).deep_view() == old(out).deep_view() + seq![first@, second@],
{
    let ghost front = out.deep_view();
    push_item(out, first.to_string());
    push_item(out, second.to_string());
    assert(out.deep_view() =~= front + seq![first@, second@]);
}

fn list_source_extensions(extension: &Option<String>) -> (r: Vec<String>)
    ensures
        r.deep_view() == source_extensions(extension.deep_view()),
{
    let mut out: Vec<String> = Vec::new();
    match extension {
        Some(text) => {
            if same(text, "js") {
                add_texts(&mut out, "ts", "tsx");
                add_texts(&mut out, "js", "jsx");
            } else if same(text, "mjs") {
                add_texts(&mut out, "mts", "mjs");
            } else if same(text, "cjs") {
                add_texts(&mut out, "cts", "cjs");
            }
        },
        None => {
            add_texts(&mut out, "ts", "tsx");
            add_texts(&mut out, "mts", "cts");
            add_texts(&mut out, "js", "jsx");
            add_texts(&mut out, "mjs", "cjs");
        },
    }
    assert(out.deep_view() =~= source_extensions(extension.deep_view()));
    out
}

/// The sources that a path can stand for, in order.
pub open spec fn variants_of(path: Seq<PathPartModel>) -> Seq<Seq<PathPartModel>> {
    collected::<FilePath>(
        seq![names_of(path)] + source_extensions(extension_of(path)).map_values(
            |extension: Seq<char>| with_extension_of(path, extension),
        ),
    )
}

/// The sources that a path can stand for, in order.
#[must_use]
pub fn source_variants(path: &FilePath) -> (r: Vec<FilePath>)
    ensures
        r.deep_view() == variants_of(path.deep_view()),
{
    let ghost whole = path.deep_view();
    let extensions: Vec<String> = list_source_extensions(&path.extension());
    let mut all: Vec<FilePath> = Vec::new();
    push_item(&mut all, path.names());
    let ghost model = extensions.deep_view();
    let mut i: usize = 0;
    while i < extensions.len()
        invariant
            i <= extensions.len(),
            model == extensions.deep_view(),
            whole == path.deep_view(),
            all.deep_view() =~= seq![names_of(whole)] + model.take(i as int).map_values(|extension: Seq<char>| with_extension_of(whole, extension)),
        decreases extensions.len() - i,
    {
        proof {
            assert(model.take(i + 1).drop_last() =~= model.take(i as int));
            assert(model.take(i + 1).last() == extensions@[i as int].deep_view());
        }
        assert(model.take(i + 1) =~= model.take(i as int).push(extensions@[i as int]@));
        push_item(&mut all, path.with_extension(&extensions[i]));
        i = i + 1;
    }
    assert(model.take(i as int) =~= model);
    let unique: OrderedSet<FilePath> = OrderedSet::from_items(all);
    unique.into_items()
}

/// The first of some paths that is a file of the project.
pub open spec fn first_known(
    items: Seq<Seq<PathPartModel>>,
    files: Seq<Seq<PathPartModel>>,
) -> Option<Seq<PathPartModel>>
    decreases items.len(),
{
    if items.len() == 0 {
        None
    } else {
        let rest = first_known(items.drop_last(), files);
        let last = items.last();
        if rest is Some {
            rest
        } else if files.contains(last) {
            Some(last)
        } else {
            None
        }
    }
}

fn find_first_known(paths: &Vec<FilePath>, files: &OrderedSet<FilePath>) -> (r: Option<FilePath>)
    ensures
        r.deep_view() == first_known(paths.deep_view(), files.deep_view()),
{
    let ghost known = files.deep_view();
    let mut found: Option<FilePath> = None;
    let ghost model = paths.deep_view();
    let mut i: usize = 0;
    while i < paths.len()
        invariant
            i <= paths.len(),
            model == paths.deep_view(),
            known == files.deep_view(),
            found.deep_view() == first_known(model.take(i as int), known),
        decreases paths.len() - i,
    {
        proof {
            assert(model.take(i + 1).drop_last() =~= model.take(i as int));
            assert(model.take(i + 1).last() == paths@[i as int].deep_view());
        }
        let missing: bool = found.is_none();
        if missing && files.contains(&paths[i]) {
            found = Some(paths[i].replicate());
        }
        i = i + 1;
    }
    assert(model.take(i as int) =~= model);
    found
}

/// The source that a compiler configuration emits to a path.
pub open spec fn source_by_configuration(
    path: Seq<PathPartModel>,
    configuration: ProjectConfigurationModel,
    files: Seq<Seq<PathPartModel>>,
) -> Option<Seq<PathPartModel>> {
    match (configuration.out_dir, configuration.root_dir) {
        (Some(out_dir), Some(root_dir)) => match path_below(path, out_dir) {
            Some(below) => first_known(variants_of(path_joined(root_dir, below)), files),
            None => None,
        },
        _ => None,
    }
}

/// The source that the first compiler configuration emits to a path.
pub open spec fn source_by_configurations(
    items: Seq<ProjectConfigurationModel>,
    path: Seq<PathPartModel>,
    files: Seq<Seq<PathPartModel>>,
) -> Option<Seq<PathPartModel>>
    decreases items.len(),
{
    if items.len() == 0 {
        None
    } else {
        let rest = source_by_configurations(items.drop_last(), path, files);
        let last = items.last();
        if rest is Some { rest } else { source_by_configuration(path, last, files) }
    }
}

/// The source file that an entry stands for: one of its variants, else one that is
/// emitted to it.
pub open spec fn source_of_entry(
    path: Seq<PathPartModel>,
    configurations: Seq<ProjectConfigurationModel>,
    files: Seq<Seq<PathPartModel>>,
) -> Option<Seq<PathPartModel>> {
    if first_known(variants_of(path), files) is Some {
        first_known(variants_of(path), files)
    } else {
        source_by_configurations(configurations, path, files)
    }
}

/// The source file that an entry stands for.
#[must_use]
pub fn map_entry_to_source(
    candidate: &FilePath,
    project_configurations: &Vec<ProjectConfiguration>,
    file_set: &OrderedSet<FilePath>,
) -> (r: Option<FilePath>)
    ensures
        r.deep_view() == source_of_entry(
            candidate.deep_view(),
            project_configurations.deep_view(),
            file_set.deep_view(),
        ),
{
    let direct: Option<FilePath> = find_first_known(&source_variants(candidate), file_set);
    if direct.is_some() {
        return direct;
    }
    let ghost path = candidate.deep_view();
    let ghost known = file_set.deep_view();
    let mut found: Option<FilePath> = None;
    let ghost model = project_configurations.deep_view();
    let mut i: usize = 0;
    while i < project_configurations.len()
        invariant
            i <= project_configurations.len(),
            model == project_configurations.deep_view(),
            path == candidate.deep_view(),
            known == file_set.deep_view(),
            found.deep_view() == source_by_configurations(model.take(i as int), path, known),
        decreases project_configurations.len() - i,
    {
        proof {
            assert(model.take(i + 1).drop_last() =~= model.take(i as int));
            assert(model.take(i + 1).last() == project_configurations@[i as int].deep_view());
        }
        let missing: bool = found.is_none();
        if missing {
            match (&project_configurations[i].out_dir, &project_configurations[i].root_dir) {
                (Some(out_dir), Some(root_dir)) => {
                    match candidate.strip_prefix(out_dir) {
                        Some(below) => {
                            found = find_first_known(
                                &source_variants(&root_dir.join(&below)),
                                file_set,
                            );
                        },
                        None => {},
                    }
                },
                _ => {},
            }
        }
        i = i + 1;
    }
    assert(model.take(i as int) =~= model);
    found
}

/// Entries that were found, and what is to be said of those that were not.
#[verifier::ext_equal]
pub struct EntriesModel {
    pub entries: Seq<Seq<PathPartModel>>,
    pub diagnostics: Seq<AnalysisDiagnosticModel>,
}

/// That an entry names no source file.
pub open spec fn entry_not_found(
    path: Seq<PathPartModel>,
    evidence: Seq<char>,
) -> AnalysisDiagnosticModel {
    AnalysisDiagnosticModel {
        code: "entry_source_not_found"@,
        path: slashed(names_of(path)),
        severity: DiagnosticSeverity::Warning,
        span: None,
        message: evidence + " does not map to a discovered source file"@,
        blocks_reachability: false,
    }
}

/// Entries with one more.
pub open spec fn with_candidate(
    rest: EntriesModel,
    path: Seq<PathPartModel>,
    evidence: Seq<char>,
    configurations: Seq<ProjectConfigurationModel>,
    files: Seq<Seq<PathPartModel>>,
) -> EntriesModel {
    match source_of_entry(path, configurations, files) {
        Some(source) => EntriesModel {
            entries: with_item::<FilePath>(rest.entries, source),
            ..rest
        },
        None => EntriesModel {
            diagnostics: rest.diagnostics.push(entry_not_found(path, evidence)),
            ..rest
        },
    }
}

/// Adds an entry, or says that it names no source file.
pub fn add_entry_candidate(
    candidate: &FilePath,
    evidence: &str,
    project_configurations: &Vec<ProjectConfiguration>,
    file_set: &OrderedSet<FilePath>,
    entries: &mut OrderedSet<FilePath>,
    diagnostics: &mut Vec<AnalysisDiagnostic>,
)
    ensures
        ({
            let after = with_candidate(
                EntriesModel {
                    entries: old(entries).deep_view(),
                    diagnostics: old(diagnostics).deep_view(),
                },
                candidate.deep_view(),
                evidence@,
                project_configurations.deep_view(),
                file_set.deep_view(),
            );
            &&& final(entries).deep_view() == after.entries
            &&& final(diagnostics).deep_view() == after.diagnostics
        }),
{
    match map_entry_to_source(candidate, project_configurations, file_set) {
        Some(source) => {
            entries.insert(source);
        },
        None => {
            push_item(
                diagnostics,
                AnalysisDiagnostic {
                    code: "entry_source_not_found".to_string(),
                    path: candidate.names().slashed(),
                    severity: DiagnosticSeverity::Warning,
                    span: None,
                    message: concat2(evidence, " does not map to a discovered source file"),
                    blocks_reachability: false,
                },
            );
        },
    }
}

/// Entries with those that are configured.
pub open spec fn with_configured(
    items: Seq<Seq<PathPartModel>>,
    start: EntriesModel,
    root: Seq<PathPartModel>,
    configurations: Seq<ProjectConfigurationModel>,
    files: Seq<Seq<PathPartModel>>,
) -> EntriesModel
    decreases items.len(),
{
    if items.len() == 0 {
        start
    } else {
        let rest = with_configured(items.drop_last(), start, root, configurations, files);
        let last = items.last();
        with_candidate(
            rest,
            path_joined(root, last),
            "static Orphanode configuration"@,
            configurations,
            files,
        )
    }
}

/// Entries with those that a manifest declares for someone.
pub open spec fn with_roots(
    items: Seq<PackageEntryRootModel>,
    start: EntriesModel,
    root: Seq<PathPartModel>,
    configurations: Seq<ProjectConfigurationModel>,
    files: Seq<Seq<PathPartModel>>,
) -> EntriesModel
    decreases items.len(),
{
    if items.len() == 0 {
        start
    } else {
        let rest = with_roots(items.drop_last(), start, root, configurations, files);
        let last = items.last();
        with_candidate(
            rest,
            path_joined(root, last.path),
            "package.json "@ + last.field + " entry"@,
            configurations,
            files,
        )
    }
}

/// The entries that a manifest declares for someone.
pub open spec fn roots_for(
    package: WorkspacePackageModel,
    profile: EntryTargetProfile,
) -> Seq<PackageEntryRootModel> {
    match lookup(package.manifest.entry_roots, profile) {
        Some(roots) => roots,
        None => Seq::empty(),
    }
}

/// Entries with those that a manifest declares.
pub open spec fn with_manifest(
    items: Seq<EntryTargetProfile>,
    start: EntriesModel,
    package: WorkspacePackageModel,
    configurations: Seq<ProjectConfigurationModel>,
    files: Seq<Seq<PathPartModel>>,
) -> EntriesModel
    decreases items.len(),
{
    if items.len() == 0 {
        start
    } else {
        let rest = with_manifest(items.drop_last(), start, package, configurations, files);
        let last = items.last();
        with_roots(roots_for(package, last), rest, package.root, configurations, files)
    }
}

/// Entries with the files that scripts run.
pub open spec fn with_scripts(
    items: Seq<ScriptReferenceModel>,
    start: EntriesModel,
    root: Seq<PathPartModel>,
    configurations: Seq<ProjectConfigurationModel>,
    files: Seq<Seq<PathPartModel>>,
) -> EntriesModel
    decreases items.len(),
{
    if items.len() == 0 {
        start
    } else {
        let rest = with_scripts(items.drop_last(), start, root, configurations, files);
        let last = items.last();
        if last.kind == ScriptReferenceKind::File {
            with_candidate(
                rest,
                path_joined(root, names_of(parsed(last.value))),
                "package script `"@ + last.script + "`"@,
                configurations,
                files,
            )
        } else {
            rest
        }
    }
}

/// The files below a directory.
pub open spec fn below(
    items: Seq<Seq<PathPartModel>>,
    root: Seq<PathPartModel>,
) -> Seq<Seq<PathPartModel>>
    decreases items.len(),
{
    if items.len() == 0 {
        Seq::empty()
    } else {
        let rest = below(items.drop_last(), root);
        let last = items.last();
        if path_below(last, root) is Some { rest.push(last) } else { rest }
    }
}

/// The files below a directory, as seen from there.
pub open spec fn relative_below(
    items: Seq<Seq<PathPartModel>>,
    root: Seq<PathPartModel>,
) -> Seq<Seq<PathPartModel>>
    decreases items.len(),
{
    if items.len() == 0 {
        Seq::empty()
    } else {
        let rest = relative_below(items.drop_last(), root);
        let last = items.last();
        match path_below(last, root) {
            Some(relative) => rest.push(relative),
            None => rest,
        }
    }
}

/// Entries with the marked ones of some files.
pub open spec fn with_marked(
    items: Seq<Seq<PathPartModel>>,
    start: Seq<Seq<PathPartModel>>,
    marks: Seq<bool>,
) -> Seq<Seq<PathPartModel>>
    decreases items.len(),
{
    if items.len() == 0 {
        start
    } else {
        let rest = with_marked(items.drop_last(), start, marks);
        let last = items.last();
        if marks[items.len() - 1] { with_item::<FilePath>(rest, last) } else { rest }
    }
}

/// Adds the marked ones of some files to entries.
pub fn add_marked(files: &Vec<FilePath>, marks: &Vec<bool>, entries: &mut OrderedSet<FilePath>)
    requires
        marks@.len() == files@.len(),
    ensures
        final(entries).deep_view() == with_marked(
            files.deep_view(),
            old(entries).deep_view(),
            marks@,
        ),
{
    let ghost start = entries.deep_view();
    let ghost model = files.deep_view();
    let mut i: usize = 0;
    while i < files.len()
        invariant
            i <= files.len(),
            model == files.deep_view(),
            marks@.len() == files@.len(),
            entries.deep_view() == with_marked(model.take(i as int), start, marks@),
        decreases files.len() - i,
    {
        proof {
            assert(model.take(i + 1).drop_last() =~= model.take(i as int));
            assert(model.take(i + 1).last() == files@[i as int].deep_view());
        }
        if marks[i] {
            entries.insert(files[i].replicate());
        }
        i = i + 1;
    }
    assert(model.take(i as int) =~= model);
}

/// The files below a directory, and as seen from there.
#[must_use]
pub fn files_below(files: &Vec<FilePath>, root: &FilePath) -> (r: (Vec<FilePath>, Vec<FilePath>))
    ensures
        r.0.deep_view() == below(files.deep_view(), root.deep_view()),
        r.1.deep_view() == relative_below(files.deep_view(), root.deep_view()),
        r.0@.len() == r.1@.len(),
{
    let ghost base = root.deep_view();
    let mut paths: Vec<FilePath> = Vec::new();
    let mut relatives: Vec<FilePath> = Vec::new();
    let ghost model = files.deep_view();
    let mut i: usize = 0;
    while i < files.len()
        invariant
            i <= files.len(),
            model == files.deep_view(),
            base == root.deep_view(),
            paths.deep_view() =~= below(model.take(i as int), base),
            relatives.deep_view() =~= relative_below(model.take(i as int), base),
            paths@.len() == relatives@.len(),
        decreases files.len() - i,
    {
        proof {
            assert(model.take(i + 1).drop_last() =~= model.take(i as int));
            assert(model.take(i + 1).last() == files@[i as int].deep_view());
        }
        match files[i].strip_prefix(root) {
            Some(relative) => {
                push_item(&mut paths, files[i].replicate());
                push_item(&mut relatives, relative);
            },
            None => {},
        }
        i = i + 1;
    }
    assert(model.take(i as int) =~= model);
    (paths, relatives)
}

/// The patterns by which a plugin names entries.
pub open spec fn entry_patterns_of(plugin: DetectedBuiltinPluginModel) -> Seq<
    PatternContributionModel,
> {
    let contributions = plugin.plugin.contributions;
    contributions.entry_patterns + contributions.project_file_patterns
        + contributions.config_file_patterns
}

/// Entries with the files that patterns mean.
pub open spec fn with_patterns(
    items: Seq<PatternContributionModel>,
    start: Seq<Seq<PathPartModel>>,
    base: Seq<PathPartModel>,
    root: Seq<PathPartModel>,
    files: Seq<Seq<PathPartModel>>,
) -> Seq<Seq<PathPartModel>>
    decreases items.len(),
{
    if items.len() == 0 {
        start
    } else {
        let rest = with_patterns(items.drop_last(), start, base, root, files);
        let last = items.last();
        with_marked(
            below(files, root),
            rest,
            hits_among(base, last.pattern, relative_below(files, root)),
        )
    }
}

/// Entries with the files that plugins name.
pub open spec fn with_plugins(
    items: Seq<DetectedBuiltinPluginModel>,
    start: Seq<Seq<PathPartModel>>,
    base: Seq<PathPartModel>,
    root: Seq<PathPartModel>,
    files: Seq<Seq<PathPartModel>>,
) -> Seq<Seq<PathPartModel>>
    decreases items.len(),
{
    if items.len() == 0 {
        start
    } else {
        let rest = with_plugins(items.drop_last(), start, base, root, files);
        let last = items.last();
        with_patterns(entry_patterns_of(last), rest, base, root, files)
    }
}

fn add_patterns(
    patterns: &Vec<PatternContribution>,
    base: &FilePath,
    paths: &Vec<FilePath>,
    relatives: &Vec<FilePath>,
    entries: &mut OrderedSet<FilePath>,
    Ghost(root): Ghost<Seq<PathPartModel>>,
    Ghost(files): Ghost<Seq<Seq<PathPartModel>>>,
)
    requires
        paths@.len() == relatives@.len(),
        paths.deep_view() == below(files, root),
        relatives.deep_view() == relative_below(files, root),
    ensures
        final(entries).deep_view() == with_patterns(
            patterns.deep_view(),
            old(entries).deep_view(),
            base.deep_view(),
            root,
            files,
        ),
{
    let ghost start = entries.deep_view();
    let ghost from = base.deep_view();
    let ghost model = patterns.deep_view();
    let mut i: usize = 0;
    while i < patterns.len()
        invariant
            i <= patterns.len(),
            model == patterns.deep_view(),
            paths@.len() == relatives@.len(),
            from == base.deep_view(),
            paths.deep_view() == below(files, root),
            relatives.deep_view() == relative_below(files, root),
            entries.deep_view() == with_patterns(model.take(i as int), start, from, root, files),
        decreases patterns.len() - i,
    {
        proof {
            assert(model.take(i + 1).drop_last() =~= model.take(i as int));
            assert(model.take(i + 1).last() == patterns@[i as int].deep_view());
        }
        let marks: Vec<bool> = matches_among(base, &patterns[i].pattern, relatives);
        assert(relatives.deep_view().len() == relatives@.len());
        add_marked(paths, &marks, entries);
        i = i + 1;
    }
    assert(model.take(i as int) =~= model);
}

proof fn patterns_in_parts(
    first: Seq<PatternContributionModel>,
    second: Seq<PatternContributionModel>,
    start: Seq<Seq<PathPartModel>>,
    base: Seq<PathPartModel>,
    root: Seq<PathPartModel>,
    files: Seq<Seq<PathPartModel>>,
)
    ensures
        with_patterns(first + second, start, base, root, files) == with_patterns(
            second,
            with_patterns(first, start, base, root, files),
            base,
            root,
            files,
        ),
    decreases second.len(),
{
    if second.len() == 0 {
        assert(first + second =~= first);
    } else {
        assert((first + second).drop_last() =~= first + second.drop_last());
        patterns_in_parts(first, second.drop_last(), start, base, root, files);
    }
}

fn add_plugins(
    plugins: &Vec<DetectedBuiltinPlugin>,
    base: &FilePath,
    root: &FilePath,
    file_set: &OrderedSet<FilePath>,
    entries: &mut OrderedSet<FilePath>,
)
    ensures
        final(entries).deep_view() == with_plugins(
            plugins.deep_view(),
            old(entries).deep_view(),
            base.deep_view(),
            root.deep_view(),
            file_set.deep_view(),
        ),
{
    let (paths, relatives): (Vec<FilePath>, Vec<FilePath>) = files_below(file_set.items(), root);
    let ghost start = entries.deep_view();
    let ghost from = base.deep_view();
    let ghost at = root.deep_view();
    let ghost known = file_set.deep_view();
    let ghost model = plugins.deep_view();
    let mut i: usize = 0;
    while i < plugins.len()
        invariant
            i <= plugins.len(),
            model == plugins.deep_view(),
            paths@.len() == relatives@.len(),
            from == base.deep_view(),
            at == root.deep_view(),
            known == file_set.deep_view(),
            paths.deep_view() == below(known, at),
            relatives.deep_view() == relative_below(known, at),
            entries.deep_view() == with_plugins(model.take(i as int), start, from, at, known),
        decreases plugins.len() - i,
    {
        proof {
            assert(model.take(i + 1).drop_last() =~= model.take(i as int));
            assert(model.take(i + 1).last() == plugins@[i as int].deep_view());
        }
        let ghost before = entries.deep_view();
        let detected: &DetectedBuiltinPlugin = &plugins[i];
        add_patterns(
            &detected.plugin.contributions.entry_patterns,
            base,
            &paths,
            &relatives,
            entries,
            Ghost(at),
            Ghost(known),
        );
        add_patterns(
            &detected.plugin.contributions.project_file_patterns,
            base,
            &paths,
            &relatives,
            entries,
            Ghost(at),
            Ghost(known),
        );
        add_patterns(
            &detected.plugin.contributions.config_file_patterns,
            base,
            &paths,
            &relatives,
            entries,
            Ghost(at),
            Ghost(known),
        );
        proof {
            let c = detected.plugin.contributions.deep_view();
            patterns_in_parts(c.entry_patterns, c.project_file_patterns, before, from, at, known);
            patterns_in_parts(
                c.entry_patterns + c.project_file_patterns,
                c.config_file_patterns,
                before,
                from,
                at,
                known,
            );
        }
        i = i + 1;
    }
    assert(model.take(i as int) =~= model);
}

/// Whether a path leads to a test.
pub open spec fn names_test(path: Seq<char>, name: Seq<char>) -> bool {
    ||| "test/"@.is_prefix_of(path)
    ||| "tests/"@.is_prefix_of(path)
    ||| occurs(path, "/__tests__/"@)
    ||| occurs(name, ".test."@)
    ||| occurs(name, ".spec."@)
}

/// Whether a path leads to a benchmark.
pub open spec fn names_benchmark(path: Seq<char>, name: Seq<char>) -> bool {
    ||| "benchmark/"@.is_prefix_of(path)
    ||| "benchmarks/"@.is_prefix_of(path)
    ||| occurs(name, ".bench."@)
    ||| occurs(name, ".benchmark."@)
}

/// Whether a path leads to a story.
pub open spec fn names_story(path: Seq<char>, name: Seq<char>) -> bool {
    ||| "stories/"@.is_prefix_of(path)
    ||| ".storybook/"@.is_prefix_of(path)
    ||| occurs(path, "/.storybook/"@)
    ||| occurs(name, ".stories."@)
    ||| occurs(name, ".story."@)
}

/// Whether a path leads to an example.
pub open spec fn names_example(path: Seq<char>) -> bool {
    ||| "example/"@.is_prefix_of(path)
    ||| "examples/"@.is_prefix_of(path)
    ||| occurs(path, "/examples/"@)
}

/// Whether a file is an entry in a profile by where it is and what it is called.
pub open spec fn conventional_entry(profile: Seq<char>, relative: Seq<PathPartModel>) -> bool {
    let path = slashed(relative);
    let name = match file_name(relative) {
        Some(name) => name,
        None => ""@,
    };
    if profile == "test"@ {
        names_test(path, name) || names_benchmark(path, name)
    } else if profile == "browser"@ || profile == "bundler"@ {
        names_story(path, name) || names_example(path)
    } else if profile == "node"@ || profile == "development"@ {
        names_example(path)
    } else {
        false
    }
}

/// Whether a file is an entry in a profile by where it is and what it is called.
#[must_use]
pub fn is_conventional_entry(profile: &str, relative: &FilePath) -> (r: bool)
    ensures
        r == conventional_entry(profile@, relative.deep_view()),
{
    let path: String = relative.slashed();
    let name: String = match relative.file_name() {
        Some(name) => name,
        None => "".to_string(),
    };
    if same(profile, "test") {
        starts_with(&path, "test/") || starts_with(&path, "tests/") || contains(
            &path,
            "/__tests__/",
        ) || contains(&name, ".test.") || contains(&name, ".spec.") || starts_with(
            &path,
            "benchmark/",
        ) || starts_with(&path, "benchmarks/") || contains(&name, ".bench.") || contains(
            &name,
            ".benchmark.",
        )
    } else if same(profile, "browser") || same(profile, "bundler") {
        starts_with(&path, "stories/") || starts_with(&path, ".storybook/") || contains(
            &path,
            "/.storybook/",
        ) || contains(&name, ".stories.") || contains(&name, ".story.") || starts_with(
            &path,
            "example/",
        ) || starts_with(&path, "examples/") || contains(&path, "/examples/")
    } else if same(profile, "node") || same(profile, "development") {
        starts_with(&path, "example/") || starts_with(&path, "examples/") || contains(
            &path,
            "/examples/",
        )
    } else {
        false
    }
}

/// Entries with the files that are entries by where they are.
pub open spec fn with_conventional(
    items: Seq<Seq<PathPartModel>>,
    start: Seq<Seq<PathPartModel>>,
    root: Seq<PathPartModel>,
    profile: Seq<char>,
) -> Seq<Seq<PathPartModel>>
    decreases items.len(),
{
    if items.len() == 0 {
        start
    } else {
        let rest = with_conventional(items.drop_last(), start, root, profile);
        let last = items.last();
        match path_below(last, root) {
            Some(relative) => if conventional_entry(profile, relative) {
                with_item::<FilePath>(rest, last)
            } else {
                rest
            },
            None => rest,
        }
    }
}

/// Adds the files that are entries in a profile by where they are.
pub fn add_conventional_profile_entries(
    root: &FilePath,
    profile: &str,
    file_set: &OrderedSet<FilePath>,
    entries: &mut OrderedSet<FilePath>,
)
    ensures
        final(entries).deep_view() == with_conventional(
            file_set.deep_view(),
            old(entries).deep_view(),
            root.deep_view(),
            profile@,
        ),
{
    let ghost start = entries.deep_view();
    let ghost at = root.deep_view();
    let files: &Vec<FilePath> = file_set.items();
    let ghost model = files.deep_view();
    let mut i: usize = 0;
    while i < files.len()
        invariant
            i <= files.len(),
            model == files.deep_view(),
            at == root.deep_view(),
            entries.deep_view() == with_conventional(model.take(i as int), start, at, profile@),
        decreases files.len() - i,
    {
        proof {
            assert(model.take(i + 1).drop_last() =~= model.take(i as int));
            assert(model.take(i + 1).last() == files@[i as int].deep_view());
        }
        match files[i].strip_prefix(root) {
            Some(relative) => {
                if is_conventional_entry(profile, &relative) {
                    entries.insert(files[i].replicate());
                }
            },
            None => {},
        }
        i = i + 1;
    }
    assert(model.take(i as int) =~= model);
}

/// Where the entry of a package is where nothing says so.
pub open spec fn usual_entries() -> Seq<Seq<char>> {
    seq![
        "src/index.ts"@,
        "src/index.tsx"@,
        "src/index.js"@,
        "src/main.ts"@,
        "src/main.js"@,
        "src/cli.ts"@,
        "src/cli/index.ts"@,
        "index.ts"@,
        "index.js"@,
    ]
}

fn list_usual_entries() -> (r: Vec<String>)
    ensures
        r.deep_view() == usual_entries(),
{
    let mut out: Vec<String> = Vec::new();
    push_item(&mut out, "src/index.ts".to_string());
    push_item(&mut out, "src/index.tsx".to_string());
    push_item(&mut out, "src/index.js".to_string());
    push_item(&mut out, "src/main.ts".to_string());
    push_item(&mut out, "src/main.js".to_string());
    push_item(&mut out, "src/cli.ts".to_string());
    push_item(&mut out, "src/cli/index.ts".to_string());
    push_item(&mut out, "index.ts".to_string());
    push_item(&mut out, "index.js".to_string());
    assert(out.deep_view() =~= usual_entries());
    out
}

/// Entries with the usual ones that there are.
pub open spec fn with_usual(
    items: Seq<Seq<char>>,
    start: Seq<Seq<PathPartModel>>,
    root: Seq<PathPartModel>,
    files: Seq<Seq<PathPartModel>>,
) -> Seq<Seq<PathPartModel>>
    decreases items.len(),
{
    if items.len() == 0 {
        start
    } else {
        let rest = with_usual(items.drop_last(), start, root, files);
        let last = items.last();
        if files.contains(path_joined(root, parsed(last))) {
            with_item::<FilePath>(rest, path_joined(root, parsed(last)))
        } else {
            rest
        }
    }
}

fn add_usual(root: &FilePath, file_set: &OrderedSet<FilePath>, entries: &mut OrderedSet<FilePath>)
    ensures
        final(entries).deep_view() == with_usual(
            usual_entries(),
            old(entries).deep_view(),
            root.deep_view(),
            file_set.deep_view(),
        ),
{
    let ghost start = entries.deep_view();
    let ghost at = root.deep_view();
    let ghost known = file_set.deep_view();
    let usual: Vec<String> = list_usual_entries();
    let ghost model = usual.deep_view();
    let mut i: usize = 0;
    while i < usual.len()
        invariant
            i <= usual.len(),
            model == usual.deep_view(),
            at == root.deep_view(),
            known == file_set.deep_view(),
            entries.deep_view() == with_usual(model.take(i as int), start, at, known),
        decreases usual.len() - i,
    {
        proof {
            assert(model.take(i + 1).drop_last() =~= model.take(i as int));
            assert(model.take(i + 1).last() == usual@[i as int].deep_view());
        }
        let candidate: FilePath = root.join(&FilePath::parse(&usual[i]));
        if file_set.contains(&candidate) {
            entries.insert(candidate);
        }
        i = i + 1;
    }
    assert(model.take(i as int) =~= model);
}

/// Whether some entry is below a directory.
pub open spec fn any_below(entries: Seq<Seq<PathPartModel>>, root: Seq<PathPartModel>) -> bool {
    exists|i: int| 0 <= i < entries.len() && path_below(#[trigger] entries[i], root) is Some
}

fn has_entry_below(entries: &OrderedSet<FilePath>, root: &FilePath) -> (r: bool)
    ensures
        r == any_below(entries.deep_view(), root.deep_view()),
{
    let ghost model = entries.deep_view();
    let mut i: usize = 0;
    while i < entries.items().len()
        invariant
            i <= entries.items().len(),
            model == entries.deep_view(),
            forall|k: int| 0 <= k < i ==> path_below(#[trigger] model[k], root.deep_view()) is None,
        decreases entries.items().len() - i,
    {
        assert(model[i as int] == entries.items()@[i as int].deep_view());
        if entries.items()[i].strip_prefix(root).is_some() {
            return true;
        }
        i = i + 1;
    }
    false
}

/// Whether a package was asked for by its path.
pub open spec fn asked_for(
    package: WorkspacePackageModel,
    workspace: Option<Seq<PathPartModel>>,
) -> bool {
    match workspace {
        Some(path) => names_of(path) == package.root,
        None => false,
    }
}

/// Entries of a project with those of a package in a profile: what is configured, what
/// its manifest declares unless it is a private package inside the project that nobody
/// asked for, the files that scripts run, those that plugins name, those that are entries
/// by where they are, and the usual ones where there are no others.
pub open spec fn package_entries(
    start: EntriesModel,
    workspace_root: Seq<PathPartModel>,
    context: PackageContextModel,
    configurations: Seq<ProjectConfigurationModel>,
    files: Seq<Seq<PathPartModel>>,
    asked: Option<Seq<PathPartModel>>,
    profile: Seq<char>,
) -> Result<EntriesModel, ProjectScanErrorModel> {
    let package = context.package;
    let root = package.root;
    let prominent = root.len() == 0 || asked_for(package, asked);
    let configured = with_configured(
        context.configured_entries,
        start,
        root,
        configurations,
        files,
    );
    match manifest_profiles_for(seq![profile], context.effective.targets) {
        Err(error) => if !package.manifest.private || prominent {
            Err(error)
        } else {
            Ok(
                rest_of_entries(
                    configured,
                    workspace_root,
                    context,
                    configurations,
                    files,
                    prominent,
                    profile,
                ),
            )
        },
        Ok(wanted) => {
            let declared = if !package.manifest.private || prominent {
                with_manifest(wanted, configured, package, configurations, files)
            } else {
                configured
            };
            Ok(
                rest_of_entries(
                    declared,
                    workspace_root,
                    context,
                    configurations,
                    files,
                    prominent,
                    profile,
                ),
            )
        },
    }
}

/// Entries of a project with those of a package that neither its configuration nor its
/// manifest names.
pub open spec fn rest_of_entries(
    start: EntriesModel,
    workspace_root: Seq<PathPartModel>,
    context: PackageContextModel,
    configurations: Seq<ProjectConfigurationModel>,
    files: Seq<Seq<PathPartModel>>,
    prominent: bool,
    profile: Seq<char>,
) -> EntriesModel {
    let root = context.package.root;
    let scripted = with_scripts(context.scripts.references, start, root, configurations, files);
    let plugged = with_plugins(
        plugins_in(context, profile),
        scripted.entries,
        path_joined(workspace_root, root),
        root,
        files,
    );
    let placed = with_conventional(files, plugged, root, profile);
    EntriesModel {
        entries: if prominent && !any_below(placed, root) {
            with_usual(usual_entries(), placed, root, files)
        } else {
            placed
        },
        diagnostics: scripted.diagnostics,
    }
}

fn add_configured(
    configured: &Vec<FilePath>,
    root: &FilePath,
    project_configurations: &Vec<ProjectConfiguration>,
    file_set: &OrderedSet<FilePath>,
    entries: &mut OrderedSet<FilePath>,
    diagnostics: &mut Vec<AnalysisDiagnostic>,
)
    ensures
        ({
            let after = with_configured(
                configured.deep_view(),
                EntriesModel {
                    entries: old(entries).deep_view(),
                    diagnostics: old(diagnostics).deep_view(),
                },
                root.deep_view(),
                project_configurations.deep_view(),
                file_set.deep_view(),
            );
            &&& final(entries).deep_view() == after.entries
            &&& final(diagnostics).deep_view() == after.diagnostics
        }),
{
    let ghost start = EntriesModel {
        entries: entries.deep_view(),
        diagnostics: diagnostics.deep_view(),
    };
    let ghost at = root.deep_view();
    let ghost configurations = project_configurations.deep_view();
    let ghost known = file_set.deep_view();
    let ghost model = configured.deep_view();
    let mut i: usize = 0;
    while i < configured.len()
        invariant
            i <= configured.len(),
            model == configured.deep_view(),
            at == root.deep_view(),
            configurations == project_configurations.deep_view(),
            known == file_set.deep_view(),
            entries.deep_view() == with_configured(model.take(i as int), start, at, configurations, known).entries,
            diagnostics.deep_view() == with_configured(model.take(i as int), start, at, configurations, known).diagnostics,
        decreases configured.len() - i,
    {
        proof {
            assert(model.take(i + 1).drop_last() =~= model.take(i as int));
            assert(model.take(i + 1).last() == configured@[i as int].deep_view());
        }
        add_entry_candidate(
            &root.join(&configured[i]),
            "static Orphanode configuration",
            project_configurations,
            file_set,
            entries,
            diagnostics,
        );
        i = i + 1;
    }
    assert(model.take(i as int) =~= model);
}

fn add_roots(
    roots: &Vec<PackageEntryRoot>,
    root: &FilePath,
    project_configurations: &Vec<ProjectConfiguration>,
    file_set: &OrderedSet<FilePath>,
    entries: &mut OrderedSet<FilePath>,
    diagnostics: &mut Vec<AnalysisDiagnostic>,
)
    ensures
        ({
            let after = with_roots(
                roots.deep_view(),
                EntriesModel {
                    entries: old(entries).deep_view(),
                    diagnostics: old(diagnostics).deep_view(),
                },
                root.deep_view(),
                project_configurations.deep_view(),
                file_set.deep_view(),
            );
            &&& final(entries).deep_view() == after.entries
            &&& final(diagnostics).deep_view() == after.diagnostics
        }),
{
    let ghost start = EntriesModel {
        entries: entries.deep_view(),
        diagnostics: diagnostics.deep_view(),
    };
    let ghost at = root.deep_view();
    let ghost configurations = project_configurations.deep_view();
    let ghost known = file_set.deep_view();
    let ghost model = roots.deep_view();
    let mut i: usize = 0;
    while i < roots.len()
        invariant
            i <= roots.len(),
            model == roots.deep_view(),
            at == root.deep_view(),
            configurations == project_configurations.deep_view(),
            known == file_set.deep_view(),
            entries.deep_view() == with_roots(model.take(i as int), start, at, configurations, known).entries,
            diagnostics.deep_view() == with_roots(model.take(i as int), start, at, configurations, known).diagnostics,
        decreases roots.len() - i,
    {
        proof {
            assert(model.take(i + 1).drop_last() =~= model.take(i as int));
            assert(model.take(i + 1).last() == roots@[i as int].deep_view());
        }
        add_entry_candidate(
            &root.join(&roots[i].path),
            &concat3("package.json ", &roots[i].field, " entry"),
            project_configurations,
            file_set,
            entries,
            diagnostics,
        );
        i = i + 1;
    }
    assert(model.take(i as int) =~= model);
}

fn add_manifest(
    wanted: &Vec<EntryTargetProfile>,
    package: &WorkspacePackage,
    project_configurations: &Vec<ProjectConfiguration>,
    file_set: &OrderedSet<FilePath>,
    entries: &mut OrderedSet<FilePath>,
    diagnostics: &mut Vec<AnalysisDiagnostic>,
)
    ensures
        ({
            let after = with_manifest(
                wanted@,
                EntriesModel {
                    entries: old(entries).deep_view(),
                    diagnostics: old(diagnostics).deep_view(),
                },
                package.deep_view(),
                project_configurations.deep_view(),
                file_set.deep_view(),
            );
            &&& final(entries).deep_view() == after.entries
            &&& final(diagnostics).deep_view() == after.diagnostics
        }),
{
    let ghost start = EntriesModel {
        entries: entries.deep_view(),
        diagnostics: diagnostics.deep_view(),
    };
    let ghost whole = package.deep_view();
    let ghost configurations = project_configurations.deep_view();
    let ghost known = file_set.deep_view();
    assert(wanted.deep_view() =~= wanted@);
    let ghost model = wanted.deep_view();
    let mut i: usize = 0;
    while i < wanted.len()
        invariant
            i <= wanted.len(),
            model == wanted.deep_view(),
            whole == package.deep_view(),
            configurations == project_configurations.deep_view(),
            known == file_set.deep_view(),
            entries.deep_view() == with_manifest(model.take(i as int), start, whole, configurations, known).entries,
            diagnostics.deep_view() == with_manifest(model.take(i as int), start, whole, configurations, known).diagnostics,
        decreases wanted.len() - i,
    {
        proof {
            assert(model.take(i + 1).drop_last() =~= model.take(i as int));
            assert(model.take(i + 1).last() == wanted@[i as int].deep_view());
        }
        let ghost rest = with_manifest(model.take(i as int), start, whole, configurations, known);
        match package.manifest.entry_roots.get(&wanted[i]) {
            Some(roots) => {
                add_roots(
                    roots,
                    &package.root,
                    project_configurations,
                    file_set,
                    entries,
                    diagnostics,
                );
            },
            None => {
                assert(with_roots(
                    Seq::<PackageEntryRootModel>::empty(),
                    rest,
                    whole.root,
                    configurations,
                    known,
                ) == rest);
            },
        }
        i = i + 1;
    }
    assert(model.take(i as int) =~= model);
}

fn add_scripts(
    references: &Vec<ScriptReference>,
    root: &FilePath,
    project_configurations: &Vec<ProjectConfiguration>,
    file_set: &OrderedSet<FilePath>,
    entries: &mut OrderedSet<FilePath>,
    diagnostics: &mut Vec<AnalysisDiagnostic>,
)
    ensures
        ({
            let after = with_scripts(
                references.deep_view(),
                EntriesModel {
                    entries: old(entries).deep_view(),
                    diagnostics: old(diagnostics).deep_view(),
                },
                root.deep_view(),
                project_configurations.deep_view(),
                file_set.deep_view(),
            );
            &&& final(entries).deep_view() == after.entries
            &&& final(diagnostics).deep_view() == after.diagnostics
        }),
{
    let ghost start = EntriesModel {
        entries: entries.deep_view(),
        diagnostics: diagnostics.deep_view(),
    };
    let ghost at = root.deep_view();
    let ghost configurations = project_configurations.deep_view();
    let ghost known = file_set.deep_view();
    let ghost model = references.deep_view();
    let mut i: usize = 0;
    while i < references.len()
        invariant
            i <= references.len(),
            model == references.deep_view(),
            at == root.deep_view(),
            configurations == project_configurations.deep_view(),
            known == file_set.deep_view(),
            entries.deep_view() == with_scripts(model.take(i as int), start, at, configurations, known).entries,
            diagnostics.deep_view() == with_scripts(model.take(i as int), start, at, configurations, known).diagnostics,
        decreases references.len() - i,
    {
        proof {
            assert(model.take(i + 1).drop_last() =~= model.take(i as int));
            assert(model.take(i + 1).last() == references@[i as int].deep_view());
        }
        let reference: &ScriptReference = &references[i];
        if reference.kind == ScriptReferenceKind::File {
            add_entry_candidate(
                &root.join(&FilePath::parse(&reference.value).names()),
                &concat3("package script `", &reference.script, "`"),
                project_configurations,
                file_set,
                entries,
                diagnostics,
            );
        }
        i = i + 1;
    }
    assert(model.take(i as int) =~= model);
}

/// Adds the entries of a package in a profile.
pub fn collect_package_entries(
    workspace_root: &FilePath,
    context: &PackageContext,
    project_configurations: &Vec<ProjectConfiguration>,
    file_set: &OrderedSet<FilePath>,
    asked: &Option<FilePath>,
    profile: &str,
    entries: &mut OrderedSet<FilePath>,
    diagnostics: &mut Vec<AnalysisDiagnostic>,
) -> (r: Result<(), ProjectScanError>)
    ensures
        ({
            let after = package_entries(
                EntriesModel {
                    entries: old(entries).deep_view(),
                    diagnostics: old(diagnostics).deep_view(),
                },
                workspace_root.deep_view(),
                context.deep_view(),
                project_configurations.deep_view(),
                file_set.deep_view(),
                asked.deep_view(),
                profile@,
            );
            match r {
                Ok(_) => after == Ok::<EntriesModel, ProjectScanErrorModel>(
                    EntriesModel {
                        entries: final(entries).deep_view(),
                        diagnostics: final(diagnostics).deep_view(),
                    },
                ),
                Err(error) => after == Err::<EntriesModel, ProjectScanErrorModel>(
                    error.deep_view(),
                ) && EntriesModel {
                    entries: final(entries).deep_view(),
                    diagnostics: final(diagnostics).deep_view(),
                } == with_configured(
                    context.deep_view().configured_entries,
                    EntriesModel {
                        entries: old(entries).deep_view(),
                        diagnostics: old(diagnostics).deep_view(),
                    },
                    context.deep_view().package.root,
                    project_configurations.deep_view(),
                    file_set.deep_view(),
                ),
            }
        }),
{
    let package: &WorkspacePackage = &context.package;
    let root: &FilePath = &package.root;
    let explicitly_selected: bool = match asked {
        Some(path) => path.names().same_value(root),
        None => false,
    };
    let prominent: bool = root.parts.len() == 0 || explicitly_selected;
    add_configured(
        &context.configured_entries,
        root,
        project_configurations,
        file_set,
        entries,
        diagnostics,
    );
    if !package.manifest.private || prominent {
        let one: Vec<String> = crate::text::one_text(profile);
        match manifest_profiles(&one, &context.effective.targets) {
            Ok(wanted) => {
                add_manifest(
                    &wanted,
                    package,
                    project_configurations,
                    file_set,
                    entries,
                    diagnostics,
                );
            },
            Err(error) => {
                return Err(error);
            },
        }
    }
    add_scripts(
        &context.scripts.references,
        root,
        project_configurations,
        file_set,
        entries,
        diagnostics,
    );
    let base: FilePath = workspace_root.join(root);
    let key: String = profile.to_string();
    match context.plugins_by_profile.get(&key) {
        Some(plugins) => {
            add_plugins(plugins, &base, root, file_set, entries);
        },
        None => {},
    }
    add_conventional_profile_entries(root, profile, file_set, entries);
    if prominent && !has_entry_below(entries, root) {
        add_usual(root, file_set, entries);
    }
    Ok(())
}

} // verus!
