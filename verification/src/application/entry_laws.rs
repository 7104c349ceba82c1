//! From which files of a package a scan starts.

use crate::application::entries::{
    asked_for, conventional_entry, first_known, package_entries, relative_below, rest_of_entries,
    roots_for, source_by_configurations, source_extensions, source_of_entry, usual_entries,
    variants_of, with_candidate, with_configured, with_conventional, with_manifest, with_marked,
    with_patterns, with_plugins, with_roots, with_scripts, with_usual, EntriesModel,
};
use crate::application::patterns::hits;
use crate::application::plugin_edges::{
    is_left_out, plugin_excludes, profile_includes, profile_includes_at, remaining_files,
    rule_means_path, rule_means_path_at,
};
use crate::application::policy::seen_from;
use crate::application::requests::{requested_entries, requested_entry};
use crate::application::targets::{manifest_profiles_for, plugins_in};
use crate::collections::{collected, collected_is_ordered, with_item_contains};
use crate::discovery::segments::{ScriptReferenceKind, ScriptReferenceModel};
use crate::discovery::workspace::{
    context_place, EntryTargetProfile, PackageContextModel, PackageEntryRootModel, ProjectConfigurationModel,
    WorkspaceDiscoveryModel, WorkspacePackageModel,
};
use crate::paths::{
    extension_of, file_name, names_of, parsed, path_below, path_joined, slashed,
    with_extension_of, FilePath, PathPartModel,
};
use crate::plugins::contract::{DetectedBuiltinPluginModel, PatternContributionModel};
use crate::text::occurs;
use vstd::prelude::*;

verus! {

/// Whether a path to what is built may stand for the source: it is the path itself, or it has
/// the extension of a source from which such a file is built.
pub open spec fn may_be_source_of(path: Seq<PathPartModel>, source: Seq<PathPartModel>) -> bool {
    ||| source == names_of(path)
    ||| extension_of(path) == Some("js"@) && (source == with_extension_of(path, "ts"@) || source
        == with_extension_of(path, "tsx"@) || source == with_extension_of(path, "js"@) || source
        == with_extension_of(path, "jsx"@))
    ||| extension_of(path) == Some("mjs"@) && (source == with_extension_of(path, "mts"@) || source
        == with_extension_of(path, "mjs"@))
    ||| extension_of(path) == Some("cjs"@) && (source == with_extension_of(path, "cts"@) || source
        == with_extension_of(path, "cjs"@))
    ||| extension_of(path) is None && (source == with_extension_of(path, "ts"@) || source
        == with_extension_of(path, "tsx"@) || source == with_extension_of(path, "mts"@) || source
        == with_extension_of(path, "cts"@) || source == with_extension_of(path, "js"@) || source
        == with_extension_of(path, "jsx"@) || source == with_extension_of(path, "mjs"@) || source
        == with_extension_of(path, "cjs"@))
}

/// Whether one of the files may be the source of what the path leads to.
pub open spec fn has_source(path: Seq<PathPartModel>, files: Seq<Seq<PathPartModel>>) -> bool {
    exists|v: Seq<PathPartModel>| #[trigger] files.contains(v) && may_be_source_of(path, v)
}

/// Whether a file that may be the source of what the path leads to is an entry.
pub open spec fn is_entered(
    path: Seq<PathPartModel>,
    files: Seq<Seq<PathPartModel>>,
    entries: Seq<Seq<PathPartModel>>,
) -> bool {
    exists|v: Seq<PathPartModel>| #[trigger]
        entries.contains(v) && files.contains(v) && may_be_source_of(path, v)
}

proof fn variants_are_sources(path: Seq<PathPartModel>, v: Seq<PathPartModel>)
    ensures
        variants_of(path).contains(v) <==> may_be_source_of(path, v),
{
    reveal_strlit("js");
    reveal_strlit("mjs");
    reveal_strlit("cjs");
    assert("js"@.len() == 2 && "mjs"@.len() == 3 && "cjs"@.len() == 3 && "mjs"@[0] == 'm'
        && "cjs"@[0] == 'c');
    let extensions = source_extensions(extension_of(path));
    let others = extensions.map_values(|extension: Seq<char>| with_extension_of(path, extension));
    let all = seq![names_of(path)] + others;
    collected_is_ordered::<FilePath>(all);
    assert(variants_of(path) == collected::<FilePath>(all));
    if v == names_of(path) {
        assert(all[0] == v);
        assert(all.contains(v));
    }
    if exists|k: int| 0 <= k < extensions.len() && v == with_extension_of(path, extensions[k]) {
        let k = choose|k: int|
            0 <= k < extensions.len() && v == with_extension_of(path, extensions[k]);
        assert(others[k] == v);
        assert(all[k + 1] == v);
        assert(all.contains(v));
    }
    if all.contains(v) && v != names_of(path) {
        let k = choose|k: int| 0 <= k < all.len() && all[k] == v;
        assert(k > 0);
        assert(others[k - 1] == v);
        assert(v == with_extension_of(path, extensions[k - 1]));
    }
    if may_be_source_of(path, v) && v != names_of(path) {
        match extension_of(path) {
            Some(text) => {
                if text == "js"@ {
                    assert(extensions[0] == "ts"@ && extensions[1] == "tsx"@ && extensions[2]
                        == "js"@ && extensions[3] == "jsx"@);
                } else if text == "mjs"@ {
                    assert(extensions[0] == "mts"@ && extensions[1] == "mjs"@);
                } else {
                    assert(extensions[0] == "cts"@ && extensions[1] == "cjs"@);
                }
            },
            None => {
                assert(extensions[0] == "ts"@ && extensions[1] == "tsx"@ && extensions[2] == "mts"@
                    && extensions[3] == "cts"@ && extensions[4] == "js"@ && extensions[5] == "jsx"@
                    && extensions[6] == "mjs"@ && extensions[7] == "cjs"@);
            },
        }
    }
}

proof fn known_variant(items: Seq<Seq<PathPartModel>>, files: Seq<Seq<PathPartModel>>)
    ensures
        match first_known(items, files) {
            Some(v) => items.contains(v) && files.contains(v),
            None => forall|v: Seq<PathPartModel>| #[trigger]
                items.contains(v) ==> !files.contains(v),
        },
    decreases items.len(),
{
    if items.len() > 0 {
        let front = items.drop_last();
        known_variant(front, files);
        match first_known(front, files) {
            Some(v) => {
                let k = choose|k: int| 0 <= k < front.len() && front[k] == v;
                assert(items[k] == v);
            },
            None => {
                assert(items[items.len() - 1] == items.last());
                assert forall|v: Seq<PathPartModel>| #[trigger] items.contains(v) && v
                    != items.last() implies !files.contains(v) by {
                    let k = choose|k: int| 0 <= k < items.len() && items[k] == v;
                    assert(front[k] == v);
                    assert(front.contains(v));
                }
            },
        }
    }
}

proof fn built_sources_are_known(
    items: Seq<ProjectConfigurationModel>,
    path: Seq<PathPartModel>,
    files: Seq<Seq<PathPartModel>>,
)
    ensures
        source_by_configurations(items, path, files) matches Some(v) ==> files.contains(v),
    decreases items.len(),
{
    if items.len() > 0 {
        built_sources_are_known(items.drop_last(), path, files);
        let last = items.last();
        match (last.out_dir, last.root_dir) {
            (Some(out_dir), Some(root_dir)) => {
                match path_below(path, out_dir) {
                    Some(below) => {
                        known_variant(variants_of(path_joined(root_dir, below)), files);
                    },
                    None => {},
                }
            },
            _ => {},
        }
    }
}

proof fn sources_of_entries(
    path: Seq<PathPartModel>,
    configurations: Seq<ProjectConfigurationModel>,
    files: Seq<Seq<PathPartModel>>,
)
    ensures
        source_of_entry(path, configurations, files) matches Some(v) ==> files.contains(v),
        has_source(path, files) ==> (source_of_entry(path, configurations, files) matches Some(v)
            && may_be_source_of(path, v)),
{
    known_variant(variants_of(path), files);
    built_sources_are_known(configurations, path, files);
    match first_known(variants_of(path), files) {
        Some(v) => {
            variants_are_sources(path, v);
        },
        None => {
            if has_source(path, files) {
                let v = choose|v: Seq<PathPartModel>| #[trigger]
                    files.contains(v) && may_be_source_of(path, v);
                variants_are_sources(path, v);
            }
        },
    }
}

/// That entries only grow, and only by files of the project.
spec fn grow(
    before: Seq<Seq<PathPartModel>>,
    after: Seq<Seq<PathPartModel>>,
    files: Seq<Seq<PathPartModel>>,
) -> bool {
    &&& forall|v: Seq<PathPartModel>| #[trigger] before.contains(v) ==> after.contains(v)
    &&& forall|v: Seq<PathPartModel>| #[trigger]
        after.contains(v) ==> before.contains(v) || files.contains(v)
}

proof fn growing_goes_on(
    a: Seq<Seq<PathPartModel>>,
    b: Seq<Seq<PathPartModel>>,
    c: Seq<Seq<PathPartModel>>,
    files: Seq<Seq<PathPartModel>>,
)
    requires
        grow(a, b, files),
        grow(b, c, files),
    ensures
        grow(a, c, files),
{
}

proof fn entered_stays(
    path: Seq<PathPartModel>,
    a: Seq<Seq<PathPartModel>>,
    b: Seq<Seq<PathPartModel>>,
    files: Seq<Seq<PathPartModel>>,
)
    requires
        grow(a, b, files),
        is_entered(path, files, a),
    ensures
        is_entered(path, files, b),
{
    let v = choose|v: Seq<PathPartModel>| #[trigger]
        a.contains(v) && files.contains(v) && may_be_source_of(path, v);
    assert(b.contains(v));
}

proof fn one_candidate(
    rest: EntriesModel,
    path: Seq<PathPartModel>,
    evidence: Seq<char>,
    configurations: Seq<ProjectConfigurationModel>,
    files: Seq<Seq<PathPartModel>>,
)
    ensures
        grow(
            rest.entries,
            with_candidate(rest, path, evidence, configurations, files).entries,
            files,
        ),
        has_source(path, files) ==> is_entered(
            path,
            files,
            with_candidate(rest, path, evidence, configurations, files).entries,
        ),
{
    sources_of_entries(path, configurations, files);
    match source_of_entry(path, configurations, files) {
        Some(source) => {
            with_item_contains::<FilePath>(rest.entries, source);
            let after = with_candidate(rest, path, evidence, configurations, files).entries;
            assert(after.contains(source));
        },
        None => {},
    }
}

proof fn configured_candidates(
    items: Seq<Seq<PathPartModel>>,
    start: EntriesModel,
    root: Seq<PathPartModel>,
    configurations: Seq<ProjectConfigurationModel>,
    files: Seq<Seq<PathPartModel>>,
    k: int,
)
    ensures
        grow(
            start.entries,
            with_configured(items, start, root, configurations, files).entries,
            files,
        ),
        0 <= k < items.len() && has_source(path_joined(root, items[k]), files) ==> is_entered(
            path_joined(root, items[k]),
            files,
            with_configured(items, start, root, configurations, files).entries,
        ),
    decreases items.len(),
{
    if items.len() > 0 {
        let front = items.drop_last();
        configured_candidates(front, start, root, configurations, files, k);
        let rest = with_configured(front, start, root, configurations, files);
        let all = with_configured(items, start, root, configurations, files);
        one_candidate(
            rest,
            path_joined(root, items.last()),
            "static Orphanode configuration"@,
            configurations,
            files,
        );
        growing_goes_on(start.entries, rest.entries, all.entries, files);
        if 0 <= k < front.len() && has_source(path_joined(root, items[k]), files) {
            assert(front[k] == items[k]);
            entered_stays(path_joined(root, items[k]), rest.entries, all.entries, files);
        }
    }
}

proof fn root_candidates(
    items: Seq<PackageEntryRootModel>,
    start: EntriesModel,
    root: Seq<PathPartModel>,
    configurations: Seq<ProjectConfigurationModel>,
    files: Seq<Seq<PathPartModel>>,
    k: int,
)
    ensures
        grow(
            start.entries,
            with_roots(items, start, root, configurations, files).entries,
            files,
        ),
        0 <= k < items.len() && has_source(path_joined(root, items[k].path), files) ==> is_entered(
            path_joined(root, items[k].path),
            files,
            with_roots(items, start, root, configurations, files).entries,
        ),
    decreases items.len(),
{
    if items.len() > 0 {
        let front = items.drop_last();
        root_candidates(front, start, root, configurations, files, k);
        let rest = with_roots(front, start, root, configurations, files);
        let all = with_roots(items, start, root, configurations, files);
        let last = items.last();
        one_candidate(
            rest,
            path_joined(root, last.path),
            "package.json "@ + last.field + " entry"@,
            configurations,
            files,
        );
        growing_goes_on(start.entries, rest.entries, all.entries, files);
        if 0 <= k < front.len() && has_source(path_joined(root, items[k].path), files) {
            assert(front[k] == items[k]);
            entered_stays(path_joined(root, items[k].path), rest.entries, all.entries, files);
        }
    }
}

proof fn manifest_candidates(
    items: Seq<EntryTargetProfile>,
    start: EntriesModel,
    package: WorkspacePackageModel,
    configurations: Seq<ProjectConfigurationModel>,
    files: Seq<Seq<PathPartModel>>,
    w: int,
    k: int,
)
    ensures
        grow(
            start.entries,
            with_manifest(items, start, package, configurations, files).entries,
            files,
        ),
        0 <= w < items.len() && 0 <= k < roots_for(package, items[w]).len() && has_source(
            path_joined(package.root, roots_for(package, items[w])[k].path),
            files,
        ) ==> is_entered(
            path_joined(package.root, roots_for(package, items[w])[k].path),
            files,
            with_manifest(items, start, package, configurations, files).entries,
        ),
    decreases items.len(),
{
    if items.len() > 0 {
        let front = items.drop_last();
        manifest_candidates(front, start, package, configurations, files, w, k);
        let rest = with_manifest(front, start, package, configurations, files);
        let all = with_manifest(items, start, package, configurations, files);
        let roots = roots_for(package, items.last());
        root_candidates(roots, rest, package.root, configurations, files, k);
        growing_goes_on(start.entries, rest.entries, all.entries, files);
        if 0 <= w < front.len() && 0 <= k < roots_for(package, items[w]).len() && has_source(
            path_joined(package.root, roots_for(package, items[w])[k].path),
            files,
        ) {
            assert(front[w] == items[w]);
            entered_stays(
                path_joined(package.root, roots_for(package, items[w])[k].path),
                rest.entries,
                all.entries,
                files,
            );
        }
    }
}

proof fn script_candidates(
    items: Seq<ScriptReferenceModel>,
    start: EntriesModel,
    root: Seq<PathPartModel>,
    configurations: Seq<ProjectConfigurationModel>,
    files: Seq<Seq<PathPartModel>>,
    k: int,
)
    ensures
        grow(
            start.entries,
            with_scripts(items, start, root, configurations, files).entries,
            files,
        ),
        0 <= k < items.len() && items[k].kind == ScriptReferenceKind::File && has_source(
            path_joined(root, names_of(parsed(items[k].value))),
            files,
        ) ==> is_entered(
            path_joined(root, names_of(parsed(items[k].value))),
            files,
            with_scripts(items, start, root, configurations, files).entries,
        ),
    decreases items.len(),
{
    if items.len() > 0 {
        let front = items.drop_last();
        script_candidates(front, start, root, configurations, files, k);
        let rest = with_scripts(front, start, root, configurations, files);
        let all = with_scripts(items, start, root, configurations, files);
        let last = items.last();
        one_candidate(
            rest,
            path_joined(root, names_of(parsed(last.value))),
            "package script `"@ + last.script + "`"@,
            configurations,
            files,
        );
        growing_goes_on(start.entries, rest.entries, all.entries, files);
        if 0 <= k < front.len() && items[k].kind == ScriptReferenceKind::File && has_source(
            path_joined(root, names_of(parsed(items[k].value))),
            files,
        ) {
            assert(front[k] == items[k]);
            entered_stays(
                path_joined(root, names_of(parsed(items[k].value))),
                rest.entries,
                all.entries,
                files,
            );
        }
    }
}

proof fn below_are_files(items: Seq<Seq<PathPartModel>>, root: Seq<PathPartModel>)
    ensures
        forall|v: Seq<PathPartModel>| #[trigger]
            crate::application::entries::below(items, root).contains(v) ==> items.contains(v),
    decreases items.len(),
{
    if items.len() > 0 {
        let front = items.drop_last();
        below_are_files(front, root);
        let rest = crate::application::entries::below(front, root);
        let all = crate::application::entries::below(items, root);
        assert forall|v: Seq<PathPartModel>| #[trigger] all.contains(v) implies items.contains(
            v,
        ) by {
            let k = choose|k: int| 0 <= k < all.len() && all[k] == v;
            if k < rest.len() {
                assert(rest[k] == v);
                assert(rest.contains(v));
                let i = choose|i: int| 0 <= i < front.len() && front[i] == v;
                assert(items[i] == v);
            } else {
                assert(items[items.len() - 1] == v);
            }
        }
    }
}

proof fn marked_grow(
    items: Seq<Seq<PathPartModel>>,
    start: Seq<Seq<PathPartModel>>,
    marks: Seq<bool>,
    files: Seq<Seq<PathPartModel>>,
)
    requires
        forall|v: Seq<PathPartModel>| #[trigger] items.contains(v) ==> files.contains(v),
    ensures
        grow(start, with_marked(items, start, marks), files),
    decreases items.len(),
{
    if items.len() > 0 {
        let front = items.drop_last();
        assert forall|v: Seq<PathPartModel>| #[trigger] front.contains(v) implies files.contains(
            v,
        ) by {
            let i = choose|i: int| 0 <= i < front.len() && front[i] == v;
            assert(items[i] == v);
            assert(items.contains(v));
        }
        marked_grow(front, start, marks, files);
        assert(items[items.len() - 1] == items.last());
        assert(items.contains(items.last()));
        with_item_contains::<FilePath>(with_marked(front, start, marks), items.last());
    }
}

proof fn patterns_grow(
    items: Seq<PatternContributionModel>,
    start: Seq<Seq<PathPartModel>>,
    base: Seq<PathPartModel>,
    root: Seq<PathPartModel>,
    files: Seq<Seq<PathPartModel>>,
)
    ensures
        grow(start, with_patterns(items, start, base, root, files), files),
    decreases items.len(),
{
    if items.len() > 0 {
        let front = items.drop_last();
        patterns_grow(front, start, base, root, files);
        below_are_files(files, root);
        let rest = with_patterns(front, start, base, root, files);
        marked_grow(
            crate::application::entries::below(files, root),
            rest,
            crate::application::patterns::hits_among(
                base,
                items.last().pattern,
                relative_below(files, root),
            ),
            files,
        );
        growing_goes_on(start, rest, with_patterns(items, start, base, root, files), files);
    }
}

proof fn plugins_grow(
    items: Seq<DetectedBuiltinPluginModel>,
    start: Seq<Seq<PathPartModel>>,
    base: Seq<PathPartModel>,
    root: Seq<PathPartModel>,
    files: Seq<Seq<PathPartModel>>,
)
    ensures
        grow(start, with_plugins(items, start, base, root, files), files),
    decreases items.len(),
{
    if items.len() > 0 {
        let front = items.drop_last();
        plugins_grow(front, start, base, root, files);
        let rest = with_plugins(front, start, base, root, files);
        patterns_grow(
            crate::application::entries::entry_patterns_of(items.last()),
            rest,
            base,
            root,
            files,
        );
        growing_goes_on(start, rest, with_plugins(items, start, base, root, files), files);
    }
}

proof fn conventional_files_are_entered(
    items: Seq<Seq<PathPartModel>>,
    start: Seq<Seq<PathPartModel>>,
    root: Seq<PathPartModel>,
    profile: Seq<char>,
    files: Seq<Seq<PathPartModel>>,
    k: int,
)
    requires
        forall|v: Seq<PathPartModel>| #[trigger] items.contains(v) ==> files.contains(v),
    ensures
        grow(start, with_conventional(items, start, root, profile), files),
        0 <= k < items.len() && path_below(items[k], root) is Some && conventional_entry(
            profile,
            path_below(items[k], root)->0,
        ) ==> with_conventional(items, start, root, profile).contains(items[k]),
    decreases items.len(),
{
    if items.len() > 0 {
        let front = items.drop_last();
        assert forall|v: Seq<PathPartModel>| #[trigger] front.contains(v) implies files.contains(
            v,
        ) by {
            let i = choose|i: int| 0 <= i < front.len() && front[i] == v;
            assert(items[i] == v);
            assert(items.contains(v));
        }
        conventional_files_are_entered(front, start, root, profile, files, k);
        assert(items[items.len() - 1] == items.last());
        assert(items.contains(items.last()));
        with_item_contains::<FilePath>(
            with_conventional(front, start, root, profile),
            items.last(),
        );
        if 0 <= k < front.len() {
            assert(front[k] == items[k]);
        }
    }
}

proof fn usual_grow(
    items: Seq<Seq<char>>,
    start: Seq<Seq<PathPartModel>>,
    root: Seq<PathPartModel>,
    files: Seq<Seq<PathPartModel>>,
)
    ensures
        grow(start, with_usual(items, start, root, files), files),
    decreases items.len(),
{
    if items.len() > 0 {
        let front = items.drop_last();
        usual_grow(front, start, root, files);
        with_item_contains::<FilePath>(
            with_usual(front, start, root, files),
            path_joined(root, parsed(items.last())),
        );
    }
}

proof fn rest_grows(
    start: EntriesModel,
    workspace_root: Seq<PathPartModel>,
    context: PackageContextModel,
    configurations: Seq<ProjectConfigurationModel>,
    files: Seq<Seq<PathPartModel>>,
    prominent: bool,
    profile: Seq<char>,
    s: int,
    f: int,
)
    ensures
        ({
            let all = rest_of_entries(
                start,
                workspace_root,
                context,
                configurations,
                files,
                prominent,
                profile,
            ).entries;
            let root = context.package.root;
            let references = context.scripts.references;
            &&& grow(start.entries, all, files)
            &&& 0 <= s < references.len() && references[s].kind == ScriptReferenceKind::File
                && has_source(path_joined(root, names_of(parsed(references[s].value))), files)
                ==> is_entered(
                path_joined(root, names_of(parsed(references[s].value))),
                files,
                all,
            )
            &&& 0 <= f < files.len() && path_below(files[f], root) is Some && conventional_entry(
                profile,
                path_below(files[f], root)->0,
            ) ==> all.contains(files[f])
        }),
{
    let root = context.package.root;
    let references = context.scripts.references;
    let scripted = with_scripts(references, start, root, configurations, files);
    script_candidates(references, start, root, configurations, files, s);
    let base = path_joined(workspace_root, root);
    let plugins = plugins_in(context, profile);
    plugins_grow(plugins, scripted.entries, base, root, files);
    let plugged = with_plugins(plugins, scripted.entries, base, root, files);
    conventional_files_are_entered(files, plugged, root, profile, files, f);
    let placed = with_conventional(files, plugged, root, profile);
    usual_grow(usual_entries(), placed, root, files);
    let all = rest_of_entries(
        start,
        workspace_root,
        context,
        configurations,
        files,
        prominent,
        profile,
    ).entries;
    growing_goes_on(start.entries, scripted.entries, plugged, files);
    growing_goes_on(start.entries, plugged, placed, files);
    growing_goes_on(scripted.entries, plugged, placed, files);
    assert(grow(placed, all, files));
    growing_goes_on(start.entries, placed, all, files);
    growing_goes_on(scripted.entries, placed, all, files);
    if 0 <= s < references.len() && references[s].kind == ScriptReferenceKind::File && has_source(
        path_joined(root, names_of(parsed(references[s].value))),
        files,
    ) {
        entered_stays(
            path_joined(root, names_of(parsed(references[s].value))),
            scripted.entries,
            all,
            files,
        );
    }
}

/// What a package names as an entry is one, where it has a source in the project: the entries
/// of its configuration, the files that its scripts run, and what its manifest leads to, if the
/// package can be used from outside or is the one that was asked for. No file becomes an entry
/// that is not in the project, and none that was one ceases to be.
pub proof fn named_files_are_entries(
    start: EntriesModel,
    workspace_root: Seq<PathPartModel>,
    context: PackageContextModel,
    configurations: Seq<ProjectConfigurationModel>,
    files: Seq<Seq<PathPartModel>>,
    asked: Option<Seq<PathPartModel>>,
    profile: Seq<char>,
    k: int,
    s: int,
    w: int,
    m: int,
)
    requires
        package_entries(
            start,
            workspace_root,
            context,
            configurations,
            files,
            asked,
            profile,
        ) is Ok,
    ensures
        ({
            let entries = package_entries(
                start,
                workspace_root,
                context,
                configurations,
                files,
                asked,
                profile,
            )->Ok_0.entries;
            let package = context.package;
            let configured = context.configured_entries;
            let references = context.scripts.references;
            let wanted = manifest_profiles_for(seq![profile], context.effective.targets);
            let open = !package.manifest.private || package.root.len() == 0 || (asked is Some
                && names_of(asked->0) == package.root);
            &&& 0 <= k < configured.len() && has_source(
                path_joined(package.root, configured[k]),
                files,
            ) ==> is_entered(path_joined(package.root, configured[k]), files, entries)
            &&& 0 <= s < references.len() && references[s].kind == ScriptReferenceKind::File
                && has_source(
                path_joined(package.root, names_of(parsed(references[s].value))),
                files,
            ) ==> is_entered(
                path_joined(package.root, names_of(parsed(references[s].value))),
                files,
                entries,
            )
            &&& open && wanted is Ok && 0 <= w < wanted->Ok_0.len() && 0 <= m < roots_for(
                package,
                wanted->Ok_0[w],
            ).len() && has_source(
                path_joined(package.root, roots_for(package, wanted->Ok_0[w])[m].path),
                files,
            ) ==> is_entered(
                path_joined(package.root, roots_for(package, wanted->Ok_0[w])[m].path),
                files,
                entries,
            )
            &&& forall|v: Seq<PathPartModel>| #[trigger]
                start.entries.contains(v) ==> entries.contains(v)
            &&& forall|v: Seq<PathPartModel>| #[trigger]
                entries.contains(v) ==> start.entries.contains(v) || files.contains(v)
        }),
{
    let package = context.package;
    let root = package.root;
    let prominent = root.len() == 0 || asked_for(package, asked);
    let first = with_configured(context.configured_entries, start, root, configurations, files);
    configured_candidates(context.configured_entries, start, root, configurations, files, k);
    let wanted = manifest_profiles_for(seq![profile], context.effective.targets);
    let second = match wanted {
        Ok(profiles) => if !package.manifest.private || prominent {
            with_manifest(profiles, first, package, configurations, files)
        } else {
            first
        },
        Err(_) => first,
    };
    match wanted {
        Ok(profiles) => {
            manifest_candidates(profiles, first, package, configurations, files, w, m);
        },
        Err(_) => {},
    }
    assert(grow(first.entries, second.entries, files));
    rest_grows(
        second,
        workspace_root,
        context,
        configurations,
        files,
        prominent,
        profile,
        s,
        0,
    );
    let all = rest_of_entries(
        second,
        workspace_root,
        context,
        configurations,
        files,
        prominent,
        profile,
    ).entries;
    growing_goes_on(start.entries, first.entries, second.entries, files);
    growing_goes_on(start.entries, second.entries, all, files);
    growing_goes_on(first.entries, second.entries, all, files);
    if 0 <= k < context.configured_entries.len() && has_source(
        path_joined(root, context.configured_entries[k]),
        files,
    ) {
        entered_stays(path_joined(root, context.configured_entries[k]), first.entries, all, files);
    }
    if (!package.manifest.private || prominent) && wanted is Ok && 0 <= w < wanted->Ok_0.len() && 0
        <= m < roots_for(package, wanted->Ok_0[w]).len() && has_source(
        path_joined(root, roots_for(package, wanted->Ok_0[w])[m].path),
        files,
    ) {
        entered_stays(
            path_joined(root, roots_for(package, wanted->Ok_0[w])[m].path),
            second.entries,
            all,
            files,
        );
    }
}

/// In the profile for tests, the files of a package that are called tests by their names or by
/// where they are start a scan of their own.
pub proof fn tests_are_entries_for_tests(
    start: EntriesModel,
    workspace_root: Seq<PathPartModel>,
    context: PackageContextModel,
    configurations: Seq<ProjectConfigurationModel>,
    files: Seq<Seq<PathPartModel>>,
    asked: Option<Seq<PathPartModel>>,
    f: int,
)
    requires
        package_entries(
            start,
            workspace_root,
            context,
            configurations,
            files,
            asked,
            "test"@,
        ) is Ok,
        0 <= f < files.len(),
        path_below(files[f], context.package.root) is Some,
        ({
            let relative = path_below(files[f], context.package.root)->0;
            ||| "test/"@.is_prefix_of(slashed(relative))
            ||| "tests/"@.is_prefix_of(slashed(relative))
            ||| occurs(slashed(relative), "/__tests__/"@)
            ||| file_name(relative) is Some && (occurs(file_name(relative)->0, ".test."@) || occurs(
                file_name(relative)->0,
                ".spec."@,
            ))
        }),
    ensures
        package_entries(
            start,
            workspace_root,
            context,
            configurations,
            files,
            asked,
            "test"@,
        )->Ok_0.entries.contains(files[f]),
{
    let package = context.package;
    let root = package.root;
    let prominent = root.len() == 0 || asked_for(package, asked);
    let first = with_configured(context.configured_entries, start, root, configurations, files);
    let second = match manifest_profiles_for(seq!["test"@], context.effective.targets) {
        Ok(profiles) => if !package.manifest.private || prominent {
            with_manifest(profiles, first, package, configurations, files)
        } else {
            first
        },
        Err(_) => first,
    };
    rest_grows(
        second,
        workspace_root,
        context,
        configurations,
        files,
        prominent,
        "test"@,
        0,
        f,
    );
    assert(conventional_entry("test"@, path_below(files[f], root)->0));
}

/// Where a user asks for entries, the scan starts from these and from no others; what is asked
/// for and is no file of the project is refused.
pub proof fn entries_asked_for_are_entries(
    items: Seq<Seq<PathPartModel>>,
    base: Seq<PathPartModel>,
    root: Seq<PathPartModel>,
    files: Seq<Seq<PathPartModel>>,
)
    ensures
        requested_entries(items, base, root, files) is Ok <==> forall|i: int|
            0 <= i < items.len() ==> files.contains(
                requested_entry(#[trigger] items[i], base, root),
            ),
        requested_entries(items, base, root, files) matches Ok(entries) ==> forall|
            v: Seq<PathPartModel>,
        | #[trigger]
            entries.contains(v) <==> exists|i: int|
                0 <= i < items.len() && v == requested_entry(#[trigger] items[i], base, root),
    decreases items.len(),
{
    if items.len() > 0 {
        let front = items.drop_last();
        let last = items.last();
        let own = requested_entry(last, base, root);
        entries_asked_for_are_entries(front, base, root, files);
        assert(items[items.len() - 1] == last);
        assert forall|i: int| 0 <= i < front.len() implies #[trigger] items[i] == front[i] by {}
        if requested_entries(items, base, root, files) is Ok {
            assert forall|i: int| 0 <= i < items.len() implies files.contains(
                requested_entry(#[trigger] items[i], base, root),
            ) by {
                if i < front.len() {
                    assert(files.contains(requested_entry(front[i], base, root)));
                }
            }
            let before = requested_entries(front, base, root, files)->Ok_0;
            let entries = requested_entries(items, base, root, files)->Ok_0;
            with_item_contains::<FilePath>(before, own);
            assert forall|v: Seq<PathPartModel>| #[trigger] entries.contains(v) <==> exists|i: int|
                0 <= i < items.len() && v == requested_entry(#[trigger] items[i], base, root) by {
                assert(entries.contains(v) <==> before.contains(v) || v == own);
                if before.contains(v) {
                    let i = choose|i: int|
                        0 <= i < front.len() && v == requested_entry(
                            #[trigger] front[i],
                            base,
                            root,
                        );
                    assert(v == requested_entry(items[i], base, root));
                }
                if v == own {
                    assert(v == requested_entry(items[items.len() - 1], base, root));
                }
                if exists|i: int|
                    0 <= i < items.len() && v == requested_entry(#[trigger] items[i], base, root) {
                    let i = choose|i: int|
                        0 <= i < items.len() && v == requested_entry(
                            #[trigger] items[i],
                            base,
                            root,
                        );
                    if i < front.len() {
                        assert(v == requested_entry(front[i], base, root));
                    }
                }
            }
        }
        if forall|i: int|
            0 <= i < items.len() ==> files.contains(
                requested_entry(#[trigger] items[i], base, root),
            ) {
            assert forall|i: int| 0 <= i < front.len() implies files.contains(
                requested_entry(#[trigger] front[i], base, root),
            ) by {
                assert(files.contains(requested_entry(items[i], base, root)));
            }
            assert(files.contains(requested_entry(items[items.len() - 1], base, root)));
        }
    }
}

proof fn remaining_files_hold(
    items: Seq<Seq<PathPartModel>>,
    project: WorkspaceDiscoveryModel,
    contexts: Seq<PackageContextModel>,
    v: Seq<PathPartModel>,
)
    ensures
        remaining_files(items, Seq::empty(), project, contexts).contains(v) <==> items.contains(v)
            && !is_left_out(v, project, contexts),
    decreases items.len(),
{
    if items.len() > 0 {
        let front = items.drop_last();
        remaining_files_hold(front, project, contexts, v);
        let rest = remaining_files(front, Seq::empty(), project, contexts);
        let all = remaining_files(items, Seq::empty(), project, contexts);
        if rest.contains(v) {
            let j = choose|j: int| 0 <= j < rest.len() && rest[j] == v;
            assert(all[j] == v);
        }
        if front.contains(v) {
            let j = choose|j: int| 0 <= j < front.len() && front[j] == v;
            assert(items[j] == v);
        }
        if items.last() == v {
            assert(items[items.len() - 1] == v);
            if !is_left_out(v, project, contexts) {
                assert(all[all.len() - 1] == v);
            }
        }
        if items.contains(v) && items.last() != v {
            let j = choose|j: int| 0 <= j < items.len() && items[j] == v;
            assert(front[j] == v);
        }
        if all.contains(v) && !rest.contains(v) {
            let j = choose|j: int| 0 <= j < all.len() && all[j] == v;
            if j < rest.len() {
                assert(rest[j] == v);
            }
        }
    }
}

/// A file is left out exactly where a rule of the package that holds it leaves it out, or the
/// plugins of every profile of that package do; all other files stay, and none is added.
pub proof fn files_stay_unless_left_out(
    items: Seq<Seq<PathPartModel>>,
    project: WorkspaceDiscoveryModel,
    contexts: Seq<PackageContextModel>,
    v: Seq<PathPartModel>,
)
    ensures
        ({
            let left = remaining_files(items, Seq::empty(), project, contexts);
            &&& left.contains(v) ==> items.contains(v)
            &&& context_place(project.packages, contexts, v) is None ==> (left.contains(v)
                <==> items.contains(v))
            &&& context_place(project.packages, contexts, v) matches Some(c) ==> {
                let context = contexts[c as int];
                let ruled_out = context.effective.ignore is Some && exists|r: int|
                    0 <= r < context.effective.ignore->0.len() && hits(
                        path_joined(project.workspace_root, context.ignore_base),
                        (#[trigger] context.effective.ignore->0[r]).pattern,
                        seen_from(v, context.ignore_base),
                    );
                &&& ruled_out ==> !left.contains(v)
                &&& !ruled_out && context.plugins_by_profile.len() == 0 ==> (left.contains(v)
                    <==> items.contains(v))
                &&& !ruled_out && (exists|i: int|
                    0 <= i < context.plugins_by_profile.len() && (
                    #[trigger] context.plugins_by_profile[i]).1.len() == 0) ==> (left.contains(v)
                    <==> items.contains(v))
            }
        }),
{
    remaining_files_hold(items, project, contexts, v);
    match context_place(project.packages, contexts, v) {
        Some(c) => {
            let context = contexts[c as int];
            let base = path_joined(project.workspace_root, context.ignore_base);
            let relative = seen_from(v, context.ignore_base);
            if context.effective.ignore is Some {
                let rules = context.effective.ignore->0;
                if rule_means_path(rules, base, relative) {
                    let r = choose|r: int|
                        0 <= r < rules.len() && rule_means_path_at(
                            #[trigger] rules[r],
                            base,
                            relative,
                        );
                    assert(hits(base, context.effective.ignore->0[r].pattern, relative));
                }
                if exists|r: int|
                    0 <= r < rules.len() && hits(
                        base,
                        (#[trigger] context.effective.ignore->0[r]).pattern,
                        relative,
                    ) {
                    let r = choose|r: int|
                        0 <= r < rules.len() && hits(
                            base,
                            (#[trigger] context.effective.ignore->0[r]).pattern,
                            relative,
                        );
                    assert(rule_means_path_at(rules[r], base, relative));
                }
            }
            let table = context.plugins_by_profile;
            if exists|i: int| 0 <= i < table.len() && (#[trigger] table[i]).1.len() == 0 {
                let i = choose|i: int| 0 <= i < table.len() && (#[trigger] table[i]).1.len() == 0;
                let root = path_joined(project.workspace_root, context.package.root);
                let own = seen_from(v, context.package.root);
                assert(!plugin_excludes(table[i].1, root, own));
                assert(profile_includes_at(table[i], root, own));
                assert(profile_includes(table, root, own));
            }
        },
        None => {},
    }
}

} // verus!
