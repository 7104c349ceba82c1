//! Where the modules of the packages of a project are found.

use crate::application::entries::{roots_for, source_of_entry};
use crate::application::exports::{
    configured_targets, expanded_export, export_targets, first_occurrences,
    first_occurrences_are_the_texts_once, gathered_modules, has_subpath, keyed, known_target,
    module_targets, normalized_target, subpath_exports, subpath_pairs, subpath_specifier,
    tidy_target, tidy_targets, with_expanded, with_export_modules, with_module_target,
    with_package_modules, with_profile_modules, with_root_modules,
};
use crate::application::resolution::WorkspaceModuleTargetModel;
use crate::application::targets::{conditions_for, manifest_profiles_for};
use crate::collections::{
    ascending, keys_of, lookup, lookup_after_with_entry, lookup_finds,
    lookup_other_after_with_entry,
};
use crate::discovery::workspace::{
    EntryTargetProfile, Json, PackageContextModel, PackageEntryRootModel, ProjectConfigurationModel,
    WorkspacePackageModel,
};
use crate::paths::{parsed, path_joined, slashed, PathPartModel};
use vstd::prelude::*;

verus! {

/// Whether the target holds the source for the kind of import that the profile stands for.
pub open spec fn holds_source(
    target: WorkspaceModuleTargetModel,
    profile: EntryTargetProfile,
    source: Seq<char>,
) -> bool {
    if profile == EntryTargetProfile::NodeRequire {
        target.common_js.contains(source)
    } else {
        target.esm.contains(source)
    }
}

/// Whether one of the targets is for the specifier and holds the source.
pub open spec fn leads_to_source(
    targets: Seq<WorkspaceModuleTargetModel>,
    specifier: Seq<char>,
    profile: EntryTargetProfile,
    source: Seq<char>,
) -> bool {
    exists|t: int|
        0 <= t < targets.len() && (#[trigger] targets[t]).specifier == specifier && holds_source(
            targets[t],
            profile,
            source,
        )
}

spec fn leads(
    table: Seq<(Seq<char>, WorkspaceModuleTargetModel)>,
    specifier: Seq<char>,
    profile: EntryTargetProfile,
    source: Seq<char>,
) -> bool {
    lookup(table, specifier) matches Some(target) && holds_source(target, profile, source)
}

spec fn is_table(table: Seq<(Seq<char>, WorkspaceModuleTargetModel)>) -> bool {
    &&& ascending::<String>(keys_of(table))
    &&& forall|s: Seq<char>|
        (#[trigger] lookup(table, s)) is Some ==> lookup(table, s)->0.specifier == s
}

spec fn keeps(
    a: Seq<(Seq<char>, WorkspaceModuleTargetModel)>,
    b: Seq<(Seq<char>, WorkspaceModuleTargetModel)>,
) -> bool {
    &&& forall|s: Seq<char>, p: EntryTargetProfile, source: Seq<char>| #[trigger]
        leads(a, s, p, source) ==> leads(b, s, p, source)
    &&& forall|s: Seq<char>| (#[trigger] lookup(a, s)) is Some ==> lookup(b, s) is Some
}

proof fn keeping_goes_on(
    a: Seq<(Seq<char>, WorkspaceModuleTargetModel)>,
    b: Seq<(Seq<char>, WorkspaceModuleTargetModel)>,
    c: Seq<(Seq<char>, WorkspaceModuleTargetModel)>,
)
    requires
        keeps(a, b),
        keeps(b, c),
    ensures
        keeps(a, c),
{
    assert forall|s: Seq<char>| (#[trigger] lookup(a, s)) is Some implies lookup(c, s) is Some by {
        assert(lookup(b, s) is Some);
    }
}

proof fn pushed_holds(items: Seq<Seq<char>>, item: Seq<char>, x: Seq<char>)
    ensures
        items.push(item).contains(item),
        items.contains(x) ==> items.push(item).contains(x),
{
    assert(items.push(item)[items.len() as int] == item);
    if items.contains(x) {
        let i = choose|i: int| 0 <= i < items.len() && items[i] == x;
        assert(items.push(item)[i] == x);
    }
}

proof fn one_module(
    table: Seq<(Seq<char>, WorkspaceModuleTargetModel)>,
    package: Seq<char>,
    specifier: Seq<char>,
    profile: EntryTargetProfile,
    source: Seq<char>,
)
    requires
        is_table(table),
    ensures
        is_table(with_module_target(table, package, specifier, profile, source)),
        keeps(table, with_module_target(table, package, specifier, profile, source)),
        leads(
            with_module_target(table, package, specifier, profile, source),
            specifier,
            profile,
            source,
        ),
{
    let all = with_module_target(table, package, specifier, profile, source);
    let before = known_target(table, package, specifier);
    let after = if profile == EntryTargetProfile::NodeRequire {
        WorkspaceModuleTargetModel { common_js: before.common_js.push(source), ..before }
    } else {
        WorkspaceModuleTargetModel { esm: before.esm.push(source), ..before }
    };
    lookup_after_with_entry::<String, WorkspaceModuleTargetModel>(table, specifier, after);
    pushed_holds(before.common_js, source, source);
    pushed_holds(before.esm, source, source);
    assert(before.specifier == specifier);
    assert forall|s: Seq<char>| s != specifier implies #[trigger] lookup(all, s) == lookup(
        table,
        s,
    ) by {
        lookup_other_after_with_entry::<String, WorkspaceModuleTargetModel>(
            table,
            specifier,
            after,
            s,
        );
    }
    assert forall|s: Seq<char>, p: EntryTargetProfile, x: Seq<char>| #[trigger]
        leads(table, s, p, x) implies leads(all, s, p, x) by {
        if s == specifier {
            pushed_holds(before.common_js, source, x);
            pushed_holds(before.esm, source, x);
        } else {
            assert(lookup(all, s) == lookup(table, s));
        }
    }
    assert forall|s: Seq<char>| (#[trigger] lookup(table, s)) is Some implies lookup(all, s)
        is Some by {
        if s != specifier {
            assert(lookup(all, s) == lookup(table, s));
        }
    }
    assert forall|s: Seq<char>| (#[trigger] lookup(all, s)) is Some implies lookup(
        all,
        s,
    )->0.specifier == s by {
        if s != specifier {
            assert(lookup(all, s) == lookup(table, s));
        }
    }
}

proof fn same_keeps(a: Seq<(Seq<char>, WorkspaceModuleTargetModel)>)
    ensures
        keeps(a, a),
{
}

proof fn root_modules(
    items: Seq<PackageEntryRootModel>,
    start: Seq<(Seq<char>, WorkspaceModuleTargetModel)>,
    root: Seq<PathPartModel>,
    name: Seq<char>,
    profile: EntryTargetProfile,
    configurations: Seq<ProjectConfigurationModel>,
    files: Seq<Seq<PathPartModel>>,
    m: int,
)
    requires
        is_table(start),
    ensures
        ({
            let all = with_root_modules(items, start, root, name, profile, configurations, files);
            &&& is_table(all)
            &&& keeps(start, all)
            &&& 0 <= m < items.len() ==> (source_of_entry(
                path_joined(root, items[m].path),
                configurations,
                files,
            ) matches Some(source) ==> leads(all, name, profile, slashed(source)))
        }),
    decreases items.len(),
{
    if items.len() > 0 {
        let front = items.drop_last();
        let last = items.last();
        root_modules(front, start, root, name, profile, configurations, files, m);
        let rest = with_root_modules(front, start, root, name, profile, configurations, files);
        let all = with_root_modules(items, start, root, name, profile, configurations, files);
        match source_of_entry(path_joined(root, last.path), configurations, files) {
            Some(source) => {
                one_module(rest, name, name, profile, slashed(source));
                keeping_goes_on(start, rest, all);
            },
            None => {},
        }
        if 0 <= m < front.len() {
            assert(front[m] == items[m]);
        }
    }
}

proof fn expanded_modules(
    items: Seq<(Seq<char>, Seq<char>)>,
    start: Seq<(Seq<char>, WorkspaceModuleTargetModel)>,
    name: Seq<char>,
    profile: EntryTargetProfile,
    m: int,
)
    requires
        is_table(start),
    ensures
        is_table(with_expanded(items, start, name, profile)),
        keeps(start, with_expanded(items, start, name, profile)),
        0 <= m < items.len() ==> leads(
            with_expanded(items, start, name, profile),
            items[m].0,
            profile,
            items[m].1,
        ),
    decreases items.len(),
{
    if items.len() > 0 {
        let front = items.drop_last();
        let last = items.last();
        expanded_modules(front, start, name, profile, m);
        let rest = with_expanded(front, start, name, profile);
        one_module(rest, name, last.0, profile, last.1);
        keeping_goes_on(start, rest, with_expanded(items, start, name, profile));
        if 0 <= m < front.len() {
            assert(front[m] == items[m]);
        }
    }
}

proof fn export_modules(
    items: Seq<(Seq<char>, Seq<char>)>,
    start: Seq<(Seq<char>, WorkspaceModuleTargetModel)>,
    root: Seq<PathPartModel>,
    name: Seq<char>,
    profile: EntryTargetProfile,
    configurations: Seq<ProjectConfigurationModel>,
    files: Seq<Seq<PathPartModel>>,
    m: int,
    q: int,
)
    requires
        is_table(start),
    ensures
        ({
            let all = with_export_modules(items, start, root, name, profile, configurations, files);
            &&& is_table(all)
            &&& keeps(start, all)
            &&& 0 <= m < items.len() ==> {
                let pairs = expanded_export(
                    root,
                    name,
                    items[m].0,
                    items[m].1,
                    configurations,
                    files,
                );
                0 <= q < pairs.len() ==> leads(all, pairs[q].0, profile, pairs[q].1)
            }
        }),
    decreases items.len(),
{
    if items.len() > 0 {
        let front = items.drop_last();
        let last = items.last();
        export_modules(front, start, root, name, profile, configurations, files, m, q);
        let rest = with_export_modules(front, start, root, name, profile, configurations, files);
        let all = with_export_modules(items, start, root, name, profile, configurations, files);
        let pairs = expanded_export(root, name, last.0, last.1, configurations, files);
        expanded_modules(pairs, rest, name, profile, q);
        keeping_goes_on(start, rest, all);
        if 0 <= m < front.len() {
            assert(front[m] == items[m]);
        }
    }
}

proof fn profile_modules(
    items: Seq<EntryTargetProfile>,
    start: Seq<(Seq<char>, WorkspaceModuleTargetModel)>,
    package: WorkspacePackageModel,
    name: Seq<char>,
    conditions: Seq<Seq<char>>,
    configurations: Seq<ProjectConfigurationModel>,
    files: Seq<Seq<PathPartModel>>,
    w: int,
    m: int,
    e: int,
    q: int,
)
    requires
        is_table(start),
    ensures
        ({
            let all = with_profile_modules(
                items,
                start,
                package,
                name,
                conditions,
                configurations,
                files,
            );
            &&& is_table(all)
            &&& keeps(start, all)
            &&& 0 <= w < items.len() ==> {
                let roots = roots_for(package, items[w]);
                let exports = subpath_exports(package.manifest, items[w], conditions);
                &&& 0 <= m < roots.len() ==> (source_of_entry(
                    path_joined(package.root, roots[m].path),
                    configurations,
                    files,
                ) matches Some(source) ==> leads(all, name, items[w], slashed(source)))
                &&& 0 <= e < exports.len() ==> {
                    let pairs = expanded_export(
                        package.root,
                        name,
                        exports[e].0,
                        exports[e].1,
                        configurations,
                        files,
                    );
                    0 <= q < pairs.len() ==> leads(all, pairs[q].0, items[w], pairs[q].1)
                }
            }
        }),
    decreases items.len(),
{
    if items.len() > 0 {
        let front = items.drop_last();
        let last = items.last();
        profile_modules(
            front,
            start,
            package,
            name,
            conditions,
            configurations,
            files,
            w,
            m,
            e,
            q,
        );
        let rest = with_profile_modules(
            front,
            start,
            package,
            name,
            conditions,
            configurations,
            files,
        );
        let roots = roots_for(package, last);
        let exports = subpath_exports(package.manifest, last, conditions);
        root_modules(roots, rest, package.root, name, last, configurations, files, m);
        let rooted = with_root_modules(
            roots,
            rest,
            package.root,
            name,
            last,
            configurations,
            files,
        );
        export_modules(exports, rooted, package.root, name, last, configurations, files, e, q);
        let all = with_profile_modules(
            items,
            start,
            package,
            name,
            conditions,
            configurations,
            files,
        );
        keeping_goes_on(rest, rooted, all);
        keeping_goes_on(start, rest, all);
        if 0 <= w < front.len() {
            assert(front[w] == items[w]);
        }
    }
}

proof fn package_modules(
    start: Seq<(Seq<char>, WorkspaceModuleTargetModel)>,
    package: WorkspacePackageModel,
    contexts: Seq<PackageContextModel>,
    configurations: Seq<ProjectConfigurationModel>,
    files: Seq<Seq<PathPartModel>>,
    profile: Seq<char>,
    w: int,
    m: int,
    e: int,
    q: int,
)
    requires
        is_table(start),
        with_package_modules(start, package, contexts, configurations, files, profile) is Ok,
    ensures
        ({
            let all = with_package_modules(
                start,
                package,
                contexts,
                configurations,
                files,
                profile,
            )->Ok_0;
            let own = configured_targets(package, contexts);
            &&& is_table(all)
            &&& keeps(start, all)
            &&& package.manifest.name matches Some(name) ==> {
                let wanted = manifest_profiles_for(seq![profile], own)->Ok_0;
                let conditions = conditions_for(seq![profile], own)->Ok_0;
                &&& lookup(all, name) is Some
                &&& 0 <= w < wanted.len() ==> {
                    let roots = roots_for(package, wanted[w]);
                    let exports = subpath_exports(package.manifest, wanted[w], conditions);
                    &&& 0 <= m < roots.len() ==> (source_of_entry(
                        path_joined(package.root, roots[m].path),
                        configurations,
                        files,
                    ) matches Some(source) ==> leads(all, name, wanted[w], slashed(source)))
                    &&& 0 <= e < exports.len() ==> {
                        let pairs = expanded_export(
                            package.root,
                            name,
                            exports[e].0,
                            exports[e].1,
                            configurations,
                            files,
                        );
                        0 <= q < pairs.len() ==> leads(all, pairs[q].0, wanted[w], pairs[q].1)
                    }
                }
            }
        }),
{
    same_keeps(start);
    match package.manifest.name {
        Some(name) => {
            let own = configured_targets(package, contexts);
            let wanted = manifest_profiles_for(seq![profile], own)->Ok_0;
            let conditions = conditions_for(seq![profile], own)->Ok_0;
            profile_modules(
                wanted,
                start,
                package,
                name,
                conditions,
                configurations,
                files,
                w,
                m,
                e,
                q,
            );
            let after = with_profile_modules(
                wanted,
                start,
                package,
                name,
                conditions,
                configurations,
                files,
            );
            if lookup(after, name) is None {
                let empty = crate::application::exports::empty_target(name, name);
                let all = with_package_modules(
                    start,
                    package,
                    contexts,
                    configurations,
                    files,
                    profile,
                )->Ok_0;
                lookup_after_with_entry::<String, WorkspaceModuleTargetModel>(after, name, empty);
                assert forall|s: Seq<char>| s != name implies #[trigger] lookup(all, s) == lookup(
                    after,
                    s,
                ) by {
                    lookup_other_after_with_entry::<String, WorkspaceModuleTargetModel>(
                        after,
                        name,
                        empty,
                        s,
                    );
                }
                assert(keeps(after, all)) by {
                    assert forall|s: Seq<char>, p: EntryTargetProfile, x: Seq<char>| #[trigger]
                        leads(after, s, p, x) implies leads(all, s, p, x) by {
                        assert(s != name);
                        assert(lookup(all, s) == lookup(after, s));
                    }
                    assert forall|s: Seq<char>| (
                    #[trigger] lookup(after, s)) is Some implies lookup(all, s) is Some by {
                        assert(lookup(all, s) == lookup(after, s));
                    }
                }
                assert forall|s: Seq<char>| (#[trigger] lookup(all, s)) is Some implies lookup(
                    all,
                    s,
                )->0.specifier == s by {
                    if s != name {
                        assert(lookup(all, s) == lookup(after, s));
                    }
                }
                keeping_goes_on(start, after, all);
            }
        },
        None => {},
    }
}

/// The modules of a package among those that come first, and all that follow.
proof fn gathered_keep(
    packages: Seq<WorkspacePackageModel>,
    contexts: Seq<PackageContextModel>,
    configurations: Seq<ProjectConfigurationModel>,
    files: Seq<Seq<PathPartModel>>,
    profile: Seq<char>,
    p: int,
    w: int,
    m: int,
    e: int,
    q: int,
)
    requires
        gathered_modules(packages, contexts, configurations, files, profile) is Ok,
    ensures
        ({
            let all = gathered_modules(packages, contexts, configurations, files, profile)->Ok_0;
            &&& is_table(all)
            &&& 0 <= p < packages.len() ==> {
                let package = packages[p];
                let own = configured_targets(package, contexts);
                package.manifest.name matches Some(name) ==> {
                    let wanted = manifest_profiles_for(seq![profile], own)->Ok_0;
                    let conditions = conditions_for(seq![profile], own)->Ok_0;
                    &&& lookup(all, name) is Some
                    &&& 0 <= w < wanted.len() ==> {
                        let roots = roots_for(package, wanted[w]);
                        let exports = subpath_exports(package.manifest, wanted[w], conditions);
                        &&& 0 <= m < roots.len() ==> (source_of_entry(
                            path_joined(package.root, roots[m].path),
                            configurations,
                            files,
                        ) matches Some(source) ==> leads(all, name, wanted[w], slashed(source)))
                        &&& 0 <= e < exports.len() ==> {
                            let pairs = expanded_export(
                                package.root,
                                name,
                                exports[e].0,
                                exports[e].1,
                                configurations,
                                files,
                            );
                            0 <= q < pairs.len() ==> leads(all, pairs[q].0, wanted[w], pairs[q].1)
                        }
                    }
                }
            }
        }),
    decreases packages.len(),
{
    if packages.len() == 0 {
        let none = gathered_modules(packages, contexts, configurations, files, profile)->Ok_0;
        assert(keys_of(none) =~= Seq::empty());
        assert forall|s: Seq<char>| (#[trigger] lookup(none, s)) is Some implies lookup(
            none,
            s,
        )->0.specifier == s by {}
    } else {
        let front = packages.drop_last();
        let last = packages.last();
        gathered_keep(front, contexts, configurations, files, profile, p, w, m, e, q);
        let rest = gathered_modules(front, contexts, configurations, files, profile)->Ok_0;
        package_modules(rest, last, contexts, configurations, files, profile, w, m, e, q);
        if 0 <= p < front.len() {
            assert(front[p] == packages[p]);
        }
    }
}

proof fn tables_lead(
    table: Seq<(Seq<char>, WorkspaceModuleTargetModel)>,
    specifier: Seq<char>,
    profile: EntryTargetProfile,
    source: Seq<char>,
)
    requires
        is_table(table),
        leads(table, specifier, profile, source),
    ensures
        leads_to_source(tidy_targets(table), specifier, profile, source),
{
    lookup_finds(table, specifier);
    let target = lookup(table, specifier)->0;
    let k = choose|k: int| 0 <= k < table.len() && table[k] == (specifier, target);
    first_occurrences_are_the_texts_once(target.esm);
    first_occurrences_are_the_texts_once(target.common_js);
    assert(tidy_targets(table)[k] == tidy_target(target));
    assert(first_occurrences(target.esm).contains(source) == target.esm.contains(source));
    assert(first_occurrences(target.common_js).contains(source) == target.common_js.contains(
        source,
    ));
    assert(holds_source(tidy_targets(table)[k], profile, source));
}

/// Every package of the project that has a name can be imported by it: there is a target for the
/// name. It leads to the sources of what the manifest of the package leads to, for each kind of
/// import that the profile stands for.
pub proof fn packages_lead_to_their_sources(
    packages: Seq<WorkspacePackageModel>,
    contexts: Seq<PackageContextModel>,
    configurations: Seq<ProjectConfigurationModel>,
    files: Seq<Seq<PathPartModel>>,
    profile: Seq<char>,
    p: int,
    w: int,
    m: int,
)
    requires
        module_targets(packages, contexts, configurations, files, profile) is Ok,
        0 <= p < packages.len(),
        packages[p].manifest.name is Some,
    ensures
        ({
            let targets = module_targets(
                packages,
                contexts,
                configurations,
                files,
                profile,
            )->Ok_0;
            let package = packages[p];
            let name = package.manifest.name->0;
            let wanted = manifest_profiles_for(
                seq![profile],
                configured_targets(package, contexts),
            )->Ok_0;
            &&& exists|t: int|
                0 <= t < targets.len() && (#[trigger] targets[t]).specifier == name
            &&& 0 <= w < wanted.len() && 0 <= m < roots_for(package, wanted[w]).len() ==> (
            source_of_entry(
                path_joined(package.root, roots_for(package, wanted[w])[m].path),
                configurations,
                files,
            ) matches Some(source) ==> leads_to_source(targets, name, wanted[w], slashed(source)))
        }),
{
    gathered_keep(packages, contexts, configurations, files, profile, p, w, m, 0, 0);
    let table = gathered_modules(packages, contexts, configurations, files, profile)->Ok_0;
    let package = packages[p];
    let name = package.manifest.name->0;
    let wanted = manifest_profiles_for(
        seq![profile],
        configured_targets(package, contexts),
    )->Ok_0;
    lookup_finds(table, name);
    let target = lookup(table, name)->0;
    let k = choose|k: int| 0 <= k < table.len() && table[k] == (name, target);
    let targets = module_targets(packages, contexts, configurations, files, profile)->Ok_0;
    assert(targets == tidy_targets(table));
    assert(targets[k] == tidy_target(target));
    assert(targets[k].specifier == name);
    if 0 <= w < wanted.len() && 0 <= m < roots_for(package, wanted[w]).len() {
        match source_of_entry(
            path_joined(package.root, roots_for(package, wanted[w])[m].path),
            configurations,
            files,
        ) {
            Some(source) => {
                tables_lead(table, name, wanted[w], slashed(source));
            },
            None => {},
        }
    }
}

proof fn plain_subpath_is_listed(
    members: Seq<(String, Json)>,
    conditions: Seq<Seq<char>>,
    q: int,
    target: Seq<char>,
) -> (e: int)
    requires
        0 <= q < members.len(),
        "./"@.is_prefix_of(members[q].0@),
        members[q].0@ != "."@,
        export_targets(members[q].1, conditions) == seq![target],
    ensures
        0 <= e < subpath_pairs(members, conditions).len(),
        subpath_pairs(members, conditions)[e] == (members[q].0@, target),
    decreases members.len(),
{
    let front = members.drop_last();
    let rest = subpath_pairs(front, conditions);
    if q < front.len() {
        let e = plain_subpath_is_listed(front, conditions, q, target);
        assert(subpath_pairs(members, conditions)[e] == rest[e]);
        e
    } else {
        let own = keyed(members[q].0@, seq![target]);
        assert(own[0] == (members[q].0@, target));
        assert(subpath_pairs(members, conditions)[rest.len() as int] == own[0]);
        rest.len() as int
    }
}

/// What a package exports under a path of its own can be imported by its name and that path, and
/// leads to the source of what is exported.
pub proof fn exported_paths_lead_to_their_sources(
    packages: Seq<WorkspacePackageModel>,
    contexts: Seq<PackageContextModel>,
    configurations: Seq<ProjectConfigurationModel>,
    files: Seq<Seq<PathPartModel>>,
    profile: Seq<char>,
    p: int,
    w: int,
    members: Seq<(String, Json)>,
    q: int,
    path: Seq<char>,
    target: Seq<char>,
    source: Seq<PathPartModel>,
)
    requires
        module_targets(packages, contexts, configurations, files, profile) is Ok,
        0 <= p < packages.len(),
        packages[p].manifest.name is Some,
        packages[p].manifest.exports matches Some(Json::Object(all)) && all@ == members,
        0 <= q < members.len(),
        members[q].0@ == "./"@ + path,
        !path.contains('*'),
        !("./"@.is_prefix_of(path)),
        members[q].1 matches Json::Text(text) && text@ == "./"@ + target,
        !target.contains('*'),
        0 <= w < manifest_profiles_for(
            seq![profile],
            configured_targets(packages[p], contexts),
        )->Ok_0.len(),
        source_of_entry(path_joined(packages[p].root, parsed(target)), configurations, files)
            == Some(source),
    ensures
        leads_to_source(
            module_targets(packages, contexts, configurations, files, profile)->Ok_0,
            packages[p].manifest.name->0 + "/"@ + path,
            manifest_profiles_for(
                seq![profile],
                configured_targets(packages[p], contexts),
            )->Ok_0[w],
            slashed(source),
        ),
{
    reveal_strlit("./");
    reveal_strlit(".");
    let package = packages[p];
    let name = package.manifest.name->0;
    let own = configured_targets(package, contexts);
    let wanted = manifest_profiles_for(seq![profile], own)->Ok_0;
    let conditions = conditions_for(seq![profile], own)->Ok_0;
    let key = members[q].0@;
    let text = "./"@ + target;
    assert("./"@ =~= key.subrange(0, 2));
    assert("."@ =~= key.subrange(0, 1));
    assert("."@.is_prefix_of(members[q].0@));
    assert(has_subpath(members));
    assert(key.len() >= 2);
    let all = crate::collections::with_items::<String>(
        conditions,
        crate::application::exports::profile_conditions(wanted[w]),
    );
    assert(export_targets(members[q].1, all) == seq![text]);
    let e = plain_subpath_is_listed(members, all, q, text);
    let exports = subpath_exports(package.manifest, wanted[w], conditions);
    assert(exports[e] == (key, text));
    assert(normalized_target(text) == target) by {
        assert("./"@ =~= text.subrange(0, 2));
        assert(text.skip(2) =~= target);
    }
    assert(!key.contains('*')) by {
        if key.contains('*') {
            let i = choose|i: int| 0 <= i < key.len() && key[i] == '*';
            if i >= 2 {
                assert(path[i - 2] == '*');
            }
        }
    }
    let pairs = expanded_export(package.root, name, key, text, configurations, files);
    assert(crate::application::exports::without_steps(key) == path) by {
        reveal_with_fuel(crate::application::exports::without_steps, 3);
        assert(key[0] == '.' && key[1] == '/');
        assert(key.skip(2) =~= path);
        if path.len() >= 2 && path[0] == '.' && path[1] == '/' {
            assert("./"@ =~= path.subrange(0, 2));
        }
    }
    assert(subpath_specifier(name, key) == name + "/"@ + path);
    assert(pairs[0] == (name + "/"@ + path, slashed(source)));
    gathered_keep(packages, contexts, configurations, files, profile, p, w, 0, e, 0);
    let table = gathered_modules(packages, contexts, configurations, files, profile)->Ok_0;
    tables_lead(table, name + "/"@ + path, wanted[w], slashed(source));
}

} // verus!
