//! Which files an import makes a file use.

use crate::analysis::packages::npm_package;
use crate::application::resolution::{
    edges_from, file_imports, files_for_mode, import_decision, place_of_display,
    place_of_physical, places_of, resolved_imports, target_of_specifier, with_edges,
    workspace_targets, AdditionalFileEdgeModel, ModuleResolutionModel, PreparedFileModel,
    ResolutionInputModel, SourceUniverseKind, WithEdgesModel, WorkspaceModuleTargetModel,
};
use crate::domain::facts::{
    Activation, AnalysisDiagnosticModel, ImportFactModel, ResolutionMode,
};
use crate::domain::report::ResolutionStatus;
use crate::paths::{
    extension_of, inert_extension, inside_archived_dependencies, path_below, source_extension,
    through_dependencies, PathPartModel,
};
use vstd::prelude::*;

verus! {

/// Whether no two files are at one place or called alike.
pub open spec fn told_apart(files: Seq<PreparedFileModel>) -> bool {
    &&& files.len() <= usize::MAX
    &&& forall|i: int, j: int|
        0 <= i < j < files.len() ==> (#[trigger] files[i]).physical_path != (
        #[trigger] files[j]).physical_path && files[i].display_path != files[j].display_path
}

/// Whether the workspace targets name the file for the specifier: the first target with that
/// specifier does so, in its list for `require` where that applies and is not empty.
pub open spec fn named_by_workspace(
    input: ResolutionInputModel,
    import: ImportFactModel,
    to: int,
) -> bool {
    exists|t: int|
        0 <= t < input.workspace_module_targets.len() && {
            let target = #[trigger] input.workspace_module_targets[t];
            &&& target.specifier == import.specifier
            &&& forall|s: int|
                0 <= s < t ==> (#[trigger] input.workspace_module_targets[s]).specifier
                    != import.specifier
            &&& import.resolution_mode == ResolutionMode::CommonJs && target.common_js.len() > 0
                ==> target.common_js.contains(input.files[to].display_path)
            &&& import.resolution_mode != ResolutionMode::CommonJs || target.common_js.len() == 0
                ==> target.esm.contains(input.files[to].display_path)
        }
}

/// Whether the workspace targets name some file of the project for the specifier.
pub open spec fn is_named_by_workspace(input: ResolutionInputModel, import: ImportFactModel) -> bool {
    exists|to: int| 0 <= to < input.files.len() && #[trigger] named_by_workspace(input, import, to)
}

/// Whether the resolver found the module in an archive of packages from elsewhere.
pub open spec fn found_in_archive(
    input: ResolutionInputModel,
    import: ImportFactModel,
    found: Seq<PathPartModel>,
) -> bool {
    &&& input.yarn_pnp
    &&& npm_package(import.specifier) is Some
    &&& inside_archived_dependencies(found)
    &&& forall|t: int|
        0 <= t < input.workspace_module_targets.len() ==> Some(
            (#[trigger] input.workspace_module_targets[t]).package,
        ) != npm_package(import.specifier)
}

/// Whether the resolver found the module in the file.
pub open spec fn found_by_resolver(
    input: ResolutionInputModel,
    import: ImportFactModel,
    resolution: ModuleResolutionModel,
    to: int,
) -> bool {
    match resolution {
        ModuleResolutionModel::File(file) => file.canonical == Some(input.files[to].physical_path)
            && !found_in_archive(input, import, file.path),
        _ => false,
    }
}

/// Whether an import makes the file that holds it use the file at the place `to`.
pub open spec fn import_uses(
    input: ResolutionInputModel,
    import: ImportFactModel,
    resolution: ModuleResolutionModel,
    to: int,
) -> bool {
    &&& import.activation != Activation::Deferred
    &&& named_by_workspace(input, import, to) || (!is_named_by_workspace(input, import)
        && found_by_resolver(input, import, resolution, to))
}

proof fn physical_place(files: Seq<PreparedFileModel>, path: Seq<PathPartModel>)
    requires
        files.len() <= usize::MAX,
    ensures
        match place_of_physical(files, path) {
            Some(k) => k < files.len() && files[k as int].physical_path == path && forall|i: int|
                k < i < files.len() ==> (#[trigger] files[i]).physical_path != path,
            None => forall|i: int|
                0 <= i < files.len() ==> (#[trigger] files[i]).physical_path != path,
        },
    decreases files.len(),
{
    if files.len() > 0 {
        physical_place(files.drop_last(), path);
        assert forall|i: int| 0 <= i < files.len() - 1 implies #[trigger] files[i]
            == files.drop_last()[i] by {}
    }
}

proof fn display_place(files: Seq<PreparedFileModel>, path: Seq<char>)
    requires
        files.len() <= usize::MAX,
    ensures
        match place_of_display(files, path) {
            Some(k) => k < files.len() && files[k as int].display_path == path && forall|i: int|
                k < i < files.len() ==> (#[trigger] files[i]).display_path != path,
            None => forall|i: int|
                0 <= i < files.len() ==> (#[trigger] files[i]).display_path != path,
        },
    decreases files.len(),
{
    if files.len() > 0 {
        display_place(files.drop_last(), path);
        assert forall|i: int| 0 <= i < files.len() - 1 implies #[trigger] files[i]
            == files.drop_last()[i] by {}
    }
}

proof fn places_hold(names: Seq<Seq<char>>, files: Seq<PreparedFileModel>, to: int)
    requires
        told_apart(files),
        0 <= to < files.len(),
    ensures
        places_of(names, files).contains(to as usize) <==> names.contains(files[to].display_path),
    decreases names.len(),
{
    let name = files[to].display_path;
    if names.len() > 0 {
        let front = names.drop_last();
        places_hold(front, files, to);
        display_place(files, names.last());
        let rest = places_of(front, files);
        let all = places_of(names, files);
        if rest.contains(to as usize) {
            let k = choose|k: int| 0 <= k < rest.len() && rest[k] == to as usize;
            assert(all[k] == to as usize);
        }
        if front.contains(name) {
            let k = choose|k: int| 0 <= k < front.len() && front[k] == name;
            assert(names[k] == name);
        }
        if names.last() == name {
            assert(names[names.len() - 1] == name);
            assert(place_of_display(files, name) == Some(to as usize));
            assert(all[all.len() - 1] == to as usize);
        }
        if all.contains(to as usize) && !rest.contains(to as usize) {
            let k = choose|k: int| 0 <= k < all.len() && all[k] == to as usize;
            if k < rest.len() {
                assert(rest[k] == to as usize);
            }
            assert(names.last() == name);
        }
        if names.contains(name) && names.last() != name {
            let k = choose|k: int| 0 <= k < names.len() && names[k] == name;
            assert(front[k] == name);
        }
    }
}

/// Every place is that of a file of the project.
proof fn places_lie_inside(names: Seq<Seq<char>>, files: Seq<PreparedFileModel>)
    requires
        files.len() <= usize::MAX,
    ensures
        forall|k: int|
            0 <= k < places_of(names, files).len() ==> #[trigger] places_of(names, files)[k]
                < files.len(),
    decreases names.len(),
{
    if names.len() > 0 {
        places_lie_inside(names.drop_last(), files);
        display_place(files, names.last());
        let rest = places_of(names.drop_last(), files);
        let all = places_of(names, files);
        assert forall|k: int| 0 <= k < all.len() implies #[trigger] all[k] < files.len() by {
            if k < rest.len() {
                assert(all[k] == rest[k]);
            }
        }
    }
}

proof fn first_target(targets: Seq<WorkspaceModuleTargetModel>, specifier: Seq<char>)
    ensures
        match target_of_specifier(targets, specifier) {
            Some(target) => exists|t: int|
                0 <= t < targets.len() && #[trigger] targets[t] == target && target.specifier
                    == specifier && forall|s: int|
                    0 <= s < t ==> (#[trigger] targets[s]).specifier != specifier,
            None => forall|s: int|
                0 <= s < targets.len() ==> (#[trigger] targets[s]).specifier != specifier,
        },
    decreases targets.len(),
{
    if targets.len() > 0 {
        let front = targets.drop_last();
        first_target(front, specifier);
        assert forall|i: int| 0 <= i < front.len() implies #[trigger] targets[i] == front[i] by {}
        match target_of_specifier(front, specifier) {
            Some(target) => {
                let t = choose|t: int|
                    0 <= t < front.len() && #[trigger] front[t] == target && target.specifier
                        == specifier && forall|s: int|
                        0 <= s < t ==> (#[trigger] front[s]).specifier != specifier;
                assert(targets[t] == target);
            },
            None => {
                assert(targets[targets.len() - 1] == targets.last());
            },
        }
    }
}

proof fn workspace_places(input: ResolutionInputModel, import: ImportFactModel, to: int)
    requires
        told_apart(input.files),
        0 <= to < input.files.len(),
    ensures
        workspace_targets(input, import).contains(to as usize) <==> named_by_workspace(
            input,
            import,
            to,
        ),
{
    let targets = input.workspace_module_targets;
    first_target(targets, import.specifier);
    match target_of_specifier(targets, import.specifier) {
        Some(target) => {
            let names = files_for_mode(target, import.resolution_mode);
            places_hold(names, input.files, to);
            let t = choose|t: int|
                0 <= t < targets.len() && #[trigger] targets[t] == target && target.specifier
                    == import.specifier && forall|s: int|
                    0 <= s < t ==> (#[trigger] targets[s]).specifier != import.specifier;
            assert(targets[t].specifier == import.specifier);
            if named_by_workspace(input, import, to) {
                let u = choose|u: int|
                    0 <= u < input.workspace_module_targets.len() && {
                        let target = #[trigger] input.workspace_module_targets[u];
                        &&& target.specifier == import.specifier
                        &&& forall|s: int|
                            0 <= s < u ==> (#[trigger] input.workspace_module_targets[s]).specifier
                                != import.specifier
                        &&& import.resolution_mode == ResolutionMode::CommonJs
                            && target.common_js.len() > 0 ==> target.common_js.contains(
                            input.files[to].display_path,
                        )
                        &&& import.resolution_mode != ResolutionMode::CommonJs
                            || target.common_js.len() == 0 ==> target.esm.contains(
                            input.files[to].display_path,
                        )
                    };
                assert(!(u < t));
                assert(!(t < u));
                assert(names.contains(input.files[to].display_path));
            }
            if names.contains(input.files[to].display_path) {
                assert(named_by_workspace(input, import, to));
            }
        },
        None => {},
    }
}

proof fn workspace_places_exist(input: ResolutionInputModel, import: ImportFactModel)
    requires
        told_apart(input.files),
    ensures
        workspace_targets(input, import).len() > 0 <==> is_named_by_workspace(input, import),
        forall|k: int|
            0 <= k < workspace_targets(input, import).len() ==> #[trigger] workspace_targets(
                input,
                import,
            )[k] < input.files.len(),
{
    let places = workspace_targets(input, import);
    match target_of_specifier(input.workspace_module_targets, import.specifier) {
        Some(target) => {
            places_lie_inside(files_for_mode(target, import.resolution_mode), input.files);
        },
        None => {},
    }
    if places.len() > 0 {
        workspace_places(input, import, places[0] as int);
        assert(places.contains(places[0]));
    }
    if is_named_by_workspace(input, import) {
        let to = choose|to: int|
            0 <= to < input.files.len() && #[trigger] named_by_workspace(input, import, to);
        workspace_places(input, import, to);
    }
}

/// An import makes its file use exactly the files that the workspace targets name for its
/// specifier; where they name none, the file in which the resolver found the module. That
/// holds of imports of every kind, of types or of values, but for those that take effect
/// later: they lead nowhere. An import that leads to a file is resolved, and no gap.
pub proof fn imports_lead_where_the_module_is(
    input: ResolutionInputModel,
    path: Seq<char>,
    import: ImportFactModel,
    resolution: ModuleResolutionModel,
    to: int,
)
    requires
        told_apart(input.files),
        0 <= to < input.files.len(),
    ensures
        ({
            let decision = import_decision(input, path, import, resolution);
            &&& decision.edges.contains(to as usize) <==> import_uses(input, import, resolution, to)
            &&& import_uses(input, import, resolution, to) ==> decision.status
                == ResolutionStatus::Resolved && decision.diagnostic is None && decision.target
                is Some
            &&& import.activation != Activation::Deferred && !is_named_by_workspace(input, import)
                && found_by_resolver(input, import, resolution, to) ==> decision.target == Some(
                input.files[to].display_path,
            )
            &&& import.activation == Activation::Deferred <==> decision.status
                == ResolutionStatus::Deferred
        }),
{
    workspace_places(input, import, to);
    workspace_places_exist(input, import);
    match resolution {
        ModuleResolutionModel::File(file) => {
            match file.canonical {
                Some(target) => {
                    physical_place(input.files, target);
                    match place_of_physical(input.files, target) {
                        Some(place) => {
                            assert(seq![place].contains(to as usize) <==> place == to as usize) by {
                                assert(seq![place][0] == place);
                            }
                        },
                        None => {},
                    }
                },
                None => {},
            }
        },
        _ => {},
    }
}

/// A module that is not in the project is no gap where the project declares its package, or
/// where the resolver found it among the installed packages or says that it is no file. The
/// packages of the project themselves are another matter.
pub proof fn packages_from_elsewhere_are_no_gap(
    input: ResolutionInputModel,
    path: Seq<char>,
    import: ImportFactModel,
    resolution: ModuleResolutionModel,
)
    requires
        told_apart(input.files),
        import.activation != Activation::Deferred,
        !is_named_by_workspace(input, import),
        forall|t: int|
            0 <= t < input.workspace_module_targets.len() ==> Some(
                (#[trigger] input.workspace_module_targets[t]).package,
            ) != npm_package(import.specifier),
        forall|to: int|
            0 <= to < input.files.len() ==> !#[trigger] found_by_resolver(
                input,
                import,
                resolution,
                to,
            ),
        match resolution {
            ModuleResolutionModel::External => true,
            ModuleResolutionModel::File(file) => file.canonical is Some && through_dependencies(
                file.canonical->0,
            ),
            ModuleResolutionModel::Failed => npm_package(import.specifier) is Some
                && input.external_packages.contains(npm_package(import.specifier)->0),
        },
    ensures
        ({
            let decision = import_decision(input, path, import, resolution);
            &&& decision.status == ResolutionStatus::External
            &&& decision.diagnostic is None
            &&& decision.edges.len() == 0
        }),
{
    workspace_places_exist(input, import);
    match resolution {
        ModuleResolutionModel::File(file) => {
            physical_place(input.files, file.canonical->0);
            match place_of_physical(input.files, file.canonical->0) {
                Some(place) => {
                    assert(!found_by_resolver(input, import, resolution, place as int));
                },
                None => {},
            }
        },
        _ => {},
    }
}

/// A module that the resolver does not find is a gap, unless its package is declared and is
/// none of the project; so is a file whose own place cannot be told, and a package of the
/// project that the resolver takes for one from elsewhere. The gap is said of the import.
pub proof fn modules_that_are_not_found_are_gaps(
    input: ResolutionInputModel,
    path: Seq<char>,
    import: ImportFactModel,
    resolution: ModuleResolutionModel,
)
    requires
        told_apart(input.files),
        import.activation != Activation::Deferred,
        !is_named_by_workspace(input, import),
        ({
            let of_project = exists|t: int|
                0 <= t < input.workspace_module_targets.len() && Some(
                    (#[trigger] input.workspace_module_targets[t]).package,
                ) == npm_package(import.specifier);
            match resolution {
                ModuleResolutionModel::External => of_project,
                ModuleResolutionModel::File(file) => file.canonical is None && !found_in_archive(
                    input,
                    import,
                    file.path,
                ),
                ModuleResolutionModel::Failed => of_project || npm_package(import.specifier) is None
                    || !input.external_packages.contains(npm_package(import.specifier)->0),
            }
        }),
    ensures
        ({
            let decision = import_decision(input, path, import, resolution);
            &&& decision.status == ResolutionStatus::Unresolved || decision.status
                == ResolutionStatus::Unsupported
            &&& decision.edges.len() == 0
            &&& decision.diagnostic is Some
            &&& decision.diagnostic->0.blocks_reachability
            &&& decision.diagnostic->0.path == path
            &&& decision.diagnostic->0.span == Some(import.span)
        }),
{
    workspace_places_exist(input, import);
}

proof fn file_edges(
    input: ResolutionInputModel,
    file: usize,
    imports: Seq<ImportFactModel>,
    resolutions: Seq<ModuleResolutionModel>,
    from: usize,
    to: int,
)
    requires
        told_apart(input.files),
        0 <= to < input.files.len(),
    ensures
        file_imports(input, file, imports, resolutions).edges.contains((from, to as usize))
            <==> from == file && exists|i: int|
            0 <= i < imports.len() && import_uses(
                input,
                #[trigger] imports[i],
                resolutions[i],
                to,
            ),
    decreases imports.len(),
{
    let all = file_imports(input, file, imports, resolutions).edges;
    let edge = (from, to as usize);
    if imports.len() > 0 {
        let front = imports.drop_last();
        let n = imports.len() - 1;
        file_edges(input, file, front, resolutions, from, to);
        let rest = file_imports(input, file, front, resolutions).edges;
        let path = input.files[file as int].display_path;
        let decision = import_decision(input, path, imports.last(), resolutions[n]);
        imports_lead_where_the_module_is(input, path, imports.last(), resolutions[n], to);
        let own = edges_from(file, decision.edges);
        assert(all == rest + own);
        if rest.contains(edge) {
            let k = choose|k: int| 0 <= k < rest.len() && rest[k] == edge;
            assert(all[k] == edge);
            let i = choose|i: int|
                0 <= i < front.len() && import_uses(input, #[trigger] front[i], resolutions[i], to);
            assert(imports[i] == front[i]);
        }
        if from == file && import_uses(input, imports.last(), resolutions[n], to) {
            let k = choose|k: int|
                0 <= k < decision.edges.len() && decision.edges[k] == to as usize;
            assert(own[k] == edge);
            assert(all[rest.len() + k] == edge);
        }
        if all.contains(edge) {
            let k = choose|k: int| 0 <= k < all.len() && all[k] == edge;
            if k < rest.len() {
                assert(rest[k] == edge);
            } else {
                assert(own[k - rest.len()] == edge);
                assert(decision.edges[k - rest.len()] == to as usize);
                assert(import_uses(input, imports[n], resolutions[n], to));
            }
        }
        if from == file && exists|i: int|
            0 <= i < imports.len() && import_uses(
                input,
                #[trigger] imports[i],
                resolutions[i],
                to,
            ) {
            let i = choose|i: int|
                0 <= i < imports.len() && import_uses(
                    input,
                    #[trigger] imports[i],
                    resolutions[i],
                    to,
                );
            if i < n {
                assert(front[i] == imports[i]);
                assert(rest.contains(edge));
            }
        }
    }
}

/// Of all imports of all files, exactly those that lead to a file of the project make one
/// file use another: each such use is an edge, and there are no other edges.
pub proof fn edges_are_what_imports_use(
    input: ResolutionInputModel,
    imports: Seq<Seq<ImportFactModel>>,
    diagnostics: Seq<Seq<AnalysisDiagnosticModel>>,
    resolutions: Seq<Seq<ModuleResolutionModel>>,
    from: int,
    to: int,
)
    requires
        told_apart(input.files),
        imports.len() <= input.files.len(),
        0 <= from < input.files.len(),
        0 <= to < input.files.len(),
    ensures
        resolved_imports(input, imports, diagnostics, resolutions).edges.contains(
            (from as usize, to as usize),
        ) <==> from < imports.len() && exists|i: int|
            0 <= i < imports[from].len() && import_uses(
                input,
                #[trigger] imports[from][i],
                resolutions[from][i],
                to,
            ),
    decreases imports.len(),
{
    let edge = (from as usize, to as usize);
    if imports.len() > 0 {
        let n = imports.len() - 1;
        let front = imports.drop_last();
        edges_are_what_imports_use(input, front, diagnostics, resolutions, from, to);
        file_edges(input, n as usize, imports.last(), resolutions[n], from as usize, to);
        let rest = resolved_imports(input, front, diagnostics, resolutions).edges;
        let own = file_imports(input, n as usize, imports.last(), resolutions[n]).edges;
        let all = resolved_imports(input, imports, diagnostics, resolutions).edges;
        assert(all == rest + own);
        if rest.contains(edge) {
            let k = choose|k: int| 0 <= k < rest.len() && rest[k] == edge;
            assert(all[k] == edge);
        }
        if own.contains(edge) {
            let k = choose|k: int| 0 <= k < own.len() && own[k] == edge;
            assert(all[rest.len() + k] == edge);
        }
        if all.contains(edge) {
            let k = choose|k: int| 0 <= k < all.len() && all[k] == edge;
            if k < rest.len() {
                assert(rest[k] == edge);
            } else {
                assert(own[k - rest.len()] == edge);
            }
        }
        if from < n {
            assert(front[from] == imports[from]);
        }
    }
}

/// Whether one of the uses that no import shows is of the file at `to` by the file at `from`.
pub open spec fn added_use(
    files: Seq<PreparedFileModel>,
    additional: Seq<AdditionalFileEdgeModel>,
    from: int,
    to: int,
) -> bool {
    exists|k: int|
        0 <= k < additional.len() && (#[trigger] additional[k]).from == files[from].display_path
            && additional[k].to == files[to].display_path
}

/// Uses that no import shows are added, each between the files that it names, and no others.
pub proof fn added_uses_become_edges(
    start: WithEdgesModel,
    files: Seq<PreparedFileModel>,
    additional: Seq<AdditionalFileEdgeModel>,
    from: int,
    to: int,
)
    requires
        told_apart(files),
        0 <= from < files.len(),
        0 <= to < files.len(),
    ensures
        with_edges(start, files, additional).edges.contains((from as usize, to as usize))
            <==> start.edges.contains((from as usize, to as usize)) || added_use(
            files,
            additional,
            from,
            to,
        ),
    decreases additional.len(),
{
    let edge = (from as usize, to as usize);
    if additional.len() > 0 {
        let front = additional.drop_last();
        let last = additional.last();
        added_uses_become_edges(start, files, front, from, to);
        display_place(files, last.from);
        display_place(files, last.to);
        let rest = with_edges(start, files, front).edges;
        let all = with_edges(start, files, additional).edges;
        if rest.contains(edge) {
            let k = choose|k: int| 0 <= k < rest.len() && rest[k] == edge;
            assert(all[k] == edge);
        }
        if added_use(files, front, from, to) {
            let k = choose|k: int|
                0 <= k < front.len() && (#[trigger] front[k]).from == files[from].display_path
                    && front[k].to == files[to].display_path;
            assert(additional[k] == front[k]);
        }
        if last.from == files[from].display_path && last.to == files[to].display_path {
            assert(place_of_display(files, last.from) == Some(from as usize));
            assert(place_of_display(files, last.to) == Some(to as usize));
            assert(all[all.len() - 1] == edge);
            assert(additional[additional.len() - 1] == last);
            assert(added_use(files, additional, from, to));
        }
        if all.contains(edge) && !rest.contains(edge) {
            let k = choose|k: int| 0 <= k < all.len() && all[k] == edge;
            if k < rest.len() {
                assert(rest[k] == edge);
            }
            assert(last.from == files[from].display_path);
            assert(last.to == files[to].display_path);
        }
        if added_use(files, additional, from, to) {
            let k = choose|k: int|
                0 <= k < additional.len() && (#[trigger] additional[k]).from
                    == files[from].display_path && additional[k].to == files[to].display_path;
            if k < front.len() {
                assert(front[k] == additional[k]);
            }
        }
    }
}

/// What becomes of an import that the resolver found in a file which is not looked at. Outside
/// the root of the project, and not among installed packages, it is a gap. Inside it, an asset
/// is none; a file of a kind that is not understood is one; and a source is one where the files
/// were given, while it is only told of where they were discovered, which leaves files out on
/// purpose.
pub proof fn files_that_are_not_looked_at(
    input: ResolutionInputModel,
    path: Seq<char>,
    import: ImportFactModel,
    resolution: ModuleResolutionModel,
    place: Seq<PathPartModel>,
)
    requires
        told_apart(input.files),
        import.activation != Activation::Deferred,
        !is_named_by_workspace(input, import),
        resolution matches ModuleResolutionModel::File(file) && file.canonical == Some(place)
            && !found_in_archive(input, import, file.path),
        forall|k: int|
            0 <= k < input.files.len() ==> (#[trigger] input.files[k]).physical_path != place,
        !through_dependencies(place),
    ensures
        ({
            let decision = import_decision(input, path, import, resolution);
            let inside = input.root.is_prefix_of(place);
            let asset = inert_extension(extension_of(place));
            let source = source_extension(extension_of(place));
            let gap = decision.diagnostic is Some && decision.diagnostic->0.blocks_reachability
                && decision.diagnostic->0.span == Some(import.span)
                && decision.diagnostic->0.path == path;
            &&& decision.edges.len() == 0
            &&& !inside ==> gap && decision.status == ResolutionStatus::Unresolved
            &&& inside && asset ==> decision.status == ResolutionStatus::External
                && decision.diagnostic is None
            &&& inside && !asset && !source ==> gap && decision.status
                == ResolutionStatus::Unsupported
            &&& inside && !asset && source && input.universe_kind == SourceUniverseKind::Explicit
                ==> gap && decision.status == ResolutionStatus::Unresolved
            &&& inside && !asset && source && input.universe_kind == SourceUniverseKind::Discovered
                ==> decision.status == ResolutionStatus::External && decision.diagnostic is Some
                && !decision.diagnostic->0.blocks_reachability
        }),
{
    workspace_places_exist(input, import);
    physical_place(input.files, place);
    if input.root.is_prefix_of(place) {
        assert(place.take(input.root.len() as int) =~= input.root);
    }
    if path_below(place, input.root) is Some {
        assert(input.root =~= place.subrange(0, input.root.len() as int));
    }
}

} // verus!
