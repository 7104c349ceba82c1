//! What configurations and plugins make of the files of a project.

use crate::analysis::members::{analysis_mode_name, mode_name, AnalysisMode};
use crate::application::entries::{below, files_below, relative_below};
use crate::application::notices::{path_in, workspace_manifest_path};
use crate::application::patterns::{hits, hits_among, matches_among, pattern_matches};
use crate::application::policy::{relative_to, seen_from};
use crate::application::resolution::{AdditionalFileEdge, AdditionalFileEdgeModel};
use crate::application::scan::AnalysisLimits;
use crate::collections::{lookup, with_entry, with_item, OrderedMap, OrderedSet};
use crate::discovery::workspace::{
    context_for_path, context_place, PackageContext, PackageContextModel, PatternRule,
    PatternRuleModel, WorkspaceDiscovery, WorkspaceDiscoveryModel,
};
use crate::domain::facts::{AnalysisDiagnostic, AnalysisDiagnosticModel, DiagnosticSeverity};
use crate::domain::target::WorldMode;
use crate::paths::{path_joined, slashed, with_extension_of, written, FilePath, PathPartModel};
use crate::plugins::contract::{
    DetectedBuiltinPlugin, DetectedBuiltinPluginModel, DynamicImportContribution,
    DynamicImportContributionModel, FileEdgeContribution, FileEdgeContributionModel,
    FileTransformContribution, FileTransformContributionModel, PatternContribution,
    PatternContributionModel,
};
use crate::text::{concat2, same, concat3, concat4, chars_of, decimal, digits, slice};
use crate::values::{push_item, Value};
use vstd::prelude::*;

verus! {

/// Whether some rule at a directory means a path.
pub open spec fn rule_means_path(
    items: Seq<PatternRuleModel>,
    root: Seq<PathPartModel>,
    relative: Seq<PathPartModel>,
) -> bool {
    exists|i: int| 0 <= i < items.len() && rule_means_path_at(#[trigger] items[i], root, relative)
}

/// Whether this holds of one.
pub open spec fn rule_means_path_at(
    item: PatternRuleModel,
    root: Seq<PathPartModel>,
    relative: Seq<PathPartModel>,
) -> bool {
    hits(root, item.pattern, relative)
}

fn any_rule_means(items: &Vec<PatternRule>, root: &FilePath, relative: &FilePath) -> (r: bool)
    ensures
        r == rule_means_path(items.deep_view(), root.deep_view(), relative.deep_view()),
{
    let ghost root_model = root.deep_view();
    let ghost relative_model = relative.deep_view();
    let ghost model = items.deep_view();
    let mut i: usize = 0;
    while i < items.len()
        invariant
            i <= items.len(),
            model == items.deep_view(),
            root_model == root.deep_view(),
            relative_model == relative.deep_view(),
            forall|k: int| 0 <= k < i ==> !rule_means_path_at(#[trigger] model[k], root_model, relative_model),
        decreases items.len() - i,
    {
        assert(model[i as int] == items@[i as int].deep_view());
        let item: &PatternRule = &items[i];
        if pattern_matches(root, &item.pattern, relative) {
            return true;
        }
        i = i + 1;
    }
    false
}

/// Whether some pattern at a directory means a path.
pub open spec fn pattern_means_path(
    items: Seq<PatternContributionModel>,
    root: Seq<PathPartModel>,
    relative: Seq<PathPartModel>,
) -> bool {
    exists|i: int| 0 <= i < items.len() && pattern_means_path_at(#[trigger] items[i], root, relative)
}

/// Whether this holds of one.
pub open spec fn pattern_means_path_at(
    item: PatternContributionModel,
    root: Seq<PathPartModel>,
    relative: Seq<PathPartModel>,
) -> bool {
    hits(root, item.pattern, relative)
}

fn any_pattern_means(
    items: &Vec<PatternContribution>,
    root: &FilePath,
    relative: &FilePath,
) -> (r: bool)
    ensures
        r == pattern_means_path(items.deep_view(), root.deep_view(), relative.deep_view()),
{
    let ghost root_model = root.deep_view();
    let ghost relative_model = relative.deep_view();
    let ghost model = items.deep_view();
    let mut i: usize = 0;
    while i < items.len()
        invariant
            i <= items.len(),
            model == items.deep_view(),
            root_model == root.deep_view(),
            relative_model == relative.deep_view(),
            forall|k: int| 0 <= k < i ==> !pattern_means_path_at(#[trigger] model[k], root_model, relative_model),
        decreases items.len() - i,
    {
        assert(model[i as int] == items@[i as int].deep_view());
        let item: &PatternContribution = &items[i];
        if pattern_matches(root, &item.pattern, relative) {
            return true;
        }
        i = i + 1;
    }
    false
}

/// Whether some plugin leaves a path out.
pub open spec fn plugin_excludes(
    items: Seq<DetectedBuiltinPluginModel>,
    root: Seq<PathPartModel>,
    relative: Seq<PathPartModel>,
) -> bool {
    exists|i: int| 0 <= i < items.len() && plugin_excludes_at(#[trigger] items[i], root, relative)
}

/// Whether this holds of one.
pub open spec fn plugin_excludes_at(
    item: DetectedBuiltinPluginModel,
    root: Seq<PathPartModel>,
    relative: Seq<PathPartModel>,
) -> bool {
    pattern_means_path(item.plugin.contributions.exclusion_patterns, root, relative)
}

fn any_plugin_excludes(
    items: &Vec<DetectedBuiltinPlugin>,
    root: &FilePath,
    relative: &FilePath,
) -> (r: bool)
    ensures
        r == plugin_excludes(items.deep_view(), root.deep_view(), relative.deep_view()),
{
    let ghost root_model = root.deep_view();
    let ghost relative_model = relative.deep_view();
    let ghost model = items.deep_view();
    let mut i: usize = 0;
    while i < items.len()
        invariant
            i <= items.len(),
            model == items.deep_view(),
            root_model == root.deep_view(),
            relative_model == relative.deep_view(),
            forall|k: int| 0 <= k < i ==> !plugin_excludes_at(#[trigger] model[k], root_model, relative_model),
        decreases items.len() - i,
    {
        assert(model[i as int] == items@[i as int].deep_view());
        let item: &DetectedBuiltinPlugin = &items[i];
        if any_pattern_means(&item.plugin.contributions.exclusion_patterns, root, relative) {
            return true;
        }
        i = i + 1;
    }
    false
}

/// Whether no plugin leaves a path out in some target profile.
pub open spec fn profile_includes(
    items: Seq<(Seq<char>, Seq<DetectedBuiltinPluginModel>)>,
    root: Seq<PathPartModel>,
    relative: Seq<PathPartModel>,
) -> bool {
    exists|i: int| 0 <= i < items.len() && profile_includes_at(#[trigger] items[i], root, relative)
}

/// Whether this holds of one.
pub open spec fn profile_includes_at(
    item: (Seq<char>, Seq<DetectedBuiltinPluginModel>),
    root: Seq<PathPartModel>,
    relative: Seq<PathPartModel>,
) -> bool {
    !plugin_excludes(item.1, root, relative)
}

fn any_profile_includes(
    items: &Vec<(String, Vec<DetectedBuiltinPlugin>)>,
    root: &FilePath,
    relative: &FilePath,
) -> (r: bool)
    ensures
        r == profile_includes(items.deep_view(), root.deep_view(), relative.deep_view()),
{
    let ghost root_model = root.deep_view();
    let ghost relative_model = relative.deep_view();
    let ghost model = items.deep_view();
    let mut i: usize = 0;
    while i < items.len()
        invariant
            i <= items.len(),
            model == items.deep_view(),
            root_model == root.deep_view(),
            relative_model == relative.deep_view(),
            forall|k: int| 0 <= k < i ==> !profile_includes_at(#[trigger] model[k], root_model, relative_model),
        decreases items.len() - i,
    {
        assert(model[i as int] == items@[i as int].deep_view());
        let item: &(String, Vec<DetectedBuiltinPlugin>) = &items[i];
        if !any_plugin_excludes(&item.1, root, relative) {
            return true;
        }
        i = i + 1;
    }
    false
}

/// Whether a file is left out: by a rule of its package, or by plugins in every target
/// profile.
pub open spec fn is_left_out(
    path: Seq<PathPartModel>,
    project: WorkspaceDiscoveryModel,
    contexts: Seq<PackageContextModel>,
) -> bool {
    match context_place(project.packages, contexts, path) {
        Some(place) => {
            let context = contexts[place as int];
            let root = context.package.root;
            ||| match context.effective.ignore {
                Some(rules) => rule_means_path(
                    rules,
                    path_joined(project.workspace_root, context.ignore_base),
                    seen_from(path, context.ignore_base),
                ),
                None => false,
            }
            ||| context.plugins_by_profile.len() > 0 && !profile_includes(
                context.plugins_by_profile,
                path_joined(project.workspace_root, root),
                seen_from(path, root),
            )
        },
        None => false,
    }
}

fn is_path_left_out(
    path: &FilePath,
    project: &WorkspaceDiscovery,
    contexts: &Vec<PackageContext>,
) -> (r: bool)
    ensures
        r == is_left_out(path.deep_view(), project.deep_view(), contexts.deep_view()),
{
    match context_for_path(project, contexts, path) {
        Some(place) => {
            assert(contexts.deep_view()[place as int] == contexts@[place as int].deep_view());
            let context: &PackageContext = &contexts[place];
            let configured: bool = match &context.effective.ignore {
                Some(rules) => any_rule_means(
                    rules,
                    &project.workspace_root.join(&context.ignore_base),
                    &relative_to(path, &context.ignore_base),
                ),
                None => false,
            };
            if configured {
                return true;
            }
            let root: &FilePath = &context.package.root;
            let entries: &Vec<(String, Vec<DetectedBuiltinPlugin>)> =
                context.plugins_by_profile.entries();
            assert(entries.deep_view() =~= context.plugins_by_profile.deep_view());
            entries.len() > 0 && !any_profile_includes(
                entries,
                &project.workspace_root.join(root),
                &relative_to(path, root),
            )
        },
        None => false,
    }
}

/// Files with those that are not left out.
pub open spec fn remaining_files(
    items: Seq<Seq<PathPartModel>>,
    start: Seq<Seq<PathPartModel>>,
    project: WorkspaceDiscoveryModel,
    contexts: Seq<PackageContextModel>,
) -> Seq<Seq<PathPartModel>>
    decreases items.len(),
{
    if items.len() == 0 {
        start
    } else {
        let rest = remaining_files(items.drop_last(), start, project, contexts);
        let last = items.last();
        if !is_left_out(last, project, contexts) {
            rest.push(last)
        } else {
            rest
        }
    }
}

fn choose_files(
    items: &Vec<FilePath>,
    project: &WorkspaceDiscovery,
    contexts: &Vec<PackageContext>,
    out: &mut Vec<FilePath>,
)
    ensures
        final(out).deep_view() == remaining_files(items.deep_view(), old(out).deep_view(), project.deep_view(), contexts.deep_view()),
{
    let ghost start = out.deep_view();
    let ghost project_model = project.deep_view();
    let ghost contexts_model = contexts.deep_view();
    let ghost model = items.deep_view();
    let mut i: usize = 0;
    while i < items.len()
        invariant
            i <= items.len(),
            model == items.deep_view(),
            project_model == project.deep_view(),
            contexts_model == contexts.deep_view(),
            out.deep_view() =~= remaining_files(model.take(i as int), start, project_model, contexts_model),
        decreases items.len() - i,
    {
        proof {
            assert(model.take(i + 1).drop_last() =~= model.take(i as int));
            assert(model.take(i + 1).last() == items@[i as int].deep_view());
        }
        let item: &FilePath = &items[i];
        if !is_path_left_out(item, project, contexts) {
            push_item(out, item.replicate());
        }
        i = i + 1;
    }
    assert(model.take(i as int) =~= model);
}

/// Leaves out the files that rules or plugins leave out.
pub fn apply_ignore_rules(
    files: &mut Vec<FilePath>,
    workspace: &WorkspaceDiscovery,
    contexts: &Vec<PackageContext>,
)
    ensures
        final(files).deep_view() == remaining_files(
            old(files).deep_view(),
            Seq::empty(),
            workspace.deep_view(),
            contexts.deep_view(),
        ),
{
    let mut remaining: Vec<FilePath> = Vec::new();
    assert(remaining.deep_view() =~= Seq::empty());
    choose_files(&*files, workspace, contexts, &mut remaining);
    *files = remaining;
}

/// The marked ones of some paths.
pub open spec fn marked(items: Seq<Seq<PathPartModel>>, marks: Seq<bool>) -> Seq<Seq<PathPartModel>>
    decreases items.len(),
{
    if items.len() == 0 {
        Seq::empty()
    } else {
        let rest = marked(items.drop_last(), marks);
        let last = items.last();
        if marks[items.len() - 1] { rest.push(last) } else { rest }
    }
}

/// The marked ones of some paths.
#[must_use]
pub fn choose_marked(paths: &Vec<FilePath>, marks: &Vec<bool>) -> (r: Vec<FilePath>)
    requires
        marks@.len() == paths@.len(),
    ensures
        r.deep_view() == marked(paths.deep_view(), marks@),
{
    let mut out: Vec<FilePath> = Vec::new();
    let ghost model = paths.deep_view();
    let mut i: usize = 0;
    while i < paths.len()
        invariant
            i <= paths.len(),
            model == paths.deep_view(),
            marks@.len() == paths@.len(),
            out.deep_view() =~= marked(model.take(i as int), marks@),
        decreases paths.len() - i,
    {
        proof {
            assert(model.take(i + 1).drop_last() =~= model.take(i as int));
            assert(model.take(i + 1).last() == paths@[i as int].deep_view());
        }
        if marks[i] {
            push_item(&mut out, paths[i].replicate());
        }
        i = i + 1;
    }
    assert(model.take(i as int) =~= model);
    out
}

/// Edges with those from a file to others.
pub open spec fn with_targets(
    items: Seq<Seq<PathPartModel>>,
    start: Seq<AdditionalFileEdgeModel>,
    from: Seq<char>,
    reason: Seq<char>,
) -> Seq<AdditionalFileEdgeModel>
    decreases items.len(),
{
    if items.len() == 0 {
        start
    } else {
        let rest = with_targets(items.drop_last(), start, from, reason);
        let last = items.last();
        with_item::<AdditionalFileEdge>(
            rest,
            AdditionalFileEdgeModel { from, to: slashed(last), reason },
        )
    }
}

/// Edges with those from each of some files to each of others.
pub open spec fn with_crossed(
    items: Seq<Seq<PathPartModel>>,
    start: Seq<AdditionalFileEdgeModel>,
    targets: Seq<Seq<PathPartModel>>,
    reason: Seq<char>,
) -> Seq<AdditionalFileEdgeModel>
    decreases items.len(),
{
    if items.len() == 0 {
        start
    } else {
        let rest = with_crossed(items.drop_last(), start, targets, reason);
        let last = items.last();
        with_targets(targets, rest, slashed(last), reason)
    }
}

fn add_targets(
    targets: &Vec<FilePath>,
    from: &str,
    reason: &str,
    edges: &mut OrderedSet<AdditionalFileEdge>,
)
    ensures
        final(edges).deep_view() == with_targets(
            targets.deep_view(),
            old(edges).deep_view(),
            from@,
            reason@,
        ),
{
    let ghost start = edges.deep_view();
    let ghost model = targets.deep_view();
    let mut i: usize = 0;
    while i < targets.len()
        invariant
            i <= targets.len(),
            model == targets.deep_view(),
            edges.deep_view() == with_targets(model.take(i as int), start, from@, reason@),
        decreases targets.len() - i,
    {
        proof {
            assert(model.take(i + 1).drop_last() =~= model.take(i as int));
            assert(model.take(i + 1).last() == targets@[i as int].deep_view());
        }
        edges.insert(
            AdditionalFileEdge {
                from: from.to_string(),
                to: targets[i].slashed(),
                reason: reason.to_string(),
            },
        );
        i = i + 1;
    }
    assert(model.take(i as int) =~= model);
}

/// Adds the edges from each of some files to each of others.
pub fn add_crossed(
    sources: &Vec<FilePath>,
    targets: &Vec<FilePath>,
    reason: &str,
    edges: &mut OrderedSet<AdditionalFileEdge>,
)
    ensures
        final(edges).deep_view() == with_crossed(
            sources.deep_view(),
            old(edges).deep_view(),
            targets.deep_view(),
            reason@,
        ),
{
    let ghost start = edges.deep_view();
    let ghost ends = targets.deep_view();
    let ghost model = sources.deep_view();
    let mut i: usize = 0;
    while i < sources.len()
        invariant
            i <= sources.len(),
            model == sources.deep_view(),
            ends == targets.deep_view(),
            edges.deep_view() == with_crossed(model.take(i as int), start, ends, reason@),
        decreases sources.len() - i,
    {
        proof {
            assert(model.take(i + 1).drop_last() =~= model.take(i as int));
            assert(model.take(i + 1).last() == sources@[i as int].deep_view());
        }
        add_targets(targets, &sources[i].slashed(), reason, edges);
        i = i + 1;
    }
    assert(model.take(i as int) =~= model);
}

/// The files of a package, as seen from the project and from the package.
#[verifier::ext_equal]
pub struct PackageFilesModel {
    pub root: Seq<PathPartModel>,
    pub paths: Seq<Seq<PathPartModel>>,
    pub relatives: Seq<Seq<PathPartModel>>,
}

/// The files of a package, as seen from the project and from the package.
pub struct PackageFiles {
    pub root: FilePath,
    pub paths: Vec<FilePath>,
    pub relatives: Vec<FilePath>,
}

impl DeepView for PackageFiles {
    type V = PackageFilesModel;

    open spec fn deep_view(&self) -> PackageFilesModel {
        PackageFilesModel {
            root: self.root.deep_view(),
            paths: self.paths.deep_view(),
            relatives: self.relatives.deep_view(),
        }
    }
}

impl PackageFiles {
    /// Whether each path is there twice.
    pub open spec fn well_formed(&self) -> bool {
        self.paths@.len() == self.relatives@.len()
    }
}

/// The files of a package that a pattern means.
pub open spec fn meant(files: PackageFilesModel, pattern: Seq<char>) -> Seq<Seq<PathPartModel>> {
    marked(files.paths, hits_among(files.root, pattern, files.relatives))
}

fn find_meant(files: &PackageFiles, pattern: &str) -> (r: Vec<FilePath>)
    requires
        files.well_formed(),
    ensures
        r.deep_view() == meant(files.deep_view(), pattern@),
{
    let marks: Vec<bool> = matches_among(&files.root, pattern, &files.relatives);
    assert(files.relatives.deep_view().len() == files.relatives@.len());
    choose_marked(&files.paths, &marks)
}

/// Edges with those that a plugin declares.
pub open spec fn with_file_edges(
    items: Seq<FileEdgeContributionModel>,
    start: Seq<AdditionalFileEdgeModel>,
    files: PackageFilesModel,
    name: Seq<char>,
) -> Seq<AdditionalFileEdgeModel>
    decreases items.len(),
{
    if items.len() == 0 {
        start
    } else {
        let rest = with_file_edges(items.drop_last(), start, files, name);
        let last = items.last();
        with_crossed(
            meant(files, last.from_pattern),
            rest,
            meant(files, last.to_pattern),
            name + ": "@ + last.reason,
        )
    }
}

fn add_file_edges(
    items: &Vec<FileEdgeContribution>,
    files: &PackageFiles,
    name: &str,
    edges: &mut OrderedSet<AdditionalFileEdge>,
)
    requires
        files.well_formed(),
    ensures
        final(edges).deep_view() == with_file_edges(
            items.deep_view(),
            old(edges).deep_view(),
            files.deep_view(),
            name@,
        ),
{
    let ghost start = edges.deep_view();
    let ghost given = files.deep_view();
    let ghost model = items.deep_view();
    let mut i: usize = 0;
    while i < items.len()
        invariant
            i <= items.len(),
            model == items.deep_view(),
            files.well_formed(),
            given == files.deep_view(),
            edges.deep_view() == with_file_edges(model.take(i as int), start, given, name@),
        decreases items.len() - i,
    {
        proof {
            assert(model.take(i + 1).drop_last() =~= model.take(i as int));
            assert(model.take(i + 1).last() == items@[i as int].deep_view());
        }
        let sources: Vec<FilePath> = find_meant(files, &items[i].from_pattern);
        let targets: Vec<FilePath> = find_meant(files, &items[i].to_pattern);
        let reason: String = concat3(name, ": ", &items[i].reason);
        add_crossed(&sources, &targets, &reason, edges);
        i = i + 1;
    }
    assert(model.take(i as int) =~= model);
}

/// Edges with those of the dynamic imports that a plugin declares.
pub open spec fn with_dynamic_imports(
    items: Seq<DynamicImportContributionModel>,
    start: Seq<AdditionalFileEdgeModel>,
    files: PackageFilesModel,
    name: Seq<char>,
) -> Seq<AdditionalFileEdgeModel>
    decreases items.len(),
{
    if items.len() == 0 {
        start
    } else {
        let rest = with_dynamic_imports(items.drop_last(), start, files, name);
        let last = items.last();
        with_crossed(
            meant(files, last.importer_pattern),
            rest,
            meant(files, last.specifier_pattern),
            name + " dynamic import: "@ + last.reason,
        )
    }
}

fn add_dynamic_imports(
    items: &Vec<DynamicImportContribution>,
    files: &PackageFiles,
    name: &str,
    edges: &mut OrderedSet<AdditionalFileEdge>,
)
    requires
        files.well_formed(),
    ensures
        final(edges).deep_view() == with_dynamic_imports(
            items.deep_view(),
            old(edges).deep_view(),
            files.deep_view(),
            name@,
        ),
{
    let ghost start = edges.deep_view();
    let ghost given = files.deep_view();
    let ghost model = items.deep_view();
    let mut i: usize = 0;
    while i < items.len()
        invariant
            i <= items.len(),
            model == items.deep_view(),
            files.well_formed(),
            given == files.deep_view(),
            edges.deep_view() == with_dynamic_imports(model.take(i as int), start, given, name@),
        decreases items.len() - i,
    {
        proof {
            assert(model.take(i + 1).drop_last() =~= model.take(i as int));
            assert(model.take(i + 1).last() == items@[i as int].deep_view());
        }
        let sources: Vec<FilePath> = find_meant(files, &items[i].importer_pattern);
        let targets: Vec<FilePath> = find_meant(files, &items[i].specifier_pattern);
        let reason: String = concat3(name, " dynamic import: ", &items[i].reason);
        add_crossed(&sources, &targets, &reason, edges);
        i = i + 1;
    }
    assert(model.take(i as int) =~= model);
}

/// A text without the dots that it starts with.
pub open spec fn undotted(s: Seq<char>) -> Seq<char>
    decreases s.len(),
{
    if s.len() > 0 && s[0] == '.' {
        undotted(s.skip(1))
    } else {
        s
    }
}

fn without_dots(s: &str) -> (r: String)
    ensures
        r@ == undotted(s@),
{
    let chars: Vec<char> = chars_of(s);
    let mut from: usize = 0;
    assert(s@.skip(0) =~= s@);
    while from < chars.len() && chars[from] == '.'
        invariant
            from <= chars.len(),
            chars@ == s@,
            undotted(s@) == undotted(s@.skip(from as int)),
        decreases chars.len() - from,
    {
        assert(s@.skip(from as int).skip(1) =~= s@.skip(from + 1));
        from = from + 1;
    }
    let rest: String = slice(&chars, from, chars.len());
    assert(rest@ =~= s@.skip(from as int));
    rest
}

/// Where an output of a file would be.
pub open spec fn output_of(
    relative: Seq<PathPartModel>,
    extension: Seq<char>,
) -> Seq<PathPartModel> {
    with_extension_of(relative, undotted(extension))
}

/// Where a path first stands among others.
pub open spec fn first_at(
    items: Seq<Seq<PathPartModel>>,
    wanted: Seq<PathPartModel>,
) -> Option<usize>
    decreases items.len(),
{
    if items.len() == 0 {
        None
    } else {
        let rest = first_at(items.drop_last(), wanted);
        let last = items.last();
        if rest is Some {
            rest
        } else if last == wanted {
            Some((items.len() - 1) as usize)
        } else {
            None
        }
    }
}

proof fn first_at_is_inside(items: Seq<Seq<PathPartModel>>, wanted: Seq<PathPartModel>)
    requires
        items.len() <= usize::MAX,
    ensures
        first_at(items, wanted) matches Some(place) ==> place < items.len(),
    decreases items.len(),
{
    if items.len() > 0 {
        first_at_is_inside(items.drop_last(), wanted);
    }
}

fn find_first_at(items: &Vec<FilePath>, wanted: &FilePath) -> (r: Option<usize>)
    ensures
        r == first_at(items.deep_view(), wanted.deep_view()),
        r matches Some(place) ==> place < items@.len(),
{
    let ghost path = wanted.deep_view();
    let mut found: Option<usize> = None;
    let ghost model = items.deep_view();
    let mut i: usize = 0;
    while i < items.len()
        invariant
            i <= items.len(),
            model == items.deep_view(),
            path == wanted.deep_view(),
            found == first_at(model.take(i as int), path),
        decreases items.len() - i,
    {
        proof {
            assert(model.take(i + 1).drop_last() =~= model.take(i as int));
            assert(model.take(i + 1).last() == items@[i as int].deep_view());
        }
        let missing: bool = found.is_none();
        if missing && items[i].same_value(wanted) {
            found = Some(i);
        }
        i = i + 1;
    }
    assert(model.take(i as int) =~= model);
    proof {
        assert(model.len() == items@.len());
        first_at_is_inside(model, path);
    }
    found
}

/// Whether some output of a file is there.
pub open spec fn has_output(
    items: Seq<Seq<char>>,
    relative: Seq<PathPartModel>,
    relatives: Seq<Seq<PathPartModel>>,
) -> bool {
    exists|i: int| 0 <= i < items.len() && has_output_at(#[trigger] items[i], relative, relatives)
}

/// Whether this holds of one.
pub open spec fn has_output_at(
    item: Seq<char>,
    relative: Seq<PathPartModel>,
    relatives: Seq<Seq<PathPartModel>>,
) -> bool {
    first_at(relatives, output_of(relative, item)) is Some
}

fn any_output(items: &Vec<String>, relative: &FilePath, relatives: &Vec<FilePath>) -> (r: bool)
    ensures
        r == has_output(items.deep_view(), relative.deep_view(), relatives.deep_view()),
{
    let ghost relative_model = relative.deep_view();
    let ghost relatives_model = relatives.deep_view();
    let ghost model = items.deep_view();
    let mut i: usize = 0;
    while i < items.len()
        invariant
            i <= items.len(),
            model == items.deep_view(),
            relative_model == relative.deep_view(),
            relatives_model == relatives.deep_view(),
            forall|k: int| 0 <= k < i ==> !has_output_at(#[trigger] model[k], relative_model, relatives_model),
        decreases items.len() - i,
    {
        assert(model[i as int] == items@[i as int].deep_view());
        let item: &String = &items[i];
        if find_first_at(relatives, &relative.with_extension(&without_dots(item))).is_some() {
            return true;
        }
        i = i + 1;
    }
    false
}

/// Edges with those from a file to its outputs.
pub open spec fn with_outputs(
    items: Seq<Seq<char>>,
    start: Seq<AdditionalFileEdgeModel>,
    source: Seq<PathPartModel>,
    relative: Seq<PathPartModel>,
    files: PackageFilesModel,
    reason: Seq<char>,
) -> Seq<AdditionalFileEdgeModel>
    decreases items.len(),
{
    if items.len() == 0 {
        start
    } else {
        let rest = with_outputs(items.drop_last(), start, source, relative, files, reason);
        let last = items.last();
        match first_at(files.relatives, output_of(relative, last)) {
            Some(place) => if source != files.paths[place as int] {
                with_item::<AdditionalFileEdge>(
                    rest,
                    AdditionalFileEdgeModel {
                        from: slashed(source),
                        to: slashed(files.paths[place as int]),
                        reason,
                    },
                )
            } else {
                rest
            },
            None => rest,
        }
    }
}

fn add_outputs(
    extensions: &Vec<String>,
    source: &FilePath,
    relative: &FilePath,
    files: &PackageFiles,
    reason: &str,
    edges: &mut OrderedSet<AdditionalFileEdge>,
)
    requires
        files.well_formed(),
    ensures
        final(edges).deep_view() == with_outputs(
            extensions.deep_view(),
            old(edges).deep_view(),
            source.deep_view(),
            relative.deep_view(),
            files.deep_view(),
            reason@,
        ),
{
    let ghost start = edges.deep_view();
    let ghost from = source.deep_view();
    let ghost near = relative.deep_view();
    let ghost given = files.deep_view();
    let ghost model = extensions.deep_view();
    let mut i: usize = 0;
    while i < extensions.len()
        invariant
            i <= extensions.len(),
            model == extensions.deep_view(),
            files.well_formed(),
            from == source.deep_view(),
            near == relative.deep_view(),
            given == files.deep_view(),
            edges.deep_view() == with_outputs(model.take(i as int), start, from, near, given, reason@),
        decreases extensions.len() - i,
    {
        proof {
            assert(model.take(i + 1).drop_last() =~= model.take(i as int));
            assert(model.take(i + 1).last() == extensions@[i as int].deep_view());
        }
        let output: FilePath = relative.with_extension(&without_dots(&extensions[i]));
        match find_first_at(&files.relatives, &output) {
            Some(place) => {
                assert(given.paths[place as int] == files.paths@[place as int].deep_view());
                let target: &FilePath = &files.paths[place];
                if !source.same_value(target) {
                    edges.insert(
                        AdditionalFileEdge {
                            from: source.slashed(),
                            to: target.slashed(),
                            reason: reason.to_string(),
                        },
                    );
                }
            },
            None => {},
        }
        i = i + 1;
    }
    assert(model.take(i as int) =~= model);
}

/// Edges between files, and what is to be said of those that are missing.
#[verifier::ext_equal]
pub struct FileEdgesModel {
    pub edges: Seq<AdditionalFileEdgeModel>,
    pub diagnostics: Seq<AnalysisDiagnosticModel>,
}

/// That no declared output of a file is there.
pub open spec fn output_missing(
    source: Seq<PathPartModel>,
    name: Seq<char>,
) -> AnalysisDiagnosticModel {
    AnalysisDiagnosticModel {
        code: "plugin_transform_output_missing"@,
        path: slashed(source),
        severity: DiagnosticSeverity::Error,
        span: None,
        message: name + " file transform could not materialize a declared output for `"@ + written(
            source,
        ) + "`"@,
        blocks_reachability: true,
    }
}

/// That a pattern means files that are not analyzed, and none that is.
pub open spec fn source_unmodeled(
    workspace: Seq<char>,
    name: Seq<char>,
    pattern: Seq<char>,
) -> AnalysisDiagnosticModel {
    AnalysisDiagnosticModel {
        code: "plugin_transform_source_unmodeled"@,
        path: path_in(workspace, "package.json"@),
        severity: DiagnosticSeverity::Error,
        span: None,
        message: name + " file transform pattern `"@ + pattern
            + "` matched no analyzable source file"@,
        blocks_reachability: true,
    }
}

/// Edges with those from the first files of a package to their outputs, for each file that
/// is marked.
pub open spec fn with_transformed(
    count: nat,
    start: FileEdgesModel,
    marks: Seq<bool>,
    files: PackageFilesModel,
    transform: FileTransformContributionModel,
    name: Seq<char>,
) -> FileEdgesModel
    decreases count,
{
    if count == 0 {
        start
    } else {
        let rest = with_transformed((count - 1) as nat, start, marks, files, transform, name);
        let source = files.paths[count - 1];
        let relative = files.relatives[count - 1];
        if !marks[count - 1] {
            rest
        } else {
            FileEdgesModel {
                edges: with_outputs(
                    transform.output_extensions,
                    rest.edges,
                    source,
                    relative,
                    files,
                    name + " file transform: "@ + transform.reason,
                ),
                diagnostics: if has_output(
                    transform.output_extensions,
                    relative,
                    files.relatives,
                ) {
                    rest.diagnostics
                } else {
                    rest.diagnostics.push(output_missing(source, name))
                },
            }
        }
    }
}

/// Edges with those from the marked files of a package to their outputs. Where none is
/// marked and there are files that are not analyzed, that is said.
pub open spec fn with_transform(
    start: FileEdgesModel,
    marks: Seq<bool>,
    discovered: bool,
    files: PackageFilesModel,
    transform: FileTransformContributionModel,
    workspace: Seq<char>,
    name: Seq<char>,
) -> FileEdgesModel {
    with_transformed(
        files.paths.len(),
        if !marks.contains(true) && discovered {
            FileEdgesModel {
                diagnostics: start.diagnostics.push(
                    source_unmodeled(workspace, name, transform.source_pattern),
                ),
                ..start
            }
        } else {
            start
        },
        marks,
        files,
        transform,
        name,
    )
}

fn has_mark(marks: &Vec<bool>) -> (r: bool)
    ensures
        r == marks@.contains(true),
{
    let mut i: usize = 0;
    while i < marks.len()
        invariant
            i <= marks.len(),
            forall|k: int| 0 <= k < i ==> !marks@[k],
        decreases marks.len() - i,
    {
        if marks[i] {
            return true;
        }
        i = i + 1;
    }
    false
}

/// Adds the edges from the marked files of a package to their outputs. `discovered` says
/// whether there are such files that are not analyzed.
pub fn add_transform_edges(
    edges: &mut OrderedSet<AdditionalFileEdge>,
    diagnostics: &mut Vec<AnalysisDiagnostic>,
    marks: &Vec<bool>,
    discovered: bool,
    files: &PackageFiles,
    transform: &FileTransformContribution,
    workspace_name: &str,
    plugin_display_name: &str,
)
    requires
        files.well_formed(),
        marks@.len() == files.paths@.len(),
    ensures
        ({
            let after = with_transform(
                FileEdgesModel {
                    edges: old(edges).deep_view(),
                    diagnostics: old(diagnostics).deep_view(),
                },
                marks@,
                discovered,
                files.deep_view(),
                transform.deep_view(),
                workspace_name@,
                plugin_display_name@,
            );
            &&& final(edges).deep_view() == after.edges
            &&& final(diagnostics).deep_view() == after.diagnostics
        }),
{
    if !has_mark(marks) && discovered {
        push_item(
            diagnostics,
            AnalysisDiagnostic {
                code: "plugin_transform_source_unmodeled".to_string(),
                path: workspace_manifest_path(workspace_name),
                severity: DiagnosticSeverity::Error,
                span: None,
                message: concat4(
                    plugin_display_name,
                    " file transform pattern `",
                    &transform.source_pattern,
                    "` matched no analyzable source file",
                ),
                blocks_reachability: true,
            },
        );
    }
    let ghost start = FileEdgesModel {
        edges: edges.deep_view(),
        diagnostics: diagnostics.deep_view(),
    };
    let ghost given = files.deep_view();
    let ghost how = transform.deep_view();
    let reason: String = concat3(plugin_display_name, " file transform: ", &transform.reason);
    let mut i: usize = 0;
    while i < files.paths.len()
        invariant
            i <= files.paths.len(),
            files.well_formed(),
            marks@.len() == files.paths@.len(),
            given == files.deep_view(),
            how == transform.deep_view(),
            reason@ == plugin_display_name@ + " file transform: "@ + how.reason,
            edges.deep_view() == with_transformed(
                i as nat,
                start,
                marks@,
                given,
                how,
                plugin_display_name@,
            ).edges,
            diagnostics.deep_view() == with_transformed(
                i as nat,
                start,
                marks@,
                given,
                how,
                plugin_display_name@,
            ).diagnostics,
        decreases files.paths.len() - i,
    {
        assert(given.paths[i as int] == files.paths@[i as int].deep_view());
        assert(given.relatives[i as int] == files.relatives@[i as int].deep_view());
        if marks[i] {
            let source: &FilePath = &files.paths[i];
            let relative: &FilePath = &files.relatives[i];
            add_outputs(&transform.output_extensions, source, relative, files, &reason, edges);
            if !any_output(&transform.output_extensions, relative, &files.relatives) {
                push_item(
                    diagnostics,
                    AnalysisDiagnostic {
                        code: "plugin_transform_output_missing".to_string(),
                        path: source.slashed(),
                        severity: DiagnosticSeverity::Error,
                        span: None,
                        message: concat4(
                            plugin_display_name,
                            " file transform could not materialize a declared output for `",
                            &source.text(),
                            "`",
                        ),
                        blocks_reachability: true,
                    },
                );
            }
        }
        i = i + 1;
    }
    assert(given.paths.len() == files.paths@.len());
}

/// Adds the edges from the files of a package that a transform means to their outputs.
pub fn append_file_transform_edges(
    edges: &mut OrderedSet<AdditionalFileEdge>,
    diagnostics: &mut Vec<AnalysisDiagnostic>,
    workspace_name: &str,
    plugin_display_name: &str,
    transform: &FileTransformContribution,
    files: &PackageFiles,
    discovered_package_files: &Vec<FilePath>,
)
    requires
        files.well_formed(),
    ensures
        ({
            let after = with_transform(
                FileEdgesModel {
                    edges: old(edges).deep_view(),
                    diagnostics: old(diagnostics).deep_view(),
                },
                hits_among(
                    files.deep_view().root,
                    transform.deep_view().source_pattern,
                    files.deep_view().relatives,
                ),
                hits_among(
                    files.deep_view().root,
                    transform.deep_view().source_pattern,
                    discovered_package_files.deep_view(),
                ).contains(true),
                files.deep_view(),
                transform.deep_view(),
                workspace_name@,
                plugin_display_name@,
            );
            &&& final(edges).deep_view() == after.edges
            &&& final(diagnostics).deep_view() == after.diagnostics
        }),
{
    let marks: Vec<bool> = matches_among(&files.root, &transform.source_pattern, &files.relatives);
    assert(files.relatives.deep_view().len() == files.relatives@.len());
    let discovered: bool = has_mark(
        &matches_among(&files.root, &transform.source_pattern, discovered_package_files),
    );
    add_transform_edges(
        edges,
        diagnostics,
        &marks,
        discovered,
        files,
        transform,
        workspace_name,
        plugin_display_name,
    );
}

/// Edges with those of the transforms of a plugin.
pub open spec fn with_transforms(
    items: Seq<FileTransformContributionModel>,
    start: FileEdgesModel,
    files: PackageFilesModel,
    discovered: Seq<Seq<PathPartModel>>,
    workspace: Seq<char>,
    name: Seq<char>,
) -> FileEdgesModel
    decreases items.len(),
{
    if items.len() == 0 {
        start
    } else {
        let rest = with_transforms(items.drop_last(), start, files, discovered, workspace, name);
        let last = items.last();
        with_transform(
            rest,
            hits_among(files.root, last.source_pattern, files.relatives),
            hits_among(files.root, last.source_pattern, discovered).contains(true),
            files,
            last,
            workspace,
            name,
        )
    }
}

/// Edges with those of plugins.
pub open spec fn with_plugin_edges(
    items: Seq<DetectedBuiltinPluginModel>,
    start: FileEdgesModel,
    files: PackageFilesModel,
    discovered: Seq<Seq<PathPartModel>>,
    workspace: Seq<char>,
) -> FileEdgesModel
    decreases items.len(),
{
    if items.len() == 0 {
        start
    } else {
        let rest = with_plugin_edges(items.drop_last(), start, files, discovered, workspace);
        let last = items.last();
        {
            let c = last.plugin.contributions;
            let name = last.plugin.display_name;
            with_transforms(
                c.file_transforms,
                FileEdgesModel {
                    edges: with_dynamic_imports(
                        c.dynamic_imports,
                        with_file_edges(c.file_edges, rest.edges, files, name),
                        files,
                        name,
                    ),
                    ..rest
                },
                files,
                discovered,
                workspace,
                name,
            )
        }
    }
}

fn add_transforms(
    transforms: &Vec<FileTransformContribution>,
    files: &PackageFiles,
    discovered: &Vec<FilePath>,
    workspace: &str,
    name: &str,
    edges: &mut OrderedSet<AdditionalFileEdge>,
    diagnostics: &mut Vec<AnalysisDiagnostic>,
)
    requires
        files.well_formed(),
    ensures
        ({
            let after = with_transforms(
                transforms.deep_view(),
                FileEdgesModel {
                    edges: old(edges).deep_view(),
                    diagnostics: old(diagnostics).deep_view(),
                },
                files.deep_view(),
                discovered.deep_view(),
                workspace@,
                name@,
            );
            &&& final(edges).deep_view() == after.edges
            &&& final(diagnostics).deep_view() == after.diagnostics
        }),
{
    let ghost start = FileEdgesModel {
        edges: edges.deep_view(),
        diagnostics: diagnostics.deep_view(),
    };
    let ghost given = files.deep_view();
    let ghost found = discovered.deep_view();
    let ghost model = transforms.deep_view();
    let mut i: usize = 0;
    while i < transforms.len()
        invariant
            i <= transforms.len(),
            model == transforms.deep_view(),
            files.well_formed(),
            given == files.deep_view(),
            found == discovered.deep_view(),
            edges.deep_view() == with_transforms(model.take(i as int), start, given, found, workspace@, name@).edges,
            diagnostics.deep_view() == with_transforms(model.take(i as int), start, given, found, workspace@, name@).diagnostics,
        decreases transforms.len() - i,
    {
        proof {
            assert(model.take(i + 1).drop_last() =~= model.take(i as int));
            assert(model.take(i + 1).last() == transforms@[i as int].deep_view());
        }
        append_file_transform_edges(
            edges,
            diagnostics,
            workspace,
            name,
            &transforms[i],
            files,
            discovered,
        );
        i = i + 1;
    }
    assert(model.take(i as int) =~= model);
}

fn add_plugin_edges(
    plugins: &Vec<DetectedBuiltinPlugin>,
    files: &PackageFiles,
    discovered: &Vec<FilePath>,
    workspace: &str,
    edges: &mut OrderedSet<AdditionalFileEdge>,
    diagnostics: &mut Vec<AnalysisDiagnostic>,
)
    requires
        files.well_formed(),
    ensures
        ({
            let after = with_plugin_edges(
                plugins.deep_view(),
                FileEdgesModel {
                    edges: old(edges).deep_view(),
                    diagnostics: old(diagnostics).deep_view(),
                },
                files.deep_view(),
                discovered.deep_view(),
                workspace@,
            );
            &&& final(edges).deep_view() == after.edges
            &&& final(diagnostics).deep_view() == after.diagnostics
        }),
{
    let ghost start = FileEdgesModel {
        edges: edges.deep_view(),
        diagnostics: diagnostics.deep_view(),
    };
    let ghost given = files.deep_view();
    let ghost found = discovered.deep_view();
    let ghost model = plugins.deep_view();
    let mut i: usize = 0;
    while i < plugins.len()
        invariant
            i <= plugins.len(),
            model == plugins.deep_view(),
            files.well_formed(),
            given == files.deep_view(),
            found == discovered.deep_view(),
            edges.deep_view() == with_plugin_edges(model.take(i as int), start, given, found, workspace@).edges,
            diagnostics.deep_view() == with_plugin_edges(model.take(i as int), start, given, found, workspace@).diagnostics,
        decreases plugins.len() - i,
    {
        proof {
            assert(model.take(i + 1).drop_last() =~= model.take(i as int));
            assert(model.take(i + 1).last() == plugins@[i as int].deep_view());
        }
        let name: &String = &plugins[i].plugin.display_name;
        add_file_edges(&plugins[i].plugin.contributions.file_edges, files, name, edges);
        add_dynamic_imports(&plugins[i].plugin.contributions.dynamic_imports, files, name, edges);
        add_transforms(
            &plugins[i].plugin.contributions.file_transforms,
            files,
            discovered,
            workspace,
            name,
            edges,
            diagnostics,
        );
        i = i + 1;
    }
    assert(model.take(i as int) =~= model);
}

/// Some files of the project below a package.
pub open spec fn files_of_package(
    context: PackageContextModel,
    project: WorkspaceDiscoveryModel,
    files: Seq<Seq<PathPartModel>>,
) -> PackageFilesModel {
    let root = context.package.root;
    PackageFilesModel {
        root: path_joined(project.workspace_root, root),
        paths: below(files, root),
        relatives: relative_below(files, root),
    }
}

/// Edges with those of the plugins of packages.
pub open spec fn with_context_edges(
    items: Seq<PackageContextModel>,
    start: FileEdgesModel,
    project: WorkspaceDiscoveryModel,
    files: Seq<Seq<PathPartModel>>,
    discovered: Seq<Seq<PathPartModel>>,
    profile: Seq<char>,
) -> FileEdgesModel
    decreases items.len(),
{
    if items.len() == 0 {
        start
    } else {
        let rest = with_context_edges(
            items.drop_last(),
            start,
            project,
            files,
            discovered,
            profile,
        );
        let last = items.last();
        match lookup(last.plugins_by_profile, profile) {
            Some(plugins) => with_plugin_edges(
                plugins,
                rest,
                files_of_package(last, project, files),
                relative_below(discovered, last.package.root),
                last.workspace_name,
            ),
            None => rest,
        }
    }
}

/// That plugins make too many edges.
pub open spec fn too_many_edges(count: nat, limit: usize) -> AnalysisDiagnosticModel {
    AnalysisDiagnosticModel {
        code: "plugin_pattern_limit_exceeded"@,
        path: "orphanode.jsonc"@,
        severity: DiagnosticSeverity::Error,
        span: None,
        message: "Plugin edge expansion produced "@ + digits(count)
            + " edges, exceeding the configured limit of "@ + digits(limit as nat),
        blocks_reachability: true,
    }
}

/// The edges that the plugins of packages make in a target profile, with what is to be said:
/// none where there are too many.
pub open spec fn plugin_edges(
    start: Seq<AnalysisDiagnosticModel>,
    project: WorkspaceDiscoveryModel,
    contexts: Seq<PackageContextModel>,
    files: Seq<Seq<PathPartModel>>,
    discovered: Seq<Seq<PathPartModel>>,
    profile: Seq<char>,
    limits: AnalysisLimits,
) -> FileEdgesModel {
    let all = with_context_edges(
        contexts,
        FileEdgesModel { edges: Seq::empty(), diagnostics: start },
        project,
        files,
        discovered,
        profile,
    );
    if all.edges.len() > limits.max_pattern_expansions {
        FileEdgesModel {
            edges: Seq::empty(),
            diagnostics: all.diagnostics.push(
                too_many_edges(all.edges.len(), limits.max_pattern_expansions),
            ),
        }
    } else {
        all
    }
}

/// The edges that the plugins of packages make in a target profile. `discovered_files` are
/// the files of the project, analyzed or not.
pub fn collect_plugin_file_edges(
    workspace: &WorkspaceDiscovery,
    contexts: &Vec<PackageContext>,
    files: &Vec<FilePath>,
    discovered_files: &Vec<FilePath>,
    profile: &str,
    limits: AnalysisLimits,
    diagnostics: &mut Vec<AnalysisDiagnostic>,
) -> (r: Vec<AdditionalFileEdge>)
    ensures
        ({
            let after = plugin_edges(
                old(diagnostics).deep_view(),
                workspace.deep_view(),
                contexts.deep_view(),
                files.deep_view(),
                discovered_files.deep_view(),
                profile@,
                limits,
            );
            &&& r.deep_view() == after.edges
            &&& final(diagnostics).deep_view() == after.diagnostics
        }),
{
    let mut edges: OrderedSet<AdditionalFileEdge> = OrderedSet::new();
    let ghost start = FileEdgesModel {
        edges: Seq::empty(),
        diagnostics: diagnostics.deep_view(),
    };
    let ghost project = workspace.deep_view();
    let ghost given = files.deep_view();
    let ghost found = discovered_files.deep_view();
    let key: String = profile.to_string();
    let ghost model = contexts.deep_view();
    let mut i: usize = 0;
    while i < contexts.len()
        invariant
            i <= contexts.len(),
            model == contexts.deep_view(),
            key@ == profile@,
            project == workspace.deep_view(),
            given == files.deep_view(),
            found == discovered_files.deep_view(),
            edges.deep_view() == with_context_edges(model.take(i as int), start, project, given, found, profile@).edges,
            diagnostics.deep_view() == with_context_edges(model.take(i as int), start, project, given, found, profile@).diagnostics,
        decreases contexts.len() - i,
    {
        proof {
            assert(model.take(i + 1).drop_last() =~= model.take(i as int));
            assert(model.take(i + 1).last() == contexts@[i as int].deep_view());
        }
        let context: &PackageContext = &contexts[i];
        match context.plugins_by_profile.get(&key) {
            Some(plugins) => {
                let root: &FilePath = &context.package.root;
                let (paths, relatives): (Vec<FilePath>, Vec<FilePath>) = files_below(files, root);
                let (_, others): (Vec<FilePath>, Vec<FilePath>) = files_below(discovered_files, root);
                let near: PackageFiles = PackageFiles {
                    root: workspace.workspace_root.join(root),
                    paths,
                    relatives,
                };
                assert(near.deep_view() == files_of_package(context.deep_view(), project, given));
                add_plugin_edges(
                    plugins,
                    &near,
                    &others,
                    &context.workspace_name,
                    &mut edges,
                    diagnostics,
                );
            },
            None => {},
        }
        i = i + 1;
    }
    assert(model.take(i as int) =~= model);
    if edges.len() > limits.max_pattern_expansions {
        push_item(
            diagnostics,
            AnalysisDiagnostic {
                code: "plugin_pattern_limit_exceeded".to_string(),
                path: "orphanode.jsonc".to_string(),
                severity: DiagnosticSeverity::Error,
                span: None,
                message: concat4(
                    "Plugin edge expansion produced ",
                    &decimal(edges.len() as u64),
                    " edges, exceeding the configured limit of ",
                    &decimal(limits.max_pattern_expansions as u64),
                ),
                blocks_reachability: true,
            },
        );
        let none: Vec<AdditionalFileEdge> = Vec::new();
        assert(none.deep_view() =~= Seq::empty());
        return none;
    }
    edges.into_items()
}

/// Why the search for the sources of transforms was given up.
pub open spec fn transform_discovery_stopped(message: Seq<char>) -> AnalysisDiagnosticModel {
    AnalysisDiagnosticModel {
        code: "plugin_transform_discovery_incomplete"@,
        path: "<project>"@,
        severity: DiagnosticSeverity::Error,
        span: None,
        message: "Plugin transform source discovery is incomplete: "@ + message,
        blocks_reachability: true,
    }
}

/// Why the search for the sources of transforms was given up.
#[must_use]
pub fn plugin_transform_discovery_diagnostic(message: &str) -> (r: AnalysisDiagnostic)
    ensures
        r.deep_view() == transform_discovery_stopped(message@),
{
    AnalysisDiagnostic {
        code: "plugin_transform_discovery_incomplete".to_string(),
        path: "<project>".to_string(),
        severity: DiagnosticSeverity::Error,
        span: None,
        message: concat2("Plugin transform source discovery is incomplete: ", message),
        blocks_reachability: true,
    }
}

/// Whether a directory is left out of the search for the sources of transforms.
pub open spec fn skipped_directory(s: Seq<char>) -> bool {
    ||| s == "node_modules"@
    ||| s == ".git"@
    ||| s == ".hg"@
    ||| s == ".svn"@
    ||| s == "target"@
    ||| s == "dist"@
    ||| s == "build"@
    ||| s == "coverage"@
    ||| s == ".next"@
    ||| s == ".nuxt"@
    ||| s == ".svelte-kit"@
    ||| s == ".turbo"@
    ||| s == ".cache"@
    ||| s == ".orphanode"@
}

/// Whether a directory is left out of the search for the sources of transforms.
pub fn is_skipped_directory(s: &str) -> (r: bool)
    ensures
        r == skipped_directory(s@),
{
    same(s, "node_modules")
        || same(s, ".git")
        || same(s, ".hg")
        || same(s, ".svn")
        || same(s, "target")
        || same(s, "dist")
        || same(s, "build")
        || same(s, "coverage")
        || same(s, ".next")
        || same(s, ".nuxt")
        || same(s, ".svelte-kit")
        || same(s, ".turbo")
        || same(s, ".cache")
        || same(s, ".orphanode")
}

/// How the members of the files of a package are analyzed.
pub open spec fn context_mode(context: PackageContextModel) -> AnalysisMode {
    match context.effective.mode {
        Some(mode) => mode,
        None => AnalysisMode::Balanced,
    }
}

fn mode_of_context(context: &PackageContext) -> (r: AnalysisMode)
    ensures
        r == context_mode(context.deep_view()),
{
    match context.effective.mode {
        Some(mode) => mode,
        None => AnalysisMode::Balanced,
    }
}

/// How the members of each file are analyzed.
pub open spec fn member_modes(
    items: Seq<Seq<PathPartModel>>,
    project: WorkspaceDiscoveryModel,
    contexts: Seq<PackageContextModel>,
) -> Seq<(Seq<char>, AnalysisMode)>
    decreases items.len(),
{
    if items.len() == 0 {
        Seq::empty()
    } else {
        let rest = member_modes(items.drop_last(), project, contexts);
        let last = items.last();
        match context_place(project.packages, contexts, last) {
            Some(place) => with_entry::<String, AnalysisMode>(
                rest,
                slashed(last),
                context_mode(contexts[place as int]),
            ),
            None => rest,
        }
    }
}

/// How the members of each file are analyzed.
#[must_use]
pub fn member_modes_by_file(
    files: &Vec<FilePath>,
    workspace: &WorkspaceDiscovery,
    contexts: &Vec<PackageContext>,
) -> (r: OrderedMap<String, AnalysisMode>)
    ensures
        r.deep_view() == member_modes(
            files.deep_view(),
            workspace.deep_view(),
            contexts.deep_view(),
        ),
{
    let mut modes: OrderedMap<String, AnalysisMode> = OrderedMap::new();
    let ghost project = workspace.deep_view();
    let ghost given = contexts.deep_view();
    let ghost model = files.deep_view();
    let mut i: usize = 0;
    while i < files.len()
        invariant
            i <= files.len(),
            model == files.deep_view(),
            project == workspace.deep_view(),
            given == contexts.deep_view(),
            modes.deep_view() == member_modes(model.take(i as int), project, given),
        decreases files.len() - i,
    {
        proof {
            assert(model.take(i + 1).drop_last() =~= model.take(i as int));
            assert(model.take(i + 1).last() == files@[i as int].deep_view());
        }
        match context_for_path(workspace, contexts, &files[i]) {
            Some(place) => {
                assert(given[place as int] == contexts@[place as int].deep_view());
                modes.insert(files[i].slashed(), mode_of_context(&contexts[place]));
            },
            None => {},
        }
        i = i + 1;
    }
    assert(model.take(i as int) =~= model);
    modes
}

/// Whether anything outside a project can use the files of a package.
pub open spec fn is_open(context: PackageContextModel) -> bool {
    context.effective.world == Some(WorldMode::Open)
}

/// The entries that anything outside the project can use.
pub open spec fn open_entries(
    items: Seq<Seq<PathPartModel>>,
    project: WorkspaceDiscoveryModel,
    contexts: Seq<PackageContextModel>,
) -> Seq<Seq<char>>
    decreases items.len(),
{
    if items.len() == 0 {
        Seq::empty()
    } else {
        let rest = open_entries(items.drop_last(), project, contexts);
        let last = items.last();
        match context_place(project.packages, contexts, last) {
            Some(place) => if is_open(contexts[place as int]) {
                with_item::<String>(rest, slashed(last))
            } else {
                rest
            },
            None => rest,
        }
    }
}

/// The entries that anything outside the project can use.
#[must_use]
pub fn open_world_entries(
    entries: &Vec<FilePath>,
    workspace: &WorkspaceDiscovery,
    contexts: &Vec<PackageContext>,
) -> (r: OrderedSet<String>)
    ensures
        r.deep_view() == open_entries(
            entries.deep_view(),
            workspace.deep_view(),
            contexts.deep_view(),
        ),
{
    let mut open: OrderedSet<String> = OrderedSet::new();
    let ghost project = workspace.deep_view();
    let ghost given = contexts.deep_view();
    let ghost model = entries.deep_view();
    let mut i: usize = 0;
    while i < entries.len()
        invariant
            i <= entries.len(),
            model == entries.deep_view(),
            project == workspace.deep_view(),
            given == contexts.deep_view(),
            open.deep_view() == open_entries(model.take(i as int), project, given),
        decreases entries.len() - i,
    {
        proof {
            assert(model.take(i + 1).drop_last() =~= model.take(i as int));
            assert(model.take(i + 1).last() == entries@[i as int].deep_view());
        }
        match context_for_path(workspace, contexts, &entries[i]) {
            Some(place) => {
                assert(given[place as int] == contexts@[place as int].deep_view());
                let world: WorldMode = match contexts[place].effective.world {
                    Some(world) => world,
                    None => WorldMode::Closed,
                };
                if world == WorldMode::Open {
                    open.insert(entries[i].slashed());
                }
            },
            None => {},
        }
        i = i + 1;
    }
    assert(model.take(i as int) =~= model);
    open
}

/// How the members of packages are analyzed, each way once.
pub open spec fn mode_names(items: Seq<PackageContextModel>) -> Seq<Seq<char>>
    decreases items.len(),
{
    if items.len() == 0 {
        Seq::empty()
    } else {
        let rest = mode_names(items.drop_last());
        let last = items.last();
        with_item::<String>(rest, mode_name(context_mode(last)))
    }
}

/// How the members of a project are analyzed, in one word.
pub open spec fn project_mode(contexts: Seq<PackageContextModel>) -> Seq<char> {
    if mode_names(contexts).len() == 1 {
        mode_names(contexts)[0]
    } else {
        "mixed"@
    }
}

/// How the members of a project are analyzed, in one word.
#[must_use]
pub fn project_mode_name(contexts: &Vec<PackageContext>) -> (r: String)
    ensures
        r@ == project_mode(contexts.deep_view()),
{
    let mut names: OrderedSet<String> = OrderedSet::new();
    let ghost model = contexts.deep_view();
    let mut i: usize = 0;
    while i < contexts.len()
        invariant
            i <= contexts.len(),
            model == contexts.deep_view(),
            names.deep_view() == mode_names(model.take(i as int)),
        decreases contexts.len() - i,
    {
        proof {
            assert(model.take(i + 1).drop_last() =~= model.take(i as int));
            assert(model.take(i + 1).last() == contexts@[i as int].deep_view());
        }
        names.insert(analysis_mode_name(mode_of_context(&contexts[i])).to_string());
        i = i + 1;
    }
    assert(model.take(i as int) =~= model);
    if names.len() == 1 {
        assert(names.deep_view()[0] == names.items()@[0]@);
        return names.items()[0].replicate();
    }
    "mixed".to_string()
}

proof fn transformed_edges_need_no_diagnostics(
    count: nat,
    a: FileEdgesModel,
    b: FileEdgesModel,
    marks: Seq<bool>,
    files: PackageFilesModel,
    transform: FileTransformContributionModel,
    name: Seq<char>,
)
    requires
        a.edges == b.edges,
    ensures
        with_transformed(count, a, marks, files, transform, name).edges == with_transformed(
            count,
            b,
            marks,
            files,
            transform,
            name,
        ).edges,
    decreases count,
{
    if count > 0 {
        transformed_edges_need_no_diagnostics(
            (count - 1) as nat,
            a,
            b,
            marks,
            files,
            transform,
            name,
        );
    }
}

proof fn transform_edges_need_no_diagnostics(
    items: Seq<FileTransformContributionModel>,
    a: FileEdgesModel,
    b: FileEdgesModel,
    files: PackageFilesModel,
    discovered: Seq<Seq<PathPartModel>>,
    workspace: Seq<char>,
    name: Seq<char>,
)
    requires
        a.edges == b.edges,
    ensures
        with_transforms(items, a, files, discovered, workspace, name).edges == with_transforms(
            items,
            b,
            files,
            discovered,
            workspace,
            name,
        ).edges,
    decreases items.len(),
{
    if items.len() > 0 {
        let front = items.drop_last();
        let last = items.last();
        let marks = hits_among(files.root, last.source_pattern, files.relatives);
        let found = hits_among(files.root, last.source_pattern, discovered).contains(true);
        transform_edges_need_no_diagnostics(front, a, b, files, discovered, workspace, name);
        let x = with_transforms(front, a, files, discovered, workspace, name);
        let y = with_transforms(front, b, files, discovered, workspace, name);
        let said = source_unmodeled(workspace, name, last.source_pattern);
        let count = files.paths.len();
        if !marks.contains(true) && found {
            transformed_edges_need_no_diagnostics(
                count,
                FileEdgesModel { diagnostics: x.diagnostics.push(said), ..x },
                FileEdgesModel { diagnostics: y.diagnostics.push(said), ..y },
                marks,
                files,
                last,
                name,
            );
        } else {
            transformed_edges_need_no_diagnostics(count, x, y, marks, files, last, name);
        }
    }
}

proof fn plugin_edges_need_no_diagnostics(
    items: Seq<DetectedBuiltinPluginModel>,
    a: FileEdgesModel,
    b: FileEdgesModel,
    files: PackageFilesModel,
    discovered: Seq<Seq<PathPartModel>>,
    workspace: Seq<char>,
)
    requires
        a.edges == b.edges,
    ensures
        with_plugin_edges(items, a, files, discovered, workspace).edges == with_plugin_edges(
            items,
            b,
            files,
            discovered,
            workspace,
        ).edges,
    decreases items.len(),
{
    if items.len() > 0 {
        let front = items.drop_last();
        let last = items.last().plugin;
        plugin_edges_need_no_diagnostics(front, a, b, files, discovered, workspace);
        let x = with_plugin_edges(front, a, files, discovered, workspace);
        let y = with_plugin_edges(front, b, files, discovered, workspace);
        let edges = with_dynamic_imports(
            last.contributions.dynamic_imports,
            with_file_edges(last.contributions.file_edges, x.edges, files, last.display_name),
            files,
            last.display_name,
        );
        transform_edges_need_no_diagnostics(
            last.contributions.file_transforms,
            FileEdgesModel { edges, ..x },
            FileEdgesModel { edges, ..y },
            files,
            discovered,
            workspace,
            last.display_name,
        );
    }
}

proof fn context_edges_need_no_diagnostics(
    items: Seq<PackageContextModel>,
    a: FileEdgesModel,
    b: FileEdgesModel,
    project: WorkspaceDiscoveryModel,
    files: Seq<Seq<PathPartModel>>,
    discovered: Seq<Seq<PathPartModel>>,
    profile: Seq<char>,
)
    requires
        a.edges == b.edges,
    ensures
        with_context_edges(items, a, project, files, discovered, profile).edges
            == with_context_edges(items, b, project, files, discovered, profile).edges,
    decreases items.len(),
{
    if items.len() > 0 {
        let front = items.drop_last();
        let last = items.last();
        context_edges_need_no_diagnostics(front, a, b, project, files, discovered, profile);
        if let Some(plugins) = lookup(last.plugins_by_profile, profile) {
            plugin_edges_need_no_diagnostics(
                plugins,
                with_context_edges(front, a, project, files, discovered, profile),
                with_context_edges(front, b, project, files, discovered, profile),
                files_of_package(last, project, files),
                relative_below(discovered, last.package.root),
                last.workspace_name,
            );
        }
    }
}

/// The edges that plugins make do not depend on what was said before.
pub proof fn edges_of_plugins_need_no_diagnostics(
    a: Seq<AnalysisDiagnosticModel>,
    b: Seq<AnalysisDiagnosticModel>,
    project: WorkspaceDiscoveryModel,
    contexts: Seq<PackageContextModel>,
    files: Seq<Seq<PathPartModel>>,
    discovered: Seq<Seq<PathPartModel>>,
    profile: Seq<char>,
    limits: AnalysisLimits,
)
    ensures
        plugin_edges(a, project, contexts, files, discovered, profile, limits).edges
            == plugin_edges(b, project, contexts, files, discovered, profile, limits).edges,
{
    context_edges_need_no_diagnostics(
        contexts,
        FileEdgesModel { edges: Seq::empty(), diagnostics: a },
        FileEdgesModel { edges: Seq::empty(), diagnostics: b },
        project,
        files,
        discovered,
        profile,
    );
}

/// Whether a plugin transforms files.
pub open spec fn transforms_files(plugin: DetectedBuiltinPluginModel) -> bool {
    plugin.plugin.contributions.file_transforms.len() > 0
}

/// Whether a plugin of some package transforms files: only then are the sources of transforms
/// searched for.
pub open spec fn some_transforms(contexts: Seq<PackageContextModel>) -> bool {
    exists|i: int, j: int|
        0 <= i < contexts.len() && 0 <= j < contexts[i].plugins.len() && #[trigger]
            transforms_files(contexts[i].plugins[j])
}

/// Whether a plugin of some package transforms files.
#[must_use]
pub fn needs_transform_sources(contexts: &Vec<PackageContext>) -> (r: bool)
    ensures
        r == some_transforms(contexts.deep_view()),
{
    let ghost model = contexts.deep_view();
    let mut i: usize = 0;
    while i < contexts.len()
        invariant
            i <= contexts.len(),
            model == contexts.deep_view(),
            forall|a: int, b: int|
                0 <= a < i && 0 <= b < model[a].plugins.len() ==> !#[trigger] transforms_files(
                    model[a].plugins[b],
                ),
        decreases contexts.len() - i,
    {
        let plugins: &Vec<DetectedBuiltinPlugin> = &contexts[i].plugins;
        assert(model[i as int].plugins == plugins.deep_view());
        let mut j: usize = 0;
        while j < plugins.len()
            invariant
                i < contexts.len(),
                j <= plugins.len(),
                model == contexts.deep_view(),
                model[i as int].plugins == plugins.deep_view(),
                forall|b: int|
                    0 <= b < j ==> !#[trigger] transforms_files(model[i as int].plugins[b]),
            decreases plugins.len() - j,
        {
            let transforms: &Vec<FileTransformContribution> =
                &plugins[j].plugin.contributions.file_transforms;
            assert(transforms.deep_view().len() == transforms@.len());
            if transforms.len() > 0 {
                assert(transforms_files(model[i as int].plugins[j as int]));
                return true;
            }
            j = j + 1;
        }
        i = i + 1;
    }
    false
}

/// What is said where there are more physical files than may be held.
pub open spec fn too_many_files(limit: usize) -> Seq<char> {
    "the physical candidate count exceeded the configured limit of "@ + digits(limit as nat)
}

/// Adds a file to those found for transforms; where that makes more than may be held, none is
/// left, and the search is given up for the reason that comes back.
pub fn add_physical_file(
    files: &mut Vec<FilePath>,
    path: FilePath,
    limits: AnalysisLimits,
) -> (r: Option<AnalysisDiagnostic>)
    ensures
        old(files).deep_view().len() < limits.max_discovered_files ==> r is None
            && final(files).deep_view() == old(files).deep_view().push(path.deep_view()),
        old(files).deep_view().len() >= limits.max_discovered_files ==> r.deep_view() == Some(
            transform_discovery_stopped(too_many_files(limits.max_discovered_files)),
        ) && final(files).deep_view().len() == 0,
{
    assert(files.deep_view().len() == files@.len());
    if files.len() >= limits.max_discovered_files {
        files.clear();
        let limit: String = decimal(limits.max_discovered_files as u64);
        return Some(
            plugin_transform_discovery_diagnostic(
                &concat2("the physical candidate count exceeded the configured limit of ", &limit),
            ),
        );
    }
    push_item(files, path);
    None
}

} // verus!
