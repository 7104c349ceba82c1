//! From the files of a project and what is known of them to a report.

use crate::analysis::members::{MemberDecision, MemberDecisionModel};
use crate::application::diagnostics::{
    analysis_status, any_blocks, enforce_diagnostic_limit, has_blocker, limited_by_file,
    limited_len, sort_diagnostics, status_of, ByPlace,
};
use crate::application::errors::{
    CountExceeded, PathFailure, PathFailureModel, ScanError, ScanErrorModel,
};
use crate::application::findings::{
    build_findings, build_symbol_findings, declaration_findings, export_findings, file_findings,
    sort_findings, ByFindingPlace, SymbolAnalysis, SymbolAnalysisModel,
};
use crate::application::member_results::{
    all_members, build_member_results, ByRetainedItem, MemberResults,
};
use crate::application::resolution::{
    add_additional_file_edges, added_edges_are_inside, edges_are_inside, resolve_imports, resolved_imports, with_edges, AdditionalFileEdge,
    AdditionalFileEdgeModel, ByImportPlace, ModuleResolution, ModuleResolutionModel, PreparedFile,
    PreparedFileModel, ResolutionInput, ResolutionInputModel, ResolvedImports,
    SourceUniverseKind, WithEdgesModel, WorkspaceModuleTarget, WorkspaceModuleTargetModel,
};
use crate::application::symbols::{
    build_symbol_links, open_world_files, opened, symbol_links, ResolvedSymbolLink,
};
use crate::collections::{
    lookup, sorted_by, sorted_by_keeps_items, with_entry, with_item, OrderedMap, OrderedSet,
};
use crate::domain::facts::{
    AnalysisDiagnostic, AnalysisDiagnosticModel, FileFacts, FileFactsModel, ImportFact,
    ImportFactModel,
};
use crate::domain::graph::{
    components, components_hold_included_files, components_within,
    every_included_file_has_a_component, reachable_from_many, reached_from,
};
use crate::domain::report::{
    AnalysisStatus, CacheReport, CacheReportModel, FileReport, FileReportModel, FileStatus,
    Finding, FindingModel, ImportReport, ImportReportModel, ReportSummary, RetentionReport,
    ScanReport, ScanReportModel, REPORT_SCHEMA_VERSION,
};
use crate::paths::{names_of, path_below, written, FilePath, PathPartModel};
use crate::text::same;
use crate::values::{append_items, push_item, Ordered, Value};
use vstd::prelude::*;

verus! {

/// How much a scan takes on.
#[derive(Debug, Clone, Copy, PartialEq, Eq, Structural)]
pub struct AnalysisLimits {
    pub max_discovered_files: usize,
    pub max_source_file_bytes: u64,
    pub max_diagnostics: usize,
    pub max_pattern_expansions: usize,
}

impl DeepView for AnalysisLimits {
    type V = AnalysisLimits;

    open spec fn deep_view(&self) -> AnalysisLimits {
        *self
    }
}

impl Value for AnalysisLimits {
    fn replicate(&self) -> (r: Self) {
        *self
    }

    fn same_value(&self, other: &Self) -> (r: bool) {
        *self == *other
    }
}

/// What a scan takes on where nothing else is said.
pub open spec fn default_limits() -> AnalysisLimits {
    AnalysisLimits {
        max_discovered_files: 100_000,
        max_source_file_bytes: 16_777_216,
        max_diagnostics: 10_000,
        max_pattern_expansions: 100_000,
    }
}

impl Default for AnalysisLimits {
    fn default() -> (r: AnalysisLimits)
        ensures
            r == default_limits(),
    {
        AnalysisLimits {
            max_discovered_files: 100_000,
            max_source_file_bytes: 16_777_216,
            max_diagnostics: 10_000,
            max_pattern_expansions: 100_000,
        }
    }
}

/// What the file system says of a path.
#[derive(Debug, PartialEq, Eq)]
pub enum Canonical {
    /// The path without links.
    Found(FilePath),
    /// There is no such file; why.
    Missing(String),
}

/// What a [`Canonical`] holds.
pub enum CanonicalModel {
    Found(Seq<PathPartModel>),
    Missing(Seq<char>),
}

impl DeepView for Canonical {
    type V = CanonicalModel;

    open spec fn deep_view(&self) -> CanonicalModel {
        match self {
            Canonical::Found(x) => CanonicalModel::Found(x.deep_view()),
            Canonical::Missing(x) => CanonicalModel::Missing(x.deep_view()),
        }
    }
}

impl Value for Canonical {
    fn replicate(&self) -> (r: Self) {
        match self {
            Canonical::Found(x) => Canonical::Found(x.replicate()),
            Canonical::Missing(x) => Canonical::Missing(x.replicate()),
        }
    }

    fn same_value(&self, other: &Self) -> (r: bool) {
        match (self, other) {
            (Canonical::Found(x), Canonical::Found(y)) => x.same_value(y),
            (Canonical::Missing(x), Canonical::Missing(y)) => x.same_value(y),
            _ => false,
        }
    }
}

/// A path as it was supplied, and what the file system says of it.
#[derive(Debug, PartialEq, Eq)]
pub struct SuppliedPath {
    pub supplied: String,
    pub canonical: Canonical,
}

/// What a [`SuppliedPath`] holds.
pub struct SuppliedPathModel {
    pub supplied: Seq<char>,
    pub canonical: CanonicalModel,
}

impl DeepView for SuppliedPath {
    type V = SuppliedPathModel;

    open spec fn deep_view(&self) -> SuppliedPathModel {
        SuppliedPathModel {
            supplied: self.supplied.deep_view(),
            canonical: self.canonical.deep_view(),
        }
    }
}

impl Value for SuppliedPath {
    fn replicate(&self) -> (r: Self) {
        SuppliedPath {
            supplied: self.supplied.replicate(),
            canonical: self.canonical.replicate(),
        }
    }

    fn same_value(&self, other: &Self) -> (r: bool) {
        self.supplied.same_value(&other.supplied)
            && self.canonical.same_value(&other.canonical)
    }
}

/// Which files to scan, and where to start.
#[derive(Debug, PartialEq, Eq)]
pub struct ScanRequest {
    pub root: FilePath,
    pub entries: Vec<SuppliedPath>,
    pub files: Vec<SuppliedPath>,
}

/// What a [`ScanRequest`] holds.
pub struct ScanRequestModel {
    pub root: Seq<PathPartModel>,
    pub entries: Seq<SuppliedPathModel>,
    pub files: Seq<SuppliedPathModel>,
}

impl DeepView for ScanRequest {
    type V = ScanRequestModel;

    open spec fn deep_view(&self) -> ScanRequestModel {
        ScanRequestModel {
            root: self.root.deep_view(),
            entries: self.entries.deep_view(),
            files: self.files.deep_view(),
        }
    }
}

impl Value for ScanRequest {
    fn replicate(&self) -> (r: Self) {
        ScanRequest {
            root: self.root.replicate(),
            entries: self.entries.replicate(),
            files: self.files.replicate(),
        }
    }

    fn same_value(&self, other: &Self) -> (r: bool) {
        self.root.same_value(&other.root)
            && self.entries.same_value(&other.entries)
            && self.files.same_value(&other.files)
    }
}

/// Where a supplied path leads, or why it cannot be used.
pub open spec fn source_path(
    root: Seq<PathPartModel>,
    path: SuppliedPathModel,
) -> Result<Seq<PathPartModel>, ScanErrorModel> {
    match path.canonical {
        CanonicalModel::Missing(reason) => Err(
            ScanErrorModel::SourcePath(PathFailureModel { path: path.supplied, reason }),
        ),
        CanonicalModel::Found(physical) => if path_below(physical, root) is Some {
            Ok(physical)
        } else {
            Err(ScanErrorModel::SourceOutsideRoot(path.supplied))
        },
    }
}

/// Where a supplied path leads, or why it cannot be used.
fn canonical_source(root: &FilePath, path: &SuppliedPath) -> (r: Result<FilePath, ScanError>)
    ensures
        match r {
            Ok(physical) => source_path(root.deep_view(), path.deep_view()) == Ok::<
                Seq<PathPartModel>,
                ScanErrorModel,
            >(physical.deep_view()),
            Err(error) => source_path(root.deep_view(), path.deep_view()) == Err::<
                Seq<PathPartModel>,
                ScanErrorModel,
            >(error.deep_view()),
        },
{
    match &path.canonical {
        Canonical::Missing(reason) => Err(
            ScanError::SourcePath(
                PathFailure { path: path.supplied.replicate(), reason: reason.replicate() },
            ),
        ),
        Canonical::Found(physical) => {
            if physical.strip_prefix(root).is_some() {
                Ok(physical.replicate())
            } else {
                Err(ScanError::SourceOutsideRoot(path.supplied.replicate()))
            }
        },
    }
}

/// How a file below the root is called.
pub open spec fn display(root: Seq<PathPartModel>, physical: Seq<PathPartModel>) -> Seq<char> {
    match path_below(physical, root) {
        Some(below) => written(names_of(below)),
        None => written(names_of(physical)),
    }
}

/// How a file below the root is called.
#[must_use]
pub fn display_path(root: &FilePath, physical_path: &FilePath) -> (r: String)
    ensures
        r@ == display(root.deep_view(), physical_path.deep_view()),
{
    match physical_path.strip_prefix(root) {
        Some(below) => below.names().text(),
        None => physical_path.names().text(),
    }
}

/// How the file at a path is called.
pub open spec fn name_at(
    items: Seq<(Seq<char>, Seq<PathPartModel>)>,
    physical: Seq<PathPartModel>,
) -> Option<Seq<char>>
    decreases items.len(),
{
    if items.len() == 0 {
        None
    } else {
        let rest = name_at(items.drop_last(), physical);
        let last = items.last();
        if rest is Some {
            rest
        } else if last.1 == physical {
            Some(last.0)
        } else {
            None
        }
    }
}

/// The files of a list by what they are called, with one more.
pub open spec fn with_file(
    root: Seq<PathPartModel>,
    rest: Seq<(Seq<char>, Seq<PathPartModel>)>,
    path: SuppliedPathModel,
) -> Result<Seq<(Seq<char>, Seq<PathPartModel>)>, ScanErrorModel> {
    match source_path(root, path) {
        Ok(physical) => match name_at(rest, physical) {
            Some(first) => Err(ScanErrorModel::DuplicateSource(first)),
            None => if lookup(rest, display(root, physical)) is Some {
                Err(ScanErrorModel::DuplicateDisplayPath(display(root, physical)))
            } else {
                Ok(with_entry::<String, Seq<PathPartModel>>(rest, display(root, physical), physical))
            },
        },
        Err(error) => Err(error),
    }
}

/// The files of a list by what they are called, or why there is no such list: the
/// first path that cannot be used.
pub open spec fn files_by_name(
    items: Seq<SuppliedPathModel>,
    root: Seq<PathPartModel>,
) -> Result<Seq<(Seq<char>, Seq<PathPartModel>)>, ScanErrorModel>
    decreases items.len(),
{
    if items.len() == 0 {
        Ok(Seq::empty())
    } else {
        let rest = files_by_name(items.drop_last(), root);
        let last = items.last();
        match rest {
            Ok(files) => with_file(root, files, last),
            Err(error) => Err(error),
        }
    }
}

/// The files as a list.
pub open spec fn as_files(entries: Seq<(Seq<char>, Seq<PathPartModel>)>) -> Seq<PreparedFileModel> {
    entries.map_values(
        |entry: (Seq<char>, Seq<PathPartModel>)|
            PreparedFileModel { physical_path: entry.1, display_path: entry.0 },
    )
}

/// The files to analyze, by what they are called, or why there is no such list.
pub open spec fn prepared_files(request: ScanRequestModel) -> Result<
    Seq<PreparedFileModel>,
    ScanErrorModel,
> {
    if request.files.len() == 0 {
        Err(ScanErrorModel::EmptyFileUniverse)
    } else {
        match files_by_name(request.files, request.root) {
            Ok(files) => Ok(as_files(files)),
            Err(error) => Err(error),
        }
    }
}

proof fn files_by_name_fails_early(
    paths: Seq<SuppliedPathModel>,
    root: Seq<PathPartModel>,
    n: int,
)
    requires
        0 <= n <= paths.len(),
        files_by_name(paths.take(n), root) is Err,
    ensures
        files_by_name(paths, root) == files_by_name(paths.take(n), root),
    decreases paths.len() - n,
{
    if n < paths.len() {
        assert(paths.take(n + 1).drop_last() =~= paths.take(n));
        files_by_name_fails_early(paths, root, n + 1);
    } else {
        assert(paths.take(n) =~= paths);
    }
}

fn find_name(files: &OrderedMap<String, FilePath>, physical: &FilePath) -> (r: Option<String>)
    ensures
        r.deep_view() == name_at(files.deep_view(), physical.deep_view()),
{
    let entries: &Vec<(String, FilePath)> = files.entries();
    let mut found: Option<String> = None;
    let ghost model = entries.deep_view();
    let mut i: usize = 0;
    while i < entries.len()
        invariant
            i <= entries.len(),
            model == entries.deep_view(),
            found.deep_view() == name_at(model.take(i as int), physical.deep_view()),
        decreases entries.len() - i,
    {
        proof {
            assert(model.take(i + 1).drop_last() =~= model.take(i as int));
            assert(model.take(i + 1).last() == entries@[i as int].deep_view());
        }
        let missing: bool = found.is_none();
        if missing && entries[i].1.same_value(physical) {
            found = Some(entries[i].0.replicate());
        }
        i = i + 1;
    }
    assert(model.take(i as int) =~= model);
    found
}

/// The files to analyze, by what they are called.
pub fn prepare_files(request: &ScanRequest) -> (r: Result<Vec<PreparedFile>, ScanError>)
    ensures
        match r {
            Ok(files) => prepared_files(request.deep_view()) == Ok::<
                Seq<PreparedFileModel>,
                ScanErrorModel,
            >(files.deep_view()),
            Err(error) => prepared_files(request.deep_view()) == Err::<
                Seq<PreparedFileModel>,
                ScanErrorModel,
            >(error.deep_view()),
        },
{
    if request.files.len() == 0 {
        return Err(ScanError::EmptyFileUniverse);
    }
    let paths: &Vec<SuppliedPath> = &request.files;
    let ghost model = paths.deep_view();
    let ghost root = request.root.deep_view();
    let ghost whole = request.deep_view();
    let mut files: OrderedMap<String, FilePath> = OrderedMap::new();
    let mut i: usize = 0;
    while i < paths.len()
        invariant
            i <= paths.len(),
            paths@.len() > 0,
            model == paths.deep_view(),
            root == request.root.deep_view(),
            whole == request.deep_view(),
            whole.files == model,
            whole.root == root,
            files_by_name(model.take(i as int), root) == Ok::<
                Seq<(Seq<char>, Seq<PathPartModel>)>,
                ScanErrorModel,
            >(files.deep_view()),
        decreases paths.len() - i,
    {
        proof {
            assert(model.take(i + 1).drop_last() =~= model.take(i as int));
            assert(model.take(i + 1).last() == paths@[i as int].deep_view());
        }
        match canonical_source(&request.root, &paths[i]) {
            Ok(physical) => {
                let name: String = display_path(&request.root, &physical);
                match find_name(&files, &physical) {
                    Some(first) => {
                        proof {
                            files_by_name_fails_early(model, root, i + 1);
                        }
                        return Err(ScanError::DuplicateSource(first));
                    },
                    None => {},
                }
                if files.contains_key(&name) {
                    proof {
                        files_by_name_fails_early(model, root, i + 1);
                    }
                    return Err(ScanError::DuplicateDisplayPath(name));
                }
                files.insert(name, physical);
            },
            Err(error) => {
                proof {
                    files_by_name_fails_early(model, root, i + 1);
                }
                return Err(error);
            },
        }
        i = i + 1;
    }
    assert(model.take(i as int) =~= model);
    let entries: &Vec<(String, FilePath)> = files.entries();
    let ghost listed = files.deep_view();
    let mut out: Vec<PreparedFile> = Vec::new();
    let mut k: usize = 0;
    while k < entries.len()
        invariant
            k <= entries.len(),
            listed == entries.deep_view(),
            out.deep_view() =~= as_files(listed.take(k as int)),
        decreases entries.len() - k,
    {
        assert(listed.take(k + 1) =~= listed.take(k as int).push(entries@[k as int].deep_view()));
        push_item(
            &mut out,
            PreparedFile {
                physical_path: entries[k].1.replicate(),
                display_path: entries[k].0.replicate(),
            },
        );
        k = k + 1;
    }
    assert(listed.take(k as int) =~= listed);
    Ok(out)
}

/// The place of the file at a path.
pub open spec fn place_at(
    items: Seq<PreparedFileModel>,
    physical: Seq<PathPartModel>,
) -> Option<usize>
    decreases items.len(),
{
    if items.len() == 0 {
        None
    } else {
        let rest = place_at(items.drop_last(), physical);
        let last = items.last();
        if last.physical_path == physical {
            Some((items.len() - 1) as usize)
        } else {
            rest
        }
    }
}

fn find_place(files: &Vec<PreparedFile>, physical: &FilePath) -> (r: Option<usize>)
    ensures
        r == place_at(files.deep_view(), physical.deep_view()),
        r matches Some(i) ==> i < files@.len(),
{
    let mut found: Option<usize> = None;
    let ghost model = files.deep_view();
    let mut i: usize = 0;
    while i < files.len()
        invariant
            i <= files.len(),
            model == files.deep_view(),
            found == place_at(model.take(i as int), physical.deep_view()),
            found matches Some(k) ==> k < i,
        decreases files.len() - i,
    {
        proof {
            assert(model.take(i + 1).drop_last() =~= model.take(i as int));
            assert(model.take(i + 1).last() == files@[i as int].deep_view());
        }
        if files[i].physical_path.same_value(physical) {
            found = Some(i);
        }
        i = i + 1;
    }
    assert(model.take(i as int) =~= model);
    found
}

/// The places of entries, with one more.
pub open spec fn with_entry_at(
    root: Seq<PathPartModel>,
    files: Seq<PreparedFileModel>,
    rest: Seq<usize>,
    path: SuppliedPathModel,
) -> Result<Seq<usize>, ScanErrorModel> {
    match source_path(root, path) {
        Ok(physical) => match place_at(files, physical) {
            Some(place) => if with_item::<usize>(rest, place) == rest {
                Err(ScanErrorModel::DuplicateEntry(path.supplied))
            } else {
                Ok(with_item::<usize>(rest, place))
            },
            None => Err(ScanErrorModel::EntryNotSupplied(path.supplied)),
        },
        Err(error) => Err(error),
    }
}

/// The places of entries in order, or why there is no such list: the first that cannot
/// be used.
pub open spec fn entry_places(
    items: Seq<SuppliedPathModel>,
    root: Seq<PathPartModel>,
    files: Seq<PreparedFileModel>,
) -> Result<Seq<usize>, ScanErrorModel>
    decreases items.len(),
{
    if items.len() == 0 {
        Ok(Seq::empty())
    } else {
        let rest = entry_places(items.drop_last(), root, files);
        let last = items.last();
        match rest {
            Ok(places) => with_entry_at(root, files, places, last),
            Err(error) => Err(error),
        }
    }
}

/// The places of the entries in order, or why there is no such list.
pub open spec fn prepared_entries(
    request: ScanRequestModel,
    files: Seq<PreparedFileModel>,
) -> Result<Seq<usize>, ScanErrorModel> {
    if request.entries.len() == 0 {
        Err(ScanErrorModel::EmptyEntries)
    } else {
        entry_places(request.entries, request.root, files)
    }
}

proof fn entry_places_fail_early(
    paths: Seq<SuppliedPathModel>,
    root: Seq<PathPartModel>,
    files: Seq<PreparedFileModel>,
    n: int,
)
    requires
        0 <= n <= paths.len(),
        entry_places(paths.take(n), root, files) is Err,
    ensures
        entry_places(paths, root, files) == entry_places(paths.take(n), root, files),
    decreases paths.len() - n,
{
    if n < paths.len() {
        assert(paths.take(n + 1).drop_last() =~= paths.take(n));
        entry_places_fail_early(paths, root, files, n + 1);
    } else {
        assert(paths.take(n) =~= paths);
    }
}

/// The places of the entries in order.
pub fn prepare_entries(request: &ScanRequest, files: &Vec<PreparedFile>) -> (r: Result<
    Vec<usize>,
    ScanError,
>)
    ensures
        match r {
            Ok(places) => prepared_entries(request.deep_view(), files.deep_view()) == Ok::<
                Seq<usize>,
                ScanErrorModel,
            >(places.deep_view()) && forall|k: int|
                0 <= k < places@.len() ==> #[trigger] places@[k] < files@.len(),
            Err(error) => prepared_entries(request.deep_view(), files.deep_view()) == Err::<
                Seq<usize>,
                ScanErrorModel,
            >(error.deep_view()),
        },
{
    if request.entries.len() == 0 {
        return Err(ScanError::EmptyEntries);
    }
    let paths: &Vec<SuppliedPath> = &request.entries;
    let ghost model = paths.deep_view();
    let ghost root = request.root.deep_view();
    let ghost known = files.deep_view();
    let mut places: OrderedSet<usize> = OrderedSet::new();
    let mut i: usize = 0;
    while i < paths.len()
        invariant
            i <= paths.len(),
            paths@.len() > 0,
            model == paths.deep_view(),
            root == request.root.deep_view(),
            known == files.deep_view(),
            request.deep_view().entries == model,
            request.deep_view().root == root,
            entry_places(model.take(i as int), root, known) == Ok::<Seq<usize>, ScanErrorModel>(
                places.deep_view(),
            ),
            forall|x: usize| #[trigger] places.deep_view().contains(x) ==> x < files@.len(),
        decreases paths.len() - i,
    {
        proof {
            assert(model.take(i + 1).drop_last() =~= model.take(i as int));
            assert(model.take(i + 1).last() == paths@[i as int].deep_view());
        }
        match canonical_source(&request.root, &paths[i]) {
            Ok(physical) => {
                match find_place(files, &physical) {
                    Some(place) => {
                        let ghost before = places.deep_view();
                        let new: bool = places.insert(place);
                        proof {
                            crate::collections::with_item_contains::<usize>(before, place);
                        }
                        if !new {
                            proof {
                                entry_places_fail_early(model, root, known, i + 1);
                            }
                            return Err(ScanError::DuplicateEntry(paths[i].supplied.replicate()));
                        }
                    },
                    None => {
                        proof {
                            entry_places_fail_early(model, root, known, i + 1);
                        }
                        return Err(ScanError::EntryNotSupplied(paths[i].supplied.replicate()));
                    },
                }
            },
            Err(error) => {
                proof {
                    entry_places_fail_early(model, root, known, i + 1);
                }
                return Err(error);
            },
        }
        i = i + 1;
    }
    assert(model.take(i as int) =~= model);
    proof {
        assert forall|k: int| 0 <= k < places.items()@.len() implies #[trigger] places.items()@[k]
            < files@.len() by {
            assert(places.deep_view()[k] == places.items()@[k]);
            assert(places.deep_view().contains(places.items()@[k]));
        }
    }
    Ok(places.into_items())
}

/// Whether a diagnostic says that a file could not be analyzed at all.
pub open spec fn is_fatal(code: Seq<char>) -> bool {
    ||| code == "parse_failure"@
    ||| code == "semantic_failure"@
    ||| code == "unsupported_source_type"@
}

/// Whether a diagnostic among them says that the file could not be analyzed at all.
pub open spec fn any_fatal(diagnostics: Seq<AnalysisDiagnosticModel>) -> bool {
    exists|i: int| 0 <= i < diagnostics.len() && is_fatal((#[trigger] diagnostics[i]).code)
}

/// Whether a diagnostic among them says that the file could not be analyzed at all.
#[must_use]
pub fn has_fatal_file_diagnostic(diagnostics: &Vec<AnalysisDiagnostic>) -> (r: bool)
    ensures
        r == any_fatal(diagnostics.deep_view()),
{
    let ghost model = diagnostics.deep_view();
    let mut i: usize = 0;
    while i < diagnostics.len()
        invariant
            i <= diagnostics.len(),
            model == diagnostics.deep_view(),
            forall|k: int| 0 <= k < i ==> !is_fatal((#[trigger] model[k]).code),
        decreases diagnostics.len() - i,
    {
        assert(model[i as int] == diagnostics@[i as int].deep_view());
        let code: &String = &diagnostics[i].code;
        if same(code, "parse_failure") || same(code, "semantic_failure") || same(
            code,
            "unsupported_source_type",
        ) {
            return true;
        }
        i = i + 1;
    }
    false
}

/// What is concluded of a file. Where something in use blocks conclusions, nothing is
/// said of what is not known to be in use.
pub open spec fn file_status(
    diagnostics: Seq<AnalysisDiagnosticModel>,
    reachable: bool,
    has_reachable_blocker: bool,
) -> FileStatus {
    if any_fatal(diagnostics) || (has_reachable_blocker && !reachable) {
        FileStatus::Incomplete
    } else if reachable {
        FileStatus::Reachable
    } else {
        FileStatus::Unreachable
    }
}

/// What is concluded of each file.
pub open spec fn file_statuses(
    diagnostics: Seq<Seq<AnalysisDiagnosticModel>>,
    reachable: Seq<bool>,
    has_reachable_blocker: bool,
) -> Seq<FileStatus> {
    Seq::new(
        diagnostics.len(),
        |i: int| file_status(diagnostics[i], reachable[i], has_reachable_blocker),
    )
}

/// What is concluded of each file.
#[must_use]
pub fn classify_files(
    diagnostics: &Vec<Vec<AnalysisDiagnostic>>,
    reachable: &Vec<bool>,
    has_reachable_blocker: bool,
) -> (r: Vec<FileStatus>)
    requires
        reachable@.len() == diagnostics@.len(),
    ensures
        r.deep_view() == file_statuses(
            diagnostics.deep_view(),
            reachable.deep_view(),
            has_reachable_blocker,
        ),
        r@ == r.deep_view(),
{
    let ghost model = diagnostics.deep_view();
    let ghost live = reachable.deep_view();
    let mut out: Vec<FileStatus> = Vec::new();
    let mut i: usize = 0;
    while i < diagnostics.len()
        invariant
            i <= diagnostics.len(),
            reachable@.len() == diagnostics@.len(),
            model == diagnostics.deep_view(),
            live == reachable.deep_view(),
            out@.len() == i,
            forall|k: int|
                0 <= k < i ==> #[trigger] out@[k] == file_status(
                    model[k],
                    live[k],
                    has_reachable_blocker,
                ),
        decreases diagnostics.len() - i,
    {
        assert(model[i as int] == diagnostics@[i as int].deep_view());
        assert(live[i as int] == reachable@[i as int]);
        let status: FileStatus = if has_fatal_file_diagnostic(&diagnostics[i]) || (
        has_reachable_blocker && !reachable[i]) {
            FileStatus::Incomplete
        } else if reachable[i] {
            FileStatus::Reachable
        } else {
            FileStatus::Unreachable
        };
        out.push(status);
        i = i + 1;
    }
    assert(out.deep_view() =~= file_statuses(model, live, has_reachable_blocker));
    assert(out@ =~= out.deep_view());
    out
}

/// Whether a file in use has a diagnostic that blocks conclusions.
pub open spec fn reachable_blocker(
    diagnostics: Seq<Seq<AnalysisDiagnosticModel>>,
    reachable: Seq<bool>,
) -> bool {
    exists|i: int|
        0 <= i < diagnostics.len() && reachable[i] && any_blocks(#[trigger] diagnostics[i])
}

fn has_reachable_blocker(
    diagnostics: &Vec<Vec<AnalysisDiagnostic>>,
    reachable: &Vec<bool>,
) -> (r: bool)
    requires
        reachable@.len() == diagnostics@.len(),
    ensures
        r == reachable_blocker(diagnostics.deep_view(), reachable@),
{
    let ghost model = diagnostics.deep_view();
    let mut i: usize = 0;
    while i < diagnostics.len()
        invariant
            i <= diagnostics.len(),
            reachable@.len() == diagnostics@.len(),
            model == diagnostics.deep_view(),
            forall|k: int|
                0 <= k < i ==> !(reachable@[k] && any_blocks(#[trigger] model[k])),
        decreases diagnostics.len() - i,
    {
        assert(model[i as int] == diagnostics@[i as int].deep_view());
        if reachable[i] && has_blocker(&diagnostics[i]) {
            return true;
        }
        i = i + 1;
    }
    false
}

/// The diagnostics of all files in one list.
pub open spec fn flattened(items: Seq<Seq<AnalysisDiagnosticModel>>) -> Seq<AnalysisDiagnosticModel>
    decreases items.len(),
{
    if items.len() == 0 {
        Seq::empty()
    } else {
        let rest = flattened(items.drop_last());
        let last = items.last();
        rest + last
    }
}

/// How many files have a status.
pub open spec fn status_count(items: Seq<FileStatus>, status: FileStatus) -> nat
    decreases items.len(),
{
    if items.len() == 0 {
        0
    } else {
        let rest = status_count(items.drop_last(), status);
        let last = items.last();
        if last == status { rest + 1 } else { rest }
    }
}

/// A status for each target profile.
pub open spec fn status_by_target(
    items: Seq<Seq<char>>,
    status: FileStatus,
) -> Seq<(Seq<char>, FileStatus)>
    decreases items.len(),
{
    if items.len() == 0 {
        Seq::empty()
    } else {
        let rest = status_by_target(items.drop_last(), status);
        let last = items.last();
        with_entry::<String, FileStatus>(rest, last, status)
    }
}

fn flatten(files: &Vec<Vec<AnalysisDiagnostic>>) -> (r: Vec<AnalysisDiagnostic>)
    ensures
        r.deep_view() == flattened(files.deep_view()),
{
    let mut out: Vec<AnalysisDiagnostic> = Vec::new();
    let ghost model = files.deep_view();
    let mut i: usize = 0;
    while i < files.len()
        invariant
            i <= files.len(),
            model == files.deep_view(),
            out.deep_view() =~= flattened(model.take(i as int)),
        decreases files.len() - i,
    {
        proof {
            assert(model.take(i + 1).drop_last() =~= model.take(i as int));
            assert(model.take(i + 1).last() == files@[i as int].deep_view());
        }
        append_items(&mut out, &files[i]);
        i = i + 1;
    }
    assert(model.take(i as int) =~= model);
    out
}

fn count_status(statuses: &Vec<FileStatus>, status: FileStatus) -> (r: usize)
    ensures
        r == status_count(statuses.deep_view(), status),
{
    let mut count: usize = 0;
    let ghost model = statuses.deep_view();
    let mut i: usize = 0;
    while i < statuses.len()
        invariant
            i <= statuses.len(),
            model == statuses.deep_view(),
            count == status_count(model.take(i as int), status),
            count <= i,
        decreases statuses.len() - i,
    {
        proof {
            assert(model.take(i + 1).drop_last() =~= model.take(i as int));
            assert(model.take(i + 1).last() == statuses@[i as int].deep_view());
        }
        if statuses[i] == status {
            count = count + 1;
        }
        i = i + 1;
    }
    assert(model.take(i as int) =~= model);
    count
}

fn statuses_for(profiles: &Vec<String>, status: FileStatus) -> (r: OrderedMap<String, FileStatus>)
    ensures
        r.deep_view() == status_by_target(profiles.deep_view(), status),
{
    let mut out: OrderedMap<String, FileStatus> = OrderedMap::new();
    let ghost model = profiles.deep_view();
    let mut i: usize = 0;
    while i < profiles.len()
        invariant
            i <= profiles.len(),
            model == profiles.deep_view(),
            out.deep_view() == status_by_target(model.take(i as int), status),
        decreases profiles.len() - i,
    {
        proof {
            assert(model.take(i + 1).drop_last() =~= model.take(i as int));
            assert(model.take(i + 1).last() == profiles@[i as int].deep_view());
        }
        out.insert(profiles[i].replicate(), status);
        i = i + 1;
    }
    assert(model.take(i as int) =~= model);
    out
}

/// What the report says of a file.
pub open spec fn file_report(
    facts: FileFactsModel,
    status: FileStatus,
    target_profiles: Seq<Seq<char>>,
    content_digest: Seq<char>,
    imports: Seq<ImportReportModel>,
) -> FileReportModel {
    FileReportModel {
        path: facts.path,
        status: status,
        target_statuses: status_by_target(target_profiles, status),
        source_kind: facts.source_kind,
        module_kind: facts.module_kind,
        byte_len: facts.byte_len,
        line_count: facts.line_count,
        content_digest: content_digest,
        imports: imports,
        exports: facts.exports,
    }
}

fn build_file_report(
    facts: &FileFacts,
    status: FileStatus,
    target_profiles: &Vec<String>,
    content_digest: &str,
    imports: &Vec<ImportReport>,
) -> (r: FileReport)
    ensures
        r.deep_view() == file_report(facts.deep_view(), status, target_profiles.deep_view(), content_digest@, imports.deep_view()),
{
    FileReport {
        path: facts.path.replicate(),
        status: status,
        target_statuses: statuses_for(target_profiles, status),
        source_kind: facts.source_kind,
        module_kind: facts.module_kind,
        byte_len: facts.byte_len,
        line_count: facts.line_count,
        content_digest: content_digest.to_string(),
        imports: imports.replicate(),
        exports: facts.exports.replicate(),
    }
}

/// What the report says of each file.
pub open spec fn file_reports(
    facts: Seq<FileFactsModel>,
    statuses: Seq<FileStatus>,
    target_profiles: Seq<Seq<char>>,
    content_digests: Seq<Seq<char>>,
    imports: Seq<Seq<ImportReportModel>>,
) -> Seq<FileReportModel> {
    Seq::new(
        facts.len(),
        |i: int|
            file_report(facts[i], statuses[i], target_profiles, content_digests[i], imports[i]),
    )
}

fn build_file_reports(
    facts: &Vec<FileFacts>,
    statuses: &Vec<FileStatus>,
    target_profiles: &Vec<String>,
    content_digests: &Vec<String>,
    imports: &Vec<Vec<ImportReport>>,
) -> (r: Vec<FileReport>)
    requires
        statuses@.len() == facts@.len(),
        content_digests@.len() == facts@.len(),
        imports@.len() == facts@.len(),
    ensures
        r.deep_view() == file_reports(
            facts.deep_view(),
            statuses.deep_view(),
            target_profiles.deep_view(),
            content_digests.deep_view(),
            imports.deep_view(),
        ),
{
    let ghost all = file_reports(
        facts.deep_view(),
        statuses.deep_view(),
        target_profiles.deep_view(),
        content_digests.deep_view(),
        imports.deep_view(),
    );
    let mut out: Vec<FileReport> = Vec::new();
    let mut i: usize = 0;
    while i < facts.len()
        invariant
            i <= facts.len(),
            statuses@.len() == facts@.len(),
            content_digests@.len() == facts@.len(),
            imports@.len() == facts@.len(),
            all == file_reports(
                facts.deep_view(),
                statuses.deep_view(),
                target_profiles.deep_view(),
                content_digests.deep_view(),
                imports.deep_view(),
            ),
            out.deep_view() =~= all.take(i as int),
        decreases facts.len() - i,
    {
        let report: FileReport = build_file_report(
            &facts[i],
            statuses[i],
            target_profiles,
            &content_digests[i],
            &imports[i],
        );
        proof {
            assert(facts.deep_view()[i as int] == facts@[i as int].deep_view());
            assert(statuses.deep_view()[i as int] == statuses@[i as int]);
            assert(content_digests.deep_view()[i as int] == content_digests@[i as int]@);
            assert(imports.deep_view()[i as int] == imports@[i as int].deep_view());
            assert(all.take(i + 1) =~= all.take(i as int).push(all[i as int]));
        }
        push_item(&mut out, report);
        i = i + 1;
    }
    assert(all.take(i as int) =~= all);
    out
}

/// What is known of the files of a scan, file by file in the order of what they are
/// called.
#[derive(Debug, PartialEq, Eq)]
pub struct ScanEvidence {
    /// What parsing each file brought to light.
    pub facts: Vec<FileFacts>,
    pub content_digests: Vec<String>,
    /// What the resolver says of each import.
    pub resolutions: Vec<Vec<ModuleResolution>>,
    pub additional_file_edges: Vec<AdditionalFileEdge>,
    /// Whether entries are open to the world where none are named.
    pub manifest_open_world: bool,
    /// The entries that are open to the world.
    pub open_world_entries: Option<OrderedSet<String>>,
    pub symbol_analysis: SymbolAnalysis,
    /// What is concluded of each member of the files in use.
    pub member_decisions: Vec<Vec<MemberDecision>>,
    pub cache: Option<CacheReport>,
}

/// What a [`ScanEvidence`] holds.
pub struct ScanEvidenceModel {
    pub facts: Seq<FileFactsModel>,
    pub content_digests: Seq<Seq<char>>,
    pub resolutions: Seq<Seq<ModuleResolutionModel>>,
    pub additional_file_edges: Seq<AdditionalFileEdgeModel>,
    pub manifest_open_world: bool,
    pub open_world_entries: Option<Seq<Seq<char>>>,
    pub symbol_analysis: SymbolAnalysisModel,
    pub member_decisions: Seq<Seq<MemberDecisionModel>>,
    pub cache: Option<CacheReportModel>,
}

impl DeepView for ScanEvidence {
    type V = ScanEvidenceModel;

    open spec fn deep_view(&self) -> ScanEvidenceModel {
        ScanEvidenceModel {
            facts: self.facts.deep_view(),
            content_digests: self.content_digests.deep_view(),
            resolutions: self.resolutions.deep_view(),
            additional_file_edges: self.additional_file_edges.deep_view(),
            manifest_open_world: self.manifest_open_world.deep_view(),
            open_world_entries: self.open_world_entries.deep_view(),
            symbol_analysis: self.symbol_analysis.deep_view(),
            member_decisions: self.member_decisions.deep_view(),
            cache: self.cache.deep_view(),
        }
    }
}

/// The paths of files.
pub open spec fn paths_in(facts: Seq<FileFactsModel>) -> Seq<Seq<char>> {
    facts.map_values(|file: FileFactsModel| file.path)
}

/// The imports of files.
pub open spec fn imports_in(facts: Seq<FileFactsModel>) -> Seq<Seq<ImportFactModel>> {
    facts.map_values(|file: FileFactsModel| file.imports)
}

/// The diagnostics of files.
pub open spec fn diagnostics_in(facts: Seq<FileFactsModel>) -> Seq<Seq<AnalysisDiagnosticModel>> {
    facts.map_values(|file: FileFactsModel| file.diagnostics)
}

fn list_paths(facts: &Vec<FileFacts>) -> (r: Vec<String>)
    ensures
        r.deep_view() == paths_in(facts.deep_view()),
{
    let mut out: Vec<String> = Vec::new();
    let ghost model = facts.deep_view();
    let mut i: usize = 0;
    while i < facts.len()
        invariant
            i <= facts.len(),
            model == facts.deep_view(),
            out.deep_view() =~= paths_in(model.take(i as int)),
        decreases facts.len() - i,
    {
        proof {
            assert(model.take(i + 1).drop_last() =~= model.take(i as int));
            assert(model.take(i + 1).last() == facts@[i as int].deep_view());
        }
        assert(model.take(i + 1) =~= model.take(i as int).push(facts@[i as int].deep_view()));
        push_item(&mut out, facts[i].path.replicate());
        i = i + 1;
    }
    assert(model.take(i as int) =~= model);
    out
}

fn list_imports(facts: &Vec<FileFacts>) -> (r: Vec<Vec<ImportFact>>)
    ensures
        r.deep_view() == imports_in(facts.deep_view()),
        r@.len() == facts@.len(),
        forall|i: int|
            0 <= i < facts@.len() ==> (#[trigger] r@[i])@.len() == facts@[i].imports@.len(),
{
    let mut out: Vec<Vec<ImportFact>> = Vec::new();
    let ghost model = facts.deep_view();
    let mut i: usize = 0;
    while i < facts.len()
        invariant
            i <= facts.len(),
            model == facts.deep_view(),
            out.deep_view() =~= imports_in(model.take(i as int)),
            out@.len() == i,
            forall|k: int| 0 <= k < i ==> (#[trigger] out@[k])@.len() == facts@[k].imports@.len(),
        decreases facts.len() - i,
    {
        proof {
            assert(model.take(i + 1).drop_last() =~= model.take(i as int));
            assert(model.take(i + 1).last() == facts@[i as int].deep_view());
        }
        assert(model.take(i + 1) =~= model.take(i as int).push(facts@[i as int].deep_view()));
        let own: Vec<ImportFact> = facts[i].imports.replicate();
        assert(own.deep_view().len() == facts@[i as int].imports.deep_view().len());
        push_item(&mut out, own);
        i = i + 1;
    }
    assert(model.take(i as int) =~= model);
    out
}

fn list_diagnostics(facts: &Vec<FileFacts>) -> (r: Vec<Vec<AnalysisDiagnostic>>)
    ensures
        r.deep_view() == diagnostics_in(facts.deep_view()),
{
    let mut out: Vec<Vec<AnalysisDiagnostic>> = Vec::new();
    let ghost model = facts.deep_view();
    let mut i: usize = 0;
    while i < facts.len()
        invariant
            i <= facts.len(),
            model == facts.deep_view(),
            out.deep_view() =~= diagnostics_in(model.take(i as int)),
        decreases facts.len() - i,
    {
        proof {
            assert(model.take(i + 1).drop_last() =~= model.take(i as int));
            assert(model.take(i + 1).last() == facts@[i as int].deep_view());
        }
        assert(model.take(i + 1) =~= model.take(i as int).push(facts@[i as int].deep_view()));
        push_item(&mut out, facts[i].diagnostics.replicate());
        i = i + 1;
    }
    assert(model.take(i as int) =~= model);
    out
}

/// Which files can be reached from the entries.
pub open spec fn reachable_flags(
    count: nat,
    edges: Seq<(usize, usize)>,
    entries: Seq<usize>,
) -> Seq<bool> {
    Seq::new(count, |i: int| reached_from(edges, entries, i as usize))
}

/// Which files are open to the world.
pub open spec fn open_flags(
    facts: Seq<FileFactsModel>,
    entries: Seq<usize>,
    fallback: bool,
    named: Option<Seq<Seq<char>>>,
) -> Seq<bool> {
    Seq::new(facts.len(), |i: int| opened(facts, entries, fallback, named, i as usize))
}

/// Which files are unreachable.
pub open spec fn unreachable_flags(statuses: Seq<FileStatus>) -> Seq<bool> {
    statuses.map_values(|status: FileStatus| status == FileStatus::Unreachable)
}

/// What becomes of the imports of a scan, with the uses that no import shows.
#[verifier::ext_equal]
pub struct ScanGraph {
    pub edges: Seq<(usize, usize)>,
    pub imports: Seq<Seq<ImportReportModel>>,
    pub diagnostics: Seq<Seq<AnalysisDiagnosticModel>>,
}

/// What becomes of the imports of a scan, with the uses that no import shows.
pub open spec fn scan_graph(
    input: ResolutionInputModel,
    evidence: ScanEvidenceModel,
    limits: AnalysisLimits,
) -> ScanGraph {
    let limit = if limits.max_diagnostics == 0 {
        1usize
    } else {
        limits.max_diagnostics
    };
    let resolved = resolved_imports(
        input,
        imports_in(evidence.facts),
        limited_by_file(paths_in(evidence.facts), diagnostics_in(evidence.facts), limit),
        evidence.resolutions,
    );
    let added = with_edges(
        WithEdgesModel { edges: resolved.edges, imports: resolved.imports },
        input.files,
        evidence.additional_file_edges,
    );
    ScanGraph {
        edges: added.edges,
        imports: added.imports.map_values(
            |own: Seq<ImportReportModel>| sorted_by::<ImportReport, ByImportPlace>(own),
        ),
        diagnostics: resolved.diagnostics,
    }
}

/// The report of a scan.
pub open spec fn report_of(
    input: ResolutionInputModel,
    evidence: ScanEvidenceModel,
    limits: AnalysisLimits,
    entries: Seq<usize>,
) -> ScanReportModel {
    let facts = evidence.facts;
    let graph = scan_graph(input, evidence, limits);
    let reachable = reachable_flags(facts.len(), graph.edges, entries);
    let blocked = reachable_blocker(graph.diagnostics, reachable);
    let statuses = file_statuses(graph.diagnostics, reachable, blocked);
    let open = open_flags(
        facts,
        entries,
        evidence.manifest_open_world,
        evidence.open_world_entries,
    );
    let links = symbol_links(facts, graph.imports);
    let members = all_members(facts, reachable, evidence.member_decisions, graph.diagnostics);
    let names = entries.map_values(|entry: usize| paths_in(facts)[entry as int]);
    let unreachable = unreachable_flags(statuses);
    let diagnostics = sorted_by::<AnalysisDiagnostic, ByPlace>(
        flattened(
            if blocked {
                graph.diagnostics
            } else {
                members.diagnostics
            },
        ),
    );
    ScanReportModel {
        schema_version: REPORT_SCHEMA_VERSION@,
        status: status_of(diagnostics),
        entries: names,
        summary: ReportSummary {
            files: facts.len() as usize,
            reachable_files: status_count(statuses, FileStatus::Reachable) as usize,
            unreachable_files: status_count(statuses, FileStatus::Unreachable) as usize,
            incomplete_files: status_count(statuses, FileStatus::Incomplete) as usize,
            diagnostics: diagnostics.len() as usize,
        },
        files: file_reports(
            facts,
            statuses,
            input.target_profiles,
            evidence.content_digests,
            graph.imports,
        ),
        findings: if blocked {
            Seq::empty()
        } else {
            sorted_by::<Finding, ByFindingPlace>(
                file_findings(
                    components(graph.edges, unreachable, unreachable.len()),
                    paths_in(facts),
                    names,
                ) + (export_findings(
                    facts,
                    reachable,
                    open,
                    evidence.symbol_analysis.exports_complete,
                    links,
                ) + declaration_findings(evidence.symbol_analysis.dead_groups, facts))
                    + members.findings,
            )
        },
        retentions: if blocked {
            Seq::empty()
        } else {
            sorted_by::<RetentionReport, ByRetainedItem>(members.retentions)
        },
        project: None,
        cache: evidence.cache,
        diagnostics,
    }
}

/// Whether what is known of the files of a scan is complete: a list for each file, an
/// answer for each import, and a decision for each member of a file in use.
pub open spec fn is_complete(
    input: ResolutionInputModel,
    evidence: ScanEvidenceModel,
    limits: AnalysisLimits,
    entries: Seq<usize>,
) -> bool {
    let n = input.files.len();
    let graph = scan_graph(input, evidence, limits);
    &&& evidence.facts.len() == n
    &&& evidence.content_digests.len() == n
    &&& evidence.resolutions.len() == n
    &&& evidence.member_decisions.len() == n
    &&& forall|i: int|
        0 <= i < n ==> (#[trigger] evidence.resolutions[i]).len() == evidence.facts[i].imports.len()
    &&& forall|i: int|
        0 <= i < n && reached_from(graph.edges, entries, i as usize) ==> (
        #[trigger] evidence.member_decisions[i]).len() == evidence.facts[i].member_facts.len()
}

/// What becomes of the imports of a scan, with the uses that no import shows.
#[must_use]
pub fn build_scan_graph(
    input: &ResolutionInput,
    evidence: &ScanEvidence,
    limits: AnalysisLimits,
) -> (r: ResolvedImports)
    requires
        evidence.facts@.len() == input.files@.len(),
        evidence.resolutions@.len() == input.files@.len(),
        forall|i: int|
            0 <= i < evidence.facts@.len() ==> (#[trigger] evidence.resolutions@[i])@.len()
                == evidence.facts@[i].imports@.len(),
    ensures
        ({
            let graph = scan_graph(input.deep_view(), evidence.deep_view(), limits);
            &&& r.edges.deep_view() == graph.edges
            &&& r.imports.deep_view() == graph.imports
            &&& r.diagnostics.deep_view() == graph.diagnostics
            &&& r.imports@.len() == input.files@.len()
            &&& r.diagnostics@.len() == input.files@.len()
            &&& forall|k: int|
                0 <= k < r.edges@.len() ==> (#[trigger] r.edges@[k]).0 < input.files@.len()
                    && r.edges@[k].1 < input.files@.len()
        }),
{
    let count: usize = input.files.len();
    let limit: usize = if limits.max_diagnostics == 0 {
        1
    } else {
        limits.max_diagnostics
    };
    let paths: Vec<String> = list_paths(&evidence.facts);
    let before: Vec<Vec<AnalysisDiagnostic>> = list_diagnostics(&evidence.facts);
    proof {
        assert(paths.deep_view().len() == evidence.facts.deep_view().len());
        assert(before.deep_view().len() == evidence.facts.deep_view().len());
        limited_len(paths.deep_view(), before.deep_view(), limit);
    }
    let limited: Vec<Vec<AnalysisDiagnostic>> = enforce_diagnostic_limit(&paths, &before, limit);
    assert(limited.deep_view().len() == limited@.len());
    let imports: Vec<Vec<ImportFact>> = list_imports(&evidence.facts);
    let resolved: ResolvedImports = resolve_imports(
        input,
        &imports,
        &limited,
        &evidence.resolutions,
    );
    proof {
        edges_are_inside(
            input.deep_view(),
            imports.deep_view(),
            limited.deep_view(),
            evidence.resolutions.deep_view(),
        );
        assert(resolved.imports.deep_view().len() == resolved.imports@.len());
        assert(resolved.diagnostics.deep_view().len() == resolved.diagnostics@.len());
        let start = resolved.edges.deep_view();
        let known = resolved_imports(
            input.deep_view(),
            imports.deep_view(),
            limited.deep_view(),
            evidence.resolutions.deep_view(),
        );
        assert forall|k: int| 0 <= k < start.len() implies (#[trigger] start[k]).0 < count
            && start[k].1 < count by {
            assert(start[k] == known.edges[k]);
        }
        added_edges_are_inside(
            WithEdgesModel {
                edges: resolved.edges.deep_view(),
                imports: resolved.imports.deep_view(),
            },
            input.files.deep_view(),
            evidence.additional_file_edges.deep_view(),
        );
    }
    let mut edges: Vec<(usize, usize)> = resolved.edges;
    let mut rows: Vec<Vec<ImportReport>> = resolved.imports;
    add_additional_file_edges(&mut edges, &mut rows, &input.files, &evidence.additional_file_edges);
    proof {
        assert(rows.deep_view().len() == rows@.len());
        assert forall|k: int| 0 <= k < edges@.len() implies (#[trigger] edges@[k]).0
            < input.files@.len() && edges@[k].1 < input.files@.len() by {
            assert(edges.deep_view()[k] == edges@[k].deep_view());
        }
    }
    ResolvedImports { edges, imports: rows, diagnostics: resolved.diagnostics }
}

fn find_unreachable(statuses: &Vec<FileStatus>) -> (r: Vec<bool>)
    ensures
        r@ == unreachable_flags(statuses.deep_view()),
{
    let mut out: Vec<bool> = Vec::new();
    let ghost model = statuses.deep_view();
    let mut i: usize = 0;
    while i < statuses.len()
        invariant
            i <= statuses.len(),
            model == statuses.deep_view(),
            out@ =~= unreachable_flags(model.take(i as int)),
        decreases statuses.len() - i,
    {
        proof {
            assert(model.take(i + 1).drop_last() =~= model.take(i as int));
            assert(model.take(i + 1).last() == statuses@[i as int].deep_view());
        }
        assert(model.take(i + 1) =~= model.take(i as int).push(statuses@[i as int]));
        out.push(statuses[i] == FileStatus::Unreachable);
        i = i + 1;
    }
    assert(model.take(i as int) =~= model);
    out
}

fn names_of_entries(facts: &Vec<FileFacts>, entries: &Vec<usize>) -> (r: Vec<String>)
    requires
        forall|k: int| 0 <= k < entries@.len() ==> #[trigger] entries@[k] < facts@.len(),
    ensures
        r.deep_view() == entries.deep_view().map_values(
            |entry: usize| paths_in(facts.deep_view())[entry as int],
        ),
{
    let ghost fs = facts.deep_view();
    let mut out: Vec<String> = Vec::new();
    let ghost model = entries.deep_view();
    let mut i: usize = 0;
    while i < entries.len()
        invariant
            i <= entries.len(),
            model == entries.deep_view(),
            fs == facts.deep_view(),
            forall|k: int| 0 <= k < entries@.len() ==> #[trigger] entries@[k] < facts@.len(),
            out.deep_view() =~= model.take(i as int).map_values(|entry: usize| paths_in(fs)[entry as int]),
        decreases entries.len() - i,
    {
        proof {
            assert(model.take(i + 1).drop_last() =~= model.take(i as int));
            assert(model.take(i + 1).last() == entries@[i as int].deep_view());
        }
        assert(model.take(i + 1) =~= model.take(i as int).push(entries@[i as int]));
        push_item(&mut out, facts[entries[i]].path.replicate());
        i = i + 1;
    }
    assert(model.take(i as int) =~= model);
    out
}

proof fn edges_view(edges: Vec<(usize, usize)>)
    ensures
        edges.deep_view() == edges@,
{
    assert(edges.deep_view() =~= edges@);
}

fn collect_findings(
    facts: &Vec<FileFacts>,
    graph: &ResolvedImports,
    entries: &Vec<usize>,
    statuses: &Vec<FileStatus>,
    reachable: &Vec<bool>,
    evidence: &ScanEvidence,
) -> (r: Vec<Finding>)
    requires
        statuses@.len() == facts@.len(),
        forall|k: int| 0 <= k < entries@.len() ==> #[trigger] entries@[k] < facts@.len(),
        forall|k: int|
            0 <= k < graph.edges@.len() ==> (#[trigger] graph.edges@[k]).0 < facts@.len()
                && graph.edges@[k].1 < facts@.len(),
    ensures
        ({
            let fs = facts.deep_view();
            let unreachable = unreachable_flags(statuses.deep_view());
            r.deep_view() == file_findings(
                components(graph.edges.deep_view(), unreachable, unreachable.len()),
                paths_in(fs),
                entries.deep_view().map_values(|entry: usize| paths_in(fs)[entry as int]),
            ) + (export_findings(
                fs,
                reachable.deep_view(),
                open_flags(
                    fs,
                    entries.deep_view(),
                    evidence.manifest_open_world,
                    evidence.open_world_entries.deep_view(),
                ),
                evidence.symbol_analysis.exports_complete.deep_view(),
                symbol_links(fs, graph.imports.deep_view()),
            ) + declaration_findings(evidence.symbol_analysis.dead_groups.deep_view(), fs))
        }),
{
    let ghost fs = facts.deep_view();
    let names: Vec<String> = names_of_entries(facts, entries);
    let paths: Vec<String> = list_paths(facts);
    let unreachable: Vec<bool> = find_unreachable(statuses);
    proof {
        edges_view(graph.edges);
        assert(paths.deep_view().len() == paths@.len());
        assert(statuses.deep_view().len() == statuses@.len());
    }
    let groups: Vec<Vec<usize>> = components_within(&graph.edges, &unreachable);
    proof {
        let all = components(graph.edges@, unreachable@, unreachable@.len());
        components_hold_included_files(graph.edges@, unreachable@, unreachable@.len());
        assert forall|g: int| 0 <= g < groups@.len() implies (#[trigger] groups@[g])@.len() > 0 by {
            assert(all[g] == groups@[g].deep_view());
        }
        assert forall|g: int, k: int|
            0 <= g < groups@.len() && 0 <= k < groups@[g]@.len() implies #[trigger] groups@[g]@[k]
            < paths@.len() by {
            assert(all[g] == groups@[g].deep_view());
            assert(all[g][k] == groups@[g]@[k]);
        }
    }
    let mut findings: Vec<Finding> = build_findings(&groups, &paths, &names);
    let open: Vec<bool> = open_world_files(
        facts,
        entries,
        evidence.manifest_open_world,
        &evidence.open_world_entries,
    );
    proof {
        assert(entries.deep_view() =~= entries@);
        assert(open.deep_view() =~= open_flags(
            fs,
            entries.deep_view(),
            evidence.manifest_open_world,
            evidence.open_world_entries.deep_view(),
        ));
    }
    let links: Vec<ResolvedSymbolLink> = build_symbol_links(facts, &graph.imports);
    let symbols: Vec<Finding> = build_symbol_findings(
        facts,
        reachable,
        &open,
        &links,
        &evidence.symbol_analysis,
    );
    append_items(&mut findings, &symbols);
    findings
}

/// The report of a scan.
#[must_use]
pub fn build_report(
    input: &ResolutionInput,
    evidence: &ScanEvidence,
    limits: AnalysisLimits,
    entries: &Vec<usize>,
) -> (r: ScanReport)
    requires
        is_complete(input.deep_view(), evidence.deep_view(), limits, entries.deep_view()),
        forall|k: int| 0 <= k < entries@.len() ==> #[trigger] entries@[k] < input.files@.len(),
    ensures
        r.deep_view() == report_of(
            input.deep_view(),
            evidence.deep_view(),
            limits,
            entries.deep_view(),
        ),
{
    let facts: &Vec<FileFacts> = &evidence.facts;
    let count: usize = facts.len();
    let ghost fs = facts.deep_view();
    proof {
        let whole = evidence.deep_view();
        assert(whole.facts.len() == count);
        assert(whole.resolutions.len() == evidence.resolutions@.len());
        assert(whole.content_digests.len() == evidence.content_digests@.len());
        assert(whole.member_decisions.len() == evidence.member_decisions@.len());
        assert forall|i: int| 0 <= i < count implies (#[trigger] evidence.resolutions@[i])@.len()
            == evidence.facts@[i].imports@.len() by {
            assert(whole.resolutions[i] == evidence.resolutions@[i].deep_view());
            assert(whole.facts[i] == evidence.facts@[i].deep_view());
        }
    }
    let graph: ResolvedImports = build_scan_graph(input, evidence, limits);
    let reachable: Vec<bool> = reachable_from_many(count, &graph.edges, entries);
    proof {
        edges_view(graph.edges);
        assert(entries.deep_view() =~= entries@);
        assert(reachable.deep_view() =~= reachable@);
        assert(reachable@ =~= reachable_flags(
            count as nat,
            graph.edges.deep_view(),
            entries.deep_view(),
        ));
    }
    let blocked: bool = has_reachable_blocker(&graph.diagnostics, &reachable);
    let statuses: Vec<FileStatus> = classify_files(&graph.diagnostics, &reachable, blocked);
    assert(statuses.deep_view().len() == statuses@.len());
    let names: Vec<String> = names_of_entries(facts, entries);
    let mut findings: Vec<Finding> = Vec::new();
    assert(findings.deep_view() =~= Seq::<FindingModel>::empty());
    let mut retentions: Vec<RetentionReport> = Vec::new();
    assert(retentions.deep_view() =~= Seq::empty());
    let mut notices: Vec<Vec<AnalysisDiagnostic>> = graph.diagnostics.replicate();
    if !blocked {
        findings = collect_findings(facts, &graph, entries, &statuses, &reachable, evidence);
        proof {
            let whole = evidence.deep_view();
            assert forall|i: int|
                0 <= i < facts@.len() && crate::application::findings::flag_at(
                    reachable.deep_view(),
                    i,
                ) implies (#[trigger] evidence.member_decisions@[i])@.len()
                == facts@[i].member_facts@.len() by {
                assert(whole.member_decisions[i] == evidence.member_decisions@[i].deep_view());
                assert(whole.facts[i] == evidence.facts@[i].deep_view());
                assert(reached_from(graph.edges.deep_view(), entries.deep_view(), i as usize));
            }
        }
        let members: MemberResults = build_member_results(
            facts,
            &reachable,
            &evidence.member_decisions,
            &graph.diagnostics,
        );
        append_items(&mut findings, &members.findings);
        sort_findings(&mut findings);
        retentions = members.retentions;
        notices = members.diagnostics;
    }
    let mut diagnostics: Vec<AnalysisDiagnostic> = flatten(&notices);
    sort_diagnostics(&mut diagnostics);
    let files: Vec<FileReport> = build_file_reports(
        facts,
        &statuses,
        &input.target_profiles,
        &evidence.content_digests,
        &graph.imports,
    );
    let status: AnalysisStatus = analysis_status(&diagnostics);
    let summary: ReportSummary = ReportSummary {
        files: count,
        reachable_files: count_status(&statuses, FileStatus::Reachable),
        unreachable_files: count_status(&statuses, FileStatus::Unreachable),
        incomplete_files: count_status(&statuses, FileStatus::Incomplete),
        diagnostics: diagnostics.len(),
    };
    ScanReport {
        schema_version: REPORT_SCHEMA_VERSION,
        status,
        entries: names,
        summary,
        files,
        findings,
        retentions,
        project: None,
        cache: evidence.cache.replicate(),
        diagnostics,
    }
}

/// The project around the files of a scan.
#[derive(Debug, PartialEq, Eq)]
pub struct ScanContext {
    pub target_profiles: Vec<String>,
    pub external_packages: OrderedSet<String>,
    pub workspace_module_targets: Vec<WorkspaceModuleTarget>,
    pub yarn_pnp: bool,
    pub universe_kind: SourceUniverseKind,
}

/// What a [`ScanContext`] holds.
pub struct ScanContextModel {
    pub target_profiles: Seq<Seq<char>>,
    pub external_packages: Seq<Seq<char>>,
    pub workspace_module_targets: Seq<WorkspaceModuleTargetModel>,
    pub yarn_pnp: bool,
    pub universe_kind: SourceUniverseKind,
}

impl DeepView for ScanContext {
    type V = ScanContextModel;

    open spec fn deep_view(&self) -> ScanContextModel {
        ScanContextModel {
            target_profiles: self.target_profiles.deep_view(),
            external_packages: self.external_packages.deep_view(),
            workspace_module_targets: self.workspace_module_targets.deep_view(),
            yarn_pnp: self.yarn_pnp.deep_view(),
            universe_kind: self.universe_kind.deep_view(),
        }
    }
}

impl Value for ScanContext {
    fn replicate(&self) -> (r: Self) {
        ScanContext {
            target_profiles: self.target_profiles.replicate(),
            external_packages: self.external_packages.replicate(),
            workspace_module_targets: self.workspace_module_targets.replicate(),
            yarn_pnp: self.yarn_pnp.replicate(),
            universe_kind: self.universe_kind.replicate(),
        }
    }

    fn same_value(&self, other: &Self) -> (r: bool) {
        self.target_profiles.same_value(&other.target_profiles)
            && self.external_packages.same_value(&other.external_packages)
            && self.workspace_module_targets.same_value(&other.workspace_module_targets)
            && self.yarn_pnp.same_value(&other.yarn_pnp)
            && self.universe_kind.same_value(&other.universe_kind)
    }
}

/// What the resolution of the imports of a scan rests on.
pub open spec fn resolution_input(
    request: ScanRequestModel,
    context: ScanContextModel,
    files: Seq<PreparedFileModel>,
) -> ResolutionInputModel {
    ResolutionInputModel {
        root: request.root,
        files,
        target_profiles: context.target_profiles,
        external_packages: context.external_packages,
        workspace_module_targets: context.workspace_module_targets,
        yarn_pnp: context.yarn_pnp,
        universe_kind: context.universe_kind,
    }
}

/// The report of a scan, or why none can be made.
pub open spec fn scanned(
    request: ScanRequestModel,
    context: ScanContextModel,
    evidence: ScanEvidenceModel,
    limits: AnalysisLimits,
) -> Result<ScanReportModel, ScanErrorModel> {
    if request.files.len() > limits.max_discovered_files {
        Err(
            ScanErrorModel::FileUniverseTooLarge(
                CountExceeded {
                    files: request.files.len() as usize,
                    limit: limits.max_discovered_files,
                },
            ),
        )
    } else {
        match prepared_files(request) {
            Ok(files) => match prepared_entries(request, files) {
                Ok(entries) => Ok(
                    report_of(resolution_input(request, context, files), evidence, limits, entries),
                ),
                Err(error) => Err(error),
            },
            Err(error) => Err(error),
        }
    }
}

/// Whether what is known of the files of a scan is complete, where a report can be made.
pub open spec fn scan_is_complete(
    request: ScanRequestModel,
    context: ScanContextModel,
    evidence: ScanEvidenceModel,
    limits: AnalysisLimits,
) -> bool {
    match prepared_files(request) {
        Ok(files) => match prepared_entries(request, files) {
            Ok(entries) => is_complete(
                resolution_input(request, context, files),
                evidence,
                limits,
                entries,
            ),
            Err(_) => true,
        },
        Err(_) => true,
    }
}

/// Scans files with explicit limits.
pub fn scan_with_limits(
    request: &ScanRequest,
    context: &ScanContext,
    evidence: &ScanEvidence,
    limits: AnalysisLimits,
) -> (r: Result<ScanReport, ScanError>)
    requires
        scan_is_complete(
            request.deep_view(),
            context.deep_view(),
            evidence.deep_view(),
            limits,
        ),
    ensures
        match r {
            Ok(report) => scanned(
                request.deep_view(),
                context.deep_view(),
                evidence.deep_view(),
                limits,
            ) == Ok::<ScanReportModel, ScanErrorModel>(report.deep_view()),
            Err(error) => scanned(
                request.deep_view(),
                context.deep_view(),
                evidence.deep_view(),
                limits,
            ) == Err::<ScanReportModel, ScanErrorModel>(error.deep_view()),
        },
{
    let supplied: usize = request.files.len();
    if supplied > limits.max_discovered_files {
        return Err(
            ScanError::FileUniverseTooLarge(
                CountExceeded { files: supplied, limit: limits.max_discovered_files },
            ),
        );
    }
    let files: Vec<PreparedFile> = match prepare_files(request) {
        Ok(files) => files,
        Err(error) => {
            return Err(error);
        },
    };
    let entries: Vec<usize> = match prepare_entries(request, &files) {
        Ok(entries) => entries,
        Err(error) => {
            return Err(error);
        },
    };
    let input: ResolutionInput = ResolutionInput {
        root: request.root.replicate(),
        files,
        target_profiles: context.target_profiles.replicate(),
        external_packages: context.external_packages.replicate(),
        workspace_module_targets: context.workspace_module_targets.replicate(),
        yarn_pnp: context.yarn_pnp,
        universe_kind: context.universe_kind,
    };
    Ok(build_report(&input, evidence, limits, &entries))
}

/// Scans files with the default limits.
pub fn scan(request: &ScanRequest, context: &ScanContext, evidence: &ScanEvidence) -> (r: Result<
    ScanReport,
    ScanError,
>)
    requires
        scan_is_complete(
            request.deep_view(),
            context.deep_view(),
            evidence.deep_view(),
            default_limits(),
        ),
    ensures
        match r {
            Ok(report) => scanned(
                request.deep_view(),
                context.deep_view(),
                evidence.deep_view(),
                default_limits(),
            ) == Ok::<ScanReportModel, ScanErrorModel>(report.deep_view()),
            Err(error) => scanned(
                request.deep_view(),
                context.deep_view(),
                evidence.deep_view(),
                default_limits(),
            ) == Err::<ScanReportModel, ScanErrorModel>(error.deep_view()),
        },
{
    scan_with_limits(request, context, evidence, AnalysisLimits::default())
}

/// Where something in use blocks conclusions, the report makes none: it has no findings
/// and no retentions, and says of no file that it is unreachable.
pub proof fn blockers_suppress_findings(
    input: ResolutionInputModel,
    evidence: ScanEvidenceModel,
    limits: AnalysisLimits,
    entries: Seq<usize>,
)
    requires
        is_complete(input, evidence, limits, entries),
        input.files.len() <= usize::MAX,
        reachable_blocker(
            scan_graph(input, evidence, limits).diagnostics,
            reachable_flags(
                evidence.facts.len(),
                scan_graph(input, evidence, limits).edges,
                entries,
            ),
        ),
    ensures
        ({
            let report = report_of(input, evidence, limits, entries);
            &&& report.findings.len() == 0
            &&& report.retentions.len() == 0
            &&& forall|i: int|
                0 <= i < report.files.len() ==> (#[trigger] report.files[i]).status
                    != FileStatus::Unreachable
        }),
{
    scan_graph_len(input, evidence, limits, entries);
}

proof fn scan_graph_len(
    input: ResolutionInputModel,
    evidence: ScanEvidenceModel,
    limits: AnalysisLimits,
    entries: Seq<usize>,
)
    requires
        is_complete(input, evidence, limits, entries),
        input.files.len() <= usize::MAX,
    ensures
        scan_graph(input, evidence, limits).diagnostics.len() == evidence.facts.len(),
{
    let limit = if limits.max_diagnostics == 0 {
        1usize
    } else {
        limits.max_diagnostics
    };
    edges_are_inside(
        input,
        imports_in(evidence.facts),
        limited_by_file(paths_in(evidence.facts), diagnostics_in(evidence.facts), limit),
        evidence.resolutions,
    );
}

/// A file that the report calls unreachable is not reached from any entry, and a file
/// that is reached is called reachable unless it could not be analyzed.
pub proof fn statuses_follow_reachability(
    input: ResolutionInputModel,
    evidence: ScanEvidenceModel,
    limits: AnalysisLimits,
    entries: Seq<usize>,
    file: int,
)
    requires
        is_complete(input, evidence, limits, entries),
        input.files.len() <= usize::MAX,
        0 <= file < evidence.facts.len(),
    ensures
        ({
            let graph = scan_graph(input, evidence, limits);
            let status = report_of(input, evidence, limits, entries).files[file].status;
            let reached = reached_from(graph.edges, entries, file as usize);
            &&& status == FileStatus::Unreachable ==> !reached
            &&& reached && !any_fatal(graph.diagnostics[file]) ==> status == FileStatus::Reachable
        }),
{
    scan_graph_len(input, evidence, limits, entries);
}

/// Unless something in use blocks conclusions, every file that the report calls
/// unreachable is named by a finding.
pub proof fn every_unreachable_file_is_reported(
    input: ResolutionInputModel,
    evidence: ScanEvidenceModel,
    limits: AnalysisLimits,
    entries: Seq<usize>,
    file: int,
)
    requires
        is_complete(input, evidence, limits, entries),
        input.files.len() <= usize::MAX,
        0 <= file < evidence.facts.len(),
        report_of(input, evidence, limits, entries).files[file].status == FileStatus::Unreachable,
    ensures
        exists|f: int|
            #![trigger report_of(input, evidence, limits, entries).findings[f]]
            {
                let report = report_of(input, evidence, limits, entries);
                0 <= f < report.findings.len() && report.findings[f].issue_id == "ORP1001"@
                    && report.findings[f].paths.contains(report.files[file].path)
            },
{
    scan_graph_len(input, evidence, limits, entries);
    let report = report_of(input, evidence, limits, entries);
    let facts = evidence.facts;
    let graph = scan_graph(input, evidence, limits);
    let reachable = reachable_flags(facts.len(), graph.edges, entries);
    let blocked = reachable_blocker(graph.diagnostics, reachable);
    let statuses = file_statuses(graph.diagnostics, reachable, blocked);
    let unreachable = unreachable_flags(statuses);
    let names = entries.map_values(|entry: usize| paths_in(facts)[entry as int]);
    assert(statuses[file] == FileStatus::Unreachable);
    assert(!blocked);
    assert(unreachable[file]);
    every_included_file_has_a_component(graph.edges, unreachable, file as usize);
    let groups = components(graph.edges, unreachable, unreachable.len());
    let g = choose|g: int| 0 <= g < groups.len() && (#[trigger] groups[g]).contains(file as usize);
    let k = choose|k: int| 0 <= k < groups[g].len() && groups[g][k] == file as usize;
    let found = file_findings(groups, paths_in(facts), names);
    let finding = found[g];
    assert(finding.paths[k] == facts[file].path);
    assert(finding.paths.contains(facts[file].path));
    let more = export_findings(
        facts,
        reachable,
        open_flags(facts, entries, evidence.manifest_open_world, evidence.open_world_entries),
        evidence.symbol_analysis.exports_complete,
        symbol_links(facts, graph.imports),
    ) + declaration_findings(evidence.symbol_analysis.dead_groups, facts);
    let members = all_members(facts, reachable, evidence.member_decisions, graph.diagnostics);
    let all = found + more + members.findings;
    assert(all[g] == finding);
    assert(all.contains(finding));
    sorted_by_keeps_items::<Finding, ByFindingPlace>(all);
    let sorted = sorted_by::<Finding, ByFindingPlace>(all);
    assert(sorted == report.findings);
    assert(sorted.to_multiset().count(finding) > 0) by {
        broadcast use vstd::seq_lib::group_to_multiset_ensures;

        assert(all.to_multiset().count(finding) > 0);
    }
    assert(sorted.contains(finding)) by {
        broadcast use vstd::seq_lib::group_to_multiset_ensures;

    }
    let f = choose|f: int| 0 <= f < sorted.len() && sorted[f] == finding;
    assert(report.findings[f] == finding);
}

proof fn statuses_add_up(statuses: Seq<FileStatus>)
    ensures
        status_count(statuses, FileStatus::Reachable) + status_count(
            statuses,
            FileStatus::Unreachable,
        ) + status_count(statuses, FileStatus::Incomplete) == statuses.len(),
    decreases statuses.len(),
{
    if statuses.len() > 0 {
        statuses_add_up(statuses.drop_last());
    }
}

/// The numbers of a report add up to that of its files.
pub proof fn counts_add_up(
    input: ResolutionInputModel,
    evidence: ScanEvidenceModel,
    limits: AnalysisLimits,
    entries: Seq<usize>,
)
    requires
        is_complete(input, evidence, limits, entries),
        input.files.len() <= usize::MAX,
    ensures
        ({
            let report = report_of(input, evidence, limits, entries);
            let summary = report.summary;
            &&& summary.files == report.files.len()
            &&& summary.reachable_files + summary.unreachable_files + summary.incomplete_files
                == summary.files
        }),
{
    scan_graph_len(input, evidence, limits, entries);
    let graph = scan_graph(input, evidence, limits);
    let reachable = reachable_flags(evidence.facts.len(), graph.edges, entries);
    let blocked = reachable_blocker(graph.diagnostics, reachable);
    statuses_add_up(file_statuses(graph.diagnostics, reachable, blocked));
}

/// What the cache did changes nothing in what a scan says but the account of it: facts that
/// were found and facts that were parsed anew are reported alike.
pub proof fn caches_do_not_change_scans(
    request: ScanRequestModel,
    context: ScanContextModel,
    evidence: ScanEvidenceModel,
    cache: Option<CacheReportModel>,
    limits: AnalysisLimits,
)
    ensures
        match (
            scanned(request, context, evidence, limits),
            scanned(request, context, (ScanEvidenceModel { cache, ..evidence }), limits),
        ) {
            (Ok(x), Ok(y)) => y == (ScanReportModel { cache, ..x }),
            (Err(x), Err(y)) => x == y,
            _ => false,
        },
{
}

} // verus!
