//! What a second scan of a project says.

use crate::analysis::members::{DeepResolutionModel, MemberDecisionModel};
use crate::application::errors::{ProjectScanErrorModel, ScanErrorModel};
use crate::application::loading::{
    all_loaded, nothing_is_written_where_all_is_found, CacheState, FactLoading,
};
use crate::application::member_results::deepened;
use crate::application::profiles::{missed_nothing, same_but_for_caches, with_cache};
use crate::application::project::{
    scanned_project, scanning_again_says_the_same, ProjectKnowledgeModel,
};
use crate::application::requests::ProjectScanRequestModel;
use crate::application::scan::{
    caches_do_not_change_scans, scanned, ScanContextModel, ScanEvidenceModel, ScanRequestModel,
};
use crate::cache::digest::Digest;
use crate::cache::key::CacheKeyModel;
use crate::cache::persistent::{committed_entries_are_loaded, PersistentCacheModel};
use crate::cache::store::{generation_fault, is_generation_name, CacheEntryModel};
use crate::collections::lookup;
use crate::domain::facts::{AnalysisDiagnosticModel, FileFactsModel};
use crate::domain::report::{CacheReportModel, ScanReportModel};
use vstd::prelude::*;

verus! {

/// What there is to say of a source file of a project.
pub struct SourceValues {
    /// Where the cache keeps its facts.
    pub key: CacheKeyModel,
    pub bytes: usize,
    /// The facts that a parser finds in it.
    pub parsed: FileFactsModel,
}

/// What a target profile is scanned with, besides the facts of the files.
pub struct ProfileValues {
    pub profile: Seq<char>,
    pub request: ScanRequestModel,
    pub context: ScanContextModel,
    /// What is known besides facts and cache.
    pub surroundings: ScanEvidenceModel,
    /// What deep analysis says of members, and what is decided of them.
    pub deep: Option<
        (Seq<((Seq<char>, u32), DeepResolutionModel)>, Seq<MemberDecisionModel>),
    >,
}

/// What a project is scanned with.
pub struct ProjectValues {
    pub sources: Seq<SourceValues>,
    pub profiles: Seq<ProfileValues>,
    pub known: ProjectKnowledgeModel,
    pub request: ProjectScanRequestModel,
    pub profile_names: Seq<Seq<char>>,
    pub pending: Seq<AnalysisDiagnosticModel>,
}

/// How facts are written to the cache, and how they are read from it.
pub struct FactEncoding {
    pub write: spec_fn(FileFactsModel) -> Seq<u8>,
    pub read: spec_fn(Seq<u8>) -> Option<FileFactsModel>,
}

/// What one scan finds where the cache is kept.
pub struct CacheValues {
    pub held: Seq<(CacheKeyModel, Seq<u8>)>,
    /// In what state the cache is found, for each target profile.
    pub states: Seq<CacheState>,
    pub parallelism: usize,
}

/// The facts of a file in the cache, where they are there and can be read.
pub open spec fn facts_at_hand(
    source: SourceValues,
    held: Seq<(CacheKeyModel, Seq<u8>)>,
    encoding: FactEncoding,
) -> Option<FileFactsModel> {
    match lookup(held, source.key) {
        Some(payload) => (encoding.read)(payload),
        None => None,
    }
}

/// The facts that a scan uses for a file.
pub open spec fn facts_of(
    source: SourceValues,
    held: Seq<(CacheKeyModel, Seq<u8>)>,
    encoding: FactEncoding,
) -> FileFactsModel {
    match facts_at_hand(source, held, encoding) {
        Some(facts) => facts,
        None => source.parsed,
    }
}

/// The facts that a scan uses.
pub open spec fn facts_of_all(
    sources: Seq<SourceValues>,
    held: Seq<(CacheKeyModel, Seq<u8>)>,
    encoding: FactEncoding,
) -> Seq<FileFactsModel> {
    sources.map_values(|source: SourceValues| facts_of(source, held, encoding))
}

/// For which files facts are found: those in the cache, and all where an earlier target profile
/// of the scan used them.
pub open spec fn found_facts(
    sources: Seq<SourceValues>,
    held: Seq<(CacheKeyModel, Seq<u8>)>,
    encoding: FactEncoding,
    remembered: bool,
) -> Seq<(bool, usize)> {
    sources.map_values(
        |source: SourceValues|
            (remembered || facts_at_hand(source, held, encoding) is Some, source.bytes),
    )
}

/// The loading of facts for one target profile.
pub open spec fn profile_loading(
    sources: Seq<SourceValues>,
    cache: CacheValues,
    encoding: FactEncoding,
    remembered: bool,
) -> FactLoading {
    all_loaded(
        FactLoading::fresh(true, cache.parallelism),
        found_facts(sources, cache.held, encoding, remembered),
    )
}

/// The report on one target profile.
pub open spec fn profile_report(
    values: ProfileValues,
    facts: Seq<FileFactsModel>,
    cache: Option<CacheReportModel>,
    request: ProjectScanRequestModel,
) -> Result<ScanReportModel, ScanErrorModel> {
    let evidence = ScanEvidenceModel { facts, cache, ..values.surroundings };
    match scanned(values.request, values.context, evidence, request.limits) {
        Ok(report) => match values.deep {
            Some((deep, decisions)) => match deepened(report, facts, deep, decisions) {
                Ok(after) => Ok(after.0),
                Err(error) => Err(error),
            },
            None => Ok(report),
        },
        Err(error) => Err(error),
    }
}

/// The reports on the first `n` target profiles.
pub open spec fn profile_reports(
    values: ProjectValues,
    cache: CacheValues,
    encoding: FactEncoding,
    n: nat,
) -> Result<Seq<(Seq<char>, ScanReportModel)>, ScanErrorModel>
    decreases n,
{
    if n == 0 {
        Ok(Seq::empty())
    } else {
        match profile_reports(values, cache, encoding, (n - 1) as nat) {
            Ok(rest) => match profile_report(
                values.profiles[n - 1],
                facts_of_all(values.sources, cache.held, encoding),
                profile_loading(values.sources, cache, encoding, n > 1).account(
                    cache.states[n - 1],
                ),
                values.request,
            ) {
                Ok(report) => Ok(rest.push((values.profiles[n - 1].profile, report))),
                Err(error) => Err(error),
            },
            Err(error) => Err(error),
        }
    }
}

/// What a whole scan of a project says.
pub open spec fn whole_scan(
    values: ProjectValues,
    cache: CacheValues,
    encoding: FactEncoding,
) -> Result<ScanReportModel, ProjectScanErrorModel> {
    match profile_reports(values, cache, encoding, values.profiles.len()) {
        Ok(reports) => scanned_project(
            reports,
            values.known,
            values.request,
            values.profile_names,
            values.pending,
        ),
        Err(error) => Err(ProjectScanErrorModel::Scan(error)),
    }
}

/// Whether a scan writes a generation of the cache.
pub open spec fn writes_generation(
    sources: Seq<SourceValues>,
    cache: CacheValues,
    encoding: FactEncoding,
) -> bool {
    profile_loading(sources, cache, encoding, false).writes()
}

/// What a scan that writes a generation writes to it: the facts that it used.
pub open spec fn written_entries(
    sources: Seq<SourceValues>,
    held: Seq<(CacheKeyModel, Seq<u8>)>,
    encoding: FactEncoding,
) -> Seq<CacheEntryModel> {
    sources.map_values(
        |source: SourceValues|
            CacheEntryModel {
                key: source.key,
                payload: (encoding.write)(facts_of(source, held, encoding)),
            },
    )
}

/// What the cache holds behind a scan: the generation that was written, as it is opened
/// undamaged, or what was there where none was.
pub open spec fn held_behind(
    sources: Seq<SourceValues>,
    cache: CacheValues,
    encoding: FactEncoding,
    store: PersistentCacheModel,
    generation: Seq<char>,
    checksum: Digest,
) -> Result<Seq<(CacheKeyModel, Seq<u8>)>, Seq<char>> {
    if writes_generation(sources, cache, encoding) {
        store.opened(
            store.body(generation, written_entries(sources, cache.held, encoding)),
            generation,
            checksum,
            checksum,
        )
    } else {
        Ok(cache.held)
    }
}

proof fn facts_are_found_again(
    sources: Seq<SourceValues>,
    first: CacheValues,
    held: Seq<(CacheKeyModel, Seq<u8>)>,
    encoding: FactEncoding,
    store: PersistentCacheModel,
    generation: Seq<char>,
    checksum: Digest,
)
    requires
        sources.len() <= usize::MAX,
        writes_generation(sources, first, encoding) ==> is_generation_name(generation)
            && generation_fault(written_entries(sources, first.held, encoding), store.limits)
            is None,
        forall|i: int|
            0 <= i < sources.len() ==> {
                let facts = facts_of(#[trigger] sources[i], first.held, encoding);
                (encoding.read)((encoding.write)(facts)) == Some(facts)
            },
        held_behind(sources, first, encoding, store, generation, checksum) == Ok::<
            Seq<(CacheKeyModel, Seq<u8>)>,
            Seq<char>,
        >(held),
    ensures
        forall|i: int|
            0 <= i < sources.len() ==> facts_at_hand(#[trigger] sources[i], held, encoding)
                == Some(facts_of(sources[i], first.held, encoding)),
        facts_of_all(sources, held, encoding) == facts_of_all(sources, first.held, encoding),
{
    let start = FactLoading::fresh(true, first.parallelism);
    let found = found_facts(sources, first.held, encoding, false);
    nothing_is_written_where_all_is_found(start, found);
    assert forall|i: int| 0 <= i < sources.len() implies facts_at_hand(
        #[trigger] sources[i],
        held,
        encoding,
    ) == Some(facts_of(sources[i], first.held, encoding)) by {
        if writes_generation(sources, first, encoding) {
            let entries = written_entries(sources, first.held, encoding);
            committed_entries_are_loaded(store, generation, entries, checksum);
            assert(entries[i].key == sources[i].key);
            assert(lookup(held, entries[i].key) == Some(entries[i].payload));
        } else {
            assert(found[i].0);
        }
    }
    assert(facts_of_all(sources, held, encoding) =~= facts_of_all(sources, first.held, encoding));
}

proof fn nothing_is_missed(
    sources: Seq<SourceValues>,
    cache: CacheValues,
    encoding: FactEncoding,
    remembered: bool,
    state: CacheState,
)
    requires
        sources.len() <= usize::MAX,
        forall|i: int|
            0 <= i < sources.len() ==> facts_at_hand(#[trigger] sources[i], cache.held, encoding)
                is Some,
    ensures
        profile_loading(sources, cache, encoding, remembered).account(state) matches Some(account)
            && account.misses == 0 && !account.generation_written && account.hits == sources.len(),
{
    let found = found_facts(sources, cache.held, encoding, remembered);
    assert forall|i: int| 0 <= i < found.len() implies (#[trigger] found[i]).0 by {
        assert(facts_at_hand(sources[i], cache.held, encoding) is Some);
    }
    nothing_is_written_where_all_is_found(FactLoading::fresh(true, cache.parallelism), found);
}

proof fn profiles_say_the_same(
    values: ProfileValues,
    facts: Seq<FileFactsModel>,
    before: Option<CacheReportModel>,
    after: Option<CacheReportModel>,
    request: ProjectScanRequestModel,
)
    ensures
        match (
            profile_report(values, facts, before, request),
            profile_report(values, facts, after, request),
        ) {
            (Ok(x), Ok(y)) => y == with_cache(x, after),
            (Err(x), Err(y)) => x == y,
            _ => false,
        },
{
    let evidence = ScanEvidenceModel { facts, cache: before, ..values.surroundings };
    caches_do_not_change_scans(values.request, values.context, evidence, after, request.limits);
    match (scanned(values.request, values.context, evidence, request.limits), values.deep) {
        (Ok(report), Some((deep, decisions))) => {
            assert(deepened(with_cache(report, after), facts, deep, decisions) == match deepened(
                report,
                facts,
                deep,
                decisions,
            ) {
                Ok(done) => Ok::<(ScanReportModel, nat), ScanErrorModel>(
                    (with_cache(done.0, after), done.1),
                ),
                Err(error) => Err::<(ScanReportModel, nat), ScanErrorModel>(error),
            });
        },
        _ => {},
    }
}

proof fn reports_say_the_same(
    values: ProjectValues,
    first: CacheValues,
    second: CacheValues,
    encoding: FactEncoding,
    n: nat,
)
    requires
        values.sources.len() <= usize::MAX,
        facts_of_all(values.sources, second.held, encoding) == facts_of_all(
            values.sources,
            first.held,
            encoding,
        ),
        forall|i: int|
            0 <= i < values.sources.len() ==> facts_at_hand(
                #[trigger] values.sources[i],
                second.held,
                encoding,
            ) is Some,
    ensures
        match (
            profile_reports(values, first, encoding, n),
            profile_reports(values, second, encoding, n),
        ) {
            (Ok(x), Ok(y)) => same_but_for_caches(x, y) && x.len() == n && (forall|i: int|
                0 <= i < y.len() ==> missed_nothing((#[trigger] y[i]).1)),
            (Err(x), Err(y)) => x == y,
            _ => false,
        },
    decreases n,
{
    if n > 0 {
        reports_say_the_same(values, first, second, encoding, (n - 1) as nat);
        let before = profile_loading(values.sources, first, encoding, n > 1).account(
            first.states[n - 1],
        );
        let after = profile_loading(values.sources, second, encoding, n > 1).account(
            second.states[n - 1],
        );
        nothing_is_missed(values.sources, second, encoding, n > 1, second.states[n - 1]);
        profiles_say_the_same(
            values.profiles[n - 1],
            facts_of_all(values.sources, first.held, encoding),
            before,
            after,
            values.request,
        );
    }
}

/// A second scan of an unchanged project says what the first said, but for what the cache did:
/// the cache lacks nothing, and no generation is written. Unchanged is what the project is
/// scanned with: its sources, its configuration, and what the programs that are asked answer.
/// The cache holds what the first scan left there; facts that are written can be read again.
pub proof fn second_scans_say_the_same(
    values: ProjectValues,
    first: CacheValues,
    second: CacheValues,
    encoding: FactEncoding,
    store: PersistentCacheModel,
    generation: Seq<char>,
    checksum: Digest,
)
    requires
        values.sources.len() <= usize::MAX,
        writes_generation(values.sources, first, encoding) ==> is_generation_name(generation)
            && generation_fault(
            written_entries(values.sources, first.held, encoding),
            store.limits,
        ) is None,
        forall|i: int|
            0 <= i < values.sources.len() ==> {
                let facts = facts_of(#[trigger] values.sources[i], first.held, encoding);
                (encoding.read)((encoding.write)(facts)) == Some(facts)
            },
        held_behind(values.sources, first, encoding, store, generation, checksum) == Ok::<
            Seq<(CacheKeyModel, Seq<u8>)>,
            Seq<char>,
        >(second.held),
    ensures
        match (whole_scan(values, first, encoding), whole_scan(values, second, encoding)) {
            (Ok(x), Ok(y)) => with_cache(x, y.cache) == y && missed_nothing(y),
            (Err(x), Err(y)) => x == y,
            _ => false,
        },
{
    facts_are_found_again(
        values.sources,
        first,
        second.held,
        encoding,
        store,
        generation,
        checksum,
    );
    reports_say_the_same(values, first, second, encoding, values.profiles.len());
    match (
        profile_reports(values, first, encoding, values.profiles.len()),
        profile_reports(values, second, encoding, values.profiles.len()),
    ) {
        (Ok(x), Ok(y)) => {
            scanning_again_says_the_same(
                x,
                y,
                values.known,
                values.request,
                values.profile_names,
                values.pending,
            );
        },
        _ => {},
    }
}

} // verus!
