//! Which facts about files are taken from a cache and which are parsed anew.

use crate::application::errors::{
    PathFailure, PathFailureModel, ScanError, ScanErrorModel, SizeExceeded, SizeExceededModel,
};
use crate::cache::digest::Digest;
use crate::cache::key::{
    is_canonical, CacheKey, CacheKeyModel, CanonicalFileIdentity, CanonicalFileIdentityModel,
    ConfigDigest, ContentDigest, ContextDigest, ProfileDigest,
};
use crate::cache::persistent::{committed_entries_are_loaded, PersistentCacheModel};
use crate::cache::store::{generation_fault, is_generation_name, CacheEntryModel};
use crate::collections::lookup;
use crate::domain::report::{CacheReport, CacheReportModel};
use crate::values::Value;
use vstd::prelude::*;

verus! {

/// How many bytes of source wait to be parsed at most.
pub const PARSE_BYTE_BUDGET: usize = 16_777_216;

/// What was found where the cache is kept.
#[derive(Debug, Clone, Copy, PartialEq, Eq, Structural)]
pub enum CacheState {
    Empty,
    Active,
    Recovered,
    Reset,
}

impl DeepView for CacheState {
    type V = CacheState;

    open spec fn deep_view(&self) -> CacheState {
        *self
    }
}

impl Value for CacheState {
    fn replicate(&self) -> (r: Self) {
        *self
    }

    fn same_value(&self, other: &Self) -> (r: bool) {
        *self == *other
    }
}

/// The name of the state of the cache.
pub open spec fn cache_state_name(value: CacheState) -> Seq<char> {
    match value {
        CacheState::Empty => "empty"@,
        CacheState::Active => "active"@,
        CacheState::Recovered => "recovered"@,
        CacheState::Reset => "reset"@,
    }
}

/// The name of the state of the cache.
pub fn cache_status_name(value: CacheState) -> (r: &'static str)
    ensures
        r@ == cache_state_name(value),
{
    match value {
        CacheState::Empty => "empty",
        CacheState::Active => "active",
        CacheState::Recovered => "recovered",
        CacheState::Reset => "reset",
    }
}

/// What is done with a file.
#[derive(Debug, Clone, Copy, PartialEq, Eq, Structural)]
pub enum LoadStep {
    /// Its facts are in the cache.
    Reuse,
    /// It waits to be parsed.
    Wait,
    /// It and all files that wait are parsed now.
    Parse,
}

impl DeepView for LoadStep {
    type V = LoadStep;

    open spec fn deep_view(&self) -> LoadStep {
        *self
    }
}

impl Value for LoadStep {
    fn replicate(&self) -> (r: Self) {
        *self
    }

    fn same_value(&self, other: &Self) -> (r: bool) {
        *self == *other
    }
}

/// How many files are parsed at the same time.
pub open spec fn workers(parallelism: usize) -> usize {
    if parallelism < 1 {
        1
    } else if parallelism > 8 {
        8
    } else {
        parallelism
    }
}

/// Where the loading of facts stands.
#[derive(Debug, Clone, Copy, PartialEq, Eq, Structural)]
pub struct FactLoading {
    /// Whether there is a cache.
    pub cached: bool,
    /// How many files are parsed at the same time.
    pub worker_limit: usize,
    /// How many files had their facts in the cache.
    pub hits: usize,
    /// How many had not.
    pub misses: usize,
    /// How many files wait to be parsed.
    pub pending: usize,
    /// How many bytes they hold.
    pub pending_bytes: usize,
}

/// The sum of two numbers, or the largest number where it is smaller.
pub open spec fn saturated(a: usize, b: usize) -> usize {
    if a + b > usize::MAX {
        usize::MAX
    } else {
        (a + b) as usize
    }
}

impl FactLoading {
    /// Whether the numbers can go on: fewer files wait than are parsed at the same time.
    pub open spec fn well_formed(self) -> bool {
        1 <= self.worker_limit <= 8 && self.pending < self.worker_limit
    }

    /// Nothing is loaded yet.
    pub open spec fn fresh(cached: bool, parallelism: usize) -> FactLoading {
        FactLoading {
            cached,
            worker_limit: workers(parallelism),
            hits: 0,
            misses: 0,
            pending: 0,
            pending_bytes: 0,
        }
    }

    /// Nothing is loaded yet.
    #[must_use]
    pub fn new(cached: bool, parallelism: usize) -> (r: FactLoading)
        ensures
            r.well_formed(),
            r == FactLoading::fresh(cached, parallelism),
    {
        let worker_limit: usize = if parallelism < 1 {
            1
        } else if parallelism > 8 {
            8
        } else {
            parallelism
        };
        FactLoading { cached, worker_limit, hits: 0, misses: 0, pending: 0, pending_bytes: 0 }
    }

    /// Counts a file whose facts are at hand.
    pub fn reuse(&mut self)
        requires
            old(self).well_formed(),
            old(self).hits < usize::MAX,
        ensures
            final(self).well_formed(),
            *final(self) == (FactLoading { hits: (old(self).hits + 1) as usize, ..*old(self) }),
    {
        self.hits = self.hits + 1;
    }

    /// The state behind a file of `bytes` bytes whose facts are not at hand.
    pub open spec fn missed(self, bytes: usize) -> FactLoading {
        let waiting = FactLoading {
            misses: if self.cached {
                (self.misses + 1) as usize
            } else {
                self.misses
            },
            pending: (self.pending + 1) as usize,
            pending_bytes: saturated(self.pending_bytes, bytes),
            ..self
        };
        if waiting.pending >= self.worker_limit || waiting.pending_bytes >= PARSE_BYTE_BUDGET {
            FactLoading { pending: 0, pending_bytes: 0, ..waiting }
        } else {
            waiting
        }
    }

    /// The state behind a file of `bytes` bytes of which the cache was asked.
    pub open spec fn after(self, found: bool, bytes: usize) -> FactLoading {
        if found {
            FactLoading { hits: (self.hits + 1) as usize, ..self }
        } else {
            self.missed(bytes)
        }
    }

    /// Takes up a file of which the cache was asked. Files are parsed as soon as there are
    /// as many as are parsed at the same time, or as they hold enough bytes.
    pub fn load(&mut self, found: bool, bytes: usize) -> (r: LoadStep)
        requires
            old(self).well_formed(),
            old(self).hits < usize::MAX,
            old(self).misses < usize::MAX,
        ensures
            final(self).well_formed(),
            *final(self) == old(self).after(found, bytes),
            r == if found {
                LoadStep::Reuse
            } else if final(self).pending == 0 {
                LoadStep::Parse
            } else {
                LoadStep::Wait
            },
    {
        if found {
            self.hits = self.hits + 1;
            return LoadStep::Reuse;
        }
        if self.cached {
            self.misses = self.misses + 1;
        }
        self.pending = self.pending + 1;
        self.pending_bytes = if bytes > usize::MAX - self.pending_bytes {
            usize::MAX
        } else {
            self.pending_bytes + bytes
        };
        if self.pending >= self.worker_limit || self.pending_bytes >= PARSE_BYTE_BUDGET {
            self.pending = 0;
            self.pending_bytes = 0;
            LoadStep::Parse
        } else {
            LoadStep::Wait
        }
    }

    /// Whether a new generation of the cache is written: where there is one, and where it
    /// lacked something.
    pub open spec fn writes(self) -> bool {
        self.cached && self.misses > 0
    }

    /// Whether a new generation of the cache is written.
    #[must_use]
    pub fn writes_generation(&self) -> (r: bool)
        ensures
            r == self.writes(),
    {
        self.cached && self.misses > 0
    }

    /// What the cache did.
    pub open spec fn account(self, state: CacheState) -> Option<CacheReportModel> {
        if self.cached {
            Some(
                CacheReportModel {
                    status: cache_state_name(state),
                    hits: self.hits,
                    misses: self.misses,
                    generation_written: self.writes(),
                },
            )
        } else {
            None
        }
    }

    /// What the cache did.
    #[must_use]
    pub fn report(&self, state: CacheState) -> (r: Option<CacheReport>)
        ensures
            r.deep_view() == self.account(state),
    {
        if self.cached {
            Some(
                CacheReport {
                    status: cache_status_name(state).to_string(),
                    hits: self.hits,
                    misses: self.misses,
                    generation_written: self.misses > 0,
                },
            )
        } else {
            None
        }
    }
}

/// Refuses a file that is larger than allowed.
pub fn check_source_size(path: &str, bytes: u64, limit: u64) -> (r: Result<(), ScanError>)
    ensures
        match r {
            Ok(_) => bytes <= limit,
            Err(error) => bytes > limit && error.deep_view() == ScanErrorModel::SourceFileTooLarge(
                SizeExceededModel { path: path@, bytes, limit },
            ),
        },
{
    if bytes > limit {
        Err(
            ScanError::SourceFileTooLarge(
                SizeExceeded { path: path.to_string(), bytes, limit },
            ),
        )
    } else {
        Ok(())
    }
}

/// The key of the facts of a file.
pub open spec fn fact_key(
    config: ConfigDigest,
    profile: ProfileDigest,
    path: Seq<char>,
    content: ContentDigest,
) -> CacheKeyModel {
    CacheKeyModel {
        config,
        profile,
        file: CanonicalFileIdentityModel { path },
        content,
        contexts: Seq::empty(),
    }
}

/// The key of the facts of a file, or that its path cannot be one.
pub fn fact_cache_key(
    config: ConfigDigest,
    profile: ProfileDigest,
    display_path: &str,
    content_digest: ContentDigest,
) -> (r: Result<CacheKey, ScanError>)
    ensures
        match r {
            Ok(key) => is_canonical(display_path@) && key.deep_view() == fact_key(
                config,
                profile,
                display_path@,
                content_digest,
            ),
            Err(error) => !is_canonical(display_path@) && error.deep_view()
                == ScanErrorModel::CacheIdentity(
                PathFailureModel {
                    path: display_path@,
                    reason: "file identity must be a canonical relative path"@,
                },
            ),
        },
{
    let file: CanonicalFileIdentity = match CanonicalFileIdentity::new(display_path) {
        Ok(file) => file,
        Err(reason) => {
            return Err(
                ScanError::CacheIdentity(
                    PathFailure { path: display_path.to_string(), reason: reason.to_string() },
                ),
            );
        },
    };
    let contexts: Vec<ContextDigest> = Vec::new();
    assert(contexts.deep_view() =~= Seq::empty());
    Ok(CacheKey::new(config, profile, file, content_digest, contexts))
}

/// The state behind files of which the cache was asked, each with whether its facts were found
/// and with its size.
pub open spec fn all_loaded(start: FactLoading, files: Seq<(bool, usize)>) -> FactLoading
    decreases files.len(),
{
    if files.len() == 0 {
        start
    } else {
        all_loaded(start, files.drop_last()).after(files.last().0, files.last().1)
    }
}

/// How many of some files had their facts in the cache.
pub open spec fn found_among(files: Seq<(bool, usize)>) -> nat
    decreases files.len(),
{
    if files.len() == 0 {
        0
    } else {
        found_among(files.drop_last()) + if files.last().0 {
            1nat
        } else {
            0nat
        }
    }
}

/// Each file is counted once, as found or as missed.
pub proof fn files_are_counted_once(start: FactLoading, files: Seq<(bool, usize)>)
    requires
        start.cached,
        start.hits == 0,
        start.misses == 0,
        files.len() <= usize::MAX,
    ensures
        found_among(files) <= files.len(),
        all_loaded(start, files).cached,
        all_loaded(start, files).hits == found_among(files),
        all_loaded(start, files).misses == files.len() - found_among(files),
    decreases files.len(),
{
    if files.len() > 0 {
        files_are_counted_once(start, files.drop_last());
    }
}

/// Where the facts of every file are found, nothing is missed, nothing waits to be parsed, and
/// no generation is written; where those of one are not, one is written.
pub proof fn nothing_is_written_where_all_is_found(
    start: FactLoading,
    files: Seq<(bool, usize)>,
)
    requires
        start.cached,
        start.hits == 0,
        start.misses == 0,
        start.pending == 0,
        files.len() <= usize::MAX,
    ensures
        (forall|i: int| 0 <= i < files.len() ==> (#[trigger] files[i]).0) ==> all_loaded(
            start,
            files,
        ) == (FactLoading { hits: files.len() as usize, ..start }) && !all_loaded(
            start,
            files,
        ).writes(),
        (exists|i: int| 0 <= i < files.len() && !(#[trigger] files[i]).0) ==> all_loaded(
            start,
            files,
        ).writes(),
    decreases files.len(),
{
    if files.len() > 0 {
        let rest = files.drop_last();
        files_are_counted_once(start, rest);
        files_are_counted_once(start, files);
        nothing_is_written_where_all_is_found(start, rest);
        if forall|i: int| 0 <= i < files.len() ==> (#[trigger] files[i]).0 {
            assert forall|i: int| 0 <= i < rest.len() implies (#[trigger] rest[i]).0 by {
                assert(files[i].0);
            }
            assert(files[files.len() - 1].0);
        }
        if exists|i: int| 0 <= i < files.len() && !(#[trigger] files[i]).0 {
            let i = choose|i: int| 0 <= i < files.len() && !(#[trigger] files[i]).0;
            if i < rest.len() {
                assert(!rest[i].0);
            }
        }
    }
}

/// What the cache answers for files: whether it holds the facts of each.
pub open spec fn answers(
    held: Seq<(CacheKeyModel, Seq<u8>)>,
    files: Seq<(CacheKeyModel, usize)>,
) -> Seq<(bool, usize)> {
    files.map_values(|file: (CacheKeyModel, usize)| (lookup(held, file.0) is Some, file.1))
}

/// Loading again misses nothing: where the facts of the files were committed, and the
/// generation is read undamaged, each is found, and no generation is written.
pub proof fn loading_again_misses_nothing(
    cache: PersistentCacheModel,
    generation: Seq<char>,
    entries: Seq<CacheEntryModel>,
    checksum: Digest,
    files: Seq<(CacheKeyModel, usize)>,
    start: FactLoading,
)
    requires
        is_generation_name(generation),
        generation_fault(entries, cache.limits) is None,
        forall|i: int|
            0 <= i < files.len() ==> exists|k: int|
                0 <= k < entries.len() && (#[trigger] entries[k]).key == (#[trigger] files[i]).0,
        files.len() <= usize::MAX,
        start.cached,
        start.hits == 0,
        start.misses == 0,
        start.pending == 0,
    ensures
        cache.opened(cache.body(generation, entries), generation, checksum, checksum) matches Ok(
            held,
        ) && {
            let ended = all_loaded(start, answers(held, files));
            ended.hits == files.len() && ended.misses == 0 && !ended.writes()
        },
{
    committed_entries_are_loaded(cache, generation, entries, checksum);
    let held = cache.opened(
        cache.body(generation, entries),
        generation,
        checksum,
        checksum,
    )->Ok_0;
    let asked = answers(held, files);
    assert forall|i: int| 0 <= i < asked.len() implies (#[trigger] asked[i]).0 by {
        let k = choose|k: int|
            0 <= k < entries.len() && (#[trigger] entries[k]).key == (#[trigger] files[i]).0;
        assert(lookup(held, entries[k].key) == Some(entries[k].payload));
    }
    nothing_is_written_where_all_is_found(start, asked);
}

} // verus!
