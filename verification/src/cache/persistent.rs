//! The cache in one directory: what of it is read, and what is written to it.

use crate::cache::digest::Digest;
use crate::cache::key::{CacheKey, CacheKeyModel};
use crate::cache::schema::{schema_fault, CacheSchema, CacheSchemaModel};
use crate::cache::store::{
    are_consistent, check_cache, check_entries, check_generation_size, generation_candidates,
    generation_entries, generation_fault, holds_exactly, list_generation_candidates, list_marker_targets,
    is_generation_name, marker_targets, open_generation, select_generation, selected_from,
    valid_generation_name, written_entries_are_read_back, CacheBody, CacheBodyModel, CacheEntry,
    CacheEntryModel, CacheError, CacheErrorModel, CacheLimits, CacheSnapshot, GenerationOutcome,
    SizeFault,
};
use crate::collections::OrderedMap;
use crate::paths::{FilePath, PathPartModel};
use crate::values::Value;
use vstd::prelude::*;

verus! {

/// The cache in one directory.
#[derive(Debug)]
pub struct PersistentCache {
    root: FilePath,
    schema: CacheSchema,
    limits: CacheLimits,
}

/// What a [`PersistentCache`] holds.
pub struct PersistentCacheModel {
    pub root: Seq<PathPartModel>,
    pub schema: CacheSchemaModel,
    pub limits: CacheLimits,
}

impl DeepView for PersistentCache {
    type V = PersistentCacheModel;

    closed spec fn deep_view(&self) -> PersistentCacheModel {
        PersistentCacheModel {
            root: self.root.deep_view(),
            schema: self.schema.deep_view(),
            limits: self.limits,
        }
    }
}

impl PersistentCacheModel {
    /// The limits are consistent, and the schema is complete.
    pub open spec fn well_formed(self) -> bool {
        are_consistent(self.limits) && schema_fault(self.schema) is None
    }

    /// What a generation with this name holds once these entries are written to it.
    pub open spec fn body(
        self,
        generation: Seq<char>,
        entries: Seq<CacheEntryModel>,
    ) -> CacheBodyModel {
        CacheBodyModel { schema: self.schema, generation, entries }
    }

    /// The entries of a generation that was read, or why it is not used.
    pub open spec fn opened(
        self,
        body: CacheBodyModel,
        generation: Seq<char>,
        checksum: Digest,
        expected: Digest,
    ) -> Result<Seq<(CacheKeyModel, Seq<u8>)>, Seq<char>> {
        if !is_generation_name(generation) {
            Err("invalid generation name"@)
        } else {
            generation_entries(body, generation, checksum, expected, self.schema, self.limits)
        }
    }
}

impl PersistentCache {
    /// Creates a cache handle without touching the filesystem.
    ///
    /// # Errors
    ///
    /// Returns an error when schema metadata or configured limits are invalid.
    pub fn new(root: FilePath, schema: CacheSchema, limits: CacheLimits) -> (r: Result<
        PersistentCache,
        CacheError,
    >)
        ensures
            match r {
                Ok(cache) => cache.deep_view().well_formed() && cache.deep_view() == (
                PersistentCacheModel { root: root.deep_view(), schema: schema.deep_view(), limits }),
                Err(error) => if !are_consistent(limits) {
                    error is InvalidLimits
                } else {
                    schema_fault(schema.deep_view()) is Some && error.deep_view()
                        == CacheErrorModel::InvalidSchema(schema_fault(schema.deep_view())->0)
                },
            },
    {
        match check_cache(&schema, limits) {
            Ok(_) => Ok(PersistentCache { root, schema, limits }),
            Err(error) => Err(error),
        }
    }

    /// The directory of the cache.
    #[must_use]
    pub fn root(&self) -> (r: &FilePath)
        ensures
            r.deep_view() == self.deep_view().root,
    {
        &self.root
    }

    /// How much the cache holds.
    #[must_use]
    pub fn limits(&self) -> (r: CacheLimits)
        ensures
            r == self.deep_view().limits,
    {
        self.limits
    }

    /// The generations that are to be tried, in their order: `markers` holds the contents of the
    /// markers and `generations` the names of the generations, the newest first.
    #[must_use]
    pub fn candidates(&self, markers: &Vec<String>, generations: &Vec<String>) -> (r: Vec<String>)
        ensures
            r.deep_view() == generation_candidates(
                marker_targets(markers.deep_view()),
                generations.deep_view(),
                self.deep_view().limits,
            ),
    {
        let marked = list_marker_targets(markers);
        list_generation_candidates(&marked, generations, self.limits)
    }

    /// The entries of a generation that was read, or why it is not used.
    ///
    /// # Errors
    ///
    /// Returns why the generation is not used.
    pub fn open(
        &self,
        body: &CacheBody,
        generation: &str,
        checksum: Digest,
        expected: Digest,
    ) -> (r:
        Result<OrderedMap<CacheKey, Vec<u8>>, String>)
        ensures
            ({
                let read = self.deep_view().opened(
                    body.deep_view(),
                    generation@,
                    checksum,
                    expected,
                );
                match r {
                    Ok(entries) => read == Ok::<Seq<(CacheKeyModel, Seq<u8>)>, Seq<char>>(
                        entries.deep_view(),
                    ),
                    Err(reason) => read == Err::<Seq<(CacheKeyModel, Seq<u8>)>, Seq<char>>(reason@),
                }
            }),
    {
        if !valid_generation_name(generation) {
            return Err("invalid generation name".to_owned());
        }
        open_generation(body, generation, checksum, expected, &self.schema, self.limits)
    }

    /// The newest usable generation, from what came of reading the candidates in their order;
    /// generations behind the first usable one need not be read.
    #[must_use]
    pub fn load(&self, candidates: &Vec<String>, outcomes: Vec<GenerationOutcome>) -> (r:
        CacheSnapshot)
        requires
            outcomes@.len() <= candidates@.len(),
        ensures
            r.deep_view() == selected_from(candidates.deep_view(), outcomes.deep_view(), 0),
    {
        select_generation(candidates, outcomes)
    }

    /// What is to be written as a new generation.
    ///
    /// # Errors
    ///
    /// Returns an error for invalid or oversized entries.
    pub fn commit(&self, generation: String, entries: Vec<CacheEntry>) -> (r: Result<
        CacheBody,
        CacheError,
    >)
        ensures
            match r {
                Ok(body) => generation_fault(entries.deep_view(), self.deep_view().limits) is None
                    && body.deep_view() == self.deep_view().body(
                    generation@,
                    entries.deep_view(),
                ),
                Err(error) => generation_fault(entries.deep_view(), self.deep_view().limits)
                    == Some(error.deep_view()),
            },
    {
        match check_entries(&entries, self.limits) {
            Ok(_) => Ok(CacheBody { schema: self.schema.replicate(), generation, entries }),
            Err(error) => Err(error),
        }
    }

    /// Whether a generation may be written in this many bytes, or how it is too large.
    ///
    /// # Errors
    ///
    /// Returns an error when the generation exceeds the configured size.
    pub fn check_size(&self, bytes: usize) -> (r: Result<(), CacheError>)
        ensures
            match r {
                Ok(_) => bytes <= self.deep_view().limits.max_generation_bytes,
                Err(error) => bytes > self.deep_view().limits.max_generation_bytes
                    && error.deep_view() == CacheErrorModel::GenerationTooLarge(
                    SizeFault { actual: bytes, limit: self.deep_view().limits.max_generation_bytes },
                ),
            },
    {
        check_generation_size(bytes, self.limits)
    }
}

/// What is committed is loaded: a generation that was committed and is read undamaged gives
/// back the facts of the entries, each under its key, and no others.
pub proof fn committed_entries_are_loaded(
    cache: PersistentCacheModel,
    generation: Seq<char>,
    entries: Seq<CacheEntryModel>,
    checksum: Digest,
)
    requires
        is_generation_name(generation),
        generation_fault(entries, cache.limits) is None,
    ensures
        cache.opened(cache.body(generation, entries), generation, checksum, checksum) matches Ok(
            read,
        ) && holds_exactly(read, entries),
{
    written_entries_are_read_back(cache.schema, generation, entries, checksum, cache.limits);
}

} // verus!
