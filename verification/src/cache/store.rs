//! Generations of cached facts: which are written, which are read, which are removed.

use crate::cache::digest::Digest;
use crate::cache::key::{key_fault, CacheKey, CacheKeyModel};
use crate::cache::schema::{schema_fault, CacheSchema, CacheSchemaModel};
use crate::collections::{
    ascending, ascending_is_unique, keys_of, lookup, lookup_after_with_entry, lookup_finds,
    lookup_other_after_with_entry, rank_of_splits, with_entry, with_entry_keys, with_item,
    with_item_ascending, with_item_contains, OrderedMap, OrderedSet,
};
use crate::text::{
    chars_of, concat2, concat3, concat4, concat5, decimal, digits, same, strip_prefix,
    strip_suffix, trim, trimmed, without_prefix, without_suffix,
};
use crate::values::{push_item, Value};
use vstd::prelude::*;

verus! {

/// How much a cache holds.
#[derive(Debug, Clone, Copy, PartialEq, Eq, Structural)]
pub struct CacheLimits {
    pub max_entries: usize,
    pub max_entry_bytes: usize,
    pub max_generation_bytes: u64,
    pub max_total_bytes: u64,
    pub retained_generations: usize,
    pub max_generation_files_to_scan: usize,
}

impl DeepView for CacheLimits {
    type V = CacheLimits;

    open spec fn deep_view(&self) -> CacheLimits {
        *self
    }
}

impl Value for CacheLimits {
    fn replicate(&self) -> (r: Self) {
        *self
    }

    fn same_value(&self, other: &Self) -> (r: bool) {
        *self == *other
    }
}

/// How much a cache holds where nothing is said.
pub open spec fn default_cache_limits() -> CacheLimits {
    CacheLimits {
        max_entries: 100_000,
        max_entry_bytes: 8_388_608,
        max_generation_bytes: 134_217_728,
        max_total_bytes: 268_435_456,
        retained_generations: 3,
        max_generation_files_to_scan: 64,
    }
}

impl Default for CacheLimits {
    fn default() -> (r: CacheLimits)
        ensures
            r == default_cache_limits(),
    {
        CacheLimits {
            max_entries: 100_000,
            max_entry_bytes: 8_388_608,
            max_generation_bytes: 134_217_728,
            max_total_bytes: 268_435_456,
            retained_generations: 3,
            max_generation_files_to_scan: 64,
        }
    }
}

/// Whether limits can be kept.
pub open spec fn are_consistent(limits: CacheLimits) -> bool {
    &&& limits.max_entries > 0
    &&& limits.max_entry_bytes > 0
    &&& limits.max_generation_bytes > 0
    &&& limits.max_total_bytes >= limits.max_generation_bytes
    &&& limits.retained_generations > 0
    &&& limits.max_generation_files_to_scan > 0
}

/// The limits that hold where nothing is said can be kept.
pub proof fn default_limits_are_consistent()
    ensures
        are_consistent(default_cache_limits()),
{
}

impl CacheLimits {
    /// Whether the limits can be kept.
    pub fn validate(self) -> (r: Result<(), CacheError>)
        ensures
            match r {
                Ok(_) => are_consistent(self),
                Err(error) => !are_consistent(self) && error is InvalidLimits,
            },
    {
        if self.max_entries == 0 || self.max_entry_bytes == 0 || self.max_generation_bytes == 0
            || self.max_total_bytes < self.max_generation_bytes || self.retained_generations == 0
            || self.max_generation_files_to_scan == 0 {
            return Err(CacheError::InvalidLimits);
        }
        Ok(())
    }
}

/// How large something is, and may be.
#[derive(Debug, Clone, Copy, PartialEq, Eq, Structural)]
pub struct SizeFault {
    pub actual: usize,
    pub limit: u64,
}

impl DeepView for SizeFault {
    type V = SizeFault;

    open spec fn deep_view(&self) -> SizeFault {
        *self
    }
}

impl Value for SizeFault {
    fn replicate(&self) -> (r: Self) {
        *self
    }

    fn same_value(&self, other: &Self) -> (r: bool) {
        *self == *other
    }
}

/// A path with what went wrong there.
#[derive(Debug, PartialEq, Eq)]
pub struct CacheIoFault {
    pub path: String,
    pub reason: String,
}

/// What a [`CacheIoFault`] holds.
pub struct CacheIoFaultModel {
    pub path: Seq<char>,
    pub reason: Seq<char>,
}

impl DeepView for CacheIoFault {
    type V = CacheIoFaultModel;

    open spec fn deep_view(&self) -> CacheIoFaultModel {
        CacheIoFaultModel {
            path: self.path.deep_view(),
            reason: self.reason.deep_view(),
        }
    }
}

impl Value for CacheIoFault {
    fn replicate(&self) -> (r: Self) {
        CacheIoFault {
            path: self.path.replicate(),
            reason: self.reason.replicate(),
        }
    }

    fn same_value(&self, other: &Self) -> (r: bool) {
        self.path.same_value(&other.path)
            && self.reason.same_value(&other.reason)
    }
}

/// Why a cache cannot be used.
#[derive(Debug, PartialEq, Eq)]
pub enum CacheError {
    InvalidLimits,
    EntryTooLarge(SizeFault),
    TooManyEntries(SizeFault),
    GenerationTooLarge(SizeFault),
    DuplicateKey,
    InvalidKey(&'static str),
    InvalidSchema(&'static str),
    Encode(String),
    Io(CacheIoFault),
}

/// What a [`CacheError`] holds.
pub enum CacheErrorModel {
    InvalidLimits,
    EntryTooLarge(SizeFault),
    TooManyEntries(SizeFault),
    GenerationTooLarge(SizeFault),
    DuplicateKey,
    InvalidKey(Seq<char>),
    InvalidSchema(Seq<char>),
    Encode(Seq<char>),
    Io(CacheIoFaultModel),
}

impl DeepView for CacheError {
    type V = CacheErrorModel;

    open spec fn deep_view(&self) -> CacheErrorModel {
        match self {
            CacheError::InvalidLimits => CacheErrorModel::InvalidLimits,
            CacheError::EntryTooLarge(x) => CacheErrorModel::EntryTooLarge(x.deep_view()),
            CacheError::TooManyEntries(x) => CacheErrorModel::TooManyEntries(x.deep_view()),
            CacheError::GenerationTooLarge(x) => CacheErrorModel::GenerationTooLarge(x.deep_view()),
            CacheError::DuplicateKey => CacheErrorModel::DuplicateKey,
            CacheError::InvalidKey(x) => CacheErrorModel::InvalidKey(x.deep_view()),
            CacheError::InvalidSchema(x) => CacheErrorModel::InvalidSchema(x.deep_view()),
            CacheError::Encode(x) => CacheErrorModel::Encode(x.deep_view()),
            CacheError::Io(x) => CacheErrorModel::Io(x.deep_view()),
        }
    }
}

impl Value for CacheError {
    fn replicate(&self) -> (r: Self) {
        match self {
            CacheError::InvalidLimits => CacheError::InvalidLimits,
            CacheError::EntryTooLarge(x) => CacheError::EntryTooLarge(x.replicate()),
            CacheError::TooManyEntries(x) => CacheError::TooManyEntries(x.replicate()),
            CacheError::GenerationTooLarge(x) => CacheError::GenerationTooLarge(x.replicate()),
            CacheError::DuplicateKey => CacheError::DuplicateKey,
            CacheError::InvalidKey(x) => CacheError::InvalidKey(x.replicate()),
            CacheError::InvalidSchema(x) => CacheError::InvalidSchema(x.replicate()),
            CacheError::Encode(x) => CacheError::Encode(x.replicate()),
            CacheError::Io(x) => CacheError::Io(x.replicate()),
        }
    }

    fn same_value(&self, other: &Self) -> (r: bool) {
        match (self, other) {
            (CacheError::InvalidLimits, CacheError::InvalidLimits) => true,
            (CacheError::EntryTooLarge(x), CacheError::EntryTooLarge(y)) => x.same_value(y),
            (CacheError::TooManyEntries(x), CacheError::TooManyEntries(y)) => x.same_value(y),
            (CacheError::GenerationTooLarge(x), CacheError::GenerationTooLarge(y)) => x.same_value(y),
            (CacheError::DuplicateKey, CacheError::DuplicateKey) => true,
            (CacheError::InvalidKey(x), CacheError::InvalidKey(y)) => x.same_value(y),
            (CacheError::InvalidSchema(x), CacheError::InvalidSchema(y)) => x.same_value(y),
            (CacheError::Encode(x), CacheError::Encode(y)) => x.same_value(y),
            (CacheError::Io(x), CacheError::Io(y)) => x.same_value(y),
            _ => false,
        }
    }
}

impl CacheErrorModel {
    /// The error in words.
    pub open spec fn text(self) -> Seq<char> {
        match self {
            CacheErrorModel::InvalidLimits => "cache limits are internally inconsistent"@,
            CacheErrorModel::EntryTooLarge(x) => "cache entry exceeds configured size limit: "@ + digits(x.actual as nat) + " > "@ + digits(x.limit as nat) + " bytes"@,
            CacheErrorModel::TooManyEntries(x) => "cache generation exceeds configured entry limit: "@ + digits(x.actual as nat) + " > "@ + digits(x.limit as nat),
            CacheErrorModel::GenerationTooLarge(x) => "cache generation exceeds configured size limit: "@ + digits(x.actual as nat) + " > "@ + digits(x.limit as nat) + " bytes"@,
            CacheErrorModel::DuplicateKey => "cache generation contains duplicate keys"@,
            CacheErrorModel::InvalidKey(x) => "invalid cache key: "@ + x,
            CacheErrorModel::InvalidSchema(x) => "invalid cache schema: "@ + x,
            CacheErrorModel::Encode(x) => "failed to encode cache generation: "@ + x,
            CacheErrorModel::Io(x) => "cache I/O failed for "@ + x.path + ": "@ + x.reason,
        }
    }
}

impl CacheError {
    /// The error in words.
    #[must_use]
    pub fn message(&self) -> (r: String)
        ensures
            r@ == self.deep_view().text(),
    {
        match self {
            CacheError::InvalidLimits => "cache limits are internally inconsistent".to_string(),
            CacheError::EntryTooLarge(x) => concat5("cache entry exceeds configured size limit: ", &decimal(x.actual as u64), " > ", &decimal(x.limit), " bytes"),
            CacheError::TooManyEntries(x) => concat4("cache generation exceeds configured entry limit: ", &decimal(x.actual as u64), " > ", &decimal(x.limit)),
            CacheError::GenerationTooLarge(x) => concat5("cache generation exceeds configured size limit: ", &decimal(x.actual as u64), " > ", &decimal(x.limit), " bytes"),
            CacheError::DuplicateKey => "cache generation contains duplicate keys".to_string(),
            CacheError::InvalidKey(x) => concat2("invalid cache key: ", x),
            CacheError::InvalidSchema(x) => concat2("invalid cache schema: ", x),
            CacheError::Encode(x) => concat2("failed to encode cache generation: ", x),
            CacheError::Io(x) => concat4("cache I/O failed for ", &x.path, ": ", &x.reason),
        }
    }
}

/// Facts, and all that they depend on.
#[derive(Debug, PartialEq, Eq)]
pub struct CacheEntry {
    pub key: CacheKey,
    pub payload: Vec<u8>,
}

/// What a [`CacheEntry`] holds.
pub struct CacheEntryModel {
    pub key: CacheKeyModel,
    pub payload: Seq<u8>,
}

impl DeepView for CacheEntry {
    type V = CacheEntryModel;

    open spec fn deep_view(&self) -> CacheEntryModel {
        CacheEntryModel {
            key: self.key.deep_view(),
            payload: self.payload.deep_view(),
        }
    }
}

impl Value for CacheEntry {
    fn replicate(&self) -> (r: Self) {
        CacheEntry {
            key: self.key.replicate(),
            payload: self.payload.replicate(),
        }
    }

    fn same_value(&self, other: &Self) -> (r: bool) {
        self.key.same_value(&other.key)
            && self.payload.same_value(&other.payload)
    }
}

impl CacheEntry {
    /// Facts, and all that they depend on.
    #[must_use]
    pub fn new(key: CacheKey, payload: Vec<u8>) -> (r: CacheEntry)
        ensures
            r.key == key,
            r.payload == payload,
    {
        CacheEntry { key, payload }
    }
}

/// The keys of entries.
pub open spec fn entry_keys(items: Seq<CacheEntryModel>) -> Seq<CacheKeyModel>
    decreases items.len(),
{
    if items.len() == 0 {
        Seq::empty()
    } else {
        let rest = entry_keys(items.drop_last());
        let last = items.last();
        with_item::<CacheKey>(rest, last.key)
    }
}

/// Why an entry cannot follow others, if it cannot.
pub open spec fn entry_fault(
    entry: CacheEntryModel,
    before: Seq<CacheKeyModel>,
    limits: CacheLimits,
) -> Option<CacheErrorModel> {
    if key_fault(entry.key) is Some {
        Some(CacheErrorModel::InvalidKey(key_fault(entry.key)->0))
    } else if entry.payload.len() > limits.max_entry_bytes {
        Some(
            CacheErrorModel::EntryTooLarge(
                SizeFault {
                    actual: entry.payload.len() as usize,
                    limit: limits.max_entry_bytes as u64,
                },
            ),
        )
    } else if with_item::<CacheKey>(before, entry.key) == before {
        Some(CacheErrorModel::DuplicateKey)
    } else {
        None
    }
}

/// Why the first entry that cannot be written cannot.
pub open spec fn entries_fault(
    items: Seq<CacheEntryModel>,
    limits: CacheLimits,
) -> Option<CacheErrorModel>
    decreases items.len(),
{
    if items.len() == 0 {
        None
    } else {
        let rest = entries_fault(items.drop_last(), limits);
        let last = items.last();
        if rest is Some {
            rest
        } else {
            entry_fault(last, entry_keys(items.drop_last()), limits)
        }
    }
}

/// Why entries cannot be written as a generation, if they cannot.
pub open spec fn generation_fault(
    entries: Seq<CacheEntryModel>,
    limits: CacheLimits,
) -> Option<CacheErrorModel> {
    if entries.len() > limits.max_entries {
        Some(
            CacheErrorModel::TooManyEntries(
                SizeFault { actual: entries.len() as usize, limit: limits.max_entries as u64 },
            ),
        )
    } else {
        entries_fault(entries, limits)
    }
}

proof fn entries_fail_early(entries: Seq<CacheEntryModel>, limits: CacheLimits, n: int)
    requires
        0 <= n <= entries.len(),
        entries_fault(entries.take(n), limits) is Some,
    ensures
        entries_fault(entries, limits) == entries_fault(entries.take(n), limits),
    decreases entries.len() - n,
{
    if n < entries.len() {
        assert(entries.take(n + 1).drop_last() =~= entries.take(n));
        entries_fail_early(entries, limits, n + 1);
    } else {
        assert(entries.take(n) =~= entries);
    }
}

/// Whether entries can be written as a generation, or why they cannot.
pub fn check_entries(entries: &Vec<CacheEntry>, limits: CacheLimits) -> (r: Result<(), CacheError>)
    ensures
        match r {
            Ok(_) => generation_fault(entries.deep_view(), limits) is None,
            Err(error) => generation_fault(entries.deep_view(), limits) == Some(error.deep_view()),
        },
{
    assert(entries.deep_view().len() == entries@.len());
    if entries.len() > limits.max_entries {
        return Err(
            CacheError::TooManyEntries(
                SizeFault { actual: entries.len(), limit: limits.max_entries as u64 },
            ),
        );
    }
    let mut keys: OrderedSet<CacheKey> = OrderedSet::new();
    let ghost model = entries.deep_view();
    let mut i: usize = 0;
    while i < entries.len()
        invariant
            i <= entries.len(),
            model == entries.deep_view(),
            model.len() <= limits.max_entries,
            keys.deep_view() == entry_keys(model.take(i as int)),
            entries_fault(model.take(i as int), limits) is None,
        decreases entries.len() - i,
    {
        proof {
            assert(model.take(i + 1).drop_last() =~= model.take(i as int));
            assert(model.take(i + 1).last() == entries@[i as int].deep_view());
        }
        let entry: &CacheEntry = &entries[i];
        let ghost before = keys.deep_view();
        assert(entry.payload.deep_view().len() == entry.payload@.len());
        match entry.key.validate() {
            Ok(_) => {},
            Err(reason) => {
                proof {
                    entries_fail_early(model, limits, i + 1);
                }
                return Err(CacheError::InvalidKey(reason));
            },
        }
        if entry.payload.len() > limits.max_entry_bytes {
            proof {
                entries_fail_early(model, limits, i + 1);
            }
            return Err(
                CacheError::EntryTooLarge(
                    SizeFault {
                        actual: entry.payload.len(),
                        limit: limits.max_entry_bytes as u64,
                    },
                ),
            );
        }
        if !keys.insert(entry.key.replicate()) {
            proof {
                entries_fail_early(model, limits, i + 1);
            }
            return Err(CacheError::DuplicateKey);
        }
        i = i + 1;
    }
    assert(model.take(i as int) =~= model);
    Ok(())
}

/// What a generation holds.
#[derive(Debug, PartialEq, Eq)]
pub struct CacheBody {
    pub schema: CacheSchema,
    pub generation: String,
    pub entries: Vec<CacheEntry>,
}

/// What a [`CacheBody`] holds.
pub struct CacheBodyModel {
    pub schema: CacheSchemaModel,
    pub generation: Seq<char>,
    pub entries: Seq<CacheEntryModel>,
}

impl DeepView for CacheBody {
    type V = CacheBodyModel;

    open spec fn deep_view(&self) -> CacheBodyModel {
        CacheBodyModel {
            schema: self.schema.deep_view(),
            generation: self.generation.deep_view(),
            entries: self.entries.deep_view(),
        }
    }
}

impl Value for CacheBody {
    fn replicate(&self) -> (r: Self) {
        CacheBody {
            schema: self.schema.replicate(),
            generation: self.generation.replicate(),
            entries: self.entries.replicate(),
        }
    }

    fn same_value(&self, other: &Self) -> (r: bool) {
        self.schema.same_value(&other.schema)
            && self.generation.same_value(&other.generation)
            && self.entries.same_value(&other.entries)
    }
}

/// What a read entry is refused for, if it is.
pub open spec fn read_fault(
    entry: CacheEntryModel,
    before: Seq<(CacheKeyModel, Seq<u8>)>,
    limits: CacheLimits,
) -> Option<Seq<char>> {
    if key_fault(entry.key) is Some {
        key_fault(entry.key)
    } else if entry.payload.len() > limits.max_entry_bytes {
        Some("entry exceeds configured byte limit"@)
    } else if lookup(before, entry.key) is Some {
        Some("generation contains duplicate cache keys"@)
    } else {
        None
    }
}

/// The entries of a generation by their keys, or what one is refused for.
pub open spec fn read_entries(
    items: Seq<CacheEntryModel>,
    limits: CacheLimits,
) -> Result<Seq<(CacheKeyModel, Seq<u8>)>, Seq<char>>
    decreases items.len(),
{
    if items.len() == 0 {
        Ok(Seq::empty())
    } else {
        let rest = read_entries(items.drop_last(), limits);
        let last = items.last();
        match rest {
            Ok(before) => match read_fault(last, before, limits) {
                Some(reason) => Err(reason),
                None => Ok(with_entry::<CacheKey, Seq<u8>>(before, last.key, last.payload)),
            },
            Err(reason) => Err(reason),
        }
    }
}

proof fn read_entries_fail_early(entries: Seq<CacheEntryModel>, limits: CacheLimits, n: int)
    requires
        0 <= n <= entries.len(),
        read_entries(entries.take(n), limits) is Err,
    ensures
        read_entries(entries, limits) == read_entries(entries.take(n), limits),
    decreases entries.len() - n,
{
    if n < entries.len() {
        assert(entries.take(n + 1).drop_last() =~= entries.take(n));
        read_entries_fail_early(entries, limits, n + 1);
    } else {
        assert(entries.take(n) =~= entries);
    }
}

/// The entries of a generation that was read, or why it is not used: it was written with
/// something else, is not the one it should be, holds too much, or is damaged.
pub open spec fn generation_entries(
    body: CacheBodyModel,
    generation: Seq<char>,
    checksum: Digest,
    expected: Digest,
    schema: CacheSchemaModel,
    limits: CacheLimits,
) -> Result<Seq<(CacheKeyModel, Seq<u8>)>, Seq<char>> {
    if body.schema != schema {
        Err("generation uses an incompatible schema or tool version"@)
    } else if body.generation != generation {
        Err("generation identity does not match its file name"@)
    } else if body.entries.len() > limits.max_entries {
        Err("generation exceeds configured entry limit"@)
    } else if checksum != expected {
        Err("generation checksum does not match its contents"@)
    } else {
        read_entries(body.entries, limits)
    }
}

/// The entries of a generation that was read, or why it is not used. `checksum` is the digest
/// of what was read, and `expected` the one that was written with it.
pub fn open_generation(
    body: &CacheBody,
    generation: &str,
    checksum: Digest,
    expected: Digest,
    schema: &CacheSchema,
    limits: CacheLimits,
) -> (r: Result<OrderedMap<CacheKey, Vec<u8>>, String>)
    ensures
        ({
            let read = generation_entries(
                body.deep_view(),
                generation@,
                checksum,
                expected,
                schema.deep_view(),
                limits,
            );
            match r {
                Ok(entries) => read == Ok::<Seq<(CacheKeyModel, Seq<u8>)>, Seq<char>>(
                    entries.deep_view(),
                ),
                Err(reason) => read == Err::<Seq<(CacheKeyModel, Seq<u8>)>, Seq<char>>(reason@),
            }
        }),
{
    if !body.schema.same_value(schema) {
        return Err("generation uses an incompatible schema or tool version".to_string());
    }
    if !same(&body.generation, generation) {
        return Err("generation identity does not match its file name".to_string());
    }
    let items: &Vec<CacheEntry> = &body.entries;
    assert(items.deep_view().len() == items@.len());
    if items.len() > limits.max_entries {
        return Err("generation exceeds configured entry limit".to_string());
    }
    if checksum != expected {
        return Err("generation checksum does not match its contents".to_string());
    }
    let mut entries: OrderedMap<CacheKey, Vec<u8>> = OrderedMap::new();
    let ghost model = items.deep_view();
    let mut i: usize = 0;
    while i < items.len()
        invariant
            i <= items.len(),
            model == items.deep_view(),
            model == body.deep_view().entries,
            generation_entries(body.deep_view(), generation@, checksum, expected, schema.deep_view(), limits) == read_entries(model, limits),
            read_entries(model.take(i as int), limits) == Ok::<Seq<(CacheKeyModel, Seq<u8>)>, Seq<char>>(entries.deep_view()),
        decreases items.len() - i,
    {
        proof {
            assert(model.take(i + 1).drop_last() =~= model.take(i as int));
            assert(model.take(i + 1).last() == items@[i as int].deep_view());
        }
        let entry: &CacheEntry = &items[i];
        assert(entry.payload.deep_view().len() == entry.payload@.len());
        match entry.key.validate() {
            Ok(_) => {},
            Err(reason) => {
                proof {
                    read_entries_fail_early(model, limits, i + 1);
                }
                return Err(reason.to_string());
            },
        }
        if entry.payload.len() > limits.max_entry_bytes {
            proof {
                read_entries_fail_early(model, limits, i + 1);
            }
            return Err("entry exceeds configured byte limit".to_string());
        }
        if entries.contains_key(&entry.key) {
            proof {
                read_entries_fail_early(model, limits, i + 1);
            }
            return Err("generation contains duplicate cache keys".to_string());
        }
        entries.insert(entry.key.replicate(), entry.payload.replicate());
        i = i + 1;
    }
    assert(model.take(i as int) =~= model);
    Ok(entries)
}

/// Whether a text is a token of digits and dashes.
pub open spec fn is_token(s: Seq<char>) -> bool {
    &&& s.len() > 0
    &&& forall|i: int| 0 <= i < s.len() ==> token_char(#[trigger] s[i])
}

/// Whether a character is a digit or a dash.
pub open spec fn token_char(c: char) -> bool {
    ('0' <= c && c <= '9') || c == '-'
}

fn is_token_text(s: &str) -> (r: bool)
    ensures
        r == is_token(s@),
{
    let chars: Vec<char> = chars_of(s);
    let mut i: usize = 0;
    while i < chars.len()
        invariant
            i <= chars.len(),
            chars@ == s@,
            forall|k: int| 0 <= k < i ==> token_char(#[trigger] s@[k]),
        decreases chars.len() - i,
    {
        assert(chars@[i as int] == s@[i as int]);
        let c: char = chars[i];
        if !(('0' <= c && c <= '9') || c == '-') {
            assert(!token_char(s@[i as int]));
            return false;
        }
        i = i + 1;
    }
    chars.len() > 0
}

/// What stands between a prefix and a suffix.
pub open spec fn between(s: Seq<char>, prefix: Seq<char>, suffix: Seq<char>) -> Option<Seq<char>> {
    match without_prefix(s, prefix) {
        Some(rest) => without_suffix(rest, suffix),
        None => None,
    }
}

fn cut_between(s: &str, prefix: &str, suffix: &str) -> (r: Option<String>)
    ensures
        r.deep_view() == between(s@, prefix@, suffix@),
{
    match strip_prefix(s, prefix) {
        Some(rest) => strip_suffix(&rest, suffix),
        None => None,
    }
}

/// Whether a file holds a generation, by its name.
pub open spec fn is_generation_name(name: Seq<char>) -> bool {
    between(name, "generation-"@, ".json"@) matches Some(token) && is_token(token)
}

/// Whether a file holds a generation, by its name.
#[must_use]
pub fn valid_generation_name(name: &str) -> (r: bool)
    ensures
        r == is_generation_name(name@),
{
    match cut_between(name, "generation-", ".json") {
        Some(token) => is_token_text(&token),
        None => false,
    }
}

/// Whether a file marks a generation as active, by its name.
pub open spec fn is_marker_name(name: Seq<char>) -> bool {
    between(name, "active-"@, ".txt"@) matches Some(token) && is_token(token)
}

/// Whether a file marks a generation as active, by its name.
#[must_use]
pub fn valid_marker_name(name: &str) -> (r: bool)
    ensures
        r == is_marker_name(name@),
{
    match cut_between(name, "active-", ".txt") {
        Some(token) => is_token_text(&token),
        None => false,
    }
}

/// The name of the generation with a token.
#[must_use]
pub fn generation_name(token: &str) -> (r: String)
    ensures
        r@ == "generation-"@ + token@ + ".json"@,
{
    concat3("generation-", token, ".json")
}

/// The name of the file that marks a generation as active.
pub open spec fn marker_of(generation: Seq<char>) -> Option<Seq<char>> {
    match between(generation, "generation-"@, ".json"@) {
        Some(token) => Some("active-"@ + token + ".txt"@),
        None => None,
    }
}

/// The name of the file that marks a generation as active.
#[must_use]
pub fn marker_name(generation: &str) -> (r: Option<String>)
    ensures
        r.deep_view() == marker_of(generation@),
{
    match cut_between(generation, "generation-", ".json") {
        Some(token) => Some(concat3("active-", &token, ".txt")),
        None => None,
    }
}

/// A token of digits and dashes names a generation, and that has a marker.
pub proof fn tokens_name_generations(token: Seq<char>)
    requires
        is_token(token),
    ensures
        is_generation_name("generation-"@ + token + ".json"@),
        marker_of("generation-"@ + token + ".json"@) matches Some(marker) && is_marker_name(marker),
{
    let name = "generation-"@ + token + ".json"@;
    assert(without_prefix(name, "generation-"@) == Some(token + ".json"@)) by {
        assert("generation-"@.is_prefix_of(name)) by {
            assert(name.take("generation-"@.len() as int) =~= "generation-"@);
        }
        assert(name.skip("generation-"@.len() as int) =~= token + ".json"@);
    }
    assert(without_suffix(token + ".json"@, ".json"@) == Some(token)) by {
        assert((token + ".json"@).take(token.len() as int) =~= token);
        assert((token + ".json"@).skip(token.len() as int) =~= ".json"@);
    }
    let marker = "active-"@ + token + ".txt"@;
    assert(without_prefix(marker, "active-"@) == Some(token + ".txt"@)) by {
        assert(marker.take("active-"@.len() as int) =~= "active-"@);
        assert(marker.skip("active-"@.len() as int) =~= token + ".txt"@);
    }
    assert(without_suffix(token + ".txt"@, ".txt"@) == Some(token)) by {
        assert((token + ".txt"@).take(token.len() as int) =~= token);
        assert((token + ".txt"@).skip(token.len() as int) =~= ".txt"@);
    }
}

/// The generations that markers name, each once.
pub open spec fn marker_targets(items: Seq<Seq<char>>) -> Seq<Seq<char>>
    decreases items.len(),
{
    if items.len() == 0 {
        Seq::empty()
    } else {
        let rest = marker_targets(items.drop_last());
        let last = items.last();
        if is_generation_name(trimmed(last)) && !rest.contains(trimmed(last)) {
            rest.push(trimmed(last))
        } else {
            rest
        }
    }
}

fn holds_text(texts: &Vec<String>, wanted: &str) -> (r: bool)
    ensures
        r == texts.deep_view().contains(wanted@),
{
    let ghost model = texts.deep_view();
    let mut i: usize = 0;
    while i < texts.len()
        invariant
            i <= texts.len(),
            model == texts.deep_view(),
            forall|k: int| 0 <= k < i ==> model[k] != wanted@,
        decreases texts.len() - i,
    {
        assert(model[i as int] == texts@[i as int]@);
        if same(&texts[i], wanted) {
            return true;
        }
        i = i + 1;
    }
    false
}

/// The generations that markers name, each once. `contents` are those of the markers that
/// can be read, newest first.
#[must_use]
pub fn list_marker_targets(contents: &Vec<String>) -> (r: Vec<String>)
    ensures
        r.deep_view() == marker_targets(contents.deep_view()),
{
    let mut targets: Vec<String> = Vec::new();
    let ghost model = contents.deep_view();
    let mut i: usize = 0;
    while i < contents.len()
        invariant
            i <= contents.len(),
            model == contents.deep_view(),
            targets.deep_view() =~= marker_targets(model.take(i as int)),
        decreases contents.len() - i,
    {
        proof {
            assert(model.take(i + 1).drop_last() =~= model.take(i as int));
            assert(model.take(i + 1).last() == contents@[i as int].deep_view());
        }
        let target: String = trim(&contents[i]);
        if valid_generation_name(&target) && !holds_text(&targets, &target) {
            push_item(&mut targets, target);
        }
        i = i + 1;
    }
    assert(model.take(i as int) =~= model);
    targets
}

/// Generations with those that are not marked.
pub open spec fn with_unmarked(items: Seq<Seq<char>>, marked: Seq<Seq<char>>) -> Seq<Seq<char>>
    decreases items.len(),
{
    if items.len() == 0 {
        marked
    } else {
        let rest = with_unmarked(items.drop_last(), marked);
        let last = items.last();
        if marked.contains(last) { rest } else { rest.push(last) }
    }
}

/// The generations that may be read, in the order in which they are tried: those that are
/// marked first, and no more than may be.
pub open spec fn generation_candidates(
    marked: Seq<Seq<char>>,
    generations: Seq<Seq<char>>,
    limits: CacheLimits,
) -> Seq<Seq<char>> {
    let all = with_unmarked(generations, marked);
    if all.len() > limits.max_generation_files_to_scan {
        all.take(limits.max_generation_files_to_scan as int)
    } else {
        all
    }
}

/// The generations that may be read, in the order in which they are tried.
#[must_use]
pub fn list_generation_candidates(
    marked: &Vec<String>,
    generations: &Vec<String>,
    limits: CacheLimits,
) -> (r: Vec<String>)
    ensures
        r.deep_view() == generation_candidates(
            marked.deep_view(),
            generations.deep_view(),
            limits,
        ),
{
    let ghost first = marked.deep_view();
    let mut all: Vec<String> = marked.replicate();
    let ghost model = generations.deep_view();
    let mut i: usize = 0;
    while i < generations.len()
        invariant
            i <= generations.len(),
            model == generations.deep_view(),
            first == marked.deep_view(),
            all.deep_view() =~= with_unmarked(model.take(i as int), first),
        decreases generations.len() - i,
    {
        proof {
            assert(model.take(i + 1).drop_last() =~= model.take(i as int));
            assert(model.take(i + 1).last() == generations@[i as int].deep_view());
        }
        if !holds_text(marked, &generations[i]) {
            push_item(&mut all, generations[i].replicate());
        }
        i = i + 1;
    }
    assert(model.take(i as int) =~= model);
    let ghost whole = all.deep_view();
    assert(whole.len() == all@.len());
    if all.len() > limits.max_generation_files_to_scan {
        all.truncate(limits.max_generation_files_to_scan);
        assert(all.deep_view() =~= whole.take(limits.max_generation_files_to_scan as int));
    }
    all
}

/// A generation that is read in place of others, and why.
#[derive(Debug, PartialEq, Eq)]
pub struct RecoveredGeneration {
    pub generation: String,
    pub ignored_issues: Vec<String>,
}

/// What a [`RecoveredGeneration`] holds.
pub struct RecoveredGenerationModel {
    pub generation: Seq<char>,
    pub ignored_issues: Seq<Seq<char>>,
}

impl DeepView for RecoveredGeneration {
    type V = RecoveredGenerationModel;

    open spec fn deep_view(&self) -> RecoveredGenerationModel {
        RecoveredGenerationModel {
            generation: self.generation.deep_view(),
            ignored_issues: self.ignored_issues.deep_view(),
        }
    }
}

impl Value for RecoveredGeneration {
    fn replicate(&self) -> (r: Self) {
        RecoveredGeneration {
            generation: self.generation.replicate(),
            ignored_issues: self.ignored_issues.replicate(),
        }
    }

    fn same_value(&self, other: &Self) -> (r: bool) {
        self.generation.same_value(&other.generation)
            && self.ignored_issues.same_value(&other.ignored_issues)
    }
}

/// How a cache was read.
#[derive(Debug, PartialEq, Eq)]
pub enum CacheLoadStatus {
    Empty,
    Active(String),
    Recovered(RecoveredGeneration),
    Reset(Vec<String>),
}

/// What a [`CacheLoadStatus`] holds.
pub enum CacheLoadStatusModel {
    Empty,
    Active(Seq<char>),
    Recovered(RecoveredGenerationModel),
    Reset(Seq<Seq<char>>),
}

impl DeepView for CacheLoadStatus {
    type V = CacheLoadStatusModel;

    open spec fn deep_view(&self) -> CacheLoadStatusModel {
        match self {
            CacheLoadStatus::Empty => CacheLoadStatusModel::Empty,
            CacheLoadStatus::Active(x) => CacheLoadStatusModel::Active(x.deep_view()),
            CacheLoadStatus::Recovered(x) => CacheLoadStatusModel::Recovered(x.deep_view()),
            CacheLoadStatus::Reset(x) => CacheLoadStatusModel::Reset(x.deep_view()),
        }
    }
}

impl Value for CacheLoadStatus {
    fn replicate(&self) -> (r: Self) {
        match self {
            CacheLoadStatus::Empty => CacheLoadStatus::Empty,
            CacheLoadStatus::Active(x) => CacheLoadStatus::Active(x.replicate()),
            CacheLoadStatus::Recovered(x) => CacheLoadStatus::Recovered(x.replicate()),
            CacheLoadStatus::Reset(x) => CacheLoadStatus::Reset(x.replicate()),
        }
    }

    fn same_value(&self, other: &Self) -> (r: bool) {
        match (self, other) {
            (CacheLoadStatus::Empty, CacheLoadStatus::Empty) => true,
            (CacheLoadStatus::Active(x), CacheLoadStatus::Active(y)) => x.same_value(y),
            (CacheLoadStatus::Recovered(x), CacheLoadStatus::Recovered(y)) => x.same_value(y),
            (CacheLoadStatus::Reset(x), CacheLoadStatus::Reset(y)) => x.same_value(y),
            _ => false,
        }
    }
}

/// A cache as it was read.
#[derive(Debug, PartialEq, Eq)]
pub struct CacheSnapshot {
    pub generation: Option<String>,
    pub entries: OrderedMap<CacheKey, Vec<u8>>,
    pub status: CacheLoadStatus,
}

/// What a [`CacheSnapshot`] holds.
pub struct CacheSnapshotModel {
    pub generation: Option<Seq<char>>,
    pub entries: Seq<(CacheKeyModel, Seq<u8>)>,
    pub status: CacheLoadStatusModel,
}

impl DeepView for CacheSnapshot {
    type V = CacheSnapshotModel;

    open spec fn deep_view(&self) -> CacheSnapshotModel {
        CacheSnapshotModel {
            generation: self.generation.deep_view(),
            entries: self.entries.deep_view(),
            status: self.status.deep_view(),
        }
    }
}

impl CacheSnapshot {
    /// The generation that was read.
    #[must_use]
    pub fn generation(&self) -> (r: Option<String>)
        ensures
            r.deep_view() == self.deep_view().generation,
    {
        self.generation.replicate()
    }

    /// How many entries there are.
    #[must_use]
    pub fn len(&self) -> (r: usize)
        ensures
            r == self.deep_view().entries.len(),
    {
        self.entries.len()
    }

    /// Whether there are no entries.
    #[must_use]
    pub fn is_empty(&self) -> (r: bool)
        ensures
            r == (self.deep_view().entries.len() == 0),
    {
        self.entries.is_empty()
    }

    /// The facts at a key.
    #[must_use]
    pub fn get(&self, key: &CacheKey) -> (r: Option<&Vec<u8>>)
        ensures
            r.deep_view() == lookup(self.deep_view().entries, key.deep_view()),
    {
        self.entries.get(key)
    }

    /// The entries, in the order of their keys.
    #[must_use]
    pub fn iter(&self) -> (r: &Vec<(CacheKey, Vec<u8>)>)
        ensures
            r.deep_view() == self.deep_view().entries,
    {
        self.entries.entries()
    }
}

/// What came of reading a generation.
pub enum GenerationOutcome {
    Read(OrderedMap<CacheKey, Vec<u8>>),
    Refused(String),
}

/// What came of reading a generation.
pub enum GenerationOutcomeModel {
    Read(Seq<(CacheKeyModel, Seq<u8>)>),
    Refused(Seq<char>),
}

impl DeepView for GenerationOutcome {
    type V = GenerationOutcomeModel;

    open spec fn deep_view(&self) -> GenerationOutcomeModel {
        match self {
            GenerationOutcome::Read(entries) => GenerationOutcomeModel::Read(entries.deep_view()),
            GenerationOutcome::Refused(reason) => GenerationOutcomeModel::Refused(reason@),
        }
    }
}

/// Why generations were refused.
pub open spec fn refusals(
    candidates: Seq<Seq<char>>,
    outcomes: Seq<GenerationOutcomeModel>,
    n: nat,
) -> Seq<Seq<char>>
    decreases n,
{
    if n == 0 {
        Seq::empty()
    } else {
        match outcomes[n - 1] {
            GenerationOutcomeModel::Refused(reason) => refusals(
                candidates,
                outcomes,
                (n - 1) as nat,
            ).push(candidates[n - 1] + ": "@ + reason),
            GenerationOutcomeModel::Read(_) => refusals(candidates, outcomes, (n - 1) as nat),
        }
    }
}

/// A cache as it was read from a generation, the first that was not refused.
pub open spec fn snapshot_of(
    generation: Seq<char>,
    entries: Seq<(CacheKeyModel, Seq<u8>)>,
    issues: Seq<Seq<char>>,
) -> CacheSnapshotModel {
    CacheSnapshotModel {
        generation: Some(generation),
        entries,
        status: if issues.len() == 0 {
            CacheLoadStatusModel::Active(generation)
        } else {
            CacheLoadStatusModel::Recovered(
                RecoveredGenerationModel { generation, ignored_issues: issues },
            )
        },
    }
}

/// The cache that results from trying generations from a place on, where those before were
/// refused.
pub open spec fn selected_from(
    candidates: Seq<Seq<char>>,
    outcomes: Seq<GenerationOutcomeModel>,
    from: nat,
) -> CacheSnapshotModel
    decreases outcomes.len() - from,
{
    let issues = refusals(candidates, outcomes, from);
    if from >= outcomes.len() {
        CacheSnapshotModel {
            generation: None,
            entries: Seq::empty(),
            status: if outcomes.len() == 0 {
                CacheLoadStatusModel::Empty
            } else {
                CacheLoadStatusModel::Reset(issues)
            },
        }
    } else {
        match outcomes[from as int] {
            GenerationOutcomeModel::Read(entries) => snapshot_of(
                candidates[from as int],
                entries,
                issues,
            ),
            GenerationOutcomeModel::Refused(_) => selected_from(candidates, outcomes, from + 1),
        }
    }
}

/// The cache that results from what came of reading generations: the first that was not
/// refused, and an empty one where all were. Generations behind that need not be read.
#[must_use]
pub fn select_generation(candidates: &Vec<String>, outcomes: Vec<GenerationOutcome>) -> (r:
    CacheSnapshot)
    requires
        outcomes@.len() <= candidates@.len(),
    ensures
        r.deep_view() == selected_from(candidates.deep_view(), outcomes.deep_view(), 0),
{
    let ghost names = candidates.deep_view();
    let ghost model = outcomes.deep_view();
    let mut issues: Vec<String> = Vec::new();
    let mut i: usize = 0;
    assert(issues.deep_view() =~= Seq::empty());
    while i < outcomes.len()
        invariant
            i <= outcomes.len(),
            outcomes@.len() <= candidates@.len(),
            names == candidates.deep_view(),
            model == outcomes.deep_view(),
            issues.deep_view() =~= refusals(names, model, i as nat),
            selected_from(names, model, 0) == selected_from(names, model, i as nat),
        decreases outcomes.len() - i,
    {
        assert(model[i as int] == outcomes@[i as int].deep_view());
        assert(names[i as int] == candidates@[i as int]@);
        match &outcomes[i] {
            GenerationOutcome::Read(entries) => {
                assert(issues.deep_view().len() == issues@.len());
                let status: CacheLoadStatus = if issues.len() == 0 {
                    CacheLoadStatus::Active(candidates[i].replicate())
                } else {
                    CacheLoadStatus::Recovered(
                        RecoveredGeneration {
                            generation: candidates[i].replicate(),
                            ignored_issues: issues,
                        },
                    )
                };
                return CacheSnapshot {
                    generation: Some(candidates[i].replicate()),
                    entries: entries.replicate(),
                    status,
                };
            },
            GenerationOutcome::Refused(reason) => {
                push_item(&mut issues, concat3(&candidates[i], ": ", reason));
            },
        }
        i = i + 1;
    }
    let status: CacheLoadStatus = if outcomes.len() == 0 {
        CacheLoadStatus::Empty
    } else {
        CacheLoadStatus::Reset(issues)
    };
    assert(model.len() == outcomes@.len());
    CacheSnapshot { generation: None, entries: OrderedMap::new(), status }
}

/// Damage is recovered from: where a generation was read, that one is used, whatever came of
/// those before it.
pub proof fn the_first_readable_generation_is_used(
    candidates: Seq<Seq<char>>,
    outcomes: Seq<GenerationOutcomeModel>,
    from: nat,
    k: int,
)
    requires
        outcomes.len() <= candidates.len(),
        from <= k < outcomes.len(),
        outcomes[k] is Read,
        forall|j: int| from <= j < k ==> #[trigger] outcomes[j] is Refused,
    ensures
        selected_from(candidates, outcomes, from).generation == Some(candidates[k]),
        GenerationOutcomeModel::Read(selected_from(candidates, outcomes, from).entries)
            == outcomes[k],
    decreases k - from,
{
    if from < k {
        assert(outcomes[from as int] is Refused);
        the_first_readable_generation_is_used(candidates, outcomes, from + 1, k);
    }
}

/// How many generations there are, and how large they are together.
#[derive(Debug, Clone, Copy, PartialEq, Eq, Structural)]
pub struct PruneState {
    pub retained: usize,
    pub total_bytes: u64,
}

impl PruneState {
    /// Whether another generation than the active one has to go: there are too many, or they
    /// are too large together.
    #[must_use]
    pub fn should_remove(&self, name: &str, active: &str, limits: CacheLimits) -> (r: bool)
        ensures
            r == (name@ != active@ && (self.retained > limits.retained_generations
                || self.total_bytes > limits.max_total_bytes)),
    {
        !same(name, active) && (self.retained > limits.retained_generations || self.total_bytes
            > limits.max_total_bytes)
    }

    /// What is left once a generation is gone.
    #[must_use]
    pub fn without(&self, size: u64) -> (r: PruneState)
        ensures
            r.retained == (if self.retained > 0 {
                self.retained - 1
            } else {
                0
            }),
            r.total_bytes == (if self.total_bytes > size {
                self.total_bytes - size
            } else {
                0
            }),
    {
        PruneState {
            retained: if self.retained > 0 {
                self.retained - 1
            } else {
                0
            },
            total_bytes: if self.total_bytes > size {
                self.total_bytes - size
            } else {
                0
            },
        }
    }
}

/// Whether a cache can be used with a schema and limits, or why it cannot.
pub fn check_cache(schema: &CacheSchema, limits: CacheLimits) -> (r: Result<(), CacheError>)
    ensures
        match r {
            Ok(_) => are_consistent(limits) && schema_fault(schema.deep_view()) is None,
            Err(error) => if !are_consistent(limits) {
                error is InvalidLimits
            } else {
                schema_fault(schema.deep_view()) is Some && error.deep_view()
                    == CacheErrorModel::InvalidSchema(schema_fault(schema.deep_view())->0)
            },
        },
{
    match limits.validate() {
        Ok(_) => {},
        Err(error) => {
            return Err(error);
        },
    }
    match schema.validate() {
        Ok(_) => Ok(()),
        Err(reason) => Err(CacheError::InvalidSchema(reason)),
    }
}

/// Whether an encoded generation is small enough, or how it is not.
pub fn check_generation_size(bytes: usize, limits: CacheLimits) -> (r: Result<(), CacheError>)
    ensures
        match r {
            Ok(_) => bytes <= limits.max_generation_bytes,
            Err(error) => bytes > limits.max_generation_bytes && error.deep_view()
                == CacheErrorModel::GenerationTooLarge(
                SizeFault { actual: bytes, limit: limits.max_generation_bytes },
            ),
        },
{
    if bytes as u64 > limits.max_generation_bytes {
        return Err(
            CacheError::GenerationTooLarge(
                SizeFault { actual: bytes, limit: limits.max_generation_bytes },
            ),
        );
    }
    Ok(())
}

/// Whether facts are those of some entries: as many, in the order of their keys, those of each
/// entry under its key, and none under another.
pub open spec fn holds_exactly(
    read: Seq<(CacheKeyModel, Seq<u8>)>,
    entries: Seq<CacheEntryModel>,
) -> bool {
    &&& read.len() == entries.len()
    &&& ascending::<CacheKey>(keys_of(read))
    &&& forall|i: int|
        0 <= i < entries.len() ==> lookup(read, (#[trigger] entries[i]).key) == Some(
            entries[i].payload,
        )
    &&& forall|key: CacheKeyModel| #[trigger]
        lookup(read, key) is Some ==> exists|i: int|
            0 <= i < entries.len() && (#[trigger] entries[i]).key == key
}

proof fn entry_keys_are_those_given(entries: Seq<CacheEntryModel>, limits: CacheLimits)
    requires
        entries_fault(entries, limits) is None,
    ensures
        entry_keys(entries).len() == entries.len(),
        forall|key: CacheKeyModel| #[trigger]
            entry_keys(entries).contains(key) ==> exists|i: int|
                0 <= i < entries.len() && (#[trigger] entries[i]).key == key,
    decreases entries.len(),
{
    if entries.len() > 0 {
        let rest = entries.drop_last();
        let last = entries.last();
        entry_keys_are_those_given(rest, limits);
        checked_entries_are_read(rest, limits);
        rank_of_splits::<CacheKey>(entry_keys(rest), last.key);
        with_item_contains::<CacheKey>(entry_keys(rest), last.key);
        assert forall|key: CacheKeyModel| #[trigger] entry_keys(entries).contains(
            key,
        ) implies exists|i: int| 0 <= i < entries.len() && (#[trigger] entries[i]).key == key by {
            if entry_keys(rest).contains(key) {
                let i = choose|i: int| 0 <= i < rest.len() && (#[trigger] rest[i]).key == key;
                assert(entries[i].key == key);
            } else {
                assert(entries[entries.len() - 1].key == key);
            }
        }
    }
}

proof fn checked_entries_are_read(entries: Seq<CacheEntryModel>, limits: CacheLimits)
    requires
        entries_fault(entries, limits) is None,
    ensures
        read_entries(entries, limits) is Ok,
        keys_of(read_entries(entries, limits)->Ok_0) == entry_keys(entries),
        ascending::<CacheKey>(entry_keys(entries)),
        forall|j: int|
            0 <= j < entries.len() ==> lookup(
                read_entries(entries, limits)->Ok_0,
                (#[trigger] entries[j]).key,
            ) == Some(entries[j].payload),
    decreases entries.len(),
{
    if entries.len() == 0 {
        assert(keys_of(Seq::<(CacheKeyModel, Seq<u8>)>::empty()) =~= Seq::empty());
    } else {
        let rest = entries.drop_last();
        let last = entries.last();
        checked_entries_are_read(rest, limits);
        let before = read_entries(rest, limits)->Ok_0;
        let keys = entry_keys(rest);
        with_item_ascending::<CacheKey>(keys, last.key);
        with_item_contains::<CacheKey>(keys, last.key);
        if keys.contains(last.key) {
            ascending_is_unique::<CacheKey>(with_item::<CacheKey>(keys, last.key), keys);
        }
        lookup_finds(before, last.key);
        with_entry_keys::<CacheKey, Seq<u8>>(before, last.key, last.payload);
        lookup_after_with_entry::<CacheKey, Seq<u8>>(before, last.key, last.payload);
        assert forall|j: int| 0 <= j < entries.len() implies lookup(
            read_entries(entries, limits)->Ok_0,
            (#[trigger] entries[j]).key,
        ) == Some(entries[j].payload) by {
            if j < rest.len() {
                assert(rest[j] == entries[j]);
                lookup_finds(before, rest[j].key);
                lookup_other_after_with_entry::<CacheKey, Seq<u8>>(
                    before,
                    last.key,
                    last.payload,
                    rest[j].key,
                );
            }
        }
    }
}

/// What is written is read back: where entries may be written as a generation, that generation,
/// opened undamaged by the same schema and limits, holds exactly what they hold.
pub proof fn written_entries_are_read_back(
    schema: CacheSchemaModel,
    generation: Seq<char>,
    entries: Seq<CacheEntryModel>,
    checksum: Digest,
    limits: CacheLimits,
)
    requires
        generation_fault(entries, limits) is None,
    ensures
        generation_entries(
            CacheBodyModel { schema, generation, entries },
            generation,
            checksum,
            checksum,
            schema,
            limits,
        ) matches Ok(read) && holds_exactly(read, entries),
{
    checked_entries_are_read(entries, limits);
    entry_keys_are_those_given(entries, limits);
    let read = read_entries(entries, limits)->Ok_0;
    assert(keys_of(read).len() == read.len());
    assert forall|key: CacheKeyModel| #[trigger] lookup(read, key) is Some implies exists|i: int|
        0 <= i < entries.len() && (#[trigger] entries[i]).key == key by {
        lookup_finds(read, key);
        assert(entry_keys(entries).contains(key));
    }
}

/// A damaged generation is not used: where the digest of what was read is not the one that
/// was written, the generation is refused.
pub proof fn damaged_generations_are_refused(
    body: CacheBodyModel,
    generation: Seq<char>,
    checksum: Digest,
    expected: Digest,
    schema: CacheSchemaModel,
    limits: CacheLimits,
)
    requires
        checksum != expected,
    ensures
        generation_entries(body, generation, checksum, expected, schema, limits) is Err,
{
}

/// What came of writing a generation.
#[derive(Debug, PartialEq, Eq)]
pub struct CacheCommit {
    pub generation: String,
    pub entries: usize,
    pub serialized_bytes: usize,
    pub maintenance_warnings: Vec<String>,
}

/// What a [`CacheCommit`] holds.
pub struct CacheCommitModel {
    pub generation: Seq<char>,
    pub entries: usize,
    pub serialized_bytes: usize,
    pub maintenance_warnings: Seq<Seq<char>>,
}

impl DeepView for CacheCommit {
    type V = CacheCommitModel;

    open spec fn deep_view(&self) -> CacheCommitModel {
        CacheCommitModel {
            generation: self.generation.deep_view(),
            entries: self.entries.deep_view(),
            serialized_bytes: self.serialized_bytes.deep_view(),
            maintenance_warnings: self.maintenance_warnings.deep_view(),
        }
    }
}

impl Value for CacheCommit {
    fn replicate(&self) -> (r: Self) {
        CacheCommit {
            generation: self.generation.replicate(),
            entries: self.entries.replicate(),
            serialized_bytes: self.serialized_bytes.replicate(),
            maintenance_warnings: self.maintenance_warnings.replicate(),
        }
    }

    fn same_value(&self, other: &Self) -> (r: bool) {
        self.generation.same_value(&other.generation)
            && self.entries.same_value(&other.entries)
            && self.serialized_bytes.same_value(&other.serialized_bytes)
            && self.maintenance_warnings.same_value(&other.maintenance_warnings)
    }
}

/// The markers that go: those behind as many of the newest as are kept.
pub open spec fn expired(markers: Seq<Seq<char>>, kept: usize) -> Seq<Seq<char>> {
    if markers.len() <= kept {
        Seq::empty()
    } else {
        markers.skip(kept as int)
    }
}

/// The markers that go, of those there are, the newest first.
#[must_use]
pub fn expired_markers(markers: &Vec<String>, limits: CacheLimits) -> (r: Vec<String>)
    ensures
        r.deep_view() == expired(markers.deep_view(), limits.retained_generations),
{
    let ghost model = markers.deep_view();
    let mut out: Vec<String> = Vec::new();
    let mut i: usize = limits.retained_generations;
    assert(out.deep_view() =~= Seq::empty());
    if i >= markers.len() {
        return out;
    }
    while i < markers.len()
        invariant
            limits.retained_generations <= i <= markers.len(),
            model == markers.deep_view(),
            out.deep_view() == model.subrange(limits.retained_generations as int, i as int),
        decreases markers.len() - i,
    {
        push_item(&mut out, markers[i].replicate());
        i = i + 1;
        assert(model.subrange(limits.retained_generations as int, i as int) =~= model.subrange(
            limits.retained_generations as int,
            i - 1,
        ).push(model[i - 1]));
    }
    assert(model.subrange(limits.retained_generations as int, i as int) =~= model.skip(
        limits.retained_generations as int,
    ));
    out
}

} // verus!
