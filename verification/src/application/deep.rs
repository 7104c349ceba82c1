//! Evidence on members from the types, and what it shows.

use crate::analysis::members::{AnalysisMode, DeepFacts, DeepResolution, DeepResolutionModel};
use crate::application::plugin_edges::is_open;
use crate::cache::digest::{hex, sha256, Digest};
use crate::cache::key::{
    is_canonical, CacheKey, CacheKeyModel, CanonicalFileIdentity, CanonicalFileIdentityModel,
    ConfigDigest, ContentDigest, ContextDigest, ProfileDigest,
};
use crate::collections::{
    ascending, collected, collected_is_ordered, keys_of, lookup, lookup_after_with_entry,
    lookup_other_after_with_entry, with_entry, with_item, OrderedMap, OrderedSet,
};
use crate::discovery::workspace::{
    context_for_path, context_place, Json, PackageContext, PackageContextModel,
    ProjectConfiguration, ProjectConfigurationKind, ProjectConfigurationModel,
    WorkspaceDiscovery, WorkspaceDiscoveryModel,
};
use crate::domain::facts::{AnalysisDiagnostic, AnalysisDiagnosticModel, DiagnosticSeverity};
use crate::domain::report::{FileReport, FileReportModel, FileStatus, ScanReport};
use crate::domain::target::WorldMode;
use crate::paths::{
    extension_of, parsed, path_below, slashed, written, FilePath, PathPart, PathPartModel,
};
use crate::text::{byte_len, byte_length, concat2, join, joined, same};
use crate::values::{append_items, push_item, Ordered, Value};
use vstd::prelude::*;
use vstd::utf8::encode_utf8;

verus! {

/// A place in a file.
#[derive(Debug, PartialEq, Eq)]
pub struct DeepSourceSpan {
    pub path: String,
    pub start: u32,
    pub end: u32,
}

/// What a [`DeepSourceSpan`] holds.
pub struct DeepSourceSpanModel {
    pub path: Seq<char>,
    pub start: u32,
    pub end: u32,
}

impl DeepView for DeepSourceSpan {
    type V = DeepSourceSpanModel;

    open spec fn deep_view(&self) -> DeepSourceSpanModel {
        DeepSourceSpanModel {
            path: self.path.deep_view(),
            start: self.start.deep_view(),
            end: self.end.deep_view(),
        }
    }
}

impl Value for DeepSourceSpan {
    fn replicate(&self) -> (r: Self) {
        DeepSourceSpan {
            path: self.path.replicate(),
            start: self.start.replicate(),
            end: self.end.replicate(),
        }
    }

    fn same_value(&self, other: &Self) -> (r: bool) {
        self.path.same_value(&other.path)
            && self.start.same_value(&other.start)
            && self.end.same_value(&other.end)
    }
}

impl Ordered for DeepSourceSpan {
    open spec fn before(a: DeepSourceSpanModel, b: DeepSourceSpanModel) -> bool {
        <String as Ordered>::before(a.path, b.path) || (a.path == b.path && (<u32 as Ordered>::before(a.start, b.start) || (a.start == b.start && (<u32 as Ordered>::before(a.end, b.end)))))
    }

    fn is_before(&self, other: &Self) -> (r: bool) {
        assert(Self::before(self.deep_view(), other.deep_view()) == (<String as Ordered>::before(self.deep_view().path, other.deep_view().path) || (self.deep_view().path == other.deep_view().path && (<u32 as Ordered>::before(self.deep_view().start, other.deep_view().start) || (self.deep_view().start == other.deep_view().start && (<u32 as Ordered>::before(self.deep_view().end, other.deep_view().end)))))));
        if self.path.is_before(&other.path) {
            return true;
        }
        if !self.path.same_value(&other.path) {
            return false;
        }
        if self.start.is_before(&other.start) {
            return true;
        }
        if !self.start.same_value(&other.start) {
            return false;
        }
        self.end.is_before(&other.end)
    }

    proof fn before_irreflexive(a: DeepSourceSpanModel) {
        <String as Ordered>::before_irreflexive(a.path);
        <u32 as Ordered>::before_irreflexive(a.start);
        <u32 as Ordered>::before_irreflexive(a.end);
    }

    proof fn before_transitive(
        a: DeepSourceSpanModel,
        b: DeepSourceSpanModel,
        c: DeepSourceSpanModel,
    ) {
        if <String as Ordered>::before(a.path, b.path) && <String as Ordered>::before(b.path, c.path) {
            <String as Ordered>::before_transitive(a.path, b.path, c.path);
        }
        if <u32 as Ordered>::before(a.start, b.start) && <u32 as Ordered>::before(b.start, c.start) {
            <u32 as Ordered>::before_transitive(a.start, b.start, c.start);
        }
        if <u32 as Ordered>::before(a.end, b.end) && <u32 as Ordered>::before(b.end, c.end) {
            <u32 as Ordered>::before_transitive(a.end, b.end, c.end);
        }
    }

    proof fn before_total(a: DeepSourceSpanModel, b: DeepSourceSpanModel) {
        <String as Ordered>::before_total(a.path, b.path);
        <u32 as Ordered>::before_total(a.start, b.start);
        <u32 as Ordered>::before_total(a.end, b.end);
    }
}

/// A symbol, and where it is declared.
#[derive(Debug, PartialEq, Eq)]
pub struct DeepSymbolIdentity {
    pub id: String,
    pub name: String,
    pub declarations: Vec<DeepSourceSpan>,
}

/// What a [`DeepSymbolIdentity`] holds.
pub struct DeepSymbolIdentityModel {
    pub id: Seq<char>,
    pub name: Seq<char>,
    pub declarations: Seq<DeepSourceSpanModel>,
}

impl DeepView for DeepSymbolIdentity {
    type V = DeepSymbolIdentityModel;

    open spec fn deep_view(&self) -> DeepSymbolIdentityModel {
        DeepSymbolIdentityModel {
            id: self.id.deep_view(),
            name: self.name.deep_view(),
            declarations: self.declarations.deep_view(),
        }
    }
}

impl Value for DeepSymbolIdentity {
    fn replicate(&self) -> (r: Self) {
        DeepSymbolIdentity {
            id: self.id.replicate(),
            name: self.name.replicate(),
            declarations: self.declarations.replicate(),
        }
    }

    fn same_value(&self, other: &Self) -> (r: bool) {
        self.id.same_value(&other.id)
            && self.name.same_value(&other.name)
            && self.declarations.same_value(&other.declarations)
    }
}

impl Ordered for DeepSymbolIdentity {
    open spec fn before(a: DeepSymbolIdentityModel, b: DeepSymbolIdentityModel) -> bool {
        <String as Ordered>::before(a.id, b.id) || (a.id == b.id && (<String as Ordered>::before(a.name, b.name) || (a.name == b.name && (<Vec<DeepSourceSpan> as Ordered>::before(a.declarations, b.declarations)))))
    }

    fn is_before(&self, other: &Self) -> (r: bool) {
        assert(Self::before(self.deep_view(), other.deep_view()) == (<String as Ordered>::before(self.deep_view().id, other.deep_view().id) || (self.deep_view().id == other.deep_view().id && (<String as Ordered>::before(self.deep_view().name, other.deep_view().name) || (self.deep_view().name == other.deep_view().name && (<Vec<DeepSourceSpan> as Ordered>::before(self.deep_view().declarations, other.deep_view().declarations)))))));
        if self.id.is_before(&other.id) {
            return true;
        }
        if !self.id.same_value(&other.id) {
            return false;
        }
        if self.name.is_before(&other.name) {
            return true;
        }
        if !self.name.same_value(&other.name) {
            return false;
        }
        self.declarations.is_before(&other.declarations)
    }

    proof fn before_irreflexive(a: DeepSymbolIdentityModel) {
        <String as Ordered>::before_irreflexive(a.id);
        <String as Ordered>::before_irreflexive(a.name);
        <Vec<DeepSourceSpan> as Ordered>::before_irreflexive(a.declarations);
    }

    proof fn before_transitive(
        a: DeepSymbolIdentityModel,
        b: DeepSymbolIdentityModel,
        c: DeepSymbolIdentityModel,
    ) {
        if <String as Ordered>::before(a.id, b.id) && <String as Ordered>::before(b.id, c.id) {
            <String as Ordered>::before_transitive(a.id, b.id, c.id);
        }
        if <String as Ordered>::before(a.name, b.name) && <String as Ordered>::before(b.name, c.name) {
            <String as Ordered>::before_transitive(a.name, b.name, c.name);
        }
        if <Vec<DeepSourceSpan> as Ordered>::before(a.declarations, b.declarations) && <Vec<DeepSourceSpan> as Ordered>::before(b.declarations, c.declarations) {
            <Vec<DeepSourceSpan> as Ordered>::before_transitive(
                a.declarations,
                b.declarations,
                c.declarations,
            );
        }
    }

    proof fn before_total(a: DeepSymbolIdentityModel, b: DeepSymbolIdentityModel) {
        <String as Ordered>::before_total(a.id, b.id);
        <String as Ordered>::before_total(a.name, b.name);
        <Vec<DeepSourceSpan> as Ordered>::before_total(a.declarations, b.declarations);
    }
}

/// A member that another one overrides.
#[derive(Debug, PartialEq, Eq)]
pub struct DeepOverrideRelationship {
    pub symbol: DeepSymbolIdentity,
    pub owner: Option<DeepSymbolIdentity>,
    pub owner_exported: bool,
    pub references: Vec<DeepSourceSpan>,
}

/// What a [`DeepOverrideRelationship`] holds.
pub struct DeepOverrideRelationshipModel {
    pub symbol: DeepSymbolIdentityModel,
    pub owner: Option<DeepSymbolIdentityModel>,
    pub owner_exported: bool,
    pub references: Seq<DeepSourceSpanModel>,
}

impl DeepView for DeepOverrideRelationship {
    type V = DeepOverrideRelationshipModel;

    open spec fn deep_view(&self) -> DeepOverrideRelationshipModel {
        DeepOverrideRelationshipModel {
            symbol: self.symbol.deep_view(),
            owner: self.owner.deep_view(),
            owner_exported: self.owner_exported.deep_view(),
            references: self.references.deep_view(),
        }
    }
}

impl Value for DeepOverrideRelationship {
    fn replicate(&self) -> (r: Self) {
        DeepOverrideRelationship {
            symbol: self.symbol.replicate(),
            owner: self.owner.replicate(),
            owner_exported: self.owner_exported.replicate(),
            references: self.references.replicate(),
        }
    }

    fn same_value(&self, other: &Self) -> (r: bool) {
        self.symbol.same_value(&other.symbol)
            && self.owner.same_value(&other.owner)
            && self.owner_exported.same_value(&other.owner_exported)
            && self.references.same_value(&other.references)
    }
}

impl Ordered for DeepOverrideRelationship {
    open spec fn before(
        a: DeepOverrideRelationshipModel,
        b: DeepOverrideRelationshipModel,
    ) -> bool {
        <DeepSymbolIdentity as Ordered>::before(a.symbol, b.symbol) || (a.symbol == b.symbol && (<Option<DeepSymbolIdentity> as Ordered>::before(a.owner, b.owner) || (a.owner == b.owner && (<bool as Ordered>::before(a.owner_exported, b.owner_exported) || (a.owner_exported == b.owner_exported && (<Vec<DeepSourceSpan> as Ordered>::before(a.references, b.references)))))))
    }

    fn is_before(&self, other: &Self) -> (r: bool) {
        assert(Self::before(self.deep_view(), other.deep_view()) == (<DeepSymbolIdentity as Ordered>::before(self.deep_view().symbol, other.deep_view().symbol) || (self.deep_view().symbol == other.deep_view().symbol && (<Option<DeepSymbolIdentity> as Ordered>::before(self.deep_view().owner, other.deep_view().owner) || (self.deep_view().owner == other.deep_view().owner && (<bool as Ordered>::before(self.deep_view().owner_exported, other.deep_view().owner_exported) || (self.deep_view().owner_exported == other.deep_view().owner_exported && (<Vec<DeepSourceSpan> as Ordered>::before(self.deep_view().references, other.deep_view().references)))))))));
        if self.symbol.is_before(&other.symbol) {
            return true;
        }
        if !self.symbol.same_value(&other.symbol) {
            return false;
        }
        if self.owner.is_before(&other.owner) {
            return true;
        }
        if !self.owner.same_value(&other.owner) {
            return false;
        }
        if self.owner_exported.is_before(&other.owner_exported) {
            return true;
        }
        if !self.owner_exported.same_value(&other.owner_exported) {
            return false;
        }
        self.references.is_before(&other.references)
    }

    proof fn before_irreflexive(a: DeepOverrideRelationshipModel) {
        <DeepSymbolIdentity as Ordered>::before_irreflexive(a.symbol);
        <Option<DeepSymbolIdentity> as Ordered>::before_irreflexive(a.owner);
        <bool as Ordered>::before_irreflexive(a.owner_exported);
        <Vec<DeepSourceSpan> as Ordered>::before_irreflexive(a.references);
    }

    proof fn before_transitive(
        a: DeepOverrideRelationshipModel,
        b: DeepOverrideRelationshipModel,
        c: DeepOverrideRelationshipModel,
    ) {
        if <DeepSymbolIdentity as Ordered>::before(a.symbol, b.symbol) && <DeepSymbolIdentity as Ordered>::before(b.symbol, c.symbol) {
            <DeepSymbolIdentity as Ordered>::before_transitive(a.symbol, b.symbol, c.symbol);
        }
        if <Option<DeepSymbolIdentity> as Ordered>::before(a.owner, b.owner) && <Option<DeepSymbolIdentity> as Ordered>::before(b.owner, c.owner) {
            <Option<DeepSymbolIdentity> as Ordered>::before_transitive(a.owner, b.owner, c.owner);
        }
        if <bool as Ordered>::before(a.owner_exported, b.owner_exported) && <bool as Ordered>::before(b.owner_exported, c.owner_exported) {
            <bool as Ordered>::before_transitive(
                a.owner_exported,
                b.owner_exported,
                c.owner_exported,
            );
        }
        if <Vec<DeepSourceSpan> as Ordered>::before(a.references, b.references) && <Vec<DeepSourceSpan> as Ordered>::before(b.references, c.references) {
            <Vec<DeepSourceSpan> as Ordered>::before_transitive(
                a.references,
                b.references,
                c.references,
            );
        }
    }

    proof fn before_total(a: DeepOverrideRelationshipModel, b: DeepOverrideRelationshipModel) {
        <DeepSymbolIdentity as Ordered>::before_total(a.symbol, b.symbol);
        <Option<DeepSymbolIdentity> as Ordered>::before_total(a.owner, b.owner);
        <bool as Ordered>::before_total(a.owner_exported, b.owner_exported);
        <Vec<DeepSourceSpan> as Ordered>::before_total(a.references, b.references);
    }
}

/// Where a member is referred to, and what it overrides.
#[derive(Debug, PartialEq, Eq)]
pub struct DeepRawFacts {
    pub references: Vec<DeepSourceSpan>,
    pub overrides: Vec<DeepOverrideRelationship>,
}

/// What a [`DeepRawFacts`] holds.
pub struct DeepRawFactsModel {
    pub references: Seq<DeepSourceSpanModel>,
    pub overrides: Seq<DeepOverrideRelationshipModel>,
}

impl DeepView for DeepRawFacts {
    type V = DeepRawFactsModel;

    open spec fn deep_view(&self) -> DeepRawFactsModel {
        DeepRawFactsModel {
            references: self.references.deep_view(),
            overrides: self.overrides.deep_view(),
        }
    }
}

impl Value for DeepRawFacts {
    fn replicate(&self) -> (r: Self) {
        DeepRawFacts {
            references: self.references.replicate(),
            overrides: self.overrides.replicate(),
        }
    }

    fn same_value(&self, other: &Self) -> (r: bool) {
        self.references.same_value(&other.references)
            && self.overrides.same_value(&other.overrides)
    }
}

/// What the types say of a member.
#[derive(Debug, PartialEq, Eq)]
pub enum DeepRawResolution {
    /// They say nothing; why.
    Unavailable(String),
    Resolved(DeepRawFacts),
}

/// What a [`DeepRawResolution`] holds.
pub enum DeepRawResolutionModel {
    Unavailable(Seq<char>),
    Resolved(DeepRawFactsModel),
}

impl DeepView for DeepRawResolution {
    type V = DeepRawResolutionModel;

    open spec fn deep_view(&self) -> DeepRawResolutionModel {
        match self {
            DeepRawResolution::Unavailable(x) => DeepRawResolutionModel::Unavailable(x.deep_view()),
            DeepRawResolution::Resolved(x) => DeepRawResolutionModel::Resolved(x.deep_view()),
        }
    }
}

impl Value for DeepRawResolution {
    fn replicate(&self) -> (r: Self) {
        match self {
            DeepRawResolution::Unavailable(x) => DeepRawResolution::Unavailable(x.replicate()),
            DeepRawResolution::Resolved(x) => DeepRawResolution::Resolved(x.replicate()),
        }
    }

    fn same_value(&self, other: &Self) -> (r: bool) {
        match (self, other) {
            (DeepRawResolution::Unavailable(x), DeepRawResolution::Unavailable(y)) => x.same_value(y),
            (DeepRawResolution::Resolved(x), DeepRawResolution::Resolved(y)) => x.same_value(y),
            _ => false,
        }
    }
}

/// Whether a place can be trusted: it is inside the project, and does not end before it
/// starts.
pub open spec fn is_safe_span(span: DeepSourceSpanModel) -> bool {
    let parts = parsed(span.path);
    &&& span.path.len() > 0
    &&& byte_length(span.path) <= 16384
    &&& forall|i: int|
        0 <= i < parts.len() ==> !(#[trigger] parts[i] is Parent) && !(parts[i] is Root)
    &&& span.start <= span.end
}

fn leaves_project(path: &str) -> (r: bool)
    ensures
        r == !(forall|i: int|
            0 <= i < parsed(path@).len() ==> !(#[trigger] parsed(path@)[i] is Parent) && !(parsed(
                path@,
            )[i] is Root)),
{
    let parts: Vec<PathPart> = FilePath::parse(path).parts;
    let ghost model = parsed(path@);
    let mut i: usize = 0;
    while i < parts.len()
        invariant
            i <= parts.len(),
            model == parts.deep_view(),
            model == parsed(path@),
            forall|k: int| 0 <= k < i ==> !(#[trigger] model[k] is Parent) && !(model[k] is Root),
        decreases parts.len() - i,
    {
        assert(model[i as int] == parts@[i as int].deep_view());
        match &parts[i] {
            PathPart::Parent => {
                assert(model[i as int] is Parent);
                return true;
            },
            PathPart::Root => {
                assert(model[i as int] is Root);
                return true;
            },
            _ => {},
        }
        i = i + 1;
    }
    false
}

fn is_safe(span: &DeepSourceSpan) -> (r: bool)
    ensures
        r == is_safe_span(span.deep_view()),
{
    let empty: bool = span.path.as_str().unicode_len() == 0;
    !empty && byte_len(&span.path) <= 16384 && !leaves_project(&span.path) && span.start
        <= span.end
}

/// Whether all of some places can be trusted.
pub open spec fn are_safe_spans(spans: Seq<DeepSourceSpanModel>) -> bool {
    forall|i: int| 0 <= i < spans.len() ==> is_safe_span(#[trigger] spans[i])
}

/// Whether all of some places can be trusted.
#[must_use]
pub fn validate_deep_spans(spans: &Vec<DeepSourceSpan>) -> (r: bool)
    ensures
        r == are_safe_spans(spans.deep_view()),
{
    let ghost model = spans.deep_view();
    let mut i: usize = 0;
    while i < spans.len()
        invariant
            i <= spans.len(),
            model == spans.deep_view(),
            forall|k: int| 0 <= k < i ==> is_safe_span(#[trigger] model[k]),
        decreases spans.len() - i,
    {
        assert(model[i as int] == spans@[i as int].deep_view());
        if !is_safe(&spans[i]) {
            return false;
        }
        i = i + 1;
    }
    true
}

/// Places with those in files of the project.
pub open spec fn known_spans(
    items: Seq<DeepSourceSpanModel>,
    start: Seq<DeepSourceSpanModel>,
    allowed: Seq<Seq<char>>,
) -> Seq<DeepSourceSpanModel>
    decreases items.len(),
{
    if items.len() == 0 {
        start
    } else {
        let rest = known_spans(items.drop_last(), start, allowed);
        let last = items.last();
        if allowed.contains(last.path) {
            rest.push(last)
        } else {
            rest
        }
    }
}

fn choose_known_spans(
    items: &Vec<DeepSourceSpan>,
    allowed: &OrderedSet<String>,
    out: &mut Vec<DeepSourceSpan>,
)
    ensures
        final(out).deep_view() == known_spans(items.deep_view(), old(out).deep_view(), allowed.deep_view()),
{
    let ghost start = out.deep_view();
    let ghost allowed_model = allowed.deep_view();
    let ghost model = items.deep_view();
    let mut i: usize = 0;
    while i < items.len()
        invariant
            i <= items.len(),
            model == items.deep_view(),
            allowed_model == allowed.deep_view(),
            out.deep_view() =~= known_spans(model.take(i as int), start, allowed_model),
        decreases items.len() - i,
    {
        proof {
            assert(model.take(i + 1).drop_last() =~= model.take(i as int));
            assert(model.take(i + 1).last() == items@[i as int].deep_view());
        }
        let item: &DeepSourceSpan = &items[i];
        if allowed.contains(&item.path) {
            push_item(out, item.replicate());
        }
        i = i + 1;
    }
    assert(model.take(i as int) =~= model);
}

/// Places in files of the project, each once and in order, or nothing where one cannot be
/// trusted.
pub open spec fn canonical_spans(
    spans: Seq<DeepSourceSpanModel>,
    allowed: Seq<Seq<char>>,
) -> Option<Seq<DeepSourceSpanModel>> {
    let known = known_spans(spans, Seq::empty(), allowed);
    if are_safe_spans(known) {
        Some(collected::<DeepSourceSpan>(known))
    } else {
        None
    }
}

fn canonicalize_spans(spans: &Vec<DeepSourceSpan>, allowed: &OrderedSet<String>) -> (r: Option<
    Vec<DeepSourceSpan>,
>)
    ensures
        r.deep_view() == canonical_spans(spans.deep_view(), allowed.deep_view()),
{
    let mut known: Vec<DeepSourceSpan> = Vec::new();
    assert(known.deep_view() =~= Seq::empty());
    choose_known_spans(spans, allowed, &mut known);
    if !validate_deep_spans(&known) {
        return None;
    }
    let unique: OrderedSet<DeepSourceSpan> = OrderedSet::from_items(known);
    Some(unique.into_items())
}

/// An override with places in files of the project, or nothing where one cannot be trusted.
pub open spec fn canonical_override(
    relationship: DeepOverrideRelationshipModel,
    allowed: Seq<Seq<char>>,
) -> Option<DeepOverrideRelationshipModel> {
    match canonical_spans(relationship.references, allowed) {
        Some(references) => if are_safe_spans(relationship.symbol.declarations) && (
        match relationship.owner {
            Some(owner) => are_safe_spans(owner.declarations),
            None => true,
        }) {
            Some(DeepOverrideRelationshipModel { references, ..relationship })
        } else {
            None
        },
        None => None,
    }
}

fn canonicalize_override(
    relationship: &DeepOverrideRelationship,
    allowed: &OrderedSet<String>,
) -> (r: Option<DeepOverrideRelationship>)
    ensures
        r.deep_view() == canonical_override(relationship.deep_view(), allowed.deep_view()),
{
    let references: Vec<DeepSourceSpan> = match canonicalize_spans(
        &relationship.references,
        allowed,
    ) {
        Some(references) => references,
        None => {
            return None;
        },
    };
    if !validate_deep_spans(&relationship.symbol.declarations) {
        return None;
    }
    let owned: bool = match &relationship.owner {
        Some(owner) => validate_deep_spans(&owner.declarations),
        None => true,
    };
    if !owned {
        return None;
    }
    let mut canonical: DeepOverrideRelationship = relationship.replicate();
    canonical.references = references;
    Some(canonical)
}

/// Overrides with places in files of the project, or nothing where one cannot be trusted.
pub open spec fn canonical_overrides(
    items: Seq<DeepOverrideRelationshipModel>,
    allowed: Seq<Seq<char>>,
) -> Option<Seq<DeepOverrideRelationshipModel>>
    decreases items.len(),
{
    if items.len() == 0 {
        Some(Seq::empty())
    } else {
        let rest = canonical_overrides(items.drop_last(), allowed);
        let last = items.last();
        match rest {
            Some(before) => match canonical_override(last, allowed) {
                Some(relationship) => Some(before.push(relationship)),
                None => None,
            },
            None => None,
        }
    }
}

proof fn canonical_overrides_fail_early(
    items: Seq<DeepOverrideRelationshipModel>,
    allowed: Seq<Seq<char>>,
    n: int,
)
    requires
        0 <= n <= items.len(),
        canonical_overrides(items.take(n), allowed) is None,
    ensures
        canonical_overrides(items, allowed) is None,
    decreases items.len() - n,
{
    if n < items.len() {
        assert(items.take(n + 1).drop_last() =~= items.take(n));
        canonical_overrides_fail_early(items, allowed, n + 1);
    } else {
        assert(items.take(n) =~= items);
    }
}

/// Facts on a member with places in files of the project, each once and in order, or nothing
/// where one cannot be trusted.
pub open spec fn canonical_facts(
    facts: DeepRawFactsModel,
    allowed: Seq<Seq<char>>,
) -> Option<DeepRawFactsModel> {
    match canonical_spans(facts.references, allowed) {
        Some(references) => match canonical_overrides(facts.overrides, allowed) {
            Some(overrides) => Some(
                DeepRawFactsModel {
                    references,
                    overrides: collected::<DeepOverrideRelationship>(overrides),
                },
            ),
            None => None,
        },
        None => None,
    }
}

/// Facts on a member with places in files of the project, each once and in order, or nothing
/// where one cannot be trusted.
#[must_use]
pub fn canonicalize_deep_facts(
    facts: &DeepRawFacts,
    allowed_source_paths: &OrderedSet<String>,
) -> (r:
    Option<DeepRawFacts>)
    ensures
        r.deep_view() == canonical_facts(facts.deep_view(), allowed_source_paths.deep_view()),
{
    let references: Vec<DeepSourceSpan> = match canonicalize_spans(
        &facts.references,
        allowed_source_paths,
    ) {
        Some(references) => references,
        None => {
            return None;
        },
    };
    let given: &Vec<DeepOverrideRelationship> = &facts.overrides;
    let ghost allowed = allowed_source_paths.deep_view();
    let mut overrides: Vec<DeepOverrideRelationship> = Vec::new();
    assert(overrides.deep_view() =~= Seq::empty());
    let ghost model = given.deep_view();
    let mut i: usize = 0;
    while i < given.len()
        invariant
            i <= given.len(),
            model == given.deep_view(),
            allowed == allowed_source_paths.deep_view(),
            model == facts.deep_view().overrides,
            canonical_spans(facts.deep_view().references, allowed) is Some,
            canonical_overrides(model.take(i as int), allowed) == Some(overrides.deep_view()),
        decreases given.len() - i,
    {
        proof {
            assert(model.take(i + 1).drop_last() =~= model.take(i as int));
            assert(model.take(i + 1).last() == given@[i as int].deep_view());
        }
        match canonicalize_override(&given[i], allowed_source_paths) {
            Some(relationship) => {
                push_item(&mut overrides, relationship);
            },
            None => {
                proof {
                    canonical_overrides_fail_early(model, allowed, i + 1);
                }
                return None;
            },
        }
        i = i + 1;
    }
    assert(model.take(i as int) =~= model);
    let unique: OrderedSet<DeepOverrideRelationship> = OrderedSet::from_items(overrides);
    Some(DeepRawFacts { references, overrides: unique.into_items() })
}

/// Whether anything outside the project can use what a file declares.
pub open spec fn has_open_contract(
    path: Seq<PathPartModel>,
    project: WorkspaceDiscoveryModel,
    contexts: Seq<PackageContextModel>,
) -> bool {
    match context_place(project.packages, contexts, path) {
        Some(place) => is_open(contexts[place as int]),
        None => false,
    }
}

/// Whether anything outside the project can use what a file declares.
#[must_use]
pub fn path_has_open_world_contract(
    path: &FilePath,
    workspace: &WorkspaceDiscovery,
    contexts: &Vec<PackageContext>,
) -> (r: bool)
    ensures
        r == has_open_contract(path.deep_view(), workspace.deep_view(), contexts.deep_view()),
{
    match context_for_path(workspace, contexts, path) {
        Some(place) => {
            assert(contexts.deep_view()[place as int] == contexts@[place as int].deep_view());
            match contexts[place].effective.world {
                Some(world) => world == WorldMode::Open,
                None => false,
            }
        },
        None => false,
    }
}

/// Whether one of some places is in a file that is used.
pub open spec fn refers_from_use(
    items: Seq<DeepSourceSpanModel>,
    reachable: Seq<Seq<char>>,
) -> bool {
    exists|i: int| 0 <= i < items.len() && refers_from_use_at(#[trigger] items[i], reachable)
}

/// Whether this holds of one.
pub open spec fn refers_from_use_at(item: DeepSourceSpanModel, reachable: Seq<Seq<char>>) -> bool {
    reachable.contains(item.path)
}

fn any_refers_from_use(items: &Vec<DeepSourceSpan>, reachable: &OrderedSet<String>) -> (r: bool)
    ensures
        r == refers_from_use(items.deep_view(), reachable.deep_view()),
{
    let ghost reachable_model = reachable.deep_view();
    let ghost model = items.deep_view();
    let mut i: usize = 0;
    while i < items.len()
        invariant
            i <= items.len(),
            model == items.deep_view(),
            reachable_model == reachable.deep_view(),
            forall|k: int| 0 <= k < i ==> !refers_from_use_at(#[trigger] model[k], reachable_model),
        decreases items.len() - i,
    {
        assert(model[i as int] == items@[i as int].deep_view());
        let item: &DeepSourceSpan = &items[i];
        if reachable.contains(&item.path) {
            return true;
        }
        i = i + 1;
    }
    false
}

/// Whether one of some declarations can be used from outside the project.
pub open spec fn declared_openly(
    items: Seq<DeepSourceSpanModel>,
    project: WorkspaceDiscoveryModel,
    contexts: Seq<PackageContextModel>,
) -> bool {
    exists|i: int| 0 <= i < items.len() && declared_openly_at(#[trigger] items[i], project, contexts)
}

/// Whether this holds of one.
pub open spec fn declared_openly_at(
    item: DeepSourceSpanModel,
    project: WorkspaceDiscoveryModel,
    contexts: Seq<PackageContextModel>,
) -> bool {
    has_open_contract(parsed(item.path), project, contexts)
}

fn any_declared_openly(
    items: &Vec<DeepSourceSpan>,
    project: &WorkspaceDiscovery,
    contexts: &Vec<PackageContext>,
) -> (r: bool)
    ensures
        r == declared_openly(items.deep_view(), project.deep_view(), contexts.deep_view()),
{
    let ghost project_model = project.deep_view();
    let ghost contexts_model = contexts.deep_view();
    let ghost model = items.deep_view();
    let mut i: usize = 0;
    while i < items.len()
        invariant
            i <= items.len(),
            model == items.deep_view(),
            project_model == project.deep_view(),
            contexts_model == contexts.deep_view(),
            forall|k: int| 0 <= k < i ==> !declared_openly_at(#[trigger] model[k], project_model, contexts_model),
        decreases items.len() - i,
    {
        assert(model[i as int] == items@[i as int].deep_view());
        let item: &DeepSourceSpan = &items[i];
        if path_has_open_world_contract(&FilePath::parse(&item.path), project, contexts) {
            return true;
        }
        i = i + 1;
    }
    false
}

/// Whether a member overrides one that is used: one that is declared nowhere in the project,
/// that a file in use refers to, or whose exported owner can be used from outside.
pub open spec fn is_live_override(
    items: Seq<DeepOverrideRelationshipModel>,
    reachable: Seq<Seq<char>>,
    project: WorkspaceDiscoveryModel,
    contexts: Seq<PackageContextModel>,
) -> bool {
    exists|i: int| 0 <= i < items.len() && is_live_override_at(#[trigger] items[i], reachable, project, contexts)
}

/// Whether this holds of one.
pub open spec fn is_live_override_at(
    item: DeepOverrideRelationshipModel,
    reachable: Seq<Seq<char>>,
    project: WorkspaceDiscoveryModel,
    contexts: Seq<PackageContextModel>,
) -> bool {
    ||| item.symbol.declarations.len() == 0
    ||| refers_from_use(item.references, reachable)
    ||| item.owner_exported && (match item.owner {
        Some(owner) => declared_openly(owner.declarations, project, contexts),
        None => false,
    })
}

fn any_live_override(
    items: &Vec<DeepOverrideRelationship>,
    reachable: &OrderedSet<String>,
    project: &WorkspaceDiscovery,
    contexts: &Vec<PackageContext>,
) -> (r: bool)
    ensures
        r == is_live_override(
            items.deep_view(),
            reachable.deep_view(),
            project.deep_view(),
            contexts.deep_view(),
        ),
{
    let ghost reachable_model = reachable.deep_view();
    let ghost project_model = project.deep_view();
    let ghost contexts_model = contexts.deep_view();
    let ghost model = items.deep_view();
    let mut i: usize = 0;
    while i < items.len()
        invariant
            i <= items.len(),
            model == items.deep_view(),
            reachable_model == reachable.deep_view(),
            project_model == project.deep_view(),
            contexts_model == contexts.deep_view(),
            forall|k: int| 0 <= k < i ==> !is_live_override_at(#[trigger] model[k], reachable_model, project_model, contexts_model),
        decreases items.len() - i,
    {
        assert(model[i as int] == items@[i as int].deep_view());
        let item: &DeepOverrideRelationship = &items[i];
        if item.symbol.declarations.len() == 0 || any_refers_from_use(&item.references, reachable) || (
        item.owner_exported && (match &item.owner {
            Some(owner) => any_declared_openly(&owner.declarations, project, contexts),
            None => false,
        })) {
            return true;
        }
        i = i + 1;
    }
    false
}

/// What the types show of a member, given which files are used.
pub open spec fn resolved_deep(
    resolution: DeepRawResolutionModel,
    reachable: Seq<Seq<char>>,
    project: WorkspaceDiscoveryModel,
    contexts: Seq<PackageContextModel>,
) -> DeepResolutionModel {
    match resolution {
        DeepRawResolutionModel::Unavailable(note) => DeepResolutionModel::Unavailable(note),
        DeepRawResolutionModel::Resolved(facts) => DeepResolutionModel::Resolved(
            DeepFacts {
                receiver_may_reference_member: refers_from_use(facts.references, reachable),
                live_override_contract: is_live_override(
                    facts.overrides,
                    reachable,
                    project,
                    contexts,
                ),
            },
        ),
    }
}

/// What the types show of a member, given which files are used.
#[must_use]
pub fn resolve_deep_raw_resolution(
    resolution: &DeepRawResolution,
    reachable: &OrderedSet<String>,
    workspace: &WorkspaceDiscovery,
    contexts: &Vec<PackageContext>,
) -> (r: DeepResolution)
    ensures
        r.deep_view() == resolved_deep(
            resolution.deep_view(),
            reachable.deep_view(),
            workspace.deep_view(),
            contexts.deep_view(),
        ),
{
    match resolution {
        DeepRawResolution::Unavailable(note) => DeepResolution::Unavailable(note.replicate()),
        DeepRawResolution::Resolved(facts) => DeepResolution::Resolved(
            DeepFacts {
                receiver_may_reference_member: any_refers_from_use(&facts.references, reachable),
                live_override_contract: any_live_override(
                    &facts.overrides,
                    reachable,
                    workspace,
                    contexts,
                ),
            },
        ),
    }
}

/// The files that are used.
pub open spec fn reachable_paths(items: Seq<FileReportModel>) -> Seq<Seq<char>>
    decreases items.len(),
{
    if items.len() == 0 {
        Seq::empty()
    } else {
        let rest = reachable_paths(items.drop_last());
        let last = items.last();
        if last.status == FileStatus::Reachable { with_item::<String>(rest, last.path) } else { rest }
    }
}

/// The files of a report.
pub open spec fn report_paths(items: Seq<FileReportModel>) -> Seq<Seq<char>>
    decreases items.len(),
{
    if items.len() == 0 {
        Seq::empty()
    } else {
        let rest = report_paths(items.drop_last());
        let last = items.last();
        with_item::<String>(rest, last.path)
    }
}

/// What the types show of each member, given which files are used.
pub open spec fn resolved_evidence(
    items: Seq<((Seq<char>, u32), DeepRawResolutionModel)>,
    reachable: Seq<Seq<char>>,
    project: WorkspaceDiscoveryModel,
    contexts: Seq<PackageContextModel>,
) -> Seq<((Seq<char>, u32), DeepResolutionModel)>
    decreases items.len(),
{
    if items.len() == 0 {
        Seq::empty()
    } else {
        let rest = resolved_evidence(items.drop_last(), reachable, project, contexts);
        let last = items.last();
        with_entry::<(String, u32), DeepResolutionModel>(
            rest,
            last.0,
            resolved_deep(last.1, reachable, project, contexts),
        )
    }
}

fn list_reachable(files: &Vec<FileReport>) -> (r: OrderedSet<String>)
    ensures
        r.deep_view() == reachable_paths(files.deep_view()),
{
    let mut paths: OrderedSet<String> = OrderedSet::new();
    let ghost model = files.deep_view();
    let mut i: usize = 0;
    while i < files.len()
        invariant
            i <= files.len(),
            model == files.deep_view(),
            paths.deep_view() == reachable_paths(model.take(i as int)),
        decreases files.len() - i,
    {
        proof {
            assert(model.take(i + 1).drop_last() =~= model.take(i as int));
            assert(model.take(i + 1).last() == files@[i as int].deep_view());
        }
        if files[i].status == FileStatus::Reachable {
            paths.insert(files[i].path.replicate());
        }
        i = i + 1;
    }
    assert(model.take(i as int) =~= model);
    paths
}

fn list_paths(files: &Vec<FileReport>) -> (r: OrderedSet<String>)
    ensures
        r.deep_view() == report_paths(files.deep_view()),
{
    let mut paths: OrderedSet<String> = OrderedSet::new();
    let ghost model = files.deep_view();
    let mut i: usize = 0;
    while i < files.len()
        invariant
            i <= files.len(),
            model == files.deep_view(),
            paths.deep_view() == report_paths(model.take(i as int)),
        decreases files.len() - i,
    {
        proof {
            assert(model.take(i + 1).drop_last() =~= model.take(i as int));
            assert(model.take(i + 1).last() == files@[i as int].deep_view());
        }
        paths.insert(files[i].path.replicate());
        i = i + 1;
    }
    assert(model.take(i as int) =~= model);
    paths
}

/// What the types show of each member, given which files a report says are used.
#[must_use]
pub fn resolve_deep_member_evidence(
    raw_evidence: &OrderedMap<(String, u32), DeepRawResolution>,
    reachability_report: &ScanReport,
    workspace: &WorkspaceDiscovery,
    contexts: &Vec<PackageContext>,
) -> (r: OrderedMap<(String, u32), DeepResolution>)
    ensures
        r.deep_view() == resolved_evidence(
            raw_evidence.deep_view(),
            reachable_paths(reachability_report.deep_view().files),
            workspace.deep_view(),
            contexts.deep_view(),
        ),
{
    let reachable: OrderedSet<String> = list_reachable(&reachability_report.files);
    let entries: &Vec<((String, u32), DeepRawResolution)> = raw_evidence.entries();
    assert(entries.deep_view() =~= raw_evidence.deep_view());
    let ghost live = reachable.deep_view();
    let ghost project = workspace.deep_view();
    let ghost given = contexts.deep_view();
    let mut resolved: OrderedMap<(String, u32), DeepResolution> = OrderedMap::new();
    let ghost model = entries.deep_view();
    let mut i: usize = 0;
    while i < entries.len()
        invariant
            i <= entries.len(),
            model == entries.deep_view(),
            live == reachable.deep_view(),
            project == workspace.deep_view(),
            given == contexts.deep_view(),
            resolved.deep_view() == resolved_evidence(model.take(i as int), live, project, given),
        decreases entries.len() - i,
    {
        proof {
            assert(model.take(i + 1).drop_last() =~= model.take(i as int));
            assert(model.take(i + 1).last() == entries@[i as int].deep_view());
        }
        let resolution: DeepResolution = resolve_deep_raw_resolution(
            &entries[i].1,
            &reachable,
            workspace,
            contexts,
        );
        resolved.insert(entries[i].0.replicate(), resolution);
        i = i + 1;
    }
    assert(model.take(i as int) =~= model);
    resolved
}

/// Whether a diagnostic says that the types are needed to decide on a member.
pub open spec fn asks_for_types(
    diagnostic: AnalysisDiagnosticModel,
    files: Seq<Seq<char>>,
    modes: Seq<(Seq<char>, AnalysisMode)>,
) -> bool {
    &&& diagnostic.code == "member_analysis_deferred"@
    &&& files.contains(diagnostic.path)
    &&& lookup(modes, diagnostic.path) == Some(AnalysisMode::Deep)
}

/// The members for which the types are needed.
pub open spec fn deep_candidates(
    items: Seq<AnalysisDiagnosticModel>,
    files: Seq<Seq<char>>,
    modes: Seq<(Seq<char>, AnalysisMode)>,
) -> Seq<(Seq<char>, u32)>
    decreases items.len(),
{
    if items.len() == 0 {
        Seq::empty()
    } else {
        let rest = deep_candidates(items.drop_last(), files, modes);
        let last = items.last();
        match last.span {
            Some(span) => if asks_for_types(last, files, modes) {
                with_item::<(String, u32)>(rest, (last.path, span.start))
            } else {
                rest
            },
            None => rest,
        }
    }
}

/// The members for which the types are needed.
#[must_use]
pub fn deep_member_candidates(
    report: &ScanReport,
    member_modes: &OrderedMap<String, AnalysisMode>,
) -> (r: OrderedSet<(String, u32)>)
    ensures
        r.deep_view() == deep_candidates(
            report.deep_view().diagnostics,
            report_paths(report.deep_view().files),
            member_modes.deep_view(),
        ),
{
    let files: OrderedSet<String> = list_paths(&report.files);
    let diagnostics: &Vec<AnalysisDiagnostic> = &report.diagnostics;
    let ghost known = files.deep_view();
    let ghost modes = member_modes.deep_view();
    let mut candidates: OrderedSet<(String, u32)> = OrderedSet::new();
    let ghost model = diagnostics.deep_view();
    let mut i: usize = 0;
    while i < diagnostics.len()
        invariant
            i <= diagnostics.len(),
            model == diagnostics.deep_view(),
            known == files.deep_view(),
            modes == member_modes.deep_view(),
            candidates.deep_view() == deep_candidates(model.take(i as int), known, modes),
        decreases diagnostics.len() - i,
    {
        proof {
            assert(model.take(i + 1).drop_last() =~= model.take(i as int));
            assert(model.take(i + 1).last() == diagnostics@[i as int].deep_view());
        }
        let diagnostic: &AnalysisDiagnostic = &diagnostics[i];
        match diagnostic.span {
            Some(span) => {
                let deep: bool = match member_modes.get(&diagnostic.path) {
                    Some(mode) => *mode == AnalysisMode::Deep,
                    None => false,
                };
                if same(&diagnostic.code, "member_analysis_deferred") && files.contains(
                    &diagnostic.path,
                ) && deep {
                    candidates.insert((diagnostic.path.replicate(), span.start));
                }
            },
            None => {},
        }
        i = i + 1;
    }
    assert(model.take(i as int) =~= model);
    candidates
}

/// Whether a file is written in TypeScript.
pub open spec fn is_typescript(path: Seq<PathPartModel>) -> bool {
    match extension_of(path) {
        Some(extension) => {
            ||| extension == "ts"@
            ||| extension == "tsx"@
            ||| extension == "mts"@
            ||| extension == "cts"@
        },
        None => false,
    }
}

fn is_typescript_path(path: &FilePath) -> (r: bool)
    ensures
        r == is_typescript(path.deep_view()),
{
    match path.extension() {
        Some(extension) => same(&extension, "ts") || same(&extension, "tsx") || same(
            &extension,
            "mts",
        ) || same(&extension, "cts"),
        None => false,
    }
}

/// Whether a compiler configuration can be the one of a file.
pub open spec fn configures(
    configuration: ProjectConfigurationModel,
    path: Seq<PathPartModel>,
) -> bool {
    configuration.kind == ProjectConfigurationKind::TypeScript && path_below(
        path,
        configuration.root,
    ) is Some
}

/// The compiler configuration of a file: the innermost, and the last of those.
pub open spec fn configuration_of(
    items: Seq<ProjectConfigurationModel>,
    path: Seq<PathPartModel>,
) -> Option<ProjectConfigurationModel>
    decreases items.len(),
{
    if items.len() == 0 {
        None
    } else {
        let rest = configuration_of(items.drop_last(), path);
        let last = items.last();
        if configures(last, path) && (match rest {
            Some(best) => last.root.len() >= best.root.len(),
            None => true,
        }) {
            Some(last)
        } else {
            rest
        }
    }
}

/// The compiler configuration of a file: the innermost, and the last of those.
#[must_use]
pub fn typescript_configuration_for_path(
    path: &FilePath,
    configurations: &Vec<ProjectConfiguration>,
) -> (r: Option<usize>)
    ensures
        match r {
            Some(place) => place < configurations@.len() && configuration_of(
                configurations.deep_view(),
                path.deep_view(),
            ) == Some(configurations@[place as int].deep_view()),
            None => configuration_of(configurations.deep_view(), path.deep_view()) is None,
        },
{
    let ghost file = path.deep_view();
    let mut best: Option<usize> = None;
    let ghost model = configurations.deep_view();
    let mut i: usize = 0;
    while i < configurations.len()
        invariant
            i <= configurations.len(),
            model == configurations.deep_view(),
            file == path.deep_view(),
            match best {
                Some(place) => place < configurations@.len() && configuration_of(model.take(i as int), file) == Some(configurations@[place as int].deep_view()),
                None => configuration_of(model.take(i as int), file) is None,
            },
        decreases configurations.len() - i,
    {
        proof {
            assert(model.take(i + 1).drop_last() =~= model.take(i as int));
            assert(model.take(i + 1).last() == configurations@[i as int].deep_view());
        }
        let configuration: &ProjectConfiguration = &configurations[i];
        assert(configuration.root.deep_view().len() == configuration.root.parts@.len());
        if configuration.kind == ProjectConfigurationKind::TypeScript && path.strip_prefix(
            &configuration.root,
        ).is_some() {
            let better: bool = match best {
                Some(place) => {
                    assert(configurations@[place as int].root.deep_view().len()
                        == configurations@[place as int].root.parts@.len());
                    configuration.root.parts.len() >= configurations[place].root.parts.len()
                },
                None => true,
            };
            if better {
                best = Some(i);
            }
        }
        i = i + 1;
    }
    assert(model.take(i as int) =~= model);
    best
}

/// The questions on members for each compiler configuration, and the files that have none.
#[verifier::ext_equal]
pub struct DeepQueriesModel {
    pub evidence: Seq<((Seq<char>, u32), DeepRawResolutionModel)>,
    pub groups: Seq<(Seq<PathPartModel>, Seq<(Seq<char>, u32)>)>,
    pub unconfigured: Seq<Seq<char>>,
}

/// The questions on members for each compiler configuration, and the files that have none.
pub struct DeepQueries {
    /// What is known of each member before anything is asked: nothing.
    pub evidence: OrderedMap<(String, u32), DeepRawResolution>,
    pub groups: OrderedMap<FilePath, Vec<(String, u32)>>,
    pub unconfigured: OrderedSet<String>,
}

/// That nothing is known of a member.
pub open spec fn not_resolved() -> DeepRawResolutionModel {
    DeepRawResolutionModel::Unavailable("deep TypeScript evidence could not be resolved"@)
}

/// Questions with one more.
pub open spec fn with_question(
    rest: DeepQueriesModel,
    key: (Seq<char>, u32),
    configurations: Seq<ProjectConfigurationModel>,
) -> DeepQueriesModel {
    let path = parsed(key.0);
    let known = DeepQueriesModel {
        evidence: with_entry::<(String, u32), DeepRawResolutionModel>(
            rest.evidence,
            key,
            not_resolved(),
        ),
        ..rest
    };
    if !is_typescript(path) {
        known
    } else {
        match configuration_of(configurations, path) {
            Some(configuration) => DeepQueriesModel {
                groups: with_entry::<FilePath, Seq<(Seq<char>, u32)>>(
                    rest.groups,
                    configuration.path,
                    (match lookup(rest.groups, configuration.path) {
                        Some(keys) => keys,
                        None => Seq::empty(),
                    }).push(key),
                ),
                ..known
            },
            None => DeepQueriesModel {
                unconfigured: with_item::<String>(rest.unconfigured, key.0),
                ..known
            },
        }
    }
}

/// The questions on some members.
pub open spec fn deep_queries(
    items: Seq<(Seq<char>, u32)>,
    configurations: Seq<ProjectConfigurationModel>,
) -> DeepQueriesModel
    decreases items.len(),
{
    if items.len() == 0 {
        DeepQueriesModel {
            evidence: Seq::empty(),
            groups: Seq::empty(),
            unconfigured: Seq::empty(),
        }
    } else {
        let rest = deep_queries(items.drop_last(), configurations);
        let last = items.last();
        with_question(rest, last, configurations)
    }
}

/// The questions on some members for each compiler configuration, and the files that have
/// none.
#[must_use]
pub fn group_deep_queries(
    candidates: &OrderedSet<(String, u32)>,
    project_configurations: &Vec<ProjectConfiguration>,
) -> (r: DeepQueries)
    ensures
        ({
            let all = deep_queries(candidates.deep_view(), project_configurations.deep_view());
            &&& r.evidence.deep_view() == all.evidence
            &&& r.groups.deep_view() == all.groups
            &&& r.unconfigured.deep_view() == all.unconfigured
        }),
{
    let items: &Vec<(String, u32)> = candidates.items();
    assert(items.deep_view() =~= candidates.deep_view());
    let ghost configurations = project_configurations.deep_view();
    let mut evidence: OrderedMap<(String, u32), DeepRawResolution> = OrderedMap::new();
    let mut groups: OrderedMap<FilePath, Vec<(String, u32)>> = OrderedMap::new();
    let mut unconfigured: OrderedSet<String> = OrderedSet::new();
    let ghost model = items.deep_view();
    let mut i: usize = 0;
    while i < items.len()
        invariant
            i <= items.len(),
            model == items.deep_view(),
            configurations == project_configurations.deep_view(),
            evidence.deep_view() == deep_queries(model.take(i as int), configurations).evidence,
            groups.deep_view() == deep_queries(model.take(i as int), configurations).groups,
            unconfigured.deep_view() == deep_queries(model.take(i as int), configurations).unconfigured,
        decreases items.len() - i,
    {
        proof {
            assert(model.take(i + 1).drop_last() =~= model.take(i as int));
            assert(model.take(i + 1).last() == items@[i as int].deep_view());
        }
        let key: &(String, u32) = &items[i];
        let path: FilePath = FilePath::parse(&key.0);
        evidence.insert(
            key.replicate(),
            DeepRawResolution::Unavailable(
                "deep TypeScript evidence could not be resolved".to_string(),
            ),
        );
        if is_typescript_path(&path) {
            match typescript_configuration_for_path(&path, project_configurations) {
                Some(place) => {
                    let owner: &FilePath = &project_configurations[place].path;
                    let mut keys: Vec<(String, u32)> = match groups.get(owner) {
                        Some(keys) => keys.replicate(),
                        None => {
                            let none: Vec<(String, u32)> = Vec::new();
                            assert(none.deep_view() =~= Seq::empty());
                            none
                        },
                    };
                    push_item(&mut keys, key.replicate());
                    groups.insert(owner.replicate(), keys);
                },
                None => {
                    unconfigured.insert(key.0.replicate());
                },
            }
        }
        i = i + 1;
    }
    assert(model.take(i as int) =~= model);
    DeepQueries { evidence, groups, unconfigured }
}

/// That members were analyzed without the types, and why.
pub open spec fn without_types(message: Seq<char>) -> AnalysisDiagnosticModel {
    AnalysisDiagnosticModel {
        code: "deep_worker_unavailable"@,
        path: "tsconfig.json"@,
        severity: DiagnosticSeverity::Warning,
        span: None,
        message: "Deep member analysis is conservative: "@ + message,
        blocks_reachability: false,
    }
}

/// That members were analyzed without the types, and why.
#[must_use]
pub fn deep_worker_diagnostic(message: &str) -> (r: AnalysisDiagnostic)
    ensures
        r.deep_view() == without_types(message@),
{
    AnalysisDiagnostic {
        code: "deep_worker_unavailable".to_string(),
        path: "tsconfig.json".to_string(),
        severity: DiagnosticSeverity::Warning,
        span: None,
        message: concat2("Deep member analysis is conservative: ", message),
        blocks_reachability: false,
    }
}

/// What kept the types from being used: files without a configuration, and what failed.
pub open spec fn deep_failures(
    unconfigured: Seq<Seq<char>>,
    failures: Seq<Seq<char>>,
) -> Seq<Seq<char>> {
    if unconfigured.len() > 0 {
        seq!["no owning tsconfig was found for "@ + joined(unconfigured, ", "@)] + failures
    } else {
        failures
    }
}

/// What is said where the types could not be used for all members.
#[must_use]
pub fn deep_failure_diagnostic(
    unconfigured: &OrderedSet<String>,
    failures: &Vec<String>,
) -> (r: Option<
    AnalysisDiagnostic,
>)
    ensures
        r.deep_view() == ({
            let all = deep_failures(unconfigured.deep_view(), failures.deep_view());
            if all.len() == 0 {
                None
            } else {
                Some(without_types(joined(all, "; "@)))
            }
        }),
{
    let mut all: Vec<String> = Vec::new();
    if !unconfigured.is_empty() {
        push_item(
            &mut all,
            concat2("no owning tsconfig was found for ", &join(unconfigured.items(), ", ")),
        );
    }
    append_items(&mut all, failures);
    assert(all.deep_view() =~= deep_failures(unconfigured.deep_view(), failures.deep_view()));
    assert(all.deep_view().len() == all@.len());
    if all.len() == 0 {
        return None;
    }
    Some(deep_worker_diagnostic(&join(&all, "; ")))
}

/// A member of an object.
pub open spec fn json_member(members: Seq<(String, Json)>, key: Seq<char>) -> Option<Json>
    decreases members.len(),
{
    if members.len() == 0 {
        None
    } else if members.last().0@ == key {
        Some(members.last().1)
    } else {
        json_member(members.drop_last(), key)
    }
}

/// A member of a value, where it is an object.
pub open spec fn json_get(value: Json, key: Seq<char>) -> Option<Json> {
    match value {
        Json::Object(members) => json_member(members@, key),
        _ => None,
    }
}

fn member_of<'a>(value: &'a Json, key: &str) -> (r: Option<&'a Json>)
    ensures
        match r {
            Some(found) => json_get(*value, key@) == Some(*found),
            None => json_get(*value, key@) is None,
        },
{
    match value {
        Json::Object(members) => {
            let mut i: usize = members.len();
            assert(members@.take(i as int) =~= members@);
            while i > 0
                invariant
                    i <= members.len(),
                    *value == Json::Object(*members),
                    json_member(members@, key@) == json_member(members@.take(i as int), key@),
                decreases i,
            {
                assert(members@.take(i as int).drop_last() =~= members@.take(i - 1));
                assert(members@.take(i as int).last() == members@[i - 1]);
                if same(&members[i - 1].0, key) {
                    return Some(&members[i - 1].1);
                }
                i = i - 1;
            }
            None
        },
        _ => None,
    }
}

/// The text of a member of a value.
pub open spec fn json_text(value: Json, key: Seq<char>) -> Option<Seq<char>> {
    match json_get(value, key) {
        Some(Json::Text(text)) => Some(text@),
        _ => None,
    }
}

fn text_of_member(value: &Json, key: &str) -> (r: Option<String>)
    ensures
        r.deep_view() == json_text(*value, key@),
{
    match member_of(value, key) {
        Some(Json::Text(text)) => Some(text.replicate()),
        _ => None,
    }
}

/// Whether a list holds a text.
pub open spec fn lists_text(values: Seq<Json>, text: Seq<char>) -> bool {
    exists|i: int| 0 <= i < values.len() && is_text(#[trigger] values[i], text)
}

/// Whether a value is a text.
pub open spec fn is_text(value: Json, text: Seq<char>) -> bool {
    value matches Json::Text(own) && own@ == text
}

fn list_holds_text(values: &Vec<Json>, text: &str) -> (r: bool)
    ensures
        r == lists_text(values@, text@),
{
    let mut i: usize = 0;
    while i < values.len()
        invariant
            i <= values.len(),
            forall|k: int| 0 <= k < i ==> !is_text(#[trigger] values@[k], text@),
        decreases values.len() - i,
    {
        let found: bool = match &values[i] {
            Json::Text(own) => same(own, text),
            _ => false,
        };
        if found {
            assert(is_text(values@[i as int], text@));
            return true;
        }
        i = i + 1;
    }
    false
}

/// What comes of what the worker says that it can do: nothing, or why it is of no use.
pub open spec fn capability_fault(capabilities: Result<Json, Seq<char>>) -> Option<Seq<char>> {
    match capabilities {
        Err(error) => Some("the worker capability handshake failed: "@ + error),
        Ok(value) => match json_get(value, "queryKinds"@) {
            Some(Json::List(kinds)) => if lists_text(kinds@, "memberUsage"@) {
                None
            } else {
                Some("the worker does not implement the memberUsage capability"@)
            },
            _ => Some("the worker does not implement the memberUsage capability"@),
        },
    }
}

/// What comes of what the worker says that it can do: nothing, or why it is of no use.
#[must_use]
pub fn check_worker_capabilities(capabilities: &Result<Json, String>) -> (r: Option<String>)
    ensures
        r.deep_view() == capability_fault(
            match *capabilities {
                Ok(value) => Ok(value),
                Err(error) => Err(error@),
            },
        ),
{
    match capabilities {
        Err(error) => Some(concat2("the worker capability handshake failed: ", error)),
        Ok(value) => {
            let supported: bool = match member_of(value, "queryKinds") {
                Some(Json::List(kinds)) => list_holds_text(kinds, "memberUsage"),
                _ => false,
            };
            if supported {
                None
            } else {
                Some("the worker does not implement the memberUsage capability".to_string())
            }
        },
    }
}

/// The compiler that the worker was started with, or why it is of no use.
pub open spec fn worker_identity(initialization: Result<Json, Seq<char>>) -> Result<
    Seq<char>,
    Seq<char>,
> {
    match initialization {
        Err(error) => Err("the worker initialization failed: "@ + error),
        Ok(value) => if json_text(value, "status"@) != Some("ready"@) {
            Err(
                match json_text(value, "capabilityNote"@) {
                    Some(note) => note,
                    None => "the TypeScript worker is unavailable"@,
                },
            )
        } else {
            match json_text(value, "typescriptIdentity"@) {
                Some(identity) => if identity.len() > 0 && byte_length(identity) <= 256 {
                    Ok(identity)
                } else {
                    Err("the worker did not provide a bounded TypeScript compiler identity"@)
                },
                None => Err("the worker did not provide a bounded TypeScript compiler identity"@),
            }
        },
    }
}

/// The compiler that the worker was started with, or why it is of no use.
pub fn read_worker_identity(initialization: &Result<Json, String>) -> (r: Result<String, String>)
    ensures
        ({
            let identity = worker_identity(
                match *initialization {
                    Ok(value) => Ok(value),
                    Err(error) => Err(error@),
                },
            );
            match r {
                Ok(text) => identity == Ok::<Seq<char>, Seq<char>>(text@),
                Err(reason) => identity == Err::<Seq<char>, Seq<char>>(reason@),
            }
        }),
{
    let value: &Json = match initialization {
        Ok(value) => value,
        Err(error) => {
            return Err(concat2("the worker initialization failed: ", error));
        },
    };
    let ready: bool = match text_of_member(value, "status") {
        Some(status) => same(&status, "ready"),
        None => false,
    };
    if !ready {
        return Err(
            match text_of_member(value, "capabilityNote") {
                Some(note) => note,
                None => "the TypeScript worker is unavailable".to_string(),
            },
        );
    }
    match text_of_member(value, "typescriptIdentity") {
        Some(identity) => {
            if identity.as_str().unicode_len() > 0 && byte_len(&identity) <= 256 {
                Ok(identity)
            } else {
                Err(
                    "the worker did not provide a bounded TypeScript compiler identity".to_string(),
                )
            }
        },
        None => Err(
            "the worker did not provide a bounded TypeScript compiler identity".to_string(),
        ),
    }
}

/// How many members the worker is asked about at once.
pub const DEEP_QUERY_BATCH: usize = 128;

/// The questions from a place on that are asked at once.
pub open spec fn batch_from<T>(keys: Seq<T>, from: int) -> Seq<T> {
    if keys.len() - from > DEEP_QUERY_BATCH {
        keys.subrange(from, from + DEEP_QUERY_BATCH)
    } else {
        keys.subrange(from, keys.len() as int)
    }
}

/// The questions from a place on that are asked at once.
#[must_use]
pub fn deep_query_batch(keys: &Vec<(String, u32)>, from: usize) -> (r: Vec<(String, u32)>)
    requires
        from <= keys@.len(),
    ensures
        r.deep_view() == batch_from(keys.deep_view(), from as int),
{
    let ghost model = keys.deep_view();
    let to: usize = if keys.len() - from > DEEP_QUERY_BATCH {
        from + DEEP_QUERY_BATCH
    } else {
        keys.len()
    };
    let mut batch: Vec<(String, u32)> = Vec::new();
    let mut i: usize = from;
    while i < to
        invariant
            from <= i <= to <= keys.len(),
            model == keys.deep_view(),
            batch.deep_view() =~= model.subrange(from as int, i as int),
        decreases to - i,
    {
        assert(model.subrange(from as int, i + 1) =~= model.subrange(from as int, i as int).push(
            keys@[i as int].deep_view(),
        ));
        push_item(&mut batch, keys[i].replicate());
        i = i + 1;
    }
    assert(model.len() == keys@.len());
    batch
}

/// What the worker says of a member.
#[derive(Debug, PartialEq, Eq)]
pub enum DeepAnswer {
    Resolved(DeepRawFacts),
    /// References that cannot be read; why.
    InvalidReferences(String),
    /// Overrides that cannot be read; why.
    InvalidOverrides(String),
    /// That the types say nothing; why.
    Noted(String),
    Nothing,
}

/// What a [`DeepAnswer`] holds.
pub enum DeepAnswerModel {
    Resolved(DeepRawFactsModel),
    InvalidReferences(Seq<char>),
    InvalidOverrides(Seq<char>),
    Noted(Seq<char>),
    Nothing,
}

impl DeepView for DeepAnswer {
    type V = DeepAnswerModel;

    open spec fn deep_view(&self) -> DeepAnswerModel {
        match self {
            DeepAnswer::Resolved(x) => DeepAnswerModel::Resolved(x.deep_view()),
            DeepAnswer::InvalidReferences(x) => DeepAnswerModel::InvalidReferences(x.deep_view()),
            DeepAnswer::InvalidOverrides(x) => DeepAnswerModel::InvalidOverrides(x.deep_view()),
            DeepAnswer::Noted(x) => DeepAnswerModel::Noted(x.deep_view()),
            DeepAnswer::Nothing => DeepAnswerModel::Nothing,
        }
    }
}

impl Value for DeepAnswer {
    fn replicate(&self) -> (r: Self) {
        match self {
            DeepAnswer::Resolved(x) => DeepAnswer::Resolved(x.replicate()),
            DeepAnswer::InvalidReferences(x) => DeepAnswer::InvalidReferences(x.replicate()),
            DeepAnswer::InvalidOverrides(x) => DeepAnswer::InvalidOverrides(x.replicate()),
            DeepAnswer::Noted(x) => DeepAnswer::Noted(x.replicate()),
            DeepAnswer::Nothing => DeepAnswer::Nothing,
        }
    }

    fn same_value(&self, other: &Self) -> (r: bool) {
        match (self, other) {
            (DeepAnswer::Resolved(x), DeepAnswer::Resolved(y)) => x.same_value(y),
            (DeepAnswer::InvalidReferences(x), DeepAnswer::InvalidReferences(y)) => x.same_value(y),
            (DeepAnswer::InvalidOverrides(x), DeepAnswer::InvalidOverrides(y)) => x.same_value(y),
            (DeepAnswer::Noted(x), DeepAnswer::Noted(y)) => x.same_value(y),
            (DeepAnswer::Nothing, DeepAnswer::Nothing) => true,
            _ => false,
        }
    }
}

/// An answer of the worker, with the question that it belongs to.
#[derive(Debug, PartialEq, Eq)]
pub struct DeepReply {
    pub query: Option<usize>,
    pub answer: DeepAnswer,
}

/// What a [`DeepReply`] holds.
pub struct DeepReplyModel {
    pub query: Option<usize>,
    pub answer: DeepAnswerModel,
}

impl DeepView for DeepReply {
    type V = DeepReplyModel;

    open spec fn deep_view(&self) -> DeepReplyModel {
        DeepReplyModel {
            query: self.query.deep_view(),
            answer: self.answer.deep_view(),
        }
    }
}

impl Value for DeepReply {
    fn replicate(&self) -> (r: Self) {
        DeepReply {
            query: self.query.replicate(),
            answer: self.answer.replicate(),
        }
    }

    fn same_value(&self, other: &Self) -> (r: bool) {
        self.query.same_value(&other.query)
            && self.answer.same_value(&other.answer)
    }
}

/// Evidence with one more answer of the worker, or why the answers are of no use.
pub open spec fn with_reply(
    rest: Seq<((Seq<char>, u32), DeepRawResolutionModel)>,
    reply: DeepReplyModel,
    batch: Seq<(Seq<char>, u32)>,
    allowed: Seq<Seq<char>>,
) -> Result<Seq<((Seq<char>, u32), DeepRawResolutionModel)>, Seq<char>> {
    match reply.query {
        None => Ok(rest),
        Some(query) => if query >= batch.len() {
            Ok(rest)
        } else {
            match reply.answer {
                DeepAnswerModel::Resolved(facts) => match canonical_facts(facts, allowed) {
                    Some(canonical) => Ok(
                        with_entry::<(String, u32), DeepRawResolutionModel>(
                            rest,
                            batch[query as int],
                            DeepRawResolutionModel::Resolved(canonical),
                        ),
                    ),
                    None => Err("the worker returned an unsafe path or span"@),
                },
                DeepAnswerModel::InvalidReferences(reason) => Err(
                    "invalid deep reference facts: "@ + reason,
                ),
                DeepAnswerModel::InvalidOverrides(reason) => Err(
                    "invalid deep override facts: "@ + reason,
                ),
                DeepAnswerModel::Noted(note) => Ok(
                    with_entry::<(String, u32), DeepRawResolutionModel>(
                        rest,
                        batch[query as int],
                        DeepRawResolutionModel::Unavailable(note),
                    ),
                ),
                DeepAnswerModel::Nothing => Ok(rest),
            }
        },
    }
}

/// Evidence with the answers of the worker, or why they are of no use.
pub open spec fn with_replies(
    items: Seq<DeepReplyModel>,
    start: Seq<((Seq<char>, u32), DeepRawResolutionModel)>,
    batch: Seq<(Seq<char>, u32)>,
    allowed: Seq<Seq<char>>,
) -> Result<Seq<((Seq<char>, u32), DeepRawResolutionModel)>, Seq<char>>
    decreases items.len(),
{
    if items.len() == 0 {
        Ok(start)
    } else {
        let rest = with_replies(items.drop_last(), start, batch, allowed);
        let last = items.last();
        match rest {
            Ok(evidence) => with_reply(evidence, last, batch, allowed),
            Err(reason) => Err(reason),
        }
    }
}

proof fn with_replies_fail_early(
    replies: Seq<DeepReplyModel>,
    start: Seq<((Seq<char>, u32), DeepRawResolutionModel)>,
    batch: Seq<(Seq<char>, u32)>,
    allowed: Seq<Seq<char>>,
    n: int,
)
    requires
        0 <= n <= replies.len(),
        with_replies(replies.take(n), start, batch, allowed) is Err,
    ensures
        with_replies(replies, start, batch, allowed) == with_replies(
            replies.take(n),
            start,
            batch,
            allowed,
        ),
    decreases replies.len() - n,
{
    if n < replies.len() {
        assert(replies.take(n + 1).drop_last() =~= replies.take(n));
        with_replies_fail_early(replies, start, batch, allowed, n + 1);
    } else {
        assert(replies.take(n) =~= replies);
    }
}

/// Whether evidence is what the answers in front of the first that is of no use make of it.
pub open spec fn stopped_at_fault(
    replies: Seq<DeepReplyModel>,
    start: Seq<((Seq<char>, u32), DeepRawResolutionModel)>,
    batch: Seq<(Seq<char>, u32)>,
    allowed: Seq<Seq<char>>,
    evidence: Seq<((Seq<char>, u32), DeepRawResolutionModel)>,
) -> bool {
    exists|n: int|
        0 <= n < replies.len() && with_replies(#[trigger] replies.take(n), start, batch, allowed)
            == Ok::<Seq<((Seq<char>, u32), DeepRawResolutionModel)>, Seq<char>>(evidence)
            && with_replies(replies.take(n + 1), start, batch, allowed) is Err
}

/// Takes the answers of the worker to some questions, or says why one of them is of no use:
/// then the answers in front of it are taken, and nothing else.
pub fn take_deep_replies(
    replies: &Vec<DeepReply>,
    batch: &Vec<(String, u32)>,
    allowed_source_paths: &OrderedSet<String>,
    evidence: &mut OrderedMap<(String, u32), DeepRawResolution>,
) -> (r: Result<(), String>)
    ensures
        ({
            let after = with_replies(
                replies.deep_view(),
                old(evidence).deep_view(),
                batch.deep_view(),
                allowed_source_paths.deep_view(),
            );
            match r {
                Ok(_) => after == Ok::<Seq<((Seq<char>, u32), DeepRawResolutionModel)>, Seq<char>>(final(evidence).deep_view()),
                Err(reason) => after == Err::<
                    Seq<((Seq<char>, u32), DeepRawResolutionModel)>,
                    Seq<char>,
                >(reason@) && stopped_at_fault(
                    replies.deep_view(),
                    old(evidence).deep_view(),
                    batch.deep_view(),
                    allowed_source_paths.deep_view(),
                    final(evidence).deep_view(),
                ),
            }
        }),
{
    let ghost start = evidence.deep_view();
    let ghost keys = batch.deep_view();
    let ghost allowed = allowed_source_paths.deep_view();
    assert(keys.len() == batch@.len());
    let ghost model = replies.deep_view();
    let mut i: usize = 0;
    while i < replies.len()
        invariant
            i <= replies.len(),
            model == replies.deep_view(),
            start == old(evidence).deep_view(),
            keys == batch.deep_view(),
            keys.len() == batch@.len(),
            allowed == allowed_source_paths.deep_view(),
            with_replies(model.take(i as int), start, keys, allowed) == Ok::<Seq<((Seq<char>, u32), DeepRawResolutionModel)>, Seq<char>>(evidence.deep_view()),
        decreases replies.len() - i,
    {
        proof {
            assert(model.take(i + 1).drop_last() =~= model.take(i as int));
            assert(model.take(i + 1).last() == replies@[i as int].deep_view());
        }
        let reply: &DeepReply = &replies[i];
        let query: Option<usize> = reply.query;
        match query {
            Some(query) => {
                if query < batch.len() {
                    assert(keys[query as int] == batch@[query as int].deep_view());
                    match &reply.answer {
                        DeepAnswer::Resolved(facts) => {
                            match canonicalize_deep_facts(facts, allowed_source_paths) {
                                Some(canonical) => {
                                    evidence.insert(
                                        batch[query].replicate(),
                                        DeepRawResolution::Resolved(canonical),
                                    );
                                },
                                None => {
                                    proof {
                                        with_replies_fail_early(model, start, keys, allowed, i + 1);
                                    }
                                    return Err(
                                        "the worker returned an unsafe path or span".to_string(),
                                    );
                                },
                            }
                        },
                        DeepAnswer::InvalidReferences(reason) => {
                            proof {
                                with_replies_fail_early(model, start, keys, allowed, i + 1);
                            }
                            return Err(concat2("invalid deep reference facts: ", reason));
                        },
                        DeepAnswer::InvalidOverrides(reason) => {
                            proof {
                                with_replies_fail_early(model, start, keys, allowed, i + 1);
                            }
                            return Err(concat2("invalid deep override facts: ", reason));
                        },
                        DeepAnswer::Noted(note) => {
                            evidence.insert(
                                batch[query].replicate(),
                                DeepRawResolution::Unavailable(note.replicate()),
                            );
                        },
                        DeepAnswer::Nothing => {},
                    }
                }
            },
            None => {},
        }
        i = i + 1;
    }
    assert(model.take(i as int) =~= model);
    Ok(())
}

/// The key of the evidence for a compiler configuration: it depends on the configuration of
/// the project, on the compiler, and on the sources.
pub open spec fn deep_key(
    config: Seq<u8>,
    identity: Seq<u8>,
    configuration: Seq<char>,
    source: Digest,
) -> CacheKeyModel {
    CacheKeyModel {
        config: ConfigDigest(sha256(config)),
        profile: ProfileDigest(sha256(identity)),
        file: CanonicalFileIdentityModel { path: configuration },
        content: ContentDigest(source),
        contexts: Seq::empty(),
    }
}

/// The key of the evidence for a compiler configuration, or why it has none.
pub fn deep_cache_key(
    effective_config_bytes: &[u8],
    typescript_identity: &str,
    configuration_display: &str,
    source_digest: Digest,
) -> (r: Result<CacheKey, &'static str>)
    ensures
        match r {
            Ok(key) => is_canonical(configuration_display@) && key.deep_view() == deep_key(
                effective_config_bytes@,
                encode_utf8(typescript_identity@),
                configuration_display@,
                source_digest,
            ),
            Err(reason) => !is_canonical(configuration_display@) && reason@
                == "file identity must be a canonical relative path"@,
        },
{
    let file: CanonicalFileIdentity = match CanonicalFileIdentity::new(configuration_display) {
        Ok(file) => file,
        Err(reason) => {
            return Err(reason);
        },
    };
    let contexts: Vec<ContextDigest> = Vec::new();
    assert(contexts.deep_view() =~= Seq::empty());
    Ok(
        CacheKey::new(
            ConfigDigest::of_bytes(effective_config_bytes),
            ProfileDigest::of_bytes(typescript_identity.as_bytes()),
            file,
            ContentDigest(source_digest),
            contexts,
        ),
    )
}

/// Evidence is not mixed up: two keys are the same only where the digests of configuration,
/// compiler and sources are, and the compiler configuration is.
pub proof fn deep_keys_tell_evidence_apart(
    config: Seq<u8>,
    identity: Seq<u8>,
    configuration: Seq<char>,
    source: Digest,
    other_config: Seq<u8>,
    other_identity: Seq<u8>,
    other_configuration: Seq<char>,
    other_source: Digest,
)
    requires
        deep_key(config, identity, configuration, source) == deep_key(
            other_config,
            other_identity,
            other_configuration,
            other_source,
        ),
    ensures
        sha256(config) == sha256(other_config),
        sha256(identity) == sha256(other_identity),
        configuration == other_configuration,
        source == other_source,
{
}

fn add_bytes(out: &mut Vec<u8>, bytes: &[u8])
    ensures
        final(out)@ == old(out)@ + bytes@,
{
    let ghost start = out@;
    let mut i: usize = 0;
    while i < bytes.len()
        invariant
            i <= bytes.len(),
            out@ =~= start + bytes@.take(i as int),
        decreases bytes.len() - i,
    {
        out.push(bytes[i]);
        i = i + 1;
    }
    assert(bytes@.take(i as int) =~= bytes@);
}

/// A part of what a digest is made of: a name and what it stands for, told apart from others.
pub open spec fn framed(name: Seq<char>, content: Seq<u8>) -> Seq<u8> {
    encode_utf8(name) + seq![0u8] + content + seq![0xffu8]
}

fn add_framed(out: &mut Vec<u8>, name: &str, content: &[u8])
    ensures
        final(out)@ == old(out)@ + framed(name@, content@),
{
    let ghost start = out@;
    add_bytes(out, name.as_bytes());
    out.push(0u8);
    add_bytes(out, content);
    out.push(0xffu8);
    assert(out@ =~= start + framed(name@, content@));
}

/// What the files of a report contribute to a digest.
pub open spec fn file_bytes(items: Seq<FileReportModel>) -> Seq<u8>
    decreases items.len(),
{
    if items.len() == 0 {
        Seq::empty()
    } else {
        let rest = file_bytes(items.drop_last());
        let last = items.last();
        rest + framed(last.path, encode_utf8(last.content_digest))
    }
}

/// What compiler configurations contribute to a digest: the digests of their contents, as far
/// as these can be read.
pub open spec fn configuration_bytes(
    configurations: Seq<ProjectConfigurationModel>,
    contents: Seq<Option<Seq<u8>>>,
    n: nat,
) -> Seq<u8>
    decreases n,
{
    if n == 0 {
        Seq::empty()
    } else {
        configuration_bytes(configurations, contents, (n - 1) as nat) + framed(
            slashed(configurations[n - 1].path),
            match contents[n - 1] {
                Some(bytes) => encode_utf8(hex(sha256(bytes))),
                None => encode_utf8("unreadable"@),
            },
        )
    }
}

/// The digest of all that evidence from the types depends on: the files of a report, and the
/// compiler configurations with their contents, as far as these can be read.
#[must_use]
pub fn deep_source_digest(
    source_report: &ScanReport,
    project_configurations: &Vec<ProjectConfiguration>,
    contents: &Vec<Option<Vec<u8>>>,
) -> (r: Digest)
    requires
        contents@.len() == project_configurations@.len(),
    ensures
        r == sha256(
            file_bytes(source_report.deep_view().files) + configuration_bytes(
                project_configurations.deep_view(),
                contents.deep_view(),
                project_configurations@.len(),
            ),
        ),
{
    let mut input: Vec<u8> = Vec::new();
    let files: &Vec<FileReport> = &source_report.files;
    let ghost model = files.deep_view();
    let mut i: usize = 0;
    while i < files.len()
        invariant
            i <= files.len(),
            model == files.deep_view(),
            input@ =~= file_bytes(model.take(i as int)),
        decreases files.len() - i,
    {
        proof {
            assert(model.take(i + 1).drop_last() =~= model.take(i as int));
            assert(model.take(i + 1).last() == files@[i as int].deep_view());
        }
        add_framed(&mut input, &files[i].path, files[i].content_digest.as_str().as_bytes());
        i = i + 1;
    }
    assert(model.take(i as int) =~= model);
    let ghost start = input@;
    let ghost configurations = project_configurations.deep_view();
    let ghost read = contents.deep_view();
    let mut k: usize = 0;
    while k < project_configurations.len()
        invariant
            k <= project_configurations.len(),
            contents@.len() == project_configurations@.len(),
            configurations == project_configurations.deep_view(),
            read == contents.deep_view(),
            input@ =~= start + configuration_bytes(configurations, read, k as nat),
        decreases project_configurations.len() - k,
    {
        assert(configurations[k as int] == project_configurations@[k as int].deep_view());
        assert(read[k as int] == contents@[k as int].deep_view());
        let name: String = project_configurations[k].path.slashed();
        match &contents[k] {
            Some(bytes) => {
                assert(bytes.deep_view() =~= bytes@);
                let digest: String = Digest::of_bytes(bytes.as_slice()).to_hex();
                add_framed(&mut input, &name, digest.as_str().as_bytes());
            },
            None => {
                add_framed(&mut input, &name, "unreadable".as_bytes());
            },
        }
        k = k + 1;
    }
    Digest::of_bytes(input.as_slice())
}

/// What the types say of a member, as it is cached.
#[derive(Debug, PartialEq, Eq)]
pub struct CachedDeepFact {
    pub path: String,
    pub position: u32,
    pub resolution: DeepRawResolution,
}

/// What a [`CachedDeepFact`] holds.
pub struct CachedDeepFactModel {
    pub path: Seq<char>,
    pub position: u32,
    pub resolution: DeepRawResolutionModel,
}

impl DeepView for CachedDeepFact {
    type V = CachedDeepFactModel;

    open spec fn deep_view(&self) -> CachedDeepFactModel {
        CachedDeepFactModel {
            path: self.path.deep_view(),
            position: self.position.deep_view(),
            resolution: self.resolution.deep_view(),
        }
    }
}

impl Value for CachedDeepFact {
    fn replicate(&self) -> (r: Self) {
        CachedDeepFact {
            path: self.path.replicate(),
            position: self.position.replicate(),
            resolution: self.resolution.replicate(),
        }
    }

    fn same_value(&self, other: &Self) -> (r: bool) {
        self.path.same_value(&other.path)
            && self.position.same_value(&other.position)
            && self.resolution.same_value(&other.resolution)
    }
}

/// What the types say of members, as it is cached.
#[derive(Debug, PartialEq, Eq)]
pub struct CachedDeepEvidence {
    pub schema_version: u32,
    pub config_path: String,
    pub typescript_identity: String,
    pub facts: Vec<CachedDeepFact>,
}

/// What a [`CachedDeepEvidence`] holds.
pub struct CachedDeepEvidenceModel {
    pub schema_version: u32,
    pub config_path: Seq<char>,
    pub typescript_identity: Seq<char>,
    pub facts: Seq<CachedDeepFactModel>,
}

impl DeepView for CachedDeepEvidence {
    type V = CachedDeepEvidenceModel;

    open spec fn deep_view(&self) -> CachedDeepEvidenceModel {
        CachedDeepEvidenceModel {
            schema_version: self.schema_version.deep_view(),
            config_path: self.config_path.deep_view(),
            typescript_identity: self.typescript_identity.deep_view(),
            facts: self.facts.deep_view(),
        }
    }
}

impl Value for CachedDeepEvidence {
    fn replicate(&self) -> (r: Self) {
        CachedDeepEvidence {
            schema_version: self.schema_version.replicate(),
            config_path: self.config_path.replicate(),
            typescript_identity: self.typescript_identity.replicate(),
            facts: self.facts.replicate(),
        }
    }

    fn same_value(&self, other: &Self) -> (r: bool) {
        self.schema_version.same_value(&other.schema_version)
            && self.config_path.same_value(&other.config_path)
            && self.typescript_identity.same_value(&other.typescript_identity)
            && self.facts.same_value(&other.facts)
    }
}

/// Whether cached evidence is of this kind, for this compiler configuration and compiler.
pub open spec fn is_for(
    cached: CachedDeepEvidenceModel,
    configuration: Seq<char>,
    identity: Seq<char>,
) -> bool {
    &&& cached.schema_version == 1
    &&& cached.config_path == configuration
    &&& cached.typescript_identity == identity
}

/// Whether cached evidence is of this kind, for this compiler configuration and compiler.
#[must_use]
pub fn is_evidence_for(
    cached: &CachedDeepEvidence,
    configuration_path: &str,
    typescript_identity: &str,
) -> (r: bool)
    ensures
        r == is_for(cached.deep_view(), configuration_path@, typescript_identity@),
{
    cached.schema_version == 1 && same(&cached.config_path, configuration_path) && same(
        &cached.typescript_identity,
        typescript_identity,
    )
}

/// What a cached fact says, or nothing where it cannot be trusted.
pub open spec fn trusted_resolution(
    resolution: DeepRawResolutionModel,
    allowed: Seq<Seq<char>>,
) -> Option<DeepRawResolutionModel> {
    match resolution {
        DeepRawResolutionModel::Unavailable(_) => Some(resolution),
        DeepRawResolutionModel::Resolved(facts) => match canonical_facts(facts, allowed) {
            Some(canonical) => Some(DeepRawResolutionModel::Resolved(canonical)),
            None => None,
        },
    }
}

fn trust_resolution(resolution: &DeepRawResolution, allowed: &OrderedSet<String>) -> (r: Option<
    DeepRawResolution,
>)
    ensures
        r.deep_view() == trusted_resolution(resolution.deep_view(), allowed.deep_view()),
{
    match resolution {
        DeepRawResolution::Unavailable(_) => Some(resolution.replicate()),
        DeepRawResolution::Resolved(facts) => match canonicalize_deep_facts(facts, allowed) {
            Some(canonical) => Some(DeepRawResolution::Resolved(canonical)),
            None => None,
        },
    }
}

/// What cached facts say of the members that are asked for, or nothing where one cannot be
/// trusted or stands twice.
pub open spec fn cached_facts(
    items: Seq<CachedDeepFactModel>,
    requested: Seq<(Seq<char>, u32)>,
    allowed: Seq<Seq<char>>,
) -> Option<Seq<((Seq<char>, u32), DeepRawResolutionModel)>>
    decreases items.len(),
{
    if items.len() == 0 {
        Some(Seq::empty())
    } else {
        let rest = cached_facts(items.drop_last(), requested, allowed);
        let last = items.last();
        match rest {
            None => None,
            Some(before) => {
                let key = (last.path, last.position);
                if !requested.contains(key) {
                    Some(before)
                } else {
                    match trusted_resolution(last.resolution, allowed) {
                        Some(resolution) => if lookup(before, key) is Some {
                            None
                        } else {
                            Some(
                                with_entry::<(String, u32), DeepRawResolutionModel>(
                                    before,
                                    key,
                                    resolution,
                                ),
                            )
                        },
                        None => None,
                    }
                }
            },
        }
    }
}

proof fn cached_facts_fail_early(
    facts: Seq<CachedDeepFactModel>,
    requested: Seq<(Seq<char>, u32)>,
    allowed: Seq<Seq<char>>,
    n: int,
)
    requires
        0 <= n <= facts.len(),
        cached_facts(facts.take(n), requested, allowed) is None,
    ensures
        cached_facts(facts, requested, allowed) is None,
    decreases facts.len() - n,
{
    if n < facts.len() {
        assert(facts.take(n + 1).drop_last() =~= facts.take(n));
        cached_facts_fail_early(facts, requested, allowed, n + 1);
    } else {
        assert(facts.take(n) =~= facts);
    }
}

/// What cached evidence says of all the members that are asked for, or nothing.
pub open spec fn cached_evidence(
    cached: CachedDeepEvidenceModel,
    configuration: Seq<char>,
    identity: Seq<char>,
    keys: Seq<(Seq<char>, u32)>,
    allowed: Seq<Seq<char>>,
) -> Option<Seq<((Seq<char>, u32), DeepRawResolutionModel)>> {
    let requested = collected::<(String, u32)>(keys);
    if !is_for(cached, configuration, identity) {
        None
    } else {
        match cached_facts(cached.facts, requested, allowed) {
            Some(evidence) => if evidence.len() == requested.len() {
                Some(evidence)
            } else {
                None
            },
            None => None,
        }
    }
}

/// What cached evidence says of all the members that are asked for, or nothing.
#[must_use]
pub fn take_cached_evidence(
    cached: &CachedDeepEvidence,
    configuration_path: &str,
    typescript_identity: &str,
    query_keys: &Vec<(String, u32)>,
    allowed_source_paths: &OrderedSet<String>,
) -> (r: Option<OrderedMap<(String, u32), DeepRawResolution>>)
    ensures
        r.deep_view() == cached_evidence(
            cached.deep_view(),
            configuration_path@,
            typescript_identity@,
            query_keys.deep_view(),
            allowed_source_paths.deep_view(),
        ),
{
    if !is_evidence_for(cached, configuration_path, typescript_identity) {
        return None;
    }
    let requested: OrderedSet<(String, u32)> = OrderedSet::from_items(query_keys.replicate());
    let ghost wanted = requested.deep_view();
    let ghost allowed = allowed_source_paths.deep_view();
    let mut evidence: OrderedMap<(String, u32), DeepRawResolution> = OrderedMap::new();
    let facts: &Vec<CachedDeepFact> = &cached.facts;
    let ghost model = facts.deep_view();
    let mut i: usize = 0;
    while i < facts.len()
        invariant
            i <= facts.len(),
            model == facts.deep_view(),
            wanted == requested.deep_view(),
            wanted == collected::<(String, u32)>(query_keys.deep_view()),
            allowed == allowed_source_paths.deep_view(),
            model == cached.deep_view().facts,
            is_for(cached.deep_view(), configuration_path@, typescript_identity@),
            cached_facts(model.take(i as int), wanted, allowed) == Some(evidence.deep_view()),
        decreases facts.len() - i,
    {
        proof {
            assert(model.take(i + 1).drop_last() =~= model.take(i as int));
            assert(model.take(i + 1).last() == facts@[i as int].deep_view());
        }
        let key: (String, u32) = (facts[i].path.replicate(), facts[i].position);
        if requested.contains(&key) {
            let resolution: DeepRawResolution = match trust_resolution(
                &facts[i].resolution,
                allowed_source_paths,
            ) {
                Some(resolution) => resolution,
                None => {
                    proof {
                        cached_facts_fail_early(model, wanted, allowed, i + 1);
                    }
                    return None;
                },
            };
            if evidence.contains_key(&key) {
                proof {
                    cached_facts_fail_early(model, wanted, allowed, i + 1);
                }
                return None;
            }
            evidence.insert(key, resolution);
        }
        i = i + 1;
    }
    assert(model.take(i as int) =~= model);
    if evidence.len() == requested.len() {
        Some(evidence)
    } else {
        None
    }
}

/// Facts to be cached, by the members that they are on.
pub open spec fn facts_to_store(
    items: Seq<(Seq<char>, u32)>,
    evidence: Seq<((Seq<char>, u32), DeepRawResolutionModel)>,
) -> Seq<((Seq<char>, u32), CachedDeepFactModel)>
    decreases items.len(),
{
    if items.len() == 0 {
        Seq::empty()
    } else {
        let rest = facts_to_store(items.drop_last(), evidence);
        let last = items.last();
        match lookup(evidence, last) {
            Some(resolution) => with_entry::<(String, u32), CachedDeepFactModel>(
                rest,
                last,
                CachedDeepFactModel { path: last.0, position: last.1, resolution },
            ),
            None => rest,
        }
    }
}

/// Facts to be cached, with older ones on other members.
pub open spec fn with_older_facts(
    items: Seq<CachedDeepFactModel>,
    start: Seq<((Seq<char>, u32), CachedDeepFactModel)>,
) -> Seq<((Seq<char>, u32), CachedDeepFactModel)>
    decreases items.len(),
{
    if items.len() == 0 {
        start
    } else {
        let rest = with_older_facts(items.drop_last(), start);
        let last = items.last();
        if lookup(rest, (last.path, last.position)) is Some {
            rest
        } else {
            with_entry::<(String, u32), CachedDeepFactModel>(
                rest,
                (last.path, last.position),
                last,
            )
        }
    }
}

/// The facts of a table.
pub open spec fn listed_facts(
    items: Seq<((Seq<char>, u32), CachedDeepFactModel)>,
) -> Seq<CachedDeepFactModel> {
    items.map_values(|item: ((Seq<char>, u32), CachedDeepFactModel)| item.1)
}

fn list_facts(items: &Vec<((String, u32), CachedDeepFact)>) -> (r: Vec<CachedDeepFact>)
    ensures
        r.deep_view() == listed_facts(items.deep_view()),
{
    let mut out: Vec<CachedDeepFact> = Vec::new();
    let ghost model = items.deep_view();
    let mut i: usize = 0;
    while i < items.len()
        invariant
            i <= items.len(),
            model == items.deep_view(),
            out.deep_view() =~= listed_facts(model.take(i as int)),
        decreases items.len() - i,
    {
        proof {
            assert(model.take(i + 1).drop_last() =~= model.take(i as int));
            assert(model.take(i + 1).last() == items@[i as int].deep_view());
        }
        assert(model.take(i + 1) =~= model.take(i as int).push(items@[i as int].deep_view()));
        let item: &((String, u32), CachedDeepFact) = &items[i];
        push_item(&mut out, item.1.replicate());
        i = i + 1;
    }
    assert(model.take(i as int) =~= model);
    out
}

/// What is cached of evidence: all that was asked for, and what was cached before on other
/// members. Nothing where evidence is missing.
pub open spec fn evidence_to_store(
    keys: Seq<(Seq<char>, u32)>,
    evidence: Seq<((Seq<char>, u32), DeepRawResolutionModel)>,
    older: Option<CachedDeepEvidenceModel>,
    configuration: Seq<char>,
    identity: Seq<char>,
) -> Option<CachedDeepEvidenceModel> {
    let own = facts_to_store(keys, evidence);
    if own.len() != keys.len() {
        None
    } else {
        let all = match older {
            Some(cached) => if is_for(cached, configuration, identity) {
                with_older_facts(cached.facts, own)
            } else {
                own
            },
            None => own,
        };
        Some(
            CachedDeepEvidenceModel {
                schema_version: 1,
                config_path: configuration,
                typescript_identity: identity,
                facts: listed_facts(all),
            },
        )
    }
}

/// What is cached of evidence, or nothing where evidence is missing.
#[must_use]
pub fn build_cached_evidence(
    query_keys: &Vec<(String, u32)>,
    evidence: &OrderedMap<(String, u32), DeepRawResolution>,
    older: &Option<CachedDeepEvidence>,
    configuration_path: &str,
    typescript_identity: &str,
) -> (r: Option<CachedDeepEvidence>)
    ensures
        r.deep_view() == evidence_to_store(
            query_keys.deep_view(),
            evidence.deep_view(),
            older.deep_view(),
            configuration_path@,
            typescript_identity@,
        ),
{
    let mut own: OrderedMap<(String, u32), CachedDeepFact> = OrderedMap::new();
    let ghost given = evidence.deep_view();
    let ghost model = query_keys.deep_view();
    let mut i: usize = 0;
    while i < query_keys.len()
        invariant
            i <= query_keys.len(),
            model == query_keys.deep_view(),
            given == evidence.deep_view(),
            own.deep_view() == facts_to_store(model.take(i as int), given),
        decreases query_keys.len() - i,
    {
        proof {
            assert(model.take(i + 1).drop_last() =~= model.take(i as int));
            assert(model.take(i + 1).last() == query_keys@[i as int].deep_view());
        }
        match evidence.get(&query_keys[i]) {
            Some(resolution) => {
                own.insert(
                    query_keys[i].replicate(),
                    CachedDeepFact {
                        path: query_keys[i].0.replicate(),
                        position: query_keys[i].1,
                        resolution: resolution.replicate(),
                    },
                );
            },
            None => {},
        }
        i = i + 1;
    }
    assert(model.take(i as int) =~= model);
    assert(query_keys.deep_view().len() == query_keys@.len());
    if own.len() != query_keys.len() {
        return None;
    }
    match older {
        Some(cached) => {
            if is_evidence_for(cached, configuration_path, typescript_identity) {
                let ghost start = own.deep_view();
                let facts: &Vec<CachedDeepFact> = &cached.facts;
                let ghost model = facts.deep_view();
                let mut i: usize = 0;
                while i < facts.len()
                    invariant
                        i <= facts.len(),
                        model == facts.deep_view(),
                        own.deep_view() == with_older_facts(model.take(i as int), start),
                    decreases facts.len() - i,
                {
                    proof {
                        assert(model.take(i + 1).drop_last() =~= model.take(i as int));
                        assert(model.take(i + 1).last() == facts@[i as int].deep_view());
                    }
                    let key: (String, u32) = (facts[i].path.replicate(), facts[i].position);
                    if !own.contains_key(&key) {
                        own.insert(key, facts[i].replicate());
                    }
                    i = i + 1;
                }
                assert(model.take(i as int) =~= model);
            }
        },
        None => {},
    }
    assert(own.entries().deep_view() =~= own.deep_view());
    Some(
        CachedDeepEvidence {
            schema_version: 1,
            config_path: configuration_path.to_string(),
            typescript_identity: typescript_identity.to_string(),
            facts: list_facts(own.entries()),
        },
    )
}

/// Evidence from files that are not used, on members of bases that nothing can use, keeps
/// nothing.
pub proof fn dead_evidence_does_not_retain(
    facts: DeepRawFactsModel,
    reachable: Seq<Seq<char>>,
    project: WorkspaceDiscoveryModel,
    contexts: Seq<PackageContextModel>,
)
    requires
        forall|i: int|
            0 <= i < facts.references.len() ==> !reachable.contains(
                (#[trigger] facts.references[i]).path,
            ),
        forall|i: int|
            0 <= i < facts.overrides.len() ==> (#[trigger] facts.overrides[i]).symbol.declarations.len()
                > 0 && !refers_from_use(facts.overrides[i].references, reachable) && (
            !facts.overrides[i].owner_exported || (match facts.overrides[i].owner {
                Some(owner) => !declared_openly(owner.declarations, project, contexts),
                None => true,
            })),
    ensures
        resolved_deep(DeepRawResolutionModel::Resolved(facts), reachable, project, contexts)
            == DeepResolutionModel::Resolved(
            DeepFacts { receiver_may_reference_member: false, live_override_contract: false },
        ),
{
}

proof fn known_spans_are_allowed(
    spans: Seq<DeepSourceSpanModel>,
    start: Seq<DeepSourceSpanModel>,
    allowed: Seq<Seq<char>>,
)
    requires
        forall|i: int| 0 <= i < start.len() ==> allowed.contains((#[trigger] start[i]).path),
    ensures
        forall|i: int|
            0 <= i < known_spans(spans, start, allowed).len() ==> allowed.contains(
                (#[trigger] known_spans(spans, start, allowed)[i]).path,
            ),
    decreases spans.len(),
{
    if spans.len() > 0 {
        known_spans_are_allowed(spans.drop_last(), start, allowed);
        let rest = known_spans(spans.drop_last(), start, allowed);
        let all = known_spans(spans, start, allowed);
        assert forall|i: int| 0 <= i < all.len() implies allowed.contains(
            (#[trigger] all[i]).path,
        ) by {
            if i < rest.len() {
                assert(all[i] == rest[i]);
            }
        }
    }
}

/// Only places in files of the project that can be trusted are taken from the worker.
pub proof fn only_trusted_places_are_taken(
    facts: DeepRawFactsModel,
    allowed: Seq<Seq<char>>,
    i: int,
)
    requires
        canonical_facts(facts, allowed) is Some,
        0 <= i < canonical_facts(facts, allowed)->0.references.len(),
    ensures
        allowed.contains(canonical_facts(facts, allowed)->0.references[i].path),
        is_safe_span(canonical_facts(facts, allowed)->0.references[i]),
{
    let known = known_spans(facts.references, Seq::empty(), allowed);
    known_spans_are_allowed(facts.references, Seq::empty(), allowed);
    collected_is_ordered::<DeepSourceSpan>(known);
    let taken = canonical_facts(facts, allowed)->0.references;
    assert(taken.contains(taken[i]));
    let k = choose|k: int| 0 <= k < known.len() && known[k] == taken[i];
    assert(allowed.contains(known[k].path));
}

proof fn questions_are_noted(
    items: Seq<(Seq<char>, u32)>,
    configurations: Seq<ProjectConfigurationModel>,
)
    ensures
        ascending::<(String, u32)>(keys_of(deep_queries(items, configurations).evidence)),
        forall|i: int|
            0 <= i < items.len() ==> lookup(
                deep_queries(items, configurations).evidence,
                #[trigger] items[i],
            ) == Some(not_resolved()),
    decreases items.len(),
{
    if items.len() == 0 {
        assert(keys_of(Seq::<((Seq<char>, u32), DeepRawResolutionModel)>::empty())
            =~= Seq::empty());
    } else {
        let front = items.drop_last();
        let last = items.last();
        questions_are_noted(front, configurations);
        let rest = deep_queries(front, configurations).evidence;
        lookup_after_with_entry::<(String, u32), DeepRawResolutionModel>(
            rest,
            last,
            not_resolved(),
        );
        assert forall|i: int| 0 <= i < items.len() implies lookup(
            deep_queries(items, configurations).evidence,
            #[trigger] items[i],
        ) == Some(not_resolved()) by {
            if i < front.len() {
                assert(front[i] == items[i]);
                if items[i] != last {
                    lookup_other_after_with_entry::<(String, u32), DeepRawResolutionModel>(
                        rest,
                        last,
                        not_resolved(),
                        items[i],
                    );
                }
            }
        }
    }
}

/// Where no worker answers, affected members stay with an explanation: before anything is
/// answered, every member that is to be looked at deeply counts as one of which nothing could
/// be told, and that is how it is resolved.
pub proof fn members_stay_without_answers(
    candidates: Seq<(Seq<char>, u32)>,
    configurations: Seq<ProjectConfigurationModel>,
    reachable: Seq<Seq<char>>,
    project: WorkspaceDiscoveryModel,
    contexts: Seq<PackageContextModel>,
    i: int,
)
    requires
        0 <= i < candidates.len(),
    ensures
        lookup(deep_queries(candidates, configurations).evidence, candidates[i]) == Some(
            not_resolved(),
        ),
        resolved_deep(not_resolved(), reachable, project, contexts)
            == DeepResolutionModel::Unavailable(
            "deep TypeScript evidence could not be resolved"@,
        ),
{
    questions_are_noted(candidates, configurations);
}

/// The members of which nothing is known yet.
pub open spec fn unanswered(
    candidates: Seq<(Seq<char>, u32)>,
    known: Seq<((Seq<char>, u32), DeepRawResolutionModel)>,
) -> Seq<(Seq<char>, u32)>
    decreases candidates.len(),
{
    if candidates.len() == 0 {
        Seq::empty()
    } else {
        let rest = unanswered(candidates.drop_last(), known);
        if lookup(known, candidates.last()) is Some {
            rest
        } else {
            with_item::<(String, u32)>(rest, candidates.last())
        }
    }
}

/// The members of which nothing is known yet: those that are asked about.
#[must_use]
pub fn unanswered_candidates(
    candidates: &OrderedSet<(String, u32)>,
    known: &OrderedMap<(String, u32), DeepRawResolution>,
) -> (r: OrderedSet<(String, u32)>)
    ensures
        r.deep_view() == unanswered(candidates.deep_view(), known.deep_view()),
{
    let items: &Vec<(String, u32)> = candidates.items();
    let ghost model = items.deep_view();
    let mut out: OrderedSet<(String, u32)> = OrderedSet::new();
    let mut i: usize = 0;
    while i < items.len()
        invariant
            i <= items.len(),
            model == items.deep_view(),
            out.deep_view() == unanswered(model.take(i as int), known.deep_view()),
        decreases items.len() - i,
    {
        proof {
            assert(model.take(i + 1).drop_last() =~= model.take(i as int));
            assert(model.take(i + 1).last() == items@[i as int].deep_view());
        }
        if !known.contains_key(&items[i]) {
            out.insert(items[i].replicate());
        }
        i = i + 1;
    }
    assert(model.take(i as int) =~= model);
    out
}

} // verus!
