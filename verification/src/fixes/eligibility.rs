//! When a fix may be made.

use crate::cache::key::ContentDigest;
use crate::collections::{collected, OrderedSet};
use crate::values::{push_item, Ordered, Value};
use vstd::prelude::*;

verus! {

/// How firmly the analysis behind a fix stands.
#[derive(Debug, Clone, Copy, PartialEq, Eq, Structural)]
pub enum AnalysisConfidence {
    High,
    Medium,
    Low,
    Incomplete,
}

impl DeepView for AnalysisConfidence {
    type V = AnalysisConfidence;

    open spec fn deep_view(&self) -> AnalysisConfidence {
        *self
    }
}

impl Value for AnalysisConfidence {
    fn replicate(&self) -> (r: Self) {
        *self
    }

    fn same_value(&self, other: &Self) -> (r: bool) {
        *self == *other
    }
}

/// Whether code outside the project may use the fixed code.
#[derive(Debug, Clone, Copy, PartialEq, Eq, Structural)]
pub enum WorldAssumption {
    Closed,
    Open,
}

impl DeepView for WorldAssumption {
    type V = WorldAssumption;

    open spec fn deep_view(&self) -> WorldAssumption {
        *self
    }
}

impl Value for WorldAssumption {
    fn replicate(&self) -> (r: Self) {
        *self
    }

    fn same_value(&self, other: &Self) -> (r: bool) {
        *self == *other
    }
}

/// Whether the fixed code belongs to the public API.
#[derive(Debug, Clone, Copy, PartialEq, Eq, Structural)]
pub enum PublicApiExposure {
    OutsidePublicApi,
    PublicApi,
}

impl DeepView for PublicApiExposure {
    type V = PublicApiExposure;

    open spec fn deep_view(&self) -> PublicApiExposure {
        *self
    }
}

impl Value for PublicApiExposure {
    fn replicate(&self) -> (r: Self) {
        *self
    }

    fn same_value(&self, other: &Self) -> (r: bool) {
        *self == *other
    }
}

/// What the analysis could not cover.
#[derive(Debug, PartialEq, Eq)]
pub enum CoverageBlocker {
    Parse,
    Resolution,
    Plugin,
    DynamicBehavior,
    Configuration,
    Other(String),
}

/// What a [`CoverageBlocker`] holds.
pub enum CoverageBlockerModel {
    Parse,
    Resolution,
    Plugin,
    DynamicBehavior,
    Configuration,
    Other(Seq<char>),
}

impl DeepView for CoverageBlocker {
    type V = CoverageBlockerModel;

    open spec fn deep_view(&self) -> CoverageBlockerModel {
        match self {
            CoverageBlocker::Parse => CoverageBlockerModel::Parse,
            CoverageBlocker::Resolution => CoverageBlockerModel::Resolution,
            CoverageBlocker::Plugin => CoverageBlockerModel::Plugin,
            CoverageBlocker::DynamicBehavior => CoverageBlockerModel::DynamicBehavior,
            CoverageBlocker::Configuration => CoverageBlockerModel::Configuration,
            CoverageBlocker::Other(x) => CoverageBlockerModel::Other(x.deep_view()),
        }
    }
}

impl Value for CoverageBlocker {
    fn replicate(&self) -> (r: Self) {
        match self {
            CoverageBlocker::Parse => CoverageBlocker::Parse,
            CoverageBlocker::Resolution => CoverageBlocker::Resolution,
            CoverageBlocker::Plugin => CoverageBlocker::Plugin,
            CoverageBlocker::DynamicBehavior => CoverageBlocker::DynamicBehavior,
            CoverageBlocker::Configuration => CoverageBlocker::Configuration,
            CoverageBlocker::Other(x) => CoverageBlocker::Other(x.replicate()),
        }
    }

    fn same_value(&self, other: &Self) -> (r: bool) {
        match (self, other) {
            (CoverageBlocker::Parse, CoverageBlocker::Parse) => true,
            (CoverageBlocker::Resolution, CoverageBlocker::Resolution) => true,
            (CoverageBlocker::Plugin, CoverageBlocker::Plugin) => true,
            (CoverageBlocker::DynamicBehavior, CoverageBlocker::DynamicBehavior) => true,
            (CoverageBlocker::Configuration, CoverageBlocker::Configuration) => true,
            (CoverageBlocker::Other(x), CoverageBlocker::Other(y)) => x.same_value(y),
            _ => false,
        }
    }
}

impl CoverageBlockerModel {
    /// The place of the variant in the order of the type.
    pub open spec fn place(self) -> nat {
        match self {
            CoverageBlockerModel::Parse => 0,
            CoverageBlockerModel::Resolution => 1,
            CoverageBlockerModel::Plugin => 2,
            CoverageBlockerModel::DynamicBehavior => 3,
            CoverageBlockerModel::Configuration => 4,
            CoverageBlockerModel::Other(_) => 5,
        }
    }
}

impl CoverageBlocker {
    fn place_of(&self) -> (r: u8)
        ensures
            r == self.deep_view().place(),
    {
        match self {
            CoverageBlocker::Parse => 0,
            CoverageBlocker::Resolution => 1,
            CoverageBlocker::Plugin => 2,
            CoverageBlocker::DynamicBehavior => 3,
            CoverageBlocker::Configuration => 4,
            CoverageBlocker::Other(_) => 5,
        }
    }
}

impl Ordered for CoverageBlocker {
    open spec fn before(a: CoverageBlockerModel, b: CoverageBlockerModel) -> bool {
        match (a, b) {
            (CoverageBlockerModel::Other(x), CoverageBlockerModel::Other(y)) => <String as Ordered>::before(x, y),
            _ => a.place() < b.place(),
        }
    }

    fn is_before(&self, other: &Self) -> (r: bool) {
        match (self, other) {
            (CoverageBlocker::Other(x), CoverageBlocker::Other(y)) => x.is_before(y),
            _ => self.place_of() < other.place_of(),
        }
    }

    proof fn before_irreflexive(a: CoverageBlockerModel) {
        match a {
            CoverageBlockerModel::Other(x) => <String as Ordered>::before_irreflexive(x),
            _ => {},
        }
    }

    proof fn before_transitive(
        a: CoverageBlockerModel,
        b: CoverageBlockerModel,
        c: CoverageBlockerModel,
    ) {
        match (a, b, c) {
            (CoverageBlockerModel::Other(x), CoverageBlockerModel::Other(y), CoverageBlockerModel::Other(z)) => <String as Ordered>::before_transitive(x, y, z),
            _ => {},
        }
    }

    proof fn before_total(a: CoverageBlockerModel, b: CoverageBlockerModel) {
        match (a, b) {
            (CoverageBlockerModel::Other(x), CoverageBlockerModel::Other(y)) => <String as Ordered>::before_total(x, y),
            _ => {},
        }
    }
}

/// A fix that is considered.
#[derive(Debug, PartialEq, Eq)]
pub struct FixCandidate {
    pub confidence: AnalysisConfidence,
    pub world: WorldAssumption,
    pub public_api: PublicApiExposure,
    pub blockers: Vec<CoverageBlocker>,
    pub expected_content: Option<ContentDigest>,
    pub preserves_trivia_and_semantics: bool,
}

/// What a [`FixCandidate`] holds.
pub struct FixCandidateModel {
    pub confidence: AnalysisConfidence,
    pub world: WorldAssumption,
    pub public_api: PublicApiExposure,
    pub blockers: Seq<CoverageBlockerModel>,
    pub expected_content: Option<ContentDigest>,
    pub preserves_trivia_and_semantics: bool,
}

impl DeepView for FixCandidate {
    type V = FixCandidateModel;

    open spec fn deep_view(&self) -> FixCandidateModel {
        FixCandidateModel {
            confidence: self.confidence.deep_view(),
            world: self.world.deep_view(),
            public_api: self.public_api.deep_view(),
            blockers: self.blockers.deep_view(),
            expected_content: self.expected_content.deep_view(),
            preserves_trivia_and_semantics: self.preserves_trivia_and_semantics.deep_view(),
        }
    }
}

/// A fix that may be made, to a file with the analyzed content.
#[derive(Debug, Clone, Copy, PartialEq, Eq, Structural)]
pub struct EligibleFix {
    expected_content: ContentDigest,
}

impl EligibleFix {
    /// The analyzed content.
    pub closed spec fn content(self) -> ContentDigest {
        self.expected_content
    }

    /// The digest of the content that was analyzed.
    #[must_use]
    pub fn expected_content(&self) -> (r: ContentDigest)
        ensures
            r == self.content(),
    {
        self.expected_content
    }
}

/// Why a fix may not be made.
#[derive(Debug, PartialEq, Eq)]
pub enum EligibilityRejection {
    ConfidenceIsNotHigh,
    AffectedByBlockers(Vec<CoverageBlocker>),
    PublicApiRequiresClosedWorld,
    MissingAnalyzedContentHash,
    TriviaOrSemanticPreservationUnproven,
}

/// What a [`EligibilityRejection`] holds.
pub enum EligibilityRejectionModel {
    ConfidenceIsNotHigh,
    AffectedByBlockers(Seq<CoverageBlockerModel>),
    PublicApiRequiresClosedWorld,
    MissingAnalyzedContentHash,
    TriviaOrSemanticPreservationUnproven,
}

impl DeepView for EligibilityRejection {
    type V = EligibilityRejectionModel;

    open spec fn deep_view(&self) -> EligibilityRejectionModel {
        match self {
            EligibilityRejection::ConfidenceIsNotHigh => EligibilityRejectionModel::ConfidenceIsNotHigh,
            EligibilityRejection::AffectedByBlockers(x) => EligibilityRejectionModel::AffectedByBlockers(x.deep_view()),
            EligibilityRejection::PublicApiRequiresClosedWorld => EligibilityRejectionModel::PublicApiRequiresClosedWorld,
            EligibilityRejection::MissingAnalyzedContentHash => EligibilityRejectionModel::MissingAnalyzedContentHash,
            EligibilityRejection::TriviaOrSemanticPreservationUnproven => EligibilityRejectionModel::TriviaOrSemanticPreservationUnproven,
        }
    }
}

/// Whether a fix may be made.
#[derive(Debug, PartialEq, Eq)]
pub enum EligibilityDecision {
    Eligible(EligibleFix),
    Ineligible(Vec<EligibilityRejection>),
}

/// The reasons against a fix, in a fixed order.
pub open spec fn rejections(c: FixCandidateModel) -> Seq<EligibilityRejectionModel> {
    let one = |condition: bool, rejection: EligibilityRejectionModel|
        if condition {
            seq![rejection]
        } else {
            Seq::empty()
        };
    one(c.confidence != AnalysisConfidence::High, EligibilityRejectionModel::ConfidenceIsNotHigh)
        + one(
        c.blockers.len() > 0,
        EligibilityRejectionModel::AffectedByBlockers(collected::<CoverageBlocker>(c.blockers)),
    ) + one(
        c.world == WorldAssumption::Open && c.public_api == PublicApiExposure::PublicApi,
        EligibilityRejectionModel::PublicApiRequiresClosedWorld,
    ) + one(c.expected_content is None, EligibilityRejectionModel::MissingAnalyzedContentHash) + one(
        !c.preserves_trivia_and_semantics,
        EligibilityRejectionModel::TriviaOrSemanticPreservationUnproven,
    )
}

/// Every safety condition of a fix.
pub open spec fn safe(c: FixCandidateModel) -> bool {
    &&& c.confidence == AnalysisConfidence::High
    &&& c.blockers.len() == 0
    &&& !(c.world == WorldAssumption::Open && c.public_api == PublicApiExposure::PublicApi)
    &&& c.expected_content is Some
    &&& c.preserves_trivia_and_semantics
}

impl FixCandidate {
    /// Decides whether the fix may be made: only when every safety condition holds.
    #[must_use]
    pub fn evaluate(self) -> (r: EligibilityDecision)
        ensures
            match r {
                EligibilityDecision::Eligible(fix) => safe(self.deep_view()) && Some(fix.content())
                    == self.expected_content,
                EligibilityDecision::Ineligible(reasons) => !safe(self.deep_view())
                    && reasons.deep_view() == rejections(self.deep_view()),
            },
    {
        let candidate = self;
        let mut reasons: Vec<EligibilityRejection> = Vec::new();
        assert(reasons.deep_view() =~= Seq::empty());
        if candidate.confidence != AnalysisConfidence::High {
            push_item(&mut reasons, EligibilityRejection::ConfidenceIsNotHigh);
        }
        let blocked = candidate.blockers.len() > 0;
        if blocked {
            let blockers = OrderedSet::from_items(candidate.blockers);
            push_item(&mut reasons, EligibilityRejection::AffectedByBlockers(blockers.into_items()));
        }
        if candidate.world == WorldAssumption::Open && candidate.public_api
            == PublicApiExposure::PublicApi {
            push_item(&mut reasons, EligibilityRejection::PublicApiRequiresClosedWorld);
        }
        if candidate.expected_content.is_none() {
            push_item(&mut reasons, EligibilityRejection::MissingAnalyzedContentHash);
        }
        if !candidate.preserves_trivia_and_semantics {
            push_item(&mut reasons, EligibilityRejection::TriviaOrSemanticPreservationUnproven);
        }
        assert(reasons.deep_view() =~= rejections(self.deep_view()));
        match (reasons.len() == 0, candidate.expected_content) {
            (true, Some(expected_content)) => EligibilityDecision::Eligible(
                EligibleFix { expected_content },
            ),
            _ => EligibilityDecision::Ineligible(reasons),
        }
    }
}

/// A fix is rejected with at least one reason exactly when it is not safe.
pub proof fn unsafe_fixes_have_reasons(c: FixCandidateModel)
    ensures
        safe(c) <==> rejections(c).len() == 0,
{
}

} // verus!
