//! Class members, and what is concluded of them.

use crate::domain::facts::{
    ClassMemberFact, ClassMemberFactModel, ClassMemberKind, ClassMemberVisibility, SourceKind,
};
use crate::values::Value;
use vstd::prelude::*;

verus! {

/// How thoroughly members are analyzed.
#[derive(Debug, Clone, Copy, PartialEq, Eq, Structural)]
pub enum AnalysisMode {
    Fast,
    Balanced,
    Deep,
}

impl DeepView for AnalysisMode {
    type V = AnalysisMode;

    open spec fn deep_view(&self) -> AnalysisMode {
        *self
    }
}

impl Value for AnalysisMode {
    fn replicate(&self) -> (r: Self) {
        *self
    }

    fn same_value(&self, other: &Self) -> (r: bool) {
        *self == *other
    }
}

/// The name of a mode.
pub open spec fn mode_name(value: AnalysisMode) -> Seq<char> {
    match value {
        AnalysisMode::Fast => "fast"@,
        AnalysisMode::Balanced => "balanced"@,
        AnalysisMode::Deep => "deep"@,
    }
}

/// The name of a mode.
pub fn analysis_mode_name(value: AnalysisMode) -> (r: &'static str)
    ensures
        r@ == mode_name(value),
{
    match value {
        AnalysisMode::Fast => "fast",
        AnalysisMode::Balanced => "balanced",
        AnalysisMode::Deep => "deep",
    }
}

/// Whether a member belongs to the class or to its instances.
#[derive(Debug, Clone, Copy, PartialEq, Eq, Structural)]
pub enum MemberScope {
    Static,
    Instance,
}

impl DeepView for MemberScope {
    type V = MemberScope;

    open spec fn deep_view(&self) -> MemberScope {
        *self
    }
}

impl Value for MemberScope {
    fn replicate(&self) -> (r: Self) {
        *self
    }

    fn same_value(&self, other: &Self) -> (r: bool) {
        *self == *other
    }
}

/// The language that a member is written in.
#[derive(Debug, Clone, Copy, PartialEq, Eq, Structural)]
pub enum MemberLanguage {
    TypeScript,
    JavaScript,
}

impl DeepView for MemberLanguage {
    type V = MemberLanguage;

    open spec fn deep_view(&self) -> MemberLanguage {
        *self
    }
}

impl Value for MemberLanguage {
    fn replicate(&self) -> (r: Self) {
        *self
    }

    fn same_value(&self, other: &Self) -> (r: bool) {
        *self == *other
    }
}

/// Which member it is.
#[derive(Debug, PartialEq, Eq)]
pub struct MemberId {
    pub declaring_class: String,
    pub name: String,
    pub scope: MemberScope,
}

/// What a [`MemberId`] holds.
pub struct MemberIdModel {
    pub declaring_class: Seq<char>,
    pub name: Seq<char>,
    pub scope: MemberScope,
}

impl DeepView for MemberId {
    type V = MemberIdModel;

    open spec fn deep_view(&self) -> MemberIdModel {
        MemberIdModel {
            declaring_class: self.declaring_class.deep_view(),
            name: self.name.deep_view(),
            scope: self.scope.deep_view(),
        }
    }
}

impl Value for MemberId {
    fn replicate(&self) -> (r: Self) {
        MemberId {
            declaring_class: self.declaring_class.replicate(),
            name: self.name.replicate(),
            scope: self.scope.replicate(),
        }
    }

    fn same_value(&self, other: &Self) -> (r: bool) {
        self.declaring_class.same_value(&other.declaring_class)
            && self.name.same_value(&other.name)
            && self.scope.same_value(&other.scope)
    }
}

/// Ways in which a member can be used unseen.
#[derive(Debug, Clone, Copy, PartialEq, Eq, Structural)]
pub struct MemberHazards {
    pub decorated: bool,
    pub emitted_decorator_metadata: bool,
    pub unknown_bracket_access: bool,
    pub reflected_or_enumerated: bool,
    pub serialized: bool,
    pub object_spread: bool,
    pub proxied: bool,
    pub passed_to_unknown_code: bool,
}

impl DeepView for MemberHazards {
    type V = MemberHazards;

    open spec fn deep_view(&self) -> MemberHazards {
        *self
    }
}

impl Value for MemberHazards {
    fn replicate(&self) -> (r: Self) {
        *self
    }

    fn same_value(&self, other: &Self) -> (r: bool) {
        *self == *other
    }
}

/// What is known of the classes above and below.
#[derive(Debug, Clone, Copy, PartialEq, Eq, Structural)]
pub struct InheritanceFacts {
    pub participates_in_inheritance: bool,
    pub relationships_complete: bool,
    pub overrides_live_base_member: bool,
    pub has_live_override: bool,
    pub implements_external_contract: bool,
}

impl DeepView for InheritanceFacts {
    type V = InheritanceFacts;

    open spec fn deep_view(&self) -> InheritanceFacts {
        *self
    }
}

impl Value for InheritanceFacts {
    fn replicate(&self) -> (r: Self) {
        *self
    }

    fn same_value(&self, other: &Self) -> (r: bool) {
        *self == *other
    }
}

/// What deep analysis says of a member.
#[derive(Debug, Clone, Copy, PartialEq, Eq, Structural)]
pub struct DeepFacts {
    pub receiver_may_reference_member: bool,
    pub live_override_contract: bool,
}

impl DeepView for DeepFacts {
    type V = DeepFacts;

    open spec fn deep_view(&self) -> DeepFacts {
        *self
    }
}

impl Value for DeepFacts {
    fn replicate(&self) -> (r: Self) {
        *self
    }

    fn same_value(&self, other: &Self) -> (r: bool) {
        *self == *other
    }
}

/// Whether deep analysis was made, and what it says.
#[derive(Debug, PartialEq, Eq)]
pub enum DeepResolution {
    NotRequested,
    /// It could not be made; why.
    Unavailable(String),
    Resolved(DeepFacts),
}

/// What a [`DeepResolution`] holds.
pub enum DeepResolutionModel {
    NotRequested,
    Unavailable(Seq<char>),
    Resolved(DeepFacts),
}

impl DeepView for DeepResolution {
    type V = DeepResolutionModel;

    open spec fn deep_view(&self) -> DeepResolutionModel {
        match self {
            DeepResolution::NotRequested => DeepResolutionModel::NotRequested,
            DeepResolution::Unavailable(x) => DeepResolutionModel::Unavailable(x.deep_view()),
            DeepResolution::Resolved(x) => DeepResolutionModel::Resolved(x.deep_view()),
        }
    }
}

impl Value for DeepResolution {
    fn replicate(&self) -> (r: Self) {
        match self {
            DeepResolution::NotRequested => DeepResolution::NotRequested,
            DeepResolution::Unavailable(x) => DeepResolution::Unavailable(x.replicate()),
            DeepResolution::Resolved(x) => DeepResolution::Resolved(x.replicate()),
        }
    }

    fn same_value(&self, other: &Self) -> (r: bool) {
        match (self, other) {
            (DeepResolution::NotRequested, DeepResolution::NotRequested) => true,
            (DeepResolution::Unavailable(x), DeepResolution::Unavailable(y)) => x.same_value(y),
            (DeepResolution::Resolved(x), DeepResolution::Resolved(y)) => x.same_value(y),
            _ => false,
        }
    }
}

/// A member with all that a decision on it rests on.
#[derive(Debug, PartialEq, Eq)]
pub struct MemberCandidate {
    pub id: MemberId,
    pub language: MemberLanguage,
    pub visibility: ClassMemberVisibility,
    pub kind: ClassMemberKind,
    pub directly_referenced: bool,
    pub framework_root: bool,
    pub class_exported: bool,
    pub class_escaped: bool,
    pub open_world: bool,
    pub receiver_targets_complete: bool,
    pub hazards: MemberHazards,
    pub inheritance: InheritanceFacts,
    pub deep_resolution: DeepResolution,
}

/// What a [`MemberCandidate`] holds.
pub struct MemberCandidateModel {
    pub id: MemberIdModel,
    pub language: MemberLanguage,
    pub visibility: ClassMemberVisibility,
    pub kind: ClassMemberKind,
    pub directly_referenced: bool,
    pub framework_root: bool,
    pub class_exported: bool,
    pub class_escaped: bool,
    pub open_world: bool,
    pub receiver_targets_complete: bool,
    pub hazards: MemberHazards,
    pub inheritance: InheritanceFacts,
    pub deep_resolution: DeepResolutionModel,
}

impl DeepView for MemberCandidate {
    type V = MemberCandidateModel;

    open spec fn deep_view(&self) -> MemberCandidateModel {
        MemberCandidateModel {
            id: self.id.deep_view(),
            language: self.language.deep_view(),
            visibility: self.visibility.deep_view(),
            kind: self.kind.deep_view(),
            directly_referenced: self.directly_referenced.deep_view(),
            framework_root: self.framework_root.deep_view(),
            class_exported: self.class_exported.deep_view(),
            class_escaped: self.class_escaped.deep_view(),
            open_world: self.open_world.deep_view(),
            receiver_targets_complete: self.receiver_targets_complete.deep_view(),
            hazards: self.hazards.deep_view(),
            inheritance: self.inheritance.deep_view(),
            deep_resolution: self.deep_resolution.deep_view(),
        }
    }
}

/// Why a member counts as unused.
#[derive(Debug, Clone, Copy, PartialEq, Eq, Structural)]
pub enum FindingEvidence {
    NoSemanticReference,
    JavaScriptPrivateIsLexicallyScoped,
    TypeScriptPrivateSurfaceDoesNotEscape,
    ClosedWorldClass,
    ClassDoesNotEscape,
    StaticReceiverIsExplicit,
    ReceiverTargetsComplete,
    OverrideRelationshipsComplete,
    DeepReceiverExcludesMember,
    DeepOverrideRelationshipsComplete,
}

impl DeepView for FindingEvidence {
    type V = FindingEvidence;

    open spec fn deep_view(&self) -> FindingEvidence {
        *self
    }
}

impl Value for FindingEvidence {
    fn replicate(&self) -> (r: Self) {
        *self
    }

    fn same_value(&self, other: &Self) -> (r: bool) {
        *self == *other
    }
}

/// Why a member is kept.
#[derive(Debug, Clone, Copy, PartialEq, Eq, Structural)]
pub enum RetentionReason {
    DirectReference,
    FrameworkContract,
    OpenWorldPublicSurface,
    EscapedPublicSurface,
    EscapedTypeScriptPrivateSurface,
    DecoratorContract,
    EmittedDecoratorMetadata,
    UnknownBracketAccess,
    ReflectionOrEnumeration,
    Serialization,
    ObjectSpread,
    Proxy,
    UnknownExternalCall,
    ExternalInterfaceContract,
    LiveBaseContract,
    LiveOverride,
    DeepReceiverReference,
    DeepLiveOverrideContract,
}

impl DeepView for RetentionReason {
    type V = RetentionReason;

    open spec fn deep_view(&self) -> RetentionReason {
        *self
    }
}

impl Value for RetentionReason {
    fn replicate(&self) -> (r: Self) {
        *self
    }

    fn same_value(&self, other: &Self) -> (r: bool) {
        *self == *other
    }
}

/// Why nothing is concluded of a member.
#[derive(Debug, Clone, Copy, PartialEq, Eq, Structural)]
pub enum DeferralReason {
    ModeDoesNotAnalyzeVisibility,
    ReceiverTargetsAmbiguous,
    OverrideRelationshipsIncomplete,
    DeepEvidenceMissing,
    DeepWorkerUnavailable,
}

impl DeepView for DeferralReason {
    type V = DeferralReason;

    open spec fn deep_view(&self) -> DeferralReason {
        *self
    }
}

impl Value for DeferralReason {
    fn replicate(&self) -> (r: Self) {
        *self
    }

    fn same_value(&self, other: &Self) -> (r: bool) {
        *self == *other
    }
}

/// That nothing is concluded of a member.
#[derive(Debug, PartialEq, Eq)]
pub struct MemberDeferral {
    pub reason: DeferralReason,
    pub capability_note: Option<String>,
}

/// What a [`MemberDeferral`] holds.
pub struct MemberDeferralModel {
    pub reason: DeferralReason,
    pub capability_note: Option<Seq<char>>,
}

impl DeepView for MemberDeferral {
    type V = MemberDeferralModel;

    open spec fn deep_view(&self) -> MemberDeferralModel {
        MemberDeferralModel {
            reason: self.reason.deep_view(),
            capability_note: self.capability_note.deep_view(),
        }
    }
}

impl Value for MemberDeferral {
    fn replicate(&self) -> (r: Self) {
        MemberDeferral {
            reason: self.reason.replicate(),
            capability_note: self.capability_note.replicate(),
        }
    }

    fn same_value(&self, other: &Self) -> (r: bool) {
        self.reason.same_value(&other.reason)
            && self.capability_note.same_value(&other.capability_note)
    }
}

/// What is concluded of a member.
#[derive(Debug, PartialEq, Eq)]
pub enum MemberDecision {
    Finding(Vec<FindingEvidence>),
    Retained(RetentionReason),
    Deferred(MemberDeferral),
}

/// What a [`MemberDecision`] holds.
pub enum MemberDecisionModel {
    Finding(Seq<FindingEvidence>),
    Retained(RetentionReason),
    Deferred(MemberDeferralModel),
}

impl DeepView for MemberDecision {
    type V = MemberDecisionModel;

    open spec fn deep_view(&self) -> MemberDecisionModel {
        match self {
            MemberDecision::Finding(x) => MemberDecisionModel::Finding(x.deep_view()),
            MemberDecision::Retained(x) => MemberDecisionModel::Retained(x.deep_view()),
            MemberDecision::Deferred(x) => MemberDecisionModel::Deferred(x.deep_view()),
        }
    }
}

/// Why a member counts as unused, in words.
pub open spec fn evidence_text(value: FindingEvidence) -> Seq<char> {
    match value {
        FindingEvidence::NoSemanticReference => "No semantic reference reaches the member"@,
        FindingEvidence::JavaScriptPrivateIsLexicallyScoped => "JavaScript private names are lexically scoped to their declaring class"@,
        FindingEvidence::TypeScriptPrivateSurfaceDoesNotEscape => "The TypeScript-private surface does not escape"@,
        FindingEvidence::ClosedWorldClass => "The declaring class is analyzed as closed world"@,
        FindingEvidence::ClassDoesNotEscape => "The declaring class does not escape"@,
        FindingEvidence::StaticReceiverIsExplicit => "Static receiver resolution is explicit"@,
        FindingEvidence::ReceiverTargetsComplete => "Receiver targets are complete"@,
        FindingEvidence::OverrideRelationshipsComplete => "Override relationships are complete"@,
        FindingEvidence::DeepReceiverExcludesMember => "Deep receiver analysis excludes this member"@,
        FindingEvidence::DeepOverrideRelationshipsComplete => "Deep override analysis found no live contract"@,
    }
}

/// Why a member counts as unused, in words.
pub fn member_evidence(value: FindingEvidence) -> (r: &'static str)
    ensures
        r@ == evidence_text(value),
{
    match value {
        FindingEvidence::NoSemanticReference => "No semantic reference reaches the member",
        FindingEvidence::JavaScriptPrivateIsLexicallyScoped => "JavaScript private names are lexically scoped to their declaring class",
        FindingEvidence::TypeScriptPrivateSurfaceDoesNotEscape => "The TypeScript-private surface does not escape",
        FindingEvidence::ClosedWorldClass => "The declaring class is analyzed as closed world",
        FindingEvidence::ClassDoesNotEscape => "The declaring class does not escape",
        FindingEvidence::StaticReceiverIsExplicit => "Static receiver resolution is explicit",
        FindingEvidence::ReceiverTargetsComplete => "Receiver targets are complete",
        FindingEvidence::OverrideRelationshipsComplete => "Override relationships are complete",
        FindingEvidence::DeepReceiverExcludesMember => "Deep receiver analysis excludes this member",
        FindingEvidence::DeepOverrideRelationshipsComplete => "Deep override analysis found no live contract",
    }
}

/// Why a member is kept, in words.
pub open spec fn retention_text(value: RetentionReason) -> Seq<char> {
    match value {
        RetentionReason::DirectReference => "A direct reference reaches the member"@,
        RetentionReason::FrameworkContract => "A framework contract retains the member"@,
        RetentionReason::OpenWorldPublicSurface => "The member belongs to an open public surface"@,
        RetentionReason::EscapedPublicSurface => "The public class surface escapes"@,
        RetentionReason::EscapedTypeScriptPrivateSurface => "The TypeScript-private class surface escapes at runtime"@,
        RetentionReason::DecoratorContract => "A decorator may observe the member"@,
        RetentionReason::EmittedDecoratorMetadata => "Emitted decorator metadata names the member"@,
        RetentionReason::UnknownBracketAccess => "A computed access may target the member"@,
        RetentionReason::ReflectionOrEnumeration => "Reflection or enumeration may observe it"@,
        RetentionReason::Serialization => "Serialization may observe the member"@,
        RetentionReason::ObjectSpread => "Object spread may copy the member"@,
        RetentionReason::Proxy => "A proxy may observe the member"@,
        RetentionReason::UnknownExternalCall => "Unknown external code may observe the member"@,
        RetentionReason::ExternalInterfaceContract => "An external interface requires the member"@,
        RetentionReason::LiveBaseContract => "A live base contract requires the override"@,
        RetentionReason::LiveOverride => "A live override depends on the member"@,
        RetentionReason::DeepReceiverReference => "Deep receiver analysis found a reference"@,
        RetentionReason::DeepLiveOverrideContract => "Deep analysis found a live override contract"@,
    }
}

/// Why a member is kept, in words.
pub fn member_retention_reason(value: RetentionReason) -> (r: &'static str)
    ensures
        r@ == retention_text(value),
{
    match value {
        RetentionReason::DirectReference => "A direct reference reaches the member",
        RetentionReason::FrameworkContract => "A framework contract retains the member",
        RetentionReason::OpenWorldPublicSurface => "The member belongs to an open public surface",
        RetentionReason::EscapedPublicSurface => "The public class surface escapes",
        RetentionReason::EscapedTypeScriptPrivateSurface => "The TypeScript-private class surface escapes at runtime",
        RetentionReason::DecoratorContract => "A decorator may observe the member",
        RetentionReason::EmittedDecoratorMetadata => "Emitted decorator metadata names the member",
        RetentionReason::UnknownBracketAccess => "A computed access may target the member",
        RetentionReason::ReflectionOrEnumeration => "Reflection or enumeration may observe it",
        RetentionReason::Serialization => "Serialization may observe the member",
        RetentionReason::ObjectSpread => "Object spread may copy the member",
        RetentionReason::Proxy => "A proxy may observe the member",
        RetentionReason::UnknownExternalCall => "Unknown external code may observe the member",
        RetentionReason::ExternalInterfaceContract => "An external interface requires the member",
        RetentionReason::LiveBaseContract => "A live base contract requires the override",
        RetentionReason::LiveOverride => "A live override depends on the member",
        RetentionReason::DeepReceiverReference => "Deep receiver analysis found a reference",
        RetentionReason::DeepLiveOverrideContract => "Deep analysis found a live override contract",
    }
}

/// Why nothing is concluded of a member, in words.
pub open spec fn deferral_text(value: DeferralReason) -> Seq<char> {
    match value {
        DeferralReason::ModeDoesNotAnalyzeVisibility => "the selected mode does not analyze this visibility"@,
        DeferralReason::ReceiverTargetsAmbiguous => "receiver targets are ambiguous"@,
        DeferralReason::OverrideRelationshipsIncomplete => "override relationships are incomplete"@,
        DeferralReason::DeepEvidenceMissing => "deep TypeScript evidence was not requested"@,
        DeferralReason::DeepWorkerUnavailable => "the deep TypeScript worker is unavailable"@,
    }
}

/// Why nothing is concluded of a member, in words.
pub fn member_deferral_reason(value: DeferralReason) -> (r: &'static str)
    ensures
        r@ == deferral_text(value),
{
    match value {
        DeferralReason::ModeDoesNotAnalyzeVisibility => "the selected mode does not analyze this visibility",
        DeferralReason::ReceiverTargetsAmbiguous => "receiver targets are ambiguous",
        DeferralReason::OverrideRelationshipsIncomplete => "override relationships are incomplete",
        DeferralReason::DeepEvidenceMissing => "deep TypeScript evidence was not requested",
        DeferralReason::DeepWorkerUnavailable => "the deep TypeScript worker is unavailable",
    }
}

/// What deep analysis says of a member in a mode.
pub open spec fn deep_answer(
    mode: AnalysisMode,
    answer: Option<DeepResolutionModel>,
) -> DeepResolutionModel {
    if mode == AnalysisMode::Deep {
        match answer {
            Some(resolution) => resolution,
            None => DeepResolutionModel::Unavailable(
                "TypeScript deep evidence was unavailable for this candidate"@,
            ),
        }
    } else {
        DeepResolutionModel::NotRequested
    }
}

fn choose_deep_answer(
    mode: AnalysisMode,
    deep_resolution: Option<&DeepResolution>,
) -> (r: DeepResolution)
    ensures
        r.deep_view() == deep_answer(mode, deep_resolution.deep_view()),
{
    if mode == AnalysisMode::Deep {
        match deep_resolution {
            Some(resolution) => resolution.replicate(),
            None => DeepResolution::Unavailable(
                "TypeScript deep evidence was unavailable for this candidate".to_string(),
            ),
        }
    } else {
        DeepResolution::NotRequested
    }
}

/// Ways in which a member can be used unseen.
pub open spec fn hazards_of(member: ClassMemberFactModel) -> MemberHazards {
    MemberHazards {
        decorated: member.decorated,
        emitted_decorator_metadata: member.emitted_decorator_metadata,
        unknown_bracket_access: member.unknown_bracket_access,
        reflected_or_enumerated: member.reflected_or_enumerated,
        serialized: member.serialized,
        object_spread: member.object_spread,
        proxied: member.proxied,
        passed_to_unknown_code: member.passed_to_unknown_code,
    }
}

fn member_hazards(member: &ClassMemberFact) -> (r: MemberHazards)
    ensures
        r == hazards_of(member.deep_view()),
{
    MemberHazards {
        decorated: member.decorated,
        emitted_decorator_metadata: member.emitted_decorator_metadata,
        unknown_bracket_access: member.unknown_bracket_access,
        reflected_or_enumerated: member.reflected_or_enumerated,
        serialized: member.serialized,
        object_spread: member.object_spread,
        proxied: member.proxied,
        passed_to_unknown_code: member.passed_to_unknown_code,
    }
}

/// What is known of the classes above and below.
pub open spec fn inheritance_of(member: ClassMemberFactModel) -> InheritanceFacts {
    InheritanceFacts {
        participates_in_inheritance: member.participates_in_inheritance,
        relationships_complete: member.relationships_complete,
        overrides_live_base_member: member.overrides_live_base_member,
        has_live_override: member.has_live_override,
        implements_external_contract: member.implements_external_contract,
    }
}

fn inheritance_facts(member: &ClassMemberFact) -> (r: InheritanceFacts)
    ensures
        r == inheritance_of(member.deep_view()),
{
    InheritanceFacts {
        participates_in_inheritance: member.participates_in_inheritance,
        relationships_complete: member.relationships_complete,
        overrides_live_base_member: member.overrides_live_base_member,
        has_live_override: member.has_live_override,
        implements_external_contract: member.implements_external_contract,
    }
}

/// All that a decision on a member rests on.
pub open spec fn candidate_of(
    member: ClassMemberFactModel,
    source_kind: SourceKind,
    open_world: bool,
    mode: AnalysisMode,
    answer: Option<DeepResolutionModel>,
) -> MemberCandidateModel {
    MemberCandidateModel {
        id: MemberIdModel {
            declaring_class: member.declaring_class,
            name: member.name,
            scope: if member.is_static {
                MemberScope::Static
            } else {
                MemberScope::Instance
            },
        },
        language: if source_kind == SourceKind::TypeScript || source_kind == SourceKind::Tsx {
            MemberLanguage::TypeScript
        } else {
            MemberLanguage::JavaScript
        },
        visibility: member.visibility,
        kind: member.kind,
        directly_referenced: member.directly_referenced,
        framework_root: false,
        class_exported: member.class_exported,
        class_escaped: member.class_escaped,
        open_world,
        receiver_targets_complete: member.is_static || member.visibility
            == ClassMemberVisibility::JavaScriptPrivate,
        hazards: hazards_of(member),
        inheritance: inheritance_of(member),
        deep_resolution: deep_answer(mode, answer),
    }
}

/// All that a decision on a member rests on.
#[must_use]
pub fn member_candidate(
    member: &ClassMemberFact,
    source_kind: SourceKind,
    open_world: bool,
    mode: AnalysisMode,
    deep_resolution: Option<&DeepResolution>,
) -> (r: MemberCandidate)
    ensures
        r.deep_view() == candidate_of(
            member.deep_view(),
            source_kind,
            open_world,
            mode,
            deep_resolution.deep_view(),
        ),
{
    let typescript: bool = source_kind == SourceKind::TypeScript || source_kind == SourceKind::Tsx;
    MemberCandidate {
        id: MemberId {
            declaring_class: member.declaring_class.replicate(),
            name: member.name.replicate(),
            scope: if member.is_static {
                MemberScope::Static
            } else {
                MemberScope::Instance
            },
        },
        language: if typescript {
            MemberLanguage::TypeScript
        } else {
            MemberLanguage::JavaScript
        },
        visibility: member.visibility,
        kind: member.kind,
        directly_referenced: member.directly_referenced,
        framework_root: false,
        class_exported: member.class_exported,
        class_escaped: member.class_escaped,
        open_world,
        receiver_targets_complete: member.is_static || member.visibility
            == ClassMemberVisibility::JavaScriptPrivate,
        hazards: member_hazards(member),
        inheritance: inheritance_facts(member),
        deep_resolution: choose_deep_answer(mode, deep_resolution),
    }
}

} // verus!
