//! Which package scripts run, and what they say.

use crate::collections::{
    ascending, ascending_is_unique, collected_is_ordered, keys_of, lookup, lookup_finds, rank_of_splits,
    with_item_ascending, with_item_contains, with_items, with_items_is_ordered, OrderedMap,
    OrderedSet,
};
use crate::discovery::segments::{
    analyze_segment, analyzed_segment, no_contribution, ScriptReference, ScriptReferenceModel,
    SegmentContribution, SegmentContributionModel,
};
use crate::discovery::tokenizer::{
    tokenize_script, tokenized, ScriptSpan, TokenizedScript, UnmodeledScriptKind,
};
use crate::text::concat2;
use crate::values::{push_item, Ordered, Value};
use vstd::prelude::*;

verus! {

/// A part of a script that is not modeled.
#[derive(Debug, PartialEq, Eq)]
pub struct UnmodeledScriptSpan {
    pub script: String,
    pub span: ScriptSpan,
    pub kind: UnmodeledScriptKind,
}

/// What a [`UnmodeledScriptSpan`] holds.
pub struct UnmodeledScriptSpanModel {
    pub script: Seq<char>,
    pub span: ScriptSpan,
    pub kind: UnmodeledScriptKind,
}

impl DeepView for UnmodeledScriptSpan {
    type V = UnmodeledScriptSpanModel;

    open spec fn deep_view(&self) -> UnmodeledScriptSpanModel {
        UnmodeledScriptSpanModel {
            script: self.script.deep_view(),
            span: self.span.deep_view(),
            kind: self.kind.deep_view(),
        }
    }
}

impl Value for UnmodeledScriptSpan {
    fn replicate(&self) -> (r: Self) {
        UnmodeledScriptSpan {
            script: self.script.replicate(),
            span: self.span.replicate(),
            kind: self.kind.replicate(),
        }
    }

    fn same_value(&self, other: &Self) -> (r: bool) {
        self.script.same_value(&other.script)
            && self.span.same_value(&other.span)
            && self.kind.same_value(&other.kind)
    }
}

impl Ordered for UnmodeledScriptSpan {
    open spec fn before(a: UnmodeledScriptSpanModel, b: UnmodeledScriptSpanModel) -> bool {
        <String as Ordered>::before(a.script, b.script) || (a.script == b.script && (<ScriptSpan as Ordered>::before(a.span, b.span) || (a.span == b.span && (<UnmodeledScriptKind as Ordered>::before(a.kind, b.kind)))))
    }

    fn is_before(&self, other: &Self) -> (r: bool) {
        self.script.is_before(&other.script) || (self.script.same_value(&other.script) && (self.span.is_before(&other.span) || (self.span.same_value(&other.span) && (self.kind.is_before(&other.kind)))))
    }

    proof fn before_irreflexive(a: UnmodeledScriptSpanModel) {
        <String as Ordered>::before_irreflexive(a.script);
        <ScriptSpan as Ordered>::before_irreflexive(a.span);
        <UnmodeledScriptKind as Ordered>::before_irreflexive(a.kind);
    }

    proof fn before_transitive(
        a: UnmodeledScriptSpanModel,
        b: UnmodeledScriptSpanModel,
        c: UnmodeledScriptSpanModel,
    ) {
        if <String as Ordered>::before(a.script, b.script) && <String as Ordered>::before(b.script, c.script) {
            <String as Ordered>::before_transitive(a.script, b.script, c.script);
        }
        if <ScriptSpan as Ordered>::before(a.span, b.span) && <ScriptSpan as Ordered>::before(b.span, c.span) {
            <ScriptSpan as Ordered>::before_transitive(a.span, b.span, c.span);
        }
        if <UnmodeledScriptKind as Ordered>::before(a.kind, b.kind) && <UnmodeledScriptKind as Ordered>::before(b.kind, c.kind) {
            <UnmodeledScriptKind as Ordered>::before_transitive(a.kind, b.kind, c.kind);
        }
    }

    proof fn before_total(a: UnmodeledScriptSpanModel, b: UnmodeledScriptSpanModel) {
        <String as Ordered>::before_total(a.script, b.script);
        <ScriptSpan as Ordered>::before_total(a.span, b.span);
        <UnmodeledScriptKind as Ordered>::before_total(a.kind, b.kind);
    }
}

/// How one script comes to run another.
#[derive(Debug, Clone, Copy, PartialEq, Eq, Structural)]
pub enum ScriptCallKind {
    Explicit,
    Lifecycle,
}

impl DeepView for ScriptCallKind {
    type V = ScriptCallKind;

    open spec fn deep_view(&self) -> ScriptCallKind {
        *self
    }
}

impl Value for ScriptCallKind {
    fn replicate(&self) -> (r: Self) {
        *self
    }

    fn same_value(&self, other: &Self) -> (r: bool) {
        *self == *other
    }
}

impl ScriptCallKind {
    /// The place of the variant in the order of the type.
    pub open spec fn place(self) -> nat {
        match self {
            ScriptCallKind::Explicit => 0,
            ScriptCallKind::Lifecycle => 1,
        }
    }

    fn place_of(&self) -> (r: u8)
        ensures
            r == self.place(),
    {
        match self {
            ScriptCallKind::Explicit => 0,
            ScriptCallKind::Lifecycle => 1,
        }
    }
}

impl Ordered for ScriptCallKind {
    open spec fn before(a: ScriptCallKind, b: ScriptCallKind) -> bool {
        a.place() < b.place()
    }

    fn is_before(&self, other: &Self) -> (r: bool) {
        self.place_of() < other.place_of()
    }

    proof fn before_irreflexive(a: ScriptCallKind) {
    }

    proof fn before_transitive(a: ScriptCallKind, b: ScriptCallKind, c: ScriptCallKind) {
    }

    proof fn before_total(a: ScriptCallKind, b: ScriptCallKind) {
    }
}

/// One script runs another.
#[derive(Debug, PartialEq, Eq)]
pub struct ScriptCall {
    pub caller: String,
    pub callee: String,
    pub kind: ScriptCallKind,
    pub span: Option<ScriptSpan>,
}

/// What a [`ScriptCall`] holds.
pub struct ScriptCallModel {
    pub caller: Seq<char>,
    pub callee: Seq<char>,
    pub kind: ScriptCallKind,
    pub span: Option<ScriptSpan>,
}

impl DeepView for ScriptCall {
    type V = ScriptCallModel;

    open spec fn deep_view(&self) -> ScriptCallModel {
        ScriptCallModel {
            caller: self.caller.deep_view(),
            callee: self.callee.deep_view(),
            kind: self.kind.deep_view(),
            span: self.span.deep_view(),
        }
    }
}

impl Value for ScriptCall {
    fn replicate(&self) -> (r: Self) {
        ScriptCall {
            caller: self.caller.replicate(),
            callee: self.callee.replicate(),
            kind: self.kind.replicate(),
            span: self.span.replicate(),
        }
    }

    fn same_value(&self, other: &Self) -> (r: bool) {
        self.caller.same_value(&other.caller)
            && self.callee.same_value(&other.callee)
            && self.kind.same_value(&other.kind)
            && self.span.same_value(&other.span)
    }
}

impl Ordered for ScriptCall {
    open spec fn before(a: ScriptCallModel, b: ScriptCallModel) -> bool {
        <String as Ordered>::before(a.caller, b.caller) || (a.caller == b.caller && (<String as Ordered>::before(a.callee, b.callee) || (a.callee == b.callee && (<ScriptCallKind as Ordered>::before(a.kind, b.kind) || (a.kind == b.kind && (<Option<ScriptSpan> as Ordered>::before(a.span, b.span)))))))
    }

    fn is_before(&self, other: &Self) -> (r: bool) {
        self.caller.is_before(&other.caller) || (self.caller.same_value(&other.caller) && (self.callee.is_before(&other.callee) || (self.callee.same_value(&other.callee) && (self.kind.is_before(&other.kind) || (self.kind.same_value(&other.kind) && (self.span.is_before(&other.span)))))))
    }

    proof fn before_irreflexive(a: ScriptCallModel) {
        <String as Ordered>::before_irreflexive(a.caller);
        <String as Ordered>::before_irreflexive(a.callee);
        <ScriptCallKind as Ordered>::before_irreflexive(a.kind);
        <Option<ScriptSpan> as Ordered>::before_irreflexive(a.span);
    }

    proof fn before_transitive(a: ScriptCallModel, b: ScriptCallModel, c: ScriptCallModel) {
        if <String as Ordered>::before(a.caller, b.caller) && <String as Ordered>::before(b.caller, c.caller) {
            <String as Ordered>::before_transitive(a.caller, b.caller, c.caller);
        }
        if <String as Ordered>::before(a.callee, b.callee) && <String as Ordered>::before(b.callee, c.callee) {
            <String as Ordered>::before_transitive(a.callee, b.callee, c.callee);
        }
        if <ScriptCallKind as Ordered>::before(a.kind, b.kind) && <ScriptCallKind as Ordered>::before(b.kind, c.kind) {
            <ScriptCallKind as Ordered>::before_transitive(a.kind, b.kind, c.kind);
        }
        if <Option<ScriptSpan> as Ordered>::before(a.span, b.span) && <Option<ScriptSpan> as Ordered>::before(b.span, c.span) {
            <Option<ScriptSpan> as Ordered>::before_transitive(a.span, b.span, c.span);
        }
    }

    proof fn before_total(a: ScriptCallModel, b: ScriptCallModel) {
        <String as Ordered>::before_total(a.caller, b.caller);
        <String as Ordered>::before_total(a.callee, b.callee);
        <ScriptCallKind as Ordered>::before_total(a.kind, b.kind);
        <Option<ScriptSpan> as Ordered>::before_total(a.span, b.span);
    }
}

/// A script that is asked for and not declared.
#[derive(Debug, PartialEq, Eq)]
pub struct MissingScriptReference {
    pub caller: String,
    pub callee: String,
    pub span: Option<ScriptSpan>,
}

/// What a [`MissingScriptReference`] holds.
pub struct MissingScriptReferenceModel {
    pub caller: Seq<char>,
    pub callee: Seq<char>,
    pub span: Option<ScriptSpan>,
}

impl DeepView for MissingScriptReference {
    type V = MissingScriptReferenceModel;

    open spec fn deep_view(&self) -> MissingScriptReferenceModel {
        MissingScriptReferenceModel {
            caller: self.caller.deep_view(),
            callee: self.callee.deep_view(),
            span: self.span.deep_view(),
        }
    }
}

impl Value for MissingScriptReference {
    fn replicate(&self) -> (r: Self) {
        MissingScriptReference {
            caller: self.caller.replicate(),
            callee: self.callee.replicate(),
            span: self.span.replicate(),
        }
    }

    fn same_value(&self, other: &Self) -> (r: bool) {
        self.caller.same_value(&other.caller)
            && self.callee.same_value(&other.callee)
            && self.span.same_value(&other.span)
    }
}

impl Ordered for MissingScriptReference {
    open spec fn before(a: MissingScriptReferenceModel, b: MissingScriptReferenceModel) -> bool {
        <String as Ordered>::before(a.caller, b.caller) || (a.caller == b.caller && (<String as Ordered>::before(a.callee, b.callee) || (a.callee == b.callee && (<Option<ScriptSpan> as Ordered>::before(a.span, b.span)))))
    }

    fn is_before(&self, other: &Self) -> (r: bool) {
        self.caller.is_before(&other.caller) || (self.caller.same_value(&other.caller) && (self.callee.is_before(&other.callee) || (self.callee.same_value(&other.callee) && (self.span.is_before(&other.span)))))
    }

    proof fn before_irreflexive(a: MissingScriptReferenceModel) {
        <String as Ordered>::before_irreflexive(a.caller);
        <String as Ordered>::before_irreflexive(a.callee);
        <Option<ScriptSpan> as Ordered>::before_irreflexive(a.span);
    }

    proof fn before_transitive(
        a: MissingScriptReferenceModel,
        b: MissingScriptReferenceModel,
        c: MissingScriptReferenceModel,
    ) {
        if <String as Ordered>::before(a.caller, b.caller) && <String as Ordered>::before(b.caller, c.caller) {
            <String as Ordered>::before_transitive(a.caller, b.caller, c.caller);
        }
        if <String as Ordered>::before(a.callee, b.callee) && <String as Ordered>::before(b.callee, c.callee) {
            <String as Ordered>::before_transitive(a.callee, b.callee, c.callee);
        }
        if <Option<ScriptSpan> as Ordered>::before(a.span, b.span) && <Option<ScriptSpan> as Ordered>::before(b.span, c.span) {
            <Option<ScriptSpan> as Ordered>::before_transitive(a.span, b.span, c.span);
        }
    }

    proof fn before_total(a: MissingScriptReferenceModel, b: MissingScriptReferenceModel) {
        <String as Ordered>::before_total(a.caller, b.caller);
        <String as Ordered>::before_total(a.callee, b.callee);
        <Option<ScriptSpan> as Ordered>::before_total(a.span, b.span);
    }
}

/// What the reachable scripts of a package say.
#[derive(Debug, PartialEq, Eq)]
pub struct ScriptAnalysis {
    pub reachable_scripts: Vec<String>,
    pub calls: Vec<ScriptCall>,
    pub references: Vec<ScriptReference>,
    pub missing_scripts: Vec<MissingScriptReference>,
    pub unmodeled: Vec<UnmodeledScriptSpan>,
}

/// What a [`ScriptAnalysis`] holds.
pub struct ScriptAnalysisModel {
    pub reachable_scripts: Seq<Seq<char>>,
    pub calls: Seq<ScriptCallModel>,
    pub references: Seq<ScriptReferenceModel>,
    pub missing_scripts: Seq<MissingScriptReferenceModel>,
    pub unmodeled: Seq<UnmodeledScriptSpanModel>,
}

impl DeepView for ScriptAnalysis {
    type V = ScriptAnalysisModel;

    open spec fn deep_view(&self) -> ScriptAnalysisModel {
        ScriptAnalysisModel {
            reachable_scripts: self.reachable_scripts.deep_view(),
            calls: self.calls.deep_view(),
            references: self.references.deep_view(),
            missing_scripts: self.missing_scripts.deep_view(),
            unmodeled: self.unmodeled.deep_view(),
        }
    }
}

impl Value for ScriptAnalysis {
    fn replicate(&self) -> (r: Self) {
        ScriptAnalysis {
            reachable_scripts: self.reachable_scripts.replicate(),
            calls: self.calls.replicate(),
            references: self.references.replicate(),
            missing_scripts: self.missing_scripts.replicate(),
            unmodeled: self.unmodeled.replicate(),
        }
    }

    fn same_value(&self, other: &Self) -> (r: bool) {
        self.reachable_scripts.same_value(&other.reachable_scripts)
            && self.calls.same_value(&other.calls)
            && self.references.same_value(&other.references)
            && self.missing_scripts.same_value(&other.missing_scripts)
            && self.unmodeled.same_value(&other.unmodeled)
    }
}

/// Package scripts by name.
pub type Scripts = Seq<(Seq<char>, Seq<char>)>;

/// Whether a script of this name is declared.
pub open spec fn declared(scripts: Scripts, name: Seq<char>) -> bool {
    lookup(scripts, name) is Some
}

/// Whether two spans share a byte.
pub open spec fn overlap(left: ScriptSpan, right: ScriptSpan) -> bool {
    left.start < right.end && right.start < left.end
}

fn spans_overlap(left: ScriptSpan, right: ScriptSpan) -> (r: bool)
    ensures
        r == overlap(left, right),
{
    left.start < right.end && right.start < left.end
}

/// Whether segment `k` of `source` has no unmodeled part.
pub open spec fn modeled(source: Seq<char>, k: int) -> bool {
    let t = tokenized(source);
    &&& 0 <= k < t.segments.len()
    &&& forall|i: int|
        0 <= i < t.unmodeled.len() ==> !overlap((#[trigger] t.unmodeled[i]).0, t.segments[k].span)
}

/// What segment `k` of `source` contributes to `script`.
pub open spec fn facts(script: Seq<char>, source: Seq<char>, k: int) -> SegmentContributionModel {
    analyzed_segment(script, tokenized(source).segments[k], 0, no_contribution())
}

/// One of the first `n` segments refers to `r`.
pub open spec fn refers_within(
    script: Seq<char>,
    source: Seq<char>,
    n: int,
    r: ScriptReferenceModel,
) -> bool {
    exists|k: int|
        k < n && #[trigger] modeled(source, k) && facts(script, source, k).references.contains(r)
}

/// One of the first `n` segments runs `callee`.
pub open spec fn runs_within(
    script: Seq<char>,
    source: Seq<char>,
    n: int,
    callee: Seq<char>,
    span: ScriptSpan,
) -> bool {
    exists|k: int|
        k < n && #[trigger] modeled(source, k) && facts(script, source, k).nested_scripts.contains(
            (callee, span),
        )
}

/// One of the first `n` segments has a part that is not modeled although its words are.
pub open spec fn defers_within(
    script: Seq<char>,
    source: Seq<char>,
    n: int,
    span: ScriptSpan,
    kind: UnmodeledScriptKind,
) -> bool {
    exists|k: int|
        k < n && #[trigger] modeled(source, k) && facts(script, source, k).unmodeled.contains(
            (span, kind),
        )
}

/// Whether the script refers to `r`.
pub open spec fn refers(scripts: Scripts, script: Seq<char>, r: ScriptReferenceModel) -> bool {
    &&& declared(scripts, script)
    &&& refers_within(
        script,
        lookup(scripts, script)->0,
        tokenized(lookup(scripts, script)->0).segments.len() as int,
        r,
    )
}

/// Whether the script runs `callee` by name at `span`.
pub open spec fn runs(
    scripts: Scripts,
    script: Seq<char>,
    callee: Seq<char>,
    span: ScriptSpan,
) -> bool {
    &&& declared(scripts, script)
    &&& runs_within(
        script,
        lookup(scripts, script)->0,
        tokenized(lookup(scripts, script)->0).segments.len() as int,
        callee,
        span,
    )
}

/// Whether a part of the script is not modeled.
pub open spec fn defers(
    scripts: Scripts,
    script: Seq<char>,
    span: ScriptSpan,
    kind: UnmodeledScriptKind,
) -> bool {
    let source = lookup(scripts, script)->0;
    &&& declared(scripts, script)
    &&& tokenized(source).unmodeled.contains((span, kind)) || defers_within(
        script,
        source,
        tokenized(source).segments.len() as int,
        span,
        kind,
    )
}

/// Whether `callee` is the `pre` or `post` hook of `caller`.
pub open spec fn hook(scripts: Scripts, caller: Seq<char>, callee: Seq<char>) -> bool {
    &&& callee == "pre"@ + caller || callee == "post"@ + caller
    &&& callee != caller
    &&& declared(scripts, callee)
}

/// Whether one script runs another in this way.
pub open spec fn is_call(scripts: Scripts, call: ScriptCallModel) -> bool {
    match call.kind {
        ScriptCallKind::Lifecycle => call.span is None && hook(scripts, call.caller, call.callee),
        ScriptCallKind::Explicit => call.span is Some && runs(
            scripts,
            call.caller,
            call.callee,
            call.span->0,
        ),
    }
}

/// Whether running `caller` runs the declared script `callee`.
pub open spec fn leads_to(scripts: Scripts, caller: Seq<char>, callee: Seq<char>) -> bool {
    declared(scripts, callee) && exists|call: ScriptCallModel|
        #[trigger] is_call(scripts, call) && call.caller == caller && call.callee == callee
}

/// Whether a script is invoked from outside: an empty list of roots stands for all.
pub open spec fn is_root(scripts: Scripts, roots: Seq<Seq<char>>, name: Seq<char>) -> bool {
    declared(scripts, name) && (roots.len() == 0 || roots.contains(name))
}

/// Whether `path` leads from a root to its last script, call by call.
pub open spec fn call_path(scripts: Scripts, roots: Seq<Seq<char>>, path: Seq<Seq<char>>) -> bool {
    &&& path.len() > 0
    &&& is_root(scripts, roots, path[0])
    &&& forall|i: int| 0 <= i < path.len() - 1 ==> leads_to(scripts, #[trigger] path[i], path[i + 1])
}

/// Whether a script runs when the roots are invoked.
pub open spec fn script_runs(scripts: Scripts, roots: Seq<Seq<char>>, name: Seq<char>) -> bool {
    exists|path: Seq<Seq<char>>| #[trigger] call_path(scripts, roots, path) && path.last() == name
}

/// Whether a script is asked for and not declared.
pub open spec fn is_missing(
    scripts: Scripts,
    roots: Seq<Seq<char>>,
    m: MissingScriptReferenceModel,
) -> bool {
    &&& !declared(scripts, m.callee)
    &&& ({
        ||| m.caller == "<root>"@ && m.span is None && roots.contains(m.callee)
        ||| m.span is Some && script_runs(scripts, roots, m.caller) && runs(
            scripts,
            m.caller,
            m.callee,
            m.span->0,
        )
    })
}

/// What the analysis of `scripts` from `roots` says: each list is in order, without repetition,
/// and holds exactly what the running scripts contribute.
pub open spec fn analysis_of(
    scripts: Scripts,
    roots: Seq<Seq<char>>,
    a: ScriptAnalysisModel,
) -> bool {
    &&& ascending::<String>(a.reachable_scripts)
    &&& forall|n: Seq<char>| #[trigger]
        a.reachable_scripts.contains(n) <==> script_runs(scripts, roots, n)
    &&& ascending::<ScriptCall>(a.calls)
    &&& forall|c: ScriptCallModel| #[trigger]
        a.calls.contains(c) <==> script_runs(scripts, roots, c.caller) && is_call(scripts, c)
    &&& ascending::<ScriptReference>(a.references)
    &&& forall|r: ScriptReferenceModel| #[trigger]
        a.references.contains(r) <==> exists|n: Seq<char>|
            script_runs(scripts, roots, n) && #[trigger] refers(scripts, n, r)
    &&& ascending::<MissingScriptReference>(a.missing_scripts)
    &&& forall|m: MissingScriptReferenceModel| #[trigger]
        a.missing_scripts.contains(m) <==> is_missing(scripts, roots, m)
    &&& ascending::<UnmodeledScriptSpan>(a.unmodeled)
    &&& forall|u: UnmodeledScriptSpanModel| #[trigger]
        a.unmodeled.contains(u) <==> script_runs(scripts, roots, u.script) && defers(
            scripts,
            u.script,
            u.span,
            u.kind,
        )
}

struct ScriptWork {
    queue: Vec<String>,
    calls: OrderedSet<ScriptCall>,
    references: OrderedSet<ScriptReference>,
    missing: OrderedSet<MissingScriptReference>,
    unmodeled: OrderedSet<UnmodeledScriptSpan>,
}

impl ScriptWork {
    spec fn ordered(&self) -> bool {
        &&& ascending::<ScriptCall>(self.calls.deep_view())
        &&& ascending::<ScriptReference>(self.references.deep_view())
        &&& ascending::<MissingScriptReference>(self.missing.deep_view())
        &&& ascending::<UnmodeledScriptSpan>(self.unmodeled.deep_view())
    }
}

/// The queue holds what it held, and otherwise only scripts that `caller` leads to.
spec fn queue_grown(
    scripts: Scripts,
    caller: Seq<char>,
    old_queue: Seq<Seq<char>>,
    new_queue: Seq<Seq<char>>,
) -> bool {
    &&& old_queue.is_prefix_of(new_queue)
    &&& forall|i: int|
        old_queue.len() <= i < new_queue.len() ==> leads_to(
            scripts,
            caller,
            #[trigger] new_queue[i],
        )
}

proof fn queue_grown_push(
    scripts: Scripts,
    caller: Seq<char>,
    old_queue: Seq<Seq<char>>,
    new_queue: Seq<Seq<char>>,
    callee: Seq<char>,
)
    requires
        queue_grown(scripts, caller, old_queue, new_queue),
        leads_to(scripts, caller, callee),
    ensures
        queue_grown(scripts, caller, old_queue, new_queue.push(callee)),
        new_queue.push(callee).contains(callee),
        forall|n: Seq<char>| #[trigger] new_queue.contains(n) ==> new_queue.push(callee).contains(n),
{
    let q = new_queue.push(callee);
    assert(old_queue =~= q.subrange(0, old_queue.len() as int)) by {
        assert(old_queue =~= new_queue.subrange(0, old_queue.len() as int));
    }
    assert(q[new_queue.len() as int] == callee);
    assert forall|i: int| old_queue.len() <= i < q.len() implies leads_to(
        scripts,
        caller,
        #[trigger] q[i],
    ) by {
        if i < new_queue.len() {
            assert(q[i] == new_queue[i]);
        }
    }
    assert forall|n: Seq<char>| #[trigger] new_queue.contains(n) implies q.contains(n) by {
        let i = choose|i: int| 0 <= i < new_queue.len() && new_queue[i] == n;
        assert(q[i] == n);
    }
}

/// Queues the hook of a script, and notes the call.
fn schedule_lifecycle_script(
    scripts: &OrderedMap<String, String>,
    script_name: &str,
    prefix: &str,
    work: &mut ScriptWork,
)
    requires
        old(work).ordered(),
        prefix@ == "pre"@ || prefix@ == "post"@,
    ensures
        final(work).ordered(),
        final(work).references == old(work).references,
        final(work).missing == old(work).missing,
        final(work).unmodeled == old(work).unmodeled,
        queue_grown(
            scripts.deep_view(),
            script_name@,
            old(work).queue.deep_view(),
            final(work).queue.deep_view(),
        ),
        forall|n: Seq<char>| #[trigger]
            old(work).queue.deep_view().contains(n) ==> final(work).queue.deep_view().contains(n),
        hook(scripts.deep_view(), script_name@, prefix@ + script_name@) ==> final(work).queue.deep_view().contains(prefix@ + script_name@),
        forall|c: ScriptCallModel| #[trigger]
            final(work).calls.deep_view().contains(c) <==> old(work).calls.deep_view().contains(c)
                || (c.caller == script_name@ && c.callee == prefix@ + script_name@ && c.kind
                == ScriptCallKind::Lifecycle && is_call(scripts.deep_view(), c)),
{
    let lifecycle_name = concat2(prefix, script_name);
    let ghost calls = work.calls.deep_view();
    let ghost queue = work.queue.deep_view();
    assert(queue =~= queue.subrange(0, queue.len() as int));
    assert(queue_grown(scripts.deep_view(), script_name@, queue, queue));
    if crate::text::same(&lifecycle_name, script_name) || !scripts.contains_key(&lifecycle_name) {
        return ;
    }
    let call = ScriptCall {
        caller: script_name.to_owned(),
        callee: lifecycle_name.clone(),
        kind: ScriptCallKind::Lifecycle,
        span: None,
    };
    proof {
        let c = call.deep_view();
        assert(is_call(scripts.deep_view(), c));
        assert(leads_to(scripts.deep_view(), script_name@, lifecycle_name@));
        with_item_contains::<ScriptCall>(calls, c);
        with_item_ascending::<ScriptCall>(calls, c);
        queue_grown_push(scripts.deep_view(), script_name@, queue, queue, lifecycle_name@);
    }
    work.calls.insert(call);
    push_item(&mut work.queue, lifecycle_name);
}

/// Takes over what one segment contributes.
fn take_segment(
    scripts: &OrderedMap<String, String>,
    script_name: &str,
    source: &str,
    tokens: &TokenizedScript,
    k: usize,
    work: &mut ScriptWork,
)
    requires
        old(work).ordered(),
        tokens.deep_view() == tokenized(source@),
        lookup(scripts.deep_view(), script_name@) == Some(source@),
        modeled(source@, k as int),
    ensures
        final(work).ordered(),
        queue_grown(
            scripts.deep_view(),
            script_name@,
            old(work).queue.deep_view(),
            final(work).queue.deep_view(),
        ),
        forall|n: Seq<char>| #[trigger]
            old(work).queue.deep_view().contains(n) ==> final(work).queue.deep_view().contains(n),
        forall|n: Seq<char>, span: ScriptSpan| #[trigger]
            facts(script_name@, source@, k as int).nested_scripts.contains((n, span)) && declared(
                scripts.deep_view(),
                n,
            ) ==> final(work).queue.deep_view().contains(n),
        forall|c: ScriptCallModel| #[trigger]
            final(work).calls.deep_view().contains(c) <==> old(work).calls.deep_view().contains(c)
                || (c.caller == script_name@ && c.kind == ScriptCallKind::Explicit && c.span is Some
                && facts(script_name@, source@, k as int).nested_scripts.contains(
                (c.callee, c.span->0),
            )),
        forall|r: ScriptReferenceModel| #[trigger]
            final(work).references.deep_view().contains(r) <==> old(work).references.deep_view().contains(r) || facts(
                script_name@,
                source@,
                k as int,
            ).references.contains(r),
        forall|m: MissingScriptReferenceModel| #[trigger]
            final(work).missing.deep_view().contains(m) <==> old(work).missing.deep_view().contains(
                m,
            ) || (m.caller == script_name@ && m.span is Some && !declared(
                scripts.deep_view(),
                m.callee,
            ) && facts(script_name@, source@, k as int).nested_scripts.contains(
                (m.callee, m.span->0),
            )),
        forall|u: UnmodeledScriptSpanModel| #[trigger]
            final(work).unmodeled.deep_view().contains(u) <==> old(work).unmodeled.deep_view().contains(u) || (u.script == script_name@ && facts(
                script_name@,
                source@,
                k as int,
            ).unmodeled.contains((u.span, u.kind))),
{
    let ghost model = scripts.deep_view();
    let ghost start = *work;
    let ghost f = facts(script_name@, source@, k as int);
    assert(tokens.deep_view().segments[k as int] == tokens.segments@[k as int].deep_view());
    let mut contribution = SegmentContribution::new();
    analyze_segment(script_name, &tokens.segments[k], 0, &mut contribution);
    assert(contribution.deep_view() == f);

    proof {
        with_items_is_ordered::<ScriptReference>(work.references.deep_view(), f.references);
    }
    work.references.extend(contribution.references.items());

    let mut i: usize = 0;
    while i < contribution.unmodeled.items().len()
        invariant
            i <= contribution.unmodeled.items().len(),
            contribution.deep_view() == f,
            work.ordered(),
            work.queue == start.queue,
            work.calls == start.calls,
            work.missing == start.missing,
            work.references.deep_view() == with_items::<ScriptReference>(
                start.references.deep_view(),
                f.references,
            ),
            forall|u: UnmodeledScriptSpanModel| #[trigger]
                work.unmodeled.deep_view().contains(u) <==> start.unmodeled.deep_view().contains(u)
                    || (u.script == script_name@ && f.unmodeled.take(i as int).contains(
                    (u.span, u.kind),
                )),
        decreases contribution.unmodeled.items().len() - i,
    {
        let (span, kind) = contribution.unmodeled.items()[i];
        let part = UnmodeledScriptSpan { script: script_name.to_owned(), span, kind };
        proof {
            with_item_contains::<UnmodeledScriptSpan>(work.unmodeled.deep_view(), part.deep_view());
            with_item_ascending::<UnmodeledScriptSpan>(
                work.unmodeled.deep_view(),
                part.deep_view(),
            );
            assert(f.unmodeled[i as int] == (span, kind));
            take_contains(f.unmodeled, i as int);
        }
        work.unmodeled.insert(part);
        i = i + 1;
    }
    assert(f.unmodeled.take(i as int) =~= f.unmodeled);

    let ghost middle = *work;
    let mut j: usize = 0;
    proof {
        let q = start.queue.deep_view();
        assert(q =~= q.subrange(0, q.len() as int));
    }
    while j < contribution.nested_scripts.items().len()
        invariant
            j <= contribution.nested_scripts.items().len(),
            contribution.deep_view() == f,
            f == facts(script_name@, source@, k as int),
            model == scripts.deep_view(),
            lookup(model, script_name@) == Some(source@),
            modeled(source@, k as int),
            work.ordered(),
            work.references == middle.references,
            work.unmodeled == middle.unmodeled,
            queue_grown(
                model,
                script_name@,
                start.queue.deep_view(),
                work.queue.deep_view(),
            ),
            forall|n: Seq<char>| #[trigger]
                start.queue.deep_view().contains(n) ==> work.queue.deep_view().contains(n),
            forall|n: Seq<char>, span: ScriptSpan| #[trigger]
                f.nested_scripts.take(j as int).contains((n, span)) && declared(model, n)
                    ==> work.queue.deep_view().contains(n),
            forall|c: ScriptCallModel| #[trigger]
                work.calls.deep_view().contains(c) <==> start.calls.deep_view().contains(c) || (
                c.caller == script_name@ && c.kind == ScriptCallKind::Explicit && c.span is Some
                    && f.nested_scripts.take(j as int).contains((c.callee, c.span->0))),
            forall|m: MissingScriptReferenceModel| #[trigger]
                work.missing.deep_view().contains(m) <==> start.missing.deep_view().contains(m) || (
                m.caller == script_name@ && m.span is Some && !declared(model, m.callee)
                    && f.nested_scripts.take(j as int).contains((m.callee, m.span->0))),
        decreases contribution.nested_scripts.items().len() - j,
    {
        let callee = contribution.nested_scripts.items()[j].0.replicate();
        let span = contribution.nested_scripts.items()[j].1;
        let ghost entry = (callee@, span);
        let call = ScriptCall {
            caller: script_name.to_owned(),
            callee: callee.replicate(),
            kind: ScriptCallKind::Explicit,
            span: Some(span),
        };
        let ghost noted = call.deep_view();
        proof {
            with_item_contains::<ScriptCall>(work.calls.deep_view(), call.deep_view());
            with_item_ascending::<ScriptCall>(work.calls.deep_view(), call.deep_view());
            assert(f.nested_scripts[j as int] == entry);
            take_contains(f.nested_scripts, j as int);
            assert(f.nested_scripts.contains(entry));
            assert(runs_within(
                script_name@,
                source@,
                tokenized(source@).segments.len() as int,
                callee@,
                span,
            ));
            assert(is_call(model, noted));
        }
        work.calls.insert(call);
        if scripts.contains_key(&callee) {
            proof {
                assert(leads_to(model, script_name@, callee@));
                queue_grown_push(
                    model,
                    script_name@,
                    start.queue.deep_view(),
                    work.queue.deep_view(),
                    callee@,
                );
            }
            push_item(&mut work.queue, callee);
        } else {
            let absent = MissingScriptReference {
                caller: script_name.to_owned(),
                callee,
                span: Some(span),
            };
            proof {
                with_item_contains::<MissingScriptReference>(
                    work.missing.deep_view(),
                    absent.deep_view(),
                );
                with_item_ascending::<MissingScriptReference>(
                    work.missing.deep_view(),
                    absent.deep_view(),
                );
            }
            work.missing.insert(absent);
        }
        j = j + 1;
    }
    assert(f.nested_scripts.take(j as int) =~= f.nested_scripts);
}

/// The first `i + 1` items hold item `i` besides the first `i`.
proof fn take_contains<A>(s: Seq<A>, i: int)
    requires
        0 <= i < s.len(),
    ensures
        forall|y: A| #[trigger] s.take(i + 1).contains(y) <==> s.take(i).contains(y) || y == s[i],
{
    assert forall|y: A| #[trigger]
        s.take(i + 1).contains(y) <==> s.take(i).contains(y) || y == s[i] by {
        let longer = s.take(i + 1);
        if longer.contains(y) {
            let k = choose|k: int| 0 <= k < longer.len() && longer[k] == y;
            if k < i {
                assert(s.take(i)[k] == y);
            }
        }
        if s.take(i).contains(y) {
            let k = choose|k: int| 0 <= k < i && s.take(i)[k] == y;
            assert(s.take(i + 1)[k] == y);
        }
        assert(s.take(i + 1)[i] == s[i]);
    }
}

/// Takes over what one script contributes, and queues the scripts it leads to.
fn visit(
    scripts: &OrderedMap<String, String>,
    script_name: &str,
    source: &str,
    work: &mut ScriptWork,
)
    requires
        old(work).ordered(),
        lookup(scripts.deep_view(), script_name@) == Some(source@),
    ensures
        final(work).ordered(),
        queue_grown(
            scripts.deep_view(),
            script_name@,
            old(work).queue.deep_view(),
            final(work).queue.deep_view(),
        ),
        forall|n: Seq<char>| #[trigger]
            old(work).queue.deep_view().contains(n) ==> final(work).queue.deep_view().contains(n),
        forall|n: Seq<char>| #[trigger]
            leads_to(scripts.deep_view(), script_name@, n) ==> final(work).queue.deep_view().contains(n),
        forall|c: ScriptCallModel| #[trigger]
            final(work).calls.deep_view().contains(c) <==> old(work).calls.deep_view().contains(c)
                || (c.caller == script_name@ && is_call(scripts.deep_view(), c)),
        forall|r: ScriptReferenceModel| #[trigger]
            final(work).references.deep_view().contains(r) <==> old(work).references.deep_view().contains(r) || refers(scripts.deep_view(), script_name@, r),
        forall|m: MissingScriptReferenceModel| #[trigger]
            final(work).missing.deep_view().contains(m) <==> old(work).missing.deep_view().contains(
                m,
            ) || (m.caller == script_name@ && m.span is Some && !declared(
                scripts.deep_view(),
                m.callee,
            ) && runs(scripts.deep_view(), script_name@, m.callee, m.span->0)),
        forall|u: UnmodeledScriptSpanModel| #[trigger]
            final(work).unmodeled.deep_view().contains(u) <==> old(work).unmodeled.deep_view().contains(u) || (u.script == script_name@ && defers(
                scripts.deep_view(),
                script_name@,
                u.span,
                u.kind,
            )),
{
    let ghost model = scripts.deep_view();
    let ghost name = script_name@;
    let ghost start = *work;
    schedule_lifecycle_script(scripts, script_name, "pre", work);
    let ghost hooked = *work;
    schedule_lifecycle_script(scripts, script_name, "post", work);
    let ghost both = *work;
    assert(queue_grown(model, name, start.queue.deep_view(), both.queue.deep_view())) by {
        queue_grown_twice(
            model,
            name,
            start.queue.deep_view(),
            hooked.queue.deep_view(),
            both.queue.deep_view(),
        );
    }

    let tokens = tokenize_script(source);
    let ghost t = tokenized(source@);
    let mut i: usize = 0;
    while i < tokens.unmodeled.len()
        invariant
            i <= tokens.unmodeled.len(),
            tokens.deep_view() == t,
            name == script_name@,
            work.ordered(),
            work.queue == both.queue,
            work.calls == both.calls,
            work.references == both.references,
            work.missing == both.missing,
            forall|u: UnmodeledScriptSpanModel| #[trigger]
                work.unmodeled.deep_view().contains(u) <==> start.unmodeled.deep_view().contains(u)
                    || (u.script == name && t.unmodeled.take(i as int).contains((u.span, u.kind))),
        decreases tokens.unmodeled.len() - i,
    {
        let (span, kind) = tokens.unmodeled[i];
        let part = UnmodeledScriptSpan { script: script_name.to_owned(), span, kind };
        proof {
            with_item_contains::<UnmodeledScriptSpan>(work.unmodeled.deep_view(), part.deep_view());
            with_item_ascending::<UnmodeledScriptSpan>(
                work.unmodeled.deep_view(),
                part.deep_view(),
            );
            assert(t.unmodeled[i as int] == (span, kind));
            take_contains(t.unmodeled, i as int);
        }
        work.unmodeled.insert(part);
        i = i + 1;
    }
    assert(t.unmodeled.take(i as int) =~= t.unmodeled);

    let ghost flagged = *work;
    let mut k: usize = 0;
    while k < tokens.segments.len()
        invariant
            k <= tokens.segments.len(),
            tokens.deep_view() == t,
            t == tokenized(source@),
            name == script_name@,
            model == scripts.deep_view(),
            lookup(model, name) == Some(source@),
            work.ordered(),
            queue_grown(model, name, start.queue.deep_view(), work.queue.deep_view()),
            forall|n: Seq<char>| #[trigger]
                flagged.queue.deep_view().contains(n) ==> work.queue.deep_view().contains(n),
            forall|n: Seq<char>, span: ScriptSpan| #[trigger]
                runs_within(name, source@, k as int, n, span) && declared(model, n)
                    ==> work.queue.deep_view().contains(n),
            forall|c: ScriptCallModel| #[trigger]
                work.calls.deep_view().contains(c) <==> flagged.calls.deep_view().contains(c) || (
                c.caller == name && c.kind == ScriptCallKind::Explicit && c.span is Some
                    && runs_within(name, source@, k as int, c.callee, c.span->0)),
            forall|r: ScriptReferenceModel| #[trigger]
                work.references.deep_view().contains(r) <==> flagged.references.deep_view().contains(
                    r,
                ) || refers_within(name, source@, k as int, r),
            forall|m: MissingScriptReferenceModel| #[trigger]
                work.missing.deep_view().contains(m) <==> flagged.missing.deep_view().contains(m)
                    || (m.caller == name && m.span is Some && !declared(model, m.callee)
                    && runs_within(name, source@, k as int, m.callee, m.span->0)),
            forall|u: UnmodeledScriptSpanModel| #[trigger]
                work.unmodeled.deep_view().contains(u) <==> flagged.unmodeled.deep_view().contains(
                    u,
                ) || (u.script == name && defers_within(name, source@, k as int, u.span, u.kind)),
        decreases tokens.segments.len() - k,
    {
        let ghost passed = *work;
        let is_modeled = segment_is_modeled(source, &tokens, k);
        if is_modeled {
            take_segment(scripts, script_name, source, &tokens, k, work);
            proof {
                queue_grown_twice(
                    model,
                    name,
                    start.queue.deep_view(),
                    passed.queue.deep_view(),
                    work.queue.deep_view(),
                );
            }
        }
        proof {
            within_grows(name, source@, k as int);
        }
        k = k + 1;
    }
    proof {
        assert forall|n: Seq<char>| #[trigger]
            leads_to(model, name, n) implies work.queue.deep_view().contains(n) by {
            let call = choose|call: ScriptCallModel| #[trigger]
                is_call(model, call) && call.caller == name && call.callee == n;
            if call.kind == ScriptCallKind::Explicit {
                assert(runs_within(name, source@, k as int, n, call.span->0));
            } else if n == "pre"@ + name {
                assert(hooked.queue.deep_view().contains(n));
                assert(both.queue.deep_view().contains(n));
            } else {
                assert(both.queue.deep_view().contains(n));
            }
        }
    }
}

proof fn queue_grown_twice(
    scripts: Scripts,
    caller: Seq<char>,
    a: Seq<Seq<char>>,
    b: Seq<Seq<char>>,
    c: Seq<Seq<char>>,
)
    requires
        queue_grown(scripts, caller, a, b),
        queue_grown(scripts, caller, b, c),
    ensures
        queue_grown(scripts, caller, a, c),
{
    assert(a =~= b.subrange(0, a.len() as int));
    assert(b =~= c.subrange(0, b.len() as int));
    assert(a =~= c.subrange(0, a.len() as int));
    assert forall|i: int| a.len() <= i < c.len() implies leads_to(scripts, caller, #[trigger] c[i]) by {
        if i < b.len() {
            assert(c[i] == b[i]);
        }
    }
}

/// What one more segment adds.
proof fn within_grows(script: Seq<char>, source: Seq<char>, k: int)
    ensures
        forall|r: ScriptReferenceModel| #[trigger]
            refers_within(script, source, k + 1, r) <==> refers_within(script, source, k, r) || (
            modeled(source, k) && facts(script, source, k).references.contains(r)),
        forall|n: Seq<char>, span: ScriptSpan| #[trigger]
            runs_within(script, source, k + 1, n, span) <==> runs_within(script, source, k, n, span)
                || (modeled(source, k) && facts(script, source, k).nested_scripts.contains(
                (n, span),
            )),
        forall|span: ScriptSpan, kind: UnmodeledScriptKind| #[trigger]
            defers_within(script, source, k + 1, span, kind) <==> defers_within(
                script,
                source,
                k,
                span,
                kind,
            ) || (modeled(source, k) && facts(script, source, k).unmodeled.contains((span, kind))),
{
    assert forall|r: ScriptReferenceModel| #[trigger]
        refers_within(script, source, k + 1, r) <==> refers_within(script, source, k, r) || (modeled(
            source,
            k,
        ) && facts(script, source, k).references.contains(r)) by {
        if refers_within(script, source, k + 1, r) {
            let j = choose|j: int|
                j < k + 1 && #[trigger] modeled(source, j) && facts(
                    script,
                    source,
                    j,
                ).references.contains(r);
            assert(modeled(source, j));
        }
        if refers_within(script, source, k, r) {
            let j = choose|j: int|
                j < k && #[trigger] modeled(source, j) && facts(
                    script,
                    source,
                    j,
                ).references.contains(r);
            assert(modeled(source, j));
        }
    }
    assert forall|n: Seq<char>, span: ScriptSpan| #[trigger]
        runs_within(script, source, k + 1, n, span) <==> runs_within(script, source, k, n, span) || (
        modeled(source, k) && facts(script, source, k).nested_scripts.contains((n, span))) by {
        if runs_within(script, source, k + 1, n, span) {
            let j = choose|j: int|
                j < k + 1 && #[trigger] modeled(source, j) && facts(
                    script,
                    source,
                    j,
                ).nested_scripts.contains((n, span));
            assert(modeled(source, j));
        }
        if runs_within(script, source, k, n, span) {
            let j = choose|j: int|
                j < k && #[trigger] modeled(source, j) && facts(
                    script,
                    source,
                    j,
                ).nested_scripts.contains((n, span));
            assert(modeled(source, j));
        }
    }
    assert forall|span: ScriptSpan, kind: UnmodeledScriptKind| #[trigger]
        defers_within(script, source, k + 1, span, kind) <==> defers_within(
            script,
            source,
            k,
            span,
            kind,
        ) || (modeled(source, k) && facts(script, source, k).unmodeled.contains((span, kind))) by {
        if defers_within(script, source, k + 1, span, kind) {
            let j = choose|j: int|
                j < k + 1 && #[trigger] modeled(source, j) && facts(
                    script,
                    source,
                    j,
                ).unmodeled.contains((span, kind));
            assert(modeled(source, j));
        }
        if defers_within(script, source, k, span, kind) {
            let j = choose|j: int|
                j < k && #[trigger] modeled(source, j) && facts(
                    script,
                    source,
                    j,
                ).unmodeled.contains((span, kind));
            assert(modeled(source, j));
        }
    }
}

fn segment_is_modeled(source: &str, tokens: &TokenizedScript, k: usize) -> (r: bool)
    requires
        tokens.deep_view() == tokenized(source@),
        k < tokens.segments@.len(),
    ensures
        r == modeled(source@, k as int),
{
    let ghost t = tokenized(source@);
    let span = tokens.segments[k].span;
    assert(t.segments[k as int] == tokens.segments@[k as int].deep_view());
    let mut i: usize = 0;
    while i < tokens.unmodeled.len()
        invariant
            i <= tokens.unmodeled.len(),
            tokens.deep_view() == t,
            t == tokenized(source@),
            k < t.segments.len(),
            span == t.segments[k as int].span,
            forall|j: int| 0 <= j < i ==> !overlap((#[trigger] t.unmodeled[j]).0, span),
        decreases tokens.unmodeled.len() - i,
    {
        assert(t.unmodeled[i as int] == tokens.unmodeled@[i as int]);
        if spans_overlap(tokens.unmodeled[i].0, span) {
            return false;
        }
        i = i + 1;
    }
    true
}

/// A call path can be extended by one call.
proof fn path_extends(
    scripts: Scripts,
    roots: Seq<Seq<char>>,
    caller: Seq<char>,
    callee: Seq<char>,
)
    requires
        script_runs(scripts, roots, caller),
        leads_to(scripts, caller, callee),
    ensures
        script_runs(scripts, roots, callee),
{
    let path = choose|path: Seq<Seq<char>>| #[trigger]
        call_path(scripts, roots, path) && path.last() == caller;
    let longer = path.push(callee);
    assert forall|i: int| 0 <= i < longer.len() - 1 implies leads_to(
        scripts,
        #[trigger] longer[i],
        longer[i + 1],
    ) by {
        if i < path.len() - 1 {
            assert(leads_to(scripts, path[i], path[i + 1]));
        }
    }
    assert(call_path(scripts, roots, longer));
    assert(longer.last() == callee);
}

/// A root runs.
proof fn root_runs(scripts: Scripts, roots: Seq<Seq<char>>, name: Seq<char>)
    requires
        is_root(scripts, roots, name),
    ensures
        script_runs(scripts, roots, name),
{
    let path = seq![name];
    assert(call_path(scripts, roots, path));
    assert(path.last() == name);
}

/// A set that holds the roots and what its members lead to holds every script that runs.
proof fn closed_holds_path(
    scripts: Scripts,
    roots: Seq<Seq<char>>,
    held: Seq<Seq<char>>,
    path: Seq<Seq<char>>,
)
    requires
        call_path(scripts, roots, path),
        forall|n: Seq<char>| #[trigger] is_root(scripts, roots, n) ==> held.contains(n),
        forall|a: Seq<char>, b: Seq<char>|
            held.contains(a) && #[trigger] leads_to(scripts, a, b) ==> held.contains(b),
    ensures
        held.contains(path.last()),
    decreases path.len(),
{
    if path.len() == 1 {
        assert(is_root(scripts, roots, path[0]));
    } else {
        let front = path.drop_last();
        assert forall|i: int| 0 <= i < front.len() - 1 implies leads_to(
            scripts,
            #[trigger] front[i],
            front[i + 1],
        ) by {
            assert(leads_to(scripts, path[i], path[i + 1]));
        }
        assert(call_path(scripts, roots, front));
        closed_holds_path(scripts, roots, held, front);
        assert(leads_to(scripts, path[path.len() - 2], path[path.len() - 1]));
    }
}

/// Distinct names of declared scripts are no more than the scripts.
proof fn names_bounded(scripts: Scripts, names: Seq<Seq<char>>)
    requires
        ascending::<String>(names),
        forall|i: int| 0 <= i < names.len() ==> declared(scripts, #[trigger] names[i]),
    ensures
        names.len() <= scripts.len(),
{
    let keys = keys_of(scripts);
    assert(names.no_duplicates()) by {
        assert forall|i: int, j: int|
            0 <= i < names.len() && 0 <= j < names.len() && i != j implies names[i] != names[j] by {
            if i < j {
                assert(<String as Ordered>::before(names[i], names[j]));
            } else {
                assert(<String as Ordered>::before(names[j], names[i]));
            }
            <String as Ordered>::before_irreflexive(names[i]);
        }
    }
    names.unique_seq_to_set();
    assert(names.to_set().subset_of(keys.to_set())) by {
        assert forall|n: Seq<char>| names.to_set().contains(n) implies keys.to_set().contains(n) by {
            let i = choose|i: int| 0 <= i < names.len() && names[i] == n;
            assert(declared(scripts, names[i]));
            lookup_finds(scripts, n);
        }
    }
    vstd::set_lib::lemma_len_subset(names.to_set(), keys.to_set());
    keys.lemma_cardinality_of_set();
}

/// The scripts invoked from outside, and the roots that are not declared.
fn first_scripts(scripts: &OrderedMap<String, String>, root_scripts: &Vec<String>) -> (r: (
    Vec<String>,
    OrderedSet<MissingScriptReference>,
))
    ensures
        forall|n: Seq<char>| #[trigger]
            r.0.deep_view().contains(n) <==> is_root(
                scripts.deep_view(),
                root_scripts.deep_view(),
                n,
            ),
        ascending::<MissingScriptReference>(r.1.deep_view()),
        forall|m: MissingScriptReferenceModel| #[trigger]
            r.1.deep_view().contains(m) <==> m.caller == "<root>"@ && m.span is None
                && root_scripts.deep_view().contains(m.callee) && !declared(
                scripts.deep_view(),
                m.callee,
            ),
{
    let ghost model = scripts.deep_view();
    let ghost roots = root_scripts.deep_view();
    let mut queue: Vec<String> = Vec::new();
    let mut missing: OrderedSet<MissingScriptReference> = OrderedSet::new();
    assert(queue.deep_view() =~= Seq::empty());
    let mut i: usize = 0;
    if root_scripts.len() == 0 {
        let ghost keys = keys_of(model);
        while i < scripts.entries().len()
            invariant
                i <= scripts.entries().len(),
                model == scripts.deep_view(),
                keys == keys_of(model),
                queue.deep_view() == keys.take(i as int),
            decreases scripts.entries().len() - i,
        {
            assert(keys[i as int] == scripts.entries()@[i as int].0@);
            push_item(&mut queue, scripts.entries()[i].0.replicate());
            i = i + 1;
            assert(queue.deep_view() =~= keys.take(i as int));
        }
        assert(keys.take(i as int) =~= keys);
        proof {
            assert forall|n: Seq<char>| #[trigger]
                queue.deep_view().contains(n) <==> is_root(model, roots, n) by {
                lookup_finds(model, n);
            }
            assert(roots.len() == 0);
        }
    } else {
        let names = OrderedSet::from_items(root_scripts.replicate());
        let ghost wanted = names.deep_view();
        proof {
            collected_is_ordered::<String>(roots);
            assert(wanted.take(0) =~= Seq::empty());
        }
        while i < names.items().len()
            invariant
                i <= names.items().len(),
                model == scripts.deep_view(),
                wanted == names.deep_view(),
                forall|n: Seq<char>| #[trigger]
                    queue.deep_view().contains(n) <==> declared(model, n) && wanted.take(
                        i as int,
                    ).contains(n),
                ascending::<MissingScriptReference>(missing.deep_view()),
                forall|m: MissingScriptReferenceModel| #[trigger]
                    missing.deep_view().contains(m) <==> m.caller == "<root>"@ && m.span is None
                        && wanted.take(i as int).contains(m.callee) && !declared(model, m.callee),
            decreases names.items().len() - i,
        {
            let root = names.items()[i].replicate();
            proof {
                assert(wanted[i as int] == root@);
                take_contains(wanted, i as int);
            }
            if scripts.contains_key(&root) {
                let ghost front = queue.deep_view();
                let ghost added = root@;
                push_item(&mut queue, root);
                proof {
                    assert forall|n: Seq<char>| #[trigger]
                        queue.deep_view().contains(n) <==> front.contains(n) || n == added by {
                        let longer = queue.deep_view();
                        if longer.contains(n) && n != added {
                            let j = choose|j: int| 0 <= j < longer.len() && longer[j] == n;
                            assert(front[j] == n);
                        }
                        if front.contains(n) {
                            let j = choose|j: int| 0 <= j < front.len() && front[j] == n;
                            assert(longer[j] == n);
                        }
                        assert(longer[front.len() as int] == added);
                    }
                }
            } else {
                let absent = MissingScriptReference {
                    caller: "<root>".to_owned(),
                    callee: root,
                    span: None,
                };
                proof {
                    with_item_contains::<MissingScriptReference>(
                        missing.deep_view(),
                        absent.deep_view(),
                    );
                    with_item_ascending::<MissingScriptReference>(
                        missing.deep_view(),
                        absent.deep_view(),
                    );
                }
                missing.insert(absent);
            }
            i = i + 1;
        }
        assert(wanted.take(i as int) =~= wanted);
        proof {
            assert forall|n: Seq<char>| #[trigger]
                queue.deep_view().contains(n) <==> is_root(model, roots, n) by {
                assert(wanted.contains(n) <==> roots.contains(n));
            }
            assert forall|m: MissingScriptReferenceModel| #[trigger]
                missing.deep_view().contains(m) <==> m.caller == "<root>"@ && m.span is None
                    && roots.contains(m.callee) && !declared(model, m.callee) by {
                assert(wanted.contains(m.callee) <==> roots.contains(m.callee));
            }
        }
    }
    (queue, missing)
}

/// Analyzes package scripts from selected roots.
///
/// An empty `root_scripts` list means every declared script is manually
/// invocable and therefore reachable. Explicit roots additionally retain their
/// `pre<name>` and `post<name>` lifecycle hooks and nested package-manager runs.
#[must_use]
pub fn analyze_scripts(
    scripts: &OrderedMap<String, String>,
    root_scripts: &Vec<String>,
) -> (r: ScriptAnalysis)
    ensures
        analysis_of(scripts.deep_view(), root_scripts.deep_view(), r.deep_view()),
{
    let ghost model = scripts.deep_view();
    let ghost roots = root_scripts.deep_view();
    let (queue, missing) = first_scripts(scripts, root_scripts);
    let mut work = ScriptWork {
        queue,
        calls: OrderedSet::new(),
        references: OrderedSet::new(),
        missing,
        unmodeled: OrderedSet::new(),
    };
    let mut reachable: OrderedSet<String> = OrderedSet::new();
    let mut next: usize = 0;
    let ghost unseen = model.len();
    proof {
        let q = work.queue.deep_view();
        assert forall|i: int| 0 <= i < q.len() implies script_runs(model, roots, #[trigger] q[i]) by {
            assert(q.contains(q[i]));
            root_runs(model, roots, q[i]);
        }
        assert forall|i: int| 0 <= i < q.len() implies declared(model, #[trigger] q[i]) by {
            assert(q.contains(q[i]));
        }
    }
    while next < work.queue.len()
        invariant
            next <= work.queue.len(),
            model == scripts.deep_view(),
            roots == root_scripts.deep_view(),
            work.ordered(),
            ascending::<String>(reachable.deep_view()),
            forall|i: int|
                0 <= i < work.queue.deep_view().len() ==> script_runs(
                    model,
                    roots,
                    #[trigger] work.queue.deep_view()[i],
                ),
            forall|i: int|
                0 <= i < work.queue.deep_view().len() ==> declared(
                    model,
                    #[trigger] work.queue.deep_view()[i],
                ),
            forall|n: Seq<char>| #[trigger]
                is_root(model, roots, n) ==> work.queue.deep_view().contains(n),
            forall|n: Seq<char>| #[trigger]
                reachable.deep_view().contains(n) <==> work.queue.deep_view().take(
                    next as int,
                ).contains(n),
            forall|a: Seq<char>, b: Seq<char>|
                reachable.deep_view().contains(a) && #[trigger] leads_to(model, a, b)
                    ==> work.queue.deep_view().contains(b),
            forall|c: ScriptCallModel| #[trigger]
                work.calls.deep_view().contains(c) <==> reachable.deep_view().contains(c.caller)
                    && is_call(model, c),
            forall|r: ScriptReferenceModel| #[trigger]
                work.references.deep_view().contains(r) <==> exists|n: Seq<char>|
                    reachable.deep_view().contains(n) && #[trigger] refers(model, n, r),
            forall|m: MissingScriptReferenceModel| #[trigger]
                work.missing.deep_view().contains(m) <==> !declared(model, m.callee) && ((m.caller
                    == "<root>"@ && m.span is None && roots.contains(m.callee)) || (m.span is Some
                    && reachable.deep_view().contains(m.caller) && runs(
                    model,
                    m.caller,
                    m.callee,
                    m.span->0,
                ))),
            forall|u: UnmodeledScriptSpanModel| #[trigger]
                work.unmodeled.deep_view().contains(u) <==> reachable.deep_view().contains(u.script)
                    && defers(model, u.script, u.span, u.kind),
            unseen == model.len() - reachable.deep_view().len(),
            reachable.deep_view().len() <= model.len(),
        decreases unseen, work.queue.len() - next,
    {
        let ghost q = work.queue.deep_view();
        let ghost seen = reachable.deep_view();
        let ghost before = work;
        let script_name = work.queue[next].replicate();
        let ghost name = script_name@;
        assert(q[next as int] == name);
        proof {
            take_contains(q, next as int);
            with_item_contains::<String>(seen, name);
            with_item_ascending::<String>(seen, name);
        }
        let new = reachable.insert(script_name.replicate());
        next = next + 1;
        if new {
            let source = match scripts.get(&script_name) {
                Some(source) => source.replicate(),
                None => String::new(),
            };
            assert(declared(model, q[next - 1]));
            visit(scripts, &script_name, &source, &mut work);
            proof {
                let grown = work.queue.deep_view();
                assert(q =~= grown.subrange(0, q.len() as int));
                assert(q.take(next as int) =~= grown.take(next as int));
                assert forall|i: int| 0 <= i < grown.len() implies script_runs(
                    model,
                    roots,
                    #[trigger] grown[i],
                ) && declared(model, grown[i]) by {
                    if i < q.len() {
                        assert(grown[i] == q[i]);
                    } else {
                        assert(leads_to(model, name, grown[i]));
                        path_extends(model, roots, name, grown[i]);
                    }
                }
                assert forall|a: Seq<char>, b: Seq<char>|
                    reachable.deep_view().contains(a) && #[trigger] leads_to(
                        model,
                        a,
                        b,
                    ) implies grown.contains(b) by {
                    if a != name {
                        assert(seen.contains(a));
                        assert(q.contains(b));
                    }
                }
                assert forall|r: ScriptReferenceModel| #[trigger]
                    work.references.deep_view().contains(r) <==> exists|n: Seq<char>|
                        reachable.deep_view().contains(n) && #[trigger] refers(model, n, r) by {
                    if before.references.deep_view().contains(r) {
                        let n = choose|n: Seq<char>|
                            seen.contains(n) && #[trigger] refers(model, n, r);
                        assert(reachable.deep_view().contains(n));
                    }
                    if exists|n: Seq<char>|
                        reachable.deep_view().contains(n) && #[trigger] refers(model, n, r) {
                        let n = choose|n: Seq<char>|
                            reachable.deep_view().contains(n) && #[trigger] refers(model, n, r);
                        if n != name {
                            assert(seen.contains(n));
                        }
                    }
                    if refers(model, name, r) {
                        assert(reachable.deep_view().contains(name));
                    }
                }
                assert forall|i: int| 0 <= i < reachable.deep_view().len() implies declared(
                    model,
                    #[trigger] reachable.deep_view()[i],
                ) by {
                    let n = reachable.deep_view()[i];
                    assert(reachable.deep_view().contains(n));
                    assert(q.take(next as int).contains(n));
                    let j = choose|j: int| 0 <= j < next && q.take(next as int)[j] == n;
                    assert(declared(model, q[j]));
                }
                names_bounded(model, reachable.deep_view());
                rank_of_splits::<String>(seen, name);
                assert(reachable.deep_view().len() == seen.len() + 1);
                unseen = (model.len() - reachable.deep_view().len()) as nat;
            }
        } else {
            assert(reachable.deep_view() == seen);
        }
    }
    proof {
        let held = reachable.deep_view();
        assert(work.queue.deep_view().take(next as int) =~= work.queue.deep_view());
        assert forall|n: Seq<char>| #[trigger]
            held.contains(n) <==> script_runs(model, roots, n) by {
            if held.contains(n) {
                let i = choose|i: int|
                    0 <= i < work.queue.deep_view().len() && work.queue.deep_view()[i] == n;
                assert(script_runs(model, roots, work.queue.deep_view()[i]));
            }
            if script_runs(model, roots, n) {
                let path = choose|path: Seq<Seq<char>>| #[trigger]
                    call_path(model, roots, path) && path.last() == n;
                closed_holds_path(model, roots, held, path);
            }
        }
    }
    ScriptAnalysis {
        reachable_scripts: reachable.into_items(),
        calls: work.calls.into_items(),
        references: work.references.into_items(),
        missing_scripts: work.missing.into_items(),
        unmodeled: work.unmodeled.into_items(),
    }
}

/// Neither the order of the roots nor how often one is given matters: from lists that hold the
/// same names the same comes out.
pub proof fn roots_are_taken_as_a_set(
    scripts: Scripts,
    roots: Seq<Seq<char>>,
    others: Seq<Seq<char>>,
    a: ScriptAnalysisModel,
    b: ScriptAnalysisModel,
)
    requires
        forall|name: Seq<char>| #[trigger] roots.contains(name) <==> others.contains(name),
        analysis_of(scripts, roots, a),
        analysis_of(scripts, others, b),
    ensures
        a == b,
{
    if roots.len() > 0 {
        assert(roots.contains(roots[0]));
    }
    if others.len() > 0 {
        assert(others.contains(others[0]));
        assert(roots.contains(others[0]));
    }
    assert forall|name: Seq<char>| #[trigger]
        script_runs(scripts, roots, name) == script_runs(scripts, others, name) by {
        if script_runs(scripts, roots, name) {
            let path = choose|path: Seq<Seq<char>>| #[trigger]
                call_path(scripts, roots, path) && path.last() == name;
            assert(call_path(scripts, others, path));
        }
        if script_runs(scripts, others, name) {
            let path = choose|path: Seq<Seq<char>>| #[trigger]
                call_path(scripts, others, path) && path.last() == name;
            assert(call_path(scripts, roots, path));
        }
    }
    ascending_is_unique::<String>(a.reachable_scripts, b.reachable_scripts);
    ascending_is_unique::<ScriptCall>(a.calls, b.calls);
    assert forall|r: ScriptReferenceModel| a.references.contains(r) <==> b.references.contains(
        r,
    ) by {
        if a.references.contains(r) {
            let n = choose|n: Seq<char>|
                script_runs(scripts, roots, n) && #[trigger] refers(scripts, n, r);
            assert(script_runs(scripts, others, n) && refers(scripts, n, r));
        }
        if b.references.contains(r) {
            let n = choose|n: Seq<char>|
                script_runs(scripts, others, n) && #[trigger] refers(scripts, n, r);
            assert(script_runs(scripts, roots, n) && refers(scripts, n, r));
        }
    }
    ascending_is_unique::<ScriptReference>(a.references, b.references);
    ascending_is_unique::<MissingScriptReference>(a.missing_scripts, b.missing_scripts);
    ascending_is_unique::<UnmodeledScriptSpan>(a.unmodeled, b.unmodeled);
}

} // verus!
