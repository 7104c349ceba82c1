//! What references make of the packages that a project declares, and of those it does not.

use crate::analysis::dependencies::{
    all_references, all_unmapped, binaries_are_those_given, binary_blockers, binary_of,
    blocked_package, categories_of, concerned_pairs, concerns, declarations, declared_as, declares,
    dependency_analysis, field_declarations, is_bundled, is_declared, known_as,
    manifest_declarations, outcome_for, package_references, reasons_are_those_given, reasons_for,
    reference_of, references_are_those_given, references_to, retaining_references, stated_blockers,
    unmapped_reason, unowned_binaries, workspace_blockers, DeclarationModel,
    DependencyAnalysisInputModel, DependencyBlockerModel, DependencyCategory, DependencyConfidence,
    DependencyEvidenceKind, DependencyEvidenceModel, DependencyManifestModel, DependencyOutcomeKind,
    DependencyOutcomeModel, NormalizedDependencyEvidence, NormalizedDependencyEvidenceModel,
    UnmappedBinary, UnmappedBinaryModel,
};
use crate::analysis::packages::npm_package;
use crate::collections::{collected_is_ordered, lookup};
use crate::discovery::segments::program_name;
use vstd::prelude::*;

verus! {

/// The field of a manifest for dependencies of a category.
pub open spec fn field_of(
    manifest: DependencyManifestModel,
    category: DependencyCategory,
) -> Seq<(Seq<char>, Seq<char>)> {
    match category {
        DependencyCategory::Runtime => manifest.dependencies,
        DependencyCategory::Development => manifest.dev_dependencies,
        DependencyCategory::Peer => manifest.peer_dependencies,
        DependencyCategory::Optional => manifest.optional_dependencies,
    }
}

/// Whether one of the keys of a field names the package.
pub open spec fn lists_package(field: Seq<(Seq<char>, Seq<char>)>, package: Seq<char>) -> bool {
    exists|k: int| 0 <= k < field.len() && npm_package((#[trigger] field[k]).0) == Some(package)
}

/// Whether a manifest of the workspace lists the package in the field for the category.
pub open spec fn listed_under(
    manifests: Seq<DependencyManifestModel>,
    workspace: Seq<char>,
    package: Seq<char>,
    category: DependencyCategory,
) -> bool {
    exists|i: int|
        0 <= i < manifests.len() && (#[trigger] manifests[i]).workspace == workspace
            && lists_package(field_of(manifests[i], category), package)
}

/// Whether a manifest of the workspace lists the package in any field.
pub open spec fn listed_in(
    manifests: Seq<DependencyManifestModel>,
    workspace: Seq<char>,
    package: Seq<char>,
) -> bool {
    ||| listed_under(manifests, workspace, package, DependencyCategory::Runtime)
    ||| listed_under(manifests, workspace, package, DependencyCategory::Development)
    ||| listed_under(manifests, workspace, package, DependencyCategory::Peer)
    ||| listed_under(manifests, workspace, package, DependencyCategory::Optional)
}

/// Whether a piece of evidence, not about a binary, names the package for the workspace.
pub open spec fn refers_to(
    e: DependencyEvidenceModel,
    workspace: Seq<char>,
    package: Seq<char>,
) -> bool {
    &&& e.reachable
    &&& e.workspace == workspace
    &&& e.kind != DependencyEvidenceKind::Binary
    &&& npm_package(e.reference) == Some(package)
}

/// Whether a piece of evidence is about a binary that the package owns.
pub open spec fn runs_binary_of(
    e: DependencyEvidenceModel,
    owners: Seq<(Seq<char>, Seq<char>)>,
    workspace: Seq<char>,
    package: Seq<char>,
) -> bool {
    &&& e.reachable
    &&& e.workspace == workspace
    &&& e.kind == DependencyEvidenceKind::Binary
    &&& lookup(owners, program_name(e.reference)) is Some
    &&& npm_package(lookup(owners, program_name(e.reference))->0) == Some(package)
}

/// What an outcome says of the piece of evidence.
pub open spec fn cites(o: DependencyOutcomeModel, e: DependencyEvidenceModel) -> bool {
    o.evidence.contains(
        NormalizedDependencyEvidenceModel {
            workspace: o.workspace,
            package: o.package,
            kind: e.kind,
            scope: e.scope,
            source: e.source,
        },
    )
}

/// Whether the outcome is the one for the package in the workspace.
pub open spec fn is_for(o: DependencyOutcomeModel, workspace: Seq<char>, package: Seq<char>) -> bool {
    o.workspace == workspace && o.package == package
}

proof fn declared_as_pushed(
    ds: Seq<DeclarationModel>,
    d: DeclarationModel,
    w: Seq<char>,
    p: Seq<char>,
    c: DependencyCategory,
)
    ensures
        declared_as(ds.push(d), w, p, c) <==> declared_as(ds, w, p, c) || (declares(d, w, p)
            && d.category == c),
{
    let all = ds.push(d);
    if declared_as(ds, w, p, c) {
        let i = choose|i: int|
            0 <= i < ds.len() && declares(#[trigger] ds[i], w, p) && ds[i].category == c;
        assert(all[i] == ds[i]);
    }
    if declares(d, w, p) && d.category == c {
        assert(all[ds.len() as int] == d);
    }
    if declared_as(all, w, p, c) {
        let i = choose|i: int|
            0 <= i < all.len() && declares(#[trigger] all[i], w, p) && all[i].category == c;
        if i < ds.len() {
            assert(all[i] == ds[i]);
        }
    }
}

proof fn declared_as_joined(
    a: Seq<DeclarationModel>,
    b: Seq<DeclarationModel>,
    w: Seq<char>,
    p: Seq<char>,
    c: DependencyCategory,
)
    ensures
        declared_as(a + b, w, p, c) <==> declared_as(a, w, p, c) || declared_as(b, w, p, c),
{
    let all = a + b;
    if declared_as(a, w, p, c) {
        let i = choose|i: int|
            0 <= i < a.len() && declares(#[trigger] a[i], w, p) && a[i].category == c;
        assert(all[i] == a[i]);
    }
    if declared_as(b, w, p, c) {
        let i = choose|i: int|
            0 <= i < b.len() && declares(#[trigger] b[i], w, p) && b[i].category == c;
        assert(all[a.len() + i] == b[i]);
    }
    if declared_as(all, w, p, c) {
        let i = choose|i: int|
            0 <= i < all.len() && declares(#[trigger] all[i], w, p) && all[i].category == c;
        if i < a.len() {
            assert(all[i] == a[i]);
        } else {
            assert(all[i] == b[i - a.len()]);
        }
    }
}

proof fn field_declares(
    field: Seq<(Seq<char>, Seq<char>)>,
    workspace: Seq<char>,
    category: DependencyCategory,
    manifest: usize,
    w: Seq<char>,
    p: Seq<char>,
    c: DependencyCategory,
)
    ensures
        declared_as(field_declarations(field, workspace, category, manifest), w, p, c) <==> w
            == workspace && c == category && lists_package(field, p),
    decreases field.len(),
{
    if field.len() > 0 {
        let front = field.drop_last();
        field_declares(front, workspace, category, manifest, w, p, c);
        let rest = field_declarations(front, workspace, category, manifest);
        match npm_package(field.last().0) {
            Some(package) => {
                declared_as_pushed(
                    rest,
                    DeclarationModel {
                        workspace,
                        package,
                        category,
                        alias: crate::analysis::packages::alias_target(field.last().1),
                        manifest,
                    },
                    w,
                    p,
                    c,
                );
            },
            None => {},
        }
        if lists_package(front, p) {
            let k = choose|k: int|
                0 <= k < front.len() && npm_package((#[trigger] front[k]).0) == Some(p);
            assert(field[k] == front[k]);
        }
        if npm_package(field.last().0) == Some(p) {
            assert(field[field.len() - 1] == field.last());
        }
        if lists_package(field, p) {
            let k = choose|k: int|
                0 <= k < field.len() && npm_package((#[trigger] field[k]).0) == Some(p);
            if k < front.len() {
                assert(field[k] == front[k]);
            }
        }
    }
}

/// What a workspace declares is what its manifests list.
proof fn declared_is_listed(
    manifests: Seq<DependencyManifestModel>,
    w: Seq<char>,
    p: Seq<char>,
    c: DependencyCategory,
)
    ensures
        declared_as(declarations(manifests), w, p, c) <==> listed_under(manifests, w, p, c),
    decreases manifests.len(),
{
    if manifests.len() > 0 {
        let front = manifests.drop_last();
        let m = manifests.last();
        let n = (manifests.len() - 1) as usize;
        declared_is_listed(front, w, p, c);
        declared_as_joined(declarations(front), manifest_declarations(m, n), w, p, c);
        let a = field_declarations(m.dependencies, m.workspace, DependencyCategory::Runtime, n);
        let b = field_declarations(
            m.dev_dependencies,
            m.workspace,
            DependencyCategory::Development,
            n,
        );
        let d = field_declarations(m.peer_dependencies, m.workspace, DependencyCategory::Peer, n);
        let e = field_declarations(
            m.optional_dependencies,
            m.workspace,
            DependencyCategory::Optional,
            n,
        );
        declared_as_joined(a, b, w, p, c);
        declared_as_joined(a + b, d, w, p, c);
        declared_as_joined(a + b + d, e, w, p, c);
        field_declares(
            m.dependencies,
            m.workspace,
            DependencyCategory::Runtime,
            n,
            w,
            p,
            c,
        );
        field_declares(
            m.dev_dependencies,
            m.workspace,
            DependencyCategory::Development,
            n,
            w,
            p,
            c,
        );
        field_declares(
            m.peer_dependencies,
            m.workspace,
            DependencyCategory::Peer,
            n,
            w,
            p,
            c,
        );
        field_declares(
            m.optional_dependencies,
            m.workspace,
            DependencyCategory::Optional,
            n,
            w,
            p,
            c,
        );
        if listed_under(front, w, p, c) {
            let i = choose|i: int|
                0 <= i < front.len() && (#[trigger] front[i]).workspace == w && lists_package(
                    field_of(front[i], c),
                    p,
                );
            assert(manifests[i] == front[i]);
        }
        if m.workspace == w && lists_package(field_of(m, c), p) {
            assert(manifests[manifests.len() - 1] == m);
        }
        if listed_under(manifests, w, p, c) {
            let i = choose|i: int|
                0 <= i < manifests.len() && (#[trigger] manifests[i]).workspace == w
                    && lists_package(field_of(manifests[i], c), p);
            if i < front.len() {
                assert(manifests[i] == front[i]);
            }
        }
    }
}

proof fn is_declared_is_listed(
    manifests: Seq<DependencyManifestModel>,
    w: Seq<char>,
    p: Seq<char>,
)
    ensures
        is_declared(declarations(manifests), w, p) <==> listed_in(manifests, w, p),
{
    let ds = declarations(manifests);
    declared_is_listed(manifests, w, p, DependencyCategory::Runtime);
    declared_is_listed(manifests, w, p, DependencyCategory::Development);
    declared_is_listed(manifests, w, p, DependencyCategory::Peer);
    declared_is_listed(manifests, w, p, DependencyCategory::Optional);
    if is_declared(ds, w, p) {
        let i = choose|i: int| 0 <= i < ds.len() && declares(#[trigger] ds[i], w, p);
        assert(declared_as(ds, w, p, ds[i].category));
    }
}

proof fn references_to_holds(
    refs: Seq<NormalizedDependencyEvidenceModel>,
    w: Seq<char>,
    p: Seq<char>,
    r: NormalizedDependencyEvidenceModel,
)
    ensures
        references_to(refs, w, p).contains(r) <==> refs.contains(r) && r.workspace == w
            && r.package == p,
    decreases refs.len(),
{
    if refs.len() > 0 {
        let front = refs.drop_last();
        references_to_holds(front, w, p, r);
        let rest = references_to(front, w, p);
        let all = references_to(refs, w, p);
        if rest.contains(r) {
            let k = choose|k: int| 0 <= k < rest.len() && rest[k] == r;
            assert(all[k] == r);
        }
        if front.contains(r) {
            let k = choose|k: int| 0 <= k < front.len() && front[k] == r;
            assert(refs[k] == r);
        }
        if refs.last() == r {
            assert(refs[refs.len() - 1] == r);
            if r.workspace == w && r.package == p {
                assert(all[all.len() - 1] == r);
            }
        }
        if refs.contains(r) && refs.last() != r {
            let k = choose|k: int| 0 <= k < refs.len() && refs[k] == r;
            assert(front[k] == r);
        }
        if all.contains(r) && !rest.contains(r) {
            let k = choose|k: int| 0 <= k < all.len() && all[k] == r;
            if k < rest.len() {
                assert(rest[k] == r);
            }
            assert(refs.last() == r);
        }
    }
}

/// The one outcome for a package of a workspace that is declared or referred to.
proof fn outcome_is_listed(
    input: DependencyAnalysisInputModel,
    w: Seq<char>,
    p: Seq<char>,
) -> (o: int)
    requires
        listed_in(input.manifests, w, p) || references_to(all_references(input), w, p).len() > 0,
    ensures
        0 <= o < dependency_analysis(input).outcomes.len(),
        dependency_analysis(input).outcomes[o] == outcome_for(input, w, p),
        is_for(dependency_analysis(input).outcomes[o], w, p),
{
    is_declared_is_listed(input.manifests, w, p);
    crate::analysis::dependencies::outcomes_are_ordered_and_complete(input);
    let outcomes = dependency_analysis(input).outcomes;
    assert(outcomes.contains(outcome_for(input, w, p)));
    let o = choose|o: int| 0 <= o < outcomes.len() && outcomes[o] == outcome_for(input, w, p);
    o
}

proof fn reference_is_among_all(
    input: DependencyAnalysisInputModel,
    k: int,
    r: NormalizedDependencyEvidenceModel,
)
    requires
        0 <= k < input.evidence.len(),
        reference_of(input.evidence[k], input.binary_owners, declarations(input.manifests)) == Some(
            r,
        ),
    ensures
        references_to(all_references(input), r.workspace, r.package).contains(r),
        references_to(all_references(input), r.workspace, r.package).len() > 0,
{
    let declared = declarations(input.manifests);
    references_are_those_given(input.evidence, input.binary_owners, declared, r);
    let given = package_references(input.evidence, input.binary_owners, declared);
    assert(given.contains(r));
    collected_is_ordered::<NormalizedDependencyEvidence>(given);
    assert(all_references(input).contains(r));
    references_to_holds(all_references(input), r.workspace, r.package, r);
}

proof fn declared_evidence_holds(
    input: DependencyAnalysisInputModel,
    w: Seq<char>,
    p: Seq<char>,
    r: NormalizedDependencyEvidenceModel,
)
    requires
        references_to(all_references(input), w, p).contains(r),
    ensures
        retaining_references(input, w, p).contains(r),
        retaining_references(input, w, p).len() > 0,
{
    let found = references_to(all_references(input), w, p);
    let more = found.push(crate::analysis::dependencies::bundling(w, p));
    let k = choose|k: int| 0 <= k < found.len() && found[k] == r;
    assert(more[k] == r);
    collected_is_ordered::<NormalizedDependencyEvidence>(found);
    collected_is_ordered::<NormalizedDependencyEvidence>(more);
    assert(retaining_references(input, w, p).contains(r));
}

/// A package that something reachable names, be it an import, an import of types, a script, a
/// configuration or a public type, is accounted for in the workspace that names it. Where the
/// workspace lists it, it is retained; where only the root of the project does, it is
/// misplaced; where neither does, it is unlisted. Whatever it is, what names it is cited.
pub proof fn named_packages_are_accounted_for(
    input: DependencyAnalysisInputModel,
    k: int,
    package: Seq<char>,
) -> (o: int)
    requires
        0 <= k < input.evidence.len(),
        refers_to(input.evidence[k], input.evidence[k].workspace, package),
    ensures
        ({
            let e = input.evidence[k];
            let outcome = dependency_analysis(input).outcomes[o];
            let own = listed_in(input.manifests, e.workspace, package);
            let at_root = e.workspace != input.root_workspace && listed_in(
                input.manifests,
                input.root_workspace,
                package,
            );
            &&& 0 <= o < dependency_analysis(input).outcomes.len()
            &&& is_for(outcome, e.workspace, package)
            &&& cites(outcome, e)
            &&& own ==> outcome.kind == DependencyOutcomeKind::Retained
                && outcome.declared_workspace == Some(e.workspace)
            &&& !own && at_root ==> outcome.kind == DependencyOutcomeKind::Misplaced
                && outcome.declared_workspace == Some(input.root_workspace)
            &&& !own && !at_root ==> outcome.kind == DependencyOutcomeKind::Unlisted
                && outcome.declared_workspace is None
        }),
{
    let e = input.evidence[k];
    let r = NormalizedDependencyEvidenceModel {
        workspace: e.workspace,
        package,
        kind: e.kind,
        scope: e.scope,
        source: e.source,
    };
    assert(reference_of(e, input.binary_owners, declarations(input.manifests)) == Some(r));
    reference_is_among_all(input, k, r);
    is_declared_is_listed(input.manifests, e.workspace, package);
    is_declared_is_listed(input.manifests, input.root_workspace, package);
    declared_evidence_holds(input, e.workspace, package, r);
    outcome_is_listed(input, e.workspace, package)
}

/// A package that owns a binary which something reachable runs is retained where the workspace
/// lists it, and what runs the binary is cited.
pub proof fn owners_of_binaries_are_retained(
    input: DependencyAnalysisInputModel,
    k: int,
    package: Seq<char>,
) -> (o: int)
    requires
        0 <= k < input.evidence.len(),
        runs_binary_of(
            input.evidence[k],
            input.binary_owners,
            input.evidence[k].workspace,
            package,
        ),
        listed_in(input.manifests, input.evidence[k].workspace, package),
    ensures
        ({
            let e = input.evidence[k];
            let outcome = dependency_analysis(input).outcomes[o];
            &&& 0 <= o < dependency_analysis(input).outcomes.len()
            &&& is_for(outcome, e.workspace, package)
            &&& cites(outcome, e)
            &&& outcome.kind == DependencyOutcomeKind::Retained
        }),
{
    let e = input.evidence[k];
    let r = NormalizedDependencyEvidenceModel {
        workspace: e.workspace,
        package,
        kind: e.kind,
        scope: e.scope,
        source: e.source,
    };
    is_declared_is_listed(input.manifests, e.workspace, package);
    assert(known_as(declarations(input.manifests), e.workspace, package) == package);
    assert(reference_of(e, input.binary_owners, declarations(input.manifests)) == Some(r));
    reference_is_among_all(input, k, r);
    declared_evidence_holds(input, e.workspace, package, r);
    outcome_is_listed(input, e.workspace, package)
}

/// Whether a piece of evidence concerns some other package of the workspace, or none.
pub open spec fn concerns_another(
    input: DependencyAnalysisInputModel,
    e: DependencyEvidenceModel,
    workspace: Seq<char>,
    package: Seq<char>,
) -> bool {
    ||| !e.reachable
    ||| e.workspace != workspace
    ||| e.kind != DependencyEvidenceKind::Binary && npm_package(e.reference) != Some(package)
    ||| e.kind == DependencyEvidenceKind::Binary && exists|other: Seq<char>|
        other != package && #[trigger] runs_binary_of(e, input.binary_owners, workspace, other)
            && listed_in(input.manifests, workspace, other)
}

/// Whether a blocker is stated for another workspace, or for another package.
pub open spec fn blocks_another(
    blocker: DependencyBlockerModel,
    workspace: Seq<char>,
    package: Seq<char>,
) -> bool {
    blocker.workspace != workspace || (blocker.package is Some && npm_package(blocker.package->0)
        != Some(package))
}

/// Whether a manifest of the workspace bundles the package.
pub open spec fn bundled_in(
    manifests: Seq<DependencyManifestModel>,
    workspace: Seq<char>,
    package: Seq<char>,
) -> bool {
    exists|i: int, k: int|
        #![trigger manifests[i].bundled_dependencies[k]]
        0 <= i < manifests.len() && 0 <= k < manifests[i].bundled_dependencies.len()
            && manifests[i].workspace == workspace && npm_package(
            manifests[i].bundled_dependencies[k],
        ) == Some(package)
}

proof fn nothing_refers(input: DependencyAnalysisInputModel, w: Seq<char>, p: Seq<char>)
    requires
        forall|k: int|
            0 <= k < input.evidence.len() ==> concerns_another(
                input,
                #[trigger] input.evidence[k],
                w,
                p,
            ),
    ensures
        references_to(all_references(input), w, p).len() == 0,
{
    let refs = references_to(all_references(input), w, p);
    if refs.len() > 0 {
        let r = refs[0];
        assert(refs.contains(r));
        references_to_holds(all_references(input), w, p, r);
        let declared = declarations(input.manifests);
        let given = package_references(input.evidence, input.binary_owners, declared);
        collected_is_ordered::<NormalizedDependencyEvidence>(given);
        assert(given.contains(r));
        references_are_those_given(input.evidence, input.binary_owners, declared, r);
        let k = choose|k: int|
            0 <= k < input.evidence.len() && reference_of(
                #[trigger] input.evidence[k],
                input.binary_owners,
                declared,
            ) == Some(r);
        let e = input.evidence[k];
        assert(concerns_another(input, e, w, p));
        if e.kind == DependencyEvidenceKind::Binary {
            let other = choose|other: Seq<char>|
                other != p && #[trigger] runs_binary_of(e, input.binary_owners, w, other)
                    && listed_in(input.manifests, w, other);
            is_declared_is_listed(input.manifests, w, other);
            assert(known_as(declared, w, other) == other);
        }
    }
}

proof fn stated_blockers_hold(
    blockers: Seq<DependencyBlockerModel>,
    w: Seq<char>,
    b: (Option<Seq<char>>, Seq<char>),
)
    requires
        stated_blockers(blockers, w).contains(b),
    ensures
        exists|k: int|
            0 <= k < blockers.len() && (#[trigger] blockers[k]).workspace == w && blocked_package(
                blockers[k].package,
            ) == Some(b.0) && blockers[k].reason == b.1,
    decreases blockers.len(),
{
    let all = stated_blockers(blockers, w);
    let front = blockers.drop_last();
    let rest = stated_blockers(front, w);
    let j = choose|j: int| 0 <= j < all.len() && all[j] == b;
    if j < rest.len() {
        assert(rest[j] == b);
        stated_blockers_hold(front, w, b);
        let k = choose|k: int|
            0 <= k < front.len() && (#[trigger] front[k]).workspace == w && blocked_package(
                front[k].package,
            ) == Some(b.0) && front[k].reason == b.1;
        assert(blockers[k] == front[k]);
    } else {
        assert(blockers[blockers.len() - 1] == blockers.last());
    }
}

proof fn binary_blockers_hold(
    unmapped: Seq<UnmappedBinaryModel>,
    w: Seq<char>,
    b: (Option<Seq<char>>, Seq<char>),
)
    requires
        binary_blockers(unmapped, w).contains(b),
    ensures
        exists|k: int| 0 <= k < unmapped.len() && (#[trigger] unmapped[k]).workspace == w,
    decreases unmapped.len(),
{
    let all = binary_blockers(unmapped, w);
    let front = unmapped.drop_last();
    let rest = binary_blockers(front, w);
    let j = choose|j: int| 0 <= j < all.len() && all[j] == b;
    if j < rest.len() {
        assert(rest[j] == b);
        binary_blockers_hold(front, w, b);
        let k = choose|k: int| 0 <= k < front.len() && (#[trigger] front[k]).workspace == w;
        assert(unmapped[k] == front[k]);
    } else {
        assert(unmapped[unmapped.len() - 1] == unmapped.last());
    }
}

/// Every binary without an owner stems from evidence.
proof fn unmapped_stem_from_evidence(input: DependencyAnalysisInputModel, u: UnmappedBinaryModel)
    ensures
        all_unmapped(input).contains(u) <==> exists|k: int|
            0 <= k < input.evidence.len() && binary_of(
                #[trigger] input.evidence[k],
                input.binary_owners,
            ) == Some(u),
{
    collected_is_ordered::<UnmappedBinary>(
        unowned_binaries(input.evidence, input.binary_owners),
    );
    binaries_are_those_given(input.evidence, input.binary_owners, u);
}

/// A package that a workspace lists, that nothing reachable concerns, that is not bundled and
/// that no blocker concerns is found unused, for certain; as a peer or as an optional one it is
/// said to be without reference, which is less certain.
pub proof fn packages_that_nothing_concerns_are_unused(
    input: DependencyAnalysisInputModel,
    workspace: Seq<char>,
    package: Seq<char>,
) -> (o: int)
    requires
        listed_in(input.manifests, workspace, package),
        !bundled_in(input.manifests, workspace, package),
        forall|k: int|
            0 <= k < input.evidence.len() ==> concerns_another(
                input,
                #[trigger] input.evidence[k],
                workspace,
                package,
            ),
        forall|k: int|
            0 <= k < input.blockers.len() ==> blocks_another(
                #[trigger] input.blockers[k],
                workspace,
                package,
            ),
    ensures
        ({
            let outcome = dependency_analysis(input).outcomes[o];
            let peer = listed_under(
                input.manifests,
                workspace,
                package,
                DependencyCategory::Peer,
            );
            let optional = listed_under(
                input.manifests,
                workspace,
                package,
                DependencyCategory::Optional,
            );
            &&& 0 <= o < dependency_analysis(input).outcomes.len()
            &&& is_for(outcome, workspace, package)
            &&& outcome.evidence.len() == 0
            &&& outcome.blockers.len() == 0
            &&& peer ==> outcome.kind == DependencyOutcomeKind::UnreferencedPeer
                && outcome.confidence == DependencyConfidence::Medium
            &&& !peer && optional ==> outcome.kind == DependencyOutcomeKind::UnreferencedOptional
                && outcome.confidence == DependencyConfidence::Medium
            &&& !peer && !optional ==> outcome.kind == DependencyOutcomeKind::Unused
                && outcome.confidence == DependencyConfidence::High
        }),
{
    nothing_refers(input, workspace, package);
    is_declared_is_listed(input.manifests, workspace, package);
    let o = outcome_is_listed(input, workspace, package);
    if is_bundled(input.manifests, workspace, package) {
        let i = choose|i: int|
            0 <= i < input.manifests.len() && #[trigger] crate::analysis::dependencies::bundles(
                input.manifests,
                declarations(input.manifests),
                i,
                workspace,
                package,
            );
        let k = choose|k: int|
            0 <= k < input.manifests[i].bundled_dependencies.len() && npm_package(
                #[trigger] input.manifests[i].bundled_dependencies[k],
            ) == Some(package);
        assert(bundled_in(input.manifests, workspace, package));
    }
    let stated = stated_blockers(input.blockers, workspace);
    let binary = binary_blockers(all_unmapped(input), workspace);
    let blockers = workspace_blockers(input.blockers, all_unmapped(input), workspace);
    let reasons = reasons_for(blockers, package);
    if reasons.len() > 0 {
        let reason = reasons[0];
        assert(reasons.contains(reason));
        reasons_are_those_given(blockers, package, reason);
        let j = choose|j: int|
            0 <= j < blockers.len() && concerns(#[trigger] blockers[j], package) && blockers[j].1
                == reason;
        let b = blockers[j];
        assert(blockers.contains(b));
        collected_is_ordered::<(Option<String>, String)>(stated + binary);
        assert((stated + binary).contains(b));
        let q = choose|q: int| 0 <= q < (stated + binary).len() && (stated + binary)[q] == b;
        if q < stated.len() {
            assert(stated[q] == b);
            stated_blockers_hold(input.blockers, workspace, b);
            let k = choose|k: int|
                0 <= k < input.blockers.len() && (#[trigger] input.blockers[k]).workspace
                    == workspace && blocked_package(input.blockers[k].package) == Some(b.0)
                    && input.blockers[k].reason == b.1;
            assert(blocks_another(input.blockers[k], workspace, package));
        } else {
            assert(binary[q - stated.len()] == b);
            binary_blockers_hold(all_unmapped(input), workspace, b);
            let unmapped = all_unmapped(input);
            let u = choose|u: int|
                0 <= u < unmapped.len() && (#[trigger] unmapped[u]).workspace == workspace;
            assert(unmapped.contains(unmapped[u]));
            unmapped_stem_from_evidence(input, unmapped[u]);
            let k = choose|k: int|
                0 <= k < input.evidence.len() && binary_of(
                    #[trigger] input.evidence[k],
                    input.binary_owners,
                ) == Some(unmapped[u]);
            assert(concerns_another(input, input.evidence[k], workspace, package));
        }
    }
    let declared = declarations(input.manifests);
    let categories = categories_of(declared, workspace, package);
    categories_are_listed(input.manifests, workspace, package, DependencyCategory::Peer);
    categories_are_listed(input.manifests, workspace, package, DependencyCategory::Optional);
    collected_is_ordered::<NormalizedDependencyEvidence>(
        references_to(all_references(input), workspace, package),
    );
    let none = references_to(all_references(input), workspace, package);
    assert(none =~= Seq::empty());
    assert(retaining_references(input, workspace, package).len() == 0);
    o
}

proof fn categories_are_listed(
    manifests: Seq<DependencyManifestModel>,
    w: Seq<char>,
    p: Seq<char>,
    c: DependencyCategory,
)
    ensures
        categories_of(declarations(manifests), w, p).contains(c) <==> listed_under(
            manifests,
            w,
            p,
            c,
        ),
{
    let ds = declarations(manifests);
    declared_is_listed(manifests, w, p, c);
    let one = |category: DependencyCategory|
        if declared_as(ds, w, p, category) {
            seq![category]
        } else {
            Seq::<DependencyCategory>::empty()
        };
    let a = one(DependencyCategory::Runtime);
    let b = one(DependencyCategory::Development);
    let d = one(DependencyCategory::Peer);
    let e = one(DependencyCategory::Optional);
    let all = categories_of(ds, w, p);
    assert(all =~= a + b + d + e);
    if declared_as(ds, w, p, c) {
        let at = match c {
            DependencyCategory::Runtime => 0,
            DependencyCategory::Development => a.len() as int,
            DependencyCategory::Peer => (a + b).len() as int,
            DependencyCategory::Optional => (a + b + d).len() as int,
        };
        assert(all[at] == c);
    }
    if all.contains(c) {
        let i = choose|i: int| 0 <= i < all.len() && all[i] == c;
        assert(declared_as(ds, w, p, all[i]));
    }
}

/// Nothing is retained for nothing: every package that is retained is listed by its workspace,
/// and what it is retained for is a reachable piece of evidence of that workspace, or that the
/// workspace bundles it. No outcome cites evidence that was not given.
pub proof fn packages_are_retained_for_evidence(
    input: DependencyAnalysisInputModel,
    o: int,
    i: int,
)
    requires
        0 <= o < dependency_analysis(input).outcomes.len(),
        0 <= i < dependency_analysis(input).outcomes[o].evidence.len(),
    ensures
        ({
            let outcome = dependency_analysis(input).outcomes[o];
            let cited = outcome.evidence[i];
            &&& is_for(outcome, cited.workspace, cited.package)
            &&& {
                ||| cited.kind == DependencyEvidenceKind::Bundled && bundled_in(
                    input.manifests,
                    outcome.workspace,
                    outcome.package,
                )
                ||| exists|k: int|
                    0 <= k < input.evidence.len() && {
                        let e = #[trigger] input.evidence[k];
                        e.reachable && e.workspace == outcome.workspace && e.kind == cited.kind
                            && e.scope == cited.scope && e.source == cited.source && (e.kind
                            != DependencyEvidenceKind::Binary ==> npm_package(e.reference) == Some(
                            outcome.package,
                        ))
                    }
            }
        }),
{
    let outcome = dependency_analysis(input).outcomes[o];
    let cited = outcome.evidence[i];
    let pair = concerned_pairs(input)[o];
    let w = pair.0;
    let p = pair.1;
    assert(outcome == outcome_for(input, w, p));
    let declared = declarations(input.manifests);
    let found = references_to(all_references(input), w, p);
    let more = found.push(crate::analysis::dependencies::bundling(w, p));
    collected_is_ordered::<NormalizedDependencyEvidence>(found);
    collected_is_ordered::<NormalizedDependencyEvidence>(more);
    assert(outcome.evidence.contains(cited));
    if !found.contains(cited) {
        assert(is_declared(declared, w, p));
        assert(is_bundled(input.manifests, w, p));
        assert(more.contains(cited));
        let j = choose|j: int| 0 <= j < more.len() && more[j] == cited;
        if j < found.len() {
            assert(found[j] == cited);
        }
        let m = choose|m: int|
            0 <= m < input.manifests.len() && #[trigger] crate::analysis::dependencies::bundles(
                input.manifests,
                declared,
                m,
                w,
                p,
            );
        let k = choose|k: int|
            0 <= k < input.manifests[m].bundled_dependencies.len() && npm_package(
                #[trigger] input.manifests[m].bundled_dependencies[k],
            ) == Some(p);
        assert(bundled_in(input.manifests, w, p));
    } else {
        references_to_holds(all_references(input), w, p, cited);
        let given = package_references(input.evidence, input.binary_owners, declared);
        collected_is_ordered::<NormalizedDependencyEvidence>(given);
        assert(given.contains(cited));
        references_are_those_given(input.evidence, input.binary_owners, declared, cited);
        let k = choose|k: int|
            0 <= k < input.evidence.len() && reference_of(
                #[trigger] input.evidence[k],
                input.binary_owners,
                declared,
            ) == Some(cited);
        assert(input.evidence[k].reachable);
    }
}

/// An outcome names the fields in which its workspace lists the package, and no others; and it
/// says `Retained` exactly where the workspace lists the package and something is cited.
pub proof fn outcomes_say_where_packages_are_listed(input: DependencyAnalysisInputModel, o: int)
    requires
        0 <= o < dependency_analysis(input).outcomes.len(),
    ensures
        ({
            let outcome = dependency_analysis(input).outcomes[o];
            let own = listed_in(input.manifests, outcome.workspace, outcome.package);
            &&& outcome.declared_workspace is Some ==> forall|c: DependencyCategory| #[trigger]
                outcome.categories.contains(c) <==> listed_under(
                    input.manifests,
                    outcome.declared_workspace->0,
                    outcome.package,
                    c,
                )
            &&& own <==> outcome.declared_workspace == Some(outcome.workspace)
            &&& outcome.kind == DependencyOutcomeKind::Retained <==> own && outcome.evidence.len()
                > 0
            &&& outcome.kind == DependencyOutcomeKind::Misplaced || outcome.kind
                == DependencyOutcomeKind::Unlisted <==> !own
        }),
{
    let outcome = dependency_analysis(input).outcomes[o];
    let pair = concerned_pairs(input)[o];
    let w = pair.0;
    let p = pair.1;
    assert(outcome == outcome_for(input, w, p));
    is_declared_is_listed(input.manifests, w, p);
    if outcome.declared_workspace is Some {
        let place = outcome.declared_workspace->0;
        assert(outcome.categories == categories_of(declarations(input.manifests), place, p));
        assert forall|c: DependencyCategory| #[trigger]
            outcome.categories.contains(c) <==> listed_under(input.manifests, place, p, c) by {
            categories_are_listed(input.manifests, place, p, c);
        }
    }
}

/// A reachable binary that no package owns is told of, and while it is, no package that the
/// same workspace lists is found unused: what nothing else refers to is left open.
pub proof fn binaries_without_owner_leave_results_open(
    input: DependencyAnalysisInputModel,
    k: int,
    o: int,
)
    requires
        0 <= k < input.evidence.len(),
        input.evidence[k].reachable,
        input.evidence[k].kind == DependencyEvidenceKind::Binary,
        lookup(input.binary_owners, program_name(input.evidence[k].reference)) is None,
        0 <= o < dependency_analysis(input).outcomes.len(),
        dependency_analysis(input).outcomes[o].workspace == input.evidence[k].workspace,
    ensures
        ({
            let e = input.evidence[k];
            let outcome = dependency_analysis(input).outcomes[o];
            &&& dependency_analysis(input).unmapped_binaries.contains(
                UnmappedBinaryModel {
                    workspace: e.workspace,
                    binary: program_name(e.reference),
                    source: e.source,
                },
            )
            &&& outcome.kind != DependencyOutcomeKind::Unused
            &&& outcome.kind != DependencyOutcomeKind::UnreferencedPeer
            &&& outcome.kind != DependencyOutcomeKind::UnreferencedOptional
        }),
{
    let e = input.evidence[k];
    let u = UnmappedBinaryModel {
        workspace: e.workspace,
        binary: program_name(e.reference),
        source: e.source,
    };
    assert(binary_of(input.evidence[k], input.binary_owners) == Some(u));
    unmapped_stem_from_evidence(input, u);
    let outcome = dependency_analysis(input).outcomes[o];
    let pair = concerned_pairs(input)[o];
    let w = pair.0;
    let p = pair.1;
    assert(outcome == outcome_for(input, w, p));
    let unmapped = all_unmapped(input);
    let b = (None::<Seq<char>>, unmapped_reason(u));
    let at = choose|at: int| 0 <= at < unmapped.len() && unmapped[at] == u;
    binary_blocks(unmapped, w, at);
    let stated = stated_blockers(input.blockers, w);
    let binary = binary_blockers(unmapped, w);
    let j = choose|j: int| 0 <= j < binary.len() && binary[j] == b;
    assert((stated + binary)[stated.len() + j] == b);
    collected_is_ordered::<(Option<String>, String)>(stated + binary);
    let blockers = workspace_blockers(input.blockers, unmapped, w);
    assert(blockers.contains(b));
    let q = choose|q: int| 0 <= q < blockers.len() && blockers[q] == b;
    assert(concerns(blockers[q], p));
    reasons_are_those_given(blockers, p, b.1);
    assert(reasons_for(blockers, p).contains(b.1));
}

proof fn binary_blocks(unmapped: Seq<UnmappedBinaryModel>, w: Seq<char>, at: int)
    requires
        0 <= at < unmapped.len(),
        unmapped[at].workspace == w,
    ensures
        binary_blockers(unmapped, w).contains((None, unmapped_reason(unmapped[at]))),
    decreases unmapped.len(),
{
    let front = unmapped.drop_last();
    let rest = binary_blockers(front, w);
    let all = binary_blockers(unmapped, w);
    let b = (None::<Seq<char>>, unmapped_reason(unmapped[at]));
    if at < front.len() {
        binary_blocks(front, w, at);
        let j = choose|j: int| 0 <= j < rest.len() && rest[j] == b;
        assert(all[j] == b);
    } else {
        assert(all[all.len() - 1] == b);
    }
}

proof fn stated_blocker_is_listed(
    blockers: Seq<DependencyBlockerModel>,
    w: Seq<char>,
    b: int,
    package: Option<Seq<char>>,
)
    requires
        0 <= b < blockers.len(),
        blockers[b].workspace == w,
        blocked_package(blockers[b].package) == Some(package),
    ensures
        stated_blockers(blockers, w).contains((package, blockers[b].reason)),
    decreases blockers.len(),
{
    let front = blockers.drop_last();
    let rest = stated_blockers(front, w);
    let all = stated_blockers(blockers, w);
    let x = (package, blockers[b].reason);
    if b < front.len() {
        stated_blocker_is_listed(front, w, b, package);
        let j = choose|j: int| 0 <= j < rest.len() && rest[j] == x;
        assert(all[j] == x);
    } else {
        assert(all[all.len() - 1] == x);
    }
}

/// What blocks conclusions on a workspace, or on one package of it, keeps the packages that it
/// concerns from being found unused: those that nothing refers to are left open, and the reason
/// is given.
pub proof fn blockers_leave_results_open(input: DependencyAnalysisInputModel, b: int, o: int)
    requires
        0 <= b < input.blockers.len(),
        0 <= o < dependency_analysis(input).outcomes.len(),
        dependency_analysis(input).outcomes[o].workspace == input.blockers[b].workspace,
        input.blockers[b].package is None || npm_package(input.blockers[b].package->0) == Some(
            dependency_analysis(input).outcomes[o].package,
        ),
    ensures
        ({
            let outcome = dependency_analysis(input).outcomes[o];
            let own = listed_in(input.manifests, outcome.workspace, outcome.package);
            &&& outcome.kind != DependencyOutcomeKind::Unused
            &&& outcome.kind != DependencyOutcomeKind::UnreferencedPeer
            &&& outcome.kind != DependencyOutcomeKind::UnreferencedOptional
            &&& own && outcome.evidence.len() == 0 ==> outcome.kind
                == DependencyOutcomeKind::Undetermined
            &&& own ==> outcome.blockers.contains(input.blockers[b].reason)
        }),
{
    let outcome = dependency_analysis(input).outcomes[o];
    let pair = concerned_pairs(input)[o];
    let w = pair.0;
    let p = pair.1;
    assert(outcome == outcome_for(input, w, p));
    is_declared_is_listed(input.manifests, w, p);
    let package = match input.blockers[b].package {
        None => None,
        Some(name) => npm_package(name),
    };
    stated_blocker_is_listed(input.blockers, w, b, package);
    let x = (package, input.blockers[b].reason);
    let stated = stated_blockers(input.blockers, w);
    let binary = binary_blockers(all_unmapped(input), w);
    let j = choose|j: int| 0 <= j < stated.len() && stated[j] == x;
    assert((stated + binary)[j] == x);
    assert((stated + binary).contains(x));
    collected_is_ordered::<(Option<String>, String)>(stated + binary);
    let blockers = workspace_blockers(input.blockers, all_unmapped(input), w);
    assert(blockers.contains(x));
    let q = choose|q: int| 0 <= q < blockers.len() && blockers[q] == x;
    assert(concerns(blockers[q], p));
    reasons_are_those_given(blockers, p, x.1);
    assert(reasons_for(blockers, p).contains(x.1));
}

} // verus!
