use orphanode::analysis::dependencies::{
    analyze_dependencies, DependencyAnalysis, DependencyAnalysisInput, DependencyBlocker,
    DependencyCategory, DependencyConfidence, DependencyEvidence, DependencyEvidenceKind,
    DependencyEvidenceScope, DependencyManifest, DependencyOutcomeKind,
};
use orphanode::analysis::packages::{is_node_builtin, npm_alias_target, package_name};
use orphanode::collections::{OrderedMap, OrderedSet};

#[test]
fn package_names_cover_scopes_subpaths_aliases_and_builtins() {
    assert_eq!(package_name("lodash/fp"), Some("lodash".to_owned()));
    assert_eq!(
        package_name("@scope/package/subpath"),
        Some("@scope/package".to_owned())
    );
    assert_eq!(
        package_name("npm:@scope/real@^2"),
        Some("@scope/real".to_owned())
    );
    assert_eq!(
        npm_alias_target("npm:real-package@~1.2"),
        Some("real-package".to_owned())
    );
    assert_eq!(package_name("node:test"), None);
    assert_eq!(package_name("fs/promises"), None);
    assert_eq!(package_name("./local.js"), None);
}

#[test]
fn reachable_type_only_and_binary_evidence_retain_declarations() {
    let manifest = manifest(
        ".",
        [("typescript", "^6"), ("@types/node", "^24")],
        [],
        [],
        [],
    );
    let evidence = vec![
        evidence(
            ".",
            "@types/node/index.d.ts",
            DependencyEvidenceKind::TypeOnlyImport,
            "src/public.ts",
        ),
        evidence(".", "tsc", DependencyEvidenceKind::Binary, "scripts.build"),
    ];
    let binary_owners = map([("tsc", "typescript")]);
    let manifests = vec![manifest];

    let analysis = analyze_dependencies(input(&manifests, &evidence, &binary_owners, &vec![]));

    assert!(analysis
        .outcomes
        .iter()
        .all(|outcome| { matches!(outcome.kind, DependencyOutcomeKind::Retained) }));
    assert_eq!(analysis.outcomes.len(), 2);
    assert!(analysis.unmapped_binaries.is_empty());
}

#[test]
fn unused_categories_have_policy_specific_outcomes() {
    let manifest = manifest(
        ".",
        [("runtime", "1")],
        [("tool", "1")],
        [("peer", "1")],
        [("optional", "1")],
    );
    let manifests = vec![manifest];

    let analysis = analyze_dependencies(input(&manifests, &vec![], &OrderedMap::new(), &vec![]));

    assert_eq!(outcome(&analysis, "runtime"), DependencyOutcomeKind::Unused);
    assert_eq!(outcome(&analysis, "tool"), DependencyOutcomeKind::Unused);
    assert_eq!(
        outcome(&analysis, "peer"),
        DependencyOutcomeKind::UnreferencedPeer
    );
    assert_eq!(
        outcome(&analysis, "optional"),
        DependencyOutcomeKind::UnreferencedOptional
    );
}

#[test]
fn bundled_dependencies_are_retained_without_other_evidence() {
    let mut manifest = manifest(".", [("bundled", "1")], [], [], []);
    manifest.bundled_dependencies = OrderedSet::from_items(vec!["bundled".to_owned()]);
    let manifests = vec![manifest];

    let analysis = analyze_dependencies(input(&manifests, &vec![], &OrderedMap::new(), &vec![]));

    assert_eq!(
        outcome(&analysis, "bundled"),
        DependencyOutcomeKind::Retained
    );
}

#[test]
fn child_use_of_a_root_declaration_is_misplaced_not_root_usage() {
    let manifests = vec![
        manifest(".", [("hoisted", "1")], [], [], []),
        manifest("packages/child", [], [], [], []),
    ];
    let evidence = vec![evidence(
        "packages/child",
        "hoisted/subpath",
        DependencyEvidenceKind::SourceImport,
        "packages/child/src/index.ts",
    )];

    let analysis = analyze_dependencies(input(&manifests, &evidence, &OrderedMap::new(), &vec![]));

    assert!(analysis.outcomes.iter().any(|outcome| {
        outcome.workspace == "packages/child"
            && outcome.package == "hoisted"
            && outcome.kind == DependencyOutcomeKind::Misplaced
            && outcome.declared_workspace.as_deref() == Some(".")
    }));
    assert!(analysis.outcomes.iter().any(|outcome| {
        outcome.workspace == "."
            && outcome.package == "hoisted"
            && outcome.kind == DependencyOutcomeKind::Unused
    }));
}

#[test]
fn reachable_undeclared_packages_are_unlisted() {
    let manifests = vec![manifest(".", [], [], [], [])];
    let evidence = vec![evidence(
        ".",
        "missing/subpath",
        DependencyEvidenceKind::SourceImport,
        "src/index.ts",
    )];

    let analysis = analyze_dependencies(input(&manifests, &evidence, &OrderedMap::new(), &vec![]));

    assert_eq!(
        outcome(&analysis, "missing"),
        DependencyOutcomeKind::Unlisted
    );
}

#[test]
fn blockers_prevent_high_confidence_unused_conclusions() {
    let manifests = vec![manifest(".", [("unknown", "1")], [], [], [])];
    let blockers = vec![DependencyBlocker {
        workspace: ".".to_owned(),
        package: Some("unknown/subpath".to_owned()),
        reason: "unresolved dynamic import".to_owned(),
    }];

    let analysis =
        analyze_dependencies(input(&manifests, &vec![], &OrderedMap::new(), &blockers));

    assert_eq!(
        outcome(&analysis, "unknown"),
        DependencyOutcomeKind::Undetermined
    );
}

#[test]
fn an_unmapped_reachable_binary_blocks_workspace_unused_conclusions() {
    let manifests = vec![manifest(".", [], [("tool", "1")], [], [])];
    let evidence = vec![evidence(
        ".",
        "mystery-tool",
        DependencyEvidenceKind::Binary,
        "scripts.check",
    )];

    let analysis = analyze_dependencies(input(&manifests, &evidence, &OrderedMap::new(), &vec![]));

    assert_eq!(
        outcome(&analysis, "tool"),
        DependencyOutcomeKind::Undetermined
    );
    assert_eq!(analysis.unmapped_binaries[0].binary, "mystery-tool");
}

#[test]
fn npm_alias_import_and_installed_binary_owner_retain_the_alias() {
    let manifest = manifest(".", [("pretty", "npm:prettier@^4")], [], [], []);
    let evidence = vec![
        evidence(
            ".",
            "pretty/plugins/babel",
            DependencyEvidenceKind::SourceImport,
            "prettier.config.js",
        ),
        evidence(
            ".",
            "prettier",
            DependencyEvidenceKind::Binary,
            "scripts.format",
        ),
    ];
    let binary_owners = map([("prettier", "prettier")]);
    let manifests = vec![manifest];

    let analysis = analyze_dependencies(input(&manifests, &evidence, &binary_owners, &vec![]));

    assert_eq!(
        outcome(&analysis, "pretty"),
        DependencyOutcomeKind::Retained
    );
    assert!(!analysis
        .outcomes
        .iter()
        .any(|outcome| outcome.package == "prettier"));
}

#[test]
fn categories_are_stably_ordered_when_manifest_fields_overlap() {
    let manifest = manifest(
        ".",
        [("shared", "1")],
        [("shared", "1")],
        [("shared", "1")],
        [],
    );
    let manifests = vec![manifest];

    let analysis = analyze_dependencies(input(&manifests, &vec![], &OrderedMap::new(), &vec![]));
    let shared = analysis
        .outcomes
        .iter()
        .find(|outcome| outcome.package == "shared")
        .expect("shared outcome");

    assert_eq!(
        shared.categories,
        [
            DependencyCategory::Runtime,
            DependencyCategory::Development,
            DependencyCategory::Peer,
        ]
    );
}

#[test]
fn unreachable_evidence_retains_nothing() {
    let manifests = vec![manifest(".", [("left", "1")], [], [], [])];
    let mut seen = evidence(
        ".",
        "left",
        DependencyEvidenceKind::SourceImport,
        "src/dead.ts",
    );
    seen.reachable = false;

    let analysis = analyze_dependencies(input(&manifests, &vec![seen], &OrderedMap::new(), &vec![]));

    assert_eq!(outcome(&analysis, "left"), DependencyOutcomeKind::Unused);
}

#[test]
fn outcomes_stand_in_order_with_their_confidence() {
    let manifests = vec![
        manifest("b", [("zeta", "1"), ("alpha", "1")], [], [], []),
        manifest("a", [("mid", "1")], [], [], []),
    ];

    let analysis = analyze_dependencies(input(&manifests, &vec![], &OrderedMap::new(), &vec![]));

    let named = analysis
        .outcomes
        .iter()
        .map(|outcome| (outcome.workspace.as_str(), outcome.package.as_str()))
        .collect::<Vec<_>>();
    assert_eq!(named, [("a", "mid"), ("b", "alpha"), ("b", "zeta")]);
    assert!(analysis
        .outcomes
        .iter()
        .all(|outcome| outcome.confidence == DependencyConfidence::High));
}

#[test]
fn order_and_repetition_of_evidence_do_not_matter() {
    let manifests = vec![manifest(".", [("left", "1"), ("right", "1")], [], [], [])];
    let owners = OrderedMap::new();
    let left = || evidence(".", "left", DependencyEvidenceKind::SourceImport, "a.js");
    let tool = || evidence(".", "tool", DependencyEvidenceKind::Binary, "scripts.build");
    let mut unreachable = evidence(".", "right", DependencyEvidenceKind::SourceImport, "b.js");
    unreachable.reachable = false;

    let once = vec![left(), tool()];
    let often = vec![tool(), left(), unreachable, tool(), left()];

    assert_eq!(
        analyze_dependencies(input(&manifests, &once, &owners, &vec![])),
        analyze_dependencies(input(&manifests, &often, &owners, &vec![]))
    );
}

#[test]
fn further_blockers_only_leave_results_open() {
    let manifests = vec![manifest(".", [("left", "1"), ("right", "1")], [], [("peer", "1")], [])];
    let owners = OrderedMap::new();
    let given = vec![
        evidence(".", "left", DependencyEvidenceKind::SourceImport, "a.js"),
        evidence(".", "unlisted", DependencyEvidenceKind::SourceImport, "a.js"),
    ];
    let blockers = vec![DependencyBlocker {
        workspace: ".".to_owned(),
        package: Some("right/sub".to_owned()),
        reason: "unknown".to_owned(),
    }];

    let before = analyze_dependencies(input(&manifests, &given, &owners, &vec![]));
    let after = analyze_dependencies(input(&manifests, &given, &owners, &blockers));

    for package in ["left", "peer", "unlisted"] {
        assert_eq!(outcome(&before, package), outcome(&after, package));
    }
    assert_eq!(outcome(&before, "right"), DependencyOutcomeKind::Unused);
    assert_eq!(outcome(&after, "right"), DependencyOutcomeKind::Undetermined);
}

#[test]
fn named_packages_name_themselves() {
    for specifier in ["lodash/fp", "@scope/package/deep/file.js", "npm:@scope/real@^2", "a@b"] {
        let Some(name) = package_name(specifier) else {
            assert_eq!(specifier, "a@b");
            continue;
        };
        assert_eq!(package_name(&name), Some(name.clone()));
        assert!(!is_node_builtin(&name));
        assert!(!name.contains([':', '?', '#', '\\']));
    }
}

#[test]
fn builtin_modules_are_no_packages() {
    assert!(is_node_builtin("fs"));
    assert!(is_node_builtin("path"));
    assert!(!is_node_builtin("left-pad"));
    assert_eq!(package_name("@scope"), None);
    assert_eq!(package_name(""), None);
    assert_eq!(npm_alias_target("^1.0.0"), None);
}

fn manifest<const R: usize, const D: usize, const P: usize, const O: usize>(
    workspace: &str,
    runtime: [(&str, &str); R],
    development: [(&str, &str); D],
    peer: [(&str, &str); P],
    optional: [(&str, &str); O],
) -> DependencyManifest {
    DependencyManifest {
        workspace: workspace.to_owned(),
        dependencies: map(runtime),
        dev_dependencies: map(development),
        peer_dependencies: map(peer),
        optional_dependencies: map(optional),
        bundled_dependencies: OrderedSet::new(),
    }
}

fn map<const N: usize>(values: [(&str, &str); N]) -> OrderedMap<String, String> {
    let mut out = OrderedMap::new();
    for (name, requirement) in values {
        out.insert(name.to_owned(), requirement.to_owned());
    }
    out
}

fn evidence(
    workspace: &str,
    reference: &str,
    kind: DependencyEvidenceKind,
    source: &str,
) -> DependencyEvidence {
    DependencyEvidence {
        workspace: workspace.to_owned(),
        reference: reference.to_owned(),
        kind,
        scope: DependencyEvidenceScope::Runtime,
        source: source.to_owned(),
        reachable: true,
    }
}

fn input<'a>(
    manifests: &'a Vec<DependencyManifest>,
    evidence: &'a Vec<DependencyEvidence>,
    binary_owners: &'a OrderedMap<String, String>,
    blockers: &'a Vec<DependencyBlocker>,
) -> DependencyAnalysisInput<'a> {
    DependencyAnalysisInput {
        root_workspace: ".",
        manifests,
        evidence,
        binary_owners,
        blockers,
    }
}

fn outcome(analysis: &DependencyAnalysis, package: &str) -> DependencyOutcomeKind {
    analysis
        .outcomes
        .iter()
        .find(|outcome| outcome.package == package)
        .unwrap_or_else(|| panic!("missing outcome for {package}"))
        .kind
}
