use orphanode::analysis::members::{DeepFacts, DeepResolution};
use orphanode::application::deep::{
    build_cached_evidence, canonicalize_deep_facts, deep_cache_key, deep_query_batch,
    deep_worker_diagnostic, group_deep_queries, resolve_deep_raw_resolution,
    take_cached_evidence, take_deep_replies, validate_deep_spans, DeepAnswer,
    DeepOverrideRelationship, DeepRawFacts, DeepRawResolution, DeepReply, DeepSourceSpan,
    DeepSymbolIdentity,
};
use orphanode::application::diagnostics::merge_duplicate_diagnostics;
use orphanode::application::entries::{
    add_entry_candidate, is_conventional_entry, map_entry_to_source, source_variants,
};
use orphanode::application::exports::{
    deduplicate_preserving_order, runtime_output_path, single_wildcard_capture,
};
use orphanode::application::patterns::{matches_among, pattern_matches};
use orphanode::application::plugin_edges::{append_file_transform_edges, PackageFiles};
use orphanode::application::requests::{has_yarn_pnp_manifest, is_test_path, AnalysisIssue};
use orphanode::application::targets::{
    default_target_profiles, normalized_profiles, resolve_conditions_for_targets,
};
use orphanode::cache::digest::Digest;
use orphanode::collections::{OrderedMap, OrderedSet};
use orphanode::discovery::workspace::{
    display_workspace, ProjectConfiguration, ProjectConfigurationKind, WorkspaceDiscovery,
};
use orphanode::domain::facts::{AnalysisDiagnostic, DiagnosticSeverity, SourceSpan};
use orphanode::paths::FilePath;
use orphanode::plugins::contract::FileTransformContribution;

#[test]
fn test_paths_follow_common_runner_conventions() {
    for path in [
        "src/service.test.ts",
        "src/service.test.js",
        "src/service.spec.tsx",
        "apps/backend/test/app.e2e-spec.ts",
        "tests/helpers/setup.ts",
        "test/jest.setup.ts",
        "components/__tests__/button.tsx",
        "stories/Button.stories.ts",
        "e2e/login.ts",
    ] {
        assert!(is_test_path(path), "`{path}` should be a test path");
    }
    for path in [
        "src/service.ts",
        "src/contest.ts",
        "lib/latest.ts",
        "src/testing.ts",
        "src/specification.ts",
        "src/main.mts",
    ] {
        assert!(!is_test_path(path), "`{path}` should not be a test path");
    }
}

#[test]
fn all_issue_selection_contains_every_public_rule_family() {
    let issues = AnalysisIssue::all();
    assert_eq!(issues.len(), 6);
    assert!(issues.contains(&AnalysisIssue::Members));
}

#[test]
fn profile_merge_collapses_diagnostics_that_differ_only_by_target_prefix() {
    let make_diagnostic = |message: String| AnalysisDiagnostic {
        code: "outside_file_universe".to_owned(),
        path: "src/index.ts".to_owned(),
        severity: DiagnosticSeverity::Error,
        span: Some(SourceSpan { start: 8, end: 30 }),
        message,
        blocks_reachability: true,
    };
    let mut diagnostics = vec![
        make_diagnostic("[target node] `a` resolved nowhere".to_owned()),
        make_diagnostic("`b` is not analyzable".to_owned()),
        make_diagnostic("[target browser] `a` resolved nowhere".to_owned()),
        make_diagnostic("[target cli] `a` resolved nowhere".to_owned()),
    ];

    merge_duplicate_diagnostics(&mut diagnostics);

    assert_eq!(diagnostics.len(), 2);
    assert_eq!(
        diagnostics[0].message,
        "[target browser, cli, node] `a` resolved nowhere"
    );
    assert_eq!(diagnostics[1].message, "`b` is not analyzable");
}

#[test]
fn diagnostics_with_other_texts_do_not_keep_profiles_apart() {
    let make_diagnostic = |message: &str| AnalysisDiagnostic {
        code: "c".to_owned(),
        path: "p".to_owned(),
        severity: DiagnosticSeverity::Error,
        span: None,
        message: message.to_owned(),
        blocks_reachability: true,
    };
    let mut diagnostics = vec![
        make_diagnostic("[target browser] a"),
        make_diagnostic("[target browser] b"),
        make_diagnostic("[target node] a"),
        make_diagnostic("[target node] b"),
    ];

    merge_duplicate_diagnostics(&mut diagnostics);

    assert_eq!(
        diagnostics,
        [
            make_diagnostic("[target browser, node] a"),
            make_diagnostic("[target browser, node] b"),
        ]
    );
}

#[test]
fn merged_diagnostics_stand_where_the_first_stood() {
    let make_diagnostic = |message: &str| AnalysisDiagnostic {
        code: "c".to_owned(),
        path: "p".to_owned(),
        severity: DiagnosticSeverity::Error,
        span: None,
        message: message.to_owned(),
        blocks_reachability: true,
    };
    let mut diagnostics = vec![
        make_diagnostic("[target node] b"),
        make_diagnostic("[target browser] b"),
        make_diagnostic("[target browser] a"),
    ];

    merge_duplicate_diagnostics(&mut diagnostics);

    assert_eq!(
        diagnostics,
        [
            make_diagnostic("[target browser] a"),
            make_diagnostic("[target browser, node] b"),
        ]
    );
}

#[test]
fn paths_are_shown_with_forward_slashes() {
    assert_eq!(display_workspace(&FilePath::parse("packages\\app")), "packages/app");
    assert!(is_conventional_entry("node", &FilePath::parse("examples\\a.ts")));
    assert!(!is_conventional_entry("node", &FilePath::parse("src\\a.ts")));
    let mut entries = OrderedSet::new();
    let mut diagnostics = Vec::new();

    add_entry_candidate(
        &FilePath::parse("src\\gone.ts"),
        "package.json",
        &Vec::new(),
        &OrderedSet::from_items(paths(&["src/a.ts"])),
        &mut entries,
        &mut diagnostics,
    );

    assert!(entries.is_empty());
    assert_eq!(diagnostics[0].code, "entry_source_not_found");
    assert_eq!(diagnostics[0].path, "src/gone.ts");
}

#[test]
fn absolute_paths_are_matched_below_their_root() {
    let root = FilePath::parse("/r");

    assert!(pattern_matches(&root, "a", &FilePath::parse("/r/a")));
    assert!(pattern_matches(&root, "/b/*.ts", &FilePath::parse("/r/b/a.ts")));
    assert!(!pattern_matches(&root, "b", &FilePath::parse("/r/a")));
    assert!(!pattern_matches(&root, "a", &FilePath::parse("/s/a")));
}

#[test]
fn emitted_javascript_entry_maps_back_to_typescript_source() {
    let files = OrderedSet::from_items(vec![FilePath::parse("src/cli/index.ts")]);
    let configurations = vec![configuration()];

    assert_eq!(
        map_entry_to_source(
            &FilePath::parse("dist/cli/index.js"),
            &configurations,
            &files
        ),
        Some(FilePath::parse("src/cli/index.ts"))
    );
}

#[test]
fn extensionless_entries_expand_deterministically() {
    let variants = source_variants(&FilePath::parse("src/index"));
    assert!(variants.contains(&FilePath::parse("src/index.ts")));
    assert!(variants.contains(&FilePath::parse("src/index.js")));
}

#[test]
fn yarn_pnp_requires_the_manifest_not_only_the_esm_loader() {
    assert!(!has_yarn_pnp_manifest(&vec![FilePath::parse(
        ".pnp.loader.mjs"
    )]));
    assert!(has_yarn_pnp_manifest(&vec![
        FilePath::parse(".pnp.loader.mjs"),
        FilePath::parse(".pnp.cjs"),
    ]));
}

#[test]
fn file_transform_materializes_every_existing_declared_output() {
    let transform = FileTransformContribution {
        source_pattern: "src/*.vue".to_owned(),
        output_extensions: vec!["js".to_owned(), "ts".to_owned()],
        reason: "compiled component".to_owned(),
    };
    let mut edges = OrderedSet::new();
    let mut diagnostics = Vec::new();

    append_file_transform_edges(
        &mut edges,
        &mut diagnostics,
        ".",
        "Vue",
        &transform,
        &package_files(&["src/view.vue", "src/view.js", "src/view.ts"]),
        &paths(&["src/view.vue", "src/view.js", "src/view.ts"]),
    );

    assert_eq!(edges.len(), 2);
    assert!(diagnostics.is_empty());
}

#[test]
fn file_transform_blocks_when_a_matched_source_has_no_output() {
    let transform = FileTransformContribution {
        source_pattern: "src/*.vue".to_owned(),
        output_extensions: vec!["js".to_owned()],
        reason: "compiled component".to_owned(),
    };
    let mut edges = OrderedSet::new();
    let mut diagnostics = Vec::new();

    append_file_transform_edges(
        &mut edges,
        &mut diagnostics,
        ".",
        "Vue",
        &transform,
        &package_files(&["src/view.vue"]),
        &paths(&["src/view.vue"]),
    );

    assert!(edges.is_empty());
    assert_eq!(diagnostics[0].code, "plugin_transform_output_missing");
    assert!(diagnostics[0].blocks_reachability);
}

#[test]
fn deep_evidence_from_dead_files_and_dead_bases_does_not_retain() {
    let raw = DeepRawResolution::Resolved(DeepRawFacts {
        references: vec![span("src/dead-reference.ts", 4, 8)],
        overrides: vec![DeepOverrideRelationship {
            symbol: DeepSymbolIdentity {
                id: "base:member".to_owned(),
                name: "member".to_owned(),
                declarations: vec![span("src/dead-base.ts", 10, 16)],
            },
            owner: Some(DeepSymbolIdentity {
                id: "base".to_owned(),
                name: "Base".to_owned(),
                declarations: vec![span("src/dead-base.ts", 0, 20)],
            }),
            owner_exported: true,
            references: vec![span("src/dead-reference.ts", 4, 8)],
        }],
    });
    let reachable = OrderedSet::from_items(vec!["src/entry.ts".to_owned()]);

    assert_eq!(
        resolve_deep_raw_resolution(&raw, &reachable, &workspace(), &vec![]),
        DeepResolution::Resolved(DeepFacts {
            receiver_may_reference_member: false,
            live_override_contract: false,
        })
    );
}

#[test]
fn deep_evidence_from_live_files_retains() {
    let raw = DeepRawResolution::Resolved(DeepRawFacts {
        references: vec![span("src/entry.ts", 4, 8)],
        overrides: Vec::new(),
    });
    let reachable = OrderedSet::from_items(vec!["src/entry.ts".to_owned()]);

    assert_eq!(
        resolve_deep_raw_resolution(&raw, &reachable, &workspace(), &vec![]),
        DeepResolution::Resolved(DeepFacts {
            receiver_may_reference_member: true,
            live_override_contract: false,
        })
    );
}

#[test]
fn deep_cache_identity_covers_effective_config_source_and_compiler() {
    let source = Digest::of_bytes(b"source-a");
    let baseline = deep_cache_key(b"config-a", "typescript-a", "tsconfig.json", source)
        .expect("baseline cache key");

    assert_ne!(
        baseline,
        deep_cache_key(b"config-b", "typescript-a", "tsconfig.json", source)
            .expect("config cache key")
    );
    assert_ne!(
        baseline,
        deep_cache_key(b"config-a", "typescript-b", "tsconfig.json", source)
            .expect("compiler cache key")
    );
    assert_ne!(
        baseline,
        deep_cache_key(
            b"config-a",
            "typescript-a",
            "tsconfig.json",
            Digest::of_bytes(b"source-b"),
        )
        .expect("source cache key")
    );
}

#[test]
fn places_outside_the_project_are_not_trusted() {
    assert!(validate_deep_spans(&vec![span("src/a.ts", 1, 2)]));
    assert!(!validate_deep_spans(&vec![span("../a.ts", 1, 2)]));
    assert!(!validate_deep_spans(&vec![span("src/a.ts", 2, 1)]));
    let facts = DeepRawFacts {
        references: vec![span("src/a.ts", 1, 2), span("src/b.ts", 1, 2)],
        overrides: Vec::new(),
    };
    let allowed = OrderedSet::from_items(vec!["src/a.ts".to_owned()]);
    let kept = canonicalize_deep_facts(&facts, &allowed).expect("safe facts");
    assert_eq!(kept.references, [span("src/a.ts", 1, 2)]);
}

#[test]
fn answers_in_front_of_a_useless_one_are_kept() {
    let batch = vec![("src/a.ts".to_owned(), 3), ("src/b.ts".to_owned(), 4)];
    let allowed = OrderedSet::from_items(vec!["src/a.ts".to_owned()]);
    let noted = |query: usize, note: &str| DeepReply {
        query: Some(query),
        answer: DeepAnswer::Noted(note.to_owned()),
    };
    let mut evidence = OrderedMap::new();
    evidence.insert(
        ("src/c.ts".to_owned(), 5),
        DeepRawResolution::Unavailable("before".to_owned()),
    );

    let taken = take_deep_replies(
        &vec![
            noted(0, "first"),
            DeepReply {
                query: Some(1),
                answer: DeepAnswer::InvalidReferences("cut off".to_owned()),
            },
            noted(0, "later"),
        ],
        &batch,
        &allowed,
        &mut evidence,
    );

    assert_eq!(taken, Err("invalid deep reference facts: cut off".to_owned()));
    assert_eq!(
        evidence.into_entries(),
        [
            (
                ("src/a.ts".to_owned(), 3),
                DeepRawResolution::Unavailable("first".to_owned())
            ),
            (
                ("src/c.ts".to_owned(), 5),
                DeepRawResolution::Unavailable("before".to_owned())
            ),
        ]
    );
    assert_eq!(
        deep_cache_key(b"config", "typescript", "../tsconfig.json", Digest::of_bytes(b"")),
        Err("file identity must be a canonical relative path")
    );
}

#[test]
fn deep_queries_are_grouped_and_answered() {
    let candidates = OrderedSet::from_items(vec![
        ("src/a.ts".to_owned(), 3),
        ("src/b.ts".to_owned(), 4),
        ("lib/c.js".to_owned(), 5),
    ]);
    let queries = group_deep_queries(&candidates, &vec![configuration()]);
    let group = &queries.groups.entries()[0].1;
    let batch = deep_query_batch(group, 0);
    let mut evidence = OrderedMap::new();
    let allowed =
        OrderedSet::from_items(vec!["src/a.ts".to_owned(), "src/b.ts".to_owned()]);
    let taken = take_deep_replies(
        &vec![DeepReply {
            query: Some(0),
            answer: DeepAnswer::Resolved(DeepRawFacts {
                references: vec![span("src/b.ts", 1, 2)],
                overrides: Vec::new(),
            }),
        }],
        &batch,
        &allowed,
        &mut evidence,
    );

    assert!(taken.is_ok());
    assert!(matches!(
        evidence.get(&batch[0]),
        Some(DeepRawResolution::Resolved(_))
    ));
    let cached = build_cached_evidence(&batch, &evidence, &None, "tsconfig.json", "ts-1");
    if let Some(cached) = cached {
        let found = take_cached_evidence(
            &cached,
            "tsconfig.json",
            "ts-1",
            &vec![("src/a.ts".to_owned(), 3)],
            &allowed,
        );
        assert!(found.is_some());
        assert!(
            take_cached_evidence(&cached, "tsconfig.json", "ts-2", &batch, &allowed).is_none()
        );
    }
}

#[test]
fn missing_workers_are_told_without_blocking() {
    let diagnostic = deep_worker_diagnostic("no worker");

    assert_eq!(diagnostic.code, "deep_worker_unavailable");
    assert_eq!(
        diagnostic.message,
        "Deep member analysis is conservative: no worker"
    );
    assert!(!diagnostic.blocks_reachability);
}

#[test]
fn patterns_match_as_in_ignore_files() {
    let root = FilePath::parse("/workspace");

    assert!(pattern_matches(&root, "src/*.vue", &FilePath::parse("src/view.vue")));
    assert!(!pattern_matches(&root, "src/*.vue", &FilePath::parse("src/view.ts")));
    assert!(pattern_matches(&root, "generated/", &FilePath::parse("generated/a.ts")));
    assert!(!pattern_matches(&root, "src/*.vue", &FilePath::parse("/src/view.vue")));
    assert_eq!(
        matches_among(&root, "*.ts", &paths(&["a.ts", "b.js", "c/d.ts"])),
        [true, false, true]
    );
}

#[test]
fn repeated_texts_are_kept_once_in_order() {
    let mut values = vec!["b".to_owned(), "a".to_owned(), "b".to_owned()];

    deduplicate_preserving_order(&mut values);

    assert_eq!(values, ["b", "a"]);
}

#[test]
fn wildcards_capture_what_stands_for_them() {
    assert_eq!(
        single_wildcard_capture("./features/*.js", "./features/a/b.js"),
        Some("a/b".to_owned())
    );
    assert_eq!(single_wildcard_capture("./features/*.js", "./other/a.js"), None);
    assert_eq!(single_wildcard_capture("./a*b*c", "./axbyc"), None);
}

#[test]
fn sources_are_emitted_as_scripts() {
    assert_eq!(
        runtime_output_path(&FilePath::parse("src/a.mts")),
        FilePath::parse("src/a.mjs")
    );
    assert_eq!(
        runtime_output_path(&FilePath::parse("src/a.tsx")),
        FilePath::parse("src/a.js")
    );
}

#[test]
fn profiles_name_conditions() {
    let conditions = resolve_conditions_for_targets(&vec!["node".to_owned()], &OrderedMap::new())
        .expect("built-in profile");

    assert!(conditions.contains(&"node".to_owned()));
    assert!(
        resolve_conditions_for_targets(&vec!["gone".to_owned()], &OrderedMap::new()).is_err()
    );
    assert_eq!(normalized_profiles(&Vec::new()), default_target_profiles());
}

fn configuration() -> ProjectConfiguration {
    ProjectConfiguration {
        path: FilePath::parse("tsconfig.json"),
        root: FilePath::parse(""),
        kind: ProjectConfigurationKind::TypeScript,
        root_dir: Some(FilePath::parse("src")),
        out_dir: Some(FilePath::parse("dist")),
        dependency_evidence: Vec::new(),
    }
}

fn workspace() -> WorkspaceDiscovery {
    WorkspaceDiscovery {
        workspace_root: FilePath::parse("/workspace"),
        packages: Vec::new(),
        package_manager: None,
        yarn_plug_and_play: Vec::new(),
    }
}

fn paths(values: &[&str]) -> Vec<FilePath> {
    values.iter().map(|value| FilePath::parse(value)).collect()
}

fn package_files(values: &[&str]) -> PackageFiles {
    PackageFiles {
        root: FilePath::parse("/workspace"),
        paths: paths(values),
        relatives: paths(values),
    }
}

fn span(path: &str, start: u32, end: u32) -> DeepSourceSpan {
    DeepSourceSpan {
        path: path.to_owned(),
        start,
        end,
    }
}
