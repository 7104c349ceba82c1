use orphanode::analysis::packages::package_name;
use orphanode::application::diagnostics::{enforce_diagnostic_limit, merge_duplicate_diagnostics};
use orphanode::application::errors::ScanError;
use orphanode::application::findings::SymbolAnalysis;
use orphanode::application::loading::{
    cache_status_name, check_source_size, fact_cache_key, CacheState, FactLoading, LoadStep,
};
use orphanode::application::profiles::{merge_file_status, merge_profile_reports};
use orphanode::application::resolution::{
    is_pnp_external_resolution, ModuleResolution, ResolvedFile, SourceUniverseKind,
};
use orphanode::application::scan::{
    scan, scan_with_limits, AnalysisLimits, Canonical, ScanContext, ScanEvidence, ScanRequest,
    SuppliedPath,
};
use orphanode::cache::digest::Digest;
use orphanode::cache::key::{CacheKey, ConfigDigest, ContentDigest, ProfileDigest};
use orphanode::cache::schema::CacheSchema;
use orphanode::cache::store::{
    generation_name, open_generation, CacheBody, CacheEntry, CacheLimits,
};
use orphanode::cli::options::{
    load_file_universe, report_exit_code, FileManifest, FileUniverse, UniverseOptions,
};
use orphanode::collections::{OrderedMap, OrderedSet};
use orphanode::domain::facts::{
    Activation, AnalysisDiagnostic, DiagnosticSeverity, FileFacts, ImportFact, ImportKind,
    ModuleKind, ResolutionMode, SourceKind, SourceSpan, SymbolFacts,
};
use orphanode::domain::report::{AnalysisStatus, FileStatus, ResolutionStatus, ScanReport};
use orphanode::paths::{
    is_analyzable_source, is_inert_asset, is_pnp_virtual_dependency_path, FilePath,
};
use orphanode::values::Value;

#[test]
fn extracts_package_names_without_mistaking_common_aliases_for_packages() {
    assert_eq!(package_name("chalk"), Some("chalk".to_owned()));
    assert_eq!(
        package_name("@scope/package/subpath"),
        Some("@scope/package".to_owned())
    );
    assert_eq!(package_name("@/components/button"), None);
    assert_eq!(package_name("./local.js"), None);
}

#[test]
fn distinguishes_inert_assets_from_embedded_code_formats() {
    assert!(is_inert_asset(&FilePath::parse("styles.module.css")));
    assert!(!is_inert_asset(&FilePath::parse("component.vue")));
    assert!(!is_inert_asset(&FilePath::parse("native-addon.node")));
    assert!(is_analyzable_source(&FilePath::parse("component.tsx")));
}

#[test]
fn pnp_archive_dependencies_are_external_before_host_canonicalization() {
    let virtual_dependency = FilePath::parse(
        "/workspace/.yarn/cache/chalk.zip/node_modules/chalk/source/index.js",
    );

    assert!(is_pnp_virtual_dependency_path(&virtual_dependency));
    assert!(is_pnp_external_resolution(
        "chalk",
        &virtual_dependency,
        false,
        true,
    ));
    assert!(is_pnp_external_resolution(
        "undeclared",
        &virtual_dependency,
        false,
        true,
    ));
    assert!(!is_pnp_external_resolution(
        "chalk",
        &virtual_dependency,
        true,
        true,
    ));
    assert!(!is_pnp_external_resolution(
        "./chalk",
        &virtual_dependency,
        false,
        true,
    ));
    assert!(!is_pnp_external_resolution(
        "chalk",
        &virtual_dependency,
        false,
        false,
    ));
    assert!(!is_pnp_virtual_dependency_path(&FilePath::parse(
        "/workspace/archive.zip/src/index.js"
    )));
    assert!(!is_pnp_virtual_dependency_path(&FilePath::parse(
        "/workspace/src/node_modules-helper.js"
    )));
}

#[test]
fn discovered_universes_treat_excluded_resolutions_as_external_boundaries() {
    let mut project = Project::new();
    project.file("src/index.ts", &[]);
    project.file("src/unused.ts", &[]);
    project.import(
        "src/index.ts",
        "./generated/client",
        ImportKind::Static,
        found("src/generated/client/index.js"),
    );
    project.context.universe_kind = SourceUniverseKind::Discovered;

    let report = project.scan(&["src/index.ts"]);

    let entry_file = report
        .files
        .iter()
        .find(|file| file.path.ends_with("src/index.ts"))
        .expect("entry file report");
    assert_eq!(
        entry_file.imports[0].status,
        ResolutionStatus::External,
        "an import into an excluded path stays an external boundary"
    );
    let diagnostic = report
        .diagnostics
        .iter()
        .find(|diagnostic| diagnostic.code == "resolved_into_excluded_path")
        .expect("excluded-path warning");
    assert_eq!(diagnostic.severity, DiagnosticSeverity::Warning);
    assert!(
        !diagnostic.blocks_reachability,
        "an excluded boundary must not suppress other findings"
    );
    assert!(report.findings.iter().any(|finding| {
        finding.paths.iter().any(|path| path == "src/unused.ts") && finding.issue_id == "ORP1001"
    }));
}

#[test]
fn targets_of_excluded_imports_are_shown_with_forward_slashes() {
    let mut project = Project::new();
    project.file("src/index.ts", &[]);
    project.import(
        "src/index.ts",
        "./generated/client",
        ImportKind::Static,
        found("src/generated\\client.js"),
    );
    project.context.universe_kind = SourceUniverseKind::Discovered;

    let report = project.scan(&["src/index.ts"]);

    assert_eq!(
        report.files[0].imports[0].target,
        Some("src/generated/client.js".to_owned())
    );
    assert!(report
        .diagnostics
        .iter()
        .any(|diagnostic| diagnostic.message.contains("src/generated\\client.js")));
}

#[test]
fn explicit_universes_still_report_resolutions_outside_the_universe() {
    let mut project = Project::new();
    project.file("src/index.ts", &[]);
    project.import(
        "src/index.ts",
        "./generated/client",
        ImportKind::Static,
        found("src/generated/client/index.js"),
    );

    let report = project.scan(&["src/index.ts"]);

    let entry_file = report
        .files
        .iter()
        .find(|file| file.path.ends_with("src/index.ts"))
        .expect("entry file report");
    assert_eq!(entry_file.imports[0].status, ResolutionStatus::Unresolved);
    let diagnostic = report
        .diagnostics
        .iter()
        .find(|diagnostic| diagnostic.code == "outside_file_universe")
        .expect("outside-universe error");
    assert_eq!(diagnostic.severity, DiagnosticSeverity::Error);
    assert!(diagnostic.blocks_reachability);
}

#[test]
fn esm_import_retains_its_target() {
    let mut project = Project::new();
    project.file("src/index.js", &[]);
    project.file("src/message.js", &[]);
    project.file("src/unused.js", &[]);
    project.import(
        "src/index.js",
        "./message.js",
        ImportKind::Static,
        found("src/message.js"),
    );

    let report = project.scan(&["src/index.js"]);

    assert_eq!(report.status, AnalysisStatus::Complete);
    assert_eq!(
        file_status(&report, "src/message.js"),
        FileStatus::Reachable
    );
    assert_eq!(
        file_status(&report, "src/unused.js"),
        FileStatus::Unreachable
    );
    assert!(finding_paths(&report).contains(&"src/unused.js"));
    assert_eq!(report.schema_version, "0.2");
    assert_eq!(report.entries, ["src/index.js"]);
}

#[test]
fn common_js_require_retains_its_target() {
    let mut project = Project::new();
    project.file("src/index.cjs", &[]);
    project.file("src/message.cjs", &[]);
    project.import(
        "src/index.cjs",
        "./message.cjs",
        ImportKind::CommonJsRequire,
        found("src/message.cjs"),
    );

    let report = project.scan(&["src/index.cjs"]);
    let entry = report
        .files
        .iter()
        .find(|file| file.path == "src/index.cjs")
        .expect("entry report");

    assert_eq!(
        file_status(&report, "src/message.cjs"),
        FileStatus::Reachable
    );
    assert_eq!(entry.imports[0].kind, ImportKind::CommonJsRequire);
    assert_eq!(entry.imports[0].status, ResolutionStatus::Resolved);
}

#[test]
fn side_effect_import_retains_its_target() {
    let mut project = Project::new();
    project.file("src/index.js", &[]);
    project.file("src/setup.js", &[]);
    project.import(
        "src/index.js",
        "./setup.js",
        ImportKind::SideEffect,
        found("src/setup.js"),
    );

    let report = project.scan(&["src/index.js"]);
    let entry = report
        .files
        .iter()
        .find(|file| file.path == "src/index.js")
        .expect("entry report");

    assert_eq!(entry.imports[0].kind, ImportKind::SideEffect);
    assert_eq!(file_status(&report, "src/setup.js"), FileStatus::Reachable);
}

#[test]
fn top_level_literal_dynamic_import_retains_its_target() {
    let mut project = Project::new();
    project.file("src/index.js", &[]);
    project.file("src/feature.js", &[]);
    project.import(
        "src/index.js",
        "./feature.js",
        ImportKind::Dynamic,
        found("src/feature.js"),
    );

    let report = project.scan(&["src/index.js"]);
    let entry = report
        .files
        .iter()
        .find(|file| file.path == "src/index.js")
        .expect("entry report");

    assert_eq!(entry.imports[0].kind, ImportKind::Dynamic);
    assert_eq!(
        file_status(&report, "src/feature.js"),
        FileStatus::Reachable
    );
}

#[test]
fn an_unreachable_cycle_is_grouped() {
    let mut project = Project::new();
    project.file("src/index.js", &[]);
    project.file("src/dead-a.js", &[]);
    project.file("src/dead-b.js", &[]);
    project.import(
        "src/dead-a.js",
        "./dead-b.js",
        ImportKind::Static,
        found("src/dead-b.js"),
    );
    project.import(
        "src/dead-b.js",
        "./dead-a.js",
        ImportKind::Static,
        found("src/dead-a.js"),
    );

    let report = project.scan(&["src/index.js"]);

    assert_eq!(report.findings.len(), 1);
    assert_eq!(
        report.findings[0].paths,
        vec!["src/dead-a.js", "src/dead-b.js"]
    );
}

#[test]
fn a_parse_failure_is_incomplete_and_never_unused() {
    let mut project = Project::new();
    project.file("src/index.js", &[]);
    project.file(
        "src/broken.js",
        &[AnalysisDiagnostic {
            code: "parse_failure".to_owned(),
            path: "src/broken.js".to_owned(),
            severity: DiagnosticSeverity::Error,
            span: None,
            message: "unexpected token".to_owned(),
            blocks_reachability: true,
        }],
    );
    project.import(
        "src/index.js",
        "./broken.js",
        ImportKind::Static,
        found("src/broken.js"),
    );

    let report = project.scan(&["src/index.js"]);

    assert_eq!(report.status, AnalysisStatus::Incomplete);
    assert_eq!(
        file_status(&report, "src/broken.js"),
        FileStatus::Incomplete
    );
    assert!(report
        .diagnostics
        .iter()
        .any(|item| { item.code == "parse_failure" && item.path == "src/broken.js" }));
    assert!(!finding_paths(&report).contains(&"src/broken.js"));
}

#[test]
fn a_declared_external_package_does_not_block_file_findings() {
    let mut project = Project::new();
    project.file("src/index.js", &[]);
    project.file("src/unused.js", &[]);
    project.context.external_packages = OrderedSet::from_items(vec!["chalk".to_owned()]);
    project.import(
        "src/index.js",
        "chalk",
        ImportKind::Static,
        ModuleResolution::Failed,
    );

    let report = project.scan(&["src/index.js"]);
    let entry = report
        .files
        .iter()
        .find(|file| file.path == "src/index.js")
        .expect("entry report");

    assert_eq!(report.status, AnalysisStatus::Complete);
    assert_eq!(entry.imports[0].status, ResolutionStatus::External);
    assert!(finding_paths(&report).contains(&"src/unused.js"));
}

#[test]
fn a_local_stylesheet_is_an_external_asset_edge() {
    let mut project = Project::new();
    project.file("src/index.ts", &[]);
    project.file("src/unused.ts", &[]);
    project.import(
        "src/index.ts",
        "./styles.css",
        ImportKind::SideEffect,
        found("src/styles.css"),
    );

    let report = project.scan(&["src/index.ts"]);
    let entry = report
        .files
        .iter()
        .find(|file| file.path == "src/index.ts")
        .expect("entry report");

    assert_eq!(report.status, AnalysisStatus::Complete);
    assert_eq!(entry.imports[0].status, ResolutionStatus::External);
    assert!(finding_paths(&report).contains(&"src/unused.ts"));
}

#[test]
fn an_embedded_code_source_is_a_visible_coverage_gap() {
    let mut project = Project::new();
    project.file("src/index.js", &[]);
    project.file("src/unused.js", &[]);
    project.import(
        "src/index.js",
        "./component.vue",
        ImportKind::Static,
        found("src/component.vue"),
    );

    let report = project.scan(&["src/index.js"]);

    assert_eq!(report.status, AnalysisStatus::Incomplete);
    assert!(report.findings.is_empty());
    assert!(report.diagnostics.iter().any(|diagnostic| {
        diagnostic.code == "unsupported_imported_source" && diagnostic.path == "src/index.js"
    }));
}

#[test]
fn resource_queries_and_fragments_resolve_using_filesystem_paths() {
    let mut project = Project::new();
    project.file("src/index.js", &[]);
    project.file("src/message.js", &[]);
    project.file("src/detail.js", &[]);
    project.import(
        "src/index.js",
        "./message.js?raw",
        ImportKind::Static,
        found("src/message.js"),
    );
    project.import(
        "src/index.js",
        "./detail.js#part",
        ImportKind::Static,
        found("src/detail.js"),
    );

    let report = project.scan(&["src/index.js"]);
    let entry = report
        .files
        .iter()
        .find(|file| file.path == "src/index.js")
        .expect("entry report");

    assert_eq!(report.status, AnalysisStatus::Complete);
    assert_eq!(entry.imports.len(), 2);
    assert!(entry
        .imports
        .iter()
        .all(|import| import.status == ResolutionStatus::Resolved));
    assert_eq!(
        entry
            .imports
            .iter()
            .filter_map(|import| import.target.as_deref())
            .collect::<Vec<_>>(),
        vec!["src/message.js", "src/detail.js"]
    );
    assert_eq!(
        file_status(&report, "src/message.js"),
        FileStatus::Reachable
    );
    assert_eq!(file_status(&report, "src/detail.js"), FileStatus::Reachable);
}

#[test]
fn a_native_addon_is_a_visible_coverage_gap() {
    let mut project = Project::new();
    project.file("src/index.js", &[]);
    project.import(
        "src/index.js",
        "./addon.node",
        ImportKind::Static,
        found("src/addon.node"),
    );

    let report = project.scan(&["src/index.js"]);

    assert_eq!(report.status, AnalysisStatus::Incomplete);
    assert!(report.findings.is_empty());
    assert!(report.diagnostics.iter().any(|diagnostic| {
        diagnostic.code == "unsupported_imported_source" && diagnostic.path == "src/index.js"
    }));
}

#[test]
fn multiple_entries_are_all_live_roots() {
    let mut project = Project::new();
    project.file("src/cli.js", &[]);
    project.file("src/server.js", &[]);
    project.file("src/unused.js", &[]);

    let report = project.scan(&["src/cli.js", "src/server.js"]);

    assert_eq!(
        report.entries,
        vec!["src/cli.js".to_owned(), "src/server.js".to_owned()]
    );
    assert_eq!(file_status(&report, "src/cli.js"), FileStatus::Reachable);
    assert_eq!(file_status(&report, "src/server.js"), FileStatus::Reachable);
    assert!(finding_paths(&report).contains(&"src/unused.js"));
}

#[test]
fn the_paths_of_a_scan_are_checked() {
    let mut project = Project::new();
    project.file("src/index.js", &[]);

    assert!(matches!(
        project.try_scan(&[]),
        Err(ScanError::EmptyEntries)
    ));
    assert!(matches!(
        project.try_scan(&["src/other.js"]),
        Err(ScanError::EntryNotSupplied(_))
    ));
    assert!(matches!(
        project.try_scan(&["src/index.js", "src/index.js"]),
        Err(ScanError::DuplicateEntry(_))
    ));
    assert!(matches!(
        Project::new().try_scan(&["src/index.js"]),
        Err(ScanError::EmptyFileUniverse)
    ));
}

#[test]
fn files_outside_the_root_are_refused() {
    let request = ScanRequest {
        root: FilePath::parse("/project"),
        entries: vec![supplied("src/index.js")],
        files: vec![SuppliedPath {
            supplied: "../out.js".to_owned(),
            canonical: Canonical::Found(FilePath::parse("/out.js")),
        }],
    };
    let missing = ScanRequest {
        root: FilePath::parse("/project"),
        entries: vec![supplied("src/index.js")],
        files: vec![SuppliedPath {
            supplied: "src/gone.js".to_owned(),
            canonical: Canonical::Missing("no such file".to_owned()),
        }],
    };
    let empty = Project::new();

    assert!(matches!(
        scan(&request, &empty.context, &empty.evidence()),
        Err(ScanError::SourceOutsideRoot(_))
    ));
    let error = scan(&missing, &empty.context, &empty.evidence()).unwrap_err();
    assert!(matches!(error, ScanError::SourcePath(_)));
    assert!(error.message().contains("src/gone.js"));
}

#[test]
fn too_many_files_are_refused() {
    let mut project = Project::new();
    project.file("src/a.js", &[]);
    project.file("src/b.js", &[]);
    let limits = AnalysisLimits {
        max_discovered_files: 1,
        ..AnalysisLimits::default()
    };

    assert!(matches!(
        scan_with_limits(
            &project.request(&["src/a.js"]),
            &project.context,
            &project.evidence(),
            limits,
        ),
        Err(ScanError::FileUniverseTooLarge(_))
    ));
}

#[test]
fn statuses_over_profiles_take_one_use_as_enough() {
    for other in [
        FileStatus::Reachable,
        FileStatus::Incomplete,
        FileStatus::Unreachable,
    ] {
        assert_eq!(
            merge_file_status(FileStatus::Reachable, other),
            FileStatus::Reachable
        );
        assert_eq!(
            merge_file_status(other, FileStatus::Reachable),
            FileStatus::Reachable
        );
    }
    assert_eq!(
        merge_file_status(FileStatus::Incomplete, FileStatus::Unreachable),
        FileStatus::Incomplete
    );
}

#[test]
fn reports_of_profiles_are_merged() {
    let mut used = Project::new();
    used.file("src/index.js", &[]);
    used.file("src/extra.js", &[]);
    used.import(
        "src/index.js",
        "./extra.js",
        ImportKind::Static,
        found("src/extra.js"),
    );
    used.context.target_profiles = vec!["node".to_owned()];
    let mut unused = Project::new();
    unused.file("src/index.js", &[]);
    unused.file("src/extra.js", &[]);
    unused.context.target_profiles = vec!["browser".to_owned()];

    let merged = merge_profile_reports(&vec![
        ("node".to_owned(), used.scan(&["src/index.js"])),
        ("browser".to_owned(), unused.scan(&["src/index.js"])),
    ])
    .expect("merged report");

    assert_eq!(file_status(&merged, "src/extra.js"), FileStatus::Reachable);
    assert_eq!(merged.summary.reachable_files, 2);
    assert_eq!(merged.summary.unreachable_files, 0);
    let finding = merged
        .findings
        .iter()
        .find(|finding| finding.paths == ["src/extra.js"])
        .expect("finding of one profile");
    assert_eq!(finding.target_profiles, ["browser"]);
}

#[test]
fn diagnostics_are_limited() {
    let paths = vec!["a".to_owned(), "b".to_owned()];
    let files = vec![
        vec![warning("a", "1"), warning("a", "2")],
        vec![warning("b", "3")],
    ];

    let limited = enforce_diagnostic_limit(&paths, &files, 2);

    let kept = limited.iter().map(Vec::len).sum::<usize>();
    assert!(kept <= 3);
    assert!(limited
        .iter()
        .flatten()
        .any(|diagnostic| diagnostic.blocks_reachability));
}

#[test]
fn equal_diagnostics_are_told_once() {
    let mut diagnostics = vec![warning("a", "same"), warning("a", "same")];

    merge_duplicate_diagnostics(&mut diagnostics);

    assert_eq!(diagnostics.len(), 1);
}

#[test]
fn facts_are_loaded_in_batches() {
    let mut loading = FactLoading::new(true, 4);
    loading.reuse();
    assert_eq!(loading.load(true, 10), LoadStep::Reuse);
    assert_eq!(loading.load(false, 10), LoadStep::Wait);
    assert!(loading.writes_generation());
    let report = loading.report(CacheState::Active).expect("cache report");

    assert_eq!(report.hits, 2);
    assert_eq!(report.misses, 1);
    assert_eq!(report.status, cache_status_name(CacheState::Active));
    assert!(FactLoading::new(false, 4).report(CacheState::Empty).is_none());
}

#[test]
fn nothing_is_written_where_all_facts_are_found() {
    let mut loading = FactLoading::new(true, 4);
    for _ in 0..3 {
        assert_eq!(loading.load(true, 10), LoadStep::Reuse);
    }
    let report = loading.report(CacheState::Active).expect("cache report");

    assert!(!loading.writes_generation());
    assert_eq!((report.hits, report.misses), (3, 0));
    assert!(!report.generation_written);
}

#[test]
fn second_scans_find_what_the_first_left_in_the_cache() {
    let mut project = Project::new();
    project.file("src/dead.js", &[]);
    project.file("src/index.js", &[]);
    let limits = CacheLimits::default();
    let schema = CacheSchema::current("1.0.0", "parser");
    let generation = generation_name("1-1");
    let key_of = |path: &str| {
        fact_cache_key(
            ConfigDigest::of_bytes(b"config"),
            ProfileDigest::of_bytes(b"node"),
            path,
            ContentDigest::of_bytes(path.as_bytes()),
        )
        .unwrap()
    };
    let scan_with = |held: &OrderedMap<CacheKey, Vec<u8>>| {
        let mut loading = FactLoading::new(true, 4);
        for file in &project.files {
            loading.load(held.get(&key_of(&file.0.path)).is_some(), 10);
        }
        let mut evidence = project.evidence();
        evidence.cache = loading.report(CacheState::Active);
        let request = project.request(&["src/index.js"]);
        let report = scan(&request, &project.context, &evidence).unwrap();
        merge_profile_reports(&vec![("node".to_owned(), report)]).unwrap()
    };

    let mut first = scan_with(&OrderedMap::new());
    let body = CacheBody {
        schema: CacheSchema::current("1.0.0", "parser"),
        generation: generation.clone(),
        entries: project
            .files
            .iter()
            .map(|file| CacheEntry::new(key_of(&file.0.path), b"facts".to_vec()))
            .collect(),
    };
    let checksum = Digest::of_bytes(b"written");
    let held =
        open_generation(&body, &generation, checksum, checksum, &schema, limits).unwrap();
    let second = scan_with(&held);

    let account = first.cache.take().unwrap();
    assert_eq!((account.misses, account.generation_written), (2, true));
    let account = second.cache.replicate().unwrap();
    assert_eq!((account.hits, account.misses, account.generation_written), (2, 0, false));
    first.cache = Some(account);
    assert_eq!(first, second);
}

#[test]
fn large_sources_are_refused() {
    assert!(check_source_size("a.js", 10, 10).is_ok());
    assert!(matches!(
        check_source_size("a.js", 11, 10),
        Err(ScanError::SourceFileTooLarge(_))
    ));
}

#[test]
fn facts_are_cached_by_what_they_depend_on() {
    let key = |path: &str, content: &[u8]| {
        fact_cache_key(
            ConfigDigest::of_bytes(b"config"),
            ProfileDigest::of_bytes(b"profile"),
            path,
            ContentDigest::of_bytes(content),
        )
    };

    assert_eq!(key("a.js", b"1").unwrap(), key("a.js", b"1").unwrap());
    assert_ne!(key("a.js", b"1").unwrap(), key("a.js", b"2").unwrap());
    assert_ne!(key("a.js", b"1").unwrap(), key("b.js", b"1").unwrap());
    assert!(matches!(
        key("../a.js", b"1"),
        Err(ScanError::CacheIdentity(_))
    ));
}

#[test]
fn a_manifest_can_supply_multiple_entries() {
    let manifest = FileManifest {
        entry: None,
        entries: vec![FilePath::parse("src/cli.js"), FilePath::parse("src/server.js")],
        files: vec![
            FilePath::parse("src/cli.js"),
            FilePath::parse("src/server.js"),
            FilePath::parse("src/unused.js"),
        ],
    };
    let (entries, files) = manifest.into_universe().expect("manifest");
    let mut project = Project::new();
    for file in &files {
        project.file(&file.text(), &[]);
    }
    let entries: Vec<String> = entries.iter().map(FilePath::text).collect();

    let report = project.scan(&entries.iter().map(String::as_str).collect::<Vec<_>>());

    assert_eq!(report_exit_code(&report), 1);
    assert_eq!(report.entries.len(), 2);
    assert_eq!(report.summary.reachable_files, 2);
}

#[test]
fn explicit_files_are_not_supplemented_by_discovery() {
    let universe = UniverseOptions {
        root: FilePath::parse("/project"),
        entries: vec![FilePath::parse("src/index.js")],
        files: vec![FilePath::parse("src/index.js")],
        files_from: None,
    };
    let Ok(FileUniverse::Given((entries, files))) = load_file_universe(&universe) else {
        panic!("the files are given");
    };
    let mut project = Project::new();
    for file in &files {
        project.file(&file.text(), &[]);
    }
    project.import(
        "src/index.js",
        "./used.js",
        ImportKind::Static,
        found("/project/src/used.js"),
    );
    let entries: Vec<String> = entries.iter().map(FilePath::text).collect();

    let report = project.scan(&entries.iter().map(String::as_str).collect::<Vec<_>>());

    assert_eq!(report_exit_code(&report), 2);
    assert_eq!(report.status, AnalysisStatus::Incomplete);
    assert_eq!(report.summary.files, 1);
    assert!(report.project.is_none());
}

#[test]
fn json_output_is_stable_and_uses_finding_exit_code() {
    let mut project = Project::new();
    project.file("src/index.js", &[]);
    project.file("src/unused.js", &[]);

    let first = project.scan(&["src/index.js"]);
    let second = project.scan(&["src/index.js"]);

    assert_eq!(report_exit_code(&first), 1);
    assert!(first.same_value(&second));
    assert_eq!(first.schema_version, "0.2");
    assert_eq!(first.status, AnalysisStatus::Complete);
    assert_eq!(first.entries[0], "src/index.js");
}

struct Project {
    context: ScanContext,
    files: Vec<(FileFacts, Vec<ModuleResolution>)>,
}

impl Project {
    fn new() -> Self {
        Project {
            context: ScanContext {
                target_profiles: vec!["default".to_owned()],
                external_packages: OrderedSet::new(),
                workspace_module_targets: Vec::new(),
                yarn_pnp: false,
                universe_kind: SourceUniverseKind::Explicit,
            },
            files: Vec::new(),
        }
    }

    fn file(&mut self, path: &str, diagnostics: &[AnalysisDiagnostic]) {
        let facts = FileFacts {
            path: path.to_owned(),
            source_kind: SourceKind::JavaScript,
            module_kind: ModuleKind::Esm,
            byte_len: 1,
            line_count: 1,
            imports: Vec::new(),
            exports: Vec::new(),
            symbol_facts: SymbolFacts {
                imports: Vec::new(),
                exports: Vec::new(),
                symbols: Vec::new(),
            },
            member_facts: Vec::new(),
            diagnostics: diagnostics
                .iter()
                .map(|diagnostic| AnalysisDiagnostic {
                    code: diagnostic.code.clone(),
                    path: diagnostic.path.clone(),
                    severity: diagnostic.severity,
                    span: diagnostic.span,
                    message: diagnostic.message.clone(),
                    blocks_reachability: diagnostic.blocks_reachability,
                })
                .collect(),
        };
        self.files.push((facts, Vec::new()));
        self.files.sort_by(|left, right| left.0.path.cmp(&right.0.path));
    }

    fn import(&mut self, path: &str, specifier: &str, kind: ImportKind, to: ModuleResolution) {
        let file = self
            .files
            .iter_mut()
            .find(|file| file.0.path == path)
            .expect("known file");
        let start = file.0.imports.len() as u32 * 10;
        file.0.imports.push(ImportFact {
            specifier: specifier.to_owned(),
            kind,
            resolution_mode: ResolutionMode::Esm,
            activation: Activation::Module,
            type_only: false,
            span: SourceSpan::new(start, start + 5),
        });
        file.1.push(to);
    }

    fn request(&self, entries: &[&str]) -> ScanRequest {
        ScanRequest {
            root: FilePath::parse("/project"),
            entries: entries.iter().map(|entry| supplied(entry)).collect(),
            files: self.files.iter().map(|file| supplied(&file.0.path)).collect(),
        }
    }

    fn evidence(&self) -> ScanEvidence {
        ScanEvidence {
            facts: self.files.iter().map(|file| copy_facts(&file.0)).collect(),
            content_digests: self.files.iter().map(|_| "00".repeat(32)).collect(),
            resolutions: self
                .files
                .iter()
                .map(|file| file.1.iter().map(copy_resolution).collect())
                .collect(),
            additional_file_edges: Vec::new(),
            manifest_open_world: false,
            open_world_entries: None,
            symbol_analysis: SymbolAnalysis {
                exports_complete: self.files.iter().map(|_| false).collect(),
                dead_groups: Vec::new(),
            },
            member_decisions: self.files.iter().map(|_| Vec::new()).collect(),
            cache: None,
        }
    }

    fn try_scan(&self, entries: &[&str]) -> Result<ScanReport, ScanError> {
        scan(&self.request(entries), &self.context, &self.evidence())
    }

    fn scan(&self, entries: &[&str]) -> ScanReport {
        self.try_scan(entries).expect("scan")
    }
}

fn copy_facts(facts: &FileFacts) -> FileFacts {
    FileFacts {
        path: facts.path.clone(),
        source_kind: facts.source_kind,
        module_kind: facts.module_kind,
        byte_len: facts.byte_len,
        line_count: facts.line_count,
        imports: facts.imports.replicate(),
        exports: facts.exports.replicate(),
        symbol_facts: SymbolFacts {
            imports: Vec::new(),
            exports: Vec::new(),
            symbols: Vec::new(),
        },
        member_facts: Vec::new(),
        diagnostics: facts.diagnostics.replicate(),
    }
}

fn copy_resolution(resolution: &ModuleResolution) -> ModuleResolution {
    match resolution {
        ModuleResolution::External => ModuleResolution::External,
        ModuleResolution::Failed => ModuleResolution::Failed,
        ModuleResolution::File(file) => ModuleResolution::File(ResolvedFile {
            path: file.path.replicate(),
            canonical: file.canonical.replicate(),
        }),
    }
}

fn supplied(path: &str) -> SuppliedPath {
    SuppliedPath {
        supplied: path.to_owned(),
        canonical: Canonical::Found(FilePath::parse(&format!("/project/{path}"))),
    }
}

fn found(path: &str) -> ModuleResolution {
    ModuleResolution::File(ResolvedFile {
        path: FilePath::parse(&format!("/project/{path}")),
        canonical: Some(FilePath::parse(&format!("/project/{path}"))),
    })
}

fn warning(path: &str, message: &str) -> AnalysisDiagnostic {
    AnalysisDiagnostic {
        code: "note".to_owned(),
        path: path.to_owned(),
        severity: DiagnosticSeverity::Warning,
        span: None,
        message: message.to_owned(),
        blocks_reachability: false,
    }
}

fn file_status(report: &ScanReport, path: &str) -> FileStatus {
    report
        .files
        .iter()
        .find(|file| file.path == path)
        .map(|file| file.status)
        .expect("file report")
}

fn finding_paths(report: &ScanReport) -> Vec<&str> {
    report
        .findings
        .iter()
        .flat_map(|finding| finding.paths.iter().map(String::as_str))
        .collect()
}
