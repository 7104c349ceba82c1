use orphanode::analysis::members::AnalysisMode;
use orphanode::application::deep::{
    check_worker_capabilities, deep_failure_diagnostic, deep_member_candidates,
    group_deep_queries, read_worker_identity, unanswered_candidates, DeepRawResolution,
};
use orphanode::application::dependency_results::{
    append_dependency_results, installed_manifest_path, list_binary_dependencies,
};
use orphanode::application::errors::ProjectScanError;
use orphanode::application::exports::{expand_workspace_export, package_manifest_evidence};
use orphanode::application::notices::{
    append_plugin_diagnostics, append_script_diagnostics, paths_for_rules,
};
use orphanode::application::plugin_edges::{
    add_physical_file, is_skipped_directory, needs_transform_sources,
    plugin_transform_discovery_diagnostic,
};
use orphanode::application::profiles::{merge_file_status, merge_profile_reports, totals_fit};
use orphanode::application::project::{
    count_plugins, plan_project, plugins_of_profiles, scan_project, ProjectKnowledge,
};
use orphanode::application::requests::{
    add_discovered_files, cli_configuration, inferred_configuration, nested_packages,
    normalize_path, package_bases, selected_packages, AnalysisIssue, ProjectScanRequest,
};
use orphanode::application::scan::AnalysisLimits;
use orphanode::cache::digest::Digest;
use orphanode::cache::key::{
    CacheKey, CanonicalFileIdentity, ConfigDigest, ContentDigest, ProfileDigest,
};
use orphanode::cache::persistent::PersistentCache;
use orphanode::cache::schema::CacheSchema;
use orphanode::cache::store::{
    generation_name, CacheEntry, CacheError, CacheLimits, CacheLoadStatus, GenerationOutcome,
};
use orphanode::collections::{OrderedMap, OrderedSet};
use orphanode::discovery::scripts::analyze_scripts;
use orphanode::discovery::tokenizer::{UnmodeledScriptKind, ScriptSpan};
use orphanode::discovery::workspace::{
    is_own_source, ConfigurationOverride, EntryTargetProfile, Json, PackageContext, PackageEntryRoot,
    PackageManifest, WorkspaceDiscovery, WorkspacePackage, WorkspacePackageManager,
};
use orphanode::domain::facts::{
    AnalysisDiagnostic, DiagnosticSeverity, ModuleKind, SourceKind, SourceSpan,
};
use orphanode::domain::report::{
    AnalysisStatus, CacheReport, Confidence, FileReport, FileStatus, Finding, FixEligibility, ReportSummary,
    ScanReport, REPORT_SCHEMA_VERSION,
};
use orphanode::domain::target::WorldMode;
use orphanode::fixes::apply::{ApplyPhase, FixError};
use orphanode::fixes::eligibility::{
    AnalysisConfidence, EligibilityDecision, FixCandidate, PublicApiExposure, WorldAssumption,
};
use orphanode::fixes::engine::{FileRead, FixEngine};
use orphanode::fixes::package_manager::{
    DependencyKind, DirectDependency, PackageManager, PackageManagerCommand,
};
use orphanode::fixes::plan::{ExplicitFileFixScope, FixPlan, FixPlanError, ProjectPath};
use orphanode::paths::FilePath;
use orphanode::plugins::contract::{
    DeclarativePlugin, DetectedBuiltinPlugin, FileTransformContribution, PluginContributions, PluginDiagnostic,
    PluginDiagnosticSeverity,
};
use orphanode::plugins::executable::{
    ExecutablePluginConfig, HostConfigFormat, HostPackageKind,
};
use orphanode::plugins::facts::{
    executable_config_fact, executable_manifest_facts, is_config_source, ConfigContent,
};
use orphanode::plugins::hosting::{
    check_configured_place, check_host_end, check_request_size, executable_plugin,
    read_configured_place, HostEnd, PluginPlace,
};

#[test]
fn engines_are_rooted_at_directories() {
    let engine = FixEngine::new(".", Ok("/project".to_owned()), true).unwrap();
    assert_eq!(engine.project_root(), "/project");

    let no_directory = FixEngine::new(".", Ok("/project".to_owned()), false).unwrap_err();
    assert_eq!(
        no_directory.message(),
        "project root is not a directory: /project"
    );
    let missing = FixEngine::new("gone", Err("not found".to_owned()), false).unwrap_err();
    assert_eq!(missing.message(), "fix I/O failed for gone: not found");
}

#[test]
fn engines_preview_every_change() {
    let engine = FixEngine::new(".", Ok("/project".to_owned()), true).unwrap();
    let preview = engine
        .preview(
            deletion_plan(b"unused"),
            Ok(b"plan".to_vec()),
            &Vec::new(),
            &vec![FileRead::Content(b"unused".to_vec())],
        )
        .unwrap();

    assert_eq!(preview.changes().len(), 1);
    assert_eq!(preview.changes()[0].path.as_str(), "src/unused.js");
    assert_eq!(preview.changes()[0].original_content(), b"unused");
    let authorization = preview.explicit_apply_authorization();
    let session = engine.apply(preview, authorization).unwrap();
    assert_eq!(session.phase(), ApplyPhase::VerifyFile(0));
}

#[test]
fn engines_refuse_what_they_cannot_rely_on() {
    let engine = FixEngine::new(".", Ok("/project".to_owned()), true).unwrap();
    let preview = |plan, manifests: Vec<FileRead>, contents: Vec<FileRead>| {
        engine
            .preview(plan, Ok(b"plan".to_vec()), &manifests, &contents)
            .unwrap_err()
    };

    let changed = preview(
        deletion_plan(b"unused"),
        Vec::new(),
        vec![FileRead::Content(b"edited".to_vec())],
    );
    assert_eq!(changed.message(), "file changed since analysis: src/unused.js");
    let link = FileRead::Failed(FixError::UnsafeFileType("src/unused.js".to_owned()));
    assert_eq!(
        preview(deletion_plan(b"unused"), Vec::new(), vec![link]).message(),
        "refusing to follow a symlink or edit a non-file: src/unused.js"
    );
    let manifest = preview(
        removal_plan(b"{}"),
        vec![FileRead::Content(b"{ }".to_vec())],
        Vec::new(),
    );
    assert_eq!(
        manifest.message(),
        "file changed since analysis: packages/app/package.json"
    );
    let mut untitled = deletion_plan(b"unused");
    untitled.title = String::new();
    assert!(matches!(
        preview(untitled, Vec::new(), vec![FileRead::Content(b"unused".to_vec())]),
        FixError::InvalidPlan(FixPlanError::InvalidText)
    ));
    let unwritten = engine
        .preview(
            deletion_plan(b"unused"),
            Err("too deep".to_owned()),
            &Vec::new(),
            &vec![FileRead::Content(b"unused".to_vec())],
        )
        .unwrap_err();
    assert_eq!(
        unwritten.message(),
        "failed to serialize fix preview: too deep"
    );
}

#[test]
fn fix_errors_are_told_in_words() {
    let span = FixError::SpanOutOfBounds {
        path: "a.js".to_owned(),
        start: 1,
        end: 12,
        length: 10,
    };
    assert_eq!(span.message(), "edit span 1..12 is outside a.js (10 bytes)");
    assert_eq!(
        FixError::AuthorizationMismatch.message(),
        "apply authorization does not match the preview"
    );
    assert_eq!(
        FixError::InvalidPlan(FixPlanError::InvalidCommand("no".to_owned())).message(),
        "no"
    );
}

#[test]
fn caches_need_consistent_limits_and_a_schema() {
    assert!(cache().root().text().ends_with(".orphanode/cache"));
    let limits = CacheLimits {
        retained_generations: 0,
        ..CacheLimits::default()
    };
    let root = FilePath::parse("/project/.orphanode/cache");
    assert!(matches!(
        PersistentCache::new(root, CacheSchema::current("0.1.0", "parser-1"), limits),
        Err(CacheError::InvalidLimits)
    ));
    let root = FilePath::parse("/project/.orphanode/cache");
    assert!(matches!(
        PersistentCache::new(root, CacheSchema::current("", "parser-1"), CacheLimits::default()),
        Err(CacheError::InvalidSchema(_))
    ));
}

#[test]
fn committed_entries_are_loaded() {
    let cache = cache();
    let name = generation_name("1-1");
    let entries = vec![
        CacheEntry::new(key("src/b.ts"), b"facts of b".to_vec()),
        CacheEntry::new(key("src/a.ts"), b"facts of a".to_vec()),
    ];
    let body = cache.commit(name.clone(), entries).unwrap();
    let checksum = Digest::of_bytes(b"written");

    let read = cache.open(&body, &name, checksum, checksum).unwrap();
    let candidates = cache.candidates(&vec![format!("{name}\n")], &vec![name.clone()]);
    assert_eq!(candidates, [name.clone()]);
    let loaded = cache.load(&candidates, vec![GenerationOutcome::Read(read)]);

    assert!(matches!(loaded.status, CacheLoadStatus::Active(_)));
    assert_eq!(loaded.get(&key("src/a.ts")), Some(&b"facts of a".to_vec()));
    assert_eq!(loaded.iter().len(), 2);
    assert_eq!(loaded.iter()[0].0, key("src/a.ts"));
    assert_eq!(loaded.iter()[1].1, b"facts of b");
    let damaged = Digest::of_bytes(b"damaged");
    assert_eq!(
        cache.open(&body, &name, damaged, checksum),
        Err("generation checksum does not match its contents".to_owned())
    );
    assert_eq!(
        cache.open(&body, "other.json", checksum, checksum),
        Err("invalid generation name".to_owned())
    );
    let limit = cache.limits().max_generation_bytes as usize;
    assert!(cache.check_size(limit).is_ok());
    assert!(cache.check_size(limit + 1).is_err());
}

#[test]
fn packages_are_selected_by_their_place() {
    let workspace = workspace();

    assert_eq!(selected_packages(&workspace, &None).unwrap(), [0, 1]);
    let app = Some(FilePath::parse("./packages/app"));
    assert_eq!(selected_packages(&workspace, &app).unwrap(), [1]);
    let gone = Some(FilePath::parse("packages/gone"));
    assert!(matches!(
        selected_packages(&workspace, &gone),
        Err(ProjectScanError::UnknownWorkspace(path)) if path == "packages/gone"
    ));
    assert_eq!(
        nested_packages(&workspace, &FilePath::parse("")),
        [FilePath::parse("packages/app")]
    );
    assert!(nested_packages(&workspace, &FilePath::parse("packages/app")).is_empty());
}

#[test]
fn discovered_files_stay_within_the_limit() {
    let limits = AnalysisLimits {
        max_discovered_files: 2,
        ..AnalysisLimits::default()
    };
    let mut files = OrderedSet::new();
    let root = FilePath::parse("packages/app");

    assert!(add_discovered_files(&paths(&["b.ts", "a.ts", "b.ts"]), &root, limits, &mut files));
    assert_eq!(*files.items(), paths(&["packages/app/a.ts", "packages/app/b.ts"]));
    assert!(!add_discovered_files(&paths(&["c.ts"]), &root, limits, &mut files));
}

#[test]
fn configurations_are_inferred_and_overridden() {
    let public = inferred_configuration(false);
    assert_eq!(public.world, Some(WorldMode::Open));
    assert_eq!(public.mode, Some(AnalysisMode::Balanced));
    assert_eq!(inferred_configuration(true).world, Some(WorldMode::Closed));

    let mut request = ProjectScanRequest::new(FilePath::parse("/project"));
    assert_eq!(cli_configuration(&request).world, None);
    request.closed_world = Some(true);
    request.mode = Some(AnalysisMode::Fast);
    let asked = cli_configuration(&request);
    assert_eq!(asked.world, Some(WorldMode::Closed));
    assert_eq!(asked.mode, Some(AnalysisMode::Fast));
}

#[test]
fn packages_take_entries_from_their_own_configuration() {
    let effective = ConfigurationOverride {
        entry: Some(paths(&["src/main.ts"])),
        ..nothing()
    };
    let own = ConfigurationOverride {
        ignore: Some(Vec::new()),
        ..nothing()
    };

    let root = package_bases(&FilePath::parse(""), &effective, &own);
    assert_eq!(root.configured_entries, paths(&["src/main.ts"]));
    assert_eq!(root.ignore_base, FilePath::parse(""));
    let app = package_bases(&FilePath::parse("packages/app"), &effective, &own);
    assert!(app.configured_entries.is_empty());
    assert_eq!(app.ignore_base, FilePath::parse("packages/app"));
    assert_eq!(app.retain_base, FilePath::parse(""));
}

#[test]
fn paths_are_shown_below_the_root() {
    let root = FilePath::parse("/project");

    assert_eq!(normalize_path(&FilePath::parse("/project/src/a.ts"), &root), "src/a.ts");
    assert_eq!(normalize_path(&FilePath::parse("/other/a.ts"), &root), "/other/a.ts");
    assert_eq!(
        paths_for_rules(
            &FilePath::parse("packages/app"),
            &FilePath::parse("packages/app"),
            &paths(&["packages/app/a.ts", "src/b.ts"])
        ),
        paths(&["a.ts"])
    );
}

#[test]
fn built_and_installed_directories_are_not_walked() {
    assert!(is_skipped_directory("node_modules"));
    assert!(is_skipped_directory(".orphanode"));
    assert!(!is_skipped_directory("src"));
    let diagnostic = plugin_transform_discovery_diagnostic("the walk failed");
    assert!(diagnostic.blocks_reachability);
    assert!(diagnostic.message.contains("the walk failed"));
}

#[test]
fn scripts_and_plugins_say_what_is_unclear() {
    let mut scripts = OrderedMap::new();
    scripts.insert("build".to_owned(), "node $FILE".to_owned());
    let analysis = analyze_scripts(&scripts, &Vec::new());
    assert_eq!(analysis.unmodeled[0].kind, UnmodeledScriptKind::ShellExpansion);
    assert_eq!(analysis.unmodeled[0].span, ScriptSpan { start: 5, end: 6 });
    let mut diagnostics = Vec::new();

    append_script_diagnostics(&mut diagnostics, "packages/app", &analysis);
    append_plugin_diagnostics(&mut diagnostics, "packages/app", &vec![plugin()]);

    assert!(!diagnostics.is_empty());
    assert_eq!(diagnostics[0].path, "packages/app/package.json");
    let last = diagnostics.last().unwrap();
    assert_eq!(last.message, "Example: cannot tell");
    assert_eq!(last.path, "packages/app/package.json");
    assert!(last.blocks_reachability);
}

#[test]
fn workers_have_to_answer_for_members() {
    let kinds = |kind: &str| {
        Ok(Json::Object(vec![(
            "queryKinds".to_owned(),
            Json::List(vec![Json::Text(kind.to_owned())]),
        )]))
    };
    assert_eq!(check_worker_capabilities(&kinds("memberUsage")), None);
    assert_eq!(
        check_worker_capabilities(&kinds("types")),
        Some("the worker does not implement the memberUsage capability".to_owned())
    );
    assert_eq!(
        check_worker_capabilities(&Err("gone".to_owned())),
        Some("the worker capability handshake failed: gone".to_owned())
    );
    let ready = |identity: &str| {
        Ok(Json::Object(vec![
            ("status".to_owned(), Json::Text("ready".to_owned())),
            ("typescriptIdentity".to_owned(), Json::Text(identity.to_owned())),
        ]))
    };
    assert_eq!(read_worker_identity(&ready("5.9.0")), Ok("5.9.0".to_owned()));
    assert!(read_worker_identity(&ready("")).is_err());
    assert!(read_worker_identity(&ready(&"x".repeat(257))).is_err());
    assert!(read_worker_identity(&Ok(Json::Null)).is_err());
    assert!(deep_failure_diagnostic(&OrderedSet::new(), &Vec::new()).is_none());
    let unconfigured = OrderedSet::from_items(vec!["a.ts".to_owned()]);
    assert!(deep_failure_diagnostic(&unconfigured, &Vec::new())
        .unwrap()
        .message
        .contains("no owning tsconfig was found for a.ts"));
}

#[test]
fn deferred_members_are_looked_at_deeply() {
    let mut deferred = report();
    deferred.diagnostics.push(AnalysisDiagnostic {
        code: "member_analysis_deferred".to_owned(),
        path: "src/index.ts".to_owned(),
        severity: DiagnosticSeverity::Warning,
        span: Some(SourceSpan { start: 7, end: 9 }),
        message: "deferred".to_owned(),
        blocks_reachability: false,
    });
    let mut modes = OrderedMap::new();
    assert!(deep_member_candidates(&deferred, &modes).is_empty());
    modes.insert("src/index.ts".to_owned(), AnalysisMode::Deep);

    assert_eq!(
        deep_member_candidates(&deferred, &modes).into_items(),
        [("src/index.ts".to_owned(), 7)]
    );
}

#[test]
fn installed_manifests_lie_in_node_modules() {
    assert_eq!(
        installed_manifest_path(&FilePath::parse("packages/app"), "@scope/tool"),
        FilePath::parse("packages/app/node_modules/@scope/tool/package.json")
    );
    assert_eq!(
        list_binary_dependencies(&manifest("app")),
        ["left-pad".to_owned()]
    );
}

#[test]
fn plugins_learn_of_manifests_and_configuration() {
    let facts = executable_manifest_facts(&WorkspacePackage {
        root: FilePath::parse("packages/app"),
        manifest: manifest("app"),
    });
    assert_eq!(facts.path, "packages/app/package.json");
    assert_eq!(facts.packages[0].name, "left-pad");
    assert_eq!(facts.packages[0].kind, HostPackageKind::Dependency);
    assert!(is_config_source(&FilePath::parse("vite.config.ts")));
    assert!(!is_config_source(&FilePath::parse("src/index.ts")));
    let fact = executable_config_fact(
        &FilePath::parse("vite.config.ts"),
        &ConfigContent::Imports(vec!["vite".to_owned(), "./local".to_owned()]),
    );
    assert_eq!(fact.format, HostConfigFormat::TypeScript);
    assert_eq!(fact.referenced_packages, ["vite"]);
}

#[test]
fn projects_are_planned_and_reported() {
    let workspace = workspace();
    let contexts = vec![context("", "root"), context("packages/app", "app")];
    let files = paths(&["packages/app/src/index.ts", "src/dead.ts", "src/index.ts"]);
    let request = ProjectScanRequest::new(FilePath::parse("/project"));
    let profiles = vec!["node".to_owned()];

    let plan = plan_project(
        &workspace, &contexts, &Vec::new(), &files, &files, &request, &profiles, &Vec::new(),
    )
    .unwrap();

    assert_eq!(plan.profiles.len(), 1);
    assert!(plan.profiles[0].entries.contains(&FilePath::parse("src/index.ts")));
    assert!(!plan.profiles[0].entries.contains(&FilePath::parse("src/dead.ts")));
    assert!(plan.external_packages.contains(&"left-pad".to_owned()));
    assert!(!plan.deep);
    assert!(!plan.yarn_pnp);

    let known = ProjectKnowledge {
        workspace: &workspace,
        contexts: &contexts,
        project_configurations: &Vec::new(),
        installed: &Vec::new(),
        stale: &Vec::new(),
        configuration_sources: &Vec::new(),
    };
    let mut wanted = ProjectScanRequest::new(FilePath::parse("/project"));
    wanted.issues = OrderedSet::from_items(vec![AnalysisIssue::Files]);
    let reported = scan_project(
        &vec![("node".to_owned(), report())],
        &known,
        &wanted,
        &profiles,
        &plan.diagnostics,
    )
    .unwrap();
    assert_eq!(reported.findings.len(), 1);
    assert_eq!(reported.findings[0].issue_type, "unusedFiles");
    assert_eq!(reported.findings[0].workspace, ".");
    let project = reported.project.unwrap();
    assert_eq!(project.workspaces, [".", "packages/app"]);
    assert_eq!(project.target_profiles, ["node"]);
    assert!(matches!(
        scan_project(&Vec::new(), &known, &wanted, &profiles, &Vec::new()),
        Err(ProjectScanError::NoEntryRoots)
    ));

    wanted.issues = OrderedSet::from_items(vec![AnalysisIssue::Members]);
    let unwanted = scan_project(
        &vec![("node".to_owned(), report())],
        &known,
        &wanted,
        &profiles,
        &Vec::new(),
    )
    .unwrap();
    assert!(unwanted.findings.is_empty());
}

#[test]
fn what_one_profile_uses_is_used() {
    assert_eq!(
        merge_file_status(FileStatus::Reachable, FileStatus::Unreachable),
        merge_file_status(FileStatus::Unreachable, FileStatus::Reachable)
    );
    let mut browser = report();
    browser.files[1].status = FileStatus::Reachable;
    browser.findings.clear();

    let merged = merge_profile_reports(&vec![
        ("node".to_owned(), report()),
        ("browser".to_owned(), browser),
    ])
    .unwrap();

    assert_eq!(merged.files[0].path, "src/dead.ts");
    assert_eq!(merged.files[0].status, FileStatus::Reachable);
}

#[test]
fn manifests_tell_scans_what_is_outside() {
    let evidence = package_manifest_evidence(&Some(manifest("app")));
    assert_eq!(*evidence.packages.items(), ["left-pad"]);
    assert!(!evidence.open_world);
    let nothing = package_manifest_evidence(&None);
    assert!(nothing.packages.is_empty());
    assert!(!nothing.open_world);
}

#[test]
fn configured_plugins_are_files_inside_the_workspace() {
    assert_eq!(
        read_configured_place("exec:tools/plugin.json"),
        (true, "tools/plugin.json".to_owned())
    );
    assert_eq!(
        read_configured_place("tools/plugin.json"),
        (false, "tools/plugin.json".to_owned())
    );
    assert!(check_configured_place("a.json", PluginPlace::Suitable).is_ok());
    let error = check_configured_place("a.json", PluginPlace::Unsuitable).unwrap_err();
    assert!(error
        .message()
        .contains("plugin path must name a regular file inside the workspace"));
    let missing = PluginPlace::Missing("not found".to_owned());
    assert!(check_configured_place("a.json", missing)
        .unwrap_err()
        .message()
        .contains("not found"));
}

#[test]
fn processes_of_plugins_are_bounded() {
    let config = ExecutablePluginConfig {
        id: "example".to_owned(),
        version: "1.0.0".to_owned(),
        executable: "tools/plugin".to_owned(),
        arguments: Vec::new(),
        trusted: true,
        timeout_milliseconds: 50,
        max_response_bytes: 1024,
    };
    assert!(check_request_size(8, 8).is_ok());
    assert_eq!(
        check_request_size(9, 8),
        Err("plugin request exceeded the configured 8-byte protocol limit".to_owned())
    );
    assert!(check_host_end(HostEnd::Wrote(1024), &config).is_ok());
    assert_eq!(
        check_host_end(HostEnd::Wrote(1025), &config),
        Err("plugin response exceeded 1024 bytes".to_owned())
    );
    assert_eq!(
        check_host_end(HostEnd::TimedOut, &config),
        Err("plugin host exceeded 50ms timeout".to_owned())
    );
    assert_eq!(
        check_host_end(HostEnd::Failed("exit status: 1".to_owned()), &config),
        Err("plugin host exited with status exit status: 1".to_owned())
    );
    let plugin = executable_plugin(&config, PluginContributions::none());
    assert_eq!(plugin.display_name, "example");
    assert_eq!(plugin.version, "1.0.0");
}

#[test]
fn asked_entries_change_only_the_roots() {
    let workspace = workspace();
    let contexts = vec![context("", "root"), context("packages/app", "app")];
    let files = paths(&["packages/app/src/index.ts", "src/dead.ts", "src/index.ts"]);
    let profiles = vec!["node".to_owned()];
    let plan = |request: &ProjectScanRequest| {
        plan_project(
            &workspace, &contexts, &Vec::new(), &files, &files, request, &profiles, &Vec::new(),
        )
        .unwrap()
    };
    let mut asked = ProjectScanRequest::new(FilePath::parse("/project"));
    asked.entries = paths(&["src/dead.ts"]);

    let usual = plan(&ProjectScanRequest::new(FilePath::parse("/project")));
    let other = plan(&asked);

    assert_eq!(usual.files, other.files);
    assert_eq!(usual.external_packages.items(), other.external_packages.items());
    assert_eq!(usual.profiles[0].conditions, other.profiles[0].conditions);
    assert_eq!(other.profiles[0].entries, paths(&["src/dead.ts"]));
    assert_ne!(usual.profiles[0].entries, other.profiles[0].entries);
}

#[test]
fn scanning_again_says_the_same_but_for_the_cache() {
    let workspace = workspace();
    let contexts = vec![context("", "root"), context("packages/app", "app")];
    let known = ProjectKnowledge {
        workspace: &workspace,
        contexts: &contexts,
        project_configurations: &Vec::new(),
        installed: &Vec::new(),
        stale: &Vec::new(),
        configuration_sources: &Vec::new(),
    };
    let request = ProjectScanRequest::new(FilePath::parse("/project"));
    let profiles = vec!["browser".to_owned(), "node".to_owned()];
    let scan = |hits: usize, misses: usize| {
        let mut reports = Vec::new();
        for profile in &profiles {
            let mut counted = report();
            counted.cache = Some(CacheReport {
                status: "active".to_owned(),
                hits,
                misses,
                generation_written: misses > 0,
            });
            reports.push((profile.clone(), counted));
        }
        scan_project(&reports, &known, &request, &profiles, &Vec::new()).unwrap()
    };

    let mut first = scan(0, 3);
    let second = scan(3, 0);

    assert_eq!(
        second.cache,
        Some(CacheReport {
            status: "active".to_owned(),
            hits: 6,
            misses: 0,
            generation_written: false,
        })
    );
    assert_ne!(first, second);
    first.cache = scan(3, 0).cache;
    assert_eq!(first, second);
}

#[test]
fn dependencies_are_removed_by_known_package_managers_alone() {
    let contexts = vec![context("", "root")];
    let findings = |manager: Option<WorkspacePackageManager>| {
        let mut project = workspace();
        project.package_manager = manager;
        let mut analyzed = report();
        analyzed.findings = Vec::new();
        append_dependency_results(
            &project,
            &contexts,
            &Vec::new(),
            &Vec::new(),
            &vec!["node".to_owned()],
            &mut analyzed,
        );
        assert_eq!(analyzed.findings.len(), 1);
        assert_eq!(analyzed.findings[0].dependency, Some("left-pad".to_owned()));
        analyzed.findings
    };

    for manager in [
        WorkspacePackageManager::Npm,
        WorkspacePackageManager::Pnpm,
        WorkspacePackageManager::Yarn,
        WorkspacePackageManager::Bun,
    ] {
        let found = findings(Some(manager));
        assert_eq!(found[0].fix_eligibility, FixEligibility::Eligible);
        assert!(found[0].blockers.is_empty());
    }
    for manager in [Some(WorkspacePackageManager::Other), None] {
        let found = findings(manager);
        assert_eq!(found[0].fix_eligibility, FixEligibility::PreviewOnly);
        assert_eq!(
            found[0].blockers,
            ["No unambiguous supported npm, pnpm, Yarn, or Bun package manager was detected"]
        );
    }
}

#[test]
fn gaps_take_findings_back() {
    let workspace = workspace();
    let contexts = vec![context("", "root"), context("packages/app", "app")];
    let known = ProjectKnowledge {
        workspace: &workspace,
        contexts: &contexts,
        project_configurations: &Vec::new(),
        installed: &Vec::new(),
        stale: &Vec::new(),
        configuration_sources: &Vec::new(),
    };
    let mut request = ProjectScanRequest::new(FilePath::parse("/project"));
    request.issues = OrderedSet::from_items(vec![AnalysisIssue::Files]);
    let gap = AnalysisDiagnostic {
        code: "dynamic_import".to_owned(),
        path: "src/index.ts".to_owned(),
        severity: DiagnosticSeverity::Error,
        span: None,
        message: "what is imported is not known".to_owned(),
        blocks_reachability: true,
    };

    let reported = scan_project(
        &vec![("node".to_owned(), report())],
        &known,
        &request,
        &vec!["node".to_owned()],
        &vec![gap],
    )
    .unwrap();

    assert!(reported.findings.is_empty());
    assert_eq!(reported.status, AnalysisStatus::Incomplete);
    assert!(reported.retentions.iter().any(|kept| kept.item == "src/dead.ts"));
}

#[test]
fn members_stay_where_no_worker_answers() {
    let candidates = OrderedSet::from_items(vec![
        ("src/a.ts".to_owned(), 7),
        ("src/b.js".to_owned(), 3),
    ]);

    let queries = group_deep_queries(&candidates, &Vec::new());

    for key in candidates.items() {
        assert_eq!(
            queries.evidence.get(key),
            Some(&DeepRawResolution::Unavailable(
                "deep TypeScript evidence could not be resolved".to_owned()
            ))
        );
    }
    assert_eq!(*queries.unconfigured.items(), ["src/a.ts"]);
}

#[test]
fn spans_point_into_scripts() {
    let mut scripts = OrderedMap::new();
    let script = "node ./tools/build.js && eslint 'src' > log";
    scripts.insert("build".to_owned(), script.to_owned());

    let analysis = analyze_scripts(&scripts, &Vec::new());

    assert!(!analysis.references.is_empty());
    for reference in &analysis.references {
        assert!(reference.span.start <= reference.span.end);
        assert!(reference.span.end <= script.len());
    }
    for unmodeled in &analysis.unmodeled {
        assert!(unmodeled.span.end <= script.len());
    }
}

#[test]
fn explicit_entry_keeps_the_complete_discovered_project_universe() {
    let contexts = vec![context("packages/closed", "closed"), context("packages/open", "open")];
    let files = paths(&[
        "packages/closed/src/index.js",
        "packages/open/src/index.js",
        "packages/unused/src/index.js",
    ]);
    let mut request = ProjectScanRequest::new(FilePath::parse("/project"));
    request.entries = paths(&["packages/closed/src/index.js"]);

    let plan = plan_project(
        &workspace(),
        &contexts,
        &Vec::new(),
        &files,
        &files,
        &request,
        &vec!["node".to_owned()],
        &Vec::new(),
    )
    .unwrap();

    assert_eq!(
        plan.profiles[0].entries,
        paths(&["packages/closed/src/index.js"])
    );
    assert_eq!(plan.files, files);
}

#[test]
fn unused_private_workspace_emits_orp3001() {
    let mut workspace = workspace();
    workspace.packages.push(package("packages/unused", "@fixture/unused"));
    let contexts = vec![
        context("", "root"),
        context("packages/unused", "@fixture/unused"),
    ];
    let known = ProjectKnowledge {
        workspace: &workspace,
        contexts: &contexts,
        project_configurations: &Vec::new(),
        installed: &Vec::new(),
        stale: &Vec::new(),
        configuration_sources: &Vec::new(),
    };
    let request = ProjectScanRequest::new(FilePath::parse("/project"));

    let report = scan_project(
        &vec![("node".to_owned(), report())],
        &known,
        &request,
        &vec!["node".to_owned()],
        &Vec::new(),
    )
    .unwrap();

    let found: Vec<&Finding> = report
        .findings
        .iter()
        .filter(|finding| finding.issue_id == "ORP3001")
        .collect();
    assert_eq!(found.len(), 1);
    assert_eq!(found[0].workspace, "packages/unused");
    assert_eq!(found[0].paths, ["packages/unused/package.json"]);
    assert!(!found[0].evidence.is_empty());
}

fn deletion_plan(content: &[u8]) -> FixPlan {
    let decision = FixCandidate {
        confidence: AnalysisConfidence::High,
        world: WorldAssumption::Closed,
        public_api: PublicApiExposure::OutsidePublicApi,
        blockers: Vec::new(),
        expected_content: Some(ContentDigest::of_bytes(content)),
        preserves_trivia_and_semantics: true,
    }
    .evaluate();
    let EligibilityDecision::Eligible(eligible) = decision else {
        panic!("a safe candidate was refused");
    };
    let mut plan = FixPlan::new("fix", "Remove unused files").unwrap();
    plan.add_file_deletion(
        eligible,
        ProjectPath::new("src/unused.js").unwrap(),
        ExplicitFileFixScope::selected(),
        "The file is unreachable",
    )
    .unwrap();
    plan
}

fn removal_plan(manifest: &[u8]) -> FixPlan {
    let mut plan = FixPlan::new("fix", "Remove unused dependencies").unwrap();
    plan.add_package_command(
        PackageManagerCommand::remove_direct_dependency(
            PackageManager::Npm,
            ProjectPath::new("packages/app").unwrap(),
            ContentDigest::of_bytes(manifest),
            DirectDependency::new("left-pad", DependencyKind::Production).unwrap(),
            "Nothing uses it",
        )
        .unwrap(),
    );
    plan
}

fn cache() -> PersistentCache {
    PersistentCache::new(
        FilePath::parse("/project/.orphanode/cache"),
        CacheSchema::current("0.1.0", "parser-1"),
        CacheLimits::default(),
    )
    .unwrap()
}

fn key(path: &str) -> CacheKey {
    CacheKey::new(
        ConfigDigest::of_bytes(b"config"),
        ProfileDigest::of_bytes(b"profile"),
        CanonicalFileIdentity::new(path).unwrap(),
        ContentDigest::of_bytes(b"content"),
        Vec::new(),
    )
}

fn paths(values: &[&str]) -> Vec<FilePath> {
    values.iter().map(|value| FilePath::parse(value)).collect()
}

fn nothing() -> ConfigurationOverride {
    ConfigurationOverride {
        mode: None,
        world: None,
        entry: None,
        ignore: None,
        retain: None,
        plugins: None,
        targets: OrderedMap::new(),
        confidence: None,
    }
}

#[test]
fn export_targets_are_matched_as_they_are_written() {
    let files = OrderedSet::from_items(paths(&["packages/app/lib/x.ts", "src/y.ts"]));
    let expand = |target: &str| {
        expand_workspace_export(
            &package("packages/app", "app"),
            "app",
            "./*",
            target,
            &Vec::new(),
            &files,
        )
    };

    assert_eq!(
        expand("./lib/*.js"),
        [("app/x".to_owned(), "packages/app/lib/x.ts".to_owned())]
    );
    assert!(expand("./lib//*.js").is_empty());
    assert!(expand("./lib/*/").is_empty());
}

#[test]
fn plugins_of_packages_are_counted_once() {
    let mut first = context("", "root");
    first.plugins = vec![plugin(), plugin()];
    let mut second = context("packages/app", "app");
    let mut other = plugin();
    other.plugin.id = "other".to_owned();
    second.plugins = vec![plugin(), other];
    let contexts = vec![first, second];

    assert_eq!(count_plugins(&contexts), 2);
    assert!(!needs_transform_sources(&contexts));
}

#[test]
fn plugins_follow_the_names_of_their_profiles() {
    let mut named = OrderedMap::new();
    for profile in ["node", "browser"] {
        let mut found = plugin();
        found.plugin.id = profile.to_owned();
        named.insert(profile.to_owned(), vec![found]);
    }

    let ids = plugins_of_profiles(&named)
        .into_iter()
        .map(|found| found.plugin.id)
        .collect::<Vec<_>>();

    assert_eq!(ids, ["browser", "node"]);
}

#[test]
fn transforms_ask_for_physical_files() {
    let mut transforming = plugin();
    transforming.plugin.contributions.file_transforms.push(FileTransformContribution {
        source_pattern: "src/*.vue".to_owned(),
        output_extensions: vec!["js".to_owned()],
        reason: "compiled".to_owned(),
    });
    let mut package = context("", "root");
    package.plugins = vec![plugin(), transforming];
    let limits = AnalysisLimits {
        max_discovered_files: 1,
        max_source_file_bytes: 10,
        max_diagnostics: 10,
        max_pattern_expansions: 10,
    };
    let mut files = Vec::new();

    assert!(needs_transform_sources(&vec![package]));
    assert!(add_physical_file(&mut files, FilePath::parse("a.vue"), limits).is_none());
    assert_eq!(files, paths(&["a.vue"]));
    let stopped = add_physical_file(&mut files, FilePath::parse("b.vue"), limits).unwrap();
    assert!(files.is_empty());
    assert_eq!(
        stopped,
        plugin_transform_discovery_diagnostic(
            "the physical candidate count exceeded the configured limit of 1"
        )
    );
}

#[test]
fn known_members_are_not_asked_about_again() {
    let candidates = OrderedSet::from_items(vec![("a.ts".to_owned(), 1), ("b.ts".to_owned(), 2)]);
    let mut known = OrderedMap::new();
    known.insert(("a.ts".to_owned(), 1), DeepRawResolution::Unavailable("late".to_owned()));

    assert_eq!(
        unanswered_candidates(&candidates, &known).into_items(),
        [("b.ts".to_owned(), 2)]
    );
}

#[test]
fn nested_packages_keep_their_sources() {
    let nested = paths(&["packages/app"]);

    assert!(is_own_source(&FilePath::parse("src/a.ts"), &nested));
    assert!(!is_own_source(&FilePath::parse("packages/app/a.ts"), &nested));
    assert!(!is_own_source(&FilePath::parse("src/a.css"), &nested));
}

#[test]
fn cache_counts_that_do_not_fit_are_noticed() {
    let counted = |hits: usize| {
        let mut counted = report();
        counted.cache = Some(CacheReport {
            status: "active".to_owned(),
            hits,
            misses: 1,
            generation_written: true,
        });
        ("node".to_owned(), counted)
    };

    assert!(totals_fit(&vec![counted(usize::MAX), counted(0)]));
    assert!(!totals_fit(&vec![counted(usize::MAX), counted(1)]));
}

fn manifest(name: &str) -> PackageManifest {
    let mut dependencies = OrderedMap::new();
    dependencies.insert("left-pad".to_owned(), "1.0.0".to_owned());
    let mut entry_roots = OrderedMap::new();
    entry_roots.insert(
        EntryTargetProfile::NodeImport,
        vec![PackageEntryRoot {
            path: FilePath::parse("src/index.ts"),
            field: "main".to_owned(),
        }],
    );
    PackageManifest {
        name: Some(name.to_owned()),
        private: true,
        package_type: None,
        dependencies,
        dev_dependencies: OrderedMap::new(),
        peer_dependencies: OrderedMap::new(),
        optional_dependencies: OrderedMap::new(),
        bundled_dependencies: OrderedSet::new(),
        exports: None,
        entry_roots,
    }
}

fn package(root: &str, name: &str) -> WorkspacePackage {
    WorkspacePackage {
        root: FilePath::parse(root),
        manifest: manifest(name),
    }
}

fn workspace() -> WorkspaceDiscovery {
    WorkspaceDiscovery {
        workspace_root: FilePath::parse("/project"),
        packages: vec![package("", "root"), package("packages/app", "app")],
        package_manager: None,
        yarn_plug_and_play: Vec::new(),
    }
}

fn context(root: &str, name: &str) -> PackageContext {
    let workspace_name = if root.is_empty() { "." } else { root };
    PackageContext {
        package: package(root, name),
        workspace_name: workspace_name.to_owned(),
        effective: inferred_configuration(true),
        configured_entries: Vec::new(),
        ignore_base: FilePath::parse(""),
        retain_base: FilePath::parse(""),
        scripts: analyze_scripts(&OrderedMap::new(), &Vec::new()),
        plugins: Vec::new(),
        plugins_by_profile: OrderedMap::new(),
    }
}

fn plugin() -> DetectedBuiltinPlugin {
    let mut contributions = PluginContributions::none();
    contributions.diagnostics.push(PluginDiagnostic {
        path: None,
        code: "unclear".to_owned(),
        severity: PluginDiagnosticSeverity::Error,
        message: "cannot tell".to_owned(),
        blocks_reachability: true,
    });
    DetectedBuiltinPlugin {
        plugin: DeclarativePlugin {
            id: "example".to_owned(),
            version: "1.0.0".to_owned(),
            display_name: "Example".to_owned(),
            contributions,
            unsupported_cases: Vec::new(),
        },
        evidence: Vec::new(),
    }
}

fn file(path: &str, status: FileStatus) -> FileReport {
    FileReport {
        path: path.to_owned(),
        status,
        target_statuses: OrderedMap::new(),
        source_kind: SourceKind::TypeScript,
        module_kind: ModuleKind::Esm,
        byte_len: 1,
        line_count: 1,
        content_digest: Digest::of_bytes(path.as_bytes()).to_hex(),
        imports: Vec::new(),
        exports: Vec::new(),
    }
}

fn report() -> ScanReport {
    ScanReport {
        schema_version: REPORT_SCHEMA_VERSION,
        status: AnalysisStatus::Complete,
        entries: vec!["src/index.ts".to_owned()],
        summary: ReportSummary {
            files: 2,
            reachable_files: 1,
            unreachable_files: 1,
            incomplete_files: 0,
            diagnostics: 0,
        },
        files: vec![
            file("src/index.ts", FileStatus::Reachable),
            file("src/dead.ts", FileStatus::Unreachable),
        ],
        findings: vec![Finding {
            issue_id: "ORP1001",
            issue_type: "unusedFiles",
            workspace: ".".to_owned(),
            target_profiles: vec!["node".to_owned()],
            paths: vec!["src/dead.ts".to_owned()],
            span: None,
            symbol: None,
            dependency: None,
            confidence: Confidence::High,
            summary: "src/dead.ts is unreachable".to_owned(),
            evidence: Vec::new(),
            blockers: Vec::new(),
            suggested_actions: Vec::new(),
            fix_eligibility: FixEligibility::Eligible,
        }],
        retentions: Vec::new(),
        project: None,
        cache: None,
        diagnostics: Vec::new(),
    }
}
