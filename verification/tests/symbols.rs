use orphanode::analysis::members::{
    AnalysisMode, DeepFacts, DeepResolution, FindingEvidence, MemberDecision, MemberLanguage,
};
use orphanode::application::deep::{
    deep_source_digest, resolve_deep_member_evidence, DeepRawFacts, DeepRawResolution,
    DeepSourceSpan,
};
use orphanode::application::errors::ScanError;
use orphanode::application::member_results::{
    apply_deep_member_evidence, deep_candidates_of, find_deep_keys, member_candidates,
};
use orphanode::application::symbols::{
    build_symbol_links, open_world_files, open_world_reexport_roots,
};
use orphanode::collections::{OrderedMap, OrderedSet};
use orphanode::discovery::workspace::{
    ProjectConfiguration, ProjectConfigurationKind, WorkspaceDiscovery,
};
use orphanode::domain::facts::{
    Activation, AnalysisDiagnostic, ClassMemberFact, ClassMemberKind, ClassMemberVisibility,
    DeclarationKind, DiagnosticSeverity, ExportBinding, ExportBindingKind, FileFacts, ImportKind,
    ModuleKind, ResolutionMode, SourceKind, SourceSpan, SymbolFact, SymbolFacts, SymbolFlags,
};
use orphanode::domain::ids::SymbolId;
use orphanode::domain::report::{
    AnalysisStatus, FileReport, FileStatus, ImportReport, ReportSummary, ResolutionStatus,
    ScanReport, REPORT_SCHEMA_VERSION,
};
use orphanode::paths::FilePath;

#[test]
fn reexported_symbols_are_roots_of_an_open_world() {
    let facts = vec![
        file("src/index.ts", vec![reexport("value", "./inner")], Vec::new()),
        file("src/inner.ts", vec![local("value", 4)], Vec::new()),
    ];
    let imports = vec![vec![import("./inner", "src/inner.ts")], Vec::new()];

    let open = open_world_files(&facts, &vec![0], true, &None);
    let roots = open_world_reexport_roots(&facts, &imports, &open);

    assert_eq!(open, [true, false]);
    assert_eq!(roots.len(), 1);
    assert_eq!(roots[0].symbol.file, 1);
    assert_eq!(roots[0].symbol.symbol, SymbolId(4));
    let closed = open_world_files(&facts, &vec![0], false, &None);
    assert!(open_world_reexport_roots(&facts, &imports, &closed).is_empty());
    let named = Some(OrderedSet::from_items(vec!["src/other.ts".to_owned()]));
    assert_eq!(open_world_files(&facts, &vec![0], true, &named), [false, false]);
    assert!(build_symbol_links(&facts, &vec![Vec::new(), Vec::new()]).is_empty());
}

#[test]
fn only_members_of_reachable_files_are_judged() {
    let facts = vec![
        file("src/a.ts", Vec::new(), vec![member("unused", 7)]),
        file("src/b.ts", Vec::new(), vec![member("other", 3)]),
    ];

    let candidates = member_candidates(
        &facts,
        &vec![true, false],
        &vec![true, false],
        AnalysisMode::Balanced,
        &OrderedMap::new(),
        &OrderedMap::new(),
    );

    assert_eq!(candidates[0].len(), 1);
    assert_eq!(candidates[0][0].id.name, "unused");
    assert_eq!(candidates[0][0].language, MemberLanguage::TypeScript);
    assert!(candidates[0][0].open_world);
    assert!(candidates[1].is_empty());
}

#[test]
fn deferred_members_are_decided_with_deep_evidence() {
    let facts = vec![file("src/a.ts", Vec::new(), vec![member("unused", 7)])];
    let evidence = evidence("src/a.ts", 7);
    let deferred = report(vec![deferral("src/a.ts", 7), deferral("src/a.ts", 90)]);

    assert_eq!(
        find_deep_keys(&deferred.diagnostics, &evidence).into_items(),
        [("src/a.ts".to_owned(), 7)]
    );
    let candidates = deep_candidates_of(&deferred.diagnostics, &facts, &evidence).unwrap();
    assert_eq!(candidates.len(), 1);
    assert!(!candidates[0].open_world);
    assert!(matches!(candidates[0].deep_resolution, DeepResolution::Resolved(_)));
    let decisions = vec![MemberDecision::Finding(vec![
        FindingEvidence::NoSemanticReference,
    ])];
    let (decided, count) =
        apply_deep_member_evidence(deferred, &facts, &evidence, &decisions).unwrap();

    assert_eq!(count, 1);
    assert_eq!(decided.findings.len(), 1);
    assert_eq!(decided.findings[0].issue_id, "ORP1004");
    assert!(!decided.findings[0].evidence.is_empty());
    assert_eq!(decided.diagnostics.len(), 1);
    assert_eq!(decided.summary.diagnostics, 1);
}

#[test]
fn missing_facts_of_deferred_members_are_told() {
    let diagnostics = vec![deferral("src/a.ts", 7)];
    let evidence = evidence("src/a.ts", 7);

    assert!(matches!(
        deep_candidates_of(&diagnostics, &Vec::new(), &evidence),
        Err(ScanError::MissingParsedFact(place)) if place == "src/a.ts"
    ));
    let empty = vec![file("src/a.ts", Vec::new(), Vec::new())];
    assert!(matches!(
        deep_candidates_of(&diagnostics, &empty, &evidence),
        Err(ScanError::MissingParsedFact(place)) if place == "src/a.ts:7"
    ));
}

#[test]
fn deep_evidence_counts_where_it_is_reachable() {
    let mut raw = OrderedMap::new();
    raw.insert(
        ("src/a.ts".to_owned(), 7),
        DeepRawResolution::Resolved(DeepRawFacts {
            references: vec![DeepSourceSpan {
                path: "src/a.ts".to_owned(),
                start: 40,
                end: 46,
            }],
            overrides: Vec::new(),
        }),
    );
    let workspace = WorkspaceDiscovery {
        workspace_root: FilePath::parse("/project"),
        packages: Vec::new(),
        package_manager: None,
        yarn_plug_and_play: Vec::new(),
    };
    let resolve = |report: &ScanReport| {
        let all = resolve_deep_member_evidence(&raw, report, &workspace, &Vec::new());
        match all.get(&("src/a.ts".to_owned(), 7)) {
            Some(DeepResolution::Resolved(facts)) => facts.receiver_may_reference_member,
            _ => panic!("the evidence is resolved"),
        }
    };

    assert!(resolve(&report(Vec::new())));
    let mut dead = report(Vec::new());
    dead.files[0].status = FileStatus::Unreachable;
    assert!(!resolve(&dead));
}

#[test]
fn deep_sources_are_told_apart_by_their_contents() {
    let configurations = vec![ProjectConfiguration {
        path: FilePath::parse("tsconfig.json"),
        root: FilePath::parse(""),
        kind: ProjectConfigurationKind::TypeScript,
        root_dir: None,
        out_dir: None,
        dependency_evidence: Vec::new(),
    }];
    let digest = |content: Option<Vec<u8>>| {
        deep_source_digest(&report(Vec::new()), &configurations, &vec![content])
    };

    assert_eq!(digest(Some(b"{}".to_vec())), digest(Some(b"{}".to_vec())));
    assert_ne!(digest(Some(b"{}".to_vec())), digest(Some(b"{ }".to_vec())));
    assert_ne!(digest(None), digest(Some(b"{}".to_vec())));
}

fn span(start: u32) -> SourceSpan {
    SourceSpan {
        start,
        end: start + 1,
    }
}

fn file(path: &str, exports: Vec<ExportBinding>, members: Vec<ClassMemberFact>) -> FileFacts {
    let symbols = exports
        .iter()
        .filter_map(|export| export.local)
        .map(|id| SymbolFact {
            id,
            name: "value".to_owned(),
            kind: DeclarationKind::Variable,
            span: span(0),
            flags: SymbolFlags {
                safe_removal_span: true,
                initializer_effectful: false,
            },
        })
        .collect();
    FileFacts {
        path: path.to_owned(),
        source_kind: SourceKind::TypeScript,
        module_kind: ModuleKind::Esm,
        byte_len: 100,
        line_count: 5,
        imports: Vec::new(),
        exports: Vec::new(),
        symbol_facts: SymbolFacts {
            imports: Vec::new(),
            exports,
            symbols,
        },
        member_facts: members,
        diagnostics: Vec::new(),
    }
}

fn local(name: &str, id: u32) -> ExportBinding {
    ExportBinding {
        exported: name.to_owned(),
        kind: ExportBindingKind::Local,
        local: Some(SymbolId(id)),
        source: None,
        imported: None,
        type_only: false,
        span: span(0),
    }
}

fn reexport(name: &str, source: &str) -> ExportBinding {
    ExportBinding {
        exported: name.to_owned(),
        kind: ExportBindingKind::ReExport,
        local: None,
        source: Some(source.to_owned()),
        imported: Some(name.to_owned()),
        type_only: false,
        span: span(0),
    }
}

fn import(specifier: &str, target: &str) -> ImportReport {
    ImportReport {
        specifier: specifier.to_owned(),
        kind: ImportKind::ReExport,
        resolution_mode: ResolutionMode::Esm,
        activation: Activation::Module,
        type_only: false,
        status: ResolutionStatus::Resolved,
        target_profiles: Vec::new(),
        target: Some(target.to_owned()),
        span: span(0),
    }
}

fn member(name: &str, position: u32) -> ClassMemberFact {
    ClassMemberFact {
        declaring_class: "Service".to_owned(),
        name: name.to_owned(),
        kind: ClassMemberKind::Method,
        visibility: ClassMemberVisibility::Public,
        is_static: false,
        span: span(position),
        directly_referenced: false,
        class_exported: false,
        class_escaped: false,
        decorated: false,
        emitted_decorator_metadata: false,
        unknown_bracket_access: false,
        reflected_or_enumerated: false,
        serialized: false,
        object_spread: false,
        proxied: false,
        passed_to_unknown_code: false,
        participates_in_inheritance: false,
        relationships_complete: true,
        overrides_live_base_member: false,
        has_live_override: false,
        implements_external_contract: false,
    }
}

fn evidence(path: &str, position: u32) -> OrderedMap<(String, u32), DeepResolution> {
    let mut evidence = OrderedMap::new();
    evidence.insert(
        (path.to_owned(), position),
        DeepResolution::Resolved(DeepFacts {
            receiver_may_reference_member: false,
            live_override_contract: false,
        }),
    );
    evidence
}

fn deferral(path: &str, position: u32) -> AnalysisDiagnostic {
    AnalysisDiagnostic {
        code: "member_analysis_deferred".to_owned(),
        path: path.to_owned(),
        severity: DiagnosticSeverity::Warning,
        span: Some(span(position)),
        message: "the receiver is not known".to_owned(),
        blocks_reachability: false,
    }
}

fn report(diagnostics: Vec<AnalysisDiagnostic>) -> ScanReport {
    ScanReport {
        schema_version: REPORT_SCHEMA_VERSION,
        status: AnalysisStatus::Complete,
        entries: vec!["src/a.ts".to_owned()],
        summary: ReportSummary {
            files: 1,
            reachable_files: 1,
            unreachable_files: 0,
            incomplete_files: 0,
            diagnostics: diagnostics.len(),
        },
        files: vec![FileReport {
            path: "src/a.ts".to_owned(),
            status: FileStatus::Reachable,
            target_statuses: OrderedMap::new(),
            source_kind: SourceKind::TypeScript,
            module_kind: ModuleKind::Esm,
            byte_len: 100,
            line_count: 5,
            content_digest: "digest".to_owned(),
            imports: Vec::new(),
            exports: Vec::new(),
        }],
        findings: Vec::new(),
        retentions: Vec::new(),
        project: None,
        cache: None,
        diagnostics,
    }
}
