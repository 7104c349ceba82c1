use orphanode::cache::key::ContentDigest;
use orphanode::fixes::apply::{
    preview_file_change, ApplyPhase, ApplySession, CommandExecution, FixError, FixPreview,
    PreviewChangeKind, RevalidationOutcome,
};
use orphanode::fixes::eligibility::{
    AnalysisConfidence, CoverageBlocker, EligibilityDecision, EligibilityRejection, EligibleFix,
    FixCandidate, PublicApiExposure, WorldAssumption,
};
use orphanode::fixes::package_manager::{
    DependencyKind, DependencyRemoval, DirectDependency, PackageManager, PackageManagerCommand,
};
use orphanode::fixes::plan::{
    ByteSpan, ExplicitFileFixScope, FixPlan, FixPlanError, ProjectPath, SourceEdit,
};

#[test]
fn requires_every_safety_condition() {
    let decision = FixCandidate {
        confidence: AnalysisConfidence::Medium,
        world: WorldAssumption::Open,
        public_api: PublicApiExposure::PublicApi,
        blockers: vec![CoverageBlocker::Parse],
        expected_content: None,
        preserves_trivia_and_semantics: false,
    }
    .evaluate();

    let EligibilityDecision::Ineligible(rejections) = decision else {
        panic!("unsafe candidate was considered eligible");
    };
    assert!(rejections.contains(&EligibilityRejection::ConfidenceIsNotHigh));
    assert!(rejections.contains(&EligibilityRejection::PublicApiRequiresClosedWorld));
    assert!(rejections.contains(&EligibilityRejection::MissingAnalyzedContentHash));
    assert!(rejections.contains(&EligibilityRejection::TriviaOrSemanticPreservationUnproven));
    assert!(rejections.contains(&EligibilityRejection::AffectedByBlockers(vec![
        CoverageBlocker::Parse
    ])));
}

#[test]
fn permits_a_hash_guarded_closed_world_fix() {
    let decision = FixCandidate {
        confidence: AnalysisConfidence::High,
        world: WorldAssumption::Closed,
        public_api: PublicApiExposure::PublicApi,
        blockers: Vec::new(),
        expected_content: Some(ContentDigest::of_bytes(b"source")),
        preserves_trivia_and_semantics: true,
    }
    .evaluate();

    assert!(matches!(decision, EligibilityDecision::Eligible(_)));
}

#[test]
fn plans_a_package_manager_removal_in_the_exact_workspace() {
    let command = PackageManagerCommand::remove_direct_dependency(
        PackageManager::Pnpm,
        ProjectPath::new("packages/app").unwrap(),
        ContentDigest::of_bytes(b"{\"name\":\"app\"}"),
        DirectDependency::new("@scope/unused", DependencyKind::Development).unwrap(),
        "No reachable runtime or tool reference retains this dependency",
    )
    .unwrap();

    assert_eq!(command.working_directory.as_str(), "packages/app");
    assert_eq!(command.manifest_path.as_str(), "packages/app/package.json");
    assert_eq!(command.display_command(), "pnpm remove @scope/unused");
    assert_eq!(
        command.removals[0].reason,
        "No reachable runtime or tool reference retains this dependency"
    );
    assert!(command.validate().is_ok());
}

#[test]
fn rejects_option_injection_as_a_package_name() {
    assert!(DirectDependency::new("--filter", DependencyKind::Production).is_err());
}

#[test]
fn groups_workspace_removals_into_one_deterministic_command() {
    let command = PackageManagerCommand::remove_direct_dependencies(
        PackageManager::Npm,
        ProjectPath::root(),
        ContentDigest::of_bytes(b"{}"),
        vec![
            DependencyRemoval::new(
                DirectDependency::new("zeta", DependencyKind::Production).unwrap(),
                "zeta is unused",
            )
            .unwrap(),
            DependencyRemoval::new(
                DirectDependency::new("alpha", DependencyKind::Development).unwrap(),
                "alpha is unused",
            )
            .unwrap(),
        ],
    )
    .unwrap();

    assert_eq!(command.display_command(), "npm uninstall alpha zeta");
    assert_eq!(command.removals[0].reason, "alpha is unused");
    assert_eq!(command.removals[1].reason, "zeta is unused");
}

#[test]
fn removals_cannot_repeat_or_be_empty() {
    let twice = PackageManagerCommand::remove_direct_dependencies(
        PackageManager::Bun,
        ProjectPath::root(),
        ContentDigest::of_bytes(b"{}"),
        vec![removal("same"), removal("same")],
    );
    let none = PackageManagerCommand::remove_direct_dependencies(
        PackageManager::Yarn,
        ProjectPath::root(),
        ContentDigest::of_bytes(b"{}"),
        Vec::new(),
    );

    assert!(twice.is_err());
    assert!(none.is_err());
    assert!(DependencyRemoval::new(
        DirectDependency::new("a", DependencyKind::Production).unwrap(),
        "  "
    )
    .is_err());
}

#[test]
fn a_command_that_was_changed_is_invalid() {
    let mut command = PackageManagerCommand::remove_direct_dependency(
        PackageManager::Npm,
        ProjectPath::root(),
        ContentDigest::of_bytes(b"{}"),
        DirectDependency::new("left", DependencyKind::Production).unwrap(),
        "left is unused",
    )
    .unwrap();
    command.arguments.push("right".to_owned());

    assert!(command.validate().is_err());
}

#[test]
fn paths_stay_inside_the_project() {
    assert!(ProjectPath::new("src/index.ts").is_ok());
    for path in ["", ".", "..", "../out", "a/../b", "/etc", "a//b", "a\\b", "a\nb"] {
        assert!(matches!(
            ProjectPath::new(path),
            Err(FixPlanError::UnsafePath(_))
        ));
    }
    assert_eq!(ProjectPath::root().as_str(), ".");
    assert_eq!(
        ProjectPath::root().package_manifest().as_str(),
        "package.json"
    );
}

#[test]
fn plans_refuse_unordered_edits_and_repeated_files() {
    let mut plan = plan();
    assert!(matches!(ByteSpan::new(3, 2), Err(FixPlanError::InvalidSpan)));
    assert!(matches!(
        plan.add_source_edits(
            eligible(b"abcdef"),
            ProjectPath::new("a.js").unwrap(),
            vec![edit(2, 4, ""), edit(3, 5, "")],
            "overlap",
        ),
        Err(FixPlanError::OverlappingEdits(_))
    ));
    plan.add_file_deletion(
        eligible(b"abcdef"),
        ProjectPath::new("a.js").unwrap(),
        ExplicitFileFixScope::selected(),
        "unused",
    )
    .unwrap();
    assert!(matches!(
        plan.add_file_deletion(
            eligible(b"abcdef"),
            ProjectPath::new("a.js").unwrap(),
            ExplicitFileFixScope::selected(),
            "unused",
        ),
        Err(FixPlanError::DuplicateFile(_))
    ));
    assert!(matches!(
        plan.add_file_deletion(
            eligible(b"abcdef"),
            ProjectPath::new("b.js").unwrap(),
            ExplicitFileFixScope::selected(),
            "",
        ),
        Err(FixPlanError::InvalidText)
    ));
    assert!(plan.validate().is_ok());
    assert!(matches!(
        FixPlan::new("", "title"),
        Err(FixPlanError::InvalidText)
    ));
}

#[test]
fn edits_are_made_at_their_places() {
    let mut plan = plan();
    plan.add_source_edits(
        eligible(b"one two three"),
        ProjectPath::new("a.js").unwrap(),
        vec![edit(0, 3, "1"), edit(8, 13, "drei")],
        "shorter",
    )
    .unwrap();

    let change = preview_file_change(&plan.file_changes[0], b"one two three".to_vec()).unwrap();

    assert_eq!(change.kind, PreviewChangeKind::Modify);
    assert_eq!(change.updated_content(), Some(b"1 two drei".as_slice()));
    assert_eq!(
        change.after_digest,
        Some(ContentDigest::of_bytes(b"1 two drei"))
    );
}

#[test]
fn edits_beyond_the_file_are_refused() {
    let mut plan = plan();
    plan.add_source_edits(
        eligible(b"abc"),
        ProjectPath::new("a.js").unwrap(),
        vec![edit(1, 9, "")],
        "too far",
    )
    .unwrap();

    assert!(matches!(
        preview_file_change(&plan.file_changes[0], b"abc".to_vec()),
        Err(FixError::SpanOutOfBounds { .. })
    ));
}

#[test]
fn preview_is_read_only_and_apply_is_hash_guarded() {
    let source = b"const unused = 1;\n";
    let mut plan = plan();
    plan.add_source_edits(
        eligible(source),
        ProjectPath::new("index.js").unwrap(),
        vec![edit(0, source.len(), "")],
        "The declaration has no live references",
    )
    .unwrap();
    let change = preview_file_change(&plan.file_changes[0], source.to_vec()).unwrap();
    let preview = FixPreview::new(plan, b"plan".to_vec(), vec![change]);
    let authorization = preview.explicit_apply_authorization();
    let mut session = ApplySession::begin(preview, authorization).unwrap();

    assert_eq!(session.phase(), ApplyPhase::VerifyFile(0));
    let error = session.checked(b"const changed = 2;\n").unwrap_err();
    assert!(matches!(error, FixError::HashMismatch { .. }));
    assert!(session.changed_paths().is_empty());
}

#[test]
fn explicit_apply_changes_the_file_then_revalidates() {
    let source = b"let keep = 1;\nlet unused = 2;\n";
    let mut plan = plan();
    plan.add_source_edits(
        eligible(source),
        ProjectPath::new("index.js").unwrap(),
        vec![edit(b"let keep = 1;\n".len(), source.len(), "")],
        "The declaration has no live references",
    )
    .unwrap();
    let change = preview_file_change(&plan.file_changes[0], source.to_vec()).unwrap();
    let preview = FixPreview::new(plan, b"plan".to_vec(), vec![change]);
    let authorization = preview.explicit_apply_authorization();
    let mut session = ApplySession::begin(preview, authorization).unwrap();

    assert_eq!(session.phase(), ApplyPhase::VerifyFile(0));
    session.checked(source).unwrap();
    assert_eq!(session.phase(), ApplyPhase::ReadFile(0));
    session.checked(source).unwrap();
    assert_eq!(session.phase(), ApplyPhase::WriteFile(0));
    assert_eq!(
        session.preview().changes()[0].updated_content(),
        Some(b"let keep = 1;\n".as_slice())
    );
    session.written();
    assert_eq!(session.phase(), ApplyPhase::Revalidate);
    let report = session.finish(RevalidationOutcome::Passed { notes: Vec::new() });

    assert_eq!(report.changed_paths.len(), 1);
    assert!(matches!(
        report.revalidation,
        RevalidationOutcome::Passed { .. }
    ));
}

#[test]
fn changed_workspace_manifest_refuses_package_command_apply() {
    let analyzed = b"{\"dependencies\":{\"unused\":\"1.0.0\"}}\n";
    let mut plan = plan();
    plan.add_package_command(
        PackageManagerCommand::remove_direct_dependency(
            PackageManager::Npm,
            ProjectPath::new("packages/app").unwrap(),
            ContentDigest::of_bytes(analyzed),
            DirectDependency::new("unused", DependencyKind::Production).unwrap(),
            "No reachable runtime or tool reference retains this dependency",
        )
        .unwrap(),
    );
    let preview = FixPreview::new(plan, b"plan".to_vec(), Vec::new());
    let authorization = preview.explicit_apply_authorization();
    let mut session = ApplySession::begin(preview, authorization).unwrap();

    assert_eq!(session.phase(), ApplyPhase::VerifyManifest(0));
    let error = session
        .checked(b"{\"dependencies\":{\"unused\":\"2.0.0\"}}\n")
        .unwrap_err();

    assert!(matches!(
        error,
        FixError::HashMismatch { ref path, .. } if path == "packages/app/package.json"
    ));
    assert!(session.executions().is_empty());
}

#[test]
fn a_failed_command_stops_those_behind_it() {
    let manifest = b"{}";
    let mut plan = plan();
    for directory in ["a", "b"] {
        plan.add_package_command(
            PackageManagerCommand::remove_direct_dependency(
                PackageManager::Npm,
                ProjectPath::new(directory).unwrap(),
                ContentDigest::of_bytes(manifest),
                DirectDependency::new("unused", DependencyKind::Production).unwrap(),
                "unused",
            )
            .unwrap(),
        );
    }
    let command = PackageManagerCommand::remove_direct_dependency(
        PackageManager::Npm,
        ProjectPath::new("a").unwrap(),
        ContentDigest::of_bytes(manifest),
        DirectDependency::new("unused", DependencyKind::Production).unwrap(),
        "unused",
    )
    .unwrap();
    let preview = FixPreview::new(plan, b"plan".to_vec(), Vec::new());
    let authorization = preview.explicit_apply_authorization();
    let mut session = ApplySession::begin(preview, authorization).unwrap();
    session.checked(manifest).unwrap();
    session.checked(manifest).unwrap();
    assert_eq!(session.phase(), ApplyPhase::CheckManifest(0));
    session.checked(manifest).unwrap();
    assert_eq!(session.phase(), ApplyPhase::Execute(0));
    session.executed(CommandExecution {
        command,
        success: false,
        exit_code: Some(1),
        message: "no".to_owned(),
    });

    assert_eq!(session.phase(), ApplyPhase::Revalidate);
    assert_eq!(session.executions().len(), 1);
}

#[test]
fn nothing_is_changed_before_everything_is_verified() {
    let source = b"let unused = 2;\n";
    let manifest = b"{}";
    let mut plan = plan();
    for path in ["a.js", "b.js"] {
        plan.add_source_edits(
            eligible(source),
            ProjectPath::new(path).unwrap(),
            vec![edit(0, source.len(), "")],
            "unused",
        )
        .unwrap();
    }
    plan.add_package_command(
        PackageManagerCommand::remove_direct_dependency(
            PackageManager::Npm,
            ProjectPath::new("packages/app").unwrap(),
            ContentDigest::of_bytes(manifest),
            DirectDependency::new("unused", DependencyKind::Production).unwrap(),
            "unused",
        )
        .unwrap(),
    );
    let changes = plan
        .file_changes
        .iter()
        .map(|change| preview_file_change(change, source.to_vec()).unwrap())
        .collect();
    let preview = FixPreview::new(plan, b"plan".to_vec(), changes);
    let authorization = preview.explicit_apply_authorization();
    let mut session = ApplySession::begin(preview, authorization).unwrap();
    let mut passed = Vec::new();

    while !matches!(session.phase(), ApplyPhase::WriteFile(_) | ApplyPhase::Execute(_)) {
        passed.push(session.phase());
        let content: &[u8] = match session.phase() {
            ApplyPhase::VerifyManifest(_) | ApplyPhase::CheckManifest(_) => manifest,
            _ => source,
        };
        session.checked(content).unwrap();
    }

    assert_eq!(
        passed,
        [
            ApplyPhase::VerifyFile(0),
            ApplyPhase::VerifyFile(1),
            ApplyPhase::VerifyManifest(0),
            ApplyPhase::ReadFile(0),
        ]
    );
}

#[test]
fn another_preview_does_not_authorize() {
    let first = FixPreview::new(plan(), b"first".to_vec(), Vec::new());
    let second = FixPreview::new(plan(), b"second".to_vec(), Vec::new());

    assert_ne!(first.fingerprint(), second.fingerprint());
    assert!(matches!(
        ApplySession::begin(first, second.explicit_apply_authorization()),
        Err(FixError::AuthorizationMismatch)
    ));
}

fn plan() -> FixPlan {
    FixPlan::new("fix-unused", "remove an unused declaration").unwrap()
}

fn removal(name: &str) -> DependencyRemoval {
    DependencyRemoval::new(
        DirectDependency::new(name, DependencyKind::Production).unwrap(),
        "unused",
    )
    .unwrap()
}

fn edit(start: usize, end: usize, replacement: &str) -> SourceEdit {
    SourceEdit::new(ByteSpan::new(start, end).unwrap(), replacement)
}

fn eligible(source: &[u8]) -> EligibleFix {
    let decision = FixCandidate {
        confidence: AnalysisConfidence::High,
        world: WorldAssumption::Closed,
        public_api: PublicApiExposure::OutsidePublicApi,
        blockers: Vec::new(),
        expected_content: Some(ContentDigest::of_bytes(source)),
        preserves_trivia_and_semantics: true,
    }
    .evaluate();
    let EligibilityDecision::Eligible(eligible) = decision else {
        panic!("the candidate is eligible");
    };
    eligible
}
