use orphanode::collections::OrderedSet;
use orphanode::discovery::workspace::Json;
use orphanode::plugins::contract::{
    merge_plugin_contributions, validate_workspace_pattern, DeclarativePlugin,
    PatternContribution, PluginCapability, PluginContributions, PluginDiagnostic,
    PluginDiagnosticSeverity, PluginValidationError,
};
use orphanode::plugins::executable::{
    host_failure_diagnostic, list_literal_paths, validate_host_request, validate_host_response,
    ExecutablePluginConfig, HostFailureKind, HostRequest, HostResponse, HostResponseStatus,
    HostValidationError, EXECUTABLE_PLUGIN_PROTOCOL_VERSION,
};
use orphanode::plugins::facts::{
    all_plugin_capabilities, collect_static_config_packages, contributions_from_host,
    select_configured_plugins, HostOutcome,
};

#[test]
fn executable_plugins_require_explicit_trust() {
    assert!(matches!(
        config(false).validate(true, true),
        Err(HostValidationError::UntrustedPlugin(_))
    ));
    assert!(config(true).validate(true, true).is_ok());
}

#[test]
fn executables_have_to_be_files_inside_the_workspace() {
    assert!(matches!(
        config(true).validate(true, false),
        Err(HostValidationError::ExecutableIsNotFile(_))
    ));
    assert!(config(true).validate(false, true).is_err());
    let mut slow = config(true);
    slow.timeout_milliseconds = 0;
    assert!(matches!(
        slow.validate(true, true),
        Err(HostValidationError::InvalidTimeout(_))
    ));
    let mut small = config(true);
    small.max_response_bytes = 0;
    assert!(matches!(
        small.validate(true, true),
        Err(HostValidationError::InvalidResponseLimit(_))
    ));
}

#[test]
fn incomplete_responses_cannot_contribute_roots() {
    let request = request();
    let mut contributions = PluginContributions::none();
    contributions.entry_patterns = vec![root_pattern()];
    contributions.diagnostics = vec![blocking_diagnostic()];
    let response = HostResponse {
        protocol_version: EXECUTABLE_PLUGIN_PROTOCOL_VERSION,
        request_id: request.request_id.clone(),
        plugin_id: request.plugin_id.clone(),
        plugin_version: "1.0.0".to_owned(),
        status: HostResponseStatus::Incomplete,
        contributions,
    };

    assert!(matches!(
        validate(&request, &response),
        Err(HostValidationError::FailedResponseContributedFacts(_))
    ));
}

#[test]
fn incomplete_responses_require_and_accept_only_a_blocker() {
    let request = request();
    let mut response = HostResponse {
        protocol_version: EXECUTABLE_PLUGIN_PROTOCOL_VERSION,
        request_id: request.request_id.clone(),
        plugin_id: request.plugin_id.clone(),
        plugin_version: "1.0.0".to_owned(),
        status: HostResponseStatus::Incomplete,
        contributions: PluginContributions::none(),
    };

    assert!(matches!(
        validate(&request, &response),
        Err(HostValidationError::FailedResponseWithoutBlocker(_))
    ));

    response.contributions.diagnostics = vec![blocking_diagnostic()];
    validate(&request, &response).expect("blocking incomplete response");
}

#[test]
fn host_failures_always_block_reachability() {
    for kind in [
        HostFailureKind::Spawn,
        HostFailureKind::Timeout,
        HostFailureKind::Crash,
        HostFailureKind::InvalidResponse,
        HostFailureKind::OversizedResponse,
    ] {
        let diagnostic = host_failure_diagnostic(kind);
        assert_eq!(diagnostic.severity, PluginDiagnosticSeverity::Error);
        assert!(diagnostic.blocks_reachability);
        diagnostic.validate().expect("valid host diagnostic");
    }
}

#[test]
fn responses_cannot_use_an_unnegotiated_capability() {
    let mut request = request();
    request.capabilities = vec![PluginCapability::Diagnostics];
    let mut contributions = PluginContributions::none();
    contributions.entry_patterns = vec![root_pattern()];
    let response = HostResponse {
        protocol_version: EXECUTABLE_PLUGIN_PROTOCOL_VERSION,
        request_id: request.request_id.clone(),
        plugin_id: request.plugin_id.clone(),
        plugin_version: "1.0.0".to_owned(),
        status: HostResponseStatus::Complete,
        contributions,
    };

    assert!(matches!(
        validate(&request, &response),
        Err(HostValidationError::UnnegotiatedCapability(
            PluginCapability::Entries
        ))
    ));
}

#[test]
fn responses_answer_their_request() {
    let request = request();
    let mut response = HostResponse {
        protocol_version: EXECUTABLE_PLUGIN_PROTOCOL_VERSION,
        request_id: "request-2".to_owned(),
        plugin_id: request.plugin_id.clone(),
        plugin_version: "1.0.0".to_owned(),
        status: HostResponseStatus::Complete,
        contributions: PluginContributions::none(),
    };
    assert!(matches!(
        validate(&request, &response),
        Err(HostValidationError::ResponseIdentity(_))
    ));
    response.request_id = "request-1".to_owned();
    assert!(validate(&request, &response).is_ok());
    response.protocol_version = EXECUTABLE_PLUGIN_PROTOCOL_VERSION + 1;
    assert!(matches!(
        validate(&request, &response),
        Err(HostValidationError::ProtocolVersion(_))
    ));
}

#[test]
fn requests_name_capabilities_once_and_in_order() {
    let mut asked = request();
    assert!(validate_host_request(&asked).is_ok());
    asked.capabilities = vec![PluginCapability::Diagnostics, PluginCapability::Entries];
    assert!(matches!(
        validate_host_request(&asked),
        Err(HostValidationError::NonCanonicalOrder(_))
    ));
    asked.capabilities = Vec::new();
    assert!(matches!(
        validate_host_request(&asked),
        Err(HostValidationError::MissingCapabilities)
    ));
}

#[test]
fn patterns_stay_inside_the_workspace() {
    assert!(validate_workspace_pattern("src/**/*.ts").is_none());
    assert!(matches!(
        validate_workspace_pattern("../out"),
        Some(PluginValidationError::InvalidPattern(_))
    ));
}

#[test]
fn faults_of_hosts_block_what_they_were_to_tell() {
    let contributions = contributions_from_host(&vec![
        HostOutcome::Answered(PluginContributions::none()),
        HostOutcome::Failed("host timed out".to_owned()),
    ]);

    assert_eq!(contributions.diagnostics.len(), 1);
    assert!(contributions.diagnostics[0].blocks_reachability);
}

#[test]
fn contributions_are_put_together() {
    let mut all = PluginContributions::none();
    let mut more = PluginContributions::none();
    more.entry_patterns = vec![root_pattern()];
    merge_plugin_contributions(&mut all, &more);
    merge_plugin_contributions(&mut all, &more);

    assert!(!all.entry_patterns.is_empty());
    assert_eq!(all.used_capabilities(), [PluginCapability::Entries]);
    assert!(!all.is_empty_except_diagnostics());
}

#[test]
fn executable_config_package_references_are_static_and_normalized() {
    let config = Json::Object(vec![
        (
            "plugins".to_owned(),
            Json::List(vec![
                Json::Text("@scope/plugin/preset".to_owned()),
                Json::Text("./local-plugin.js".to_owned()),
            ]),
        ),
        (
            "parser".to_owned(),
            Json::Text("typescript-parser".to_owned()),
        ),
    ]);
    let mut packages = OrderedSet::new();

    collect_static_config_packages(&config, None, &mut packages);

    assert_eq!(
        packages.into_items(),
        ["@scope/plugin".to_owned(), "typescript-parser".to_owned()]
    );
}

#[test]
fn every_capability_is_offered_once() {
    let capabilities = all_plugin_capabilities();

    assert_eq!(capabilities.len(), 13);
    for (index, capability) in capabilities.iter().enumerate() {
        assert!(!capabilities[..index].contains(capability));
    }
}

#[test]
fn configured_plugins_are_taken_once() {
    let plugin = |id: &str| DeclarativePlugin {
        id: id.to_owned(),
        version: "1.0.0".to_owned(),
        display_name: id.to_owned(),
        contributions: PluginContributions::none(),
        unsupported_cases: Vec::new(),
    };
    let chosen = select_configured_plugins(&vec![plugin("b"), plugin("a"), plugin("b")]);

    assert_eq!(
        chosen
            .iter()
            .map(|found| found.plugin.id.as_str())
            .collect::<Vec<_>>(),
        ["a", "b"]
    );
}

fn validate(request: &HostRequest, response: &HostResponse) -> Result<(), HostValidationError> {
    let contained = vec![true; list_literal_paths(&response.contributions).len()];
    validate_host_response(request, response, &contained)
}

fn config(trusted: bool) -> ExecutablePluginConfig {
    ExecutablePluginConfig {
        id: "custom".to_owned(),
        version: "1.0.0".to_owned(),
        executable: "tools/plugin.js".to_owned(),
        arguments: Vec::new(),
        trusted,
        timeout_milliseconds: 10_000,
        max_response_bytes: 1_048_576,
    }
}

fn root_pattern() -> PatternContribution {
    PatternContribution {
        pattern: "src/index.ts".to_owned(),
        reason: "Plugin root".to_owned(),
    }
}

fn request() -> HostRequest {
    HostRequest {
        protocol_version: EXECUTABLE_PLUGIN_PROTOCOL_VERSION,
        request_id: "request-1".to_owned(),
        plugin_id: "custom".to_owned(),
        plugin_version: "1.0.0".to_owned(),
        workspace_root: ".".to_owned(),
        target_profile: "default".to_owned(),
        manifest: None,
        config_files: Vec::new(),
        capabilities: vec![PluginCapability::Entries, PluginCapability::Diagnostics],
    }
}

fn blocking_diagnostic() -> PluginDiagnostic {
    PluginDiagnostic {
        path: None,
        code: "plugin_custom_incomplete".to_owned(),
        severity: PluginDiagnosticSeverity::Warning,
        message: "Custom plugin could not model its configuration".to_owned(),
        blocks_reachability: true,
    }
}
