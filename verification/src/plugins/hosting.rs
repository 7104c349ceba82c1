//! Where configured plugins are found, and which replies of their processes are taken.

use crate::application::errors::{
    PluginFailure, PluginFailureModel, ProjectScanError, ProjectScanErrorModel,
};
use crate::plugins::contract::{
    DeclarativePlugin, DeclarativePluginModel, PluginContributions, PluginContributionsModel,
};
use crate::plugins::executable::{ExecutablePluginConfig, ExecutablePluginConfigModel};
use crate::text::{concat2, concat3, decimal, digits, strip_prefix, without_prefix};
use crate::values::Value;
use vstd::prelude::*;

verus! {

/// Whether a configured plugin is executable, and where its file is said to be.
pub open spec fn configured_place(configured: Seq<char>) -> (bool, Seq<char>) {
    match without_prefix(configured, "exec:"@) {
        Some(path) => (true, path),
        None => (false, configured),
    }
}

/// Whether a configured plugin is executable, and where its file is said to be.
#[must_use]
pub fn read_configured_place(configured: &str) -> (r: (bool, String))
    ensures
        (r.0, r.1@) == configured_place(configured@),
{
    match strip_prefix(configured, "exec:") {
        Some(path) => (true, path),
        None => (false, configured.to_owned()),
    }
}

/// What is found where a configured plugin is said to be.
#[derive(Debug, PartialEq, Eq)]
pub enum PluginPlace {
    /// Nothing, for this reason.
    Missing(String),
    /// Something outside the workspace, or no regular file.
    Unsuitable,
    /// A regular file inside the workspace.
    Suitable,
}

/// What is wrong with the place of a configured plugin, if something is.
pub open spec fn place_fault(
    plugin: Seq<char>,
    place: PluginPlace,
) -> Option<ProjectScanErrorModel> {
    match place {
        PluginPlace::Missing(reason) => Some(
            ProjectScanErrorModel::ConfiguredPlugin(
                PluginFailureModel { plugin, message: reason@ },
            ),
        ),
        PluginPlace::Unsuitable => Some(
            ProjectScanErrorModel::ConfiguredPlugin(
                PluginFailureModel {
                    plugin,
                    message: "plugin path must name a regular file inside the workspace"@,
                },
            ),
        ),
        PluginPlace::Suitable => None,
    }
}

/// Whether a configured plugin can be read.
///
/// # Errors
///
/// Returns an error where there is no regular file for it inside the workspace.
pub fn check_configured_place(plugin: &str, place: PluginPlace) -> (r: Result<(), ProjectScanError>)
    ensures
        match r {
            Ok(_) => place_fault(plugin@, place) is None,
            Err(error) => place_fault(plugin@, place) == Some(error.deep_view()),
        },
{
    match place {
        PluginPlace::Missing(reason) => Err(
            ProjectScanError::ConfiguredPlugin(
                PluginFailure { plugin: plugin.to_owned(), message: reason },
            ),
        ),
        PluginPlace::Unsuitable => Err(
            ProjectScanError::ConfiguredPlugin(
                PluginFailure {
                    plugin: plugin.to_owned(),
                    message: "plugin path must name a regular file inside the workspace".to_owned(),
                },
            ),
        ),
        PluginPlace::Suitable => Ok(()),
    }
}

/// What is wrong with a request of this many bytes, if something is.
pub open spec fn request_fault(bytes: usize, limit: usize) -> Option<Seq<char>> {
    if bytes > limit {
        Some(
            "plugin request exceeded the configured "@ + digits(limit as nat)
                + "-byte protocol limit"@,
        )
    } else {
        None
    }
}

/// Whether a request of this many bytes is sent.
///
/// # Errors
///
/// Returns why it is not.
pub fn check_request_size(bytes: usize, limit: usize) -> (r: Result<(), String>)
    ensures
        match r {
            Ok(_) => request_fault(bytes, limit) is None,
            Err(reason) => request_fault(bytes, limit) == Some(reason@),
        },
{
    if bytes > limit {
        Err(
            concat3(
                "plugin request exceeded the configured ",
                &decimal(limit as u64),
                "-byte protocol limit",
            ),
        )
    } else {
        Ok(())
    }
}

/// How the process of a plugin ended.
#[derive(Debug, PartialEq, Eq)]
pub enum HostEnd {
    /// It did not end in time.
    TimedOut,
    /// It failed with this status.
    Failed(String),
    /// It succeeded and wrote this many bytes.
    Wrote(u64),
}

/// Why what the process of a plugin wrote is not read, if it is not.
pub open spec fn end_fault(end: HostEnd, config: ExecutablePluginConfigModel) -> Option<Seq<char>> {
    match end {
        HostEnd::TimedOut => Some(
            "plugin host exceeded "@ + digits(config.timeout_milliseconds as nat) + "ms timeout"@,
        ),
        HostEnd::Failed(status) => Some("plugin host exited with status "@ + status@),
        HostEnd::Wrote(bytes) => if bytes > config.max_response_bytes {
            Some("plugin response exceeded "@ + digits(config.max_response_bytes as nat) + " bytes"@)
        } else {
            None
        },
    }
}

/// Whether what the process of a plugin wrote is read.
///
/// # Errors
///
/// Returns why it is not.
pub fn check_host_end(end: HostEnd, config: &ExecutablePluginConfig) -> (r: Result<(), String>)
    ensures
        match r {
            Ok(_) => end_fault(end, config.deep_view()) is None,
            Err(reason) => end_fault(end, config.deep_view()) == Some(reason@),
        },
{
    match end {
        HostEnd::TimedOut => Err(
            concat3(
                "plugin host exceeded ",
                &decimal(config.timeout_milliseconds),
                "ms timeout",
            ),
        ),
        HostEnd::Failed(status) => Err(concat2("plugin host exited with status ", &status)),
        HostEnd::Wrote(bytes) => if bytes > config.max_response_bytes {
            Err(
                concat3(
                    "plugin response exceeded ",
                    &decimal(config.max_response_bytes),
                    " bytes",
                ),
            )
        } else {
            Ok(())
        },
    }
}

/// The plugin that an executable stands for: it is known by its identifier, and contributes what
/// it said.
pub open spec fn plugin_of_host(
    config: ExecutablePluginConfigModel,
    contributions: PluginContributionsModel,
) -> DeclarativePluginModel {
    DeclarativePluginModel {
        id: config.id,
        version: config.version,
        display_name: config.id,
        contributions,
        unsupported_cases: Seq::empty(),
    }
}

/// The plugin that an executable stands for.
#[must_use]
pub fn executable_plugin(
    config: &ExecutablePluginConfig,
    contributions: PluginContributions,
) -> (r: DeclarativePlugin)
    ensures
        r.deep_view() == plugin_of_host(config.deep_view(), contributions.deep_view()),
{
    let plugin = DeclarativePlugin {
        id: config.id.replicate(),
        version: config.version.replicate(),
        display_name: config.id.replicate(),
        contributions,
        unsupported_cases: Vec::new(),
    };
    assert(plugin.unsupported_cases.deep_view() =~= Seq::empty());
    plugin
}

} // verus!
