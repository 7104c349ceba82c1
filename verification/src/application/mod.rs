//! From facts about files to the report of a scan.

pub mod deep;
pub mod dependency_report_laws;
pub mod dependency_results;
pub mod diagnostics;
pub mod entries;
pub mod entry_laws;
pub mod errors;
pub mod export_laws;
pub mod exports;
pub mod finding_laws;
pub mod findings;
pub mod import_laws;
pub mod loading;
pub mod member_results;
pub mod metrics;
pub mod module_laws;
pub mod notices;
pub mod patterns;
pub mod plugin_edges;
pub mod policy;
pub mod policy_laws;
pub mod preparation_laws;
pub mod profile_laws;
pub mod profiles;
pub mod project;
pub mod project_laws;
pub mod repetition;
pub mod requests;
pub mod resolution;
pub mod scan;
pub mod scan_laws;
pub mod symbols;
pub mod targets;
pub mod workspace_laws;
