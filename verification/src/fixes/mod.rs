//! Conservative, preview-first source and dependency fixes.

pub mod apply;
pub mod eligibility;
pub mod engine;
pub mod package_manager;
pub mod plan;
