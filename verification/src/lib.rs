//! Reachability rules for JavaScript and TypeScript projects.

pub mod analysis;
pub mod application;
pub mod cache;
pub mod cli;
pub mod collections;
pub mod discovery;
pub mod domain;
pub mod fixes;
pub mod paths;
pub mod plugins;
pub mod render;
pub mod render_laws;
pub mod text;
pub mod values;
