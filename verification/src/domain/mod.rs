//! What is known of a project.

pub mod evidence;
pub mod facts;
pub mod graph;
pub mod ids;
pub mod report;
pub mod target;
