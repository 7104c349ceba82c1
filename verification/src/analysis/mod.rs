//! Rules that draw conclusions from facts.

pub mod dependencies;
pub mod dependency_laws;
pub mod members;
pub mod packages;
