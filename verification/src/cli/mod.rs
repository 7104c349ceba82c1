//! What the command line asks for, and what it is told.

pub mod exit_laws;
pub mod fix_laws;
pub mod fixing;
pub mod options;
pub mod telemetry;
