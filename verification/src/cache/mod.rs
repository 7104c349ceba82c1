//! Versioned, corruption-tolerant storage for compact analysis facts.

pub mod digest;
pub mod key;
pub mod persistent;
pub mod schema;
pub mod store;
