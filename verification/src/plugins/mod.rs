//! Plugins: what they contribute, and how their hosts are spoken to.

pub mod contract;
pub mod executable;
pub mod facts;
pub mod hosting;
