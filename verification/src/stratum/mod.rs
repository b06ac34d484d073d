//! The mining server of a node.

pub mod flow;
pub mod job;
pub mod share;
pub mod state;
pub mod template;
pub mod vardiff;
pub mod worker;
