//! The proxy between mining hardware and an upstream node.

pub mod asic;
pub mod book;
pub mod job;
pub mod upstream;
