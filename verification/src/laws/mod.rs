//! What the operations are for: their results told by what goes into them, down to
//! single bytes, characters and fields.

pub mod chain;
pub mod encoding;
pub mod messages;
pub mod proxy;
pub mod server;
