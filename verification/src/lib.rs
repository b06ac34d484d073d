pub mod bytes;
pub mod digest;
pub mod hextext;
pub mod json;
pub mod laws;
pub mod merkle;
pub mod proxy;
pub mod stratum;
pub mod target;
pub mod text;
pub mod wire;
