pub mod error;
pub mod msgpack;
pub mod json;
