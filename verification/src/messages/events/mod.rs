pub mod client;
pub mod event;
pub mod local;
pub mod server;
