pub mod events;
pub mod message;
