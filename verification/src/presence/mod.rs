pub mod activity;
pub mod context;
pub mod manager;
pub mod packet;
pub mod types;
