pub mod activity;
pub mod packet;
pub mod frame;
