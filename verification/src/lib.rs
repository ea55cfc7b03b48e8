pub mod error;
pub mod messages;
pub mod presence;
pub mod session;
pub mod protocol;
pub mod rpc;
pub mod types;
pub mod util;
pub mod utils;

pub use error::{CordError, Result};
