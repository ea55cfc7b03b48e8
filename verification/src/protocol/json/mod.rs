pub mod deserialize;
pub mod number;
pub mod serialize;
pub mod value;

use vstd::prelude::*;

verus! {

/// The JSON wire format, as spoken with Discord.
#[derive(Debug)]
pub struct Json;

} // verus!
