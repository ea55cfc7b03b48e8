use vstd::prelude::*;

pub use super::activity::Activity;

verus! {

/// A process and the activity to show for it.
#[derive(Debug)]
pub struct Packet {
    pub pid: u32,
    pub activity: Option<Activity>,
}

} // verus!
