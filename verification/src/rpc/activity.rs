use vstd::prelude::*;

verus! {

/// The images of an activity and their tooltips.
#[derive(Debug, Clone)]
pub struct ActivityAssets {
    pub large_image: Option<String>,
    pub large_text: Option<String>,
    pub small_image: Option<String>,
    pub small_text: Option<String>,
}

/// A button with a label and the link it opens.
#[derive(Debug, Clone)]
pub struct ActivityButton {
    pub label: String,
    pub url: String,
}

/// An activity as Discord's RPC takes it.
#[derive(Debug, Clone)]
pub struct Activity {
    pub details: Option<String>,
    pub state: Option<String>,
    pub assets: Option<ActivityAssets>,
    pub buttons: Option<Vec<ActivityButton>>,
    pub timestamp: Option<u128>,
}

impl Default for Activity {
    /// An activity with nothing set.
    fn default() -> (r: Activity)
        ensures
            r.details is None,
            r.state is None,
            r.assets is None,
            r.buttons is None,
            r.timestamp is None,
    {
        Activity { details: None, state: None, assets: None, buttons: None, timestamp: None }
    }
}

} // verus!
