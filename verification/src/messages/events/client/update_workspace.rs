use vstd::prelude::*;

verus! {

/// The editor plugin reports the directory it works in.
#[derive(Debug)]
pub struct UpdateWorkspaceEvent {
    pub workspace: String,
}

impl UpdateWorkspaceEvent {
    pub fn new(workspace: String) -> (r: UpdateWorkspaceEvent)
        ensures
            r.workspace@ == workspace@,
    {
        UpdateWorkspaceEvent { workspace }
    }
}

} // verus!
