use vstd::prelude::*;

verus! {

/// Whether a reconnect to Discord is under way, and the handle that stops
/// it.
#[derive(Debug)]
pub struct ReconnectState<C> {
    pub in_progress: bool,
    /// Signals the reconnect worker to stop when it is raised.
    pub cancel: Option<C>,
}

impl<C> ReconnectState<C> {
    /// No reconnect under way.
    pub fn new() -> (r: ReconnectState<C>)
        ensures
            !r.in_progress,
            r.cancel is None,
    {
        ReconnectState { in_progress: false, cancel: None }
    }

    /// Ends the reconnect under way: hands back its cancel handle, which
    /// the caller raises, and marks no reconnect in progress.
    pub fn cancel(&mut self) -> (r: Option<C>)
        ensures
            r == old(self).cancel,
            final(self).cancel is None,
            !final(self).in_progress,
    {
        self.in_progress = false;
        self.cancel.take()
    }
}

} // verus!
