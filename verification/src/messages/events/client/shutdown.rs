use vstd::prelude::*;

use crate::messages::events::event::{only_actions_changed, Action, EventContext, OnEvent};

verus! {

/// The editor plugin asks the server to shut down.
#[derive(Debug, Default)]
pub struct ShutdownEvent;

impl ShutdownEvent {
    /// What reacting to the event does: it stops the server. `before` and `after`
    /// are the server's state around the reaction, `r` its outcome.
    pub open spec fn reacts<C>(self, before: EventContext<C>, after: EventContext<C>, r: crate::Result<()>) -> bool {
        &&& (r is Ok)
        &&& (only_actions_changed(before, after))
        &&& (after.actions@ == before.actions@.push(Action::Shutdown))
    }
}

impl OnEvent for ShutdownEvent {
    /// Stops the server.
    fn on_event<C>(self, ctx: &mut EventContext<C>) -> (r: crate::Result<()>)
        ensures
            self.reacts(*old(ctx), *final(ctx), r),
    {
        ctx.actions.push(Action::Shutdown);
        Ok(())
    }
}

} // verus!
