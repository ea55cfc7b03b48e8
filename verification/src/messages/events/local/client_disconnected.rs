use vstd::prelude::*;

use crate::messages::events::event::{only_actions_changed, Action, EventContext, OnEvent};

verus! {

/// An editor's pipe was closed.
#[derive(Debug, Default)]
pub struct ClientDisconnectedEvent;

impl OnEvent for ClientDisconnectedEvent {
    /// Closes the editor's pipe on the server's side.
    fn on_event<C>(self, ctx: &mut EventContext<C>) -> (r: crate::Result<()>)
        ensures
            r is Ok,
            only_actions_changed(*old(ctx), *final(ctx)),
            final(ctx).actions@ == old(ctx).actions@.push(Action::DisconnectPipe(old(ctx).client_id)),
    {
        let id = ctx.client_id;
        ctx.actions.push(Action::DisconnectPipe(id));
        Ok(())
    }
}

} // verus!
