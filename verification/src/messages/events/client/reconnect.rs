use vstd::prelude::*;

use crate::messages::events::event::{only_actions_changed, Action, Event, EventContext, OnEvent};
use crate::messages::events::local::{LocalEvent, ReconnectEvent};
use crate::messages::message::Message;

verus! {

/// The editor plugin asks for a reconnect to Discord.
#[derive(Debug, Default)]
pub struct ReconnectClientEvent;

impl OnEvent for ReconnectClientEvent {
    /// Queues a manual reconnect request for the server.
    fn on_event<C>(self, ctx: &mut EventContext<C>) -> (r: crate::Result<()>)
        ensures
            r is Ok,
            only_actions_changed(*old(ctx), *final(ctx)),
            final(ctx).actions@.len() == old(ctx).actions@.len() + 1,
            final(ctx).actions@.drop_last() == old(ctx).actions@,
            final(ctx).actions@.last() matches Action::Send(m) && m.client_id == old(ctx).client_id
                && (m.event matches Event::Local(LocalEvent::Reconnect(e)) && e.manual),
    {
        let id = ctx.client_id;
        ctx.actions.push(
            Action::Send(Message::new(id, Event::Local(LocalEvent::Reconnect(ReconnectEvent::new(true))))),
        );
        assert(ctx.actions@.drop_last() =~= old(ctx).actions@);
        Ok(())
    }
}

} // verus!
