use vstd::prelude::*;

use crate::messages::events::event::{wrote_out, writes_to, EventContext, OnEvent};
use crate::messages::events::server::BatchLogEvent;

verus! {

/// The editor plugin has connected.
#[derive(Debug, Default)]
pub struct ConnectEvent;

impl ConnectEvent {
    /// What reacting to the event does: it sends the kept log lines to the editor
    /// and forgets them. `before` and `after` are the server's state around the
    /// reaction, `r` its outcome.
    pub open spec fn reacts<C>(self, before: EventContext<C>, after: EventContext<C>, r: crate::Result<()>) -> bool {
        &&& (after.log_buffer@.len() == 0)
        &&& (after.sessions == before.sessions)
        &&& (after.last_activity == before.last_activity)
        &&& (after.shared_timestamp == before.shared_timestamp)
        &&& (after.client_id == before.client_id)
        &&& (after.discord_ready == before.discord_ready)
        &&& (after.status == before.status)
        &&& (after.reconnect == before.reconnect)
        &&& (after.shared_timestamps == before.shared_timestamps)
        &&& (after.connection_running == before.connection_running)
        &&& (after.pipe_paths == before.pipe_paths)
        &&& (after.reconnect_interval == before.reconnect_interval)
        &&& (after.initial_reconnect == before.initial_reconnect)
        &&& (after.next_token == before.next_token)
        &&& (after.now == before.now)
        &&& (before.log_buffer@.len() == 0 ==> r is Ok && after.actions == before.actions)
        &&& (before.log_buffer@.len() > 0 ==> wrote_out(
                BatchLogEvent { logs: before.log_buffer },
                before,
                after,
                r,
                |b: Seq<u8>, a| writes_to(before.client_id, b, a),
            ))
    }
}

impl OnEvent for ConnectEvent {
    /// Sends the log lines kept so far to the editor, and forgets them.
    fn on_event<C>(self, ctx: &mut EventContext<C>) -> (r: crate::Result<()>)
        ensures
            self.reacts(*old(ctx), *final(ctx), r),
    {
        let mut logs = Vec::new();
        std::mem::swap(&mut logs, &mut ctx.log_buffer);
        if logs.len() > 0 {
            let id = ctx.client_id;
            let batch = BatchLogEvent { logs };
            crate::messages::events::event::write_to(id, &batch, ctx)
        } else {
            Ok(())
        }
    }
}

} // verus!
