use vstd::prelude::*;

use crate::messages::events::event::{same_connection, EventContext, OnEvent};
use crate::session::Session;

verus! {

/// The editor plugin sets its session's start time.
#[derive(Debug, Default)]
pub struct SetTimestampEvent {
    pub timestamp: Option<u64>,
}

impl SetTimestampEvent {
    pub fn new(timestamp: Option<u64>) -> (r: SetTimestampEvent)
        ensures
            r.timestamp == timestamp,
    {
        SetTimestampEvent { timestamp }
    }
}


/// The sessions after `me`'s start time became `ts`, if `me` has a session.
pub open spec fn sessions_after_timestamp<C>(
    before: Map<u32, Session<C>>,
    after: Map<u32, Session<C>>,
    me: u32,
    ts: Option<u64>,
) -> bool {
    &&& after.dom() == before.dom()
    &&& forall|id: u32| #[trigger] after.dom().contains(id) && id != me ==> after[id] == before[id]
    &&& before.dom().contains(me) ==> after[me] == Session { timestamp: ts, ..before[me] }
}

/// Sets the session's start time.
pub(crate) fn set_session_timestamp<C>(ctx: &mut EventContext<C>, ts: Option<u64>)
    ensures
        sessions_after_timestamp(old(ctx).sessions@, final(ctx).sessions@, old(ctx).client_id, ts),
        final(ctx).last_activity == old(ctx).last_activity,
        final(ctx).shared_timestamp == old(ctx).shared_timestamp,
        final(ctx).actions == old(ctx).actions,
        same_connection(*old(ctx), *final(ctx)),
{
    let me = ctx.client_id;
    let ghost before = ctx.sessions@;
    match ctx.sessions.get_session_mut(me) {
        Some(s) => {
            s.timestamp = ts;
            assert(*s == Session { timestamp: ts, ..before[me] });
        },
        None => {},
    }
    assert(ctx.sessions@.dom() =~= before.dom());
}

impl OnEvent for SetTimestampEvent {
    /// Sets the session's start time.
    fn on_event<C>(self, ctx: &mut EventContext<C>) -> (r: crate::Result<()>)
        ensures
            r is Ok,
            sessions_after_timestamp(old(ctx).sessions@, final(ctx).sessions@, old(ctx).client_id, self.timestamp),
            final(ctx).last_activity == old(ctx).last_activity,
            final(ctx).shared_timestamp == old(ctx).shared_timestamp,
            final(ctx).actions == old(ctx).actions,
            same_connection(*old(ctx), *final(ctx)),
    {
        set_session_timestamp(ctx, self.timestamp);
        Ok(())
    }
}

} // verus!
