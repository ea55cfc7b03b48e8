use vstd::prelude::*;

use crate::messages::events::event::{same_connection, EventContext, OnEvent};
use super::set_timestamp::{sessions_after_timestamp, set_session_timestamp};

verus! {

/// The editor plugin drops its session's start time.
#[derive(Debug, Default)]
pub struct ResetTimestampEvent;

impl OnEvent for ResetTimestampEvent {
    /// Drops the session's start time.
    fn on_event<C>(self, ctx: &mut EventContext<C>) -> (r: crate::Result<()>)
        ensures
            r is Ok,
            sessions_after_timestamp(old(ctx).sessions@, final(ctx).sessions@, old(ctx).client_id, None),
            final(ctx).last_activity == old(ctx).last_activity,
            final(ctx).shared_timestamp == old(ctx).shared_timestamp,
            final(ctx).actions == old(ctx).actions,
            same_connection(*old(ctx), *final(ctx)),
    {
        set_session_timestamp(ctx, None);
        Ok(())
    }
}

} // verus!
