pub mod batch_log;
pub mod disconnect;
pub mod initialize;
pub mod log;
pub mod ready;
pub mod shutdown;
pub mod status_update;

use vstd::prelude::*;

pub use batch_log::BatchLogEvent;
pub use log::LogEvent;
pub use status_update::StatusUpdateEvent;

use crate::messages::events::event::{EventContext, OnEvent};

verus! {

/// Something the server tells the editor plugins.
#[derive(Debug)]
pub enum ServerEvent {
    Log(LogEvent),
    StatusUpdate(StatusUpdateEvent),
}

impl ServerEvent {
    /// What reacting to the event does: what the event it carries does.
    pub open spec fn reacts<C>(self, before: EventContext<C>, after: EventContext<C>, r: crate::Result<()>) -> bool {
        match self {
            ServerEvent::Log(e) => e.reacts(before, after, r),
            ServerEvent::StatusUpdate(e) => e.reacts(before, after, r),
        }
    }
}

impl OnEvent for ServerEvent {
    fn on_event<C>(self, ctx: &mut EventContext<C>) -> (r: crate::Result<()>)
        ensures
            self.reacts(*old(ctx), *final(ctx), r),
    {
        match self {
            ServerEvent::Log(e) => e.on_event(ctx),
            ServerEvent::StatusUpdate(e) => e.on_event(ctx),
        }
    }
}

} // verus!
