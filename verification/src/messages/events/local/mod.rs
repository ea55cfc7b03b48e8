pub mod client_disconnected;
pub mod error;
pub mod reconnect;
pub mod reconnect_complete;

use vstd::prelude::*;

pub use error::ErrorEvent;
pub use reconnect::ReconnectEvent;
pub use reconnect_complete::ReconnectCompleteEvent;

use super::event::{EventContext, OnEvent};

verus! {

/// Something that happened inside the server.
#[derive(Debug)]
pub enum LocalEvent {
    Error(ErrorEvent),
    Reconnect(ReconnectEvent),
    ReconnectComplete(ReconnectCompleteEvent),
}

impl LocalEvent {
    /// What reacting to the event does: what the event it carries does.
    pub open spec fn reacts<C>(self, before: EventContext<C>, after: EventContext<C>, r: crate::Result<()>) -> bool {
        match self {
            LocalEvent::Error(e) => e.reacts(before, after, r),
            LocalEvent::Reconnect(e) => e.reacts(before, after, r),
            LocalEvent::ReconnectComplete(e) => e.reacts(before, after, r),
        }
    }
}

impl OnEvent for LocalEvent {
    fn on_event<C>(self, ctx: &mut EventContext<C>) -> (r: crate::Result<()>)
        ensures
            self.reacts(*old(ctx), *final(ctx), r),
    {
        match self {
            LocalEvent::Error(e) => e.on_event(ctx),
            LocalEvent::Reconnect(e) => e.on_event(ctx),
            LocalEvent::ReconnectComplete(e) => e.on_event(ctx),
        }
    }
}

} // verus!
