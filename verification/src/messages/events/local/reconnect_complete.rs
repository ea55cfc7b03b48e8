use vstd::prelude::*;
use vstd::string::StringExecFns;

use crate::error::CordError;
use crate::messages::events::event::{
    broadcast, broadcasts, message_bytes, Action, EventContext, OnEvent,
};
use crate::messages::events::server::status_update::{Status, StatusUpdateEvent};
use crate::util::logger::LogLevel;

verus! {

/// How a reconnect ended.
#[derive(Debug)]
pub enum ReconnectStatus {
    /// The connection is back.
    Succeeded,
    /// It failed, with the reason.
    Failed(String),
}

impl ReconnectStatus {
    /// The status a reconnect's result stands for: the error's description
    /// when it failed.
    pub fn from_result(result: crate::Result<()>) -> (r: ReconnectStatus)
        ensures
            match result {
                Ok(()) => r is Succeeded,
                Err(e) => r matches ReconnectStatus::Failed(m) && m@ == e.spec_message(),
            },
    {
        match result {
            Ok(()) => ReconnectStatus::Succeeded,
            Err(e) => ReconnectStatus::Failed(e.message()),
        }
    }
}

/// A reconnect ended; `manual` when a user had asked for it.
#[derive(Debug)]
pub struct ReconnectCompleteEvent {
    pub manual: bool,
    pub status: ReconnectStatus,
}

impl ReconnectCompleteEvent {
    pub fn new(manual: bool, status: ReconnectStatus) -> (r: ReconnectCompleteEvent)
        ensures
            r.manual == manual,
            r.status == status,
    {
        ReconnectCompleteEvent { manual, status }
    }
}

impl ReconnectCompleteEvent {
    /// What reacting to the event does: it ends the reconnect. `before` and `after`
    /// are the server's state around the reaction, `r` its outcome.
    pub open spec fn reacts<C>(self, before: EventContext<C>, after: EventContext<C>, r: crate::Result<()>) -> bool {
        &&& (!after.reconnect.in_progress)
        &&& (after.reconnect.cancel is None)
        &&& (after.sessions == before.sessions)
        &&& (after.shared_timestamp == before.shared_timestamp)
        &&& (after.client_id == before.client_id)
        &&& (after == (EventContext {
                reconnect: after.reconnect,
                last_activity: after.last_activity,
                actions: after.actions,
                ..before
            }))
        &&& (match self.status {
                ReconnectStatus::Succeeded => r is Ok && after.last_activity is None
                    && after.actions == before.actions,
                ReconnectStatus::Failed(err) => after.last_activity == before.last_activity
                    && match message_bytes(StatusUpdateEvent { status: Status::Disconnected }) {
                    Some(b) => {
                        &&& r is Ok
                        &&& after.actions@.len() == before.actions@.len() + (if self.manual { 2int } else { 1int })
                        &&& after.actions@.subrange(0, before.actions@.len() as int) == before.actions@
                        &&& broadcasts(b, after.actions@[before.actions@.len() as int])
                        &&& self.manual ==> (after.actions@.last() matches Action::Log { client_id: c, level, message: m }
                            && c == before.client_id && level == LogLevel::Error
                            && m@ == "Failed to reconnect to Discord: "@ + err@)
                    },
                    None => r is Err,
                },
            })
    }
}

impl OnEvent for ReconnectCompleteEvent {
    /// Ends the reconnect. Back online, Discord is taken to show nothing;
    /// after a failure the editors are told the server is disconnected, and
    /// a failed manual reconnect is logged as an error.
    fn on_event<C>(self, ctx: &mut EventContext<C>) -> (r: crate::Result<()>)
        ensures
            self.reacts(*old(ctx), *final(ctx), r),
    {
        ctx.reconnect.in_progress = false;
        ctx.reconnect.cancel = None;
        match self.status {
            ReconnectStatus::Succeeded => {
                ctx.last_activity = None;
                Ok(())
            },
            ReconnectStatus::Failed(err) => {
                let d = StatusUpdateEvent::disconnected();
                match broadcast(&d, ctx) {
                    Ok(()) => {},
                    Err(e) => return Err(e),
                }
                let ghost a1 = ctx.actions@;
                assert(a1.subrange(0, old(ctx).actions@.len() as int) =~= old(ctx).actions@);
                if self.manual {
                    let mut m = String::from_str("Failed to reconnect to Discord: ");
                    m.append(err.as_str());
                    let id = ctx.client_id;
                    ctx.actions.push(Action::Log { client_id: id, level: LogLevel::Error, message: m });
                    assert(ctx.actions@[old(ctx).actions@.len() as int] == a1[old(ctx).actions@.len() as int]);
                    assert(ctx.actions@.subrange(0, old(ctx).actions@.len() as int) =~= old(ctx).actions@);
                }
                Ok(())
            },
        }
    }
}

} // verus!
