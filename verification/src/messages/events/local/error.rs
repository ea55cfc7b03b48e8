use vstd::prelude::*;
use vstd::string::StringExecFns;

use crate::error::CordError;
use crate::messages::events::event::{
    broadcast, broadcasts, message_bytes, only_actions_changed, Action, Event, EventContext, OnEvent,
};
use crate::messages::events::local::{LocalEvent, ReconnectEvent};
use crate::messages::events::server::status_update::{Status, StatusUpdateEvent};
use crate::messages::message::Message;
use crate::util::logger::LogLevel;

verus! {

/// What went wrong, as far as the server's reaction depends on it.
#[derive(Debug)]
pub enum EventError {
    /// Discord refused the client id, given here.
    InvalidClientId(String),
    /// Discord closed the connection.
    ConnectionClosed,
    /// Any other error of the Discord connection, with its description.
    Discord(String),
    /// An error from elsewhere, with its description.
    Other(String),
}

/// An error raised while serving.
#[derive(Debug)]
pub struct ErrorEvent {
    pub error: EventError,
}

impl ErrorEvent {
    pub fn new(error: EventError) -> (r: ErrorEvent)
        ensures
            r.error == error,
    {
        ErrorEvent { error }
    }
}

/// An action that logs `message` as an error for `client_id`.
pub open spec fn logs_error(a: Action, client_id: u32, message: Seq<char>) -> bool {
    a matches Action::Log { client_id: c, level, message: m } && c == client_id && level
        == LogLevel::Error && m@ == message
}

impl ErrorEvent {
    /// What reacting to the event does: it reports or retries after an error.
    /// `before` and `after` are the server's state around the reaction, `r` its
    /// outcome.
    pub open spec fn reacts<C>(self, before: EventContext<C>, after: EventContext<C>, r: crate::Result<()>) -> bool {
        &&& (only_actions_changed(before, after))
        &&& (match self.error {
                EventError::InvalidClientId(id) => r matches Err(CordError::Other(m)) && m@ == "'"@
                    + id@ + "' is not a valid client ID"@ && after.actions == before.actions,
                EventError::ConnectionClosed => if before.reconnect.in_progress {
                    r is Ok && after.actions == before.actions
                } else if before.reconnect_interval == 0 {
                    r matches Err(CordError::Other(m)) && m@ == "Discord closed the connection"@
                        && after.actions == before.actions
                } else {
                    &&& r is Ok
                    &&& after.actions@.len() == before.actions@.len() + 1
                    &&& after.actions@.drop_last() == before.actions@
                    &&& after.actions@.last() matches Action::Send(m) && m.client_id == 0 && (
                    m.event matches Event::Local(LocalEvent::Reconnect(e)) && !e.manual)
                },
                EventError::Discord(d) => match message_bytes(
                    StatusUpdateEvent { status: Status::Disconnected },
                ) {
                    Some(b) => r is Ok && after.actions@.len() == before.actions@.len() + 2
                        && after.actions@.subrange(0, before.actions@.len() as int)
                        == before.actions@ && broadcasts(
                        b,
                        after.actions@[before.actions@.len() as int],
                    ) && logs_error(after.actions@.last(), before.client_id, d@),
                    None => r is Err && after.actions == before.actions,
                },
                EventError::Other(d) => r is Ok && after.actions@.len()
                    == before.actions@.len() + 1 && after.actions@.drop_last()
                    == before.actions@ && logs_error(
                    after.actions@.last(),
                    before.client_id,
                    d@,
                ),
            })
    }
}

impl OnEvent for ErrorEvent {
    /// Reacts to an error.
    ///
    /// A refused client id is fatal. A closed connection is ignored during a
    /// reconnect, fatal when no reconnect interval is configured, and
    /// otherwise answered by queuing a reconnect. Another Discord error
    /// tells the editors the server is disconnected, and is logged; any
    /// other error is logged.
    fn on_event<C>(self, ctx: &mut EventContext<C>) -> (r: crate::Result<()>)
        ensures
            self.reacts(*old(ctx), *final(ctx), r),
    {
        let id = ctx.client_id;
        match self.error {
            EventError::InvalidClientId(client) => {
                let mut m = String::from_str("'");
                m.append(client.as_str());
                m.append("' is not a valid client ID");
                Err(CordError::Other(m))
            },
            EventError::ConnectionClosed => {
                if ctx.reconnect.in_progress {
                    return Ok(());
                }
                if ctx.reconnect_interval == 0 {
                    return Err(CordError::Other(String::from_str("Discord closed the connection")));
                }
                ctx.actions.push(
                    Action::Send(
                        Message::new(0, Event::Local(LocalEvent::Reconnect(ReconnectEvent::new(false)))),
                    ),
                );
                assert(ctx.actions@.drop_last() =~= old(ctx).actions@);
                Ok(())
            },
            EventError::Discord(d) => {
                let st = StatusUpdateEvent::disconnected();
                match broadcast(&st, ctx) {
                    Ok(()) => {},
                    Err(e) => return Err(e),
                }
                ctx.actions.push(Action::Log { client_id: id, level: LogLevel::Error, message: d });
                assert(ctx.actions@.subrange(0, old(ctx).actions@.len() as int) =~= old(ctx).actions@);
                Ok(())
            },
            EventError::Other(d) => {
                ctx.actions.push(Action::Log { client_id: id, level: LogLevel::Error, message: d });
                assert(ctx.actions@.drop_last() =~= old(ctx).actions@);
                Ok(())
            },
        }
    }
}

} // verus!
