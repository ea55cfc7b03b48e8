use vstd::prelude::*;

use crate::messages::events::event::{
    broadcast, broadcasts, message_bytes, Action, EventContext, OnEvent,
};
use crate::messages::events::server::status_update::{Status, StatusUpdateEvent};

verus! {

/// A request to reconnect to Discord; `manual` when a user asked for it.
#[derive(Debug)]
pub struct ReconnectEvent {
    pub manual: bool,
}

impl ReconnectEvent {
    pub fn new(manual: bool) -> (r: ReconnectEvent)
        ensures
            r.manual == manual,
    {
        ReconnectEvent { manual }
    }
}

/// Whether a reconnect worker tries again after a failed attempt: only for
/// a reconnect nobody asked for, and only with an interval to wait.
pub fn retry_after_failure(manual: bool, interval: u64) -> (r: bool)
    ensures
        r == (!manual && interval > 0),
{
    !manual && interval > 0
}

/// The counter value after `n`, wrapping to 0.
pub open spec fn next_after(n: u64) -> u64 {
    if n == u64::MAX {
        0
    } else {
        (n + 1) as u64
    }
}

/// The token a new reconnect worker gets: the counter, or the value after it
/// when the counter is the token of the worker being replaced, so that the
/// two tokens differ.
pub open spec fn fresh_token(next: u64, current: Option<u64>) -> u64 {
    if current == Some(next) {
        next_after(next)
    } else {
        next
    }
}

impl ReconnectEvent {
    /// What reacting to the event does: it starts a reconnect to Discord. `before`
    /// and `after` are the server's state around the reaction, `r` its outcome.
    pub open spec fn reacts<C>(self, before: EventContext<C>, after: EventContext<C>, r: crate::Result<()>) -> bool {
        &&& (after.sessions == before.sessions)
        &&& (after.last_activity == before.last_activity)
        &&& (after.shared_timestamp == before.shared_timestamp)
        &&& (after.client_id == before.client_id)
        &&& (after == (EventContext {
                reconnect: after.reconnect,
                next_token: after.next_token,
                actions: after.actions,
                ..before
            }))
        &&& (before.reconnect.in_progress && !self.manual ==> r is Ok && after == before)
        &&& (!(before.reconnect.in_progress && !self.manual) ==> ({
                let cancelled = if before.reconnect.in_progress {
                    match before.reconnect.cancel {
                        Some(t) => seq![Action::CancelReconnect(t)],
                        None => Seq::empty(),
                    }
                } else {
                    Seq::empty()
                };
                let start = before.actions@ + cancelled;
                let token = fresh_token(before.next_token, before.reconnect.cancel);
                &&& after.reconnect.in_progress
                &&& after.reconnect.cancel == Some(token)
                &&& (before.reconnect.cancel matches Some(t) ==> token != t)
                &&& after.next_token == next_after(token)
                &&& match (
                    message_bytes(StatusUpdateEvent { status: Status::Disconnected }),
                    message_bytes(StatusUpdateEvent { status: Status::Connecting }),
                ) {
                    (Some(b1), Some(b2)) => {
                        &&& r is Ok
                        &&& after.actions@.len() == start.len() + 3
                        &&& after.actions@.subrange(0, start.len() as int) == start
                        &&& broadcasts(b1, after.actions@[start.len() as int])
                        &&& broadcasts(b2, after.actions@[start.len() + 1int])
                        &&& after.actions@.last() == Action::StartReconnect {
                            manual: self.manual,
                            token,
                            interval: before.reconnect_interval,
                        }
                    },
                    _ => r is Err,
                }
            }))
    }
}

impl OnEvent for ReconnectEvent {
    /// Starts a reconnect to Discord.
    ///
    /// While one is under way, a manual request cancels it and starts anew,
    /// and any other request is dropped. Starting, the editors are told that
    /// the server is disconnected, then that it connects, and a reconnect
    /// worker is started with a fresh cancel token.
    fn on_event<C>(self, ctx: &mut EventContext<C>) -> (r: crate::Result<()>)
        ensures
            self.reacts(*old(ctx), *final(ctx), r),
    {
        let previous: Option<u64> = ctx.reconnect.cancel;
        if ctx.reconnect.in_progress {
            if self.manual {
                match ctx.reconnect.cancel() {
                    Some(t) => {
                        ctx.actions.push(Action::CancelReconnect(t));
                    },
                    None => {},
                }
            } else {
                return Ok(());
            }
        }
        let ghost start = ctx.actions@;
        assert(start =~= old(ctx).actions@ + (if old(ctx).reconnect.in_progress {
            match old(ctx).reconnect.cancel {
                Some(t) => seq![Action::CancelReconnect(t)],
                None => Seq::empty(),
            }
        } else {
            Seq::empty()
        }));
        let next = ctx.next_token;
        let token = match previous {
            Some(t) => if t == next {
                next.wrapping_add(1)
            } else {
                next
            },
            None => next,
        };
        ctx.next_token = token.wrapping_add(1);
        ctx.reconnect.in_progress = true;
        ctx.reconnect.cancel = Some(token);
        let d = StatusUpdateEvent::disconnected();
        match broadcast(&d, ctx) {
            Ok(()) => {},
            Err(e) => return Err(e),
        }
        let ghost a1 = ctx.actions@;
        let c = StatusUpdateEvent::connecting();
        match broadcast(&c, ctx) {
            Ok(()) => {},
            Err(e) => return Err(e),
        }
        let ghost a2 = ctx.actions@;
        assert(a2[start.len() as int] == a2.drop_last()[start.len() as int]);
        let interval = ctx.reconnect_interval;
        ctx.actions.push(Action::StartReconnect { manual: self.manual, token, interval });
        assert(ctx.actions@[start.len() as int] == a2[start.len() as int]);
        assert(ctx.actions@[start.len() + 1int] == a2[start.len() + 1int]);
        assert(ctx.actions@.subrange(0, start.len() as int) =~= start);
        Ok(())
    }
}

} // verus!
