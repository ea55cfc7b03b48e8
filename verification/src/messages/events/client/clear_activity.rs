use vstd::prelude::*;

use crate::messages::events::event::{
    opt_activity, same_connection, session_activity, Action, EventContext, OnEvent,
};
use crate::presence::activity::{Activity, ActivityTimestamps, ActivityView};
use crate::protocol::msgpack::value::{Value, ValueView};
use crate::session::{active_candidate, latest_active, Session};

verus! {

/// The editor plugin clears its activity; `force` clears what Discord shows
/// too, else another editor's activity may take its place.
#[derive(Debug, Default)]
pub struct ClearActivityEvent {
    pub force: bool,
}

impl ClearActivityEvent {
    /// Reads the event's data: a boolean `force`, false when it is anything
    /// else.
    pub fn deserialize(input: Value) -> (r: crate::Result<ClearActivityEvent>)
        ensures
            r matches Ok(e) && e.force == match input@ {
                ValueView::Boolean(b) => b,
                _ => false,
            },
    {
        Self::from_value(&input)
    }

    pub(crate) fn from_value(input: &Value) -> (r: crate::Result<ClearActivityEvent>)
        ensures
            r matches Ok(e) && e.force == match input@ {
                ValueView::Boolean(b) => b,
                _ => false,
            },
    {
        let force = match input.as_bool() {
            Some(b) => b,
            None => false,
        };
        Ok(ClearActivityEvent { force })
    }
}

/// A session whose last activity was dropped, all else kept.
pub open spec fn session_cleared<C>(before: Session<C>, after: Session<C>) -> bool {
    &&& after.workspace == before.workspace
    &&& after.timestamp == before.timestamp
    &&& after.config == before.config
    &&& after.pipe_client == before.pipe_client
    &&& after.last_activity is None
    &&& after.last_updated == before.last_updated
}

/// The sessions after `me`'s last activity was dropped, if `me` has a
/// session.
pub open spec fn sessions_after_clear<C>(
    before: Map<u32, Session<C>>,
    after: Map<u32, Session<C>>,
    me: u32,
) -> bool {
    &&& after.dom() == before.dom()
    &&& forall|id: u32| #[trigger] after.dom().contains(id) && id != me ==> after[id] == before[id]
    &&& before.dom().contains(me) ==> session_cleared(before[me], after[me])
}

/// Giving an activity the shared start time when it has none, if editors
/// share one.
pub open spec fn fill_start(a: ActivityView, shared: u64, on: bool) -> ActivityView {
    if !on {
        a
    } else {
        match a.timestamps {
            None => ActivityView {
                timestamps: Some(ActivityTimestamps { start: Some(shared), end: None }),
                ..a
            },
            Some(ts) => if ts.start is None {
                ActivityView { timestamps: Some(ActivityTimestamps { start: Some(shared), ..ts }), ..a }
            } else {
                a
            },
        }
    }
}

/// Drops the session's last activity.
pub(crate) fn clear_session_activity<C>(ctx: &mut EventContext<C>)
    ensures
        sessions_after_clear(old(ctx).sessions@, final(ctx).sessions@, old(ctx).client_id),
        final(ctx).last_activity == old(ctx).last_activity,
        final(ctx).shared_timestamp == old(ctx).shared_timestamp,
        final(ctx).actions == old(ctx).actions,
        same_connection(*old(ctx), *final(ctx)),
{
    let me = ctx.client_id;
    let ghost before = ctx.sessions@;
    match ctx.sessions.get_session_mut(me) {
        Some(s) => {
            s.last_activity = None;
            assert(session_cleared(before[me], *s));
        },
        None => {},
    }
    assert(ctx.sessions@.dom() =~= before.dom());
}

fn fill_start_exec(activity: &mut Activity, shared: u64, on: bool)
    ensures
        final(activity)@ == fill_start(old(activity)@, shared, on),
{
    if on {
        match activity.timestamps {
            None => {
                activity.timestamps = Some(ActivityTimestamps { start: Some(shared), end: None });
            },
            Some(ts) => if ts.start.is_none() {
                activity.timestamps = Some(ActivityTimestamps { start: Some(shared), end: ts.end });
            },
        }
    }
}

impl ClearActivityEvent {
    /// What reacting to the event does: it clears the editor's activity and hands
    /// over to the best other one. `before` and `after` are the server's state
    /// around the reaction, `r` its outcome.
    pub open spec fn reacts<C>(self, before: EventContext<C>, after: EventContext<C>, r: crate::Result<()>) -> bool {
        &&& (r is Ok)
        &&& (same_connection(before, after))
        &&& (after.shared_timestamp == before.shared_timestamp)
        &&& (sessions_after_clear(before.sessions@, after.sessions@, before.client_id))
        &&& (({
                let me = before.client_id;
                let e = before.sessions@;
                let clears = before.last_activity is Some;
                if self.force || !exists|i: u32| active_candidate(e, Some(me), i) {
                    &&& clears ==> after.last_activity is None && after.actions@
                        == before.actions@.push(Action::ClearDiscord)
                    &&& !clears ==> after.last_activity is None && after.actions
                        == before.actions
                } else {
                    exists|i: u32|
                        #![trigger latest_active(e, Some(me), i)]
                        latest_active(e, Some(me), i) && {
                            let picked = e[i].last_activity->0@;
                            if opt_activity(before.last_activity) == Some(picked) {
                                &&& after.last_activity == before.last_activity
                                &&& after.actions == before.actions
                            } else {
                                let a = fill_start(picked, before.shared_timestamp, before.shared_timestamps);
                                &&& opt_activity(after.last_activity) == Some(a)
                                &&& after.actions@.len() == before.actions@.len() + 1
                                &&& after.actions@.drop_last() == before.actions@
                                &&& after.actions@.last() matches Action::SendActivity(x) && x@ == a
                            }
                        }
                }
            }))
    }
}

impl OnEvent for ClearActivityEvent {
    /// Clears the editor's activity.
    ///
    /// Forced, Discord's activity is cleared too if one is shown. Otherwise
    /// the activity of the other session that ranks highest (busy before
    /// idle, then updated last) is sent to Discord, given the shared start
    /// time where it has none, unless Discord shows it already; with no such
    /// session, Discord's activity is cleared if one is shown.
    fn on_event<C>(self, ctx: &mut EventContext<C>) -> (r: crate::Result<()>)
        ensures
            self.reacts(*old(ctx), *final(ctx), r),
    {
        let me = ctx.client_id;
        let ghost e0 = ctx.sessions@;
        let latest = if self.force {
            None
        } else {
            ctx.sessions.latest_activity(Some(me))
        };
        clear_session_activity(ctx);
        match latest {
            Some(mut activity) => {
                let ghost i = choose|i: u32|
                    latest_active(e0, Some(me), i) && activity@ == e0[i].last_activity->0@;
                assert(latest_active(e0, Some(me), i));
                let ghost picked = activity@;
                let unchanged = match &ctx.last_activity {
                    Some(g) => g.same(&activity),
                    None => false,
                };
                if unchanged {
                    return Ok(());
                }
                fill_start_exec(&mut activity, ctx.shared_timestamp, ctx.shared_timestamps);
                ctx.last_activity = Some(activity.duplicate());
                ctx.actions.push(Action::SendActivity(activity));
                assert(opt_activity(ctx.last_activity) == Some(
                    fill_start(picked, old(ctx).shared_timestamp, old(ctx).shared_timestamps),
                ));
                assert(opt_activity(old(ctx).last_activity) != Some(picked));
                assert(ctx.actions@.drop_last() == old(ctx).actions@);
                assert(self.reacts(*old(ctx), *ctx, Ok(())));
                return Ok(());
            },
            None => {
                if ctx.last_activity.is_some() {
                    ctx.last_activity = None;
                    ctx.actions.push(Action::ClearDiscord);
                }
            },
        }
        Ok(())
    }
}

} // verus!
