use vstd::prelude::*;

use crate::error::CordError;
use crate::messages::events::event::{
    opt_activity, same_connection, session_activity, Action, EventContext, OnEvent,
};
use crate::presence::activity::{activity_from, Activity, ActivityTimestamps, ActivityView};
use crate::session::{latest_non_idle, non_idle_candidate, Session};
use crate::protocol::msgpack::fields::{bool_field, bool_under, get_bool};
use crate::protocol::msgpack::value::{dict_get, dict_get_entry, Value, ValueView};

verus! {

/// The editor plugin reports a new activity; `force` sends it to Discord even
/// when nothing changed.
#[derive(Debug)]
pub struct UpdateActivityEvent {
    pub activity: Activity,
    pub force: bool,
}

impl UpdateActivityEvent {
    pub fn new(activity: Activity, force: bool) -> (r: UpdateActivityEvent)
        ensures
            r.activity == activity,
            r.force == force,
    {
        UpdateActivityEvent { activity, force }
    }

    /// Reads the event's data: a map with the activity under `activity`,
    /// required, and the boolean `force`, false when absent.
    pub fn deserialize(input: Value) -> (r: crate::Result<UpdateActivityEvent>)
        ensures
            update_activity_result(input@, r),
    {
        Self::from_value(&input)
    }

    pub(crate) fn from_value(input: &Value) -> (r: crate::Result<UpdateActivityEvent>)
        ensures
            update_activity_result(input@, r),
    {
        let e = match input.as_map() {
            Some(e) => e,
            None => return Err(CordError::Invalid("Invalid update activity event")),
        };
        let activity = match dict_get_entry(e, "activity") {
            Some(v) => match v.as_map() {
                Some(a) => Activity::from_entries(a),
                None => return Err(CordError::Invalid("Invalid activity")),
            },
            None => return Err(CordError::MissingField("activity")),
        };
        let force = match get_bool(e, "force") {
            Some(b) => b,
            None => false,
        };
        Ok(UpdateActivityEvent { activity, force })
    }
}

/// What reading an activity update from a decoded part gives.
pub open spec fn update_activity_result(v: ValueView, r: crate::Result<UpdateActivityEvent>) -> bool {
    match v {
        ValueView::Dict(e) => match dict_get(e, "activity"@) {
            Some(ValueView::Dict(a)) => r matches Ok(ev) && activity_from(a, ev.activity)
                && ev.force == match bool_field(e, "force"@) {
                Some(b) => b,
                None => false,
            },
            Some(_) => r matches Err(CordError::Invalid(m)) && m@ == "Invalid activity"@,
            None => r matches Err(CordError::MissingField(f)) && f@ == "activity"@,
        },
        _ => r matches Err(CordError::Invalid(m)) && m@ == "Invalid update activity event"@,
    }
}

/// A read activity update forces a resend exactly when `force` holds
/// `true`, and carries the activity read from the map under `activity`.
pub proof fn lemma_update_read_by_key(e: Seq<(Seq<char>, ValueView)>, ev: UpdateActivityEvent)
    requires
        update_activity_result(ValueView::Dict(e), Ok(ev)),
    ensures
        ev.force <==> bool_under(e, "force"@, true),
        dict_get(e, "activity"@) matches Some(ValueView::Dict(a)) && activity_from(a, ev.activity),
{
}

/// The activity an update shows, before start times are settled: an idle
/// activity gives way to the non-idle activity of the other editor updated
/// last, if there is one.
pub open spec fn update_base<C>(
    e: Map<u32, Session<C>>,
    me: u32,
    new: ActivityView,
    base: ActivityView,
) -> bool {
    if new.is_idle && exists|i: u32| non_idle_candidate(e, me, i) {
        exists|i: u32| latest_non_idle(e, me, i) && base == e[i].last_activity->0@
    } else {
        base == new
    }
}

/// Settling start times when editors share one: an activity without
/// timestamps starts at the shared time; one with a start sets the shared
/// time; one with timestamps but no start starts at the shared time.
/// Gives the activity and the shared time after.
pub open spec fn share_start(a: ActivityView, shared: u64, on: bool) -> (ActivityView, u64) {
    if !on {
        (a, shared)
    } else {
        match a.timestamps {
            None => (
                ActivityView {
                    timestamps: Some(ActivityTimestamps { start: Some(shared), end: None }),
                    ..a
                },
                shared,
            ),
            Some(ts) => match ts.start {
                Some(s) => (a, s),
                None => (
                    ActivityView {
                        timestamps: Some(ActivityTimestamps { start: Some(shared), ..ts }),
                        ..a
                    },
                    shared,
                ),
            },
        }
    }
}

/// A session whose last activity became `a` at `now`, all else kept.
pub open spec fn session_updated<C>(before: Session<C>, after: Session<C>, a: ActivityView, now: u128) -> bool {
    &&& after.workspace == before.workspace
    &&& after.timestamp == before.timestamp
    &&& after.config == before.config
    &&& after.pipe_client == before.pipe_client
    &&& session_activity(after) == Some(a)
    &&& after.last_updated == now
}

/// The sessions after `me`'s last activity became `a` at `now`, if `me`
/// has a session.
pub open spec fn sessions_after_update<C>(
    before: Map<u32, Session<C>>,
    after: Map<u32, Session<C>>,
    me: u32,
    a: ActivityView,
    now: u128,
) -> bool {
    &&& after.dom() == before.dom()
    &&& forall|id: u32| #[trigger] after.dom().contains(id) && id != me ==> after[id] == before[id]
    &&& before.dom().contains(me) ==> session_updated(before[me], after[me], a, now)
}

/// Sets the start time of an activity as `share_start` says.
fn settle_start(activity: &mut Activity, shared: &mut u64, on: bool)
    ensures
        (final(activity)@, *final(shared)) == share_start(old(activity)@, *old(shared), on),
{
    if on {
        match activity.timestamps {
            None => {
                activity.timestamps = Some(ActivityTimestamps { start: Some(*shared), end: None });
            },
            Some(ts) => match ts.start {
                Some(s) => {
                    *shared = s;
                },
                None => {
                    activity.timestamps = Some(ActivityTimestamps { start: Some(*shared), end: ts.end });
                },
            },
        }
    }
}

/// Records `activity` as the session's last, at `now`.
fn record_session_activity<C>(ctx: &mut EventContext<C>, activity: &Activity)
    ensures
        sessions_after_update(old(ctx).sessions@, final(ctx).sessions@, old(ctx).client_id, activity@, old(ctx).now),
        final(ctx).last_activity == old(ctx).last_activity,
        final(ctx).shared_timestamp == old(ctx).shared_timestamp,
        final(ctx).actions == old(ctx).actions,
        same_connection(*old(ctx), *final(ctx)),
{
    let now = ctx.now;
    let me = ctx.client_id;
    let ghost before = ctx.sessions@;
    match ctx.sessions.get_session_mut(me) {
        Some(s) => {
            s.set_last_activity(activity.duplicate());
            s.last_updated = now;
            assert(session_updated(before[me], *s, activity@, now));
        },
        None => {},
    }
    assert(ctx.sessions@.dom() =~= before.dom());
}

impl UpdateActivityEvent {
    /// What reacting to the event does: it shows the new activity once Discord is
    /// ready. `before` and `after` are the server's state around the reaction, `r`
    /// its outcome.
    pub open spec fn reacts<C>(self, before: EventContext<C>, after: EventContext<C>, r: crate::Result<()>) -> bool {
        &&& (r is Ok)
        &&& (same_connection(before, after))
        &&& (!before.discord_ready ==> {
                &&& after.sessions@ == before.sessions@
                &&& after.last_activity == before.last_activity
                &&& after.shared_timestamp == before.shared_timestamp
                &&& after.actions == before.actions
            })
        &&& (before.discord_ready ==> exists|base: ActivityView|
                #![trigger update_base(before.sessions@, before.client_id, self.activity@, base)]
            {
                let (a, shared) = share_start(base, before.shared_timestamp, before.shared_timestamps);
                let should = match before.last_activity {
                    Some(g) => self.force || g@ != a,
                    None => true,
                };
                &&& update_base(before.sessions@, before.client_id, self.activity@, base)
                &&& after.shared_timestamp == shared
                &&& sessions_after_update(before.sessions@, after.sessions@, before.client_id, a, before.now)
                &&& should ==> {
                    &&& opt_activity(after.last_activity) == Some(a)
                    &&& after.actions@.len() == before.actions@.len() + 1
                    &&& after.actions@.drop_last() == before.actions@
                    &&& after.actions@.last() matches Action::UpdateActivity(x) && x@ == a
                }
                &&& !should ==> {
                    &&& after.last_activity == before.last_activity
                    &&& after.actions == before.actions
                }
            })
    }
}

impl OnEvent for UpdateActivityEvent {
    /// Shows a new activity, once Discord is ready.
    ///
    /// An idle activity gives way to another editor's non-idle one; start
    /// times are settled when editors share one; the activity becomes the
    /// session's last; and it goes to the activity manager unless it is what
    /// Discord shows already and the update is not forced.
    fn on_event<C>(self, ctx: &mut EventContext<C>) -> (r: crate::Result<()>)
        ensures
            self.reacts(*old(ctx), *final(ctx), r),
    {
        if !ctx.discord_ready {
            return Ok(());
        }
        let me = ctx.client_id;
        let mut activity = if self.activity.is_idle {
            match ctx.sessions.latest_non_idle_activity(me) {
                Some(a) => a,
                None => self.activity,
            }
        } else {
            self.activity
        };
        let ghost base = activity@;
        let on = ctx.shared_timestamps;
        settle_start(&mut activity, &mut ctx.shared_timestamp, on);
        let ghost a = activity@;
        assert((a, ctx.shared_timestamp) == share_start(base, old(ctx).shared_timestamp, old(ctx).shared_timestamps));
        record_session_activity(ctx, &activity);
        let should = match &ctx.last_activity {
            Some(g) => self.force || !g.same(&activity),
            None => true,
        };
        assert(should == match old(ctx).last_activity {
            Some(g) => self.force || g@ != a,
            None => true,
        });
        if should {
            ctx.last_activity = Some(activity.duplicate());
            ctx.actions.push(Action::UpdateActivity(activity));
            assert(ctx.actions@.drop_last() == old(ctx).actions@);
        }
        assert(update_base(old(ctx).sessions@, old(ctx).client_id, self.activity@, base));
        assert(sessions_after_update(old(ctx).sessions@, ctx.sessions@, old(ctx).client_id, a, old(ctx).now));
        assert(self.reacts(*old(ctx), *ctx, Ok(())));
        Ok(())
    }
}

} // verus!
