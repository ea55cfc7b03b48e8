use vstd::prelude::*;

use crate::messages::events::event::{opt_activity, same_connection, Action, EventContext, OnEvent};
use crate::session::{active_candidate, latest_active};

verus! {

/// The editor plugin is disconnecting.
#[derive(Debug, Default)]
pub struct DisconnectEvent;

impl DisconnectEvent {
    /// What reacting to the event does: it forgets the editor and hands over to the
    /// best remaining activity. `before` and `after` are the server's state around
    /// the reaction, `r` its outcome.
    pub open spec fn reacts<C>(self, before: EventContext<C>, after: EventContext<C>, r: crate::Result<()>) -> bool {
        &&& (r is Ok)
        &&& (same_connection(before, after))
        &&& (after.sessions@ == before.sessions@.remove(before.client_id))
        &&& (after.shared_timestamp == before.shared_timestamp)
        &&& (after.sessions@.dom().len() == 0 ==> {
                &&& after.last_activity == before.last_activity
                &&& after.actions@ == before.actions@.push(Action::ClearForLastEditor)
            })
        &&& (after.sessions@.dom().len() > 0 ==> ({
                let e = after.sessions@;
                if !exists|i: u32| active_candidate(e, None, i) {
                    &&& before.last_activity is Some ==> after.last_activity is None
                        && after.actions@ == before.actions@.push(Action::ClearActivity)
                    &&& before.last_activity is None ==> after.last_activity is None
                        && after.actions == before.actions
                } else {
                    exists|i: u32|
                        #![trigger latest_active(e, None, i)]
                        latest_active(e, None, i) && {
                            let picked = e[i].last_activity->0@;
                            if opt_activity(before.last_activity) == Some(picked) {
                                &&& after.last_activity == before.last_activity
                                &&& after.actions == before.actions
                            } else {
                                &&& opt_activity(after.last_activity) == Some(picked)
                                &&& after.actions@.len() == before.actions@.len() + 1
                                &&& after.actions@.drop_last() == before.actions@
                                &&& after.actions@.last() matches Action::UpdateActivity(x)
                                    && x@ == picked
                            }
                        }
                }
            }))
    }
}

impl OnEvent for DisconnectEvent {
    /// Closes the editor's session.
    ///
    /// With no session left, the activity manager is asked to clear the
    /// activity; once that went through, `forget_shown_activity` records
    /// that nothing is shown and resets the shared start time. Otherwise the
    /// activity of the session that ranks highest (busy before idle, then
    /// updated last) goes to the activity manager, unless Discord shows it
    /// already; with no session showing anything, a shown activity is
    /// cleared.
    fn on_event<C>(self, ctx: &mut EventContext<C>) -> (r: crate::Result<()>)
        ensures
            self.reacts(*old(ctx), *final(ctx), r),
    {
        let me = ctx.client_id;
        ctx.sessions.remove_session(me);
        if ctx.sessions.len() == 0 {
            ctx.actions.push(Action::ClearForLastEditor);
            return Ok(());
        }
        let ghost e = ctx.sessions@;
        match ctx.sessions.latest_activity(None) {
            Some(activity) => {
                let ghost i = choose|i: u32|
                    latest_active(e, None, i) && activity@ == e[i].last_activity->0@;
                assert(latest_active(e, None, i));
                let unchanged = match &ctx.last_activity {
                    Some(g) => g.same(&activity),
                    None => false,
                };
                if unchanged {
                    assert(self.reacts(*old(ctx), *ctx, Ok(())));
                    return Ok(());
                }
                ctx.last_activity = Some(activity.duplicate());
                ctx.actions.push(Action::UpdateActivity(activity));
                assert(ctx.sessions@ == e);
                assert(latest_active(ctx.sessions@, None, i));
                assert(opt_activity(ctx.last_activity) == Some(e[i].last_activity->0@));
                assert(opt_activity(old(ctx).last_activity) != Some(e[i].last_activity->0@));
                assert(ctx.actions@.drop_last() == old(ctx).actions@);
                assert(self.reacts(*old(ctx), *ctx, Ok(())));
                return Ok(());
            },
            None => {
                if ctx.last_activity.is_some() {
                    ctx.last_activity = None;
                    ctx.actions.push(Action::ClearActivity);
                }
            },
        }
        Ok(())
    }
}

/// Records that the activity was cleared after the last editor left:
/// nothing is shown, and no start time is shared any more.
pub fn forget_shown_activity<C>(ctx: &mut EventContext<C>)
    ensures
        *final(ctx) == (EventContext { last_activity: None, shared_timestamp: 0, ..*old(ctx) }),
{
    ctx.last_activity = None;
    ctx.shared_timestamp = 0;
}

} // verus!
