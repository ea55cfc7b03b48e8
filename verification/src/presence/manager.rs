use vstd::prelude::*;

use super::activity::{Activity, ActivityView};
use crate::messages::events::event::opt_activity;
use crate::types::config::{default_sync, SyncConfig, SyncMode};
use crate::util::{pad_activity_field, padded};

verus! {

/// Work held back in defer mode until the interval has passed.
#[derive(Debug)]
pub enum PendingOp {
    Update(Activity),
    Clear,
}

/// What the activity manager asks the one who talks to Discord to do.
#[derive(Debug)]
pub enum SyncAction {
    /// Send this activity.
    Send(Activity),
    /// Clear the activity.
    Clear,
    /// Nothing for now.
    Nothing,
}

/// Keeps Discord's activity in sync with the editors' without flooding it.
///
/// Times are instants of a monotonic clock, in nanoseconds.
#[derive(Debug)]
pub struct ActivityManager {
    /// The activity that should be shown, as far as it was sent or held.
    pub last_activity: Option<Activity>,
    /// When an update or clear last reached Discord.
    pub last_update: u128,
    /// When the last periodic resend happened.
    pub last_periodic_sync: u128,
    pub config: SyncConfig,
    pub pending_op: Option<PendingOp>,
    /// Whether nothing has been sent in defer mode yet.
    pub first_update: bool,
}

/// Whether at least `interval` milliseconds passed from `since` to `now`;
/// no time passed when `since` is later.
pub open spec fn interval_passed(now: u128, since: u128, interval: u64) -> bool {
    (if now >= since { now - since } else { 0 }) >= interval as int * 1_000_000
}

/// What padding may make of an activity: with padding on, its details and
/// state are padded as `padded` says and all else is kept; with it off, it
/// is kept whole.
pub open spec fn padded_activity(before: ActivityView, after: ActivityView, pad: bool) -> bool {
    if !pad {
        after == before
    } else {
        &&& after == ActivityView { details: after.details, state: after.state, ..before }
        &&& padded_opt(before.details, after.details)
        &&& padded_opt(before.state, after.state)
    }
}

/// Padding an optional field.
pub open spec fn padded_opt(before: Option<Seq<char>>, after: Option<Seq<char>>) -> bool {
    match before {
        None => after is None,
        Some(b) => after matches Some(a) && padded(b, a),
    }
}

/// A copy of an activity, padded when `pad` is set.
fn padded_copy(activity: &Activity, pad: bool) -> (r: Activity)
    ensures
        padded_activity(activity@, r@, pad),
{
    let mut a = activity.duplicate();
    if pad {
        pad_activity_field(&mut a.details);
        pad_activity_field(&mut a.state);
    }
    a
}

/// Whether at least `interval` milliseconds passed.
fn passed(now: u128, since: u128, interval: u64) -> (r: bool)
    ensures
        r == interval_passed(now, since, interval),
{
    let elapsed: u128 = if now >= since { now - since } else { 0 };
    elapsed >= interval as u128 * 1_000_000
}

impl ActivityManager {
    /// A manager with the default sync settings, which has sent nothing yet.
    pub fn new(now: u128) -> (r: ActivityManager)
        ensures
            r.last_activity is None,
            r.last_update == now,
            r.last_periodic_sync == now,
            r.config == default_sync(),
            r.pending_op is None,
            r.first_update,
    {
        ActivityManager {
            last_activity: None,
            last_update: now,
            last_periodic_sync: now,
            config: SyncConfig::default(),
            pending_op: None,
            first_update: true,
        }
    }

    /// Takes new sync settings.
    pub fn set_config(&mut self, new_config: SyncConfig)
        ensures
            *final(self) == (ActivityManager { config: new_config, ..*old(self) }),
    {
        self.config = new_config;
    }

    /// Decides what to do with a new activity.
    ///
    /// In defer mode the first update, and any once the interval has passed
    /// since the last one, is sent at once; any other is held back as the
    /// pending work and taken as the activity to show. In the other modes it
    /// is sent at once. What is sent is padded when padding is on. After a
    /// send that succeeded, `confirm_update` records it.
    pub fn update(&mut self, activity: &Activity, now: u128) -> (r: SyncAction)
        ensures
            ({
                let c = old(self).config;
                if c.enabled && c.mode == SyncMode::Defer {
                    let immediate = old(self).first_update || interval_passed(now, old(self).last_update, c.interval);
                    &&& !final(self).first_update
                    &&& final(self).config == c
                    &&& final(self).last_update == old(self).last_update
                    &&& final(self).last_periodic_sync == old(self).last_periodic_sync
                    &&& immediate ==> {
                        &&& r matches SyncAction::Send(p) && padded_activity(activity@, p@, c.pad)
                        &&& final(self).pending_op == old(self).pending_op
                        &&& final(self).last_activity == old(self).last_activity
                    }
                    &&& !immediate ==> {
                        &&& r is Nothing
                        &&& final(self).pending_op matches Some(PendingOp::Update(x)) && x@ == activity@
                        &&& opt_activity(final(self).last_activity) == Some(activity@)
                    }
                } else {
                    &&& r matches SyncAction::Send(p) && padded_activity(activity@, p@, c.pad)
                    &&& *final(self) == *old(self)
                }
            }),
    {
        if self.config.enabled && self.config.mode == SyncMode::Defer {
            let is_first = self.first_update;
            self.first_update = false;
            if is_first || passed(now, self.last_update, self.config.interval) {
                SyncAction::Send(padded_copy(activity, self.config.pad))
            } else {
                self.pending_op = Some(PendingOp::Update(activity.duplicate()));
                self.last_activity = Some(activity.duplicate());
                SyncAction::Nothing
            }
        } else {
            SyncAction::Send(padded_copy(activity, self.config.pad))
        }
    }

    /// Records that an activity that `update` asked to send reached Discord
    /// at `now`: in defer mode it is the activity shown and nothing is
    /// pending; in periodic mode it is the activity shown; with syncing off
    /// nothing is kept.
    pub fn confirm_update(&mut self, activity: &Activity, now: u128)
        ensures
            ({
                let c = old(self).config;
                if c.enabled {
                    &&& final(self).last_update == now
                    &&& opt_activity(final(self).last_activity) == Some(activity@)
                    &&& c.mode == SyncMode::Defer ==> final(self).pending_op is None
                    &&& c.mode == SyncMode::Periodic ==> final(self).pending_op
                        == old(self).pending_op
                    &&& final(self).config == c
                    &&& final(self).first_update == old(self).first_update
                    &&& final(self).last_periodic_sync == old(self).last_periodic_sync
                } else {
                    *final(self) == *old(self)
                }
            }),
    {
        if self.config.enabled {
            if self.config.mode == SyncMode::Defer {
                self.pending_op = None;
            }
            self.last_update = now;
            self.last_activity = Some(activity.duplicate());
        }
    }

    /// Decides what to do about clearing the activity.
    ///
    /// In defer mode the first change, and any once the interval has passed,
    /// clears at once; any other is held back as the pending work, and no
    /// activity is taken to be shown. In the other modes it clears at once.
    /// After a clear that succeeded, `confirm_clear` records it.
    pub fn clear(&mut self, now: u128) -> (r: SyncAction)
        ensures
            ({
                let c = old(self).config;
                if c.enabled && c.mode == SyncMode::Defer {
                    let immediate = old(self).first_update || interval_passed(now, old(self).last_update, c.interval);
                    &&& !final(self).first_update
                    &&& final(self).config == c
                    &&& final(self).last_update == old(self).last_update
                    &&& final(self).last_periodic_sync == old(self).last_periodic_sync
                    &&& immediate ==> r is Clear && final(self).pending_op == old(self).pending_op
                        && final(self).last_activity == old(self).last_activity
                    &&& !immediate ==> (r is Nothing && (final(self).pending_op matches Some(
                        PendingOp::Clear,
                    )) && final(self).last_activity is None)
                } else {
                    r is Clear && *final(self) == *old(self)
                }
            }),
    {
        if self.config.enabled && self.config.mode == SyncMode::Defer {
            let is_first = self.first_update;
            self.first_update = false;
            if is_first || passed(now, self.last_update, self.config.interval) {
                SyncAction::Clear
            } else {
                self.pending_op = Some(PendingOp::Clear);
                self.last_activity = None;
                SyncAction::Nothing
            }
        } else {
            SyncAction::Clear
        }
    }

    /// Records that a clear that `clear` asked for reached Discord at `now`:
    /// no activity is shown, and in defer mode nothing is pending.
    pub fn confirm_clear(&mut self, now: u128)
        ensures
            final(self).last_update == now,
            final(self).last_activity is None,
            old(self).config.enabled && old(self).config.mode == SyncMode::Defer
                ==> final(self).pending_op is None,
            !(old(self).config.enabled && old(self).config.mode == SyncMode::Defer)
                ==> final(self).pending_op == old(self).pending_op,
            final(self).config == old(self).config,
            final(self).first_update == old(self).first_update,
            final(self).last_periodic_sync == old(self).last_periodic_sync,
    {
        if self.config.enabled && self.config.mode == SyncMode::Defer {
            self.pending_op = None;
        }
        self.last_activity = None;
        self.last_update = now;
    }

    /// One round of the background sync, at `now`.
    ///
    /// With syncing off nothing happens. In periodic mode, once the interval
    /// has passed since the last update (or, without `reset_on_update`, since
    /// the last resend), the activity to show is resent, padded when padding
    /// is on, or cleared when there is none, and the time is recorded. In
    /// defer mode, once the interval has passed since the last update, the
    /// pending work is done and the time recorded.
    pub fn tick(&mut self, now: u128) -> (r: SyncAction)
        ensures
            ({
                let c = old(self).config;
                if !c.enabled {
                    r is Nothing && *final(self) == *old(self)
                } else if c.mode == SyncMode::Periodic {
                    let since = if c.reset_on_update {
                        old(self).last_update
                    } else {
                        old(self).last_periodic_sync
                    };
                    if interval_passed(now, since, c.interval) {
                        &&& match old(self).last_activity {
                            Some(a) => r matches SyncAction::Send(p) && padded_activity(a@, p@, c.pad),
                            None => r is Clear,
                        }
                        &&& c.reset_on_update ==> *final(self) == (ActivityManager { last_update: now, ..*old(self) })
                        &&& !c.reset_on_update ==> *final(self) == (ActivityManager { last_periodic_sync: now, ..*old(self) })
                    } else {
                        r is Nothing && *final(self) == *old(self)
                    }
                } else {
                    if interval_passed(now, old(self).last_update, c.interval) && old(self).pending_op is Some {
                        &&& match old(self).pending_op {
                            Some(PendingOp::Update(a)) => r matches SyncAction::Send(p) && padded_activity(a@, p@, c.pad),
                            _ => r is Clear,
                        }
                        &&& *final(self) == (ActivityManager { last_update: now, pending_op: None, ..*old(self) })
                    } else {
                        r is Nothing && *final(self) == *old(self)
                    }
                }
            }),
    {
        if !self.config.enabled {
            return SyncAction::Nothing;
        }
        if self.config.mode == SyncMode::Periodic {
            let reset = self.config.reset_on_update;
            let since = if reset {
                self.last_update
            } else {
                self.last_periodic_sync
            };
            if !passed(now, since, self.config.interval) {
                return SyncAction::Nothing;
            }
            let r = match &self.last_activity {
                Some(a) => SyncAction::Send(padded_copy(a, self.config.pad)),
                None => SyncAction::Clear,
            };
            if reset {
                self.last_update = now;
            } else {
                self.last_periodic_sync = now;
            }
            r
        } else {
            if !passed(now, self.last_update, self.config.interval) {
                return SyncAction::Nothing;
            }
            match self.pending_op.take() {
                Some(PendingOp::Update(a)) => {
                    let r = SyncAction::Send(padded_copy(&a, self.config.pad));
                    self.last_update = now;
                    r
                },
                Some(PendingOp::Clear) => {
                    self.last_update = now;
                    SyncAction::Clear
                },
                None => SyncAction::Nothing,
            }
        }
    }
}

} // verus!
