use vstd::prelude::*;
use vstd::string::StringExecFns;

use crate::messages::events::event::{
    broadcast, broadcasts, message_bytes, one_more, Action, EventContext, OnEvent,
};
use crate::messages::events::server::status_update::{Status, StatusUpdateEvent};
use crate::session::Session;
use crate::types::config::{strings_view, PluginConfig};

verus! {

/// The editor plugin hands over its configuration.
#[derive(Debug)]
pub struct InitializeEvent {
    pub config: PluginConfig,
}

impl InitializeEvent {
    pub fn new(config: PluginConfig) -> (r: InitializeEvent)
        ensures
            r.config == config,
    {
        InitializeEvent { config }
    }
}

/// A copy of a list of texts.
pub fn copy_strings(v: &Vec<String>) -> (r: Vec<String>)
    ensures
        strings_view(r@) == strings_view(v@),
{
    let mut out: Vec<String> = Vec::new();
    let mut i: usize = 0;
    while i < v.len()
        invariant
            i <= v@.len(),
            out@.len() == i,
            forall|j: int| 0 <= j < i ==> #[trigger] out@[j]@ == v@[j]@,
        decreases v@.len() - i,
    {
        out.push(v[i].clone());
        i = i + 1;
    }
    assert(strings_view(out@) =~= strings_view(v@));
    out
}

/// The sessions after `me`'s configuration became `config`, if `me` has a
/// session.
pub open spec fn sessions_after_config<C>(
    before: Map<u32, Session<C>>,
    after: Map<u32, Session<C>>,
    me: u32,
    config: PluginConfig,
) -> bool {
    &&& after.dom() == before.dom()
    &&& forall|id: u32| #[trigger] after.dom().contains(id) && id != me ==> after[id] == before[id]
    &&& before.dom().contains(me) ==> after[me] == Session { config: Some(config), ..before[me] }
}

/// Stores the configuration in the editor's session.
pub fn configure_session<C>(ctx: &mut EventContext<C>, config: PluginConfig)
    ensures
        sessions_after_config(old(ctx).sessions@, final(ctx).sessions@, old(ctx).client_id, config),
        *final(ctx) == (EventContext { sessions: final(ctx).sessions, ..*old(ctx) }),
{
    let me = ctx.client_id;
    let ghost before = ctx.sessions@;
    match ctx.sessions.get_session_mut(me) {
        Some(s) => {
            s.set_config(config);
        },
        None => {},
    }
    assert(ctx.sessions@.dom() =~= before.dom());
}

/// The start time all editors share once a configuration that shares it
/// arrives: the time already set, else now.
pub open spec fn shared_after_config(shared: u64, on: bool, now: u128) -> u64 {
    if on && shared == 0 {
        (now / 1_000_000_000) as u64
    } else {
        shared
    }
}

impl InitializeEvent {
    /// What reacting to the event does: it applies the editor's configuration.
    /// `before` and `after` are the server's state around the reaction, `r` its
    /// outcome.
    pub open spec fn reacts<C>(self, before: EventContext<C>, after: EventContext<C>, r: crate::Result<()>) -> bool {
        &&& (after.client_id == before.client_id)
        &&& (after.shared_timestamps == self.config.timestamp.shared)
        &&& (after.shared_timestamp == shared_after_config(
                before.shared_timestamp,
                self.config.timestamp.shared,
                before.now,
            ))
        &&& (strings_view(after.pipe_paths@) == if self.config.advanced.discord.pipe_paths@.len()
                > 0 && before.pipe_paths@.len() == 0 {
                strings_view(self.config.advanced.discord.pipe_paths@)
            } else {
                strings_view(before.pipe_paths@)
            })
        &&& (after.last_activity == before.last_activity)
        &&& (after.discord_ready == before.discord_ready)
        &&& (after.reconnect == before.reconnect)
        &&& (after == (EventContext {
                sessions: after.sessions,
                actions: after.actions,
                status: after.status,
                shared_timestamps: after.shared_timestamps,
                shared_timestamp: after.shared_timestamp,
                pipe_paths: after.pipe_paths,
                ..before
            }))
        &&& (after.actions@.len() >= before.actions@.len() + 2)
        &&& (after.actions@.subrange(0, before.actions@.len() as int) == before.actions@)
        &&& (after.actions@[before.actions@.len() as int] == Action::SetLogLevel(
                self.config.log_level,
            ))
        &&& (after.actions@[before.actions@.len() + 1int] == Action::SetSyncConfig(
                self.config.advanced.discord.sync,
            ))
        &&& (({
                let n = before.actions@.len() + 2int;
                if !before.connection_running && !before.discord_ready {
                    &&& after.status == Status::Connecting
                    &&& after.sessions@ == before.sessions@
                    &&& match message_bytes(StatusUpdateEvent { status: Status::Connecting }) {
                        Some(b) => r is Ok && after.actions@.len() == n + 2 && broadcasts(
                            b,
                            after.actions@[n],
                        ) && after.actions@[n + 1] == Action::Connect(self.config),
                        None => r is Err && after.actions@.len() == n,
                    }
                } else {
                    let status = if before.discord_ready {
                        Status::Ready
                    } else {
                        before.status
                    };
                    &&& after.status == status
                    &&& match message_bytes(StatusUpdateEvent { status }) {
                        Some(b) => r is Ok && after.actions@.len() == n + 1 && broadcasts(
                            b,
                            after.actions@[n],
                        ) && sessions_after_config(
                            before.sessions@,
                            after.sessions@,
                            before.client_id,
                            self.config,
                        ),
                        None => r is Err && after.actions@.len() == n
                            && after.sessions@ == before.sessions@,
                    }
                }
            }))
    }
}

impl OnEvent for InitializeEvent {
    /// Applies the editor's configuration.
    ///
    /// The log level and sync settings go to the logger and the activity
    /// manager; whether start times are shared is taken, and the shared time
    /// set to now if there is none; custom pipe paths are taken if none are
    /// set. With no connection to Discord running and none ready, the
    /// editors are told that the server connects and a connection is asked
    /// for, which applies the configuration to the session afterwards.
    /// Otherwise the editors are told how the connection stands (ready, if
    /// Discord is) and the session gets the configuration.
    fn on_event<C>(self, ctx: &mut EventContext<C>) -> (r: crate::Result<()>)
        ensures
            self.reacts(*old(ctx), *final(ctx), r),
    {
        let config = self.config;
        let ghost a0 = ctx.actions@;
        ctx.actions.push(Action::SetLogLevel(config.log_level));
        ctx.shared_timestamps = config.timestamp.shared;
        if config.timestamp.shared && ctx.shared_timestamp == 0 {
            ctx.shared_timestamp = #[verifier::truncate] ((ctx.now / 1_000_000_000) as u64);
        }
        ctx.actions.push(Action::SetSyncConfig(config.advanced.discord.sync));
        if config.advanced.discord.pipe_paths.len() > 0 && ctx.pipe_paths.len() == 0 {
            ctx.pipe_paths = copy_strings(&config.advanced.discord.pipe_paths);
        }
        let ghost a2 = ctx.actions@;
        assert(a2.subrange(0, a0.len() as int) =~= a0);
        if !ctx.connection_running && !ctx.discord_ready {
            ctx.status = Status::Connecting;
            let st = StatusUpdateEvent::connecting();
            match broadcast(&st, ctx) {
                Ok(()) => {},
                Err(e) => return Err(e),
            }
            let ghost a3 = ctx.actions@;
            assert(a3[a0.len() as int] == a3.drop_last()[a0.len() as int]);
            assert(a3[a0.len() + 1int] == a3.drop_last()[a0.len() + 1int]);
            ctx.actions.push(Action::Connect(config));
            assert(ctx.actions@[a0.len() as int] == a3[a0.len() as int]);
            assert(ctx.actions@[a0.len() + 1int] == a3[a0.len() + 1int]);
            assert(ctx.actions@.subrange(0, a0.len() as int) =~= a0);
            return Ok(());
        }
        if ctx.discord_ready {
            ctx.status = Status::Ready;
        }
        let st = StatusUpdateEvent::new(ctx.status);
        match broadcast(&st, ctx) {
            Ok(()) => {},
            Err(e) => return Err(e),
        }
        let ghost a3 = ctx.actions@;
        assert(a3[a0.len() as int] == a3.drop_last()[a0.len() as int]);
        assert(a3[a0.len() + 1int] == a3.drop_last()[a0.len() + 1int]);
        assert(ctx.actions@.subrange(0, a0.len() as int) =~= a0);
        configure_session(ctx, config);
        Ok(())
    }
}

/// Acts on how connecting to Discord for a new configuration went.
///
/// Connected, the editors are told so and a handshake is asked for, which
/// applies the configuration afterwards. Not connected, a reconnect is
/// started if one is configured for the first connection, and the session
/// gets the configuration; else the failure is the result.
pub fn connect_outcome<C>(ctx: &mut EventContext<C>, config: PluginConfig, connected: bool) -> (r:
    crate::Result<()>)
    ensures
        final(ctx).client_id == old(ctx).client_id,
        final(ctx).last_activity == old(ctx).last_activity,
        final(ctx).shared_timestamp == old(ctx).shared_timestamp,
        *final(ctx) == (EventContext {
            sessions: final(ctx).sessions,
            actions: final(ctx).actions,
            status: final(ctx).status,
            ..*old(ctx)
        }),
        connected ==> {
            &&& final(ctx).status == Status::Connected
            &&& final(ctx).sessions@ == old(ctx).sessions@
            &&& match message_bytes(StatusUpdateEvent { status: Status::Connected }) {
                Some(b) => r is Ok && final(ctx).actions@.len() == old(ctx).actions@.len() + 2
                    && final(ctx).actions@.subrange(0, old(ctx).actions@.len() as int)
                    == old(ctx).actions@ && broadcasts(b, final(ctx).actions@[old(ctx).actions@.len() as int])
                    && final(ctx).actions@.last() == Action::Handshake(config),
                None => r is Err && final(ctx).actions == old(ctx).actions,
            }
        },
        !connected && old(ctx).reconnect_interval > 0 && old(ctx).initial_reconnect ==> {
            &&& r is Ok
            &&& final(ctx).status == old(ctx).status
            &&& final(ctx).actions@ == old(ctx).actions@.push(
                Action::InitialReconnect(old(ctx).reconnect_interval),
            )
            &&& sessions_after_config(old(ctx).sessions@, final(ctx).sessions@, old(ctx).client_id, config)
        },
        !connected && !(old(ctx).reconnect_interval > 0 && old(ctx).initial_reconnect) ==> {
            &&& r matches Err(crate::error::CordError::Io(m)) && m@ == "Failed to connect to Discord"@
            &&& final(ctx).status == old(ctx).status
            &&& final(ctx).actions == old(ctx).actions
            &&& final(ctx).sessions@ == old(ctx).sessions@
        },
{
    if connected {
        ctx.status = Status::Connected;
        let st = StatusUpdateEvent::connected();
        match broadcast(&st, ctx) {
            Ok(()) => {},
            Err(e) => return Err(e),
        }
        ctx.actions.push(Action::Handshake(config));
        assert(ctx.actions@.subrange(0, old(ctx).actions@.len() as int) =~= old(ctx).actions@);
        Ok(())
    } else if ctx.reconnect_interval > 0 && ctx.initial_reconnect {
        ctx.actions.push(Action::InitialReconnect(ctx.reconnect_interval));
        configure_session(ctx, config);
        Ok(())
    } else {
        Err(crate::error::CordError::Io(String::from_str("Failed to connect to Discord")))
    }
}

} // verus!
