use vstd::prelude::*;

use super::client::ClientEvent;
use super::local::LocalEvent;
use super::server::{LogEvent, ServerEvent};
use crate::presence::activity::{Activity, ActivityView};
use crate::protocol::msgpack::serialize::{spec_write_fields, Serialize};
use crate::protocol::msgpack::MsgPack;
use crate::messages::events::server::status_update::Status;
use crate::messages::message::Message;
use crate::session::{Session, SessionManager};
use crate::types::config::{PluginConfig, SyncConfig};
use crate::types::reconnect::ReconnectState;
use crate::util::logger::LogLevel;

verus! {

/// Anything the server reacts to.
#[derive(Debug)]
pub enum Event {
    Client(ClientEvent),
    Local(LocalEvent),
    Server(ServerEvent),
}

/// Work that reacting to an event hands to the one who runs the server:
/// writing to the pipes, talking to Discord, starting threads.
#[derive(Debug)]
pub enum Action {
    /// Writes these bytes to every connected editor.
    Broadcast(Vec<u8>),
    /// Writes these bytes to one editor.
    WriteTo(u32, Vec<u8>),
    /// Closes an editor's pipe.
    DisconnectPipe(u32),
    /// Hands an activity to the activity manager.
    UpdateActivity(Activity),
    /// Asks the activity manager to clear the activity.
    ClearActivity,
    /// Asks the activity manager to clear the activity after the last editor
    /// left; once that went through, `forget_shown_activity` records that
    /// nothing is shown and drops the shared start time.
    ClearForLastEditor,
    /// Sends an activity to Discord straight away.
    SendActivity(Activity),
    /// Clears the activity on Discord straight away.
    ClearDiscord,
    /// Hands new sync settings to the activity manager.
    SetSyncConfig(SyncConfig),
    /// Sets the logger's level.
    SetLogLevel(LogLevel),
    /// Connects to Discord, then hands the outcome to `connect_outcome`
    /// with this configuration.
    Connect(PluginConfig),
    /// Handshakes with Discord and starts reading from it, then hands this
    /// configuration to `configure_session`.
    Handshake(PluginConfig),
    /// Starts reconnecting to Discord every this many milliseconds.
    InitialReconnect(u64),
    /// Logs a line for an editor (0 for all of them).
    Log { client_id: u32, level: LogLevel, message: String },
    /// Starts a reconnect worker with this cancel token.
    StartReconnect { manual: bool, token: u64, interval: u64 },
    /// Raises the cancel flag of the reconnect worker with this token.
    CancelReconnect(u64),
    /// Queues a message for the server itself.
    Send(Message),
    /// Stops the server.
    Shutdown,
}

/// What the server knows while it reacts to one event, and the work it
/// hands out.
#[derive(Debug)]
pub struct EventContext<C> {
    /// The editor the event came from; 0 for the server itself.
    pub client_id: u32,
    pub sessions: SessionManager<C>,
    /// What Discord was last asked to show.
    pub last_activity: Option<Activity>,
    /// The start time all editors share, in seconds since the epoch; 0 when
    /// none is set.
    pub shared_timestamp: u64,
    /// Whether editors share one start time.
    pub shared_timestamps: bool,
    /// Whether the Discord connection has handshaken.
    pub discord_ready: bool,
    /// Whether a connection to Discord is being run.
    pub connection_running: bool,
    /// How the Discord connection stands, as last reported.
    pub status: Status,
    /// Where to look for Discord's pipe; empty for the usual places.
    pub pipe_paths: Vec<String>,
    /// Milliseconds between reconnect attempts; 0 for none.
    pub reconnect_interval: u64,
    /// Whether to reconnect when the first connection fails.
    pub initial_reconnect: bool,
    pub reconnect: ReconnectState<u64>,
    /// The token the next reconnect worker gets.
    pub next_token: u64,
    /// Log lines kept until an editor connects.
    pub log_buffer: Vec<LogEvent>,
    /// The current time, in nanoseconds since the epoch.
    pub now: u128,
    /// The work handed out, in order.
    pub actions: Vec<Action>,
}

/// Reacting to an event.
pub trait OnEvent {
    fn on_event<C>(self, ctx: &mut EventContext<C>) -> (r: crate::Result<()>);
}

/// The last activity of a session, if it has one.
pub open spec fn session_activity<C>(s: Session<C>) -> Option<ActivityView> {
    match s.last_activity {
        Some(a) => Some(a@),
        None => None,
    }
}

/// The view of an optional activity.
pub open spec fn opt_activity(a: Option<Activity>) -> Option<ActivityView> {
    match a {
        Some(x) => Some(x@),
        None => None,
    }
}

/// The fields that reacting to activity events leaves alone.
pub open spec fn same_connection<C>(a: EventContext<C>, b: EventContext<C>) -> bool {
    &&& a.client_id == b.client_id
    &&& a.shared_timestamps == b.shared_timestamps
    &&& a.discord_ready == b.discord_ready
    &&& a.connection_running == b.connection_running
    &&& a.status == b.status
    &&& a.pipe_paths == b.pipe_paths
    &&& a.reconnect_interval == b.reconnect_interval
    &&& a.initial_reconnect == b.initial_reconnect
    &&& a.reconnect == b.reconnect
    &&& a.next_token == b.next_token
    &&& a.log_buffer == b.log_buffer
    &&& a.now == b.now
}

/// Everything but the handed-out work is as it was.
pub open spec fn only_actions_changed<C>(a: EventContext<C>, b: EventContext<C>) -> bool {
    &&& same_connection(a, b)
    &&& a.sessions == b.sessions
    &&& a.last_activity == b.last_activity
    &&& a.shared_timestamp == b.shared_timestamp
}

/// The bytes of a message for the editor plugins, if it can be written.
pub open spec fn message_bytes<T: Serialize>(x: T) -> Option<Seq<u8>> {
    match spec_write_fields(x.spec_fields()) {
        Some(b) => Some(seq![0x81u8] + b),
        None => None,
    }
}

/// The work handed out is the old work and then one more piece.
pub open spec fn one_more(before: Seq<Action>, after: Seq<Action>) -> bool {
    after.len() == before.len() + 1 && after.drop_last() == before
}

/// What writing a message out leaves behind: on success one more piece of
/// work, made by `to` from the bytes; else an error and no work.
pub open spec fn wrote_out<T: Serialize, C>(
    x: T,
    before: EventContext<C>,
    after: EventContext<C>,
    r: crate::Result<()>,
    to: spec_fn(Seq<u8>, Action) -> bool,
) -> bool {
    match message_bytes(x) {
        Some(b) => r is Ok && one_more(before.actions@, after.actions@) && to(b, after.actions@.last()),
        None => r is Err && after.actions == before.actions,
    }
}

/// An action that writes `b` to every editor.
pub open spec fn broadcasts(b: Seq<u8>, a: Action) -> bool {
    a matches Action::Broadcast(v) && v@ == b
}

/// An action that writes `b` to the editor `id`.
pub open spec fn writes_to(id: u32, b: Seq<u8>, a: Action) -> bool {
    a matches Action::WriteTo(i, v) && i == id && v@ == b
}

/// Writes a message to every editor.
pub fn broadcast<T: Serialize, C>(x: &T, ctx: &mut EventContext<C>) -> (r: crate::Result<()>)
    ensures
        only_actions_changed(*old(ctx), *final(ctx)),
        wrote_out(*x, *old(ctx), *final(ctx), r, |b: Seq<u8>, a: Action| broadcasts(b, a)),
{
    match MsgPack::serialize(x) {
        Ok(bytes) => {
            ctx.actions.push(Action::Broadcast(bytes));
            assert(ctx.actions@.drop_last() =~= old(ctx).actions@);
            Ok(())
        },
        Err(e) => Err(e),
    }
}

/// Writes a message to one editor.
pub fn write_to<T: Serialize, C>(id: u32, x: &T, ctx: &mut EventContext<C>) -> (r: crate::Result<()>)
    ensures
        only_actions_changed(*old(ctx), *final(ctx)),
        wrote_out(*x, *old(ctx), *final(ctx), r, |b: Seq<u8>, a: Action| writes_to(id, b, a)),
{
    match MsgPack::serialize(x) {
        Ok(bytes) => {
            ctx.actions.push(Action::WriteTo(id, bytes));
            assert(ctx.actions@.drop_last() =~= old(ctx).actions@);
            Ok(())
        },
        Err(e) => Err(e),
    }
}

impl Event {
    /// What reacting to the event does: what the event it carries does.
    pub open spec fn reacts<C>(self, before: EventContext<C>, after: EventContext<C>, r: crate::Result<()>) -> bool {
        match self {
            Event::Client(e) => e.reacts(before, after, r),
            Event::Local(e) => e.reacts(before, after, r),
            Event::Server(e) => e.reacts(before, after, r),
        }
    }
}

impl OnEvent for Event {
    fn on_event<C>(self, ctx: &mut EventContext<C>) -> (r: crate::Result<()>)
        ensures
            self.reacts(*old(ctx), *final(ctx), r),
    {
        match self {
            Event::Client(e) => e.on_event(ctx),
            Event::Local(e) => e.on_event(ctx),
            Event::Server(e) => e.on_event(ctx),
        }
    }
}

} // verus!
