use lib::error::CordError;
use lib::messages::events::client::set_timestamp::SetTimestampEvent;
use lib::messages::events::client::reset_timestamp::ResetTimestampEvent;
use lib::messages::events::client::disconnect::forget_shown_activity;
use lib::messages::events::client::initialize::connect_outcome;
use lib::messages::events::client::{
    ClearActivityEvent, ClientEvent, ConnectEvent, DisconnectEvent, InitializeEvent,
    RestartEvent, ShutdownEvent, UpdateActivityEvent,
};
use lib::messages::events::event::{Action, Event, EventContext, OnEvent};
use lib::messages::events::local::error::{ErrorEvent, EventError};
use lib::messages::events::local::reconnect::{retry_after_failure, ReconnectEvent};
use lib::messages::events::local::reconnect_complete::{ReconnectCompleteEvent, ReconnectStatus};
use lib::messages::events::local::client_disconnected::ClientDisconnectedEvent;
use lib::messages::events::local::LocalEvent;
use lib::messages::events::server::ready::ReadyEvent;
use lib::messages::events::server::status_update::{Status, StatusUpdateEvent};
use lib::messages::events::server::LogEvent;
use lib::presence::activity::{Activity, ActivityTimestamps, ActivityType, StatusDisplayType};
use lib::protocol::error::ProtocolError;
use lib::protocol::msgpack::MsgPack;
use lib::session::{Session, SessionManager};
use lib::types::config::{
    AdvancedConfig, AdvancedDiscordConfig, PluginConfig, SyncConfig, SyncMode, TimestampConfig,
};
use lib::types::reconnect::ReconnectState;
use lib::util::logger::LogLevel;

fn activity(details: &str, idle: bool) -> Activity {
    Activity {
        ty: ActivityType::Playing,
        status_display_type: StatusDisplayType::Name,
        details: Some(details.to_string()),
        details_url: None,
        state: None,
        state_url: None,
        assets: None,
        timestamps: None,
        buttons: Vec::new(),
        is_idle: idle,
    }
}

fn context(client_id: u32) -> EventContext<u32> {
    EventContext {
        client_id,
        sessions: SessionManager::new(),
        last_activity: None,
        shared_timestamp: 0,
        shared_timestamps: false,
        discord_ready: true,
        connection_running: true,
        status: Status::Ready,
        pipe_paths: Vec::new(),
        reconnect_interval: 0,
        initial_reconnect: false,
        reconnect: ReconnectState::new(),
        next_token: 1,
        log_buffer: Vec::new(),
        now: 5_000_000_000,
        actions: Vec::new(),
    }
}

fn session_with(a: Option<Activity>, updated: u128) -> Session<u32> {
    let mut s = Session::new();
    s.last_activity = a;
    s.last_updated = updated;
    s
}

fn config(shared: bool, pipes: Vec<String>) -> PluginConfig {
    PluginConfig {
        log_level: LogLevel::Debug,
        timestamp: TimestampConfig { shared },
        advanced: AdvancedConfig {
            discord: AdvancedDiscordConfig {
                pipe_paths: pipes,
                sync: SyncConfig {
                    enabled: true,
                    mode: SyncMode::Defer,
                    interval: 250,
                    reset_on_update: false,
                    pad: false,
                },
            },
        },
    }
}

fn status_bytes(e: StatusUpdateEvent) -> Vec<u8> {
    MsgPack::serialize(&e).expect("writes")
}

fn fixstr(s: &str) -> Vec<u8> {
    let mut v = vec![0xa0 | s.len() as u8];
    v.extend_from_slice(s.as_bytes());
    v
}

fn fixmap(entries: Vec<(&str, Vec<u8>)>) -> Vec<u8> {
    let mut v = vec![0x80 | entries.len() as u8];
    for (k, val) in entries {
        v.extend(fixstr(k));
        v.extend(val);
    }
    v
}

#[test]
fn reads_events_without_data() {
    let bytes = fixmap(vec![("type", fixstr("connect"))]);
    assert!(matches!(ClientEvent::deserialize(&bytes), Ok(ClientEvent::Connect(_))));
    let bytes = fixmap(vec![("type", fixstr("disconnect"))]);
    assert!(matches!(ClientEvent::deserialize(&bytes), Ok(ClientEvent::Disconnect(_))));
    let bytes = fixmap(vec![("type", fixstr("shutdown"))]);
    assert!(matches!(ClientEvent::deserialize(&bytes), Ok(ClientEvent::Shutdown(_))));
    let bytes = fixmap(vec![("type", fixstr("restart"))]);
    assert!(matches!(ClientEvent::deserialize(&bytes), Ok(ClientEvent::Restart(_))));
}

#[test]
fn refuses_events_it_cannot_read() {
    let bytes = fixmap(vec![("type", fixstr("dance"))]);
    match ClientEvent::deserialize(&bytes) {
        Err(CordError::UnknownMessageType(t)) => assert_eq!(t, "dance"),
        other => panic!("unexpected {:?}", other),
    }
    let bytes = fixmap(vec![("kind", fixstr("connect"))]);
    assert!(matches!(ClientEvent::deserialize(&bytes), Err(CordError::Invalid("Missing 'type' field"))));
    assert!(matches!(ClientEvent::deserialize(&[0x93, 1, 2, 3]), Err(CordError::Invalid("Invalid message"))));
    let bytes = fixmap(vec![("type", fixstr("update_activity"))]);
    assert!(matches!(ClientEvent::deserialize(&bytes), Err(CordError::MissingField("data"))));
    assert!(matches!(
        ClientEvent::deserialize(&[]),
        Err(CordError::Protocol(ProtocolError::InvalidLength))
    ));
}

#[test]
fn reads_clear_activity_with_and_without_force() {
    let bytes = fixmap(vec![("type", fixstr("clear_activity")), ("data", vec![0xc3])]);
    match ClientEvent::deserialize(&bytes) {
        Ok(ClientEvent::ClearActivity(e)) => assert!(e.force),
        other => panic!("unexpected {:?}", other),
    }
    let bytes = fixmap(vec![("type", fixstr("clear_activity")), ("data", vec![0xc0])]);
    match ClientEvent::deserialize(&bytes) {
        Ok(ClientEvent::ClearActivity(e)) => assert!(!e.force),
        other => panic!("unexpected {:?}", other),
    }
}

#[test]
fn reads_an_activity_update() {
    let act = fixmap(vec![("details", fixstr("Editing main.rs")), ("is_idle", vec![0xc2])]);
    let data = fixmap(vec![("activity", act), ("force", vec![0xc3])]);
    let bytes = fixmap(vec![("type", fixstr("update_activity")), ("data", data)]);
    match ClientEvent::deserialize(&bytes) {
        Ok(ClientEvent::UpdateActivity(e)) => {
            assert!(e.force);
            assert_eq!(e.activity.details.as_deref(), Some("Editing main.rs"));
            assert!(!e.activity.is_idle);
        }
        other => panic!("unexpected {:?}", other),
    }
    let data = fixmap(vec![("activity", fixstr("oops"))]);
    let bytes = fixmap(vec![("type", fixstr("update_activity")), ("data", data)]);
    assert!(matches!(ClientEvent::deserialize(&bytes), Err(CordError::Invalid("Invalid activity"))));
}

#[test]
fn an_update_is_ignored_until_discord_is_ready() {
    let mut ctx = context(1);
    ctx.discord_ready = false;
    ctx.sessions.insert(1, Session::new());
    UpdateActivityEvent::new(activity("a", false), false).on_event(&mut ctx).unwrap();
    assert!(ctx.actions.is_empty());
    assert!(ctx.last_activity.is_none());
}

#[test]
fn an_update_reaches_the_manager_and_the_session() {
    let mut ctx = context(1);
    ctx.sessions.insert(1, Session::new());
    UpdateActivityEvent::new(activity("a", false), false).on_event(&mut ctx).unwrap();
    assert_eq!(ctx.actions.len(), 1);
    match &ctx.actions[0] {
        Action::UpdateActivity(a) => assert_eq!(a.details.as_deref(), Some("a")),
        other => panic!("unexpected {:?}", other),
    }
    let s = ctx.sessions.get_session(1).unwrap();
    assert_eq!(s.last_activity.as_ref().unwrap().details.as_deref(), Some("a"));
    assert_eq!(s.last_updated, 5_000_000_000);
    // The same activity again is not sent, unless forced.
    UpdateActivityEvent::new(activity("a", false), false).on_event(&mut ctx).unwrap();
    assert_eq!(ctx.actions.len(), 1);
    UpdateActivityEvent::new(activity("a", false), true).on_event(&mut ctx).unwrap();
    assert_eq!(ctx.actions.len(), 2);
}

#[test]
fn an_idle_update_gives_way_to_the_busy_editor_updated_last() {
    let mut ctx = context(1);
    ctx.sessions.insert(1, Session::new());
    ctx.sessions.insert(2, session_with(Some(activity("older", false)), 10));
    ctx.sessions.insert(3, session_with(Some(activity("newer", false)), 20));
    ctx.sessions.insert(4, session_with(Some(activity("idle", true)), 30));
    UpdateActivityEvent::new(activity("me idle", true), false).on_event(&mut ctx).unwrap();
    match &ctx.actions[0] {
        Action::UpdateActivity(a) => assert_eq!(a.details.as_deref(), Some("newer")),
        other => panic!("unexpected {:?}", other),
    }
}

#[test]
fn an_idle_update_stays_when_nobody_is_busy() {
    let mut ctx = context(1);
    ctx.sessions.insert(1, Session::new());
    ctx.sessions.insert(2, session_with(Some(activity("idle", true)), 30));
    UpdateActivityEvent::new(activity("me idle", true), false).on_event(&mut ctx).unwrap();
    match &ctx.actions[0] {
        Action::UpdateActivity(a) => assert_eq!(a.details.as_deref(), Some("me idle")),
        other => panic!("unexpected {:?}", other),
    }
}

#[test]
fn shared_start_times_are_settled_on_update() {
    let mut ctx = context(1);
    ctx.shared_timestamps = true;
    ctx.shared_timestamp = 77;
    ctx.sessions.insert(1, Session::new());
    UpdateActivityEvent::new(activity("a", false), false).on_event(&mut ctx).unwrap();
    match &ctx.actions[0] {
        Action::UpdateActivity(a) => {
            assert_eq!(a.timestamps, Some(ActivityTimestamps { start: Some(77), end: None }))
        }
        other => panic!("unexpected {:?}", other),
    }
    let mut b = activity("b", false);
    b.timestamps = Some(ActivityTimestamps { start: Some(90), end: Some(100) });
    UpdateActivityEvent::new(b, false).on_event(&mut ctx).unwrap();
    assert_eq!(ctx.shared_timestamp, 90);
}

#[test]
fn clearing_shows_the_best_other_activity() {
    let mut ctx = context(1);
    ctx.sessions.insert(1, session_with(Some(activity("mine", false)), 50));
    ctx.sessions.insert(2, session_with(Some(activity("idle", true)), 40));
    ctx.sessions.insert(3, session_with(Some(activity("busy", false)), 10));
    ctx.last_activity = Some(activity("mine", false));
    ClearActivityEvent { force: false }.on_event(&mut ctx).unwrap();
    assert!(ctx.sessions.get_session(1).unwrap().last_activity.is_none());
    match &ctx.actions[0] {
        Action::SendActivity(a) => assert_eq!(a.details.as_deref(), Some("busy")),
        other => panic!("unexpected {:?}", other),
    }
}

#[test]
fn a_forced_clear_clears_discord() {
    let mut ctx = context(1);
    ctx.sessions.insert(1, session_with(Some(activity("mine", false)), 50));
    ctx.sessions.insert(2, session_with(Some(activity("busy", false)), 10));
    ctx.last_activity = Some(activity("mine", false));
    ClearActivityEvent { force: true }.on_event(&mut ctx).unwrap();
    assert!(ctx.last_activity.is_none());
    assert!(matches!(ctx.actions[..], [Action::ClearDiscord]));
    // Nothing shown: nothing to clear.
    ClearActivityEvent { force: true }.on_event(&mut ctx).unwrap();
    assert_eq!(ctx.actions.len(), 1);
}

#[test]
fn the_last_editor_leaving_clears_everything() {
    let mut ctx = context(1);
    ctx.sessions.insert(1, session_with(Some(activity("mine", false)), 50));
    ctx.shared_timestamp = 12;
    ctx.last_activity = Some(activity("mine", false));
    DisconnectEvent.on_event(&mut ctx).unwrap();
    assert_eq!(ctx.sessions.len(), 0);
    assert!(matches!(ctx.actions[..], [Action::ClearForLastEditor]));
    // Nothing is forgotten until the clear went through.
    assert_eq!(ctx.shared_timestamp, 12);
    assert!(ctx.last_activity.is_some());
    forget_shown_activity(&mut ctx);
    assert_eq!(ctx.shared_timestamp, 0);
    assert!(ctx.last_activity.is_none());
}

#[test]
fn a_restarted_reconnect_gets_a_token_of_its_own() {
    let mut ctx = context(0);
    ctx.reconnect.in_progress = true;
    ctx.reconnect.cancel = Some(5);
    ctx.next_token = 5;
    ReconnectEvent::new(true).on_event(&mut ctx).unwrap();
    assert!(matches!(ctx.actions[0], Action::CancelReconnect(5)));
    assert_eq!(ctx.reconnect.cancel, Some(6));
    assert_eq!(ctx.next_token, 7);
    assert!(matches!(ctx.actions[3], Action::StartReconnect { manual: true, token: 6, .. }));
}

#[test]
fn an_editor_leaving_hands_over_to_the_others() {
    let mut ctx = context(1);
    ctx.sessions.insert(1, session_with(Some(activity("mine", false)), 50));
    ctx.sessions.insert(2, session_with(Some(activity("theirs", false)), 10));
    ctx.last_activity = Some(activity("mine", false));
    DisconnectEvent.on_event(&mut ctx).unwrap();
    assert_eq!(ctx.sessions.len(), 1);
    match &ctx.actions[0] {
        Action::UpdateActivity(a) => assert_eq!(a.details.as_deref(), Some("theirs")),
        other => panic!("unexpected {:?}", other),
    }
}

#[test]
fn initializing_without_a_connection_asks_for_one() {
    let mut ctx = context(1);
    ctx.discord_ready = false;
    ctx.connection_running = false;
    ctx.status = Status::Disconnected;
    ctx.sessions.insert(1, Session::new());
    InitializeEvent::new(config(true, vec!["/tmp/discord-ipc-0".to_string()]))
        .on_event(&mut ctx)
        .unwrap();
    assert!(ctx.shared_timestamps);
    assert_eq!(ctx.shared_timestamp, 5);
    assert_eq!(ctx.pipe_paths, vec!["/tmp/discord-ipc-0".to_string()]);
    assert_eq!(ctx.status, Status::Connecting);
    assert_eq!(ctx.actions.len(), 4);
    assert!(matches!(ctx.actions[0], Action::SetLogLevel(LogLevel::Debug)));
    assert!(matches!(ctx.actions[1], Action::SetSyncConfig(_)));
    match &ctx.actions[2] {
        Action::Broadcast(b) => assert_eq!(b, &status_bytes(StatusUpdateEvent::connecting())),
        other => panic!("unexpected {:?}", other),
    }
    assert!(matches!(ctx.actions[3], Action::Connect(_)));
    assert!(ctx.sessions.get_session(1).unwrap().config.is_none());
}

#[test]
fn initializing_while_ready_configures_the_session() {
    let mut ctx = context(1);
    ctx.pipe_paths = vec!["kept".to_string()];
    ctx.sessions.insert(1, Session::new());
    InitializeEvent::new(config(false, vec!["ignored".to_string()])).on_event(&mut ctx).unwrap();
    assert_eq!(ctx.pipe_paths, vec!["kept".to_string()]);
    assert_eq!(ctx.shared_timestamp, 0);
    assert_eq!(ctx.actions.len(), 3);
    match &ctx.actions[2] {
        Action::Broadcast(b) => assert_eq!(b, &status_bytes(StatusUpdateEvent::ready())),
        other => panic!("unexpected {:?}", other),
    }
    assert!(ctx.sessions.get_session(1).unwrap().config.is_some());
}

#[test]
fn a_failed_first_connection_reconnects_or_fails() {
    let mut ctx = context(1);
    ctx.sessions.insert(1, Session::new());
    ctx.reconnect_interval = 1000;
    ctx.initial_reconnect = true;
    connect_outcome(&mut ctx, config(false, Vec::new()), false).unwrap();
    assert!(matches!(ctx.actions[..], [Action::InitialReconnect(1000)]));
    assert!(ctx.sessions.get_session(1).unwrap().config.is_some());

    let mut ctx = context(1);
    ctx.sessions.insert(1, Session::new());
    match connect_outcome(&mut ctx, config(false, Vec::new()), false) {
        Err(CordError::Io(m)) => assert_eq!(m, "Failed to connect to Discord"),
        other => panic!("unexpected {:?}", other),
    }
    assert!(ctx.actions.is_empty());

    let mut ctx = context(1);
    connect_outcome(&mut ctx, config(false, Vec::new()), true).unwrap();
    assert_eq!(ctx.status, Status::Connected);
    assert!(matches!(ctx.actions[1], Action::Handshake(_)));
}

#[test]
fn connecting_flushes_the_kept_log_lines() {
    let mut ctx = context(3);
    ConnectEvent.on_event(&mut ctx).unwrap();
    assert!(ctx.actions.is_empty());
    ctx.log_buffer.push(LogEvent::new("hello".to_string(), LogLevel::Info));
    ConnectEvent.on_event(&mut ctx).unwrap();
    assert!(ctx.log_buffer.is_empty());
    assert!(matches!(ctx.actions[..], [Action::WriteTo(3, _)]));
}

#[test]
fn a_reconnect_starts_a_worker_once() {
    let mut ctx = context(0);
    ctx.reconnect_interval = 500;
    ReconnectEvent::new(false).on_event(&mut ctx).unwrap();
    assert!(ctx.reconnect.in_progress);
    assert_eq!(ctx.reconnect.cancel, Some(1));
    assert_eq!(ctx.next_token, 2);
    assert_eq!(ctx.actions.len(), 3);
    match &ctx.actions[0] {
        Action::Broadcast(b) => assert_eq!(b, &status_bytes(StatusUpdateEvent::disconnected())),
        other => panic!("unexpected {:?}", other),
    }
    assert!(matches!(ctx.actions[2], Action::StartReconnect { manual: false, token: 1, interval: 500 }));
    // Another automatic request is dropped.
    ReconnectEvent::new(false).on_event(&mut ctx).unwrap();
    assert_eq!(ctx.actions.len(), 3);
    // A manual one cancels the running worker and starts anew.
    ReconnectEvent::new(true).on_event(&mut ctx).unwrap();
    assert!(matches!(ctx.actions[3], Action::CancelReconnect(1)));
    assert!(matches!(ctx.actions[6], Action::StartReconnect { manual: true, token: 2, interval: 500 }));
}

#[test]
fn a_worker_retries_only_unasked_reconnects_with_an_interval() {
    assert!(retry_after_failure(false, 10));
    assert!(!retry_after_failure(true, 10));
    assert!(!retry_after_failure(false, 0));
}

#[test]
fn a_finished_reconnect_is_recorded() {
    let mut ctx = context(2);
    ctx.reconnect.in_progress = true;
    ctx.reconnect.cancel = Some(9);
    ctx.last_activity = Some(activity("x", false));
    ReconnectCompleteEvent::new(false, ReconnectStatus::Succeeded).on_event(&mut ctx).unwrap();
    assert!(!ctx.reconnect.in_progress);
    assert!(ctx.reconnect.cancel.is_none());
    assert!(ctx.last_activity.is_none());
    assert!(ctx.actions.is_empty());

    let status = ReconnectStatus::from_result(Err(CordError::Other("no pipe".to_string())));
    ReconnectCompleteEvent::new(true, status).on_event(&mut ctx).unwrap();
    assert_eq!(ctx.actions.len(), 2);
    match &ctx.actions[1] {
        Action::Log { client_id, level, message } => {
            assert_eq!(*client_id, 2);
            assert_eq!(*level, LogLevel::Error);
            assert_eq!(message, "Failed to reconnect to Discord: no pipe");
        }
        other => panic!("unexpected {:?}", other),
    }
}

#[test]
fn errors_are_reported_or_retried() {
    let mut ctx = context(4);
    match ErrorEvent::new(EventError::InvalidClientId("zz".to_string())).on_event(&mut ctx) {
        Err(CordError::Other(m)) => assert_eq!(m, "'zz' is not a valid client ID"),
        other => panic!("unexpected {:?}", other),
    }
    match ErrorEvent::new(EventError::ConnectionClosed).on_event(&mut ctx) {
        Err(CordError::Other(m)) => assert_eq!(m, "Discord closed the connection"),
        other => panic!("unexpected {:?}", other),
    }
    ctx.reconnect_interval = 100;
    ErrorEvent::new(EventError::ConnectionClosed).on_event(&mut ctx).unwrap();
    match &ctx.actions[0] {
        Action::Send(m) => {
            assert_eq!(m.client_id, 0);
            assert!(matches!(m.event, Event::Local(LocalEvent::Reconnect(ReconnectEvent { manual: false }))));
        }
        other => panic!("unexpected {:?}", other),
    }
    ErrorEvent::new(EventError::Discord("boom".to_string())).on_event(&mut ctx).unwrap();
    assert_eq!(ctx.actions.len(), 3);
    assert!(matches!(ctx.actions[2], Action::Log { level: LogLevel::Error, .. }));
}

#[test]
fn shutting_down_and_restarting() {
    let mut ctx = context(1);
    ShutdownEvent.on_event(&mut ctx).unwrap();
    assert!(matches!(ctx.actions[..], [Action::Shutdown]));
    let mut ctx = context(1);
    RestartEvent.on_event(&mut ctx).unwrap();
    assert!(matches!(ctx.actions[..], [Action::Broadcast(_), Action::Shutdown]));
    let mut ctx = context(6);
    ClientDisconnectedEvent.on_event(&mut ctx).unwrap();
    assert!(matches!(ctx.actions[..], [Action::DisconnectPipe(6)]));
}

#[test]
fn session_start_times_are_set_and_reset() {
    let mut ctx = context(1);
    ctx.sessions.insert(1, Session::new());
    SetTimestampEvent::new(Some(42)).on_event(&mut ctx).unwrap();
    assert_eq!(ctx.sessions.get_session(1).unwrap().timestamp, Some(42));
    ResetTimestampEvent.on_event(&mut ctx).unwrap();
    assert_eq!(ctx.sessions.get_session(1).unwrap().timestamp, None);
}

#[test]
fn discord_becoming_ready_is_announced_once() {
    let mut ctx = context(0);
    ctx.discord_ready = false;
    ReadyEvent.on_event(&mut ctx).unwrap();
    assert!(ctx.discord_ready);
    assert_eq!(ctx.actions.len(), 1);
    ReadyEvent.on_event(&mut ctx).unwrap();
    assert_eq!(ctx.actions.len(), 1);
}

#[test]
fn log_lines_go_to_their_editor_or_to_all() {
    let mut ctx = context(0);
    LogEvent::new("x".to_string(), LogLevel::Warn).on_event(&mut ctx).unwrap();
    assert!(matches!(ctx.actions[..], [Action::Broadcast(_)]));
    let mut ctx = context(8);
    LogEvent::new("x".to_string(), LogLevel::Warn).on_event(&mut ctx).unwrap();
    assert!(matches!(ctx.actions[..], [Action::WriteTo(8, _)]));
}

#[test]
fn status_updates_name_the_status() {
    assert_eq!(Status::Disconnected.name(), "disconnected");
    assert_eq!(Status::Connecting.name(), "connecting");
    assert_eq!(Status::Connected.name(), "connected");
    assert_eq!(Status::Ready.name(), "ready");
}
