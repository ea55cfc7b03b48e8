use lib::presence::activity::{Activity, ActivityType, StatusDisplayType};
use lib::presence::manager::{ActivityManager, PendingOp, SyncAction};
use lib::session::{Session, SessionManager};
use lib::types::config::{SyncConfig, SyncMode};
use lib::types::reconnect::ReconnectState;

const MS: u128 = 1_000_000;

fn activity(details: &str) -> Activity {
    Activity {
        ty: ActivityType::Playing,
        status_display_type: StatusDisplayType::Name,
        details: Some(details.to_string()),
        details_url: None,
        state: None,
        state_url: None,
        assets: None,
        timestamps: None,
        buttons: Vec::new(),
        is_idle: false,
    }
}

fn sync(mode: SyncMode, reset: bool, pad: bool) -> SyncConfig {
    SyncConfig { enabled: true, mode, interval: 100, reset_on_update: reset, pad }
}

fn sent(a: &SyncAction) -> Option<String> {
    match a {
        SyncAction::Send(x) => x.details.clone(),
        _ => None,
    }
}

#[test]
fn a_new_manager_uses_the_default_settings() {
    let m = ActivityManager::new(7);
    assert!(m.last_activity.is_none());
    assert_eq!(m.last_update, 7);
    assert_eq!(m.last_periodic_sync, 7);
    assert_eq!(m.config, SyncConfig::default());
    assert!(m.pending_op.is_none());
    assert!(m.first_update);
}

#[test]
fn defer_mode_sends_the_first_update_then_holds_back() {
    let mut m = ActivityManager::new(0);
    m.set_config(sync(SyncMode::Defer, false, false));
    let a = m.update(&activity("one"), 10 * MS);
    assert_eq!(sent(&a).as_deref(), Some("one"));
    m.confirm_update(&activity("one"), 10 * MS);
    assert_eq!(m.last_update, 10 * MS);
    // Too soon: held back.
    let a = m.update(&activity("two"), 50 * MS);
    assert!(matches!(a, SyncAction::Nothing));
    assert!(matches!(&m.pending_op, Some(PendingOp::Update(x)) if x.details.as_deref() == Some("two")));
    // The tick before the interval does nothing, the one after sends.
    assert!(matches!(m.tick(60 * MS), SyncAction::Nothing));
    let a = m.tick(110 * MS);
    assert_eq!(sent(&a).as_deref(), Some("two"));
    assert!(m.pending_op.is_none());
    assert_eq!(m.last_update, 110 * MS);
    // Once the interval has passed, an update goes straight out.
    let a = m.update(&activity("three"), 300 * MS);
    assert_eq!(sent(&a).as_deref(), Some("three"));
}

#[test]
fn defer_mode_holds_back_a_clear_too() {
    let mut m = ActivityManager::new(0);
    m.set_config(sync(SyncMode::Defer, false, false));
    assert!(matches!(m.clear(0), SyncAction::Clear));
    m.confirm_clear(0);
    assert!(matches!(m.clear(10 * MS), SyncAction::Nothing));
    assert!(matches!(m.pending_op, Some(PendingOp::Clear)));
    assert!(matches!(m.tick(200 * MS), SyncAction::Clear));
    assert!(m.pending_op.is_none());
}

#[test]
fn periodic_mode_resends_the_activity() {
    let mut m = ActivityManager::new(0);
    m.set_config(sync(SyncMode::Periodic, false, false));
    let a = m.update(&activity("one"), 5 * MS);
    assert_eq!(sent(&a).as_deref(), Some("one"));
    m.confirm_update(&activity("one"), 5 * MS);
    assert!(matches!(m.tick(50 * MS), SyncAction::Nothing));
    let a = m.tick(100 * MS);
    assert_eq!(sent(&a).as_deref(), Some("one"));
    assert_eq!(m.last_periodic_sync, 100 * MS);
    assert_eq!(m.last_update, 5 * MS);
    m.confirm_clear(120 * MS);
    assert!(matches!(m.tick(250 * MS), SyncAction::Clear));
}

#[test]
fn periodic_mode_with_reset_counts_from_the_last_update() {
    let mut m = ActivityManager::new(0);
    m.set_config(sync(SyncMode::Periodic, true, false));
    m.confirm_update(&activity("one"), 90 * MS);
    assert!(matches!(m.tick(150 * MS), SyncAction::Nothing));
    let a = m.tick(190 * MS);
    assert_eq!(sent(&a).as_deref(), Some("one"));
    assert_eq!(m.last_update, 190 * MS);
}

#[test]
fn padding_stretches_what_is_sent() {
    let mut m = ActivityManager::new(0);
    m.set_config(sync(SyncMode::Periodic, false, true));
    match m.update(&activity("one"), 0) {
        SyncAction::Send(x) => {
            let d = x.details.unwrap();
            assert!(d.starts_with("one"));
            assert!(d.len() >= 6 && d.len() <= 128);
        }
        other => panic!("unexpected {:?}", other),
    }
}

#[test]
fn with_syncing_off_nothing_is_kept() {
    let mut m = ActivityManager::new(0);
    m.set_config(SyncConfig { enabled: false, pad: false, ..SyncConfig::default() });
    assert_eq!(sent(&m.update(&activity("x"), 0)).as_deref(), Some("x"));
    m.confirm_update(&activity("x"), 10);
    assert!(m.last_activity.is_none());
    assert!(matches!(m.tick(u128::MAX), SyncAction::Nothing));
    assert!(matches!(m.clear(5), SyncAction::Clear));
}

#[test]
fn sessions_are_kept_by_id() {
    let mut sm: SessionManager<u32> = SessionManager::new();
    assert_eq!(sm.len(), 0);
    sm.create_session(1, 100);
    sm.create_session(2, 200);
    assert_eq!(sm.len(), 2);
    assert_eq!(sm.get_session(1).unwrap().pipe_client, Some(100));
    sm.get_session_mut(2).unwrap().set_workspace("cord".to_string());
    assert_eq!(sm.get_session(2).unwrap().workspace.as_deref(), Some("cord"));
    // Creating a session for a known id replaces it.
    sm.create_session(1, 111);
    assert_eq!(sm.len(), 2);
    assert_eq!(sm.get_session(1).unwrap().pipe_client, Some(111));
    sm.remove_session(1);
    assert!(sm.get_session(1).is_none());
    assert_eq!(sm.len(), 1);
    sm.remove_session(42);
    assert_eq!(sm.len(), 1);
}

#[test]
fn the_latest_activities_are_found() {
    let mut sm: SessionManager<u32> = SessionManager::new();
    let mut a = Session::new();
    a.last_activity = Some(activity("a"));
    a.last_updated = 5;
    let mut b = Session::new();
    let mut idle = activity("b");
    idle.is_idle = true;
    b.last_activity = Some(idle);
    b.last_updated = 9;
    sm.insert(1, a);
    sm.insert(2, b);
    assert_eq!(sm.latest_activity(None).unwrap().details.as_deref(), Some("a"));
    assert_eq!(sm.latest_activity(Some(1)).unwrap().details.as_deref(), Some("b"));
    assert_eq!(sm.latest_non_idle_activity(3).unwrap().details.as_deref(), Some("a"));
    assert!(sm.latest_non_idle_activity(1).is_none());
}

#[test]
fn a_session_remembers_what_it_is_told() {
    let mut s: Session<u32> = Session::new();
    s.set_timestamp(10);
    s.set_last_activity(activity("x"));
    s.set_pipe_client(4);
    assert_eq!(s.timestamp, Some(10));
    assert_eq!(s.get_pipe_client(), Some(&4));
    assert!(s.get_config().is_none());
    *s.get_pipe_client_mut().unwrap() = 9;
    assert_eq!(s.pipe_client, Some(9));
    let mut t: Session<u32> = Session::new();
    assert!(t.get_pipe_client_mut().is_none());
}

#[test]
fn cancelling_a_reconnect_hands_back_its_token() {
    let mut r: ReconnectState<u64> = ReconnectState::new();
    assert!(!r.in_progress);
    assert_eq!(r.cancel(), None);
    r.in_progress = true;
    r.cancel = Some(5);
    assert_eq!(r.cancel(), Some(5));
}
