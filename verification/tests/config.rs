use lib::error::CordError;
use lib::presence::activity::{
    Activity, ActivityAssets, ActivityButton, ActivityTimestamps, ActivityType, StatusDisplayType,
};
use lib::presence::context::ActivityContext;
use lib::protocol::msgpack::value::Value;
use lib::types::config::{
    AdvancedConfig, AdvancedDiscordConfig, PluginConfig, SyncConfig, SyncMode, TimestampConfig,
};
use lib::types::Config;
use lib::util::logger::LogLevel;

fn s(x: &str) -> Value {
    Value::String(x.to_string())
}

fn dict(entries: Vec<(&str, Value)>) -> Value {
    Value::Dict(entries.into_iter().map(|(k, v)| (k.to_string(), v)).collect())
}

fn sync_value(mode: &str) -> Value {
    dict(vec![
        ("enabled", Value::Boolean(true)),
        ("mode", s(mode)),
        ("interval", Value::UInteger(3000)),
        ("pad", Value::Boolean(false)),
        ("reset_on_update", Value::Boolean(false)),
    ])
}

fn legacy_entries() -> Vec<(&'static str, Value)> {
    vec![
        ("log_level", Value::UInteger(2)),
        ("viewing_text", s("Viewing {}")),
        ("editing_text", s("Editing {}")),
        ("file_browser_text", s("Browsing {}")),
        ("plugin_manager_text", s("Plugins {}")),
        ("lsp_manager_text", s("LSP {}")),
        ("vcs_text", s("VCS {}")),
        ("workspace_text", s("In {}")),
        ("workspace", s("/home/me/cord")),
        ("editor_image", s("neovim")),
        ("editor_tooltip", s("Neovim")),
        ("idle_text", s("Idle")),
        ("idle_tooltip", s("Zzz")),
        ("workspace_blacklist", Value::Array(vec![s("/tmp")])),
        ("swap_fields", Value::Boolean(false)),
        ("swap_icons", Value::Boolean(true)),
    ]
}

#[test]
fn sync_settings_default_and_read() {
    let d = SyncConfig::default();
    assert!(d.enabled);
    assert_eq!(d.mode, SyncMode::Periodic);
    assert_eq!(d.interval, 12000);
    assert!(d.reset_on_update);
    assert!(d.pad);
    let c = SyncConfig::deserialize(sync_value("defer")).unwrap();
    assert_eq!(c.mode, SyncMode::Defer);
    assert_eq!(c.interval, 3000);
    match SyncConfig::deserialize(sync_value("sometimes")) {
        Err(CordError::MissingField(f)) => assert_eq!(f, "mode"),
        other => panic!("unexpected {:?}", other),
    }
    assert!(matches!(SyncConfig::deserialize(Value::Nil), Err(CordError::Invalid("Invalid config"))));
}

#[test]
fn timestamp_and_discord_settings() {
    assert!(TimestampConfig::deserialize(dict(vec![("shared", Value::Boolean(true))])).unwrap().shared);
    assert!(matches!(
        TimestampConfig::deserialize(dict(vec![])),
        Err(CordError::MissingField("shared"))
    ));
    let d = AdvancedDiscordConfig::deserialize(dict(vec![
        ("pipe_paths", Value::Array(vec![s("/run/a"), s("/run/b")])),
        ("sync", sync_value("periodic")),
    ]))
    .unwrap();
    assert_eq!(d.pipe_paths, vec!["/run/a".to_string(), "/run/b".to_string()]);
    assert_eq!(d.sync.interval, 3000);
    let d = AdvancedDiscordConfig::deserialize(dict(vec![
        ("pipe_paths", Value::Array(vec![s("/run/a"), Value::UInteger(1)])),
        ("sync", Value::Nil),
    ]))
    .unwrap();
    assert!(d.pipe_paths.is_empty());
    assert_eq!(d.sync, SyncConfig::default());
    let a = AdvancedConfig::deserialize(dict(vec![("discord", dict(vec![]))])).unwrap();
    assert!(a.discord.pipe_paths.is_empty());
    assert!(matches!(
        AdvancedConfig::deserialize(dict(vec![])),
        Err(CordError::MissingField("discord"))
    ));
}

#[test]
fn plugin_settings() {
    let c = PluginConfig::deserialize(dict(vec![
        ("log_level", Value::UInteger(4)),
        ("timestamp", dict(vec![("shared", Value::Boolean(true))])),
        (
            "advanced",
            dict(vec![("discord", dict(vec![("sync", sync_value("defer"))]))]),
        ),
    ]))
    .unwrap();
    assert_eq!(c.log_level, LogLevel::Error);
    assert!(c.timestamp.shared);
    assert_eq!(c.advanced.discord.sync.mode, SyncMode::Defer);
    let c = PluginConfig::deserialize(dict(vec![
        ("log_level", Value::Integer(0)),
        ("timestamp", dict(vec![])),
        ("advanced", dict(vec![])),
    ]))
    .unwrap();
    assert_eq!(c.log_level, LogLevel::Trace);
    assert!(!c.timestamp.shared);
    assert_eq!(c.advanced.discord.sync, SyncConfig::default());
    assert!(matches!(
        PluginConfig::deserialize(dict(vec![("log_level", Value::UInteger(9))])),
        Err(CordError::Invalid("Invalid log level"))
    ));
    assert!(matches!(
        PluginConfig::deserialize(dict(vec![])),
        Err(CordError::MissingField("log_level"))
    ));
}

#[test]
fn legacy_settings_are_read_in_order() {
    let c = Config::deserialize(dict(legacy_entries()), |_w: &str| None).unwrap();
    assert_eq!(c.log_level, LogLevel::Info);
    assert_eq!(c.workspace, "/home/me/cord");
    assert_eq!(c.workspace_blacklist, vec!["/tmp".to_string()]);
    assert!(c.swap_icons);
    assert!(c.buttons.is_empty());
    assert!(c.timestamp.is_none());

    let mut e = legacy_entries();
    e.retain(|(k, _)| *k != "vcs_text" && *k != "idle_text");
    match Config::deserialize(dict(e), |_w: &str| None) {
        Err(CordError::MissingField(f)) => assert_eq!(f, "vcs_text"),
        other => panic!("unexpected {:?}", other),
    }

    let mut e = legacy_entries();
    e[13] = ("workspace_blacklist", Value::Array(vec![Value::Nil]));
    assert!(matches!(
        Config::deserialize(dict(e), |_w: &str| None),
        Err(CordError::Invalid("Invalid workspace blacklist entry"))
    ));
    assert!(matches!(Config::deserialize(Value::Nil, |_w: &str| None), Err(CordError::Invalid("Invalid config"))));
}

#[test]
fn legacy_buttons_link_the_repository() {
    let mut e = legacy_entries();
    e.push((
        "buttons",
        Value::Array(vec![
            dict(vec![("label", s("Repo")), ("url", s("git"))]),
            Value::Nil,
            dict(vec![("label", s("Site")), ("url", s("https://cord.dev"))]),
            dict(vec![("label", s("Third")), ("url", s("https://x"))]),
        ]),
    ));
    let c = Config::deserialize(dict(e), |w: &str| {
        assert_eq!(w, "/home/me/cord");
        Some("https://github.com/me/cord".to_string())
    })
    .unwrap();
    assert_eq!(c.buttons.len(), 2);
    assert_eq!(c.buttons[0].url, "https://github.com/me/cord");
    assert_eq!(c.buttons[1].label, "Site");
}

#[test]
fn activities_are_read_with_their_parts() {
    let v = dict(vec![
        ("type", s("watching")),
        ("status_display_type", s("details")),
        ("details", s("Editing main.rs")),
        ("state", s("In cord")),
        (
            "assets",
            dict(vec![("large_image", s("rust")), ("small_text", s("Neovim"))]),
        ),
        (
            "timestamps",
            dict(vec![("start", Value::UInteger(100)), ("end", Value::Integer(-1))]),
        ),
        (
            "buttons",
            Value::Array(vec![
                dict(vec![("label", s("A")), ("url", s("https://a"))]),
                dict(vec![("label", s("B"))]),
            ]),
        ),
        ("is_idle", Value::Boolean(true)),
    ]);
    let a = Activity::deserialize(v).unwrap();
    assert_eq!(a.ty, ActivityType::Watching);
    assert_eq!(a.status_display_type, StatusDisplayType::Details);
    assert_eq!(a.details.as_deref(), Some("Editing main.rs"));
    assert_eq!(a.state.as_deref(), Some("In cord"));
    let assets = a.assets.unwrap();
    assert_eq!(assets.large_image.as_deref(), Some("rust"));
    assert_eq!(assets.small_text.as_deref(), Some("Neovim"));
    assert!(assets.large_text.is_none());
    assert_eq!(a.timestamps, Some(ActivityTimestamps { start: Some(100), end: None }));
    assert_eq!(a.buttons.len(), 1);
    assert!(a.is_idle);

    let a = Activity::deserialize(dict(vec![("type", s("nonsense"))])).unwrap();
    assert_eq!(a.ty, ActivityType::Playing);
    assert_eq!(a.status_display_type, StatusDisplayType::Name);
    assert!(!a.is_idle);
    assert!(a.assets.is_none());
}

#[test]
fn activity_parts_refuse_what_is_not_a_map() {
    assert!(matches!(ActivityAssets::deserialize(Value::Nil), Err(CordError::Invalid("Invalid activity assets"))));
    assert!(matches!(
        ActivityTimestamps::deserialize(Value::Nil),
        Err(CordError::Invalid("Invalid activity timestamps"))
    ));
    assert!(matches!(ActivityButton::deserialize(Value::Nil), Err(CordError::Invalid("Invalid activity button"))));
    assert!(matches!(
        ActivityButton::deserialize(dict(vec![("label", s("x"))])),
        Err(CordError::MissingField("url"))
    ));
}

#[test]
fn activity_kinds_are_read_by_name() {
    assert_eq!(ActivityType::from_str("playing"), Ok(ActivityType::Playing));
    assert_eq!(ActivityType::from_str("listening"), Ok(ActivityType::Listening));
    assert_eq!(ActivityType::from_str("watching"), Ok(ActivityType::Watching));
    assert_eq!(ActivityType::from_str("competing"), Ok(ActivityType::Competing));
    assert_eq!(ActivityType::from_str("Playing"), Err(()));
    assert_eq!(StatusDisplayType::from_str("name"), Ok(StatusDisplayType::Name));
    assert_eq!(StatusDisplayType::from_str("state"), Ok(StatusDisplayType::State));
    assert_eq!(StatusDisplayType::from_str("details"), Ok(StatusDisplayType::Details));
    assert_eq!(StatusDisplayType::from_str("other"), Err(()));
}

#[test]
fn a_buffer_context_is_read() {
    let c = ActivityContext::deserialize(dict(vec![
        ("filename", s("main.rs")),
        ("filetype", s("rust")),
        ("is_read_only", Value::Boolean(false)),
        ("cursor_position", Value::Array(vec![Value::UInteger(12), Value::Integer(4)])),
        ("problem_count", Value::Integer(-1)),
    ]))
    .unwrap();
    assert_eq!(c.filename, "main.rs");
    assert_eq!(c.filetype, "rust");
    assert!(!c.is_read_only);
    assert_eq!(c.cursor_position, Some((12, 4)));
    assert_eq!(c.problem_count, -1);

    let c = ActivityContext::deserialize(dict(vec![
        ("filename", s("")),
        ("filetype", s("")),
        ("is_read_only", Value::Boolean(true)),
        ("cursor_position", Value::Array(vec![Value::UInteger(12)])),
        ("problem_count", Value::UInteger(0x1_0000_0005)),
    ]))
    .unwrap();
    assert_eq!(c.cursor_position, None);
    assert_eq!(c.problem_count, 5);

    assert!(matches!(
        ActivityContext::deserialize(dict(vec![("filename", s("a")), ("filetype", s("b"))])),
        Err(CordError::MissingField("is_read_only"))
    ));
    assert!(matches!(
        ActivityContext::deserialize(Value::Nil),
        Err(CordError::Invalid("Invalid activity context"))
    ));
}
