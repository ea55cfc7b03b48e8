use lib::error::CordError;
use lib::messages::events::event::Event;
use lib::messages::events::server::ServerEvent;
use lib::presence::types::ActivityButton;
use lib::protocol::error::ProtocolError;
use lib::types::constants::client_id;
use lib::types::{needs_git_repository, validate_buttons, Config};
use lib::util::logger::{LogLevel, Logger};
use lib::util::text::{push_hex, str_eq, to_decimal};
use lib::util::types::AssetType;
use lib::util::{now, pad_activity_field, MAX_FIELD_LEN};
use lib::utils::{build_presence, get_presence_state, replace_braces, Filetype};

fn button(label: &str, url: &str) -> ActivityButton {
    ActivityButton { label: label.to_string(), url: url.to_string() }
}

fn legacy_config() -> Config {
    Config {
        log_level: LogLevel::Info,
        viewing_text: "Viewing {}".to_string(),
        editing_text: "Editing {}".to_string(),
        file_browser_text: "Browsing files in {}".to_string(),
        plugin_manager_text: "Managing plugins in {}".to_string(),
        lsp_manager_text: "Managing language servers in {}".to_string(),
        vcs_text: "Committing changes in {}".to_string(),
        workspace_text: "In {}".to_string(),
        workspace: "cord".to_string(),
        editor_image: String::new(),
        editor_tooltip: "Neovim".to_string(),
        idle_text: "Idle".to_string(),
        idle_tooltip: "Idle".to_string(),
        workspace_blacklist: Vec::new(),
        swap_fields: false,
        swap_icons: false,
        buttons: Vec::new(),
        timestamp: None,
    }
}

#[test]
fn log_levels_travel_as_codes() {
    let levels = [
        LogLevel::Trace,
        LogLevel::Debug,
        LogLevel::Info,
        LogLevel::Warn,
        LogLevel::Error,
        LogLevel::Off,
    ];
    for (i, l) in levels.iter().enumerate() {
        assert_eq!(l.code() as usize, i);
        assert_eq!(LogLevel::from(i as u8), *l);
        assert_eq!(LogLevel::try_from(i as u64), Ok(*l));
    }
    assert_eq!(LogLevel::from(200u8), LogLevel::Off);
    assert_eq!(LogLevel::try_from(6u64), Err(()));
}

#[test]
fn the_logger_logs_the_severe_enough() {
    let mut logger = Logger::new(LogLevel::Warn);
    assert!(!logger.would_log(LogLevel::Info));
    assert!(logger.would_log(LogLevel::Warn));
    assert!(logger.would_log(LogLevel::Error));
    assert!(!logger.would_log(LogLevel::Off));
    assert!(logger.log(LogLevel::Debug, "quiet".to_string(), 1).is_none());
    let m = logger.log(LogLevel::Error, "loud".to_string(), 7).unwrap();
    assert_eq!(m.client_id, 7);
    match m.event {
        Event::Server(ServerEvent::Log(e)) => {
            assert_eq!(e.message, "loud");
            assert_eq!(e.level, LogLevel::Error);
        }
        other => panic!("unexpected {:?}", other),
    }
    logger.set_level(LogLevel::Trace);
    assert!(logger.would_log(LogLevel::Trace));
    let m = logger.log_cb(LogLevel::Info, 2, || "made".to_string()).unwrap();
    assert_eq!(m.client_id, 2);
    let m = logger.log_raw(LogLevel::Off, "always".to_string(), 3);
    assert_eq!(m.client_id, 3);
    let m = logger.log_raw_cb(LogLevel::Off, 4, || "always".to_string());
    assert_eq!(m.client_id, 4);
}

#[test]
fn asset_types_are_read_by_name() {
    assert_eq!(AssetType::try_from("language"), Ok(AssetType::Language));
    assert_eq!(AssetType::try_from("file_browser"), Ok(AssetType::FileBrowser));
    assert_eq!(AssetType::try_from("plugin_manager"), Ok(AssetType::PluginManager));
    assert_eq!(AssetType::try_from("lsp_manager"), Ok(AssetType::LspManager));
    assert_eq!(AssetType::try_from("vcs"), Ok(AssetType::Vcs));
    assert_eq!(AssetType::try_from("Language"), Err(()));
}

#[test]
fn editors_have_their_discord_applications() {
    assert_eq!(client_id("vim"), Some(1219918645770059796));
    assert_eq!(client_id("neovim"), Some(1219918880005165137));
    assert_eq!(client_id("lunarvim"), Some(1220295374087000104));
    assert_eq!(client_id("nvchad"), Some(1220296082861326378));
    assert_eq!(client_id("astronvim"), Some(1230866983977746532));
    assert_eq!(client_id("emacs"), None);
}

#[test]
fn padding_adds_between_three_spaces_and_the_limit() {
    for _ in 0..20 {
        let mut f = Some("abc".to_string());
        pad_activity_field(&mut f);
        let s = f.unwrap();
        assert!(s.starts_with("abc"));
        let added = s.len() - 3;
        assert!(added >= 3 && added <= MAX_FIELD_LEN as usize - 3);
        assert!(s[3..].chars().all(|c| c == ' '));
    }
    let mut none: Option<String> = None;
    pad_activity_field(&mut none);
    assert!(none.is_none());
    let long = "x".repeat(130);
    let mut f = Some(long.clone());
    pad_activity_field(&mut f);
    assert_eq!(f.unwrap(), long);
    let mut f = Some("y".repeat(126));
    pad_activity_field(&mut f);
    assert_eq!(f.unwrap().len(), 128);
}

#[test]
fn braces_are_replaced_left_to_right() {
    assert_eq!(replace_braces("Editing {}", "main.rs"), "Editing main.rs");
    assert_eq!(replace_braces("{}{}", "a"), "aa");
    assert_eq!(replace_braces("{{}}", "x"), "{x}");
    assert_eq!(replace_braces("no braces", "x"), "no braces");
    assert_eq!(replace_braces("{", "x"), "{");
}

#[test]
fn the_status_line_names_the_workspace_and_problems() {
    let c = legacy_config();
    assert_eq!(get_presence_state(&c, "cord", 3), Some("In cord - 3 problems".to_string()));
    assert_eq!(get_presence_state(&c, "cord", -1), Some("In cord".to_string()));
    assert_eq!(get_presence_state(&c, "cord", -5), Some("In cord - -5 problems".to_string()));
    assert_eq!(
        get_presence_state(&c, "cord", i32::MIN),
        Some("In cord - -2147483648 problems".to_string())
    );
    assert_eq!(get_presence_state(&c, "", 3), None);
    let mut c2 = legacy_config();
    c2.workspace_text = String::new();
    assert_eq!(get_presence_state(&c2, "cord", 3), None);
}

#[test]
fn presences_by_kind_of_buffer() {
    let c = legacy_config();
    let base = "https://example.com/assets";
    let (d, img, tip) = build_presence(
        &c,
        "main.rs",
        "rust",
        Filetype::Language("rust", "Rust"),
        false,
        Some("10:4"),
        base,
    );
    assert_eq!(d, "Editing main.rs:10:4");
    assert_eq!(img, "https://example.com/assets/language/rust.png?v=2");
    assert_eq!(tip, "Rust");
    let (d, _, _) =
        build_presence(&c, "main.rs", "rust", Filetype::Language("rust", "Rust"), true, None, base);
    assert_eq!(d, "Viewing main.rs");
    let (d, img, _) = build_presence(&c, "", "", Filetype::Language("rust", "Rust"), true, None, base);
    assert_eq!(d, "Editing a new file");
    assert_eq!(img, "https://example.com/assets/language/text.png?v=2");
    let (d, img, tip) =
        build_presence(&c, "x", "netrw", Filetype::FileBrowser("netrw", "Netrw"), false, None, base);
    assert_eq!(d, "Browsing files in Netrw");
    assert_eq!(img, "https://example.com/assets/file_browser/netrw.png?v=2");
    assert_eq!(tip, "Netrw");
    let (d, img, _) =
        build_presence(&c, "x", "lazy", Filetype::PluginManager("lazy", "Lazy"), false, None, base);
    assert_eq!(d, "Managing plugins in Lazy");
    assert_eq!(img, "https://example.com/assets/plugin_manager/lazy.png?v=2");
}

#[test]
fn buttons_keep_the_first_two_shown_ones() {
    let mut bs = vec![button("Site", "https://a"), button("", "https://b"), button("C", "https://c")];
    validate_buttons(&mut bs, None);
    assert_eq!(bs.len(), 1);
    assert_eq!(bs[0].label, "Site");

    let mut bs = vec![button("Repo", "git"), button("Mail", "mailto:x")];
    assert!(needs_git_repository(&bs));
    validate_buttons(&mut bs, Some("https://github.com/x/y".to_string()));
    assert_eq!(bs.len(), 1);
    assert_eq!(bs[0].url, "https://github.com/x/y");

    let mut bs = vec![button("Repo", "git"), button("Site", "http://s")];
    validate_buttons(&mut bs, None);
    assert_eq!(bs.len(), 1);
    assert_eq!(bs[0].label, "Site");

    let bs = vec![button("A", "https://a"), button("B", "https://b"), button("Repo", "git")];
    assert!(!needs_git_repository(&bs));
}

#[test]
fn errors_describe_themselves() {
    assert_eq!(
        CordError::MissingField("data").message(),
        "Missing or invalid 'data' field"
    );
    assert_eq!(CordError::Invalid("Invalid message").message(), "Invalid message");
    assert_eq!(
        CordError::UnknownMessageType("x".to_string()).message(),
        "Unknown message type: x"
    );
    assert_eq!(CordError::Other("oops".to_string()).message(), "oops");
    assert_eq!(
        CordError::Protocol(ProtocolError::UnexpectedChar('x')).message(),
        "Unexpected character: 'x'"
    );
    assert_eq!(ProtocolError::UnexpectedByte(0xc1).message(), "Unexpected byte: 0xc1");
    assert_eq!(ProtocolError::UnexpectedByte(5).message(), "Unexpected byte: 0x5");
    assert_eq!(ProtocolError::InvalidSyntax("x").message(), "Invalid syntax: x");
    assert_eq!(ProtocolError::InvalidLength.message(), "Invalid data length");
    assert_eq!(ProtocolError::InvalidMapKey.message(), "Invalid map key");
    assert_eq!(ProtocolError::InvalidUtf8.message(), "Invalid utf8");
    assert_eq!(ProtocolError::UnexpectedEnd.message(), "Unexpected end of input");
}

#[test]
fn numbers_in_text() {
    assert_eq!(to_decimal(0), "0");
    assert_eq!(to_decimal(1234567890), "1234567890");
    assert_eq!(to_decimal(u128::MAX), u128::MAX.to_string());
    let mut s = String::new();
    push_hex(&mut s, 0xc1);
    assert_eq!(s, "c1");
    assert!(str_eq("abc", "abc"));
    assert!(!str_eq("abc", "abd"));
}

#[test]
fn the_clock_is_past_the_epoch() {
    assert!(now().unwrap().as_secs() > 1_600_000_000);
}
