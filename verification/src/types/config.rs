use vstd::prelude::*;
use vstd::string::StringExecFns;

use crate::error::CordError;
use crate::protocol::msgpack::fields::{
    bool_field, bool_under, get_bool, get_str, get_uint, str_field, uint_field, uint_under,
};
use crate::protocol::msgpack::value::{
    dict_get, dict_get_entry, entries_view, items_view, lemma_items_view, Value, ValueView,
};
use crate::util::logger::LogLevel;
use crate::util::text::str_eq;

verus! {

/// What the editor plugin configures on the server.
#[derive(Debug, Clone)]
pub struct PluginConfig {
    pub log_level: LogLevel,
    pub timestamp: TimestampConfig,
    pub advanced: AdvancedConfig,
}

/// Whether all editors share one start time.
#[derive(Debug, Clone, Copy, PartialEq, Eq, Structural)]
pub struct TimestampConfig {
    pub shared: bool,
}

#[derive(Debug, Clone)]
pub struct AdvancedConfig {
    pub discord: AdvancedDiscordConfig,
}

/// Where to find Discord, and how to keep the activity in sync.
#[derive(Debug, Clone)]
pub struct AdvancedDiscordConfig {
    pub pipe_paths: Vec<String>,
    pub sync: SyncConfig,
}

/// When activity changes reach Discord: right away with a periodic resend,
/// or held back until an interval has passed since the last one.
#[derive(Debug, Clone, Copy, PartialEq, Eq, Structural)]
pub enum SyncMode {
    Periodic,
    Defer,
}

/// How the activity is kept in sync with Discord.
#[derive(Debug, Clone, Copy, PartialEq, Eq, Structural)]
pub struct SyncConfig {
    pub enabled: bool,
    pub mode: SyncMode,
    /// Milliseconds.
    pub interval: u64,
    pub reset_on_update: bool,
    pub pad: bool,
}

impl Default for TimestampConfig {
    fn default() -> (r: TimestampConfig)
        ensures
            r == (TimestampConfig { shared: false }),
    {
        TimestampConfig { shared: false }
    }
}

impl Default for SyncMode {
    fn default() -> (r: SyncMode)
        ensures
            r == SyncMode::Periodic,
    {
        SyncMode::Periodic
    }
}

/// The sync settings used when none are configured.
pub open spec fn default_sync() -> SyncConfig {
    SyncConfig {
        enabled: true,
        mode: SyncMode::Periodic,
        interval: 12000,
        reset_on_update: true,
        pad: true,
    }
}

impl Default for SyncConfig {
    fn default() -> (r: SyncConfig)
        ensures
            r == default_sync(),
    {
        SyncConfig {
            enabled: true,
            mode: SyncMode::Periodic,
            interval: 12000,
            reset_on_update: true,
            pad: true,
        }
    }
}

impl Default for AdvancedDiscordConfig {
    fn default() -> (r: AdvancedDiscordConfig)
        ensures
            r.pipe_paths@.len() == 0,
            r.sync == default_sync(),
    {
        AdvancedDiscordConfig { pipe_paths: Vec::new(), sync: SyncConfig::default() }
    }
}

impl Default for AdvancedConfig {
    fn default() -> (r: AdvancedConfig)
        ensures
            r.discord.pipe_paths@.len() == 0,
            r.discord.sync == default_sync(),
    {
        AdvancedConfig { discord: AdvancedDiscordConfig::default() }
    }
}

/// The sync mode a name stands for.
pub open spec fn sync_mode_of(s: Option<Seq<char>>) -> Option<SyncMode> {
    match s {
        Some(n) => if n == "periodic"@ {
            Some(SyncMode::Periodic)
        } else if n == "defer"@ {
            Some(SyncMode::Defer)
        } else {
            None
        },
        None => None,
    }
}

/// The first of the required sync settings that is missing or malformed.
pub open spec fn sync_missing(e: Seq<(Seq<char>, ValueView)>) -> Option<Seq<char>> {
    if bool_field(e, "enabled"@) is None {
        Some("enabled"@)
    } else if sync_mode_of(str_field(e, "mode"@)) is None {
        Some("mode"@)
    } else if uint_field(e, "interval"@) is None {
        Some("interval"@)
    } else if bool_field(e, "pad"@) is None {
        Some("pad"@)
    } else if bool_field(e, "reset_on_update"@) is None {
        Some("reset_on_update"@)
    } else {
        None
    }
}

/// The sync settings read from a map's entries, when none is missing.
pub open spec fn sync_from(e: Seq<(Seq<char>, ValueView)>) -> SyncConfig {
    SyncConfig {
        enabled: bool_field(e, "enabled"@)->0,
        mode: sync_mode_of(str_field(e, "mode"@))->0,
        interval: uint_field(e, "interval"@)->0,
        reset_on_update: bool_field(e, "reset_on_update"@)->0,
        pad: bool_field(e, "pad"@)->0,
    }
}

/// The sync settings a decoded part gives, if it gives any.
pub open spec fn sync_of(v: ValueView) -> Option<SyncConfig> {
    match v {
        ValueView::Dict(e) => if sync_missing(e) is None {
            Some(sync_from(e))
        } else {
            None
        },
        _ => None,
    }
}

/// The name a sync mode goes by in the settings.
pub open spec fn sync_mode_name(m: SyncMode) -> Seq<char> {
    match m {
        SyncMode::Periodic => "periodic"@,
        SyncMode::Defer => "defer"@,
    }
}

/// Sync settings are read key by key: a map reads as the settings `c`
/// exactly when `enabled`, `pad` and `reset_on_update` each hold, as a
/// boolean, the field of that very name, `interval` holds its number, and
/// `mode` holds the name of its mode.
pub proof fn lemma_sync_read_by_key(e: Seq<(Seq<char>, ValueView)>, c: SyncConfig)
    ensures
        sync_of(ValueView::Dict(e)) == Some(c) <==> {
            &&& bool_under(e, "enabled"@, c.enabled)
            &&& bool_under(e, "pad"@, c.pad)
            &&& bool_under(e, "reset_on_update"@, c.reset_on_update)
            &&& uint_under(e, "interval"@, c.interval)
            &&& dict_get(e, "mode"@) == Some(ValueView::String(sync_mode_name(c.mode)))
        },
{
    reveal_strlit("periodic");
    reveal_strlit("defer");
    assert("periodic"@.len() == 8 && "defer"@.len() == 5);
}

/// The sync settings stored at `advanced.discord.sync` of a plugin's
/// configuration, when they are there and read as settings.
pub open spec fn nested_sync(e: Seq<(Seq<char>, ValueView)>) -> Option<SyncConfig> {
    match dict_get(e, "advanced"@) {
        Some(ValueView::Dict(a)) => match dict_get(a, "discord"@) {
            Some(ValueView::Dict(d)) => match dict_get(d, "sync"@) {
                Some(v) => sync_of(v),
                None => None,
            },
            _ => None,
        },
        _ => None,
    }
}

/// A read plugin configuration has the level whose code is stored under
/// `log_level`; it shares one start time exactly when `timestamp.shared`
/// holds `true`; and it keeps activity in sync as `advanced.discord.sync`
/// says when that reads as sync settings, and by the defaults otherwise.
pub proof fn lemma_plugin_read_by_key(e: Seq<(Seq<char>, ValueView)>, c: PluginConfig)
    requires
        plugin_config_result(ValueView::Dict(e), Ok(c)),
    ensures
        uint_under(e, "log_level"@, c.log_level.spec_code() as u64),
        c.timestamp.shared <==> (dict_get(e, "timestamp"@) matches Some(ValueView::Dict(t)) && bool_under(
            t,
            "shared"@,
            true,
        )),
        c.advanced.discord.sync == match nested_sync(e) {
            Some(s) => s,
            None => default_sync(),
        },
{
}

/// The texts of `items`, when every item is a string.
pub open spec fn all_strings(items: Seq<ValueView>) -> Option<Seq<Seq<char>>>
    decreases items.len(),
{
    if items.len() == 0 {
        Some(Seq::empty())
    } else {
        match (all_strings(items.drop_last()), items.last()) {
            (Some(rest), ValueView::String(s)) => Some(rest.push(s)),
            _ => None,
        }
    }
}

/// The views of texts.
pub open spec fn strings_view(v: Seq<String>) -> Seq<Seq<char>> {
    v.map_values(|s: String| s@)
}

/// The pipe paths a decoded part gives: an array of strings, else none.
pub open spec fn pipe_paths_of(v: Option<ValueView>) -> Seq<Seq<char>> {
    match v {
        Some(ValueView::Array(items)) => match all_strings(items) {
            Some(paths) => paths,
            None => Seq::empty(),
        },
        _ => Seq::empty(),
    }
}

/// The Discord settings read from a map's entries.
pub open spec fn discord_from(e: Seq<(Seq<char>, ValueView)>, c: AdvancedDiscordConfig) -> bool {
    &&& strings_view(c.pipe_paths@) == pipe_paths_of(dict_get(e, "pipe_paths"@))
    &&& c.sync == match dict_get(e, "sync"@) {
        Some(v) => match sync_of(v) {
            Some(s) => s,
            None => default_sync(),
        },
        None => default_sync(),
    }
}

/// The plugin configuration read from a map's entries, once its level is
/// known.
pub open spec fn plugin_from(e: Seq<(Seq<char>, ValueView)>, c: PluginConfig) -> bool {
    &&& c.timestamp.shared == match dict_get(e, "timestamp"@) {
        Some(ValueView::Dict(t)) => match bool_field(t, "shared"@) {
            Some(b) => b,
            None => false,
        },
        _ => false,
    }
    &&& match dict_get(e, "advanced"@) {
        Some(ValueView::Dict(a)) => match dict_get(a, "discord"@) {
            Some(ValueView::Dict(d)) => discord_from(d, c.advanced.discord),
            _ => c.advanced.discord.pipe_paths@.len() == 0 && c.advanced.discord.sync
                == default_sync(),
        },
        _ => c.advanced.discord.pipe_paths@.len() == 0 && c.advanced.discord.sync
            == default_sync(),
    }
}

/// The texts of an array of strings; `None` when some item is not one.
pub(crate) fn strings_from_items(items: &[Value]) -> (r: Option<Vec<String>>)
    ensures
        match all_strings(items_view(items@)) {
            Some(s) => r matches Some(v) && strings_view(v@) == s,
            None => r is None,
        },
{
    let ghost iv = items_view(items@);
    proof {
        lemma_items_view(items@);
    }
    let mut out: Vec<String> = Vec::new();
    let mut i: usize = 0;
    while i < items.len()
        invariant
            i <= items@.len(),
            iv == items_view(items@),
            iv.len() == items@.len(),
            forall|j: int| 0 <= j < items@.len() ==> #[trigger] iv[j] == items@[j]@,
            all_strings(iv.subrange(0, i as int)) == Some(strings_view(out@)),
        decreases items@.len() - i,
    {
        assert(iv.subrange(0, i + 1).drop_last() =~= iv.subrange(0, i as int));
        assert(iv.subrange(0, i + 1).last() == items@[i as int]@);
        match items[i].as_str() {
            Some(s) => {
                let ghost before = out@;
                out.push(String::from_str(s));
                assert(strings_view(out@) =~= strings_view(before).push(s@));
            },
            None => {
                proof {
                    lemma_all_strings_prefix(iv, i as int + 1);
                }
                return None;
            },
        }
        i = i + 1;
    }
    assert(iv.subrange(0, items@.len() as int) =~= iv);
    Some(out)
}

/// A list with a non-string item in some prefix has no texts.
proof fn lemma_all_strings_prefix(items: Seq<ValueView>, n: int)
    requires
        0 <= n <= items.len(),
        all_strings(items.subrange(0, n)) is None,
    ensures
        all_strings(items) is None,
    decreases items.len() - n,
{
    if n < items.len() {
        assert(items.subrange(0, n + 1).drop_last() =~= items.subrange(0, n));
        lemma_all_strings_prefix(items, n + 1);
    } else {
        assert(items.subrange(0, n) =~= items);
    }
}

/// What reading the plugin's configuration from a decoded part gives.
pub open spec fn plugin_config_result(v: ValueView, r: Result<PluginConfig, CordError>) -> bool {
    match v {
        ValueView::Dict(e) => match uint_field(e, "log_level"@) {
            None => r matches Err(CordError::MissingField(f)) && f@ == "log_level"@,
            Some(n) => match LogLevel::spec_try_from_u64(n) {
                Ok(level) => r matches Ok(c) && c.log_level == level && plugin_from(e, c),
                Err(_) => r matches Err(CordError::Invalid(m)) && m@ == "Invalid log level"@,
            },
        },
        _ => r matches Err(CordError::Invalid(m)) && m@ == "Invalid config"@,
    }
}

impl TimestampConfig {
    /// Reads the timestamp settings: a map with the boolean `shared`.
    pub fn deserialize(input: Value) -> (r: Result<TimestampConfig, CordError>)
        ensures
            match input@ {
                ValueView::Dict(e) => match bool_field(e, "shared"@) {
                    Some(b) => r matches Ok(c) && c.shared == b,
                    None => r matches Err(CordError::MissingField(f)) && f@ == "shared"@,
                },
                _ => r matches Err(CordError::Invalid(m)) && m@ == "Invalid config"@,
            },
    {
        match input.as_map() {
            Some(e) => match get_bool(e, "shared") {
                Some(shared) => Ok(TimestampConfig { shared }),
                None => Err(CordError::MissingField("shared")),
            },
            None => Err(CordError::Invalid("Invalid config")),
        }
    }
}

impl SyncConfig {
    fn from_entries(e: &Vec<(String, Value)>) -> (r: Result<SyncConfig, CordError>)
        ensures
            match sync_missing(entries_view(e@)) {
                Some(f) => r matches Err(CordError::MissingField(g)) && g@ == f,
                None => r == Ok::<SyncConfig, CordError>(sync_from(entries_view(e@))),
            },
    {
        let enabled = match get_bool(e, "enabled") {
            Some(b) => b,
            None => return Err(CordError::MissingField("enabled")),
        };
        let mode = match dict_get_entry(e, "mode") {
            Some(v) => match v.as_str() {
                Some(s) => if str_eq(s, "periodic") {
                    SyncMode::Periodic
                } else if str_eq(s, "defer") {
                    SyncMode::Defer
                } else {
                    return Err(CordError::MissingField("mode"));
                },
                None => return Err(CordError::MissingField("mode")),
            },
            None => return Err(CordError::MissingField("mode")),
        };
        let interval = match get_uint(e, "interval") {
            Some(n) => n,
            None => return Err(CordError::MissingField("interval")),
        };
        let pad = match get_bool(e, "pad") {
            Some(b) => b,
            None => return Err(CordError::MissingField("pad")),
        };
        let reset_on_update = match get_bool(e, "reset_on_update") {
            Some(b) => b,
            None => return Err(CordError::MissingField("reset_on_update")),
        };
        Ok(SyncConfig { enabled, mode, interval, reset_on_update, pad })
    }

    /// Reads the sync settings: a map with the boolean `enabled`, the mode
    /// `periodic` or `defer`, the unsigned `interval`, and the booleans `pad`
    /// and `reset_on_update`, all required.
    pub fn deserialize(input: Value) -> (r: Result<SyncConfig, CordError>)
        ensures
            match input@ {
                ValueView::Dict(e) => match sync_missing(e) {
                    Some(f) => r matches Err(CordError::MissingField(g)) && g@ == f,
                    None => r == Ok::<SyncConfig, CordError>(sync_from(e)),
                },
                _ => r matches Err(CordError::Invalid(m)) && m@ == "Invalid config"@,
            },
    {
        match input.as_map() {
            Some(e) => Self::from_entries(e),
            None => Err(CordError::Invalid("Invalid config")),
        }
    }
}

impl AdvancedDiscordConfig {
    fn from_entries(e: &Vec<(String, Value)>) -> (r: AdvancedDiscordConfig)
        ensures
            discord_from(entries_view(e@), r),
    {
        let pipe_paths = match dict_get_entry(e, "pipe_paths") {
            Some(v) => match v.as_array() {
                Some(items) => match strings_from_items(items) {
                    Some(p) => p,
                    None => Vec::new(),
                },
                None => Vec::new(),
            },
            None => Vec::new(),
        };
        let sync = match dict_get_entry(e, "sync") {
            Some(v) => match v.as_map() {
                Some(m) => match SyncConfig::from_entries(m) {
                    Ok(s) => s,
                    Err(_) => SyncConfig::default(),
                },
                None => SyncConfig::default(),
            },
            None => SyncConfig::default(),
        };
        assert(strings_view(Seq::<String>::empty()) =~= Seq::empty());
        AdvancedDiscordConfig { pipe_paths, sync }
    }

    /// Reads the Discord settings: a map whose `pipe_paths` is taken when it
    /// is an array of strings, and whose `sync` is taken when it reads as
    /// sync settings; the defaults stand in otherwise.
    pub fn deserialize(input: Value) -> (r: Result<AdvancedDiscordConfig, CordError>)
        ensures
            match input@ {
                ValueView::Dict(e) => r matches Ok(c) && discord_from(e, c),
                _ => r matches Err(CordError::Invalid(m)) && m@ == "Invalid config"@,
            },
    {
        match input.as_map() {
            Some(e) => Ok(Self::from_entries(e)),
            None => Err(CordError::Invalid("Invalid config")),
        }
    }
}

impl AdvancedConfig {
    /// Reads the advanced settings: a map whose `discord` entry, required,
    /// is a map of Discord settings.
    pub fn deserialize(input: Value) -> (r: Result<AdvancedConfig, CordError>)
        ensures
            match input@ {
                ValueView::Dict(e) => match dict_get(e, "discord"@) {
                    Some(ValueView::Dict(d)) => r matches Ok(c) && discord_from(d, c.discord),
                    _ => r matches Err(CordError::MissingField(f)) && f@ == "discord"@,
                },
                _ => r matches Err(CordError::Invalid(m)) && m@ == "Invalid config"@,
            },
    {
        match input.as_map() {
            Some(e) => match dict_get_entry(e, "discord") {
                Some(v) => match v.as_map() {
                    Some(d) => Ok(AdvancedConfig { discord: AdvancedDiscordConfig::from_entries(d) }),
                    None => Err(CordError::MissingField("discord")),
                },
                None => Err(CordError::MissingField("discord")),
            },
            None => Err(CordError::Invalid("Invalid config")),
        }
    }
}

impl PluginConfig {
    /// Reads the plugin's configuration: a map with the unsigned
    /// `log_level`, which must be a level's code, and the optional
    /// `timestamp` and `advanced` settings, whose defaults stand in where
    /// they are absent or malformed.
    pub fn deserialize(input: Value) -> (r: Result<PluginConfig, CordError>)
        ensures
            plugin_config_result(input@, r),
    {
        Self::from_value(&input)
    }

    /// Reads the plugin's configuration from a decoded part; see
    /// `deserialize`.
    pub(crate) fn from_value(input: &Value) -> (r: Result<PluginConfig, CordError>)
        ensures
            plugin_config_result(input@, r),
    {
        let e = match input.as_map() {
            Some(e) => e,
            None => return Err(CordError::Invalid("Invalid config")),
        };
        let code = match get_uint(e, "log_level") {
            Some(n) => n,
            None => return Err(CordError::MissingField("log_level")),
        };
        let log_level = match LogLevel::try_from(code) {
            Ok(l) => l,
            Err(_) => return Err(CordError::Invalid("Invalid log level")),
        };
        let timestamp = match dict_get_entry(e, "timestamp") {
            Some(v) => match v.as_map() {
                Some(t) => match get_bool(t, "shared") {
                    Some(shared) => TimestampConfig { shared },
                    None => TimestampConfig::default(),
                },
                None => TimestampConfig::default(),
            },
            None => TimestampConfig::default(),
        };
        let advanced = match dict_get_entry(e, "advanced") {
            Some(v) => match v.as_map() {
                Some(a) => match dict_get_entry(a, "discord") {
                    Some(d) => match d.as_map() {
                        Some(dm) => AdvancedConfig { discord: AdvancedDiscordConfig::from_entries(dm) },
                        None => AdvancedConfig::default(),
                    },
                    None => AdvancedConfig::default(),
                },
                None => AdvancedConfig::default(),
            },
            None => AdvancedConfig::default(),
        };
        Ok(PluginConfig { log_level, timestamp, advanced })
    }
}

} // verus!
