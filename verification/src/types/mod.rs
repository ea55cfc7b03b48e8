pub mod config;
pub mod constants;
pub mod reconnect;

use vstd::prelude::*;
use vstd::string::StrSliceExecFns;

use crate::error::CordError;
use crate::presence::types::ActivityButton;
use crate::protocol::msgpack::fields::{
    bool_field, bool_under, get_bool, get_str, get_uint, opt_str, str_field, uint_field, uint_under,
};
use crate::protocol::msgpack::value::{dict_get, dict_get_entry, entries_view, items_view, lemma_items_view, Value, ValueView};
use crate::util::logger::LogLevel;
use crate::util::text::str_eq;
use config::{all_strings, strings_view};
use crate::presence::activity::{button_of, buttons_of};

verus! {

/// The settings of an editor, as an older plugin sends them.
#[derive(Debug)]
pub struct Config {
    pub log_level: LogLevel,
    pub viewing_text: String,
    pub editing_text: String,
    pub file_browser_text: String,
    pub plugin_manager_text: String,
    pub lsp_manager_text: String,
    pub vcs_text: String,
    pub workspace_text: String,
    pub workspace: String,
    pub editor_image: String,
    pub editor_tooltip: String,
    pub idle_text: String,
    pub idle_tooltip: String,
    pub workspace_blacklist: Vec<String>,
    pub swap_fields: bool,
    pub swap_icons: bool,
    pub buttons: Vec<ActivityButton>,
    pub timestamp: Option<u128>,
}

/// A text starts with `http`.
pub open spec fn starts_with_http(s: Seq<char>) -> bool {
    s.len() >= 4 && s[0] == 'h' && s[1] == 't' && s[2] == 't' && s[3] == 'p'
}

/// A button is shown when its label and link are set and the link is a
/// web address.
pub open spec fn shown(b: (Seq<char>, Seq<char>)) -> bool {
    b.0.len() > 0 && b.1.len() > 0 && starts_with_http(b.1)
}

/// The buttons that are shown, in order.
pub open spec fn keep_shown(bs: Seq<(Seq<char>, Seq<char>)>) -> Seq<(Seq<char>, Seq<char>)>
    decreases bs.len(),
{
    if bs.len() == 0 {
        Seq::empty()
    } else {
        let rest = keep_shown(bs.drop_last());
        if shown(bs.last()) {
            rest.push(bs.last())
        } else {
            rest
        }
    }
}

/// A button links to the workspace's git repository.
pub open spec fn links_git(b: (Seq<char>, Seq<char>)) -> bool {
    b.1 == "git"@
}

/// Some button links to the git repository.
pub open spec fn has_git(bs: Seq<(Seq<char>, Seq<char>)>) -> bool {
    exists|i: int| 0 <= i < bs.len() && links_git(bs[i])
}

/// The buttons that do not link to the git repository, in order.
pub open spec fn drop_git(bs: Seq<(Seq<char>, Seq<char>)>) -> Seq<(Seq<char>, Seq<char>)>
    decreases bs.len(),
{
    if bs.len() == 0 {
        Seq::empty()
    } else {
        let rest = drop_git(bs.drop_last());
        if links_git(bs.last()) {
            rest
        } else {
            rest.push(bs.last())
        }
    }
}

/// The buttons with the git link replaced by the repository's address.
pub open spec fn fill_git(bs: Seq<(Seq<char>, Seq<char>)>, repo: Seq<char>) -> Seq<(Seq<char>, Seq<char>)> {
    bs.map_values(|b: (Seq<char>, Seq<char>)| if links_git(b) { (b.0, repo) } else { b })
}

/// The first two buttons.
pub open spec fn first_two(bs: Seq<(Seq<char>, Seq<char>)>) -> Seq<(Seq<char>, Seq<char>)> {
    if bs.len() > 2 {
        bs.take(2)
    } else {
        bs
    }
}

/// The buttons an editor shows: the first two; a git link becomes the
/// repository's address, or the button goes when there is no repository;
/// then only those with a label and a web address stay.
pub open spec fn validated(bs: Seq<(Seq<char>, Seq<char>)>, repo: Option<Seq<char>>) -> Seq<(Seq<char>, Seq<char>)> {
    let first = first_two(bs);
    let linked = if has_git(first) {
        match repo {
            Some(r) => fill_git(first, r),
            None => drop_git(first),
        }
    } else {
        first
    };
    keep_shown(linked)
}

/// The labels and links of buttons.
pub open spec fn legacy_buttons_view(bs: Seq<ActivityButton>) -> Seq<(Seq<char>, Seq<char>)> {
    bs.map_values(|b: ActivityButton| (b.label@, b.url@))
}

/// Whether a text starts with `http`.
fn is_web_address(s: &str) -> (r: bool)
    ensures
        r == starts_with_http(s@),
{
    if s.unicode_len() < 4 {
        return false;
    }
    s.get_char(0) == 'h' && s.get_char(1) == 't' && s.get_char(2) == 't' && s.get_char(3) == 'p'
}

/// Whether some of the first two buttons links to the git repository, so
/// that `validate_buttons` needs to know the repository.
pub fn needs_git_repository(buttons: &Vec<ActivityButton>) -> (r: bool)
    ensures
        r == exists|i: int| 0 <= i < buttons@.len() && i < 2 && links_git(legacy_buttons_view(buttons@)[i]),
{
    let mut i: usize = 0;
    while i < buttons.len() && i < 2
        invariant
            i <= buttons@.len(),
            i <= 2,
            forall|j: int| 0 <= j < i ==> !links_git(#[trigger] legacy_buttons_view(buttons@)[j]),
        decreases 2 - i,
    {
        if str_eq(buttons[i].url.as_str(), "git") {
            assert(links_git(legacy_buttons_view(buttons@)[i as int]));
            return true;
        }
        i = i + 1;
    }
    false
}

/// Keeps the buttons an editor shows, as `validated` describes, given the
/// address of the workspace's git repository if there is one.
pub fn validate_buttons(buttons: &mut Vec<ActivityButton>, repository: Option<String>)
    ensures
        legacy_buttons_view(final(buttons)@) == validated(
            legacy_buttons_view(old(buttons)@),
            opt_str(repository),
        ),
{
    let ghost bs = legacy_buttons_view(buttons@);
    buttons.truncate(2);
    let ghost first = legacy_buttons_view(buttons@);
    assert(first =~= if bs.len() > 2 { bs.take(2) } else { bs });
    let any_git = needs_git_repository(buttons);
    let mut out: Vec<ActivityButton> = Vec::new();
    let mut i: usize = 0;
    let ghost linked = if any_git {
        match opt_str(repository) {
            Some(r) => fill_git(first, r),
            None => drop_git(first),
        }
    } else {
        first
    };
    let ghost mut linked_prefix: Seq<(Seq<char>, Seq<char>)> = Seq::empty();
    while i < buttons.len()
        invariant
            i <= buttons@.len(),
            first == legacy_buttons_view(buttons@),
            linked == (if any_git {
                match opt_str(repository) {
                    Some(r) => fill_git(first, r),
                    None => drop_git(first),
                }
            } else {
                first
            }),
            linked_prefix == (if any_git {
                match opt_str(repository) {
                    Some(r) => fill_git(first.take(i as int), r),
                    None => drop_git(first.take(i as int)),
                }
            } else {
                first.take(i as int)
            }),
            legacy_buttons_view(out@) == keep_shown(linked_prefix),
        decreases buttons@.len() - i,
    {
        let b = &buttons[i];
        assert(first.take(i + 1).drop_last() =~= first.take(i as int));
        let is_git = str_eq(b.url.as_str(), "git");
        let candidate: Option<ActivityButton> = if any_git && is_git {
            match &repository {
                Some(r) => Some(ActivityButton { label: b.label.clone(), url: r.clone() }),
                None => None,
            }
        } else {
            Some(ActivityButton { label: b.label.clone(), url: b.url.clone() })
        };
        let ghost x: Option<(Seq<char>, Seq<char>)> = match &candidate {
            Some(c) => Some((c.label@, c.url@)),
            None => None,
        };
        proof {
            let old_prefix = linked_prefix;
            let bi = first[i as int];
            assert(first.take(i + 1).last() == bi);
            assert(bi == (b.label@, b.url@));
            if any_git {
                match opt_str(repository) {
                    Some(r) => {
                        linked_prefix = fill_git(first.take(i + 1), r);
                        assert(linked_prefix =~= old_prefix.push(
                            if links_git(bi) { (bi.0, r) } else { bi },
                        ));
                    },
                    None => {
                        linked_prefix = drop_git(first.take(i + 1));
                    },
                }
            } else {
                linked_prefix = first.take(i + 1);
                assert(linked_prefix.drop_last() =~= old_prefix);
            }
            assert(linked_prefix == match x {
                Some(y) => old_prefix.push(y),
                None => old_prefix,
            });
            if x is Some {
                assert(linked_prefix.drop_last() =~= old_prefix);
            }
        }
        match candidate {
            Some(c) => {
                if c.label.as_str().unicode_len() > 0 && c.url.as_str().unicode_len() > 0
                    && is_web_address(c.url.as_str()) {
                    let ghost before = out@;
                    out.push(c);
                    assert(legacy_buttons_view(out@) =~= legacy_buttons_view(before).push(
                        (out@.last().label@, out@.last().url@),
                    ));
                }
            },
            None => {},
        }
        i = i + 1;
    }
    proof {
        assert(first.take(buttons@.len() as int) =~= first);
        assert(first.len() <= 2);
        if any_git {
            let j = choose|j: int| 0 <= j < buttons@.len() && j < 2 && links_git(legacy_buttons_view(buttons@)[j]);
            assert(0 <= j < first.len() && links_git(first[j]));
        } else {
            assert forall|j: int| 0 <= j < first.len() implies !links_git(first[j]) by {
                assert(!(0 <= j < buttons@.len() && j < 2 && links_git(legacy_buttons_view(buttons@)[j])));
            }
        }
        assert(linked_prefix == linked);
        assert(legacy_buttons_view(out@) == keep_shown(linked));
        if any_git {
            let j = choose|j: int| 0 <= j < first.len() && links_git(first[j]);
            assert(has_git(first));
        }
        assert(validated(bs, opt_str(repository)) == keep_shown(linked));
    }
    *buttons = out;
}

/// What can be wrong with an editor's settings.
pub enum ConfigFault {
    /// This required entry is missing or has the wrong kind.
    Missing(Seq<char>),
    /// The log level is no level's code.
    BadLevel,
    /// Some blacklisted workspace is not a string.
    BadBlacklist,
}

/// The texts an editor's settings must hold, in the order they are read.
pub open spec fn config_texts() -> Seq<Seq<char>> {
    seq![
        "viewing_text"@,
        "editing_text"@,
        "file_browser_text"@,
        "plugin_manager_text"@,
        "lsp_manager_text"@,
        "vcs_text"@,
        "workspace_text"@,
        "workspace"@,
        "editor_image"@,
        "editor_tooltip"@,
        "idle_text"@,
        "idle_tooltip"@,
    ]
}

/// The first of the texts from the `i`-th on that is missing.
pub open spec fn first_missing_text(e: Seq<(Seq<char>, ValueView)>, i: nat) -> Option<Seq<char>>
    decreases config_texts().len() - i,
{
    if i >= config_texts().len() {
        None
    } else if str_field(e, config_texts()[i as int]) is None {
        Some(config_texts()[i as int])
    } else {
        first_missing_text(e, i + 1)
    }
}

/// The first fault of an editor's settings, in the order they are read.
pub open spec fn config_fault(e: Seq<(Seq<char>, ValueView)>) -> Option<ConfigFault> {
    match uint_field(e, "log_level"@) {
        None => Some(ConfigFault::Missing("log_level"@)),
        Some(n) => if LogLevel::spec_try_from_u64(n) is Err {
            Some(ConfigFault::BadLevel)
        } else if first_missing_text(e, 0) is Some {
            Some(ConfigFault::Missing(first_missing_text(e, 0)->0))
        } else {
            match dict_get(e, "workspace_blacklist"@) {
                Some(ValueView::Array(items)) => if all_strings(items) is None {
                    Some(ConfigFault::BadBlacklist)
                } else if bool_field(e, "swap_fields"@) is None {
                    Some(ConfigFault::Missing("swap_fields"@))
                } else if bool_field(e, "swap_icons"@) is None {
                    Some(ConfigFault::Missing("swap_icons"@))
                } else {
                    None
                },
                _ => Some(ConfigFault::Missing("workspace_blacklist"@)),
            }
        },
    }
}

/// The buttons an editor's settings list, before validation.
pub open spec fn config_buttons(e: Seq<(Seq<char>, ValueView)>) -> Seq<(Seq<char>, Seq<char>)> {
    match dict_get(e, "buttons"@) {
        Some(ValueView::Array(items)) => buttons_of(items),
        _ => Seq::empty(),
    }
}

/// The settings read from a map's entries without fault, the buttons
/// validated against `repo`.
pub open spec fn config_from(e: Seq<(Seq<char>, ValueView)>, c: Config, repo: Option<Seq<char>>) -> bool {
    &&& Some(c.log_level) == match uint_field(e, "log_level"@) {
        Some(n) => match LogLevel::spec_try_from_u64(n) {
            Ok(l) => Some(l),
            Err(_) => None,
        },
        None => None,
    }
    &&& Some(c.viewing_text@) == str_field(e, "viewing_text"@)
    &&& Some(c.editing_text@) == str_field(e, "editing_text"@)
    &&& Some(c.file_browser_text@) == str_field(e, "file_browser_text"@)
    &&& Some(c.plugin_manager_text@) == str_field(e, "plugin_manager_text"@)
    &&& Some(c.lsp_manager_text@) == str_field(e, "lsp_manager_text"@)
    &&& Some(c.vcs_text@) == str_field(e, "vcs_text"@)
    &&& Some(c.workspace_text@) == str_field(e, "workspace_text"@)
    &&& Some(c.workspace@) == str_field(e, "workspace"@)
    &&& Some(c.editor_image@) == str_field(e, "editor_image"@)
    &&& Some(c.editor_tooltip@) == str_field(e, "editor_tooltip"@)
    &&& Some(c.idle_text@) == str_field(e, "idle_text"@)
    &&& Some(c.idle_tooltip@) == str_field(e, "idle_tooltip"@)
    &&& Some(strings_view(c.workspace_blacklist@)) == match dict_get(e, "workspace_blacklist"@) {
        Some(ValueView::Array(items)) => all_strings(items),
        _ => None,
    }
    &&& Some(c.swap_fields) == bool_field(e, "swap_fields"@)
    &&& Some(c.swap_icons) == bool_field(e, "swap_icons"@)
    &&& legacy_buttons_view(c.buttons@) == validated(config_buttons(e), repo)
    &&& c.timestamp is None
}

/// A required text, or the error that names it.
fn required_text(e: &Vec<(String, Value)>, key: &'static str) -> (r: Result<String, CordError>)
    ensures
        match str_field(entries_view(e@), key@) {
            Some(s) => r matches Ok(x) && x@ == s,
            None => r matches Err(CordError::MissingField(f)) && f@ == key@,
        },
{
    match get_str(e, key) {
        Some(s) => Ok(s),
        None => Err(CordError::MissingField(key)),
    }
}

/// The well-formed buttons among `items`, in order.
fn legacy_buttons_from_items(items: &[Value]) -> (r: Vec<ActivityButton>)
    ensures
        legacy_buttons_view(r@) == buttons_of(items_view(items@)),
{
    let ghost iv = items_view(items@);
    proof {
        lemma_items_view(items@);
    }
    let mut out: Vec<ActivityButton> = Vec::new();
    let mut i: usize = 0;
    while i < items.len()
        invariant
            i <= items@.len(),
            iv == items_view(items@),
            iv.len() == items@.len(),
            forall|j: int| 0 <= j < items@.len() ==> #[trigger] iv[j] == items@[j]@,
            legacy_buttons_view(out@) == buttons_of(iv.subrange(0, i as int)),
        decreases items@.len() - i,
    {
        assert(iv.subrange(0, i + 1).drop_last() =~= iv.subrange(0, i as int));
        assert(iv.subrange(0, i + 1).last() == items@[i as int]@);
        match items[i].as_map() {
            Some(e) => match (get_str(e, "label"), get_str(e, "url")) {
                (Some(label), Some(url)) => {
                    let ghost before = out@;
                    out.push(ActivityButton { label, url });
                    assert(legacy_buttons_view(out@) =~= legacy_buttons_view(before).push(
                        (out@.last().label@, out@.last().url@),
                    ));
                },
                _ => {},
            },
            None => {},
        }
        i = i + 1;
    }
    assert(iv.subrange(0, items@.len() as int) =~= iv);
    out
}

/// The texts of an array of strings; `None` when some item is not one.
fn texts_of(items: &[Value]) -> (r: Option<Vec<String>>)
    ensures
        match all_strings(items_view(items@)) {
            Some(s) => r matches Some(v) && strings_view(v@) == s,
            None => r is None,
        },
{
    config::strings_from_items(items)
}

impl Config {
    /// Reads an editor's settings: the log level's code, the twelve texts,
    /// the blacklisted workspaces, `swap_fields` and `swap_icons` are
    /// required, checked in that order; the buttons are optional, keep the
    /// well-formed ones, and are validated against the workspace's git
    /// repository, which `repository` looks up only when a button links to
    /// it.
    pub fn deserialize<F: Fn(&str) -> Option<String>>(input: Value, repository: F) -> (r: Result<Config, CordError>)
        requires
            forall|w: &str| #[trigger] call_requires(repository, (w,)),
        ensures
            match input@ {
                ValueView::Dict(e) => match config_fault(e) {
                    Some(ConfigFault::Missing(f)) => r matches Err(CordError::MissingField(g)) && g@ == f,
                    Some(ConfigFault::BadLevel) => r matches Err(CordError::Invalid(m)) && m@ == "Invalid log level"@,
                    Some(ConfigFault::BadBlacklist) => r matches Err(CordError::Invalid(m)) && m@
                        == "Invalid workspace blacklist entry"@,
                    None => r matches Ok(c) && exists|repo: Option<String>|
                        #![trigger opt_str(repo)]
                        config_from(e, c, opt_str(repo)) && (has_git(first_two(config_buttons(e)))
                            ==> exists|w: &str| w@ == c.workspace@ && call_ensures(repository, (w,), repo)),
                },
                _ => r matches Err(CordError::Invalid(m)) && m@ == "Invalid config"@,
            },
    {
        let e = match input.as_map() {
            Some(e) => e,
            None => return Err(CordError::Invalid("Invalid config")),
        };
        let ghost ev = entries_view(e@);
        let code = match get_uint(e, "log_level") {
            Some(n) => n,
            None => return Err(CordError::MissingField("log_level")),
        };
        let log_level = match LogLevel::try_from(code) {
            Ok(l) => l,
            Err(_) => return Err(CordError::Invalid("Invalid log level")),
        };
        proof {
            reveal_with_fuel(first_missing_text, 13);
        }
        let viewing_text = match required_text(e, "viewing_text") { Ok(s) => s, Err(x) => return Err(x) };
        let editing_text = match required_text(e, "editing_text") { Ok(s) => s, Err(x) => return Err(x) };
        let file_browser_text = match required_text(e, "file_browser_text") { Ok(s) => s, Err(x) => return Err(x) };
        let plugin_manager_text = match required_text(e, "plugin_manager_text") { Ok(s) => s, Err(x) => return Err(x) };
        let lsp_manager_text = match required_text(e, "lsp_manager_text") { Ok(s) => s, Err(x) => return Err(x) };
        let vcs_text = match required_text(e, "vcs_text") { Ok(s) => s, Err(x) => return Err(x) };
        let workspace_text = match required_text(e, "workspace_text") { Ok(s) => s, Err(x) => return Err(x) };
        let workspace = match required_text(e, "workspace") { Ok(s) => s, Err(x) => return Err(x) };
        let editor_image = match required_text(e, "editor_image") { Ok(s) => s, Err(x) => return Err(x) };
        let editor_tooltip = match required_text(e, "editor_tooltip") { Ok(s) => s, Err(x) => return Err(x) };
        let idle_text = match required_text(e, "idle_text") { Ok(s) => s, Err(x) => return Err(x) };
        let idle_tooltip = match required_text(e, "idle_tooltip") { Ok(s) => s, Err(x) => return Err(x) };
        let workspace_blacklist = match dict_get_entry(e, "workspace_blacklist") {
            Some(v) => match v.as_array() {
                Some(items) => match texts_of(items) {
                    Some(t) => t,
                    None => return Err(CordError::Invalid("Invalid workspace blacklist entry")),
                },
                None => return Err(CordError::MissingField("workspace_blacklist")),
            },
            None => return Err(CordError::MissingField("workspace_blacklist")),
        };
        let swap_fields = match get_bool(e, "swap_fields") {
            Some(b) => b,
            None => return Err(CordError::MissingField("swap_fields")),
        };
        let swap_icons = match get_bool(e, "swap_icons") {
            Some(b) => b,
            None => return Err(CordError::MissingField("swap_icons")),
        };
        let mut buttons = match dict_get_entry(e, "buttons") {
            Some(v) => match v.as_array() {
                Some(items) => legacy_buttons_from_items(items),
                None => Vec::new(),
            },
            None => Vec::new(),
        };
        assert(legacy_buttons_view(buttons@) =~= config_buttons(ev));
        let needs = needs_git_repository(&buttons);
        proof {
            let f = first_two(config_buttons(ev));
            if has_git(f) {
                let j = choose|j: int| 0 <= j < f.len() && links_git(f[j]);
                assert(links_git(legacy_buttons_view(buttons@)[j]));
            }
        }
        let repo = if needs {
            repository(workspace.as_str())
        } else {
            None
        };
        validate_buttons(&mut buttons, repo);
        let c = Config {
            log_level,
            viewing_text,
            editing_text,
            file_browser_text,
            plugin_manager_text,
            lsp_manager_text,
            vcs_text,
            workspace_text,
            workspace,
            editor_image,
            editor_tooltip,
            idle_text,
            idle_tooltip,
            workspace_blacklist,
            swap_fields,
            swap_icons,
            buttons,
            timestamp: None,
        };
        assert(config_from(ev, c, opt_str(repo)));
        Ok(c)
    }
}

/// Read settings are taken key by key: each text holds the string stored
/// under the key of the same name, `swap_fields` and `swap_icons` the
/// booleans under theirs, and the log level is the level whose code is
/// stored under `log_level`.
pub proof fn lemma_config_read_by_key(e: Seq<(Seq<char>, ValueView)>, c: Config, repo: Option<Seq<char>>)
    requires
        config_from(e, c, repo),
    ensures
        dict_get(e, "viewing_text"@) == Some(ValueView::String(c.viewing_text@)),
        dict_get(e, "editing_text"@) == Some(ValueView::String(c.editing_text@)),
        dict_get(e, "file_browser_text"@) == Some(ValueView::String(c.file_browser_text@)),
        dict_get(e, "plugin_manager_text"@) == Some(ValueView::String(c.plugin_manager_text@)),
        dict_get(e, "lsp_manager_text"@) == Some(ValueView::String(c.lsp_manager_text@)),
        dict_get(e, "vcs_text"@) == Some(ValueView::String(c.vcs_text@)),
        dict_get(e, "workspace_text"@) == Some(ValueView::String(c.workspace_text@)),
        dict_get(e, "workspace"@) == Some(ValueView::String(c.workspace@)),
        dict_get(e, "editor_image"@) == Some(ValueView::String(c.editor_image@)),
        dict_get(e, "editor_tooltip"@) == Some(ValueView::String(c.editor_tooltip@)),
        dict_get(e, "idle_text"@) == Some(ValueView::String(c.idle_text@)),
        dict_get(e, "idle_tooltip"@) == Some(ValueView::String(c.idle_tooltip@)),
        bool_under(e, "swap_fields"@, c.swap_fields),
        bool_under(e, "swap_icons"@, c.swap_icons),
        uint_under(e, "log_level"@, c.log_level.spec_code() as u64),
{
}

/// At most two buttons are shown, each with a label and a web address.
pub proof fn lemma_validated_shown(bs: Seq<(Seq<char>, Seq<char>)>, repo: Option<Seq<char>>)
    ensures
        validated(bs, repo).len() <= 2,
        forall|i: int| 0 <= i < validated(bs, repo).len() ==> shown(#[trigger] validated(bs, repo)[i]),
{
    let first = first_two(bs);
    let linked = if has_git(first) {
        match repo {
            Some(r) => fill_git(first, r),
            None => drop_git(first),
        }
    } else {
        first
    };
    lemma_drop_git_len(first);
    lemma_keep_shown(linked);
}

proof fn lemma_drop_git_len(bs: Seq<(Seq<char>, Seq<char>)>)
    ensures
        drop_git(bs).len() <= bs.len(),
    decreases bs.len(),
{
    if bs.len() > 0 {
        lemma_drop_git_len(bs.drop_last());
    }
}

proof fn lemma_keep_shown(bs: Seq<(Seq<char>, Seq<char>)>)
    ensures
        keep_shown(bs).len() <= bs.len(),
        forall|i: int| 0 <= i < keep_shown(bs).len() ==> shown(#[trigger] keep_shown(bs)[i]),
    decreases bs.len(),
{
    if bs.len() > 0 {
        lemma_keep_shown(bs.drop_last());
        let rest = keep_shown(bs.drop_last());
        if shown(bs.last()) {
            assert forall|i: int| 0 <= i < keep_shown(bs).len() implies shown(#[trigger] keep_shown(bs)[i]) by {
                if i < rest.len() {
                    assert(keep_shown(bs)[i] == rest[i]);
                }
            }
        }
    }
}

} // verus!
