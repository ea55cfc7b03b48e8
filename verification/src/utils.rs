use vstd::prelude::*;
use vstd::string::{StrSliceExecFns, StringExecFns};

use crate::types::Config;
use crate::util::text::{chars_of, decimal, push_char, push_decimal};

verus! {

/// What the filetype of a buffer turned out to be, with the icon and the
/// tooltip to show for it.
pub enum Filetype<'a> {
    Language(&'a str, &'a str),
    FileBrowser(&'a str, &'a str),
    PluginManager(&'a str, &'a str),
}

/// A text with every `{}` replaced by `x`, read from left to right.
pub open spec fn fill(s: Seq<char>, x: Seq<char>) -> Seq<char>
    decreases s.len(),
{
    if s.len() < 2 {
        s
    } else if s[0] == '{' && s[1] == '}' {
        x + fill(s.subrange(2, s.len() as int), x)
    } else {
        seq![s[0]] + fill(s.drop_first(), x)
    }
}

/// A signed number in decimal notation.
pub open spec fn signed_decimal(n: int) -> Seq<char> {
    if n < 0 {
        seq!['-'] + decimal((-n) as nat)
    } else {
        decimal(n as nat)
    }
}

/// Appends the characters from `i` on with every `{}` replaced by `x`.
fn push_filled(out: &mut String, cs: &Vec<char>, i: usize, x: &str)
    requires
        i <= cs@.len(),
    ensures
        final(out)@ == old(out)@ + fill(cs@.subrange(i as int, cs@.len() as int), x@),
    decreases cs@.len() - i,
{
    let ghost rest = cs@.subrange(i as int, cs@.len() as int);
    if cs.len() - i < 2 {
        let mut j = i;
        while j < cs.len()
            invariant
                i <= j <= cs@.len(),
                cs@.len() - i < 2,
                out@ == old(out)@ + cs@.subrange(i as int, j as int),
            decreases cs@.len() - j,
        {
            push_char(out, cs[j]);
            j = j + 1;
            assert(out@ =~= old(out)@ + cs@.subrange(i as int, j as int));
        }
        return;
    }
    if cs[i] == '{' && cs[i + 1] == '}' {
        out.append(x);
        assert(rest.subrange(2, rest.len() as int) =~= cs@.subrange(i + 2, cs@.len() as int));
        push_filled(out, cs, i + 2, x);
        assert(out@ =~= old(out)@ + fill(rest, x@));
    } else {
        push_char(out, cs[i]);
        assert(rest.drop_first() =~= cs@.subrange(i + 1, cs@.len() as int));
        push_filled(out, cs, i + 1, x);
        assert(out@ =~= old(out)@ + fill(rest, x@));
    }
}

/// A text with every `{}` replaced by `x`.
pub fn replace_braces(s: &str, x: &str) -> (r: String)
    ensures
        r@ == fill(s@, x@),
{
    let cs = chars_of(s);
    let mut out = String::new();
    push_filled(&mut out, &cs, 0, x);
    assert(cs@.subrange(0, cs@.len() as int) =~= s@);
    assert(out@ =~= fill(s@, x@));
    out
}

/// Appends a signed number in decimal notation.
fn push_signed(out: &mut String, n: i32)
    ensures
        final(out)@ == old(out)@ + signed_decimal(n as int),
{
    if n < 0 {
        push_char(out, '-');
        let m: u128 = if n == i32::MIN {
            2147483648
        } else {
            (-n) as u128
        };
        push_decimal(out, m);
        assert(out@ =~= old(out)@ + signed_decimal(n as int));
    } else {
        push_decimal(out, n as u128);
    }
}

/// The status line of an editor: the workspace text with the workspace in
/// place of `{}`, followed by the number of problems unless that is -1;
/// nothing when there is no workspace or no workspace text.
pub open spec fn presence_state(config: &Config, cwd: Seq<char>, problem_count: i32) -> Option<Seq<char>> {
    if cwd.len() > 0 && config.workspace_text@.len() > 0 {
        let ws = fill(config.workspace_text@, cwd);
        Some(if problem_count != -1 {
            ws + " - "@ + signed_decimal(problem_count as int) + " problems"@
        } else {
            ws
        })
    } else {
        None
    }
}

/// The status line of an editor, as `presence_state` describes.
pub fn get_presence_state(config: &Config, cwd: &str, problem_count: i32) -> (r: Option<String>)
    ensures
        match presence_state(config, cwd@, problem_count) {
            Some(s) => r matches Some(x) && x@ == s,
            None => r is None,
        },
{
    if cwd.unicode_len() > 0 && config.workspace_text.as_str().unicode_len() > 0 {
        let mut s = replace_braces(config.workspace_text.as_str(), cwd);
        if problem_count != -1 {
            s.append(" - ");
            push_signed(&mut s, problem_count);
            s.append(" problems");
        }
        Some(s)
    } else {
        None
    }
}

/// An image of the assets repository: its address, the kind's folder, the
/// icon's name and the image version.
pub open spec fn asset_url(base: Seq<char>, folder: Seq<char>, icon: Seq<char>) -> Seq<char> {
    base + seq!['/'] + folder + seq!['/'] + icon + ".png?v=2"@
}

fn make_asset_url(base: &str, folder: &str, icon: &str) -> (r: String)
    ensures
        r@ == asset_url(base@, folder@, icon@),
{
    let mut s = String::from_str(base);
    push_char(&mut s, '/');
    s.append(folder);
    push_char(&mut s, '/');
    s.append(icon);
    s.append(".png?v=2");
    assert(s@ =~= asset_url(base@, folder@, icon@));
    s
}

/// What an editor shows while a file is open: the details line (viewing or
/// editing the file, or a new file, with the cursor position after a colon
/// when given), the large image and its tooltip.
pub open spec fn language_presence_spec(
    config: &Config,
    filename: Seq<char>,
    filetype: Seq<char>,
    is_read_only: bool,
    cursor_position: Option<Seq<char>>,
    icon: Seq<char>,
    tooltip: Seq<char>,
    base: Seq<char>,
) -> (Seq<char>, Seq<char>, Seq<char>) {
    let new_file = filename.len() == 0 && filetype.len() == 0;
    let details = if new_file {
        "Editing a new file"@
    } else if is_read_only {
        fill(config.viewing_text@, filename)
    } else {
        fill(config.editing_text@, filename)
    };
    let shown = match cursor_position {
        Some(pos) => details + seq![':'] + pos,
        None => details,
    };
    (shown, asset_url(base, "language"@, if new_file { "text"@ } else { icon }), tooltip)
}

fn language_presence(
    config: &Config,
    filename: &str,
    filetype: &str,
    is_read_only: bool,
    cursor_position: Option<&str>,
    icon: &str,
    tooltip: &str,
    base: &str,
) -> (r: (String, String, String))
    ensures
        (r.0@, r.1@, r.2@) == language_presence_spec(
            config,
            filename@,
            filetype@,
            is_read_only,
            match cursor_position {
                Some(p) => Some(p@),
                None => None,
            },
            icon@,
            tooltip@,
            base@,
        ),
{
    let new_file = filename.unicode_len() == 0 && filetype.unicode_len() == 0;
    let details = if new_file {
        String::from_str("Editing a new file")
    } else if is_read_only {
        replace_braces(config.viewing_text.as_str(), filename)
    } else {
        replace_braces(config.editing_text.as_str(), filename)
    };
    let shown = match cursor_position {
        Some(pos) => {
            let mut d = details;
            push_char(&mut d, ':');
            d.append(pos);
            d
        },
        None => details,
    };
    let image = make_asset_url(base, "language", if new_file { "text" } else { icon });
    (shown, image, String::from_str(tooltip))
}

fn browser_presence(text: &String, folder: &str, tooltip: &str, icon: &str, base: &str) -> (r: (
    String,
    String,
    String,
))
    ensures
        r.0@ == fill(text@, tooltip@),
        r.1@ == asset_url(base@, folder@, icon@),
        r.2@ == tooltip@,
{
    (replace_braces(text.as_str(), tooltip), make_asset_url(base, folder, icon), String::from_str(tooltip))
}

/// What an editor shows for a buffer: for a file, as
/// `language_presence_spec` says; for a file browser or plugin manager, its
/// text with the tooltip in place of `{}`, the image from its folder, and
/// the tooltip.
pub open spec fn presence_spec(
    config: &Config,
    filename: Seq<char>,
    filetype: Seq<char>,
    kind: Filetype,
    is_read_only: bool,
    cursor_position: Option<Seq<char>>,
    base: Seq<char>,
) -> (Seq<char>, Seq<char>, Seq<char>) {
    match kind {
        Filetype::Language(icon, tooltip) => language_presence_spec(
            config,
            filename,
            filetype,
            is_read_only,
            cursor_position,
            icon@,
            tooltip@,
            base,
        ),
        Filetype::FileBrowser(icon, tooltip) => (
            fill(config.file_browser_text@, tooltip@),
            asset_url(base, "file_browser"@, icon@),
            tooltip@,
        ),
        Filetype::PluginManager(icon, tooltip) => (
            fill(config.plugin_manager_text@, tooltip@),
            asset_url(base, "plugin_manager"@, icon@),
            tooltip@,
        ),
    }
}

/// The details line, large image and tooltip of an editor's buffer, given
/// what its filetype turned out to be and the address of the assets
/// repository.
pub fn build_presence(
    config: &Config,
    filename: &str,
    filetype: &str,
    kind: Filetype,
    is_read_only: bool,
    cursor_position: Option<&str>,
    assets_url: &str,
) -> (r: (String, String, String))
    ensures
        (r.0@, r.1@, r.2@) == presence_spec(
            config,
            filename@,
            filetype@,
            kind,
            is_read_only,
            match cursor_position {
                Some(p) => Some(p@),
                None => None,
            },
            assets_url@,
        ),
{
    match kind {
        Filetype::Language(icon, tooltip) => language_presence(
            config,
            filename,
            filetype,
            is_read_only,
            cursor_position,
            icon,
            tooltip,
            assets_url,
        ),
        Filetype::FileBrowser(icon, tooltip) => browser_presence(
            &config.file_browser_text,
            "file_browser",
            tooltip,
            icon,
            assets_url,
        ),
        Filetype::PluginManager(icon, tooltip) => browser_presence(
            &config.plugin_manager_text,
            "plugin_manager",
            tooltip,
            icon,
            assets_url,
        ),
    }
}

/// What an editor shows for a source buffer. A buffer with a name or a
/// filetype is shown as viewed (read-only) or edited under its name, with
/// its language's icon; only a buffer with neither is shown as a new file,
/// with the plain-text icon, whatever the settings say. The cursor
/// position, when given, follows the details after a colon, and the
/// tooltip is always the language's.
pub proof fn lemma_language_presence_by_buffer(
    config: &Config,
    filename: Seq<char>,
    filetype: Seq<char>,
    icon: &str,
    tooltip: &str,
    is_read_only: bool,
    cursor_position: Option<Seq<char>>,
    base: Seq<char>,
)
    ensures
        ({
            let r = presence_spec(
                config,
                filename,
                filetype,
                Filetype::Language(icon, tooltip),
                is_read_only,
                cursor_position,
                base,
            );
            let tail = match cursor_position {
                Some(p) => seq![':'] + p,
                None => Seq::<char>::empty(),
            };
            &&& (filename.len() > 0 || filetype.len() > 0) ==> {
                &&& is_read_only ==> r.0 == fill(config.viewing_text@, filename) + tail
                &&& !is_read_only ==> r.0 == fill(config.editing_text@, filename) + tail
                &&& r.1 == asset_url(base, "language"@, icon@)
            }
            &&& (filename.len() == 0 && filetype.len() == 0) ==> {
                &&& r.0 == "Editing a new file"@ + tail
                &&& r.1 == asset_url(base, "language"@, "text"@)
            }
            &&& r.2 == tooltip@
        }),
{
    let r = presence_spec(
        config,
        filename,
        filetype,
        Filetype::Language(icon, tooltip),
        is_read_only,
        cursor_position,
        base,
    );
    let d = if filename.len() == 0 && filetype.len() == 0 {
        "Editing a new file"@
    } else if is_read_only {
        fill(config.viewing_text@, filename)
    } else {
        fill(config.editing_text@, filename)
    };
    if cursor_position is None {
        assert(d + Seq::<char>::empty() =~= d);
    }
}

/// A file browser or a plugin manager is shown by its kind's text with the
/// tooltip in place of `{}`, the icon from its kind's folder, and the
/// tooltip; the buffer's name, filetype, cursor and read-only flag play no
/// part.
pub proof fn lemma_tool_presence(
    config: &Config,
    filename: Seq<char>,
    filetype: Seq<char>,
    icon: &str,
    tooltip: &str,
    is_read_only: bool,
    cursor_position: Option<Seq<char>>,
    base: Seq<char>,
)
    ensures
        presence_spec(
            config,
            filename,
            filetype,
            Filetype::FileBrowser(icon, tooltip),
            is_read_only,
            cursor_position,
            base,
        ) == (
            fill(config.file_browser_text@, tooltip@),
            asset_url(base, "file_browser"@, icon@),
            tooltip@,
        ),
        presence_spec(
            config,
            filename,
            filetype,
            Filetype::PluginManager(icon, tooltip),
            is_read_only,
            cursor_position,
            base,
        ) == (
            fill(config.plugin_manager_text@, tooltip@),
            asset_url(base, "plugin_manager"@, icon@),
            tooltip@,
        ),
{
}

/// An editor has a status line exactly when it has a workspace and the
/// workspace text is set. The line begins with that text, the workspace in
/// place of `{}`, and goes on with the number of problems exactly when the
/// count is not -1.
pub proof fn lemma_presence_state_shape(config: &Config, cwd: Seq<char>, problem_count: i32)
    ensures
        presence_state(config, cwd, problem_count) is Some <==> (cwd.len() > 0
            && config.workspace_text@.len() > 0),
        presence_state(config, cwd, problem_count) matches Some(s) ==> ({
            let ws = fill(config.workspace_text@, cwd);
            &&& s.subrange(0, ws.len() as int) == ws
            &&& (s == ws <==> problem_count == -1)
        }),
{
    reveal_strlit(" - ");
    reveal_strlit(" problems");
    if cwd.len() > 0 && config.workspace_text@.len() > 0 {
        let ws = fill(config.workspace_text@, cwd);
        if problem_count != -1 {
            let s = ws + " - "@ + signed_decimal(problem_count as int) + " problems"@;
            assert(s.subrange(0, ws.len() as int) =~= ws);
            assert(s.len() > ws.len());
        } else {
            assert(ws.subrange(0, ws.len() as int) =~= ws);
        }
    }
}

/// A text without `{` is left as it is.
pub proof fn lemma_fill_plain(s: Seq<char>, x: Seq<char>)
    requires
        forall|i: int| 0 <= i < s.len() ==> s[i] != '{',
    ensures
        fill(s, x) == s,
    decreases s.len(),
{
    if s.len() >= 2 {
        assert forall|i: int| 0 <= i < s.drop_first().len() implies s.drop_first()[i] != '{' by {
            assert(s.drop_first()[i] == s[i + 1]);
        }
        lemma_fill_plain(s.drop_first(), x);
        assert(seq![s[0]] + s.drop_first() =~= s);
    }
}

} // verus!
