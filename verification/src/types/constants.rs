use vstd::prelude::*;

use crate::util::text::str_eq;

verus! {

/// The Discord application of each editor.
pub open spec fn spec_client_id(editor: Seq<char>) -> Option<u64> {
    if editor == "vim"@ {
        Some(1219918645770059796)
    } else if editor == "neovim"@ {
        Some(1219918880005165137)
    } else if editor == "lunarvim"@ {
        Some(1220295374087000104)
    } else if editor == "nvchad"@ {
        Some(1220296082861326378)
    } else if editor == "astronvim"@ {
        Some(1230866983977746532)
    } else {
        None
    }
}

/// The id of the Discord application of an editor, if it has one.
pub fn client_id(editor: &str) -> (r: Option<u64>)
    ensures
        r == spec_client_id(editor@),
{
    if str_eq(editor, "vim") {
        Some(1219918645770059796)
    } else if str_eq(editor, "neovim") {
        Some(1219918880005165137)
    } else if str_eq(editor, "lunarvim") {
        Some(1220295374087000104)
    } else if str_eq(editor, "nvchad") {
        Some(1220296082861326378)
    } else if str_eq(editor, "astronvim") {
        Some(1230866983977746532)
    } else {
        None
    }
}

} // verus!
