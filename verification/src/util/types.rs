use vstd::prelude::*;

use super::text::str_eq;

verus! {

/// The kinds of icon an editor can show.
#[derive(Debug, Clone, Copy, PartialEq, Eq, Structural)]
pub enum AssetType {
    Language,
    FileBrowser,
    PluginManager,
    LspManager,
    Vcs,
}

impl AssetType {
    /// The kind a name stands for, if it names one.
    pub open spec fn spec_from_name(s: Seq<char>) -> Option<AssetType> {
        if s == "language"@ {
            Some(AssetType::Language)
        } else if s == "file_browser"@ {
            Some(AssetType::FileBrowser)
        } else if s == "plugin_manager"@ {
            Some(AssetType::PluginManager)
        } else if s == "lsp_manager"@ {
            Some(AssetType::LspManager)
        } else if s == "vcs"@ {
            Some(AssetType::Vcs)
        } else {
            None
        }
    }

    /// Reads a kind from its name.
    pub fn try_from(value: &str) -> (r: Result<AssetType, ()>)
        ensures
            match Self::spec_from_name(value@) {
                Some(t) => r == Ok::<AssetType, ()>(t),
                None => r is Err,
            },
    {
        if str_eq(value, "language") {
            Ok(AssetType::Language)
        } else if str_eq(value, "file_browser") {
            Ok(AssetType::FileBrowser)
        } else if str_eq(value, "plugin_manager") {
            Ok(AssetType::PluginManager)
        } else if str_eq(value, "lsp_manager") {
            Ok(AssetType::LspManager)
        } else if str_eq(value, "vcs") {
            Ok(AssetType::Vcs)
        } else {
            Err(())
        }
    }
}

} // verus!
