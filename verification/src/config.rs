//! Process-wide configuration values. Reading and writing the
//! configuration file, and its serialized form, live with the host program;
//! this module fixes what the values are and what the defaults say.

use vstd::prelude::*;
use vstd::string::*;

verus! {

/// The tool's configuration: where notes live, and which editor to spawn
/// for interactive editing (none by default).
#[derive(Debug, Clone)]
pub struct RusticConfig {
    pub notes_directory: String,
    pub editor: Option<String>,
}

impl Default for RusticConfig {
    /// The fallback configuration: notes in the current directory, no
    /// editor.
    fn default() -> (r: RusticConfig)
        ensures
            r.notes_directory@ == "."@,
            r.editor is None,
    {
        RusticConfig { notes_directory: String::from_str("."), editor: None }
    }
}

} // verus!
