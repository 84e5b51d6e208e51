//! What a first run decides.

use vstd::prelude::*;
use crate::codec::{trim, trimmed};
use crate::text::str_eq;

verus! {

/// How the program was installed.
#[derive(Debug, Clone, Copy, PartialEq, Eq, Structural)]
pub struct InstallConfig {
    pub gui_enabled: bool,
    pub skip_setup: bool,
}

/// Whether a graphical interface is part of this build. It is not.
pub fn gui_available() -> (r: bool)
    ensures
        !r,
{
    false
}

/// Whether this is the first run: there is no installation marker, or the
/// data directory cannot even be named (`None`).
pub fn is_first_run(marker_exists: Option<bool>) -> (r: bool)
    ensures
        r == !(marker_exists == Some(true)),
{
    match marker_exists {
        Some(exists) => !exists,
        None => true,
    }
}

/// The installation as this build has it.
pub fn get_install_preference() -> (c: InstallConfig)
    ensures
        c == (InstallConfig { gui_enabled: false, skip_setup: false }),
{
    InstallConfig { gui_enabled: gui_available(), skip_setup: false }
}

/// What an answer to the question "CLI only or GUI" chooses: nothing or
/// `1` is CLI only, `2` is the GUI, anything else is no answer.
pub open spec fn gui_choice(answer: Seq<char>) -> Option<bool> {
    let t = trim(answer);
    if t.len() == 0 || t == seq!['1'] {
        Some(false)
    } else if t == seq!['2'] {
        Some(true)
    } else {
        None
    }
}

/// Reads an answer to the question "CLI only or GUI".
pub fn prompt_gui_selection(answer: &str) -> (r: Option<bool>)
    ensures
        r == gui_choice(answer@),
{
    let t = trimmed(answer);
    proof {
        reveal_strlit("1");
        reveal_strlit("2");
        assert("1"@ =~= seq!['1']);
        assert("2"@ =~= seq!['2']);
    }
    if t.as_str().is_empty() || str_eq(t.as_str(), "1") {
        Some(false)
    } else if str_eq(t.as_str(), "2") {
        Some(true)
    } else {
        None
    }
}

} // verus!
