//! News of a later release.

use vstd::prelude::*;
use vstd::string::*;

verus! {

/// A later release.
#[derive(Debug, Clone)]
pub struct UpdateInfo {
    pub current_version: String,
    pub latest_version: String,
    pub description: Option<String>,
    pub published_at: Option<String>,
}

/// The warning that a later release is out.
pub fn display_update_notification(update_info: &UpdateInfo) -> (msg: String)
    ensures
        msg@ == "Update available! SafeHold "@ + update_info.latest_version@
            + " is now available"@,
{
    let mut msg = "Update available! SafeHold ".to_string();
    msg.append(update_info.latest_version.as_str());
    msg.append(" is now available");
    msg
}

/// What looking for a later release finds. Nothing is looked up, so
/// nothing is found.
pub fn check_for_updates() -> (r: Option<UpdateInfo>)
    ensures
        r is None,
{
    None
}

} // verus!
