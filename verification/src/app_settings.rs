//! Preferences of the command line and of security, kept apart from the
//! catalog.

use vstd::prelude::*;
use crate::text::string_views;

verus! {

/// Preferences of the command line.
#[derive(Debug, Clone)]
pub struct CliSettings {
    /// `auto`, `always` or `never`.
    pub default_color: String,
    /// `fancy` or `plain`.
    pub default_style: String,
    pub verbose_help: bool,
    pub confirm_destructive: bool,
}

/// Preferences of security.
#[derive(Debug, Clone, Copy, PartialEq, Eq, Structural)]
pub struct SecuritySettings {
    /// Whether every project takes the master password.
    pub global_master_lock: bool,
    /// Minutes until a session ends; 0 for never.
    pub session_timeout_minutes: u32,
    /// Seconds until the clipboard is cleared.
    pub clipboard_clear_seconds: u32,
    pub require_confirmation: bool,
}

impl Default for CliSettings {
    fn default() -> (s: CliSettings)
        ensures
            s.default_color@ == "auto"@,
            s.default_style@ == "fancy"@,
            !s.verbose_help,
            s.confirm_destructive,
    {
        CliSettings {
            default_color: "auto".to_string(),
            default_style: "fancy".to_string(),
            verbose_help: false,
            confirm_destructive: true,
        }
    }
}

impl Default for SecuritySettings {
    fn default() -> (s: SecuritySettings)
        ensures
            s == (SecuritySettings {
                global_master_lock: false,
                session_timeout_minutes: 0,
                clipboard_clear_seconds: 30,
                require_confirmation: true,
            }),
    {
        SecuritySettings {
            global_master_lock: false,
            session_timeout_minutes: 0,
            clipboard_clear_seconds: 30,
            require_confirmation: true,
        }
    }
}

/// Where the preferences are stored, below the data directory.
pub fn settings_path() -> (path: Vec<String>)
    ensures
        string_views(path@) == seq!["app_settings.json"@],
{
    let mut path: Vec<String> = Vec::new();
    path.push("app_settings.json".to_string());
    assert(string_views(path@) =~= seq!["app_settings.json"@]);
    path
}

/// Whether the stored preferences say that the master lock is on; they do
/// not where they cannot be read (`None`).
pub fn is_global_master_lock_enabled(security: Option<&SecuritySettings>) -> (r: bool)
    ensures
        r == match security {
            Some(s) => s.global_master_lock,
            None => false,
        },
{
    match security {
        Some(s) => s.global_master_lock,
        None => false,
    }
}

/// Records whether the master lock is on; nothing else changes.
pub fn set_global_master_lock(security: &mut SecuritySettings, enabled: bool)
    ensures
        *final(security) == (SecuritySettings { global_master_lock: enabled, ..*old(security) }),
{
    security.global_master_lock = enabled;
}

/// The colour and the style that the command line starts from: `auto` and
/// `fancy` where the preferences cannot be read (`None`).
pub fn get_cli_defaults(cli: Option<&CliSettings>) -> (r: (String, String))
    ensures
        r.0@ == match cli {
            Some(s) => s.default_color@,
            None => "auto"@,
        },
        r.1@ == match cli {
            Some(s) => s.default_style@,
            None => "fancy"@,
        },
{
    match cli {
        Some(s) => (s.default_color.clone(), s.default_style.clone()),
        None => ("auto".to_string(), "fancy".to_string()),
    }
}

/// The preferences of the command line after `updater` changed them.
pub fn update_cli_settings<F: FnOnce(CliSettings) -> CliSettings>(
    settings: CliSettings,
    updater: F,
) -> (r: CliSettings)
    requires
        updater.requires((settings,)),
    ensures
        updater.ensures((settings,), r),
{
    updater(settings)
}

/// The preferences of security after `updater` changed them.
pub fn update_security_settings<F: FnOnce(SecuritySettings) -> SecuritySettings>(
    settings: SecuritySettings,
    updater: F,
) -> (r: SecuritySettings)
    requires
        updater.requires((settings,)),
    ensures
        updater.ensures((settings,), r),
{
    updater(settings)
}

} // verus!
