use safehold::app_settings::{
    get_cli_defaults, is_global_master_lock_enabled, set_global_master_lock, settings_path,
    update_cli_settings, update_security_settings, CliSettings, SecuritySettings,
};
use safehold::cli::{
    checks_for_updates, master_lock_action, should_run_install_prompt, style_options, use_color,
    Cli, ColorChoice, Commands, StyleChoice,
};
use safehold::crypto::{CryptoError, KeyError};
use safehold::envops::VaultError;
use safehold::install::{
    get_install_preference, gui_available, is_first_run, prompt_gui_selection, InstallConfig,
};
use safehold::master_lock::MasterLockError;
use safehold::styles::{
    bullet, divider, err, header, init, kv, ok, opts, plain_line, to_stderr, MessageKind, RenderMode,
    StyleOptions,
};
use safehold::text::{str_eq, str_less, to_chars};
use safehold::update_checker::{check_for_updates, display_update_notification, UpdateInfo};

fn cli(command: Commands) -> Cli {
    Cli { color: ColorChoice::Auto, style: StyleChoice::Fancy, quiet: false, gui: false, command }
}

#[test]
fn colour_choice() {
    assert!(use_color(ColorChoice::Always, false));
    assert!(!use_color(ColorChoice::Never, true));
    assert!(use_color(ColorChoice::Auto, true));
    assert!(!use_color(ColorChoice::Auto, false));
}

#[test]
fn style_options_from_the_command_line() {
    let mut c = cli(Commands::ListProjects);
    assert_eq!(style_options(&c, true), StyleOptions { mode: RenderMode::Fancy, use_color: true, quiet: false });
    c.style = StyleChoice::Plain;
    c.color = ColorChoice::Never;
    c.quiet = true;
    assert_eq!(style_options(&c, true), StyleOptions { mode: RenderMode::Plain, use_color: false, quiet: true });
}

#[test]
fn master_lock_flags() {
    assert_eq!(master_lock_action(true, false), Some(true));
    assert_eq!(master_lock_action(true, true), Some(true));
    assert_eq!(master_lock_action(false, true), Some(false));
    assert_eq!(master_lock_action(false, false), None);
}

#[test]
fn first_run_prompt() {
    assert!(should_run_install_prompt(&cli(Commands::ListProjects), true));
    assert!(!should_run_install_prompt(&cli(Commands::ListProjects), false));
    assert!(!should_run_install_prompt(&cli(Commands::Setup { add_path: false }), true));
    assert!(checks_for_updates(&cli(Commands::About)));
    assert!(!checks_for_updates(&cli(Commands::CheckUpdate)));
}

#[test]
fn first_run_and_installation() {
    assert!(is_first_run(None));
    assert!(is_first_run(Some(false)));
    assert!(!is_first_run(Some(true)));
    assert!(!gui_available());
    assert_eq!(get_install_preference(), InstallConfig { gui_enabled: false, skip_setup: false });
}

#[test]
fn mode_selection() {
    assert_eq!(prompt_gui_selection(""), Some(false));
    assert_eq!(prompt_gui_selection("\n"), Some(false));
    assert_eq!(prompt_gui_selection(" 1 \n"), Some(false));
    assert_eq!(prompt_gui_selection("2\n"), Some(true));
    assert_eq!(prompt_gui_selection("3\n"), None);
    assert_eq!(prompt_gui_selection("12"), None);
    assert_eq!(prompt_gui_selection("gui"), None);
}

#[test]
fn plain_messages() {
    let o = StyleOptions { mode: RenderMode::Plain, use_color: false, quiet: false };
    assert_eq!(ok(&o, "Added"), Some("[OK] Added".to_string()));
    assert_eq!(err(&o, "boom"), Some("[ERR] boom".to_string()));
    assert_eq!(plain_line(&o, MessageKind::Info, "i"), Some("[INFO] i".to_string()));
    assert_eq!(plain_line(&o, MessageKind::Warn, "w"), Some("[WARN] w".to_string()));
    assert_eq!(plain_line(&o, MessageKind::Debug, "d"), Some("[DEBUG] d".to_string()));
    assert_eq!(kv(&o, "Status", "on"), Some("  Status: on".to_string()));
    assert_eq!(bullet(&o, "item"), Some("  * item".to_string()));
    let quiet = StyleOptions { quiet: true, ..o };
    assert_eq!(ok(&quiet, "Added"), None);
    assert_eq!(err(&quiet, "boom"), None);
    assert_eq!(kv(&quiet, "a", "b"), None);
    assert_eq!(bullet(&quiet, "a"), None);
    assert!(to_stderr(MessageKind::Warn) && to_stderr(MessageKind::Error));
    assert!(!to_stderr(MessageKind::Success) && !to_stderr(MessageKind::Info) && !to_stderr(MessageKind::Debug));
    let defaults = StyleOptions { mode: RenderMode::Fancy, use_color: true, quiet: false };
    assert_eq!(opts(None), defaults);
    assert_eq!(opts(Some(o)), o);
    assert_eq!(init(None, o), o);
    assert_eq!(init(Some(defaults), o), defaults);
}

#[test]
fn plain_frames() {
    let o = StyleOptions { mode: RenderMode::Plain, use_color: false, quiet: false };
    assert_eq!(divider(&o), Some("-".repeat(50)));
    assert_eq!(
        header(&o, "Title"),
        Some(vec!["+---------+".to_string(), "| Title |".to_string(), "+---------+".to_string()])
    );
    assert_eq!(header(&o, ""), Some(vec!["+----+".to_string(), "|  |".to_string(), "+----+".to_string()]));
    assert_eq!(header(&o, "é").unwrap()[0], "+------+");
    let quiet = StyleOptions { quiet: true, ..o };
    assert_eq!(divider(&quiet), None);
    assert_eq!(header(&quiet, "Title"), None);
}

#[test]
fn settings_updaters() {
    let sec = update_security_settings(SecuritySettings::default(), |mut s| {
        s.session_timeout_minutes = 15;
        s
    });
    assert_eq!(sec, SecuritySettings { session_timeout_minutes: 15, ..SecuritySettings::default() });
    let cli = update_cli_settings(CliSettings::default(), |mut c| {
        c.default_color = "never".to_string();
        c
    });
    assert_eq!(cli.default_color, "never");
    assert_eq!(cli.default_style, "fancy");
}

#[test]
fn settings_defaults() {
    let c = CliSettings::default();
    assert_eq!((c.default_color.as_str(), c.default_style.as_str()), ("auto", "fancy"));
    assert!(!c.verbose_help && c.confirm_destructive);
    let sec = SecuritySettings::default();
    assert!(!sec.global_master_lock);
    assert_eq!((sec.session_timeout_minutes, sec.clipboard_clear_seconds), (0, 30));
    assert!(sec.require_confirmation);
    assert_eq!(settings_path(), vec!["app_settings.json".to_string()]);
}

#[test]
fn settings_of_the_master_lock() {
    let mut sec = SecuritySettings::default();
    assert!(!is_global_master_lock_enabled(Some(&sec)));
    assert!(!is_global_master_lock_enabled(None));
    set_global_master_lock(&mut sec, true);
    assert!(is_global_master_lock_enabled(Some(&sec)));
    assert_eq!(sec, SecuritySettings { global_master_lock: true, ..SecuritySettings::default() });
    set_global_master_lock(&mut sec, false);
    assert_eq!(sec, SecuritySettings::default());
}

#[test]
fn command_line_defaults() {
    assert_eq!(get_cli_defaults(None), ("auto".to_string(), "fancy".to_string()));
    let c = CliSettings {
        default_color: "never".to_string(),
        default_style: "plain".to_string(),
        verbose_help: true,
        confirm_destructive: false,
    };
    assert_eq!(get_cli_defaults(Some(&c)), ("never".to_string(), "plain".to_string()));
}

#[test]
fn update_notice() {
    let info = UpdateInfo {
        current_version: "0.0.1".to_string(),
        latest_version: "0.1.0".to_string(),
        description: None,
        published_at: None,
    };
    assert_eq!(display_update_notification(&info), "Update available! SafeHold 0.1.0 is now available");
    assert!(check_for_updates().is_none());
}

#[test]
fn string_helpers() {
    assert_eq!(to_chars("aé✓"), vec!['a', 'é', '✓']);
    assert!(str_eq("ab", "ab"));
    assert!(!str_eq("ab", "abc"));
    assert!(!str_eq("ab", "aB"));
    for (a, b) in [("", "a"), ("a", "b"), ("a", "aa"), ("B", "a"), ("z", "é"), ("é", "✓"), ("a", ""), ("x", "x")] {
        assert_eq!(str_less(a, b), a < b);
    }
}

#[test]
fn error_messages() {
    assert_eq!(CryptoError::Malformed.message(), "cipher too short");
    assert_eq!(CryptoError::AuthenticationFailed.message(), "decrypt: wrong password or corrupted data");
    assert_eq!(CryptoError::TooLong.message(), "encrypt: the data is too long");
    assert_eq!(KeyError::AppKeyUnavailable.message(), "read app.key: missing or of invalid size");
    assert_eq!(KeyError::CorruptLock.message(), "salt b64: the salt of the lock is invalid");
    assert_eq!(KeyError::InvalidKdfParams.message(), "params: Argon2 refuses the parameters");
    assert_eq!(
        MasterLockError::PasswordTooShort.message(),
        "Master password must be at least 8 characters long"
    );
    assert_eq!(MasterLockError::PasswordMismatch.message(), "Passwords do not match");
    assert_eq!(
        MasterLockError::MissingHash.message(),
        "Master lock enabled but no password hash found"
    );
    assert_eq!(VaultError::KeyNotFound.message(), "key not found");
    assert_eq!(VaultError::InvalidMasterPassword.message(), "❌ Invalid master password");
    assert_eq!(VaultError::Key(KeyError::CorruptLock).message(), KeyError::CorruptLock.message());
    assert_eq!(
        VaultError::Crypto(CryptoError::AuthenticationFailed).message(),
        CryptoError::AuthenticationFailed.message()
    );
    assert_eq!(
        VaultError::MasterLock(MasterLockError::CorruptHash).message(),
        MasterLockError::CorruptHash.message()
    );
    assert_eq!(VaultError::TargetRequired.message(), "--project or --global required");
}
