use safehold::codec::decode_env_text;
use safehold::config::{Config, SetMeta};
use safehold::crypto::{derive_key_from_password, CryptoError};
use safehold::envops::{read_env_map, VaultError};
use safehold::master_lock::{enable_master_lock, MasterLockInfo};
use safehold::ui::{GlobalLockChange, NotificationSeverity, SafeHoldApp, TabView};

fn s(text: &str) -> String {
    text.to_string()
}

fn catalog(ids: &[&str]) -> Config {
    Config {
        sets: ids.iter().map(|id| SetMeta { id: s(id), name: s(&id[4..]), locked: false }).collect(),
        global_locked: false,
        created_at: s("2024-01-01T00:00:00Z"),
        version: s("0.0.2"),
    }
}

fn notes(app: &SafeHoldApp) -> Vec<(String, NotificationSeverity)> {
    app.notifications.iter().map(|n| (n.text.clone(), n.severity)).collect()
}

fn last_note(app: &SafeHoldApp) -> (String, NotificationSeverity) {
    notes(app).pop().unwrap()
}

fn loaded(app: &SafeHoldApp, id: &str) -> Option<Vec<(String, String)>> {
    app.maps_cache.iter().find(|(i, _)| i == id).map(|(_, m)| m.entries())
}

#[test]
fn session_starts_empty() {
    let app = SafeHoldApp::new(Some(catalog(&["001_a"])), true);
    assert_eq!(app.cfg.sets.len(), 1);
    assert_eq!(app.selected, None);
    assert!(app.maps_cache.is_empty());
    assert!(app.passwords.is_empty());
    assert_eq!(app.current_tab, TabView::Projects);
    assert_eq!(app.auto_save_interval, 30);
    assert!(app.notifications.is_empty());
    assert_eq!((app.total_projects, app.total_credentials), (0, 0));
    assert!(app.master_lock_enabled);
    assert!(!app.show_master_lock_dialog && !app.show_create && !app.show_passwords);
    let app = SafeHoldApp::new(None, false);
    assert!(app.cfg.sets.is_empty());
    assert!(!app.master_lock_enabled);
}

#[test]
fn only_the_last_five_notifications_stay() {
    let mut app = SafeHoldApp::new(None, false);
    for i in 1..=5 {
        app.add_notification(format!("n{}", i), NotificationSeverity::Info);
    }
    assert_eq!(app.notifications.len(), 5);
    app.add_notification(s("n6"), NotificationSeverity::Error);
    let texts: Vec<String> = notes(&app).into_iter().map(|n| n.0).collect();
    assert_eq!(texts, vec!["n2", "n3", "n4", "n5", "n6"]);
    assert_eq!(last_note(&app).1, NotificationSeverity::Error);
    app.add_notification(s("n7"), NotificationSeverity::Success);
    assert_eq!(app.notifications.len(), 5);
    assert_eq!(notes(&app)[0].0, "n3");
}

#[test]
fn selecting_shows_the_credentials() {
    let mut app = SafeHoldApp::new(Some(catalog(&["001_a"])), false);
    assert!(app.select("001_a"));
    assert_eq!(app.selected.as_deref(), Some("001_a"));
    assert_eq!(app.current_tab, TabView::Credentials);
    assert!(app.ensure_loaded("001_a", Ok(decode_env_text("A=1\n"))));
    assert!(app.is_loaded("001_a"));
    assert!(!app.select("001_a"));
    assert!(app.select("global"));
    assert_eq!(app.selected.as_deref(), Some("global"));
}

#[test]
fn loading_keeps_what_was_loaded_and_reports_failures() {
    let mut app = SafeHoldApp::new(None, false);
    let err = VaultError::Crypto(CryptoError::AuthenticationFailed);
    assert!(!app.ensure_loaded("001_a", Err(err)));
    assert!(!app.is_loaded("001_a"));
    assert_eq!(
        last_note(&app),
        (s("Failed to load 001_a: decrypt: wrong password or corrupted data"), NotificationSeverity::Error)
    );
    assert!(app.ensure_loaded("001_a", Ok(decode_env_text("A=1\n"))));
    assert!(app.ensure_loaded("001_a", Ok(decode_env_text("B=2\n"))));
    assert!(app.ensure_loaded("001_a", Err(err)));
    assert_eq!(loaded(&app, "001_a"), Some(vec![(s("A"), s("1"))]));
    assert_eq!(app.maps_cache.len(), 1);
    assert_eq!(app.notifications.len(), 1);
}

#[test]
fn adding_a_credential() {
    let mut app = SafeHoldApp::new(None, false);
    app.new_key = s("  API_KEY ");
    app.new_val = s(" abc123 ");
    assert!(app.add_kv("001_demo"));
    assert_eq!(loaded(&app, "001_demo"), Some(vec![(s("API_KEY"), s(" abc123 "))]));
    assert!(app.notifications.is_empty());
    app.kv_saved(Ok(()));
    assert_eq!(last_note(&app), (s("Added credential '  API_KEY '"), NotificationSeverity::Success));
    assert_eq!((app.new_key.as_str(), app.new_val.as_str()), ("", ""));
}

#[test]
fn adding_needs_a_key_that_is_new() {
    let mut app = SafeHoldApp::new(None, false);
    app.new_key = s(" \t ");
    assert!(!app.add_kv("global"));
    assert_eq!(last_note(&app), (s("Key cannot be empty"), NotificationSeverity::Warning));
    assert!(app.maps_cache.is_empty());
    app.ensure_loaded("global", Ok(decode_env_text("A=1\n")));
    app.new_key = s("A");
    app.new_val = s("2");
    assert!(!app.add_kv("global"));
    assert_eq!(
        last_note(&app),
        (s("Key 'A' already exists. Use edit to modify."), NotificationSeverity::Warning)
    );
    assert_eq!(loaded(&app, "global"), Some(vec![(s("A"), s("1"))]));
    assert_eq!(app.new_key, "A");
    app.new_key = s(" A");
    assert!(app.add_kv("global"));
    assert_eq!(loaded(&app, "global"), Some(vec![(s("A"), s("2"))]));
}

#[test]
fn failed_save_keeps_the_form() {
    let mut app = SafeHoldApp::new(None, false);
    app.new_key = s("K");
    app.new_val = s("v");
    assert!(app.add_kv("global"));
    app.kv_saved(Err(s("disk full")));
    assert_eq!(last_note(&app), (s("Save failed: disk full"), NotificationSeverity::Error));
    assert_eq!((app.new_key.as_str(), app.new_val.as_str()), ("K", "v"));
}

#[test]
fn deleting_a_credential() {
    let mut app = SafeHoldApp::new(Some(catalog(&["001_a"])), false);
    assert!(!app.delete_key("001_a", "A"));
    app.ensure_loaded("001_a", Ok(decode_env_text("A=1\nB=2\n")));
    app.ensure_loaded("global", Ok(decode_env_text("B=3\n")));
    assert!(app.delete_key("001_a", "A"));
    assert_eq!(loaded(&app, "001_a"), Some(vec![(s("B"), s("2"))]));
    assert_eq!(loaded(&app, "global"), Some(vec![(s("B"), s("3"))]));
    assert!(app.delete_key("001_a", "missing"));
    app.key_deleted("A", Ok(()));
    assert_eq!(last_note(&app), (s("Deleted credential 'A'"), NotificationSeverity::Success));
    assert_eq!((app.total_projects, app.total_credentials), (1, 2));
    assert_eq!(app.duplicate_keys, vec![(s("B"), vec![s("global"), s("001_a")])]);
    app.key_deleted("B", Err(s("read-only")));
    assert_eq!(last_note(&app), (s("Delete failed: read-only"), NotificationSeverity::Error));
}

#[test]
fn saving_seals_the_loaded_credentials() {
    let mut app = SafeHoldApp::new(None, false);
    let key = [5u8; 32];
    assert!(app.save_map("global", &key).is_none());
    app.ensure_loaded("global", Ok(decode_env_text("B=2\nA=1\n")));
    let blob = app.save_map("global", &key).unwrap().unwrap();
    assert_eq!(read_env_map(&key, &blob).unwrap().entries(), vec![(s("A"), s("1")), (s("B"), s("2"))]);
}

#[test]
fn statistics_find_keys_held_more_than_once() {
    let mut app = SafeHoldApp::new(Some(catalog(&["001_a", "002_b", "003_c"])), false);
    app.ensure_loaded("002_b", Ok(decode_env_text("SHARED=1\nONLY_B=2\nZ=9\n")));
    app.ensure_loaded("global", Ok(decode_env_text("SHARED=g\nZ=8\n")));
    app.ensure_loaded("001_a", Ok(decode_env_text("SHARED=a\nONLY_A=1\n")));
    app.ensure_loaded("009_gone", Ok(decode_env_text("SHARED=x\nONLY_A=2\n")));
    app.update_statistics();
    assert_eq!(app.total_projects, 3);
    assert_eq!(app.total_credentials, 9);
    assert_eq!(
        app.duplicate_keys,
        vec![
            (s("SHARED"), vec![s("global"), s("001_a"), s("002_b")]),
            (s("Z"), vec![s("global"), s("002_b")]),
        ]
    );
}

#[test]
fn statistics_of_nothing() {
    let mut app = SafeHoldApp::new(None, false);
    app.update_statistics();
    assert_eq!((app.total_projects, app.total_credentials), (0, 0));
    assert!(app.duplicate_keys.is_empty());
}

#[test]
fn refreshed_catalog_is_taken_over() {
    let mut app = SafeHoldApp::new(Some(catalog(&["001_a"])), false);
    app.ensure_loaded("001_a", Ok(decode_env_text("A=1\n")));
    app.refresh_config(None);
    assert_eq!(app.total_projects, 0);
    app.refresh_config(Some(catalog(&["001_a", "002_b"])));
    assert_eq!(app.cfg.sets.len(), 2);
    assert_eq!((app.total_projects, app.total_credentials), (2, 1));
}

#[test]
fn master_lock_form_is_checked_before_enabling() {
    let mut app = SafeHoldApp::new(None, false);
    assert!(app.handle_master_lock_enable().is_none());
    assert_eq!(last_note(&app), (s("Enter master password"), NotificationSeverity::Warning));
    app.master_password_input = s("masterpw1");
    app.master_password_confirm = s("masterpw2");
    assert!(app.handle_master_lock_enable().is_none());
    assert_eq!(last_note(&app), (s("Passwords do not match"), NotificationSeverity::Warning));
    app.master_password_input = s("short");
    app.master_password_confirm = s("short");
    assert!(app.handle_master_lock_enable().is_none());
    assert_eq!(
        last_note(&app),
        (s("Master password must be at least 8 characters"), NotificationSeverity::Warning)
    );
    app.master_password_input = s("masterpw1");
    app.master_password_confirm = s("masterpw1");
    let info = app.handle_master_lock_enable().unwrap();
    assert!(info.enabled);
    assert_eq!(app.notifications.len(), 3);
    assert!(!app.master_lock_enabled);
    app.master_lock_stored(true, Ok(()));
    assert!(app.master_lock_enabled);
    assert!(!app.show_master_lock_dialog);
    assert_eq!((app.master_password_input.as_str(), app.master_password_confirm.as_str()), ("", ""));
    assert_eq!(
        last_note(&app),
        (
            s("🔒 Global Master Lock ENABLED - All projects now require master password"),
            NotificationSeverity::Success
        )
    );
}

#[test]
fn master_lock_is_disabled_with_its_password_only() {
    let info = enable_master_lock("masterpw1").unwrap();
    let mut app = SafeHoldApp::new(None, true);
    assert!(!app.handle_master_lock_disable(&info));
    assert_eq!(last_note(&app), (s("Enter master password to disable"), NotificationSeverity::Warning));
    app.master_password_input = s("pw12345");
    assert!(!app.handle_master_lock_disable(&info));
    assert_eq!(last_note(&app), (s("Invalid master password"), NotificationSeverity::Error));
    let corrupt = MasterLockInfo { enabled: true, password_hash: Some(s("junk")) };
    assert!(!app.handle_master_lock_disable(&corrupt));
    assert_eq!(
        last_note(&app),
        (s("Error verifying password: parse hash: the stored password hash is invalid"), NotificationSeverity::Error)
    );
    let missing = MasterLockInfo { enabled: true, password_hash: None };
    assert!(!app.handle_master_lock_disable(&missing));
    assert_eq!(
        last_note(&app),
        (s("Error verifying password: Master lock enabled but no password hash found"), NotificationSeverity::Error)
    );
    app.master_password_input = s("masterpw1");
    assert!(app.handle_master_lock_disable(&info));
    app.master_lock_stored(false, Err(s("disk full")));
    assert!(app.master_lock_enabled);
    assert_eq!(app.master_password_input, "masterpw1");
    assert_eq!(last_note(&app), (s("Failed to disable master lock: disk full"), NotificationSeverity::Error));
    app.master_lock_stored(false, Ok(()));
    assert!(!app.master_lock_enabled);
    assert_eq!(
        last_note(&app),
        (s("🔓 Global Master Lock DISABLED - Projects use individual settings"), NotificationSeverity::Success)
    );
    app.refresh_master_lock_status(true);
    assert!(app.master_lock_enabled);
}

#[test]
fn locking_the_shared_bucket() {
    let mut app = SafeHoldApp::new(None, false);
    assert!(matches!(app.lock_unlock_global(true, true), GlobalLockChange::Keep));
    assert!(matches!(app.lock_unlock_global(false, false), GlobalLockChange::Keep));
    assert!(app.notifications.is_empty());
    assert!(matches!(app.lock_unlock_global(true, false), GlobalLockChange::Keep));
    assert_eq!(last_note(&app), (s("Enter password before locking"), NotificationSeverity::Warning));
    app.new_project_password = s("pw12345");
    app.new_project_confirm_password = s("pw1234");
    assert!(matches!(app.lock_unlock_global(true, false), GlobalLockChange::Keep));
    assert_eq!(last_note(&app), (s("Passwords do not match"), NotificationSeverity::Warning));
    app.new_project_confirm_password = s("pw12345");
    match app.lock_unlock_global(true, false) {
        GlobalLockChange::Lock(lock) => assert!(derive_key_from_password("pw12345", &lock).is_ok()),
        other => panic!("unexpected change {:?}", other),
    }
    assert_eq!(last_note(&app), (s("Global project locked"), NotificationSeverity::Success));
    assert_eq!(app.passwords.get("global").map(|p| p.as_str()), Some("pw12345"));
    assert_eq!((app.new_project_password.as_str(), app.new_project_confirm_password.as_str()), ("", ""));
}

#[test]
fn unlocking_the_shared_bucket() {
    let mut app = SafeHoldApp::new(None, false);
    app.passwords.insert(s("global"), s("pw12345"));
    app.passwords.insert(s("001_a"), s("other"));
    app.ensure_loaded("global", Ok(decode_env_text("A=1\n")));
    app.ensure_loaded("001_a", Ok(decode_env_text("B=2\n")));
    assert!(matches!(app.lock_unlock_global(false, true), GlobalLockChange::Unlock));
    assert_eq!(last_note(&app), (s("Global project unlocked"), NotificationSeverity::Success));
    assert_eq!(app.passwords.get("global"), None);
    assert_eq!(app.passwords.get("001_a").map(|p| p.as_str()), Some("other"));
    assert!(!app.is_loaded("global"));
    assert!(app.is_loaded("001_a"));
}

#[test]
fn lock_state_of_a_bucket() {
    assert!(SafeHoldApp::is_locked(Some(true)));
    assert!(!SafeHoldApp::is_locked(Some(false)));
    assert!(!SafeHoldApp::is_locked(None));
}
