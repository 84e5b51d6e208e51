use safehold::cli::{CountArgs, CreateArgs, ExportArgs, RunArgs};
use safehold::config::{Config, SetMeta};
use safehold::crypto::{CryptoError, KdfParams, KeyError, LockInfo};
use safehold::codec::decode_env_text;
use safehold::envmap::CredentialMap;
use safehold::envops::{
    ask_confirmation, cache_dirs, cmd_add, cmd_clean, cmd_clean_cache, cmd_count, cmd_delete,
    cmd_delete_all, cmd_export, cmd_get, cmd_global_add, cmd_global_delete, cmd_global_get,
    cmd_global_list, cmd_global_update, cmd_list, cmd_run, cmd_update, reencrypt,
    export_file, export_target, is_yes_word, key_source, list_lines, load_key_for_dir,
    read_env_map, resolve_set_dir, show_heading, show_lines, write_env_map, Destruction, KeySource,
    ProjectCount, VaultError,
};
use safehold::master_lock::{disable_master_lock, enable_master_lock, MasterLockError, MasterLockInfo};
use safehold::store::cmd_create;

const APP_KEY: [u8; 32] = [0x42; 32];

fn off() -> MasterLockInfo {
    MasterLockInfo { enabled: false, password_hash: None }
}

fn empty_catalog() -> Config {
    Config {
        sets: Vec::new(),
        global_locked: false,
        created_at: "2024-01-01T00:00:00Z".to_string(),
        version: "0.0.2".to_string(),
    }
}

fn cheap_lock() -> LockInfo {
    LockInfo {
        kdf: "argon2id".to_string(),
        salt_b64: "AAECAwQFBgcICQoLDA0ODw==".to_string(),
        params: KdfParams { m_cost: 64, t_cost: 1, p_cost: 1 },
    }
}

fn s(text: &str) -> String {
    text.to_string()
}

#[test]
fn key_comes_from_the_master_lock_first() {
    let on = MasterLockInfo { enabled: true, password_hash: Some(s("h")) };
    assert_eq!(key_source(&on, true), KeySource::MasterPassword);
    assert_eq!(key_source(&on, false), KeySource::MasterPassword);
    assert_eq!(key_source(&off(), true), KeySource::OwnPassword);
    assert_eq!(key_source(&off(), false), KeySource::AppKey);
}

#[test]
fn unlocked_bucket_uses_the_app_key() {
    assert_eq!(load_key_for_dir(&off(), None, None, Some(&APP_KEY)), Ok(APP_KEY));
    assert_eq!(load_key_for_dir(&off(), None, Some("ignored"), Some(&APP_KEY)), Ok(APP_KEY));
    assert_eq!(load_key_for_dir(&off(), None, None, None), Err(VaultError::Key(KeyError::AppKeyUnavailable)));
    assert_eq!(
        load_key_for_dir(&off(), None, None, Some(&APP_KEY[..16])),
        Err(VaultError::Key(KeyError::AppKeyUnavailable))
    );
}

#[test]
fn locked_bucket_uses_its_password() {
    let lock = cheap_lock();
    let key = load_key_for_dir(&off(), Some(&lock), Some("pw12345"), Some(&APP_KEY)).unwrap();
    assert_ne!(key, APP_KEY);
    assert_eq!(load_key_for_dir(&off(), Some(&lock), Some("pw12345"), None), Ok(key));
    assert_ne!(load_key_for_dir(&off(), Some(&lock), Some("wrong"), None), Ok(key));
    assert_eq!(load_key_for_dir(&off(), Some(&lock), None, Some(&APP_KEY)), Err(VaultError::PasswordRequired));
    let mut corrupt = cheap_lock();
    corrupt.salt_b64 = s("***");
    assert_eq!(
        load_key_for_dir(&off(), Some(&corrupt), Some("pw"), None),
        Err(VaultError::Key(KeyError::CorruptLock))
    );
    let mut bad = cheap_lock();
    bad.params.t_cost = 0;
    assert_eq!(
        load_key_for_dir(&off(), Some(&bad), Some("pw"), None),
        Err(VaultError::Key(KeyError::InvalidKdfParams))
    );
}

#[test]
fn master_lock_overrides_the_project_lock() {
    let master = enable_master_lock("correct-horse-1").unwrap();
    let lock = cheap_lock();
    let own = load_key_for_dir(&off(), Some(&lock), Some("pw12345"), Some(&APP_KEY)).unwrap();
    assert_eq!(
        load_key_for_dir(&master, Some(&lock), Some("pw12345"), Some(&APP_KEY)),
        Err(VaultError::InvalidMasterPassword)
    );
    assert_eq!(load_key_for_dir(&master, Some(&lock), None, Some(&APP_KEY)), Err(VaultError::PasswordRequired));
    let with_lock = load_key_for_dir(&master, Some(&lock), Some("correct-horse-1"), Some(&APP_KEY)).unwrap();
    let without = load_key_for_dir(&master, None, Some("correct-horse-1"), None).unwrap();
    assert_eq!(with_lock, without);
    assert_ne!(with_lock, own);
    assert_ne!(with_lock, APP_KEY);
}

#[test]
fn master_lock_with_a_broken_state_gives_no_key() {
    let missing = MasterLockInfo { enabled: true, password_hash: None };
    assert_eq!(
        load_key_for_dir(&missing, None, Some("x"), Some(&APP_KEY)),
        Err(VaultError::MasterLock(MasterLockError::MissingHash))
    );
    let corrupt = MasterLockInfo { enabled: true, password_hash: Some(s("junk")) };
    assert_eq!(
        load_key_for_dir(&corrupt, None, Some("x"), Some(&APP_KEY)),
        Err(VaultError::MasterLock(MasterLockError::CorruptHash))
    );
}

#[test]
fn nothing_stored_reads_as_the_empty_map() {
    let map = read_env_map(&APP_KEY, &[]).unwrap();
    assert!(map.is_empty());
}

#[test]
fn written_map_reads_back() {
    let map = decode_env_text("B=2\nA=1\nURL=http://x/?a=b\n");
    let blob = write_env_map(&APP_KEY, &map).unwrap();
    assert_eq!(blob.len(), 12 + "A=1\nB=2\nURL=http://x/?a=b\n".len() + 16);
    let back = read_env_map(&APP_KEY, &blob).unwrap();
    assert_eq!(back.entries(), map.entries());
    assert_eq!(read_env_map(&[0u8; 32], &blob).err(), Some(VaultError::Crypto(CryptoError::AuthenticationFailed)));
    assert_eq!(read_env_map(&APP_KEY, &blob[..5]).err(), Some(VaultError::Crypto(CryptoError::Malformed)));
    let empty = write_env_map(&APP_KEY, &CredentialMap::new()).unwrap();
    assert_eq!(empty.len(), 28);
    assert!(read_env_map(&APP_KEY, &empty).unwrap().is_empty());
}

#[test]
fn unlocked_project_add_get_delete() {
    let mut cfg = empty_catalog();
    let made = cmd_create(&mut cfg, &CreateArgs { name: s("demo"), lock: false, password: None }, false).unwrap();
    assert_eq!(made.id, "001_demo");
    assert_eq!(resolve_set_dir(&cfg, "demo"), Ok(vec![s("credentials"), s("001_demo")]));
    let key = load_key_for_dir(&off(), made.lock.as_ref(), None, Some(&APP_KEY)).unwrap();
    let blob = cmd_add(&key, &[], s("API_KEY"), s("abc123")).unwrap();
    assert_eq!(cmd_get(&key, &blob, "API_KEY"), Ok(s("abc123")));
    assert_eq!(cmd_list(&key, &blob), Ok(vec![s("API_KEY=abc123")]));
    let blob = cmd_delete(&key, &blob, "API_KEY").unwrap().unwrap();
    assert_eq!(cmd_get(&key, &blob, "API_KEY"), Err(VaultError::KeyNotFound));
    assert_eq!(cmd_list(&key, &blob), Ok(Vec::<String>::new()));
}

#[test]
fn locked_project_needs_the_right_password() {
    let mut cfg = empty_catalog();
    let args = CreateArgs { name: s("vault1"), lock: true, password: Some(s("pw12345")) };
    let made = cmd_create(&mut cfg, &args, false).unwrap();
    let lock = made.lock.unwrap();
    let key = load_key_for_dir(&off(), Some(&lock), Some("pw12345"), Some(&APP_KEY)).unwrap();
    let blob = cmd_add(&key, &[], s("TOKEN"), s("xyz")).unwrap();
    let wrong = load_key_for_dir(&off(), Some(&lock), Some("wrong"), Some(&APP_KEY)).unwrap();
    assert_eq!(cmd_get(&wrong, &blob, "TOKEN"), Err(VaultError::Crypto(CryptoError::AuthenticationFailed)));
    let again = load_key_for_dir(&off(), Some(&lock), Some("pw12345"), Some(&APP_KEY)).unwrap();
    assert_eq!(cmd_get(&again, &blob, "TOKEN"), Ok(s("xyz")));
}

#[test]
fn master_lock_scenario() {
    let mut cfg = empty_catalog();
    let args = CreateArgs { name: s("vault1"), lock: true, password: Some(s("pw12345")) };
    let lock = cmd_create(&mut cfg, &args, false).unwrap().lock.unwrap();
    let master = enable_master_lock("masterpw1").unwrap();
    assert_eq!(
        load_key_for_dir(&master, Some(&lock), Some("pw12345"), Some(&APP_KEY)),
        Err(VaultError::InvalidMasterPassword)
    );
    let key = load_key_for_dir(&master, Some(&lock), Some("masterpw1"), Some(&APP_KEY)).unwrap();
    assert!(read_env_map(&key, &[]).unwrap().is_empty());
    let blob = cmd_add(&key, &[], s("TOKEN"), s("xyz")).unwrap();
    assert_eq!(cmd_get(&key, &blob, "TOKEN"), Ok(s("xyz")));
    assert_eq!(disable_master_lock(&master, "pw12345").err(), Some(MasterLockError::VerificationFailed));
    let cleared = disable_master_lock(&master, "masterpw1").unwrap();
    assert!(!cleared.enabled);
}

#[test]
fn add_replaces_and_keeps_the_rest() {
    let blob = cmd_add(&APP_KEY, &[], s("A"), s("1")).unwrap();
    let blob = cmd_add(&APP_KEY, &blob, s("B"), s("2")).unwrap();
    let blob = cmd_add(&APP_KEY, &blob, s("A"), s("3")).unwrap();
    assert_eq!(cmd_list(&APP_KEY, &blob), Ok(vec![s("A=3"), s("B=2")]));
    assert_eq!(cmd_add(&[1u8; 32], &blob, s("C"), s("4")), Err(VaultError::Crypto(CryptoError::AuthenticationFailed)));
}

#[test]
fn delete_of_a_missing_key() {
    let blob = cmd_add(&APP_KEY, &[], s("A"), s("1")).unwrap();
    assert_eq!(cmd_delete(&APP_KEY, &blob, "B"), Ok(None));
    assert_eq!(cmd_delete(&APP_KEY, &[], "B"), Ok(None));
    assert_eq!(cmd_global_delete(&APP_KEY, &blob, "B"), Err(VaultError::KeyNotFound));
    let blob = cmd_global_delete(&APP_KEY, &blob, "A").unwrap();
    assert_eq!(cmd_list(&APP_KEY, &blob), Ok(Vec::<String>::new()));
}

#[test]
fn update_needs_the_key_to_exist() {
    let blob = cmd_add(&APP_KEY, &[], s("API_KEY"), s("secret123")).unwrap();
    assert_eq!(cmd_update(&APP_KEY, &blob, s("OTHER"), s("x")), Err(VaultError::KeyNotFound));
    let blob = cmd_update(&APP_KEY, &blob, s("API_KEY"), s("newsecret456")).unwrap();
    assert_eq!(cmd_get(&APP_KEY, &blob, "API_KEY"), Ok(s("newsecret456")));
}

#[test]
fn resolving_buckets() {
    let mut cfg = empty_catalog();
    cfg.sets = vec![
        SetMeta { id: s("001_a"), name: s("twin"), locked: false },
        SetMeta { id: s("002_b"), name: s("twin"), locked: false },
    ];
    assert_eq!(resolve_set_dir(&cfg, "global"), Ok(vec![s("global")]));
    assert_eq!(resolve_set_dir(&cfg, "twin"), Ok(vec![s("credentials"), s("001_a")]));
    assert_eq!(resolve_set_dir(&cfg, "002_b"), Ok(vec![s("credentials"), s("002_b")]));
    assert_eq!(resolve_set_dir(&cfg, "nonexistent"), Err(VaultError::ProjectNotFound));
}

#[test]
fn confirmation() {
    assert!(ask_confirmation(true, None));
    assert!(ask_confirmation(true, Some("no")));
    assert!(ask_confirmation(false, Some("yes")));
    assert!(ask_confirmation(false, Some("  YeS\n")));
    assert!(!ask_confirmation(false, Some("y")));
    assert!(!ask_confirmation(false, Some("")));
    assert!(!ask_confirmation(false, None));
    assert!(is_yes_word("yes"));
    assert!(!is_yes_word("YES"));
}

#[test]
fn cleaning_the_cache() {
    assert_eq!(cmd_clean_cache(0, true, None), Destruction::Nothing);
    assert_eq!(cmd_clean_cache(3, true, None), Destruction::Proceed);
    assert_eq!(cmd_clean_cache(3, false, Some("yes")), Destruction::Proceed);
    assert_eq!(cmd_clean_cache(3, false, Some("nope")), Destruction::Cancelled);
    assert_eq!(cmd_clean_cache(3, false, None), Destruction::Cancelled);
    assert_eq!(cache_dirs(), vec![s("cache"), s("tmp"), s("temp"), s(".cache")]);
}

#[test]
fn deleting_everything() {
    assert_eq!(cmd_delete_all(false, true, None), Destruction::Nothing);
    assert_eq!(cmd_delete_all(true, true, None), Destruction::Proceed);
    assert_eq!(cmd_delete_all(true, false, Some("DELETE ALL MY DATA\n")), Destruction::Proceed);
    assert_eq!(cmd_delete_all(true, false, Some("delete all my data")), Destruction::Cancelled);
    assert_eq!(cmd_delete_all(true, false, Some("yes")), Destruction::Cancelled);
    assert_eq!(cmd_delete_all(true, false, None), Destruction::Cancelled);
}

#[test]
fn stray_files() {
    assert!(cmd_clean(true, ".env"));
    assert!(!cmd_clean(false, ".env"));
    assert!(!cmd_clean(true, ".env.enc"));
    assert!(!cmd_clean(true, "a.env"));
}

fn export_args(project: Option<&str>, global: bool, file: Option<&str>, force: bool, temp: bool) -> ExportArgs {
    ExportArgs { project: project.map(s), global, file: file.map(s), force, temp }
}

#[test]
fn export_plans() {
    let map = decode_env_text("LOCAL=lval\nEXPORT_KEY=exportval\n");
    let plan = cmd_export(&export_args(Some("proj"), false, None, false, false), &map, false).unwrap();
    assert_eq!(plan.file, ".env");
    assert_eq!(plan.content, "EXPORT_KEY=exportval\nLOCAL=lval\n");
    assert!(!plan.temporary);
    let args = export_args(Some("proj"), false, Some("test.env"), false, true);
    assert_eq!(cmd_export(&args, &map, true).err(), Some(VaultError::FileExists));
    let plan = cmd_export(&export_args(None, true, Some("test.env"), true, true), &map, true).unwrap();
    assert_eq!(plan.file, "test.env");
    assert!(plan.temporary);
    assert_eq!(export_file(&args), "test.env");
}

#[test]
fn export_targets() {
    assert_eq!(export_target(&export_args(Some("proj"), false, None, false, false)), Ok(s("proj")));
    assert_eq!(export_target(&export_args(Some("proj"), true, None, false, false)), Ok(s("global")));
    assert_eq!(export_target(&export_args(None, true, None, false, false)), Ok(s("global")));
    assert_eq!(export_target(&export_args(None, false, None, false, false)), Err(VaultError::TargetRequired));
}

#[test]
fn run_plans() {
    let project = decode_env_text("LOCAL=lval\nSHARED=mine\n");
    let global = decode_env_text("SHARED=gval\n");
    let args = RunArgs { project: s("proj"), with_global: true, command: vec![s("/usr/bin/env"), s("-i"), s("x")] };
    let plan = cmd_run(&args, project, Some(&global)).unwrap();
    assert_eq!(plan.program, "/usr/bin/env");
    assert_eq!(plan.args, vec![s("-i"), s("x")]);
    assert_eq!(plan.env, vec![(s("LOCAL"), s("lval")), (s("SHARED"), s("gval"))]);
    let args = RunArgs { project: s("proj"), with_global: false, command: vec![s("true")] };
    let plan = cmd_run(&args, decode_env_text("SHARED=mine\n"), Some(&global)).unwrap();
    assert_eq!(plan.args, Vec::<String>::new());
    assert_eq!(plan.env, vec![(s("SHARED"), s("mine"))]);
    let args = RunArgs { project: s("proj"), with_global: true, command: Vec::new() };
    assert!(cmd_run(&args, CredentialMap::new(), None).is_none());
}

fn counted(name: &str, count: Option<usize>) -> ProjectCount {
    ProjectCount { name: s(name), id: format!("001_{}", name), count }
}

#[test]
fn counting() {
    let counts = vec![counted("project1", Some(2)), counted("project2", Some(1)), counted("broken", None)];
    let all = CountArgs { project: None, include_global: true, detailed: false };
    let r = cmd_count(&all, &counts, Some(1));
    assert_eq!((r.total, r.global_count, r.projects), (4, 1, 3));
    let without = CountArgs { project: None, include_global: false, detailed: true };
    let r = cmd_count(&without, &counts, Some(1));
    assert_eq!((r.total, r.global_count, r.projects), (3, 0, 3));
    let r = cmd_count(&all, &counts, None);
    assert_eq!((r.total, r.global_count), (3, 0));
    let r = cmd_count(&all, &Vec::new(), None);
    assert_eq!((r.total, r.global_count, r.projects), (0, 0, 0));
    let huge = vec![counted("a", Some(usize::MAX)), counted("b", Some(usize::MAX))];
    let r = cmd_count(&all, &huge, Some(usize::MAX));
    assert_eq!(r.total, 3 * (usize::MAX as u128));
}

#[test]
fn listing_lines() {
    let map = decode_env_text("SHOW_GLOBAL=globalval\nA=\n");
    assert_eq!(list_lines(&map), vec![s("A="), s("SHOW_GLOBAL=globalval")]);
    assert_eq!(show_lines(&map), vec![s("  A="), s("  SHOW_GLOBAL=globalval")]);
    let project = SetMeta { id: s("001_show-test"), name: s("show-test"), locked: false };
    assert_eq!(show_heading(&project), "PROJECT 001_show-test (show-test)");
}

#[test]
fn global_credentials() {
    let blob = cmd_global_add(&APP_KEY, &[], s("GLOBAL_TOKEN"), s("globalvalue123")).unwrap();
    assert_eq!(cmd_global_get(&APP_KEY, &blob, "GLOBAL_TOKEN"), Ok(s("globalvalue123")));
    assert_eq!(cmd_global_list(&APP_KEY, &blob), Ok(vec![s("GLOBAL_TOKEN=globalvalue123")]));
    let blob = cmd_global_update(&APP_KEY, &blob, s("GLOBAL_TOKEN"), s("updatedglobal456")).unwrap();
    assert_eq!(cmd_global_get(&APP_KEY, &blob, "GLOBAL_TOKEN"), Ok(s("updatedglobal456")));
    assert_eq!(cmd_global_update(&APP_KEY, &blob, s("NONEXISTENT"), s("x")), Err(VaultError::KeyNotFound));
    assert_eq!(cmd_global_get(&APP_KEY, &blob, "NONEXISTENT"), Err(VaultError::KeyNotFound));
    let blob = cmd_global_delete(&APP_KEY, &blob, "GLOBAL_TOKEN").unwrap();
    assert_eq!(cmd_global_list(&APP_KEY, &blob), Ok(Vec::<String>::new()));
}

#[test]
fn credentials_move_to_another_key() {
    let lock = cheap_lock();
    let own = load_key_for_dir(&off(), Some(&lock), Some("pw12345"), None).unwrap();
    let blob = cmd_add(&own, &[], s("TOKEN"), s("xyz")).unwrap();
    assert_eq!(cmd_get(&APP_KEY, &blob, "TOKEN"), Err(VaultError::Crypto(CryptoError::AuthenticationFailed)));
    let moved = reencrypt(&own, &APP_KEY, &blob).unwrap();
    assert_eq!(cmd_get(&APP_KEY, &moved, "TOKEN"), Ok(s("xyz")));
    assert_eq!(cmd_get(&own, &moved, "TOKEN"), Err(VaultError::Crypto(CryptoError::AuthenticationFailed)));
    assert_eq!(reencrypt(&own, &APP_KEY, &[]), Ok(Vec::new()));
    assert_eq!(reencrypt(&APP_KEY, &own, &blob), Err(VaultError::Crypto(CryptoError::AuthenticationFailed)));
    assert_eq!(reencrypt(&own, &APP_KEY, &blob[..3]), Err(VaultError::Crypto(CryptoError::Malformed)));
}

#[test]
fn data_sealed_before_the_master_lock_stays_under_its_old_key() {
    let lock = cheap_lock();
    let own = load_key_for_dir(&off(), Some(&lock), Some("pw12345"), None).unwrap();
    let blob = cmd_add(&own, &[], s("TOKEN"), s("xyz")).unwrap();
    let master = enable_master_lock("masterpw1").unwrap();
    let key = load_key_for_dir(&master, Some(&lock), Some("masterpw1"), None).unwrap();
    assert_eq!(cmd_get(&key, &blob, "TOKEN"), Err(VaultError::Crypto(CryptoError::AuthenticationFailed)));
    let moved = reencrypt(&own, &key, &blob).unwrap();
    assert_eq!(cmd_get(&key, &moved, "TOKEN"), Ok(s("xyz")));
}
