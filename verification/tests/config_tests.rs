use safehold::config::{
    app_key_path, check_version_compatibility, config_path, default_version, env_enc_path,
    global_dir, load_config, lock_path, next_set_id, package_version, set_dir, set_number,
    version_file_path, Config, ConfigError, LegacyConfig, SetMeta, StoredConfig, VersionInfo,
};

fn meta(id: &str, name: &str) -> SetMeta {
    SetMeta { id: id.to_string(), name: name.to_string(), locked: false }
}

fn strs(items: &[&str]) -> Vec<String> {
    items.iter().map(|s| s.to_string()).collect()
}

#[test]
fn first_id_is_one_in_three_digits() {
    assert_eq!(next_set_id("a", &[]), "001_a");
}

#[test]
fn ids_follow_the_greatest_number_in_use() {
    let sets = vec![meta("001_a", "a"), meta("002_b", "b")];
    assert_eq!(next_set_id("c", &sets), "003_c");
    let sets = vec![meta("007_x", "x"), meta("003_y", "y")];
    assert_eq!(next_set_id("z", &sets), "008_z");
}

#[test]
fn ids_pass_three_digits() {
    assert_eq!(next_set_id("n", &[meta("009_a", "a")]), "010_n");
    assert_eq!(next_set_id("n", &[meta("099_a", "a")]), "100_n");
    assert_eq!(next_set_id("n", &[meta("999_a", "a")]), "1000_n");
    assert_eq!(next_set_id("n", &[meta("4294967294_a", "a")]), "4294967295_n");
    assert_eq!(next_set_id("n", &[meta("4294967295_a", "a")]), "4294967296_n");
}

#[test]
fn ids_without_a_number_do_not_count() {
    let sets = vec![
        meta("global", "g"),
        meta("abc_x", "x"),
        meta("12", "no underscore"),
        meta("_x", "empty number"),
        meta("-5_x", "minus"),
        meta("4294967296_x", "too large"),
        meta("1 _x", "space"),
        meta("٣_x", "other digits"),
    ];
    assert_eq!(next_set_id("n", &sets), "001_n");
}

#[test]
fn id_numbers_are_read_as_unsigned_decimal() {
    assert_eq!(set_number("001_a"), Some(1));
    assert_eq!(set_number("0_a"), Some(0));
    assert_eq!(set_number("+5_a"), Some(5));
    assert_eq!(set_number("000000000000042_a_b"), Some(42));
    assert_eq!(set_number("4294967295_a"), Some(u32::MAX));
    assert_eq!(set_number("4294967296_a"), None);
    assert_eq!(set_number("99999999999999999999999_a"), None);
    assert_eq!(set_number("+_a"), None);
    assert_eq!(set_number("++1_a"), None);
    assert_eq!(set_number("-1_a"), None);
    assert_eq!(set_number("_a"), None);
    assert_eq!(set_number("1a_b"), None);
    assert_eq!(set_number("12"), None);
    assert_eq!(set_number(""), None);
}

#[test]
fn id_numbers_agree_with_the_standard_parser() {
    for text in ["7", "+7", "007", "", "+", "-", "-0", "12x", "4294967295", "4294967296", " 1", "1 "] {
        let id = format!("{}_name", text);
        assert_eq!(set_number(&id), text.parse::<u32>().ok());
    }
}

#[test]
fn name_is_kept_as_it_is() {
    assert_eq!(next_set_id("my_project 1", &[]), "001_my_project 1");
    assert_eq!(next_set_id("", &[]), "001_");
    assert_eq!(next_set_id("ünï", &[meta("001_a", "a")]), "002_ünï");
}

#[test]
fn project_ids_increase_in_sequence() {
    let mut sets: Vec<SetMeta> = Vec::new();
    for name in ["a", "b", "c"] {
        let id = next_set_id(name, &sets);
        sets.push(meta(&id, name));
    }
    let ids: Vec<&str> = sets.iter().map(|s| s.id.as_str()).collect();
    assert_eq!(ids, vec!["001_a", "002_b", "003_c"]);
    sets.remove(1);
    let id = next_set_id("d", &sets);
    assert_eq!(id, "004_d");
    assert!(sets.iter().all(|s| s.id != id));
}

#[test]
fn layout_below_the_data_directory() {
    assert_eq!(set_dir("001_a"), strs(&["credentials", "001_a"]));
    assert_eq!(global_dir(), strs(&["global"]));
    assert_eq!(lock_path(&set_dir("001_a")), strs(&["credentials", "001_a", "lock.json"]));
    assert_eq!(env_enc_path(&global_dir()), strs(&["global", ".env.enc"]));
    assert_eq!(lock_path(&Vec::new()), strs(&["lock.json"]));
    assert_eq!(version_file_path(), strs(&["version.json"]));
    assert_eq!(config_path(), strs(&["config.json"]));
    assert_eq!(app_key_path(), strs(&["app.key"]));
}

#[test]
fn new_catalog_is_empty() {
    let cfg = Config::default();
    assert!(cfg.sets.is_empty());
    assert!(!cfg.global_locked);
    assert_eq!(cfg.version, "0.0.2");
    assert!(cfg.created_at.contains('T'));
    assert_eq!(default_version(), "0.0.2");
    let v = VersionInfo::default();
    assert_eq!(v.version, "0.0.1");
    assert_eq!(package_version(), "0.0.1");
    assert!(v.last_updated.contains('T'));
}

fn catalog(version: &str) -> Config {
    Config {
        sets: vec![meta("001_a", "a")],
        global_locked: true,
        created_at: "2024-01-01T00:00:00Z".to_string(),
        version: version.to_string(),
    }
}

#[test]
fn current_catalog_is_taken_as_it_is() {
    let loaded = load_config(StoredConfig::Current(catalog("0.0.2"))).unwrap();
    assert!(!loaded.migrated);
    assert_eq!(loaded.config.version, "0.0.2");
    assert_eq!(loaded.config.sets.len(), 1);
    assert!(loaded.config.global_locked);
    let later = load_config(StoredConfig::Current(catalog("0.3.0"))).unwrap();
    assert!(!later.migrated);
    assert_eq!(later.config.version, "0.3.0");
}

#[test]
fn old_catalog_is_brought_to_the_current_version() {
    for old in ["", "0.0.1"] {
        let loaded = load_config(StoredConfig::Current(catalog(old))).unwrap();
        assert!(loaded.migrated);
        assert_eq!(loaded.config.version, "0.0.2");
        assert_eq!(loaded.config.sets[0].id, "001_a");
        assert_eq!(loaded.config.created_at, "2024-01-01T00:00:00Z");
    }
    let legacy = LegacyConfig {
        sets: vec![meta("001_a", "a"), meta("002_b", "b")],
        global_locked: false,
        created_at: "2023-05-05T00:00:00Z".to_string(),
    };
    let loaded = load_config(StoredConfig::Legacy(legacy)).unwrap();
    assert!(loaded.migrated);
    assert_eq!(loaded.config.version, "0.0.2");
    assert_eq!(loaded.config.sets.len(), 2);
    assert_eq!(loaded.config.created_at, "2023-05-05T00:00:00Z");
}

#[test]
fn unreadable_catalog_is_an_error() {
    assert_eq!(load_config(StoredConfig::Unreadable).err(), Some(ConfigError::Unparsable));
}

#[test]
fn version_check() {
    let fresh = check_version_compatibility(None, "0.0.1");
    assert!(fresh.is_new && fresh.save);
    assert_eq!(fresh.old_version, None);
    let same = check_version_compatibility(Some(Some("0.0.1")), "0.0.1");
    assert!(!same.is_new && !same.save);
    assert_eq!(same.old_version, None);
    let upgrade = check_version_compatibility(Some(Some("0.0.0")), "0.0.1");
    assert!(!upgrade.is_new && upgrade.save);
    assert_eq!(upgrade.old_version, Some("0.0.0".to_string()));
    let broken = check_version_compatibility(Some(None), "0.0.1");
    assert!(!broken.is_new && !broken.save);
    assert_eq!(broken.old_version, None);
}
