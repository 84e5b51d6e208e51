use std::collections::HashMap;

use safehold::cli::{CountArgs, CreateArgs, DeleteProjectArgs, ExportArgs, RunArgs};
use safehold::config::{Config, SetMeta};
use safehold::crypto::{ensure_app_key, LockInfo};
use safehold::envmap::CredentialMap;
use safehold::envops::{
    cmd_add, cmd_clean_cache, cmd_count, cmd_delete, cmd_delete_all, cmd_export, cmd_get,
    cmd_global_add, cmd_global_delete, cmd_global_get, cmd_global_list, cmd_global_update,
    cmd_list, cmd_run, cmd_update, load_key_for_dir, read_env_map, resolve_set_dir, show_heading,
    show_lines, Destruction, ProjectCount, VaultError,
};
use safehold::master_lock::{display_master_lock_status, load_master_lock_info};
use safehold::store::{
    cmd_create, cmd_delete_set, cmd_launch, cmd_list_sets, cmd_setup, DeleteOutcome, LaunchAction,
    SetupAction, StoreError,
};

/// A data directory held in memory: the catalog, the app key, and for each
/// bucket its lock and its stored credentials.
struct Home {
    cfg: Config,
    app_key: [u8; 32],
    locks: HashMap<String, LockInfo>,
    blobs: HashMap<String, Vec<u8>>,
}

impl Home {
    fn new() -> Home {
        Home {
            cfg: Config::default(),
            app_key: ensure_app_key(false).unwrap(),
            locks: HashMap::new(),
            blobs: HashMap::new(),
        }
    }

    fn create(&mut self, name: &str, password: Option<&str>) -> Result<String, StoreError> {
        let args = CreateArgs {
            name: name.to_string(),
            lock: password.is_some(),
            password: password.map(|p| p.to_string()),
        };
        let made = cmd_create(&mut self.cfg, &args, false)?;
        if let Some(lock) = made.lock {
            self.locks.insert(made.id.clone(), lock);
        }
        Ok(made.id)
    }

    fn bucket(&self, id_or_name: &str) -> Result<String, VaultError> {
        let dir = resolve_set_dir(&self.cfg, id_or_name)?;
        Ok(dir.last().cloned().unwrap())
    }

    fn open(&self, id_or_name: &str, password: Option<&str>) -> Result<([u8; 32], Vec<u8>, String), VaultError> {
        let id = self.bucket(id_or_name)?;
        let master = load_master_lock_info(None).unwrap();
        let key = load_key_for_dir(&master, self.locks.get(&id), password, Some(&self.app_key))?;
        Ok((key, self.blobs.get(&id).cloned().unwrap_or_default(), id))
    }

    fn add(&mut self, project: &str, key: &str, value: &str, password: Option<&str>) -> Result<(), VaultError> {
        let (k, enc, id) = self.open(project, password)?;
        let blob = cmd_add(&k, &enc, key.to_string(), value.to_string())?;
        self.blobs.insert(id, blob);
        Ok(())
    }

    fn get(&self, project: &str, key: &str, password: Option<&str>) -> Result<String, VaultError> {
        let (k, enc, _) = self.open(project, password)?;
        cmd_get(&k, &enc, key)
    }

    fn list(&self, project: &str) -> Result<Vec<String>, VaultError> {
        let (k, enc, _) = self.open(project, None)?;
        cmd_list(&k, &enc)
    }

    fn update(&mut self, project: &str, key: &str, value: &str) -> Result<(), VaultError> {
        let (k, enc, id) = self.open(project, None)?;
        let blob = cmd_update(&k, &enc, key.to_string(), value.to_string())?;
        self.blobs.insert(id, blob);
        Ok(())
    }

    fn delete(&mut self, project: &str, key: &str) -> Result<bool, VaultError> {
        let (k, enc, id) = self.open(project, None)?;
        match cmd_delete(&k, &enc, key)? {
            Some(blob) => {
                self.blobs.insert(id, blob);
                Ok(true)
            }
            None => Ok(false),
        }
    }

    fn map(&self, project: &str) -> Result<CredentialMap, VaultError> {
        let (k, enc, _) = self.open(project, None)?;
        read_env_map(&k, &enc)
    }

    fn counts(&self) -> Vec<ProjectCount> {
        self.cfg
            .sets
            .iter()
            .map(|s: &SetMeta| ProjectCount {
                name: s.name.clone(),
                id: s.id.clone(),
                count: self.map(&s.id).ok().map(|m| m.len()),
            })
            .collect()
    }
}

#[test]
fn create_unlocked_and_add_get() {
    let mut home = Home::new();
    assert_eq!(home.create("project1", None).unwrap(), "001_project1");
    home.add("project1", "API_KEY", "abc123", None).unwrap();
    assert_eq!(home.get("project1", "API_KEY", None).unwrap(), "abc123");
    assert!(home.list("project1").unwrap().contains(&"API_KEY=abc123".to_string()));
}

#[test]
fn create_locked_and_add_get_with_env_password() {
    let mut home = Home::new();
    home.create("project2", Some("p@ssw0rd")).unwrap();
    let password = "p@ssw0rd";
    home.add("project2", "TOKEN", "xyz", Some(password)).unwrap();
    assert_eq!(home.get("project2", "TOKEN", Some(password)).unwrap(), "xyz");
}

#[test]
fn export_and_run_with_global_merge() {
    let mut home = Home::new();
    home.create("proj", None).unwrap();
    home.add("global", "SHARED", "gval", None).unwrap();
    home.add("proj", "LOCAL", "lval", None).unwrap();

    let args = ExportArgs {
        project: Some("proj".to_string()),
        global: false,
        file: Some(".env".to_string()),
        force: false,
        temp: false,
    };
    let plan = cmd_export(&args, &home.map("proj").unwrap(), false).unwrap();
    assert_eq!(plan.file, ".env");
    assert!(plan.content.contains("LOCAL=lval"));

    let run = RunArgs {
        project: "proj".to_string(),
        with_global: true,
        command: vec![
            "/usr/bin/env".to_string(),
            "sh".to_string(),
            "-c".to_string(),
            "printf %s $LOCAL".to_string(),
        ],
    };
    let global = home.map("global").unwrap();
    let plan = cmd_run(&run, home.map("proj").unwrap(), Some(&global)).unwrap();
    assert_eq!(plan.program, "/usr/bin/env");
    assert_eq!(plan.args, vec!["sh", "-c", "printf %s $LOCAL"]);
    assert!(plan.env.contains(&("LOCAL".to_string(), "lval".to_string())));
    assert!(plan.env.contains(&("SHARED".to_string(), "gval".to_string())));
}

#[test]
fn setup_add_path_dry_run_and_launch_without_gui() {
    assert_eq!(cmd_setup(true, Some("1")), SetupAction::DryRun);
    assert_eq!(cmd_launch(true), LaunchAction::GuiUnavailable);
}

#[test]
fn test_project_lifecycle() {
    let mut home = Home::new();
    let id = home.create("test-project", None).unwrap();
    assert!(id.contains("test-project"));
    let rows = cmd_list_sets(&home.cfg);
    assert!(rows.iter().any(|(_, text)| text.contains("test-project")));
    assert_eq!(home.cfg.sets.len(), 1);
    let args = DeleteProjectArgs { id: "test-project".to_string(), force: false };
    let out = cmd_delete_set(&mut home.cfg, &args, true, Some("y\n")).unwrap();
    assert_eq!(out, DeleteOutcome::Deleted { global: false, remove_dir: true });
    assert!(home.cfg.sets.is_empty());
}

#[test]
fn test_credential_management() {
    let mut home = Home::new();
    home.create("cred-test", None).unwrap();
    home.add("cred-test", "API_KEY", "secret123", None).unwrap();
    assert!(home.get("cred-test", "API_KEY", None).unwrap().trim() == "secret123");
    assert!(home.list("cred-test").unwrap().contains(&"API_KEY=secret123".to_string()));
    home.update("cred-test", "API_KEY", "newsecret456").unwrap();
    assert!(home.get("cred-test", "API_KEY", None).unwrap().trim() == "newsecret456");
    assert!(home.delete("cred-test", "API_KEY").unwrap());
    assert_eq!(home.get("cred-test", "API_KEY", None), Err(VaultError::KeyNotFound));
}

#[test]
fn test_global_credentials() {
    let mut home = Home::new();
    home.create("init-project", None).unwrap();
    let key = home.app_key;
    let blob = cmd_global_add(&key, &[], "GLOBAL_TOKEN".to_string(), "globalvalue123".to_string()).unwrap();
    assert!(cmd_global_get(&key, &blob, "GLOBAL_TOKEN").unwrap().trim() == "globalvalue123");
    assert!(cmd_global_list(&key, &blob).unwrap().contains(&"GLOBAL_TOKEN=globalvalue123".to_string()));
    let blob = cmd_global_update(&key, &blob, "GLOBAL_TOKEN".to_string(), "updatedglobal456".to_string()).unwrap();
    assert!(cmd_global_get(&key, &blob, "GLOBAL_TOKEN").unwrap().trim() == "updatedglobal456");
    let blob = cmd_global_delete(&key, &blob, "GLOBAL_TOKEN").unwrap();
    assert_eq!(cmd_global_get(&key, &blob, "GLOBAL_TOKEN"), Err(VaultError::KeyNotFound));
}

#[test]
fn test_count_functionality() {
    let mut home = Home::new();
    home.create("project1", None).unwrap();
    home.create("project2", None).unwrap();
    home.add("project1", "KEY1", "val1", None).unwrap();
    home.add("project1", "KEY2", "val2", None).unwrap();
    home.add("project2", "KEY3", "val3", None).unwrap();
    home.add("global", "GLOBAL_KEY", "globalval", None).unwrap();

    assert_eq!(home.map("project1").unwrap().len(), 2);

    let global = home.map("global").ok().map(|m| m.len());
    let plain = CountArgs { project: None, include_global: false, detailed: false };
    assert_eq!(cmd_count(&plain, &home.counts(), global).total, 3);

    let with_global = CountArgs { project: None, include_global: true, detailed: false };
    let summary = cmd_count(&with_global, &home.counts(), global);
    assert_eq!(summary.global_count, 1);
    assert_eq!(summary.total, 4);

    let detailed = CountArgs { project: None, include_global: true, detailed: true };
    let summary = cmd_count(&detailed, &home.counts(), global);
    assert_eq!(summary.projects, 2);
    let names: Vec<String> = home.counts().into_iter().map(|c| c.name).collect();
    assert_eq!(names, vec!["project1", "project2"]);
}

#[test]
fn test_error_handling() {
    let mut home = Home::new();
    assert_eq!(home.get("nonexistent", "KEY", None), Err(VaultError::ProjectNotFound));
    assert_eq!(home.update("nonexistent", "KEY", "val"), Err(VaultError::ProjectNotFound));
    assert_eq!(home.delete("nonexistent", "KEY"), Err(VaultError::ProjectNotFound));
    let key = home.app_key;
    assert_eq!(cmd_global_get(&key, &[], "NONEXISTENT"), Err(VaultError::KeyNotFound));
    assert_eq!(
        cmd_global_update(&key, &[], "NONEXISTENT".to_string(), "val".to_string()),
        Err(VaultError::KeyNotFound)
    );
    assert_eq!(cmd_global_delete(&key, &[], "NONEXISTENT"), Err(VaultError::KeyNotFound));
}

#[test]
fn test_show_all_functionality() {
    let mut home = Home::new();
    home.create("show-test", None).unwrap();
    home.add("show-test", "PROJECT_KEY", "projectval", None).unwrap();
    home.add("global", "SHOW_GLOBAL", "globalval", None).unwrap();

    let mut output = vec!["GLOBAL:".to_string()];
    output.extend(show_lines(&home.map("global").unwrap()));
    for s in &home.cfg.sets {
        output.push(show_heading(s));
        output.extend(show_lines(&home.map(&s.id).unwrap()));
    }
    let output = output.join("\n");
    assert!(output.contains("GLOBAL:"));
    assert!(output.contains("SHOW_GLOBAL=globalval"));
    assert!(output.contains("PROJECT"));
    assert!(output.contains("PROJECT_KEY=projectval"));
}

#[test]
fn test_export_functionality() {
    let mut home = Home::new();
    home.create("export-test", None).unwrap();
    home.add("export-test", "EXPORT_KEY", "exportval", None).unwrap();
    let args = ExportArgs {
        project: Some("export-test".to_string()),
        global: false,
        file: Some("test.env".to_string()),
        force: false,
        temp: false,
    };
    let plan = cmd_export(&args, &home.map("export-test").unwrap(), false).unwrap();
    assert_eq!(plan.file, "test.env");
    assert!(plan.content.contains("EXPORT_KEY=exportval"));
}

#[test]
fn test_cross_platform_compatibility() {
    let mut home = Home::new();
    home.create("cross-platform-test", None).unwrap();
    home.add("cross-platform-test", "PLATFORM_KEY", "works", None).unwrap();
    assert!(home.get("cross-platform-test", "PLATFORM_KEY", None).unwrap().trim() == "works");
    assert_eq!(cmd_setup(false, None), SetupAction::ManualHint);
}

#[test]
fn test_clean_cache_no_files() {
    assert_eq!(cmd_clean_cache(0, true, None), Destruction::Nothing);
}

#[test]
fn test_delete_all_command_safety() {
    assert_eq!(cmd_delete_all(true, true, None), Destruction::Proceed);
    assert_eq!(cmd_delete_all(true, false, Some("no\n")), Destruction::Cancelled);
}

#[test]
fn test_force_flag_functionality() {
    assert_eq!(cmd_clean_cache(1, true, None), Destruction::Proceed);
    assert_eq!(cmd_clean_cache(1, false, Some("\n")), Destruction::Cancelled);
    assert_eq!(cmd_delete_all(true, true, None), Destruction::Proceed);
}

#[test]
fn test_master_lock_status() {
    let info = load_master_lock_info(None).unwrap();
    let rows = display_master_lock_status(&info);
    assert!(rows.iter().any(|(_, text)| text.contains("🔓 DISABLED")));
    assert!(rows.iter().any(|(_, text)| text.contains("Projects use individual lock settings")));
}
