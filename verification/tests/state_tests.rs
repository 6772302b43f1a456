use ez_migrations::state::{project_source, AppConfig, Preferences, ProjectConfig, ProjectSource, SavedProject};

#[test]
fn preferences_default_notifies_on_branch_change() {
    let prefs = Preferences::default();
    assert!(prefs.notify_on_branch_change);
}

fn empty_config() -> AppConfig {
    AppConfig { projects: Vec::new(), active_project_id: None, preferences: Preferences::default() }
}

fn saved(id: &str, path: &str) -> SavedProject {
    SavedProject {
        id: id.to_string(),
        name: "N".to_string(),
        project_path: path.to_string(),
        db_context: String::new(),
        startup_project: String::new(),
        stable_migration: None,
    }
}

#[test]
fn set_project_adds_a_new_project_and_activates_it() {
    let mut cfg = empty_config();
    let (id, stable) = cfg.set_project("/work/MyApp", "Ctx", "/work/Api");
    assert!(stable.is_none());
    assert!(!id.is_empty() && id.chars().all(|c| c.is_ascii_digit()));
    assert_eq!(cfg.projects.len(), 1);
    assert_eq!(cfg.projects[0].name, "MyApp");
    assert_eq!(cfg.projects[0].db_context, "Ctx");
    assert_eq!(cfg.active_project_id.as_deref(), Some(id.as_str()));
}

#[test]
fn set_project_twice_updates_the_existing_entry() {
    let mut cfg = empty_config();
    let (id1, _) = cfg.set_project("/work/MyApp", "A", "");
    let (id2, _) = cfg.set_project("/work/MyApp", "B", "/s");
    assert_eq!(id1, id2);
    assert_eq!(cfg.projects.len(), 1);
    assert_eq!(cfg.projects[0].db_context, "B");
    assert_eq!(cfg.projects[0].startup_project, "/s");
}

#[test]
fn set_project_returns_the_pinned_stable_migration() {
    let mut cfg = empty_config();
    let mut p = saved("7", "/p");
    p.stable_migration = Some("M1".to_string());
    cfg.projects.push(p);
    let (id, stable) = cfg.set_project("/p", "", "");
    assert_eq!(id, "7");
    assert_eq!(stable.as_deref(), Some("M1"));
}

#[test]
fn update_saved_project_changes_only_that_project() {
    let mut cfg = empty_config();
    cfg.projects.push(saved("1", "/a"));
    cfg.projects.push(saved("2", "/b"));
    let updated = cfg.update_saved_project("2", "B", "/bb", "C", "S").unwrap();
    assert_eq!(updated.project_path, "/bb");
    assert_eq!(cfg.projects[0].project_path, "/a");
    assert_eq!(cfg.projects[1].name, "B");
    assert_eq!(cfg.update_saved_project("9", "x", "y", "", "").unwrap_err(), "Project not found: 9");
}

#[test]
fn delete_saved_project_clears_the_active_one() {
    let mut cfg = empty_config();
    cfg.projects.push(saved("1", "/a"));
    cfg.projects.push(saved("2", "/b"));
    cfg.active_project_id = Some("2".to_string());
    assert!(!cfg.delete_saved_project("1"));
    assert_eq!(cfg.active_project_id.as_deref(), Some("2"));
    assert!(cfg.delete_saved_project("2"));
    assert!(cfg.active_project_id.is_none());
    assert!(cfg.projects.is_empty());
}

#[test]
fn switch_project_requires_an_existing_path() {
    let mut cfg = empty_config();
    cfg.projects.push(saved("1", "/"));
    cfg.projects.push(saved("2", "/no/such/dir/zzz"));
    assert_eq!(cfg.switch_project("1").unwrap().id, "1");
    assert_eq!(cfg.active_project_id.as_deref(), Some("1"));
    assert_eq!(cfg.switch_project("2").unwrap_err(), "Path does not exist: /no/such/dir/zzz");
    assert_eq!(cfg.active_project_id.as_deref(), Some("1"));
    assert_eq!(cfg.switch_project("3").unwrap_err(), "Project not found: 3");
}

#[test]
fn stable_migration_is_pinned_on_the_active_project() {
    let mut cfg = empty_config();
    assert_eq!(cfg.set_stable_migration(Some("M".to_string())).unwrap_err(), "No active project");
    cfg.active_project_id = Some("x".to_string());
    assert_eq!(cfg.set_stable_migration(None).unwrap_err(), "Active project not found");
    cfg.projects.push(saved("x", "/x"));
    cfg.set_stable_migration(Some("M".to_string())).unwrap();
    assert_eq!(cfg.projects[0].stable_migration.as_deref(), Some("M"));
    assert_eq!(cfg.active_stable_migration().as_deref(), Some("M"));
}

#[test]
fn legacy_config_becomes_one_active_project() {
    let legacy = ProjectConfig {
        project_path: "/work/Legacy".to_string(),
        db_context: "Db".to_string(),
        startup_project: String::new(),
    };
    let cfg = AppConfig::from_legacy(&legacy);
    assert_eq!(cfg.projects.len(), 1);
    assert_eq!(cfg.projects[0].name, "Legacy");
    assert_eq!(cfg.active_project_id.as_deref(), Some(cfg.projects[0].id.as_str()));
    assert!(cfg.preferences.notify_on_branch_change);
}

#[test]
fn save_project_appends_without_activating() {
    let mut cfg = empty_config();
    let p = cfg.save_project("Name", "/p", "C", "S");
    assert_eq!(cfg.projects.len(), 1);
    assert_eq!(cfg.projects[0].id, p.id);
    assert!(cfg.active_project_id.is_none());
    cfg.set_preferences(Preferences { notify_on_branch_change: false });
    assert!(!cfg.preferences.notify_on_branch_change);
}

#[test]
fn project_source_follows_the_start_up_precedence() {
    assert_eq!(project_source(true, true, true, true), ProjectSource::InMemory);
    assert_eq!(project_source(false, false, true, false), ProjectSource::MigratedLegacy);
    assert_eq!(project_source(false, true, true, true), ProjectSource::Saved);
    assert_eq!(project_source(false, true, true, false), ProjectSource::Legacy);
    assert_eq!(project_source(false, false, false, false), ProjectSource::Nothing);
}
