use ez_migrations::ops::{
    derive_project_name, enrich_ef_error, ensure_path_exists, generate_id, latest_common_migration,
    migration_name_from_git_path, migration_name_from_path, migration_names_from_files, path_check,
    relative_pathspec,
};

// ─── enrich_ef_error ────────────────────────────────────────

#[test]
fn enrich_ef_error_passes_through_unrelated_errors() {
    let raw = "Something unexpected happened";
    assert_eq!(enrich_ef_error(raw), raw);
}

#[test]
fn enrich_ef_error_explains_migrations_assembly_mismatch() {
    let raw = "Your target project 'Foo' doesn't match your migrations assembly 'Bar'.";
    let enriched = enrich_ef_error(raw);
    assert!(enriched.contains("Project mismatch"));
    assert!(enriched.contains("Migrations Project"));
    assert!(enriched.contains(raw));
}

#[test]
fn enrich_ef_error_puts_the_hint_before_the_raw_error() {
    let raw = "x doesn't match your migrations assembly y";
    let enriched = enrich_ef_error(raw);
    assert!(enriched.starts_with("Project mismatch: "));
    assert!(enriched.ends_with(&format!("swap them if needed.\n\n{}", raw)));
}

// ─── migration_name_from_path ───────────────────────────────

#[test]
fn migration_name_extracted_from_cs_file() {
    let name = migration_name_from_path("/a/b/20240101_Init.cs");
    assert_eq!(name.as_deref(), Some("20240101_Init"));
}

#[test]
fn migration_name_rejects_designer_files() {
    let name = migration_name_from_path("/a/b/20240101_Init.Designer.cs");
    assert!(name.is_none());
}

#[test]
fn migration_name_rejects_model_snapshot() {
    let name = migration_name_from_path("/a/b/MyContextModelSnapshot.cs");
    assert!(name.is_none());
}

#[test]
fn migration_name_rejects_non_cs_files() {
    let name = migration_name_from_path("/a/b/notes.txt");
    assert!(name.is_none());
}

#[test]
fn migration_name_handles_forward_slash_git_path() {
    let name = migration_name_from_git_path("MyProj/Migrations/20240101_Init.cs");
    assert_eq!(name.as_deref(), Some("20240101_Init"));
}

#[test]
fn migration_name_from_git_path_rejects_designer() {
    let name = migration_name_from_git_path("MyProj/Migrations/20240101_Init.Designer.cs");
    assert!(name.is_none());
}

#[test]
fn migration_name_ignores_trailing_separator_and_dot_components() {
    assert_eq!(migration_name_from_path("/p/./20240101_Init.cs/").as_deref(), Some("20240101_Init"));
    assert!(migration_name_from_path("/p/..").is_none());
    assert!(migration_name_from_path("").is_none());
}

// ─── migration_names_from_files ─────────────────────────────

#[test]
fn migration_names_filters_designer_and_snapshot() {
    let files = vec![
        "/p/20240101_A.cs".to_string(),
        "/p/20240101_A.Designer.cs".to_string(),
        "/p/20240202_B.cs".to_string(),
        "/p/MyDbContextModelSnapshot.cs".to_string(),
        "/p/readme.md".to_string(),
    ];
    let names = migration_names_from_files(files);
    assert_eq!(names, vec!["20240101_A".to_string(), "20240202_B".to_string()]);
}

// ─── latest_common_migration ────────────────────────────────

#[test]
fn latest_common_migration_returns_most_recent_shared() {
    let current = vec!["M1".to_string(), "M2".to_string(), "M3".to_string()];
    let target = vec!["M1".to_string(), "M2".to_string(), "M4".to_string()];
    let common = latest_common_migration(&current, &target);
    assert_eq!(common.as_deref(), Some("M2"));
}

#[test]
fn latest_common_migration_returns_none_when_no_overlap() {
    let current = vec!["A".to_string(), "B".to_string()];
    let target = vec!["X".to_string(), "Y".to_string()];
    let common = latest_common_migration(&current, &target);
    assert!(common.is_none());
}

#[test]
fn latest_common_migration_handles_identical_lists() {
    let current = vec!["M1".to_string(), "M2".to_string()];
    let target = current.clone();
    let common = latest_common_migration(&current, &target);
    assert_eq!(common.as_deref(), Some("M2"));
}

#[test]
fn latest_common_migration_handles_empty_inputs() {
    assert!(latest_common_migration(&[], &["A".to_string()]).is_none());
    assert!(latest_common_migration(&["A".to_string()], &[]).is_none());
    assert!(latest_common_migration(&[], &[]).is_none());
}

#[test]
fn latest_common_migration_ignores_order_of_target() {
    let current = vec!["M1".to_string(), "M2".to_string(), "M3".to_string()];
    let target = vec!["M3".to_string(), "M1".to_string()];
    assert_eq!(latest_common_migration(&current, &target).as_deref(), Some("M3"));
}

// ─── derive_project_name ────────────────────────────────────

#[test]
fn derive_project_name_uses_directory_basename() {
    assert_eq!(derive_project_name("/home/user/MyApp"), "MyApp");
}

#[test]
fn derive_project_name_falls_back_when_path_is_empty() {
    assert_eq!(derive_project_name(""), "My Project");
}

#[test]
fn derive_project_name_skips_trailing_slash() {
    assert_eq!(derive_project_name("/home/user/MyApp/"), "MyApp");
    assert_eq!(derive_project_name("/"), "My Project");
}

// ─── ensure_path_exists ─────────────────────────────────────

#[test]
fn ensure_path_exists_errors_for_missing_path() {
    let result = ensure_path_exists("/this/path/definitely/does/not/exist/abc123");
    assert!(result.is_err());
    assert!(result.unwrap_err().contains("does not exist"));
}

#[test]
fn ensure_path_exists_reports_the_path() {
    let result = ensure_path_exists("/no/such/place/xyz");
    assert_eq!(result.unwrap_err(), "Path does not exist: /no/such/place/xyz");
}

#[test]
fn ensure_path_exists_ok_for_real_path() {
    assert!(ensure_path_exists(".").is_ok());
    assert!(ensure_path_exists("/").is_ok());
}

// ─── generate_id ────────────────────────────────────────────

#[test]
fn generate_id_returns_non_empty_numeric_string() {
    let id = generate_id();
    assert!(!id.is_empty());
    assert!(id.chars().all(|c| c.is_ascii_digit()));
}

#[test]
fn generate_id_is_milliseconds_after_2020() {
    let id = generate_id();
    let ms: u128 = id.parse().unwrap();
    assert!(ms > 1_577_836_800_000);
    assert!(!id.starts_with('0'));
}

// ─── relative_pathspec ──────────────────────────────────────

#[test]
fn relative_pathspec_strips_the_repository_root() {
    assert_eq!(relative_pathspec("/repo", "/repo/a/b").unwrap(), "a/b");
    assert_eq!(relative_pathspec("/repo", "/repo").unwrap(), "");
    assert_eq!(relative_pathspec("/", "/a").unwrap(), "a");
}

#[test]
fn relative_pathspec_normalizes_backslashes_to_forward_slash() {
    assert_eq!(relative_pathspec("/repo", "/repo/a\\b").unwrap(), "a/b");
}

#[test]
fn relative_pathspec_errors_when_outside_repo() {
    let err = relative_pathspec("/repo", "/repository/x").unwrap_err();
    assert_eq!(err, "Migrations directory '/repository/x' is not inside git repository '/repo'");
}

#[test]
fn path_check_reports_missing_path() {
    assert_eq!(path_check("/srv/app", true), Ok(()));
    assert_eq!(path_check("/srv/none", false), Err("Path does not exist: /srv/none".to_string()));
}
