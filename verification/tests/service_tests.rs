use ez_migrations::dotnet::{cancel_failure, DotnetEf, RunningOperation};
use ez_migrations::mcp::{resource_for, tasklist_has_pid, Resource};
use ez_migrations::mcp::{already_running_error, mcp_url, parse_migration_sql_uri, port_owner, AppStatusPayload, McpServerStatus, PortFile, PortOwner};
use ez_migrations::reads::{
    branches_except, cancel_message, check_cancel, database_target_label, migration_entry,
    migration_file_not_found, operation_failure, remove_progress_message, update_database_message,
    MigrationSqlInfo,
};
use ez_migrations::parser::MigrationParser;
use ez_migrations::watch::{watch_started_message, BranchWatch, MigrationWatch};

// ─── MCP ────────────────────────────────────────────────────

#[test]
fn migration_sql_uri_yields_the_name() {
    assert_eq!(parse_migration_sql_uri("ezmigrations://migrations/20240101_Init/sql").as_deref(), Some("20240101_Init"));
    assert!(parse_migration_sql_uri("ezmigrations://migrations//sql").is_none());
    assert!(parse_migration_sql_uri("ezmigrations://migrations/a/b/sql").is_none());
    assert!(parse_migration_sql_uri("ezmigrations://migrations/x").is_none());
    assert!(parse_migration_sql_uri("other://migrations/x/sql").is_none());
}

#[test]
fn server_status_and_port_file() {
    assert_eq!(mcp_url(8080), "http://127.0.0.1:8080/mcp");
    let s = McpServerStatus::listening(8080, 5, 42, "/p");
    assert!(s.running);
    assert_eq!(s.url.as_deref(), Some("http://127.0.0.1:8080/mcp"));
    let s = McpServerStatus::stopped(42, "/p");
    assert!(!s.running && s.port.is_none() && s.url.is_none());
    let f = PortFile::new(8080, 42, 5);
    assert_eq!(f.transport, "http");
    assert!(f.written_by(42, 8080, 5));
    assert!(!f.written_by(42, 8080, 6));
}

#[test]
fn port_file_owner_decisions() {
    assert!(matches!(port_owner(None, 1, true), PortOwner::Free));
    assert!(matches!(port_owner(Some(1), 1, true), PortOwner::Free));
    assert!(matches!(port_owner(Some(2), 1, true), PortOwner::Live));
    assert!(matches!(port_owner(Some(2), 1, false), PortOwner::Stale));
    assert_eq!(
        already_running_error(77, "http://127.0.0.1:1/mcp"),
        "ezMigrations MCP is already running in another process (PID 77, http://127.0.0.1:1/mcp). Stop it before starting the GUI-hosted server."
    );
}

#[test]
fn app_status_treats_empty_branch_as_unknown() {
    let s = AppStatusPayload::snapshot(true, "", false, true, false);
    assert!(s.current_branch.is_none());
    assert!(s.watchers_active.branch && !s.watchers_active.migrations);
    let s = AppStatusPayload::snapshot(true, "main", true, false, false);
    assert_eq!(s.current_branch.as_deref(), Some("main"));
}

// ─── reads ──────────────────────────────────────────────────

#[test]
fn branch_list_leaves_out_the_current_branch() {
    let branches = vec![
        ("main".to_string(), false),
        ("dev".to_string(), false),
        ("origin/main".to_string(), true),
        ("main".to_string(), true),
    ];
    let infos = branches_except(&branches, "main");
    assert_eq!(infos.len(), 2);
    assert_eq!(infos[0].name, "dev");
    assert!(!infos[0].is_remote);
    assert_eq!(infos[1].name, "origin/main");
    assert!(infos[1].is_remote);
}

#[test]
fn migration_entries_carry_parsed_sql() {
    let content = "protected override void Up(M m) { migrationBuilder.Sql(\"S1\"); }\nprotected override void Down(M m) { }";
    let parsed = MigrationParser::parse_source("/p/20240101_A.cs", content);
    let m = migration_entry("20240101_A", true, Some("/p/20240101_A.cs".to_string()), Some(&parsed));
    assert_eq!(m.id, "20240101_A");
    assert!(m.applied && m.has_custom_sql);
    assert_eq!(m.custom_sql_up, vec!["S1".to_string()]);
    let m = migration_entry("B", false, None, None);
    assert!(!m.has_custom_sql && m.file_path.is_none());
    let info = MigrationSqlInfo::from_parsed(&parsed);
    assert_eq!(info.name, "20240101_A");
    assert_eq!(info.custom_sql_up, vec!["S1".to_string()]);
}

#[test]
fn operation_messages() {
    assert_eq!(database_target_label(""), "latest");
    assert_eq!(database_target_label("0"), "base");
    assert_eq!(database_target_label("M1"), "M1");
    assert_eq!(update_database_message(""), "Database updated to latest migration");
    assert_eq!(update_database_message("M1"), "Database updated to migration: M1");
    assert_eq!(remove_progress_message(true), "Removing migration (force)…");
    assert_eq!(cancel_message(Some("add migration")), "Cancel requested for 'add migration'");
    assert_eq!(cancel_message(None), "Cancel requested.");
    assert_eq!(check_cancel(true).unwrap_err(), "Canceled by user.");
    assert!(check_cancel(false).is_ok());
    assert_eq!(operation_failure("create migration", "e"), "Failed to create migration: e");
    assert!(operation_failure("update database", "x doesn't match your migrations assembly y").starts_with("Project mismatch"));
    assert_eq!(migration_file_not_found("M", "/p"), "Migration file not found for 'M' in project '/p'");
}

// ─── watchers ───────────────────────────────────────────────

#[test]
fn branch_watch_debounces_and_reports_changes() {
    let mut w = BranchWatch::new("HEAD", "main", 100_000);
    assert!(!w.on_event(&vec!["/r/.git/index".to_string()], 100_000));
    assert!(w.on_event(&vec!["/r/.git/HEAD".to_string()], 100_000));
    assert!(!w.on_event(&vec!["/r/.git/HEAD".to_string()], 101_999));
    assert!(w.on_event(&vec!["/r/.git/HEAD".to_string()], 102_000));
    assert!(w.on_branch("main").is_none());
    let c = w.on_branch("dev").unwrap();
    assert_eq!(c.old_branch, "main");
    assert_eq!(c.new_branch, "dev");
    assert!(!c.reverted_to_stable);
    assert_eq!(w.last_branch, "dev");
}

#[test]
fn migration_watch_reacts_to_migration_sources_only() {
    let mut w = MigrationWatch::new(0);
    assert!(!w.on_event(&vec!["/m/20240101_A.cs".to_string()], 1000));
    assert!(!w.on_event(&vec!["/m/20240101_A.Designer.cs".to_string()], 5000));
    assert!(!w.on_event(&vec!["/m/CtxModelSnapshot.cs".to_string()], 5000));
    assert!(w.on_event(&vec!["/m/x.txt".to_string(), "/m/20240101_A.cs".to_string()], 5000));
    assert!(!w.on_event(&vec!["/m/20240101_A.cs".to_string()], 7999));
    assert!(w.on_event(&vec!["/m/20240101_A.cs".to_string()], 8000));
}

#[test]
fn watcher_start_messages() {
    assert_eq!(watch_started_message(true, "branch changes", "/r/.git/HEAD"), "Already watching for branch changes");
    assert_eq!(watch_started_message(false, "branch changes", "/r/.git/HEAD"), "Watching for branch changes: /r/.git/HEAD");
}

#[test]
fn resource_uris_are_dispatched() {
    assert!(matches!(resource_for("ezmigrations://projects"), Resource::Projects));
    assert!(matches!(resource_for("ezmigrations://app/status"), Resource::AppStatus));
    assert!(matches!(resource_for("ezmigrations://branches/current"), Resource::BranchesCurrent));
    match resource_for("ezmigrations://migrations/M1/sql") {
        Resource::MigrationSql(n) => assert_eq!(n, "M1"),
        other => panic!("unexpected {:?}", other),
    }
    assert!(matches!(resource_for("ezmigrations://nope"), Resource::NotFound));
}

#[test]
fn tasklist_output_is_searched_for_the_pid() {
    let out = "\"app.exe\",\"1234\",\"Console\",\"1\",\"10,000 K\"\r\n\"x.exe\",\"99\",\"Console\",\"1\",\"1 K\"\r\n";
    assert!(tasklist_has_pid(out, 1234));
    assert!(tasklist_has_pid(out, 99));
    assert!(!tasklist_has_pid(out, 123));
    assert!(!tasklist_has_pid("INFO: No tasks are running", 1));
}

#[test]
fn only_one_ef_operation_runs_at_a_time() {
    let mut slot = RunningOperation::idle();
    assert!(slot.request_cancel().is_none());
    slot.claim("add migration").unwrap();
    assert_eq!(slot.claim("update database").unwrap_err(), "Another operation is already running");
    assert_eq!(slot.request_cancel().as_deref(), Some("add migration"));
    assert!(slot.release());
    assert!(slot.operation.is_none());
    slot.claim("x").unwrap();
    assert!(!slot.release());
    assert_eq!(cancel_failure("x", "denied"), "Failed to cancel 'x': denied");
}

#[test]
fn dotnet_build_runs_errors_only() {
    assert_eq!(DotnetEf::dotnet_build_args("api"), vec!["build", "api", "--nologo", "-clp:ErrorsOnly"]);
}
