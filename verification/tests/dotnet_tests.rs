use ez_migrations::dotnet::{compute_enriched_path, compute_enriched_path_windows, CommandResult, DotnetEf};

fn result(stdout: &str, stderr: &str) -> CommandResult {
    CommandResult {
        success: false,
        stdout: stdout.to_string(),
        stderr: stderr.to_string(),
        command_display: "dotnet ef migrations list".to_string(),
    }
}

#[test]
fn error_output_prefers_stderr_when_present() {
    let r = result("stdout text", "stderr text");
    let out = r.error_output();
    assert!(out.contains("stderr text"));
    assert!(!out.contains("stdout text"));
}

#[test]
fn error_output_falls_back_to_stdout_when_stderr_empty() {
    let r = result("stdout text", "");
    let out = r.error_output();
    assert!(out.contains("stdout text"));
}

#[test]
fn error_output_falls_back_to_stdout_when_stderr_whitespace_only() {
    let r = result("the real error", "   \n\t  ");
    let out = r.error_output();
    assert!(out.contains("the real error"));
}

#[test]
fn error_output_appends_command_display() {
    let r = result("err", "");
    let out = r.error_output();
    assert!(out.contains("Executed: dotnet ef migrations list"));
}

#[test]
fn error_output_is_exact() {
    let r = result("ignored", "  boom \n");
    assert_eq!(r.error_output(), "boom\n\nExecuted: dotnet ef migrations list");
}

#[test]
fn enriched_path_prepends_extra_dirs_in_order() {
    let enriched = compute_enriched_path("/usr/bin:/bin", "/Users/alice");
    let parts: Vec<&str> = enriched.split(':').collect();
    assert_eq!(parts[0], "/Users/alice/.dotnet/tools");
    assert_eq!(parts[1], "/Users/alice/.dotnet");
    assert_eq!(parts[2], "/usr/local/share/dotnet");
    assert_eq!(parts[3], "/usr/local/bin");
    assert_eq!(parts[4], "/opt/homebrew/bin");
}

#[test]
fn enriched_path_preserves_existing_path_at_end() {
    let enriched = compute_enriched_path("/usr/bin:/bin", "/Users/alice");
    assert!(enriched.ends_with(":/usr/bin:/bin"));
}

#[test]
fn enriched_path_joins_with_colons_not_semicolons() {
    let enriched = compute_enriched_path("/usr/bin", "/home/x");
    assert!(!enriched.contains(';'));
    assert!(enriched.contains(':'));
}

#[test]
fn enriched_path_handles_empty_home() {
    let enriched = compute_enriched_path("/usr/bin", "");
    assert!(enriched.starts_with("/.dotnet/tools"));
    assert!(enriched.ends_with(":/usr/bin"));
}

#[test]
fn enriched_path_windows_uses_semicolons() {
    let enriched = compute_enriched_path_windows("C:\\bin", "C:\\Users\\a", "C:\\Program Files");
    assert_eq!(enriched, "C:\\Users\\a\\.dotnet\\tools;C:\\Program Files\\dotnet;C:\\bin");
}

// ─── EF arguments ───────────────────────────────────────────

#[test]
fn ef_arguments_include_context_only_when_set() {
    assert_eq!(DotnetEf::list_migrations_args(""), vec!["migrations", "list"]);
    assert_eq!(DotnetEf::list_migrations_args("Ctx"), vec!["migrations", "list", "--context", "Ctx"]);
    assert_eq!(DotnetEf::add_migration_args("Init", ""), vec!["migrations", "add", "Init"]);
    assert_eq!(DotnetEf::remove_migration_args("Ctx", true), vec!["migrations", "remove", "--context", "Ctx", "--force"]);
    assert_eq!(DotnetEf::update_database_args("", ""), vec!["database", "update"]);
    assert_eq!(DotnetEf::update_database_args("0", "C"), vec!["database", "update", "0", "--context", "C"]);
    assert_eq!(DotnetEf::script_migration_args("A", "", ""), vec!["migrations", "script", "A"]);
}

#[test]
fn ef_invocation_uses_relative_paths_inside_the_solution() {
    let args = DotnetEf::list_migrations_args("");
    let inv = DotnetEf::ef_invocation(&args, "/s/data", "/s/api", Some("/s"), Some("data"), Some("api"));
    assert_eq!(inv.current_dir.as_deref(), Some("/s"));
    assert_eq!(inv.args, vec!["ef", "migrations", "list", "--project", "data", "--startup-project", "api"]);
    assert_eq!(inv.display, "dotnet ef migrations list --project data --startup-project api");
}

#[test]
fn ef_invocation_without_solution_dir_uses_given_paths() {
    let args = DotnetEf::list_migrations_args("");
    let inv = DotnetEf::ef_invocation(&args, "data", "", None, None, None);
    assert!(inv.current_dir.is_none());
    assert_eq!(inv.args, vec!["ef", "migrations", "list", "--project", "data"]);
}

// ─── migrations list ────────────────────────────────────────

fn ok(stdout: &str) -> CommandResult {
    CommandResult {
        success: true,
        stdout: stdout.to_string(),
        stderr: String::new(),
        command_display: "dotnet ef migrations list".to_string(),
    }
}

#[test]
fn list_migrations_reads_applied_and_pending() {
    let out = "Build started...\nBuild succeeded.\n20240101000000_Init\n20240202000000_AddUsers (Pending)\nwarn: something\n\n";
    let list = DotnetEf::list_migrations(&ok(out)).unwrap();
    assert_eq!(
        list,
        vec![("20240101000000_Init".to_string(), true), ("20240202000000_AddUsers".to_string(), false)]
    );
}

#[test]
fn list_migrations_skips_lines_not_starting_with_a_digit() {
    let out = "Using project 'x'\nNo migrations were found.\n20240101000000_Init\r\n";
    let list = DotnetEf::list_migrations(&ok(out)).unwrap();
    assert_eq!(list, vec![("20240101000000_Init".to_string(), true)]);
}

#[test]
fn list_migrations_reports_dbcontext_failures() {
    let out = "Build succeeded.\nUnable to create a 'DbContext' of type 'X'.\n";
    let err = DotnetEf::list_migrations(&ok(out)).unwrap_err();
    assert!(err.starts_with("EF couldn't load the DbContext at design time."));
    assert!(err.ends_with("\n\nUnable to create a 'DbContext' of type 'X'."));
}

#[test]
fn list_migrations_reports_failed_runs() {
    let r = result("out", "the error");
    assert_eq!(DotnetEf::list_migrations(&r).unwrap_err(), "dotnet ef migrations list failed: the error");
}

// ─── build diagnostics ──────────────────────────────────────

#[test]
fn build_diagnostics_wanted_only_for_failed_builds() {
    assert!(DotnetEf::wants_build_diagnostics(&result("Build failed. Use dotnet build", "")));
    assert!(!DotnetEf::wants_build_diagnostics(&result("other", "error")));
    let mut r = ok("Build failed");
    r.success = true;
    assert!(!DotnetEf::wants_build_diagnostics(&r));
}

#[test]
fn condensed_build_output_drops_blank_lines_and_caps_length() {
    assert_eq!(DotnetEf::condense_build_output("  a  \n\n b\n", "c\n"), "a\nb\nc");
    let many: String = (0..45).map(|i| format!("e{}\n", i)).collect();
    let out = DotnetEf::condense_build_output(&many, "");
    assert!(out.starts_with("e0\ne1\n"));
    assert!(out.ends_with("e39\n… (output truncated)"));
}

#[test]
fn build_diagnostics_go_to_stderr_when_it_has_text() {
    let mut r = result("out", "err");
    DotnetEf::append_build_diagnostics(&mut r, "CS1002");
    assert_eq!(r.stderr, "err\n\n--- dotnet build errors ---\nCS1002");
    assert_eq!(r.stdout, "out");
    let mut r = result("out", " ");
    DotnetEf::append_build_diagnostics(&mut r, "CS1002");
    assert_eq!(r.stdout, "out\n\n--- dotnet build errors ---\nCS1002");
    let mut r = result("out", "err");
    DotnetEf::append_build_diagnostics(&mut r, "  ");
    assert_eq!(r.stderr, "err");
}

#[test]
fn build_target_prefers_startup_project() {
    assert_eq!(DotnetEf::build_target("/p/data", "/p/api"), "/p/api");
    assert_eq!(DotnetEf::build_target("/p/data", ""), "/p/data");
}

#[test]
fn canceled_runs_fail_and_say_so() {
    let r = DotnetEf::finish_cancellable(true, true, "o".to_string(), "partial".to_string(), "cmd".to_string());
    assert!(!r.success);
    assert_eq!(r.stderr, "partial\nOperation canceled by user.");
    let r = DotnetEf::finish_cancellable(true, false, "o".to_string(), "".to_string(), "cmd".to_string());
    assert!(r.success);
    assert_eq!(r.stderr, "");
}
