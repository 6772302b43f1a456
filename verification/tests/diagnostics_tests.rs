use ez_migrations::calendar::{civil_from_days, format_unix_secs_utc};
use ez_migrations::diagnostics::{
    aligned_tail_start, display_or_blank, format_list_migrations_entry, log_tail, trim_log_contents,
    ListMigrationsEntry, TRIM_TARGET,
};

#[test]
fn timestamp_known_epochs() {
    assert_eq!(format_unix_secs_utc(0), "1970-01-01T00:00:00Z");
    assert_eq!(format_unix_secs_utc(1_700_000_000), "2023-11-14T22:13:20Z");
}

#[test]
fn timestamp_handles_leap_days_and_century_rules() {
    assert_eq!(format_unix_secs_utc(951_782_400), "2000-02-29T00:00:00Z");
    assert_eq!(format_unix_secs_utc(4_107_542_399), "2100-02-28T23:59:59Z");
    assert_eq!(format_unix_secs_utc(4_107_542_400), "2100-03-01T00:00:00Z");
}

#[test]
fn civil_from_days_known_dates() {
    assert_eq!(civil_from_days(0), (1970, 1, 1));
    assert_eq!(civil_from_days(59), (1970, 3, 1));
    assert_eq!(civil_from_days(10_957), (2000, 1, 1));
    assert_eq!(civil_from_days(19_782), (2024, 2, 29));
}

#[test]
fn blank_fields_show_as_unset() {
    assert_eq!(display_or_blank(""), "(unset)");
    assert_eq!(display_or_blank("Ctx"), "Ctx");
}

#[test]
fn list_migrations_entry_layout() {
    let e = ListMigrationsEntry {
        project_path: "/p",
        db_context: "",
        startup_project: "/s",
        command_display: "dotnet ef migrations list",
        duration_ms: 1234,
        exit_success: true,
        parsed_count: 2,
        migration_files_found: 3,
        stdout: "out \n\n",
        stderr: "",
    };
    let text = format_list_migrations_entry(&e, "2024-01-01T00:00:00Z", "1.2.3", "linux", "x86_64");
    assert_eq!(
        text,
        "=== 2024-01-01T00:00:00Z list_migrations ===\napp_version: 1.2.3\nos: linux (x86_64)\nproject_path: /p\ndb_context: (unset)\nstartup_project: /s\ncommand: dotnet ef migrations list\nduration_ms: 1234\nexit_success: true\nparsed_count: 2\nmigration_files_found: 3\n--- stdout ---\nout\n--- stderr ---\n\n\n"
    );
}

#[test]
fn trimmed_log_starts_at_a_line_boundary() {
    let mut contents = vec![b'a'; 10];
    contents.push(b'\n');
    contents.extend(vec![b'b'; TRIM_TARGET]);
    let out = trim_log_contents(&contents);
    let header = b"... (older entries trimmed) ...\n\n";
    assert_eq!(&out[..header.len()], header);
    assert_eq!(out.len(), header.len() + TRIM_TARGET);
    assert!(out[header.len()..].iter().all(|&b| b == b'b'));
}

#[test]
fn tail_start_skips_a_partial_line() {
    assert_eq!(aligned_tail_start(b"abc\ndef\nghi", 6), 8);
    assert_eq!(aligned_tail_start(b"abcdef", 3), 3);
    assert_eq!(aligned_tail_start(b"ab\n", 10), 3);
}

#[test]
fn log_tail_keeps_short_logs_whole() {
    assert_eq!(log_tail(b"one\ntwo\n", 100), "one\ntwo\n");
    assert_eq!(log_tail(b"one\ntwo\nthree\n", 8), "... (older entries trimmed) ...\nthree\n");
    assert_eq!(log_tail(&[0x66, 0xff, 0x6f], 10), "f\u{FFFD}o");
}
