use ez_migrations::branch_switch::{
    already_on_branch, apply_progress_message, pending_migrations, plan_branch_switch, rollback_failure,
    rollback_label, switch_gate, switch_target, update_after_switch_failure, SwitchAction, SwitchPlan,
    SwitchStep,
};
use ez_migrations::parser::{MigrationParser, ParsedMigration, SqlStatement};
use ez_migrations::reads::{progress_message, Progress};
use ez_migrations::squash::{
    before_migration, migrations_to_squash, revert_label, scanning_message, squash_custom_sql,
    squash_removal_message, squash_summary, SquashAction, SquashPlan, SquashStep,
};

fn names(v: &[&str]) -> Vec<String> {
    v.iter().map(|s| s.to_string()).collect()
}

fn ef(v: &[(&str, bool)]) -> Vec<(String, bool)> {
    v.iter().map(|(n, a)| (n.to_string(), *a)).collect()
}

// ─── branch switch ──────────────────────────────────────────

#[test]
fn switch_target_is_trimmed_and_required() {
    assert_eq!(switch_target("  feature/x ").unwrap(), "feature/x");
    assert_eq!(switch_target("   ").unwrap_err(), "Choose a branch to switch to");
}

#[test]
fn switching_to_the_current_branch_is_a_no_op() {
    let r = already_on_branch("main", "main").unwrap();
    assert_eq!(r.old_branch, "main");
    assert_eq!(r.new_branch, "main");
    assert!(!r.rollback_performed);
    assert_eq!(r.target_migration_count, 0);
    assert!(already_on_branch("main", "dev").is_none());
}

#[test]
fn switch_needs_an_existing_branch_and_a_clean_tree() {
    assert_eq!(switch_gate("x", false, true).unwrap_err(), "Git branch not found: x");
    assert!(switch_gate("x", true, false).unwrap_err().starts_with("Working tree has uncommitted changes."));
    assert!(switch_gate("x", true, true).is_ok());
}

#[test]
fn plan_rolls_back_to_the_newest_shared_migration() {
    let ef = ef(&[("M1", true), ("M2", true), ("M3", true)]);
    let target = names(&["M1", "M2", "T3"]);
    let plan = plan_branch_switch("dev", "main", &ef, &Vec::new(), &target, "src/Migrations").unwrap();
    assert_eq!(plan.common_migration.as_deref(), Some("M2"));
    assert_eq!(plan.common_index, Some(1));
    assert_eq!(plan.rollback_target.as_deref(), Some("M2"));
    assert_eq!(plan.current_migrations, names(&["M1", "M2", "M3"]));
}

#[test]
fn plan_skips_rollback_when_nothing_after_the_shared_migration_is_applied() {
    let ef = ef(&[("M1", true), ("M2", true), ("M3", false)]);
    let target = names(&["M1", "M2"]);
    let plan = plan_branch_switch("dev", "main", &ef, &Vec::new(), &target, "p").unwrap();
    assert_eq!(plan.common_migration.as_deref(), Some("M2"));
    assert!(plan.rollback_target.is_none());
}

#[test]
fn plan_uses_migration_files_when_ef_lists_nothing() {
    let files = names(&["A", "B"]);
    let plan = plan_branch_switch("dev", "main", &Vec::new(), &files, &names(&["A"]), "p").unwrap();
    assert_eq!(plan.current_migrations, files);
    assert_eq!(plan.common_migration.as_deref(), Some("A"));
    assert!(plan.rollback_target.is_none());
}

#[test]
fn plan_refuses_when_no_migration_is_shared_but_some_are_applied() {
    let ef = ef(&[("A1", true), ("A2", false)]);
    let target: Vec<String> = (1..=7).map(|i| format!("T{}", i)).collect();
    let err = plan_branch_switch("dev", "main", &ef, &Vec::new(), &target, "src/Mig").unwrap_err();
    assert!(err.starts_with("No common migration found between 'dev' and 'main'. Refusing to revert"));
    assert!(err.contains("\n\nCurrent branch migrations (2): [A1, A2]\n"));
    assert!(err.contains("Target branch migrations (7): [T1, T2, T3, T4, T5, … (+2 more)]\n"));
    assert!(err.ends_with("Migrations pathspec: src/Mig"));
    let err = plan_branch_switch("dev", "main", &ef, &Vec::new(), &Vec::new(), "p").unwrap_err();
    assert!(err.contains("Target branch migrations (0): (empty)"));
}

#[test]
fn plan_without_shared_migration_and_nothing_applied_goes_ahead() {
    let ef = ef(&[("A1", false)]);
    let plan = plan_branch_switch("dev", "main", &ef, &Vec::new(), &names(&["T1"]), "p").unwrap();
    assert!(plan.common_migration.is_none());
    assert!(plan.rollback_target.is_none());
}

#[test]
fn pending_count_after_the_shared_migration() {
    assert_eq!(pending_migrations(Some(1), 5), 3);
    assert_eq!(pending_migrations(Some(4), 5), 0);
    assert_eq!(pending_migrations(Some(7), 5), 0);
    assert_eq!(pending_migrations(None, 5), 5);
}

#[test]
fn progress_and_failure_messages() {
    assert_eq!(apply_progress_message(1, "main"), "Applying 1 pending migration on main…");
    assert_eq!(apply_progress_message(3, "main"), "Applying 3 pending migrations on main…");
    assert_eq!(apply_progress_message(0, "main"), "Updating database on main…");
    assert_eq!(rollback_label("0"), "base");
    assert_eq!(rollback_label("M2"), "M2");
    assert_eq!(rollback_failure("x"), "Failed to roll back before switching branches: x");
    assert_eq!(
        update_after_switch_failure("main", "boom"),
        "Switched to 'main', but failed to update the database: boom"
    );
}

// ─── squash ─────────────────────────────────────────────────

#[test]
fn squash_range_runs_from_first_to_last_inclusive() {
    let all = names(&["M1", "M2", "M3", "M4"]);
    assert_eq!(migrations_to_squash(&all, "M2", "M3"), names(&["M2", "M3"]));
    assert_eq!(migrations_to_squash(&all, "M3", "M9"), names(&["M3", "M4"]));
    assert!(migrations_to_squash(&all, "M3", "M2").is_empty());
    assert!(migrations_to_squash(&all, "X", "M4").is_empty());
    assert_eq!(migrations_to_squash(&all, "M2", "M2"), names(&["M2"]));
}

#[test]
fn squash_reverts_to_the_migration_before_the_range() {
    let all = names(&["M1", "M2", "M3"]);
    assert_eq!(before_migration(&all, "M2"), "M1");
    assert_eq!(before_migration(&all, "M1"), "0");
    assert_eq!(revert_label("0"), "base");
    assert_eq!(revert_label("M1"), "M1");
}

fn stmt(sql: &str) -> SqlStatement {
    SqlStatement { sql: sql.to_string(), operation_index: 0, total_operations: 1 }
}

fn parsed(up: &[&str], down: &[&str]) -> ParsedMigration {
    ParsedMigration {
        file_name: "f".to_string(),
        up_body: String::new(),
        down_body: String::new(),
        custom_sql_up: up.iter().map(|s| stmt(s)).collect(),
        custom_sql_down: down.iter().map(|s| stmt(s)).collect(),
        has_custom_sql: !up.is_empty() || !down.is_empty(),
    }
}

#[test]
fn squash_keeps_newest_up_and_oldest_down_per_object() {
    let ps = vec![
        parsed(&["CREATE PROCEDURE dbo.P AS SELECT 1", "INSERT INTO T VALUES (1)"], &["DROP PROCEDURE dbo.P"]),
        parsed(&["ALTER PROCEDURE dbo.P AS SELECT 2"], &["ALTER PROCEDURE dbo.P AS SELECT 1"]),
    ];
    let (up, down) = squash_custom_sql(&ps);
    let up: Vec<&str> = up.iter().map(|s| s.sql.as_str()).collect();
    let down: Vec<&str> = down.iter().map(|s| s.sql.as_str()).collect();
    assert_eq!(up, vec!["INSERT INTO T VALUES (1)", "ALTER PROCEDURE dbo.P AS SELECT 2"]);
    assert_eq!(down, vec!["DROP PROCEDURE dbo.P", "ALTER PROCEDURE dbo.P AS SELECT 1"]);
}

#[test]
fn squash_messages() {
    assert_eq!(squash_removal_message(1, 3, "M9"), "Step 2/4 — Removing migration 1/3: M9…");
    assert_eq!(
        squash_summary(3, "Squashed", 2, 1),
        "Squashed 3 migrations into 'Squashed'. Custom SQL preserved: 2 Up, 1 Down."
    );
}

#[test]
fn squashed_sql_survives_injection_and_reparse() {
    let ps = vec![parsed(&["PRINT \"a\""], &[]), parsed(&["CREATE VIEW dbo.V AS SELECT 1"], &[])];
    let (up, _down) = squash_custom_sql(&ps);
    let content = "protected override void Up(MigrationBuilder m)\n{\n}\nprotected override void Down(MigrationBuilder m)\n{\n}\n";
    let written = MigrationParser::inject_custom_sql_into(content, "Up", &up).unwrap();
    let reparsed = MigrationParser::parse_source("/x/New.cs", &written);
    assert_eq!(reparsed.sql_strings_up(), vec!["PRINT \"a\"".to_string(), "CREATE VIEW dbo.V AS SELECT 1".to_string()]);
}

#[test]
fn squash_plan_refuses_an_empty_range() {
    let all = names(&["A", "B", "C"]);
    let r = SquashPlan::new(&all, "Z", "C", "Merged", 0, 0);
    assert_eq!(r.unwrap_err(), "No migrations found in the specified range");
}

#[test]
fn squash_runs_revert_removals_create_inject_apply_in_order() {
    let all = names(&["A", "B", "C", "D"]);
    let plan = SquashPlan::new(&all, "B", "C", "Merged", 2, 1).unwrap();
    assert_eq!(scanning_message("B", "C"), "Scanning migrations from B to C…");
    let mut step = SquashStep::Revert;
    let mut seen: Vec<String> = Vec::new();
    loop {
        let todo = plan.step(step);
        if let Some(m) = &todo.message {
            seen.push(m.clone());
        }
        match todo.action {
            SquashAction::UpdateDatabase(t) => seen.push(format!("update '{t}'")),
            SquashAction::RemoveLast => seen.push("remove".to_string()),
            SquashAction::AddMigration(n) => seen.push(format!("add {n}")),
            SquashAction::InjectCustomSql => {
                assert!(!todo.checks_cancel);
                seen.push("inject".to_string());
            }
            SquashAction::Finish(s) => {
                seen.push(s);
                break;
            }
        }
        step = plan.after(step, true, "").unwrap();
    }
    assert_eq!(
        seen,
        vec![
            "Step 1/4 — Reverting database to A…",
            "update 'A'",
            "Step 2/4 — Removing migration 1/2: C…",
            "remove",
            "Step 2/4 — Removing migration 2/2: B…",
            "remove",
            "Step 3/4 — Creating squashed migration Merged…",
            "add Merged",
            "Preserving custom SQL (2 Up, 1 Down)…",
            "inject",
            "Step 4/4 — Applying squashed migration Merged…",
            "update ''",
            "Squashed 2 migrations into 'Merged'. Custom SQL preserved: 2 Up, 1 Down.",
        ]
    );
}

#[test]
fn squash_step_failures_end_the_run() {
    let all = names(&["A", "B"]);
    let plan = SquashPlan::new(&all, "A", "B", "M", 0, 0).unwrap();
    assert_eq!(plan.step(SquashStep::Revert).message.as_deref(), Some("Step 1/4 — Reverting database to base…"));
    assert_eq!(plan.after(SquashStep::Revert, false, "boom").unwrap_err(), "Failed to revert database for squash: boom");
    assert_eq!(plan.after(SquashStep::Remove(0), false, "x").unwrap_err(), "Failed to remove migration during squash: x");
    assert_eq!(plan.after(SquashStep::Create, false, "y").unwrap_err(), "Failed to create squashed migration: y");
    assert_eq!(plan.after(SquashStep::Apply, false, "z").unwrap_err(), "Squash created but failed to apply: z");
    assert!(plan.step(SquashStep::Inject).message.is_none());
}

#[test]
fn progress_messages_name_their_subject() {
    assert_eq!(progress_message(Progress::CreatingMigration, "AddUsers"), "Creating migration AddUsers…");
    assert_eq!(progress_message(Progress::UpdatingDatabase, ""), "Updating database to latest…");
    assert_eq!(progress_message(Progress::UpdatingDatabase, "0"), "Updating database to base…");
    assert_eq!(progress_message(Progress::PreparingSwitch, "dev"), "Preparing to switch to dev…");
    assert_eq!(progress_message(Progress::ReadingTarget, "dev"), "Reading migrations on dev…");
    assert_eq!(progress_message(Progress::RollingBack, "Init"), "Rolling database back to Init…");
    assert_eq!(progress_message(Progress::SwitchingGit, "dev"), "Switching git to dev…");
}

#[test]
fn managed_switch_rolls_back_then_checks_out_then_applies() {
    let plan = SwitchPlan {
        current_migrations: names(&["A", "B"]),
        common_migration: Some("A".to_string()),
        common_index: Some(0),
        rollback_target: Some("A".to_string()),
    };
    let mut step = plan.first_step();
    assert_eq!(step, SwitchStep::RollBack);
    let todo = plan.step(step, "dev", "dev", 2);
    assert_eq!(todo.message.as_deref(), Some("Rolling database back to A…"));
    assert!(matches!(todo.action, SwitchAction::UpdateDatabase(ref t) if t == "A"));
    step = plan.after(step, true, "", "dev").unwrap();
    assert_eq!(step, SwitchStep::Checkout);
    let todo = plan.step(step, "dev", "dev", 2);
    assert_eq!(todo.message.as_deref(), Some("Switching git to dev…"));
    assert!(matches!(todo.action, SwitchAction::Checkout(ref b) if b == "dev"));
    step = plan.after(step, true, "", "dev").unwrap();
    assert_eq!(step, SwitchStep::Apply);
    assert!(matches!(plan.step(step, "dev", "dev", 2).action, SwitchAction::UpdateDatabase(ref t) if t.is_empty()));
    assert_eq!(plan.after(step, true, "", "dev").unwrap(), SwitchStep::Done);
    assert!(matches!(plan.step(SwitchStep::Done, "dev", "dev", 2).action, SwitchAction::Finish));
}

#[test]
fn managed_switch_failures_are_reported_per_step() {
    let plan = SwitchPlan { current_migrations: Vec::new(), common_migration: None, common_index: None, rollback_target: None };
    assert_eq!(plan.first_step(), SwitchStep::Checkout);
    assert_eq!(plan.after(SwitchStep::Checkout, false, "git said no", "main").unwrap_err(), "git said no");
    assert_eq!(
        plan.after(SwitchStep::RollBack, false, "boom", "main").unwrap_err(),
        rollback_failure("boom")
    );
    assert_eq!(
        plan.after(SwitchStep::Apply, false, "boom", "dev").unwrap_err(),
        update_after_switch_failure("dev", "boom")
    );
}
