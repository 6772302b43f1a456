//! What the read operations and the EF-mutating operations report: the
//! migration list entries, branch lists without the current branch,
//! progress labels, and success and failure messages.
use vstd::prelude::*;
use crate::branch_switch::target_label;
use crate::ops::{enrich_ef_error, enriched_error};
use crate::parser::ParsedMigration;
use crate::state::Migration;
use crate::text::{chars_of, eq_chars, opt_string, push_str, string_of, strings_view};

verus! {

/// A branch as the branch picker lists it.
#[derive(Debug, Clone)]
pub struct BranchInfo {
    pub name: String,
    pub is_remote: bool,
}

/// The parsed Up/Down bodies and custom SQL of one migration.
#[derive(Debug, Clone)]
pub struct MigrationSqlInfo {
    pub name: String,
    pub up_body: String,
    pub down_body: String,
    pub custom_sql_up: Vec<String>,
    pub custom_sql_down: Vec<String>,
}

fn copy_str(s: &String) -> (r: String)
    ensures
        r@ == s@,
{
    string_of(chars_of(s.as_str()).as_slice())
}

/// The branches of `branches` other than `current`, in order.
pub open spec fn other_branches(branches: Seq<(Seq<char>, bool)>, current: Seq<char>) -> Seq<(Seq<char>, bool)>
    decreases branches.len(),
{
    if branches.len() == 0 {
        Seq::empty()
    } else if branches.last().0 == current {
        other_branches(branches.drop_last(), current)
    } else {
        other_branches(branches.drop_last(), current).push(branches.last())
    }
}

pub open spec fn infos_view(v: Seq<BranchInfo>) -> Seq<(Seq<char>, bool)> {
    v.map_values(|b: BranchInfo| (b.name@, b.is_remote))
}

/// The branch picker's list: every branch but the current one.
pub fn branches_except(branches: &Vec<(String, bool)>, current: &str) -> (r: Vec<BranchInfo>)
    ensures
        infos_view(r@) == other_branches(crate::git::pairs_view(branches@), current@),
{
    let ghost bv = crate::git::pairs_view(branches@);
    let cur = chars_of(current);
    let mut out: Vec<BranchInfo> = Vec::new();
    for i in 0..branches.len()
        invariant
            bv == crate::git::pairs_view(branches@),
            cur@ == current@,
            infos_view(out@) == other_branches(bv.take(i as int), current@),
    {
        assert(bv.take(i + 1).drop_last() =~= bv.take(i as int));
        assert(bv[i as int] == (branches@[i as int].0@, branches@[i as int].1));
        let name = chars_of(branches[i].0.as_str());
        if !eq_chars(name.as_slice(), cur.as_slice()) {
            let ghost before = out@;
            out.push(BranchInfo { name: copy_str(&branches[i].0), is_remote: branches[i].1 });
            assert(infos_view(out@) =~= infos_view(before).push(bv[i as int]));
        }
    }
    assert(bv.take(bv.len() as int) =~= bv);
    out
}

/// The migration list entry for `name` (applied or not): its file, when
/// one was found, and what parsing that file gave (`None` when it could
/// not be read).
pub fn migration_entry(
    name: &str,
    applied: bool,
    file_path: Option<String>,
    parsed: Option<&ParsedMigration>,
) -> (r: Migration)
    ensures
        r.id@ == name@,
        r.name@ == name@,
        r.applied == applied,
        opt_string(r.file_path) == opt_string(file_path),
        match parsed {
            Some(p) => {
                &&& r.has_custom_sql == p.has_custom_sql
                &&& strings_view(r.custom_sql_up@) == p.custom_sql_up@.map_values(
                    |s: crate::parser::SqlStatement| s.sql@,
                )
                &&& strings_view(r.custom_sql_down@) == p.custom_sql_down@.map_values(
                    |s: crate::parser::SqlStatement| s.sql@,
                )
            },
            None => !r.has_custom_sql && r.custom_sql_up@.len() == 0 && r.custom_sql_down@.len() == 0,
        },
{
    let (has_custom_sql, custom_sql_up, custom_sql_down) = match parsed {
        Some(p) => {
            let up = p.sql_strings_up();
            let down = p.sql_strings_down();
            assert(strings_view(up@) =~= p.custom_sql_up@.map_values(|s: crate::parser::SqlStatement| s.sql@));
            assert(strings_view(down@) =~= p.custom_sql_down@.map_values(|s: crate::parser::SqlStatement| s.sql@));
            (p.has_custom_sql, up, down)
        },
        None => (false, Vec::new(), Vec::new()),
    };
    Migration {
        id: String::from_str(name),
        name: String::from_str(name),
        applied,
        has_custom_sql,
        custom_sql_up,
        custom_sql_down,
        file_path,
    }
}

impl MigrationSqlInfo {
    /// The SQL view of a parsed migration file.
    pub fn from_parsed(parsed: &ParsedMigration) -> (r: MigrationSqlInfo)
        ensures
            r.name@ == parsed.file_name@,
            r.up_body@ == parsed.up_body@,
            r.down_body@ == parsed.down_body@,
            strings_view(r.custom_sql_up@) == parsed.custom_sql_up@.map_values(
                |s: crate::parser::SqlStatement| s.sql@,
            ),
            strings_view(r.custom_sql_down@) == parsed.custom_sql_down@.map_values(
                |s: crate::parser::SqlStatement| s.sql@,
            ),
    {
        let up = parsed.sql_strings_up();
        let down = parsed.sql_strings_down();
        assert(strings_view(up@) =~= parsed.custom_sql_up@.map_values(|s: crate::parser::SqlStatement| s.sql@));
        assert(strings_view(down@) =~= parsed.custom_sql_down@.map_values(
            |s: crate::parser::SqlStatement| s.sql@,
        ));
        MigrationSqlInfo {
            name: copy_str(&parsed.file_name),
            up_body: copy_str(&parsed.up_body),
            down_body: copy_str(&parsed.down_body),
            custom_sql_up: up,
            custom_sql_down: down,
        }
    }
}

/// The error when no source file matches a migration name.
pub fn migration_file_not_found(name: &str, project_path: &str) -> (r: String)
    ensures
        r@ == "Migration file not found for '"@ + name@ + "' in project '"@ + project_path@ + "'"@,
{
    let mut out = chars_of("Migration file not found for '");
    push_str(&mut out, name);
    push_str(&mut out, "' in project '");
    push_str(&mut out, project_path);
    push_str(&mut out, "'");
    string_of(out.as_slice())
}

// ─── Operation messages ─────────────────────────────────────────────

/// The error of a failed EF operation: "Failed to <action>: <output>",
/// explained further when it is the migrations-assembly mismatch.
pub fn operation_failure(action: &str, error_output: &str) -> (r: String)
    ensures
        r@ == enriched_error("Failed to "@ + action@ + ": "@ + error_output@),
{
    let mut out = chars_of("Failed to ");
    push_str(&mut out, action);
    push_str(&mut out, ": ");
    push_str(&mut out, error_output);
    let s = string_of(out.as_slice());
    enrich_ef_error(s.as_str())
}

/// How a `database update` target is named in progress messages.
pub open spec fn update_label(target: Seq<char>) -> Seq<char> {
    if target.len() == 0 {
        "latest"@
    } else {
        target_label(target)
    }
}

pub fn database_target_label(target: &str) -> (r: String)
    ensures
        r@ == update_label(target@),
{
    if target.is_empty() {
        String::from_str("latest")
    } else {
        crate::branch_switch::rollback_label(target)
    }
}

/// What a successful `database update` reports.
pub open spec fn update_success(target: Seq<char>) -> Seq<char> {
    if target.len() == 0 {
        "Database updated to latest migration"@
    } else {
        "Database updated to migration: "@ + target
    }
}

pub fn update_database_message(target: &str) -> (r: String)
    ensures
        r@ == update_success(target@),
{
    if target.is_empty() {
        String::from_str("Database updated to latest migration")
    } else {
        let mut out = chars_of("Database updated to migration: ");
        push_str(&mut out, target);
        string_of(out.as_slice())
    }
}

/// The progress message of removing the last migration.
pub fn remove_progress_message(force: bool) -> (r: String)
    ensures
        r@ == (if force {
            "Removing migration (force)…"@
        } else {
            "Removing last migration…"@
        }),
{
    if force {
        String::from_str("Removing migration (force)…")
    } else {
        String::from_str("Removing last migration…")
    }
}

/// What a cancel request reports: the operation whose process was
/// stopped, if any.
pub fn cancel_message(killed: Option<&str>) -> (r: String)
    ensures
        r@ == match killed {
            Some(op) => "Cancel requested for '"@ + op@ + "'"@,
            None => "Cancel requested."@,
        },
{
    match killed {
        Some(op) => {
            let mut out = chars_of("Cancel requested for '");
            push_str(&mut out, op);
            push_str(&mut out, "'");
            string_of(out.as_slice())
        },
        None => String::from_str("Cancel requested."),
    }
}

/// Multi-step operations stop between steps once cancellation was asked
/// for.
pub fn check_cancel(canceled: bool) -> (r: Result<(), String>)
    ensures
        r is Ok <==> !canceled,
        r matches Err(e) ==> e@ == "Canceled by user."@,
{
    if canceled {
        Err(String::from_str("Canceled by user."))
    } else {
        Ok(())
    }
}

// ─── Progress messages ──────────────────────────────────────────────

/// The progress messages of the single-step and branch-switch operations.
#[derive(Debug, Clone, Copy)]
pub enum Progress {
    /// Before `migrations add <name>`.
    CreatingMigration,
    /// Before `database update <target>`.
    UpdatingDatabase,
    /// Before a branch switch starts.
    PreparingSwitch,
    /// Before the target branch's migrations are listed.
    ReadingTarget,
    /// Before the database is rolled back to the shared migration.
    RollingBack,
    /// Before the checkout.
    SwitchingGit,
}

pub open spec fn progress_text(kind: Progress, arg: Seq<char>) -> Seq<char> {
    match kind {
        Progress::CreatingMigration => "Creating migration "@ + arg + "…"@,
        Progress::UpdatingDatabase => "Updating database to "@ + update_label(arg) + "…"@,
        Progress::PreparingSwitch => "Preparing to switch to "@ + arg + "…"@,
        Progress::ReadingTarget => "Reading migrations on "@ + arg + "…"@,
        Progress::RollingBack => "Rolling database back to "@ + target_label(arg) + "…"@,
        Progress::SwitchingGit => "Switching git to "@ + arg + "…"@,
    }
}

/// The progress message `kind` about `arg` (a migration, target or
/// branch name).
pub fn progress_message(kind: Progress, arg: &str) -> (r: String)
    ensures
        r@ == progress_text(kind, arg@),
{
    let (head, shown) = match kind {
        Progress::CreatingMigration => ("Creating migration ", String::from_str(arg)),
        Progress::UpdatingDatabase => ("Updating database to ", database_target_label(arg)),
        Progress::PreparingSwitch => ("Preparing to switch to ", String::from_str(arg)),
        Progress::ReadingTarget => ("Reading migrations on ", String::from_str(arg)),
        Progress::RollingBack => ("Rolling database back to ", crate::branch_switch::rollback_label(arg)),
        Progress::SwitchingGit => ("Switching git to ", String::from_str(arg)),
    };
    let mut out = chars_of(head);
    push_str(&mut out, shown.as_str());
    push_str(&mut out, "…");
    string_of(out.as_slice())
}

} // verus!
