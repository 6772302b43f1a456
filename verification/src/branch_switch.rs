//! The managed branch switch: roll the database back to the newest
//! migration both branches share, check out the target branch, then apply
//! its migrations. The git and EF calls are made by the caller; the
//! decisions between them are made here.
use vstd::prelude::*;
use crate::ops::{enriched_error, enrich_ef_error, latest_common, latest_common_migration, lemma_latest_common};
use crate::reads::{progress_message, progress_text, Progress};
use crate::text::{
    chars_of, decimal, eq_chars, is_blank, join, join_exec, opt_string, push_all, push_decimal,
    push_str, string_of, strings_view, trim, trim_chars,
};

verus! {

/// What a managed branch switch did.
#[derive(Debug, Clone)]
pub struct BranchSwitchResult {
    pub old_branch: String,
    pub new_branch: String,
    pub common_migration: Option<String>,
    pub rollback_target: Option<String>,
    pub rollback_performed: bool,
    pub target_migration_count: usize,
}

/// The branch asked for, trimmed; an empty name is refused.
pub fn switch_target(raw: &str) -> (r: Result<String, String>)
    ensures
        r matches Ok(t) ==> t@ == trim(raw@) && t@.len() > 0,
        r matches Err(e) ==> trim(raw@).len() == 0 && e@ == "Choose a branch to switch to"@,
{
    let t = trim_chars(chars_of(raw).as_slice());
    if t.len() == 0 {
        Err(String::from_str("Choose a branch to switch to"))
    } else {
        Ok(string_of(t.as_slice()))
    }
}

/// When the repository is already on `target`, the switch is a no-op and
/// this is its result.
pub fn already_on_branch(old_branch: &str, target: &str) -> (r: Option<BranchSwitchResult>)
    ensures
        r is Some <==> old_branch@ == target@,
        r matches Some(s) ==> s.old_branch@ == old_branch@ && s.new_branch@ == old_branch@
            && s.common_migration is None && s.rollback_target is None && !s.rollback_performed
            && s.target_migration_count == 0,
{
    let o = chars_of(old_branch);
    let t = chars_of(target);
    if eq_chars(o.as_slice(), t.as_slice()) {
        Some(
            BranchSwitchResult {
                old_branch: String::from_str(old_branch),
                new_branch: String::from_str(old_branch),
                common_migration: None,
                rollback_target: None,
                rollback_performed: false,
                target_migration_count: 0,
            },
        )
    } else {
        None
    }
}

pub open spec fn dirty_tree_error() -> Seq<char> {
    "Working tree has uncommitted changes. Commit, stash, or discard them before using automatic branch switch."@
}

/// The switch goes ahead only to an existing branch from a clean working
/// tree.
pub fn switch_gate(target: &str, ref_exists: bool, tree_clean: bool) -> (r: Result<(), String>)
    ensures
        r is Ok <==> ref_exists && tree_clean,
        r matches Err(e) ==> (if !ref_exists {
            e@ == "Git branch not found: "@ + target@
        } else {
            e@ == dirty_tree_error()
        }),
{
    if !ref_exists {
        let mut out = chars_of("Git branch not found: ");
        push_str(&mut out, target);
        return Err(string_of(out.as_slice()));
    }
    if !tree_clean {
        return Err(
            String::from_str(
                "Working tree has uncommitted changes. Commit, stash, or discard them before using automatic branch switch.",
            ),
        );
    }
    Ok(())
}

// ─── Planning ───────────────────────────────────────────────────────

/// The names of EF's migration list.
pub open spec fn ef_names(ef: Seq<(String, bool)>) -> Seq<Seq<char>> {
    ef.map_values(|e: (String, bool)| e.0@)
}

/// The migrations of the current branch: EF's list, or the migration files
/// when EF listed none.
pub open spec fn current_list(ef: Seq<(String, bool)>, files: Seq<Seq<char>>) -> Seq<Seq<char>> {
    if ef.len() == 0 {
        files
    } else {
        ef_names(ef)
    }
}

/// The first position `>= i` of `x` in `s`.
pub open spec fn first_index_from(s: Seq<Seq<char>>, x: Seq<char>, i: int) -> Option<int>
    decreases s.len() - i,
{
    if i < 0 || i >= s.len() {
        None
    } else if s[i] == x {
        Some(i)
    } else {
        first_index_from(s, x, i + 1)
    }
}

/// The last position `< n` of an applied migration.
pub open spec fn last_applied(ef: Seq<(String, bool)>, n: int) -> Option<int>
    decreases n,
{
    if n <= 0 || n > ef.len() {
        None
    } else if ef[n - 1].1 {
        Some(n - 1)
    } else {
        last_applied(ef, n - 1)
    }
}

/// At most five names of `list` for an error message.
pub open spec fn preview(list: Seq<Seq<char>>) -> Seq<char> {
    if list.len() == 0 {
        "(empty)"@
    } else {
        "["@ + join(list.take(if list.len() > 5 { 5 } else { list.len() as int }), ", "@) + (if list.len()
            > 5 {
            ", … (+"@ + decimal((list.len() - 5) as nat) + " more)"@
        } else {
            Seq::empty()
        }) + "]"@
    }
}

/// Why the switch refuses to run when the branches share no migration.
pub open spec fn no_common_error(
    old_branch: Seq<char>,
    target: Seq<char>,
    current: Seq<Seq<char>>,
    target_migrations: Seq<Seq<char>>,
    pathspec: Seq<char>,
) -> Seq<char> {
    "No common migration found between '"@ + old_branch + "' and '"@ + target
        + "'. Refusing to revert all applied migrations automatically — this is almost always caused by mismatched migration filenames or a different migrations folder path on the target branch.\n\nCurrent branch migrations ("@
        + decimal(current.len()) + "): "@ + preview(current) + "\nTarget branch migrations ("@
        + decimal(target_migrations.len()) + "): "@ + preview(target_migrations)
        + "\nMigrations pathspec: "@ + pathspec
}

/// The rollback target: the shared migration, when something after it is
/// applied.
pub open spec fn rollback_for(
    applied: Option<int>,
    common_index: Option<int>,
    common: Option<Seq<char>>,
) -> Option<Seq<char>> {
    match (applied, common_index) {
        (Some(a), Some(c)) => if a > c {
            common
        } else {
            None
        },
        _ => None,
    }
}

/// The decisions taken before the checkout.
#[derive(Debug)]
pub struct SwitchPlan {
    pub current_migrations: Vec<String>,
    pub common_migration: Option<String>,
    pub common_index: Option<usize>,
    pub rollback_target: Option<String>,
}

pub open spec fn opt_index(o: Option<usize>) -> Option<int> {
    match o {
        Some(i) => Some(i as int),
        None => None,
    }
}

/// The plan the switch follows, or its refusal, given EF's migration list
/// (names with applied flags), the migration files of the current branch,
/// and the migrations on the target branch.
pub open spec fn switch_plan(
    ef: Seq<(String, bool)>,
    files: Seq<Seq<char>>,
    target_migrations: Seq<Seq<char>>,
) -> (Seq<Seq<char>>, Option<Seq<char>>, Option<int>, Option<int>) {
    let current = current_list(ef, files);
    let common = latest_common(current, target_migrations);
    let common_index = match common {
        Some(m) => first_index_from(current, m, 0),
        None => None,
    };
    (current, common, common_index, last_applied(ef, ef.len() as int))
}

fn first_index_exec(s: &Vec<String>, x: &String) -> (r: Option<usize>)
    ensures
        opt_index(r) == first_index_from(strings_view(s@), x@, 0),
{
    let xc = chars_of(x.as_str());
    let ghost sv = strings_view(s@);
    for i in 0..s.len()
        invariant
            sv == strings_view(s@),
            xc@ == x@,
            first_index_from(sv, x@, 0) == first_index_from(sv, x@, i as int),
    {
        let c = chars_of(s[i].as_str());
        assert(sv[i as int] == s@[i as int]@);
        if eq_chars(c.as_slice(), xc.as_slice()) {
            return Some(i);
        }
    }
    None
}

fn last_applied_exec(ef: &Vec<(String, bool)>) -> (r: Option<usize>)
    ensures
        opt_index(r) == last_applied(ef@, ef@.len() as int),
{
    let mut n: usize = ef.len();
    while n > 0
        invariant
            n <= ef@.len(),
            last_applied(ef@, ef@.len() as int) == last_applied(ef@, n as int),
        decreases n,
    {
        if ef[n - 1].1 {
            return Some(n - 1);
        }
        n = n - 1;
    }
    None
}

fn preview_exec(list: &Vec<String>) -> (r: Vec<char>)
    ensures
        r@ == preview(strings_view(list@)),
{
    let ghost lv = strings_view(list@);
    if list.len() == 0 {
        return chars_of("(empty)");
    }
    let shown_len: usize = if list.len() > 5 { 5 } else { list.len() };
    let mut shown: Vec<Vec<char>> = Vec::new();
    for i in 0..shown_len
        invariant
            shown_len <= list@.len(),
            lv == strings_view(list@),
            crate::text::views(shown@) == lv.take(i as int),
    {
        let ghost before = shown@;
        shown.push(chars_of(list[i].as_str()));
        assert(crate::text::views(shown@) =~= crate::text::views(before).push(list@[i as int]@));
        assert(lv.take(i + 1) =~= lv.take(i as int).push(lv[i as int]));
    }
    let sep = chars_of(", ");
    let mut out = chars_of("[");
    let body = join_exec(&shown, sep.as_slice());
    push_all(&mut out, body.as_slice());
    if list.len() > 5 {
        push_str(&mut out, ", … (+");
        push_decimal(&mut out, (list.len() - 5) as u128);
        push_str(&mut out, " more)");
    }
    push_str(&mut out, "]");
    out
}

fn copy_strings(v: &Vec<String>) -> (r: Vec<String>)
    ensures
        strings_view(r@) == strings_view(v@),
{
    let mut out: Vec<String> = Vec::new();
    for i in 0..v.len()
        invariant
            strings_view(out@) == strings_view(v@).take(i as int),
    {
        let ghost before = out@;
        out.push(string_of(chars_of(v[i].as_str()).as_slice()));
        assert(strings_view(out@) =~= strings_view(before).push(v@[i as int]@));
        assert(strings_view(v@).take(i + 1) =~= strings_view(v@).take(i as int).push(v@[i as int]@));
    }
    out
}

fn ef_names_exec(ef: &Vec<(String, bool)>) -> (r: Vec<String>)
    ensures
        strings_view(r@) == ef_names(ef@),
{
    let mut out: Vec<String> = Vec::new();
    for i in 0..ef.len()
        invariant
            strings_view(out@) == ef_names(ef@).take(i as int),
    {
        let ghost before = out@;
        out.push(string_of(chars_of(ef[i].0.as_str()).as_slice()));
        assert(strings_view(out@) =~= strings_view(before).push(ef@[i as int].0@));
        assert(ef_names(ef@).take(i + 1) =~= ef_names(ef@).take(i as int).push(ef@[i as int].0@));
    }
    out
}

/// Plans the switch (see `switch_plan`). It is refused when the branches
/// share no migration while some migration is applied: reverting
/// everything is almost never what was meant.
pub fn plan_branch_switch(
    old_branch: &str,
    target_branch: &str,
    ef_migrations: &Vec<(String, bool)>,
    current_files: &Vec<String>,
    target_migrations: &Vec<String>,
    pathspec: &str,
) -> (r: Result<SwitchPlan, String>)
    ensures
        ({
            let (current, common, common_index, applied) = switch_plan(
                ef_migrations@,
                strings_view(current_files@),
                strings_view(target_migrations@),
            );
            &&& r is Err <==> common is None && applied is Some
            &&& r matches Err(e) ==> e@ == no_common_error(
                old_branch@,
                target_branch@,
                current,
                strings_view(target_migrations@),
                pathspec@,
            )
            &&& r matches Ok(p) ==> {
                &&& strings_view(p.current_migrations@) == current
                &&& opt_string(p.common_migration) == common
                &&& opt_index(p.common_index) == common_index
                &&& opt_string(p.rollback_target) == rollback_for(applied, common_index, common)
            }
        }),
{
    let current = if ef_migrations.len() == 0 {
        copy_strings(current_files)
    } else {
        ef_names_exec(ef_migrations)
    };
    let common = latest_common_migration(current.as_slice(), target_migrations.as_slice());
    let common_index = match &common {
        Some(m) => first_index_exec(&current, m),
        None => None,
    };
    let applied = last_applied_exec(ef_migrations);
    if common.is_none() && applied.is_some() {
        let mut out = chars_of("No common migration found between '");
        push_str(&mut out, old_branch);
        push_str(&mut out, "' and '");
        push_str(&mut out, target_branch);
        push_str(
            &mut out,
            "'. Refusing to revert all applied migrations automatically — this is almost always caused by mismatched migration filenames or a different migrations folder path on the target branch.\n\nCurrent branch migrations (",
        );
        push_decimal(&mut out, current.len() as u128);
        push_str(&mut out, "): ");
        let p1 = preview_exec(&current);
        push_all(&mut out, p1.as_slice());
        push_str(&mut out, "\nTarget branch migrations (");
        push_decimal(&mut out, target_migrations.len() as u128);
        push_str(&mut out, "): ");
        let p2 = preview_exec(target_migrations);
        push_all(&mut out, p2.as_slice());
        push_str(&mut out, "\nMigrations pathspec: ");
        push_str(&mut out, pathspec);
        return Err(string_of(out.as_slice()));
    }
    let rollback_target = match (applied, common_index) {
        (Some(a), Some(c)) => if a > c {
            match &common {
                Some(m) => Some(string_of(chars_of(m.as_str()).as_slice())),
                None => None,
            }
        } else {
            None
        },
        _ => None,
    };
    Ok(SwitchPlan { current_migrations: current, common_migration: common, common_index, rollback_target })
}

// ─── After the plan ─────────────────────────────────────────────────

/// How many of the target branch's migrations come after the shared one.
pub open spec fn pending_after(common_index: Option<int>, total: int) -> int {
    match common_index {
        Some(c) => if total > c + 1 {
            total - c - 1
        } else {
            0
        },
        None => total,
    }
}

pub fn pending_migrations(common_index: Option<usize>, total: usize) -> (r: usize)
    ensures
        r == pending_after(opt_index(common_index), total as int),
{
    match common_index {
        Some(c) => if total > c && total - c > 1 {
            total - c - 1
        } else {
            0
        },
        None => total,
    }
}

/// The progress message of the final database update.
pub open spec fn apply_message(pending: nat, new_branch: Seq<char>) -> Seq<char> {
    if pending > 0 {
        "Applying "@ + decimal(pending) + " pending migration"@ + (if pending == 1 {
            ""@
        } else {
            "s"@
        }) + " on "@ + new_branch + "…"@
    } else {
        "Updating database on "@ + new_branch + "…"@
    }
}

pub fn apply_progress_message(pending: usize, new_branch: &str) -> (r: String)
    ensures
        r@ == apply_message(pending as nat, new_branch@),
{
    proof {
        reveal_strlit("");
    }
    if pending > 0 {
        let mut out = chars_of("Applying ");
        push_decimal(&mut out, pending as u128);
        push_str(&mut out, " pending migration");
        if pending != 1 {
            push_str(&mut out, "s");
        } else {
            assert(out@ =~= out@ + ""@);
        }
        push_str(&mut out, " on ");
        push_str(&mut out, new_branch);
        push_str(&mut out, "…");
        string_of(out.as_slice())
    } else {
        let mut out = chars_of("Updating database on ");
        push_str(&mut out, new_branch);
        push_str(&mut out, "…");
        string_of(out.as_slice())
    }
}

/// How a migration target is named in progress messages: "0" is the
/// empty database.
pub open spec fn target_label(target: Seq<char>) -> Seq<char> {
    if target == "0"@ {
        "base"@
    } else {
        target
    }
}

pub fn rollback_label(target: &str) -> (r: String)
    ensures
        r@ == target_label(target@),
{
    let t = chars_of(target);
    if crate::text::eq_str(t.as_slice(), "0") {
        String::from_str("base")
    } else {
        String::from_str(target)
    }
}

/// The error of a failed rollback before the checkout.
pub fn rollback_failure(error_output: &str) -> (r: String)
    ensures
        r@ == enriched_error("Failed to roll back before switching branches: "@ + error_output@),
{
    let mut out = chars_of("Failed to roll back before switching branches: ");
    push_str(&mut out, error_output);
    let s = string_of(out.as_slice());
    enrich_ef_error(s.as_str())
}

/// The error of a failed database update after the checkout.
pub fn update_after_switch_failure(new_branch: &str, error_output: &str) -> (r: String)
    ensures
        r@ == enriched_error(
            "Switched to '"@ + new_branch@ + "', but failed to update the database: "@ + error_output@,
        ),
{
    let mut out = chars_of("Switched to '");
    push_str(&mut out, new_branch);
    push_str(&mut out, "', but failed to update the database: ");
    push_str(&mut out, error_output);
    let s = string_of(out.as_slice());
    enrich_ef_error(s.as_str())
}

// ─── Laws ───────────────────────────────────────────────────────────

/// A rollback, when planned, goes to the newest migration both branches
/// share: it is in both lists, nothing after it on the current branch is
/// on the target branch, and some migration after it is applied.
pub proof fn lemma_rollback_target_is_shared(
    ef: Seq<(String, bool)>,
    files: Seq<Seq<char>>,
    target_migrations: Seq<Seq<char>>,
)
    ensures
        ({
            let (current, common, common_index, applied) = switch_plan(ef, files, target_migrations);
            rollback_for(applied, common_index, common) matches Some(t) ==> {
                &&& common == Some(t)
                &&& current.contains(t)
                &&& target_migrations.contains(t)
                &&& exists|i: int|
                    0 <= i < current.len() && current[i] == t && forall|j: int|
                        i < j < current.len() ==> !target_migrations.contains(#[trigger] current[j])
                &&& applied matches Some(a) && common_index matches Some(c) && a > c
            }
        }),
{
    let (current, common, common_index, applied) = switch_plan(ef, files, target_migrations);
    lemma_latest_common(current, target_migrations);
}

/// Without a shared migration nothing is rolled back, and the switch is
/// refused exactly when something is applied.
pub proof fn lemma_no_shared_migration_no_rollback(
    ef: Seq<(String, bool)>,
    files: Seq<Seq<char>>,
    target_migrations: Seq<Seq<char>>,
)
    ensures
        ({
            let (current, common, common_index, applied) = switch_plan(ef, files, target_migrations);
            common is None ==> common_index is None && rollback_for(applied, common_index, common) is None
        }),
{
}

/// `last_applied(ef, n)` is the newest applied position below `n`.
proof fn lemma_last_applied(ef: Seq<(String, bool)>, n: int)
    requires
        0 <= n <= ef.len(),
    ensures
        last_applied(ef, n) matches Some(a) ==> 0 <= a < n && ef[a].1 && forall|j: int|
            a < j < n ==> !(#[trigger] ef[j]).1,
        last_applied(ef, n) is None ==> forall|j: int| 0 <= j < n ==> !(#[trigger] ef[j]).1,
    decreases n,
{
    if n > 0 && !ef[n - 1].1 {
        lemma_last_applied(ef, n - 1);
    }
}

/// The database is rolled back before the checkout exactly when some
/// migration after the shared one is applied (whatever comes between),
/// and then to the shared migration; the applied position the plan uses
/// is that of the newest applied migration, and there is none only when
/// nothing is applied.
pub proof fn lemma_rollback_iff_applied_after_shared(
    ef: Seq<(String, bool)>,
    files: Seq<Seq<char>>,
    target_migrations: Seq<Seq<char>>,
)
    ensures
        ({
            let (current, common, common_index, applied) = switch_plan(ef, files, target_migrations);
            &&& applied matches Some(a) ==> 0 <= a < ef.len() && ef[a].1 && forall|j: int|
                a < j < ef.len() ==> !(#[trigger] ef[j]).1
            &&& applied is None <==> forall|j: int| 0 <= j < ef.len() ==> !(#[trigger] ef[j]).1
            &&& rollback_for(applied, common_index, common) is Some <==> (common_index matches Some(c)
                && exists|j: int| 0 <= j && c < j < ef.len() && (#[trigger] ef[j]).1)
            &&& rollback_for(applied, common_index, common) is Some ==> rollback_for(
                applied,
                common_index,
                common,
            ) == common
        }),
{
    let (current, common, common_index, applied) = switch_plan(ef, files, target_migrations);
    lemma_last_applied(ef, ef.len() as int);
    if let Some(a) = applied {
        assert(ef[a].1);
        if let Some(c) = common_index {
            if a <= c {
                assert forall|j: int| 0 <= j && c < j < ef.len() implies !(#[trigger] ef[j]).1 by {
                    assert(a < j);
                }
            }
        }
    }
}

/// The pending count and the shared migration's position account for the
/// whole target list.
pub proof fn lemma_pending_accounts_for_target(common_index: Option<int>, total: int)
    requires
        total >= 0,
        common_index matches Some(c) ==> c >= 0,
    ensures
        0 <= pending_after(common_index, total) <= total,
        common_index matches Some(c) ==> (total > c + 1 ==> pending_after(common_index, total) + c + 1
            == total),
{
}

// ─── The mutating steps, one by one ─────────────────────────────────

/// Where the mutating part of a managed switch stands: the step about to
/// run.
#[derive(Debug, Clone, Copy, PartialEq, Eq, Structural)]
pub enum SwitchStep {
    /// Roll the database back to the shared migration.
    RollBack,
    /// Check out the target branch.
    Checkout,
    /// Apply the target branch's migrations.
    Apply,
    /// Report the result.
    Done,
}

/// What the caller runs for a step.
#[derive(Debug)]
pub enum SwitchAction {
    /// `dotnet ef database update <target>` (empty target: the latest).
    UpdateDatabase(String),
    /// Check out this branch.
    Checkout(String),
    /// The switch is over.
    Finish,
}

/// One step as the caller carries it out: whether a cancel request stops
/// the switch before it, the progress phase and message, and what to run.
#[derive(Debug)]
pub struct SwitchTodo {
    pub checks_cancel: bool,
    pub phase: String,
    pub message: Option<String>,
    pub action: SwitchAction,
}

/// The step after `step` when it succeeded.
pub open spec fn next_switch_step(step: SwitchStep) -> SwitchStep {
    match step {
        SwitchStep::RollBack => SwitchStep::Checkout,
        SwitchStep::Checkout => SwitchStep::Apply,
        _ => SwitchStep::Done,
    }
}

/// The error that ends the switch when `step` failed with
/// `error_output` (for a failed checkout, git's own error).
pub open spec fn switch_step_failure(step: SwitchStep, error_output: Seq<char>, new_branch: Seq<char>) -> Seq<char> {
    match step {
        SwitchStep::RollBack => enriched_error("Failed to roll back before switching branches: "@ + error_output),
        SwitchStep::Apply => enriched_error(
            "Switched to '"@ + new_branch + "', but failed to update the database: "@ + error_output,
        ),
        _ => error_output,
    }
}

impl SwitchPlan {
    /// The first mutating step: the rollback when there is a rollback
    /// target, else the checkout.
    pub fn first_step(&self) -> (r: SwitchStep)
        ensures
            r == (if self.rollback_target is Some {
                SwitchStep::RollBack
            } else {
                SwitchStep::Checkout
            }),
    {
        if self.rollback_target.is_some() {
            SwitchStep::RollBack
        } else {
            SwitchStep::Checkout
        }
    }

    /// How the caller carries out `step` of a switch to `target_branch`;
    /// `new_branch` is the branch git reports after the checkout and
    /// `pending` the number of migrations the update will apply.
    pub fn step(&self, step: SwitchStep, target_branch: &str, new_branch: &str, pending: usize) -> (r: SwitchTodo)
        requires
            step is RollBack ==> self.rollback_target is Some,
        ensures
            r.checks_cancel == !(step is Done),
            step is RollBack ==> r.phase@ == "rolling-back"@ && opt_string(r.message) == Some(
                progress_text(Progress::RollingBack, self.rollback_target->Some_0@),
            ) && (r.action matches SwitchAction::UpdateDatabase(t) && t@ == self.rollback_target->Some_0@),
            step is Checkout ==> r.phase@ == "switching-git"@ && opt_string(r.message) == Some(
                progress_text(Progress::SwitchingGit, target_branch@),
            ) && (r.action matches SwitchAction::Checkout(b) && b@ == target_branch@),
            step is Apply ==> r.phase@ == "applying"@ && opt_string(r.message) == Some(
                apply_message(pending as nat, new_branch@),
            ) && (r.action matches SwitchAction::UpdateDatabase(t) && t@.len() == 0),
            step is Done ==> r.phase@ == "done"@ && r.message is None && r.action is Finish,
    {
        match step {
            SwitchStep::RollBack => {
                let target = match &self.rollback_target {
                    Some(t) => t.as_str(),
                    None => "",
                };
                SwitchTodo {
                    checks_cancel: true,
                    phase: String::from_str("rolling-back"),
                    message: Some(progress_message(Progress::RollingBack, target)),
                    action: SwitchAction::UpdateDatabase(String::from_str(target)),
                }
            },
            SwitchStep::Checkout => SwitchTodo {
                checks_cancel: true,
                phase: String::from_str("switching-git"),
                message: Some(progress_message(Progress::SwitchingGit, target_branch)),
                action: SwitchAction::Checkout(String::from_str(target_branch)),
            },
            SwitchStep::Apply => SwitchTodo {
                checks_cancel: true,
                phase: String::from_str("applying"),
                message: Some(apply_progress_message(pending, new_branch)),
                action: SwitchAction::UpdateDatabase(String::new()),
            },
            SwitchStep::Done => SwitchTodo {
                checks_cancel: false,
                phase: String::from_str("done"),
                message: None,
                action: SwitchAction::Finish,
            },
        }
    }

    /// The step after `step`, given whether its run succeeded and what it
    /// printed on failure: the next step, or the error that ends the
    /// switch.
    pub fn after(&self, step: SwitchStep, succeeded: bool, error_output: &str, new_branch: &str) -> (r: Result<
        SwitchStep,
        String,
    >)
        ensures
            (succeeded || step is Done) ==> r == Ok::<SwitchStep, String>(next_switch_step(step)),
            !(succeeded || step is Done) ==> (r matches Err(e) && e@ == switch_step_failure(
                step,
                error_output@,
                new_branch@,
            )),
    {
        if succeeded || step == SwitchStep::Done {
            match step {
                SwitchStep::RollBack => Ok(SwitchStep::Checkout),
                SwitchStep::Checkout => Ok(SwitchStep::Apply),
                _ => Ok(SwitchStep::Done),
            }
        } else {
            match step {
                SwitchStep::RollBack => Err(rollback_failure(error_output)),
                SwitchStep::Apply => Err(update_after_switch_failure(new_branch, error_output)),
                _ => Err(String::from_str(error_output)),
            }
        }
    }
}

/// A managed switch rolls the database back (when it must) before git
/// checks out the target, and applies the target's migrations only after
/// the checkout.
pub proof fn lemma_switch_step_order()
    ensures
        next_switch_step(SwitchStep::RollBack) == SwitchStep::Checkout,
        next_switch_step(SwitchStep::Checkout) == SwitchStep::Apply,
        next_switch_step(SwitchStep::Apply) == SwitchStep::Done,
{
}

} // verus!
