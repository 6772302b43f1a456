//! Squashing a range of migrations into one: which migrations the range
//! covers, where the database is reverted to first, and which custom SQL
//! statements are carried into the new migration. The EF runs themselves
//! are made by the caller.
use vstd::prelude::*;
use crate::branch_switch::{first_index_from, target_label};
use crate::parser::{KeepStrategy, MigrationParser, ParsedMigration, SqlStatement, stmts_view};
use crate::sql_object::{
    is_last, kept, kept_prefix, keys_of, object_key, lemma_dedup_index_map,
    lemma_dedup_targets_distinct,
};
use crate::text::{chars_of, decimal, eq_chars, opt_string, push_decimal, push_str, string_of, strings_view};

verus! {

/// The migrations a squash from `from` to `to` covers: from the first
/// `from` through the first `to` (to the end when there is no `to`), and
/// none when `from` is missing or `to` comes first.
pub open spec fn squash_range(names: Seq<Seq<char>>, from: Seq<char>, to: Seq<char>) -> Seq<Seq<char>> {
    match first_index_from(names, from, 0) {
        None => Seq::empty(),
        Some(f) => match first_index_from(names, to, 0) {
            Some(t) => if t < f {
                Seq::empty()
            } else {
                names.subrange(f, t + 1)
            },
            None => names.subrange(f, names.len() as int),
        },
    }
}

pub proof fn lemma_first_index_from(s: Seq<Seq<char>>, x: Seq<char>, i: int)
    requires
        0 <= i <= s.len(),
    ensures
        first_index_from(s, x, i) matches Some(k) ==> i <= k < s.len() && s[k] == x && forall|j: int|
            i <= j < k ==> #[trigger] s[j] != x,
        first_index_from(s, x, i) is None ==> forall|j: int| i <= j < s.len() ==> #[trigger] s[j] != x,
    decreases s.len() - i,
{
    if i < s.len() && s[i] != x {
        lemma_first_index_from(s, x, i + 1);
    }
}

fn position(names: &Vec<String>, x: &str) -> (r: Option<usize>)
    ensures
        match r {
            Some(k) => first_index_from(strings_view(names@), x@, 0) == Some(k as int),
            None => first_index_from(strings_view(names@), x@, 0) is None,
        },
{
    let xc = chars_of(x);
    let ghost sv = strings_view(names@);
    for i in 0..names.len()
        invariant
            sv == strings_view(names@),
            xc@ == x@,
            first_index_from(sv, x@, 0) == first_index_from(sv, x@, i as int),
    {
        let c = chars_of(names[i].as_str());
        assert(sv[i as int] == names@[i as int]@);
        if eq_chars(c.as_slice(), xc.as_slice()) {
            return Some(i);
        }
    }
    None
}

fn copy_range(names: &Vec<String>, a: usize, b: usize) -> (r: Vec<String>)
    requires
        a <= b <= names@.len(),
    ensures
        strings_view(r@) == strings_view(names@).subrange(a as int, b as int),
{
    let mut out: Vec<String> = Vec::new();
    for i in a..b
        invariant
            a <= b <= names@.len(),
            strings_view(out@) == strings_view(names@).subrange(a as int, i as int),
    {
        let ghost before = out@;
        out.push(string_of(chars_of(names[i].as_str()).as_slice()));
        assert(strings_view(out@) =~= strings_view(before).push(names@[i as int]@));
        assert(strings_view(names@).subrange(a as int, i + 1) =~= strings_view(names@).subrange(
            a as int,
            i as int,
        ).push(names@[i as int]@));
    }
    out
}

/// The names of the migrations the squash removes (see `squash_range`).
pub fn migrations_to_squash(names: &Vec<String>, from: &str, to: &str) -> (r: Vec<String>)
    ensures
        strings_view(r@) == squash_range(strings_view(names@), from@, to@),
{
    proof {
        lemma_first_index_from(strings_view(names@), from@, 0);
        lemma_first_index_from(strings_view(names@), to@, 0);
        assert(strings_view(names@).len() == names@.len());
    }
    match position(names, from) {
        None => Vec::new(),
        Some(f) => match position(names, to) {
            Some(t) => if t < f {
                Vec::new()
            } else {
                let n = names.len();
                assert(t < n);
                copy_range(names, f, t + 1)
            },
            None => copy_range(names, f, names.len()),
        },
    }
}

/// Where the database is reverted to before the squash: the migration just
/// before the first `from` (all of them when there is no `from`), or "0"
/// (the empty database) when there is none.
pub open spec fn revert_point(names: Seq<Seq<char>>, from: Seq<char>) -> Seq<char> {
    let k = match first_index_from(names, from, 0) {
        Some(f) => f,
        None => names.len() as int,
    };
    if k == 0 {
        "0"@
    } else {
        names[k - 1]
    }
}

pub fn before_migration(names: &Vec<String>, from: &str) -> (r: String)
    ensures
        r@ == revert_point(strings_view(names@), from@),
{
    let k = match position(names, from) {
        Some(f) => f,
        None => names.len(),
    };
    proof {
        lemma_first_index_from(strings_view(names@), from@, 0);
    }
    if k == 0 {
        String::from_str("0")
    } else {
        string_of(chars_of(names[k - 1].as_str()).as_slice())
    }
}

/// The progress label of the revert: "base" for the empty database.
pub fn revert_label(before: &str) -> (r: String)
    ensures
        r@ == target_label(before@),
{
    crate::branch_switch::rollback_label(before)
}

// ─── Custom SQL carried over ────────────────────────────────────────

/// The Up statements of `parsed[..n]`, in order.
pub open spec fn all_up(parsed: Seq<ParsedMigration>, n: int) -> Seq<(Seq<char>, int, int)>
    decreases n,
{
    if n <= 0 || n > parsed.len() {
        Seq::empty()
    } else {
        all_up(parsed, n - 1) + stmts_view(parsed[n - 1].custom_sql_up@)
    }
}

/// The Down statements of `parsed[..n]`, in order.
pub open spec fn all_down(parsed: Seq<ParsedMigration>, n: int) -> Seq<(Seq<char>, int, int)>
    decreases n,
{
    if n <= 0 || n > parsed.len() {
        Seq::empty()
    } else {
        all_down(parsed, n - 1) + stmts_view(parsed[n - 1].custom_sql_down@)
    }
}

/// The object each statement targets.
pub open spec fn view_keys(v: Seq<(Seq<char>, int, int)>) -> Seq<Option<Seq<char>>> {
    v.map_values(|t: (Seq<char>, int, int)| object_key(t.0))
}

/// Statements deduplicated per object: the last of each under `last`, the
/// first otherwise.
pub open spec fn dedup_view(v: Seq<(Seq<char>, int, int)>, last: bool) -> Seq<(Seq<char>, int, int)> {
    kept_prefix(v, view_keys(v), last, v.len() as int)
}

fn append_stmts(out: &mut Vec<SqlStatement>, v: &Vec<SqlStatement>)
    ensures
        stmts_view(final(out)@) == stmts_view(old(out)@) + stmts_view(v@),
{
    let ghost start = stmts_view(out@);
    for i in 0..v.len()
        invariant
            stmts_view(out@) == start + stmts_view(v@).take(i as int),
    {
        let ghost before = out@;
        out.push(v[i].duplicate());
        assert(stmts_view(out@) =~= stmts_view(before).push(v@[i as int]@));
        assert(stmts_view(v@).take(i + 1) =~= stmts_view(v@).take(i as int).push(v@[i as int]@));
    }
    assert(stmts_view(v@).take(v@.len() as int) =~= stmts_view(v@));
}

/// The custom SQL a squash carries into the new migration: every Up
/// statement of the range with only the newest per object, and every Down
/// statement with only the oldest per object.
pub fn squash_custom_sql(parsed: &Vec<ParsedMigration>) -> (r: (Vec<SqlStatement>, Vec<SqlStatement>))
    ensures
        stmts_view(r.0@) == dedup_view(all_up(parsed@, parsed@.len() as int), true),
        stmts_view(r.1@) == dedup_view(all_down(parsed@, parsed@.len() as int), false),
{
    let mut ups: Vec<SqlStatement> = Vec::new();
    let mut downs: Vec<SqlStatement> = Vec::new();
    for i in 0..parsed.len()
        invariant
            stmts_view(ups@) == all_up(parsed@, i as int),
            stmts_view(downs@) == all_down(parsed@, i as int),
    {
        append_stmts(&mut ups, &parsed[i].custom_sql_up);
        append_stmts(&mut downs, &parsed[i].custom_sql_down);
    }
    let ghost uv = stmts_view(ups@);
    let ghost dv = stmts_view(downs@);
    assert(keys_of(ups@) =~= view_keys(uv));
    assert(keys_of(downs@) =~= view_keys(dv));
    let u = MigrationParser::deduplicate_sql(ups, KeepStrategy::Last);
    let d = MigrationParser::deduplicate_sql(downs, KeepStrategy::First);
    (u, d)
}

/// After a squash no two carried Up statements (nor two Down statements)
/// target the same object.
pub proof fn lemma_squash_sql_targets_distinct(v: Seq<(Seq<char>, int, int)>, last: bool, i: int, j: int)
    requires
        0 <= i < j < v.len(),
        kept(view_keys(v), last, i),
        kept(view_keys(v), last, j),
        object_key(v[i].0) is Some,
    ensures
        object_key(v[i].0) != object_key(v[j].0),
{
    lemma_dedup_targets_distinct(view_keys(v), last, i, j);
}

/// The Up statements of each migration of `parsed`.
pub open spec fn ups_of(parsed: Seq<ParsedMigration>) -> Seq<Seq<(Seq<char>, int, int)>> {
    parsed.map_values(|m: ParsedMigration| stmts_view(m.custom_sql_up@))
}

/// The Down statements of each migration of `parsed`.
pub open spec fn downs_of(parsed: Seq<ParsedMigration>) -> Seq<Seq<(Seq<char>, int, int)>> {
    parsed.map_values(|m: ParsedMigration| stmts_view(m.custom_sql_down@))
}

/// A squash gathers the custom SQL of the range migration by migration, in
/// range order, each migration's statements in their own order.
pub proof fn lemma_squash_gathers_in_order(parsed: Seq<ParsedMigration>, n: int)
    requires
        0 <= n <= parsed.len(),
    ensures
        all_up(parsed, n) == ups_of(parsed.take(n)).flatten(),
        all_down(parsed, n) == downs_of(parsed.take(n)).flatten(),
    decreases n,
{
    if n == 0 {
        assert(ups_of(parsed.take(0)) =~= Seq::<Seq<(Seq<char>, int, int)>>::empty());
        assert(downs_of(parsed.take(0)) =~= Seq::<Seq<(Seq<char>, int, int)>>::empty());
    } else {
        lemma_squash_gathers_in_order(parsed, n - 1);
        let a = parsed.take(n - 1);
        assert(parsed.take(n) =~= a.push(parsed[n - 1]));
        assert(ups_of(parsed.take(n)) =~= ups_of(a).push(stmts_view(parsed[n - 1].custom_sql_up@)));
        assert(downs_of(parsed.take(n)) =~= downs_of(a).push(stmts_view(parsed[n - 1].custom_sql_down@)));
        ups_of(a).lemma_flatten_push(stmts_view(parsed[n - 1].custom_sql_up@));
        downs_of(a).lemma_flatten_push(stmts_view(parsed[n - 1].custom_sql_down@));
    }
}

/// The Down SQL of a squash (`v`: the range's Down statements) restores
/// the state before the range: the carried statements are, in range order
/// (`f` gives each one's position in `v`), exactly those that target no
/// recognized object or are the first of the range to target their
/// object.
pub proof fn lemma_squash_down_keeps_oldest(v: Seq<(Seq<char>, int, int)>) -> (f: spec_fn(int) -> int)
    ensures
        forall|m: int|
            0 <= m < dedup_view(v, false).len() ==> {
                &&& 0 <= #[trigger] f(m) < v.len()
                &&& dedup_view(v, false)[m] == v[f(m)]
                &&& object_key(v[f(m)].0) is Some ==> forall|j: int|
                    0 <= j < f(m) ==> object_key((#[trigger] v[j]).0) != object_key(v[f(m)].0)
            },
        forall|m1: int, m2: int|
            0 <= m1 < m2 < dedup_view(v, false).len() ==> #[trigger] f(m1) < #[trigger] f(m2),
        forall|i: int|
            0 <= i < v.len() && (object_key(v[i].0) is None || forall|j: int|
                0 <= j < i ==> object_key((#[trigger] v[j]).0) != object_key(v[i].0)) ==> exists|m: int|
                0 <= m < dedup_view(v, false).len() && #[trigger] f(m) == i,
{
    let f = lemma_squash_keeps(v, false);
    let keys = view_keys(v);
    let r = dedup_view(v, false);
    assert forall|m: int| 0 <= m < r.len() && object_key(v[#[trigger] f(m)].0) is Some implies forall|j: int|
        0 <= j < f(m) ==> object_key((#[trigger] v[j]).0) != object_key(v[f(m)].0) by {
        let i = f(m);
        assert(0 <= i < v.len() && kept(keys, false, i));
        assert(keys[i] == object_key(v[i].0));
        assert forall|j: int| 0 <= j < i implies object_key((#[trigger] v[j]).0) != object_key(v[i].0) by {
            assert(keys[j] == object_key(v[j].0));
        }
    }
    assert forall|i: int|
        0 <= i < v.len() && (object_key(v[i].0) is None || forall|j: int|
            0 <= j < i ==> object_key((#[trigger] v[j]).0) != object_key(v[i].0)) implies exists|m: int|
            0 <= m < r.len() && #[trigger] f(m) == i by {
        assert(keys[i] == object_key(v[i].0));
        if keys[i] is Some {
            assert forall|j: int| 0 <= j < i implies keys[j] != keys[i] by {
                assert(keys[j] == object_key(v[j].0));
            }
        }
        assert(kept(keys, false, i));
    }
    f
}

/// The Up SQL of a squash (`v`: the range's Up statements) leaves the
/// newest version of each object: the carried statements are, in range
/// order (`f` gives each one's position in `v`), exactly those that target
/// no recognized object or are the last of the range to target their
/// object.
pub proof fn lemma_squash_up_keeps_newest(v: Seq<(Seq<char>, int, int)>) -> (f: spec_fn(int) -> int)
    ensures
        forall|m: int|
            0 <= m < dedup_view(v, true).len() ==> {
                &&& 0 <= #[trigger] f(m) < v.len()
                &&& dedup_view(v, true)[m] == v[f(m)]
                &&& object_key(v[f(m)].0) is Some ==> forall|j: int|
                    f(m) < j < v.len() ==> object_key((#[trigger] v[j]).0) != object_key(v[f(m)].0)
            },
        forall|m1: int, m2: int|
            0 <= m1 < m2 < dedup_view(v, true).len() ==> #[trigger] f(m1) < #[trigger] f(m2),
        forall|i: int|
            0 <= i < v.len() && (object_key(v[i].0) is None || forall|j: int|
                i < j < v.len() ==> object_key((#[trigger] v[j]).0) != object_key(v[i].0)) ==> exists|m: int|
                0 <= m < dedup_view(v, true).len() && #[trigger] f(m) == i,
{
    let f = lemma_squash_keeps(v, true);
    let keys = view_keys(v);
    let r = dedup_view(v, true);
    assert forall|m: int| 0 <= m < r.len() && object_key(v[#[trigger] f(m)].0) is Some implies forall|j: int|
        f(m) < j < v.len() ==> object_key((#[trigger] v[j]).0) != object_key(v[f(m)].0) by {
        let i = f(m);
        assert(0 <= i < v.len() && kept(keys, true, i));
        assert(keys[i] == object_key(v[i].0));
        assert forall|j: int| i < j < v.len() implies object_key((#[trigger] v[j]).0) != object_key(v[i].0) by {
            assert(keys[j] == object_key(v[j].0));
        }
    }
    assert forall|i: int|
        0 <= i < v.len() && (object_key(v[i].0) is None || forall|j: int|
            i < j < v.len() ==> object_key((#[trigger] v[j]).0) != object_key(v[i].0)) implies exists|m: int|
            0 <= m < r.len() && #[trigger] f(m) == i by {
        assert(keys[i] == object_key(v[i].0));
        if keys[i] is Some {
            assert forall|j: int| i < j < v.len() implies keys[j] != keys[i] by {
                assert(keys[j] == object_key(v[j].0));
            }
        }
        assert(kept(keys, true, i));
    }
    f
}

proof fn lemma_squash_keeps(v: Seq<(Seq<char>, int, int)>, last: bool) -> (f: spec_fn(int) -> int)
    ensures
        forall|m: int|
            0 <= m < dedup_view(v, last).len() ==> 0 <= #[trigger] f(m) < v.len() && kept(view_keys(v), last, f(m))
                && dedup_view(v, last)[m] == v[f(m)],
        forall|m1: int, m2: int|
            0 <= m1 < m2 < dedup_view(v, last).len() ==> #[trigger] f(m1) < #[trigger] f(m2),
        forall|i: int|
            0 <= i < v.len() && kept(view_keys(v), last, i) ==> exists|m: int|
                0 <= m < dedup_view(v, last).len() && #[trigger] f(m) == i,
        forall|i: int| 0 <= i < v.len() ==> #[trigger] view_keys(v)[i] == object_key(v[i].0),
{
    lemma_dedup_index_map(v, view_keys(v), last, v.len() as int)
}

// ─── Messages ───────────────────────────────────────────────────────

/// The progress message for removing the `idx`-th (from 1) of `total`
/// migrations.
pub open spec fn removal_message(idx: nat, total: nat, name: Seq<char>) -> Seq<char> {
    "Step 2/4 — Removing migration "@ + decimal(idx) + "/"@ + decimal(total) + ": "@ + name + "…"@
}

pub fn squash_removal_message(idx: usize, total: usize, name: &str) -> (r: String)
    ensures
        r@ == removal_message(idx as nat, total as nat, name@),
{
    let mut out = chars_of("Step 2/4 — Removing migration ");
    push_decimal(&mut out, idx as u128);
    push_str(&mut out, "/");
    push_decimal(&mut out, total as u128);
    push_str(&mut out, ": ");
    push_str(&mut out, name);
    push_str(&mut out, "…");
    string_of(out.as_slice())
}

/// What a finished squash reports.
pub open spec fn summary(total: nat, new_name: Seq<char>, up: nat, down: nat) -> Seq<char> {
    "Squashed "@ + decimal(total) + " migrations into '"@ + new_name + "'. Custom SQL preserved: "@
        + decimal(up) + " Up, "@ + decimal(down) + " Down."@
}

pub fn squash_summary(total: usize, new_name: &str, up: usize, down: usize) -> (r: String)
    ensures
        r@ == summary(total as nat, new_name@, up as nat, down as nat),
{
    let mut out = chars_of("Squashed ");
    push_decimal(&mut out, total as u128);
    push_str(&mut out, " migrations into '");
    push_str(&mut out, new_name);
    push_str(&mut out, "'. Custom SQL preserved: ");
    push_decimal(&mut out, up as u128);
    push_str(&mut out, " Up, ");
    push_decimal(&mut out, down as u128);
    push_str(&mut out, " Down.");
    string_of(out.as_slice())
}

// ─── The squash run, step by step ───────────────────────────────────

/// The progress message shown before the range is scanned.
pub fn scanning_message(from: &str, to: &str) -> (r: String)
    ensures
        r@ == "Scanning migrations from "@ + from@ + " to "@ + to@ + "…"@,
{
    let mut out = chars_of("Scanning migrations from ");
    push_str(&mut out, from);
    push_str(&mut out, " to ");
    push_str(&mut out, to);
    push_str(&mut out, "…");
    string_of(out.as_slice())
}

/// What a squash works on: the migrations it removes (oldest first), the
/// migration the database is reverted to, the new migration's name and
/// how many custom SQL statements it carries for Up and Down.
#[derive(Debug)]
pub struct SquashPlan {
    pub to_remove: Vec<String>,
    pub before: String,
    pub new_name: String,
    pub up: usize,
    pub down: usize,
}

/// Where a squash run stands: the step about to run.
#[derive(Debug, Clone, Copy, PartialEq, Eq, Structural)]
pub enum SquashStep {
    /// Revert the database to the migration before the range.
    Revert,
    /// Remove the `k`-th migration (from 0), newest first.
    Remove(usize),
    /// Scaffold the squashed migration.
    Create,
    /// Write the carried custom SQL into it.
    Inject,
    /// Apply it.
    Apply,
    /// Report the result.
    Done,
}

/// What the caller runs for a step.
#[derive(Debug)]
pub enum SquashAction {
    /// `dotnet ef database update <target>` (empty target: the latest).
    UpdateDatabase(String),
    /// `dotnet ef migrations remove --force`.
    RemoveLast,
    /// `dotnet ef migrations add <name>`.
    AddMigration(String),
    /// Inject the carried custom SQL into the new migration's file.
    InjectCustomSql,
    /// The squash is over; report this summary.
    Finish(String),
}

/// One step as the caller carries it out: whether a cancel request stops
/// the run before it, the progress phase and message to show, and what to
/// run.
#[derive(Debug)]
pub struct StepPlan {
    pub checks_cancel: bool,
    pub phase: String,
    pub message: Option<String>,
    pub action: SquashAction,
}

pub open spec fn step_message(
    step: SquashStep,
    to_remove: Seq<Seq<char>>,
    before: Seq<char>,
    new_name: Seq<char>,
    up: nat,
    down: nat,
) -> Option<Seq<char>> {
    match step {
        SquashStep::Revert => Some("Step 1/4 — Reverting database to "@ + target_label(before) + "…"@),
        SquashStep::Remove(k) => Some(
            removal_message((k + 1) as nat, to_remove.len(), to_remove[to_remove.len() - 1 - k]),
        ),
        SquashStep::Create => Some("Step 3/4 — Creating squashed migration "@ + new_name + "…"@),
        SquashStep::Inject => if up > 0 || down > 0 {
            Some("Preserving custom SQL ("@ + decimal(up) + " Up, "@ + decimal(down) + " Down)…"@)
        } else {
            None
        },
        SquashStep::Apply => Some("Step 4/4 — Applying squashed migration "@ + new_name + "…"@),
        SquashStep::Done => None,
    }
}

pub open spec fn step_phase(step: SquashStep) -> Seq<char> {
    match step {
        SquashStep::Revert => "reverting"@,
        SquashStep::Remove(_) => "removing"@,
        SquashStep::Create => "creating"@,
        SquashStep::Inject => "injecting"@,
        SquashStep::Apply => "applying"@,
        SquashStep::Done => "done"@,
    }
}

/// The step after `step` when it succeeded.
pub open spec fn next_step(step: SquashStep, total: nat) -> SquashStep {
    match step {
        SquashStep::Revert => if total > 0 {
            SquashStep::Remove(0)
        } else {
            SquashStep::Create
        },
        SquashStep::Remove(k) => if k + 1 < total {
            SquashStep::Remove((k + 1) as usize)
        } else {
            SquashStep::Create
        },
        SquashStep::Create => SquashStep::Inject,
        SquashStep::Inject => SquashStep::Apply,
        SquashStep::Apply => SquashStep::Done,
        SquashStep::Done => SquashStep::Done,
    }
}

/// The error that ends the run when `step` failed with `error_output`.
pub open spec fn step_failure(step: SquashStep, error_output: Seq<char>) -> Seq<char> {
    match step {
        SquashStep::Revert => "Failed to revert database for squash: "@ + error_output,
        SquashStep::Create => "Failed to create squashed migration: "@ + error_output,
        SquashStep::Apply => "Squash created but failed to apply: "@ + error_output,
        _ => "Failed to remove migration during squash: "@ + error_output,
    }
}

fn prefixed(prefix: &str, rest: &str) -> (r: String)
    ensures
        r@ == prefix@ + rest@,
{
    let mut out = chars_of(prefix);
    push_str(&mut out, rest);
    string_of(out.as_slice())
}

fn text_with(prefix: &str, middle: &str, suffix: &str) -> (r: String)
    ensures
        r@ == prefix@ + middle@ + suffix@,
{
    let mut out = chars_of(prefix);
    push_str(&mut out, middle);
    push_str(&mut out, suffix);
    string_of(out.as_slice())
}

impl SquashPlan {
    /// The plan of squashing `[from, to]` of `names` into `new_name`,
    /// carrying `up` and `down` statements; the error when the range is
    /// empty.
    pub fn new(names: &Vec<String>, from: &str, to: &str, new_name: &str, up: usize, down: usize) -> (r: Result<
        SquashPlan,
        String,
    >)
        ensures
            squash_range(strings_view(names@), from@, to@).len() == 0 ==> (r matches Err(e) && e@
                == "No migrations found in the specified range"@),
            squash_range(strings_view(names@), from@, to@).len() > 0 ==> (r matches Ok(p) && strings_view(
                p.to_remove@,
            ) == squash_range(strings_view(names@), from@, to@) && p.before@ == revert_point(
                strings_view(names@),
                from@,
            ) && p.new_name@ == new_name@ && p.up == up && p.down == down),
    {
        let to_remove = migrations_to_squash(names, from, to);
        if to_remove.len() == 0 {
            return Err(String::from_str("No migrations found in the specified range"));
        }
        let before = before_migration(names, from);
        Ok(SquashPlan { to_remove, before, new_name: String::from_str(new_name), up, down })
    }

    /// How the caller carries out `step`: Revert, the removals, Create and
    /// Apply stop on a cancel request first; Inject does not.
    pub fn step(&self, step: SquashStep) -> (r: StepPlan)
        requires
            step matches SquashStep::Remove(k) ==> k < self.to_remove@.len(),
        ensures
            r.checks_cancel == !(step is Inject || step is Done),
            r.phase@ == step_phase(step),
            opt_string(r.message) == step_message(
                step,
                strings_view(self.to_remove@),
                self.before@,
                self.new_name@,
                self.up as nat,
                self.down as nat,
            ),
            step is Revert ==> (r.action matches SquashAction::UpdateDatabase(t) && t@ == self.before@),
            step is Remove ==> r.action is RemoveLast,
            step is Create ==> (r.action matches SquashAction::AddMigration(n) && n@ == self.new_name@),
            step is Inject ==> r.action is InjectCustomSql,
            step is Apply ==> (r.action matches SquashAction::UpdateDatabase(t) && t@.len() == 0),
            step is Done ==> (r.action matches SquashAction::Finish(s) && s@ == summary(
                self.to_remove@.len(),
                self.new_name@,
                self.up as nat,
                self.down as nat,
            )),
    {
        match step {
            SquashStep::Revert => {
                let label = revert_label(self.before.as_str());
                StepPlan {
                    checks_cancel: true,
                    phase: String::from_str("reverting"),
                    message: Some(text_with("Step 1/4 — Reverting database to ", label.as_str(), "…")),
                    action: SquashAction::UpdateDatabase(string_of(chars_of(self.before.as_str()).as_slice())),
                }
            },
            SquashStep::Remove(k) => {
                let total = self.to_remove.len();
                let name = self.to_remove[total - 1 - k].as_str();
                proof {
                    assert(strings_view(self.to_remove@)[total - 1 - k] == self.to_remove@[total - 1 - k]@);
                }
                StepPlan {
                    checks_cancel: true,
                    phase: String::from_str("removing"),
                    message: Some(squash_removal_message(k + 1, total, name)),
                    action: SquashAction::RemoveLast,
                }
            },
            SquashStep::Create => StepPlan {
                checks_cancel: true,
                phase: String::from_str("creating"),
                message: Some(text_with("Step 3/4 — Creating squashed migration ", self.new_name.as_str(), "…")),
                action: SquashAction::AddMigration(string_of(chars_of(self.new_name.as_str()).as_slice())),
            },
            SquashStep::Inject => {
                let message = if self.up > 0 || self.down > 0 {
                    let mut out = chars_of("Preserving custom SQL (");
                    push_decimal(&mut out, self.up as u128);
                    push_str(&mut out, " Up, ");
                    push_decimal(&mut out, self.down as u128);
                    push_str(&mut out, " Down)…");
                    Some(string_of(out.as_slice()))
                } else {
                    None
                };
                StepPlan {
                    checks_cancel: false,
                    phase: String::from_str("injecting"),
                    message,
                    action: SquashAction::InjectCustomSql,
                }
            },
            SquashStep::Apply => StepPlan {
                checks_cancel: true,
                phase: String::from_str("applying"),
                message: Some(text_with("Step 4/4 — Applying squashed migration ", self.new_name.as_str(), "…")),
                action: SquashAction::UpdateDatabase(String::new()),
            },
            SquashStep::Done => StepPlan {
                checks_cancel: false,
                phase: String::from_str("done"),
                message: None,
                action: SquashAction::Finish(
                    squash_summary(self.to_remove.len(), self.new_name.as_str(), self.up, self.down),
                ),
            },
        }
    }

    /// The step after `step`, given whether its run succeeded and what the
    /// run printed on failure: the next step, or the error that ends the
    /// squash.
    pub fn after(&self, step: SquashStep, succeeded: bool, error_output: &str) -> (r: Result<SquashStep, String>)
        ensures
            (succeeded || step is Inject || step is Done) ==> r == Ok::<SquashStep, String>(
                next_step(step, self.to_remove@.len()),
            ),
            !(succeeded || step is Inject || step is Done) ==> (r matches Err(e) && e@ == step_failure(
                step,
                error_output@,
            )),
    {
        if succeeded || step == SquashStep::Inject || step == SquashStep::Done {
            let total = self.to_remove.len();
            match step {
                SquashStep::Revert => if total > 0 {
                    Ok(SquashStep::Remove(0))
                } else {
                    Ok(SquashStep::Create)
                },
                SquashStep::Remove(k) => if k < total && k + 1 < total {
                    Ok(SquashStep::Remove(k + 1))
                } else {
                    Ok(SquashStep::Create)
                },
                SquashStep::Create => Ok(SquashStep::Inject),
                SquashStep::Inject => Ok(SquashStep::Apply),
                SquashStep::Apply => Ok(SquashStep::Done),
                SquashStep::Done => Ok(SquashStep::Done),
            }
        } else {
            match step {
                SquashStep::Revert => Err(prefixed("Failed to revert database for squash: ", error_output)),
                SquashStep::Create => Err(prefixed("Failed to create squashed migration: ", error_output)),
                SquashStep::Apply => Err(prefixed("Squash created but failed to apply: ", error_output)),
                _ => Err(prefixed("Failed to remove migration during squash: ", error_output)),
            }
        }
    }
}

/// The step reached from `Revert` after `n` successful steps.
pub open spec fn step_after(n: nat, total: nat) -> SquashStep
    decreases n,
{
    if n == 0 {
        SquashStep::Revert
    } else {
        next_step(step_after((n - 1) as nat, total), total)
    }
}

/// When every run succeeds, a squash of `total` migrations reverts the
/// database, removes the migrations one by one (each once, newest
/// first), then creates, fills and applies the new one, and is done.
pub proof fn lemma_squash_step_order(total: nat)
    requires
        total > 0,
        total < usize::MAX,
    ensures
        forall|k: nat| k < total ==> #[trigger] step_after(k + 1, total) == SquashStep::Remove(k as usize),
        step_after(total + 1, total) == SquashStep::Create,
        step_after(total + 2, total) == SquashStep::Inject,
        step_after(total + 3, total) == SquashStep::Apply,
        step_after(total + 4, total) == SquashStep::Done,
{
    assert forall|k: nat| k < total implies #[trigger] step_after(k + 1, total) == SquashStep::Remove(k as usize) by {
        lemma_step_after_removes(k, total);
    }
    lemma_step_after_removes((total - 1) as nat, total);
    assert(step_after(total + 1, total) == next_step(step_after(total, total), total));
    assert(step_after(total + 2, total) == next_step(step_after(total + 1, total), total));
    assert(step_after(total + 3, total) == next_step(step_after(total + 2, total), total));
    assert(step_after(total + 4, total) == next_step(step_after(total + 3, total), total));
}

proof fn lemma_step_after_removes(k: nat, total: nat)
    requires
        k < total,
        total < usize::MAX,
    ensures
        step_after(k + 1, total) == SquashStep::Remove(k as usize),
    decreases k,
{
    if k > 0 {
        lemma_step_after_removes((k - 1) as nat, total);
    }
    assert(step_after(k + 1, total) == next_step(step_after(k, total), total));
}

// ─── Laws ───────────────────────────────────────────────────────────

/// A non-empty squash range starts with `from`, is a contiguous run of the
/// list, holds no `to` before its end, and ends with `to` when the list
/// has one.
pub proof fn lemma_squash_range_shape(names: Seq<Seq<char>>, from: Seq<char>, to: Seq<char>)
    ensures
        ({
            let r = squash_range(names, from, to);
            r.len() > 0 ==> {
                &&& r[0] == from
                &&& exists|f: int|
                    0 <= f && f + r.len() <= names.len() && r == #[trigger] names.subrange(f, f + r.len())
                &&& forall|k: int| 0 <= k < r.len() - 1 ==> #[trigger] r[k] != to
                &&& names.contains(to) ==> r.last() == to
            }
        }),
{
    lemma_first_index_from(names, from, 0);
    lemma_first_index_from(names, to, 0);
    let r = squash_range(names, from, to);
    if r.len() > 0 {
        let f = first_index_from(names, from, 0)->Some_0;
        assert(r == names.subrange(f, f + r.len()));
        if names.contains(to) {
            let w = choose|w: int| 0 <= w < names.len() && names[w] == to;
            assert(names[w] == to);
        }
    }
}

/// The revert point comes before the range: it is "0" or the migration
/// just before the first `from`.
pub proof fn lemma_revert_point_precedes_range(names: Seq<Seq<char>>, from: Seq<char>)
    requires
        names.contains(from),
    ensures
        ({
            let f = first_index_from(names, from, 0)->Some_0;
            &&& revert_point(names, from) == (if f == 0 {
                "0"@
            } else {
                names[f - 1]
            })
            &&& squash_range(names, from, from) == seq![from]
        }),
{
    lemma_first_index_from(names, from, 0);
    let w = choose|w: int| 0 <= w < names.len() && names[w] == from;
    assert(names[w] == from);
    let f = first_index_from(names, from, 0)->Some_0;
    assert(names.subrange(f, f + 1) =~= seq![from]);
}

} // verus!
