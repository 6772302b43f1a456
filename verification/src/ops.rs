//! Shared workflow helpers: friendlier EF errors, migration names from
//! file paths, the newest migration two branches share, project naming and
//! ids, and the values the read operations hand back.
use vstd::prelude::*;
use crate::paths::{file_name, file_name_exec, file_stem_exec, is_migration_source_exec, migration_name_of, stem_exec};
use crate::text::{
    ends_with_str, has_prefix, has_suffix, replace, replace_str, starts_with,
    chars_of, contains, contains_str, decimal, eq_chars, lemma_decimal_digits, push_all, push_decimal,
    push_str, string_of, strings_view,
};

verus! {

// ─── EF error text ──────────────────────────────────────────────────

/// The text EF prints when the migrations project and the DbContext's
/// assembly disagree.
pub open spec fn assembly_mismatch_hint() -> Seq<char> {
    "Project mismatch: your \"Migrations Project\" may be pointing to the startup/API project instead of the project that contains your DbContext and migrations. Check your project configuration and swap them if needed.\n\n"@
}

/// `raw`, prefixed with an explanation when it is EF's migrations-assembly
/// mismatch error.
pub open spec fn enriched_error(raw: Seq<char>) -> Seq<char> {
    if contains(raw, "doesn't match your migrations assembly"@) {
        assembly_mismatch_hint() + raw
    } else {
        raw
    }
}

/// Detect common EF Core misconfiguration and return a friendlier message.
pub fn enrich_ef_error(raw: &str) -> (r: String)
    ensures
        r@ == enriched_error(raw@),
{
    let cs = chars_of(raw);
    if contains_str(cs.as_slice(), "doesn't match your migrations assembly") {
        let mut out = chars_of(
            "Project mismatch: your \"Migrations Project\" may be pointing to the startup/API project instead of the project that contains your DbContext and migrations. Check your project configuration and swap them if needed.\n\n",
        );
        push_all(&mut out, cs.as_slice());
        string_of(out.as_slice())
    } else {
        String::from_str(raw)
    }
}

// ─── Migration names ────────────────────────────────────────────────

/// Migration name from a `*.cs` path, skipping `*.Designer.cs` and snapshots.
pub fn migration_name_from_path(path: &str) -> (r: Option<String>)
    ensures
        r matches Some(n) ==> migration_name_of(path@) == Some(n@),
        r is None ==> migration_name_of(path@) is None,
{
    match file_name_exec(path) {
        Some(name) => {
            if is_migration_source_exec(name.as_slice()) {
                let stem = stem_exec(name.as_slice());
                Some(string_of(stem.as_slice()))
            } else {
                None
            }
        },
        None => None,
    }
}

/// Migration name from a path as `git ls-tree` prints it.
pub fn migration_name_from_git_path(path: &str) -> (r: Option<String>)
    ensures
        r matches Some(n) ==> migration_name_of(path@) == Some(n@),
        r is None ==> migration_name_of(path@) is None,
{
    migration_name_from_path(path)
}

/// The migration names among `paths`, in order.
pub open spec fn migration_names(paths: Seq<Seq<char>>) -> Seq<Seq<char>>
    decreases paths.len(),
{
    if paths.len() == 0 {
        Seq::empty()
    } else {
        match migration_name_of(paths.last()) {
            Some(n) => migration_names(paths.drop_last()).push(n),
            None => migration_names(paths.drop_last()),
        }
    }
}

pub fn migration_names_from_files(files: Vec<String>) -> (r: Vec<String>)
    ensures
        strings_view(r@) == migration_names(strings_view(files@)),
{
    let mut out: Vec<String> = Vec::new();
    for i in 0..files.len()
        invariant
            strings_view(out@) == migration_names(strings_view(files@).take(i as int)),
    {
        let ghost before = out@;
        assert(strings_view(files@).take(i + 1).drop_last() =~= strings_view(files@).take(i as int));
        match migration_name_from_path(files[i].as_str()) {
            Some(n) => {
                out.push(n);
                assert(strings_view(out@) =~= strings_view(before).push(n@));
            },
            None => {},
        }
    }
    assert(strings_view(files@).take(files@.len() as int) =~= strings_view(files@));
    out
}

// ─── The newest shared migration ────────────────────────────────────

/// The last position `< n` of `current` whose name occurs in `target`.
pub open spec fn last_shared_index(current: Seq<Seq<char>>, target: Seq<Seq<char>>, n: int) -> Option<int>
    decreases n,
{
    if n <= 0 || n > current.len() {
        None
    } else if target.contains(current[n - 1]) {
        Some(n - 1)
    } else {
        last_shared_index(current, target, n - 1)
    }
}

/// The newest migration in `current` that also exists in `target`.
pub open spec fn latest_common(current: Seq<Seq<char>>, target: Seq<Seq<char>>) -> Option<Seq<char>> {
    match last_shared_index(current, target, current.len() as int) {
        Some(i) => Some(current[i]),
        None => None,
    }
}

pub proof fn lemma_last_shared_index(current: Seq<Seq<char>>, target: Seq<Seq<char>>, n: int)
    requires
        0 <= n <= current.len(),
    ensures
        last_shared_index(current, target, n) matches Some(i) ==> 0 <= i < n && target.contains(
            current[i],
        ) && forall|j: int| i < j < n ==> !target.contains(#[trigger] current[j]),
        last_shared_index(current, target, n) is None ==> forall|j: int|
            0 <= j < n ==> !target.contains(#[trigger] current[j]),
    decreases n,
{
    if n > 0 && !target.contains(current[n - 1]) {
        lemma_last_shared_index(current, target, n - 1);
    }
}

/// Whether some element of `target` equals `name`.
fn contains_name(target: &[String], name: &String) -> (b: bool)
    ensures
        b == strings_view(target@).contains(name@),
{
    let nc = chars_of(name.as_str());
    for i in 0..target.len()
        invariant
            nc@ == name@,
            forall|j: int| 0 <= j < i ==> target@[j]@ != name@,
    {
        let tc = chars_of(target[i].as_str());
        if eq_chars(tc.as_slice(), nc.as_slice()) {
            assert(strings_view(target@)[i as int] == name@);
            return true;
        }
    }
    assert forall|j: int| 0 <= j < strings_view(target@).len() implies strings_view(target@)[j] != name@ by {
        assert(strings_view(target@)[j] == target@[j]@);
    }
    false
}

/// The newest migration in `current` that also exists in `target`.
pub fn latest_common_migration(current: &[String], target: &[String]) -> (r: Option<String>)
    ensures
        r matches Some(n) ==> latest_common(strings_view(current@), strings_view(target@)) == Some(n@),
        r is None ==> latest_common(strings_view(current@), strings_view(target@)) is None,
{
    let ghost cv = strings_view(current@);
    let ghost tv = strings_view(target@);
    let mut n: usize = current.len();
    while n > 0
        invariant
            n <= current@.len(),
            cv == strings_view(current@),
            tv == strings_view(target@),
            last_shared_index(cv, tv, cv.len() as int) == last_shared_index(cv, tv, n as int),
        decreases n,
    {
        if contains_name(target, &current[n - 1]) {
            return Some(current[n - 1].clone());
        }
        n = n - 1;
    }
    None
}

/// The newest shared migration is in both lists, and no migration after it
/// in `current` occurs in `target`; with none, the lists share nothing.
pub proof fn lemma_latest_common(current: Seq<Seq<char>>, target: Seq<Seq<char>>)
    ensures
        latest_common(current, target) matches Some(m) ==> current.contains(m) && target.contains(m)
            && exists|i: int|
            0 <= i < current.len() && current[i] == m && forall|j: int|
                i < j < current.len() ==> !target.contains(#[trigger] current[j]),
        latest_common(current, target) is None ==> forall|j: int|
            0 <= j < current.len() ==> !target.contains(#[trigger] current[j]),
{
    lemma_last_shared_index(current, target, current.len() as int);
}

// ─── Paths and projects ─────────────────────────────────────────────

/// Whether something exists at `path` (`Path::exists`). What is on disk
/// can change at any time, so nothing is promised of the answer.
#[verifier::external_body]
fn path_exists(path: &str) -> bool {
    std::path::Path::new(path).exists()
}

pub open spec fn missing_path_error(path: Seq<char>) -> Seq<char> {
    "Path does not exist: "@ + path
}

/// The check of `path` given whether something exists there: `Ok`, or
/// the "does not exist" error.
pub fn path_check(path: &str, exists: bool) -> (r: Result<(), String>)
    ensures
        exists ==> r is Ok,
        !exists ==> (r matches Err(e) && e@ == missing_path_error(path@)),
{
    if exists {
        Ok(())
    } else {
        let mut out = chars_of("Path does not exist: ");
        push_str(&mut out, path);
        Err(string_of(out.as_slice()))
    }
}

/// `Ok` when something exists at `path`, else the "does not exist" error.
pub fn ensure_path_exists(path: &str) -> (r: Result<(), String>)
    ensures
        r matches Err(e) ==> e@ == missing_path_error(path@),
{
    path_check(path, path_exists(path))
}

/// A new saved project's display name: the last component of its path, or
/// "My Project" when the path has none.
pub open spec fn project_name(project_path: Seq<char>) -> Seq<char> {
    match file_name(project_path) {
        Some(n) => n,
        None => "My Project"@,
    }
}

pub fn derive_project_name(project_path: &str) -> (r: String)
    ensures
        r@ == project_name(project_path@),
{
    match file_name_exec(project_path) {
        Some(n) => string_of(n.as_slice()),
        None => String::from_str("My Project"),
    }
}

#[verifier::external_type_specification]
#[verifier::external_body]
pub struct ExSystemTimeError(std::time::SystemTimeError);

/// `SystemTime::elapsed` on `UNIX_EPOCH`: the time since the Unix epoch by
/// the system clock, an error for a clock set before it. The clock gives
/// no guarantee, so nothing is promised.
#[verifier::external_body]
fn epoch_elapsed() -> Result<std::time::Duration, std::time::SystemTimeError> {
    std::time::UNIX_EPOCH.elapsed()
}

/// `Duration::as_millis`: the whole milliseconds of a duration. Nothing
/// is promised of the value.
#[verifier::external_body]
fn duration_millis(d: &std::time::Duration) -> u128 {
    d.as_millis()
}

/// Milliseconds since the Unix epoch by the system clock, zero for a
/// clock set before 1970.
fn unix_millis() -> u128 {
    match epoch_elapsed() {
        Ok(d) => duration_millis(&d),
        Err(_) => 0,
    }
}

/// An id derived from the wall clock: the milliseconds since the epoch in
/// decimal.
pub fn generate_id() -> (r: String)
    ensures
        exists|ms: nat| r@ == decimal(ms),
        r@.len() > 0,
        forall|i: int| 0 <= i < r@.len() ==> '0' <= #[trigger] r@[i] <= '9',
{
    let ms = unix_millis();
    let mut out: Vec<char> = Vec::new();
    push_decimal(&mut out, ms);
    proof {
        lemma_decimal_digits(ms as nat);
        assert(out@ =~= decimal(ms as nat));
    }
    string_of(out.as_slice())
}

// ─── Paths inside the repository ────────────────────────────────────

/// The prefix a path inside `root` starts with.
pub open spec fn root_prefix(root: Seq<char>) -> Seq<char> {
    if has_suffix(root, "/"@) {
        root
    } else {
        root + "/"@
    }
}

/// `path` relative to `root` (both canonical) in git pathspec form (`/`
/// separators), or `None` when it does not lie inside `root`.
pub open spec fn relative_in(root: Seq<char>, path: Seq<char>) -> Option<Seq<char>> {
    if path == root {
        Some(Seq::empty())
    } else if has_prefix(path, root_prefix(root)) {
        Some(replace(path.skip(root_prefix(root).len() as int), seq!['\\'], seq!['/']))
    } else {
        None
    }
}

/// The pathspec of the migrations directory `path` in the repository at
/// `root` (both already canonical), or the error when it is outside.
pub fn relative_pathspec(root: &str, path: &str) -> (r: Result<String, String>)
    ensures
        match relative_in(root@, path@) {
            Some(rel) => r matches Ok(s) && s@ == rel,
            None => r matches Err(e) && e@ == "Migrations directory '"@ + path@
                + "' is not inside git repository '"@ + root@ + "'"@,
        },
{
    proof {
        reveal_strlit("/");
        reveal_strlit("\\");
    }
    let rc = chars_of(root);
    let pc = chars_of(path);
    if eq_chars(pc.as_slice(), rc.as_slice()) {
        return Ok(String::new());
    }
    let mut prefix = chars_of(root);
    if !ends_with_str(rc.as_slice(), "/") {
        push_str(&mut prefix, "/");
    }
    if starts_with(pc.as_slice(), prefix.as_slice()) {
        let mut rest: Vec<char> = Vec::new();
        let mut i: usize = prefix.len();
        while i < pc.len()
            invariant
                prefix@.len() <= i <= pc@.len(),
                rest@ == pc@.subrange(prefix@.len() as int, i as int),
            decreases pc@.len() - i,
        {
            rest.push(pc[i]);
            i = i + 1;
        }
        assert(rest@ =~= path@.skip(prefix@.len() as int));
        let out = replace_str(rest.as_slice(), "\\", "/");
        assert("\\"@ =~= seq!['\\']);
        assert("/"@ =~= seq!['/']);
        Ok(string_of(out.as_slice()))
    } else {
        let mut out = chars_of("Migrations directory '");
        push_str(&mut out, path);
        push_str(&mut out, "' is not inside git repository '");
        push_str(&mut out, root);
        push_str(&mut out, "'");
        Err(string_of(out.as_slice()))
    }
}

} // verus!
