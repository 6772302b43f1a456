//! The `dotnet ef` side of the library: which arguments each EF operation
//! passes, how the command line is shown, how `migrations list` output is
//! read, and how failures are turned into useful error text. Running the
//! processes is left to the caller; these functions take and give plain
//! values.
use vstd::prelude::*;
use crate::text::{
    chars_of, contains, contains_str, has_prefix, is_blank, join, join_exec, lines, lines_exec,
    nonblank_lines, push_all, push_str, replace, replace_str, starts_with_str, string_of, strings_view, trim, trim_chars, views, opt_string,
};

verus! {

/// The outcome of one `dotnet ef` (or `dotnet build`) run.
#[derive(Debug)]
pub struct CommandResult {
    pub success: bool,
    pub stdout: String,
    pub stderr: String,
    /// The dotnet ef command that was executed (for diagnostics).
    pub command_display: String,
}

/// The output a failure is best described by: stderr unless it is blank.
pub open spec fn error_body(stdout: Seq<char>, stderr: Seq<char>) -> Seq<char> {
    if trim(stderr).len() == 0 {
        stdout
    } else {
        stderr
    }
}

pub open spec fn error_output_of(r: CommandResult) -> Seq<char> {
    trim(error_body(r.stdout@, r.stderr@)) + "\n\nExecuted: "@ + r.command_display@
}

impl CommandResult {
    /// The most useful error text: stderr if non-empty, otherwise stdout,
    /// followed by the executed command.
    pub fn error_output(&self) -> (r: String)
        ensures
            r@ == error_output_of(*self),
    {
        let err = chars_of(self.stderr.as_str());
        let body = if is_blank(err.as_slice()) {
            chars_of(self.stdout.as_str())
        } else {
            err
        };
        let mut out = trim_chars(body.as_slice());
        push_str(&mut out, "\n\nExecuted: ");
        push_str(&mut out, self.command_display.as_str());
        string_of(out.as_slice())
    }
}

// ─── PATH enrichment ────────────────────────────────────────────────

/// The `PATH` handed to `dotnet` on Unix-like systems: the usual .NET
/// install locations first, then the inherited `PATH`, joined with `:`.
pub open spec fn enriched_path(current_path: Seq<char>, home: Seq<char>) -> Seq<char> {
    home + "/.dotnet/tools"@ + ":"@ + home + "/.dotnet"@ + ":"@ + "/usr/local/share/dotnet"@ + ":"@
        + "/usr/local/bin"@ + ":"@ + "/opt/homebrew/bin"@ + ":"@ + current_path
}

pub fn compute_enriched_path(current_path: &str, home: &str) -> (r: String)
    ensures
        r@ == enriched_path(current_path@, home@),
{
    let mut out: Vec<char> = Vec::new();
    push_str(&mut out, home);
    push_str(&mut out, "/.dotnet/tools");
    push_str(&mut out, ":");
    push_str(&mut out, home);
    push_str(&mut out, "/.dotnet");
    push_str(&mut out, ":");
    push_str(&mut out, "/usr/local/share/dotnet");
    push_str(&mut out, ":");
    push_str(&mut out, "/usr/local/bin");
    push_str(&mut out, ":");
    push_str(&mut out, "/opt/homebrew/bin");
    push_str(&mut out, ":");
    push_str(&mut out, current_path);
    string_of(out.as_slice())
}

/// The Windows form: the user's .NET tools and the Program Files install
/// first, joined with `;`.
pub open spec fn enriched_path_windows(
    current_path: Seq<char>,
    user_profile: Seq<char>,
    program_files: Seq<char>,
) -> Seq<char> {
    user_profile + "\\.dotnet\\tools"@ + ";"@ + program_files + "\\dotnet"@ + ";"@ + current_path
}

pub fn compute_enriched_path_windows(current_path: &str, user_profile: &str, program_files: &str) -> (r: String)
    ensures
        r@ == enriched_path_windows(current_path@, user_profile@, program_files@),
{
    let mut out: Vec<char> = Vec::new();
    push_str(&mut out, user_profile);
    push_str(&mut out, "\\.dotnet\\tools");
    push_str(&mut out, ";");
    push_str(&mut out, program_files);
    push_str(&mut out, "\\dotnet");
    push_str(&mut out, ";");
    push_str(&mut out, current_path);
    string_of(out.as_slice())
}

// ─── EF arguments ───────────────────────────────────────────────────

/// `--context <db_context>` when a context is configured.
pub open spec fn context_args(db_context: Seq<char>) -> Seq<Seq<char>> {
    if db_context.len() == 0 {
        Seq::empty()
    } else {
        seq!["--context"@, db_context]
    }
}

fn push_string(v: &mut Vec<String>, s: &str)
    ensures
        strings_view(final(v)@) == strings_view(old(v)@).push(s@),
{
    let ghost old_v = v@;
    v.push(String::from_str(s));
    assert(strings_view(v@) =~= strings_view(old_v).push(s@));
}

fn push_context(v: &mut Vec<String>, db_context: &str)
    ensures
        strings_view(final(v)@) == strings_view(old(v)@) + context_args(db_context@),
{
    let ghost old_v = strings_view(v@);
    if !db_context.is_empty() {
        push_string(v, "--context");
        push_string(v, db_context);
        assert(strings_view(v@) =~= old_v + context_args(db_context@));
    } else {
        assert(strings_view(v@) =~= old_v + context_args(db_context@));
    }
}

pub struct DotnetEf;

impl DotnetEf {
    /// Arguments of `dotnet ef migrations list`.
    pub fn list_migrations_args(db_context: &str) -> (r: Vec<String>)
        ensures
            strings_view(r@) == seq!["migrations"@, "list"@] + context_args(db_context@),
    {
        let mut v: Vec<String> = Vec::new();
        push_string(&mut v, "migrations");
        push_string(&mut v, "list");
        push_context(&mut v, db_context);
        assert(strings_view(v@) =~= seq!["migrations"@, "list"@] + context_args(db_context@));
        v
    }

    /// Arguments of `dotnet ef migrations add <name>`.
    pub fn add_migration_args(name: &str, db_context: &str) -> (r: Vec<String>)
        ensures
            strings_view(r@) == seq!["migrations"@, "add"@, name@] + context_args(db_context@),
    {
        let mut v: Vec<String> = Vec::new();
        push_string(&mut v, "migrations");
        push_string(&mut v, "add");
        push_string(&mut v, name);
        push_context(&mut v, db_context);
        assert(strings_view(v@) =~= seq!["migrations"@, "add"@, name@] + context_args(db_context@));
        v
    }

    /// Arguments of `dotnet ef migrations remove`, with `--force` if asked.
    pub fn remove_migration_args(db_context: &str, force: bool) -> (r: Vec<String>)
        ensures
            strings_view(r@) == seq!["migrations"@, "remove"@] + context_args(db_context@) + (if force {
                seq!["--force"@]
            } else {
                Seq::empty()
            }),
    {
        let mut v: Vec<String> = Vec::new();
        push_string(&mut v, "migrations");
        push_string(&mut v, "remove");
        push_context(&mut v, db_context);
        let ghost mid = strings_view(v@);
        if force {
            push_string(&mut v, "--force");
        }
        assert(strings_view(v@) =~= seq!["migrations"@, "remove"@] + context_args(db_context@) + (
        if force {
            seq!["--force"@]
        } else {
            Seq::empty()
        }));
        v
    }

    /// Arguments of `dotnet ef database update [<target>]` (latest when
    /// `target` is empty).
    pub fn update_database_args(target: &str, db_context: &str) -> (r: Vec<String>)
        ensures
            strings_view(r@) == seq!["database"@, "update"@] + (if target@.len() == 0 {
                Seq::empty()
            } else {
                seq![target@]
            }) + context_args(db_context@),
    {
        let mut v: Vec<String> = Vec::new();
        push_string(&mut v, "database");
        push_string(&mut v, "update");
        if !target.is_empty() {
            push_string(&mut v, target);
        }
        push_context(&mut v, db_context);
        assert(strings_view(v@) =~= seq!["database"@, "update"@] + (if target@.len() == 0 {
            Seq::empty()
        } else {
            seq![target@]
        }) + context_args(db_context@));
        v
    }

    /// Arguments of `dotnet ef migrations script [<from>] [<to>]`.
    pub fn script_migration_args(from: &str, to: &str, db_context: &str) -> (r: Vec<String>)
        ensures
            strings_view(r@) == seq!["migrations"@, "script"@] + (if from@.len() == 0 {
                Seq::empty()
            } else {
                seq![from@]
            }) + (if to@.len() == 0 {
                Seq::empty()
            } else {
                seq![to@]
            }) + context_args(db_context@),
    {
        let mut v: Vec<String> = Vec::new();
        push_string(&mut v, "migrations");
        push_string(&mut v, "script");
        if !from.is_empty() {
            push_string(&mut v, from);
        }
        if !to.is_empty() {
            push_string(&mut v, to);
        }
        push_context(&mut v, db_context);
        assert(strings_view(v@) =~= seq!["migrations"@, "script"@] + (if from@.len() == 0 {
            Seq::empty()
        } else {
            seq![from@]
        }) + (if to@.len() == 0 {
            Seq::empty()
        } else {
            seq![to@]
        }) + context_args(db_context@));
        v
    }
}

// ─── The command line ───────────────────────────────────────────────

/// How `dotnet ef` is launched: working directory, arguments after
/// `dotnet`, and the command line as shown to the user.
#[derive(Debug)]
pub struct EfInvocation {
    pub current_dir: Option<String>,
    pub args: Vec<String>,
    pub display: String,
}

/// The project arguments. With a usable solution directory (the project's
/// parent, non-empty and existing) EF runs there and gets paths relative
/// to it when they lie inside it; otherwise the paths as given.
pub open spec fn project_args(
    project_path: Seq<char>,
    startup: Seq<char>,
    solution_dir: Option<Seq<char>>,
    project_rel: Option<Seq<char>>,
    startup_rel: Option<Seq<char>>,
) -> Seq<Seq<char>> {
    let proj = match (solution_dir, project_rel) {
        (Some(_), Some(rel)) => rel,
        _ => project_path,
    };
    let sp = match (solution_dir, startup_rel) {
        (Some(_), Some(rel)) => rel,
        _ => startup,
    };
    seq!["--project"@, proj] + (if startup.len() == 0 {
        Seq::empty()
    } else {
        seq!["--startup-project"@, sp]
    })
}

pub open spec fn ef_args(
    args: Seq<Seq<char>>,
    project_path: Seq<char>,
    startup: Seq<char>,
    solution_dir: Option<Seq<char>>,
    project_rel: Option<Seq<char>>,
    startup_rel: Option<Seq<char>>,
) -> Seq<Seq<char>> {
    seq!["ef"@] + args + project_args(project_path, startup, solution_dir, project_rel, startup_rel)
}

impl DotnetEf {
    /// The `dotnet ef` invocation for `args` against `project_path`, with
    /// `effective_startup` (already resolved; empty for none).
    /// `solution_dir` is the project's parent directory when it is
    /// non-empty and exists; `project_rel` / `startup_rel` are the paths
    /// relative to it, when they lie inside it.
    pub fn ef_invocation(
        args: &Vec<String>,
        project_path: &str,
        effective_startup: &str,
        solution_dir: Option<&str>,
        project_rel: Option<&str>,
        startup_rel: Option<&str>,
    ) -> (r: EfInvocation)
        ensures
            strings_view(r.args@) == ef_args(
                strings_view(args@),
                project_path@,
                effective_startup@,
                opt_str(solution_dir),
                opt_str(project_rel),
                opt_str(startup_rel),
            ),
            r.display@ == join(seq!["dotnet"@] + strings_view(r.args@), " "@),
            r.current_dir matches Some(d) ==> solution_dir matches Some(s) && d@ == s@,
            r.current_dir is None ==> solution_dir is None,
    {
        let mut all: Vec<String> = Vec::new();
        push_string(&mut all, "ef");
        for i in 0..args.len()
            invariant
                strings_view(all@) == seq!["ef"@] + strings_view(args@).take(i as int),
        {
            let ghost before = all@;
            all.push(args[i].clone());
            assert(strings_view(all@) =~= strings_view(before).push(args@[i as int]@));
            assert(strings_view(args@).take(i + 1) =~= strings_view(args@).take(i as int).push(args@[i as int]@));
        }
        assert(strings_view(args@).take(args@.len() as int) =~= strings_view(args@));
        let ghost base = strings_view(all@);
        push_string(&mut all, "--project");
        match (solution_dir, project_rel) {
            (Some(_), Some(rel)) => push_string(&mut all, rel),
            _ => push_string(&mut all, project_path),
        }
        if !effective_startup.is_empty() {
            push_string(&mut all, "--startup-project");
            match (solution_dir, startup_rel) {
                (Some(_), Some(rel)) => push_string(&mut all, rel),
                _ => push_string(&mut all, effective_startup),
            }
        }
        assert(strings_view(all@) =~= ef_args(
            strings_view(args@),
            project_path@,
            effective_startup@,
            opt_str(solution_dir),
            opt_str(project_rel),
            opt_str(startup_rel),
        ));
        let mut shown: Vec<Vec<char>> = Vec::new();
        shown.push(chars_of("dotnet"));
        for i in 0..all.len()
            invariant
                views(shown@) == seq!["dotnet"@] + strings_view(all@).take(i as int),
        {
            let ghost before = shown@;
            shown.push(chars_of(all[i].as_str()));
            assert(views(shown@) =~= views(before).push(all@[i as int]@));
            assert(strings_view(all@).take(i + 1) =~= strings_view(all@).take(i as int).push(all@[i as int]@));
        }
        assert(strings_view(all@).take(all@.len() as int) =~= strings_view(all@));
        let sep = chars_of(" ");
        let display = join_exec(&shown, sep.as_slice());
        let current_dir = match solution_dir {
            Some(d) => Some(String::from_str(d)),
            None => None,
        };
        EfInvocation { current_dir, args: all, display: string_of(display.as_slice()) }
    }
}

pub open spec fn opt_str(o: Option<&str>) -> Option<Seq<char>> {
    match o {
        Some(s) => Some(s@),
        None => None,
    }
}

// ─── Startup project detection ──────────────────────────────────────

/// Which sibling `.csproj` hosts the design-time services: the first whose
/// content mentions `Microsoft.NET.Sdk.Web`, else the first one.
pub open spec fn startup_choice(contents: Seq<Option<Seq<char>>>) -> Option<int> {
    if exists|i: int| 0 <= i < contents.len() && #[trigger] web_project(contents[i]) {
        Some(choose|i: int| first_web(contents, i))
    } else if contents.len() > 0 {
        Some(0)
    } else {
        None
    }
}

pub open spec fn web_project(c: Option<Seq<char>>) -> bool {
    c matches Some(t) && contains(t, "Microsoft.NET.Sdk.Web"@)
}

pub open spec fn first_web(contents: Seq<Option<Seq<char>>>, i: int) -> bool {
    0 <= i < contents.len() && web_project(contents[i]) && forall|j: int|
        0 <= j < i ==> !web_project(#[trigger] contents[j])
}

pub open spec fn opt_strings_view(v: Seq<Option<String>>) -> Seq<Option<Seq<char>>> {
    v.map_values(|o: Option<String>| match o {
        Some(s) => Some(s@),
        None => None,
    })
}

impl DotnetEf {
    /// The index of the startup-project candidate to use, given each
    /// candidate's content (`None` when it could not be read).
    pub fn choose_startup_candidate(contents: &Vec<Option<String>>) -> (r: Option<usize>)
        ensures
            r matches Some(i) ==> startup_choice(opt_strings_view(contents@)) == Some(i as int),
            r is None ==> startup_choice(opt_strings_view(contents@)) is None,
    {
        let ghost cs = opt_strings_view(contents@);
        for i in 0..contents.len()
            invariant
                cs == opt_strings_view(contents@),
                forall|j: int| 0 <= j < i ==> !web_project(#[trigger] cs[j]),
        {
            let hit = match &contents[i] {
                Some(t) => contains_str(chars_of(t.as_str()).as_slice(), "Microsoft.NET.Sdk.Web"),
                None => false,
            };
            assert(hit == web_project(cs[i as int]));
            if hit {
                assert(first_web(cs, i as int));
                assert(exists|k: int| 0 <= k < cs.len() && #[trigger] web_project(cs[k])) by {
                    assert(web_project(cs[i as int]));
                }
                proof {
                    let c = choose|k: int| first_web(cs, k);
                    if c < i {
                        assert(!web_project(cs[c]));
                    } else if c > i {
                        assert(!web_project(cs[i as int]));
                    }
                }
                return Some(i);
            }
        }
        if contents.len() > 0 {
            Some(0)
        } else {
            None
        }
    }
}

// ─── `migrations list` output ───────────────────────────────────────

/// A line that shows EF could not build the DbContext at design time.
pub open spec fn dbcontext_error_line(t: Seq<char>) -> bool {
    ||| has_prefix(t, "Unable to create"@)
    ||| contains(t, "Unable to resolve service"@)
    ||| contains(t, "No DbContext was found"@)
    ||| contains(t, "More than one DbContext was found"@)
}

/// EF output that is not a migration: build chatter, log lines, warnings.
pub open spec fn noise_line(t: Seq<char>) -> bool {
    ||| has_prefix(t, "Build"@)
    ||| has_prefix(t, "Done"@)
    ||| has_prefix(t, "The following"@)
    ||| has_prefix(t, "Using"@)
    ||| has_prefix(t, "Finding"@)
    ||| has_prefix(t, "warn:"@)
    ||| has_prefix(t, "info:"@)
    ||| has_prefix(t, "error:"@)
    ||| has_prefix(t, "fail:"@)
    ||| has_prefix(t, "An error"@)
    ||| has_prefix(t, "No store type"@)
    ||| contains(t, "Microsoft.EntityFrameworkCore"@)
    ||| contains(t, "provider:"@)
    ||| contains(t, "silently truncated"@)
    ||| contains(t, "HasColumnType"@)
    ||| contains(t, "HasPrecision"@)
    ||| contains(t, "HasConversion"@)
    ||| contains(t, "NUMERIC_ROUNDABORT"@)
    ||| contains(t, "network-related or instance-specific"@)
}

/// The migration a trimmed output line lists, with whether it is applied:
/// names start with a digit (the timestamp); pending ones carry
/// `(Pending)`.
pub open spec fn list_entry(t: Seq<char>) -> Option<(Seq<char>, bool)> {
    let np = trim(replace(t, "(Pending)"@, Seq::empty()));
    if t.len() == 0 || noise_line(t) {
        None
    } else if np.len() == 0 || !('0' <= np[0] && np[0] <= '9') {
        None
    } else if contains(t, "(Pending)"@) {
        Some((np, false))
    } else {
        Some((t, true))
    }
}

/// The first trimmed line from `ls[i..]` that signals a DbContext failure.
pub open spec fn first_dbcontext_error(ls: Seq<Seq<char>>, i: int) -> Option<Seq<char>>
    decreases ls.len() - i,
{
    if i < 0 || i >= ls.len() {
        None
    } else if dbcontext_error_line(trim(ls[i])) {
        Some(trim(ls[i]))
    } else {
        first_dbcontext_error(ls, i + 1)
    }
}

/// The migrations listed in `ls[..n]`.
pub open spec fn list_entries(ls: Seq<Seq<char>>, n: int) -> Seq<(Seq<char>, bool)>
    decreases n,
{
    if n <= 0 || n > ls.len() {
        Seq::empty()
    } else {
        match list_entry(trim(ls[n - 1])) {
            Some(e) => list_entries(ls, n - 1).push(e),
            None => list_entries(ls, n - 1),
        }
    }
}

pub open spec fn dbcontext_error_message(line: Seq<char>) -> Seq<char> {
    "EF couldn't load the DbContext at design time. This usually means the startup project is missing or wrong, or its configuration (connection string, DI registrations) isn't available at design time.\n\n"@
        + line
}

/// What `dotnet ef migrations list` reported: the listed migrations, or the
/// error text.
pub open spec fn migrations_list(r: CommandResult) -> Result<Seq<(Seq<char>, bool)>, Seq<char>> {
    if !r.success {
        Err("dotnet ef migrations list failed: "@ + r.stderr@)
    } else {
        let ls = lines(r.stdout@);
        match first_dbcontext_error(ls, 0) {
            Some(t) => Err(dbcontext_error_message(t)),
            None => Ok(list_entries(ls, ls.len() as int)),
        }
    }
}

pub open spec fn entries_view(v: Seq<(String, bool)>) -> Seq<(Seq<char>, bool)> {
    v.map_values(|e: (String, bool)| (e.0@, e.1))
}

fn dbcontext_error_line_exec(t: &[char]) -> (b: bool)
    ensures
        b == dbcontext_error_line(t@),
{
    starts_with_str(t, "Unable to create") || contains_str(t, "Unable to resolve service")
        || contains_str(t, "No DbContext was found") || contains_str(
        t,
        "More than one DbContext was found",
    )
}

fn noise_line_exec(t: &[char]) -> (b: bool)
    ensures
        b == noise_line(t@),
{
    starts_with_str(t, "Build") || starts_with_str(t, "Done") || starts_with_str(t, "The following")
        || starts_with_str(t, "Using") || starts_with_str(t, "Finding") || starts_with_str(
        t,
        "warn:",
    ) || starts_with_str(t, "info:") || starts_with_str(t, "error:") || starts_with_str(t, "fail:")
        || starts_with_str(t, "An error") || starts_with_str(t, "No store type") || contains_str(
        t,
        "Microsoft.EntityFrameworkCore",
    ) || contains_str(t, "provider:") || contains_str(t, "silently truncated") || contains_str(
        t,
        "HasColumnType",
    ) || contains_str(t, "HasPrecision") || contains_str(t, "HasConversion") || contains_str(
        t,
        "NUMERIC_ROUNDABORT",
    ) || contains_str(t, "network-related or instance-specific")
}

fn list_entry_exec(t: &[char]) -> (r: Option<(String, bool)>)
    ensures
        r matches Some(e) ==> list_entry(t@) == Some((e.0@, e.1)),
        r is None ==> list_entry(t@) is None,
{
    proof {
        reveal_strlit("");
    }
    assert(t@.len() == t.len());
    let stripped = replace_str(t, "(Pending)", "");
    assert(""@ =~= Seq::<char>::empty());
    let np = trim_chars(stripped.as_slice());
    if t.len() == 0 || noise_line_exec(t) {
        None
    } else if np.len() == 0 || !('0' <= np[0] && np[0] <= '9') {
        None
    } else if contains_str(t, "(Pending)") {
        Some((string_of(np.as_slice()), false))
    } else {
        Some((string_of(t), true))
    }
}

impl DotnetEf {
    /// The migrations `dotnet ef migrations list` reported (name, applied),
    /// or why the listing failed (see `migrations_list`).
    pub fn list_migrations(result: &CommandResult) -> (r: Result<Vec<(String, bool)>, String>)
        ensures
            r matches Ok(v) ==> migrations_list(*result) == Ok::<Seq<(Seq<char>, bool)>, Seq<char>>(
                entries_view(v@),
            ),
            r matches Err(e) ==> migrations_list(*result) == Err::<Seq<(Seq<char>, bool)>, Seq<char>>(
                e@,
            ),
    {
        if !result.success {
            let mut msg = String::from_str("dotnet ef migrations list failed: ");
            msg.append(result.stderr.as_str());
            return Err(msg);
        }
        let out = chars_of(result.stdout.as_str());
        let ls = lines_exec(out.as_slice());
        let ghost lv = views(ls@);
        for i in 0..ls.len()
            invariant
                lv == views(ls@),
                lv == lines(result.stdout@),
                result.success,
                first_dbcontext_error(lv, 0) == first_dbcontext_error(lv, i as int),
        {
            let t = trim_chars(ls[i].as_slice());
            assert(lv[i as int] == ls@[i as int]@);
            if dbcontext_error_line_exec(t.as_slice()) {
                assert(first_dbcontext_error(lv, i as int) == Some(t@));
                let mut msg = chars_of(
                    "EF couldn't load the DbContext at design time. This usually means the startup project is missing or wrong, or its configuration (connection string, DI registrations) isn't available at design time.\n\n",
                );
                push_all(&mut msg, t.as_slice());
                return Err(string_of(msg.as_slice()));
            }
        }
        let mut entries: Vec<(String, bool)> = Vec::new();
        for i in 0..ls.len()
            invariant
                lv == views(ls@),
                lv == lines(result.stdout@),
                result.success,
                first_dbcontext_error(lv, 0) is None,
                entries_view(entries@) == list_entries(lv, i as int),
        {
            let t = trim_chars(ls[i].as_slice());
            let ghost before = entries@;
            match list_entry_exec(t.as_slice()) {
                Some(e) => {
                    entries.push(e);
                    assert(entries_view(entries@) =~= entries_view(before).push((e.0@, e.1)));
                },
                None => {},
            }
        }
        Ok(entries)
    }
}

/// The first failure line at or after `i`, when one comes no later than
/// `k`.
proof fn lemma_first_dbcontext_error(ls: Seq<Seq<char>>, i: int, k: int)
    requires
        0 <= i <= k < ls.len(),
        dbcontext_error_line(trim(ls[k])),
    ensures
        exists|j: int|
            i <= j <= k && dbcontext_error_line(trim(#[trigger] ls[j])) && first_dbcontext_error(ls, i)
                == Some(trim(ls[j])) && forall|t: int| i <= t < j ==> !dbcontext_error_line(trim(#[trigger] ls[t])),
    decreases k - i,
{
    if dbcontext_error_line(trim(ls[i])) {
        assert(first_dbcontext_error(ls, i) == Some(trim(ls[i])));
    } else {
        lemma_first_dbcontext_error(ls, i + 1, k);
        let j = choose|j: int|
            i + 1 <= j <= k && dbcontext_error_line(trim(#[trigger] ls[j])) && first_dbcontext_error(ls, i + 1)
                == Some(trim(ls[j])) && forall|t: int| i + 1 <= t < j ==> !dbcontext_error_line(trim(#[trigger] ls[t]));
        assert forall|t: int| i <= t < j implies !dbcontext_error_line(trim(#[trigger] ls[t])) by {
            if t > i {
                assert(i + 1 <= t < j);
            }
        }
    }
}

/// A successful `migrations list` run whose output has a line saying that
/// EF could not build the DbContext (one starting with `Unable to create`,
/// or containing `Unable to resolve service`, `No DbContext was found` or
/// `More than one DbContext was found`) is reported as that failure, with
/// the first such line, never as a list of migrations.
pub proof fn lemma_dbcontext_failure_reported(r: CommandResult, k: int)
    requires
        r.success,
        0 <= k < lines(r.stdout@).len(),
        ({
            let t = trim(lines(r.stdout@)[k]);
            ||| has_prefix(t, "Unable to create"@)
            ||| contains(t, "Unable to resolve service"@)
            ||| contains(t, "No DbContext was found"@)
            ||| contains(t, "More than one DbContext was found"@)
        }),
    ensures
        exists|j: int|
            0 <= j <= k && migrations_list(r) == Err::<Seq<(Seq<char>, bool)>, Seq<char>>(
                dbcontext_error_message(trim(#[trigger] lines(r.stdout@)[j])),
            ) && ({
                let t = trim(lines(r.stdout@)[j]);
                ||| has_prefix(t, "Unable to create"@)
                ||| contains(t, "Unable to resolve service"@)
                ||| contains(t, "No DbContext was found"@)
                ||| contains(t, "More than one DbContext was found"@)
            }) && forall|i: int|
                0 <= i < j ==> {
                    let t = trim(#[trigger] lines(r.stdout@)[i]);
                    !(has_prefix(t, "Unable to create"@) || contains(t, "Unable to resolve service"@)
                        || contains(t, "No DbContext was found"@) || contains(
                        t,
                        "More than one DbContext was found"@,
                    ))
                },
{
    let ls = lines(r.stdout@);
    lemma_first_dbcontext_error(ls, 0, k);
    let j = choose|j: int|
        0 <= j <= k && dbcontext_error_line(trim(#[trigger] ls[j])) && first_dbcontext_error(ls, 0)
            == Some(trim(ls[j])) && forall|t: int| 0 <= t < j ==> !dbcontext_error_line(trim(#[trigger] ls[t]));
    assert(migrations_list(r) == Err::<Seq<(Seq<char>, bool)>, Seq<char>>(dbcontext_error_message(trim(ls[j]))));
}

proof fn lemma_no_dbcontext_error(ls: Seq<Seq<char>>, i: int)
    requires
        0 <= i,
        forall|k: int| i <= k < ls.len() ==> !dbcontext_error_line(trim(#[trigger] ls[k])),
    ensures
        first_dbcontext_error(ls, i) is None,
    decreases ls.len() - i,
{
    if i < ls.len() {
        lemma_no_dbcontext_error(ls, i + 1);
    }
}

/// A successful `migrations list` run is reported as a failure exactly
/// when some trimmed line of its output starts with `Unable to create` or
/// contains `Unable to resolve service`, `No DbContext was found` or
/// `More than one DbContext was found`; a failed run always is.
pub proof fn lemma_dbcontext_failure_iff(r: CommandResult)
    ensures
        migrations_list(r) is Err <==> !r.success || exists|k: int|
            0 <= k < lines(r.stdout@).len() && {
                let t = trim(#[trigger] lines(r.stdout@)[k]);
                ||| has_prefix(t, "Unable to create"@)
                ||| contains(t, "Unable to resolve service"@)
                ||| contains(t, "No DbContext was found"@)
                ||| contains(t, "More than one DbContext was found"@)
            },
{
    let ls = lines(r.stdout@);
    if r.success {
        if exists|k: int| 0 <= k < ls.len() && dbcontext_error_line(trim(#[trigger] ls[k])) {
            let k = choose|k: int| 0 <= k < ls.len() && dbcontext_error_line(trim(#[trigger] ls[k]));
            lemma_dbcontext_failure_reported(r, k);
        } else {
            lemma_no_dbcontext_error(ls, 0);
        }
    }
}

// ─── Failure diagnostics ────────────────────────────────────────────

/// Whether a failed EF run should be followed by a `dotnet build` to show
/// the real compile errors.
pub open spec fn wants_build_diagnostics(r: CommandResult) -> bool {
    !r.success && contains(r.stdout@ + "\n"@ + r.stderr@, "Build failed"@)
}

/// The diagnostic lines of a `dotnet build`: stdout's then stderr's lines,
/// trimmed, blank ones dropped, at most 40 (with a note when cut).
pub open spec fn condensed_build_output(stdout: Seq<char>, stderr: Seq<char>) -> Seq<char> {
    let all = lines(stdout) + lines(stderr);
    let ls = nonblank_lines(all, all.len() as int);
    if ls.len() > 40 {
        join(ls.take(40), "\n"@) + "\n… (output truncated)"@
    } else {
        join(ls, "\n"@)
    }
}

/// `r` with the build diagnostics appended (to stderr when it has text,
/// else to stdout), unless the diagnostics are blank.
pub open spec fn with_build_diagnostics(r: CommandResult, build_output: Seq<char>) -> (Seq<char>, Seq<char>) {
    let sep = "\n\n--- dotnet build errors ---\n"@;
    if trim(build_output).len() == 0 {
        (r.stdout@, r.stderr@)
    } else if trim(r.stderr@).len() != 0 {
        (r.stdout@, r.stderr@ + sep + build_output)
    } else {
        (r.stdout@ + sep + build_output, r.stderr@)
    }
}

/// The result of a cancellable EF run: canceled runs fail and say so in
/// stderr.
pub open spec fn cancellable_outcome(
    exit_success: bool,
    canceled: bool,
    stdout: Seq<char>,
    stderr: Seq<char>,
) -> (bool, Seq<char>, Seq<char>) {
    if canceled {
        (
            false,
            stdout,
            (if trim(stderr).len() != 0 {
                stderr + "\n"@
            } else {
                stderr
            }) + "Operation canceled by user."@,
        )
    } else {
        (exit_success, stdout, stderr)
    }
}

impl DotnetEf {
    pub fn wants_build_diagnostics(result: &CommandResult) -> (b: bool)
        ensures
            b == wants_build_diagnostics(*result),
    {
        if result.success {
            return false;
        }
        let mut all = chars_of(result.stdout.as_str());
        push_str(&mut all, "\n");
        push_str(&mut all, result.stderr.as_str());
        contains_str(all.as_slice(), "Build failed")
    }

    /// The project `dotnet build` is run against for diagnostics: the
    /// startup project when one is configured, else the migrations project.
    pub fn build_target(project_path: &str, startup_project: &str) -> (r: String)
        ensures
            r@ == (if startup_project@.len() != 0 {
                startup_project@
            } else {
                project_path@
            }),
    {
        if !startup_project.is_empty() {
            String::from_str(startup_project)
        } else {
            String::from_str(project_path)
        }
    }

    /// The diagnostic lines of a `dotnet build` run (see
    /// `condensed_build_output`).
    pub fn condense_build_output(stdout: &str, stderr: &str) -> (r: String)
        ensures
            r@ == condensed_build_output(stdout@, stderr@),
    {
        let out_lines = lines_exec(chars_of(stdout).as_slice());
        let err_lines = lines_exec(chars_of(stderr).as_slice());
        let ghost all = views(out_lines@) + views(err_lines@);
        let mut kept: Vec<Vec<char>> = Vec::new();
        let n1 = out_lines.len();
        for i in 0..out_lines.len()
            invariant
                all == views(out_lines@) + views(err_lines@),
                n1 == out_lines@.len(),
                views(kept@) == nonblank_lines(all, i as int),
        {
            let t = trim_chars(out_lines[i].as_slice());
            assert(all[i as int] == out_lines@[i as int]@);
            if t.len() != 0 {
                let ghost before = kept@;
                kept.push(t);
                assert(views(kept@) =~= views(before).push(trim(all[i as int])));
            }
        }
        for i in 0..err_lines.len()
            invariant
                all == views(out_lines@) + views(err_lines@),
                n1 == out_lines@.len(),
                views(kept@) == nonblank_lines(all, n1 + i),
        {
            let t = trim_chars(err_lines[i].as_slice());
            assert(all[n1 + i] == err_lines@[i as int]@);
            if t.len() != 0 {
                let ghost before = kept@;
                kept.push(t);
                assert(views(kept@) =~= views(before).push(trim(all[n1 + i])));
            }
        }
        let nl = chars_of("\n");
        if kept.len() > 40 {
            let mut first: Vec<Vec<char>> = Vec::new();
            for i in 0..40
                invariant
                    kept@.len() > 40,
                    views(first@) == views(kept@).take(i as int),
            {
                let ghost before = first@;
                let mut c: Vec<char> = Vec::new();
                push_all(&mut c, kept[i].as_slice());
                first.push(c);
                assert(views(first@) =~= views(before).push(kept@[i as int]@));
                assert(views(first@) =~= views(kept@).take(i + 1));
            }
            let mut joined = join_exec(&first, nl.as_slice());
            push_str(&mut joined, "\n… (output truncated)");
            string_of(joined.as_slice())
        } else {
            let joined = join_exec(&kept, nl.as_slice());
            string_of(joined.as_slice())
        }
    }

    /// Appends the build diagnostics to `result` (see
    /// `with_build_diagnostics`).
    pub fn append_build_diagnostics(result: &mut CommandResult, build_output: &str)
        ensures
            (final(result).stdout@, final(result).stderr@) == with_build_diagnostics(*old(result), build_output@),
            final(result).success == old(result).success,
            final(result).command_display@ == old(result).command_display@,
    {
        if is_blank(chars_of(build_output).as_slice()) {
            return;
        }
        let sep = "\n\n--- dotnet build errors ---\n";
        if !is_blank(chars_of(result.stderr.as_str()).as_slice()) {
            result.stderr.append(sep);
            result.stderr.append(build_output);
        } else {
            result.stdout.append(sep);
            result.stdout.append(build_output);
        }
    }

    /// The result of a cancellable run (see `cancellable_outcome`).
    pub fn finish_cancellable(
        exit_success: bool,
        canceled: bool,
        stdout: String,
        stderr: String,
        command_display: String,
    ) -> (r: CommandResult)
        ensures
            (r.success, r.stdout@, r.stderr@) == cancellable_outcome(exit_success, canceled, stdout@, stderr@),
            r.command_display@ == command_display@,
    {
        let mut stderr = stderr;
        if canceled {
            if !is_blank(chars_of(stderr.as_str()).as_slice()) {
                stderr.append("\n");
            }
            stderr.append("Operation canceled by user.");
        }
        CommandResult { success: exit_success && !canceled, stdout, stderr, command_display }
    }
}

// ─── The one running EF operation ───────────────────────────────────

/// Which EF operation runs (at most one at a time) and whether it was
/// asked to stop.
#[derive(Debug)]
pub struct RunningOperation {
    pub operation: Option<String>,
    pub canceled: bool,
}

pub open spec fn busy_error() -> Seq<char> {
    "Another operation is already running"@
}

impl RunningOperation {
    pub fn idle() -> (r: RunningOperation)
        ensures
            r.operation is None,
            !r.canceled,
    {
        RunningOperation { operation: None, canceled: false }
    }

    /// Registers `operation` as the running one, unless another runs.
    pub fn claim(&mut self, operation: &str) -> (r: Result<(), String>)
        ensures
            old(self).operation is Some ==> (r matches Err(e) && e@ == busy_error())
                && final(self).operation == old(self).operation && final(self).canceled == old(self).canceled,
            old(self).operation is None ==> r is Ok && opt_string(final(self).operation) == Some(operation@)
                && !final(self).canceled,
    {
        if self.operation.is_some() {
            return Err(String::from_str("Another operation is already running"));
        }
        self.operation = Some(String::from_str(operation));
        self.canceled = false;
        Ok(())
    }

    /// Marks the running operation canceled; returns its name (`None` when
    /// nothing runs).
    pub fn request_cancel(&mut self) -> (r: Option<String>)
        ensures
            opt_string(r) == opt_string(old(self).operation),
            final(self).operation == old(self).operation,
            final(self).canceled == (old(self).canceled || old(self).operation is Some),
    {
        match &self.operation {
            Some(op) => {
                self.canceled = true;
                Some(String::from_str(op.as_str()))
            },
            None => None,
        }
    }

    /// Ends the running operation; returns whether it was canceled.
    pub fn release(&mut self) -> (canceled: bool)
        ensures
            canceled == (old(self).operation is Some && old(self).canceled),
            final(self).operation is None,
            !final(self).canceled,
    {
        let canceled = self.operation.is_some() && self.canceled;
        self.operation = None;
        self.canceled = false;
        canceled
    }
}

/// The error when stopping operation `operation` failed.
pub fn cancel_failure(operation: &str, error: &str) -> (r: String)
    ensures
        r@ == "Failed to cancel '"@ + operation@ + "': "@ + error@,
{
    let mut out = chars_of("Failed to cancel '");
    push_str(&mut out, operation);
    push_str(&mut out, "': ");
    push_str(&mut out, error);
    string_of(out.as_slice())
}

impl DotnetEf {
    /// The arguments of the `dotnet build` run for diagnostics: errors
    /// only, without the logo.
    pub fn dotnet_build_args(target: &str) -> (r: Vec<String>)
        ensures
            strings_view(r@) == seq!["build"@, target@, "--nologo"@, "-clp:ErrorsOnly"@],
    {
        let mut v: Vec<String> = Vec::new();
        v.push(String::from_str("build"));
        v.push(String::from_str(target));
        v.push(String::from_str("--nologo"));
        v.push(String::from_str("-clp:ErrorsOnly"));
        assert(strings_view(v@) =~= seq!["build"@, target@, "--nologo"@, "-clp:ErrorsOnly"@]);
        v
    }
}

} // verus!
