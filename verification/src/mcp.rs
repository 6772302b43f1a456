//! The MCP server's bookkeeping: its status, the port file external
//! clients discover it by, who owns that file, the app-status resource,
//! and the `ezmigrations://` resource URIs.
use vstd::prelude::*;
use crate::text::{
    eq_str, lines, lines_exec, split, split_exec, trim, trim_chars, views,
    chars_of, decimal, eq_chars, has_prefix, has_suffix, push_decimal, push_str, starts_with_str,
    ends_with_str, string_of,
};

verus! {

pub const PROJECT_CURRENT_URI: &'static str = "ezmigrations://project/current";
pub const MIGRATIONS_URI: &'static str = "ezmigrations://migrations";
pub const BRANCHES_URI: &'static str = "ezmigrations://branches";
pub const BRANCHES_CURRENT_URI: &'static str = "ezmigrations://branches/current";
pub const PROJECTS_URI: &'static str = "ezmigrations://projects";
pub const PREFERENCES_URI: &'static str = "ezmigrations://preferences";
pub const APP_STATUS_URI: &'static str = "ezmigrations://app/status";
/// RFC 6570 template; the `{name}` segment is the EF migration name.
pub const MIGRATION_SQL_TEMPLATE: &'static str = "ezmigrations://migrations/{name}/sql";

// ─── Resource URIs ──────────────────────────────────────────────────

/// The migration name in a `ezmigrations://migrations/{name}/sql` URI: a
/// non-empty name without `/`.
pub open spec fn migration_sql_name(uri: Seq<char>) -> Option<Seq<char>> {
    let prefix = "ezmigrations://migrations/"@;
    let suffix = "/sql"@;
    if has_prefix(uri, prefix) && has_suffix(uri.skip(prefix.len() as int), suffix) {
        let rest = uri.skip(prefix.len() as int);
        let name = rest.take(rest.len() - suffix.len());
        if name.len() > 0 && !name.contains('/') {
            Some(name)
        } else {
            None
        }
    } else {
        None
    }
}

/// Extract `{name}` from a `ezmigrations://migrations/{name}/sql` URI, or
/// `None` when the URI does not have that shape.
pub fn parse_migration_sql_uri(uri: &str) -> (r: Option<String>)
    ensures
        match r {
            Some(n) => migration_sql_name(uri@) == Some(n@),
            None => migration_sql_name(uri@) is None,
        },
{
    proof {
        reveal_strlit("ezmigrations://migrations/");
        reveal_strlit("/sql");
    }
    let u = chars_of(uri);
    if !starts_with_str(u.as_slice(), "ezmigrations://migrations/") {
        return None;
    }
    let p: usize = 26;
    let mut rest: Vec<char> = Vec::new();
    let mut i: usize = p;
    while i < u.len()
        invariant
            p <= u@.len(),
            p <= i <= u@.len(),
            rest@ == u@.subrange(p as int, i as int),
        decreases u@.len() - i,
    {
        rest.push(u[i]);
        i = i + 1;
    }
    assert(rest@ =~= uri@.skip(26));
    if !ends_with_str(rest.as_slice(), "/sql") {
        return None;
    }
    let n = rest.len() - 4;
    let mut name: Vec<char> = Vec::new();
    let mut j: usize = 0;
    let mut slash = false;
    while j < n
        invariant
            n <= rest@.len(),
            j <= n,
            name@ == rest@.take(j as int),
            slash == name@.contains('/'),
        decreases n - j,
    {
        let c = rest[j];
        if c == '/' {
            slash = true;
        }
        let ghost before = name@;
        name.push(c);
        assert(name@ =~= rest@.take(j + 1));
        proof {
            if before.contains('/') {
                let k = choose|k: int| 0 <= k < before.len() && before[k] == '/';
                assert(name@[k] == '/');
            }
            if name@.contains('/') && c != '/' {
                let k = choose|k: int| 0 <= k < name@.len() && name@[k] == '/';
                assert(k < before.len());
                assert(before[k] == '/');
            }
            if c == '/' {
                assert(name@[j as int] == '/');
            }
        }
        j = j + 1;
    }
    if name.len() == 0 || slash {
        None
    } else {
        Some(string_of(name.as_slice()))
    }
}

/// The migration-SQL resource URI of a migration names that migration:
/// filling the template with a non-empty name without `/` and reading the
/// URI back gives the name.
pub proof fn lemma_migration_sql_uri_roundtrip(name: Seq<char>)
    requires
        name.len() > 0,
        !name.contains('/'),
    ensures
        migration_sql_name("ezmigrations://migrations/"@ + name + "/sql"@) == Some(name),
{
    reveal_strlit("ezmigrations://migrations/");
    reveal_strlit("/sql");
    let prefix = "ezmigrations://migrations/"@;
    let suffix = "/sql"@;
    let uri = prefix + name + suffix;
    assert(uri.subrange(0, prefix.len() as int) =~= prefix);
    let rest = uri.skip(prefix.len() as int);
    assert(rest =~= name + suffix);
    assert(rest.subrange(rest.len() - suffix.len(), rest.len() as int) =~= suffix);
    assert(rest.take(rest.len() - suffix.len()) =~= name);
}

// ─── Server status and the port file ────────────────────────────────

/// The loopback URL of a server on `port`.
pub open spec fn mcp_url_of(port: nat) -> Seq<char> {
    "http://127.0.0.1:"@ + decimal(port) + "/mcp"@
}

pub fn mcp_url(port: u16) -> (r: String)
    ensures
        r@ == mcp_url_of(port as nat),
{
    let mut out = chars_of("http://127.0.0.1:");
    push_decimal(&mut out, port as u128);
    push_str(&mut out, "/mcp");
    string_of(out.as_slice())
}

/// What the UI shows of the MCP server.
#[derive(Debug, Clone)]
pub struct McpServerStatus {
    pub running: bool,
    pub port: Option<u16>,
    pub pid: u32,
    pub started_at_unix_ms: Option<u64>,
    pub transport: String,
    pub url: Option<String>,
    pub port_file_path: String,
}

impl McpServerStatus {
    /// The status of a stopped server in process `pid`.
    pub fn stopped(pid: u32, port_file_path: &str) -> (r: McpServerStatus)
        ensures
            !r.running,
            r.port is None,
            r.pid == pid,
            r.started_at_unix_ms is None,
            r.transport@ == "http"@,
            r.url is None,
            r.port_file_path@ == port_file_path@,
    {
        McpServerStatus {
            running: false,
            port: None,
            pid,
            started_at_unix_ms: None,
            transport: String::from_str("http"),
            url: None,
            port_file_path: String::from_str(port_file_path),
        }
    }

    /// The status of a server listening on `port` since `started_at_unix_ms`.
    pub fn listening(port: u16, started_at_unix_ms: u64, pid: u32, port_file_path: &str) -> (r: McpServerStatus)
        ensures
            r.running,
            r.port == Some(port),
            r.pid == pid,
            r.started_at_unix_ms == Some(started_at_unix_ms),
            r.transport@ == "http"@,
            r.url matches Some(u) && u@ == mcp_url_of(port as nat),
            r.port_file_path@ == port_file_path@,
    {
        McpServerStatus {
            running: true,
            port: Some(port),
            pid,
            started_at_unix_ms: Some(started_at_unix_ms),
            transport: String::from_str("http"),
            url: Some(mcp_url(port)),
            port_file_path: String::from_str(port_file_path),
        }
    }
}

/// The discovery document written for external MCP clients.
#[derive(Debug, Clone)]
pub struct PortFile {
    pub port: u16,
    pub pid: u32,
    pub started_at_unix_ms: u64,
    pub transport: String,
    pub url: String,
}

impl PortFile {
    pub fn new(port: u16, pid: u32, started_at_unix_ms: u64) -> (r: PortFile)
        ensures
            r.port == port,
            r.pid == pid,
            r.started_at_unix_ms == started_at_unix_ms,
            r.transport@ == "http"@,
            r.url@ == mcp_url_of(port as nat),
    {
        PortFile { port, pid, started_at_unix_ms, transport: String::from_str("http"), url: mcp_url(port) }
    }

    /// Whether this file was written by the server of process `pid` that
    /// listens on `port` since `started_at_unix_ms` (so stopping that
    /// server may remove it).
    pub fn written_by(&self, pid: u32, port: u16, started_at_unix_ms: u64) -> (b: bool)
        ensures
            b == (self.pid == pid && self.port == port && self.started_at_unix_ms == started_at_unix_ms),
    {
        self.pid == pid && self.port == port && self.started_at_unix_ms == started_at_unix_ms
    }
}

/// What a port file found at start-up means.
#[derive(Debug, Clone, Copy, PartialEq, Eq)]
pub enum PortOwner {
    /// No other process advertises a server.
    Free,
    /// A live process advertises its own server.
    Live,
    /// The advertising process is gone; the file is stale and is removed.
    Stale,
}

/// Reads a port file found at start-up: our own (or none) is free, a live
/// other process owns the slot, a dead one leaves a stale file.
pub fn port_owner(file_pid: Option<u32>, own_pid: u32, owner_alive: bool) -> (r: PortOwner)
    ensures
        match file_pid {
            None => r is Free,
            Some(p) => if p == own_pid {
                r is Free
            } else if owner_alive {
                r is Live
            } else {
                r is Stale
            },
        },
{
    match file_pid {
        None => PortOwner::Free,
        Some(p) => if p == own_pid {
            PortOwner::Free
        } else if owner_alive {
            PortOwner::Live
        } else {
            PortOwner::Stale
        },
    }
}

/// Why the GUI-hosted server does not start while another process runs
/// one.
pub fn already_running_error(pid: u32, url: &str) -> (r: String)
    ensures
        r@ == "ezMigrations MCP is already running in another process (PID "@ + decimal(pid as nat)
            + ", "@ + url@ + "). Stop it before starting the GUI-hosted server."@,
{
    let mut out = chars_of("ezMigrations MCP is already running in another process (PID ");
    push_decimal(&mut out, pid as u128);
    push_str(&mut out, ", ");
    push_str(&mut out, url);
    push_str(&mut out, "). Stop it before starting the GUI-hosted server.");
    string_of(out.as_slice())
}

// ─── The app-status resource ────────────────────────────────────────

/// Whether the file watchers run.
#[derive(Debug)]
pub struct WatchersStatus {
    pub branch: bool,
    pub migrations: bool,
}

/// `ezmigrations://app/status`: a snapshot of the app.
#[derive(Debug)]
pub struct AppStatusPayload {
    pub project_loaded: bool,
    pub current_branch: Option<String>,
    pub operation_in_progress: bool,
    pub watchers_active: WatchersStatus,
}

impl AppStatusPayload {
    /// The snapshot; an empty branch name means no branch is known.
    pub fn snapshot(
        project_loaded: bool,
        current_branch: &str,
        operation_in_progress: bool,
        branch_watcher: bool,
        migration_watcher: bool,
    ) -> (r: AppStatusPayload)
        ensures
            r.project_loaded == project_loaded,
            r.current_branch matches Some(b) ==> b@ == current_branch@ && b@.len() > 0,
            r.current_branch is None <==> current_branch@.len() == 0,
            r.operation_in_progress == operation_in_progress,
            r.watchers_active.branch == branch_watcher,
            r.watchers_active.migrations == migration_watcher,
    {
        AppStatusPayload {
            project_loaded,
            current_branch: if current_branch.is_empty() {
                None
            } else {
                Some(String::from_str(current_branch))
            },
            operation_in_progress,
            watchers_active: WatchersStatus { branch: branch_watcher, migrations: migration_watcher },
        }
    }
}

// ─── Resource dispatch ──────────────────────────────────────────────

/// The resource a URI names.
#[derive(Debug)]
pub enum Resource {
    ProjectCurrent,
    Projects,
    Preferences,
    Migrations,
    Branches,
    BranchesCurrent,
    AppStatus,
    MigrationSql(String),
    NotFound,
}

/// Which resource `uri` names: one of the fixed URIs, a migration's SQL,
/// or none.
pub fn resource_for(uri: &str) -> (r: Resource)
    ensures
        uri@ == "ezmigrations://project/current"@ ==> r is ProjectCurrent,
        uri@ == "ezmigrations://projects"@ ==> r is Projects,
        uri@ == "ezmigrations://preferences"@ ==> r is Preferences,
        uri@ == "ezmigrations://migrations"@ ==> r is Migrations,
        uri@ == "ezmigrations://branches"@ ==> r is Branches,
        uri@ == "ezmigrations://branches/current"@ ==> r is BranchesCurrent,
        uri@ == "ezmigrations://app/status"@ ==> r is AppStatus,
        !fixed_uri(uri@) ==> match migration_sql_name(uri@) {
            Some(n) => r matches Resource::MigrationSql(m) && m@ == n,
            None => r is NotFound,
        },
{
    proof {
        reveal_strlit("ezmigrations://project/current");
        reveal_strlit("ezmigrations://projects");
        reveal_strlit("ezmigrations://preferences");
        reveal_strlit("ezmigrations://migrations");
        reveal_strlit("ezmigrations://branches");
        reveal_strlit("ezmigrations://branches/current");
        reveal_strlit("ezmigrations://app/status");
        assert("ezmigrations://projects"@.len() == 23);
        assert("ezmigrations://project/current"@.len() == 30);
        assert("ezmigrations://preferences"@.len() == 26);
        assert("ezmigrations://projects"@ != "ezmigrations://project/current"@);
        assert("ezmigrations://preferences"@ != "ezmigrations://project/current"@);
        assert("ezmigrations://preferences"@ != "ezmigrations://projects"@);
        assert("ezmigrations://migrations"@.len() == 25);
        assert("ezmigrations://branches"@.len() == 23);
        assert("ezmigrations://branches/current"@.len() == 31);
        assert("ezmigrations://app/status"@.len() == 25);
        assert("ezmigrations://branches"@[15] != "ezmigrations://projects"@[15]);
        assert("ezmigrations://app/status"@[15] != "ezmigrations://migrations"@[15]);
        assert("ezmigrations://migrations"@ != "ezmigrations://project/current"@ && "ezmigrations://migrations"@ != "ezmigrations://projects"@
            && "ezmigrations://migrations"@ != "ezmigrations://preferences"@);
    }
    let u = chars_of(uri);
    if eq_str(u.as_slice(), "ezmigrations://project/current") {
        Resource::ProjectCurrent
    } else if eq_str(u.as_slice(), "ezmigrations://projects") {
        Resource::Projects
    } else if eq_str(u.as_slice(), "ezmigrations://preferences") {
        Resource::Preferences
    } else if eq_str(u.as_slice(), "ezmigrations://migrations") {
        Resource::Migrations
    } else if eq_str(u.as_slice(), "ezmigrations://branches") {
        Resource::Branches
    } else if eq_str(u.as_slice(), "ezmigrations://branches/current") {
        Resource::BranchesCurrent
    } else if eq_str(u.as_slice(), "ezmigrations://app/status") {
        Resource::AppStatus
    } else {
        match parse_migration_sql_uri(uri) {
            Some(n) => Resource::MigrationSql(n),
            None => Resource::NotFound,
        }
    }
}

/// One of the fixed resource URIs.
pub open spec fn fixed_uri(uri: Seq<char>) -> bool {
    ||| uri == "ezmigrations://project/current"@
    ||| uri == "ezmigrations://projects"@
    ||| uri == "ezmigrations://preferences"@
    ||| uri == "ezmigrations://migrations"@
    ||| uri == "ezmigrations://branches"@
    ||| uri == "ezmigrations://branches/current"@
    ||| uri == "ezmigrations://app/status"@
}

// ─── Process liveness on Windows ────────────────────────────────────

/// The second field of a CSV line, trimmed and without surrounding `"`.
pub open spec fn csv_second_field(line: Seq<char>) -> Option<Seq<char>> {
    let parts = split(line, ',');
    if parts.len() >= 2 {
        Some(trim_quotes(trim(parts[1])))
    } else {
        None
    }
}

/// `s` without the `"` characters at either end (`trim_matches('"')`).
pub open spec fn trim_quotes(s: Seq<char>) -> Seq<char> {
    let a = quote_run_end(s, 0);
    let b = quote_run_start(s, s.len() as int);
    if a < b {
        s.subrange(a, b)
    } else {
        Seq::empty()
    }
}

pub open spec fn quote_run_end(s: Seq<char>, i: int) -> int
    decreases s.len() - i,
{
    if 0 <= i < s.len() && s[i] == '"' {
        quote_run_end(s, i + 1)
    } else {
        i
    }
}

pub open spec fn quote_run_start(s: Seq<char>, j: int) -> int
    decreases j,
{
    if 0 < j <= s.len() && s[j - 1] == '"' {
        quote_run_start(s, j - 1)
    } else {
        j
    }
}

/// Whether `tasklist /FO CSV /NH` output lists process `pid` (its second
/// column is the PID).
pub open spec fn tasklist_lists(output: Seq<char>, pid: nat) -> bool {
    exists|i: int|
        0 <= i < lines(output).len() && #[trigger] csv_second_field(lines(output)[i]) == Some(decimal(pid))
}

fn trim_quotes_exec(s: &[char]) -> (r: Vec<char>)
    ensures
        r@ == trim_quotes(s@),
{
    let mut a: usize = 0;
    while a < s.len() && s[a] == '"'
        invariant
            a <= s@.len(),
            quote_run_end(s@, 0) == quote_run_end(s@, a as int),
        decreases s@.len() - a,
    {
        a = a + 1;
    }
    let mut b: usize = s.len();
    while b > 0 && s[b - 1] == '"'
        invariant
            b <= s@.len(),
            quote_run_start(s@, s@.len() as int) == quote_run_start(s@, b as int),
        decreases b,
    {
        b = b - 1;
    }
    let mut out: Vec<char> = Vec::new();
    if a < b {
        let mut k: usize = a;
        while k < b
            invariant
                a <= k <= b <= s@.len(),
                out@ == s@.subrange(a as int, k as int),
            decreases b - k,
        {
            out.push(s[k]);
            k = k + 1;
        }
    }
    out
}

pub fn tasklist_has_pid(output: &str, pid: u32) -> (b: bool)
    ensures
        b == tasklist_lists(output@, pid as nat),
{
    let ls = lines_exec(chars_of(output).as_slice());
    let ghost lv = views(ls@);
    let mut want: Vec<char> = Vec::new();
    push_decimal(&mut want, pid as u128);
    for i in 0..ls.len()
        invariant
            lv == views(ls@),
            lv == lines(output@),
            want@ == decimal(pid as nat),
            forall|k: int| 0 <= k < i ==> #[trigger] csv_second_field(lv[k]) != Some(decimal(pid as nat)),
    {
        assert(lv[i as int] == ls@[i as int]@);
        let parts = split_exec(ls[i].as_slice(), ',');
        if parts.len() >= 2 {
            let field = trim_quotes_exec(trim_chars(parts[1].as_slice()).as_slice());
            assert(views(parts@)[1] == parts@[1]@);
            if eq_chars(field.as_slice(), want.as_slice()) {
                assert(csv_second_field(lv[i as int]) == Some(decimal(pid as nat)));
                return true;
            }
        }
    }
    false
}

} // verus!
