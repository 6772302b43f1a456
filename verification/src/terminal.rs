//! Opening a terminal in the repository with the MCP server's settings
//! exported: the bootstrap scripts (bash, PowerShell, Command Prompt), how
//! values are quoted for each, and which terminal programs are tried for
//! each choice. Writing the script and starting the program are the
//! caller's part.
use vstd::prelude::*;
use crate::text::{chars_of, decimal, eq_str, push_all, push_decimal, push_str, replace, replace_str, string_of, strings_view, trim, trim_chars};

verus! {

/// Where the terminal opens and what it is told about the MCP server.
pub struct TerminalContext<'a> {
    pub repo_path: &'a str,
    pub project_path: &'a str,
    pub mcp_url: &'a str,
    pub port_file_path: &'a str,
    /// The command of the MCP client CLI the server is registered with
    /// (`<cli> mcp add ...`); registration is skipped when it is not on
    /// `PATH`.
    pub agent_cli: &'a str,
}

/// The terminal choice, trimmed; an empty choice means the system default.
pub open spec fn terminal_kind(kind: Seq<char>) -> Seq<char> {
    if trim(kind).len() == 0 {
        "system"@
    } else {
        trim(kind)
    }
}

pub fn normalize_kind(kind: &str) -> (r: String)
    ensures
        r@ == terminal_kind(kind@),
{
    let t = trim_chars(chars_of(kind).as_slice());
    if t.len() == 0 {
        String::from_str("system")
    } else {
        string_of(t.as_slice())
    }
}

// ─── Quoting ────────────────────────────────────────────────────────

/// `v` as one single-quoted shell word.
pub open spec fn sh_quoted(v: Seq<char>) -> Seq<char> {
    "'"@ + replace(v, "'"@, "'\"'\"'"@) + "'"@
}

pub fn sh_quote(value: &str) -> (r: String)
    ensures
        r@ == sh_quoted(value@),
{
    let mut out = chars_of("'");
    let body = replace_str(chars_of(value).as_slice(), "'", "'\"'\"'");
    push_all(&mut out, body.as_slice());
    push_str(&mut out, "'");
    string_of(out.as_slice())
}

/// `v` as an AppleScript string literal.
pub open spec fn apple_quoted(v: Seq<char>) -> Seq<char> {
    "\""@ + replace(replace(replace(v, "\\"@, "\\\\"@), "\""@, "\\\""@), "\n"@, "\\n"@) + "\""@
}

pub fn apple_string(value: &str) -> (r: String)
    ensures
        r@ == apple_quoted(value@),
{
    let a = replace_str(chars_of(value).as_slice(), "\\", "\\\\");
    let b = replace_str(a.as_slice(), "\"", "\\\"");
    let c = replace_str(b.as_slice(), "\n", "\\n");
    let mut out = chars_of("\"");
    push_all(&mut out, c.as_slice());
    push_str(&mut out, "\"");
    string_of(out.as_slice())
}

/// `v` as a single-quoted PowerShell string.
pub open spec fn ps_quoted(v: Seq<char>) -> Seq<char> {
    "'"@ + replace(v, "'"@, "''"@) + "'"@
}

pub fn ps_quote(value: &str) -> (r: String)
    ensures
        r@ == ps_quoted(value@),
{
    let mut out = chars_of("'");
    let body = replace_str(chars_of(value).as_slice(), "'", "''");
    push_all(&mut out, body.as_slice());
    push_str(&mut out, "'");
    string_of(out.as_slice())
}

/// `v` with the characters the Command Prompt treats specially escaped.
pub open spec fn cmd_escaped(v: Seq<char>) -> Seq<char> {
    replace(
        replace(
            replace(
                replace(replace(replace(replace(v, "%"@, "%%"@), "^"@, "^^"@), "&"@, "^&"@), "|"@, "^|"@),
                "<"@,
                "^<"@,
            ),
            ">"@,
            "^>"@,
        ),
        "\""@,
        "\"\""@,
    )
}

pub fn cmd_value(value: &str) -> (r: String)
    ensures
        r@ == cmd_escaped(value@),
{
    let a = replace_str(chars_of(value).as_slice(), "%", "%%");
    let b = replace_str(a.as_slice(), "^", "^^");
    let c = replace_str(b.as_slice(), "&", "^&");
    let d = replace_str(c.as_slice(), "|", "^|");
    let e = replace_str(d.as_slice(), "<", "^<");
    let f = replace_str(e.as_slice(), ">", "^>");
    let g = replace_str(f.as_slice(), "\"", "\"\"");
    string_of(g.as_slice())
}

// ─── Bootstrap scripts ──────────────────────────────────────────────

/// The bash script a new terminal runs: it enters the repository, exports
/// the MCP settings, registers the server with the MCP client CLI when it
/// can (checking that a new entry works before replacing an existing one),
/// and starts a login shell.
pub open spec fn shell_script(ctx: TerminalContext) -> Seq<char> {
    "#!/usr/bin/env bash\ncd "@
        + sh_quoted(ctx.repo_path@)
        + " || exit 1\nexport EZMIGRATIONS_MCP_URL="@
        + sh_quoted(ctx.mcp_url@)
        + "\nexport EZMIGRATIONS_MCP_PORT_FILE="@
        + sh_quoted(ctx.port_file_path@)
        + "\nexport EZMIGRATIONS_PROJECT_PATH="@
        + sh_quoted(ctx.project_path@)
        + "\nexport EZMIGRATIONS_AGENT_CLI="@
        + sh_quoted(ctx.agent_cli@)
        + "\n\nagent_status=\"MCP client CLI not found on PATH; MCP URL exported for manual setup.\"\nif command -v \"$EZMIGRATIONS_AGENT_CLI\" >/dev/null 2>&1; then\n  if \"$EZMIGRATIONS_AGENT_CLI\" mcp add --scope local --transport http ezmigrations \"$EZMIGRATIONS_MCP_URL\" >/dev/null 2>&1; then\n    agent_status=\"MCP client: ezmigrations registered for this repo\"\n  else\n    check_name=\"ezmigrations-check-$$\"\n    if \"$EZMIGRATIONS_AGENT_CLI\" mcp add --scope local --transport http \"$check_name\" \"$EZMIGRATIONS_MCP_URL\" >/dev/null 2>&1; then\n      \"$EZMIGRATIONS_AGENT_CLI\" mcp remove --scope local \"$check_name\" >/dev/null 2>&1 || true\n      \"$EZMIGRATIONS_AGENT_CLI\" mcp remove --scope local ezmigrations >/dev/null 2>&1 || true\n      if \"$EZMIGRATIONS_AGENT_CLI\" mcp add --scope local --transport http ezmigrations \"$EZMIGRATIONS_MCP_URL\" >/dev/null 2>&1; then\n        agent_status=\"MCP client: ezmigrations registered for this repo\"\n      else\n        agent_status=\"MCP client: replacement failed after validation; run: $EZMIGRATIONS_AGENT_CLI mcp add --scope local --transport http ezmigrations $EZMIGRATIONS_MCP_URL\"\n      fi\n    else\n      agent_status=\"MCP client: registration failed; existing ezmigrations entry left unchanged\"\n    fi\n  fi\nfi\n\nclear\nprintf '\\033[1;32mezMigrations MCP ready\\033[0m\\n'\nprintf '%s\\n' \"$agent_status\"\nprintf 'MCP URL: %s\\n' \"$EZMIGRATIONS_MCP_URL\"\nprintf 'Project: %s\\n' \"$EZMIGRATIONS_PROJECT_PATH\"\nprintf 'Repo: %s\\n\\n' \"$PWD\"\nexec \"${SHELL:-/bin/bash}\" -l\n"@
}

pub fn shell_bootstrap(ctx: &TerminalContext) -> (r: String)
    ensures
        r@ == shell_script(*ctx),
{
    let mut out: Vec<char> = Vec::new();
    push_str(&mut out, "#!/usr/bin/env bash\ncd ");
    let q = sh_quote(ctx.repo_path);
    push_str(&mut out, q.as_str());
    push_str(&mut out, " || exit 1\nexport EZMIGRATIONS_MCP_URL=");
    let q = sh_quote(ctx.mcp_url);
    push_str(&mut out, q.as_str());
    push_str(&mut out, "\nexport EZMIGRATIONS_MCP_PORT_FILE=");
    let q = sh_quote(ctx.port_file_path);
    push_str(&mut out, q.as_str());
    push_str(&mut out, "\nexport EZMIGRATIONS_PROJECT_PATH=");
    let q = sh_quote(ctx.project_path);
    push_str(&mut out, q.as_str());
    push_str(&mut out, "\nexport EZMIGRATIONS_AGENT_CLI=");
    let q = sh_quote(ctx.agent_cli);
    push_str(&mut out, q.as_str());
    push_str(&mut out, "\n\nagent_status=\"MCP client CLI not found on PATH; MCP URL exported for manual setup.\"\nif command -v \"$EZMIGRATIONS_AGENT_CLI\" >/dev/null 2>&1; then\n  if \"$EZMIGRATIONS_AGENT_CLI\" mcp add --scope local --transport http ezmigrations \"$EZMIGRATIONS_MCP_URL\" >/dev/null 2>&1; then\n    agent_status=\"MCP client: ezmigrations registered for this repo\"\n  else\n    check_name=\"ezmigrations-check-$$\"\n    if \"$EZMIGRATIONS_AGENT_CLI\" mcp add --scope local --transport http \"$check_name\" \"$EZMIGRATIONS_MCP_URL\" >/dev/null 2>&1; then\n      \"$EZMIGRATIONS_AGENT_CLI\" mcp remove --scope local \"$check_name\" >/dev/null 2>&1 || true\n      \"$EZMIGRATIONS_AGENT_CLI\" mcp remove --scope local ezmigrations >/dev/null 2>&1 || true\n      if \"$EZMIGRATIONS_AGENT_CLI\" mcp add --scope local --transport http ezmigrations \"$EZMIGRATIONS_MCP_URL\" >/dev/null 2>&1; then\n        agent_status=\"MCP client: ezmigrations registered for this repo\"\n      else\n        agent_status=\"MCP client: replacement failed after validation; run: $EZMIGRATIONS_AGENT_CLI mcp add --scope local --transport http ezmigrations $EZMIGRATIONS_MCP_URL\"\n      fi\n    else\n      agent_status=\"MCP client: registration failed; existing ezmigrations entry left unchanged\"\n    fi\n  fi\nfi\n\nclear\nprintf '\\033[1;32mezMigrations MCP ready\\033[0m\\n'\nprintf '%s\\n' \"$agent_status\"\nprintf 'MCP URL: %s\\n' \"$EZMIGRATIONS_MCP_URL\"\nprintf 'Project: %s\\n' \"$EZMIGRATIONS_PROJECT_PATH\"\nprintf 'Repo: %s\\n\\n' \"$PWD\"\nexec \"${SHELL:-/bin/bash}\" -l\n");
    string_of(out.as_slice())
}

/// The PowerShell form of the bootstrap script.
pub open spec fn powershell_script(ctx: TerminalContext) -> Seq<char> {
    "$env:EZMIGRATIONS_MCP_URL = "@
        + ps_quoted(ctx.mcp_url@)
        + "\n$env:EZMIGRATIONS_MCP_PORT_FILE = "@
        + ps_quoted(ctx.port_file_path@)
        + "\n$env:EZMIGRATIONS_PROJECT_PATH = "@
        + ps_quoted(ctx.project_path@)
        + "\n$env:EZMIGRATIONS_AGENT_CLI = "@
        + ps_quoted(ctx.agent_cli@)
        + "\nSet-Location -LiteralPath "@
        + ps_quoted(ctx.repo_path@)
        + "\n\n$agentStatus = 'MCP client CLI not found on PATH; MCP URL exported for manual setup.'\nif (Get-Command $env:EZMIGRATIONS_AGENT_CLI -ErrorAction SilentlyContinue) {\n  & $env:EZMIGRATIONS_AGENT_CLI mcp add --scope local --transport http ezmigrations $env:EZMIGRATIONS_MCP_URL *> $null\n  if ($LASTEXITCODE -eq 0) {\n    $agentStatus = 'MCP client: ezmigrations registered for this repo'\n  } else {\n    $checkName = 'ezmigrations-check-' + $PID\n    & $env:EZMIGRATIONS_AGENT_CLI mcp add --scope local --transport http $checkName $env:EZMIGRATIONS_MCP_URL *> $null\n    if ($LASTEXITCODE -eq 0) {\n      & $env:EZMIGRATIONS_AGENT_CLI mcp remove --scope local $checkName *> $null\n      & $env:EZMIGRATIONS_AGENT_CLI mcp remove --scope local ezmigrations *> $null\n      & $env:EZMIGRATIONS_AGENT_CLI mcp add --scope local --transport http ezmigrations $env:EZMIGRATIONS_MCP_URL *> $null\n      if ($LASTEXITCODE -eq 0) {\n        $agentStatus = 'MCP client: ezmigrations registered for this repo'\n      } else {\n        $agentStatus = 'MCP client: replacement failed after validation; run: ' + $env:EZMIGRATIONS_AGENT_CLI + ' mcp add --scope local --transport http ezmigrations ' + $env:EZMIGRATIONS_MCP_URL\n      }\n    } else {\n      $agentStatus = 'MCP client: registration failed; existing ezmigrations entry left unchanged'\n    }\n  }\n}\n\nClear-Host\nWrite-Host 'ezMigrations MCP ready' -ForegroundColor Green\nWrite-Host $agentStatus\nWrite-Host ('MCP URL: ' + $env:EZMIGRATIONS_MCP_URL)\nWrite-Host ('Project: ' + $env:EZMIGRATIONS_PROJECT_PATH)\nWrite-Host ('Repo: ' + (Get-Location))\n"@
}

pub fn powershell_bootstrap(ctx: &TerminalContext) -> (r: String)
    ensures
        r@ == powershell_script(*ctx),
{
    let mut out: Vec<char> = Vec::new();
    push_str(&mut out, "$env:EZMIGRATIONS_MCP_URL = ");
    let q = ps_quote(ctx.mcp_url);
    push_str(&mut out, q.as_str());
    push_str(&mut out, "\n$env:EZMIGRATIONS_MCP_PORT_FILE = ");
    let q = ps_quote(ctx.port_file_path);
    push_str(&mut out, q.as_str());
    push_str(&mut out, "\n$env:EZMIGRATIONS_PROJECT_PATH = ");
    let q = ps_quote(ctx.project_path);
    push_str(&mut out, q.as_str());
    push_str(&mut out, "\n$env:EZMIGRATIONS_AGENT_CLI = ");
    let q = ps_quote(ctx.agent_cli);
    push_str(&mut out, q.as_str());
    push_str(&mut out, "\nSet-Location -LiteralPath ");
    let q = ps_quote(ctx.repo_path);
    push_str(&mut out, q.as_str());
    push_str(&mut out, "\n\n$agentStatus = 'MCP client CLI not found on PATH; MCP URL exported for manual setup.'\nif (Get-Command $env:EZMIGRATIONS_AGENT_CLI -ErrorAction SilentlyContinue) {\n  & $env:EZMIGRATIONS_AGENT_CLI mcp add --scope local --transport http ezmigrations $env:EZMIGRATIONS_MCP_URL *> $null\n  if ($LASTEXITCODE -eq 0) {\n    $agentStatus = 'MCP client: ezmigrations registered for this repo'\n  } else {\n    $checkName = 'ezmigrations-check-' + $PID\n    & $env:EZMIGRATIONS_AGENT_CLI mcp add --scope local --transport http $checkName $env:EZMIGRATIONS_MCP_URL *> $null\n    if ($LASTEXITCODE -eq 0) {\n      & $env:EZMIGRATIONS_AGENT_CLI mcp remove --scope local $checkName *> $null\n      & $env:EZMIGRATIONS_AGENT_CLI mcp remove --scope local ezmigrations *> $null\n      & $env:EZMIGRATIONS_AGENT_CLI mcp add --scope local --transport http ezmigrations $env:EZMIGRATIONS_MCP_URL *> $null\n      if ($LASTEXITCODE -eq 0) {\n        $agentStatus = 'MCP client: ezmigrations registered for this repo'\n      } else {\n        $agentStatus = 'MCP client: replacement failed after validation; run: ' + $env:EZMIGRATIONS_AGENT_CLI + ' mcp add --scope local --transport http ezmigrations ' + $env:EZMIGRATIONS_MCP_URL\n      }\n    } else {\n      $agentStatus = 'MCP client: registration failed; existing ezmigrations entry left unchanged'\n    }\n  }\n}\n\nClear-Host\nWrite-Host 'ezMigrations MCP ready' -ForegroundColor Green\nWrite-Host $agentStatus\nWrite-Host ('MCP URL: ' + $env:EZMIGRATIONS_MCP_URL)\nWrite-Host ('Project: ' + $env:EZMIGRATIONS_PROJECT_PATH)\nWrite-Host ('Repo: ' + (Get-Location))\n");
    string_of(out.as_slice())
}

/// The Command Prompt form of the bootstrap script.
pub open spec fn cmd_script(ctx: TerminalContext) -> Seq<char> {
    "@echo off\nsetlocal EnableExtensions EnableDelayedExpansion\ncd /d \""@
        + cmd_escaped(ctx.repo_path@)
        + "\"\nset \"EZMIGRATIONS_MCP_URL="@
        + cmd_escaped(ctx.mcp_url@)
        + "\"\nset \"EZMIGRATIONS_MCP_PORT_FILE="@
        + cmd_escaped(ctx.port_file_path@)
        + "\"\nset \"EZMIGRATIONS_PROJECT_PATH="@
        + cmd_escaped(ctx.project_path@)
        + "\"\nset \"EZMIGRATIONS_AGENT_CLI="@
        + cmd_escaped(ctx.agent_cli@)
        + "\"\n\nset \"AGENT_STATUS=MCP client CLI not found on PATH; MCP URL exported for manual setup.\"\nwhere \"%EZMIGRATIONS_AGENT_CLI%\" >nul 2>nul\nif errorlevel 1 (\n  rem The MCP client CLI is not installed or not on PATH.\n) else (\n  \"%EZMIGRATIONS_AGENT_CLI%\" mcp add --scope local --transport http ezmigrations \"%EZMIGRATIONS_MCP_URL%\" >nul 2>nul\n  if errorlevel 1 (\n    set \"CHECK_NAME=ezmigrations-check-%RANDOM%\"\n    \"%EZMIGRATIONS_AGENT_CLI%\" mcp add --scope local --transport http \"!CHECK_NAME!\" \"%EZMIGRATIONS_MCP_URL%\" >nul 2>nul\n    if errorlevel 1 (\n      set \"AGENT_STATUS=MCP client: registration failed; existing ezmigrations entry left unchanged\"\n    ) else (\n      \"%EZMIGRATIONS_AGENT_CLI%\" mcp remove --scope local \"!CHECK_NAME!\" >nul 2>nul\n      \"%EZMIGRATIONS_AGENT_CLI%\" mcp remove --scope local ezmigrations >nul 2>nul\n      \"%EZMIGRATIONS_AGENT_CLI%\" mcp add --scope local --transport http ezmigrations \"%EZMIGRATIONS_MCP_URL%\" >nul 2>nul\n      if errorlevel 1 (\n        set \"AGENT_STATUS=MCP client: replacement failed after validation; run: %EZMIGRATIONS_AGENT_CLI% mcp add --scope local --transport http ezmigrations %EZMIGRATIONS_MCP_URL%\"\n      ) else (\n        set \"AGENT_STATUS=MCP client: ezmigrations registered for this repo\"\n      )\n    )\n  ) else (\n    set \"AGENT_STATUS=MCP client: ezmigrations registered for this repo\"\n  )\n)\n\ncls\necho ezMigrations MCP ready\necho !AGENT_STATUS!\necho MCP URL: %EZMIGRATIONS_MCP_URL%\necho Project: %EZMIGRATIONS_PROJECT_PATH%\necho Repo: %CD%\n"@
}

pub fn cmd_bootstrap(ctx: &TerminalContext) -> (r: String)
    ensures
        r@ == cmd_script(*ctx),
{
    let mut out: Vec<char> = Vec::new();
    push_str(&mut out, "@echo off\nsetlocal EnableExtensions EnableDelayedExpansion\ncd /d \"");
    let q = cmd_value(ctx.repo_path);
    push_str(&mut out, q.as_str());
    push_str(&mut out, "\"\nset \"EZMIGRATIONS_MCP_URL=");
    let q = cmd_value(ctx.mcp_url);
    push_str(&mut out, q.as_str());
    push_str(&mut out, "\"\nset \"EZMIGRATIONS_MCP_PORT_FILE=");
    let q = cmd_value(ctx.port_file_path);
    push_str(&mut out, q.as_str());
    push_str(&mut out, "\"\nset \"EZMIGRATIONS_PROJECT_PATH=");
    let q = cmd_value(ctx.project_path);
    push_str(&mut out, q.as_str());
    push_str(&mut out, "\"\nset \"EZMIGRATIONS_AGENT_CLI=");
    let q = cmd_value(ctx.agent_cli);
    push_str(&mut out, q.as_str());
    push_str(&mut out, "\"\n\nset \"AGENT_STATUS=MCP client CLI not found on PATH; MCP URL exported for manual setup.\"\nwhere \"%EZMIGRATIONS_AGENT_CLI%\" >nul 2>nul\nif errorlevel 1 (\n  rem The MCP client CLI is not installed or not on PATH.\n) else (\n  \"%EZMIGRATIONS_AGENT_CLI%\" mcp add --scope local --transport http ezmigrations \"%EZMIGRATIONS_MCP_URL%\" >nul 2>nul\n  if errorlevel 1 (\n    set \"CHECK_NAME=ezmigrations-check-%RANDOM%\"\n    \"%EZMIGRATIONS_AGENT_CLI%\" mcp add --scope local --transport http \"!CHECK_NAME!\" \"%EZMIGRATIONS_MCP_URL%\" >nul 2>nul\n    if errorlevel 1 (\n      set \"AGENT_STATUS=MCP client: registration failed; existing ezmigrations entry left unchanged\"\n    ) else (\n      \"%EZMIGRATIONS_AGENT_CLI%\" mcp remove --scope local \"!CHECK_NAME!\" >nul 2>nul\n      \"%EZMIGRATIONS_AGENT_CLI%\" mcp remove --scope local ezmigrations >nul 2>nul\n      \"%EZMIGRATIONS_AGENT_CLI%\" mcp add --scope local --transport http ezmigrations \"%EZMIGRATIONS_MCP_URL%\" >nul 2>nul\n      if errorlevel 1 (\n        set \"AGENT_STATUS=MCP client: replacement failed after validation; run: %EZMIGRATIONS_AGENT_CLI% mcp add --scope local --transport http ezmigrations %EZMIGRATIONS_MCP_URL%\"\n      ) else (\n        set \"AGENT_STATUS=MCP client: ezmigrations registered for this repo\"\n      )\n    )\n  ) else (\n    set \"AGENT_STATUS=MCP client: ezmigrations registered for this repo\"\n  )\n)\n\ncls\necho ezMigrations MCP ready\necho !AGENT_STATUS!\necho MCP URL: %EZMIGRATIONS_MCP_URL%\necho Project: %EZMIGRATIONS_PROJECT_PATH%\necho Repo: %CD%\n");
    string_of(out.as_slice())
}

/// The file name a bootstrap script is written under (in the temp dir).
pub open spec fn bootstrap_name(pid: nat, unix_ms: nat, extension: Seq<char>) -> Seq<char> {
    "ezmigrations-mcp-"@ + decimal(pid) + "-"@ + decimal(unix_ms) + "."@ + extension
}

pub fn bootstrap_file_name(pid: u32, unix_ms: u128, extension: &str) -> (r: String)
    ensures
        r@ == bootstrap_name(pid as nat, unix_ms as nat, extension@),
{
    let mut out = chars_of("ezmigrations-mcp-");
    push_decimal(&mut out, pid as u128);
    push_str(&mut out, "-");
    push_decimal(&mut out, unix_ms);
    push_str(&mut out, ".");
    push_str(&mut out, extension);
    string_of(out.as_slice())
}

// ─── Which terminal to start ────────────────────────────────────────

/// One way to start a terminal: the program, its arguments, whether it
/// starts in the repository, and the name reported when it starts.
#[derive(Debug, Clone)]
pub struct TerminalLaunch {
    pub label: String,
    pub program: String,
    pub args: Vec<String>,
    pub in_repo: bool,
}

pub open spec fn launch(label: Seq<char>, program: Seq<char>, args: Seq<Seq<char>>, in_repo: bool) -> (
    Seq<char>,
    Seq<char>,
    Seq<Seq<char>>,
    bool,
) {
    (label, program, args, in_repo)
}

pub open spec fn launches_view(v: Seq<TerminalLaunch>) -> Seq<(Seq<char>, Seq<char>, Seq<Seq<char>>, bool)> {
    v.map_values(|l: TerminalLaunch| (l.label@, l.program@, strings_view(l.args@), l.in_repo))
}

pub open spec fn unknown_kind(kind: Seq<char>) -> Seq<char> {
    "Unknown terminal option: "@ + kind
}

fn strings(parts: &[&str]) -> (r: Vec<String>)
    ensures
        r@.len() == parts@.len(),
        forall|i: int| 0 <= i < parts@.len() ==> #[trigger] r@[i]@ == parts@[i]@,
{
    let mut out: Vec<String> = Vec::new();
    for i in 0..parts.len()
        invariant
            out@.len() == i,
            forall|k: int| 0 <= k < i ==> #[trigger] out@[k]@ == parts@[k]@,
    {
        out.push(String::from_str(parts[i]));
    }
    out
}

fn make_launch(label: &str, program: &str, args: Vec<String>) -> (r: TerminalLaunch)
    ensures
        r.label@ == label@,
        r.program@ == program@,
        r.args@ == args@,
        r.in_repo,
{
    TerminalLaunch { label: String::from_str(label), program: String::from_str(program), args, in_repo: true }
}

pub open spec fn gnome_launch(repo: Seq<char>, script: Seq<char>) -> (Seq<char>, Seq<char>, Seq<Seq<char>>, bool) {
    launch("GNOME Terminal"@, "gnome-terminal"@, seq!["--working-directory"@, repo, "--"@, "bash"@, script], true)
}

pub open spec fn konsole_launch(repo: Seq<char>, script: Seq<char>) -> (Seq<char>, Seq<char>, Seq<Seq<char>>, bool) {
    launch("Konsole"@, "konsole"@, seq!["--workdir"@, repo, "-e"@, "bash"@, script], true)
}

pub open spec fn xterm_launch(script: Seq<char>) -> (Seq<char>, Seq<char>, Seq<Seq<char>>, bool) {
    launch("xterm"@, "xterm"@, seq!["-e"@, "bash"@, script], true)
}

/// The programs tried, in order, to open terminal `kind` on Linux: for
/// the system default, `$TERMINAL` (when set) then GNOME Terminal, Konsole
/// and xterm; otherwise the one asked for. The first that starts is used.
pub open spec fn linux_plan(
    kind: Seq<char>,
    repo: Seq<char>,
    script: Seq<char>,
    env_terminal: Option<Seq<char>>,
) -> Result<Seq<(Seq<char>, Seq<char>, Seq<Seq<char>>, bool)>, Seq<char>> {
    if kind == "system"@ {
        let fallbacks = seq![gnome_launch(repo, script), konsole_launch(repo, script), xterm_launch(script)];
        match env_terminal {
            Some(t) => Ok(seq![launch(t, t, seq!["-e"@, "bash"@, script], true)] + fallbacks),
            None => Ok(fallbacks),
        }
    } else if kind == "gnome"@ || kind == "gnome_terminal"@ {
        Ok(seq![gnome_launch(repo, script)])
    } else if kind == "konsole"@ {
        Ok(seq![konsole_launch(repo, script)])
    } else if kind == "xterm"@ {
        Ok(seq![xterm_launch(script)])
    } else {
        Err(unknown_kind(kind))
    }
}

pub fn linux_terminal_plan(kind: &str, repo: &str, script: &str, env_terminal: Option<&str>) -> (r: Result<
    Vec<TerminalLaunch>,
    String,
>)
    ensures
        match r {
            Ok(v) => linux_plan(kind@, repo@, script@, crate::dotnet::opt_str(env_terminal)) == Ok::<
                Seq<(Seq<char>, Seq<char>, Seq<Seq<char>>, bool)>,
                Seq<char>,
            >(launches_view(v@)),
            Err(e) => linux_plan(kind@, repo@, script@, crate::dotnet::opt_str(env_terminal)) == Err::<
                Seq<(Seq<char>, Seq<char>, Seq<Seq<char>>, bool)>,
                Seq<char>,
            >(e@),
        },
{
    let k = chars_of(kind);
    let gnome = make_launch("GNOME Terminal", "gnome-terminal", strings(&["--working-directory", repo, "--", "bash", script]));
    let konsole = make_launch("Konsole", "konsole", strings(&["--workdir", repo, "-e", "bash", script]));
    let xterm = make_launch("xterm", "xterm", strings(&["-e", "bash", script]));
    let ghost g = (gnome.label@, gnome.program@, strings_view(gnome.args@), gnome.in_repo);
    let ghost ko = (konsole.label@, konsole.program@, strings_view(konsole.args@), konsole.in_repo);
    let ghost x = (xterm.label@, xterm.program@, strings_view(xterm.args@), xterm.in_repo);
    assert(strings_view(gnome.args@) =~= seq!["--working-directory"@, repo@, "--"@, "bash"@, script@]);
    assert(strings_view(konsole.args@) =~= seq!["--workdir"@, repo@, "-e"@, "bash"@, script@]);
    assert(strings_view(xterm.args@) =~= seq!["-e"@, "bash"@, script@]);
    assert(g == gnome_launch(repo@, script@));
    assert(ko == konsole_launch(repo@, script@));
    assert(x == xterm_launch(script@));
    let mut v: Vec<TerminalLaunch> = Vec::new();
    if eq_str(k.as_slice(), "system") {
        let ghost mut head: Seq<(Seq<char>, Seq<char>, Seq<Seq<char>>, bool)> = Seq::empty();
        match env_terminal {
            Some(t) => {
                let l = make_launch(t, t, strings(&["-e", "bash", script]));
                assert(strings_view(l.args@) =~= seq!["-e"@, "bash"@, script@]);
                proof {
                    head = seq![launch(t@, t@, seq!["-e"@, "bash"@, script@], true)];
                }
                v.push(l);
                assert(launches_view(v@) =~= head);
            },
            None => {
                assert(launches_view(v@) =~= head);
            },
        }
        v.push(gnome);
        v.push(konsole);
        v.push(xterm);
        assert(launches_view(v@) =~= head + seq![g, ko, x]);
    } else if eq_str(k.as_slice(), "gnome") || eq_str(k.as_slice(), "gnome_terminal") {
        v.push(gnome);
        assert(launches_view(v@) =~= seq![g]);
    } else if eq_str(k.as_slice(), "konsole") {
        v.push(konsole);
        assert(launches_view(v@) =~= seq![ko]);
    } else if eq_str(k.as_slice(), "xterm") {
        v.push(xterm);
        assert(launches_view(v@) =~= seq![x]);
    } else {
        let mut out = chars_of("Unknown terminal option: ");
        push_str(&mut out, kind);
        return Err(string_of(out.as_slice()));
    }
    Ok(v)
}

/// The AppleScript that runs `script` in a new window of `app`.
pub open spec fn iterm_script(app: Seq<char>, command: Seq<char>) -> Seq<Seq<char>> {
    seq![
        "tell application \""@ + app + "\""@,
        "activate"@,
        "create window with default profile command "@ + apple_quoted(command),
        "end tell"@,
    ]
}

/// The AppleScript alternatives tried, in order, to open terminal `kind` on
/// macOS running the bootstrap at `script`, and the name reported.
pub open spec fn macos_plan(kind: Seq<char>, script: Seq<char>) -> Result<(Seq<Seq<Seq<char>>>, Seq<char>), Seq<char>> {
    let command = "clear; /bin/bash "@ + sh_quoted(script);
    if kind == "system"@ || kind == "terminal"@ {
        Ok(
            (
                seq![seq!["tell application \"Terminal\""@, "do script "@ + apple_quoted(command), "activate"@, "end tell"@]],
                "Terminal"@,
            ),
        )
    } else if kind == "iterm"@ || kind == "iterm2"@ {
        Ok((seq![iterm_script("iTerm2"@, command), iterm_script("iTerm"@, command)], "iTerm2"@))
    } else {
        Err(unknown_kind(kind))
    }
}

pub open spec fn scripts_view(v: Seq<Vec<String>>) -> Seq<Seq<Seq<char>>> {
    v.map_values(|x: Vec<String>| strings_view(x@))
}

fn iterm_lines(app: &str, quoted_command: &str) -> (r: Vec<String>)
    ensures
        strings_view(r@) == seq![
            "tell application \""@ + app@ + "\""@,
            "activate"@,
            "create window with default profile command "@ + quoted_command@,
            "end tell"@,
        ],
{
    let mut first = chars_of("tell application \"");
    push_str(&mut first, app);
    push_str(&mut first, "\"");
    let mut third = chars_of("create window with default profile command ");
    push_str(&mut third, quoted_command);
    let mut v: Vec<String> = Vec::new();
    v.push(string_of(first.as_slice()));
    v.push(String::from_str("activate"));
    v.push(string_of(third.as_slice()));
    v.push(String::from_str("end tell"));
    assert(strings_view(v@) =~= seq![
        "tell application \""@ + app@ + "\""@,
        "activate"@,
        "create window with default profile command "@ + quoted_command@,
        "end tell"@,
    ]);
    v
}

pub fn macos_terminal_plan(kind: &str, script: &str) -> (r: Result<(Vec<Vec<String>>, String), String>)
    ensures
        match r {
            Ok((v, label)) => macos_plan(kind@, script@) == Ok::<(Seq<Seq<Seq<char>>>, Seq<char>), Seq<char>>(
                (scripts_view(v@), label@),
            ),
            Err(e) => macos_plan(kind@, script@) == Err::<(Seq<Seq<Seq<char>>>, Seq<char>), Seq<char>>(e@),
        },
{
    let k = chars_of(kind);
    let mut command = chars_of("clear; /bin/bash ");
    let q = sh_quote(script);
    push_str(&mut command, q.as_str());
    let command = string_of(command.as_slice());
    let quoted = apple_string(command.as_str());
    if eq_str(k.as_slice(), "system") || eq_str(k.as_slice(), "terminal") {
        let mut second = chars_of("do script ");
        push_str(&mut second, quoted.as_str());
        let mut lines: Vec<String> = Vec::new();
        lines.push(String::from_str("tell application \"Terminal\""));
        lines.push(string_of(second.as_slice()));
        lines.push(String::from_str("activate"));
        lines.push(String::from_str("end tell"));
        let ghost lv = strings_view(lines@);
        let mut all: Vec<Vec<String>> = Vec::new();
        all.push(lines);
        assert(scripts_view(all@) =~= seq![lv]);
        assert(lv =~= seq!["tell application \"Terminal\""@, "do script "@ + quoted@, "activate"@, "end tell"@]);
        Ok((all, String::from_str("Terminal")))
    } else if eq_str(k.as_slice(), "iterm") || eq_str(k.as_slice(), "iterm2") {
        let a = iterm_lines("iTerm2", quoted.as_str());
        let b = iterm_lines("iTerm", quoted.as_str());
        let ghost av = strings_view(a@);
        let ghost bv = strings_view(b@);
        let mut all: Vec<Vec<String>> = Vec::new();
        all.push(a);
        all.push(b);
        assert(scripts_view(all@) =~= seq![av, bv]);
        Ok((all, String::from_str("iTerm2")))
    } else {
        let mut out = chars_of("Unknown terminal option: ");
        push_str(&mut out, kind);
        Err(string_of(out.as_slice()))
    }
}

pub open spec fn powershell_launch(repo: Seq<char>, ps_script: Seq<char>) -> (Seq<char>, Seq<char>, Seq<Seq<char>>, bool) {
    launch("PowerShell"@, "powershell.exe"@, seq!["-NoExit"@, "-ExecutionPolicy"@, "Bypass"@, "-File"@, ps_script], true)
}

/// The programs tried, in order, to open terminal `kind` on Windows: for
/// the system default Windows Terminal (started with the repository as
/// its directory), then PowerShell; otherwise the one asked for. The
/// Command Prompt runs `cmd_script`, the others `ps_script`.
pub open spec fn windows_plan(
    kind: Seq<char>,
    repo: Seq<char>,
    ps_script: Seq<char>,
    cmd_script: Seq<char>,
) -> Result<Seq<(Seq<char>, Seq<char>, Seq<Seq<char>>, bool)>, Seq<char>> {
    if kind == "system"@ || kind == "windows_terminal"@ || kind == "wt"@ {
        Ok(
            seq![
                launch(
                    "Windows Terminal"@,
                    "wt"@,
                    seq!["-d"@, repo, "powershell.exe"@, "-NoExit"@, "-ExecutionPolicy"@, "Bypass"@, "-File"@, ps_script],
                    false,
                ),
                powershell_launch(repo, ps_script),
            ],
        )
    } else if kind == "powershell"@ {
        Ok(seq![powershell_launch(repo, ps_script)])
    } else if kind == "cmd"@ {
        Ok(seq![launch("Command Prompt"@, "cmd.exe"@, seq!["/K"@, cmd_script], true)])
    } else {
        Err(unknown_kind(kind))
    }
}

/// Whether terminal `kind` on Windows runs the Command Prompt script.
pub fn wants_cmd_script(kind: &str) -> (b: bool)
    ensures
        b == (kind@ == "cmd"@),
{
    eq_str(chars_of(kind).as_slice(), "cmd")
}

pub fn windows_terminal_plan(kind: &str, repo: &str, ps_script: &str, cmd_script: &str) -> (r: Result<
    Vec<TerminalLaunch>,
    String,
>)
    ensures
        match r {
            Ok(v) => windows_plan(kind@, repo@, ps_script@, cmd_script@) == Ok::<
                Seq<(Seq<char>, Seq<char>, Seq<Seq<char>>, bool)>,
                Seq<char>,
            >(launches_view(v@)),
            Err(e) => windows_plan(kind@, repo@, ps_script@, cmd_script@) == Err::<
                Seq<(Seq<char>, Seq<char>, Seq<Seq<char>>, bool)>,
                Seq<char>,
            >(e@),
        },
{
    let k = chars_of(kind);
    let ps = make_launch("PowerShell", "powershell.exe", strings(&["-NoExit", "-ExecutionPolicy", "Bypass", "-File", ps_script]));
    let ghost pv = (ps.label@, ps.program@, strings_view(ps.args@), ps.in_repo);
    assert(strings_view(ps.args@) =~= seq!["-NoExit"@, "-ExecutionPolicy"@, "Bypass"@, "-File"@, ps_script@]);
    assert(pv == powershell_launch(repo@, ps_script@));
    let mut v: Vec<TerminalLaunch> = Vec::new();
    if eq_str(k.as_slice(), "system") || eq_str(k.as_slice(), "windows_terminal") || eq_str(k.as_slice(), "wt") {
        let mut wt = make_launch("Windows Terminal", "wt", strings(&["-d", repo, "powershell.exe", "-NoExit", "-ExecutionPolicy", "Bypass", "-File", ps_script]));
        wt.in_repo = false;
        let ghost wv = (wt.label@, wt.program@, strings_view(wt.args@), wt.in_repo);
        assert(strings_view(wt.args@) =~= seq!["-d"@, repo@, "powershell.exe"@, "-NoExit"@, "-ExecutionPolicy"@, "Bypass"@, "-File"@, ps_script@]);
        v.push(wt);
        v.push(ps);
        assert(launches_view(v@) =~= seq![wv, pv]);
    } else if eq_str(k.as_slice(), "powershell") {
        v.push(ps);
        assert(launches_view(v@) =~= seq![pv]);
    } else if eq_str(k.as_slice(), "cmd") {
        let c = make_launch("Command Prompt", "cmd.exe", strings(&["/K", cmd_script]));
        let ghost cv = (c.label@, c.program@, strings_view(c.args@), c.in_repo);
        assert(strings_view(c.args@) =~= seq!["/K"@, cmd_script@]);
        v.push(c);
        assert(launches_view(v@) =~= seq![cv]);
    } else {
        let mut out = chars_of("Unknown terminal option: ");
        push_str(&mut out, kind);
        return Err(string_of(out.as_slice()));
    }
    Ok(v)
}

} // verus!
