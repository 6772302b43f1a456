use ez_migrations::terminal::{
    apple_string, bootstrap_file_name, cmd_value, linux_terminal_plan, macos_terminal_plan,
    normalize_kind, powershell_bootstrap, ps_quote, sh_quote, shell_bootstrap, wants_cmd_script,
    windows_terminal_plan, TerminalContext,
};

fn ctx() -> TerminalContext<'static> {
    TerminalContext {
        repo_path: "/tmp/repo with spaces",
        project_path: "/tmp/repo with spaces/App.Data",
        mcp_url: "http://127.0.0.1:12345/mcp",
        port_file_path: "/tmp/ezmigrations/mcp-port.json",
        agent_cli: "mcp-client",
    }
}

#[test]
fn shell_bootstrap_uses_real_shell_parameter_expansion() {
    let script = shell_bootstrap(&ctx());
    assert!(script.contains(r#"exec "${SHELL:-/bin/bash}" -l"#));
    assert!(!script.contains("${{SHELL"));
}

#[test]
fn shell_bootstrap_quotes_paths_with_spaces() {
    let script = shell_bootstrap(&ctx());
    assert!(script.contains("cd '/tmp/repo with spaces' || exit 1"));
    assert!(script.contains("export EZMIGRATIONS_PROJECT_PATH='/tmp/repo with spaces/App.Data'"));
}

#[test]
fn shell_bootstrap_validates_before_replacing_existing_agent_entry() {
    let script = shell_bootstrap(&ctx());
    let first_add = script
        .find(r#""$EZMIGRATIONS_AGENT_CLI" mcp add --scope local --transport http ezmigrations "$EZMIGRATIONS_MCP_URL""#)
        .expect("direct add should be attempted first");
    let first_remove = script
        .find(r#""$EZMIGRATIONS_AGENT_CLI" mcp remove --scope local ezmigrations >/dev/null 2>&1"#)
        .expect("existing entry may be removed after validation");
    assert!(first_add < first_remove);
    assert!(script.contains(r#"check_name="ezmigrations-check-$$""#));
    assert!(script.contains("export EZMIGRATIONS_AGENT_CLI='mcp-client'"));
}

#[test]
fn sh_quote_escapes_single_quotes() {
    assert_eq!(sh_quote("it's"), r#"'it'"'"'s'"#);
    assert_eq!(sh_quote(""), "''");
}

#[test]
fn other_quotings_escape_their_specials() {
    assert_eq!(apple_string("a\\b\"c\nd"), r#""a\\b\"c\nd""#);
    assert_eq!(ps_quote("it's"), "'it''s'");
    assert_eq!(cmd_value(r#"50% & "x"|<y>^"#), r#"50%% ^& ""x""^|^<y^>^^"#);
}

#[test]
fn powershell_bootstrap_sets_location_and_variables() {
    let script = powershell_bootstrap(&ctx());
    assert!(script.starts_with("$env:EZMIGRATIONS_MCP_URL = 'http://127.0.0.1:12345/mcp'\n"));
    assert!(script.contains("Set-Location -LiteralPath '/tmp/repo with spaces'\n"));
}

#[test]
fn kind_defaults_to_system() {
    assert_eq!(normalize_kind("  "), "system");
    assert_eq!(normalize_kind(" konsole "), "konsole");
}

#[test]
fn linux_system_choice_tries_terminal_env_then_known_terminals() {
    let plan = linux_terminal_plan("system", "/r", "/t/s.sh", Some("alacritty")).unwrap();
    let labels: Vec<&str> = plan.iter().map(|l| l.label.as_str()).collect();
    assert_eq!(labels, vec!["alacritty", "GNOME Terminal", "Konsole", "xterm"]);
    assert_eq!(plan[1].args, vec!["--working-directory", "/r", "--", "bash", "/t/s.sh"]);
    assert_eq!(plan[0].args, vec!["-e", "bash", "/t/s.sh"]);
    let plan = linux_terminal_plan("system", "/r", "/t/s.sh", None).unwrap();
    assert_eq!(plan.len(), 3);
}

#[test]
fn unknown_terminal_choice_is_refused() {
    assert_eq!(
        linux_terminal_plan("foot", "/r", "/s", None).err().unwrap(),
        "Unknown terminal option: foot"
    );
    assert!(macos_terminal_plan("hyper", "/s").is_err());
    assert!(windows_terminal_plan("mintty", "/r", "p.ps1", "c.cmd").is_err());
}

#[test]
fn macos_iterm_falls_back_to_the_older_app_name() {
    let (scripts, label) = macos_terminal_plan("iterm", "/t/s.sh").unwrap();
    assert_eq!(label, "iTerm2");
    assert_eq!(scripts.len(), 2);
    assert_eq!(scripts[0][0], "tell application \"iTerm2\"");
    assert_eq!(scripts[1][0], "tell application \"iTerm\"");
    assert_eq!(scripts[0][2], r#"create window with default profile command "clear; /bin/bash '/t/s.sh'""#);
}

#[test]
fn windows_default_tries_windows_terminal_then_powershell() {
    let plan = windows_terminal_plan("", "C:\\r", "p.ps1", "c.cmd");
    assert!(plan.is_err());
    let plan = windows_terminal_plan("system", "C:\\r", "p.ps1", "c.cmd").unwrap();
    assert_eq!(plan[0].program, "wt");
    assert!(!plan[0].in_repo);
    assert_eq!(plan[1].program, "powershell.exe");
    let plan = windows_terminal_plan("cmd", "C:\\r", "p.ps1", "c.cmd").unwrap();
    assert_eq!(plan[0].args, vec!["/K", "c.cmd"]);
    assert!(wants_cmd_script("cmd"));
    assert!(!wants_cmd_script("wt"));
}

#[test]
fn bootstrap_file_names_carry_pid_and_time() {
    assert_eq!(bootstrap_file_name(42, 1700000000123, "sh"), "ezmigrations-mcp-42-1700000000123.sh");
}
