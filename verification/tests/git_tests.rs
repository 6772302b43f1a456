use ez_migrations::git::{GitOutput, GitService};

#[test]
fn local_name_strips_single_remote_segment() {
    assert_eq!(GitService::local_name_from_remote_branch("origin/main"), "main");
}

#[test]
fn local_name_strips_only_first_segment_for_nested_branch() {
    assert_eq!(GitService::local_name_from_remote_branch("origin/feature/foo"), "feature/foo");
}

#[test]
fn local_name_returns_input_when_no_slash() {
    assert_eq!(GitService::local_name_from_remote_branch("main"), "main");
}

#[test]
fn list_branches_sorts_locals_then_remotes_without_head() {
    let out = "refs/heads/main\tmain\nrefs/heads/dev\tdev\nrefs/remotes/origin/HEAD\torigin/HEAD\nrefs/remotes/origin/main\torigin/main\nrefs/remotes/origin/dev\torigin/dev\nrefs/heads/dev\tdev\nrefs/remotes/origin\torigin\n";
    let branches = GitService::list_branches(out);
    assert_eq!(
        branches,
        vec![
            ("dev".to_string(), false),
            ("main".to_string(), false),
            ("origin".to_string(), true),
            ("origin/dev".to_string(), true),
            ("origin/main".to_string(), true),
        ]
    );
}

#[test]
fn list_branches_ignores_lines_without_a_short_name() {
    let branches = GitService::list_branches("refs/heads/x\n\nrefs/tags/v1\tv1\n  refs/heads/y \t y \n");
    assert_eq!(branches, vec![("y".to_string(), false)]);
}

#[test]
fn list_files_at_ref_trims_and_drops_blank_lines() {
    let files = GitService::list_files_at_ref("a/M1.cs\n\n  a/M2.cs  \r\n");
    assert_eq!(files, vec!["a/M1.cs".to_string(), "a/M2.cs".to_string()]);
}

#[test]
fn remotes_and_clean_tree_are_read_from_output() {
    assert!(GitService::has_remotes("origin\n"));
    assert!(!GitService::has_remotes("  \n"));
    assert!(GitService::is_working_tree_clean(""));
    assert!(!GitService::is_working_tree_clean(" M src/a.rs\n"));
}

#[test]
fn pathspec_uses_forward_slashes() {
    assert_eq!(GitService::normalize_pathspec("src\\Data\\Migrations"), "src/Data/Migrations");
}

#[test]
fn checkout_prefers_local_then_existing_counterpart_then_tracking() {
    assert_eq!(GitService::checkout_args("main", true, false, false), vec!["checkout", "main"]);
    assert_eq!(GitService::checkout_args("origin/feat/x", false, true, true), vec!["checkout", "feat/x"]);
    assert_eq!(
        GitService::checkout_args("origin/feat/x", false, true, false),
        vec!["checkout", "--track", "origin/feat/x"]
    );
    assert_eq!(GitService::checkout_args("abc123", false, false, false), vec!["checkout", "abc123"]);
}

#[test]
fn git_runs_report_trimmed_output_or_the_failed_command() {
    let args = vec!["status".to_string(), "--porcelain".to_string()];
    let ok = GitOutput { success: true, stdout: "  out \n".to_string(), stderr: String::new() };
    assert_eq!(GitService::run_git(&args, &ok).unwrap(), "out");
    let bad = GitOutput { success: false, stdout: String::new(), stderr: "fatal: nope\n".to_string() };
    assert_eq!(GitService::run_git(&args, &bad).unwrap_err(), "git status --porcelain failed: fatal: nope");
}

#[test]
fn ref_names_are_spelled_out() {
    assert_eq!(GitService::commit_ref("main"), "main^{commit}");
    assert_eq!(GitService::local_branch_ref("main"), "refs/heads/main");
    assert_eq!(GitService::remote_branch_ref("origin/main"), "refs/remotes/origin/main");
}

#[test]
fn fetch_refuses_without_remotes() {
    assert_eq!(
        GitService::fetch_args("  \n"),
        Err("No git remotes are configured for this repository.".to_string())
    );
    assert_eq!(
        GitService::fetch_args("origin\n"),
        Ok(vec!["fetch".to_string(), "--all".to_string(), "--prune".to_string()])
    );
}
