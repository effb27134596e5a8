use git_pre_conflict_core::git::{
    current_branch, fetch_origin, find_git_dir, git_invocation, git_outcome, launch_failure,
    list_branches, merge_tree, resolve_target_ref, GitQuery, RefCandidate, ResolveAction,
};
use git_pre_conflict_core::AppError;

fn message(e: &AppError) -> String {
    e.message()
}

#[test]
fn invocations_for_each_query() {
    let cases: Vec<(GitQuery, Vec<&str>, bool)> = vec![
        (GitQuery::GitDir, vec!["rev-parse", "--git-dir"], false),
        (GitQuery::CurrentBranch, vec!["rev-parse", "--abbrev-ref", "HEAD"], false),
        (GitQuery::Fetch("main".to_string()), vec!["fetch", "origin", "main"], false),
        (
            GitQuery::VerifyRef("origin/main".to_string()),
            vec!["rev-parse", "--verify", "origin/main"],
            true,
        ),
        (
            GitQuery::MergeTree("feature".to_string(), "origin/main".to_string()),
            vec!["merge-tree", "--write-tree", "feature", "origin/main"],
            true,
        ),
        (
            GitQuery::Branches,
            vec!["branch", "-a", "--format=%(refname:short)"],
            false,
        ),
    ];
    for (q, args, allow) in cases {
        let inv = git_invocation(None, &q);
        assert_eq!(inv.args, args);
        assert_eq!(inv.allow_failure, allow);
        assert_eq!(inv.repo_path, None);
        assert_eq!(inv.command_line(), args);
    }
}

#[test]
fn repository_goes_first() {
    let inv = git_invocation(Some("/tmp/repo"), &GitQuery::GitDir);
    assert_eq!(inv.repo_path, Some("/tmp/repo".to_string()));
    assert_eq!(inv.command_line(), vec!["-C", "/tmp/repo", "rev-parse", "--git-dir"]);
}

#[test]
fn failing_run_is_an_error() {
    let inv = git_invocation(None, &GitQuery::GitDir);
    let r = git_outcome(&inv, false, Some(128), String::new(), "fatal: not a git repository".to_string());
    match r {
        Err(AppError::GitCommand(m)) => {
            assert_eq!(m, "git rev-parse --git-dir exited 128: fatal: not a git repository")
        }
        _ => panic!("expected an error"),
    }
}

#[test]
fn killed_run_has_code_minus_one() {
    let inv = git_invocation(None, &GitQuery::Branches);
    let r = git_outcome(&inv, false, None, String::new(), "killed".to_string());
    match r {
        Err(e) => assert_eq!(
            message(&e),
            "git command failed: git branch -a --format=%(refname:short) exited -1: killed"
        ),
        _ => panic!("expected an error"),
    }
    let inv = git_invocation(None, &GitQuery::VerifyRef("x".to_string()));
    match git_outcome(&inv, false, None, "out".to_string(), String::new()) {
        Ok((out, code)) => {
            assert_eq!(out, "out");
            assert_eq!(code, -1);
        }
        Err(_) => panic!("failure is allowed here"),
    }
}

#[test]
fn successful_run_keeps_output() {
    let inv = git_invocation(None, &GitQuery::GitDir);
    match git_outcome(&inv, true, Some(0), ".git\n".to_string(), String::new()) {
        Ok((out, code)) => {
            assert_eq!(out, ".git\n");
            assert_eq!(code, 0);
        }
        Err(_) => panic!("expected success"),
    }
}

#[test]
fn launch_failure_message() {
    let e = launch_failure("No such file or directory (os error 2)");
    assert_eq!(
        message(&e),
        "git command failed: failed to run git: No such file or directory (os error 2)"
    );
}

#[test]
fn git_dir_from_output() {
    assert_eq!(find_git_dir("  .git \n").ok(), Some(".git".to_string()));
    assert!(matches!(find_git_dir(" \n"), Err(AppError::NotARepo)));
    assert_eq!(
        message(&find_git_dir("").unwrap_err()),
        "not a git repository (or any parent up to mount point)"
    );
}

#[test]
fn branch_from_output() {
    assert_eq!(current_branch("feature/x\n").ok(), Some("feature/x".to_string()));
    for out in ["HEAD\n", "", "  \n"] {
        match current_branch(out) {
            Err(AppError::GitCommand(m)) => {
                assert_eq!(m, "detached HEAD — cannot determine current branch")
            }
            _ => panic!("expected detached HEAD error"),
        }
    }
}

#[test]
fn fetch_drops_output() {
    assert!(fetch_origin(Ok(("x".to_string(), 0))).is_ok());
    let r = fetch_origin(Err(AppError::GitCommand("boom".to_string())));
    match r {
        Err(AppError::GitCommand(m)) => assert_eq!(m, "boom"),
        _ => panic!("expected the error back"),
    }
}

#[test]
fn resolve_prefers_remote() {
    match resolve_target_ref("main", None) {
        ResolveAction::Verify(name, RefCandidate::Remote) => assert_eq!(name, "origin/main"),
        _ => panic!("expected a remote check"),
    }
    match resolve_target_ref("main", Some((RefCandidate::Remote, 0))) {
        ResolveAction::Resolved(r) => assert_eq!(r, "origin/main"),
        _ => panic!("expected origin/main"),
    }
}

#[test]
fn resolve_falls_back_to_local() {
    match resolve_target_ref("main", Some((RefCandidate::Remote, 128))) {
        ResolveAction::Verify(name, RefCandidate::Local) => assert_eq!(name, "main"),
        _ => panic!("expected a local check"),
    }
    match resolve_target_ref("main", Some((RefCandidate::Local, 0))) {
        ResolveAction::Resolved(r) => assert_eq!(r, "main"),
        _ => panic!("expected main"),
    }
    match resolve_target_ref("main", Some((RefCandidate::Local, 1))) {
        ResolveAction::Failed(AppError::GitCommand(m)) => {
            assert_eq!(m, "cannot resolve ref: main (tried origin/main and main)")
        }
        _ => panic!("expected failure"),
    }
}

#[test]
fn merge_tree_exit_codes() {
    let r = merge_tree("tree\n".to_string(), 0).ok().unwrap();
    assert_eq!(r.stdout, "tree\n");
    assert!(!r.has_conflicts);
    let r = merge_tree("tree\n".to_string(), 1).ok().unwrap();
    assert!(r.has_conflicts);
    match merge_tree(String::new(), 128) {
        Err(AppError::GitCommand(m)) => {
            assert_eq!(m, "git merge-tree exited with unexpected code 128")
        }
        _ => panic!("expected an error"),
    }
    match merge_tree(String::new(), -2147483648) {
        Err(AppError::GitCommand(m)) => {
            assert_eq!(m, "git merge-tree exited with unexpected code -2147483648")
        }
        _ => panic!("expected an error"),
    }
}

#[test]
fn branches_are_listed() {
    let out = "main\n  feature/x \n\norigin/HEAD\norigin/main\r\n";
    assert_eq!(list_branches(out), vec!["main", "feature/x", "origin/main"]);
    assert!(list_branches("").is_empty());
}

#[test]
fn parse_error_message() {
    assert_eq!(
        message(&AppError::ParseError("bad".to_string())),
        "failed to parse git output: bad"
    );
    let io = AppError::from(std::io::Error::new(std::io::ErrorKind::Other, "disk"));
    assert_eq!(message(&io), "io error: disk");
}

#[test]
fn merge_base_and_diff_invocations() {
    let inv = git_invocation(None, &GitQuery::MergeBase("a".to_string(), "b".to_string()));
    assert_eq!(inv.args, vec!["merge-base", "a", "b"]);
    assert!(!inv.allow_failure);
    let inv = git_invocation(
        None,
        &GitQuery::DiffFile("base".to_string(), "origin/main".to_string(), "x y.txt".to_string()),
    );
    assert_eq!(inv.args, vec!["diff", "base", "origin/main", "--", "x y.txt"]);
    assert!(!inv.allow_failure);
    assert_eq!(git_pre_conflict_core::git::merge_base("  abc123\n"), "abc123");
}
