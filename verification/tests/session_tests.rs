use git_pre_conflict_core::conflict::ConflictType;
use git_pre_conflict_core::git::GitQuery;
use git_pre_conflict_core::session::{CheckAction, CheckSession, CheckStage};
use git_pre_conflict_core::AppError;

fn ok(out: &str, code: i32) -> Result<(String, i32), AppError> {
    Ok((out.to_string(), code))
}

fn expect_run(a: CheckAction) -> GitQuery {
    match a {
        CheckAction::Run(q) => q,
        CheckAction::Done(_) => panic!("expected another command"),
    }
}

#[test]
fn full_check_with_fetch_and_remote_ref() {
    let (mut s, a) = CheckSession::new("main", false);
    assert!(matches!(expect_run(a), GitQuery::GitDir));
    let q = expect_run(s.advance(ok(".git\n", 0)));
    assert!(matches!(q, GitQuery::CurrentBranch));
    match expect_run(s.advance(ok("feature\n", 0))) {
        GitQuery::Fetch(t) => assert_eq!(t, "main"),
        _ => panic!("expected a fetch"),
    }
    assert!(matches!(s.stage, CheckStage::Fetching(_)));
    // A failed fetch is passed over.
    match expect_run(s.advance(Err(AppError::GitCommand("offline".to_string())))) {
        GitQuery::VerifyRef(name) => assert_eq!(name, "origin/main"),
        _ => panic!("expected a ref check"),
    }
    match expect_run(s.advance(ok("abc\n", 0))) {
        GitQuery::MergeTree(ours, theirs) => {
            assert_eq!(ours, "feature");
            assert_eq!(theirs, "origin/main");
        }
        _ => panic!("expected the merge"),
    }
    let out = "tree\nCONFLICT (add/add): Merge conflict in a.txt\n";
    match s.advance(ok(out, 1)) {
        CheckAction::Done(Ok(r)) => {
            assert_eq!(r.current_branch, "feature");
            assert_eq!(r.target_ref, "origin/main");
            assert_eq!(r.file_count(), 1);
            assert_eq!(r.conflicted_files[0].conflict_type, ConflictType::AddAdd);
        }
        _ => panic!("expected a report"),
    }
    assert!(matches!(s.stage, CheckStage::Finished));
}

#[test]
fn check_without_fetch_falls_back_to_local_ref() {
    let (mut s, _) = CheckSession::new("dev", true);
    s.advance(ok(".git", 0));
    match expect_run(s.advance(ok("topic", 0))) {
        GitQuery::VerifyRef(name) => assert_eq!(name, "origin/dev"),
        _ => panic!("expected a ref check"),
    }
    match expect_run(s.advance(ok("", 128))) {
        GitQuery::VerifyRef(name) => assert_eq!(name, "dev"),
        _ => panic!("expected the local ref check"),
    }
    match expect_run(s.advance(ok("", 0))) {
        GitQuery::MergeTree(ours, theirs) => {
            assert_eq!(ours, "topic");
            assert_eq!(theirs, "dev");
        }
        _ => panic!("expected the merge"),
    }
    match s.advance(ok("tree\n", 0)) {
        CheckAction::Done(Ok(r)) => assert!(r.is_clean()),
        _ => panic!("expected a clean report"),
    }
}

#[test]
fn failures_end_the_check() {
    let (mut s, _) = CheckSession::new("main", true);
    match s.advance(ok("\n", 0)) {
        CheckAction::Done(Err(AppError::NotARepo)) => {}
        _ => panic!("expected not a repo"),
    }

    let (mut s, _) = CheckSession::new("main", true);
    s.advance(ok(".git", 0));
    match s.advance(ok("HEAD\n", 0)) {
        CheckAction::Done(Err(e)) => {
            assert_eq!(e.message(), "git command failed: detached HEAD — cannot determine current branch")
        }
        _ => panic!("expected detached HEAD"),
    }

    let (mut s, _) = CheckSession::new("nope", true);
    s.advance(ok(".git", 0));
    s.advance(ok("b", 0));
    s.advance(ok("", 1));
    match s.advance(ok("", 1)) {
        CheckAction::Done(Err(AppError::GitCommand(m))) => {
            assert_eq!(m, "cannot resolve ref: nope (tried origin/nope and nope)")
        }
        _ => panic!("expected unresolved ref"),
    }

    let (mut s, _) = CheckSession::new("main", true);
    match s.advance(Err(AppError::GitCommand("git missing".to_string()))) {
        CheckAction::Done(Err(AppError::GitCommand(m))) => assert_eq!(m, "git missing"),
        _ => panic!("expected the run's error"),
    }

    let (mut s, _) = CheckSession::new("main", true);
    s.advance(ok(".git", 0));
    s.advance(ok("b", 0));
    s.advance(ok("", 0));
    match s.advance(ok("", 2)) {
        CheckAction::Done(Err(AppError::GitCommand(m))) => {
            assert_eq!(m, "git merge-tree exited with unexpected code 2")
        }
        _ => panic!("expected unexpected code"),
    }
}

#[test]
fn fetch_outcome_does_not_change_the_report() {
    let out = "tree\nCONFLICT (content): Merge conflict in a.txt\n";
    let run = |no_fetch: bool, fetch_fails: bool| {
        let (mut s, _) = CheckSession::new("main", no_fetch);
        s.advance(ok(".git", 0));
        let mut a = s.advance(ok("feature", 0));
        if let CheckAction::Run(GitQuery::Fetch(_)) = a {
            a = if fetch_fails {
                s.advance(Err(AppError::GitCommand("offline".to_string())))
            } else {
                s.advance(ok("", 0))
            };
        }
        assert!(matches!(a, CheckAction::Run(GitQuery::VerifyRef(_))));
        let a = s.advance(ok("", 0));
        assert!(matches!(a, CheckAction::Run(GitQuery::MergeTree(_, _))));
        match s.advance(ok(out, 1)) {
            CheckAction::Done(Ok(r)) => {
                assert_eq!(r.current_branch, "feature");
                assert_eq!(r.target_ref, "origin/main");
                r.conflicted_files
            }
            _ => panic!("expected a report"),
        }
    };
    let direct = run(true, false);
    assert_eq!(run(false, false), direct);
    assert_eq!(run(false, true), direct);
}
