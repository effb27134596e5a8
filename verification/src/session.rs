//! One conflict check from start to finish, as a sequence of git runs. The caller runs
//! each command the session asks for and hands back the outcome; the session decides
//! what comes next and, at the end, yields the report or the error.

use vstd::prelude::*;

use crate::conflict::{lists_sorted, parse_merge_tree, reported_files, ConflictReport};
use crate::error::AppError;
use crate::git::{
    current_branch, find_git_dir, merge_tree, remote_ref, remote_ref_name, resolve_target_ref, GitQuery,
    RefCandidate, ResolveAction,
};
use crate::text::{int_text, trim};

verus! {

/// Where a check stands.
pub enum CheckStage {
    /// Waiting for `git rev-parse --git-dir`.
    FindingGitDir,
    /// Waiting for `git rev-parse --abbrev-ref HEAD`.
    ReadingBranch,
    /// Waiting for the fetch; holds the current branch.
    Fetching(String),
    /// Waiting for a ref check; holds the current branch and which form is checked.
    VerifyingRef(String, RefCandidate),
    /// Waiting for `git merge-tree`; holds the current branch and the target ref.
    Merging(String, String),
    /// Done.
    Finished,
}

/// A conflict check of the current branch against `target`.
pub struct CheckSession {
    pub target: String,
    pub no_fetch: bool,
    pub stage: CheckStage,
}

/// What the caller does next.
pub enum CheckAction {
    /// Run this git query and hand its outcome to `advance`.
    Run(GitQuery),
    /// The check is over.
    Done(Result<ConflictReport, AppError>),
}

/// Whether `a` checks that the ref `name` exists.
pub open spec fn runs_verify(a: CheckAction, name: Seq<char>) -> bool {
    match a {
        CheckAction::Run(GitQuery::VerifyRef(n)) => n@ == name,
        _ => false,
    }
}

/// Whether `a` simulates merging `theirs` into `ours`.
pub open spec fn runs_merge(a: CheckAction, ours: Seq<char>, theirs: Seq<char>) -> bool {
    match a {
        CheckAction::Run(GitQuery::MergeTree(o, t)) => o@ == ours && t@ == theirs,
        _ => false,
    }
}

/// Whether `a` fetches `target`.
pub open spec fn runs_fetch(a: CheckAction, target: Seq<char>) -> bool {
    match a {
        CheckAction::Run(GitQuery::Fetch(t)) => t@ == target,
        _ => false,
    }
}

/// Whether `a` ends the check with a git command error with this message.
pub open spec fn fails_with(a: CheckAction, message: Seq<char>) -> bool {
    match a {
        CheckAction::Done(Err(AppError::GitCommand(m))) => m@ == message,
        _ => false,
    }
}

/// Whether the check waits for a ref check of the given form, on branch `branch`.
pub open spec fn verifying(st: CheckStage, branch: Seq<char>, remote: bool) -> bool {
    match st {
        CheckStage::VerifyingRef(b, c) => b@ == branch && (c is Remote) == remote,
        _ => false,
    }
}

/// Whether the check waits for the fetch, on branch `branch`.
pub open spec fn fetching(st: CheckStage, branch: Seq<char>) -> bool {
    match st {
        CheckStage::Fetching(b) => b@ == branch,
        _ => false,
    }
}

/// Whether the check waits for the merge of `target_ref` into `branch`.
pub open spec fn merging(st: CheckStage, branch: Seq<char>, target_ref: Seq<char>) -> bool {
    match st {
        CheckStage::Merging(b, t) => b@ == branch && t@ == target_ref,
        _ => false,
    }
}

/// The ref a found check resolves the target to.
pub open spec fn checked_ref(target: Seq<char>, remote: bool) -> Seq<char> {
    if remote {
        remote_ref(target)
    } else {
        target
    }
}

/// After the fetch, whatever its outcome: the remote form of the target is checked,
/// on the same branch.
pub open spec fn after_fetch(target: Seq<char>, branch: Seq<char>, a: CheckAction, st: CheckStage) -> bool {
    runs_verify(a, remote_ref(target)) && verifying(st, branch, true)
}

/// After the git directory is found: empty output means no repository, anything else
/// leads on to reading the branch.
pub open spec fn after_git_dir(out: Seq<char>, a: CheckAction, st: CheckStage) -> bool {
    if trim(out).len() == 0 {
        a matches CheckAction::Done(Err(AppError::NotARepo))
    } else {
        a matches CheckAction::Run(GitQuery::CurrentBranch) && st is ReadingBranch
    }
}

/// After the branch is read: a detached HEAD ends the check; otherwise the target is
/// fetched, or, without fetching, its remote form checked.
pub open spec fn after_branch(
    no_fetch: bool,
    target: Seq<char>,
    out: Seq<char>,
    a: CheckAction,
    st: CheckStage,
) -> bool {
    let b = trim(out);
    if b.len() == 0 || b == "HEAD"@ {
        fails_with(a, "detached HEAD — cannot determine current branch"@)
    } else if no_fetch {
        runs_verify(a, remote_ref(target)) && verifying(st, b, true)
    } else {
        runs_fetch(a, target) && fetching(st, b)
    }
}

/// After a ref check: a found ref is the target to merge; a missing remote form sends
/// the check to the target itself; a missing target fails the check.
pub open spec fn after_verify(
    target: Seq<char>,
    branch: Seq<char>,
    remote: bool,
    code: i32,
    a: CheckAction,
    st: CheckStage,
) -> bool {
    if code == 0 {
        runs_merge(a, branch, checked_ref(target, remote)) && merging(
            st,
            branch,
            checked_ref(target, remote),
        )
    } else if remote {
        runs_verify(a, target) && verifying(st, branch, false)
    } else {
        fails_with(
            a,
            "cannot resolve ref: "@ + target + " (tried origin/"@ + target + " and "@ + target
                + ")"@,
        )
    }
}

/// After the merge simulation: exit code 0 or 1 gives the report of its output, any
/// other code fails the check.
pub open spec fn after_merge(
    branch: Seq<char>,
    target_ref: Seq<char>,
    out: Seq<char>,
    code: i32,
    a: CheckAction,
) -> bool {
    if code == 0 || code == 1 {
        match a {
            CheckAction::Done(Ok(report)) => {
                &&& report@.current_branch == branch
                &&& report@.target_ref == target_ref
                &&& code == 0 ==> report@.conflicted_files.len() == 0
                &&& code == 1 ==> lists_sorted(report@.conflicted_files, reported_files(out))
            },
            _ => false,
        }
    } else {
        fails_with(a, "git merge-tree exited with unexpected code "@ + int_text(code as int))
    }
}

impl CheckSession {
    /// A check of the current branch against `target`, fetching first unless `no_fetch`;
    /// the first command to run finds the git directory.
    pub fn new(target: &str, no_fetch: bool) -> (r: (CheckSession, CheckAction))
        ensures
            r.0.target@ == target@,
            r.0.no_fetch == no_fetch,
            r.0.stage is FindingGitDir,
            r.1 matches CheckAction::Run(GitQuery::GitDir),
    {
        (
            CheckSession {
                target: String::from_str(target),
                no_fetch,
                stage: CheckStage::FindingGitDir,
            },
            CheckAction::Run(GitQuery::GitDir),
        )
    }

    /// Takes the outcome of the command last asked for and says what comes next.
    /// A failed command ends the check with its error, except the fetch, whose failure
    /// is passed over. The target resolves to `origin/<target>` when that ref exists,
    /// else to `<target>`; the merge simulation of the current branch with it gives the
    /// report.
    pub fn advance(&mut self, outcome: Result<(String, i32), AppError>) -> (a: CheckAction)
        requires
            !(old(self).stage is Finished),
        ensures
            final(self).target == old(self).target,
            final(self).no_fetch == old(self).no_fetch,
            final(self).stage is Finished <==> a is Done,
            // Any failing run but the fetch ends the check with its error.
            !(old(self).stage is Fetching) && outcome is Err ==> a == CheckAction::Done(
                Err::<ConflictReport, AppError>(outcome->Err_0),
            ),
            match (old(self).stage, outcome) {
                (CheckStage::FindingGitDir, Ok((out, _))) => after_git_dir(out@, a, final(self).stage),
                (CheckStage::ReadingBranch, Ok((out, _))) => after_branch(
                    old(self).no_fetch,
                    old(self).target@,
                    out@,
                    a,
                    final(self).stage,
                ),
                // The fetch's outcome, success or failure, changes nothing.
                (CheckStage::Fetching(b), _) => after_fetch(
                    old(self).target@,
                    b@,
                    a,
                    final(self).stage,
                ),
                (CheckStage::VerifyingRef(b, c), Ok((_, code))) => after_verify(
                    old(self).target@,
                    b@,
                    c is Remote,
                    code,
                    a,
                    final(self).stage,
                ),
                (CheckStage::Merging(b, t), Ok((out, code))) => after_merge(b@, t@, out@, code, a),
                _ => true,
            },
    {
        let mut stage = CheckStage::Finished;
        std::mem::swap(&mut stage, &mut self.stage);
        match stage {
            CheckStage::FindingGitDir => match outcome {
                Err(e) => CheckAction::Done(Err(e)),
                Ok((out, _)) => match find_git_dir(out.as_str()) {
                    Err(e) => CheckAction::Done(Err(e)),
                    Ok(_) => {
                        self.stage = CheckStage::ReadingBranch;
                        CheckAction::Run(GitQuery::CurrentBranch)
                    },
                },
            },
            CheckStage::ReadingBranch => match outcome {
                Err(e) => CheckAction::Done(Err(e)),
                Ok((out, _)) => match current_branch(out.as_str()) {
                    Err(e) => CheckAction::Done(Err(e)),
                    Ok(branch) => {
                        if self.no_fetch {
                            self.verify_remote(branch)
                        } else {
                            self.stage = CheckStage::Fetching(branch);
                            CheckAction::Run(GitQuery::Fetch(self.target.clone()))
                        }
                    },
                },
            },
            CheckStage::Fetching(branch) => self.verify_remote(branch),
            CheckStage::VerifyingRef(branch, candidate) => match outcome {
                Err(e) => CheckAction::Done(Err(e)),
                Ok((_, code)) => match resolve_target_ref(
                    self.target.as_str(),
                    Some((candidate, code)),
                ) {
                    ResolveAction::Verify(name, next) => {
                        self.stage = CheckStage::VerifyingRef(branch, next);
                        CheckAction::Run(GitQuery::VerifyRef(name))
                    },
                    ResolveAction::Resolved(target_ref) => {
                        let ours = branch.clone();
                        let theirs = target_ref.clone();
                        self.stage = CheckStage::Merging(branch, target_ref);
                        CheckAction::Run(GitQuery::MergeTree(ours, theirs))
                    },
                    ResolveAction::Failed(e) => CheckAction::Done(Err(e)),
                },
            },
            CheckStage::Merging(branch, target_ref) => match outcome {
                Err(e) => CheckAction::Done(Err(e)),
                Ok((out, code)) => match merge_tree(out, code) {
                    Err(e) => CheckAction::Done(Err(e)),
                    Ok(result) => CheckAction::Done(parse_merge_tree(&result, branch, target_ref)),
                },
            },
            CheckStage::Finished => CheckAction::Done(Err(AppError::NotARepo)),
        }
    }

    fn verify_remote(&mut self, branch: String) -> (a: CheckAction)
        ensures
            final(self).target == old(self).target,
            final(self).no_fetch == old(self).no_fetch,
            runs_verify(a, remote_ref(old(self).target@)),
            verifying(final(self).stage, branch@, true),
    {
        let name = remote_ref_name(self.target.as_str());
        self.stage = CheckStage::VerifyingRef(branch, RefCandidate::Remote);
        CheckAction::Run(GitQuery::VerifyRef(name))
    }
}


/// Fetching is best effort: once the branch is read, the check goes on to the same
/// remote ref check on the same branch whether it fetched (with any outcome) or not.
pub proof fn lemma_fetch_is_best_effort(
    target: Seq<char>,
    out: Seq<char>,
    a_fetch: CheckAction,
    st_fetch: CheckStage,
    a_after: CheckAction,
    st_after: CheckStage,
    a_direct: CheckAction,
    st_direct: CheckStage,
)
    requires
        after_branch(false, target, out, a_fetch, st_fetch),
        after_fetch(target, trim(out), a_after, st_after),
        after_branch(true, target, out, a_direct, st_direct),
        !(trim(out).len() == 0 || trim(out) == "HEAD"@),
    ensures
        runs_fetch(a_fetch, target),
        fetching(st_fetch, trim(out)),
        runs_verify(a_after, remote_ref(target)) && runs_verify(a_direct, remote_ref(target)),
        verifying(st_after, trim(out), true) && verifying(st_direct, trim(out), true),
{
}

/// A found ref leads to the merge of that ref into the current branch and nothing after
/// it: the check then ends, and when the merge simulation succeeds its report names the
/// current branch and the resolved target ref.
pub proof fn lemma_found_ref_ends_in_report(
    target: Seq<char>,
    branch: Seq<char>,
    remote: bool,
    a_verify: CheckAction,
    st_verify: CheckStage,
    out: Seq<char>,
    code: i32,
    a_merge: CheckAction,
)
    requires
        after_verify(target, branch, remote, 0, a_verify, st_verify),
        after_merge(branch, checked_ref(target, remote), out, code, a_merge),
    ensures
        runs_merge(a_verify, branch, checked_ref(target, remote)),
        merging(st_verify, branch, checked_ref(target, remote)),
        a_merge is Done,
        (code == 0 || code == 1) ==> (a_merge matches CheckAction::Done(Ok(report))
            && report@.current_branch == branch && report@.target_ref == checked_ref(
            target,
            remote,
        )),
{
}

} // verus!
