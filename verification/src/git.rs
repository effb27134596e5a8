//! The git commands the tool runs, and what their results mean. Running them is left
//! to the caller: these functions say which command to run and interpret what came back.

use vstd::prelude::*;

use crate::error::AppError;
use crate::text::{
    chars_to_string, int_text, lines, next_line, push_signed, str_chars, trim, trim_chars,
};

verus! {

/// What `git merge-tree --write-tree` printed, and whether it reported conflicts.
pub struct MergeTreeResult {
    /// Everything git printed on standard output.
    pub stdout: String,
    /// Whether git reported conflicts (exit code 1).
    pub has_conflicts: bool,
}

/// The questions the tool puts to git.
pub enum GitQuery {
    /// Where the repository's git directory is.
    GitDir,
    /// Which branch is checked out.
    CurrentBranch,
    /// Fetch a branch from `origin`.
    Fetch(String),
    /// Whether a ref exists.
    VerifyRef(String),
    /// Merge the second ref into the first without touching the work tree.
    MergeTree(String, String),
    /// All local and remote branches.
    Branches,
    /// The best common ancestor of two refs.
    MergeBase(String, String),
    /// The changes to one file (the third) between two commits.
    DiffFile(String, String, String),
}

/// One run of git: the arguments, the repository to run in (`None`: the current
/// directory), and whether a failing exit status is still a result.
pub struct GitInvocation {
    pub repo_path: Option<String>,
    pub args: Vec<String>,
    pub allow_failure: bool,
}

/// The views of a list of strings.
pub open spec fn texts_view(v: Seq<String>) -> Seq<Seq<char>> {
    v.map_values(|s: String| s@)
}

/// The arguments git gets for a query.
pub open spec fn query_args(q: GitQuery) -> Seq<Seq<char>> {
    match q {
        GitQuery::GitDir => seq!["rev-parse"@, "--git-dir"@],
        GitQuery::CurrentBranch => seq!["rev-parse"@, "--abbrev-ref"@, "HEAD"@],
        GitQuery::Fetch(target) => seq!["fetch"@, "origin"@, target@],
        GitQuery::VerifyRef(name) => seq!["rev-parse"@, "--verify"@, name@],
        GitQuery::MergeTree(ours, theirs) => seq!["merge-tree"@, "--write-tree"@, ours@, theirs@],
        GitQuery::Branches => seq!["branch"@, "-a"@, "--format=%(refname:short)"@],
        GitQuery::MergeBase(ours, theirs) => seq!["merge-base"@, ours@, theirs@],
        GitQuery::DiffFile(base, target, path) => seq!["diff"@, base@, target@, "--"@, path@],
    }
}

/// Whether a query's answer is still read when git exits with a failure status:
/// only for checking that a ref exists and for the merge simulation.
pub open spec fn query_allows_failure(q: GitQuery) -> bool {
    q is VerifyRef || q is MergeTree
}

fn texts(a: &str, b: &str) -> (v: Vec<String>)
    ensures
        texts_view(v@) == seq![a@, b@],
{
    let v = vec![String::from_str(a), String::from_str(b)];
    assert(texts_view(v@) =~= seq![a@, b@]);
    v
}

fn push_text(v: &mut Vec<String>, s: String)
    ensures
        texts_view(final(v)@) == texts_view(old(v)@).push(s@),
{
    v.push(s);
    assert(texts_view(v@) =~= texts_view(old(v)@).push(s@));
}

/// The git run that answers `query` in the repository at `repo_path`.
pub fn git_invocation(repo_path: Option<&str>, query: &GitQuery) -> (inv: GitInvocation)
    ensures
        texts_view(inv.args@) == query_args(*query),
        inv.allow_failure == query_allows_failure(*query),
        repo_path is None ==> inv.repo_path is None,
        repo_path matches Some(p) ==> inv.repo_path matches Some(q) && q@ == p@,
{
    let mut args = match query {
        GitQuery::GitDir => texts("rev-parse", "--git-dir"),
        GitQuery::CurrentBranch => texts("rev-parse", "--abbrev-ref"),
        GitQuery::Fetch(_) => texts("fetch", "origin"),
        GitQuery::VerifyRef(_) => texts("rev-parse", "--verify"),
        GitQuery::MergeTree(_, _) => texts("merge-tree", "--write-tree"),
        GitQuery::Branches => texts("branch", "-a"),
        GitQuery::MergeBase(ours, _) => texts("merge-base", ours.as_str()),
        GitQuery::DiffFile(base, _, _) => texts("diff", base.as_str()),
    };
    match query {
        GitQuery::GitDir => {},
        GitQuery::CurrentBranch => push_text(&mut args, String::from_str("HEAD")),
        GitQuery::Fetch(target) => push_text(&mut args, target.clone()),
        GitQuery::VerifyRef(name) => push_text(&mut args, name.clone()),
        GitQuery::MergeTree(ours, theirs) => {
            push_text(&mut args, ours.clone());
            push_text(&mut args, theirs.clone());
        },
        GitQuery::Branches => push_text(&mut args, String::from_str("--format=%(refname:short)")),
        GitQuery::MergeBase(_, theirs) => push_text(&mut args, theirs.clone()),
        GitQuery::DiffFile(_, target, path) => {
            push_text(&mut args, target.clone());
            push_text(&mut args, String::from_str("--"));
            push_text(&mut args, path.clone());
        },
    }
    assert(texts_view(args@) =~= query_args(*query));
    let allow_failure = match query {
        GitQuery::VerifyRef(_) => true,
        GitQuery::MergeTree(_, _) => true,
        _ => false,
    };
    let repo = match repo_path {
        Some(p) => Some(String::from_str(p)),
        None => None,
    };
    GitInvocation { repo_path: repo, args, allow_failure }
}

/// The words joined with single spaces.
pub open spec fn join_words(words: Seq<Seq<char>>) -> Seq<char>
    decreases words.len(),
{
    if words.len() == 0 {
        seq![]
    } else if words.len() == 1 {
        words[0]
    } else {
        join_words(words.drop_last()) + seq![' '] + words.last()
    }
}

impl GitInvocation {
    /// The arguments to start git with: `-C <repo>` first when a repository is named.
    pub fn command_line(&self) -> (v: Vec<String>)
        ensures
            self.repo_path is None ==> texts_view(v@) == texts_view(self.args@),
            self.repo_path matches Some(p) ==> texts_view(v@) == seq!["-C"@, p@] + texts_view(
                self.args@,
            ),
    {
        let mut v: Vec<String> = Vec::new();
        match &self.repo_path {
            Some(p) => {
                v.push(String::from_str("-C"));
                v.push(p.clone());
            },
            None => {},
        }
        let ghost start = texts_view(v@);
        let mut i: usize = 0;
        while i < self.args.len()
            invariant
                i <= self.args@.len(),
                texts_view(v@) =~= start + texts_view(self.args@).take(i as int),
            decreases self.args@.len() - i,
        {
            let ghost before = texts_view(v@);
            let c = self.args[i].clone();
            assert(c@ == self.args@[i as int]@);
            v.push(c);
            assert(texts_view(v@) =~= before.push(c@));
            proof {
                assert(texts_view(self.args@).take(i + 1) =~= texts_view(self.args@).take(
                    i as int,
                ).push(self.args@[i as int]@));
            }
            i = i + 1;
        }
        assert(texts_view(self.args@).take(self.args@.len() as int) =~= texts_view(self.args@));
        v
    }

    fn joined_args(&self) -> (s: String)
        ensures
            s@ == join_words(texts_view(self.args@)),
    {
        let mut s = String::new();
        let mut i: usize = 0;
        while i < self.args.len()
            invariant
                i <= self.args@.len(),
                s@ == join_words(texts_view(self.args@).take(i as int)),
            decreases self.args@.len() - i,
        {
            if i > 0 {
                s.append(" ");
            }
            s.append(self.args[i].as_str());
            proof {
                let w = texts_view(self.args@);
                assert(w.take(i + 1).drop_last() =~= w.take(i as int));
                reveal_strlit(" ");
                if i == 0 {
                    assert(s@ =~= w.take(1)[0]);
                } else {
                    assert(s@ =~= join_words(w.take(i as int)) + seq![' '] + w.take(i + 1).last());
                }
            }
            i = i + 1;
        }
        assert(texts_view(self.args@).take(self.args@.len() as int) =~= texts_view(self.args@));
        s
    }
}

/// The exit code recorded for a run: the process's code, or -1 when it had none
/// (killed by a signal).
pub open spec fn exit_code(code: Option<i32>) -> i32 {
    match code {
        Some(c) => c,
        None => -1i32,
    }
}

/// The message of a failed git run.
pub open spec fn failure_text(args: Seq<Seq<char>>, code: i32, stderr: Seq<char>) -> Seq<char> {
    "git "@ + join_words(args) + " exited "@ + int_text(code as int) + ": "@ + stderr
}

/// What a finished git run yields: its output and exit code, or, when it failed and
/// the invocation does not allow that, an error quoting the command, the code and
/// what git printed on standard error.
pub fn git_outcome(
    inv: &GitInvocation,
    success: bool,
    code: Option<i32>,
    stdout: String,
    stderr: String,
) -> (r: Result<(String, i32), AppError>)
    ensures
        (!inv.allow_failure && !success) ==> (r matches Err(AppError::GitCommand(m)) && m@
            == failure_text(texts_view(inv.args@), exit_code(code), stderr@)),
        (inv.allow_failure || success) ==> (r matches Ok((out, c)) && out == stdout && c == exit_code(
            code,
        )),
{
    let c: i32 = match code {
        Some(c) => c,
        None => -1,
    };
    if !inv.allow_failure && !success {
        let mut m = String::from_str("git ");
        let joined = inv.joined_args();
        m.append(joined.as_str());
        m.append(" exited ");
        push_signed(&mut m, c);
        m.append(": ");
        m.append(stderr.as_str());
        return Err(AppError::GitCommand(m));
    }
    Ok((stdout, c))
}

/// The error for a git process that could not be started at all.
pub fn launch_failure(reason: &str) -> (e: AppError)
    ensures
        e matches AppError::GitCommand(m) && m@ == "failed to run git: "@ + reason@,
{
    let mut m = String::from_str("failed to run git: ");
    m.append(reason);
    AppError::GitCommand(m)
}

fn trimmed(s: &str) -> (r: (String, usize))
    ensures
        r.0@ == trim(s@),
        r.1 == trim(s@).len(),
{
    let chars = str_chars(s);
    let t = trim_chars(chars.as_slice());
    (chars_to_string(t), t.len())
}

/// The git directory named by the output of `git rev-parse --git-dir`; empty output
/// means there is no repository.
pub fn find_git_dir(stdout: &str) -> (r: Result<String, AppError>)
    ensures
        trim(stdout@).len() == 0 ==> (r matches Err(AppError::NotARepo)),
        trim(stdout@).len() > 0 ==> (r matches Ok(dir) && dir@ == trim(stdout@)),
{
    let (dir, n) = trimmed(stdout);
    if n == 0 {
        return Err(AppError::NotARepo);
    }
    Ok(dir)
}

/// The branch named by the output of `git rev-parse --abbrev-ref HEAD`; empty output
/// or `HEAD` itself means no branch is checked out.
pub fn current_branch(stdout: &str) -> (r: Result<String, AppError>)
    ensures
        (trim(stdout@).len() == 0 || trim(stdout@) == "HEAD"@) ==> (r matches Err(
            AppError::GitCommand(m),
        ) && m@ == "detached HEAD — cannot determine current branch"@),
        !(trim(stdout@).len() == 0 || trim(stdout@) == "HEAD"@) ==> (r matches Ok(b) && b@ == trim(
            stdout@,
        )),
{
    let (branch, n) = trimmed(stdout);
    let head = String::from_str("HEAD");
    if n == 0 || branch == head {
        return Err(
            AppError::GitCommand(String::from_str("detached HEAD — cannot determine current branch")),
        );
    }
    Ok(branch)
}

/// The commit named by the output of `git merge-base`.
pub fn merge_base(stdout: &str) -> (r: String)
    ensures
        r@ == trim(stdout@),
{
    trimmed(stdout).0
}

/// The result of fetching: the run's outcome with its output dropped.
pub fn fetch_origin(outcome: Result<(String, i32), AppError>) -> (r: Result<(), AppError>)
    ensures
        outcome is Ok <==> r is Ok,
        outcome matches Err(e) ==> r == Err::<(), AppError>(e),
{
    match outcome {
        Ok(_) => Ok(()),
        Err(e) => Err(e),
    }
}

/// Which form of the target a ref check was about.
pub enum RefCandidate {
    /// `origin/<target>`.
    Remote,
    /// `<target>` itself.
    Local,
}

/// What to do next while resolving a target ref.
pub enum ResolveAction {
    /// Check that this ref exists (`git rev-parse --verify`), then report the exit code.
    Verify(String, RefCandidate),
    /// The target resolves to this ref.
    Resolved(String),
    /// Neither form of the target exists.
    Failed(AppError),
}

/// The remote-tracking form of a target.
pub open spec fn remote_ref(target: Seq<char>) -> Seq<char> {
    "origin/"@ + target
}

/// The remote-tracking form of any target is `origin/` followed by the whole target.
pub proof fn lemma_remote_ref_form(target: Seq<char>)
    ensures
        remote_ref(target) == "origin/"@ + target,
        remote_ref(target).len() == "origin/"@.len() + target.len(),
        remote_ref(target).skip("origin/"@.len() as int) == target,
{
    assert(("origin/"@ + target).skip("origin/"@.len() as int) =~= target);
}

/// The remote-tracking form of a target, `origin/<target>`.
pub fn remote_ref_name(target: &str) -> (r: String)
    ensures
        r@ == remote_ref(target@),
{
    let mut name = String::from_str("origin/");
    name.append(target);
    name
}

/// Resolves a target to a ref, preferring `origin/<target>` and falling back on
/// `<target>`. Start with no probe; after each `Verify` action, call again with the
/// candidate and the exit code of the check (0: the ref exists).
pub fn resolve_target_ref(target: &str, probe: Option<(RefCandidate, i32)>) -> (a: ResolveAction)
    ensures
        probe is None ==> (a matches ResolveAction::Verify(name, RefCandidate::Remote) && name@
            == "origin/"@ + target@),
        probe is None ==> (a matches ResolveAction::Verify(name, RefCandidate::Remote) && name@
            == remote_ref(target@)),
        probe matches Some((RefCandidate::Remote, 0i32)) ==> (a matches ResolveAction::Resolved(r)
            && r@ == remote_ref(target@) && r@ == "origin/"@ + target@),
        probe matches Some((RefCandidate::Remote, c)) && c != 0 ==> (a matches ResolveAction::Verify(
            name,
            RefCandidate::Local,
        ) && name@ == target@),
        probe matches Some((RefCandidate::Local, 0i32)) ==> (a matches ResolveAction::Resolved(r)
            && r@ == target@),
        probe matches Some((RefCandidate::Local, c)) && c != 0 ==> (a matches ResolveAction::Failed(
            AppError::GitCommand(m),
        ) && m@ == "cannot resolve ref: "@ + target@ + " (tried origin/"@ + target@ + " and "@
            + target@ + ")"@),
{
    match probe {
        None => ResolveAction::Verify(remote_ref_name(target), RefCandidate::Remote),
        Some((RefCandidate::Remote, code)) => {
            if code == 0 {
                ResolveAction::Resolved(remote_ref_name(target))
            } else {
                ResolveAction::Verify(String::from_str(target), RefCandidate::Local)
            }
        },
        Some((RefCandidate::Local, code)) => {
            if code == 0 {
                ResolveAction::Resolved(String::from_str(target))
            } else {
                let mut m = String::from_str("cannot resolve ref: ");
                m.append(target);
                m.append(" (tried origin/");
                m.append(target);
                m.append(" and ");
                m.append(target);
                m.append(")");
                ResolveAction::Failed(AppError::GitCommand(m))
            }
        },
    }
}

/// The meaning of a `git merge-tree --write-tree` run: exit code 0 is a clean merge,
/// 1 a merge with conflicts, anything else an error.
pub fn merge_tree(stdout: String, code: i32) -> (r: Result<MergeTreeResult, AppError>)
    ensures
        code == 0 ==> (r matches Ok(m) && m.stdout == stdout && !m.has_conflicts),
        code == 1 ==> (r matches Ok(m) && m.stdout == stdout && m.has_conflicts),
        code != 0 && code != 1 ==> (r matches Err(AppError::GitCommand(m)) && m@
            == "git merge-tree exited with unexpected code "@ + int_text(code as int)),
{
    if code == 0 {
        Ok(MergeTreeResult { stdout, has_conflicts: false })
    } else if code == 1 {
        Ok(MergeTreeResult { stdout, has_conflicts: true })
    } else {
        let mut m = String::from_str("git merge-tree exited with unexpected code ");
        push_signed(&mut m, code);
        Err(AppError::GitCommand(m))
    }
}

/// Whether a trimmed line of `git branch -a` output names a branch to list.
pub open spec fn is_listed_branch(name: Seq<char>) -> bool {
    name.len() > 0 && name != "origin/HEAD"@
}

/// The branches that lines of `git branch -a --format=%(refname:short)` output name:
/// each line trimmed, empty lines and `origin/HEAD` left out, in order.
pub open spec fn branch_names(ls: Seq<Seq<char>>) -> Seq<Seq<char>>
    decreases ls.len(),
{
    if ls.len() == 0 {
        seq![]
    } else if is_listed_branch(trim(ls.last())) {
        branch_names(ls.drop_last()).push(trim(ls.last()))
    } else {
        branch_names(ls.drop_last())
    }
}

/// No listed branch is empty or `origin/HEAD`, and none has white space around it.
pub proof fn lemma_listed_branches_are_kept(ls: Seq<Seq<char>>)
    ensures
        forall|i: int|
            0 <= i < branch_names(ls).len() ==> is_listed_branch(#[trigger] branch_names(ls)[i]),
        forall|i: int|
            0 <= i < branch_names(ls).len() ==> (#[trigger] branch_names(ls)[i]).len() > 0
                && branch_names(ls)[i] != "origin/HEAD"@,
        forall|i: int|
            #![trigger branch_names(ls)[i]]
            0 <= i < branch_names(ls).len() ==> exists|j: int|
                0 <= j < ls.len() && trim(#[trigger] ls[j]) == branch_names(ls)[i],
    decreases ls.len(),
{
    if ls.len() > 0 {
        let prev = ls.drop_last();
        lemma_listed_branches_are_kept(prev);
        let b = branch_names(ls);
        assert forall|i: int| #![trigger b[i]] 0 <= i < b.len() implies exists|j: int|
            0 <= j < ls.len() && trim(#[trigger] ls[j]) == b[i] by {
            if i < branch_names(prev).len() {
                let j = choose|j: int| 0 <= j < prev.len() && trim(#[trigger] prev[j]) == branch_names(prev)[i];
                assert(ls[j] == prev[j]);
            } else {
                assert(trim(ls[ls.len() - 1]) == b[i]);
            }
        }
    }
}

/// Every line whose trimmed text is neither empty nor `origin/HEAD` is listed, as that
/// trimmed text; nothing else is left out.
pub proof fn lemma_every_branch_line_is_listed(ls: Seq<Seq<char>>)
    ensures
        forall|j: int|
            #![trigger ls[j]]
            0 <= j < ls.len() && trim(ls[j]).len() > 0 && trim(ls[j]) != "origin/HEAD"@ ==> exists|i: int|
                0 <= i < branch_names(ls).len() && #[trigger] branch_names(ls)[i] == trim(ls[j]),
    decreases ls.len(),
{
    if ls.len() > 0 {
        let prev = ls.drop_last();
        lemma_every_branch_line_is_listed(prev);
        let b = branch_names(ls);
        assert forall|j: int|
            #![trigger ls[j]]
            0 <= j < ls.len() && trim(ls[j]).len() > 0 && trim(ls[j]) != "origin/HEAD"@ implies exists|i: int|
                0 <= i < b.len() && #[trigger] b[i] == trim(ls[j]) by {
            if j == ls.len() - 1 {
                assert(b[b.len() - 1] == trim(ls[j]));
            } else {
                assert(prev[j] == ls[j]);
                let i = choose|i: int|
                    0 <= i < branch_names(prev).len() && #[trigger] branch_names(prev)[i] == trim(prev[j]);
                assert(b[i] == branch_names(prev)[i]);
            }
        }
    }
}

/// The branches listed by `git branch -a --format=%(refname:short)`.
pub fn list_branches(stdout: &str) -> (v: Vec<String>)
    ensures
        texts_view(v@) == branch_names(lines(stdout@)),
{
    let text = str_chars(stdout);
    let origin_head = str_chars("origin/HEAD");
    let mut v: Vec<String> = Vec::new();
    let mut rest: &[char] = text.as_slice();
    let ghost mut done: Seq<Seq<char>> = seq![];
    assert(done + lines(rest@) =~= lines(text@));
    while rest.len() > 0
        invariant
            done + lines(rest@) == lines(stdout@),
            texts_view(v@) == branch_names(done),
            origin_head@ == "origin/HEAD"@,
        decreases rest@.len(),
    {
        let (line, next) = next_line(rest);
        proof {
            assert(done.push(line@).drop_last() =~= done);
            assert(done.push(line@) + lines(next@) =~= done + lines(rest@));
        }
        let name = trim_chars(line);
        let keep = name.len() > 0 && match crate::text::compare_text(name, origin_head.as_slice()) {
            crate::text::TextOrder::Equal => false,
            _ => true,
        };
        let ghost before = texts_view(v@);
        if keep {
            v.push(chars_to_string(name));
            assert(texts_view(v@) =~= before.push(name@));
        }
        proof {
            done = done.push(line@);
        }
        rest = next;
    }
    assert(lines(rest@) =~= Seq::<Seq<char>>::empty());
    assert(done =~= lines(stdout@));
    v
}

} // verus!
