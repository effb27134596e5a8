//! The step-by-step guide for resolving predicted conflicts.

use vstd::prelude::*;

use crate::conflict::{details_view, ConflictDetail, ConflictType, DetailView};

verus! {

/// How to resolve the conflicts of a merge.
#[derive(Debug, Clone)]
pub struct ResolutionGuide {
    pub summary: String,
    pub commands: Vec<GuideStep>,
    pub per_file_advice: Vec<FileGuide>,
}

/// One step of a guide: what to do and the command that does it.
#[derive(Debug, Clone)]
pub struct GuideStep {
    pub description: String,
    pub command: String,
}

/// Advice for one conflicted file.
#[derive(Debug, Clone)]
pub struct FileGuide {
    pub path: String,
    pub conflict_type: ConflictType,
    pub advice: String,
}

/// A guide step as the contracts see it.
pub struct StepView {
    pub description: Seq<char>,
    pub command: Seq<char>,
}

/// File advice as the contracts see it.
pub struct FileGuideView {
    pub path: Seq<char>,
    pub conflict_type: ConflictType,
    pub advice: Seq<char>,
}

/// A guide as the contracts see it.
pub struct GuideView {
    pub summary: Seq<char>,
    pub commands: Seq<StepView>,
    pub per_file_advice: Seq<FileGuideView>,
}

impl View for GuideStep {
    type V = StepView;

    open spec fn view(&self) -> StepView {
        StepView { description: self.description@, command: self.command@ }
    }
}

impl View for FileGuide {
    type V = FileGuideView;

    open spec fn view(&self) -> FileGuideView {
        FileGuideView {
            path: self.path@,
            conflict_type: self.conflict_type,
            advice: self.advice@,
        }
    }
}

impl View for ResolutionGuide {
    type V = GuideView;

    open spec fn view(&self) -> GuideView {
        GuideView {
            summary: self.summary@,
            commands: self.commands@.map_values(|s: GuideStep| s@),
            per_file_advice: self.per_file_advice@.map_values(|f: FileGuide| f@),
        }
    }
}

/// The two ways out of a keep-or-delete conflict at `p`.
pub open spec fn keep_or_delete(p: Seq<char>) -> Seq<char> {
    "`git add "@ + p + "`"@ + " to keep the file, or "@ + "`git rm "@ + p + "`"@
        + " to delete it."@
}

fn push_keep_or_delete(s: &mut String, path: &str)
    ensures
        final(s)@ == old(s)@ + keep_or_delete(path@),
{
    s.append("`git add ");
    s.append(path);
    s.append("`");
    s.append(" to keep the file, or ");
    s.append("`git rm ");
    s.append(path);
    s.append("`");
    s.append(" to delete it.");
    assert(final(s)@ =~= old(s)@ + keep_or_delete(path@));
}

/// The advice for a conflicted file of the given kind at `p`.
pub open spec fn advice_text(t: ConflictType, p: Seq<char>) -> Seq<char> {
    match t {
        ConflictType::Content => "Both branches modified '"@ + p
            + "'. Open the file and look for <<<<<<< / ======= / >>>>>>> markers. Edit the file to keep the correct changes, then save."@,
        ConflictType::AddAdd => "Both branches added '"@ + p
            + "'. Decide which version to keep, or merge the contents manually."@,
        ConflictType::ModifyDelete => "One branch modified '"@ + p
            + "' while the other deleted it. Run "@ + keep_or_delete(p),
        ConflictType::DeleteModify => "One branch deleted '"@ + p
            + "' while the other modified it. Run "@ + keep_or_delete(p),
        ConflictType::RenameDelete => "One branch renamed '"@ + p
            + "' while the other deleted it. Decide whether to keep the renamed file or accept the deletion."@,
        ConflictType::RenameRename => "Both branches renamed '"@ + p
            + "' to different names. Choose the correct name and update accordingly."@,
        ConflictType::DirectoryFile => "A directory/file conflict exists at '"@ + p
            + "'. One branch has a file where the other has a directory. Reorganize as needed."@,
        ConflictType::Unknown => "Resolve '"@ + p
            + "' manually. Open the file and look for conflict markers if present."@,
    }
}

fn text3(a: &str, b: &str, c: &str) -> (s: String)
    ensures
        s@ == a@ + b@ + c@,
{
    let mut s = String::from_str(a);
    s.append(b);
    s.append(c);
    s
}

/// Human-readable advice for a conflicted file of the given kind.
pub fn advice_for_type(conflict_type: &ConflictType, path: &str) -> (s: String)
    ensures
        s@ == advice_text(*conflict_type, path@),
{
    match conflict_type {
        ConflictType::Content => text3(
            "Both branches modified '",
            path,
            "'. Open the file and look for <<<<<<< / ======= / >>>>>>> markers. Edit the file to keep the correct changes, then save.",
        ),
        ConflictType::AddAdd => text3(
            "Both branches added '",
            path,
            "'. Decide which version to keep, or merge the contents manually.",
        ),
        ConflictType::ModifyDelete => {
            let mut s = text3("One branch modified '", path, "' while the other deleted it. Run ");
            push_keep_or_delete(&mut s, path);
            s
        },
        ConflictType::DeleteModify => {
            let mut s = text3("One branch deleted '", path, "' while the other modified it. Run ");
            push_keep_or_delete(&mut s, path);
            s
        },
        ConflictType::RenameDelete => text3(
            "One branch renamed '",
            path,
            "' while the other deleted it. Decide whether to keep the renamed file or accept the deletion.",
        ),
        ConflictType::RenameRename => text3(
            "Both branches renamed '",
            path,
            "' to different names. Choose the correct name and update accordingly.",
        ),
        ConflictType::DirectoryFile => text3(
            "A directory/file conflict exists at '",
            path,
            "'. One branch has a file where the other has a directory. Reorganize as needed.",
        ),
        ConflictType::Unknown => text3(
            "Resolve '",
            path,
            "' manually. Open the file and look for conflict markers if present.",
        ),
    }
}

/// The one-line summary of a guide.
pub open spec fn summary_text(current_branch: Seq<char>, target_ref: Seq<char>) -> Seq<char> {
    "To resolve: merge "@ + target_ref + " into your working branch ("@ + current_branch + ")."@
}

/// The step that resolves the conflict in `p`.
pub open spec fn resolve_step(p: Seq<char>) -> StepView {
    StepView { description: "Resolve conflict in "@ + p, command: "git add "@ + p }
}

/// The commands of a guide: check out the working branch, fetch, start the merge,
/// resolve each conflicted file in turn, commit.
pub open spec fn guide_steps(
    current_branch: Seq<char>,
    target_ref: Seq<char>,
    conflicts: Seq<DetailView>,
) -> Seq<StepView> {
    seq![
        StepView {
            description: "Make sure you are on your working branch"@,
            command: "git checkout "@ + current_branch,
        },
        StepView { description: "Fetch latest changes from remote"@, command: "git fetch origin"@ },
        StepView {
            description: "Start the merge (this will show conflicts)"@,
            command: "git merge "@ + target_ref,
        },
    ] + conflicts.map_values(|d: DetailView| resolve_step(d.path)) + seq![
        StepView { description: "Complete the merge"@, command: "git commit"@ },
    ]
}

/// The advice of a guide for each conflicted file, in the order given.
pub open spec fn file_advice(conflicts: Seq<DetailView>) -> Seq<FileGuideView> {
    conflicts.map_values(
        |d: DetailView|
            FileGuideView {
                path: d.path,
                conflict_type: d.conflict_type,
                advice: advice_text(d.conflict_type, d.path),
            },
    )
}

/// The guide for resolving `conflicts` when merging `target_ref` into `current_branch`.
pub fn generate_resolution_guide(
    current_branch: &str,
    target_ref: &str,
    conflicts: &[ConflictDetail],
) -> (g: ResolutionGuide)
    ensures
        g@.summary == summary_text(current_branch@, target_ref@),
        g@.commands == guide_steps(current_branch@, target_ref@, details_view(conflicts@)),
        g@.per_file_advice == file_advice(details_view(conflicts@)),
        g@.per_file_advice.len() == conflicts@.len(),
        forall|i: int|
            0 <= i < conflicts@.len() ==> {
                &&& (#[trigger] g@.per_file_advice[i]).path == conflicts@[i].path@
                &&& g@.per_file_advice[i].conflict_type == conflicts@[i].conflict_type
                &&& g@.per_file_advice[i].advice == advice_text(
                    conflicts@[i].conflict_type,
                    conflicts@[i].path@,
                )
            },
{
    let mut summary = text3("To resolve: merge ", target_ref, " into your working branch (");
    summary.append(current_branch);
    summary.append(").");

    let mut checkout = String::from_str("git checkout ");
    checkout.append(current_branch);
    let mut merge = String::from_str("git merge ");
    merge.append(target_ref);
    let mut commands: Vec<GuideStep> = Vec::new();
    commands.push(
        GuideStep {
            description: String::from_str("Make sure you are on your working branch"),
            command: checkout,
        },
    );
    commands.push(
        GuideStep {
            description: String::from_str("Fetch latest changes from remote"),
            command: String::from_str("git fetch origin"),
        },
    );
    commands.push(
        GuideStep {
            description: String::from_str("Start the merge (this will show conflicts)"),
            command: merge,
        },
    );
    let ghost head = commands@.map_values(|s: GuideStep| s@);
    assert(head =~= guide_steps(current_branch@, target_ref@, Seq::<DetailView>::empty()).take(3));
    let ghost dv = details_view(conflicts@);
    let mut i: usize = 0;
    while i < conflicts.len()
        invariant
            i <= conflicts@.len(),
            dv == details_view(conflicts@),
            head.len() == 3,
            commands@.map_values(|s: GuideStep| s@) =~= head + dv.take(i as int).map_values(
                |d: DetailView| resolve_step(d.path),
            ),
        decreases conflicts@.len() - i,
    {
        let path = conflicts[i].path.as_str();
        let mut description = String::from_str("Resolve conflict in ");
        description.append(path);
        let mut command = String::from_str("git add ");
        command.append(path);
        let ghost before = commands@.map_values(|s: GuideStep| s@);
        let step = GuideStep { description, command };
        assert(dv[i as int] == conflicts@[i as int]@);
        assert(step@ == resolve_step(dv[i as int].path));
        commands.push(step);
        proof {
            assert(dv.take(i + 1) =~= dv.take(i as int).push(dv[i as int]));
            assert(commands@.map_values(|s: GuideStep| s@) =~= before.push(step@));
            assert(dv.take(i + 1).map_values(|d: DetailView| resolve_step(d.path)) =~= dv.take(
                i as int,
            ).map_values(|d: DetailView| resolve_step(d.path)).push(resolve_step(dv[i as int].path)));
        }
        i = i + 1;
    }
    let ghost middle = commands@.map_values(|s: GuideStep| s@);
    let last = GuideStep {
        description: String::from_str("Complete the merge"),
        command: String::from_str("git commit"),
    };
    let ghost last_view = last@;
    commands.push(last);
    proof {
        assert(dv.take(conflicts@.len() as int) =~= dv);
        assert(commands@.map_values(|s: GuideStep| s@) =~= middle.push(last_view));
        assert(commands@.map_values(|s: GuideStep| s@) =~= guide_steps(
            current_branch@,
            target_ref@,
            dv,
        ));
    }

    let mut per_file_advice: Vec<FileGuide> = Vec::new();
    let mut j: usize = 0;
    while j < conflicts.len()
        invariant
            j <= conflicts@.len(),
            dv == details_view(conflicts@),
            per_file_advice@.map_values(|f: FileGuide| f@) =~= file_advice(dv.take(j as int)),
        decreases conflicts@.len() - j,
    {
        let d = &conflicts[j];
        let advice = advice_for_type(&d.conflict_type, d.path.as_str());
        let ghost before = per_file_advice@.map_values(|f: FileGuide| f@);
        let entry = FileGuide { path: d.path.clone(), conflict_type: d.conflict_type, advice };
        assert(dv[j as int] == conflicts@[j as int]@);
        let ghost entry_view = entry@;
        per_file_advice.push(entry);
        proof {
            assert(dv.take(j + 1) =~= dv.take(j as int).push(dv[j as int]));
            assert(per_file_advice@.map_values(|f: FileGuide| f@) =~= before.push(entry_view));
            assert(file_advice(dv.take(j + 1)) =~= file_advice(dv.take(j as int)).push(entry_view));
        }
        j = j + 1;
    }
    proof {
        assert(dv.take(conflicts@.len() as int) =~= dv);
        lemma_file_advice_follows_kind(dv);
        assert forall|i: int| 0 <= i < conflicts@.len() implies dv[i] == conflicts@[i]@ by {}
    }
    ResolutionGuide { summary, commands, per_file_advice }
}


/// A guide has one resolve step per conflicted file, in the files' order, after the
/// three opening steps and before the closing commit, and one piece of advice per file.
pub proof fn lemma_guide_shape(
    current_branch: Seq<char>,
    target_ref: Seq<char>,
    conflicts: Seq<DetailView>,
)
    ensures
        guide_steps(current_branch, target_ref, conflicts).len() == conflicts.len() + 4,
        forall|i: int|
            0 <= i < conflicts.len() ==> #[trigger] guide_steps(current_branch, target_ref, conflicts)[i
                + 3] == resolve_step(conflicts[i].path),
        guide_steps(current_branch, target_ref, conflicts).last().command == "git commit"@,
        guide_steps(current_branch, target_ref, conflicts)[0].command == "git checkout "@
            + current_branch,
        guide_steps(current_branch, target_ref, conflicts)[1].command == "git fetch origin"@,
        guide_steps(current_branch, target_ref, conflicts)[2].command == "git merge "@ + target_ref,
        forall|i: int|
            0 <= i < conflicts.len() ==> (#[trigger] guide_steps(
                current_branch,
                target_ref,
                conflicts,
            )[i + 3]).command == "git add "@ + conflicts[i].path && guide_steps(
                current_branch,
                target_ref,
                conflicts,
            )[i + 3].description == "Resolve conflict in "@ + conflicts[i].path,
        file_advice(conflicts).len() == conflicts.len(),
        forall|i: int|
            0 <= i < conflicts.len() ==> (#[trigger] file_advice(conflicts)[i]).path
                == conflicts[i].path,
{
}

/// The advice for a file names the file: its path appears in the advice right after
/// the opening words.
pub proof fn lemma_advice_names_file(t: ConflictType, p: Seq<char>)
    ensures
        exists|k: int|
            0 <= k && k + p.len() <= advice_text(t, p).len() && #[trigger] advice_text(t, p).subrange(
                k,
                k + p.len(),
            ) == p,
{
    let opening = match t {
        ConflictType::Content => "Both branches modified '"@,
        ConflictType::AddAdd => "Both branches added '"@,
        ConflictType::ModifyDelete => "One branch modified '"@,
        ConflictType::DeleteModify => "One branch deleted '"@,
        ConflictType::RenameDelete => "One branch renamed '"@,
        ConflictType::RenameRename => "Both branches renamed '"@,
        ConflictType::DirectoryFile => "A directory/file conflict exists at '"@,
        ConflictType::Unknown => "Resolve '"@,
    };
    let a = advice_text(t, p);
    let k = opening.len() as int;
    assert(a.subrange(k, k + p.len()) =~= p);
}


/// Each piece of file advice is about its own file: same path, same kind, and the
/// advice for that kind and path.
pub proof fn lemma_file_advice_follows_kind(conflicts: Seq<DetailView>)
    ensures
        file_advice(conflicts).len() == conflicts.len(),
        forall|i: int|
            0 <= i < conflicts.len() ==> {
                &&& (#[trigger] file_advice(conflicts)[i]).path == conflicts[i].path
                &&& file_advice(conflicts)[i].conflict_type == conflicts[i].conflict_type
                &&& file_advice(conflicts)[i].advice == advice_text(
                    conflicts[i].conflict_type,
                    conflicts[i].path,
                )
            },
{
}

/// Different kinds of conflict get different advice for the same file: the advice
/// tells which kind it is about.
pub proof fn lemma_advice_tells_kinds_apart(t1: ConflictType, t2: ConflictType, p: Seq<char>)
    ensures
        advice_text(t1, p) == advice_text(t2, p) ==> t1 == t2,
{
    reveal_strlit("Both branches modified '");
    reveal_strlit("Both branches added '");
    reveal_strlit("One branch modified '");
    reveal_strlit("One branch deleted '");
    reveal_strlit("One branch renamed '");
    reveal_strlit("Both branches renamed '");
    reveal_strlit("A directory/file conflict exists at '");
    reveal_strlit("Resolve '");
    let a1 = advice_text(t1, p);
    let a2 = advice_text(t2, p);
    if a1 == a2 {
        // The opening words differ at character 0, 11 or 14.
        assert(a1[0] == a2[0]);
        if a1[0] == 'B' {
            assert(a1[14] == a2[14]);
        }
        if a1[0] == 'O' {
            assert(a1[11] == a2[11]);
        }
    }
}

/// The advice for a file kept by one branch and deleted by the other gives both
/// commands on the full path: `git add <path>` and `git rm <path>`.
pub proof fn lemma_keep_or_delete_commands_name_path(t: ConflictType, p: Seq<char>)
    requires
        t is ModifyDelete || t is DeleteModify,
    ensures
        exists|a: Seq<char>, b: Seq<char>| advice_text(t, p) == a + ("`git add "@ + p + "`"@) + b,
        exists|a: Seq<char>, b: Seq<char>| advice_text(t, p) == a + ("`git rm "@ + p + "`"@) + b,
{
    let opening = if t is ModifyDelete {
        "One branch modified '"@ + p + "' while the other deleted it. Run "@
    } else {
        "One branch deleted '"@ + p + "' while the other modified it. Run "@
    };
    let adv = advice_text(t, p);
    let b1 = " to keep the file, or "@ + "`git rm "@ + p + "`"@ + " to delete it."@;
    assert(adv =~= opening + ("`git add "@ + p + "`"@) + b1);
    let a2 = opening + "`git add "@ + p + "`"@ + " to keep the file, or "@;
    assert(adv =~= a2 + ("`git rm "@ + p + "`"@) + " to delete it."@);
}

} // verus!
