use git_pre_conflict_core::conflict::{ConflictDetail, ConflictType};
use git_pre_conflict_core::guide::{advice_for_type, generate_resolution_guide};

fn detail(path: &str, conflict_type: ConflictType) -> ConflictDetail {
    ConflictDetail {
        path: path.to_string(),
        conflict_type,
        message: String::new(),
    }
}

#[test]
fn advice_texts() {
    assert_eq!(
        advice_for_type(&ConflictType::Content, "a.rs"),
        "Both branches modified 'a.rs'. Open the file and look for <<<<<<< / ======= / >>>>>>> markers. Edit the file to keep the correct changes, then save."
    );
    assert_eq!(
        advice_for_type(&ConflictType::AddAdd, "a.rs"),
        "Both branches added 'a.rs'. Decide which version to keep, or merge the contents manually."
    );
    assert_eq!(
        advice_for_type(&ConflictType::ModifyDelete, "a.rs"),
        "One branch modified 'a.rs' while the other deleted it. Run `git add a.rs` to keep the file, or `git rm a.rs` to delete it."
    );
    assert_eq!(
        advice_for_type(&ConflictType::DeleteModify, "a.rs"),
        "One branch deleted 'a.rs' while the other modified it. Run `git add a.rs` to keep the file, or `git rm a.rs` to delete it."
    );
    assert_eq!(
        advice_for_type(&ConflictType::RenameDelete, "a.rs"),
        "One branch renamed 'a.rs' while the other deleted it. Decide whether to keep the renamed file or accept the deletion."
    );
    assert_eq!(
        advice_for_type(&ConflictType::RenameRename, "a.rs"),
        "Both branches renamed 'a.rs' to different names. Choose the correct name and update accordingly."
    );
    assert_eq!(
        advice_for_type(&ConflictType::DirectoryFile, "a.rs"),
        "A directory/file conflict exists at 'a.rs'. One branch has a file where the other has a directory. Reorganize as needed."
    );
    assert_eq!(
        advice_for_type(&ConflictType::Unknown, "a.rs"),
        "Resolve 'a.rs' manually. Open the file and look for conflict markers if present."
    );
}

#[test]
fn advice_names_the_file() {
    let all = [
        ConflictType::Content,
        ConflictType::AddAdd,
        ConflictType::ModifyDelete,
        ConflictType::DeleteModify,
        ConflictType::RenameDelete,
        ConflictType::RenameRename,
        ConflictType::DirectoryFile,
        ConflictType::Unknown,
    ];
    for t in all {
        assert!(advice_for_type(&t, "docs/guide.md").contains("'docs/guide.md'"));
    }
}

#[test]
fn guide_for_two_conflicts() {
    let conflicts = vec![
        detail("a.txt", ConflictType::Content),
        detail("b/c.txt", ConflictType::ModifyDelete),
    ];
    let g = generate_resolution_guide("feature", "origin/main", &conflicts);
    assert_eq!(
        g.summary,
        "To resolve: merge origin/main into your working branch (feature)."
    );
    let steps: Vec<(String, String)> = g
        .commands
        .iter()
        .map(|s| (s.description.clone(), s.command.clone()))
        .collect();
    let expected: Vec<(String, String)> = vec![
        ("Make sure you are on your working branch", "git checkout feature"),
        ("Fetch latest changes from remote", "git fetch origin"),
        ("Start the merge (this will show conflicts)", "git merge origin/main"),
        ("Resolve conflict in a.txt", "git add a.txt"),
        ("Resolve conflict in b/c.txt", "git add b/c.txt"),
        ("Complete the merge", "git commit"),
    ]
    .into_iter()
    .map(|(a, b)| (a.to_string(), b.to_string()))
    .collect();
    assert_eq!(steps, expected);
    assert_eq!(g.per_file_advice.len(), 2);
    assert_eq!(g.per_file_advice[0].path, "a.txt");
    assert_eq!(g.per_file_advice[0].conflict_type, ConflictType::Content);
    assert_eq!(
        g.per_file_advice[0].advice,
        advice_for_type(&ConflictType::Content, "a.txt")
    );
    assert_eq!(g.per_file_advice[1].path, "b/c.txt");
    assert_eq!(g.per_file_advice[1].conflict_type, ConflictType::ModifyDelete);
    assert_eq!(
        g.per_file_advice[1].advice,
        advice_for_type(&ConflictType::ModifyDelete, "b/c.txt")
    );
}

#[test]
fn guide_without_conflicts() {
    let g = generate_resolution_guide("dev", "main", &[]);
    assert_eq!(g.commands.len(), 4);
    assert_eq!(g.commands[3].command, "git commit");
    assert!(g.per_file_advice.is_empty());
}
