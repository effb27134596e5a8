use git_pre_conflict_core::conflict::{
    conflict_type_from_lowercase, extract_path_from_message, parse_conflict_type, parse_merge_tree, ConflictDetail,
    ConflictReport, ConflictType,
};
use git_pre_conflict_core::git::MergeTreeResult;

fn detail(path: &str, conflict_type: ConflictType, message: &str) -> ConflictDetail {
    ConflictDetail {
        path: path.to_string(),
        conflict_type,
        message: message.to_string(),
    }
}

fn parse(stdout: &str, has_conflicts: bool) -> ConflictReport {
    let result = MergeTreeResult {
        stdout: stdout.to_string(),
        has_conflicts,
    };
    match parse_merge_tree(&result, "feature".to_string(), "origin/main".to_string()) {
        Ok(r) => r,
        Err(e) => panic!("unexpected error: {}", e.message()),
    }
}

#[test]
fn conflict_type_names_are_parsed() {
    assert_eq!(parse_conflict_type("content"), ConflictType::Content);
    assert_eq!(parse_conflict_type("add/add"), ConflictType::AddAdd);
    assert_eq!(parse_conflict_type("modify/delete"), ConflictType::ModifyDelete);
    assert_eq!(parse_conflict_type("delete/modify"), ConflictType::DeleteModify);
    assert_eq!(parse_conflict_type("rename/delete"), ConflictType::RenameDelete);
    assert_eq!(parse_conflict_type("rename/rename"), ConflictType::RenameRename);
    assert_eq!(parse_conflict_type("directory/file"), ConflictType::DirectoryFile);
    assert_eq!(parse_conflict_type("file/directory"), ConflictType::DirectoryFile);
}

#[test]
fn conflict_type_ignores_case() {
    assert_eq!(parse_conflict_type("CONTENT"), ConflictType::Content);
    assert_eq!(parse_conflict_type("Modify/Delete"), ConflictType::ModifyDelete);
    assert_eq!(parse_conflict_type("FILE/DIRECTORY"), ConflictType::DirectoryFile);
}

#[test]
fn unknown_conflict_types() {
    assert_eq!(parse_conflict_type("submodule"), ConflictType::Unknown);
    assert_eq!(parse_conflict_type(""), ConflictType::Unknown);
    assert_eq!(parse_conflict_type(" content"), ConflictType::Unknown);
}

#[test]
fn labels_name_each_type() {
    let all = [
        (ConflictType::Content, "content"),
        (ConflictType::AddAdd, "add/add"),
        (ConflictType::ModifyDelete, "modify/delete"),
        (ConflictType::DeleteModify, "delete/modify"),
        (ConflictType::RenameDelete, "rename/delete"),
        (ConflictType::RenameRename, "rename/rename"),
        (ConflictType::DirectoryFile, "directory/file"),
        (ConflictType::Unknown, "unknown"),
    ];
    for (t, name) in all {
        assert_eq!(t.label(), name);
        assert_eq!(parse_conflict_type(&t.label()), t);
    }
}

#[test]
fn path_from_merge_conflict_message() {
    assert_eq!(
        extract_path_from_message("Merge conflict in src/main.rs"),
        Some("src/main.rs".to_string())
    );
    assert_eq!(
        extract_path_from_message("Merge conflict in   dir/a b.txt  "),
        Some("dir/a b.txt".to_string())
    );
}

#[test]
fn path_from_first_word() {
    assert_eq!(
        extract_path_from_message("old.txt deleted in theirs and modified in HEAD."),
        Some("old.txt".to_string())
    );
    assert_eq!(
        extract_path_from_message("Merge conflict in    "),
        Some("Merge".to_string())
    );
    assert_eq!(extract_path_from_message("   "), None);
    assert_eq!(extract_path_from_message(""), None);
}

#[test]
fn clean_merge_has_no_files() {
    let r = parse("4b825dc642cb6eb9a060e54bf8d69288fbee4904\n", false);
    assert!(r.is_clean());
    assert_eq!(r.file_count(), 0);
    assert_eq!(r.current_branch, "feature");
    assert_eq!(r.target_ref, "origin/main");
}

#[test]
fn clean_flag_ignores_output() {
    let r = parse("CONFLICT (content): Merge conflict in a.txt\n", false);
    assert!(r.is_clean());
}

#[test]
fn conflicts_are_listed_by_path() {
    let out = "abc123\n\
100644 1111111 1\tsrc/a.rs\n\
100644 2222222 2\tsrc/a.rs\n\
100644 3333333 3\tsrc/a.rs\n\
100644 4444444 2\tnew.txt\n\
\n\
Auto-merging src/a.rs\n\
CONFLICT (content): Merge conflict in src/a.rs\n\
CONFLICT (modify/delete): old.txt deleted in theirs and modified in HEAD.  Version HEAD of old.txt left in tree.\n";
    let r = parse(out, true);
    assert!(!r.is_clean());
    assert_eq!(r.file_count(), 3);
    assert_eq!(
        r.conflicted_files,
        vec![
            detail("new.txt", ConflictType::Unknown, ""),
            detail(
                "old.txt",
                ConflictType::ModifyDelete,
                "old.txt deleted in theirs and modified in HEAD.  Version HEAD of old.txt left in tree."
            ),
            detail("src/a.rs", ConflictType::Content, "Merge conflict in src/a.rs"),
        ]
    );
}

#[test]
fn conflict_line_is_not_overridden_by_index_line() {
    let out = "CONFLICT (add/add): Merge conflict in x.txt\n100644 aaa 2\tx.txt\n";
    let r = parse(out, true);
    assert_eq!(
        r.conflicted_files,
        vec![detail("x.txt", ConflictType::AddAdd, "Merge conflict in x.txt")]
    );
}

#[test]
fn later_conflict_line_replaces_earlier() {
    let out = "CONFLICT (content): Merge conflict in x.txt\nCONFLICT (rename/rename): x.txt renamed twice\n";
    let r = parse(out, true);
    assert_eq!(
        r.conflicted_files,
        vec![detail("x.txt", ConflictType::RenameRename, "x.txt renamed twice")]
    );
}

#[test]
fn stage_zero_and_malformed_lines_are_ignored() {
    let out = "100644 aaa 0\tclean.txt\n100644 aaa\tshort.txt\n100644 aaa x\tbad.txt\n100644 aaa 1\t   \nCONFLICT (content) no colon\nCONFLICT (content\n";
    let r = parse(out, true);
    assert_eq!(
        r.conflicted_files,
        vec![detail("no", ConflictType::Content, "no colon")]
    );
}

#[test]
fn carriage_returns_are_dropped() {
    let out = "CONFLICT (Content): Merge conflict in a.txt\r\n100644 aaa +1\tb.txt\r\n";
    let r = parse(out, true);
    assert_eq!(
        r.conflicted_files,
        vec![
            detail("a.txt", ConflictType::Content, "Merge conflict in a.txt"),
            detail("b.txt", ConflictType::Unknown, ""),
        ]
    );
}

#[test]
fn conflict_message_without_colon_keeps_text() {
    let out = "CONFLICT (directory/file)   dir/thing is a directory\n";
    let r = parse(out, true);
    assert_eq!(
        r.conflicted_files,
        vec![detail("dir/thing", ConflictType::DirectoryFile, "dir/thing is a directory")]
    );
}

#[test]
fn copied_report_is_equal() {
    let r = parse("CONFLICT (content): Merge conflict in a.txt\n", true);
    let c = r.copied();
    assert_eq!(c.current_branch, r.current_branch);
    assert_eq!(c.target_ref, r.target_ref);
    assert_eq!(c.conflicted_files, r.conflicted_files);
    let d = r.conflicted_files[0].copied();
    assert_eq!(d, r.conflicted_files[0]);
}

#[test]
fn lowercase_kind_texts() {
    let c = |s: &str| -> Vec<char> { s.chars().collect() };
    assert_eq!(conflict_type_from_lowercase(&c("rename/delete")), ConflictType::RenameDelete);
    assert_eq!(conflict_type_from_lowercase(&c("file/directory")), ConflictType::DirectoryFile);
    assert_eq!(conflict_type_from_lowercase(&c("Content")), ConflictType::Unknown);
    assert_eq!(conflict_type_from_lowercase(&c("unknown")), ConflictType::Unknown);
}

#[test]
fn inert_lines_change_nothing() {
    let base = "CONFLICT (content): Merge conflict in a.txt\n100644 aa 2\tb.txt\n";
    let padded = "deadbeef\n\nAuto-merging a.txt\nCONFLICT (content): Merge conflict in a.txt\nnote\n100644 aa 2\tb.txt\n\n";
    assert_eq!(parse(base, true).conflicted_files, parse(padded, true).conflicted_files);
}
