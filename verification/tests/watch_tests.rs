use git_pre_conflict_core::conflict::{ConflictDetail, ConflictReport, ConflictType};
use git_pre_conflict_core::presentation::{
    classify_diff_line, conflict_count_heading, diff_preview, notification_body, DiffLineKind,
    PREVIEW_LINES,
};
use git_pre_conflict_core::watch::WatchState;
use git_pre_conflict_core::AppError;

fn report(paths: &[&str]) -> ConflictReport {
    ConflictReport {
        current_branch: "feature".to_string(),
        target_ref: "origin/main".to_string(),
        conflicted_files: paths
            .iter()
            .map(|p| ConflictDetail {
                path: p.to_string(),
                conflict_type: ConflictType::Content,
                message: String::new(),
            })
            .collect(),
    }
}

#[test]
fn notifications() {
    assert_eq!(notification_body(&report(&[])), None);
    assert_eq!(
        notification_body(&report(&["a"])),
        Some("1 conflict merging origin/main into feature".to_string())
    );
    assert_eq!(
        notification_body(&report(&["a", "b", "c"])),
        Some("3 conflicts merging origin/main into feature".to_string())
    );
}

#[test]
fn headings() {
    assert_eq!(conflict_count_heading(1), "  1 conflicted file:");
    assert_eq!(conflict_count_heading(12), "  12 conflicted files:");
    assert_eq!(conflict_count_heading(0), "  0 conflicted files:");
}

#[test]
fn diff_line_kinds() {
    assert_eq!(classify_diff_line("+added"), DiffLineKind::Added);
    assert_eq!(classify_diff_line("+++ b/file"), DiffLineKind::Added);
    assert_eq!(classify_diff_line("-removed"), DiffLineKind::Removed);
    assert_eq!(classify_diff_line("@@ -1,2 +1,2 @@"), DiffLineKind::Hunk);
    assert_eq!(classify_diff_line("@ x"), DiffLineKind::Context);
    assert_eq!(classify_diff_line(" same"), DiffLineKind::Context);
    assert_eq!(classify_diff_line(""), DiffLineKind::Context);
}

#[test]
fn short_diff_is_shown_whole() {
    let p = diff_preview("a\nb\n");
    assert_eq!(p.lines, vec!["a", "b"]);
    assert!(!p.truncated);
}

#[test]
fn long_diff_is_cut() {
    let exact: String = (0..PREVIEW_LINES).map(|i| format!("l{i}\n")).collect();
    let p = diff_preview(&exact);
    assert_eq!(p.lines.len(), PREVIEW_LINES);
    assert!(!p.truncated);
    let longer = format!("{exact}extra\n");
    let p = diff_preview(&longer);
    assert_eq!(p.lines.len(), PREVIEW_LINES);
    assert_eq!(p.lines[49], "l49");
    assert!(p.truncated);
}

#[test]
fn watch_lifecycle() {
    let mut w = WatchState::default();
    assert!(!w.is_watching);
    w.begin("main".to_string(), Some("/repo".to_string()));
    let s = w.status();
    assert!(s.is_watching);
    assert_eq!(s.target, Some("main".to_string()));
    assert_eq!(s.repo_path, Some("/repo".to_string()));
    assert!(s.last_report.is_none());

    let notice = w.observe(Ok(report(&["a", "b"])));
    assert_eq!(notice, Some("2 conflicts merging origin/main into feature".to_string()));
    assert_eq!(w.status().last_report.unwrap().conflicted_files.len(), 2);

    let notice = w.observe(Err(AppError::NotARepo));
    assert_eq!(notice, None);
    assert_eq!(w.status().last_report.unwrap().conflicted_files.len(), 2);

    let notice = w.observe(Ok(report(&[])));
    assert_eq!(notice, None);
    assert!(w.status().last_report.unwrap().is_clean());

    w.stop();
    let s = w.status();
    assert!(!s.is_watching);
    assert_eq!(s.target, Some("main".to_string()));

    w.finish();
    let s = w.status();
    assert!(!s.is_watching);
    assert_eq!(s.target, None);
    assert_eq!(s.repo_path, None);
    assert!(s.last_report.is_some());
}
