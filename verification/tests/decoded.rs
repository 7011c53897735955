use git_diff_zip::{
    changed_files_in, commit_summary_of, history_items, log_failure_message, lowered_excluded, CommitInfo,
};

fn strs(v: &[&str]) -> Vec<String> {
    v.iter().map(|s| s.to_string()).collect()
}

#[test]
fn summary_of_one_commit_and_of_a_range() {
    assert_eq!(
        commit_summary_of(5, 5, "deadbeef\nsubject\nbody\n"),
        CommitInfo { hash: "deadbeef".to_string(), message: "subject".to_string() }
    );
    assert_eq!(
        commit_summary_of(12, 4, "deadbeef\nsubject"),
        CommitInfo { hash: "HEAD~12 .. deadbeef".to_string(), message: "[範囲] subject".to_string() }
    );
    assert_eq!(
        commit_summary_of(1, 0, "only-hash"),
        CommitInfo { hash: "HEAD~1 .. only-hash".to_string(), message: "[範囲] ".to_string() }
    );
}

#[test]
fn log_failure_messages() {
    assert_eq!(
        log_failure_message(7, "fatal: ambiguous argument 'HEAD~7'"),
        "指定されたコミット(HEAD~7)が存在しません。リポジトリのコミット数を確認してください。"
    );
    assert_eq!(log_failure_message(7, "ambiguous  argument"), "Gitエラー: ambiguous  argument");
    assert_eq!(log_failure_message(4294967295, "x ambiguous argument"), "指定されたコミット(HEAD~4294967295)が存在しません。リポジトリのコミット数を確認してください。");
}

#[test]
fn history_items_split_on_the_unit_separator() {
    let items = history_items("a\u{1f}b\u{1f}c\u{1f}d\r\n\nx");
    assert_eq!(items.len(), 3);
    assert_eq!((items[0].index, items[0].hash.as_str(), items[0].message.as_str(), items[0].date.as_str()), (0, "a", "b", "c"));
    assert_eq!((items[1].index, items[1].hash.as_str(), items[1].message.as_str()), (1, "", ""));
    assert_eq!((items[2].index, items[2].hash.as_str(), items[2].date.as_str()), (2, "x", ""));
    assert!(history_items("").is_empty());
}

#[test]
fn changed_files_are_the_nonblank_lines() {
    assert_eq!(changed_files_in("a\n \t\nb\r\n\r\nc\r").files, strs(&["a", "b", "c\r"]));
    assert_eq!(changed_files_in("\n\n").files, strs(&[]));
    assert!(changed_files_in("x\ny\n").files.iter().all(|f| !f.contains('\n')));
}

#[test]
fn lowered_patterns_apply_when_trimmed_and_not_empty() {
    assert!(lowered_excluded("src/target/x", &strs(&["  target/ "])));
    assert!(!lowered_excluded("src/main.rs", &strs(&["", "   ", "\u{3000}"])));
    assert!(!lowered_excluded("src/main.rs", &strs(&["Main"])));
    assert!(!lowered_excluded("abc", &strs(&[])));
}
