use git_diff_zip::{
    changed_files_next, clean_path, commit_info_next, fetch_next, history_next, repo_root_next,
    validate_git_next, validate_repo_next, ChangedFiles, CommitInfo, Effect, GitCommand, GitRun,
    GitVersion, Reply, Step,
};

fn ok(out: &str) -> Reply {
    Reply::Git(GitRun::Exited { success: true, stdout: out.as_bytes().to_vec(), stderr: vec![] })
}

fn failed(err: &str) -> Reply {
    Reply::Git(GitRun::Exited { success: false, stdout: vec![], stderr: err.as_bytes().to_vec() })
}

fn spawn_failed(err: &str) -> Reply {
    Reply::Git(GitRun::SpawnFailed { error: err.to_string() })
}

fn strs(v: &[&str]) -> Vec<String> {
    v.iter().map(|s| s.to_string()).collect()
}

fn git(program: &str, dir: Option<&str>, args: &[&str]) -> Effect {
    Effect::Git(GitCommand {
        program: program.to_string(),
        dir: dir.map(|d| d.to_string()),
        args: strs(args),
    })
}

#[test]
fn clean_path_strips_space_and_quotes() {
    assert_eq!(clean_path("  \"C:\\Program Files\\Git\\bin\\git.exe\"  "), "C:\\Program Files\\Git\\bin\\git.exe");
    assert_eq!(clean_path("'/home/me/repo'"), "/home/me/repo");
    assert_eq!(clean_path(" \" 'a b' \" "), "'a b'");
    assert_eq!(clean_path("\t\n"), "");
    assert_eq!(clean_path(""), "");
    assert_eq!(clean_path("\u{3000}repo\u{a0}"), "repo");
    assert_eq!(clean_path("plain"), "plain");
}

#[test]
fn clean_path_stops_at_inner_quotes() {
    // Double quotes go first, so a double quote inside single quotes stays.
    assert_eq!(clean_path("'\"a\"'"), "\"a\"");
    assert_eq!(clean_path("\"'a'\""), "a");
}

#[test]
fn repo_root_asks_then_answers() {
    let mut replies = vec![];
    assert_eq!(
        repo_root_next("git", "/r/sub", &replies),
        Step::Perform(git("git", Some("/r/sub"), &["rev-parse", "--show-toplevel"]))
    );
    replies.push(ok("/r\n"));
    assert_eq!(repo_root_next("git", "/r/sub", &replies), Step::Done(Ok("/r".to_string()), 1));
}

#[test]
fn repo_root_errors() {
    assert_eq!(
        repo_root_next("git", "/x", &[spawn_failed("not found")]),
        Step::Done(Err("Git実行エラー (rev-parse): not found".to_string()), 1)
    );
    assert_eq!(
        repo_root_next("git", "/x", &[failed("fatal")]),
        Step::Done(
            Err("Gitリポジトリのルートが見つかりません。選択したフォルダがリポジトリ内にあるか確認してください。".to_string()),
            1
        )
    );
}

#[test]
fn repo_root_decodes_invalid_utf8_lossily() {
    let reply = Reply::Git(GitRun::Exited { success: true, stdout: vec![b'/', b'r', 0xff, b'\n'], stderr: vec![] });
    assert_eq!(repo_root_next("git", "/x", &[reply]), Step::Done(Ok("/r\u{fffd}".to_string()), 1));
}

#[test]
fn validate_repo_flow() {
    assert_eq!(validate_repo_next("git", "  ", &[]), Step::Done(Ok(false), 0));
    assert_eq!(
        validate_repo_next("git", " '/r' ", &[]),
        Step::Perform(Effect::PathExists { path: "/r".to_string() })
    );
    assert_eq!(
        validate_repo_next("git", "/r", &[Reply::Exists(false)]),
        Step::Done(Err("パスが存在しません: /r".to_string()), 1)
    );
    assert_eq!(
        validate_repo_next("\"git\"", "/r", &[Reply::Exists(true)]),
        Step::Perform(git("git", Some("/r"), &["rev-parse", "--git-dir"]))
    );
    assert_eq!(validate_repo_next("git", "/r", &[Reply::Exists(true), ok(".git\n")]), Step::Done(Ok(true), 2));
    assert_eq!(validate_repo_next("git", "/r", &[Reply::Exists(true), failed("no")]), Step::Done(Ok(false), 2));
    assert_eq!(
        validate_repo_next("/bin/git", "/r", &[Reply::Exists(true), spawn_failed("denied")]),
        Step::Done(Err("Git実行エラー (/bin/git): denied".to_string()), 2)
    );
}

#[test]
fn validate_git_flow() {
    assert_eq!(
        validate_git_next(" ", &[]),
        Step::Done(Ok(GitVersion { valid: false, version: String::new() }), 0)
    );
    assert_eq!(validate_git_next("git", &[]), Step::Perform(git("git", None, &["--version"])));
    assert_eq!(
        validate_git_next("git", &[ok("git version 2.43.0\n")]),
        Step::Done(Ok(GitVersion { valid: true, version: "git version 2.43.0".to_string() }), 1)
    );
    assert_eq!(
        validate_git_next("git", &[failed("x")]),
        Step::Done(Ok(GitVersion { valid: false, version: String::new() }), 1)
    );
    assert_eq!(
        validate_git_next("nogit", &[spawn_failed("No such file")]),
        Step::Done(Err("Git実行エラー (nogit): No such file".to_string()), 1)
    );
}

#[test]
fn fetch_flow() {
    assert_eq!(fetch_next("git", "/r", &[]), Step::Perform(git("git", Some("/r"), &["fetch"])));
    assert_eq!(fetch_next("git", "/r", &[ok("")]), Step::Done(Ok(()), 1));
    assert_eq!(
        fetch_next("git", "/r", &[failed("fatal: no remote")]),
        Step::Done(Err("Gitエラー (fetch): fatal: no remote".to_string()), 1)
    );
    assert_eq!(
        fetch_next("git", "/r", &[spawn_failed("gone")]),
        Step::Done(Err("git fetch 実行エラー: gone".to_string()), 1)
    );
}

#[test]
fn commit_info_single_commit() {
    assert_eq!(
        commit_info_next("git", "/r", 2, 2, &[]),
        Step::Perform(git("git", Some("/r"), &["log", "--format=%H%n%s", "-1", "HEAD~2"]))
    );
    assert_eq!(
        commit_info_next("git", "/r", 0, 0, &[ok("abc123\nFix bug\n")]),
        Step::Done(Ok(CommitInfo { hash: "abc123".to_string(), message: "Fix bug".to_string() }), 1)
    );
}

#[test]
fn commit_info_range_is_marked() {
    // The newer end is logged; the older end is shown in the hash.
    assert_eq!(
        commit_info_next("git", "/r", 3, 1, &[]),
        Step::Perform(git("git", Some("/r"), &["log", "--format=%H%n%s", "-1", "HEAD~1"]))
    );
    assert_eq!(
        commit_info_next("git", "/r", 1, 3, &[ok("abc\r\nSubject line\r\n")]),
        Step::Done(
            Ok(CommitInfo { hash: "HEAD~3 .. abc".to_string(), message: "[範囲] Subject line".to_string() }),
            1
        )
    );
}

#[test]
fn commit_info_missing_lines_are_empty() {
    assert_eq!(
        commit_info_next("git", "/r", 0, 0, &[ok("")]),
        Step::Done(Ok(CommitInfo { hash: String::new(), message: String::new() }), 1)
    );
}

#[test]
fn commit_info_errors() {
    assert_eq!(
        commit_info_next("git", "/r", 40, 0, &[failed("fatal: ambiguous argument 'HEAD~0': unknown revision")]),
        Step::Done(
            Err("指定されたコミット(HEAD~0)が存在しません。リポジトリのコミット数を確認してください。".to_string()),
            1
        )
    );
    assert_eq!(
        commit_info_next("git", "/r", 0, 0, &[failed("fatal: not a git repository")]),
        Step::Done(Err("Gitエラー: fatal: not a git repository".to_string()), 1)
    );
    assert_eq!(
        commit_info_next("git", "/r", 0, 0, &[spawn_failed("boom")]),
        Step::Done(Err("git log 実行エラー: boom".to_string()), 1)
    );
}

#[test]
fn history_flow() {
    assert_eq!(history_next("git", "", 10, &[]), Step::Done(Ok(vec![]), 0));
    assert_eq!(history_next("git", "/r", 10, &[]), Step::Perform(git("git", Some("/r"), &["rev-parse", "HEAD"])));
    assert_eq!(history_next("git", "/r", 10, &[failed("no commits")]), Step::Done(Ok(vec![]), 1));
    assert_eq!(history_next("git", "/r", 10, &[spawn_failed("x")]), Step::Done(Ok(vec![]), 1));
    assert_eq!(
        history_next("git", "/r", 25, &[ok("abc\n")]),
        Step::Perform(git(
            "git",
            Some("/r"),
            &["-c", "core.quotepath=false", "log", "--format=%H\u{1f}%s\u{1f}%ai", "-n", "25"]
        ))
    );
    let out = "h1\u{1f}first | with, pipes\u{1f}2024-01-02 10:00:00 +0900\nh2\u{1f}second\n";
    match history_next("git", "/r", 25, &[ok("abc\n"), ok(out)]) {
        Step::Done(Ok(items), 2) => {
            assert_eq!(items.len(), 2);
            assert_eq!(items[0].index, 0);
            assert_eq!(items[0].hash, "h1");
            assert_eq!(items[0].message, "first | with, pipes");
            assert_eq!(items[0].date, "2024-01-02 10:00:00 +0900");
            assert_eq!(items[1].index, 1);
            assert_eq!(items[1].hash, "h2");
            assert_eq!(items[1].message, "second");
            assert_eq!(items[1].date, "");
        }
        other => panic!("unexpected {:?}", other),
    }
}

#[test]
fn history_errors() {
    assert_eq!(
        history_next("git", "/r", 5, &[ok("abc"), failed("bad")]),
        Step::Done(Err("Gitエラー (履歴取得): bad".to_string()), 2)
    );
    assert_eq!(
        history_next("git", "/r", 5, &[ok("abc"), spawn_failed("gone")]),
        Step::Done(Err("git log 実行エラー: gone".to_string()), 2)
    );
}

#[test]
fn changed_files_flow() {
    assert_eq!(changed_files_next("git", "  ", 0, 0, &[]), Step::Done(Ok(ChangedFiles { files: vec![] }), 0));
    assert_eq!(
        changed_files_next("git", "/r", 0, 2, &[]),
        Step::Perform(git("git", Some("/r"), &["rev-parse", "--verify", "HEAD"]))
    );
    assert_eq!(
        changed_files_next("git", "/r", 0, 2, &[failed("no HEAD")]),
        Step::Done(Ok(ChangedFiles { files: vec![] }), 1)
    );
    assert_eq!(
        changed_files_next("git", "/r", 0, 2, &[ok("h")]),
        Step::Perform(git("git", Some("/r"), &["rev-parse", "--verify", "HEAD~3"]))
    );
    assert_eq!(
        changed_files_next("git", "/r", 0, 2, &[ok("h"), ok("b")]),
        Step::Perform(git("git", Some("/r"), &["-c", "core.quotepath=false", "diff", "--name-only", "HEAD~3", "HEAD~0"]))
    );
    assert_eq!(
        changed_files_next("git", "/r", 2, 0, &[ok("h"), failed("unknown")]),
        Step::Perform(git(
            "git",
            Some("/r"),
            &["-c", "core.quotepath=false", "diff", "--name-only", "4b825dc642cb6eb9a060e54bf8d69288fbee4904", "HEAD~0"]
        ))
    );
    assert_eq!(
        changed_files_next("git", "/r", 0, 2, &[ok("h"), ok("b"), ok("src/a.rs\n\n  \nREADME.md\r\n日本語.txt")]),
        Step::Done(Ok(ChangedFiles { files: strs(&["src/a.rs", "README.md", "日本語.txt"]) }), 3)
    );
}

#[test]
fn changed_files_errors() {
    assert_eq!(
        changed_files_next("git", "/r", 0, 0, &[ok("h"), ok("b"), failed("bad revision")]),
        Step::Done(Err("Gitエラー (差分取得): bad revision".to_string()), 3)
    );
    assert_eq!(
        changed_files_next("git", "/r", 0, 0, &[ok("h"), ok("b"), spawn_failed("gone")]),
        Step::Done(Err("git diff 実行エラー: gone".to_string()), 3)
    );
}

#[test]
fn offsets_in_either_order_give_the_same_steps() {
    let replies = vec![ok("h"), ok("b"), ok("x\n")];
    for k in 0..=replies.len() {
        assert_eq!(
            changed_files_next("git", "/r", 4, 9, &replies[..k]),
            changed_files_next("git", "/r", 9, 4, &replies[..k])
        );
        assert_eq!(
            commit_info_next("git", "/r", 4, 9, &replies[..k.min(1)]),
            commit_info_next("git", "/r", 9, 4, &replies[..k.min(1)])
        );
    }
}

#[test]
fn a_finished_step_ignores_later_replies() {
    let replies = vec![ok("h"), ok("b"), ok("x\n"), ok("extra"), Reply::Exists(true)];
    assert_eq!(changed_files_next("git", "/r", 0, 0, &replies), changed_files_next("git", "/r", 0, 0, &replies[..3]));
    assert_eq!(repo_root_next("git", "/r", &replies), repo_root_next("git", "/r", &replies[..1]));
}

#[test]
fn a_reply_of_the_wrong_kind_asks_again() {
    assert_eq!(
        repo_root_next("git", "/r", &[Reply::Exists(true)]),
        Step::Perform(git("git", Some("/r"), &["rev-parse", "--show-toplevel"]))
    );
}
