use git_diff_zip::{
    create_zip_next, create_zip_overflows, Compression, create_zip_step, manifest_content, readme_content, select_candidates, CommitInfo,
    Effect, GitRun, ReadFailure, Reply, Step,
};

fn ok(out: &str) -> Reply {
    Reply::Git(GitRun::Exited { success: true, stdout: out.as_bytes().to_vec(), stderr: vec![] })
}

fn entry(name: &str) -> Effect {
    Effect::StartEntry { name: name.to_string(), compression: Compression::Deflated, permissions: 0o755 }
}

fn done() -> Reply {
    Reply::Io(Ok(()))
}

fn strs(v: &[&str]) -> Vec<String> {
    v.iter().map(|s| s.to_string()).collect()
}

/// Replies for the repository root, the commit and the changed files.
fn git_replies(files: &str) -> Vec<Reply> {
    vec![ok("/repo\n"), ok("abc123\nAdd files\n"), ok("HEAD"), ok("base"), ok(files)]
}

fn next(replies: &[Reply], excludes: &[&str]) -> Step<()> {
    create_zip_next("git", "/repo", 0, 0, "/out/diff.zip", &strs(excludes), "2024-05-06 07:08:09", replies)
}

#[test]
fn empty_paths_are_refused_first() {
    let ex = strs(&[]);
    assert_eq!(
        create_zip_next(" ", "/r", 0, 0, "/o.zip", &ex, "t", &[]),
        Step::Done(Err("Git実行ファイルが指定されていません".to_string()), 0)
    );
    assert_eq!(
        create_zip_next("git", "''", 0, 0, "/o.zip", &ex, "t", &[]),
        Step::Done(Err("リポジトリが指定されていません".to_string()), 0)
    );
    assert_eq!(
        create_zip_next("git", "/r", 0, 0, "\"\"", &ex, "t", &[]),
        Step::Done(Err("出力先が指定されていません".to_string()), 0)
    );
}

#[test]
fn whole_archive_run() {
    let mut replies = git_replies("src\\lib.rs\nREADME.md\ntarget/out.bin\ngone.txt\n");
    assert_eq!(next(&replies, &["TARGET/"]), Step::Perform(Effect::PrepareOutputDir { output: "/out/diff.zip".to_string() }));
    replies.push(done());
    assert_eq!(next(&replies, &["TARGET/"]), Step::Perform(Effect::CreateArchive { output: "/out/diff.zip".to_string() }));
    replies.push(done());
    assert_eq!(
        next(&replies, &["TARGET/"]),
        Step::Perform(Effect::IsFile { root: "/repo".to_string(), file: "src\\lib.rs".to_string() })
    );
    replies.push(Reply::Exists(true));
    assert_eq!(
        next(&replies, &["TARGET/"]),
        Step::Perform(Effect::ReadFile { root: "/repo".to_string(), file: "src\\lib.rs".to_string() })
    );
    replies.push(Reply::Read(Ok(b"fn main() {}".to_vec())));
    assert_eq!(next(&replies, &["TARGET/"]), Step::Perform(entry("src/lib.rs")));
    replies.push(done());
    assert_eq!(next(&replies, &["TARGET/"]), Step::Perform(Effect::WriteEntry { data: b"fn main() {}".to_vec() }));
    replies.push(done());
    assert_eq!(
        next(&replies, &["TARGET/"]),
        Step::Perform(Effect::IsFile { root: "/repo".to_string(), file: "README.md".to_string() })
    );
    replies.push(Reply::Exists(true));
    replies.push(Reply::Read(Ok(b"# hi".to_vec())));
    replies.push(done());
    replies.push(done());
    // target/out.bin is excluded: the next question is about gone.txt.
    assert_eq!(
        next(&replies, &["TARGET/"]),
        Step::Perform(Effect::IsFile { root: "/repo".to_string(), file: "gone.txt".to_string() })
    );
    replies.push(Reply::Exists(false));
    assert_eq!(next(&replies, &["TARGET/"]), Step::Perform(entry("readme.txt")));
    replies.push(done());
    let readme = "========================================\n\
Git差分ZIP\n\
========================================\n\n\
Commit : abc123\n\
Message: Add files\n\
Date   : 2024-05-06 07:08:09\n\n\
Files  : 2\n\
Exclude: TARGET/\n\
\n----------------------------------------\n\
src\\lib.rs\n\
README.md\n\
----------------------------------------\n";
    assert_eq!(next(&replies, &["TARGET/"]), Step::Perform(Effect::WriteEntry { data: readme.as_bytes().to_vec() }));
    replies.push(done());
    assert_eq!(next(&replies, &["TARGET/"]), Step::Perform(Effect::FinishArchive));
    replies.push(done());
    assert_eq!(
        next(&replies, &["TARGET/"]),
        Step::Perform(Effect::WriteManifest {
            output: "/out/diff.zip".to_string(),
            content: "Commit ID: abc123\nIncluded Files:\n- src\\lib.rs\n- README.md\n".to_string(),
        })
    );
    replies.push(done());
    let n = replies.len();
    assert_eq!(next(&replies, &["TARGET/"]), Step::Done(Ok(()), n));
}

#[test]
fn archive_errors() {
    let mut r = git_replies("a.txt\n");
    r.push(Reply::Io(Err("denied".to_string())));
    assert_eq!(next(&r, &[]), Step::Done(Err("出力先フォルダの作成に失敗しました: denied".to_string()), 6));
    let mut r = git_replies("a.txt\n");
    r.push(done());
    r.push(Reply::Io(Err("disk full".to_string())));
    assert_eq!(next(&r, &[]), Step::Done(Err("ZIPファイルの作成に失敗しました (/out/diff.zip): disk full".to_string()), 7));
    for (fail, text) in [
        (
            ReadFailure::PermissionDenied { detail: "os error 5".to_string() },
            "アクセスが拒否されました。ファイルが他で開かれている可能性があります (a\\b.txt): os error 5",
        ),
        (ReadFailure::OpenFailed { detail: "gone".to_string() }, "ファイルを開けませんでした (a\\b.txt): gone"),
        (ReadFailure::ReadFailed { detail: "eio".to_string() }, "ファイルを読み込めませんでした (a\\b.txt): eio"),
    ] {
        let mut r = git_replies("a\\b.txt\n");
        r.push(done());
        r.push(done());
        r.push(Reply::Exists(true));
        r.push(Reply::Read(Err(fail)));
        assert_eq!(next(&r, &[]), Step::Done(Err(text.to_string()), 9));
    }
    let mut r = git_replies("a\\b.txt\n");
    r.extend([done(), done(), Reply::Exists(true), Reply::Read(Ok(vec![1])), Reply::Io(Err("bad name".to_string()))]);
    assert_eq!(next(&r, &[]), Step::Done(Err("ZIP内ファイル作成失敗 (a/b.txt): bad name".to_string()), 10));
    r.pop();
    r.extend([done(), Reply::Io(Err("io".to_string()))]);
    assert_eq!(next(&r, &[]), Step::Done(Err("ZIP内データ書込失敗 (a/b.txt): io".to_string()), 11));
    r.pop();
    r.push(done());
    let base = r.len();
    let closing = [
        "readme.txtの追加に失敗しました: e",
        "readme.txtの書き込みに失敗しました: e",
        "ZIPの終了処理に失敗しました: e",
        "manifest.txtの書き込みに失敗しました: e",
    ];
    for (k, text) in closing.iter().enumerate() {
        let mut rr: Vec<Reply> = Vec::new();
        for x in r.iter() {
            rr.push(match x {
                Reply::Git(GitRun::Exited { success, stdout, stderr }) => {
                    Reply::Git(GitRun::Exited { success: *success, stdout: stdout.clone(), stderr: stderr.clone() })
                }
                Reply::Exists(b) => Reply::Exists(*b),
                Reply::Io(Ok(())) => done(),
                Reply::Read(Ok(d)) => Reply::Read(Ok(d.clone())),
                _ => unreachable!(),
            });
        }
        for _ in 0..k {
            rr.push(done());
        }
        rr.push(Reply::Io(Err("e".to_string())));
        assert_eq!(next(&rr, &[]), Step::Done(Err(text.to_string()), base + k + 1));
    }
}

#[test]
fn git_errors_end_the_archive() {
    let r = vec![Reply::Git(GitRun::Exited { success: false, stdout: vec![], stderr: vec![] })];
    assert_eq!(
        next(&r, &[]),
        Step::Done(
            Err("Gitリポジトリのルートが見つかりません。選択したフォルダがリポジトリ内にあるか確認してください。".to_string()),
            1
        )
    );
    let r = vec![ok("/repo"), Reply::Git(GitRun::SpawnFailed { error: "x".to_string() })];
    assert_eq!(next(&r, &[]), Step::Done(Err("git log 実行エラー: x".to_string()), 2));
}

#[test]
fn no_changes_give_an_archive_with_only_the_readme() {
    let mut r = vec![ok("/repo"), ok("h\nm"), Reply::Git(GitRun::Exited { success: false, stdout: vec![], stderr: vec![] })];
    r.push(done());
    r.push(done());
    assert_eq!(next(&r, &[]), Step::Perform(entry("readme.txt")));
}

#[test]
fn candidates_follow_the_patterns() {
    let files = strs(&["Src/Main.RS", "docs/Guide.md", "build/out.o", "keep.txt"]);
    assert_eq!(select_candidates(&files, &strs(&[])), files);
    assert_eq!(select_candidates(&files, &strs(&["  BUILD/ ", "", "   ", ".md"])), strs(&["Src/Main.RS", "keep.txt"]));
    assert_eq!(select_candidates(&files, &strs(&["main.rs"])), strs(&["docs/Guide.md", "build/out.o", "keep.txt"]));
    assert_eq!(select_candidates(&strs(&["ÄRGER.txt"]), &strs(&["ärger"])), strs(&[]));
}

#[test]
fn readme_and_manifest_texts() {
    let info = CommitInfo { hash: "HEAD~2 .. abc".to_string(), message: "[範囲] m".to_string() };
    let readme = readme_content(&info, &strs(&[]), &strs(&["a", "b"]), "now");
    assert_eq!(
        readme,
        "========================================\nGit差分ZIP\n========================================\n\n\
Commit : HEAD~2 .. abc\nMessage: [範囲] m\nDate   : now\n\nFiles  : 0\nExclude: a, b\n\
\n----------------------------------------\n----------------------------------------\n"
    );
    assert_eq!(manifest_content("abc", &strs(&[])), "Commit ID: abc\nIncluded Files:\n");
    let many: Vec<String> = (0..12).map(|i| format!("f{}", i)).collect();
    assert!(readme_content(&info, &many, &strs(&[]), "t").contains("Files  : 12\n"));
}

#[test]
fn the_time_is_read_for_the_readme() {
    let mut r = vec![ok("/repo"), ok("h\nm"), Reply::Git(GitRun::Exited { success: false, stdout: vec![], stderr: vec![] })];
    r.extend([done(), done(), done()]);
    let (step, now) = create_zip_step("git", "/repo", 0, 0, "/o.zip", &strs(&[]), &r);
    assert_eq!(now.len(), 19);
    assert_eq!(&now[4..5], "-");
    match step {
        Step::Perform(Effect::WriteEntry { data }) => {
            let text = String::from_utf8(data).unwrap();
            assert!(text.contains(&format!("Date   : {}\n\n", now)));
        }
        other => panic!("unexpected {:?}", other),
    }
}

#[test]
fn a_finished_archive_ignores_later_replies() {
    let mut r = git_replies("a.txt\n");
    r.push(Reply::Io(Err("denied".to_string())));
    let finished = next(&r, &[]);
    r.push(done());
    r.push(Reply::Exists(true));
    assert_eq!(next(&r, &[]), finished);
}

#[test]
fn archive_offsets_in_either_order() {
    let mut r = git_replies("a.txt\n");
    r.extend([done(), done(), Reply::Exists(false), done(), done()]);
    for k in 0..=r.len() {
        let ex = strs(&["x"]);
        assert_eq!(
            create_zip_next("git", "/repo", 3, 8, "/o.zip", &ex, "t", &r[..k]),
            create_zip_next("git", "/repo", 8, 3, "/o.zip", &ex, "t", &r[..k])
        );
    }
}

#[test]
fn the_largest_offset_overflows_only_when_files_are_listed() {
    let max = u32::MAX;
    assert!(!create_zip_overflows("git", "/repo", 0, max, "/o.zip", &[]));
    assert!(!create_zip_overflows("git", "/repo", 0, max, "/o.zip", &[ok("/repo")]));
    assert!(create_zip_overflows("git", "/repo", 0, max, "/o.zip", &[ok("/repo"), ok("h\nm")]));
    assert!(create_zip_overflows("git", "/repo", max, 1, "/o.zip", &[ok("/repo"), ok("h\nm")]));
    assert!(!create_zip_overflows("git", "/repo", 5, 1, "/o.zip", &[ok("/repo"), ok("h\nm")]));
    assert!(!create_zip_overflows("", "/repo", 0, max, "/o.zip", &[ok("/repo"), ok("h\nm")]));
    // Cleaned twice, `'"'` leaves nothing, and no files are listed.
    assert!(!create_zip_overflows("git", "'\"'", 0, max, "/o.zip", &[ok("/repo"), ok("h\nm")]));
    let failed = Reply::Git(GitRun::Exited { success: false, stdout: vec![], stderr: vec![] });
    assert!(!create_zip_overflows("git", "/repo", 0, max, "/o.zip", &[ok("/repo"), failed]));
}

#[test]
fn blank_patterns_exclude_nothing() {
    let files = strs(&["a.txt", " b ", "c/d"]);
    assert_eq!(select_candidates(&files, &strs(&["c/", "  ", "\u{3000}\t"])), select_candidates(&files, &strs(&["c/"])));
    assert_eq!(select_candidates(&files, &strs(&[" "])), files);
}

#[test]
fn exclusion_ignores_ascii_case() {
    let files = strs(&["Build/x.o", "src/Lib.rs", "README.md"]);
    let lower = strs(&["build/", "readme"]);
    let upper: Vec<String> = lower.iter().map(|p| p.to_ascii_uppercase()).collect();
    assert_eq!(select_candidates(&files, &upper), select_candidates(&files, &lower));
    assert_eq!(select_candidates(&files, &lower), strs(&["src/Lib.rs"]));
}

#[test]
fn more_patterns_filter_further() {
    let files = strs(&["a/1", "b/2", "a/3", "c/4", "b/5"]);
    let p = strs(&["a/"]);
    let q = strs(&["5", "c"]);
    let pq: Vec<String> = p.iter().chain(q.iter()).cloned().collect();
    let by_p = select_candidates(&files, &p);
    assert_eq!(select_candidates(&files, &pq), select_candidates(&by_p, &q));
    assert_eq!(select_candidates(&files, &pq), strs(&["b/2"]));
    assert_eq!(by_p, strs(&["b/2", "c/4", "b/5"]));
}

#[test]
fn exclusion_ignores_ascii_case_in_non_ascii_patterns() {
    let files = strs(&["docs/Überblick.md", "src/Ärger.rs", "keep.txt", "ΟΔΟΣ/σ.txt"]);
    let lower = strs(&["überblick", "src/ärger", "οδος/"]);
    let upper: Vec<String> = lower.iter().map(|p| p.to_ascii_uppercase()).collect();
    assert_eq!(upper[1], "SRC/äRGER");
    assert_eq!(select_candidates(&files, &upper), select_candidates(&files, &lower));
    assert_eq!(select_candidates(&files, &lower), strs(&["keep.txt"]));
}
