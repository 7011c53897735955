//! The Git commands: which invocations each one makes, in which order, and
//! what their outcomes mean.
use vstd::prelude::*;
use vstd::string::*;

use crate::protocol::{
    exists_reply, exists_reply_at, git_reply, git_reply_at, Act, Effect, GitCommand, GitRun, Plan,
    Reply, Step,
};
use crate::records::{
    ChangedFiles, CommitHistoryItem, CommitInfo, EntryView, GitVersion, InfoView, VersionView,
};
use crate::text::{
    clean_path, cleaned, contains_chars, contains_text, decimal, decode_lossy, lines, lines_of,
    push_decimal, split_chars, split_on, string_of, strings, text, texts, to_chars,
    trim, trim_bounds, trim_str, utf8_lossy, CharClass,
};

verus! {

/// Appends one argument.
pub fn push_arg(args: &mut Vec<String>, a: &str)
    ensures
        strings(final(args)@) == strings(old(args)@).push(a@),
{
    let ghost before = args@;
    args.push(text(a));
    assert(strings(args@) =~= strings(before).push(a@));
}

/// Appends one argument held in a string.
pub fn push_arg_string(args: &mut Vec<String>, a: String)
    ensures
        strings(final(args)@) == strings(old(args)@).push(a@),
{
    let ghost before = args@;
    let ghost v = a@;
    args.push(a);
    assert(strings(args@) =~= strings(before).push(v));
}

/// No history entries.
fn no_entries() -> (r: Vec<CommitHistoryItem>)
    ensures
        r.deep_view() == Seq::<EntryView>::empty(),
{
    let r: Vec<CommitHistoryItem> = Vec::new();
    assert(r.deep_view() =~= Seq::<EntryView>::empty());
    r
}

/// The step that asks for a Git run.
fn run_git<T>(program: &String, dir: Option<&String>, args: Vec<String>) -> (s: Step<T>)
    ensures
        s matches Step::Perform(e) && e == Effect::Git(
            GitCommand {
                program: *program,
                dir: match dir {
                    Some(d) => Some(*d),
                    None => None,
                },
                args,
            },
        ),
{
    let d = match dir {
        Some(d) => Some(d.clone()),
        None => None,
    };
    Step::Perform(Effect::Git(GitCommand { program: program.clone(), dir: d, args }))
}

/// `prefix` followed by `detail`.
fn message(prefix: &str, detail: &str) -> (m: String)
    ensures
        m@ == prefix@ + detail@,
{
    let mut m = text(prefix);
    m.append(detail);
    m
}

// ---------------------------------------------------------------- repo root

pub open spec fn root_args() -> Seq<Seq<char>> {
    seq!["rev-parse"@, "--show-toplevel"@]
}

/// Finding the top directory of the repository that `repo` lies in: one
/// `git rev-parse --show-toplevel` run in `repo`, whose output, trimmed, is
/// the answer.
pub open spec fn repo_root_plan(git: Seq<char>, repo: Seq<char>, rs: Seq<Reply>) -> Plan<
    Seq<char>,
> {
    match git_reply(rs, 0) {
        None => Plan::Perform(Act::Git { program: git, dir: Some(repo), args: root_args() }),
        Some(GitRun::SpawnFailed { error }) => Plan::Done(
            Err("Git実行エラー (rev-parse): "@ + error@),
            1,
        ),
        Some(GitRun::Exited { success, stdout, stderr }) => if success {
            Plan::Done(Ok(trim(utf8_lossy(stdout@))), 1)
        } else {
            Plan::Done(
                Err(
                    "Gitリポジトリのルートが見つかりません。選択したフォルダがリポジトリ内にあるか確認してください。"@,
                ),
                1,
            )
        },
    }
}

/// The next step in finding the top directory of the repository.
pub fn repo_root_next(git_path: &str, repo_path: &str, replies: &[Reply]) -> (s: Step<String>)
    ensures
        s@ == repo_root_plan(git_path@, repo_path@, replies@),
        s matches Step::Done(_, used) ==> used <= replies@.len(),
{
    match git_reply_at(replies, 0) {
        None => {
            let mut args = Vec::new();
            push_arg(&mut args, "rev-parse");
            push_arg(&mut args, "--show-toplevel");
            assert(strings(args@) =~= root_args());
            let repo = text(repo_path);
            run_git(&text(git_path), Some(&repo), args)
        },
        Some(GitRun::SpawnFailed { error }) => Step::Done(
            Err(message("Git実行エラー (rev-parse): ", error.as_str())),
            1,
        ),
        Some(GitRun::Exited { success, stdout, .. }) => {
            if *success {
                let out = decode_lossy(stdout.as_slice());
                Step::Done(Ok(trim_str(out.as_str())), 1)
            } else {
                Step::Done(
                    Err(
                        text(
                            "Gitリポジトリのルートが見つかりません。選択したフォルダがリポジトリ内にあるか確認してください。",
                        ),
                    ),
                    1,
                )
            }
        },
    }
}

// ----------------------------------------------------------- validate repo

pub open spec fn git_dir_args() -> Seq<Seq<char>> {
    seq!["rev-parse"@, "--git-dir"@]
}

/// Checking a repository path: an empty path (once cleaned) is no
/// repository; a path that does not exist is an error; otherwise the answer
/// is whether `git rev-parse --git-dir` succeeds there.
pub open spec fn validate_repo_plan(git: Seq<char>, repo: Seq<char>, rs: Seq<Reply>) -> Plan<bool> {
    let g = cleaned(git);
    let r = cleaned(repo);
    if r.len() == 0 {
        Plan::Done(Ok(false), 0)
    } else {
        match exists_reply(rs, 0) {
            None => Plan::Perform(Act::PathExists { path: r }),
            Some(false) => Plan::Done(Err("パスが存在しません: "@ + r), 1),
            Some(true) => match git_reply(rs, 1) {
                None => Plan::Perform(Act::Git { program: g, dir: Some(r), args: git_dir_args() }),
                Some(GitRun::SpawnFailed { error }) => Plan::Done(
                    Err("Git実行エラー ("@ + g + "): "@ + error@),
                    2,
                ),
                Some(GitRun::Exited { success, stdout, stderr }) => Plan::Done(Ok(success), 2),
            },
        }
    }
}

/// The next step in checking a repository path.
pub fn validate_repo_next(git_path: &str, repo_path: &str, replies: &[Reply]) -> (s: Step<bool>)
    ensures
        s@ == validate_repo_plan(git_path@, repo_path@, replies@),
{
    let g = clean_path(git_path);
    let r = clean_path(repo_path);
    if r.as_str().is_empty() {
        return Step::Done(Ok(false), 0);
    }
    match exists_reply_at(replies, 0) {
        None => Step::Perform(Effect::PathExists { path: r }),
        Some(false) => Step::Done(Err(message("パスが存在しません: ", r.as_str())), 1),
        Some(true) => match git_reply_at(replies, 1) {
            None => {
                let mut args = Vec::new();
                push_arg(&mut args, "rev-parse");
                push_arg(&mut args, "--git-dir");
                assert(strings(args@) =~= git_dir_args());
                run_git(&g, Some(&r), args)
            },
            Some(GitRun::SpawnFailed { error }) => {
                let mut m = message("Git実行エラー (", g.as_str());
                m.append("): ");
                m.append(error.as_str());
                assert(m@ =~= "Git実行エラー ("@ + g@ + "): "@ + error@);
                Step::Done(Err(m), 2)
            },
            Some(GitRun::Exited { success, .. }) => Step::Done(Ok(*success), 2),
        },
    }
}

// ------------------------------------------------------------ validate git

/// Checking a Git executable: an empty path (once cleaned) is no Git;
/// otherwise `git --version` is run, and its trimmed output is the version
/// when it succeeds.
pub open spec fn validate_git_plan(git: Seq<char>, rs: Seq<Reply>) -> Plan<VersionView> {
    let g = cleaned(git);
    if g.len() == 0 {
        Plan::Done(Ok(VersionView { valid: false, version: Seq::empty() }), 0)
    } else {
        match git_reply(rs, 0) {
            None => Plan::Perform(Act::Git { program: g, dir: None, args: seq!["--version"@] }),
            Some(GitRun::SpawnFailed { error }) => Plan::Done(
                Err("Git実行エラー ("@ + g + "): "@ + error@),
                1,
            ),
            Some(GitRun::Exited { success, stdout, stderr }) => if success {
                Plan::Done(Ok(VersionView { valid: true, version: trim(utf8_lossy(stdout@)) }), 1)
            } else {
                Plan::Done(Ok(VersionView { valid: false, version: Seq::empty() }), 1)
            },
        }
    }
}

/// The next step in checking a Git executable.
pub fn validate_git_next(git_path: &str, replies: &[Reply]) -> (s: Step<GitVersion>)
    ensures
        s@ == validate_git_plan(git_path@, replies@),
{
    let g = clean_path(git_path);
    if g.as_str().is_empty() {
        return Step::Done(Ok(GitVersion { valid: false, version: String::new() }), 0);
    }
    match git_reply_at(replies, 0) {
        None => {
            let mut args = Vec::new();
            push_arg(&mut args, "--version");
            assert(strings(args@) =~= seq!["--version"@]);
            run_git(&g, None, args)
        },
        Some(GitRun::SpawnFailed { error }) => {
            let mut m = message("Git実行エラー (", g.as_str());
            m.append("): ");
            m.append(error.as_str());
            assert(m@ =~= "Git実行エラー ("@ + g@ + "): "@ + error@);
            Step::Done(Err(m), 1)
        },
        Some(GitRun::Exited { success, stdout, .. }) => {
            if *success {
                let out = decode_lossy(stdout.as_slice());
                Step::Done(Ok(GitVersion { valid: true, version: trim_str(out.as_str()) }), 1)
            } else {
                Step::Done(Ok(GitVersion { valid: false, version: String::new() }), 1)
            }
        },
    }
}

// ------------------------------------------------------------ fetch remote

/// Fetching from the remote: one `git fetch` run in the repository.
pub open spec fn fetch_plan(git: Seq<char>, repo: Seq<char>, rs: Seq<Reply>) -> Plan<()> {
    let g = cleaned(git);
    let r = cleaned(repo);
    match git_reply(rs, 0) {
        None => Plan::Perform(Act::Git { program: g, dir: Some(r), args: seq!["fetch"@] }),
        Some(GitRun::SpawnFailed { error }) => Plan::Done(Err("git fetch 実行エラー: "@ + error@), 1),
        Some(GitRun::Exited { success, stdout, stderr }) => if success {
            Plan::Done(Ok(()), 1)
        } else {
            Plan::Done(Err("Gitエラー (fetch): "@ + utf8_lossy(stderr@)), 1)
        },
    }
}

/// The next step in fetching from the remote.
pub fn fetch_next(git_path: &str, repo_path: &str, replies: &[Reply]) -> (s: Step<()>)
    ensures
        s@ == fetch_plan(git_path@, repo_path@, replies@),
{
    let g = clean_path(git_path);
    let r = clean_path(repo_path);
    match git_reply_at(replies, 0) {
        None => {
            let mut args = Vec::new();
            push_arg(&mut args, "fetch");
            assert(strings(args@) =~= seq!["fetch"@]);
            run_git(&g, Some(&r), args)
        },
        Some(GitRun::SpawnFailed { error }) => Step::Done(
            Err(message("git fetch 実行エラー: ", error.as_str())),
            1,
        ),
        Some(GitRun::Exited { success, stderr, .. }) => {
            if *success {
                Step::Done(Ok(()), 1)
            } else {
                let err = decode_lossy(stderr.as_slice());
                Step::Done(Err(message("Gitエラー (fetch): ", err.as_str())), 1)
            }
        },
    }
}


// ------------------------------------------------------------- commit info

/// The older of the two offsets from `HEAD` (the larger number).
pub open spec fn older(a: u32, b: u32) -> u32 {
    if a > b {
        a
    } else {
        b
    }
}

/// The newer of the two offsets from `HEAD` (the smaller number).
pub open spec fn newer(a: u32, b: u32) -> u32 {
    if a > b {
        b
    } else {
        a
    }
}

/// The revision `n` commits before `HEAD`.
pub open spec fn head_rev(n: nat) -> Seq<char> {
    "HEAD~"@ + decimal(n)
}

/// The item at `k`, or an empty text where there is none.
pub open spec fn item_or_empty(items: Seq<Seq<char>>, k: int) -> Seq<char> {
    if 0 <= k < items.len() {
        items[k]
    } else {
        Seq::empty()
    }
}

pub open spec fn log_args(new: u32) -> Seq<Seq<char>> {
    seq!["log"@, "--format=%H%n%s"@, "-1"@, head_rev(new as nat)]
}

/// What is shown of the commit range: for a single commit its hash and
/// subject; for a range, the older end and the newer commit's hash, and the
/// newer commit's subject marked as a range.
pub open spec fn commit_summary(old: u32, new: u32, out: Seq<char>) -> InfoView {
    let ls = lines(out);
    if old == new {
        InfoView { hash: item_or_empty(ls, 0), message: item_or_empty(ls, 1) }
    } else {
        InfoView {
            hash: head_rev(old as nat) + " .. "@ + item_or_empty(ls, 0),
            message: "[範囲] "@ + item_or_empty(ls, 1),
        }
    }
}

/// The error for a failed `git log`: a missing commit when Git complains of
/// an ambiguous argument, Git's own words otherwise.
pub open spec fn log_failure(new: u32, err: Seq<char>) -> Seq<char> {
    if contains_text(err, "ambiguous argument"@) {
        "指定されたコミット(HEAD~"@ + decimal(new as nat)
            + ")が存在しません。リポジトリのコミット数を確認してください。"@
    } else {
        "Gitエラー: "@ + err
    }
}

/// Describing the commits between two offsets from `HEAD`: one `git log`
/// of the newer commit.
pub open spec fn commit_info_plan(
    git: Seq<char>,
    repo: Seq<char>,
    from: u32,
    to: u32,
    rs: Seq<Reply>,
) -> Plan<InfoView> {
    let g = cleaned(git);
    let r = cleaned(repo);
    let old = older(from, to);
    let new = newer(from, to);
    match git_reply(rs, 0) {
        None => Plan::Perform(Act::Git { program: g, dir: Some(r), args: log_args(new) }),
        Some(GitRun::SpawnFailed { error }) => Plan::Done(Err("git log 実行エラー: "@ + error@), 1),
        Some(GitRun::Exited { success, stdout, stderr }) => if success {
            Plan::Done(Ok(commit_summary(old, new, utf8_lossy(stdout@))), 1)
        } else {
            Plan::Done(Err(log_failure(new, utf8_lossy(stderr@))), 1)
        },
    }
}

/// The revision `n` commits before `HEAD`, as text.
pub fn head_rev_text(n: u64) -> (r: String)
    ensures
        r@ == head_rev(n as nat),
{
    let mut r = text("HEAD~");
    push_decimal(&mut r, n);
    r
}

fn item_text(items: &Vec<Vec<char>>, k: usize) -> (r: String)
    ensures
        r@ == item_or_empty(texts(items@), k as int),
{
    if k < items.len() {
        let item = &items[k];
        assert(item@.subrange(0, item@.len() as int) =~= item@);
        string_of(item, 0, item.len())
    } else {
        String::new()
    }
}

/// What is shown of the commit range, from the decoded output of `git log`.
pub fn commit_summary_of(old: u32, new: u32, out: &str) -> (r: CommitInfo)
    ensures
        r.deep_view() == commit_summary(old, new, out@),
{
    let ls = lines_of(&to_chars(out));
    let hash = item_text(&ls, 0);
    let subject = item_text(&ls, 1);
    if old == new {
        CommitInfo { hash, message: subject }
    } else {
        let mut h = head_rev_text(old as u64);
        h.append(" .. ");
        h.append(hash.as_str());
        let m = message("[範囲] ", subject.as_str());
        assert(h@ =~= head_rev(old as nat) + " .. "@ + hash@);
        CommitInfo { hash: h, message: m }
    }
}

/// The error for a failed `git log`, from its decoded error output.
pub fn log_failure_message(new: u32, err: &str) -> (r: String)
    ensures
        r@ == log_failure(new, err@),
{
    let hay = to_chars(err);
    let needle = to_chars("ambiguous argument");
    if contains_chars(&hay, &needle) {
        let mut m = text("指定されたコミット(HEAD~");
        push_decimal(&mut m, new as u64);
        m.append(")が存在しません。リポジトリのコミット数を確認してください。");
        m
    } else {
        message("Gitエラー: ", err)
    }
}

/// The next step in describing the commits between two offsets from `HEAD`.
pub fn commit_info_next(
    git_path: &str,
    repo_path: &str,
    from_offset: u32,
    to_offset: u32,
    replies: &[Reply],
) -> (s: Step<CommitInfo>)
    ensures
        s@ == commit_info_plan(git_path@, repo_path@, from_offset, to_offset, replies@),
        s matches Step::Done(_, used) ==> used <= replies@.len(),
{
    let g = clean_path(git_path);
    let r = clean_path(repo_path);
    let (old, new) = if from_offset > to_offset {
        (from_offset, to_offset)
    } else {
        (to_offset, from_offset)
    };
    match git_reply_at(replies, 0) {
        None => {
            let mut args = Vec::new();
            push_arg(&mut args, "log");
            push_arg(&mut args, "--format=%H%n%s");
            push_arg(&mut args, "-1");
            push_arg_string(&mut args, head_rev_text(new as u64));
            assert(strings(args@) =~= log_args(new));
            run_git(&g, Some(&r), args)
        },
        Some(GitRun::SpawnFailed { error }) => Step::Done(
            Err(message("git log 実行エラー: ", error.as_str())),
            1,
        ),
        Some(GitRun::Exited { success, stdout, stderr }) => {
            if *success {
                let out = decode_lossy(stdout.as_slice());
                Step::Done(Ok(commit_summary_of(old, new, out.as_str())), 1)
            } else {
                let err = decode_lossy(stderr.as_slice());
                Step::Done(Err(log_failure_message(new, err.as_str())), 1)
            }
        },
    }
}

// ---------------------------------------------------------- commit history

/// One line of the history listing, at position `i`: the hash, subject and
/// date are the fields between unit separators, empty where missing.
pub open spec fn history_entry(i: int, line: Seq<char>) -> EntryView {
    let parts = split_on(line, '\u{1f}');
    EntryView {
        index: i as u32,
        hash: item_or_empty(parts, 0),
        message: item_or_empty(parts, 1),
        date: item_or_empty(parts, 2),
    }
}

/// The history listing: one entry per line of Git's output, in order.
pub open spec fn history_entries(out: Seq<char>) -> Seq<EntryView> {
    let ls = lines(out);
    Seq::new(ls.len(), |i: int| history_entry(i, ls[i]))
}

pub open spec fn history_log_args(count: u32) -> Seq<Seq<char>> {
    seq![
        "-c"@,
        "core.quotepath=false"@,
        "log"@,
        "--format=%H\u{1f}%s\u{1f}%ai"@,
        "-n"@,
        decimal(count as nat),
    ]
}

/// Listing the latest `count` commits: none for an empty repository path
/// or a repository without commits (`git rev-parse HEAD` does not succeed);
/// otherwise one `git log` whose lines become the entries.
pub open spec fn history_plan(git: Seq<char>, repo: Seq<char>, count: u32, rs: Seq<Reply>) -> Plan<
    Seq<EntryView>,
> {
    let g = cleaned(git);
    let r = cleaned(repo);
    if r.len() == 0 {
        Plan::Done(Ok(Seq::empty()), 0)
    } else {
        match git_reply(rs, 0) {
            None => Plan::Perform(
                Act::Git { program: g, dir: Some(r), args: seq!["rev-parse"@, "HEAD"@] },
            ),
            Some(head) => if head matches GitRun::Exited { success, .. } && success {
                match git_reply(rs, 1) {
                    None => Plan::Perform(
                        Act::Git { program: g, dir: Some(r), args: history_log_args(count) },
                    ),
                    Some(GitRun::SpawnFailed { error }) => Plan::Done(
                        Err("git log 実行エラー: "@ + error@),
                        2,
                    ),
                    Some(GitRun::Exited { success, stdout, stderr }) => if success {
                        Plan::Done(Ok(history_entries(utf8_lossy(stdout@))), 2)
                    } else {
                        Plan::Done(Err("Gitエラー (履歴取得): "@ + utf8_lossy(stderr@)), 2)
                    },
                }
            } else {
                Plan::Done(Ok(Seq::empty()), 1)
            },
        }
    }
}

/// The history entries, from the decoded output of `git log`.
pub fn history_items(out: &str) -> (r: Vec<CommitHistoryItem>)
    ensures
        r.deep_view() == history_entries(out@),
{
    let ls = lines_of(&to_chars(out));
    let ghost spec_lines = lines(out@);
    let mut items: Vec<CommitHistoryItem> = Vec::new();
    for i in 0..ls.len()
        invariant
            texts(ls@) == spec_lines,
            spec_lines == lines(out@),
            items.deep_view() =~= history_entries(out@).take(i as int),
    {
        let parts = split_chars(&ls[i], '\u{1f}');
        let item = CommitHistoryItem {
            index: i as u32,
            hash: item_text(&parts, 0),
            message: item_text(&parts, 1),
            date: item_text(&parts, 2),
        };
        assert(item.deep_view() == history_entry(i as int, spec_lines[i as int]));
        let ghost before = items.deep_view();
        items.push(item);
        assert(items.deep_view() =~= before.push(item.deep_view()));
    }
    items
}

/// The next step in listing the latest `count` commits.
pub fn history_next(git_path: &str, repo_path: &str, count: u32, replies: &[Reply]) -> (s: Step<
    Vec<CommitHistoryItem>,
>)
    ensures
        s@ == history_plan(git_path@, repo_path@, count, replies@),
{
    let g = clean_path(git_path);
    let r = clean_path(repo_path);
    if r.as_str().is_empty() {
        return Step::Done(Ok(no_entries()), 0);
    }
    match git_reply_at(replies, 0) {
        None => {
            let mut args = Vec::new();
            push_arg(&mut args, "rev-parse");
            push_arg(&mut args, "HEAD");
            assert(strings(args@) =~= seq!["rev-parse"@, "HEAD"@]);
            run_git(&g, Some(&r), args)
        },
        Some(GitRun::Exited { success: true, .. }) => match git_reply_at(replies, 1) {
            None => {
                let mut args = Vec::new();
                push_arg(&mut args, "-c");
                push_arg(&mut args, "core.quotepath=false");
                push_arg(&mut args, "log");
                push_arg(&mut args, "--format=%H\u{1f}%s\u{1f}%ai");
                push_arg(&mut args, "-n");
                let mut n = String::new();
                push_decimal(&mut n, count as u64);
                assert(n@ =~= decimal(count as nat));
                push_arg_string(&mut args, n);
                assert(strings(args@) =~= history_log_args(count));
                run_git(&g, Some(&r), args)
            },
            Some(GitRun::SpawnFailed { error }) => Step::Done(
                Err(message("git log 実行エラー: ", error.as_str())),
                2,
            ),
            Some(GitRun::Exited { success, stdout, stderr }) => {
                if *success {
                    let out = decode_lossy(stdout.as_slice());
                    Step::Done(Ok(history_items(out.as_str())), 2)
                } else {
                    let err = decode_lossy(stderr.as_slice());
                    Step::Done(Err(message("Gitエラー (履歴取得): ", err.as_str())), 2)
                }
            },
        },
        Some(_) => Step::Done(Ok(no_entries()), 1),
    }
}


// ----------------------------------------------------------- changed files

/// The hash of Git's empty tree, the base for a diff from the first commit.
pub open spec fn empty_tree() -> Seq<char> {
    "4b825dc642cb6eb9a060e54bf8d69288fbee4904"@
}

/// The lines that hold more than white space, in order.
pub open spec fn nonblank(ls: Seq<Seq<char>>) -> Seq<Seq<char>>
    decreases ls.len(),
{
    if ls.len() == 0 {
        Seq::empty()
    } else {
        let kept = nonblank(ls.drop_last());
        if trim(ls.last()).len() > 0 {
            kept.push(ls.last())
        } else {
            kept
        }
    }
}

pub open spec fn diff_args(base: Seq<char>, target: Seq<char>) -> Seq<Seq<char>> {
    seq!["-c"@, "core.quotepath=false"@, "diff"@, "--name-only"@, base, target]
}

/// Listing the files changed from the commit before the older offset to
/// the newer offset: none for an empty repository path or a repository
/// without commits; the base is the empty tree where the commit before the
/// older offset does not exist; the files are the non-blank lines of
/// `git diff --name-only`.
pub open spec fn changed_files_plan(
    git: Seq<char>,
    repo: Seq<char>,
    from: u32,
    to: u32,
    rs: Seq<Reply>,
) -> Plan<Seq<Seq<char>>> {
    let g = cleaned(git);
    let r = cleaned(repo);
    if r.len() == 0 {
        Plan::Done(Ok(Seq::empty()), 0)
    } else {
        let rev_new = head_rev(newer(from, to) as nat);
        let rev_old = head_rev((older(from, to) + 1) as nat);
        match git_reply(rs, 0) {
            None => Plan::Perform(
                Act::Git { program: g, dir: Some(r), args: seq!["rev-parse"@, "--verify"@, "HEAD"@] },
            ),
            Some(head) => if head matches GitRun::Exited { success, .. } && success {
                match git_reply(rs, 1) {
                    None => Plan::Perform(
                        Act::Git {
                            program: g,
                            dir: Some(r),
                            args: seq!["rev-parse"@, "--verify"@, rev_old],
                        },
                    ),
                    Some(base) => {
                        let resolved = if base matches GitRun::Exited { success, .. } && success {
                            rev_old
                        } else {
                            empty_tree()
                        };
                        match git_reply(rs, 2) {
                            None => Plan::Perform(
                                Act::Git {
                                    program: g,
                                    dir: Some(r),
                                    args: diff_args(resolved, rev_new),
                                },
                            ),
                            Some(GitRun::SpawnFailed { error }) => Plan::Done(
                                Err("git diff 実行エラー: "@ + error@),
                                3,
                            ),
                            Some(GitRun::Exited { success, stdout, stderr }) => if success {
                                Plan::Done(Ok(nonblank(lines(utf8_lossy(stdout@)))), 3)
                            } else {
                                Plan::Done(Err("Gitエラー (差分取得): "@ + utf8_lossy(stderr@)), 3)
                            },
                        }
                    },
                }
            } else {
                Plan::Done(Ok(Seq::empty()), 1)
            },
        }
    }
}

/// The changed files, from the decoded output of `git diff --name-only`:
/// its non-blank lines.
pub fn changed_files_in(out: &str) -> (r: ChangedFiles)
    ensures
        r.deep_view() == nonblank(lines(out@)),
{
    let ls = lines_of(&to_chars(out));
    let mut files: Vec<String> = Vec::new();
    for i in 0..ls.len()
        invariant
            texts(ls@) == lines(out@),
            strings(files@) == nonblank(texts(ls@).take(i as int)),
    {
        let line = &ls[i];
        assert(texts(ls@).take(i + 1).drop_last() =~= texts(ls@).take(i as int));
        assert(line@.subrange(0, line@.len() as int) =~= line@);
        let (a, b) = trim_bounds(line, 0, line.len(), &CharClass::WhiteSpace);
        if a < b {
            push_arg_string(&mut files, string_of(line, 0, line.len()));
        }
    }
    assert(texts(ls@).take(ls@.len() as int) =~= texts(ls@));
    ChangedFiles { files }
}

/// No changed files.
fn no_files() -> (r: ChangedFiles)
    ensures
        r.deep_view() == Seq::<Seq<char>>::empty(),
{
    let r = ChangedFiles { files: Vec::new() };
    assert(r.deep_view() =~= Seq::<Seq<char>>::empty());
    r
}

/// The next step in listing the changed files.
pub fn changed_files_next(
    git_path: &str,
    repo_path: &str,
    from_offset: u32,
    to_offset: u32,
    replies: &[Reply],
) -> (s: Step<ChangedFiles>)
    requires
        cleaned(repo_path@).len() > 0 ==> older(from_offset, to_offset) < u32::MAX,
    ensures
        s@ == changed_files_plan(git_path@, repo_path@, from_offset, to_offset, replies@),
        s matches Step::Done(_, used) ==> used <= replies@.len(),
{
    let g = clean_path(git_path);
    let r = clean_path(repo_path);
    if r.as_str().is_empty() {
        return Step::Done(Ok(no_files()), 0);
    }
    let (old, new) = if from_offset > to_offset {
        (from_offset, to_offset)
    } else {
        (to_offset, from_offset)
    };
    let rev_new = head_rev_text(new as u64);
    let rev_old = head_rev_text(old as u64 + 1);
    match git_reply_at(replies, 0) {
        None => {
            let mut args = Vec::new();
            push_arg(&mut args, "rev-parse");
            push_arg(&mut args, "--verify");
            push_arg(&mut args, "HEAD");
            assert(strings(args@) =~= seq!["rev-parse"@, "--verify"@, "HEAD"@]);
            run_git(&g, Some(&r), args)
        },
        Some(GitRun::Exited { success: true, .. }) => match git_reply_at(replies, 1) {
            None => {
                let mut args = Vec::new();
                push_arg(&mut args, "rev-parse");
                push_arg(&mut args, "--verify");
                push_arg_string(&mut args, rev_old);
                assert(strings(args@) =~= seq!["rev-parse"@, "--verify"@, head_rev((old + 1) as nat)]);
                run_git(&g, Some(&r), args)
            },
            Some(base) => {
                let resolved = match base {
                    GitRun::Exited { success: true, .. } => rev_old,
                    _ => text("4b825dc642cb6eb9a060e54bf8d69288fbee4904"),
                };
                match git_reply_at(replies, 2) {
                    None => {
                        let mut args = Vec::new();
                        push_arg(&mut args, "-c");
                        push_arg(&mut args, "core.quotepath=false");
                        push_arg(&mut args, "diff");
                        push_arg(&mut args, "--name-only");
                        let ghost base_rev = resolved@;
                        push_arg_string(&mut args, resolved);
                        push_arg_string(&mut args, rev_new);
                        assert(strings(args@) =~= diff_args(base_rev, head_rev(new as nat)));
                        run_git(&g, Some(&r), args)
                    },
                    Some(GitRun::SpawnFailed { error }) => Step::Done(
                        Err(message("git diff 実行エラー: ", error.as_str())),
                        3,
                    ),
                    Some(GitRun::Exited { success, stdout, stderr }) => {
                        if *success {
                            let out = decode_lossy(stdout.as_slice());
                            Step::Done(Ok(changed_files_in(out.as_str())), 3)
                        } else {
                            let err = decode_lossy(stderr.as_slice());
                            Step::Done(Err(message("Gitエラー (差分取得): ", err.as_str())), 3)
                        }
                    },
                }
            },
        },
        Some(_) => Step::Done(Ok(no_files()), 1),
    }
}

} // verus!
