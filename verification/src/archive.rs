//! Making the archive: which changed files go into it, under which names,
//! the `readme.txt` inside it and the `manifest.txt` beside it, and the
//! order of the work.
use vstd::prelude::*;
use vstd::string::*;
use vstd::utf8::encode_utf8;

use crate::git::{
    changed_files_next, changed_files_plan, commit_info_next, commit_info_plan, older,
    repo_root_next, repo_root_plan,
};
use crate::protocol::{
    exists_reply, exists_reply_at, io_reply, io_reply_at, read_reply, read_reply_at, Act,
    Compression, Effect, Plan, ReadFailure, Reply, Step, ENTRY_PERMISSIONS,
};
use crate::records::{ChangedFiles, CommitInfo, InfoView};
use crate::text::{
    clean_path, cleaned, contains_chars, contains_text, decimal, forward_slashes, joined,
    lowercase, push_decimal, push_joined, replace_backslashes, strings, text, texts, to_chars,
    to_lower, trim, trim_str,
};

verus! {

// ------------------------------------------------------------- exclusions

/// A lower-cased pattern applies to a lower-cased path when, trimmed, it is
/// not empty and stands in the path.
pub open spec fn lowered_hits(lower_path: Seq<char>, lower_pattern: Seq<char>) -> bool {
    let p = trim(lower_pattern);
    p.len() > 0 && contains_text(lower_path, p)
}

/// An exclusion pattern applies to a path when, both lower-cased and the
/// pattern trimmed, the pattern is not empty and stands in the path.
pub open spec fn pattern_hits(lower_path: Seq<char>, pattern: Seq<char>) -> bool {
    lowered_hits(lower_path, lowercase(pattern))
}

/// Some exclusion pattern applies to `path`.
pub open spec fn excluded(path: Seq<char>, excludes: Seq<Seq<char>>) -> bool {
    exists|j: int| 0 <= j < excludes.len() && pattern_hits(lowercase(path), #[trigger] excludes[j])
}

/// The changed files that no exclusion pattern applies to, in order.
pub open spec fn candidates(files: Seq<Seq<char>>, excludes: Seq<Seq<char>>) -> Seq<Seq<char>>
    decreases files.len(),
{
    if files.len() == 0 {
        Seq::empty()
    } else {
        let kept = candidates(files.drop_last(), excludes);
        if excluded(files.last(), excludes) {
            kept
        } else {
            kept.push(files.last())
        }
    }
}

/// Whether some of the lower-cased patterns applies to the lower-cased path.
pub fn lowered_excluded(lower_path: &str, lower_patterns: &Vec<String>) -> (b: bool)
    ensures
        b == exists|k: int|
            0 <= k < lower_patterns@.len() && lowered_hits(lower_path@, #[trigger] lower_patterns@[k]@),
{
    let path = to_chars(lower_path);
    let mut hit = false;
    for j in 0..lower_patterns.len()
        invariant
            path@ == lower_path@,
            hit == exists|k: int|
                0 <= k < j && lowered_hits(lower_path@, #[trigger] lower_patterns@[k]@),
    {
        let p = to_chars(trim_str(lower_patterns[j].as_str()).as_str());
        if p.len() > 0 && contains_chars(&path, &p) {
            hit = true;
        }
    }
    hit
}

/// The changed files that no exclusion pattern applies to, in order.
pub fn select_candidates(files: &Vec<String>, excludes: &Vec<String>) -> (r: Vec<String>)
    ensures
        strings(r@) == candidates(strings(files@), strings(excludes@)),
{
    let mut lowered: Vec<String> = Vec::new();
    for j in 0..excludes.len()
        invariant
            lowered@.len() == j,
            forall|k: int| 0 <= k < j ==> #[trigger] lowered@[k]@ == lowercase(excludes@[k]@),
    {
        lowered.push(to_lower(excludes[j].as_str()));
    }
    let mut kept: Vec<String> = Vec::new();
    for i in 0..files.len()
        invariant
            lowered@.len() == excludes@.len(),
            forall|k: int|
                0 <= k < excludes@.len() ==> #[trigger] lowered@[k]@ == lowercase(excludes@[k]@),
            strings(kept@) == candidates(strings(files@).take(i as int), strings(excludes@)),
    {
        let path = &files[i];
        let lower = to_lower(path.as_str());
        let hit = lowered_excluded(lower.as_str(), &lowered);
        proof {
            if hit {
                let k = choose|k: int|
                    0 <= k < lowered@.len() && lowered_hits(lower@, #[trigger] lowered@[k]@);
                assert(pattern_hits(lowercase(path@), strings(excludes@)[k]));
            }
            if excluded(path@, strings(excludes@)) {
                let k = choose|k: int|
                    0 <= k < strings(excludes@).len() && pattern_hits(
                        lowercase(path@),
                        #[trigger] strings(excludes@)[k],
                    );
                assert(lowered_hits(lower@, lowered@[k]@));
            }
        }
        let ghost taken = strings(files@).take(i + 1);
        assert(taken.drop_last() =~= strings(files@).take(i as int));
        assert(taken.last() == path@);
        assert(hit == excluded(path@, strings(excludes@)));
        if !hit {
            let ghost before = kept@;
            kept.push(path.clone());
            assert(strings(kept@) =~= strings(before).push(path@));
        }
    }
    assert(strings(files@).take(files@.len() as int) =~= strings(files@));
    kept
}

// ------------------------------------------------------------------ texts

/// Each file on a line of its own, after `prefix`.
pub open spec fn listing(prefix: Seq<char>, files: Seq<Seq<char>>) -> Seq<char>
    decreases files.len(),
{
    if files.len() == 0 {
        Seq::empty()
    } else {
        listing(prefix, files.drop_last()) + prefix + files.last() + "\n"@
    }
}

/// The `Exclude:` line of the readme; none where no pattern was given.
pub open spec fn exclude_line(excludes: Seq<Seq<char>>) -> Seq<char> {
    if excludes.len() > 0 {
        "Exclude: "@ + joined(excludes, ", "@) + "\n"@
    } else {
        Seq::empty()
    }
}

/// The `readme.txt` stored in the archive.
pub open spec fn readme_text(
    info: InfoView,
    included: Seq<Seq<char>>,
    excludes: Seq<Seq<char>>,
    now: Seq<char>,
) -> Seq<char> {
    "========================================\n"@ + "Git差分ZIP\n"@
        + "========================================\n\n"@ + "Commit : "@ + info.hash + "\n"@
        + "Message: "@ + info.message + "\n"@ + "Date   : "@ + now + "\n\n"@ + "Files  : "@
        + decimal(included.len()) + "\n"@ + exclude_line(excludes)
        + "\n----------------------------------------\n"@ + listing(Seq::empty(), included)
        + "----------------------------------------\n"@
}

/// The `manifest.txt` written beside the archive.
pub open spec fn manifest_text(hash: Seq<char>, included: Seq<Seq<char>>) -> Seq<char> {
    "Commit ID: "@ + hash + "\n"@ + "Included Files:\n"@ + listing("- "@, included)
}

/// Appends each file on a line of its own, after `prefix`.
fn push_listing(out: &mut String, prefix: &str, files: &Vec<String>)
    ensures
        final(out)@ == old(out)@ + listing(prefix@, strings(files@)),
{
    let ghost start = out@;
    for i in 0..files.len()
        invariant
            out@ == start + listing(prefix@, strings(files@).take(i as int)),
    {
        let ghost taken = strings(files@).take(i + 1);
        assert(taken.drop_last() =~= strings(files@).take(i as int));
        out.append(prefix);
        out.append(files[i].as_str());
        out.append("\n");
        assert(out@ =~= start + listing(prefix@, taken));
    }
    assert(strings(files@).take(files@.len() as int) =~= strings(files@));
}

/// The `readme.txt` stored in the archive.
pub fn readme_content(
    info: &CommitInfo,
    included: &Vec<String>,
    excludes: &Vec<String>,
    now: &str,
) -> (r: String)
    ensures
        r@ == readme_text(info.deep_view(), strings(included@), strings(excludes@), now@),
{
    let mut r = text("========================================\n");
    r.append("Git差分ZIP\n");
    r.append("========================================\n\n");
    r.append("Commit : ");
    r.append(info.hash.as_str());
    r.append("\n");
    r.append("Message: ");
    r.append(info.message.as_str());
    r.append("\n");
    r.append("Date   : ");
    r.append(now);
    r.append("\n\n");
    r.append("Files  : ");
    push_decimal(&mut r, included.len() as u64);
    r.append("\n");
    let ghost head = r@;
    if excludes.len() > 0 {
        r.append("Exclude: ");
        push_joined(&mut r, excludes, ", ");
        r.append("\n");
    }
    assert(r@ =~= head + exclude_line(strings(excludes@)));
    r.append("\n----------------------------------------\n");
    push_listing(&mut r, "", included);
    r.append("----------------------------------------\n");
    proof {
        reveal_strlit("");
    }
    assert(""@ =~= Seq::<char>::empty());
    r
}

/// The `manifest.txt` written beside the archive.
pub fn manifest_content(hash: &str, included: &Vec<String>) -> (r: String)
    ensures
        r@ == manifest_text(hash@, strings(included@)),
{
    let mut r = text("Commit ID: ");
    r.append(hash);
    r.append("\n");
    r.append("Included Files:\n");
    push_listing(&mut r, "- ", included);
    r
}


// ------------------------------------------------------------ the protocol

/// Where the work on the changed files stands: an effect is needed, a file
/// could not be stored (with the error, after `used` replies), or all are
/// through, at reply `pos`, with the files that were stored.
pub enum Progress {
    Ask(Act),
    Fail(Seq<char>, nat),
    Through(nat, Seq<Seq<char>>),
}

/// The error for a file that could not be read.
pub open spec fn read_failure_text(file: Seq<char>, fail: ReadFailure) -> Seq<char> {
    match fail {
        ReadFailure::PermissionDenied { detail } => "アクセスが拒否されました。ファイルが他で開かれている可能性があります ("@
            + file + "): "@ + detail@,
        ReadFailure::OpenFailed { detail } => "ファイルを開けませんでした ("@ + file + "): "@
            + detail@,
        ReadFailure::ReadFailed { detail } => "ファイルを読み込めませんでした ("@ + file + "): "@
            + detail@,
    }
}

/// Storing the candidate files from reply `pos` on: each that is a regular
/// file under the repository root is read and stored under its path with
/// forward slashes; `included` are the files stored so far.
pub open spec fn entries_plan(
    root: Seq<char>,
    files: Seq<Seq<char>>,
    rs: Seq<Reply>,
    pos: nat,
    included: Seq<Seq<char>>,
) -> Progress
    decreases files.len(),
{
    if files.len() == 0 {
        Progress::Through(pos, included)
    } else {
        let f = files[0];
        match exists_reply(rs, pos) {
            None => Progress::Ask(Act::IsFile { root, file: f }),
            Some(false) => entries_plan(root, files.drop_first(), rs, pos + 1, included),
            Some(true) => match read_reply(rs, pos + 1) {
                None => Progress::Ask(Act::ReadFile { root, file: f }),
                Some(Err(fail)) => Progress::Fail(read_failure_text(f, fail), pos + 2),
                Some(Ok(data)) => {
                    let name = forward_slashes(f);
                    match io_reply(rs, pos + 2) {
                        None => Progress::Ask(
                            Act::StartEntry {
                                name,
                                compression: Compression::Deflated,
                                permissions: ENTRY_PERMISSIONS,
                            },
                        ),
                        Some(Err(e)) => Progress::Fail(
                            "ZIP内ファイル作成失敗 ("@ + name + "): "@ + e@,
                            pos + 3,
                        ),
                        Some(Ok(_)) => match io_reply(rs, pos + 3) {
                            None => Progress::Ask(Act::WriteEntry { data: data@ }),
                            Some(Err(e)) => Progress::Fail(
                                "ZIP内データ書込失敗 ("@ + name + "): "@ + e@,
                                pos + 4,
                            ),
                            Some(Ok(_)) => entries_plan(
                                root,
                                files.drop_first(),
                                rs,
                                pos + 4,
                                included.push(f),
                            ),
                        },
                    }
                },
            },
        }
    }
}

/// Closing the archive from reply `pos` on: `readme.txt` is stored, the
/// archive finished, and `manifest.txt` written.
pub open spec fn closing_plan(
    output: Seq<char>,
    info: InfoView,
    included: Seq<Seq<char>>,
    excludes: Seq<Seq<char>>,
    now: Seq<char>,
    rs: Seq<Reply>,
    pos: nat,
) -> Plan<()> {
    match io_reply(rs, pos) {
        None => Plan::Perform(
            Act::StartEntry {
                name: "readme.txt"@,
                compression: Compression::Deflated,
                permissions: ENTRY_PERMISSIONS,
            },
        ),
        Some(Err(e)) => Plan::Done(Err("readme.txtの追加に失敗しました: "@ + e@), pos + 1),
        Some(Ok(_)) => match io_reply(rs, pos + 1) {
            None => Plan::Perform(
                Act::WriteEntry { data: encode_utf8(readme_text(info, included, excludes, now)) },
            ),
            Some(Err(e)) => Plan::Done(Err("readme.txtの書き込みに失敗しました: "@ + e@), pos + 2),
            Some(Ok(_)) => match io_reply(rs, pos + 2) {
                None => Plan::Perform(Act::FinishArchive),
                Some(Err(e)) => Plan::Done(Err("ZIPの終了処理に失敗しました: "@ + e@), pos + 3),
                Some(Ok(_)) => match io_reply(rs, pos + 3) {
                    None => Plan::Perform(
                        Act::WriteManifest { output, content: manifest_text(info.hash, included) },
                    ),
                    Some(Err(e)) => Plan::Done(
                        Err("manifest.txtの書き込みに失敗しました: "@ + e@),
                        pos + 4,
                    ),
                    Some(Ok(_)) => Plan::Done(Ok(()), pos + 4),
                },
            },
        },
    }
}

/// Writing the archive once the repository root, the commit and the changed
/// files are known: the output directory is prepared, the archive created,
/// the candidate files stored, and the archive closed.
pub open spec fn archive_plan(
    output: Seq<char>,
    root: Seq<char>,
    info: InfoView,
    files: Seq<Seq<char>>,
    excludes: Seq<Seq<char>>,
    now: Seq<char>,
    rs: Seq<Reply>,
) -> Plan<()> {
    match io_reply(rs, 0) {
        None => Plan::Perform(Act::PrepareOutputDir { output }),
        Some(Err(e)) => Plan::Done(Err("出力先フォルダの作成に失敗しました: "@ + e@), 1),
        Some(Ok(_)) => match io_reply(rs, 1) {
            None => Plan::Perform(Act::CreateArchive { output }),
            Some(Err(e)) => Plan::Done(
                Err("ZIPファイルの作成に失敗しました ("@ + output + "): "@ + e@),
                2,
            ),
            Some(Ok(_)) => match entries_plan(root, candidates(files, excludes), rs, 2, Seq::empty()) {
                Progress::Ask(a) => Plan::Perform(a),
                Progress::Fail(e, used) => Plan::Done(Err(e), used),
                Progress::Through(pos, included) => closing_plan(
                    output,
                    info,
                    included,
                    excludes,
                    now,
                    rs,
                    pos,
                ),
            },
        },
    }
}

/// `p` with `k` more replies counted as read.
pub open spec fn after<T>(k: nat, p: Plan<T>) -> Plan<T> {
    match p {
        Plan::Perform(a) => Plan::Perform(a),
        Plan::Done(r, used) => Plan::Done(r, used + k),
    }
}

/// Making the archive of the files changed between two offsets from
/// `HEAD`: the Git path, repository and output path must not be empty once
/// cleaned; then the repository root, the commit and the changed files are
/// found, in that order, each on the replies that the one before left, and
/// the first error ends the work.
pub open spec fn zip_plan(
    git: Seq<char>,
    repo: Seq<char>,
    from: u32,
    to: u32,
    output: Seq<char>,
    excludes: Seq<Seq<char>>,
    now: Seq<char>,
    rs: Seq<Reply>,
) -> Plan<()> {
    let g = cleaned(git);
    let r = cleaned(repo);
    let o = cleaned(output);
    if g.len() == 0 {
        Plan::Done(Err("Git実行ファイルが指定されていません"@), 0)
    } else if r.len() == 0 {
        Plan::Done(Err("リポジトリが指定されていません"@), 0)
    } else if o.len() == 0 {
        Plan::Done(Err("出力先が指定されていません"@), 0)
    } else {
        match repo_root_plan(g, r, rs) {
            Plan::Perform(a) => Plan::Perform(a),
            Plan::Done(Err(e), u1) => Plan::Done(Err(e), u1),
            Plan::Done(Ok(root), u1) => {
                let rs2 = rs.skip(u1 as int);
                match commit_info_plan(g, r, from, to, rs2) {
                    Plan::Perform(a) => Plan::Perform(a),
                    Plan::Done(Err(e), u2) => Plan::Done(Err(e), u1 + u2),
                    Plan::Done(Ok(info), u2) => {
                        let rs3 = rs2.skip(u2 as int);
                        match changed_files_plan(g, r, from, to, rs3) {
                            Plan::Perform(a) => Plan::Perform(a),
                            Plan::Done(Err(e), u3) => Plan::Done(Err(e), u1 + u2 + u3),
                            Plan::Done(Ok(files), u3) => after(
                                u1 + u2 + u3,
                                archive_plan(
                                    o,
                                    root,
                                    info,
                                    files,
                                    excludes,
                                    now,
                                    rs3.skip(u3 as int),
                                ),
                            ),
                        }
                    },
                }
            },
        }
    }
}

/// Making the archive gets as far as listing the changed files: the paths
/// are not empty once cleaned, the repository root and the commit are found,
/// and the repository path, cleaned once more, is not empty. Listing them
/// counts one commit past the older offset.
pub open spec fn zip_lists_files(
    git: Seq<char>,
    repo: Seq<char>,
    from: u32,
    to: u32,
    output: Seq<char>,
    rs: Seq<Reply>,
) -> bool {
    let g = cleaned(git);
    let r = cleaned(repo);
    &&& g.len() > 0
    &&& r.len() > 0
    &&& cleaned(output).len() > 0
    &&& cleaned(r).len() > 0
    &&& repo_root_plan(g, r, rs) matches Plan::Done(Ok(_), u1) && commit_info_plan(
        g,
        r,
        from,
        to,
        rs.skip(u1 as int),
    ) matches Plan::Done(Ok(_), _)
}

/// Whether the next step of making the archive would count past the
/// largest offset: it gets as far as listing the changed files, and the
/// older offset is `u32::MAX`.
pub fn create_zip_overflows(
    git_path: &str,
    repo_path: &str,
    from_offset: u32,
    to_offset: u32,
    output_path: &str,
    replies: &[Reply],
) -> (b: bool)
    ensures
        b == (zip_lists_files(git_path@, repo_path@, from_offset, to_offset, output_path@, replies@)
            && older(from_offset, to_offset) == u32::MAX),
{
    if from_offset != u32::MAX && to_offset != u32::MAX {
        return false;
    }
    let g = clean_path(git_path);
    let r = clean_path(repo_path);
    let o = clean_path(output_path);
    if g.as_str().is_empty() || r.as_str().is_empty() || o.as_str().is_empty() {
        return false;
    }
    if clean_path(r.as_str()).as_str().is_empty() {
        return false;
    }
    match repo_root_next(g.as_str(), r.as_str(), replies) {
        Step::Done(Ok(_), u1) => {
            let rest = replies.split_at(u1).1;
            match commit_info_next(g.as_str(), r.as_str(), from_offset, to_offset, rest) {
                Step::Done(Ok(_), _) => true,
                _ => false,
            }
        },
        _ => false,
    }
}

/// `prefix`, `subject`, `"): "` and `detail`, one after the other.
fn bracketed(prefix: &str, subject: &str, detail: &str) -> (m: String)
    ensures
        m@ == prefix@ + subject@ + "): "@ + detail@,
{
    let mut m = text(prefix);
    m.append(subject);
    m.append("): ");
    m.append(detail);
    m
}

fn prefixed(prefix: &str, detail: &str) -> (m: String)
    ensures
        m@ == prefix@ + detail@,
{
    let mut m = text(prefix);
    m.append(detail);
    m
}

fn read_failure_exec(file: &str, fail: &ReadFailure) -> (m: String)
    ensures
        m@ == read_failure_text(file@, *fail),
{
    match fail {
        ReadFailure::PermissionDenied { detail } => bracketed(
            "アクセスが拒否されました。ファイルが他で開かれている可能性があります (",
            file,
            detail.as_str(),
        ),
        ReadFailure::OpenFailed { detail } => bracketed(
            "ファイルを開けませんでした (",
            file,
            detail.as_str(),
        ),
        ReadFailure::ReadFailed { detail } => bracketed(
            "ファイルを読み込めませんでした (",
            file,
            detail.as_str(),
        ),
    }
}

/// The next step in closing the archive.
fn closing_next(
    output: &String,
    info: &CommitInfo,
    included: &Vec<String>,
    excludes: &Vec<String>,
    now: &str,
    rs: &[Reply],
    pos: usize,
) -> (s: Step<()>)
    requires
        pos <= rs@.len(),
    ensures
        s@ == closing_plan(
            output@,
            info.deep_view(),
            strings(included@),
            strings(excludes@),
            now@,
            rs@,
            pos as nat,
        ),
        s matches Step::Done(_, used) ==> used <= rs@.len(),
{
    let n = rs.len();
    match io_reply_at(rs, pos) {
        None => Step::Perform(
            Effect::StartEntry {
                name: text("readme.txt"),
                compression: Compression::Deflated,
                permissions: ENTRY_PERMISSIONS,
            },
        ),
        Some(Err(e)) => Step::Done(Err(prefixed("readme.txtの追加に失敗しました: ", e.as_str())), pos + 1),
        Some(Ok(_)) => match io_reply_at(rs, pos + 1) {
            None => {
                let readme = readme_content(info, included, excludes, now);
                Step::Perform(Effect::WriteEntry { data: readme.as_str().as_bytes_vec() })
            },
            Some(Err(e)) => Step::Done(
                Err(prefixed("readme.txtの書き込みに失敗しました: ", e.as_str())),
                pos + 2,
            ),
            Some(Ok(_)) => match io_reply_at(rs, pos + 2) {
                None => Step::Perform(Effect::FinishArchive),
                Some(Err(e)) => Step::Done(
                    Err(prefixed("ZIPの終了処理に失敗しました: ", e.as_str())),
                    pos + 3,
                ),
                Some(Ok(_)) => match io_reply_at(rs, pos + 3) {
                    None => Step::Perform(
                        Effect::WriteManifest {
                            output: output.clone(),
                            content: manifest_content(info.hash.as_str(), included),
                        },
                    ),
                    Some(Err(e)) => Step::Done(
                        Err(prefixed("manifest.txtの書き込みに失敗しました: ", e.as_str())),
                        pos + 4,
                    ),
                    Some(Ok(_)) => Step::Done(Ok(()), pos + 4),
                },
            },
        },
    }
}

/// The next step in writing the archive once the repository root, the
/// commit and the changed files are known.
fn archive_next(
    output: &String,
    root: &String,
    info: &CommitInfo,
    files: &ChangedFiles,
    excludes: &Vec<String>,
    now: &str,
    rs: &[Reply],
) -> (s: Step<()>)
    ensures
        s@ == archive_plan(
            output@,
            root@,
            info.deep_view(),
            files.deep_view(),
            strings(excludes@),
            now@,
            rs@,
        ),
        s matches Step::Done(_, used) ==> used <= rs@.len(),
{
    let n = rs.len();
    match io_reply_at(rs, 0) {
        None => return Step::Perform(Effect::PrepareOutputDir { output: output.clone() }),
        Some(Err(e)) => return Step::Done(
            Err(prefixed("出力先フォルダの作成に失敗しました: ", e.as_str())),
            1,
        ),
        Some(Ok(_)) => {},
    }
    match io_reply_at(rs, 1) {
        None => return Step::Perform(Effect::CreateArchive { output: output.clone() }),
        Some(Err(e)) => return Step::Done(
            Err(bracketed("ZIPファイルの作成に失敗しました (", output.as_str(), e.as_str())),
            2,
        ),
        Some(Ok(_)) => {},
    }
    let cands = select_candidates(&files.files, excludes);
    let ghost all = strings(cands@);
    let mut included: Vec<String> = Vec::new();
    let mut pos: usize = 2;
    let mut i: usize = 0;
    assert(all.skip(0) =~= all);
    assert(strings(included@) =~= Seq::<Seq<char>>::empty());
    while i < cands.len()
        invariant
            n == rs@.len(),
            io_reply(rs@, 0) matches Some(Ok(_)),
            io_reply(rs@, 1) matches Some(Ok(_)),
            all == candidates(files.deep_view(), strings(excludes@)),
            i <= cands@.len(),
            all == strings(cands@),
            pos <= rs@.len(),
            entries_plan(root@, all, rs@, 2, Seq::empty()) == entries_plan(
                root@,
                all.skip(i as int),
                rs@,
                pos as nat,
                strings(included@),
            ),
        decreases cands@.len() - i,
    {
        let f = &cands[i];
        let ghost rest = all.skip(i as int);
        assert(rest[0] == f@);
        assert(rest.drop_first() =~= all.skip(i + 1));
        match exists_reply_at(rs, pos) {
            None => return Step::Perform(
                Effect::IsFile { root: text(root.as_str()), file: text(f.as_str()) },
            ),
            Some(false) => {
                pos = pos + 1;
                i = i + 1;
            },
            Some(true) => {
                let data = match read_reply_at(rs, pos + 1) {
                    None => return Step::Perform(
                        Effect::ReadFile { root: text(root.as_str()), file: text(f.as_str()) },
                    ),
                    Some(Err(fail)) => return Step::Done(
                        Err(read_failure_exec(f.as_str(), fail)),
                        pos + 2,
                    ),
                    Some(Ok(data)) => data,
                };
                let name = replace_backslashes(f.as_str());
                match io_reply_at(rs, pos + 2) {
                    None => return Step::Perform(
                        Effect::StartEntry {
                            name,
                            compression: Compression::Deflated,
                            permissions: ENTRY_PERMISSIONS,
                        },
                    ),
                    Some(Err(e)) => return Step::Done(
                        Err(bracketed("ZIP内ファイル作成失敗 (", name.as_str(), e.as_str())),
                        pos + 3,
                    ),
                    Some(Ok(_)) => {},
                }
                match io_reply_at(rs, pos + 3) {
                    None => return Step::Perform(
                        Effect::WriteEntry { data: vstd::slice::slice_to_vec(data.as_slice()) },
                    ),
                    Some(Err(e)) => return Step::Done(
                        Err(bracketed("ZIP内データ書込失敗 (", name.as_str(), e.as_str())),
                        pos + 4,
                    ),
                    Some(Ok(_)) => {},
                }
                let ghost before = strings(included@);
                included.push(f.clone());
                assert(strings(included@) =~= before.push(f@));
                pos = pos + 4;
                i = i + 1;
            },
        }
    }
    assert(all.skip(i as int) =~= Seq::<Seq<char>>::empty());
    closing_next(output, info, &included, excludes, now, rs, pos)
}

/// The next step in making the archive of the files changed between two
/// offsets from `HEAD`, with `now` as the time written into `readme.txt`.
pub fn create_zip_next(
    git_path: &str,
    repo_path: &str,
    from_offset: u32,
    to_offset: u32,
    output_path: &str,
    exclude_patterns: &Vec<String>,
    now: &str,
    replies: &[Reply],
) -> (s: Step<()>)
    requires
        zip_lists_files(git_path@, repo_path@, from_offset, to_offset, output_path@, replies@)
            ==> older(from_offset, to_offset) < u32::MAX,
    ensures
        s@ == zip_plan(
            git_path@,
            repo_path@,
            from_offset,
            to_offset,
            output_path@,
            strings(exclude_patterns@),
            now@,
            replies@,
        ),
        s matches Step::Done(_, used) ==> used <= replies@.len(),
{
    let n = replies.len();
    let g = clean_path(git_path);
    let r = clean_path(repo_path);
    let o = clean_path(output_path);
    if g.as_str().is_empty() {
        return Step::Done(Err(text("Git実行ファイルが指定されていません")), 0);
    }
    if r.as_str().is_empty() {
        return Step::Done(Err(text("リポジトリが指定されていません")), 0);
    }
    if o.as_str().is_empty() {
        return Step::Done(Err(text("出力先が指定されていません")), 0);
    }
    let (root, u1) = match repo_root_next(g.as_str(), r.as_str(), replies) {
        Step::Perform(e) => return Step::Perform(e),
        Step::Done(Err(e), u) => return Step::Done(Err(e), u),
        Step::Done(Ok(root), u) => (root, u),
    };
    let rs2 = replies.split_at(u1).1;
    let (info, u2) = match commit_info_next(g.as_str(), r.as_str(), from_offset, to_offset, rs2) {
        Step::Perform(e) => return Step::Perform(e),
        Step::Done(Err(e), u) => return Step::Done(Err(e), u1 + u),
        Step::Done(Ok(info), u) => (info, u),
    };
    let rs3 = rs2.split_at(u2).1;
    let (files, u3) = match changed_files_next(g.as_str(), r.as_str(), from_offset, to_offset, rs3) {
        Step::Perform(e) => return Step::Perform(e),
        Step::Done(Err(e), u) => return Step::Done(Err(e), u1 + u2 + u),
        Step::Done(Ok(files), u) => (files, u),
    };
    let rs4 = rs3.split_at(u3).1;
    match archive_next(&o, &root, &info, &files, exclude_patterns, now, rs4) {
        Step::Perform(e) => Step::Perform(e),
        Step::Done(res, u) => Step::Done(res, u1 + u2 + u3 + u),
    }
}


/// The local date and time, as `2024-01-31 23:59:59`. Calls
/// `chrono::Local::now` and formats it with `%Y-%m-%d %H:%M:%S`; it reads the
/// clock, so nothing is claimed of the text.
#[verifier::external_body]
fn local_time_text() -> String {
    chrono::Local::now().format("%Y-%m-%d %H:%M:%S").to_string()
}

/// The next step in making the archive, with the local time read now; the
/// time that was used is returned beside the step.
pub fn create_zip_step(
    git_path: &str,
    repo_path: &str,
    from_offset: u32,
    to_offset: u32,
    output_path: &str,
    exclude_patterns: &Vec<String>,
    replies: &[Reply],
) -> (r: (Step<()>, String))
    requires
        zip_lists_files(git_path@, repo_path@, from_offset, to_offset, output_path@, replies@)
            ==> older(from_offset, to_offset) < u32::MAX,
    ensures
        r.0@ == zip_plan(
            git_path@,
            repo_path@,
            from_offset,
            to_offset,
            output_path@,
            strings(exclude_patterns@),
            r.1@,
            replies@,
        ),
{
    let now = local_time_text();
    let step = create_zip_next(
        git_path,
        repo_path,
        from_offset,
        to_offset,
        output_path,
        exclude_patterns,
        now.as_str(),
        replies,
    );
    (step, now)
}

} // verus!
