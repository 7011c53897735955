//! What the commands give back for what Git printed and what the file
//! system answered, stated over those outputs and answers.
use vstd::prelude::*;

use crate::archive::{archive_plan, candidates, closing_plan, entries_plan, Progress};
use crate::git::{
    changed_files_plan, commit_summary, head_rev, history_entries, nonblank, validate_repo_plan,
};
use crate::laws::{law_changed_files_are_nonblank_lines, subsequence};
use crate::protocol::{git_reply, GitRun, Plan, Reply};
use crate::records::InfoView;
use crate::text::{cleaned, joined, lemma_split_on_nonempty, lines, split_on, trim, utf8_lossy};

verus! {

// ------------------------------------------------------------------ splits

proof fn lemma_split_without(s: Seq<char>, c: char)
    requires
        !s.contains(c),
    ensures
        split_on(s, c) == seq![s],
    decreases s.len(),
{
    if s.len() > 0 {
        let t = s.drop_last();
        assert(!t.contains(c)) by {
            if t.contains(c) {
                let k = choose|k: int| 0 <= k < t.len() && t[k] == c;
                assert(s[k] == c);
            }
        }
        lemma_split_without(t, c);
        assert(s[s.len() - 1] == s.last());
        assert(t.push(s.last()) =~= s);
    } else {
        assert(s =~= Seq::<char>::empty());
    }
}

proof fn lemma_split_concat(a: Seq<char>, b: Seq<char>, c: char)
    ensures
        split_on(a + seq![c] + b, c) == split_on(a, c) + split_on(b, c),
    decreases b.len(),
{
    lemma_split_on_nonempty(a, c);
    let ac = a + seq![c];
    if b.len() == 0 {
        assert(ac + b =~= ac);
        assert(ac.drop_last() =~= a);
        assert(split_on(a, c) + split_on(b, c) =~= split_on(a, c).push(Seq::<char>::empty()));
    } else {
        let b1 = b.drop_last();
        let x = b.last();
        lemma_split_concat(a, b1, c);
        lemma_split_on_nonempty(b1, c);
        assert((ac + b).drop_last() =~= ac + b1);
        assert((ac + b).last() == x);
        let pa = split_on(a, c);
        let pb = split_on(b1, c);
        if x == c {
            assert((pa + pb).push(Seq::<char>::empty()) =~= pa + pb.push(Seq::<char>::empty()));
        } else {
            let p = pa + pb;
            assert(p.update(p.len() - 1, p.last().push(x)) =~= pa + pb.update(
                pb.len() - 1,
                pb.last().push(x),
            ));
        }
    }
}

proof fn lemma_split_rejoin(s: Seq<char>, c: char)
    ensures
        joined(split_on(s, c), seq![c]) == s,
    decreases s.len(),
{
    if s.len() > 0 {
        let t = s.drop_last();
        let x = s.last();
        lemma_split_rejoin(t, c);
        lemma_split_on_nonempty(t, c);
        let p = split_on(t, c);
        assert(t.push(x) =~= s);
        if x == c {
            let q = p.push(Seq::<char>::empty());
            assert(q.drop_last() =~= p);
            assert(joined(q, seq![c]) =~= s);
        } else {
            let q = p.update(p.len() - 1, p.last().push(x));
            if p.len() == 1 {
                assert(joined(q, seq![c]) =~= s);
            } else {
                assert(q.drop_last() =~= p.drop_last());
                assert(joined(q, seq![c]) =~= joined(p, seq![c]).push(x));
            }
        }
    } else {
        assert(s =~= Seq::<char>::empty());
    }
}

// ---------------------------------------------------------- commit summary

/// `s` holds neither a line feed nor a carriage return.
pub open spec fn one_line(s: Seq<char>) -> bool {
    !s.contains('\n') && !s.contains('\r')
}

proof fn lemma_no_cr_at_end(s: Seq<char>)
    requires
        one_line(s),
    ensures
        crate::text::strip_cr(s) == s,
{
    if s.len() > 0 {
        assert(s[s.len() - 1] == s.last());
    }
}

/// When `git log --format=%H%n%s` prints a hash line and a subject line,
/// the commit is shown by that whole hash and that whole subject; a range
/// shows the older end before the hash and marks the whole subject.
pub proof fn law_commit_summary_shows_whole_lines(
    old: u32,
    new: u32,
    hash: Seq<char>,
    subject: Seq<char>,
    ending: Seq<char>,
)
    requires
        one_line(hash),
        one_line(subject),
        ending == Seq::<char>::empty() || ending == seq!['\n'],
    ensures
        commit_summary(old, new, hash + seq!['\n'] + subject + ending) == if old == new {
            InfoView { hash, message: subject }
        } else {
            InfoView { hash: head_rev(old as nat) + " .. "@ + hash, message: "[範囲] "@ + subject }
        },
{
    let out = hash + seq!['\n'] + subject + ending;
    lemma_split_without(hash, '\n');
    lemma_split_without(subject, '\n');
    lemma_split_concat(hash, subject, '\n');
    lemma_no_cr_at_end(hash);
    let e: Seq<char> = Seq::empty();
    assert(split_on(e, '\n') =~= seq![e]);
    let pieces = split_on(out, '\n');
    if ending.len() == 0 {
        assert(out =~= hash + seq!['\n'] + subject);
        assert(pieces =~= seq![hash, subject]);
        assert(pieces.drop_last().map_values(|l: Seq<char>| crate::text::strip_cr(l)) =~= seq![hash]);
        if subject.len() == 0 {
            assert(lines(out) =~= seq![hash]);
        } else {
            assert(lines(out) =~= seq![hash, subject]);
        }
    } else {
        lemma_split_concat(hash + seq!['\n'] + subject, e, '\n');
        assert(out =~= (hash + seq!['\n'] + subject) + seq!['\n'] + e);
        assert(pieces =~= seq![hash, subject, e]);
        lemma_no_cr_at_end(subject);
        assert(pieces.drop_last().map_values(|l: Seq<char>| crate::text::strip_cr(l)) =~= seq![
            hash,
            subject,
        ]);
        assert(lines(out) =~= seq![hash, subject]);
    }
}

// ----------------------------------------------------------------- history

/// Each history entry gives back its line: with one, two or three fields
/// between unit separators, the hash, the subject and the date joined by
/// the separator are the line itself, and missing fields are empty. No
/// field is cut or changed.
pub proof fn law_history_entry_rebuilds_its_line(out: Seq<char>, i: int)
    requires
        0 <= i < lines(out).len(),
    ensures
        split_on(lines(out)[i], '\u{1f}').len() == 1 ==> history_entries(out)[i].hash
            == lines(out)[i] && history_entries(out)[i].message.len() == 0
            && history_entries(out)[i].date.len() == 0,
        split_on(lines(out)[i], '\u{1f}').len() == 2 ==> history_entries(out)[i].hash + seq![
            '\u{1f}',
        ] + history_entries(out)[i].message == lines(out)[i] && history_entries(out)[i].date.len()
            == 0,
        split_on(lines(out)[i], '\u{1f}').len() == 3 ==> history_entries(out)[i].hash + seq![
            '\u{1f}',
        ] + history_entries(out)[i].message + seq!['\u{1f}'] + history_entries(out)[i].date
            == lines(out)[i],
{
    let l = lines(out)[i];
    let p = split_on(l, '\u{1f}');
    lemma_split_rejoin(l, '\u{1f}');
    let sep = seq!['\u{1f}'];
    if p.len() == 2 {
        let q = p.drop_last();
        assert(q.len() == 1);
        assert(joined(q, sep) == q[0]);
        assert(q[0] == p[0]);
        assert(p.last() == p[1]);
        assert(joined(p, sep) == joined(q, sep) + sep + p.last());
    }
    if p.len() == 3 {
        let q = p.drop_last();
        let r = q.drop_last();
        assert(r.len() == 1);
        assert(joined(r, sep) == r[0]);
        assert(r[0] == p[0]);
        assert(q.last() == p[1]);
        assert(joined(q, sep) == joined(r, sep) + sep + q.last());
        assert(p.last() == p[2]);
        assert(joined(p, sep) == joined(q, sep) + sep + p.last());
    }
}

// ----------------------------------------------------------- changed files

/// Every line of Git's output that holds more than white space is a changed
/// file, and the changed files keep the order of the lines.
pub proof fn law_every_nonblank_line_is_a_changed_file(ls: Seq<Seq<char>>)
    ensures
        forall|i: int| 0 <= i < ls.len() && trim(#[trigger] ls[i]).len() > 0 ==> nonblank(ls).contains(
            ls[i],
        ),
        subsequence(nonblank(ls), ls),
    decreases ls.len(),
{
    if ls.len() > 0 {
        let rest = ls.drop_last();
        let last = ls.last();
        law_every_nonblank_line_is_a_changed_file(rest);
        let kept = nonblank(rest);
        assert(ls =~= rest.push(last));
        assert forall|i: int| 0 <= i < ls.len() && trim(#[trigger] ls[i]).len() > 0 implies nonblank(
            ls,
        ).contains(ls[i]) by {
            if i < ls.len() - 1 {
                assert(rest[i] == ls[i]);
                let k = choose|k: int| 0 <= k < kept.len() && kept[k] == rest[i];
                if trim(last).len() > 0 {
                    assert(kept.push(last)[k] == ls[i]);
                }
            } else {
                assert(ls[i] == last);
                assert(kept.push(last)[kept.len() as int] == last);
            }
        }
        if trim(last).len() > 0 {
            assert(kept.push(last).drop_last() =~= kept);
        } else {
            crate::laws::lemma_subsequence_push(kept, rest, last);
        }
    }
}

/// When `git diff --name-only` succeeds, the changed files are exactly its
/// lines that hold more than white space: each such line is listed, and
/// each listed file is such a line, in order.
pub proof fn law_changed_files_are_the_diff_lines(
    git: Seq<char>,
    repo: Seq<char>,
    from: u32,
    to: u32,
    rs: Seq<Reply>,
)
    ensures
        changed_files_plan(git, repo, from, to, rs) matches Plan::Done(Ok(files), used) ==> (used == 3
            ==> (git_reply(rs, 2) matches Some(GitRun::Exited { success, stdout, stderr }) && (success
            && {
            let ls = lines(utf8_lossy(stdout@));
            &&& forall|i: int|
                0 <= i < ls.len() && trim(#[trigger] ls[i]).len() > 0 ==> files.contains(ls[i])
            &&& forall|k: int|
                0 <= k < files.len() ==> trim(#[trigger] files[k]).len() > 0 && ls.contains(files[k])
            &&& subsequence(files, ls)
        }))),
{
    match git_reply(rs, 2) {
        Some(GitRun::Exited { success, stdout, stderr }) => {
            let ls = lines(utf8_lossy(stdout@));
            law_every_nonblank_line_is_a_changed_file(ls);
            law_changed_files_are_nonblank_lines(ls);
        },
        _ => {},
    }
}

// ------------------------------------------------------------ repo check

/// A repository path that is not empty and exists is a repository exactly
/// when `git rev-parse --git-dir` succeeds there, whatever it prints.
pub proof fn law_repo_check_is_the_git_dir_answer(
    git: Seq<char>,
    repo: Seq<char>,
    success: bool,
    stdout: Vec<u8>,
    stderr: Vec<u8>,
    rest: Seq<Reply>,
)
    requires
        cleaned(repo).len() > 0,
    ensures
        validate_repo_plan(
            git,
            repo,
            seq![Reply::Exists(true), Reply::Git(GitRun::Exited { success, stdout, stderr })] + rest,
        ) == Plan::<bool>::Done(Ok(success), 2),
{
}

// ----------------------------------------------------------------- archive

/// The replies of a file system in which the candidate files are regular
/// files where `regular` says so, each read giving the bytes in `data` and
/// each write succeeding.
pub open spec fn file_answers(regular: Seq<bool>, data: Seq<Vec<u8>>) -> Seq<Reply>
    decreases regular.len(),
{
    if regular.len() == 0 || data.len() == 0 {
        Seq::empty()
    } else {
        let first = if regular[0] {
            seq![
                Reply::Exists(true),
                Reply::Read(Ok(data[0])),
                Reply::Io(Ok(())),
                Reply::Io(Ok(())),
            ]
        } else {
            seq![Reply::Exists(false)]
        };
        first + file_answers(regular.drop_first(), data.drop_first())
    }
}

/// The files for which `regular` says yes, in order.
pub open spec fn regular_ones(files: Seq<Seq<char>>, regular: Seq<bool>) -> Seq<Seq<char>>
    decreases files.len(),
{
    if files.len() == 0 || regular.len() == 0 {
        Seq::empty()
    } else {
        let rest = regular_ones(files.drop_first(), regular.drop_first());
        if regular[0] {
            seq![files[0]] + rest
        } else {
            rest
        }
    }
}

/// Every candidate that is a regular file is read and stored, whatever the
/// answers for the other candidates: a missing file is skipped and the work
/// goes on, so the stored files are exactly the regular ones, in order.
pub proof fn law_every_regular_candidate_is_stored(
    root: Seq<char>,
    files: Seq<Seq<char>>,
    regular: Seq<bool>,
    data: Seq<Vec<u8>>,
    rs: Seq<Reply>,
    pos: nat,
    included: Seq<Seq<char>>,
)
    requires
        files.len() == regular.len() == data.len(),
        pos + file_answers(regular, data).len() <= rs.len(),
        rs.subrange(pos as int, pos + file_answers(regular, data).len() as int) == file_answers(
            regular,
            data,
        ),
    ensures
        entries_plan(root, files, rs, pos, included) == Progress::Through(
            pos + file_answers(regular, data).len(),
            included + regular_ones(files, regular),
        ),
    decreases files.len(),
{
    let answers = file_answers(regular, data);
    if files.len() == 0 {
        assert(included + regular_ones(files, regular) =~= included);
    } else {
        let rest_answers = file_answers(regular.drop_first(), data.drop_first());
        let rest_files = files.drop_first();
        let rest_regular = regular.drop_first();
        let rest_data = data.drop_first();
        let n = if regular[0] {
            4nat
        } else {
            1nat
        };
        assert(answers.len() == n + rest_answers.len());
        assert forall|k: int| 0 <= k < answers.len() implies rs[pos + k] == #[trigger] answers[k] by {
            assert(rs.subrange(pos as int, pos + answers.len() as int)[k] == answers[k]);
        }
        assert(rs.subrange(pos + n as int, pos + n + rest_answers.len() as int) =~= rest_answers) by {
            assert forall|k: int| 0 <= k < rest_answers.len() implies rs[pos + n + k]
                == rest_answers[k] by {
                assert(answers[n + k] == rest_answers[k]);
            }
        }
        assert(rs[pos as int] == answers[0]);
        if regular[0] {
            assert(rs[pos + 1int] == answers[1]);
            assert(rs[pos + 2int] == answers[2]);
            assert(rs[pos + 3int] == answers[3]);
            law_every_regular_candidate_is_stored(
                root,
                rest_files,
                rest_regular,
                rest_data,
                rs,
                pos + 4,
                included.push(files[0]),
            );
            assert(included.push(files[0]) + regular_ones(rest_files, rest_regular) =~= included
                + regular_ones(files, regular));
        } else {
            law_every_regular_candidate_is_stored(
                root,
                rest_files,
                rest_regular,
                rest_data,
                rs,
                pos + 1,
                included,
            );
        }
    }
}

/// Once the output directory is prepared and the archive created, the
/// readme and the manifest are made from exactly the candidates that are
/// regular files, in order, whatever the answers for the other candidates.
pub proof fn law_archive_lists_the_regular_candidates(
    output: Seq<char>,
    root: Seq<char>,
    info: InfoView,
    files: Seq<Seq<char>>,
    excludes: Seq<Seq<char>>,
    now: Seq<char>,
    regular: Seq<bool>,
    data: Seq<Vec<u8>>,
    rest: Seq<Reply>,
)
    requires
        regular.len() == data.len() == candidates(files, excludes).len(),
    ensures
        archive_plan(
            output,
            root,
            info,
            files,
            excludes,
            now,
            seq![Reply::Io(Ok(())), Reply::Io(Ok(()))] + file_answers(regular, data) + rest,
        ) == closing_plan(
            output,
            info,
            regular_ones(candidates(files, excludes), regular),
            excludes,
            now,
            seq![Reply::Io(Ok(())), Reply::Io(Ok(()))] + file_answers(regular, data) + rest,
            2 + file_answers(regular, data).len(),
        ),
{
    let answers = file_answers(regular, data);
    let rs = seq![Reply::Io(Ok(())), Reply::Io(Ok(()))] + answers + rest;
    assert(rs.subrange(2, 2 + answers.len() as int) =~= answers);
    law_every_regular_candidate_is_stored(
        root,
        candidates(files, excludes),
        regular,
        data,
        rs,
        2,
        Seq::empty(),
    );
    assert(Seq::<Seq<char>>::empty() + regular_ones(candidates(files, excludes), regular)
        =~= regular_ones(candidates(files, excludes), regular));
    assert(rs[0] == Reply::Io(Ok(())));
    assert(rs[1] == Reply::Io(Ok(())));
}

} // verus!
