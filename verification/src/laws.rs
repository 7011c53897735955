//! What holds of the library as a whole.
use vstd::prelude::*;

use crate::archive::{
    archive_plan, candidates, entries_plan, excluded, pattern_hits, zip_plan, Progress,
};
use crate::git::{
    changed_files_plan, commit_info_plan, fetch_plan, history_entries, history_plan,
    item_or_empty, newer, nonblank, older, repo_root_plan, validate_git_plan, validate_repo_plan,
};
use crate::protocol::{
    exists_reply, git_reply, io_reply, read_reply, Act, Compression, Plan, Reply, ENTRY_PERMISSIONS,
};
use crate::records::InfoView;
use crate::text::{
    all_white_space, ascii_lower, ascii_lowercase, is_white_space, ascii_upper, ascii_uppercase, cleaned, forward_slashes,
    lemma_split_on_nonempty, lines, lowercase, split_on, strip_cr, strip_end, strip_start, trim,
    trim_by, CharClass,
};
use vstd::utf8::is_ascii_chars;

verus! {

// ------------------------------------------------------------------ trims

proof fn lemma_strip_start(s: Seq<char>, p: CharClass) -> (k: int)
    ensures
        0 <= k <= s.len(),
        strip_start(s, p) == s.skip(k),
        k < s.len() ==> !p.holds(s[k]),
    decreases s.len(),
{
    if s.len() > 0 && p.holds(s[0]) {
        let k = lemma_strip_start(s.drop_first(), p);
        assert(s.drop_first().skip(k) =~= s.skip(k + 1));
        k + 1
    } else {
        assert(s.skip(0) =~= s);
        0
    }
}

proof fn lemma_strip_end(s: Seq<char>, p: CharClass) -> (k: int)
    ensures
        0 <= k <= s.len(),
        strip_end(s, p) == s.take(k),
        k > 0 ==> !p.holds(s[k - 1]),
    decreases s.len(),
{
    if s.len() > 0 && p.holds(s.last()) {
        let k = lemma_strip_end(s.drop_last(), p);
        assert(s.drop_last().take(k) =~= s.take(k));
        k
    } else {
        assert(s.take(s.len() as int) =~= s);
        s.len() as int
    }
}

/// Where `trim_by(s, p)` lies in `s`; its ends are not of class `p`.
proof fn lemma_trim_by(s: Seq<char>, p: CharClass) -> (r: (int, int))
    ensures
        0 <= r.0 <= r.1 <= s.len(),
        trim_by(s, p) == s.subrange(r.0, r.1),
        r.0 < r.1 ==> !p.holds(s[r.0]) && !p.holds(s[r.1 - 1]),
{
    let a = lemma_strip_start(s, p);
    let t = s.skip(a);
    let b = lemma_strip_end(t, p);
    assert(t.take(b) =~= s.subrange(a, a + b));
    (a, a + b)
}

proof fn lemma_trim_by_again(s: Seq<char>, p: CharClass)
    ensures
        trim_by(trim_by(s, p), p) == trim_by(s, p),
{
    let (a, b) = lemma_trim_by(s, p);
    let t = trim_by(s, p);
    assert(strip_start(t, p) == t);
    assert(strip_end(t, p) == t);
}

/// A cleaned path has no white space at either end, and it is one piece of
/// the path as given: cleaning only takes characters off the two ends.
pub proof fn law_cleaned_path_is_trimmed_piece(s: Seq<char>)
    ensures
        trim(cleaned(s)) == cleaned(s),
        exists|i: int, j: int| 0 <= i <= j <= s.len() && cleaned(s) == s.subrange(i, j),
{
    let (a1, b1) = lemma_trim_by(s, CharClass::WhiteSpace);
    let s1 = trim(s);
    let (a2, b2) = lemma_trim_by(s1, CharClass::Exactly('"'));
    let s2 = trim_by(s1, CharClass::Exactly('"'));
    let (a3, b3) = lemma_trim_by(s2, CharClass::Exactly('\''));
    let s3 = trim_by(s2, CharClass::Exactly('\''));
    let (a4, b4) = lemma_trim_by(s3, CharClass::WhiteSpace);
    lemma_trim_by_again(s3, CharClass::WhiteSpace);
    let i = a1 + a2 + a3 + a4;
    let j = a1 + a2 + a3 + b4;
    assert(cleaned(s) =~= s.subrange(i, j));
}

// ------------------------------------------------------------------ lines

proof fn lemma_split_pieces_lack(s: Seq<char>, c: char)
    ensures
        forall|i: int, j: int|
            0 <= i < split_on(s, c).len() && 0 <= j < split_on(s, c)[i].len() ==> split_on(s, c)[i][j]
                != c,
    decreases s.len(),
{
    if s.len() > 0 {
        lemma_split_pieces_lack(s.drop_last(), c);
        lemma_split_on_nonempty(s.drop_last(), c);
        let prev = split_on(s.drop_last(), c);
        let cur = split_on(s, c);
        assert forall|i: int, j: int| 0 <= i < cur.len() && 0 <= j < cur[i].len() implies cur[i][j]
            != c by {
            if s.last() != c && i == prev.len() - 1 {
                if j < prev[i].len() {
                    assert(cur[i][j] == prev[i][j]);
                }
            } else if i < prev.len() {
                assert(cur[i] == prev[i]);
            }
        }
    }
}

/// No line of a text holds a line feed.
pub proof fn law_lines_hold_no_line_feed(s: Seq<char>)
    ensures
        forall|i: int, j: int|
            0 <= i < lines(s).len() && 0 <= j < lines(s)[i].len() ==> lines(s)[i][j] != '\n',
{
    lemma_split_pieces_lack(s, '\n');
    lemma_split_on_nonempty(s, '\n');
    let pieces = split_on(s, '\n');
    assert forall|i: int, j: int|
        0 <= i < lines(s).len() && 0 <= j < lines(s)[i].len() implies lines(s)[i][j] != '\n' by {
        if i < pieces.len() - 1 {
            assert(lines(s)[i] == strip_cr(pieces[i]));
            assert(lines(s)[i][j] == pieces[i][j]);
        } else {
            assert(lines(s)[i] == pieces[i]);
        }
    }
}

// ---------------------------------------------------------- changed files

/// The changed files are lines of Git's output, in order, each with more
/// than white space.
pub proof fn law_changed_files_are_nonblank_lines(ls: Seq<Seq<char>>)
    ensures
        nonblank(ls).len() <= ls.len(),
        forall|i: int|
            0 <= i < nonblank(ls).len() ==> trim(#[trigger] nonblank(ls)[i]).len() > 0 && ls.contains(
                nonblank(ls)[i],
            ),
    decreases ls.len(),
{
    if ls.len() > 0 {
        law_changed_files_are_nonblank_lines(ls.drop_last());
        let kept = nonblank(ls.drop_last());
        assert forall|i: int| 0 <= i < nonblank(ls).len() implies trim(
            #[trigger] nonblank(ls)[i],
        ).len() > 0 && ls.contains(nonblank(ls)[i]) by {
            if i < kept.len() {
                assert(nonblank(ls)[i] == kept[i]);
                let k = choose|k: int| 0 <= k < ls.drop_last().len() && ls.drop_last()[k] == kept[i];
                assert(ls[k] == kept[i]);
            } else {
                assert(ls[ls.len() - 1] == ls.last());
            }
        }
    }
}

// ---------------------------------------------------------------- history

/// There is one history entry per line of Git's output, and each entry's
/// index is its position.
pub proof fn law_history_entries_are_numbered(out: Seq<char>)
    ensures
        history_entries(out).len() == lines(out).len(),
        forall|i: int|
            0 <= i < history_entries(out).len() && i <= u32::MAX ==> #[trigger] history_entries(
                out,
            )[i].index == i,
{
}

proof fn lemma_item_lacks(parts: Seq<Seq<char>>, c: char, k: int)
    requires
        forall|i: int, j: int| 0 <= i < parts.len() && 0 <= j < parts[i].len() ==> parts[i][j] != c,
    ensures
        forall|j: int| 0 <= j < item_or_empty(parts, k).len() ==> item_or_empty(parts, k)[j] != c,
{
}

/// The hash, subject and date of a history entry never hold the unit
/// separator that divides them, so a subject with pipes or commas stays
/// whole.
pub proof fn law_history_fields_hold_no_separator(out: Seq<char>)
    ensures
        forall|i: int, j: int|
            0 <= i < history_entries(out).len() && 0 <= j < history_entries(out)[i].hash.len()
                ==> history_entries(out)[i].hash[j] != '\u{1f}',
        forall|i: int, j: int|
            0 <= i < history_entries(out).len() && 0 <= j < history_entries(out)[i].message.len()
                ==> history_entries(out)[i].message[j] != '\u{1f}',
        forall|i: int, j: int|
            0 <= i < history_entries(out).len() && 0 <= j < history_entries(out)[i].date.len()
                ==> history_entries(out)[i].date[j] != '\u{1f}',
{
    let ls = lines(out);
    assert forall|i: int| 0 <= i < ls.len() implies {
        let parts = split_on(#[trigger] ls[i], '\u{1f}');
        &&& forall|j: int| 0 <= j < item_or_empty(parts, 0).len() ==> item_or_empty(parts, 0)[j] != '\u{1f}'
        &&& forall|j: int| 0 <= j < item_or_empty(parts, 1).len() ==> item_or_empty(parts, 1)[j] != '\u{1f}'
        &&& forall|j: int| 0 <= j < item_or_empty(parts, 2).len() ==> item_or_empty(parts, 2)[j] != '\u{1f}'
    } by {
        let parts = split_on(ls[i], '\u{1f}');
        lemma_split_pieces_lack(ls[i], '\u{1f}');
        lemma_item_lacks(parts, '\u{1f}', 0);
        lemma_item_lacks(parts, '\u{1f}', 1);
        lemma_item_lacks(parts, '\u{1f}', 2);
    }
}

// ------------------------------------------------------------------ offsets

/// The two offsets may be given in either order: every command that takes
/// them does the same with them swapped.
pub proof fn law_offsets_commute(
    git: Seq<char>,
    repo: Seq<char>,
    a: u32,
    b: u32,
    output: Seq<char>,
    excludes: Seq<Seq<char>>,
    now: Seq<char>,
    rs: Seq<Reply>,
)
    ensures
        commit_info_plan(git, repo, a, b, rs) == commit_info_plan(git, repo, b, a, rs),
        changed_files_plan(git, repo, a, b, rs) == changed_files_plan(git, repo, b, a, rs),
        zip_plan(git, repo, a, b, output, excludes, now, rs) == zip_plan(
            git,
            repo,
            b,
            a,
            output,
            excludes,
            now,
            rs,
        ),
{
    assert(older(a, b) == older(b, a));
    assert(newer(a, b) == newer(b, a));
}

// ------------------------------------------------------------- exclusions

/// A changed file is a candidate for the archive exactly when no exclusion
/// pattern applies to it.
pub proof fn law_candidates_are_the_unexcluded_files(
    files: Seq<Seq<char>>,
    excludes: Seq<Seq<char>>,
    f: Seq<char>,
)
    ensures
        candidates(files, excludes).contains(f) <==> files.contains(f) && !excluded(f, excludes),
    decreases files.len(),
{
    if files.len() > 0 {
        let rest = files.drop_last();
        law_candidates_are_the_unexcluded_files(rest, excludes, f);
        assert(files =~= rest.push(files.last()));
        if files.contains(f) && f != files.last() {
            let k = choose|k: int| 0 <= k < files.len() && files[k] == f;
            assert(rest[k] == f);
        }
        if rest.contains(f) {
            let k = choose|k: int| 0 <= k < rest.len() && rest[k] == f;
            assert(files[k] == f);
        }
        if !excluded(files.last(), excludes) {
            let kept = candidates(rest, excludes);
            assert(kept.push(files.last())[kept.len() as int] == files.last());
            if kept.push(files.last()).contains(f) && f != files.last() {
                let k = choose|k: int| 0 <= k < kept.len() + 1 && kept.push(files.last())[k] == f;
                assert(kept[k] == f);
            }
            if kept.contains(f) {
                let k = choose|k: int| 0 <= k < kept.len() && kept[k] == f;
                assert(kept.push(files.last())[k] == f);
            }
        }
    }
}

/// `a` is `b` with some of its items left out, the rest in their order.
pub open spec fn subsequence(a: Seq<Seq<char>>, b: Seq<Seq<char>>) -> bool
    decreases b.len(),
{
    if b.len() == 0 {
        a.len() == 0
    } else if a.len() > 0 && a.last() == b.last() {
        subsequence(a.drop_last(), b.drop_last())
    } else {
        subsequence(a, b.drop_last())
    }
}

proof fn lemma_subsequence_of_empty_start(b: Seq<Seq<char>>)
    ensures
        subsequence(Seq::empty(), b),
    decreases b.len(),
{
    if b.len() > 0 {
        lemma_subsequence_of_empty_start(b.drop_last());
    }
}

proof fn lemma_subsequence_drop_last(a: Seq<Seq<char>>, b: Seq<Seq<char>>)
    requires
        a.len() > 0,
        subsequence(a, b),
    ensures
        subsequence(a.drop_last(), b),
    decreases b.len(),
{
    let a1 = a.drop_last();
    if a1.len() == 0 {
        lemma_subsequence_of_empty_start(b);
        assert(a1 =~= Seq::<Seq<char>>::empty());
    } else {
        assert(b.len() > 0);
        let b1 = b.drop_last();
        if a.last() == b.last() {
            assert(subsequence(a1, b1));
            if a1.last() == b.last() {
                lemma_subsequence_drop_last(a1, b1);
            }
        } else {
            assert(subsequence(a, b1));
            lemma_subsequence_drop_last(a, b1);
            if a1.last() == b.last() {
                lemma_subsequence_drop_last(a1, b1);
            }
        }
    }
}

pub proof fn lemma_subsequence_push(a: Seq<Seq<char>>, b: Seq<Seq<char>>, x: Seq<char>)
    requires
        subsequence(a, b),
    ensures
        subsequence(a, b.push(x)),
{
    assert(b.push(x).drop_last() =~= b);
    if a.len() > 0 && a.last() == x {
        lemma_subsequence_drop_last(a, b);
    }
}

proof fn lemma_candidates_are_subsequence(files: Seq<Seq<char>>, excludes: Seq<Seq<char>>)
    ensures
        subsequence(candidates(files, excludes), files),
    decreases files.len(),
{
    if files.len() > 0 {
        let rest = files.drop_last();
        let last = files.last();
        lemma_candidates_are_subsequence(rest, excludes);
        let kept = candidates(rest, excludes);
        assert(files =~= rest.push(last));
        if excluded(last, excludes) {
            lemma_subsequence_push(kept, rest, last);
        } else {
            assert(kept.push(last).drop_last() =~= kept);
        }
    }
}

proof fn lemma_excluded_concat(f: Seq<char>, p: Seq<Seq<char>>, q: Seq<Seq<char>>)
    ensures
        excluded(f, p + q) == (excluded(f, p) || excluded(f, q)),
{
    let lf = lowercase(f);
    if excluded(f, p + q) {
        let j = choose|j: int| 0 <= j < (p + q).len() && pattern_hits(lf, #[trigger] (p + q)[j]);
        if j < p.len() {
            assert(p[j] == (p + q)[j]);
        } else {
            assert(q[j - p.len()] == (p + q)[j]);
        }
    }
    if excluded(f, p) {
        let j = choose|j: int| 0 <= j < p.len() && pattern_hits(lf, #[trigger] p[j]);
        assert((p + q)[j] == p[j]);
    }
    if excluded(f, q) {
        let j = choose|j: int| 0 <= j < q.len() && pattern_hits(lf, #[trigger] q[j]);
        assert((p + q)[j + p.len()] == q[j]);
    }
}

/// More exclusion patterns only filter further: excluding by `p` and `q`
/// is excluding by `p` and then by `q`, so the candidates (and the files
/// the archive stores) keep their order and never gain a file.
pub proof fn law_more_patterns_filter_further(
    files: Seq<Seq<char>>,
    p: Seq<Seq<char>>,
    q: Seq<Seq<char>>,
)
    ensures
        candidates(files, p + q) == candidates(candidates(files, p), q),
        subsequence(candidates(files, p + q), candidates(files, p)),
    decreases files.len(),
{
    if files.len() > 0 {
        let rest = files.drop_last();
        let last = files.last();
        law_more_patterns_filter_further(rest, p, q);
        lemma_excluded_concat(last, p, q);
        let kp = candidates(rest, p);
        if !excluded(last, p) {
            assert(kp.push(last).drop_last() =~= kp);
        }
    }
    lemma_candidates_are_subsequence(candidates(files, p), q);
}

proof fn lemma_same_exclusion(files: Seq<Seq<char>>, p1: Seq<Seq<char>>, p2: Seq<Seq<char>>)
    requires
        forall|f: Seq<char>| #[trigger] excluded(f, p1) == excluded(f, p2),
    ensures
        candidates(files, p1) == candidates(files, p2),
    decreases files.len(),
{
    if files.len() > 0 {
        lemma_same_exclusion(files.drop_last(), p1, p2);
        assert(excluded(files.last(), p1) == excluded(files.last(), p2));
    }
}

proof fn lemma_white_space_is_blank(w: Seq<char>)
    requires
        all_white_space(w),
    ensures
        lowercase(w) == w,
        trim(w).len() == 0,
{
    let k = lemma_strip_start(w, CharClass::WhiteSpace);
    if k < w.len() {
        assert(is_white_space(w[k]));
    }
    assert(ascii_lowercase(w) =~= w) by {
        assert forall|i: int| 0 <= i < w.len() implies ascii_lower(w[i]) == w[i] by {
            assert(is_white_space(w[i]));
        }
    }
}

/// A pattern of white space alone excludes nothing: adding it keeps the
/// same candidates, and so the same files in the archive.
pub proof fn law_blank_patterns_exclude_nothing(
    files: Seq<Seq<char>>,
    excludes: Seq<Seq<char>>,
    w: Seq<char>,
)
    requires
        all_white_space(w),
    ensures
        candidates(files, excludes.push(w)) == candidates(files, excludes),
{
    lemma_white_space_is_blank(w);
    assert(excludes.push(w) =~= excludes + seq![w]);
    assert forall|f: Seq<char>| #[trigger] excluded(f, excludes.push(w)) == excluded(f, excludes) by {
        lemma_excluded_concat(f, excludes, seq![w]);
        if excluded(f, seq![w]) {
            let j = choose|j: int| 0 <= j < 1 && pattern_hits(lowercase(f), #[trigger] seq![w][j]);
            assert(seq![w][j] == w);
        }
    }
    lemma_same_exclusion(files, excludes.push(w), excludes);
}

proof fn lemma_ascii_upper_char(c: char)
    ensures
        ascii_lower(ascii_upper(c)) == ascii_lower(c),
        ('\0' <= ascii_upper(c) <= '\u{7f}') == ('\0' <= c <= '\u{7f}'),
        is_white_space(ascii_upper(c)) == is_white_space(c),
{
}

proof fn lemma_ascii_uppercase_same_lowercase(p: Seq<char>)
    ensures
        lowercase(ascii_uppercase(p)) == lowercase(p),
{
    let u = ascii_uppercase(p);
    assert forall|i: int| 0 <= i < u.len() implies ('\0' <= #[trigger] u[i] <= '\u{7f}') == (
    '\0' <= p[i] <= '\u{7f}') && ascii_lower(u[i]) == ascii_lower(p[i]) && is_white_space(u[i])
        == is_white_space(p[i]) by {
        lemma_ascii_upper_char(p[i]);
    }
    assert(is_ascii_chars(u) == is_ascii_chars(p)) by {
        if is_ascii_chars(p) {
            assert forall|i: int| 0 <= i < u.len() implies '\0' <= #[trigger] u[i] <= '\u{7f}' by {
                assert('\0' <= p[i] <= '\u{7f}');
            }
        }
        if is_ascii_chars(u) {
            assert forall|i: int| 0 <= i < p.len() implies '\0' <= #[trigger] p[i] <= '\u{7f}' by {
                assert('\0' <= u[i] <= '\u{7f}');
            }
        }
    }
    assert(all_white_space(u) == all_white_space(p)) by {
        if all_white_space(p) {
            assert forall|i: int| 0 <= i < u.len() implies is_white_space(#[trigger] u[i]) by {
                assert(is_white_space(p[i]));
            }
        }
        if all_white_space(u) {
            assert forall|i: int| 0 <= i < p.len() implies is_white_space(#[trigger] p[i]) by {
                assert(is_white_space(u[i]));
            }
        }
    }
    assert(ascii_lowercase(u) =~= ascii_lowercase(p));
    if all_white_space(p) && !is_ascii_chars(p) {
        assert forall|i: int| 0 <= i < p.len() implies u[i] == p[i] by {
            assert(is_white_space(p[i]));
        }
        assert(u =~= p);
    }
}

/// Exclusion patterns match regardless of the case of ASCII letters:
/// upper-casing the ASCII letters of the patterns keeps the same
/// candidates, and so the same files in the archive.
pub proof fn law_exclusion_ignores_ascii_case(files: Seq<Seq<char>>, excludes: Seq<Seq<char>>)
    ensures
        candidates(files, excludes.map_values(|p: Seq<char>| ascii_uppercase(p))) == candidates(
            files,
            excludes,
        ),
{
    let upper = excludes.map_values(|p: Seq<char>| ascii_uppercase(p));
    assert forall|j: int| 0 <= j < excludes.len() implies lowercase(#[trigger] upper[j]) == lowercase(
        excludes[j],
    ) by {
        lemma_ascii_uppercase_same_lowercase(excludes[j]);
    }
    assert forall|f: Seq<char>| #[trigger] excluded(f, upper) == excluded(f, excludes) by {
        let lf = lowercase(f);
        if excluded(f, upper) {
            let j = choose|j: int| 0 <= j < upper.len() && pattern_hits(lf, #[trigger] upper[j]);
            assert(pattern_hits(lf, excludes[j]));
        }
        if excluded(f, excludes) {
            let j = choose|j: int| 0 <= j < excludes.len() && pattern_hits(lf, #[trigger] excludes[j]);
            assert(lowercase(upper[j]) == lowercase(excludes[j]));
            assert(pattern_hits(lf, upper[j]));
        }
    }
    lemma_same_exclusion(files, upper, excludes);
}

// ----------------------------------------------------------------- archive

/// An entry name never holds a backslash.
pub proof fn law_entry_names_use_forward_slashes(f: Seq<char>)
    ensures
        forward_slashes(f).len() == f.len(),
        forall|i: int| 0 <= i < f.len() ==> #[trigger] forward_slashes(f)[i] != '\\',
{
}

proof fn lemma_entries_stay_in_candidates(
    root: Seq<char>,
    files: Seq<Seq<char>>,
    rs: Seq<Reply>,
    pos: nat,
    included: Seq<Seq<char>>,
)
    ensures
        entries_plan(root, files, rs, pos, included) matches Progress::Through(_, done) ==> forall|
            f: Seq<char>,
        | #[trigger] done.contains(f) ==> included.contains(f) || files.contains(f),
        entries_plan(root, files, rs, pos, included) matches Progress::Ask(Act::StartEntry { name, .. })
            ==> exists|f: Seq<char>| #[trigger] files.contains(f) && name == forward_slashes(f),
        entries_plan(root, files, rs, pos, included) matches Progress::Ask(
            Act::StartEntry { compression, permissions, .. },
        ) ==> compression == Compression::Deflated && permissions == ENTRY_PERMISSIONS,
    decreases files.len(),
{
    if files.len() > 0 {
        let f0 = files[0];
        let rest = files.drop_first();
        lemma_entries_stay_in_candidates(root, rest, rs, pos + 1, included);
        lemma_entries_stay_in_candidates(root, rest, rs, pos + 4, included.push(f0));
        assert(files.contains(f0));
        assert forall|f: Seq<char>| rest.contains(f) implies files.contains(f) by {
            let k = choose|k: int| 0 <= k < rest.len() && rest[k] == f;
            assert(files[k + 1] == f);
        }
        assert forall|f: Seq<char>| included.push(f0).contains(f) implies included.contains(f)
            || files.contains(f) by {
            let k = choose|k: int| 0 <= k < included.len() + 1 && included.push(f0)[k] == f;
            if k < included.len() {
                assert(included[k] == f);
            }
        }
    }
}

/// Every entry the archive gets is `readme.txt` or a changed file that no
/// exclusion pattern applies to, named by its path with forward slashes, and
/// every entry is stored deflated with permissions `rwxr-xr-x`.
pub proof fn law_archive_entries_are_unexcluded_changed_files(
    output: Seq<char>,
    root: Seq<char>,
    info: InfoView,
    files: Seq<Seq<char>>,
    excludes: Seq<Seq<char>>,
    now: Seq<char>,
    rs: Seq<Reply>,
)
    ensures
        archive_plan(output, root, info, files, excludes, now, rs) matches Plan::Perform(
            Act::StartEntry { name, .. },
        ) ==> name == "readme.txt"@ || exists|f: Seq<char>|
            #[trigger] files.contains(f) && !excluded(f, excludes) && name == forward_slashes(f),
        archive_plan(output, root, info, files, excludes, now, rs) matches Plan::Perform(
            Act::StartEntry { compression, permissions, .. },
        ) ==> compression == Compression::Deflated && permissions == ENTRY_PERMISSIONS,
{
    let cands = candidates(files, excludes);
    lemma_entries_stay_in_candidates(root, cands, rs, 2, Seq::empty());
    match archive_plan(output, root, info, files, excludes, now, rs) {
        Plan::Perform(Act::StartEntry { name, .. }) => {
            if name != "readme.txt"@ {
                let f = choose|f: Seq<char>| #[trigger] cands.contains(f) && name == forward_slashes(f);
                law_candidates_are_the_unexcluded_files(files, excludes, f);
            }
        },
        _ => {},
    }
}


/// Every entry that making the archive stores is `readme.txt` or a file
/// that no exclusion pattern applies to, named by its path with forward
/// slashes, and every entry is stored deflated with permissions
/// `rwxr-xr-x`.
pub proof fn law_zip_entries_are_unexcluded(
    git: Seq<char>,
    repo: Seq<char>,
    from: u32,
    to: u32,
    output: Seq<char>,
    excludes: Seq<Seq<char>>,
    now: Seq<char>,
    rs: Seq<Reply>,
)
    ensures
        zip_plan(git, repo, from, to, output, excludes, now, rs) matches Plan::Perform(
            Act::StartEntry { name, .. },
        ) ==> name == "readme.txt"@ || exists|f: Seq<char>|
            !excluded(f, excludes) && #[trigger] forward_slashes(f) == name,
        zip_plan(git, repo, from, to, output, excludes, now, rs) matches Plan::Perform(
            Act::StartEntry { compression, permissions, .. },
        ) ==> compression == Compression::Deflated && permissions == ENTRY_PERMISSIONS,
{
    let g = cleaned(git);
    let r = cleaned(repo);
    match repo_root_plan(g, r, rs) {
        Plan::Done(Ok(root), u1) => {
            let rs2 = rs.skip(u1 as int);
            match commit_info_plan(g, r, from, to, rs2) {
                Plan::Done(Ok(info), u2) => {
                    let rs3 = rs2.skip(u2 as int);
                    match changed_files_plan(g, r, from, to, rs3) {
                        Plan::Done(Ok(files), u3) => {
                            let rs4 = rs3.skip(u3 as int);
                            let o = cleaned(output);
                            law_archive_entries_are_unexcluded_changed_files(
                                o,
                                root,
                                info,
                                files,
                                excludes,
                                now,
                                rs4,
                            );
                            match archive_plan(o, root, info, files, excludes, now, rs4) {
                                Plan::Perform(Act::StartEntry { name, .. }) => {
                                    if name != "readme.txt"@ {
                                        let f = choose|f: Seq<char>|
                                            #[trigger] files.contains(f) && !excluded(f, excludes)
                                                && name == forward_slashes(f);
                                        assert(forward_slashes(f) == name);
                                    }
                                },
                                _ => {},
                            }
                        },
                        _ => {},
                    }
                },
                _ => {},
            }
        },
        _ => {},
    }
}

// ----------------------------------------------------------- the protocol

proof fn lemma_replies_extend(rs: Seq<Reply>, more: Seq<Reply>)
    ensures
        forall|k: nat| k < rs.len() ==> #[trigger] git_reply(rs + more, k) == git_reply(rs, k),
        forall|k: nat| k < rs.len() ==> #[trigger] io_reply(rs + more, k) == io_reply(rs, k),
        forall|k: nat| k < rs.len() ==> #[trigger] exists_reply(rs + more, k) == exists_reply(rs, k),
        forall|k: nat| k < rs.len() ==> #[trigger] read_reply(rs + more, k) == read_reply(rs, k),
{
    assert forall|k: nat| k < rs.len() implies (rs + more)[k as int] == rs[k as int] by {}
}

/// A Git command that has finished has read no more replies than there
/// are, and it stays finished, with the same result, when more replies come
/// after those: the replies it did not read change nothing.
pub proof fn law_finished_commands_ignore_later_replies(
    git: Seq<char>,
    repo: Seq<char>,
    from: u32,
    to: u32,
    count: u32,
    rs: Seq<Reply>,
    more: Seq<Reply>,
)
    ensures
        repo_root_plan(git, repo, rs) matches Plan::Done(_, u) ==> u <= rs.len() && repo_root_plan(
            git,
            repo,
            rs + more,
        ) == repo_root_plan(git, repo, rs),
        validate_repo_plan(git, repo, rs) matches Plan::Done(_, u) ==> u <= rs.len()
            && validate_repo_plan(git, repo, rs + more) == validate_repo_plan(git, repo, rs),
        validate_git_plan(git, rs) matches Plan::Done(_, u) ==> u <= rs.len() && validate_git_plan(
            git,
            rs + more,
        ) == validate_git_plan(git, rs),
        fetch_plan(git, repo, rs) matches Plan::Done(_, u) ==> u <= rs.len() && fetch_plan(
            git,
            repo,
            rs + more,
        ) == fetch_plan(git, repo, rs),
        commit_info_plan(git, repo, from, to, rs) matches Plan::Done(_, u) ==> u <= rs.len()
            && commit_info_plan(git, repo, from, to, rs + more) == commit_info_plan(
            git,
            repo,
            from,
            to,
            rs,
        ),
        history_plan(git, repo, count, rs) matches Plan::Done(_, u) ==> u <= rs.len()
            && history_plan(git, repo, count, rs + more) == history_plan(git, repo, count, rs),
        changed_files_plan(git, repo, from, to, rs) matches Plan::Done(_, u) ==> u <= rs.len()
            && changed_files_plan(git, repo, from, to, rs + more) == changed_files_plan(
            git,
            repo,
            from,
            to,
            rs,
        ),
{
    lemma_replies_extend(rs, more);
}

proof fn lemma_entries_extend(
    root: Seq<char>,
    files: Seq<Seq<char>>,
    rs: Seq<Reply>,
    more: Seq<Reply>,
    pos: nat,
    included: Seq<Seq<char>>,
)
    requires
        pos <= rs.len(),
    ensures
        entries_plan(root, files, rs, pos, included) matches Progress::Through(p, _) ==> p <= rs.len(),
        entries_plan(root, files, rs, pos, included) matches Progress::Fail(_, u) ==> u <= rs.len(),
        !(entries_plan(root, files, rs, pos, included) is Ask) ==> entries_plan(
            root,
            files,
            rs + more,
            pos,
            included,
        ) == entries_plan(root, files, rs, pos, included),
    decreases files.len(),
{
    lemma_replies_extend(rs, more);
    if files.len() > 0 {
        let rest = files.drop_first();
        if pos + 1 <= rs.len() {
            lemma_entries_extend(root, rest, rs, more, pos + 1, included);
        }
        if pos + 4 <= rs.len() {
            lemma_entries_extend(root, rest, rs, more, pos + 4, included.push(files[0]));
        }
    }
}

proof fn lemma_archive_extend(
    output: Seq<char>,
    root: Seq<char>,
    info: InfoView,
    files: Seq<Seq<char>>,
    excludes: Seq<Seq<char>>,
    now: Seq<char>,
    rs: Seq<Reply>,
    more: Seq<Reply>,
)
    ensures
        archive_plan(output, root, info, files, excludes, now, rs) matches Plan::Done(_, u) ==> u
            <= rs.len() && archive_plan(output, root, info, files, excludes, now, rs + more)
            == archive_plan(output, root, info, files, excludes, now, rs),
{
    lemma_replies_extend(rs, more);
    if rs.len() >= 2 {
        lemma_entries_extend(root, candidates(files, excludes), rs, more, 2, Seq::empty());
    }
}

proof fn lemma_skip_extend(rs: Seq<Reply>, more: Seq<Reply>, u: nat)
    requires
        u <= rs.len(),
    ensures
        (rs + more).skip(u as int) == rs.skip(u as int) + more,
{
    assert((rs + more).skip(u as int) =~= rs.skip(u as int) + more);
}

/// Making the archive, once finished, has read no more replies than there
/// are, and it stays finished, with the same result, when more replies come
/// after those.
pub proof fn law_finished_archive_ignores_later_replies(
    git: Seq<char>,
    repo: Seq<char>,
    from: u32,
    to: u32,
    output: Seq<char>,
    excludes: Seq<Seq<char>>,
    now: Seq<char>,
    rs: Seq<Reply>,
    more: Seq<Reply>,
)
    ensures
        zip_plan(git, repo, from, to, output, excludes, now, rs) matches Plan::Done(_, u) ==> u
            <= rs.len() && zip_plan(git, repo, from, to, output, excludes, now, rs + more)
            == zip_plan(git, repo, from, to, output, excludes, now, rs),
{
    let g = cleaned(git);
    let r = cleaned(repo);
    law_finished_commands_ignore_later_replies(g, r, from, to, 0, rs, more);
    match repo_root_plan(g, r, rs) {
        Plan::Done(Ok(root), u1) => {
            let rs2 = rs.skip(u1 as int);
            lemma_skip_extend(rs, more, u1);
            law_finished_commands_ignore_later_replies(g, r, from, to, 0, rs2, more);
            match commit_info_plan(g, r, from, to, rs2) {
                Plan::Done(Ok(info), u2) => {
                    let rs3 = rs2.skip(u2 as int);
                    lemma_skip_extend(rs2, more, u2);
                    law_finished_commands_ignore_later_replies(g, r, from, to, 0, rs3, more);
                    match changed_files_plan(g, r, from, to, rs3) {
                        Plan::Done(Ok(files), u3) => {
                            let rs4 = rs3.skip(u3 as int);
                            lemma_skip_extend(rs3, more, u3);
                            lemma_archive_extend(
                                cleaned(output),
                                root,
                                info,
                                files,
                                excludes,
                                now,
                                rs4,
                                more,
                            );
                        },
                        _ => {},
                    }
                },
                _ => {},
            }
        },
        _ => {},
    }
}

} // verus!
