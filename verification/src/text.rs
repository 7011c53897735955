use vstd::prelude::*;
use vstd::string::*;
use vstd::utf8::{decode_utf8, is_ascii_chars, valid_utf8};

verus! {

/// `String::push` appends one character.
pub assume_specification[ String::push ](string: &mut String, ch: char)
    ensures
        final(string)@ == old(string)@.push(ch),
;

/// Characters with the Unicode `White_Space` property, the set that
/// `char::is_whitespace` and `str::trim` use.
pub open spec fn is_white_space(c: char) -> bool {
    let u = c as u32;
    ||| 0x09 <= u <= 0x0d
    ||| u == 0x20
    ||| u == 0x85
    ||| u == 0xa0
    ||| u == 0x1680
    ||| 0x2000 <= u <= 0x200a
    ||| u == 0x2028
    ||| u == 0x2029
    ||| u == 0x202f
    ||| u == 0x205f
    ||| u == 0x3000
}

/// Which characters a trim removes from the two ends of a text.
pub enum CharClass {
    WhiteSpace,
    Exactly(char),
}

impl CharClass {
    pub open spec fn holds(self, c: char) -> bool {
        match self {
            CharClass::WhiteSpace => is_white_space(c),
            CharClass::Exactly(d) => c == d,
        }
    }

    pub fn test(&self, c: char) -> (b: bool)
        ensures
            b == self.holds(c),
    {
        match self {
            CharClass::WhiteSpace => {
                let u = c as u32;
                (0x09 <= u && u <= 0x0d) || u == 0x20 || u == 0x85 || u == 0xa0 || u == 0x1680
                    || (0x2000 <= u && u <= 0x200a) || u == 0x2028 || u == 0x2029 || u == 0x202f
                    || u == 0x205f || u == 0x3000
            },
            CharClass::Exactly(d) => c == *d,
        }
    }
}

/// `s` without the characters of class `p` at its front.
pub open spec fn strip_start(s: Seq<char>, p: CharClass) -> Seq<char>
    decreases s.len(),
{
    if s.len() > 0 && p.holds(s[0]) {
        strip_start(s.drop_first(), p)
    } else {
        s
    }
}

/// `s` without the characters of class `p` at its back.
pub open spec fn strip_end(s: Seq<char>, p: CharClass) -> Seq<char>
    decreases s.len(),
{
    if s.len() > 0 && p.holds(s.last()) {
        strip_end(s.drop_last(), p)
    } else {
        s
    }
}

/// `s` without the characters of class `p` at either end (`str::trim_matches`).
pub open spec fn trim_by(s: Seq<char>, p: CharClass) -> Seq<char> {
    strip_end(strip_start(s, p), p)
}

/// `str::trim`: `s` without white space at either end.
pub open spec fn trim(s: Seq<char>) -> Seq<char> {
    trim_by(s, CharClass::WhiteSpace)
}

/// What `clean_path` makes of a path typed or pasted by a user: white space,
/// then double quotes, then single quotes, then white space again are taken
/// off both ends.
pub open spec fn cleaned(s: Seq<char>) -> Seq<char> {
    trim(trim_by(trim_by(trim(s), CharClass::Exactly('"')), CharClass::Exactly('\'')))
}

/// The characters of a string slice, in order.
pub fn to_chars(s: &str) -> (v: Vec<char>)
    ensures
        v@ == s@,
{
    let mut v: Vec<char> = Vec::new();
    for c in it: s.chars()
        invariant
            v@ == it.seq().take(it.index()),
    {
        v.push(c);
    }
    v
}

/// The string made of `s[lo..hi]`.
pub fn string_of(s: &Vec<char>, lo: usize, hi: usize) -> (r: String)
    requires
        lo <= hi <= s@.len(),
    ensures
        r@ == s@.subrange(lo as int, hi as int),
{
    let mut r = String::new();
    let mut i = lo;
    while i < hi
        invariant
            lo <= i <= hi <= s@.len(),
            r@ == s@.subrange(lo as int, i as int),
        decreases hi - i,
    {
        r.push(s[i]);
        i += 1;
        assert(r@ =~= s@.subrange(lo as int, i as int));
    }
    r
}

/// The bounds of `trim_by(s[lo..hi], p)` inside `s`.
pub fn trim_bounds(s: &Vec<char>, lo: usize, hi: usize, p: &CharClass) -> (r: (usize, usize))
    requires
        lo <= hi <= s@.len(),
    ensures
        lo <= r.0 <= r.1 <= hi,
        s@.subrange(r.0 as int, r.1 as int) == trim_by(s@.subrange(lo as int, hi as int), *p),
{
    let mut a = lo;
    while a < hi && p.test(s[a])
        invariant
            lo <= a <= hi <= s@.len(),
            strip_start(s@.subrange(lo as int, hi as int), *p) == strip_start(
                s@.subrange(a as int, hi as int),
                *p,
            ),
        decreases hi - a,
    {
        assert(s@.subrange(a as int, hi as int).drop_first() =~= s@.subrange(a + 1, hi as int));
        a += 1;
    }
    let mut b = hi;
    while b > a && p.test(s[b - 1])
        invariant
            lo <= a <= b <= hi <= s@.len(),
            strip_end(s@.subrange(a as int, hi as int), *p) == strip_end(
                s@.subrange(a as int, b as int),
                *p,
            ),
        decreases b - a,
    {
        assert(s@.subrange(a as int, b as int).drop_last() =~= s@.subrange(a as int, b - 1));
        b -= 1;
    }
    (a, b)
}

/// The characters of `s` with `p` trimmed from both ends.
pub fn trim_chars(s: &Vec<char>, p: &CharClass) -> (r: String)
    ensures
        r@ == trim_by(s@, *p),
{
    let (a, b) = trim_bounds(s, 0, s.len(), p);
    assert(s@.subrange(0, s@.len() as int) =~= s@);
    string_of(s, a, b)
}

/// `str::trim`.
pub fn trim_str(s: &str) -> (r: String)
    ensures
        r@ == trim(s@),
{
    let v = to_chars(s);
    trim_chars(&v, &CharClass::WhiteSpace)
}

/// Takes surrounding white space and quotes off a path: white space, then
/// double quotes, then single quotes, then white space again.
pub fn clean_path(path: &str) -> (r: String)
    ensures
        r@ == cleaned(path@),
{
    let v = to_chars(path);
    let n = v.len();
    let (a1, b1) = trim_bounds(&v, 0, n, &CharClass::WhiteSpace);
    let (a2, b2) = trim_bounds(&v, a1, b1, &CharClass::Exactly('"'));
    let (a3, b3) = trim_bounds(&v, a2, b2, &CharClass::Exactly('\''));
    let (a4, b4) = trim_bounds(&v, a3, b3, &CharClass::WhiteSpace);
    assert(v@.subrange(0, n as int) =~= v@);
    string_of(&v, a4, b4)
}


/// The views of a sequence of character vectors.
pub open spec fn texts(v: Seq<Vec<char>>) -> Seq<Seq<char>> {
    v.map_values(|x: Vec<char>| x@)
}

/// The views of a sequence of strings.
pub open spec fn strings(v: Seq<String>) -> Seq<Seq<char>> {
    v.map_values(|x: String| x@)
}

/// `str::split` on one character: the pieces between the occurrences of
/// `c`, so `k` occurrences give `k + 1` pieces.
pub open spec fn split_on(s: Seq<char>, c: char) -> Seq<Seq<char>>
    decreases s.len(),
{
    if s.len() == 0 {
        seq![Seq::<char>::empty()]
    } else {
        let prev = split_on(s.drop_last(), c);
        if s.last() == c {
            prev.push(Seq::<char>::empty())
        } else {
            prev.update(prev.len() - 1, prev.last().push(s.last()))
        }
    }
}

pub proof fn lemma_split_on_nonempty(s: Seq<char>, c: char)
    ensures
        split_on(s, c).len() >= 1,
    decreases s.len(),
{
    if s.len() > 0 {
        lemma_split_on_nonempty(s.drop_last(), c);
    }
}

/// A line without the carriage return that ended it, if any.
pub open spec fn strip_cr(l: Seq<char>) -> Seq<char> {
    if l.len() > 0 && l.last() == '\r' {
        l.drop_last()
    } else {
        l
    }
}

/// The pieces of `split_on(s, '\n')` that a newline ended, each without a
/// carriage return at its end.
pub open spec fn ended_lines(s: Seq<char>) -> Seq<Seq<char>> {
    split_on(s, '\n').drop_last().map_values(|l: Seq<char>| strip_cr(l))
}

/// `str::lines`: the lines of `s`, ended by `\n` or `\r\n`; the last line
/// need not be ended, and an ended last line gives no empty line after it.
pub open spec fn lines(s: Seq<char>) -> Seq<Seq<char>> {
    let last = split_on(s, '\n').last();
    if last.len() == 0 {
        ended_lines(s)
    } else {
        ended_lines(s).push(last)
    }
}

/// The characters of `s` split at each `c`.
pub fn split_chars(s: &Vec<char>, c: char) -> (r: Vec<Vec<char>>)
    ensures
        texts(r@) == split_on(s@, c),
{
    let mut done: Vec<Vec<char>> = Vec::new();
    let mut cur: Vec<char> = Vec::new();
    for i in 0..s.len()
        invariant
            texts(done@).push(cur@) == split_on(s@.take(i as int), c),
    {
        let ghost before = s@.take(i as int);
        assert(s@.take(i + 1).drop_last() =~= before);
        if s[i] == c {
            let ghost d0 = texts(done@);
            let ghost c0 = cur@;
            done.push(cur);
            cur = Vec::new();
            assert(texts(done@).push(cur@) =~= d0.push(c0).push(Seq::<char>::empty()));
        } else {
            let ghost old_cur = cur@;
            cur.push(s[i]);
            assert(texts(done@).push(cur@) =~= texts(done@).push(old_cur).update(
                texts(done@).len() as int,
                old_cur.push(s[i as int]),
            ));
        }
    }
    assert(s@.take(s@.len() as int) =~= s@);
    let ghost d0 = texts(done@);
    let ghost c0 = cur@;
    done.push(cur);
    assert(texts(done@) =~= d0.push(c0));
    done
}


/// The characters of `s` without a carriage return at the end.
fn strip_cr_chars(v: Vec<char>) -> (r: Vec<char>)
    ensures
        r@ == strip_cr(v@),
{
    let ghost v0 = v@;
    let mut v = v;
    let n = v.len();
    if n > 0 && v[n - 1] == '\r' {
        v.pop();
        assert(v@ =~= strip_cr(v0));
    }
    v
}

/// `str::lines` on the characters of a text.
pub fn lines_of(s: &Vec<char>) -> (r: Vec<Vec<char>>)
    ensures
        texts(r@) == lines(s@),
{
    let mut done: Vec<Vec<char>> = Vec::new();
    let mut cur: Vec<char> = Vec::new();
    assert(ended_lines(s@.take(0)) =~= Seq::<Seq<char>>::empty());
    for i in 0..s.len()
        invariant
            texts(done@) == ended_lines(s@.take(i as int)),
            cur@ == split_on(s@.take(i as int), '\n').last(),
    {
        let ghost before = s@.take(i as int);
        let ghost pieces = split_on(before, '\n');
        proof {
            lemma_split_on_nonempty(before, '\n');
        }
        assert(s@.take(i + 1).drop_last() =~= before);
        if s[i] == '\n' {
            let ghost d0 = texts(done@);
            let ghost c0 = cur@;
            let line = strip_cr_chars(cur);
            done.push(line);
            cur = Vec::new();
            assert(pieces =~= pieces.drop_last().push(c0));
            assert(texts(done@) =~= d0.push(strip_cr(c0)));
            assert(ended_lines(s@.take(i + 1)) =~= pieces.map_values(|l: Seq<char>| strip_cr(l)));
            assert(texts(done@) =~= ended_lines(s@.take(i + 1)));
        } else {
            cur.push(s[i]);
            assert(ended_lines(s@.take(i + 1)) =~= ended_lines(before));
        }
    }
    assert(s@.take(s@.len() as int) =~= s@);
    if cur.len() > 0 {
        let ghost d0 = texts(done@);
        let ghost c0 = cur@;
        done.push(cur);
        assert(texts(done@) =~= d0.push(c0));
    }
    done
}


/// `i` is a place where `needle` stands in `hay`.
pub open spec fn occurs_at(hay: Seq<char>, needle: Seq<char>, i: int) -> bool {
    &&& 0 <= i
    &&& i + needle.len() <= hay.len()
    &&& hay.subrange(i, i + needle.len()) == needle
}

/// `str::contains` with a text pattern: `needle` stands somewhere in `hay`.
pub open spec fn contains_text(hay: Seq<char>, needle: Seq<char>) -> bool {
    exists|i: int| occurs_at(hay, needle, i)
}

fn occurs_at_exec(hay: &Vec<char>, needle: &Vec<char>, i: usize) -> (b: bool)
    requires
        i + needle@.len() <= hay@.len(),
    ensures
        b == occurs_at(hay@, needle@, i as int),
{
    let n = needle.len();
    let hl = hay.len();
    let mut k: usize = 0;
    while k < n
        invariant
            k <= n == needle@.len(),
            hl == hay@.len(),
            i + n <= hay@.len(),
            forall|m: int| 0 <= m < k ==> hay@[i + m] == needle@[m],
        decreases n - k,
    {
        if hay[i + k] != needle[k] {
            assert(hay@.subrange(i as int, i + n)[k as int] != needle@[k as int]);
            return false;
        }
        k += 1;
    }
    assert(hay@.subrange(i as int, i + n) =~= needle@);
    true
}

/// Whether `needle` stands somewhere in `hay`.
pub fn contains_chars(hay: &Vec<char>, needle: &Vec<char>) -> (b: bool)
    ensures
        b == contains_text(hay@, needle@),
{
    if needle.len() > hay.len() {
        return false;
    }
    let last = hay.len() - needle.len();
    let mut i: usize = 0;
    loop
        invariant
            i <= last,
            last + needle@.len() == hay@.len(),
            forall|j: int| 0 <= j < i ==> !occurs_at(hay@, needle@, j),
        decreases last - i,
    {
        if occurs_at_exec(hay, needle, i) {
            return true;
        }
        if i == last {
            return false;
        }
        i += 1;
    }
}

/// `s` with every backslash turned into a forward slash.
pub open spec fn forward_slashes(s: Seq<char>) -> Seq<char> {
    s.map_values(|c: char| if c == '\\' { '/' } else { c })
}

/// `str::replace('\\', "/")`.
pub fn replace_backslashes(s: &str) -> (r: String)
    ensures
        r@ == forward_slashes(s@),
{
    let v = to_chars(s);
    let mut r = String::new();
    for i in 0..v.len()
        invariant
            v@ == s@,
            r@ == forward_slashes(v@.take(i as int)),
    {
        let c = v[i];
        if c == '\\' {
            r.push('/');
        } else {
            r.push(c);
        }
        assert(r@ =~= forward_slashes(v@.take(i + 1)));
    }
    assert(v@.take(v@.len() as int) =~= v@);
    r
}

/// The decimal digit for `d < 10`.
pub open spec fn digit(d: nat) -> char {
    if d == 0 {
        '0'
    } else if d == 1 {
        '1'
    } else if d == 2 {
        '2'
    } else if d == 3 {
        '3'
    } else if d == 4 {
        '4'
    } else if d == 5 {
        '5'
    } else if d == 6 {
        '6'
    } else if d == 7 {
        '7'
    } else if d == 8 {
        '8'
    } else {
        '9'
    }
}

/// The decimal notation of `n`, as `Display` writes an unsigned integer.
pub open spec fn decimal(n: nat) -> Seq<char>
    decreases n,
{
    if n < 10 {
        seq![digit(n)]
    } else {
        decimal(n / 10).push(digit(n % 10))
    }
}

fn digit_exec(d: u64) -> (c: char)
    requires
        d < 10,
    ensures
        c == digit(d as nat),
{
    if d == 0 {
        '0'
    } else if d == 1 {
        '1'
    } else if d == 2 {
        '2'
    } else if d == 3 {
        '3'
    } else if d == 4 {
        '4'
    } else if d == 5 {
        '5'
    } else if d == 6 {
        '6'
    } else if d == 7 {
        '7'
    } else if d == 8 {
        '8'
    } else {
        '9'
    }
}

/// Appends the decimal notation of `n`.
pub fn push_decimal(out: &mut String, n: u64)
    ensures
        final(out)@ == old(out)@ + decimal(n as nat),
    decreases n,
{
    if n >= 10 {
        push_decimal(out, n / 10);
    }
    out.push(digit_exec(n % 10));
    assert(final(out)@ =~= old(out)@ + decimal(n as nat));
}

/// `parts` with `sep` between each two of them (`[T]::join`).
pub open spec fn joined(parts: Seq<Seq<char>>, sep: Seq<char>) -> Seq<char>
    decreases parts.len(),
{
    if parts.len() == 0 {
        Seq::<char>::empty()
    } else if parts.len() == 1 {
        parts[0]
    } else {
        joined(parts.drop_last(), sep) + sep + parts.last()
    }
}

/// Appends the strings of `parts` with `sep` between each two of them.
pub fn push_joined(out: &mut String, parts: &Vec<String>, sep: &str)
    ensures
        final(out)@ == old(out)@ + joined(strings(parts@), sep@),
{
    let ghost start = out@;
    for i in 0..parts.len()
        invariant
            out@ == start + joined(strings(parts@).take(i as int), sep@),
    {
        let ghost taken = strings(parts@).take(i + 1);
        assert(taken.drop_last() =~= strings(parts@).take(i as int));
        if i != 0 {
            out.append(sep);
        }
        out.append(parts[i].as_str());
        assert(out@ =~= start + joined(taken, sep@));
    }
    assert(strings(parts@).take(parts@.len() as int) =~= strings(parts@));
}

/// What `String::from_utf8_lossy` makes of a byte sequence.
pub uninterp spec fn utf8_lossy(bytes: Seq<u8>) -> Seq<char>;

/// Decodes program output as UTF-8, with U+FFFD for each invalid sequence.
/// Calls `String::from_utf8_lossy`; the result is given the name
/// `utf8_lossy` of the bytes, and of it only this is claimed: bytes that are
/// valid UTF-8 decode to the text they encode.
#[verifier::external_body]
pub(crate) fn decode_lossy(bytes: &[u8]) -> (r: String)
    ensures
        r@ == utf8_lossy(bytes@),
        valid_utf8(bytes@) ==> r@ == decode_utf8(bytes@),
{
    String::from_utf8_lossy(bytes).into_owned()
}

/// The lower-case form of an ASCII character: `A` to `Z` become `a` to `z`,
/// the others stay.
pub open spec fn ascii_lower(c: char) -> char {
    if 'A' <= c <= 'Z' {
        ((c as u32) + 32) as char
    } else {
        c
    }
}

/// The upper-case form of an ASCII character: `a` to `z` become `A` to `Z`,
/// the others stay.
pub open spec fn ascii_upper(c: char) -> char {
    if 'a' <= c <= 'z' {
        ((c as u32) - 32) as char
    } else {
        c
    }
}

/// `str::to_ascii_uppercase`: the ASCII letters of `s` in upper case.
pub open spec fn ascii_uppercase(s: Seq<char>) -> Seq<char> {
    s.map_values(|c: char| ascii_upper(c))
}

/// Every character of `s` is white space.
pub open spec fn all_white_space(s: Seq<char>) -> bool {
    forall|i: int| 0 <= i < s.len() ==> is_white_space(#[trigger] s[i])
}

/// `str::to_ascii_lowercase`: the ASCII letters of `s` in lower case.
pub open spec fn ascii_lowercase(s: Seq<char>) -> Seq<char> {
    s.map_values(|c: char| ascii_lower(c))
}

/// What `str::to_lowercase` makes of a text that is neither ASCII nor all
/// white space and whose ASCII letters are already in lower case: Unicode's
/// lowercase mapping.
pub uninterp spec fn unicode_lowercase(s: Seq<char>) -> Seq<char>;

/// What `str::to_lowercase` makes of a text. Unicode maps each character to
/// its lower case, except that a capital sigma depends on whether cased
/// letters stand around it; `A` to `Z` map to `a` to `z`, and every ASCII
/// letter is cased in either case. So an ASCII text is lower-cased letter by
/// letter; a text of white space stays as it is (no white space character
/// has a case); and any other text lower-cases as it does once its ASCII
/// letters are in lower case, by a mapping that is not written out here.
pub open spec fn lowercase(s: Seq<char>) -> Seq<char> {
    if is_ascii_chars(s) {
        ascii_lowercase(s)
    } else if all_white_space(s) {
        s
    } else {
        unicode_lowercase(ascii_lowercase(s))
    }
}

/// Calls `str::to_lowercase`. What is claimed of the result is `lowercase`:
/// ASCII text is lower-cased letter by letter, white space stays, and any
/// other text gives what `unicode_lowercase` names for it once its ASCII
/// letters are lowered.
#[verifier::external_body]
pub(crate) fn to_lower(s: &str) -> (r: String)
    ensures
        r@ == lowercase(s@),
        !is_ascii_chars(s@) && !all_white_space(s@) ==> r@ == unicode_lowercase(
            ascii_lowercase(s@),
        ),
{
    s.to_lowercase()
}

/// A new string holding `s`.
pub fn text(s: &str) -> (r: String)
    ensures
        r@ == s@,
{
    String::from_str(s)
}

} // verus!
