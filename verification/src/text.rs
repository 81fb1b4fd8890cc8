//! Character-level text handling: the models of the `str` operations the
//! probes rely on (line splitting, trimming, searching), with executable
//! versions proved against them.
use vstd::prelude::*;

verus! {

// ---------------------------------------------------------------------------
// Models
// ---------------------------------------------------------------------------

/// Whether `c` has the Unicode `White_Space` property (what
/// `char::is_whitespace` tests).
pub open spec fn is_white(c: char) -> bool {
    ||| ('\u{9}' <= c && c <= '\u{d}')
    ||| c == ' '
    ||| c == '\u{85}'
    ||| c == '\u{a0}'
    ||| c == '\u{1680}'
    ||| ('\u{2000}' <= c && c <= '\u{200a}')
    ||| c == '\u{2028}'
    ||| c == '\u{2029}'
    ||| c == '\u{202f}'
    ||| c == '\u{205f}'
    ||| c == '\u{3000}'
}

/// Which characters a trim removes.
#[derive(Clone, Copy)]
pub enum Strip {
    Whitespace,
    Only(char),
}

pub open spec fn strips(m: Strip, c: char) -> bool {
    match m {
        Strip::Whitespace => is_white(c),
        Strip::Only(x) => c == x,
    }
}

pub open spec fn trim_start_by(s: Seq<char>, m: Strip) -> Seq<char>
    decreases s.len(),
{
    if s.len() > 0 && strips(m, s[0]) {
        trim_start_by(s.drop_first(), m)
    } else {
        s
    }
}

pub open spec fn trim_end_by(s: Seq<char>, m: Strip) -> Seq<char>
    decreases s.len(),
{
    if s.len() > 0 && strips(m, s.last()) {
        trim_end_by(s.drop_last(), m)
    } else {
        s
    }
}

/// `s` without the leading and trailing characters that `m` removes
/// (`str::trim_matches`).
pub open spec fn trim_by(s: Seq<char>, m: Strip) -> Seq<char> {
    trim_end_by(trim_start_by(s, m), m)
}

/// `str::trim`.
pub open spec fn trim(s: Seq<char>) -> Seq<char> {
    trim_by(s, Strip::Whitespace)
}

/// `pat` occurs in `s` at position `i`.
pub open spec fn matches_at(s: Seq<char>, pat: Seq<char>, i: int) -> bool {
    0 <= i && i + pat.len() <= s.len() && s.subrange(i, i + pat.len()) == pat
}

/// `str::contains` with a string pattern.
pub open spec fn contains(s: Seq<char>, pat: Seq<char>) -> bool {
    exists|i: int| matches_at(s, pat, i)
}

/// `str::starts_with` with a string pattern.
pub open spec fn starts_with(s: Seq<char>, pat: Seq<char>) -> bool {
    matches_at(s, pat, 0)
}

pub open spec fn is_first_match(s: Seq<char>, pat: Seq<char>, i: int) -> bool {
    matches_at(s, pat, i) && forall|j: int| 0 <= j < i ==> !#[trigger] matches_at(s, pat, j)
}

/// The position of the first occurrence of `pat` in `s`.
pub open spec fn first_match(s: Seq<char>, pat: Seq<char>) -> Option<int> {
    if exists|i: int| is_first_match(s, pat, i) {
        Some(choose|i: int| is_first_match(s, pat, i))
    } else {
        None
    }
}

/// What precedes the first occurrence of `pat`, or all of `s`
/// (the first item of `str::split`).
pub open spec fn before_first(s: Seq<char>, pat: Seq<char>) -> Seq<char> {
    match first_match(s, pat) {
        Some(i) => s.take(i),
        None => s,
    }
}

pub open spec fn is_first_index(s: Seq<char>, c: char, i: int) -> bool {
    0 <= i < s.len() && s[i] == c && forall|j: int| 0 <= j < i ==> #[trigger] s[j] != c
}

/// The position of the first `c` in `s`.
pub open spec fn first_index(s: Seq<char>, c: char) -> Option<int> {
    if exists|i: int| is_first_index(s, c, i) {
        Some(choose|i: int| is_first_index(s, c, i))
    } else {
        None
    }
}

/// `str::split_once` with a character pattern.
pub open spec fn split_once(s: Seq<char>, c: char) -> Option<(Seq<char>, Seq<char>)> {
    match first_index(s, c) {
        Some(i) => Some((s.take(i), s.skip(i + 1))),
        None => None,
    }
}

pub open spec fn strip_cr(l: Seq<char>) -> Seq<char> {
    if l.len() > 0 && l.last() == '\r' {
        l.drop_last()
    } else {
        l
    }
}

/// `str::lines`: pieces ended by `\n` (a `\r` before it is dropped too);
/// the last piece needs no `\n`, and no empty piece follows a final `\n`.
pub open spec fn lines(s: Seq<char>) -> Seq<Seq<char>>
    decreases s.len(),
{
    if s.len() == 0 {
        seq![]
    } else {
        match first_index(s, '\n') {
            Some(i) => seq![strip_cr(s.take(i))] + lines(s.skip(i + 1)),
            None => seq![s],
        }
    }
}

/// The character views of a sequence of character vectors.
pub open spec fn char_views(v: Seq<Vec<char>>) -> Seq<Seq<char>> {
    v.map_values(|l: Vec<char>| l@)
}

/// The character views of a sequence of strings.
pub open spec fn string_views(v: Seq<String>) -> Seq<Seq<char>> {
    v.map_values(|s: String| s@)
}

/// The character view of an optional string.
pub open spec fn opt_view(o: Option<String>) -> Option<Seq<char>> {
    match o {
        Some(s) => Some(s@),
        None => None,
    }
}

/// The lowercase form of `s`, as `str::to_lowercase` computes it.
pub uninterp spec fn lowercase(s: Seq<char>) -> Seq<char>;

// ---------------------------------------------------------------------------
// Calls into std
// ---------------------------------------------------------------------------

/// `str::to_lowercase`: its result is named `lowercase` of the argument;
/// it depends on the argument alone (Unicode case tables, no locale).
#[verifier::external_body]
pub(crate) fn lowercase_string(s: &str) -> (r: String)
    ensures
        r@ == lowercase(s@),
{
    s.to_lowercase()
}

/// `String::from_iter` over characters: the string holds exactly them.
#[verifier::external_body]
fn string_from_chars(cs: &Vec<char>) -> (r: String)
    ensures
        r@ == cs@,
{
    String::from_iter(cs)
}

// ---------------------------------------------------------------------------
// Executable versions
// ---------------------------------------------------------------------------

/// The characters of `s`.
pub fn chars_of(s: &str) -> (v: Vec<char>)
    ensures
        v@ == s@,
{
    let mut v: Vec<char> = Vec::new();
    for c in it: s.chars()
        invariant
            v@ == it.seq().take(it.index() as int),
    {
        v.push(c);
    }
    v
}

/// A string made of the given characters.
pub fn to_string(cs: &Vec<char>) -> (r: String)
    ensures
        r@ == cs@,
{
    string_from_chars(cs)
}

/// Whether `c` is white space (`char::is_whitespace`).
pub fn is_white_char(c: char) -> (r: bool)
    ensures
        r == is_white(c),
{
    ('\u{9}' <= c && c <= '\u{d}') || c == ' ' || c == '\u{85}' || c == '\u{a0}' || c
        == '\u{1680}' || ('\u{2000}' <= c && c <= '\u{200a}') || c == '\u{2028}' || c
        == '\u{2029}' || c == '\u{202f}' || c == '\u{205f}' || c == '\u{3000}'
}

fn strips_char(m: Strip, c: char) -> (r: bool)
    ensures
        r == strips(m, c),
{
    match m {
        Strip::Whitespace => is_white_char(c),
        Strip::Only(x) => c == x,
    }
}

/// The characters `cs[lo..hi]`.
pub fn sub_chars(cs: &Vec<char>, lo: usize, hi: usize) -> (r: Vec<char>)
    requires
        lo <= hi <= cs@.len(),
    ensures
        r@ == cs@.subrange(lo as int, hi as int),
{
    let mut r: Vec<char> = Vec::new();
    let mut k = lo;
    while k < hi
        invariant
            lo <= k <= hi,
            hi <= cs@.len(),
            r@ == cs@.subrange(lo as int, k as int),
        decreases hi - k,
    {
        r.push(cs[k]);
        k += 1;
        assert(r@ =~= cs@.subrange(lo as int, k as int));
    }
    r
}

/// `cs` without the leading and trailing characters that `m` removes.
pub fn trim_chars(cs: &Vec<char>, m: Strip) -> (r: Vec<char>)
    ensures
        r@ == trim_by(cs@, m),
{
    let n = cs.len();
    let mut lo: usize = 0;
    assert(cs@.skip(0) =~= cs@);
    while lo < n && strips_char(m, cs[lo])
        invariant
            lo <= n,
            n == cs@.len(),
            trim_start_by(cs@, m) == trim_start_by(cs@.skip(lo as int), m),
        decreases n - lo,
    {
        assert(cs@.skip(lo as int).drop_first() =~= cs@.skip(lo as int + 1));
        lo += 1;
    }
    assert(trim_start_by(cs@, m) == cs@.skip(lo as int)) by {
        if lo < n {
            assert(cs@.skip(lo as int)[0] == cs@[lo as int]);
        } else {
            assert(cs@.skip(lo as int).len() == 0);
        }
    }
    let mut hi: usize = n;
    assert(cs@.skip(lo as int) =~= cs@.subrange(lo as int, hi as int));
    while hi > lo && strips_char(m, cs[hi - 1])
        invariant
            lo <= hi <= n,
            n == cs@.len(),
            trim_by(cs@, m) == trim_end_by(cs@.subrange(lo as int, hi as int), m),
        decreases hi - lo,
    {
        assert(cs@.subrange(lo as int, hi as int).drop_last() =~= cs@.subrange(
            lo as int,
            hi - 1,
        ));
        hi -= 1;
    }
    assert(trim_by(cs@, m) == cs@.subrange(lo as int, hi as int)) by {
        if hi > lo {
            assert(cs@.subrange(lo as int, hi as int).last() == cs@[hi - 1]);
        } else {
            assert(cs@.subrange(lo as int, hi as int).len() == 0);
        }
    }
    sub_chars(cs, lo, hi)
}

/// `s.trim()` as a new string.
pub fn trim_str(s: &str) -> (r: String)
    ensures
        r@ == trim(s@),
{
    let cs = chars_of(s);
    let t = trim_chars(&cs, Strip::Whitespace);
    to_string(&t)
}

/// Whether `pat` occurs in `cs` at position `i`.
pub fn matches_here(cs: &Vec<char>, pat: &Vec<char>, i: usize) -> (r: bool)
    ensures
        r == matches_at(cs@, pat@, i as int),
{
    if i > cs.len() || pat.len() > cs.len() - i {
        return false;
    }
    let mut k: usize = 0;
    while k < pat.len()
        invariant
            k <= pat@.len(),
            i + pat@.len() <= cs@.len(),
            forall|t: int| 0 <= t < k ==> cs@[i + t] == pat@[t],
        decreases pat@.len() - k,
    {
        assert(i + k < cs.len());
        if cs[i + k] != pat[k] {
            assert(cs@.subrange(i as int, i + pat@.len())[k as int] != pat@[k as int]);
            return false;
        }
        k += 1;
    }
    assert(cs@.subrange(i as int, i + pat@.len()) =~= pat@);
    true
}

/// The position of the first occurrence of `pat` in `cs`.
pub fn find_first(cs: &Vec<char>, pat: &Vec<char>) -> (r: Option<usize>)
    ensures
        r == (match first_match(cs@, pat@) {
            Some(i) => Some(i as usize),
            None => None::<usize>,
        }),
        r is Some <==> contains(cs@, pat@),
        r matches Some(i) ==> is_first_match(cs@, pat@, i as int),
{
    if pat.len() > cs.len() {
        assert(!contains(cs@, pat@));
        assert(!exists|i: int| is_first_match(cs@, pat@, i));
        return None;
    }
    if pat.len() == 0 {
        assert(cs@.subrange(0, 0) =~= pat@);
        assert(is_first_match(cs@, pat@, 0));
        proof {
            let c = choose|i: int| is_first_match(cs@, pat@, i);
            assert(c == 0);
        }
        return Some(0);
    }
    let last = cs.len() - pat.len();
    let mut i: usize = 0;
    while i <= last
        invariant
            last == cs@.len() - pat@.len(),
            last < cs.len(),
            pat@.len() > 0,
            i <= last + 1,
            forall|j: int| 0 <= j < i ==> !#[trigger] matches_at(cs@, pat@, j),
        decreases last + 1 - i,
    {
        if matches_here(cs, pat, i) {
            assert(is_first_match(cs@, pat@, i as int));
            proof {
                let c = choose|j: int| is_first_match(cs@, pat@, j);
                if c < i {
                } else if c > i {
                    assert(!matches_at(cs@, pat@, i as int));
                }
            }
            return Some(i);
        }
        i += 1;
    }
    assert forall|j: int| !matches_at(cs@, pat@, j) by {
        if 0 <= j < i {
        }
    }
    None
}

/// Whether `pat` occurs in `cs` (`str::contains`).
pub fn contains_chars(cs: &Vec<char>, pat: &Vec<char>) -> (r: bool)
    ensures
        r == contains(cs@, pat@),
{
    find_first(cs, pat).is_some()
}

/// Whether `s` contains `pat`.
pub fn contains_str(s: &Vec<char>, pat: &str) -> (r: bool)
    ensures
        r == contains(s@, pat@),
{
    let p = chars_of(pat);
    contains_chars(s, &p)
}

/// Whether `s` starts with `pat`.
pub fn starts_with_str(s: &Vec<char>, pat: &str) -> (r: bool)
    ensures
        r == starts_with(s@, pat@),
{
    let p = chars_of(pat);
    matches_here(s, &p, 0)
}

/// What precedes the first `pat` in `cs`, or all of it.
pub fn before_first_chars(cs: &Vec<char>, pat: &str) -> (r: Vec<char>)
    ensures
        r@ == before_first(cs@, pat@),
{
    let p = chars_of(pat);
    match find_first(cs, &p) {
        Some(i) => sub_chars(cs, 0, i),
        None => sub_chars(cs, 0, cs.len()),
    }
}

/// Whether the two character sequences are equal.
pub fn same_chars(a: &Vec<char>, b: &Vec<char>) -> (r: bool)
    ensures
        r == (a@ == b@),
{
    if a.len() != b.len() {
        return false;
    }
    let mut k: usize = 0;
    while k < a.len()
        invariant
            a@.len() == b@.len(),
            k <= a@.len(),
            forall|t: int| 0 <= t < k ==> a@[t] == b@[t],
        decreases a@.len() - k,
    {
        if a[k] != b[k] {
            return false;
        }
        k += 1;
    }
    assert(a@ =~= b@);
    true
}

/// Whether `cs` spells `s`.
pub fn chars_eq_str(cs: &Vec<char>, s: &str) -> (r: bool)
    ensures
        r == (cs@ == s@),
{
    let b = chars_of(s);
    same_chars(cs, &b)
}

/// Whether the two strings are equal.
pub fn str_eq(a: &str, b: &str) -> (r: bool)
    ensures
        r == (a@ == b@),
{
    let x = chars_of(a);
    let y = chars_of(b);
    same_chars(&x, &y)
}

/// The first `c` in `cs` at or after `from`.
pub fn find_char_from(cs: &Vec<char>, c: char, from: usize) -> (r: Option<usize>)
    requires
        from <= cs@.len(),
    ensures
        match r {
            Some(j) => from <= j < cs@.len() && cs@[j as int] == c && forall|k: int|
                from <= k < j ==> #[trigger] cs@[k] != c,
            None => forall|k: int| from <= k < cs@.len() ==> #[trigger] cs@[k] != c,
        },
{
    let mut j = from;
    while j < cs.len()
        invariant
            from <= j <= cs@.len(),
            forall|k: int| from <= k < j ==> #[trigger] cs@[k] != c,
        decreases cs@.len() - j,
    {
        if cs[j] == c {
            return Some(j);
        }
        j += 1;
    }
    None
}

/// `s.split_once(c)` on characters.
pub fn split_once_chars(cs: &Vec<char>, c: char) -> (r: Option<(Vec<char>, Vec<char>)>)
    ensures
        match r {
            Some((a, b)) => split_once(cs@, c) == Some((a@, b@)),
            None => split_once(cs@, c) is None,
        },
{
    match find_char_from(cs, c, 0) {
        Some(j) => {
            assert(is_first_index(cs@, c, j as int));
            proof {
                let x = choose|i: int| is_first_index(cs@, c, i);
                if x < j {
                } else if x > j {
                    assert(cs@[j as int] == c);
                }
            }
            assert(j < cs.len());
            let a = sub_chars(cs, 0, j);
            let b = sub_chars(cs, j + 1, cs.len());
            assert(a@ =~= cs@.take(j as int));
            assert(b@ =~= cs@.skip(j + 1));
            Some((a, b))
        },
        None => {
            assert(!exists|i: int| is_first_index(cs@, c, i));
            None
        },
    }
}

/// `cs` without one trailing `\r`.
fn strip_cr_chars(cs: Vec<char>) -> (r: Vec<char>)
    ensures
        r@ == strip_cr(cs@),
{
    let mut cs = cs;
    let ghost before = cs@;
    let n = cs.len();
    if n > 0 && cs[n - 1] == '\r' {
        cs.pop();
        assert(cs@ =~= before.drop_last());
    }
    cs
}

/// The lines of `cs` (`str::lines`).
pub fn split_lines(cs: &Vec<char>) -> (ls: Vec<Vec<char>>)
    ensures
        char_views(ls@) == lines(cs@),
{
    let n = cs.len();
    let mut ls: Vec<Vec<char>> = Vec::new();
    let mut pos: usize = 0;
    assert(cs@.skip(0) =~= cs@);
    assert(char_views(ls@) + lines(cs@.skip(0)) =~= lines(cs@));
    while pos < n
        invariant
            pos <= n,
            n == cs@.len(),
            char_views(ls@) + lines(cs@.skip(pos as int)) == lines(cs@),
        decreases n - pos,
    {
        let ghost t = cs@.skip(pos as int);
        let ghost before = char_views(ls@);
        match find_char_from(cs, '\n', pos) {
            Some(j) => {
                let line = sub_chars(cs, pos, j);
                let line = strip_cr_chars(line);
                proof {
                    let m = j - pos;
                    assert(t[m] == cs@[j as int]);
                    assert forall|k: int| 0 <= k < m implies #[trigger] t[k] != '\n' by {
                        assert(t[k] == cs@[pos + k]);
                    }
                    assert(is_first_index(t, '\n', m));
                    let x = choose|i: int| is_first_index(t, '\n', i);
                    if x < m {
                    } else if x > m {
                        assert(t[m] == '\n');
                    }
                    assert(t.take(m) =~= cs@.subrange(pos as int, j as int));
                    assert(t.skip(m + 1) =~= cs@.skip(j + 1));
                    assert(lines(t) == seq![strip_cr(t.take(m))] + lines(t.skip(m + 1)));
                }
                ls.push(line);
                assert(char_views(ls@) =~= before.push(strip_cr(cs@.subrange(pos as int, j as int))));
                assert(char_views(ls@) + lines(cs@.skip(j + 1)) =~= before + lines(t));
                pos = j + 1;
            },
            None => {
                let line = sub_chars(cs, pos, n);
                proof {
                    assert(!exists|i: int| is_first_index(t, '\n', i)) by {
                        assert forall|i: int| !is_first_index(t, '\n', i) by {
                            if 0 <= i < t.len() {
                                assert(t[i] == cs@[pos + i]);
                            }
                        }
                    }
                    assert(t =~= cs@.subrange(pos as int, n as int));
                    assert(lines(t) == seq![t]);
                    assert(cs@.skip(n as int).len() == 0);
                    assert(lines(cs@.skip(n as int)) == Seq::<Seq<char>>::empty());
                }
                ls.push(line);
                assert(char_views(ls@) =~= before.push(t));
                assert(char_views(ls@) + lines(cs@.skip(n as int)) =~= before + lines(t));
                pos = n;
            },
        }
    }
    assert(cs@.skip(n as int).len() == 0);
    assert(char_views(ls@) =~= char_views(ls@) + lines(cs@.skip(n as int)));
    ls
}


// ---------------------------------------------------------------------------
// Laws
// ---------------------------------------------------------------------------

proof fn lemma_trim_start_shape(s: Seq<char>, m: Strip) -> (lo: int)
    ensures
        0 <= lo <= s.len(),
        trim_start_by(s, m) == s.skip(lo),
        forall|i: int| 0 <= i < lo ==> strips(m, #[trigger] s[i]),
        lo < s.len() ==> !strips(m, s[lo]),
    decreases s.len(),
{
    if s.len() > 0 && strips(m, s[0]) {
        let k = lemma_trim_start_shape(s.drop_first(), m);
        assert(s.drop_first().skip(k) =~= s.skip(k + 1));
        assert forall|i: int| 0 <= i < k + 1 implies strips(m, #[trigger] s[i]) by {
            if i > 0 {
                assert(s[i] == s.drop_first()[i - 1]);
            }
        }
        if k + 1 < s.len() {
            assert(s[k + 1] == s.drop_first()[k]);
        }
        k + 1
    } else {
        assert(s.skip(0) =~= s);
        0
    }
}

proof fn lemma_trim_end_shape(s: Seq<char>, m: Strip) -> (hi: int)
    ensures
        0 <= hi <= s.len(),
        trim_end_by(s, m) == s.take(hi),
        forall|i: int| hi <= i < s.len() ==> strips(m, #[trigger] s[i]),
        hi > 0 ==> !strips(m, s[hi - 1]),
    decreases s.len(),
{
    if s.len() > 0 && strips(m, s.last()) {
        let k = lemma_trim_end_shape(s.drop_last(), m);
        assert(s.drop_last().take(k) =~= s.take(k));
        assert forall|i: int| k <= i < s.len() implies strips(m, #[trigger] s[i]) by {
            if i < s.len() - 1 {
                assert(s[i] == s.drop_last()[i]);
            }
        }
        if k > 0 {
            assert(s[k - 1] == s.drop_last()[k - 1]);
        }
        k
    } else {
        assert(s.take(s.len() as int) =~= s);
        s.len() as int
    }
}

/// Trimming removes exactly the removable characters at both ends: the
/// result is a contiguous piece of `s`, everything cut off before and after
/// it is removable, and it neither starts nor ends with a removable
/// character.
pub proof fn lemma_trim_shape(s: Seq<char>, m: Strip)
    ensures
        exists|lo: int, hi: int|
            0 <= lo <= hi <= s.len() && #[trigger] trim_by(s, m) == s.subrange(lo, hi) && (forall|
                i: int,
            | 0 <= i < lo ==> strips(m, #[trigger] s[i])) && (forall|i: int|
                hi <= i < s.len() ==> strips(m, #[trigger] s[i])) && (lo < hi ==> !strips(m, s[lo])
                && !strips(m, s[hi - 1])),
{
    let lo = lemma_trim_start_shape(s, m);
    let t = s.skip(lo);
    let k = lemma_trim_end_shape(t, m);
    let hi = lo + k;
    assert(t.take(k) =~= s.subrange(lo, hi));
    assert forall|i: int| hi <= i < s.len() implies strips(m, #[trigger] s[i]) by {
        assert(s[i] == t[i - lo]);
    }
    if lo < hi {
        assert(s[hi - 1] == t[k - 1]);
        assert(s[lo] == t[0]);
    }
}

/// No line of a text contains a line feed.
pub proof fn lemma_lines_have_no_newline(s: Seq<char>)
    ensures
        forall|i: int|
            0 <= i < lines(s).len() ==> !(#[trigger] lines(s)[i]).contains('\n'),
    decreases s.len(),
{
    if s.len() > 0 {
        match first_index(s, '\n') {
            Some(j) => {
                assert(is_first_index(s, '\n', j));
                lemma_lines_have_no_newline(s.skip(j + 1));
                let head = strip_cr(s.take(j));
                assert(!head.contains('\n')) by {
                    if head.contains('\n') {
                        let k = choose|k: int| 0 <= k < head.len() && head[k] == '\n';
                        assert(s[k] == '\n');
                    }
                }
                let rest = lines(s.skip(j + 1));
                assert forall|i: int| 0 <= i < lines(s).len() implies !(#[trigger] lines(
                    s,
                )[i]).contains('\n') by {
                    if i > 0 {
                        assert(lines(s)[i] == rest[i - 1]);
                    }
                }
            },
            None => {
                assert(!exists|i: int| is_first_index(s, '\n', i));
                assert(!s.contains('\n')) by {
                    if s.contains('\n') {
                        let k = choose|k: int| 0 <= k < s.len() && s[k] == '\n';
                        lemma_first_occurrence(s, '\n', k);
                    }
                }
            },
        }
    }
}

/// Where `c` occurs at `k`, some occurrence is the first.
proof fn lemma_first_occurrence(s: Seq<char>, c: char, k: int)
    requires
        0 <= k < s.len(),
        s[k] == c,
    ensures
        exists|i: int| is_first_index(s, c, i),
    decreases k,
{
    if forall|j: int| 0 <= j < k ==> #[trigger] s[j] != c {
        assert(is_first_index(s, c, k));
    } else {
        let j = choose|j: int| 0 <= j < k && #[trigger] s[j] == c;
        lemma_first_occurrence(s, c, j);
    }
}

/// A text without line feeds is one line, unless it is empty.
pub proof fn lemma_single_line(s: Seq<char>)
    requires
        !s.contains('\n'),
        s.len() > 0,
    ensures
        lines(s) == seq![s],
{
    assert(!exists|i: int| is_first_index(s, '\n', i)) by {
        if exists|i: int| is_first_index(s, '\n', i) {
            let i = choose|i: int| is_first_index(s, '\n', i);
            assert(s[i] == '\n');
        }
    }
}

} // verus!
