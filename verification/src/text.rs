//! Character-level text helpers shared by every module that inspects or
//! produces text.
//!
//! Strings are handled as sequences of `char`: the view of a `&str` or a
//! `String` is its `Seq<char>`, and the byte length that Rust's `len()`
//! reports is the length of the UTF-8 encoding of that sequence.

use vstd::prelude::*;
use vstd::utf8::*;

verus! {

/// Appends one character to a string.
///
/// Trusted: `String::push` appends the character's encoding, so the viewed
/// character sequence grows by exactly that character.
#[verifier::external_body]
pub(crate) fn push_char(s: &mut String, c: char)
    ensures
        final(s)@ == old(s)@.push(c),
{
    s.push(c);
}

/// Appends a string slice.
///
/// Trusted: `String::push_str` appends the whole slice unchanged.
#[verifier::external_body]
pub(crate) fn push_str(s: &mut String, t: &str)
    ensures
        final(s)@ == old(s)@ + t@,
{
    s.push_str(t);
}

/// The views of a list of strings.
pub open spec fn strs(v: Seq<String>) -> Seq<Seq<char>> {
    v.map_values(|s: String| s@)
}

/// The view of an optional string.
pub open spec fn opt_str(o: Option<String>) -> Option<Seq<char>> {
    match o {
        Some(s) => Some(s@),
        None => None,
    }
}

/// The characters of a string slice, in order.
pub fn chars_of(s: &str) -> (v: Vec<char>)
    ensures
        v@ == s@,
{
    let mut v: Vec<char> = Vec::new();
    for c in it: s.chars()
        invariant
            v@ == it.seq().take(it.index() as int),
            it.seq() == s@,
    {
        v.push(c);
    }
    v
}

/// A string holding exactly the given characters.
pub fn string_of(v: &[char]) -> (s: String)
    ensures
        s@ == v@,
{
    let mut s = String::new();
    let mut i: usize = 0;
    while i < v.len()
        invariant
            i <= v.len(),
            s@ == v@.take(i as int),
        decreases v.len() - i,
    {
        push_char(&mut s, v[i]);
        assert(v@.take(i as int).push(v@[i as int]) == v@.take(i + 1));
        i = i + 1;
    }
    assert(v@.take(v.len() as int) == v@);
    s
}


// ── matching ───────────────────────────────────────────────────────────────

/// `p` occurs in `s` starting at index `i`.
pub open spec fn matches_at(s: Seq<char>, p: Seq<char>, i: int) -> bool {
    0 <= i && i + p.len() <= s.len() && s.subrange(i, i + p.len()) == p
}

/// The first index at or after `i` where `p` occurs in `s`.
pub open spec fn find_from(s: Seq<char>, p: Seq<char>, i: int) -> Option<int>
    decreases s.len() + 1 - i,
{
    if i < 0 || i + p.len() > s.len() {
        None
    } else if matches_at(s, p, i) {
        Some(i)
    } else {
        find_from(s, p, i + 1)
    }
}

/// `p` occurs somewhere in `s`.
pub open spec fn contains_seq(s: Seq<char>, p: Seq<char>) -> bool {
    find_from(s, p, 0) is Some
}

/// `s` begins with `p`.
pub open spec fn starts_with_seq(s: Seq<char>, p: Seq<char>) -> bool {
    p.len() <= s.len() && s.subrange(0, p.len() as int) == p
}

/// `s` ends with `p`.
pub open spec fn ends_with_seq(s: Seq<char>, p: Seq<char>) -> bool {
    p.len() <= s.len() && s.subrange(s.len() - p.len(), s.len() as int) == p
}

pub proof fn lemma_find_from(s: Seq<char>, p: Seq<char>, i: int)
    requires
        0 <= i,
    ensures
        find_from(s, p, i) matches Some(k) ==> i <= k && matches_at(s, p, k)
            && forall|j: int| i <= j < k ==> !matches_at(s, p, j),
        find_from(s, p, i) is None ==> forall|k: int| i <= k ==> !matches_at(s, p, k),
    decreases s.len() + 1 - i,
{
    if i + p.len() > s.len() {
    } else if matches_at(s, p, i) {
    } else {
        lemma_find_from(s, p, i + 1);
    }
}

/// Index of the first occurrence of `p` in `s` at or after `start`.
pub fn find_at(s: &[char], p: &[char], start: usize) -> (r: Option<usize>)
    requires
        start <= s.len(),
    ensures
        r matches Some(k) ==> find_from(s@, p@, start as int) == Some(k as int),
        r is None ==> find_from(s@, p@, start as int) is None,
{
    if p.len() > s.len() {
        proof { lemma_find_none_tail(s@, p@, start as int); }
        return None;
    }
    if p.len() == 0 {
        assert(s@.subrange(start as int, start as int) =~= p@);
        return Some(start);
    }
    let last = s.len() - p.len();
    let mut i = start;
    while i <= last
        invariant
            start <= i,
            last == s.len() - p.len(),
            1 <= p.len() <= s.len(),
            find_from(s@, p@, start as int) == find_from(s@, p@, i as int),
        decreases last + 1 - i,
    {
        let mut j: usize = 0;
        while j < p.len() && s[i + j] == p[j]
            invariant
                j <= p.len(),
                i <= last,
                last == s.len() - p.len(),
                forall|t: int| 0 <= t < j ==> s@[i + t] == p@[t],
            decreases p.len() - j,
        {
            j = j + 1;
        }
        if j == p.len() {
            assert(s@.subrange(i as int, i + p.len()) =~= p@);
            return Some(i);
        }
        assert(s@.subrange(i as int, i + p.len())[j as int] != p@[j as int]);
        i = i + 1;
    }
    proof { lemma_find_none_tail(s@, p@, i as int); }
    None
}

proof fn lemma_find_none_tail(s: Seq<char>, p: Seq<char>, i: int)
    requires
        0 <= i,
        i + p.len() > s.len(),
    ensures
        find_from(s, p, i) is None,
{
}

/// Does `p` occur in `s`?
pub fn contains(s: &[char], p: &[char]) -> (b: bool)
    ensures
        b == contains_seq(s@, p@),
{
    find_at(s, p, 0).is_some()
}

/// Does `s` begin with `p`?
pub fn starts_with(s: &[char], p: &[char]) -> (b: bool)
    ensures
        b == starts_with_seq(s@, p@),
{
    if p.len() > s.len() {
        return false;
    }
    let mut j: usize = 0;
    while j < p.len()
        invariant
            j <= p.len(),
            p.len() <= s.len(),
            forall|t: int| 0 <= t < j ==> s@[t] == p@[t],
        decreases p.len() - j,
    {
        if s[j] != p[j] {
            assert(s@.subrange(0, p.len() as int)[j as int] != p@[j as int]);
            return false;
        }
        j = j + 1;
    }
    assert(s@.subrange(0, p.len() as int) =~= p@);
    true
}

/// Does `s` end with `p`?
pub fn ends_with(s: &[char], p: &[char]) -> (b: bool)
    ensures
        b == ends_with_seq(s@, p@),
{
    if p.len() > s.len() {
        return false;
    }
    let off = s.len() - p.len();
    let mut j: usize = 0;
    while j < p.len()
        invariant
            j <= p.len(),
            p.len() <= s.len(),
            off == s.len() - p.len(),
            forall|t: int| 0 <= t < j ==> s@[off + t] == p@[t],
        decreases p.len() - j,
    {
        if s[off + j] != p[j] {
            assert(s@.subrange(off as int, s.len() as int)[j as int] != p@[j as int]);
            return false;
        }
        j = j + 1;
    }
    assert(s@.subrange(off as int, s.len() as int) =~= p@);
    true
}

/// The characters of `s` from `lo` up to `hi`.
pub fn slice_of(s: &[char], lo: usize, hi: usize) -> (r: Vec<char>)
    requires
        lo <= hi <= s.len(),
    ensures
        r@ == s@.subrange(lo as int, hi as int),
{
    let mut r: Vec<char> = Vec::new();
    let mut i = lo;
    while i < hi
        invariant
            lo <= i <= hi,
            hi <= s.len(),
            r@ == s@.subrange(lo as int, i as int),
        decreases hi - i,
    {
        r.push(s[i]);
        assert(s@.subrange(lo as int, i as int).push(s@[i as int]) =~= s@.subrange(lo as int, i + 1));
        i = i + 1;
    }
    r
}

/// Two character sequences are equal.
pub fn chars_eq(a: &[char], b: &[char]) -> (r: bool)
    ensures
        r == (a@ == b@),
{
    if a.len() != b.len() {
        return false;
    }
    let mut i: usize = 0;
    while i < a.len()
        invariant
            i <= a.len(),
            a.len() == b.len(),
            forall|t: int| 0 <= t < i ==> a@[t] == b@[t],
        decreases a.len() - i,
    {
        if a[i] != b[i] {
            return false;
        }
        i = i + 1;
    }
    assert(a@ =~= b@);
    true
}

/// Two strings are equal.
pub fn str_eq(a: &str, b: &str) -> (r: bool)
    ensures
        r == (a@ == b@),
{
    chars_eq(chars_of(a).as_slice(), chars_of(b).as_slice())
}

// ── whitespace ─────────────────────────────────────────────────────────────

/// The Unicode `White_Space` property, which is what `char::is_whitespace`
/// and therefore `str::trim` and `str::split_whitespace` test.
pub open spec fn is_ws(c: char) -> bool {
    ||| ('\u{9}' <= c && c <= '\u{d}')
    ||| c == ' '
    ||| c == '\u{85}'
    ||| c == '\u{a0}'
    ||| c == '\u{1680}'
    ||| ('\u{2000}' <= c && c <= '\u{200a}')
    ||| c == '\u{2028}'
    ||| c == '\u{2029}'
    ||| c == '\u{202f}'
    ||| c == '\u{205f}'
    ||| c == '\u{3000}'
}

pub fn is_whitespace(c: char) -> (b: bool)
    ensures
        b == is_ws(c),
{
    ('\u{9}' <= c && c <= '\u{d}') || c == ' ' || c == '\u{85}' || c == '\u{a0}' || c
        == '\u{1680}' || ('\u{2000}' <= c && c <= '\u{200a}') || c == '\u{2028}' || c
        == '\u{2029}' || c == '\u{202f}' || c == '\u{205f}' || c == '\u{3000}'
}

/// Index of the first non-whitespace character at or after `i`.
pub open spec fn skip_ws(s: Seq<char>, i: int) -> int
    decreases s.len() - i,
{
    if 0 <= i < s.len() && is_ws(s[i]) {
        skip_ws(s, i + 1)
    } else {
        i
    }
}

/// End of `s` with trailing whitespace removed, never going below `lo`.
pub open spec fn trim_end_from(s: Seq<char>, lo: int, j: int) -> int
    decreases j - lo,
{
    if lo < j && j <= s.len() && is_ws(s[j - 1]) {
        trim_end_from(s, lo, j - 1)
    } else {
        j
    }
}

/// `s` with leading and trailing whitespace removed, as `str::trim` does.
pub open spec fn trim_seq(s: Seq<char>) -> Seq<char> {
    let lo = skip_ws(s, 0);
    s.subrange(lo, trim_end_from(s, lo, s.len() as int))
}

pub proof fn lemma_skip_ws(s: Seq<char>, i: int)
    requires
        0 <= i <= s.len(),
    ensures
        i <= skip_ws(s, i) <= s.len(),
        skip_ws(s, i) < s.len() ==> !is_ws(s[skip_ws(s, i)]),
        forall|t: int| i <= t < skip_ws(s, i) ==> is_ws(s[t]),
    decreases s.len() - i,
{
    if 0 <= i < s.len() && is_ws(s[i]) {
        lemma_skip_ws(s, i + 1);
    }
}

pub proof fn lemma_trim_end(s: Seq<char>, lo: int, j: int)
    requires
        0 <= lo <= j <= s.len(),
    ensures
        lo <= trim_end_from(s, lo, j) <= j,
    decreases j - lo,
{
    if lo < j && j <= s.len() && is_ws(s[j - 1]) {
        lemma_trim_end(s, lo, j - 1);
    }
}

/// The bounds of `s` with surrounding whitespace removed.
pub fn trim_bounds(s: &[char]) -> (r: (usize, usize))
    ensures
        r.0 == skip_ws(s@, 0),
        r.1 == trim_end_from(s@, r.0 as int, s.len() as int),
        r.0 <= r.1 <= s.len(),
        trim_seq(s@) == s@.subrange(r.0 as int, r.1 as int),
{
    let mut lo: usize = 0;
    while lo < s.len() && is_whitespace(s[lo])
        invariant
            lo <= s.len(),
            skip_ws(s@, 0) == skip_ws(s@, lo as int),
        decreases s.len() - lo,
    {
        lo = lo + 1;
    }
    let mut hi: usize = s.len();
    while hi > lo && is_whitespace(s[hi - 1])
        invariant
            lo <= hi <= s.len(),
            trim_end_from(s@, lo as int, s.len() as int) == trim_end_from(s@, lo as int, hi as int),
        decreases hi,
    {
        hi = hi - 1;
    }
    (lo, hi)
}

/// `s` with surrounding whitespace removed.
pub fn trim(s: &[char]) -> (r: Vec<char>)
    ensures
        r@ == trim_seq(s@),
{
    let (lo, hi) = trim_bounds(s);
    slice_of(s, lo, hi)
}

// ── splitting ──────────────────────────────────────────────────────────────

/// End of the run of non-whitespace characters starting at `i`.
pub open spec fn word_end(s: Seq<char>, i: int) -> int
    decreases s.len() - i,
{
    if 0 <= i < s.len() && !is_ws(s[i]) {
        word_end(s, i + 1)
    } else {
        i
    }
}

pub proof fn lemma_word_end(s: Seq<char>, i: int)
    requires
        0 <= i <= s.len(),
    ensures
        i <= word_end(s, i) <= s.len(),
        i < s.len() && !is_ws(s[i]) ==> i < word_end(s, i),
        forall|t: int| i <= t < word_end(s, i) ==> !is_ws(s[t]),
        word_end(s, i) < s.len() ==> is_ws(s[word_end(s, i)]),
    decreases s.len() - i,
{
    if 0 <= i < s.len() && !is_ws(s[i]) {
        lemma_word_end(s, i + 1);
    }
}

/// The whitespace-separated words of `s` from index `i`, as
/// `str::split_whitespace` yields them.
pub open spec fn words_from(s: Seq<char>, i: int) -> Seq<Seq<char>>
    decreases s.len() - i,
{
    if i < 0 || i >= s.len() {
        seq![]
    } else {
        let j = skip_ws(s, i);
        proof {
            lemma_skip_ws(s, i);
        }
        if j >= s.len() {
            seq![]
        } else {
            let k = word_end(s, j);
            proof {
                lemma_word_end(s, j);
            }
            seq![s.subrange(j, k)] + words_from(s, k)
        }
    }
}

pub open spec fn words(s: Seq<char>) -> Seq<Seq<char>> {
    words_from(s, 0)
}

/// The words of `s`, split on whitespace.
pub fn split_words(s: &[char]) -> (r: Vec<Vec<char>>)
    ensures
        r@.len() == words(s@).len(),
        forall|t: int| 0 <= t < r@.len() ==> #[trigger] r@[t]@ == words(s@)[t],
{
    let mut out: Vec<Vec<char>> = Vec::new();
    let mut i: usize = 0;
    let ghost acc: Seq<Seq<char>> = seq![];
    while i < s.len()
        invariant
            i <= s.len(),
            out@.len() == acc.len(),
            forall|t: int| 0 <= t < out@.len() ==> #[trigger] out@[t]@ == acc[t],
            acc + words_from(s@, i as int) == words(s@),
        decreases s.len() - i,
    {
        let ghost start = i;
        let mut j = i;
        while j < s.len() && is_whitespace(s[j])
            invariant
                start <= j <= s.len(),
                skip_ws(s@, start as int) == skip_ws(s@, j as int),
            decreases s.len() - j,
        {
            j = j + 1;
        }
        if j >= s.len() {
            assert(words_from(s@, start as int) =~= seq![]);
            assert(words_from(s@, j as int) =~= seq![]);
            i = j;
            continue;
        }
        let mut k = j;
        while k < s.len() && !is_whitespace(s[k])
            invariant
                j <= k <= s.len(),
                word_end(s@, j as int) == word_end(s@, k as int),
            decreases s.len() - k,
        {
            k = k + 1;
        }
        let w = slice_of(s, j, k);
        proof {
            lemma_skip_ws(s@, start as int);
            assert(k > j);
            assert(words_from(s@, start as int) == seq![s@.subrange(j as int, k as int)]
                + words_from(s@, k as int));
            acc = acc.push(w@);
            assert(acc + words_from(s@, k as int) =~= (acc.drop_last() + seq![w@]) + words_from(s@, k as int));
        }
        out.push(w);
        i = k;
    }
    proof {
        assert(words_from(s@, i as int) =~= seq![]);
        assert(acc + seq![] =~= acc);
    }
    out
}

// ── lines ──────────────────────────────────────────────────────────────────

/// Index of the first `c` at or after `i`, or the length when there is none.
pub open spec fn next_char(s: Seq<char>, c: char, i: int) -> int
    decreases s.len() - i,
{
    if 0 <= i < s.len() && s[i] != c {
        next_char(s, c, i + 1)
    } else {
        i
    }
}

pub proof fn lemma_next_char(s: Seq<char>, c: char, i: int)
    requires
        0 <= i <= s.len(),
    ensures
        i <= next_char(s, c, i) <= s.len(),
        next_char(s, c, i) < s.len() ==> s[next_char(s, c, i)] == c,
        forall|t: int| i <= t < next_char(s, c, i) ==> s[t] != c,
    decreases s.len() - i,
{
    if 0 <= i < s.len() && s[i] != c {
        lemma_next_char(s, c, i + 1);
    }
}

/// A line without its terminator: a `\r` directly before the `\n` goes too.
pub open spec fn strip_cr(line: Seq<char>, terminated: bool) -> Seq<char> {
    if terminated && line.len() > 0 && line.last() == '\r' {
        line.drop_last()
    } else {
        line
    }
}

/// The lines of `s` from index `i`, as `str::lines` yields them: split at
/// `\n`, a `\r` before the `\n` removed, and no empty line after a final
/// terminator.
pub open spec fn lines_from(s: Seq<char>, i: int) -> Seq<Seq<char>>
    decreases s.len() - i,
{
    if i < 0 || i >= s.len() {
        seq![]
    } else {
        let k = next_char(s, '\n', i);
        proof {
            lemma_next_char(s, '\n', i);
        }
        if k >= s.len() {
            seq![s.subrange(i, s.len() as int)]
        } else {
            seq![strip_cr(s.subrange(i, k), true)] + lines_from(s, k + 1)
        }
    }
}

pub open spec fn lines(s: Seq<char>) -> Seq<Seq<char>> {
    lines_from(s, 0)
}

/// The lines of `s`.
pub fn split_lines(s: &[char]) -> (r: Vec<Vec<char>>)
    ensures
        r@.len() == lines(s@).len(),
        forall|t: int| 0 <= t < r@.len() ==> #[trigger] r@[t]@ == lines(s@)[t],
{
    let mut out: Vec<Vec<char>> = Vec::new();
    let mut i: usize = 0;
    let ghost acc: Seq<Seq<char>> = seq![];
    while i < s.len()
        invariant
            i <= s.len(),
            out@.len() == acc.len(),
            forall|t: int| 0 <= t < out@.len() ==> #[trigger] out@[t]@ == acc[t],
            acc + lines_from(s@, i as int) == lines(s@),
        decreases s.len() - i,
    {
        let ghost start = i;
        let mut k = i;
        while k < s.len() && s[k] != '\n'
            invariant
                start <= k <= s.len(),
                next_char(s@, '\n', start as int) == next_char(s@, '\n', k as int),
            decreases s.len() - k,
        {
            k = k + 1;
        }
        proof {
            lemma_next_char(s@, '\n', start as int);
        }
        if k >= s.len() {
            let w = slice_of(s, i, s.len());
            proof {
                assert(lines_from(s@, start as int) == seq![w@]);
                assert(lines_from(s@, s.len() as int) =~= seq![]);
                acc = acc.push(w@);
                assert(acc + lines_from(s@, s.len() as int) =~= (acc.drop_last() + seq![w@]));
            }
            out.push(w);
            i = s.len();
        } else {
            let end = if k > i && s[k - 1] == '\r' { k - 1 } else { k };
            let w = slice_of(s, i, end);
            proof {
                assert(w@ =~= strip_cr(s@.subrange(start as int, k as int), true));
                assert(lines_from(s@, start as int) == seq![w@] + lines_from(s@, k + 1));
                acc = acc.push(w@);
                assert(acc + lines_from(s@, k + 1) =~= (acc.drop_last() + seq![w@]) + lines_from(s@, k + 1));
            }
            out.push(w);
            i = k + 1;
        }
    }
    proof {
        assert(lines_from(s@, i as int) =~= seq![]);
        assert(acc + seq![] =~= acc);
    }
    out
}

/// Appends every character of `t` to `out`.
pub fn extend_chars(out: &mut Vec<char>, t: &[char])
    ensures
        final(out)@ == old(out)@ + t@,
{
    let ghost orig = out@;
    let mut i: usize = 0;
    while i < t.len()
        invariant
            i <= t.len(),
            out@ == orig + t@.take(i as int),
        decreases t.len() - i,
    {
        out.push(t[i]);
        assert(orig + t@.take(i + 1) =~= (orig + t@.take(i as int)).push(t@[i as int]));
        i = i + 1;
    }
    assert(t@.take(t.len() as int) =~= t@);
}

/// Appends every character of a string slice to `out`.
pub fn extend_str(out: &mut Vec<char>, t: &str)
    ensures
        final(out)@ == old(out)@ + t@,
{
    let v = chars_of(t);
    extend_chars(out, v.as_slice());
}

// ── prefixes, suffixes, characters ─────────────────────────────────────────

/// `s` with every leading repetition of `p` removed, as
/// `str::trim_start_matches` does with a string pattern.
pub open spec fn strip_prefix_all(s: Seq<char>, p: Seq<char>) -> Seq<char>
    decreases s.len(),
{
    if p.len() > 0 && starts_with_seq(s, p) {
        strip_prefix_all(s.skip(p.len() as int), p)
    } else {
        s
    }
}

/// [`strip_prefix_all`], computed.
pub fn trim_start_matches(s: &[char], p: &[char]) -> (r: Vec<char>)
    ensures
        r@ == strip_prefix_all(s@, p@),
{
    let mut i: usize = 0;
    assert(s@.skip(0) =~= s@);
    while p.len() > 0 && p.len() <= s.len() - i && starts_with(slice_of(s, i, s.len()).as_slice(), p)
        invariant
            i <= s.len(),
            strip_prefix_all(s@, p@) == strip_prefix_all(s@.skip(i as int), p@),
        decreases s.len() - i,
    {
        proof {
            assert(s@.subrange(i as int, s.len() as int) =~= s@.skip(i as int));
            assert(s@.skip(i as int).skip(p.len() as int) =~= s@.skip(i + p.len()));
        }
        i = i + p.len();
    }
    proof {
        assert(s@.subrange(i as int, s.len() as int) =~= s@.skip(i as int));
    }
    let r = slice_of(s, i, s.len());
    assert(r@ =~= s@.skip(i as int));
    r
}

/// Index of the last `c` in `s` before index `j`, if any.
pub open spec fn last_index_before(s: Seq<char>, c: char, j: int) -> Option<int>
    decreases j,
{
    if j <= 0 || j > s.len() {
        None
    } else if s[j - 1] == c {
        Some(j - 1)
    } else {
        last_index_before(s, c, j - 1)
    }
}

/// Index of the last `c` in `s`.
pub open spec fn last_index_of(s: Seq<char>, c: char) -> Option<int> {
    last_index_before(s, c, s.len() as int)
}

pub proof fn lemma_last_index(s: Seq<char>, c: char, j: int)
    requires
        0 <= j <= s.len(),
    ensures
        last_index_before(s, c, j) matches Some(k) ==> 0 <= k < j && s[k] == c,
    decreases j,
{
    if j > 0 && s[j - 1] != c {
        lemma_last_index(s, c, j - 1);
    }
}

/// [`last_index_of`], computed.
pub fn rfind_char(s: &[char], c: char) -> (r: Option<usize>)
    ensures
        r matches Some(k) ==> last_index_of(s@, c) == Some(k as int) && k < s.len(),
        r is None ==> last_index_of(s@, c) is None,
{
    let mut j = s.len();
    while j > 0 && s[j - 1] != c
        invariant
            j <= s.len(),
            last_index_of(s@, c) == last_index_before(s@, c, j as int),
        decreases j,
    {
        j = j - 1;
    }
    if j == 0 {
        None
    } else {
        Some(j - 1)
    }
}

/// ASCII letters and digits.
pub open spec fn is_ascii_alnum(c: char) -> bool {
    ('0' <= c && c <= '9') || ('a' <= c && c <= 'z') || ('A' <= c && c <= 'Z')
}

pub fn ascii_alnum(c: char) -> (b: bool)
    ensures
        b == is_ascii_alnum(c),
{
    ('0' <= c && c <= '9') || ('a' <= c && c <= 'z') || ('A' <= c && c <= 'Z')
}

/// The code of `c` after ASCII lowercasing; anything not an ASCII capital
/// keeps its code.
pub open spec fn ascii_lower(c: char) -> u32 {
    if 'A' <= c && c <= 'Z' {
        ((c as u32) + 32) as u32
    } else {
        c as u32
    }
}

pub fn to_ascii_lower(c: char) -> (r: u32)
    ensures
        r == ascii_lower(c),
{
    if 'A' <= c && c <= 'Z' {
        c as u32 + 32
    } else {
        c as u32
    }
}

/// Equal ignoring ASCII case, as `str::eq_ignore_ascii_case`.
pub open spec fn eq_ignore_ascii_case_seq(a: Seq<char>, b: Seq<char>) -> bool {
    a.len() == b.len() && forall|i: int| 0 <= i < a.len() ==> ascii_lower(#[trigger] a[i])
        == ascii_lower(b[i])
}

pub fn eq_ignore_ascii_case(a: &[char], b: &[char]) -> (r: bool)
    ensures
        r == eq_ignore_ascii_case_seq(a@, b@),
{
    if a.len() != b.len() {
        return false;
    }
    let mut i: usize = 0;
    while i < a.len()
        invariant
            i <= a.len(),
            a.len() == b.len(),
            forall|t: int| 0 <= t < i ==> ascii_lower(#[trigger] a@[t]) == ascii_lower(b@[t]),
        decreases a.len() - i,
    {
        if to_ascii_lower(a[i]) != to_ascii_lower(b[i]) {
            return false;
        }
        i = i + 1;
    }
    true
}

// ── paths ──────────────────────────────────────────────────────────────────

/// `Path::join` for paths held as text: an absolute `b` replaces `a`;
/// otherwise a separator is inserted unless `a` is empty or already ends
/// with one.
pub open spec fn path_join_seq(a: Seq<char>, b: Seq<char>) -> Seq<char> {
    if b.len() > 0 && b[0] == '/' {
        b
    } else if a.len() == 0 || a.last() == '/' {
        a + b
    } else {
        a + seq!['/'] + b
    }
}

/// [`path_join_seq`], computed.
pub fn path_join(a: &str, b: &str) -> (r: String)
    ensures
        r@ == path_join_seq(a@, b@),
{
    let av = chars_of(a);
    let bv = chars_of(b);
    if bv.len() > 0 && bv[0] == '/' {
        return string_of(bv.as_slice());
    }
    let mut out = av;
    if out.len() > 0 && out[out.len() - 1] != '/' {
        out.push('/');
    }
    extend_chars(&mut out, bv.as_slice());
    string_of(out.as_slice())
}

/// `v` holds a string equal to `x`.
pub fn contains_string(v: &[String], x: &str) -> (b: bool)
    ensures
        b == strs(v@).contains(x@),
{
    let mut i: usize = 0;
    while i < v.len()
        invariant
            i <= v.len(),
            forall|k: int| 0 <= k < i ==> strs(v@)[k] != x@,
        decreases v.len() - i,
    {
        if str_eq(v[i].as_str(), x) {
            assert(strs(v@)[i as int] == x@);
            return true;
        }
        i = i + 1;
    }
    proof {
        if strs(v@).contains(x@) {
            let k = choose|k: int| 0 <= k < strs(v@).len() && strs(v@)[k] == x@;
            assert(strs(v@)[k] != x@);
        }
    }
    false
}

/// The two optional strings are equal.
pub fn opt_str_eq(a: &Option<String>, b: &Option<String>) -> (r: bool)
    ensures
        r == (opt_str(*a) == opt_str(*b)),
{
    match (a, b) {
        (Some(x), Some(y)) => str_eq(x.as_str(), y.as_str()),
        (None, None) => true,
        _ => false,
    }
}

/// A copy of an optional string.
pub fn clone_opt(a: &Option<String>) -> (r: Option<String>)
    ensures
        r == *a,
{
    match a {
        Some(x) => Some(x.clone()),
        None => None,
    }
}

/// A copy of a list of strings.
pub fn clone_strings(v: &[String]) -> (r: Vec<String>)
    ensures
        r@ == v@,
{
    let mut out: Vec<String> = Vec::new();
    let mut i: usize = 0;
    while i < v.len()
        invariant
            i <= v.len(),
            out@ == v@.take(i as int),
        decreases v.len() - i,
    {
        out.push(v[i].clone());
        assert(v@.take(i + 1) =~= v@.take(i as int).push(v@[i as int]));
        i = i + 1;
    }
    assert(v@.take(v.len() as int) =~= v@);
    out
}

// ── splitting at separators ────────────────────────────────────────────────

/// What `str::split` splits at.
#[derive(Debug, Clone, Copy, PartialEq, Eq, Structural)]
pub enum Sep {
    /// One given character.
    Char(char),
    /// Whitespace, quotes and parentheses: what separates a path from the
    /// prose around it in an error message.
    PathDelim,
}

pub open spec fn is_sep(sep: Sep, c: char) -> bool {
    match sep {
        Sep::Char(x) => c == x,
        Sep::PathDelim => is_ws(c) || c == '\'' || c == '"' || c == '(' || c == ')',
    }
}

fn sep_at(sep: Sep, c: char) -> (b: bool)
    ensures
        b == is_sep(sep, c),
{
    match sep {
        Sep::Char(x) => c == x,
        Sep::PathDelim => is_whitespace(c) || c == '\'' || c == '"' || c == '(' || c == ')',
    }
}

/// Index of the first separator at or after `i`, or the length.
pub open spec fn next_sep(s: Seq<char>, sep: Sep, i: int) -> int
    decreases s.len() - i,
{
    if 0 <= i < s.len() && !is_sep(sep, s[i]) {
        next_sep(s, sep, i + 1)
    } else {
        i
    }
}

pub proof fn lemma_next_sep(s: Seq<char>, sep: Sep, i: int)
    requires
        0 <= i <= s.len(),
    ensures
        i <= next_sep(s, sep, i) <= s.len(),
        next_sep(s, sep, i) < s.len() ==> is_sep(sep, s[next_sep(s, sep, i)]),
        forall|t: int| i <= t < next_sep(s, sep, i) ==> !is_sep(sep, s[t]),
    decreases s.len() - i,
{
    if 0 <= i < s.len() && !is_sep(sep, s[i]) {
        lemma_next_sep(s, sep, i + 1);
    }
}

/// The pieces of `s` from index `i` on, as `str::split` yields them: empty
/// pieces included, one more piece than separators.
pub open spec fn pieces_from(s: Seq<char>, sep: Sep, i: int) -> Seq<Seq<char>>
    decreases s.len() + 1 - i,
{
    if i < 0 || i > s.len() {
        seq![]
    } else {
        let k = next_sep(s, sep, i);
        proof {
            lemma_next_sep(s, sep, i);
        }
        if k >= s.len() {
            seq![s.subrange(i, s.len() as int)]
        } else {
            seq![s.subrange(i, k)] + pieces_from(s, sep, k + 1)
        }
    }
}

pub open spec fn split_seq(s: Seq<char>, sep: Sep) -> Seq<Seq<char>> {
    pieces_from(s, sep, 0)
}

/// The pieces of `s` between separators.
pub fn split_at_sep(s: &[char], sep: Sep) -> (r: Vec<Vec<char>>)
    ensures
        r@.len() == split_seq(s@, sep).len(),
        forall|t: int| 0 <= t < r@.len() ==> #[trigger] r@[t]@ == split_seq(s@, sep)[t],
{
    let mut out: Vec<Vec<char>> = Vec::new();
    let mut i: usize = 0;
    let ghost acc: Seq<Seq<char>> = seq![];
    let mut done = false;
    while !done
        invariant
            i <= s.len(),
            out@.len() == acc.len(),
            forall|t: int| 0 <= t < out@.len() ==> #[trigger] out@[t]@ == acc[t],
            !done ==> acc + pieces_from(s@, sep, i as int) == split_seq(s@, sep),
            done ==> acc == split_seq(s@, sep),
        decreases s.len() + 1 - i, (if done { 0int } else { 1int }),
    {
        let ghost start = i;
        let mut k = i;
        while k < s.len() && !sep_at(sep, s[k])
            invariant
                start <= k <= s.len(),
                next_sep(s@, sep, start as int) == next_sep(s@, sep, k as int),
            decreases s.len() - k,
        {
            k = k + 1;
        }
        proof {
            lemma_next_sep(s@, sep, start as int);
        }
        let w = slice_of(s, i, k);
        proof {
            acc = acc.push(w@);
        }
        out.push(w);
        if k >= s.len() {
            proof {
                assert(pieces_from(s@, sep, start as int) == seq![w@]);
                assert(acc =~= acc.drop_last() + seq![w@]);
            }
            done = true;
        } else {
            proof {
                assert(pieces_from(s@, sep, start as int) == seq![w@] + pieces_from(
                    s@,
                    sep,
                    k + 1,
                ));
                assert(acc + pieces_from(s@, sep, k + 1) =~= (acc.drop_last() + seq![w@])
                    + pieces_from(s@, sep, k + 1));
            }
            i = k + 1;
        }
    }
    out
}

// ── replacing ──────────────────────────────────────────────────────────────

/// `s` from index `i` on, with every non-overlapping occurrence of `p`
/// (scanning left to right) replaced by `r`, as `str::replace` does.
pub open spec fn replace_from(s: Seq<char>, p: Seq<char>, r: Seq<char>, i: int) -> Seq<char>
    decreases s.len() + 1 - i,
{
    if p.len() == 0 || i < 0 || i > s.len() {
        seq![]
    } else {
        match find_from(s, p, i) {
            Some(k) => {
                proof {
                    lemma_find_from(s, p, i);
                }
                s.subrange(i, k) + r + replace_from(s, p, r, k + p.len())
            },
            None => s.subrange(i, s.len() as int),
        }
    }
}

pub open spec fn replace_seq(s: Seq<char>, p: Seq<char>, r: Seq<char>) -> Seq<char> {
    replace_from(s, p, r, 0)
}

/// [`replace_seq`], computed; `p` must not be empty.
pub fn replace_all(s: &[char], p: &[char], r: &[char]) -> (out: Vec<char>)
    requires
        p.len() > 0,
    ensures
        out@ == replace_seq(s@, p@, r@),
{
    let mut out: Vec<char> = Vec::new();
    let mut i: usize = 0;
    let mut done = false;
    while !done
        invariant
            i <= s.len(),
            p.len() > 0,
            !done ==> out@ + replace_from(s@, p@, r@, i as int) == replace_seq(s@, p@, r@),
            done ==> out@ == replace_seq(s@, p@, r@),
        decreases s.len() + 1 - i, (if done { 0int } else { 1int }),
    {
        let ghost before = out@;
        match find_at(s, p, i) {
            Some(k) => {
                proof {
                    lemma_find_from(s@, p@, i as int);
                }
                let piece = slice_of(s, i, k);
                extend_chars(&mut out, piece.as_slice());
                extend_chars(&mut out, r);
                proof {
                    assert(out@ + replace_from(s@, p@, r@, k + p.len()) =~= before + replace_from(
                        s@,
                        p@,
                        r@,
                        i as int,
                    ));
                }
                i = k + p.len();
            },
            None => {
                let piece = slice_of(s, i, s.len());
                extend_chars(&mut out, piece.as_slice());
                done = true;
            },
        }
    }
    out
}

/// `s` without trailing whitespace, as `str::trim_end` does.
pub open spec fn trim_end_seq(s: Seq<char>) -> Seq<char> {
    s.subrange(0, trim_end_from(s, 0, s.len() as int))
}

/// [`trim_end_seq`], computed.
pub fn trim_end(s: &[char]) -> (r: Vec<char>)
    ensures
        r@ == trim_end_seq(s@),
{
    let mut hi: usize = s.len();
    while hi > 0 && is_whitespace(s[hi - 1])
        invariant
            hi <= s.len(),
            trim_end_from(s@, 0, s.len() as int) == trim_end_from(s@, 0, hi as int),
        decreases hi,
    {
        hi = hi - 1;
    }
    slice_of(s, 0, hi)
}

} // verus!
