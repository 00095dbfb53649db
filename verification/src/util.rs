//! Small shared helpers: hashing, time formatting, and the text hygiene senv
//! applies to anything it quotes from a source it does not control.

use sha2::Digest;
use vstd::prelude::*;
use vstd::utf8::*;
use crate::text::{
    chars_eq, chars_of, extend_chars, lines, slice_of, split_lines, starts_with, starts_with_seq,
    string_of,
};

verus! {

// ── sanitizing untrusted text ──────────────────────────────────────────────

/// A character that is dropped on its own: C0 controls other than tab, DEL,
/// and the bidirectional overrides that can visually reverse a path.
pub open spec fn is_dropped_char(c: char) -> bool {
    ||| (c < '\u{20}' && c != '\t')
    ||| c == '\u{7f}'
    ||| ('\u{202a}' <= c && c <= '\u{202e}')
    ||| ('\u{2066}' <= c && c <= '\u{2069}')
}

/// Index just past the final byte of a CSI sequence whose parameters start
/// at `j` (the final byte is in `0x40..=0x7e`), or the end of the text.
pub open spec fn csi_end(s: Seq<char>, j: int) -> int
    decreases s.len() - j,
{
    if j < 0 || j >= s.len() {
        s.len() as int
    } else if '\u{40}' <= s[j] && s[j] <= '\u{7e}' {
        j + 1
    } else {
        csi_end(s, j + 1)
    }
}

/// Index just past the terminator (BEL, or ESC `\`) of an OSC sequence whose
/// payload starts at `j`, or the end of the text.
pub open spec fn osc_end(s: Seq<char>, j: int) -> int
    decreases s.len() - j,
{
    if j < 0 || j >= s.len() {
        s.len() as int
    } else if s[j] == '\u{7}' {
        j + 1
    } else if s[j] == '\u{1b}' && j + 1 < s.len() && s[j + 1] == '\\' {
        j + 2
    } else {
        osc_end(s, j + 1)
    }
}

pub proof fn lemma_csi_end(s: Seq<char>, j: int)
    requires
        0 <= j <= s.len(),
    ensures
        j <= csi_end(s, j) <= s.len(),
    decreases s.len() - j,
{
    if j < s.len() && !('\u{40}' <= s[j] && s[j] <= '\u{7e}') {
        lemma_csi_end(s, j + 1);
    }
}

pub proof fn lemma_osc_end(s: Seq<char>, j: int)
    requires
        0 <= j <= s.len(),
    ensures
        j <= osc_end(s, j) <= s.len(),
    decreases s.len() - j,
{
    if j < s.len() && s[j] != '\u{7}' && !(s[j] == '\u{1b}' && j + 1 < s.len() && s[j + 1]
        == '\\') {
        lemma_osc_end(s, j + 1);
    }
}

/// What [`sanitize`] keeps of `s` from index `i` on: escape sequences are
/// removed whole (CSI up to its final byte, OSC up to BEL or ST, any other
/// two-character escape), dropped characters vanish, everything else stays.
pub open spec fn sanitize_from(s: Seq<char>, i: int) -> Seq<char>
    decreases s.len() - i,
{
    if i < 0 || i >= s.len() {
        seq![]
    } else if s[i] == '\u{1b}' {
        if i + 1 >= s.len() {
            seq![]
        } else if s[i + 1] == '[' {
            proof {
                lemma_csi_end(s, i + 2);
            }
            sanitize_from(s, csi_end(s, i + 2))
        } else if s[i + 1] == ']' {
            proof {
                lemma_osc_end(s, i + 2);
            }
            sanitize_from(s, osc_end(s, i + 2))
        } else {
            sanitize_from(s, i + 2)
        }
    } else if is_dropped_char(s[i]) {
        sanitize_from(s, i + 1)
    } else {
        seq![s[i]] + sanitize_from(s, i + 1)
    }
}

pub open spec fn sanitize_seq(s: Seq<char>) -> Seq<char> {
    sanitize_from(s, 0)
}

fn dropped_char(c: char) -> (b: bool)
    ensures
        b == is_dropped_char(c),
{
    (c < '\u{20}' && c != '\t') || c == '\u{7f}' || ('\u{202a}' <= c && c <= '\u{202e}') || (
    '\u{2066}' <= c && c <= '\u{2069}')
}

/// [`sanitize`] over characters.
pub fn sanitize_chars(s: &[char]) -> (r: Vec<char>)
    ensures
        r@ == sanitize_seq(s@),
{
    let mut out: Vec<char> = Vec::new();
    let mut i: usize = 0;
    while i < s.len()
        invariant
            i <= s.len(),
            out@ + sanitize_from(s@, i as int) == sanitize_seq(s@),
        decreases s.len() - i,
    {
        let c = s[i];
        if c == '\u{1b}' {
            if i + 1 >= s.len() {
                assert(sanitize_from(s@, i as int) =~= seq![]);
                assert(sanitize_from(s@, s.len() as int) =~= seq![]);
                i = s.len();
            } else if s[i + 1] == '[' {
                let mut j = i + 2;
                while j < s.len() && !('\u{40}' <= s[j] && s[j] <= '\u{7e}')
                    invariant
                        i + 2 <= j <= s.len(),
                        csi_end(s@, i + 2) == csi_end(s@, j as int),
                    decreases s.len() - j,
                {
                    j = j + 1;
                }
                if j < s.len() {
                    j = j + 1;
                }
                i = j;
            } else if s[i + 1] == ']' {
                let mut j = i + 2;
                let mut done = false;
                while !done && j < s.len()
                    invariant
                        i + 2 <= j <= s.len(),
                        !done ==> osc_end(s@, i + 2) == osc_end(s@, j as int),
                        done ==> osc_end(s@, i + 2) == j,
                    decreases s.len() - j,
                {
                    if s[j] == '\u{7}' {
                        j = j + 1;
                        done = true;
                    } else if s[j] == '\u{1b}' && j + 1 < s.len() && s[j + 1] == '\\' {
                        j = j + 2;
                        done = true;
                    } else {
                        j = j + 1;
                    }
                }
                i = j;
            } else {
                i = i + 2;
            }
        } else if dropped_char(c) {
            i = i + 1;
        } else {
            let ghost prev = out@;
            out.push(c);
            assert(prev + sanitize_from(s@, i as int) =~= out@ + sanitize_from(s@, i + 1));
            i = i + 1;
        }
    }
    assert(sanitize_from(s@, i as int) =~= seq![]);
    assert(out@ + seq![] =~= out@);
    out
}

/// Strip terminal control sequences from text that came from somewhere
/// untrusted, before senv quotes it inside its own messages.
pub fn sanitize(text: &str) -> (r: String)
    ensures
        r@ == sanitize_seq(text@),
{
    let v = chars_of(text);
    let out = sanitize_chars(v.as_slice());
    string_of(out.as_slice())
}

/// `parts` joined with `sep` between consecutive elements.
pub open spec fn join_seq(parts: Seq<Seq<char>>, sep: Seq<char>) -> Seq<char>
    decreases parts.len(),
{
    if parts.len() == 0 {
        seq![]
    } else if parts.len() == 1 {
        parts[0]
    } else {
        join_seq(parts.drop_last(), sep) + sep + parts.last()
    }
}

/// [`sanitize`], line by line, keeping the line breaks.
pub open spec fn sanitize_multiline_seq(s: Seq<char>) -> Seq<char> {
    join_seq(lines(s).map_values(|l: Seq<char>| sanitize_seq(l)), seq!['\n'])
}

/// [`sanitize`], but keeping line breaks — for untrusted text rendered as a
/// block rather than spliced into one of senv's sentences.
pub fn sanitize_multiline(text: &str) -> (r: String)
    ensures
        r@ == sanitize_multiline_seq(text@),
{
    let v = chars_of(text);
    let ls = split_lines(v.as_slice());
    let ghost parts = lines(text@).map_values(|l: Seq<char>| sanitize_seq(l));
    let mut out: Vec<char> = Vec::new();
    let mut i: usize = 0;
    while i < ls.len()
        invariant
            i <= ls.len(),
            ls@.len() == lines(v@).len(),
            v@ == text@,
            parts == lines(text@).map_values(|l: Seq<char>| sanitize_seq(l)),
            forall|t: int| 0 <= t < ls@.len() ==> #[trigger] ls@[t]@ == lines(v@)[t],
            out@ == join_seq(parts.take(i as int), seq!['\n']),
        decreases ls.len() - i,
    {
        let clean = sanitize_chars(ls[i].as_slice());
        let ghost before = out@;
        if i > 0 {
            out.push('\n');
        }
        extend_chars(&mut out, clean.as_slice());
        proof {
            assert(parts.take(i + 1).drop_last() =~= parts.take(i as int));
            assert(parts.take(i + 1).last() == clean@);
            if i == 0 {
                assert(parts.take(1).len() == 1);
                assert(out@ =~= clean@);
            } else {
                assert(out@ =~= before + seq!['\n'] + clean@);
            }
        }
        i = i + 1;
    }
    assert(parts.take(ls.len() as int) =~= parts);
    string_of(out.as_slice())
}

// ── tilde expansion ────────────────────────────────────────────────────────

/// `path` with a leading `~` replaced by `home`, when `path` is `~` or starts
/// with `~/` and a non-empty home is known; otherwise `path` unchanged.
pub open spec fn expand_tilde_seq(path: Seq<char>, home: Option<Seq<char>>) -> Seq<char> {
    if (path == seq!['~'] || starts_with_seq(path, seq!['~', '/'])) && home is Some
        && home->0.len() > 0 {
        home->0 + path.drop_first()
    } else {
        path
    }
}

/// Replace a leading `~` with the given home directory — the pure half of
/// tilde expansion, with the home directory supplied by the caller.
pub fn expand_tilde_in(path: &str, home: Option<&str>) -> (r: String)
    ensures
        r@ == expand_tilde_seq(path@, match home {
            Some(h) => Some(h@),
            None => None,
        }),
{
    let p = chars_of(path);
    let tilde = ['~'];
    let tilde_slash = ['~', '/'];
    let is_tilde = chars_eq(p.as_slice(), tilde.as_slice());
    let starts = starts_with(p.as_slice(), tilde_slash.as_slice());
    proof {
        assert(tilde@ =~= seq!['~']);
        assert(tilde_slash@ =~= seq!['~', '/']);
    }
    if is_tilde || starts {
        if let Some(h) = home {
            let hv = chars_of(h);
            if hv.len() > 0 {
                let mut out = hv;
                let rest = slice_of(p.as_slice(), 1, p.len());
                extend_chars(&mut out, rest.as_slice());
                assert(rest@ =~= p@.drop_first());
                return string_of(out.as_slice());
            }
        }
    }
    string_of(p.as_slice())
}

// ── bounded tails ──────────────────────────────────────────────────────────

/// Bytes in the UTF-8 encoding of `c`.
pub open spec fn utf8_width(c: char) -> nat {
    if (c as u32) < 0x80 {
        1
    } else if (c as u32) < 0x800 {
        2
    } else if (c as u32) < 0x10000 {
        3
    } else {
        4
    }
}

/// Bytes in the UTF-8 encoding of `s`, which is what `str::len` counts.
pub open spec fn byte_len(s: Seq<char>) -> nat {
    encode_utf8(s).len()
}

pub proof fn lemma_encode_concat(a: Seq<char>, b: Seq<char>)
    ensures
        encode_utf8(a + b) == encode_utf8(a) + encode_utf8(b),
    decreases a.len(),
{
    if a.len() == 0 {
        assert(a + b =~= b);
        assert(encode_utf8(a) =~= seq![]);
        assert(seq![] + encode_utf8(b) =~= encode_utf8(b));
    } else {
        lemma_encode_concat(a.drop_first(), b);
        assert((a + b).drop_first() =~= a.drop_first() + b);
        assert((a + b)[0] == a[0]);
        assert(encode_utf8(a + b) =~= encode_scalar(a[0] as u32) + encode_utf8(a.drop_first() + b));
    }
}

pub proof fn lemma_width(c: char)
    ensures
        encode_utf8(seq![c]).len() == utf8_width(c),
{
    broadcast use char_is_scalar;
    assert(seq![c].drop_first() =~= Seq::<char>::empty());
    assert(encode_utf8(seq![c]) =~= encode_scalar(c as u32) + encode_utf8(Seq::<char>::empty()));
}

/// Text is empty exactly when its encoding is.
pub proof fn lemma_byte_len_zero(s: Seq<char>)
    ensures
        (byte_len(s) == 0) == (s.len() == 0),
{
    if s.len() > 0 {
        lemma_width(s[0]);
        assert(encode_utf8(seq![s[0]]) =~= encode_scalar(s[0] as u32) + encode_utf8(seq![s[0]].drop_first()));
        assert(encode_utf8(seq![s[0]].drop_first()) =~= seq![]);
    }
}

/// Text made of ASCII characters has one byte per character.
pub proof fn lemma_ascii_byte_len(s: Seq<char>)
    requires
        forall|i: int| 0 <= i < s.len() ==> (#[trigger] s[i] as u32) < 0x80,
    ensures
        byte_len(s) == s.len(),
    decreases s.len(),
{
    if s.len() > 0 {
        lemma_width(s[0]);
        assert(encode_utf8(seq![s[0]]) =~= encode_scalar(s[0] as u32) + encode_utf8(seq![s[0]].drop_first()));
        assert(encode_utf8(seq![s[0]].drop_first()) =~= seq![]);
        assert forall|i: int| 0 <= i < s.drop_first().len() implies (#[trigger] s.drop_first()[i] as u32) < 0x80 by {
            assert(s.drop_first()[i] == s[i + 1]);
        }
        lemma_ascii_byte_len(s.drop_first());
    }
}

fn width_of(c: char) -> (w: usize)
    ensures
        w == utf8_width(c),
{
    let u = c as u32;
    if u < 0x80 {
        1
    } else if u < 0x800 {
        2
    } else if u < 0x10000 {
        3
    } else {
        4
    }
}

/// The first character index whose suffix fits in `n` bytes.
pub open spec fn tail_start(s: Seq<char>, n: int, k: int) -> int
    decreases s.len() - k,
{
    if k < 0 || k >= s.len() || byte_len(s.skip(k)) <= n {
        k
    } else {
        tail_start(s, n, k + 1)
    }
}

/// The last `n` bytes of `text`, on a character boundary, prefixed with an
/// ellipsis when truncated.
pub open spec fn tail_seq(s: Seq<char>, n: int) -> Seq<char> {
    if byte_len(s) <= n {
        s
    } else {
        seq!['…'] + s.skip(tail_start(s, n, 0))
    }
}

/// The last `n` bytes of `text`, on a character boundary, prefixed with an
/// ellipsis when truncated. Bounds what a receipt stores of a command's output.
pub fn tail(text: &str, n: usize) -> (r: String)
    ensures
        r@ == tail_seq(text@, n as int),
{
    let total = text.as_bytes().len();
    if total <= n {
        return string_of(chars_of(text).as_slice());
    }
    let v = chars_of(text);
    let ghost s = v@;
    let mut k: usize = 0;
    let mut before: usize = 0;
    proof {
        assert(s.take(0) =~= Seq::<char>::empty());
        assert(s.skip(0) =~= s);
        assert(s =~= s.take(0) + s.skip(0));
        lemma_encode_concat(s.take(0), s.skip(0));
    }
    while k < v.len() && total - before > n
        invariant
            k <= v.len(),
            s == v@,
            s == text@,
            total == byte_len(s),
            before == byte_len(s.take(k as int)),
            before + byte_len(s.skip(k as int)) == total,
            tail_start(s, n as int, 0) == tail_start(s, n as int, k as int),
        decreases v.len() - k,
    {
        let c = v[k];
        proof {
            lemma_width(c);
            assert(s.take(k + 1) =~= s.take(k as int) + seq![c]);
            lemma_encode_concat(s.take(k as int), seq![c]);
            assert(s =~= s.take(k + 1) + s.skip(k + 1));
            lemma_encode_concat(s.take(k + 1), s.skip(k + 1));
        }
        before = before + width_of(c);
        k = k + 1;
    }
    proof {
        if k >= v.len() {
            assert(s.skip(k as int) =~= Seq::<char>::empty());
        }
    }
    let rest = slice_of(v.as_slice(), k, v.len());
    assert(rest@ =~= s.skip(k as int));
    let mut out: Vec<char> = Vec::new();
    out.push('…');
    extend_chars(&mut out, rest.as_slice());
    string_of(out.as_slice())
}

/// Text a terminal shows as it is: no escape, no other control character
/// that [`sanitize`] drops, no bidirectional override.
pub open spec fn is_inert(s: Seq<char>) -> bool {
    forall|k: int| 0 <= k < s.len() ==> !is_dropped_char(#[trigger] s[k])
}

pub proof fn lemma_inert_concat(a: Seq<char>, b: Seq<char>)
    requires
        is_inert(a),
        is_inert(b),
    ensures
        is_inert(a + b),
{
    assert forall|k: int| 0 <= k < (a + b).len() implies !is_dropped_char(#[trigger] (a + b)[k]) by {
        if k < a.len() {
            assert((a + b)[k] == a[k]);
        } else {
            assert((a + b)[k] == b[k - a.len()]);
        }
    }
}

/// Whatever it is given, [`sanitize`] returns inert text.
pub proof fn lemma_sanitize_inert(s: Seq<char>, i: int)
    ensures
        is_inert(sanitize_from(s, i)),
    decreases s.len() - i,
{
    if i < 0 || i >= s.len() {
    } else if s[i] == '\u{1b}' {
        if i + 1 >= s.len() {
        } else if s[i + 1] == '[' {
            lemma_csi_end(s, i + 2);
            lemma_sanitize_inert(s, csi_end(s, i + 2));
        } else if s[i + 1] == ']' {
            lemma_osc_end(s, i + 2);
            lemma_sanitize_inert(s, osc_end(s, i + 2));
        } else {
            lemma_sanitize_inert(s, i + 2);
        }
    } else if is_dropped_char(s[i]) {
        lemma_sanitize_inert(s, i + 1);
    } else {
        lemma_sanitize_inert(s, i + 1);
        lemma_inert_concat(seq![s[i]], sanitize_from(s, i + 1));
    }
}

/// Every line of `lines` is inert.
pub open spec fn all_inert(lines: Seq<Seq<char>>) -> bool {
    forall|i: int| 0 <= i < lines.len() ==> is_inert(#[trigger] lines[i])
}

pub proof fn lemma_all_inert_concat(a: Seq<Seq<char>>, b: Seq<Seq<char>>)
    requires
        all_inert(a),
        all_inert(b),
    ensures
        all_inert(a + b),
{
    assert forall|i: int| 0 <= i < (a + b).len() implies is_inert(#[trigger] (a + b)[i]) by {
        if i < a.len() {
            assert((a + b)[i] == a[i]);
        } else {
            assert((a + b)[i] == b[i - a.len()]);
        }
    }
}

/// Parts joined by a separator are inert when the parts and the separator
/// are.
pub proof fn lemma_join_inert(parts: Seq<Seq<char>>, sep: Seq<char>)
    requires
        is_inert(sep),
        forall|i: int| 0 <= i < parts.len() ==> is_inert(#[trigger] parts[i]),
    ensures
        is_inert(join_seq(parts, sep)),
    decreases parts.len(),
{
    if parts.len() > 1 {
        let rest = parts.drop_last();
        assert forall|i: int| 0 <= i < rest.len() implies is_inert(#[trigger] rest[i]) by {
            assert(rest[i] == parts[i]);
        }
        lemma_join_inert(rest, sep);
        lemma_inert_concat(join_seq(rest, sep), sep);
        lemma_inert_concat(join_seq(rest, sep) + sep, parts.last());
    }
}

/// Inert text passes through [`sanitize`] untouched, from any point on.
proof fn lemma_sanitize_keeps_inert(s: Seq<char>, i: int)
    requires
        is_inert(s),
        0 <= i <= s.len(),
    ensures
        sanitize_from(s, i) == s.skip(i),
    decreases s.len() - i,
{
    if i < s.len() {
        assert(!is_dropped_char(s[i]));
        lemma_sanitize_keeps_inert(s, i + 1);
        assert(s.skip(i) =~= seq![s[i]] + s.skip(i + 1));
    } else {
        assert(s.skip(i) =~= Seq::<char>::empty());
    }
}

/// Sanitizing twice changes nothing: what [`sanitize`] returns is already
/// clean.
pub proof fn lemma_sanitize_idempotent(s: Seq<char>)
    ensures
        sanitize_seq(sanitize_seq(s)) == sanitize_seq(s),
{
    lemma_sanitize_inert(s, 0);
    lemma_sanitize_keeps_inert(sanitize_seq(s), 0);
    assert(sanitize_seq(s).skip(0) =~= sanitize_seq(s));
}

/// The positions `idx` pick `r` out of `s`, in order: `r` is `s` with some
/// characters taken out.
pub open spec fn picks_out(r: Seq<char>, s: Seq<char>, idx: Seq<int>) -> bool {
    &&& idx.len() == r.len()
    &&& forall|a: int, b: int| 0 <= a < b < idx.len() ==> idx[a] < idx[b]
    &&& forall|a: int| 0 <= a < idx.len() ==> 0 <= #[trigger] idx[a] < s.len() && r[a] == s[idx[a]]
}

/// `r` is a subsequence of `s`.
pub open spec fn is_subsequence(r: Seq<char>, s: Seq<char>) -> bool {
    exists|idx: Seq<int>| #[trigger] picks_out(r, s, idx)
}

proof fn lemma_sanitize_picks(s: Seq<char>, i: int) -> (idx: Seq<int>)
    requires
        0 <= i,
    ensures
        picks_out(sanitize_from(s, i), s, idx),
        forall|a: int| 0 <= a < idx.len() ==> i <= #[trigger] idx[a],
    decreases s.len() - i,
{
    if i >= s.len() {
        Seq::empty()
    } else if s[i] == '\u{1b}' {
        if i + 1 >= s.len() {
            Seq::empty()
        } else if s[i + 1] == '[' {
            lemma_csi_end(s, i + 2);
            lemma_sanitize_picks(s, csi_end(s, i + 2))
        } else if s[i + 1] == ']' {
            lemma_osc_end(s, i + 2);
            lemma_sanitize_picks(s, osc_end(s, i + 2))
        } else {
            lemma_sanitize_picks(s, i + 2)
        }
    } else if is_dropped_char(s[i]) {
        lemma_sanitize_picks(s, i + 1)
    } else {
        let rest = lemma_sanitize_picks(s, i + 1);
        let r = sanitize_from(s, i);
        let tail = sanitize_from(s, i + 1);
        let idx = seq![i] + rest;
        assert(r == seq![s[i]] + tail);
        assert forall|a: int| 0 <= a < idx.len() implies 0 <= #[trigger] idx[a] < s.len() && r[a]
            == s[idx[a]] && i <= idx[a] by {
            if a > 0 {
                assert(idx[a] == rest[a - 1]);
                assert(r[a] == tail[a - 1]);
            }
        }
        assert forall|a: int, b: int| 0 <= a < b < idx.len() implies idx[a] < idx[b] by {
            assert(idx[b] == rest[b - 1]);
            if a > 0 {
                assert(idx[a] == rest[a - 1]);
            }
        }
        idx
    }
}

/// [`sanitize`] only takes characters out: what it returns is a
/// subsequence of what it was given.
pub proof fn lemma_sanitize_subsequence(s: Seq<char>)
    ensures
        is_subsequence(sanitize_seq(s), s),
{
    let idx = lemma_sanitize_picks(s, 0);
    assert(picks_out(sanitize_seq(s), s, idx));
}

/// Text in which the only character [`sanitize`] would drop is the line
/// break.
pub open spec fn inert_but_newlines(s: Seq<char>) -> bool {
    forall|k: int| 0 <= k < s.len() ==> s[k] == '\n' || !is_dropped_char(#[trigger] s[k])
}

proof fn lemma_join_lines_inert(parts: Seq<Seq<char>>)
    requires
        forall|i: int| 0 <= i < parts.len() ==> is_inert(#[trigger] parts[i]),
    ensures
        inert_but_newlines(join_seq(parts, seq!['\n'])),
    decreases parts.len(),
{
    if parts.len() == 1 {
        assert(is_inert(parts[0]));
    } else if parts.len() > 1 {
        let init = parts.drop_last();
        assert forall|i: int| 0 <= i < init.len() implies is_inert(#[trigger] init[i]) by {
            assert(init[i] == parts[i]);
        }
        lemma_join_lines_inert(init);
        let j = join_seq(init, seq!['\n']);
        let last = parts.last();
        assert(is_inert(parts[parts.len() - 1]));
        let x = j + seq!['\n'] + last;
        assert forall|k: int| 0 <= k < x.len() implies x[k] == '\n' || !is_dropped_char(
            #[trigger] x[k],
        ) by {
            if k < j.len() {
                assert(x[k] == j[k]);
            } else if k > j.len() {
                assert(x[k] == last[k - j.len() - 1]);
            }
        }
    }
}

/// No control character survives [`sanitize_multiline`] but tab and the
/// line break, and no bidirectional override.
pub proof fn lemma_sanitize_multiline_inert(s: Seq<char>)
    ensures
        inert_but_newlines(sanitize_multiline_seq(s)),
{
    let parts = lines(s).map_values(|l: Seq<char>| sanitize_seq(l));
    assert forall|i: int| 0 <= i < parts.len() implies is_inert(#[trigger] parts[i]) by {
        lemma_sanitize_inert(lines(s)[i], 0);
    }
    lemma_join_lines_inert(parts);
}

proof fn lemma_tail_start(s: Seq<char>, n: int, k: int)
    requires
        0 <= n,
        0 <= k <= s.len(),
    ensures
        k <= tail_start(s, n, k) <= s.len(),
        byte_len(s.skip(tail_start(s, n, k))) <= n,
    decreases s.len() - k,
{
    if k == s.len() {
        assert(s.skip(k) =~= Seq::<char>::empty());
        lemma_byte_len_zero(s.skip(k));
    } else if byte_len(s.skip(k)) > n {
        lemma_tail_start(s, n, k + 1);
    }
}

/// The tail kept of a text is the text itself when it fits in `n` bytes;
/// otherwise an ellipsis followed by an end of the text that fits in `n`
/// bytes, so never more than `n + 3` bytes in all.
pub proof fn lemma_tail_bounded(s: Seq<char>, n: int)
    requires
        0 <= n,
    ensures
        byte_len(tail_seq(s, n)) <= n + 3,
        byte_len(s) <= n ==> tail_seq(s, n) == s,
        byte_len(s) > n ==> {
            let t = tail_seq(s, n);
            &&& t.len() >= 1
            &&& t[0] == '…'
            &&& t.drop_first().is_suffix_of(s)
            &&& byte_len(t.drop_first()) <= n
        },
{
    if byte_len(s) > n {
        lemma_tail_start(s, n, 0);
        let j = tail_start(s, n, 0);
        let t = tail_seq(s, n);
        assert(t.drop_first() =~= s.skip(j));
        assert(s.skip(j) =~= s.subrange(s.len() - s.skip(j).len(), s.len() as int));
        lemma_encode_concat(seq!['…'], s.skip(j));
        lemma_width('…');
        assert(('…' as u32) == 0x2026);
    }
}

// ── numbers as text ────────────────────────────────────────────────────────

/// The decimal digit `d` (`0 <= d < 10`).
pub open spec fn digit_char(d: int) -> char {
    seq!['0', '1', '2', '3', '4', '5', '6', '7', '8', '9'][d]
}

/// The decimal representation of `v`, without leading zeros.
pub open spec fn decimal(v: nat) -> Seq<char>
    decreases v,
{
    if v < 10 {
        seq![digit_char(v as int)]
    } else {
        decimal(v / 10).push(digit_char((v % 10) as int))
    }
}

/// `decimal(v)` left-padded with zeros to at least `w` characters, as
/// `{:0w}` formats an unsigned value.
pub open spec fn zero_padded(v: nat, w: nat) -> Seq<char> {
    let d = decimal(v);
    if d.len() >= w {
        d
    } else {
        Seq::new((w - d.len()) as nat, |i: int| '0') + d
    }
}

pub proof fn lemma_decimal_len(v: nat)
    ensures
        decimal(v).len() >= 1,
        v < 10 ==> decimal(v).len() == 1,
        10 <= v < 100 ==> decimal(v).len() == 2,
    decreases v,
{
    if v >= 10 {
        lemma_decimal_len(v / 10);
    }
}

pub proof fn lemma_decimal_inert(v: nat)
    ensures
        is_inert(decimal(v)),
    decreases v,
{
    if v >= 10 {
        lemma_decimal_inert(v / 10);
        lemma_inert_concat(decimal(v / 10), seq![digit_char((v % 10) as int)]);
        assert(decimal(v) =~= decimal(v / 10) + seq![digit_char((v % 10) as int)]);
    }
}

fn digit(d: u64) -> (c: char)
    requires
        d < 10,
    ensures
        c == digit_char(d as int),
{
    let digits = ['0', '1', '2', '3', '4', '5', '6', '7', '8', '9'];
    assert(digits@ =~= seq!['0', '1', '2', '3', '4', '5', '6', '7', '8', '9']);
    digits[d as usize]
}

/// The decimal digits of `v`.
pub fn decimal_chars(v: u64) -> (r: Vec<char>)
    ensures
        r@ == decimal(v as nat),
    decreases v,
{
    if v < 10 {
        let mut r = Vec::new();
        r.push(digit(v));
        assert(r@ =~= seq![digit_char(v as int)]);
        r
    } else {
        let mut r = decimal_chars(v / 10);
        r.push(digit(v % 10));
        r
    }
}

/// Appends `v` in decimal, zero-padded to `w` characters.
pub fn push_padded(out: &mut Vec<char>, v: u64, w: usize)
    ensures
        final(out)@ == old(out)@ + zero_padded(v as nat, w as nat),
{
    let d = decimal_chars(v);
    let ghost before = out@;
    if d.len() < w {
        let pad = w - d.len();
        let mut i: usize = 0;
        while i < pad
            invariant
                i <= pad,
                out@ == before + Seq::new(i as nat, |t: int| '0'),
            decreases pad - i,
        {
            out.push('0');
            assert(before + Seq::new((i + 1) as nat, |t: int| '0') =~= (before + Seq::new(
                i as nat,
                |t: int| '0',
            )).push('0'));
            i = i + 1;
        }
    }
    extend_chars(out, d.as_slice());
    assert(out@ =~= before + zero_padded(v as nat, w as nat));
}

// ── time ───────────────────────────────────────────────────────────────────

/// The proleptic Gregorian civil date `(year, month, day)` of the day `days`
/// after 1970-01-01, for `days >= 0` — Howard Hinnant's `civil_from_days`.
pub open spec fn civil_from_days_spec(days: int) -> (int, int, int) {
    let z = days + 719468;
    let era = z / 146097;
    let doe = z - era * 146097;
    let yoe = (doe - doe / 1460 + doe / 36524 - doe / 146096) / 365;
    let y = yoe + era * 400;
    let doy = doe - (365 * yoe + yoe / 4 - yoe / 100);
    let mp = (5 * doy + 2) / 153;
    let d = doy - (153 * mp + 2) / 5 + 1;
    let m = if mp < 10 {
        mp + 3
    } else {
        mp - 9
    };
    (if m <= 2 {
        y + 1
    } else {
        y
    }, m, d)
}

proof fn lemma_year_of_era(doe: u64)
    by (bit_vector)
    requires
        doe < 146097,
    ensures
        (doe - doe / 1460 + doe / 36524 - doe / 146096) / 365 <= 399,
        365 * ((doe - doe / 1460 + doe / 36524 - doe / 146096) / 365) + ((doe - doe / 1460
            + doe / 36524 - doe / 146096) / 365) / 4 - ((doe - doe / 1460 + doe / 36524 - doe
            / 146096) / 365) / 100 <= doe,
        doe - (365 * ((doe - doe / 1460 + doe / 36524 - doe / 146096) / 365) + ((doe - doe
            / 1460 + doe / 36524 - doe / 146096) / 365) / 4 - ((doe - doe / 1460 + doe / 36524
            - doe / 146096) / 365) / 100) <= 365,
{
}

proof fn lemma_day_of_year(doy: u64)
    by (bit_vector)
    requires
        doy <= 365,
    ensures
        (5 * doy + 2) / 153 <= 11,
        (153 * ((5 * doy + 2) / 153) + 2) / 5 <= doy,
        doy - (153 * ((5 * doy + 2) / 153) + 2) / 5 <= 30,
{
}

/// [`civil_from_days_spec`], computed.
fn civil_from_days(days: u64) -> (r: (u64, u64, u64))
    requires
        days <= 1_000_000_000_000,
    ensures
        r.0 as int == civil_from_days_spec(days as int).0,
        r.1 as int == civil_from_days_spec(days as int).1,
        r.2 as int == civil_from_days_spec(days as int).2,
        1 <= r.1 <= 12,
        1 <= r.2 <= 31,
{
    let z = days + 719468;
    let era = z / 146097;
    let doe = z - era * 146097;
    assert(doe < 146097);
    proof {
        lemma_year_of_era(doe);
    }
    let yoe = (doe - doe / 1460 + doe / 36524 - doe / 146096) / 365;
    let y = yoe + era * 400;
    let doy = doe - (365 * yoe + yoe / 4 - yoe / 100);
    proof {
        lemma_day_of_year(doy);
    }
    let mp = (5 * doy + 2) / 153;
    let d = doy - (153 * mp + 2) / 5 + 1;
    let m = if mp < 10 {
        mp + 3
    } else {
        mp - 9
    };
    (if m <= 2 {
        y + 1
    } else {
        y
    }, m, d)
}

/// `ms` milliseconds after the Unix epoch, as RFC 3339 UTC:
/// `YYYY-MM-DDTHH:MM:SSZ`.
pub open spec fn format_utc_seq(ms: nat) -> Seq<char> {
    let secs = ms / 1000;
    let days = secs / 86400;
    let tod = secs % 86400;
    let (y, m, d) = civil_from_days_spec(days as int);
    zero_padded(y as nat, 4) + seq!['-'] + zero_padded(m as nat, 2) + seq!['-'] + zero_padded(
        d as nat,
        2,
    ) + seq!['T'] + zero_padded(tod / 3600, 2) + seq![':'] + zero_padded((tod % 3600) / 60, 2)
        + seq![':'] + zero_padded(tod % 60, 2) + seq!['Z']
}

/// Format epoch milliseconds as RFC 3339 UTC (`2026-08-13T21:04:05Z`).
pub fn format_utc(ms: u64) -> (r: String)
    ensures
        r@ == format_utc_seq(ms as nat),
{
    let secs = ms / 1000;
    let days = secs / 86400;
    let tod = secs % 86400;
    let (y, m, d) = civil_from_days(days);
    let mut out: Vec<char> = Vec::new();
    push_padded(&mut out, y, 4);
    out.push('-');
    push_padded(&mut out, m, 2);
    out.push('-');
    push_padded(&mut out, d, 2);
    out.push('T');
    push_padded(&mut out, tod / 3600, 2);
    out.push(':');
    push_padded(&mut out, (tod % 3600) / 60, 2);
    out.push(':');
    push_padded(&mut out, tod % 60, 2);
    out.push('Z');
    assert(out@ =~= format_utc_seq(ms as nat));
    string_of(out.as_slice())
}

/// Milliseconds since the Unix epoch, or zero for a clock before 1970.
///
/// Trusted: reads the system clock through `SystemTime::now`; nothing is
/// claimed of the value, which depends on the machine's clock.
#[verifier::external_body]
pub fn now_ms() -> u64 {
    std::time::SystemTime::now()
        .duration_since(std::time::UNIX_EPOCH)
        .map(|d| d.as_millis() as u64)
        .unwrap_or(0)
}

// ── byte sizes ─────────────────────────────────────────────────────────────

/// The spacing of doubles around `n` (for `n < 2^64`): 1 below 2^53, and
/// doubling with every further power of two.
pub open spec fn double_spacing(n: nat) -> nat {
    if n < 0x20_0000_0000_0000 {
        1
    } else if n < 0x40_0000_0000_0000 {
        2
    } else if n < 0x80_0000_0000_0000 {
        4
    } else if n < 0x100_0000_0000_0000 {
        8
    } else if n < 0x200_0000_0000_0000 {
        16
    } else if n < 0x400_0000_0000_0000 {
        32
    } else if n < 0x800_0000_0000_0000 {
        64
    } else if n < 0x1000_0000_0000_0000 {
        128
    } else if n < 0x2000_0000_0000_0000 {
        256
    } else if n < 0x4000_0000_0000_0000 {
        512
    } else if n < 0x8000_0000_0000_0000 {
        1024
    } else {
        2048
    }
}

/// `a / b` rounded to the nearest integer, ties to even.
pub open spec fn div_round_even(a: nat, b: nat) -> nat
    recommends
        b > 0,
{
    let q = a / b;
    let r = a % b;
    if 2 * r > b || (2 * r == b && q % 2 == 1) {
        q + 1
    } else {
        q
    }
}

/// The double nearest `n`, ties to even — what `n as f64` holds.
pub open spec fn nearest_double(n: nat) -> nat {
    div_round_even(n, double_spacing(n)) * double_spacing(n)
}

/// How many times `v` can be divided by 1024 while staying at least 1, up
/// to four (TiB is the largest unit).
pub open spec fn unit_index(v: nat) -> nat {
    if v >= 0x100_0000_0000 {
        4
    } else if v >= 0x4000_0000 {
        3
    } else if v >= 0x10_0000 {
        2
    } else if v >= 0x400 {
        1
    } else {
        0
    }
}

/// `1024` to the power `i`, for the unit indices used here.
pub open spec fn unit_size(i: nat) -> nat {
    if i == 0 {
        1
    } else if i == 1 {
        0x400
    } else if i == 2 {
        0x10_0000
    } else if i == 3 {
        0x4000_0000
    } else {
        0x100_0000_0000
    }
}

pub open spec fn unit_name(i: nat) -> Seq<char> {
    if i == 0 {
        seq!['B']
    } else if i == 1 {
        seq!['K', 'i', 'B']
    } else if i == 2 {
        seq!['M', 'i', 'B']
    } else if i == 3 {
        seq!['G', 'i', 'B']
    } else {
        seq!['T', 'i', 'B']
    }
}

/// A byte count as people read it: `512 B`, or the value in the largest of
/// KiB..TiB that keeps it at least 1, to one decimal place. The value is the
/// double nearest `n`, divided exactly, and rounded half to even, which is
/// how `{:.1}` prints an `f64`.
pub open spec fn human_bytes_seq(n: nat) -> Seq<char> {
    let v = nearest_double(n);
    let i = unit_index(v);
    if i == 0 {
        decimal(n) + seq![' ', 'B']
    } else {
        let t = div_round_even(10 * v, unit_size(i));
        decimal(t / 10) + seq!['.', digit_char((t % 10) as int), ' '] + unit_name(i)
    }
}

fn spacing_of(n: u64) -> (p: u64)
    ensures
        p as nat == double_spacing(n as nat),
        1 <= p <= 2048,
{
    if n < 0x20_0000_0000_0000 {
        1
    } else if n < 0x40_0000_0000_0000 {
        2
    } else if n < 0x80_0000_0000_0000 {
        4
    } else if n < 0x100_0000_0000_0000 {
        8
    } else if n < 0x200_0000_0000_0000 {
        16
    } else if n < 0x400_0000_0000_0000 {
        32
    } else if n < 0x800_0000_0000_0000 {
        64
    } else if n < 0x1000_0000_0000_0000 {
        128
    } else if n < 0x2000_0000_0000_0000 {
        256
    } else if n < 0x4000_0000_0000_0000 {
        512
    } else if n < 0x8000_0000_0000_0000 {
        1024
    } else {
        2048
    }
}

fn round_even(a: u128, b: u128) -> (r: u128)
    requires
        0 < b <= 0x100_0000_0000,
        a < 0x1_0000_0000_0000_0000_0000,
    ensures
        r as nat == div_round_even(a as nat, b as nat),
        r <= a / b + 1,
{
    let q = a / b;
    let rem = a % b;
    if 2 * rem > b || (2 * rem == b && q % 2 == 1) {
        q + 1
    } else {
        q
    }
}

/// Human-readable byte size, for `senv gc` and `senv status`.
pub fn human_bytes(n: u64) -> (r: String)
    ensures
        r@ == human_bytes_seq(n as nat),
{
    let p = spacing_of(n) as u128;
    let q = round_even(n as u128, p);
    let fl = (n as u128) / p;
    let rm = (n as u128) % p;
    assert(q * p <= n as nat + p as nat && q * p >= fl * p && fl * p + rm == n) by (nonlinear_arith)
        requires
            q as nat <= n as nat / p as nat + 1,
            q >= fl,
            fl == n as nat / p as nat,
            rm == n as nat % p as nat,
            p >= 1,
    ;
    let v = q * p;
    let mut out: Vec<char> = Vec::new();
    if v < 0x400 {
        assert(n < 0x20_0000_0000_0000) by {
            if n >= 0x20_0000_0000_0000 {
                assert(v >= 0x400) by (nonlinear_arith)
                    requires
                        v >= fl * p,
                        fl * p + rm == n,
                        rm < p,
                        n >= 0x20_0000_0000_0000,
                        p <= 2048,
                ;
            }
        }
        let d = decimal_chars(n);
        extend_chars(&mut out, d.as_slice());
        out.push(' ');
        out.push('B');
        assert(out@ =~= human_bytes_seq(n as nat));
        return string_of(out.as_slice());
    }
    let (size, name): (u128, &str) = if v >= 0x100_0000_0000 {
        (0x100_0000_0000, "TiB")
    } else if v >= 0x4000_0000 {
        (0x4000_0000, "GiB")
    } else if v >= 0x10_0000 {
        (0x10_0000, "MiB")
    } else {
        (0x400, "KiB")
    };
    let t = round_even(10 * v, size);
    assert(t / 10 <= 0xffff_ffff_ffff_ffff) by (nonlinear_arith)
        requires
            t <= (10 * v) as nat / size as nat + 1,
            size >= 0x400,
            v <= 0x1_0000_0000_0000_0000 + 2048,
    ;
    let whole = decimal_chars((t / 10) as u64);
    extend_chars(&mut out, whole.as_slice());
    out.push('.');
    out.push(digit((t % 10) as u64));
    out.push(' ');
    let unit = chars_of(name);
    proof {
        reveal_strlit("TiB");
        reveal_strlit("GiB");
        reveal_strlit("MiB");
        reveal_strlit("KiB");
    }
    extend_chars(&mut out, unit.as_slice());
    assert(out@ =~= human_bytes_seq(n as nat));
    string_of(out.as_slice())
}

// ── hashing ────────────────────────────────────────────────────────────────

/// The SHA-256 digest of `data`.
pub uninterp spec fn sha256_digest(data: Seq<u8>) -> Seq<u8>;

/// SHA-256 of some bytes.
///
/// Trusted: `sha2::Sha256::digest` computes the standard SHA-256 function,
/// whose output is always 32 bytes; the digest itself is only named.
#[verifier::external_body]
fn sha256(data: &[u8]) -> (r: Vec<u8>)
    ensures
        r@ == sha256_digest(data@),
        r@.len() == 32,
{
    sha2::Sha256::digest(data).to_vec()
}

/// The lowercase hex digit for `d` (`0 <= d < 16`).
pub open spec fn hex_char(d: int) -> char {
    seq!['0', '1', '2', '3', '4', '5', '6', '7', '8', '9', 'a', 'b', 'c', 'd', 'e', 'f'][d]
}

/// Two lowercase hex digits per byte, high nibble first.
pub open spec fn hex_seq(bytes: Seq<u8>) -> Seq<char>
    decreases bytes.len(),
{
    if bytes.len() == 0 {
        seq![]
    } else {
        hex_seq(bytes.drop_last()) + seq![
            hex_char((bytes.last() / 16) as int),
            hex_char((bytes.last() % 16) as int),
        ]
    }
}

pub proof fn lemma_hex_len(bytes: Seq<u8>)
    ensures
        hex_seq(bytes).len() == 2 * bytes.len(),
    decreases bytes.len(),
{
    if bytes.len() > 0 {
        lemma_hex_len(bytes.drop_last());
    }
}

/// The characters of a lowercase hex string.
pub open spec fn is_hex_char(c: char) -> bool {
    ('0' <= c && c <= '9') || ('a' <= c && c <= 'f')
}

pub proof fn lemma_hex_chars(bytes: Seq<u8>)
    ensures
        forall|i: int| 0 <= i < hex_seq(bytes).len() ==> is_hex_char(#[trigger] hex_seq(bytes)[i]),
    decreases bytes.len(),
{
    lemma_hex_len(bytes);
    if bytes.len() > 0 {
        lemma_hex_chars(bytes.drop_last());
        lemma_hex_len(bytes.drop_last());
        let hs = seq!['0', '1', '2', '3', '4', '5', '6', '7', '8', '9', 'a', 'b', 'c', 'd', 'e', 'f'];
        assert(forall|d: int| 0 <= d < 16 ==> is_hex_char(#[trigger] hs[d]));
        let x = hex_seq(bytes);
        let y = hex_seq(bytes.drop_last());
        assert forall|i: int| 0 <= i < x.len() implies is_hex_char(#[trigger] x[i]) by {
            if i < y.len() {
                assert(x[i] == y[i]);
            }
        }
    }
}

fn hex_digit(d: u8) -> (c: char)
    requires
        d < 16,
    ensures
        c == hex_char(d as int),
{
    let digits = ['0', '1', '2', '3', '4', '5', '6', '7', '8', '9', 'a', 'b', 'c', 'd', 'e', 'f'];
    assert(digits@ =~= seq!['0', '1', '2', '3', '4', '5', '6', '7', '8', '9', 'a', 'b', 'c', 'd', 'e', 'f']);
    digits[d as usize]
}

/// Lowercase hex of some bytes.
pub fn hex_lower(bytes: &[u8]) -> (r: Vec<char>)
    ensures
        r@ == hex_seq(bytes@),
{
    let mut out: Vec<char> = Vec::new();
    let mut i: usize = 0;
    while i < bytes.len()
        invariant
            i <= bytes.len(),
            out@ == hex_seq(bytes@.take(i as int)),
        decreases bytes.len() - i,
    {
        let b = bytes[i];
        out.push(hex_digit(b / 16));
        out.push(hex_digit(b % 16));
        assert(bytes@.take(i + 1).drop_last() =~= bytes@.take(i as int));
        i = i + 1;
    }
    assert(bytes@.take(bytes.len() as int) =~= bytes@);
    out
}

/// Full lowercase hex SHA-256 of some bytes: 64 characters.
pub open spec fn sha256_hex_seq(bytes: Seq<u8>) -> Seq<char> {
    hex_seq(sha256_digest(bytes))
}

/// Full lowercase hex sha256 of some bytes.
pub fn sha256_hex(bytes: &[u8]) -> (r: String)
    ensures
        r@ == sha256_hex_seq(bytes@),
        r@.len() == 64,
        forall|i: int| 0 <= i < r@.len() ==> is_hex_char(#[trigger] r@[i]),
{
    let digest = sha256(bytes);
    let h = hex_lower(digest.as_slice());
    proof {
        lemma_hex_len(digest@);
        lemma_hex_chars(digest@);
    }
    string_of(h.as_slice())
}

} // verus!
