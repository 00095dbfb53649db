//! What senv says about running a command under a policy: exit codes, the
//! denials it read back, and the wrapping of its own messages.
//!
//! Spawning the command, brokering secrets and mirroring stderr happen at
//! the edge; the decisions and the text are here.

use vstd::prelude::*;
use crate::error::SenvError;
use crate::receipt::{DenialKind, DenialView, Denial, UNNAMED_HOST, VerdictView, denial_views};
use crate::text::{chars_of, contains, contains_seq, extend_chars, extend_str, string_of, strs};
use crate::util::{byte_len, is_inert, lemma_inert_concat, lemma_sanitize_inert, sanitize, sanitize_seq};

verus! {

// ── exit codes ─────────────────────────────────────────────────────────────

/// A command killed by a signal has no exit code: report it as a failure,
/// and a timeout with the `timeout(1)` convention, never as success.
pub open spec fn exit_code_spec(code: Option<i32>, timed_out: bool) -> i32 {
    match code {
        Some(c) => c,
        None => if timed_out {
            124
        } else {
            1
        },
    }
}

pub fn exit_code_of(code: Option<i32>, timed_out: bool) -> (r: i32)
    ensures
        r == exit_code_spec(code, timed_out),
        code is None ==> r != 0,
{
    match code {
        Some(c) => c,
        None => if timed_out {
            124
        } else {
            1
        },
    }
}

/// Exit codes are a byte. A child killed by a signal, or one returning
/// something out of range, must still produce a non-zero code rather than
/// wrapping around to 0 and reporting success.
pub fn clamp_exit(code: i32) -> (r: u8)
    ensures
        0 <= code <= 255 ==> r == code,
        !(0 <= code <= 255) ==> r == 1,
        r == 0 <==> code == 0,
{
    if 0 <= code && code <= 255 {
        code as u8
    } else {
        1
    }
}

// ── wrapping ───────────────────────────────────────────────────────────────

/// `a + b`, stopping at the largest `usize`.
pub open spec fn sat_add(a: int, b: int) -> int {
    if a + b > usize::MAX {
        usize::MAX as int
    } else {
        a + b
    }
}

/// The wrapped rendering of words `k..`, the current line already `line`
/// bytes long: a word that would pass `width` starts a new line indented by
/// `pad`. Column arithmetic saturates, so a word no line can hold simply
/// gets a line of its own.
pub open spec fn wrap_from(ws: Seq<Seq<char>>, width: int, pad: Seq<char>, k: int, line: int) -> Seq<char>
    decreases ws.len() - k,
{
    if k < 0 || k >= ws.len() {
        seq![]
    } else {
        let w = ws[k];
        let wl = byte_len(w) as int;
        if line > 0 && sat_add(sat_add(line, 1), wl) > width {
            seq!['\n'] + pad + w + wrap_from(ws, width, pad, k + 1, wl)
        } else if line > 0 {
            seq![' '] + w + wrap_from(ws, width, pad, k + 1, sat_add(sat_add(line, 1), wl))
        } else {
            w + wrap_from(ws, width, pad, k + 1, sat_add(line, wl))
        }
    }
}

/// `text`'s words, wrapped to `width` with continuation lines indented by
/// `indent` spaces.
pub open spec fn wrap_spec(text: Seq<char>, width: int, indent: int) -> Seq<char> {
    wrap_from(crate::text::words(text), width, Seq::new(indent as nat, |i: int| ' '), 0, 0)
}

fn sat(a: usize, b: usize) -> (r: usize)
    ensures
        r == sat_add(a as int, b as int),
{
    a.saturating_add(b)
}

/// Wrap text to `width`, indenting continuation lines by `indent`.
pub fn wrap(text: &str, width: usize, indent: usize) -> (r: String)
    ensures
        r@ == wrap_spec(text@, width as int, indent as int),
{
    let mut pad: Vec<char> = Vec::new();
    let mut p: usize = 0;
    while p < indent
        invariant
            p <= indent,
            pad@ == Seq::new(p as nat, |i: int| ' '),
        decreases indent - p,
    {
        pad.push(' ');
        assert(pad@ =~= Seq::new((p + 1) as nat, |i: int| ' '));
        p = p + 1;
    }
    let tv = chars_of(text);
    let ws = crate::text::split_words(tv.as_slice());
    let ghost wsv = crate::text::words(text@);
    let mut out: Vec<char> = Vec::new();
    let mut line: usize = 0;
    let mut k: usize = 0;
    while k < ws.len()
        invariant
            k <= ws@.len(),
            ws@.len() == wsv.len(),
            forall|t: int| 0 <= t < ws@.len() ==> #[trigger] ws@[t]@ == wsv[t],
            wsv == crate::text::words(text@),
            pad@ == Seq::new(indent as nat, |i: int| ' '),
            out@ + wrap_from(wsv, width as int, pad@, k as int, line as int) == wrap_spec(
                text@,
                width as int,
                indent as int,
            ),
        decreases ws.len() - k,
    {
        let w = &ws[k];
        let wl = string_of(w.as_slice()).as_str().as_bytes().len();
        let ghost before = out@;
        if line > 0 && sat(sat(line, 1), wl) > width {
            out.push('\n');
            extend_chars(&mut out, pad.as_slice());
            extend_chars(&mut out, w.as_slice());
            assert(out@ =~= before + (seq!['\n'] + pad@ + w@));
            line = wl;
        } else if line > 0 {
            out.push(' ');
            extend_chars(&mut out, w.as_slice());
            assert(out@ =~= before + (seq![' '] + w@));
            line = sat(sat(line, 1), wl);
        } else {
            extend_chars(&mut out, w.as_slice());
            line = sat(line, wl);
        }
        k = k + 1;
    }
    string_of(out.as_slice())
}

/// What stands before word `k` of a wrapped rendering: nothing before the
/// first word, then a line break and the indent where `breaks[k]`, a space
/// elsewhere.
pub open spec fn separator(breaks: Seq<bool>, pad: Seq<char>, k: int) -> Seq<char> {
    if k == 0 {
        seq![]
    } else if breaks[k] {
        seq!['\n'] + pad
    } else {
        seq![' ']
    }
}

/// Words `k..` of `ws`, each preceded by its separator.
pub open spec fn laid_out(ws: Seq<Seq<char>>, breaks: Seq<bool>, pad: Seq<char>, k: int) -> Seq<char>
    decreases ws.len() - k,
{
    if k < 0 || k >= ws.len() {
        seq![]
    } else {
        separator(breaks, pad, k) + ws[k] + laid_out(ws, breaks, pad, k + 1)
    }
}

/// Bytes on the line of word `k`, indent aside, up to and including it.
pub open spec fn line_width(ws: Seq<Seq<char>>, breaks: Seq<bool>, k: int) -> int
    decreases k,
{
    if k <= 0 {
        byte_len(ws[0]) as int
    } else if breaks[k] {
        byte_len(ws[k]) as int
    } else {
        line_width(ws, breaks, k - 1) + 1 + byte_len(ws[k])
    }
}

proof fn lemma_line_width_prefix(ws: Seq<Seq<char>>, a: Seq<bool>, b: Seq<bool>, t: int)
    requires
        0 <= t < a.len(),
        t < b.len(),
        forall|i: int| 0 <= i <= t ==> a[i] == b[i],
    ensures
        line_width(ws, a, t) == line_width(ws, b, t),
    decreases t,
{
    if t > 0 {
        lemma_line_width_prefix(ws, a, b, t - 1);
    }
}

/// Bytes the first `k` words take with one separator after each.
pub open spec fn spread(ws: Seq<Seq<char>>, k: int) -> int
    decreases k,
{
    if k <= 0 {
        0
    } else {
        spread(ws, k - 1) + byte_len(ws[k - 1]) + 1
    }
}

proof fn lemma_spread_nonneg(ws: Seq<Seq<char>>, k: int)
    ensures
        0 <= spread(ws, k),
    decreases k,
{
    if k > 0 {
        lemma_spread_nonneg(ws, k - 1);
    }
}

proof fn lemma_spread_grows(ws: Seq<Seq<char>>, k: int, n: int)
    requires
        0 <= k <= n,
    ensures
        spread(ws, k) <= spread(ws, n),
        0 <= spread(ws, k),
    decreases n - k,
{
    lemma_spread_nonneg(ws, k);
    if k < n {
        lemma_spread_grows(ws, k, n - 1);
    }
}

proof fn lemma_line_width_spread(ws: Seq<Seq<char>>, br: Seq<bool>, k: int)
    requires
        0 <= k,
    ensures
        line_width(ws, br, k) <= spread(ws, k + 1) - 1,
    decreases k,
{
    lemma_spread_grows(ws, k, k + 1);
    if k > 0 && !br[k] {
        lemma_line_width_spread(ws, br, k - 1);
    }
}

proof fn lemma_wrap_from_layout(
    ws: Seq<Seq<char>>,
    width: int,
    pad: Seq<char>,
    k: int,
    line: int,
    pre: Seq<bool>,
) -> (br: Seq<bool>)
    requires
        0 <= k <= ws.len(),
        pre.len() == k,
        0 <= width <= usize::MAX,
        spread(ws, ws.len() as int) <= usize::MAX,
        forall|t: int| 0 <= t < ws.len() ==> (#[trigger] ws[t]).len() > 0,
        k == 0 ==> line == 0,
        k > 0 ==> line > 0 && line == line_width(ws, pre, k - 1),
        forall|t: int| 0 < t < k && !pre[t] ==> line_width(ws, pre, t) <= width,
    ensures
        br.len() == ws.len(),
        br.take(k) == pre,
        wrap_from(ws, width, pad, k, line) == laid_out(ws, br, pad, k),
        forall|t: int| 0 < t < br.len() && !br[t] ==> line_width(ws, br, t) <= width,
    decreases ws.len() - k,
{
    if k == ws.len() {
        assert(pre.take(k) =~= pre);
        pre
    } else {
        let w = ws[k];
        let wl = byte_len(w) as int;
        crate::util::lemma_byte_len_zero(w);
        assert(ws[k].len() > 0);
        lemma_spread_grows(ws, k + 1, ws.len() as int);
        lemma_spread_grows(ws, 0, k);
        if k > 0 {
            lemma_line_width_spread(ws, pre, k - 1);
        }
        let grow = line > 0 && sat_add(sat_add(line, 1), wl) > width;
        let next = pre.push(grow);
        let line2 = if grow {
            wl
        } else if line > 0 {
            sat_add(sat_add(line, 1), wl)
        } else {
            sat_add(line, wl)
        };
        assert forall|i: int| 0 <= i < k implies next[i] == pre[i] by {}
        if k > 0 {
            lemma_line_width_prefix(ws, pre, next, k - 1);
        }
        assert forall|t: int| 0 < t < k + 1 && !next[t] implies line_width(ws, next, t) <= width by {
            if t < k {
                lemma_line_width_prefix(ws, pre, next, t);
            }
        }
        let br = lemma_wrap_from_layout(ws, width, pad, k + 1, line2, next);
        assert(br[k] == next[k]);
        assert forall|i: int| 0 <= i < k implies br[i] == pre[i] by {
            assert(br.take(k + 1)[i] == next[i]);
        }
        assert(br.take(k) =~= pre);
        if grow {
            assert(k > 0);
            assert(separator(br, pad, k) == seq!['\n'] + pad);
            assert(seq!['\n'] + pad + w + laid_out(ws, br, pad, k + 1) =~= separator(br, pad, k) + w
                + laid_out(ws, br, pad, k + 1));
        } else if line > 0 {
            assert(separator(br, pad, k) == seq![' ']);
        } else {
            assert(separator(br, pad, k) =~= Seq::<char>::empty());
            assert(separator(br, pad, k) + w =~= w);
        }
        br
    }
}

proof fn lemma_words_shape(s: Seq<char>, i: int)
    requires
        0 <= i <= s.len(),
    ensures
        forall|t: int|
            0 <= t < crate::text::words_from(s, i).len() ==> (#[trigger] crate::text::words_from(
                s,
                i,
            )[t]).len() > 0 && forall|c: int|
                0 <= c < crate::text::words_from(s, i)[t].len() ==> !crate::text::is_ws(
                    crate::text::words_from(s, i)[t][c],
                ),
    decreases s.len() - i,
{
    if i < s.len() {
        crate::text::lemma_skip_ws(s, i);
        let j = crate::text::skip_ws(s, i);
        if j < s.len() {
            crate::text::lemma_word_end(s, j);
            let e = crate::text::word_end(s, j);
            lemma_words_shape(s, e);
            let ws = crate::text::words_from(s, i);
            let rest = crate::text::words_from(s, e);
            assert(ws == seq![s.subrange(j, e)] + rest);
            assert forall|t: int| 0 <= t < ws.len() implies (#[trigger] ws[t]).len() > 0 && forall|c: int|
                0 <= c < ws[t].len() ==> !crate::text::is_ws(ws[t][c]) by {
                if t > 0 {
                    assert(ws[t] == rest[t - 1]);
                } else {
                    assert forall|c: int| 0 <= c < ws[0].len() implies !crate::text::is_ws(ws[0][c]) by {
                        assert(ws[0][c] == s[j + c]);
                    }
                }
            }
        }
    }
}

/// `n` spaces: the indent of a continuation line.
pub open spec fn spaces(n: int) -> Seq<char> {
    Seq::new(n as nat, |i: int| ' ')
}

/// [`wrap`] lays out the text's words in order, each whole (non-empty, no
/// whitespace in it), with a space, or a line break followed by the indent,
/// between neighbours; a line that holds more than one word fits in
/// `width` bytes, so only a word longer than the width overflows, alone on
/// its line. (The words, each with one separator, fit in a `usize`, as
/// those of any text in memory do.)
pub proof fn lemma_wrap_layout(text: Seq<char>, width: int, indent: int)
    requires
        0 <= width <= usize::MAX,
        0 <= indent,
        spread(crate::text::words(text), crate::text::words(text).len() as int) <= usize::MAX,
    ensures
        exists|br: Seq<bool>|
            br.len() == crate::text::words(text).len() && #[trigger] laid_out(
                crate::text::words(text),
                br,
                spaces(indent),
                0,
            ) == wrap_spec(text, width, indent) && forall|t: int|
                0 < t < br.len() && !br[t] ==> line_width(crate::text::words(text), br, t) <= width,
        forall|t: int|
            0 <= t < crate::text::words(text).len() ==> (#[trigger] crate::text::words(text)[t]).len()
                > 0 && forall|c: int|
                0 <= c < crate::text::words(text)[t].len() ==> !crate::text::is_ws(
                    crate::text::words(text)[t][c],
                ),
{
    let ws = crate::text::words(text);
    lemma_words_shape(text, 0);
    let pad = spaces(indent);
    let br = lemma_wrap_from_layout(ws, width, pad, 0, 0, seq![]);
    assert(laid_out(ws, br, pad, 0) == wrap_spec(text, width, indent));
}

// ── reporting denials ──────────────────────────────────────────────────────

/// What a denial was of, in words. The target is quoted sanitized: the
/// program chose it, and it is shown inside senv's own framing.
pub open spec fn denial_subject(d: DenialView) -> Seq<char> {
    match d.kind {
        DenialKind::Network => if d.target == UNNAMED_HOST@ {
            "a network connection"@
        } else {
            "network access to "@ + sanitize_seq(d.target)
        },
        DenialKind::Filesystem => "access to "@ + sanitize_seq(d.target),
    }
}

/// The line under a denial: why nothing is suggested, or the change that
/// would allow it.
pub open spec fn denial_advice(d: DenialView) -> Seq<char> {
    match d.verdict {
        VerdictView::ByDesign(r) => "    "@ + wrap_spec(r, 74, 4),
        VerdictView::Unnamed => "    "@ + wrap_spec(crate::receipt::unnamed_reason(), 74, 4),
        VerdictView::Suggestable => "    allow it with: "@ + match d.kind {
            DenialKind::Network => "senv allow "@ + sanitize_seq(d.target),
            DenialKind::Filesystem => "add \""@ + sanitize_seq(d.target)
                + "\" to [run.fs] read in senv.toml"@,
        },
    }
}

pub open spec fn denial_trailer() -> Seq<char> {
    "A program chooses what it prints, so check each one is a destination you expect before allowing it. `senv report --suggest` turns everything recorded so far into a policy stanza."@
}

/// The lines for denials `0..k`.
pub open spec fn denial_body(ds: Seq<DenialView>, k: int) -> Seq<Seq<char>>
    decreases k,
{
    if k <= 0 || k > ds.len() {
        seq![]
    } else {
        denial_body(ds, k - 1) + seq!["  • "@ + denial_subject(ds[k - 1]), denial_advice(ds[k - 1])]
    }
}

/// What senv prints about the refusals it read from a command's output:
/// nothing when there were none. The header and the trailer say where the
/// list came from — a program chooses what it prints — so no line reads as
/// senv's own authority.
pub open spec fn denial_report_spec(ds: Seq<DenialView>) -> Seq<Seq<char>> {
    if ds.len() == 0 {
        seq![]
    } else {
        seq![seq![], "senv read "@ + crate::util::decimal(ds.len()) + " refusal(s) from what this command printed:"@]
            + denial_body(ds, ds.len() as int) + seq!["  "@ + wrap_spec(denial_trailer(), 74, 2)]
    }
}

proof fn lemma_denial_body_at(ds: Seq<DenialView>, n: int, k: int)
    requires
        0 <= k < n <= ds.len(),
    ensures
        denial_body(ds, n).len() == 2 * n,
        denial_body(ds, n)[2 * k] == "  • "@ + denial_subject(ds[k]),
        denial_body(ds, n)[2 * k + 1] == denial_advice(ds[k]),
    decreases n,
{
    let prev = denial_body(ds, n - 1);
    if k < n - 1 {
        lemma_denial_body_at(ds, n - 1, k);
    } else if n - 1 > 0 {
        lemma_denial_body_at(ds, n - 1, 0);
    }
    assert(denial_body(ds, n) == prev + seq!["  • "@ + denial_subject(ds[n - 1]), denial_advice(ds[n - 1])]);
}

/// Under each denial that could be allowed, the report gives the fix of its
/// own kind: `senv allow <host>` for a refused host, and adding the path to
/// `[run.fs] read` for a refused path.
pub proof fn lemma_advice_matches_kind(ds: Seq<DenialView>, k: int)
    requires
        0 <= k < ds.len(),
        ds[k].verdict is Suggestable,
    ensures
        denial_report_spec(ds).len() == 2 * ds.len() + 3,
        denial_report_spec(ds)[2 * k + 2] == "  • "@ + denial_subject(ds[k]),
        ds[k].kind == DenialKind::Network ==> denial_report_spec(ds)[2 * k + 3]
            == "    allow it with: senv allow "@ + sanitize_seq(ds[k].target),
        ds[k].kind == DenialKind::Filesystem ==> denial_report_spec(ds)[2 * k + 3]
            == "    allow it with: add \""@ + sanitize_seq(ds[k].target)
            + "\" to [run.fs] read in senv.toml"@,
{
    reveal_strlit("    allow it with: ");
    reveal_strlit("senv allow ");
    reveal_strlit("add \"");
    reveal_strlit("    allow it with: senv allow ");
    reveal_strlit("    allow it with: add \"");
    lemma_denial_body_at(ds, ds.len() as int, k);
    let head = seq![seq![], "senv read "@ + crate::util::decimal(ds.len()) + " refusal(s) from what this command printed:"@];
    let body = denial_body(ds, ds.len() as int);
    let r = denial_report_spec(ds);
    assert(r == head + body + seq!["  "@ + wrap_spec(denial_trailer(), 74, 2)]);
    assert(r[2 * k + 2] == body[2 * k]);
    assert(r[2 * k + 3] == body[2 * k + 1]);
    let t = sanitize_seq(ds[k].target);
    assert("    allow it with: "@ + ("senv allow "@ + t) =~= "    allow it with: senv allow "@ + t);
    assert("    allow it with: "@ + ("add \""@ + t + "\" to [run.fs] read in senv.toml"@)
        =~= "    allow it with: add \""@ + t + "\" to [run.fs] read in senv.toml"@);
}

fn denial_subject_of(d: &Denial) -> (r: Vec<char>)
    ensures
        r@ == denial_subject(d@),
{
    match d.kind {
        DenialKind::Network => {
            let t = chars_of(d.target.as_str());
            let u = chars_of(UNNAMED_HOST);
            if crate::text::chars_eq(t.as_slice(), u.as_slice()) {
                chars_of("a network connection")
            } else {
                let mut out = chars_of("network access to ");
                extend_str(&mut out, sanitize(d.target.as_str()).as_str());
                out
            }
        },
        DenialKind::Filesystem => {
            let mut out = chars_of("access to ");
            extend_str(&mut out, sanitize(d.target.as_str()).as_str());
            out
        },
    }
}

fn denial_advice_of(d: &Denial) -> (r: Vec<char>)
    ensures
        r@ == denial_advice(d@),
{
    let mut out: Vec<char> = Vec::new();
    match &d.verdict {
        crate::receipt::Verdict::ByDesign(r) => {
            extend_str(&mut out, "    ");
            let w = wrap(r.as_str(), 74, 4);
            extend_str(&mut out, w.as_str());
        },
        crate::receipt::Verdict::Unnamed => {
            extend_str(&mut out, "    ");
            let w = wrap(
                "the error did not name the host. Check the traceback, then allow it with `senv allow <host>`.",
                74,
                4,
            );
            extend_str(&mut out, w.as_str());
        },
        crate::receipt::Verdict::Suggestable => {
            extend_str(&mut out, "    allow it with: ");
            match d.kind {
                DenialKind::Network => {
                    extend_str(&mut out, "senv allow ");
                    extend_str(&mut out, sanitize(d.target.as_str()).as_str());
                },
                DenialKind::Filesystem => {
                    extend_str(&mut out, "add \"");
                    extend_str(&mut out, sanitize(d.target.as_str()).as_str());
                    extend_str(&mut out, "\" to [run.fs] read in senv.toml");
                },
            }
        },
    }
    out
}

/// The lines senv prints about the refusals read from a command's output.
pub fn denial_report(denials: &Vec<Denial>) -> (r: Vec<String>)
    ensures
        strs(r@) == denial_report_spec(denial_views(denials@)),
{
    let mut lines: Vec<String> = Vec::new();
    let ghost ds = denial_views(denials@);
    if denials.len() == 0 {
        assert(strs(lines@) =~= seq![]);
        return lines;
    }
    lines.push(String::new());
    let mut header = chars_of("senv read ");
    let n = crate::util::decimal_chars(denials.len() as u64);
    extend_chars(&mut header, n.as_slice());
    extend_str(&mut header, " refusal(s) from what this command printed:");
    lines.push(string_of(header.as_slice()));
    let ghost head = strs(lines@);
    assert(head =~= seq![seq![], "senv read "@ + crate::util::decimal(ds.len()) + " refusal(s) from what this command printed:"@]);
    let mut k: usize = 0;
    while k < denials.len()
        invariant
            k <= denials@.len(),
            ds == denial_views(denials@),
            strs(lines@) == head + denial_body(ds, k as int),
        decreases denials.len() - k,
    {
        let ghost before = lines@;
        let s = denial_subject_of(&denials[k]);
        let mut first = chars_of("  • ");
        extend_chars(&mut first, s.as_slice());
        lines.push(string_of(first.as_slice()));
        let a = denial_advice_of(&denials[k]);
        lines.push(string_of(a.as_slice()));
        assert(ds[k as int] == denials@[k as int]@);
        assert(strs(lines@) =~= strs(before) + seq!["  • "@ + denial_subject(ds[k as int]), denial_advice(ds[k as int])]);
        k = k + 1;
    }
    let mut last = chars_of("  ");
    let w = wrap(
        "A program chooses what it prints, so check each one is a destination you expect before allowing it. `senv report --suggest` turns everything recorded so far into a policy stanza.",
        74,
        2,
    );
    extend_str(&mut last, w.as_str());
    let ghost before = lines@;
    lines.push(string_of(last.as_slice()));
    assert(strs(lines@) =~= strs(before) + seq!["  "@ + wrap_spec(denial_trailer(), 74, 2)]);
    lines
}

proof fn lemma_denial_body_shape(ds: Seq<DenialView>, k: int)
    requires
        0 <= k <= ds.len(),
    ensures
        denial_body(ds, k).len() == 2 * k,
        forall|j: int| 0 <= j < k ==> #[trigger] denial_body(ds, k)[2 * j] == "  • "@ + denial_subject(ds[j]),
        forall|j: int| 0 <= j < k ==> #[trigger] denial_body(ds, k)[2 * j + 1] == denial_advice(ds[j]),
    decreases k,
{
    if k > 0 {
        lemma_denial_body_shape(ds, k - 1);
        let prev = denial_body(ds, k - 1);
        let pair = seq!["  • "@ + denial_subject(ds[k - 1]), denial_advice(ds[k - 1])];
        assert(denial_body(ds, k) == prev + pair);
        assert forall|j: int| 0 <= j < k implies #[trigger] denial_body(ds, k)[2 * j] == "  • "@
            + denial_subject(ds[j]) by {
            if j < k - 1 {
                assert((prev + pair)[2 * j] == prev[2 * j]);
            } else {
                assert((prev + pair)[2 * j] == pair[0]);
            }
        }
        assert forall|j: int| 0 <= j < k implies #[trigger] denial_body(ds, k)[2 * j + 1]
            == denial_advice(ds[j]) by {
            if j < k - 1 {
                assert((prev + pair)[2 * j + 1] == prev[2 * j + 1]);
            } else {
                assert((prev + pair)[2 * j + 1] == pair[1]);
            }
        }
    }
}

/// What the denial report says of the target of denial `d` carries no
/// terminal escape, nor any other control or bidirectional-override
/// character, whatever the program printed: the subject line, and the
/// line suggesting how to allow it.
proof fn lemma_quoted_target_inert(d: DenialView)
    ensures
        is_inert("  • "@ + denial_subject(d)),
        d.verdict is Suggestable ==> is_inert(denial_advice(d)),
{
    reveal_strlit("  • ");
    reveal_strlit("a network connection");
    reveal_strlit("network access to ");
    reveal_strlit("access to ");
    reveal_strlit("    allow it with: ");
    reveal_strlit("senv allow ");
    reveal_strlit("add \"");
    reveal_strlit("\" to [run.fs] read in senv.toml");
    lemma_sanitize_inert(d.target, 0);
    let t = sanitize_seq(d.target);
    lemma_inert_concat("network access to "@, t);
    lemma_inert_concat("access to "@, t);
    lemma_inert_concat("  • "@, denial_subject(d));
    lemma_inert_concat("senv allow "@, t);
    lemma_inert_concat("add \""@, t);
    lemma_inert_concat("add \""@ + t, "\" to [run.fs] read in senv.toml"@);
    lemma_inert_concat("    allow it with: "@, "senv allow "@ + t);
    lemma_inert_concat("    allow it with: "@, "add \""@ + t + "\" to [run.fs] read in senv.toml"@);
}

/// Program output reaches senv's denial report only sanitized: the lines
/// that quote what a command was refused — each denial's subject, and the
/// suggestion for allowing it — and the header carry no terminal escape,
/// nor any other control or bidirectional-override character, whatever the
/// command printed. (The other lines are senv's own fixed text.)
pub proof fn lemma_denial_report_quotes_sanitized(ds: Seq<DenialView>)
    requires
        ds.len() > 0,
    ensures
        denial_report_spec(ds).len() == 2 * ds.len() + 3,
        is_inert(denial_report_spec(ds)[1]),
        forall|k: int| 0 <= k < ds.len() ==> is_inert(#[trigger] denial_report_spec(ds)[2 + 2 * k]),
        forall|k: int|
            0 <= k < ds.len() && (#[trigger] ds[k]).verdict is Suggestable ==> is_inert(
                denial_report_spec(ds)[3 + 2 * k],
            ),
{
    let n = ds.len() as int;
    lemma_denial_body_shape(ds, n);
    let head = seq![
        seq![],
        "senv read "@ + crate::util::decimal(ds.len()) + " refusal(s) from what this command printed:"@,
    ];
    let body = denial_body(ds, n);
    let tail = seq!["  "@ + wrap_spec(denial_trailer(), 74, 2)];
    assert(denial_report_spec(ds) == head + body + tail);
    reveal_strlit("senv read ");
    reveal_strlit(" refusal(s) from what this command printed:");
    crate::util::lemma_decimal_inert(ds.len());
    lemma_inert_concat("senv read "@, crate::util::decimal(ds.len()));
    lemma_inert_concat(
        "senv read "@ + crate::util::decimal(ds.len()),
        " refusal(s) from what this command printed:"@,
    );
    assert forall|k: int| 0 <= k < ds.len() implies is_inert(#[trigger] denial_report_spec(ds)[2 + 2 * k]) by {
        assert((head + body + tail)[2 + 2 * k] == body[2 * k]);
        lemma_quoted_target_inert(ds[k]);
    }
    assert forall|k: int|
        0 <= k < ds.len() && (#[trigger] ds[k]).verdict is Suggestable implies is_inert(
            denial_report_spec(ds)[3 + 2 * k],
        ) by {
        assert((head + body + tail)[3 + 2 * k] == body[2 * k + 1]);
        lemma_quoted_target_inert(ds[k]);
    }
}

// ── engine refusals ────────────────────────────────────────────────────────

pub open spec fn unresolvable_marker() -> Seq<char> {
    "net.egress resolved to no reachable address"@
}

/// An engine-level refusal in senv's vocabulary. The one that matters in
/// practice: an allowlist whose hosts resolve to nothing reads as senv being
/// broken when the fix is one line of configuration.
pub fn explain_engine_error(message: &str, egress: &[String]) -> (e: SenvError)
    ensures
        contains_seq(message@, unresolvable_marker()) ==> (e matches SenvError::Refused { why, .. }
            && why@ == "the allowlist is pinned to resolved addresses, and none of ["@
            + crate::util::join_seq(strs(egress@), ", "@)
            + "] resolves from here. A typo, or a name that only exists on a VPN you are not connected to, produces exactly this."@),
        !contains_seq(message@, unresolvable_marker()) ==> (e matches SenvError::Sandbox(m) && m@
            == message@),
{
    let mv = chars_of(message);
    let marker = chars_of("net.egress resolved to no reachable address");
    if contains(mv.as_slice(), marker.as_slice()) {
        let mut why = chars_of("the allowlist is pinned to resolved addresses, and none of [");
        let hosts = crate::config::join_strings(egress, ", ");
        extend_chars(&mut why, hosts.as_slice());
        extend_str(
            &mut why,
            "] resolves from here. A typo, or a name that only exists on a VPN you are not connected to, produces exactly this.",
        );
        return SenvError::refused(
            String::from_str("none of the allowed hosts could be resolved, so senv refused to run"),
            string_of(why.as_slice()),
            String::from_str(
                "check the spelling in senv.toml under [run] net, remove the host, or connect to the network where it resolves",
            ),
        );
    }
    SenvError::Sandbox(String::from_str(message))
}

/// The refusal for a project with no environment yet.
pub fn require_venv(exists: bool, venv: &str) -> (r: crate::error::Result<()>)
    ensures
        r is Ok <==> exists,
        r matches Err(e) ==> e matches SenvError::Refused { why, fix, .. } && why@
            == "nothing is installed at "@ + venv@ && fix@ == "run `senv sync` to create it"@,
{
    if exists {
        return Ok(());
    }
    let mut why = chars_of("nothing is installed at ");
    extend_str(&mut why, venv);
    Err(SenvError::refused(
        String::from_str("this project has no environment yet"),
        string_of(why.as_slice()),
        String::from_str("run `senv sync` to create it"),
    ))
}

/// Where a program named on the command line would sit in the environment,
/// if it is a bare name (a path is run as given).
pub fn venv_program(venv: &str, program: &str) -> (r: Option<String>)
    ensures
        program@.contains('/') ==> r is None,
        !program@.contains('/') ==> (r matches Some(p) && p@ == crate::text::path_join_seq(
            crate::text::path_join_seq(venv@, "bin"@),
            program@,
        )),
{
    let pv = chars_of(program);
    let mut i: usize = 0;
    while i < pv.len()
        invariant
            i <= pv@.len(),
            pv@ == program@,
            forall|t: int| 0 <= t < i ==> pv@[t] != '/',
        decreases pv.len() - i,
    {
        if pv[i] == '/' {
            return None;
        }
        i = i + 1;
    }
    let bin = crate::text::path_join(venv, "bin");
    Some(crate::text::path_join(bin.as_str(), program))
}

/// The label a receipt gives a phase's network.
pub open spec fn net_label(mode: crate::policy::NetMode, egress: Seq<String>) -> Seq<char> {
    if mode == crate::policy::NetMode::Deny {
        "deny"@
    } else if egress.len() == 0 {
        "host"@
    } else {
        "allowlist"@
    }
}

pub fn net_mode_label(mode: crate::policy::NetMode, egress: &Vec<String>) -> (r: &'static str)
    ensures
        r@ == net_label(mode, egress@),
{
    if mode == crate::policy::NetMode::Deny {
        "deny"
    } else if egress.len() == 0 {
        "host"
    } else {
        "allowlist"
    }
}

/// How much of the engine's own stderr is held while a command runs.
pub const MAX_OBSERVED: usize = 262144;

/// What is held of captured stderr: its last `limit` bytes. A ring, not a
/// prefix, so the error that ended a long, noisy run is what survives.
pub fn keep_tail(buf: Vec<u8>, limit: usize) -> (r: Vec<u8>)
    ensures
        r@ == if buf@.len() <= limit {
            buf@
        } else {
            buf@.subrange(buf@.len() - limit, buf@.len() as int)
        },
{
    if buf.len() <= limit {
        return buf;
    }
    let start = buf.len() - limit;
    let mut out: Vec<u8> = Vec::new();
    let mut i = start;
    while i < buf.len()
        invariant
            start <= i <= buf@.len(),
            start == buf@.len() - limit,
            out@ == buf@.subrange(start as int, i as int),
        decreases buf.len() - i,
    {
        out.push(buf[i]);
        assert(buf@.subrange(start as int, i + 1) =~= buf@.subrange(start as int, i as int).push(
            buf@[i as int],
        ));
        i = i + 1;
    }
    out
}

/// How much of a failed command's output a receipt keeps.
pub const OUTPUT_TAIL_BYTES: usize = 4096;

/// What a receipt keeps of a command's (redacted) output: its tail when it
/// failed, nothing when it succeeded — a successful command's output is the
/// user's business, not the log's.
pub fn output_tail(exit_code: Option<i32>, timed_out: bool, clean: &str) -> (r: Option<String>)
    ensures
        (exit_code == Some(0i32) && !timed_out) ==> r is None,
        !(exit_code == Some(0i32) && !timed_out) ==> (r matches Some(t) && t@ == crate::util::tail_seq(
            crate::text::trim_end_seq(clean@),
            OUTPUT_TAIL_BYTES as int,
        )),
{
    let failed = match exit_code {
        Some(c) => c != 0,
        None => true,
    } || timed_out;
    if !failed {
        return None;
    }
    let cv = chars_of(clean);
    let trimmed = crate::text::trim_end(cv.as_slice());
    let ts = string_of(trimmed.as_slice());
    Some(crate::util::tail(ts.as_str(), OUTPUT_TAIL_BYTES))
}

// ── captured output ─────────────────────────────────────────────────────────

/// How much of each end of a captured stream is kept.
pub const OUTPUT_KEEP_BYTES: usize = 524288;

/// Where a captured stream of `len` bytes is cut: `None` when it is kept
/// whole (it fits in both halves), else the end of the head, the start of
/// the tail and how many bytes between them are omitted. A failure explains
/// itself at the end and the command is echoed at the beginning, so both
/// ends are kept.
pub open spec fn cut_spec(len: nat) -> Option<(nat, nat, nat)> {
    if len <= 2 * OUTPUT_KEEP_BYTES {
        None
    } else {
        Some((OUTPUT_KEEP_BYTES as nat, (len - OUTPUT_KEEP_BYTES) as nat, (len - 2 * OUTPUT_KEEP_BYTES) as nat))
    }
}

pub fn output_cut(len: usize) -> (r: Option<(usize, usize, usize)>)
    ensures
        match r {
            Some((h, t, s)) => cut_spec(len as nat) == Some((h as nat, t as nat, s as nat)),
            None => cut_spec(len as nat) is None,
        },
{
    if len <= 2 * OUTPUT_KEEP_BYTES {
        None
    } else {
        Some((OUTPUT_KEEP_BYTES, len - OUTPUT_KEEP_BYTES, len - 2 * OUTPUT_KEEP_BYTES))
    }
}

pub open spec fn omitted_marker_spec(skipped: nat) -> Seq<char> {
    "\n\u{2026} senv omitted "@ + crate::util::decimal(skipped) + " bytes of output \u{2026}\n"@
}

/// The line standing for the omitted middle of a captured stream.
pub fn omitted_marker(skipped: u64) -> (r: String)
    ensures
        r@ == omitted_marker_spec(skipped as nat),
{
    let mut out = chars_of("\n\u{2026} senv omitted ");
    let d = crate::util::decimal_chars(skipped);
    extend_chars(&mut out, d.as_slice());
    extend_str(&mut out, " bytes of output \u{2026}\n");
    string_of(out.as_slice())
}

// ── one execution ──────────────────────────────────────────────────────────

/// The result of running one command under a policy.
#[derive(Debug, Clone)]
pub struct Execution {
    pub exit_code: i32,
    pub timed_out: bool,
    pub wall_ms: u64,
    /// Standard output, kept apart from standard error so redirects through
    /// `senv uv` work.
    pub stdout: String,
    pub stderr: String,
    /// Both streams together, for denial analysis and receipts.
    pub output: String,
    pub record: crate::receipt::Record,
}

impl Execution {
    /// Whether the command exited 0 within its time.
    pub fn succeeded(&self) -> (b: bool)
        ensures
            b == (self.exit_code == 0 && !self.timed_out),
    {
        self.exit_code == 0 && !self.timed_out
    }
}

// ── notes ──────────────────────────────────────────────────────────────────

/// A plan's note as printed: `warning:` or `note:`, then its text wrapped.
pub open spec fn note_line(n: crate::policy::Note) -> (bool, Seq<char>) {
    crate::lines::err(
        (if n.level == crate::policy::NoteLevel::Warn {
            "warning: "@
        } else {
            "note: "@
        }) + wrap_spec(n.text@, 76, 9),
    )
}

/// The notes attached to a plan — the widenings announced before anything
/// runs — each on standard error.
pub fn note_lines(notes: &[crate::policy::Note]) -> (r: Vec<crate::lines::Line>)
    ensures
        crate::lines::lines_view(r@) == Seq::new(notes@.len(), |i: int| note_line(notes@[i])),
{
    let mut lines: Vec<crate::lines::Line> = Vec::new();
    let mut i: usize = 0;
    while i < notes.len()
        invariant
            i <= notes.len(),
            crate::lines::lines_view(lines@) == Seq::new(i as nat, |k: int| note_line(notes@[k])),
        decreases notes.len() - i,
    {
        let w = wrap(notes[i].text.as_str(), 76, 9);
        let marker = match notes[i].level {
            crate::policy::NoteLevel::Warn => "warning: ",
            crate::policy::NoteLevel::Info => "note: ",
        };
        crate::lines::say(&mut lines, true, marker, w.as_str());
        assert(Seq::new((i + 1) as nat, |k: int| note_line(notes@[k])) =~= Seq::new(
            i as nat,
            |k: int| note_line(notes@[k]),
        ).push(note_line(notes@[i as int])));
        i = i + 1;
    }
    lines
}

} // verus!
