//! What a command prints in its human form, line by line.
//!
//! A command's prose is a list of [`Line`]s, each bound for standard output
//! or standard error; printing them is the caller's business. The spec side
//! describes a rendering as a sequence of `(to_stderr, text)` pairs.

use vstd::prelude::*;
use crate::exec::{wrap, wrap_spec};
use crate::text::{extend_chars, extend_str, string_of, strs};
use crate::util::{decimal, decimal_chars};

verus! {

/// One printed line, without its line break.
#[derive(Debug, Clone, PartialEq, Eq)]
pub struct Line {
    /// Whether the line goes to standard error rather than standard output.
    pub to_stderr: bool,
    pub text: String,
}

pub open spec fn line_view(l: Line) -> (bool, Seq<char>) {
    (l.to_stderr, l.text@)
}

/// The printed lines, each as its stream flag and its characters.
pub open spec fn lines_view(v: Seq<Line>) -> Seq<(bool, Seq<char>)> {
    v.map_values(|l: Line| line_view(l))
}

/// A line for standard output.
pub open spec fn out(t: Seq<char>) -> (bool, Seq<char>) {
    (false, t)
}

/// A line for standard error.
pub open spec fn err(t: Seq<char>) -> (bool, Seq<char>) {
    (true, t)
}

/// Appends one line holding exactly `text`.
pub fn emit(lines: &mut Vec<Line>, to_stderr: bool, text: &[char])
    ensures
        lines_view(final(lines)@) == lines_view(old(lines)@).push((to_stderr, text@)),
{
    let ghost before = lines@;
    lines.push(Line { to_stderr, text: string_of(text) });
    assert(lines_view(lines@) =~= lines_view(before).push((to_stderr, text@)));
}

/// Appends an empty line.
pub fn blank(lines: &mut Vec<Line>, to_stderr: bool)
    ensures
        lines_view(final(lines)@) == lines_view(old(lines)@).push((to_stderr, Seq::<char>::empty())),
{
    let t: Vec<char> = Vec::new();
    emit(lines, to_stderr, t.as_slice());
}

/// Appends the line `a` followed by `b`.
pub fn say(lines: &mut Vec<Line>, to_stderr: bool, a: &str, b: &str)
    ensures
        lines_view(final(lines)@) == lines_view(old(lines)@).push((to_stderr, a@ + b@)),
{
    let mut t: Vec<char> = Vec::new();
    extend_str(&mut t, a);
    extend_str(&mut t, b);
    assert(t@ =~= a@ + b@);
    emit(lines, to_stderr, t.as_slice());
}

// ── padding and numbers ────────────────────────────────────────────────────

pub open spec fn spaces(n: nat) -> Seq<char> {
    Seq::new(n, |i: int| ' ')
}

/// `s` padded on the right with spaces to `w` characters, as `{:<w}`
/// formats a string.
pub open spec fn pad_right(s: Seq<char>, w: nat) -> Seq<char> {
    if s.len() >= w {
        s
    } else {
        s + spaces((w - s.len()) as nat)
    }
}

/// Appends `s` padded on the right to `w` characters.
pub fn push_padded_right(out: &mut Vec<char>, s: &[char], w: usize)
    ensures
        final(out)@ == old(out)@ + pad_right(s@, w as nat),
{
    let ghost before = out@;
    extend_chars(out, s);
    let mut i: usize = s.len();
    while i < w
        invariant
            s.len() <= i,
            i <= w || i == s.len(),
            out@ == before + s@ + spaces((i - s.len()) as nat),
        decreases w - i,
    {
        assert(spaces((i + 1 - s.len()) as nat) =~= spaces((i - s.len()) as nat).push(' '));
        assert(before + s@ + spaces((i + 1 - s.len()) as nat) =~= (before + s@ + spaces(
            (i - s.len()) as nat,
        )).push(' '));
        out.push(' ');
        i = i + 1;
    }
    if s.len() >= w {
        assert(spaces(0) =~= Seq::<char>::empty());
        assert(out@ =~= before + s@);
    } else {
        assert(out@ =~= before + pad_right(s@, w as nat));
    }
}

/// A signed integer in decimal, as `{}` formats it.
pub open spec fn signed_decimal(v: int) -> Seq<char> {
    if v < 0 {
        seq!['-'] + decimal((-v) as nat)
    } else {
        decimal(v as nat)
    }
}

pub fn signed_decimal_chars(v: i32) -> (r: Vec<char>)
    ensures
        r@ == signed_decimal(v as int),
{
    if v < 0 {
        let wide: i64 = v as i64;
        let magnitude: u64 = (0i64 - wide) as u64;
        let d = decimal_chars(magnitude);
        let mut r: Vec<char> = Vec::new();
        r.push('-');
        extend_chars(&mut r, d.as_slice());
        assert(r@ =~= seq!['-'] + decimal((-v) as nat));
        r
    } else {
        decimal_chars(v as u64)
    }
}

// ── repeated lines ─────────────────────────────────────────────────────────

/// One line per item: `prefix` followed by the item.
pub open spec fn prefixed_lines(to_stderr: bool, prefix: Seq<char>, items: Seq<Seq<char>>) -> Seq<
    (bool, Seq<char>),
> {
    Seq::new(items.len(), |i: int| (to_stderr, prefix + items[i]))
}

pub fn push_prefixed(lines: &mut Vec<Line>, to_stderr: bool, prefix: &str, items: &[String])
    ensures
        lines_view(final(lines)@) == lines_view(old(lines)@) + prefixed_lines(
            to_stderr,
            prefix@,
            strs(items@),
        ),
{
    let ghost before = lines_view(lines@);
    let ghost all = strs(items@);
    let mut i: usize = 0;
    while i < items.len()
        invariant
            i <= items.len(),
            all == strs(items@),
            lines_view(lines@) == before + Seq::new(i as nat, |k: int| (to_stderr, prefix@ + all[k])),
        decreases items.len() - i,
    {
        say(lines, to_stderr, prefix, items[i].as_str());
        assert(before + Seq::new((i + 1) as nat, |k: int| (to_stderr, prefix@ + all[k])) =~= (before
            + Seq::new(i as nat, |k: int| (to_stderr, prefix@ + all[k]))).push(
            (to_stderr, prefix@ + items@[i as int]@),
        ));
        i = i + 1;
    }
    assert(Seq::new(items.len() as nat, |k: int| (to_stderr, prefix@ + all[k])) =~= prefixed_lines(
        to_stderr,
        prefix@,
        all,
    ));
}

/// One line per item: `prefix` followed by the item wrapped to `width`,
/// continuation lines indented by `indent`.
pub open spec fn wrapped_lines(
    to_stderr: bool,
    prefix: Seq<char>,
    items: Seq<Seq<char>>,
    width: int,
    indent: int,
) -> Seq<(bool, Seq<char>)> {
    Seq::new(items.len(), |i: int| (to_stderr, prefix + wrap_spec(items[i], width, indent)))
}

pub fn push_wrapped(
    lines: &mut Vec<Line>,
    to_stderr: bool,
    prefix: &str,
    items: &[String],
    width: usize,
    indent: usize,
)
    ensures
        lines_view(final(lines)@) == lines_view(old(lines)@) + wrapped_lines(
            to_stderr,
            prefix@,
            strs(items@),
            width as int,
            indent as int,
        ),
{
    let ghost before = lines_view(lines@);
    let ghost all = strs(items@);
    let mut i: usize = 0;
    while i < items.len()
        invariant
            i <= items.len(),
            all == strs(items@),
            lines_view(lines@) == before + Seq::new(
                i as nat,
                |k: int| (to_stderr, prefix@ + wrap_spec(all[k], width as int, indent as int)),
            ),
        decreases items.len() - i,
    {
        let w = wrap(items[i].as_str(), width, indent);
        say(lines, to_stderr, prefix, w.as_str());
        assert(before + Seq::new(
            (i + 1) as nat,
            |k: int| (to_stderr, prefix@ + wrap_spec(all[k], width as int, indent as int)),
        ) =~= (before + Seq::new(
            i as nat,
            |k: int| (to_stderr, prefix@ + wrap_spec(all[k], width as int, indent as int)),
        )).push((to_stderr, prefix@ + w@)));
        i = i + 1;
    }
    assert(Seq::new(
        items.len() as nat,
        |k: int| (to_stderr, prefix@ + wrap_spec(all[k], width as int, indent as int)),
    ) =~= wrapped_lines(to_stderr, prefix@, all, width as int, indent as int));
}

/// Item `i` of a labelled list: the first item after `"  " + label + " "`,
/// the rest aligned under it.
pub open spec fn labelled_line(label: Seq<char>, items: Seq<Seq<char>>, i: int) -> (bool, Seq<char>) {
    out("  "@ + (if i == 0 { label } else { spaces(label.len()) }) + " "@ + items[i])
}

pub open spec fn labelled_lines(label: Seq<char>, items: Seq<Seq<char>>) -> Seq<(bool, Seq<char>)> {
    Seq::new(items.len(), |i: int| labelled_line(label, items, i))
}

pub fn push_labelled(lines: &mut Vec<Line>, label: &str, items: &[String])
    ensures
        lines_view(final(lines)@) == lines_view(old(lines)@) + labelled_lines(label@, strs(items@)),
{
    let ghost before = lines_view(lines@);
    let ghost all = strs(items@);
    let l = crate::text::chars_of(label);
    let mut blank: Vec<char> = Vec::new();
    while blank.len() < l.len()
        invariant
            blank.len() <= l.len(),
            blank@ == spaces(blank.len() as nat),
        decreases l.len() - blank.len(),
    {
        assert(spaces((blank.len() + 1) as nat) =~= spaces(blank.len() as nat).push(' '));
        blank.push(' ');
    }
    let mut i: usize = 0;
    while i < items.len()
        invariant
            i <= items.len(),
            all == strs(items@),
            l@ == label@,
            blank@ == spaces(label@.len()),
            lines_view(lines@) == before + Seq::new(i as nat, |k: int| labelled_line(label@, all, k)),
        decreases items.len() - i,
    {
        let mut t: Vec<char> = Vec::new();
        extend_str(&mut t, "  ");
        if i == 0 {
            extend_chars(&mut t, l.as_slice());
        } else {
            extend_chars(&mut t, blank.as_slice());
        }
        extend_str(&mut t, " ");
        extend_str(&mut t, items[i].as_str());
        assert(t@ =~= labelled_line(label@, all, i as int).1);
        emit(lines, false, t.as_slice());
        assert(before + Seq::new((i + 1) as nat, |k: int| labelled_line(label@, all, k)) =~= (before
            + Seq::new(i as nat, |k: int| labelled_line(label@, all, k))).push(
            labelled_line(label@, all, i as int),
        ));
        i = i + 1;
    }
}

} // verus!
