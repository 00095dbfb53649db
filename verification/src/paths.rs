//! Paths compared the way `std::path::Path` compares them: by component,
//! not by text, so `/a/proj-state` is not inside `/a/proj` and `/a//b/.` is
//! `/a/b`.

use vstd::prelude::*;
use crate::text::{Sep, chars_eq, chars_of, slice_of, split_at_sep, split_seq};

verus! {

/// Keeps the path segments that are components: not empty, not `.`.
pub open spec fn kept_segments(ps: Seq<Seq<char>>) -> Seq<Seq<char>>
    decreases ps.len(),
{
    if ps.len() == 0 {
        seq![]
    } else {
        let rest = kept_segments(ps.drop_last());
        let p = ps.last();
        if p.len() == 0 || p == seq!['.'] {
            rest
        } else {
            rest.push(p)
        }
    }
}

/// The components of a path as `Path::components` yields them: the root as
/// `/`, a leading `.` kept, empty and other `.` segments dropped.
pub open spec fn components(s: Seq<char>) -> Seq<Seq<char>> {
    let raw = split_seq(s, Sep::Char('/'));
    let head = raw[0];
    let lead: Seq<Seq<char>> = if head.len() == 0 {
        if s.len() > 0 {
            seq![seq!['/']]
        } else {
            seq![]
        }
    } else {
        seq![head]
    };
    lead + kept_segments(raw.drop_first())
}

/// `path` lies at or under `base`, compared by component as
/// `Path::starts_with` does.
pub open spec fn path_starts_with(path: Seq<char>, base: Seq<char>) -> bool {
    let a = components(path);
    let b = components(base);
    b.len() <= a.len() && a.subrange(0, b.len() as int) == b
}

pub proof fn lemma_split_nonempty(s: Seq<char>, sep: Sep)
    ensures
        split_seq(s, sep).len() >= 1,
{
    crate::text::lemma_next_sep(s, sep, 0);
}

/// A plain name: one non-empty path segment, neither `.` nor `..`.
pub open spec fn is_plain_name(b: Seq<char>) -> bool {
    &&& b.len() > 0
    &&& b != seq!['.']
    &&& b != seq!['.', '.']
    &&& forall|t: int| 0 <= t < b.len() ==> b[t] != '/'
}

proof fn lemma_next_sep_append(a: Seq<char>, b: Seq<char>, i: int)
    requires
        0 <= i <= a.len(),
    ensures
        crate::text::next_sep(a + seq!['/'] + b, Sep::Char('/'), i) == crate::text::next_sep(
            a,
            Sep::Char('/'),
            i,
        ),
    decreases a.len() - i,
{
    let x = a + seq!['/'] + b;
    if i < a.len() {
        assert(x[i] == a[i]);
        lemma_next_sep_append(a, b, i + 1);
    } else {
        assert(x[i] == '/');
    }
}

proof fn lemma_pieces_append(a: Seq<char>, b: Seq<char>, i: int)
    requires
        0 <= i <= a.len(),
        forall|t: int| 0 <= t < b.len() ==> b[t] != '/',
    ensures
        crate::text::pieces_from(a + seq!['/'] + b, Sep::Char('/'), i) == crate::text::pieces_from(
            a,
            Sep::Char('/'),
            i,
        ) + seq![b],
    decreases a.len() - i,
{
    let sep = Sep::Char('/');
    let x = a + seq!['/'] + b;
    lemma_next_sep_append(a, b, i);
    crate::text::lemma_next_sep(a, sep, i);
    let k = crate::text::next_sep(a, sep, i);
    assert(x.subrange(i, k) =~= a.subrange(i, k));
    assert(crate::text::pieces_from(x, sep, i) == seq![x.subrange(i, k)] + crate::text::pieces_from(
        x,
        sep,
        k + 1,
    ));
    if k < a.len() {
        lemma_pieces_append(a, b, k + 1);
        assert(crate::text::pieces_from(a, sep, i) == seq![a.subrange(i, k)] + crate::text::pieces_from(
            a,
            sep,
            k + 1,
        ));
        assert(seq![a.subrange(i, k)] + (crate::text::pieces_from(a, sep, k + 1) + seq![b]) =~= (
        seq![a.subrange(i, k)] + crate::text::pieces_from(a, sep, k + 1)) + seq![b]);
    } else {
        let j: int = a.len() as int + 1;
        crate::text::lemma_next_sep(x, sep, j);
        let r = crate::text::next_sep(x, sep, j);
        if r < x.len() {
            assert(x[r] == b[r - j]);
        }
        assert(r == x.len());
        assert(x.subrange(j, x.len() as int) =~= b);
        assert(crate::text::pieces_from(x, sep, j) == seq![b]);
        assert(crate::text::pieces_from(a, sep, i) == seq![a.subrange(i, k)]);
    }
}

/// Splitting `a`, a `/` and a piece `b` free of `/` gives the pieces of `a`,
/// then `b`.
proof fn lemma_split_append(a: Seq<char>, b: Seq<char>)
    requires
        forall|t: int| 0 <= t < b.len() ==> b[t] != '/',
    ensures
        split_seq(a + seq!['/'] + b, Sep::Char('/')) == split_seq(a, Sep::Char('/')) + seq![b],
{
    lemma_pieces_append(a, b, 0);
}

/// Joining a plain name onto a path adds exactly that component.
pub proof fn lemma_components_join(a: Seq<char>, b: Seq<char>)
    requires
        is_plain_name(b),
    ensures
        components(crate::text::path_join_seq(a, b)) == components(a).push(b),
{
    let sep = Sep::Char('/');
    let x = crate::text::path_join_seq(a, b);
    if a.len() == 0 {
        assert(x == b);
        crate::text::lemma_next_sep(b, sep, 0);
        if crate::text::next_sep(b, sep, 0) < b.len() {
            assert(b[crate::text::next_sep(b, sep, 0)] != '/');
        }
        assert(b.subrange(0, b.len() as int) =~= b);
        assert(split_seq(b, sep) =~= seq![b]);
        crate::text::lemma_next_sep(a, sep, 0);
        assert(split_seq(a, sep) =~= seq![a.subrange(0, 0)]);
        assert(split_seq(b, sep).drop_first() =~= Seq::<Seq<char>>::empty());
        assert(split_seq(a, sep).drop_first() =~= Seq::<Seq<char>>::empty());
        assert(components(a) =~= Seq::<Seq<char>>::empty());
        assert(components(x) =~= seq![b]);
    } else {
        let a0 = if a.last() == '/' { a.drop_last() } else { a };
        let tail: Seq<Seq<char>> = if a.last() == '/' { seq![seq![]] } else { seq![] };
        let e: Seq<char> = seq![];
        assert(x =~= a0 + seq!['/'] + b);
        lemma_split_append(a0, b);
        lemma_split_nonempty(a0, sep);
        let s0 = split_seq(a0, sep);
        if a.last() == '/' {
            assert(a =~= a0 + seq!['/'] + e);
            lemma_split_append(a0, e);
        }
        assert(split_seq(a, sep) == s0 + tail);
        assert(split_seq(x, sep) == s0 + seq![b]);
        assert((s0 + tail)[0] == s0[0]);
        assert((s0 + seq![b])[0] == s0[0]);
        let d = s0.drop_first();
        assert((s0 + seq![b]).drop_first() =~= d + seq![b]);
        assert((d + seq![b]).drop_last() =~= d);
        assert(kept_segments(d + seq![b]) == kept_segments(d).push(b));
        if a.last() == '/' {
            assert((s0 + tail).drop_first() =~= d + tail);
            assert((d + tail).drop_last() =~= d);
            assert(kept_segments(d + tail) == kept_segments(d));
        } else {
            assert((s0 + tail) =~= s0);
        }
        assert(components(x) =~= components(a).push(b));
    }
}

pub fn components_of(s: &[char]) -> (r: Vec<Vec<char>>)
    ensures
        r@.len() == components(s@).len(),
        forall|t: int| 0 <= t < r@.len() ==> #[trigger] r@[t]@ == components(s@)[t],
{
    let raw = split_at_sep(s, Sep::Char('/'));
    let ghost rs = split_seq(s@, Sep::Char('/'));
    proof {
        lemma_split_nonempty(s@, Sep::Char('/'));
    }
    let mut out: Vec<Vec<char>> = Vec::new();
    let ghost lead: Seq<Seq<char>>;
    if raw[0].len() == 0 {
        if s.len() > 0 {
            out.push(chars_of("/"));
            proof {
                reveal_strlit("/");
                lead = seq![seq!['/']];
            }
        } else {
            proof {
                lead = seq![];
            }
        }
    } else {
        out.push(slice_of(raw[0].as_slice(), 0, raw[0].len()));
        proof {
            lead = seq![rs[0]];
            assert(out@[0]@ =~= rs[0]);
        }
    }
    assert(forall|t: int| 0 <= t < out@.len() ==> #[trigger] out@[t]@ == lead[t]);
    let ghost rest = rs.drop_first();
    let mut i: usize = 1;
    while i < raw.len()
        invariant
            1 <= i <= raw@.len(),
            raw@.len() == rs.len(),
            rs == split_seq(s@, Sep::Char('/')),
            rest == rs.drop_first(),
            forall|t: int| 0 <= t < raw@.len() ==> #[trigger] raw@[t]@ == rs[t],
            out@.len() == (lead + kept_segments(rest.take(i - 1))).len(),
            forall|t: int|
                0 <= t < out@.len() ==> #[trigger] out@[t]@ == (lead + kept_segments(
                    rest.take(i - 1),
                ))[t],
        decreases raw.len() - i,
    {
        let p = &raw[i];
        let ghost before = out@;
        proof {
            assert(rest.take(i as int).drop_last() =~= rest.take(i - 1));
            assert(rest.take(i as int).last() == rs[i as int]);
        }
        let is_dot = p.len() == 1 && p[0] == '.';
        if p.len() > 0 && !is_dot {
            out.push(slice_of(p.as_slice(), 0, p.len()));
            proof {
                assert(p@ != seq!['.']);
                assert(out@[out@.len() - 1]@ =~= rs[i as int]);
                assert(lead + kept_segments(rest.take(i as int)) =~= (lead + kept_segments(
                    rest.take(i - 1),
                )).push(rs[i as int]));
            }
        } else {
            proof {
                if p.len() == 1 {
                    assert(p@ =~= seq!['.']);
                }
                assert(lead + kept_segments(rest.take(i as int)) =~= lead + kept_segments(
                    rest.take(i - 1),
                ));
            }
        }
        i = i + 1;
    }
    assert(rest.take(raw@.len() - 1) =~= rest);
    out
}

/// Does `path` lie at or under `base`, by component?
pub fn path_under(path: &str, base: &str) -> (b: bool)
    ensures
        b == path_starts_with(path@, base@),
{
    let pv = chars_of(path);
    let bv = chars_of(base);
    let a = components_of(pv.as_slice());
    let b = components_of(bv.as_slice());
    if b.len() > a.len() {
        return false;
    }
    let mut i: usize = 0;
    while i < b.len()
        invariant
            i <= b@.len() <= a@.len(),
            a@.len() == components(path@).len(),
            b@.len() == components(base@).len(),
            forall|t: int| 0 <= t < a@.len() ==> #[trigger] a@[t]@ == components(path@)[t],
            forall|t: int| 0 <= t < b@.len() ==> #[trigger] b@[t]@ == components(base@)[t],
            forall|t: int| 0 <= t < i ==> components(path@)[t] == components(base@)[t],
        decreases b.len() - i,
    {
        if !chars_eq(a[i].as_slice(), b[i].as_slice()) {
            assert(components(path@).subrange(0, b@.len() as int)[i as int] != components(
                base@,
            )[i as int]);
            return false;
        }
        i = i + 1;
    }
    assert(components(path@).subrange(0, b@.len() as int) =~= components(base@));
    true
}

/// The last component of a path when it names something: not the root,
/// not `.` or `..` (as `Path::file_name`).
pub open spec fn file_name(s: Seq<char>) -> Option<Seq<char>> {
    let c = components(s);
    if c.len() == 0 {
        None
    } else {
        let l = c.last();
        if l == seq!['/'] || l == seq!['.'] || l == seq!['.', '.'] {
            None
        } else {
            Some(l)
        }
    }
}

/// [`file_name`], computed.
pub fn file_name_of(s: &str) -> (r: Option<Vec<char>>)
    ensures
        r matches Some(n) ==> file_name(s@) == Some(n@),
        r is None ==> file_name(s@) is None,
{
    let sv = chars_of(s);
    let c = components_of(sv.as_slice());
    if c.len() == 0 {
        return None;
    }
    let l = &c[c.len() - 1];
    assert(l@ == components(s@).last());
    let is_root = l.len() == 1 && l[0] == '/';
    let is_cur = l.len() == 1 && l[0] == '.';
    let is_parent = l.len() == 2 && l[0] == '.' && l[1] == '.';
    proof {
        if l.len() == 1 {
            assert(l@ == seq![l@[0]]);
        }
        if l.len() == 2 {
            assert(l@ == seq![l@[0], l@[1]]);
        }
    }
    if is_root || is_cur || is_parent {
        None
    } else {
        Some(slice_of(l.as_slice(), 0, l.len()))
    }
}

/// Two paths name the same place, by component.
pub open spec fn same_path(a: Seq<char>, b: Seq<char>) -> bool {
    components(a) == components(b)
}

/// [`same_path`], computed.
pub fn path_eq(a: &str, b: &str) -> (r: bool)
    ensures
        r == same_path(a@, b@),
{
    let ab = path_under(a, b);
    let ba = path_under(b, a);
    proof {
        if ab && ba {
            assert(components(a@) =~= components(a@).subrange(0, components(b@).len() as int));
        }
        if components(a@) == components(b@) {
            assert(components(a@).subrange(0, components(b@).len() as int) =~= components(b@));
        }
    }
    ab && ba
}

} // verus!
