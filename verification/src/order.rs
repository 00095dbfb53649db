//! The order `String` compares in — bytewise, which for UTF-8 is the order
//! of the characters' code points — and sorting lists of strings by it.

use vstd::prelude::*;
use crate::text::strs;

verus! {

/// `a` sorts before `b`, comparing from index `i` on.
pub open spec fn lex_lt_from(a: Seq<char>, b: Seq<char>, i: int) -> bool
    decreases a.len() - i,
{
    if i < 0 || i >= a.len() {
        i >= 0 && i < b.len()
    } else if i >= b.len() {
        false
    } else if a[i] != b[i] {
        (a[i] as int) < (b[i] as int)
    } else {
        lex_lt_from(a, b, i + 1)
    }
}

/// `a` sorts strictly before `b`.
pub open spec fn lex_lt(a: Seq<char>, b: Seq<char>) -> bool {
    lex_lt_from(a, b, 0)
}

pub proof fn lemma_lex_irreflexive(a: Seq<char>, i: int)
    requires
        0 <= i,
    ensures
        !lex_lt_from(a, a, i),
    decreases a.len() - i,
{
    if i < a.len() {
        lemma_lex_irreflexive(a, i + 1);
    }
}

pub proof fn lemma_lex_asymmetric(a: Seq<char>, b: Seq<char>, i: int)
    requires
        0 <= i,
        lex_lt_from(a, b, i),
    ensures
        !lex_lt_from(b, a, i),
    decreases a.len() - i,
{
    if i < a.len() && i < b.len() && a[i] == b[i] {
        lemma_lex_asymmetric(a, b, i + 1);
    }
}

pub proof fn lemma_lex_transitive(a: Seq<char>, b: Seq<char>, c: Seq<char>, i: int)
    requires
        0 <= i,
        lex_lt_from(a, b, i),
        lex_lt_from(b, c, i),
    ensures
        lex_lt_from(a, c, i),
    decreases a.len() - i,
{
    if i < a.len() && i < b.len() && i < c.len() && a[i] == b[i] && b[i] == c[i] {
        lemma_lex_transitive(a, b, c, i + 1);
    }
}

/// Two different sequences that agree before `i` are ordered one way or the
/// other.
pub proof fn lemma_lex_total(a: Seq<char>, b: Seq<char>, i: int)
    requires
        0 <= i <= a.len(),
        i <= b.len(),
        a.subrange(0, i) == b.subrange(0, i),
        a != b,
    ensures
        lex_lt_from(a, b, i) || lex_lt_from(b, a, i),
    decreases a.len() - i,
{
    if i == a.len() && i == b.len() {
        assert(a =~= a.subrange(0, i));
        assert(b =~= b.subrange(0, i));
        assert(a == b);
    } else if i < a.len() && i < b.len() && a[i] != b[i] {
        assert((a[i] as int) != (b[i] as int));
    } else if i < a.len() && i < b.len() && a[i] == b[i] {
        assert(a.subrange(0, i + 1) =~= a.subrange(0, i).push(a[i]));
        assert(b.subrange(0, i + 1) =~= b.subrange(0, i).push(b[i]));
        lemma_lex_total(a, b, i + 1);
    }
}

/// `a` sorts strictly before `b`.
pub fn lex_less(a: &str, b: &str) -> (r: bool)
    ensures
        r == lex_lt(a@, b@),
{
    let av = crate::text::chars_of(a);
    let bv = crate::text::chars_of(b);
    let mut i: usize = 0;
    while i < av.len() && i < bv.len() && av[i] == bv[i]
        invariant
            i <= av.len(),
            i <= bv.len(),
            lex_lt(a@, b@) == lex_lt_from(av@, bv@, i as int),
            av@ == a@,
            bv@ == b@,
        decreases av.len() - i,
    {
        i = i + 1;
    }
    if i < av.len() && i < bv.len() {
        av[i] < bv[i]
    } else {
        i >= av.len() && i < bv.len()
    }
}

/// Ascending (equal neighbours allowed).
pub open spec fn is_sorted(s: Seq<Seq<char>>) -> bool {
    forall|i: int, j: int| 0 <= i < j < s.len() ==> !lex_lt(#[trigger] s[j], #[trigger] s[i])
}

/// Strictly ascending: sorted with nothing repeated.
pub open spec fn is_strictly_sorted(s: Seq<Seq<char>>) -> bool {
    forall|i: int, j: int| 0 <= i < j < s.len() ==> lex_lt(#[trigger] s[i], #[trigger] s[j])
}

proof fn lemma_views_insert(v: Seq<String>, p: int, x: String)
    requires
        0 <= p <= v.len(),
    ensures
        strs(v.insert(p, x)) == strs(v).insert(p, x@),
{
    assert(strs(v.insert(p, x)) =~= strs(v).insert(p, x@));
}

proof fn lemma_views_push(v: Seq<String>, x: String)
    ensures
        strs(v.push(x)) == strs(v).push(x@),
{
    assert(strs(v.push(x)) =~= strs(v).push(x@));
}

/// The first position of the ascending list `out` whose entry `x` sorts
/// strictly before (the length if none).
fn upper_bound(out: &Vec<String>, x: &str) -> (p: usize)
    ensures
        p <= out.len(),
        forall|k: int| 0 <= k < p ==> !lex_lt(x@, #[trigger] strs(out@)[k]),
        p < out.len() ==> lex_lt(x@, strs(out@)[p as int]),
{
    let mut p: usize = 0;
    while p < out.len() && !lex_less(x, out[p].as_str())
        invariant
            p <= out.len(),
            forall|k: int| 0 <= k < p ==> !lex_lt(x@, #[trigger] strs(out@)[k]),
        decreases out.len() - p,
    {
        p = p + 1;
    }
    p
}

/// The first position of the strictly ascending list `out` whose entry does
/// not sort before `x` (the length if none).
fn lower_bound(out: &Vec<String>, x: &str) -> (p: usize)
    ensures
        p <= out.len(),
        forall|k: int| 0 <= k < p ==> lex_lt(#[trigger] strs(out@)[k], x@),
        p < out.len() ==> !lex_lt(strs(out@)[p as int], x@),
{
    let mut p: usize = 0;
    while p < out.len() && lex_less(out[p].as_str(), x)
        invariant
            p <= out.len(),
            forall|k: int| 0 <= k < p ==> lex_lt(#[trigger] strs(out@)[k], x@),
        decreases out.len() - p,
    {
        p = p + 1;
    }
    p
}

/// The strings of `v` in ascending order, equal strings kept (what
/// `Vec::sort` leaves for `String`).
pub fn sorted(v: &Vec<String>) -> (r: Vec<String>)
    ensures
        is_sorted(strs(r@)),
        strs(r@).to_multiset() == strs(v@).to_multiset(),
        r@.len() == v@.len(),
{
    broadcast use vstd::seq_lib::group_to_multiset_ensures;
    let mut out: Vec<String> = Vec::new();
    let mut i: usize = 0;
    while i < v.len()
        invariant
            i <= v.len(),
            is_sorted(strs(out@)),
            strs(out@).to_multiset() == strs(v@.take(i as int)).to_multiset(),
            out@.len() == i,
        decreases v.len() - i,
    {
        let x = v[i].clone();
        let p = upper_bound(&out, x.as_str());
        let ghost before = strs(out@);
        proof {
            lemma_views_insert(out@, p as int, x);
            assert(v@.take(i + 1) =~= v@.take(i as int).push(v@[i as int]));
            lemma_views_push(v@.take(i as int), v@[i as int]);
            assert(strs(v@.take(i as int)).push(x@) =~= strs(v@.take(i as int)).insert(
                i as int,
                x@,
            ));
        }
        out.insert(p, x);
        proof {
            let s = strs(out@);
            assert(s =~= before.insert(p as int, x@));
            let t0 = strs(v@.take(i as int));
            assert(strs(v@.take(i + 1)) == t0.push(x@));
            assert(t0.push(x@) == t0.insert(i as int, x@));
            vstd::seq_lib::to_multiset_insert(t0, i as int, x@);
            vstd::seq_lib::to_multiset_insert(before, p as int, x@);
            assert forall|a: int, b: int| 0 <= a < b < s.len() implies !lex_lt(
                #[trigger] s[b],
                #[trigger] s[a],
            ) by {
                if b < p {
                    assert(s[a] == before[a] && s[b] == before[b]);
                } else if b == p {
                    assert(s[a] == before[a]);
                } else if a == p {
                    // x sorts before before[p] <= before[b - 1]
                    let y = before[p as int];
                    let z = before[b - 1];
                    assert(lex_lt(x@, y));
                    if lex_lt(z, x@) {
                        lemma_lex_transitive(z, x@, y, 0);
                        if b - 1 > p {
                            assert(!lex_lt(before[b - 1], before[p as int]));
                        } else {
                            lemma_lex_irreflexive(y, 0);
                        }
                    }
                } else if a < p {
                    assert(s[a] == before[a] && s[b] == before[b - 1]);
                } else {
                    assert(s[a] == before[a - 1] && s[b] == before[b - 1]);
                }
            }
        }
        i = i + 1;
    }
    assert(v@.take(v.len() as int) =~= v@);
    out
}

/// The strings of `v` in ascending order with every string once (what
/// `sort` then `dedup` leave).
pub fn sorted_unique(v: &Vec<String>) -> (r: Vec<String>)
    ensures
        is_strictly_sorted(strs(r@)),
        strs(r@).to_set() == strs(v@).to_set(),
{
    let mut out: Vec<String> = Vec::new();
    let mut i: usize = 0;
    while i < v.len()
        invariant
            i <= v.len(),
            is_strictly_sorted(strs(out@)),
            strs(out@).to_set() == strs(v@.take(i as int)).to_set(),
        decreases v.len() - i,
    {
        let x = v[i].clone();
        let p = lower_bound(&out, x.as_str());
        let ghost before = strs(out@);
        proof {
            assert(v@.take(i + 1) =~= v@.take(i as int).push(v@[i as int]));
            lemma_views_push(v@.take(i as int), v@[i as int]);
        }
        if p < out.len() && crate::text::str_eq(out[p].as_str(), x.as_str()) {
            proof {
                let t0 = strs(v@.take(i as int));
                let t1 = strs(v@.take(i + 1));
                assert(t1 == t0.push(x@));
                assert(before[p as int] == x@);
                assert forall|e: Seq<char>| before.to_set().contains(e) <==> t1.to_set().contains(
                    e,
                ) by {
                    assert(before.to_set().contains(e) <==> t0.to_set().contains(e));
                    if t1.contains(e) {
                        let k = choose|k: int| 0 <= k < t1.len() && t1[k] == e;
                        if k < i {
                            assert(t0[k] == e);
                        } else {
                            assert(before.contains(e));
                        }
                    }
                    if t0.contains(e) {
                        let k = choose|k: int| 0 <= k < t0.len() && t0[k] == e;
                        assert(t1[k] == e);
                    }
                }
                assert(strs(out@).to_set() =~= strs(v@.take(i + 1)).to_set());
            }
        } else {
            proof {
                lemma_views_insert(out@, p as int, x);
            }
            out.insert(p, x);
            proof {
                let s = strs(out@);
                assert(s =~= before.insert(p as int, x@));
                if p < before.len() {
                    let y = before[p as int];
                    assert(y != x@);
                    lemma_lex_total_full(y, x@);
                    assert(lex_lt(x@, y));
                }
                assert forall|a: int, b: int| 0 <= a < b < s.len() implies lex_lt(
                    #[trigger] s[a],
                    #[trigger] s[b],
                ) by {
                    if b < p {
                        assert(s[a] == before[a] && s[b] == before[b]);
                    } else if b == p {
                        assert(s[a] == before[a]);
                    } else if a == p {
                        let y = before[p as int];
                        if b - 1 > p {
                            assert(lex_lt(before[p as int], before[b - 1]));
                            lemma_lex_transitive(x@, y, before[b - 1], 0);
                        }
                    } else if a < p {
                        assert(s[a] == before[a] && s[b] == before[b - 1]);
                        if b - 1 == p {
                        } else {
                            assert(lex_lt(before[a], before[b - 1]));
                        }
                    } else {
                        assert(s[a] == before[a - 1] && s[b] == before[b - 1]);
                    }
                }
                let t0 = strs(v@.take(i as int));
                let t1 = strs(v@.take(i + 1));
                assert(t1 == t0.push(x@));
                assert forall|e: Seq<char>| s.to_set().contains(e) <==> t1.to_set().contains(e) by {
                    assert(before.to_set().contains(e) <==> t0.to_set().contains(e));
                    assert(s[p as int] == x@);
                    assert(t1[i as int] == x@);
                    if before.contains(e) {
                        let k = choose|k: int| 0 <= k < before.len() && before[k] == e;
                        if k < p {
                            assert(s[k] == e);
                        } else {
                            assert(s[k + 1] == e);
                        }
                    }
                    if s.contains(e) {
                        let k = choose|k: int| 0 <= k < s.len() && s[k] == e;
                        if k < p {
                            assert(before[k] == e);
                        } else if k > p {
                            assert(before[k - 1] == e);
                        }
                    }
                    if t1.contains(e) {
                        let k = choose|k: int| 0 <= k < t1.len() && t1[k] == e;
                        if k < i {
                            assert(t0[k] == e);
                        }
                    }
                    if t0.contains(e) {
                        let k = choose|k: int| 0 <= k < t0.len() && t0[k] == e;
                        assert(t1[k] == e);
                    }
                }
                assert(s.to_set() =~= strs(v@.take(i + 1)).to_set());
            }
        }
        i = i + 1;
    }
    assert(v@.take(v.len() as int) =~= v@);
    out
}

/// Any two different sequences are ordered one way or the other.
pub proof fn lemma_lex_total_full(a: Seq<char>, b: Seq<char>)
    requires
        a != b,
    ensures
        lex_lt(a, b) || lex_lt(b, a),
{
    assert(a.subrange(0, 0) =~= b.subrange(0, 0));
    lemma_lex_total(a, b, 0);
}

} // verus!
