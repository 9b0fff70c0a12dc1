//! The order of texts: `String`'s `Ord` compares UTF-8 bytes, which orders
//! texts lexicographically by code point.

use vstd::prelude::*;

verus! {

/// Lexicographic order by code point: negative, zero or positive.
pub open spec fn lex_order(a: Seq<char>, b: Seq<char>) -> int
    decreases a.len(),
{
    if a.len() == 0 {
        if b.len() == 0 {
            0
        } else {
            -1
        }
    } else if b.len() == 0 {
        1
    } else if (a[0] as int) < (b[0] as int) {
        -1
    } else if (a[0] as int) > (b[0] as int) {
        1
    } else {
        lex_order(a.drop_first(), b.drop_first())
    }
}

pub proof fn lemma_lex_range(a: Seq<char>, b: Seq<char>)
    ensures
        -1 <= lex_order(a, b) <= 1,
    decreases a.len(),
{
    if a.len() > 0 && b.len() > 0 && a[0] == b[0] {
        lemma_lex_range(a.drop_first(), b.drop_first());
    }
}

pub proof fn lemma_lex_antisym(a: Seq<char>, b: Seq<char>)
    ensures
        lex_order(a, b) == -lex_order(b, a),
    decreases a.len(),
{
    if a.len() > 0 && b.len() > 0 && (a[0] as int) == (b[0] as int) {
        lemma_lex_antisym(a.drop_first(), b.drop_first());
    }
}

pub proof fn lemma_lex_zero(a: Seq<char>, b: Seq<char>)
    ensures
        lex_order(a, b) == 0 <==> a == b,
    decreases a.len(),
{
    if a.len() == 0 || b.len() == 0 {
        if a.len() == 0 && b.len() == 0 {
            assert(a =~= b);
        }
    } else if (a[0] as int) == (b[0] as int) {
        assert(a[0] == b[0]);
        lemma_lex_zero(a.drop_first(), b.drop_first());
        if lex_order(a, b) == 0 {
            assert(a =~= seq![a[0]] + a.drop_first());
            assert(b =~= seq![b[0]] + b.drop_first());
        }
        if a == b {
            assert(a.drop_first() == b.drop_first());
        }
    } else {
        if a == b {
            assert(a[0] == b[0]);
        }
    }
}

pub proof fn lemma_lex_trans(a: Seq<char>, b: Seq<char>, c: Seq<char>)
    requires
        lex_order(a, b) <= 0,
        lex_order(b, c) <= 0,
    ensures
        lex_order(a, c) <= 0,
        (lex_order(a, b) < 0 || lex_order(b, c) < 0) ==> lex_order(a, c) < 0,
    decreases a.len(),
{
    if a.len() > 0 && b.len() > 0 && c.len() > 0 && (a[0] as int) == (b[0] as int) && (b[0] as int)
        == (c[0] as int) {
        lemma_lex_trans(a.drop_first(), b.drop_first(), c.drop_first());
    }
}

/// Compares two texts: -1, 0 or 1.
pub fn lex_compare(a: &[char], b: &[char]) -> (r: i8)
    ensures
        r as int == lex_order(a@, b@),
{
    let mut i: usize = 0;
    assert(a@.skip(0) =~= a@);
    assert(b@.skip(0) =~= b@);
    while i < a.len() && i < b.len() && a[i] == b[i]
        invariant
            i <= a.len(),
            i <= b.len(),
            lex_order(a@.skip(i as int), b@.skip(i as int)) == lex_order(a@, b@),
        decreases a.len() - i,
    {
        proof {
            assert(a@.skip(i as int)[0] == a@[i as int]);
            assert(a@.skip(i as int).drop_first() =~= a@.skip(i + 1));
            assert(b@.skip(i as int).drop_first() =~= b@.skip(i + 1));
        }
        i = i + 1;
    }
    let ghost sa = a@.skip(i as int);
    let ghost sb = b@.skip(i as int);
    assert(sa.len() == a.len() - i);
    assert(sb.len() == b.len() - i);
    assert(i < a.len() ==> sa[0] == a@[i as int]);
    assert(i < b.len() ==> sb[0] == b@[i as int]);
    if i == a.len() {
        if i == b.len() {
            0
        } else {
            -1
        }
    } else if i == b.len() {
        1
    } else if a[i] < b[i] {
        -1
    } else {
        1
    }
}

/// Texts in strictly increasing order.
pub open spec fn ascending(v: Seq<Seq<char>>) -> bool {
    forall|i: int, j: int| 0 <= i < j < v.len() ==> lex_order(#[trigger] v[i], #[trigger] v[j]) < 0
}

/// Views of a list of texts.
pub open spec fn text_views(v: Seq<String>) -> Seq<Seq<char>> {
    v.map_values(|x: String| x@)
}

/// Adds a text to an ordered set of texts kept as an increasing list, as
/// `BTreeSet::insert` does.
pub fn insert_sorted_unique(out: &mut Vec<String>, x: String)
    requires
        ascending(text_views(old(out)@)),
    ensures
        ascending(text_views(final(out)@)),
        forall|y: Seq<char>|
            text_views(final(out)@).contains(y) <==> (text_views(old(out)@).contains(y) || y == x@),
{
    let ghost ov = text_views(out@);
    let xc = crate::text::chars_of(x.as_str());
    let mut p: usize = 0;
    while p < out.len() && lex_compare(&crate::text::chars_of(out[p].as_str()), &xc) < 0
        invariant
            p <= out@.len(),
            ov == text_views(out@),
            xc@ == x@,
            forall|k: int| 0 <= k < p ==> lex_order(ov[k], x@) < 0,
        decreases out@.len() - p,
    {
        p = p + 1;
    }
    if p < out.len() && lex_compare(&crate::text::chars_of(out[p].as_str()), &xc) == 0 {
        proof {
            lemma_lex_zero(ov[p as int], x@);
            assert(ov[p as int] == x@);
            assert forall|y: Seq<char>| ov.contains(y) <==> (ov.contains(y) || y == x@) by {
                if y == x@ {
                    assert(ov[p as int] == y);
                }
            }
        }
        return;
    }
    proof {
        if p < ov.len() {
            lemma_lex_range(ov[p as int], x@);
            lemma_lex_antisym(ov[p as int], x@);
        }
    }
    out.insert(p, x);
    proof {
        let nv = text_views(out@);
        assert(nv =~= ov.insert(p as int, x@));
        assert forall|a: int, b: int| 0 <= a < b < nv.len() implies lex_order(#[trigger] nv[a], #[trigger] nv[b]) < 0 by {
            if b < p {
                assert(nv[a] == ov[a] && nv[b] == ov[b]);
            } else if b == p {
                assert(nv[a] == ov[a] && nv[b] == x@);
            } else if a < p {
                assert(nv[a] == ov[a] && nv[b] == ov[b - 1]);
                if b - 1 > a {
                    assert(lex_order(ov[a], ov[b - 1]) < 0);
                }
            } else if a == p {
                assert(nv[a] == x@ && nv[b] == ov[b - 1]);
                if b - 1 > p {
                    assert(lex_order(ov[p as int], ov[b - 1]) < 0);
                    lemma_lex_trans(x@, ov[p as int], ov[b - 1]);
                }
            } else {
                assert(nv[a] == ov[a - 1] && nv[b] == ov[b - 1]);
            }
        }
        assert forall|y: Seq<char>| nv.contains(y) <==> (ov.contains(y) || y == x@) by {
            if nv.contains(y) {
                let k = choose|k: int| 0 <= k < nv.len() && nv[k] == y;
                if k < p {
                    assert(ov[k] == y);
                } else if k > p {
                    assert(ov[k - 1] == y);
                }
            }
            if ov.contains(y) {
                let k = choose|k: int| 0 <= k < ov.len() && ov[k] == y;
                if k < p {
                    assert(nv[k] == y);
                } else {
                    assert(nv[k + 1] == y);
                }
            }
            if y == x@ {
                assert(nv[p as int] == y);
            }
        }
    }
}

/// The distinct texts of a list in increasing order, as collecting them
/// into a `BTreeSet` and back gives them.
pub fn sorted_distinct_texts(v: &Vec<String>) -> (r: Vec<String>)
    ensures
        ascending(text_views(r@)),
        forall|y: Seq<char>| text_views(r@).contains(y) <==> text_views(v@).contains(y),
{
    let mut out: Vec<String> = Vec::new();
    let mut i: usize = 0;
    while i < v.len()
        invariant
            i <= v@.len(),
            ascending(text_views(out@)),
            forall|y: Seq<char>| text_views(out@).contains(y) <==> text_views(v@).take(i as int).contains(y),
        decreases v.len() - i,
    {
        let ghost before = text_views(out@);
        insert_sorted_unique(&mut out, v[i].clone());
        proof {
            let t0 = text_views(v@).take(i as int);
            let t1 = text_views(v@).take(i + 1);
            assert(t1 =~= t0.push(v@[i as int]@));
            assert forall|y: Seq<char>| text_views(out@).contains(y) <==> t1.contains(y) by {
                if t1.contains(y) {
                    let m = choose|m: int| 0 <= m < t1.len() && t1[m] == y;
                    if m < i {
                        assert(t0[m] == y);
                    }
                }
                if t0.contains(y) {
                    let m = choose|m: int| 0 <= m < t0.len() && t0[m] == y;
                    assert(t1[m] == y);
                }
                if y == v@[i as int]@ {
                    assert(t1[i as int] == y);
                }
            }
        }
        i = i + 1;
    }
    assert(text_views(v@).take(v@.len() as int) =~= text_views(v@));
    out
}

} // verus!
