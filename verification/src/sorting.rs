//! Sorting strings in the order `str`'s `Ord` gives them: character by
//! character by code point, a proper prefix first.
use vstd::prelude::*;
use crate::text::views;

verus! {

broadcast use vstd::seq_lib::group_to_multiset_ensures;

/// `a` comes no later than `b`.
pub open spec fn chars_le(a: Seq<char>, b: Seq<char>) -> bool
    decreases a.len(),
{
    if a.len() == 0 {
        true
    } else if b.len() == 0 {
        false
    } else if a[0] != b[0] {
        a[0] < b[0]
    } else {
        chars_le(a.drop_first(), b.drop_first())
    }
}

/// Each string comes no later than every string after it.
pub open spec fn sorted_strings(s: Seq<Seq<char>>) -> bool {
    forall|i: int, j: int| 0 <= i < j < s.len() ==> chars_le(#[trigger] s[i], #[trigger] s[j])
}

pub proof fn lemma_chars_le_total(a: Seq<char>, b: Seq<char>)
    ensures
        chars_le(a, b) || chars_le(b, a),
    decreases a.len(),
{
    if a.len() > 0 && b.len() > 0 && a[0] == b[0] {
        lemma_chars_le_total(a.drop_first(), b.drop_first());
    }
}

pub proof fn lemma_chars_le_trans(a: Seq<char>, b: Seq<char>, c: Seq<char>)
    requires
        chars_le(a, b),
        chars_le(b, c),
    ensures
        chars_le(a, c),
    decreases a.len(),
{
    if a.len() > 0 && b.len() > 0 && c.len() > 0 && a[0] == b[0] && b[0] == c[0] {
        lemma_chars_le_trans(a.drop_first(), b.drop_first(), c.drop_first());
    }
}

/// Compares two strings in `str` order.
pub fn le_chars(a: &Vec<char>, b: &Vec<char>) -> (r: bool)
    ensures
        r == chars_le(a@, b@),
{
    let mut i: usize = 0;
    assert(a@.skip(0) =~= a@ && b@.skip(0) =~= b@);
    while i < a.len() && i < b.len() && a[i] == b[i]
        invariant
            i <= a.len(),
            i <= b.len(),
            chars_le(a@, b@) == chars_le(a@.skip(i as int), b@.skip(i as int)),
        decreases a.len() - i,
    {
        assert(a@.skip(i as int).drop_first() =~= a@.skip(i + 1));
        assert(b@.skip(i as int).drop_first() =~= b@.skip(i + 1));
        i = i + 1;
    }
    if i == a.len() {
        assert(a@.skip(i as int).len() == 0);
        true
    } else if i == b.len() {
        assert(b@.skip(i as int).len() == 0);
        false
    } else {
        assert(a@.skip(i as int)[0] == a@[i as int]);
        assert(b@.skip(i as int)[0] == b@[i as int]);
        a[i] < b[i]
    }
}

/// The strings sorted in `str` order (`slice::sort` on `String`s).
pub fn sort_strings(v: &Vec<Vec<char>>) -> (r: Vec<Vec<char>>)
    ensures
        sorted_strings(views(r@)),
        views(r@).to_multiset() == views(v@).to_multiset(),
{
    let mut out: Vec<Vec<char>> = Vec::new();
    let mut j: usize = 0;
    assert(views(out@) =~= views(v@).take(0));
    while j < v.len()
        invariant
            j <= v.len(),
            sorted_strings(views(out@)),
            views(out@).to_multiset() == views(v@).take(j as int).to_multiset(),
        decreases v.len() - j,
    {
        let x = v[j].clone();
        let ghost o = views(out@);
        let mut i: usize = 0;
        while i < out.len() && le_chars(&out[i], &x)
            invariant
                o == views(out@),
                i <= out.len(),
                forall|k: int| 0 <= k < i ==> chars_le(#[trigger] o[k], x@),
            decreases out.len() - i,
        {
            assert(o[i as int] == out[i as int]@);
            i = i + 1;
        }
        proof {
            if i < out.len() {
                assert(o[i as int] == out[i as int]@);
                lemma_chars_le_total(o[i as int], x@);
            }
        }
        out.insert(i, x);
        proof {
            let o2 = views(out@);
            assert(o2 =~= o.insert(i as int, x@));
            assert forall|a: int, b: int| 0 <= a < b < o2.len() implies chars_le(
                #[trigger] o2[a],
                #[trigger] o2[b],
            ) by {
                if b < i {
                    assert(o2[a] == o[a] && o2[b] == o[b]);
                } else if b == i {
                    assert(o2[a] == o[a]);
                } else if a == i {
                    assert(o2[b] == o[b - 1]);
                    assert(chars_le(x@, o[i as int]));
                    if b - 1 > i {
                        lemma_chars_le_trans(x@, o[i as int], o[b - 1]);
                    }
                } else if a < i {
                    assert(o2[a] == o[a] && o2[b] == o[b - 1]);
                } else {
                    assert(o2[a] == o[a - 1] && o2[b] == o[b - 1]);
                }
            }
            assert(views(v@).take(j + 1) =~= views(v@).take(j as int).push(x@));
        }
        j = j + 1;
    }
    assert(views(v@).take(v.len() as int) =~= views(v@));
    out
}

} // verus!
