//! The lexicographic order of strings, and sorting lists of distinct
//! strings by it.

use vstd::prelude::*;
use crate::text::chars_of;

verus! {

/// `a` comes before `b` in lexicographic order of characters (the order of
/// Rust strings, whose byte order agrees with the order of code points).
pub open spec fn text_less(a: Seq<char>, b: Seq<char>) -> bool
    decreases a.len(),
{
    if a.len() == 0 {
        b.len() > 0
    } else if b.len() == 0 {
        false
    } else if a[0] != b[0] {
        a[0] < b[0]
    } else {
        text_less(a.drop_first(), b.drop_first())
    }
}

/// Each element of `s` comes before every later one.
pub open spec fn strictly_sorted(s: Seq<Seq<char>>) -> bool {
    forall|i: int, j: int| 0 <= i < j < s.len() ==> text_less(s[i], s[j])
}

pub proof fn lemma_text_less_total(a: Seq<char>, b: Seq<char>)
    ensures
        a == b || text_less(a, b) || text_less(b, a),
        !(text_less(a, b) && text_less(b, a)),
        !text_less(a, a),
    decreases a.len(),
{
    if a.len() > 0 && b.len() > 0 {
        lemma_text_less_total(a.drop_first(), b.drop_first());
        if a[0] == b[0] && a.drop_first() == b.drop_first() {
            assert(a.len() == b.len());
            assert forall|i: int| 0 <= i < a.len() implies a[i] == b[i] by {
                if i > 0 {
                    assert(a[i] == a.drop_first()[i - 1]);
                    assert(b[i] == b.drop_first()[i - 1]);
                }
            }
            assert(a =~= b);
        }
    }
    if a.len() > 0 {
        lemma_text_less_total(a.drop_first(), a.drop_first());
    }
    if a.len() == 0 && b.len() == 0 {
        assert(a =~= b);
    }
}

pub proof fn lemma_text_less_trans(a: Seq<char>, b: Seq<char>, c: Seq<char>)
    requires
        text_less(a, b),
        text_less(b, c),
    ensures
        text_less(a, c),
    decreases a.len(),
{
    if a.len() > 0 && b.len() > 0 && c.len() > 0 && a[0] == b[0] && b[0] == c[0] {
        lemma_text_less_trans(a.drop_first(), b.drop_first(), c.drop_first());
    }
}

/// Whether `a` comes before `b`.
pub fn text_lt(a: &str, b: &str) -> (r: bool)
    ensures
        r == text_less(a@, b@),
{
    let x = chars_of(a);
    let y = chars_of(b);
    let mut i: usize = 0;
    assert(x@.skip(0) =~= x@);
    assert(y@.skip(0) =~= y@);
    while i < x.len() && i < y.len()
        invariant
            x@ == a@,
            y@ == b@,
            i <= x@.len(),
            i <= y@.len(),
            text_less(a@, b@) == text_less(x@.skip(i as int), y@.skip(i as int)),
        decreases x.len() - i,
    {
        assert(x@.skip(i as int)[0] == x@[i as int]);
        assert(y@.skip(i as int)[0] == y@[i as int]);
        if x[i] != y[i] {
            return x[i] < y[i];
        }
        assert(x@.skip(i as int).drop_first() =~= x@.skip(i + 1));
        assert(y@.skip(i as int).drop_first() =~= y@.skip(i + 1));
        i = i + 1;
    }
    assert(i == x@.len() ==> x@.skip(i as int).len() == 0);
    assert(i == y@.len() ==> y@.skip(i as int).len() == 0);
    i == x.len() && i < y.len()
}

/// The first position of sorted `r` whose name comes after `name`
/// (`r.len()` when there is none).
pub fn insert_position(r: &Vec<String>, name: &str) -> (p: usize)
    requires
        forall|i: int| 0 <= i < r@.len() ==> r@[i]@ != name@,
    ensures
        p <= r@.len(),
        forall|i: int| 0 <= i < p ==> text_less(#[trigger] r@[i]@, name@),
        p < r@.len() ==> text_less(name@, r@[p as int]@),
{
    let mut p: usize = 0;
    while p < r.len()
        invariant
            p <= r@.len(),
            forall|i: int| 0 <= i < p ==> text_less(#[trigger] r@[i]@, name@),
            forall|i: int| 0 <= i < r@.len() ==> r@[i]@ != name@,
        ensures
            p <= r@.len(),
            forall|i: int| 0 <= i < p ==> text_less(#[trigger] r@[i]@, name@),
            p < r@.len() ==> text_less(name@, r@[p as int]@),
        decreases r.len() - p,
    {
        if text_lt(name, r[p].as_str()) {
            break;
        }
        proof {
            lemma_text_less_total(name@, r@[p as int]@);
        }
        p = p + 1;
    }
    p
}

/// `rv` holds exactly the first `n` names of `names`.
pub open spec fn covers(rv: Seq<Seq<char>>, names: Seq<Seq<char>>, n: int) -> bool {
    &&& forall|i: int| 0 <= i < rv.len() ==> exists|k: int| 0 <= k < n && names[k] == #[trigger] rv[i]
    &&& forall|k: int|
        #![trigger names[k]]
        0 <= k < n ==> exists|i: int| 0 <= i < rv.len() && #[trigger] rv[i] == names[k]
}

pub proof fn lemma_insert_sorted(rv: Seq<Seq<char>>, p: int, x: Seq<char>)
    requires
        strictly_sorted(rv),
        0 <= p <= rv.len(),
        forall|i: int| 0 <= i < p ==> text_less(#[trigger] rv[i], x),
        p < rv.len() ==> text_less(x, rv[p]),
    ensures
        strictly_sorted(rv.insert(p, x)),
{
    let sv = rv.insert(p, x);
    assert forall|i: int, j: int| 0 <= i < j < sv.len() implies text_less(sv[i], sv[j]) by {
        if j < p {
            assert(sv[i] == rv[i] && sv[j] == rv[j]);
        } else if j == p {
            assert(sv[i] == rv[i]);
        } else if i == p {
            assert(sv[j] == rv[j - 1]);
            if j - 1 > p {
                lemma_text_less_trans(x, rv[p], rv[j - 1]);
            }
        } else if i < p {
            assert(sv[i] == rv[i] && sv[j] == rv[j - 1]);
        } else {
            assert(sv[i] == rv[i - 1] && sv[j] == rv[j - 1]);
        }
    }
}

pub proof fn lemma_insert_covers(rv: Seq<Seq<char>>, p: int, names: Seq<Seq<char>>, n: int)
    requires
        covers(rv, names, n),
        0 <= p <= rv.len(),
        0 <= n < names.len(),
    ensures
        covers(rv.insert(p, names[n]), names, n + 1),
{
    let sv = rv.insert(p, names[n]);
    assert forall|i: int| 0 <= i < sv.len() implies exists|k: int|
        0 <= k < n + 1 && names[k] == #[trigger] sv[i] by {
        if i < p {
            assert(sv[i] == rv[i]);
            let k = choose|k: int| 0 <= k < n && names[k] == rv[i];
        } else if i == p {
            assert(names[n] == sv[i]);
        } else {
            assert(sv[i] == rv[i - 1]);
            let k = choose|k: int| 0 <= k < n && names[k] == rv[i - 1];
        }
    }
    assert forall|k: int| #![trigger names[k]] 0 <= k < n + 1 implies exists|i: int|
        0 <= i < sv.len() && #[trigger] sv[i] == names[k] by {
        if k == n {
            assert(sv[p] == names[k]);
        } else {
            let i = choose|i: int| 0 <= i < rv.len() && #[trigger] rv[i] == names[k];
            if i < p {
                assert(sv[i] == names[k]);
            } else {
                assert(sv[i + 1] == names[k]);
            }
        }
    }
}

/// `v` in ascending order, for a list of distinct strings (such as the
/// names of a tally).
pub(crate) fn sort_texts(v: &Vec<String>) -> (r: Vec<String>)
    requires
        forall|i: int, j: int| 0 <= i < j < v@.len() ==> v@[i]@ != v@[j]@,
    ensures
        strictly_sorted(r@.map_values(|s: String| s@)),
        covers(r@.map_values(|s: String| s@), v@.map_values(|s: String| s@), v@.len() as int),
{
    let ghost names = v@.map_values(|s: String| s@);
    let mut r: Vec<String> = Vec::new();
    let mut n: usize = 0;
    while n < v.len()
        invariant
            n <= v@.len(),
            names == v@.map_values(|s: String| s@),
            forall|i: int, j: int| 0 <= i < j < v@.len() ==> v@[i]@ != v@[j]@,
            strictly_sorted(r@.map_values(|s: String| s@)),
            covers(r@.map_values(|s: String| s@), names, n as int),
        decreases v.len() - n,
    {
        let name = v[n].clone();
        let ghost x = name@;
        let ghost rv = r@.map_values(|s: String| s@);
        proof {
            assert(x == names[n as int]);
            assert forall|i: int| 0 <= i < r@.len() implies r@[i]@ != x by {
                assert(rv[i] == r@[i]@);
                let k = choose|k: int| 0 <= k < n && names[k] == rv[i];
                assert(v@[k]@ != v@[n as int]@);
            }
        }
        let p = insert_position(&r, name.as_str());
        r.insert(p, name);
        proof {
            assert(r@.map_values(|s: String| s@) =~= rv.insert(p as int, x));
            assert forall|i: int| 0 <= i < p implies text_less(#[trigger] rv[i], x) by {
                assert(rv[i] == r@[i]@);
            }
            lemma_insert_sorted(rv, p as int, x);
            lemma_insert_covers(rv, p as int, names, n as int);
        }
        n = n + 1;
    }
    r
}

/// No element of `s` comes before an earlier one.
pub open spec fn sorted_texts(s: Seq<Seq<char>>) -> bool {
    forall|i: int, j: int| 0 <= i < j < s.len() ==> !text_less(s[j], s[i])
}

/// The views of a list of strings.
pub open spec fn text_views(v: Seq<String>) -> Seq<Seq<char>> {
    v.map_values(|s: String| s@)
}

proof fn lemma_insert_sorted_texts(rv: Seq<Seq<char>>, p: int, x: Seq<char>)
    requires
        sorted_texts(rv),
        0 <= p <= rv.len(),
        forall|i: int| 0 <= i < p ==> !text_less(x, #[trigger] rv[i]),
        p < rv.len() ==> text_less(x, rv[p]),
    ensures
        sorted_texts(rv.insert(p, x)),
{
    let sv = rv.insert(p, x);
    assert forall|i: int, j: int| 0 <= i < j < sv.len() implies !text_less(sv[j], sv[i]) by {
        if j < p {
            assert(sv[i] == rv[i] && sv[j] == rv[j]);
        } else if j == p {
            assert(sv[i] == rv[i]);
        } else if i == p {
            assert(sv[j] == rv[j - 1]);
            lemma_text_less_total(x, rv[p]);
            if text_less(rv[j - 1], x) {
                if j - 1 > p {
                    lemma_text_less_trans(rv[j - 1], x, rv[p]);
                }
            }
        } else if i < p {
            assert(sv[i] == rv[i] && sv[j] == rv[j - 1]);
        } else {
            assert(sv[i] == rv[i - 1] && sv[j] == rv[j - 1]);
        }
    }
}

/// `v` in ascending order; equal strings stay side by side.
pub fn sort_texts_all(v: &Vec<String>) -> (r: Vec<String>)
    ensures
        sorted_texts(text_views(r@)),
        text_views(r@).to_multiset() == text_views(v@).to_multiset(),
{
    broadcast use vstd::seq_lib::group_to_multiset_ensures;

    let mut r: Vec<String> = Vec::new();
    let mut n: usize = 0;
    assert(text_views(v@).take(0) =~= text_views(r@));
    while n < v.len()
        invariant
            n <= v@.len(),
            sorted_texts(text_views(r@)),
            text_views(r@).to_multiset() == text_views(v@).take(n as int).to_multiset(),
        decreases v.len() - n,
    {
        let name = v[n].clone();
        let ghost x = name@;
        let ghost rv = text_views(r@);
        let mut p: usize = 0;
        while p < r.len() && !text_lt(name.as_str(), r[p].as_str())
            invariant
                p <= r@.len(),
                rv == text_views(r@),
                x == name@,
                forall|i: int| 0 <= i < p ==> !text_less(x, #[trigger] rv[i]),
            decreases r.len() - p,
        {
            p = p + 1;
        }
        r.insert(p, name);
        proof {
            assert(text_views(r@) =~= rv.insert(p as int, x));
            lemma_insert_sorted_texts(rv, p as int, x);
            vstd::seq_lib::to_multiset_insert(rv, p as int, x);
            let tv = text_views(v@);
            assert(tv.take(n + 1) =~= tv.take(n as int).push(x));
            vstd::seq_lib::to_multiset_build(tv.take(n as int), x);
            assert(text_views(r@).to_multiset() =~= tv.take(n + 1).to_multiset());
        }
        n = n + 1;
    }
    assert(text_views(v@).take(v@.len() as int) =~= text_views(v@));
    r
}

} // verus!
