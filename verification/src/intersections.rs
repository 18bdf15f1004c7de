//! Intersections: a root `t` paired with the shape it was found on,
//! hit selection, and the sorting of intersection lists.
//!
//! A shape is named by its index in the scene's shape list: distinct
//! shapes of equal value stay distinct, as the refractive-index walk
//! requires.

use vstd::prelude::*;
use crate::scalar::Scalar;
use vstd::multiset::Multiset;

verus! {

/// A root along a ray, on the shape with the given index.
#[derive(Debug, Clone, Copy, PartialEq, Eq, Structural)]
pub struct Intersection {
    pub t: Scalar,
    pub object: usize,
}

impl Intersection {
    /// An intersection from its root and shape index.
    pub fn new(t: Scalar, object: usize) -> (r: Intersection)
        ensures
            r == (Intersection { t, object }),
    {
        Intersection { t, object }
    }
}

/// Whether the roots come in ascending order.
pub open spec fn sorted_by_t(s: Seq<Intersection>) -> bool {
    forall|i: int, j: int| 0 <= i < j < s.len() ==> s[i].t@ <= s[j].t@
}

/// `x` placed into the sorted list `s`, after any equal roots.
pub open spec fn insert_sorted(s: Seq<Intersection>, x: Intersection) -> Seq<Intersection>
    decreases s.len(),
{
    if s.len() == 0 {
        seq![x]
    } else if x.t@ < s.last().t@ {
        insert_sorted(s.drop_last(), x).push(s.last())
    } else {
        s.push(x)
    }
}

/// The list sorted by ascending root, stably: insertion one by one.
pub open spec fn sort_spec(s: Seq<Intersection>) -> Seq<Intersection>
    decreases s.len(),
{
    if s.len() == 0 {
        Seq::<Intersection>::empty()
    } else {
        insert_sorted(sort_spec(s.drop_last()), s.last())
    }
}

/// Where the insertion lands: before everything strictly greater and
/// after everything else.
pub proof fn lemma_insert_sorted_at(s: Seq<Intersection>, x: Intersection, p: int)
    requires
        sorted_by_t(s),
        0 <= p <= s.len(),
        p == 0 || s[p - 1].t@ <= x.t@,
        forall|q: int| p <= q < s.len() ==> x.t@ < s[q].t@,
    ensures
        insert_sorted(s, x) == s.subrange(0, p) + seq![x] + s.subrange(p, s.len() as int),
    decreases s.len(),
{
    if s.len() == 0 {
        assert(insert_sorted(s, x) =~= s.subrange(0, p) + seq![x] + s.subrange(p, s.len() as int));
    } else if x.t@ < s.last().t@ {
        assert(p < s.len());
        lemma_insert_sorted_at(s.drop_last(), x, p);
        assert(insert_sorted(s, x) =~= s.subrange(0, p) + seq![x] + s.subrange(p, s.len() as int));
    } else {
        assert(p == s.len());
        assert(insert_sorted(s, x) =~= s.subrange(0, p) + seq![x] + s.subrange(p, s.len() as int));
    }
}

/// Inserting keeps the list sorted.
pub proof fn lemma_insert_sorted_sorted(s: Seq<Intersection>, x: Intersection)
    requires
        sorted_by_t(s),
    ensures
        sorted_by_t(insert_sorted(s, x)),
    decreases s.len(),
{
    broadcast use vstd::seq_lib::group_to_multiset_ensures;
    if s.len() > 0 && x.t@ < s.last().t@ {
        lemma_insert_sorted_sorted(s.drop_last(), x);
        lemma_insert_sorted_multiset(s.drop_last(), x);
        let r = insert_sorted(s.drop_last(), x);
        let res = r.push(s.last());
        assert forall|i: int| 0 <= i < r.len() implies r[i].t@ <= s.last().t@ by {
            assert(r.contains(r[i]));
            assert(r.to_multiset().count(r[i]) > 0);
            if r[i] != x {
                assert(r.to_multiset() == s.drop_last().to_multiset().insert(x));
                assert(s.drop_last().to_multiset().count(r[i]) > 0);
                assert(s.drop_last().contains(r[i]));
                let k = choose|k: int|
                    0 <= k < s.drop_last().len() && s.drop_last()[k] == r[i];
                assert(s.drop_last()[k] == s[k]);
                assert(s[k].t@ <= s.last().t@);
            }
        }
        assert forall|i: int, j: int| 0 <= i < j < res.len() implies res[i].t@ <= res[j].t@ by {
            if j == res.len() - 1 {
                assert(res[i] == r[i]);
                assert(res[j] == s.last());
            } else {
                assert(res[i] == r[i] && res[j] == r[j]);
            }
        }
    } else if s.len() > 0 {
        let res = s.push(x);
        assert forall|i: int, j: int| 0 <= i < j < res.len() implies res[i].t@ <= res[j].t@ by {
            if j == res.len() - 1 {
                assert(res[i] == s[i]);
                assert(s[i].t@ <= s.last().t@);
            } else {
                assert(res[i] == s[i] && res[j] == s[j]);
            }
        }
    }
}

/// Inserting adds exactly one occurrence of the new element.
pub proof fn lemma_insert_sorted_multiset(s: Seq<Intersection>, x: Intersection)
    ensures
        insert_sorted(s, x).to_multiset() == s.to_multiset().insert(x),
        insert_sorted(s, x).len() == s.len() + 1,
    decreases s.len(),
{
    broadcast use vstd::seq_lib::group_seq_properties;
    if s.len() == 0 {
        assert(insert_sorted(s, x) =~= seq![x]);
        assert(seq![x].to_multiset() =~= s.to_multiset().insert(x)) by {
            assert(s.to_multiset() =~= Multiset::<Intersection>::empty());
            vstd::seq_lib::lemma_multiset_commutative(seq![x], Seq::<Intersection>::empty());
        }
    } else if x.t@ < s.last().t@ {
        lemma_insert_sorted_multiset(s.drop_last(), x);
        let r = insert_sorted(s.drop_last(), x);
        assert(r.push(s.last()).to_multiset() =~= r.to_multiset().insert(s.last()));
        assert(s.drop_last().push(s.last()) =~= s);
        assert(s.to_multiset() =~= s.drop_last().to_multiset().insert(s.last()));
        assert(r.to_multiset().insert(s.last()) =~= s.drop_last().to_multiset().insert(x).insert(
            s.last(),
        ));
        assert(s.drop_last().to_multiset().insert(x).insert(s.last()) =~= s.drop_last().to_multiset()
            .insert(s.last()).insert(x));
    } else {
        assert(s.push(x).to_multiset() =~= s.to_multiset().insert(x));
    }
}

/// Sorting keeps exactly the same intersections.
pub proof fn lemma_sort_spec_properties(s: Seq<Intersection>)
    ensures
        sorted_by_t(sort_spec(s)),
        sort_spec(s).to_multiset() == s.to_multiset(),
        sort_spec(s).len() == s.len(),
    decreases s.len(),
{
    broadcast use vstd::seq_lib::group_seq_properties;
    if s.len() > 0 {
        lemma_sort_spec_properties(s.drop_last());
        lemma_insert_sorted_sorted(sort_spec(s.drop_last()), s.last());
        lemma_insert_sorted_multiset(sort_spec(s.drop_last()), s.last());
        assert(s.drop_last().push(s.last()) =~= s);
        assert(s.to_multiset() =~= s.drop_last().to_multiset().insert(s.last()));
    }
}

/// The input list sorted by ascending root, stably.
pub fn sort_by_t(v: &Vec<Intersection>) -> (r: Vec<Intersection>)
    ensures
        r@ == sort_spec(v@),
        sorted_by_t(r@),
        r@.to_multiset() == v@.to_multiset(),
        r@.len() == v@.len(),
{
    let mut out: Vec<Intersection> = Vec::new();
    let mut i: usize = 0;
    proof {
        assert(v@.subrange(0, 0) =~= Seq::<Intersection>::empty());
    }
    while i < v.len()
        invariant
            i <= v@.len(),
            out@ == sort_spec(v@.subrange(0, i as int)),
            sorted_by_t(out@),
            out@.len() == i,
        decreases v@.len() - i,
    {
        let x = v[i];
        let mut p: usize = out.len();
        while p > 0 && x.t.lt(out[p - 1].t)
            invariant
                p <= out@.len(),
                sorted_by_t(out@),
                forall|q: int| p <= q < out@.len() ==> x.t@ < out@[q].t@,
            decreases p,
        {
            p = p - 1;
        }
        proof {
            lemma_insert_sorted_at(out@, x, p as int);
        }
        out.insert(p, x);
        proof {
            assert(out@ =~= sort_spec(v@.subrange(0, i as int)).subrange(
                0,
                p as int,
            ) + seq![x] + sort_spec(v@.subrange(0, i as int)).subrange(
                p as int,
                sort_spec(v@.subrange(0, i as int)).len() as int,
            ));
            assert(v@.subrange(0, i + 1 as int).drop_last() =~= v@.subrange(0, i as int));
            assert(v@.subrange(0, i + 1 as int).last() == x);
            lemma_insert_sorted_sorted(sort_spec(v@.subrange(0, i as int)), x);
        }
        i = i + 1;
    }
    proof {
        assert(v@.subrange(0, v@.len() as int) =~= v@);
        lemma_sort_spec_properties(v@);
    }
    out
}

/// The hit of a list: the intersection with the least nonnegative
/// root, or none when every root is negative.  Among equal roots the
/// earliest in the list wins.
pub open spec fn hit_spec(s: Seq<Intersection>) -> Option<Intersection>
    decreases s.len(),
{
    if s.len() == 0 {
        None
    } else {
        let r = hit_spec(s.drop_last());
        let x = s.last();
        if x.t@ >= 0 && (r is None || x.t@ < r.unwrap().t@) {
            Some(x)
        } else {
            r
        }
    }
}

/// The hit is an element with the least nonnegative root; there is
/// none exactly when every root is negative.
pub proof fn lemma_hit_properties(s: Seq<Intersection>)
    ensures
        match hit_spec(s) {
            Some(h) => {
                &&& exists|k: int| 0 <= k < s.len() && s[k] == h
                &&& h.t@ >= 0
                &&& forall|k: int| 0 <= k < s.len() && s[k].t@ >= 0 ==> h.t@ <= s[k].t@
            },
            None => forall|k: int| 0 <= k < s.len() ==> s[k].t@ < 0,
        },
    decreases s.len(),
{
    if s.len() > 0 {
        lemma_hit_properties(s.drop_last());
        assert(forall|k: int| 0 <= k < s.len() - 1 ==> s[k] == s.drop_last()[k]);
        match hit_spec(s) {
            Some(h) => {
                if s.last().t@ >= 0 && (hit_spec(s.drop_last()) is None || s.last().t@ < hit_spec(
                    s.drop_last(),
                ).unwrap().t@) {
                    assert(s[s.len() - 1] == h);
                } else {
                    let k = choose|k: int| 0 <= k < s.len() - 1 && s.drop_last()[k] == h;
                    assert(s[k] == h);
                }
            },
            None => {},
        }
    }
}

/// The hit: the intersection with the least nonnegative root, or none
/// when every root is negative.
pub fn hit(intersections: &Vec<Intersection>) -> (r: Option<Intersection>)
    ensures
        r == hit_spec(intersections@),
{
    let mut best: Option<Intersection> = None;
    let mut i: usize = 0;
    proof {
        assert(intersections@.subrange(0, 0) =~= Seq::<Intersection>::empty());
    }
    while i < intersections.len()
        invariant
            i <= intersections@.len(),
            best == hit_spec(intersections@.subrange(0, i as int)),
        decreases intersections@.len() - i,
    {
        let x = intersections[i];
        if x.t.ge(Scalar::zero()) {
            match best {
                Some(h) => {
                    if x.t.lt(h.t) {
                        best = Some(x);
                    }
                },
                None => {
                    best = Some(x);
                },
            }
        }
        proof {
            assert(intersections@.subrange(0, i + 1).drop_last() =~= intersections@.subrange(
                0,
                i as int,
            ));
            assert(intersections@.subrange(0, i + 1).last() == x);
        }
        i = i + 1;
    }
    proof {
        assert(intersections@.subrange(0, intersections@.len() as int) =~= intersections@);
    }
    best
}

} // verus!
