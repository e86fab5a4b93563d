//! Sorting by a total preorder, for the lists the mixer shows in order.

use vstd::prelude::*;

verus! {

/// `le` orders any two values one way or the other, transitively.
pub open spec fn total_preorder<T>(le: spec_fn(T, T) -> bool) -> bool {
    &&& forall|a: T, b: T| #[trigger] le(a, b) || le(b, a)
    &&& forall|a: T, b: T, c: T| #[trigger] le(a, b) && #[trigger] le(b, c) ==> le(a, c)
}

/// Each element is `le` every later one.
pub open spec fn sorted_by_le<T>(s: Seq<T>, le: spec_fn(T, T) -> bool) -> bool {
    forall|i: int, j: int| 0 <= i < j < s.len() ==> le(#[trigger] s[i], #[trigger] s[j])
}

/// `p` maps the positions `0..n` onto themselves, one to one.
pub open spec fn index_permutation(p: Seq<int>, n: nat) -> bool {
    &&& p.len() == n
    &&& forall|j: int| 0 <= j < n ==> 0 <= #[trigger] p[j] < n
    &&& p.no_duplicates()
    &&& forall|k: int| 0 <= k < n ==> p.contains(k)
}

/// `w` holds the elements of `v`, reordered.
pub open spec fn is_permutation<T>(w: Seq<T>, v: Seq<T>) -> bool {
    exists|p: Seq<int>|
        index_permutation(p, v.len()) && w.len() == v.len() && forall|j: int|
            0 <= j < w.len() ==> w[j] == v[#[trigger] p[j]]
}

/// `w` holds the elements of `v`, reordered so that elements that `le`
/// orders both ways keep their order.
pub open spec fn stable_permutation<T>(w: Seq<T>, v: Seq<T>, le: spec_fn(T, T) -> bool) -> bool {
    exists|p: Seq<int>|
        index_permutation(p, v.len()) && w.len() == v.len() && (forall|j: int|
            0 <= j < w.len() ==> w[j] == v[#[trigger] p[j]]) && forall|a: int, b: int|
            0 <= a < b < w.len() && le(#[trigger] w[a], #[trigger] w[b]) && le(w[b], w[a]) ==> p[a] < p[b]
}

/// Sorts `v` by `le`, keeping equal elements in their order.
pub(crate) fn sort_by<T, F: Fn(&T, &T) -> bool>(
    v: Vec<T>,
    le: F,
    Ghost(spec_le): Ghost<spec_fn(T, T) -> bool>,
) -> (w: Vec<T>)
    requires
        forall|a: &T, b: &T| #[trigger] le.requires((a, b)),
        forall|a: &T, b: &T, r: bool| le.ensures((a, b), r) ==> r == spec_le(*a, *b),
        total_preorder(spec_le),
    ensures
        sorted_by_le(w@, spec_le),
        is_permutation(w@, v@),
        stable_permutation(w@, v@, spec_le),
{
    let ghost orig = v@;
    let mut rest = v;
    let mut out: Vec<T> = Vec::new();
    let ghost mut p: Seq<int> = seq![];
    let mut i: usize = 0;
    let n = rest.len();
    while i < n
        invariant
            n == orig.len(),
            i <= n,
            rest@ == orig.skip(i as int),
            out@.len() == i,
            p.len() == i,
            p.no_duplicates(),
            forall|j: int| 0 <= j < i ==> 0 <= #[trigger] p[j] < i,
            forall|k: int| 0 <= k < i ==> p.contains(k),
            forall|j: int| 0 <= j < i ==> out@[j] == orig[#[trigger] p[j]],
            sorted_by_le(out@, spec_le),
            forall|a: int, b: int|
                0 <= a < b < i && spec_le(#[trigger] out@[a], #[trigger] out@[b]) && spec_le(out@[b], out@[a])
                    ==> p[a] < p[b],
            total_preorder(spec_le),
            forall|a: &T, b: &T| #[trigger] le.requires((a, b)),
            forall|a: &T, b: &T, r: bool| le.ensures((a, b), r) ==> r == spec_le(*a, *b),
        decreases n - i,
    {
        assert(rest@[0] == orig[i as int]);
        let x = rest.remove(0);
        assert(rest@ =~= orig.skip(i + 1));
        let mut pos = out.len();
        while pos > 0 && !le(&out[pos - 1], &x)
            invariant
                pos <= out@.len(),
                forall|k: int| pos <= k < out@.len() ==> !spec_le(#[trigger] out@[k], x),
                forall|a: &T, b: &T| #[trigger] le.requires((a, b)),
                forall|a: &T, b: &T, r: bool| le.ensures((a, b), r) ==> r == spec_le(*a, *b),
            decreases pos,
        {
            pos -= 1;
        }
        proof {
            assert forall|k: int| 0 <= k < pos implies spec_le(#[trigger] out@[k], x) by {
                if k < pos - 1 {
                    assert(spec_le(out@[k], out@[pos - 1]));
                }
            }
            assert forall|k: int| pos <= k < out@.len() implies spec_le(x, #[trigger] out@[k]) by {
                assert(spec_le(x, out@[k]) || spec_le(out@[k], x));
            }
        }
        let ghost before = out@;
        out.insert(pos, x);
        proof {
            let q = p.insert(pos as int, i as int);
            assert forall|j: int| 0 <= j <= i implies 0 <= #[trigger] q[j] < i + 1 by {
                if j < pos {
                    assert(q[j] == p[j]);
                } else if j > pos {
                    assert(q[j] == p[j - 1]);
                }
            }
            assert forall|j: int| 0 <= j <= i implies out@[j] == orig[#[trigger] q[j]] by {
                if j < pos {
                    assert(q[j] == p[j]);
                    assert(out@[j] == before[j]);
                } else if j > pos {
                    assert(q[j] == p[j - 1]);
                    assert(out@[j] == before[j - 1]);
                }
            }
            assert forall|k: int| 0 <= k < i + 1 implies q.contains(k) by {
                if k < i {
                    assert(p.contains(k));
                    let j = choose|j: int| 0 <= j < p.len() && p[j] == k;
                    if j < pos {
                        assert(q[j] == k);
                    } else {
                        assert(q[j + 1] == k);
                    }
                } else {
                    assert(q[pos as int] == k);
                }
            }
            assert forall|a: int, b: int| 0 <= a < b < q.len() implies q[a] != q[b] by {
                if a < pos && b < pos {
                    assert(q[a] == p[a] && q[b] == p[b]);
                } else if a < pos && b == pos {
                    assert(q[a] == p[a]);
                } else if a < pos && b > pos {
                    assert(q[a] == p[a] && q[b] == p[b - 1]);
                } else if a == pos {
                    assert(q[b] == p[b - 1]);
                } else {
                    assert(q[a] == p[a - 1] && q[b] == p[b - 1]);
                }
            }
            assert forall|a: int, b: int| 0 <= a < b < out@.len() implies spec_le(
                #[trigger] out@[a],
                #[trigger] out@[b],
            ) by {
                if a < pos && b < pos {
                    assert(out@[a] == before[a] && out@[b] == before[b]);
                } else if a < pos && b == pos {
                    assert(out@[a] == before[a]);
                } else if a < pos && b > pos {
                    assert(out@[a] == before[a] && out@[b] == before[b - 1]);
                } else if a == pos {
                    assert(out@[b] == before[b - 1]);
                } else {
                    assert(out@[a] == before[a - 1] && out@[b] == before[b - 1]);
                }
            }
            assert forall|a: int, b: int|
                0 <= a < b < i + 1 && spec_le(#[trigger] out@[a], #[trigger] out@[b]) && spec_le(
                    out@[b],
                    out@[a],
                ) implies q[a] < q[b] by {
                if a < pos && b < pos {
                    assert(out@[a] == before[a] && out@[b] == before[b]);
                    assert(q[a] == p[a] && q[b] == p[b]);
                } else if a < pos && b == pos {
                    assert(q[a] == p[a]);
                } else if a < pos && b > pos {
                    assert(out@[a] == before[a] && out@[b] == before[b - 1]);
                    assert(q[a] == p[a] && q[b] == p[b - 1]);
                } else if a == pos {
                    assert(out@[b] == before[b - 1]);
                    assert(!spec_le(before[b - 1], x));
                } else {
                    assert(out@[a] == before[a - 1] && out@[b] == before[b - 1]);
                    assert(q[a] == p[a - 1] && q[b] == p[b - 1]);
                }
            }
            p = q;
        }
        i += 1;
    }
    assert(index_permutation(p, orig.len()) && out@.len() == orig.len() && forall|j: int|
        0 <= j < out@.len() ==> out@[j] == orig[#[trigger] p[j]]);
    assert(forall|a: int, b: int|
        0 <= a < b < out@.len() && spec_le(#[trigger] out@[a], #[trigger] out@[b]) && spec_le(out@[b], out@[a])
            ==> p[a] < p[b]);
    out
}

} // verus!
