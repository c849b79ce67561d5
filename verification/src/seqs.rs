//! Filtering sequences by a predicate, with the facts the selection proofs need.

use vstd::prelude::*;

verus! {

/// The elements of `s` satisfying `p`, in order.
pub open spec fn keep<A>(s: Seq<A>, p: spec_fn(A) -> bool) -> Seq<A>
    decreases s.len(),
{
    if s.len() == 0 {
        Seq::empty()
    } else if p(s.last()) {
        keep(s.drop_last(), p).push(s.last())
    } else {
        keep(s.drop_last(), p)
    }
}

/// Filtering distributes over concatenation.
pub proof fn lemma_keep_append<A>(a: Seq<A>, b: Seq<A>, p: spec_fn(A) -> bool)
    ensures
        keep(a + b, p) == keep(a, p) + keep(b, p),
    decreases b.len(),
{
    if b.len() == 0 {
        assert(a + b =~= a);
        assert(keep(a, p) + keep(b, p) =~= keep(a, p));
    } else {
        lemma_keep_append(a, b.drop_last(), p);
        assert((a + b).drop_last() =~= a + b.drop_last());
        assert((a + b).last() == b.last());
        if p(b.last()) {
            assert(keep(a, p) + keep(b, p) =~= (keep(a, p) + keep(b.drop_last(), p)).push(b.last()));
        }
    }
}

/// Nothing is kept when no element satisfies `p`.
pub proof fn lemma_keep_none<A>(s: Seq<A>, p: spec_fn(A) -> bool)
    requires
        forall|i: int| 0 <= i < s.len() ==> !p(#[trigger] s[i]),
    ensures
        keep(s, p) == Seq::<A>::empty(),
    decreases s.len(),
{
    if s.len() > 0 {
        assert forall|i: int| 0 <= i < s.drop_last().len() implies !p(#[trigger] s.drop_last()[i]) by {
            assert(s.drop_last()[i] == s[i]);
        }
        lemma_keep_none(s.drop_last(), p);
        assert(!p(s[s.len() - 1]));
    }
}

/// A one-element sequence keeps its element exactly when it satisfies `p`.
pub proof fn lemma_keep_single<A>(x: A, p: spec_fn(A) -> bool)
    ensures
        keep(seq![x], p) == (if p(x) { seq![x] } else { Seq::<A>::empty() }),
{
    let s = seq![x];
    assert(s.drop_last() =~= Seq::<A>::empty());
    assert(s.last() == x);
    assert(keep(s.drop_last(), p) =~= Seq::<A>::empty());
    if p(x) {
        assert(keep(s, p) == keep(s.drop_last(), p).push(x));
        assert(Seq::<A>::empty().push(x) =~= s);
    }
}

/// Every kept element satisfies `p` and comes from `s`.
pub proof fn lemma_keep_elems<A>(s: Seq<A>, p: spec_fn(A) -> bool)
    ensures
        forall|i: int| 0 <= i < keep(s, p).len() ==> p(#[trigger] keep(s, p)[i]) && s.contains(keep(s, p)[i]),
        keep(s, p).len() <= s.len(),
    decreases s.len(),
{
    if s.len() > 0 {
        lemma_keep_elems(s.drop_last(), p);
        let r = keep(s.drop_last(), p);
        assert forall|i: int| 0 <= i < keep(s, p).len() implies p(#[trigger] keep(s, p)[i]) && s.contains(keep(s, p)[i]) by {
            if i < r.len() {
                assert(keep(s, p)[i] == r[i]);
                let j = choose|j: int| 0 <= j < s.drop_last().len() && s.drop_last()[j] == r[i];
                assert(s[j] == r[i]);
            } else {
                assert(keep(s, p)[i] == s.last());
                assert(s[s.len() - 1] == s.last());
            }
        }
    }
}

/// Ranks never increase along `s`.
pub open spec fn sorted_by_rank<A>(s: Seq<A>, f: spec_fn(A) -> int) -> bool {
    forall|i: int, j: int| 0 <= i < j < s.len() ==> f(#[trigger] s[i]) >= f(#[trigger] s[j])
}

/// The elements of rank `k`.
pub open spec fn with_rank<A>(f: spec_fn(A) -> int, k: int) -> spec_fn(A) -> bool {
    |x: A| f(x) == k
}

/// Inserting an element after every element of equal or higher rank keeps the
/// ranks in order and adds it last among its rank.
pub proof fn lemma_insert_by_rank<A>(out: Seq<A>, p: int, x: A, f: spec_fn(A) -> int)
    requires
        sorted_by_rank(out, f),
        0 <= p <= out.len(),
        forall|j: int| 0 <= j < p ==> f(#[trigger] out[j]) >= f(x),
        p < out.len() ==> f(out[p]) < f(x),
    ensures
        sorted_by_rank(out.insert(p, x), f),
        forall|k: int|
            keep(#[trigger] out.insert(p, x), with_rank(f, k)) == if k == f(x) {
                keep(out, with_rank(f, k)).push(x)
            } else {
                keep(out, with_rank(f, k))
            },
{
    let o2 = out.insert(p, x);
    assert forall|i: int, j: int| 0 <= i < j < o2.len() implies f(#[trigger] o2[i]) >= f(#[trigger] o2[j]) by {
        if j < p {
            assert(o2[i] == out[i] && o2[j] == out[j]);
        } else if j == p {
            assert(o2[i] == out[i]);
        } else if i < p {
            assert(o2[i] == out[i] && o2[j] == out[j - 1]);
        } else if i == p {
            assert(o2[j] == out[j - 1]);
            assert(f(out[p]) >= f(out[j - 1]) || j - 1 == p);
        } else {
            assert(o2[i] == out[i - 1] && o2[j] == out[j - 1]);
        }
    }
    let a = out.take(p);
    let b = out.skip(p);
    assert(out =~= a + b);
    assert(o2 =~= a + seq![x] + b);
    assert forall|k: int|
        keep(#[trigger] out.insert(p, x), with_rank(f, k)) == if k == f(x) {
            keep(out, with_rank(f, k)).push(x)
        } else {
            keep(out, with_rank(f, k))
        } by {
        let q = with_rank(f, k);
        lemma_keep_append(a, b, q);
        lemma_keep_append(a + seq![x], b, q);
        lemma_keep_append(a, seq![x], q);
        lemma_keep_single(x, q);
        if k == f(x) {
            assert forall|i: int| 0 <= i < b.len() implies !q(#[trigger] b[i]) by {
                assert(b[i] == out[p + i]);
                if i > 0 {
                    assert(f(out[p]) >= f(out[p + i]));
                }
            }
            lemma_keep_none(b, q);
            assert(keep(a, q) + keep(b, q) =~= keep(a, q));
            assert(keep(a, q) + seq![x] + keep(b, q) =~= keep(a, q).push(x));
        } else {
            assert(keep(a, q) + Seq::<A>::empty() =~= keep(a, q));
        }
    }
}

/// Keeping the elements that satisfy `p` keeps every copy of an element that
/// does, and none of one that does not.
pub proof fn lemma_keep_count<A>(s: Seq<A>, p: spec_fn(A) -> bool, x: A)
    ensures
        keep(s, p).to_multiset().count(x) == if p(x) {
            s.to_multiset().count(x)
        } else {
            0
        },
    decreases s.len(),
{
    broadcast use vstd::seq_lib::to_multiset_build, vstd::multiset::group_multiset_axioms;

    if s.len() == 0 {
        s.to_multiset_ensures();
        keep(s, p).to_multiset_ensures();
        assert(!s.contains(x));
        assert(!keep(s, p).contains(x));
    } else {
        let t = s.drop_last();
        lemma_keep_count(t, p, x);
        assert(s =~= t.push(s.last()));
    }
}

/// Two sequences with the same elements of every rank, in whatever order,
/// hold the same elements: one is a permutation of the other.
pub proof fn lemma_same_ranks_same_elements<A>(a: Seq<A>, b: Seq<A>, f: spec_fn(A) -> int)
    requires
        forall|k: int| #[trigger] keep(a, with_rank(f, k)) == keep(b, with_rank(f, k)),
    ensures
        a.to_multiset() == b.to_multiset(),
{
    assert forall|x: A| a.to_multiset().count(x) == b.to_multiset().count(x) by {
        lemma_keep_count(a, with_rank(f, f(x)), x);
        lemma_keep_count(b, with_rank(f, f(x)), x);
        assert(keep(a, with_rank(f, f(x))) == keep(b, with_rank(f, f(x))));
    }
    assert(a.to_multiset() =~= b.to_multiset());
}

} // verus!
