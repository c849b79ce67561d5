//! A string-keyed map kept as a list of entries in strictly increasing key order
//! (the order of a `BTreeMap<String, _>`), with its model as a sorted sequence.
//! vstd specifies `BTreeMap` only for key types whose ordering it models
//! (`obeys_cmp`), and `String` is not among them, so a `BTreeMap<String, _>`
//! would carry no provable contents; this map states its order instead.

use crate::text::chars_of;
use vstd::prelude::*;

verus! {

/// Lexicographic order on strings by code point (the order of `String`).
pub open spec fn key_lt(a: Seq<char>, b: Seq<char>) -> bool
    decreases a.len(),
{
    if a.len() == 0 {
        b.len() > 0
    } else if b.len() == 0 {
        false
    } else if a[0] != b[0] {
        (a[0] as u32) < (b[0] as u32)
    } else {
        key_lt(a.drop_first(), b.drop_first())
    }
}

proof fn lemma_char_code(a: char, b: char)
    requires
        a != b,
    ensures
        (a as u32) != (b as u32),
{
}

pub proof fn lemma_lt_irrefl(a: Seq<char>)
    ensures
        !key_lt(a, a),
    decreases a.len(),
{
    if a.len() > 0 {
        lemma_lt_irrefl(a.drop_first());
    }
}

pub proof fn lemma_lt_asym(a: Seq<char>, b: Seq<char>)
    ensures
        !(key_lt(a, b) && key_lt(b, a)),
    decreases a.len(),
{
    if a.len() > 0 && b.len() > 0 && a[0] == b[0] {
        lemma_lt_asym(a.drop_first(), b.drop_first());
    }
}

pub proof fn lemma_lt_trans(a: Seq<char>, b: Seq<char>, c: Seq<char>)
    requires
        key_lt(a, b),
        key_lt(b, c),
    ensures
        key_lt(a, c),
    decreases a.len(),
{
    if a.len() > 0 && b.len() > 0 && c.len() > 0 && a[0] == b[0] && b[0] == c[0] {
        lemma_lt_trans(a.drop_first(), b.drop_first(), c.drop_first());
    }
}

pub proof fn lemma_lt_total(a: Seq<char>, b: Seq<char>)
    ensures
        a == b || key_lt(a, b) || key_lt(b, a),
    decreases a.len(),
{
    if a.len() > 0 && b.len() > 0 {
        if a[0] == b[0] {
            lemma_lt_total(a.drop_first(), b.drop_first());
            if a.drop_first() == b.drop_first() {
                assert(a =~= seq![a[0]] + a.drop_first());
                assert(b =~= seq![b[0]] + b.drop_first());
            }
        } else {
            lemma_char_code(a[0], b[0]);
        }
    } else if a.len() == 0 && b.len() == 0 {
        assert(a =~= b);
    }
}

/// Strictly increasing keys.
pub open spec fn sorted<X>(s: Seq<(Seq<char>, X)>) -> bool {
    forall|i: int, j: int| 0 <= i < j < s.len() ==> key_lt(#[trigger] s[i].0, #[trigger] s[j].0)
}

/// The value stored under `k`.
pub open spec fn lookup<X>(s: Seq<(Seq<char>, X)>, k: Seq<char>) -> Option<X>
    decreases s.len(),
{
    if s.len() == 0 {
        None
    } else if s[0].0 == k {
        Some(s[0].1)
    } else {
        lookup(s.drop_first(), k)
    }
}

/// `s` with `k` bound to `x` (replacing or inserting in key order).
pub open spec fn put<X>(s: Seq<(Seq<char>, X)>, k: Seq<char>, x: X) -> Seq<(Seq<char>, X)>
    decreases s.len(),
{
    if s.len() == 0 {
        seq![(k, x)]
    } else if s[0].0 == k {
        seq![(k, x)] + s.drop_first()
    } else if key_lt(k, s[0].0) {
        seq![(k, x)] + s
    } else {
        seq![s[0]] + put(s.drop_first(), k, x)
    }
}

/// `s` without `k`.
pub open spec fn del<X>(s: Seq<(Seq<char>, X)>, k: Seq<char>) -> Seq<(Seq<char>, X)>
    decreases s.len(),
{
    if s.len() == 0 {
        s
    } else if s[0].0 == k {
        del(s.drop_first(), k)
    } else {
        seq![s[0]] + del(s.drop_first(), k)
    }
}

/// The keys of `s`, in order.
pub open spec fn keys<X>(s: Seq<(Seq<char>, X)>) -> Seq<Seq<char>> {
    s.map_values(|e: (Seq<char>, X)| e.0)
}

pub proof fn lemma_sorted_tail<X>(s: Seq<(Seq<char>, X)>)
    requires
        sorted(s),
        s.len() > 0,
    ensures
        sorted(s.drop_first()),
        forall|i: int| 0 <= i < s.drop_first().len() ==> key_lt(s[0].0, #[trigger] s.drop_first()[i].0),
{
    assert forall|i: int, j: int| 0 <= i < j < s.drop_first().len() implies key_lt(
        #[trigger] s.drop_first()[i].0,
        #[trigger] s.drop_first()[j].0,
    ) by {
        assert(s.drop_first()[i] == s[i + 1]);
        assert(s.drop_first()[j] == s[j + 1]);
    }
    assert forall|i: int| 0 <= i < s.drop_first().len() implies key_lt(
        s[0].0,
        #[trigger] s.drop_first()[i].0,
    ) by {
        assert(s.drop_first()[i] == s[i + 1]);
    }
}

pub proof fn lemma_sorted_cons<X>(e: (Seq<char>, X), s: Seq<(Seq<char>, X)>)
    requires
        sorted(s),
        forall|i: int| 0 <= i < s.len() ==> key_lt(e.0, #[trigger] s[i].0),
    ensures
        sorted(seq![e] + s),
{
    let t = seq![e] + s;
    assert forall|i: int, j: int| 0 <= i < j < t.len() implies key_lt(
        #[trigger] t[i].0,
        #[trigger] t[j].0,
    ) by {
        if i == 0 {
            assert(t[j] == s[j - 1]);
        } else {
            assert(t[i] == s[i - 1]);
            assert(t[j] == s[j - 1]);
        }
    }
}

/// A key below every key of `s` is not found.
pub proof fn lemma_lookup_below<X>(s: Seq<(Seq<char>, X)>, k: Seq<char>)
    requires
        forall|i: int| 0 <= i < s.len() ==> key_lt(k, #[trigger] s[i].0),
    ensures
        lookup(s, k) is None,
    decreases s.len(),
{
    if s.len() > 0 {
        lemma_lt_irrefl(k);
        assert forall|i: int| 0 <= i < s.drop_first().len() implies key_lt(
            k,
            #[trigger] s.drop_first()[i].0,
        ) by {
            assert(s.drop_first()[i] == s[i + 1]);
        }
        lemma_lookup_below(s.drop_first(), k);
    }
}

/// In a sorted list each entry is what its key looks up.
pub proof fn lemma_lookup_index<X>(s: Seq<(Seq<char>, X)>, i: int)
    requires
        sorted(s),
        0 <= i < s.len(),
    ensures
        lookup(s, s[i].0) == Some(s[i].1),
    decreases i,
{
    if i > 0 {
        lemma_sorted_tail(s);
        assert(s.drop_first()[i - 1] == s[i]);
        lemma_lt_irrefl(s[i].0);
        lemma_lookup_index(s.drop_first(), i - 1);
    }
}

/// A key held by no entry is not found.
pub proof fn lemma_lookup_absent<X>(s: Seq<(Seq<char>, X)>, k: Seq<char>)
    requires
        forall|i: int| 0 <= i < s.len() ==> #[trigger] s[i].0 != k,
    ensures
        lookup(s, k) is None,
    decreases s.len(),
{
    if s.len() > 0 {
        assert forall|i: int| 0 <= i < s.drop_first().len() implies #[trigger] s.drop_first()[i].0
            != k by {
            assert(s.drop_first()[i] == s[i + 1]);
        }
        lemma_lookup_absent(s.drop_first(), k);
    }
}

/// Found entries come from the list.
pub proof fn lemma_lookup_some<X>(s: Seq<(Seq<char>, X)>, k: Seq<char>)
    requires
        lookup(s, k) is Some,
    ensures
        exists|i: int| 0 <= i < s.len() && s[i].0 == k && s[i].1 == lookup(s, k)->0,
    decreases s.len(),
{
    if s[0].0 != k {
        lemma_lookup_some(s.drop_first(), k);
        let i = choose|i: int|
            0 <= i < s.drop_first().len() && s.drop_first()[i].0 == k && s.drop_first()[i].1
                == lookup(s.drop_first(), k)->0;
        assert(s[i + 1] == s.drop_first()[i]);
    } else {
        assert(s[0].0 == k);
    }
}

proof fn lemma_lookup_cons<X>(e: (Seq<char>, X), s: Seq<(Seq<char>, X)>, k2: Seq<char>)
    ensures
        lookup(seq![e] + s, k2) == if e.0 == k2 {
            Some(e.1)
        } else {
            lookup(s, k2)
        },
{
    assert((seq![e] + s).drop_first() =~= s);
    assert((seq![e] + s)[0] == e);
}

/// `put` keeps the order, binds `k`, and leaves other keys alone.
pub proof fn lemma_put<X>(s: Seq<(Seq<char>, X)>, k: Seq<char>, x: X)
    requires
        sorted(s),
    ensures
        sorted(put(s, k, x)),
        lookup(put(s, k, x), k) == Some(x),
        forall|k2: Seq<char>| k2 != k ==> lookup(put(s, k, x), k2) == lookup(s, k2),
        forall|i: int|
            0 <= i < put(s, k, x).len() ==> (#[trigger] put(s, k, x)[i].0 == k || exists|j: int|
                0 <= j < s.len() && s[j].0 == put(s, k, x)[i].0),
    decreases s.len(),
{
    if s.len() == 0 {
        assert(seq![(k, x)] + s =~= seq![(k, x)]);
        assert forall|k2: Seq<char>| k2 != k implies lookup(put(s, k, x), k2) == lookup(s, k2) by {
            lemma_lookup_cons((k, x), s, k2);
        }
        lemma_lookup_cons((k, x), s, k);
    } else if s[0].0 == k {
        lemma_sorted_tail(s);
        lemma_sorted_cons((k, x), s.drop_first());
        assert forall|k2: Seq<char>| k2 != k implies lookup(put(s, k, x), k2) == lookup(s, k2) by {
            lemma_lookup_cons((k, x), s.drop_first(), k2);
            assert(lookup(s, k2) == lookup(s.drop_first(), k2));
        }
        lemma_lookup_cons((k, x), s.drop_first(), k);
        let p = put(s, k, x);
        assert forall|i: int| 0 <= i < p.len() implies (#[trigger] p[i].0 == k || exists|j: int|
            0 <= j < s.len() && s[j].0 == p[i].0) by {
            if i > 0 {
                assert(p[i] == s[i]);
            }
        }
    } else if key_lt(k, s[0].0) {
        assert forall|i: int| 0 <= i < s.len() implies key_lt(k, #[trigger] s[i].0) by {
            if i > 0 {
                lemma_lt_trans(k, s[0].0, s[i].0);
            }
        }
        lemma_sorted_cons((k, x), s);
        assert forall|k2: Seq<char>| k2 != k implies lookup(put(s, k, x), k2) == lookup(s, k2) by {
            lemma_lookup_cons((k, x), s, k2);
        }
        lemma_lookup_cons((k, x), s, k);
        let p = put(s, k, x);
        assert forall|i: int| 0 <= i < p.len() implies (#[trigger] p[i].0 == k || exists|j: int|
            0 <= j < s.len() && s[j].0 == p[i].0) by {
            if i > 0 {
                assert(p[i] == s[i - 1]);
            }
        }
    } else {
        lemma_sorted_tail(s);
        let t = s.drop_first();
        lemma_put(t, k, x);
        let pt = put(t, k, x);
        lemma_lt_total(k, s[0].0);
        assert forall|i: int| 0 <= i < pt.len() implies key_lt(s[0].0, #[trigger] pt[i].0) by {
            if pt[i].0 == k {
            } else {
                let j = choose|j: int| 0 <= j < t.len() && t[j].0 == pt[i].0;
            }
        }
        lemma_sorted_cons(s[0], pt);
        let p = put(s, k, x);
        assert(p.drop_first() =~= pt);
        assert(p[0] == s[0]);
        assert(p =~= seq![s[0]] + pt);
        assert forall|k2: Seq<char>| k2 != k implies lookup(p, k2) == lookup(s, k2) by {
            lemma_lookup_cons(s[0], pt, k2);
            lemma_lookup_cons(s[0], t, k2);
            assert(s =~= seq![s[0]] + t);
        }
        lemma_lookup_cons(s[0], pt, k);
        assert forall|i: int| 0 <= i < p.len() implies (#[trigger] p[i].0 == k || exists|j: int|
            0 <= j < s.len() && s[j].0 == p[i].0) by {
            if i > 0 {
                assert(p[i] == pt[i - 1]);
                if pt[i - 1].0 != k {
                    let j = choose|j: int| 0 <= j < t.len() && t[j].0 == pt[i - 1].0;
                    assert(s[j + 1] == t[j]);
                }
            } else {
                assert(s[0].0 == p[0].0);
            }
        }
    }
}

/// `del` keeps the order, drops `k`, and leaves other keys alone.
pub proof fn lemma_del<X>(s: Seq<(Seq<char>, X)>, k: Seq<char>)
    requires
        sorted(s),
    ensures
        sorted(del(s, k)),
        lookup(del(s, k), k) is None,
        forall|k2: Seq<char>| k2 != k ==> lookup(del(s, k), k2) == lookup(s, k2),
        forall|i: int|
            0 <= i < del(s, k).len() ==> exists|j: int|
                0 <= j < s.len() && s[j] == #[trigger] del(s, k)[i],
    decreases s.len(),
{
    if s.len() > 0 {
        lemma_sorted_tail(s);
        let t = s.drop_first();
        lemma_del(t, k);
        let dt = del(t, k);
        if s[0].0 == k {
            assert forall|k2: Seq<char>| k2 != k implies lookup(del(s, k), k2) == lookup(s, k2) by {
                assert(lookup(s, k2) == lookup(t, k2));
            }
            assert forall|i: int| 0 <= i < dt.len() implies exists|j: int|
                0 <= j < s.len() && s[j] == #[trigger] dt[i] by {
                let j = choose|j: int| 0 <= j < t.len() && t[j] == dt[i];
                assert(s[j + 1] == t[j]);
            }
        } else {
            assert forall|i: int| 0 <= i < dt.len() implies key_lt(s[0].0, #[trigger] dt[i].0) by {
                let j = choose|j: int| 0 <= j < t.len() && t[j] == dt[i];
            }
            lemma_sorted_cons(s[0], dt);
            let d = del(s, k);
            assert(d.drop_first() =~= dt);
            assert(d[0] == s[0]);
            assert(lookup(d, k) == lookup(dt, k));
            assert forall|k2: Seq<char>| k2 != k implies lookup(d, k2) == lookup(s, k2) by {
                if s[0].0 != k2 {
                    assert(lookup(d, k2) == lookup(dt, k2));
                    assert(lookup(s, k2) == lookup(t, k2));
                }
            }
            assert forall|i: int| 0 <= i < d.len() implies exists|j: int|
                0 <= j < s.len() && s[j] == #[trigger] d[i] by {
                if i > 0 {
                    assert(d[i] == dt[i - 1]);
                    let j = choose|j: int| 0 <= j < t.len() && t[j] == dt[i - 1];
                    assert(s[j + 1] == t[j]);
                } else {
                    assert(s[0] == d[0]);
                }
            }
        }
    }
}


/// Keeps the entries for which `f` gives a value, replacing each value by it.
pub open spec fn fmap<X, Y>(s: Seq<(Seq<char>, X)>, f: spec_fn(Seq<char>, X) -> Option<Y>) -> Seq<
    (Seq<char>, Y),
>
    decreases s.len(),
{
    if s.len() == 0 {
        Seq::empty()
    } else {
        let r = fmap(s.drop_last(), f);
        match f(s.last().0, s.last().1) {
            Some(y) => r.push((s.last().0, y)),
            None => r,
        }
    }
}

/// The entries satisfying `p`.
pub open spec fn filt<X>(s: Seq<(Seq<char>, X)>, p: spec_fn(Seq<char>, X) -> bool) -> Seq<
    (Seq<char>, X),
>
    decreases s.len(),
{
    if s.len() == 0 {
        Seq::empty()
    } else {
        let r = filt(s.drop_last(), p);
        if p(s.last().0, s.last().1) {
            r.push(s.last())
        } else {
            r
        }
    }
}

/// Filtering never lengthens.
pub proof fn lemma_filt_len<X>(s: Seq<(Seq<char>, X)>, p: spec_fn(Seq<char>, X) -> bool)
    ensures
        filt(s, p).len() <= s.len(),
    decreases s.len(),
{
    if s.len() > 0 {
        lemma_filt_len(s.drop_last(), p);
    }
}

/// Filtering distributes over concatenation.
pub proof fn lemma_filt_append<X>(a: Seq<(Seq<char>, X)>, b: Seq<(Seq<char>, X)>, p: spec_fn(Seq<char>, X) -> bool)
    ensures
        filt(a + b, p) == filt(a, p) + filt(b, p),
    decreases b.len(),
{
    if b.len() == 0 {
        assert(a + b =~= a);
        assert(filt(a, p) + filt(b, p) =~= filt(a, p));
    } else {
        lemma_filt_append(a, b.drop_last(), p);
        assert((a + b).drop_last() =~= a + b.drop_last());
        assert((a + b).last() == b.last());
        if p(b.last().0, b.last().1) {
            assert(filt(a, p) + filt(b, p) =~= (filt(a, p) + filt(b.drop_last(), p)).push(b.last()));
        }
    }
}

/// The first kept entry is the first entry of `s` that satisfies `p`.
pub proof fn lemma_filt_first<X>(s: Seq<(Seq<char>, X)>, p: spec_fn(Seq<char>, X) -> bool, i: int)
    requires
        0 <= i < s.len(),
        filt(s.take(i), p).len() == 0,
        p(s[i].0, s[i].1),
    ensures
        filt(s, p).len() > 0,
        filt(s, p)[0] == s[i],
{
    assert(s =~= s.take(i + 1) + s.skip(i + 1));
    lemma_filt_append(s.take(i + 1), s.skip(i + 1), p);
    assert(s.take(i + 1).drop_last() =~= s.take(i));
    assert(s.take(i + 1).last() == s[i]);
}

/// Binding a new key inserts one entry somewhere in the list.
pub proof fn lemma_put_absent_split<X>(s: Seq<(Seq<char>, X)>, k: Seq<char>, x: X) -> (i: int)
    requires
        lookup(s, k) is None,
    ensures
        0 <= i <= s.len(),
        put(s, k, x) == s.take(i) + seq![(k, x)] + s.skip(i),
    decreases s.len(),
{
    if s.len() == 0 {
        assert(s.take(0) + seq![(k, x)] + s.skip(0) =~= seq![(k, x)]);
        0
    } else if key_lt(k, s[0].0) {
        assert(s.take(0) + seq![(k, x)] + s.skip(0) =~= seq![(k, x)] + s);
        0
    } else {
        let t = s.drop_first();
        let j = lemma_put_absent_split(t, k, x);
        assert(s.take(j + 1) + seq![(k, x)] + s.skip(j + 1) =~= seq![s[0]] + (t.take(j) + seq![(k, x)]
            + t.skip(j)));
        j + 1
    }
}

/// Binding a new key adds one to a filtered count exactly when the new entry passes.
pub proof fn lemma_filt_put_absent<X>(s: Seq<(Seq<char>, X)>, k: Seq<char>, x: X, p: spec_fn(Seq<char>, X) -> bool)
    requires
        lookup(s, k) is None,
    ensures
        filt(put(s, k, x), p).len() == filt(s, p).len() + (if p(k, x) { 1int } else { 0int }),
{
    let i = lemma_put_absent_split(s, k, x);
    let a = s.take(i);
    let b = s.skip(i);
    assert(s =~= a + b);
    lemma_filt_append(a, b, p);
    lemma_filt_append(a + seq![(k, x)], b, p);
    lemma_filt_append(a, seq![(k, x)], p);
    let e = seq![(k, x)];
    assert(e.drop_last() =~= Seq::<(Seq<char>, X)>::empty());
    assert(e.last() == (k, x));
    assert(filt(e.drop_last(), p).len() == 0);
    assert(filt(e, p).len() == (if p(k, x) { 1int } else { 0int }));
    assert(filt(put(s, k, x), p) == filt(a + e, p) + filt(b, p));
    assert(filt(a + e, p) == filt(a, p) + filt(e, p));
}

/// Removing a key drops its entry, and only that one, from any filtered count.
pub proof fn lemma_filt_del<X>(s: Seq<(Seq<char>, X)>, k: Seq<char>, p: spec_fn(Seq<char>, X) -> bool)
    requires
        sorted(s),
    ensures
        filt(del(s, k), p).len() + (match lookup(s, k) {
            Some(x) => if p(k, x) {
                1int
            } else {
                0int
            },
            None => 0int,
        }) == filt(s, p).len(),
    decreases s.len(),
{
    if s.len() > 0 {
        lemma_sorted_tail(s);
        let t = s.drop_first();
        lemma_filt_del(t, k, p);
        let e = seq![s[0]];
        assert(s =~= e + t);
        lemma_filt_append(e, t, p);
        assert(e.drop_last() =~= Seq::<(Seq<char>, X)>::empty());
        assert(filt(e.drop_last(), p).len() == 0);
        if s[0].0 == k {
            lemma_lookup_below(t, k);
        } else {
            assert(del(s, k) == e + del(t, k));
            lemma_filt_append(e, del(t, k), p);
        }
    }
}

/// Binding a key adds at most one entry to any filtered count.
pub proof fn lemma_filt_put_le<X>(s: Seq<(Seq<char>, X)>, k: Seq<char>, x: X, p: spec_fn(Seq<char>, X) -> bool)
    requires
        sorted(s),
    ensures
        filt(put(s, k, x), p).len() <= filt(s, p).len() + 1,
{
    if lookup(s, k) is None {
        lemma_filt_put_absent(s, k, x, p);
    } else {
        lemma_lookup_some(s, k);
        let i = choose|i: int| 0 <= i < s.len() && s[i].0 == k && s[i].1 == lookup(s, k)->0;
        lemma_put_existing(s, i, x);
        let a = s.take(i);
        let b = s.skip(i + 1);
        let e1 = seq![s[i]];
        let e2 = seq![(k, x)];
        assert(s =~= a + e1 + b);
        assert(put(s, k, x) =~= a + e2 + b);
        lemma_filt_append(a + e1, b, p);
        lemma_filt_append(a, e1, p);
        lemma_filt_append(a + e2, b, p);
        lemma_filt_append(a, e2, p);
        assert(e1.drop_last() =~= Seq::<(Seq<char>, X)>::empty());
        assert(e2.drop_last() =~= Seq::<(Seq<char>, X)>::empty());
        assert(filt(e1.drop_last(), p).len() == 0);
        assert(filt(e2.drop_last(), p).len() == 0);
        assert(filt(e2, p).len() <= 1);
    }
}

/// What a filtered map holds under each key.
pub proof fn lemma_filt_lookup<X>(s: Seq<(Seq<char>, X)>, p: spec_fn(Seq<char>, X) -> bool)
    requires
        sorted(s),
    ensures
        sorted(filt(s, p)),
        forall|k: Seq<char>|
            #[trigger] lookup(filt(s, p), k) == match lookup(s, k) {
                Some(x) => if p(k, x) {
                    Some(x)
                } else {
                    None
                },
                None => None,
            },
{
    lemma_filt_fmap(s, p);
    lemma_fmap(s, keep_if(p));
}

/// Whether `k` is bound in `s`.
pub open spec fn contains_key<X>(s: Seq<(Seq<char>, X)>, k: Seq<char>) -> bool {
    lookup(s, k) is Some
}

/// Every key of `fmap(s, f)` is a key of `s`, and its order is kept.
pub proof fn lemma_fmap<X, Y>(s: Seq<(Seq<char>, X)>, f: spec_fn(Seq<char>, X) -> Option<Y>)
    requires
        sorted(s),
    ensures
        sorted(fmap(s, f)),
        fmap(s, f).len() <= s.len(),
        forall|i: int|
            0 <= i < fmap(s, f).len() ==> exists|j: int|
                0 <= j < s.len() && #[trigger] fmap(s, f)[i].0 == s[j].0 && f(s[j].0, s[j].1)
                    == Some(fmap(s, f)[i].1),
        forall|k: Seq<char>|
            #[trigger] lookup(fmap(s, f), k) == match lookup(s, k) {
                Some(x) => f(k, x),
                None => None,
            },
    decreases s.len(),
{
    if s.len() > 0 {
        let t = s.drop_last();
        assert(sorted(t)) by {
            assert forall|i: int, j: int| 0 <= i < j < t.len() implies key_lt(
                #[trigger] t[i].0,
                #[trigger] t[j].0,
            ) by {
                assert(t[i] == s[i] && t[j] == s[j]);
            }
        }
        lemma_fmap(t, f);
        let r = fmap(t, f);
        let e = s.last();
        assert forall|i: int| 0 <= i < r.len() implies key_lt(#[trigger] r[i].0, e.0) by {
            let j = choose|j: int|
                0 <= j < t.len() && r[i].0 == t[j].0 && f(t[j].0, t[j].1) == Some(r[i].1);
            assert(t[j] == s[j]);
        }
        assert(s =~= t.push(e));
        lemma_lookup_snoc(t, e);
        match f(e.0, e.1) {
            Some(y) => {
                let r2 = r.push((e.0, y));
                assert forall|i: int, j: int| 0 <= i < j < r2.len() implies key_lt(
                    #[trigger] r2[i].0,
                    #[trigger] r2[j].0,
                ) by {
                    if j == r.len() {
                        assert(r2[i] == r[i]);
                    } else {
                        assert(r2[i] == r[i] && r2[j] == r[j]);
                    }
                }
                lemma_lookup_snoc(r, (e.0, y));
                assert forall|i: int| 0 <= i < r2.len() implies exists|j: int|
                    0 <= j < s.len() && #[trigger] r2[i].0 == s[j].0 && f(s[j].0, s[j].1) == Some(
                        r2[i].1,
                    ) by {
                    if i < r.len() {
                        assert(r2[i] == r[i]);
                        let j = choose|j: int|
                            0 <= j < t.len() && r[i].0 == t[j].0 && f(t[j].0, t[j].1) == Some(
                                r[i].1,
                            );
                        assert(t[j] == s[j]);
                    } else {
                        assert(s[s.len() - 1] == e);
                    }
                }
                assert forall|k: Seq<char>| #[trigger]
                    lookup(r2, k) == match lookup(s, k) {
                        Some(x) => f(k, x),
                        None => None,
                    } by {
                    assert(lookup(r, k) == match lookup(t, k) {
                        Some(x) => f(k, x),
                        None => None,
                    });
                }
            },
            None => {
                assert forall|i: int| 0 <= i < r.len() implies exists|j: int|
                    0 <= j < s.len() && #[trigger] r[i].0 == s[j].0 && f(s[j].0, s[j].1) == Some(
                        r[i].1,
                    ) by {
                    let j = choose|j: int|
                        0 <= j < t.len() && r[i].0 == t[j].0 && f(t[j].0, t[j].1) == Some(r[i].1);
                    assert(t[j] == s[j]);
                }
                assert forall|k: Seq<char>| #[trigger]
                    lookup(r, k) == match lookup(s, k) {
                        Some(x) => f(k, x),
                        None => None,
                    } by {
                    assert(lookup(r, k) == match lookup(t, k) {
                        Some(x) => f(k, x),
                        None => None,
                    });
                    if k == e.0 {
                        lemma_lookup_below_all(r, k);
                    }
                }
            },
        }
    }
}

/// A key above every key of `s` is not found.
pub proof fn lemma_lookup_below_all<X>(s: Seq<(Seq<char>, X)>, k: Seq<char>)
    requires
        forall|i: int| 0 <= i < s.len() ==> key_lt(#[trigger] s[i].0, k),
    ensures
        lookup(s, k) is None,
{
    assert forall|i: int| 0 <= i < s.len() implies #[trigger] s[i].0 != k by {
        lemma_lt_irrefl(k);
    }
    lemma_lookup_absent(s, k);
}

/// Looking up in a list with one more entry, above all others.
pub proof fn lemma_lookup_snoc<X>(s: Seq<(Seq<char>, X)>, e: (Seq<char>, X))
    requires
        forall|i: int| 0 <= i < s.len() ==> key_lt(#[trigger] s[i].0, e.0),
    ensures
        forall|k: Seq<char>|
            #[trigger] lookup(s.push(e), k) == if k == e.0 {
                Some(e.1)
            } else {
                lookup(s, k)
            },
    decreases s.len(),
{
    assert forall|k: Seq<char>|
        #[trigger] lookup(s.push(e), k) == if k == e.0 {
            Some(e.1)
        } else {
            lookup(s, k)
        } by {
        lemma_lookup_snoc_one(s, e, k);
    }
}

proof fn lemma_lookup_snoc_one<X>(s: Seq<(Seq<char>, X)>, e: (Seq<char>, X), k: Seq<char>)
    requires
        forall|i: int| 0 <= i < s.len() ==> key_lt(#[trigger] s[i].0, e.0),
    ensures
        lookup(s.push(e), k) == if k == e.0 {
            Some(e.1)
        } else {
            lookup(s, k)
        },
    decreases s.len(),
{
    if s.len() == 0 {
        assert(s.push(e) =~= seq![e] + s);
        lemma_lookup_cons(e, s, k);
    } else {
        let t = s.drop_first();
        assert forall|i: int| 0 <= i < t.len() implies key_lt(#[trigger] t[i].0, e.0) by {
            assert(t[i] == s[i + 1]);
        }
        lemma_lookup_snoc_one(t, e, k);
        assert(s.push(e) =~= seq![s[0]] + t.push(e));
        assert(s =~= seq![s[0]] + t);
        lemma_lookup_cons(s[0], t.push(e), k);
        lemma_lookup_cons(s[0], t, k);
        if k == e.0 {
            lemma_lt_irrefl(k);
        }
    }
}

/// The value itself where `p` holds, else nothing.
pub open spec fn keep_if<X>(p: spec_fn(Seq<char>, X) -> bool) -> spec_fn(Seq<char>, X) -> Option<X> {
    |k: Seq<char>, x: X| if p(k, x) { Some(x) } else { None }
}

/// `filt` is `fmap` with the identity on kept values.
pub proof fn lemma_filt_fmap<X>(s: Seq<(Seq<char>, X)>, p: spec_fn(Seq<char>, X) -> bool)
    ensures
        filt(s, p) == fmap(s, keep_if(p)),
    decreases s.len(),
{
    if s.len() > 0 {
        lemma_filt_fmap(s.drop_last(), p);
        assert((s.last().0, s.last().1) == s.last());
    }
}

/// A string-keyed map whose entries are kept in increasing key order.
#[derive(Clone, Debug)]
pub struct SortedMap<V> {
    entries: Vec<(String, V)>,
}

impl<V: View> View for SortedMap<V> {
    type V = Seq<(Seq<char>, V::V)>;

    closed spec fn view(&self) -> Seq<(Seq<char>, V::V)> {
        self.entries@.map_values(|e: (String, V)| (e.0@, e.1@))
    }
}

/// The view of an optional value.
pub open spec fn opt_view<W: View>(o: Option<W>) -> Option<W::V> {
    match o {
        Some(w) => Some(w@),
        None => None,
    }
}

/// Compares two strings: `-1`, `0` or `1` as `a` is below, equal to or above `b`.
pub fn compare_keys(a: &str, b: &str) -> (r: i8)
    ensures
        r == 0 <==> a@ == b@,
        r < 0 <==> key_lt(a@, b@),
        r > 0 <==> key_lt(b@, a@),
{
    let x = chars_of(a);
    let y = chars_of(b);
    let mut i: usize = 0;
    proof {
        lemma_lt_asym(a@, b@);
        lemma_lt_irrefl(a@);
        assert(a@.skip(0) =~= a@);
        assert(b@.skip(0) =~= b@);
        assert(x@.take(0) =~= y@.take(0));
    }
    while i < x.len() && i < y.len()
        invariant
            x@ == a@,
            y@ == b@,
            i <= x@.len(),
            i <= y@.len(),
            x@.take(i as int) == y@.take(i as int),
            key_lt(a@, b@) == key_lt(a@.skip(i as int), b@.skip(i as int)),
            key_lt(b@, a@) == key_lt(b@.skip(i as int), a@.skip(i as int)),
        decreases x@.len() - i,
    {
        let ghost sa = a@.skip(i as int);
        let ghost sb = b@.skip(i as int);
        assert(sa[0] == x@[i as int]);
        assert(sb[0] == y@[i as int]);
        if x[i] != y[i] {
            proof {
                assert(a@ != b@) by {
                    assert(a@[i as int] != b@[i as int]);
                }
                lemma_char_code(sa[0], sb[0]);
            }
            if (x[i] as u32) < (y[i] as u32) {
                return -1;
            } else {
                return 1;
            }
        }
        assert(sa.drop_first() =~= a@.skip(i + 1));
        assert(sb.drop_first() =~= b@.skip(i + 1));
        i = i + 1;
        assert(x@.take(i as int) =~= y@.take(i as int)) by {
            assert(x@.take(i as int) =~= x@.take(i - 1).push(x@[i - 1]));
            assert(y@.take(i as int) =~= y@.take(i - 1).push(y@[i - 1]));
        }
    }
    let ghost sa = a@.skip(i as int);
    let ghost sb = b@.skip(i as int);
    if x.len() == y.len() {
        assert(x@ =~= x@.take(i as int));
        assert(y@ =~= y@.take(i as int));
        0
    } else if x.len() < y.len() {
        assert(sa.len() == 0 && sb.len() > 0);
        assert(a@ != b@);
        -1
    } else {
        assert(sb.len() == 0 && sa.len() > 0);
        assert(a@ != b@);
        1
    }
}

impl<V: View> SortedMap<V> {
    /// Entries strictly increase by key.
    pub open spec fn wf(&self) -> bool {
        sorted(self@)
    }

    proof fn lemma_view_index(&self, i: int)
        requires
            0 <= i < self.entries@.len(),
        ensures
            self@[i] == (self.entries@[i].0@, self.entries@[i].1@),
            self@.len() == self.entries@.len(),
    {
    }

    /// The empty map.
    pub fn new() -> (m: Self)
        ensures
            m.wf(),
            m@ == Seq::<(Seq<char>, V::V)>::empty(),
    {
        let m = SortedMap { entries: Vec::new() };
        assert(m@ =~= Seq::<(Seq<char>, V::V)>::empty());
        m
    }

    /// Number of entries.
    pub fn len(&self) -> (n: usize)
        ensures
            n == self@.len(),
    {
        self.entries.len()
    }

    /// Whether the keys are in strictly increasing order.
    pub fn is_ordered(&self) -> (b: bool)
        ensures
            b == self.wf(),
    {
        let n = self.len();
        if n == 0 {
            return true;
        }
        let mut i: usize = 1;
        while i < n
            invariant
                1 <= i <= n,
                n == self@.len(),
                sorted(self@.take(i as int)),
            decreases n - i,
        {
            if compare_keys(self.key_at(i - 1).as_str(), self.key_at(i).as_str()) >= 0 {
                proof {
                    assert(!key_lt(self@[i - 1].0, self@[i as int].0));
                }
                return false;
            }
            proof {
                let t = self@.take(i + 1);
                assert forall|a: int, b: int| 0 <= a < b < t.len() implies key_lt(#[trigger] t[a].0, #[trigger] t[b].0) by {
                    assert(t[a] == self@[a] && t[b] == self@[b]);
                    if b < i {
                        assert(self@.take(i as int)[a] == self@[a] && self@.take(i as int)[b] == self@[b]);
                    } else if a < i - 1 {
                        assert(self@.take(i as int)[a] == self@[a] && self@.take(i as int)[i - 1] == self@[i - 1]);
                        lemma_lt_trans(self@[a].0, self@[i - 1].0, self@[b].0);
                    }
                }
            }
            i = i + 1;
        }
        assert(self@.take(n as int) =~= self@);
        true
    }

    /// The key of entry `i`.
    pub fn key_at(&self, i: usize) -> (k: &String)
        requires
            i < self@.len(),
        ensures
            k@ == self@[i as int].0,
    {
        &self.entries[i].0
    }

    /// The value of entry `i`.
    pub fn value_at(&self, i: usize) -> (v: &V)
        requires
            i < self@.len(),
        ensures
            v@ == self@[i as int].1,
    {
        &self.entries[i].1
    }

    /// Index of the entry for `k`.
    pub fn index_of(&self, k: &str) -> (r: Option<usize>)
        requires
            self.wf(),
        ensures
            match r {
                Some(i) => i < self@.len() && self@[i as int].0 == k@ && lookup(self@, k@)
                    == Some(self@[i as int].1),
                None => lookup(self@, k@) is None,
            },
    {
        let mut i: usize = 0;
        while i < self.entries.len()
            invariant
                sorted(self@),
                i <= self@.len() == self.entries@.len(),
                forall|j: int| 0 <= j < i ==> #[trigger] self@[j].0 != k@,
            decreases self@.len() - i,
        {
            proof {
                self.lemma_view_index(i as int);
            }
            if compare_keys(self.entries[i].0.as_str(), k) == 0 {
                proof {
                    lemma_lookup_index(self@, i as int);
                }
                return Some(i);
            }
            i = i + 1;
        }
        proof {
            lemma_lookup_absent(self@, k@);
        }
        None
    }

    /// The value stored under `k`.
    pub fn get(&self, k: &str) -> (r: Option<&V>)
        requires
            self.wf(),
        ensures
            match r {
                Some(v) => lookup(self@, k@) == Some(v@),
                None => lookup(self@, k@) is None,
            },
    {
        match self.index_of(k) {
            Some(i) => Some(&self.entries[i].1),
            None => None,
        }
    }

    /// The value stored under `k`, found by scanning from the first entry
    /// (no ordering needed).
    pub fn find(&self, k: &str) -> (r: Option<&V>)
        ensures
            match r {
                Some(v) => lookup(self@, k@) == Some(v@),
                None => lookup(self@, k@) is None,
            },
    {
        let mut i: usize = 0;
        assert(self@.skip(0) =~= self@);
        while i < self.entries.len()
            invariant
                i <= self@.len() == self.entries@.len(),
                lookup(self@, k@) == lookup(self@.skip(i as int), k@),
            decreases self@.len() - i,
        {
            proof {
                self.lemma_view_index(i as int);
                let t = self@.skip(i as int);
                assert(t[0] == self@[i as int]);
                assert(t.drop_first() =~= self@.skip(i + 1));
            }
            if compare_keys(self.entries[i].0.as_str(), k) == 0 {
                return Some(&self.entries[i].1);
            }
            i = i + 1;
        }
        None
    }

    /// Whether `k` is bound.
    pub fn contains(&self, k: &str) -> (b: bool)
        requires
            self.wf(),
        ensures
            b == (lookup(self@, k@) is Some),
    {
        self.index_of(k).is_some()
    }

    /// Binds `k` to `v`.
    #[verifier::rlimit(100)]
    pub fn insert(&mut self, k: String, v: V)
        requires
            old(self).wf(),
        ensures
            final(self).wf(),
            final(self)@ == put(old(self)@, k@, v@),
    {
        let ghost s = self@;
        let ghost kk = k@;
        let ghost vv = v@;
        let mut i: usize = 0;
        proof {
            assert(s.skip(0) =~= s);
            assert(s.take(0) + s.skip(0) =~= s);
            assert(s.take(0) + put(s.skip(0), kk, vv) =~= put(s, kk, vv));
        }
        while i < self.entries.len()
            invariant
                self@ == s,
                kk == k@,
                vv == v@,
                sorted(s),
                i <= s.len() == self.entries@.len(),
                forall|j: int| 0 <= j < i ==> key_lt(#[trigger] s[j].0, kk),
                put(s, kk, vv) == s.take(i as int) + put(s.skip(i as int), kk, vv),
            ensures
                i <= s.len(),
                put(s, kk, vv) == s.take(i as int) + put(s.skip(i as int), kk, vv),
                i < s.len() ==> !key_lt(s[i as int].0, kk),
            decreases s.len() - i,
        {
            proof {
                self.lemma_view_index(i as int);
            }
            let ki = self.entries[i].0.as_str();
            assert(ki@ == s[i as int].0);
            let kstr = k.as_str();
            assert(kstr@ == kk);
            let c = compare_keys(ki, kstr);
            assert(c < 0 ==> key_lt(ki@, kk));
            if c >= 0 {
                break;
            }
            assert(key_lt(s[i as int].0, kk));
            proof {
                let t = s.skip(i as int);
                assert(t[0] == s[i as int]);
                lemma_lt_asym(s[i as int].0, kk);
                lemma_lt_irrefl(kk);
                assert(put(t, kk, vv) == seq![t[0]] + put(t.drop_first(), kk, vv));
                assert(t.drop_first() =~= s.skip(i + 1));
                assert(s.take(i + 1) =~= s.take(i as int) + seq![s[i as int]]);
            }
            i = i + 1;
        }
        proof {
            lemma_put(s, kk, vv);
            if i < s.len() {
                self.lemma_view_index(i as int);
            }
        }
        if i < self.entries.len() && compare_keys(self.entries[i].0.as_str(), k.as_str()) == 0 {
            proof {
                let t = s.skip(i as int);
                assert(t[0] == s[i as int]);
                assert(t.drop_first() =~= s.skip(i + 1));
                assert(put(t, kk, vv) == seq![(kk, vv)] + t.drop_first());
            }
            self.entries.set(i, (k, v));
            assert(self@ =~= s.take(i as int) + (seq![(kk, vv)] + s.skip(i + 1)));
        } else {
            proof {
                let t = s.skip(i as int);
                if i < s.len() {
                    assert(t[0] == s[i as int]);
                    lemma_lt_total(kk, s[i as int].0);
                    assert(key_lt(kk, t[0].0));
                    assert(put(t, kk, vv) == seq![(kk, vv)] + t);
                } else {
                    assert(t.len() == 0);
                    assert(put(t, kk, vv) == seq![(kk, vv)]);
                    assert(t =~= Seq::<(Seq<char>, V::V)>::empty());
                }
            }
            self.entries.insert(i, (k, v));
            assert(self@ =~= s.take(i as int) + (seq![(kk, vv)] + s.skip(i as int)));
        }
    }

    /// Unbinds `k`, returning its value.
    pub fn remove(&mut self, k: &str) -> (r: Option<V>)
        requires
            old(self).wf(),
        ensures
            final(self).wf(),
            final(self)@ == del(old(self)@, k@),
            match r {
                Some(v) => lookup(old(self)@, k@) == Some(v@),
                None => lookup(old(self)@, k@) is None && final(self)@ == old(self)@,
            },
    {
        let ghost s = self@;
        proof {
            lemma_del(s, k@);
        }
        match self.index_of(k) {
            Some(i) => {
                proof {
                    lemma_del_at(s, k@, i as int);
                }
                let (_, v) = self.entries.remove(i);
                assert(self@ =~= del(s, k@));
                Some(v)
            },
            None => {
                proof {
                    lemma_del_absent(s, k@);
                }
                None
            },
        }
    }

    /// Appends an entry whose key is above every present key.
    pub fn push_last(&mut self, k: String, v: V)
        requires
            old(self).wf(),
            forall|i: int| 0 <= i < old(self)@.len() ==> key_lt(#[trigger] old(self)@[i].0, k@),
        ensures
            final(self).wf(),
            final(self)@ == old(self)@.push((k@, v@)),
    {
        let ghost s = self@;
        self.entries.push((k, v));
        assert(self@ =~= s.push((k@, v@)));
    }


    /// Removes entry `i`.
    pub fn remove_at(&mut self, i: usize) -> (r: (String, V))
        requires
            old(self).wf(),
            i < old(self)@.len(),
        ensures
            final(self).wf(),
            final(self)@ == old(self)@.remove(i as int),
            (r.0@, r.1@) == old(self)@[i as int],
    {
        let ghost s = self@;
        let r = self.entries.remove(i);
        assert(self@ =~= s.remove(i as int));
        assert(sorted(self@)) by {
            assert forall|a: int, b: int| 0 <= a < b < self@.len() implies key_lt(
                #[trigger] self@[a].0,
                #[trigger] self@[b].0,
            ) by {
                let a2 = if a < i { a } else { a + 1 };
                let b2 = if b < i { b } else { b + 1 };
                assert(self@[a] == s[a2]);
                assert(self@[b] == s[b2]);
            }
        }
        r
    }

    /// Inserts an entry at position `i`, between keys below and above `k`.
    pub fn insert_at(&mut self, i: usize, k: String, v: V)
        requires
            old(self).wf(),
            i <= old(self)@.len(),
            i > 0 ==> key_lt(old(self)@[i - 1].0, k@),
            i < old(self)@.len() ==> key_lt(k@, old(self)@[i as int].0),
        ensures
            final(self).wf(),
            final(self)@ == old(self)@.insert(i as int, (k@, v@)),
    {
        let ghost s = self@;
        let ghost kk = k@;
        self.entries.insert(i, (k, v));
        assert(self@ =~= s.insert(i as int, (kk, v@)));
        assert(sorted(self@)) by {
            assert forall|a: int, b: int| 0 <= a < b < self@.len() implies key_lt(
                #[trigger] self@[a].0,
                #[trigger] self@[b].0,
            ) by {
                if a < i && b < i {
                    assert(self@[a] == s[a] && self@[b] == s[b]);
                } else if a < i && b == i {
                    assert(self@[a] == s[a]);
                    if a < i - 1 {
                        lemma_lt_trans(s[a].0, s[i - 1].0, kk);
                    }
                } else if a < i && b > i {
                    assert(self@[a] == s[a] && self@[b] == s[b - 1]);
                } else if a == i {
                    assert(self@[b] == s[b - 1]);
                    if b - 1 > i {
                        lemma_lt_trans(kk, s[i as int].0, s[b - 1].0);
                    }
                } else {
                    assert(self@[a] == s[a - 1] && self@[b] == s[b - 1]);
                }
            }
        }
    }

    /// Replaces the value of entry `i`, returning the old value.
    pub fn replace_value_at(&mut self, i: usize, v: V) -> (r: V)
        requires
            old(self).wf(),
            i < old(self)@.len(),
        ensures
            final(self).wf(),
            final(self)@ == old(self)@.update(i as int, (old(self)@[i as int].0, v@)),
            r@ == old(self)@[i as int].1,
    {
        let ghost s = self@;
        let (k, r) = self.entries.remove(i);
        self.entries.insert(i, (k, v));
        assert(self@ =~= s.update(i as int, (s[i as int].0, v@)));
        r
    }

    /// Replaces the value of entry `i`.
    pub fn set_value_at(&mut self, i: usize, v: V)
        requires
            old(self).wf(),
            i < old(self)@.len(),
        ensures
            final(self).wf(),
            final(self)@ == old(self)@.update(i as int, (old(self)@[i as int].0, v@)),
    {
        let ghost s = self@;
        let k = self.entries[i].0.clone();
        self.entries.set(i, (k, v));
        assert(self@ =~= s.update(i as int, (s[i as int].0, v@)));
    }


    /// Rebuilds the map keeping the entries `f` maps to a value.
    pub fn filter_map<W: View, F: Fn(&String, V) -> Option<W>>(
        self,
        f: F,
        Ghost(g): Ghost<spec_fn(Seq<char>, V::V) -> Option<W::V>>,
        Ghost(inv): Ghost<spec_fn(V::V) -> bool>,
    ) -> (r: SortedMap<W>)
        requires
            self.wf(),
            forall|i: int| 0 <= i < self@.len() ==> inv(#[trigger] self@[i].1),
            forall|k: &String, v: V| inv(v@) ==> f.requires((k, v)),
            forall|k: &String, v: V, o: Option<W>| #[trigger]
                f.ensures((k, v), o) ==> opt_view(o) == g(k@, v@),
        ensures
            r.wf(),
            r@ == fmap(self@, g),
    {
        let ghost s = self@;
        let mut es = self.entries;
        let mut out: SortedMap<W> = SortedMap::new();
        let ghost mut i: int = 0;
        proof {
            lemma_fmap(s, g);
            assert(s.take(0) =~= Seq::<(Seq<char>, V::V)>::empty());
            assert(es@.map_values(|e: (String, V)| (e.0@, e.1@)) =~= s.skip(0));
        }
        while es.len() > 0
            invariant
                0 <= i <= s.len(),
                sorted(s),
                es@.map_values(|e: (String, V)| (e.0@, e.1@)) == s.skip(i),
                out.wf(),
                out@ == fmap(s.take(i), g),
                forall|j: int| 0 <= j < s.len() ==> inv(#[trigger] s[j].1),
                forall|k: &String, v: V| inv(v@) ==> f.requires((k, v)),
                forall|k: &String, v: V, o: Option<W>| #[trigger]
                    f.ensures((k, v), o) ==> opt_view(o) == g(k@, v@),
            decreases es@.len(),
        {
            let ghost before = es@;
            let (k, v) = es.remove(0);
            proof {
                let bm = before.map_values(|e: (String, V)| (e.0@, e.1@));
                assert(before[0] == (k, v));
                assert(bm[0] == (k@, v@));
                assert(s.skip(i)[0] == (k@, v@));
                assert(bm.len() == s.len() - i);
                assert(s.skip(i)[0] == s[i]);
                assert(s[i] == (k@, v@));
                assert(inv(s[i].1));
                let em = es@.map_values(|e: (String, V)| (e.0@, e.1@));
                assert forall|j: int| 0 <= j < em.len() implies #[trigger] em[j] == s.skip(i + 1)[j] by {
                    assert(es@[j] == before[j + 1]);
                    assert(em[j] == (es@[j].0@, es@[j].1@));
                    assert(bm[j + 1] == (before[j + 1].0@, before[j + 1].1@));
                    assert(bm[j + 1] == s.skip(i)[j + 1]);
                    assert(s.skip(i)[j + 1] == s[i + 1 + j]);
                    assert(s.skip(i + 1)[j] == s[i + 1 + j]);
                }
                assert(em =~= s.skip(i + 1));
                assert(s.take(i + 1).drop_last() =~= s.take(i));
                assert(s.take(i + 1).last() == s[i]);
                let t = s.take(i);
                assert(sorted(t)) by {
                    assert forall|a: int, b: int| 0 <= a < b < t.len() implies key_lt(
                        #[trigger] t[a].0,
                        #[trigger] t[b].0,
                    ) by {
                        assert(t[a] == s[a] && t[b] == s[b]);
                    }
                }
                lemma_fmap(t, g);
                assert forall|a: int| 0 <= a < out@.len() implies key_lt(#[trigger] out@[a].0, k@) by {
                    let j = choose|j: int|
                        0 <= j < t.len() && out@[a].0 == t[j].0 && g(t[j].0, t[j].1) == Some(
                            out@[a].1,
                        );
                    assert(t[j] == s[j]);
                    assert(key_lt(s[j].0, s[i].0));
                }
            }
            let o = f(&k, v);
            match o {
                Some(w) => {
                    out.push_last(k, w);
                },
                None => {},
            }
            proof {
                i = i + 1;
            }
        }
        proof {
            assert(s.take(i) =~= s);
        }
        out
    }

    /// Number of entries satisfying `f`.
    pub fn count_where<F: Fn(&String, &V) -> bool>(
        &self,
        f: F,
        Ghost(p): Ghost<spec_fn(Seq<char>, V::V) -> bool>,
    ) -> (n: usize)
        requires
            forall|k: &String, v: &V| f.requires((k, v)),
            forall|k: &String, v: &V, b: bool| #[trigger] f.ensures((k, v), b) ==> b == p(k@, v@),
        ensures
            n == filt(self@, p).len(),
    {
        let mut n: usize = 0;
        let mut i: usize = 0;
        while i < self.entries.len()
            invariant
                i <= self@.len() == self.entries@.len(),
                n == filt(self@.take(i as int), p).len(),
                n <= i,
                forall|k: &String, v: &V| f.requires((k, v)),
                forall|k: &String, v: &V, b: bool| #[trigger]
                    f.ensures((k, v), b) ==> b == p(k@, v@),
            decreases self@.len() - i,
        {
            proof {
                assert(self@.take(i + 1).drop_last() =~= self@.take(i as int));
                assert(self@.take(i + 1).last() == self@[i as int]);
                assert(self@[i as int] == (self.entries@[i as int].0@, self.entries@[i as int].1@));
            }
            if f(&self.entries[i].0, &self.entries[i].1) {
                n = n + 1;
            }
            i = i + 1;
        }
        assert(self@.take(i as int) =~= self@);
        n
    }

}

/// A property held by every value still holds after binding a value that has it.
pub proof fn lemma_put_values<X>(s: Seq<(Seq<char>, X)>, k: Seq<char>, x: X, inv: spec_fn(X) -> bool)
    requires
        sorted(s),
        forall|j: int| 0 <= j < s.len() ==> inv(#[trigger] s[j].1),
        inv(x),
    ensures
        forall|j: int| 0 <= j < put(s, k, x).len() ==> inv(#[trigger] put(s, k, x)[j].1),
{
    lemma_put(s, k, x);
    let t = put(s, k, x);
    assert forall|j: int| 0 <= j < t.len() implies inv(#[trigger] t[j].1) by {
        lemma_lookup_index(t, j);
        if t[j].0 != k {
            let y = choose|y: int| 0 <= y < s.len() && s[y].0 == t[j].0;
            lemma_lookup_index(s, y);
        }
    }
}

/// A property held by every value still holds after unbinding a key.
pub proof fn lemma_del_values<X>(s: Seq<(Seq<char>, X)>, k: Seq<char>, inv: spec_fn(X) -> bool)
    requires
        sorted(s),
        forall|j: int| 0 <= j < s.len() ==> inv(#[trigger] s[j].1),
    ensures
        forall|j: int| 0 <= j < del(s, k).len() ==> inv(#[trigger] del(s, k)[j].1),
{
    lemma_del(s, k);
    let t = del(s, k);
    assert forall|j: int| 0 <= j < t.len() implies inv(#[trigger] t[j].1) by {
        let y = choose|y: int| 0 <= y < s.len() && s[y] == t[j];
    }
}

/// A property held by every value holds of every value kept by a filter.
pub proof fn lemma_filt_values<X>(s: Seq<(Seq<char>, X)>, p: spec_fn(Seq<char>, X) -> bool, inv: spec_fn(X) -> bool)
    requires
        forall|j: int| 0 <= j < s.len() ==> inv(#[trigger] s[j].1),
    ensures
        forall|j: int| 0 <= j < filt(s, p).len() ==> inv(#[trigger] filt(s, p)[j].1),
    decreases s.len(),
{
    if s.len() > 0 {
        let t = s.drop_last();
        assert forall|j: int| 0 <= j < t.len() implies inv(#[trigger] t[j].1) by {
            assert(t[j] == s[j]);
        }
        lemma_filt_values(t, p, inv);
        assert(inv(s[s.len() - 1].1));
        let r = filt(t, p);
        if p(s.last().0, s.last().1) {
            assert forall|j: int| 0 <= j < filt(s, p).len() implies inv(#[trigger] filt(s, p)[j].1) by {
                assert(filt(s, p) == r.push(s.last()));
                if j < r.len() {
                    assert(filt(s, p)[j] == r[j]);
                }
            }
        }
    }
}

/// Every inner map of a map of maps has increasing keys.
pub open spec fn nested_sorted<X>(s: Seq<(Seq<char>, Seq<(Seq<char>, X)>)>) -> bool {
    forall|j: int| 0 <= j < s.len() ==> sorted(#[trigger] s[j].1)
}

/// The inner map under `k`, or the empty map.
pub open spec fn inner_or_empty<X>(s: Seq<(Seq<char>, Seq<(Seq<char>, X)>)>, k: Seq<char>) -> Seq<(Seq<char>, X)> {
    match lookup(s, k) {
        Some(n) => n,
        None => Seq::empty(),
    }
}

/// Binds `w` to `x` in the inner map under `k`, creating it when absent.
pub open spec fn put_nested<X>(s: Seq<(Seq<char>, Seq<(Seq<char>, X)>)>, k: Seq<char>, w: Seq<char>, x: X) -> Seq<
    (Seq<char>, Seq<(Seq<char>, X)>),
> {
    put(s, k, put(inner_or_empty(s, k), w, x))
}

/// Binds `w` to `x` in the inner map of `outer` under `k`.
pub fn upsert_nested<X: View>(outer: &mut SortedMap<SortedMap<X>>, k: &String, w: String, x: X)
    requires
        old(outer).wf(),
        nested_sorted(old(outer)@),
    ensures
        final(outer).wf(),
        nested_sorted(final(outer)@),
        final(outer)@ == put_nested(old(outer)@, k@, w@, x@),
{
    let ghost s = outer@;
    let ghost nm = put(inner_or_empty(s, k@), w@, x@);
    match outer.index_of(k.as_str()) {
        Some(i) => {
            let mut inner = outer.replace_value_at(i, SortedMap::new());
            proof {
                lemma_put(inner@, w@, x@);
            }
            inner.insert(w, x);
            outer.set_value_at(i, inner);
            proof {
                lemma_put_existing(s, i as int, nm);
                assert(outer@ =~= s.update(i as int, (k@, nm)));
                assert forall|j: int| 0 <= j < outer@.len() implies sorted(#[trigger] outer@[j].1) by {
                    if j != i {
                        assert(outer@[j] == s[j]);
                    }
                }
            }
        },
        None => {
            let mut inner = SortedMap::new();
            proof {
                lemma_put(inner@, w@, x@);
                lemma_put(s, k@, nm);
                assert(inner@ =~= inner_or_empty(s, k@));
            }
            inner.insert(w, x);
            outer.insert(k.clone(), inner);
            proof {
                assert forall|j: int| 0 <= j < outer@.len() implies sorted(#[trigger] outer@[j].1) by {
                    lemma_lookup_index(outer@, j);
                    if outer@[j].0 != k@ {
                        let y = choose|y: int| 0 <= y < s.len() && s[y].0 == outer@[j].0;
                        lemma_lookup_index(s, y);
                    }
                }
            }
        },
    }
}

impl<V: View> Default for SortedMap<V> {
    /// The empty map.
    fn default() -> (m: Self)
        ensures
            m.wf(),
            m@ == Seq::<(Seq<char>, V::V)>::empty(),
    {
        SortedMap::new()
    }
}

/// Rebinding a present key replaces its entry in place.
pub proof fn lemma_put_existing<X>(s: Seq<(Seq<char>, X)>, i: int, x: X)
    requires
        sorted(s),
        0 <= i < s.len(),
    ensures
        put(s, s[i].0, x) == s.update(i, (s[i].0, x)),
    decreases i,
{
    let k = s[i].0;
    lemma_sorted_tail(s);
    if i == 0 {
        assert(s.update(0, (k, x)) =~= seq![(k, x)] + s.drop_first());
    } else {
        assert(s.drop_first()[i - 1] == s[i]);
        lemma_put_existing(s.drop_first(), i - 1, x);
        lemma_lt_asym(s[0].0, k);
        lemma_lt_irrefl(k);
        assert(s.update(i, (k, x)) =~= seq![s[0]] + s.drop_first().update(i - 1, (k, x)));
    }
}

pub proof fn lemma_del_absent<X>(s: Seq<(Seq<char>, X)>, k: Seq<char>)
    requires
        lookup(s, k) is None,
    ensures
        del(s, k) == s,
    decreases s.len(),
{
    if s.len() > 0 {
        lemma_del_absent(s.drop_first(), k);
        assert(s =~= seq![s[0]] + s.drop_first());
    }
}

pub proof fn lemma_del_at<X>(s: Seq<(Seq<char>, X)>, k: Seq<char>, i: int)
    requires
        sorted(s),
        0 <= i < s.len(),
        s[i].0 == k,
    ensures
        del(s, k) == s.take(i) + s.skip(i + 1),
    decreases i,
{
    lemma_sorted_tail(s);
    if i == 0 {
        lemma_lookup_below(s.drop_first(), k);
        lemma_del_absent(s.drop_first(), k);
        assert(s.skip(1) =~= s.drop_first());
        assert(s.take(0) + s.skip(1) =~= s.skip(1));
    } else {
        lemma_lt_irrefl(k);
        assert(s.drop_first()[i - 1] == s[i]);
        lemma_del_at(s.drop_first(), k, i - 1);
        if s[0].0 == k {
            lemma_lt_irrefl(k);
        }
        assert(s.take(i) + s.skip(i + 1) =~= seq![s[0]] + (s.drop_first().take(i - 1)
            + s.drop_first().skip(i)));
    }
}

} // verus!
