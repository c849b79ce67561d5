//! Who owns each Contact registered for an extension, and the Contacts each
//! worker is handed. A Contact registered through several workers (the same
//! identity, see `contact_dedup_key`) belongs to one of them: the best by
//! `owner_beats`, the first seen among equals.

use super::affinity::{better_contact_owner, contact_dedup_key, dedup_key_spec, owner_beats};
use super::state_machine::{model_wf, Entries, RegistryState};
use super::types::ExtensionContactRecord;
use crate::sorted_map::{
    compare_keys, key_lt, lemma_del, lemma_lookup_index, lemma_lookup_some, lemma_lt_irrefl, lemma_lt_total,
    lemma_lt_trans, lemma_put, lookup, sorted, SortedMap,
};
use vstd::prelude::*;

verus! {

/// A worker id and one of its Contact records.
pub type Candidate = (Seq<char>, ExtensionContactRecord);

/// Whether a Contact record is live at `now_ms` (0 never expires).
pub open spec fn live_contact(r: ExtensionContactRecord, now_ms: i64) -> bool {
    r.expires_at_ms == 0 || r.expires_at_ms > now_ms
}

/// The live Contacts of worker `w`, in contact order.
pub open spec fn worker_candidates(w: Seq<char>, cs: Entries<ExtensionContactRecord>, now_ms: i64) -> Seq<
    Candidate,
>
    decreases cs.len(),
{
    if cs.len() == 0 {
        Seq::empty()
    } else {
        let prev = worker_candidates(w, cs.drop_last(), now_ms);
        if live_contact(cs.last().1, now_ms) {
            prev.push((w, cs.last().1))
        } else {
            prev
        }
    }
}

/// The live Contacts of every worker of a contact table, by worker then contact.
pub open spec fn all_candidates(ms: Entries<Entries<ExtensionContactRecord>>, now_ms: i64) -> Seq<Candidate>
    decreases ms.len(),
{
    if ms.len() == 0 {
        Seq::empty()
    } else {
        all_candidates(ms.drop_last(), now_ms) + worker_candidates(ms.last().0, ms.last().1, now_ms)
    }
}

/// The owner of the Contact identity `d` among `cands`: of those with that
/// identity, the best by `owner_beats`, the earliest among equals.
pub open spec fn contact_owner(cands: Seq<Candidate>, d: Seq<char>) -> Option<Candidate>
    decreases cands.len(),
{
    if cands.len() == 0 {
        None
    } else {
        let prev = contact_owner(cands.drop_last(), d);
        let c = cands.last();
        if dedup_key_spec(c.1.contact@) != d {
            prev
        } else {
            match prev {
                None => Some(c),
                Some(p) => if owner_beats(c.0, c.1, p.0, p.1) {
                    Some(c)
                } else {
                    Some(p)
                },
            }
        }
    }
}

/// An owner of identity `d` has that identity and is one of the candidates.
pub proof fn lemma_owner_identity(cands: Seq<Candidate>, d: Seq<char>)
    ensures
        contact_owner(cands, d) matches Some(c) ==> dedup_key_spec(c.1.contact@) == d && cands.contains(c),
    decreases cands.len(),
{
    if cands.len() > 0 {
        lemma_owner_identity(cands.drop_last(), d);
        if let Some(c) = contact_owner(cands.drop_last(), d) {
            let i = choose|i: int| 0 <= i < cands.drop_last().len() && cands.drop_last()[i] == c;
            assert(cands[i] == c);
        }
        assert(cands[cands.len() - 1] == cands.last());
    }
}

fn copy_contact(r: &ExtensionContactRecord) -> (c: ExtensionContactRecord)
    ensures
        c == *r,
{
    ExtensionContactRecord { contact: r.contact.clone(), q_milli: r.q_milli, expires_at_ms: r.expires_at_ms }
}

/// The owner of every Contact identity in a contact table.
fn contact_owners(cm: &SortedMap<SortedMap<ExtensionContactRecord>>, now_ms: i64) -> (best: SortedMap<
    (String, ExtensionContactRecord),
>)
    ensures
        best.wf(),
        forall|d: Seq<char>| #[trigger] lookup(best@, d) == contact_owner(all_candidates(cm@, now_ms), d),
{
    let mut best: SortedMap<(String, ExtensionContactRecord)> = SortedMap::new();
    let mut i: usize = 0;
    assert(cm@.take(0) =~= Seq::<(Seq<char>, Entries<ExtensionContactRecord>)>::empty());
    while i < cm.len()
        invariant
            i <= cm@.len(),
            best.wf(),
            forall|d: Seq<char>| #[trigger]
                lookup(best@, d) == contact_owner(all_candidates(cm@.take(i as int), now_ms), d),
        decreases cm@.len() - i,
    {
        let w = cm.key_at(i);
        let cs = cm.value_at(i);
        let ghost before = all_candidates(cm@.take(i as int), now_ms);
        let mut j: usize = 0;
        proof {
            assert(cs@.take(0) =~= Seq::<(Seq<char>, ExtensionContactRecord)>::empty());
            assert(before + worker_candidates(w@, cs@.take(0), now_ms) =~= before);
        }
        while j < cs.len()
            invariant
                i < cm@.len(),
                j <= cs@.len(),
                best.wf(),
                before == all_candidates(cm@.take(i as int), now_ms),
                forall|d: Seq<char>| #[trigger]
                    lookup(best@, d) == contact_owner(before + worker_candidates(w@, cs@.take(j as int), now_ms), d),
            decreases cs@.len() - j,
        {
            let rec = cs.value_at(j);
            let ghost x = before + worker_candidates(w@, cs@.take(j as int), now_ms);
            proof {
                assert(cs@.take(j + 1).drop_last() =~= cs@.take(j as int));
                assert(cs@.take(j + 1).last() == cs@[j as int]);
            }
            if rec.expires_at_ms == 0 || rec.expires_at_ms > now_ms {
                let cand = (w.clone(), copy_contact(rec));
                let ghost c: Candidate = (w@, *rec);
                proof {
                    assert(before + worker_candidates(w@, cs@.take(j + 1), now_ms) =~= x.push(c));
                    assert(x.push(c).drop_last() =~= x);
                }
                let dk = contact_dedup_key(rec.contact.as_str());
                let ghost old_best = best@;
                let replace = match best.get(dk.as_str()) {
                    Some(cur) => better_contact_owner(&cand, cur),
                    None => true,
                };
                proof {
                    assert(replace == match lookup(old_best, dk@) {
                        None => true,
                        Some(p) => owner_beats(c.0, c.1, p.0, p.1),
                    });
                }
                if replace {
                    best.insert(dk, cand);
                    proof {
                        lemma_put(old_best, dk@, c);
                    }
                }
                proof {
                    let y = x.push(c);
                    assert forall|d: Seq<char>| #[trigger] lookup(best@, d) == contact_owner(y, d) by {
                        assert(y.drop_last() == x);
                        assert(y.last() == c);
                        assert(lookup(old_best, d) == contact_owner(x, d));
                        if d != dk@ {
                            assert(dedup_key_spec(c.1.contact@) != d);
                        }
                    }
                }
            } else {
                proof {
                    assert(before + worker_candidates(w@, cs@.take(j + 1), now_ms) =~= x);
                }
            }
            j = j + 1;
        }
        proof {
            assert(cs@.take(j as int) =~= cs@);
            assert(cm@.take(i + 1).drop_last() =~= cm@.take(i as int));
            assert(cm@.take(i + 1).last() == cm@[i as int]);
        }
        i = i + 1;
    }
    proof {
        assert(cm@.take(i as int) =~= cm@);
    }
    best
}

/// Whether `a` is handed out before `b`: higher `q` first, then by Contact text.
pub open spec fn contact_before(a: ExtensionContactRecord, b: ExtensionContactRecord) -> bool {
    a.q_milli > b.q_milli || (a.q_milli == b.q_milli && key_lt(a.contact@, b.contact@))
}

/// Whether the records are in hand-out order (and so pairwise distinct).
pub open spec fn contacts_in_order(s: Seq<ExtensionContactRecord>) -> bool {
    forall|i: int, j: int| 0 <= i < j < s.len() ==> contact_before(#[trigger] s[i], #[trigger] s[j])
}

proof fn lemma_before_trans(a: ExtensionContactRecord, b: ExtensionContactRecord, c: ExtensionContactRecord)
    requires
        contact_before(a, b),
        contact_before(b, c),
    ensures
        contact_before(a, c),
{
    if a.q_milli == b.q_milli && b.q_milli == c.q_milli {
        lemma_lt_trans(a.contact@, b.contact@, c.contact@);
    }
}

proof fn lemma_before_total(a: ExtensionContactRecord, b: ExtensionContactRecord)
    requires
        a.contact@ != b.contact@,
    ensures
        contact_before(a, b) || contact_before(b, a),
{
    lemma_lt_total(a.contact@, b.contact@);
}

fn contact_before_exec(a: &ExtensionContactRecord, b: &ExtensionContactRecord) -> (r: bool)
    ensures
        r == contact_before(*a, *b),
{
    a.q_milli > b.q_milli || (a.q_milli == b.q_milli && compare_keys(a.contact.as_str(), b.contact.as_str()) < 0)
}

/// The records an owner table gives worker `w`.
pub open spec fn owned_in(bs: Seq<(Seq<char>, Candidate)>, w: Seq<char>) -> Set<ExtensionContactRecord> {
    Set::new(|r: ExtensionContactRecord| exists|i: int| 0 <= i < bs.len() && #[trigger] bs[i].1 == (w, r))
}

/// A worker's group: present exactly when it owns something, then its
/// records in hand-out order.
pub open spec fn grouped_ok(o: Option<Seq<ExtensionContactRecord>>, owned: Set<ExtensionContactRecord>) -> bool {
    match o {
        Some(s) => s.len() > 0 && contacts_in_order(s) && s.to_set() == owned,
        None => owned == Set::<ExtensionContactRecord>::empty(),
    }
}

proof fn lemma_insert_in_order(g: Seq<ExtensionContactRecord>, p: int, x: ExtensionContactRecord)
    requires
        contacts_in_order(g),
        0 <= p <= g.len(),
        forall|k: int| 0 <= k < p ==> contact_before(#[trigger] g[k], x),
        forall|k: int| p <= k < g.len() ==> contact_before(x, #[trigger] g[k]),
    ensures
        contacts_in_order(g.insert(p, x)),
        g.insert(p, x).to_set() == g.to_set().insert(x),
{
    let h = g.insert(p, x);
    assert forall|i: int, j: int| 0 <= i < j < h.len() implies contact_before(#[trigger] h[i], #[trigger] h[j]) by {
        if j < p {
            assert(h[i] == g[i] && h[j] == g[j]);
        } else if j == p {
            assert(h[i] == g[i]);
        } else if i < p {
            assert(h[i] == g[i] && h[j] == g[j - 1]);
        } else if i == p {
            assert(h[j] == g[j - 1]);
        } else {
            assert(h[i] == g[i - 1] && h[j] == g[j - 1]);
        }
    }
    assert forall|y: ExtensionContactRecord| h.to_set().contains(y) <==> g.to_set().insert(x).contains(y) by {
        if h.to_set().contains(y) {
            let k = choose|k: int| 0 <= k < h.len() && h[k] == y;
            if k < p {
                assert(g[k] == y);
            } else if k > p {
                assert(g[k - 1] == y);
            }
        }
        if g.to_set().contains(y) && y != x {
            let k = choose|k: int| 0 <= k < g.len() && g[k] == y;
            if k < p {
                assert(h[k] == y);
            } else {
                assert(h[k + 1] == y);
            }
        }
        if y == x {
            assert(h[p] == x);
        }
    }
    assert(h.to_set() =~= g.to_set().insert(x));
}

/// Groups an owner table by worker, each group in hand-out order.
fn group_owned(best: &SortedMap<(String, ExtensionContactRecord)>) -> (out: SortedMap<Vec<ExtensionContactRecord>>)
    requires
        best.wf(),
        forall|i: int| 0 <= i < best@.len() ==> #[trigger] best@[i].0 == dedup_key_spec(best@[i].1.1.contact@),
    ensures
        out.wf(),
        forall|w: Seq<char>| #[trigger] grouped_ok(lookup(out@, w), owned_in(best@, w)),
{
    let ghost bs = best@;
    let mut out: SortedMap<Vec<ExtensionContactRecord>> = SortedMap::new();
    let mut e: usize = 0;
    proof {
        assert forall|w: Seq<char>| #[trigger] grouped_ok(lookup(out@, w), owned_in(bs.take(0), w)) by {
            assert(owned_in(bs.take(0), w) =~= Set::<ExtensionContactRecord>::empty());
        }
    }
    while e < best.len()
        invariant
            e <= bs.len(),
            bs == best@,
            sorted(bs),
            forall|i: int| 0 <= i < bs.len() ==> #[trigger] bs[i].0 == dedup_key_spec(bs[i].1.1.contact@),
            out.wf(),
            forall|w: Seq<char>| #[trigger] grouped_ok(lookup(out@, w), owned_in(bs.take(e as int), w)),
        decreases bs.len() - e,
    {
        let entry = best.value_at(e);
        let w = &entry.0;
        let x = copy_contact(&entry.1);
        let ghost out0 = out@;
        let ghost wv = w@;
        proof {
            assert(bs[e as int].1 == (wv, x));
            assert forall|w2: Seq<char>|
                #[trigger] owned_in(bs.take(e + 1), w2) == (if w2 == wv {
                    owned_in(bs.take(e as int), w2).insert(x)
                } else {
                    owned_in(bs.take(e as int), w2)
                }) by {
                let a = owned_in(bs.take(e + 1), w2);
                let b = owned_in(bs.take(e as int), w2);
                assert forall|r: ExtensionContactRecord| a.contains(r) <==> (if w2 == wv { b.insert(x) } else { b }).contains(r) by {
                    if a.contains(r) {
                        let i = choose|i: int| 0 <= i < bs.take(e + 1).len() && #[trigger] bs.take(e + 1)[i] .1 == (w2, r);
                        if i < e {
                            assert(bs.take(e as int)[i] == bs.take(e + 1)[i]);
                        } else {
                            assert(bs.take(e + 1)[i] == bs[e as int]);
                        }
                    }
                    if b.contains(r) {
                        let i = choose|i: int| 0 <= i < bs.take(e as int).len() && #[trigger] bs.take(e as int)[i].1 == (w2, r);
                        assert(bs.take(e + 1)[i] == bs.take(e as int)[i]);
                    }
                    if w2 == wv && r == x {
                        assert(bs.take(e + 1)[e as int] == bs[e as int]);
                    }
                }
                assert(a =~= (if w2 == wv { b.insert(x) } else { b }));
            }
        }
        let g = match out.remove(w.as_str()) {
            Some(g) => g,
            None => Vec::new(),
        };
        proof {
            lemma_del(out0, wv);
            assert(grouped_ok(lookup(out0, wv), owned_in(bs.take(e as int), wv)));
            if lookup(out0, wv) is None {
                assert(g@ =~= Seq::<ExtensionContactRecord>::empty());
                assert(g@.to_set() =~= Set::<ExtensionContactRecord>::empty());
            }
        }
        let ghost gv = g@;
        proof {
            assert(contacts_in_order(gv));
            assert(gv.to_set() == owned_in(bs.take(e as int), wv));
            assert forall|k: int| 0 <= k < gv.len() implies (#[trigger] gv[k]).contact@ != x.contact@ by {
                assert(gv.to_set().contains(gv[k]));
                let i = choose|i: int| 0 <= i < bs.take(e as int).len() && #[trigger] bs.take(e as int)[i].1 == (wv, gv[k]);
                assert(bs.take(e as int)[i] == bs[i]);
                assert(key_lt(bs[i].0, bs[e as int].0));
                lemma_lt_irrefl(bs[i].0);
            }
        }
        let mut p: usize = 0;
        while p < g.len() && contact_before_exec(&g[p], &x)
            invariant
                p <= g@.len(),
                g@ == gv,
                forall|k: int| 0 <= k < p ==> contact_before(#[trigger] gv[k], x),
            decreases g@.len() - p,
        {
            p = p + 1;
        }
        proof {
            if p < gv.len() {
                lemma_before_total(gv[p as int], x);
                assert forall|k: int| p <= k < gv.len() implies contact_before(x, #[trigger] gv[k]) by {
                    if k > p {
                        lemma_before_trans(x, gv[p as int], gv[k]);
                    }
                }
            }
            lemma_insert_in_order(gv, p as int, x);
        }
        let mut g = g;
        g.insert(p, x);
        let ghost out1 = out@;
        out.insert(w.clone(), g);
        proof {
            lemma_put(out1, wv, gv.insert(p as int, x));
            assert forall|w2: Seq<char>| #[trigger] grouped_ok(lookup(out@, w2), owned_in(bs.take(e + 1), w2)) by {
                assert(owned_in(bs.take(e + 1), w2) == (if w2 == wv {
                    owned_in(bs.take(e as int), w2).insert(x)
                } else {
                    owned_in(bs.take(e as int), w2)
                }));
                if w2 != wv {
                    assert(lookup(out@, w2) == lookup(out0, w2));
                    assert(grouped_ok(lookup(out0, w2), owned_in(bs.take(e as int), w2)));
                }
            }
        }
        e = e + 1;
    }
    proof {
        assert(bs.take(e as int) =~= bs);
    }
    out
}

/// The contact table of an affinity key (empty when there is none).
pub open spec fn key_table(m: super::state_machine::RegistryModel, key: Seq<char>) -> Entries<
    Entries<ExtensionContactRecord>,
> {
    match lookup(m.contacts, key) {
        Some(t) => t,
        None => Seq::empty(),
    }
}

/// The live Contacts worker `w` owns in a contact table at `now_ms`.
pub open spec fn owned_by(ms: Entries<Entries<ExtensionContactRecord>>, now_ms: i64, w: Seq<char>) -> Set<
    ExtensionContactRecord,
> {
    Set::new(
        |r: ExtensionContactRecord|
            exists|d: Seq<char>| #[trigger] contact_owner(all_candidates(ms, now_ms), d) == Some((w, r)),
    )
}

impl RegistryState {
    /// The live Contacts registered under an affinity key, by the worker that
    /// owns each one (see `contact_owner`), each worker's list highest `q`
    /// first and then by Contact. Workers that own nothing are absent.
    pub fn contacts_for_affinity(&self, key: &str, now_ms: i64) -> (r: SortedMap<Vec<ExtensionContactRecord>>)
        requires
            model_wf(self@),
        ensures
            r.wf(),
            forall|w: Seq<char>| #[trigger]
                grouped_ok(lookup(r@, w), owned_by(key_table(self@, key@), now_ms, w)),
    {
        match self.contacts_of(key) {
            None => {
                let r: SortedMap<Vec<ExtensionContactRecord>> = SortedMap::new();
                proof {
                    assert forall|w: Seq<char>| #[trigger]
                        grouped_ok(lookup(r@, w), owned_by(key_table(self@, key@), now_ms, w)) by {
                        assert(all_candidates(Seq::<(Seq<char>, Entries<ExtensionContactRecord>)>::empty(), now_ms)
                            =~= Seq::<Candidate>::empty());
                        assert(owned_by(key_table(self@, key@), now_ms, w) =~= Set::<ExtensionContactRecord>::empty());
                    }
                }
                r
            },
            Some(cm) => {
                let best = contact_owners(cm, now_ms);
                let ghost cands = all_candidates(cm@, now_ms);
                proof {
                    assert forall|i: int| 0 <= i < best@.len() implies #[trigger] best@[i].0 == dedup_key_spec(
                        best@[i].1.1.contact@,
                    ) by {
                        lemma_lookup_index(best@, i);
                        assert(lookup(best@, best@[i].0) == contact_owner(cands, best@[i].0));
                        lemma_owner_identity(cands, best@[i].0);
                    }
                }
                let out = group_owned(&best);
                proof {
                    assert forall|w: Seq<char>| #[trigger] owned_in(best@, w) == owned_by(cm@, now_ms, w) by {
                        assert forall|r: ExtensionContactRecord|
                            owned_in(best@, w).contains(r) <==> owned_by(cm@, now_ms, w).contains(r) by {
                            if owned_in(best@, w).contains(r) {
                                let i = choose|i: int| 0 <= i < best@.len() && #[trigger] best@[i].1 == (w, r);
                                lemma_lookup_index(best@, i);
                                assert(lookup(best@, best@[i].0) == contact_owner(cands, best@[i].0));
                            }
                            if owned_by(cm@, now_ms, w).contains(r) {
                                let d = choose|d: Seq<char>| #[trigger] contact_owner(cands, d) == Some((w, r));
                                assert(lookup(best@, d) == contact_owner(cands, d));
                                lemma_lookup_some(best@, d);
                            }
                        }
                        assert(owned_in(best@, w) =~= owned_by(cm@, now_ms, w));
                    }
                    assert(key_table(self@, key@) == cm@);
                    assert forall|w: Seq<char>| #[trigger]
                        grouped_ok(lookup(out@, w), owned_by(key_table(self@, key@), now_ms, w)) by {
                        assert(grouped_ok(lookup(out@, w), owned_in(best@, w)));
                    }
                }
                out
            },
        }
    }
}

proof fn lemma_beats_trans(
    aw: Seq<char>,
    a: ExtensionContactRecord,
    bw: Seq<char>,
    b: ExtensionContactRecord,
    cw: Seq<char>,
    c: ExtensionContactRecord,
)
    requires
        owner_beats(aw, a, bw, b),
        owner_beats(bw, b, cw, c),
    ensures
        owner_beats(aw, a, cw, c),
{
    if a.q_milli == b.q_milli && b.q_milli == c.q_milli && a.expires_at_ms == b.expires_at_ms && b.expires_at_ms
        == c.expires_at_ms {
        lemma_lt_trans(aw, bw, cw);
    }
}

proof fn lemma_worker_candidates_live(w: Seq<char>, cs: Entries<ExtensionContactRecord>, now_ms: i64)
    ensures
        forall|i: int| 0 <= i < worker_candidates(w, cs, now_ms).len() ==> live_contact(
            #[trigger] worker_candidates(w, cs, now_ms)[i].1,
            now_ms,
        ),
    decreases cs.len(),
{
    if cs.len() > 0 {
        lemma_worker_candidates_live(w, cs.drop_last(), now_ms);
        let prev = worker_candidates(w, cs.drop_last(), now_ms);
        if live_contact(cs.last().1, now_ms) {
            let all = prev.push((w, cs.last().1));
            assert forall|i: int| 0 <= i < all.len() implies live_contact(#[trigger] all[i].1, now_ms) by {
                if i < prev.len() {
                    assert(all[i] == prev[i]);
                }
            }
        }
    }
}

proof fn lemma_all_candidates_live(ms: Entries<Entries<ExtensionContactRecord>>, now_ms: i64)
    ensures
        forall|i: int| 0 <= i < all_candidates(ms, now_ms).len() ==> live_contact(
            #[trigger] all_candidates(ms, now_ms)[i].1,
            now_ms,
        ),
    decreases ms.len(),
{
    if ms.len() > 0 {
        lemma_all_candidates_live(ms.drop_last(), now_ms);
        lemma_worker_candidates_live(ms.last().0, ms.last().1, now_ms);
        let a = all_candidates(ms.drop_last(), now_ms);
        let b = worker_candidates(ms.last().0, ms.last().1, now_ms);
        assert forall|i: int| 0 <= i < (a + b).len() implies live_contact(#[trigger] (a + b)[i].1, now_ms) by {
            if i < a.len() {
                assert((a + b)[i] == a[i]);
            } else {
                assert((a + b)[i] == b[i - a.len()]);
            }
        }
    }
}

/// The owner of a Contact identity is never beaten by another registration
/// of it: no candidate with that identity has a higher `q`, or an equal `q`
/// and a later expiry, or both equal and a smaller worker id.
pub proof fn law_owner_is_best(cands: Seq<Candidate>, d: Seq<char>, c: Candidate)
    requires
        cands.contains(c),
        dedup_key_spec(c.1.contact@) == d,
    ensures
        contact_owner(cands, d) matches Some(o) && !owner_beats(c.0, c.1, o.0, o.1),
    decreases cands.len(),
{
    let i = choose|i: int| 0 <= i < cands.len() && cands[i] == c;
    let prev = cands.drop_last();
    let l = cands.last();
    if i == cands.len() - 1 {
        assert(l == c);
        match contact_owner(prev, d) {
            None => {
                lemma_lt_irrefl(c.0);
            },
            Some(p) => {
                if !owner_beats(l.0, l.1, p.0, p.1) {
                } else {
                    lemma_lt_irrefl(c.0);
                }
            },
        }
    } else {
        assert(prev[i] == c);
        law_owner_is_best(prev, d, c);
        let p = contact_owner(prev, d)->0;
        if dedup_key_spec(l.1.contact@) == d && owner_beats(l.0, l.1, p.0, p.1) {
            if owner_beats(c.0, c.1, l.0, l.1) {
                lemma_beats_trans(c.0, c.1, l.0, l.1, p.0, p.1);
            }
        }
    }
}

/// A Contact goes to one worker only: two handed-out records with the same
/// identity are the same record of the same worker.
pub proof fn law_contact_single_owner(
    ms: Entries<Entries<ExtensionContactRecord>>,
    now_ms: i64,
    w1: Seq<char>,
    r1: ExtensionContactRecord,
    w2: Seq<char>,
    r2: ExtensionContactRecord,
)
    requires
        owned_by(ms, now_ms, w1).contains(r1),
        owned_by(ms, now_ms, w2).contains(r2),
        dedup_key_spec(r1.contact@) == dedup_key_spec(r2.contact@),
    ensures
        w1 == w2 && r1 == r2,
{
    let cands = all_candidates(ms, now_ms);
    let d1 = choose|d: Seq<char>| #[trigger] contact_owner(cands, d) == Some((w1, r1));
    let d2 = choose|d: Seq<char>| #[trigger] contact_owner(cands, d) == Some((w2, r2));
    lemma_owner_identity(cands, d1);
    lemma_owner_identity(cands, d2);
}

/// Only live Contacts are handed out.
pub proof fn law_handed_out_contacts_are_live(
    ms: Entries<Entries<ExtensionContactRecord>>,
    now_ms: i64,
    w: Seq<char>,
    r: ExtensionContactRecord,
)
    requires
        owned_by(ms, now_ms, w).contains(r),
    ensures
        live_contact(r, now_ms),
{
    let cands = all_candidates(ms, now_ms);
    let d = choose|d: Seq<char>| #[trigger] contact_owner(cands, d) == Some((w, r));
    lemma_owner_identity(cands, d);
    lemma_all_candidates_live(ms, now_ms);
    let i = choose|i: int| 0 <= i < cands.len() && cands[i] == (w, r);
    assert(live_contact(cands[i].1, now_ms));
}

} // verus!
