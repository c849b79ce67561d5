//! Contacts registered through more than one worker: for each affinity key
//! and Contact identity with two or more live registrations, the
//! registrations ranked best first (see `owner_beats`) and the one selected.

use super::affinity::{contact_dedup_key, dedup_key_spec, owner_beats};
use super::contacts::{all_candidates, contact_owner, worker_candidates, Candidate};
use super::state_machine::{model_wf, Entries, RegistryModel, RegistryState};
use super::types::ExtensionContactRecord;
use crate::seqs::{keep, lemma_keep_append, lemma_keep_none, lemma_keep_single};
use crate::sorted_map::{
    compare_keys, key_lt, lemma_del, lemma_lookup_index, lemma_lookup_some, lemma_lt_asym, lemma_lt_irrefl,
    lemma_lt_total, lemma_lt_trans, lemma_put, lookup, sorted, SortedMap,
};
use vstd::prelude::*;

verus! {

/// One live registration of a contested Contact.
#[derive(Clone, Debug)]
pub struct ExtensionContactConflictCandidate {
    pub worker_id: String,
    pub contact: String,
    pub q_milli: u16,
    pub expires_at_ms: i64,
}

impl View for ExtensionContactConflictCandidate {
    type V = Candidate;

    open spec fn view(&self) -> Candidate {
        (
            self.worker_id@,
            ExtensionContactRecord { contact: self.contact, q_milli: self.q_milli, expires_at_ms: self.expires_at_ms },
        )
    }
}

/// A Contact identity registered through several workers.
#[derive(Clone, Debug)]
pub struct ExtensionContactConflict {
    pub affinity_key: String,
    pub contact_key: String,
    pub selected_worker_id: String,
    pub selected_contact: String,
    /// Every live registration, best first.
    pub candidates: Vec<ExtensionContactConflictCandidate>,
}

/// The views of a list of registrations.
pub open spec fn cand_views(v: Seq<ExtensionContactConflictCandidate>) -> Seq<Candidate> {
    v.map_values(|c: ExtensionContactConflictCandidate| c@)
}

/// Registrations of the Contact identity `d`.
pub open spec fn has_identity(d: Seq<char>) -> spec_fn(Candidate) -> bool {
    |c: Candidate| dedup_key_spec(c.1.contact@) == d
}

/// The live registrations of identity `d` in a contact table, by worker then contact.
pub open spec fn identity_group(t: Entries<Entries<ExtensionContactRecord>>, now_ms: i64, d: Seq<char>) -> Seq<
    Candidate,
> {
    keep(all_candidates(t, now_ms), has_identity(d))
}

/// Registrations that rank equal with `x`: same `q`, expiry and worker.
pub open spec fn same_standing(x: Candidate) -> spec_fn(Candidate) -> bool {
    |y: Candidate| y.1.q_milli == x.1.q_milli && y.1.expires_at_ms == x.1.expires_at_ms && y.0 == x.0
}

/// Whether no registration is ranked after one that it beats.
pub open spec fn in_standing_order(s: Seq<Candidate>) -> bool {
    forall|i: int, j: int| 0 <= i < j < s.len() ==> !owner_beats(#[trigger] s[j].0, s[j].1, #[trigger] s[i].0, s[i].1)
}

/// `out` is `g` ranked best first, keeping the order of `g` among equals.
pub open spec fn standing_sort_of(out: Seq<Candidate>, g: Seq<Candidate>) -> bool {
    &&& in_standing_order(out)
    &&& forall|x: Candidate| #[trigger] keep(out, same_standing(x)) == keep(g, same_standing(x))
}

proof fn lemma_beats_trans(a: Candidate, b: Candidate, c: Candidate)
    requires
        owner_beats(a.0, a.1, b.0, b.1),
        owner_beats(b.0, b.1, c.0, c.1),
    ensures
        owner_beats(a.0, a.1, c.0, c.1),
{
    if a.1.q_milli == b.1.q_milli && b.1.q_milli == c.1.q_milli && a.1.expires_at_ms == b.1.expires_at_ms
        && b.1.expires_at_ms == c.1.expires_at_ms {
        lemma_lt_trans(a.0, b.0, c.0);
    }
}

proof fn lemma_beats_total(a: Candidate, b: Candidate)
    ensures
        owner_beats(a.0, a.1, b.0, b.1) || owner_beats(b.0, b.1, a.0, a.1) || same_standing(a)(b),
{
    lemma_lt_total(a.0, b.0);
}

proof fn lemma_beats_strict(a: Candidate, b: Candidate)
    requires
        owner_beats(a.0, a.1, b.0, b.1),
    ensures
        !owner_beats(b.0, b.1, a.0, a.1),
        !same_standing(a)(b),
{
    lemma_lt_asym(a.0, b.0);
    lemma_lt_irrefl(a.0);
}

proof fn lemma_beats_same_standing(a: Candidate, b: Candidate, c: Candidate)
    requires
        owner_beats(a.0, a.1, b.0, b.1),
        same_standing(b)(c),
    ensures
        owner_beats(a.0, a.1, c.0, c.1),
{
}

/// Inserting `x` after every registration it does not beat keeps the
/// ranking and adds `x` last among its equals.
proof fn lemma_insert_standing(out: Seq<Candidate>, p: int, x: Candidate)
    requires
        in_standing_order(out),
        0 <= p <= out.len(),
        forall|j: int| 0 <= j < p ==> !owner_beats(x.0, x.1, #[trigger] out[j].0, out[j].1),
        p < out.len() ==> owner_beats(x.0, x.1, out[p].0, out[p].1),
    ensures
        in_standing_order(out.insert(p, x)),
        forall|y: Candidate|
            #[trigger] keep(out.insert(p, x), same_standing(y)) == if same_standing(y)(x) {
                keep(out, same_standing(y)).push(x)
            } else {
                keep(out, same_standing(y))
            },
{
    let o2 = out.insert(p, x);
    assert forall|k: int| p <= k < out.len() implies owner_beats(x.0, x.1, #[trigger] out[k].0, out[k].1) by {
        if k > p {
            lemma_beats_total(out[p], out[k]);
            if owner_beats(out[p].0, out[p].1, out[k].0, out[k].1) {
                lemma_beats_trans(x, out[p], out[k]);
            } else if owner_beats(out[k].0, out[k].1, out[p].0, out[p].1) {
                assert(!owner_beats(out[k].0, out[k].1, out[p].0, out[p].1));
            } else {
                lemma_beats_same_standing(x, out[p], out[k]);
            }
        }
    }
    assert forall|i: int, j: int| 0 <= i < j < o2.len() implies !owner_beats(#[trigger] o2[j].0, o2[j].1, #[trigger] o2[i].0, o2[i].1) by {
        if j < p {
            assert(o2[i] == out[i] && o2[j] == out[j]);
        } else if j == p {
            assert(o2[i] == out[i]);
        } else if i < p {
            assert(o2[i] == out[i] && o2[j] == out[j - 1]);
        } else if i == p {
            assert(o2[j] == out[j - 1]);
            lemma_beats_strict(x, out[j - 1]);
        } else {
            assert(o2[i] == out[i - 1] && o2[j] == out[j - 1]);
        }
    }
    let a = out.take(p);
    let b = out.skip(p);
    assert(out =~= a + b);
    assert(o2 =~= a + seq![x] + b);
    assert forall|y: Candidate|
        #[trigger] keep(out.insert(p, x), same_standing(y)) == if same_standing(y)(x) {
            keep(out, same_standing(y)).push(x)
        } else {
            keep(out, same_standing(y))
        } by {
        let q = same_standing(y);
        lemma_keep_append(a, b, q);
        lemma_keep_append(a + seq![x], b, q);
        lemma_keep_append(a, seq![x], q);
        lemma_keep_single(x, q);
        if q(x) {
            assert forall|i: int| 0 <= i < b.len() implies !q(#[trigger] b[i]) by {
                assert(b[i] == out[p + i]);
                lemma_beats_strict(x, out[p + i]);
            }
            lemma_keep_none(b, q);
            assert(keep(a, q) + keep(b, q) =~= keep(a, q));
            assert(keep(a, q) + seq![x] + keep(b, q) =~= keep(a, q).push(x));
        } else {
            assert(keep(a, q) + Seq::<Candidate>::empty() =~= keep(a, q));
        }
    }
}

fn beats_exec(a: &ExtensionContactConflictCandidate, b: &ExtensionContactConflictCandidate) -> (r: bool)
    ensures
        r == owner_beats(a@.0, a@.1, b@.0, b@.1),
{
    if a.q_milli != b.q_milli {
        a.q_milli > b.q_milli
    } else if a.expires_at_ms != b.expires_at_ms {
        a.expires_at_ms > b.expires_at_ms
    } else {
        compare_keys(a.worker_id.as_str(), b.worker_id.as_str()) < 0
    }
}

/// The registrations ranked best first, keeping their order among equals.
pub fn standing_sort(list: Vec<ExtensionContactConflictCandidate>) -> (out: Vec<ExtensionContactConflictCandidate>)
    ensures
        standing_sort_of(cand_views(out@), cand_views(list@)),
        out@.len() == list@.len(),
{
    let ghost all = cand_views(list@);
    let n = list.len();
    let mut rest = list;
    let mut out: Vec<ExtensionContactConflictCandidate> = Vec::new();
    let mut j: usize = 0;
    assert(all.take(0) =~= Seq::<Candidate>::empty());
    assert(cand_views(out@) =~= Seq::<Candidate>::empty());
    while j < n
        invariant
            j <= n == all.len(),
            cand_views(rest@) == all.skip(j as int),
            rest@.len() == n - j,
            out@.len() == j,
            in_standing_order(cand_views(out@)),
            forall|y: Candidate| #[trigger]
                keep(cand_views(out@), same_standing(y)) == keep(all.take(j as int), same_standing(y)),
        decreases n - j,
    {
        let ghost prev = all.take(j as int);
        proof {
            assert(all.take(j + 1).drop_last() =~= prev);
            assert(all.take(j + 1).last() == all[j as int]);
            assert(cand_views(rest@)[0] == all[j as int]);
        }
        let ghost old_rest = rest@;
        let c = rest.remove(0);
        proof {
            assert(rest@ == old_rest.remove(0));
            assert forall|k: int| 0 <= k < rest@.len() implies #[trigger] cand_views(rest@)[k] == all.skip(j + 1)[k] by {
                assert(rest@[k] == old_rest[k + 1]);
                assert(cand_views(old_rest)[k + 1] == all.skip(j as int)[k + 1]);
            }
            assert(cand_views(rest@) =~= all.skip(j + 1));
            assert(c@ == all[j as int]);
        }
        let ghost ov = cand_views(out@);
        let mut p: usize = 0;
        while p < out.len() && !beats_exec(&c, &out[p])
            invariant
                p <= out@.len(),
                ov == cand_views(out@),
                forall|k: int| 0 <= k < p ==> !owner_beats(c@.0, c@.1, #[trigger] ov[k].0, ov[k].1),
            decreases out@.len() - p,
        {
            p = p + 1;
        }
        proof {
            lemma_insert_standing(ov, p as int, c@);
            assert forall|y: Candidate| #[trigger] keep(all.take(j + 1), same_standing(y)) == if same_standing(y)(c@) {
                keep(prev, same_standing(y)).push(c@)
            } else {
                keep(prev, same_standing(y))
            } by {
                assert(all.take(j + 1) =~= prev.push(c@));
            }
        }
        let ghost c_view = c@;
        out.insert(p, c);
        proof {
            assert(cand_views(out@) =~= ov.insert(p as int, c_view));
        }
        j = j + 1;
    }
    assert(all.take(j as int) =~= all);
    out
}

/// A group entry: present exactly when the identity has live registrations,
/// then those registrations in order.
pub open spec fn group_entry_ok(o: Option<Seq<ExtensionContactConflictCandidate>>, g: Seq<Candidate>) -> bool {
    match o {
        Some(l) => l.len() > 0 && cand_views(l) == g,
        None => g.len() == 0,
    }
}

fn registration(w: &String, rec: &ExtensionContactRecord) -> (c: ExtensionContactConflictCandidate)
    ensures
        c@ == (w@, *rec),
{
    ExtensionContactConflictCandidate {
        worker_id: w.clone(),
        contact: rec.contact.clone(),
        q_milli: rec.q_milli,
        expires_at_ms: rec.expires_at_ms,
    }
}

/// The live registrations of a contact table grouped by Contact identity.
fn identity_groups(cm: &SortedMap<SortedMap<ExtensionContactRecord>>, now_ms: i64) -> (bc: SortedMap<
    Vec<ExtensionContactConflictCandidate>,
>)
    ensures
        bc.wf(),
        forall|d: Seq<char>| #[trigger] group_entry_ok(lookup(bc@, d), identity_group(cm@, now_ms, d)),
{
    let mut bc: SortedMap<Vec<ExtensionContactConflictCandidate>> = SortedMap::new();
    let mut i: usize = 0;
    assert(cm@.take(0) =~= Seq::<(Seq<char>, Entries<ExtensionContactRecord>)>::empty());
    while i < cm.len()
        invariant
            i <= cm@.len(),
            bc.wf(),
            forall|d: Seq<char>| #[trigger]
                group_entry_ok(lookup(bc@, d), keep(all_candidates(cm@.take(i as int), now_ms), has_identity(d))),
        decreases cm@.len() - i,
    {
        let w = cm.key_at(i);
        let cs = cm.value_at(i);
        let ghost before = all_candidates(cm@.take(i as int), now_ms);
        let mut j: usize = 0;
        proof {
            assert(cs@.take(0) =~= Seq::<(Seq<char>, ExtensionContactRecord)>::empty());
            assert(before + worker_candidates(w@, cs@.take(0), now_ms) =~= before);
        }
        while j < cs.len()
            invariant
                i < cm@.len(),
                j <= cs@.len(),
                bc.wf(),
                before == all_candidates(cm@.take(i as int), now_ms),
                forall|d: Seq<char>| #[trigger]
                    group_entry_ok(
                        lookup(bc@, d),
                        keep(before + worker_candidates(w@, cs@.take(j as int), now_ms), has_identity(d)),
                    ),
            decreases cs@.len() - j,
        {
            let rec = cs.value_at(j);
            let ghost x = before + worker_candidates(w@, cs@.take(j as int), now_ms);
            proof {
                assert(cs@.take(j + 1).drop_last() =~= cs@.take(j as int));
                assert(cs@.take(j + 1).last() == cs@[j as int]);
            }
            if rec.expires_at_ms == 0 || rec.expires_at_ms > now_ms {
                let c = registration(w, rec);
                let ghost cv = c@;
                proof {
                    assert(before + worker_candidates(w@, cs@.take(j + 1), now_ms) =~= x.push(cv));
                    assert(x.push(cv).drop_last() =~= x);
                    assert(x.push(cv).last() == cv);
                }
                let dk = contact_dedup_key(rec.contact.as_str());
                let ghost old_bc = bc@;
                let mut list = match bc.remove(dk.as_str()) {
                    Some(l) => l,
                    None => Vec::new(),
                };
                let ghost lv = list@;
                proof {
                    lemma_del(old_bc, dk@);
                    assert(group_entry_ok(lookup(old_bc, dk@), keep(x, has_identity(dk@))));
                    if lookup(old_bc, dk@) is None {
                        assert(lv =~= Seq::<ExtensionContactConflictCandidate>::empty());
                    }
                    assert(cand_views(lv) == keep(x, has_identity(dk@)));
                }
                list.push(c);
                proof {
                    assert(cand_views(list@) =~= cand_views(lv).push(cv));
                }
                let ghost mid = bc@;
                let ghost new_list = list@;
                bc.insert(dk, list);
                proof {
                    lemma_put(mid, dk@, new_list);
                    assert forall|d: Seq<char>| #[trigger]
                        group_entry_ok(lookup(bc@, d), keep(x.push(cv), has_identity(d))) by {
                        assert(group_entry_ok(lookup(old_bc, d), keep(x, has_identity(d))));
                        if d != dk@ {
                            assert(!has_identity(d)(cv));
                            assert(lookup(bc@, d) == lookup(old_bc, d));
                        } else {
                            assert(has_identity(d)(cv));
                        }
                    }
                }
            } else {
                proof {
                    assert(before + worker_candidates(w@, cs@.take(j + 1), now_ms) =~= x);
                }
            }
            j = j + 1;
        }
        proof {
            assert(cs@.take(j as int) =~= cs@);
            assert(cm@.take(i + 1).drop_last() =~= cm@.take(i as int));
            assert(cm@.take(i + 1).last() == cm@[i as int]);
        }
        i = i + 1;
    }
    proof {
        assert(cm@.take(i as int) =~= cm@);
    }
    bc
}

/// Whether identity `d` of affinity key `ak` has two or more live registrations.
pub open spec fn conflicting(m: RegistryModel, now_ms: i64, ak: Seq<char>, d: Seq<char>) -> bool {
    match lookup(m.contacts, ak) {
        Some(t) => identity_group(t, now_ms, d).len() >= 2,
        None => false,
    }
}

/// Whether a reported conflict is right: its identity has two or more live
/// registrations, listed best first (see `standing_sort_of`), and the first
/// is the one selected.
pub open spec fn conflict_ok(m: RegistryModel, now_ms: i64, x: ExtensionContactConflict) -> bool {
    match lookup(m.contacts, x.affinity_key@) {
        Some(t) => {
            let g = identity_group(t, now_ms, x.contact_key@);
            &&& g.len() >= 2
            &&& standing_sort_of(cand_views(x.candidates@), g)
            &&& x.candidates@.len() > 0
            &&& x.selected_worker_id@ == x.candidates@[0].worker_id@
            &&& x.selected_contact@ == x.candidates@[0].contact@
        },
        None => false,
    }
}

/// Conflicts are listed by affinity key, then by Contact identity.
pub open spec fn conflict_key_lt(a: ExtensionContactConflict, b: ExtensionContactConflict) -> bool {
    key_lt(a.affinity_key@, b.affinity_key@) || (a.affinity_key@ == b.affinity_key@ && key_lt(
        a.contact_key@,
        b.contact_key@,
    ))
}

/// Whether the list reports identity `d` of affinity key `ak`.
pub open spec fn listed(r: Seq<ExtensionContactConflict>, ak: Seq<char>, d: Seq<char>) -> bool {
    exists|i: int| 0 <= i < r.len() && #[trigger] r[i].affinity_key@ == ak && r[i].contact_key@ == d
}

fn copy_registrations(v: &Vec<ExtensionContactConflictCandidate>) -> (r: Vec<ExtensionContactConflictCandidate>)
    ensures
        r@ == v@,
{
    let mut r: Vec<ExtensionContactConflictCandidate> = Vec::new();
    let mut i: usize = 0;
    while i < v.len()
        invariant
            i <= v@.len(),
            r@ == v@.take(i as int),
        decreases v@.len() - i,
    {
        let c = &v[i];
        let d = ExtensionContactConflictCandidate {
            worker_id: c.worker_id.clone(),
            contact: c.contact.clone(),
            q_milli: c.q_milli,
            expires_at_ms: c.expires_at_ms,
        };
        r.push(d);
        assert(r@ =~= v@.take(i + 1));
        i = i + 1;
    }
    assert(v@.take(i as int) =~= v@);
    r
}

impl RegistryState {
    /// Every Contact identity registered live through two or more workers,
    /// by affinity key and then identity, each with its registrations best
    /// first and the first selected. Exactly the conflicting identities are
    /// listed, each once: one conflict per identity with two or more live
    /// registrations, none for an identity registered once.
    pub fn extension_contact_conflicts(&self, now_ms: i64) -> (r: Vec<ExtensionContactConflict>)
        requires
            model_wf(self@),
        ensures
            forall|i: int, j: int| 0 <= i < j < r@.len() ==> conflict_key_lt(#[trigger] r@[i], #[trigger] r@[j]),
            forall|i: int| 0 <= i < r@.len() ==> conflict_ok(self@, now_ms, #[trigger] r@[i]),
            forall|ak: Seq<char>, d: Seq<char>| #[trigger] conflicting(self@, now_ms, ak, d) ==> listed(r@, ak, d),
            forall|ak: Seq<char>, d: Seq<char>| #[trigger] listed(r@, ak, d) ==> conflicting(self@, now_ms, ak, d),
            forall|i: int, j: int|
                0 <= i < j < r@.len() ==> !(#[trigger] r@[i].affinity_key@ == #[trigger] r@[j].affinity_key@
                    && r@[i].contact_key@ == r@[j].contact_key@),
    {
        let ct = self.contact_tables();
        let ghost m = self@;
        let ghost cts = ct@;
        let mut out: Vec<ExtensionContactConflict> = Vec::new();
        let mut i: usize = 0;
        while i < ct.len()
            invariant
                i <= cts.len(),
                cts == ct@,
                cts == m.contacts,
                model_wf(m),
                forall|a: int, b: int| 0 <= a < b < out@.len() ==> conflict_key_lt(#[trigger] out@[a], #[trigger] out@[b]),
                forall|a: int| 0 <= a < out@.len() ==> conflict_ok(m, now_ms, #[trigger] out@[a]),
                forall|a: int| 0 <= a < out@.len() ==> exists|i2: int| 0 <= i2 < i && #[trigger] out@[a].affinity_key@ == cts[i2].0,
                forall|i2: int, d: Seq<char>| 0 <= i2 < i && #[trigger] identity_group(cts[i2].1, now_ms, d).len() >= 2 ==> listed(out@, cts[i2].0, d),
            decreases cts.len() - i,
        {
            let ak = ct.key_at(i);
            let t = ct.value_at(i);
            proof {
                lemma_lookup_index(cts, i as int);
            }
            let bc = identity_groups(t, now_ms);
            let ghost bs = bc@;
            let mut e: usize = 0;
            while e < bc.len()
                invariant
                    i < cts.len(),
                    e <= bs.len(),
                    bs == bc@,
                    sorted(bs),
                    cts == m.contacts,
                    model_wf(m),
                    ak@ == cts[i as int].0,
                    t@ == cts[i as int].1,
                    lookup(m.contacts, ak@) == Some(t@),
                    forall|d: Seq<char>| #[trigger] group_entry_ok(lookup(bs, d), identity_group(t@, now_ms, d)),
                    forall|a: int, b: int| 0 <= a < b < out@.len() ==> conflict_key_lt(#[trigger] out@[a], #[trigger] out@[b]),
                    forall|a: int| 0 <= a < out@.len() ==> conflict_ok(m, now_ms, #[trigger] out@[a]),
                    forall|a: int| 0 <= a < out@.len() ==> (exists|i2: int| 0 <= i2 < i && #[trigger] out@[a].affinity_key@ == cts[i2].0)
                        || (out@[a].affinity_key@ == ak@ && exists|e2: int| 0 <= e2 < e && #[trigger] out@[a].contact_key@ == bs[e2].0),
                    forall|i2: int, d: Seq<char>| 0 <= i2 < i && #[trigger] identity_group(cts[i2].1, now_ms, d).len() >= 2 ==> listed(out@, cts[i2].0, d),
                    forall|e2: int| 0 <= e2 < e && #[trigger] bs[e2].1.len() >= 2 ==> listed(out@, ak@, bs[e2].0),
                decreases bs.len() - e,
            {
                let ck = bc.key_at(e);
                let list = bc.value_at(e);
                if list.len() >= 2 {
                    proof {
                        lemma_lookup_index(bs, e as int);
                        assert(group_entry_ok(lookup(bs, ck@), identity_group(t@, now_ms, ck@)));
                    }
                    let ranked = standing_sort(copy_registrations(list));
                    let x = ExtensionContactConflict {
                        affinity_key: ak.clone(),
                        contact_key: ck.clone(),
                        selected_worker_id: ranked[0].worker_id.clone(),
                        selected_contact: ranked[0].contact.clone(),
                        candidates: ranked,
                    };
                    let ghost out0 = out@;
                    proof {
                        assert(cand_views(x.candidates@).len() == x.candidates@.len());
                        assert(conflict_ok(m, now_ms, x));
                        assert forall|a: int| 0 <= a < out0.len() implies conflict_key_lt(#[trigger] out0[a], x) by {
                            if exists|i2: int| 0 <= i2 < i && #[trigger] out0[a].affinity_key@ == cts[i2].0 {
                                let i2 = choose|i2: int| 0 <= i2 < i && #[trigger] out0[a].affinity_key@ == cts[i2].0;
                                assert(key_lt(cts[i2].0, cts[i as int].0));
                            } else {
                                let e2 = choose|e2: int| 0 <= e2 < e && #[trigger] out0[a].contact_key@ == bs[e2].0;
                                assert(key_lt(bs[e2].0, bs[e as int].0));
                            }
                        }
                    }
                    out.push(x);
                    proof {
                        assert(out@ == out0.push(x));
                        assert forall|a: int, b: int| 0 <= a < b < out@.len() implies conflict_key_lt(#[trigger] out@[a], #[trigger] out@[b]) by {
                            if b < out0.len() {
                                assert(out@[a] == out0[a] && out@[b] == out0[b]);
                            } else {
                                assert(out@[a] == out0[a]);
                            }
                        }
                        assert forall|a: int| 0 <= a < out@.len() implies conflict_ok(m, now_ms, #[trigger] out@[a]) by {
                            if a < out0.len() {
                                assert(out@[a] == out0[a]);
                            }
                        }
                        assert forall|a: int| 0 <= a < out@.len() implies (exists|i2: int| 0 <= i2 < i && #[trigger] out@[a].affinity_key@ == cts[i2].0)
                            || (out@[a].affinity_key@ == ak@ && exists|e2: int| 0 <= e2 < e + 1 && #[trigger] out@[a].contact_key@ == bs[e2].0) by {
                            if a < out0.len() {
                                assert(out@[a] == out0[a]);
                            } else {
                                assert(out@[a].contact_key@ == bs[e as int].0);
                            }
                        }
                        assert forall|i2: int, d: Seq<char>| 0 <= i2 < i && #[trigger] identity_group(cts[i2].1, now_ms, d).len() >= 2 implies listed(out@, cts[i2].0, d) by {
                            assert(listed(out0, cts[i2].0, d));
                            let a = choose|a: int| 0 <= a < out0.len() && #[trigger] out0[a].affinity_key@ == cts[i2].0 && out0[a].contact_key@ == d;
                            assert(out@[a] == out0[a]);
                        }
                        assert forall|e2: int| 0 <= e2 < e + 1 && #[trigger] bs[e2].1.len() >= 2 implies listed(out@, ak@, bs[e2].0) by {
                            if e2 < e {
                                assert(listed(out0, ak@, bs[e2].0));
                                let a = choose|a: int| 0 <= a < out0.len() && #[trigger] out0[a].affinity_key@ == ak@ && out0[a].contact_key@ == bs[e2].0;
                                assert(out@[a] == out0[a]);
                            } else {
                                assert(out@[out0.len() as int] == x);
                            }
                        }
                    }
                } else {
                    proof {
                        assert forall|a: int| 0 <= a < out@.len() implies (exists|i2: int| 0 <= i2 < i && #[trigger] out@[a].affinity_key@ == cts[i2].0)
                            || (out@[a].affinity_key@ == ak@ && exists|e2: int| 0 <= e2 < e + 1 && #[trigger] out@[a].contact_key@ == bs[e2].0) by {
                            if !(exists|i2: int| 0 <= i2 < i && #[trigger] out@[a].affinity_key@ == cts[i2].0) {
                                let e2 = choose|e2: int| 0 <= e2 < e && #[trigger] out@[a].contact_key@ == bs[e2].0;
                                assert(0 <= e2 < e + 1);
                            }
                        }
                    }
                }
                e = e + 1;
            }
            proof {
                assert forall|a: int| 0 <= a < out@.len() implies exists|i2: int| 0 <= i2 < i + 1 && #[trigger] out@[a].affinity_key@ == cts[i2].0 by {
                    if exists|i2: int| 0 <= i2 < i && #[trigger] out@[a].affinity_key@ == cts[i2].0 {
                        let i2 = choose|i2: int| 0 <= i2 < i && #[trigger] out@[a].affinity_key@ == cts[i2].0;
                        assert(0 <= i2 < i + 1);
                    } else {
                        assert(out@[a].affinity_key@ == cts[i as int].0);
                    }
                }
                assert forall|i2: int, d: Seq<char>| 0 <= i2 < i + 1 && #[trigger] identity_group(cts[i2].1, now_ms, d).len() >= 2 implies listed(out@, cts[i2].0, d) by {
                    if i2 == i {
                        assert(group_entry_ok(lookup(bs, d), identity_group(t@, now_ms, d)));
                        lemma_lookup_some(bs, d);
                        let e2 = choose|e2: int| 0 <= e2 < bs.len() && bs[e2].0 == d && bs[e2].1 == lookup(bs, d)->0;
                        assert(cand_views(bs[e2].1).len() == bs[e2].1.len());
                        assert(bs[e2].1.len() >= 2);
                    }
                }
            }
            i = i + 1;
        }
        proof {
            assert forall|ak: Seq<char>, d: Seq<char>| #[trigger] conflicting(m, now_ms, ak, d) implies listed(out@, ak, d) by {
                lemma_lookup_some(cts, ak);
                let i2 = choose|i2: int| 0 <= i2 < cts.len() && cts[i2].0 == ak && cts[i2].1 == lookup(cts, ak)->0;
                assert(identity_group(cts[i2].1, now_ms, d).len() >= 2);
            }
            lemma_conflicts_once(m, now_ms, out@);
        }
        out
    }
}

/// A list in strict key order whose every entry is a right conflict lists
/// only conflicting identities, and each at most once.
proof fn lemma_conflicts_once(m: RegistryModel, now_ms: i64, r: Seq<ExtensionContactConflict>)
    requires
        forall|i: int, j: int| 0 <= i < j < r.len() ==> conflict_key_lt(#[trigger] r[i], #[trigger] r[j]),
        forall|i: int| 0 <= i < r.len() ==> conflict_ok(m, now_ms, #[trigger] r[i]),
    ensures
        forall|ak: Seq<char>, d: Seq<char>| #[trigger] listed(r, ak, d) ==> conflicting(m, now_ms, ak, d),
        forall|i: int, j: int|
            0 <= i < j < r.len() ==> !(#[trigger] r[i].affinity_key@ == #[trigger] r[j].affinity_key@
                && r[i].contact_key@ == r[j].contact_key@),
{
    assert forall|ak: Seq<char>, d: Seq<char>| #[trigger] listed(r, ak, d) implies conflicting(m, now_ms, ak, d) by {
        let i = choose|i: int| 0 <= i < r.len() && #[trigger] r[i].affinity_key@ == ak && r[i].contact_key@ == d;
        assert(conflict_ok(m, now_ms, r[i]));
    }
    assert forall|i: int, j: int|
        0 <= i < j < r.len() implies !(#[trigger] r[i].affinity_key@ == #[trigger] r[j].affinity_key@
            && r[i].contact_key@ == r[j].contact_key@) by {
        assert(conflict_key_lt(r[i], r[j]));
        lemma_lt_irrefl(r[i].affinity_key@);
        lemma_lt_irrefl(r[i].contact_key@);
    }
}

proof fn lemma_owner_of_group(cands: Seq<Candidate>, d: Seq<char>)
    ensures
        contact_owner(cands, d) == contact_owner(keep(cands, has_identity(d)), d),
    decreases cands.len(),
{
    if cands.len() > 0 {
        let prev = cands.drop_last();
        lemma_owner_of_group(prev, d);
        let c = cands.last();
        if has_identity(d)(c) {
            let k = keep(prev, has_identity(d)).push(c);
            assert(k.drop_last() =~= keep(prev, has_identity(d)));
            assert(k.last() == c);
        }
    }
}

proof fn lemma_keep_first<A>(s: Seq<A>, p: spec_fn(A) -> bool)
    requires
        s.len() > 0,
        p(s[0]),
    ensures
        keep(s, p).len() > 0 && keep(s, p)[0] == s[0],
{
    let rest = s.skip(1);
    assert(s =~= seq![s[0]] + rest);
    lemma_keep_append(seq![s[0]], rest, p);
    lemma_keep_single(s[0], p);
}

proof fn lemma_keep_contains<A>(s: Seq<A>, p: spec_fn(A) -> bool, i: int)
    requires
        0 <= i < s.len(),
        p(s[i]),
    ensures
        keep(s, p).len() > 0,
        keep(s, p).contains(s[i]),
{
    let a = s.take(i);
    let b = s.skip(i);
    assert(s =~= a + b);
    assert(b =~= seq![s[i]] + b.skip(1));
    lemma_keep_append(a, b, p);
    lemma_keep_append(seq![s[i]], b.skip(1), p);
    lemma_keep_single(s[i], p);
    assert(keep(s, p)[keep(a, p).len() as int] == s[i]);
}

/// The owner of a group is the first of the group's best standing.
proof fn lemma_owner_first_best(g: Seq<Candidate>, d: Seq<char>)
    requires
        g.len() > 0,
        forall|i: int| 0 <= i < g.len() ==> #[trigger] has_identity(d)(g[i]),
    ensures
        contact_owner(g, d) matches Some(o) && g.contains(o) && keep(g, same_standing(o))[0] == o
            && (forall|j: int| 0 <= j < g.len() ==> !owner_beats(#[trigger] g[j].0, g[j].1, o.0, o.1)),
    decreases g.len(),
{
    let prev = g.drop_last();
    let c = g.last();
    assert(g[g.len() - 1] == c);
    assert(g.drop_last().push(c) =~= g);
    assert(has_identity(d)(g[g.len() - 1]));
    if prev.len() == 0 {
        assert(contact_owner(prev, d) is None);
        assert(contact_owner(g, d) == Some(c));
        assert(g =~= seq![c]);
        lemma_keep_single(c, same_standing(c));
        assert(same_standing(c)(c));
        lemma_lt_irrefl(c.0);
        assert(g[0] == c);
    } else {
        assert forall|i: int| 0 <= i < prev.len() implies #[trigger] has_identity(d)(prev[i]) by {
            assert(prev[i] == g[i]);
        }
        lemma_owner_first_best(prev, d);
        let p = contact_owner(prev, d)->0;
        let pi = choose|i: int| 0 <= i < prev.len() && prev[i] == p;
        assert(g[pi] == p);
        if owner_beats(c.0, c.1, p.0, p.1) {
            assert forall|j: int| 0 <= j < prev.len() implies owner_beats(c.0, c.1, #[trigger] prev[j].0, prev[j].1) by {
                lemma_beats_total(p, prev[j]);
                if owner_beats(p.0, p.1, prev[j].0, prev[j].1) {
                    lemma_beats_trans(c, p, prev[j]);
                } else if !owner_beats(prev[j].0, prev[j].1, p.0, p.1) {
                    lemma_beats_same_standing(c, p, prev[j]);
                }
            }
            assert forall|j: int| 0 <= j < prev.len() implies !same_standing(c)(#[trigger] prev[j]) by {
                lemma_beats_strict(c, prev[j]);
            }
            lemma_keep_none(prev, same_standing(c));
            assert(same_standing(c)(c));
            assert(keep(g, same_standing(c)) == keep(prev, same_standing(c)).push(c));
            assert(keep(g, same_standing(c)) =~= seq![c]);
            assert(contact_owner(g, d) == Some(c));
            assert forall|j: int| 0 <= j < g.len() implies !owner_beats(#[trigger] g[j].0, g[j].1, c.0, c.1) by {
                if j < prev.len() {
                    assert(g[j] == prev[j]);
                    lemma_beats_strict(c, prev[j]);
                } else {
                    lemma_lt_irrefl(c.0);
                }
            }
        } else {
            lemma_keep_contains(prev, same_standing(p), pi);
            assert(contact_owner(g, d) == Some(p));
            let kp = keep(prev, same_standing(p));
            if same_standing(p)(c) {
                assert(keep(g, same_standing(p)) == kp.push(c));
                assert(kp.push(c)[0] == kp[0]);
            } else {
                assert(keep(g, same_standing(p)) == kp);
            }
            assert forall|j: int| 0 <= j < g.len() implies !owner_beats(#[trigger] g[j].0, g[j].1, p.0, p.1) by {
                if j < prev.len() {
                    assert(g[j] == prev[j]);
                }
            }
        }
    }
}

/// A conflict report selects the Contact's owner: the registration ranked
/// first is the one `contact_owner` gives the identity, so the report agrees
/// with the worker each Contact is handed to.
pub proof fn law_conflict_selects_owner(
    t: Entries<Entries<ExtensionContactRecord>>,
    now_ms: i64,
    d: Seq<char>,
    ranked: Seq<Candidate>,
)
    requires
        identity_group(t, now_ms, d).len() > 0,
        standing_sort_of(ranked, identity_group(t, now_ms, d)),
    ensures
        ranked.len() > 0,
        contact_owner(all_candidates(t, now_ms), d) == Some(ranked[0]),
{
    let cands = all_candidates(t, now_ms);
    let g = identity_group(t, now_ms, d);
    lemma_owner_of_group(cands, d);
    crate::seqs::lemma_keep_elems(cands, has_identity(d));
    assert forall|i: int| 0 <= i < g.len() implies #[trigger] has_identity(d)(g[i]) by {}
    lemma_owner_first_best(g, d);
    let o = contact_owner(g, d)->0;
    let oi = choose|i: int| 0 <= i < g.len() && g[i] == o;
    lemma_keep_contains(g, same_standing(o), oi);
    assert(keep(ranked, same_standing(o)) == keep(g, same_standing(o)));
    crate::seqs::lemma_keep_elems(ranked, same_standing(o));
    assert(ranked.len() > 0);
    let s0 = ranked[0];
    lemma_keep_first(ranked, same_standing(s0));
    assert(keep(g, same_standing(s0)) == keep(ranked, same_standing(s0)));
    crate::seqs::lemma_keep_elems(g, same_standing(s0));
    let z = keep(g, same_standing(s0))[0];
    let zi = choose|i: int| 0 <= i < g.len() && g[i] == z;
    assert(!owner_beats(g[zi].0, g[zi].1, o.0, o.1));
    assert(!owner_beats(s0.0, s0.1, o.0, o.1));
    let w = keep(ranked, same_standing(o))[0];
    let wi = choose|i: int| 0 <= i < ranked.len() && ranked[i] == w;
    if wi > 0 {
        assert(!owner_beats(ranked[wi].0, ranked[wi].1, ranked[0].0, ranked[0].1));
    }
    assert(!owner_beats(o.0, o.1, s0.0, s0.1));
    lemma_beats_total(o, s0);
    assert(same_standing(o) =~= same_standing(s0));
}

} // verus!
