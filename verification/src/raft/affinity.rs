//! Ordering and identity of extension Contacts bound to workers.

use super::types::ExtensionContactRecord;
use crate::sorted_map::{compare_keys, key_lt, SortedMap};
use crate::text::{
    eq_ignore_case, eq_ignore_case_exec, lower_seq, lower_str, push_char, split, split_once, split_once_str,
    split_str, trim, trim_str,
};
use vstd::prelude::*;

verus! {

/// Whether a `;`-parameter of a Contact is kept in its identity: every
/// parameter but `q=` and `expires=` (names matched without case and spaces).
pub open spec fn kept_param(p: Seq<char>) -> bool {
    match split_once(p, '=') {
        Some((name, v)) => !(eq_ignore_case(trim(name), "q"@) || eq_ignore_case(trim(name), "expires"@)),
        None => true,
    }
}

/// The identity text of the kept parameters, each as `;` and the trimmed parameter.
pub open spec fn kept_params(parts: Seq<Seq<char>>) -> Seq<char>
    decreases parts.len(),
{
    if parts.len() == 0 {
        Seq::empty()
    } else if kept_param(parts.last()) {
        kept_params(parts.drop_last()) + seq![';'] + trim(parts.last())
    } else {
        kept_params(parts.drop_last())
    }
}

/// A Contact's identity: its trimmed, lower-cased URI and its parameters
/// other than `q` and `expires`.
pub open spec fn dedup_key_spec(contact: Seq<char>) -> Seq<char> {
    let parts = split(contact, ';');
    lower_seq(trim(parts[0])) + kept_params(parts.drop_first())
}

/// The identity under which two registrations of one Contact are the same.
pub fn contact_dedup_key(contact: &str) -> (r: String)
    ensures
        r@ == dedup_key_spec(contact@),
{
    let parts = split_str(contact, ';');
    let ghost ps = parts@.map_values(|x: String| x@);
    let uri = trim_str(parts[0].as_str());
    let mut key = lower_str(uri.as_str());
    let mut i: usize = 1;
    assert(ps.subrange(1, 1) =~= Seq::<Seq<char>>::empty());
    while i < parts.len()
        invariant
            1 <= i <= parts@.len(),
            ps == parts@.map_values(|x: String| x@),
            ps == split(contact@, ';'),
            key@ == lower_seq(trim(ps[0])) + kept_params(ps.subrange(1, i as int)),
        decreases parts@.len() - i,
    {
        let part = parts[i].as_str();
        proof {
            assert(ps.subrange(1, i + 1).drop_last() =~= ps.subrange(1, i as int));
            assert(ps.subrange(1, i + 1).last() == part@);
        }
        let keep = match split_once_str(part, '=') {
            Some((name, _v)) => {
                let n = trim_str(name.as_str());
                !(eq_ignore_case_exec(n.as_str(), "q") || eq_ignore_case_exec(n.as_str(), "expires"))
            },
            None => true,
        };
        if keep {
            let ghost before = key@;
            push_char(&mut key, ';');
            let t = trim_str(part);
            key.append(t.as_str());
            assert(key@ =~= before + seq![';'] + trim(part@));
        }
        i = i + 1;
    }
    assert(ps.subrange(1, i as int) =~= ps.drop_first());
    key
}

/// Whether `candidate` should own a Contact over `current`: higher `q`, then
/// later expiry, then the smaller worker id.
pub open spec fn owner_beats(
    cw: Seq<char>,
    c: ExtensionContactRecord,
    w: Seq<char>,
    r: ExtensionContactRecord,
) -> bool {
    ||| c.q_milli > r.q_milli
    ||| (c.q_milli == r.q_milli && c.expires_at_ms > r.expires_at_ms)
    ||| (c.q_milli == r.q_milli && c.expires_at_ms == r.expires_at_ms && key_lt(cw, w))
}

/// Whether `candidate` (worker, record) beats `current` for a Contact.
pub fn better_contact_owner(
    candidate: &(String, ExtensionContactRecord),
    current: &(String, ExtensionContactRecord),
) -> (b: bool)
    ensures
        b == owner_beats(candidate.0@, candidate.1, current.0@, current.1),
{
    let (cw, c) = candidate;
    let (w, r) = current;
    if c.q_milli != r.q_milli {
        c.q_milli > r.q_milli
    } else if c.expires_at_ms != r.expires_at_ms {
        c.expires_at_ms > r.expires_at_ms
    } else {
        compare_keys(cw.as_str(), w.as_str()) < 0
    }
}

/// The highest `q` among `cs`, if any.
pub open spec fn max_q(cs: Seq<(Seq<char>, ExtensionContactRecord)>) -> Option<u16>
    decreases cs.len(),
{
    if cs.len() == 0 {
        None
    } else {
        match max_q(cs.drop_last()) {
            Some(m) => Some(if m >= cs.last().1.q_milli { m } else { cs.last().1.q_milli }),
            None => Some(cs.last().1.q_milli),
        }
    }
}

/// Whether a contact expiry is in force after `now_ms` (0 = no expiry).
pub open spec fn contact_live(t: i64, now_ms: i64) -> bool {
    t == 0 || t > now_ms
}

/// The contacts of `cs` in force after `now_ms`.
pub open spec fn live_of(cs: Seq<(Seq<char>, ExtensionContactRecord)>, now_ms: i64) -> Seq<(Seq<char>, ExtensionContactRecord)>
    decreases cs.len(),
{
    if cs.len() == 0 {
        Seq::empty()
    } else if contact_live(cs.last().1.expires_at_ms, now_ms) {
        live_of(cs.drop_last(), now_ms).push(cs.last())
    } else {
        live_of(cs.drop_last(), now_ms)
    }
}

/// A worker's preference for an extension: the highest `q` among its contacts
/// in force, or 1000 when it has none.
pub open spec fn best_q_spec(cs: Seq<(Seq<char>, ExtensionContactRecord)>, now_ms: i64) -> u16 {
    match max_q(live_of(cs, now_ms)) {
        Some(m) => m,
        None => 1000,
    }
}

/// The best `q` among a worker's contacts in force.
pub fn best_contact_q_milli(contacts: &SortedMap<ExtensionContactRecord>, now_ms: i64) -> (q: u16)
    ensures
        q == best_q_spec(contacts@, now_ms),
{
    let ghost s = contacts@;
    let mut best: Option<u16> = None;
    let mut i: usize = 0;
    assert(s.take(0) =~= Seq::<(Seq<char>, ExtensionContactRecord)>::empty());
    while i < contacts.len()
        invariant
            i <= s.len(),
            s == contacts@,
            best == max_q(live_of(s.take(i as int), now_ms)),
        decreases s.len() - i,
    {
        let r = contacts.value_at(i);
        proof {
            assert(s.take(i + 1).drop_last() =~= s.take(i as int));
            assert(s.take(i + 1).last() == s[i as int]);
        }
        if r.expires_at_ms == 0 || r.expires_at_ms > now_ms {
            let ghost lv = live_of(s.take(i as int), now_ms).push(s[i as int]);
            assert(lv.drop_last() =~= live_of(s.take(i as int), now_ms));
            best = match best {
                Some(m) => Some(if m >= r.q_milli { m } else { r.q_milli }),
                None => Some(r.q_milli),
            };
        }
        i = i + 1;
    }
    assert(s.take(i as int) =~= s);
    match best {
        Some(m) => m,
        None => 1000,
    }
}

} // verus!
