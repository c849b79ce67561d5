//! Platform settings: what the stored key/value entries mean, and the
//! configuration version that tells every control replica when to
//! re-broadcast platform changes.

use crate::stun::{default_stun_list, default_stun_servers};
use crate::text::{is_blank, parse_u64, parse_u64_spec, strs_view, trim, trim_str, trimmed_nonempty};
use vstd::prelude::*;

verus! {

/// Key of the wildcard base domain that tenants' default domains hang under.
pub const KEY_BASE_DOMAIN: &'static str = "base_domain";

/// Key of the STUN server list (a JSON array of `host:port`).
pub const KEY_STUN_SERVERS: &'static str = "stun_servers";

/// Key of the global recording policy (JSON text).
pub const KEY_RECORDING_POLICY: &'static str = "recording_policy";

/// Key of the monotonic configuration version.
pub const KEY_CONFIG_VERSION: &'static str = "config_version";

/// The configuration version a stored entry holds: its number, else zero.
pub open spec fn config_version_spec(stored: Option<Seq<char>>) -> u64 {
    match stored {
        Some(s) => match parse_u64_spec(s) {
            Some(v) => v,
            None => 0,
        },
        None => 0,
    }
}

/// The view of an optional string.
pub open spec fn opt_seq(o: Option<String>) -> Option<Seq<char>> {
    match o {
        Some(s) => Some(s@),
        None => None,
    }
}

/// The configuration version of the stored entry (zero when unset or unreadable).
pub fn config_version_from(stored: Option<String>) -> (r: u64)
    ensures
        r == config_version_spec(opt_seq(stored)),
{
    match stored {
        Some(s) => match parse_u64(s.as_str()) {
            Some(v) => v,
            None => 0,
        },
        None => 0,
    }
}

/// One more than `v`, saturating at the maximum.
pub open spec fn bumped(v: u64) -> u64 {
    if v == u64::MAX {
        v
    } else {
        (v + 1) as u64
    }
}

/// What seeing `current` after `observed` announces: a newer version only.
pub open spec fn announced(observed: u64, current: u64) -> Option<u64> {
    if current > observed {
        Some(current)
    } else {
        None
    }
}

/// The version a bump stores: one more, saturating at the maximum.
pub fn next_config_version(current: u64) -> (r: u64)
    ensures
        r == bumped(current),
{
    current.saturating_add(1)
}

/// The version to re-broadcast when `current` is seen after `observed`: only
/// a version newer than the observed one is announced.
pub fn version_advance(observed: u64, current: u64) -> (r: Option<u64>)
    ensures
        r == announced(observed, current),
{
    if current <= observed {
        None
    } else {
        Some(current)
    }
}

/// The version a change notification names, when its payload is a number.
pub fn notified_version(payload: &str) -> (r: Option<u64>)
    ensures
        r == parse_u64_spec(payload@),
{
    parse_u64(payload)
}

/// A bump is announced once: below the maximum the bumped version is newer,
/// so a replica that observed the old one announces it, and one that has seen
/// it announces nothing more.
pub proof fn law_bump_announced_once(v: u64)
    requires
        v < u64::MAX,
    ensures
        bumped(v) > v,
        announced(v, bumped(v)) == Some(bumped(v)),
        announced(bumped(v), bumped(v)) is None,
{
}

/// The stored base domain (empty when unset).
pub fn base_domain_from(stored: Option<String>) -> (r: String)
    ensures
        r@ == (match stored {
            Some(s) => s@,
            None => Seq::empty(),
        }),
{
    match stored {
        Some(s) => s,
        None => String::new(),
    }
}

/// The stored recording policy, or none when unset or blank.
pub fn recording_policy_from(stored: Option<String>) -> (r: Option<String>)
    ensures
        r == (match stored {
            Some(s) => if trim(s@).len() > 0 {
                Some(s)
            } else {
                None
            },
            None => None,
        }),
{
    match stored {
        Some(s) => if is_blank(s.as_str()) {
            None
        } else {
            Some(s)
        },
        None => None,
    }
}

/// The base domain to store at start-up: the trimmed configured one, but
/// only when it is not blank and no base domain has been stored yet, so that
/// edits made through the API are never overwritten.
pub fn seed_base_domain(from_config: &str, stored: &Option<String>) -> (r: Option<String>)
    ensures
        match r {
            Some(d) => stored is None && trim(from_config@).len() > 0 && d@ == trim(from_config@),
            None => stored is Some || trim(from_config@).len() == 0,
        },
{
    let t = trim_str(from_config);
    if t.as_str().is_empty() {
        return None;
    }
    if stored.is_some() {
        return None;
    }
    Some(t)
}

/// What `serde_json::from_str::<Vec<String>>` reads from a text: the list of
/// strings, or none when the text is not a JSON array of strings.
pub uninterp spec fn json_string_list(s: Seq<char>) -> Option<Seq<Seq<char>>>;

/// Calls `serde_json::from_str::<Vec<String>>`; the outcome is a function of
/// the text alone.
#[verifier::external_body]
pub(crate) fn parse_string_list(s: &str) -> (r: Option<Vec<String>>)
    ensures
        match r {
            Some(v) => json_string_list(s@) == Some(strs_view(v@)),
            None => json_string_list(s@) is None,
        },
{
    serde_json::from_str::<Vec<String>>(s).ok()
}

/// What `serde_json::to_string` makes of a list of strings: its JSON text,
/// or none when serialisation fails.
pub uninterp spec fn json_of_strings(v: Seq<Seq<char>>) -> Option<Seq<char>>;

/// Calls `serde_json::to_string` on a list of strings; the outcome is a
/// function of the list alone.
#[verifier::external_body]
fn string_list_json(v: &[String]) -> (r: Option<String>)
    ensures
        match r {
            Some(j) => json_of_strings(strs_view(v@)) == Some(j@),
            None => json_of_strings(strs_view(v@)) is None,
        },
{
    serde_json::to_string(v).ok()
}

/// Whether a list holds an entry that is not blank.
pub open spec fn has_nonblank(v: Seq<Seq<char>>) -> bool {
    exists|i: int| 0 <= i < v.len() && #[trigger] trim(v[i]).len() > 0
}

/// The STUN servers in force for a stored list: the list itself when it
/// holds a non-blank entry, else the shared defaults.
pub open spec fn stun_choice(stored: Seq<Seq<char>>) -> Seq<Seq<char>> {
    if has_nonblank(stored) {
        stored
    } else {
        default_stun_list()
    }
}

/// The STUN servers in force: the stored list when it holds a non-blank
/// entry, else the shared defaults.
pub fn choose_stun_servers(stored: Vec<String>) -> (r: Vec<String>)
    ensures
        strs_view(r@) == stun_choice(strs_view(stored@)),
{
    let mut i: usize = 0;
    while i < stored.len()
        invariant
            i <= stored.len(),
            forall|j: int| 0 <= j < i ==> trim(#[trigger] strs_view(stored@)[j]).len() == 0,
        decreases stored.len() - i,
    {
        if !is_blank(stored[i].as_str()) {
            proof {
                assert(trim(strs_view(stored@)[i as int]).len() > 0);
            }
            return stored;
        }
        i = i + 1;
    }
    let d = default_stun_servers();
    proof {
        assert(strs_view(d@) =~= default_stun_list());
    }
    d
}

/// The STUN servers in force for the stored entry: its JSON list when it
/// parses and holds a non-blank entry, else the shared defaults.
pub fn stun_servers_from(stored: Option<String>) -> (r: Vec<String>)
    ensures
        strs_view(r@) == stun_choice(
            match opt_seq(stored) {
                Some(s) => match json_string_list(s) {
                    Some(v) => v,
                    None => Seq::empty(),
                },
                None => Seq::empty(),
            },
        ),
{
    let list = match stored {
        Some(s) => match parse_string_list(s.as_str()) {
            Some(v) => v,
            None => Vec::new(),
        },
        None => Vec::new(),
    };
    proof {
        assert(strs_view(Seq::<String>::empty()) =~= Seq::<Seq<char>>::empty());
    }
    choose_stun_servers(list)
}

/// The stored form of a STUN server list: its JSON text.
pub fn stun_servers_json(servers: &[String]) -> (r: Option<String>)
    ensures
        match r {
            Some(j) => json_of_strings(strs_view(servers@)) == Some(j@),
            None => json_of_strings(strs_view(servers@)) is None,
        },
{
    string_list_json(servers)
}

/// The STUN servers an update stores: each trimmed, blank ones dropped, in order.
pub fn clean_stun_servers(servers: &[String]) -> (r: Vec<String>)
    ensures
        strs_view(r@) == trimmed_nonempty(strs_view(servers@)),
{
    let ghost ps = strs_view(servers@);
    let mut out: Vec<String> = Vec::new();
    let mut i: usize = 0;
    while i < servers.len()
        invariant
            i <= servers@.len(),
            ps == strs_view(servers@),
            strs_view(out@) == trimmed_nonempty(ps.take(i as int)),
        decreases servers@.len() - i,
    {
        let t = trim_str(servers[i].as_str());
        proof {
            assert(ps.take(i + 1).drop_last() =~= ps.take(i as int));
            assert(ps.take(i + 1).last() == servers@[i as int]@);
        }
        if !t.as_str().is_empty() {
            let ghost before = strs_view(out@);
            out.push(t);
            assert(strs_view(out@) =~= before.push(t@));
        }
        i = i + 1;
    }
    assert(ps.take(i as int) =~= ps);
    out
}

} // verus!
