//! Default public STUN servers, in order of preference: an RFC 5780-capable
//! server first (full NAT classification), then two stable Google servers.

use vstd::prelude::*;

verus! {

/// The default STUN servers, ordered by preference.
pub open spec fn default_stun_list() -> Seq<Seq<char>> {
    seq!["stunserver.stunprotocol.org:3478"@, "stun.l.google.com:19302"@, "stun1.l.google.com:19302"@]
}

/// Owned copies of the default STUN servers.
pub fn default_stun_servers() -> (r: Vec<String>)
    ensures
        r@.map_values(|s: String| s@) == default_stun_list(),
{
    let r = vec![
        "stunserver.stunprotocol.org:3478".to_string(),
        "stun.l.google.com:19302".to_string(),
        "stun1.l.google.com:19302".to_string(),
    ];
    assert(r@.map_values(|s: String| s@) =~= default_stun_list());
    r
}

} // verus!
