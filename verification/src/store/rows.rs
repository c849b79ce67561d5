//! Decoding stored trunk and route rows into the configuration handed to
//! workers: the defaults of unset columns, the JSON columns read into lists
//! and maps, and the metadata that marks an SBC trunk.
//!
//! JSON columns arrive as their text; reading JSON is serde_json's work.

use crate::json::{
    array_items, json_array_items, json_object_members, json_string_value, json_value_text, object_members, pairs_text,
    string_value, value_text,
};
use crate::routing::RewriteRules;
use crate::settings::{json_string_list, parse_string_list};
use crate::sorted_map::{lookup, put, sorted, SortedMap};
use crate::store::{either, opt_text, trunk_worker_dests};
use crate::text::{strs_view, to_owned};
use vstd::prelude::*;

verus! {

/// The entries made by storing `ms` in order (a later key replaces an
/// earlier one).
pub open spec fn entries_of(ms: Seq<(Seq<char>, Seq<char>)>) -> Seq<(Seq<char>, Seq<char>)>
    decreases ms.len(),
{
    if ms.len() == 0 {
        Seq::empty()
    } else {
        put(entries_of(ms.drop_last()), ms.last().0, ms.last().1)
    }
}

/// The members of a JSON object text by key, each value as JSON text; none
/// for a text that is not an object.
pub open spec fn members_map(s: Seq<char>) -> Seq<(Seq<char>, Seq<char>)> {
    match json_object_members(s) {
        Some(ms) => entries_of(ms),
        None => Seq::empty(),
    }
}

/// The string value of member `key` of a members map (`Value::get` then
/// `as_str`).
pub open spec fn string_at(m: Seq<(Seq<char>, Seq<char>)>, key: Seq<char>) -> Option<Seq<char>> {
    match lookup(m, key) {
        Some(t) => json_string_value(t),
        None => None,
    }
}

/// A JSON object text read as a string-to-string map; empty when it is not
/// an object or some value is not a string.
pub open spec fn string_map_of(s: Seq<char>) -> Seq<(Seq<char>, Seq<char>)> {
    let m = members_map(s);
    if forall|i: int| 0 <= i < m.len() ==> (#[trigger] json_string_value(m[i].1)) is Some {
        Seq::new(m.len(), |i: int| (m[i].0, json_string_value(m[i].1)->0))
    } else {
        Seq::empty()
    }
}

/// A JSON array text read as a list of strings; empty when it is not one.
pub open spec fn string_list_of(s: Option<String>) -> Seq<Seq<char>> {
    match s {
        Some(t) => match json_string_list(t@) {
            Some(v) => v,
            None => Seq::empty(),
        },
        None => Seq::empty(),
    }
}

/// The name of one trunk reference: the string `name` member of an object
/// `{"name": ...}`, or the one string item of an array `[...]` (serde reads
/// a struct from either form).
pub open spec fn item_name(item: Seq<char>) -> Option<Seq<char>> {
    match json_array_items(item) {
        Some(xs) => if xs.len() == 1 {
            json_string_value(xs[0])
        } else {
            None
        },
        None => string_at(members_map(item), "name"@),
    }
}

/// The names of a JSON array of trunk references; empty when it is not one
/// or some item has no string `name`.
pub open spec fn trunk_names_of(s: Seq<char>) -> Seq<Seq<char>> {
    match json_array_items(s) {
        Some(items) => if forall|i: int| 0 <= i < items.len() ==> (#[trigger] item_name(items[i])) is Some {
            Seq::new(items.len(), |i: int| item_name(items[i])->0)
        } else {
            Seq::empty()
        },
        None => Seq::empty(),
    }
}

fn map_of_members(ms: Vec<(String, String)>) -> (r: SortedMap<String>)
    ensures
        r.wf(),
        r@ == entries_of(pairs_text(ms@)),
{
    let ghost all = pairs_text(ms@);
    let mut rest = ms;
    let mut r: SortedMap<String> = SortedMap::new();
    let n = rest.len();
    let mut i: usize = 0;
    assert(all.take(0) =~= Seq::<(Seq<char>, Seq<char>)>::empty());
    while i < n
        invariant
            n == all.len(),
            i <= n,
            pairs_text(rest@) == all.skip(i as int),
            rest@.len() == n - i,
            r.wf(),
            r@ == entries_of(all.take(i as int)),
        decreases n - i,
    {
        proof {
            assert(pairs_text(rest@)[0] == all[i as int]);
            assert(all.take(i + 1).drop_last() =~= all.take(i as int));
            assert(all.take(i + 1).last() == all[i as int]);
        }
        let ghost old_rest = rest@;
        let (k, v) = rest.remove(0);
        proof {
            assert(rest@ =~= old_rest.subrange(1, old_rest.len() as int));
            assert forall|j: int| 0 <= j < rest@.len() implies #[trigger] pairs_text(rest@)[j] == all.skip(i + 1)[j] by {
                assert(pairs_text(old_rest)[j + 1] == all.skip(i as int)[j + 1]);
            }
            assert(pairs_text(rest@) =~= all.skip(i + 1));
        }
        r.insert(k, v);
        i = i + 1;
    }
    assert(all.take(n as int) =~= all);
    r
}

/// The members of a JSON object text, by key.
pub fn members_of(s: &str) -> (r: SortedMap<String>)
    ensures
        r.wf(),
        r@ == members_map(s@),
        json_object_members(s@) is Some ==> json_value_text(s@) is Some,
{
    match object_members(s) {
        Some(ms) => map_of_members(ms),
        None => SortedMap::new(),
    }
}

/// The string value of member `key`, if it is a string.
pub fn string_member(m: &SortedMap<String>, key: &str) -> (r: Option<String>)
    ensures
        opt_text(r) == string_at(m@, key@),
{
    match m.find(key) {
        Some(t) => string_value(t.as_str()),
        None => None,
    }
}

/// A JSON object text read as a string-to-string map (empty when it is not
/// one); absent text reads as empty.
#[verifier::loop_isolation(false)]
pub fn string_map(s: &Option<String>) -> (r: SortedMap<String>)
    ensures
        r.wf(),
        r@ == (match s {
            Some(t) => string_map_of(t@),
            None => Seq::empty(),
        }),
{
    let t = match s {
        Some(t) => t,
        None => return SortedMap::new(),
    };
    let m = members_of(t.as_str());
    let ghost mv = m@;
    let mut out: SortedMap<String> = SortedMap::new();
    let n = m.len();
    let mut i: usize = 0;
    while i < n
        invariant
            n == mv.len(),
            m@ == mv,
            mv == members_map(t@),
            sorted(mv),
            i <= n,
            out.wf(),
            out@ == Seq::new(i as nat, |j: int| (mv[j].0, json_string_value(mv[j].1)->0)),
            forall|j: int| 0 <= j < i ==> (#[trigger] json_string_value(mv[j].1)) is Some,
        decreases n - i,
    {
        let k = m.key_at(i);
        let v = m.value_at(i);
        match string_value(v.as_str()) {
            Some(x) => {
                proof {
                    assert forall|j: int| 0 <= j < out@.len() implies crate::sorted_map::key_lt(#[trigger] out@[j].0, k@) by {
                        assert(out@[j].0 == mv[j].0);
                    }
                }
                let ghost before = out@;
                out.push_last(to_owned(k.as_str()), x);
                assert(out@ =~= Seq::new((i + 1) as nat, |j: int| (mv[j].0, json_string_value(mv[j].1)->0)));
            },
            None => {
                assert(json_string_value(mv[i as int].1) is None);
                let r: SortedMap<String> = SortedMap::new();
                assert(string_map_of(t@) =~= Seq::<(Seq<char>, Seq<char>)>::empty());
                assert(r@ =~= Seq::<(Seq<char>, Seq<char>)>::empty());
                return r;
            },
        }
        i = i + 1;
    }
    out
}

/// A JSON array text read as a list of strings (empty when it is not one);
/// absent text reads as empty.
pub fn string_list(s: &Option<String>) -> (r: Vec<String>)
    ensures
        strs_view(r@) == string_list_of(*s),
{
    match s {
        Some(t) => match parse_string_list(t.as_str()) {
            Some(v) => v,
            None => {
                let r: Vec<String> = Vec::new();
                assert(strs_view(r@) =~= Seq::<Seq<char>>::empty());
                r
            },
        },
        None => {
            let r: Vec<String> = Vec::new();
            assert(strs_view(r@) =~= Seq::<Seq<char>>::empty());
            r
        },
    }
}

/// The name of one trunk reference, in object or one-item array form.
fn ref_name(item: &str) -> (r: Option<String>)
    ensures
        opt_text(r) == item_name(item@),
{
    match array_items(item) {
        Some(xs) => if xs.len() == 1 {
            string_value(xs[0].as_str())
        } else {
            None
        },
        None => {
            let m = members_of(item);
            string_member(&m, "name")
        },
    }
}

/// The names of a JSON array of trunk references (empty when it is not one
/// or some item has no string `name`); absent text reads as empty.
#[verifier::loop_isolation(false)]
pub fn trunk_names(s: &Option<String>) -> (r: Vec<String>)
    ensures
        strs_view(r@) == (match s {
            Some(t) => trunk_names_of(t@),
            None => Seq::empty(),
        }),
{
    let t = match s {
        Some(t) => t,
        None => {
            let r: Vec<String> = Vec::new();
            assert(strs_view(r@) =~= Seq::<Seq<char>>::empty());
            return r;
        },
    };
    let items = match array_items(t.as_str()) {
        Some(items) => items,
        None => {
            let r: Vec<String> = Vec::new();
            assert(strs_view(r@) =~= Seq::<Seq<char>>::empty());
            return r;
        },
    };
    let ghost iv = strs_view(items@);
    let mut out: Vec<String> = Vec::new();
    let n = items.len();
    let mut i: usize = 0;
    while i < n
        invariant
            n == iv.len() == items@.len(),
            iv == strs_view(items@),
            json_array_items(t@) == Some(iv),
            i <= n,
            strs_view(out@) == Seq::new(i as nat, |j: int| item_name(iv[j])->0),
            forall|j: int| 0 <= j < i ==> (#[trigger] item_name(iv[j])) is Some,
        decreases n - i,
    {
        assert(iv[i as int] == items@[i as int]@);
        let nm = ref_name(items[i].as_str());
        match nm {
            Some(x) => {
                let ghost before = strs_view(out@);
                out.push(x);
                assert(strs_view(out@) =~= before.push(x@));
                assert(strs_view(out@) =~= Seq::new((i + 1) as nat, |j: int| item_name(iv[j])->0));
            },
            None => {
                assert(item_name(iv[i as int]) is None);
                let r: Vec<String> = Vec::new();
                assert(trunk_names_of(t@) =~= Seq::<Seq<char>>::empty());
                assert(strs_view(r@) =~= Seq::<Seq<char>>::empty());
                return r;
            },
        }
        i = i + 1;
    }
    out
}

/// A trunk row as stored; JSON columns are given as their text.
#[derive(Clone, Debug)]
pub struct TrunkRow {
    pub id: i64,
    pub name: String,
    pub sip_server: Option<String>,
    pub outbound_proxy: Option<String>,
    pub sip_transport: Option<String>,
    pub auth_username: Option<String>,
    pub auth_password: Option<String>,
    pub direction: Option<String>,
    pub register_enabled: Option<bool>,
    pub register_expires: Option<i32>,
    pub rewrite_hostport: Option<bool>,
    pub incoming_from_user_prefix: Option<String>,
    pub incoming_to_user_prefix: Option<String>,
    pub max_cps: Option<i32>,
    pub max_concurrent: Option<i32>,
    pub allowed_ips: Option<String>,
    pub did_numbers: Option<String>,
    pub register_extra_headers: Option<String>,
    pub metadata: Option<String>,
}

/// A trunk as handed to workers.
#[derive(Debug)]
pub struct WorkerTrunkConfig {
    pub name: String,
    pub id: Option<i64>,
    pub tenant_id: Option<i64>,
    pub dest: String,
    pub backup_dest: Option<String>,
    pub transport: Option<String>,
    pub direction: Option<String>,
    pub inbound_hosts: Vec<String>,
    pub did_numbers: Vec<String>,
    pub username: Option<String>,
    pub password: Option<String>,
    pub codec: Vec<String>,
    pub disabled: Option<bool>,
    pub max_calls: Option<u32>,
    pub max_cps: Option<u32>,
    pub weight: Option<u32>,
    pub register_enabled: Option<bool>,
    pub register_expires: Option<u32>,
    pub register_extra_headers: SortedMap<String>,
    pub rewrite_hostport: Option<bool>,
    pub incoming_from_user_prefix: Option<String>,
    pub incoming_to_user_prefix: Option<String>,
    pub country: Option<String>,
    /// The trunk's metadata as compact JSON, for a trunk whose metadata is an
    /// object with an `sbc` member.
    pub sbc_metadata_json: Option<String>,
}

/// The SBC metadata of a trunk: its metadata as compact JSON when it is an
/// object with an `sbc` member.
pub open spec fn sbc_metadata_of(metadata: Option<String>) -> Option<Seq<char>> {
    match metadata {
        Some(t) => if lookup(members_map(t@), "sbc"@) is Some {
            json_value_text(t@)
        } else {
            None
        },
        None => None,
    }
}

/// A stored integer limit as a worker count (`as u32`).
pub open spec fn as_count(v: Option<i32>) -> Option<u32> {
    match v {
        Some(x) => Some(x as u32),
        None => None,
    }
}

fn count_of(v: Option<i32>) -> (r: Option<u32>)
    ensures
        r == as_count(v),
{
    match v {
        Some(x) => Some(x as u32),
        None => None,
    }
}

pub(crate) fn copy_opt(o: &Option<String>) -> (r: Option<String>)
    ensures
        opt_text(r) == opt_text(*o),
{
    match o {
        Some(s) => Some(to_owned(s.as_str())),
        None => None,
    }
}

pub(crate) fn text_or(o: &Option<String>, default: &str) -> (r: String)
    ensures
        r@ == (match *o {
            Some(s) => s@,
            None => default@,
        }),
{
    match o {
        Some(s) => to_owned(s.as_str()),
        None => to_owned(default),
    }
}

fn sbc_metadata(metadata: &Option<String>) -> (r: Option<String>)
    ensures
        opt_text(r) == sbc_metadata_of(*metadata),
        r is Some <==> (*metadata matches Some(t) && lookup(members_map(t@), "sbc"@) is Some),
{
    match metadata {
        Some(t) => {
            let m = members_of(t.as_str());
            if m.find("sbc").is_some() {
                value_text(t.as_str())
            } else {
                None
            }
        },
        None => None,
    }
}

/// A stored trunk as handed to workers: transport `udp`, direction
/// `bidirectional`, registration off and host/port rewrite on when unset;
/// the SIP server as destination (else the outbound proxy), the proxy as
/// backup when it differs; the JSON lists and header map read (empty when
/// unreadable); the SBC metadata when the metadata has an `sbc` member.
pub fn trunk_config_from_row(row: &TrunkRow) -> (r: WorkerTrunkConfig)
    ensures
        r.name@ == row.name@,
        r.id == Some(row.id),
        r.tenant_id is None,
        r.dest@ == (match row.sip_server {
            Some(s) => s@,
            None => match row.outbound_proxy {
                Some(p) => p@,
                None => Seq::empty(),
            },
        }),
        opt_text(r.backup_dest) == (match row.outbound_proxy {
            Some(p) => if p@ == r.dest@ {
                None
            } else {
                Some(p@)
            },
            None => None,
        }),
        opt_text(r.transport) == Some(match row.sip_transport {
            Some(t) => t@,
            None => "udp"@,
        }),
        opt_text(r.direction) == Some(match row.direction {
            Some(d) => d@,
            None => "bidirectional"@,
        }),
        strs_view(r.inbound_hosts@) == string_list_of(row.allowed_ips),
        strs_view(r.did_numbers@) == string_list_of(row.did_numbers),
        opt_text(r.username) == opt_text(row.auth_username),
        opt_text(r.password) == opt_text(row.auth_password),
        r.codec@.len() == 0,
        r.disabled is None,
        r.max_calls == as_count(row.max_concurrent),
        r.max_cps == as_count(row.max_cps),
        r.weight is None,
        r.register_enabled == Some(
            match row.register_enabled {
                Some(b) => b,
                None => false,
            },
        ),
        r.register_expires == as_count(row.register_expires),
        r.register_extra_headers.wf(),
        r.register_extra_headers@ == (match row.register_extra_headers {
            Some(t) => string_map_of(t@),
            None => Seq::empty(),
        }),
        r.rewrite_hostport == Some(
            match row.rewrite_hostport {
                Some(b) => b,
                None => true,
            },
        ),
        opt_text(r.incoming_from_user_prefix) == opt_text(row.incoming_from_user_prefix),
        opt_text(r.incoming_to_user_prefix) == opt_text(row.incoming_to_user_prefix),
        r.country is None,
        opt_text(r.sbc_metadata_json) == sbc_metadata_of(row.metadata),
        r.sbc_metadata_json is Some <==> (row.metadata matches Some(t) && lookup(members_map(t@), "sbc"@) is Some),
{
    let (dest, backup_dest) = trunk_worker_dests(&row.sip_server, &row.outbound_proxy);
    WorkerTrunkConfig {
        name: to_owned(row.name.as_str()),
        id: Some(row.id),
        tenant_id: None,
        dest,
        backup_dest,
        transport: Some(text_or(&row.sip_transport, "udp")),
        direction: Some(text_or(&row.direction, "bidirectional")),
        inbound_hosts: string_list(&row.allowed_ips),
        did_numbers: string_list(&row.did_numbers),
        username: copy_opt(&row.auth_username),
        password: copy_opt(&row.auth_password),
        codec: Vec::new(),
        disabled: None,
        max_calls: count_of(row.max_concurrent),
        max_cps: count_of(row.max_cps),
        weight: None,
        register_enabled: Some(
            match row.register_enabled {
                Some(b) => b,
                None => false,
            },
        ),
        register_expires: count_of(row.register_expires),
        register_extra_headers: string_map(&row.register_extra_headers),
        rewrite_hostport: Some(
            match row.rewrite_hostport {
                Some(b) => b,
                None => true,
            },
        ),
        incoming_from_user_prefix: copy_opt(&row.incoming_from_user_prefix),
        incoming_to_user_prefix: copy_opt(&row.incoming_to_user_prefix),
        country: None,
        sbc_metadata_json: sbc_metadata(&row.metadata),
    }
}

/// A route row as stored; JSON columns are given as their text.
#[derive(Clone, Debug)]
pub struct RouteRow {
    pub name: String,
    pub description: Option<String>,
    pub priority: Option<i32>,
    pub direction: Option<String>,
    pub source_pattern: Option<String>,
    pub destination_pattern: Option<String>,
    pub selection_strategy: Option<String>,
    pub hash_key: Option<String>,
    pub target_trunks: Option<String>,
    pub rewrite_rules: Option<String>,
}

/// A route as handed to workers: its match on the caller and callee user,
/// its rewrites, and the trunks it forwards to.
#[derive(Debug)]
pub struct WorkerRouteRule {
    pub name: String,
    pub description: Option<String>,
    pub priority: i32,
    pub direction: String,
    pub match_from_user: Option<String>,
    pub match_to_user: Option<String>,
    pub rewrite: Option<RewriteRules>,
    pub dest: Vec<String>,
    pub select: String,
    pub hash_key: Option<String>,
    pub auto_answer: bool,
}

fn field_of(m: &SortedMap<String>, dotted: &str, underscored: &str) -> (r: Option<String>)
    ensures
        opt_text(r) == either(string_at(m@, dotted@), string_at(m@, underscored@)),
{
    match string_member(m, dotted) {
        Some(v) => Some(v),
        None => string_member(m, underscored),
    }
}

/// The header rewrites of a rewrite object: its `headers` member read as a
/// string map (empty when absent or unreadable).
pub open spec fn rewrite_headers_of(m: Seq<(Seq<char>, Seq<char>)>) -> Seq<(Seq<char>, Seq<char>)> {
    match lookup(m, "headers"@) {
        Some(h) => string_map_of(h),
        None => Seq::empty(),
    }
}

/// Whether `r` holds the rewrites of a stored rewrite object with members
/// `m`: each field under its dotted name, else its underscored name, when it
/// is a string; the header rewrites of its `headers` member.
pub open spec fn rewrite_ok(r: RewriteRules, m: Seq<(Seq<char>, Seq<char>)>) -> bool {
    &&& opt_text(r.from_user) == either(string_at(m, "from.user"@), string_at(m, "from_user"@))
    &&& opt_text(r.from_host) == either(string_at(m, "from.host"@), string_at(m, "from_host"@))
    &&& opt_text(r.to_user) == either(string_at(m, "to.user"@), string_at(m, "to_user"@))
    &&& opt_text(r.to_host) == either(string_at(m, "to.host"@), string_at(m, "to_host"@))
    &&& opt_text(r.to_port) == either(string_at(m, "to.port"@), string_at(m, "to_port"@))
    &&& opt_text(r.request_uri_user) == either(string_at(m, "request_uri.user"@), string_at(m, "request_uri_user"@))
    &&& opt_text(r.request_uri_host) == either(string_at(m, "request_uri.host"@), string_at(m, "request_uri_host"@))
    &&& opt_text(r.request_uri_port) == either(string_at(m, "request_uri.port"@), string_at(m, "request_uri_port"@))
    &&& r.headers@ == rewrite_headers_of(m)
}

/// The rewrites of a stored rewrite object with members `m`: each field
/// under its dotted name, else its underscored name, when it is a string.
pub fn rewrite_from_members(m: &SortedMap<String>) -> (r: RewriteRules)
    ensures
        r.headers.wf(),
        rewrite_ok(r, m@),
{
    let headers_text = match m.find("headers") {
        Some(h) => Some(to_owned(h.as_str())),
        None => None,
    };
    RewriteRules {
        from_user: field_of(m, "from.user", "from_user"),
        from_host: field_of(m, "from.host", "from_host"),
        to_user: field_of(m, "to.user", "to_user"),
        to_host: field_of(m, "to.host", "to_host"),
        to_port: field_of(m, "to.port", "to_port"),
        request_uri_user: field_of(m, "request_uri.user", "request_uri_user"),
        request_uri_host: field_of(m, "request_uri.host", "request_uri_host"),
        request_uri_port: field_of(m, "request_uri.port", "request_uri_port"),
        headers: string_map(&headers_text),
    }
}

/// A stored route as handed to workers: priority 0, direction `any` and
/// selection `rr` when unset; its source and destination patterns as the
/// caller and callee user it matches; the names of its target trunks
/// (empty when unreadable); its rewrites whenever it stores rewrite rules
/// (fields that are not there read as unset); auto-answer on.
pub fn route_rule_from_row(row: &RouteRow) -> (r: WorkerRouteRule)
    ensures
        r.name@ == row.name@,
        opt_text(r.description) == opt_text(row.description),
        r.priority == (match row.priority {
            Some(p) => p,
            None => 0,
        }),
        r.direction@ == (match row.direction {
            Some(d) => d@,
            None => "any"@,
        }),
        opt_text(r.match_from_user) == opt_text(row.source_pattern),
        opt_text(r.match_to_user) == opt_text(row.destination_pattern),
        strs_view(r.dest@) == (match row.target_trunks {
            Some(t) => trunk_names_of(t@),
            None => Seq::empty(),
        }),
        r.select@ == (match row.selection_strategy {
            Some(s) => s@,
            None => "rr"@,
        }),
        opt_text(r.hash_key) == opt_text(row.hash_key),
        r.auto_answer,
        r.rewrite is Some == row.rewrite_rules is Some,
        (r.rewrite matches Some(rw) ==> (row.rewrite_rules matches Some(t) && rewrite_ok(rw, members_map(t@)))),
{
    let rewrite = match &row.rewrite_rules {
        Some(t) => {
            let m = members_of(t.as_str());
            Some(rewrite_from_members(&m))
        },
        None => None,
    };
    WorkerRouteRule {
        name: to_owned(row.name.as_str()),
        description: copy_opt(&row.description),
        priority: match row.priority {
            Some(p) => p,
            None => 0,
        },
        direction: text_or(&row.direction, "any"),
        match_from_user: copy_opt(&row.source_pattern),
        match_to_user: copy_opt(&row.destination_pattern),
        rewrite,
        dest: trunk_names(&row.target_trunks),
        select: text_or(&row.selection_strategy, "rr"),
        hash_key: copy_opt(&row.hash_key),
        auto_answer: true,
    }
}

} // verus!
