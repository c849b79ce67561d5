//! Admin-console records for trunks, routes, extensions, ACL rules and call
//! records, and the tenant-scoping rules that every read and write of them
//! follows: a tenant sees its own rows and the global ones, but changes only
//! its own; the superadmin (no scope) sees and changes everything.

pub mod rows;
pub mod views;
pub mod sql;

use crate::routing::RewriteRules;
use crate::sorted_map::{lookup, SortedMap};
use crate::text::{is_blank, to_owned, trim, trim_str};
use vstd::prelude::*;

verus! {

/// A trunk as the admin console submits it (a full replacement on update).
#[derive(Clone, Debug)]
pub struct TrunkInput {
    pub name: String,
    pub display_name: Option<String>,
    pub carrier: Option<String>,
    pub direction: String,
    pub sip_server: Option<String>,
    pub sip_transport: String,
    pub outbound_proxy: Option<String>,
    pub auth_username: Option<String>,
    pub auth_password: Option<String>,
    pub max_cps: Option<i32>,
    pub max_concurrent: Option<i32>,
    pub allowed_ips: Vec<String>,
    pub did_numbers: Vec<String>,
    pub incoming_from_user_prefix: Option<String>,
    pub incoming_to_user_prefix: Option<String>,
    pub is_active: bool,
    pub register_enabled: bool,
    pub register_expires: Option<i32>,
    pub rewrite_hostport: bool,
}

/// A routing rule as the admin console submits it.
#[derive(Clone, Debug)]
pub struct RouteInput {
    pub name: String,
    pub description: Option<String>,
    pub direction: String,
    pub priority: i32,
    pub is_active: bool,
    pub selection_strategy: String,
    pub hash_key: Option<String>,
    pub source_pattern: Option<String>,
    pub destination_pattern: Option<String>,
    pub target_trunks: Vec<String>,
}

/// An extension as the admin console submits it.
#[derive(Clone, Debug)]
pub struct ExtensionInput {
    pub extension: String,
    pub display_name: Option<String>,
    pub email: Option<String>,
    pub status: Option<String>,
    pub login_disabled: bool,
    pub voicemail_disabled: bool,
    pub allow_guest_calls: bool,
    pub sip_password: Option<String>,
    pub call_forwarding_mode: Option<String>,
    pub call_forwarding_destination: Option<String>,
    pub call_forwarding_timeout: Option<i32>,
}

/// An extension as the admin console lists it (never its SIP password).
#[derive(Clone, Debug)]
pub struct ExtensionView {
    pub id: i64,
    pub extension: String,
    pub tenant_id: Option<i64>,
    pub display_name: Option<String>,
    pub email: Option<String>,
    pub status: Option<String>,
    pub login_disabled: bool,
    pub voicemail_disabled: bool,
    pub allow_guest_calls: bool,
    pub call_forwarding_mode: Option<String>,
    pub call_forwarding_destination: Option<String>,
    pub call_forwarding_timeout: Option<i32>,
}

/// An ACL rule as the admin console submits it.
#[derive(Clone, Debug)]
pub struct AclInput {
    /// `allow` or `deny`.
    pub action: String,
    /// CIDR or the literal `all`.
    pub target: String,
    pub priority: i32,
    pub is_active: bool,
}

/// An ACL rule as the admin console lists it.
#[derive(Clone, Debug)]
pub struct AclView {
    pub id: i64,
    pub tenant_id: Option<i64>,
    pub action: String,
    pub target: String,
    pub priority: i32,
    pub is_active: bool,
}

/// A trunk as the admin console lists it: credentials only as `has_auth`.
#[derive(Clone, Debug)]
pub struct TrunkView {
    pub id: i64,
    pub name: String,
    /// Resolved destination (sip_server, else outbound_proxy).
    pub dest: Option<String>,
    pub transport: String,
    pub direction: String,
    pub has_auth: bool,
    pub register_enabled: bool,
    pub is_active: bool,
    pub did_numbers: Vec<String>,
    pub allowed_ips: Vec<String>,
    pub max_concurrent: Option<i32>,
    pub tenant_id: Option<i64>,
}

/// A routing rule as the admin console lists it.
#[derive(Clone, Debug)]
pub struct RouteView {
    pub id: i64,
    pub name: String,
    pub description: Option<String>,
    pub priority: i32,
    pub direction: String,
    pub source_pattern: Option<String>,
    pub destination_pattern: Option<String>,
    pub target_trunks: Vec<String>,
    pub is_active: bool,
    pub tenant_id: Option<i64>,
}

/// A call record as the admin console lists it; times are RFC 3339 text.
#[derive(Clone, Debug)]
pub struct CdrView {
    pub id: i64,
    pub call_id: String,
    pub tenant_id: Option<i64>,
    pub direction: String,
    pub status: String,
    pub from_number: Option<String>,
    pub to_number: Option<String>,
    pub started_at: Option<String>,
    pub ended_at: Option<String>,
    pub duration_secs: i32,
    pub recording_url: Option<String>,
}

/// A call queue as the admin console submits it. `spec` is the queue's
/// configuration as JSON text, stored and handed to workers verbatim.
#[derive(Clone, Debug)]
pub struct QueueInput {
    pub name: String,
    pub description: Option<String>,
    pub spec: String,
    pub is_active: bool,
}

/// A call queue as the admin console lists it.
#[derive(Clone, Debug)]
pub struct QueueView {
    pub id: i64,
    pub name: String,
    pub tenant_id: Option<i64>,
    pub description: Option<String>,
    pub is_active: bool,
    /// The stored JSON text; `null` when none is stored.
    pub spec: String,
}

/// An IVR as the admin console submits it. `spec` is its definition as JSON
/// text, stored and handed to workers verbatim.
#[derive(Clone, Debug)]
pub struct IvrInput {
    pub name: String,
    pub description: Option<String>,
    pub spec: String,
    pub is_active: bool,
}

/// An IVR as the admin console lists it.
#[derive(Clone, Debug)]
pub struct IvrView {
    pub id: i64,
    pub name: String,
    pub tenant_id: Option<i64>,
    pub description: Option<String>,
    pub is_active: bool,
    /// The stored JSON text; `null` when none is stored.
    pub spec: String,
}

/// Filters and paging for the call-record listing; all filters combine with
/// AND. Times are milliseconds since the epoch.
#[derive(Clone, Debug)]
pub struct CdrListOpts {
    /// Restrict to a tenant (none: all tenants, superadmin scope).
    pub tenant_id: Option<i64>,
    /// Substring of `from_number` or `to_number`.
    pub search: Option<String>,
    /// Exact `status`.
    pub status: Option<String>,
    /// Exact `direction`.
    pub direction: Option<String>,
    /// `started_at >= since`.
    pub since: Option<i64>,
    /// `started_at <= until`.
    pub until: Option<i64>,
    /// Page size (clamped to 1..=500).
    pub limit: u64,
    /// Rows to skip.
    pub offset: u64,
}

impl Default for CdrListOpts {
    fn default() -> (r: Self)
        ensures
            r.tenant_id is None && r.search is None && r.status is None && r.direction is None
                && r.since is None && r.until is None && r.limit == 0 && r.offset == 0,
    {
        CdrListOpts {
            tenant_id: None,
            search: None,
            status: None,
            direction: None,
            since: None,
            until: None,
            limit: 0,
            offset: 0,
        }
    }
}

/// Direction of a trunk submitted without one.
pub fn default_direction() -> (r: String)
    ensures
        r@ == "bidirectional"@,
{
    to_owned("bidirectional")
}

/// Transport of a trunk submitted without one.
pub fn default_transport() -> (r: String)
    ensures
        r@ == "udp"@,
{
    to_owned("udp")
}

/// Flags that default to on (`is_active`, `rewrite_hostport`).
pub fn default_true() -> (b: bool)
    ensures
        b,
{
    true
}

/// Direction of a route submitted without one.
pub fn default_any() -> (r: String)
    ensures
        r@ == "any"@,
{
    to_owned("any")
}

/// Priority of a route or ACL rule submitted without one.
pub fn default_priority() -> (p: i32)
    ensures
        p == 100,
{
    100
}

/// Trunk selection strategy of a route submitted without one (round robin).
pub fn default_rr() -> (r: String)
    ensures
        r@ == "rr"@,
{
    to_owned("rr")
}

/// Whether a row of `row_tenant` is listed to a reader in `scope`: everything
/// for the superadmin, else the reader's own rows and the global ones.
pub open spec fn visible_to(row_tenant: Option<i64>, scope: Option<i64>) -> bool {
    match scope {
        None => true,
        Some(t) => row_tenant == Some(t) || row_tenant is None,
    }
}

/// Whether a row of `row_tenant` may be updated or deleted in `scope`:
/// anything for the superadmin, else only the tenant's own rows.
pub open spec fn mutable_by(row_tenant: Option<i64>, scope: Option<i64>) -> bool {
    match scope {
        None => true,
        Some(t) => row_tenant == Some(t),
    }
}

/// Whether a row is listed in a scope.
pub fn is_visible(row_tenant: Option<i64>, scope: Option<i64>) -> (b: bool)
    ensures
        b == visible_to(row_tenant, scope),
{
    match scope {
        None => true,
        Some(t) => match row_tenant {
            Some(r) => r == t,
            None => true,
        },
    }
}

/// Whether a row may be changed in a scope.
pub fn is_mutable(row_tenant: Option<i64>, scope: Option<i64>) -> (b: bool)
    ensures
        b == mutable_by(row_tenant, scope),
{
    match scope {
        None => true,
        Some(t) => match row_tenant {
            Some(r) => r == t,
            None => false,
        },
    }
}

/// A tenant-scoped change reaches only that tenant's rows: never a global
/// row, never another tenant's.
pub proof fn law_scoped_change_stays_in_tenant(row_tenant: Option<i64>, t: i64)
    ensures
        mutable_by(row_tenant, Some(t)) <==> row_tenant == Some(t),
        !mutable_by(None, Some(t)),
{
}

/// A tenant sees its own rows and the global rows, and nothing of another
/// tenant; the superadmin sees and changes every row.
pub proof fn law_tenant_sees_own_and_global(row_tenant: Option<i64>, t: i64)
    ensures
        visible_to(None, Some(t)),
        visible_to(Some(t), Some(t)),
        row_tenant matches Some(o) && o != t ==> !visible_to(row_tenant, Some(t)),
        visible_to(row_tenant, None) && mutable_by(row_tenant, None),
{
}

/// What a scope may change it may also see.
pub proof fn law_mutable_rows_are_visible(row_tenant: Option<i64>, scope: Option<i64>)
    ensures
        mutable_by(row_tenant, scope) ==> visible_to(row_tenant, scope),
{
}

/// Whether an extension update replaces the stored SIP password: only when a
/// non-empty one is given (omitted keeps the current one).
pub fn replaces_sip_password(e: &ExtensionInput) -> (b: bool)
    ensures
        b == (e.sip_password matches Some(p) && p@.len() > 0),
{
    match &e.sip_password {
        Some(p) => !p.as_str().is_empty(),
        None => false,
    }
}

/// A trunk's resolved destination: the SIP server, else the outbound proxy.
pub fn trunk_dest(sip_server: &Option<String>, outbound_proxy: &Option<String>) -> (r: Option<String>)
    ensures
        r == (if sip_server is Some { *sip_server } else { *outbound_proxy }),
{
    match sip_server {
        Some(s) => Some(s.clone()),
        None => outbound_proxy.clone(),
    }
}

/// Whether a trunk has credentials: a non-empty auth user name.
pub fn trunk_has_auth(auth_username: &Option<String>) -> (b: bool)
    ensures
        b == (*auth_username matches Some(u) && u@.len() > 0),
{
    match auth_username {
        Some(u) => !u.as_str().is_empty(),
        None => false,
    }
}

/// The destination handed to workers (the SIP server, else the outbound
/// proxy, else empty) and the backup: the outbound proxy when it differs.
pub fn trunk_worker_dests(sip_server: &Option<String>, outbound_proxy: &Option<String>) -> (r: (
    String,
    Option<String>,
))
    ensures
        r.0@ == (match *sip_server {
            Some(s) => s@,
            None => match *outbound_proxy {
                Some(p) => p@,
                None => Seq::empty(),
            },
        }),
        match *outbound_proxy {
            Some(p) => if p@ == r.0@ {
                r.1 is None
            } else {
                r.1 == Some(p)
            },
            None => r.1 is None,
        },
{
    let dest = match sip_server {
        Some(s) => s.clone(),
        None => match outbound_proxy {
            Some(p) => p.clone(),
            None => String::new(),
        },
    };
    let backup = match outbound_proxy {
        Some(p) => if crate::text::str_eq(p.as_str(), dest.as_str()) {
            None
        } else {
            Some(p.clone())
        },
        None => None,
    };
    (dest, backup)
}

/// A tenant's concurrency limit as stored: only a value above zero limits.
pub fn concurrency_limit(max_concurrent_calls: Option<i32>) -> (r: Option<u32>)
    ensures
        r == (match max_concurrent_calls {
            Some(v) => if v > 0 {
                Some(v as u32)
            } else {
                None
            },
            None => None,
        }),
{
    match max_concurrent_calls {
        Some(v) => if v > 0 {
            Some(v as u32)
        } else {
            None
        },
        None => None,
    }
}

/// An ACL rule in the worker's configuration form: `"<action> <target>"`.
pub fn acl_rule_line(action: &str, target: &str) -> (r: String)
    ensures
        r@ == action@ + seq![' '] + target@,
{
    let mut r = to_owned(action);
    crate::text::push_char(&mut r, ' ');
    r.append(target);
    r
}

/// A text filter as it applies: trimmed, and none when blank.
pub open spec fn text_filter(f: Option<String>) -> Option<Seq<char>> {
    match f {
        Some(s) => if trim(s@).len() > 0 {
            Some(trim(s@))
        } else {
            None
        },
        None => None,
    }
}

pub(crate) fn normalize_filter(f: &Option<String>) -> (r: Option<String>)
    ensures
        match r {
            Some(s) => text_filter(*f) == Some(s@),
            None => text_filter(*f) is None,
        },
{
    match f {
        Some(s) => {
            let t = trim_str(s.as_str());
            if t.as_str().is_empty() {
                None
            } else {
                Some(t)
            }
        },
        None => None,
    }
}

impl CdrListOpts {
    /// The filters as the listing applies them: text filters trimmed and
    /// dropped when blank, the page size clamped to 1..=500.
    pub fn normalized(&self) -> (r: Self)
        ensures
            r.tenant_id == self.tenant_id && r.since == self.since && r.until == self.until
                && r.offset == self.offset,
            match r.search {
                Some(s) => text_filter(self.search) == Some(s@),
                None => text_filter(self.search) is None,
            },
            match r.status {
                Some(s) => text_filter(self.status) == Some(s@),
                None => text_filter(self.status) is None,
            },
            match r.direction {
                Some(s) => text_filter(self.direction) == Some(s@),
                None => text_filter(self.direction) is None,
            },
            r.limit == (if self.limit < 1 {
                1
            } else if self.limit > 500 {
                500
            } else {
                self.limit
            }),
    {
        let limit = if self.limit < 1 {
            1
        } else if self.limit > 500 {
            500
        } else {
            self.limit
        };
        CdrListOpts {
            tenant_id: self.tenant_id,
            search: normalize_filter(&self.search),
            status: normalize_filter(&self.status),
            direction: normalize_filter(&self.direction),
            since: self.since,
            until: self.until,
            limit,
            offset: self.offset,
        }
    }
}

/// The first of two optional values that is present.
pub open spec fn either(a: Option<Seq<char>>, b: Option<Seq<char>>) -> Option<Seq<char>> {
    if a is Some {
        a
    } else {
        b
    }
}

/// The view of an optional string.
pub open spec fn opt_text(o: Option<String>) -> Option<Seq<char>> {
    match o {
        Some(s) => Some(s@),
        None => None,
    }
}

/// A rewrite field of a stored route: under its dotted name (`from.user`),
/// else under its underscored name (`from_user`).
pub fn rewrite_field(fields: &SortedMap<String>, dotted: &str, underscored: &str) -> (r: Option<String>)
    ensures
        opt_text(r) == either(lookup(fields@, dotted@), lookup(fields@, underscored@)),
{
    match fields.find(dotted) {
        Some(v) => Some(v.clone()),
        None => match fields.find(underscored) {
            Some(v) => Some(v.clone()),
            None => None,
        },
    }
}

/// The rewrite rules of a stored route, from the string fields of its stored
/// rewrite object and its header rewrites.
pub fn rewrite_rules_from(fields: &SortedMap<String>, headers: SortedMap<String>) -> (r: RewriteRules)
    ensures
        opt_text(r.from_user) == either(lookup(fields@, "from.user"@), lookup(fields@, "from_user"@)),
        opt_text(r.from_host) == either(lookup(fields@, "from.host"@), lookup(fields@, "from_host"@)),
        opt_text(r.to_user) == either(lookup(fields@, "to.user"@), lookup(fields@, "to_user"@)),
        opt_text(r.to_host) == either(lookup(fields@, "to.host"@), lookup(fields@, "to_host"@)),
        opt_text(r.to_port) == either(lookup(fields@, "to.port"@), lookup(fields@, "to_port"@)),
        opt_text(r.request_uri_user) == either(
            lookup(fields@, "request_uri.user"@),
            lookup(fields@, "request_uri_user"@),
        ),
        opt_text(r.request_uri_host) == either(
            lookup(fields@, "request_uri.host"@),
            lookup(fields@, "request_uri_host"@),
        ),
        opt_text(r.request_uri_port) == either(
            lookup(fields@, "request_uri.port"@),
            lookup(fields@, "request_uri_port"@),
        ),
        r.headers@ == headers@,
{
    RewriteRules {
        from_user: rewrite_field(fields, "from.user", "from_user"),
        from_host: rewrite_field(fields, "from.host", "from_host"),
        to_user: rewrite_field(fields, "to.user", "to_user"),
        to_host: rewrite_field(fields, "to.host", "to_host"),
        to_port: rewrite_field(fields, "to.port", "to_port"),
        request_uri_user: rewrite_field(fields, "request_uri.user", "request_uri_user"),
        request_uri_host: rewrite_field(fields, "request_uri.host", "request_uri_host"),
        request_uri_port: rewrite_field(fields, "request_uri.port", "request_uri_port"),
        headers,
    }
}

/// The instant `chrono::DateTime::parse_from_rfc3339` reads in `s`, in
/// milliseconds since the epoch; none where it refuses the text.
pub uninterp spec fn rfc3339_millis(s: Seq<char>) -> Option<i64>;

/// `chrono::DateTime::parse_from_rfc3339`, then `timestamp_millis`.
#[verifier::external_body]
fn parse_rfc3339_millis(s: &str) -> (r: Option<i64>)
    ensures
        r == rfc3339_millis(s@),
{
    match chrono::DateTime::parse_from_rfc3339(s) {
        Ok(t) => Some(t.timestamp_millis()),
        Err(_) => None,
    }
}

/// A `since`/`until` query bound: the trimmed text read as RFC 3339; none
/// when absent, blank or unreadable.
pub fn parse_rfc3339(s: Option<&str>) -> (r: Option<i64>)
    ensures
        r == (match s {
            Some(t) => if trim(t@).len() == 0 {
                None
            } else {
                rfc3339_millis(trim(t@))
            },
            None => None,
        }),
{
    match s {
        Some(t) => if is_blank(t) {
            None
        } else {
            let t = trim_str(t);
            parse_rfc3339_millis(t.as_str())
        },
        None => None,
    }
}

} // verus!
