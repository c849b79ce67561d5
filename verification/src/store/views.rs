//! Stored rows as the admin console lists them: the defaults of unset
//! columns, the JSON lists read, credentials shown only as a flag, and call
//! times written as RFC 3339 text.

use crate::raft::registry::{millis_rfc3339, rfc3339_of_millis};
use crate::store::rows::{copy_opt, string_list, string_list_of, text_or, trunk_names, trunk_names_of};
use crate::store::{opt_text, AclView, CdrView, ExtensionView, IvrView, QueueView, RouteView, TrunkView};
use crate::text::{strs_view, to_owned};
use vstd::prelude::*;

verus! {

/// A trunk row as the listing reads it; JSON columns are given as their text.
#[derive(Clone, Debug)]
pub struct TrunkListRow {
    pub id: i64,
    pub name: String,
    pub sip_server: Option<String>,
    pub outbound_proxy: Option<String>,
    pub sip_transport: Option<String>,
    pub direction: Option<String>,
    pub auth_username: Option<String>,
    pub register_enabled: Option<bool>,
    pub is_active: Option<bool>,
    pub did_numbers: Option<String>,
    pub allowed_ips: Option<String>,
    pub max_concurrent: Option<i32>,
    pub tenant_id: Option<i64>,
}

/// A flag read from the row, or its default when unset.
pub open spec fn flag_or(b: Option<bool>, default: bool) -> bool {
    match b {
        Some(x) => x,
        None => default,
    }
}

fn flag(b: Option<bool>, default: bool) -> (r: bool)
    ensures
        r == flag_or(b, default),
{
    match b {
        Some(x) => x,
        None => default,
    }
}

/// A listed trunk: the SIP server as destination (else the outbound proxy),
/// transport `udp` and direction `bidirectional` when unset, credentials as
/// `has_auth` (a non-empty user name), registration off and active when
/// unset, the JSON lists read (empty when unreadable).
pub fn trunk_view_from_row(row: &TrunkListRow) -> (r: TrunkView)
    ensures
        r.id == row.id,
        r.name@ == row.name@,
        opt_text(r.dest) == (match row.sip_server {
            Some(s) => Some(s@),
            None => opt_text(row.outbound_proxy),
        }),
        r.transport@ == (match row.sip_transport {
            Some(t) => t@,
            None => "udp"@,
        }),
        r.direction@ == (match row.direction {
            Some(d) => d@,
            None => "bidirectional"@,
        }),
        r.has_auth == (row.auth_username matches Some(u) && u@.len() > 0),
        r.register_enabled == flag_or(row.register_enabled, false),
        r.is_active == flag_or(row.is_active, true),
        strs_view(r.did_numbers@) == string_list_of(row.did_numbers),
        strs_view(r.allowed_ips@) == string_list_of(row.allowed_ips),
        r.max_concurrent == row.max_concurrent,
        r.tenant_id == row.tenant_id,
{
    let dest = match &row.sip_server {
        Some(s) => Some(to_owned(s.as_str())),
        None => copy_opt(&row.outbound_proxy),
    };
    let has_auth = match &row.auth_username {
        Some(u) => !u.as_str().is_empty(),
        None => false,
    };
    TrunkView {
        id: row.id,
        name: to_owned(row.name.as_str()),
        dest,
        transport: text_or(&row.sip_transport, "udp"),
        direction: text_or(&row.direction, "bidirectional"),
        has_auth,
        register_enabled: flag(row.register_enabled, false),
        is_active: flag(row.is_active, true),
        did_numbers: string_list(&row.did_numbers),
        allowed_ips: string_list(&row.allowed_ips),
        max_concurrent: row.max_concurrent,
        tenant_id: row.tenant_id,
    }
}

/// A route row as the listing reads it; `target_trunks` is JSON text.
#[derive(Clone, Debug)]
pub struct RouteListRow {
    pub id: i64,
    pub name: String,
    pub description: Option<String>,
    pub priority: Option<i32>,
    pub direction: Option<String>,
    pub source_pattern: Option<String>,
    pub destination_pattern: Option<String>,
    pub target_trunks: Option<String>,
    pub is_active: Option<bool>,
    pub tenant_id: Option<i64>,
}

/// A listed route: priority 0, direction `any` and active when unset, and the
/// names of its target trunks (empty when unreadable).
pub fn route_view_from_row(row: &RouteListRow) -> (r: RouteView)
    ensures
        r.id == row.id,
        r.name@ == row.name@,
        opt_text(r.description) == opt_text(row.description),
        r.priority == (match row.priority {
            Some(p) => p,
            None => 0,
        }),
        r.direction@ == (match row.direction {
            Some(d) => d@,
            None => "any"@,
        }),
        opt_text(r.source_pattern) == opt_text(row.source_pattern),
        opt_text(r.destination_pattern) == opt_text(row.destination_pattern),
        strs_view(r.target_trunks@) == (match row.target_trunks {
            Some(t) => trunk_names_of(t@),
            None => Seq::empty(),
        }),
        r.is_active == flag_or(row.is_active, true),
        r.tenant_id == row.tenant_id,
{
    RouteView {
        id: row.id,
        name: to_owned(row.name.as_str()),
        description: copy_opt(&row.description),
        priority: match row.priority {
            Some(p) => p,
            None => 0,
        },
        direction: text_or(&row.direction, "any"),
        source_pattern: copy_opt(&row.source_pattern),
        destination_pattern: copy_opt(&row.destination_pattern),
        target_trunks: trunk_names(&row.target_trunks),
        is_active: flag(row.is_active, true),
        tenant_id: row.tenant_id,
    }
}

/// A call-record row as the listing reads it; times are milliseconds since
/// the epoch.
#[derive(Clone, Debug)]
pub struct CdrRow {
    pub id: i64,
    pub call_id: String,
    pub tenant_id: Option<i64>,
    pub direction: Option<String>,
    pub status: Option<String>,
    pub from_number: Option<String>,
    pub to_number: Option<String>,
    pub started_at_ms: Option<i64>,
    pub ended_at_ms: Option<i64>,
    pub duration_secs: Option<i32>,
    pub recording_url: Option<String>,
}

/// A stored instant as RFC 3339 text.
pub open spec fn time_text(ms: Option<i64>) -> Option<Seq<char>> {
    match ms {
        Some(t) => rfc3339_of_millis(t),
        None => None,
    }
}

fn time_of(ms: Option<i64>) -> (r: Option<String>)
    ensures
        opt_text(r) == time_text(ms),
{
    match ms {
        Some(t) => millis_rfc3339(t),
        None => None,
    }
}

/// A listed call record: direction and status empty and duration 0 when
/// unset, its times as RFC 3339 text.
pub fn cdr_view_from_row(row: &CdrRow) -> (r: CdrView)
    ensures
        r.id == row.id,
        r.call_id@ == row.call_id@,
        r.tenant_id == row.tenant_id,
        r.direction@ == (match row.direction {
            Some(d) => d@,
            None => Seq::empty(),
        }),
        r.status@ == (match row.status {
            Some(s) => s@,
            None => Seq::empty(),
        }),
        opt_text(r.from_number) == opt_text(row.from_number),
        opt_text(r.to_number) == opt_text(row.to_number),
        opt_text(r.started_at) == time_text(row.started_at_ms),
        opt_text(r.ended_at) == time_text(row.ended_at_ms),
        r.duration_secs == (match row.duration_secs {
            Some(d) => d,
            None => 0,
        }),
        opt_text(r.recording_url) == opt_text(row.recording_url),
{
    proof {
        reveal_strlit("");
    }
    CdrView {
        id: row.id,
        call_id: to_owned(row.call_id.as_str()),
        tenant_id: row.tenant_id,
        direction: text_or(&row.direction, ""),
        status: text_or(&row.status, ""),
        from_number: copy_opt(&row.from_number),
        to_number: copy_opt(&row.to_number),
        started_at: time_of(row.started_at_ms),
        ended_at: time_of(row.ended_at_ms),
        duration_secs: match row.duration_secs {
            Some(d) => d,
            None => 0,
        },
        recording_url: copy_opt(&row.recording_url),
    }
}

/// A queue or IVR row as the listing reads it; `spec` is JSON text.
#[derive(Clone, Debug)]
pub struct SpecRow {
    pub id: i64,
    pub name: String,
    pub tenant_id: Option<i64>,
    pub description: Option<String>,
    pub is_active: Option<bool>,
    pub spec: Option<String>,
}

/// A listed queue: active when unset, its spec `null` when none is stored.
pub fn queue_view_from_row(row: &SpecRow) -> (r: QueueView)
    ensures
        r.id == row.id,
        r.name@ == row.name@,
        r.tenant_id == row.tenant_id,
        opt_text(r.description) == opt_text(row.description),
        r.is_active == flag_or(row.is_active, true),
        r.spec@ == (match row.spec {
            Some(s) => s@,
            None => "null"@,
        }),
{
    QueueView {
        id: row.id,
        name: to_owned(row.name.as_str()),
        tenant_id: row.tenant_id,
        description: copy_opt(&row.description),
        is_active: flag(row.is_active, true),
        spec: text_or(&row.spec, "null"),
    }
}

/// A listed IVR: active when unset, its spec `null` when none is stored.
pub fn ivr_view_from_row(row: &SpecRow) -> (r: IvrView)
    ensures
        r.id == row.id,
        r.name@ == row.name@,
        r.tenant_id == row.tenant_id,
        opt_text(r.description) == opt_text(row.description),
        r.is_active == flag_or(row.is_active, true),
        r.spec@ == (match row.spec {
            Some(s) => s@,
            None => "null"@,
        }),
{
    IvrView {
        id: row.id,
        name: to_owned(row.name.as_str()),
        tenant_id: row.tenant_id,
        description: copy_opt(&row.description),
        is_active: flag(row.is_active, true),
        spec: text_or(&row.spec, "null"),
    }
}

/// An ACL row as the listing reads it.
#[derive(Clone, Debug)]
pub struct AclRow {
    pub id: i64,
    pub tenant_id: Option<i64>,
    pub action: Option<String>,
    pub target: Option<String>,
    pub priority: Option<i32>,
    pub is_active: Option<bool>,
}

/// A listed ACL rule: action and target empty, priority 100 and active when
/// unset.
pub fn acl_view_from_row(row: &AclRow) -> (r: AclView)
    ensures
        r.id == row.id,
        r.tenant_id == row.tenant_id,
        r.action@ == (match row.action {
            Some(a) => a@,
            None => Seq::empty(),
        }),
        r.target@ == (match row.target {
            Some(t) => t@,
            None => Seq::empty(),
        }),
        r.priority == (match row.priority {
            Some(p) => p,
            None => 100,
        }),
        r.is_active == flag_or(row.is_active, true),
{
    proof {
        reveal_strlit("");
    }
    AclView {
        id: row.id,
        tenant_id: row.tenant_id,
        action: text_or(&row.action, ""),
        target: text_or(&row.target, ""),
        priority: match row.priority {
            Some(p) => p,
            None => 100,
        },
        is_active: flag(row.is_active, true),
    }
}

/// An extension row as the listing reads it (its SIP password is not read).
#[derive(Clone, Debug)]
pub struct ExtensionRow {
    pub id: i64,
    pub extension: String,
    pub tenant_id: Option<i64>,
    pub display_name: Option<String>,
    pub email: Option<String>,
    pub status: Option<String>,
    pub login_disabled: Option<bool>,
    pub voicemail_disabled: Option<bool>,
    pub allow_guest_calls: Option<bool>,
    pub call_forwarding_mode: Option<String>,
    pub call_forwarding_destination: Option<String>,
    pub call_forwarding_timeout: Option<i32>,
}

/// A listed extension: the three flags off when unset.
pub fn extension_view_from_row(row: &ExtensionRow) -> (r: ExtensionView)
    ensures
        r.id == row.id,
        r.extension@ == row.extension@,
        r.tenant_id == row.tenant_id,
        opt_text(r.display_name) == opt_text(row.display_name),
        opt_text(r.email) == opt_text(row.email),
        opt_text(r.status) == opt_text(row.status),
        r.login_disabled == flag_or(row.login_disabled, false),
        r.voicemail_disabled == flag_or(row.voicemail_disabled, false),
        r.allow_guest_calls == flag_or(row.allow_guest_calls, false),
        opt_text(r.call_forwarding_mode) == opt_text(row.call_forwarding_mode),
        opt_text(r.call_forwarding_destination) == opt_text(row.call_forwarding_destination),
        r.call_forwarding_timeout == row.call_forwarding_timeout,
{
    ExtensionView {
        id: row.id,
        extension: to_owned(row.extension.as_str()),
        tenant_id: row.tenant_id,
        display_name: copy_opt(&row.display_name),
        email: copy_opt(&row.email),
        status: copy_opt(&row.status),
        login_disabled: flag(row.login_disabled, false),
        voicemail_disabled: flag(row.voicemail_disabled, false),
        allow_guest_calls: flag(row.allow_guest_calls, false),
        call_forwarding_mode: copy_opt(&row.call_forwarding_mode),
        call_forwarding_destination: copy_opt(&row.call_forwarding_destination),
        call_forwarding_timeout: row.call_forwarding_timeout,
    }
}

} // verus!
