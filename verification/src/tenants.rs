//! Tenants: their 12-digit ids, their domains (a default `{id}.{base}` always
//! reserved for them, and an optional custom domain that can take over), how
//! a login domain resolves to a tenant, and how updates apply.

use crate::text::{
    dec_i64, i64_to_string, parse_i64, parse_i64_spec, push_char, str_eq, to_owned, trim, trim_str,
    chars_of, string_of,
};
use vstd::prelude::*;

verus! {

/// Smallest tenant id: ids always have exactly 12 digits.
pub const TENANT_ID_MIN: i64 = 100_000_000_000;

/// Number of possible tenant ids.
pub const TENANT_ID_SPAN: u64 = 900_000_000_000;

/// Lifecycle state of a tenant.
#[derive(Clone, Copy, PartialEq, Eq, Structural, Debug)]
pub enum TenantStatus {
    Active,
    Suspended,
    Deleted,
}

impl Default for TenantStatus {
    fn default() -> (r: Self)
        ensures
            r == TenantStatus::Active,
    {
        TenantStatus::Active
    }
}

/// The stored text of a status.
pub open spec fn status_text(s: TenantStatus) -> Seq<char> {
    match s {
        TenantStatus::Active => "active"@,
        TenantStatus::Suspended => "suspended"@,
        TenantStatus::Deleted => "deleted"@,
    }
}

/// The status named exactly by `s`.
pub open spec fn status_named(s: Seq<char>) -> Option<TenantStatus> {
    if s == "active"@ {
        Some(TenantStatus::Active)
    } else if s == "suspended"@ {
        Some(TenantStatus::Suspended)
    } else if s == "deleted"@ {
        Some(TenantStatus::Deleted)
    } else {
        None
    }
}

impl TenantStatus {
    /// The lower-case name of the status.
    pub fn as_str(&self) -> (r: &'static str)
        ensures
            r@ == status_text(*self),
    {
        match self {
            TenantStatus::Active => "active",
            TenantStatus::Suspended => "suspended",
            TenantStatus::Deleted => "deleted",
        }
    }

    /// The status named exactly by `s`, if any.
    pub fn parse(s: &str) -> (r: Option<Self>)
        ensures
            r == status_named(s@),
    {
        if str_eq(s, "active") {
            Some(TenantStatus::Active)
        } else if str_eq(s, "suspended") {
            Some(TenantStatus::Suspended)
        } else if str_eq(s, "deleted") {
            Some(TenantStatus::Deleted)
        } else {
            None
        }
    }
}

/// A tenant row. `metadata` holds JSON text; times are RFC 3339 text.
#[derive(Clone, Debug)]
pub struct TenantRecord {
    pub id: i64,
    pub name: String,
    pub status: TenantStatus,
    pub max_concurrent_calls: Option<i32>,
    pub max_trunks: Option<i32>,
    pub max_dids: Option<i32>,
    pub storage_prefix: Option<String>,
    /// The tenant-chosen domain; active only when enabled.
    pub custom_domain: Option<String>,
    pub custom_domain_enabled: bool,
    pub metadata: Option<String>,
    pub created_at: String,
    pub updated_at: String,
}

/// `{id}.{base}` for a non-blank (trimmed) base domain.
pub open spec fn default_domain_spec(tenant_id: i64, base: Seq<char>) -> Option<Seq<char>> {
    if trim(base).len() > 0 {
        Some(dec_i64(tenant_id) + seq!['.'] + trim(base))
    } else {
        None
    }
}

/// The auto-assigned default domain of a tenant; none without a platform base domain.
pub fn default_domain(tenant_id: i64, base_domain: &str) -> (r: Option<String>)
    ensures
        match r {
            Some(d) => default_domain_spec(tenant_id, base_domain@) == Some(d@),
            None => default_domain_spec(tenant_id, base_domain@) is None,
        },
{
    let b = trim_str(base_domain);
    if b.as_str().is_empty() {
        return None;
    }
    let mut d = i64_to_string(tenant_id);
    push_char(&mut d, '.');
    d.append(b.as_str());
    Some(d)
}

/// The trimmed custom domain when enabled and not blank.
pub open spec fn custom_active(t: TenantRecord) -> Option<Seq<char>> {
    if t.custom_domain_enabled && t.custom_domain is Some && trim(t.custom_domain->0@).len() > 0 {
        Some(trim(t.custom_domain->0@))
    } else {
        None
    }
}

/// A tenant's active domain: the custom domain when enabled and set, else the default.
pub open spec fn active_domain_spec(t: TenantRecord, base: Seq<char>) -> Option<Seq<char>> {
    match custom_active(t) {
        Some(c) => Some(c),
        None => default_domain_spec(t.id, base),
    }
}

/// The tenant's active domain.
pub fn active_domain(t: &TenantRecord, base_domain: &str) -> (r: Option<String>)
    ensures
        match r {
            Some(d) => active_domain_spec(*t, base_domain@) == Some(d@),
            None => active_domain_spec(*t, base_domain@) is None,
        },
{
    if t.custom_domain_enabled {
        match &t.custom_domain {
            Some(c) => {
                let ct = trim_str(c.as_str());
                if !ct.as_str().is_empty() {
                    return Some(ct);
                }
            },
            None => {},
        }
    }
    default_domain(t.id, base_domain)
}

/// A requested custom domain: trimmed, and none when blank.
pub fn normalize_custom_domain(d: Option<&str>) -> (r: Option<String>)
    ensures
        match d {
            Some(x) => if trim(x@).len() > 0 {
                r matches Some(y) && y@ == trim(x@)
            } else {
                r is None
            },
            None => r is None,
        },
{
    match d {
        Some(x) => {
            let t = trim_str(x);
            if t.as_str().is_empty() {
                None
            } else {
                Some(t)
            }
        },
        None => None,
    }
}

/// The tenant id a default-domain login names: the part before `.{base}`, read
/// as an integer, when the base is not blank.
pub open spec fn default_domain_id_spec(domain: Seq<char>, base: Seq<char>) -> Option<i64> {
    let b = trim(base);
    let suffix = seq!['.'] + b;
    if b.len() > 0 && domain.len() >= suffix.len() && domain.skip(domain.len() - suffix.len()) == suffix {
        parse_i64_spec(domain.take(domain.len() - suffix.len()))
    } else {
        None
    }
}

/// The tenant id named by a default domain `{id}.{base}`.
pub fn default_domain_id(domain: &str, base_domain: &str) -> (r: Option<i64>)
    ensures
        r == default_domain_id_spec(domain@, base_domain@),
{
    let b = trim_str(base_domain);
    let bv = chars_of(b.as_str());
    if bv.len() == 0 {
        return None;
    }
    let dv = chars_of(domain);
    let ghost suffix = seq!['.'] + b@;
    if dv.len() <= bv.len() {
        return None;
    }
    let n = bv.len() + 1;
    let start = dv.len() - n;
    if dv[start] != '.' {
        proof {
            assert(dv@.skip(start as int)[0] != suffix[0]);
        }
        return None;
    }
    let mut i: usize = 0;
    while i < bv.len()
        invariant
            i <= bv@.len(),
            bv@ == b@,
            b@ == trim(base_domain@),
            dv@ == domain@,
            start + n == dv@.len(),
            dv@.len() == dv.len(),
            n == bv@.len() + 1,
            dv@[start as int] == '.',
            suffix == seq!['.'] + b@,
            forall|j: int| 0 <= j < i ==> dv@[start + 1 + j] == bv@[j],
        decreases bv@.len() - i,
    {
        if dv[start + 1 + i] != bv[i] {
            proof {
                assert(suffix.len() == n);
                assert(domain@.len() - suffix.len() == start);
                assert(dv@.skip(start as int)[1 + i] != suffix[1 + i]);
                assert(domain@.skip(domain@.len() - suffix.len()) != suffix);
            }
            return None;
        }
        i = i + 1;
    }
    assert(dv@.skip(start as int) =~= suffix);
    let prefix = string_of(dv.as_slice(), 0, start);
    assert(prefix@ =~= domain@.take(start as int));
    parse_i64(prefix.as_str())
}

/// Whether a login domain reaches tenant `t` as its custom domain: not blank,
/// enabled and equal (trimmed), for a tenant that is not deleted.
pub open spec fn custom_domain_reaches(t: TenantRecord, domain: Seq<char>) -> bool {
    trim(domain).len() > 0 && t.status != TenantStatus::Deleted && t.custom_domain_enabled && t.custom_domain is Some
        && t.custom_domain->0@ == trim(domain)
}

/// Whether a login domain reaches tenant `t` as its default domain: it names
/// the tenant's id, the tenant is not deleted, and the default is its active
/// domain (a default is paused while a custom domain is active).
pub open spec fn default_domain_reaches(t: TenantRecord, domain: Seq<char>, base: Seq<char>) -> bool {
    &&& default_domain_id_spec(trim(domain), base) == Some(t.id)
    &&& t.status != TenantStatus::Deleted
    &&& active_domain_spec(t, base) == Some(trim(domain))
}

/// A deleted tenant is reached by no login domain, neither as its custom
/// domain nor as its default domain; a tenant reached by a custom domain is
/// one with that domain (trimmed) enabled; a blank login domain reaches no
/// tenant.
pub proof fn law_deleted_tenant_unreachable(t: TenantRecord, domain: Seq<char>, base: Seq<char>)
    ensures
        t.status == TenantStatus::Deleted ==> !custom_domain_reaches(t, domain) && !default_domain_reaches(
            t,
            domain,
            base,
        ),
        custom_domain_reaches(t, domain) ==> t.status != TenantStatus::Deleted && t.custom_domain_enabled,
        custom_domain_reaches(t, domain) ==> (t.custom_domain matches Some(c) && c@ == trim(domain)),
        trim(domain).len() == 0 ==> !custom_domain_reaches(t, domain) && !default_domain_reaches(t, domain, base),
{
}

/// Whether tenant `t`, found under its custom domain, is reached by that login domain.
pub fn custom_domain_login_ok(t: &TenantRecord, domain: &str) -> (b: bool)
    ensures
        b == custom_domain_reaches(*t, domain@),
        t.status == TenantStatus::Deleted ==> !b,
{
    let d = trim_str(domain);
    let same = match &t.custom_domain {
        Some(c) => str_eq(c.as_str(), d.as_str()),
        None => false,
    };
    !d.as_str().is_empty() && t.status != TenantStatus::Deleted && t.custom_domain_enabled && same
}

/// Whether tenant `t`, found by the id in a default domain, is reached by that login domain.
pub fn default_domain_login_ok(t: &TenantRecord, domain: &str, base_domain: &str) -> (b: bool)
    ensures
        b == default_domain_reaches(*t, domain@, base_domain@),
        t.status == TenantStatus::Deleted ==> !b,
{
    let d = trim_str(domain);
    let id_ok = match default_domain_id(d.as_str(), base_domain) {
        Some(id) => id == t.id,
        None => false,
    };
    if !id_ok || t.status == TenantStatus::Deleted {
        return false;
    }
    match active_domain(t, base_domain) {
        Some(a) => str_eq(a.as_str(), d.as_str()),
        None => false,
    }
}

/// A login domain reaches a tenant through the default-domain path only when
/// it is the tenant's active domain: while a custom domain is active, the
/// default domain (unless it is that same text) is paused.
pub proof fn law_default_path_needs_active_domain(t: TenantRecord, domain: Seq<char>, base: Seq<char>)
    requires
        default_domain_reaches(t, domain, base),
    ensures
        active_domain_spec(t, base) == Some(trim(domain)),
        custom_active(t) is Some ==> custom_active(t) == Some(trim(domain)),
{
}

/// Calls `uuid::Uuid::new_v4().as_u128()`: random bits, so nothing is promised of them.
#[verifier::external_body]
pub(crate) fn random_u128() -> (r: u128) {
    uuid::Uuid::new_v4().as_u128()
}

/// The tenant id drawn from random bits: the low 64 bits, reduced into the
/// 12-digit range.
pub open spec fn tenant_id_from(bits: u128) -> i64 {
    (TENANT_ID_MIN + ((bits as u64) % TENANT_ID_SPAN)) as i64
}

/// A 12-digit tenant id from random bits.
pub fn tenant_id_from_bits(bits: u128) -> (r: i64)
    ensures
        r == tenant_id_from(bits),
        100_000_000_000 <= r <= 999_999_999_999,
{
    let low = bits as u64;
    let r = low % TENANT_ID_SPAN;
    TENANT_ID_MIN + r as i64
}

/// A random, non-sequential 12-digit tenant id.
pub fn random_tenant_id() -> (r: i64)
    ensures
        100_000_000_000 <= r <= 999_999_999_999,
{
    tenant_id_from_bits(random_u128())
}

/// A tenant update. `metadata` holds JSON text.
#[derive(Clone, Debug)]
pub struct UpdateTenantRequest {
    pub name: Option<String>,
    pub status: Option<String>,
    pub max_concurrent_calls: Option<i32>,
    pub max_trunks: Option<i32>,
    pub max_dids: Option<i32>,
    pub storage_prefix: Option<String>,
    pub metadata: Option<String>,
}

/// A tenant's domain settings update.
#[derive(Clone, Debug)]
pub struct UpdateDomainRequest {
    /// New custom domain (blank or none clears it).
    pub custom_domain: Option<String>,
    /// Whether the custom domain is the active one.
    pub custom_domain_enabled: bool,
}

/// Applies an update: each field given replaces the stored one; an unknown
/// status is refused (and nothing changes); `updated_at` becomes `now`.
pub fn apply_update(t: TenantRecord, req: UpdateTenantRequest, now: String) -> (r: Result<TenantRecord, String>)
    ensures
        match r {
            Ok(u) => (req.status matches Some(s) ==> status_named(s@) == Some(u.status)) && (req.status is None
                ==> u.status == t.status) && u.id == t.id && u.name == (match req.name {
                Some(n) => n,
                None => t.name,
            }) && u.max_concurrent_calls == (if req.max_concurrent_calls is Some {
                req.max_concurrent_calls
            } else {
                t.max_concurrent_calls
            }) && u.max_trunks == (if req.max_trunks is Some {
                req.max_trunks
            } else {
                t.max_trunks
            }) && u.max_dids == (if req.max_dids is Some {
                req.max_dids
            } else {
                t.max_dids
            }) && u.storage_prefix == (if req.storage_prefix is Some {
                req.storage_prefix
            } else {
                t.storage_prefix
            }) && u.metadata == (if req.metadata is Some {
                req.metadata
            } else {
                t.metadata
            }) && u.custom_domain == t.custom_domain && u.custom_domain_enabled == t.custom_domain_enabled
                && u.created_at == t.created_at && u.updated_at == now,
            Err(_) => req.status matches Some(s) && status_named(s@) is None,
        },
{
    let mut t = t;
    match req.status {
        Some(s) => match TenantStatus::parse(s.as_str()) {
            Some(st) => {
                t.status = st;
            },
            None => {
                let mut m = to_owned("unknown status: ");
                m.append(s.as_str());
                return Err(m);
            },
        },
        None => {},
    }
    match req.name {
        Some(n) => {
            t.name = n;
        },
        None => {},
    }
    if req.max_concurrent_calls.is_some() {
        t.max_concurrent_calls = req.max_concurrent_calls;
    }
    if req.max_trunks.is_some() {
        t.max_trunks = req.max_trunks;
    }
    if req.max_dids.is_some() {
        t.max_dids = req.max_dids;
    }
    if req.storage_prefix.is_some() {
        t.storage_prefix = req.storage_prefix;
    }
    if req.metadata.is_some() {
        t.metadata = req.metadata;
    }
    t.updated_at = now;
    Ok(t)
}

/// Applies domain settings: the custom domain trimmed (blank clears it), and
/// enabled only when asked for and set.
pub fn apply_domain_update(t: TenantRecord, req: UpdateDomainRequest, now: String) -> (r: TenantRecord)
    ensures
        match req.custom_domain {
            Some(x) => if trim(x@).len() > 0 {
                r.custom_domain matches Some(y) && y@ == trim(x@)
            } else {
                r.custom_domain is None
            },
            None => r.custom_domain is None,
        },
        r.custom_domain_enabled == (req.custom_domain_enabled && r.custom_domain is Some),
        r.id == t.id && r.name == t.name && r.status == t.status && r.updated_at == now,
{
    let custom = match &req.custom_domain {
        Some(x) => normalize_custom_domain(Some(x.as_str())),
        None => None,
    };
    let enabled = req.custom_domain_enabled && custom.is_some();
    let mut t = t;
    t.custom_domain = custom;
    t.custom_domain_enabled = enabled;
    t.updated_at = now;
    t
}

/// A new tenant. `metadata` holds JSON text.
#[derive(Clone, Debug)]
pub struct CreateTenantRequest {
    pub name: String,
    pub max_concurrent_calls: Option<i32>,
    pub max_trunks: Option<i32>,
    pub max_dids: Option<i32>,
    pub storage_prefix: Option<String>,
    pub custom_domain: Option<String>,
    pub metadata: Option<String>,
    /// Optional initial tenant-admin account provisioned with the tenant.
    pub admin_username: Option<String>,
    pub admin_password: Option<String>,
}

/// The row a creation stores under the allocated `id`: active, with the
/// custom domain trimmed (blank means none) and enabled exactly when set.
pub fn new_tenant(id: i64, req: &CreateTenantRequest, now: String) -> (r: TenantRecord)
    ensures
        r.id == id && r.name == req.name && r.status == TenantStatus::Active,
        r.max_concurrent_calls == req.max_concurrent_calls && r.max_trunks == req.max_trunks
            && r.max_dids == req.max_dids && r.storage_prefix == req.storage_prefix
            && r.metadata == req.metadata,
        match req.custom_domain {
            Some(x) => if trim(x@).len() > 0 {
                r.custom_domain matches Some(y) && y@ == trim(x@)
            } else {
                r.custom_domain is None
            },
            None => r.custom_domain is None,
        },
        r.custom_domain_enabled == r.custom_domain is Some,
        r.created_at == now && r.updated_at == now,
{
    let custom = match &req.custom_domain {
        Some(x) => normalize_custom_domain(Some(x.as_str())),
        None => None,
    };
    let enabled = custom.is_some();
    TenantRecord {
        id,
        name: req.name.clone(),
        status: TenantStatus::Active,
        max_concurrent_calls: req.max_concurrent_calls,
        max_trunks: req.max_trunks,
        max_dids: req.max_dids,
        storage_prefix: req.storage_prefix.clone(),
        custom_domain: custom,
        custom_domain_enabled: enabled,
        metadata: req.metadata.clone(),
        created_at: now.clone(),
        updated_at: now,
    }
}

/// What the API shows of a tenant, with its default and active domains.
#[derive(Clone, Debug)]
pub struct TenantResponse {
    pub id: i64,
    pub name: String,
    pub status: String,
    pub max_concurrent_calls: Option<i32>,
    pub max_trunks: Option<i32>,
    pub max_dids: Option<i32>,
    pub storage_prefix: Option<String>,
    pub custom_domain: Option<String>,
    pub custom_domain_enabled: bool,
    /// Auto-assigned `{id}.{base_domain}` (always reserved for the tenant).
    pub default_domain: Option<String>,
    /// Currently effective domain (custom when enabled, else default).
    pub active_domain: Option<String>,
    pub created_at: String,
    pub updated_at: String,
}

/// The view of an optional string.
pub open spec fn opt_view(o: Option<String>) -> Option<Seq<char>> {
    match o {
        Some(s) => Some(s@),
        None => None,
    }
}

impl TenantResponse {
    /// The response for a stored tenant under the platform base domain.
    pub fn from_record(t: TenantRecord, base_domain: &str) -> (r: Self)
        ensures
            r.id == t.id && r.name == t.name && r.status@ == status_text(t.status),
            r.max_concurrent_calls == t.max_concurrent_calls && r.max_trunks == t.max_trunks
                && r.max_dids == t.max_dids && r.storage_prefix == t.storage_prefix,
            r.custom_domain == t.custom_domain && r.custom_domain_enabled == t.custom_domain_enabled,
            opt_view(r.default_domain) == default_domain_spec(t.id, base_domain@),
            opt_view(r.active_domain) == active_domain_spec(t, base_domain@),
            r.created_at == t.created_at && r.updated_at == t.updated_at,
    {
        let dd = default_domain(t.id, base_domain);
        let ad = active_domain(&t, base_domain);
        TenantResponse {
            id: t.id,
            name: t.name,
            status: to_owned(t.status.as_str()),
            max_concurrent_calls: t.max_concurrent_calls,
            max_trunks: t.max_trunks,
            max_dids: t.max_dids,
            storage_prefix: t.storage_prefix,
            custom_domain: t.custom_domain,
            custom_domain_enabled: t.custom_domain_enabled,
            default_domain: dd,
            active_domain: ad,
            created_at: t.created_at,
            updated_at: t.updated_at,
        }
    }
}

} // verus!
