//! Who may see and change what in the admin console, and the decisions made
//! around signing in: tenant scoping, permission checks, the failed-login
//! throttle, sessions, and quota checks.

use crate::auth::permissions::{has_permission, is_admin_role, roles};
use crate::seqs::{keep, lemma_insert_by_rank, lemma_keep_append, lemma_keep_single, sorted_by_rank, with_rank};
use crate::text::{chars_of, split, split_str, str_eq, to_owned, trim, trim_str};
use vstd::prelude::*;

verus! {

/// Session lifetime, in hours.
pub const SESSION_TTL_HOURS: i64 = 12;

/// Failed logins from one client tolerated within a window.
pub const LOGIN_MAX_FAILS: u32 = 5;

/// The failed-login window, in seconds.
pub const LOGIN_WINDOW_SECS: i64 = 60;

/// The signed-in principal.
#[derive(Clone, Debug)]
pub struct UserInfo {
    pub username: String,
    pub role: String,
    pub tenant_id: Option<i64>,
    pub permissions: Vec<String>,
}

/// Whether two principals agree in every field.
pub open spec fn same_user(a: UserInfo, b: UserInfo) -> bool {
    a.username == b.username && a.role == b.role && a.tenant_id == b.tenant_id && a.permissions@
        == b.permissions@
}

impl UserInfo {
    /// An owned copy of the principal.
    pub fn duplicate(&self) -> (r: Self)
        ensures
            same_user(r, *self),
    {
        let r = UserInfo {
            username: self.username.clone(),
            role: self.role.clone(),
            tenant_id: self.tenant_id,
            permissions: crate::text::copy_strings(&self.permissions),
        };
        r
    }
}

/// A refused request: an HTTP status and a message.
#[derive(Debug)]
pub struct ApiError {
    pub status: u16,
    pub message: String,
}

/// HTTP 400.
pub const BAD_REQUEST: u16 = 400;
/// HTTP 401.
pub const UNAUTHORIZED: u16 = 401;
/// HTTP 403.
pub const FORBIDDEN: u16 = 403;
/// HTTP 404.
pub const NOT_FOUND: u16 = 404;
/// HTTP 409.
pub const CONFLICT: u16 = 409;
/// HTTP 429.
pub const TOO_MANY_REQUESTS: u16 = 429;
/// HTTP 204.
pub const NO_CONTENT: u16 = 204;

fn forbidden() -> (e: ApiError)
    ensures
        e.status == FORBIDDEN,
{
    ApiError { status: FORBIDDEN, message: "forbidden".to_string() }
}

/// Whether the principal is the platform superadmin.
pub open spec fn superadmin(u: UserInfo) -> bool {
    u.role@ == "superadmin"@
}

/// Whether the principal is the platform superadmin.
pub fn is_superadmin(u: &UserInfo) -> (b: bool)
    ensures
        b == superadmin(*u),
{
    str_eq(u.role.as_str(), roles::SUPERADMIN)
}

/// Succeeds exactly when the principal holds `perm` (admins always do);
/// otherwise 403.
pub fn require_perm(u: &UserInfo, perm: &str) -> (r: Result<(), ApiError>)
    ensures
        r is Ok == (is_admin_role(u.role@) || exists|i: int|
            0 <= i < u.permissions@.len() && #[trigger] u.permissions@[i]@ == perm@),
        r matches Err(e) ==> e.status == FORBIDDEN,
{
    if has_permission(u.role.as_str(), u.permissions.as_slice(), perm) {
        Ok(())
    } else {
        let mut m = to_owned("missing permission: ");
        m.append(perm);
        Err(ApiError { status: FORBIDDEN, message: m })
    }
}

/// Succeeds exactly for the superadmin; otherwise 403.
pub fn require_superadmin(u: &UserInfo) -> (r: Result<(), ApiError>)
    ensures
        r is Ok == superadmin(*u),
        r matches Err(e) ==> e.status == FORBIDDEN,
{
    if is_superadmin(u) {
        Ok(())
    } else {
        Err(forbidden())
    }
}

/// The scope of a read or create: the superadmin gets what it asked for (none
/// meaning every tenant, or a global row); anyone else gets their own tenant,
/// and is refused when they have none or asked for another tenant.
pub open spec fn tenant_scope_spec(u: UserInfo, q: Option<i64>) -> Option<Option<i64>> {
    if superadmin(u) {
        Some(q)
    } else {
        match u.tenant_id {
            None => None,
            Some(t) => if q is Some && q->0 != t {
                None
            } else {
                Some(Some(t))
            },
        }
    }
}

/// The tenant scope of a read.
pub fn read_scope(u: &UserInfo, q: Option<i64>) -> (r: Result<Option<i64>, ApiError>)
    ensures
        match r {
            Ok(s) => tenant_scope_spec(*u, q) == Some(s),
            Err(e) => tenant_scope_spec(*u, q) is None && e.status == FORBIDDEN,
        },
{
    if is_superadmin(u) {
        return Ok(q);
    }
    let tid = match u.tenant_id {
        Some(t) => t,
        None => return Err(forbidden()),
    };
    match q {
        Some(other) => if other != tid {
            return Err(forbidden());
        },
        None => {},
    }
    Ok(Some(tid))
}

/// The tenant a newly created row belongs to.
pub fn create_tenant_scope(u: &UserInfo, q: Option<i64>) -> (r: Result<Option<i64>, ApiError>)
    ensures
        match r {
            Ok(s) => tenant_scope_spec(*u, q) == Some(s),
            Err(e) => tenant_scope_spec(*u, q) is None && e.status == FORBIDDEN,
        },
{
    read_scope(u, q)
}

/// The restriction on updates and deletes: none for the superadmin, else the
/// principal's own tenant.
pub fn mutate_scope(u: &UserInfo) -> (r: Option<i64>)
    ensures
        r == (if superadmin(*u) { None } else { u.tenant_id }),
{
    if is_superadmin(u) {
        None
    } else {
        u.tenant_id
    }
}

/// The single tenant a self-service action applies to: the superadmin must
/// name it (else 400); anyone else acts on their own tenant (403 when they
/// have none or named another).
pub fn required_tenant(u: &UserInfo, q: Option<i64>) -> (r: Result<i64, ApiError>)
    ensures
        match r {
            Ok(t) => if superadmin(*u) {
                q == Some(t)
            } else {
                u.tenant_id == Some(t) && (q is None || q == Some(t))
            },
            Err(e) => if superadmin(*u) {
                q is None && e.status == BAD_REQUEST
            } else {
                (u.tenant_id is None || (q is Some && q != u.tenant_id)) && e.status == FORBIDDEN
            },
        },
{
    if is_superadmin(u) {
        return match q {
            Some(t) => Ok(t),
            None => Err(ApiError { status: BAD_REQUEST, message: "tenant_id is required".to_string() }),
        };
    }
    let tid = match u.tenant_id {
        Some(t) => t,
        None => return Err(forbidden()),
    };
    match q {
        Some(other) => if other != tid {
            return Err(forbidden());
        },
        None => {},
    }
    Ok(tid)
}

/// No row affected means 404; otherwise 204.
pub fn affected_or_404(n: u64) -> (r: Result<u16, ApiError>)
    ensures
        match r {
            Ok(s) => n > 0 && s == NO_CONTENT,
            Err(e) => n == 0 && e.status == NOT_FOUND,
        },
{
    if n == 0 {
        Err(ApiError { status: NOT_FOUND, message: "not found or not in your tenant".to_string() })
    } else {
        Ok(NO_CONTENT)
    }
}

/// Refuses (409) creating one more of a resource once `count` reaches the
/// cap, saying `<resource> quota reached for this tenant (<count>/<max>)`.
pub fn enforce_quota(resource: &str, count: u64, max: Option<i32>) -> (r: Result<(), ApiError>)
    ensures
        r is Err == (max is Some && count >= max->0 as u64),
        r matches Err(e) ==> e.status == CONFLICT && e.message@ == resource@ + " quota reached for this tenant ("@
            + crate::text::dec(count as nat) + "/"@ + crate::text::dec_i64(max->0 as i64) + ")"@,
{
    match max {
        Some(m) => if count >= m as u64 {
            let mut msg = to_owned(resource);
            msg.append(" quota reached for this tenant (");
            let c = crate::text::u64_to_string(count);
            msg.append(c.as_str());
            msg.append("/");
            let mx = crate::text::i64_to_string(m as i64);
            msg.append(mx.as_str());
            msg.append(")");
            Err(ApiError { status: CONFLICT, message: msg })
        } else {
            Ok(())
        },
        None => Ok(()),
    }
}

/// The client a login attempt is counted against: the first hop of
/// `X-Forwarded-For` when present and not blank, else the peer address.
pub open spec fn client_key_spec(forwarded_for: Option<Seq<char>>, peer_ip: Seq<char>) -> Seq<char> {
    match forwarded_for {
        Some(v) => if trim(split(v, ',')[0]).len() > 0 {
            trim(split(v, ',')[0])
        } else {
            peer_ip
        },
        None => peer_ip,
    }
}

/// The client key for login throttling.
pub fn client_key(forwarded_for: Option<&str>, peer_ip: &str) -> (r: String)
    ensures
        r@ == client_key_spec(
            match forwarded_for {
                Some(v) => Some(v@),
                None => None,
            },
            peer_ip@,
        ),
{
    match forwarded_for {
        Some(v) => {
            let parts = split_str(v, ',');
            assert(parts@.map_values(|x: String| x@)[0] == parts@[0]@);
            let first = trim_str(parts[0].as_str());
            if first.as_str().is_empty() {
                to_owned(peer_ip)
            } else {
                first
            }
        },
        None => to_owned(peer_ip),
    }
}

/// Failed logins from one client within the current window.
#[derive(Clone, Copy, Debug)]
pub struct LoginGate {
    pub fails: u32,
    /// Start of the window, in unix milliseconds.
    pub window_start_ms: i64,
}

impl View for LoginGate {
    type V = LoginGate;

    open spec fn view(&self) -> LoginGate {
        *self
    }
}

/// What `gate` becomes when a login fails at `now_ms`.
pub open spec fn failed_gate(gate: Option<LoginGate>, now_ms: i64) -> LoginGate {
    match gate {
        Some(g) => if window_fresh(g.window_start_ms, now_ms) {
            LoginGate { fails: (g.fails + 1) as u32, window_start_ms: g.window_start_ms }
        } else {
            LoginGate { fails: 1, window_start_ms: now_ms }
        },
        None => LoginGate { fails: 1, window_start_ms: now_ms },
    }
}

/// Whether a client with `gate` is refused at `now_ms`: its failures used up
/// in an open window.
pub open spec fn gate_closed(gate: Option<LoginGate>, now_ms: i64) -> bool {
    gate matches Some(g) && window_fresh(g.window_start_ms, now_ms) && g.fails >= LOGIN_MAX_FAILS
}

/// Whether a window that started at `start_ms` is still open at `now_ms`.
pub open spec fn window_fresh(start_ms: i64, now_ms: i64) -> bool {
    now_ms - start_ms < LOGIN_WINDOW_SECS * 1000
}

fn fresh(start_ms: i64, now_ms: i64) -> (b: bool)
    ensures
        b == window_fresh(start_ms, now_ms),
{
    (now_ms as i128) - (start_ms as i128) < 60_000
}

/// Refuses (429) a login while the client has used up its failures in an open window.
pub fn check_login_gate(gate: Option<LoginGate>, now_ms: i64) -> (r: Result<(), ApiError>)
    ensures
        r is Err == (gate matches Some(g) && window_fresh(g.window_start_ms, now_ms) && g.fails >= LOGIN_MAX_FAILS),
        r matches Err(e) ==> e.status == TOO_MANY_REQUESTS,
{
    match gate {
        Some(g) => if fresh(g.window_start_ms, now_ms) && g.fails >= LOGIN_MAX_FAILS {
            Err(
                ApiError {
                    status: TOO_MANY_REQUESTS,
                    message: "too many failed login attempts; try again shortly".to_string(),
                },
            )
        } else {
            Ok(())
        },
        None => Ok(()),
    }
}

/// Counts one more failed login against a client.
/// With no counter yet, or once its window has closed, counting begins again at `now_ms`.
pub fn record_login_fail(gate: Option<LoginGate>, now_ms: i64) -> (r: LoginGate)
    requires
        gate matches Some(g) ==> (window_fresh(g.window_start_ms, now_ms) ==> g.fails < u32::MAX),
    ensures
        match gate {
            Some(g) => if window_fresh(g.window_start_ms, now_ms) {
                r.fails == g.fails + 1 && r.window_start_ms == g.window_start_ms
            } else {
                r.fails == 1 && r.window_start_ms == now_ms
            },
            None => r.fails == 1 && r.window_start_ms == now_ms,
        },
        r == failed_gate(gate, now_ms),
{
    let mut g = match gate {
        Some(g) => g,
        None => LoginGate { fails: 0, window_start_ms: now_ms },
    };
    if !fresh(g.window_start_ms, now_ms) {
        g.fails = 0;
        g.window_start_ms = now_ms;
    }
    g.fails = g.fails + 1;
    g
}

/// The tenant domain a login names: trimmed, and none when blank.
pub fn login_domain(domain: Option<&str>) -> (r: Option<String>)
    ensures
        match domain {
            Some(d) => if trim(d@).len() > 0 {
                r matches Some(x) && x@ == trim(d@)
            } else {
                r is None
            },
            None => r is None,
        },
{
    match domain {
        Some(d) => {
            let t = trim_str(d);
            if t.as_str().is_empty() {
                None
            } else {
                Some(t)
            }
        },
        None => None,
    }
}

/// A superadmin login: the configured credentials, exactly, give the
/// superadmin principal; anything else is 401.
pub fn superadmin_login(
    username: &str,
    password: &str,
    admin_username: &str,
    admin_password: &str,
) -> (r: Result<UserInfo, ApiError>)
    ensures
        match r {
            Ok(u) => username@ == admin_username@ && password@ == admin_password@ && u.username@
                == admin_username@ && u.role@ == "superadmin"@ && u.tenant_id is None && u.permissions@.len() == 0,
            Err(e) => !(username@ == admin_username@ && password@ == admin_password@) && e.status == UNAUTHORIZED
                && e.message@ == "invalid credentials"@,
        },
{
    if !str_eq(username, admin_username) || !str_eq(password, admin_password) {
        return Err(ApiError { status: UNAUTHORIZED, message: to_owned("invalid credentials") });
    }
    Ok(
        UserInfo {
            username: to_owned(admin_username),
            role: to_owned(roles::SUPERADMIN),
            tenant_id: None,
            permissions: Vec::new(),
        },
    )
}

/// The bearer token of an `Authorization` header value.
pub fn bearer_token(header: Option<&str>) -> (r: Option<String>)
    ensures
        match header {
            Some(h) => if h@.len() >= 7 && h@.take(7) == "Bearer "@ {
                r matches Some(t) && t@ == h@.skip(7)
            } else {
                r is None
            },
            None => r is None,
        },
{
    match header {
        Some(h) => {
            let v = chars_of(h);
            proof {
                reveal_strlit("Bearer ");
            }
            if v.len() >= 7 && v[0] == 'B' && v[1] == 'e' && v[2] == 'a' && v[3] == 'r' && v[4] == 'e' && v[5]
                == 'r' && v[6] == ' ' {
                assert(h@.take(7) =~= "Bearer "@);
                let t = crate::text::string_of(v.as_slice(), 7, v.len());
                assert(t@ =~= h@.skip(7));
                Some(t)
            } else {
                proof {
                    if h@.len() >= 7 && h@.take(7) == "Bearer "@ {
                        assert(h@.take(7)[0] == 'B');
                        assert(h@.take(7)[6] == ' ');
                        assert(v@[1] == h@.take(7)[1]);
                        assert(v@[2] == h@.take(7)[2]);
                        assert(v@[3] == h@.take(7)[3]);
                        assert(v@[4] == h@.take(7)[4]);
                        assert(v@[5] == h@.take(7)[5]);
                    }
                }
                None
            }
        },
        None => None,
    }
}

/// Whether a session that expires at `expires_ms` is still valid at `now_ms`.
pub fn session_live(expires_ms: i64, now_ms: i64) -> (b: bool)
    ensures
        b == (expires_ms >= now_ms),
{
    expires_ms >= now_ms
}

/// When a session opened at `now_ms` expires.
pub fn session_expiry(now_ms: i64) -> (r: i64)
    requires
        now_ms <= i64::MAX - 43_200_000,
    ensures
        r == now_ms + SESSION_TTL_HOURS * 3_600_000,
{
    now_ms + 43_200_000
}

/// One resource's use against its cap (none: unlimited).
#[derive(Clone, Copy, Debug)]
pub struct QuotaUsage {
    pub used: u64,
    pub max: Option<u32>,
}

/// Percent of a capped resource in use (0 for a zero cap), truncated to 32 bits.
pub open spec fn usage_percent(u: QuotaUsage) -> Option<u32> {
    match u.max {
        Some(m) => Some(if m == 0 { 0 } else { ((u.used * 100) / (m as int)) as u32 }),
        None => None,
    }
}

/// The larger of two optional percentages.
pub open spec fn max_opt(a: Option<u32>, b: Option<u32>) -> Option<u32> {
    match (a, b) {
        (Some(x), Some(y)) => Some(if x >= y { x } else { y }),
        (Some(x), None) => Some(x),
        (None, y) => y,
    }
}

/// A tenant's usage of its three capped resources.
#[derive(Clone, Debug)]
pub struct TenantQuota {
    pub id: i64,
    pub name: String,
    pub status: String,
    pub trunks: QuotaUsage,
    pub dids: QuotaUsage,
    /// Live reserved call slots against the concurrency cap.
    pub concurrent: QuotaUsage,
}

fn percent(u: &QuotaUsage) -> (r: Option<u32>)
    requires
        u.used <= u64::MAX / 100,
    ensures
        r == usage_percent(*u),
{
    match u.max {
        Some(m) => Some(if m == 0 { 0 } else { ((u.used * 100) / (m as u64)) as u32 }),
        None => None,
    }
}

/// The highest percentage in use across a tenant's capped resources (0 when
/// none is capped).
pub open spec fn saturation_of(q: TenantQuota) -> u32 {
    match max_opt(max_opt(usage_percent(q.trunks), usage_percent(q.dids)), usage_percent(q.concurrent)) {
        Some(x) => x,
        None => 0,
    }
}

/// Whether the counts of a quota row are small enough to take percentages of.
pub open spec fn quota_countable(q: TenantQuota) -> bool {
    q.trunks.used <= u64::MAX / 100 && q.dids.used <= u64::MAX / 100 && q.concurrent.used <= u64::MAX / 100
}

/// The ordering rank of a quota row: its saturation.
pub open spec fn saturation_rank() -> spec_fn(TenantQuota) -> int {
    |q: TenantQuota| saturation_of(q) as int
}

impl TenantQuota {
    /// The highest percentage in use across the capped resources (0 when none
    /// is capped): how close the tenant is to a limit.
    pub fn saturation(&self) -> (r: u32)
        requires
            quota_countable(*self),
        ensures
            r == saturation_of(*self),
    {
        let a = percent(&self.trunks);
        let b = percent(&self.dids);
        let c = percent(&self.concurrent);
        let ab = match (a, b) {
            (Some(x), Some(y)) => Some(if x >= y { x } else { y }),
            (Some(x), None) => Some(x),
            (None, y) => y,
        };
        let abc = match (ab, c) {
            (Some(x), Some(y)) => Some(if x >= y { x } else { y }),
            (Some(x), None) => Some(x),
            (None, y) => y,
        };
        match abc {
            Some(x) => x,
            None => 0,
        }
    }
}

/// The page size of a call-record listing: 50 when unset, kept within 1..=500.
pub fn cdr_page_limit(limit: Option<u64>) -> (r: u64)
    ensures
        r == (match limit {
            Some(l) => if l < 1 {
                1
            } else if l > 500 {
                500
            } else {
                l
            },
            None => 50,
        }),
{
    let l = match limit {
        Some(l) => l,
        None => 50,
    };
    if l < 1 {
        1
    } else if l > 500 {
        500
    } else {
        l
    }
}

/// The tenant scope of an audit listing: whatever the superadmin asks for,
/// anyone else their own tenant.
pub fn audit_scope(u: &UserInfo, q: Option<i64>) -> (r: Option<i64>)
    ensures
        r == (if superadmin(*u) { q } else { u.tenant_id }),
{
    if is_superadmin(u) {
        q
    } else {
        u.tenant_id
    }
}

/// Succeeds for the superadmin or a principal of tenant `tenant_id`; otherwise 403.
pub fn require_tenant_access(u: &UserInfo, tenant_id: i64) -> (r: Result<(), ApiError>)
    ensures
        r is Ok == (superadmin(*u) || u.tenant_id == Some(tenant_id)),
        r matches Err(e) ==> e.status == FORBIDDEN,
{
    if is_superadmin(u) {
        return Ok(());
    }
    match u.tenant_id {
        Some(t) => if t == tenant_id {
            Ok(())
        } else {
            Err(forbidden())
        },
        None => Err(forbidden()),
    }
}

/// Refuses (403) a non-superadmin asking for a new account with the stored
/// admin role: only the superadmin mints tenant admins.
pub fn require_role_grant(u: &UserInfo, role: Option<&str>) -> (r: Result<(), ApiError>)
    ensures
        r is Err == ((match role {
            Some(x) => x@ == "admin"@,
            None => false,
        }) && !superadmin(*u)),
        r matches Err(e) ==> e.status == FORBIDDEN,
{
    let wants_admin = match role {
        Some(x) => str_eq(x, crate::auth::permissions::db_role::ADMIN),
        None => false,
    };
    if wants_admin && !is_superadmin(u) {
        Err(forbidden())
    } else {
        Ok(())
    }
}

/// The first tenant-admin account asked for with a new tenant: given when the
/// trimmed user name is not blank, and then refused (400) when the password
/// (none counting as empty) is shorter than 6 bytes.
pub fn initial_admin_credentials(username: Option<&str>, password: Option<&str>) -> (r: Result<
    Option<(String, String)>,
    ApiError,
>)
    ensures
        match username {
            Some(u) => if trim(u@).len() > 0 {
                let p = match password {
                    Some(p) => p@,
                    None => Seq::empty(),
                };
                match r {
                    Ok(Some(c)) => c.0@ == trim(u@) && c.1@ == p && crate::tenant_users::byte_len(p) >= 6,
                    Ok(None) => false,
                    Err(e) => crate::tenant_users::byte_len(p) < 6 && e.status == BAD_REQUEST,
                }
            } else {
                r matches Ok(None)
            },
            None => r matches Ok(None),
        },
{
    match username {
        Some(u) => {
            let t = trim_str(u);
            if t.as_str().is_empty() {
                return Ok(None);
            }
            let p = match password {
                Some(p) => p,
                None => "",
            };
            proof {
                reveal_strlit("");
                assert(vstd::utf8::encode_utf8(Seq::<char>::empty()) =~= Seq::<u8>::empty());
            }
            if p.len() < 6 {
                return Err(
                    ApiError { status: BAD_REQUEST, message: to_owned("admin password must be at least 6 characters") },
                );
            }
            Ok(Some((t, to_owned(p))))
        },
        None => Ok(None),
    }
}

/// The quota rows most loaded first: by saturation, highest first, keeping
/// the given order among rows of equal saturation.
pub fn order_by_saturation(rows: Vec<TenantQuota>) -> (r: Vec<TenantQuota>)
    requires
        forall|i: int| 0 <= i < rows@.len() ==> quota_countable(#[trigger] rows@[i]),
    ensures
        sorted_by_rank(r@, saturation_rank()),
        forall|k: int| #[trigger] keep(r@, with_rank(saturation_rank(), k)) == keep(rows@, with_rank(saturation_rank(), k)),
{
    let ghost f = saturation_rank();
    let ghost all = rows@;
    let mut rest = rows;
    let mut out: Vec<TenantQuota> = Vec::new();
    let mut sats: Vec<u32> = Vec::new();
    let mut j: usize = 0;
    let n = rest.len();
    assert(all.take(0) =~= Seq::<TenantQuota>::empty());
    while j < n
        invariant
            j <= n == all.len(),
            f == saturation_rank(),
            rest@ == all.skip(j as int),
            forall|i: int| 0 <= i < all.len() ==> quota_countable(#[trigger] all[i]),
            out@.len() == sats@.len(),
            forall|x: int| 0 <= x < sats@.len() ==> sats@[x] as int == f(#[trigger] out@[x]),
            sorted_by_rank(out@, f),
            forall|k: int| #[trigger] keep(out@, with_rank(f, k)) == keep(all.take(j as int), with_rank(f, k)),
        decreases n - j,
    {
        let ghost prev = all.take(j as int);
        proof {
            assert(all.take(j + 1).drop_last() =~= prev);
            assert(all.take(j + 1).last() == all[j as int]);
            assert(rest@[0] == all[j as int]);
        }
        let q = rest.remove(0);
        proof {
            assert(rest@ =~= all.skip(j + 1));
        }
        let s = q.saturation();
        let mut p: usize = 0;
        while p < sats.len() && sats[p] >= s
            invariant
                p <= sats@.len(),
                out@.len() == sats@.len(),
                forall|x: int| 0 <= x < sats@.len() ==> sats@[x] as int == f(#[trigger] out@[x]),
                forall|x: int| 0 <= x < p ==> sats@[x] >= s,
            decreases sats@.len() - p,
        {
            p = p + 1;
        }
        proof {
            assert(f(q) == s as int);
            assert forall|x: int| 0 <= x < p implies f(#[trigger] out@[x]) >= f(q) by {}
            if p < out@.len() {
                assert(f(out@[p as int]) < f(q));
            }
            lemma_insert_by_rank(out@, p as int, q, f);
            assert forall|k: int| #[trigger] keep(all.take(j + 1), with_rank(f, k)) == if k == f(q) {
                keep(prev, with_rank(f, k)).push(q)
            } else {
                keep(prev, with_rank(f, k))
            } by {
                lemma_keep_append(prev, seq![q], with_rank(f, k));
                lemma_keep_single(q, with_rank(f, k));
                assert(all.take(j + 1) =~= prev + seq![q]);
                assert(keep(prev, with_rank(f, k)) + Seq::<TenantQuota>::empty() =~= keep(prev, with_rank(f, k)));
                assert(keep(prev, with_rank(f, k)) + seq![q] =~= keep(prev, with_rank(f, k)).push(q));
            }
        }
        let ghost out0 = out@;
        let ghost sats0 = sats@;
        out.insert(p, q);
        sats.insert(p, s);
        proof {
            assert forall|x: int| 0 <= x < sats@.len() implies sats@[x] as int == f(#[trigger] out@[x]) by {
                if x < p {
                    assert(out@[x] == out0[x] && sats@[x] == sats0[x]);
                } else if x > p {
                    assert(out@[x] == out0[x - 1] && sats@[x] == sats0[x - 1]);
                }
            }
        }
        j = j + 1;
    }
    assert(all.take(j as int) =~= all);
    out
}

} // verus!
