//! Admin API sessions: the bearer tokens handed out at sign-in, what each one
//! stands for until it expires, and how a request is let through.

use crate::access::{
    bearer_token, check_login_gate, failed_gate, gate_closed, login_domain, record_login_fail, same_user,
    session_expiry, superadmin_login, window_fresh, ApiError, LoginGate, LOGIN_MAX_FAILS, SESSION_TTL_HOURS,
    TOO_MANY_REQUESTS, UNAUTHORIZED, UserInfo,
};
use crate::tenant_users::{authenticate_user, tenant_login_user, TenantUserRecord};
use crate::auth::password::bcrypt_check;
use crate::text::{push_char, str_eq, to_owned, trim};
use dashmap::DashMap;
use vstd::prelude::*;

verus! {

#[verifier::external_type_specification]
#[verifier::external_body]
#[verifier::reject_recursive_types(K)]
#[verifier::reject_recursive_types(V)]
#[verifier::reject_recursive_types(S)]
pub struct ExDashMap<K, V, S>(DashMap<K, V, S>);

/// A signed-in principal and when (milliseconds since the epoch) its session expires.
#[derive(Clone, Debug)]
pub struct Session {
    pub user: UserInfo,
    pub expires_ms: i64,
}

impl View for Session {
    type V = Session;

    open spec fn view(&self) -> Session {
        *self
    }
}

/// A table of sessions, by token.
pub type SessionTable = DashMap<String, Session>;

/// A table of failed-login counters, by client key.
pub type GateTable = DashMap<String, LoginGate>;

/// What a session table holds: the session of each token.
pub uninterp spec fn session_entries(table: DashMap<String, Session>) -> Map<Seq<char>, Session>;

/// What a counter table holds: the failed-login counter of each client key.
pub uninterp spec fn gate_entries(table: DashMap<String, LoginGate>) -> Map<Seq<char>, LoginGate>;

/// A session table with no entry.
pub open spec fn no_sessions() -> Map<Seq<char>, Session> {
    Map::empty()
}

/// A counter table with no entry.
pub open spec fn no_gates() -> Map<Seq<char>, LoginGate> {
    Map::empty()
}

/// `DashMap::new` for sessions: an empty table.
#[verifier::external_body]
fn new_session_table() -> (r: SessionTable)
    ensures
        session_entries(r) == no_sessions(),
{
    DashMap::new()
}

/// `DashMap::get` for sessions: a copy of the session stored under `token`,
/// if there is one.
#[verifier::external_body]
fn session_table_get(table: &DashMap<String, Session>, token: &str) -> (r: Option<Session>)
    ensures
        r == session_entries(*table).get(token@),
{
    table.get(token).map(|e| e.value().clone())
}

/// `DashMap::insert` for sessions: `token` now holds `session`, replacing
/// what it held.
#[verifier::external_body]
fn session_table_insert(table: &mut DashMap<String, Session>, token: String, session: Session)
    ensures
        session_entries(*final(table)) == session_entries(*old(table)).insert(token@, session),
{
    table.insert(token, session);
}

/// `DashMap::remove` for sessions: `token` holds nothing afterwards.
#[verifier::external_body]
fn session_table_remove(table: &mut DashMap<String, Session>, token: &str)
    ensures
        session_entries(*final(table)) == session_entries(*old(table)).remove(token@),
{
    table.remove(token);
}

/// `DashMap::new` for failed-login counters: an empty table.
#[verifier::external_body]
fn new_gate_table() -> (r: GateTable)
    ensures
        gate_entries(r) == no_gates(),
{
    DashMap::new()
}

/// `DashMap::get` for failed-login counters: the counter stored under `key`, if any.
#[verifier::external_body]
fn gate_table_get(table: &DashMap<String, LoginGate>, key: &str) -> (r: Option<LoginGate>)
    ensures
        r == gate_entries(*table).get(key@),
{
    table.get(key).map(|e| *e.value())
}

/// `DashMap::insert` for failed-login counters: `key` now holds `gate`.
#[verifier::external_body]
fn gate_table_insert(table: &mut DashMap<String, LoginGate>, key: String, gate: LoginGate)
    ensures
        gate_entries(*final(table)) == gate_entries(*old(table)).insert(key@, gate),
{
    table.insert(key, gate);
}

/// `DashMap::remove` for failed-login counters: `key` holds nothing afterwards.
#[verifier::external_body]
fn gate_table_remove(table: &mut DashMap<String, LoginGate>, key: &str)
    ensures
        gate_entries(*final(table)) == gate_entries(*old(table)).remove(key@),
{
    table.remove(key);
}

/// The user a session table lets in with `token` at `now_ms`: the session's
/// user while it has not expired.
pub open spec fn session_for(sessions: Map<Seq<char>, Session>, token: Seq<char>, now_ms: i64) -> Option<UserInfo> {
    match sessions.get(token) {
        Some(s) => if s.expires_ms >= now_ms {
            Some(s.user)
        } else {
            None
        },
        None => None,
    }
}

/// Whether `token` lets `u` in at `now_ms`.
pub open spec fn lets_in(sessions: Map<Seq<char>, Session>, token: Seq<char>, now_ms: i64, u: UserInfo) -> bool {
    session_for(sessions, token, now_ms) matches Some(v) && same_user(u, v)
}

/// The open sessions, by token.
pub struct SessionStore {
    sessions: DashMap<String, Session>,
}

impl View for SessionStore {
    type V = Map<Seq<char>, Session>;

    closed spec fn view(&self) -> Map<Seq<char>, Session> {
        session_entries(self.sessions)
    }
}

impl SessionStore {
    /// No session open.
    pub fn new() -> (r: Self)
        ensures
            r@ == no_sessions(),
    {
        SessionStore { sessions: new_session_table() }
    }

    /// Opens a session: `token` stands for `user` until `expires_ms`.
    pub fn open(&mut self, token: String, user: UserInfo, expires_ms: i64)
        ensures
            final(self)@ == old(self)@.insert(token@, Session { user, expires_ms }),
    {
        session_table_insert(&mut self.sessions, token, Session { user, expires_ms });
    }

    /// Ends the session of `token`, if any (signing out).
    pub fn close(&mut self, token: &str)
        ensures
            final(self)@ == old(self)@.remove(token@),
    {
        session_table_remove(&mut self.sessions, token);
    }

    /// The user `token` stands for at `now_ms`. An unknown token is refused
    /// (401 `invalid token`); an expired session is refused (401 `session
    /// expired`) and removed; a live session lets its user in and changes
    /// nothing.
    pub fn authenticate(&mut self, token: &str, now_ms: i64) -> (r: Result<UserInfo, ApiError>)
        ensures
            auth_outcome(old(self)@, token@, now_ms, r, final(self)@),
    {
        match session_table_get(&self.sessions, token) {
            None => Err(ApiError { status: UNAUTHORIZED, message: to_owned("invalid token") }),
            Some(s) => {
                if s.expires_ms < now_ms {
                    session_table_remove(&mut self.sessions, token);
                    Err(ApiError { status: UNAUTHORIZED, message: to_owned("session expired") })
                } else {
                    let u = s.user.duplicate();
                    Ok(u)
                }
            },
        }
    }

    /// Lets a request to `path` through: sign-in needs no session; anything
    /// else needs the bearer token of a session (401 `missing bearer token`
    /// without one), and is let through, with the session's user, exactly
    /// when that session is live; otherwise as `authenticate` answers.
    pub fn authorize(&mut self, path: &str, authorization: Option<&str>, now_ms: i64) -> (r: Result<
        Option<UserInfo>,
        ApiError,
    >)
        ensures
            path@ == "/auth/login"@ ==> (r matches Ok(None) && final(self)@ == old(self)@),
            path@ != "/auth/login"@ ==> match bearer_spec(authorization) {
                None => (r matches Err(e) && e.status == UNAUTHORIZED && e.message@ == "missing bearer token"@)
                    && final(self)@ == old(self)@,
                Some(t) => authorize_outcome(old(self)@, t, now_ms, r, final(self)@),
            },
            path@ != "/auth/login"@ ==> (r is Ok <==> exists|t: Seq<char>|
                bearer_of(authorization, t) && #[trigger] session_for(old(self)@, t, now_ms) is Some),
    {
        if str_eq(path, "/auth/login") {
            return Ok(None);
        }
        let token = match bearer_token(authorization) {
            Some(t) => t,
            None => {
                return Err(ApiError { status: UNAUTHORIZED, message: to_owned("missing bearer token") });
            },
        };
        assert(bearer_of(authorization, token@));
        match self.authenticate(token.as_str(), now_ms) {
            Ok(u) => {
                assert(session_for(old(self)@, token@, now_ms) is Some);
                Ok(Some(u))
            },
            Err(e) => {
                assert forall|t: Seq<char>| bearer_of(authorization, t) implies !(#[trigger] session_for(old(self)@, t, now_ms) is Some) by {
                    assert(t == token@);
                }
                Err(e)
            },
        }
    }
}

/// What `authenticate` answers for `token` at `now_ms` on the table
/// `before`, and the table `after` it leaves.
pub open spec fn auth_outcome(
    before: Map<Seq<char>, Session>,
    token: Seq<char>,
    now_ms: i64,
    r: Result<UserInfo, ApiError>,
    after: Map<Seq<char>, Session>,
) -> bool {
    match before.get(token) {
        None => (r matches Err(e) && e.status == UNAUTHORIZED && e.message@ == "invalid token"@) && after == before,
        Some(s) => if s.expires_ms >= now_ms {
            (r matches Ok(u) && same_user(u, s.user)) && after == before
        } else {
            (r matches Err(e) && e.status == UNAUTHORIZED && e.message@ == "session expired"@) && after
                == before.remove(token)
        },
    }
}

/// What `authorize` answers for the bearer token `token` at `now_ms` on the
/// table `before`, and the table `after` it leaves: as `authenticate`, with
/// the user of a live session given as `Some`.
pub open spec fn authorize_outcome(
    before: Map<Seq<char>, Session>,
    token: Seq<char>,
    now_ms: i64,
    r: Result<Option<UserInfo>, ApiError>,
    after: Map<Seq<char>, Session>,
) -> bool {
    match before.get(token) {
        None => (r matches Err(e) && e.status == UNAUTHORIZED && e.message@ == "invalid token"@) && after == before,
        Some(s) => if s.expires_ms >= now_ms {
            (r matches Ok(Some(u)) && same_user(u, s.user)) && after == before
        } else {
            (r matches Err(e) && e.status == UNAUTHORIZED && e.message@ == "session expired"@) && after
                == before.remove(token)
        },
    }
}

/// The bearer token of an `Authorization` header value, if it has one.
pub open spec fn bearer_spec(header: Option<&str>) -> Option<Seq<char>> {
    match header {
        Some(h) => if h@.len() >= 7 && h@.take(7) == "Bearer "@ {
            Some(h@.skip(7))
        } else {
            None
        },
        None => None,
    }
}

/// Whether `t` is the bearer token of an `Authorization` header value.
pub open spec fn bearer_of(header: Option<&str>, t: Seq<char>) -> bool {
    match header {
        Some(h) => h@.len() >= 7 && h@.take(7) == "Bearer "@ && t == h@.skip(7),
        None => false,
    }
}

/// The session table a sign-in makes, read back: the new token lets its user
/// in until the session expires, and every other token keeps what it had.
pub proof fn law_open_then_access(
    sessions: Map<Seq<char>, Session>,
    token: Seq<char>,
    user: UserInfo,
    expires_ms: i64,
    now_ms: i64,
    other: Seq<char>,
)
    ensures
        now_ms <= expires_ms ==> session_for(sessions.insert(token, Session { user, expires_ms }), token, now_ms)
            == Some(user),
        now_ms > expires_ms ==> session_for(sessions.insert(token, Session { user, expires_ms }), token, now_ms)
            is None,
        other != token ==> session_for(sessions.insert(token, Session { user, expires_ms }), other, now_ms)
            == session_for(sessions, other, now_ms),
{
}

/// Signing out ends the session: the token lets no one in afterwards, and
/// every other token keeps what it had.
pub proof fn law_close_then_refused(
    sessions: Map<Seq<char>, Session>,
    token: Seq<char>,
    now_ms: i64,
    other: Seq<char>,
)
    ensures
        session_for(sessions.remove(token), token, now_ms) is None,
        other != token ==> session_for(sessions.remove(token), other, now_ms) == session_for(
            sessions,
            other,
            now_ms,
        ),
{
}

/// The four bits of `bits` at hex position `i` (0 is the most significant).
pub open spec fn nibble(bits: u128, i: int) -> u128 {
    (bits >> (((31 - i) * 4) as u32)) & 15u128
}

/// The lower-case hex digit of a nibble.
pub open spec fn hex_char(n: u128) -> char {
    if n < 10 {
        (('0' as u32) + n) as char
    } else {
        (('a' as u32) + n - 10) as char
    }
}

/// The 32 lower-case hex digits of `bits`, most significant first.
pub open spec fn hex32(bits: u128) -> Seq<char> {
    Seq::new(32, |i: int| hex_char(nibble(bits, i)))
}

/// The hyphenated form of a UUID (8-4-4-4-12 hex digits), as `Uuid`'s
/// `Display` writes it.
pub open spec fn uuid_text(bits: u128) -> Seq<char> {
    let h = hex32(bits);
    h.subrange(0, 8) + seq!['-'] + h.subrange(8, 12) + seq!['-'] + h.subrange(12, 16) + seq!['-']
        + h.subrange(16, 20) + seq!['-'] + h.subrange(20, 32)
}

fn push_hex(out: &mut String, bits: u128, lo: usize, hi: usize)
    requires
        lo <= hi <= 32,
    ensures
        final(out)@ == old(out)@ + hex32(bits).subrange(lo as int, hi as int),
{
    let mut i = lo;
    while i < hi
        invariant
            lo <= i <= hi <= 32,
            out@ == old(out)@ + hex32(bits).subrange(lo as int, i as int),
        decreases hi - i,
    {
        let shift: u32 = ((31 - i) * 4) as u32;
        let n: u128 = (bits >> shift) & 15u128;
        assert(n < 16) by (bit_vector)
            requires
                n == (bits >> shift) & 15u128,
        ;
        let c = if n < 10 {
            (('0' as u8) + (n as u8)) as char
        } else {
            (('a' as u8) + (n as u8) - 10) as char
        };
        assert(c == hex_char(nibble(bits, i as int)));
        push_char(out, c);
        i = i + 1;
        assert(out@ =~= old(out)@ + hex32(bits).subrange(lo as int, i as int));
    }
}

/// The hyphenated UUID text of 128 bits.
pub fn uuid_string(bits: u128) -> (r: String)
    ensures
        r@ == uuid_text(bits),
        r@.len() == 36,
{
    let mut s = String::new();
    push_hex(&mut s, bits, 0, 8);
    push_char(&mut s, '-');
    push_hex(&mut s, bits, 8, 12);
    push_char(&mut s, '-');
    push_hex(&mut s, bits, 12, 16);
    push_char(&mut s, '-');
    push_hex(&mut s, bits, 16, 20);
    push_char(&mut s, '-');
    push_hex(&mut s, bits, 20, 32);
    assert(s@ =~= uuid_text(bits));
    s
}

/// A fresh session token: a random v4 UUID in hyphenated form.
pub fn new_session_token() -> (r: String)
    ensures
        r@.len() == 36,
        exists|bits: u128| r@ == uuid_text(bits),
{
    let bits = crate::tenants::random_u128();
    let r = uuid_string(bits);
    assert(r@ == uuid_text(bits));
    r
}

/// Failed-login counts, by client key.
pub struct LoginThrottle {
    gates: DashMap<String, LoginGate>,
}

impl View for LoginThrottle {
    type V = Map<Seq<char>, LoginGate>;

    closed spec fn view(&self) -> Map<Seq<char>, LoginGate> {
        gate_entries(self.gates)
    }
}

impl LoginThrottle {
    /// No failures recorded.
    pub fn new() -> (r: Self)
        ensures
            r@ == no_gates(),
    {
        LoginThrottle { gates: new_gate_table() }
    }

    /// Refuses (429) a client that used up its failures in an open window.
    pub fn check(&self, key: &str, now_ms: i64) -> (r: Result<(), ApiError>)
        ensures
            r is Err == gate_closed(self@.get(key@), now_ms),
            r matches Err(e) ==> e.status == TOO_MANY_REQUESTS,
    {
        check_login_gate(gate_table_get(&self.gates, key), now_ms)
    }

    /// Settles a login attempt that passed `check`: a success clears the
    /// client's count; a failure is counted and its error returned.
    pub fn settle(&mut self, key: &str, outcome: Result<UserInfo, ApiError>, now_ms: i64) -> (r: Result<
        UserInfo,
        ApiError,
    >)
        requires
            !gate_closed(old(self)@.get(key@), now_ms),
        ensures
            match outcome {
                Ok(_) => final(self)@ == old(self)@.remove(key@),
                Err(_) => final(self)@ == old(self)@.insert(key@, failed_gate(old(self)@.get(key@), now_ms)),
            },
            r == outcome,
    {
        match outcome {
            Ok(u) => {
                gate_table_remove(&mut self.gates, key);
                Ok(u)
            },
            Err(e) => {
                let g = gate_table_get(&self.gates, key);
                let ng = record_login_fail(g, now_ms);
                gate_table_insert(&mut self.gates, to_owned(key), ng);
                Err(e)
            },
        }
    }
}

/// The tenant domain a sign-in names: trimmed, none when blank.
pub open spec fn named_domain(domain: Option<&str>) -> Option<Seq<char>> {
    match domain {
        Some(d) => if trim(d@).len() > 0 {
            Some(trim(d@))
        } else {
            None
        },
        None => None,
    }
}

/// Why a sign-in is refused (its message), or none when it goes through.
/// Without a domain it is the superadmin's, and takes the configured
/// credentials exactly; with one, the domain must name a tenant (`tenant`)
/// and `account`, that tenant's account under the trimmed user name, must be
/// active and verify the password.
pub open spec fn sign_in_refusal(
    username: Seq<char>,
    password: Seq<char>,
    domain: Option<Seq<char>>,
    admin_username: Seq<char>,
    admin_password: Seq<char>,
    tenant: Option<i64>,
    account: Option<&TenantUserRecord>,
) -> Option<Seq<char>> {
    match domain {
        None => if username == admin_username && password == admin_password {
            None
        } else {
            Some("invalid credentials"@)
        },
        Some(_) => match tenant {
            None => Some("unknown domain"@),
            Some(_) => match account {
                Some(a) => if a.status@ == "active"@ && bcrypt_check(password, a.password_hash@) == Some(true) {
                    None
                } else {
                    Some("invalid credentials"@)
                },
                None => Some("invalid credentials"@),
            },
        },
    }
}

/// Whether `u` is the principal a sign-in that goes through stands for: the
/// superadmin without a domain; the account's user, with its session role,
/// tenant and permissions, with one.
pub open spec fn signed_in_as(
    u: UserInfo,
    domain: Option<Seq<char>>,
    admin_username: Seq<char>,
    account: Option<&TenantUserRecord>,
) -> bool {
    match domain {
        None => u.username@ == admin_username && u.role@ == "superadmin"@ && u.tenant_id is None
            && u.permissions@.len() == 0,
        Some(_) => account matches Some(a) && u.username == a.username && u.role@ == (if a.role@ == "admin"@ {
            "tenant_admin"@
        } else {
            "tenant_user"@
        }) && u.tenant_id == Some(a.tenant_id) && u.permissions@ == a.permissions@,
    }
}

/// The principal of a sign-in, or its 401 refusal (`invalid credentials`,
/// or `unknown domain` when the domain names no tenant). `tenant` is the
/// tenant the trimmed domain names, and `account` that tenant's account under
/// the trimmed user name, as the directory gave them.
pub fn sign_in_principal(
    username: &str,
    password: &str,
    domain: Option<&str>,
    admin_username: &str,
    admin_password: &str,
    tenant: Option<i64>,
    account: Option<&TenantUserRecord>,
) -> (r: Result<UserInfo, ApiError>)
    ensures
        match sign_in_refusal(username@, password@, named_domain(domain), admin_username@, admin_password@, tenant, account) {
            Some(msg) => r matches Err(e) && e.status == UNAUTHORIZED && e.message@ == msg,
            None => r matches Ok(u) && signed_in_as(u, named_domain(domain), admin_username@, account),
        },
{
    match login_domain(domain) {
        None => superadmin_login(username, password, admin_username, admin_password),
        Some(_) => match tenant {
            None => Err(ApiError { status: UNAUTHORIZED, message: to_owned("unknown domain") }),
            Some(_) => match authenticate_user(account, password) {
                Some(p) => Ok(tenant_login_user(p)),
                None => Err(ApiError { status: UNAUTHORIZED, message: to_owned("invalid credentials") }),
            },
        },
    }
}

impl SessionStore {
    /// Signs a client in. A client whose failures closed its window is
    /// refused (429) with nothing changed. Otherwise the sign-in is resolved
    /// as `sign_in_principal` does: a refusal counts against the client
    /// (`key`) and opens no session; a success clears the client's count and
    /// opens a session under a fresh random token for twelve hours, handing
    /// back the token and the principal.
    pub fn login(
        &mut self,
        throttle: &mut LoginThrottle,
        key: &str,
        username: &str,
        password: &str,
        domain: Option<&str>,
        admin_username: &str,
        admin_password: &str,
        tenant: Option<i64>,
        account: Option<&TenantUserRecord>,
        now_ms: i64,
    ) -> (r: Result<(String, UserInfo), ApiError>)
        requires
            now_ms <= i64::MAX - 43_200_000,
        ensures
            gate_closed(old(throttle)@.get(key@), now_ms) ==> (r matches Err(e) && e.status == TOO_MANY_REQUESTS)
                && final(throttle)@ == old(throttle)@ && final(self)@ == old(self)@,
            !gate_closed(old(throttle)@.get(key@), now_ms) ==> match sign_in_refusal(
                username@,
                password@,
                named_domain(domain),
                admin_username@,
                admin_password@,
                tenant,
                account,
            ) {
                Some(msg) => (r matches Err(e) && e.status == UNAUTHORIZED && e.message@ == msg)
                    && final(throttle)@ == old(throttle)@.insert(key@, failed_gate(old(throttle)@.get(key@), now_ms))
                    && final(self)@ == old(self)@,
                None => (r matches Ok((token, u)) && signed_in_as(u, named_domain(domain), admin_username@, account)
                    && token@.len() == 36 && (exists|bits: u128| token@ == uuid_text(bits))
                    && final(self)@ == old(self)@.insert(
                    token@,
                    Session {
                        user: final(self)@[token@].user,
                        expires_ms: (now_ms + SESSION_TTL_HOURS * 3_600_000) as i64,
                    },
                ) && same_user(final(self)@[token@].user, u)) && final(throttle)@ == old(throttle)@.remove(key@),
            },
    {
        match throttle.check(key, now_ms) {
            Err(e) => return Err(e),
            Ok(()) => {},
        }
        let outcome = sign_in_principal(username, password, domain, admin_username, admin_password, tenant, account);
        match throttle.settle(key, outcome, now_ms) {
            Err(e) => Err(e),
            Ok(u) => {
                let token = new_session_token();
                let returned = u.duplicate();
                let expires = session_expiry(now_ms);
                self.open(to_owned(token.as_str()), u, expires);
                Ok((token, returned))
            },
        }
    }
}

/// A client that fails to sign in `LOGIN_MAX_FAILS` times within a window is
/// refused until the window closes; a success clears its count.
pub proof fn law_throttle_after_max_fails(
    gates: Map<Seq<char>, LoginGate>,
    key: Seq<char>,
    g: LoginGate,
    now_ms: i64,
    later_ms: i64,
)
    requires
        gates.get(key) == Some(g),
        g.fails == LOGIN_MAX_FAILS - 1,
        window_fresh(g.window_start_ms, now_ms),
        window_fresh(g.window_start_ms, later_ms),
    ensures
        gate_closed(gates.insert(key, failed_gate(Some(g), now_ms)).get(key), later_ms),
        !gate_closed(gates.remove(key).get(key), later_ms),
{
}

} // verus!
