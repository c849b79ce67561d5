//! Tenant IAM accounts: what a valid account request is, how updates apply,
//! and who a sign-in resolves to. Passwords are stored bcrypt-hashed;
//! permissions are checked against the catalogue.

use crate::access::UserInfo;
use crate::auth::password::{bcrypt_check, hash_failure, hash_password, verify_password};
use crate::auth::permissions::{catalogue, db_role, first_unknown_permission, session_role_for};
use crate::text::{copy_strings, str_eq, to_owned, trim, trim_str};
use vstd::prelude::*;
use vstd::utf8::encode_utf8;

verus! {

/// The fewest bytes a password may have.
pub const MIN_PASSWORD_BYTES: usize = 6;

/// A tenant user row, with its permissions already read from storage.
#[derive(Clone, Debug)]
pub struct TenantUserRecord {
    pub id: i64,
    pub tenant_id: i64,
    pub username: String,
    pub display_name: Option<String>,
    pub password_hash: String,
    /// `admin` or `user`.
    pub role: String,
    pub permissions: Vec<String>,
    /// `active` or `suspended`.
    pub status: String,
    pub created_at: String,
    pub updated_at: String,
    pub last_login_at: Option<String>,
}

/// A new account.
#[derive(Clone, Debug)]
pub struct CreateTenantUserRequest {
    pub username: String,
    pub password: String,
    pub display_name: Option<String>,
    /// `admin` or `user` (default `user`).
    pub role: Option<String>,
    /// Granted permissions (meaningful for `user`).
    pub permissions: Vec<String>,
}

/// An account update; absent fields are kept.
#[derive(Clone, Debug)]
pub struct UpdateTenantUserRequest {
    pub display_name: Option<String>,
    /// New password; absent or empty keeps the current one.
    pub password: Option<String>,
    pub role: Option<String>,
    pub permissions: Option<Vec<String>>,
    /// `active` or `suspended`.
    pub status: Option<String>,
}

/// An account as returned by the API.
#[derive(Clone, Debug)]
pub struct TenantUserResponse {
    pub id: i64,
    pub tenant_id: i64,
    pub username: String,
    pub display_name: Option<String>,
    pub role: String,
    pub permissions: Vec<String>,
    pub status: String,
    pub created_at: String,
    pub updated_at: String,
    pub last_login_at: Option<String>,
}

impl TenantUserResponse {
    /// The response for a stored account (everything but the password hash).
    pub fn from_record(m: TenantUserRecord) -> (r: Self)
        ensures
            r.id == m.id && r.tenant_id == m.tenant_id && r.username == m.username && r.display_name
                == m.display_name && r.role == m.role && r.permissions == m.permissions && r.status == m.status
                && r.created_at == m.created_at && r.updated_at == m.updated_at && r.last_login_at
                == m.last_login_at,
    {
        TenantUserResponse {
            id: m.id,
            tenant_id: m.tenant_id,
            username: m.username,
            display_name: m.display_name,
            role: m.role,
            permissions: m.permissions,
            status: m.status,
            created_at: m.created_at,
            updated_at: m.updated_at,
            last_login_at: m.last_login_at,
        }
    }
}

/// The principal a successful sign-in resolves to.
#[derive(Clone, Debug)]
pub struct AuthenticatedUser {
    pub tenant_id: i64,
    pub username: String,
    /// `tenant_admin` or `tenant_user`.
    pub session_role: String,
    pub permissions: Vec<String>,
}

/// The stored role for a requested role: `admin` or `user`, else an error.
pub fn validate_role(role: &str) -> (r: Result<&'static str, String>)
    ensures
        match r {
            Ok(x) => (role@ == "admin"@ || role@ == "user"@) && x@ == role@,
            Err(_) => role@ != "admin"@ && role@ != "user"@,
        },
{
    if str_eq(role, db_role::ADMIN) {
        Ok(db_role::ADMIN)
    } else if str_eq(role, db_role::USER) {
        Ok(db_role::USER)
    } else {
        let mut m = to_owned("unknown role '");
        m.append(role);
        m.append("' (expected admin|user)");
        Err(m)
    }
}

/// Every permission is in the catalogue.
pub open spec fn all_known(perms: Seq<String>) -> bool {
    forall|j: int| 0 <= j < perms.len() ==> catalogue().contains(#[trigger] perms[j]@)
}

/// Refuses a permission set holding anything outside the catalogue.
pub fn validate_permissions(perms: &[String]) -> (r: Result<(), String>)
    ensures
        r is Ok == all_known(perms@),
{
    match first_unknown_permission(perms) {
        Some(bad) => {
            let mut m = to_owned("unknown permission '");
            m.append(bad);
            m.append("'");
            Err(m)
        },
        None => Ok(()),
    }
}

/// The number of bytes of `s` in UTF-8, as `str::len` reports it.
pub open spec fn byte_len(s: Seq<char>) -> usize {
    encode_utf8(s).len() as usize
}

/// Whether an optional requested role is valid (`admin`, `user`, or unset).
pub open spec fn role_ok(role: Option<String>) -> bool {
    match role {
        Some(x) => x@ == "admin"@ || x@ == "user"@,
        None => true,
    }
}

/// The checks a new account passes: a non-blank username, a password of at
/// least six bytes, a valid role, known permissions, a username free in the tenant.
pub open spec fn new_user_ok(req: CreateTenantUserRequest, username_taken: bool) -> bool {
    &&& trim(req.username@).len() > 0
    &&& byte_len(req.password@) >= 6
    &&& role_ok(req.role)
    &&& all_known(req.permissions@)
    &&& !username_taken
}

/// Checks a new account, giving its trimmed username and stored role (`user`
/// by default); refused exactly when a check fails.
pub fn check_new_user(req: &CreateTenantUserRequest, username_taken: bool) -> (r: Result<(String, &'static str), String>)
    ensures
        r is Ok == new_user_ok(*req, username_taken),
        r matches Ok((u, role)) ==> u@ == trim(req.username@) && role@ == (match req.role {
            Some(x) => x@,
            None => "user"@,
        }),
{
    let username = trim_str(req.username.as_str());
    if username.as_str().is_empty() {
        return Err("username is required".to_string());
    }
    if req.password.as_str().len() < MIN_PASSWORD_BYTES {
        return Err("password must be at least 6 characters".to_string());
    }
    let role = match &req.role {
        Some(x) => validate_role(x.as_str()),
        None => validate_role(db_role::USER),
    };
    let role = match role {
        Ok(x) => x,
        Err(e) => return Err(e),
    };
    match validate_permissions(req.permissions.as_slice()) {
        Ok(()) => {},
        Err(e) => return Err(e),
    }
    if username_taken {
        let mut m = to_owned("username '");
        m.append(username.as_str());
        m.append("' already exists in this tenant");
        return Err(m);
    }
    Ok((username, role))
}

fn copy_opt(o: &Option<String>) -> (r: Option<String>)
    ensures
        r == *o,
{
    match o {
        Some(s) => Some(s.clone()),
        None => None,
    }
}

/// A new account ready to store: checked as above, then its password hashed.
/// When it is returned, every check passed and the password verifies against the hash.
/// When every check passes it is refused only if hashing fails (`hash failed: ` and bcrypt's message).
pub fn prepare_new_user(
    tenant_id: i64,
    req: &CreateTenantUserRequest,
    username_taken: bool,
    now: &str,
) -> (r: Result<TenantUserRecord, String>)
    ensures
        !new_user_ok(*req, username_taken) ==> r is Err,
        new_user_ok(*req, username_taken) ==> (r is Ok || (r matches Err(e) && hash_failure(e@))),
        r matches Ok(u) ==> {
            &&& new_user_ok(*req, username_taken)
            &&& u.tenant_id == tenant_id && u.username@ == trim(req.username@)
            &&& u.role@ == (match req.role {
                Some(x) => x@,
                None => "user"@,
            })
            &&& u.permissions@ == req.permissions@ && u.display_name == req.display_name
            &&& u.status@ == "active"@ && u.created_at@ == now@ && u.updated_at@ == now@
            &&& u.last_login_at is None
            &&& bcrypt_check(req.password@, u.password_hash@) == Some(true)
        },
{
    let (username, role) = match check_new_user(req, username_taken) {
        Ok(x) => x,
        Err(e) => return Err(e),
    };
    let hash = match hash_password(req.password.as_str()) {
        Ok(h) => h,
        Err(e) => return Err(e.message),
    };
    Ok(
        TenantUserRecord {
            id: 0,
            tenant_id,
            username,
            display_name: copy_opt(&req.display_name),
            password_hash: hash,
            role: to_owned(role),
            permissions: copy_strings(&req.permissions),
            status: "active".to_string(),
            created_at: to_owned(now),
            updated_at: to_owned(now),
            last_login_at: None,
        },
    )
}

/// Whether a requested account status is valid.
pub open spec fn user_status_ok(s: Seq<char>) -> bool {
    s == "active"@ || s == "suspended"@
}

/// The checks an account update passes: a new non-empty password of at least
/// six bytes, a valid role, known permissions, and a valid status.
pub open spec fn user_update_ok(req: UpdateTenantUserRequest) -> bool {
    &&& (req.password is Some && req.password->0@.len() > 0 ==> byte_len(req.password->0@) >= 6)
    &&& (req.role matches Some(x) ==> x@ == "admin"@ || x@ == "user"@)
    &&& (req.permissions matches Some(ps) ==> all_known(ps@))
    &&& (req.status matches Some(s) ==> user_status_ok(s@))
}

/// Whether an update gives a new (non-empty) password.
pub open spec fn sets_new_password(req: UpdateTenantUserRequest) -> bool {
    req.password matches Some(p) && p@.len() > 0
}

/// Applies an account update: each field given replaces the stored one (a
/// new password is stored hashed), `updated_at` becomes `now`. Refused when a
/// check fails; when every check passes it succeeds, unless a new password is
/// given and hashing it fails (`hash failed: ` and bcrypt's message).
pub fn apply_user_update(
    existing: TenantUserRecord,
    req: UpdateTenantUserRequest,
    now: &str,
) -> (r: Result<TenantUserRecord, String>)
    ensures
        !user_update_ok(req) ==> r is Err,
        user_update_ok(req) && !sets_new_password(req) ==> r is Ok,
        user_update_ok(req) && sets_new_password(req) ==> (r is Ok || (r matches Err(e) && hash_failure(e@))),
        r matches Ok(u) ==> {
            &&& user_update_ok(req)
            &&& u.id == existing.id && u.tenant_id == existing.tenant_id && u.username == existing.username
            &&& u.display_name == (if req.display_name is Some { req.display_name } else { existing.display_name })
            &&& (match req.password {
                Some(p) => if p@.len() > 0 {
                    bcrypt_check(p@, u.password_hash@) == Some(true)
                } else {
                    u.password_hash == existing.password_hash
                },
                None => u.password_hash == existing.password_hash,
            })
            &&& u.role@ == (match req.role {
                Some(x) => x@,
                None => existing.role@,
            })
            &&& u.permissions == (match req.permissions {
                Some(ps) => ps,
                None => existing.permissions,
            })
            &&& u.status == (match req.status {
                Some(s) => s,
                None => existing.status,
            })
            &&& u.updated_at@ == now@
            &&& u.created_at == existing.created_at && u.last_login_at == existing.last_login_at
        },
{
    let mut m = existing;
    match req.display_name {
        Some(dn) => {
            m.display_name = Some(dn);
        },
        None => {},
    }
    match req.password {
        Some(pw) => if !pw.as_str().is_empty() {
            if pw.as_str().len() < MIN_PASSWORD_BYTES {
                return Err("password must be at least 6 characters".to_string());
            }
            match hash_password(pw.as_str()) {
                Ok(h) => {
                    m.password_hash = h;
                },
                Err(e) => return Err(e.message),
            }
        },
        None => {},
    }
    match req.role {
        Some(role) => match validate_role(role.as_str()) {
            Ok(x) => {
                m.role = to_owned(x);
            },
            Err(e) => return Err(e),
        },
        None => {},
    }
    match req.permissions {
        Some(perms) => {
            match validate_permissions(perms.as_slice()) {
                Ok(()) => {},
                Err(e) => return Err(e),
            }
            m.permissions = perms;
        },
        None => {},
    }
    match req.status {
        Some(status) => {
            if str_eq(status.as_str(), "active") || str_eq(status.as_str(), "suspended") {
                m.status = status;
            } else {
                let mut e = to_owned("unknown status '");
                e.append(status.as_str());
                e.append("' (expected active|suspended)");
                return Err(e);
            }
        },
        None => {},
    }
    m.updated_at = to_owned(now);
    Ok(m)
}

/// Who a sign-in with `password` resolves to: an active account whose stored
/// hash the password verifies against; none otherwise.
pub fn authenticate_user(user: Option<&TenantUserRecord>, password: &str) -> (r: Option<AuthenticatedUser>)
    ensures
        match r {
            Some(p) => user matches Some(u) && u.status@ == "active"@ && bcrypt_check(password@, u.password_hash@)
                == Some(true) && p.tenant_id == u.tenant_id && p.username == u.username && p.session_role@ == (if u.role@
                == "admin"@ {
                "tenant_admin"@
            } else {
                "tenant_user"@
            }) && p.permissions@ == u.permissions@,
            None => match user {
                Some(u) => u.status@ != "active"@ || bcrypt_check(password@, u.password_hash@) != Some(true),
                None => true,
            },
        },
{
    let u = match user {
        Some(u) => u,
        None => return None,
    };
    if !str_eq(u.status.as_str(), "active") {
        return None;
    }
    if !verify_password(password, u.password_hash.as_str()) {
        return None;
    }
    Some(
        AuthenticatedUser {
            tenant_id: u.tenant_id,
            username: u.username.clone(),
            session_role: to_owned(session_role_for(u.role.as_str())),
            permissions: copy_strings(&u.permissions),
        },
    )
}

/// A password change: refused when the current password does not verify or
/// the new one is under six bytes; otherwise the new password's hash, or
/// `hash failed: ` and bcrypt's message when hashing fails.
pub fn change_password_hash(user: &TenantUserRecord, current: &str, new: &str) -> (r: Result<String, String>)
    ensures
        bcrypt_check(current@, user.password_hash@) != Some(true) ==> (r matches Err(e) && e@
            == "current password is incorrect"@),
        bcrypt_check(current@, user.password_hash@) == Some(true) && byte_len(new@) < 6 ==> (r matches Err(e) && e@
            == "new password must be at least 6 characters"@),
        bcrypt_check(current@, user.password_hash@) == Some(true) && byte_len(new@) >= 6 ==> match r {
            Ok(h) => bcrypt_check(new@, h@) == Some(true),
            Err(e) => hash_failure(e@),
        },
        r matches Ok(h) ==> bcrypt_check(current@, user.password_hash@) == Some(true) && byte_len(new@) >= 6
            && bcrypt_check(new@, h@) == Some(true),
{
    if !verify_password(current, user.password_hash.as_str()) {
        return Err(to_owned("current password is incorrect"));
    }
    if new.len() < MIN_PASSWORD_BYTES {
        return Err(to_owned("new password must be at least 6 characters"));
    }
    match hash_password(new) {
        Ok(h) => Ok(h),
        Err(e) => Err(e.message),
    }
}

/// The session principal of an authenticated tenant user.
pub fn tenant_login_user(p: AuthenticatedUser) -> (u: UserInfo)
    ensures
        u.username == p.username && u.role == p.session_role && u.tenant_id == Some(p.tenant_id)
            && u.permissions == p.permissions,
{
    UserInfo { username: p.username, role: p.session_role, tenant_id: Some(p.tenant_id), permissions: p.permissions }
}

/// The account request for a tenant's first admin: the given credentials,
/// shown as `Tenant Admin`, with the admin role and no explicit permissions.
pub fn initial_admin_request(username: &str, password: &str) -> (r: CreateTenantUserRequest)
    ensures
        r.username@ == username@ && r.password@ == password@,
        r.display_name matches Some(d) && d@ == "Tenant Admin"@,
        r.role matches Some(x) && x@ == "admin"@,
        r.permissions@.len() == 0,
{
    CreateTenantUserRequest {
        username: to_owned(username),
        password: to_owned(password),
        display_name: Some(to_owned("Tenant Admin")),
        role: Some(to_owned(db_role::ADMIN)),
        permissions: Vec::new(),
    }
}

} // verus!
