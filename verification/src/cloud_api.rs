//! Cloud console sessions: who a signed-in user is shown as, how the session
//! token is minted and checked (an HMAC-SHA256 signature over the user id and
//! the expiry), and the session cookie that carries it.

use crate::text::{
    dec, dec_i64, i64_to_string, is_blank, parse_i64, parse_i64_spec, push_char, push_dec, split,
    split_once, split_once_str, split_str, str_eq, to_owned, trim, trim_str, join,
};
use crate::access::{ApiError, BAD_REQUEST, UNAUTHORIZED};
use vstd::prelude::*;

verus! {

/// Name of the session cookie.
pub const SESSION_COOKIE: &'static str = "cloudpbx_session";

/// Lifetime of a session: twelve hours.
pub const SESSION_TTL_SECS: u64 = 43200;

/// A console account, as far as sessions read it.
#[derive(Clone, Debug)]
pub struct CloudUser {
    pub id: i64,
    pub username: String,
    pub email: String,
    /// PHC-format Argon2 hash.
    pub password_hash: String,
    pub is_active: bool,
    pub is_superuser: bool,
    pub is_staff: bool,
}

/// A sign-in request.
#[derive(Clone, Debug)]
pub struct LoginRequest {
    pub username: String,
    pub password: String,
    pub tenant: Option<String>,
}

/// The tenant a session is shown under.
#[derive(Clone, Debug)]
pub struct TenantSummary {
    pub id: String,
    pub name: String,
    pub status: String,
    pub domain: Option<String>,
}

/// The signed-in user as the console shows it.
#[derive(Clone, Debug)]
pub struct SessionUser {
    pub id: i64,
    pub username: String,
    pub email: Option<String>,
    pub role: String,
    pub tenant: TenantSummary,
}

/// The console role of an account.
pub open spec fn role_text(is_superuser: bool, is_staff: bool) -> Seq<char> {
    if is_superuser {
        "platform_admin"@
    } else if is_staff {
        "tenant_admin"@
    } else {
        "tenant_user"@
    }
}

/// The console role: superusers administer the platform, staff their tenant.
pub fn session_role(is_superuser: bool, is_staff: bool) -> (r: &'static str)
    ensures
        r@ == role_text(is_superuser, is_staff),
{
    if is_superuser {
        "platform_admin"
    } else if is_staff {
        "tenant_admin"
    } else {
        "tenant_user"
    }
}

/// The tenant id shown: the trimmed requested one, else `default`.
pub open spec fn tenant_id_text(id: Option<Seq<char>>) -> Seq<char> {
    match id {
        Some(s) => if trim(s).len() > 0 {
            trim(s)
        } else {
            "default"@
        },
        None => "default"@,
    }
}

/// The tenant a session is shown under: the requested id (trimmed; blank or
/// none means `default`), named `Default` for the default tenant and by its
/// id otherwise, always active and without a domain.
pub fn default_tenant(id: Option<&str>) -> (r: TenantSummary)
    ensures
        r.id@ == tenant_id_text(
            match id {
                Some(s) => Some(s@),
                None => None,
            },
        ),
        r.name@ == (if r.id@ == "default"@ { "Default"@ } else { r.id@ }),
        r.status@ == "active"@,
        r.domain is None,
{
    let tid = match id {
        Some(s) => {
            let t = trim_str(s);
            if t.as_str().is_empty() {
                to_owned("default")
            } else {
                t
            }
        },
        None => to_owned("default"),
    };
    let name = if str_eq(tid.as_str(), "default") {
        to_owned("Default")
    } else {
        tid.clone()
    };
    TenantSummary { id: tid, name, status: to_owned("active"), domain: None }
}

/// The session view of an account, under the requested tenant.
pub fn session_user(user: &CloudUser, tenant: Option<&str>) -> (r: SessionUser)
    ensures
        r.id == user.id && r.username == user.username && r.email == Some(user.email),
        r.role@ == role_text(user.is_superuser, user.is_staff),
        r.tenant.id@ == tenant_id_text(
            match tenant {
                Some(s) => Some(s@),
                None => None,
            },
        ),
        r.tenant.name@ == (if r.tenant.id@ == "default"@ { "Default"@ } else { r.tenant.id@ }),
        r.tenant.status@ == "active"@ && r.tenant.domain is None,
{
    SessionUser {
        id: user.id,
        username: user.username.clone(),
        email: Some(user.email.clone()),
        role: to_owned(session_role(user.is_superuser, user.is_staff)),
        tenant: default_tenant(tenant),
    }
}

/// Whether a sign-in request names a user and a password: the user name
/// trimmed and the password as given must not be empty.
pub fn login_fields_present(username: &str, password: &str) -> (b: bool)
    ensures
        b == (trim(username@).len() > 0 && password@.len() > 0),
{
    !is_blank(username) && !password.is_empty()
}

/// The trimmed user name of a sign-in request, or 400 when the user name or
/// the password is missing.
pub fn check_login_fields(req: &LoginRequest) -> (r: Result<String, ApiError>)
    ensures
        match r {
            Ok(u) => trim(req.username@).len() > 0 && req.password@.len() > 0 && u@ == trim(req.username@),
            Err(e) => !(trim(req.username@).len() > 0 && req.password@.len() > 0) && e.status == BAD_REQUEST,
        },
{
    if !login_fields_present(req.username.as_str(), req.password.as_str()) {
        return Err(ApiError { status: BAD_REQUEST, message: to_owned("username and password are required") });
    }
    Ok(trim_str(req.username.as_str()))
}

/// The account a sign-in resolves to: the one found, when it is active and
/// the password matches; otherwise 401, alike for an unknown user, an
/// inactive one and a wrong password.
pub fn check_login(found: Option<CloudUser>, password: &str) -> (r: Result<CloudUser, ApiError>)
    ensures
        match r {
            Ok(u) => found == Some(u) && u.is_active && argon2_accepts(password@, u.password_hash@),
            Err(e) => e.status == UNAUTHORIZED && match found {
                Some(u) => !(u.is_active && argon2_accepts(password@, u.password_hash@)),
                None => true,
            },
        },
{
    match found {
        Some(u) => if login_allowed(&u, password) {
            Ok(u)
        } else {
            Err(ApiError { status: UNAUTHORIZED, message: to_owned("invalid credentials") })
        },
        None => Err(ApiError { status: UNAUTHORIZED, message: to_owned("invalid credentials") }),
    }
}

/// Whether Argon2 accepts `password` for the PHC string `phc`: the string
/// parses as a password hash and hashing the password with its parameters
/// and salt gives its output.
pub uninterp spec fn argon2_accepts(password: Seq<char>, phc: Seq<char>) -> bool;

/// Calls `argon2::password_hash::PasswordHash::new` on the stored hash and,
/// when it parses, `PasswordVerifier::verify_password` of `Argon2::default()`;
/// the answer is a function of the two texts alone.
#[verifier::external_body]
fn argon2_verify(password: &str, phc: &str) -> (b: bool)
    ensures
        b == argon2_accepts(password@, phc@),
{
    match argon2::password_hash::PasswordHash::new(phc) {
        Ok(parsed) => argon2::password_hash::PasswordVerifier::verify_password(
            &argon2::Argon2::default(),
            password.as_bytes(),
            &parsed,
        ).is_ok(),
        Err(_) => false,
    }
}

/// Whether `password` matches an Argon2 hash in PHC form.
pub fn verify_password(password: &str, hash: &str) -> (b: bool)
    ensures
        b == argon2_accepts(password@, hash@),
{
    argon2_verify(password, hash)
}

/// Whether an account may sign in with `password`: it is active and the
/// password matches its hash.
pub fn login_allowed(user: &CloudUser, password: &str) -> (b: bool)
    ensures
        b == (user.is_active && argon2_accepts(password@, user.password_hash@)),
{
    user.is_active && verify_password(password, user.password_hash.as_str())
}

/// The cookie attributes shared by setting and clearing the session.
pub open spec fn cookie_attrs() -> Seq<char> {
    "; Path=/; HttpOnly; SameSite=Lax"@
}

/// The `Set-Cookie` value carrying `token`, with `Max-Age` when given.
pub open spec fn session_cookie_text(token: Seq<char>, max_age: Option<u64>) -> Seq<char> {
    "cloudpbx_session="@ + token + cookie_attrs() + match max_age {
        Some(s) => "; Max-Age="@ + dec(s as nat),
        None => Seq::empty(),
    }
}

/// The `Set-Cookie` value that stores the session token.
pub fn session_cookie(token: &str, max_age: Option<u64>) -> (r: String)
    ensures
        r@ == session_cookie_text(token@, max_age),
{
    let mut r = to_owned(SESSION_COOKIE);
    push_char(&mut r, '=');
    r.append(token);
    r.append("; Path=/; HttpOnly; SameSite=Lax");
    proof {
        reveal_strlit("cloudpbx_session");
        reveal_strlit("cloudpbx_session=");
    }
    match max_age {
        Some(s) => {
            r.append("; Max-Age=");
            push_dec(&mut r, s);
        },
        None => {},
    }
    assert(r@ =~= session_cookie_text(token@, max_age));
    r
}

/// The `Set-Cookie` value that ends the session: empty and already expired.
pub fn clear_session_cookie() -> (r: String)
    ensures
        r@ == "cloudpbx_session=; Path=/; HttpOnly; SameSite=Lax; Max-Age=0"@,
{
    to_owned("cloudpbx_session=; Path=/; HttpOnly; SameSite=Lax; Max-Age=0")
}

/// Signing out sets the session cookie emptied and expired at once.
pub proof fn law_logout_cookie_expires_session()
    ensures
        "cloudpbx_session=; Path=/; HttpOnly; SameSite=Lax; Max-Age=0"@ == session_cookie_text(
            Seq::empty(),
            Some(0),
        ),
{
    reveal_strlit("cloudpbx_session=; Path=/; HttpOnly; SameSite=Lax; Max-Age=0");
    reveal_strlit("cloudpbx_session=");
    reveal_strlit("; Path=/; HttpOnly; SameSite=Lax");
    reveal_strlit("; Max-Age=");
    assert(dec(0) =~= seq!['0']);
    assert("cloudpbx_session=; Path=/; HttpOnly; SameSite=Lax; Max-Age=0"@ =~= session_cookie_text(
        Seq::empty(),
        Some(0),
    ));
}

/// The HMAC-SHA256 tag of the UTF-8 bytes of `msg` under the UTF-8 bytes of `key`.
pub uninterp spec fn hmac_sha256_tag(key: Seq<char>, msg: Seq<char>) -> Seq<u8>;

/// Calls `Hmac::<Sha256>::new_from_slice` on the key, `Mac::update` with the
/// message and `Mac::finalize`; the tag is a function of key and message.
/// `new_from_slice` of an HMAC accepts keys of every length (its source
/// returns `Ok` on every path), so a tag always comes back.
#[verifier::external_body]
fn hmac_sha256(key: &str, msg: &str) -> (r: Option<Vec<u8>>)
    ensures
        r is Some,
        r.unwrap()@ == hmac_sha256_tag(key@, msg@),
{
    let mut mac = <hmac::Hmac<sha2::Sha256> as hmac::Mac>::new_from_slice(key.as_bytes()).ok()?;
    hmac::Mac::update(&mut mac, msg.as_bytes());
    Some(hmac::Mac::finalize(mac).into_bytes().to_vec())
}

/// Base64 text of `bytes` in the standard alphabet without padding.
pub uninterp spec fn base64_no_pad_of(bytes: Seq<u8>) -> Seq<char>;

/// A character of the standard Base64 alphabet.
pub open spec fn base64_char(c: char) -> bool {
    ('A' <= c <= 'Z') || ('a' <= c <= 'z') || ('0' <= c <= '9') || c == '+' || c == '/'
}

/// Calls `Engine::encode` of `base64::engine::general_purpose::STANDARD_NO_PAD`;
/// the text is a function of the bytes, and holds only characters of the
/// standard alphabet (no padding).
#[verifier::external_body]
fn base64_no_pad(bytes: &[u8]) -> (r: String)
    ensures
        r@ == base64_no_pad_of(bytes@),
        forall|i: int| 0 <= i < r@.len() ==> base64_char(#[trigger] r@[i]),
{
    base64::Engine::encode(&base64::engine::general_purpose::STANDARD_NO_PAD, bytes)
}

/// The signature of a payload: the Base64 (no padding) HMAC-SHA256 tag.
pub open spec fn signature(key: Seq<char>, payload: Seq<char>) -> Seq<char> {
    base64_no_pad_of(hmac_sha256_tag(key, payload))
}

/// Signs `payload` under `key`.
pub fn sign(key: &str, payload: &str) -> (r: Option<String>)
    ensures
        r matches Some(s) && s@ == signature(key@, payload@) && (forall|i: int|
            0 <= i < s@.len() ==> base64_char(#[trigger] s@[i])),
{
    let tag = hmac_sha256(key, payload)?;
    Some(base64_no_pad(tag.as_slice()))
}

/// The signing key of a deployment: `cloudpbx:{http_addr}:{database_url}`.
pub open spec fn signing_key_text(http_addr: Seq<char>, database_url: Seq<char>) -> Seq<char> {
    "cloudpbx:"@ + http_addr + seq![':'] + database_url
}

/// The signing key derived from the deployment's address and database.
pub fn signing_key(http_addr: &str, database_url: &str) -> (r: String)
    ensures
        r@ == signing_key_text(http_addr@, database_url@),
{
    let mut r = to_owned("cloudpbx:");
    r.append(http_addr);
    push_char(&mut r, ':');
    r.append(database_url);
    r
}

/// What a token signs: `{user_id}:{expires}`.
pub open spec fn payload_text(user_id: i64, expires: i64) -> Seq<char> {
    dec_i64(user_id) + seq![':'] + dec_i64(expires)
}

/// A session token: `{user_id}:{expires}:{signature}`.
pub open spec fn token_text(key: Seq<char>, user_id: i64, expires: i64) -> Seq<char> {
    payload_text(user_id, expires) + seq![':'] + signature(key, payload_text(user_id, expires))
}

/// The expiry of a session opened at `now_secs`.
pub fn session_expires(now_secs: i64) -> (r: i64)
    requires
        now_secs <= i64::MAX - 43200,
    ensures
        r == now_secs + 43200,
{
    now_secs + 43200
}

/// The user a token names, when it has exactly three `:`-separated parts, the
/// first two are integers, it expires after `now_secs`, and the third is the
/// signature of the first two as written back.
pub open spec fn token_user(key: Seq<char>, token: Seq<char>, now_secs: i64) -> Option<i64> {
    let parts = split(token, ':');
    if parts.len() == 3 && parse_i64_spec(parts[0]) is Some && parse_i64_spec(parts[1]) is Some {
        let uid = parse_i64_spec(parts[0])->0;
        let exp = parse_i64_spec(parts[1])->0;
        if exp > now_secs && signature(key, payload_text(uid, exp)) == parts[2] {
            Some(uid)
        } else {
            None
        }
    } else {
        None
    }
}

/// The payload text of a user and expiry.
pub fn session_payload(user_id: i64, expires: i64) -> (r: String)
    ensures
        r@ == payload_text(user_id, expires),
{
    let mut r = i64_to_string(user_id);
    push_char(&mut r, ':');
    let e = i64_to_string(expires);
    r.append(e.as_str());
    r
}

proof fn lemma_dec_i64_no_colon(n: i64)
    ensures
        !dec_i64(n).contains(':'),
{
    crate::text::lemma_parse_i64_dec(n);
    lemma_dec_no_colon(if n < 0 { (-(n as int)) as nat } else { n as nat });
    if n < 0 {
        let m = (-(n as int)) as nat;
        if dec_i64(n).contains(':') {
            let i = choose|i: int| 0 <= i < dec_i64(n).len() && dec_i64(n)[i] == ':';
            assert(i > 0);
            assert(dec(m)[i - 1] == dec_i64(n)[i]);
            assert(dec(m).contains(':'));
        }
    }
}

proof fn lemma_dec_no_colon(n: nat)
    ensures
        !dec(n).contains(':'),
    decreases n,
{
    if n >= 10 {
        lemma_dec_no_colon(n / 10);
        let c = (('0' as u32) + (n % 10)) as char;
        if dec(n).contains(':') {
            let i = choose|i: int| 0 <= i < dec(n).len() && dec(n)[i] == ':';
            if i < dec(n).len() - 1 {
                assert(dec(n / 10)[i] == ':');
                assert(dec(n / 10).contains(':'));
            } else {
                assert(dec(n)[i] == c);
            }
        }
    } else {
        assert(dec(n)[0] == (('0' as u32) + n) as char);
    }
}

/// A token made for a user reads back as that user until it expires: for
/// a payload whose signature is Base64 text (as `sign` always gives),
/// reading the token `{user_id}:{expires}:{signature}` at any time before
/// `expires` gives `user_id`.
pub proof fn law_token_reads_back(key: Seq<char>, user_id: i64, expires: i64, now: i64)
    requires
        forall|i: int|
            0 <= i < signature(key, payload_text(user_id, expires)).len() ==> base64_char(
                #[trigger] signature(key, payload_text(user_id, expires))[i],
            ),
        now < expires,
    ensures
        token_user(key, token_text(key, user_id, expires), now) == Some(user_id),
{
    let a = dec_i64(user_id);
    let b = dec_i64(expires);
    let c = signature(key, payload_text(user_id, expires));
    let t = token_text(key, user_id, expires);
    lemma_dec_i64_no_colon(user_id);
    lemma_dec_i64_no_colon(expires);
    assert(!c.contains(':')) by {
        if c.contains(':') {
            let i = choose|i: int| 0 <= i < c.len() && c[i] == ':';
            assert(base64_char(c[i]));
        }
    }
    let ps = seq![a, b, c];
    assert(join(ps, ':') =~= t) by {
        let q = ps.drop_first();
        assert(q =~= seq![b, c]);
        assert(q.drop_first() =~= seq![c]);
        assert(join(q.drop_first(), ':') == c);
        assert(join(q, ':') =~= b + seq![':'] + c);
    }
    assert forall|i: int| 0 <= i < ps.len() implies !(#[trigger] ps[i]).contains(':') by {}
    crate::text::lemma_split_join(ps, ':');
    crate::text::lemma_parse_i64_dec(user_id);
    crate::text::lemma_parse_i64_dec(expires);
    assert(split(t, ':') == ps);
}

/// A session token for `user_id` expiring at `expires`. It names the user
/// again until it expires: reading it back at any earlier time gives the user.
pub fn session_token(key: &str, user_id: i64, expires: i64) -> (r: Option<String>)
    ensures
        r matches Some(t) && t@ == token_text(key@, user_id, expires),
        forall|i: int|
            0 <= i < signature(key@, payload_text(user_id, expires)).len() ==> base64_char(
                #[trigger] signature(key@, payload_text(user_id, expires))[i],
            ),
        forall|now: i64| now < expires ==> token_user(key@, token_text(key@, user_id, expires), now) == Some(user_id),
{
    let payload = session_payload(user_id, expires);
    let sig = sign(key, payload.as_str())?;
    let mut t = payload;
    push_char(&mut t, ':');
    t.append(sig.as_str());
    proof {
        assert forall|now: i64| now < expires implies token_user(key@, token_text(key@, user_id, expires), now) == Some(
            user_id,
        ) by {
            law_token_reads_back(key@, user_id, expires, now);
        }
        assert(t@ =~= token_text(key@, user_id, expires));
    }
    Some(t)
}

/// The user a session token names at `now_secs`, if it is well formed,
/// unexpired and correctly signed.
pub fn session_user_id(key: &str, token: &str, now_secs: i64) -> (r: Option<i64>)
    ensures
        r == token_user(key@, token@, now_secs),
{
    let parts = split_str(token, ':');
    let ghost ps = split(token@, ':');
    proof {
        assert(ps.len() == parts@.len());
    }
    if parts.len() != 3 {
        return None;
    }
    proof {
        assert(parts@[0]@ == ps[0]);
        assert(parts@[1]@ == ps[1]);
        assert(parts@[2]@ == ps[2]);
    }
    let uid = match parse_i64(parts[0].as_str()) {
        Some(v) => v,
        None => return None,
    };
    let exp = match parse_i64(parts[1].as_str()) {
        Some(v) => v,
        None => return None,
    };
    if exp <= now_secs {
        return None;
    }
    let payload = session_payload(uid, exp);
    let expected = match sign(key, payload.as_str()) {
        Some(s) => s,
        None => return None,
    };
    if str_eq(expected.as_str(), parts[2].as_str()) {
        Some(uid)
    } else {
        None
    }
}

/// The value of a `name=value` cookie part, trimmed, when its name is `name`.
pub open spec fn cookie_in_part(part: Seq<char>, name: Seq<char>) -> Option<Seq<char>> {
    match split_once(trim(part), '=') {
        Some(kv) => if kv.0 == name {
            Some(kv.1)
        } else {
            None
        },
        None => None,
    }
}

/// The value of the first part of `parts` that is the cookie `name`.
pub open spec fn cookie_in_parts(parts: Seq<Seq<char>>, name: Seq<char>) -> Option<Seq<char>>
    decreases parts.len(),
{
    if parts.len() == 0 {
        None
    } else {
        match cookie_in_part(parts[0], name) {
            Some(v) => Some(v),
            None => cookie_in_parts(parts.drop_first(), name),
        }
    }
}

/// The value of cookie `name` in the first `Cookie` header (split at `;`) that holds it.
pub open spec fn cookie_in_headers(values: Seq<Seq<char>>, name: Seq<char>) -> Option<Seq<char>>
    decreases values.len(),
{
    if values.len() == 0 {
        None
    } else {
        match cookie_in_parts(split(values[0], ';'), name) {
            Some(v) => Some(v),
            None => cookie_in_headers(values.drop_first(), name),
        }
    }
}

fn cookie_in_header(value: &str, name: &str) -> (r: Option<String>)
    ensures
        match r {
            Some(v) => cookie_in_parts(split(value@, ';'), name@) == Some(v@),
            None => cookie_in_parts(split(value@, ';'), name@) is None,
        },
{
    let parts = split_str(value, ';');
    let ghost ps = split(value@, ';');
    proof {
        assert(ps.skip(0) =~= ps);
    }
    let mut i: usize = 0;
    while i < parts.len()
        invariant
            i <= parts@.len(),
            ps == split(value@, ';'),
            ps.len() == parts@.len(),
            forall|j: int| 0 <= j < ps.len() ==> #[trigger] ps[j] == parts@[j]@,
            cookie_in_parts(ps, name@) == cookie_in_parts(ps.skip(i as int), name@),
        decreases parts@.len() - i,
    {
        proof {
            assert(ps.skip(i as int).drop_first() =~= ps.skip(i + 1));
            assert(ps.skip(i as int)[0] == ps[i as int]);
        }
        let t = trim_str(parts[i].as_str());
        match split_once_str(t.as_str(), '=') {
            Some(kv) => {
                if str_eq(kv.0.as_str(), name) {
                    assert(cookie_in_part(ps[i as int], name@) == Some(kv.1@));
                    assert(ps.skip(i as int)[0] == ps[i as int]);
                    assert(cookie_in_parts(ps.skip(i as int), name@) == Some(kv.1@));
                    return Some(kv.1);
                }
                assert(cookie_in_part(ps[i as int], name@) is None);
            },
            None => {
                assert(cookie_in_part(ps[i as int], name@) is None);
            },
        }
        i = i + 1;
    }
    None
}

/// The value of the cookie `name` among the `Cookie` header values.
pub fn extract_cookie(values: &[String], name: &str) -> (r: Option<String>)
    ensures
        match r {
            Some(v) => cookie_in_headers(crate::text::strs_view(values@), name@) == Some(v@),
            None => cookie_in_headers(crate::text::strs_view(values@), name@) is None,
        },
{
    let ghost vs = crate::text::strs_view(values@);
    proof {
        assert(vs.skip(0) =~= vs);
    }
    let mut i: usize = 0;
    while i < values.len()
        invariant
            i <= values@.len(),
            vs == crate::text::strs_view(values@),
            cookie_in_headers(vs, name@) == cookie_in_headers(vs.skip(i as int), name@),
        decreases values@.len() - i,
    {
        proof {
            assert(vs.skip(i as int).drop_first() =~= vs.skip(i + 1));
            assert(vs.skip(i as int)[0] == values@[i as int]@);
        }
        match cookie_in_header(values[i].as_str(), name) {
            Some(v) => return Some(v),
            None => {},
        }
        i = i + 1;
    }
    None
}

} // verus!
