//! Role and permission model for the admin console.
//!
//! Three principal kinds: `superadmin` (platform operator), `tenant_admin` (a
//! tenant's IAM admin, implicitly holding every permission within its tenant)
//! and `tenant_user` (limited to its granted permissions). Permissions are
//! `"<resource>:<action>"` strings and only ever constrain tenant users.

pub mod db_role;
pub mod roles;

use crate::text::str_eq;
use vstd::prelude::*;

verus! {

pub const TRUNKS_READ: &'static str = "trunks:read";
pub const TRUNKS_WRITE: &'static str = "trunks:write";
pub const ROUTING_READ: &'static str = "routing:read";
pub const ROUTING_WRITE: &'static str = "routing:write";
pub const EXTENSIONS_READ: &'static str = "extensions:read";
pub const EXTENSIONS_WRITE: &'static str = "extensions:write";
pub const CDR_READ: &'static str = "cdr:read";
pub const DIDS_READ: &'static str = "dids:read";
pub const DIDS_WRITE: &'static str = "dids:write";
pub const ACL_READ: &'static str = "acl:read";
pub const ACL_WRITE: &'static str = "acl:write";
pub const USERS_READ: &'static str = "users:read";
pub const USERS_WRITE: &'static str = "users:write";
pub const DOMAIN_READ: &'static str = "domain:read";
pub const DOMAIN_WRITE: &'static str = "domain:write";
/// View the audit trail; not delegable to sub-users.
pub const AUDIT_READ: &'static str = "audit:read";

/// Every permission a tenant admin can grant to a sub-user.
pub open spec fn catalogue() -> Seq<Seq<char>> {
    seq![
        "trunks:read"@,
        "trunks:write"@,
        "routing:read"@,
        "routing:write"@,
        "extensions:read"@,
        "extensions:write"@,
        "cdr:read"@,
        "dids:read"@,
        "dids:write"@,
        "acl:read"@,
        "acl:write"@,
        "users:read"@,
        "users:write"@,
        "domain:read"@,
        "domain:write"@,
    ]
}

/// The grantable permissions, in catalogue order.
pub fn all_permissions() -> (r: Vec<&'static str>)
    ensures
        r@.map_values(|p: &str| p@) == catalogue(),
{
    let r = vec![
        TRUNKS_READ,
        TRUNKS_WRITE,
        ROUTING_READ,
        ROUTING_WRITE,
        EXTENSIONS_READ,
        EXTENSIONS_WRITE,
        CDR_READ,
        DIDS_READ,
        DIDS_WRITE,
        ACL_READ,
        ACL_WRITE,
        USERS_READ,
        USERS_WRITE,
        DOMAIN_READ,
        DOMAIN_WRITE,
    ];
    assert(r@.map_values(|p: &str| p@) =~= catalogue());
    r
}

/// The session role for a stored tenant-user role: admin rows are tenant
/// admins, anything else a tenant user.
pub fn session_role_for(db_role: &str) -> (r: &'static str)
    ensures
        r@ == (if db_role@ == "admin"@ { "tenant_admin"@ } else { "tenant_user"@ }),
{
    if str_eq(db_role, db_role::ADMIN) {
        roles::TENANT_ADMIN
    } else {
        roles::TENANT_USER
    }
}

/// Whether the role is one of the two admin roles.
pub open spec fn is_admin_role(role: Seq<char>) -> bool {
    role == "superadmin"@ || role == "tenant_admin"@
}

/// Whether a principal holds `perm`: admins always do, anyone else only when granted it.
pub fn has_permission(role: &str, permissions: &[String], perm: &str) -> (b: bool)
    ensures
        b == (is_admin_role(role@) || exists|i: int| 0 <= i < permissions@.len() && #[trigger] permissions@[i]@ == perm@),
{
    if str_eq(role, roles::SUPERADMIN) || str_eq(role, roles::TENANT_ADMIN) {
        return true;
    }
    let mut i: usize = 0;
    while i < permissions.len()
        invariant
            i <= permissions@.len(),
            forall|j: int| 0 <= j < i ==> #[trigger] permissions@[j]@ != perm@,
        decreases permissions@.len() - i,
    {
        if str_eq(permissions[i].as_str(), perm) {
            return true;
        }
        i = i + 1;
    }
    false
}

/// Whether `p` is in the grantable catalogue.
pub fn is_known_permission(p: &str) -> (b: bool)
    ensures
        b == catalogue().contains(p@),
{
    let all = all_permissions();
    let mut i: usize = 0;
    while i < all.len()
        invariant
            i <= all@.len(),
            all@.map_values(|q: &str| q@) == catalogue(),
            forall|j: int| 0 <= j < i ==> catalogue()[j] != p@,
        decreases all@.len() - i,
    {
        assert(all@.map_values(|q: &str| q@)[i as int] == all@[i as int]@);
        if str_eq(all[i], p) {
            assert(catalogue()[i as int] == p@);
            return true;
        }
        i = i + 1;
    }
    false
}

/// The first requested permission outside the catalogue, if any.
pub fn first_unknown_permission(permissions: &[String]) -> (r: Option<&str>)
    ensures
        match r {
            Some(p) => exists|i: int|
                0 <= i < permissions@.len() && p@ == permissions@[i]@ && !catalogue().contains(p@)
                    && forall|j: int| 0 <= j < i ==> catalogue().contains(#[trigger] permissions@[j]@),
            None => forall|j: int| 0 <= j < permissions@.len() ==> catalogue().contains(#[trigger] permissions@[j]@),
        },
{
    let mut i: usize = 0;
    while i < permissions.len()
        invariant
            i <= permissions@.len(),
            forall|j: int| 0 <= j < i ==> catalogue().contains(#[trigger] permissions@[j]@),
        decreases permissions@.len() - i,
    {
        if !is_known_permission(permissions[i].as_str()) {
            return Some(permissions[i].as_str());
        }
        i = i + 1;
    }
    None
}

} // verus!
