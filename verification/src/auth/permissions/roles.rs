//! Session role strings (what a signed-in user's role carries).

use vstd::prelude::*;

verus! {

/// The platform operator (config account, no tenant).
pub const SUPERADMIN: &'static str = "superadmin";

/// A tenant's IAM admin: every permission within its own tenant.
pub const TENANT_ADMIN: &'static str = "tenant_admin";

/// A tenant sub-account limited to its granted permissions.
pub const TENANT_USER: &'static str = "tenant_user";

} // verus!
