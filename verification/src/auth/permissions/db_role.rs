//! Role values stored on tenant user rows.

use vstd::prelude::*;

verus! {

/// A tenant admin row.
pub const ADMIN: &'static str = "admin";

/// A tenant sub-user row.
pub const USER: &'static str = "user";

} // verus!
