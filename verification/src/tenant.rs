//! Tenant identity and the trunk a call belongs to.

use vstd::prelude::*;

verus! {

/// A tenant's id.
#[derive(Clone, Copy, PartialEq, Eq, Structural, Debug)]
pub struct TenantId(pub i64);

/// The trunk context of a call: its id, name, tenant and DID numbers.
#[derive(Clone, Debug)]
pub struct TrunkContext {
    pub id: Option<i64>,
    pub name: String,
    pub tenant_id: Option<i64>,
    pub did_numbers: Vec<String>,
}

} // verus!
