//! DID (phone number) inventory: statuses, and how requests create and change numbers.

use crate::text::{str_eq, to_owned, trim, trim_str};
use vstd::prelude::*;

verus! {

/// Lifecycle state of a number.
#[derive(Clone, Copy, PartialEq, Eq, Structural, Debug)]
pub enum DidStatus {
    Available,
    Assigned,
    Reserved,
    Porting,
}

impl Default for DidStatus {
    fn default() -> (r: Self)
        ensures
            r == DidStatus::Available,
    {
        DidStatus::Available
    }
}

/// The status named exactly by `s`.
pub open spec fn did_status_named(s: Seq<char>) -> Option<DidStatus> {
    if s == "available"@ {
        Some(DidStatus::Available)
    } else if s == "assigned"@ {
        Some(DidStatus::Assigned)
    } else if s == "reserved"@ {
        Some(DidStatus::Reserved)
    } else if s == "porting"@ {
        Some(DidStatus::Porting)
    } else {
        None
    }
}

/// The stored text of a status.
pub open spec fn did_status_text(s: DidStatus) -> Seq<char> {
    match s {
        DidStatus::Available => "available"@,
        DidStatus::Assigned => "assigned"@,
        DidStatus::Reserved => "reserved"@,
        DidStatus::Porting => "porting"@,
    }
}

impl DidStatus {
    /// The lower-case name of the status.
    pub fn as_str(&self) -> (r: &'static str)
        ensures
            r@ == did_status_text(*self),
    {
        match self {
            DidStatus::Available => "available",
            DidStatus::Assigned => "assigned",
            DidStatus::Reserved => "reserved",
            DidStatus::Porting => "porting",
        }
    }
}

/// The status named by `s`, or an error for any other text.
pub fn parse_status(s: &str) -> (r: Result<DidStatus, String>)
    ensures
        match r {
            Ok(st) => did_status_named(s@) == Some(st),
            Err(_) => did_status_named(s@) is None,
        },
{
    if str_eq(s, "available") {
        Ok(DidStatus::Available)
    } else if str_eq(s, "assigned") {
        Ok(DidStatus::Assigned)
    } else if str_eq(s, "reserved") {
        Ok(DidStatus::Reserved)
    } else if str_eq(s, "porting") {
        Ok(DidStatus::Porting)
    } else {
        let mut m = to_owned("unknown DID status '");
        m.append(s);
        m.append("'");
        Err(m)
    }
}

/// A number to add to the inventory.
#[derive(Clone, Debug)]
pub struct CreateDidRequest {
    pub number: String,
    pub tenant_id: Option<i64>,
    pub trunk_id: Option<i64>,
    pub status: Option<String>,
    pub country: Option<String>,
    pub city: Option<String>,
    pub monthly_cost: Option<i32>,
}

/// A change to a number; `unassign` releases it from its tenant.
#[derive(Clone, Debug)]
pub struct UpdateDidRequest {
    pub tenant_id: Option<i64>,
    pub trunk_id: Option<i64>,
    pub status: Option<String>,
    pub country: Option<String>,
    pub city: Option<String>,
    pub monthly_cost: Option<i32>,
    pub unassign: bool,
}

/// A number as stored and returned. Times are RFC 3339 text.
#[derive(Clone, Debug)]
pub struct DidResponse {
    pub id: i64,
    pub number: String,
    pub tenant_id: Option<i64>,
    pub trunk_id: Option<i64>,
    pub status: String,
    pub country: Option<String>,
    pub city: Option<String>,
    pub monthly_cost: Option<i32>,
    pub created_at: String,
    pub updated_at: String,
}

/// A number row.
#[derive(Clone, Debug)]
pub struct DidRecord {
    pub id: i64,
    pub number: String,
    pub tenant_id: Option<i64>,
    pub trunk_id: Option<i64>,
    pub status: DidStatus,
    pub country: Option<String>,
    pub city: Option<String>,
    pub monthly_cost: Option<i32>,
    pub created_at: String,
    pub updated_at: String,
}

/// The status a new number gets: the one asked for, else assigned when a
/// tenant is given, else available.
pub open spec fn new_did_status(req: CreateDidRequest) -> Option<DidStatus> {
    match req.status {
        Some(s) => did_status_named(s@),
        None => Some(if req.tenant_id is Some { DidStatus::Assigned } else { DidStatus::Available }),
    }
}

/// The stored number and status of a new number, or why it is refused: a blank
/// number, or an unknown status.
pub fn check_new_did(req: &CreateDidRequest) -> (r: Result<(String, DidStatus), String>)
    ensures
        match r {
            Ok((n, st)) => trim(req.number@).len() > 0 && n@ == trim(req.number@) && new_did_status(*req) == Some(st),
            Err(_) => trim(req.number@).len() == 0 || new_did_status(*req) is None,
        },
{
    let number = trim_str(req.number.as_str());
    if number.as_str().is_empty() {
        return Err("number is required".to_string());
    }
    let status = match &req.status {
        Some(s) => match parse_status(s.as_str()) {
            Ok(st) => st,
            Err(e) => return Err(e),
        },
        None => if req.tenant_id.is_some() {
            DidStatus::Assigned
        } else {
            DidStatus::Available
        },
    };
    Ok((number, status))
}

/// Applies a change: unassigning clears tenant and trunk and makes the number
/// available, while naming a tenant assigns it; a given trunk, status and
/// other fields then replace the stored ones. An unknown status is refused.
pub fn apply_did_update(d: DidRecord, req: UpdateDidRequest, now: String) -> (r: Result<DidRecord, String>)
    ensures
        match r {
            Ok(u) => {
                &&& u.id == d.id && u.number == d.number && u.created_at == d.created_at && u.updated_at == now
                &&& u.tenant_id == (if req.unassign {
                    None
                } else if req.tenant_id is Some {
                    req.tenant_id
                } else {
                    d.tenant_id
                })
                &&& u.trunk_id == (if req.trunk_id is Some {
                    req.trunk_id
                } else if req.unassign {
                    None
                } else {
                    d.trunk_id
                })
                &&& Some(u.status) == (match req.status {
                    Some(s) => did_status_named(s@),
                    None => Some(if req.unassign {
                        DidStatus::Available
                    } else if req.tenant_id is Some {
                        DidStatus::Assigned
                    } else {
                        d.status
                    }),
                })
                &&& u.country == (if req.country is Some { req.country } else { d.country })
                &&& u.city == (if req.city is Some { req.city } else { d.city })
                &&& u.monthly_cost == (if req.monthly_cost is Some { req.monthly_cost } else { d.monthly_cost })
            },
            Err(_) => req.status matches Some(s) && did_status_named(s@) is None,
        },
{
    let mut d = d;
    if req.unassign {
        d.tenant_id = None;
        d.trunk_id = None;
        d.status = DidStatus::Available;
    } else if req.tenant_id.is_some() {
        d.tenant_id = req.tenant_id;
        d.status = DidStatus::Assigned;
    }
    if req.trunk_id.is_some() {
        d.trunk_id = req.trunk_id;
    }
    match req.status {
        Some(s) => match parse_status(s.as_str()) {
            Ok(st) => {
                d.status = st;
            },
            Err(e) => return Err(e),
        },
        None => {},
    }
    if req.country.is_some() {
        d.country = req.country;
    }
    if req.city.is_some() {
        d.city = req.city;
    }
    if req.monthly_cost.is_some() {
        d.monthly_cost = req.monthly_cost;
    }
    d.updated_at = now;
    Ok(d)
}

} // verus!
