//! Audit entries of privileged changes, and how a listing request becomes a query.

use crate::access::UserInfo;
use crate::text::{dec_i64, i64_to_string, push_char, to_owned};
use vstd::prelude::*;

verus! {

/// One auditable event. `payload` holds JSON text.
#[derive(Clone, Debug)]
pub struct AuditEntry {
    pub actor_username: String,
    pub actor_role: String,
    pub actor_tenant_id: Option<i64>,
    pub action: String,
    pub target_type: String,
    pub target_id: Option<i64>,
    pub summary: String,
    /// Snapshot of the changed row, secrets scrubbed.
    pub payload: Option<String>,
}

impl AuditEntry {
    /// An entry with its actor.
    pub fn new(
        actor_username: &str,
        actor_role: &str,
        actor_tenant_id: Option<i64>,
        action: &str,
        target_type: &str,
        target_id: Option<i64>,
        summary: &str,
    ) -> (r: Self)
        ensures
            r.actor_username@ == actor_username@ && r.actor_role@ == actor_role@ && r.actor_tenant_id
                == actor_tenant_id && r.action@ == action@ && r.target_type@ == target_type@ && r.target_id
                == target_id && r.summary@ == summary@ && r.payload is None,
    {
        AuditEntry {
            actor_username: to_owned(actor_username),
            actor_role: to_owned(actor_role),
            actor_tenant_id,
            action: to_owned(action),
            target_type: to_owned(target_type),
            target_id,
            summary: to_owned(summary),
            payload: None,
        }
    }

    /// An entry whose actor is filled in later from the session.
    pub fn action(action: &str, target_type: &str, target_id: Option<i64>, summary: &str) -> (r: Self)
        ensures
            r.actor_username@ == Seq::<char>::empty() && r.actor_role@ == Seq::<char>::empty()
                && r.actor_tenant_id is None && r.action@ == action@ && r.target_type@ == target_type@
                && r.target_id == target_id && r.summary@ == summary@ && r.payload is None,
    {
        AuditEntry {
            actor_username: String::new(),
            actor_role: String::new(),
            actor_tenant_id: None,
            action: to_owned(action),
            target_type: to_owned(target_type),
            target_id,
            summary: to_owned(summary),
            payload: None,
        }
    }

    /// The entry with a payload attached.
    pub fn with_payload(self, payload: String) -> (r: Self)
        ensures
            r.payload == Some(payload) && r.action == self.action && r.target_type == self.target_type
                && r.target_id == self.target_id && r.summary == self.summary && r.actor_username
                == self.actor_username && r.actor_role == self.actor_role && r.actor_tenant_id == self.actor_tenant_id,
    {
        let mut s = self;
        s.payload = Some(payload);
        s
    }

    /// The entry with its actor taken from the signed-in principal.
    pub fn with_actor(self, user: &UserInfo) -> (r: Self)
        ensures
            r.actor_username@ == user.username@ && r.actor_role@ == user.role@ && r.actor_tenant_id
                == user.tenant_id && r.action == self.action && r.target_type == self.target_type
                && r.target_id == self.target_id && r.summary == self.summary && r.payload == self.payload,
    {
        let mut s = self;
        s.actor_username = user.username.clone();
        s.actor_role = user.role.clone();
        s.actor_tenant_id = user.tenant_id;
        s
    }
}

/// Filters of an audit listing.
#[derive(Clone, Debug)]
pub struct AuditFilter {
    /// Restrict to one tenant (none: all, the superadmin's scope).
    pub tenant_id: Option<i64>,
    pub action: Option<String>,
    pub target_type: Option<String>,
    pub limit: u64,
}

impl Default for AuditFilter {
    fn default() -> (r: Self)
        ensures
            r.tenant_id is None && r.action is None && r.target_type is None && r.limit == 100,
    {
        AuditFilter { tenant_id: None, action: None, target_type: None, limit: 100 }
    }
}

/// What an audit listing queries: newest first, at most `limit` rows.
#[derive(Clone, Debug)]
pub struct AuditQuery {
    pub tenant_id: Option<i64>,
    /// Exact action, when one was given and it is not empty.
    pub action: Option<String>,
    /// Exact target type, when one was given and it is not empty.
    pub target_type: Option<String>,
    /// The page size, within 1..=500.
    pub limit: u64,
}

/// A filter value kept only when not empty.
pub open spec fn non_empty(o: Option<String>) -> Option<String> {
    match o {
        Some(s) => if s@.len() > 0 {
            Some(s)
        } else {
            None
        },
        None => None,
    }
}

/// The query for a listing: empty filters dropped, the limit kept within 1..=500.
pub fn audit_query(filter: AuditFilter) -> (q: AuditQuery)
    ensures
        q.tenant_id == filter.tenant_id,
        q.action == non_empty(filter.action),
        q.target_type == non_empty(filter.target_type),
        q.limit == (if filter.limit < 1 {
            1
        } else if filter.limit > 500 {
            500
        } else {
            filter.limit
        }),
{
    let action = match filter.action {
        Some(a) => if a.as_str().is_empty() {
            None
        } else {
            Some(a)
        },
        None => None,
    };
    let target_type = match filter.target_type {
        Some(t) => if t.as_str().is_empty() {
            None
        } else {
            Some(t)
        },
        None => None,
    };
    let limit = if filter.limit < 1 {
        1
    } else if filter.limit > 500 {
        500
    } else {
        filter.limit
    };
    AuditQuery { tenant_id: filter.tenant_id, action, target_type, limit }
}

/// The summary recorded for a tenant change: `{action} tenant '{name}' (id
/// {id})`, or `{action} tenant (id {id})` when no name is known.
pub open spec fn tenant_summary_text(action: Seq<char>, id: i64, name: Seq<char>) -> Seq<char> {
    if name.len() == 0 {
        action + " tenant (id "@ + dec_i64(id) + seq![')']
    } else {
        action + " tenant '"@ + name + "' (id "@ + dec_i64(id) + seq![')']
    }
}

/// The audit entry of a tenant change.
pub fn tenant_audit_entry(action: &str, id: i64, name: &str) -> (r: AuditEntry)
    ensures
        r.action@ == action@ && r.target_type@ == "tenant"@ && r.target_id == Some(id),
        r.summary@ == tenant_summary_text(action@, id, name@),
{
    let mut m = to_owned(action);
    if name.is_empty() {
        m.append(" tenant (id ");
    } else {
        m.append(" tenant '");
        m.append(name);
        m.append("' (id ");
    }
    let d = i64_to_string(id);
    m.append(d.as_str());
    push_char(&mut m, ')');
    AuditEntry::action(action, "tenant", Some(id), m.as_str())
}

} // verus!
