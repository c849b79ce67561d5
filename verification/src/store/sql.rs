//! The store's SQL: for each read and write of the admin console and of
//! config distribution, the statement it runs (SQL text with `$n`
//! placeholders) and the values bound to the placeholders, in order.
//! Running a statement on a connection is the caller's work.

use crate::sorted_map::opt_view;
use crate::store::{normalize_filter, replaces_sip_password, text_filter, CdrListOpts, AclInput, ExtensionInput, IvrInput, QueueInput, RouteInput, TrunkInput};
use crate::text::{copy_strings, dec, strs_view, to_owned, u64_to_string};
use vstd::prelude::*;

verus! {

/// A value bound to a placeholder.
#[derive(Debug)]
pub enum SqlValue {
    BigInt(Option<i64>),
    Int(Option<i32>),
    Text(Option<String>),
    Bool(bool),
    /// A JSON array of the strings.
    StringArray(Vec<String>),
    /// A JSON array with one `{"name": ...}` object per name.
    NameArray(Vec<String>),
    /// A JSON document, given as its text.
    Json(String),
    /// A UTC instant, in milliseconds since the epoch.
    Timestamp(Option<i64>),
    /// The metadata object of a call record, as JSON.
    CallMetadata(CdrMetadata),
}

/// What a call record's `metadata` column holds.
#[derive(Debug)]
pub struct CdrMetadata {
    pub worker_id: Option<String>,
    pub edge_id: Option<String>,
    pub recording_path: Option<String>,
    pub hangup_cause: Option<i32>,
    pub tenant_id: Option<i64>,
    pub sip_trunk_name: Option<String>,
    pub answer_time_unix_ms: Option<i64>,
}

/// What a call record's metadata stands for.
pub ghost struct CdrMetadataModel {
    pub worker_id: Option<Seq<char>>,
    pub edge_id: Option<Seq<char>>,
    pub recording_path: Option<Seq<char>>,
    pub hangup_cause: Option<i32>,
    pub tenant_id: Option<i64>,
    pub sip_trunk_name: Option<Seq<char>>,
    pub answer_time_unix_ms: Option<i64>,
}

impl View for CdrMetadata {
    type V = CdrMetadataModel;

    open spec fn view(&self) -> CdrMetadataModel {
        CdrMetadataModel {
            worker_id: opt_view(self.worker_id),
            edge_id: opt_view(self.edge_id),
            recording_path: opt_view(self.recording_path),
            hangup_cause: self.hangup_cause,
            tenant_id: self.tenant_id,
            sip_trunk_name: opt_view(self.sip_trunk_name),
            answer_time_unix_ms: self.answer_time_unix_ms,
        }
    }
}

/// What a bound value stands for.
pub ghost enum SqlValueModel {
    BigInt(Option<i64>),
    Int(Option<i32>),
    Text(Option<Seq<char>>),
    Bool(bool),
    StringArray(Seq<Seq<char>>),
    NameArray(Seq<Seq<char>>),
    Json(Seq<char>),
    Timestamp(Option<i64>),
    CallMetadata(CdrMetadataModel),
}

impl View for SqlValue {
    type V = SqlValueModel;

    open spec fn view(&self) -> SqlValueModel {
        match self {
            SqlValue::BigInt(v) => SqlValueModel::BigInt(*v),
            SqlValue::Int(v) => SqlValueModel::Int(*v),
            SqlValue::Text(v) => SqlValueModel::Text(opt_view(*v)),
            SqlValue::Bool(b) => SqlValueModel::Bool(*b),
            SqlValue::StringArray(v) => SqlValueModel::StringArray(strs_view(v@)),
            SqlValue::NameArray(v) => SqlValueModel::NameArray(strs_view(v@)),
            SqlValue::Json(t) => SqlValueModel::Json(t@),
            SqlValue::Timestamp(v) => SqlValueModel::Timestamp(*v),
            SqlValue::CallMetadata(m) => SqlValueModel::CallMetadata(m@),
        }
    }
}

/// A statement to run: SQL text and the values of its placeholders, in order.
#[derive(Debug)]
pub struct Statement {
    pub sql: String,
    pub values: Vec<SqlValue>,
}

/// The models of bound values.
pub open spec fn values_model(vs: Seq<SqlValue>) -> Seq<SqlValueModel> {
    vs.map_values(|v: SqlValue| v@)
}

/// Whether `s` is the statement `sql` with `values`.
pub open spec fn is_statement(s: Statement, sql: Seq<char>, values: Seq<SqlValueModel>) -> bool {
    s.sql@ == sql && values_model(s.values@) == values
}

/// A required text value.
pub open spec fn text_model(s: String) -> SqlValueModel {
    SqlValueModel::Text(Some(s@))
}

/// An optional text value (NULL when absent).
pub open spec fn opt_text_model(s: Option<String>) -> SqlValueModel {
    SqlValueModel::Text(opt_view(s))
}

fn text(s: &String) -> (r: SqlValue)
    ensures
        r@ == text_model(*s),
{
    SqlValue::Text(Some(to_owned(s.as_str())))
}

fn opt_text(s: &Option<String>) -> (r: SqlValue)
    ensures
        r@ == opt_text_model(*s),
{
    match s {
        Some(t) => SqlValue::Text(Some(to_owned(t.as_str()))),
        None => SqlValue::Text(None),
    }
}

fn string_array(v: &Vec<String>) -> (r: SqlValue)
    ensures
        r@ == SqlValueModel::StringArray(strs_view(v@)),
{
    SqlValue::StringArray(copy_strings(v))
}

fn name_array(v: &Vec<String>) -> (r: SqlValue)
    ensures
        r@ == SqlValueModel::NameArray(strs_view(v@)),
{
    SqlValue::NameArray(copy_strings(v))
}

/// The statement `sql` binding `values`.
fn statement(sql: &str, values: Vec<SqlValue>) -> (r: Statement)
    ensures
        r.sql@ == sql@,
        r.values@ == values@,
{
    Statement { sql: to_owned(sql), values }
}

/// Builds the store's statements.
pub struct Store;

/// The placeholder values a trunk's columns take, in column order.
pub open spec fn trunk_fields(t: TrunkInput) -> Seq<SqlValueModel> {
    seq![
        text_model(t.name),
        opt_text_model(t.display_name),
        opt_text_model(t.carrier),
        text_model(t.direction),
        opt_text_model(t.sip_server),
        text_model(t.sip_transport),
        opt_text_model(t.outbound_proxy),
        opt_text_model(t.auth_username),
        opt_text_model(t.auth_password),
        SqlValueModel::Int(t.max_cps),
        SqlValueModel::Int(t.max_concurrent),
        SqlValueModel::StringArray(strs_view(t.allowed_ips@)),
        SqlValueModel::StringArray(strs_view(t.did_numbers@)),
        opt_text_model(t.incoming_from_user_prefix),
        opt_text_model(t.incoming_to_user_prefix),
        SqlValueModel::Bool(t.is_active),
        SqlValueModel::Bool(t.register_enabled),
        SqlValueModel::Int(t.register_expires),
        SqlValueModel::Bool(t.rewrite_hostport),
    ]
}

fn trunk_values(t: &TrunkInput) -> (r: Vec<SqlValue>)
    ensures
        values_model(r@) == trunk_fields(*t),
{
    let r = vec![
        text(&t.name),
        opt_text(&t.display_name),
        opt_text(&t.carrier),
        text(&t.direction),
        opt_text(&t.sip_server),
        text(&t.sip_transport),
        opt_text(&t.outbound_proxy),
        opt_text(&t.auth_username),
        opt_text(&t.auth_password),
        SqlValue::Int(t.max_cps),
        SqlValue::Int(t.max_concurrent),
        string_array(&t.allowed_ips),
        string_array(&t.did_numbers),
        opt_text(&t.incoming_from_user_prefix),
        opt_text(&t.incoming_to_user_prefix),
        SqlValue::Bool(t.is_active),
        SqlValue::Bool(t.register_enabled),
        SqlValue::Int(t.register_expires),
        SqlValue::Bool(t.rewrite_hostport),
    ];
    assert(values_model(r@) =~= trunk_fields(*t));
    r
}

/// The scoped form of a statement: `base`, and where a tenant scope is
/// given, `clause` with the tenant bound last.
pub open spec fn scoped(
    base: Seq<char>,
    values: Seq<SqlValueModel>,
    scope_tenant: Option<i64>,
    clause: Seq<char>,
) -> (Seq<char>, Seq<SqlValueModel>) {
    match scope_tenant {
        Some(t) => (base + clause, values.push(SqlValueModel::BigInt(Some(t)))),
        None => (base, values),
    }
}

/// Appends `clause` and binds the tenant when a scope is given.
fn add_scope(st: &mut Statement, scope_tenant: Option<i64>, clause: &str)
    ensures
        final(st).sql@ == scoped(old(st).sql@, values_model(old(st).values@), scope_tenant, clause@).0,
        values_model(final(st).values@) == scoped(old(st).sql@, values_model(old(st).values@), scope_tenant, clause@).1,
{
    match scope_tenant {
        Some(t) => {
            st.sql.append(clause);
            st.values.push(SqlValue::BigInt(Some(t)));
            assert(values_model(st.values@) =~= values_model(old(st).values@).push(SqlValueModel::BigInt(Some(t))));
        },
        None => {},
    }
}

/// The delete of row `id` of `table`, limited to the tenant's own row when
/// a scope is given.
pub open spec fn delete_scoped_spec(table: Seq<char>, id: i64, scope_tenant: Option<i64>) -> (Seq<char>, Seq<SqlValueModel>) {
    match scope_tenant {
        Some(t) => (
            "DELETE FROM "@ + table + " WHERE id=$1 AND tenant_id=$2"@,
            seq![SqlValueModel::BigInt(Some(id)), SqlValueModel::BigInt(Some(t))],
        ),
        None => ("DELETE FROM "@ + table + " WHERE id=$1"@, seq![SqlValueModel::BigInt(Some(id))]),
    }
}

impl Store {
    /// The count of a tenant's own trunks (global rows excluded).
    pub fn count_trunks_for_tenant(tenant_id: i64) -> (r: Statement)
        ensures
            is_statement(
                r,
                "SELECT COUNT(*) AS cnt FROM rustpbx_sip_trunks WHERE tenant_id = $1"@,
                seq![SqlValueModel::BigInt(Some(tenant_id))],
            ),
    {
        let r = statement(
            "SELECT COUNT(*) AS cnt FROM rustpbx_sip_trunks WHERE tenant_id = $1",
            vec![SqlValue::BigInt(Some(tenant_id))],
        );
        assert(values_model(r.values@) =~= seq![SqlValueModel::BigInt(Some(tenant_id))]);
        r
    }

    /// The insert of a trunk owned by `row_tenant` (none: a global trunk).
    pub fn create_trunk(t: &TrunkInput, row_tenant: Option<i64>) -> (r: Statement)
        ensures
            is_statement(
                r,
                "INSERT INTO rustpbx_sip_trunks \
            (name, display_name, carrier, status, direction, sip_server, sip_transport, \
             outbound_proxy, auth_username, auth_password, max_cps, max_concurrent, \
             allowed_ips, did_numbers, incoming_from_user_prefix, incoming_to_user_prefix, \
             is_active, register_enabled, register_expires, rewrite_hostport, tenant_id) \
            VALUES ($1,$2,$3,'active',$4,$5,$6,$7,$8,$9,$10,$11,$12,$13,$14,$15,$16,$17,$18,$19,$20)"@,
                trunk_fields(*t).push(SqlValueModel::BigInt(row_tenant)),
            ),
    {
        let mut values = trunk_values(t);
        values.push(SqlValue::BigInt(row_tenant));
        let r = statement(
            "INSERT INTO rustpbx_sip_trunks \
            (name, display_name, carrier, status, direction, sip_server, sip_transport, \
             outbound_proxy, auth_username, auth_password, max_cps, max_concurrent, \
             allowed_ips, did_numbers, incoming_from_user_prefix, incoming_to_user_prefix, \
             is_active, register_enabled, register_expires, rewrite_hostport, tenant_id) \
            VALUES ($1,$2,$3,'active',$4,$5,$6,$7,$8,$9,$10,$11,$12,$13,$14,$15,$16,$17,$18,$19,$20)",
            values,
        );
        assert(values_model(r.values@) =~= trunk_fields(*t).push(SqlValueModel::BigInt(row_tenant)));
        r
    }

    /// The full replacement of trunk `id`, limited to the tenant's own row
    /// when a scope is given.
    pub fn update_trunk(id: i64, t: &TrunkInput, scope_tenant: Option<i64>) -> (r: Statement)
        ensures
            (r.sql@, values_model(r.values@)) == scoped(
                "UPDATE rustpbx_sip_trunks SET \
             name=$1, display_name=$2, carrier=$3, direction=$4, sip_server=$5, sip_transport=$6, \
             outbound_proxy=$7, auth_username=$8, auth_password=$9, max_cps=$10, max_concurrent=$11, \
             allowed_ips=$12, did_numbers=$13, incoming_from_user_prefix=$14, \
             incoming_to_user_prefix=$15, is_active=$16, register_enabled=$17, register_expires=$18, \
             rewrite_hostport=$19, updated_at=CURRENT_TIMESTAMP WHERE id=$20"@,
                trunk_fields(*t).push(SqlValueModel::BigInt(Some(id))),
                scope_tenant,
                " AND tenant_id=$21"@,
            ),
    {
        let mut values = trunk_values(t);
        values.push(SqlValue::BigInt(Some(id)));
        let mut r = statement(
            "UPDATE rustpbx_sip_trunks SET \
             name=$1, display_name=$2, carrier=$3, direction=$4, sip_server=$5, sip_transport=$6, \
             outbound_proxy=$7, auth_username=$8, auth_password=$9, max_cps=$10, max_concurrent=$11, \
             allowed_ips=$12, did_numbers=$13, incoming_from_user_prefix=$14, \
             incoming_to_user_prefix=$15, is_active=$16, register_enabled=$17, register_expires=$18, \
             rewrite_hostport=$19, updated_at=CURRENT_TIMESTAMP WHERE id=$20",
            values,
        );
        assert(values_model(r.values@) =~= trunk_fields(*t).push(SqlValueModel::BigInt(Some(id))));
        add_scope(&mut r, scope_tenant, " AND tenant_id=$21");
        r
    }

    /// The delete of row `id` of `table`, limited to the tenant's own row
    /// when a scope is given.
    pub fn delete_scoped(table: &str, id: i64, scope_tenant: Option<i64>) -> (r: Statement)
        ensures
            (r.sql@, values_model(r.values@)) == delete_scoped_spec(table@, id, scope_tenant),
    {
        let mut sql = to_owned("DELETE FROM ");
        sql.append(table);
        match scope_tenant {
            Some(t) => {
                sql.append(" WHERE id=$1 AND tenant_id=$2");
                let r = statement(sql.as_str(), vec![SqlValue::BigInt(Some(id)), SqlValue::BigInt(Some(t))]);
                assert(values_model(r.values@) =~= seq![SqlValueModel::BigInt(Some(id)), SqlValueModel::BigInt(Some(t))]);
                r
            },
            None => {
                sql.append(" WHERE id=$1");
                let r = statement(sql.as_str(), vec![SqlValue::BigInt(Some(id))]);
                assert(values_model(r.values@) =~= seq![SqlValueModel::BigInt(Some(id))]);
                r
            },
        }
    }

    /// The delete of trunk `id`.
    pub fn delete_trunk(id: i64, scope_tenant: Option<i64>) -> (r: Statement)
        ensures
            (r.sql@, values_model(r.values@)) == delete_scoped_spec("rustpbx_sip_trunks"@, id, scope_tenant),
    {
        Store::delete_scoped("rustpbx_sip_trunks", id, scope_tenant)
    }
}

/// A read over a tenant's own and the global rows (`scoped_sql`, binding
/// the tenant), or over every row (`all_sql`) without a tenant.
pub open spec fn by_tenant(tenant_id: Option<i64>, scoped_sql: Seq<char>, all_sql: Seq<char>) -> (Seq<char>, Seq<SqlValueModel>) {
    match tenant_id {
        Some(t) => (scoped_sql, seq![SqlValueModel::BigInt(Some(t))]),
        None => (all_sql, Seq::empty()),
    }
}

fn tenant_select(tenant_id: Option<i64>, scoped_sql: &str, all_sql: &str) -> (r: Statement)
    ensures
        (r.sql@, values_model(r.values@)) == by_tenant(tenant_id, scoped_sql@, all_sql@),
{
    match tenant_id {
        Some(t) => {
            let r = statement(scoped_sql, vec![SqlValue::BigInt(Some(t))]);
            assert(values_model(r.values@) =~= seq![SqlValueModel::BigInt(Some(t))]);
            r
        },
        None => {
            let r = statement(all_sql, Vec::new());
            assert(values_model(r.values@) =~= Seq::<SqlValueModel>::empty());
            r
        },
    }
}

impl Store {
    /// The extensions the admin console lists: a tenant's own and the global ones, or all of them.
    pub fn list_extensions(tenant_id: Option<i64>) -> (r: Statement)
        ensures
            (r.sql@, values_model(r.values@)) == by_tenant(
                tenant_id,
                "SELECT id, extension, tenant_id, display_name, email, status, login_disabled, voicemail_disabled, allow_guest_calls, call_forwarding_mode, call_forwarding_destination, call_forwarding_timeout FROM rustpbx_extensions WHERE tenant_id = $1 OR tenant_id IS NULL ORDER BY extension"@,
                "SELECT id, extension, tenant_id, display_name, email, status, login_disabled, voicemail_disabled, allow_guest_calls, call_forwarding_mode, call_forwarding_destination, call_forwarding_timeout FROM rustpbx_extensions ORDER BY extension"@,
            ),
    {
        tenant_select(
            tenant_id,
            "SELECT id, extension, tenant_id, display_name, email, status, login_disabled, voicemail_disabled, allow_guest_calls, call_forwarding_mode, call_forwarding_destination, call_forwarding_timeout FROM rustpbx_extensions WHERE tenant_id = $1 OR tenant_id IS NULL ORDER BY extension",
            "SELECT id, extension, tenant_id, display_name, email, status, login_disabled, voicemail_disabled, allow_guest_calls, call_forwarding_mode, call_forwarding_destination, call_forwarding_timeout FROM rustpbx_extensions ORDER BY extension",
        )
    }

    /// The ACL rules the admin console lists, by priority then id.
    pub fn list_acl_admin(tenant_id: Option<i64>) -> (r: Statement)
        ensures
            (r.sql@, values_model(r.values@)) == by_tenant(
                tenant_id,
                "SELECT id, tenant_id, action, target, priority, is_active FROM rustpbx_acl_rules WHERE tenant_id = $1 OR tenant_id IS NULL ORDER BY priority ASC, id ASC"@,
                "SELECT id, tenant_id, action, target, priority, is_active FROM rustpbx_acl_rules ORDER BY priority ASC, id ASC"@,
            ),
    {
        tenant_select(
            tenant_id,
            "SELECT id, tenant_id, action, target, priority, is_active FROM rustpbx_acl_rules WHERE tenant_id = $1 OR tenant_id IS NULL ORDER BY priority ASC, id ASC",
            "SELECT id, tenant_id, action, target, priority, is_active FROM rustpbx_acl_rules ORDER BY priority ASC, id ASC",
        )
    }

    /// The queues the admin console lists, by name.
    pub fn list_queues_admin(tenant_id: Option<i64>) -> (r: Statement)
        ensures
            (r.sql@, values_model(r.values@)) == by_tenant(
                tenant_id,
                "SELECT id, name, description, tenant_id, is_active, spec FROM rustpbx_queues WHERE tenant_id = $1 OR tenant_id IS NULL ORDER BY name"@,
                "SELECT id, name, description, tenant_id, is_active, spec FROM rustpbx_queues ORDER BY name"@,
            ),
    {
        tenant_select(
            tenant_id,
            "SELECT id, name, description, tenant_id, is_active, spec FROM rustpbx_queues WHERE tenant_id = $1 OR tenant_id IS NULL ORDER BY name",
            "SELECT id, name, description, tenant_id, is_active, spec FROM rustpbx_queues ORDER BY name",
        )
    }

    /// The IVRs the admin console lists, by name.
    pub fn list_ivrs_admin(tenant_id: Option<i64>) -> (r: Statement)
        ensures
            (r.sql@, values_model(r.values@)) == by_tenant(
                tenant_id,
                "SELECT id, name, description, tenant_id, is_active, spec FROM rustpbx_ivrs WHERE tenant_id = $1 OR tenant_id IS NULL ORDER BY name"@,
                "SELECT id, name, description, tenant_id, is_active, spec FROM rustpbx_ivrs ORDER BY name"@,
            ),
    {
        tenant_select(
            tenant_id,
            "SELECT id, name, description, tenant_id, is_active, spec FROM rustpbx_ivrs WHERE tenant_id = $1 OR tenant_id IS NULL ORDER BY name",
            "SELECT id, name, description, tenant_id, is_active, spec FROM rustpbx_ivrs ORDER BY name",
        )
    }

    /// The trunks the admin console lists, by name; no secret column is read.
    pub fn list_trunks(tenant_id: Option<i64>) -> (r: Statement)
        ensures
            (r.sql@, values_model(r.values@)) == by_tenant(
                tenant_id,
                "SELECT id, name, sip_server, outbound_proxy, sip_transport, auth_username, direction, register_enabled, is_active, allowed_ips, did_numbers, max_concurrent, tenant_id FROM rustpbx_sip_trunks WHERE tenant_id = $1 OR tenant_id IS NULL ORDER BY name"@,
                "SELECT id, name, sip_server, outbound_proxy, sip_transport, auth_username, direction, register_enabled, is_active, allowed_ips, did_numbers, max_concurrent, tenant_id FROM rustpbx_sip_trunks ORDER BY name"@,
            ),
    {
        tenant_select(
            tenant_id,
            "SELECT id, name, sip_server, outbound_proxy, sip_transport, auth_username, direction, register_enabled, is_active, allowed_ips, did_numbers, max_concurrent, tenant_id FROM rustpbx_sip_trunks WHERE tenant_id = $1 OR tenant_id IS NULL ORDER BY name",
            "SELECT id, name, sip_server, outbound_proxy, sip_transport, auth_username, direction, register_enabled, is_active, allowed_ips, did_numbers, max_concurrent, tenant_id FROM rustpbx_sip_trunks ORDER BY name",
        )
    }

    /// The routes the admin console lists, by priority.
    pub fn list_routes(tenant_id: Option<i64>) -> (r: Statement)
        ensures
            (r.sql@, values_model(r.values@)) == by_tenant(
                tenant_id,
                "SELECT id, name, description, priority, direction, source_pattern, destination_pattern, target_trunks, is_active, tenant_id FROM rustpbx_routes WHERE tenant_id = $1 OR tenant_id IS NULL ORDER BY priority ASC"@,
                "SELECT id, name, description, priority, direction, source_pattern, destination_pattern, target_trunks, is_active, tenant_id FROM rustpbx_routes ORDER BY priority ASC"@,
            ),
    {
        tenant_select(
            tenant_id,
            "SELECT id, name, description, priority, direction, source_pattern, destination_pattern, target_trunks, is_active, tenant_id FROM rustpbx_routes WHERE tenant_id = $1 OR tenant_id IS NULL ORDER BY priority ASC",
            "SELECT id, name, description, priority, direction, source_pattern, destination_pattern, target_trunks, is_active, tenant_id FROM rustpbx_routes ORDER BY priority ASC",
        )
    }

    /// The active trunks handed to workers: a tenant's own and the global ones (or all), leaving out those of tenants that are not active, by name.
    pub fn load_trunks(tenant_id: Option<i64>) -> (r: Statement)
        ensures
            (r.sql@, values_model(r.values@)) == by_tenant(
                tenant_id,
                "SELECT id, name, sip_server, outbound_proxy, sip_transport, auth_username, auth_password, direction, is_active, register_enabled, register_expires, register_extra_headers, rewrite_hostport, allowed_ips, did_numbers, incoming_from_user_prefix, incoming_to_user_prefix, max_cps, max_concurrent, metadata FROM rustpbx_sip_trunks WHERE is_active = TRUE AND (tenant_id = $1 OR tenant_id IS NULL) AND (tenant_id IS NULL OR tenant_id NOT IN (SELECT id FROM rustpbx_tenants WHERE status <> 'active')) ORDER BY name"@,
                "SELECT id, name, sip_server, outbound_proxy, sip_transport, auth_username, auth_password, direction, is_active, register_enabled, register_expires, register_extra_headers, rewrite_hostport, allowed_ips, did_numbers, incoming_from_user_prefix, incoming_to_user_prefix, max_cps, max_concurrent, metadata FROM rustpbx_sip_trunks WHERE is_active = TRUE AND (tenant_id IS NULL OR tenant_id NOT IN (SELECT id FROM rustpbx_tenants WHERE status <> 'active')) ORDER BY name"@,
            ),
    {
        tenant_select(
            tenant_id,
            "SELECT id, name, sip_server, outbound_proxy, sip_transport, auth_username, auth_password, direction, is_active, register_enabled, register_expires, register_extra_headers, rewrite_hostport, allowed_ips, did_numbers, incoming_from_user_prefix, incoming_to_user_prefix, max_cps, max_concurrent, metadata FROM rustpbx_sip_trunks WHERE is_active = TRUE AND (tenant_id = $1 OR tenant_id IS NULL) AND (tenant_id IS NULL OR tenant_id NOT IN (SELECT id FROM rustpbx_tenants WHERE status <> 'active')) ORDER BY name",
            "SELECT id, name, sip_server, outbound_proxy, sip_transport, auth_username, auth_password, direction, is_active, register_enabled, register_expires, register_extra_headers, rewrite_hostport, allowed_ips, did_numbers, incoming_from_user_prefix, incoming_to_user_prefix, max_cps, max_concurrent, metadata FROM rustpbx_sip_trunks WHERE is_active = TRUE AND (tenant_id IS NULL OR tenant_id NOT IN (SELECT id FROM rustpbx_tenants WHERE status <> 'active')) ORDER BY name",
        )
    }

    /// The active routes handed to workers, by priority, leaving out those of tenants that are not active.
    pub fn load_routes(tenant_id: Option<i64>) -> (r: Statement)
        ensures
            (r.sql@, values_model(r.values@)) == by_tenant(
                tenant_id,
                "SELECT id, name, description, direction, priority, source_pattern, destination_pattern, header_filters, rewrite_rules, target_trunks, selection_strategy, hash_key, source_trunk_id, metadata FROM rustpbx_routes WHERE is_active = TRUE AND (tenant_id = $1 OR tenant_id IS NULL) AND (tenant_id IS NULL OR tenant_id NOT IN (SELECT id FROM rustpbx_tenants WHERE status <> 'active')) ORDER BY priority ASC"@,
                "SELECT id, name, description, direction, priority, source_pattern, destination_pattern, header_filters, rewrite_rules, target_trunks, selection_strategy, hash_key, source_trunk_id, metadata FROM rustpbx_routes WHERE is_active = TRUE AND (tenant_id IS NULL OR tenant_id NOT IN (SELECT id FROM rustpbx_tenants WHERE status <> 'active')) ORDER BY priority ASC"@,
            ),
    {
        tenant_select(
            tenant_id,
            "SELECT id, name, description, direction, priority, source_pattern, destination_pattern, header_filters, rewrite_rules, target_trunks, selection_strategy, hash_key, source_trunk_id, metadata FROM rustpbx_routes WHERE is_active = TRUE AND (tenant_id = $1 OR tenant_id IS NULL) AND (tenant_id IS NULL OR tenant_id NOT IN (SELECT id FROM rustpbx_tenants WHERE status <> 'active')) ORDER BY priority ASC",
            "SELECT id, name, description, direction, priority, source_pattern, destination_pattern, header_filters, rewrite_rules, target_trunks, selection_strategy, hash_key, source_trunk_id, metadata FROM rustpbx_routes WHERE is_active = TRUE AND (tenant_id IS NULL OR tenant_id NOT IN (SELECT id FROM rustpbx_tenants WHERE status <> 'active')) ORDER BY priority ASC",
        )
    }

    /// The active ACL rules handed to workers, by priority then id, leaving out those of tenants that are not active.
    pub fn load_acl_rules(tenant_id: Option<i64>) -> (r: Statement)
        ensures
            (r.sql@, values_model(r.values@)) == by_tenant(
                tenant_id,
                "SELECT action, target FROM rustpbx_acl_rules WHERE is_active = TRUE AND (tenant_id = $1 OR tenant_id IS NULL) AND (tenant_id IS NULL OR tenant_id NOT IN (SELECT id FROM rustpbx_tenants WHERE status <> 'active')) ORDER BY priority ASC, id ASC"@,
                "SELECT action, target FROM rustpbx_acl_rules WHERE is_active = TRUE AND (tenant_id IS NULL OR tenant_id NOT IN (SELECT id FROM rustpbx_tenants WHERE status <> 'active')) ORDER BY priority ASC, id ASC"@,
            ),
    {
        tenant_select(
            tenant_id,
            "SELECT action, target FROM rustpbx_acl_rules WHERE is_active = TRUE AND (tenant_id = $1 OR tenant_id IS NULL) AND (tenant_id IS NULL OR tenant_id NOT IN (SELECT id FROM rustpbx_tenants WHERE status <> 'active')) ORDER BY priority ASC, id ASC",
            "SELECT action, target FROM rustpbx_acl_rules WHERE is_active = TRUE AND (tenant_id IS NULL OR tenant_id NOT IN (SELECT id FROM rustpbx_tenants WHERE status <> 'active')) ORDER BY priority ASC, id ASC",
        )
    }

    /// The active queues handed to workers, by name, leaving out those of tenants that are not active.
    pub fn load_queues(tenant_id: Option<i64>) -> (r: Statement)
        ensures
            (r.sql@, values_model(r.values@)) == by_tenant(
                tenant_id,
                "SELECT name, spec FROM rustpbx_queues WHERE is_active = TRUE AND (tenant_id = $1 OR tenant_id IS NULL) AND (tenant_id IS NULL OR tenant_id NOT IN (SELECT id FROM rustpbx_tenants WHERE status <> 'active')) ORDER BY name"@,
                "SELECT name, spec FROM rustpbx_queues WHERE is_active = TRUE AND (tenant_id IS NULL OR tenant_id NOT IN (SELECT id FROM rustpbx_tenants WHERE status <> 'active')) ORDER BY name"@,
            ),
    {
        tenant_select(
            tenant_id,
            "SELECT name, spec FROM rustpbx_queues WHERE is_active = TRUE AND (tenant_id = $1 OR tenant_id IS NULL) AND (tenant_id IS NULL OR tenant_id NOT IN (SELECT id FROM rustpbx_tenants WHERE status <> 'active')) ORDER BY name",
            "SELECT name, spec FROM rustpbx_queues WHERE is_active = TRUE AND (tenant_id IS NULL OR tenant_id NOT IN (SELECT id FROM rustpbx_tenants WHERE status <> 'active')) ORDER BY name",
        )
    }

    /// The active IVRs handed to workers, by name, leaving out those of tenants that are not active.
    pub fn load_ivrs(tenant_id: Option<i64>) -> (r: Statement)
        ensures
            (r.sql@, values_model(r.values@)) == by_tenant(
                tenant_id,
                "SELECT name, spec FROM rustpbx_ivrs WHERE is_active = TRUE AND (tenant_id = $1 OR tenant_id IS NULL) AND (tenant_id IS NULL OR tenant_id NOT IN (SELECT id FROM rustpbx_tenants WHERE status <> 'active')) ORDER BY name"@,
                "SELECT name, spec FROM rustpbx_ivrs WHERE is_active = TRUE AND (tenant_id IS NULL OR tenant_id NOT IN (SELECT id FROM rustpbx_tenants WHERE status <> 'active')) ORDER BY name"@,
            ),
    {
        tenant_select(
            tenant_id,
            "SELECT name, spec FROM rustpbx_ivrs WHERE is_active = TRUE AND (tenant_id = $1 OR tenant_id IS NULL) AND (tenant_id IS NULL OR tenant_id NOT IN (SELECT id FROM rustpbx_tenants WHERE status <> 'active')) ORDER BY name",
            "SELECT name, spec FROM rustpbx_ivrs WHERE is_active = TRUE AND (tenant_id IS NULL OR tenant_id NOT IN (SELECT id FROM rustpbx_tenants WHERE status <> 'active')) ORDER BY name",
        )
    }

}

/// The placeholder values a route's columns take, in column order.
pub open spec fn route_fields(r: RouteInput) -> Seq<SqlValueModel> {
    seq![
        text_model(r.name),
        opt_text_model(r.description),
        text_model(r.direction),
        SqlValueModel::Int(Some(r.priority)),
        SqlValueModel::Bool(r.is_active),
        text_model(r.selection_strategy),
        opt_text_model(r.hash_key),
        opt_text_model(r.source_pattern),
        opt_text_model(r.destination_pattern),
        SqlValueModel::NameArray(strs_view(r.target_trunks@)),
    ]
}

fn route_values(r: &RouteInput) -> (v: Vec<SqlValue>)
    ensures
        values_model(v@) == route_fields(*r),
{
    let v = vec![
        text(&r.name),
        opt_text(&r.description),
        text(&r.direction),
        SqlValue::Int(Some(r.priority)),
        SqlValue::Bool(r.is_active),
        text(&r.selection_strategy),
        opt_text(&r.hash_key),
        opt_text(&r.source_pattern),
        opt_text(&r.destination_pattern),
        name_array(&r.target_trunks),
    ];
    assert(values_model(v@) =~= route_fields(*r));
    v
}

/// The placeholder values an extension's columns take when it is created.
pub open spec fn extension_insert_fields(e: ExtensionInput, row_tenant: Option<i64>) -> Seq<SqlValueModel> {
    seq![
        text_model(e.extension),
        SqlValueModel::BigInt(row_tenant),
        opt_text_model(e.display_name),
        opt_text_model(e.email),
        opt_text_model(e.status),
        SqlValueModel::Bool(e.login_disabled),
        SqlValueModel::Bool(e.voicemail_disabled),
        SqlValueModel::Bool(e.allow_guest_calls),
        opt_text_model(e.sip_password),
        opt_text_model(e.call_forwarding_mode),
        opt_text_model(e.call_forwarding_destination),
        SqlValueModel::Int(e.call_forwarding_timeout),
    ]
}

/// The placeholder values an update sets on an extension, before the
/// password.
pub open spec fn extension_update_fields(e: ExtensionInput) -> Seq<SqlValueModel> {
    seq![
        text_model(e.extension),
        opt_text_model(e.display_name),
        opt_text_model(e.email),
        opt_text_model(e.status),
        SqlValueModel::Bool(e.login_disabled),
        SqlValueModel::Bool(e.voicemail_disabled),
        SqlValueModel::Bool(e.allow_guest_calls),
        opt_text_model(e.call_forwarding_mode),
        opt_text_model(e.call_forwarding_destination),
        SqlValueModel::Int(e.call_forwarding_timeout),
    ]
}

/// Whether an update replaces the stored SIP password: only when a
/// non-empty one is given.
pub open spec fn sets_password(e: ExtensionInput) -> bool {
    e.sip_password matches Some(p) && p@.len() > 0
}

/// The update of extension `id`: the password only when one is given, and
/// limited to the tenant's own row when a scope is given. Placeholders are
/// numbered in the order their values are bound.
pub open spec fn update_extension_spec(id: i64, e: ExtensionInput, scope_tenant: Option<i64>) -> (
    Seq<char>,
    Seq<SqlValueModel>,
) {
    let base = "UPDATE rustpbx_extensions SET extension=$1, display_name=$2, email=$3, status=$4, login_disabled=$5, voicemail_disabled=$6, allow_guest_calls=$7, call_forwarding_mode=$8, call_forwarding_destination=$9, call_forwarding_timeout=$10, updated_at=CURRENT_TIMESTAMP"@;
    let (s1, v1) = if sets_password(e) {
        (base + ", sip_password=$11"@, extension_update_fields(e).push(opt_text_model(e.sip_password)))
    } else {
        (base, extension_update_fields(e))
    };
    let n: nat = if sets_password(e) {
        12
    } else {
        11
    };
    let s2 = s1 + " WHERE id=$"@ + dec(n);
    let v2 = v1.push(SqlValueModel::BigInt(Some(id)));
    match scope_tenant {
        Some(t) => (s2 + " AND tenant_id=$"@ + dec(n + 1), v2.push(SqlValueModel::BigInt(Some(t)))),
        None => (s2, v2),
    }
}

/// The placeholder values of an ACL rule's columns, after its tenant.
pub open spec fn acl_fields(a: AclInput) -> Seq<SqlValueModel> {
    seq![text_model(a.action), text_model(a.target), SqlValueModel::Int(Some(a.priority)), SqlValueModel::Bool(a.is_active)]
}

fn acl_values(a: &AclInput) -> (v: Vec<SqlValue>)
    ensures
        values_model(v@) == acl_fields(*a),
{
    let v = vec![text(&a.action), text(&a.target), SqlValue::Int(Some(a.priority)), SqlValue::Bool(a.is_active)];
    assert(values_model(v@) =~= acl_fields(*a));
    v
}

/// The placeholder values of a queue's or an IVR's columns.
pub open spec fn spec_row_fields(name: String, description: Option<String>, spec: String, is_active: bool) -> Seq<SqlValueModel> {
    seq![text_model(name), opt_text_model(description), SqlValueModel::Json(spec@), SqlValueModel::Bool(is_active)]
}

fn spec_row_values(name: &String, description: &Option<String>, spec: &String, is_active: bool) -> (v: Vec<SqlValue>)
    ensures
        values_model(v@) == spec_row_fields(*name, *description, *spec, is_active),
{
    let v = vec![text(name), opt_text(description), SqlValue::Json(to_owned(spec.as_str())), SqlValue::Bool(is_active)];
    assert(values_model(v@) =~= spec_row_fields(*name, *description, *spec, is_active));
    v
}

impl Store {
    /// The insert of a route owned by `row_tenant` (none: a global route).
    pub fn create_route(r: &RouteInput, row_tenant: Option<i64>) -> (st: Statement)
        ensures
            is_statement(st, "INSERT INTO rustpbx_routes (name, description, direction, priority, is_active, selection_strategy, hash_key, source_pattern, destination_pattern, target_trunks, tenant_id) VALUES ($1,$2,$3,$4,$5,$6,$7,$8,$9,$10,$11)"@, route_fields(*r).push(SqlValueModel::BigInt(row_tenant))),
    {
        let mut values = route_values(r);
        values.push(SqlValue::BigInt(row_tenant));
        let st = statement("INSERT INTO rustpbx_routes (name, description, direction, priority, is_active, selection_strategy, hash_key, source_pattern, destination_pattern, target_trunks, tenant_id) VALUES ($1,$2,$3,$4,$5,$6,$7,$8,$9,$10,$11)", values);
        assert(values_model(st.values@) =~= route_fields(*r).push(SqlValueModel::BigInt(row_tenant)));
        st
    }

    /// The full replacement of route `id`, limited to the tenant's own row
    /// when a scope is given.
    pub fn update_route(id: i64, r: &RouteInput, scope_tenant: Option<i64>) -> (st: Statement)
        ensures
            (st.sql@, values_model(st.values@)) == scoped(
                "UPDATE rustpbx_routes SET name=$1, description=$2, direction=$3, priority=$4, is_active=$5, selection_strategy=$6, hash_key=$7, source_pattern=$8, destination_pattern=$9, target_trunks=$10, updated_at=CURRENT_TIMESTAMP WHERE id=$11"@,
                route_fields(*r).push(SqlValueModel::BigInt(Some(id))),
                scope_tenant,
                " AND tenant_id=$12"@,
            ),
    {
        let mut values = route_values(r);
        values.push(SqlValue::BigInt(Some(id)));
        let mut st = statement("UPDATE rustpbx_routes SET name=$1, description=$2, direction=$3, priority=$4, is_active=$5, selection_strategy=$6, hash_key=$7, source_pattern=$8, destination_pattern=$9, target_trunks=$10, updated_at=CURRENT_TIMESTAMP WHERE id=$11", values);
        assert(values_model(st.values@) =~= route_fields(*r).push(SqlValueModel::BigInt(Some(id))));
        add_scope(&mut st, scope_tenant, " AND tenant_id=$12");
        st
    }

    /// The delete of route `id`.
    pub fn delete_route(id: i64, scope_tenant: Option<i64>) -> (r: Statement)
        ensures
            (r.sql@, values_model(r.values@)) == delete_scoped_spec("rustpbx_routes"@, id, scope_tenant),
    {
        Store::delete_scoped("rustpbx_routes", id, scope_tenant)
    }

    /// The insert of an extension owned by `row_tenant`.
    pub fn create_extension(e: &ExtensionInput, row_tenant: Option<i64>) -> (r: Statement)
        ensures
            is_statement(r, "INSERT INTO rustpbx_extensions (extension, tenant_id, display_name, email, status, login_disabled, voicemail_disabled, allow_guest_calls, sip_password, call_forwarding_mode, call_forwarding_destination, call_forwarding_timeout) VALUES ($1,$2,$3,$4,$5,$6,$7,$8,$9,$10,$11,$12)"@, extension_insert_fields(*e, row_tenant)),
    {
        let r = statement(
            "INSERT INTO rustpbx_extensions (extension, tenant_id, display_name, email, status, login_disabled, voicemail_disabled, allow_guest_calls, sip_password, call_forwarding_mode, call_forwarding_destination, call_forwarding_timeout) VALUES ($1,$2,$3,$4,$5,$6,$7,$8,$9,$10,$11,$12)",
            vec![
                text(&e.extension),
                SqlValue::BigInt(row_tenant),
                opt_text(&e.display_name),
                opt_text(&e.email),
                opt_text(&e.status),
                SqlValue::Bool(e.login_disabled),
                SqlValue::Bool(e.voicemail_disabled),
                SqlValue::Bool(e.allow_guest_calls),
                opt_text(&e.sip_password),
                opt_text(&e.call_forwarding_mode),
                opt_text(&e.call_forwarding_destination),
                SqlValue::Int(e.call_forwarding_timeout),
            ],
        );
        assert(values_model(r.values@) =~= extension_insert_fields(*e, row_tenant));
        r
    }

    /// The update of extension `id`; the stored SIP password is kept unless
    /// a non-empty one is given.
    pub fn update_extension(id: i64, e: &ExtensionInput, scope_tenant: Option<i64>) -> (r: Statement)
        ensures
            (r.sql@, values_model(r.values@)) == update_extension_spec(id, *e, scope_tenant),
    {
        let set_pw = replaces_sip_password(e);
        let mut values = vec![
            text(&e.extension),
            opt_text(&e.display_name),
            opt_text(&e.email),
            opt_text(&e.status),
            SqlValue::Bool(e.login_disabled),
            SqlValue::Bool(e.voicemail_disabled),
            SqlValue::Bool(e.allow_guest_calls),
            opt_text(&e.call_forwarding_mode),
            opt_text(&e.call_forwarding_destination),
            SqlValue::Int(e.call_forwarding_timeout),
        ];
        let mut sql = to_owned("UPDATE rustpbx_extensions SET extension=$1, display_name=$2, email=$3, status=$4, login_disabled=$5, voicemail_disabled=$6, allow_guest_calls=$7, call_forwarding_mode=$8, call_forwarding_destination=$9, call_forwarding_timeout=$10, updated_at=CURRENT_TIMESTAMP");
        assert(values_model(values@) =~= extension_update_fields(*e));
        let ghost v1 = values_model(values@);
        let mut n: u64 = 10;
        if set_pw {
            n = n + 1;
            sql.append(", sip_password=$11");
            values.push(opt_text(&e.sip_password));
            assert(values_model(values@) =~= v1.push(opt_text_model(e.sip_password)));
        }
        let ghost v2 = values_model(values@);
        n = n + 1;
        sql.append(" WHERE id=$");
        let ns = u64_to_string(n);
        sql.append(ns.as_str());
        values.push(SqlValue::BigInt(Some(id)));
        assert(values_model(values@) =~= v2.push(SqlValueModel::BigInt(Some(id))));
        let ghost v3 = values_model(values@);
        match scope_tenant {
            Some(t) => {
                n = n + 1;
                sql.append(" AND tenant_id=$");
                let ns = u64_to_string(n);
                sql.append(ns.as_str());
                values.push(SqlValue::BigInt(Some(t)));
                assert(values_model(values@) =~= v3.push(SqlValueModel::BigInt(Some(t))));
            },
            None => {},
        }
        Statement { sql, values }
    }

    /// The delete of extension `id`.
    pub fn delete_extension(id: i64, scope_tenant: Option<i64>) -> (r: Statement)
        ensures
            (r.sql@, values_model(r.values@)) == delete_scoped_spec("rustpbx_extensions"@, id, scope_tenant),
    {
        Store::delete_scoped("rustpbx_extensions", id, scope_tenant)
    }

    /// The insert of an ACL rule owned by `row_tenant`.
    pub fn create_acl(a: &AclInput, row_tenant: Option<i64>) -> (r: Statement)
        ensures
            is_statement(r, "INSERT INTO rustpbx_acl_rules (tenant_id, action, target, priority, is_active) VALUES ($1,$2,$3,$4,$5)"@, seq![SqlValueModel::BigInt(row_tenant)] + acl_fields(*a)),
    {
        let mut values = vec![SqlValue::BigInt(row_tenant)];
        let mut rest = acl_values(a);
        values.append(&mut rest);
        let r = statement("INSERT INTO rustpbx_acl_rules (tenant_id, action, target, priority, is_active) VALUES ($1,$2,$3,$4,$5)", values);
        assert(values_model(r.values@) =~= seq![SqlValueModel::BigInt(row_tenant)] + acl_fields(*a));
        r
    }

    /// The update of ACL rule `id`, limited to the tenant's own row when a
    /// scope is given.
    pub fn update_acl(id: i64, a: &AclInput, scope_tenant: Option<i64>) -> (r: Statement)
        ensures
            (r.sql@, values_model(r.values@)) == scoped(
                "UPDATE rustpbx_acl_rules SET action=$1, target=$2, priority=$3, is_active=$4 WHERE id=$5"@,
                acl_fields(*a).push(SqlValueModel::BigInt(Some(id))),
                scope_tenant,
                " AND tenant_id=$6"@,
            ),
    {
        let mut values = acl_values(a);
        values.push(SqlValue::BigInt(Some(id)));
        let mut r = statement("UPDATE rustpbx_acl_rules SET action=$1, target=$2, priority=$3, is_active=$4 WHERE id=$5", values);
        assert(values_model(r.values@) =~= acl_fields(*a).push(SqlValueModel::BigInt(Some(id))));
        add_scope(&mut r, scope_tenant, " AND tenant_id=$6");
        r
    }

    /// The delete of ACL rule `id`.
    pub fn delete_acl(id: i64, scope_tenant: Option<i64>) -> (r: Statement)
        ensures
            (r.sql@, values_model(r.values@)) == delete_scoped_spec("rustpbx_acl_rules"@, id, scope_tenant),
    {
        Store::delete_scoped("rustpbx_acl_rules", id, scope_tenant)
    }

    /// The insert of a queue owned by `row_tenant`.
    pub fn create_queue(x: &QueueInput, row_tenant: Option<i64>) -> (r: Statement)
        ensures
            is_statement(
                r,
                "INSERT INTO rustpbx_queues (name, description, spec, is_active, tenant_id) VALUES ($1,$2,$3,$4,$5)"@,
                spec_row_fields(x.name, x.description, x.spec, x.is_active).push(SqlValueModel::BigInt(row_tenant)),
            ),
    {
        let mut values = spec_row_values(&x.name, &x.description, &x.spec, x.is_active);
        values.push(SqlValue::BigInt(row_tenant));
        let r = statement("INSERT INTO rustpbx_queues (name, description, spec, is_active, tenant_id) VALUES ($1,$2,$3,$4,$5)", values);
        assert(values_model(r.values@) =~= spec_row_fields(x.name, x.description, x.spec, x.is_active).push(
            SqlValueModel::BigInt(row_tenant),
        ));
        r
    }

    /// The update of queue `id`, limited to the tenant's own row when a
    /// scope is given.
    pub fn update_queue(id: i64, x: &QueueInput, scope_tenant: Option<i64>) -> (r: Statement)
        ensures
            (r.sql@, values_model(r.values@)) == scoped(
                "UPDATE rustpbx_queues SET name=$1, description=$2, spec=$3, is_active=$4, updated_at=CURRENT_TIMESTAMP WHERE id=$5"@,
                spec_row_fields(x.name, x.description, x.spec, x.is_active).push(SqlValueModel::BigInt(Some(id))),
                scope_tenant,
                " AND tenant_id=$6"@,
            ),
    {
        let mut values = spec_row_values(&x.name, &x.description, &x.spec, x.is_active);
        values.push(SqlValue::BigInt(Some(id)));
        let mut r = statement("UPDATE rustpbx_queues SET name=$1, description=$2, spec=$3, is_active=$4, updated_at=CURRENT_TIMESTAMP WHERE id=$5", values);
        assert(values_model(r.values@) =~= spec_row_fields(x.name, x.description, x.spec, x.is_active).push(
            SqlValueModel::BigInt(Some(id)),
        ));
        add_scope(&mut r, scope_tenant, " AND tenant_id=$6");
        r
    }

    /// The delete of queue `id`.
    pub fn delete_queue(id: i64, scope_tenant: Option<i64>) -> (r: Statement)
        ensures
            (r.sql@, values_model(r.values@)) == delete_scoped_spec("rustpbx_queues"@, id, scope_tenant),
    {
        Store::delete_scoped("rustpbx_queues", id, scope_tenant)
    }

    /// The insert of a IVR owned by `row_tenant`.
    pub fn create_ivr(x: &IvrInput, row_tenant: Option<i64>) -> (r: Statement)
        ensures
            is_statement(
                r,
                "INSERT INTO rustpbx_ivrs (name, description, spec, is_active, tenant_id) VALUES ($1,$2,$3,$4,$5)"@,
                spec_row_fields(x.name, x.description, x.spec, x.is_active).push(SqlValueModel::BigInt(row_tenant)),
            ),
    {
        let mut values = spec_row_values(&x.name, &x.description, &x.spec, x.is_active);
        values.push(SqlValue::BigInt(row_tenant));
        let r = statement("INSERT INTO rustpbx_ivrs (name, description, spec, is_active, tenant_id) VALUES ($1,$2,$3,$4,$5)", values);
        assert(values_model(r.values@) =~= spec_row_fields(x.name, x.description, x.spec, x.is_active).push(
            SqlValueModel::BigInt(row_tenant),
        ));
        r
    }

    /// The update of IVR `id`, limited to the tenant's own row when a
    /// scope is given.
    pub fn update_ivr(id: i64, x: &IvrInput, scope_tenant: Option<i64>) -> (r: Statement)
        ensures
            (r.sql@, values_model(r.values@)) == scoped(
                "UPDATE rustpbx_ivrs SET name=$1, description=$2, spec=$3, is_active=$4, updated_at=CURRENT_TIMESTAMP WHERE id=$5"@,
                spec_row_fields(x.name, x.description, x.spec, x.is_active).push(SqlValueModel::BigInt(Some(id))),
                scope_tenant,
                " AND tenant_id=$6"@,
            ),
    {
        let mut values = spec_row_values(&x.name, &x.description, &x.spec, x.is_active);
        values.push(SqlValue::BigInt(Some(id)));
        let mut r = statement("UPDATE rustpbx_ivrs SET name=$1, description=$2, spec=$3, is_active=$4, updated_at=CURRENT_TIMESTAMP WHERE id=$5", values);
        assert(values_model(r.values@) =~= spec_row_fields(x.name, x.description, x.spec, x.is_active).push(
            SqlValueModel::BigInt(Some(id)),
        ));
        add_scope(&mut r, scope_tenant, " AND tenant_id=$6");
        r
    }

    /// The delete of IVR `id`.
    pub fn delete_ivr(id: i64, scope_tenant: Option<i64>) -> (r: Statement)
        ensures
            (r.sql@, values_model(r.values@)) == delete_scoped_spec("rustpbx_ivrs"@, id, scope_tenant),
    {
        Store::delete_scoped("rustpbx_ivrs", id, scope_tenant)
    }

    /// The read of a tenant's concurrency limit.
    pub fn tenant_max_concurrent(tenant_id: i64) -> (r: Statement)
        ensures
            is_statement(r, "SELECT max_concurrent_calls FROM rustpbx_tenants WHERE id = $1"@, seq![SqlValueModel::BigInt(Some(tenant_id))]),
    {
        let r = statement("SELECT max_concurrent_calls FROM rustpbx_tenants WHERE id = $1", vec![SqlValue::BigInt(Some(tenant_id))]);
        assert(values_model(r.values@) =~= seq![SqlValueModel::BigInt(Some(tenant_id))]);
        r
    }
}

/// One filter of the call-record listing.
pub ghost enum CdrFilter {
    Tenant(i64),
    Search(Seq<char>),
    Status(Seq<char>),
    Direction(Seq<char>),
    Since(i64),
    Until(i64),
}

/// The filters a listing applies, in the order their conditions are written.
pub open spec fn cdr_filters(o: CdrListOpts) -> Seq<CdrFilter> {
    let f1 = match o.tenant_id {
        Some(t) => seq![CdrFilter::Tenant(t)],
        None => Seq::empty(),
    };
    let f2 = match text_filter(o.search) {
        Some(s) => f1.push(CdrFilter::Search(s)),
        None => f1,
    };
    let f3 = match text_filter(o.status) {
        Some(s) => f2.push(CdrFilter::Status(s)),
        None => f2,
    };
    let f4 = match text_filter(o.direction) {
        Some(s) => f3.push(CdrFilter::Direction(s)),
        None => f3,
    };
    let f5 = match o.since {
        Some(t) => f4.push(CdrFilter::Since(t)),
        None => f4,
    };
    match o.until {
        Some(t) => f5.push(CdrFilter::Until(t)),
        None => f5,
    }
}

/// The `LIKE` pattern of a search: the text anywhere.
pub open spec fn like_pattern(s: Seq<char>) -> Seq<char> {
    seq!['%'] + s + seq!['%']
}

/// The values a filter binds.
pub open spec fn filter_values(f: CdrFilter) -> Seq<SqlValueModel> {
    match f {
        CdrFilter::Tenant(t) => seq![SqlValueModel::BigInt(Some(t))],
        CdrFilter::Search(s) => seq![SqlValueModel::Text(Some(like_pattern(s))), SqlValueModel::Text(Some(like_pattern(s)))],
        CdrFilter::Status(s) => seq![SqlValueModel::Text(Some(s))],
        CdrFilter::Direction(s) => seq![SqlValueModel::Text(Some(s))],
        CdrFilter::Since(t) => seq![SqlValueModel::Timestamp(Some(t))],
        CdrFilter::Until(t) => seq![SqlValueModel::Timestamp(Some(t))],
    }
}

/// The condition a filter writes after `n` values are bound.
pub open spec fn filter_cond(f: CdrFilter, n: nat) -> Seq<char> {
    match f {
        CdrFilter::Tenant(_) => "tenant_id = $"@ + dec(n + 1),
        CdrFilter::Search(_) => "(from_number LIKE $"@ + dec(n + 1) + " OR to_number LIKE $"@ + dec(n + 2) + ")"@,
        CdrFilter::Status(_) => "status = $"@ + dec(n + 1),
        CdrFilter::Direction(_) => "direction = $"@ + dec(n + 1),
        CdrFilter::Since(_) => "started_at >= $"@ + dec(n + 1),
        CdrFilter::Until(_) => "started_at <= $"@ + dec(n + 1),
    }
}

/// The values the filters bind, in order.
pub open spec fn filter_params(fs: Seq<CdrFilter>) -> Seq<SqlValueModel>
    decreases fs.len(),
{
    if fs.len() == 0 {
        Seq::empty()
    } else {
        filter_params(fs.drop_last()) + filter_values(fs.last())
    }
}

/// The `WHERE` clause of the filters (`WHERE c1 AND c2 ...`), empty without
/// any; each condition numbers its placeholders after those before it.
pub open spec fn where_clause(fs: Seq<CdrFilter>) -> Seq<char>
    decreases fs.len(),
{
    if fs.len() == 0 {
        Seq::empty()
    } else if fs.len() == 1 {
        "WHERE "@ + filter_cond(fs[0], 0)
    } else {
        where_clause(fs.drop_last()) + " AND "@ + filter_cond(fs.last(), filter_params(fs.drop_last()).len())
    }
}

/// The page size a listing uses: 1 to 500.
pub open spec fn page_limit(limit: u64) -> u64 {
    if limit < 1 {
        1
    } else if limit > 500 {
        500
    } else {
        limit
    }
}

/// The statements of a call-record listing: the count of matching rows and
/// one page of them, newest first.
pub struct CdrQuery {
    pub count: Statement,
    pub page: Statement,
}

/// The text before a filter's condition: `WHERE ` first, ` AND ` after.
pub open spec fn connector(w: Seq<char>) -> Seq<char> {
    if w.len() == 0 {
        "WHERE "@
    } else {
        " AND "@
    }
}

proof fn lemma_filter_push(fs: Seq<CdrFilter>, f: CdrFilter)
    ensures
        filter_params(fs.push(f)) == filter_params(fs) + filter_values(f),
        where_clause(fs.push(f)) == (if fs.len() == 0 {
            "WHERE "@ + filter_cond(f, 0)
        } else {
            where_clause(fs) + " AND "@ + filter_cond(f, filter_params(fs).len())
        }),
{
    assert(fs.push(f).drop_last() =~= fs);
    if fs.len() == 0 {
        assert(fs.push(f)[0] == f);
    }
}

proof fn lemma_where_empty(fs: Seq<CdrFilter>)
    ensures
        (where_clause(fs).len() == 0) == (fs.len() == 0),
    decreases fs.len(),
{
    if fs.len() > 1 {
        lemma_where_empty(fs.drop_last());
    }
}

fn add_connector(w: &mut String)
    ensures
        final(w)@ == old(w)@ + connector(old(w)@),
{
    if w.as_str().is_empty() {
        w.append("WHERE ");
    } else {
        w.append(" AND ");
    }
}

/// Appends `prefix` and the number of the next placeholder, binding `v`.
fn add_single(w: &mut String, vals: &mut Vec<SqlValue>, prefix: &str, v: SqlValue)
    requires
        old(vals)@.len() < 1000,
    ensures
        final(w)@ == old(w)@ + connector(old(w)@) + prefix@ + dec((old(vals)@.len() + 1) as nat),
        values_model(final(vals)@) == values_model(old(vals)@).push(v@),
        final(vals)@.len() == old(vals)@.len() + 1,
{
    add_connector(w);
    w.append(prefix);
    let n = u64_to_string((vals.len() + 1) as u64);
    w.append(n.as_str());
    let ghost before = values_model(vals@);
    vals.push(v);
    assert(values_model(vals@) =~= before.push(v@));
}

/// Appends filter `f`, which binds the one value `v` and writes
/// `prefix` and its placeholder number, to the clause and values of `fs`.
fn step_single(
    w: &mut String,
    vals: &mut Vec<SqlValue>,
    Ghost(fs): Ghost<Seq<CdrFilter>>,
    Ghost(f): Ghost<CdrFilter>,
    prefix: &str,
    v: SqlValue,
)
    requires
        old(w)@ == where_clause(fs),
        values_model(old(vals)@) == filter_params(fs),
        old(vals)@.len() < 1000,
        filter_values(f) == seq![v@],
        filter_cond(f, old(vals)@.len() as nat) == prefix@ + dec((old(vals)@.len() + 1) as nat),
    ensures
        final(w)@ == where_clause(fs.push(f)),
        values_model(final(vals)@) == filter_params(fs.push(f)),
        final(vals)@.len() == old(vals)@.len() + 1,
{
    proof {
        lemma_filter_push(fs, f);
        lemma_where_empty(fs);
        assert(filter_params(fs).len() == vals@.len());
    }
    add_single(w, vals, prefix, v);
}

/// Appends the search filter on `s`: two `LIKE` conditions, each binding
/// the pattern.
fn step_search(w: &mut String, vals: &mut Vec<SqlValue>, Ghost(fs): Ghost<Seq<CdrFilter>>, s: &String)
    requires
        old(w)@ == where_clause(fs),
        values_model(old(vals)@) == filter_params(fs),
        old(vals)@.len() < 1000,
    ensures
        final(w)@ == where_clause(fs.push(CdrFilter::Search(s@))),
        values_model(final(vals)@) == filter_params(fs.push(CdrFilter::Search(s@))),
        final(vals)@.len() == old(vals)@.len() + 2,
{
    let ghost f = CdrFilter::Search(s@);
    proof {
        lemma_filter_push(fs, f);
        lemma_where_empty(fs);
        assert(filter_params(fs).len() == vals@.len());
    }
    let mut like = String::new();
    like.append("%");
    like.append(s.as_str());
    like.append("%");
    proof {
        reveal_strlit("%");
    }
    assert(like@ =~= like_pattern(s@));
    let like2 = to_owned(like.as_str());
    add_connector(w);
    w.append("(from_number LIKE $");
    let a = u64_to_string((vals.len() + 1) as u64);
    w.append(a.as_str());
    w.append(" OR to_number LIKE $");
    let b = u64_to_string((vals.len() + 2) as u64);
    w.append(b.as_str());
    w.append(")");
    let ghost before = values_model(vals@);
    vals.push(SqlValue::Text(Some(like)));
    vals.push(SqlValue::Text(Some(like2)));
    assert(values_model(vals@) =~= before + filter_values(f));
}

/// The `WHERE` clause of a listing and the values it binds.
fn cdr_where(o: &CdrListOpts) -> (r: (String, Vec<SqlValue>))
    ensures
        r.0@ == where_clause(cdr_filters(*o)),
        values_model(r.1@) == filter_params(cdr_filters(*o)),
{
    let mut w = String::new();
    let mut vals: Vec<SqlValue> = Vec::new();
    let ghost mut fs = Seq::<CdrFilter>::empty();
    assert(values_model(vals@) =~= filter_params(fs));
    if let Some(t) = o.tenant_id {
        step_single(&mut w, &mut vals, Ghost(fs), Ghost(CdrFilter::Tenant(t)), "tenant_id = $", SqlValue::BigInt(Some(t)));
        proof {
            fs = fs.push(CdrFilter::Tenant(t));
        }
    }
    assert(vals@.len() <= 1);
    if let Some(s) = normalize_filter(&o.search) {
        step_search(&mut w, &mut vals, Ghost(fs), &s);
        proof {
            fs = fs.push(CdrFilter::Search(s@));
        }
    }
    assert(vals@.len() <= 3);
    if let Some(s) = normalize_filter(&o.status) {
        let ghost sv = s@;
        step_single(&mut w, &mut vals, Ghost(fs), Ghost(CdrFilter::Status(sv)), "status = $", SqlValue::Text(Some(s)));
        proof {
            fs = fs.push(CdrFilter::Status(sv));
        }
    }
    assert(vals@.len() <= 4);
    if let Some(s) = normalize_filter(&o.direction) {
        let ghost sv = s@;
        step_single(&mut w, &mut vals, Ghost(fs), Ghost(CdrFilter::Direction(sv)), "direction = $", SqlValue::Text(Some(s)));
        proof {
            fs = fs.push(CdrFilter::Direction(sv));
        }
    }
    assert(vals@.len() <= 5);
    if let Some(t) = o.since {
        step_single(&mut w, &mut vals, Ghost(fs), Ghost(CdrFilter::Since(t)), "started_at >= $", SqlValue::Timestamp(Some(t)));
        proof {
            fs = fs.push(CdrFilter::Since(t));
        }
    }
    assert(vals@.len() <= 6);
    if let Some(t) = o.until {
        step_single(&mut w, &mut vals, Ghost(fs), Ghost(CdrFilter::Until(t)), "started_at <= $", SqlValue::Timestamp(Some(t)));
        proof {
            fs = fs.push(CdrFilter::Until(t));
        }
    }
    assert(fs == cdr_filters(*o));
    (w, vals)
}

/// The row count a count statement read, never below zero.
pub fn count_total(cnt: Option<i64>) -> (r: u64)
    ensures
        r == (match cnt {
            Some(c) => if c > 0 {
                c as u64
            } else {
                0
            },
            None => 0,
        }),
{
    match cnt {
        Some(c) => if c > 0 {
            c as u64
        } else {
            0
        },
        None => 0,
    }
}

impl Store {
    /// The statements of the call-record listing: the count of the rows that
    /// pass every filter, and the page of them after `offset`, newest first.
    pub fn list_call_records_paged(opts: &CdrListOpts) -> (r: CdrQuery)
        ensures
            r.count.sql@ == "SELECT COUNT(*) AS cnt FROM rustpbx_call_records "@ + where_clause(cdr_filters(*opts)),
            values_model(r.count.values@) == filter_params(cdr_filters(*opts)),
            r.page.sql@ == "SELECT id, call_id, tenant_id, direction, status, from_number, to_number, started_at, ended_at, duration_secs, recording_url FROM rustpbx_call_records "@
                + where_clause(cdr_filters(*opts)) + " ORDER BY started_at DESC LIMIT "@ + dec(page_limit(opts.limit) as nat)
                + " OFFSET "@ + dec(opts.offset as nat),
            values_model(r.page.values@) == filter_params(cdr_filters(*opts)),
    {
        let (w, vals) = cdr_where(opts);
        let (w2, vals2) = cdr_where(opts);
        let mut count = to_owned("SELECT COUNT(*) AS cnt FROM rustpbx_call_records ");
        count.append(w.as_str());
        let limit: u64 = if opts.limit < 1 {
            1
        } else if opts.limit > 500 {
            500
        } else {
            opts.limit
        };
        let mut page = to_owned(
            "SELECT id, call_id, tenant_id, direction, status, from_number, to_number, started_at, ended_at, duration_secs, recording_url FROM rustpbx_call_records ",
        );
        page.append(w2.as_str());
        page.append(" ORDER BY started_at DESC LIMIT ");
        let l = u64_to_string(limit);
        page.append(l.as_str());
        page.append(" OFFSET ");
        let off = u64_to_string(opts.offset);
        page.append(off.as_str());
        CdrQuery { count: Statement { sql: count, values: vals }, page: Statement { sql: page, values: vals2 } }
    }
}

/// A call record as a worker reports it when the call ends. Times are
/// milliseconds since the epoch; an answer time of zero or less means the
/// call was not answered.
pub struct CallRecordReport {
    pub call_id: String,
    pub tenant_id: Option<i64>,
    pub caller: String,
    pub callee: String,
    pub direction: String,
    pub status: String,
    pub start_time_unix_ms: i64,
    pub answer_time_unix_ms: i64,
    pub end_time_unix_ms: i64,
    pub duration_secs: i32,
    pub trunk_name: Option<String>,
    pub worker_id: Option<String>,
    pub edge_id: Option<String>,
    pub recording_path: Option<String>,
    pub hangup_cause: Option<i32>,
}

/// Whether `chrono::Utc.timestamp_millis_opt(ms)` names a single instant,
/// that is, `ms` is within chrono's range.
pub uninterp spec fn utc_millis_valid(ms: i64) -> bool;

/// `chrono::Utc.timestamp_millis_opt(ms).single()` is some.
#[verifier::external_body]
fn utc_millis_ok(ms: i64) -> (b: bool)
    ensures
        b == utc_millis_valid(ms),
{
    chrono::TimeZone::timestamp_millis_opt(&chrono::Utc, ms).single().is_some()
}

/// A reported instant as stored: NULL when chrono cannot represent it.
pub open spec fn stored_instant(ms: i64) -> Option<i64> {
    if utc_millis_valid(ms) {
        Some(ms)
    } else {
        None
    }
}

fn instant_value(ms: i64) -> (r: SqlValue)
    ensures
        r@ == SqlValueModel::Timestamp(stored_instant(ms)),
{
    if utc_millis_ok(ms) {
        SqlValue::Timestamp(Some(ms))
    } else {
        SqlValue::Timestamp(None)
    }
}

fn copy_opt(s: &Option<String>) -> (r: Option<String>)
    ensures
        opt_view(r) == opt_view(*s),
{
    match s {
        Some(t) => Some(to_owned(t.as_str())),
        None => None,
    }
}

/// The metadata stored with a reported call: who handled it, the
/// recording and hangup cause, the tenant as reported, the trunk, and the
/// answer time when the call was answered.
pub open spec fn cdr_metadata(rec: CallRecordReport) -> CdrMetadataModel {
    CdrMetadataModel {
        worker_id: opt_view(rec.worker_id),
        edge_id: opt_view(rec.edge_id),
        recording_path: opt_view(rec.recording_path),
        hangup_cause: rec.hangup_cause,
        tenant_id: rec.tenant_id,
        sip_trunk_name: opt_view(rec.trunk_name),
        answer_time_unix_ms: if rec.answer_time_unix_ms > 0 {
            Some(rec.answer_time_unix_ms)
        } else {
            None
        },
    }
}

/// The values a reported call is stored with: its tenant only when not
/// zero, its recording URL only when not empty.
pub open spec fn cdr_values(rec: CallRecordReport) -> Seq<SqlValueModel> {
    seq![
        text_model(rec.call_id),
        text_model(rec.caller),
        text_model(rec.callee),
        text_model(rec.direction),
        text_model(rec.status),
        SqlValueModel::Timestamp(stored_instant(rec.start_time_unix_ms)),
        SqlValueModel::Timestamp(stored_instant(rec.end_time_unix_ms)),
        SqlValueModel::Int(Some(rec.duration_secs)),
        SqlValueModel::BigInt(
            match rec.tenant_id {
                Some(t) => if t != 0 {
                    Some(t)
                } else {
                    None
                },
                None => None,
            },
        ),
        SqlValueModel::Text(
            match rec.recording_path {
                Some(p) => if p@.len() > 0 {
                    Some(p@)
                } else {
                    None
                },
                None => None,
            },
        ),
        SqlValueModel::CallMetadata(cdr_metadata(rec)),
    ]
}

/// Whether `s` is the insert of the reported call `rec`; a call already
/// stored is left as it is.
pub open spec fn stores_cdr(s: Statement, rec: CallRecordReport) -> bool {
    is_statement(
        s,
        "INSERT INTO rustpbx_call_records (call_id, from_number, to_number, direction, status, started_at, ended_at, duration_secs, tenant_id, recording_url, metadata) VALUES ($1,$2,$3,$4,$5,$6,$7,$8,$9,$10,$11) ON CONFLICT (call_id) DO NOTHING"@,
        cdr_values(rec),
    )
}

impl Store {
    /// The insert of a reported call; a call already stored is left as it is.
    pub fn persist_cdr(rec: &CallRecordReport) -> (r: Statement)
        ensures
            stores_cdr(r, *rec),
    {
        let tenant_id = match rec.tenant_id {
            Some(t) => if t != 0 {
                Some(t)
            } else {
                None
            },
            None => None,
        };
        let recording_url = match &rec.recording_path {
            Some(p) => if p.as_str().is_empty() {
                None
            } else {
                Some(to_owned(p.as_str()))
            },
            None => None,
        };
        let meta = CdrMetadata {
            worker_id: copy_opt(&rec.worker_id),
            edge_id: copy_opt(&rec.edge_id),
            recording_path: copy_opt(&rec.recording_path),
            hangup_cause: rec.hangup_cause,
            tenant_id: rec.tenant_id,
            sip_trunk_name: copy_opt(&rec.trunk_name),
            answer_time_unix_ms: if rec.answer_time_unix_ms > 0 {
                Some(rec.answer_time_unix_ms)
            } else {
                None
            },
        };
        let r = statement(
            "INSERT INTO rustpbx_call_records (call_id, from_number, to_number, direction, status, started_at, ended_at, duration_secs, tenant_id, recording_url, metadata) VALUES ($1,$2,$3,$4,$5,$6,$7,$8,$9,$10,$11) ON CONFLICT (call_id) DO NOTHING",
            vec![
                text(&rec.call_id),
                text(&rec.caller),
                text(&rec.callee),
                text(&rec.direction),
                text(&rec.status),
                instant_value(rec.start_time_unix_ms),
                instant_value(rec.end_time_unix_ms),
                SqlValue::Int(Some(rec.duration_secs)),
                SqlValue::BigInt(tenant_id),
                SqlValue::Text(recording_url),
                SqlValue::CallMetadata(meta),
            ],
        );
        assert(values_model(r.values@) =~= cdr_values(*rec));
        r
    }
}

/// The queue or IVR spec handed to workers: the stored JSON text, `{}`
/// when none is stored.
pub fn distributed_spec(spec: Option<String>) -> (r: String)
    ensures
        r@ == (match spec {
            Some(t) => t@,
            None => "{}"@,
        }),
{
    match spec {
        Some(t) => t,
        None => to_owned("{}"),
    }
}

} // verus!
