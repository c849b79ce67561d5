//! The control plane's schema migrations: the order in which they run and
//! the steps each column migration takes on a given database.
//!
//! Running a step against the database is the caller's work; what is decided
//! here is which migrations run, in what order, and which steps each one
//! takes given what the database already holds.

use vstd::prelude::*;

verus! {

/// A table of the control plane's schema.
#[derive(Clone, Copy, Debug, PartialEq, Eq, Structural)]
pub enum SchemaTable {
    Tenants,
    DidNumbers,
    TenantUsers,
    PlatformSettings,
    SipTrunks,
    Routes,
    CallRecords,
    AclRules,
    Extensions,
}

/// What a migration does: create a table, or alter one that exists.
#[derive(Clone, Copy, Debug, PartialEq, Eq, Structural)]
pub enum MigrationTarget {
    Create(SchemaTable),
    Alter(SchemaTable),
}

/// The control plane's migrations.
#[derive(Clone, Copy, Debug, PartialEq, Eq, Structural)]
pub enum MigrationId {
    Tenant,
    DidNumber,
    TenantUser,
    CreatePlatformSettings,
    CreateSipTrunks,
    CreateRouting,
    CreateCallRecords,
    CreateAclRules,
    CreateExtensions,
    AddTenantIdToTrunks,
    AddTenantIdToRouting,
    AddTenantIdToCallRecords,
    AddTenantIdToExtensions,
    AddDomainToTenants,
}

/// The table each migration creates or alters.
pub open spec fn target_of(m: MigrationId) -> MigrationTarget {
    match m {
        MigrationId::Tenant => MigrationTarget::Create(SchemaTable::Tenants),
        MigrationId::DidNumber => MigrationTarget::Create(SchemaTable::DidNumbers),
        MigrationId::TenantUser => MigrationTarget::Create(SchemaTable::TenantUsers),
        MigrationId::CreatePlatformSettings => MigrationTarget::Create(SchemaTable::PlatformSettings),
        MigrationId::CreateSipTrunks => MigrationTarget::Create(SchemaTable::SipTrunks),
        MigrationId::CreateRouting => MigrationTarget::Create(SchemaTable::Routes),
        MigrationId::CreateCallRecords => MigrationTarget::Create(SchemaTable::CallRecords),
        MigrationId::CreateAclRules => MigrationTarget::Create(SchemaTable::AclRules),
        MigrationId::CreateExtensions => MigrationTarget::Create(SchemaTable::Extensions),
        MigrationId::AddTenantIdToTrunks => MigrationTarget::Alter(SchemaTable::SipTrunks),
        MigrationId::AddTenantIdToRouting => MigrationTarget::Alter(SchemaTable::Routes),
        MigrationId::AddTenantIdToCallRecords => MigrationTarget::Alter(SchemaTable::CallRecords),
        MigrationId::AddTenantIdToExtensions => MigrationTarget::Alter(SchemaTable::Extensions),
        MigrationId::AddDomainToTenants => MigrationTarget::Alter(SchemaTable::Tenants),
    }
}

impl MigrationId {
    /// The table this migration creates or alters.
    pub fn target(&self) -> (r: MigrationTarget)
        ensures
            r == target_of(*self),
    {
        match self {
            MigrationId::Tenant => MigrationTarget::Create(SchemaTable::Tenants),
            MigrationId::DidNumber => MigrationTarget::Create(SchemaTable::DidNumbers),
            MigrationId::TenantUser => MigrationTarget::Create(SchemaTable::TenantUsers),
            MigrationId::CreatePlatformSettings => MigrationTarget::Create(SchemaTable::PlatformSettings),
            MigrationId::CreateSipTrunks => MigrationTarget::Create(SchemaTable::SipTrunks),
            MigrationId::CreateRouting => MigrationTarget::Create(SchemaTable::Routes),
            MigrationId::CreateCallRecords => MigrationTarget::Create(SchemaTable::CallRecords),
            MigrationId::CreateAclRules => MigrationTarget::Create(SchemaTable::AclRules),
            MigrationId::CreateExtensions => MigrationTarget::Create(SchemaTable::Extensions),
            MigrationId::AddTenantIdToTrunks => MigrationTarget::Alter(SchemaTable::SipTrunks),
            MigrationId::AddTenantIdToRouting => MigrationTarget::Alter(SchemaTable::Routes),
            MigrationId::AddTenantIdToCallRecords => MigrationTarget::Alter(SchemaTable::CallRecords),
            MigrationId::AddTenantIdToExtensions => MigrationTarget::Alter(SchemaTable::Extensions),
            MigrationId::AddDomainToTenants => MigrationTarget::Alter(SchemaTable::Tenants),
        }
    }
}

/// The order in which the migrations run: the control plane's own tables,
/// then the base tables, then the columns added to existing tables.
pub open spec fn migration_order() -> Seq<MigrationId> {
    seq![
        MigrationId::Tenant,
        MigrationId::DidNumber,
        MigrationId::TenantUser,
        MigrationId::CreatePlatformSettings,
        MigrationId::CreateSipTrunks,
        MigrationId::CreateRouting,
        MigrationId::CreateCallRecords,
        MigrationId::CreateAclRules,
        MigrationId::CreateExtensions,
        MigrationId::AddTenantIdToTrunks,
        MigrationId::AddTenantIdToRouting,
        MigrationId::AddTenantIdToCallRecords,
        MigrationId::AddTenantIdToExtensions,
        MigrationId::AddDomainToTenants,
    ]
}

/// Runs the control plane's migrations.
pub struct ControlMigrator;

impl ControlMigrator {
    /// The migrations, in the order they run.
    pub fn migrations() -> (r: Vec<MigrationId>)
        ensures
            r@ == migration_order(),
    {
        let r = vec![
            MigrationId::Tenant,
            MigrationId::DidNumber,
            MigrationId::TenantUser,
            MigrationId::CreatePlatformSettings,
            MigrationId::CreateSipTrunks,
            MigrationId::CreateRouting,
            MigrationId::CreateCallRecords,
            MigrationId::CreateAclRules,
            MigrationId::CreateExtensions,
            MigrationId::AddTenantIdToTrunks,
            MigrationId::AddTenantIdToRouting,
            MigrationId::AddTenantIdToCallRecords,
            MigrationId::AddTenantIdToExtensions,
            MigrationId::AddDomainToTenants,
        ];
        assert(r@ =~= migration_order());
        r
    }
}

/// Whether every migration that alters a table runs after one that creates it.
pub open spec fn creates_before_alters(ms: Seq<MigrationId>) -> bool {
    forall|i: int|
        0 <= i < ms.len() && (#[trigger] target_of(ms[i])) is Alter ==> exists|j: int|
            0 <= j < i && target_of(ms[j]) == MigrationTarget::Create(target_of(ms[i])->Alter_0)
}

/// Whether no migration occurs twice.
pub open spec fn runs_once(ms: Seq<MigrationId>) -> bool {
    forall|i: int, j: int| 0 <= i < j < ms.len() ==> ms[i] != ms[j]
}

/// The position of each migration in `migration_order`.
spec fn rank(m: MigrationId) -> int {
    match m {
        MigrationId::Tenant => 0,
        MigrationId::DidNumber => 1,
        MigrationId::TenantUser => 2,
        MigrationId::CreatePlatformSettings => 3,
        MigrationId::CreateSipTrunks => 4,
        MigrationId::CreateRouting => 5,
        MigrationId::CreateCallRecords => 6,
        MigrationId::CreateAclRules => 7,
        MigrationId::CreateExtensions => 8,
        MigrationId::AddTenantIdToTrunks => 9,
        MigrationId::AddTenantIdToRouting => 10,
        MigrationId::AddTenantIdToCallRecords => 11,
        MigrationId::AddTenantIdToExtensions => 12,
        MigrationId::AddDomainToTenants => 13,
    }
}

proof fn lemma_order_entries()
    ensures
        migration_order().len() == 14,
        migration_order()[0] == MigrationId::Tenant,
        migration_order()[1] == MigrationId::DidNumber,
        migration_order()[2] == MigrationId::TenantUser,
        migration_order()[3] == MigrationId::CreatePlatformSettings,
        migration_order()[4] == MigrationId::CreateSipTrunks,
        migration_order()[5] == MigrationId::CreateRouting,
        migration_order()[6] == MigrationId::CreateCallRecords,
        migration_order()[7] == MigrationId::CreateAclRules,
        migration_order()[8] == MigrationId::CreateExtensions,
        migration_order()[9] == MigrationId::AddTenantIdToTrunks,
        migration_order()[10] == MigrationId::AddTenantIdToRouting,
        migration_order()[11] == MigrationId::AddTenantIdToCallRecords,
        migration_order()[12] == MigrationId::AddTenantIdToExtensions,
        migration_order()[13] == MigrationId::AddDomainToTenants,
{
    let ms = migration_order();
    assert(ms[0] == MigrationId::Tenant);
    assert(ms[1] == MigrationId::DidNumber);
    assert(ms[2] == MigrationId::TenantUser);
    assert(ms[3] == MigrationId::CreatePlatformSettings);
    assert(ms[4] == MigrationId::CreateSipTrunks);
    assert(ms[5] == MigrationId::CreateRouting);
    assert(ms[6] == MigrationId::CreateCallRecords);
    assert(ms[7] == MigrationId::CreateAclRules);
    assert(ms[8] == MigrationId::CreateExtensions);
    assert(ms[9] == MigrationId::AddTenantIdToTrunks);
    assert(ms[10] == MigrationId::AddTenantIdToRouting);
    assert(ms[11] == MigrationId::AddTenantIdToCallRecords);
    assert(ms[12] == MigrationId::AddTenantIdToExtensions);
    assert(ms[13] == MigrationId::AddDomainToTenants);
}

proof fn lemma_ranks()
    ensures
        forall|i: int| 0 <= i < 14 ==> rank(#[trigger] migration_order()[i]) == i,
{
    let ms = migration_order();
    lemma_order_entries();
    assert forall|i: int| 0 <= i < 14 implies rank(#[trigger] ms[i]) == i by {
        // one case per position
        if i < 7 {
            if i == 0 {
            } else if i == 1 {
            } else if i == 2 {
            } else if i == 3 {
            } else if i == 4 {
            } else if i == 5 {
            }
        } else {
            if i == 7 {
            } else if i == 8 {
            } else if i == 9 {
            } else if i == 10 {
            } else if i == 11 {
            } else if i == 12 {
            }
        }
    }
}

proof fn lemma_creates_before_alters()
    ensures
        creates_before_alters(migration_order()),
{
    let ms = migration_order();
    lemma_order_entries();
    lemma_ranks();
    assert forall|i: int|
        0 <= i < ms.len() && (#[trigger] target_of(ms[i])) is Alter implies exists|j: int|
            0 <= j < i && target_of(ms[j]) == MigrationTarget::Create(target_of(ms[i])->Alter_0) by {
        assert(rank(ms[i]) == i);
        if i == 9 {
            assert(target_of(ms[4]) == MigrationTarget::Create(SchemaTable::SipTrunks));
        } else if i == 10 {
            assert(target_of(ms[5]) == MigrationTarget::Create(SchemaTable::Routes));
        } else if i == 11 {
            assert(target_of(ms[6]) == MigrationTarget::Create(SchemaTable::CallRecords));
        } else if i == 12 {
            assert(target_of(ms[8]) == MigrationTarget::Create(SchemaTable::Extensions));
        } else {
            assert(target_of(ms[0]) == MigrationTarget::Create(SchemaTable::Tenants));
        }
    }
}

proof fn lemma_runs_once()
    ensures
        runs_once(migration_order()),
{
    let ms = migration_order();
    lemma_ranks();
    assert forall|i: int, j: int| 0 <= i < j < ms.len() implies ms[i] != ms[j] by {
        lemma_order_entries();
        assert(rank(ms[i]) == i);
        assert(rank(ms[j]) == j);
    }
}

/// Each table is created before any migration alters it, and no migration
/// runs twice.
pub proof fn law_tables_created_before_altered()
    ensures
        creates_before_alters(migration_order()),
        runs_once(migration_order()),
{
    lemma_creates_before_alters();
    lemma_runs_once();
}

/// One change a column migration makes to the schema.
#[derive(Clone, Copy, Debug, PartialEq, Eq, Structural)]
pub enum SchemaStep {
    /// Add the nullable `tenant_id` column.
    AddTenantIdColumn,
    /// Index the `tenant_id` column.
    CreateTenantIdIndex,
    /// Add the nullable `custom_domain` column.
    AddCustomDomain,
    /// Add `custom_domain_enabled`, false by default.
    AddCustomDomainEnabled,
    /// Create the call-records table (`call_records_table`) if it is missing.
    CreateCallRecordsTable,
    /// Create the unique index on the call records' `call_id`.
    CreateCallIdIndex,
}

/// The steps that add `tenant_id` to a table: none where the table is
/// missing (the main binary provisions it) or already has the column.
pub open spec fn tenant_column_plan(has_table: bool, has_column: bool) -> Seq<SchemaStep> {
    if has_table && !has_column {
        seq![SchemaStep::AddTenantIdColumn, SchemaStep::CreateTenantIdIndex]
    } else {
        Seq::empty()
    }
}

/// The steps that add the custom-domain columns to the tenants table: each
/// column that is missing is added.
pub open spec fn domain_column_plan(has_custom_domain: bool, has_enabled: bool) -> Seq<SchemaStep> {
    (if has_custom_domain {
        Seq::empty()
    } else {
        seq![SchemaStep::AddCustomDomain]
    }) + (if has_enabled {
        Seq::empty()
    } else {
        seq![SchemaStep::AddCustomDomainEnabled]
    })
}

/// The steps of a `tenant_id` column migration, given whether the table and
/// the column exist.
pub fn tenant_column_steps(has_table: bool, has_column: bool) -> (r: Vec<SchemaStep>)
    ensures
        r@ == tenant_column_plan(has_table, has_column),
{
    let mut r: Vec<SchemaStep> = Vec::new();
    if has_table && !has_column {
        r.push(SchemaStep::AddTenantIdColumn);
        r.push(SchemaStep::CreateTenantIdIndex);
    }
    assert(r@ =~= tenant_column_plan(has_table, has_column));
    r
}

/// The steps of the custom-domain migration, given which of its columns exist.
pub fn domain_column_steps(has_custom_domain: bool, has_enabled: bool) -> (r: Vec<SchemaStep>)
    ensures
        r@ == domain_column_plan(has_custom_domain, has_enabled),
{
    let mut r: Vec<SchemaStep> = Vec::new();
    if !has_custom_domain {
        r.push(SchemaStep::AddCustomDomain);
    }
    if !has_enabled {
        r.push(SchemaStep::AddCustomDomainEnabled);
    }
    assert(r@ =~= domain_column_plan(has_custom_domain, has_enabled));
    r
}

/// The column migrations are idempotent: once their steps have run, running
/// them again changes nothing.
pub proof fn law_column_migrations_idempotent(
    has_table: bool,
    has_column: bool,
    has_custom_domain: bool,
    has_enabled: bool,
)
    ensures
        tenant_column_plan(
            has_table,
            has_column || tenant_column_plan(has_table, has_column).contains(
                SchemaStep::AddTenantIdColumn,
            ),
        ) == Seq::<SchemaStep>::empty(),
        domain_column_plan(
            has_custom_domain || domain_column_plan(has_custom_domain, has_enabled).contains(
                SchemaStep::AddCustomDomain,
            ),
            has_enabled || domain_column_plan(has_custom_domain, has_enabled).contains(
                SchemaStep::AddCustomDomainEnabled,
            ),
        ) == Seq::<SchemaStep>::empty(),
{
    let t = tenant_column_plan(has_table, has_column);
    if has_table && !has_column {
        assert(t[0] == SchemaStep::AddTenantIdColumn);
    }
    let d = domain_column_plan(has_custom_domain, has_enabled);
    if !has_custom_domain {
        assert(d[0] == SchemaStep::AddCustomDomain);
    }
    if !has_enabled {
        assert(d[d.len() - 1] == SchemaStep::AddCustomDomainEnabled);
    }
    assert(domain_column_plan(true, true) =~= Seq::<SchemaStep>::empty());
}


/// The type of a column of the call-records table.
#[derive(Clone, Copy, Debug, PartialEq, Eq, Structural)]
pub enum ColumnKind {
    /// A big-integer primary key that increments itself.
    BigIntKey,
    /// A string of at most the given length.
    Varchar(u32),
    Text,
    TimestampTz,
    Integer,
    BigInt,
    Boolean,
    Json,
}

/// Whether a column is declared nullable, declared not null, or left to the
/// type's default.
#[derive(Clone, Copy, Debug, PartialEq, Eq, Structural)]
pub enum Nullability {
    Null,
    NotNull,
    Unstated,
}

/// A column's default value.
#[derive(Clone, Copy, Debug, PartialEq, Eq, Structural)]
pub enum ColumnDefault {
    Nothing,
    CurrentTimestamp,
    Int(i64),
    Bool(bool),
    /// The text `pending`.
    Pending,
}

/// One column of a table definition.
#[derive(Clone, Copy, Debug)]
pub struct Column {
    pub name: &'static str,
    pub kind: ColumnKind,
    pub nullability: Nullability,
    pub default: ColumnDefault,
}

/// What a column definition says.
pub ghost struct ColumnModel {
    pub name: Seq<char>,
    pub kind: ColumnKind,
    pub nullability: Nullability,
    pub default: ColumnDefault,
}

/// The model of a column.
pub open spec fn column_model(c: Column) -> ColumnModel {
    ColumnModel { name: c.name@, kind: c.kind, nullability: c.nullability, default: c.default }
}

fn column(name: &'static str, kind: ColumnKind, nullability: Nullability, default: ColumnDefault) -> (r: Column)
    ensures
        column_model(r) == (ColumnModel { name: name@, kind, nullability, default }),
{
    Column { name, kind, nullability, default }
}

/// The columns of the call-records table, in order. Links to departments,
/// extensions, trunks and routes are plain nullable ids: those tables may
/// be missing where only the control plane runs.
pub open spec fn call_records_columns() -> Seq<ColumnModel> {
    seq![
        ColumnModel { name: "id"@, kind: ColumnKind::BigIntKey, nullability: Nullability::NotNull, default: ColumnDefault::Nothing },
        ColumnModel { name: "call_id"@, kind: ColumnKind::Varchar(120), nullability: Nullability::NotNull, default: ColumnDefault::Nothing },
        ColumnModel { name: "display_id"@, kind: ColumnKind::Varchar(120), nullability: Nullability::Null, default: ColumnDefault::Nothing },
        ColumnModel { name: "direction"@, kind: ColumnKind::Varchar(16), nullability: Nullability::NotNull, default: ColumnDefault::Nothing },
        ColumnModel { name: "status"@, kind: ColumnKind::Varchar(32), nullability: Nullability::NotNull, default: ColumnDefault::Nothing },
        ColumnModel { name: "started_at"@, kind: ColumnKind::TimestampTz, nullability: Nullability::Unstated, default: ColumnDefault::CurrentTimestamp },
        ColumnModel { name: "ended_at"@, kind: ColumnKind::TimestampTz, nullability: Nullability::Null, default: ColumnDefault::Nothing },
        ColumnModel { name: "duration_secs"@, kind: ColumnKind::Integer, nullability: Nullability::NotNull, default: ColumnDefault::Int(0) },
        ColumnModel { name: "from_number"@, kind: ColumnKind::Varchar(64), nullability: Nullability::Null, default: ColumnDefault::Nothing },
        ColumnModel { name: "to_number"@, kind: ColumnKind::Varchar(64), nullability: Nullability::Null, default: ColumnDefault::Nothing },
        ColumnModel { name: "caller_name"@, kind: ColumnKind::Varchar(160), nullability: Nullability::Null, default: ColumnDefault::Nothing },
        ColumnModel { name: "agent_name"@, kind: ColumnKind::Varchar(160), nullability: Nullability::Null, default: ColumnDefault::Nothing },
        ColumnModel { name: "queue"@, kind: ColumnKind::Varchar(120), nullability: Nullability::Null, default: ColumnDefault::Nothing },
        ColumnModel { name: "department_id"@, kind: ColumnKind::BigInt, nullability: Nullability::Null, default: ColumnDefault::Nothing },
        ColumnModel { name: "extension_id"@, kind: ColumnKind::BigInt, nullability: Nullability::Null, default: ColumnDefault::Nothing },
        ColumnModel { name: "sip_trunk_id"@, kind: ColumnKind::BigInt, nullability: Nullability::Null, default: ColumnDefault::Nothing },
        ColumnModel { name: "route_id"@, kind: ColumnKind::BigInt, nullability: Nullability::Null, default: ColumnDefault::Nothing },
        ColumnModel { name: "sip_gateway"@, kind: ColumnKind::Varchar(160), nullability: Nullability::Null, default: ColumnDefault::Nothing },
        ColumnModel { name: "rewrite_original_from"@, kind: ColumnKind::Varchar(128), nullability: Nullability::Null, default: ColumnDefault::Nothing },
        ColumnModel { name: "rewrite_original_to"@, kind: ColumnKind::Varchar(128), nullability: Nullability::Null, default: ColumnDefault::Nothing },
        ColumnModel { name: "caller_uri"@, kind: ColumnKind::Text, nullability: Nullability::Null, default: ColumnDefault::Nothing },
        ColumnModel { name: "callee_uri"@, kind: ColumnKind::Text, nullability: Nullability::Null, default: ColumnDefault::Nothing },
        ColumnModel { name: "recording_url"@, kind: ColumnKind::Varchar(255), nullability: Nullability::Null, default: ColumnDefault::Nothing },
        ColumnModel { name: "recording_duration_secs"@, kind: ColumnKind::Integer, nullability: Nullability::Null, default: ColumnDefault::Nothing },
        ColumnModel { name: "has_transcript"@, kind: ColumnKind::Boolean, nullability: Nullability::NotNull, default: ColumnDefault::Bool(false) },
        ColumnModel { name: "transcript_status"@, kind: ColumnKind::Varchar(32), nullability: Nullability::NotNull, default: ColumnDefault::Pending },
        ColumnModel { name: "transcript_language"@, kind: ColumnKind::Varchar(16), nullability: Nullability::Null, default: ColumnDefault::Nothing },
        ColumnModel { name: "tags"@, kind: ColumnKind::Json, nullability: Nullability::Null, default: ColumnDefault::Nothing },
        ColumnModel { name: "leg_timeline"@, kind: ColumnKind::Json, nullability: Nullability::Null, default: ColumnDefault::Nothing },
        ColumnModel { name: "metadata"@, kind: ColumnKind::Json, nullability: Nullability::Null, default: ColumnDefault::Nothing },
        ColumnModel { name: "created_at"@, kind: ColumnKind::TimestampTz, nullability: Nullability::Unstated, default: ColumnDefault::CurrentTimestamp },
        ColumnModel { name: "updated_at"@, kind: ColumnKind::TimestampTz, nullability: Nullability::Unstated, default: ColumnDefault::CurrentTimestamp },
        ColumnModel { name: "archived_at"@, kind: ColumnKind::TimestampTz, nullability: Nullability::Null, default: ColumnDefault::Nothing },
    ]
}

/// The columns the call-records table is created with.
pub fn call_records_table() -> (r: Vec<Column>)
    ensures
        r@.map_values(|c: Column| column_model(c)) == call_records_columns(),
{
    let r = vec![
        column("id", ColumnKind::BigIntKey, Nullability::NotNull, ColumnDefault::Nothing),
        column("call_id", ColumnKind::Varchar(120), Nullability::NotNull, ColumnDefault::Nothing),
        column("display_id", ColumnKind::Varchar(120), Nullability::Null, ColumnDefault::Nothing),
        column("direction", ColumnKind::Varchar(16), Nullability::NotNull, ColumnDefault::Nothing),
        column("status", ColumnKind::Varchar(32), Nullability::NotNull, ColumnDefault::Nothing),
        column("started_at", ColumnKind::TimestampTz, Nullability::Unstated, ColumnDefault::CurrentTimestamp),
        column("ended_at", ColumnKind::TimestampTz, Nullability::Null, ColumnDefault::Nothing),
        column("duration_secs", ColumnKind::Integer, Nullability::NotNull, ColumnDefault::Int(0)),
        column("from_number", ColumnKind::Varchar(64), Nullability::Null, ColumnDefault::Nothing),
        column("to_number", ColumnKind::Varchar(64), Nullability::Null, ColumnDefault::Nothing),
        column("caller_name", ColumnKind::Varchar(160), Nullability::Null, ColumnDefault::Nothing),
        column("agent_name", ColumnKind::Varchar(160), Nullability::Null, ColumnDefault::Nothing),
        column("queue", ColumnKind::Varchar(120), Nullability::Null, ColumnDefault::Nothing),
        column("department_id", ColumnKind::BigInt, Nullability::Null, ColumnDefault::Nothing),
        column("extension_id", ColumnKind::BigInt, Nullability::Null, ColumnDefault::Nothing),
        column("sip_trunk_id", ColumnKind::BigInt, Nullability::Null, ColumnDefault::Nothing),
        column("route_id", ColumnKind::BigInt, Nullability::Null, ColumnDefault::Nothing),
        column("sip_gateway", ColumnKind::Varchar(160), Nullability::Null, ColumnDefault::Nothing),
        column("rewrite_original_from", ColumnKind::Varchar(128), Nullability::Null, ColumnDefault::Nothing),
        column("rewrite_original_to", ColumnKind::Varchar(128), Nullability::Null, ColumnDefault::Nothing),
        column("caller_uri", ColumnKind::Text, Nullability::Null, ColumnDefault::Nothing),
        column("callee_uri", ColumnKind::Text, Nullability::Null, ColumnDefault::Nothing),
        column("recording_url", ColumnKind::Varchar(255), Nullability::Null, ColumnDefault::Nothing),
        column("recording_duration_secs", ColumnKind::Integer, Nullability::Null, ColumnDefault::Nothing),
        column("has_transcript", ColumnKind::Boolean, Nullability::NotNull, ColumnDefault::Bool(false)),
        column("transcript_status", ColumnKind::Varchar(32), Nullability::NotNull, ColumnDefault::Pending),
        column("transcript_language", ColumnKind::Varchar(16), Nullability::Null, ColumnDefault::Nothing),
        column("tags", ColumnKind::Json, Nullability::Null, ColumnDefault::Nothing),
        column("leg_timeline", ColumnKind::Json, Nullability::Null, ColumnDefault::Nothing),
        column("metadata", ColumnKind::Json, Nullability::Null, ColumnDefault::Nothing),
        column("created_at", ColumnKind::TimestampTz, Nullability::Unstated, ColumnDefault::CurrentTimestamp),
        column("updated_at", ColumnKind::TimestampTz, Nullability::Unstated, ColumnDefault::CurrentTimestamp),
        column("archived_at", ColumnKind::TimestampTz, Nullability::Null, ColumnDefault::Nothing),
    ];
    assert(r@.map_values(|c: Column| column_model(c)) =~= call_records_columns());
    r
}

/// The steps of the call-records migration: create the table when it is
/// missing, then the unique index on `call_id` when it is missing.
pub open spec fn call_records_plan(has_call_id_index: bool) -> Seq<SchemaStep> {
    if has_call_id_index {
        seq![SchemaStep::CreateCallRecordsTable]
    } else {
        seq![SchemaStep::CreateCallRecordsTable, SchemaStep::CreateCallIdIndex]
    }
}

/// The steps of the call-records migration, given whether its `call_id`
/// index exists.
pub fn call_records_steps(has_call_id_index: bool) -> (r: Vec<SchemaStep>)
    ensures
        r@ == call_records_plan(has_call_id_index),
{
    let mut r: Vec<SchemaStep> = Vec::new();
    r.push(SchemaStep::CreateCallRecordsTable);
    if !has_call_id_index {
        r.push(SchemaStep::CreateCallIdIndex);
    }
    assert(r@ =~= call_records_plan(has_call_id_index));
    r
}

} // verus!
