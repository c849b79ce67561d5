use rustpbx::migration::{
    call_records_steps, call_records_table, ColumnDefault, ColumnKind, Nullability, domain_column_steps, tenant_column_steps, ControlMigrator, MigrationId, MigrationTarget, SchemaStep, SchemaTable,
};
use rustpbx::raft::network::{NetworkFactory, PeerRpc, PeerRpcError};

#[test]
fn base_tables_are_created_before_their_columns_are_added() {
    let ms = ControlMigrator::migrations();
    assert_eq!(ms.len(), 14);
    assert_eq!(ms[0], MigrationId::Tenant);
    assert_eq!(ms[13], MigrationId::AddDomainToTenants);
    for (i, m) in ms.iter().enumerate() {
        if let MigrationTarget::Alter(t) = m.target() {
            assert!(ms[..i].iter().any(|c| c.target() == MigrationTarget::Create(t)), "{m:?} runs before its table");
        }
    }
    assert_eq!(MigrationId::AddTenantIdToTrunks.target(), MigrationTarget::Alter(SchemaTable::SipTrunks));
}

#[test]
fn tenant_column_is_added_once_and_only_to_existing_tables() {
    assert!(tenant_column_steps(false, false).is_empty(), "missing base table is skipped");
    assert!(tenant_column_steps(true, true).is_empty(), "column already there");
    assert_eq!(
        tenant_column_steps(true, false),
        vec![SchemaStep::AddTenantIdColumn, SchemaStep::CreateTenantIdIndex]
    );
}

#[test]
fn domain_columns_are_added_where_missing() {
    assert!(domain_column_steps(true, true).is_empty());
    assert_eq!(domain_column_steps(false, true), vec![SchemaStep::AddCustomDomain]);
    assert_eq!(domain_column_steps(true, false), vec![SchemaStep::AddCustomDomainEnabled]);
    assert_eq!(
        domain_column_steps(false, false),
        vec![SchemaStep::AddCustomDomain, SchemaStep::AddCustomDomainEnabled]
    );
}

#[test]
fn single_voter_peers_are_unreachable() {
    let mut f = NetworkFactory;
    let mut c = f.new_client(7, "10.0.0.7:5001");
    assert_eq!(c.target(), 7);
    assert_eq!(c.addr(), "10.0.0.7:5001");
    for rpc in [PeerRpc::AppendEntries, PeerRpc::InstallSnapshot, PeerRpc::Vote] {
        assert_eq!(c.send(rpc), Err(PeerRpcError::Unreachable));
    }
}

#[test]
fn call_records_table_and_its_index_step() {
    assert_eq!(call_records_steps(true), vec![SchemaStep::CreateCallRecordsTable]);
    assert_eq!(call_records_steps(false), vec![SchemaStep::CreateCallRecordsTable, SchemaStep::CreateCallIdIndex]);
    let cols = call_records_table();
    assert_eq!(cols.len(), 33);
    assert_eq!(cols[0].name, "id");
    assert_eq!(cols[0].kind, ColumnKind::BigIntKey);
    assert_eq!(cols[1].name, "call_id");
    assert_eq!(cols[1].kind, ColumnKind::Varchar(120));
    assert_eq!(cols[1].nullability, Nullability::NotNull);
    assert_eq!(cols[7].name, "duration_secs");
    assert_eq!(cols[7].default, ColumnDefault::Int(0));
}
