use rustpbx::auth::permissions::db_role;
use rustpbx::auth::permissions::roles;
use rustpbx::auth::permissions::{
    all_permissions, first_unknown_permission, has_permission, is_known_permission, session_role_for,
    CDR_READ, TRUNKS_READ, TRUNKS_WRITE, USERS_WRITE,
};

#[test]
fn admins_bypass_permission_checks() {
    assert!(has_permission(roles::SUPERADMIN, &[], TRUNKS_WRITE));
    assert!(has_permission(roles::TENANT_ADMIN, &[], USERS_WRITE));
}

#[test]
fn tenant_user_limited_to_granted() {
    let granted = vec![TRUNKS_READ.to_string(), CDR_READ.to_string()];
    assert!(has_permission(roles::TENANT_USER, &granted, TRUNKS_READ));
    assert!(!has_permission(roles::TENANT_USER, &granted, TRUNKS_WRITE));
}

#[test]
fn db_role_maps_to_session_role() {
    assert_eq!(session_role_for(db_role::ADMIN), roles::TENANT_ADMIN);
    assert_eq!(session_role_for(db_role::USER), roles::TENANT_USER);
    assert_eq!(session_role_for("anything-else"), roles::TENANT_USER);
}

#[test]
fn unknown_permission_detected() {
    let p = vec![TRUNKS_READ.to_string(), "bogus:perm".to_string()];
    assert_eq!(first_unknown_permission(&p), Some("bogus:perm"));
    assert_eq!(first_unknown_permission(&[TRUNKS_READ.to_string()]), None);
}

#[test]
fn catalogue_lists_known_permissions_only() {
    let all = all_permissions();
    assert!(all.contains(&TRUNKS_READ));
    assert!(all.iter().all(|p| is_known_permission(p)));
    assert!(!is_known_permission("bogus:perm"));
}

#[test]
fn tenant_user_without_grants_has_nothing() {
    assert!(!has_permission(roles::TENANT_USER, &[], TRUNKS_READ));
    assert!(!has_permission("someone", &[], TRUNKS_READ));
}
