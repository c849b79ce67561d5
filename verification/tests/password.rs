use rustpbx::auth::password::{hash_password, verify_password};

#[test]
fn hash_then_verify_roundtrips() {
    let h = hash_password("s3cret!").unwrap();
    assert!(h != "s3cret!", "must not store plaintext");
    assert!(verify_password("s3cret!", &h));
    assert!(!verify_password("wrong", &h));
}

#[test]
fn verify_rejects_garbage_hash() {
    assert!(!verify_password("anything", "not-a-bcrypt-hash"));
}

#[test]
fn hash_has_bcrypt_cost_12_shape() {
    let h = hash_password("pw").unwrap();
    assert_eq!(h.len(), 60);
    assert!(h.starts_with("$2b$12$"));
}

#[test]
fn short_or_dollarless_hashes_are_refused() {
    assert!(!verify_password("x", "$2b$12$tooshort"));
    assert!(!verify_password("x", "2b12abcdefghijklmnopqrstuvwxyzabcdefghijklmnopqrstuvwxyzabcdefgh"));
}
