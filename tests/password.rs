use authcore::{verify_password, HashError, PasswordHasher};

const FAST: u32 = 4;

#[test]
fn hash_then_verify_accepts_the_same_password() {
    let hasher = PasswordHasher::new(FAST);
    let h = hasher.hash("correct horse").unwrap();
    assert_ne!(h, "correct horse");
    assert!(h.starts_with("$2b$04$"));
    assert!(verify_password("correct horse", &h));
}

#[test]
fn verify_rejects_a_different_password() {
    let hasher = PasswordHasher::new(FAST);
    let h = hasher.hash("p1").unwrap();
    assert!(!verify_password("p2", &h));
    assert!(!verify_password("P1", &h));
}

#[test]
fn two_hashes_of_one_password_differ_and_both_verify() {
    let hasher = PasswordHasher::new(FAST);
    let a = hasher.hash("same").unwrap();
    let b = hasher.hash("same").unwrap();
    assert_ne!(a, b);
    assert!(verify_password("same", &a));
    assert!(verify_password("same", &b));
}

#[test]
fn empty_password_is_refused() {
    let hasher = PasswordHasher::new(FAST);
    assert_eq!(hasher.hash(""), Err(HashError::EmptyPassword));
}

#[test]
fn cost_out_of_range_is_a_hashing_failure() {
    assert_eq!(PasswordHasher::new(3).hash("pw"), Err(HashError::HashingFailure));
    assert_eq!(PasswordHasher::new(32).hash("pw"), Err(HashError::HashingFailure));
}

#[test]
fn malformed_hash_never_verifies() {
    assert!(!verify_password("pw", ""));
    assert!(!verify_password("pw", "not a hash"));
    assert!(!verify_password("pw", "$2b$04$short"));
}
