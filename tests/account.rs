use authcore::{
    add_post, delete, insert_failure, login, register, update, verify_password, AccountError, PasswordHasher,
    StoredCredential, TokenConfig,
};

const T0: u64 = 1_700_000_000;

#[test]
fn registering_an_email_twice_is_a_duplicate() {
    let hasher = PasswordHasher::new(4);
    let mut emails: Vec<String> = Vec::new();
    let first_taken = emails.iter().any(|e| e == "a@x.com");
    let h = register(&hasher, first_taken, "pw").unwrap();
    assert!(verify_password("pw", &h));
    emails.push("a@x.com".to_string());
    let second_taken = emails.iter().any(|e| e == "a@x.com");
    assert_eq!(register(&hasher, second_taken, "pw2"), Err(AccountError::DuplicateAccount));
}

#[test]
fn register_refuses_empty_password_and_bad_cost() {
    assert_eq!(register(&PasswordHasher::new(4), false, ""), Err(AccountError::EmptyPassword));
    assert_eq!(register(&PasswordHasher::new(2), false, "pw"), Err(AccountError::HashingFailure));
}

#[test]
fn login_outcomes() {
    let config = TokenConfig::new(Some("login secret".to_string()), 60).unwrap();
    let hash = PasswordHasher::new(4).hash("pw").unwrap();
    let stored = StoredCredential { user_id: 9, password_hash: hash };
    assert_eq!(login(&config, None, "pw", T0), Err(AccountError::AccountNotFound));
    assert_eq!(
        login(&config, Some(stored.clone()), "wrong", T0),
        Err(AccountError::InvalidCredentials)
    );
    let grant = login(&config, Some(stored), "pw", T0).unwrap();
    assert_eq!(grant.user_id, 9);
    assert_eq!(config.verify(&grant.token, T0).unwrap().subject, "9");
}

#[test]
fn login_with_a_non_positive_id_gets_no_token() {
    let config = TokenConfig::new(Some("login secret".to_string()), 60).unwrap();
    let hash = PasswordHasher::new(4).hash("pw").unwrap();
    let stored = StoredCredential { user_id: 0, password_hash: hash };
    assert_eq!(login(&config, Some(stored), "pw", T0), Err(AccountError::TokenFailure));
}

#[test]
fn update_delete_and_posts() {
    let hasher = PasswordHasher::new(4);
    assert_eq!(update(&hasher, false, "new"), Err(AccountError::AccountNotFound));
    let h = update(&hasher, true, "new").unwrap();
    assert!(verify_password("new", &h));
    assert_eq!(update(&hasher, true, ""), Err(AccountError::EmptyPassword));
    assert_eq!(delete(true), Ok(()));
    assert_eq!(delete(false), Err(AccountError::AccountNotFound));
    assert_eq!(add_post(true, false), Ok(()));
    assert_eq!(add_post(true, true), Err(AccountError::DuplicatePost));
    assert_eq!(add_post(false, false), Err(AccountError::AccountNotFound));
}

#[test]
fn a_unique_index_violation_on_insert_is_a_duplicate() {
    assert_eq!(insert_failure(true), AccountError::DuplicateAccount);
    assert_eq!(insert_failure(false), AccountError::DatabaseError);
}

#[test]
fn two_logins_at_one_time_give_the_same_token() {
    let config = TokenConfig::new(Some("login secret".to_string()), 60).unwrap();
    let hasher = PasswordHasher::new(4);
    let a = StoredCredential { user_id: 5, password_hash: hasher.hash("pw").unwrap() };
    let b = StoredCredential { user_id: 6, password_hash: hasher.hash("pw").unwrap() };
    let first = login(&config, Some(a.clone()), "pw", T0).unwrap();
    let second = login(&config, Some(a), "pw", T0).unwrap();
    assert_eq!(first, second);
    assert_eq!(login(&config, Some(b), "pw", T0).unwrap().user_id, 6);
}
