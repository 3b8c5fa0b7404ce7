use vstd::prelude::*;

use crate::password::{password_matches, verify_password, HashError, PasswordHasher};
use crate::token::{issued_claims, jwt_signed, TokenConfig};

verus! {

/// Why an account operation was refused.
#[derive(PartialEq, Eq, Structural, Debug, Clone, Copy)]
pub enum AccountError {
    /// An account with that email is already stored.
    DuplicateAccount,
    /// No account matches the email or the authenticated user id.
    AccountNotFound,
    /// The password does not match the stored hash.
    InvalidCredentials,
    /// Passwords are never empty.
    EmptyPassword,
    /// The password could not be hashed; a server-side fault.
    HashingFailure,
    /// No token could be issued for the account.
    TokenFailure,
    /// A post with that title is already stored.
    DuplicatePost,
    /// The store failed.
    DatabaseError,
}

/// What the store keeps of an account for logging in.
#[derive(PartialEq, Eq, Debug, Clone)]
pub struct StoredCredential {
    pub user_id: i32,
    pub password_hash: String,
}

/// A successful login: the bearer token and the account's id.
#[derive(PartialEq, Eq, Debug, Clone)]
pub struct LoginGrant {
    pub token: String,
    pub user_id: i32,
}

fn hash_error(e: HashError) -> (r: AccountError)
    ensures
        e == HashError::EmptyPassword ==> r == AccountError::EmptyPassword,
        e == HashError::HashingFailure ==> r == AccountError::HashingFailure,
{
    match e {
        HashError::EmptyPassword => AccountError::EmptyPassword,
        HashError::HashingFailure => AccountError::HashingFailure,
    }
}

/// Registration, once the store has said whether the email is taken: the hash to
/// store for the new account.
pub fn register(hasher: &PasswordHasher, email_taken: bool, password: &str) -> (r: Result<
    String,
    AccountError,
>)
    ensures
        email_taken <==> r == Err::<String, AccountError>(AccountError::DuplicateAccount),
        !email_taken ==> ((r == Err::<String, AccountError>(AccountError::EmptyPassword))
            <==> password@.len() == 0),
        (!email_taken && password@.len() > 0 && !(4 <= hasher.cost <= 31)) ==> r == Err::<
            String,
            AccountError,
        >(AccountError::HashingFailure),
        r matches Ok(h) ==> !email_taken && password_matches(password@, h@),
        r == Err::<String, AccountError>(AccountError::HashingFailure) ==> !email_taken
            && password@.len() > 0,
        r matches Err(e) ==> (e == AccountError::DuplicateAccount || e == AccountError::EmptyPassword
            || e == AccountError::HashingFailure),
{
    if email_taken {
        return Err(AccountError::DuplicateAccount);
    }
    match hasher.hash(password) {
        Ok(h) => Ok(h),
        Err(e) => Err(hash_error(e)),
    }
}

/// Login, once the store has looked the email up: a token for the account when the
/// password matches.
pub fn login(config: &TokenConfig, account: Option<StoredCredential>, password: &str, now: u64) -> (r:
    Result<LoginGrant, AccountError>)
    ensures
        account is None <==> r == Err::<LoginGrant, AccountError>(AccountError::AccountNotFound),
        account matches Some(a) ==> ((r == Err::<LoginGrant, AccountError>(
            AccountError::InvalidCredentials)) <==> !password_matches(password@, a.password_hash@)),
        account matches Some(a) ==> ((r == Err::<LoginGrant, AccountError>(
            AccountError::TokenFailure)) <==> (password_matches(password@, a.password_hash@) && (
        a.user_id <= 0 || now + config.ttl_spec() > u64::MAX))),
        account matches Some(a) ==> (password_matches(password@, a.password_hash@) && a.user_id > 0
            && now + config.ttl_spec() <= u64::MAX ==> (r matches Ok(g) && g.user_id == a.user_id
            && g.token@ == jwt_signed(
            config.key(),
            issued_claims(a.user_id as nat, now as nat, (now + config.ttl_spec()) as nat),
        ))),
        r matches Ok(g) ==> (account matches Some(a) && password_matches(password@, a.password_hash@)
            && g.user_id == a.user_id && g.token@ == jwt_signed(
            config.key(),
            issued_claims(a.user_id as nat, now as nat, (now + config.ttl_spec()) as nat),
        )),
{
    let a = match account {
        None => {
            return Err(AccountError::AccountNotFound);
        },
        Some(a) => a,
    };
    if !verify_password(password, a.password_hash.as_str()) {
        return Err(AccountError::InvalidCredentials);
    }
    match config.issue(a.user_id, now) {
        Ok(token) => Ok(LoginGrant { token, user_id: a.user_id }),
        Err(_) => Err(AccountError::TokenFailure),
    }
}

/// Account update for an authenticated caller, once the store has said whether
/// the caller's account exists: the hash of the new password.
pub fn update(hasher: &PasswordHasher, account_exists: bool, new_password: &str) -> (r: Result<
    String,
    AccountError,
>)
    ensures
        !account_exists <==> r == Err::<String, AccountError>(AccountError::AccountNotFound),
        account_exists ==> ((r == Err::<String, AccountError>(AccountError::EmptyPassword))
            <==> new_password@.len() == 0),
        r == Err::<String, AccountError>(AccountError::HashingFailure) ==> account_exists
            && new_password@.len() > 0,
        (account_exists && new_password@.len() > 0 && !(4 <= hasher.cost <= 31)) ==> r == Err::<
            String,
            AccountError,
        >(AccountError::HashingFailure),
        r matches Ok(h) ==> account_exists && password_matches(new_password@, h@),
        r matches Err(e) ==> (e == AccountError::AccountNotFound || e == AccountError::EmptyPassword
            || e == AccountError::HashingFailure),
{
    if !account_exists {
        return Err(AccountError::AccountNotFound);
    }
    match hasher.hash(new_password) {
        Ok(h) => Ok(h),
        Err(e) => Err(hash_error(e)),
    }
}

/// Account deletion for an authenticated caller: allowed when the caller's
/// account exists.
pub fn delete(account_exists: bool) -> (r: Result<(), AccountError>)
    ensures
        account_exists <==> r is Ok,
        !account_exists ==> r == Err::<(), AccountError>(AccountError::AccountNotFound),
{
    if account_exists {
        Ok(())
    } else {
        Err(AccountError::AccountNotFound)
    }
}

/// Post creation for an authenticated caller: allowed when the caller's account
/// exists and no post has the title yet.
pub fn add_post(account_exists: bool, title_taken: bool) -> (r: Result<(), AccountError>)
    ensures
        !account_exists ==> r == Err::<(), AccountError>(AccountError::AccountNotFound),
        account_exists && title_taken ==> r == Err::<(), AccountError>(AccountError::DuplicatePost),
        r is Ok <==> account_exists && !title_taken,
{
    if !account_exists {
        Err(AccountError::AccountNotFound)
    } else if title_taken {
        Err(AccountError::DuplicatePost)
    } else {
        Ok(())
    }
}

/// A failed insert of a new account: a violation of the store's unique email index
/// means another registration took the email first.
pub fn insert_failure(unique_violation: bool) -> (r: AccountError)
    ensures
        r == (if unique_violation {
            AccountError::DuplicateAccount
        } else {
            AccountError::DatabaseError
        }),
{
    if unique_violation {
        AccountError::DuplicateAccount
    } else {
        AccountError::DatabaseError
    }
}

} // verus!
