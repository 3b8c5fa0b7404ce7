use vstd::prelude::*;

use vstd::string::StringSliceAdditionalSpecFns;
use vstd::utf8::encode_utf8;

verus! {

/// Whether `bcrypt::verify` answers `Ok(true)` for these password bytes and this hash text.
pub uninterp spec fn bcrypt_accepts(password: Seq<u8>, hash: Seq<char>) -> bool;

#[verifier::external_type_specification]
#[verifier::external_body]
pub struct ExBcryptError(bcrypt::BcryptError);

/// Relies on `bcrypt::hash`: it refuses a cost outside 4..=31, draws a fresh salt,
/// and what it returns is accepted by `bcrypt::verify` for the same password.
#[verifier::external_body]
fn bcrypt_hash(password: &str, cost: u32) -> (r: Result<String, bcrypt::BcryptError>)
    ensures
        r matches Ok(h) ==> bcrypt_accepts(password.spec_bytes(), h@),
        r matches Ok(_) ==> 4 <= cost <= 31,
{
    bcrypt::hash(password, cost)
}

/// Relies on `bcrypt::verify`: it re-derives the hash from the salt and cost that the
/// hash text embeds and compares in constant time; a malformed hash text is an error.
#[verifier::external_body]
fn bcrypt_verify(password: &str, hash: &str) -> (r: Result<bool, bcrypt::BcryptError>)
    ensures
        r matches Ok(b) ==> b == bcrypt_accepts(password.spec_bytes(), hash@),
        r matches Err(_) ==> !bcrypt_accepts(password.spec_bytes(), hash@),
{
    bcrypt::verify(password, hash)
}

/// Whether a plaintext password matches a stored hash.
pub open spec fn password_matches(plaintext: Seq<char>, hash: Seq<char>) -> bool {
    bcrypt_accepts(encode_utf8(plaintext), hash)
}

/// Why a password was not hashed.
#[derive(PartialEq, Eq, Structural, Debug, Clone, Copy)]
pub enum HashError {
    /// Passwords are never empty.
    EmptyPassword,
    /// The hashing primitive could not compute (a cost outside its range, or no randomness).
    HashingFailure,
}

/// The work factor that bcrypt uses by default.
pub const DEFAULT_HASH_COST: u32 = 12;

/// Salted, one-way password hashing at a fixed work factor.
#[derive(PartialEq, Eq, Structural, Debug, Clone, Copy)]
pub struct PasswordHasher {
    pub cost: u32,
}

impl PasswordHasher {
    pub fn new(cost: u32) -> (r: PasswordHasher)
        ensures
            r.cost == cost,
    {
        PasswordHasher { cost }
    }

    /// Hashes a password with a fresh salt; the hash verifies against that password.
    pub fn hash(&self, plaintext: &str) -> (r: Result<String, HashError>)
        ensures
            (r == Err::<String, HashError>(HashError::EmptyPassword)) <==> plaintext@.len() == 0,
            r matches Ok(h) ==> password_matches(plaintext@, h@),
            (plaintext@.len() > 0 && !(4 <= self.cost <= 31)) ==> r == Err::<String, HashError>(
                HashError::HashingFailure,
            ),
    {
        if plaintext.is_empty() {
            return Err(HashError::EmptyPassword);
        }
        match bcrypt_hash(plaintext, self.cost) {
            Ok(h) => Ok(h),
            Err(_) => Err(HashError::HashingFailure),
        }
    }
}

/// Whether `plaintext` matches `hash`; a malformed hash never matches.
pub fn verify_password(plaintext: &str, hash: &str) -> (r: bool)
    ensures
        r == password_matches(plaintext@, hash@),
{
    match bcrypt_verify(plaintext, hash) {
        Ok(b) => b,
        Err(_) => false,
    }
}

} // verus!
