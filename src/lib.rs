//! Authentication core of a small multi-user content service: salted password
//! hashing, signed and time-bounded bearer tokens, the guard in front of protected
//! routes, and the decisions of the account workflows around an opaque store.

pub mod account;
pub mod claims;
pub mod decimal;
pub mod gate;
pub mod password;
pub mod token;
pub mod users;

pub use account::{
    add_post, delete, insert_failure, login, register, update, AccountError, LoginGrant,
    StoredCredential,
};
pub use gate::{authenticate, rejection, AuthError, Rejection};
pub use password::{verify_password, HashError, PasswordHasher, DEFAULT_HASH_COST};
pub use token::{
    check_claims, subject_id, Claim, ConfigError, Identity, IssueError, TokenConfig,
    VerificationError, DEFAULT_TTL_SECONDS,
};
pub use users::{settings, user_with_posts, PostCreate, UserRecord, UserWithPosts};
