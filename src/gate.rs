use vstd::prelude::*;

use crate::claims::{has_at, has_at_exec, push_chars};
use crate::claims::claims_text;
use crate::decimal::decimal;
use crate::token::{
    claims_outcome, issued_claims, jwt_signed, lemma_issued_claims_outcome, mac_signed, subject_id,
    subject_user_id, token_outcome, Identity, TokenConfig, VerificationError,
};

verus! {

/// Why a request to a protected route was refused. Every variant leads to the
/// same client-visible response; the variants are kept apart for logging.
#[derive(PartialEq, Eq, Structural, Debug, Clone, Copy)]
pub enum AuthError {
    MissingCredentials,
    MalformedCredentials,
    InvalidSignature,
    Expired,
    MalformedClaim,
}

/// The response that every refused request receives.
#[derive(PartialEq, Eq, Debug, Clone)]
pub struct Rejection {
    pub status: u16,
    pub body: String,
}

/// `Bearer `, with exactly one space.
pub open spec fn bearer_prefix() -> Seq<char> {
    seq!['B', 'e', 'a', 'r', 'e', 'r', ' ']
}

/// `Unauthorized`
pub open spec fn unauthorized_text() -> Seq<char> {
    seq!['U', 'n', 'a', 'u', 't', 'h', 'o', 'r', 'i', 'z', 'e', 'd']
}

pub open spec fn auth_error_of(e: VerificationError) -> AuthError {
    match e {
        VerificationError::InvalidSignature => AuthError::InvalidSignature,
        VerificationError::Expired => AuthError::Expired,
        VerificationError::MalformedClaim => AuthError::MalformedClaim,
    }
}

/// What the guard decides for a token whose signature checked out and whose claims
/// text is `p`: the caller's user id, or why the request is refused.
pub open spec fn claims_gate_outcome(p: Seq<char>, now: nat) -> Result<nat, AuthError> {
    match claims_outcome(p, now) {
        Err(e) => Err(auth_error_of(e)),
        Ok((s, _, _)) => Ok(subject_user_id(s)->Some_0),
    }
}

/// The decision on an `Authorization` header value at `now`: the user id
/// of the caller, or why the request is refused.
pub open spec fn gate_outcome(key: Seq<u8>, header: Seq<char>, now: nat) -> Result<nat, AuthError> {
    if !has_at(header, 0, bearer_prefix()) {
        Err(AuthError::MalformedCredentials)
    } else {
        match token_outcome(key, header.subrange(7, header.len() as int), now) {
            Err(e) => Err(auth_error_of(e)),
            Ok((s, _, _)) => Ok(subject_user_id(s)->Some_0),
        }
    }
}

/// The client-visible response of a refusal: status and body.
pub open spec fn rejection_spec(e: AuthError) -> (u16, Seq<char>) {
    (401, unauthorized_text())
}

pub open spec fn identity_view(r: Result<Identity, AuthError>) -> Result<nat, AuthError> {
    match r {
        Ok(id) => Ok(id.user_id as nat),
        Err(e) => Err(e),
    }
}

fn bearer_chars() -> (v: Vec<char>)
    ensures
        v@ == bearer_prefix(),
{
    let mut v: Vec<char> = Vec::new();
    v.push('B');
    v.push('e');
    v.push('a');
    v.push('r');
    v.push('e');
    v.push('r');
    v.push(' ');
    assert(v@ =~= bearer_prefix());
    v
}

fn auth_error(e: VerificationError) -> (r: AuthError)
    ensures
        r == auth_error_of(e),
{
    match e {
        VerificationError::InvalidSignature => AuthError::InvalidSignature,
        VerificationError::Expired => AuthError::Expired,
        VerificationError::MalformedClaim => AuthError::MalformedClaim,
    }
}

proof fn lemma_bearer_split(h: Seq<char>, token: Seq<char>)
    requires
        h == bearer_prefix() + token,
    ensures
        has_at(h, 0, bearer_prefix()),
        h.subrange(7, h.len() as int) == token,
{
    assert(h.subrange(0, 7) =~= bearer_prefix());
    assert(h.subrange(7, h.len() as int) =~= token);
}

/// Decides whether a request may reach a protected handler, from its
/// `Authorization` header (if any) and the current time.
#[verifier::rlimit(60)]
pub fn authenticate(config: &TokenConfig, authorization: Option<&str>, now: u64) -> (r: Result<
    Identity,
    AuthError,
>)
    ensures
        match authorization {
            None => r == Err::<Identity, AuthError>(AuthError::MissingCredentials),
            Some(h) => identity_view(r) == gate_outcome(config.key(), h@, now as nat),
        },
        authorization matches Some(h) ==> forall|u: nat, i: u64, e: u64|
            h@ == bearer_prefix() + #[trigger] jwt_signed(
                config.key(),
                claims_text(decimal(u), i as nat, e as nat),
            ) ==> identity_view(r) == claims_gate_outcome(
                claims_text(decimal(u), i as nat, e as nat),
                now as nat,
            ),
        authorization matches Some(h) ==> (has_at(h@, 0, bearer_prefix()) && !mac_signed(
            config.key(),
            h@.subrange(7, h@.len() as int),
        ) ==> r == Err::<Identity, AuthError>(AuthError::InvalidSignature)),
{
    let header = match authorization {
        None => {
            return Err(AuthError::MissingCredentials);
        },
        Some(h) => h,
    };
    let n = header.unicode_len();
    if !has_at_exec(header, n, 0, &bearer_chars()) {
        proof {
            assert forall|u: nat, i: u64, e: u64|
                header@ == bearer_prefix() + #[trigger] jwt_signed(
                    config.key(),
                    claims_text(decimal(u), i as nat, e as nat),
                ) implies false by {
                lemma_bearer_split(
                    header@,
                    jwt_signed(config.key(), claims_text(decimal(u), i as nat, e as nat)),
                );
            }
        }
        return Err(AuthError::MalformedCredentials);
    }
    let token = header.substring_char(7, n);
    let r = admit_token(config, token, now);
    proof {
        assert forall|u: nat, i: u64, e: u64|
            header@ == bearer_prefix() + #[trigger] jwt_signed(
                config.key(),
                claims_text(decimal(u), i as nat, e as nat),
            ) implies identity_view(r) == claims_gate_outcome(
            claims_text(decimal(u), i as nat, e as nat),
            now as nat,
        ) by {
            lemma_bearer_split(
                header@,
                jwt_signed(config.key(), claims_text(decimal(u), i as nat, e as nat)),
            );
        }
    }
    r
}

/// The guard's decision on the token that follows the scheme prefix.
fn admit_token(config: &TokenConfig, token: &str, now: u64) -> (r: Result<Identity, AuthError>)
    ensures
        identity_view(r) == (match token_outcome(config.key(), token@, now as nat) {
            Err(e) => Err(auth_error_of(e)),
            Ok((s, _, _)) => Ok(subject_user_id(s)->Some_0),
        }),
        forall|u: nat, i: u64, e: u64|
            token@ == #[trigger] jwt_signed(
                config.key(),
                claims_text(decimal(u), i as nat, e as nat),
            ) ==> identity_view(r) == claims_gate_outcome(
                claims_text(decimal(u), i as nat, e as nat),
                now as nat,
            ),
        !mac_signed(config.key(), token@) ==> r == Err::<Identity, AuthError>(
            AuthError::InvalidSignature,
        ),
{
    match config.verify(token, now) {
        Err(e) => Err(auth_error(e)),
        Ok(claim) => match subject_id(&claim.subject) {
            Some(user_id) => Ok(Identity { user_id }),
            None => Err(AuthError::MalformedClaim),
        },
    }
}

/// The response for a refused request; it does not depend on why.
pub fn rejection(e: AuthError) -> (r: Rejection)
    ensures
        (r.status, r.body@) == rejection_spec(e),
{
    let mut body = String::new();
    let mut text: Vec<char> = Vec::new();
    text.push('U');
    text.push('n');
    text.push('a');
    text.push('u');
    text.push('t');
    text.push('h');
    text.push('o');
    text.push('r');
    text.push('i');
    text.push('z');
    text.push('e');
    text.push('d');
    push_chars(&mut body, &text);
    assert(body@ =~= unauthorized_text());
    Rejection { status: 401, body }
}

/// Refusals look alike to the client: any two reasons give the same response.
pub proof fn lemma_uniform_rejection(a: AuthError, b: AuthError)
    ensures
        rejection_spec(a) == rejection_spec(b),
{
}

/// A token issued for a positive `user_id` at `t0` with lifetime `ttl`, presented as
/// `Bearer <token>`, lets its user through at any `now` up to `t0 + ttl` and is
/// refused as expired after that.
pub proof fn lemma_issued_token_at_guard(user_id: nat, t0: nat, ttl: nat, now: nat)
    requires
        0 < user_id <= i32::MAX,
        t0 + ttl <= u64::MAX,
    ensures
        claims_gate_outcome(issued_claims(user_id, t0, t0 + ttl), now) == (if now <= t0 + ttl {
            Ok::<nat, AuthError>(user_id)
        } else {
            Err(AuthError::Expired)
        }),
{
    lemma_issued_claims_outcome(user_id, t0, ttl, now);
    crate::decimal::lemma_decimal(user_id);
    crate::decimal::lemma_canonical_unique(decimal(user_id));
}

} // verus!
