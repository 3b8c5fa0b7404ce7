use vstd::prelude::*;

use crate::claims::{
    claims_text, lemma_parse_claims_text, parse_claims, parse_claims_spec, quote_free,
    write_claims,
};
use vstd::string::StringSliceAdditionalSpecFns;

use crate::decimal::{decimal, digits_value, is_canonical_decimal, lemma_decimal, parse_decimal};

verus! {

/// Why a token was not accepted.
#[derive(PartialEq, Eq, Structural, Debug, Clone, Copy)]
pub enum VerificationError {
    /// The token is not a token signed with this process's secret (this covers garbage input).
    InvalidSignature,
    /// The signature is good but the expiry has passed.
    Expired,
    /// The signature is good but the claims are not of the expected shape.
    MalformedClaim,
}

/// Why no token was issued.
#[derive(PartialEq, Eq, Structural, Debug, Clone, Copy)]
pub enum IssueError {
    /// User ids are positive.
    NonPositiveSubject,
    /// The expiry does not fit in the clock's range.
    ClockOverflow,
}

/// Why the token settings could not be built at startup.
#[derive(PartialEq, Eq, Structural, Debug, Clone, Copy)]
pub enum ConfigError {
    MissingSecret,
    ZeroTtl,
}

/// The claims carried by a token: the subject (a user id in decimal) and the
/// validity window, in seconds since the epoch.
#[derive(PartialEq, Eq, Debug, Clone)]
pub struct Claim {
    pub subject: String,
    pub issued_at: u64,
    pub expires_at: u64,
}

/// The authenticated caller of one request.
#[derive(PartialEq, Eq, Structural, Debug, Clone, Copy)]
pub struct Identity {
    pub user_id: i32,
}

/// The signing secret and the lifetime of issued tokens, fixed at startup.
pub struct TokenConfig {
    secret: Vec<u8>,
    ttl: u64,
}

/// Default token lifetime: one day.
pub const DEFAULT_TTL_SECONDS: u64 = 86400;

/// The token that jsonwebtoken's `encode` writes for a claims text under an HS256 key.
pub uninterp spec fn jwt_signed(key: Seq<u8>, claims: Seq<char>) -> Seq<char>;

/// The claims text that jsonwebtoken's `decode` recovers from a token under an HS256
/// key, once the signature has been checked; `None` when it refuses the token.
pub uninterp spec fn jwt_opened(key: Seq<u8>, token: Seq<char>) -> Option<Seq<char>>;

/// The signature segment that jsonwebtoken's `crypto::sign` computes under HS256 for
/// a message: the unpadded base64url text of its HMAC-SHA256.
pub uninterp spec fn hs256_signature(key: Seq<u8>, message: Seq<char>) -> Seq<char>;

pub open spec fn dot_free(s: Seq<char>) -> bool {
    forall|i: int| 0 <= i < s.len() ==> #[trigger] s[i] != '.'
}

/// A token whose segment after its last dot is the HS256 signature, under `key`,
/// of everything before that dot (base64url text holds no dot).
pub open spec fn mac_signed(key: Seq<u8>, token: Seq<char>) -> bool {
    exists|m: Seq<char>|
        token == m + seq!['.'] + #[trigger] hs256_signature(key, m) && dot_free(
            hs256_signature(key, m),
        )
}

#[verifier::external_type_specification]
#[verifier::external_body]
pub struct ExJwtError(jsonwebtoken::errors::Error);

/// Relies on `serde_json::value::RawValue::from_string` and `jsonwebtoken::encode`
/// with the default header (HS256): the claims text is signed as it stands, the
/// token ends in `.` and the HS256 signature of what precedes it, and neither call
/// fails on a JSON text (HMAC signing always succeeds).
#[verifier::external_body]
fn sign_claims(key: &Vec<u8>, claims: String) -> (r: Result<String, jsonwebtoken::errors::Error>)
    ensures
        r matches Ok(t) ==> t@ == jwt_signed(key@, claims@),
        r matches Ok(t) ==> exists|m: Seq<char>|
            t@ == m + seq!['.'] + #[trigger] hs256_signature(key@, m) && dot_free(
                hs256_signature(key@, m),
            ),
        r matches Err(_) ==> forall|u: nat, i: u64, e: u64|
            #[trigger] claims_text(decimal(u), i as nat, e as nat) != claims@,
{
    let body = serde_json::value::RawValue::from_string(claims)?;
    let signer = jsonwebtoken::EncodingKey::from_secret(key);
    jsonwebtoken::encode(&jsonwebtoken::Header::default(), &body, &signer)
}

/// Relies on `jsonwebtoken::decode` (HS256, expiry left to the caller) into a
/// `serde_json::value::RawValue`: the token is accepted only when the segment after
/// its last dot equals the HS256 signature of what precedes it, and the claims text
/// comes back as it was signed.
#[verifier::external_body]
fn open_token(key: &Vec<u8>, token: &str) -> (r: Result<String, jsonwebtoken::errors::Error>)
    ensures
        r matches Ok(p) ==> jwt_opened(key@, token@) == Some(p@),
        r matches Err(_) ==> jwt_opened(key@, token@) is None,
        r matches Ok(_) ==> exists|m: Seq<char>|
            token@ == m + seq!['.'] + #[trigger] hs256_signature(key@, m) && dot_free(
                hs256_signature(key@, m),
            ),
        r matches Ok(p) ==> forall|u: nat, i: u64, e: u64|
            #[trigger] jwt_signed(key@, claims_text(decimal(u), i as nat, e as nat)) == token@
                ==> p@ == claims_text(decimal(u), i as nat, e as nat),
        r matches Err(_) ==> forall|u: nat, i: u64, e: u64|
            #[trigger] jwt_signed(key@, claims_text(decimal(u), i as nat, e as nat)) != token@,
{
    let mut rules = jsonwebtoken::Validation::new(jsonwebtoken::Algorithm::HS256);
    rules.validate_exp = false;
    let opener = jsonwebtoken::DecodingKey::from_secret(key);
    let data = jsonwebtoken::decode::<Box<serde_json::value::RawValue>>(token, &opener, &rules)?;
    Ok(data.claims.get().to_string())
}

/// The user id that a subject names: a positive `i32` in canonical decimal.
pub open spec fn subject_user_id(s: Seq<char>) -> Option<nat> {
    if is_canonical_decimal(s) && 0 < digits_value(s) <= i32::MAX {
        Some(digits_value(s))
    } else {
        None
    }
}

/// What a token whose signature checked out and whose claims text is `p` yields at `now`.
pub open spec fn claims_outcome(p: Seq<char>, now: nat) -> Result<
    (Seq<char>, nat, nat),
    VerificationError,
> {
    match parse_claims_spec(p) {
        None => Err(VerificationError::MalformedClaim),
        Some((s, i, e)) => if now > e {
            Err(VerificationError::Expired)
        } else if subject_user_id(s) is None {
            Err(VerificationError::MalformedClaim)
        } else {
            Ok((s, i, e))
        },
    }
}

/// What a token yields at `now` under `key`.
pub open spec fn token_outcome(key: Seq<u8>, token: Seq<char>, now: nat) -> Result<
    (Seq<char>, nat, nat),
    VerificationError,
> {
    match jwt_opened(key, token) {
        None => Err(VerificationError::InvalidSignature),
        Some(p) => claims_outcome(p, now),
    }
}

/// The claims text of a token issued for `user_id` at `now` that expires at `expires_at`.
pub open spec fn issued_claims(user_id: nat, now: nat, expires_at: nat) -> Seq<char> {
    claims_text(decimal(user_id), now, expires_at)
}

pub open spec fn claim_view(r: Result<Claim, VerificationError>) -> Result<
    (Seq<char>, nat, nat),
    VerificationError,
> {
    match r {
        Ok(c) => Ok((c.subject@, c.issued_at as nat, c.expires_at as nat)),
        Err(e) => Err(e),
    }
}

/// Checks the claims text of a token whose signature checked out: the expiry
/// first, then the subject.
pub fn check_claims(payload: &str, now: u64) -> (r: Result<Claim, VerificationError>)
    ensures
        claim_view(r) == claims_outcome(payload@, now as nat),
{
    match parse_claims(payload) {
        None => Err(VerificationError::MalformedClaim),
        Some((subject, issued_at, expires_at)) => {
            if now > expires_at {
                return Err(VerificationError::Expired);
            }
            if subject_id(&subject).is_none() {
                return Err(VerificationError::MalformedClaim);
            }
            Ok(Claim { subject, issued_at, expires_at })
        },
    }
}

/// The user id that a subject names.
pub fn subject_id(subject: &String) -> (r: Option<i32>)
    ensures
        match r {
            Some(id) => subject_user_id(subject@) == Some(id as nat),
            None => subject_user_id(subject@) is None,
        },
{
    let s = subject.as_str();
    let n = s.unicode_len();
    assert(s@.subrange(0, n as int) =~= s@);
    match parse_decimal(s, 0, n) {
        Some(v) => {
            if v >= 1 && v <= 2147483647 {
                Some(v as i32)
            } else {
                None
            }
        },
        None => None,
    }
}

impl TokenConfig {
    pub closed spec fn key(&self) -> Seq<u8> {
        self.secret@
    }

    pub closed spec fn ttl_spec(&self) -> nat {
        self.ttl as nat
    }

    /// Builds the settings from the configured secret; a missing or empty secret
    /// and a zero lifetime are refused.
    pub fn new(secret: Option<String>, ttl: u64) -> (r: Result<TokenConfig, ConfigError>)
        ensures
            match secret {
                None => r == Err::<TokenConfig, ConfigError>(ConfigError::MissingSecret),
                Some(s) => if s@.len() == 0 {
                    r == Err::<TokenConfig, ConfigError>(ConfigError::MissingSecret)
                } else if ttl == 0 {
                    r == Err::<TokenConfig, ConfigError>(ConfigError::ZeroTtl)
                } else {
                    r matches Ok(c) && c.key() == vstd::utf8::encode_utf8(s@) && c.ttl_spec()
                        == ttl
                },
            },
    {
        match secret {
            None => Err(ConfigError::MissingSecret),
            Some(s) => {
                if s.as_str().is_empty() {
                    Err(ConfigError::MissingSecret)
                } else if ttl == 0 {
                    Err(ConfigError::ZeroTtl)
                } else {
                    Ok(TokenConfig { secret: s.as_str().as_bytes_vec(), ttl })
                }
            },
        }
    }

    /// The lifetime of issued tokens, in seconds.
    pub fn ttl(&self) -> (r: u64)
        ensures
            r == self.ttl_spec(),
    {
        self.ttl
    }

    /// Issues a token for `user_id` at `now`, valid until `now + ttl`.
    pub fn issue(&self, user_id: i32, now: u64) -> (r: Result<String, IssueError>)
        ensures
            (r == Err::<String, IssueError>(IssueError::NonPositiveSubject)) <==> user_id <= 0,
            (r == Err::<String, IssueError>(IssueError::ClockOverflow)) <==> (user_id > 0 && now
                + self.ttl_spec() > u64::MAX),
            (user_id > 0 && now + self.ttl_spec() <= u64::MAX) ==> (r matches Ok(t) && t@
                == jwt_signed(
                self.key(),
                issued_claims(user_id as nat, now as nat, (now + self.ttl_spec()) as nat),
            ) && mac_signed(self.key(), t@)),
    {
        if user_id <= 0 {
            return Err(IssueError::NonPositiveSubject);
        }
        if now > u64::MAX - self.ttl {
            return Err(IssueError::ClockOverflow);
        }
        let claims = write_claims(user_id as u64, now, now + self.ttl);
        match sign_claims(&self.secret, claims) {
            Ok(t) => Ok(t),
            Err(_) => {
                proof {
                    let u = user_id as nat;
                    let e = (now + self.ttl) as u64;
                    assert(claims_text(decimal(u), now as nat, e as nat) == issued_claims(
                        u,
                        now as nat,
                        (now + self.ttl_spec()) as nat,
                    ));
                }
                unreached()
            },
        }
    }

    /// Checks a token at `now`: its signature, then its expiry, then its subject.
    pub fn verify(&self, token: &str, now: u64) -> (r: Result<Claim, VerificationError>)
        ensures
            claim_view(r) == token_outcome(self.key(), token@, now as nat),
            forall|u: nat, i: u64, e: u64|
                #[trigger] jwt_signed(self.key(), claims_text(decimal(u), i as nat, e as nat))
                    == token@ ==> claim_view(r) == claims_outcome(
                    claims_text(decimal(u), i as nat, e as nat),
                    now as nat,
                ),
            !mac_signed(self.key(), token@) ==> r == Err::<Claim, VerificationError>(
                VerificationError::InvalidSignature,
            ),
    {
        match open_token(&self.secret, token) {
            Ok(payload) => check_claims(payload.as_str(), now),
            Err(_) => Err(VerificationError::InvalidSignature),
        }
    }
}

/// A token's claims, as issued for a positive `user_id` at `t0` with lifetime
/// `ttl`, verify at any `now` up to `t0 + ttl` to exactly that subject and window,
/// and as expired at any later `now`.
pub proof fn lemma_issued_claims_outcome(user_id: nat, t0: nat, ttl: nat, now: nat)
    requires
        0 < user_id <= i32::MAX,
        t0 + ttl <= u64::MAX,
    ensures
        claims_outcome(issued_claims(user_id, t0, t0 + ttl), now) == (if now <= t0 + ttl {
            Ok((decimal(user_id), t0, t0 + ttl))
        } else {
            Err(VerificationError::Expired)
        }),
{
    lemma_decimal(user_id);
    let s = decimal(user_id);
    assert(quote_free(s)) by {
        assert forall|k: int| 0 <= k < s.len() implies #[trigger] s[k] != '"' by {
            assert(crate::decimal::is_digit(s[k]));
        }
    }
    lemma_parse_claims_text(s, t0, t0 + ttl);
}

/// The expiry boundary: one second before the end of its window a freshly issued
/// token's claims are accepted, one second after it they are expired.
pub proof fn lemma_expiry_boundary(user_id: nat, t0: nat, ttl: nat)
    requires
        0 < user_id <= i32::MAX,
        0 < ttl,
        t0 + ttl < u64::MAX,
    ensures
        claims_outcome(issued_claims(user_id, t0, t0 + ttl), (t0 + ttl - 1) as nat) is Ok,
        claims_outcome(issued_claims(user_id, t0, t0 + ttl), t0 + ttl + 1) == Err::<
            (Seq<char>, nat, nat),
            VerificationError,
        >(VerificationError::Expired),
{
    lemma_issued_claims_outcome(user_id, t0, ttl, (t0 + ttl - 1) as nat);
    lemma_issued_claims_outcome(user_id, t0, ttl, t0 + ttl + 1);
}

/// Tamper detection: a token whose last segment is replaced by any other dot-free
/// text is no longer signed under `key`, so it is refused as an invalid signature.
pub proof fn lemma_tampered_signature_refused(key: Seq<u8>, m: Seq<char>, s: Seq<char>)
    requires
        dot_free(s),
        s != hs256_signature(key, m),
    ensures
        !mac_signed(key, m + seq!['.'] + s),
{
    let t = m + seq!['.'] + s;
    if mac_signed(key, t) {
        let m2 = choose|m2: Seq<char>|
            t == m2 + seq!['.'] + #[trigger] hs256_signature(key, m2) && dot_free(
                hs256_signature(key, m2),
            );
        let s2 = hs256_signature(key, m2);
        let pre = m + seq!['.'];
        let pre2 = m2 + seq!['.'];
        assert(t == pre + s);
        assert(t == pre2 + s2);
        assert(pre[m.len() as int] == '.');
        assert(pre2[m2.len() as int] == '.');
        assert(t[m.len() as int] == '.');
        assert(t[m2.len() as int] == '.');
        if m2.len() < m.len() {
            assert(t[m.len() as int] == s2[m.len() - pre2.len()]);
        } else if m.len() < m2.len() {
            assert(t[m2.len() as int] == s[m2.len() - pre.len()]);
        }
        assert(m2 =~= t.subrange(0, m.len() as int));
        assert(m =~= t.subrange(0, m.len() as int));
        assert(s =~= t.subrange(m.len() as int + 1, t.len() as int));
        assert(s2 =~= t.subrange(m.len() as int + 1, t.len() as int));
    }
}

} // verus!
