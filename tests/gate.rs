use authcore::{authenticate, rejection, AuthError, Identity, TokenConfig};

const TTL: u64 = 3600;
const T0: u64 = 1_700_000_000;

fn config() -> TokenConfig {
    TokenConfig::new(Some("gate secret".to_string()), TTL).unwrap()
}

#[test]
fn missing_header_is_missing_credentials() {
    assert_eq!(authenticate(&config(), None, T0), Err(AuthError::MissingCredentials));
}

#[test]
fn other_scheme_is_malformed_credentials() {
    let c = config();
    assert_eq!(authenticate(&c, Some("Basic xyz"), T0), Err(AuthError::MalformedCredentials));
    let token = c.issue(42, T0).unwrap();
    let lower = format!("bearer {}", token);
    assert_eq!(authenticate(&c, Some(&lower), T0), Err(AuthError::MalformedCredentials));
    let two_spaces = format!("Bearer  {}", token);
    assert_eq!(authenticate(&c, Some(&two_spaces), T0), Err(AuthError::InvalidSignature));
    assert_eq!(authenticate(&c, Some("Bearer"), T0), Err(AuthError::MalformedCredentials));
}

#[test]
fn expired_bearer_token_is_expired() {
    let c = config();
    let token = c.issue(42, T0).unwrap();
    let header = format!("Bearer {}", token);
    assert_eq!(authenticate(&c, Some(&header), T0 + TTL + 1), Err(AuthError::Expired));
}

#[test]
fn valid_bearer_token_yields_the_identity() {
    let c = config();
    let token = c.issue(42, T0).unwrap();
    let header = format!("Bearer {}", token);
    assert_eq!(authenticate(&c, Some(&header), T0), Ok(Identity { user_id: 42 }));
    assert_eq!(authenticate(&c, Some(&header), T0 + TTL), Ok(Identity { user_id: 42 }));
}

#[test]
fn forged_bearer_token_is_invalid_signature() {
    let c = config();
    assert_eq!(authenticate(&c, Some("Bearer abc.def.ghi"), T0), Err(AuthError::InvalidSignature));
}

#[test]
fn every_refusal_gets_the_same_response() {
    let all = [
        AuthError::MissingCredentials,
        AuthError::MalformedCredentials,
        AuthError::InvalidSignature,
        AuthError::Expired,
        AuthError::MalformedClaim,
    ];
    for e in all {
        let r = rejection(e);
        assert_eq!(r.status, 401);
        assert_eq!(r.body, "Unauthorized");
    }
    assert_eq!(rejection(AuthError::Expired), rejection(AuthError::MalformedCredentials));
}

#[test]
fn tampered_or_foreign_bearer_tokens_are_refused() {
    let c = config();
    let token = c.issue(42, T0).unwrap();
    let mut forged = token.clone();
    let last = forged.pop().unwrap();
    forged.push(if last == 'A' { 'B' } else { 'A' });
    let header = format!("Bearer {}", forged);
    assert_eq!(authenticate(&c, Some(&header), T0), Err(AuthError::InvalidSignature));
    let other = TokenConfig::new(Some("other secret".to_string()), TTL).unwrap();
    let foreign = format!("Bearer {}", other.issue(42, T0).unwrap());
    assert_eq!(authenticate(&c, Some(&foreign), T0), Err(AuthError::InvalidSignature));
}

#[test]
fn expired_and_malformed_get_identical_responses() {
    let c = config();
    let token = c.issue(42, T0).unwrap();
    let header = format!("Bearer {}", token);
    let expired = authenticate(&c, Some(&header), T0 + TTL + 1).unwrap_err();
    let basic = authenticate(&c, Some("Basic xyz"), T0).unwrap_err();
    assert_eq!(rejection(expired), rejection(basic));
    assert_eq!(authenticate(&c, Some(&header), T0 + TTL - 1), Ok(Identity { user_id: 42 }));
}
