use authcore::claims::{parse_claims, write_claims};
use authcore::decimal::{parse_decimal, write_decimal};
use authcore::{check_claims, subject_id, Claim, ConfigError, IssueError, TokenConfig, VerificationError};

const TTL: u64 = 3600;
const T0: u64 = 1_700_000_000;

fn config() -> TokenConfig {
    TokenConfig::new(Some("SECRET-REDACTED".to_string()), TTL).unwrap()
}

#[test]
fn issue_then_verify_returns_the_claim() {
    let c = config();
    let token = c.issue(42, T0).unwrap();
    assert_eq!(token.split('.').count(), 3);
    assert_eq!(
        c.verify(&token, T0),
        Ok(Claim { subject: "42".to_string(), issued_at: T0, expires_at: T0 + TTL })
    );
}

#[test]
fn round_trip_keeps_the_subject() {
    let c = config();
    for id in [1, 7, 10, 99, 2147483647] {
        let token = c.issue(id, T0).unwrap();
        assert_eq!(c.verify(&token, T0).unwrap().subject, id.to_string());
    }
}

#[test]
fn expiry_boundary() {
    let c = config();
    let token = c.issue(42, T0).unwrap();
    assert!(c.verify(&token, T0 + TTL - 1).is_ok());
    assert!(c.verify(&token, T0 + TTL).is_ok());
    assert_eq!(c.verify(&token, T0 + TTL + 1), Err(VerificationError::Expired));
}

#[test]
fn flipping_any_signature_byte_is_an_invalid_signature() {
    let c = config();
    let token = c.issue(42, T0).unwrap();
    let cut = token.rfind('.').unwrap() + 1;
    let bytes = token.as_bytes();
    for i in cut..bytes.len() {
        let mut changed = bytes.to_vec();
        changed[i] = if bytes[i] == b'A' { b'B' } else { b'A' };
        let forged = String::from_utf8(changed).unwrap();
        assert_eq!(c.verify(&forged, T0), Err(VerificationError::InvalidSignature));
    }
}

#[test]
fn another_secret_or_garbage_is_an_invalid_signature() {
    let c = config();
    let other = TokenConfig::new(Some("another".to_string()), TTL).unwrap();
    let token = other.issue(42, T0).unwrap();
    assert_eq!(c.verify(&token, T0), Err(VerificationError::InvalidSignature));
    assert_eq!(c.verify("garbage", T0), Err(VerificationError::InvalidSignature));
    assert_eq!(c.verify("", T0), Err(VerificationError::InvalidSignature));
}

#[test]
fn issue_refuses_bad_subjects_and_overflow() {
    let c = config();
    assert_eq!(c.issue(0, T0), Err(IssueError::NonPositiveSubject));
    assert_eq!(c.issue(-5, T0), Err(IssueError::NonPositiveSubject));
    assert_eq!(c.issue(1, u64::MAX - TTL + 1), Err(IssueError::ClockOverflow));
    assert!(c.issue(1, u64::MAX - TTL).is_ok());
}

#[test]
fn config_requires_a_secret_and_a_lifetime() {
    assert!(matches!(TokenConfig::new(None, TTL), Err(ConfigError::MissingSecret)));
    assert!(matches!(TokenConfig::new(Some(String::new()), TTL), Err(ConfigError::MissingSecret)));
    assert!(matches!(TokenConfig::new(Some("k".to_string()), 0), Err(ConfigError::ZeroTtl)));
    assert_eq!(TokenConfig::new(Some("k".to_string()), 5).unwrap().ttl(), 5);
}

#[test]
fn claims_text_is_exact() {
    assert_eq!(write_claims(42, 100, 3700), "{\"sub\":\"42\",\"iat\":100,\"exp\":3700}");
    assert_eq!(
        parse_claims("{\"sub\":\"42\",\"iat\":100,\"exp\":3700}"),
        Some(("42".to_string(), 100, 3700))
    );
}

#[test]
fn claims_of_other_shapes_are_malformed() {
    assert_eq!(parse_claims("{\"exp\":3700,\"sub\":\"42\",\"iat\":100}"), None);
    assert_eq!(parse_claims("{\"sub\":\"42\",\"iat\":0100,\"exp\":3700}"), None);
    assert_eq!(parse_claims("{\"sub\":\"42\",\"iat\":100,\"exp\":3700} "), None);
    assert_eq!(parse_claims("{\"sub\":\"42\",\"iat\":100,\"exp\":18446744073709551616}"), None);
    assert_eq!(check_claims("{}", 0), Err(VerificationError::MalformedClaim));
}

#[test]
fn check_claims_tests_expiry_before_subject() {
    let abc = "{\"sub\":\"abc\",\"iat\":1,\"exp\":10}";
    assert_eq!(check_claims(abc, 10), Err(VerificationError::MalformedClaim));
    assert_eq!(check_claims(abc, 11), Err(VerificationError::Expired));
    let zero = "{\"sub\":\"0\",\"iat\":1,\"exp\":10}";
    assert_eq!(check_claims(zero, 5), Err(VerificationError::MalformedClaim));
    let big = "{\"sub\":\"2147483648\",\"iat\":1,\"exp\":10}";
    assert_eq!(check_claims(big, 5), Err(VerificationError::MalformedClaim));
    let ok = "{\"sub\":\"7\",\"iat\":1,\"exp\":10}";
    assert_eq!(
        check_claims(ok, 10),
        Ok(Claim { subject: "7".to_string(), issued_at: 1, expires_at: 10 })
    );
}

#[test]
fn subject_ids_are_positive_canonical_decimals() {
    assert_eq!(subject_id(&"42".to_string()), Some(42));
    assert_eq!(subject_id(&"2147483647".to_string()), Some(2147483647));
    assert_eq!(subject_id(&"042".to_string()), None);
    assert_eq!(subject_id(&"-1".to_string()), None);
    assert_eq!(subject_id(&"".to_string()), None);
}

#[test]
fn decimal_forms() {
    let mut s = String::new();
    write_decimal(&mut s, 0);
    assert_eq!(s, "0");
    let mut s = "x".to_string();
    write_decimal(&mut s, 18446744073709551615);
    assert_eq!(s, "x18446744073709551615");
    assert_eq!(parse_decimal("a907b", 1, 4), Some(907));
    assert_eq!(parse_decimal("18446744073709551615", 0, 20), Some(u64::MAX));
    assert_eq!(parse_decimal("18446744073709551616", 0, 20), None);
    assert_eq!(parse_decimal("00", 0, 2), None);
    assert_eq!(parse_decimal("0", 0, 1), Some(0));
    assert_eq!(parse_decimal("", 0, 0), None);
}
