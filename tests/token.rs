use base64::engine::general_purpose::URL_SAFE_NO_PAD;
use base64::Engine;
use secret_vault::error::VaultError;
use secret_vault::hex::lower_hex;
use secret_vault::keys::KeyRing;
use secret_vault::models::{User, UserCredentials};
use secret_vault::keys::{generate_key_record, key_record};
use secret_vault::token::{
    authorize_user, build_claims, check_password, claim_nonce, hash_password, issue_token,
    sign_claims, token_claims, SERVICE_ID, TOKEN_TTL_SECS,
};

fn user(hash: &str) -> User {
    User {
        id: "1".to_string(),
        email: "alice@example.com".to_string(),
        password: hash.to_string(),
        created_at: "2024-01-01T00:00:00Z".to_string(),
    }
}

fn creds(password: &str) -> UserCredentials {
    UserCredentials { email: "alice@example.com".to_string(), password: password.to_string() }
}

#[test]
fn hex_is_lower_case_two_digits_per_byte() {
    assert_eq!(lower_hex(&[0x00, 0x0f, 0xa0, 0xff]), "000fa0ff");
    assert_eq!(lower_hex(&[]), "");
}

#[test]
fn nonce_is_sha256_hex_of_subject_and_secret() {
    assert_eq!(
        claim_nonce("alice@example.com", "server-secret"),
        "52291e008e078fd27fa58beff5e27348a9b33f4e6084337d97e3cba8085a368d"
    );
    assert_ne!(claim_nonce("alice@example.com", "other"), claim_nonce("alice@example.com", "server-secret"));
}

#[test]
fn claims_carry_subject_expiry_and_audience() {
    let c = build_claims("alice@example.com", "server-secret", 1_700_000_000).unwrap();
    assert_eq!(c.subject, "alice@example.com");
    assert_eq!(c.expiration, 1_700_000_000 + 28_800);
    assert_eq!(TOKEN_TTL_SECS, 480 * 60);
    assert_eq!(c.issuer, SERVICE_ID);
    assert_eq!(c.audience, vec![SERVICE_ID.to_string()]);
    assert_eq!(c.nonce, claim_nonce("alice@example.com", "server-secret"));
}

#[test]
fn claims_past_the_last_instant_fail() {
    assert_eq!(build_claims("a", "b", i64::MAX - 28_799).unwrap_err(), VaultError::IssuanceFailure);
    assert!(build_claims("a", "b", i64::MAX - 28_800).is_ok());
}

#[test]
fn signing_with_a_short_key_fails() {
    let c = build_claims("a", "b", 0).unwrap();
    assert_eq!(sign_claims(&[1u8; 10], &c), Err(VaultError::IssuanceFailure));
    assert_eq!(sign_claims(&[0u8; 64], &c), Err(VaultError::IssuanceFailure));
    assert_eq!(sign_claims(&[1u8; 64], &c), Err(VaultError::IssuanceFailure));
}

#[test]
fn wrong_password_is_invalid_credentials() {
    let hash = hash_password("right".to_string()).unwrap();
    let mut ring = KeyRing::new(86_400);
    let r = authorize_user(&user(&hash), &creds("wrong"), "server-secret", &mut ring, 1_700_000_000);
    assert_eq!(r, Err(VaultError::InvalidCredentials));
    assert_eq!(ring.len(), 0);
    let r = authorize_user(&user("not a hash"), &creds("right"), "server-secret", &mut ring, 1_700_000_000);
    assert_eq!(r, Err(VaultError::InvalidCredentials));
}

#[test]
fn correct_password_on_empty_store_issues_token() {
    let hash = hash_password("right".to_string()).unwrap();
    let mut ring = KeyRing::new(86_400);
    let token = authorize_user(&user(&hash), &creds("right"), "server-secret", &mut ring, 1_700_000_000).unwrap();
    assert!(token.starts_with("v4.public."));
    assert_eq!(ring.len(), 1);
    let again = authorize_user(&user(&hash), &creds("right"), "server-secret", &mut ring, 1_700_000_100).unwrap();
    assert!(again.starts_with("v4.public."));
    assert_eq!(ring.len(), 1);
    let later = authorize_user(&user(&hash), &creds("right"), "server-secret", &mut ring, 1_700_086_401).unwrap();
    assert!(later.starts_with("v4.public."));
    assert_eq!(ring.len(), 2);
}

#[test]
fn error_messages_are_uniform() {
    assert_eq!(VaultError::InvalidCredentials.message(), "Invalid credentials");
    assert_eq!(VaultError::DecryptionFailure.message(), "Decryption failed");
}

#[test]
fn token_payload_holds_the_claims() {
    let hash = hash_password("right".to_string()).unwrap();
    let mut ring = KeyRing::new(86_400);
    let token = authorize_user(&user(&hash), &creds("right"), "server-secret", &mut ring, 1_700_000_000).unwrap();
    let body = URL_SAFE_NO_PAD.decode(&token["v4.public.".len()..]).unwrap();
    let claims = String::from_utf8(body[..body.len() - 64].to_vec()).unwrap();
    assert!(claims.contains("\"sub\":\"alice@example.com\""));
    assert!(claims.contains("\"exp\":\"2023-11-15T06:13:20+00:00\""));
    assert!(claims.contains("\"iss\":\"https://www.embraconnect.com\""));
    assert!(claims.contains("\"aud\":\"https://www.embraconnect.com\""));
    assert!(claims.contains("\"nonce\":\"52291e008e078fd27fa58beff5e27348a9b33f4e6084337d97e3cba8085a368d\""));
}

#[test]
fn token_claims_hold_the_built_values() {
    let c = build_claims("alice@example.com", "server-secret", 1_700_000_000).unwrap();
    let t = token_claims(&c, "2023-11-15T06:13:20+00:00").unwrap();
    assert_eq!(t.get_claim("sub").unwrap().as_str(), Some("alice@example.com"));
    assert_eq!(t.get_claim("iss").unwrap().as_str(), Some(SERVICE_ID));
    assert_eq!(t.get_claim("aud").unwrap().as_str(), Some(SERVICE_ID));
    assert_eq!(t.get_claim("exp").unwrap().as_str(), Some("2023-11-15T06:13:20+00:00"));
    assert_eq!(t.get_claim("nonce").unwrap().as_str(), Some(c.nonce.as_str()));
    assert!(token_claims(&c, "tomorrow").is_err());
}

#[test]
fn hashed_password_is_a_bcrypt_text() {
    let h = hash_password("right".to_string()).unwrap();
    assert_eq!(h.len(), 60);
    assert!(h.starts_with("$2b$12$"));
    assert_ne!(h, "right");
    assert!(check_password(&user(&h), &creds("right")).is_ok());
}

#[test]
fn issue_token_uses_the_given_record() {
    let d = generate_key_record(5).unwrap();
    let token = issue_token("alice@example.com", "s", &d, 1_700_000_000).unwrap();
    assert!(token.starts_with("v4.public."));
    let bad = key_record(&[1u8; 64], &[1u8; 32], 5);
    assert_eq!(issue_token("alice@example.com", "s", &bad, 1_700_000_000), Err(VaultError::MalformedInput));
    let malformed = key_record(&[1u8; 10], &[1u8; 32], 5);
    assert_eq!(issue_token("alice@example.com", "s", &malformed, 1_700_000_000), Err(VaultError::MalformedInput));
    assert_eq!(issue_token("alice@example.com", "s", &d, i64::MAX), Err(VaultError::IssuanceFailure));
}

#[test]
fn every_error_has_its_message() {
    assert_eq!(VaultError::KeyGenerationFailure.message(), "Key generation failed");
    assert_eq!(VaultError::StoreUnavailable.message(), "Store unavailable");
    assert_eq!(VaultError::MalformedInput.message(), "Malformed input");
    assert_eq!(VaultError::IssuanceFailure.message(), "Token issuance failed");
}
