use secret_vault::keys::{
    generate_key_record, is_within_window, key_record, select_active_key, KeyRing,
    ROTATION_WINDOW_SECS,
};
use secret_vault::models::KeyPairDocument;
use secret_vault::token::decode_keys;

fn record(created_at: i64) -> KeyPairDocument {
    KeyPairDocument { public_key: "pk".to_string(), private_key: "sk".to_string(), created_at }
}

#[test]
fn window_boundaries() {
    assert!(is_within_window(1000, 1000, 100));
    assert!(is_within_window(1000, 1099, 100));
    assert!(is_within_window(1000, 1100, 100));
    assert!(!is_within_window(1000, 1101, 100));
    assert!(is_within_window(2000, 1000, 100));
    assert!(!is_within_window(i64::MIN, i64::MAX, ROTATION_WINDOW_SECS));
}

#[test]
fn select_returns_only_fresh_record() {
    assert_eq!(select_active_key(Some(record(10)), 50, 100).map(|d| d.created_at), Some(10));
    assert_eq!(select_active_key(Some(record(10)), 110, 100).map(|d| d.created_at), Some(10));
    assert!(select_active_key(Some(record(10)), 111, 100).is_none());
    assert!(select_active_key(None, 110, 100).is_none());
}

#[test]
fn generated_record_decodes_to_key_pair() {
    let d = generate_key_record(1234).unwrap();
    assert_eq!(d.created_at, 1234);
    let (secret, public) = decode_keys(&d).unwrap();
    assert_eq!(secret.len(), 64);
    assert_eq!(public.len(), 32);
    assert_eq!(&secret[32..], &public[..]);
}

#[test]
fn decode_keys_rejects_bad_base64() {
    assert_eq!(decode_keys(&record(0)).unwrap_err(), secret_vault::error::VaultError::MalformedInput);
}

#[test]
fn empty_ring_creates_one_key_for_many_callers() {
    let mut ring = KeyRing::new(ROTATION_WINDOW_SECS);
    let first = ring.get_or_create_active_key(1_000).unwrap();
    for t in [1_000, 1_000, 1_500, 50_000] {
        let again = ring.get_or_create_active_key(t).unwrap();
        assert_eq!(again.private_key, first.private_key);
        assert_eq!(again.created_at, 1_000);
    }
    assert_eq!(ring.len(), 1);
}

#[test]
fn expired_key_is_rotated() {
    let mut ring = KeyRing::new(100);
    let first = ring.get_or_create_active_key(1_000).unwrap();
    let same = ring.get_or_create_active_key(1_100).unwrap();
    assert_eq!(same.private_key, first.private_key);
    let second = ring.get_or_create_active_key(1_101).unwrap();
    assert_eq!(second.created_at, 1_101);
    assert_ne!(second.private_key, first.private_key);
    assert_eq!(ring.len(), 2);
    assert_eq!(ring.latest().unwrap().created_at, 1_101);
}

#[test]
fn key_record_encodes_both_halves() {
    let d = key_record(&[0, 1, 2], &[255], 7);
    assert_eq!(d.private_key, "AAEC");
    assert_eq!(d.public_key, "/w==");
    assert_eq!(d.created_at, 7);
}

#[test]
fn decode_keys_rejects_halves_of_the_wrong_shape() {
    let mut secret = [3u8; 64];
    let public = [4u8; 32];
    assert_eq!(
        decode_keys(&key_record(&secret, &public, 0)).unwrap_err(),
        secret_vault::error::VaultError::MalformedInput
    );
    secret[32..].copy_from_slice(&public);
    assert_eq!(
        decode_keys(&key_record(&secret, &public, 0)).unwrap_err(),
        secret_vault::error::VaultError::MalformedInput
    );
    assert!(decode_keys(&generate_key_record(0).unwrap()).is_ok());
    let zero_seed = [0u8; 64];
    assert_eq!(
        decode_keys(&key_record(&zero_seed, &[0u8; 32], 0)).unwrap_err(),
        secret_vault::error::VaultError::MalformedInput
    );
    assert!(decode_keys(&key_record(&secret, &public[..31], 0)).is_err());
}

#[test]
fn record_exactly_one_day_old_is_still_returned() {
    let mut ring = KeyRing::new(ROTATION_WINDOW_SECS);
    let first = ring.get_or_create_active_key(0).unwrap();
    let same = ring.get_or_create_active_key(ROTATION_WINDOW_SECS).unwrap();
    assert_eq!(same.private_key, first.private_key);
    assert_eq!(ring.len(), 1);
    let fresh = ring.get_or_create_active_key(ROTATION_WINDOW_SECS + 1).unwrap();
    assert_eq!(fresh.created_at, ROTATION_WINDOW_SECS + 1);
    assert_eq!(ring.len(), 2);
}

#[test]
fn generated_keys_differ() {
    let a = generate_key_record(0).unwrap();
    let b = generate_key_record(0).unwrap();
    assert_ne!(a.private_key, b.private_key);
}
