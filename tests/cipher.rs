use secret_vault::cipher::{decrypt, encrypt, seal_with_nonce, SecretVault, NONCE_LEN, TAG_LEN};
use secret_vault::error::VaultError;

fn key(byte: u8) -> [u8; 32] {
    [byte; 32]
}

#[test]
fn round_trip_returns_plaintext() {
    let k = key(7);
    for p in [&b""[..], &b"hello"[..], &[0u8, 255, 13, 10][..]] {
        let blob = encrypt(&k, p).unwrap();
        assert_eq!(blob.len(), NONCE_LEN + p.len() + TAG_LEN);
        assert_eq!(decrypt(&k, &blob).unwrap(), p.to_vec());
    }
}

#[test]
fn two_encryptions_use_fresh_nonces() {
    let k = key(1);
    let a = encrypt(&k, b"same plaintext").unwrap();
    let b = encrypt(&k, b"same plaintext").unwrap();
    assert_ne!(a[..NONCE_LEN], b[..NONCE_LEN]);
    assert_ne!(a, b);
}

#[test]
fn wrong_key_fails_closed() {
    let blob = encrypt(&key(1), b"top secret").unwrap();
    assert_eq!(decrypt(&key(2), &blob), Err(VaultError::DecryptionFailure));
}

#[test]
fn truncated_blob_is_malformed() {
    let k = key(3);
    let mut blob = encrypt(&k, b"hello").unwrap();
    blob.truncate(10);
    assert_eq!(decrypt(&k, &blob), Err(VaultError::MalformedInput));
    assert_eq!(decrypt(&k, &[]), Err(VaultError::MalformedInput));
}

#[test]
fn blob_without_full_tag_fails_decryption() {
    let k = key(3);
    let blob = encrypt(&k, b"hello").unwrap();
    assert_eq!(decrypt(&k, &blob[..20]), Err(VaultError::DecryptionFailure));
    assert_eq!(decrypt(&k, &blob[..NONCE_LEN]), Err(VaultError::DecryptionFailure));
}

#[test]
fn tampered_blob_fails_decryption() {
    let k = key(4);
    let mut blob = encrypt(&k, b"hello world").unwrap();
    let last = blob.len() - 1;
    blob[last] ^= 1;
    assert_eq!(decrypt(&k, &blob), Err(VaultError::DecryptionFailure));
    let mut blob = encrypt(&k, b"hello world").unwrap();
    blob[0] ^= 0x80;
    assert_eq!(decrypt(&k, &blob), Err(VaultError::DecryptionFailure));
}

#[test]
fn derive_key_is_deterministic() {
    let salt = [9u8; 16];
    let a = SecretVault::derive_key("passphrase", &salt);
    let b = SecretVault::derive_key("passphrase", &salt);
    assert_eq!(a, b);
    assert_ne!(a, SecretVault::derive_key("passphrase", &[8u8; 16]));
    assert_ne!(a, SecretVault::derive_key("Passphrase", &salt));
}

#[test]
fn derive_key_golden_vector() {
    let mut salt = [0u8; 16];
    salt[15] = 1;
    let k = SecretVault::derive_key("correct horse", &salt);
    assert_eq!(
        k,
        [
            175, 98, 71, 102, 2, 76, 177, 96, 230, 95, 58, 122, 211, 83, 82, 144, 142, 144, 25,
            53, 109, 66, 253, 81, 138, 189, 204, 232, 126, 236, 95, 168
        ]
    );
}

#[test]
fn vault_files_reads_and_removes_secrets() {
    let k = SecretVault::derive_key("operator", b"0123456789abcdef");
    let mut vault = SecretVault::new();
    assert_eq!(vault.len(), 0);
    let blob = SecretVault::add_secret(&k, "db".to_string(), "p@ss wörd".to_string()).unwrap();
    assert_ne!(&blob[NONCE_LEN..NONCE_LEN + 5], "p@ss ".as_bytes());
    vault.insert_secret("db".to_string(), blob);
    let other = SecretVault::add_secret(&k, "api".to_string(), "token-1".to_string()).unwrap();
    vault.insert_secret("api".to_string(), other);
    assert_eq!(vault.len(), 2);
    assert_eq!(vault.get_secret(&k, "db"), Some("p@ss wörd".to_string()));
    assert_eq!(vault.get_secret(&k, "api"), Some("token-1".to_string()));
    assert_eq!(vault.get_secret(&k, "missing"), None);
    assert_eq!(vault.get_secret(&[0u8; 32], "db"), None);
    assert_eq!(vault.remove_secret(&k, "db"), Some("p@ss wörd".to_string()));
    assert_eq!(vault.len(), 1);
    assert_eq!(vault.get_secret(&k, "db"), None);
    assert_eq!(vault.remove_secret(&k, "db"), None);
}

#[test]
fn vault_insert_replaces_same_name() {
    let k = key(5);
    let mut vault = SecretVault::new();
    vault.insert_secret("x".to_string(), SecretVault::add_secret(&k, "x".to_string(), "one".to_string()).unwrap());
    vault.insert_secret("x".to_string(), SecretVault::add_secret(&k, "x".to_string(), "two".to_string()).unwrap());
    assert_eq!(vault.len(), 1);
    assert_eq!(vault.get_secret(&k, "x"), Some("two".to_string()));
    let entries = vault.into_entries();
    assert_eq!(entries.len(), 1);
    assert_eq!(entries[0].0, "x");
}

#[test]
fn short_stored_blob_reads_as_nothing() {
    let mut vault = SecretVault::new();
    vault.insert_secret("bad".to_string(), vec![1, 2, 3]);
    assert_eq!(vault.get_secret(&key(1), "bad"), None);
    assert_eq!(vault.remove_secret(&key(1), "bad"), None);
    assert_eq!(vault.len(), 0);
}

#[test]
fn seal_with_given_nonce_is_deterministic() {
    let k = key(6);
    let nonce = [7u8; 12];
    let a = seal_with_nonce(&k, &nonce, b"hello").unwrap();
    let b = seal_with_nonce(&k, &nonce, b"hello").unwrap();
    assert_eq!(a, b);
    assert_eq!(a.len(), 12 + 5 + 16);
    assert_eq!(&a[..12], &nonce[..]);
    assert_ne!(&a[12..17], &b"hello"[..]);
    assert_eq!(decrypt(&k, &a).unwrap(), b"hello".to_vec());
    assert_eq!(seal_with_nonce(&k, &[7u8; 11], b"hello"), Err(VaultError::MalformedInput));
}

#[test]
fn add_secret_blob_has_nonce_ciphertext_and_tag() {
    let blob = SecretVault::add_secret(&[0u8; 32], "n".to_string(), "hello".to_string()).unwrap();
    assert_eq!(blob.len(), 33);
}

#[test]
fn blob_shorter_than_nonce_and_tag_reads_as_nothing() {
    let mut vault = SecretVault::new();
    vault.insert_secret("short".to_string(), vec![5u8; 27]);
    vault.insert_secret("nonce_only".to_string(), vec![5u8; 12]);
    assert_eq!(vault.get_secret(&key(1), "short"), None);
    assert_eq!(vault.get_secret(&key(1), "nonce_only"), None);
}

#[test]
fn entries_copy_leaves_vault_intact() {
    let k = key(2);
    let mut vault = SecretVault::new();
    let blob = SecretVault::add_secret(&k, "a".to_string(), "alpha".to_string()).unwrap();
    vault.insert_secret("a".to_string(), blob.clone());
    let entries = vault.entries();
    assert_eq!(entries, vec![("a".to_string(), blob)]);
    assert_eq!(vault.get_secret(&k, "a"), Some("alpha".to_string()));
}
