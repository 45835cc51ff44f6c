//! Key derivation and authenticated encryption of secret values, and an
//! in-memory name-to-blob vault.
use aes_gcm::aead::rand_core::RngCore;
use aes_gcm::aead::{Aead, OsRng};
use aes_gcm::{Aes256Gcm, KeyInit, Nonce};
use vstd::prelude::*;
use vstd::utf8::{
    decode_utf8, decode_utf8_encode_utf8, encode_utf8, encode_utf8_decode_utf8,
    encode_utf8_valid_utf8, valid_utf8,
};

use crate::error::VaultError;

verus! {

/// Bytes of random nonce in front of every blob.
pub const NONCE_LEN: usize = 12;

/// Bytes of authentication tag behind every ciphertext.
pub const TAG_LEN: usize = 16;

/// Iterations of the key-derivation function.
pub const KDF_ROUNDS: u32 = 10000;

/// The longest plaintext, in bytes, that AES-GCM seals (2^36).
pub const MAX_PLAINTEXT_LEN: u64 = 68719476736;

/// aes-gcm's opaque AEAD error (`aead::Error`).
#[verifier::external_type_specification]
#[verifier::external_body]
pub struct ExAeadError(aes_gcm::Error);

/// rand_core's error for a failed read of the operating system's generator.
#[verifier::external_type_specification]
#[verifier::external_body]
pub struct ExRandError(aes_gcm::aead::rand_core::Error);

/// The 32 bytes that PBKDF2 with HMAC-SHA-256 derives.
pub uninterp spec fn pbkdf2_hmac_sha256(password: Seq<u8>, salt: Seq<u8>, rounds: nat) -> Seq<u8>;

/// The AES-256-GCM ciphertext, tag appended, of `plaintext` (no associated data).
pub uninterp spec fn aes256_gcm_sealed(key: Seq<u8>, nonce: Seq<u8>, plaintext: Seq<u8>) -> Seq<u8>;

/// Relies on pbkdf2::pbkdf2_hmac::<Sha256>: the output depends on password,
/// salt and rounds alone, and HMAC accepts a key of any length, so it never fails.
#[verifier::external_body]
fn pbkdf2_sha256(password: &[u8], salt: &[u8], rounds: u32) -> (r: [u8; 32])
    ensures
        r@ == pbkdf2_hmac_sha256(password@, salt@, rounds as nat),
{
    let mut out = [0u8; 32];
    pbkdf2::pbkdf2_hmac::<sha2::Sha256>(password, salt, rounds, &mut out);
    out
}

/// Relies on rand_core's `OsRng::try_fill_bytes` (re-exported by aes_gcm::aead):
/// `len` bytes from the operating system's generator, or the generator's failure.
#[verifier::external_body]
pub(crate) fn fill_random(len: usize) -> (r: Result<Vec<u8>, aes_gcm::aead::rand_core::Error>)
    ensures
        r is Ok ==> r->Ok_0@.len() == len,
{
    let mut out = vec![0u8; len];
    OsRng.try_fill_bytes(&mut out).map(|_| out)
}

/// Relies on `Aes256Gcm::encrypt` (aead::Aead, no associated data): it fails
/// only on a plaintext longer than 2^36 bytes, and otherwise returns the
/// ciphertext followed by the 16-byte tag, a function of key, nonce and plaintext.
#[verifier::external_body]
fn aes_seal(key: &[u8; 32], nonce: &[u8], plaintext: &[u8]) -> (r: Result<Vec<u8>, aes_gcm::Error>)
    requires
        nonce@.len() == NONCE_LEN,
    ensures
        r is Ok <==> plaintext@.len() <= MAX_PLAINTEXT_LEN,
        r is Ok ==> r->Ok_0@ == aes256_gcm_sealed(key@, nonce@, plaintext@),
        r is Ok ==> r->Ok_0@.len() == plaintext@.len() + TAG_LEN,
{
    let cipher = Aes256Gcm::new(aes_gcm::Key::<Aes256Gcm>::from_slice(key));
    cipher.encrypt(Nonce::from_slice(nonce), plaintext)
}

/// Relies on `Aes256Gcm::decrypt`: on input no longer than 2^36 bytes plus the
/// tag, it succeeds exactly when the trailing 16-byte tag verifies, that is when
/// the input is the sealing of some plaintext under this key and nonce, and then
/// returns that plaintext.
#[verifier::external_body]
fn aes_open(key: &[u8; 32], nonce: &[u8], ciphertext: &[u8]) -> (r: Result<Vec<u8>, aes_gcm::Error>)
    requires
        nonce@.len() == NONCE_LEN,
        ciphertext@.len() <= MAX_PLAINTEXT_LEN + TAG_LEN,
    ensures
        r is Ok ==> r->Ok_0@.len() <= MAX_PLAINTEXT_LEN,
        r is Ok ==> ciphertext@.len() == r->Ok_0@.len() + TAG_LEN,
        r is Ok ==> aes256_gcm_sealed(key@, nonce@, r->Ok_0@) == ciphertext@,
        forall|p: Seq<u8>|
            p.len() <= MAX_PLAINTEXT_LEN && #[trigger] aes256_gcm_sealed(key@, nonce@, p)
                == ciphertext@ ==> r is Ok && r->Ok_0@ == p,
{
    let cipher = Aes256Gcm::new(aes_gcm::Key::<Aes256Gcm>::from_slice(key));
    cipher.decrypt(Nonce::from_slice(nonce), ciphertext)
}

/// Relies on `String::from_utf8`: it succeeds exactly on valid UTF-8 and then
/// holds the characters that the bytes encode.
#[verifier::external_body]
pub(crate) fn string_from_utf8(bytes: Vec<u8>) -> (r: Option<String>)
    ensures
        r is Some <==> valid_utf8(bytes@),
        r is Some ==> r->0@ == decode_utf8(bytes@),
{
    String::from_utf8(bytes).ok()
}

/// The key that `derive_key` returns for a passphrase and a salt.
pub open spec fn derived_key(passphrase: Seq<char>, salt: Seq<u8>) -> Seq<u8> {
    pbkdf2_hmac_sha256(encode_utf8(passphrase), salt, KDF_ROUNDS as nat)
}

/// `blob` is `nonce || ciphertext || tag` for `plaintext` under `key`.
pub open spec fn is_sealing_of(key: Seq<u8>, blob: Seq<u8>, plaintext: Seq<u8>) -> bool {
    &&& blob.len() == NONCE_LEN + plaintext.len() + TAG_LEN
    &&& plaintext.len() <= MAX_PLAINTEXT_LEN
    &&& aes256_gcm_sealed(key, blob.take(NONCE_LEN as int), plaintext) == blob.skip(NONCE_LEN as int)
}

/// What `decrypt` returns on `key` and `blob`: a blob shorter than a nonce is
/// malformed; otherwise the plaintext it seals, or a decryption failure when it
/// seals none.
pub open spec fn decrypt_outcome(key: Seq<u8>, blob: Seq<u8>, r: Result<Seq<u8>, VaultError>) -> bool {
    if blob.len() < NONCE_LEN {
        r == Err::<Seq<u8>, VaultError>(VaultError::MalformedInput)
    } else {
        &&& forall|p: Seq<u8>| #[trigger] is_sealing_of(key, blob, p) ==> r == Ok::<Seq<u8>, VaultError>(p)
        &&& r is Ok ==> is_sealing_of(key, blob, r->Ok_0)
        &&& r is Err ==> r->Err_0 == VaultError::DecryptionFailure
    }
}

/// The bytes of a result, as values.
pub open spec fn bytes_result(r: Result<Vec<u8>, VaultError>) -> Result<Seq<u8>, VaultError> {
    match r {
        Ok(v) => Ok(v@),
        Err(e) => Err(e),
    }
}

/// The characters of an optional text.
pub open spec fn text_of(r: Option<String>) -> Option<Seq<char>> {
    match r {
        Some(s) => Some(s@),
        None => None,
    }
}

/// Decrypting a blob that seals `p` under `key` gives back `p`: whatever
/// `decrypt` returns on such a blob is `Ok(p)`.
pub proof fn lemma_decrypt_inverts_encrypt(
    key: Seq<u8>,
    blob: Seq<u8>,
    p: Seq<u8>,
    r: Result<Seq<u8>, VaultError>,
)
    requires
        is_sealing_of(key, blob, p),
        decrypt_outcome(key, blob, r),
    ensures
        r == Ok::<Seq<u8>, VaultError>(p),
{
}

/// Key derivation is deterministic: two results for the same passphrase and
/// salt are the same 32 bytes.
pub proof fn lemma_derive_key_deterministic(
    passphrase: Seq<char>,
    salt: Seq<u8>,
    k1: Seq<u8>,
    k2: Seq<u8>,
)
    requires
        k1 == derived_key(passphrase, salt),
        k2 == derived_key(passphrase, salt),
    ensures
        k1 == k2,
{
}

/// Seals `plaintext` under `key` and the given 12-byte `nonce` into the blob
/// `nonce || ciphertext || tag`.
pub fn seal_with_nonce(key: &[u8; 32], nonce: &[u8], plaintext: &[u8]) -> (r: Result<Vec<u8>, VaultError>)
    ensures
        r is Ok <==> nonce@.len() == NONCE_LEN && plaintext@.len() <= MAX_PLAINTEXT_LEN,
        r is Ok ==> r->Ok_0@ == nonce@ + aes256_gcm_sealed(key@, nonce@, plaintext@),
        r is Ok ==> is_sealing_of(key@, r->Ok_0@, plaintext@),
        r is Err ==> r->Err_0 == VaultError::MalformedInput,
{
    if nonce.len() != NONCE_LEN {
        return Err(VaultError::MalformedInput);
    }
    let mut sealed = match aes_seal(key, nonce, plaintext) {
        Ok(c) => c,
        Err(_) => return Err(VaultError::MalformedInput),
    };
    let mut blob: Vec<u8> = Vec::new();
    blob.extend_from_slice(nonce);
    assert(blob@ =~= nonce@);
    let ghost body = sealed@;
    blob.append(&mut sealed);
    assert(blob@ =~= nonce@ + body);
    assert(blob@.take(NONCE_LEN as int) =~= nonce@);
    assert(blob@.skip(NONCE_LEN as int) =~= body);
    Ok(blob)
}

/// Encrypts `plaintext` under `key` with a fresh random nonce.
pub fn encrypt(key: &[u8; 32], plaintext: &[u8]) -> (r: Result<Vec<u8>, VaultError>)
    ensures
        plaintext@.len() > MAX_PLAINTEXT_LEN ==> r == Err::<Vec<u8>, VaultError>(VaultError::MalformedInput),
        r is Ok ==> is_sealing_of(key@, r->Ok_0@, plaintext@),
        r is Ok ==> r->Ok_0@.len() == NONCE_LEN + plaintext@.len() + TAG_LEN,
        r is Err ==> r->Err_0 == VaultError::MalformedInput || r->Err_0 == VaultError::KeyGenerationFailure,
        r is Err && plaintext@.len() <= MAX_PLAINTEXT_LEN ==> r->Err_0 == VaultError::KeyGenerationFailure,
{
    if plaintext.len() as u64 > MAX_PLAINTEXT_LEN {
        return Err(VaultError::MalformedInput);
    }
    let nonce = match fill_random(NONCE_LEN) {
        Ok(n) => n,
        Err(_) => return Err(VaultError::KeyGenerationFailure),
    };
    seal_with_nonce(key, nonce.as_slice(), plaintext)
}

/// Decrypts a `nonce || ciphertext || tag` blob under `key`.
pub fn decrypt(key: &[u8; 32], blob: &[u8]) -> (r: Result<Vec<u8>, VaultError>)
    ensures
        decrypt_outcome(key@, blob@, bytes_result(r)),
{
    if blob.len() < NONCE_LEN {
        return Err(VaultError::MalformedInput);
    }
    if (blob.len() - NONCE_LEN) as u64 > MAX_PLAINTEXT_LEN + TAG_LEN as u64 {
        return Err(VaultError::DecryptionFailure);
    }
    let (nonce, body) = blob.split_at(NONCE_LEN);
    assert(nonce@ =~= blob@.take(NONCE_LEN as int));
    assert(body@ =~= blob@.skip(NONCE_LEN as int));
    match aes_open(key, nonce, body) {
        Ok(p) => Ok(p),
        Err(_) => Err(VaultError::DecryptionFailure),
    }
}


/// An in-memory vault of encrypted secrets, each filed under a unique name.
pub struct SecretVault {
    secrets: Vec<(String, Vec<u8>)>,
}

impl View for SecretVault {
    type V = Seq<(Seq<char>, Seq<u8>)>;

    closed spec fn view(&self) -> Seq<(Seq<char>, Seq<u8>)> {
        self.secrets@.map_values(|e: (String, Vec<u8>)| (e.0@, e.1@))
    }
}

impl SecretVault {
    /// No two entries share a name.
    pub open spec fn wf(&self) -> bool {
        forall|i: int, j: int|
            0 <= i < self@.len() && 0 <= j < self@.len() && i != j ==> #[trigger] self@[i].0
                != #[trigger] self@[j].0
    }

    /// The blob filed under `name`, if any.
    pub open spec fn lookup(&self, name: Seq<char>) -> Option<Seq<u8>> {
        if exists|i: int| 0 <= i < self@.len() && #[trigger] self@[i].0 == name {
            Some(self@[choose|i: int| 0 <= i < self@.len() && #[trigger] self@[i].0 == name].1)
        } else {
            None
        }
    }

    /// What reading the secret filed under `name` with `key` returns: nothing
    /// when no blob is filed there, else the text whose UTF-8 bytes the blob
    /// seals, and nothing when it seals none.
    pub open spec fn read_outcome(&self, key: Seq<u8>, name: Seq<char>, r: Option<Seq<char>>) -> bool {
        match self.lookup(name) {
            None => r is None,
            Some(blob) => {
                &&& (forall|t: Seq<char>| #[trigger] is_sealing_of(key, blob, encode_utf8(t)) ==> r == Some(t))
                &&& (r is Some ==> is_sealing_of(key, blob, encode_utf8(r->0)))
            },
        }
    }

    proof fn lemma_lookup_at(&self, i: int)
        requires
            self.wf(),
            0 <= i < self@.len(),
        ensures
            self.lookup(self@[i].0) == Some(self@[i].1),
    {
        let name = self@[i].0;
        assert(exists|k: int| 0 <= k < self@.len() && #[trigger] self@[k].0 == name);
        let j = choose|k: int| 0 <= k < self@.len() && #[trigger] self@[k].0 == name;
        assert(j == i);
    }

    /// Where every entry of `after` but those named `name` sits at the same
    /// index in `before` and the reverse, lookups of other names agree.
    proof fn lemma_others_kept(before: SecretVault, after: SecretVault, name: Seq<char>)
        requires
            before.wf(),
            after.wf(),
            before@.len() <= after@.len(),
            forall|k: int| 0 <= k < before@.len() && before@[k].0 != name ==> #[trigger] after@[k] == before@[k],
            forall|k: int| 0 <= k < after@.len() && after@[k].0 != name ==> k < before@.len() && #[trigger] before@[k] == after@[k],
        ensures
            forall|n: Seq<char>| n != name ==> #[trigger] after.lookup(n) == before.lookup(n),
    {
        assert forall|n: Seq<char>| n != name implies #[trigger] after.lookup(n) == before.lookup(n) by {
            if exists|k: int| 0 <= k < before@.len() && #[trigger] before@[k].0 == n {
                let k = choose|k: int| 0 <= k < before@.len() && #[trigger] before@[k].0 == n;
                before.lemma_lookup_at(k);
                after.lemma_lookup_at(k);
            } else if exists|k: int| 0 <= k < after@.len() && #[trigger] after@[k].0 == n {
                let k = choose|k: int| 0 <= k < after@.len() && #[trigger] after@[k].0 == n;
                assert(before@[k] == after@[k]);
            }
        }
    }

    /// An empty vault.
    pub fn new() -> (r: SecretVault)
        ensures
            r.wf(),
            r@ == Seq::<(Seq<char>, Seq<u8>)>::empty(),
    {
        let r = SecretVault { secrets: Vec::new() };
        assert(r@ =~= Seq::<(Seq<char>, Seq<u8>)>::empty());
        r
    }

    /// The number of secrets held.
    pub fn len(&self) -> (r: usize)
        ensures
            r == self@.len(),
    {
        self.secrets.len()
    }

    fn position(&self, name: &str) -> (r: Option<usize>)
        ensures
            r is Some ==> r->0 < self@.len() && self@[r->0 as int].0 == name@,
            r is None ==> forall|i: int| 0 <= i < self@.len() ==> #[trigger] self@[i].0 != name@,
    {
        let target = name.to_owned();
        let mut i: usize = 0;
        while i < self.secrets.len()
            invariant
                i <= self.secrets@.len(),
                target@ == name@,
                forall|k: int| 0 <= k < i ==> #[trigger] self@[k].0 != name@,
            decreases self.secrets@.len() - i,
        {
            if self.secrets[i].0 == target {
                return Some(i);
            }
            i = i + 1;
        }
        None
    }

    /// Files `blob` under `name`, replacing what was filed there.
    pub fn insert_secret(&mut self, name: String, blob: Vec<u8>)
        requires
            old(self).wf(),
        ensures
            final(self).wf(),
            final(self).lookup(name@) == Some(blob@),
            forall|n: Seq<char>| n != name@ ==> #[trigger] final(self).lookup(n) == old(self).lookup(n),
    {
        let ghost nm = name@;
        let ghost bl = blob@;
        match self.position(name.as_str()) {
            Some(i) => {
                self.secrets.set(i, (name, blob));
                assert(self@ =~= old(self)@.update(i as int, (nm, bl)));
                proof {
                    self.lemma_lookup_at(i as int);
                    SecretVault::lemma_others_kept(*old(self), *self, nm);
                }
            },
            None => {
                self.secrets.push((name, blob));
                assert(self@ =~= old(self)@.push((nm, bl)));
                proof {
                    self.lemma_lookup_at(self@.len() - 1);
                    SecretVault::lemma_others_kept(*old(self), *self, nm);
                }
            },
        }
    }

    /// Derives a 32-byte key from an operator passphrase and a persisted salt
    /// with PBKDF2-HMAC-SHA-256.
    pub fn derive_key(passphrase: &str, salt: &[u8]) -> (r: [u8; 32])
        ensures
            r@ == derived_key(passphrase@, salt@),
    {
        pbkdf2_sha256(passphrase.as_bytes(), salt, KDF_ROUNDS)
    }

    /// Encrypts `secret`, to be filed under `key`, and returns the blob.
    /// The name does not enter the encryption.
    pub fn add_secret(encryption_key: &[u8; 32], key: String, secret: String) -> (r: Result<
        Vec<u8>,
        VaultError,
    >)
        ensures
            encode_utf8(secret@).len() > MAX_PLAINTEXT_LEN ==> r == Err::<Vec<u8>, VaultError>(VaultError::MalformedInput),
            r is Ok ==> is_sealing_of(encryption_key@, r->Ok_0@, encode_utf8(secret@)),
            r is Ok ==> r->Ok_0@.len() == NONCE_LEN + encode_utf8(secret@).len() + TAG_LEN,
            r is Err && encode_utf8(secret@).len() <= MAX_PLAINTEXT_LEN ==> r->Err_0 == VaultError::KeyGenerationFailure,
    {
        encrypt(encryption_key, secret.as_str().as_bytes())
    }

    fn open_text(encryption_key: &[u8; 32], blob: &[u8]) -> (r: Option<String>)
        ensures
            forall|t: Seq<char>| #[trigger] is_sealing_of(encryption_key@, blob@, encode_utf8(t)) ==> text_of(r) == Some(t),
            r is Some ==> is_sealing_of(encryption_key@, blob@, encode_utf8(r->0@)),
    {
        match decrypt(encryption_key, blob) {
            Ok(bytes) => {
                let ghost b = bytes@;
                let r = string_from_utf8(bytes);
                proof {
                    assert forall|t: Seq<char>| #[trigger] is_sealing_of(encryption_key@, blob@, encode_utf8(t)) implies text_of(r) == Some(t) by {
                        assert(b == encode_utf8(t));
                        encode_utf8_valid_utf8(t);
                        encode_utf8_decode_utf8(t);
                    }
                    if r is Some {
                        decode_utf8_encode_utf8(b);
                    }
                }
                r
            },
            Err(_) => {
                proof {
                    assert forall|t: Seq<char>| #[trigger] is_sealing_of(encryption_key@, blob@, encode_utf8(t)) implies false by {
                        assert(is_sealing_of(encryption_key@, blob@, encode_utf8(t)));
                    }
                }
                None
            },
        }
    }

    /// Reads and decrypts the secret filed under `key`.
    pub fn get_secret(&self, encryption_key: &[u8; 32], key: &str) -> (r: Option<String>)
        requires
            self.wf(),
        ensures
            self.read_outcome(encryption_key@, key@, text_of(r)),
    {
        match self.position(key) {
            Some(i) => {
                proof { self.lemma_lookup_at(i as int); }
                let r = Self::open_text(encryption_key, self.secrets[i].1.as_slice());
                r
            },
            None => None,
        }
    }

    /// Takes the secret filed under `key` out of the vault and decrypts it.
    pub fn remove_secret(&mut self, encryption_key: &[u8; 32], key: &str) -> (r: Option<String>)
        requires
            old(self).wf(),
        ensures
            final(self).wf(),
            old(self).read_outcome(encryption_key@, key@, text_of(r)),
            final(self).lookup(key@) is None,
            forall|n: Seq<char>| n != key@ ==> #[trigger] final(self).lookup(n) == old(self).lookup(n),
    {
        match self.position(key) {
            Some(i) => {
                proof { self.lemma_lookup_at(i as int); }
                let entry = self.secrets.remove(i);
                let ghost nm = key@;
                assert(self@ =~= old(self)@.remove(i as int));
                proof {
                    assert forall|n: Seq<char>| n != nm implies #[trigger] self.lookup(n) == old(self).lookup(n) by {
                        if exists|k: int| 0 <= k < old(self)@.len() && #[trigger] old(self)@[k].0 == n {
                            let k = choose|k: int| 0 <= k < old(self)@.len() && #[trigger] old(self)@[k].0 == n;
                            old(self).lemma_lookup_at(k);
                            if k < i {
                                self.lemma_lookup_at(k);
                            } else {
                                self.lemma_lookup_at(k - 1);
                            }
                        } else {
                            assert(forall|k: int| 0 <= k < self@.len() ==> #[trigger] self@[k].0 != n ||
                                (k < i && old(self)@[k].0 == n) || (k >= i && old(self)@[k + 1].0 == n));
                        }
                    }
                    assert(forall|k: int| 0 <= k < self@.len() ==> #[trigger] self@[k].0 != nm ||
                        (k < i && old(self)@[k].0 == nm) || (k >= i && old(self)@[k + 1].0 == nm));
                }
                Self::open_text(encryption_key, entry.1.as_slice())
            },
            None => None,
        }
    }

    /// A copy of the entries, in the order they were filed.
    pub fn entries(&self) -> (r: Vec<(String, Vec<u8>)>)
        ensures
            r@.map_values(|e: (String, Vec<u8>)| (e.0@, e.1@)) == self@,
    {
        let mut out: Vec<(String, Vec<u8>)> = Vec::new();
        let mut i: usize = 0;
        while i < self.secrets.len()
            invariant
                i <= self.secrets@.len(),
                out@.map_values(|e: (String, Vec<u8>)| (e.0@, e.1@)) =~= self@.take(i as int),
            decreases self.secrets@.len() - i,
        {
            let name = self.secrets[i].0.clone();
            let blob = self.secrets[i].1.clone();
            assert(blob@ =~= self.secrets@[i as int].1@);
            out.push((name, blob));
            assert(self@.take(i + 1) =~= self@.take(i as int).push(self@[i as int]));
            i = i + 1;
        }
        assert(self@.take(self@.len() as int) =~= self@);
        out
    }

    /// The entries, in the order they were filed, for persisting the vault.
    pub fn into_entries(self) -> (r: Vec<(String, Vec<u8>)>)
        ensures
            r@.map_values(|e: (String, Vec<u8>)| (e.0@, e.1@)) == self@,
    {
        self.secrets
    }
}

} // verus!
