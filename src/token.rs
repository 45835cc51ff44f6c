//! Credential issuance: password check, claims with a deployment-bound nonce,
//! and a PASETO v4 public token signed with the active key.
use pasetors::claims::Claims;
use pasetors::keys::AsymmetricSecretKey;
use pasetors::version4::V4;
use vstd::prelude::*;
use vstd::utf8::encode_utf8;

use crate::error::VaultError;
use crate::hex::{hex_text, lower_hex};
use crate::keys::{
    after_request, base64_decode, base64_standard, ed25519_public_of, encodes_key_pair,
    has_nonzero_seed, is_fresh, is_v4_key_pair, KeyRing, PUBLIC_KEY_LEN,
    SECRET_KEY_LEN,
};
use crate::models::{KeyPairDocument, User, UserCredentials};

verus! {

/// Lifetime of a token: 480 minutes.
pub const TOKEN_TTL_SECS: i64 = 28800;

/// Issuer and sole audience of every token.
pub const SERVICE_ID: &'static str = "https://www.embraconnect.com";

/// Every token begins with this header.
pub const TOKEN_HEADER: &'static str = "v4.public.";

/// pasetors' claim set, carried opaquely into signing.
#[verifier::external_type_specification]
#[verifier::external_body]
pub struct ExClaims(pasetors::claims::Claims);

/// pasetors' marker for protocol version 4.
#[verifier::external_type_specification]
#[verifier::external_body]
pub struct ExV4(pasetors::version4::V4);

/// pasetors' secret signing key, carried opaquely into signing.
#[verifier::external_type_specification]
#[verifier::external_body]
#[verifier::reject_recursive_types(V)]
pub struct ExAsymmetricSecretKey<V>(pasetors::keys::AsymmetricSecretKey<V>);

/// bcrypt's error type.
#[verifier::external_type_specification]
#[verifier::external_body]
pub struct ExBcryptError(bcrypt::BcryptError);

/// Whether bcrypt accepts `password` against the stored `hash`.
pub uninterp spec fn bcrypt_verdict(password: Seq<char>, hash: Seq<char>) -> bool;

/// The SHA-256 digest of `data`.
pub uninterp spec fn sha256_of(data: Seq<u8>) -> Seq<u8>;

/// The RFC 3339 text, in UTC, of the instant `secs` seconds after the Unix epoch.
pub uninterp spec fn rfc3339_of(secs: int) -> Seq<char>;

/// Relies on bcrypt::verify: it hashes the password again with the cost and
/// salt that the stored hash carries and compares, so the verdict depends on
/// the two texts alone; it fails only on a hash it cannot parse, which accepts
/// no password.
#[verifier::external_body]
fn verify_password(password: &str, hash: &str) -> (r: Result<bool, bcrypt::BcryptError>)
    ensures
        r is Ok ==> r->Ok_0 == bcrypt_verdict(password@, hash@),
        r is Err ==> !bcrypt_verdict(password@, hash@),
{
    bcrypt::verify(password, hash)
}

/// Relies on bcrypt::hash at `DEFAULT_COST`: a hash under a random salt, which
/// bcrypt::verify accepts for the same password; it fails if the OS generator
/// does. The text is `$2b$`, the two-digit cost, `$`, 22 characters of salt and
/// 31 of hash: 60 characters.
#[verifier::external_body]
fn bcrypt_hash(password: &str) -> (r: Result<String, bcrypt::BcryptError>)
    ensures
        r is Ok ==> bcrypt_verdict(password@, r->Ok_0@),
        r is Ok ==> r->Ok_0@.len() == 60 && r->Ok_0@.subrange(0, 4) == seq!['$', '2', 'b', '$'],
{
    bcrypt::hash(password, bcrypt::DEFAULT_COST)
}

/// Relies on sha2's `Sha256::digest`.
#[verifier::external_body]
fn sha256_digest(data: &[u8]) -> (r: [u8; 32])
    ensures
        r@ == sha256_of(data@),
{
    <sha2::Sha256 as sha2::Digest>::digest(data).into()
}

/// Relies on chrono's `DateTime::to_rfc3339` on the UTC instant that
/// `DateTime::from_timestamp` builds; there is none outside chrono's range.
#[verifier::external_body]
fn rfc3339_utc(secs: i64) -> (r: Option<String>)
    ensures
        r is Some ==> r->0@ == rfc3339_of(secs as int),
{
    chrono::DateTime::from_timestamp(secs, 0).map(|t| t.to_rfc3339())
}

/// A 64-byte secret key whose last 32 bytes are the public key its seed determines.
pub open spec fn is_v4_secret_key(sk: Seq<u8>) -> bool {
    sk.len() == SECRET_KEY_LEN && sk.subrange(32, 64) == ed25519_public_of(sk.subrange(0, 32))
}

/// Relies on pasetors' `AsymmetricSecretKey::<V4>::from`: it accepts exactly the
/// 64-byte keys whose last 32 bytes are the public key their seed determines
/// (ed25519-compact's `KeyPair::from_seed`); it panics on an all-zero seed.
#[verifier::external_body]
fn secret_key_from(bytes: &[u8]) -> (r: Result<AsymmetricSecretKey<V4>, pasetors::errors::Error>)
    requires
        bytes@.len() == SECRET_KEY_LEN ==> has_nonzero_seed(bytes@),
    ensures
        r is Ok <==> is_v4_secret_key(bytes@),
{
    AsymmetricSecretKey::<V4>::from(bytes)
}

/// Relies on pasetors' `Claims::new`, which stamps issue and expiry from the clock.
pub assume_specification[ pasetors::claims::Claims::new ]() -> (r: Result<Claims, pasetors::errors::Error>);

/// The text-valued claims of a claim set, by name.
pub uninterp spec fn claim_texts(c: Claims) -> Map<Seq<char>, Seq<char>>;

/// Name of the subject claim.
pub open spec fn sub_claim() -> Seq<char> {
    seq!['s', 'u', 'b']
}

/// Name of the issuer claim.
pub open spec fn iss_claim() -> Seq<char> {
    seq!['i', 's', 's']
}

/// Name of the audience claim.
pub open spec fn aud_claim() -> Seq<char> {
    seq!['a', 'u', 'd']
}

/// Name of the expiry claim.
pub open spec fn exp_claim() -> Seq<char> {
    seq!['e', 'x', 'p']
}

/// Name of the claim that binds a token to this deployment.
pub open spec fn nonce_claim() -> Seq<char> {
    seq!['n', 'o', 'n', 'c', 'e']
}

/// Relies on pasetors' `Claims::subject`: it refuses only an empty subject, and
/// otherwise sets the `sub` claim.
pub assume_specification[ pasetors::claims::Claims::subject ](claims: &mut Claims, sub: &str) -> (r: Result<(), pasetors::errors::Error>)
    ensures
        r is Ok <==> sub@.len() > 0,
        r is Ok ==> claim_texts(*final(claims)) == claim_texts(*old(claims)).insert(seq!['s', 'u', 'b'], sub@),
;

/// Relies on pasetors' `Claims::issuer`: it refuses only an empty issuer, and
/// otherwise sets the `iss` claim.
pub assume_specification[ pasetors::claims::Claims::issuer ](claims: &mut Claims, iss: &str) -> (r: Result<(), pasetors::errors::Error>)
    ensures
        r is Ok <==> iss@.len() > 0,
        r is Ok ==> claim_texts(*final(claims)) == claim_texts(*old(claims)).insert(seq!['i', 's', 's'], iss@),
;

/// Relies on pasetors' `Claims::audience`: it refuses only an empty audience,
/// and otherwise sets the `aud` claim.
pub assume_specification[ pasetors::claims::Claims::audience ](claims: &mut Claims, aud: &str) -> (r: Result<(), pasetors::errors::Error>)
    ensures
        r is Ok <==> aud@.len() > 0,
        r is Ok ==> claim_texts(*final(claims)) == claim_texts(*old(claims)).insert(seq!['a', 'u', 'd'], aud@),
;

/// Relies on pasetors' `Claims::expiration`, which accepts RFC 3339 text only
/// and then sets the `exp` claim.
pub assume_specification[ pasetors::claims::Claims::expiration ](claims: &mut Claims, exp: &str) -> (r: Result<(), pasetors::errors::Error>)
    ensures
        r is Ok ==> claim_texts(*final(claims)) == claim_texts(*old(claims)).insert(seq!['e', 'x', 'p'], exp@),
;

/// Relies on pasetors' `Claims::add_additional` with a text value: it refuses
/// the names of registered claims (`nonce` is none of them) and otherwise sets
/// the claim.
#[verifier::external_body]
fn add_text_claim(claims: &mut Claims, name: &str, value: &str) -> (r: Result<(), pasetors::errors::Error>)
    ensures
        name@ == seq!['n', 'o', 'n', 'c', 'e'] ==> r is Ok,
        r is Ok ==> claim_texts(*final(claims)) == claim_texts(*old(claims)).insert(name@, value@),
{
    claims.add_additional(name, value)
}

/// Relies on pasetors' `public::sign` without footer or implicit assertion:
/// the token is the v4 public header followed by the base64 of the claims
/// and their signature.
#[verifier::external_body]
fn sign_v4_public(key: &AsymmetricSecretKey<V4>, claims: &Claims) -> (r: Result<String, pasetors::errors::Error>)
    ensures
        r is Ok ==> r->Ok_0@.len() >= 10 && r->Ok_0@.subrange(0, 10) == TOKEN_HEADER@,
{
    pasetors::public::sign(key, claims, None, None)
}

/// The claims of one token.
#[derive(Debug, Clone)]
pub struct AuthClaims {
    pub subject: String,
    /// Seconds since the Unix epoch.
    pub expiration: i64,
    pub issuer: String,
    pub audience: Vec<String>,
    pub nonce: String,
}

/// The bytes that the nonce hashes: the subject's then the secret's UTF-8.
pub open spec fn nonce_input(subject: Seq<char>, auth_secret: Seq<char>) -> Seq<u8> {
    encode_utf8(subject) + encode_utf8(auth_secret)
}

/// The nonce claim: hex of SHA-256 over subject and server-held secret.
pub open spec fn nonce_of(subject: Seq<char>, auth_secret: Seq<char>) -> Seq<char> {
    hex_text(sha256_of(nonce_input(subject, auth_secret)))
}

/// The claims issued at `now` to `subject`.
pub open spec fn claims_match(c: AuthClaims, subject: Seq<char>, auth_secret: Seq<char>, now: int) -> bool {
    &&& c.subject@ == subject
    &&& c.expiration == now + TOKEN_TTL_SECS
    &&& c.issuer@ == SERVICE_ID@
    &&& c.audience@.len() == 1
    &&& c.audience@[0]@ == SERVICE_ID@
    &&& c.nonce@ == nonce_of(subject, auth_secret)
}

/// The nonce that binds a token for `subject` to this deployment.
pub fn claim_nonce(subject: &str, auth_secret: &str) -> (r: String)
    ensures
        r@ == nonce_of(subject@, auth_secret@),
{
    let mut data: Vec<u8> = Vec::new();
    data.extend_from_slice(subject.as_bytes());
    data.extend_from_slice(auth_secret.as_bytes());
    assert(data@ =~= nonce_input(subject@, auth_secret@));
    let digest = sha256_digest(data.as_slice());
    lower_hex(&digest)
}

/// Builds the claims for `subject` at `now`; the expiry is `now` plus the
/// token lifetime, which must be a representable instant.
pub fn build_claims(subject: &str, auth_secret: &str, now: i64) -> (r: Result<AuthClaims, VaultError>)
    ensures
        r is Ok <==> now <= i64::MAX - TOKEN_TTL_SECS,
        r is Ok ==> claims_match(r->Ok_0, subject@, auth_secret@, now as int),
        r is Err ==> r->Err_0 == VaultError::IssuanceFailure,
{
    if now > i64::MAX - TOKEN_TTL_SECS {
        return Err(VaultError::IssuanceFailure);
    }
    let audience = vec![SERVICE_ID.to_owned()];
    Ok(AuthClaims {
        subject: subject.to_owned(),
        expiration: now + TOKEN_TTL_SECS,
        issuer: SERVICE_ID.to_owned(),
        audience,
        nonce: claim_nonce(subject, auth_secret),
    })
}

/// Decodes both halves of a key record, secret first; they must form one v4
/// key pair.
pub fn decode_keys(kp: &KeyPairDocument) -> (r: Result<(Vec<u8>, Vec<u8>), VaultError>)
    ensures
        r is Ok ==> base64_standard(r->Ok_0.0@) == kp.private_key@ && base64_standard(r->Ok_0.1@)
            == kp.public_key@,
        r is Ok ==> is_v4_key_pair(r->Ok_0.0@, r->Ok_0.1@),
        forall|sk: Seq<u8>, pk: Seq<u8>|
            #[trigger] base64_standard(sk) == kp.private_key@ && #[trigger] base64_standard(pk)
                == kp.public_key@ && is_v4_key_pair(sk, pk) ==> r is Ok && r->Ok_0.0@ == sk
                && r->Ok_0.1@ == pk,
        r is Err ==> r->Err_0 == VaultError::MalformedInput,
{
    let private_key = match base64_decode(kp.private_key.as_str()) {
        Ok(b) => b,
        Err(_) => return Err(VaultError::MalformedInput),
    };
    let public_key = match base64_decode(kp.public_key.as_str()) {
        Ok(b) => b,
        Err(_) => return Err(VaultError::MalformedInput),
    };
    if private_key.len() != SECRET_KEY_LEN || public_key.len() != PUBLIC_KEY_LEN
        || !seed_is_nonzero(private_key.as_slice())
    {
        return Err(VaultError::MalformedInput);
    }
    let mut i: usize = 0;
    while i < PUBLIC_KEY_LEN
        invariant
            i <= PUBLIC_KEY_LEN,
            private_key@.len() == SECRET_KEY_LEN,
            public_key@.len() == PUBLIC_KEY_LEN,
            forall|k: int| 0 <= k < i ==> private_key@[32 + k] == public_key@[k],
            base64_standard(private_key@) == kp.private_key@,
            base64_standard(public_key@) == kp.public_key@,
            forall|b: Seq<u8>| #[trigger] base64_standard(b) == kp.private_key@ ==> b == private_key@,
            forall|b: Seq<u8>| #[trigger] base64_standard(b) == kp.public_key@ ==> b == public_key@,
        decreases PUBLIC_KEY_LEN - i,
    {
        if private_key[32 + i] != public_key[i] {
            assert(private_key@.subrange(32, 64)[i as int] != public_key@[i as int]);
            return Err(VaultError::MalformedInput);
        }
        i = i + 1;
    }
    assert(private_key@.subrange(32, 64) =~= public_key@);
    if secret_key_from(private_key.as_slice()).is_err() {
        return Err(VaultError::MalformedInput);
    }
    Ok((private_key, public_key))
}

fn seed_is_nonzero(bytes: &[u8]) -> (r: bool)
    requires
        bytes@.len() >= 32,
    ensures
        r <==> has_nonzero_seed(bytes@),
{
    let mut i: usize = 0;
    while i < 32
        invariant
            i <= 32,
            bytes@.len() >= 32,
            forall|k: int| 0 <= k < i ==> bytes@[k] == 0,
        decreases 32 - i,
    {
        if bytes[i] != 0 {
            return true;
        }
        i = i + 1;
    }
    false
}

/// The claim texts of a token: subject, issuer, the single audience, the
/// given expiry text and the nonce.
pub open spec fn claims_set(t: Map<Seq<char>, Seq<char>>, c: AuthClaims, exp: Seq<char>) -> bool {
    &&& t.contains_key(sub_claim()) && t[sub_claim()] == c.subject@
    &&& t.contains_key(iss_claim()) && t[iss_claim()] == c.issuer@
    &&& t.contains_key(aud_claim()) && t[aud_claim()] == c.audience@[0]@
    &&& t.contains_key(exp_claim()) && t[exp_claim()] == exp
    &&& t.contains_key(nonce_claim()) && t[nonce_claim()] == c.nonce@
}

/// The pasetors claim set for `claims`, with `exp` as the expiry text.
pub fn token_claims(claims: &AuthClaims, exp: &str) -> (r: Result<Claims, VaultError>)
    ensures
        r is Ok ==> claims.audience@.len() == 1 && claims_set(claim_texts(r->Ok_0), *claims, exp@),
        r is Ok ==> claims.subject@.len() > 0 && claims.issuer@.len() > 0 && claims.audience@[0]@.len() > 0,
        claims.audience@.len() != 1 ==> r is Err,
        r is Err ==> r->Err_0 == VaultError::IssuanceFailure,
{
    // A v4 claim set holds a single audience.
    if claims.audience.len() != 1 {
        return Err(VaultError::IssuanceFailure);
    }
    let mut c = match Claims::new() {
        Ok(c) => c,
        Err(_) => return Err(VaultError::IssuanceFailure),
    };
    if c.subject(claims.subject.as_str()).is_err() {
        return Err(VaultError::IssuanceFailure);
    }
    if c.expiration(exp).is_err() {
        return Err(VaultError::IssuanceFailure);
    }
    if c.issuer(claims.issuer.as_str()).is_err() {
        return Err(VaultError::IssuanceFailure);
    }
    let nonce_name = "nonce";
    proof {
        reveal_strlit("nonce");
        assert(nonce_name@ =~= nonce_claim());
    }
    if add_text_claim(&mut c, nonce_name, claims.nonce.as_str()).is_err() {
        return Err(VaultError::IssuanceFailure);
    }
    if c.audience(claims.audience[0].as_str()).is_err() {
        return Err(VaultError::IssuanceFailure);
    }
    assert(sub_claim()[0] != exp_claim()[0] && sub_claim()[0] != iss_claim()[0]
        && sub_claim()[0] != nonce_claim()[0] && sub_claim()[0] != aud_claim()[0]);
    assert(exp_claim()[0] != iss_claim()[0] && exp_claim()[0] != nonce_claim()[0]
        && exp_claim()[0] != aud_claim()[0]);
    assert(iss_claim()[0] != nonce_claim()[0] && iss_claim()[0] != aud_claim()[0]);
    assert(nonce_claim()[0] != aud_claim()[0]);
    Ok(c)
}

/// Signs the claims with a v4 secret key given as its 64 bytes.
pub fn sign_claims(secret_key: &[u8], claims: &AuthClaims) -> (r: Result<String, VaultError>)
    ensures
        r is Ok ==> secret_key@.len() == SECRET_KEY_LEN && has_nonzero_seed(secret_key@),
        r is Ok ==> secret_key@.subrange(32, 64) == ed25519_public_of(secret_key@.subrange(0, 32)),
        r is Ok ==> claims.subject@.len() > 0 && claims.issuer@.len() > 0,
        r is Ok ==> claims.audience@.len() == 1 && claims.audience@[0]@.len() > 0,
        r is Ok ==> r->Ok_0@.len() >= 10 && r->Ok_0@.subrange(0, 10) == TOKEN_HEADER@,
        r is Err ==> r->Err_0 == VaultError::IssuanceFailure,
{
    if secret_key.len() != SECRET_KEY_LEN || !seed_is_nonzero(secret_key) {
        return Err(VaultError::IssuanceFailure);
    }
    let key = match secret_key_from(secret_key) {
        Ok(k) => k,
        Err(_) => return Err(VaultError::IssuanceFailure),
    };
    let expiration = match rfc3339_utc(claims.expiration) {
        Some(t) => t,
        None => return Err(VaultError::IssuanceFailure),
    };
    let token_claims = token_claims(claims, expiration.as_str())?;
    match sign_v4_public(&key, &token_claims) {
        Ok(t) => Ok(t),
        Err(_) => Err(VaultError::IssuanceFailure),
    }
}

/// Hashes a password for storage with bcrypt.
pub fn hash_password(password: String) -> (r: Result<String, VaultError>)
    ensures
        r is Ok ==> bcrypt_verdict(password@, r->Ok_0@),
        r is Ok ==> r->Ok_0@.len() == 60 && r->Ok_0@.subrange(0, 4) == seq!['$', '2', 'b', '$'],
        r is Err ==> r->Err_0 == VaultError::KeyGenerationFailure,
{
    match bcrypt_hash(password.as_str()) {
        Ok(h) => Ok(h),
        Err(_) => Err(VaultError::KeyGenerationFailure),
    }
}

/// Checks the submitted password against the user's stored hash; a wrong
/// password and a hash that accepts none (no such account) give the same answer.
pub fn check_password(user: &User, credentials: &UserCredentials) -> (r: Result<(), VaultError>)
    ensures
        r is Ok <==> bcrypt_verdict(credentials.password@, user.password@),
        r is Err ==> r->Err_0 == VaultError::InvalidCredentials,
{
    match verify_password(credentials.password.as_str(), user.password.as_str()) {
        Ok(true) => Ok(()),
        _ => Err(VaultError::InvalidCredentials),
    }
}

/// Issues a token for `subject` at `now`, signed with the key pair of `key`.
pub fn issue_token(subject: &str, auth_secret: &str, key: &KeyPairDocument, now: i64) -> (r: Result<
    String,
    VaultError,
>)
    ensures
        now > i64::MAX - TOKEN_TTL_SECS ==> r == Err::<String, VaultError>(VaultError::IssuanceFailure),
        r is Ok ==> encodes_key_pair(*key),
        r is Ok ==> subject@.len() > 0,
        r is Ok ==> r->Ok_0@.len() >= 10 && r->Ok_0@.subrange(0, 10) == TOKEN_HEADER@,
        r is Err ==> r->Err_0 == VaultError::IssuanceFailure || r->Err_0 == VaultError::MalformedInput,
{
    let claims = build_claims(subject, auth_secret, now)?;
    let (secret, public) = decode_keys(key)?;
    let token = sign_claims(secret.as_slice(), &claims)?;
    assert(public@ =~= secret@.subrange(32, 64));
    Ok(token)
}

/// Verifies the password, resolves the active signing key (creating one if
/// none is fresh), and issues a token for the user's email.
pub fn authorize_user(
    user: &User,
    credentials: &UserCredentials,
    auth_secret: &str,
    keys: &mut KeyRing,
    now: i64,
) -> (r: Result<String, VaultError>)
    requires
        old(keys).wf(),
    ensures
        final(keys).wf(),
        final(keys).window() == old(keys).window(),
        r == Err::<String, VaultError>(VaultError::InvalidCredentials) <==> !bcrypt_verdict(
            credentials.password@,
            user.password@,
        ),
        !bcrypt_verdict(credentials.password@, user.password@) ==> final(keys).records() == old(keys).records(),
        r is Ok ==> final(keys).times() == after_request(old(keys).times(), now as int, old(keys).window()),
        r is Ok ==> is_fresh(final(keys).times().last(), now as int, old(keys).window()),
        r is Ok ==> now <= i64::MAX - TOKEN_TTL_SECS,
        r is Ok ==> r->Ok_0@.len() >= 10 && r->Ok_0@.subrange(0, 10) == TOKEN_HEADER@,
{
    check_password(user, credentials)?;
    let key = keys.get_or_create_active_key(now)?;
    issue_token(user.email.as_str(), auth_secret, &key, now)
}

} // verus!
