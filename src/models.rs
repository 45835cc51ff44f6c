use vstd::prelude::*;

verus! {

/// A user as the store holds it; `created_at` is in seconds since the Unix epoch.
#[derive(Debug, Clone)]
pub struct UserDocument {
    pub id: String,
    pub email: String,
    pub password: String,
    pub created_at: i64,
}

/// A signing key record: both halves of the key pair, in standard base64,
/// and the second (since the Unix epoch) at which it was created.
#[derive(Debug, Clone)]
pub struct KeyPairDocument {
    pub public_key: String,
    pub private_key: String,
    pub created_at: i64,
}

impl KeyPairDocument {
    /// A field-by-field copy of the record.
    pub fn duplicate(&self) -> (r: KeyPairDocument)
        ensures
            r == *self,
    {
        KeyPairDocument {
            public_key: self.public_key.clone(),
            private_key: self.private_key.clone(),
            created_at: self.created_at,
        }
    }
}

/// A user as the API shows it.
#[derive(Debug, Clone)]
pub struct User {
    pub id: String,
    pub email: String,
    pub password: String,
    pub created_at: String,
}

/// What a client submits to log in.
#[derive(Debug, Clone)]
pub struct UserCredentials {
    pub email: String,
    pub password: String,
}

/// A stored secret: `value` is the `nonce || ciphertext || tag` blob.
#[derive(Debug, Clone)]
pub struct VaultDocument {
    pub id: String,
    pub key: String,
    pub value: Vec<u8>,
    pub created_by: String,
    pub created_at: i64,
}

/// A stored secret as the API shows it.
#[derive(Debug, Clone)]
pub struct Vault {
    pub id: String,
    pub key: String,
    pub value: String,
    pub created_by: String,
    pub created_at: String,
}

/// A secret as a client submits it, in plaintext.
#[derive(Debug)]
pub struct Secret {
    pub key: String,
    pub value: String,
    pub created_by: String,
}

#[derive(Debug)]
pub struct CreateSecretResponse {
    pub status: u16,
    pub message: String,
}

#[derive(Debug)]
pub struct DeleteSecretResponse {
    pub status: u16,
    pub message: String,
}

#[derive(Debug)]
pub struct ErrorResponse {
    pub status: u16,
    pub message: String,
}

#[derive(Debug)]
pub struct AuthModuleResponse {
    pub message: String,
}

#[derive(Debug)]
pub struct SetupResponse {
    pub status: u16,
    pub message: String,
}

#[derive(Debug)]
pub struct LoginResponse {
    pub status: u16,
    pub token: String,
}

#[derive(Debug)]
pub struct DeleteUserResponse {
    pub status: u16,
    pub message: String,
}

} // verus!
