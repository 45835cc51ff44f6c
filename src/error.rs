use vstd::prelude::*;

verus! {

/// The typed failures that the core reports to its immediate caller.
#[derive(PartialEq, Eq, Structural, Debug, Clone, Copy)]
pub enum VaultError {
    /// The submitted password does not match; also reported for unknown accounts.
    InvalidCredentials,
    /// The entropy source or the key generator failed.
    KeyGenerationFailure,
    /// The backing store could not be reached.
    StoreUnavailable,
    /// The authentication tag did not verify: tampering or a wrong key.
    DecryptionFailure,
    /// Input of the wrong shape: a truncated blob, an oversized plaintext, a
    /// key record that does not decode.
    MalformedInput,
    /// Building or signing the claims failed.
    IssuanceFailure,
}

impl VaultError {
    /// The message text of each failure.
    pub open spec fn message_text(&self) -> Seq<char> {
        match self {
            VaultError::InvalidCredentials => "Invalid credentials"@,
            VaultError::KeyGenerationFailure => "Key generation failed"@,
            VaultError::StoreUnavailable => "Store unavailable"@,
            VaultError::DecryptionFailure => "Decryption failed"@,
            VaultError::MalformedInput => "Malformed input"@,
            VaultError::IssuanceFailure => "Token issuance failed"@,
        }
    }

    /// A short, uniform message for the failure.
    pub fn message(&self) -> (r: &'static str)
        ensures
            r@ == self.message_text(),
    {
        match self {
            VaultError::InvalidCredentials => "Invalid credentials",
            VaultError::KeyGenerationFailure => "Key generation failed",
            VaultError::StoreUnavailable => "Store unavailable",
            VaultError::DecryptionFailure => "Decryption failed",
            VaultError::MalformedInput => "Malformed input",
            VaultError::IssuanceFailure => "Token issuance failed",
        }
    }
}

} // verus!
