//! Trust core of a small secrets-management service: authenticated encryption
//! of secret values at rest, the lifecycle of the token-signing key, and the
//! issuance of signed, time-bound bearer tokens.
pub mod cipher;
pub mod error;
pub mod hex;
pub mod keys;
pub mod models;
pub mod token;
