//! The errors of the remote input system.

use vstd::prelude::*;

verus! {

/// Why an authentication step failed.
#[derive(Debug)]
pub enum AuthError {
    /// The credentials are not those of an active user.
    InvalidCredentials,
    /// The token's time is over.
    TokenExpired,
    /// The token is not one of ours.
    InvalidToken,
    /// The token could not be encoded or decoded; the text says why.
    JwtEncoding(String),
    /// The password could not be hashed, or the stored hash is damaged.
    PasswordHashing(bcrypt::BcryptError),
}

/// Common errors that can occur in the remote HID system.
#[derive(Debug)]
pub enum RemoteHidError {
    Authentication(AuthError),
    Network(String),
    Protocol(String),
    Serialization(String),
    Session(String),
    HidOperation(String),
    Configuration(String),
    ConnectionClosed,
    InvalidState(String),
    Timeout,
    PermissionDenied(String),
    Unknown(String),
}

/// The error type of the `bcrypt` crate. Nothing is known of its values.
#[verifier::external_type_specification]
#[verifier::external_body]
pub struct ExBcryptError(bcrypt::BcryptError);

impl From<AuthError> for RemoteHidError {
    fn from(e: AuthError) -> (r: RemoteHidError) {
        RemoteHidError::Authentication(e)
    }
}

impl vstd::std_specs::convert::FromSpecImpl<AuthError> for RemoteHidError {
    open spec fn obeys_from_spec() -> bool {
        true
    }

    open spec fn from_spec(e: AuthError) -> RemoteHidError {
        RemoteHidError::Authentication(e)
    }
}

} // verus!
