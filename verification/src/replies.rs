//! The refusals that the login and enrollment endpoints answer with.

use vstd::prelude::*;

verus! {

/// Why an authentication or enrollment request was refused.
#[derive(Debug, Clone, Copy, PartialEq, Eq, Structural)]
pub enum AuthError {
    /// No usable `Authorization: Basic ...` header.
    MissingAuthorization,
    /// The user name / password pair was rejected.
    InvalidCredentials,
    /// The user has no security key enrolled.
    NoKeyRegistered,
    /// The WebAuthn ceremony could not be started.
    WebauthnFailure,
    /// The challenge existed but had outlived its lifetime.
    ChallengeExpired,
    /// No challenge is pending under the given session id.
    InvalidSession,
    /// The authenticator's assertion did not verify.
    VerificationFailed,
    /// The authenticator's registration did not verify.
    RegistrationFailed,
    /// The enrolled credential could not be stored.
    SaveFailed,
}

/// HTTP status code that answers a refusal.
pub open spec fn auth_error_status(e: AuthError) -> u16 {
    match e {
        AuthError::WebauthnFailure => 500,
        AuthError::SaveFailed => 500,
        AuthError::RegistrationFailed => 400,
        _ => 401,
    }
}

/// Body text that answers a refusal.
pub open spec fn auth_error_message(e: AuthError) -> Seq<char> {
    match e {
        AuthError::MissingAuthorization => "Missing or invalid Authorization header"@,
        AuthError::InvalidCredentials => "Invalid credentials"@,
        AuthError::NoKeyRegistered => "No YubiKey registered for this user"@,
        AuthError::WebauthnFailure => "WebAuthn error"@,
        AuthError::ChallengeExpired => "Challenge expired"@,
        AuthError::InvalidSession => "Invalid session"@,
        AuthError::VerificationFailed => "WebAuthn verification failed"@,
        AuthError::RegistrationFailed => "WebAuthn registration failed"@,
        AuthError::SaveFailed => "Failed to save credential"@,
    }
}

impl AuthError {
    /// The HTTP status code of this refusal.
    pub fn status(&self) -> (code: u16)
        ensures
            code == auth_error_status(*self),
    {
        match self {
            AuthError::WebauthnFailure => 500,
            AuthError::SaveFailed => 500,
            AuthError::RegistrationFailed => 400,
            _ => 401,
        }
    }

    /// The body text of this refusal.
    pub fn message(&self) -> (text: &'static str)
        ensures
            text@ == auth_error_message(*self),
    {
        match self {
            AuthError::MissingAuthorization => "Missing or invalid Authorization header",
            AuthError::InvalidCredentials => "Invalid credentials",
            AuthError::NoKeyRegistered => "No YubiKey registered for this user",
            AuthError::WebauthnFailure => "WebAuthn error",
            AuthError::ChallengeExpired => "Challenge expired",
            AuthError::InvalidSession => "Invalid session",
            AuthError::VerificationFailed => "WebAuthn verification failed",
            AuthError::RegistrationFailed => "WebAuthn registration failed",
            AuthError::SaveFailed => "Failed to save credential",
        }
    }
}

} // verus!
