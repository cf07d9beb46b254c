use vstd::prelude::*;

verus! {

/// The error taxonomy of the passkey authentication subsystem.
///
/// `NoPendingCeremony` is a client/protocol error: the session holds no
/// matching in-flight ceremony state (never started, already finished, or
/// evicted). `CryptoVerificationFailed` is a protocol failure reported by
/// the cryptographic verifier (challenge/signature mismatch).
/// `AuthenticationRejected` is a policy failure: the verifier succeeded but
/// the user-verification flag was false. `ConstraintViolation` and
/// `NotFound` are store-layer data errors. `UnknownUser` is returned when
/// an authentication is started for a user that owns no credentials.
/// `InternalError` covers transaction-handle misuse (a borrow after
/// finalization) and unexpected lower-layer failures.
#[derive(Clone, Copy, Debug, PartialEq, Eq, Structural)]
pub enum AuthError {
    NoPendingCeremony,
    CryptoVerificationFailed,
    AuthenticationRejected,
    ConstraintViolation,
    NotFound,
    UnknownUser,
    InternalError,
}

impl AuthError {
    /// What `describe` returns for each variant: every protocol and
    /// policy failure shares one generic wording, so a client response
    /// built from it distinguishes none of them — not which check
    /// failed, not whether a ceremony was pending, not whether the user
    /// exists. The error kind itself stays distinct for callers and
    /// logs.
    pub open spec fn spec_describe(self) -> Seq<char> {
        match self {
            AuthError::NoPendingCeremony => "authentication failed"@,
            AuthError::CryptoVerificationFailed => "authentication failed"@,
            AuthError::AuthenticationRejected => "authentication failed"@,
            AuthError::UnknownUser => "authentication failed"@,
            AuthError::ConstraintViolation => "internal error"@,
            AuthError::NotFound => "internal error"@,
            AuthError::InternalError => "internal error"@,
        }
    }

    /// A short description, suitable for logs and client responses.
    pub fn describe(&self) -> (r: &'static str)
        ensures
            r@ == self.spec_describe(),
    {
        proof {
            reveal_strlit("authentication failed");
            reveal_strlit("internal error");
        }
        match self {
            AuthError::NoPendingCeremony => "authentication failed",
            AuthError::CryptoVerificationFailed => "authentication failed",
            AuthError::AuthenticationRejected => "authentication failed",
            AuthError::UnknownUser => "authentication failed",
            AuthError::ConstraintViolation => "internal error",
            AuthError::NotFound => "internal error",
            AuthError::InternalError => "internal error",
        }
    }
}

} // verus!
