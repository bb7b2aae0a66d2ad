//! The failures that the session core reports to its caller.

use vstd::prelude::*;

verus! {

/// Every failure of the core. All of them are recoverable: none aborts.
#[derive(Clone, Copy, Debug, PartialEq, Eq, Structural)]
pub enum SecurityError {
    /// Key material that is not exactly 32 bytes long.
    InvalidKeyEncoding,
    /// A data frame names a peer that has no shared secret yet.
    UnknownPeer,
    /// A tag or signature did not verify; the cause is never told apart.
    AuthenticationFailed,
    /// The nonce counter has reached its last value under this key.
    NonceExhausted,
    /// A frame kind that is recognised but has no defined handling.
    NotImplemented,
}

impl SecurityError {
    /// A short description of the failure, as characters.
    pub open spec fn text(self) -> Seq<char> {
        match self {
            SecurityError::InvalidKeyEncoding => "key material is not 32 bytes long"@,
            SecurityError::UnknownPeer => "no shared secret for this peer"@,
            SecurityError::AuthenticationFailed => "authentication failed"@,
            SecurityError::NonceExhausted => "nonce counter exhausted"@,
            SecurityError::NotImplemented => "not implemented"@,
        }
    }

    /// A short description of the failure.
    pub fn message(self) -> (message: &'static str)
        ensures
            message@ == self.text(),
    {
        match self {
            SecurityError::InvalidKeyEncoding => "key material is not 32 bytes long",
            SecurityError::UnknownPeer => "no shared secret for this peer",
            SecurityError::AuthenticationFailed => "authentication failed",
            SecurityError::NonceExhausted => "nonce counter exhausted",
            SecurityError::NotImplemented => "not implemented",
        }
    }
}

} // verus!
