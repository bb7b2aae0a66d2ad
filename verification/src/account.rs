//! Accounts: the local one, which holds a private key, and those of peers,
//! of which only the public key is known.

use vstd::prelude::*;
use vstd::slice::slice_to_vec;
use crate::error::SecurityError;
use crate::secure::keys::{derive_shared_secret, derived_secret};
use crate::secure::mac::{hmac_sha256, sign, MAX_SIGNED_LEN};

verus! {

/// A peer identifier.
pub type ID = String;

/// A peer's account as it was announced: the key is kept as the bytes that
/// came and is checked where it is used.
#[derive(Debug, Clone)]
pub struct AmbiguousAccount {
    pub id: ID,
    pub public_key: Vec<u8>,
    pub info: Vec<u8>,
}

/// The local account.
#[derive(Debug, Clone)]
pub struct ImplicitAccount {
    pub id: ID,
    pub private_key: Vec<u8>,
    pub info: Vec<u8>,
}

/// The signature of `data` from the holder of `private` to the holder of
/// `public`: the keyed hash under the secret that the two keys derive.
pub open spec fn signed(private: Seq<u8>, public: Seq<u8>, data: Seq<u8>) -> Result<Seq<u8>, SecurityError> {
    match derived_secret(private, public) {
        Ok(secret) => Ok(hmac_sha256(secret, data)),
        Err(e) => Err(e),
    }
}

impl ImplicitAccount {
    /// Signs `data` for the account `to`. The signature is made with this
    /// account's private key and can be checked by `to` alone.
    pub fn sign(&self, data: Vec<u8>, to: &AmbiguousAccount) -> (signature: Result<Vec<u8>, SecurityError>)
        requires
            data@.len() <= MAX_SIGNED_LEN,
        ensures
            match signature {
                Ok(s) => signed(self.private_key@, to.public_key@, data@) == Ok::<Seq<u8>, SecurityError>(s@),
                Err(e) => signed(self.private_key@, to.public_key@, data@) == Err::<Seq<u8>, SecurityError>(e),
            },
    {
        let secret = match derive_shared_secret(self.private_key.as_slice(), to.public_key.as_slice()) {
            Ok(secret) => secret,
            Err(e) => { return Err(e); },
        };
        Ok(sign(&secret, data.as_slice()))
    }
}

/// The link between the local account and a peer: who they are and the
/// secret they share.
#[derive(Debug, PartialEq, Eq, Hash)]
pub struct AccountConnection {
    pub imp_id: ID,
    pub amb_id: ID,
    pub secret: Vec<u8>,
}

impl AccountConnection {
    /// Connects the local account to a peer by deriving the secret that the
    /// local private key shares with the peer's public key.
    pub fn from_accounts(implicit: &ImplicitAccount, ambiguous: &AmbiguousAccount) -> (connection: Result<
        Self,
        SecurityError,
    >)
        ensures
            match connection {
                Ok(c) => derived_secret(implicit.private_key@, ambiguous.public_key@) == Ok::<
                    Seq<u8>,
                    SecurityError,
                >(c.secret@) && c.secret@.len() == 32 && c.imp_id@ == implicit.id@ && c.amb_id@ == ambiguous.id@,
                Err(e) => derived_secret(implicit.private_key@, ambiguous.public_key@) == Err::<
                    Seq<u8>,
                    SecurityError,
                >(e),
            },
    {
        let secret = match derive_shared_secret(
            implicit.private_key.as_slice(),
            ambiguous.public_key.as_slice(),
        ) {
            Ok(secret) => secret,
            Err(e) => { return Err(e); },
        };
        Ok(
            Self {
                imp_id: implicit.id.clone(),
                amb_id: ambiguous.id.clone(),
                secret: slice_to_vec(secret.as_slice()),
            },
        )
    }
}

} // verus!
