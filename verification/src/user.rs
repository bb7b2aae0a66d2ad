//! The users of a conversation: the one at this end, and those at the other.

use vstd::prelude::*;
use crate::account::ID;
use crate::error::SecurityError;
use crate::identity::Identity;
use crate::secure::keys::{derive_shared_secret, derived_secret};

verus! {

/// The user at this end, with the identity that holds the private key.
pub struct CurrentUser {
    pub identity: Identity,
    pub id: ID,
}

/// A user at the other end, of whom the public key is known.
pub struct ForeignUser {
    pub public_key: Vec<u8>,
    pub id: ID,
}

/// A peer as the address book shows it.
#[derive(Debug)]
pub struct Account {
    pub id: String,
    pub name: String,
    pub key: Vec<u8>,
}

impl Account {
    /// An entry with the peer's public key as it was announced.
    pub fn new(id: String, name: String, key: Vec<u8>) -> (account: Self)
        ensures
            account.id == id,
            account.name == name,
            account.key == key,
    {
        Self { id, name, key }
    }

    /// The secret that `private_key` shares with this peer.
    pub fn secret(&self, private_key: &[u8]) -> (secret: Result<[u8; 32], SecurityError>)
        ensures
            match secret {
                Ok(s) => derived_secret(private_key@, self.key@) == Ok::<Seq<u8>, SecurityError>(s@),
                Err(e) => derived_secret(private_key@, self.key@) == Err::<Seq<u8>, SecurityError>(e),
            },
    {
        derive_shared_secret(private_key, self.key.as_slice())
    }
}

} // verus!
