//! The local identity: one private key, and the secrets it shares with the
//! peers it has met.

use vstd::pervasive::unreached;
use vstd::prelude::*;
use crate::account::ID;
use crate::error::SecurityError;
use crate::peers::PeerTable;
use crate::secure::keys::{
    dalek_fresh_secret,
    derived_secret,
    is_key_pair,
    public_key_for,
    same_public_key,
    x25519_shared,
};
use crate::secure::mac::{hmac_sha256, sign, MAX_SIGNED_LEN};
use crate::shared::{Shared, SharedBuilder, SharedState};
use vstd::slice::slice_to_vec;

verus! {

/// The secrets of a table, each seen from outside.
pub open spec fn shared_states(secrets: Map<Seq<char>, Shared>) -> Map<Seq<char>, SharedState> {
    secrets.map_values(|s: Shared| s@)
}

/// What an identity is, seen from outside: its private key and, by peer, the
/// state of the key shared with that peer.
pub struct IdentityState {
    pub private_key: Seq<u8>,
    pub secrets: Map<Seq<char>, SharedState>,
}

impl IdentityState {
    /// The identity once it has met peer `id` under `public_key`. A peer
    /// that is known under that very key keeps what it has, context
    /// included. A new peer, and a known peer that comes with another key,
    /// gets the secret that the two keys derive, over whatever was there;
    /// a malformed key changes nothing.
    pub open spec fn met(self, id: Seq<char>, public_key: Seq<u8>) -> Result<IdentityState, SecurityError> {
        if self.secrets.contains_key(id) && self.secrets[id].pub_key == public_key {
            Ok(self)
        } else {
            match derived_secret(self.private_key, public_key) {
                Ok(secret) => Ok(
                    IdentityState {
                        private_key: self.private_key,
                        secrets: self.secrets.insert(id, SharedState::fresh(public_key, secret)),
                    },
                ),
                Err(e) => Err(e),
            }
        }
    }

    /// The signature of `payload` for peer `id`: the keyed hash under the
    /// secret shared with that peer.
    pub open spec fn signs(self, id: Seq<char>, payload: Seq<u8>) -> Result<Seq<u8>, SecurityError> {
        if self.secrets.contains_key(id) {
            Ok(hmac_sha256(self.secrets[id].shared_secret, payload))
        } else {
            Err(SecurityError::UnknownPeer)
        }
    }
}

/// The secret held for a peer always belongs to the key the peer came with
/// last. Meeting a peer under a well-formed key leaves the entry under that
/// key; unless the peer was known under that very key, the entry is the
/// fresh one that the two keys derive, over whatever was there. Meeting it
/// again under the same key changes nothing, and no other peer's entry is
/// ever touched.
pub proof fn lemma_latest_key_wins(state: IdentityState, id: Seq<char>, public_key: Seq<u8>)
    requires
        state.private_key.len() == 32,
        public_key.len() == 32,
    ensures
        ({
            let after = state.met(id, public_key)->Ok_0;
            let known = state.secrets.contains_key(id) && state.secrets[id].pub_key == public_key;
            &&& state.met(id, public_key) is Ok
            &&& after.private_key == state.private_key
            &&& after.secrets.contains_key(id)
            &&& after.secrets[id].pub_key == public_key
            &&& known ==> after == state
            &&& !known ==> after.secrets[id] == SharedState::fresh(
                public_key,
                x25519_shared(state.private_key, public_key),
            )
            &&& after.met(id, public_key) == Ok::<IdentityState, SecurityError>(after)
            &&& forall|other: Seq<char>|
                other != id ==> after.secrets.contains_key(other) == state.secrets.contains_key(other) && (
                state.secrets.contains_key(other) ==> after.secrets[other] == state.secrets[other])
        }),
{
}

/// The local identity. Its private key is set once and never changes.
pub struct Identity {
    key: [u8; 32],
    shared_secrets: PeerTable<Shared>,
}

impl View for Identity {
    type V = IdentityState;

    closed spec fn view(&self) -> IdentityState {
        IdentityState {
            private_key: self.key@,
            secrets: shared_states(self.shared_secrets@),
        }
    }
}

impl Identity {
    /// An identity with the given private key and the secrets it already
    /// shares, if any.
    pub fn new(key: [u8; 32], shared_secrets: Option<PeerTable<Shared>>) -> (identity: Self)
        ensures
            identity@.private_key == key@,
            identity@.secrets == match shared_secrets {
                Some(table) => shared_states(table@),
                None => Map::<Seq<char>, SharedState>::empty(),
            },
    {
        let table = match shared_secrets {
            Some(table) => table,
            None => PeerTable::new(),
        };
        let identity = Self { key, shared_secrets: table };
        assert(shared_secrets is None ==> identity@.secrets =~= Map::<Seq<char>, SharedState>::empty());
        identity
    }

    /// An identity with a private key drawn at random, which has met nobody.
    pub fn create() -> (identity: Self)
        ensures
            identity@.private_key.len() == 32,
            identity@.secrets == Map::<Seq<char>, SharedState>::empty(),
    {
        Self::new(dalek_fresh_secret(), None)
    }

    /// The public key to hand to peers.
    pub fn public_key(&self) -> (public: [u8; 32])
        ensures
            is_key_pair(self@.private_key, public@),
    {
        public_key_for(&self.key)
    }

    /// Meets peer `id` under `public_key` and hands back what is shared with
    /// it. The secret always belongs to the key given last: a known peer that
    /// comes with another key has its entry overwritten, one that comes with
    /// the same key keeps it.
    pub fn add_secret(&mut self, id: ID, public_key: &[u8]) -> (secret: Result<&Shared, SecurityError>)
        ensures
            match secret {
                Ok(k) => old(self)@.met(id@, public_key@) == Ok::<IdentityState, SecurityError>(final(self)@)
                    && final(self)@.secrets.contains_key(id@) && k@ == final(self)@.secrets[id@],
                Err(e) => old(self)@.met(id@, public_key@) == Err::<IdentityState, SecurityError>(e)
                    && final(self)@ == old(self)@,
            },
    {
        let known = match self.shared_secrets.get(id.as_str()) {
            Some(shared) => same_public_key(shared.pub_key(), public_key),
            None => false,
        };
        if !known {
            let builder = match SharedBuilder::new(slice_to_vec(public_key)).generate_secret(self.key.as_slice()) {
                Ok(builder) => builder,
                Err(e) => { return Err(e); },
            };
            let derived = builder.build();
            self.shared_secrets.insert(id.as_str(), derived);
            assert(self@.secrets =~= old(self)@.secrets.insert(id@, derived@));
        }
        match self.shared_secrets.get(id.as_str()) {
            Some(k) => Ok(k),
            None => unreached(),
        }
    }

    /// The key shared with peer `id`.
    pub fn get_secret(&self, id: &ID) -> (secret: Result<&Shared, SecurityError>)
        ensures
            match secret {
                Ok(k) => self@.secrets.contains_key(id@) && k@ == self@.secrets[id@],
                Err(e) => !self@.secrets.contains_key(id@) && e == SecurityError::UnknownPeer,
            },
    {
        match self.shared_secrets.get(id.as_str()) {
            Some(k) => Ok(k),
            None => Err(SecurityError::UnknownPeer),
        }
    }

    /// Signs `payload` for peer `id` under the secret shared with that peer.
    pub fn sign(&self, id: &ID, payload: &Vec<u8>) -> (signature: Result<Vec<u8>, SecurityError>)
        requires
            payload@.len() <= MAX_SIGNED_LEN,
        ensures
            match signature {
                Ok(s) => self@.signs(id@, payload@) == Ok::<Seq<u8>, SecurityError>(s@),
                Err(e) => self@.signs(id@, payload@) == Err::<Seq<u8>, SecurityError>(e),
            },
    {
        let shared = match self.get_secret(id) {
            Ok(shared) => shared,
            Err(e) => { return Err(e); },
        };
        Ok(sign(shared.shared_secret(), payload.as_slice()))
    }
}

} // verus!
