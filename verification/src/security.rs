//! The frames on the wire, what they decode to, and the directory of peer
//! keys.

use vstd::prelude::*;
use crate::error::SecurityError;
use crate::peers::PeerTable;
use crate::secure::keys::{derive_shared_secret, derived_secret, parse_key};

verus! {

/// What is known of a peer: the public key it registered and, once derived,
/// the secret shared with it.
#[derive(Clone, Copy, Debug, PartialEq, Eq)]
pub struct ForeignKeychain {
    pub public_key: [u8; 32],
    pub shared_key: Option<[u8; 32]>,
}

impl ForeignKeychain {
    /// The record for a peer's public key, with the secret that the local
    /// private key `static_secret` shares with it.
    pub fn new(public_key: &[u8], static_secret: &[u8]) -> (keychain: Result<Self, SecurityError>)
        ensures
            match keychain {
                Ok(k) => k.public_key@ == public_key@ && k.shared_key is Some && derived_secret(
                    static_secret@,
                    public_key@,
                ) == Ok::<Seq<u8>, SecurityError>(k.shared_key->Some_0@),
                Err(e) => derived_secret(static_secret@, public_key@) == Err::<Seq<u8>, SecurityError>(e),
            },
    {
        let shared_key = match derive_shared_secret(static_secret, public_key) {
            Ok(secret) => secret,
            Err(e) => { return Err(e); },
        };
        let public_key = match parse_key(public_key) {
            Ok(key) => key,
            Err(e) => { return Err(e); },
        };
        Ok(Self { public_key, shared_key: Some(shared_key) })
    }
}

/// A frame as it arrives from the transport.
#[derive(Clone, Copy, Debug, Hash, PartialEq, Eq, PartialOrd, Ord)]
pub enum SealedMessage<'a> {
    /// Carries nothing.
    Nil,
    /// Registers a peer's public key. The password is carried and not
    /// checked: a sync registers a key, it does not authenticate anyone.
    Sync { userid: &'a str, password: &'a str, public_key: &'a [u8] },
    /// Carries a signed message, sealed or in the clear.
    Communicate { userid: &'a str, signature: &'a [u8], message: &'a [u8] },
    /// A delivery mode that is recognised and not handled.
    RedBox { userid: &'a str, message: &'a [u8] },
}

/// How the authentication of a data frame ended.
#[derive(Clone, Copy, Debug, PartialEq, Eq)]
pub enum EncryptionData<'a> {
    Passed { encrypted: bool, username: &'a str, sharedkey: [u8; 32] },
    Failed { target: &'a str, encrypted: bool },
}

/// A data frame after authentication, for the application. A `Failed`
/// outcome is a delivery failure and carries no payload.
#[derive(Debug, PartialEq, Eq)]
pub struct DecodedMessage<'a> {
    pub encryption_data: EncryptionData<'a>,
    pub message: Vec<u8>,
}

/// The record that a directory holds for `id`, if any.
pub open spec fn lookup(directory: Map<Seq<char>, ForeignKeychain>, id: Seq<char>) -> Option<
    ForeignKeychain,
> {
    if directory.contains_key(id) {
        Some(directory[id])
    } else {
        None
    }
}

/// The secret shared with a peer, where the directory holds one.
pub open spec fn peer_secret(directory: Map<Seq<char>, ForeignKeychain>, id: Seq<char>) -> Option<Seq<u8>> {
    match lookup(directory, id) {
        Some(keychain) => match keychain.shared_key {
            Some(secret) => Some(secret@),
            None => None,
        },
        None => None,
    }
}

/// A store of peer records by identifier. Any mapping will do, in memory or
/// elsewhere, as long as it behaves as a map.
pub trait KeyStore {
    /// The records by peer identifier. A store that is verified says here
    /// what it holds and proves the two contracts below; of a store written
    /// without proof they are taken on trust.
    open spec fn directory(&self) -> Map<Seq<char>, ForeignKeychain> {
        Map::empty()
    }

    /// Stores `keychain` for `id`, over whatever was stored before, and hands
    /// the previous record back so that a change of key can be seen.
    fn set_key(&mut self, id: &str, keychain: ForeignKeychain) -> (previous: Option<ForeignKeychain>)
        ensures
            final(self).directory() == old(self).directory().insert(id@, keychain),
            previous == lookup(old(self).directory(), id@),
    ;

    /// The record stored for `id`. Looking up creates nothing.
    fn get_key(&self, id: &str) -> (found: Option<&ForeignKeychain>)
        ensures
            match found {
                Some(keychain) => lookup(self.directory(), id@) == Some(*keychain),
                None => lookup(self.directory(), id@) is None,
            },
    ;
}

/// The directory in memory.
pub struct KeyDirectory {
    records: PeerTable<ForeignKeychain>,
}

impl KeyDirectory {
    /// A directory that knows no peer.
    pub fn new() -> (directory: Self)
        ensures
            directory.directory() == Map::<Seq<char>, ForeignKeychain>::empty(),
    {
        KeyDirectory { records: PeerTable::new() }
    }
}

impl Default for KeyDirectory {
    fn default() -> (directory: Self)
        ensures
            directory.directory() == Map::<Seq<char>, ForeignKeychain>::empty(),
    {
        KeyDirectory::new()
    }
}

impl KeyStore for KeyDirectory {
    closed spec fn directory(&self) -> Map<Seq<char>, ForeignKeychain> {
        self.records@
    }

    fn set_key(&mut self, id: &str, keychain: ForeignKeychain) -> (previous: Option<ForeignKeychain>) {
        self.records.insert(id, keychain)
    }

    fn get_key(&self, id: &str) -> (found: Option<&ForeignKeychain>) {
        self.records.get(id)
    }
}

/// What was set is what is found, a second set hands back the first record,
/// and setting the same record twice is setting it once.
pub proof fn lemma_set_then_get(
    directory: Map<Seq<char>, ForeignKeychain>,
    id: Seq<char>,
    first: ForeignKeychain,
    second: ForeignKeychain,
)
    ensures
        lookup(directory.insert(id, first), id) == Some(first),
        lookup(directory.insert(id, first).insert(id, second), id) == Some(second),
        directory.insert(id, first).insert(id, first) == directory.insert(id, first),
        forall|other: Seq<char>|
            other != id ==> lookup(directory.insert(id, first), other) == lookup(directory, other),
{
    assert(directory.insert(id, first).insert(id, first) =~= directory.insert(id, first));
}

} // verus!
