//! The per-connection guard: it takes the frames of one connection in the
//! order they arrive, keeps the peers' keys and contexts, and hands each
//! data frame on as a decoded message.

use vstd::pervasive::unreached;
use vstd::prelude::*;
use vstd::slice::slice_to_vec;
use crate::error::SecurityError;
use crate::peers::PeerTable;
use crate::secure::keys::{
    dalek_fresh_secret,
    is_key_pair,
    public_key_for,
    symm_alg,
    x25519_shared,
    SharedKeyState,
};
use crate::secure::mac::{signature_valid, verify};
use crate::secure::sym::{SymContext, SymState};
use crate::security::{
    lookup,
    peer_secret,
    DecodedMessage,
    EncryptionData,
    ForeignKeychain,
    KeyStore,
    SealedMessage,
};

verus! {

/// A data frame that was authenticated.
pub struct Received {
    pub payload: Vec<u8>,
    pub encrypted: bool,
    pub shared_key: [u8; 32],
}

/// What an authenticated data frame is, seen from outside.
pub struct Delivery {
    pub payload: Seq<u8>,
    pub encrypted: bool,
    pub secret: Seq<u8>,
}

impl View for Received {
    type V = Delivery;

    open spec fn view(&self) -> Delivery {
        Delivery { payload: self.payload@, encrypted: self.encrypted, secret: self.shared_key@ }
    }
}

/// What a guard is, seen from outside: its own private key, the directory
/// of peer records, and for each peer that frames were opened for the state
/// of that peer's context.
pub struct GuardState {
    pub guard_key: Seq<u8>,
    pub directory: Map<Seq<char>, ForeignKeychain>,
    pub sessions: Map<Seq<char>, SymState>,
}

/// `keychain` is the record of `public_key` for the holder of `guard_key`:
/// it holds that public key and the secret that the two keys derive.
pub open spec fn is_record_for(keychain: ForeignKeychain, guard_key: Seq<u8>, public_key: Seq<u8>) -> bool {
    &&& keychain.public_key@ == public_key
    &&& keychain.shared_key matches Some(secret)
    &&& secret@ == x25519_shared(guard_key, public_key)
}

impl GuardState {
    /// The context that opens the next sealed frame of a peer: the one the
    /// peer has, or one that starts at zero under the shared secret.
    pub open spec fn session_for(self, id: Seq<char>, secret: Seq<u8>) -> SymState {
        if self.sessions.contains_key(id) {
            self.sessions[id]
        } else {
            SharedKeyState::fresh(secret).ctx
        }
    }

    /// The contexts after a peer has registered a key that derives `secret`.
    /// A context under that very secret goes on counting; under any other
    /// secret, or with no context yet, the peer starts at zero.
    pub open spec fn resynced(self, id: Seq<char>, secret: Seq<u8>) -> Map<Seq<char>, SymState> {
        if self.sessions.contains_key(id) && self.sessions[id].key == secret {
            self.sessions
        } else {
            self.sessions.insert(id, SharedKeyState::fresh(secret).ctx)
        }
    }

    /// `after` is this state once peer `id` has registered `public_key`.
    pub open spec fn syncs_to(self, id: Seq<char>, public_key: Seq<u8>, after: GuardState) -> bool {
        &&& after.guard_key == self.guard_key
        &&& after.directory.contains_key(id)
        &&& is_record_for(after.directory[id], self.guard_key, public_key)
        &&& after.directory == self.directory.insert(id, after.directory[id])
        &&& after.sessions == self.resynced(id, x25519_shared(self.guard_key, public_key))
    }

    /// Every secret in the directory is the one that the guard's key derives
    /// with the public key recorded beside it.
    pub open spec fn secrets_derived(self) -> bool {
        forall|id: Seq<char>| #[trigger]
            self.directory.contains_key(id) && self.directory[id].shared_key is Some ==> is_record_for(
                self.directory[id],
                self.guard_key,
                self.directory[id].public_key@,
            )
    }

    /// This state with the context of peer `id` moved on by one frame.
    pub open spec fn frame_opened(self, id: Seq<char>, secret: Seq<u8>) -> GuardState {
        GuardState {
            guard_key: self.guard_key,
            directory: self.directory,
            sessions: self.sessions.insert(id, self.session_for(id, secret).advanced()),
        }
    }

    /// The state after a data frame of peer `id`. A frame from an unknown
    /// peer, a frame whose signature holds for the bytes as they came, and a
    /// frame that meets an exhausted context change nothing. Every other
    /// frame is opened, which moves the peer's context on by one whether or
    /// not the frame was genuine.
    pub open spec fn after_frame(self, id: Seq<char>, message: Seq<u8>, signature: Seq<u8>) -> GuardState {
        match peer_secret(self.directory, id) {
            None => self,
            Some(secret) => if signature_valid(secret, message, signature) || self.session_for(
                id,
                secret,
            ).exhausted() {
                self
            } else {
                self.frame_opened(id, secret)
            },
        }
    }

    /// What a data frame of peer `id` is received as. A signature that holds
    /// for the bytes as they came makes them a message in the clear.
    /// Otherwise the bytes are opened as a sealed frame, and the signature
    /// must hold for the plaintext.
    pub open spec fn receives(self, id: Seq<char>, message: Seq<u8>, signature: Seq<u8>) -> Result<
        Delivery,
        SecurityError,
    > {
        match peer_secret(self.directory, id) {
            None => Err(SecurityError::UnknownPeer),
            Some(secret) => if signature_valid(secret, message, signature) {
                Ok(Delivery { payload: message, encrypted: false, secret })
            } else if self.session_for(id, secret).exhausted() {
                Err(SecurityError::NonceExhausted)
            } else {
                match self.session_for(id, secret).opens(message) {
                    Some(plain) => if signature_valid(secret, plain, signature) {
                        Ok(Delivery { payload: plain, encrypted: true, secret })
                    } else {
                        Err(SecurityError::AuthenticationFailed)
                    },
                    None => Err(SecurityError::AuthenticationFailed),
                }
            },
        }
    }
}

/// A sealed frame from a known peer is passed on as what it seals: where the
/// peer's context opens the frame and the signature holds for the plaintext,
/// the plaintext is the payload, marked as encrypted, and the context has
/// moved on by one. The one frame this does not speak of is a frame whose
/// signature holds for the sealed bytes as well, which goes on in the clear.
pub proof fn lemma_sealed_frame_is_opened(
    state: GuardState,
    id: Seq<char>,
    secret: Seq<u8>,
    plain: Seq<u8>,
    frame: Seq<u8>,
    signature: Seq<u8>,
)
    requires
        peer_secret(state.directory, id) == Some(secret),
        !state.session_for(id, secret).exhausted(),
        state.session_for(id, secret).opens(frame) == Some(plain),
        signature_valid(secret, plain, signature),
        !signature_valid(secret, frame, signature),
    ensures
        state.receives(id, frame, signature) == Ok::<Delivery, SecurityError>(
            Delivery { payload: plain, encrypted: true, secret },
        ),
        state.after_frame(id, frame, signature) == state.frame_opened(id, secret),
{
}

/// After a peer's first sync the guard hears what the peer seals: a frame
/// that a context fresh under the shared secret opens to a plaintext, signed
/// over that plaintext, is received as that plaintext.
pub proof fn lemma_synced_peer_is_heard(
    before: GuardState,
    id: Seq<char>,
    public_key: Seq<u8>,
    synced: GuardState,
    plain: Seq<u8>,
    frame: Seq<u8>,
    signature: Seq<u8>,
)
    requires
        before.syncs_to(id, public_key, synced),
        !before.sessions.contains_key(id),
        SharedKeyState::fresh(x25519_shared(before.guard_key, public_key)).ctx.opens(frame) == Some(plain),
        signature_valid(x25519_shared(before.guard_key, public_key), plain, signature),
        !signature_valid(x25519_shared(before.guard_key, public_key), frame, signature),
    ensures
        synced.receives(id, frame, signature) == Ok::<Delivery, SecurityError>(
            Delivery { payload: plain, encrypted: true, secret: x25519_shared(before.guard_key, public_key) },
        ),
{
    let secret = x25519_shared(before.guard_key, public_key);
    assert(peer_secret(synced.directory, id) == Some(secret));
    assert(synced.session_for(id, secret) == SharedKeyState::fresh(secret).ctx);
    lemma_sealed_frame_is_opened(synced, id, secret, plain, frame, signature);
}

/// Registering the same key twice is registering it once: the second sync
/// leaves the record, the secret and the peer's context as the first left
/// them.
pub proof fn lemma_sync_idempotent(
    before: GuardState,
    id: Seq<char>,
    public_key: Seq<u8>,
    once: GuardState,
    twice: GuardState,
)
    requires
        before.syncs_to(id, public_key, once),
        once.syncs_to(id, public_key, twice),
    ensures
        twice == once,
        peer_secret(once.directory, id) == Some(x25519_shared(before.guard_key, public_key)),
        peer_secret(twice.directory, id) == peer_secret(once.directory, id),
{
    let first = once.directory[id];
    let second = twice.directory[id];
    assert(first.public_key =~= second.public_key);
    assert(first.shared_key->Some_0 =~= second.shared_key->Some_0);
    assert(first == second);
    assert(twice.directory =~= once.directory);
    assert(twice.sessions =~= once.sessions);
}

/// A later sync overwrites an earlier one: the record that is found
/// afterwards is that of the later key, and no other peer's record changes.
pub proof fn lemma_sync_overwrites(
    before: GuardState,
    id: Seq<char>,
    earlier: Seq<u8>,
    later: Seq<u8>,
    between: GuardState,
    after: GuardState,
)
    requires
        before.syncs_to(id, earlier, between),
        between.syncs_to(id, later, after),
    ensures
        lookup(after.directory, id) is Some,
        lookup(after.directory, id)->Some_0.public_key@ == later,
        peer_secret(after.directory, id) == Some(x25519_shared(before.guard_key, later)),
        forall|other: Seq<char>| other != id ==> lookup(after.directory, other) == lookup(before.directory, other),
{
}

/// Whatever arrives, the secrets in the directory stay the ones that the
/// guard's key derives with the public keys recorded beside them.
pub proof fn lemma_secrets_stay_derived(
    before: GuardState,
    id: Seq<char>,
    public_key: Seq<u8>,
    message: Seq<u8>,
    signature: Seq<u8>,
    synced: GuardState,
)
    requires
        before.secrets_derived(),
        before.syncs_to(id, public_key, synced),
    ensures
        synced.secrets_derived(),
        before.after_frame(id, message, signature).secrets_derived(),
{
    assert forall|peer: Seq<char>| #[trigger]
        synced.directory.contains_key(peer) && synced.directory[peer].shared_key is Some implies is_record_for(
        synced.directory[peer],
        synced.guard_key,
        synced.directory[peer].public_key@,
    ) by {
        if peer != id {
            assert(before.directory.contains_key(peer));
        }
    }
}

/// Under one key a peer's context only ever counts upwards, whatever frame
/// arrives: no nonce is handed out twice.
pub proof fn lemma_frame_keeps_counting(
    before: GuardState,
    id: Seq<char>,
    message: Seq<u8>,
    signature: Seq<u8>,
    peer: Seq<char>,
)
    requires
        before.sessions.contains_key(peer),
    ensures
        ({
            let after = before.after_frame(id, message, signature);
            &&& after.sessions.contains_key(peer)
            &&& after.sessions[peer].key == before.sessions[peer].key
            &&& after.sessions[peer].alg == before.sessions[peer].alg
            &&& after.sessions[peer].counter >= before.sessions[peer].counter
        }),
{
}

/// A sync under the key that a peer's context already has keeps the context
/// counting where it was; only a new key starts a context at zero.
pub proof fn lemma_sync_keeps_counting(
    before: GuardState,
    id: Seq<char>,
    public_key: Seq<u8>,
    after: GuardState,
    peer: Seq<char>,
)
    requires
        before.syncs_to(id, public_key, after),
        before.sessions.contains_key(peer),
    ensures
        after.sessions.contains_key(peer),
        after.sessions[peer].key == before.sessions[peer].key ==> after.sessions[peer] == before.sessions[peer],
        after.sessions[peer].key != before.sessions[peer].key ==> peer == id && after.sessions[peer].counter == 0,
{
}

/// `decoded` is what the application gets for a frame of `userid` that was
/// received as `outcome`: the payload with `Passed`, or an empty payload
/// with `Failed`, which tells only whether opening was attempted.
pub open spec fn decodes(
    decoded: DecodedMessage<'_>,
    userid: Seq<char>,
    outcome: Result<Delivery, SecurityError>,
) -> bool {
    match outcome {
        Ok(delivery) => {
            &&& decoded.message@ == delivery.payload
            &&& decoded.encryption_data matches EncryptionData::Passed { encrypted, username, sharedkey }
            &&& encrypted == delivery.encrypted
            &&& username@ == userid
            &&& sharedkey@ == delivery.secret
        },
        Err(e) => {
            &&& decoded.message@.len() == 0
            &&& decoded.encryption_data matches EncryptionData::Failed { target, encrypted }
            &&& target@ == userid
            &&& encrypted == (e != SecurityError::UnknownPeer)
        },
    }
}

/// The guard of one connection.
pub struct SocketGuard<KS: KeyStore> {
    guard_key: [u8; 32],
    keys: KS,
    sessions: PeerTable<SymContext>,
}

impl<KS: KeyStore> View for SocketGuard<KS> {
    type V = GuardState;

    closed spec fn view(&self) -> GuardState {
        GuardState {
            guard_key: self.guard_key@,
            directory: self.keys.directory(),
            sessions: self.sessions@.map_values(|ctx: SymContext| ctx@),
        }
    }
}

impl<KS: KeyStore> SocketGuard<KS> {
    /// A guard over `keystore` with a private key of its own, drawn at
    /// random.
    pub fn new(keystore: KS) -> (guard: Self)
        ensures
            guard@.guard_key.len() == 32,
            guard@.directory == keystore.directory(),
            guard@.sessions == Map::<Seq<char>, SymState>::empty(),
    {
        Self::with_guard_key(dalek_fresh_secret(), keystore)
    }

    /// A guard over `keystore` with the given private key.
    pub fn with_guard_key(guard_key: [u8; 32], keystore: KS) -> (guard: Self)
        ensures
            guard@.guard_key == guard_key@,
            guard@.directory == keystore.directory(),
            guard@.sessions == Map::<Seq<char>, SymState>::empty(),
    {
        let guard = SocketGuard { guard_key, keys: keystore, sessions: PeerTable::new() };
        assert(guard@.sessions =~= Map::<Seq<char>, SymState>::empty());
        guard
    }

    /// The public key that peers need to derive the secret they share with
    /// this guard.
    pub fn public_key(&self) -> (public: [u8; 32])
        ensures
            is_key_pair(self@.guard_key, public@),
    {
        public_key_for(&self.guard_key)
    }

    /// The directory of peer records.
    pub fn keys(&self) -> (keys: &KS)
        ensures
            keys.directory() == self@.directory,
    {
        &self.keys
    }

    /// Takes one frame. A `Nil` frame does nothing. A `Sync` frame registers
    /// the peer's key and yields no message. A `Communicate` frame yields a
    /// decoded message, `Passed` or `Failed`; only an exhausted context makes
    /// it an error. A `RedBox` frame is not handled.
    pub fn next<'a>(&mut self, msg: SealedMessage<'a>) -> (out: Result<Option<DecodedMessage<'a>>, SecurityError>)
        ensures
            match msg {
                SealedMessage::Nil => out == Ok::<Option<DecodedMessage<'a>>, SecurityError>(None)
                    && final(self)@ == old(self)@,
                SealedMessage::Sync { userid, password, public_key } => if public_key@.len() == 32 {
                    out == Ok::<Option<DecodedMessage<'a>>, SecurityError>(None) && old(self)@.syncs_to(
                        userid@,
                        public_key@,
                        final(self)@,
                    )
                } else {
                    out == Err::<Option<DecodedMessage<'a>>, SecurityError>(
                        SecurityError::InvalidKeyEncoding,
                    ) && final(self)@ == old(self)@
                },
                SealedMessage::Communicate { userid, signature, message } => {
                    &&& final(self)@ == old(self)@.after_frame(userid@, message@, signature@)
                    &&& match old(self)@.receives(userid@, message@, signature@) {
                        Err(SecurityError::NonceExhausted) => out == Err::<
                            Option<DecodedMessage<'a>>,
                            SecurityError,
                        >(SecurityError::NonceExhausted),
                        outcome => out matches Ok(Some(decoded)) && decodes(decoded, userid@, outcome),
                    }
                },
                SealedMessage::RedBox { userid, message } => out == Err::<
                    Option<DecodedMessage<'a>>,
                    SecurityError,
                >(SecurityError::NotImplemented) && final(self)@ == old(self)@,
            },
    {
        match msg {
            SealedMessage::Nil => Ok(None),
            SealedMessage::Sync { userid, password, public_key } => {
                match self.sync(userid, password, public_key) {
                    Ok(()) => Ok(None),
                    Err(e) => Err(e),
                }
            },
            SealedMessage::Communicate { userid, signature, message } => {
                match self.communicate(userid, message, signature) {
                    Ok(decoded) => Ok(Some(decoded)),
                    Err(e) => Err(e),
                }
            },
            SealedMessage::RedBox { userid, message } => {
                match self.red_box(userid, message) {
                    Ok(decoded) => Ok(Some(decoded)),
                    Err(e) => Err(e),
                }
            },
        }
    }

    /// Registers `public_key` for `userid`: derives the shared secret and
    /// stores the record over any earlier one. A key that is not 32 bytes
    /// long is rejected and changes nothing. The password is not looked at.
    pub fn sync(&mut self, userid: &str, _password: &str, public_key: &[u8]) -> (done: Result<(), SecurityError>)
        ensures
            public_key@.len() == 32 ==> done is Ok && old(self)@.syncs_to(userid@, public_key@, final(self)@),
            public_key@.len() != 32 ==> done == Err::<(), SecurityError>(SecurityError::InvalidKeyEncoding)
                && final(self)@ == old(self)@,
    {
        let keychain = match ForeignKeychain::new(public_key, self.guard_key.as_slice()) {
            Ok(keychain) => keychain,
            Err(e) => { return Err(e); },
        };
        let secret = match keychain.shared_key {
            Some(secret) => secret,
            None => unreached(),
        };
        self.keys.set_key(userid, keychain);
        let keep = match self.sessions.get(userid) {
            Some(ctx) => ctx.is_keyed_with(&secret),
            None => false,
        };
        if !keep {
            self.sessions.insert(userid, SymContext::new(secret, symm_alg()));
        }
        proof {
            let before = old(self)@;
            let after = self@;
            assert(after.sessions =~= before.resynced(userid@, x25519_shared(before.guard_key, public_key@)));
        }
        Ok(())
    }

    /// Authenticates a data frame of `userid` and hands back its payload.
    pub fn receive(&mut self, userid: &str, message: &[u8], signature: &[u8]) -> (got: Result<
        Received,
        SecurityError,
    >)
        ensures
            final(self)@ == old(self)@.after_frame(userid@, message@, signature@),
            match got {
                Ok(received) => old(self)@.receives(userid@, message@, signature@) == Ok::<
                    Delivery,
                    SecurityError,
                >(received@),
                Err(e) => old(self)@.receives(userid@, message@, signature@) == Err::<
                    Delivery,
                    SecurityError,
                >(e),
            },
    {
        let secret = match self.keys.get_key(userid) {
            Some(keychain) => match keychain.shared_key {
                Some(secret) => secret,
                None => { return Err(SecurityError::UnknownPeer); },
            },
            None => { return Err(SecurityError::UnknownPeer); },
        };
        if verify(&secret, message, signature) {
            return Ok(Received { payload: slice_to_vec(message), encrypted: false, shared_key: secret });
        }
        let mut ctx = match self.sessions.take(userid) {
            Some(ctx) => ctx,
            None => SymContext::new(secret, symm_alg()),
        };
        let mut payload = slice_to_vec(message);
        let opened = ctx.decrypt(&mut payload);
        self.sessions.insert(userid, ctx);
        proof {
            let before = old(self)@;
            let state = before.session_for(userid@, secret@);
            if state.exhausted() {
                assert(self@.sessions =~= before.sessions);
            } else {
                assert(self@.sessions =~= before.sessions.insert(userid@, state.advanced()));
            }
        }
        match opened {
            Ok(()) => {
                if verify(&secret, payload.as_slice(), signature) {
                    Ok(Received { payload, encrypted: true, shared_key: secret })
                } else {
                    Err(SecurityError::AuthenticationFailed)
                }
            },
            Err(e) => Err(e),
        }
    }

    /// Turns a data frame of `userid` into a decoded message: `Passed` with
    /// the payload where it was authenticated, `Failed` where the peer is
    /// unknown or the frame is not genuine.
    pub fn communicate<'a>(&mut self, userid: &'a str, message: &[u8], signature: &[u8]) -> (out: Result<
        DecodedMessage<'a>,
        SecurityError,
    >)
        ensures
            final(self)@ == old(self)@.after_frame(userid@, message@, signature@),
            match old(self)@.receives(userid@, message@, signature@) {
                Err(SecurityError::NonceExhausted) => out == Err::<DecodedMessage<'a>, SecurityError>(
                    SecurityError::NonceExhausted,
                ),
                outcome => out matches Ok(decoded) && decodes(decoded, userid@, outcome),
            },
    {
        match self.receive(userid, message, signature) {
            Ok(received) => Ok(
                DecodedMessage {
                    encryption_data: EncryptionData::Passed {
                        encrypted: received.encrypted,
                        username: userid,
                        sharedkey: received.shared_key,
                    },
                    message: received.payload,
                },
            ),
            Err(SecurityError::NonceExhausted) => Err(SecurityError::NonceExhausted),
            Err(SecurityError::UnknownPeer) => Ok(
                DecodedMessage {
                    encryption_data: EncryptionData::Failed { target: userid, encrypted: false },
                    message: Vec::new(),
                },
            ),
            Err(_) => Ok(
                DecodedMessage {
                    encryption_data: EncryptionData::Failed { target: userid, encrypted: true },
                    message: Vec::new(),
                },
            ),
        }
    }

    /// The delivery mode of `RedBox` frames is not defined: such a frame is
    /// turned down and changes nothing.
    pub fn red_box<'a>(&mut self, userid: &'a str, message: &[u8]) -> (out: Result<DecodedMessage<'a>, SecurityError>)
        ensures
            out == Err::<DecodedMessage<'a>, SecurityError>(SecurityError::NotImplemented),
            final(self)@ == old(self)@,
    {
        Err(SecurityError::NotImplemented)
    }
}

} // verus!
