//! The secret shared with one peer, built in two steps and then used to seal
//! and open what is exchanged with that peer.

use vstd::pervasive::unreached;
use vstd::prelude::*;
use vstd::slice::slice_to_vec;
use crate::error::SecurityError;
use crate::secure::keys::{derive_shared_secret, derived_secret, parse_key, symm_alg, SharedKeyState};
use crate::secure::sym::{differs_in_tag, max_input_len, SymContext, SymState, TAG_LEN};

verus! {

/// What a shared secret is, seen from outside: the peer's public key, the
/// secret, and the state of the context keyed with it.
pub struct SharedState {
    pub pub_key: Seq<u8>,
    pub shared_secret: Seq<u8>,
    pub ctx: SymState,
}

impl SharedState {
    /// A secret that has sealed nothing yet: its context is keyed with the
    /// whole secret.
    pub open spec fn fresh(pub_key: Seq<u8>, shared_secret: Seq<u8>) -> SharedState {
        SharedState { pub_key, shared_secret, ctx: SharedKeyState::fresh(shared_secret).ctx }
    }

    /// The state after one frame.
    pub open spec fn advanced(self) -> SharedState {
        SharedState { pub_key: self.pub_key, shared_secret: self.shared_secret, ctx: self.ctx.advanced() }
    }
}

/// The secret shared with one peer, with the context that seals and opens
/// under it.
pub struct Shared {
    pub_key: Vec<u8>,
    shared_secret: [u8; 32],
    ctx: SymContext,
}

impl View for Shared {
    type V = SharedState;

    closed spec fn view(&self) -> SharedState {
        SharedState { pub_key: self.pub_key@, shared_secret: self.shared_secret@, ctx: self.ctx@ }
    }
}

impl Shared {
    /// Wraps a secret shared with the holder of `pub_key`. The secret keys
    /// the context whole, so it has to be exactly 32 bytes long.
    pub fn new(pub_key: Vec<u8>, shared_secret: Vec<u8>) -> (shared: Result<Self, SecurityError>)
        ensures
            match shared {
                Ok(s) => shared_secret@.len() == 32 && s@ == SharedState::fresh(pub_key@, shared_secret@),
                Err(e) => shared_secret@.len() != 32 && e == SecurityError::InvalidKeyEncoding,
            },
    {
        let key = match parse_key(shared_secret.as_slice()) {
            Ok(key) => key,
            Err(e) => { return Err(e); },
        };
        Ok(Self::keyed(pub_key, key))
    }

    fn keyed(pub_key: Vec<u8>, shared_secret: [u8; 32]) -> (shared: Self)
        ensures
            shared@ == SharedState::fresh(pub_key@, shared_secret@),
    {
        Self { pub_key, shared_secret, ctx: SymContext::new(shared_secret, symm_alg()) }
    }

    /// The secret.
    pub fn shared_secret(&self) -> (secret: &[u8; 32])
        ensures
            secret@ == self@.shared_secret,
    {
        &self.shared_secret
    }

    /// The peer's public key.
    pub fn pub_key(&self) -> (key: &[u8])
        ensures
            key@ == self@.pub_key,
    {
        self.pub_key.as_slice()
    }

    /// Seals `payload`. The frame opens again under a secret in the state
    /// this one had before the call.
    pub fn encrypt(&mut self, payload: Vec<u8>) -> (sealed: Result<Vec<u8>, SecurityError>)
        requires
            payload@.len() <= max_input_len(old(self)@.ctx.alg),
        ensures
            match sealed {
                Ok(frame) => {
                    &&& !old(self)@.ctx.exhausted()
                    &&& frame@ == old(self)@.ctx.seals(payload@)
                    &&& frame@.len() == payload@.len() + TAG_LEN
                    &&& old(self)@.ctx.opens(frame@) == Some(payload@)
                    &&& forall|other: Seq<u8>| #[trigger]
                        differs_in_tag(other, frame@) ==> old(self)@.ctx.opens(other) is None
                    &&& final(self)@ == old(self)@.advanced()
                },
                Err(e) => {
                    &&& old(self)@.ctx.exhausted()
                    &&& e == SecurityError::NonceExhausted
                    &&& final(self)@ == old(self)@
                },
            },
    {
        let mut frame = payload;
        match self.ctx.encrypt(&mut frame) {
            Ok(()) => Ok(frame),
            Err(e) => Err(e),
        }
    }

    /// Opens `payload`. The context moves on by one frame whether or not the
    /// frame was genuine.
    pub fn decrypt(&mut self, payload: Vec<u8>) -> (opened: Result<Vec<u8>, SecurityError>)
        ensures
            match opened {
                Ok(plain) => {
                    &&& !old(self)@.ctx.exhausted()
                    &&& old(self)@.ctx.opens(payload@) == Some(plain@)
                    &&& final(self)@ == old(self)@.advanced()
                },
                Err(e) => if old(self)@.ctx.exhausted() {
                    e == SecurityError::NonceExhausted && final(self)@ == old(self)@
                } else {
                    &&& e == SecurityError::AuthenticationFailed
                    &&& old(self)@.ctx.opens(payload@) is None
                    &&& final(self)@ == old(self)@.advanced()
                },
            },
    {
        let mut frame = payload;
        match self.ctx.decrypt(&mut frame) {
            Ok(()) => Ok(frame),
            Err(e) => Err(e),
        }
    }
}

/// The two steps towards a [`Shared`]: first the peer's public key alone,
/// then the secret derived with a private key.
#[derive(Debug)]
pub struct SharedBuilder {
    pub_key: Vec<u8>,
    _shared_secret: Option<[u8; 32]>,
}

/// What a builder is, seen from outside.
pub struct BuilderState {
    pub pub_key: Seq<u8>,
    pub shared_secret: Option<Seq<u8>>,
}

impl View for SharedBuilder {
    type V = BuilderState;

    closed spec fn view(&self) -> BuilderState {
        BuilderState {
            pub_key: self.pub_key@,
            shared_secret: match self._shared_secret {
                Some(secret) => Some(secret@),
                None => None,
            },
        }
    }
}

impl SharedBuilder {
    /// A builder that knows the peer's public key and no secret yet.
    pub fn new(pub_key: Vec<u8>) -> (builder: Self)
        ensures
            builder@ == (BuilderState { pub_key: pub_key@, shared_secret: None }),
    {
        Self { pub_key, _shared_secret: None }
    }

    /// A builder that also holds the secret that `priv_key` shares with the
    /// peer's public key.
    pub fn generate_secret(&self, priv_key: &[u8]) -> (builder: Result<Self, SecurityError>)
        ensures
            match builder {
                Ok(b) => {
                    &&& b@.pub_key == self@.pub_key
                    &&& b@.shared_secret is Some
                    &&& b@.shared_secret->Some_0.len() == 32
                    &&& derived_secret(priv_key@, self@.pub_key) == Ok::<Seq<u8>, SecurityError>(
                        b@.shared_secret->Some_0,
                    )
                },
                Err(e) => derived_secret(priv_key@, self@.pub_key) == Err::<Seq<u8>, SecurityError>(e),
            },
    {
        let secret = match derive_shared_secret(priv_key, self.pub_key.as_slice()) {
            Ok(secret) => secret,
            Err(e) => { return Err(e); },
        };
        Ok(Self { pub_key: slice_to_vec(self.pub_key.as_slice()), _shared_secret: Some(secret) })
    }

    /// Whether the secret has been generated.
    pub fn has_secret(&self) -> (ready: bool)
        ensures
            ready == self@.shared_secret is Some,
    {
        self._shared_secret.is_some()
    }

    /// The finished secret. There is none before `generate_secret`.
    pub fn build(&self) -> (shared: Shared)
        requires
            self@.shared_secret is Some,
        ensures
            shared@ == SharedState::fresh(self@.pub_key, self@.shared_secret->Some_0),
    {
        match self._shared_secret {
            Some(secret) => Shared::keyed(slice_to_vec(self.pub_key.as_slice()), secret),
            None => unreached(),
        }
    }
}

} // verus!
