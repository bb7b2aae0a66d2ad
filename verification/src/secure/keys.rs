//! X25519 key agreement: from a private key and a peer's public key to the
//! secret that both sides share.

use vstd::prelude::*;
use crate::error::SecurityError;
use crate::secure::sym::{Algorithm, SymContext, SymState};

verus! {

/// Length of a shared secret in bytes.
pub const SHARED_SECRET_LENGTH: usize = 32;

/// The secret that X25519 derives from a private key and a public key.
pub uninterp spec fn x25519_shared(private: Seq<u8>, public: Seq<u8>) -> Seq<u8>;

/// The public key that belongs to a private key.
pub uninterp spec fn x25519_public(private: Seq<u8>) -> Seq<u8>;

/// The algorithm that contexts made from a shared secret are keyed for.
pub open spec fn spec_symm_alg() -> Algorithm {
    Algorithm::ChaCha20Poly1305
}

/// The algorithm that contexts made from a shared secret are keyed for.
#[verifier::when_used_as_spec(spec_symm_alg)]
pub fn symm_alg() -> (alg: Algorithm)
    ensures
        alg == spec_symm_alg(),
{
    Algorithm::ChaCha20Poly1305
}

/// What key agreement yields for a private key and a public key as they
/// arrive: the shared secret where both are 32 bytes long, a rejection
/// otherwise.
pub open spec fn derived_secret(private: Seq<u8>, public: Seq<u8>) -> Result<Seq<u8>, SecurityError> {
    if private.len() == 32 && public.len() == 32 {
        Ok(x25519_shared(private, public))
    } else {
        Err(SecurityError::InvalidKeyEncoding)
    }
}

/// `public` is the public key of `private`, and whoever holds another
/// private key derives with `public` the secret that `private` derives with
/// the other's public key.
pub open spec fn is_key_pair(private: Seq<u8>, public: Seq<u8>) -> bool {
    &&& private.len() == 32
    &&& public.len() == 32
    &&& public == x25519_public(private)
    &&& forall|other: Seq<u8>|
        other.len() == 32 ==> #[trigger] x25519_shared(other, public) == x25519_shared(
            private,
            x25519_public(other),
        )
}

/// `x25519_dalek::StaticSecret::diffie_hellman` on a secret and a public key
/// loaded from their bytes: the result depends on the two keys alone.
#[verifier::external_body]
fn dalek_diffie_hellman(private: &[u8; 32], public: &[u8; 32]) -> (shared: [u8; 32])
    ensures
        shared@ == x25519_shared(private@, public@),
{
    let secret = x25519_dalek::StaticSecret::from(*private);
    secret.diffie_hellman(&x25519_dalek::PublicKey::from(*public)).to_bytes()
}

/// `x25519_dalek::PublicKey::from` on a `StaticSecret` loaded from its
/// bytes: the public key depends on the private key alone. The crate
/// documents what key agreement is for: two parties that each call
/// `diffie_hellman` with their own secret and the other's public key get the
/// same secret. The second clause says so for this public key and any other
/// party's secret.
#[verifier::external_body]
fn dalek_public_key(private: &[u8; 32]) -> (public: [u8; 32])
    ensures
        public@ == x25519_public(private@),
        forall|other: Seq<u8>|
            other.len() == 32 ==> #[trigger] x25519_shared(other, public@) == x25519_shared(
                private@,
                x25519_public(other),
            ),
{
    x25519_dalek::PublicKey::from(&x25519_dalek::StaticSecret::from(*private)).to_bytes()
}

/// `x25519_dalek::StaticSecret::new` on the operating system's random
/// source: nothing is known of the bytes.
#[verifier::external_body]
pub(crate) fn dalek_fresh_secret() -> (private: [u8; 32]) {
    x25519_dalek::StaticSecret::new(rand_core::OsRng).to_bytes()
}

/// Reads a key from bytes. Anything but exactly 32 bytes is rejected: a key
/// is never padded or cut to length.
pub fn parse_key(bytes: &[u8]) -> (key: Result<[u8; 32], SecurityError>)
    ensures
        bytes@.len() == 32 ==> key is Ok && key->Ok_0@ == bytes@,
        bytes@.len() != 32 ==> key == Err::<[u8; 32], SecurityError>(SecurityError::InvalidKeyEncoding),
{
    if bytes.len() != 32 {
        return Err(SecurityError::InvalidKeyEncoding);
    }
    let mut key = [0u8; 32];
    let mut i: usize = 0;
    while i < 32
        invariant
            i <= 32,
            bytes@.len() == 32,
            forall|j: int| 0 <= j < i ==> key@[j] == bytes@[j],
        decreases 32 - i,
    {
        key[i] = bytes[i];
        i = i + 1;
    }
    assert(key@ =~= bytes@);
    Ok(key)
}

/// Whether two public keys, as the bytes they arrived in, are the same key:
/// of the same length and equal byte for byte.
pub fn same_public_key(left: &[u8], right: &[u8]) -> (same: bool)
    ensures
        same == (left@ == right@),
{
    if left.len() != right.len() {
        return false;
    }
    let mut i: usize = 0;
    while i < left.len()
        invariant
            i <= left@.len(),
            left@.len() == right@.len(),
            forall|j: int| 0 <= j < i ==> left@[j] == right@[j],
        decreases left@.len() - i,
    {
        if left[i] != right[i] {
            return false;
        }
        i = i + 1;
    }
    assert(left@ =~= right@);
    true
}

/// The public key that belongs to `private`. With it, the holder of any
/// other private key derives the same secret that `private` derives with
/// that holder's public key.
pub fn public_key_for(private: &[u8; 32]) -> (public: [u8; 32])
    ensures
        is_key_pair(private@, public@),
{
    dalek_public_key(private)
}

/// The public key that belongs to a private key as it arrives in bytes.
pub fn public_key_of(private: &[u8]) -> (public: Result<[u8; 32], SecurityError>)
    ensures
        private@.len() != 32 ==> public == Err::<[u8; 32], SecurityError>(
            SecurityError::InvalidKeyEncoding,
        ),
        private@.len() == 32 ==> public is Ok && is_key_pair(private@, public->Ok_0@),
{
    let key = match parse_key(private) {
        Ok(key) => key,
        Err(e) => { return Err(e); },
    };
    Ok(public_key_for(&key))
}

/// The shared secret of a local private key and a peer's public key. It is a
/// function of the two keys and of nothing else.
pub fn derive_shared_secret(private: &[u8], public: &[u8]) -> (secret: Result<[u8; 32], SecurityError>)
    ensures
        match secret {
            Ok(s) => derived_secret(private@, public@) == Ok::<Seq<u8>, SecurityError>(s@),
            Err(e) => derived_secret(private@, public@) == Err::<Seq<u8>, SecurityError>(e),
        },
{
    let private_key = match parse_key(private) {
        Ok(key) => key,
        Err(e) => { return Err(e); },
    };
    let public_key = match parse_key(public) {
        Ok(key) => key,
        Err(e) => { return Err(e); },
    };
    Ok(dalek_diffie_hellman(&private_key, &public_key))
}

/// Key agreement is symmetric: two parties that hold each other's public
/// key derive the same secret.
pub proof fn lemma_agreement_symmetric(
    private_a: Seq<u8>,
    public_a: Seq<u8>,
    private_b: Seq<u8>,
    public_b: Seq<u8>,
)
    requires
        is_key_pair(private_a, public_a),
        is_key_pair(private_b, public_b),
    ensures
        derived_secret(private_a, public_b) == derived_secret(private_b, public_a),
        derived_secret(private_a, public_b) is Ok,
{
    assert(x25519_shared(private_b, public_a) == x25519_shared(private_a, x25519_public(private_b)));
}

/// What a shared key is, seen from outside: the secret and the state of the
/// context that seals and opens under it.
pub struct SharedKeyState {
    pub secret: Seq<u8>,
    pub ctx: SymState,
}

impl SharedKeyState {
    /// The state of a key that was just derived: its context is keyed with
    /// the whole secret and has sealed nothing yet.
    pub open spec fn fresh(secret: Seq<u8>) -> SharedKeyState {
        SharedKeyState { secret, ctx: SymState { key: secret, alg: symm_alg(), counter: 0 } }
    }
}

/// A shared secret together with the one context that seals and opens under
/// it. The context is lent out, never copied.
pub struct SharedKey {
    secret: [u8; 32],
    _ctx: SymContext,
}

impl View for SharedKey {
    type V = SharedKeyState;

    closed spec fn view(&self) -> SharedKeyState {
        SharedKeyState { secret: self.secret@, ctx: self._ctx@ }
    }
}

impl SharedKey {
    fn create_context(secret: &[u8; 32]) -> (ctx: SymContext)
        ensures
            ctx@ == SharedKeyState::fresh(secret@).ctx,
    {
        SymContext::new(*secret, symm_alg())
    }

    /// Derives the key from a peer's public key and a private key that is
    /// given up with this call, so that it serves one agreement only.
    pub fn derive_eph(public: &[u8], private: Vec<u8>) -> (key: Result<Self, SecurityError>)
        ensures
            match key {
                Ok(k) => derived_secret(private@, public@) == Ok::<Seq<u8>, SecurityError>(k@.secret)
                    && k@ == SharedKeyState::fresh(k@.secret),
                Err(e) => derived_secret(private@, public@) == Err::<Seq<u8>, SecurityError>(e),
            },
    {
        Self::derive_stat(public, private.as_slice())
    }

    /// Derives the key from a peer's public key and a private key that stays
    /// with the caller.
    pub fn derive_stat(public: &[u8], private: &[u8]) -> (key: Result<Self, SecurityError>)
        ensures
            match key {
                Ok(k) => derived_secret(private@, public@) == Ok::<Seq<u8>, SecurityError>(k@.secret)
                    && k@ == SharedKeyState::fresh(k@.secret),
                Err(e) => derived_secret(private@, public@) == Err::<Seq<u8>, SecurityError>(e),
            },
    {
        let secret = match derive_shared_secret(private, public) {
            Ok(secret) => secret,
            Err(e) => { return Err(e); },
        };
        let ctx = Self::create_context(&secret);
        Ok(Self { secret, _ctx: ctx })
    }

    /// The shared secret.
    pub fn bytes(&self) -> (secret: [u8; SHARED_SECRET_LENGTH])
        ensures
            secret@ == self@.secret,
    {
        self.secret
    }

    /// Lends out the context. What the borrower does to it is what happens to
    /// this key's context; the secret stays as it is.
    pub fn ctx(&mut self) -> (ctx: &mut SymContext)
        ensures
            ctx@ == old(self)@.ctx,
            final(self)@ == (SharedKeyState { secret: old(self)@.secret, ctx: final(ctx)@ }),
    {
        &mut self._ctx
    }
}

} // verus!
