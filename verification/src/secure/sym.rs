//! Sealing and opening of frames under one key, with a counter-driven nonce
//! that is used once and then never again.

use vstd::pervasive::unreached;
use vstd::prelude::*;
use crate::error::SecurityError;

verus! {

/// Length of every nonce in bytes.
pub const NONCE_LEN: usize = 12;

/// Length of the authentication tag that follows the ciphertext.
pub const TAG_LEN: usize = 16;

/// The AEAD algorithms a context can be keyed for. Both take a 32-byte key,
/// a 12-byte nonce and produce a 16-byte tag.
#[derive(Clone, Copy, Debug, PartialEq, Eq, Structural)]
pub enum Algorithm {
    ChaCha20Poly1305,
    Aes256Gcm,
}

/// The longest plaintext, in bytes, that one nonce may cover.
pub open spec fn max_input_len(alg: Algorithm) -> int {
    match alg {
        Algorithm::ChaCha20Poly1305 => 274_877_906_880,
        Algorithm::Aes256Gcm => 68_719_476_704,
    }
}

/// Whether a plaintext of `len` bytes is short enough to be sealed under one
/// nonce.
pub fn sealable(alg: Algorithm, len: usize) -> (ok: bool)
    ensures
        ok == (len <= max_input_len(alg)),
{
    match alg {
        Algorithm::ChaCha20Poly1305 => len as u64 <= 274_877_906_880,
        Algorithm::Aes256Gcm => len as u64 <= 68_719_476_704,
    }
}

/// The nonce for a counter value: the counter in four little-endian bytes,
/// then eight zero bytes.
pub open spec fn nonce_bytes(counter: u32) -> Seq<u8> {
    seq![
        (counter % 256) as u8,
        ((counter / 256) % 256) as u8,
        ((counter / 65_536) % 256) as u8,
        (counter / 16_777_216) as u8,
        0u8,
        0u8,
        0u8,
        0u8,
        0u8,
        0u8,
        0u8,
        0u8,
    ]
}

/// Ciphertext followed by tag, as the AEAD produces it for a key, a nonce and
/// a plaintext with no associated data.
pub uninterp spec fn aead_sealed(alg: Algorithm, key: Seq<u8>, nonce: Seq<u8>, plain: Seq<u8>) -> Seq<u8>;

/// The plaintext that the AEAD recovers from ciphertext and tag, or `None`
/// where the tag does not verify.
pub uninterp spec fn aead_opened(alg: Algorithm, key: Seq<u8>, nonce: Seq<u8>, sealed: Seq<u8>) -> Option<Seq<u8>>;

/// `other` is `frame` with nothing but its tag changed: both are of one
/// length, which is at least that of a tag, they are equal before the tag,
/// and they are not equal.
pub open spec fn differs_in_tag(other: Seq<u8>, frame: Seq<u8>) -> bool {
    &&& frame.len() >= TAG_LEN
    &&& other.len() == frame.len()
    &&& other.subrange(0, frame.len() - TAG_LEN) == frame.subrange(0, frame.len() - TAG_LEN)
    &&& other != frame
}

/// What a context is, seen from outside: its key, its algorithm and the
/// counter value that the next frame will use.
pub struct SymState {
    pub key: Seq<u8>,
    pub alg: Algorithm,
    pub counter: u32,
}

impl SymState {
    /// No nonce is left once the counter stands at its last value: using it
    /// would make the counter wrap.
    pub open spec fn exhausted(self) -> bool {
        self.counter == u32::MAX
    }

    /// The state after one frame.
    pub open spec fn advanced(self) -> SymState
        recommends
            !self.exhausted(),
    {
        SymState { key: self.key, alg: self.alg, counter: (self.counter + 1) as u32 }
    }

    /// The state after `n` frames.
    pub open spec fn after(self, n: nat) -> SymState
        recommends
            self.counter + n <= u32::MAX,
    {
        SymState { key: self.key, alg: self.alg, counter: (self.counter + n) as u32 }
    }

    /// The frame that sealing `plain` in this state yields.
    pub open spec fn seals(self, plain: Seq<u8>) -> Seq<u8> {
        aead_sealed(self.alg, self.key, nonce_bytes(self.counter), plain)
    }

    /// What opening `sealed` in this state yields.
    pub open spec fn opens(self, sealed: Seq<u8>) -> Option<Seq<u8>> {
        aead_opened(self.alg, self.key, nonce_bytes(self.counter), sealed)
    }
}

/// Seals `plain` with `ring::aead::LessSafeKey::seal_in_place_append_tag`
/// under an `UnboundKey` made from `key`, with empty associated data. ring
/// refuses only a plaintext above the algorithm's per-nonce limit. The output
/// is the input's length plus one tag, and it is what `open_in_place` turns
/// back into the plaintext under the same key and nonce. ring's opening
/// computes a tag from the ciphertext alone and accepts a frame only where
/// the tag received equals it, so of all frames with this ciphertext none
/// but this one opens.
#[verifier::external_body]
fn ring_seal(alg: Algorithm, key: &[u8; 32], nonce: &[u8; 12], plain: &[u8]) -> (sealed: Option<Vec<u8>>)
    ensures
        sealed is Some <==> plain@.len() <= max_input_len(alg),
        sealed matches Some(s) ==> s@ == aead_sealed(alg, key@, nonce@, plain@),
        sealed matches Some(s) ==> s@.len() == plain@.len() + TAG_LEN,
        sealed matches Some(s) ==> aead_opened(alg, key@, nonce@, s@) == Some(plain@),
        sealed matches Some(s) ==> forall|other: Seq<u8>| #[trigger]
            differs_in_tag(other, s@) ==> aead_opened(alg, key@, nonce@, other) is None,
{
    let ring_alg = match alg {
        Algorithm::ChaCha20Poly1305 => &ring::aead::CHACHA20_POLY1305,
        Algorithm::Aes256Gcm => &ring::aead::AES_256_GCM,
    };
    let sealing = ring::aead::LessSafeKey::new(ring::aead::UnboundKey::new(ring_alg, key).ok()?);
    let nonce = ring::aead::Nonce::assume_unique_for_key(*nonce);
    let mut buf = plain.to_vec();
    sealing.seal_in_place_append_tag(nonce, ring::aead::Aad::empty(), &mut buf).ok()?;
    Some(buf)
}

/// Opens `sealed` with `ring::aead::LessSafeKey::open_in_place` under an
/// `UnboundKey` made from `key`, with empty associated data, and hands back
/// the plaintext without the tag. ring fails on an input shorter than one
/// tag, and a plaintext is always one tag shorter than its frame.
#[verifier::external_body]
fn ring_open(alg: Algorithm, key: &[u8; 32], nonce: &[u8; 12], sealed: &[u8]) -> (plain: Option<Vec<u8>>)
    ensures
        plain is Some <==> aead_opened(alg, key@, nonce@, sealed@) is Some,
        plain matches Some(p) ==> Some(p@) == aead_opened(alg, key@, nonce@, sealed@),
        plain matches Some(p) ==> p@.len() + TAG_LEN == sealed@.len(),
{
    let ring_alg = match alg {
        Algorithm::ChaCha20Poly1305 => &ring::aead::CHACHA20_POLY1305,
        Algorithm::Aes256Gcm => &ring::aead::AES_256_GCM,
    };
    let opening = ring::aead::LessSafeKey::new(ring::aead::UnboundKey::new(ring_alg, key).ok()?);
    let nonce = ring::aead::Nonce::assume_unique_for_key(*nonce);
    let mut buf = sealed.to_vec();
    let plain = opening.open_in_place(nonce, ring::aead::Aad::empty(), &mut buf).ok()?;
    Some(plain.to_vec())
}

/// The nonce for a counter value, as bytes.
pub fn nonce_for(counter: u32) -> (nonce: [u8; NONCE_LEN])
    ensures
        nonce@ == nonce_bytes(counter),
{
    let mut nonce = [0u8; 12];
    nonce[0] = (counter % 256) as u8;
    nonce[1] = ((counter / 256) % 256) as u8;
    nonce[2] = ((counter / 65_536) % 256) as u8;
    nonce[3] = (counter / 16_777_216) as u8;
    assert(nonce@ =~= nonce_bytes(counter));
    nonce
}

/// Two counter values never share a nonce.
pub proof fn lemma_nonce_injective(a: u32, b: u32)
    ensures
        nonce_bytes(a) == nonce_bytes(b) <==> a == b,
{
    if nonce_bytes(a) == nonce_bytes(b) {
        let na = nonce_bytes(a);
        let nb = nonce_bytes(b);
        assert(na[0] == nb[0] && na[1] == nb[1] && na[2] == nb[2] && na[3] == nb[3]);
    }
}

/// Frame after frame the counter goes up by one: the state after no frame is
/// the state itself, and the state after one frame more is the state after
/// one step more.
pub proof fn lemma_frames_count_up(state: SymState, n: nat)
    requires
        state.counter + n < u32::MAX,
    ensures
        state.after(0) == state,
        !state.after(n).exhausted(),
        state.after(n + 1) == state.after(n).advanced(),
{
}

/// However many frames a context seals or opens, no two of them get the
/// same nonce: the later frame's counter is the higher one, under the same
/// key, and its nonce is another.
pub proof fn lemma_nonces_never_repeat(state: SymState, earlier: nat, later: nat)
    requires
        earlier < later,
        state.counter + later <= u32::MAX,
    ensures
        state.after(earlier).key == state.after(later).key,
        state.after(earlier).counter < state.after(later).counter,
        nonce_bytes(state.after(earlier).counter) != nonce_bytes(state.after(later).counter),
{
    lemma_nonce_injective(state.after(earlier).counter, state.after(later).counter);
}

/// A sealing and opening engine under one key. It owns its counter: there is
/// no second handle, so no two frames are ever sealed with the same nonce.
pub struct SymContext {
    counter: u32,
    alg: Algorithm,
    key: [u8; 32],
}

impl View for SymContext {
    type V = SymState;

    closed spec fn view(&self) -> SymState {
        SymState { key: self.key@, alg: self.alg, counter: self.counter }
    }
}

impl SymContext {
    /// A context at counter zero.
    pub fn new(key: [u8; 32], alg: Algorithm) -> (ctx: Self)
        ensures
            ctx@ == (SymState { key: key@, alg, counter: 0 }),
    {
        Self { counter: 0, alg, key }
    }

    /// A context whose next frame uses `counter`, for a session whose earlier
    /// frames were sealed or opened elsewhere.
    pub fn at(key: [u8; 32], alg: Algorithm, counter: u32) -> (ctx: Self)
        ensures
            ctx@ == (SymState { key: key@, alg, counter }),
    {
        Self { counter, alg, key }
    }

    /// The counter value that the next frame will use. Reading it changes
    /// nothing.
    pub fn peek(&self) -> (counter: u32)
        ensures
            counter == self@.counter,
    {
        self.counter
    }

    /// The algorithm this context was keyed for.
    pub fn algorithm(&self) -> (alg: Algorithm)
        ensures
            alg == self@.alg,
    {
        self.alg
    }

    /// Whether this context seals under `key`. Every byte is looked at, and
    /// no step depends on what the bytes are.
    pub fn is_keyed_with(&self, key: &[u8; 32]) -> (same: bool)
        ensures
            same == (self@.key == key@),
    {
        let mut differing: u8 = 0;
        let mut i: usize = 0;
        while i < 32
            invariant
                i <= 32,
                (differing == 0) == (forall|j: int| 0 <= j < i ==> self.key@[j] == key@[j]),
            decreases 32 - i,
        {
            let mine: u8 = self.key[i];
            let theirs: u8 = key[i];
            assert(((differing | (mine ^ theirs)) == 0) == (differing == 0 && mine == theirs)) by (bit_vector);
            differing = differing | (mine ^ theirs);
            i = i + 1;
        }
        assert((differing == 0) == (self.key@ =~= key@));
        differing == 0
    }

    /// Hands out the nonce of the current counter value and moves the counter
    /// on by one. At the last counter value nothing is handed out and nothing
    /// changes.
    pub fn advance(&mut self) -> (nonce: Result<[u8; NONCE_LEN], SecurityError>)
        ensures
            match nonce {
                Ok(bytes) => {
                    &&& !old(self)@.exhausted()
                    &&& bytes@ == nonce_bytes(old(self)@.counter)
                    &&& final(self)@ == old(self)@.advanced()
                },
                Err(e) => {
                    &&& old(self)@.exhausted()
                    &&& e == SecurityError::NonceExhausted
                    &&& final(self)@ == old(self)@
                },
            },
    {
        if self.counter == u32::MAX {
            return Err(SecurityError::NonceExhausted);
        }
        let nonce = nonce_for(self.counter);
        self.counter = self.counter + 1;
        Ok(nonce)
    }

    /// Seals `payload` in place: afterwards it holds the ciphertext followed
    /// by the tag, and the counter has moved on by one. A context in the state
    /// this one had before the call opens the frame to the plaintext again,
    /// and opens no frame that differs from it in the tag alone.
    pub fn encrypt(&mut self, payload: &mut Vec<u8>) -> (done: Result<(), SecurityError>)
        requires
            old(payload)@.len() <= max_input_len(old(self)@.alg),
        ensures
            match done {
                Ok(()) => {
                    &&& !old(self)@.exhausted()
                    &&& final(payload)@ == old(self)@.seals(old(payload)@)
                    &&& final(payload)@.len() == old(payload)@.len() + TAG_LEN
                    &&& old(self)@.opens(final(payload)@) == Some(old(payload)@)
                    &&& forall|other: Seq<u8>| #[trigger]
                        differs_in_tag(other, final(payload)@) ==> old(self)@.opens(other) is None
                    &&& final(self)@ == old(self)@.advanced()
                },
                Err(e) => {
                    &&& old(self)@.exhausted()
                    &&& e == SecurityError::NonceExhausted
                    &&& final(payload)@ == old(payload)@
                    &&& final(self)@ == old(self)@
                },
            },
    {
        let nonce = match self.advance() {
            Ok(nonce) => nonce,
            Err(e) => { return Err(e); },
        };
        match ring_seal(self.alg, &self.key, &nonce, payload.as_slice()) {
            Some(sealed) => {
                *payload = sealed;
                Ok(())
            },
            None => unreached(),
        }
    }

    /// Opens `payload` in place: on success it holds the plaintext. The counter
    /// moves on by one whether or not the tag verified; a frame that does not
    /// verify leaves `payload` empty and is reported without a cause.
    pub fn decrypt(&mut self, payload: &mut Vec<u8>) -> (done: Result<(), SecurityError>)
        ensures
            match done {
                Ok(()) => {
                    &&& !old(self)@.exhausted()
                    &&& old(self)@.opens(old(payload)@) == Some(final(payload)@)
                    &&& final(payload)@.len() + TAG_LEN == old(payload)@.len()
                    &&& final(self)@ == old(self)@.advanced()
                },
                Err(e) => if old(self)@.exhausted() {
                    &&& e == SecurityError::NonceExhausted
                    &&& final(payload)@ == old(payload)@
                    &&& final(self)@ == old(self)@
                } else {
                    &&& e == SecurityError::AuthenticationFailed
                    &&& old(self)@.opens(old(payload)@) is None
                    &&& final(payload)@.len() == 0
                    &&& final(self)@ == old(self)@.advanced()
                },
            },
    {
        let nonce = match self.advance() {
            Ok(nonce) => nonce,
            Err(e) => { return Err(e); },
        };
        match ring_open(self.alg, &self.key, &nonce, payload.as_slice()) {
            Some(plain) => {
                *payload = plain;
                Ok(())
            },
            None => {
                payload.clear();
                Err(SecurityError::AuthenticationFailed)
            },
        }
    }
}

} // verus!
