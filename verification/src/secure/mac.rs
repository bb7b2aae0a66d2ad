//! Message authentication under a shared secret: a keyed hash that only the
//! two holders of the secret can compute and check.

use vstd::prelude::*;

verus! {

/// Length of a signature in bytes.
pub const SIGNATURE_LEN: usize = 32;

/// The longest message, in bytes, that can be signed: 2^61 - 65.
pub const MAX_SIGNED_LEN: u64 = 0x1FFF_FFFF_FFFF_FFBF;

/// HMAC-SHA256 of `data` under `key`.
pub uninterp spec fn hmac_sha256(key: Seq<u8>, data: Seq<u8>) -> Seq<u8>;

/// `signature` authenticates `data` under `key`: the message is short enough
/// to be signed at all, and the signature is its keyed hash, byte for byte
/// and of the same length.
pub open spec fn signature_valid(key: Seq<u8>, data: Seq<u8>, signature: Seq<u8>) -> bool {
    data.len() <= MAX_SIGNED_LEN && signature == hmac_sha256(key, data)
}

/// `ring::hmac::sign` with an `HMAC_SHA256` key made from `key`: the tag is
/// the 32-byte digest, a function of key and data. ring's digest counts its
/// input in bits in 64 bits and panics beyond that, which the bound on
/// `data` keeps away.
#[verifier::external_body]
fn ring_hmac_sign(key: &[u8; 32], data: &[u8]) -> (tag: Vec<u8>)
    requires
        data@.len() <= MAX_SIGNED_LEN,
    ensures
        tag@ == hmac_sha256(key@, data@),
        tag@.len() == SIGNATURE_LEN,
{
    let key = ring::hmac::Key::new(ring::hmac::HMAC_SHA256, key);
    ring::hmac::sign(&key, data).as_ref().to_vec()
}

/// `ring::hmac::verify` with an `HMAC_SHA256` key made from `key`: it signs
/// `data` and accepts exactly where `tag` equals the result, compared in
/// constant time.
#[verifier::external_body]
fn ring_hmac_verify(key: &[u8; 32], data: &[u8], tag: &[u8]) -> (ok: bool)
    requires
        data@.len() <= MAX_SIGNED_LEN,
    ensures
        ok == (tag@ == hmac_sha256(key@, data@)),
{
    let key = ring::hmac::Key::new(ring::hmac::HMAC_SHA256, key);
    ring::hmac::verify(&key, data, tag).is_ok()
}

/// Whether a message of `len` bytes is short enough to be signed.
pub fn signable(len: usize) -> (ok: bool)
    ensures
        ok == (len <= MAX_SIGNED_LEN),
{
    len as u64 <= MAX_SIGNED_LEN
}

/// Signs `data` under `key`.
pub fn sign(key: &[u8; 32], data: &[u8]) -> (signature: Vec<u8>)
    requires
        data@.len() <= MAX_SIGNED_LEN,
    ensures
        signature@ == hmac_sha256(key@, data@),
        signature@.len() == SIGNATURE_LEN,
        signature_valid(key@, data@, signature@),
{
    ring_hmac_sign(key, data)
}

/// Checks `signature` against `data` under `key`. A mismatch, a signature of
/// the wrong length and a message too long to sign all give `false`.
pub fn verify(key: &[u8; 32], data: &[u8], signature: &[u8]) -> (ok: bool)
    ensures
        ok == signature_valid(key@, data@, signature@),
{
    if !signable(data.len()) {
        return false;
    }
    ring_hmac_verify(key, data, signature)
}

} // verus!
