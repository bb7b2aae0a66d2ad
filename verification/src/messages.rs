//! Outgoing and incoming messages: a message is signed over its plaintext,
//! sealed if a context is at hand, and checked on arrival against the key
//! that the directory holds for its sender.

use vstd::prelude::*;
use vstd::slice::slice_to_vec;
use crate::account::{AmbiguousAccount, ImplicitAccount, ID};
use crate::error::SecurityError;
use crate::secure::keys::{derive_shared_secret, derived_secret, public_key_of, x25519_public};
use crate::secure::mac::{hmac_sha256, sign, signature_valid, verify, MAX_SIGNED_LEN};
use crate::secure::sym::{max_input_len, SymContext};
use crate::security::{peer_secret, ForeignKeychain, KeyStore, SealedMessage};

verus! {

/// A message on its way out: who sends it, what it says, and to whom.
#[derive(Debug, Clone)]
pub struct OutgoingMessage {
    pub user: ImplicitAccount,
    pub contents: Vec<u8>,
    pub to: AmbiguousAccount,
}

/// A message as it travels: the sender's identifier and public key, the
/// contents in the clear or sealed, and the signature of the plaintext.
#[derive(Debug, Clone)]
pub struct MessagePayload {
    pub id: ID,
    pub key: Vec<u8>,
    pub contents: Vec<u8>,
    pub signature: Vec<u8>,
}

/// A message that arrived, about to be checked.
#[derive(Debug, Clone)]
pub struct IncomingMessage {
    account: AmbiguousAccount,
    contents: Vec<u8>,
    signature: Vec<u8>,
}

/// `payload` carries `message` signed under `secret`, whatever its contents
/// are: it names the sender, holds the sender's public key, and its signature
/// is that of the plaintext.
pub open spec fn carries(payload: MessagePayload, message: OutgoingMessage, secret: Seq<u8>) -> bool {
    &&& payload.id@ == message.user.id@
    &&& payload.key@ == x25519_public(message.user.private_key@)
    &&& payload.signature@ == hmac_sha256(secret, message.contents@)
}

/// Whether the directory vouches for a message: its sender is known there
/// with a shared secret, and the signature holds for the contents under it.
pub open spec fn vouched(
    directory: Map<Seq<char>, ForeignKeychain>,
    sender: Seq<char>,
    contents: Seq<u8>,
    signature: Seq<u8>,
) -> bool {
    match peer_secret(directory, sender) {
        Some(secret) => signature_valid(secret, contents, signature),
        None => false,
    }
}

impl OutgoingMessage {
    /// Builds the payload. The signature always covers the plaintext. With a
    /// context the contents are sealed under it, which moves it on by one
    /// frame; without one they travel in the clear.
    pub fn to_payload(&self, ctx: Option<&mut SymContext>) -> (out: Result<MessagePayload, SecurityError>)
        requires
            self.contents@.len() <= MAX_SIGNED_LEN,
            ctx matches Some(c) ==> self.contents@.len() <= max_input_len(c@.alg),
        ensures
            match derived_secret(self.user.private_key@, self.to.public_key@) {
                Err(e) => out matches Err(err) && err == e && (ctx matches Some(c) ==> final(c)@ == c@),
                Ok(secret) => match ctx {
                    Some(c) => if c@.exhausted() {
                        out matches Err(err) && err == SecurityError::NonceExhausted && final(c)@ == c@
                    } else {
                        out matches Ok(payload) && carries(payload, *self, secret) && payload.contents@
                            == c@.seals(self.contents@) && final(c)@ == c@.advanced()
                    },
                    None => out matches Ok(payload) && carries(payload, *self, secret)
                        && payload.contents@ == self.contents@,
                },
            },
    {
        let secret = match derive_shared_secret(self.user.private_key.as_slice(), self.to.public_key.as_slice()) {
            Ok(secret) => secret,
            Err(e) => { return Err(e); },
        };
        let key = match public_key_of(self.user.private_key.as_slice()) {
            Ok(key) => key,
            Err(e) => { return Err(e); },
        };
        let mut contents = slice_to_vec(self.contents.as_slice());
        match ctx {
            Some(c) => {
                match c.encrypt(&mut contents) {
                    Ok(()) => {},
                    Err(e) => { return Err(e); },
                }
            },
            None => {},
        }
        Ok(
            MessagePayload {
                id: self.user.id.clone(),
                key: slice_to_vec(key.as_slice()),
                contents,
                signature: sign(&secret, self.contents.as_slice()),
            },
        )
    }
}

impl MessagePayload {
    /// The payload as a data frame for the transport.
    pub fn frame(&self) -> (frame: SealedMessage<'_>)
        ensures
            frame matches SealedMessage::Communicate { userid, signature, message } && userid@ == self.id@
                && signature@ == self.signature@ && message@ == self.contents@,
    {
        SealedMessage::Communicate {
            userid: self.id.as_str(),
            signature: self.signature.as_slice(),
            message: self.contents.as_slice(),
        }
    }
}

impl View for IncomingMessage {
    type V = MessagePayload;

    closed spec fn view(&self) -> MessagePayload {
        MessagePayload {
            id: self.account.id,
            key: self.account.public_key,
            contents: self.contents,
            signature: self.signature,
        }
    }
}

impl IncomingMessage {
    /// What else is known of the sender's account, beside its identifier and
    /// key.
    pub closed spec fn info(&self) -> Seq<u8> {
        self.account.info@
    }

    /// A message from `account` with its contents and signature.
    pub fn new(account: AmbiguousAccount, contents: Vec<u8>, signature: Vec<u8>) -> (incoming: Self)
        ensures
            incoming@.id == account.id,
            incoming@.key == account.public_key,
            incoming@.contents == contents,
            incoming@.signature == signature,
            incoming.info() == account.info@,
    {
        Self { account, contents, signature }
    }

    /// Checks the signature against the contents, under the secret that the
    /// directory holds for the sender. The key that came with the message is
    /// not used. An unknown sender, a wrong signature and one of the wrong
    /// length all give `false`.
    pub fn verify<KS: KeyStore>(&self, keys: &KS) -> (ok: bool)
        ensures
            ok == vouched(keys.directory(), self@.id@, self@.contents@, self@.signature@),
    {
        let secret = match keys.get_key(self.account.id.as_str()) {
            Some(keychain) => match keychain.shared_key {
                Some(secret) => secret,
                None => { return false; },
            },
            None => { return false; },
        };
        verify(&secret, self.contents.as_slice(), self.signature.as_slice())
    }

    /// The sender's account as this message knows it.
    pub fn account(&self) -> (account: &AmbiguousAccount)
        ensures
            account.id == self@.id,
            account.public_key == self@.key,
            account.info@ == self.info(),
    {
        &self.account
    }

    /// The message that a payload carries: sender, key, contents and
    /// signature are moved over as they are, nothing is checked, and nothing
    /// else is known of the sender.
    pub fn from_payload(payload: MessagePayload) -> (incoming: Self)
        ensures
            incoming@.id == payload.id,
            incoming@.key == payload.key,
            incoming@.contents == payload.contents,
            incoming@.signature == payload.signature,
            incoming.info() == Seq::<u8>::empty(),
    {
        Self {
            account: AmbiguousAccount { public_key: payload.key, id: payload.id, info: Vec::new() },
            contents: payload.contents,
            signature: payload.signature,
        }
    }
}

} // verus!
