//! Chats: one per peer, each with the secret shared with that peer and the
//! context that seals what is sent.

use vstd::pervasive::unreached;
use vstd::prelude::*;
use crate::account::{AccountConnection, AmbiguousAccount, ImplicitAccount};
use crate::error::SecurityError;
use crate::messages::{carries, MessagePayload, OutgoingMessage};
use crate::peers::PeerTable;
use crate::secure::keys::{derived_secret, parse_key, symm_alg, SharedKeyState};
use crate::secure::mac::MAX_SIGNED_LEN;
use crate::secure::sym::{max_input_len, SymContext, SymState};

verus! {

/// What a chat is, seen from outside: the peer's account, the payloads it
/// keeps, the shared secret and the state of the sealing context.
pub struct ChatState {
    pub with: AmbiguousAccount,
    pub messages: Seq<MessagePayload>,
    pub secret: Seq<u8>,
    pub ctx: SymState,
}

impl ChatState {
    /// A chat with `with` that has sent nothing yet: it keeps no payload and
    /// its context is keyed with the whole shared secret.
    pub open spec fn opened(with: AmbiguousAccount, secret: Seq<u8>) -> ChatState {
        ChatState {
            with,
            messages: Seq::<MessagePayload>::empty(),
            secret,
            ctx: SharedKeyState::fresh(secret).ctx,
        }
    }

    /// The chat after it has sent one payload: the context has moved on by
    /// one frame, and the peer, the secret and the payloads kept are as they
    /// were.
    pub open spec fn sent(self) -> ChatState {
        ChatState { with: self.with, messages: self.messages, secret: self.secret, ctx: self.ctx.advanced() }
    }
}

/// The conversation with one peer.
pub struct Chat {
    with: AmbiguousAccount,
    messages: Vec<MessagePayload>,
    secret: Vec<u8>,
    ctx: SymContext,
}

impl View for Chat {
    type V = ChatState;

    closed spec fn view(&self) -> ChatState {
        ChatState { with: self.with, messages: self.messages@, secret: self.secret@, ctx: self.ctx@ }
    }
}

impl Chat {
    /// The peer of this chat.
    pub fn with(&self) -> (with: &AmbiguousAccount)
        ensures
            *with == self@.with,
    {
        &self.with
    }

    /// The payloads this chat keeps.
    pub fn messages(&self) -> (messages: &[MessagePayload])
        ensures
            messages@ == self@.messages,
    {
        self.messages.as_slice()
    }

    /// The secret shared with the peer.
    pub fn secret(&self) -> (secret: &[u8])
        ensures
            secret@ == self@.secret,
    {
        self.secret.as_slice()
    }

    /// Sends `message`: signs it over its plaintext, seals it under this
    /// chat's context and hands the payload back for delivery. Sending moves
    /// the context on by one frame and changes nothing else of the chat.
    pub fn send_message(&mut self, message: OutgoingMessage) -> (sent: Result<MessagePayload, SecurityError>)
        requires
            message.contents@.len() <= MAX_SIGNED_LEN,
            message.contents@.len() <= max_input_len(old(self)@.ctx.alg),
        ensures
            match derived_secret(message.user.private_key@, message.to.public_key@) {
                Err(e) => sent matches Err(err) && err == e && final(self)@ == old(self)@,
                Ok(secret) => if old(self)@.ctx.exhausted() {
                    sent matches Err(err) && err == SecurityError::NonceExhausted && final(self)@ == old(self)@
                } else {
                    sent matches Ok(payload) && carries(payload, message, secret) && payload.contents@
                        == old(self)@.ctx.seals(message.contents@) && final(self)@ == old(self)@.sent()
                },
            },
    {
        message.to_payload(Some(&mut self.ctx))
    }
}

/// What a pool is, seen from outside: the local account and the chats by
/// peer.
pub struct PoolState {
    pub account: ImplicitAccount,
    pub chats: Map<Seq<char>, ChatState>,
}

/// The chats of a table, each seen from outside.
pub open spec fn chat_states(chats: Map<Seq<char>, Chat>) -> Map<Seq<char>, ChatState> {
    chats.map_values(|c: Chat| c@)
}

/// The chats of the local account.
pub struct ChatPool {
    account: ImplicitAccount,
    chats: PeerTable<Chat>,
}

impl View for ChatPool {
    type V = PoolState;

    closed spec fn view(&self) -> PoolState {
        PoolState { account: self.account, chats: chat_states(self.chats@) }
    }
}

impl ChatPool {
    /// A pool for `account` with no chat yet.
    pub fn new(account: ImplicitAccount) -> (pool: Self)
        ensures
            pool@.account == account,
            pool@.chats == Map::<Seq<char>, ChatState>::empty(),
    {
        let pool = Self { account, chats: PeerTable::new() };
        assert(pool@.chats =~= Map::<Seq<char>, ChatState>::empty());
        pool
    }

    /// Lends out the chat with `with`. The first call for a peer opens the
    /// chat, deriving the secret shared with the peer's key; later calls find
    /// it as it was left. What the borrower does to the chat is what happens
    /// to it in the pool.
    pub fn get_chat(&mut self, with: AmbiguousAccount) -> (chat: Result<&mut Chat, SecurityError>)
        ensures
            final(self)@.account == old(self)@.account,
            match chat {
                Ok(c) => {
                    &&& final(self)@.chats == old(self)@.chats.insert(with.id@, final(c)@)
                    &&& if old(self)@.chats.contains_key(with.id@) {
                        c@ == old(self)@.chats[with.id@]
                    } else {
                        derived_secret(old(self)@.account.private_key@, with.public_key@) == Ok::<
                            Seq<u8>,
                            SecurityError,
                        >(c@.secret) && c@ == ChatState::opened(with, c@.secret)
                    }
                },
                Err(e) => {
                    &&& final(self)@ == old(self)@
                    &&& !old(self)@.chats.contains_key(with.id@)
                    &&& derived_secret(old(self)@.account.private_key@, with.public_key@) == Err::<
                        Seq<u8>,
                        SecurityError,
                    >(e)
                },
            },
    {
        let id = with.id.clone();
        if !self.chats.contains(id.as_str()) {
            let connection = match AccountConnection::from_accounts(&self.account, &with) {
                Ok(connection) => connection,
                Err(e) => { return Err(e); },
            };
            let key = match parse_key(connection.secret.as_slice()) {
                Ok(key) => key,
                Err(_) => unreached(),
            };
            let opened = Chat {
                with,
                messages: Vec::new(),
                secret: connection.secret,
                ctx: SymContext::new(key, symm_alg()),
            };
            assert(opened@ == ChatState::opened(with, opened@.secret));
            self.chats.insert(id.as_str(), opened);
            assert(self@.chats =~= old(self)@.chats.insert(id@, opened@));
        }
        let ghost table = self.chats@;
        proof {
            assert forall|v: Chat| #[trigger]
                chat_states(table.insert(id@, v)) == old(self)@.chats.insert(id@, v@) by {
                assert(chat_states(table.insert(id@, v)) =~= chat_states(table).insert(id@, v@));
                assert(chat_states(table).insert(id@, v@) =~= old(self)@.chats.insert(id@, v@));
            }
        }
        match self.chats.get_mut(id.as_str()) {
            Some(c) => Ok(c),
            None => unreached(),
        }
    }
}

} // verus!
