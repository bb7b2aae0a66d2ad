//! Cryptographic session core of a peer-to-peer messenger: key agreement,
//! sealed frames with a managed nonce, message authentication and the
//! per-connection guard that sequences them.

pub mod account;
pub mod chat;
pub mod error;
pub mod guard;
pub mod identity;
pub mod messages;
pub mod peers;
pub mod secure;
pub mod security;
pub mod shared;
pub mod user;
