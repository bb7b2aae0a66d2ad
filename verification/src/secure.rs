//! Key agreement, message authentication and symmetric sealing.

pub mod keys;
pub mod mac;
pub mod sym;
