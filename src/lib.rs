//! A node of a credit-based peer-to-peer overlay: the secure channel's
//! message codec and handshake checks, the keepalive shim, the listen and
//! connect pools, the per-friend connection registry (the channeler), the
//! mutual-credit ledger, the token channel state machine with its reset
//! protocol, and the report layer above them.
//!
//! Every module is a pure state machine or a function on plain values; the
//! asynchronous plumbing that drives them lives outside this library.
mod keys;

pub use keys::{PublicKey, PUBLIC_KEY_LEN};

pub mod ids;
pub mod primitives;
pub mod messages;

pub mod secure_channel;
pub mod keepalive;
pub mod overwrite;
pub mod listen_pool;
pub mod connect_pool;
pub mod channeler;

pub mod signature_buff;
pub mod mutual_credit;
pub mod operations;
pub mod move_token;
pub mod reset;
pub mod token_channel;
pub mod report;
