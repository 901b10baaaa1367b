//! Ingestion layer for streamed chain data: decodes raw streaming block
//! updates into a canonical block model, and composes the live block, slot,
//! cluster-info, vote-account and optional account-change subscriptions
//! into one bundle of broadcast channels for downstream consumers.
//!
//! The decoder is a pure function from a raw update and a caller-asserted
//! commitment tag to a canonical block; its contract pins every field of
//! the result. Malformed transaction envelopes are dropped one by one;
//! a missing block height or time, and an undecodable transaction-error
//! encoding, fail the whole block.

pub mod cb;
pub mod compose;
pub mod decode;
pub mod ext;
pub mod keys;
pub mod message;
pub mod produced;
pub mod shortvec;
pub mod wire;
