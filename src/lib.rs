//! Per-party runtime of a multi-party computation engine: the protocol
//! phase state machine, the message fabric between parties, and the
//! 1-out-of-2 oblivious transfer exchange run between every pair of parties.
pub mod entropy;
pub mod error;
pub mod messages;
pub mod ot;
pub mod party;
pub mod phase;
pub mod schedule;
