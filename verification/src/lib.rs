//! Coordination layer of a distributed load-generation fleet: one Manager
//! drives many Workers.  This crate holds the Worker-side lifecycle state
//! machine, the envelope codec for the messages the two roles exchange, the
//! Manager's per-Worker protocol decisions, and the decision logic of the
//! metrics push channel.  All socket I/O is left to the embedding program,
//! which performs the actions these functions return.

pub mod address;
pub mod codec;
pub mod manager;
pub mod messages;
pub mod worker;
