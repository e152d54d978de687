//! Contract layer between a pluggable consensus engine and its host ledger.
//!
//! The crate defines the value types exchanged across that boundary, the
//! closed error taxonomy, the ordered update channel that carries network and
//! ledger events into the engine, the service facade through which the engine
//! builds and commits block candidates, and a reference engine that drives
//! the whole protocol.  The block-candidate state machine and the engine's
//! obligations (ordering, ignoring unknown messages, never committing an
//! invalidated block) are stated as contracts and proved.

pub mod channel;
pub mod engine;
pub mod error;
pub mod laws;
pub mod model;
pub mod peer;
pub mod service;
pub mod types;
