//! Connection-handling core of an ABCI-style server.
//!
//! A server of this kind accepts byte-stream connections from a consensus
//! engine, decodes framed requests, routes each request to one of four
//! handler services (consensus, mempool, info, snapshot), and re-assembles
//! the handlers' responses in strict request-arrival order even though the
//! handlers complete out of order. A fifth, payload-less request category,
//! `Flush`, acts as a barrier: every response owed for earlier requests is
//! sent before its acknowledgement.
//!
//! The crate verifies the two pieces of logic that carry the design:
//!
//! * [`server`]: the builder that refuses to assemble a server unless all
//!   four handler slots are filled.
//! * [`session`]: the per-connection state machine. It is written as a pure
//!   transition system: the surrounding (unverified) I/O loop feeds it one
//!   event at a time — "a message of this category arrived", "the oldest
//!   pending operation resolved" — and performs the actions it returns. All
//!   ordering guarantees (response order equals arrival order, the flush
//!   barrier, per-category order) are proved over a ghost log of everything
//!   the loop is told to put on the wire.

pub mod server;
pub mod session;
