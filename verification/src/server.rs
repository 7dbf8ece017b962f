//! Assembly of a server from its four handler services.
//!
//! A server needs exactly one handler per dispatchable request category.
//! The builder collects the four handlers one at a time; `finish` produces a
//! server only when every slot has been filled, so an incomplete
//! configuration surfaces at startup rather than at request time.

use vstd::prelude::*;

verus! {

/// A server holding the four per-category handler services.
///
/// The type parameters are the consensus, mempool, info and snapshot
/// handlers; this layer treats them as opaque values to be handed to each
/// accepted connection's session.
pub struct Server<C, M, I, S> {
    pub consensus: C,
    pub mempool: M,
    pub info: I,
    pub snapshot: S,
}

/// Collects the four handler services. Setting a slot again overwrites the
/// previous value; `finish` refuses to produce a [`Server`] while any slot
/// is empty.
pub struct ServerBuilder<C, M, I, S> {
    pub consensus: Option<C>,
    pub mempool: Option<M>,
    pub info: Option<I>,
    pub snapshot: Option<S>,
}

impl<C, M, I, S> ServerBuilder<C, M, I, S> {
    /// True when all four handler slots are filled.
    pub open spec fn is_complete(self) -> bool {
        &&& self.consensus is Some
        &&& self.mempool is Some
        &&& self.info is Some
        &&& self.snapshot is Some
    }

    /// Fill the consensus slot.
    pub fn consensus(self, consensus: C) -> (r: Self)
        ensures
            r.consensus == Some(consensus),
            r.mempool == self.mempool,
            r.info == self.info,
            r.snapshot == self.snapshot,
    {
        ServerBuilder {
            consensus: Some(consensus),
            mempool: self.mempool,
            info: self.info,
            snapshot: self.snapshot,
        }
    }

    /// Fill the mempool slot.
    pub fn mempool(self, mempool: M) -> (r: Self)
        ensures
            r.mempool == Some(mempool),
            r.consensus == self.consensus,
            r.info == self.info,
            r.snapshot == self.snapshot,
    {
        ServerBuilder {
            consensus: self.consensus,
            mempool: Some(mempool),
            info: self.info,
            snapshot: self.snapshot,
        }
    }

    /// Fill the info slot.
    pub fn info(self, info: I) -> (r: Self)
        ensures
            r.info == Some(info),
            r.consensus == self.consensus,
            r.mempool == self.mempool,
            r.snapshot == self.snapshot,
    {
        ServerBuilder {
            consensus: self.consensus,
            mempool: self.mempool,
            info: Some(info),
            snapshot: self.snapshot,
        }
    }

    /// Fill the snapshot slot.
    pub fn snapshot(self, snapshot: S) -> (r: Self)
        ensures
            r.snapshot == Some(snapshot),
            r.consensus == self.consensus,
            r.mempool == self.mempool,
            r.info == self.info,
    {
        ServerBuilder {
            consensus: self.consensus,
            mempool: self.mempool,
            info: self.info,
            snapshot: Some(snapshot),
        }
    }

    /// Assemble the server. Returns `Some` exactly when every one of the
    /// four handler slots has been filled, and the server then holds the
    /// four handlers as set.
    pub fn finish(self) -> (r: Option<Server<C, M, I, S>>)
        ensures
            (r is Some) == self.is_complete(),
            r matches Some(srv) ==> {
                &&& srv.consensus == self.consensus->0
                &&& srv.mempool == self.mempool->0
                &&& srv.info == self.info->0
                &&& srv.snapshot == self.snapshot->0
            },
    {
        let consensus = match self.consensus {
            Some(c) => c,
            None => {
                return None;
            }
        };
        let mempool = match self.mempool {
            Some(m) => m,
            None => {
                return None;
            }
        };
        let info = match self.info {
            Some(i) => i,
            None => {
                return None;
            }
        };
        let snapshot = match self.snapshot {
            Some(s) => s,
            None => {
                return None;
            }
        };
        Some(Server { consensus, mempool, info, snapshot })
    }
}

impl<C, M, I, S> Default for ServerBuilder<C, M, I, S> {
    /// An empty builder: no handler slot filled.
    fn default() -> (r: Self)
        ensures
            r.consensus is None,
            r.mempool is None,
            r.info is None,
            r.snapshot is None,
    {
        ServerBuilder { consensus: None, mempool: None, info: None, snapshot: None }
    }
}

impl<C, M, I, S> Server<C, M, I, S> {
    /// An empty builder for a server of these handler types.
    pub fn builder() -> (r: ServerBuilder<C, M, I, S>)
        ensures
            r.consensus is None,
            r.mempool is None,
            r.info is None,
            r.snapshot is None,
    {
        ServerBuilder::default()
    }

    /// Hand the four handlers out, consensus first, for the accept loop to
    /// duplicate into each accepted connection.
    pub fn into_parts(self) -> (r: (C, M, I, S))
        ensures
            r == (self.consensus, self.mempool, self.info, self.snapshot),
    {
        (self.consensus, self.mempool, self.info, self.snapshot)
    }
}

} // verus!
