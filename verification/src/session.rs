//! The per-connection session state machine.
//!
//! One session owns one connection's lifecycle. The unverified I/O loop
//! around it races two event sources — the next decoded inbound message,
//! and the resolution of the *oldest* pending handler call — and reports
//! each event to the session, which returns the actions the loop must
//! perform (issue a handler call, send a response, send the flush
//! acknowledgement, close the connection).
//!
//! The session records, in a ghost log, every item it orders onto the wire.
//! Its well-formedness invariant ties that log to the queue of pending
//! operations, and the ordering guarantees of the design are proved from
//! it: responses leave in request-arrival order, a flush acknowledgement
//! never overtakes a response owed before it, and every flush handled while
//! the connection is alive is acknowledged exactly once.

use vstd::prelude::*;

verus! {

/// The category of a decoded inbound request.
#[derive(Clone, Copy, Debug, PartialEq, Eq, Structural)]
pub enum Category {
    Consensus,
    Mempool,
    Info,
    Snapshot,
    /// The barrier control category: never dispatched to a handler.
    Flush,
}

impl Category {
    /// The four categories that are dispatched to a handler; `Flush` is
    /// handled by the session itself.
    pub open spec fn is_dispatchable(self) -> bool {
        self != Category::Flush
    }
}

/// Why a session reached its terminal phase.
#[derive(Clone, Copy, Debug, PartialEq, Eq, Structural)]
pub enum CloseReason {
    /// The peer ended the ingress stream cleanly.
    CleanEnd,
    /// The framing layer could not decode the inbound bytes.
    DecodeError,
    /// A handler call, or a handler's readiness check, failed.
    HandlerFailure,
    /// The outbound side could not accept a send.
    TransportError,
}

/// The session's lifecycle phase.
#[derive(Clone, Copy, Debug, PartialEq, Eq, Structural)]
pub enum Phase {
    /// Racing the two event sources.
    Running,
    /// A `Flush` arrived with work pending: the queue is being drained
    /// head-to-tail before the acknowledgement goes out; no new inbound
    /// message is read meanwhile.
    Draining,
    /// Terminal: the connection is closed.
    Closed { reason: CloseReason },
}

/// One ingress event, as the I/O loop reports it.
#[derive(Clone, Copy, Debug, PartialEq, Eq, Structural)]
pub enum Inbound {
    /// A message was decoded; only its category matters to the session.
    Message { category: Category },
    /// The framing layer failed to decode the inbound bytes.
    Malformed,
    /// The ingress stream ended cleanly.
    StreamEnd,
}

/// How the oldest pending handler call resolved.
#[derive(Clone, Copy, Debug, PartialEq, Eq, Structural)]
pub enum Outcome {
    /// The handler produced a response (held by the I/O loop).
    Success,
    /// The handler reported a failure: fatal to the connection.
    Failure,
}

/// One queued handle to an issued-but-not-yet-resolved handler call.
///
/// `id` is the arrival index of the originating request among the
/// dispatchable requests of this connection.
#[derive(Clone, Copy, Debug, PartialEq, Eq, Structural)]
pub struct PendingOp {
    pub id: u64,
    pub category: Category,
}

/// An instruction to the I/O loop, to be performed in the order returned.
#[derive(Clone, Copy, Debug, PartialEq, Eq, Structural)]
pub enum Action {
    /// Await the named handler's readiness, issue the call for request
    /// `id`, and append its in-flight handle at the tail of the pending
    /// set. Issued without waiting for earlier calls to resolve.
    Call { category: Category, id: u64 },
    /// Send the response of the just-resolved oldest operation (request
    /// `id`) on the wire.
    SendResponse { id: u64 },
    /// Send the flush acknowledgement on the wire.
    SendFlushAck,
    /// Tear the connection down.
    Close { reason: CloseReason },
}

/// One item of the ghost wire log: what the session has ordered onto the
/// wire, in order. Ghost only; the I/O loop sends the real values.
pub enum WireItem {
    /// The response to dispatchable request `id`, of category `category`.
    Response { id: int, category: Category },
    /// A flush acknowledgement; `barrier` is the number of dispatchable
    /// requests that had arrived before the `Flush` it answers.
    FlushAck { barrier: int },
}

/// The number of flush acknowledgements in a wire log.
pub open spec fn ack_count(wire: Seq<WireItem>) -> int
    decreases wire.len(),
{
    if wire.len() == 0 {
        0
    } else {
        ack_count(wire.drop_last()) + if wire.last() is FlushAck {
            1int
        } else {
            0int
        }
    }
}

/// The wire log holds a response for request `id` of category `category`.
pub open spec fn wire_has_response(wire: Seq<WireItem>, id: int, category: Category) -> bool {
    exists|p: int| 0 <= p < wire.len() && wire[p] == (WireItem::Response { id, category })
}

/// Well-formedness of a wire log, against the arrival log `requests` of
/// dispatchable request categories and the count `emitted` of responses
/// sent so far:
/// responses carry a valid request index and that request's category;
/// responses appear in strictly increasing request order; every request
/// index below `emitted` has its response on the wire; an acknowledgement's
/// barrier never exceeds `emitted` at the time it was sent, and every
/// response after an acknowledgement answers a request at or past its
/// barrier.
pub open spec fn wire_ok(wire: Seq<WireItem>, requests: Seq<Category>, emitted: int) -> bool {
    &&& forall|p: int|
        0 <= p < wire.len() ==> ((#[trigger] wire[p]) matches WireItem::Response {
            id,
            category,
        } ==> 0 <= id < emitted && id < requests.len() && category == requests[id])
    &&& forall|p: int, q: int|
        #![trigger wire[p], wire[q]]
        0 <= p < q < wire.len() && wire[p] is Response && wire[q] is Response
            ==> wire[p]->Response_id < wire[q]->Response_id
    &&& forall|id: int|
        0 <= id < emitted ==> #[trigger] wire_has_response(wire, id, requests[id])
    &&& forall|p: int|
        0 <= p < wire.len() ==> ((#[trigger] wire[p]) matches WireItem::FlushAck { barrier }
            ==> 0 <= barrier <= emitted)
    &&& forall|p: int, q: int|
        #![trigger wire[p], wire[q]]
        0 <= p < q < wire.len() && wire[p] is FlushAck && wire[q] is Response
            ==> wire[q]->Response_id >= wire[p]->FlushAck_barrier
}

/// Appending one item to the wire log raises `ack_count` by one for an
/// acknowledgement and leaves it unchanged for a response.
proof fn lemma_ack_count_push(wire: Seq<WireItem>, item: WireItem)
    ensures
        ack_count(wire.push(item)) == ack_count(wire) + if item is FlushAck {
            1int
        } else {
            0int
        },
{
    assert(wire.push(item).drop_last() =~= wire);
    assert(wire.push(item).last() == item);
}

/// A well-formed wire log stays well-formed when one more dispatchable
/// request category is appended to the arrival log.
proof fn lemma_wire_ok_grow_requests(
    wire: Seq<WireItem>,
    requests: Seq<Category>,
    emitted: int,
    category: Category,
)
    requires
        wire_ok(wire, requests, emitted),
        emitted <= requests.len(),
    ensures
        wire_ok(wire, requests.push(category), emitted),
{
    let grown = requests.push(category);
    assert forall|id: int| 0 <= id < emitted implies #[trigger] wire_has_response(
        wire,
        id,
        grown[id],
    ) by {
        assert(grown[id] == requests[id]);
        assert(wire_has_response(wire, id, requests[id]));
    }
}

/// Appending the response for the next owed request (index `emitted`)
/// keeps the wire log well-formed, with one more response emitted.
proof fn lemma_wire_push_response(wire: Seq<WireItem>, requests: Seq<Category>, emitted: int)
    requires
        wire_ok(wire, requests, emitted),
        0 <= emitted < requests.len(),
    ensures
        wire_ok(
            wire.push(WireItem::Response { id: emitted, category: requests[emitted] }),
            requests,
            emitted + 1,
        ),
{
    let item = WireItem::Response { id: emitted, category: requests[emitted] };
    let pushed = wire.push(item);
    assert forall|id: int| 0 <= id < emitted + 1 implies #[trigger] wire_has_response(
        pushed,
        id,
        requests[id],
    ) by {
        if id < emitted {
            assert(wire_has_response(wire, id, requests[id]));
            let p = choose|p: int|
                0 <= p < wire.len() && wire[p] == (WireItem::Response { id, category: requests[id] });
            assert(pushed[p] == wire[p]);
        } else {
            assert(pushed[wire.len() as int] == item);
        }
    }
}

/// Appending a flush acknowledgement when every dispatchable request so far
/// has been answered (`emitted` of them) keeps the wire log well-formed.
proof fn lemma_wire_push_ack(wire: Seq<WireItem>, requests: Seq<Category>, emitted: int)
    requires
        wire_ok(wire, requests, emitted),
        0 <= emitted,
    ensures
        wire_ok(wire.push(WireItem::FlushAck { barrier: emitted }), requests, emitted),
{
    let item = WireItem::FlushAck { barrier: emitted };
    let pushed = wire.push(item);
    assert forall|id: int| 0 <= id < emitted implies #[trigger] wire_has_response(
        pushed,
        id,
        requests[id],
    ) by {
        assert(wire_has_response(wire, id, requests[id]));
        let p = choose|p: int|
            0 <= p < wire.len() && wire[p] == (WireItem::Response { id, category: requests[id] });
        assert(pushed[p] == wire[p]);
    }
}

/// The per-connection session state machine.
///
/// Exactly one session exists per connection; it owns its queue and shares
/// nothing with other sessions, so a fatal failure on one connection cannot
/// touch another. The ghost fields record the connection's history: the
/// categories of the dispatchable requests in arrival order, everything
/// ordered onto the wire, and how many `Flush` requests were handled.
pub struct Session {
    /// Pending operations, oldest first. `queue[i]` answers the
    /// `(emitted + i)`-th dispatchable request of the connection.
    pub queue: Vec<PendingOp>,
    /// Lifecycle phase.
    pub phase: Phase,
    /// Number of dispatchable requests classified so far.
    pub dispatched: u64,
    /// Number of responses sent on the wire so far.
    pub emitted: u64,
    /// Ghost log of everything ordered onto the wire, in order.
    pub wire: Ghost<Seq<WireItem>>,
    /// Ghost arrival log: category of each dispatchable request, by index.
    pub requests: Ghost<Seq<Category>>,
    /// Ghost count of `Flush` requests handled so far.
    pub flushes: Ghost<int>,
}

impl Session {
    /// Well-formedness: the queue holds exactly the unanswered requests,
    /// consecutively indexed and oldest first; the arrival log matches; the
    /// wire log is well-formed; and, while the connection is alive, each
    /// handled `Flush` is acknowledged exactly once (the one being drained,
    /// if any, not yet).
    pub open spec fn wf(self) -> bool {
        &&& self.emitted + self.queue@.len() == self.dispatched
        &&& self.requests@.len() == self.dispatched
        &&& forall|i: int|
            0 <= i < self.queue@.len() ==> (#[trigger] self.queue@[i]).id == self.emitted + i
        &&& forall|i: int|
            0 <= i < self.queue@.len() ==> (#[trigger] self.queue@[i]).category == self.requests@[self.emitted
                + i]
        &&& forall|i: int|
            0 <= i < self.requests@.len() ==> (#[trigger] self.requests@[i]).is_dispatchable()
        &&& wire_ok(self.wire@, self.requests@, self.emitted as int)
        &&& !(self.phase is Closed) ==> self.flushes@ == ack_count(self.wire@) + if self.phase
            is Draining {
            1int
        } else {
            0int
        }
        &&& self.phase is Closed ==> ack_count(self.wire@) <= self.flushes@
        &&& self.phase is Draining ==> self.queue@.len() > 0
    }

    /// A fresh session for a newly accepted connection: running, nothing
    /// pending, nothing on the wire.
    pub fn new() -> (r: Session)
        ensures
            r.wf(),
            r.phase == Phase::Running,
            r.queue@.len() == 0,
            r.dispatched == 0,
            r.emitted == 0,
            r.wire@ == Seq::<WireItem>::empty(),
            r.requests@ == Seq::<Category>::empty(),
            r.flushes@ == 0,
    {
        Session {
            queue: Vec::new(),
            phase: Phase::Running,
            dispatched: 0,
            emitted: 0,
            wire: Ghost(Seq::empty()),
            requests: Ghost(Seq::empty()),
            flushes: Ghost(0),
        }
    }

    /// Advance the session on an ingress event (running phase only).
    ///
    /// A dispatchable message is assigned the next request index and must
    /// be dispatched at once (`Action::Call`) — however many operations are
    /// already pending, so calls to one handler may overlap freely. A
    /// `Flush` with an empty queue is acknowledged immediately; with a
    /// non-empty queue the session turns to draining, and no further
    /// ingress is read until the queue has emptied. A malformed message or
    /// the end of the ingress stream closes the connection, a malformed one
    /// fatally and without any response for it.
    pub fn on_inbound(&mut self, event: Inbound) -> (actions: Vec<Action>)
        requires
            old(self).wf(),
            old(self).phase is Running,
            old(self).dispatched < u64::MAX,
        ensures
            final(self).wf(),
            match event {
                Inbound::Message { category } => if category is Flush {
                    if old(self).queue@.len() == 0 {
                        &&& final(self).phase is Running
                        &&& final(self).queue@ == old(self).queue@
                        &&& final(self).dispatched == old(self).dispatched
                        &&& final(self).emitted == old(self).emitted
                        &&& final(self).requests@ == old(self).requests@
                        &&& final(self).flushes@ == old(self).flushes@ + 1
                        &&& final(self).wire@ == old(self).wire@.push(
                            WireItem::FlushAck { barrier: old(self).dispatched as int },
                        )
                        &&& actions@ == seq![Action::SendFlushAck]
                    } else {
                        &&& final(self).phase is Draining
                        &&& final(self).queue@ == old(self).queue@
                        &&& final(self).dispatched == old(self).dispatched
                        &&& final(self).emitted == old(self).emitted
                        &&& final(self).requests@ == old(self).requests@
                        &&& final(self).flushes@ == old(self).flushes@ + 1
                        &&& final(self).wire@ == old(self).wire@
                        &&& actions@ == Seq::<Action>::empty()
                    }
                } else {
                    &&& final(self).phase is Running
                    &&& final(self).queue@ == old(self).queue@.push(
                        PendingOp { id: old(self).dispatched, category },
                    )
                    &&& final(self).dispatched == old(self).dispatched + 1
                    &&& final(self).emitted == old(self).emitted
                    &&& final(self).requests@ == old(self).requests@.push(category)
                    &&& final(self).flushes@ == old(self).flushes@
                    &&& final(self).wire@ == old(self).wire@
                    &&& actions@ == seq![Action::Call { category, id: old(self).dispatched }]
                },
                Inbound::Malformed => {
                    &&& final(self).phase == (Phase::Closed { reason: CloseReason::DecodeError })
                    &&& final(self).queue@ == old(self).queue@
                    &&& final(self).dispatched == old(self).dispatched
                    &&& final(self).emitted == old(self).emitted
                    &&& final(self).requests@ == old(self).requests@
                    &&& final(self).flushes@ == old(self).flushes@
                    &&& final(self).wire@ == old(self).wire@
                    &&& actions@ == seq![Action::Close { reason: CloseReason::DecodeError }]
                },
                Inbound::StreamEnd => {
                    &&& final(self).phase == (Phase::Closed { reason: CloseReason::CleanEnd })
                    &&& final(self).queue@ == old(self).queue@
                    &&& final(self).dispatched == old(self).dispatched
                    &&& final(self).emitted == old(self).emitted
                    &&& final(self).requests@ == old(self).requests@
                    &&& final(self).flushes@ == old(self).flushes@
                    &&& final(self).wire@ == old(self).wire@
                    &&& actions@ == seq![Action::Close { reason: CloseReason::CleanEnd }]
                },
            },
    {
        let mut actions: Vec<Action> = Vec::new();
        match event {
            Inbound::Message { category } => {
                match category {
                    Category::Flush => {
                        self.flushes = Ghost(self.flushes@ + 1);
                        if self.queue.len() == 0 {
                            proof {
                                assert(self.dispatched == self.emitted);
                                lemma_wire_push_ack(
                                    self.wire@,
                                    self.requests@,
                                    self.emitted as int,
                                );
                                lemma_ack_count_push(
                                    self.wire@,
                                    WireItem::FlushAck { barrier: self.dispatched as int },
                                );
                            }
                            self.wire = Ghost(
                                self.wire@.push(
                                    WireItem::FlushAck { barrier: self.dispatched as int },
                                ),
                            );
                            actions.push(Action::SendFlushAck);
                            proof {
                                assert(actions@ =~= seq![Action::SendFlushAck]);
                            }
                        } else {
                            self.phase = Phase::Draining;
                            proof {
                                assert(actions@ =~= Seq::<Action>::empty());
                            }
                        }
                    }
                    _ => {
                        let id = self.dispatched;
                        self.queue.push(PendingOp { id, category });
                        self.dispatched = id + 1;
                        self.requests = Ghost(self.requests@.push(category));
                        actions.push(Action::Call { category, id });
                        proof {
                            lemma_wire_ok_grow_requests(
                                self.wire@,
                                old(self).requests@,
                                self.emitted as int,
                                category,
                            );
                            assert forall|i: int|
                                0 <= i < self.queue@.len() implies (#[trigger] self.queue@[i]).id
                                == self.emitted + i by {
                                if i < old(self).queue@.len() {
                                    assert(self.queue@[i] == old(self).queue@[i]);
                                }
                            }
                            assert forall|i: int|
                                0 <= i < self.queue@.len() implies (
                                #[trigger] self.queue@[i]).category == self.requests@[self.emitted
                                + i] by {
                                if i < old(self).queue@.len() {
                                    assert(self.queue@[i] == old(self).queue@[i]);
                                    assert(self.requests@[self.emitted + i] == old(
                                        self,
                                    ).requests@[self.emitted + i]);
                                }
                            }
                            assert forall|i: int|
                                0 <= i < self.requests@.len() implies (
                                #[trigger] self.requests@[i]).is_dispatchable() by {
                                if i < old(self).requests@.len() {
                                } else {
                                    assert(self.requests@[i] == category);
                                }
                            }
                            assert(actions@ =~= seq![Action::Call { category, id }]);
                        }
                    }
                }
            }
            Inbound::Malformed => {
                self.phase = Phase::Closed { reason: CloseReason::DecodeError };
                actions.push(Action::Close { reason: CloseReason::DecodeError });
                proof {
                    assert(actions@ =~= seq![Action::Close { reason: CloseReason::DecodeError }]);
                }
            }
            Inbound::StreamEnd => {
                self.phase = Phase::Closed { reason: CloseReason::CleanEnd };
                actions.push(Action::Close { reason: CloseReason::CleanEnd });
                proof {
                    assert(actions@ =~= seq![Action::Close { reason: CloseReason::CleanEnd }]);
                }
            }
        }
        actions
    }

    /// Advance the session when the *oldest* pending operation resolves —
    /// never an arbitrary member of the queue, so responses leave in
    /// arrival order whatever order the underlying handler calls complete
    /// in.
    ///
    /// On success the head is removed and its response sent; if that ended
    /// a flush drain, the flush acknowledgement follows at once. A failed
    /// operation is fatal: the connection closes and nothing more is sent,
    /// not even for operations still queued behind it.
    pub fn on_head_resolved(&mut self, outcome: Outcome) -> (actions: Vec<Action>)
        requires
            old(self).wf(),
            old(self).phase is Running || old(self).phase is Draining,
            old(self).queue@.len() > 0,
        ensures
            final(self).wf(),
            match outcome {
                Outcome::Failure => {
                    &&& final(self).phase == (Phase::Closed {
                        reason: CloseReason::HandlerFailure,
                    })
                    &&& final(self).queue@ == old(self).queue@
                    &&& final(self).dispatched == old(self).dispatched
                    &&& final(self).emitted == old(self).emitted
                    &&& final(self).requests@ == old(self).requests@
                    &&& final(self).flushes@ == old(self).flushes@
                    &&& final(self).wire@ == old(self).wire@
                    &&& actions@ == seq![Action::Close { reason: CloseReason::HandlerFailure }]
                },
                Outcome::Success => {
                    let head = old(self).queue@[0];
                    &&& final(self).queue@ == old(self).queue@.drop_first()
                    &&& final(self).dispatched == old(self).dispatched
                    &&& final(self).emitted == old(self).emitted + 1
                    &&& final(self).requests@ == old(self).requests@
                    &&& final(self).flushes@ == old(self).flushes@
                    &&& if old(self).phase is Draining && old(self).queue@.len() == 1 {
                        &&& final(self).phase is Running
                        &&& final(self).wire@ == old(self).wire@.push(
                            WireItem::Response { id: head.id as int, category: head.category },
                        ).push(WireItem::FlushAck { barrier: old(self).dispatched as int })
                        &&& actions@ == seq![
                            Action::SendResponse { id: head.id },
                            Action::SendFlushAck,
                        ]
                    } else {
                        &&& final(self).phase == old(self).phase
                        &&& final(self).wire@ == old(self).wire@.push(
                            WireItem::Response { id: head.id as int, category: head.category },
                        )
                        &&& actions@ == seq![Action::SendResponse { id: head.id }]
                    }
                },
            },
    {
        let mut actions: Vec<Action> = Vec::new();
        match outcome {
            Outcome::Failure => {
                self.phase = Phase::Closed { reason: CloseReason::HandlerFailure };
                actions.push(Action::Close { reason: CloseReason::HandlerFailure });
                proof {
                    assert(actions@ =~= seq![
                        Action::Close { reason: CloseReason::HandlerFailure },
                    ]);
                }
            }
            Outcome::Success => {
                let head = self.queue.remove(0);
                self.emitted = self.emitted + 1;
                proof {
                    assert(head.id == old(self).emitted);
                    assert(head.category == old(self).requests@[old(self).emitted as int]);
                    lemma_wire_push_response(
                        self.wire@,
                        self.requests@,
                        old(self).emitted as int,
                    );
                    lemma_ack_count_push(
                        self.wire@,
                        WireItem::Response { id: head.id as int, category: head.category },
                    );
                }
                self.wire = Ghost(
                    self.wire@.push(
                        WireItem::Response { id: head.id as int, category: head.category },
                    ),
                );
                actions.push(Action::SendResponse { id: head.id });
                proof {
                    assert(self.queue@ =~= old(self).queue@.drop_first());
                    assert forall|i: int|
                        0 <= i < self.queue@.len() implies (#[trigger] self.queue@[i]).id
                        == self.emitted + i && (#[trigger] self.queue@[i]).category
                        == self.requests@[self.emitted + i] by {
                        assert(self.queue@[i] == old(self).queue@[i + 1]);
                    }
                }
                if matches!(self.phase, Phase::Draining) && self.queue.len() == 0 {
                    self.phase = Phase::Running;
                    proof {
                        assert(self.dispatched == self.emitted);
                        lemma_wire_push_ack(self.wire@, self.requests@, self.emitted as int);
                        lemma_ack_count_push(
                            self.wire@,
                            WireItem::FlushAck { barrier: self.dispatched as int },
                        );
                    }
                    self.wire = Ghost(
                        self.wire@.push(WireItem::FlushAck { barrier: self.dispatched as int }),
                    );
                    actions.push(Action::SendFlushAck);
                    proof {
                        assert(actions@ =~= seq![
                            Action::SendResponse { id: head.id },
                            Action::SendFlushAck,
                        ]);
                    }
                } else {
                    proof {
                        assert(actions@ =~= seq![Action::SendResponse { id: head.id }]);
                    }
                }
            }
        }
        actions
    }

    /// Record a fatal fault observed while performing an action outside
    /// the session — a failed readiness check (treated exactly like a
    /// failed handler call) or an outbound send the transport refused. The
    /// connection closes; nothing more is sent.
    pub fn on_fatal(&mut self, reason: CloseReason)
        requires
            old(self).wf(),
            !(old(self).phase is Closed),
            reason is HandlerFailure || reason is TransportError,
        ensures
            final(self).wf(),
            final(self).phase == (Phase::Closed { reason }),
            final(self).queue@ == old(self).queue@,
            final(self).dispatched == old(self).dispatched,
            final(self).emitted == old(self).emitted,
            final(self).requests@ == old(self).requests@,
            final(self).flushes@ == old(self).flushes@,
            final(self).wire@ == old(self).wire@,
    {
        self.phase = Phase::Closed { reason };
    }
}

/// Order preservation: any two responses on the wire stand in request
/// arrival order — the earlier position answers the earlier request,
/// whatever order the underlying handler calls completed in. Each response
/// answers a dispatchable request of the connection, with that request's
/// category.
pub proof fn lemma_order_preservation(s: Session, p: int, q: int)
    requires
        s.wf(),
        0 <= p < q < s.wire@.len(),
        s.wire@[p] is Response,
        s.wire@[q] is Response,
    ensures
        s.wire@[p]->Response_id < s.wire@[q]->Response_id,
        0 <= s.wire@[p]->Response_id < s.requests@.len(),
        s.wire@[p]->Response_category == s.requests@[s.wire@[p]->Response_id],
        s.wire@[q]->Response_category == s.requests@[s.wire@[q]->Response_id],
{
}

/// Response completeness: every dispatchable request whose response has
/// been emitted (`id < s.emitted`) stands on the wire, with its own
/// category. Together with order preservation, the n-th response on the
/// wire answers the n-th dispatchable request received.
pub proof fn lemma_response_complete(s: Session, id: int)
    requires
        s.wf(),
        0 <= id < s.emitted,
    ensures
        wire_has_response(s.wire@, id, s.requests@[id]),
{
}

/// Flush barrier completeness: a flush acknowledgement is never observed
/// before every response owed for requests preceding its barrier — each
/// such response stands strictly earlier on the wire.
pub proof fn lemma_flush_barrier(s: Session, p: int, id: int)
    requires
        s.wf(),
        0 <= p < s.wire@.len(),
        s.wire@[p] is FlushAck,
        0 <= id < s.wire@[p]->FlushAck_barrier,
    ensures
        exists|q: int|
            0 <= q < p && s.wire@[q] == (WireItem::Response {
                id,
                category: s.requests@[id],
            }),
{
    let barrier = s.wire@[p]->FlushAck_barrier;
    assert(wire_has_response(s.wire@, id, s.requests@[id]));
    let q = choose|q: int|
        0 <= q < s.wire@.len() && s.wire@[q] == (WireItem::Response {
            id,
            category: s.requests@[id],
        });
    if q >= p {
        if q > p {
            assert(s.wire@[q]->Response_id >= barrier);
        }
        assert(false);
    }
}

/// Flush transparency: while the connection is alive, the wire carries
/// exactly one acknowledgement per `Flush` request handled (less the one
/// whose drain is still in progress), and no `Flush` ever receives a
/// category response — every response answers a dispatchable request.
pub proof fn lemma_flush_transparency(s: Session)
    requires
        s.wf(),
        !(s.phase is Closed),
    ensures
        ack_count(s.wire@) + (if s.phase is Draining {
            1int
        } else {
            0int
        }) == s.flushes@,
        forall|p: int|
            0 <= p < s.wire@.len() && (#[trigger] s.wire@[p]) is Response
                ==> s.requests@[s.wire@[p]->Response_id].is_dispatchable(),
{
}

/// Independent-category isolation, the half that is guaranteed: within one
/// category, responses preserve arrival order — of two responses of the
/// same category, the earlier one on the wire answers the earlier request
/// of that category. (Across categories no ordering is promised beyond
/// global arrival order.)
pub proof fn lemma_category_order(s: Session, p: int, q: int)
    requires
        s.wf(),
        0 <= p < q < s.wire@.len(),
        s.wire@[p] is Response,
        s.wire@[q] is Response,
        s.wire@[p]->Response_category == s.wire@[q]->Response_category,
    ensures
        s.wire@[p]->Response_id < s.wire@[q]->Response_id,
        s.requests@[s.wire@[p]->Response_id] == s.wire@[p]->Response_category,
        s.requests@[s.wire@[q]->Response_id] == s.wire@[q]->Response_category,
{
}

} // verus!
