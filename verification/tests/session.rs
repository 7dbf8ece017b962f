//! Scenario tests for the per-connection session state machine.

use abci_server::session::{
    Action, Category, CloseReason, Inbound, Outcome, Phase, Session,
};

fn msg(category: Category) -> Inbound {
    Inbound::Message { category }
}

/// Three dispatchable requests of different categories: whatever order the
/// handler calls complete in, the session only ever reports the *oldest*
/// pending operation as resolved, so the responses leave in arrival order:
/// Info, Consensus, Mempool.
#[test]
fn responses_in_arrival_order() {
    let mut s = Session::new();

    let a = s.on_inbound(msg(Category::Info));
    assert_eq!(a, vec![Action::Call { category: Category::Info, id: 0 }]);
    let a = s.on_inbound(msg(Category::Consensus));
    assert_eq!(a, vec![Action::Call { category: Category::Consensus, id: 1 }]);
    let a = s.on_inbound(msg(Category::Mempool));
    assert_eq!(a, vec![Action::Call { category: Category::Mempool, id: 2 }]);

    // Even if the Consensus and Mempool calls finished first, only the head
    // of the queue (Info, id 0) can be reported resolved.
    let a = s.on_head_resolved(Outcome::Success);
    assert_eq!(a, vec![Action::SendResponse { id: 0 }]);
    let a = s.on_head_resolved(Outcome::Success);
    assert_eq!(a, vec![Action::SendResponse { id: 1 }]);
    let a = s.on_head_resolved(Outcome::Success);
    assert_eq!(a, vec![Action::SendResponse { id: 2 }]);

    assert_eq!(s.phase, Phase::Running);
    assert_eq!(s.queue.len(), 0);
}

/// `[Consensus, Flush]`: the consensus response appears on the wire first,
/// then the flush acknowledgement, however slowly the consensus handler
/// resolves.
#[test]
fn flush_after_consensus() {
    let mut s = Session::new();

    let a = s.on_inbound(msg(Category::Consensus));
    assert_eq!(a, vec![Action::Call { category: Category::Consensus, id: 0 }]);

    // The flush finds one operation pending: no acknowledgement yet, the
    // session drains the queue first and reads no further ingress.
    let a = s.on_inbound(msg(Category::Flush));
    assert_eq!(a, vec![]);
    assert_eq!(s.phase, Phase::Draining);

    let a = s.on_head_resolved(Outcome::Success);
    assert_eq!(
        a,
        vec![Action::SendResponse { id: 0 }, Action::SendFlushAck]
    );
    assert_eq!(s.phase, Phase::Running);
}

/// `[Flush]` with an empty queue: the acknowledgement is emitted
/// immediately, with no preceding response.
#[test]
fn flush_with_empty_queue() {
    let mut s = Session::new();
    let a = s.on_inbound(msg(Category::Flush));
    assert_eq!(a, vec![Action::SendFlushAck]);
    assert_eq!(s.phase, Phase::Running);
}

/// Every flush produces exactly one acknowledgement and no category
/// response: two flushes in a row acknowledge twice and nothing else.
#[test]
fn flush_transparent_no_response() {
    let mut s = Session::new();
    let a = s.on_inbound(msg(Category::Flush));
    assert_eq!(a, vec![Action::SendFlushAck]);
    let a = s.on_inbound(msg(Category::Flush));
    assert_eq!(a, vec![Action::SendFlushAck]);
    // No request was dispatched, so nothing else can ever be sent.
    assert_eq!(s.dispatched, 0);
    assert_eq!(s.emitted, 0);
}

/// A malformed byte sequence closes the connection; no response is emitted
/// for the malformed input.
#[test]
fn malformed_input_closes_connection() {
    let mut s = Session::new();
    let a = s.on_inbound(msg(Category::Info));
    assert_eq!(a, vec![Action::Call { category: Category::Info, id: 0 }]);
    let a = s.on_inbound(Inbound::Malformed);
    assert_eq!(
        a,
        vec![Action::Close { reason: CloseReason::DecodeError }]
    );
    assert_eq!(
        s.phase,
        Phase::Closed { reason: CloseReason::DecodeError }
    );
    assert_eq!(s.emitted, 0);
}

/// A failed handler call is fatal: the connection closes and no further
/// response is emitted, not even for requests already queued behind it.
#[test]
fn handler_failure_closes_connection() {
    let mut s = Session::new();
    s.on_inbound(msg(Category::Consensus));
    s.on_inbound(msg(Category::Mempool));
    let a = s.on_head_resolved(Outcome::Failure);
    assert_eq!(
        a,
        vec![Action::Close { reason: CloseReason::HandlerFailure }]
    );
    assert_eq!(
        s.phase,
        Phase::Closed { reason: CloseReason::HandlerFailure }
    );
    // The queued operation behind the failed one was never answered.
    assert_eq!(s.emitted, 0);
    assert_eq!(s.queue.len(), 2);
}

/// A clean end of the ingress stream terminates the session successfully.
#[test]
fn clean_stream_end() {
    let mut s = Session::new();
    let a = s.on_inbound(Inbound::StreamEnd);
    assert_eq!(a, vec![Action::Close { reason: CloseReason::CleanEnd }]);
    assert_eq!(s.phase, Phase::Closed { reason: CloseReason::CleanEnd });
}

/// A failed readiness check is treated exactly like a failed handler call:
/// fatal to the connection.
#[test]
fn readiness_failure_closes_connection() {
    let mut s = Session::new();
    s.on_inbound(msg(Category::Snapshot));
    s.on_fatal(CloseReason::HandlerFailure);
    assert_eq!(
        s.phase,
        Phase::Closed { reason: CloseReason::HandlerFailure }
    );
}

/// An outbound send the transport refused is fatal too.
#[test]
fn transport_failure_closes_connection() {
    let mut s = Session::new();
    s.on_inbound(msg(Category::Info));
    s.on_fatal(CloseReason::TransportError);
    assert_eq!(
        s.phase,
        Phase::Closed { reason: CloseReason::TransportError }
    );
}

/// Pipelining: a second call to the same handler is issued while the first
/// is still unresolved — dispatch never waits for the queue to empty.
#[test]
fn pipelined_calls_same_category() {
    let mut s = Session::new();
    let a = s.on_inbound(msg(Category::Consensus));
    assert_eq!(a, vec![Action::Call { category: Category::Consensus, id: 0 }]);
    // The first consensus call has not resolved, yet the second is issued.
    let a = s.on_inbound(msg(Category::Consensus));
    assert_eq!(a, vec![Action::Call { category: Category::Consensus, id: 1 }]);
    assert_eq!(s.queue.len(), 2);
}

/// Per-connection isolation: a fatal failure on one connection's session
/// leaves another connection's session untouched — it keeps its queue and
/// still answers in order.
#[test]
fn sessions_are_isolated() {
    let mut a = Session::new();
    let mut b = Session::new();

    a.on_inbound(msg(Category::Info));
    b.on_inbound(msg(Category::Info));
    b.on_inbound(msg(Category::Mempool));

    // Connection A dies on a handler failure.
    a.on_head_resolved(Outcome::Failure);
    assert_eq!(
        a.phase,
        Phase::Closed { reason: CloseReason::HandlerFailure }
    );

    // Connection B is unaffected: still running, queue intact, responses
    // still delivered in order.
    assert_eq!(b.phase, Phase::Running);
    assert_eq!(b.queue.len(), 2);
    let acts = b.on_head_resolved(Outcome::Success);
    assert_eq!(acts, vec![Action::SendResponse { id: 0 }]);
    let acts = b.on_head_resolved(Outcome::Success);
    assert_eq!(acts, vec![Action::SendResponse { id: 1 }]);
}

/// Responses of different categories interleave in global arrival order;
/// within each category the sub-sequence is in that category's own arrival
/// order.
#[test]
fn category_subsequences_in_order() {
    let mut s = Session::new();
    let cats = [
        Category::Info,
        Category::Consensus,
        Category::Info,
        Category::Snapshot,
        Category::Consensus,
    ];
    for c in cats {
        s.on_inbound(msg(c));
    }
    let mut sent: Vec<u64> = Vec::new();
    for _ in 0..cats.len() {
        let acts = s.on_head_resolved(Outcome::Success);
        match acts[0] {
            Action::SendResponse { id } => sent.push(id),
            _ => panic!("expected a response send"),
        }
    }
    assert_eq!(sent, vec![0, 1, 2, 3, 4]);
    // Info responses (requests 0 and 2) keep their arrival order, as do
    // Consensus responses (requests 1 and 4).
    let info: Vec<u64> = sent
        .iter()
        .copied()
        .filter(|i| cats[*i as usize] == Category::Info)
        .collect();
    assert_eq!(info, vec![0, 2]);
    let consensus: Vec<u64> = sent
        .iter()
        .copied()
        .filter(|i| cats[*i as usize] == Category::Consensus)
        .collect();
    assert_eq!(consensus, vec![1, 4]);
}

/// A flush between two batches: the barrier covers exactly the requests
/// before it, and requests after it are answered after the
/// acknowledgement.
#[test]
fn flush_between_batches() {
    let mut s = Session::new();
    s.on_inbound(msg(Category::Info));
    s.on_inbound(msg(Category::Mempool));
    let a = s.on_inbound(msg(Category::Flush));
    assert_eq!(a, vec![]);
    let a = s.on_head_resolved(Outcome::Success);
    assert_eq!(a, vec![Action::SendResponse { id: 0 }]);
    let a = s.on_head_resolved(Outcome::Success);
    assert_eq!(
        a,
        vec![Action::SendResponse { id: 1 }, Action::SendFlushAck]
    );
    // Back to running: later requests are dispatched and answered after
    // the acknowledgement.
    let a = s.on_inbound(msg(Category::Snapshot));
    assert_eq!(a, vec![Action::Call { category: Category::Snapshot, id: 2 }]);
    let a = s.on_head_resolved(Outcome::Success);
    assert_eq!(a, vec![Action::SendResponse { id: 2 }]);
}
