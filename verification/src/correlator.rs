//! Request correlator: assigns monotonically increasing correlation ids,
//! keeps the table of outstanding calls, and resolves each exactly once —
//! by a matching response, by the timeout path, or by a sweep when the
//! worker's stream closes. Completion is signalled through single-use
//! one-shot channels; their creation and the producer-side send are the only
//! trusted operations here.

use vstd::prelude::*;
use std::collections::HashMap;
use crate::classify::Classified;
use crate::classify::ClassifiedView;
use crate::classify::WireResponse;
use crate::classify::bytes_opt_view;
use crate::classify::err_opt_view;
use crate::classify::classify_line;
use crate::classify::spec_classify;
use crate::wire::RpcRequest;
use crate::wire::SendMessageParams;
use crate::wire::frame_request;
use crate::wire::spec_frame;

verus! {

broadcast use vstd::std_specs::hash::group_hash_axioms;

/// The single outcome a caller receives for its call.
pub enum CallOutcome {
    /// The worker answered; an absent result string means success with an
    /// empty result.
    Success { result: Vec<u8> },
    /// The worker answered with an error object: its message is surfaced
    /// verbatim, its code preserved uninterpreted.
    WorkerError { code: i32, message: Vec<u8> },
}

/// Outcome over plain values.
pub enum CallOutcomeView {
    Success { result: Seq<u8> },
    WorkerError { code: i32, message: Seq<u8> },
}

impl View for CallOutcome {
    type V = CallOutcomeView;

    open spec fn view(&self) -> CallOutcomeView {
        match *self {
            CallOutcome::Success { result } => CallOutcomeView::Success { result: result@ },
            CallOutcome::WorkerError { code, message } => CallOutcomeView::WorkerError {
                code,
                message: message@,
            },
        }
    }
}

/// What a response's fields mean for its caller: an error object wins, and an
/// absent result string is success with an empty result.
pub open spec fn spec_outcome(result: Option<Seq<u8>>, error: Option<(i32, Seq<u8>)>)
    -> CallOutcomeView {
    match error {
        Option::Some((code, message)) => CallOutcomeView::WorkerError { code, message },
        Option::None => CallOutcomeView::Success {
            result: match result {
                Option::Some(r) => r,
                Option::None => Seq::empty(),
            },
        },
    }
}

/// Turn a decoded response into the outcome its caller receives.
pub fn outcome_of_response(resp: WireResponse) -> (o: CallOutcome)
    ensures
        o@ == spec_outcome(bytes_opt_view(resp.result), err_opt_view(resp.error)),
{
    match resp.error {
        Option::Some(e) => CallOutcome::WorkerError { code: e.code, message: e.message },
        Option::None => CallOutcome::Success {
            result: match resp.result {
                Option::Some(r) => r,
                Option::None => Vec::new(),
            },
        },
    }
}

#[verifier::external_type_specification]
#[verifier::external_body]
#[verifier::reject_recursive_types(T)]
pub struct ExOneshotSender<T>(tokio::sync::oneshot::Sender<T>);

#[verifier::external_type_specification]
#[verifier::external_body]
#[verifier::reject_recursive_types(T)]
pub struct ExOneshotReceiver<T>(tokio::sync::oneshot::Receiver<T>);

#[verifier::external_type_specification]
#[verifier::external_body]
pub struct ExOneshotRecvError(tokio::sync::oneshot::error::RecvError);

/// Relies on tokio::sync::oneshot::channel: creates a connected single-use
/// sender/receiver pair. Nothing further is assumed of either half.
#[verifier::external_body]
fn oneshot_pair() -> (tokio::sync::oneshot::Sender<CallOutcome>, tokio::sync::oneshot::Receiver<
    CallOutcome,
>) {
    tokio::sync::oneshot::channel()
}

/// Relies on tokio::sync::oneshot::Sender::send: hands the outcome to the
/// paired receiver, consuming the single-use sender; it fails only when the
/// receiver is already gone, which the protocol tolerates (the caller
/// abandoned the call). Nothing is assumed of the result.
#[verifier::external_body]
fn send_outcome(tx: tokio::sync::oneshot::Sender<CallOutcome>, outcome: CallOutcome) -> bool {
    tx.send(outcome).is_ok()
}

/// What the reader task should do with one line, as decided by the correlator.
pub enum Dispatch {
    /// An event: forward it, keyed by its tag, to the event sink; the
    /// correlation table is untouched.
    Forward { tag: Vec<u8> },
    /// A response matching a pending call: its outcome was delivered to that
    /// caller and to no other, and the entry is gone.
    Delivered { id: u64 },
    /// Noise, a response with an absent id, or a response for an unknown or
    /// already-resolved id: silently discarded.
    Ignored,
}

/// Dispatch over plain values.
pub enum DispatchView {
    Forward { tag: Seq<u8> },
    Delivered { id: u64 },
    Ignored,
}

impl View for Dispatch {
    type V = DispatchView;

    open spec fn view(&self) -> DispatchView {
        match *self {
            Dispatch::Forward { tag } => DispatchView::Forward { tag: tag@ },
            Dispatch::Delivered { id } => DispatchView::Delivered { id },
            Dispatch::Ignored => DispatchView::Ignored,
        }
    }
}

/// The shared correlation state: the monotone id counter and the pending-call
/// table. Every entry leaves the table exactly once — on a matching response,
/// on the timeout path, or in the sweep on stream closure — and an id, once
/// assigned, is never assigned again.
pub struct Correlator {
    next_id: u64,
    pending: HashMap<u64, tokio::sync::oneshot::Sender<CallOutcome>>,
}

impl Correlator {
    /// The pending-call table: each outstanding id and its completion slot.
    pub closed spec fn table(self) -> Map<u64, tokio::sync::oneshot::Sender<CallOutcome>> {
        self.pending@
    }

    /// The id the next call will get.
    pub closed spec fn counter(self) -> u64 {
        self.next_id
    }

    /// Ids start above zero, and every pending id was assigned before the
    /// counter reached its present value — so no pending id can ever be
    /// assigned a second time.
    pub open spec fn wf(self) -> bool {
        &&& self.counter() >= 1
        &&& forall|k: u64| self.table().dom().contains(k) ==> 1 <= k < self.counter()
    }

    /// A call is outstanding: issued, and neither resolved nor timed out.
    pub open spec fn is_pending(self, id: u64) -> bool {
        self.table().dom().contains(id)
    }

    pub fn new() -> (c: Correlator)
        ensures
            c.wf(),
            c.table() == Map::<u64, tokio::sync::oneshot::Sender<CallOutcome>>::empty(),
            c.counter() == 1,
    {
        Correlator { next_id: 1, pending: HashMap::new() }
    }

    /// Whether another id can still be assigned; the supply of ids outlives
    /// any real process, but a caller must check before issuing.
    pub fn can_issue(&self) -> (r: bool)
        ensures
            r == (self.counter() < u64::MAX),
    {
        self.next_id < u64::MAX
    }

    /// Issue a new call: assign the next id, register a fresh completion slot
    /// under it, and return the id with the receiver half the caller will
    /// await. Registration precedes any write to the pipe, so a response can
    /// never race ahead of it.
    pub fn issue(&mut self) -> (r: (u64, tokio::sync::oneshot::Receiver<CallOutcome>))
        requires
            old(self).wf(),
            old(self).counter() < u64::MAX,
        ensures
            final(self).wf(),
            r.0 == old(self).counter(),
            final(self).counter() == old(self).counter() + 1,
            !old(self).is_pending(r.0),
            final(self).is_pending(r.0),
            exists|s: tokio::sync::oneshot::Sender<CallOutcome>|
                final(self).table() == old(self).table().insert(r.0, s),
            forall|k: u64|
                k != r.0 ==> (final(self).is_pending(k) == old(self).is_pending(k) && (old(
                    self,
                ).is_pending(k) ==> final(self).table()[k] == old(self).table()[k])),
    {
        let (tx, rx) = oneshot_pair();
        let id = self.next_id;
        self.next_id = self.next_id + 1;
        let ghost pre = self.pending@;
        self.pending.insert(id, tx);
        proof {
            assert(self.pending@ == pre.insert(id, tx));
            assert forall|k: u64| self.table().dom().contains(k) implies 1 <= k < self.counter() by {
                if k != id {
                    assert(old(self).table().dom().contains(k));
                }
            }
            assert(self.table() == old(self).table().insert(id, tx));
        }
        (id, rx)
    }

    /// Resolve a call: if `id` is pending, remove its entry and deliver the
    /// outcome to that caller's slot — the one registered under `id` — exactly
    /// once. An unknown, already-resolved or timed-out id is a no-op, never an
    /// error: duplicate and late replies must not disturb the host.
    pub fn resolve(&mut self, id: u64, outcome: CallOutcome) -> (was_pending: bool)
        requires
            old(self).wf(),
        ensures
            final(self).wf(),
            final(self).counter() == old(self).counter(),
            was_pending == old(self).is_pending(id),
            final(self).table() == if old(self).is_pending(id) {
                old(self).table().remove(id)
            } else {
                old(self).table()
            },
    {
        match self.pending.remove(&id) {
            Option::Some(tx) => {
                send_outcome(tx, outcome);
                proof {
                    assert forall|k: u64| self.table().dom().contains(k) implies 1 <= k
                        < self.counter() by {
                        assert(old(self).table().dom().contains(k));
                    }
                    assert(self.wf());
                }
                true
            },
            Option::None => {
                proof {
                    assert(self.pending@ =~= old(self).pending@);
                    assert forall|k: u64| self.table().dom().contains(k) implies 1 <= k
                        < self.counter() by {
                        assert(old(self).table().dom().contains(k));
                    }
                }
                false
            },
        }
    }

    /// The timeout path: the caller stopped waiting, so its entry leaves the
    /// table (bounding table growth); a response arriving afterwards finds no
    /// entry and is discarded. Dropping the slot unasked is harmless — nobody
    /// is listening any more.
    pub fn on_timeout(&mut self, id: u64)
        requires
            old(self).wf(),
        ensures
            final(self).wf(),
            final(self).counter() == old(self).counter(),
            final(self).table() == old(self).table().remove(id),
            !final(self).is_pending(id),
    {
        let _dropped = self.pending.remove(&id);
        proof {
            if !old(self).is_pending(id) {
                assert(self.pending@ =~= old(self).pending@.remove(id));
            }
        }
    }

    /// The sweep on stream closure: the worker is gone, so every pending entry
    /// is dropped at once. Dropping a slot closes its channel, so every
    /// waiting caller learns immediately that the transport is unavailable
    /// instead of waiting out its timeout.
    pub fn sweep_on_close(&mut self)
        requires
            old(self).wf(),
        ensures
            final(self).wf(),
            final(self).counter() == old(self).counter(),
            final(self).table() == Map::<u64, tokio::sync::oneshot::Sender<CallOutcome>>::empty(),
    {
        self.pending.clear();
    }

    /// Drive one reconstructed line through classification and correlation:
    /// an event is forwarded and never touches the table; a response with a
    /// pending id is delivered to exactly that caller; a response with an
    /// absent id, an unknown id, or an unrecognized line changes nothing.
    pub fn handle_line(&mut self, line: &Vec<u8>) -> (d: Dispatch)
        requires
            old(self).wf(),
        ensures
            final(self).wf(),
            final(self).counter() == old(self).counter(),
            match spec_classify(line@) {
                ClassifiedView::Event { tag } => final(self).table() == old(self).table() && d@
                    == DispatchView::Forward { tag },
                ClassifiedView::Response { id: Option::Some(i), result, error } => {
                    if old(self).is_pending(i) {
                        final(self).table() == old(self).table().remove(i) && d@
                            == DispatchView::Delivered { id: i }
                    } else {
                        final(self).table() == old(self).table() && d@ == DispatchView::Ignored
                    }
                },
                ClassifiedView::Response { id: Option::None, .. } => final(self).table() == old(
                    self,
                ).table() && d@ == DispatchView::Ignored,
                ClassifiedView::Unrecognized => final(self).table() == old(self).table() && d@
                    == DispatchView::Ignored,
            },
    {
        match classify_line(line) {
            Classified::Event { tag } => Dispatch::Forward { tag },
            Classified::Response { resp } => {
                match resp.id {
                    Option::Some(id) => {
                        let outcome = outcome_of_response(resp);
                        if self.resolve(id, outcome) {
                            Dispatch::Delivered { id }
                        } else {
                            Dispatch::Ignored
                        }
                    },
                    Option::None => Dispatch::Ignored,
                }
            },
            Classified::Unrecognized => Dispatch::Ignored,
        }
    }
}

/// The reason a call failed, when it did not fail inside the worker's own
/// logic.
pub enum CallFailure {
    /// The pipe to the worker is absent or closed.
    TransportUnavailable,
    /// No matching response arrived within the timeout bound.
    Timeout,
    /// The call's completion slot was dropped before any outcome arrived.
    Cancelled,
    /// The worker answered with an error object.
    Worker { code: i32, message: Vec<u8> },
}

/// Split an outcome into the single value a caller receives: the result string
/// on success, or the worker's error surfaced verbatim.
pub fn outcome_to_result(o: CallOutcome) -> (r: Result<Vec<u8>, CallFailure>)
    ensures
        match o@ {
            CallOutcomeView::Success { result } => r matches Ok(v) && v@ == result,
            CallOutcomeView::WorkerError { code, message } => (r matches Err(f)
                && f matches CallFailure::Worker { code: c, message: m } && c == code && m@
                == message),
        },
{
    match o {
        CallOutcome::Success { result } => Ok(result),
        CallOutcome::WorkerError { code, message } => Err(CallFailure::Worker { code, message }),
    }
}

impl Correlator {
    /// The caller-facing entry: assign the id, register the completion slot,
    /// and build the frame to write — in that order, so that a response racing
    /// ahead of registration is impossible. The caller writes the returned
    /// bytes to the pipe as one atomic write, then awaits the receiver under
    /// its timeout.
    pub fn issue_request(&mut self, method: Vec<u8>, params: SendMessageParams) -> (r: (
        u64,
        Vec<u8>,
        tokio::sync::oneshot::Receiver<CallOutcome>,
    ))
        requires
            old(self).wf(),
            old(self).counter() < u64::MAX,
        ensures
            final(self).wf(),
            r.0 == old(self).counter(),
            final(self).counter() == old(self).counter() + 1,
            !old(self).is_pending(r.0),
            final(self).is_pending(r.0),
            r.1@ == spec_frame((RpcRequest { id: r.0, method, params })),
            exists|s: tokio::sync::oneshot::Sender<CallOutcome>|
                final(self).table() == old(self).table().insert(r.0, s),
    {
        let (id, rx) = self.issue();
        let request = RpcRequest { id, method, params };
        let frame = frame_request(&request);
        (id, frame, rx)
    }
}

/// Correlation exclusivity: resolving one call's id removes that entry and no
/// other — every other pending call keeps exactly the completion slot it was
/// registered with, so no outcome can reach a caller whose id differs.
pub proof fn lemma_correlation_exclusivity(
    m: Map<u64, tokio::sync::oneshot::Sender<CallOutcome>>,
    id1: u64,
    id2: u64,
)
    requires
        m.dom().contains(id1),
        m.dom().contains(id2),
        id1 != id2,
    ensures
        m.remove(id2).dom().contains(id1),
        m.remove(id2)[id1] == m[id1],
        !m.remove(id2).dom().contains(id2),
{
}

/// A response arriving after the timeout path has removed its call is a no-op:
/// the id is pending no more, so by `resolve`'s contract the table is left
/// unchanged and nothing is delivered — no crash, no double delivery.
pub proof fn lemma_late_response_noop(before: Correlator, after: Correlator, id: u64)
    requires
        before.wf(),
        after.wf(),
        after.table() == before.table().remove(id),
    ensures
        !after.is_pending(id),
        after.table().remove(id) == after.table(),
{
    assert(after.table().remove(id) =~= after.table());
}

} // verus!
