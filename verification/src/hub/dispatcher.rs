//! The pump that drains the prefill queue.

use super::protocol::PrefillRequest;
use vstd::prelude::*;

verus! {

/// Longest wait for a request, in seconds.
pub const POLL_TIMEOUT_SECS: u64 = 30;

/// Requests taken off the queue at once.
pub const BATCH_SIZE: usize = 1;

/// What a consumer made of a request.
#[derive(Debug)]
pub enum DispatchOutcome {
    Accepted,
    Rejected { reason: String },
}

/// What the pump was told last.
#[derive(Debug)]
pub enum PumpEvent {
    /// The pump starts.
    Started,
    /// A receiver on the queue was built, or could not be.
    ReceiverBuilt(Result<(), String>),
    /// A poll of the queue ended; each request decoded or did not.
    Polled(Result<Vec<Result<PrefillRequest, String>>, String>),
    /// Every request that was handed over was answered for.
    Dispatched(Vec<Result<DispatchOutcome, String>>),
}

/// What the pump does next.
#[derive(Debug)]
pub enum PumpAction {
    /// Build a receiver on the queue.
    BuildReceiver,
    /// Take up to `batch_size` requests, waiting at most `timeout_secs`.
    Poll { batch_size: usize, timeout_secs: u64 },
    /// Hand these requests to the consumer, in order.
    Dispatch(Vec<PrefillRequest>),
    /// End: the queue is gone.
    Stop,
}

/// The requests of a batch that decoded, in order.
pub open spec fn decoded(batch: Seq<Result<PrefillRequest, String>>) -> Seq<PrefillRequest>
    decreases batch.len(),
{
    if batch.len() == 0 {
        Seq::empty()
    } else {
        match batch.last() {
            Ok(request) => decoded(batch.drop_last()).push(request),
            Err(_) => decoded(batch.drop_last()),
        }
    }
}

/// Keeps the requests of a batch that decoded, in order.
pub fn keep_decoded(batch: Vec<Result<PrefillRequest, String>>) -> (requests: Vec<PrefillRequest>)
    ensures
        requests@ == decoded(batch@),
{
    let ghost all = batch@;
    let mut requests: Vec<PrefillRequest> = Vec::new();
    for entry in iter: batch
        invariant
            iter.seq() == all,
            requests@ == decoded(all.take(iter.index())),
    {
        let ghost done = iter.index();
        assert(entry == all[done]);
        assert(all.take(done + 1).drop_last() =~= all.take(done));
        assert(all.take(done + 1).last() == all[done]);
        if let Ok(request) = entry {
            requests.push(request);
        }
    }
    assert(all.take(all.len() as int) =~= all);
    requests
}

/// What each event of the pump leads to.
pub open spec fn pump_goes_on(event: PumpEvent, action: PumpAction) -> bool {
    match event {
        PumpEvent::ReceiverBuilt(Ok(_)) => action == (PumpAction::Poll {
            batch_size: BATCH_SIZE,
            timeout_secs: POLL_TIMEOUT_SECS,
        }),
        PumpEvent::ReceiverBuilt(Err(_)) => action is Stop,
        PumpEvent::Polled(Ok(batch)) => if decoded(batch@).len() > 0 {
            action matches PumpAction::Dispatch(requests) && requests@ == decoded(batch@)
        } else {
            action is BuildReceiver
        },
        _ => action is BuildReceiver,
    }
}

/// What the pump does next: it ends only when no receiver can be built.
/// Failed polls, idle windows, undecodable requests and whatever the consumer
/// answers only take it round again.
pub fn prefill_dispatcher_step(event: PumpEvent) -> (action: PumpAction)
    ensures
        pump_goes_on(event, action),
        match event {
            PumpEvent::Started => action is BuildReceiver,
            PumpEvent::ReceiverBuilt(Ok(_)) => action matches PumpAction::Poll {
                batch_size,
                timeout_secs,
            } && batch_size == BATCH_SIZE && timeout_secs == POLL_TIMEOUT_SECS,
            PumpEvent::ReceiverBuilt(Err(_)) => action is Stop,
            PumpEvent::Polled(Ok(batch)) => if decoded(batch@).len() == 0 {
                action is BuildReceiver
            } else {
                action matches PumpAction::Dispatch(requests) && requests@ == decoded(batch@)
            },
            PumpEvent::Polled(Err(_)) => action is BuildReceiver,
            PumpEvent::Dispatched(_) => action is BuildReceiver,
        },
{
    match event {
        PumpEvent::Started => PumpAction::BuildReceiver,
        PumpEvent::ReceiverBuilt(Ok(_)) => PumpAction::Poll {
            batch_size: BATCH_SIZE,
            timeout_secs: POLL_TIMEOUT_SECS,
        },
        PumpEvent::ReceiverBuilt(Err(_)) => PumpAction::Stop,
        PumpEvent::Polled(Ok(batch)) => {
            let requests = keep_decoded(batch);
            if requests.len() == 0 {
                PumpAction::BuildReceiver
            } else {
                PumpAction::Dispatch(requests)
            }
        },
        PumpEvent::Polled(Err(_)) => PumpAction::BuildReceiver,
        PumpEvent::Dispatched(_) => PumpAction::BuildReceiver,
    }
}

/// A batch loses nothing but what does not decode: of two batches in a row
/// the requests come out one after the other.
pub proof fn law_batches_concatenate(
    first: Seq<Result<PrefillRequest, String>>,
    second: Seq<Result<PrefillRequest, String>>,
)
    ensures
        decoded(first + second) == decoded(first) + decoded(second),
    decreases second.len(),
{
    if second.len() == 0 {
        assert(first + second =~= first);
        assert(decoded(first) + decoded(second) =~= decoded(first));
    } else {
        assert((first + second).drop_last() =~= first + second.drop_last());
        law_batches_concatenate(first, second.drop_last());
        assert(decoded(first + second) =~= decoded(first) + decoded(second));
    }
}

/// One undecodable request does not touch the others of its batch.
pub proof fn law_undecodable_request_is_skipped(
    before: Seq<Result<PrefillRequest, String>>,
    reason: String,
    after: Seq<Result<PrefillRequest, String>>,
)
    ensures
        decoded(before.push(Err(reason)) + after) == decoded(before) + decoded(after),
{
    let bad: Seq<Result<PrefillRequest, String>> = before.push(Err(reason));
    law_batches_concatenate(bad, after);
    assert(bad.drop_last() =~= before);
}

/// The pump ends exactly when no receiver can be built, and polls exactly with a
/// receiver. Whatever else goes wrong, it builds another and goes on.
pub proof fn law_pump_survives_everything_but_the_queue(event: PumpEvent, action: PumpAction)
    requires
        pump_goes_on(event, action),
    ensures
        action is Stop <==> (event matches PumpEvent::ReceiverBuilt(built) && built is Err),
        action is Poll <==> (event matches PumpEvent::ReceiverBuilt(built) && built is Ok),
        event is Started ==> action is BuildReceiver,
        event is Dispatched ==> action is BuildReceiver,
        event matches PumpEvent::Polled(Err(_)) ==> action is BuildReceiver,
{
}

/// Every request that decodes is handed to the consumer, in the order of the
/// queue, and nothing else is; a batch without any is no reason to hand over.
pub proof fn law_every_decoded_request_is_dispatched(
    batch: Vec<Result<PrefillRequest, String>>,
    action: PumpAction,
    index: int,
)
    requires
        pump_goes_on(PumpEvent::Polled(Ok(batch)), action),
        0 <= index < batch@.len(),
    ensures
        batch@[index] matches Ok(request) ==> (action matches PumpAction::Dispatch(requests)
            && requests@.contains(request)),
        (forall|i: int| 0 <= i < batch@.len() ==> (#[trigger] batch@[i]) is Err)
            ==> action is BuildReceiver,
        (forall|i: int| 0 <= i < batch@.len() ==> (#[trigger] batch@[i]) is Ok) ==> (
        action matches PumpAction::Dispatch(requests) && requests@.len() == batch@.len()
            && batch@[index] == Ok::<PrefillRequest, String>(requests@[index])),
{
    lemma_decoded_holds(batch@, index);
}

/// Where the requests of a batch come out.
proof fn lemma_decoded_holds(batch: Seq<Result<PrefillRequest, String>>, index: int)
    requires
        0 <= index < batch.len(),
    ensures
        batch[index] matches Ok(request) ==> decoded(batch).contains(request),
        (forall|i: int| 0 <= i < batch.len() ==> (#[trigger] batch[i]) is Err) ==> decoded(
            batch,
        ).len() == 0,
        (forall|i: int| 0 <= i < batch.len() ==> (#[trigger] batch[i]) is Ok) ==> decoded(
            batch,
        ).len() == batch.len() && batch[index] == Ok::<PrefillRequest, String>(
            decoded(batch)[index],
        ),
    decreases batch.len(),
{
    let rest = batch.drop_last();
    let all = decoded(batch);
    assert forall|i: int| 0 <= i < rest.len() implies #[trigger] rest[i] == batch[i] by {}
    assert(batch[batch.len() - 1] == batch.last());
    if rest.len() > 0 {
        lemma_decoded_holds(
            rest,
            if index < rest.len() {
                index
            } else {
                0
            },
        );
    } else {
        assert(decoded(rest).len() == 0);
    }
    if let Ok(request) = batch[index] {
        if index < rest.len() {
            let at = choose|at: int| 0 <= at < decoded(rest).len() && decoded(rest)[at] == request;
            assert(all[at] == request);
        } else {
            assert(all[all.len() - 1] == request);
        }
    }
}

} // verus!
