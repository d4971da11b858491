use vstd::prelude::*;

use crate::broadcaster::Broadcaster;
use crate::classifier::{classify, spec_classify, Classification, TransportError};

verus! {

/// One outcome of reading the next item from a connection's inbound stream:
/// a well-formed send request carrying a name, or a read failure with its
/// cause chain. An exhausted stream simply has no further outcomes.
pub enum ReadEvent {
    Item(String),
    ReadError(TransportError),
}

/// One item of a connection's outbound stream: an acknowledgement, or the
/// one forwarded failure that can end the stream.
pub enum StreamItem {
    Reply(String),
    Fault(TransportError),
}

/// What the relay does with one read outcome: accept the item (acknowledge,
/// persist, publish), close quietly on a benign disconnect, or forward the
/// failure as the final outbound item and then close.
#[derive(Clone, Copy, PartialEq, Eq, Structural, Debug)]
pub enum RelayDecision {
    Accept,
    CloseQuietly,
    ForwardThenClose,
}

/// Where a relay session stops accepting items: the position of the first
/// read failure, or the stream's end if every read succeeded.
pub open spec fn cut_index(events: Seq<ReadEvent>) -> int
    decreases events.len(),
{
    if events.len() == 0 {
        0
    } else if events[0] is ReadError {
        0
    } else {
        1 + cut_index(events.drop_first())
    }
}

/// The names the relay accepts, in arrival order: every item before the
/// first read failure.
pub open spec fn accepted_names(events: Seq<ReadEvent>) -> Seq<Seq<char>> {
    events.take(cut_index(events)).map_values(|event: ReadEvent| event->Item_0@)
}

/// The failure the relay forwards before closing, if any: the first read
/// failure, provided it is not a benign disconnect.
pub open spec fn stream_fault(events: Seq<ReadEvent>) -> Option<TransportError> {
    let cut = cut_index(events);
    if cut < events.len() && spec_classify(events[cut]->ReadError_0) is Propagate {
        Some(events[cut]->ReadError_0)
    } else {
        None
    }
}

/// Everything the cut position promises: it lies within the session, every
/// event before it is an accepted item, and the event at it — if the session
/// did not simply end — is the first read failure.
pub proof fn lemma_cut_index(events: Seq<ReadEvent>)
    ensures
        0 <= cut_index(events) <= events.len(),
        forall|k: int| 0 <= k < cut_index(events) ==> (#[trigger] events[k]) is Item,
        cut_index(events) < events.len() ==> events[cut_index(events)] is ReadError,
    decreases events.len(),
{
    if events.len() == 0 {
    } else if events[0] is ReadError {
    } else {
        let rest = events.drop_first();
        lemma_cut_index(rest);
        assert forall|k: int| 0 <= k < cut_index(events) implies (#[trigger] events[k])
            is Item by {
            if k > 0 {
                assert(rest[k - 1] == events[k]);
            }
        }
        if cut_index(events) < events.len() {
            assert(rest[cut_index(events) - 1] == events[cut_index(events)]);
        }
    }
}

/// The per-outcome decision of the stream relay: every well-formed item is
/// accepted; a read failure closes the connection, quietly when the peer
/// merely disconnected, after forwarding the failure in every other case.
pub fn relay_step(event: &ReadEvent) -> (decision: RelayDecision)
    ensures
        (*event) matches ReadEvent::Item(_) ==> decision is Accept,
        (*event) matches ReadEvent::ReadError(err) ==> decision == (
        if spec_classify(err) is BenignDisconnect {
            RelayDecision::CloseQuietly
        } else {
            RelayDecision::ForwardThenClose
        }),
{
    match event {
        ReadEvent::Item(_) => RelayDecision::Accept,
        ReadEvent::ReadError(err) => match classify(err) {
            Classification::BenignDisconnect => RelayDecision::CloseQuietly,
            Classification::Propagate => RelayDecision::ForwardThenClose,
        },
    }
}

/// One live-feed connection's pump: it forwards the subscription's pending
/// texts to the peer, oldest first, until the peer stops accepting sends —
/// `deliverable` says how many sends the peer will still take — or nothing
/// is pending. Every other subscription is untouched.
pub fn run_feed_relay(hub: &mut Broadcaster, id: usize, deliverable: usize) -> (sent: Vec<String>)
    requires
        old(hub).wf(),
        id < old(hub)@.len(),
        old(hub)@[id as int] is Some,
    ensures
        final(hub).wf(),
        final(hub).cap() == old(hub).cap(),
        final(hub)@.len() == old(hub)@.len(),
        forall|j: int|
            0 <= j < old(hub)@.len() && j != id ==> (#[trigger] final(hub)@[j]) == old(hub)@[j],
        ({
            let pending = old(hub)@[id as int]->Some_0;
            let n: int = if deliverable <= pending.len() {
                deliverable as int
            } else {
                pending.len() as int
            };
            &&& sent@.map_values(|text: String| text@) == pending.take(n)
            &&& final(hub)@[id as int] == Some(pending.skip(n))
        }),
{
    let ghost pending = old(hub)@[id as int]->Some_0;
    let mut sent: Vec<String> = Vec::new();
    let mut count: usize = 0;
    while count < deliverable
        invariant_except_break
            hub.wf(),
            hub.cap() == old(hub).cap(),
            hub@.len() == old(hub)@.len(),
            id < hub@.len(),
            forall|j: int|
                0 <= j < old(hub)@.len() && j != id ==> (#[trigger] hub@[j]) == old(hub)@[j],
            count <= deliverable,
            count <= pending.len(),
            sent@.len() == count,
            sent@.map_values(|text: String| text@) =~= pending.take(count as int),
            hub@[id as int] == Some(pending.skip(count as int)),
        ensures
            hub.wf(),
            hub.cap() == old(hub).cap(),
            hub@.len() == old(hub)@.len(),
            forall|j: int|
                0 <= j < old(hub)@.len() && j != id ==> (#[trigger] hub@[j]) == old(hub)@[j],
            count == if deliverable <= pending.len() {
                deliverable as int
            } else {
                pending.len() as int
            },
            sent@.map_values(|text: String| text@) =~= pending.take(count as int),
            hub@[id as int] == Some(pending.skip(count as int)),
        decreases deliverable - count,
    {
        match hub.recv(id) {
            Some(text) => {
                proof {
                    assert(pending.skip(count as int)[0] == pending[count as int]);
                    assert(pending.skip(count as int).drop_first() =~= pending.skip(
                        count as int + 1,
                    ));
                    assert(sent@.push(text).map_values(|t: String| t@) =~= pending.take(
                        count as int + 1,
                    ));
                }
                sent.push(text);
                count += 1;
            },
            None => {
                proof {
                    assert(pending.skip(count as int).len() == 0);
                    assert(count == pending.len());
                }
                break;
            },
        }
    }
    proof {
        assert(sent@.map_values(|text: String| text@) == pending.take(count as int));
    }
    sent
}

} // verus!
