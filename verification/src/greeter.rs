use vstd::prelude::*;

use crate::broadcaster::{deliver, deliver_all, lemma_deliver_all_snoc, Broadcaster};
use crate::greeting::{greeting_of, make_greeting};
use crate::relay::{
    accepted_names, cut_index, lemma_cut_index, relay_step, stream_fault, ReadEvent,
    RelayDecision, StreamItem,
};
use crate::store::{message_texts, text_of, Db, DbError, Message};

verus! {

/// The request handlers' shared state: the durable message log and the
/// process-wide broadcast hub every live feed hangs off.
pub struct MyGreeter {
    db: Db,
    broadcaster: Broadcaster,
}

impl MyGreeter {
    /// Every persisted text, in storage order.
    pub closed spec fn texts(&self) -> Seq<Seq<char>> {
        self.db.texts()
    }

    /// Every feed subscription slot handed out so far.
    pub closed spec fn feeds(&self) -> Seq<Option<Seq<Seq<char>>>> {
        self.broadcaster@
    }

    /// How many texts one feed subscription can hold before its oldest is
    /// dropped.
    pub closed spec fn cap(&self) -> nat {
        self.broadcaster.cap()
    }

    /// Both components are well formed.
    pub closed spec fn wf(&self) -> bool {
        self.db.wf() && self.broadcaster.wf()
    }

    /// Wires the handlers to their store and their broadcast hub.
    pub fn new(db: Db, broadcaster: Broadcaster) -> (greeter: MyGreeter)
        requires
            db.wf(),
            broadcaster.wf(),
        ensures
            greeter.wf(),
            greeter.texts() == db.texts(),
            greeter.feeds() == broadcaster@,
            greeter.cap() == broadcaster.cap(),
    {
        MyGreeter { db, broadcaster }
    }

    /// SendMessage: greets the sender, appends the greeting to the store,
    /// then publishes it to every live feed. The reply is owed for every
    /// request; neither the append nor the publish can withhold it.
    pub fn say_hello(&mut self, name: &str) -> (reply: String)
        requires
            old(self).wf(),
            old(self).texts().len() < 0x7fff_ffff,
        ensures
            final(self).wf(),
            final(self).cap() == old(self).cap(),
            reply@ == greeting_of(name@),
            final(self).texts() == old(self).texts().push(greeting_of(name@)),
            final(self).feeds().len() == old(self).feeds().len(),
            forall|s: int|
                0 <= s < old(self).feeds().len() ==> (#[trigger] final(self).feeds()[s])
                    == deliver(old(self).feeds()[s], old(self).cap(), greeting_of(name@)),
    {
        let reply = make_greeting(name);
        let _stored = self.db.insert_message(reply.as_str());
        self.broadcaster.broadcast(reply.as_str());
        reply
    }

    /// ListMessages: every persisted text, in storage order, with the empty
    /// text standing in for a record that lacks one.
    pub fn list_messages(&self) -> (texts: Vec<String>)
        ensures
            texts@.map_values(|text: String| text@) == self.texts(),
    {
        let rows = self.db.get_messages();
        message_texts(&rows)
    }

    /// How many texts the store holds; a driver checks this against the
    /// store's identifier range before it accepts another send.
    pub fn message_count(&self) -> (n: usize)
        ensures
            n == self.texts().len(),
    {
        self.db.len()
    }

    /// How many feed subscription identities have been handed out; every
    /// identity below this count stays valid for polling and closing.
    pub fn feed_count(&self) -> (n: usize)
        ensures
            n == self.feeds().len(),
    {
        self.broadcaster.subscription_count()
    }

    /// One accepted item of a relay session: the acknowledgement is built
    /// from the name, the name itself is appended to the store, and then
    /// published to every live feed — in that order, so the append happens
    /// before the publish. Neither can withhold the acknowledgement.
    pub fn accept_stream_item(&mut self, name: &str) -> (ack: String)
        requires
            old(self).wf(),
            old(self).texts().len() < 0x7fff_ffff,
        ensures
            final(self).wf(),
            final(self).cap() == old(self).cap(),
            ack@ == greeting_of(name@),
            final(self).texts() == old(self).texts().push(name@),
            final(self).feeds().len() == old(self).feeds().len(),
            forall|s: int|
                0 <= s < old(self).feeds().len() ==> (#[trigger] final(self).feeds()[s])
                    == deliver(old(self).feeds()[s], old(self).cap(), name@),
    {
        let ack = make_greeting(name);
        let _stored = self.db.insert_message(name);
        self.broadcaster.broadcast(name);
        ack
    }

    /// SayHelloStream: one connection's relay session over the read outcomes
    /// of its inbound stream. Every item before the first read failure is
    /// acknowledged in arrival order, its name appended to the store and
    /// published to every live feed; the first read failure closes the
    /// session, quietly for a benign peer disconnect, after one forwarded
    /// failure in every other case.
    pub fn say_hello_stream(&mut self, inbound: &Vec<ReadEvent>) -> (outbound: Vec<StreamItem>)
        requires
            old(self).wf(),
            old(self).texts().len() + inbound@.len() <= 0x7fff_ffff,
        ensures
            final(self).wf(),
            final(self).cap() == old(self).cap(),
            final(self).texts() == old(self).texts() + accepted_names(inbound@),
            final(self).feeds().len() == old(self).feeds().len(),
            forall|s: int|
                0 <= s < old(self).feeds().len() ==> (#[trigger] final(self).feeds()[s])
                    == deliver_all(
                    old(self).feeds()[s],
                    old(self).cap(),
                    accepted_names(inbound@),
                ),
            outbound@.len() == accepted_names(inbound@).len() + (
            if stream_fault(inbound@) is Some {
                1int
            } else {
                0int
            }),
            forall|k: int|
                0 <= k < accepted_names(inbound@).len() ==> ((#[trigger] outbound@[k]) matches
                    StreamItem::Reply(ack) && ack@ == greeting_of(accepted_names(inbound@)[k])),
            stream_fault(inbound@) matches Some(err) ==> (outbound@[outbound@.len() - 1] matches
                StreamItem::Fault(forwarded) && forwarded == err),
    {
        let ghost events = inbound@;
        let ghost accepted = accepted_names(events);
        proof {
            lemma_cut_index(events);
        }
        let mut outbound: Vec<StreamItem> = Vec::new();
        let mut i: usize = 0;
        loop
            invariant_except_break
                self.wf(),
                self.cap() == old(self).cap(),
                inbound@ == events,
                accepted == accepted_names(events),
                accepted.len() == cut_index(events),
                i <= cut_index(events),
                cut_index(events) <= events.len(),
                forall|k: int| 0 <= k < cut_index(events) ==> (#[trigger] events[k]) is Item,
                cut_index(events) < events.len() ==> events[cut_index(events)] is ReadError,
                old(self).texts().len() + events.len() <= 0x7fff_ffff,
                self.texts() == old(self).texts() + accepted.take(i as int),
                self.feeds().len() == old(self).feeds().len(),
                forall|s: int|
                    0 <= s < old(self).feeds().len() ==> (#[trigger] self.feeds()[s])
                        == deliver_all(
                        old(self).feeds()[s],
                        old(self).cap(),
                        accepted.take(i as int),
                    ),
                outbound@.len() == i,
                forall|k: int|
                    0 <= k < i ==> ((#[trigger] outbound@[k]) matches StreamItem::Reply(ack)
                        && ack@ == greeting_of(accepted[k])),
            ensures
                self.wf(),
                self.cap() == old(self).cap(),
                self.texts() == old(self).texts() + accepted,
                self.feeds().len() == old(self).feeds().len(),
                forall|s: int|
                    0 <= s < old(self).feeds().len() ==> (#[trigger] self.feeds()[s])
                        == deliver_all(old(self).feeds()[s], old(self).cap(), accepted),
                outbound@.len() == accepted.len() + (
                if stream_fault(events) is Some {
                    1int
                } else {
                    0int
                }),
                forall|k: int|
                    0 <= k < accepted.len() ==> ((#[trigger] outbound@[k]) matches
                        StreamItem::Reply(ack) && ack@ == greeting_of(accepted[k])),
                stream_fault(events) matches Some(err) ==> (outbound@[outbound@.len() - 1] matches
                    StreamItem::Fault(forwarded) && forwarded == err),
            decreases events.len() - i,
        {
            if i == inbound.len() {
                proof {
                    assert(cut_index(events) == events.len());
                    assert(accepted.take(i as int) =~= accepted);
                    assert(stream_fault(events) is None);
                }
                break;
            }
            match &inbound[i] {
                ReadEvent::Item(name) => {
                    proof {
                        assert(events[i as int] is Item);
                        assert(i < cut_index(events));
                        assert(accepted[i as int] == name@);
                        assert(accepted.take(i as int).len() == i);
                        assert(self.texts().len() == old(self).texts().len() + i);
                    }
                    let ack = self.accept_stream_item(name.as_str());
                    outbound.push(StreamItem::Reply(ack));
                    proof {
                        assert(accepted.take(i as int + 1) =~= accepted.take(i as int).push(
                            name@,
                        ));
                        assert(self.texts() =~= old(self).texts() + accepted.take(i as int + 1));
                        assert forall|s: int| 0 <= s < old(self).feeds().len() implies (
                        #[trigger] self.feeds()[s]) == deliver_all(
                            old(self).feeds()[s],
                            old(self).cap(),
                            accepted.take(i as int + 1),
                        ) by {
                            lemma_deliver_all_snoc(
                                old(self).feeds()[s],
                                old(self).cap(),
                                accepted.take(i as int),
                                name@,
                            );
                        }
                    }
                    i += 1;
                },
                ReadEvent::ReadError(err) => {
                    proof {
                        assert(events[i as int] is ReadError);
                        assert(i == cut_index(events));
                        assert(accepted.take(i as int) =~= accepted);
                    }
                    let decision = relay_step(&inbound[i]);
                    match decision {
                        RelayDecision::ForwardThenClose => {
                            outbound.push(StreamItem::Fault(err.duplicate()));
                        },
                        _ => {},
                    }
                    break;
                },
            }
        }
        outbound
    }

    /// ListMessagesStream: begins a live feed for one peer and hands back
    /// the subscription identity its pump reads from. The subscription
    /// starts empty: nothing published before this call is replayed, and
    /// every publish from now on reaches it, up to its buffer capacity.
    pub fn list_messages_stream(&mut self) -> (id: usize)
        requires
            old(self).wf(),
        ensures
            final(self).wf(),
            final(self).cap() == old(self).cap(),
            final(self).texts() == old(self).texts(),
            id == old(self).feeds().len(),
            final(self).feeds() == old(self).feeds().push(Some(Seq::<Seq<char>>::empty())),
    {
        self.broadcaster.subscribe()
    }

    /// The next text one live feed owes its peer, oldest first; nothing when
    /// the feed has nothing pending or was closed. No other feed is touched.
    pub fn poll_feed(&mut self, id: usize) -> (next: Option<String>)
        requires
            old(self).wf(),
            id < old(self).feeds().len(),
        ensures
            final(self).wf(),
            final(self).cap() == old(self).cap(),
            final(self).texts() == old(self).texts(),
            final(self).feeds().len() == old(self).feeds().len(),
            forall|j: int|
                0 <= j < old(self).feeds().len() && j != id ==> (#[trigger] final(self).feeds()[j])
                    == old(self).feeds()[j],
            old(self).feeds()[id as int] is None ==> next is None && final(self).feeds()[id as int]
                is None,
            old(self).feeds()[id as int] matches Some(pending) ==> {
                if pending.len() == 0 {
                    next is None && final(self).feeds()[id as int] == old(self).feeds()[id as int]
                } else {
                    next matches Some(text) && text@ == pending[0] && final(self).feeds()[
                        id as int
                    ] == Some(pending.drop_first())
                }
            },
    {
        self.broadcaster.recv(id)
    }

    /// A live-feed peer went away: its subscription is discarded, while no
    /// other connection's feed — nor anything persisted — is affected.
    pub fn close_feed(&mut self, id: usize)
        requires
            old(self).wf(),
            id < old(self).feeds().len(),
        ensures
            final(self).wf(),
            final(self).cap() == old(self).cap(),
            final(self).texts() == old(self).texts(),
            final(self).feeds() == old(self).feeds().update(id as int, None),
    {
        self.broadcaster.unsubscribe(id)
    }
}

/// The history listing has no fallback: a storage failure is forwarded to
/// the caller as it stands, while a successful read is reported as each
/// record's text in storage order. This is the one path a storage failure
/// may surface on; a send request replies regardless (see `say_hello`).
pub fn list_reply(fetched: Result<Vec<Message>, DbError>) -> (reply: Result<Vec<String>, DbError>)
    ensures
        fetched matches Ok(rows) ==> (reply matches Ok(texts) && texts@.map_values(
            |text: String| text@,
        ) == rows@.map_values(|m: Message| text_of(m))),
        fetched matches Err(err) ==> (reply matches Err(forwarded) && forwarded == err),
{
    match fetched {
        Ok(rows) => Ok(message_texts(&rows)),
        Err(err) => Err(err),
    }
}

/// The store's texts after a sequence of accepted unary sends, each
/// appending its greeting (one `say_hello` step per name).
pub open spec fn texts_after_sends(texts: Seq<Seq<char>>, names: Seq<Seq<char>>) -> Seq<Seq<char>>
    decreases names.len(),
{
    if names.len() == 0 {
        texts
    } else {
        texts_after_sends(texts.push(greeting_of(names[0])), names.drop_first())
    }
}

/// After any number of accepted sends, the history holds the greeting of
/// every one of them, in append order, after whatever was already stored:
/// what `list_messages` then reports contains all of them in send order.
pub proof fn lemma_history_after_sends(texts: Seq<Seq<char>>, names: Seq<Seq<char>>)
    ensures
        texts_after_sends(texts, names) == texts + names.map_values(
            |name: Seq<char>| greeting_of(name),
        ),
    decreases names.len(),
{
    if names.len() == 0 {
        assert(texts + names.map_values(|name: Seq<char>| greeting_of(name)) =~= texts);
    } else {
        lemma_history_after_sends(texts.push(greeting_of(names[0])), names.drop_first());
        assert(texts.push(greeting_of(names[0])) + names.drop_first().map_values(
            |name: Seq<char>| greeting_of(name),
        ) =~= texts + names.map_values(|name: Seq<char>| greeting_of(name)));
    }
}

} // verus!
