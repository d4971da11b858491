use vstd::pervasive::VecAdditionalExecFns;
use vstd::prelude::*;
use vstd::string::StringExecFns;

verus! {

/// One publish applied to one subscription's bounded buffer: when the buffer
/// is full the oldest pending text is dropped, so the publisher never waits
/// on a slow reader.
pub open spec fn push_bounded(buf: Seq<Seq<char>>, cap: nat, msg: Seq<char>) -> Seq<Seq<char>> {
    if buf.len() < cap {
        buf.push(msg)
    } else {
        buf.drop_first().push(msg)
    }
}

/// A whole sequence of publishes applied to one buffer, in publish order.
pub open spec fn push_bounded_all(buf: Seq<Seq<char>>, cap: nat, msgs: Seq<Seq<char>>) -> Seq<
    Seq<char>,
>
    decreases msgs.len(),
{
    if msgs.len() == 0 {
        buf
    } else {
        push_bounded_all(push_bounded(buf, cap, msgs[0]), cap, msgs.drop_first())
    }
}

/// One publish applied to one subscription slot: a closed slot stays closed,
/// an open one has the text pushed into its bounded buffer.
pub open spec fn deliver(slot: Option<Seq<Seq<char>>>, cap: nat, msg: Seq<char>) -> Option<
    Seq<Seq<char>>,
> {
    match slot {
        Some(buf) => Some(push_bounded(buf, cap, msg)),
        None => None,
    }
}

/// A whole sequence of publishes applied to one subscription slot.
pub open spec fn deliver_all(slot: Option<Seq<Seq<char>>>, cap: nat, msgs: Seq<Seq<char>>) -> Option<
    Seq<Seq<char>>,
>
    decreases msgs.len(),
{
    match slot {
        Some(buf) => Some(push_bounded_all(buf, cap, msgs)),
        None => None,
    }
}

/// The pending texts of one subscription slot, oldest first; a closed slot is
/// `None`.
pub open spec fn slot_view(slot: Option<Vec<String>>) -> Option<Seq<Seq<char>>> {
    match slot {
        Some(buf) => Some(buf@.map_values(|text: String| text@)),
        None => None,
    }
}

/// How many pending texts one subscription holds before its oldest is
/// dropped, unless a hub is built with another capacity.
pub const DEFAULT_CAPACITY: usize = 16;

/// The process-wide publish/subscribe hub: an arena of independent bounded
/// buffers, one per live subscription, indexed by a subscription identity
/// that is never reused. Delivery is best-effort: a publish appends to every
/// open buffer, dropping that buffer's oldest text when it is full, and
/// never fails or waits.
pub struct Broadcaster {
    capacity: usize,
    slots: Vec<Option<Vec<String>>>,
}

impl View for Broadcaster {
    type V = Seq<Option<Seq<Seq<char>>>>;

    /// One entry per subscription identity handed out so far: the pending
    /// texts of a live subscription, or `None` once it is closed.
    closed spec fn view(&self) -> Seq<Option<Seq<Seq<char>>>> {
        self.slots@.map_values(|slot: Option<Vec<String>>| slot_view(slot))
    }
}

impl Broadcaster {
    /// How many texts one subscription can hold before the oldest is dropped.
    pub closed spec fn cap(&self) -> nat {
        self.capacity as nat
    }

    /// Every open buffer respects the capacity bound.
    pub open spec fn wf(&self) -> bool {
        &&& self.cap() >= 1
        &&& forall|i: int|
            0 <= i < self@.len() && self@[i] is Some ==> (#[trigger] self@[i])->Some_0.len()
                <= self.cap()
    }

    /// A new hub with no subscriptions and the default buffer capacity.
    pub fn new() -> (hub: Broadcaster)
        ensures
            hub.wf(),
            hub.cap() == DEFAULT_CAPACITY,
            hub@ == Seq::<Option<Seq<Seq<char>>>>::empty(),
    {
        Broadcaster::with_capacity(DEFAULT_CAPACITY)
    }

    /// A new hub with no subscriptions, whose subscriptions will each hold
    /// up to `capacity` pending texts.
    pub fn with_capacity(capacity: usize) -> (hub: Broadcaster)
        requires
            capacity >= 1,
        ensures
            hub.wf(),
            hub.cap() == capacity,
            hub@ == Seq::<Option<Seq<Seq<char>>>>::empty(),
    {
        let hub = Broadcaster { capacity, slots: Vec::new() };
        proof {
            assert(hub@ =~= Seq::<Option<Seq<Seq<char>>>>::empty());
        }
        hub
    }

    /// Registers a new consumer: its buffer starts empty, so it will see
    /// nothing published before this call, and its identity is fresh.
    pub fn subscribe(&mut self) -> (id: usize)
        requires
            old(self).wf(),
        ensures
            final(self).wf(),
            final(self).cap() == old(self).cap(),
            id == old(self)@.len(),
            final(self)@ == old(self)@.push(Some(Seq::<Seq<char>>::empty())),
    {
        let id = self.slots.len();
        self.slots.push(Some(Vec::new()));
        proof {
            assert(self@ =~~= old(self)@.push(Some(Seq::<Seq<char>>::empty())));
        }
        id
    }

    /// How many subscription identities have been handed out so far.
    pub fn subscription_count(&self) -> (n: usize)
        ensures
            n == self@.len(),
    {
        self.slots.len()
    }

    /// Publishes one text: every open subscription has it appended to its
    /// buffer, each independently of all others, dropping that buffer's
    /// oldest text when it is full; closed slots stay closed. The publish
    /// itself always succeeds, even with no subscribers at all.
    pub fn broadcast(&mut self, msg: &str)
        requires
            old(self).wf(),
        ensures
            final(self).wf(),
            final(self).cap() == old(self).cap(),
            final(self)@.len() == old(self)@.len(),
            forall|i: int|
                0 <= i < old(self)@.len() ==> (#[trigger] final(self)@[i]) == deliver(
                    old(self)@[i],
                    old(self).cap(),
                    msg@,
                ),
    {
        let capacity = self.capacity;
        let mut i: usize = 0;
        while i < self.slots.len()
            invariant
                self.wf(),
                capacity == self.capacity,
                self.capacity == old(self).capacity,
                self@.len() == old(self)@.len(),
                i <= self@.len(),
                forall|j: int|
                    0 <= j < i ==> (#[trigger] self@[j]) == deliver(
                        old(self)@[j],
                        old(self).cap(),
                        msg@,
                    ),
                forall|j: int| i <= j < self@.len() ==> (#[trigger] self@[j]) == old(self)@[j],
            decreases self.slots@.len() - i,
        {
            let ghost view_before = self@;
            let mut slot: Option<Vec<String>> = None;
            self.slots.set_and_swap(i, &mut slot);
            match slot {
                Some(mut buf) => {
                    let ghost buf_before = buf@;
                    if buf.len() == capacity {
                        buf.remove(0);
                        proof {
                            assert(buf@ =~= buf_before.drop_first());
                        }
                    }
                    buf.push(String::from_str(msg));
                    proof {
                        assert(buf@.map_values(|text: String| text@) =~= push_bounded(
                            buf_before.map_values(|text: String| text@),
                            self.cap(),
                            msg@,
                        ));
                    }
                    self.slots.set(i, Some(buf));
                },
                None => {},
            }
            proof {
                assert(self@ =~~= view_before.update(
                    i as int,
                    deliver(view_before[i as int], self.cap(), msg@),
                ));
            }
            i += 1;
        }
    }

    /// Hands the subscription its next pending text, oldest first: the live,
    /// non-replayable sequence of broadcast values. An empty buffer or a
    /// closed slot yields nothing; every other subscription is untouched.
    pub fn recv(&mut self, id: usize) -> (next: Option<String>)
        requires
            old(self).wf(),
            id < old(self)@.len(),
        ensures
            final(self).wf(),
            final(self).cap() == old(self).cap(),
            final(self)@.len() == old(self)@.len(),
            forall|j: int|
                0 <= j < old(self)@.len() && j != id ==> (#[trigger] final(self)@[j]) == old(
                    self,
                )@[j],
            old(self)@[id as int] is None ==> next is None && final(self)@[id as int] is None,
            old(self)@[id as int] matches Some(pending) ==> {
                if pending.len() == 0 {
                    next is None && final(self)@[id as int] == old(self)@[id as int]
                } else {
                    next matches Some(text) && text@ == pending[0] && final(self)@[id as int]
                        == Some(pending.drop_first())
                }
            },
    {
        let ghost view_before = self@;
        let mut slot: Option<Vec<String>> = None;
        self.slots.set_and_swap(id, &mut slot);
        let next = match slot {
            Some(mut buf) => {
                let ghost buf_before = buf@;
                let taken = if buf.len() > 0 {
                    let first = buf.remove(0);
                    proof {
                        assert(buf@ =~= buf_before.drop_first());
                    }
                    Some(first)
                } else {
                    None
                };
                self.slots.set(id, Some(buf));
                proof {
                    assert(buf@.map_values(|text: String| text@) =~= view_before[
                        id as int
                    ]->Some_0.skip(if buf_before.len() > 0 { 1int } else { 0int }));
                }
                taken
            },
            None => None,
        };
        proof {
            if view_before[id as int] is None {
                assert(self@ =~~= view_before);
            } else if view_before[id as int]->Some_0.len() == 0 {
                assert(self@ =~~= view_before);
            } else {
                assert(self@ =~~= view_before.update(
                    id as int,
                    Some(view_before[id as int]->Some_0.drop_first()),
                ));
            }
        }
        next
    }

    /// Closes one subscription: its slot is discarded and never reused,
    /// while every other subscription keeps its pending texts untouched.
    pub fn unsubscribe(&mut self, id: usize)
        requires
            old(self).wf(),
            id < old(self)@.len(),
        ensures
            final(self).wf(),
            final(self).cap() == old(self).cap(),
            final(self)@ == old(self)@.update(id as int, None),
    {
        self.slots[id] = None;
        proof {
            assert(self@ =~~= old(self)@.update(id as int, None));
        }
    }
}

/// Publishing one more text after a sequence of publishes is the same as
/// one bounded push onto the buffer those publishes left behind.
pub proof fn lemma_push_bounded_all_snoc(
    buf: Seq<Seq<char>>,
    cap: nat,
    msgs: Seq<Seq<char>>,
    msg: Seq<char>,
)
    ensures
        push_bounded_all(buf, cap, msgs.push(msg)) == push_bounded(
            push_bounded_all(buf, cap, msgs),
            cap,
            msg,
        ),
    decreases msgs.len(),
{
    if msgs.len() == 0 {
        assert(msgs.push(msg)[0] == msg);
        assert(msgs.push(msg).drop_first() =~= Seq::<Seq<char>>::empty());
        assert(push_bounded_all(push_bounded(buf, cap, msg), cap, Seq::<Seq<char>>::empty())
            == push_bounded(buf, cap, msg));
        assert(push_bounded_all(buf, cap, msgs) == buf);
    } else {
        assert(msgs.push(msg)[0] == msgs[0]);
        assert(msgs.push(msg).drop_first() =~= msgs.drop_first().push(msg));
        lemma_push_bounded_all_snoc(push_bounded(buf, cap, msgs[0]), cap, msgs.drop_first(), msg);
    }
}

/// The same, for a whole subscription slot.
pub proof fn lemma_deliver_all_snoc(
    slot: Option<Seq<Seq<char>>>,
    cap: nat,
    msgs: Seq<Seq<char>>,
    msg: Seq<char>,
)
    ensures
        deliver_all(slot, cap, msgs.push(msg)) == deliver(deliver_all(slot, cap, msgs), cap, msg),
{
    match slot {
        Some(buf) => {
            lemma_push_bounded_all_snoc(buf, cap, msgs, msg);
        },
        None => {},
    }
}

/// What a bounded buffer holds after any sequence of publishes: the most
/// recent texts of everything that ever entered it, in publish order, with
/// exactly the oldest overflow dropped.
pub proof fn lemma_push_bounded_all_from(buf: Seq<Seq<char>>, cap: nat, msgs: Seq<Seq<char>>)
    requires
        cap >= 1,
        buf.len() <= cap,
    ensures
        ({
            let total = buf + msgs;
            let dropped: int = if total.len() <= cap {
                0
            } else {
                total.len() - cap
            };
            push_bounded_all(buf, cap, msgs) == total.skip(dropped)
        }),
    decreases msgs.len(),
{
    let total = buf + msgs;
    let dropped: int = if total.len() <= cap {
        0
    } else {
        total.len() - cap
    };
    if msgs.len() == 0 {
        assert(total.skip(0) =~= buf);
    } else {
        let stepped = push_bounded(buf, cap, msgs[0]);
        lemma_push_bounded_all_from(stepped, cap, msgs.drop_first());
        let stepped_total = stepped + msgs.drop_first();
        let stepped_dropped: int = if stepped_total.len() <= cap {
            0
        } else {
            stepped_total.len() - cap
        };
        if buf.len() < cap {
            assert(stepped_total =~= total);
        } else {
            assert(stepped_total =~= total.drop_first());
            assert(total.drop_first().skip(stepped_dropped) =~= total.skip(stepped_dropped + 1));
        }
    }
}

/// A subscription begins with an empty buffer, so no text published before
/// it can ever reach it; of the texts published after it, it holds exactly
/// the most recent ones, in publish order, up to its capacity.
pub proof fn lemma_fresh_subscription_feed(cap: nat, msgs: Seq<Seq<char>>)
    requires
        cap >= 1,
    ensures
        msgs.len() <= cap ==> push_bounded_all(Seq::empty(), cap, msgs) == msgs,
        msgs.len() > cap ==> push_bounded_all(Seq::empty(), cap, msgs) == msgs.skip(
            msgs.len() - cap,
        ),
{
    lemma_push_bounded_all_from(Seq::empty(), cap, msgs);
    assert(Seq::empty() + msgs =~= msgs);
}

/// A subscriber that consumes more slowly than texts are published observes
/// gaps rather than stalling the publisher: the buffer ends up holding only
/// the last `cap` texts, still in publish order, and everything older —
/// the earliest publishes included — has been dropped, while every publish
/// itself succeeded unconditionally (see `Broadcaster::broadcast`).
pub proof fn lemma_overflow_drops_oldest(cap: nat, msgs: Seq<Seq<char>>)
    requires
        cap >= 1,
        msgs.len() > cap,
    ensures
        push_bounded_all(Seq::empty(), cap, msgs).len() == cap,
        forall|k: int|
            0 <= k < cap ==> #[trigger] push_bounded_all(Seq::empty(), cap, msgs)[k] == msgs[
                msgs.len() - cap + k
            ],
{
    lemma_fresh_subscription_feed(cap, msgs);
}

/// Closing one subscription leaves every other subscription's slot — and so
/// its pending texts and their order — exactly as it was.
pub proof fn lemma_close_leaves_others(
    slots: Seq<Option<Seq<Seq<char>>>>,
    id: int,
    other: int,
)
    requires
        0 <= id < slots.len(),
        0 <= other < slots.len(),
        other != id,
    ensures
        slots.update(id, None)[other] == slots[other],
{
}

} // verus!
