//! Fan-out of new messages to subscribers.
//!
//! Every subscriber has a queue of its own, bounded by the capacity of the
//! broadcaster. What happens to a message that arrives at a full queue is
//! the broadcaster's [`Overflow`] policy: by default it takes the place of
//! the oldest message in the queue.

use crate::models::{Email, EmailView};
use crate::store::emails_view;
use vstd::prelude::*;

verus! {

/// A subscriber: its identifier and the messages that wait for it, oldest
/// first.
#[derive(Debug)]
pub struct Subscriber {
    id: u64,
    queue: Vec<Email>,
}

/// The position of the subscriber with the identifier `id`, or the number of
/// subscribers where none has it.
pub closed spec fn slot_of(subscribers: Seq<Subscriber>, id: u64) -> int
    decreases subscribers.len(),
{
    if subscribers.len() == 0 || subscribers.first().id == id {
        0
    } else {
        1 + slot_of(subscribers.drop_first(), id)
    }
}

proof fn lemma_slot_of(subscribers: Seq<Subscriber>, id: u64)
    ensures
        0 <= slot_of(subscribers, id) <= subscribers.len(),
        forall|j: int| 0 <= j < slot_of(subscribers, id) ==> (#[trigger] subscribers[j]).id != id,
        slot_of(subscribers, id) < subscribers.len() ==> subscribers[slot_of(subscribers, id)].id
            == id,
    decreases subscribers.len(),
{
    if subscribers.len() == 0 || subscribers.first().id == id {
    } else {
        let t = subscribers.drop_first();
        lemma_slot_of(t, id);
        assert forall|j: int| 0 <= j < slot_of(subscribers, id) implies (
        #[trigger] subscribers[j]).id != id by {
            if j > 0 {
                assert(subscribers[j] == t[j - 1]);
            }
        }
    }
}

proof fn lemma_slot_is(subscribers: Seq<Subscriber>, id: u64, k: int)
    requires
        0 <= k <= subscribers.len(),
        forall|j: int| 0 <= j < k ==> (#[trigger] subscribers[j]).id != id,
        k < subscribers.len() ==> subscribers[k].id == id,
    ensures
        slot_of(subscribers, id) == k,
{
    lemma_slot_of(subscribers, id);
    let f = slot_of(subscribers, id);
    if f < k {
        assert(subscribers[f].id != id);
    }
}

/// The queues of the subscribers, by identifier.
pub closed spec fn queues_of(subscribers: Seq<Subscriber>) -> Map<u64, Seq<EmailView>> {
    Map::new(
        |id: u64| 0 <= slot_of(subscribers, id) < subscribers.len(),
        |id: u64| emails_view(subscribers[slot_of(subscribers, id)].queue@),
    )
}

/// What becomes of a message that arrives at a full queue.
#[derive(Clone, Copy, Debug, PartialEq, Eq, Structural)]
pub enum Overflow {
    /// The oldest message of the queue makes room for it.
    DropOldest,
    /// It is dropped.
    DropNewest,
}

/// A queue after a message arrives: at the end of the queue, or where the
/// queue is full, as the policy says.
pub open spec fn bounded_push(
    queue: Seq<EmailView>,
    email: EmailView,
    capacity: nat,
    overflow: Overflow,
) -> Seq<EmailView> {
    if queue.len() >= capacity && queue.len() > 0 {
        match overflow {
            Overflow::DropOldest => queue.drop_first().push(email),
            Overflow::DropNewest => queue,
        }
    } else {
        queue.push(email)
    }
}

/// What a [`Broadcaster`] holds.
pub struct BroadcasterView {
    /// The bound on the length of each queue.
    pub capacity: nat,
    /// What becomes of a message that arrives at a full queue.
    pub overflow: Overflow,
    /// The number of identifiers given out so far.
    pub issued: nat,
    /// The queue of each subscriber, oldest message first.
    pub queues: Map<u64, Seq<EmailView>>,
}

impl BroadcasterView {
    /// The capacity is positive, every subscriber has an identifier that was
    /// given out, and no queue is longer than the capacity.
    pub open spec fn wf(self) -> bool {
        &&& self.capacity > 0
        &&& forall|id: u64| #[trigger] self.queues.contains_key(id) ==> id < self.issued
        &&& forall|id: u64| #[trigger]
            self.queues.contains_key(id) ==> self.queues[id].len() <= self.capacity
    }

    /// After a message is published: it is in every queue.
    pub open spec fn after_publish(self, email: EmailView) -> BroadcasterView {
        BroadcasterView {
            queues: self.queues.map_values(
                |queue: Seq<EmailView>| bounded_push(queue, email, self.capacity, self.overflow),
            ),
            ..self
        }
    }

    /// After the messages are published, first to last.
    pub open spec fn after_publishes(self, emails: Seq<EmailView>) -> BroadcasterView
        decreases emails.len(),
    {
        if emails.len() == 0 {
            self
        } else {
            self.after_publishes(emails.drop_last()).after_publish(emails.last())
        }
    }

    /// After a subscriber joins: it has the next identifier and an empty
    /// queue.
    pub open spec fn after_subscribe(self) -> BroadcasterView {
        BroadcasterView {
            issued: self.issued + 1,
            queues: self.queues.insert(self.issued as u64, Seq::empty()),
            ..self
        }
    }
}

/// The fan-out channel.
#[derive(Debug)]
pub struct Broadcaster {
    capacity: usize,
    overflow: Overflow,
    issued: u64,
    subscribers: Vec<Subscriber>,
}

impl View for Broadcaster {
    type V = BroadcasterView;

    closed spec fn view(&self) -> BroadcasterView {
        BroadcasterView {
            capacity: self.capacity as nat,
            overflow: self.overflow,
            issued: self.issued as nat,
            queues: queues_of(self.subscribers@),
        }
    }
}

spec fn well_formed(capacity: usize, issued: u64, subscribers: Seq<Subscriber>) -> bool {
    &&& capacity > 0
    &&& forall|i: int, j: int|
        0 <= i < j < subscribers.len() ==> (#[trigger] subscribers[i]).id != (
        #[trigger] subscribers[j]).id
    &&& forall|i: int|
        0 <= i < subscribers.len() ==> (#[trigger] subscribers[i]).id < issued
            && subscribers[i].queue@.len() <= capacity
}

proof fn lemma_view_wf(
    capacity: usize,
    overflow: Overflow,
    issued: u64,
    subscribers: Seq<Subscriber>,
)
    requires
        well_formed(capacity, issued, subscribers),
    ensures
        (BroadcasterView {
            capacity: capacity as nat,
            overflow,
            issued: issued as nat,
            queues: queues_of(subscribers),
        }).wf(),
{
    let queues = queues_of(subscribers);
    assert forall|id: u64| #[trigger] queues.contains_key(id) implies id < issued && queues[id].len()
        <= capacity by {
        lemma_slot_of(subscribers, id);
    }
}

impl Broadcaster {
    #[verifier::type_invariant]
    spec fn inv(&self) -> bool {
        well_formed(self.capacity, self.issued, self.subscribers@)
    }

    /// A broadcaster without subscribers, in which a full queue drops its
    /// oldest message.
    pub fn new(capacity: usize) -> (out: Broadcaster)
        requires
            capacity > 0,
        ensures
            out@ == (BroadcasterView {
                capacity: capacity as nat,
                overflow: Overflow::DropOldest,
                issued: 0,
                queues: Map::empty(),
            }),
            out@.wf(),
    {
        Broadcaster::with_overflow(capacity, Overflow::DropOldest)
    }

    /// A broadcaster without subscribers, with the given policy for full
    /// queues.
    pub fn with_overflow(capacity: usize, overflow: Overflow) -> (out: Broadcaster)
        requires
            capacity > 0,
        ensures
            out@ == (BroadcasterView {
                capacity: capacity as nat,
                overflow,
                issued: 0,
                queues: Map::empty(),
            }),
            out@.wf(),
    {
        let out = Broadcaster { capacity, overflow, issued: 0, subscribers: Vec::new() };
        assert(out@.queues =~= Map::<u64, Seq<EmailView>>::empty());
        out
    }

    /// What becomes of a message that arrives at a full queue.
    pub fn overflow(&self) -> (out: Overflow)
        ensures
            out == self@.overflow,
    {
        self.overflow
    }

    /// The bound on the length of each queue.
    pub fn capacity(&self) -> (out: usize)
        ensures
            out == self@.capacity,
            self@.wf(),
    {
        proof {
            use_type_invariant(self);
            lemma_view_wf(self.capacity, self.overflow, self.issued, self.subscribers@);
        }
        self.capacity
    }

    fn find(&self, id: u64) -> (out: usize)
        ensures
            out == slot_of(self.subscribers@, id),
            out <= self.subscribers@.len(),
            out < self.subscribers@.len() <==> self@.queues.contains_key(id),
            out < self.subscribers@.len() ==> self.subscribers@[out as int].id == id
                && self@.queues[id] == emails_view(self.subscribers@[out as int].queue@),
    {
        let mut i: usize = 0;
        while i < self.subscribers.len() && self.subscribers[i].id != id
            invariant
                i <= self.subscribers@.len(),
                forall|j: int| 0 <= j < i ==> (#[trigger] self.subscribers@[j]).id != id,
            decreases self.subscribers@.len() - i,
        {
            i += 1;
        }
        proof {
            lemma_slot_is(self.subscribers@, id, i as int);
        }
        i
    }

    /// Adds a subscriber with an empty queue and gives its identifier.
    /// `None` where every identifier has been given out.
    pub fn subscribe(&mut self) -> (out: Option<u64>)
        ensures
            final(self)@.wf(),
            old(self)@.issued < u64::MAX ==> out == Some(old(self)@.issued as u64) && final(self)@
                == old(self)@.after_subscribe() && !old(self)@.queues.contains_key(
                old(self)@.issued as u64,
            ),
            old(self)@.issued >= u64::MAX ==> out is None && final(self)@ == old(self)@,
    {
        proof {
            use_type_invariant(&*self);
            lemma_view_wf(self.capacity, self.overflow, self.issued, self.subscribers@);
        }
        if self.issued == u64::MAX {
            return None;
        }
        let id: u64 = self.issued;
        let capacity: usize = self.capacity;
        let overflow: Overflow = self.overflow;
        let mut taken = Broadcaster::with_overflow(1, Overflow::DropOldest);
        core::mem::swap(self, &mut taken);
        let mut subscribers = taken.subscribers;
        let ghost before = subscribers@;
        subscribers.push(Subscriber { id, queue: Vec::new() });
        proof {
            let after = subscribers@;
            assert forall|other: u64| #[trigger]
                queues_of(after).contains_key(other) == queues_of(before).insert(
                    id,
                    Seq::empty(),
                ).contains_key(other) && (queues_of(after).contains_key(other) ==> queues_of(
                    after,
                )[other] == queues_of(before).insert(id, Seq::empty())[other]) by {
                lemma_slot_of(before, other);
                lemma_slot_of(after, other);
                let k = slot_of(before, other);
                if k < before.len() {
                    assert(after[k] == before[k]);
                    assert forall|j: int| 0 <= j < k implies (#[trigger] after[j]).id != other by {
                        assert(after[j] == before[j]);
                    }
                    lemma_slot_is(after, other, k);
                } else if other == id {
                    assert forall|j: int| 0 <= j < before.len() implies (#[trigger] after[j]).id
                        != other by {
                        assert(after[j] == before[j]);
                    }
                    lemma_slot_is(after, other, before.len() as int);
                    assert(emails_view(after[before.len() as int].queue@) =~= Seq::<
                        EmailView,
                    >::empty());
                } else {
                    assert forall|j: int| 0 <= j < after.len() implies (#[trigger] after[j]).id
                        != other by {
                        if j < before.len() {
                            assert(after[j] == before[j]);
                        }
                    }
                    lemma_slot_is(after, other, after.len() as int);
                }
            }
            assert(queues_of(after) =~= queues_of(before).insert(id, Seq::empty()));
            lemma_slot_of(before, id);
        }
        *self = Broadcaster { capacity, overflow, issued: id + 1, subscribers };
        proof {
            lemma_view_wf(self.capacity, self.overflow, self.issued, self.subscribers@);
        }
        Some(id)
    }

    /// Removes the subscriber `id`. Tells whether there was one.
    pub fn unsubscribe(&mut self, id: u64) -> (out: bool)
        ensures
            final(self)@.wf(),
            out == old(self)@.queues.contains_key(id),
            final(self)@ == (BroadcasterView { queues: old(self)@.queues.remove(id), ..old(self)@ }),
    {
        proof {
            use_type_invariant(&*self);
            lemma_view_wf(self.capacity, self.overflow, self.issued, self.subscribers@);
        }
        let at: usize = self.find(id);
        if at >= self.subscribers.len() {
            assert(self@.queues.remove(id) =~= self@.queues);
            return false;
        }
        let capacity: usize = self.capacity;
        let overflow: Overflow = self.overflow;
        let issued: u64 = self.issued;
        let mut taken = Broadcaster::with_overflow(1, Overflow::DropOldest);
        core::mem::swap(self, &mut taken);
        let mut subscribers = taken.subscribers;
        let ghost before = subscribers@;
        subscribers.remove(at);
        proof {
            let after = subscribers@;
            assert forall|i: int| 0 <= i < after.len() implies (#[trigger] after[i]) == before[if i
                < at {
                i
            } else {
                i + 1
            }] by {}
            assert forall|other: u64| #[trigger]
                queues_of(after).contains_key(other) == queues_of(before).remove(id).contains_key(
                    other,
                ) && (queues_of(after).contains_key(other) ==> queues_of(after)[other]
                    == queues_of(before).remove(id)[other]) by {
                lemma_slot_of(before, other);
                lemma_slot_of(after, other);
                let k = slot_of(before, other);
                let k2 = slot_of(after, other);
                if k2 < after.len() {
                    let src = if k2 < at {
                        k2
                    } else {
                        k2 + 1
                    };
                    assert(after[k2] == before[src]);
                    assert(before[src].id == other);
                    assert(k == src) by {
                        if k < src {
                            assert(before[k].id == other);
                            assert(before[src].id == other);
                        }
                    }
                    assert(other != id);
                } else if other != id && k < before.len() {
                    let dst = if k < at {
                        k
                    } else {
                        k - 1
                    };
                    assert(after[dst] == before[k]);
                    assert(after[dst].id != other);
                }
            }
            assert(queues_of(after) =~= queues_of(before).remove(id));
        }
        *self = Broadcaster { capacity, overflow, issued, subscribers };
        proof {
            lemma_view_wf(self.capacity, self.overflow, self.issued, self.subscribers@);
        }
        true
    }

    /// Puts a copy of `email` into the queue of every subscriber.
    pub fn publish(&mut self, email: &Email)
        ensures
            final(self)@.wf(),
            final(self)@ == old(self)@.after_publish(email@),
    {
        proof {
            use_type_invariant(&*self);
            lemma_view_wf(self.capacity, self.overflow, self.issued, self.subscribers@);
        }
        let capacity: usize = self.capacity;
        let overflow: Overflow = self.overflow;
        let issued: u64 = self.issued;
        let mut taken = Broadcaster::with_overflow(1, Overflow::DropOldest);
        core::mem::swap(self, &mut taken);
        let mut subscribers = taken.subscribers;
        let ghost before = subscribers@;
        let mut i: usize = 0;
        while i < subscribers.len()
            invariant
                capacity > 0,
                i <= subscribers@.len() == before.len(),
                well_formed(capacity, issued, before),
                forall|j: int|
                    0 <= j < before.len() ==> (#[trigger] subscribers@[j]).id == before[j].id,
                forall|j: int|
                    i <= j < before.len() ==> (#[trigger] subscribers@[j]).queue@
                        == before[j].queue@,
                forall|j: int|
                    0 <= j < i ==> emails_view((#[trigger] subscribers@[j]).queue@) == bounded_push(
                        emails_view(before[j].queue@),
                        email@,
                        capacity as nat,
                        overflow,
                    ) && subscribers@[j].queue@.len() <= capacity,
            decreases subscribers@.len() - i,
        {
            let ghost old_queue = subscribers@[i as int].queue@;
            assert(old_queue == before[i as int].queue@);
            let full = subscribers[i].queue.len() >= capacity;
            if full && overflow == Overflow::DropOldest {
                subscribers[i].queue.remove(0);
                assert(emails_view(subscribers@[i as int].queue@) =~= emails_view(
                    old_queue,
                ).drop_first());
            }
            if !full || overflow == Overflow::DropOldest {
                let ghost mid = subscribers@[i as int].queue@;
                subscribers[i].queue.push(email.clone());
                assert(emails_view(subscribers@[i as int].queue@) =~= emails_view(mid).push(
                    email@,
                ));
            }
            i += 1;
        }
        proof {
            let after = subscribers@;
            let target = (BroadcasterView {
                capacity: capacity as nat,
                overflow,
                issued: issued as nat,
                queues: queues_of(before),
            }).after_publish(email@).queues;
            assert forall|other: u64| #[trigger]
                queues_of(after).contains_key(other) == target.contains_key(other) && (queues_of(
                    after,
                ).contains_key(other) ==> queues_of(after)[other] == target[other]) by {
                lemma_slot_of(before, other);
                let k = slot_of(before, other);
                assert forall|j: int| 0 <= j < k implies (#[trigger] after[j]).id != other by {
                    assert(before[j].id != other);
                }
                if k < before.len() {
                    assert(after[k].id == before[k].id);
                }
                lemma_slot_is(after, other, k);
            }
            assert(queues_of(after) =~= target);
            assert(well_formed(capacity, issued, after)) by {
                assert forall|a: int, b: int| 0 <= a < b < after.len() implies (
                #[trigger] after[a]).id != (#[trigger] after[b]).id by {
                    assert(before[a].id != before[b].id);
                }
                assert forall|a: int| 0 <= a < after.len() implies (#[trigger] after[a]).id
                    < issued && after[a].queue@.len() <= capacity by {
                    assert(before[a].id < issued);
                }
            }
        }
        *self = Broadcaster { capacity, overflow, issued, subscribers };
        proof {
            lemma_view_wf(self.capacity, self.overflow, self.issued, self.subscribers@);
        }
    }

    /// Takes the oldest message that waits for the subscriber `id`.
    pub fn receive(&mut self, id: u64) -> (out: Option<Email>)
        ensures
            final(self)@.wf(),
            match out {
                Some(email) => old(self)@.queues.contains_key(id) && old(self)@.queues[id].len() > 0
                    && email@ == old(self)@.queues[id].first() && final(self)@ == (BroadcasterView {
                    queues: old(self)@.queues.insert(id, old(self)@.queues[id].drop_first()),
                    ..old(self)@
                }),
                None => (!old(self)@.queues.contains_key(id) || old(self)@.queues[id].len() == 0)
                    && final(self)@ == old(self)@,
            },
    {
        proof {
            use_type_invariant(&*self);
            lemma_view_wf(self.capacity, self.overflow, self.issued, self.subscribers@);
        }
        let at: usize = self.find(id);
        if at >= self.subscribers.len() || self.subscribers[at].queue.len() == 0 {
            return None;
        }
        let capacity: usize = self.capacity;
        let overflow: Overflow = self.overflow;
        let issued: u64 = self.issued;
        let mut taken = Broadcaster::with_overflow(1, Overflow::DropOldest);
        core::mem::swap(self, &mut taken);
        let mut subscribers = taken.subscribers;
        let ghost before = subscribers@;
        let email = subscribers[at].queue.remove(0);
        proof {
            let after = subscribers@;
            assert(emails_view(after[at as int].queue@) =~= emails_view(
                before[at as int].queue@,
            ).drop_first());
            let target = queues_of(before).insert(id, queues_of(before)[id].drop_first());
            assert forall|other: u64| #[trigger]
                queues_of(after).contains_key(other) == target.contains_key(other) && (queues_of(
                    after,
                ).contains_key(other) ==> queues_of(after)[other] == target[other]) by {
                lemma_slot_of(before, other);
                let k = slot_of(before, other);
                assert forall|j: int| 0 <= j < k implies (#[trigger] after[j]).id != other by {
                    assert(before[j].id != other);
                }
                if k < before.len() {
                    assert(after[k].id == before[k].id);
                    if k != at {
                        assert(after[k] == before[k]);
                    }
                }
                lemma_slot_is(after, other, k);
            }
            assert(queues_of(after) =~= target);
            assert(well_formed(capacity, issued, after)) by {
                assert forall|a: int, b: int| 0 <= a < b < after.len() implies (
                #[trigger] after[a]).id != (#[trigger] after[b]).id by {
                    assert(before[a].id != before[b].id);
                }
                assert forall|a: int| 0 <= a < after.len() implies (#[trigger] after[a]).id
                    < issued && after[a].queue@.len() <= capacity by {
                    assert(before[a].id < issued);
                    assert(before[a].queue@.len() <= capacity);
                }
            }
        }
        *self = Broadcaster { capacity, overflow, issued, subscribers };
        proof {
            lemma_view_wf(self.capacity, self.overflow, self.issued, self.subscribers@);
        }
        Some(email)
    }
}

/// The last `count` items of a sequence, or all of it where it has fewer.
pub open spec fn last_of(items: Seq<EmailView>, count: nat) -> Seq<EmailView> {
    if items.len() <= count {
        items
    } else {
        items.skip(items.len() - count)
    }
}

/// The first `count` items of a sequence, or all of it where it has fewer.
pub open spec fn first_of(items: Seq<EmailView>, count: nat) -> Seq<EmailView> {
    if items.len() <= count {
        items
    } else {
        items.take(count as int)
    }
}

/// Publishing changes neither the capacity nor the policy nor the
/// identifiers given out nor the set of subscribers.
pub proof fn lemma_publishes_keep(b: BroadcasterView, emails: Seq<EmailView>)
    ensures
        b.after_publishes(emails).capacity == b.capacity,
        b.after_publishes(emails).overflow == b.overflow,
        b.after_publishes(emails).issued == b.issued,
        b.after_publishes(emails).queues.dom() == b.queues.dom(),
    decreases emails.len(),
{
    if emails.len() > 0 {
        lemma_publishes_keep(b, emails.drop_last());
        let before = b.after_publishes(emails.drop_last());
        assert(before.after_publish(emails.last()).queues.dom() =~= before.queues.dom());
    }
}

/// Publishing keeps a broadcaster well formed.
pub proof fn lemma_publishes_wf(b: BroadcasterView, emails: Seq<EmailView>)
    requires
        b.wf(),
    ensures
        b.after_publishes(emails).wf(),
    decreases emails.len(),
{
    if emails.len() > 0 {
        lemma_publishes_wf(b, emails.drop_last());
        lemma_publishes_keep(b, emails.drop_last());
        let before = b.after_publishes(emails.drop_last());
        let after = before.after_publish(emails.last());
        assert forall|id: u64| #[trigger] after.queues.contains_key(id) implies id < after.issued
            && after.queues[id].len() <= after.capacity by {
            assert(before.queues.contains_key(id));
        }
    }
}

/// Whatever the policy, the queue of a subscriber holds messages in the order
/// of their publication, and of the messages published since it joined, at
/// most as many as the capacity allows: the last of them where the oldest
/// are dropped, the first of them where the newest are.
pub proof fn law_lossy_in_order(b: BroadcasterView, id: u64, emails: Seq<EmailView>)
    requires
        b.wf(),
        b.queues.contains_key(id),
    ensures
        b.after_publishes(emails).queues.contains_key(id),
        b.after_publishes(emails).queues[id] == match b.overflow {
            Overflow::DropOldest => last_of(b.queues[id] + emails, b.capacity),
            Overflow::DropNewest => first_of(b.queues[id] + emails, b.capacity),
        },
    decreases emails.len(),
{
    lemma_publishes_keep(b, emails);
    assert(b.after_publishes(emails).queues.dom().contains(id));
    if emails.len() == 0 {
        assert(b.queues[id] + emails =~= b.queues[id]);
    } else {
        let front = emails.drop_last();
        law_lossy_in_order(b, id, front);
        lemma_publishes_keep(b, front);
        let before = b.after_publishes(front);
        let queue = before.queues[id];
        let whole = b.queues[id] + front;
        assert(whole.push(emails.last()) =~= b.queues[id] + emails);
        match b.overflow {
            Overflow::DropOldest => {
                assert(bounded_push(queue, emails.last(), b.capacity, b.overflow) =~= last_of(
                    whole.push(emails.last()),
                    b.capacity,
                ));
            },
            Overflow::DropNewest => {
                assert(bounded_push(queue, emails.last(), b.capacity, b.overflow) =~= first_of(
                    whole.push(emails.last()),
                    b.capacity,
                ));
            },
        }
    }
}

/// A subscriber that joined before messages were published finds all of
/// them in its queue, in the order of publication, as long as the queue
/// stays within the capacity.
pub proof fn law_subscriber_receives_all(b: BroadcasterView, id: u64, emails: Seq<EmailView>)
    requires
        b.wf(),
        b.queues.contains_key(id),
        b.queues[id].len() + emails.len() <= b.capacity,
    ensures
        b.after_publishes(emails).queues.contains_key(id),
        b.after_publishes(emails).queues[id] == b.queues[id] + emails,
{
    law_lossy_in_order(b, id, emails);
}

/// A subscriber that joins after messages were published finds none of them:
/// its queue holds messages published after it joined, and no others; all of
/// them, as long as they are no more than the capacity allows.
pub proof fn law_late_subscriber(
    b: BroadcasterView,
    earlier: Seq<EmailView>,
    later: Seq<EmailView>,
)
    requires
        b.wf(),
        b.issued < u64::MAX,
    ensures
        ({
            let joined = b.after_publishes(earlier).after_subscribe();
            let id = b.issued as u64;
            &&& joined.queues[id] == Seq::<EmailView>::empty()
            &&& joined.after_publishes(later).queues.contains_key(id)
            &&& joined.after_publishes(later).queues[id] == match b.overflow {
                Overflow::DropOldest => last_of(later, b.capacity),
                Overflow::DropNewest => first_of(later, b.capacity),
            }
            &&& later.len() <= b.capacity ==> joined.after_publishes(later).queues[id] == later
        }),
{
    lemma_publishes_keep(b, earlier);
    lemma_publishes_wf(b, earlier);
    let joined = b.after_publishes(earlier).after_subscribe();
    let id = b.issued as u64;
    assert(joined.wf());
    law_lossy_in_order(joined, id, later);
    assert(Seq::<EmailView>::empty() + later =~= later);
}

} // verus!
