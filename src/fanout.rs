//! The fan-out bus: every envelope published is queued for each subscriber
//! that is attached at that moment. Each subscriber has a queue of its own of
//! fixed capacity; one that lets its queue fill up is marked lagging and is
//! detached at its next receive, while the others go on receiving.
use vstd::prelude::*;

use crate::codec::EnvelopeParts;
use crate::envelope::RequestMessage;

verus! {

/// A subscriber as plain values: its id, the envelopes queued for it, and
/// whether it is lagging.
pub type SubscriberView = (u64, Seq<EnvelopeParts>, bool);

/// Whether a subscriber takes the next envelope published: it is not lagging
/// and its queue has room.
pub open spec fn has_room(s: SubscriberView, capacity: nat) -> bool {
    !s.2 && s.1.len() < capacity
}

/// A subscriber after envelope `e` is published: queued if it has room,
/// marked lagging if its queue is full, untouched if it lags already.
pub open spec fn deliver(s: SubscriberView, e: EnvelopeParts, capacity: nat) -> SubscriberView {
    if s.2 {
        s
    } else if s.1.len() < capacity {
        (s.0, s.1.push(e), false)
    } else {
        (s.0, s.1, true)
    }
}

/// The subscribers after envelope `e` is published.
pub open spec fn published(subs: Seq<SubscriberView>, e: EnvelopeParts, capacity: nat) -> Seq<
    SubscriberView,
> {
    subs.map_values(|s: SubscriberView| deliver(s, e, capacity))
}

/// How many of the subscribers take the next envelope published.
pub open spec fn receiver_count(subs: Seq<SubscriberView>, capacity: nat) -> nat
    decreases subs.len(),
{
    if subs.len() == 0 {
        0
    } else {
        receiver_count(subs.drop_last(), capacity) + if has_room(subs.last(), capacity) {
            1nat
        } else {
            0nat
        }
    }
}

/// A subscriber after the envelopes `es` are published in turn, with no
/// receive in between.
pub open spec fn deliver_all(s: SubscriberView, es: Seq<EnvelopeParts>, capacity: nat) -> SubscriberView
    decreases es.len(),
{
    if es.len() == 0 {
        s
    } else {
        deliver(deliver_all(s, es.drop_last(), capacity), es.last(), capacity)
    }
}

/// Whether no two subscribers share an id.
pub open spec fn ids_unique(subs: Seq<SubscriberView>) -> bool {
    forall|i: int, j: int|
        0 <= i < subs.len() && 0 <= j < subs.len() && i != j ==> (#[trigger] subs[i]).0 != (
        #[trigger] subs[j]).0
}

/// What a subscriber's receive found.
#[derive(Clone, Debug)]
pub enum Delivery {
    /// The oldest envelope queued for it.
    Envelope(RequestMessage),
    /// Nothing is queued.
    Empty,
    /// It was lagging and has now been detached.
    Lagged,
    /// No subscriber has that id.
    Detached,
}

struct Subscriber {
    id: u64,
    queue: Vec<RequestMessage>,
    lagging: bool,
}

impl Subscriber {
    spec fn view(&self) -> SubscriberView {
        (self.id, self.queue@.map_values(|m: RequestMessage| m.parts()), self.lagging)
    }
}

/// The bus shared by the intake handler, which publishes, and the sessions,
/// which receive.
pub struct FanOut {
    capacity: usize,
    next_id: u64,
    subscribers: Vec<Subscriber>,
}

impl FanOut {
    /// The attached subscribers, in the order they subscribed.
    pub closed spec fn subscribers(&self) -> Seq<SubscriberView> {
        self.subscribers@.map_values(|s: Subscriber| s.view())
    }

    /// The capacity of each subscriber's queue.
    pub closed spec fn capacity(&self) -> nat {
        self.capacity as nat
    }

    /// The id that the next subscriber gets.
    pub closed spec fn next_id(&self) -> u64 {
        self.next_id
    }

    /// Ids are unique and below the next one handed out; every queue fits
    /// its capacity.
    pub open spec fn wf(&self) -> bool {
        &&& ids_unique(self.subscribers())
        &&& forall|i: int|
            0 <= i < self.subscribers().len() ==> (#[trigger] self.subscribers()[i]).0
                < self.next_id()
        &&& forall|i: int|
            0 <= i < self.subscribers().len() ==> (#[trigger] self.subscribers()[i]).1.len()
                <= self.capacity()
    }

    /// A bus without subscribers whose queues hold `capacity` envelopes each.
    pub fn new(capacity: usize) -> (r: FanOut)
        ensures
            r.wf(),
            r.capacity() == capacity,
            r.subscribers() == Seq::<SubscriberView>::empty(),
    {
        let r = FanOut { capacity, next_id: 0, subscribers: Vec::new() };
        assert(r.subscribers() =~= Seq::<SubscriberView>::empty());
        r
    }

    /// How many subscribers are attached.
    pub fn subscriber_count(&self) -> (r: usize)
        ensures
            r == self.subscribers().len(),
    {
        self.subscribers.len()
    }

    /// Attaches a subscriber with an empty queue, after the others, and
    /// returns its id; `None`, with nothing attached, once ids run out.
    pub fn subscribe(&mut self) -> (r: Option<u64>)
        requires
            old(self).wf(),
        ensures
            final(self).wf(),
            final(self).capacity() == old(self).capacity(),
            old(self).next_id() == u64::MAX ==> r is None && final(self).subscribers() == old(
                self,
            ).subscribers(),
            old(self).next_id() < u64::MAX ==> r == Some(old(self).next_id())
                && final(self).subscribers() == old(self).subscribers().push(
                (old(self).next_id(), Seq::<EnvelopeParts>::empty(), false),
            ),
    {
        if self.next_id == u64::MAX {
            return None;
        }
        let id = self.next_id;
        let ghost before = self.subscribers();
        let fresh = Subscriber { id, queue: Vec::new(), lagging: false };
        assert(fresh.view().1 =~= Seq::<EnvelopeParts>::empty());
        self.subscribers.push(fresh);
        self.next_id = id + 1;
        proof {
            assert(self.subscribers() =~= before.push((id, Seq::<EnvelopeParts>::empty(), false)));
            assert forall|i: int, j: int|
                0 <= i < self.subscribers().len() && 0 <= j < self.subscribers().len() && i
                    != j implies (#[trigger] self.subscribers()[i]).0 != (
            #[trigger] self.subscribers()[j]).0 by {
                if i < before.len() && j < before.len() {
                    assert(before[i] == self.subscribers()[i]);
                    assert(before[j] == self.subscribers()[j]);
                }
                if i < before.len() {
                    assert(before[i] == self.subscribers()[i]);
                }
                if j < before.len() {
                    assert(before[j] == self.subscribers()[j]);
                }
            }
            assert forall|i: int| 0 <= i < self.subscribers().len() implies (
            #[trigger] self.subscribers()[i]).0 < self.next_id() && self.subscribers()[i].1.len()
                <= self.capacity() by {
                if i < before.len() {
                    assert(before[i] == self.subscribers()[i]);
                }
            }
        }
        Some(id)
    }

    /// Publishes an envelope: a copy is queued for every subscriber with
    /// room, and every subscriber whose queue is full is marked lagging.
    /// Returns how many subscribers the envelope was queued for.
    pub fn publish(&mut self, msg: &RequestMessage) -> (r: usize)
        requires
            old(self).wf(),
        ensures
            final(self).wf(),
            final(self).capacity() == old(self).capacity(),
            final(self).next_id() == old(self).next_id(),
            final(self).subscribers() == published(
                old(self).subscribers(),
                msg.parts(),
                old(self).capacity(),
            ),
            r == receiver_count(old(self).subscribers(), old(self).capacity()),
    {
        let ghost before = self.subscribers();
        let ghost e = msg.parts();
        let ghost cap = self.capacity as nat;
        let n = self.subscribers.len();
        let mut count: usize = 0;
        let mut i: usize = 0;
        while i < n
            invariant
                n == self.subscribers@.len(),
                n == before.len(),
                i <= n,
                count <= i,
                cap == self.capacity as nat,
                e == msg.parts(),
                self.next_id == old(self).next_id,
                self.capacity == old(self).capacity,
                forall|j: int| 0 <= j < i ==> #[trigger] self.subscribers()[j] == deliver(before[j], e, cap),
                forall|j: int| i <= j < n ==> #[trigger] self.subscribers()[j] == before[j],
                count == receiver_count(before.take(i as int), cap),
            decreases n - i,
        {
            let ghost prev = self.subscribers();
            let ghost prev_vec = self.subscribers@;
            let ghost old_sub = self.subscribers@[i as int];
            assert(prev[i as int] == old_sub.view());
            assert(before[i as int] == old_sub.view());
            let lagging = self.subscribers[i].lagging;
            let len = self.subscribers[i].queue.len();
            if !lagging {
                if len < self.capacity {
                    let copy = msg.duplicate();
                    let ghost q = self.subscribers@[i as int].queue@;
                    self.subscribers[i].queue.push(copy);
                    proof {
                        assert(self.subscribers@[i as int].queue@.map_values(|m: RequestMessage| m.parts())
                            =~= q.map_values(|m: RequestMessage| m.parts()).push(e));
                        assert(self.subscribers@[i as int].id == old_sub.id);
                        assert(self.subscribers@[i as int].lagging == old_sub.lagging);
                        assert(self.subscribers()[i as int] == self.subscribers@[i as int].view());
                    }
                    count = count + 1;
                } else {
                    self.subscribers[i].lagging = true;
                    assert(self.subscribers@[i as int].queue == old_sub.queue);
                    assert(self.subscribers()[i as int] == self.subscribers@[i as int].view());
                }
            }
            proof {
                assert(self.subscribers()[i as int] == deliver(before[i as int], e, cap));
                assert forall|j: int| 0 <= j < n && j != i implies #[trigger] self.subscribers()[j] == prev[j] by {
                    assert(self.subscribers@[j] == prev_vec[j]);
                }
                assert(before.take(i + 1).drop_last() =~= before.take(i as int));
            }
            i = i + 1;
        }
        proof {
            assert(self.subscribers() =~= published(before, e, cap));
            assert(before.take(n as int) =~= before);
            assert forall|j: int| 0 <= j < self.subscribers().len() implies (#[trigger] self.subscribers()[j]).1.len() <= self.capacity() by {
                assert(self.subscribers()[j] == deliver(before[j], e, cap));
            }
        }
        count
    }

    fn position(&self, id: u64) -> (r: Option<usize>)
        ensures
            match r {
                Some(k) => k < self.subscribers().len() && self.subscribers()[k as int].0 == id,
                None => forall|k: int| 0 <= k < self.subscribers().len() ==> (#[trigger] self.subscribers()[k]).0 != id,
            },
    {
        let mut k: usize = 0;
        while k < self.subscribers.len()
            invariant
                k <= self.subscribers@.len(),
                forall|j: int| 0 <= j < k ==> (#[trigger] self.subscribers()[j]).0 != id,
            decreases self.subscribers@.len() - k,
        {
            if self.subscribers[k].id == id {
                return Some(k);
            }
            k = k + 1;
        }
        None
    }

    proof fn lemma_remove_keeps_wf(&self, other: &FanOut, k: int)
        requires
            self.wf(),
            0 <= k < self.subscribers().len(),
            other.subscribers() == self.subscribers().remove(k),
            other.capacity() == self.capacity(),
            other.next_id() == self.next_id(),
        ensures
            other.wf(),
    {
        let a = self.subscribers();
        let b = other.subscribers();
        assert forall|i: int, j: int|
            0 <= i < b.len() && 0 <= j < b.len() && i != j implies (#[trigger] b[i]).0 != (
            #[trigger] b[j]).0 by {
            let i0 = if i < k { i } else { i + 1 };
            let j0 = if j < k { j } else { j + 1 };
            assert(b[i] == a[i0]);
            assert(b[j] == a[j0]);
        }
        assert forall|i: int| 0 <= i < b.len() implies (#[trigger] b[i]).0 < other.next_id()
            && b[i].1.len() <= other.capacity() by {
            let i0 = if i < k { i } else { i + 1 };
            assert(b[i] == a[i0]);
        }
    }

    /// Takes the oldest envelope queued for subscriber `id`. A lagging
    /// subscriber is detached instead, and the others are kept in order.
    pub fn receive(&mut self, id: u64) -> (r: Delivery)
        requires
            old(self).wf(),
        ensures
            final(self).wf(),
            final(self).capacity() == old(self).capacity(),
            final(self).next_id() == old(self).next_id(),
            (forall|k: int| 0 <= k < old(self).subscribers().len() ==> (#[trigger] old(self).subscribers()[k]).0 != id)
                ==> r is Detached && final(self).subscribers() == old(self).subscribers(),
            forall|k: int| 0 <= k < old(self).subscribers().len() && (#[trigger] old(self).subscribers()[k]).0 == id ==> {
                let s = old(self).subscribers()[k];
                if s.2 {
                    r is Lagged && final(self).subscribers() == old(self).subscribers().remove(k)
                } else if s.1.len() == 0 {
                    r is Empty && final(self).subscribers() == old(self).subscribers()
                } else {
                    (r matches Delivery::Envelope(m) && m.parts() == s.1[0])
                        && final(self).subscribers() == old(self).subscribers().update(
                        k,
                        (s.0, s.1.subrange(1, s.1.len() as int), false),
                    )
                }
            },
    {
        let k = match self.position(id) {
            Some(k) => k,
            None => return Delivery::Detached,
        };
        let ghost before = self.subscribers();
        let ghost old_self = *self;
        proof {
            assert forall|j: int| 0 <= j < before.len() && (#[trigger] before[j]).0 == id implies j == k by {}
        }
        if self.subscribers[k].lagging {
            self.subscribers.remove(k);
            proof {
                assert(self.subscribers() =~= before.remove(k as int));
                old_self.lemma_remove_keeps_wf(self, k as int);
            }
            return Delivery::Lagged;
        }
        if self.subscribers[k].queue.len() == 0 {
            return Delivery::Empty;
        }
        let ghost old_sub = self.subscribers@[k as int];
        let m = self.subscribers[k].queue.remove(0);
        proof {
            let q = old_sub.queue@.map_values(|x: RequestMessage| x.parts());
            assert(self.subscribers@[k as int].queue@.map_values(|x: RequestMessage| x.parts())
                =~= q.subrange(1, q.len() as int));
            assert(self.subscribers()[k as int] == (id, q.subrange(1, q.len() as int), false));
            assert(self.subscribers() =~= before.update(k as int, (id, q.subrange(1, q.len() as int), false)));
            let b = self.subscribers();
            assert forall|i: int, j: int|
                0 <= i < b.len() && 0 <= j < b.len() && i != j implies (#[trigger] b[i]).0 != (
                #[trigger] b[j]).0 by {
                assert(b[i].0 == before[i].0);
                assert(b[j].0 == before[j].0);
            }
            assert forall|i: int| 0 <= i < b.len() implies (#[trigger] b[i]).0 < self.next_id()
                && b[i].1.len() <= self.capacity() by {
                assert(b[i].0 == before[i].0);
                assert(b[i].1.len() <= before[i].1.len());
            }
        }
        Delivery::Envelope(m)
    }

    /// Detaches subscriber `id`, keeping the others in order; says whether
    /// it was attached.
    pub fn unsubscribe(&mut self, id: u64) -> (r: bool)
        requires
            old(self).wf(),
        ensures
            final(self).wf(),
            final(self).capacity() == old(self).capacity(),
            final(self).next_id() == old(self).next_id(),
            (forall|k: int| 0 <= k < old(self).subscribers().len() ==> (#[trigger] old(self).subscribers()[k]).0 != id)
                ==> !r && final(self).subscribers() == old(self).subscribers(),
            forall|k: int| 0 <= k < old(self).subscribers().len() && (#[trigger] old(self).subscribers()[k]).0 == id
                ==> r && final(self).subscribers() == old(self).subscribers().remove(k),
    {
        let k = match self.position(id) {
            Some(k) => k,
            None => return false,
        };
        let ghost before = self.subscribers();
        let ghost old_self = *self;
        proof {
            assert forall|j: int| 0 <= j < before.len() && (#[trigger] before[j]).0 == id implies j == k by {}
        }
        self.subscribers.remove(k);
        proof {
            assert(self.subscribers() =~= before.remove(k as int));
            old_self.lemma_remove_keeps_wf(self, k as int);
        }
        true
    }
}

/// Fan-out: publishing `e` queues it exactly once, at the end, for every
/// attached subscriber with room, and for no one else; each subscriber's
/// outcome depends on that subscriber alone; the count returned is the number
/// of subscribers it was queued for. A subscriber attached afterwards starts
/// from an empty queue (see `subscribe`), so it never sees `e`.
pub proof fn lemma_fan_out(subs: Seq<SubscriberView>, e: EnvelopeParts, capacity: nat)
    ensures
        published(subs, e, capacity).len() == subs.len(),
        forall|i: int|
            0 <= i < subs.len() ==> (#[trigger] published(subs, e, capacity)[i]).0 == subs[i].0,
        forall|i: int|
            0 <= i < subs.len() && has_room(subs[i], capacity) ==> (#[trigger] published(
                subs,
                e,
                capacity,
            )[i]).1 == subs[i].1.push(e),
        forall|i: int|
            0 <= i < subs.len() && !has_room(subs[i], capacity) ==> (#[trigger] published(
                subs,
                e,
                capacity,
            )[i]).1 == subs[i].1,
        receiver_count(subs, capacity) == subs.filter(|s: SubscriberView| has_room(s, capacity)).len(),
        (forall|i: int| 0 <= i < subs.len() ==> has_room(#[trigger] subs[i], capacity))
            ==> receiver_count(subs, capacity) == subs.len(),
        subs.len() == 0 ==> receiver_count(subs, capacity) == 0,
    decreases subs.len(),
{
    reveal(Seq::filter);
    if subs.len() > 0 {
        lemma_fan_out(subs.drop_last(), e, capacity);
    }
}

/// Back-pressure, for one subscriber that stops reading with `q` queued:
/// while the envelopes published fit its remaining room it holds them all
/// after `q`, in publication order, none lost; once more are published it is
/// lagging, and its next receive detaches it.
pub proof fn lemma_back_pressure(
    id: u64,
    q: Seq<EnvelopeParts>,
    es: Seq<EnvelopeParts>,
    capacity: nat,
)
    requires
        q.len() <= capacity,
    ensures
        q.len() + es.len() <= capacity ==> deliver_all((id, q, false), es, capacity) == (
            id,
            q + es,
            false,
        ),
        q.len() + es.len() > capacity ==> deliver_all((id, q, false), es, capacity).2,
    decreases es.len(),
{
    if es.len() == 0 {
        assert(q + es =~= q);
    } else {
        lemma_back_pressure(id, q, es.drop_last(), capacity);
        if q.len() + es.len() <= capacity {
            assert((q + es.drop_last()).push(es.last()) =~= q + es);
        }
    }
}

/// The subscribers after the envelopes `es` are published in turn, with no
/// receive in between.
pub open spec fn published_all(
    subs: Seq<SubscriberView>,
    es: Seq<EnvelopeParts>,
    capacity: nat,
) -> Seq<SubscriberView>
    decreases es.len(),
{
    if es.len() == 0 {
        subs
    } else {
        published(published_all(subs, es.drop_last(), capacity), es.last(), capacity)
    }
}

/// Subscribers are independent: over any run of publishes, what becomes of
/// each subscriber depends on that subscriber alone, so one that lags or
/// stops reading changes nothing for the others.
pub proof fn lemma_subscribers_independent(
    subs: Seq<SubscriberView>,
    es: Seq<EnvelopeParts>,
    capacity: nat,
)
    ensures
        published_all(subs, es, capacity).len() == subs.len(),
        forall|i: int|
            0 <= i < subs.len() ==> #[trigger] published_all(subs, es, capacity)[i] == deliver_all(
                subs[i],
                es,
                capacity,
            ),
    decreases es.len(),
{
    if es.len() > 0 {
        lemma_subscribers_independent(subs, es.drop_last(), capacity);
    }
}

/// A subscriber that reads everything queued for it before the next publish
/// never lags, however many envelopes are published: each publish queues the
/// one envelope for it.
pub proof fn lemma_reader_keeps_up(id: u64, e: EnvelopeParts, capacity: nat)
    requires
        capacity > 0,
    ensures
        deliver((id, Seq::empty(), false), e, capacity) == (id, seq![e], false),
{
    assert(Seq::<EnvelopeParts>::empty().push(e) =~= seq![e]);
}

} // verus!
