//! The event plane: events from instrumented nets are gathered into
//! batches, and the batches are fanned out to whoever subscribed.

use crate::address::Address;
use std::collections::VecDeque;
use std::sync::Arc;
use vstd::prelude::*;

verus! {

/// What happened on a connection.
#[derive(Debug, Clone, PartialEq, Eq)]
pub enum EventType {
    /// A TCP connection to this address was opened.
    NewTcp(Address),
    /// This many bytes came in from the far side.
    Inbound(u64),
    /// This many bytes went out to the far side.
    Outbound(u64),
    /// The connection was closed.
    CloseConnection,
}

/// One thing that happened on one connection. An event holds no reference
/// to the connection: the number `uuid` stands for it.
#[derive(Debug, Clone, PartialEq, Eq)]
pub struct Event {
    pub uuid: u64,
    pub event_type: EventType,
}

impl Event {
    pub fn new(uuid: u64, event_type: EventType) -> (e: Event)
        ensures
            e == (Event { uuid, event_type }),
    {
        Event { uuid, event_type }
    }
}

/// Events that are delivered together, oldest first.
pub type BatchEvent = Vec<Arc<Event>>;

/// The most events that one batch holds.
pub const BATCH_SIZE: usize = 16;

/// The longest that an event waits for its batch to fill, in milliseconds.
pub const BATCH_WINDOW_MS: u64 = 100;

/// How many batches may wait for one subscriber.
pub const SUBSCRIBER_BACKLOG: usize = 16;

/// `Arc::clone`: a second handle to the same event.
#[verifier::external_body]
fn share(e: &Arc<Event>) -> (r: Arc<Event>)
    ensures
        r == *e,
{
    Arc::clone(e)
}

/// A copy of `batch` that shares its events.
pub fn copy_batch(batch: &BatchEvent) -> (r: BatchEvent)
    ensures
        r@ == batch@,
{
    let mut r: BatchEvent = Vec::new();
    let mut i: usize = 0;
    while i < batch.len()
        invariant
            i <= batch@.len(),
            r@ == batch@.take(i as int),
        decreases batch@.len() - i,
    {
        r.push(share(&batch[i]));
        assert(batch@.take(i as int).push(batch@[i as int]) =~= batch@.take(i + 1));
        i += 1;
    }
    assert(batch@.take(batch@.len() as int) =~= batch@);
    r
}

/// Gathers events into batches. A batch goes out when it is full, or when
/// the caller's window has run out and asks for what is there.
pub struct Batcher {
    pending: Vec<Arc<Event>>,
}

impl View for Batcher {
    type V = Seq<Arc<Event>>;

    /// The events that wait for their batch, oldest first.
    closed spec fn view(&self) -> Seq<Arc<Event>> {
        self.pending@
    }
}

impl Batcher {
    /// A batch that is not out yet is not full.
    pub open spec fn wf(&self) -> bool {
        self@.len() < BATCH_SIZE
    }

    pub fn new() -> (b: Batcher)
        ensures
            b@ == Seq::<Arc<Event>>::empty(),
            b.wf(),
    {
        Batcher { pending: Vec::new() }
    }

    /// How many events wait for their batch.
    pub fn len(&self) -> (n: usize)
        ensures
            n == self@.len(),
    {
        self.pending.len()
    }

    /// Takes in one event. When it fills the batch, the batch goes out:
    /// the events that waited, in their order, and the new one last.
    pub fn push(&mut self, e: Event) -> (out: Option<BatchEvent>)
        requires
            old(self).wf(),
        ensures
            final(self).wf(),
            match out {
                Some(batch) => {
                    &&& old(self)@.len() + 1 == BATCH_SIZE
                    &&& batch@ == old(self)@.push(Arc::new(e))
                    &&& final(self)@ == Seq::<Arc<Event>>::empty()
                },
                None => {
                    &&& old(self)@.len() + 1 < BATCH_SIZE
                    &&& final(self)@ == old(self)@.push(Arc::new(e))
                },
            },
    {
        self.pending.push(Arc::new(e));
        if self.pending.len() >= BATCH_SIZE {
            let mut batch: Vec<Arc<Event>> = Vec::new();
            core::mem::swap(&mut self.pending, &mut batch);
            Some(batch)
        } else {
            None
        }
    }

    /// Hands out what waits, when the window has run out. Nothing goes out
    /// when nothing waits: no batch is empty.
    pub fn flush(&mut self) -> (out: Option<BatchEvent>)
        requires
            old(self).wf(),
        ensures
            final(self).wf(),
            final(self)@ == Seq::<Arc<Event>>::empty(),
            match out {
                Some(batch) => batch@ == old(self)@ && batch@.len() > 0,
                None => old(self)@.len() == 0,
            },
    {
        if self.pending.len() == 0 {
            None
        } else {
            let mut batch: Vec<Arc<Event>> = Vec::new();
            core::mem::swap(&mut self.pending, &mut batch);
            Some(batch)
        }
    }
}

/// One subscriber, mathematically.
pub struct SubscriberView {
    /// Whether batches are still delivered to it.
    pub live: bool,
    /// How many batches had been published when it subscribed.
    pub joined: nat,
    /// The batches that wait for it, oldest first.
    pub queue: Seq<Seq<Arc<Event>>>,
}

/// The fan-out, mathematically.
pub struct BroadcastView {
    /// How many batches may wait for one subscriber.
    pub capacity: nat,
    /// Every batch that was published, in order.
    pub published: Seq<Seq<Arc<Event>>>,
    /// The subscribers, by number.
    pub subscribers: Seq<SubscriberView>,
}

/// Why a subscriber got no batch.
#[derive(Debug, Clone, Copy, PartialEq, Eq, Structural)]
pub enum RecvError {
    /// Nothing waits for it.
    Empty,
    /// It is no longer served: it fell behind, or it unsubscribed.
    Closed,
}

impl SubscriberView {
    /// The place among the published batches of the batch that the
    /// subscriber receives next.
    pub open spec fn cursor(self, published: Seq<Seq<Arc<Event>>>) -> int {
        published.len() - self.queue.len()
    }

    /// What waits for the subscriber are the batches published last, in the
    /// order of publication, and none of them from before it subscribed.
    pub open spec fn in_step(self, published: Seq<Seq<Arc<Event>>>) -> bool {
        &&& self.joined <= self.cursor(published)
        &&& forall|j: int|
            0 <= j < self.queue.len() ==> #[trigger] self.queue[j] == published[self.cursor(
                published,
            ) + j]
    }

    /// The subscriber after `batch` was published to it with room for
    /// `capacity` waiting batches: the batch joins its queue; a subscriber
    /// whose queue is full is dropped instead.
    pub open spec fn offer(self, batch: Seq<Arc<Event>>, capacity: nat) -> SubscriberView {
        if !self.live {
            self
        } else if self.queue.len() >= capacity {
            SubscriberView { live: false, queue: Seq::empty(), ..self }
        } else {
            SubscriberView { queue: self.queue.push(batch), ..self }
        }
    }
}

impl BroadcastView {
    pub open spec fn wf(self) -> bool {
        forall|i: int|
            0 <= i < self.subscribers.len() ==> {
                let s = #[trigger] self.subscribers[i];
                &&& s.queue.len() <= self.capacity
                &&& s.live ==> s.in_step(self.published)
                &&& !s.live ==> s.queue.len() == 0
            }
    }

    /// The fan-out after someone subscribed: the new subscriber has
    /// nothing waiting; its history begins now.
    pub open spec fn subscribe(self) -> BroadcastView {
        BroadcastView {
            subscribers: self.subscribers.push(
                SubscriberView {
                    live: true,
                    joined: self.published.len(),
                    queue: Seq::empty(),
                },
            ),
            ..self
        }
    }

    /// The fan-out after `batch` was published.
    pub open spec fn publish(self, batch: Seq<Arc<Event>>) -> BroadcastView {
        BroadcastView {
            published: self.published.push(batch),
            subscribers: Seq::new(
                self.subscribers.len(),
                |i: int| self.subscribers[i].offer(batch, self.capacity),
            ),
            ..self
        }
    }

    /// What the subscriber `id` gets when it asks for its next batch.
    pub open spec fn recv_result(self, id: int) -> Result<Seq<Arc<Event>>, RecvError> {
        if id < 0 || id >= self.subscribers.len() || !self.subscribers[id].live {
            Err(RecvError::Closed)
        } else if self.subscribers[id].queue.len() == 0 {
            Err(RecvError::Empty)
        } else {
            Ok(self.subscribers[id].queue[0])
        }
    }

    /// The fan-out after the subscriber `id` asked for its next batch.
    pub open spec fn recv(self, id: int) -> BroadcastView {
        if self.recv_result(id) is Ok {
            let s = self.subscribers[id];
            BroadcastView {
                subscribers: self.subscribers.update(
                    id,
                    SubscriberView { queue: s.queue.drop_first(), ..s },
                ),
                ..self
            }
        } else {
            self
        }
    }

    /// The fan-out after the subscriber `id` left.
    pub open spec fn unsubscribe(self, id: int) -> BroadcastView {
        if 0 <= id < self.subscribers.len() {
            BroadcastView {
                subscribers: self.subscribers.update(
                    id,
                    SubscriberView { live: false, queue: Seq::empty(), ..self.subscribers[id] },
                ),
                ..self
            }
        } else {
            self
        }
    }
}

/// A subscriber's handle to the fan-out.
#[derive(Debug)]
pub struct Receiver {
    id: usize,
}

impl Receiver {
    /// The subscriber's number.
    pub closed spec fn spec_id(&self) -> int {
        self.id as int
    }

    pub fn id(&self) -> (r: usize)
        ensures
            r == self.spec_id(),
    {
        self.id
    }
}

struct Subscriber {
    queue: VecDeque<BatchEvent>,
    live: bool,
    joined: Ghost<nat>,
}

impl Subscriber {
    spec fn model(self) -> SubscriberView {
        SubscriberView {
            live: self.live,
            joined: self.joined@,
            queue: self.queue@.map_values(|b: BatchEvent| b@),
        }
    }
}

/// A single-writer fan-out of batches. Every subscriber has a queue of its
/// own; one that lets its queue fill up is dropped, so that it holds up
/// neither the publisher nor the others.
pub struct Broadcast {
    subscribers: Vec<Subscriber>,
    capacity: usize,
    published: Ghost<Seq<Seq<Arc<Event>>>>,
}

impl View for Broadcast {
    type V = BroadcastView;

    closed spec fn view(&self) -> BroadcastView {
        BroadcastView {
            capacity: self.capacity as nat,
            published: self.published@,
            subscribers: self.subscribers@.map_values(|s: Subscriber| s.model()),
        }
    }
}

impl Broadcast {
    /// A fan-out without subscribers, in which `capacity` batches may wait
    /// for each subscriber.
    pub fn new(capacity: usize) -> (b: Broadcast)
        ensures
            b@ == (BroadcastView {
                capacity: capacity as nat,
                published: Seq::empty(),
                subscribers: Seq::empty(),
            }),
            b@.wf(),
    {
        let b = Broadcast { subscribers: Vec::new(), capacity, published: Ghost(Seq::empty()) };
        assert(b@.subscribers =~= Seq::empty());
        b
    }

    /// Adds a subscriber. It is served from the next batch on.
    pub fn subscribe(&mut self) -> (r: Receiver)
        requires
            old(self)@.wf(),
        ensures
            final(self)@.wf(),
            final(self)@ == old(self)@.subscribe(),
            r.spec_id() == old(self)@.subscribers.len(),
    {
        let id = self.subscribers.len();
        let ghost joined = self.published@.len();
        self.subscribers.push(
            Subscriber { queue: VecDeque::new(), live: true, joined: Ghost(joined) },
        );
        proof {
            let fresh = self.subscribers@.last().model();
            assert(fresh.queue =~= Seq::empty());
            assert(self@.subscribers =~= old(self)@.subscribers.push(fresh));
        }
        Receiver { id }
    }

    /// Publishes `batch` to every subscriber that is served. A subscriber
    /// whose queue is full is dropped. The publisher is never held up.
    pub fn publish(&mut self, batch: BatchEvent)
        requires
            old(self)@.wf(),
        ensures
            final(self)@.wf(),
            final(self)@ == old(self)@.publish(batch@),
    {
        let n = self.subscribers.len();
        let mut i: usize = 0;
        proof {
            self.published@ = self.published@.push(batch@);
            assert(self@.subscribers == old(self)@.subscribers);
        }
        while i < n
            invariant
                i <= n,
                n == self.subscribers@.len(),
                n == old(self)@.subscribers.len(),
                self.capacity == old(self).capacity,
                self.published@ == old(self).published@.push(batch@),
                forall|k: int|
                    0 <= k < i ==> #[trigger] self@.subscribers[k] == old(self)@.subscribers[k].offer(
                        batch@,
                        self.capacity as nat,
                    ),
                forall|k: int|
                    i <= k < n ==> #[trigger] self@.subscribers[k] == old(self)@.subscribers[k],
            decreases n - i,
        {
            let ghost before = self@.subscribers;
            if self.subscribers[i].live {
                if self.subscribers[i].queue.len() >= self.capacity {
                    self.subscribers[i].live = false;
                    self.subscribers[i].queue.clear();
                    assert(self@.subscribers[i as int].queue =~= Seq::empty());
                } else {
                    let copy = copy_batch(&batch);
                    let ghost q = self.subscribers[i as int].queue@;
                    self.subscribers[i].queue.push_back(copy);
                    assert(self@.subscribers[i as int].queue =~= before[i as int].queue.push(
                        batch@,
                    )) by {
                        assert(q.push(copy).map_values(|b: BatchEvent| b@) =~= q.map_values(
                            |b: BatchEvent| b@,
                        ).push(copy@));
                    }
                }
            }
            assert(self@.subscribers[i as int] == before[i as int].offer(
                batch@,
                self.capacity as nat,
            ));
            assert forall|k: int| 0 <= k < n && k != i implies #[trigger] self@.subscribers[k]
                == before[k] by {}
            i += 1;
        }
        proof {
            assert(self@.subscribers =~= old(self)@.publish(batch@).subscribers);
            lemma_publish_keeps_wf(old(self)@, batch@);
        }
    }

    /// Hands the subscriber its next batch.
    pub fn recv(&mut self, receiver: &Receiver) -> (r: Result<BatchEvent, RecvError>)
        requires
            old(self)@.wf(),
        ensures
            final(self)@.wf(),
            final(self)@ == old(self)@.recv(receiver.spec_id()),
            match r {
                Ok(batch) => old(self)@.recv_result(receiver.spec_id()) == Ok::<
                    Seq<Arc<Event>>,
                    RecvError,
                >(batch@),
                Err(e) => old(self)@.recv_result(receiver.spec_id()) == Err::<
                    Seq<Arc<Event>>,
                    RecvError,
                >(e),
            },
    {
        let id = receiver.id;
        if id >= self.subscribers.len() {
            return Err(RecvError::Closed);
        }
        if !self.subscribers[id].live {
            return Err(RecvError::Closed);
        }
        let ghost before = self@.subscribers;
        let ghost q = self.subscribers[id as int].queue@;
        match self.subscribers[id].queue.pop_front() {
            Some(batch) => {
                proof {
                    assert(q.subrange(1, q.len() as int).map_values(|b: BatchEvent| b@)
                        =~= q.map_values(|b: BatchEvent| b@).drop_first());
                    assert(self@.subscribers[id as int].queue == before[id as int].queue.drop_first());
                    assert(batch@ == before[id as int].queue[0]);
                }
                proof {
                    assert(self@.subscribers =~= old(self)@.recv(id as int).subscribers);
                    lemma_recv_keeps_wf(old(self)@, id as int);
                }
                Ok(batch)
            },
            None => {
                assert(self@.subscribers =~= before);
                Err(RecvError::Empty)
            },
        }
    }

    /// Takes the subscriber off the list.
    pub fn unsubscribe(&mut self, receiver: Receiver)
        requires
            old(self)@.wf(),
        ensures
            final(self)@.wf(),
            final(self)@ == old(self)@.unsubscribe(receiver.spec_id()),
    {
        let id = receiver.id;
        if id >= self.subscribers.len() {
            return ;
        }
        self.subscribers[id].live = false;
        self.subscribers[id].queue.clear();
        proof {
            assert(self@.subscribers[id as int].queue =~= Seq::empty());
            assert(self@.subscribers =~= old(self)@.unsubscribe(id as int).subscribers);
        }
    }

    /// How many subscribers are served.
    pub fn receiver_count(&self) -> (n: usize)
        ensures
            n == live_count(self@.subscribers),
    {
        let mut n: usize = 0;
        let mut i: usize = 0;
        while i < self.subscribers.len()
            invariant
                i <= self.subscribers@.len(),
                n <= i,
                n == live_count(self@.subscribers.take(i as int)),
            decreases self.subscribers@.len() - i,
        {
            proof {
                let all = self@.subscribers;
                assert(all.take(i + 1).drop_last() =~= all.take(i as int));
            }
            if self.subscribers[i].live {
                n += 1;
            }
            i += 1;
        }
        assert(self@.subscribers.take(self@.subscribers.len() as int) =~= self@.subscribers);
        n
    }
}

/// How many of `subscribers` are served.
pub open spec fn live_count(subscribers: Seq<SubscriberView>) -> nat
    decreases subscribers.len(),
{
    if subscribers.len() == 0 {
        0
    } else {
        live_count(subscribers.drop_last()) + if subscribers.last().live {
            1nat
        } else {
            0nat
        }
    }
}

/// Publishing keeps every served subscriber in step with what was
/// published.
pub proof fn lemma_publish_keeps_wf(v: BroadcastView, batch: Seq<Arc<Event>>)
    requires
        v.wf(),
    ensures
        v.publish(batch).wf(),
{
    let w = v.publish(batch);
    assert forall|i: int| 0 <= i < w.subscribers.len() implies ({
        let s = #[trigger] w.subscribers[i];
        &&& s.queue.len() <= w.capacity
        &&& s.live ==> s.in_step(w.published)
        &&& !s.live ==> s.queue.len() == 0
    }) by {
        let o = v.subscribers[i];
        let s = w.subscribers[i];
        if s.live {
            assert forall|j: int| 0 <= j < s.queue.len() implies #[trigger] s.queue[j]
                == w.published[s.cursor(w.published) + j] by {
                if j < o.queue.len() {
                    assert(s.queue[j] == o.queue[j]);
                }
            }
        }
    }
}

/// Handing out a batch keeps every served subscriber in step.
pub proof fn lemma_recv_keeps_wf(v: BroadcastView, id: int)
    requires
        v.wf(),
    ensures
        v.recv(id).wf(),
{
    let w = v.recv(id);
    if v.recv_result(id) is Ok {
        assert forall|i: int| 0 <= i < w.subscribers.len() implies ({
            let s = #[trigger] w.subscribers[i];
            &&& s.queue.len() <= w.capacity
            &&& s.live ==> s.in_step(w.published)
            &&& !s.live ==> s.queue.len() == 0
        }) by {
            let o = v.subscribers[i];
            let s = w.subscribers[i];
            if i == id {
                assert forall|j: int| 0 <= j < s.queue.len() implies #[trigger] s.queue[j]
                    == w.published[s.cursor(w.published) + j] by {
                    assert(s.queue[j] == o.queue[j + 1]);
                }
            } else {
                assert(s == o);
            }
        }
    }
}

/// What a served subscriber receives is a run of the batches that were
/// published, in the order of publication and with none from before it
/// subscribed: each batch it receives is the one at its cursor, a receive
/// moves the cursor on by one, and a publication leaves it where it is.
pub proof fn lemma_batches_arrive_in_order(v: BroadcastView, id: int, batch: Seq<Arc<Event>>)
    requires
        v.wf(),
        0 <= id < v.subscribers.len(),
        v.subscribers[id].live,
    ensures
        ({
            let s = v.subscribers[id];
            let at = s.cursor(v.published);
            let received = v.recv(id);
            let told = v.publish(batch);
            &&& s.joined <= at <= v.published.len()
            &&& v.recv_result(id) is Ok ==> at < v.published.len() && v.recv_result(id) == Ok::<
                Seq<Arc<Event>>,
                RecvError,
            >(v.published[at])
            &&& v.recv_result(id) is Ok ==> received.subscribers[id].cursor(received.published)
                == at + 1
            &&& v.recv_result(id) is Err ==> v.recv_result(id) == Err::<
                Seq<Arc<Event>>,
                RecvError,
            >(RecvError::Empty) && at == v.published.len() && received == v
            &&& told.subscribers[id].live ==> told.subscribers[id].cursor(told.published) == at
        }),
{
    let s = v.subscribers[id];
    if s.queue.len() > 0 {
        assert(s.queue[0] == v.published[s.cursor(v.published) + 0]);
    }
}

/// A subscriber never sees what was published before it subscribed, and a
/// slow subscriber is dropped alone: publishing changes nothing for a
/// subscriber with room in its queue but the batch that joins it.
pub proof fn lemma_publish_is_per_subscriber(v: BroadcastView, batch: Seq<Arc<Event>>, id: int)
    requires
        v.wf(),
        0 <= id < v.subscribers.len(),
        v.subscribers[id].live,
    ensures
        v.subscribe().subscribers.last().queue.len() == 0,
        v.subscribe().subscribers.last().joined == v.published.len(),
        v.subscribers[id].queue.len() < v.capacity ==> v.publish(batch).subscribers[id].live
            && v.publish(batch).subscribers[id].queue == v.subscribers[id].queue.push(batch),
        v.subscribers[id].queue.len() >= v.capacity ==> !v.publish(batch).subscribers[id].live,
{
}

} // verus!
