//! The subscription to a feed of orders. Each poll cycle fetches a batch,
//! puts the orders that were never seen into the cache and at the end of the
//! delivery buffer, and says whether the consumer is to be woken. The
//! consumer takes orders from the front of the buffer.

use std::collections::VecDeque;
use vstd::prelude::*;
use crate::api::client::Client;
use crate::cache::OrderCache;
use crate::lists::reversed;
use crate::contracts::common::EncodingError;
use crate::order::{Order, OrderView};

verus! {

broadcast use vstd::set::group_set_axioms, vstd::map::group_map_axioms;

/// Where a poll cycle stands.
#[derive(Clone, Copy, Debug, PartialEq, Eq, Structural)]
pub enum PollState {
    /// Between two cycles.
    Idle,
    /// Waiting for the feed's answer.
    Fetching,
    /// The feed answered with no order.
    Empty,
    /// The feed did not answer.
    Errored,
    /// The feed answered with orders, and they were taken in.
    Delivered,
}

/// What happened to the poller.
#[derive(Debug, PartialEq, Eq)]
pub enum PollEvent {
    /// It is time for the next cycle.
    Start,
    /// The feed did not answer, or what it answered could not be read.
    FetchFailed,
    /// The feed answered with these entries: each an order, or the reason
    /// why it could not be read as one.
    Fetched(Vec<Result<Order, EncodingError>>),
    /// The sleep between two cycles is over.
    Slept,
    /// The subscription is to end.
    Cancelled,
}

/// The mathematical value of a `PollEvent`.
pub enum PollEventView {
    Start,
    FetchFailed,
    Fetched(Seq<Result<Order, EncodingError>>),
    Slept,
    Cancelled,
}

impl View for PollEvent {
    type V = PollEventView;

    open spec fn view(&self) -> PollEventView {
        match self {
            PollEvent::Start => PollEventView::Start,
            PollEvent::FetchFailed => PollEventView::FetchFailed,
            PollEvent::Fetched(entries) => PollEventView::Fetched(entries@),
            PollEvent::Slept => PollEventView::Slept,
            PollEvent::Cancelled => PollEventView::Cancelled,
        }
    }
}

/// What the poller is to do next.
#[derive(Clone, Copy, Debug, PartialEq, Eq, Structural)]
pub enum PollAction {
    /// Ask the feed for its orders.
    Fetch,
    /// Wake the consumer if `wake` is set, then sleep for `seconds`.
    Sleep { seconds: u64, wake: bool },
    /// The sleep is over: a new cycle can start.
    Resume,
    /// The event does not belong to the state: nothing has changed.
    Ignore,
    /// The subscription has ended: the poller is to stop.
    Stop,
}

/// What the consumer gets when it asks for the next order.
#[derive(Debug, PartialEq, Eq)]
pub enum Delivery {
    /// The order at the front of the buffer, which it has left.
    Order(Order),
    /// The buffer is empty: the consumer is to wait until it is woken, and
    /// to ask again.
    Wait,
    /// The subscription has ended: no order is handed out any more.
    Closed,
}

/// The mathematical value of a `Delivery`.
pub enum DeliveryView {
    Order(OrderView),
    Wait,
    Closed,
}

impl View for Delivery {
    type V = DeliveryView;

    open spec fn view(&self) -> DeliveryView {
        match self {
            Delivery::Order(order) => DeliveryView::Order(order@),
            Delivery::Wait => DeliveryView::Wait,
            Delivery::Closed => DeliveryView::Closed,
        }
    }
}

/// What the consumer gets from a buffer, and what the buffer is afterwards.
/// A subscription that has ended hands nothing out and leaves the buffer as
/// it is. Else the first order of the buffer is handed out and the rest
/// stays, in its order; an empty buffer asks the consumer to wait.
pub open spec fn delivery(buffer: Seq<OrderView>, cancelled: bool) -> (DeliveryView, Seq<OrderView>) {
    if cancelled {
        (DeliveryView::Closed, buffer)
    } else if buffer.len() == 0 {
        (DeliveryView::Wait, buffer)
    } else {
        (DeliveryView::Order(buffer[0]), buffer.skip(1))
    }
}

/// Whether the consumer is to be woken after a batch: the buffer was empty
/// and no longer is. That is once for a batch, however many orders it added.
pub open spec fn wake_due(before: Seq<OrderView>, after: Seq<OrderView>) -> bool {
    before.len() == 0 && after.len() > 0
}

/// What a poll cycle works on: the cache, the keys that were ever put into
/// the buffer, and the buffer.
pub struct FeedState {
    pub cache: Map<Seq<char>, OrderView>,
    pub seen: Set<Seq<char>>,
    pub buffer: Seq<OrderView>,
}

/// Whether an order with key `key` is new: never put into the buffer, and
/// not in the cache.
pub open spec fn is_new(st: FeedState, key: Seq<char>) -> bool {
    !st.seen.contains(key) && !st.cache.contains_key(key)
}

/// The state after one entry of a batch. An entry that could not be read
/// is dropped. An order that is not new is skipped. A new order is stored
/// in the cache and put at the end of the buffer.
pub open spec fn accept(st: FeedState, entry: Result<Order, EncodingError>) -> FeedState {
    match entry {
        Err(_) => st,
        Ok(order) => {
            let key = order@.inner.key();
            if is_new(st, key) {
                FeedState {
                    cache: st.cache.insert(key, order@),
                    seen: st.seen.insert(key),
                    buffer: st.buffer.push(order@),
                }
            } else {
                st
            }
        },
    }
}

/// The state after a batch: its entries are taken in feed order.
pub open spec fn accept_all(st: FeedState, entries: Seq<Result<Order, EncodingError>>) -> FeedState
    decreases entries.len(),
{
    if entries.len() == 0 {
        st
    } else {
        accept(accept_all(st, entries.drop_last()), entries.last())
    }
}

/// The values of the orders of a buffer.
pub open spec fn order_views(orders: Seq<Order>) -> Seq<OrderView> {
    Seq::new(orders.len(), |i: int| orders[i]@)
}

/// The state of a poller after an event, whether the subscription has
/// ended, and what the poller is to do. A subscription that has ended stays
/// ended, and the request to end it is taken in every state.
pub open spec fn transition(
    state: PollState,
    cancelled: bool,
    event: PollEventView,
    seconds: u64,
    wake: bool,
) -> (PollState, bool, PollAction) {
    if cancelled || event is Cancelled {
        (state, true, PollAction::Stop)
    } else {
        match (state, event) {
            (PollState::Idle, PollEventView::Start) => (PollState::Fetching, false, PollAction::Fetch),
            (PollState::Fetching, PollEventView::FetchFailed) => (
                PollState::Errored,
                false,
                PollAction::Sleep { seconds, wake: false },
            ),
            (PollState::Fetching, PollEventView::Fetched(entries)) => if entries.len() == 0 {
                (PollState::Empty, false, PollAction::Sleep { seconds, wake: false })
            } else {
                (PollState::Delivered, false, PollAction::Sleep { seconds, wake })
            },
            (PollState::Empty, PollEventView::Slept) => (PollState::Idle, false, PollAction::Resume),
            (PollState::Errored, PollEventView::Slept) => (PollState::Idle, false, PollAction::Resume),
            (PollState::Delivered, PollEventView::Slept) => (
                PollState::Idle,
                false,
                PollAction::Resume,
            ),
            _ => (state, false, PollAction::Ignore),
        }
    }
}

/// What a poll cycle has taken in after an event: the batch that the feed
/// answered with while the poller waited for it, unless the subscription
/// has ended.
pub open spec fn taken_in(
    before: FeedState,
    state: PollState,
    cancelled: bool,
    event: PollEventView,
) -> FeedState {
    if cancelled {
        before
    } else {
        match (state, event) {
            (PollState::Fetching, PollEventView::Fetched(entries)) => accept_all(before, entries),
            _ => before,
        }
    }
}

/// Whether a poller that waited for the feed's answer got from `before` to
/// `after`, to `state` and to `action` by `event`: the event is the feed's
/// answer or its failure, and the rest is as that event asks.
pub open spec fn fetch_outcome(
    before: FeedState,
    after: FeedState,
    state: PollState,
    action: PollAction,
    seconds: u64,
    event: PollEventView,
) -> bool {
    &&& (event is FetchFailed || event is Fetched)
    &&& after == taken_in(before, PollState::Fetching, false, event)
    &&& (state, false, action) == transition(
        PollState::Fetching,
        false,
        event,
        seconds,
        wake_due(before.buffer, after.buffer),
    )
}

/// Orders as the entries of a batch: each of them readable, in their
/// order.
pub open spec fn ok_entries(orders: Seq<Order>) -> Seq<Result<Order, EncodingError>> {
    Seq::new(orders.len(), |i: int| Ok(orders[i]))
}

/// What the answer of a feed is to the poller: a fetch that failed, or the
/// batch that the orders make.
pub open spec fn answer_event<E>(answer: Result<Vec<Order>, E>) -> PollEventView {
    match answer {
        Err(_) => PollEventView::FetchFailed,
        Ok(orders) => PollEventView::Fetched(ok_entries(orders@)),
    }
}

/// Makes the entries of a batch of orders: each of them readable, in their
/// order.
pub fn as_entries(orders: Vec<Order>) -> (entries: Vec<Result<Order, EncodingError>>)
    ensures
        entries@ == ok_entries(orders@),
{
    let ghost all = orders@;
    let mut rest = reversed(orders);
    let mut entries: Vec<Result<Order, EncodingError>> = Vec::new();
    while rest.len() > 0
        invariant
            entries@.len() + rest@.len() == all.len(),
            forall|j: int| 0 <= j < rest@.len() ==> rest@[j] == all[all.len() - 1 - j],
            forall|i: int| 0 <= i < entries@.len() ==> entries@[i] == Ok::<Order, EncodingError>(all[i]),
        decreases rest@.len(),
    {
        let order = rest.pop().unwrap();
        entries.push(Ok(order));
    }
    assert(entries@ =~= ok_entries(all));
    entries
}

/// Whether `model` is the set of the texts of `keys`.
pub open spec fn keys_are(keys: Seq<String>, model: Set<Seq<char>>) -> bool {
    &&& forall|i: int| 0 <= i < keys.len() ==> model.contains((#[trigger] keys[i])@)
    &&& forall|k: Seq<char>| #[trigger]
        model.contains(k) ==> exists|i: int| 0 <= i < keys.len() && (#[trigger] keys[i])@ == k
}

/// A subscription to a feed of orders.
pub struct OrderSubscriber {
    buf: VecDeque<Order>,
    seen: Vec<String>,
    seen_model: Ghost<Set<Seq<char>>>,
    state: PollState,
    cancelled: bool,
    poll_interval: u64,
}

impl OrderSubscriber {
    /// The invariant of the subscription: it knows the keys that it has
    /// seen.
    pub closed spec fn wf(&self) -> bool {
        keys_are(self.seen@, self.seen_model@)
    }

    /// The orders that wait for the consumer, the next one first.
    pub closed spec fn buffer(&self) -> Seq<OrderView> {
        order_views(self.buf@)
    }

    /// The keys of the orders that were ever put into the buffer.
    pub closed spec fn seen(&self) -> Set<Seq<char>> {
        self.seen_model@
    }

    /// Where the poll cycle stands.
    pub closed spec fn state(&self) -> PollState {
        self.state
    }

    /// Whether the subscription has ended.
    pub closed spec fn is_cancelled(&self) -> bool {
        self.cancelled
    }

    /// The seconds to sleep between two cycles.
    pub closed spec fn poll_interval(&self) -> u64 {
        self.poll_interval
    }

    /// What a poll cycle works on, with the cache as `cache`.
    pub open spec fn feed_state(&self, cache: Map<Seq<char>, OrderView>) -> FeedState {
        FeedState { cache, seen: self.seen(), buffer: self.buffer() }
    }

    /// A subscription that has seen no order yet, between two cycles.
    pub fn new(poll_interval: u64) -> (sub: OrderSubscriber)
        ensures
            sub.wf(),
            sub.buffer() == Seq::<OrderView>::empty(),
            sub.seen() == Set::<Seq<char>>::empty(),
            sub.state() == PollState::Idle,
            !sub.is_cancelled(),
            sub.poll_interval() == poll_interval,
    {
        let sub = OrderSubscriber {
            buf: VecDeque::new(),
            seen: Vec::new(),
            seen_model: Ghost(Set::empty()),
            state: PollState::Idle,
            cancelled: false,
            poll_interval,
        };
        assert(sub.buffer() =~= Seq::<OrderView>::empty());
        sub
    }

    /// Whether an order with this key was ever put into the buffer.
    pub fn has_seen(&self, key: &String) -> (found: bool)
        requires
            self.wf(),
        ensures
            found == self.seen().contains(key@),
    {
        let mut i: usize = 0;
        while i < self.seen.len()
            invariant
                self.wf(),
                i <= self.seen@.len(),
                forall|j: int| 0 <= j < i ==> (#[trigger] self.seen@[j])@ != key@,
            decreases self.seen@.len() - i,
        {
            if self.seen[i] == *key {
                return true;
            }
            i += 1;
        }
        false
    }

    /// The number of orders that wait for the consumer.
    pub fn pending(&self) -> (n: usize)
        ensures
            n == self.buffer().len(),
    {
        self.buf.len()
    }

    /// Takes one entry of a batch in.
    fn take_in(&mut self, cache: &mut OrderCache, entry: Result<Order, EncodingError>)
        requires
            old(self).wf(),
            old(cache).wf(),
        ensures
            final(self).wf(),
            final(cache).wf(),
            final(self).feed_state(final(cache)@) == accept(old(self).feed_state(old(cache)@), entry),
            final(self).state() == old(self).state(),
            final(self).is_cancelled() == old(self).is_cancelled(),
            final(self).poll_interval() == old(self).poll_interval(),
    {
        match entry {
            Err(_) => {},
            Ok(order) => {
                let key = order.key();
                if !self.has_seen(&key) && !cache.contains(&key) {
                    let ghost before = self.buf@;
                    let ghost seen_before = self.seen@;
                    cache.insert(key.clone(), order.clone());
                    self.seen.push(key);
                    proof {
                        let ghost m = self.seen_model@;
                        self.seen_model = Ghost(m.insert(key@));
                    }
                    self.buf.push_back(order);
                    proof {
                        assert(order_views(self.buf@) =~= order_views(before).push(order@));
                        assert forall|k: Seq<char>| #[trigger]
                            self.seen_model@.contains(k) implies exists|i: int|
                            0 <= i < self.seen@.len() && (#[trigger] self.seen@[i])@ == k by {
                            if k == key@ {
                                assert(self.seen@[seen_before.len() as int]@ == k);
                            } else {
                                let i = choose|i: int|
                                    0 <= i < seen_before.len() && (#[trigger] seen_before[i])@
                                        == k;
                                assert(self.seen@[i]@ == k);
                            }
                        }
                    }
                }
            },
        }
    }

    /// One batch of the feed: takes its entries in, in feed order. An entry
    /// that could not be read is dropped, an order that is not new is
    /// skipped, a new order is stored in the cache and put at the end of the
    /// buffer. The result says whether the consumer is to be woken: once,
    /// when the buffer was empty and no longer is.
    pub fn fill_buf(
        &mut self,
        cache: &mut OrderCache,
        entries: Vec<Result<Order, EncodingError>>,
    ) -> (wake: bool)
        requires
            old(self).wf(),
            old(cache).wf(),
        ensures
            final(self).wf(),
            final(cache).wf(),
            final(self).feed_state(final(cache)@) == accept_all(
                old(self).feed_state(old(cache)@),
                entries@,
            ),
            wake == wake_due(old(self).buffer(), final(self).buffer()),
            final(self).state() == old(self).state(),
            final(self).is_cancelled() == old(self).is_cancelled(),
            final(self).poll_interval() == old(self).poll_interval(),
    {
        let was_empty: bool = self.buf.len() == 0;
        let ghost all = entries@;
        let count: usize = entries.len();
        let mut rest = reversed(entries);
        let mut done: usize = 0;
        proof {
            assert(all.take(0) =~= Seq::empty());
        }
        while rest.len() > 0
            invariant
                self.wf(),
                cache.wf(),
                count == all.len(),
                done + rest@.len() == all.len(),
                forall|j: int| 0 <= j < rest@.len() ==> rest@[j] == all[all.len() - 1 - j],
                self.feed_state(cache@) == accept_all(
                    old(self).feed_state(old(cache)@),
                    all.take(done as int),
                ),
                self.state() == old(self).state(),
                self.is_cancelled() == old(self).is_cancelled(),
                self.poll_interval() == old(self).poll_interval(),
            decreases rest@.len(),
        {
            let entry = rest.pop().unwrap();
            proof {
                assert(all.take(done + 1).drop_last() =~= all.take(done as int));
                assert(all.take(done + 1).last() == entry);
            }
            self.take_in(cache, entry);
            done += 1;
        }
        assert(all.take(done as int) =~= all);
        was_empty && self.buf.len() > 0
    }

    /// Hands the next order to the consumer: the order at the front of the
    /// buffer, which leaves the buffer. When the buffer is empty the consumer
    /// is to wait until it is woken, and to ask again: it is woken once for
    /// all the orders of a batch, and goes on asking while orders come. When
    /// the subscription has ended, no order is handed out, whatever the
    /// buffer holds.
    pub fn read_buf(&mut self) -> (next: Delivery)
        requires
            old(self).wf(),
        ensures
            final(self).wf(),
            final(self).seen() == old(self).seen(),
            final(self).state() == old(self).state(),
            final(self).is_cancelled() == old(self).is_cancelled(),
            final(self).poll_interval() == old(self).poll_interval(),
            (next@, final(self).buffer()) == delivery(old(self).buffer(), old(self).is_cancelled()),
    {
        if self.cancelled {
            return Delivery::Closed;
        }
        let ghost before = self.buf@;
        let next = self.buf.pop_front();
        proof {
            assert(self.seen@ == old(self).seen@);
            assert(self.seen_model@ == old(self).seen_model@);
            assert forall|k: Seq<char>| #[trigger]
                self.seen_model@.contains(k) implies exists|i: int|
                0 <= i < self.seen@.len() && (#[trigger] self.seen@[i])@ == k by {
                let i = choose|i: int|
                    0 <= i < old(self).seen@.len() && (#[trigger] old(self).seen@[i])@ == k;
                assert(self.seen@[i]@ == k);
            }
            if before.len() > 0 {
                assert(order_views(self.buf@) =~= order_views(before).skip(1));
            } else {
                assert(order_views(self.buf@) =~= order_views(before));
            }
        }
        match next {
            Some(order) => Delivery::Order(order),
            None => Delivery::Wait,
        }
    }

    /// Takes the answer of the feed in, while the poller waits for it: a
    /// failure as a fetch that failed, orders as the batch that they make,
    /// each of them readable, in their order.
    pub fn take_answer<E>(&mut self, cache: &mut OrderCache, answer: Result<Vec<Order>, E>) -> (action:
        PollAction)
        requires
            old(self).wf(),
            old(cache).wf(),
        ensures
            final(self).wf(),
            final(cache).wf(),
            final(self).poll_interval() == old(self).poll_interval(),
            final(self).feed_state(final(cache)@) == taken_in(
                old(self).feed_state(old(cache)@),
                old(self).state(),
                old(self).is_cancelled(),
                answer_event(answer),
            ),
            (final(self).state(), final(self).is_cancelled(), action) == transition(
                old(self).state(),
                old(self).is_cancelled(),
                answer_event(answer),
                old(self).poll_interval(),
                wake_due(old(self).buffer(), final(self).buffer()),
            ),
    {
        let event = match answer {
            Err(_) => PollEvent::FetchFailed,
            Ok(orders) => PollEvent::Fetched(as_entries(orders)),
        };
        self.step(cache, event)
    }

    /// One whole poll cycle with a feed that answers at once: asks the
    /// feed, and takes its answer in as `take_answer` does. What the feed
    /// answers is not known in advance: the cycle goes as `take_answer` says
    /// for some answer that the feed may give. Outside the idle state
    /// nothing happens, and a subscription that has ended says so.
    pub fn poll_once<C: Client<Order>>(&mut self, cache: &mut OrderCache, client: &C) -> (action:
        PollAction)
        requires
            old(self).wf(),
            old(cache).wf(),
        ensures
            final(self).wf(),
            final(cache).wf(),
            final(self).poll_interval() == old(self).poll_interval(),
            final(self).is_cancelled() == old(self).is_cancelled(),
            old(self).is_cancelled() || old(self).state() != PollState::Idle ==> {
                &&& action == if old(self).is_cancelled() {
                    PollAction::Stop
                } else {
                    PollAction::Ignore
                }
                &&& final(self).state() == old(self).state()
                &&& final(self).feed_state(final(cache)@) == old(self).feed_state(old(cache)@)
            },
            !old(self).is_cancelled() && old(self).state() == PollState::Idle ==> exists|
                answer: Result<Vec<Order>, C::ClientError>,
            |
                call_ensures(C::firehose, (client,), answer) && #[trigger] fetch_outcome(
                    old(self).feed_state(old(cache)@),
                    final(self).feed_state(final(cache)@),
                    final(self).state(),
                    action,
                    old(self).poll_interval(),
                    answer_event(answer),
                ),
    {
        match self.step(cache, PollEvent::Start) {
            PollAction::Fetch => {},
            other => {
                return other;
            },
        }
        let answer = client.firehose();
        let ghost answered = answer;
        let action = self.take_answer(cache, answer);
        proof {
            assert(call_ensures(C::firehose, (client,), answered));
            assert(fetch_outcome(
                old(self).feed_state(old(cache)@),
                self.feed_state(cache@),
                self.state(),
                action,
                old(self).poll_interval(),
                answer_event(answered),
            ));
        }
        action
    }

    /// Moves the poll cycle on by one event, and says what the poller is to
    /// do next. A batch that the feed answered with is taken in as
    /// `fill_buf` does. The request to end the subscription is taken in
    /// every state, and after it nothing is taken in any more.
    pub fn step(&mut self, cache: &mut OrderCache, event: PollEvent) -> (action: PollAction)
        requires
            old(self).wf(),
            old(cache).wf(),
        ensures
            final(self).wf(),
            final(cache).wf(),
            final(self).poll_interval() == old(self).poll_interval(),
            final(self).feed_state(final(cache)@) == taken_in(
                old(self).feed_state(old(cache)@),
                old(self).state(),
                old(self).is_cancelled(),
                event@,
            ),
            (final(self).state(), final(self).is_cancelled(), action) == transition(
                old(self).state(),
                old(self).is_cancelled(),
                event@,
                old(self).poll_interval(),
                wake_due(old(self).buffer(), final(self).buffer()),
            ),
    {
        if self.cancelled {
            return PollAction::Stop;
        }
        let seconds: u64 = self.poll_interval;
        match (self.state, event) {
            (_, PollEvent::Cancelled) => {
                self.cancelled = true;
                PollAction::Stop
            },
            (PollState::Idle, PollEvent::Start) => {
                self.state = PollState::Fetching;
                PollAction::Fetch
            },
            (PollState::Fetching, PollEvent::FetchFailed) => {
                self.state = PollState::Errored;
                PollAction::Sleep { seconds, wake: false }
            },
            (PollState::Fetching, PollEvent::Fetched(entries)) => {
                if entries.len() == 0 {
                    self.state = PollState::Empty;
                    PollAction::Sleep { seconds, wake: false }
                } else {
                    let wake = self.fill_buf(cache, entries);
                    self.state = PollState::Delivered;
                    PollAction::Sleep { seconds, wake }
                }
            },
            (PollState::Empty, PollEvent::Slept) => {
                self.state = PollState::Idle;
                PollAction::Resume
            },
            (PollState::Errored, PollEvent::Slept) => {
                self.state = PollState::Idle;
                PollAction::Resume
            },
            (PollState::Delivered, PollEvent::Slept) => {
                self.state = PollState::Idle;
                PollAction::Resume
            },
            _ => PollAction::Ignore,
        }
    }

    /// Whether the subscription has ended.
    pub fn cancelled(&self) -> (ended: bool)
        ensures
            ended == self.is_cancelled(),
    {
        self.cancelled
    }
}

/// Two batches one after the other are taken in as one batch that holds the
/// entries of both.
pub proof fn lemma_batches_compose(
    st: FeedState,
    first: Seq<Result<Order, EncodingError>>,
    second: Seq<Result<Order, EncodingError>>,
)
    ensures
        accept_all(st, first + second) == accept_all(accept_all(st, first), second),
    decreases second.len(),
{
    if second.len() == 0 {
        assert(first + second =~= first);
    } else {
        lemma_batches_compose(st, first, second.drop_last());
        assert((first + second).drop_last() =~= first + second.drop_last());
        assert((first + second).last() == second.last());
    }
}

/// What a batch does to the buffer, the cache and the seen keys. The buffer
/// grows at its end only. Each order that the batch adds was new: its key
/// was neither seen nor in the cache before the batch. Afterwards its key is
/// seen, and the cache holds the order under it. No two orders that the
/// batch adds have the same key. What was seen stays seen, and what the
/// cache held it still holds.
pub proof fn lemma_batch_adds_new_orders_once(
    st: FeedState,
    entries: Seq<Result<Order, EncodingError>>,
)
    ensures
        ({
            let after = accept_all(st, entries);
            &&& st.buffer.len() <= after.buffer.len()
            &&& after.buffer.take(st.buffer.len() as int) == st.buffer
            &&& st.seen.subset_of(after.seen)
            &&& forall|k: Seq<char>| #[trigger]
                st.cache.contains_key(k) ==> after.cache.contains_key(k) && after.cache[k]
                    == st.cache[k]
            &&& forall|j: int|
                st.buffer.len() <= j < after.buffer.len() ==> {
                    let key = (#[trigger] after.buffer[j]).inner.key();
                    &&& is_new(st, key)
                    &&& after.seen.contains(key)
                    &&& after.cache.contains_key(key)
                    &&& after.cache[key] == after.buffer[j]
                }
            &&& forall|i: int, j: int|
                st.buffer.len() <= i < j < after.buffer.len() ==> (#[trigger] after.buffer[i]).inner.key()
                    != (#[trigger] after.buffer[j]).inner.key()
        }),
    decreases entries.len(),
{
    if entries.len() == 0 {
        assert(st.buffer.take(st.buffer.len() as int) =~= st.buffer);
    } else {
        let mid = accept_all(st, entries.drop_last());
        let after = accept_all(st, entries);
        lemma_batch_adds_new_orders_once(st, entries.drop_last());
        assert(after == accept(mid, entries.last()));
        assert(after.buffer.take(st.buffer.len() as int) =~= mid.buffer.take(
            st.buffer.len() as int,
        ));
        assert forall|j: int| st.buffer.len() <= j < after.buffer.len() implies {
            let key = (#[trigger] after.buffer[j]).inner.key();
            &&& is_new(st, key)
            &&& after.seen.contains(key)
            &&& after.cache.contains_key(key)
            &&& after.cache[key] == after.buffer[j]
        } by {
            if j < mid.buffer.len() {
                assert(after.buffer[j] == mid.buffer[j]);
                let key = mid.buffer[j].inner.key();
                assert(mid.seen.contains(key));
            }
        }
        assert forall|i: int, j: int|
            st.buffer.len() <= i < j < after.buffer.len() implies (#[trigger] after.buffer[i]).inner.key()
            != (#[trigger] after.buffer[j]).inner.key() by {
            assert(after.buffer[i] == mid.buffer[i]);
            if j < mid.buffer.len() {
                assert(after.buffer[j] == mid.buffer[j]);
            } else {
                assert(mid.seen.contains(mid.buffer[i].inner.key()));
            }
        }
    }
}

/// A batch of readable orders that are new and differ in their keys is put
/// at the end of the buffer as it is, in feed order.
pub proof fn lemma_new_batch_is_appended_in_order(
    st: FeedState,
    entries: Seq<Result<Order, EncodingError>>,
)
    requires
        forall|i: int| 0 <= i < entries.len() ==> (#[trigger] entries[i]) is Ok,
        forall|i: int|
            0 <= i < entries.len() ==> is_new(st, (#[trigger] entries[i])->Ok_0@.inner.key()),
        forall|i: int, j: int|
            0 <= i < j < entries.len() ==> (#[trigger] entries[i])->Ok_0@.inner.key() != (
            #[trigger] entries[j])->Ok_0@.inner.key(),
    ensures
        accept_all(st, entries).buffer == st.buffer + Seq::new(
            entries.len(),
            |i: int| entries[i]->Ok_0@,
        ),
        forall|k: Seq<char>|
            accept_all(st, entries).seen.contains(k) <==> st.seen.contains(k) || exists|i: int|
                0 <= i < entries.len() && (#[trigger] entries[i])->Ok_0@.inner.key() == k,
    decreases entries.len(),
{
    let after = accept_all(st, entries);
    let added = Seq::new(entries.len(), |i: int| entries[i]->Ok_0@);
    if entries.len() == 0 {
        assert(after.buffer =~= st.buffer + added);
    } else {
        let front = entries.drop_last();
        let mid = accept_all(st, front);
        assert forall|i: int| 0 <= i < front.len() implies (#[trigger] front[i]) is Ok by {
            assert(front[i] == entries[i]);
        }
        assert forall|i: int| 0 <= i < front.len() implies is_new(
            st,
            (#[trigger] front[i])->Ok_0@.inner.key(),
        ) by {
            assert(front[i] == entries[i]);
        }
        assert forall|i: int, j: int| 0 <= i < j < front.len() implies (#[trigger] front[i])->Ok_0@.inner.key()
            != (#[trigger] front[j])->Ok_0@.inner.key() by {
            assert(front[i] == entries[i]);
            assert(front[j] == entries[j]);
        }
        lemma_new_batch_is_appended_in_order(st, front);
        lemma_batch_adds_new_orders_once(st, front);
        let last = entries.last();
        assert(last == entries[entries.len() - 1]);
        let key = last->Ok_0@.inner.key();
        assert(!mid.seen.contains(key)) by {
            if mid.seen.contains(key) {
                let i = choose|i: int|
                    0 <= i < front.len() && (#[trigger] front[i])->Ok_0@.inner.key() == key;
                assert(front[i] == entries[i]);
            }
        }
        assert(!mid.cache.contains_key(key)) by {
            if mid.cache.contains_key(key) {
                lemma_cache_keys_are_old_or_seen(st, front, key);
            }
        }
        assert(after.buffer =~= st.buffer + added);
        assert forall|k: Seq<char>|
            after.seen.contains(k) <==> st.seen.contains(k) || exists|i: int|
                0 <= i < entries.len() && (#[trigger] entries[i])->Ok_0@.inner.key() == k by {
            if k == key {
                assert(entries[entries.len() - 1]->Ok_0@.inner.key() == k);
            }
            if mid.seen.contains(k) && !st.seen.contains(k) {
                let i = choose|i: int|
                    0 <= i < front.len() && (#[trigger] front[i])->Ok_0@.inner.key() == k;
                assert(entries[i]->Ok_0@.inner.key() == k);
            }
            if exists|i: int|
                0 <= i < entries.len() && (#[trigger] entries[i])->Ok_0@.inner.key() == k {
                let i = choose|i: int|
                    0 <= i < entries.len() && (#[trigger] entries[i])->Ok_0@.inner.key() == k;
                if i < front.len() {
                    assert(front[i]->Ok_0@.inner.key() == k);
                }
            }
        }
    }
}

/// A key that the cache holds after a batch was in the cache before, or the
/// batch has seen it.
pub proof fn lemma_cache_keys_are_old_or_seen(
    st: FeedState,
    entries: Seq<Result<Order, EncodingError>>,
    key: Seq<char>,
)
    requires
        accept_all(st, entries).cache.contains_key(key),
    ensures
        st.cache.contains_key(key) || accept_all(st, entries).seen.contains(key),
    decreases entries.len(),
{
    if entries.len() > 0 {
        let mid = accept_all(st, entries.drop_last());
        if mid.cache.contains_key(key) {
            lemma_cache_keys_are_old_or_seen(st, entries.drop_last(), key);
        }
    }
}

/// While the subscription has not ended, the consumer gets the order at the
/// front of a buffer that is not empty, and the rest of the buffer stays, in
/// its order.
pub proof fn lemma_front_is_handed_out(front: OrderView, rest: Seq<OrderView>)
    ensures
        delivery(seq![front] + rest, false) == (DeliveryView::Order(front), rest),
{
    assert((seq![front] + rest).skip(1) =~= rest);
}

/// A batch of two orders that are new and differ in their keys, taken into
/// an empty buffer, makes the buffer those two orders, and the consumer is
/// to be woken for them: once, since one batch gives one answer. The
/// consumer then gets the first and the second without being asked to wait
/// between them, and is asked to wait after them.
pub proof fn lemma_one_wake_for_two_orders(st: FeedState, first: Order, second: Order)
    requires
        st.buffer.len() == 0,
        is_new(st, first@.inner.key()),
        is_new(st, second@.inner.key()),
        first@.inner.key() != second@.inner.key(),
    ensures
        ({
            let batch = seq![
                Ok::<Order, EncodingError>(first),
                Ok::<Order, EncodingError>(second),
            ];
            let after = accept_all(st, batch);
            &&& after.buffer == seq![first@, second@]
            &&& wake_due(st.buffer, after.buffer)
            &&& delivery(after.buffer, false) == (DeliveryView::Order(first@), seq![second@])
            &&& delivery(seq![second@], false) == (
                DeliveryView::Order(second@),
                Seq::<OrderView>::empty(),
            )
            &&& delivery(Seq::<OrderView>::empty(), false).0 == DeliveryView::Wait
        }),
{
    let batch = seq![Ok::<Order, EncodingError>(first), Ok::<Order, EncodingError>(second)];
    lemma_new_batch_is_appended_in_order(st, batch);
    let after = accept_all(st, batch);
    assert(after.buffer =~= seq![first@, second@]);
    assert(seq![first@, second@].skip(1) =~= seq![second@]);
    assert(seq![second@].skip(1) =~= Seq::<OrderView>::empty());
}

} // verus!
