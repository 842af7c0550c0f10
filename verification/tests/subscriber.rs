use uniswapx_sdk::api::client::Client;
use uniswapx_sdk::cache::OrderCache;
use uniswapx_sdk::contracts::common::{EncodingError, InputToken, OrderInfo, OutputToken, ResolvedOrder};
use uniswapx_sdk::contracts::limit::LimitOrder;
use uniswapx_sdk::order::{Order, OrderInner};
use uniswapx_sdk::primitives::{Address, U256};
use uniswapx_sdk::lists::reversed;
use uniswapx_sdk::subscriber::{as_entries, Delivery, OrderSubscriber, PollAction, PollEvent};
use uniswapx_sdk::validation::OracleError;

fn order_signed(nonce: u64, sig: &str) -> Order {
    let info = OrderInfo {
        reactor: Address { bytes: [1; 20] },
        swapper: Address { bytes: [2; 20] },
        nonce: U256::from_u64(nonce),
        deadline: U256::from_u64(1700000000),
        additional_validation_contract: Address { bytes: [0; 20] },
        additional_validation_data: Vec::new(),
    };
    let inner = LimitOrder {
        info,
        input: InputToken {
            token: Address { bytes: [3; 20] },
            amount: U256::from_u64(10),
            max_amount: U256::from_u64(10),
        },
        outputs: vec![OutputToken {
            token: Address { bytes: [4; 20] },
            amount: U256::from_u64(9),
            recipient: Address { bytes: [2; 20] },
        }],
    };
    Order::new(OrderInner::Limit(inner), sig.to_string())
}

fn order(nonce: u64) -> Order {
    order_signed(nonce, "0x00")
}

fn batch(nonces: &[u64]) -> Vec<Result<Order, EncodingError>> {
    nonces.iter().map(|n| Ok(order(*n))).collect()
}

fn drain(sub: &mut OrderSubscriber) -> Vec<Order> {
    let mut out = Vec::new();
    while let Delivery::Order(next) = sub.read_buf() {
        out.push(next);
    }
    out
}

struct Feed {
    answer: Result<Vec<Order>, String>,
}

impl Client<Order> for Feed {
    type ClientError = String;

    fn firehose(&self) -> Result<Vec<Order>, String> {
        self.answer.clone()
    }
}

#[test]
fn orders_are_delivered_in_feed_order_over_two_cycles() {
    let mut cache = OrderCache::new();
    let mut sub = OrderSubscriber::new(5);
    sub.fill_buf(&mut cache, batch(&[1, 2]));
    sub.fill_buf(&mut cache, batch(&[3]));
    assert_eq!(drain(&mut sub), vec![order(1), order(2), order(3)]);
}

#[test]
fn an_order_of_two_cycles_is_delivered_once() {
    let mut cache = OrderCache::new();
    let mut sub = OrderSubscriber::new(5);
    sub.fill_buf(&mut cache, batch(&[1]));
    sub.fill_buf(&mut cache, batch(&[1, 2]));
    assert_eq!(drain(&mut sub), vec![order(1), order(2)]);
}

#[test]
fn an_order_delivered_before_the_next_cycle_is_not_delivered_again() {
    let mut cache = OrderCache::new();
    let mut sub = OrderSubscriber::new(5);
    sub.fill_buf(&mut cache, batch(&[1]));
    assert_eq!(drain(&mut sub), vec![order(1)]);
    let wake = sub.fill_buf(&mut cache, batch(&[1, 2]));
    assert!(wake);
    assert_eq!(drain(&mut sub), vec![order(2)]);
}

#[test]
fn an_order_twice_in_one_batch_is_delivered_once() {
    let mut cache = OrderCache::new();
    let mut sub = OrderSubscriber::new(5);
    sub.fill_buf(&mut cache, batch(&[1, 1, 2, 1]));
    assert_eq!(drain(&mut sub), vec![order(1), order(2)]);
    assert_eq!(cache.len(), 2);
}

#[test]
fn another_signature_makes_no_other_order() {
    let mut cache = OrderCache::new();
    let mut sub = OrderSubscriber::new(5);
    sub.fill_buf(&mut cache, vec![Ok(order_signed(1, "0xaa")), Ok(order_signed(1, "0xbb"))]);
    assert_eq!(drain(&mut sub), vec![order_signed(1, "0xaa")]);
    assert_eq!(cache.get(&order(1).key()), Some(&order_signed(1, "0xaa")));
}

#[test]
fn one_wake_for_a_buffer_that_was_empty() {
    let mut cache = OrderCache::new();
    let mut sub = OrderSubscriber::new(5);
    let wake = sub.fill_buf(&mut cache, batch(&[1, 2]));
    assert!(wake);
    assert_eq!(sub.pending(), 2);
    // The consumer takes both without waiting between them.
    assert_eq!(sub.read_buf(), Delivery::Order(order(1)));
    assert_eq!(sub.read_buf(), Delivery::Order(order(2)));
    assert_eq!(sub.read_buf(), Delivery::Wait);
}

#[test]
fn no_wake_for_a_buffer_that_was_not_empty() {
    let mut cache = OrderCache::new();
    let mut sub = OrderSubscriber::new(5);
    assert!(sub.fill_buf(&mut cache, batch(&[1])));
    assert!(!sub.fill_buf(&mut cache, batch(&[2, 3])));
    assert_eq!(sub.pending(), 3);
}

#[test]
fn no_wake_when_nothing_was_added() {
    let mut cache = OrderCache::new();
    let mut sub = OrderSubscriber::new(5);
    assert!(!sub.fill_buf(&mut cache, Vec::new()));
    assert!(sub.fill_buf(&mut cache, batch(&[1])));
    drain(&mut sub);
    assert!(!sub.fill_buf(&mut cache, batch(&[1])));
    assert!(!sub.fill_buf(&mut cache, vec![Err(EncodingError::Malformed)]));
    assert_eq!(sub.pending(), 0);
    assert_eq!(sub.read_buf(), Delivery::Wait);
}

#[test]
fn an_entry_that_could_not_be_read_is_dropped_and_the_rest_is_taken() {
    let mut cache = OrderCache::new();
    let mut sub = OrderSubscriber::new(5);
    let wake = sub.fill_buf(
        &mut cache,
        vec![
            Ok(order(1)),
            Err(EncodingError::Malformed),
            Ok(order(2)),
            Err(EncodingError::InvalidHex),
        ],
    );
    assert!(wake);
    assert_eq!(drain(&mut sub), vec![order(1), order(2)]);
    assert_eq!(cache.len(), 2);
}

#[test]
fn after_one_cycle_the_cache_holds_the_order_and_the_consumer_gets_it() {
    let mut cache = OrderCache::new();
    let mut sub = OrderSubscriber::new(5);
    let h = order(1).key();
    assert_eq!(sub.step(&mut cache, PollEvent::Start), PollAction::Fetch);
    let action = sub.step(&mut cache, PollEvent::Fetched(batch(&[1])));
    assert_eq!(action, PollAction::Sleep { seconds: 5, wake: true });
    assert!(cache.contains(&h));
    assert_eq!(cache.get(&h), Some(&order(1)));
    assert!(sub.has_seen(&h));
    // Before the next cycle begins:
    assert_eq!(sub.read_buf(), Delivery::Order(order(1)));
    assert_eq!(sub.read_buf(), Delivery::Wait);
    assert_eq!(sub.step(&mut cache, PollEvent::Slept), PollAction::Resume);
    assert_eq!(sub.step(&mut cache, PollEvent::Start), PollAction::Fetch);
}

#[test]
fn an_order_in_the_cache_is_not_delivered() {
    let mut cache = OrderCache::new();
    cache.insert(order(1).key(), order(1));
    let mut sub = OrderSubscriber::new(5);
    assert!(!sub.has_seen(&order(1).key()));
    let wake = sub.fill_buf(&mut cache, batch(&[1, 2]));
    assert!(wake);
    assert_eq!(drain(&mut sub), vec![order(2)]);
    assert!(!sub.has_seen(&order(1).key()));
    assert!(sub.has_seen(&order(2).key()));
}

#[test]
fn an_order_removed_from_the_cache_is_not_delivered_again() {
    let mut cache = OrderCache::new();
    let mut sub = OrderSubscriber::new(5);
    sub.fill_buf(&mut cache, batch(&[1]));
    assert_eq!(drain(&mut sub), vec![order(1)]);
    let gone: Result<ResolvedOrder, OracleError> =
        Err(OracleError::Revert("0xee3b3d4b".to_string()));
    cache.flush(vec![(order(1).key(), gone)]);
    assert!(!cache.contains(&order(1).key()));
    assert!(!sub.fill_buf(&mut cache, batch(&[1])));
    assert_eq!(sub.read_buf(), Delivery::Wait);
    // It is not put back into the cache either.
    assert!(!cache.contains(&order(1).key()));
}

#[test]
fn removal_from_the_cache_does_not_take_an_order_out_of_the_buffer() {
    let mut cache = OrderCache::new();
    let mut sub = OrderSubscriber::new(5);
    sub.fill_buf(&mut cache, batch(&[1]));
    cache.remove(&order(1).key());
    assert_eq!(sub.read_buf(), Delivery::Order(order(1)));
}

#[test]
fn the_cycle_goes_from_idle_to_fetching_and_back() {
    let mut cache = OrderCache::new();
    let mut sub = OrderSubscriber::new(7);
    // Errored.
    assert_eq!(sub.step(&mut cache, PollEvent::Start), PollAction::Fetch);
    assert_eq!(
        sub.step(&mut cache, PollEvent::FetchFailed),
        PollAction::Sleep { seconds: 7, wake: false }
    );
    assert_eq!(sub.step(&mut cache, PollEvent::Slept), PollAction::Resume);
    // Empty.
    assert_eq!(sub.step(&mut cache, PollEvent::Start), PollAction::Fetch);
    assert_eq!(
        sub.step(&mut cache, PollEvent::Fetched(Vec::new())),
        PollAction::Sleep { seconds: 7, wake: false }
    );
    assert_eq!(sub.step(&mut cache, PollEvent::Slept), PollAction::Resume);
    // Delivered.
    assert_eq!(sub.step(&mut cache, PollEvent::Start), PollAction::Fetch);
    assert_eq!(
        sub.step(&mut cache, PollEvent::Fetched(batch(&[1, 2]))),
        PollAction::Sleep { seconds: 7, wake: true }
    );
    assert_eq!(sub.step(&mut cache, PollEvent::Slept), PollAction::Resume);
    // Delivered again, to a buffer that is not empty: no wake.
    assert_eq!(sub.step(&mut cache, PollEvent::Start), PollAction::Fetch);
    assert_eq!(
        sub.step(&mut cache, PollEvent::Fetched(batch(&[3]))),
        PollAction::Sleep { seconds: 7, wake: false }
    );
    assert_eq!(sub.pending(), 3);
}

#[test]
fn an_event_out_of_place_changes_nothing() {
    let mut cache = OrderCache::new();
    let mut sub = OrderSubscriber::new(7);
    assert_eq!(sub.step(&mut cache, PollEvent::Slept), PollAction::Ignore);
    assert_eq!(sub.step(&mut cache, PollEvent::FetchFailed), PollAction::Ignore);
    assert_eq!(sub.step(&mut cache, PollEvent::Fetched(batch(&[1]))), PollAction::Ignore);
    assert_eq!(sub.pending(), 0);
    assert_eq!(cache.len(), 0);
    assert_eq!(sub.step(&mut cache, PollEvent::Start), PollAction::Fetch);
    assert_eq!(sub.step(&mut cache, PollEvent::Start), PollAction::Ignore);
    assert_eq!(sub.step(&mut cache, PollEvent::Slept), PollAction::Ignore);
    assert_eq!(
        sub.step(&mut cache, PollEvent::Fetched(batch(&[1]))),
        PollAction::Sleep { seconds: 7, wake: true }
    );
    assert_eq!(sub.step(&mut cache, PollEvent::FetchFailed), PollAction::Ignore);
    assert_eq!(sub.step(&mut cache, PollEvent::Start), PollAction::Ignore);
    assert_eq!(sub.pending(), 1);
}

#[test]
fn a_failed_fetch_leaves_cache_and_buffer_alone() {
    let mut cache = OrderCache::new();
    let mut sub = OrderSubscriber::new(1);
    sub.fill_buf(&mut cache, batch(&[1]));
    sub.step(&mut cache, PollEvent::Start);
    sub.step(&mut cache, PollEvent::FetchFailed);
    assert_eq!(cache.len(), 1);
    assert_eq!(sub.pending(), 1);
}

#[test]
fn a_whole_cycle_with_a_feed_that_answers() {
    let mut cache = OrderCache::new();
    let mut sub = OrderSubscriber::new(3);
    let feed = Feed { answer: Ok(vec![order(1), order(2)]) };
    assert_eq!(sub.poll_once(&mut cache, &feed), PollAction::Sleep { seconds: 3, wake: true });
    // The cycle is not over before the sleep is.
    assert_eq!(sub.poll_once(&mut cache, &feed), PollAction::Ignore);
    assert_eq!(sub.step(&mut cache, PollEvent::Slept), PollAction::Resume);
    assert_eq!(sub.poll_once(&mut cache, &feed), PollAction::Sleep { seconds: 3, wake: false });
    assert_eq!(drain(&mut sub), vec![order(1), order(2)]);
}

#[test]
fn a_whole_cycle_with_a_feed_that_fails_or_has_nothing() {
    let mut cache = OrderCache::new();
    let mut sub = OrderSubscriber::new(3);
    let failing = Feed { answer: Err("unreachable host".to_string()) };
    assert_eq!(
        sub.poll_once(&mut cache, &failing),
        PollAction::Sleep { seconds: 3, wake: false }
    );
    assert_eq!(sub.step(&mut cache, PollEvent::Slept), PollAction::Resume);
    let silent = Feed { answer: Ok(Vec::new()) };
    assert_eq!(sub.poll_once(&mut cache, &silent), PollAction::Sleep { seconds: 3, wake: false });
    assert_eq!(sub.pending(), 0);
    assert_eq!(cache.len(), 0);
}

#[test]
fn a_list_is_turned_round() {
    assert_eq!(reversed(Vec::<u8>::new()), Vec::<u8>::new());
    assert_eq!(reversed(vec![1]), vec![1]);
    assert_eq!(reversed(vec![1, 2, 3]), vec![3, 2, 1]);
}

#[test]
fn the_end_of_the_subscription_is_taken_in_every_state() {
    for events in [
        vec![],
        vec![PollEvent::Start],
        vec![PollEvent::Start, PollEvent::FetchFailed],
        vec![PollEvent::Start, PollEvent::Fetched(Vec::new())],
        vec![PollEvent::Start, PollEvent::Fetched(batch(&[1]))],
    ] {
        let mut cache = OrderCache::new();
        let mut sub = OrderSubscriber::new(5);
        for event in events {
            sub.step(&mut cache, event);
        }
        assert!(!sub.cancelled());
        assert_eq!(sub.step(&mut cache, PollEvent::Cancelled), PollAction::Stop);
        assert!(sub.cancelled());
    }
}

#[test]
fn after_its_end_the_subscription_takes_nothing_in_and_hands_nothing_out() {
    let mut cache = OrderCache::new();
    let mut sub = OrderSubscriber::new(5);
    sub.step(&mut cache, PollEvent::Start);
    sub.step(&mut cache, PollEvent::Fetched(batch(&[1, 2])));
    assert_eq!(sub.read_buf(), Delivery::Order(order(1)));
    assert_eq!(sub.step(&mut cache, PollEvent::Cancelled), PollAction::Stop);
    // An order that was buffered and not delivered is lost.
    assert_eq!(sub.read_buf(), Delivery::Closed);
    assert_eq!(sub.read_buf(), Delivery::Closed);
    assert_eq!(sub.pending(), 1);
    for event in [
        PollEvent::Slept,
        PollEvent::Start,
        PollEvent::FetchFailed,
        PollEvent::Fetched(batch(&[3])),
        PollEvent::Cancelled,
    ] {
        assert_eq!(sub.step(&mut cache, event), PollAction::Stop);
    }
    assert_eq!(cache.len(), 2);
    assert_eq!(sub.pending(), 1);
    let feed = Feed { answer: Ok(vec![order(4)]) };
    assert_eq!(sub.poll_once(&mut cache, &feed), PollAction::Stop);
    assert_eq!(cache.len(), 2);
}

#[test]
fn orders_become_entries_in_their_order() {
    assert_eq!(as_entries(Vec::new()), Vec::new());
    assert_eq!(as_entries(vec![order(1)]), vec![Ok(order(1))]);
    assert_eq!(
        as_entries(vec![order(3), order(1), order(2)]),
        vec![Ok(order(3)), Ok(order(1)), Ok(order(2))]
    );
}

#[test]
fn an_answer_is_taken_in_as_the_batch_that_it_makes() {
    let mut cache = OrderCache::new();
    let mut sub = OrderSubscriber::new(9);
    sub.step(&mut cache, PollEvent::Start);
    let answer: Result<Vec<Order>, String> = Ok(vec![order(2), order(1), order(2)]);
    assert_eq!(sub.take_answer(&mut cache, answer), PollAction::Sleep { seconds: 9, wake: true });
    assert_eq!(drain(&mut sub), vec![order(2), order(1)]);
}

#[test]
fn an_answer_that_is_an_error_is_a_fetch_that_failed() {
    let mut cache = OrderCache::new();
    let mut sub = OrderSubscriber::new(9);
    sub.step(&mut cache, PollEvent::Start);
    let answer: Result<Vec<Order>, String> = Err("no route".to_string());
    assert_eq!(sub.take_answer(&mut cache, answer), PollAction::Sleep { seconds: 9, wake: false });
    assert_eq!(sub.step(&mut cache, PollEvent::Slept), PollAction::Resume);
    // An answer that nobody waits for is not taken in.
    let answer: Result<Vec<Order>, String> = Ok(vec![order(1)]);
    assert_eq!(sub.take_answer(&mut cache, answer), PollAction::Ignore);
    assert_eq!(cache.len(), 0);
    // Nor is an empty answer a delivery.
    sub.step(&mut cache, PollEvent::Start);
    let answer: Result<Vec<Order>, String> = Ok(Vec::new());
    assert_eq!(sub.take_answer(&mut cache, answer), PollAction::Sleep { seconds: 9, wake: false });
}

#[test]
fn a_whole_cycle_takes_the_answer_in_feed_order() {
    let mut cache = OrderCache::new();
    let mut sub = OrderSubscriber::new(3);
    let feed = Feed { answer: Ok(vec![order(5), order(4), order(6)]) };
    sub.poll_once(&mut cache, &feed);
    assert_eq!(drain(&mut sub), vec![order(5), order(4), order(6)]);
}
