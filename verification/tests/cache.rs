use uniswapx_sdk::cache::OrderCache;
use uniswapx_sdk::contracts::common::{InputToken, OrderInfo, OutputToken, ResolvedOrder};
use uniswapx_sdk::contracts::limit::LimitOrder;
use uniswapx_sdk::order::{Order, OrderInner};
use uniswapx_sdk::primitives::{Address, B256, U256};
use uniswapx_sdk::validation::{OracleError, ValidationStatus};

fn order(nonce: u64) -> Order {
    let info = OrderInfo {
        reactor: Address { bytes: [1; 20] },
        swapper: Address { bytes: [2; 20] },
        nonce: U256::from_u64(nonce),
        deadline: U256::from_u64(1700000000),
        additional_validation_contract: Address { bytes: [0; 20] },
        additional_validation_data: Vec::new(),
    };
    let inner = LimitOrder {
        info,
        input: InputToken {
            token: Address { bytes: [3; 20] },
            amount: U256::from_u64(10),
            max_amount: U256::from_u64(10),
        },
        outputs: vec![OutputToken {
            token: Address { bytes: [4; 20] },
            amount: U256::from_u64(9),
            recipient: Address { bytes: [2; 20] },
        }],
    };
    Order::new(OrderInner::Limit(inner), "0x00".to_string())
}

fn settlement(of: &Order) -> ResolvedOrder {
    ResolvedOrder {
        info: of.info().clone(),
        input: InputToken {
            token: Address { bytes: [3; 20] },
            amount: U256::from_u64(10),
            max_amount: U256::from_u64(10),
        },
        outputs: Vec::new(),
        sig: Vec::new(),
        hash: of.struct_hash(),
    }
}

fn key(text: &str) -> String {
    text.to_string()
}

fn revert(code: &str) -> Result<ResolvedOrder, OracleError> {
    Err(OracleError::Revert(code.to_string()))
}

fn transport(cause: &str) -> Result<ResolvedOrder, OracleError> {
    Err(OracleError::Transport(cause.to_string()))
}

#[test]
fn a_new_cache_is_empty() {
    let cache = OrderCache::new();
    assert_eq!(cache.len(), 0);
    assert!(!cache.contains(&key("k1")));
    assert_eq!(cache.get(&key("k1")), None);
    assert!(cache.snapshot().is_empty());
}

#[test]
fn an_inserted_order_is_held_under_its_key() {
    let mut cache = OrderCache::new();
    cache.insert(key("k1"), order(1));
    assert!(cache.contains(&key("k1")));
    assert!(!cache.contains(&key("k2")));
    assert!(!cache.contains(&key("K1")));
    assert!(!cache.contains(&key("")));
    assert_eq!(cache.get(&key("k1")), Some(&order(1)));
    assert_eq!(cache.len(), 1);
}

#[test]
fn inserting_twice_is_inserting_once() {
    let mut cache = OrderCache::new();
    cache.insert(key("k"), order(1));
    let size = cache.len();
    cache.insert(key("k"), order(1));
    assert!(cache.contains(&key("k")));
    assert_eq!(cache.len(), size);
    assert_eq!(cache.len(), 1);
}

#[test]
fn a_second_order_under_a_held_key_changes_nothing() {
    let mut cache = OrderCache::new();
    cache.insert(key("k"), order(1));
    cache.insert(key("k"), order(2));
    assert_eq!(cache.len(), 1);
    assert_eq!(cache.get(&key("k")), Some(&order(1)));
}

#[test]
fn the_empty_key_is_a_key() {
    let mut cache = OrderCache::new();
    cache.insert(String::new(), order(1));
    assert!(cache.contains(&String::new()));
    assert_eq!(cache.len(), 1);
    assert_eq!(cache.remove(&String::new()), Some(order(1)));
    assert_eq!(cache.len(), 0);
}

#[test]
fn removing_hands_the_order_back() {
    let mut cache = OrderCache::new();
    cache.insert(key("a"), order(1));
    cache.insert(key("b"), order(2));
    cache.insert(key("c"), order(3));
    assert_eq!(cache.remove(&key("b")), Some(order(2)));
    assert_eq!(cache.len(), 2);
    assert!(cache.contains(&key("a")));
    assert!(!cache.contains(&key("b")));
    assert!(cache.contains(&key("c")));
    assert_eq!(cache.get(&key("c")), Some(&order(3)));
    assert_eq!(cache.remove(&key("b")), None);
    assert_eq!(cache.len(), 2);
    assert_eq!(cache.remove(&key("a")), Some(order(1)));
    assert_eq!(cache.remove(&key("c")), Some(order(3)));
    assert_eq!(cache.len(), 0);
}

#[test]
fn a_removed_key_can_be_inserted_again() {
    let mut cache = OrderCache::new();
    cache.insert(key("k"), order(1));
    cache.remove(&key("k"));
    cache.insert(key("k"), order(2));
    assert_eq!(cache.get(&key("k")), Some(&order(2)));
}

#[test]
fn the_snapshot_holds_each_entry_once() {
    let mut cache = OrderCache::new();
    cache.insert(key("a"), order(1));
    cache.insert(key("b"), order(2));
    cache.insert(key("a"), order(3));
    let mut snapshot = cache.snapshot();
    snapshot.sort_by(|x, y| x.0.cmp(&y.0));
    assert_eq!(snapshot, vec![(key("a"), order(1)), (key("b"), order(2))]);
    // The snapshot is a copy: the cache is what it was.
    assert_eq!(cache.len(), 2);
}

#[test]
fn a_flush_removes_an_order_whose_nonce_is_used() {
    let mut cache = OrderCache::new();
    cache.insert(key("k1"), order(1));
    let report = cache.flush(vec![(key("k1"), revert("0xee3b3d4b"))]);
    assert!(!cache.contains(&key("k1")));
    assert_eq!(cache.len(), 0);
    assert_eq!(report.evicted, vec![(key("k1"), ValidationStatus::NonceUsed)]);
    assert!(report.failed.is_empty());
}

#[test]
fn a_flush_keeps_an_order_that_would_settle() {
    let mut cache = OrderCache::new();
    cache.insert(key("k1"), order(1));
    let report = cache.flush(vec![(key("k1"), Ok(settlement(&order(1))))]);
    assert!(cache.contains(&key("k1")));
    assert_eq!(cache.get(&key("k1")), Some(&order(1)));
    assert!(report.evicted.is_empty());
    assert!(report.failed.is_empty());
}

#[test]
fn a_flush_leaves_an_order_whose_simulation_could_not_be_made() {
    let mut cache = OrderCache::new();
    cache.insert(key("k1"), order(1));
    let report = cache.flush(vec![(key("k1"), transport("timed out"))]);
    assert!(cache.contains(&key("k1")));
    assert!(report.evicted.is_empty());
    assert_eq!(report.failed, vec![(key("k1"), "timed out".to_string())]);
}

#[test]
fn a_flush_removes_an_order_for_every_status_but_ok() {
    let codes = [
        ("0x70f65caa", ValidationStatus::Expired),
        ("0x756688fe", ValidationStatus::NonceUsed),
        ("0x8baa579f", ValidationStatus::InvalidSignature),
        ("0x4ddf4a64", ValidationStatus::InvalidOrderFields),
        ("0xb9ec1e96", ValidationStatus::ExclusivityPeriod),
        ("0x0a0b0d79", ValidationStatus::ValidationFailed),
        ("0xffffffff", ValidationStatus::UnknownError("0xffffffff".to_string())),
    ];
    for (code, status) in codes {
        let mut cache = OrderCache::new();
        cache.insert(key("k"), order(1));
        cache.insert(key("other"), order(2));
        let report = cache.flush(vec![(key("k"), revert(code))]);
        assert!(!cache.contains(&key("k")));
        assert!(cache.contains(&key("other")));
        assert_eq!(report.evicted, vec![(key("k"), status)]);
    }
}

#[test]
fn a_flush_treats_each_order_by_its_own_result() {
    let mut cache = OrderCache::new();
    for (i, k) in ["a", "b", "c", "d", "e"].iter().enumerate() {
        cache.insert(key(k), order(i as u64));
    }
    let report = cache.flush(vec![
        (key("a"), Ok(settlement(&order(0)))),
        (key("b"), revert("0x70f65caa")),
        (key("c"), transport("refused")),
        (key("d"), revert("0xabcdef01")),
    ]);
    assert!(cache.contains(&key("a")));
    assert!(!cache.contains(&key("b")));
    assert!(cache.contains(&key("c")));
    assert!(!cache.contains(&key("d")));
    assert!(cache.contains(&key("e")));
    assert_eq!(cache.len(), 3);
    assert_eq!(
        report.evicted,
        vec![
            (key("b"), ValidationStatus::Expired),
            (key("d"), ValidationStatus::UnknownError("0xabcdef01".to_string())),
        ]
    );
    assert_eq!(report.failed, vec![(key("c"), "refused".to_string())]);
}

#[test]
fn a_flush_without_results_changes_nothing() {
    let mut cache = OrderCache::new();
    cache.insert(key("a"), order(1));
    let report = cache.flush(Vec::new());
    assert_eq!(cache.len(), 1);
    assert!(report.evicted.is_empty());
    assert!(report.failed.is_empty());
}

#[test]
fn a_result_for_a_key_that_is_not_held_removes_nothing() {
    let mut cache = OrderCache::new();
    cache.insert(key("a"), order(1));
    let report = cache.flush(vec![(key("gone"), revert("0x70f65caa"))]);
    assert_eq!(cache.len(), 1);
    assert!(cache.contains(&key("a")));
    assert_eq!(report.evicted, vec![(key("gone"), ValidationStatus::Expired)]);
}

#[test]
fn an_order_inserted_after_the_snapshot_survives_the_flush() {
    let mut cache = OrderCache::new();
    cache.insert(key("a"), order(1));
    let snapshot = cache.snapshot();
    cache.insert(key("b"), order(2));
    let outcomes = snapshot.into_iter().map(|(k, _)| (k, revert("0xee3b3d4b"))).collect();
    cache.flush(outcomes);
    assert!(!cache.contains(&key("a")));
    assert!(cache.contains(&key("b")));
}

#[test]
fn a_settlement_hash_is_that_of_the_order() {
    let o = order(5);
    assert_eq!(settlement(&o).hash, B256 { bytes: o.struct_hash().bytes });
}

#[test]
fn each_failed_simulation_is_reported_with_its_own_cause() {
    let mut cache = OrderCache::new();
    cache.insert(key("a"), order(1));
    cache.insert(key("b"), order(2));
    cache.insert(key("c"), order(3));
    let report = cache.flush(vec![
        (key("b"), transport("timed out")),
        (key("a"), Ok(settlement(&order(1)))),
        (key("c"), transport("")),
        (key("b"), transport("refused")),
    ]);
    assert_eq!(
        report.failed,
        vec![
            (key("b"), "timed out".to_string()),
            (key("c"), String::new()),
            (key("b"), "refused".to_string()),
        ]
    );
    assert!(report.evicted.is_empty());
    assert_eq!(cache.len(), 3);
}
