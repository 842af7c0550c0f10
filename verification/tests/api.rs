use uniswapx_sdk::api::uniswap::{
    decimal_string, ApiParams, OrderInput, OrderOutput, OrderResponse, OrderResponseInner,
    OrderStatus,
};
use uniswapx_sdk::contracts::common::{EncodingError, InputToken, OrderInfo, OutputToken};
use uniswapx_sdk::contracts::dutch::{DutchInput, DutchOrder, DutchOutput};
use uniswapx_sdk::contracts::exclusive_dutch::ExclusiveDutchOrder;
use uniswapx_sdk::contracts::limit::LimitOrder;
use uniswapx_sdk::order::{Order, OrderInner, OrderType};
use uniswapx_sdk::primitives::{Address, U256};

fn info(nonce: u64) -> OrderInfo {
    OrderInfo {
        reactor: Address { bytes: [1; 20] },
        swapper: Address { bytes: [2; 20] },
        nonce: U256::from_u64(nonce),
        deadline: U256::from_u64(1700000000),
        additional_validation_contract: Address { bytes: [0; 20] },
        additional_validation_data: vec![1, 2, 3],
    }
}

fn exclusive(nonce: u64) -> ExclusiveDutchOrder {
    ExclusiveDutchOrder {
        info: info(nonce),
        decay_start_time: U256::from_u64(10),
        decay_end_time: U256::from_u64(20),
        exclusive_filler: Address { bytes: [9; 20] },
        exclusivity_override_bps: U256::from_u64(50),
        input: DutchInput {
            token: Address { bytes: [3; 20] },
            start_amount: U256::from_u64(100),
            end_amount: U256::from_u64(110),
        },
        outputs: vec![DutchOutput {
            token: Address { bytes: [4; 20] },
            start_amount: U256::from_u64(90),
            end_amount: U256::from_u64(80),
            recipient: Address { bytes: [2; 20] },
        }],
    }
}

fn limit(nonce: u64) -> LimitOrder {
    LimitOrder {
        info: info(nonce),
        input: InputToken {
            token: Address { bytes: [3; 20] },
            amount: U256::from_u64(100),
            max_amount: U256::from_u64(100),
        },
        outputs: vec![OutputToken {
            token: Address { bytes: [4; 20] },
            amount: U256::from_u64(90),
            recipient: Address { bytes: [2; 20] },
        }],
    }
}

fn dutch(nonce: u64) -> DutchOrder {
    DutchOrder {
        info: info(nonce),
        decay_start_time: U256::from_u64(10),
        decay_end_time: U256::from_u64(20),
        input: DutchInput {
            token: Address { bytes: [3; 20] },
            start_amount: U256::from_u64(100),
            end_amount: U256::from_u64(110),
        },
        outputs: Vec::new(),
    }
}

fn entry(order_type: OrderType, encoded: &[u8], signature: &str) -> OrderResponseInner {
    OrderResponseInner {
        order_type,
        order_status: OrderStatus::Open,
        chain_id: 1,
        encoded_order: uniswapx_sdk::hex::encode_prefixed(encoded),
        signature: signature.to_string(),
        order_hash: "0x1234".to_string(),
        created_at: 1699999999,
        input: OrderInput {
            token: "0x0303030303030303030303030303030303030303".to_string(),
            start_amount: Some("100".to_string()),
            end_amount: Some("110".to_string()),
        },
        outputs: vec![OrderOutput {
            token: "0x0404040404040404040404040404040404040404".to_string(),
            start_amount: Some("90".to_string()),
            end_amount: Some("80".to_string()),
            recipient: None,
        }],
    }
}

fn response(orders: Vec<OrderResponseInner>) -> OrderResponse {
    OrderResponse { orders, cursor: None }
}

#[test]
fn numbers_are_written_in_decimal_digits() {
    for n in [0usize, 1, 9, 10, 11, 99, 100, 101, 1234567890, 4294967295] {
        assert_eq!(decimal_string(n), n.to_string());
    }
    assert_eq!(decimal_string(usize::MAX), usize::MAX.to_string());
}

#[test]
fn the_query_for_open_orders_asks_for_ten() {
    let params = ApiParams::open_orders(1);
    assert_eq!(params, ApiParams { limit: 10, chain_id: 1, order_status: OrderStatus::Open });
    assert_eq!(params.as_query_string(), "limit=10&chainId=1&orderStatus=open");
}

#[test]
fn the_query_string_names_each_status_as_the_service_does() {
    let names = [
        (OrderStatus::Open, "open"),
        (OrderStatus::Expired, "Expired"),
        (OrderStatus::Error, "Error"),
        (OrderStatus::Cancelled, "Cancelled"),
        (OrderStatus::Filled, "filled"),
        (OrderStatus::InsufficientFunds, "InsufficientFunds"),
    ];
    for (status, name) in names {
        assert_eq!(status.name(), name);
        let params = ApiParams { limit: 0, chain_id: 137, order_status: status };
        assert_eq!(params.as_query_string(), format!("limit=0&chainId=137&orderStatus={name}"));
    }
}

#[test]
fn an_exclusive_dutch_entry_is_read_with_its_signature() {
    let order = Order::try_from(entry(
        OrderType::ExclusiveDutch,
        &exclusive(1).encode(),
        "0xabcd",
    ));
    assert_eq!(order, Ok(Order::new(OrderInner::ExclusiveDutch(exclusive(1)), "0xabcd".to_string())));
}

#[test]
fn a_dutch_entry_is_read_as_a_dutch_order() {
    let order = Order::try_from(entry(OrderType::Dutch, &dutch(1).encode(), "0x01"));
    assert_eq!(order, Ok(Order::new(OrderInner::Dutch(dutch(1)), "0x01".to_string())));
}

#[test]
fn an_entry_is_read_by_the_kind_that_it_declares_and_no_other() {
    // The encoding of an exclusive Dutch order is not that of a Dutch
    // order, nor the other way round.
    assert_eq!(
        Order::try_from(entry(OrderType::Dutch, &exclusive(1).encode(), "0x01")),
        Err(EncodingError::Malformed)
    );
    assert_eq!(
        Order::try_from(entry(OrderType::ExclusiveDutch, &dutch(1).encode(), "0x01")),
        Err(EncodingError::Malformed)
    );
    assert_eq!(
        Order::try_from(entry(OrderType::Dutch, &limit(1).encode(), "0x01")),
        Err(EncodingError::Malformed)
    );
    assert_eq!(
        Order::try_from(entry(OrderType::Limit, &dutch(1).encode(), "0x01")),
        Err(EncodingError::Malformed)
    );
}

#[test]
fn a_limit_entry_is_read_as_a_limit_order() {
    let order = Order::try_from(entry(OrderType::Limit, &limit(3).encode(), "0x02"));
    assert_eq!(order, Ok(Order::new(OrderInner::Limit(limit(3)), "0x02".to_string())));
    assert_eq!(
        Order::try_from(entry(OrderType::Limit, &exclusive(3).encode(), "0x02")),
        Err(EncodingError::Malformed)
    );
}

#[test]
fn an_entry_whose_text_is_not_hexadecimal_is_refused() {
    let mut bad = entry(OrderType::Limit, &limit(3).encode(), "0x02");
    bad.encoded_order.push('z');
    bad.encoded_order.push('z');
    assert_eq!(Order::try_from(bad), Err(EncodingError::InvalidHex));
    let mut odd = entry(OrderType::Limit, &limit(3).encode(), "0x02");
    odd.encoded_order.push('0');
    assert_eq!(Order::try_from(odd), Err(EncodingError::InvalidHex));
}

#[test]
fn the_entries_of_an_answer_are_read_one_by_one() {
    let entries = response(vec![
        entry(OrderType::Limit, &limit(1).encode(), "0x01"),
        entry(OrderType::Limit, &[0u8; 64], "0x02"),
        entry(OrderType::Dutch, &dutch(2).encode(), "0x03"),
        entry(OrderType::ExclusiveDutch, b"", "0x04"),
        entry(OrderType::ExclusiveDutch, &exclusive(3).encode(), "0x05"),
        entry(OrderType::Dutch, &exclusive(4).encode(), "0x06"),
    ])
    .into_entries();
    assert_eq!(
        entries,
        vec![
            Ok(Order::new(OrderInner::Limit(limit(1)), "0x01".to_string())),
            Err(EncodingError::Malformed),
            Ok(Order::new(OrderInner::Dutch(dutch(2)), "0x03".to_string())),
            Err(EncodingError::Malformed),
            Ok(Order::new(OrderInner::ExclusiveDutch(exclusive(3)), "0x05".to_string())),
            Err(EncodingError::Malformed),
        ]
    );
    assert!(response(Vec::new()).into_entries().is_empty());
}

#[test]
fn the_orders_of_an_answer_are_read_all_or_none() {
    let good = response(vec![
        entry(OrderType::Limit, &limit(1).encode(), "0x01"),
        entry(OrderType::ExclusiveDutch, &exclusive(2).encode(), "0x02"),
    ]);
    assert_eq!(
        good.into_orders(),
        Ok(vec![
            Order::new(OrderInner::Limit(limit(1)), "0x01".to_string()),
            Order::new(OrderInner::ExclusiveDutch(exclusive(2)), "0x02".to_string()),
        ])
    );
    assert_eq!(response(Vec::new()).into_orders(), Ok(Vec::new()));
}

#[test]
fn the_first_entry_that_cannot_be_read_fails_the_answer() {
    let mut not_hex = entry(OrderType::Limit, &limit(2).encode(), "0x02");
    not_hex.encoded_order = "0xnothex".to_string();
    let bad = response(vec![
        entry(OrderType::Limit, &limit(1).encode(), "0x01"),
        not_hex,
        entry(OrderType::Limit, &[0u8; 32], "0x03"),
    ]);
    assert_eq!(bad.into_orders(), Err(EncodingError::InvalidHex));
    let bad = response(vec![
        entry(OrderType::Limit, &[0u8; 32], "0x03"),
        entry(OrderType::Limit, b"", "0x03"),
    ]);
    assert_eq!(bad.into_orders(), Err(EncodingError::Malformed));
}
