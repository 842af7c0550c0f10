use alloy_sol_types::{sol_data, SolType};
use uniswapx_sdk::contracts::common::{EncodingError, InputToken, OrderInfo, OutputToken};
use uniswapx_sdk::contracts::dutch::{DutchInput, DutchOrder, DutchOutput};
use uniswapx_sdk::contracts::exclusive_dutch::ExclusiveDutchOrder;
use uniswapx_sdk::contracts::limit::LimitOrder;
use uniswapx_sdk::order::{Order, OrderInner, OrderType};
use uniswapx_sdk::primitives::{Address, B256, U256};

type SolInfo = (
    sol_data::Address,
    sol_data::Address,
    sol_data::Uint<256>,
    sol_data::Uint<256>,
    sol_data::Address,
    sol_data::Bytes,
);
type SolDutchInput = (sol_data::Address, sol_data::Uint<256>, sol_data::Uint<256>);
type SolDutchOutput =
    (sol_data::Address, sol_data::Uint<256>, sol_data::Uint<256>, sol_data::Address);
type SolOutputToken = (sol_data::Address, sol_data::Uint<256>, sol_data::Address);
type SolDutchOrder = (
    SolInfo,
    sol_data::Uint<256>,
    sol_data::Uint<256>,
    SolDutchInput,
    sol_data::Array<SolDutchOutput>,
);
type SolExclusiveDutchOrder = (
    SolInfo,
    sol_data::Uint<256>,
    sol_data::Uint<256>,
    sol_data::Address,
    sol_data::Uint<256>,
    SolDutchInput,
    sol_data::Array<SolDutchOutput>,
);
type SolLimitOrder = (SolInfo, SolDutchInput, sol_data::Array<SolOutputToken>);

fn addr(b: u8) -> Address {
    Address { bytes: [b; 20] }
}

fn reactor() -> Address {
    Address {
        bytes: [
            0x60, 0x00, 0xda, 0x47, 0x48, 0x30, 0x62, 0xA0, 0xD7, 0x34, 0xBa, 0x3d, 0xc7, 0x57,
            0x6C, 0xe6, 0xA0, 0xB6, 0x45, 0xC4,
        ],
    }
}

fn num(v: u64) -> U256 {
    U256::from_u64(v)
}

fn unhex(text: &str) -> Vec<u8> {
    uniswapx_sdk::hex::decode(text.as_bytes()).expect("hexadecimal text")
}

fn hash(text: &str) -> B256 {
    let bytes = unhex(text);
    let mut out = [0u8; 32];
    out.copy_from_slice(&bytes);
    B256 { bytes: out }
}

fn a_addr(a: &Address) -> alloy_primitives::Address {
    alloy_primitives::Address::from(a.bytes)
}

fn a_num(u: &U256) -> alloy_primitives::U256 {
    alloy_primitives::U256::from_be_bytes(u.bytes)
}

fn a_info(
    i: &OrderInfo,
) -> (
    alloy_primitives::Address,
    alloy_primitives::Address,
    alloy_primitives::U256,
    alloy_primitives::U256,
    alloy_primitives::Address,
    Vec<u8>,
) {
    (
        a_addr(&i.reactor),
        a_addr(&i.swapper),
        a_num(&i.nonce),
        a_num(&i.deadline),
        a_addr(&i.additional_validation_contract),
        i.additional_validation_data.clone(),
    )
}

fn a_dutch_outputs(
    outputs: &[DutchOutput],
) -> Vec<(
    alloy_primitives::Address,
    alloy_primitives::U256,
    alloy_primitives::U256,
    alloy_primitives::Address,
)> {
    outputs
        .iter()
        .map(|o| {
            (a_addr(&o.token), a_num(&o.start_amount), a_num(&o.end_amount), a_addr(&o.recipient))
        })
        .collect()
}

fn alloy_exclusive(o: &ExclusiveDutchOrder) -> Vec<u8> {
    SolExclusiveDutchOrder::encode_single(&(
        a_info(&o.info),
        a_num(&o.decay_start_time),
        a_num(&o.decay_end_time),
        a_addr(&o.exclusive_filler),
        a_num(&o.exclusivity_override_bps),
        (a_addr(&o.input.token), a_num(&o.input.start_amount), a_num(&o.input.end_amount)),
        a_dutch_outputs(&o.outputs),
    ))
}

fn alloy_dutch(o: &DutchOrder) -> Vec<u8> {
    SolDutchOrder::encode_single(&(
        a_info(&o.info),
        a_num(&o.decay_start_time),
        a_num(&o.decay_end_time),
        (a_addr(&o.input.token), a_num(&o.input.start_amount), a_num(&o.input.end_amount)),
        a_dutch_outputs(&o.outputs),
    ))
}

fn alloy_limit(o: &LimitOrder) -> Vec<u8> {
    SolLimitOrder::encode_single(&(
        a_info(&o.info),
        (a_addr(&o.input.token), a_num(&o.input.amount), a_num(&o.input.max_amount)),
        o.outputs
            .iter()
            .map(|t| (a_addr(&t.token), a_num(&t.amount), a_addr(&t.recipient)))
            .collect(),
    ))
}

fn info_with_data() -> OrderInfo {
    OrderInfo {
        reactor: reactor(),
        swapper: addr(0x11),
        nonce: num(0x0123456789abcdef),
        deadline: num(1700000000),
        additional_validation_contract: addr(0),
        additional_validation_data: b"hello".to_vec(),
    }
}

fn info_without_data() -> OrderInfo {
    OrderInfo {
        reactor: reactor(),
        swapper: addr(0x22),
        nonce: num(7),
        deadline: num(1700000100),
        additional_validation_contract: addr(0),
        additional_validation_data: Vec::new(),
    }
}

fn dutch_input() -> DutchInput {
    DutchInput { token: addr(0xaa), start_amount: num(1000), end_amount: num(1100) }
}

fn dutch_outputs() -> Vec<DutchOutput> {
    vec![
        DutchOutput {
            token: addr(0xbb),
            start_amount: num(2000),
            end_amount: num(1900),
            recipient: addr(0x11),
        },
        DutchOutput {
            token: addr(0xcc),
            start_amount: num(5),
            end_amount: num(4),
            recipient: addr(0xdd),
        },
    ]
}

fn exclusive_order() -> ExclusiveDutchOrder {
    ExclusiveDutchOrder {
        info: info_with_data(),
        decay_start_time: num(1699999000),
        decay_end_time: num(1699999900),
        exclusive_filler: addr(0xee),
        exclusivity_override_bps: num(100),
        input: dutch_input(),
        outputs: dutch_outputs(),
    }
}

fn dutch_order() -> DutchOrder {
    DutchOrder {
        info: info_without_data(),
        decay_start_time: num(1699999000),
        decay_end_time: num(1699999900),
        input: dutch_input(),
        outputs: dutch_outputs()[..1].to_vec(),
    }
}

fn limit_order() -> LimitOrder {
    LimitOrder {
        info: info_with_data(),
        input: InputToken { token: addr(0xaa), amount: num(1000), max_amount: num(1000) },
        outputs: vec![OutputToken { token: addr(0xbb), amount: num(2000), recipient: addr(0x11) }],
    }
}

fn limit_order_without_outputs() -> LimitOrder {
    LimitOrder {
        info: info_without_data(),
        input: InputToken { token: addr(0xaa), amount: num(1000), max_amount: num(1000) },
        outputs: Vec::new(),
    }
}

fn exclusive_hex() -> String {
    [
        "0000000000000000000000000000000000000000000000000000000000000020",
        "0000000000000000000000000000000000000000000000000000000000000120",
        "000000000000000000000000000000000000000000000000000000006553ed18",
        "000000000000000000000000000000000000000000000000000000006553f09c",
        "000000000000000000000000eeeeeeeeeeeeeeeeeeeeeeeeeeeeeeeeeeeeeeee",
        "0000000000000000000000000000000000000000000000000000000000000064",
        "000000000000000000000000aaaaaaaaaaaaaaaaaaaaaaaaaaaaaaaaaaaaaaaa",
        "00000000000000000000000000000000000000000000000000000000000003e8",
        "000000000000000000000000000000000000000000000000000000000000044c",
        "0000000000000000000000000000000000000000000000000000000000000220",
        "0000000000000000000000006000da47483062a0d734ba3dc7576ce6a0b645c4",
        "0000000000000000000000001111111111111111111111111111111111111111",
        "0000000000000000000000000000000000000000000000000123456789abcdef",
        "000000000000000000000000000000000000000000000000000000006553f100",
        "0000000000000000000000000000000000000000000000000000000000000000",
        "00000000000000000000000000000000000000000000000000000000000000c0",
        "0000000000000000000000000000000000000000000000000000000000000005",
        "68656c6c6f000000000000000000000000000000000000000000000000000000",
        "0000000000000000000000000000000000000000000000000000000000000002",
        "000000000000000000000000bbbbbbbbbbbbbbbbbbbbbbbbbbbbbbbbbbbbbbbb",
        "00000000000000000000000000000000000000000000000000000000000007d0",
        "000000000000000000000000000000000000000000000000000000000000076c",
        "0000000000000000000000001111111111111111111111111111111111111111",
        "000000000000000000000000cccccccccccccccccccccccccccccccccccccccc",
        "0000000000000000000000000000000000000000000000000000000000000005",
        "0000000000000000000000000000000000000000000000000000000000000004",
        "000000000000000000000000dddddddddddddddddddddddddddddddddddddddd",
    ]
    .concat()
}

fn dutch_hex() -> String {
    [
        "0000000000000000000000000000000000000000000000000000000000000020",
        "00000000000000000000000000000000000000000000000000000000000000e0",
        "000000000000000000000000000000000000000000000000000000006553ed18",
        "000000000000000000000000000000000000000000000000000000006553f09c",
        "000000000000000000000000aaaaaaaaaaaaaaaaaaaaaaaaaaaaaaaaaaaaaaaa",
        "00000000000000000000000000000000000000000000000000000000000003e8",
        "000000000000000000000000000000000000000000000000000000000000044c",
        "00000000000000000000000000000000000000000000000000000000000001c0",
        "0000000000000000000000006000da47483062a0d734ba3dc7576ce6a0b645c4",
        "0000000000000000000000002222222222222222222222222222222222222222",
        "0000000000000000000000000000000000000000000000000000000000000007",
        "000000000000000000000000000000000000000000000000000000006553f164",
        "0000000000000000000000000000000000000000000000000000000000000000",
        "00000000000000000000000000000000000000000000000000000000000000c0",
        "0000000000000000000000000000000000000000000000000000000000000000",
        "0000000000000000000000000000000000000000000000000000000000000001",
        "000000000000000000000000bbbbbbbbbbbbbbbbbbbbbbbbbbbbbbbbbbbbbbbb",
        "00000000000000000000000000000000000000000000000000000000000007d0",
        "000000000000000000000000000000000000000000000000000000000000076c",
        "0000000000000000000000001111111111111111111111111111111111111111",
    ]
    .concat()
}

fn limit_hex() -> String {
    [
        "0000000000000000000000000000000000000000000000000000000000000020",
        "00000000000000000000000000000000000000000000000000000000000000a0",
        "000000000000000000000000aaaaaaaaaaaaaaaaaaaaaaaaaaaaaaaaaaaaaaaa",
        "00000000000000000000000000000000000000000000000000000000000003e8",
        "00000000000000000000000000000000000000000000000000000000000003e8",
        "00000000000000000000000000000000000000000000000000000000000001a0",
        "0000000000000000000000006000da47483062a0d734ba3dc7576ce6a0b645c4",
        "0000000000000000000000001111111111111111111111111111111111111111",
        "0000000000000000000000000000000000000000000000000123456789abcdef",
        "000000000000000000000000000000000000000000000000000000006553f100",
        "0000000000000000000000000000000000000000000000000000000000000000",
        "00000000000000000000000000000000000000000000000000000000000000c0",
        "0000000000000000000000000000000000000000000000000000000000000005",
        "68656c6c6f000000000000000000000000000000000000000000000000000000",
        "0000000000000000000000000000000000000000000000000000000000000001",
        "000000000000000000000000bbbbbbbbbbbbbbbbbbbbbbbbbbbbbbbbbbbbbbbb",
        "00000000000000000000000000000000000000000000000000000000000007d0",
        "0000000000000000000000001111111111111111111111111111111111111111",
    ]
    .concat()
}

fn limit_without_outputs_hex() -> String {
    [
        "0000000000000000000000000000000000000000000000000000000000000020",
        "00000000000000000000000000000000000000000000000000000000000000a0",
        "000000000000000000000000aaaaaaaaaaaaaaaaaaaaaaaaaaaaaaaaaaaaaaaa",
        "00000000000000000000000000000000000000000000000000000000000003e8",
        "00000000000000000000000000000000000000000000000000000000000003e8",
        "0000000000000000000000000000000000000000000000000000000000000180",
        "0000000000000000000000006000da47483062a0d734ba3dc7576ce6a0b645c4",
        "0000000000000000000000002222222222222222222222222222222222222222",
        "0000000000000000000000000000000000000000000000000000000000000007",
        "000000000000000000000000000000000000000000000000000000006553f164",
        "0000000000000000000000000000000000000000000000000000000000000000",
        "00000000000000000000000000000000000000000000000000000000000000c0",
        "0000000000000000000000000000000000000000000000000000000000000000",
        "0000000000000000000000000000000000000000000000000000000000000000",
    ]
    .concat()
}

#[test]
fn exclusive_dutch_order_encodes_canonically() {
    let order = exclusive_order();
    assert_eq!(order.encoded_size(), Some(unhex(&exclusive_hex()).len()));
    assert_eq!(order.encode(), unhex(&exclusive_hex()));
    assert_eq!(order.encode(), alloy_exclusive(&order));
}

#[test]
fn dutch_order_encodes_canonically() {
    let order = dutch_order();
    assert_eq!(order.encoded_size(), Some(unhex(&dutch_hex()).len()));
    assert_eq!(order.encode(), unhex(&dutch_hex()));
    assert_eq!(order.encode(), alloy_dutch(&order));
}

#[test]
fn limit_order_encodes_canonically() {
    let order = limit_order();
    assert_eq!(order.encoded_size(), Some(unhex(&limit_hex()).len()));
    assert_eq!(order.encode(), unhex(&limit_hex()));
    assert_eq!(order.encode(), alloy_limit(&order));
}

#[test]
fn order_without_outputs_and_without_data_has_the_least_size() {
    let order = limit_order_without_outputs();
    assert_eq!(order.encoded_size(), Some(448));
    assert_eq!(order.encode(), unhex(&limit_without_outputs_hex()));
    assert_eq!(order.encode(), alloy_limit(&order));
    assert_eq!(LimitOrder::decode(&order.encode()), Ok(order));
}

#[test]
fn validation_data_of_every_length_up_to_two_words_round_trips() {
    for len in 0..=65usize {
        let mut order = exclusive_order();
        order.info.additional_validation_data = (0..len).map(|i| (i + 1) as u8).collect();
        let bytes = order.encode();
        assert_eq!(bytes.len() % 32, 0);
        assert_eq!(bytes, alloy_exclusive(&order));
        assert_eq!(ExclusiveDutchOrder::decode(&bytes), Ok(order));
    }
}

#[test]
fn decoding_gives_the_encoded_order_back() {
    assert_eq!(ExclusiveDutchOrder::decode(&unhex(&exclusive_hex())), Ok(exclusive_order()));
    assert_eq!(DutchOrder::decode(&unhex(&dutch_hex())), Ok(dutch_order()));
    assert_eq!(LimitOrder::decode(&unhex(&limit_hex())), Ok(limit_order()));
}

#[test]
fn decoding_from_hexadecimal_text() {
    assert_eq!(ExclusiveDutchOrder::try_from(exclusive_hex()), Ok(exclusive_order()));
    assert_eq!(
        ExclusiveDutchOrder::try_from(format!("0x{}", exclusive_hex())),
        Ok(exclusive_order())
    );
    assert_eq!(DutchOrder::try_from(format!("0x{}", dutch_hex())), Ok(dutch_order()));
    assert_eq!(LimitOrder::try_from(limit_hex()), Ok(limit_order()));
    assert_eq!(
        SolLimitOrder::hex_decode_single(&limit_hex(), true).ok().map(|t| t.0 .0),
        Some(alloy_primitives::Address::from(reactor().bytes))
    );
}

#[test]
fn text_that_is_not_hexadecimal_is_refused() {
    assert_eq!(LimitOrder::try_from("0xzz".to_string()), Err(EncodingError::InvalidHex));
    assert_eq!(LimitOrder::try_from("abc".to_string()), Err(EncodingError::InvalidHex));
    assert_eq!(DutchOrder::try_from("0x0g".to_string()), Err(EncodingError::InvalidHex));
    assert_eq!(
        ExclusiveDutchOrder::try_from("hello world!".to_string()),
        Err(EncodingError::InvalidHex)
    );
    assert!(SolLimitOrder::hex_decode_single("0xzz", true).is_err());
}

#[test]
fn bytes_of_another_layout_are_refused() {
    assert_eq!(LimitOrder::try_from(String::new()), Err(EncodingError::Malformed));
    assert_eq!(LimitOrder::try_from("0x".to_string()), Err(EncodingError::Malformed));
    assert_eq!(LimitOrder::try_from(exclusive_hex()), Err(EncodingError::Malformed));
    assert_eq!(DutchOrder::try_from(exclusive_hex()), Err(EncodingError::Malformed));
    assert_eq!(ExclusiveDutchOrder::try_from(dutch_hex()), Err(EncodingError::Malformed));
    assert_eq!(ExclusiveDutchOrder::try_from(limit_hex()), Err(EncodingError::Malformed));
    assert!(SolLimitOrder::decode_single(&unhex(&exclusive_hex()), true).is_err());
    assert!(SolExclusiveDutchOrder::decode_single(&unhex(&dutch_hex()), true).is_err());
}

fn refused_by_both(bytes: &[u8]) {
    assert_eq!(ExclusiveDutchOrder::decode(bytes), Err(EncodingError::Malformed));
    assert!(SolExclusiveDutchOrder::decode_single(bytes, true).is_err());
}

#[test]
fn bytes_that_are_not_canonical_are_refused() {
    let good = unhex(&exclusive_hex());
    assert!(SolExclusiveDutchOrder::decode_single(&good, true).is_ok());

    // One byte too few, one word too many.
    refused_by_both(&good[..good.len() - 1]);
    let mut longer = good.clone();
    longer.extend_from_slice(&[0u8; 32]);
    refused_by_both(&longer);

    // The offset of the struct is not 32.
    let mut bytes = good.clone();
    bytes[31] = 0x40;
    refused_by_both(&bytes);

    // Something stands before an address in its word.
    let mut bytes = good.clone();
    bytes[128] = 1;
    refused_by_both(&bytes);

    // The padding of the validation data is not zero.
    let mut bytes = good.clone();
    bytes[544 + 5] = 1;
    refused_by_both(&bytes);

    // The length of the validation data points beyond the end.
    let mut bytes = good.clone();
    bytes[512 + 30] = 0xff;
    refused_by_both(&bytes);

    // The length of the validation data does not fit into eight bytes.
    let mut bytes = good.clone();
    bytes[512] = 1;
    refused_by_both(&bytes);

    // The number of outputs is one too many for the bytes.
    let mut bytes = good.clone();
    let at = 544 + 32;
    bytes[at + 31] = 3;
    refused_by_both(&bytes);
}

#[test]
fn too_few_bytes_are_refused() {
    for len in [0usize, 1, 31, 32, 64, 447, 448, 575] {
        let bytes = vec![0u8; len];
        assert_eq!(ExclusiveDutchOrder::decode(&bytes), Err(EncodingError::Malformed));
        assert_eq!(DutchOrder::decode(&bytes), Err(EncodingError::Malformed));
    }
    assert_eq!(LimitOrder::decode(&vec![0u8; 447]), Err(EncodingError::Malformed));
}

#[test]
fn type_hashes_are_those_of_the_type_texts() {
    assert_eq!(exclusive_order().eip712_type_hash(), hash("43023963b58983fc7bc97221c1a40e616f6b77077120f83b4ddaf1e4baee74f6"));
    assert_eq!(dutch_order().eip712_type_hash(), hash("f3abacc9ee041e89a2ca11384f8dfcf07b96699e57faf19c4f11fe0df7f76bba"));
    assert_eq!(limit_order().eip712_type_hash(), hash("fb01f82184994d25262d23c29cc9464b3fa9848ec78a0c953b06ac3e2fd9da37"));
    assert_eq!(
        uniswapx_sdk::eip712::type_hash_of(
            "OrderInfo(address reactor,address swapper,uint256 nonce,uint256 deadline,address additionalValidationContract,bytes additionalValidationData)"
        ),
        hash("7daca11202c64729871927c37d75933f1852e430627cd4b8f4844087e312e94b")
    );
}

#[test]
fn keccak_of_known_inputs() {
    assert_eq!(uniswapx_sdk::eip712::type_hash_of(""), hash("c5d2460186f7233c927e7db2dcc703c0e500b653ca82273b7bfad8045d85a470"));
    assert_eq!(uniswapx_sdk::eip712::type_hash_of("hello"), hash("1c8aff950685c2ed4bc3174f3472287b56d9517b9c948127319a09a7a36deac8"));
    assert_eq!(
        uniswapx_sdk::eip712::type_hash_of("hello").bytes,
        alloy_primitives::keccak256(b"hello").0
    );
}

#[test]
fn struct_hashes_of_known_orders() {
    assert_eq!(info_with_data().eip712_hash_struct(), hash("e4e328f879c13025b3d34172cc9f21794a08deab7b10f6a3cea077e35f94f6f7"));
    assert_eq!(exclusive_order().eip712_hash_struct(), hash("35f14a1b82b63dc294c37a27bd928dde2c0aef9b0787a0bc8a17404a288c6bcb"));
    assert_eq!(dutch_order().eip712_hash_struct(), hash("9c99d801dd058dc62a2959744aad0dbcdb3d90941d7cff47b38a6cdde6c56feb"));
    assert_eq!(limit_order().eip712_hash_struct(), hash("1663d613d6d37680d78e8f134e7e5ae2490541cd0a52a45ae539dc8ec8240904"));
}

#[test]
fn words_of_atomic_fields_are_those_of_alloy() {
    let info = info_with_data();
    assert_eq!(
        <sol_data::Bytes as SolType>::eip712_data_word(&info.additional_validation_data).0,
        alloy_primitives::keccak256(b"hello").0
    );
    assert_eq!(
        <sol_data::Uint<256> as SolType>::eip712_data_word(&a_num(&info.deadline)).0,
        info.deadline.bytes
    );
    let word = <sol_data::Address as SolType>::eip712_data_word(&a_addr(&info.reactor)).0;
    assert_eq!(&word[..12], &[0u8; 12]);
    assert_eq!(&word[12..], &info.reactor.bytes);
}

#[test]
fn the_signature_takes_no_part_in_the_hash() {
    let a = Order::new(OrderInner::ExclusiveDutch(exclusive_order()), "0xaa".to_string());
    let b = Order::new(OrderInner::ExclusiveDutch(exclusive_order()), "0xbb".to_string());
    assert_eq!(a.struct_hash(), b.struct_hash());
    assert_eq!(a.key(), b.key());
    assert_eq!(a.struct_hash(), hash("35f14a1b82b63dc294c37a27bd928dde2c0aef9b0787a0bc8a17404a288c6bcb"));
}

#[test]
fn the_hash_follows_the_content() {
    let a = exclusive_order();
    let mut b = exclusive_order();
    b.info.nonce = num(8);
    assert_ne!(a.eip712_hash_struct(), b.eip712_hash_struct());
    let mut c = exclusive_order();
    c.outputs.pop();
    assert_ne!(a.eip712_hash_struct(), c.eip712_hash_struct());
    let mut d = exclusive_order();
    d.info.additional_validation_data = b"hellp".to_vec();
    assert_ne!(a.eip712_hash_struct(), d.eip712_hash_struct());
}

#[test]
fn orders_of_different_kinds_hash_differently() {
    let exclusive = exclusive_order();
    let dutch = DutchOrder {
        info: exclusive.info.clone(),
        decay_start_time: exclusive.decay_start_time,
        decay_end_time: exclusive.decay_end_time,
        input: exclusive.input,
        outputs: exclusive.outputs.clone(),
    };
    assert_ne!(exclusive.eip712_type_hash(), dutch.eip712_type_hash());
    assert_ne!(exclusive.eip712_hash_struct(), dutch.eip712_hash_struct());
    assert_ne!(dutch.eip712_type_hash(), limit_order().eip712_type_hash());
}

#[test]
fn the_type_hash_is_the_same_for_all_orders_of_a_kind() {
    let mut other = exclusive_order();
    other.info.nonce = num(99);
    other.outputs.clear();
    assert_eq!(exclusive_order().eip712_type_hash(), other.eip712_type_hash());
    let a = Order::new(OrderInner::ExclusiveDutch(exclusive_order()), String::new());
    let b = Order::new(OrderInner::ExclusiveDutch(other), "0x01".to_string());
    assert_eq!(a.type_hash(), b.type_hash());
}

#[test]
fn the_key_is_the_hexadecimal_text_of_the_hash() {
    let order = Order::new(OrderInner::Limit(limit_order()), "0x00".to_string());
    assert_eq!(order.key(), "0x1663d613d6d37680d78e8f134e7e5ae2490541cd0a52a45ae539dc8ec8240904");
    assert_eq!(order.key().len(), 66);
    assert_eq!(order.key(), order.struct_hash().to_hex_string());
    assert_eq!(
        order.key(),
        alloy_primitives::B256::from(order.struct_hash().bytes).to_string()
    );
}

#[test]
fn accessors_follow_the_kind() {
    let limit = Order::new(OrderInner::Limit(limit_order()), "0x00".to_string());
    let dutch = Order::new(OrderInner::Dutch(dutch_order()), "0x00".to_string());
    let exclusive = Order::new(OrderInner::ExclusiveDutch(exclusive_order()), "0x00".to_string());
    assert_eq!(limit.order_type(), OrderType::Limit);
    assert_eq!(dutch.order_type(), OrderType::Dutch);
    assert_eq!(exclusive.order_type(), OrderType::ExclusiveDutch);
    assert_eq!(limit.deadline(), num(1700000000));
    assert_eq!(dutch.deadline(), num(1700000100));
    assert_eq!(exclusive.deadline().to_u64(), Some(1700000000));
    assert_eq!(limit.reactor_address(), reactor());
    assert_eq!(dutch.info(), &info_without_data());
    assert_eq!(exclusive.inner.info(), &info_with_data());
    assert_eq!(limit.encode(), unhex(&limit_hex()));
    assert_eq!(dutch.encode(), unhex(&dutch_hex()));
    assert_eq!(exclusive.inner.encode(), unhex(&exclusive_hex()));
    assert_eq!(exclusive.inner.encoded_size(), Some(unhex(&exclusive_hex()).len()));
    assert_eq!(limit.inner.struct_hash(), limit_order().eip712_hash_struct());
    assert_eq!(dutch.inner.type_hash(), dutch_order().eip712_type_hash());
}

#[test]
fn conversions_into_the_content_of_an_order() {
    assert_eq!(OrderInner::from(limit_order()), OrderInner::Limit(limit_order()));
    assert_eq!(OrderInner::from(dutch_order()), OrderInner::Dutch(dutch_order()));
    assert_eq!(
        OrderInner::from(exclusive_order()),
        OrderInner::ExclusiveDutch(exclusive_order())
    );
    let order = Order::new(OrderInner::from(limit_order()), "0xabcd".to_string());
    assert_eq!(order.sig, "0xabcd");
    assert_eq!(order.clone(), order);
}

#[test]
fn the_quoter_address_is_the_documented_one() {
    let order = Order::new(OrderInner::Limit(limit_order()), "0x00".to_string());
    assert_eq!(
        order.quoter_address().bytes.to_vec(),
        unhex("0x7714520f383C998e8822E8743FD6f90A2979689b")
    );
}

#[test]
fn the_quote_call_hands_the_order_and_the_signature_over() {
    let order = Order::new(OrderInner::Limit(limit_order()), "0xabcdef".to_string());
    let call = order.quote_call(order.quoter_address()).expect("a hexadecimal signature");
    assert_eq!(call.to, order.quoter_address());
    assert_eq!(
        call.data,
        unhex(
            &[
                "41d88d6900000000000000000000000000000000000000000000000000000000",
                "0000004000000000000000000000000000000000000000000000000000000000",
                "000002a000000000000000000000000000000000000000000000000000000000",
                "0000024000000000000000000000000000000000000000000000000000000000",
                "0000002000000000000000000000000000000000000000000000000000000000",
                "000000a0000000000000000000000000aaaaaaaaaaaaaaaaaaaaaaaaaaaaaaaa",
                "aaaaaaaa00000000000000000000000000000000000000000000000000000000",
                "000003e800000000000000000000000000000000000000000000000000000000",
                "000003e800000000000000000000000000000000000000000000000000000000",
                "000001a00000000000000000000000006000da47483062a0d734ba3dc7576ce6",
                "a0b645c400000000000000000000000011111111111111111111111111111111",
                "1111111100000000000000000000000000000000000000000000000001234567",
                "89abcdef00000000000000000000000000000000000000000000000000000000",
                "6553f10000000000000000000000000000000000000000000000000000000000",
                "0000000000000000000000000000000000000000000000000000000000000000",
                "000000c000000000000000000000000000000000000000000000000000000000",
                "0000000568656c6c6f0000000000000000000000000000000000000000000000",
                "0000000000000000000000000000000000000000000000000000000000000000",
                "00000001000000000000000000000000bbbbbbbbbbbbbbbbbbbbbbbbbbbbbbbb",
                "bbbbbbbb00000000000000000000000000000000000000000000000000000000",
                "000007d000000000000000000000000011111111111111111111111111111111",
                "1111111100000000000000000000000000000000000000000000000000000000",
                "00000003abcdef00000000000000000000000000000000000000000000000000",
                "00000000",
            ]
            .concat()
        )
    );
    let params = <(sol_data::Bytes, sol_data::Bytes) as SolType>::encode(&(
        order.encode(),
        vec![0xab, 0xcd, 0xef],
    ));
    assert_eq!(&call.data[4..], &params[..]);
}

#[test]
fn a_signature_that_is_not_hexadecimal_is_refused() {
    let order = Order::new(OrderInner::Limit(limit_order()), "signature".to_string());
    assert_eq!(
        order.quote_call(order.quoter_address()),
        Err(uniswapx_sdk::validation::ValidationError::SigParseError("signature".to_string()))
    );
}
