use uniswapx_sdk::hex::{decode, encode_prefixed, hex_digit_str};
use uniswapx_sdk::primitives::{bytes_eq, Address, B256, U256};

#[test]
fn bytes_are_written_in_lower_case_with_a_prefix() {
    assert_eq!(encode_prefixed(&[]), "0x");
    assert_eq!(encode_prefixed(&[0x00]), "0x00");
    assert_eq!(encode_prefixed(&[0x0f, 0xf0, 0xAB, 0x10]), "0x0ff0ab10");
    assert_eq!(encode_prefixed(b"kiwi"), "0x6b697769");
}

#[test]
fn every_byte_is_written_as_alloy_writes_it() {
    let all: Vec<u8> = (0..=255u8).collect();
    assert_eq!(encode_prefixed(&all), alloy_primitives::hex::encode_prefixed(&all));
    assert_eq!(decode(encode_prefixed(&all).as_bytes()), Some(all));
}

#[test]
fn the_digits_are_the_sixteen_hexadecimal_digits() {
    let digits: Vec<&str> = (0..16u8).map(hex_digit_str).collect();
    assert_eq!(digits.concat(), "0123456789abcdef");
}

#[test]
fn text_is_read_with_or_without_a_prefix_and_in_either_case() {
    assert_eq!(decode(b""), Some(vec![]));
    assert_eq!(decode(b"0x"), Some(vec![]));
    assert_eq!(decode(b"0X"), Some(vec![]));
    assert_eq!(decode(b"00"), Some(vec![0]));
    assert_eq!(decode(b"0xff"), Some(vec![0xff]));
    assert_eq!(decode(b"0XfF"), Some(vec![0xff]));
    assert_eq!(decode(b"f9B4Ca"), Some(vec![0xf9, 0xb4, 0xca]));
    assert_eq!(decode(b"48656c6c6f20776f726c6421"), Some(b"Hello world!".to_vec()));
    assert_eq!(decode(b"0x48656c6c6f20776f726c6421"), Some(b"Hello world!".to_vec()));
    assert_eq!(decode(b"0x0x"), None);
    assert_eq!(decode(b"0a0x"), None);
}

#[test]
fn text_of_odd_length_or_with_another_character_is_refused() {
    for text in ["1", "123", "0x1", "0x123", "foo", "0xzz", "gg", "0x0g", "12 4", "0x-1", "\u{e9}"] {
        assert_eq!(decode(text.as_bytes()), None);
        assert!(alloy_primitives::hex::decode(text).is_err());
    }
}

#[test]
fn text_is_read_as_alloy_reads_it() {
    for text in ["", "0x", "0X", "00", "0xFf", "0XaB", "f9b4ca", "0x0x", "x0", "0x0", "0Xg0", "/0", ":0", "@A", "G0", "`a", "g0"] {
        assert_eq!(decode(text.as_bytes()), alloy_primitives::hex::decode(text).ok());
    }
}

#[test]
fn bytes_are_compared_by_content() {
    assert!(bytes_eq(&[], &[]));
    assert!(bytes_eq(&[1, 2, 3], &[1, 2, 3]));
    assert!(!bytes_eq(&[1, 2, 3], &[1, 2, 4]));
    assert!(!bytes_eq(&[1, 2, 3], &[1, 2]));
    assert!(!bytes_eq(&[], &[0]));
}

#[test]
fn fixed_values_are_compared_by_content() {
    assert!(Address::zero().same(&Address { bytes: [0; 20] }));
    assert!(!Address::zero().same(&Address { bytes: [1; 20] }));
    assert_eq!(Address::zero(), Address { bytes: [0; 20] });
    assert!(B256 { bytes: [7; 32] }.same(&B256 { bytes: [7; 32] }));
    let mut other = [7u8; 32];
    other[31] = 8;
    assert!(!B256 { bytes: [7; 32] }.same(&B256 { bytes: other }));
    assert!(U256::from_u64(5).same(&U256::from_u64(5)));
    assert!(!U256::from_u64(5).same(&U256::from_u64(6)));
}

#[test]
fn numbers_are_held_most_significant_byte_first() {
    assert_eq!(U256::from_u64(0).bytes, [0u8; 32]);
    let one = U256::from_u64(1);
    assert_eq!(one.bytes[31], 1);
    assert_eq!(&one.bytes[..31], &[0u8; 31]);
    let big = U256::from_u64(0x0102030405060708);
    assert_eq!(&big.bytes[24..], &[1, 2, 3, 4, 5, 6, 7, 8]);
    assert_eq!(&big.bytes[..24], &[0u8; 24]);
    assert_eq!(U256::from_u64(u64::MAX).to_u64(), Some(u64::MAX));
    assert_eq!(U256::from_u64(0).to_u64(), Some(0));
    assert_eq!(
        alloy_primitives::U256::from_be_bytes(U256::from_u64(1700000000).bytes),
        alloy_primitives::U256::from(1700000000u64)
    );
}

#[test]
fn a_number_above_the_range_is_not_given_as_u64() {
    let mut bytes = [0u8; 32];
    bytes[23] = 1;
    assert_eq!(U256 { bytes }.to_u64(), None);
    assert_eq!(U256 { bytes: [0xff; 32] }.to_u64(), None);
    let mut bytes = [0u8; 32];
    bytes[0] = 1;
    assert_eq!(U256 { bytes }.to_u64(), None);
}

#[test]
fn a_hash_is_written_as_sixty_four_digits() {
    let hash = B256 { bytes: [0xab; 32] };
    assert_eq!(hash.to_hex_string(), format!("0x{}", "ab".repeat(32)));
    assert_eq!(hash.to_hex_string(), alloy_primitives::B256::from(hash.bytes).to_string());
}
