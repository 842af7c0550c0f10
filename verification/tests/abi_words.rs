use uniswapx_sdk::abi::{
    encoded_len, push_address, push_bytes, push_bytes_pair, push_len, push_slice, push_uint,
    push_zeros, read_address, read_bytes, read_len, read_uint,
};
use uniswapx_sdk::primitives::{Address, U256};

fn word(last: u64) -> Vec<u8> {
    let mut w = vec![0u8; 24];
    w.extend_from_slice(&last.to_be_bytes());
    w
}

#[test]
fn a_length_is_written_as_one_word() {
    let mut out = vec![9u8];
    push_len(&mut out, 0);
    push_len(&mut out, 32);
    push_len(&mut out, 0x0102030405060708);
    assert_eq!(out.len(), 97);
    assert_eq!(out[0], 9);
    assert_eq!(&out[1..33], &word(0)[..]);
    assert_eq!(&out[33..65], &word(32)[..]);
    assert_eq!(&out[65..97], &word(0x0102030405060708)[..]);
}

#[test]
fn the_greatest_length_is_written_without_loss() {
    let mut out = Vec::new();
    push_len(&mut out, usize::MAX);
    assert_eq!(read_len(&out, 0), Some(usize::MAX));
    assert_eq!(out, ethers::abi::encode(&[ethers::abi::Token::Uint(usize::MAX.into())]));
}

#[test]
fn a_length_is_read_back() {
    let mut data = vec![7u8; 3];
    push_len(&mut data, 1234567);
    push_len(&mut data, 0);
    assert_eq!(read_len(&data, 3), Some(1234567));
    assert_eq!(read_len(&data, 35), Some(0));
}

#[test]
fn a_number_that_no_usize_holds_is_not_read_as_a_length() {
    let mut data = vec![0u8; 32];
    data[23] = 1;
    assert_eq!(read_len(&data, 0), None);
    let mut data = vec![0u8; 32];
    data[0] = 0x80;
    assert_eq!(read_len(&data, 0), None);
    assert_eq!(read_len(&[0xffu8; 32], 0), None);
}

#[test]
fn an_address_is_written_behind_twelve_zero_bytes() {
    let mut out = Vec::new();
    let a = Address { bytes: [0x5a; 20] };
    push_address(&mut out, &a);
    assert_eq!(out.len(), 32);
    assert_eq!(&out[..12], &[0u8; 12]);
    assert_eq!(&out[12..], &[0x5a; 20]);
    assert_eq!(read_address(&out, 0), a);
    assert_eq!(
        out,
        ethers::abi::encode(&[ethers::abi::Token::Address(ethers::types::H160(a.bytes))])
    );
}

#[test]
fn an_address_is_read_whatever_stands_before_it() {
    let mut data = vec![0xffu8; 12];
    data.extend_from_slice(&[0x33; 20]);
    assert_eq!(read_address(&data, 0), Address { bytes: [0x33; 20] });
}

#[test]
fn an_integer_is_written_as_its_bytes() {
    let mut out = vec![1u8, 2];
    let u = U256 { bytes: [0xc3; 32] };
    push_uint(&mut out, &u);
    assert_eq!(out.len(), 34);
    assert_eq!(&out[2..], &[0xc3; 32]);
    assert_eq!(read_uint(&out, 2), u);
}

#[test]
fn zeros_and_slices_are_appended() {
    let mut out = vec![1u8];
    push_zeros(&mut out, 0);
    assert_eq!(out, vec![1]);
    push_zeros(&mut out, 3);
    assert_eq!(out, vec![1, 0, 0, 0]);
    push_slice(&mut out, &[]);
    push_slice(&mut out, &[4, 5]);
    assert_eq!(out, vec![1, 0, 0, 0, 4, 5]);
    assert_eq!(read_bytes(&out, 1, 4), vec![0, 0, 0, 4]);
    assert_eq!(read_bytes(&out, 6, 0), Vec::<u8>::new());
}

#[test]
fn a_byte_string_is_written_with_its_length_and_filled_up() {
    for len in [0usize, 1, 5, 31, 32, 33, 64, 65] {
        let bytes: Vec<u8> = (0..len).map(|i| (i % 251) as u8 + 1).collect();
        let mut out = Vec::new();
        push_bytes(&mut out, &bytes);
        assert_eq!(out.len(), encoded_len(&bytes));
        assert_eq!(out.len() % 32, 0);
        assert_eq!(out.len(), 32 + (len + 31) / 32 * 32);
        assert_eq!(read_len(&out, 0), Some(len));
        assert_eq!(&out[32..32 + len], &bytes[..]);
        assert!(out[32 + len..].iter().all(|b| *b == 0));
        // A byte string on its own is encoded behind its offset.
        let alone = ethers::abi::encode(&[ethers::abi::Token::Bytes(bytes.clone())]);
        assert_eq!(&alone[32..], &out[..]);
    }
}

#[test]
fn a_pair_of_byte_strings_is_written_behind_its_offsets() {
    for (a, b) in [(0usize, 0usize), (1, 0), (0, 1), (5, 65), (32, 32), (33, 31)] {
        let first: Vec<u8> = vec![0xa1; a];
        let second: Vec<u8> = vec![0xb2; b];
        let mut out = Vec::new();
        push_bytes_pair(&mut out, &first, &second);
        assert_eq!(
            out,
            ethers::abi::encode(&[
                ethers::abi::Token::Bytes(first.clone()),
                ethers::abi::Token::Bytes(second.clone()),
            ])
        );
    }
}
