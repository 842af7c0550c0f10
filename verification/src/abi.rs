//! The 32-byte words of the contract ABI: how addresses, integers, lengths
//! and byte strings are written into them and read back.

use vstd::prelude::*;
use vstd::slice::slice_subrange;
use crate::primitives::{be_value, Address, U256};

verus! {

broadcast use vstd::array::group_array_axioms;

/// `n` zero bytes.
pub open spec fn zeros(n: nat) -> Seq<u8> {
    Seq::new(n, |i: int| 0u8)
}

/// The `len` big-endian bytes of `v`, taken modulo 256^`len`.
pub open spec fn be_bytes(v: nat, len: nat) -> Seq<u8>
    decreases len,
{
    if len == 0 {
        Seq::empty()
    } else {
        be_bytes(v / 256, (len - 1) as nat).push((v % 256) as u8)
    }
}

/// Whether `v` is below 256^`len`.
pub open spec fn fits(v: nat, len: nat) -> bool
    decreases len,
{
    if len == 0 {
        v == 0
    } else {
        fits(v / 256, (len - 1) as nat)
    }
}

/// The word that holds a length or an offset.
pub open spec fn len_word(n: nat) -> Seq<u8> {
    be_bytes(n, 32)
}

/// The word that holds an address: twelve zero bytes, then the address.
pub open spec fn address_word(a: Address) -> Seq<u8> {
    zeros(12) + a@
}

/// The address whose bytes are the low twenty bytes of the word at `pos`.
pub open spec fn address_at(data: Seq<u8>, pos: int) -> Address {
    choose|a: Address| a@ == data.subrange(pos + 12, pos + 32)
}

/// The integer whose bytes are the word at `pos`.
pub open spec fn uint_at(data: Seq<u8>, pos: int) -> U256 {
    choose|u: U256| u@ == data.subrange(pos, pos + 32)
}

/// The number of zero bytes that fill `n` bytes up to whole words.
pub open spec fn pad_len(n: nat) -> nat {
    ((32 - n % 32) % 32) as nat
}

/// `bytes`, filled up with zero bytes to whole words.
pub open spec fn padded(bytes: Seq<u8>) -> Seq<u8> {
    bytes + zeros(pad_len(bytes.len()))
}

/// A byte string of any length: its length word, then its padded content.
pub open spec fn bytes_enc(bytes: Seq<u8>) -> Seq<u8> {
    len_word(bytes.len()) + padded(bytes)
}

/// `be_bytes` gives as many bytes as it is asked for.
pub proof fn lemma_be_bytes_len(v: nat, len: nat)
    ensures
        be_bytes(v, len).len() == len,
    decreases len,
{
    if len > 0 {
        lemma_be_bytes_len(v / 256, (len - 1) as nat);
    }
}

/// Written as many bytes as they are, bytes spell a number that is written
/// as those same bytes.
pub proof fn lemma_be_bytes_of_value(b: Seq<u8>)
    ensures
        be_bytes(be_value(b), b.len()) == b,
        fits(be_value(b), b.len()),
    decreases b.len(),
{
    if b.len() > 0 {
        lemma_be_bytes_of_value(b.drop_last());
        let v = be_value(b);
        assert(v / 256 == be_value(b.drop_last()));
        assert(v % 256 == b.last());
        assert(be_bytes(v, b.len()) =~= b);
    } else {
        assert(be_bytes(be_value(b), b.len()) =~= b);
    }
}

/// The bytes of a number that fits spell that number.
pub proof fn lemma_be_value_of_bytes(v: nat, len: nat)
    requires
        fits(v, len),
    ensures
        be_value(be_bytes(v, len)) == v,
    decreases len,
{
    if len > 0 {
        lemma_be_value_of_bytes(v / 256, (len - 1) as nat);
        let b = be_bytes(v, len);
        assert(b.drop_last() =~= be_bytes(v / 256, (len - 1) as nat));
    }
}

/// Zero fits into any number of bytes.
pub proof fn lemma_zero_fits(len: nat)
    ensures
        fits(0, len),
    decreases len,
{
    if len > 0 {
        lemma_zero_fits((len - 1) as nat);
    }
}

/// A number below 2^64 fits into a word, and its word spells it.
pub proof fn lemma_len_word(n: nat)
    requires
        n < 0x1_0000_0000_0000_0000,
    ensures
        len_word(n).len() == 32,
        be_value(len_word(n)) == n,
{
    let n1 = n / 256;
    let n2 = n1 / 256;
    let n3 = n2 / 256;
    let n4 = n3 / 256;
    let n5 = n4 / 256;
    let n6 = n5 / 256;
    let n7 = n6 / 256;
    let n8 = n7 / 256;
    assert(n8 == 0);
    lemma_zero_fits(24);
    assert(fits(n8, 24));
    assert(fits(n7, 25));
    assert(fits(n6, 26));
    assert(fits(n5, 27));
    assert(fits(n4, 28));
    assert(fits(n3, 29));
    assert(fits(n2, 30));
    assert(fits(n1, 31));
    assert(fits(n, 32));
    lemma_be_value_of_bytes(n, 32);
    lemma_be_bytes_len(n, 32);
}

/// A prefix of a byte string spells no more than the whole string.
pub proof fn lemma_be_value_prefix(b: Seq<u8>, k: int)
    requires
        0 <= k <= b.len(),
    ensures
        be_value(b.take(k)) <= be_value(b),
    decreases b.len() - k,
{
    if k < b.len() {
        lemma_be_value_prefix(b, k + 1);
        assert(b.take(k + 1).drop_last() =~= b.take(k));
    } else {
        assert(b.take(k) =~= b);
    }
}

/// Appends `n` zero bytes.
pub fn push_zeros(out: &mut Vec<u8>, n: usize)
    ensures
        final(out)@ == old(out)@ + zeros(n as nat),
{
    let mut i: usize = 0;
    while i < n
        invariant
            i <= n,
            out@ == old(out)@ + zeros(i as nat),
        decreases n - i,
    {
        out.push(0u8);
        assert(out@ =~= old(out)@ + zeros((i + 1) as nat));
        i += 1;
    }
}

/// Appends the bytes of `s`.
pub fn push_slice(out: &mut Vec<u8>, s: &[u8])
    ensures
        final(out)@ == old(out)@ + s@,
{
    let mut i: usize = 0;
    while i < s.len()
        invariant
            i <= s.len(),
            out@ == old(out)@ + s@.take(i as int),
        decreases s.len() - i,
    {
        out.push(s[i]);
        assert(out@ =~= old(out)@ + s@.take(i + 1));
        i += 1;
    }
    assert(s@.take(i as int) =~= s@);
}

/// Appends the word of an address.
pub fn push_address(out: &mut Vec<u8>, a: &Address)
    ensures
        final(out)@ == old(out)@ + address_word(*a),
{
    push_zeros(out, 12);
    push_slice(out, a.bytes.as_slice());
    assert(out@ =~= old(out)@ + address_word(*a));
}

/// Appends the word of a 256-bit integer.
pub fn push_uint(out: &mut Vec<u8>, u: &U256)
    ensures
        final(out)@ == old(out)@ + u@,
{
    push_slice(out, u.bytes.as_slice());
}

/// Appends the word of a length or an offset.
pub fn push_len(out: &mut Vec<u8>, n: usize)
    ensures
        final(out)@ == old(out)@ + len_word(n as nat),
{
    let mut word: [u8; 32] = [0u8; 32];
    let mut v: u64 = n as u64;
    let mut i: usize = 32;
    while i > 0
        invariant
            i <= 32,
            len_word(n as nat) == be_bytes(v as nat, i as nat) + word@.subrange(i as int, 32),
        decreases i,
    {
        let ghost before = word@;
        i -= 1;
        word[i] = (v % 256) as u8;
        proof {
            assert(be_bytes(v as nat, (i + 1) as nat) + before.subrange(i + 1, 32) =~= be_bytes(
                (v / 256) as nat,
                i as nat,
            ) + word@.subrange(i as int, 32));
        }
        v = v / 256;
    }
    assert(word@ =~= len_word(n as nat));
    push_slice(out, word.as_slice());
}

/// Appends a byte string of any length: its length, its content, and the
/// zero bytes that fill the last word.
pub fn push_bytes(out: &mut Vec<u8>, bytes: &[u8])
    ensures
        final(out)@ == old(out)@ + bytes_enc(bytes@),
{
    let n: usize = bytes.len();
    push_len(out, n);
    push_slice(out, bytes);
    push_zeros(out, (32 - n % 32) % 32);
    assert(out@ =~= old(out)@ + bytes_enc(bytes@));
}

/// Reads the address in the low twenty bytes of the word at `pos`.
pub fn read_address(data: &[u8], pos: usize) -> (a: Address)
    requires
        pos + 32 <= data.len(),
    ensures
        a@ == data@.subrange(pos + 12, pos + 32),
        a == address_at(data@, pos as int),
{
    let mut bytes: [u8; 20] = [0u8; 20];
    let mut i: usize = 0;
    while i < 20
        invariant
            i <= 20,
            pos + 32 <= data.len(),
            forall|j: int| 0 <= j < i ==> bytes[j] == data[pos + 12 + j],
        decreases 20 - i,
    {
        bytes[i] = data[pos + 12 + i];
        i += 1;
    }
    let a = Address { bytes };
    assert(a@ =~= data@.subrange(pos + 12, pos + 32));
    assert(address_at(data@, pos as int).bytes@ == a.bytes@);
    assert(address_at(data@, pos as int).bytes == a.bytes);
    a
}

/// Reads the 256-bit integer in the word at `pos`.
pub fn read_uint(data: &[u8], pos: usize) -> (u: U256)
    requires
        pos + 32 <= data.len(),
    ensures
        u@ == data@.subrange(pos as int, pos + 32),
        u == uint_at(data@, pos as int),
{
    let mut bytes: [u8; 32] = [0u8; 32];
    let mut i: usize = 0;
    while i < 32
        invariant
            i <= 32,
            pos + 32 <= data.len(),
            forall|j: int| 0 <= j < i ==> bytes[j] == data[pos + j],
        decreases 32 - i,
    {
        bytes[i] = data[pos + i];
        i += 1;
    }
    let u = U256 { bytes };
    assert(u@ =~= data@.subrange(pos as int, pos + 32));
    assert(uint_at(data@, pos as int).bytes@ == u.bytes@);
    assert(uint_at(data@, pos as int).bytes == u.bytes);
    u
}

/// Reads the number in the word at `pos`. `None` when no `usize` can hold
/// it.
pub fn read_len(data: &[u8], pos: usize) -> (res: Option<usize>)
    requires
        pos + 32 <= data.len(),
    ensures
        match res {
            Some(n) => be_value(data@.subrange(pos as int, pos + 32)) == n,
            None => be_value(data@.subrange(pos as int, pos + 32)) > usize::MAX,
        },
{
    let ghost word = data@.subrange(pos as int, pos + 32);
    let mut v: usize = 0;
    let mut i: usize = 0;
    while i < 32
        invariant
            i <= 32,
            pos + 32 <= data.len(),
            word == data@.subrange(pos as int, pos + 32),
            v == be_value(word.take(i as int)),
        decreases 32 - i,
    {
        let b: usize = data[pos + i] as usize;
        proof {
            assert(word.take(i + 1).drop_last() =~= word.take(i as int));
            assert(word.take(i + 1).last() == data[pos + i]);
            assert(be_value(word.take(i + 1)) == v * 256 + b);
            lemma_be_value_prefix(word, i + 1);
        }
        if v > (usize::MAX - b) / 256 {
            return None;
        }
        v = v * 256 + b;
        i += 1;
    }
    assert(word.take(32) =~= word);
    Some(v)
}

/// Copies `len` bytes of `data` from `pos` on.
pub fn read_bytes(data: &[u8], pos: usize, len: usize) -> (bytes: Vec<u8>)
    requires
        pos + len <= data.len(),
    ensures
        bytes@ == data@.subrange(pos as int, pos + len),
{
    let part = slice_subrange(data, pos, pos + len);
    vstd::slice::slice_to_vec(part)
}

/// The number of bytes in the encoding of a byte string of `n` bytes.
pub open spec fn bytes_enc_len(n: nat) -> nat {
    32 + n + pad_len(n)
}

/// The encoding of a pair of byte strings: the offsets of the two, then
/// the two.
pub open spec fn bytes_pair_abi(a: Seq<u8>, b: Seq<u8>) -> Seq<u8> {
    len_word(64) + len_word(64 + bytes_enc_len(a.len())) + bytes_enc(a) + bytes_enc(b)
}

/// The number of bytes in the encoding of a pair of byte strings of `a` and
/// `b` bytes.
pub open spec fn bytes_pair_size(a: nat, b: nat) -> nat {
    64 + bytes_enc_len(a) + bytes_enc_len(b)
}

/// The encoding of a byte string has the length that `bytes_enc_len` gives.
pub proof fn lemma_bytes_enc_len(bytes: Seq<u8>)
    ensures
        bytes_enc(bytes).len() == bytes_enc_len(bytes.len()),
{
    lemma_be_bytes_len(bytes.len(), 32);
}

/// The encoding of a pair has the size that `bytes_pair_size` gives.
pub proof fn lemma_bytes_pair_size(a: Seq<u8>, b: Seq<u8>)
    ensures
        bytes_pair_abi(a, b).len() == bytes_pair_size(a.len(), b.len()),
{
    lemma_bytes_enc_len(a);
    lemma_bytes_enc_len(b);
    lemma_be_bytes_len(64, 32);
    lemma_be_bytes_len((64 + bytes_enc_len(a.len())) as nat, 32);
}

/// The number of bytes in the encoding of `bytes`.
pub fn encoded_len(bytes: &[u8]) -> (n: usize)
    requires
        bytes_enc_len(bytes@.len()) <= usize::MAX,
    ensures
        n == bytes_enc_len(bytes@.len()),
{
    let len: usize = bytes.len();
    32 + len + (32 - len % 32) % 32
}

/// The number of bytes in the encoding of a pair of byte strings of `a` and
/// `b` bytes, if a `usize` can hold it.
pub fn bytes_pair_size_checked(a: usize, b: usize) -> (res: Option<usize>)
    ensures
        match res {
            Some(n) => n == bytes_pair_size(a as nat, b as nat),
            None => bytes_pair_size(a as nat, b as nat) > usize::MAX,
        },
{
    let pad_a: usize = (32 - a % 32) % 32;
    let pad_b: usize = (32 - b % 32) % 32;
    if a > usize::MAX - 128 - pad_a - pad_b {
        return None;
    }
    let first: usize = 128 + pad_a + pad_b + a;
    if b > usize::MAX - first {
        return None;
    }
    Some(first + b)
}

/// Appends the encoding of a pair of byte strings.
pub fn push_bytes_pair(out: &mut Vec<u8>, a: &[u8], b: &[u8])
    requires
        bytes_pair_size(a@.len(), b@.len()) <= usize::MAX,
    ensures
        final(out)@ == old(out)@ + bytes_pair_abi(a@, b@),
{
    let first: usize = encoded_len(a);
    push_len(out, 64);
    push_len(out, 64 + first);
    push_bytes(out, a);
    push_bytes(out, b);
    assert(out@ =~= old(out)@ + bytes_pair_abi(a@, b@));
}

impl U256 {
    /// The 256-bit integer with the value of `v`.
    pub fn from_u64(v: u64) -> (u: U256)
        ensures
            u@ == len_word(v as nat),
            u.value() == v,
    {
        let mut bytes: [u8; 32] = [0u8; 32];
        let mut rest: u64 = v;
        let mut i: usize = 32;
        while i > 0
            invariant
                i <= 32,
                len_word(v as nat) == be_bytes(rest as nat, i as nat) + bytes@.subrange(i as int, 32),
            decreases i,
        {
            let ghost before = bytes@;
            i -= 1;
            bytes[i] = (rest % 256) as u8;
            proof {
                assert(be_bytes(rest as nat, (i + 1) as nat) + before.subrange(i + 1, 32)
                    =~= be_bytes((rest / 256) as nat, i as nat) + bytes@.subrange(i as int, 32));
            }
            rest = rest / 256;
        }
        let u = U256 { bytes };
        proof {
            assert(u@ =~= len_word(v as nat));
            lemma_len_word(v as nat);
        }
        u
    }

    /// The value of the integer, if a `u64` can hold it.
    pub fn to_u64(&self) -> (res: Option<u64>)
        ensures
            match res {
                Some(v) => self.value() == v,
                None => self.value() > u64::MAX,
            },
    {
        let mut v: u64 = 0;
        let mut i: usize = 0;
        while i < 32
            invariant
                i <= 32,
                v == be_value(self@.take(i as int)),
            decreases 32 - i,
        {
            let b: u64 = self.bytes[i] as u64;
            proof {
                assert(self@.take(i + 1).drop_last() =~= self@.take(i as int));
                assert(self@.take(i + 1).last() == self.bytes[i as int]);
                lemma_be_value_prefix(self@, i + 1);
            }
            if v > (u64::MAX - b) / 256 {
                return None;
            }
            v = v * 256 + b;
            i += 1;
        }
        assert(self@.take(32) =~= self@);
        Some(v)
    }
}

} // verus!
