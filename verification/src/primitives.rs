//! Fixed-size values of the Ethereum data model, held as big-endian bytes,
//! and the Keccak-256 hash.

use vstd::prelude::*;

verus! {

broadcast use vstd::array::group_array_axioms;

/// A 20-byte account address.
#[derive(Clone, Copy, Debug, PartialEq, Eq, Hash)]
pub struct Address {
    pub bytes: [u8; 20],
}

/// A 32-byte hash.
#[derive(Clone, Copy, Debug, PartialEq, Eq, Hash)]
pub struct B256 {
    pub bytes: [u8; 32],
}

/// A 256-bit unsigned integer, most significant byte first.
#[derive(Clone, Copy, Debug, PartialEq, Eq, Hash)]
pub struct U256 {
    pub bytes: [u8; 32],
}

impl View for Address {
    type V = Seq<u8>;

    open spec fn view(&self) -> Seq<u8> {
        self.bytes@
    }
}

impl View for B256 {
    type V = Seq<u8>;

    open spec fn view(&self) -> Seq<u8> {
        self.bytes@
    }
}

impl View for U256 {
    type V = Seq<u8>;

    open spec fn view(&self) -> Seq<u8> {
        self.bytes@
    }
}

/// The number that big-endian `bytes` spell.
pub open spec fn be_value(bytes: Seq<u8>) -> nat
    decreases bytes.len(),
{
    if bytes.len() == 0 {
        0
    } else {
        be_value(bytes.drop_last()) * 256 + bytes.last() as nat
    }
}

/// Whether two byte strings hold the same bytes.
pub fn bytes_eq(a: &[u8], b: &[u8]) -> (same: bool)
    ensures
        same == (a@ == b@),
{
    if a.len() != b.len() {
        return false;
    }
    let mut i: usize = 0;
    while i < a.len()
        invariant
            i <= a.len(),
            a.len() == b.len(),
            forall|j: int| 0 <= j < i ==> a[j] == b[j],
        decreases a.len() - i,
    {
        if a[i] != b[i] {
            return false;
        }
        i += 1;
    }
    assert(a@ =~= b@);
    true
}

impl Address {
    /// The address of twenty zero bytes.
    pub fn zero() -> (a: Address)
        ensures
            a@ == Seq::new(20, |i: int| 0u8),
    {
        let a = Address { bytes: [0u8; 20] };
        assert(a@ =~= Seq::new(20, |i: int| 0u8));
        a
    }

    /// Whether `self` and `other` are the same address.
    pub fn same(&self, other: &Address) -> (same: bool)
        ensures
            same == (self@ == other@),
            same == (*self == *other),
    {
        let same = bytes_eq(self.bytes.as_slice(), other.bytes.as_slice());
        assert(same ==> self.bytes == other.bytes) by {
            if same {
                assert(self.bytes@ =~= other.bytes@);
            }
        }
        same
    }
}

impl B256 {
    /// Whether `self` and `other` are the same hash.
    pub fn same(&self, other: &B256) -> (same: bool)
        ensures
            same == (self@ == other@),
            same == (*self == *other),
    {
        let same = bytes_eq(self.bytes.as_slice(), other.bytes.as_slice());
        assert(same ==> self.bytes == other.bytes) by {
            if same {
                assert(self.bytes@ =~= other.bytes@);
            }
        }
        same
    }

    /// The hash as `0x` and 64 lower-case hexadecimal digits.
    pub fn to_hex_string(&self) -> (s: String)
        ensures
            s@ == crate::hex::hex_prefixed(self@),
    {
        crate::hex::encode_prefixed(self.bytes.as_slice())
    }
}

impl U256 {
    /// The number that the 32 bytes spell.
    pub open spec fn value(&self) -> nat {
        be_value(self@)
    }

    /// Whether `self` and `other` are the same number.
    pub fn same(&self, other: &U256) -> (same: bool)
        ensures
            same == (self@ == other@),
            same == (*self == *other),
    {
        let same = bytes_eq(self.bytes.as_slice(), other.bytes.as_slice());
        assert(same ==> self.bytes == other.bytes) by {
            if same {
                assert(self.bytes@ =~= other.bytes@);
            }
        }
        same
    }
}

/// The Keccak-256 digest of `data`, as `alloy_primitives::keccak256` computes
/// it.
pub uninterp spec fn keccak256_digest(data: Seq<u8>) -> Seq<u8>;

/// Calls `alloy_primitives::keccak256`. The contract names its result: the
/// digest is a function of the input bytes alone.
#[verifier::external_body]
pub(crate) fn keccak256(data: &[u8]) -> (digest: B256)
    ensures
        digest@ == keccak256_digest(data@),
{
    B256 { bytes: alloy_primitives::keccak256(data).0 }
}

} // verus!
