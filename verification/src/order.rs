//! An order is one of three kinds, with the signature of the swapper who
//! made it. Its identity is its structured hash, which the signature takes
//! no part in.

use vstd::prelude::*;
use vstd::std_specs::convert::FromSpecImpl;
use crate::contracts::common::OrderInfo;
use crate::contracts::common::OrderInfoView;
use crate::contracts::dutch::{
    dutch_order_abi, dutch_order_hash, dutch_order_size, dutch_order_type, DutchOrder,
    DutchOrderView,
};
use crate::contracts::exclusive_dutch::{
    exclusive_dutch_order_abi, exclusive_dutch_order_hash, exclusive_dutch_order_size,
    exclusive_dutch_order_type, ExclusiveDutchOrder, ExclusiveDutchOrderView,
};
use crate::contracts::limit::{
    limit_order_abi, limit_order_hash, limit_order_size, limit_order_type, LimitOrder,
    LimitOrderView,
};
use vstd::utf8::encode_utf8;
use crate::abi::{bytes_pair_abi, bytes_pair_size, push_bytes_pair, push_slice};
use crate::bindings::shared_types::ContractCall;
use crate::hex::{hex_decode_spec, hex_prefixed};
use crate::validation::ValidationError;
use crate::primitives::{keccak256_digest, Address, B256, U256};

verus! {

broadcast use vstd::array::group_array_axioms;

/// The kind of an order.
#[derive(Clone, Copy, Debug, PartialEq, Eq, Structural)]
pub enum OrderType {
    Dutch,
    Limit,
    ExclusiveDutch,
}

/// The content of an order: one of the three order types.
#[derive(Debug, PartialEq, Eq)]
pub enum OrderInner {
    Dutch(DutchOrder),
    Limit(LimitOrder),
    ExclusiveDutch(ExclusiveDutchOrder),
}

/// The mathematical value of an `OrderInner`.
pub enum OrderInnerView {
    Dutch(DutchOrderView),
    Limit(LimitOrderView),
    ExclusiveDutch(ExclusiveDutchOrderView),
}

/// A signed order.
#[derive(Debug, PartialEq, Eq)]
pub struct Order {
    pub inner: OrderInner,
    /// The swapper's signature, as hexadecimal text.
    pub sig: String,
}

/// The mathematical value of an `Order`.
pub struct OrderView {
    pub inner: OrderInnerView,
    pub sig: Seq<char>,
}

impl View for OrderInner {
    type V = OrderInnerView;

    open spec fn view(&self) -> OrderInnerView {
        match self {
            OrderInner::Dutch(o) => OrderInnerView::Dutch(o@),
            OrderInner::Limit(o) => OrderInnerView::Limit(o@),
            OrderInner::ExclusiveDutch(o) => OrderInnerView::ExclusiveDutch(o@),
        }
    }
}

impl View for Order {
    type V = OrderView;

    open spec fn view(&self) -> OrderView {
        OrderView { inner: self.inner@, sig: self.sig@ }
    }
}

impl OrderInnerView {
    /// The order information of the order.
    pub open spec fn info(self) -> OrderInfoView {
        match self {
            OrderInnerView::Dutch(o) => o.info,
            OrderInnerView::Limit(o) => o.info,
            OrderInnerView::ExclusiveDutch(o) => o.info,
        }
    }

    /// The kind of the order.
    pub open spec fn order_type(self) -> OrderType {
        match self {
            OrderInnerView::Dutch(_) => OrderType::Dutch,
            OrderInnerView::Limit(_) => OrderType::Limit,
            OrderInnerView::ExclusiveDutch(_) => OrderType::ExclusiveDutch,
        }
    }

    /// The canonical encoding of the order, by its kind.
    pub open spec fn abi(self) -> Seq<u8> {
        match self {
            OrderInnerView::Dutch(o) => dutch_order_abi(o),
            OrderInnerView::Limit(o) => limit_order_abi(o),
            OrderInnerView::ExclusiveDutch(o) => exclusive_dutch_order_abi(o),
        }
    }

    /// The number of bytes in the canonical encoding of the order.
    pub open spec fn size(self) -> nat {
        match self {
            OrderInnerView::Dutch(o) => dutch_order_size(o),
            OrderInnerView::Limit(o) => limit_order_size(o),
            OrderInnerView::ExclusiveDutch(o) => exclusive_dutch_order_size(o),
        }
    }

    /// The structured hash of the order, by its kind.
    pub open spec fn struct_hash(self) -> Seq<u8> {
        match self {
            OrderInnerView::Dutch(o) => dutch_order_hash(o),
            OrderInnerView::Limit(o) => limit_order_hash(o),
            OrderInnerView::ExclusiveDutch(o) => exclusive_dutch_order_hash(o),
        }
    }

    /// The text under which an order is known: `0x` and the hexadecimal
    /// digits of its structured hash.
    pub open spec fn key(self) -> Seq<char> {
        hex_prefixed(self.struct_hash())
    }
}

/// The hash of the type text of the orders of a kind.
pub open spec fn type_hash_of_kind(kind: OrderType) -> Seq<u8> {
    match kind {
        OrderType::Dutch => keccak256_digest(dutch_order_type()),
        OrderType::Limit => keccak256_digest(limit_order_type()),
        OrderType::ExclusiveDutch => keccak256_digest(exclusive_dutch_order_type()),
    }
}

/// The twenty bytes of the address of the quoter contract.
pub open spec fn quoter_address_bytes() -> Seq<u8> {
    seq![
        0x77u8, 0x14u8, 0x52u8, 0x0fu8, 0x38u8, 0x3Cu8, 0x99u8, 0x8eu8, 0x88u8, 0x22u8,
        0xE8u8, 0x74u8, 0x3Fu8, 0xD6u8, 0xf9u8, 0x0Au8, 0x29u8, 0x79u8, 0x68u8, 0x9bu8,
    ]
}

impl OrderInner {
    /// The order information of the order.
    pub fn info(&self) -> (info: &OrderInfo)
        ensures
            info@ == self@.info(),
    {
        match self {
            OrderInner::Dutch(o) => &o.info,
            OrderInner::Limit(o) => &o.info,
            OrderInner::ExclusiveDutch(o) => &o.info,
        }
    }

    /// The number of bytes in the canonical encoding, if a `usize` can hold
    /// it.
    pub fn encoded_size(&self) -> (res: Option<usize>)
        ensures
            match res {
                Some(n) => n == self@.size(),
                None => self@.size() > usize::MAX,
            },
    {
        match self {
            OrderInner::Dutch(o) => o.encoded_size(),
            OrderInner::Limit(o) => o.encoded_size(),
            OrderInner::ExclusiveDutch(o) => o.encoded_size(),
        }
    }

    /// The canonical encoding of the order.
    pub fn encode(&self) -> (out: Vec<u8>)
        requires
            self@.size() <= usize::MAX,
        ensures
            out@ == self@.abi(),
            out@.len() == self@.size(),
    {
        match self {
            OrderInner::Dutch(o) => o.encode(),
            OrderInner::Limit(o) => o.encode(),
            OrderInner::ExclusiveDutch(o) => o.encode(),
        }
    }

    /// The structured hash of the order.
    pub fn struct_hash(&self) -> (hash: B256)
        ensures
            hash@ == self@.struct_hash(),
    {
        match self {
            OrderInner::Dutch(o) => o.eip712_hash_struct(),
            OrderInner::Limit(o) => o.eip712_hash_struct(),
            OrderInner::ExclusiveDutch(o) => o.eip712_hash_struct(),
        }
    }

    /// The hash of the type text of the order's kind.
    pub fn type_hash(&self) -> (hash: B256)
        ensures
            hash@ == type_hash_of_kind(self@.order_type()),
    {
        match self {
            OrderInner::Dutch(o) => o.eip712_type_hash(),
            OrderInner::Limit(o) => o.eip712_type_hash(),
            OrderInner::ExclusiveDutch(o) => o.eip712_type_hash(),
        }
    }

    /// The kind of the order.
    pub fn order_type(&self) -> (kind: OrderType)
        ensures
            kind == self@.order_type(),
    {
        match self {
            OrderInner::Dutch(_) => OrderType::Dutch,
            OrderInner::Limit(_) => OrderType::Limit,
            OrderInner::ExclusiveDutch(_) => OrderType::ExclusiveDutch,
        }
    }
}

impl Clone for OrderInner {
    fn clone(&self) -> (res: Self)
        ensures
            res@ == self@,
    {
        match self {
            OrderInner::Dutch(o) => OrderInner::Dutch(o.clone()),
            OrderInner::Limit(o) => OrderInner::Limit(o.clone()),
            OrderInner::ExclusiveDutch(o) => OrderInner::ExclusiveDutch(o.clone()),
        }
    }
}

impl Clone for Order {
    fn clone(&self) -> (res: Self)
        ensures
            res@ == self@,
    {
        Order { inner: self.inner.clone(), sig: self.sig.clone() }
    }
}

impl Order {
    /// An order with its signature.
    pub fn new(inner: OrderInner, sig: String) -> (order: Order)
        ensures
            order.inner == inner,
            order.sig == sig,
    {
        Order { inner, sig }
    }

    /// The order information of the order.
    pub fn info(&self) -> (info: &OrderInfo)
        ensures
            info@ == self@.inner.info(),
    {
        self.inner.info()
    }

    /// The structured hash of the order. The signature takes no part in it.
    pub fn struct_hash(&self) -> (hash: B256)
        ensures
            hash@ == self@.inner.struct_hash(),
    {
        self.inner.struct_hash()
    }

    /// The hash of the type text of the order's kind.
    pub fn type_hash(&self) -> (hash: B256)
        ensures
            hash@ == type_hash_of_kind(self@.inner.order_type()),
    {
        self.inner.type_hash()
    }

    /// The kind of the order.
    pub fn order_type(&self) -> (kind: OrderType)
        ensures
            kind == self@.inner.order_type(),
    {
        self.inner.order_type()
    }

    /// The timestamp after which the order is no longer valid.
    pub fn deadline(&self) -> (deadline: U256)
        ensures
            deadline == self@.inner.info().deadline,
    {
        self.info().deadline
    }

    /// The canonical encoding of the order.
    pub fn encode(&self) -> (out: Vec<u8>)
        requires
            self@.inner.size() <= usize::MAX,
        ensures
            out@ == self@.inner.abi(),
    {
        self.inner.encode()
    }

    /// The reactor that the order targets.
    pub fn reactor_address(&self) -> (reactor: Address)
        ensures
            reactor == self@.inner.info().reactor,
    {
        self.info().reactor
    }

    /// The address of the quoter contract that simulates settlements.
    pub fn quoter_address(&self) -> (quoter: Address)
        ensures
            quoter@ == quoter_address_bytes(),
    {
        let quoter = Address {
            bytes: [
                0x77u8, 0x14u8, 0x52u8, 0x0fu8, 0x38u8, 0x3Cu8, 0x99u8, 0x8eu8, 0x88u8, 0x22u8,
                0xE8u8, 0x74u8, 0x3Fu8, 0xD6u8, 0xf9u8, 0x0Au8, 0x29u8, 0x79u8, 0x68u8, 0x9bu8,
            ],
        };
        assert(quoter@ =~= quoter_address_bytes());
        quoter
    }

    /// The text under which the order is known: `0x` and the hexadecimal
    /// digits of its structured hash.
    pub fn key(&self) -> (key: String)
        ensures
            key@ == self@.inner.key(),
    {
        self.struct_hash().to_hex_string()
    }
}

/// The selector `0x41d88d69` of the quoter's function: the first four
/// bytes of the Keccak-256 digest of `quote(bytes,bytes)`.
pub open spec fn quote_selector() -> Seq<u8> {
    seq![0x41u8, 0xd8u8, 0x8du8, 0x69u8]
}

/// The data of a call of the quoter: the selector, then the encoded order
/// and the signature as a pair of byte strings.
pub open spec fn quote_data(order: Seq<u8>, sig: Seq<u8>) -> Seq<u8> {
    quote_selector() + bytes_pair_abi(order, sig)
}

impl Order {
    /// The call that asks the quoter at `quoter` to simulate the settlement
    /// of the order: its encoding and its signature are handed to the
    /// quoter's function. A signature that is not hexadecimal text is
    /// refused.
    pub fn quote_call(&self, quoter: Address) -> (res: Result<ContractCall, ValidationError>)
        requires
            bytes_pair_size(self@.inner.size(), encode_utf8(self@.sig).len()) <= usize::MAX,
        ensures
            match hex_decode_spec(encode_utf8(self@.sig)) {
                Some(sig) => res matches Ok(call) && call.to == quoter && call.data@ == quote_data(
                    self@.inner.abi(),
                    sig,
                ),
                None => res matches Err(ValidationError::SigParseError(text)) && text@
                    == self@.sig,
            },
    {
        match crate::hex::decode(self.sig.as_str().as_bytes()) {
            None => Err(ValidationError::SigParseError(self.sig.clone())),
            Some(sig) => {
                let order = self.inner.encode();
                let selector: [u8; 4] = [0x41u8, 0xd8u8, 0x8du8, 0x69u8];
                assert(selector@ =~= quote_selector());
                let mut data: Vec<u8> = Vec::new();
                push_slice(&mut data, selector.as_slice());
                push_bytes_pair(&mut data, order.as_slice(), sig.as_slice());
                Ok(ContractCall { to: quoter, data })
            },
        }
    }
}

impl From<DutchOrder> for OrderInner {
    fn from(order: DutchOrder) -> (res: Self) {
        OrderInner::Dutch(order)
    }
}

impl FromSpecImpl<DutchOrder> for OrderInner {
    open spec fn obeys_from_spec() -> bool {
        true
    }

    open spec fn from_spec(order: DutchOrder) -> Self {
        OrderInner::Dutch(order)
    }
}

impl From<LimitOrder> for OrderInner {
    fn from(order: LimitOrder) -> (res: Self) {
        OrderInner::Limit(order)
    }
}

impl FromSpecImpl<LimitOrder> for OrderInner {
    open spec fn obeys_from_spec() -> bool {
        true
    }

    open spec fn from_spec(order: LimitOrder) -> Self {
        OrderInner::Limit(order)
    }
}

impl From<ExclusiveDutchOrder> for OrderInner {
    fn from(order: ExclusiveDutchOrder) -> (res: Self) {
        OrderInner::ExclusiveDutch(order)
    }
}

impl FromSpecImpl<ExclusiveDutchOrder> for OrderInner {
    open spec fn obeys_from_spec() -> bool {
        true
    }

    open spec fn from_spec(order: ExclusiveDutchOrder) -> Self {
        OrderInner::ExclusiveDutch(order)
    }
}

/// Two orders with the same content have the same hash and the same key,
/// whatever their signatures.
pub proof fn lemma_identity_ignores_signature(a: OrderView, b: OrderView)
    requires
        a.inner == b.inner,
    ensures
        a.inner.struct_hash() == b.inner.struct_hash(),
        a.inner.key() == b.inner.key(),
{
}

} // verus!
