//! The Uniswap order service: the query for open orders, the shape of its
//! answer, and the reading of the orders that the answer holds.

use vstd::prelude::*;
use vstd::string::StringExecFns;
use crate::contracts::common::EncodingError;
use crate::contracts::dutch::{dutch_order_from_hex, DutchOrder};
use crate::contracts::exclusive_dutch::{exclusive_dutch_order_from_hex, ExclusiveDutchOrder};
use crate::contracts::limit::{limit_order_from_hex, LimitOrder};
use crate::hex::{hex_digit, hex_digit_str};
use crate::lists::reversed;
use crate::order::{Order, OrderInner, OrderInnerView, OrderType, OrderView};

verus! {

/// The status of an order at the service.
#[derive(Clone, Copy, Debug, PartialEq, Eq, Structural)]
pub enum OrderStatus {
    Open,
    Expired,
    Error,
    Cancelled,
    Filled,
    InsufficientFunds,
}

/// The parameters of a query for orders.
#[derive(Clone, Copy, Debug, PartialEq, Eq)]
pub struct ApiParams {
    /// The greatest number of orders to answer with.
    pub limit: usize,
    pub chain_id: usize,
    pub order_status: OrderStatus,
}

/// The input side of an order, as the service describes it.
#[derive(Clone, Debug, PartialEq, Eq)]
pub struct OrderInput {
    pub token: String,
    pub start_amount: Option<String>,
    pub end_amount: Option<String>,
}

/// One output of an order, as the service describes it.
#[derive(Clone, Debug, PartialEq, Eq)]
pub struct OrderOutput {
    pub token: String,
    pub start_amount: Option<String>,
    pub end_amount: Option<String>,
    pub recipient: Option<String>,
}

/// One order of the service's answer.
#[derive(Debug, PartialEq, Eq)]
pub struct OrderResponseInner {
    pub order_type: OrderType,
    pub order_status: OrderStatus,
    pub chain_id: usize,
    /// The canonical encoding of the order, as hexadecimal text.
    pub encoded_order: String,
    pub signature: String,
    pub order_hash: String,
    pub created_at: u128,
    pub input: OrderInput,
    pub outputs: Vec<OrderOutput>,
}

/// The service's answer to a query.
#[derive(Debug, PartialEq, Eq)]
pub struct OrderResponse {
    pub orders: Vec<OrderResponseInner>,
    pub cursor: Option<String>,
}

/// The digits of a positive number, without leading zeros; none for zero.
pub open spec fn leading_digits(n: nat) -> Seq<char>
    decreases n,
{
    if n == 0 {
        Seq::empty()
    } else {
        leading_digits(n / 10).push(hex_digit((n % 10) as int))
    }
}

/// The decimal digits of a number.
pub open spec fn decimal(n: nat) -> Seq<char> {
    if n == 0 {
        seq!['0']
    } else {
        leading_digits(n)
    }
}

/// The name under which the service knows a status.
pub open spec fn status_name(status: OrderStatus) -> Seq<char> {
    match status {
        OrderStatus::Open => "open"@,
        OrderStatus::Expired => "Expired"@,
        OrderStatus::Error => "Error"@,
        OrderStatus::Cancelled => "Cancelled"@,
        OrderStatus::Filled => "filled"@,
        OrderStatus::InsufficientFunds => "InsufficientFunds"@,
    }
}

/// The query string of a query for orders.
pub open spec fn query_string(params: ApiParams) -> Seq<char> {
    "limit="@ + decimal(params.limit as nat) + "&chainId="@ + decimal(params.chain_id as nat)
        + "&orderStatus="@ + status_name(params.order_status)
}

/// The order that an entry of an answer holds: its text is read as the
/// canonical encoding of an order of the kind that the entry declares, and
/// of no other kind.
pub open spec fn order_of_entry(entry: OrderResponseInner) -> Result<OrderView, EncodingError> {
    match entry.order_type {
        OrderType::Dutch => match dutch_order_from_hex(entry.encoded_order@) {
            Ok(o) => Ok(OrderView { inner: OrderInnerView::Dutch(o), sig: entry.signature@ }),
            Err(e) => Err(e),
        },
        OrderType::Limit => match limit_order_from_hex(entry.encoded_order@) {
            Ok(o) => Ok(OrderView { inner: OrderInnerView::Limit(o), sig: entry.signature@ }),
            Err(e) => Err(e),
        },
        OrderType::ExclusiveDutch => match exclusive_dutch_order_from_hex(entry.encoded_order@) {
            Ok(o) => Ok(
                OrderView { inner: OrderInnerView::ExclusiveDutch(o), sig: entry.signature@ },
            ),
            Err(e) => Err(e),
        },
    }
}

/// What an entry of an answer was read as, as a value.
pub open spec fn entry_view(entry: Result<Order, EncodingError>) -> Result<OrderView, EncodingError> {
    match entry {
        Ok(order) => Ok(order@),
        Err(e) => Err(e),
    }
}

/// The first error among the entries of an answer.
pub open spec fn first_error(entries: Seq<OrderResponseInner>) -> Option<EncodingError>
    decreases entries.len(),
{
    if entries.len() == 0 {
        None
    } else {
        match first_error(entries.drop_last()) {
            Some(e) => Some(e),
            None => match order_of_entry(entries.last()) {
                Ok(_) => None,
                Err(e) => Some(e),
            },
        }
    }
}

/// Writes a number in decimal digits.
pub fn decimal_string(n: usize) -> (s: String)
    ensures
        s@ == decimal(n as nat),
{
    if n == 0 {
        proof {
            reveal_strlit("0");
        }
        let s = String::from_str("0");
        assert(s@ =~= decimal(0));
        return s;
    }
    let mut digits: Vec<u8> = Vec::new();
    let mut v: usize = n;
    while v > 0
        invariant
            forall|j: int| 0 <= j < digits@.len() ==> digits@[j] < 10,
            leading_digits(n as nat) == leading_digits(v as nat) + Seq::new(
                digits@.len(),
                |j: int| hex_digit(digits@[digits@.len() - 1 - j] as int),
            ),
        decreases v,
    {
        let ghost before = digits@;
        let d: u8 = (v % 10) as u8;
        digits.push(d);
        proof {
            let tail_before = Seq::new(
                before.len(),
                |j: int| hex_digit(before[before.len() - 1 - j] as int),
            );
            let tail = Seq::new(
                digits@.len(),
                |j: int| hex_digit(digits@[digits@.len() - 1 - j] as int),
            );
            assert(tail =~= seq![hex_digit(d as int)] + tail_before);
            assert(leading_digits(v as nat) =~= leading_digits((v / 10) as nat).push(
                hex_digit(d as int),
            ));
            assert(leading_digits(v as nat) + tail_before =~= leading_digits((v / 10) as nat)
                + tail);
        }
        v = v / 10;
    }
    let mut s: String = String::new();
    let mut i: usize = digits.len();
    let ghost all = Seq::new(
        digits@.len(),
        |j: int| hex_digit(digits@[digits@.len() - 1 - j] as int),
    );
    assert(leading_digits(n as nat) =~= all);
    while i > 0
        invariant
            i <= digits@.len(),
            forall|j: int| 0 <= j < digits@.len() ==> digits@[j] < 10,
            all == Seq::new(
                digits@.len(),
                |j: int| hex_digit(digits@[digits@.len() - 1 - j] as int),
            ),
            s@ == all.take(digits@.len() - i),
        decreases i,
    {
        i -= 1;
        s.append(hex_digit_str(digits[i]));
        assert(s@ =~= all.take(digits@.len() - i));
    }
    assert(all.take(digits@.len() as int) =~= all);
    s
}

impl OrderStatus {
    /// The name under which the service knows the status.
    pub fn name(&self) -> (s: &'static str)
        ensures
            s@ == status_name(*self),
    {
        match self {
            OrderStatus::Open => "open",
            OrderStatus::Expired => "Expired",
            OrderStatus::Error => "Error",
            OrderStatus::Cancelled => "Cancelled",
            OrderStatus::Filled => "filled",
            OrderStatus::InsufficientFunds => "InsufficientFunds",
        }
    }
}

impl ApiParams {
    /// The query for the open orders of a chain: at most ten of them.
    pub fn open_orders(chain_id: usize) -> (params: ApiParams)
        ensures
            params == (ApiParams { limit: 10, chain_id, order_status: OrderStatus::Open }),
    {
        ApiParams { limit: 10, chain_id, order_status: OrderStatus::Open }
    }

    /// The query string: the limit, the chain and the status, as the service
    /// names them.
    pub fn as_query_string(&self) -> (s: String)
        ensures
            s@ == query_string(*self),
    {
        let mut s: String = String::from_str("limit=");
        s.append(decimal_string(self.limit).as_str());
        s.append("&chainId=");
        s.append(decimal_string(self.chain_id).as_str());
        s.append("&orderStatus=");
        s.append(self.order_status.name());
        s
    }
}

impl Order {
    /// Reads the order that an entry of an answer holds, by the kind that
    /// the entry declares, and gives it the entry's signature.
    pub fn try_from(entry: OrderResponseInner) -> (res: Result<Order, EncodingError>)
        ensures
            entry_view(res) == order_of_entry(entry),
    {
        let sig = entry.signature;
        match entry.order_type {
            OrderType::Dutch => match DutchOrder::try_from(entry.encoded_order) {
                Ok(o) => Ok(Order::new(OrderInner::Dutch(o), sig)),
                Err(e) => Err(e),
            },
            OrderType::Limit => match LimitOrder::try_from(entry.encoded_order) {
                Ok(o) => Ok(Order::new(OrderInner::Limit(o), sig)),
                Err(e) => Err(e),
            },
            OrderType::ExclusiveDutch => match ExclusiveDutchOrder::try_from(entry.encoded_order) {
                Ok(o) => Ok(Order::new(OrderInner::ExclusiveDutch(o), sig)),
                Err(e) => Err(e),
            },
        }
    }
}

impl OrderResponse {
    /// Reads each entry of the answer, in its order: an order, or the reason
    /// why the entry could not be read as one.
    pub fn into_entries(self) -> (entries: Vec<Result<Order, EncodingError>>)
        ensures
            entries@.len() == self.orders@.len(),
            forall|i: int|
                0 <= i < entries@.len() ==> entry_view(#[trigger] entries@[i]) == order_of_entry(
                    self.orders@[i],
                ),
    {
        let ghost all = self.orders@;
        let mut rest = reversed(self.orders);
        let mut entries: Vec<Result<Order, EncodingError>> = Vec::new();
        while rest.len() > 0
            invariant
                entries@.len() + rest@.len() == all.len(),
                forall|j: int| 0 <= j < rest@.len() ==> rest@[j] == all[all.len() - 1 - j],
                forall|i: int|
                    0 <= i < entries@.len() ==> entry_view(#[trigger] entries@[i])
                        == order_of_entry(all[i]),
            decreases rest@.len(),
        {
            let entry = rest.pop().unwrap();
            entries.push(Order::try_from(entry));
        }
        entries
    }

    /// Reads the orders of the answer, all of them or none: the first entry
    /// that cannot be read as an order fails the whole answer.
    pub fn into_orders(self) -> (res: Result<Vec<Order>, EncodingError>)
        ensures
            match res {
                Ok(orders) => first_error(self.orders@) is None && orders@.len()
                    == self.orders@.len() && forall|i: int|
                    0 <= i < orders@.len() ==> Ok::<OrderView, EncodingError>(
                        (#[trigger] orders@[i])@,
                    ) == order_of_entry(self.orders@[i]),
                Err(e) => first_error(self.orders@) == Some(e),
            },
    {
        let ghost all = self.orders@;
        let mut rest = reversed(self.orders);
        let mut orders: Vec<Order> = Vec::new();
        proof {
            assert(all.take(0) =~= Seq::empty());
        }
        while rest.len() > 0
            invariant
                all == self.orders@,
                orders@.len() + rest@.len() == all.len(),
                forall|j: int| 0 <= j < rest@.len() ==> rest@[j] == all[all.len() - 1 - j],
                first_error(all.take(orders@.len() as int)) is None,
                forall|i: int|
                    0 <= i < orders@.len() ==> Ok::<OrderView, EncodingError>(
                        (#[trigger] orders@[i])@,
                    ) == order_of_entry(all[i]),
            decreases rest@.len(),
        {
            let ghost done = orders@.len() as int;
            let entry = rest.pop().unwrap();
            proof {
                assert(all.take(done + 1).drop_last() =~= all.take(done));
                assert(all.take(done + 1).last() == entry);
            }
            match Order::try_from(entry) {
                Ok(order) => {
                    orders.push(order);
                },
                Err(e) => {
                    proof {
                        assert(order_of_entry(all.take(done + 1).last()) == Err::<
                            OrderView,
                            EncodingError,
                        >(e));
                        assert(first_error(all.take(done + 1)) == Some(e));
                        lemma_first_error_stays(all, done + 1);
                    }
                    return Err(e);
                },
            }
        }
        assert(all.take(orders@.len() as int) =~= all);
        Ok(orders)
    }
}

/// An error among the first entries is the first error among all of them.
pub proof fn lemma_first_error_stays(entries: Seq<OrderResponseInner>, k: int)
    requires
        0 <= k <= entries.len(),
        first_error(entries.take(k)) is Some,
    ensures
        first_error(entries) == first_error(entries.take(k)),
    decreases entries.len() - k,
{
    if k < entries.len() {
        assert(entries.take(k + 1).drop_last() =~= entries.take(k));
        lemma_first_error_stays(entries, k + 1);
    } else {
        assert(entries.take(k) =~= entries);
    }
}

} // verus!
