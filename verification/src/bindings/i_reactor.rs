//! The `IReactor` interface: what every reactor takes, the execution of one
//! signed order or of a batch of them.

use vstd::prelude::*;
use vstd::slice::slice_subrange;
use vstd::std_specs::convert::FromSpecImpl;
use crate::abi::{
    address_word, bytes_enc, bytes_enc_len, bytes_pair_abi, bytes_pair_size, encoded_len,
    len_word, push_address, push_bytes, push_bytes_pair, push_len, push_slice,
};
use crate::bindings::shared_types::{has_selector, starts_with_selector, AbiError, ContractCall};
use crate::contracts::common::{SignedOrder, SignedOrderView};
use crate::primitives::Address;

verus! {

broadcast use vstd::array::group_array_axioms;

/// The input of the `execute` function.
#[derive(Debug, PartialEq, Eq)]
pub struct ExecuteCall {
    pub order: SignedOrder,
    pub fill_contract: Address,
    pub fill_data: Vec<u8>,
}

/// The mathematical value of an `ExecuteCall`.
pub struct ExecuteCallView {
    pub order: SignedOrderView,
    pub fill_contract: Address,
    pub fill_data: Seq<u8>,
}

/// The input of the `executeBatch` function.
#[derive(Debug, PartialEq, Eq)]
pub struct ExecuteBatchCall {
    pub orders: Vec<SignedOrder>,
    pub fill_contract: Address,
    pub fill_data: Vec<u8>,
}

/// The mathematical value of an `ExecuteBatchCall`.
pub struct ExecuteBatchCallView {
    pub orders: Seq<SignedOrderView>,
    pub fill_contract: Address,
    pub fill_data: Seq<u8>,
}

/// The values of a list of signed orders.
pub open spec fn signed_order_views(orders: Seq<SignedOrder>) -> Seq<SignedOrderView> {
    Seq::new(orders.len(), |i: int| orders[i]@)
}

impl View for ExecuteCall {
    type V = ExecuteCallView;

    open spec fn view(&self) -> ExecuteCallView {
        ExecuteCallView {
            order: self.order@,
            fill_contract: self.fill_contract,
            fill_data: self.fill_data@,
        }
    }
}

impl View for ExecuteBatchCall {
    type V = ExecuteBatchCallView;

    open spec fn view(&self) -> ExecuteBatchCallView {
        ExecuteBatchCallView {
            orders: signed_order_views(self.orders@),
            fill_contract: self.fill_contract,
            fill_data: self.fill_data@,
        }
    }
}

/// The number of bytes in the encodings of a list of signed orders.
pub open spec fn bodies_size(orders: Seq<SignedOrderView>) -> nat
    decreases orders.len(),
{
    if orders.len() == 0 {
        0
    } else {
        bodies_size(orders.drop_last()) + bytes_pair_size(
            orders.last().order.len(),
            orders.last().sig.len(),
        )
    }
}

/// The offsets of the orders of a list of `count` signed orders, one word
/// each: where the encoding of each order starts, counted from the first
/// offset.
pub open spec fn order_offsets(orders: Seq<SignedOrderView>, count: nat) -> Seq<u8>
    decreases orders.len(),
{
    if orders.len() == 0 {
        Seq::empty()
    } else {
        order_offsets(orders.drop_last(), count) + len_word(
            32 * count + bodies_size(orders.drop_last()),
        )
    }
}

/// The encodings of a list of signed orders, one after the other.
pub open spec fn order_bodies(orders: Seq<SignedOrderView>) -> Seq<u8>
    decreases orders.len(),
{
    if orders.len() == 0 {
        Seq::empty()
    } else {
        order_bodies(orders.drop_last()) + bytes_pair_abi(
            orders.last().order,
            orders.last().sig,
        )
    }
}

/// The encoding of an array of signed orders: its length, the offsets of
/// its elements, and the elements.
pub open spec fn signed_orders_abi(orders: Seq<SignedOrderView>) -> Seq<u8> {
    len_word(orders.len()) + order_offsets(orders, orders.len()) + order_bodies(orders)
}

/// The number of bytes in the encoding of an array of signed orders.
pub open spec fn signed_orders_size(orders: Seq<SignedOrderView>) -> nat {
    32 + 32 * orders.len() + bodies_size(orders)
}

/// The selector `0x05afc977`: the first four bytes of the Keccak-256
/// digest of `execute((bytes,bytes),address,bytes)`.
pub open spec fn execute_selector() -> Seq<u8> {
    seq![0x05u8, 0xafu8, 0xc9u8, 0x77u8]
}

/// The selector `0x6f1d5f51`: the first four bytes of the Keccak-256
/// digest of `executeBatch((bytes,bytes)[],address,bytes)`.
pub open spec fn execute_batch_selector() -> Seq<u8> {
    seq![0x6fu8, 0x1du8, 0x5fu8, 0x51u8]
}

/// The encoded parameters of `execute`: the offset of the order, the
/// fill contract, the offset of the fill data, then the order and the fill
/// data.
pub open spec fn execute_params(call: ExecuteCallView) -> Seq<u8> {
    len_word(96) + address_word(call.fill_contract) + len_word(
        96 + bytes_pair_size(call.order.order.len(), call.order.sig.len()),
    ) + bytes_pair_abi(call.order.order, call.order.sig) + bytes_enc(call.fill_data)
}

/// The number of bytes in the encoded parameters of `execute`.
pub open spec fn execute_params_size(call: ExecuteCallView) -> nat {
    96 + bytes_pair_size(call.order.order.len(), call.order.sig.len()) + bytes_enc_len(
        call.fill_data.len(),
    )
}

/// The encoded parameters of `executeBatch`: the offset of the orders, the
/// fill contract, the offset of the fill data, then the orders and the fill
/// data.
pub open spec fn execute_batch_params(call: ExecuteBatchCallView) -> Seq<u8> {
    len_word(96) + address_word(call.fill_contract) + len_word(
        96 + signed_orders_size(call.orders),
    ) + signed_orders_abi(call.orders) + bytes_enc(call.fill_data)
}

/// The number of bytes in the encoded parameters of `executeBatch`.
pub open spec fn execute_batch_params_size(call: ExecuteBatchCallView) -> nat {
    96 + signed_orders_size(call.orders) + bytes_enc_len(call.fill_data.len())
}

/// What the parameters of `execute` are read from `data` as by
/// `<((Bytes, Bytes), H160, Bytes) as AbiDecode>::decode` of `ethers`, which
/// follows the offsets that it finds and asks for no canonical form.
pub uninterp spec fn execute_params_decoding(data: Seq<u8>) -> Option<ExecuteCallView>;

/// What the parameters of `executeBatch` are read from `data` as by
/// `<(Vec<(Bytes, Bytes)>, H160, Bytes) as AbiDecode>::decode` of `ethers`,
/// which follows the offsets that it finds and asks for no canonical form.
pub uninterp spec fn execute_batch_params_decoding(data: Seq<u8>) -> Option<ExecuteBatchCallView>;

/// The parameters of `execute` that follow the selector in `data`, if the
/// data starts with the selector and they can be read.
pub open spec fn execute_params_of(data: Seq<u8>) -> Option<ExecuteCallView> {
    if has_selector(data, execute_selector()) {
        execute_params_decoding(data.subrange(4, data.len() as int))
    } else {
        None
    }
}

/// The parameters of `executeBatch` that follow the selector in `data`, if
/// the data starts with the selector and they can be read.
pub open spec fn execute_batch_params_of(data: Seq<u8>) -> Option<ExecuteBatchCallView> {
    if has_selector(data, execute_batch_selector()) {
        execute_batch_params_decoding(data.subrange(4, data.len() as int))
    } else {
        None
    }
}

/// The value of parameters that were read, if they were.
pub open spec fn execute_view(params: Option<ExecuteCall>) -> Option<ExecuteCallView> {
    match params {
        Some(call) => Some(call@),
        None => None,
    }
}

/// The value of parameters that were read, if they were.
pub open spec fn execute_batch_view(params: Option<ExecuteBatchCall>) -> Option<
    ExecuteBatchCallView,
> {
    match params {
        Some(call) => Some(call@),
        None => None,
    }
}

/// Calls `<((Bytes, Bytes), H160, Bytes) as AbiDecode>::decode` of `ethers`
/// on `data`. The contract names what comes back: a function of the bytes
/// alone. The outside function adds an offset and a length, of up to 32 bits
/// each, in `usize`: with a `usize` of 64 bits it returns on every input.
#[verifier::external_body]
fn decode_execute_params(data: &[u8]) -> (res: Option<ExecuteCall>)
    ensures
        match res {
            Some(call) => execute_params_decoding(data@) == Some(call@),
            None => execute_params_decoding(data@) is None,
        },
{
    let (order, fill_contract, fill_data) = <(
        (ethers::types::Bytes, ethers::types::Bytes),
        ethers::types::H160,
        ethers::types::Bytes,
    ) as ethers::abi::AbiDecode>::decode(data).ok()?;
    Some(ExecuteCall {
        order: SignedOrder { order: order.0.to_vec(), sig: order.1.to_vec() },
        fill_contract: Address { bytes: fill_contract.0 },
        fill_data: fill_data.to_vec(),
    })
}

/// Calls `<(Vec<(Bytes, Bytes)>, H160, Bytes) as AbiDecode>::decode` of
/// `ethers` on `data`. The contract names what comes back: a function of
/// the bytes alone. The outside function adds an offset and a length, of up
/// to 32 bits each, in `usize`: with a `usize` of 64 bits it returns on
/// every input.
#[verifier::external_body]
fn decode_execute_batch_params(data: &[u8]) -> (res: Option<ExecuteBatchCall>)
    ensures
        match res {
            Some(call) => execute_batch_params_decoding(data@) == Some(call@),
            None => execute_batch_params_decoding(data@) is None,
        },
{
    let (orders, fill_contract, fill_data) = <(
        Vec<(ethers::types::Bytes, ethers::types::Bytes)>,
        ethers::types::H160,
        ethers::types::Bytes,
    ) as ethers::abi::AbiDecode>::decode(data).ok()?;
    Some(ExecuteBatchCall {
        orders: orders.into_iter().map(|o| SignedOrder { order: o.0.to_vec(), sig: o.1.to_vec() }).collect(),
        fill_contract: Address { bytes: fill_contract.0 },
        fill_data: fill_data.to_vec(),
    })
}

/// The encodings of the first orders of a list take no more bytes than
/// those of the whole list.
pub proof fn lemma_bodies_size_prefix(orders: Seq<SignedOrderView>, k: int)
    requires
        0 <= k <= orders.len(),
    ensures
        bodies_size(orders.take(k)) <= bodies_size(orders),
    decreases orders.len() - k,
{
    if k < orders.len() {
        lemma_bodies_size_prefix(orders, k + 1);
        assert(orders.take(k + 1).drop_last() =~= orders.take(k));
    } else {
        assert(orders.take(k) =~= orders);
    }
}

/// Appends the encoding of an array of signed orders.
pub fn push_signed_orders(out: &mut Vec<u8>, orders: &Vec<SignedOrder>)
    requires
        signed_orders_size(signed_order_views(orders@)) <= usize::MAX,
    ensures
        final(out)@ == old(out)@ + signed_orders_abi(signed_order_views(orders@)),
{
    let ghost views = signed_order_views(orders@);
    let count: usize = orders.len();
    push_len(out, count);
    let mut offset: usize = 32 * count;
    let mut i: usize = 0;
    proof {
        assert(views.take(0) =~= Seq::empty());
        assert(out@ =~= old(out)@ + len_word(count as nat) + order_offsets(
            views.take(0),
            count as nat,
        ));
    }
    while i < count
        invariant
            i <= count,
            count == orders@.len(),
            views == signed_order_views(orders@),
            signed_orders_size(views) <= usize::MAX,
            offset == 32 * count + bodies_size(views.take(i as int)),
            out@ == old(out)@ + len_word(count as nat) + order_offsets(
                views.take(i as int),
                count as nat,
            ),
        decreases count - i,
    {
        proof {
            lemma_bodies_size_prefix(views, i + 1);
            assert(views.take(i + 1).drop_last() =~= views.take(i as int));
            assert(views.take(i + 1).last() == orders@[i as int]@);
        }
        push_len(out, offset);
        let first: usize = encoded_len(orders[i].order.as_slice());
        let second: usize = encoded_len(orders[i].sig.as_slice());
        offset = offset + 64 + first + second;
        proof {
            assert(out@ =~= old(out)@ + len_word(count as nat) + order_offsets(
                views.take(i + 1),
                count as nat,
            ));
        }
        i += 1;
    }
    assert(views.take(count as int) =~= views);
    let ghost head = out@;
    let mut j: usize = 0;
    proof {
        assert(out@ =~= head + order_bodies(views.take(0)));
    }
    while j < count
        invariant
            j <= count,
            count == orders@.len(),
            views == signed_order_views(orders@),
            signed_orders_size(views) <= usize::MAX,
            out@ == head + order_bodies(views.take(j as int)),
        decreases count - j,
    {
        proof {
            lemma_bodies_size_prefix(views, j + 1);
            assert(views.take(j + 1).drop_last() =~= views.take(j as int));
            assert(views.take(j + 1).last() == orders@[j as int]@);
        }
        push_bytes_pair(out, orders[j].order.as_slice(), orders[j].sig.as_slice());
        proof {
            assert(out@ =~= head + order_bodies(views.take(j + 1)));
        }
        j += 1;
    }
    assert(views.take(count as int) =~= views);
    assert(out@ =~= old(out)@ + signed_orders_abi(views));
}

impl ExecuteCall {
    /// The selector, then the encoded parameters.
    pub open spec fn encoding(call: ExecuteCallView) -> Seq<u8> {
        execute_selector() + execute_params(call)
    }

    /// What `data` is read as, given the parameters that were read behind
    /// its selector: the call with those parameters, if the data starts
    /// with the selector and parameters were read.
    pub open spec fn decoding_with(data: Seq<u8>, params: Option<ExecuteCallView>) -> Result<
        ExecuteCallView,
        AbiError,
    > {
        if !has_selector(data, execute_selector()) {
            Err(AbiError::WrongSelector)
        } else {
            match params {
                Some(call) => Ok(call),
                None => Err(AbiError::InvalidData),
            }
        }
    }

    /// What `data` is read as: the call, if the data starts with the
    /// selector and the rest is read as the parameters.
    pub open spec fn decoding(data: Seq<u8>) -> Result<ExecuteCallView, AbiError> {
        Self::decoding_with(data, execute_params_of(data))
    }

    /// The selector.
    pub fn selector() -> (s: [u8; 4])
        ensures
            s@ == execute_selector(),
    {
        let s: [u8; 4] = [0x05u8, 0xafu8, 0xc9u8, 0x77u8];
        assert(s@ =~= execute_selector());
        s
    }

    /// Writes the call: the selector, then the parameters.
    pub fn encode(&self) -> (out: Vec<u8>)
        requires
            execute_params_size(self@) <= usize::MAX,
        ensures
            out@ == Self::encoding(self@),
    {
        let s = Self::selector();
        let first: usize = encoded_len(self.order.order.as_slice());
        let second: usize = encoded_len(self.order.sig.as_slice());
        let mut out: Vec<u8> = Vec::new();
        push_slice(&mut out, s.as_slice());
        push_len(&mut out, 96);
        push_address(&mut out, &self.fill_contract);
        push_len(&mut out, 96 + 64 + first + second);
        push_bytes_pair(&mut out, self.order.order.as_slice(), self.order.sig.as_slice());
        push_bytes(&mut out, self.fill_data.as_slice());
        assert(out@ =~= Self::encoding(self@));
        out
    }

    /// Reads the parameters that follow the selector in `data`, if the data
    /// starts with the selector.
    pub fn read_params(data: &[u8]) -> (params: Option<ExecuteCall>)
        ensures
            execute_view(params) == execute_params_of(data@),
    {
        let s = Self::selector();
        if starts_with_selector(data, &s) {
            decode_execute_params(slice_subrange(data, 4, data.len()))
        } else {
            None
        }
    }

    /// Reads the call from `data`, given the parameters that were read
    /// behind its selector.
    pub fn decode_with(data: &[u8], params: Option<ExecuteCall>) -> (res: Result<
        ExecuteCall,
        AbiError,
    >)
        ensures
            match res {
                Ok(call) => Self::decoding_with(data@, execute_view(params)) == Ok::<
                    ExecuteCallView,
                    AbiError,
                >(call@),
                Err(e) => Self::decoding_with(data@, execute_view(params)) == Err::<
                    ExecuteCallView,
                    AbiError,
                >(e),
            },
    {
        let s = Self::selector();
        if !starts_with_selector(data, &s) {
            return Err(AbiError::WrongSelector);
        }
        match params {
            Some(call) => Ok(call),
            None => Err(AbiError::InvalidData),
        }
    }

    /// Reads the call from `data`.
    pub fn decode(data: &[u8]) -> (res: Result<ExecuteCall, AbiError>)
        ensures
            match res {
                Ok(call) => Self::decoding(data@) == Ok::<ExecuteCallView, AbiError>(call@),
                Err(e) => Self::decoding(data@) == Err::<ExecuteCallView, AbiError>(e),
            },
    {
        Self::decode_with(data, Self::read_params(data))
    }
}

impl ExecuteBatchCall {
    /// The selector, then the encoded parameters.
    pub open spec fn encoding(call: ExecuteBatchCallView) -> Seq<u8> {
        execute_batch_selector() + execute_batch_params(call)
    }

    /// What `data` is read as, given the parameters that were read behind
    /// its selector: the call with those parameters, if the data starts
    /// with the selector and parameters were read.
    pub open spec fn decoding_with(
        data: Seq<u8>,
        params: Option<ExecuteBatchCallView>,
    ) -> Result<ExecuteBatchCallView, AbiError> {
        if !has_selector(data, execute_batch_selector()) {
            Err(AbiError::WrongSelector)
        } else {
            match params {
                Some(call) => Ok(call),
                None => Err(AbiError::InvalidData),
            }
        }
    }

    /// What `data` is read as: the call, if the data starts with the
    /// selector and the rest is read as the parameters.
    pub open spec fn decoding(data: Seq<u8>) -> Result<ExecuteBatchCallView, AbiError> {
        Self::decoding_with(data, execute_batch_params_of(data))
    }

    /// The selector.
    pub fn selector() -> (s: [u8; 4])
        ensures
            s@ == execute_batch_selector(),
    {
        let s: [u8; 4] = [0x6fu8, 0x1du8, 0x5fu8, 0x51u8];
        assert(s@ =~= execute_batch_selector());
        s
    }

    /// Writes the call: the selector, then the parameters.
    pub fn encode(&self) -> (out: Vec<u8>)
        requires
            execute_batch_params_size(self@) <= usize::MAX,
        ensures
            out@ == Self::encoding(self@),
    {
        let s = Self::selector();
        let ghost views = signed_order_views(self.orders@);
        let mut size: usize = 32 + 32 * self.orders.len();
        let mut i: usize = 0;
        proof {
            assert(views.take(0) =~= Seq::empty());
        }
        while i < self.orders.len()
            invariant
                i <= self.orders@.len(),
                views == signed_order_views(self.orders@),
                execute_batch_params_size(self@) <= usize::MAX,
                size == 32 + 32 * self.orders@.len() + bodies_size(views.take(i as int)),
            decreases self.orders@.len() - i,
        {
            proof {
                lemma_bodies_size_prefix(views, i + 1);
                assert(views.take(i + 1).drop_last() =~= views.take(i as int));
                assert(views.take(i + 1).last() == self.orders@[i as int]@);
            }
            let first: usize = encoded_len(self.orders[i].order.as_slice());
            let second: usize = encoded_len(self.orders[i].sig.as_slice());
            size = size + 64 + first + second;
            i += 1;
        }
        assert(views.take(self.orders@.len() as int) =~= views);
        let mut out: Vec<u8> = Vec::new();
        push_slice(&mut out, s.as_slice());
        push_len(&mut out, 96);
        push_address(&mut out, &self.fill_contract);
        push_len(&mut out, 96 + size);
        push_signed_orders(&mut out, &self.orders);
        push_bytes(&mut out, self.fill_data.as_slice());
        assert(out@ =~= Self::encoding(self@));
        out
    }

    /// Reads the parameters that follow the selector in `data`, if the data
    /// starts with the selector.
    pub fn read_params(data: &[u8]) -> (params: Option<ExecuteBatchCall>)
        ensures
            execute_batch_view(params) == execute_batch_params_of(data@),
    {
        let s = Self::selector();
        if starts_with_selector(data, &s) {
            decode_execute_batch_params(slice_subrange(data, 4, data.len()))
        } else {
            None
        }
    }

    /// Reads the call from `data`, given the parameters that were read
    /// behind its selector.
    pub fn decode_with(data: &[u8], params: Option<ExecuteBatchCall>) -> (res: Result<
        ExecuteBatchCall,
        AbiError,
    >)
        ensures
            match res {
                Ok(call) => Self::decoding_with(data@, execute_batch_view(params)) == Ok::<
                    ExecuteBatchCallView,
                    AbiError,
                >(call@),
                Err(e) => Self::decoding_with(data@, execute_batch_view(params)) == Err::<
                    ExecuteBatchCallView,
                    AbiError,
                >(e),
            },
    {
        let s = Self::selector();
        if !starts_with_selector(data, &s) {
            return Err(AbiError::WrongSelector);
        }
        match params {
            Some(call) => Ok(call),
            None => Err(AbiError::InvalidData),
        }
    }

    /// Reads the call from `data`.
    pub fn decode(data: &[u8]) -> (res: Result<ExecuteBatchCall, AbiError>)
        ensures
            match res {
                Ok(call) => Self::decoding(data@) == Ok::<ExecuteBatchCallView, AbiError>(call@),
                Err(e) => Self::decoding(data@) == Err::<ExecuteBatchCallView, AbiError>(e),
            },
    {
        Self::decode_with(data, Self::read_params(data))
    }
}

/// A call of one of the interface's functions.
#[derive(Debug, PartialEq, Eq)]
pub enum IReactorCalls {
    Execute(ExecuteCall),
    ExecuteBatch(ExecuteBatchCall),
}

/// The mathematical value of an `IReactorCalls`.
pub enum IReactorCallsView {
    Execute(ExecuteCallView),
    ExecuteBatch(ExecuteBatchCallView),
}

impl View for IReactorCalls {
    type V = IReactorCallsView;

    open spec fn view(&self) -> IReactorCallsView {
        match self {
            IReactorCalls::Execute(element) => IReactorCallsView::Execute(element@),
            IReactorCalls::ExecuteBatch(element) => IReactorCallsView::ExecuteBatch(element@),
        }
    }
}

impl IReactorCalls {
    /// The encoding of the call that it holds.
    pub open spec fn encoding(call: IReactorCallsView) -> Seq<u8> {
        match call {
            IReactorCallsView::Execute(element) => ExecuteCall::encoding(element),
            IReactorCallsView::ExecuteBatch(element) => ExecuteBatchCall::encoding(element),
        }
    }

    /// The number of bytes in the encoded parameters of the call.
    pub open spec fn params_size(call: IReactorCallsView) -> nat {
        match call {
            IReactorCallsView::Execute(element) => execute_params_size(element),
            IReactorCallsView::ExecuteBatch(element) => execute_batch_params_size(element),
        }
    }

    /// What `data` is read as, given the parameters that were read behind
    /// the selector of each function: the first call of the list, in the
    /// order of the variants, that the data can be read as.
    pub open spec fn decoding_with(
        data: Seq<u8>,
        execute: Option<ExecuteCallView>,
        batch: Option<ExecuteBatchCallView>,
    ) -> Result<IReactorCallsView, AbiError> {
        match ExecuteCall::decoding_with(data, execute) {
            Ok(element) => Ok(IReactorCallsView::Execute(element)),
            Err(_) => match ExecuteBatchCall::decoding_with(data, batch) {
                Ok(element) => Ok(IReactorCallsView::ExecuteBatch(element)),
                Err(_) => Err(AbiError::InvalidData),
            },
        }
    }

    /// What `data` is read as: the first call of the list, in the order of
    /// the variants, that the data can be read as.
    pub open spec fn decoding(data: Seq<u8>) -> Result<IReactorCallsView, AbiError> {
        Self::decoding_with(data, execute_params_of(data), execute_batch_params_of(data))
    }

    /// Reads a call from `data`.
    pub fn decode(data: &[u8]) -> (res: Result<IReactorCalls, AbiError>)
        ensures
            match res {
                Ok(call) => Self::decoding(data@) == Ok::<IReactorCallsView, AbiError>(call@),
                Err(e) => Self::decoding(data@) == Err::<IReactorCallsView, AbiError>(e),
            },
    {
        Self::decode_with(
            data,
            ExecuteCall::read_params(data),
            ExecuteBatchCall::read_params(data),
        )
    }

    /// Reads a call from `data`, given the parameters that were read behind
    /// the selector of each function.
    pub fn decode_with(
        data: &[u8],
        execute: Option<ExecuteCall>,
        batch: Option<ExecuteBatchCall>,
    ) -> (res: Result<IReactorCalls, AbiError>)
        ensures
            match res {
                Ok(call) => Self::decoding_with(
                    data@,
                    execute_view(execute),
                    execute_batch_view(batch),
                ) == Ok::<IReactorCallsView, AbiError>(call@),
                Err(e) => Self::decoding_with(
                    data@,
                    execute_view(execute),
                    execute_batch_view(batch),
                ) == Err::<IReactorCallsView, AbiError>(e),
            },
    {
        if let Ok(element) = ExecuteCall::decode_with(data, execute) {
            return Ok(IReactorCalls::Execute(element));
        }
        if let Ok(element) = ExecuteBatchCall::decode_with(data, batch) {
            return Ok(IReactorCalls::ExecuteBatch(element));
        }
        Err(AbiError::InvalidData)
    }

    /// Writes the call that it holds.
    pub fn encode(self) -> (out: Vec<u8>)
        requires
            Self::params_size(self@) <= usize::MAX,
        ensures
            out@ == Self::encoding(self@),
    {
        match self {
            IReactorCalls::Execute(element) => element.encode(),
            IReactorCalls::ExecuteBatch(element) => element.encode(),
        }
    }
}

impl From<ExecuteCall> for IReactorCalls {
    fn from(value: ExecuteCall) -> (res: Self) {
        IReactorCalls::Execute(value)
    }
}

impl FromSpecImpl<ExecuteCall> for IReactorCalls {
    open spec fn obeys_from_spec() -> bool {
        true
    }

    open spec fn from_spec(value: ExecuteCall) -> Self {
        IReactorCalls::Execute(value)
    }
}

impl From<ExecuteBatchCall> for IReactorCalls {
    fn from(value: ExecuteBatchCall) -> (res: Self) {
        IReactorCalls::ExecuteBatch(value)
    }
}

impl FromSpecImpl<ExecuteBatchCall> for IReactorCalls {
    open spec fn obeys_from_spec() -> bool {
        true
    }

    open spec fn from_spec(value: ExecuteBatchCall) -> Self {
        IReactorCalls::ExecuteBatch(value)
    }
}

/// A reactor contract at an address.
#[derive(Clone, Copy, Debug, PartialEq, Eq)]
pub struct IReactor(pub Address);

impl IReactor {
    /// The contract at `address`.
    pub fn new(address: Address) -> (contract: IReactor)
        ensures
            contract.0 == address,
    {
        IReactor(address)
    }

    /// A call of the contract's `execute` function.
    pub fn execute(&self, order: SignedOrder, fill_contract: Address, fill_data: Vec<u8>) -> (call:
        ContractCall)
        requires
            execute_params_size((ExecuteCall { order, fill_contract, fill_data })@) <= usize::MAX,
        ensures
            call.to == self.0,
            call.data@ == ExecuteCall::encoding((ExecuteCall { order, fill_contract, fill_data })@),
    {
        let input = ExecuteCall { order, fill_contract, fill_data };
        ContractCall { to: self.0, data: input.encode() }
    }

    /// A call of the contract's `executeBatch` function.
    pub fn execute_batch(
        &self,
        orders: Vec<SignedOrder>,
        fill_contract: Address,
        fill_data: Vec<u8>,
    ) -> (call: ContractCall)
        requires
            execute_batch_params_size((ExecuteBatchCall { orders, fill_contract, fill_data })@)
                <= usize::MAX,
        ensures
            call.to == self.0,
            call.data@ == ExecuteBatchCall::encoding(
                (ExecuteBatchCall { orders, fill_contract, fill_data })@,
            ),
    {
        let input = ExecuteBatchCall { orders, fill_contract, fill_data };
        ContractCall { to: self.0, data: input.encode() }
    }
}

} // verus!
