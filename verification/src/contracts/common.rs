//! What every order type shares: the order information block, the static
//! token amounts, and the frame in which an order is encoded.

use vstd::prelude::*;
use crate::abi::{
    address_word, bytes_enc, lemma_be_bytes_len, len_word, pad_len, push_address, push_bytes,
    push_len, push_uint, read_address, read_bytes, read_uint,
};
use crate::primitives::{Address, B256, U256};

verus! {

broadcast use vstd::array::group_array_axioms;

/// Generic order information, the first field of every order type.
#[derive(Debug, PartialEq, Eq)]
pub struct OrderInfo {
    /// The reactor that the order targets.
    pub reactor: Address,
    /// The account that created the order.
    pub swapper: Address,
    /// Protects the signature against replay, and allows cancellation.
    pub nonce: U256,
    /// The timestamp after which the order is no longer valid.
    pub deadline: U256,
    /// A contract that validates the order further.
    pub additional_validation_contract: Address,
    /// Parameters for the validation contract.
    pub additional_validation_data: Vec<u8>,
}

/// The mathematical value of an `OrderInfo`.
pub struct OrderInfoView {
    pub reactor: Address,
    pub swapper: Address,
    pub nonce: U256,
    pub deadline: U256,
    pub additional_validation_contract: Address,
    pub additional_validation_data: Seq<u8>,
}

impl View for OrderInfo {
    type V = OrderInfoView;

    open spec fn view(&self) -> OrderInfoView {
        OrderInfoView {
            reactor: self.reactor,
            swapper: self.swapper,
            nonce: self.nonce,
            deadline: self.deadline,
            additional_validation_contract: self.additional_validation_contract,
            additional_validation_data: self.additional_validation_data@,
        }
    }
}

impl Clone for OrderInfo {
    fn clone(&self) -> (res: Self)
        ensures
            res@ == self@,
    {
        OrderInfo {
            reactor: self.reactor,
            swapper: self.swapper,
            nonce: self.nonce,
            deadline: self.deadline,
            additional_validation_contract: self.additional_validation_contract,
            additional_validation_data: self.additional_validation_data.clone(),
        }
    }
}

/// Tokens that the swapper provides to satisfy an order.
#[derive(Clone, Copy, Debug, PartialEq, Eq)]
pub struct InputToken {
    pub token: Address,
    pub amount: U256,
    pub max_amount: U256,
}

/// Tokens that a recipient must receive to satisfy an order.
#[derive(Clone, Copy, Debug, PartialEq, Eq)]
pub struct OutputToken {
    pub token: Address,
    pub amount: U256,
    pub recipient: Address,
}

/// An order with its amounts resolved: what a simulated settlement hands
/// back.
#[derive(Debug, PartialEq, Eq)]
pub struct ResolvedOrder {
    pub info: OrderInfo,
    pub input: InputToken,
    pub outputs: Vec<OutputToken>,
    pub sig: Vec<u8>,
    pub hash: B256,
}

/// An encoded order with its signature, as the reactors take it.
#[derive(Debug, PartialEq, Eq)]
pub struct SignedOrder {
    pub order: Vec<u8>,
    pub sig: Vec<u8>,
}

/// The mathematical value of a `SignedOrder`.
pub struct SignedOrderView {
    pub order: Seq<u8>,
    pub sig: Seq<u8>,
}

impl View for SignedOrder {
    type V = SignedOrderView;

    open spec fn view(&self) -> SignedOrderView {
        SignedOrderView { order: self.order@, sig: self.sig@ }
    }
}

/// The encoding of an order information block: five static words, the
/// offset of the validation data, and the validation data.
pub open spec fn order_info_abi(i: OrderInfoView) -> Seq<u8> {
    address_word(i.reactor) + address_word(i.swapper) + i.nonce@ + i.deadline@ + address_word(
        i.additional_validation_contract,
    ) + len_word(192) + bytes_enc(i.additional_validation_data)
}

/// The number of bytes in the encoding of an order information block.
pub open spec fn order_info_size(i: OrderInfoView) -> nat {
    224 + i.additional_validation_data.len() + pad_len(i.additional_validation_data.len())
}

/// The frame of an encoded order. An order is a struct whose first field is
/// the order information and whose last field is an array of outputs, with
/// static fields between them. It is encoded as one value of dynamic size:
/// the offset of the struct; in the struct's head the offset of the
/// information block, the static fields and the offset of the array; then
/// the information block; then the array's length and its elements.
#[verifier::opaque]
pub open spec fn order_frame(statics: Seq<u8>, info: OrderInfoView, count: nat, elems: Seq<u8>) -> Seq<
    u8,
> {
    len_word(32) + len_word(64 + statics.len()) + statics + len_word(
        64 + statics.len() + order_info_size(info),
    ) + order_info_abi(info) + len_word(count) + elems
}

/// The number of bytes in a frame.
pub open spec fn order_frame_size(statics_len: nat, info: OrderInfoView, elems_len: nat) -> nat {
    128 + statics_len + order_info_size(info) + elems_len
}

/// Where each part of an encoded order information block lies.
pub proof fn lemma_order_info_layout(i: OrderInfoView)
    ensures
        ({
            let d = order_info_abi(i);
            let len = i.additional_validation_data.len() as int;
            &&& d.len() == order_info_size(i)
            &&& d.subrange(0, 32) == address_word(i.reactor)
            &&& d.subrange(32, 64) == address_word(i.swapper)
            &&& d.subrange(64, 96) == i.nonce@
            &&& d.subrange(96, 128) == i.deadline@
            &&& d.subrange(128, 160) == address_word(i.additional_validation_contract)
            &&& d.subrange(160, 192) == len_word(192)
            &&& d.subrange(192, 224) == len_word(i.additional_validation_data.len())
            &&& d.subrange(224, 224 + len) == i.additional_validation_data
        }),
{
    let d = order_info_abi(i);
    let len = i.additional_validation_data.len() as int;
    lemma_be_bytes_len(192, 32);
    lemma_be_bytes_len(i.additional_validation_data.len(), 32);
    assert(d.len() == order_info_size(i));
    assert(d.subrange(0, 32) =~= address_word(i.reactor));
    assert(d.subrange(32, 64) =~= address_word(i.swapper));
    assert(d.subrange(64, 96) =~= i.nonce@);
    assert(d.subrange(96, 128) =~= i.deadline@);
    assert(d.subrange(128, 160) =~= address_word(i.additional_validation_contract));
    assert(d.subrange(160, 192) =~= len_word(192));
    assert(d.subrange(192, 224) =~= len_word(i.additional_validation_data.len()));
    assert(d.subrange(224, 224 + len) =~= i.additional_validation_data);
}

/// Where each part of a frame lies.
pub proof fn lemma_order_frame_layout(
    statics: Seq<u8>,
    info: OrderInfoView,
    count: nat,
    elems: Seq<u8>,
)
    ensures
        ({
            let d = order_frame(statics, info, count, elems);
            let s = statics.len() as int;
            let at = 96 + s + order_info_size(info);
            &&& d.len() == order_frame_size(statics.len(), info, elems.len())
            &&& d.subrange(64, 64 + s) == statics
            &&& d.subrange(96 + s, at) == order_info_abi(info)
            &&& d.subrange(at, at + 32) == len_word(count)
            &&& d.subrange(at + 32, d.len() as int) == elems
        }),
{
    reveal(order_frame);
    let d = order_frame(statics, info, count, elems);
    let s = statics.len() as int;
    let at = 96 + s + order_info_size(info);
    lemma_order_info_layout(info);
    lemma_be_bytes_len(32, 32);
    lemma_be_bytes_len((64 + statics.len()) as nat, 32);
    lemma_be_bytes_len((64 + statics.len() + order_info_size(info)) as nat, 32);
    lemma_be_bytes_len(count, 32);
    assert(d.len() == order_frame_size(statics.len(), info, elems.len()));
    assert(d.subrange(64, 64 + s) =~= statics);
    assert(d.subrange(96 + s, at) =~= order_info_abi(info));
    assert(d.subrange(at, at + 32) =~= len_word(count));
    assert(d.subrange(at + 32, d.len() as int) =~= elems);
}

/// Where the fields of the order information lie in a frame.
pub proof fn lemma_order_frame_info(
    statics: Seq<u8>,
    info: OrderInfoView,
    count: nat,
    elems: Seq<u8>,
)
    ensures
        ({
            let d = order_frame(statics, info, count, elems);
            let at = 96 + statics.len() as int;
            let len = info.additional_validation_data.len() as int;
            &&& d.subrange(at + 12, at + 32) == info.reactor@
            &&& d.subrange(at + 44, at + 64) == info.swapper@
            &&& d.subrange(at + 64, at + 96) == info.nonce@
            &&& d.subrange(at + 96, at + 128) == info.deadline@
            &&& d.subrange(at + 140, at + 160) == info.additional_validation_contract@
            &&& d.subrange(at + 192, at + 224) == len_word(info.additional_validation_data.len())
            &&& d.subrange(at + 224, at + 224 + len) == info.additional_validation_data
        }),
{
    let d = order_frame(statics, info, count, elems);
    let at = 96 + statics.len() as int;
    let len = info.additional_validation_data.len() as int;
    let block = order_info_abi(info);
    lemma_order_frame_layout(statics, info, count, elems);
    lemma_order_info_layout(info);
    assert(d.subrange(at + 12, at + 32) =~= block.subrange(0, 32).subrange(12, 32));
    assert(d.subrange(at + 44, at + 64) =~= block.subrange(32, 64).subrange(12, 32));
    assert(d.subrange(at + 64, at + 96) =~= block.subrange(64, 96));
    assert(d.subrange(at + 96, at + 128) =~= block.subrange(96, 128));
    assert(d.subrange(at + 140, at + 160) =~= block.subrange(128, 160).subrange(12, 32));
    assert(d.subrange(at + 192, at + 224) =~= block.subrange(192, 224));
    assert(d.subrange(at + 224, at + 224 + len) =~= block.subrange(224, 224 + len));
    assert(address_word(info.reactor).subrange(12, 32) =~= info.reactor@);
    assert(address_word(info.swapper).subrange(12, 32) =~= info.swapper@);
    assert(address_word(info.additional_validation_contract).subrange(12, 32)
        =~= info.additional_validation_contract@);
}

/// Why bytes were not read as an order.
#[derive(Clone, Copy, Debug, PartialEq, Eq)]
pub enum EncodingError {
    /// The text is not hexadecimal.
    InvalidHex,
    /// The bytes are not the canonical encoding of a value of the type.
    Malformed,
}

/// Appends the encoding of an order information block.
pub fn push_order_info(out: &mut Vec<u8>, info: &OrderInfo)
    ensures
        final(out)@ == old(out)@ + order_info_abi(info@),
{
    push_address(out, &info.reactor);
    push_address(out, &info.swapper);
    push_uint(out, &info.nonce);
    push_uint(out, &info.deadline);
    push_address(out, &info.additional_validation_contract);
    push_len(out, 192);
    push_bytes(out, info.additional_validation_data.as_slice());
    assert(out@ =~= old(out)@ + order_info_abi(info@));
}

/// Reads the order information block that starts at `pos` and holds `len`
/// bytes of validation data, whatever is written as its offset and padding.
pub fn read_order_info(data: &[u8], pos: usize, len: usize) -> (info: OrderInfo)
    requires
        pos + 224 + len <= data.len(),
    ensures
        info@.reactor@ == data@.subrange(pos + 12, pos + 32),
        info@.swapper@ == data@.subrange(pos + 44, pos + 64),
        info@.nonce@ == data@.subrange(pos + 64, pos + 96),
        info@.deadline@ == data@.subrange(pos + 96, pos + 128),
        info@.additional_validation_contract@ == data@.subrange(pos + 140, pos + 160),
        info@.additional_validation_data == data@.subrange(pos + 224, pos + 224 + len),
{
    OrderInfo {
        reactor: read_address(data, pos),
        swapper: read_address(data, pos + 32),
        nonce: read_uint(data, pos + 64),
        deadline: read_uint(data, pos + 96),
        additional_validation_contract: read_address(data, pos + 128),
        additional_validation_data: read_bytes(data, pos + 224, len),
    }
}

/// Two values of the order information with the same fields are the same.
pub proof fn lemma_order_info_ext(a: OrderInfoView, b: OrderInfoView)
    requires
        a.reactor@ == b.reactor@,
        a.swapper@ == b.swapper@,
        a.nonce@ == b.nonce@,
        a.deadline@ == b.deadline@,
        a.additional_validation_contract@ == b.additional_validation_contract@,
        a.additional_validation_data == b.additional_validation_data,
    ensures
        a == b,
{
    assert(a.reactor.bytes == b.reactor.bytes);
    assert(a.swapper.bytes == b.swapper.bytes);
    assert(a.nonce.bytes == b.nonce.bytes);
    assert(a.deadline.bytes == b.deadline.bytes);
    assert(a.additional_validation_contract.bytes == b.additional_validation_contract.bytes);
}

/// The number of bytes in the encoding of `info`.
pub fn order_info_len(info: &OrderInfo) -> (n: usize)
    requires
        order_info_size(info@) <= usize::MAX,
    ensures
        n == order_info_size(info@),
{
    let len: usize = info.additional_validation_data.len();
    224 + len + (32 - len % 32) % 32
}

/// The three words of an input token.
pub open spec fn input_token_words(t: InputToken) -> Seq<u8> {
    address_word(t.token) + t.amount@ + t.max_amount@
}

/// The three words of an output token.
pub open spec fn output_token_words(t: OutputToken) -> Seq<u8> {
    address_word(t.token) + t.amount@ + address_word(t.recipient)
}

/// The words of a list of output tokens, one token after the other.
pub open spec fn output_tokens_words(outputs: Seq<OutputToken>) -> Seq<u8> {
    Seq::new(96 * outputs.len(), |i: int| output_token_words(outputs[i / 96])[i % 96])
}

/// Where the fields of output `j` lie among the words of a list of outputs.
pub proof fn lemma_output_tokens_layout(outputs: Seq<OutputToken>, j: int)
    requires
        0 <= j < outputs.len(),
    ensures
        ({
            let w = output_tokens_words(outputs);
            &&& w.len() == 96 * outputs.len()
            &&& w.subrange(96 * j, 96 * j + 96) == output_token_words(outputs[j])
            &&& w.subrange(96 * j + 12, 96 * j + 32) == outputs[j].token@
            &&& w.subrange(96 * j + 32, 96 * j + 64) == outputs[j].amount@
            &&& w.subrange(96 * j + 76, 96 * j + 96) == outputs[j].recipient@
        }),
{
    let w = output_tokens_words(outputs);
    let e = output_token_words(outputs[j]);
    assert(e.len() == 96);
    assert forall|i: int| 0 <= i < 96 implies w[96 * j + i] == e[i] by {
        assert((96 * j + i) / 96 == j);
        assert((96 * j + i) % 96 == i);
    }
    assert(w.subrange(96 * j, 96 * j + 96) =~= e);
    assert(w.subrange(96 * j + 12, 96 * j + 32) =~= e.subrange(12, 32));
    assert(w.subrange(96 * j + 32, 96 * j + 64) =~= e.subrange(32, 64));
    assert(w.subrange(96 * j + 76, 96 * j + 96) =~= e.subrange(76, 96));
    assert(e.subrange(12, 32) =~= outputs[j].token@);
    assert(e.subrange(32, 64) =~= outputs[j].amount@);
    assert(e.subrange(76, 96) =~= outputs[j].recipient@);
}

/// The words of a list with one more output.
pub proof fn lemma_output_tokens_push(outputs: Seq<OutputToken>, last: OutputToken)
    ensures
        output_tokens_words(outputs.push(last)) == output_tokens_words(outputs)
            + output_token_words(last),
{
    let longer = outputs.push(last);
    let n = outputs.len() as int;
    let w = output_tokens_words(longer);
    let sum = output_tokens_words(outputs) + output_token_words(last);
    assert(w.len() == sum.len());
    assert forall|i: int| 0 <= i < w.len() implies w[i] == sum[i] by {
        if i < 96 * n {
            assert(i / 96 < n);
            assert(longer[i / 96] == outputs[i / 96]);
        } else {
            assert(i / 96 == n);
            assert(i % 96 == i - 96 * n);
        }
    }
    assert(w =~= sum);
}

/// Two output tokens with the same fields are the same.
pub proof fn lemma_output_token_ext(a: OutputToken, b: OutputToken)
    requires
        a.token@ == b.token@,
        a.amount@ == b.amount@,
        a.recipient@ == b.recipient@,
    ensures
        a == b,
{
    assert(a.token.bytes == b.token.bytes);
    assert(a.amount.bytes == b.amount.bytes);
    assert(a.recipient.bytes == b.recipient.bytes);
}

/// Appends the words of an input token.
pub fn push_input_token(out: &mut Vec<u8>, t: &InputToken)
    ensures
        final(out)@ == old(out)@ + input_token_words(*t),
{
    push_address(out, &t.token);
    push_uint(out, &t.amount);
    push_uint(out, &t.max_amount);
    assert(out@ =~= old(out)@ + input_token_words(*t));
}

/// Appends the words of an output token.
pub fn push_output_token(out: &mut Vec<u8>, t: &OutputToken)
    ensures
        final(out)@ == old(out)@ + output_token_words(*t),
{
    push_address(out, &t.token);
    push_uint(out, &t.amount);
    push_address(out, &t.recipient);
    assert(out@ =~= old(out)@ + output_token_words(*t));
}

/// Appends the words of a list of output tokens.
pub fn push_output_tokens(out: &mut Vec<u8>, outputs: &Vec<OutputToken>)
    ensures
        final(out)@ == old(out)@ + output_tokens_words(outputs@),
{
    let mut i: usize = 0;
    assert(out@ =~= old(out)@ + output_tokens_words(outputs@.take(0)));
    while i < outputs.len()
        invariant
            i <= outputs.len(),
            out@ == old(out)@ + output_tokens_words(outputs@.take(i as int)),
        decreases outputs.len() - i,
    {
        push_output_token(out, &outputs[i]);
        proof {
            lemma_output_tokens_push(outputs@.take(i as int), outputs[i as int]);
            assert(outputs@.take(i + 1) =~= outputs@.take(i as int).push(outputs[i as int]));
            assert(out@ =~= old(out)@ + output_tokens_words(outputs@.take(i + 1)));
        }
        i += 1;
    }
    assert(outputs@.take(i as int) =~= outputs@);
}

/// Reads the input token whose three words start at `pos`, whatever stands
/// before the address in its word.
pub fn read_input_token(data: &[u8], pos: usize) -> (t: InputToken)
    requires
        pos + 96 <= data.len(),
    ensures
        t.token@ == data@.subrange(pos + 12, pos + 32),
        t.amount@ == data@.subrange(pos + 32, pos + 64),
        t.max_amount@ == data@.subrange(pos + 64, pos + 96),
{
    InputToken {
        token: read_address(data, pos),
        amount: read_uint(data, pos + 32),
        max_amount: read_uint(data, pos + 64),
    }
}

/// Reads `count` output tokens of three words each from `pos` on, whatever
/// stands before the addresses in their words.
pub fn read_output_tokens(data: &[u8], pos: usize, count: usize) -> (outputs: Vec<OutputToken>)
    requires
        pos + 96 * count <= data.len(),
    ensures
        outputs@.len() == count,
        forall|j: int|
            0 <= j < count ==> {
                &&& (#[trigger] outputs@[j]).token@ == data@.subrange(
                    pos + 96 * j + 12,
                    pos + 96 * j + 32,
                )
                &&& outputs@[j].amount@ == data@.subrange(pos + 96 * j + 32, pos + 96 * j + 64)
                &&& outputs@[j].recipient@ == data@.subrange(
                    pos + 96 * j + 76,
                    pos + 96 * j + 96,
                )
            },
{
    let mut outputs: Vec<OutputToken> = Vec::new();
    let mut i: usize = 0;
    while i < count
        invariant
            i <= count,
            pos + 96 * count <= data.len(),
            outputs@.len() == i,
            forall|j: int|
                0 <= j < i ==> {
                    &&& (#[trigger] outputs@[j]).token@ == data@.subrange(
                        pos + 96 * j + 12,
                        pos + 96 * j + 32,
                    )
                    &&& outputs@[j].amount@ == data@.subrange(
                        pos + 96 * j + 32,
                        pos + 96 * j + 64,
                    )
                    &&& outputs@[j].recipient@ == data@.subrange(
                        pos + 96 * j + 76,
                        pos + 96 * j + 96,
                    )
                },
        decreases count - i,
    {
        let at: usize = pos + 96 * i;
        let t = OutputToken {
            token: read_address(data, at),
            amount: read_uint(data, at + 32),
            recipient: read_address(data, at + 64),
        };
        outputs.push(t);
        i += 1;
    }
    outputs
}

} // verus!
