//! Dutch orders: the input and output amounts decay linearly between a start
//! and an end time.

use vstd::prelude::*;
use vstd::string::StringSliceAdditionalSpecFns;
use vstd::utf8::encode_utf8;
use crate::abi::{
    address_word, lemma_be_bytes_of_value, lemma_len_word, len_word, pad_len, push_address,
    push_len, push_slice, push_uint, read_address, read_len, read_uint,
};
use crate::contracts::common::{
    lemma_order_frame_info, lemma_order_frame_layout, lemma_order_info_ext, order_frame,
    order_info_len, order_info_size, push_order_info, read_order_info, EncodingError, OrderInfo,
    OrderInfoView,
};
use crate::eip712::{hash_struct, hash_struct_of, order_info_hash, type_hash_of};
use crate::hex::hex_decode_spec;
use crate::primitives::{be_value, bytes_eq, keccak256, keccak256_digest, Address, B256, U256};

verus! {

broadcast use vstd::array::group_array_axioms;

/// An amount of input tokens that increases linearly over time.
#[derive(Clone, Copy, Debug, PartialEq, Eq)]
pub struct DutchInput {
    pub token: Address,
    pub start_amount: U256,
    pub end_amount: U256,
}

/// An amount of output tokens that decreases linearly over time.
#[derive(Clone, Copy, Debug, PartialEq, Eq)]
pub struct DutchOutput {
    pub token: Address,
    pub start_amount: U256,
    pub end_amount: U256,
    pub recipient: Address,
}

/// The three words of a decaying input.
pub open spec fn dutch_input_words(t: DutchInput) -> Seq<u8> {
    address_word(t.token) + t.start_amount@ + t.end_amount@
}

/// The four words of a decaying output.
pub open spec fn dutch_output_words(t: DutchOutput) -> Seq<u8> {
    address_word(t.token) + t.start_amount@ + t.end_amount@ + address_word(t.recipient)
}

/// The words of a list of decaying outputs, one output after the other.
pub open spec fn dutch_outputs_words(outputs: Seq<DutchOutput>) -> Seq<u8> {
    Seq::new(128 * outputs.len(), |i: int| dutch_output_words(outputs[i / 128])[i % 128])
}

/// Where the fields of output `j` lie among the words of a list of outputs.
pub proof fn lemma_dutch_outputs_layout(outputs: Seq<DutchOutput>, j: int)
    requires
        0 <= j < outputs.len(),
    ensures
        ({
            let w = dutch_outputs_words(outputs);
            &&& w.len() == 128 * outputs.len()
            &&& w.subrange(128 * j, 128 * j + 128) == dutch_output_words(outputs[j])
            &&& w.subrange(128 * j + 12, 128 * j + 32) == outputs[j].token@
            &&& w.subrange(128 * j + 32, 128 * j + 64) == outputs[j].start_amount@
            &&& w.subrange(128 * j + 64, 128 * j + 96) == outputs[j].end_amount@
            &&& w.subrange(128 * j + 108, 128 * j + 128) == outputs[j].recipient@
        }),
{
    let w = dutch_outputs_words(outputs);
    let e = dutch_output_words(outputs[j]);
    assert(e.len() == 128);
    assert forall|i: int| 0 <= i < 128 implies w[128 * j + i] == e[i] by {
        assert((128 * j + i) / 128 == j);
        assert((128 * j + i) % 128 == i);
    }
    assert(w.subrange(128 * j, 128 * j + 128) =~= e);
    assert(w.subrange(128 * j + 12, 128 * j + 32) =~= e.subrange(12, 32));
    assert(w.subrange(128 * j + 32, 128 * j + 64) =~= e.subrange(32, 64));
    assert(w.subrange(128 * j + 64, 128 * j + 96) =~= e.subrange(64, 96));
    assert(w.subrange(128 * j + 108, 128 * j + 128) =~= e.subrange(108, 128));
    assert(e.subrange(12, 32) =~= outputs[j].token@);
    assert(e.subrange(32, 64) =~= outputs[j].start_amount@);
    assert(e.subrange(64, 96) =~= outputs[j].end_amount@);
    assert(e.subrange(108, 128) =~= outputs[j].recipient@);
}

/// The words of a list with one more output.
pub proof fn lemma_dutch_outputs_push(outputs: Seq<DutchOutput>, last: DutchOutput)
    ensures
        dutch_outputs_words(outputs.push(last)) == dutch_outputs_words(outputs)
            + dutch_output_words(last),
{
    let longer = outputs.push(last);
    let n = outputs.len() as int;
    let w = dutch_outputs_words(longer);
    let sum = dutch_outputs_words(outputs) + dutch_output_words(last);
    assert(w.len() == sum.len());
    assert forall|i: int| 0 <= i < w.len() implies w[i] == sum[i] by {
        if i < 128 * n {
            assert(i / 128 < n);
            assert(longer[i / 128] == outputs[i / 128]);
        } else {
            assert(i / 128 == n);
            assert(i % 128 == i - 128 * n);
        }
    }
    assert(w =~= sum);
}

/// Two decaying outputs with the same fields are the same.
pub proof fn lemma_dutch_output_ext(a: DutchOutput, b: DutchOutput)
    requires
        a.token@ == b.token@,
        a.start_amount@ == b.start_amount@,
        a.end_amount@ == b.end_amount@,
        a.recipient@ == b.recipient@,
    ensures
        a == b,
{
    assert(a.token.bytes == b.token.bytes);
    assert(a.start_amount.bytes == b.start_amount.bytes);
    assert(a.end_amount.bytes == b.end_amount.bytes);
    assert(a.recipient.bytes == b.recipient.bytes);
}

/// Two decaying inputs with the same fields are the same.
pub proof fn lemma_dutch_input_ext(a: DutchInput, b: DutchInput)
    requires
        a.token@ == b.token@,
        a.start_amount@ == b.start_amount@,
        a.end_amount@ == b.end_amount@,
    ensures
        a == b,
{
    assert(a.token.bytes == b.token.bytes);
    assert(a.start_amount.bytes == b.start_amount.bytes);
    assert(a.end_amount.bytes == b.end_amount.bytes);
}

/// Appends the words of a decaying input.
pub fn push_dutch_input(out: &mut Vec<u8>, t: &DutchInput)
    ensures
        final(out)@ == old(out)@ + dutch_input_words(*t),
{
    push_address(out, &t.token);
    push_uint(out, &t.start_amount);
    push_uint(out, &t.end_amount);
    assert(out@ =~= old(out)@ + dutch_input_words(*t));
}

/// Appends the words of a decaying output.
pub fn push_dutch_output(out: &mut Vec<u8>, t: &DutchOutput)
    ensures
        final(out)@ == old(out)@ + dutch_output_words(*t),
{
    push_address(out, &t.token);
    push_uint(out, &t.start_amount);
    push_uint(out, &t.end_amount);
    push_address(out, &t.recipient);
    assert(out@ =~= old(out)@ + dutch_output_words(*t));
}

/// Appends the words of a list of decaying outputs.
pub fn push_dutch_outputs(out: &mut Vec<u8>, outputs: &Vec<DutchOutput>)
    ensures
        final(out)@ == old(out)@ + dutch_outputs_words(outputs@),
{
    let mut i: usize = 0;
    assert(out@ =~= old(out)@ + dutch_outputs_words(outputs@.take(0)));
    while i < outputs.len()
        invariant
            i <= outputs.len(),
            out@ == old(out)@ + dutch_outputs_words(outputs@.take(i as int)),
        decreases outputs.len() - i,
    {
        push_dutch_output(out, &outputs[i]);
        proof {
            lemma_dutch_outputs_push(outputs@.take(i as int), outputs[i as int]);
            assert(outputs@.take(i + 1) =~= outputs@.take(i as int).push(outputs[i as int]));
            assert(out@ =~= old(out)@ + dutch_outputs_words(outputs@.take(i + 1)));
        }
        i += 1;
    }
    assert(outputs@.take(i as int) =~= outputs@);
}

/// Reads the decaying input whose three words start at `pos`, whatever
/// stands before the address in its word.
pub fn read_dutch_input(data: &[u8], pos: usize) -> (t: DutchInput)
    requires
        pos + 96 <= data.len(),
    ensures
        t.token@ == data@.subrange(pos + 12, pos + 32),
        t.start_amount@ == data@.subrange(pos + 32, pos + 64),
        t.end_amount@ == data@.subrange(pos + 64, pos + 96),
{
    DutchInput {
        token: read_address(data, pos),
        start_amount: read_uint(data, pos + 32),
        end_amount: read_uint(data, pos + 64),
    }
}

/// Reads `count` decaying outputs of four words each from `pos` on,
/// whatever stands before the addresses in their words.
pub fn read_dutch_outputs(data: &[u8], pos: usize, count: usize) -> (outputs: Vec<DutchOutput>)
    requires
        pos + 128 * count <= data.len(),
    ensures
        outputs@.len() == count,
        forall|j: int|
            0 <= j < count ==> {
                &&& (#[trigger] outputs@[j]).token@ == data@.subrange(
                    pos + 128 * j + 12,
                    pos + 128 * j + 32,
                )
                &&& outputs@[j].start_amount@ == data@.subrange(
                    pos + 128 * j + 32,
                    pos + 128 * j + 64,
                )
                &&& outputs@[j].end_amount@ == data@.subrange(
                    pos + 128 * j + 64,
                    pos + 128 * j + 96,
                )
                &&& outputs@[j].recipient@ == data@.subrange(
                    pos + 128 * j + 108,
                    pos + 128 * j + 128,
                )
            },
{
    let mut outputs: Vec<DutchOutput> = Vec::new();
    let mut i: usize = 0;
    while i < count
        invariant
            i <= count,
            pos + 128 * count <= data.len(),
            outputs@.len() == i,
            forall|j: int|
                0 <= j < i ==> {
                    &&& (#[trigger] outputs@[j]).token@ == data@.subrange(
                        pos + 128 * j + 12,
                        pos + 128 * j + 32,
                    )
                    &&& outputs@[j].start_amount@ == data@.subrange(
                        pos + 128 * j + 32,
                        pos + 128 * j + 64,
                    )
                    &&& outputs@[j].end_amount@ == data@.subrange(
                        pos + 128 * j + 64,
                        pos + 128 * j + 96,
                    )
                    &&& outputs@[j].recipient@ == data@.subrange(
                        pos + 128 * j + 108,
                        pos + 128 * j + 128,
                    )
                },
        decreases count - i,
    {
        let at: usize = pos + 128 * i;
        let t = DutchOutput {
            token: read_address(data, at),
            start_amount: read_uint(data, at + 32),
            end_amount: read_uint(data, at + 64),
            recipient: read_address(data, at + 96),
        };
        outputs.push(t);
        i += 1;
    }
    outputs
}

/// The type text of a decaying input.
pub open spec fn dutch_input_type() -> Seq<u8> {
    "DutchInput(address token,uint256 startAmount,uint256 endAmount)".spec_bytes()
}

/// The type text of a decaying output.
pub open spec fn dutch_output_type() -> Seq<u8> {
    "DutchOutput(address token,uint256 startAmount,uint256 endAmount,address recipient)".spec_bytes()
}

/// The structured hash of a decaying input.
pub open spec fn dutch_input_hash(t: DutchInput) -> Seq<u8> {
    hash_struct(dutch_input_type(), dutch_input_words(t))
}

/// The structured hash of a decaying output.
pub open spec fn dutch_output_hash(t: DutchOutput) -> Seq<u8> {
    hash_struct(dutch_output_type(), dutch_output_words(t))
}

/// The structured hashes of a list of decaying outputs, one after the other.
pub open spec fn dutch_output_hashes(outputs: Seq<DutchOutput>) -> Seq<u8>
    decreases outputs.len(),
{
    if outputs.len() == 0 {
        Seq::empty()
    } else {
        dutch_output_hashes(outputs.drop_last()) + dutch_output_hash(outputs.last())
    }
}

impl DutchInput {
    /// The structured hash of the input.
    pub fn eip712_hash_struct(&self) -> (hash: B256)
        ensures
            hash@ == dutch_input_hash(*self),
    {
        let mut fields: Vec<u8> = Vec::new();
        push_dutch_input(&mut fields, self);
        assert(fields@ =~= dutch_input_words(*self));
        hash_struct_of("DutchInput(address token,uint256 startAmount,uint256 endAmount)", &fields)
    }
}

impl DutchOutput {
    /// The structured hash of the output.
    pub fn eip712_hash_struct(&self) -> (hash: B256)
        ensures
            hash@ == dutch_output_hash(*self),
    {
        let mut fields: Vec<u8> = Vec::new();
        push_dutch_output(&mut fields, self);
        assert(fields@ =~= dutch_output_words(*self));
        hash_struct_of(
            "DutchOutput(address token,uint256 startAmount,uint256 endAmount,address recipient)",
            &fields,
        )
    }
}

/// The digest of the structured hashes of `outputs`, one after the other:
/// the word that an array of decaying outputs contributes to a hash.
pub fn hash_dutch_outputs(outputs: &Vec<DutchOutput>) -> (hash: B256)
    ensures
        hash@ == keccak256_digest(dutch_output_hashes(outputs@)),
{
    let mut buf: Vec<u8> = Vec::new();
    let mut i: usize = 0;
    while i < outputs.len()
        invariant
            i <= outputs.len(),
            buf@ == dutch_output_hashes(outputs@.take(i as int)),
        decreases outputs.len() - i,
    {
        let h = outputs[i].eip712_hash_struct();
        push_slice(&mut buf, h.bytes.as_slice());
        proof {
            assert(outputs@.take(i + 1).drop_last() =~= outputs@.take(i as int));
        }
        i += 1;
    }
    assert(outputs@.take(i as int) =~= outputs@);
    keccak256(buf.as_slice())
}

/// An order whose amounts decay between two times.
#[derive(Debug, PartialEq, Eq)]
pub struct DutchOrder {
    pub info: OrderInfo,
    /// The time at which the amounts start to decay.
    pub decay_start_time: U256,
    /// The time at which the amounts become static.
    pub decay_end_time: U256,
    /// The tokens that the swapper provides.
    pub input: DutchInput,
    /// The tokens that must be received.
    pub outputs: Vec<DutchOutput>,
}

/// The mathematical value of a Dutch order.
pub struct DutchOrderView {
    pub info: OrderInfoView,
    pub decay_start_time: U256,
    pub decay_end_time: U256,
    pub input: DutchInput,
    pub outputs: Seq<DutchOutput>,
}

impl View for DutchOrder {
    type V = DutchOrderView;

    open spec fn view(&self) -> DutchOrderView {
        DutchOrderView {
            info: self.info@,
            decay_start_time: self.decay_start_time,
            decay_end_time: self.decay_end_time,
            input: self.input,
            outputs: self.outputs@,
        }
    }
}

impl Clone for DutchOrder {
    fn clone(&self) -> (res: Self)
        ensures
            res@ == self@,
    {
        DutchOrder {
            info: self.info.clone(),
            decay_start_time: self.decay_start_time,
            decay_end_time: self.decay_end_time,
            input: self.input,
            outputs: self.outputs.clone(),
        }
    }
}

/// The static fields of a Dutch order between the order information and
/// the outputs.
pub open spec fn dutch_order_statics(o: DutchOrderView) -> Seq<u8> {
    o.decay_start_time@ + o.decay_end_time@ + dutch_input_words(o.input)
}

/// The canonical encoding of a Dutch order.
pub open spec fn dutch_order_abi(o: DutchOrderView) -> Seq<u8> {
    order_frame(dutch_order_statics(o), o.info, o.outputs.len(), dutch_outputs_words(o.outputs))
}

/// The number of bytes in the canonical encoding of a Dutch order.
pub open spec fn dutch_order_size(o: DutchOrderView) -> nat {
    288 + order_info_size(o.info) + 128 * o.outputs.len()
}

/// The order that `data` is the canonical encoding of, if it is one.
pub open spec fn dutch_order_decoding(data: Seq<u8>) -> Option<DutchOrderView> {
    if exists|o: DutchOrderView| dutch_order_abi(o) == data {
        Some(choose|o: DutchOrderView| dutch_order_abi(o) == data)
    } else {
        None
    }
}

/// What it means that the fields of `o` stand in `data` where the canonical
/// encoding of a Dutch order holds them.
#[verifier::opaque]
pub open spec fn dutch_order_read(o: DutchOrderView, data: Seq<u8>) -> bool {
    let len = o.info.additional_validation_data.len() as int;
    let at = 480 + len + pad_len(len as nat);
    &&& data.len() == dutch_order_size(o)
    &&& data.subrange(64, 96) == o.decay_start_time@
    &&& data.subrange(96, 128) == o.decay_end_time@
    &&& data.subrange(140, 160) == o.input.token@
    &&& data.subrange(160, 192) == o.input.start_amount@
    &&& data.subrange(192, 224) == o.input.end_amount@
    &&& data.subrange(268, 288) == o.info.reactor@
    &&& data.subrange(300, 320) == o.info.swapper@
    &&& data.subrange(320, 352) == o.info.nonce@
    &&& data.subrange(352, 384) == o.info.deadline@
    &&& data.subrange(396, 416) == o.info.additional_validation_contract@
    &&& data.subrange(448, 480) == len_word(len as nat)
    &&& data.subrange(480, 480 + len) == o.info.additional_validation_data
    &&& data.subrange(at, at + 32) == len_word(o.outputs.len())
    &&& forall|j: int|
        0 <= j < o.outputs.len() ==> {
            &&& (#[trigger] o.outputs[j]).token@ == data.subrange(
                at + 32 + 128 * j + 12,
                at + 32 + 128 * j + 32,
            )
            &&& o.outputs[j].start_amount@ == data.subrange(
                at + 32 + 128 * j + 32,
                at + 32 + 128 * j + 64,
            )
            &&& o.outputs[j].end_amount@ == data.subrange(
                at + 32 + 128 * j + 64,
                at + 32 + 128 * j + 96,
            )
            &&& o.outputs[j].recipient@ == data.subrange(
                at + 32 + 128 * j + 108,
                at + 32 + 128 * j + 128,
            )
        }
}

/// The canonical encoding of a Dutch order holds each field at its place.
pub proof fn lemma_dutch_order_layout(o: DutchOrderView)
    ensures
        dutch_order_read(o, dutch_order_abi(o)),
{
    reveal(dutch_order_read);
    let d = dutch_order_abi(o);
    let statics = dutch_order_statics(o);
    let elems = dutch_outputs_words(o.outputs);
    let len = o.info.additional_validation_data.len() as int;
    let at = 480 + len + pad_len(len as nat);
    lemma_order_frame_layout(statics, o.info, o.outputs.len(), elems);
    lemma_order_frame_info(statics, o.info, o.outputs.len(), elems);
    assert(statics.len() == 160);
    assert(d.subrange(64, 96) =~= statics.subrange(0, 32));
    assert(d.subrange(96, 128) =~= statics.subrange(32, 64));
    assert(d.subrange(140, 160) =~= statics.subrange(76, 96));
    assert(d.subrange(160, 192) =~= statics.subrange(96, 128));
    assert(d.subrange(192, 224) =~= statics.subrange(128, 160));
    assert(statics.subrange(0, 32) =~= o.decay_start_time@);
    assert(statics.subrange(32, 64) =~= o.decay_end_time@);
    assert(statics.subrange(76, 96) =~= o.input.token@);
    assert(statics.subrange(96, 128) =~= o.input.start_amount@);
    assert(statics.subrange(128, 160) =~= o.input.end_amount@);
    assert forall|j: int| 0 <= j < o.outputs.len() implies {
        &&& (#[trigger] o.outputs[j]).token@ == d.subrange(
            at + 32 + 128 * j + 12,
            at + 32 + 128 * j + 32,
        )
        &&& o.outputs[j].start_amount@ == d.subrange(
            at + 32 + 128 * j + 32,
            at + 32 + 128 * j + 64,
        )
        &&& o.outputs[j].end_amount@ == d.subrange(
            at + 32 + 128 * j + 64,
            at + 32 + 128 * j + 96,
        )
        &&& o.outputs[j].recipient@ == d.subrange(
            at + 32 + 128 * j + 108,
            at + 32 + 128 * j + 128,
        )
    } by {
        lemma_dutch_outputs_layout(o.outputs, j);
        let base = at + 32 + 128 * j;
        assert(d.subrange(base + 12, base + 32) =~= elems.subrange(
            128 * j + 12,
            128 * j + 32,
        ));
        assert(d.subrange(base + 32, base + 64) =~= elems.subrange(
            128 * j + 32,
            128 * j + 64,
        ));
        assert(d.subrange(base + 64, base + 96) =~= elems.subrange(
            128 * j + 64,
            128 * j + 96,
        ));
        assert(d.subrange(base + 108, base + 128) =~= elems.subrange(
            128 * j + 108,
            128 * j + 128,
        ));
    }
}

/// At most one order of a size below 2^64 has its fields at their places in
/// `data`.
pub proof fn lemma_dutch_order_read_unique(a: DutchOrderView, b: DutchOrderView, data: Seq<u8>)
    requires
        dutch_order_read(a, data),
        dutch_order_read(b, data),
        data.len() < 0x1_0000_0000_0000_0000,
    ensures
        a == b,
{
    reveal(dutch_order_read);
    lemma_len_word(a.info.additional_validation_data.len());
    lemma_len_word(b.info.additional_validation_data.len());
    assert(a.info.additional_validation_data.len() == b.info.additional_validation_data.len());
    lemma_len_word(a.outputs.len());
    lemma_len_word(b.outputs.len());
    assert(a.outputs.len() == b.outputs.len());
    lemma_order_info_ext(a.info, b.info);
    assert(a.decay_start_time.bytes == b.decay_start_time.bytes);
    assert(a.decay_end_time.bytes == b.decay_end_time.bytes);
    assert(a.input.token.bytes == b.input.token.bytes);
    assert(a.input.start_amount.bytes == b.input.start_amount.bytes);
    assert(a.input.end_amount.bytes == b.input.end_amount.bytes);
    assert forall|j: int| 0 <= j < a.outputs.len() implies a.outputs[j] == b.outputs[j] by {
        lemma_dutch_output_ext(a.outputs[j], b.outputs[j]);
    }
    assert(a.outputs =~= b.outputs);
}

/// The size of an order whose fields stand in `data`, and the two length
/// words among them.
pub proof fn lemma_dutch_order_read_header(o: DutchOrderView, data: Seq<u8>)
    requires
        dutch_order_read(o, data),
    ensures
        ({
            let len = o.info.additional_validation_data.len() as int;
            let at = 480 + len + pad_len(len as nat);
            &&& data.len() == dutch_order_size(o)
            &&& data.subrange(448, 480) == len_word(len as nat)
            &&& data.subrange(at, at + 32) == len_word(o.outputs.len())
        }),
{
    reveal(dutch_order_read);
}

/// Two orders with the same canonical encoding, of a size below 2^64, are
/// the same order.
pub proof fn lemma_dutch_order_abi_injective(a: DutchOrderView, b: DutchOrderView)
    requires
        dutch_order_abi(a) == dutch_order_abi(b),
        dutch_order_abi(a).len() < 0x1_0000_0000_0000_0000,
    ensures
        a == b,
{
    lemma_dutch_order_layout(a);
    lemma_dutch_order_layout(b);
    lemma_dutch_order_read_unique(a, b, dutch_order_abi(a));
}

/// The canonical encoding of an order has the size of the order.
pub proof fn lemma_dutch_order_abi_len(o: DutchOrderView)
    ensures
        dutch_order_abi(o).len() == dutch_order_size(o),
{
    lemma_dutch_order_layout(o);
    lemma_dutch_order_read_header(o, dutch_order_abi(o));
}

/// Decoding the canonical encoding of an order gives the order back.
pub proof fn lemma_dutch_order_round_trip(o: DutchOrderView)
    requires
        dutch_order_size(o) < 0x1_0000_0000_0000_0000,
    ensures
        dutch_order_decoding(dutch_order_abi(o)) == Some(o),
{
    lemma_dutch_order_abi_len(o);
    let found = choose|f: DutchOrderView| dutch_order_abi(f) == dutch_order_abi(o);
    lemma_dutch_order_abi_injective(found, o);
}

/// Bytes are no canonical encoding of a Dutch order when they are too
/// few to hold one, when one of its two length words holds a number that no
/// `usize` can hold, or when the lengths they hold, `len` for the validation
/// data and `count` for the outputs, do not give the number of bytes.
pub proof fn lemma_dutch_order_not_canonical(data: Seq<u8>, len: nat, count: nat)
    requires
        data.len() <= usize::MAX,
        ({
            let at = (480 + len + pad_len(len)) as int;
            ||| data.len() < 512
            ||| be_value(data.subrange(448, 480)) > usize::MAX
            ||| (be_value(data.subrange(448, 480)) == len && data.len() < 512 + len + pad_len(len))
            ||| (be_value(data.subrange(448, 480)) == len && at + 32 <= data.len() && be_value(
                data.subrange(at, at + 32),
            ) > usize::MAX)
            ||| (be_value(data.subrange(448, 480)) == len && at + 32 <= data.len() && be_value(
                data.subrange(at, at + 32),
            ) == count && data.len() != at + 32 + 128 * count)
        }),
    ensures
        forall|o: DutchOrderView| dutch_order_abi(o) != data,
{
    assert forall|o: DutchOrderView| dutch_order_abi(o) != data by {
        if dutch_order_abi(o) == data {
            lemma_dutch_order_layout(o);
            lemma_dutch_order_read_header(o, data);
            lemma_len_word(o.info.additional_validation_data.len());
            lemma_len_word(o.outputs.len());
        }
    }
}

/// The type text of a Dutch order: its own members, then the struct types
/// it refers to, by name.
pub open spec fn dutch_order_type() -> Seq<u8> {
    "DutchOrder(OrderInfo info,uint256 decayStartTime,uint256 decayEndTime,DutchInput input,DutchOutput[] outputs)DutchInput(address token,uint256 startAmount,uint256 endAmount)DutchOutput(address token,uint256 startAmount,uint256 endAmount,address recipient)OrderInfo(address reactor,address swapper,uint256 nonce,uint256 deadline,address additionalValidationContract,bytes additionalValidationData)".spec_bytes()
}

/// The words that the fields of a Dutch order contribute to its hash: a
/// struct contributes its hash, an array the digest of its elements' hashes.
pub open spec fn dutch_order_fields(o: DutchOrderView) -> Seq<u8> {
    order_info_hash(o.info) + o.decay_start_time@ + o.decay_end_time@ + dutch_input_hash(o.input)
        + keccak256_digest(dutch_output_hashes(o.outputs))
}

/// The structured hash of a Dutch order.
pub open spec fn dutch_order_hash(o: DutchOrderView) -> Seq<u8> {
    hash_struct(dutch_order_type(), dutch_order_fields(o))
}

impl DutchOrder {
    /// The number of bytes in the canonical encoding, if a `usize` can hold
    /// it.
    pub fn encoded_size(&self) -> (res: Option<usize>)
        ensures
            match res {
                Some(n) => n == dutch_order_size(self@),
                None => dutch_order_size(self@) > usize::MAX,
            },
    {
        let len: usize = self.info.additional_validation_data.len();
        let pad: usize = (32 - len % 32) % 32;
        let count: usize = self.outputs.len();
        if count > (usize::MAX - 512) / 128 {
            return None;
        }
        let fixed: usize = 512 + 128 * count;
        if pad > usize::MAX - fixed || len > usize::MAX - fixed - pad {
            return None;
        }
        Some(fixed + pad + len)
    }

    /// The canonical encoding of the order.
    pub fn encode(&self) -> (out: Vec<u8>)
        requires
            dutch_order_size(self@) <= usize::MAX,
        ensures
            out@ == dutch_order_abi(self@),
            out@.len() == dutch_order_size(self@),
    {
        let info_len: usize = order_info_len(&self.info);
        let mut out: Vec<u8> = Vec::new();
        push_len(&mut out, 32);
        push_len(&mut out, 224);
        push_uint(&mut out, &self.decay_start_time);
        push_uint(&mut out, &self.decay_end_time);
        push_dutch_input(&mut out, &self.input);
        push_len(&mut out, 224 + info_len);
        push_order_info(&mut out, &self.info);
        push_len(&mut out, self.outputs.len());
        push_dutch_outputs(&mut out, &self.outputs);
        proof {
            reveal(order_frame);
            assert(dutch_order_statics(self@).len() == 160);
            assert(out@ =~= dutch_order_abi(self@));
            lemma_dutch_order_abi_len(self@);
        }
        out
    }

    /// Reads the fields of an order from the places where a canonical
    /// encoding holds them, without looking at offsets and padding.
    fn parse(data: &[u8]) -> (res: Option<DutchOrder>)
        ensures
            match res {
                Some(x) => dutch_order_read(x@, data@),
                None => forall|o: DutchOrderView| dutch_order_abi(o) != data@,
            },
    {
        let n: usize = data.len();
        if n < 512 {
            proof {
                lemma_dutch_order_not_canonical(data@, 0, 0);
            }
            return None;
        }
        let len: usize = match read_len(data, 448) {
            Some(len) => len,
            None => {
                proof {
                    lemma_dutch_order_not_canonical(data@, 0, 0);
                }
                return None;
            },
        };
        let pad: usize = (32 - len % 32) % 32;
        if len > n - 512 || pad > n - 512 - len {
            proof {
                lemma_dutch_order_not_canonical(data@, len as nat, 0);
            }
            return None;
        }
        let at: usize = 480 + len + pad;
        let count: usize = match read_len(data, at) {
            Some(count) => count,
            None => {
                proof {
                    lemma_dutch_order_not_canonical(data@, len as nat, 0);
                }
                return None;
            },
        };
        let rest: usize = n - 32 - at;
        if rest % 128 != 0 || count != rest / 128 {
            proof {
                lemma_dutch_order_not_canonical(data@, len as nat, count as nat);
            }
            return None;
        }
        let x = DutchOrder {
            info: read_order_info(data, 256, len),
            decay_start_time: read_uint(data, 64),
            decay_end_time: read_uint(data, 96),
            input: read_dutch_input(data, 128),
            outputs: read_dutch_outputs(data, at + 32, count),
        };
        proof {
            lemma_be_bytes_of_value(data@.subrange(448, 480));
            lemma_be_bytes_of_value(data@.subrange(at as int, at + 32));
            assert(dutch_order_read(x@, data@)) by {
                reveal(dutch_order_read);
            }
        }
        Some(x)
    }

    /// Reads an order from its canonical encoding. Bytes that are not the
    /// canonical encoding of any order of this type are refused.
    pub fn decode(data: &[u8]) -> (res: Result<DutchOrder, EncodingError>)
        ensures
            match res {
                Ok(x) => dutch_order_decoding(data@) == Some(x@) && dutch_order_abi(x@) == data@,
                Err(e) => dutch_order_decoding(data@) is None && e == EncodingError::Malformed,
            },
    {
        let size: usize = data.len();
        match DutchOrder::parse(data) {
            None => Err(EncodingError::Malformed),
            Some(x) => {
                proof {
                    lemma_dutch_order_read_header(x@, data@);
                    assert(dutch_order_size(x@) == size);
                }
                let again = x.encode();
                if bytes_eq(again.as_slice(), data) {
                    proof {
                        let found = choose|o: DutchOrderView| dutch_order_abi(o) == data@;
                        lemma_dutch_order_abi_injective(found, x@);
                    }
                    Ok(x)
                } else {
                    proof {
                        assert forall|o: DutchOrderView| dutch_order_abi(o) != data@ by {
                            if dutch_order_abi(o) == data@ {
                                lemma_dutch_order_layout(o);
                                lemma_dutch_order_read_unique(o, x@, data@);
                            }
                        }
                    }
                    Err(EncodingError::Malformed)
                }
            },
        }
    }

    /// Reads an order from the hexadecimal text of its canonical encoding.
    pub fn try_from(hex_encoded: String) -> (res: Result<DutchOrder, EncodingError>)
        ensures
            match res {
                Ok(x) => dutch_order_from_hex(hex_encoded@) == Ok::<DutchOrderView, EncodingError>(x@),
                Err(e) => dutch_order_from_hex(hex_encoded@) == Err::<DutchOrderView, EncodingError>(e),
            },
    {
        match crate::hex::decode(hex_encoded.as_str().as_bytes()) {
            None => Err(EncodingError::InvalidHex),
            Some(bytes) => DutchOrder::decode(bytes.as_slice()),
        }
    }

    /// The hash of the order's type text.
    pub fn eip712_type_hash(&self) -> (hash: B256)
        ensures
            hash@ == keccak256_digest(dutch_order_type()),
    {
        type_hash_of(
            "DutchOrder(OrderInfo info,uint256 decayStartTime,uint256 decayEndTime,DutchInput input,DutchOutput[] outputs)DutchInput(address token,uint256 startAmount,uint256 endAmount)DutchOutput(address token,uint256 startAmount,uint256 endAmount,address recipient)OrderInfo(address reactor,address swapper,uint256 nonce,uint256 deadline,address additionalValidationContract,bytes additionalValidationData)",
        )
    }

    /// The structured hash of the order.
    pub fn eip712_hash_struct(&self) -> (hash: B256)
        ensures
            hash@ == dutch_order_hash(self@),
    {
        let mut fields: Vec<u8> = Vec::new();
        let info_hash = self.info.eip712_hash_struct();
        push_slice(&mut fields, info_hash.bytes.as_slice());
        push_uint(&mut fields, &self.decay_start_time);
        push_uint(&mut fields, &self.decay_end_time);
        let input_hash = self.input.eip712_hash_struct();
        push_slice(&mut fields, input_hash.bytes.as_slice());
        let outputs_hash = hash_dutch_outputs(&self.outputs);
        push_slice(&mut fields, outputs_hash.bytes.as_slice());
        assert(fields@ =~= dutch_order_fields(self@));
        hash_struct_of(
            "DutchOrder(OrderInfo info,uint256 decayStartTime,uint256 decayEndTime,DutchInput input,DutchOutput[] outputs)DutchInput(address token,uint256 startAmount,uint256 endAmount)DutchOutput(address token,uint256 startAmount,uint256 endAmount,address recipient)OrderInfo(address reactor,address swapper,uint256 nonce,uint256 deadline,address additionalValidationContract,bytes additionalValidationData)",
            &fields,
        )
    }
}

/// The order that hexadecimal text spells: the text is read as bytes, and
/// the bytes as the canonical encoding of an order.
pub open spec fn dutch_order_from_hex(text: Seq<char>) -> Result<DutchOrderView, EncodingError> {
    match hex_decode_spec(encode_utf8(text)) {
        None => Err(EncodingError::InvalidHex),
        Some(bytes) => match dutch_order_decoding(bytes) {
            Some(o) => Ok(o),
            None => Err(EncodingError::Malformed),
        },
    }
}

} // verus!
