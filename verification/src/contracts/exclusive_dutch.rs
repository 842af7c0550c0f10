//! Exclusive Dutch orders: Dutch orders that one filler alone may fill until
//! the decay starts, unless another filler improves on the outputs.

use vstd::prelude::*;
use vstd::string::StringSliceAdditionalSpecFns;
use vstd::utf8::encode_utf8;
use crate::abi::{
    address_word, lemma_be_bytes_of_value, lemma_len_word, len_word, pad_len, push_address,
    push_len, push_slice, push_uint, read_address, read_len, read_uint,
};
use crate::contracts::common::{
    lemma_order_frame_info, lemma_order_frame_layout, lemma_order_info_ext, order_frame,
    order_info_len, order_info_size, push_order_info, read_order_info, EncodingError, OrderInfo,
    OrderInfoView,
};
use crate::eip712::{hash_struct, hash_struct_of, order_info_hash, type_hash_of};
use crate::hex::hex_decode_spec;
use crate::primitives::{be_value, bytes_eq, keccak256_digest, Address, B256, U256};
use crate::contracts::dutch::{
    dutch_input_hash, dutch_input_words, dutch_output_hashes, dutch_outputs_words,
    hash_dutch_outputs, lemma_dutch_output_ext, lemma_dutch_outputs_layout, push_dutch_input,
    push_dutch_outputs, read_dutch_input, read_dutch_outputs, DutchInput, DutchOutput,
};

verus! {

broadcast use vstd::array::group_array_axioms;

/// A Dutch order with an exclusive filler.
#[derive(Debug, PartialEq, Eq)]
pub struct ExclusiveDutchOrder {
    pub info: OrderInfo,
    /// The time at which the amounts start to decay.
    pub decay_start_time: U256,
    /// The time at which the amounts become static.
    pub decay_end_time: U256,
    /// The filler that alone may fill the order until the decay starts.
    pub exclusive_filler: Address,
    /// By how many basis points another filler must improve on the outputs
    /// to fill the order before the decay starts.
    pub exclusivity_override_bps: U256,
    /// The tokens that the swapper provides.
    pub input: DutchInput,
    /// The tokens that must be received.
    pub outputs: Vec<DutchOutput>,
}

/// The mathematical value of an exclusive Dutch order.
pub struct ExclusiveDutchOrderView {
    pub info: OrderInfoView,
    pub decay_start_time: U256,
    pub decay_end_time: U256,
    pub exclusive_filler: Address,
    pub exclusivity_override_bps: U256,
    pub input: DutchInput,
    pub outputs: Seq<DutchOutput>,
}

impl View for ExclusiveDutchOrder {
    type V = ExclusiveDutchOrderView;

    open spec fn view(&self) -> ExclusiveDutchOrderView {
        ExclusiveDutchOrderView {
            info: self.info@,
            decay_start_time: self.decay_start_time,
            decay_end_time: self.decay_end_time,
            exclusive_filler: self.exclusive_filler,
            exclusivity_override_bps: self.exclusivity_override_bps,
            input: self.input,
            outputs: self.outputs@,
        }
    }
}

impl Clone for ExclusiveDutchOrder {
    fn clone(&self) -> (res: Self)
        ensures
            res@ == self@,
    {
        ExclusiveDutchOrder {
            info: self.info.clone(),
            decay_start_time: self.decay_start_time,
            decay_end_time: self.decay_end_time,
            exclusive_filler: self.exclusive_filler,
            exclusivity_override_bps: self.exclusivity_override_bps,
            input: self.input,
            outputs: self.outputs.clone(),
        }
    }
}

/// The static fields of an exclusive Dutch order between the order information and
/// the outputs.
pub open spec fn exclusive_dutch_order_statics(o: ExclusiveDutchOrderView) -> Seq<u8> {
    o.decay_start_time@ + o.decay_end_time@ + address_word(o.exclusive_filler)
        + o.exclusivity_override_bps@ + dutch_input_words(o.input)
}

/// The canonical encoding of an exclusive Dutch order.
pub open spec fn exclusive_dutch_order_abi(o: ExclusiveDutchOrderView) -> Seq<u8> {
    order_frame(exclusive_dutch_order_statics(o), o.info, o.outputs.len(), dutch_outputs_words(o.outputs))
}

/// The number of bytes in the canonical encoding of an exclusive Dutch order.
pub open spec fn exclusive_dutch_order_size(o: ExclusiveDutchOrderView) -> nat {
    352 + order_info_size(o.info) + 128 * o.outputs.len()
}

/// The order that `data` is the canonical encoding of, if it is one.
pub open spec fn exclusive_dutch_order_decoding(data: Seq<u8>) -> Option<ExclusiveDutchOrderView> {
    if exists|o: ExclusiveDutchOrderView| exclusive_dutch_order_abi(o) == data {
        Some(choose|o: ExclusiveDutchOrderView| exclusive_dutch_order_abi(o) == data)
    } else {
        None
    }
}

/// What it means that the fields of `o` stand in `data` where the canonical
/// encoding of an exclusive Dutch order holds them.
#[verifier::opaque]
pub open spec fn exclusive_dutch_order_read(o: ExclusiveDutchOrderView, data: Seq<u8>) -> bool {
    let len = o.info.additional_validation_data.len() as int;
    let at = 544 + len + pad_len(len as nat);
    &&& data.len() == exclusive_dutch_order_size(o)
    &&& data.subrange(64, 96) == o.decay_start_time@
    &&& data.subrange(96, 128) == o.decay_end_time@
    &&& data.subrange(140, 160) == o.exclusive_filler@
    &&& data.subrange(160, 192) == o.exclusivity_override_bps@
    &&& data.subrange(204, 224) == o.input.token@
    &&& data.subrange(224, 256) == o.input.start_amount@
    &&& data.subrange(256, 288) == o.input.end_amount@
    &&& data.subrange(332, 352) == o.info.reactor@
    &&& data.subrange(364, 384) == o.info.swapper@
    &&& data.subrange(384, 416) == o.info.nonce@
    &&& data.subrange(416, 448) == o.info.deadline@
    &&& data.subrange(460, 480) == o.info.additional_validation_contract@
    &&& data.subrange(512, 544) == len_word(len as nat)
    &&& data.subrange(544, 544 + len) == o.info.additional_validation_data
    &&& data.subrange(at, at + 32) == len_word(o.outputs.len())
    &&& forall|j: int|
        0 <= j < o.outputs.len() ==> {
            &&& (#[trigger] o.outputs[j]).token@ == data.subrange(
                at + 32 + 128 * j + 12,
                at + 32 + 128 * j + 32,
            )
            &&& o.outputs[j].start_amount@ == data.subrange(
                at + 32 + 128 * j + 32,
                at + 32 + 128 * j + 64,
            )
            &&& o.outputs[j].end_amount@ == data.subrange(
                at + 32 + 128 * j + 64,
                at + 32 + 128 * j + 96,
            )
            &&& o.outputs[j].recipient@ == data.subrange(
                at + 32 + 128 * j + 108,
                at + 32 + 128 * j + 128,
            )
        }
}

/// The canonical encoding of an exclusive Dutch order holds each field at its place.
pub proof fn lemma_exclusive_dutch_order_layout(o: ExclusiveDutchOrderView)
    ensures
        exclusive_dutch_order_read(o, exclusive_dutch_order_abi(o)),
{
    reveal(exclusive_dutch_order_read);
    let d = exclusive_dutch_order_abi(o);
    let statics = exclusive_dutch_order_statics(o);
    let elems = dutch_outputs_words(o.outputs);
    let len = o.info.additional_validation_data.len() as int;
    let at = 544 + len + pad_len(len as nat);
    lemma_order_frame_layout(statics, o.info, o.outputs.len(), elems);
    lemma_order_frame_info(statics, o.info, o.outputs.len(), elems);
    assert(statics.len() == 224);
    assert(d.subrange(64, 96) =~= statics.subrange(0, 32));
    assert(d.subrange(96, 128) =~= statics.subrange(32, 64));
    assert(d.subrange(140, 160) =~= statics.subrange(76, 96));
    assert(d.subrange(160, 192) =~= statics.subrange(96, 128));
    assert(d.subrange(204, 224) =~= statics.subrange(140, 160));
    assert(d.subrange(224, 256) =~= statics.subrange(160, 192));
    assert(d.subrange(256, 288) =~= statics.subrange(192, 224));
    assert(statics.subrange(0, 32) =~= o.decay_start_time@);
    assert(statics.subrange(32, 64) =~= o.decay_end_time@);
    assert(statics.subrange(76, 96) =~= o.exclusive_filler@);
    assert(statics.subrange(96, 128) =~= o.exclusivity_override_bps@);
    assert(statics.subrange(140, 160) =~= o.input.token@);
    assert(statics.subrange(160, 192) =~= o.input.start_amount@);
    assert(statics.subrange(192, 224) =~= o.input.end_amount@);
    assert forall|j: int| 0 <= j < o.outputs.len() implies {
        &&& (#[trigger] o.outputs[j]).token@ == d.subrange(
            at + 32 + 128 * j + 12,
            at + 32 + 128 * j + 32,
        )
        &&& o.outputs[j].start_amount@ == d.subrange(
            at + 32 + 128 * j + 32,
            at + 32 + 128 * j + 64,
        )
        &&& o.outputs[j].end_amount@ == d.subrange(
            at + 32 + 128 * j + 64,
            at + 32 + 128 * j + 96,
        )
        &&& o.outputs[j].recipient@ == d.subrange(
            at + 32 + 128 * j + 108,
            at + 32 + 128 * j + 128,
        )
    } by {
        lemma_dutch_outputs_layout(o.outputs, j);
        let base = at + 32 + 128 * j;
        assert(d.subrange(base + 12, base + 32) =~= elems.subrange(
            128 * j + 12,
            128 * j + 32,
        ));
        assert(d.subrange(base + 32, base + 64) =~= elems.subrange(
            128 * j + 32,
            128 * j + 64,
        ));
        assert(d.subrange(base + 64, base + 96) =~= elems.subrange(
            128 * j + 64,
            128 * j + 96,
        ));
        assert(d.subrange(base + 108, base + 128) =~= elems.subrange(
            128 * j + 108,
            128 * j + 128,
        ));
    }
}

/// At most one order of a size below 2^64 has its fields at their places in
/// `data`.
pub proof fn lemma_exclusive_dutch_order_read_unique(a: ExclusiveDutchOrderView, b: ExclusiveDutchOrderView, data: Seq<u8>)
    requires
        exclusive_dutch_order_read(a, data),
        exclusive_dutch_order_read(b, data),
        data.len() < 0x1_0000_0000_0000_0000,
    ensures
        a == b,
{
    reveal(exclusive_dutch_order_read);
    lemma_len_word(a.info.additional_validation_data.len());
    lemma_len_word(b.info.additional_validation_data.len());
    assert(a.info.additional_validation_data.len() == b.info.additional_validation_data.len());
    lemma_len_word(a.outputs.len());
    lemma_len_word(b.outputs.len());
    assert(a.outputs.len() == b.outputs.len());
    lemma_order_info_ext(a.info, b.info);
    assert(a.decay_start_time.bytes == b.decay_start_time.bytes);
    assert(a.decay_end_time.bytes == b.decay_end_time.bytes);
    assert(a.exclusive_filler.bytes == b.exclusive_filler.bytes);
    assert(a.exclusivity_override_bps.bytes == b.exclusivity_override_bps.bytes);
    assert(a.input.token.bytes == b.input.token.bytes);
    assert(a.input.start_amount.bytes == b.input.start_amount.bytes);
    assert(a.input.end_amount.bytes == b.input.end_amount.bytes);
    assert forall|j: int| 0 <= j < a.outputs.len() implies a.outputs[j] == b.outputs[j] by {
        lemma_dutch_output_ext(a.outputs[j], b.outputs[j]);
    }
    assert(a.outputs =~= b.outputs);
}

/// The size of an order whose fields stand in `data`, and the two length
/// words among them.
pub proof fn lemma_exclusive_dutch_order_read_header(o: ExclusiveDutchOrderView, data: Seq<u8>)
    requires
        exclusive_dutch_order_read(o, data),
    ensures
        ({
            let len = o.info.additional_validation_data.len() as int;
            let at = 544 + len + pad_len(len as nat);
            &&& data.len() == exclusive_dutch_order_size(o)
            &&& data.subrange(512, 544) == len_word(len as nat)
            &&& data.subrange(at, at + 32) == len_word(o.outputs.len())
        }),
{
    reveal(exclusive_dutch_order_read);
}

/// Two orders with the same canonical encoding, of a size below 2^64, are
/// the same order.
pub proof fn lemma_exclusive_dutch_order_abi_injective(a: ExclusiveDutchOrderView, b: ExclusiveDutchOrderView)
    requires
        exclusive_dutch_order_abi(a) == exclusive_dutch_order_abi(b),
        exclusive_dutch_order_abi(a).len() < 0x1_0000_0000_0000_0000,
    ensures
        a == b,
{
    lemma_exclusive_dutch_order_layout(a);
    lemma_exclusive_dutch_order_layout(b);
    lemma_exclusive_dutch_order_read_unique(a, b, exclusive_dutch_order_abi(a));
}

/// The canonical encoding of an order has the size of the order.
pub proof fn lemma_exclusive_dutch_order_abi_len(o: ExclusiveDutchOrderView)
    ensures
        exclusive_dutch_order_abi(o).len() == exclusive_dutch_order_size(o),
{
    lemma_exclusive_dutch_order_layout(o);
    lemma_exclusive_dutch_order_read_header(o, exclusive_dutch_order_abi(o));
}

/// Decoding the canonical encoding of an order gives the order back.
pub proof fn lemma_exclusive_dutch_order_round_trip(o: ExclusiveDutchOrderView)
    requires
        exclusive_dutch_order_size(o) < 0x1_0000_0000_0000_0000,
    ensures
        exclusive_dutch_order_decoding(exclusive_dutch_order_abi(o)) == Some(o),
{
    lemma_exclusive_dutch_order_abi_len(o);
    let found = choose|f: ExclusiveDutchOrderView| exclusive_dutch_order_abi(f) == exclusive_dutch_order_abi(o);
    lemma_exclusive_dutch_order_abi_injective(found, o);
}

/// Bytes are no canonical encoding of an exclusive Dutch order when they are too
/// few to hold one, when one of its two length words holds a number that no
/// `usize` can hold, or when the lengths they hold, `len` for the validation
/// data and `count` for the outputs, do not give the number of bytes.
pub proof fn lemma_exclusive_dutch_order_not_canonical(data: Seq<u8>, len: nat, count: nat)
    requires
        data.len() <= usize::MAX,
        ({
            let at = (544 + len + pad_len(len)) as int;
            ||| data.len() < 576
            ||| be_value(data.subrange(512, 544)) > usize::MAX
            ||| (be_value(data.subrange(512, 544)) == len && data.len() < 576 + len + pad_len(len))
            ||| (be_value(data.subrange(512, 544)) == len && at + 32 <= data.len() && be_value(
                data.subrange(at, at + 32),
            ) > usize::MAX)
            ||| (be_value(data.subrange(512, 544)) == len && at + 32 <= data.len() && be_value(
                data.subrange(at, at + 32),
            ) == count && data.len() != at + 32 + 128 * count)
        }),
    ensures
        forall|o: ExclusiveDutchOrderView| exclusive_dutch_order_abi(o) != data,
{
    assert forall|o: ExclusiveDutchOrderView| exclusive_dutch_order_abi(o) != data by {
        if exclusive_dutch_order_abi(o) == data {
            lemma_exclusive_dutch_order_layout(o);
            lemma_exclusive_dutch_order_read_header(o, data);
            lemma_len_word(o.info.additional_validation_data.len());
            lemma_len_word(o.outputs.len());
        }
    }
}

/// The type text of an exclusive Dutch order: its own members, then the struct types
/// it refers to, by name.
pub open spec fn exclusive_dutch_order_type() -> Seq<u8> {
    "ExclusiveDutchOrder(OrderInfo info,uint256 decayStartTime,uint256 decayEndTime,address exclusiveFiller,uint256 exclusivityOverrideBps,DutchInput input,DutchOutput[] outputs)DutchInput(address token,uint256 startAmount,uint256 endAmount)DutchOutput(address token,uint256 startAmount,uint256 endAmount,address recipient)OrderInfo(address reactor,address swapper,uint256 nonce,uint256 deadline,address additionalValidationContract,bytes additionalValidationData)".spec_bytes()
}

/// The words that the fields of an exclusive Dutch order contribute to its hash: a
/// struct contributes its hash, an array the digest of its elements' hashes.
pub open spec fn exclusive_dutch_order_fields(o: ExclusiveDutchOrderView) -> Seq<u8> {
    order_info_hash(o.info) + o.decay_start_time@ + o.decay_end_time@ + address_word(
        o.exclusive_filler,
    ) + o.exclusivity_override_bps@ + dutch_input_hash(o.input) + keccak256_digest(
        dutch_output_hashes(o.outputs),
    )
}

/// The structured hash of an exclusive Dutch order.
pub open spec fn exclusive_dutch_order_hash(o: ExclusiveDutchOrderView) -> Seq<u8> {
    hash_struct(exclusive_dutch_order_type(), exclusive_dutch_order_fields(o))
}

impl ExclusiveDutchOrder {
    /// The number of bytes in the canonical encoding, if a `usize` can hold
    /// it.
    pub fn encoded_size(&self) -> (res: Option<usize>)
        ensures
            match res {
                Some(n) => n == exclusive_dutch_order_size(self@),
                None => exclusive_dutch_order_size(self@) > usize::MAX,
            },
    {
        let len: usize = self.info.additional_validation_data.len();
        let pad: usize = (32 - len % 32) % 32;
        let count: usize = self.outputs.len();
        if count > (usize::MAX - 576) / 128 {
            return None;
        }
        let fixed: usize = 576 + 128 * count;
        if pad > usize::MAX - fixed || len > usize::MAX - fixed - pad {
            return None;
        }
        Some(fixed + pad + len)
    }

    /// The canonical encoding of the order.
    pub fn encode(&self) -> (out: Vec<u8>)
        requires
            exclusive_dutch_order_size(self@) <= usize::MAX,
        ensures
            out@ == exclusive_dutch_order_abi(self@),
            out@.len() == exclusive_dutch_order_size(self@),
    {
        let info_len: usize = order_info_len(&self.info);
        let mut out: Vec<u8> = Vec::new();
        push_len(&mut out, 32);
        push_len(&mut out, 288);
        push_uint(&mut out, &self.decay_start_time);
        push_uint(&mut out, &self.decay_end_time);
        push_address(&mut out, &self.exclusive_filler);
        push_uint(&mut out, &self.exclusivity_override_bps);
        push_dutch_input(&mut out, &self.input);
        push_len(&mut out, 288 + info_len);
        push_order_info(&mut out, &self.info);
        push_len(&mut out, self.outputs.len());
        push_dutch_outputs(&mut out, &self.outputs);
        proof {
            reveal(order_frame);
            assert(exclusive_dutch_order_statics(self@).len() == 224);
            assert(out@ =~= exclusive_dutch_order_abi(self@));
            lemma_exclusive_dutch_order_abi_len(self@);
        }
        out
    }

    /// Reads the fields of an order from the places where a canonical
    /// encoding holds them, without looking at offsets and padding.
    fn parse(data: &[u8]) -> (res: Option<ExclusiveDutchOrder>)
        ensures
            match res {
                Some(x) => exclusive_dutch_order_read(x@, data@),
                None => forall|o: ExclusiveDutchOrderView| exclusive_dutch_order_abi(o) != data@,
            },
    {
        let n: usize = data.len();
        if n < 576 {
            proof {
                lemma_exclusive_dutch_order_not_canonical(data@, 0, 0);
            }
            return None;
        }
        let len: usize = match read_len(data, 512) {
            Some(len) => len,
            None => {
                proof {
                    lemma_exclusive_dutch_order_not_canonical(data@, 0, 0);
                }
                return None;
            },
        };
        let pad: usize = (32 - len % 32) % 32;
        if len > n - 576 || pad > n - 576 - len {
            proof {
                lemma_exclusive_dutch_order_not_canonical(data@, len as nat, 0);
            }
            return None;
        }
        let at: usize = 544 + len + pad;
        let count: usize = match read_len(data, at) {
            Some(count) => count,
            None => {
                proof {
                    lemma_exclusive_dutch_order_not_canonical(data@, len as nat, 0);
                }
                return None;
            },
        };
        let rest: usize = n - 32 - at;
        if rest % 128 != 0 || count != rest / 128 {
            proof {
                lemma_exclusive_dutch_order_not_canonical(data@, len as nat, count as nat);
            }
            return None;
        }
        let x = ExclusiveDutchOrder {
            info: read_order_info(data, 320, len),
            decay_start_time: read_uint(data, 64),
            decay_end_time: read_uint(data, 96),
            exclusive_filler: read_address(data, 128),
            exclusivity_override_bps: read_uint(data, 160),
            input: read_dutch_input(data, 192),
            outputs: read_dutch_outputs(data, at + 32, count),
        };
        proof {
            lemma_be_bytes_of_value(data@.subrange(512, 544));
            lemma_be_bytes_of_value(data@.subrange(at as int, at + 32));
            assert(exclusive_dutch_order_read(x@, data@)) by {
                reveal(exclusive_dutch_order_read);
            }
        }
        Some(x)
    }

    /// Reads an order from its canonical encoding. Bytes that are not the
    /// canonical encoding of any order of this type are refused.
    pub fn decode(data: &[u8]) -> (res: Result<ExclusiveDutchOrder, EncodingError>)
        ensures
            match res {
                Ok(x) => exclusive_dutch_order_decoding(data@) == Some(x@) && exclusive_dutch_order_abi(x@) == data@,
                Err(e) => exclusive_dutch_order_decoding(data@) is None && e == EncodingError::Malformed,
            },
    {
        let size: usize = data.len();
        match ExclusiveDutchOrder::parse(data) {
            None => Err(EncodingError::Malformed),
            Some(x) => {
                proof {
                    lemma_exclusive_dutch_order_read_header(x@, data@);
                    assert(exclusive_dutch_order_size(x@) == size);
                }
                let again = x.encode();
                if bytes_eq(again.as_slice(), data) {
                    proof {
                        let found = choose|o: ExclusiveDutchOrderView| exclusive_dutch_order_abi(o) == data@;
                        lemma_exclusive_dutch_order_abi_injective(found, x@);
                    }
                    Ok(x)
                } else {
                    proof {
                        assert forall|o: ExclusiveDutchOrderView| exclusive_dutch_order_abi(o) != data@ by {
                            if exclusive_dutch_order_abi(o) == data@ {
                                lemma_exclusive_dutch_order_layout(o);
                                lemma_exclusive_dutch_order_read_unique(o, x@, data@);
                            }
                        }
                    }
                    Err(EncodingError::Malformed)
                }
            },
        }
    }

    /// Reads an order from the hexadecimal text of its canonical encoding.
    pub fn try_from(hex_encoded: String) -> (res: Result<ExclusiveDutchOrder, EncodingError>)
        ensures
            match res {
                Ok(x) => exclusive_dutch_order_from_hex(hex_encoded@) == Ok::<ExclusiveDutchOrderView, EncodingError>(x@),
                Err(e) => exclusive_dutch_order_from_hex(hex_encoded@) == Err::<ExclusiveDutchOrderView, EncodingError>(e),
            },
    {
        match crate::hex::decode(hex_encoded.as_str().as_bytes()) {
            None => Err(EncodingError::InvalidHex),
            Some(bytes) => ExclusiveDutchOrder::decode(bytes.as_slice()),
        }
    }

    /// The hash of the order's type text.
    pub fn eip712_type_hash(&self) -> (hash: B256)
        ensures
            hash@ == keccak256_digest(exclusive_dutch_order_type()),
    {
        type_hash_of(
            "ExclusiveDutchOrder(OrderInfo info,uint256 decayStartTime,uint256 decayEndTime,address exclusiveFiller,uint256 exclusivityOverrideBps,DutchInput input,DutchOutput[] outputs)DutchInput(address token,uint256 startAmount,uint256 endAmount)DutchOutput(address token,uint256 startAmount,uint256 endAmount,address recipient)OrderInfo(address reactor,address swapper,uint256 nonce,uint256 deadline,address additionalValidationContract,bytes additionalValidationData)",
        )
    }

    /// The structured hash of the order.
    pub fn eip712_hash_struct(&self) -> (hash: B256)
        ensures
            hash@ == exclusive_dutch_order_hash(self@),
    {
        let mut fields: Vec<u8> = Vec::new();
        let info_hash = self.info.eip712_hash_struct();
        push_slice(&mut fields, info_hash.bytes.as_slice());
        push_uint(&mut fields, &self.decay_start_time);
        push_uint(&mut fields, &self.decay_end_time);
        push_address(&mut fields, &self.exclusive_filler);
        push_uint(&mut fields, &self.exclusivity_override_bps);
        let input_hash = self.input.eip712_hash_struct();
        push_slice(&mut fields, input_hash.bytes.as_slice());
        let outputs_hash = hash_dutch_outputs(&self.outputs);
        push_slice(&mut fields, outputs_hash.bytes.as_slice());
        assert(fields@ =~= exclusive_dutch_order_fields(self@));
        hash_struct_of(
            "ExclusiveDutchOrder(OrderInfo info,uint256 decayStartTime,uint256 decayEndTime,address exclusiveFiller,uint256 exclusivityOverrideBps,DutchInput input,DutchOutput[] outputs)DutchInput(address token,uint256 startAmount,uint256 endAmount)DutchOutput(address token,uint256 startAmount,uint256 endAmount,address recipient)OrderInfo(address reactor,address swapper,uint256 nonce,uint256 deadline,address additionalValidationContract,bytes additionalValidationData)",
            &fields,
        )
    }
}

/// The order that hexadecimal text spells: the text is read as bytes, and
/// the bytes as the canonical encoding of an order.
pub open spec fn exclusive_dutch_order_from_hex(text: Seq<char>) -> Result<ExclusiveDutchOrderView, EncodingError> {
    match hex_decode_spec(encode_utf8(text)) {
        None => Err(EncodingError::InvalidHex),
        Some(bytes) => match exclusive_dutch_order_decoding(bytes) {
            Some(o) => Ok(o),
            None => Err(EncodingError::Malformed),
        },
    }
}

} // verus!

