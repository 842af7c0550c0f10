//! Limit orders: static input and output amounts.

use vstd::prelude::*;
use vstd::string::StringSliceAdditionalSpecFns;
use vstd::utf8::encode_utf8;
use crate::abi::{
    lemma_be_bytes_of_value, lemma_len_word, len_word, pad_len, push_len, push_slice, read_len,
};
use crate::contracts::common::{
    input_token_words, lemma_order_frame_info, lemma_order_frame_layout, lemma_order_info_ext,
    lemma_output_token_ext, lemma_output_tokens_layout, order_frame, order_info_len,
    order_info_size, output_tokens_words, push_input_token, push_order_info, push_output_tokens,
    read_input_token, read_order_info, read_output_tokens, EncodingError, InputToken, OrderInfo,
    OrderInfoView, OutputToken,
};
use crate::eip712::{
    hash_output_tokens, hash_struct, hash_struct_of, input_token_hash, order_info_hash,
    output_token_hashes, type_hash_of,
};
use crate::hex::hex_decode_spec;
use crate::primitives::{be_value, bytes_eq, keccak256_digest, B256};

verus! {

broadcast use vstd::array::group_array_axioms;

/// An order that names exact amounts.
#[derive(Debug, PartialEq, Eq)]
pub struct LimitOrder {
    pub info: OrderInfo,
    /// The tokens that the swapper provides.
    pub input: InputToken,
    /// The tokens that must be received.
    pub outputs: Vec<OutputToken>,
}

/// The mathematical value of a limit order.
pub struct LimitOrderView {
    pub info: OrderInfoView,
    pub input: InputToken,
    pub outputs: Seq<OutputToken>,
}

impl View for LimitOrder {
    type V = LimitOrderView;

    open spec fn view(&self) -> LimitOrderView {
        LimitOrderView {
            info: self.info@,
            input: self.input,
            outputs: self.outputs@,
        }
    }
}

impl Clone for LimitOrder {
    fn clone(&self) -> (res: Self)
        ensures
            res@ == self@,
    {
        LimitOrder {
            info: self.info.clone(),
            input: self.input,
            outputs: self.outputs.clone(),
        }
    }
}

/// The static fields of a limit order between the order information and
/// the outputs.
pub open spec fn limit_order_statics(o: LimitOrderView) -> Seq<u8> {
    input_token_words(o.input)
}

/// The canonical encoding of a limit order.
pub open spec fn limit_order_abi(o: LimitOrderView) -> Seq<u8> {
    order_frame(limit_order_statics(o), o.info, o.outputs.len(), output_tokens_words(o.outputs))
}

/// The number of bytes in the canonical encoding of a limit order.
pub open spec fn limit_order_size(o: LimitOrderView) -> nat {
    224 + order_info_size(o.info) + 96 * o.outputs.len()
}

/// The order that `data` is the canonical encoding of, if it is one.
pub open spec fn limit_order_decoding(data: Seq<u8>) -> Option<LimitOrderView> {
    if exists|o: LimitOrderView| limit_order_abi(o) == data {
        Some(choose|o: LimitOrderView| limit_order_abi(o) == data)
    } else {
        None
    }
}

/// What it means that the fields of `o` stand in `data` where the canonical
/// encoding of a limit order holds them.
#[verifier::opaque]
pub open spec fn limit_order_read(o: LimitOrderView, data: Seq<u8>) -> bool {
    let len = o.info.additional_validation_data.len() as int;
    let at = 416 + len + pad_len(len as nat);
    &&& data.len() == limit_order_size(o)
    &&& data.subrange(76, 96) == o.input.token@
    &&& data.subrange(96, 128) == o.input.amount@
    &&& data.subrange(128, 160) == o.input.max_amount@
    &&& data.subrange(204, 224) == o.info.reactor@
    &&& data.subrange(236, 256) == o.info.swapper@
    &&& data.subrange(256, 288) == o.info.nonce@
    &&& data.subrange(288, 320) == o.info.deadline@
    &&& data.subrange(332, 352) == o.info.additional_validation_contract@
    &&& data.subrange(384, 416) == len_word(len as nat)
    &&& data.subrange(416, 416 + len) == o.info.additional_validation_data
    &&& data.subrange(at, at + 32) == len_word(o.outputs.len())
    &&& forall|j: int|
        0 <= j < o.outputs.len() ==> {
            &&& (#[trigger] o.outputs[j]).token@ == data.subrange(
                at + 32 + 96 * j + 12,
                at + 32 + 96 * j + 32,
            )
            &&& o.outputs[j].amount@ == data.subrange(
                at + 32 + 96 * j + 32,
                at + 32 + 96 * j + 64,
            )
            &&& o.outputs[j].recipient@ == data.subrange(
                at + 32 + 96 * j + 76,
                at + 32 + 96 * j + 96,
            )
        }
}

/// The canonical encoding of a limit order holds each field at its place.
pub proof fn lemma_limit_order_layout(o: LimitOrderView)
    ensures
        limit_order_read(o, limit_order_abi(o)),
{
    reveal(limit_order_read);
    let d = limit_order_abi(o);
    let statics = limit_order_statics(o);
    let elems = output_tokens_words(o.outputs);
    let len = o.info.additional_validation_data.len() as int;
    let at = 416 + len + pad_len(len as nat);
    lemma_order_frame_layout(statics, o.info, o.outputs.len(), elems);
    lemma_order_frame_info(statics, o.info, o.outputs.len(), elems);
    assert(statics.len() == 96);
    assert(d.subrange(76, 96) =~= statics.subrange(12, 32));
    assert(d.subrange(96, 128) =~= statics.subrange(32, 64));
    assert(d.subrange(128, 160) =~= statics.subrange(64, 96));
    assert(statics.subrange(12, 32) =~= o.input.token@);
    assert(statics.subrange(32, 64) =~= o.input.amount@);
    assert(statics.subrange(64, 96) =~= o.input.max_amount@);
    assert forall|j: int| 0 <= j < o.outputs.len() implies {
        &&& (#[trigger] o.outputs[j]).token@ == d.subrange(
            at + 32 + 96 * j + 12,
            at + 32 + 96 * j + 32,
        )
        &&& o.outputs[j].amount@ == d.subrange(
            at + 32 + 96 * j + 32,
            at + 32 + 96 * j + 64,
        )
        &&& o.outputs[j].recipient@ == d.subrange(
            at + 32 + 96 * j + 76,
            at + 32 + 96 * j + 96,
        )
    } by {
        lemma_output_tokens_layout(o.outputs, j);
        let base = at + 32 + 96 * j;
        assert(d.subrange(base + 12, base + 32) =~= elems.subrange(
            96 * j + 12,
            96 * j + 32,
        ));
        assert(d.subrange(base + 32, base + 64) =~= elems.subrange(
            96 * j + 32,
            96 * j + 64,
        ));
        assert(d.subrange(base + 76, base + 96) =~= elems.subrange(
            96 * j + 76,
            96 * j + 96,
        ));
    }
}

/// At most one order of a size below 2^64 has its fields at their places in
/// `data`.
pub proof fn lemma_limit_order_read_unique(a: LimitOrderView, b: LimitOrderView, data: Seq<u8>)
    requires
        limit_order_read(a, data),
        limit_order_read(b, data),
        data.len() < 0x1_0000_0000_0000_0000,
    ensures
        a == b,
{
    reveal(limit_order_read);
    lemma_len_word(a.info.additional_validation_data.len());
    lemma_len_word(b.info.additional_validation_data.len());
    assert(a.info.additional_validation_data.len() == b.info.additional_validation_data.len());
    lemma_len_word(a.outputs.len());
    lemma_len_word(b.outputs.len());
    assert(a.outputs.len() == b.outputs.len());
    lemma_order_info_ext(a.info, b.info);
    assert(a.input.token.bytes == b.input.token.bytes);
    assert(a.input.amount.bytes == b.input.amount.bytes);
    assert(a.input.max_amount.bytes == b.input.max_amount.bytes);
    assert forall|j: int| 0 <= j < a.outputs.len() implies a.outputs[j] == b.outputs[j] by {
        lemma_output_token_ext(a.outputs[j], b.outputs[j]);
    }
    assert(a.outputs =~= b.outputs);
}

/// The size of an order whose fields stand in `data`, and the two length
/// words among them.
pub proof fn lemma_limit_order_read_header(o: LimitOrderView, data: Seq<u8>)
    requires
        limit_order_read(o, data),
    ensures
        ({
            let len = o.info.additional_validation_data.len() as int;
            let at = 416 + len + pad_len(len as nat);
            &&& data.len() == limit_order_size(o)
            &&& data.subrange(384, 416) == len_word(len as nat)
            &&& data.subrange(at, at + 32) == len_word(o.outputs.len())
        }),
{
    reveal(limit_order_read);
}

/// Two orders with the same canonical encoding, of a size below 2^64, are
/// the same order.
pub proof fn lemma_limit_order_abi_injective(a: LimitOrderView, b: LimitOrderView)
    requires
        limit_order_abi(a) == limit_order_abi(b),
        limit_order_abi(a).len() < 0x1_0000_0000_0000_0000,
    ensures
        a == b,
{
    lemma_limit_order_layout(a);
    lemma_limit_order_layout(b);
    lemma_limit_order_read_unique(a, b, limit_order_abi(a));
}

/// The canonical encoding of an order has the size of the order.
pub proof fn lemma_limit_order_abi_len(o: LimitOrderView)
    ensures
        limit_order_abi(o).len() == limit_order_size(o),
{
    lemma_limit_order_layout(o);
    lemma_limit_order_read_header(o, limit_order_abi(o));
}

/// Decoding the canonical encoding of an order gives the order back.
pub proof fn lemma_limit_order_round_trip(o: LimitOrderView)
    requires
        limit_order_size(o) < 0x1_0000_0000_0000_0000,
    ensures
        limit_order_decoding(limit_order_abi(o)) == Some(o),
{
    lemma_limit_order_abi_len(o);
    let found = choose|f: LimitOrderView| limit_order_abi(f) == limit_order_abi(o);
    lemma_limit_order_abi_injective(found, o);
}

/// Bytes are no canonical encoding of a limit order when they are too
/// few to hold one, when one of its two length words holds a number that no
/// `usize` can hold, or when the lengths they hold, `len` for the validation
/// data and `count` for the outputs, do not give the number of bytes.
pub proof fn lemma_limit_order_not_canonical(data: Seq<u8>, len: nat, count: nat)
    requires
        data.len() <= usize::MAX,
        ({
            let at = (416 + len + pad_len(len)) as int;
            ||| data.len() < 448
            ||| be_value(data.subrange(384, 416)) > usize::MAX
            ||| (be_value(data.subrange(384, 416)) == len && data.len() < 448 + len + pad_len(len))
            ||| (be_value(data.subrange(384, 416)) == len && at + 32 <= data.len() && be_value(
                data.subrange(at, at + 32),
            ) > usize::MAX)
            ||| (be_value(data.subrange(384, 416)) == len && at + 32 <= data.len() && be_value(
                data.subrange(at, at + 32),
            ) == count && data.len() != at + 32 + 96 * count)
        }),
    ensures
        forall|o: LimitOrderView| limit_order_abi(o) != data,
{
    assert forall|o: LimitOrderView| limit_order_abi(o) != data by {
        if limit_order_abi(o) == data {
            lemma_limit_order_layout(o);
            lemma_limit_order_read_header(o, data);
            lemma_len_word(o.info.additional_validation_data.len());
            lemma_len_word(o.outputs.len());
        }
    }
}

/// The type text of a limit order: its own members, then the struct types
/// it refers to, by name.
pub open spec fn limit_order_type() -> Seq<u8> {
    "LimitOrder(OrderInfo info,InputToken input,OutputToken[] outputs)InputToken(address token,uint256 amount,uint256 maxAmount)OrderInfo(address reactor,address swapper,uint256 nonce,uint256 deadline,address additionalValidationContract,bytes additionalValidationData)OutputToken(address token,uint256 amount,address recipient)".spec_bytes()
}

/// The words that the fields of a limit order contribute to its hash: a
/// struct contributes its hash, an array the digest of its elements' hashes.
pub open spec fn limit_order_fields(o: LimitOrderView) -> Seq<u8> {
    order_info_hash(o.info) + input_token_hash(o.input) + keccak256_digest(
        output_token_hashes(o.outputs),
    )
}

/// The structured hash of a limit order.
pub open spec fn limit_order_hash(o: LimitOrderView) -> Seq<u8> {
    hash_struct(limit_order_type(), limit_order_fields(o))
}

impl LimitOrder {
    /// The number of bytes in the canonical encoding, if a `usize` can hold
    /// it.
    pub fn encoded_size(&self) -> (res: Option<usize>)
        ensures
            match res {
                Some(n) => n == limit_order_size(self@),
                None => limit_order_size(self@) > usize::MAX,
            },
    {
        let len: usize = self.info.additional_validation_data.len();
        let pad: usize = (32 - len % 32) % 32;
        let count: usize = self.outputs.len();
        if count > (usize::MAX - 448) / 96 {
            return None;
        }
        let fixed: usize = 448 + 96 * count;
        if pad > usize::MAX - fixed || len > usize::MAX - fixed - pad {
            return None;
        }
        Some(fixed + pad + len)
    }

    /// The canonical encoding of the order.
    pub fn encode(&self) -> (out: Vec<u8>)
        requires
            limit_order_size(self@) <= usize::MAX,
        ensures
            out@ == limit_order_abi(self@),
            out@.len() == limit_order_size(self@),
    {
        let info_len: usize = order_info_len(&self.info);
        let mut out: Vec<u8> = Vec::new();
        push_len(&mut out, 32);
        push_len(&mut out, 160);
        push_input_token(&mut out, &self.input);
        push_len(&mut out, 160 + info_len);
        push_order_info(&mut out, &self.info);
        push_len(&mut out, self.outputs.len());
        push_output_tokens(&mut out, &self.outputs);
        proof {
            reveal(order_frame);
            assert(limit_order_statics(self@).len() == 96);
            assert(out@ =~= limit_order_abi(self@));
            lemma_limit_order_abi_len(self@);
        }
        out
    }

    /// Reads the fields of an order from the places where a canonical
    /// encoding holds them, without looking at offsets and padding.
    fn parse(data: &[u8]) -> (res: Option<LimitOrder>)
        ensures
            match res {
                Some(x) => limit_order_read(x@, data@),
                None => forall|o: LimitOrderView| limit_order_abi(o) != data@,
            },
    {
        let n: usize = data.len();
        if n < 448 {
            proof {
                lemma_limit_order_not_canonical(data@, 0, 0);
            }
            return None;
        }
        let len: usize = match read_len(data, 384) {
            Some(len) => len,
            None => {
                proof {
                    lemma_limit_order_not_canonical(data@, 0, 0);
                }
                return None;
            },
        };
        let pad: usize = (32 - len % 32) % 32;
        if len > n - 448 || pad > n - 448 - len {
            proof {
                lemma_limit_order_not_canonical(data@, len as nat, 0);
            }
            return None;
        }
        let at: usize = 416 + len + pad;
        let count: usize = match read_len(data, at) {
            Some(count) => count,
            None => {
                proof {
                    lemma_limit_order_not_canonical(data@, len as nat, 0);
                }
                return None;
            },
        };
        let rest: usize = n - 32 - at;
        if rest % 96 != 0 || count != rest / 96 {
            proof {
                lemma_limit_order_not_canonical(data@, len as nat, count as nat);
            }
            return None;
        }
        let x = LimitOrder {
            info: read_order_info(data, 192, len),
            input: read_input_token(data, 64),
            outputs: read_output_tokens(data, at + 32, count),
        };
        proof {
            lemma_be_bytes_of_value(data@.subrange(384, 416));
            lemma_be_bytes_of_value(data@.subrange(at as int, at + 32));
            assert(limit_order_read(x@, data@)) by {
                reveal(limit_order_read);
            }
        }
        Some(x)
    }

    /// Reads an order from its canonical encoding. Bytes that are not the
    /// canonical encoding of any order of this type are refused.
    pub fn decode(data: &[u8]) -> (res: Result<LimitOrder, EncodingError>)
        ensures
            match res {
                Ok(x) => limit_order_decoding(data@) == Some(x@) && limit_order_abi(x@) == data@,
                Err(e) => limit_order_decoding(data@) is None && e == EncodingError::Malformed,
            },
    {
        let size: usize = data.len();
        match LimitOrder::parse(data) {
            None => Err(EncodingError::Malformed),
            Some(x) => {
                proof {
                    lemma_limit_order_read_header(x@, data@);
                    assert(limit_order_size(x@) == size);
                }
                let again = x.encode();
                if bytes_eq(again.as_slice(), data) {
                    proof {
                        let found = choose|o: LimitOrderView| limit_order_abi(o) == data@;
                        lemma_limit_order_abi_injective(found, x@);
                    }
                    Ok(x)
                } else {
                    proof {
                        assert forall|o: LimitOrderView| limit_order_abi(o) != data@ by {
                            if limit_order_abi(o) == data@ {
                                lemma_limit_order_layout(o);
                                lemma_limit_order_read_unique(o, x@, data@);
                            }
                        }
                    }
                    Err(EncodingError::Malformed)
                }
            },
        }
    }

    /// Reads an order from the hexadecimal text of its canonical encoding.
    pub fn try_from(hex_encoded: String) -> (res: Result<LimitOrder, EncodingError>)
        ensures
            match res {
                Ok(x) => limit_order_from_hex(hex_encoded@) == Ok::<LimitOrderView, EncodingError>(x@),
                Err(e) => limit_order_from_hex(hex_encoded@) == Err::<LimitOrderView, EncodingError>(e),
            },
    {
        match crate::hex::decode(hex_encoded.as_str().as_bytes()) {
            None => Err(EncodingError::InvalidHex),
            Some(bytes) => LimitOrder::decode(bytes.as_slice()),
        }
    }

    /// The hash of the order's type text.
    pub fn eip712_type_hash(&self) -> (hash: B256)
        ensures
            hash@ == keccak256_digest(limit_order_type()),
    {
        type_hash_of(
            "LimitOrder(OrderInfo info,InputToken input,OutputToken[] outputs)InputToken(address token,uint256 amount,uint256 maxAmount)OrderInfo(address reactor,address swapper,uint256 nonce,uint256 deadline,address additionalValidationContract,bytes additionalValidationData)OutputToken(address token,uint256 amount,address recipient)",
        )
    }

    /// The structured hash of the order.
    pub fn eip712_hash_struct(&self) -> (hash: B256)
        ensures
            hash@ == limit_order_hash(self@),
    {
        let mut fields: Vec<u8> = Vec::new();
        let info_hash = self.info.eip712_hash_struct();
        push_slice(&mut fields, info_hash.bytes.as_slice());
        let input_hash = self.input.eip712_hash_struct();
        push_slice(&mut fields, input_hash.bytes.as_slice());
        let outputs_hash = hash_output_tokens(&self.outputs);
        push_slice(&mut fields, outputs_hash.bytes.as_slice());
        assert(fields@ =~= limit_order_fields(self@));
        hash_struct_of(
            "LimitOrder(OrderInfo info,InputToken input,OutputToken[] outputs)InputToken(address token,uint256 amount,uint256 maxAmount)OrderInfo(address reactor,address swapper,uint256 nonce,uint256 deadline,address additionalValidationContract,bytes additionalValidationData)OutputToken(address token,uint256 amount,address recipient)",
            &fields,
        )
    }
}

/// The order that hexadecimal text spells: the text is read as bytes, and
/// the bytes as the canonical encoding of an order.
pub open spec fn limit_order_from_hex(text: Seq<char>) -> Result<LimitOrderView, EncodingError> {
    match hex_decode_spec(encode_utf8(text)) {
        None => Err(EncodingError::InvalidHex),
        Some(bytes) => match limit_order_decoding(bytes) {
            Some(o) => Ok(o),
            None => Err(EncodingError::Malformed),
        },
    }
}

} // verus!

