//! Structured hashing of orders: the hash of a struct is the Keccak-256
//! digest of its type hash followed by one word for each field.

use vstd::prelude::*;
use vstd::string::StringSliceAdditionalSpecFns;
use crate::abi::{address_word, push_address, push_slice, push_uint};
use crate::contracts::common::{
    input_token_words, output_token_words, InputToken, OrderInfo, OrderInfoView, OutputToken,
};
use crate::primitives::{keccak256, keccak256_digest, B256};

verus! {

broadcast use vstd::array::group_array_axioms;

/// The hash of a struct: the digest of the digest of its type text followed
/// by the words of its fields.
pub open spec fn hash_struct(type_text: Seq<u8>, fields: Seq<u8>) -> Seq<u8> {
    keccak256_digest(keccak256_digest(type_text) + fields)
}

/// Hashes the type text of a struct.
pub fn type_hash_of(type_text: &str) -> (hash: B256)
    ensures
        hash@ == keccak256_digest(type_text.spec_bytes()),
{
    keccak256(type_text.as_bytes())
}

/// Hashes a struct, given its type text and the words of its fields.
pub fn hash_struct_of(type_text: &str, fields: &Vec<u8>) -> (hash: B256)
    ensures
        hash@ == hash_struct(type_text.spec_bytes(), fields@),
{
    let type_hash = type_hash_of(type_text);
    let mut buf: Vec<u8> = Vec::new();
    push_slice(&mut buf, type_hash.bytes.as_slice());
    push_slice(&mut buf, fields.as_slice());
    assert(buf@ =~= keccak256_digest(type_text.spec_bytes()) + fields@);
    keccak256(buf.as_slice())
}

/// The type text of the order information.
pub open spec fn order_info_type() -> Seq<u8> {
    "OrderInfo(address reactor,address swapper,uint256 nonce,uint256 deadline,address additionalValidationContract,bytes additionalValidationData)".spec_bytes()
}

/// The type text of an input token.
pub open spec fn input_token_type() -> Seq<u8> {
    "InputToken(address token,uint256 amount,uint256 maxAmount)".spec_bytes()
}

/// The type text of an output token.
pub open spec fn output_token_type() -> Seq<u8> {
    "OutputToken(address token,uint256 amount,address recipient)".spec_bytes()
}

/// The words of the fields of the order information: a byte string
/// contributes its digest.
pub open spec fn order_info_fields(i: OrderInfoView) -> Seq<u8> {
    address_word(i.reactor) + address_word(i.swapper) + i.nonce@ + i.deadline@ + address_word(
        i.additional_validation_contract,
    ) + keccak256_digest(i.additional_validation_data)
}

/// The structured hash of the order information.
pub open spec fn order_info_hash(i: OrderInfoView) -> Seq<u8> {
    hash_struct(order_info_type(), order_info_fields(i))
}

/// The structured hash of an input token.
pub open spec fn input_token_hash(t: InputToken) -> Seq<u8> {
    hash_struct(input_token_type(), input_token_words(t))
}

/// The structured hash of an output token.
pub open spec fn output_token_hash(t: OutputToken) -> Seq<u8> {
    hash_struct(output_token_type(), output_token_words(t))
}

/// The structured hashes of a list of output tokens, one after the other.
pub open spec fn output_token_hashes(outputs: Seq<OutputToken>) -> Seq<u8>
    decreases outputs.len(),
{
    if outputs.len() == 0 {
        Seq::empty()
    } else {
        output_token_hashes(outputs.drop_last()) + output_token_hash(outputs.last())
    }
}

impl OrderInfo {
    /// The structured hash of the order information.
    pub fn eip712_hash_struct(&self) -> (hash: B256)
        ensures
            hash@ == order_info_hash(self@),
    {
        let mut fields: Vec<u8> = Vec::new();
        push_address(&mut fields, &self.reactor);
        push_address(&mut fields, &self.swapper);
        push_uint(&mut fields, &self.nonce);
        push_uint(&mut fields, &self.deadline);
        push_address(&mut fields, &self.additional_validation_contract);
        let data_hash = keccak256(self.additional_validation_data.as_slice());
        push_slice(&mut fields, data_hash.bytes.as_slice());
        assert(fields@ =~= order_info_fields(self@));
        hash_struct_of(
            "OrderInfo(address reactor,address swapper,uint256 nonce,uint256 deadline,address additionalValidationContract,bytes additionalValidationData)",
            &fields,
        )
    }
}

impl InputToken {
    /// The structured hash of the input token.
    pub fn eip712_hash_struct(&self) -> (hash: B256)
        ensures
            hash@ == input_token_hash(*self),
    {
        let mut fields: Vec<u8> = Vec::new();
        push_address(&mut fields, &self.token);
        push_uint(&mut fields, &self.amount);
        push_uint(&mut fields, &self.max_amount);
        assert(fields@ =~= input_token_words(*self));
        hash_struct_of("InputToken(address token,uint256 amount,uint256 maxAmount)", &fields)
    }
}

impl OutputToken {
    /// The structured hash of the output token.
    pub fn eip712_hash_struct(&self) -> (hash: B256)
        ensures
            hash@ == output_token_hash(*self),
    {
        let mut fields: Vec<u8> = Vec::new();
        push_address(&mut fields, &self.token);
        push_uint(&mut fields, &self.amount);
        push_address(&mut fields, &self.recipient);
        assert(fields@ =~= output_token_words(*self));
        hash_struct_of("OutputToken(address token,uint256 amount,address recipient)", &fields)
    }
}

/// The digest of the structured hashes of `outputs`, one after the other:
/// the word that an array of output tokens contributes to a hash.
pub fn hash_output_tokens(outputs: &Vec<OutputToken>) -> (hash: B256)
    ensures
        hash@ == keccak256_digest(output_token_hashes(outputs@)),
{
    let mut buf: Vec<u8> = Vec::new();
    let mut i: usize = 0;
    while i < outputs.len()
        invariant
            i <= outputs.len(),
            buf@ == output_token_hashes(outputs@.take(i as int)),
        decreases outputs.len() - i,
    {
        let h = outputs[i].eip712_hash_struct();
        push_slice(&mut buf, h.bytes.as_slice());
        proof {
            assert(outputs@.take(i + 1).drop_last() =~= outputs@.take(i as int));
        }
        i += 1;
    }
    assert(outputs@.take(i as int) =~= outputs@);
    keccak256(buf.as_slice())
}

} // verus!
