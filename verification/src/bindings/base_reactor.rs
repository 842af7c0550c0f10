//! The `BaseReactor` contract: the calls it takes, the errors it reverts
//! with and the events it emits.

use vstd::prelude::*;
use vstd::std_specs::convert::FromSpecImpl;
use vstd::string::StringSliceAdditionalSpecFns;
use vstd::utf8::encode_utf8;
use crate::abi::{
    address_at, address_word, bytes_enc, len_word, push_address, push_bytes, push_len,
    push_slice, push_uint, read_address, read_uint, uint_at,
};
use crate::bindings::i_reactor::{
    execute_batch_params_of, execute_batch_params_size, execute_batch_view, execute_params_of,
    execute_params_size, execute_view, ExecuteBatchCall, ExecuteBatchCallView, ExecuteCall,
    ExecuteCallView,
};
use crate::bindings::shared_types::{
    has_selector, starts_with_selector, AbiError, ContractCall, EventFilter, RawLog,
};
use crate::contracts::common::SignedOrder;
use crate::eip712::type_hash_of;
use crate::primitives::{bytes_eq, keccak256_digest, Address, B256, U256};

verus! {

broadcast use vstd::array::group_array_axioms;

/// The `BaseReactor` contract at an address.
#[derive(Clone, Copy, Debug, PartialEq, Eq)]
pub struct BaseReactor(pub Address);

impl BaseReactor {
    /// The contract at `address`.
    pub fn new(address: Address) -> (contract: BaseReactor)
        ensures
            contract.0 == address,
    {
        BaseReactor(address)
    }

    /// A call of the contract's `DIRECT_FILL` function.
    pub fn direct_fill(&self) -> (call: ContractCall)
        ensures
            call.to == self.0,
            call.data@ == (DirectFillCall).encoding(),
    {
        ContractCall { to: self.0, data: (DirectFillCall).encode() }
    }

    /// A call of the contract's `feeController` function.
    pub fn fee_controller(&self) -> (call: ContractCall)
        ensures
            call.to == self.0,
            call.data@ == (FeeControllerCall).encoding(),
    {
        ContractCall { to: self.0, data: (FeeControllerCall).encode() }
    }

    /// A call of the contract's `owner` function.
    pub fn owner(&self) -> (call: ContractCall)
        ensures
            call.to == self.0,
            call.data@ == (OwnerCall).encoding(),
    {
        ContractCall { to: self.0, data: (OwnerCall).encode() }
    }

    /// A call of the contract's `permit2` function.
    pub fn permit_2(&self) -> (call: ContractCall)
        ensures
            call.to == self.0,
            call.data@ == (Permit2Call).encoding(),
    {
        ContractCall { to: self.0, data: (Permit2Call).encode() }
    }

    /// A call of the contract's `setProtocolFeeController` function.
    pub fn set_protocol_fee_controller(&self, new_fee_controller: Address) -> (call: ContractCall)
        ensures
            call.to == self.0,
            call.data@ == (SetProtocolFeeControllerCall { new_fee_controller }).encoding(),
    {
        ContractCall { to: self.0, data: (SetProtocolFeeControllerCall { new_fee_controller }).encode() }
    }

    /// A call of the contract's `transferOwnership` function.
    pub fn transfer_ownership(&self, new_owner: Address) -> (call: ContractCall)
        ensures
            call.to == self.0,
            call.data@ == (TransferOwnershipCall { new_owner }).encoding(),
    {
        ContractCall { to: self.0, data: (TransferOwnershipCall { new_owner }).encode() }
    }

    /// A call of the contract's `execute` function.
    pub fn execute(&self, order: SignedOrder, fill_contract: Address, fill_data: Vec<u8>) -> (call:
        ContractCall)
        requires
            execute_params_size((ExecuteCall { order, fill_contract, fill_data })@) <= usize::MAX,
        ensures
            call.to == self.0,
            call.data@ == ExecuteCall::encoding((ExecuteCall { order, fill_contract, fill_data })@),
    {
        let input = ExecuteCall { order, fill_contract, fill_data };
        ContractCall { to: self.0, data: input.encode() }
    }

    /// A call of the contract's `executeBatch` function.
    pub fn execute_batch(
        &self,
        orders: Vec<SignedOrder>,
        fill_contract: Address,
        fill_data: Vec<u8>,
    ) -> (call: ContractCall)
        requires
            execute_batch_params_size((ExecuteBatchCall { orders, fill_contract, fill_data })@)
                <= usize::MAX,
        ensures
            call.to == self.0,
            call.data@ == ExecuteBatchCall::encoding(
                (ExecuteBatchCall { orders, fill_contract, fill_data })@,
            ),
    {
        let input = ExecuteBatchCall { orders, fill_contract, fill_data };
        ContractCall { to: self.0, data: input.encode() }
    }

    /// A filter for the `Fill` events, of any contract: its first topic is
    /// the event's signature, and the emitting contract is left open.
    pub fn fill_filter(&self) -> (filter: EventFilter)
        ensures
            filter.address is None,
            filter.topic0 matches Some(topic) && topic@ == FillFilter::signature_hash(),
    {
        EventFilter { address: None, topic0: Some(FillFilter::signature()) }
    }

    /// A filter for the `OwnershipTransferred` events, of any contract: its first topic is
    /// the event's signature, and the emitting contract is left open.
    pub fn ownership_transferred_filter(&self) -> (filter: EventFilter)
        ensures
            filter.address is None,
            filter.topic0 matches Some(topic) && topic@ == OwnershipTransferredFilter::signature_hash(),
    {
        EventFilter { address: None, topic0: Some(OwnershipTransferredFilter::signature()) }
    }

    /// A filter for the `ProtocolFeeControllerSet` events, of any contract: its first topic is
    /// the event's signature, and the emitting contract is left open.
    pub fn protocol_fee_controller_set_filter(&self) -> (filter: EventFilter)
        ensures
            filter.address is None,
            filter.topic0 matches Some(topic) && topic@ == ProtocolFeeControllerSetFilter::signature_hash(),
    {
        EventFilter { address: None, topic0: Some(ProtocolFeeControllerSetFilter::signature()) }
    }

    /// A filter for all events that this contract emits.
    pub fn events(&self) -> (filter: EventFilter)
        ensures
            filter.address == Some(self.0),
            filter.topic0 is None,
    {
        EventFilter { address: Some(self.0), topic0: None }
    }
}

/// The error `DeadlinePassed()`.
#[derive(Clone, Copy, Debug, PartialEq, Eq, Hash)]
pub struct DeadlinePassed;

impl DeadlinePassed {
    /// The selector `0x70f65caa`: the first four bytes of the Keccak-256
    /// digest of `DeadlinePassed()`.
    pub open spec fn selector_bytes() -> Seq<u8> {
        seq![0x70u8, 0xf6u8, 0x5cu8, 0xaau8]
    }

    /// The words of the parameters.
    pub open spec fn params(self) -> Seq<u8> {
        Seq::empty()
    }

    /// The selector, then the words of the parameters.
    pub open spec fn encoding(self) -> Seq<u8> {
        Self::selector_bytes() + self.params()
    }

    /// What `data` is read as: the error, if the data starts with the
    /// selector, whatever follows it.
    pub open spec fn decoding(data: Seq<u8>) -> Result<DeadlinePassed, AbiError> {
        if !has_selector(data, Self::selector_bytes()) {
            Err(AbiError::WrongSelector)
        } else {
            Ok(DeadlinePassed)
        }
    }

    /// The selector.
    pub fn selector() -> (s: [u8; 4])
        ensures
            s@ == Self::selector_bytes(),
    {
        let s: [u8; 4] = [0x70u8, 0xf6u8, 0x5cu8, 0xaau8];
        assert(s@ =~= Self::selector_bytes());
        s
    }

    /// Writes the error: the selector, then the parameters.
    pub fn encode(&self) -> (out: Vec<u8>)
        ensures
            out@ == self.encoding(),
    {
        let s = Self::selector();
        let mut out: Vec<u8> = Vec::new();
        push_slice(&mut out, s.as_slice());
        assert(out@ =~= self.encoding());
        out
    }

    /// Reads the error from `data`.
    pub fn decode(data: &[u8]) -> (res: Result<DeadlinePassed, AbiError>)
        ensures
            res == Self::decoding(data@),
    {
        let s = Self::selector();
        if !starts_with_selector(data, &s) {
            return Err(AbiError::WrongSelector);
        }
        Ok(DeadlinePassed)
    }

    /// Reading what was written gives the error back.
    pub proof fn lemma_round_trip(self)
        ensures
            Self::decoding(self.encoding()) == Ok::<DeadlinePassed, AbiError>(self),
    {
        let d = self.encoding();
        assert(d.subrange(0, 4) =~= Self::selector_bytes());
    }
}

/// The error `DuplicateFeeOutput(address)`.
#[derive(Clone, Copy, Debug, PartialEq, Eq, Hash)]
pub struct DuplicateFeeOutput {
    pub duplicate_token: Address,
}

impl DuplicateFeeOutput {
    /// The selector `0xfff08303`: the first four bytes of the Keccak-256
    /// digest of `DuplicateFeeOutput(address)`.
    pub open spec fn selector_bytes() -> Seq<u8> {
        seq![0xffu8, 0xf0u8, 0x83u8, 0x03u8]
    }

    /// The words of the parameters.
    pub open spec fn params(self) -> Seq<u8> {
        address_word(self.duplicate_token)
    }

    /// The selector, then the words of the parameters.
    pub open spec fn encoding(self) -> Seq<u8> {
        Self::selector_bytes() + self.params()
    }

    /// What `data` is read as: the error, if the data starts with the
    /// selector and holds a word for each parameter, whatever follows them
    /// and whatever stands before an address in its word.
    pub open spec fn decoding(data: Seq<u8>) -> Result<DuplicateFeeOutput, AbiError> {
        if !has_selector(data, Self::selector_bytes()) {
            Err(AbiError::WrongSelector)
        } else if data.len() < 36 {
            Err(AbiError::InvalidData)
        } else {
            Ok(
                DuplicateFeeOutput {
                    duplicate_token: address_at(data, 4),
                },
            )
        }
    }

    /// The selector.
    pub fn selector() -> (s: [u8; 4])
        ensures
            s@ == Self::selector_bytes(),
    {
        let s: [u8; 4] = [0xffu8, 0xf0u8, 0x83u8, 0x03u8];
        assert(s@ =~= Self::selector_bytes());
        s
    }

    /// Writes the error: the selector, then the parameters.
    pub fn encode(&self) -> (out: Vec<u8>)
        ensures
            out@ == self.encoding(),
    {
        let s = Self::selector();
        let mut out: Vec<u8> = Vec::new();
        push_slice(&mut out, s.as_slice());
        push_address(&mut out, &self.duplicate_token);
        assert(out@ =~= self.encoding());
        out
    }

    /// Reads the error from `data`.
    pub fn decode(data: &[u8]) -> (res: Result<DuplicateFeeOutput, AbiError>)
        ensures
            res == Self::decoding(data@),
    {
        let s = Self::selector();
        if !starts_with_selector(data, &s) {
            return Err(AbiError::WrongSelector);
        }
        if data.len() < 36 {
            return Err(AbiError::InvalidData);
        }
        Ok(
            DuplicateFeeOutput {
                duplicate_token: read_address(data, 4),
            },
        )
    }

    /// Reading what was written gives the error back.
    pub proof fn lemma_round_trip(self)
        ensures
            Self::decoding(self.encoding()) == Ok::<DuplicateFeeOutput, AbiError>(self),
    {
        let d = self.encoding();
        assert(d.subrange(0, 4) =~= Self::selector_bytes());
        assert(d.subrange(16, 36) =~= self.duplicate_token@);
        assert(address_at(d, 4).bytes@ == self.duplicate_token.bytes@);
        assert(address_at(d, 4).bytes == self.duplicate_token.bytes);
    }
}

/// The error `FeeTooLarge(address,uint256,address)`.
#[derive(Clone, Copy, Debug, PartialEq, Eq, Hash)]
pub struct FeeTooLarge {
    pub token: Address,
    pub amount: U256,
    pub recipient: Address,
}

impl FeeTooLarge {
    /// The selector `0x82e75656`: the first four bytes of the Keccak-256
    /// digest of `FeeTooLarge(address,uint256,address)`.
    pub open spec fn selector_bytes() -> Seq<u8> {
        seq![0x82u8, 0xe7u8, 0x56u8, 0x56u8]
    }

    /// The words of the parameters.
    pub open spec fn params(self) -> Seq<u8> {
        address_word(self.token) + self.amount@ + address_word(self.recipient)
    }

    /// The selector, then the words of the parameters.
    pub open spec fn encoding(self) -> Seq<u8> {
        Self::selector_bytes() + self.params()
    }

    /// What `data` is read as: the error, if the data starts with the
    /// selector and holds a word for each parameter, whatever follows them
    /// and whatever stands before an address in its word.
    pub open spec fn decoding(data: Seq<u8>) -> Result<FeeTooLarge, AbiError> {
        if !has_selector(data, Self::selector_bytes()) {
            Err(AbiError::WrongSelector)
        } else if data.len() < 100 {
            Err(AbiError::InvalidData)
        } else {
            Ok(
                FeeTooLarge {
                    token: address_at(data, 4),
                    amount: uint_at(data, 36),
                    recipient: address_at(data, 68),
                },
            )
        }
    }

    /// The selector.
    pub fn selector() -> (s: [u8; 4])
        ensures
            s@ == Self::selector_bytes(),
    {
        let s: [u8; 4] = [0x82u8, 0xe7u8, 0x56u8, 0x56u8];
        assert(s@ =~= Self::selector_bytes());
        s
    }

    /// Writes the error: the selector, then the parameters.
    pub fn encode(&self) -> (out: Vec<u8>)
        ensures
            out@ == self.encoding(),
    {
        let s = Self::selector();
        let mut out: Vec<u8> = Vec::new();
        push_slice(&mut out, s.as_slice());
        push_address(&mut out, &self.token);
        push_uint(&mut out, &self.amount);
        push_address(&mut out, &self.recipient);
        assert(out@ =~= self.encoding());
        out
    }

    /// Reads the error from `data`.
    pub fn decode(data: &[u8]) -> (res: Result<FeeTooLarge, AbiError>)
        ensures
            res == Self::decoding(data@),
    {
        let s = Self::selector();
        if !starts_with_selector(data, &s) {
            return Err(AbiError::WrongSelector);
        }
        if data.len() < 100 {
            return Err(AbiError::InvalidData);
        }
        Ok(
            FeeTooLarge {
                token: read_address(data, 4),
                amount: read_uint(data, 36),
                recipient: read_address(data, 68),
            },
        )
    }

    /// Reading what was written gives the error back.
    pub proof fn lemma_round_trip(self)
        ensures
            Self::decoding(self.encoding()) == Ok::<FeeTooLarge, AbiError>(self),
    {
        let d = self.encoding();
        assert(d.subrange(0, 4) =~= Self::selector_bytes());
        assert(d.subrange(16, 36) =~= self.token@);
        assert(address_at(d, 4).bytes@ == self.token.bytes@);
        assert(address_at(d, 4).bytes == self.token.bytes);
        assert(d.subrange(36, 68) =~= self.amount@);
        assert(uint_at(d, 36).bytes@ == self.amount.bytes@);
        assert(uint_at(d, 36).bytes == self.amount.bytes);
        assert(d.subrange(80, 100) =~= self.recipient@);
        assert(address_at(d, 68).bytes@ == self.recipient.bytes@);
        assert(address_at(d, 68).bytes == self.recipient.bytes);
    }
}

/// The error `InsufficientEth()`.
#[derive(Clone, Copy, Debug, PartialEq, Eq, Hash)]
pub struct InsufficientEth;

impl InsufficientEth {
    /// The selector `0xa01a9df6`: the first four bytes of the Keccak-256
    /// digest of `InsufficientEth()`.
    pub open spec fn selector_bytes() -> Seq<u8> {
        seq![0xa0u8, 0x1au8, 0x9du8, 0xf6u8]
    }

    /// The words of the parameters.
    pub open spec fn params(self) -> Seq<u8> {
        Seq::empty()
    }

    /// The selector, then the words of the parameters.
    pub open spec fn encoding(self) -> Seq<u8> {
        Self::selector_bytes() + self.params()
    }

    /// What `data` is read as: the error, if the data starts with the
    /// selector, whatever follows it.
    pub open spec fn decoding(data: Seq<u8>) -> Result<InsufficientEth, AbiError> {
        if !has_selector(data, Self::selector_bytes()) {
            Err(AbiError::WrongSelector)
        } else {
            Ok(InsufficientEth)
        }
    }

    /// The selector.
    pub fn selector() -> (s: [u8; 4])
        ensures
            s@ == Self::selector_bytes(),
    {
        let s: [u8; 4] = [0xa0u8, 0x1au8, 0x9du8, 0xf6u8];
        assert(s@ =~= Self::selector_bytes());
        s
    }

    /// Writes the error: the selector, then the parameters.
    pub fn encode(&self) -> (out: Vec<u8>)
        ensures
            out@ == self.encoding(),
    {
        let s = Self::selector();
        let mut out: Vec<u8> = Vec::new();
        push_slice(&mut out, s.as_slice());
        assert(out@ =~= self.encoding());
        out
    }

    /// Reads the error from `data`.
    pub fn decode(data: &[u8]) -> (res: Result<InsufficientEth, AbiError>)
        ensures
            res == Self::decoding(data@),
    {
        let s = Self::selector();
        if !starts_with_selector(data, &s) {
            return Err(AbiError::WrongSelector);
        }
        Ok(InsufficientEth)
    }

    /// Reading what was written gives the error back.
    pub proof fn lemma_round_trip(self)
        ensures
            Self::decoding(self.encoding()) == Ok::<InsufficientEth, AbiError>(self),
    {
        let d = self.encoding();
        assert(d.subrange(0, 4) =~= Self::selector_bytes());
    }
}

/// The error `InsufficientOutput(uint256,uint256)`.
#[derive(Clone, Copy, Debug, PartialEq, Eq, Hash)]
pub struct InsufficientOutput {
    pub actual_balance: U256,
    pub expected_balance: U256,
}

impl InsufficientOutput {
    /// The selector `0x2c19b8b8`: the first four bytes of the Keccak-256
    /// digest of `InsufficientOutput(uint256,uint256)`.
    pub open spec fn selector_bytes() -> Seq<u8> {
        seq![0x2cu8, 0x19u8, 0xb8u8, 0xb8u8]
    }

    /// The words of the parameters.
    pub open spec fn params(self) -> Seq<u8> {
        self.actual_balance@ + self.expected_balance@
    }

    /// The selector, then the words of the parameters.
    pub open spec fn encoding(self) -> Seq<u8> {
        Self::selector_bytes() + self.params()
    }

    /// What `data` is read as: the error, if the data starts with the
    /// selector and holds a word for each parameter, whatever follows them
    /// and whatever stands before an address in its word.
    pub open spec fn decoding(data: Seq<u8>) -> Result<InsufficientOutput, AbiError> {
        if !has_selector(data, Self::selector_bytes()) {
            Err(AbiError::WrongSelector)
        } else if data.len() < 68 {
            Err(AbiError::InvalidData)
        } else {
            Ok(
                InsufficientOutput {
                    actual_balance: uint_at(data, 4),
                    expected_balance: uint_at(data, 36),
                },
            )
        }
    }

    /// The selector.
    pub fn selector() -> (s: [u8; 4])
        ensures
            s@ == Self::selector_bytes(),
    {
        let s: [u8; 4] = [0x2cu8, 0x19u8, 0xb8u8, 0xb8u8];
        assert(s@ =~= Self::selector_bytes());
        s
    }

    /// Writes the error: the selector, then the parameters.
    pub fn encode(&self) -> (out: Vec<u8>)
        ensures
            out@ == self.encoding(),
    {
        let s = Self::selector();
        let mut out: Vec<u8> = Vec::new();
        push_slice(&mut out, s.as_slice());
        push_uint(&mut out, &self.actual_balance);
        push_uint(&mut out, &self.expected_balance);
        assert(out@ =~= self.encoding());
        out
    }

    /// Reads the error from `data`.
    pub fn decode(data: &[u8]) -> (res: Result<InsufficientOutput, AbiError>)
        ensures
            res == Self::decoding(data@),
    {
        let s = Self::selector();
        if !starts_with_selector(data, &s) {
            return Err(AbiError::WrongSelector);
        }
        if data.len() < 68 {
            return Err(AbiError::InvalidData);
        }
        Ok(
            InsufficientOutput {
                actual_balance: read_uint(data, 4),
                expected_balance: read_uint(data, 36),
            },
        )
    }

    /// Reading what was written gives the error back.
    pub proof fn lemma_round_trip(self)
        ensures
            Self::decoding(self.encoding()) == Ok::<InsufficientOutput, AbiError>(self),
    {
        let d = self.encoding();
        assert(d.subrange(0, 4) =~= Self::selector_bytes());
        assert(d.subrange(4, 36) =~= self.actual_balance@);
        assert(uint_at(d, 4).bytes@ == self.actual_balance.bytes@);
        assert(uint_at(d, 4).bytes == self.actual_balance.bytes);
        assert(d.subrange(36, 68) =~= self.expected_balance@);
        assert(uint_at(d, 36).bytes@ == self.expected_balance.bytes@);
        assert(uint_at(d, 36).bytes == self.expected_balance.bytes);
    }
}

/// The error `InvalidFeeToken(address)`.
#[derive(Clone, Copy, Debug, PartialEq, Eq, Hash)]
pub struct InvalidFeeToken {
    pub fee_token: Address,
}

impl InvalidFeeToken {
    /// The selector `0xeddf07f5`: the first four bytes of the Keccak-256
    /// digest of `InvalidFeeToken(address)`.
    pub open spec fn selector_bytes() -> Seq<u8> {
        seq![0xedu8, 0xdfu8, 0x07u8, 0xf5u8]
    }

    /// The words of the parameters.
    pub open spec fn params(self) -> Seq<u8> {
        address_word(self.fee_token)
    }

    /// The selector, then the words of the parameters.
    pub open spec fn encoding(self) -> Seq<u8> {
        Self::selector_bytes() + self.params()
    }

    /// What `data` is read as: the error, if the data starts with the
    /// selector and holds a word for each parameter, whatever follows them
    /// and whatever stands before an address in its word.
    pub open spec fn decoding(data: Seq<u8>) -> Result<InvalidFeeToken, AbiError> {
        if !has_selector(data, Self::selector_bytes()) {
            Err(AbiError::WrongSelector)
        } else if data.len() < 36 {
            Err(AbiError::InvalidData)
        } else {
            Ok(
                InvalidFeeToken {
                    fee_token: address_at(data, 4),
                },
            )
        }
    }

    /// The selector.
    pub fn selector() -> (s: [u8; 4])
        ensures
            s@ == Self::selector_bytes(),
    {
        let s: [u8; 4] = [0xedu8, 0xdfu8, 0x07u8, 0xf5u8];
        assert(s@ =~= Self::selector_bytes());
        s
    }

    /// Writes the error: the selector, then the parameters.
    pub fn encode(&self) -> (out: Vec<u8>)
        ensures
            out@ == self.encoding(),
    {
        let s = Self::selector();
        let mut out: Vec<u8> = Vec::new();
        push_slice(&mut out, s.as_slice());
        push_address(&mut out, &self.fee_token);
        assert(out@ =~= self.encoding());
        out
    }

    /// Reads the error from `data`.
    pub fn decode(data: &[u8]) -> (res: Result<InvalidFeeToken, AbiError>)
        ensures
            res == Self::decoding(data@),
    {
        let s = Self::selector();
        if !starts_with_selector(data, &s) {
            return Err(AbiError::WrongSelector);
        }
        if data.len() < 36 {
            return Err(AbiError::InvalidData);
        }
        Ok(
            InvalidFeeToken {
                fee_token: read_address(data, 4),
            },
        )
    }

    /// Reading what was written gives the error back.
    pub proof fn lemma_round_trip(self)
        ensures
            Self::decoding(self.encoding()) == Ok::<InvalidFeeToken, AbiError>(self),
    {
        let d = self.encoding();
        assert(d.subrange(0, 4) =~= Self::selector_bytes());
        assert(d.subrange(16, 36) =~= self.fee_token@);
        assert(address_at(d, 4).bytes@ == self.fee_token.bytes@);
        assert(address_at(d, 4).bytes == self.fee_token.bytes);
    }
}

/// The error `InvalidReactor()`.
#[derive(Clone, Copy, Debug, PartialEq, Eq, Hash)]
pub struct InvalidReactor;

impl InvalidReactor {
    /// The selector `0x4ddf4a64`: the first four bytes of the Keccak-256
    /// digest of `InvalidReactor()`.
    pub open spec fn selector_bytes() -> Seq<u8> {
        seq![0x4du8, 0xdfu8, 0x4au8, 0x64u8]
    }

    /// The words of the parameters.
    pub open spec fn params(self) -> Seq<u8> {
        Seq::empty()
    }

    /// The selector, then the words of the parameters.
    pub open spec fn encoding(self) -> Seq<u8> {
        Self::selector_bytes() + self.params()
    }

    /// What `data` is read as: the error, if the data starts with the
    /// selector, whatever follows it.
    pub open spec fn decoding(data: Seq<u8>) -> Result<InvalidReactor, AbiError> {
        if !has_selector(data, Self::selector_bytes()) {
            Err(AbiError::WrongSelector)
        } else {
            Ok(InvalidReactor)
        }
    }

    /// The selector.
    pub fn selector() -> (s: [u8; 4])
        ensures
            s@ == Self::selector_bytes(),
    {
        let s: [u8; 4] = [0x4du8, 0xdfu8, 0x4au8, 0x64u8];
        assert(s@ =~= Self::selector_bytes());
        s
    }

    /// Writes the error: the selector, then the parameters.
    pub fn encode(&self) -> (out: Vec<u8>)
        ensures
            out@ == self.encoding(),
    {
        let s = Self::selector();
        let mut out: Vec<u8> = Vec::new();
        push_slice(&mut out, s.as_slice());
        assert(out@ =~= self.encoding());
        out
    }

    /// Reads the error from `data`.
    pub fn decode(data: &[u8]) -> (res: Result<InvalidReactor, AbiError>)
        ensures
            res == Self::decoding(data@),
    {
        let s = Self::selector();
        if !starts_with_selector(data, &s) {
            return Err(AbiError::WrongSelector);
        }
        Ok(InvalidReactor)
    }

    /// Reading what was written gives the error back.
    pub proof fn lemma_round_trip(self)
        ensures
            Self::decoding(self.encoding()) == Ok::<InvalidReactor, AbiError>(self),
    {
        let d = self.encoding();
        assert(d.subrange(0, 4) =~= Self::selector_bytes());
    }
}

/// The error `NativeTransferFailed()`.
#[derive(Clone, Copy, Debug, PartialEq, Eq, Hash)]
pub struct NativeTransferFailed;

impl NativeTransferFailed {
    /// The selector `0xf4b3b1bc`: the first four bytes of the Keccak-256
    /// digest of `NativeTransferFailed()`.
    pub open spec fn selector_bytes() -> Seq<u8> {
        seq![0xf4u8, 0xb3u8, 0xb1u8, 0xbcu8]
    }

    /// The words of the parameters.
    pub open spec fn params(self) -> Seq<u8> {
        Seq::empty()
    }

    /// The selector, then the words of the parameters.
    pub open spec fn encoding(self) -> Seq<u8> {
        Self::selector_bytes() + self.params()
    }

    /// What `data` is read as: the error, if the data starts with the
    /// selector, whatever follows it.
    pub open spec fn decoding(data: Seq<u8>) -> Result<NativeTransferFailed, AbiError> {
        if !has_selector(data, Self::selector_bytes()) {
            Err(AbiError::WrongSelector)
        } else {
            Ok(NativeTransferFailed)
        }
    }

    /// The selector.
    pub fn selector() -> (s: [u8; 4])
        ensures
            s@ == Self::selector_bytes(),
    {
        let s: [u8; 4] = [0xf4u8, 0xb3u8, 0xb1u8, 0xbcu8];
        assert(s@ =~= Self::selector_bytes());
        s
    }

    /// Writes the error: the selector, then the parameters.
    pub fn encode(&self) -> (out: Vec<u8>)
        ensures
            out@ == self.encoding(),
    {
        let s = Self::selector();
        let mut out: Vec<u8> = Vec::new();
        push_slice(&mut out, s.as_slice());
        assert(out@ =~= self.encoding());
        out
    }

    /// Reads the error from `data`.
    pub fn decode(data: &[u8]) -> (res: Result<NativeTransferFailed, AbiError>)
        ensures
            res == Self::decoding(data@),
    {
        let s = Self::selector();
        if !starts_with_selector(data, &s) {
            return Err(AbiError::WrongSelector);
        }
        Ok(NativeTransferFailed)
    }

    /// Reading what was written gives the error back.
    pub proof fn lemma_round_trip(self)
        ensures
            Self::decoding(self.encoding()) == Ok::<NativeTransferFailed, AbiError>(self),
    {
        let d = self.encoding();
        assert(d.subrange(0, 4) =~= Self::selector_bytes());
    }
}

/// The text that `data` holds, read as `<String as AbiDecode>::decode` of
/// `ethers` reads a string on its own: without a selector, taking the first
/// word as the offset of the string, and giving up on nothing that it can
/// read bytes for.
pub uninterp spec fn abi_string_decoding(data: Seq<u8>) -> Option<Seq<char>>;

/// Calls `<String as AbiDecode>::decode` of `ethers` on `data`. The
/// contract names what comes back: a function of the bytes alone. The
/// outside function adds an offset and a length, of up to 32 bits each, in
/// `usize`: with a `usize` of 64 bits it returns on every input.
#[verifier::external_body]
fn decode_abi_string(data: &[u8]) -> (res: Option<String>)
    ensures
        match res {
            Some(text) => abi_string_decoding(data@) == Some(text@),
            None => abi_string_decoding(data@) is None,
        },
{
    <String as ethers::abi::AbiDecode>::decode(data).ok()
}

/// The text of a string that was read, if one was.
pub open spec fn text_view(text: Option<String>) -> Option<Seq<char>> {
    match text {
        Some(text) => Some(text@),
        None => None,
    }
}

/// The selector of `Error(string)`, which a revert with a message starts
/// with.
pub open spec fn revert_string_selector() -> Seq<u8> {
    seq![0x08u8, 0xc3u8, 0x79u8, 0xa0u8]
}

/// One of the contract's custom errors, or the message of a revert.
#[derive(Clone, Debug, PartialEq, Eq, Hash)]
pub enum BaseReactorErrors {
    DeadlinePassed(DeadlinePassed),
    DuplicateFeeOutput(DuplicateFeeOutput),
    FeeTooLarge(FeeTooLarge),
    InsufficientEth(InsufficientEth),
    InsufficientOutput(InsufficientOutput),
    InvalidFeeToken(InvalidFeeToken),
    InvalidReactor(InvalidReactor),
    NativeTransferFailed(NativeTransferFailed),
    /// The message of a revert.
    RevertString(String),
}

/// The mathematical value of a `BaseReactorErrors`.
pub enum BaseReactorErrorsView {
    DeadlinePassed(DeadlinePassed),
    DuplicateFeeOutput(DuplicateFeeOutput),
    FeeTooLarge(FeeTooLarge),
    InsufficientEth(InsufficientEth),
    InsufficientOutput(InsufficientOutput),
    InvalidFeeToken(InvalidFeeToken),
    InvalidReactor(InvalidReactor),
    NativeTransferFailed(NativeTransferFailed),
    RevertString(Seq<char>),
}

impl View for BaseReactorErrors {
    type V = BaseReactorErrorsView;

    open spec fn view(&self) -> BaseReactorErrorsView {
        match self {
            BaseReactorErrors::DeadlinePassed(element) => BaseReactorErrorsView::DeadlinePassed(*element),
            BaseReactorErrors::DuplicateFeeOutput(element) => BaseReactorErrorsView::DuplicateFeeOutput(*element),
            BaseReactorErrors::FeeTooLarge(element) => BaseReactorErrorsView::FeeTooLarge(*element),
            BaseReactorErrors::InsufficientEth(element) => BaseReactorErrorsView::InsufficientEth(*element),
            BaseReactorErrors::InsufficientOutput(element) => BaseReactorErrorsView::InsufficientOutput(*element),
            BaseReactorErrors::InvalidFeeToken(element) => BaseReactorErrorsView::InvalidFeeToken(*element),
            BaseReactorErrors::InvalidReactor(element) => BaseReactorErrorsView::InvalidReactor(*element),
            BaseReactorErrors::NativeTransferFailed(element) => BaseReactorErrorsView::NativeTransferFailed(*element),
            BaseReactorErrors::RevertString(text) => BaseReactorErrorsView::RevertString(text@),
        }
    }
}

impl BaseReactorErrors {
    /// The encoding of the error that it holds. A message is encoded as a
    /// string on its own, without a selector: the offset of the string, its
    /// length, and its bytes filled up to whole words.
    pub open spec fn encoding(error: BaseReactorErrorsView) -> Seq<u8> {
        match error {
            BaseReactorErrorsView::DeadlinePassed(element) => element.encoding(),
            BaseReactorErrorsView::DuplicateFeeOutput(element) => element.encoding(),
            BaseReactorErrorsView::FeeTooLarge(element) => element.encoding(),
            BaseReactorErrorsView::InsufficientEth(element) => element.encoding(),
            BaseReactorErrorsView::InsufficientOutput(element) => element.encoding(),
            BaseReactorErrorsView::InvalidFeeToken(element) => element.encoding(),
            BaseReactorErrorsView::InvalidReactor(element) => element.encoding(),
            BaseReactorErrorsView::NativeTransferFailed(element) => element.encoding(),
            BaseReactorErrorsView::RevertString(text) => len_word(32) + bytes_enc(encode_utf8(text)),
        }
    }

    /// What `data` is read as, given the text that was read from it as a
    /// string on its own, if one was: that text as a message; without one
    /// the first error of the list, in the order of the variants, that the
    /// data can be read as.
    pub open spec fn decoding_with(text: Option<Seq<char>>, data: Seq<u8>) -> Result<
        BaseReactorErrorsView,
        AbiError,
    > {
        match text {
            Some(text) => Ok(BaseReactorErrorsView::RevertString(text)),
            None => 
            match DeadlinePassed::decoding(data) {
                Ok(element) => Ok(BaseReactorErrorsView::DeadlinePassed(element)),
                Err(_) => 
                match DuplicateFeeOutput::decoding(data) {
                    Ok(element) => Ok(BaseReactorErrorsView::DuplicateFeeOutput(element)),
                    Err(_) => 
                    match FeeTooLarge::decoding(data) {
                        Ok(element) => Ok(BaseReactorErrorsView::FeeTooLarge(element)),
                        Err(_) => 
                        match InsufficientEth::decoding(data) {
                            Ok(element) => Ok(BaseReactorErrorsView::InsufficientEth(element)),
                            Err(_) => 
                            match InsufficientOutput::decoding(data) {
                                Ok(element) => Ok(BaseReactorErrorsView::InsufficientOutput(element)),
                                Err(_) => 
                                match InvalidFeeToken::decoding(data) {
                                    Ok(element) => Ok(BaseReactorErrorsView::InvalidFeeToken(element)),
                                    Err(_) => 
                                    match InvalidReactor::decoding(data) {
                                        Ok(element) => Ok(BaseReactorErrorsView::InvalidReactor(element)),
                                        Err(_) => 
                                        match NativeTransferFailed::decoding(data) {
                                            Ok(element) => Ok(BaseReactorErrorsView::NativeTransferFailed(element)),
                                            Err(_) => 
                                            Err(AbiError::InvalidData),
                                        },
                                    },
                                },
                            },
                        },
                    },
                },
            },
        }
    }

    /// What `data` is read as: a message, if it can be read as a string on
    /// its own; else the first error of the list, in the order of the
    /// variants, that the data can be read as.
    pub open spec fn decoding(data: Seq<u8>) -> Result<BaseReactorErrorsView, AbiError> {
        Self::decoding_with(abi_string_decoding(data), data)
    }

    /// Whether `selector` is that of one of the contract's custom errors or
    /// of a revert with a message.
    pub open spec fn is_valid_selector(selector: Seq<u8>) -> bool {
        ||| selector == revert_string_selector()
        ||| selector == DeadlinePassed::selector_bytes()
        ||| selector == DuplicateFeeOutput::selector_bytes()
        ||| selector == FeeTooLarge::selector_bytes()
        ||| selector == InsufficientEth::selector_bytes()
        ||| selector == InsufficientOutput::selector_bytes()
        ||| selector == InvalidFeeToken::selector_bytes()
        ||| selector == InvalidReactor::selector_bytes()
        ||| selector == NativeTransferFailed::selector_bytes()
    }

    /// Reads an error from the data of a revert.
    pub fn decode(data: &[u8]) -> (res: Result<BaseReactorErrors, AbiError>)
        ensures
            match res {
                Ok(error) => Self::decoding(data@) == Ok::<BaseReactorErrorsView, AbiError>(error@),
                Err(e) => Self::decoding(data@) == Err::<BaseReactorErrorsView, AbiError>(e),
            },
    {
        Self::decode_with(decode_abi_string(data), data)
    }

    /// Reads an error from the data of a revert, given the text that was
    /// read from the data as a string on its own, if one was.
    pub fn decode_with(text: Option<String>, data: &[u8]) -> (res: Result<
        BaseReactorErrors,
        AbiError,
    >)
        ensures
            match res {
                Ok(error) => Self::decoding_with(text_view(text), data@) == Ok::<
                    BaseReactorErrorsView,
                    AbiError,
                >(error@),
                Err(e) => Self::decoding_with(text_view(text), data@) == Err::<
                    BaseReactorErrorsView,
                    AbiError,
                >(e),
            },
    {
        if let Some(text) = text {
            return Ok(BaseReactorErrors::RevertString(text));
        }
        if let Ok(element) = DeadlinePassed::decode(data) {
            return Ok(BaseReactorErrors::DeadlinePassed(element));
        }
        if let Ok(element) = DuplicateFeeOutput::decode(data) {
            return Ok(BaseReactorErrors::DuplicateFeeOutput(element));
        }
        if let Ok(element) = FeeTooLarge::decode(data) {
            return Ok(BaseReactorErrors::FeeTooLarge(element));
        }
        if let Ok(element) = InsufficientEth::decode(data) {
            return Ok(BaseReactorErrors::InsufficientEth(element));
        }
        if let Ok(element) = InsufficientOutput::decode(data) {
            return Ok(BaseReactorErrors::InsufficientOutput(element));
        }
        if let Ok(element) = InvalidFeeToken::decode(data) {
            return Ok(BaseReactorErrors::InvalidFeeToken(element));
        }
        if let Ok(element) = InvalidReactor::decode(data) {
            return Ok(BaseReactorErrors::InvalidReactor(element));
        }
        if let Ok(element) = NativeTransferFailed::decode(data) {
            return Ok(BaseReactorErrors::NativeTransferFailed(element));
        }
        Err(AbiError::InvalidData)
    }

    /// Writes the error that it holds.
    pub fn encode(self) -> (out: Vec<u8>)
        ensures
            out@ == Self::encoding(self@),
    {
        match self {
            BaseReactorErrors::DeadlinePassed(element) => element.encode(),
            BaseReactorErrors::DuplicateFeeOutput(element) => element.encode(),
            BaseReactorErrors::FeeTooLarge(element) => element.encode(),
            BaseReactorErrors::InsufficientEth(element) => element.encode(),
            BaseReactorErrors::InsufficientOutput(element) => element.encode(),
            BaseReactorErrors::InvalidFeeToken(element) => element.encode(),
            BaseReactorErrors::InvalidReactor(element) => element.encode(),
            BaseReactorErrors::NativeTransferFailed(element) => element.encode(),
            BaseReactorErrors::RevertString(text) => {
                let mut out: Vec<u8> = Vec::new();
                push_len(&mut out, 32);
                push_bytes(&mut out, text.as_str().as_bytes());
                out
            },
        }
    }

    /// Without a text read as a string on its own, reading what was written
    /// for a custom error gives the error back: no two of the selectors are
    /// the same.
    pub proof fn lemma_round_trip_of_custom_error(error: BaseReactorErrorsView)
        requires
            !(error is RevertString),
        ensures
            Self::decoding_with(None, Self::encoding(error)) == Ok::<
                BaseReactorErrorsView,
                AbiError,
            >(error),
    {
        let d = Self::encoding(error);
        match error {
            BaseReactorErrorsView::DeadlinePassed(element) => {
                element.lemma_round_trip();
                assert(d.subrange(0, 4) =~= DeadlinePassed::selector_bytes());
            },
            BaseReactorErrorsView::DuplicateFeeOutput(element) => {
                element.lemma_round_trip();
                assert(d.subrange(0, 4) =~= DuplicateFeeOutput::selector_bytes());
                assert(DeadlinePassed::selector_bytes()[0] != DuplicateFeeOutput::selector_bytes()[0]);
            },
            BaseReactorErrorsView::FeeTooLarge(element) => {
                element.lemma_round_trip();
                assert(d.subrange(0, 4) =~= FeeTooLarge::selector_bytes());
                assert(DeadlinePassed::selector_bytes()[0] != FeeTooLarge::selector_bytes()[0]);
                assert(DuplicateFeeOutput::selector_bytes()[0] != FeeTooLarge::selector_bytes()[0]);
            },
            BaseReactorErrorsView::InsufficientEth(element) => {
                element.lemma_round_trip();
                assert(d.subrange(0, 4) =~= InsufficientEth::selector_bytes());
                assert(DeadlinePassed::selector_bytes()[0] != InsufficientEth::selector_bytes()[0]);
                assert(DuplicateFeeOutput::selector_bytes()[0] != InsufficientEth::selector_bytes()[0]);
                assert(FeeTooLarge::selector_bytes()[0] != InsufficientEth::selector_bytes()[0]);
            },
            BaseReactorErrorsView::InsufficientOutput(element) => {
                element.lemma_round_trip();
                assert(d.subrange(0, 4) =~= InsufficientOutput::selector_bytes());
                assert(DeadlinePassed::selector_bytes()[0] != InsufficientOutput::selector_bytes()[0]);
                assert(DuplicateFeeOutput::selector_bytes()[0] != InsufficientOutput::selector_bytes()[0]);
                assert(FeeTooLarge::selector_bytes()[0] != InsufficientOutput::selector_bytes()[0]);
                assert(InsufficientEth::selector_bytes()[0] != InsufficientOutput::selector_bytes()[0]);
            },
            BaseReactorErrorsView::InvalidFeeToken(element) => {
                element.lemma_round_trip();
                assert(d.subrange(0, 4) =~= InvalidFeeToken::selector_bytes());
                assert(DeadlinePassed::selector_bytes()[0] != InvalidFeeToken::selector_bytes()[0]);
                assert(DuplicateFeeOutput::selector_bytes()[0] != InvalidFeeToken::selector_bytes()[0]);
                assert(FeeTooLarge::selector_bytes()[0] != InvalidFeeToken::selector_bytes()[0]);
                assert(InsufficientEth::selector_bytes()[0] != InvalidFeeToken::selector_bytes()[0]);
                assert(InsufficientOutput::selector_bytes()[0] != InvalidFeeToken::selector_bytes()[0]);
            },
            BaseReactorErrorsView::InvalidReactor(element) => {
                element.lemma_round_trip();
                assert(d.subrange(0, 4) =~= InvalidReactor::selector_bytes());
                assert(DeadlinePassed::selector_bytes()[0] != InvalidReactor::selector_bytes()[0]);
                assert(DuplicateFeeOutput::selector_bytes()[0] != InvalidReactor::selector_bytes()[0]);
                assert(FeeTooLarge::selector_bytes()[0] != InvalidReactor::selector_bytes()[0]);
                assert(InsufficientEth::selector_bytes()[0] != InvalidReactor::selector_bytes()[0]);
                assert(InsufficientOutput::selector_bytes()[0] != InvalidReactor::selector_bytes()[0]);
                assert(InvalidFeeToken::selector_bytes()[0] != InvalidReactor::selector_bytes()[0]);
            },
            BaseReactorErrorsView::NativeTransferFailed(element) => {
                element.lemma_round_trip();
                assert(d.subrange(0, 4) =~= NativeTransferFailed::selector_bytes());
                assert(DeadlinePassed::selector_bytes()[0] != NativeTransferFailed::selector_bytes()[0]);
                assert(DuplicateFeeOutput::selector_bytes()[0] != NativeTransferFailed::selector_bytes()[0]);
                assert(FeeTooLarge::selector_bytes()[0] != NativeTransferFailed::selector_bytes()[0]);
                assert(InsufficientEth::selector_bytes()[0] != NativeTransferFailed::selector_bytes()[0]);
                assert(InsufficientOutput::selector_bytes()[0] != NativeTransferFailed::selector_bytes()[0]);
                assert(InvalidFeeToken::selector_bytes()[0] != NativeTransferFailed::selector_bytes()[0]);
                assert(InvalidReactor::selector_bytes()[0] != NativeTransferFailed::selector_bytes()[0]);
            },
            BaseReactorErrorsView::RevertString(_) => {},
        }
    }

    /// Whether `selector` is that of one of the contract's custom errors or
    /// of a revert with a message.
    pub fn valid_selector(selector: [u8; 4]) -> (valid: bool)
        ensures
            valid == Self::is_valid_selector(selector@),
    {
        let revert: [u8; 4] = [0x08u8, 0xc3u8, 0x79u8, 0xa0u8];
        assert(revert@ =~= revert_string_selector());
        bytes_eq(selector.as_slice(), revert.as_slice())
            || bytes_eq(selector.as_slice(), DeadlinePassed::selector().as_slice())
            || bytes_eq(selector.as_slice(), DuplicateFeeOutput::selector().as_slice())
            || bytes_eq(selector.as_slice(), FeeTooLarge::selector().as_slice())
            || bytes_eq(selector.as_slice(), InsufficientEth::selector().as_slice())
            || bytes_eq(selector.as_slice(), InsufficientOutput::selector().as_slice())
            || bytes_eq(selector.as_slice(), InvalidFeeToken::selector().as_slice())
            || bytes_eq(selector.as_slice(), InvalidReactor::selector().as_slice())
            || bytes_eq(selector.as_slice(), NativeTransferFailed::selector().as_slice())
    }
}

impl From<DeadlinePassed> for BaseReactorErrors {
    fn from(value: DeadlinePassed) -> (res: Self) {
        BaseReactorErrors::DeadlinePassed(value)
    }
}

impl FromSpecImpl<DeadlinePassed> for BaseReactorErrors {
    open spec fn obeys_from_spec() -> bool {
        true
    }

    open spec fn from_spec(value: DeadlinePassed) -> Self {
        BaseReactorErrors::DeadlinePassed(value)
    }
}

impl From<DuplicateFeeOutput> for BaseReactorErrors {
    fn from(value: DuplicateFeeOutput) -> (res: Self) {
        BaseReactorErrors::DuplicateFeeOutput(value)
    }
}

impl FromSpecImpl<DuplicateFeeOutput> for BaseReactorErrors {
    open spec fn obeys_from_spec() -> bool {
        true
    }

    open spec fn from_spec(value: DuplicateFeeOutput) -> Self {
        BaseReactorErrors::DuplicateFeeOutput(value)
    }
}

impl From<FeeTooLarge> for BaseReactorErrors {
    fn from(value: FeeTooLarge) -> (res: Self) {
        BaseReactorErrors::FeeTooLarge(value)
    }
}

impl FromSpecImpl<FeeTooLarge> for BaseReactorErrors {
    open spec fn obeys_from_spec() -> bool {
        true
    }

    open spec fn from_spec(value: FeeTooLarge) -> Self {
        BaseReactorErrors::FeeTooLarge(value)
    }
}

impl From<InsufficientEth> for BaseReactorErrors {
    fn from(value: InsufficientEth) -> (res: Self) {
        BaseReactorErrors::InsufficientEth(value)
    }
}

impl FromSpecImpl<InsufficientEth> for BaseReactorErrors {
    open spec fn obeys_from_spec() -> bool {
        true
    }

    open spec fn from_spec(value: InsufficientEth) -> Self {
        BaseReactorErrors::InsufficientEth(value)
    }
}

impl From<InsufficientOutput> for BaseReactorErrors {
    fn from(value: InsufficientOutput) -> (res: Self) {
        BaseReactorErrors::InsufficientOutput(value)
    }
}

impl FromSpecImpl<InsufficientOutput> for BaseReactorErrors {
    open spec fn obeys_from_spec() -> bool {
        true
    }

    open spec fn from_spec(value: InsufficientOutput) -> Self {
        BaseReactorErrors::InsufficientOutput(value)
    }
}

impl From<InvalidFeeToken> for BaseReactorErrors {
    fn from(value: InvalidFeeToken) -> (res: Self) {
        BaseReactorErrors::InvalidFeeToken(value)
    }
}

impl FromSpecImpl<InvalidFeeToken> for BaseReactorErrors {
    open spec fn obeys_from_spec() -> bool {
        true
    }

    open spec fn from_spec(value: InvalidFeeToken) -> Self {
        BaseReactorErrors::InvalidFeeToken(value)
    }
}

impl From<InvalidReactor> for BaseReactorErrors {
    fn from(value: InvalidReactor) -> (res: Self) {
        BaseReactorErrors::InvalidReactor(value)
    }
}

impl FromSpecImpl<InvalidReactor> for BaseReactorErrors {
    open spec fn obeys_from_spec() -> bool {
        true
    }

    open spec fn from_spec(value: InvalidReactor) -> Self {
        BaseReactorErrors::InvalidReactor(value)
    }
}

impl From<NativeTransferFailed> for BaseReactorErrors {
    fn from(value: NativeTransferFailed) -> (res: Self) {
        BaseReactorErrors::NativeTransferFailed(value)
    }
}

impl FromSpecImpl<NativeTransferFailed> for BaseReactorErrors {
    open spec fn obeys_from_spec() -> bool {
        true
    }

    open spec fn from_spec(value: NativeTransferFailed) -> Self {
        BaseReactorErrors::NativeTransferFailed(value)
    }
}

impl From<String> for BaseReactorErrors {
    fn from(value: String) -> (res: Self) {
        BaseReactorErrors::RevertString(value)
    }
}

impl FromSpecImpl<String> for BaseReactorErrors {
    open spec fn obeys_from_spec() -> bool {
        true
    }

    open spec fn from_spec(value: String) -> Self {
        BaseReactorErrors::RevertString(value)
    }
}

/// The `Fill` event.
#[derive(Clone, Copy, Debug, PartialEq, Eq, Hash)]
pub struct FillFilter {
    pub order_hash: B256,
    pub filler: Address,
    pub swapper: Address,
    pub nonce: U256,
}

impl FillFilter {
    /// The text of the event's signature.
    pub open spec fn abi_signature_bytes() -> Seq<u8> {
        "Fill(bytes32,address,address,uint256)".spec_bytes()
    }

    /// The first topic of the event's logs: the Keccak-256 digest of its
    /// signature.
    pub open spec fn signature_hash() -> Seq<u8> {
        keccak256_digest(Self::abi_signature_bytes())
    }

    /// What a log is read as: the event, if the log has the event's
    /// signature as its first topic, one more topic for each indexed
    /// parameter and no others, and in its data a word for each other
    /// parameter, whatever follows them and whatever stands before an
    /// address in its word.
    pub open spec fn log_decoding(topics: Seq<B256>, data: Seq<u8>) -> Result<FillFilter, AbiError> {
        if topics.len() == 4 && topics[0]@ == Self::signature_hash() && data.len() >= 32 {
            Ok(
                FillFilter {
                    order_hash: topics[1],
                    filler: address_at(topics[2]@, 0),
                    swapper: address_at(topics[3]@, 0),
                    nonce: uint_at(data, 0),
                },
            )
        } else {
            Err(AbiError::InvalidData)
        }
    }

    /// The first topic of the event's logs.
    pub fn signature() -> (hash: B256)
        ensures
            hash@ == Self::signature_hash(),
    {
        type_hash_of("Fill(bytes32,address,address,uint256)")
    }

    /// Reads the event from a log.
    pub fn decode_log(log: &RawLog) -> (res: Result<FillFilter, AbiError>)
        ensures
            res == Self::log_decoding(log.topics@, log.data@),
    {
        if log.topics.len() != 4 {
            return Err(AbiError::InvalidData);
        }
        let signature = Self::signature();
        if !log.topics[0].same(&signature) {
            return Err(AbiError::InvalidData);
        }
        if log.data.len() < 32 {
            return Err(AbiError::InvalidData);
        }
        Ok(
            FillFilter {
                order_hash: log.topics[1],
                filler: read_address(log.topics[2].bytes.as_slice(), 0),
                swapper: read_address(log.topics[3].bytes.as_slice(), 0),
                nonce: read_uint(log.data.as_slice(), 0),
            },
        )
    }
}

/// The `OwnershipTransferred` event.
#[derive(Clone, Copy, Debug, PartialEq, Eq, Hash)]
pub struct OwnershipTransferredFilter {
    pub user: Address,
    pub new_owner: Address,
}

impl OwnershipTransferredFilter {
    /// The text of the event's signature.
    pub open spec fn abi_signature_bytes() -> Seq<u8> {
        "OwnershipTransferred(address,address)".spec_bytes()
    }

    /// The first topic of the event's logs: the Keccak-256 digest of its
    /// signature.
    pub open spec fn signature_hash() -> Seq<u8> {
        keccak256_digest(Self::abi_signature_bytes())
    }

    /// What a log is read as: the event, if the log has the event's
    /// signature as its first topic, one more topic for each indexed
    /// parameter and no others, and in its data a word for each other
    /// parameter, whatever follows them and whatever stands before an
    /// address in its word.
    pub open spec fn log_decoding(topics: Seq<B256>, data: Seq<u8>) -> Result<OwnershipTransferredFilter, AbiError> {
        if topics.len() == 3 && topics[0]@ == Self::signature_hash() {
            Ok(
                OwnershipTransferredFilter {
                    user: address_at(topics[1]@, 0),
                    new_owner: address_at(topics[2]@, 0),
                },
            )
        } else {
            Err(AbiError::InvalidData)
        }
    }

    /// The first topic of the event's logs.
    pub fn signature() -> (hash: B256)
        ensures
            hash@ == Self::signature_hash(),
    {
        type_hash_of("OwnershipTransferred(address,address)")
    }

    /// Reads the event from a log.
    pub fn decode_log(log: &RawLog) -> (res: Result<OwnershipTransferredFilter, AbiError>)
        ensures
            res == Self::log_decoding(log.topics@, log.data@),
    {
        if log.topics.len() != 3 {
            return Err(AbiError::InvalidData);
        }
        let signature = Self::signature();
        if !log.topics[0].same(&signature) {
            return Err(AbiError::InvalidData);
        }
        Ok(
            OwnershipTransferredFilter {
                user: read_address(log.topics[1].bytes.as_slice(), 0),
                new_owner: read_address(log.topics[2].bytes.as_slice(), 0),
            },
        )
    }
}

/// The `ProtocolFeeControllerSet` event.
#[derive(Clone, Copy, Debug, PartialEq, Eq, Hash)]
pub struct ProtocolFeeControllerSetFilter {
    pub old_fee_controller: Address,
    pub new_fee_controller: Address,
}

impl ProtocolFeeControllerSetFilter {
    /// The text of the event's signature.
    pub open spec fn abi_signature_bytes() -> Seq<u8> {
        "ProtocolFeeControllerSet(address,address)".spec_bytes()
    }

    /// The first topic of the event's logs: the Keccak-256 digest of its
    /// signature.
    pub open spec fn signature_hash() -> Seq<u8> {
        keccak256_digest(Self::abi_signature_bytes())
    }

    /// What a log is read as: the event, if the log has the event's
    /// signature as its first topic, one more topic for each indexed
    /// parameter and no others, and in its data a word for each other
    /// parameter, whatever follows them and whatever stands before an
    /// address in its word.
    pub open spec fn log_decoding(topics: Seq<B256>, data: Seq<u8>) -> Result<ProtocolFeeControllerSetFilter, AbiError> {
        if topics.len() == 1 && topics[0]@ == Self::signature_hash() && data.len() >= 64 {
            Ok(
                ProtocolFeeControllerSetFilter {
                    old_fee_controller: address_at(data, 0),
                    new_fee_controller: address_at(data, 32),
                },
            )
        } else {
            Err(AbiError::InvalidData)
        }
    }

    /// The first topic of the event's logs.
    pub fn signature() -> (hash: B256)
        ensures
            hash@ == Self::signature_hash(),
    {
        type_hash_of("ProtocolFeeControllerSet(address,address)")
    }

    /// Reads the event from a log.
    pub fn decode_log(log: &RawLog) -> (res: Result<ProtocolFeeControllerSetFilter, AbiError>)
        ensures
            res == Self::log_decoding(log.topics@, log.data@),
    {
        if log.topics.len() != 1 {
            return Err(AbiError::InvalidData);
        }
        let signature = Self::signature();
        if !log.topics[0].same(&signature) {
            return Err(AbiError::InvalidData);
        }
        if log.data.len() < 64 {
            return Err(AbiError::InvalidData);
        }
        Ok(
            ProtocolFeeControllerSetFilter {
                old_fee_controller: read_address(log.data.as_slice(), 0),
                new_fee_controller: read_address(log.data.as_slice(), 32),
            },
        )
    }
}

/// One of the contract's events.
#[derive(Clone, Copy, Debug, PartialEq, Eq, Hash)]
pub enum BaseReactorEvents {
    FillFilter(FillFilter),
    OwnershipTransferredFilter(OwnershipTransferredFilter),
    ProtocolFeeControllerSetFilter(ProtocolFeeControllerSetFilter),
}

impl BaseReactorEvents {
    /// What a log is read as: the first event of the list, in the order of
    /// the variants, that the log can be read as.
    pub open spec fn log_decoding(topics: Seq<B256>, data: Seq<u8>) -> Result<
        BaseReactorEvents,
        AbiError,
    > {
        match FillFilter::log_decoding(topics, data) {
            Ok(event) => Ok(BaseReactorEvents::FillFilter(event)),
            Err(_) => 
            match OwnershipTransferredFilter::log_decoding(topics, data) {
                Ok(event) => Ok(BaseReactorEvents::OwnershipTransferredFilter(event)),
                Err(_) => 
                match ProtocolFeeControllerSetFilter::log_decoding(topics, data) {
                    Ok(event) => Ok(BaseReactorEvents::ProtocolFeeControllerSetFilter(event)),
                    Err(_) => 
                    Err(AbiError::InvalidData),
                },
            },
        }
    }

    /// Reads an event from a log.
    pub fn decode_log(log: &RawLog) -> (res: Result<BaseReactorEvents, AbiError>)
        ensures
            res == Self::log_decoding(log.topics@, log.data@),
    {
        if let Ok(event) = FillFilter::decode_log(log) {
            return Ok(BaseReactorEvents::FillFilter(event));
        }
        if let Ok(event) = OwnershipTransferredFilter::decode_log(log) {
            return Ok(BaseReactorEvents::OwnershipTransferredFilter(event));
        }
        if let Ok(event) = ProtocolFeeControllerSetFilter::decode_log(log) {
            return Ok(BaseReactorEvents::ProtocolFeeControllerSetFilter(event));
        }
        Err(AbiError::InvalidData)
    }
}

impl From<FillFilter> for BaseReactorEvents {
    fn from(value: FillFilter) -> (res: Self) {
        BaseReactorEvents::FillFilter(value)
    }
}

impl FromSpecImpl<FillFilter> for BaseReactorEvents {
    open spec fn obeys_from_spec() -> bool {
        true
    }

    open spec fn from_spec(value: FillFilter) -> Self {
        BaseReactorEvents::FillFilter(value)
    }
}

impl From<OwnershipTransferredFilter> for BaseReactorEvents {
    fn from(value: OwnershipTransferredFilter) -> (res: Self) {
        BaseReactorEvents::OwnershipTransferredFilter(value)
    }
}

impl FromSpecImpl<OwnershipTransferredFilter> for BaseReactorEvents {
    open spec fn obeys_from_spec() -> bool {
        true
    }

    open spec fn from_spec(value: OwnershipTransferredFilter) -> Self {
        BaseReactorEvents::OwnershipTransferredFilter(value)
    }
}

impl From<ProtocolFeeControllerSetFilter> for BaseReactorEvents {
    fn from(value: ProtocolFeeControllerSetFilter) -> (res: Self) {
        BaseReactorEvents::ProtocolFeeControllerSetFilter(value)
    }
}

impl FromSpecImpl<ProtocolFeeControllerSetFilter> for BaseReactorEvents {
    open spec fn obeys_from_spec() -> bool {
        true
    }

    open spec fn from_spec(value: ProtocolFeeControllerSetFilter) -> Self {
        BaseReactorEvents::ProtocolFeeControllerSetFilter(value)
    }
}

/// The input of the `DIRECT_FILL` function: it takes none.
#[derive(Clone, Copy, Debug, PartialEq, Eq, Hash)]
pub struct DirectFillCall;

impl DirectFillCall {
    /// The selector `0xfccbcaaf`: the first four bytes of the Keccak-256
    /// digest of `DIRECT_FILL()`.
    pub open spec fn selector_bytes() -> Seq<u8> {
        seq![0xfcu8, 0xcbu8, 0xcau8, 0xafu8]
    }

    /// The words of the parameters.
    pub open spec fn params(self) -> Seq<u8> {
        Seq::empty()
    }

    /// The selector, then the words of the parameters.
    pub open spec fn encoding(self) -> Seq<u8> {
        Self::selector_bytes() + self.params()
    }

    /// What `data` is read as: the call, if the data starts with the
    /// selector, whatever follows it.
    pub open spec fn decoding(data: Seq<u8>) -> Result<DirectFillCall, AbiError> {
        if !has_selector(data, Self::selector_bytes()) {
            Err(AbiError::WrongSelector)
        } else {
            Ok(DirectFillCall)
        }
    }

    /// The selector.
    pub fn selector() -> (s: [u8; 4])
        ensures
            s@ == Self::selector_bytes(),
    {
        let s: [u8; 4] = [0xfcu8, 0xcbu8, 0xcau8, 0xafu8];
        assert(s@ =~= Self::selector_bytes());
        s
    }

    /// Writes the call: the selector, then the parameters.
    pub fn encode(&self) -> (out: Vec<u8>)
        ensures
            out@ == self.encoding(),
    {
        let s = Self::selector();
        let mut out: Vec<u8> = Vec::new();
        push_slice(&mut out, s.as_slice());
        assert(out@ =~= self.encoding());
        out
    }

    /// Reads the call from `data`.
    pub fn decode(data: &[u8]) -> (res: Result<DirectFillCall, AbiError>)
        ensures
            res == Self::decoding(data@),
    {
        let s = Self::selector();
        if !starts_with_selector(data, &s) {
            return Err(AbiError::WrongSelector);
        }
        Ok(DirectFillCall)
    }

    /// Reading what was written gives the call back.
    pub proof fn lemma_round_trip(self)
        ensures
            Self::decoding(self.encoding()) == Ok::<DirectFillCall, AbiError>(self),
    {
        let d = self.encoding();
        assert(d.subrange(0, 4) =~= Self::selector_bytes());
    }
}

/// The input of the `feeController` function: it takes none.
#[derive(Clone, Copy, Debug, PartialEq, Eq, Hash)]
pub struct FeeControllerCall;

impl FeeControllerCall {
    /// The selector `0x6999b377`: the first four bytes of the Keccak-256
    /// digest of `feeController()`.
    pub open spec fn selector_bytes() -> Seq<u8> {
        seq![0x69u8, 0x99u8, 0xb3u8, 0x77u8]
    }

    /// The words of the parameters.
    pub open spec fn params(self) -> Seq<u8> {
        Seq::empty()
    }

    /// The selector, then the words of the parameters.
    pub open spec fn encoding(self) -> Seq<u8> {
        Self::selector_bytes() + self.params()
    }

    /// What `data` is read as: the call, if the data starts with the
    /// selector, whatever follows it.
    pub open spec fn decoding(data: Seq<u8>) -> Result<FeeControllerCall, AbiError> {
        if !has_selector(data, Self::selector_bytes()) {
            Err(AbiError::WrongSelector)
        } else {
            Ok(FeeControllerCall)
        }
    }

    /// The selector.
    pub fn selector() -> (s: [u8; 4])
        ensures
            s@ == Self::selector_bytes(),
    {
        let s: [u8; 4] = [0x69u8, 0x99u8, 0xb3u8, 0x77u8];
        assert(s@ =~= Self::selector_bytes());
        s
    }

    /// Writes the call: the selector, then the parameters.
    pub fn encode(&self) -> (out: Vec<u8>)
        ensures
            out@ == self.encoding(),
    {
        let s = Self::selector();
        let mut out: Vec<u8> = Vec::new();
        push_slice(&mut out, s.as_slice());
        assert(out@ =~= self.encoding());
        out
    }

    /// Reads the call from `data`.
    pub fn decode(data: &[u8]) -> (res: Result<FeeControllerCall, AbiError>)
        ensures
            res == Self::decoding(data@),
    {
        let s = Self::selector();
        if !starts_with_selector(data, &s) {
            return Err(AbiError::WrongSelector);
        }
        Ok(FeeControllerCall)
    }

    /// Reading what was written gives the call back.
    pub proof fn lemma_round_trip(self)
        ensures
            Self::decoding(self.encoding()) == Ok::<FeeControllerCall, AbiError>(self),
    {
        let d = self.encoding();
        assert(d.subrange(0, 4) =~= Self::selector_bytes());
    }
}

/// The input of the `owner` function: it takes none.
#[derive(Clone, Copy, Debug, PartialEq, Eq, Hash)]
pub struct OwnerCall;

impl OwnerCall {
    /// The selector `0x8da5cb5b`: the first four bytes of the Keccak-256
    /// digest of `owner()`.
    pub open spec fn selector_bytes() -> Seq<u8> {
        seq![0x8du8, 0xa5u8, 0xcbu8, 0x5bu8]
    }

    /// The words of the parameters.
    pub open spec fn params(self) -> Seq<u8> {
        Seq::empty()
    }

    /// The selector, then the words of the parameters.
    pub open spec fn encoding(self) -> Seq<u8> {
        Self::selector_bytes() + self.params()
    }

    /// What `data` is read as: the call, if the data starts with the
    /// selector, whatever follows it.
    pub open spec fn decoding(data: Seq<u8>) -> Result<OwnerCall, AbiError> {
        if !has_selector(data, Self::selector_bytes()) {
            Err(AbiError::WrongSelector)
        } else {
            Ok(OwnerCall)
        }
    }

    /// The selector.
    pub fn selector() -> (s: [u8; 4])
        ensures
            s@ == Self::selector_bytes(),
    {
        let s: [u8; 4] = [0x8du8, 0xa5u8, 0xcbu8, 0x5bu8];
        assert(s@ =~= Self::selector_bytes());
        s
    }

    /// Writes the call: the selector, then the parameters.
    pub fn encode(&self) -> (out: Vec<u8>)
        ensures
            out@ == self.encoding(),
    {
        let s = Self::selector();
        let mut out: Vec<u8> = Vec::new();
        push_slice(&mut out, s.as_slice());
        assert(out@ =~= self.encoding());
        out
    }

    /// Reads the call from `data`.
    pub fn decode(data: &[u8]) -> (res: Result<OwnerCall, AbiError>)
        ensures
            res == Self::decoding(data@),
    {
        let s = Self::selector();
        if !starts_with_selector(data, &s) {
            return Err(AbiError::WrongSelector);
        }
        Ok(OwnerCall)
    }

    /// Reading what was written gives the call back.
    pub proof fn lemma_round_trip(self)
        ensures
            Self::decoding(self.encoding()) == Ok::<OwnerCall, AbiError>(self),
    {
        let d = self.encoding();
        assert(d.subrange(0, 4) =~= Self::selector_bytes());
    }
}

/// The input of the `permit2` function: it takes none.
#[derive(Clone, Copy, Debug, PartialEq, Eq, Hash)]
pub struct Permit2Call;

impl Permit2Call {
    /// The selector `0x12261ee7`: the first four bytes of the Keccak-256
    /// digest of `permit2()`.
    pub open spec fn selector_bytes() -> Seq<u8> {
        seq![0x12u8, 0x26u8, 0x1eu8, 0xe7u8]
    }

    /// The words of the parameters.
    pub open spec fn params(self) -> Seq<u8> {
        Seq::empty()
    }

    /// The selector, then the words of the parameters.
    pub open spec fn encoding(self) -> Seq<u8> {
        Self::selector_bytes() + self.params()
    }

    /// What `data` is read as: the call, if the data starts with the
    /// selector, whatever follows it.
    pub open spec fn decoding(data: Seq<u8>) -> Result<Permit2Call, AbiError> {
        if !has_selector(data, Self::selector_bytes()) {
            Err(AbiError::WrongSelector)
        } else {
            Ok(Permit2Call)
        }
    }

    /// The selector.
    pub fn selector() -> (s: [u8; 4])
        ensures
            s@ == Self::selector_bytes(),
    {
        let s: [u8; 4] = [0x12u8, 0x26u8, 0x1eu8, 0xe7u8];
        assert(s@ =~= Self::selector_bytes());
        s
    }

    /// Writes the call: the selector, then the parameters.
    pub fn encode(&self) -> (out: Vec<u8>)
        ensures
            out@ == self.encoding(),
    {
        let s = Self::selector();
        let mut out: Vec<u8> = Vec::new();
        push_slice(&mut out, s.as_slice());
        assert(out@ =~= self.encoding());
        out
    }

    /// Reads the call from `data`.
    pub fn decode(data: &[u8]) -> (res: Result<Permit2Call, AbiError>)
        ensures
            res == Self::decoding(data@),
    {
        let s = Self::selector();
        if !starts_with_selector(data, &s) {
            return Err(AbiError::WrongSelector);
        }
        Ok(Permit2Call)
    }

    /// Reading what was written gives the call back.
    pub proof fn lemma_round_trip(self)
        ensures
            Self::decoding(self.encoding()) == Ok::<Permit2Call, AbiError>(self),
    {
        let d = self.encoding();
        assert(d.subrange(0, 4) =~= Self::selector_bytes());
    }
}

/// The input of the `setProtocolFeeController` function.
#[derive(Clone, Copy, Debug, PartialEq, Eq, Hash)]
pub struct SetProtocolFeeControllerCall {
    pub new_fee_controller: Address,
}

impl SetProtocolFeeControllerCall {
    /// The selector `0x2d771389`: the first four bytes of the Keccak-256
    /// digest of `setProtocolFeeController(address)`.
    pub open spec fn selector_bytes() -> Seq<u8> {
        seq![0x2du8, 0x77u8, 0x13u8, 0x89u8]
    }

    /// The words of the parameters.
    pub open spec fn params(self) -> Seq<u8> {
        address_word(self.new_fee_controller)
    }

    /// The selector, then the words of the parameters.
    pub open spec fn encoding(self) -> Seq<u8> {
        Self::selector_bytes() + self.params()
    }

    /// What `data` is read as: the call, if the data starts with the
    /// selector and holds a word for each parameter, whatever follows them
    /// and whatever stands before an address in its word.
    pub open spec fn decoding(data: Seq<u8>) -> Result<SetProtocolFeeControllerCall, AbiError> {
        if !has_selector(data, Self::selector_bytes()) {
            Err(AbiError::WrongSelector)
        } else if data.len() < 36 {
            Err(AbiError::InvalidData)
        } else {
            Ok(
                SetProtocolFeeControllerCall {
                    new_fee_controller: address_at(data, 4),
                },
            )
        }
    }

    /// The selector.
    pub fn selector() -> (s: [u8; 4])
        ensures
            s@ == Self::selector_bytes(),
    {
        let s: [u8; 4] = [0x2du8, 0x77u8, 0x13u8, 0x89u8];
        assert(s@ =~= Self::selector_bytes());
        s
    }

    /// Writes the call: the selector, then the parameters.
    pub fn encode(&self) -> (out: Vec<u8>)
        ensures
            out@ == self.encoding(),
    {
        let s = Self::selector();
        let mut out: Vec<u8> = Vec::new();
        push_slice(&mut out, s.as_slice());
        push_address(&mut out, &self.new_fee_controller);
        assert(out@ =~= self.encoding());
        out
    }

    /// Reads the call from `data`.
    pub fn decode(data: &[u8]) -> (res: Result<SetProtocolFeeControllerCall, AbiError>)
        ensures
            res == Self::decoding(data@),
    {
        let s = Self::selector();
        if !starts_with_selector(data, &s) {
            return Err(AbiError::WrongSelector);
        }
        if data.len() < 36 {
            return Err(AbiError::InvalidData);
        }
        Ok(
            SetProtocolFeeControllerCall {
                new_fee_controller: read_address(data, 4),
            },
        )
    }

    /// Reading what was written gives the call back.
    pub proof fn lemma_round_trip(self)
        ensures
            Self::decoding(self.encoding()) == Ok::<SetProtocolFeeControllerCall, AbiError>(self),
    {
        let d = self.encoding();
        assert(d.subrange(0, 4) =~= Self::selector_bytes());
        assert(d.subrange(16, 36) =~= self.new_fee_controller@);
        assert(address_at(d, 4).bytes@ == self.new_fee_controller.bytes@);
        assert(address_at(d, 4).bytes == self.new_fee_controller.bytes);
    }
}

/// The input of the `transferOwnership` function.
#[derive(Clone, Copy, Debug, PartialEq, Eq, Hash)]
pub struct TransferOwnershipCall {
    pub new_owner: Address,
}

impl TransferOwnershipCall {
    /// The selector `0xf2fde38b`: the first four bytes of the Keccak-256
    /// digest of `transferOwnership(address)`.
    pub open spec fn selector_bytes() -> Seq<u8> {
        seq![0xf2u8, 0xfdu8, 0xe3u8, 0x8bu8]
    }

    /// The words of the parameters.
    pub open spec fn params(self) -> Seq<u8> {
        address_word(self.new_owner)
    }

    /// The selector, then the words of the parameters.
    pub open spec fn encoding(self) -> Seq<u8> {
        Self::selector_bytes() + self.params()
    }

    /// What `data` is read as: the call, if the data starts with the
    /// selector and holds a word for each parameter, whatever follows them
    /// and whatever stands before an address in its word.
    pub open spec fn decoding(data: Seq<u8>) -> Result<TransferOwnershipCall, AbiError> {
        if !has_selector(data, Self::selector_bytes()) {
            Err(AbiError::WrongSelector)
        } else if data.len() < 36 {
            Err(AbiError::InvalidData)
        } else {
            Ok(
                TransferOwnershipCall {
                    new_owner: address_at(data, 4),
                },
            )
        }
    }

    /// The selector.
    pub fn selector() -> (s: [u8; 4])
        ensures
            s@ == Self::selector_bytes(),
    {
        let s: [u8; 4] = [0xf2u8, 0xfdu8, 0xe3u8, 0x8bu8];
        assert(s@ =~= Self::selector_bytes());
        s
    }

    /// Writes the call: the selector, then the parameters.
    pub fn encode(&self) -> (out: Vec<u8>)
        ensures
            out@ == self.encoding(),
    {
        let s = Self::selector();
        let mut out: Vec<u8> = Vec::new();
        push_slice(&mut out, s.as_slice());
        push_address(&mut out, &self.new_owner);
        assert(out@ =~= self.encoding());
        out
    }

    /// Reads the call from `data`.
    pub fn decode(data: &[u8]) -> (res: Result<TransferOwnershipCall, AbiError>)
        ensures
            res == Self::decoding(data@),
    {
        let s = Self::selector();
        if !starts_with_selector(data, &s) {
            return Err(AbiError::WrongSelector);
        }
        if data.len() < 36 {
            return Err(AbiError::InvalidData);
        }
        Ok(
            TransferOwnershipCall {
                new_owner: read_address(data, 4),
            },
        )
    }

    /// Reading what was written gives the call back.
    pub proof fn lemma_round_trip(self)
        ensures
            Self::decoding(self.encoding()) == Ok::<TransferOwnershipCall, AbiError>(self),
    {
        let d = self.encoding();
        assert(d.subrange(0, 4) =~= Self::selector_bytes());
        assert(d.subrange(16, 36) =~= self.new_owner@);
        assert(address_at(d, 4).bytes@ == self.new_owner.bytes@);
        assert(address_at(d, 4).bytes == self.new_owner.bytes);
    }
}

/// A call of one of the contract's functions.
#[derive(Debug, PartialEq, Eq)]
pub enum BaseReactorCalls {
    DirectFill(DirectFillCall),
    Execute(ExecuteCall),
    ExecuteBatch(ExecuteBatchCall),
    FeeController(FeeControllerCall),
    Owner(OwnerCall),
    Permit2(Permit2Call),
    SetProtocolFeeController(SetProtocolFeeControllerCall),
    TransferOwnership(TransferOwnershipCall),
}

/// The mathematical value of a `BaseReactorCalls`.
pub enum BaseReactorCallsView {
    DirectFill(DirectFillCall),
    Execute(ExecuteCallView),
    ExecuteBatch(ExecuteBatchCallView),
    FeeController(FeeControllerCall),
    Owner(OwnerCall),
    Permit2(Permit2Call),
    SetProtocolFeeController(SetProtocolFeeControllerCall),
    TransferOwnership(TransferOwnershipCall),
}

impl View for BaseReactorCalls {
    type V = BaseReactorCallsView;

    open spec fn view(&self) -> BaseReactorCallsView {
        match self {
            BaseReactorCalls::DirectFill(element) => BaseReactorCallsView::DirectFill(*element),
            BaseReactorCalls::Execute(element) => BaseReactorCallsView::Execute(element@),
            BaseReactorCalls::ExecuteBatch(element) => BaseReactorCallsView::ExecuteBatch(element@),
            BaseReactorCalls::FeeController(element) => BaseReactorCallsView::FeeController(*element),
            BaseReactorCalls::Owner(element) => BaseReactorCallsView::Owner(*element),
            BaseReactorCalls::Permit2(element) => BaseReactorCallsView::Permit2(*element),
            BaseReactorCalls::SetProtocolFeeController(element) => BaseReactorCallsView::SetProtocolFeeController(*element),
            BaseReactorCalls::TransferOwnership(element) => BaseReactorCallsView::TransferOwnership(*element),
        }
    }
}

impl BaseReactorCalls {
    /// The encoding of the call that it holds.
    pub open spec fn encoding(call: BaseReactorCallsView) -> Seq<u8> {
        match call {
            BaseReactorCallsView::DirectFill(element) => element.encoding(),
            BaseReactorCallsView::Execute(element) => ExecuteCall::encoding(element),
            BaseReactorCallsView::ExecuteBatch(element) => ExecuteBatchCall::encoding(element),
            BaseReactorCallsView::FeeController(element) => element.encoding(),
            BaseReactorCallsView::Owner(element) => element.encoding(),
            BaseReactorCallsView::Permit2(element) => element.encoding(),
            BaseReactorCallsView::SetProtocolFeeController(element) => element.encoding(),
            BaseReactorCallsView::TransferOwnership(element) => element.encoding(),
        }
    }

    /// The number of bytes in the encoded parameters of the call.
    pub open spec fn params_size(call: BaseReactorCallsView) -> nat {
        match call {
            BaseReactorCallsView::DirectFill(element) => element.params().len(),
            BaseReactorCallsView::Execute(element) => execute_params_size(element),
            BaseReactorCallsView::ExecuteBatch(element) => execute_batch_params_size(element),
            BaseReactorCallsView::FeeController(element) => element.params().len(),
            BaseReactorCallsView::Owner(element) => element.params().len(),
            BaseReactorCallsView::Permit2(element) => element.params().len(),
            BaseReactorCallsView::SetProtocolFeeController(element) => element.params().len(),
            BaseReactorCallsView::TransferOwnership(element) => element.params().len(),
        }
    }

    /// What `data` is read as, given the parameters that were read behind
    /// the selectors of `execute` and `executeBatch`: the first call of the
    /// list, in the order of the variants, that the data can be read as.
    pub open spec fn decoding_with(
        data: Seq<u8>,
        execute: Option<ExecuteCallView>,
        batch: Option<ExecuteBatchCallView>,
    ) -> Result<BaseReactorCallsView, AbiError> {
        match DirectFillCall::decoding(data) {
            Ok(element) => Ok(BaseReactorCallsView::DirectFill(element)),
            Err(_) => 
            match ExecuteCall::decoding_with(data, execute) {
                Ok(element) => Ok(BaseReactorCallsView::Execute(element)),
                Err(_) => 
                match ExecuteBatchCall::decoding_with(data, batch) {
                    Ok(element) => Ok(BaseReactorCallsView::ExecuteBatch(element)),
                    Err(_) => 
                    match FeeControllerCall::decoding(data) {
                        Ok(element) => Ok(BaseReactorCallsView::FeeController(element)),
                        Err(_) => 
                        match OwnerCall::decoding(data) {
                            Ok(element) => Ok(BaseReactorCallsView::Owner(element)),
                            Err(_) => 
                            match Permit2Call::decoding(data) {
                                Ok(element) => Ok(BaseReactorCallsView::Permit2(element)),
                                Err(_) => 
                                match SetProtocolFeeControllerCall::decoding(data) {
                                    Ok(element) => Ok(BaseReactorCallsView::SetProtocolFeeController(element)),
                                    Err(_) => 
                                    match TransferOwnershipCall::decoding(data) {
                                        Ok(element) => Ok(BaseReactorCallsView::TransferOwnership(element)),
                                        Err(_) => 
                                        Err(AbiError::InvalidData),
                                    },
                                },
                            },
                        },
                    },
                },
            },
        }
    }

    /// What `data` is read as: the first call of the list, in the order of
    /// the variants, that the data can be read as.
    pub open spec fn decoding(data: Seq<u8>) -> Result<BaseReactorCallsView, AbiError> {
        Self::decoding_with(data, execute_params_of(data), execute_batch_params_of(data))
    }

    /// Reads a call from `data`.
    pub fn decode(data: &[u8]) -> (res: Result<BaseReactorCalls, AbiError>)
        ensures
            match res {
                Ok(call) => Self::decoding(data@) == Ok::<BaseReactorCallsView, AbiError>(call@),
                Err(e) => Self::decoding(data@) == Err::<BaseReactorCallsView, AbiError>(e),
            },
    {
        Self::decode_with(
            data,
            ExecuteCall::read_params(data),
            ExecuteBatchCall::read_params(data),
        )
    }

    /// Reads a call from `data`, given the parameters that were read behind
    /// the selectors of `execute` and `executeBatch`.
    pub fn decode_with(
        data: &[u8],
        execute: Option<ExecuteCall>,
        batch: Option<ExecuteBatchCall>,
    ) -> (res: Result<BaseReactorCalls, AbiError>)
        ensures
            match res {
                Ok(call) => Self::decoding_with(
                    data@,
                    execute_view(execute),
                    execute_batch_view(batch),
                ) == Ok::<BaseReactorCallsView, AbiError>(call@),
                Err(e) => Self::decoding_with(
                    data@,
                    execute_view(execute),
                    execute_batch_view(batch),
                ) == Err::<BaseReactorCallsView, AbiError>(e),
            },
    {
        if let Ok(element) = DirectFillCall::decode(data) {
            return Ok(BaseReactorCalls::DirectFill(element));
        }
        if let Ok(element) = ExecuteCall::decode_with(data, execute) {
            return Ok(BaseReactorCalls::Execute(element));
        }
        if let Ok(element) = ExecuteBatchCall::decode_with(data, batch) {
            return Ok(BaseReactorCalls::ExecuteBatch(element));
        }
        if let Ok(element) = FeeControllerCall::decode(data) {
            return Ok(BaseReactorCalls::FeeController(element));
        }
        if let Ok(element) = OwnerCall::decode(data) {
            return Ok(BaseReactorCalls::Owner(element));
        }
        if let Ok(element) = Permit2Call::decode(data) {
            return Ok(BaseReactorCalls::Permit2(element));
        }
        if let Ok(element) = SetProtocolFeeControllerCall::decode(data) {
            return Ok(BaseReactorCalls::SetProtocolFeeController(element));
        }
        if let Ok(element) = TransferOwnershipCall::decode(data) {
            return Ok(BaseReactorCalls::TransferOwnership(element));
        }
        Err(AbiError::InvalidData)
    }

    /// Writes the call that it holds.
    pub fn encode(self) -> (out: Vec<u8>)
        requires
            Self::params_size(self@) <= usize::MAX,
        ensures
            out@ == Self::encoding(self@),
    {
        match self {
            BaseReactorCalls::DirectFill(element) => element.encode(),
            BaseReactorCalls::Execute(element) => element.encode(),
            BaseReactorCalls::ExecuteBatch(element) => element.encode(),
            BaseReactorCalls::FeeController(element) => element.encode(),
            BaseReactorCalls::Owner(element) => element.encode(),
            BaseReactorCalls::Permit2(element) => element.encode(),
            BaseReactorCalls::SetProtocolFeeController(element) => element.encode(),
            BaseReactorCalls::TransferOwnership(element) => element.encode(),
        }
    }
}

impl From<DirectFillCall> for BaseReactorCalls {
    fn from(value: DirectFillCall) -> (res: Self) {
        BaseReactorCalls::DirectFill(value)
    }
}

impl FromSpecImpl<DirectFillCall> for BaseReactorCalls {
    open spec fn obeys_from_spec() -> bool {
        true
    }

    open spec fn from_spec(value: DirectFillCall) -> Self {
        BaseReactorCalls::DirectFill(value)
    }
}

impl From<ExecuteCall> for BaseReactorCalls {
    fn from(value: ExecuteCall) -> (res: Self) {
        BaseReactorCalls::Execute(value)
    }
}

impl FromSpecImpl<ExecuteCall> for BaseReactorCalls {
    open spec fn obeys_from_spec() -> bool {
        true
    }

    open spec fn from_spec(value: ExecuteCall) -> Self {
        BaseReactorCalls::Execute(value)
    }
}

impl From<ExecuteBatchCall> for BaseReactorCalls {
    fn from(value: ExecuteBatchCall) -> (res: Self) {
        BaseReactorCalls::ExecuteBatch(value)
    }
}

impl FromSpecImpl<ExecuteBatchCall> for BaseReactorCalls {
    open spec fn obeys_from_spec() -> bool {
        true
    }

    open spec fn from_spec(value: ExecuteBatchCall) -> Self {
        BaseReactorCalls::ExecuteBatch(value)
    }
}

impl From<FeeControllerCall> for BaseReactorCalls {
    fn from(value: FeeControllerCall) -> (res: Self) {
        BaseReactorCalls::FeeController(value)
    }
}

impl FromSpecImpl<FeeControllerCall> for BaseReactorCalls {
    open spec fn obeys_from_spec() -> bool {
        true
    }

    open spec fn from_spec(value: FeeControllerCall) -> Self {
        BaseReactorCalls::FeeController(value)
    }
}

impl From<OwnerCall> for BaseReactorCalls {
    fn from(value: OwnerCall) -> (res: Self) {
        BaseReactorCalls::Owner(value)
    }
}

impl FromSpecImpl<OwnerCall> for BaseReactorCalls {
    open spec fn obeys_from_spec() -> bool {
        true
    }

    open spec fn from_spec(value: OwnerCall) -> Self {
        BaseReactorCalls::Owner(value)
    }
}

impl From<Permit2Call> for BaseReactorCalls {
    fn from(value: Permit2Call) -> (res: Self) {
        BaseReactorCalls::Permit2(value)
    }
}

impl FromSpecImpl<Permit2Call> for BaseReactorCalls {
    open spec fn obeys_from_spec() -> bool {
        true
    }

    open spec fn from_spec(value: Permit2Call) -> Self {
        BaseReactorCalls::Permit2(value)
    }
}

impl From<SetProtocolFeeControllerCall> for BaseReactorCalls {
    fn from(value: SetProtocolFeeControllerCall) -> (res: Self) {
        BaseReactorCalls::SetProtocolFeeController(value)
    }
}

impl FromSpecImpl<SetProtocolFeeControllerCall> for BaseReactorCalls {
    open spec fn obeys_from_spec() -> bool {
        true
    }

    open spec fn from_spec(value: SetProtocolFeeControllerCall) -> Self {
        BaseReactorCalls::SetProtocolFeeController(value)
    }
}

impl From<TransferOwnershipCall> for BaseReactorCalls {
    fn from(value: TransferOwnershipCall) -> (res: Self) {
        BaseReactorCalls::TransferOwnership(value)
    }
}

impl FromSpecImpl<TransferOwnershipCall> for BaseReactorCalls {
    open spec fn obeys_from_spec() -> bool {
        true
    }

    open spec fn from_spec(value: TransferOwnershipCall) -> Self {
        BaseReactorCalls::TransferOwnership(value)
    }
}

/// What the `DIRECT_FILL` function returns.
#[derive(Clone, Copy, Debug, PartialEq, Eq, Hash)]
pub struct DirectFillReturn(pub Address);

/// What the `feeController` function returns.
#[derive(Clone, Copy, Debug, PartialEq, Eq, Hash)]
pub struct FeeControllerReturn(pub Address);

/// What the `owner` function returns.
#[derive(Clone, Copy, Debug, PartialEq, Eq, Hash)]
pub struct OwnerReturn(pub Address);

/// What the `permit2` function returns.
#[derive(Clone, Copy, Debug, PartialEq, Eq, Hash)]
pub struct Permit2Return(pub Address);

} // verus!
