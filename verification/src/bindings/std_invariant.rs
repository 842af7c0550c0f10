//! The `StdInvariant` contract: the lists that an invariant test is set up
//! with.

use vstd::prelude::*;
use vstd::std_specs::convert::FromSpecImpl;
use crate::abi::push_slice;
use crate::bindings::shared_types::{
    has_selector, starts_with_selector, AbiError, ContractCall, FuzzSelector,
};
use crate::primitives::Address;

verus! {

broadcast use vstd::array::group_array_axioms;

/// The `StdInvariant` contract at an address.
#[derive(Clone, Copy, Debug, PartialEq, Eq)]
pub struct StdInvariant(pub Address);

impl StdInvariant {
    /// The contract at `address`.
    pub fn new(address: Address) -> (contract: StdInvariant)
        ensures
            contract.0 == address,
    {
        StdInvariant(address)
    }

    /// A call of the contract's `excludeArtifacts` function.
    pub fn exclude_artifacts(&self) -> (call: ContractCall)
        ensures
            call.to == self.0,
            call.data@ == (ExcludeArtifactsCall).encoding(),
    {
        ContractCall { to: self.0, data: (ExcludeArtifactsCall).encode() }
    }

    /// A call of the contract's `excludeContracts` function.
    pub fn exclude_contracts(&self) -> (call: ContractCall)
        ensures
            call.to == self.0,
            call.data@ == (ExcludeContractsCall).encoding(),
    {
        ContractCall { to: self.0, data: (ExcludeContractsCall).encode() }
    }

    /// A call of the contract's `excludeSenders` function.
    pub fn exclude_senders(&self) -> (call: ContractCall)
        ensures
            call.to == self.0,
            call.data@ == (ExcludeSendersCall).encoding(),
    {
        ContractCall { to: self.0, data: (ExcludeSendersCall).encode() }
    }

    /// A call of the contract's `targetArtifactSelectors` function.
    pub fn target_artifact_selectors(&self) -> (call: ContractCall)
        ensures
            call.to == self.0,
            call.data@ == (TargetArtifactSelectorsCall).encoding(),
    {
        ContractCall { to: self.0, data: (TargetArtifactSelectorsCall).encode() }
    }

    /// A call of the contract's `targetArtifacts` function.
    pub fn target_artifacts(&self) -> (call: ContractCall)
        ensures
            call.to == self.0,
            call.data@ == (TargetArtifactsCall).encoding(),
    {
        ContractCall { to: self.0, data: (TargetArtifactsCall).encode() }
    }

    /// A call of the contract's `targetContracts` function.
    pub fn target_contracts(&self) -> (call: ContractCall)
        ensures
            call.to == self.0,
            call.data@ == (TargetContractsCall).encoding(),
    {
        ContractCall { to: self.0, data: (TargetContractsCall).encode() }
    }

    /// A call of the contract's `targetSelectors` function.
    pub fn target_selectors(&self) -> (call: ContractCall)
        ensures
            call.to == self.0,
            call.data@ == (TargetSelectorsCall).encoding(),
    {
        ContractCall { to: self.0, data: (TargetSelectorsCall).encode() }
    }

    /// A call of the contract's `targetSenders` function.
    pub fn target_senders(&self) -> (call: ContractCall)
        ensures
            call.to == self.0,
            call.data@ == (TargetSendersCall).encoding(),
    {
        ContractCall { to: self.0, data: (TargetSendersCall).encode() }
    }

}

/// The input of the `excludeArtifacts` function: it takes none.
#[derive(Clone, Copy, Debug, PartialEq, Eq, Hash)]
pub struct ExcludeArtifactsCall;

impl ExcludeArtifactsCall {
    /// The selector `0xb5508aa9`: the first four bytes of the Keccak-256
    /// digest of `excludeArtifacts()`.
    pub open spec fn selector_bytes() -> Seq<u8> {
        seq![0xb5u8, 0x50u8, 0x8au8, 0xa9u8]
    }

    /// The words of the parameters.
    pub open spec fn params(self) -> Seq<u8> {
        Seq::empty()
    }

    /// The selector, then the words of the parameters.
    pub open spec fn encoding(self) -> Seq<u8> {
        Self::selector_bytes() + self.params()
    }

    /// What `data` is read as: the call, if the data starts with the
    /// selector, whatever follows it.
    pub open spec fn decoding(data: Seq<u8>) -> Result<ExcludeArtifactsCall, AbiError> {
        if !has_selector(data, Self::selector_bytes()) {
            Err(AbiError::WrongSelector)
        } else {
            Ok(ExcludeArtifactsCall)
        }
    }

    /// The selector.
    pub fn selector() -> (s: [u8; 4])
        ensures
            s@ == Self::selector_bytes(),
    {
        let s: [u8; 4] = [0xb5u8, 0x50u8, 0x8au8, 0xa9u8];
        assert(s@ =~= Self::selector_bytes());
        s
    }

    /// Writes the call: the selector, then the parameters.
    pub fn encode(&self) -> (out: Vec<u8>)
        ensures
            out@ == self.encoding(),
    {
        let s = Self::selector();
        let mut out: Vec<u8> = Vec::new();
        push_slice(&mut out, s.as_slice());
        assert(out@ =~= self.encoding());
        out
    }

    /// Reads the call from `data`.
    pub fn decode(data: &[u8]) -> (res: Result<ExcludeArtifactsCall, AbiError>)
        ensures
            res == Self::decoding(data@),
    {
        let s = Self::selector();
        if !starts_with_selector(data, &s) {
            return Err(AbiError::WrongSelector);
        }
        Ok(ExcludeArtifactsCall)
    }

    /// Reading what was written gives the call back.
    pub proof fn lemma_round_trip(self)
        ensures
            Self::decoding(self.encoding()) == Ok::<ExcludeArtifactsCall, AbiError>(self),
    {
        let d = self.encoding();
        assert(d.subrange(0, 4) =~= Self::selector_bytes());
    }
}

/// The input of the `excludeContracts` function: it takes none.
#[derive(Clone, Copy, Debug, PartialEq, Eq, Hash)]
pub struct ExcludeContractsCall;

impl ExcludeContractsCall {
    /// The selector `0xe20c9f71`: the first four bytes of the Keccak-256
    /// digest of `excludeContracts()`.
    pub open spec fn selector_bytes() -> Seq<u8> {
        seq![0xe2u8, 0x0cu8, 0x9fu8, 0x71u8]
    }

    /// The words of the parameters.
    pub open spec fn params(self) -> Seq<u8> {
        Seq::empty()
    }

    /// The selector, then the words of the parameters.
    pub open spec fn encoding(self) -> Seq<u8> {
        Self::selector_bytes() + self.params()
    }

    /// What `data` is read as: the call, if the data starts with the
    /// selector, whatever follows it.
    pub open spec fn decoding(data: Seq<u8>) -> Result<ExcludeContractsCall, AbiError> {
        if !has_selector(data, Self::selector_bytes()) {
            Err(AbiError::WrongSelector)
        } else {
            Ok(ExcludeContractsCall)
        }
    }

    /// The selector.
    pub fn selector() -> (s: [u8; 4])
        ensures
            s@ == Self::selector_bytes(),
    {
        let s: [u8; 4] = [0xe2u8, 0x0cu8, 0x9fu8, 0x71u8];
        assert(s@ =~= Self::selector_bytes());
        s
    }

    /// Writes the call: the selector, then the parameters.
    pub fn encode(&self) -> (out: Vec<u8>)
        ensures
            out@ == self.encoding(),
    {
        let s = Self::selector();
        let mut out: Vec<u8> = Vec::new();
        push_slice(&mut out, s.as_slice());
        assert(out@ =~= self.encoding());
        out
    }

    /// Reads the call from `data`.
    pub fn decode(data: &[u8]) -> (res: Result<ExcludeContractsCall, AbiError>)
        ensures
            res == Self::decoding(data@),
    {
        let s = Self::selector();
        if !starts_with_selector(data, &s) {
            return Err(AbiError::WrongSelector);
        }
        Ok(ExcludeContractsCall)
    }

    /// Reading what was written gives the call back.
    pub proof fn lemma_round_trip(self)
        ensures
            Self::decoding(self.encoding()) == Ok::<ExcludeContractsCall, AbiError>(self),
    {
        let d = self.encoding();
        assert(d.subrange(0, 4) =~= Self::selector_bytes());
    }
}

/// The input of the `excludeSenders` function: it takes none.
#[derive(Clone, Copy, Debug, PartialEq, Eq, Hash)]
pub struct ExcludeSendersCall;

impl ExcludeSendersCall {
    /// The selector `0x1ed7831c`: the first four bytes of the Keccak-256
    /// digest of `excludeSenders()`.
    pub open spec fn selector_bytes() -> Seq<u8> {
        seq![0x1eu8, 0xd7u8, 0x83u8, 0x1cu8]
    }

    /// The words of the parameters.
    pub open spec fn params(self) -> Seq<u8> {
        Seq::empty()
    }

    /// The selector, then the words of the parameters.
    pub open spec fn encoding(self) -> Seq<u8> {
        Self::selector_bytes() + self.params()
    }

    /// What `data` is read as: the call, if the data starts with the
    /// selector, whatever follows it.
    pub open spec fn decoding(data: Seq<u8>) -> Result<ExcludeSendersCall, AbiError> {
        if !has_selector(data, Self::selector_bytes()) {
            Err(AbiError::WrongSelector)
        } else {
            Ok(ExcludeSendersCall)
        }
    }

    /// The selector.
    pub fn selector() -> (s: [u8; 4])
        ensures
            s@ == Self::selector_bytes(),
    {
        let s: [u8; 4] = [0x1eu8, 0xd7u8, 0x83u8, 0x1cu8];
        assert(s@ =~= Self::selector_bytes());
        s
    }

    /// Writes the call: the selector, then the parameters.
    pub fn encode(&self) -> (out: Vec<u8>)
        ensures
            out@ == self.encoding(),
    {
        let s = Self::selector();
        let mut out: Vec<u8> = Vec::new();
        push_slice(&mut out, s.as_slice());
        assert(out@ =~= self.encoding());
        out
    }

    /// Reads the call from `data`.
    pub fn decode(data: &[u8]) -> (res: Result<ExcludeSendersCall, AbiError>)
        ensures
            res == Self::decoding(data@),
    {
        let s = Self::selector();
        if !starts_with_selector(data, &s) {
            return Err(AbiError::WrongSelector);
        }
        Ok(ExcludeSendersCall)
    }

    /// Reading what was written gives the call back.
    pub proof fn lemma_round_trip(self)
        ensures
            Self::decoding(self.encoding()) == Ok::<ExcludeSendersCall, AbiError>(self),
    {
        let d = self.encoding();
        assert(d.subrange(0, 4) =~= Self::selector_bytes());
    }
}

/// The input of the `targetArtifactSelectors` function: it takes none.
#[derive(Clone, Copy, Debug, PartialEq, Eq, Hash)]
pub struct TargetArtifactSelectorsCall;

impl TargetArtifactSelectorsCall {
    /// The selector `0x66d9a9a0`: the first four bytes of the Keccak-256
    /// digest of `targetArtifactSelectors()`.
    pub open spec fn selector_bytes() -> Seq<u8> {
        seq![0x66u8, 0xd9u8, 0xa9u8, 0xa0u8]
    }

    /// The words of the parameters.
    pub open spec fn params(self) -> Seq<u8> {
        Seq::empty()
    }

    /// The selector, then the words of the parameters.
    pub open spec fn encoding(self) -> Seq<u8> {
        Self::selector_bytes() + self.params()
    }

    /// What `data` is read as: the call, if the data starts with the
    /// selector, whatever follows it.
    pub open spec fn decoding(data: Seq<u8>) -> Result<TargetArtifactSelectorsCall, AbiError> {
        if !has_selector(data, Self::selector_bytes()) {
            Err(AbiError::WrongSelector)
        } else {
            Ok(TargetArtifactSelectorsCall)
        }
    }

    /// The selector.
    pub fn selector() -> (s: [u8; 4])
        ensures
            s@ == Self::selector_bytes(),
    {
        let s: [u8; 4] = [0x66u8, 0xd9u8, 0xa9u8, 0xa0u8];
        assert(s@ =~= Self::selector_bytes());
        s
    }

    /// Writes the call: the selector, then the parameters.
    pub fn encode(&self) -> (out: Vec<u8>)
        ensures
            out@ == self.encoding(),
    {
        let s = Self::selector();
        let mut out: Vec<u8> = Vec::new();
        push_slice(&mut out, s.as_slice());
        assert(out@ =~= self.encoding());
        out
    }

    /// Reads the call from `data`.
    pub fn decode(data: &[u8]) -> (res: Result<TargetArtifactSelectorsCall, AbiError>)
        ensures
            res == Self::decoding(data@),
    {
        let s = Self::selector();
        if !starts_with_selector(data, &s) {
            return Err(AbiError::WrongSelector);
        }
        Ok(TargetArtifactSelectorsCall)
    }

    /// Reading what was written gives the call back.
    pub proof fn lemma_round_trip(self)
        ensures
            Self::decoding(self.encoding()) == Ok::<TargetArtifactSelectorsCall, AbiError>(self),
    {
        let d = self.encoding();
        assert(d.subrange(0, 4) =~= Self::selector_bytes());
    }
}

/// The input of the `targetArtifacts` function: it takes none.
#[derive(Clone, Copy, Debug, PartialEq, Eq, Hash)]
pub struct TargetArtifactsCall;

impl TargetArtifactsCall {
    /// The selector `0x85226c81`: the first four bytes of the Keccak-256
    /// digest of `targetArtifacts()`.
    pub open spec fn selector_bytes() -> Seq<u8> {
        seq![0x85u8, 0x22u8, 0x6cu8, 0x81u8]
    }

    /// The words of the parameters.
    pub open spec fn params(self) -> Seq<u8> {
        Seq::empty()
    }

    /// The selector, then the words of the parameters.
    pub open spec fn encoding(self) -> Seq<u8> {
        Self::selector_bytes() + self.params()
    }

    /// What `data` is read as: the call, if the data starts with the
    /// selector, whatever follows it.
    pub open spec fn decoding(data: Seq<u8>) -> Result<TargetArtifactsCall, AbiError> {
        if !has_selector(data, Self::selector_bytes()) {
            Err(AbiError::WrongSelector)
        } else {
            Ok(TargetArtifactsCall)
        }
    }

    /// The selector.
    pub fn selector() -> (s: [u8; 4])
        ensures
            s@ == Self::selector_bytes(),
    {
        let s: [u8; 4] = [0x85u8, 0x22u8, 0x6cu8, 0x81u8];
        assert(s@ =~= Self::selector_bytes());
        s
    }

    /// Writes the call: the selector, then the parameters.
    pub fn encode(&self) -> (out: Vec<u8>)
        ensures
            out@ == self.encoding(),
    {
        let s = Self::selector();
        let mut out: Vec<u8> = Vec::new();
        push_slice(&mut out, s.as_slice());
        assert(out@ =~= self.encoding());
        out
    }

    /// Reads the call from `data`.
    pub fn decode(data: &[u8]) -> (res: Result<TargetArtifactsCall, AbiError>)
        ensures
            res == Self::decoding(data@),
    {
        let s = Self::selector();
        if !starts_with_selector(data, &s) {
            return Err(AbiError::WrongSelector);
        }
        Ok(TargetArtifactsCall)
    }

    /// Reading what was written gives the call back.
    pub proof fn lemma_round_trip(self)
        ensures
            Self::decoding(self.encoding()) == Ok::<TargetArtifactsCall, AbiError>(self),
    {
        let d = self.encoding();
        assert(d.subrange(0, 4) =~= Self::selector_bytes());
    }
}

/// The input of the `targetContracts` function: it takes none.
#[derive(Clone, Copy, Debug, PartialEq, Eq, Hash)]
pub struct TargetContractsCall;

impl TargetContractsCall {
    /// The selector `0x3f7286f4`: the first four bytes of the Keccak-256
    /// digest of `targetContracts()`.
    pub open spec fn selector_bytes() -> Seq<u8> {
        seq![0x3fu8, 0x72u8, 0x86u8, 0xf4u8]
    }

    /// The words of the parameters.
    pub open spec fn params(self) -> Seq<u8> {
        Seq::empty()
    }

    /// The selector, then the words of the parameters.
    pub open spec fn encoding(self) -> Seq<u8> {
        Self::selector_bytes() + self.params()
    }

    /// What `data` is read as: the call, if the data starts with the
    /// selector, whatever follows it.
    pub open spec fn decoding(data: Seq<u8>) -> Result<TargetContractsCall, AbiError> {
        if !has_selector(data, Self::selector_bytes()) {
            Err(AbiError::WrongSelector)
        } else {
            Ok(TargetContractsCall)
        }
    }

    /// The selector.
    pub fn selector() -> (s: [u8; 4])
        ensures
            s@ == Self::selector_bytes(),
    {
        let s: [u8; 4] = [0x3fu8, 0x72u8, 0x86u8, 0xf4u8];
        assert(s@ =~= Self::selector_bytes());
        s
    }

    /// Writes the call: the selector, then the parameters.
    pub fn encode(&self) -> (out: Vec<u8>)
        ensures
            out@ == self.encoding(),
    {
        let s = Self::selector();
        let mut out: Vec<u8> = Vec::new();
        push_slice(&mut out, s.as_slice());
        assert(out@ =~= self.encoding());
        out
    }

    /// Reads the call from `data`.
    pub fn decode(data: &[u8]) -> (res: Result<TargetContractsCall, AbiError>)
        ensures
            res == Self::decoding(data@),
    {
        let s = Self::selector();
        if !starts_with_selector(data, &s) {
            return Err(AbiError::WrongSelector);
        }
        Ok(TargetContractsCall)
    }

    /// Reading what was written gives the call back.
    pub proof fn lemma_round_trip(self)
        ensures
            Self::decoding(self.encoding()) == Ok::<TargetContractsCall, AbiError>(self),
    {
        let d = self.encoding();
        assert(d.subrange(0, 4) =~= Self::selector_bytes());
    }
}

/// The input of the `targetSelectors` function: it takes none.
#[derive(Clone, Copy, Debug, PartialEq, Eq, Hash)]
pub struct TargetSelectorsCall;

impl TargetSelectorsCall {
    /// The selector `0x916a17c6`: the first four bytes of the Keccak-256
    /// digest of `targetSelectors()`.
    pub open spec fn selector_bytes() -> Seq<u8> {
        seq![0x91u8, 0x6au8, 0x17u8, 0xc6u8]
    }

    /// The words of the parameters.
    pub open spec fn params(self) -> Seq<u8> {
        Seq::empty()
    }

    /// The selector, then the words of the parameters.
    pub open spec fn encoding(self) -> Seq<u8> {
        Self::selector_bytes() + self.params()
    }

    /// What `data` is read as: the call, if the data starts with the
    /// selector, whatever follows it.
    pub open spec fn decoding(data: Seq<u8>) -> Result<TargetSelectorsCall, AbiError> {
        if !has_selector(data, Self::selector_bytes()) {
            Err(AbiError::WrongSelector)
        } else {
            Ok(TargetSelectorsCall)
        }
    }

    /// The selector.
    pub fn selector() -> (s: [u8; 4])
        ensures
            s@ == Self::selector_bytes(),
    {
        let s: [u8; 4] = [0x91u8, 0x6au8, 0x17u8, 0xc6u8];
        assert(s@ =~= Self::selector_bytes());
        s
    }

    /// Writes the call: the selector, then the parameters.
    pub fn encode(&self) -> (out: Vec<u8>)
        ensures
            out@ == self.encoding(),
    {
        let s = Self::selector();
        let mut out: Vec<u8> = Vec::new();
        push_slice(&mut out, s.as_slice());
        assert(out@ =~= self.encoding());
        out
    }

    /// Reads the call from `data`.
    pub fn decode(data: &[u8]) -> (res: Result<TargetSelectorsCall, AbiError>)
        ensures
            res == Self::decoding(data@),
    {
        let s = Self::selector();
        if !starts_with_selector(data, &s) {
            return Err(AbiError::WrongSelector);
        }
        Ok(TargetSelectorsCall)
    }

    /// Reading what was written gives the call back.
    pub proof fn lemma_round_trip(self)
        ensures
            Self::decoding(self.encoding()) == Ok::<TargetSelectorsCall, AbiError>(self),
    {
        let d = self.encoding();
        assert(d.subrange(0, 4) =~= Self::selector_bytes());
    }
}

/// The input of the `targetSenders` function: it takes none.
#[derive(Clone, Copy, Debug, PartialEq, Eq, Hash)]
pub struct TargetSendersCall;

impl TargetSendersCall {
    /// The selector `0x3e5e3c23`: the first four bytes of the Keccak-256
    /// digest of `targetSenders()`.
    pub open spec fn selector_bytes() -> Seq<u8> {
        seq![0x3eu8, 0x5eu8, 0x3cu8, 0x23u8]
    }

    /// The words of the parameters.
    pub open spec fn params(self) -> Seq<u8> {
        Seq::empty()
    }

    /// The selector, then the words of the parameters.
    pub open spec fn encoding(self) -> Seq<u8> {
        Self::selector_bytes() + self.params()
    }

    /// What `data` is read as: the call, if the data starts with the
    /// selector, whatever follows it.
    pub open spec fn decoding(data: Seq<u8>) -> Result<TargetSendersCall, AbiError> {
        if !has_selector(data, Self::selector_bytes()) {
            Err(AbiError::WrongSelector)
        } else {
            Ok(TargetSendersCall)
        }
    }

    /// The selector.
    pub fn selector() -> (s: [u8; 4])
        ensures
            s@ == Self::selector_bytes(),
    {
        let s: [u8; 4] = [0x3eu8, 0x5eu8, 0x3cu8, 0x23u8];
        assert(s@ =~= Self::selector_bytes());
        s
    }

    /// Writes the call: the selector, then the parameters.
    pub fn encode(&self) -> (out: Vec<u8>)
        ensures
            out@ == self.encoding(),
    {
        let s = Self::selector();
        let mut out: Vec<u8> = Vec::new();
        push_slice(&mut out, s.as_slice());
        assert(out@ =~= self.encoding());
        out
    }

    /// Reads the call from `data`.
    pub fn decode(data: &[u8]) -> (res: Result<TargetSendersCall, AbiError>)
        ensures
            res == Self::decoding(data@),
    {
        let s = Self::selector();
        if !starts_with_selector(data, &s) {
            return Err(AbiError::WrongSelector);
        }
        Ok(TargetSendersCall)
    }

    /// Reading what was written gives the call back.
    pub proof fn lemma_round_trip(self)
        ensures
            Self::decoding(self.encoding()) == Ok::<TargetSendersCall, AbiError>(self),
    {
        let d = self.encoding();
        assert(d.subrange(0, 4) =~= Self::selector_bytes());
    }
}

/// A call of one of the contract's functions.
#[derive(Clone, Copy, Debug, PartialEq, Eq, Hash)]
pub enum StdInvariantCalls {
    ExcludeArtifacts(ExcludeArtifactsCall),
    ExcludeContracts(ExcludeContractsCall),
    ExcludeSenders(ExcludeSendersCall),
    TargetArtifactSelectors(TargetArtifactSelectorsCall),
    TargetArtifacts(TargetArtifactsCall),
    TargetContracts(TargetContractsCall),
    TargetSelectors(TargetSelectorsCall),
    TargetSenders(TargetSendersCall),
}

impl StdInvariantCalls {
    /// The encoding of the call that it holds.
    pub open spec fn encoding(self) -> Seq<u8> {
        match self {
            StdInvariantCalls::ExcludeArtifacts(element) => element.encoding(),
            StdInvariantCalls::ExcludeContracts(element) => element.encoding(),
            StdInvariantCalls::ExcludeSenders(element) => element.encoding(),
            StdInvariantCalls::TargetArtifactSelectors(element) => element.encoding(),
            StdInvariantCalls::TargetArtifacts(element) => element.encoding(),
            StdInvariantCalls::TargetContracts(element) => element.encoding(),
            StdInvariantCalls::TargetSelectors(element) => element.encoding(),
            StdInvariantCalls::TargetSenders(element) => element.encoding(),
        }
    }

    /// What `data` is read as: the first call of the list, in the
    /// order of the variants, that the data can be read as.
    pub open spec fn decoding(data: Seq<u8>) -> Result<StdInvariantCalls, AbiError> {
        match ExcludeArtifactsCall::decoding(data) {
            Ok(element) => Ok(StdInvariantCalls::ExcludeArtifacts(element)),
            Err(_) => 
            match ExcludeContractsCall::decoding(data) {
                Ok(element) => Ok(StdInvariantCalls::ExcludeContracts(element)),
                Err(_) => 
                match ExcludeSendersCall::decoding(data) {
                    Ok(element) => Ok(StdInvariantCalls::ExcludeSenders(element)),
                    Err(_) => 
                    match TargetArtifactSelectorsCall::decoding(data) {
                        Ok(element) => Ok(StdInvariantCalls::TargetArtifactSelectors(element)),
                        Err(_) => 
                        match TargetArtifactsCall::decoding(data) {
                            Ok(element) => Ok(StdInvariantCalls::TargetArtifacts(element)),
                            Err(_) => 
                            match TargetContractsCall::decoding(data) {
                                Ok(element) => Ok(StdInvariantCalls::TargetContracts(element)),
                                Err(_) => 
                                match TargetSelectorsCall::decoding(data) {
                                    Ok(element) => Ok(StdInvariantCalls::TargetSelectors(element)),
                                    Err(_) => 
                                    match TargetSendersCall::decoding(data) {
                                        Ok(element) => Ok(StdInvariantCalls::TargetSenders(element)),
                                        Err(_) => 
                                        Err(AbiError::InvalidData),
                                    },
                                },
                            },
                        },
                    },
                },
            },
        }
    }

    /// Reads a call from `data`.
    pub fn decode(data: &[u8]) -> (res: Result<StdInvariantCalls, AbiError>)
        ensures
            res == Self::decoding(data@),
    {
        if let Ok(element) = ExcludeArtifactsCall::decode(data) {
            return Ok(StdInvariantCalls::ExcludeArtifacts(element));
        }
        if let Ok(element) = ExcludeContractsCall::decode(data) {
            return Ok(StdInvariantCalls::ExcludeContracts(element));
        }
        if let Ok(element) = ExcludeSendersCall::decode(data) {
            return Ok(StdInvariantCalls::ExcludeSenders(element));
        }
        if let Ok(element) = TargetArtifactSelectorsCall::decode(data) {
            return Ok(StdInvariantCalls::TargetArtifactSelectors(element));
        }
        if let Ok(element) = TargetArtifactsCall::decode(data) {
            return Ok(StdInvariantCalls::TargetArtifacts(element));
        }
        if let Ok(element) = TargetContractsCall::decode(data) {
            return Ok(StdInvariantCalls::TargetContracts(element));
        }
        if let Ok(element) = TargetSelectorsCall::decode(data) {
            return Ok(StdInvariantCalls::TargetSelectors(element));
        }
        if let Ok(element) = TargetSendersCall::decode(data) {
            return Ok(StdInvariantCalls::TargetSenders(element));
        }
        Err(AbiError::InvalidData)
    }

    /// Writes the call that it holds.
    pub fn encode(self) -> (out: Vec<u8>)
        ensures
            out@ == self.encoding(),
    {
        match self {
            StdInvariantCalls::ExcludeArtifacts(element) => element.encode(),
            StdInvariantCalls::ExcludeContracts(element) => element.encode(),
            StdInvariantCalls::ExcludeSenders(element) => element.encode(),
            StdInvariantCalls::TargetArtifactSelectors(element) => element.encode(),
            StdInvariantCalls::TargetArtifacts(element) => element.encode(),
            StdInvariantCalls::TargetContracts(element) => element.encode(),
            StdInvariantCalls::TargetSelectors(element) => element.encode(),
            StdInvariantCalls::TargetSenders(element) => element.encode(),
        }
    }

    /// Reading what was written gives the call back: no two of the
    /// selectors are the same.
    pub proof fn lemma_round_trip(self)
        ensures
            Self::decoding(self.encoding()) == Ok::<StdInvariantCalls, AbiError>(self),
    {
        let d = self.encoding();
        match self {
            StdInvariantCalls::ExcludeArtifacts(element) => {
                element.lemma_round_trip();
                assert(d.subrange(0, 4) =~= ExcludeArtifactsCall::selector_bytes());
            },
            StdInvariantCalls::ExcludeContracts(element) => {
                element.lemma_round_trip();
                assert(d.subrange(0, 4) =~= ExcludeContractsCall::selector_bytes());
                assert(ExcludeArtifactsCall::selector_bytes()[0] != ExcludeContractsCall::selector_bytes()[0]);
            },
            StdInvariantCalls::ExcludeSenders(element) => {
                element.lemma_round_trip();
                assert(d.subrange(0, 4) =~= ExcludeSendersCall::selector_bytes());
                assert(ExcludeArtifactsCall::selector_bytes()[0] != ExcludeSendersCall::selector_bytes()[0]);
                assert(ExcludeContractsCall::selector_bytes()[0] != ExcludeSendersCall::selector_bytes()[0]);
            },
            StdInvariantCalls::TargetArtifactSelectors(element) => {
                element.lemma_round_trip();
                assert(d.subrange(0, 4) =~= TargetArtifactSelectorsCall::selector_bytes());
                assert(ExcludeArtifactsCall::selector_bytes()[0] != TargetArtifactSelectorsCall::selector_bytes()[0]);
                assert(ExcludeContractsCall::selector_bytes()[0] != TargetArtifactSelectorsCall::selector_bytes()[0]);
                assert(ExcludeSendersCall::selector_bytes()[0] != TargetArtifactSelectorsCall::selector_bytes()[0]);
            },
            StdInvariantCalls::TargetArtifacts(element) => {
                element.lemma_round_trip();
                assert(d.subrange(0, 4) =~= TargetArtifactsCall::selector_bytes());
                assert(ExcludeArtifactsCall::selector_bytes()[0] != TargetArtifactsCall::selector_bytes()[0]);
                assert(ExcludeContractsCall::selector_bytes()[0] != TargetArtifactsCall::selector_bytes()[0]);
                assert(ExcludeSendersCall::selector_bytes()[0] != TargetArtifactsCall::selector_bytes()[0]);
                assert(TargetArtifactSelectorsCall::selector_bytes()[0] != TargetArtifactsCall::selector_bytes()[0]);
            },
            StdInvariantCalls::TargetContracts(element) => {
                element.lemma_round_trip();
                assert(d.subrange(0, 4) =~= TargetContractsCall::selector_bytes());
                assert(ExcludeArtifactsCall::selector_bytes()[0] != TargetContractsCall::selector_bytes()[0]);
                assert(ExcludeContractsCall::selector_bytes()[0] != TargetContractsCall::selector_bytes()[0]);
                assert(ExcludeSendersCall::selector_bytes()[0] != TargetContractsCall::selector_bytes()[0]);
                assert(TargetArtifactSelectorsCall::selector_bytes()[0] != TargetContractsCall::selector_bytes()[0]);
                assert(TargetArtifactsCall::selector_bytes()[0] != TargetContractsCall::selector_bytes()[0]);
            },
            StdInvariantCalls::TargetSelectors(element) => {
                element.lemma_round_trip();
                assert(d.subrange(0, 4) =~= TargetSelectorsCall::selector_bytes());
                assert(ExcludeArtifactsCall::selector_bytes()[0] != TargetSelectorsCall::selector_bytes()[0]);
                assert(ExcludeContractsCall::selector_bytes()[0] != TargetSelectorsCall::selector_bytes()[0]);
                assert(ExcludeSendersCall::selector_bytes()[0] != TargetSelectorsCall::selector_bytes()[0]);
                assert(TargetArtifactSelectorsCall::selector_bytes()[0] != TargetSelectorsCall::selector_bytes()[0]);
                assert(TargetArtifactsCall::selector_bytes()[0] != TargetSelectorsCall::selector_bytes()[0]);
                assert(TargetContractsCall::selector_bytes()[0] != TargetSelectorsCall::selector_bytes()[0]);
            },
            StdInvariantCalls::TargetSenders(element) => {
                element.lemma_round_trip();
                assert(d.subrange(0, 4) =~= TargetSendersCall::selector_bytes());
                assert(ExcludeArtifactsCall::selector_bytes()[0] != TargetSendersCall::selector_bytes()[0]);
                assert(ExcludeContractsCall::selector_bytes()[0] != TargetSendersCall::selector_bytes()[0]);
                assert(ExcludeSendersCall::selector_bytes()[0] != TargetSendersCall::selector_bytes()[0]);
                assert(TargetArtifactSelectorsCall::selector_bytes()[0] != TargetSendersCall::selector_bytes()[0]);
                assert(TargetArtifactsCall::selector_bytes()[0] != TargetSendersCall::selector_bytes()[0]);
                assert(TargetContractsCall::selector_bytes()[0] != TargetSendersCall::selector_bytes()[0]);
                assert(TargetSelectorsCall::selector_bytes()[0] != TargetSendersCall::selector_bytes()[0]);
            },
        }
    }
}

impl From<ExcludeArtifactsCall> for StdInvariantCalls {
    fn from(value: ExcludeArtifactsCall) -> (res: Self) {
        StdInvariantCalls::ExcludeArtifacts(value)
    }
}

impl FromSpecImpl<ExcludeArtifactsCall> for StdInvariantCalls {
    open spec fn obeys_from_spec() -> bool {
        true
    }

    open spec fn from_spec(value: ExcludeArtifactsCall) -> Self {
        StdInvariantCalls::ExcludeArtifacts(value)
    }
}

impl From<ExcludeContractsCall> for StdInvariantCalls {
    fn from(value: ExcludeContractsCall) -> (res: Self) {
        StdInvariantCalls::ExcludeContracts(value)
    }
}

impl FromSpecImpl<ExcludeContractsCall> for StdInvariantCalls {
    open spec fn obeys_from_spec() -> bool {
        true
    }

    open spec fn from_spec(value: ExcludeContractsCall) -> Self {
        StdInvariantCalls::ExcludeContracts(value)
    }
}

impl From<ExcludeSendersCall> for StdInvariantCalls {
    fn from(value: ExcludeSendersCall) -> (res: Self) {
        StdInvariantCalls::ExcludeSenders(value)
    }
}

impl FromSpecImpl<ExcludeSendersCall> for StdInvariantCalls {
    open spec fn obeys_from_spec() -> bool {
        true
    }

    open spec fn from_spec(value: ExcludeSendersCall) -> Self {
        StdInvariantCalls::ExcludeSenders(value)
    }
}

impl From<TargetArtifactSelectorsCall> for StdInvariantCalls {
    fn from(value: TargetArtifactSelectorsCall) -> (res: Self) {
        StdInvariantCalls::TargetArtifactSelectors(value)
    }
}

impl FromSpecImpl<TargetArtifactSelectorsCall> for StdInvariantCalls {
    open spec fn obeys_from_spec() -> bool {
        true
    }

    open spec fn from_spec(value: TargetArtifactSelectorsCall) -> Self {
        StdInvariantCalls::TargetArtifactSelectors(value)
    }
}

impl From<TargetArtifactsCall> for StdInvariantCalls {
    fn from(value: TargetArtifactsCall) -> (res: Self) {
        StdInvariantCalls::TargetArtifacts(value)
    }
}

impl FromSpecImpl<TargetArtifactsCall> for StdInvariantCalls {
    open spec fn obeys_from_spec() -> bool {
        true
    }

    open spec fn from_spec(value: TargetArtifactsCall) -> Self {
        StdInvariantCalls::TargetArtifacts(value)
    }
}

impl From<TargetContractsCall> for StdInvariantCalls {
    fn from(value: TargetContractsCall) -> (res: Self) {
        StdInvariantCalls::TargetContracts(value)
    }
}

impl FromSpecImpl<TargetContractsCall> for StdInvariantCalls {
    open spec fn obeys_from_spec() -> bool {
        true
    }

    open spec fn from_spec(value: TargetContractsCall) -> Self {
        StdInvariantCalls::TargetContracts(value)
    }
}

impl From<TargetSelectorsCall> for StdInvariantCalls {
    fn from(value: TargetSelectorsCall) -> (res: Self) {
        StdInvariantCalls::TargetSelectors(value)
    }
}

impl FromSpecImpl<TargetSelectorsCall> for StdInvariantCalls {
    open spec fn obeys_from_spec() -> bool {
        true
    }

    open spec fn from_spec(value: TargetSelectorsCall) -> Self {
        StdInvariantCalls::TargetSelectors(value)
    }
}

impl From<TargetSendersCall> for StdInvariantCalls {
    fn from(value: TargetSendersCall) -> (res: Self) {
        StdInvariantCalls::TargetSenders(value)
    }
}

impl FromSpecImpl<TargetSendersCall> for StdInvariantCalls {
    open spec fn obeys_from_spec() -> bool {
        true
    }

    open spec fn from_spec(value: TargetSendersCall) -> Self {
        StdInvariantCalls::TargetSenders(value)
    }
}

/// What the `excludeArtifacts` function returns.
#[derive(Clone, Debug, PartialEq, Eq, Hash)]
pub struct ExcludeArtifactsReturn {
    pub excluded_artifacts: Vec<String>,
}

/// What the `excludeContracts` function returns.
#[derive(Clone, Debug, PartialEq, Eq, Hash)]
pub struct ExcludeContractsReturn {
    pub excluded_contracts: Vec<Address>,
}

/// What the `excludeSenders` function returns.
#[derive(Clone, Debug, PartialEq, Eq, Hash)]
pub struct ExcludeSendersReturn {
    pub excluded_senders: Vec<Address>,
}

/// What the `targetArtifactSelectors` function returns.
#[derive(Clone, Debug, PartialEq, Eq, Hash)]
pub struct TargetArtifactSelectorsReturn {
    pub targeted_artifact_selectors: Vec<FuzzSelector>,
}

/// What the `targetArtifacts` function returns.
#[derive(Clone, Debug, PartialEq, Eq, Hash)]
pub struct TargetArtifactsReturn {
    pub targeted_artifacts: Vec<String>,
}

/// What the `targetContracts` function returns.
#[derive(Clone, Debug, PartialEq, Eq, Hash)]
pub struct TargetContractsReturn {
    pub targeted_contracts: Vec<Address>,
}

/// What the `targetSelectors` function returns.
#[derive(Clone, Debug, PartialEq, Eq, Hash)]
pub struct TargetSelectorsReturn {
    pub targeted_selectors: Vec<FuzzSelector>,
}

/// What the `targetSenders` function returns.
#[derive(Clone, Debug, PartialEq, Eq, Hash)]
pub struct TargetSendersReturn {
    pub targeted_senders: Vec<Address>,
}

} // verus!
