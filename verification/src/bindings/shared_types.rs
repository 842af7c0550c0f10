//! What the contract bindings share: a call to a contract, a filter for its
//! events, a log, and the selector that call data starts with.

use vstd::prelude::*;
use crate::primitives::{bytes_eq, Address, B256};

verus! {

broadcast use vstd::array::group_array_axioms;

/// A contract with some of its function selectors.
#[derive(Clone, Debug, PartialEq, Eq, Hash)]
pub struct FuzzSelector {
    pub addr: Address,
    pub selectors: Vec<[u8; 4]>,
}

/// A call to a contract: the contract's address and the call data.
#[derive(Debug, PartialEq, Eq)]
pub struct ContractCall {
    pub to: Address,
    pub data: Vec<u8>,
}

/// A filter for the logs of events: the emitting contract, if it is to be
/// a given one, and the first topic, if it is to be a given one.
#[derive(Clone, Copy, Debug, PartialEq, Eq)]
pub struct EventFilter {
    pub address: Option<Address>,
    pub topic0: Option<B256>,
}

/// A log as a contract emitted it.
#[derive(Debug, PartialEq, Eq)]
pub struct RawLog {
    pub topics: Vec<B256>,
    pub data: Vec<u8>,
}

/// Why bytes were not read as a call, an error or an event.
#[derive(Clone, Copy, Debug, PartialEq, Eq, Structural)]
pub enum AbiError {
    /// The data does not start with the selector.
    WrongSelector,
    /// The data does not hold what the type needs.
    InvalidData,
}

/// Whether `data` starts with the four bytes of `selector`.
pub open spec fn has_selector(data: Seq<u8>, selector: Seq<u8>) -> bool {
    data.len() >= 4 && data.subrange(0, 4) == selector
}

/// Whether `data` starts with `selector`.
pub fn starts_with_selector(data: &[u8], selector: &[u8; 4]) -> (res: bool)
    ensures
        res == has_selector(data@, selector@),
{
    if data.len() < 4 {
        return false;
    }
    let head = vstd::slice::slice_subrange(data, 0, 4);
    bytes_eq(head, selector.as_slice())
}

} // verus!
