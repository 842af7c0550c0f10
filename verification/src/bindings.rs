//! Typed access to the reactor contracts: the calls they take, the errors
//! they revert with and the events they emit, each with its encoding.

pub mod base_reactor;
pub mod i_reactor;
pub mod shared_types;
pub mod std_invariant;
