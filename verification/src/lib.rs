//! Order model, validation outcomes, order cache and subscription logic for
//! UniswapX orders.
//!
//! The library is for targets whose `usize` has 64 bits: the decoders of
//! `ethers` that it calls add offsets and lengths of up to 32 bits each in
//! `usize`.

pub mod abi;
pub mod api;
pub mod bindings;
pub mod cache;
pub mod contracts;
pub mod eip712;
pub mod hex;
pub mod lists;
pub mod order;
pub mod primitives;
pub mod subscriber;
pub mod validation;
