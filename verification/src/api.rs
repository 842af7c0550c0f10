//! The feed of orders: the interface of a feed, and the feed of the Uniswap
//! order service.

pub mod client;
pub mod uniswap;
