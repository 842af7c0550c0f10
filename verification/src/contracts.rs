//! The order types of the reactor contracts, with their canonical encoding
//! and their structured hash.

pub mod common;
pub mod dutch;
pub mod exclusive_dutch;
pub mod limit;
