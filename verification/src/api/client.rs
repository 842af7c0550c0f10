//! The interface of a feed of orders.

use vstd::prelude::*;

verus! {

/// A feed of values of type `T`. An implementation asks an endpoint; what
/// it answers is not known in advance.
pub trait Client<T> {
    /// Why the feed did not answer.
    type ClientError;

    /// As many open orders as the endpoint gives.
    fn firehose(&self) -> Result<Vec<T>, Self::ClientError>;
}

} // verus!
