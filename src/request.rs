//! Fetching a resource over the network, as a capability that callers provide.

use vstd::prelude::*;

verus! {

/// A failed request.
#[derive(Debug)]
pub enum RequestError {
    /// No usable response came back.
    ResponseError,
}

/// Fetches the body of the resource at an address. The network decides the outcome, so
/// the trait promises nothing about it.
pub trait Requester {
    /// The body of the resource at `address`.
    fn get(&self, address: &str) -> Result<String, RequestError>;
}

/// A requester that uses the internet.
pub struct InternetRequester {}

} // verus!
