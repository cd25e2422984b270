//! What can end a run, or fail one of its requests.

use vstd::prelude::*;

verus! {

#[derive(Debug, PartialEq, Eq)]
pub enum Error {
    /// Neither an API token nor an API key with its email was given.
    Configuration,
    /// Neither an IPv4 nor an IPv6 public address could be found.
    NoPublicAddress,
    /// The provider refused a request or answered it with a malformed payload.
    Provider(String),
}

} // verus!
