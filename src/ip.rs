//! The public addresses that a run works from.

use vstd::prelude::*;
use crate::error::Error;

verus! {

/// Accepts the public addresses found for the two families: a run needs at
/// least one of them.
pub fn check_addresses(ipv4: Option<u32>, ipv6: Option<u128>) -> (r: Result<
    (Option<u32>, Option<u128>),
    Error,
>)
    ensures
        ipv4 is None && ipv6 is None ==> r == Err::<(Option<u32>, Option<u128>), Error>(
            Error::NoPublicAddress,
        ),
        ipv4 is Some || ipv6 is Some ==> r == Ok::<(Option<u32>, Option<u128>), Error>(
            (ipv4, ipv6),
        ),
{
    if ipv4.is_none() && ipv6.is_none() {
        Err(Error::NoPublicAddress)
    } else {
        Ok((ipv4, ipv6))
    }
}

} // verus!
