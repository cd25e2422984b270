//! Copying the provider's snapshots.

use vstd::prelude::*;

verus! {

/// An explicit copy of a value; each impl states what the copy keeps.
pub trait Clone_: Sized {
    fn clone(&self) -> Self;
}

} // verus!
