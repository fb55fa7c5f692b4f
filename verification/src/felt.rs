//! Field elements, the values that hashes, addresses and event keys are made of.

use vstd::prelude::*;

verus! {

/// A field element, the number `high * 2^128 + low`.
#[derive(Clone, Copy, Debug, PartialEq, Eq, Structural)]
pub struct Felt {
    pub high: u128,
    pub low: u128,
}

} // verus!
