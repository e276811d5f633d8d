//! Real numbers that the protocol carries and the scheduler never computes with.

use vstd::prelude::*;

verus! {

/// An IEEE 754 double, by its bit pattern.
#[derive(Clone, Copy, Debug, PartialEq, Eq, Structural)]
pub struct Double {
    pub bits: u64,
}

/// An IEEE 754 single, by its bit pattern.
#[derive(Clone, Copy, Debug, PartialEq, Eq, Structural)]
pub struct Single {
    pub bits: u32,
}

} // verus!
