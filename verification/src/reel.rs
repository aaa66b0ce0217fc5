//! Real-valued quantities, carried through the engine without being computed on.

use vstd::prelude::*;

verus! {

/// A binary64 number held as its IEEE-754 bit pattern.
///
/// The engine stores and copies such values; every arithmetic operation on them is
/// supplied by the caller. Two values compare equal when their bit patterns are the
/// same.
#[derive(Clone, Copy, Debug, PartialEq, Eq, Structural)]
pub struct Reel {
    pub bits: u64,
}

impl Reel {
    /// Wraps a bit pattern.
    pub fn from_bits(bits: u64) -> (r: Reel)
        ensures
            r.bits == bits,
    {
        Reel { bits }
    }

    /// The bit pattern.
    pub fn to_bits(&self) -> (b: u64)
        ensures
            b == self.bits,
    {
        self.bits
    }
}

} // verus!
