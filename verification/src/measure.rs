//! Measurements: numbers that are compared and printed, never computed with.

use vstd::prelude::*;

verus! {

/// A double as what is read of one: the bits it is compared by and the text it
/// prints as.
#[derive(Debug, Clone, PartialEq, Eq)]
pub struct Measure {
    pub bits: u64,
    pub text: String,
}

/// Whether bits stand for no number at all.
pub open spec fn is_nan(bits: u64) -> bool {
    bits % 0x8000_0000_0000_0000 > 0x7ff0_0000_0000_0000
}

/// Whether two doubles compare equal: the same bits, or a zero of either sign
/// on both sides, and a number on both sides.
pub open spec fn equal_bits(a: u64, b: u64) -> bool {
    !is_nan(a) && !is_nan(b) && (a == b || (a % 0x8000_0000_0000_0000 == 0 && b
        % 0x8000_0000_0000_0000 == 0))
}

impl Measure {
    /// Zero, printed `0`.
    pub fn zero() -> (r: Measure)
        ensures
            r.bits == 0,
            r.text@ == "0"@,
    {
        Measure { bits: 0, text: "0".to_owned() }
    }

    /// The same measurement again.
    pub fn copied(&self) -> (r: Measure)
        ensures
            r.bits == self.bits,
            r.text@ == self.text@,
    {
        Measure { bits: self.bits, text: self.text.clone() }
    }

    /// Whether two measurements compare equal.
    pub fn same(&self, other: &Measure) -> (r: bool)
        ensures
            r == equal_bits(self.bits, other.bits),
    {
        let a: u64 = self.bits % 0x8000_0000_0000_0000;
        let b: u64 = other.bits % 0x8000_0000_0000_0000;
        a <= 0x7ff0_0000_0000_0000 && b <= 0x7ff0_0000_0000_0000 && (self.bits == other.bits || (a
            == 0 && b == 0))
    }
}

/// A measurement that is a number compares equal to itself, and comparing has
/// no side to it.
pub proof fn law_equality_of_measurements(a: u64, b: u64)
    ensures
        equal_bits(a, a) <==> !is_nan(a),
        equal_bits(a, b) == equal_bits(b, a),
{
}

} // verus!
