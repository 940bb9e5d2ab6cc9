//! Numbers as the broker sends them, without rounding.
//!
//! - A volume is an `i64` in hundredths of the base asset unit.
//! - A spot price is a `u64` in hundred-thousandths.
//! - An amount of money is an integer with a decimal exponent, [`Money`].
//! - A price that the broker sends as a double is carried, bit for bit, as a
//!   [`Double`].

use vstd::prelude::*;

verus! {

/// A double-precision number of IEEE 754, by its bit pattern. It is carried
/// from one place to another; nothing is computed with it.
#[derive(Clone, Copy, Debug, PartialEq, Eq, Structural)]
pub struct Double {
    pub bits: u64,
}

impl Double {
    pub open spec fn spec_zero() -> Double {
        Double { bits: 0 }
    }

    /// Positive zero, whose bit pattern is all zeros.
    pub fn zero() -> (d: Double)
        ensures
            d == Double::spec_zero(),
    {
        Double { bits: 0 }
    }

    /// The eleven bits of the exponent.
    pub open spec fn exponent(self) -> u64 {
        self.bits / 0x10_0000_0000_0000 % 0x800
    }

    /// A number that is neither infinite nor undefined has an exponent that
    /// is not all ones.
    pub open spec fn finite(self) -> bool {
        self.exponent() != 0x7ff
    }

    /// Without the sign, the numbers are those below the bit pattern of
    /// infinity.
    pub proof fn law_finite(self)
        ensures
            self.finite() <==> self.bits % 0x8000_0000_0000_0000 < 0x7ff0_0000_0000_0000,
    {
        let bits = self.bits;
        assert((bits / 0x10_0000_0000_0000 % 0x800 != 0x7ff) <==> (bits % 0x8000_0000_0000_0000
            < 0x7ff0_0000_0000_0000)) by (bit_vector);
    }

    /// Whether the number is neither infinite nor undefined.
    pub fn is_finite(&self) -> (r: bool)
        ensures
            r == self.finite(),
    {
        self.bits / 0x10_0000_0000_0000 % 0x800 != 0x7ff
    }
}

/// An amount of money: `amount` divided by ten to the power of `digits`.
#[derive(Clone, Copy, Debug, PartialEq, Eq, Structural)]
pub struct Money {
    pub amount: i64,
    pub digits: i32,
}

} // verus!
