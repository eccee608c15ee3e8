//! Exact fixed-point decimal numbers with six fractional digits.

use vstd::prelude::*;

verus! {

/// Number of units that make up one whole: a `Decimal` counts millionths.
pub const UNITS_PER_ONE: i128 = 1_000_000;

/// An exact decimal number, held as a count of millionths.
///
/// The number `12.5` is `Decimal { units: 12_500_000 }`.
#[derive(Clone, Copy, Debug, PartialEq, Eq, Structural)]
pub struct Decimal {
    pub units: i128,
}

/// Absolute value of an integer.
pub open spec fn magnitude(x: int) -> int {
    if x < 0 {
        -x
    } else {
        x
    }
}

impl Decimal {
    /// The number as a count of millionths.
    pub open spec fn view(&self) -> int {
        self.units as int
    }

    /// The number zero.
    pub fn zero() -> (d: Decimal)
        ensures
            d@ == 0,
    {
        Decimal { units: 0 }
    }

    /// The decimal that counts `units` millionths.
    pub fn from_units(units: i128) -> (d: Decimal)
        ensures
            d@ == units,
    {
        Decimal { units }
    }

    /// The decimal equal to the whole number `n`.
    pub fn from_integer(n: i64) -> (d: Decimal)
        ensures
            d@ == n * UNITS_PER_ONE,
    {
        let wide: i128 = n as i128;
        Decimal { units: wide * UNITS_PER_ONE }
    }

    /// Whether the number is exactly zero.
    pub fn is_zero(&self) -> (z: bool)
        ensures
            z == (self@ == 0),
    {
        self.units == 0
    }

    /// Whether the number is below zero.
    pub fn is_negative(&self) -> (n: bool)
        ensures
            n == (self@ < 0),
    {
        self.units < 0
    }

    /// The absolute value of the number, as a count of millionths.
    pub fn unsigned_units(&self) -> (m: u128)
        ensures
            m == magnitude(self@),
    {
        if self.units >= 0 {
            self.units as u128
        } else {
            let up: i128 = self.units + 1;
            let flipped: i128 = -up;
            (flipped as u128) + 1
        }
    }
}

} // verus!
