use vstd::prelude::*;

verus! {

/// Number of fractional units in one whole currency unit. Amounts are held as
/// integer counts of ten-thousandths, which gives four fractional decimal
/// digits of exact precision.
pub const UNITS_PER_WHOLE: i128 = 10000;

/// An exact fixed-point currency amount, counted in ten-thousandths of one
/// whole unit. Never floating point: addition, subtraction and comparison are
/// exact integer operations on the unit count.
#[derive(Clone, Copy, Debug, PartialEq, Eq, Structural)]
pub struct Amount {
    pub units: i128,
}

/// Whether a mathematical integer fits the machine representation of an amount.
pub open spec fn fits(x: int) -> bool {
    i128::MIN <= x <= i128::MAX
}

impl View for Amount {
    type V = int;

    open spec fn view(&self) -> int {
        self.units as int
    }
}

impl Amount {
    /// An amount of `units` ten-thousandths.
    pub fn new(units: i128) -> (r: Amount)
        ensures
            r@ == units as int,
    {
        Amount { units }
    }

    /// The additive identity.
    pub fn zero() -> (r: Amount)
        ensures
            r@ == 0,
    {
        Amount { units: 0 }
    }

    /// Exact sum of two amounts.
    pub fn plus(self, other: Amount) -> (r: Amount)
        requires
            fits(self@ + other@),
        ensures
            r@ == self@ + other@,
    {
        Amount { units: self.units + other.units }
    }

    /// Exact difference of two amounts.
    pub fn minus(self, other: Amount) -> (r: Amount)
        requires
            fits(self@ - other@),
        ensures
            r@ == self@ - other@,
    {
        Amount { units: self.units - other.units }
    }

    /// Exact comparison.
    pub fn lt(self, other: Amount) -> (r: bool)
        ensures
            r == (self@ < other@),
    {
        self.units < other.units
    }

    /// True when the sum of the two amounts fits the machine representation.
    pub fn plus_fits(self, other: Amount) -> (r: bool)
        ensures
            r == fits(self@ + other@),
    {
        if other.units >= 0 {
            self.units <= i128::MAX - other.units
        } else {
            self.units >= i128::MIN - other.units
        }
    }

    /// True when the difference of the two amounts fits the machine
    /// representation.
    pub fn minus_fits(self, other: Amount) -> (r: bool)
        ensures
            r == fits(self@ - other@),
    {
        if other.units >= 0 {
            self.units >= i128::MIN + other.units
        } else {
            self.units <= i128::MAX + other.units
        }
    }
}

} // verus!
