//! Single-precision numbers by their IEEE 754 bit patterns.
//!
//! The library compares, clamps and rounds numbers; it does no other
//! arithmetic on them. All of that is decided on the bits.

use vstd::arithmetic::power2::{lemma2_to64, lemma_pow2_pos, lemma_pow2_strictly_increases, pow2};
use vstd::prelude::*;

verus! {

/// A single-precision number.
#[derive(Clone, Copy, Debug, PartialEq, Eq, Hash, Structural)]
pub struct Single {
    /// The sign bit, eight exponent bits and twenty-three fraction bits.
    pub bits: u32,
}

/// The bits of one.
pub const ONE_BITS: u32 = 0x3f80_0000;

impl Single {
    /// The exponent field.
    pub open spec fn exponent(self) -> int {
        (self.bits as int / 0x80_0000) % 256
    }

    /// The fraction field.
    pub open spec fn fraction(self) -> int {
        self.bits as int % 0x80_0000
    }

    /// Neither infinite nor undefined.
    pub open spec fn finite(self) -> bool {
        self.exponent() != 255
    }

    /// The undefined value.
    pub open spec fn nan(self) -> bool {
        self.exponent() == 255 && self.fraction() != 0
    }

    /// A whole number that orders the defined values: two compare as their
    /// ranks do, and the two zeros share one.
    pub open spec fn rank(self) -> int {
        if self.bits < 0x8000_0000 {
            self.bits as int
        } else {
            0x8000_0000 - self.bits
        }
    }

    /// Less than; false where either is undefined.
    pub open spec fn below(self, other: Single) -> bool {
        !self.nan() && !other.nan() && self.rank() < other.rank()
    }

    /// Not zero; the undefined value is not zero.
    pub open spec fn nonzero(self) -> bool {
        self.rank() != 0
    }

    /// The number moved into a range; the undefined value stays.
    pub open spec fn clamped(self, low: Single, high: Single) -> Single {
        if self.below(low) {
            low
        } else if high.below(self) {
            high
        } else {
            self
        }
    }

    /// The larger of the two; `floor` where this one is undefined.
    pub open spec fn at_least(self, floor: Single) -> Single {
        if self.nan() || self.below(floor) {
            floor
        } else {
            self
        }
    }

    /// The significand of a finite value: the value is the significand times
    /// two to the power of `scale() - 150`, up to its sign.
    pub open spec fn significand(self) -> nat {
        (if self.exponent() == 0 {
            self.fraction()
        } else {
            self.fraction() + 0x80_0000
        }) as nat
    }

    /// The exponent that goes with the significand.
    pub open spec fn scale(self) -> nat {
        (if self.exponent() == 0 {
            1
        } else {
            self.exponent()
        }) as nat
    }

    /// A thousand times a finite non-negative value, rounded to the nearest
    /// whole number, halves up.
    pub open spec fn thousandfold(self) -> nat {
        if self.scale() >= 150 {
            self.significand() * 1000 * pow2((self.scale() - 150) as nat)
        } else {
            let shift = (150 - self.scale()) as nat;
            (self.significand() * 1000 + pow2((shift - 1) as nat)) / pow2(shift)
        }
    }

    /// Whether the number is neither infinite nor undefined.
    pub fn is_finite(self) -> (finite: bool)
        ensures
            finite == self.finite(),
    {
        (self.bits / 0x80_0000) % 256 != 255
    }

    /// Whether the number is undefined.
    pub fn is_nan(self) -> (nan: bool)
        ensures
            nan == self.nan(),
    {
        (self.bits / 0x80_0000) % 256 == 255 && self.bits % 0x80_0000 != 0
    }

    fn order(self) -> (rank: i64)
        ensures
            rank == self.rank(),
    {
        if self.bits < 0x8000_0000 {
            self.bits as i64
        } else {
            0x8000_0000i64 - self.bits as i64
        }
    }

    /// Whether the number is less than another.
    pub fn is_below(self, other: Single) -> (below: bool)
        ensures
            below == self.below(other),
    {
        !self.is_nan() && !other.is_nan() && self.order() < other.order()
    }

    /// Whether the number is not zero.
    pub fn is_nonzero(self) -> (nonzero: bool)
        ensures
            nonzero == self.nonzero(),
    {
        self.order() != 0
    }

    /// Moves the number into a range.
    pub fn clamp_to(self, low: Single, high: Single) -> (moved: Single)
        ensures
            moved == self.clamped(low, high),
    {
        if self.is_below(low) {
            low
        } else if high.is_below(self) {
            high
        } else {
            self
        }
    }

    /// Raises the number to a floor.
    pub fn raise_to(self, floor: Single) -> (raised: Single)
        ensures
            raised == self.at_least(floor),
    {
        if self.is_nan() || self.is_below(floor) {
            floor
        } else {
            self
        }
    }

    /// A thousand times a finite positive value, rounded, and moved into a
    /// range of whole numbers.
    pub fn thousandfold_within(self, low: u64, high: u64) -> (rounded: u64)
        requires
            self.finite(),
            self.bits < 0x8000_0000,
            low <= high < 0x1_0000_0000,
        ensures
            self.thousandfold() < low ==> rounded == low,
            self.thousandfold() > high ==> rounded == high,
            low <= self.thousandfold() <= high ==> rounded == self.thousandfold(),
    {
        let exponent: u32 = (self.bits / 0x80_0000) % 256;
        let fraction: u32 = self.bits % 0x80_0000;
        let significand: u64 = if exponent == 0 {
            fraction as u64
        } else {
            fraction as u64 + 0x80_0000
        };
        let scale: u32 = if exponent == 0 {
            1
        } else {
            exponent
        };
        assert(significand == self.significand() && scale == self.scale());
        assert(significand < 0x100_0000);
        if scale >= 150 {
            assert(self.thousandfold() > high) by {
                lemma_pow2_pos((scale - 150) as nat);
                let power = pow2((scale - 150) as nat);
                assert(significand >= 0x80_0000);
                assert(significand * 1000 * power >= 0x80_0000 * 1000) by (nonlinear_arith)
                    requires
                        significand >= 0x80_0000,
                        power >= 1,
                ;
            }
            return high;
        }
        let shift: u32 = 150 - scale;
        let rounded: u64 = if shift <= 40 {
            proof {
                lemma_powers();
            }
            let mut half: u64 = 1;
            let mut step: u32 = 1;
            while step < shift
                invariant
                    1 <= step <= shift <= 40,
                    half == pow2((step - 1) as nat),
                    1 <= half <= 0x80_0000_0000,
                    pow2(39) == 0x80_0000_0000,
                decreases shift - step,
            {
                proof {
                    lemma_doubling((step - 1) as nat);
                    if step < 39 {
                        lemma_pow2_strictly_increases(step as nat, 39);
                    }
                }
                half = half * 2;
                step += 1;
            }
            proof {
                lemma_doubling((shift - 1) as nat);
            }
            (significand * 1000 + half) / (half * 2)
        } else {
            assert(self.thousandfold() == 0) by {
                lemma_powers();
                if shift > 41 {
                    lemma_pow2_strictly_increases(40, (shift - 1) as nat);
                }
                lemma_doubling((shift - 1) as nat);
                let half = pow2((shift - 1) as nat) as int;
                assert((significand * 1000 + half) / (2 * half) == 0) by (nonlinear_arith)
                    requires
                        0 <= significand * 1000 < half,
                ;
            }
            0
        };
        assert(rounded == self.thousandfold());
        if rounded < low {
            low
        } else if rounded > high {
            high
        } else {
            rounded
        }
    }
}

proof fn lemma_doubling(n: nat)
    ensures
        pow2(n + 1) == 2 * pow2(n),
{
    vstd::arithmetic::power2::lemma_pow2_unfold(n + 1);
}

proof fn lemma_powers()
    ensures
        pow2(39) == 0x80_0000_0000,
        pow2(40) == 0x100_0000_0000,
        pow2(0) == 1,
{
    lemma2_to64();
    vstd::arithmetic::power2::lemma_pow2_adds(32, 7);
    vstd::arithmetic::power2::lemma_pow2_adds(32, 8);
}

/// Clamping lands in the range, for every defined number.
pub proof fn law_clamp_lands_in_range(x: Single, low: Single, high: Single)
    requires
        !x.nan(),
        !low.nan(),
        !high.nan(),
        low.rank() <= high.rank(),
    ensures
        low.rank() <= x.clamped(low, high).rank() <= high.rank(),
{
}

/// What the bits mean. The numbers below 0x7f80_0000 are the non-negative ones
/// in order, with the infinite one behind them and the undefined ones from
/// there on; the upper half mirrors this with the sign turned.
pub proof fn law_bits_order_the_numbers(a: Single, b: Single)
    ensures
        a.finite() <==> a.bits < 0x7f80_0000 || 0x8000_0000 <= a.bits < 0xff80_0000,
        a.nan() <==> 0x7f80_0000 < a.bits < 0x8000_0000 || 0xff80_0000 < a.bits,
        a.nonzero() <==> a.bits != 0 && a.bits != 0x8000_0000,
        a.bits <= 0x7f80_0000 && b.bits <= 0x7f80_0000 ==> (a.below(b) <==> a.bits < b.bits),
        0x8000_0000 <= a.bits <= 0xff80_0000 && 0x8000_0000 <= b.bits <= 0xff80_0000 ==> (a.below(b)
            <==> a.bits > b.bits),
        0x8000_0000 <= a.bits <= 0xff80_0000 && b.bits <= 0x7f80_0000 ==> (a.below(b) <==> !(a.bits
            == 0x8000_0000 && b.bits == 0)) && !b.below(a),
        a.nan() || b.nan() ==> !a.below(b),
{
}

/// What clamping does: a number between the bounds stays as it is, to the bit;
/// one below goes to the lower bound, and one above to the upper.
pub proof fn law_clamping_moves_only_what_is_outside(x: Single, low: Single, high: Single)
    requires
        !low.below(low),
        !high.below(low),
    ensures
        x.below(low) ==> x.clamped(low, high) == low,
        high.below(x) ==> x.clamped(low, high) == high,
        !x.below(low) && !high.below(x) ==> x.clamped(low, high) == x,
        x.below(low) || x.nan() ==> x.at_least(low) == low,
        !x.below(low) && !x.nan() ==> x.at_least(low) == x,
{
    if x.below(low) && high.below(x) {
        assert(high.below(low));
    }
}

/// A thousand times a number is rounded to the nearest whole number: half of
/// the gap between whole numbers at most lies between the two.
pub proof fn law_a_thousandfold_is_the_nearest_number(x: Single)
    requires
        0x80_0000 <= x.bits < 0x7f80_0000,
    ensures
        ({
            let exponent = x.bits as int / 0x80_0000;
            let digits = 0x80_0000 + x.bits as int % 0x80_0000;
            &&& exponent >= 150 ==> x.thousandfold() == digits * 1000 * pow2(
                (exponent - 150) as nat,
            )
            &&& exponent < 150 ==> {
                let unit = pow2((150 - exponent) as nat);
                &&& 2 * (unit * x.thousandfold()) <= 2 * (digits * 1000) + unit
                &&& 2 * (digits * 1000) < 2 * (unit * x.thousandfold()) + unit
            }
        }),
{
    let exponent = x.bits as int / 0x80_0000;
    let digits = 0x80_0000 + x.bits as int % 0x80_0000;
    assert(x.exponent() == exponent && x.exponent() != 0);
    assert(x.significand() == digits);
    if exponent < 150 {
        let shift = (150 - exponent) as nat;
        lemma_doubling((shift - 1) as nat);
        lemma_pow2_pos((shift - 1) as nat);
        let half = pow2((shift - 1) as nat) as int;
        let unit = pow2(shift) as int;
        let sum = digits * 1000 + half;
        let whole = sum / unit;
        vstd::arithmetic::div_mod::lemma_fundamental_div_mod(sum, unit);
        vstd::arithmetic::div_mod::lemma_mod_bound(sum, unit);
        assert(unit == 2 * half);
        assert(sum == unit * whole + sum % unit);
    }
}

} // verus!
