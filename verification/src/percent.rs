//! Charge levels and thresholds as IEEE 754 binary32 numbers, held by their
//! bit patterns and ordered with integer arithmetic alone.

use vstd::arithmetic::mul::{
    lemma_mul_inequality, lemma_mul_left_inequality, lemma_mul_strict_inequality,
};
use vstd::arithmetic::power2::{
    lemma_pow2_pos, lemma_pow2_strictly_increases, lemma_pow2_unfold, pow2,
};
use vstd::prelude::*;

verus! {

/// The weight of the sign bit, two to the power 31.
pub const SIGN_BIT: u32 = 0x8000_0000;

/// The number of fraction patterns under one exponent, two to the power 23.
pub const FRACTION_SPAN: u32 = 0x80_0000;

/// The bits of positive infinity: the exponent all ones, the fraction zero.
/// Every larger pattern below the sign bit is a NaN.
pub const INFINITY_BITS: u32 = 0x7f80_0000;

/// The size of the number that the 31 bits below the sign bit denote, in
/// units of two to the power -149 (the smallest positive binary32 number).
///
/// With exponent field `e` and fraction field `f`, a subnormal (`e == 0`) is
/// `f` units and a normal number is `(2^23 + f) * 2^(e - 1)` units. Infinity
/// (`e == 255`, `f == 0`) follows the same formula and so lies above every
/// finite number; a NaN has no size, and no contract asks for one.
pub open spec fn magnitude_of(low_bits: nat) -> nat {
    let e = low_bits / (FRACTION_SPAN as nat);
    let f = low_bits % (FRACTION_SPAN as nat);
    if e == 0 {
        f
    } else {
        ((FRACTION_SPAN + f) * pow2((e - 1) as nat)) as nat
    }
}

/// A larger bit pattern denotes a larger size: below the sign bit, binary32
/// numbers are ordered as their bits are.
pub proof fn lemma_magnitude_increases(a: nat, b: nat)
    requires
        a < b,
    ensures
        magnitude_of(a) < magnitude_of(b),
{
    let span = FRACTION_SPAN as nat;
    let (ea, fa) = (a / span, a % span);
    let (eb, fb) = (b / span, b % span);
    assert(a == ea * span + fa && b == eb * span + fb);
    assert(ea <= eb);
    if ea == eb {
        if ea != 0 {
            let p = pow2((ea - 1) as nat);
            lemma_pow2_pos((ea - 1) as nat);
            lemma_mul_strict_inequality((span + fa) as int, (span + fb) as int, p as int);
        }
    } else {
        // The whole of a's binade lies below the first number of b's binade.
        let pb = pow2((eb - 1) as nat);
        lemma_pow2_pos((eb - 1) as nat);
        lemma_mul_inequality(span as int, (span + fb) as int, pb as int);
        assert(span * pb <= magnitude_of(b));
        if ea == 0 {
            lemma_mul_left_inequality(span as int, 1, pb as int);
            assert(span * 1 <= span * pb);
        } else {
            let pa = pow2((ea - 1) as nat);
            lemma_pow2_pos((ea - 1) as nat);
            lemma_mul_strict_inequality((span + fa) as int, (2 * span) as int, pa as int);
            lemma_pow2_unfold(ea);
            assert((2 * span) * pa == span * pow2(ea)) by (nonlinear_arith)
                requires
                    pow2(ea) == 2 * pa,
            ;
            if ea < eb - 1 {
                lemma_pow2_strictly_increases(ea, (eb - 1) as nat);
            }
            lemma_mul_left_inequality(span as int, pow2(ea) as int, pb as int);
        }
    }
}

/// A percentage as an IEEE 754 binary32 number, held by its 32 bits: one
/// sign bit, eight exponent bits, twenty-three fraction bits.
#[derive(Clone, Copy, Debug)]
pub struct Percent {
    bits: u32,
}

impl Percent {
    /// The bit pattern.
    pub closed spec fn spec_bits(self) -> u32 {
        self.bits
    }

    /// The 31 bits below the sign bit.
    pub open spec fn low_bits(self) -> nat {
        (self.spec_bits() % SIGN_BIT) as nat
    }

    /// Whether the sign bit is set.
    pub open spec fn is_negative(self) -> bool {
        self.spec_bits() >= SIGN_BIT
    }

    /// Whether the pattern is a NaN, which is neither below nor above
    /// anything.
    pub open spec fn spec_is_nan(self) -> bool {
        self.low_bits() > INFINITY_BITS
    }

    /// The place of the number on the number line, in units of two to the
    /// power -149. Both zeros are at 0.
    pub open spec fn value(self) -> int {
        if self.is_negative() {
            -(magnitude_of(self.low_bits()) as int)
        } else {
            magnitude_of(self.low_bits()) as int
        }
    }

    /// The IEEE 754 comparison `self < other`: false when either side is a
    /// NaN, else the order of the two values.
    pub open spec fn spec_less_than(self, other: Percent) -> bool {
        &&& !self.spec_is_nan()
        &&& !other.spec_is_nan()
        &&& self.value() < other.value()
    }

    /// The IEEE 754 comparison `self >= other`: false when either side is a
    /// NaN, else the order of the two values.
    pub open spec fn at_least(self, other: Percent) -> bool {
        &&& !self.spec_is_nan()
        &&& !other.spec_is_nan()
        &&& self.value() >= other.value()
    }

    /// The IEEE 754 comparison `self == other`: false when either side is a
    /// NaN, else whether the two values are one.
    pub open spec fn same_value(self, other: Percent) -> bool {
        &&& !self.spec_is_nan()
        &&& !other.spec_is_nan()
        &&& self.value() == other.value()
    }

    /// The number with the given bit pattern.
    pub fn from_bits(bits: u32) -> (p: Percent)
        ensures
            p.spec_bits() == bits,
    {
        Percent { bits }
    }

    /// The bit pattern of this number.
    #[verifier::when_used_as_spec(spec_bits)]
    pub fn bits(self) -> (bits: u32)
        ensures
            bits == self.spec_bits(),
    {
        self.bits
    }

    /// Whether this is a NaN.
    #[verifier::when_used_as_spec(spec_is_nan)]
    pub fn is_nan(self) -> (nan: bool)
        ensures
            nan == self.spec_is_nan(),
    {
        self.bits % SIGN_BIT > INFINITY_BITS
    }

    /// Whether this number is strictly below `other`, as IEEE 754 orders
    /// them.
    #[verifier::when_used_as_spec(spec_less_than)]
    pub fn less_than(self, other: Percent) -> (below: bool)
        ensures
            below == self.spec_less_than(other),
    {
        if self.is_nan() || other.is_nan() {
            return false;
        }
        let a: u32 = self.bits % SIGN_BIT;
        let b: u32 = other.bits % SIGN_BIT;
        proof {
            if a < b {
                lemma_magnitude_increases(a as nat, b as nat);
            }
            if b < a {
                lemma_magnitude_increases(b as nat, a as nat);
            }
            if 0 < a {
                lemma_magnitude_increases(0, a as nat);
            }
            if 0 < b {
                lemma_magnitude_increases(0, b as nat);
            }
        }
        if self.bits >= SIGN_BIT {
            if other.bits >= SIGN_BIT {
                b < a
            } else {
                a != 0 || b != 0
            }
        } else {
            if other.bits >= SIGN_BIT {
                false
            } else {
                a < b
            }
        }
    }
}

} // verus!
