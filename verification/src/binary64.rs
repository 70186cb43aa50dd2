//! IEEE 754 binary64 numbers, held as their 64-bit encodings.

use vstd::arithmetic::power2::{
    lemma_pow2_pos, lemma_pow2_strictly_increases, lemma_pow2_unfold, pow2,
};
use vstd::prelude::*;

verus! {

/// An IEEE 754 binary64 number ("double precision"), given by its encoding:
/// one sign bit, eleven bits of biased exponent and fifty-two bits of
/// fraction, from the most significant bit down. Every `u64` encodes a
/// number, an infinity or a NaN, so the type has no invariant.
///
/// In contracts `==` on two `Binary64` compares encodings. Numeric equality,
/// which is what `==` computes in executable code, is [`Binary64::ieee_eq`].
#[derive(Clone, Copy, Debug)]
pub struct Binary64 {
    pub bits: u64,
}

impl Binary64 {
    /// The sign bit: set for negative numbers, for `-0` and for `-inf`.
    pub open spec fn sign_bit(self) -> bool {
        self.bits >= 0x8000_0000_0000_0000
    }

    /// The eleven exponent bits, as a number in `0..=2047`.
    pub open spec fn biased_exponent(self) -> nat {
        ((self.bits / 0x10_0000_0000_0000) % 0x800) as nat
    }

    /// The fifty-two fraction bits, as a number below `2^52`.
    pub open spec fn fraction(self) -> nat {
        (self.bits % 0x10_0000_0000_0000) as nat
    }

    /// Not a number: all exponent bits set and a fraction other than zero.
    pub open spec fn spec_is_nan(self) -> bool {
        self.biased_exponent() == 0x7ff && self.fraction() != 0
    }

    /// Zero, subnormal or normal: neither an infinity nor a NaN.
    pub open spec fn is_finite(self) -> bool {
        self.biased_exponent() < 0x7ff
    }

    /// Plus or minus zero.
    pub open spec fn is_zero(self) -> bool {
        self.biased_exponent() == 0 && self.fraction() == 0
    }

    /// The integer significand of a finite number: the fraction, with the
    /// implicit leading bit `2^52` added for a normal number.
    pub open spec fn significand(self) -> nat {
        if self.biased_exponent() == 0 {
            self.fraction()
        } else {
            0x10_0000_0000_0000 + self.fraction()
        }
    }

    /// The power of two that scales the significand: a finite number has the
    /// magnitude `significand() * 2^exponent()`.
    pub open spec fn exponent(self) -> int {
        if self.biased_exponent() == 0 {
            -1074
        } else {
            self.biased_exponent() - 1075
        }
    }

    /// One unit in the last place of a finite number, in units of `2^-1074`.
    /// That is the least positive number, so the unit is a whole number of
    /// them: `2^(exponent() + 1074)`.
    pub open spec fn scaled_ulp(self) -> nat {
        pow2((self.exponent() + 1074) as nat)
    }

    /// The magnitude of a finite number, in units of `2^-1074`.
    pub open spec fn scaled_magnitude(self) -> nat {
        self.significand() * self.scaled_ulp()
    }

    /// A finite number, in units of `2^-1074`: the magnitude, taken negative
    /// where the sign bit is set.
    pub open spec fn scaled_value(self) -> int {
        if self.sign_bit() {
            -(self.scaled_magnitude() as int)
        } else {
            self.scaled_magnitude() as int
        }
    }

    /// IEEE 754 equality: a NaN equals nothing, not even itself; the two
    /// zeros are equal; any other two numbers are equal exactly when their
    /// encodings are.
    pub open spec fn ieee_eq(self, other: Binary64) -> bool {
        &&& !self.spec_is_nan()
        &&& !other.spec_is_nan()
        &&& (self.bits == other.bits || (self.is_zero() && other.is_zero()))
    }

    /// The number with the encoding `bits`.
    pub fn from_bits(bits: u64) -> (r: Binary64)
        ensures
            r.bits == bits,
    {
        Binary64 { bits }
    }

    /// The encoding of the number.
    pub fn to_bits(self) -> (bits: u64)
        ensures
            bits == self.bits,
    {
        self.bits
    }

    /// Whether the number is a NaN.
    #[verifier::when_used_as_spec(spec_is_nan)]
    pub fn is_nan(self) -> (r: bool)
        ensures
            r == self.spec_is_nan(),
    {
        let magnitude = self.bits & 0x7fff_ffff_ffff_ffff;
        proof {
            lemma_magnitude(self.bits);
        }
        magnitude > 0x7ff0_0000_0000_0000
    }
}

/// Clearing the sign bit of an encoding leaves the exponent bits and the
/// fraction bits, read as one number: `exponent * 2^52 + fraction`.
proof fn lemma_magnitude(bits: u64)
    ensures
        (bits & 0x7fff_ffff_ffff_ffff) == ((bits / 0x10_0000_0000_0000) % 0x800)
            * 0x10_0000_0000_0000 + bits % 0x10_0000_0000_0000,
{
    assert((bits & 0x7fff_ffff_ffff_ffff) == ((bits / 0x10_0000_0000_0000) % 0x800)
        * 0x10_0000_0000_0000 + bits % 0x10_0000_0000_0000) by (bit_vector);
}

/// Of two finite numbers, the one with the smaller exponent has the smaller
/// magnitude: its significand is below `2^53`, and the other one is normal,
/// with a significand of `2^52` at least.
pub proof fn lemma_exponent_orders_magnitude(a: Binary64, b: Binary64)
    requires
        a.is_finite(),
        b.is_finite(),
        a.exponent() < b.exponent(),
    ensures
        a.scaled_magnitude() < b.scaled_magnitude(),
{
    let ka = (a.exponent() + 1074) as nat;
    let kb = (b.exponent() + 1074) as nat;
    let ma = a.significand();
    let mb = b.significand();
    lemma_pow2_pos(ka);
    lemma_pow2_unfold(ka + 1);
    assert(pow2(ka + 1) <= pow2(kb)) by {
        if ka + 1 < kb {
            lemma_pow2_strictly_increases(ka + 1, kb);
        }
    }
    assert(ma * pow2(ka) < mb * pow2(kb)) by (nonlinear_arith)
        requires
            ma < 0x20_0000_0000_0000,
            mb >= 0x10_0000_0000_0000,
            pow2(ka) > 0,
            pow2(kb) >= 2 * pow2(ka),
    ;
}

/// IEEE 754 equality of two finite numbers is equality of the numbers that
/// the encodings stand for.
pub proof fn lemma_ieee_eq_is_numeric(a: Binary64, b: Binary64)
    requires
        a.is_finite(),
        b.is_finite(),
    ensures
        a.ieee_eq(b) <==> a.scaled_value() == b.scaled_value(),
{
    let ka = (a.exponent() + 1074) as nat;
    let kb = (b.exponent() + 1074) as nat;
    let ma = a.significand();
    let mb = b.significand();
    lemma_pow2_pos(ka);
    lemma_pow2_pos(kb);
    assert(ma == 0 <==> ma * pow2(ka) == 0) by (nonlinear_arith)
        requires
            pow2(ka) > 0,
    ;
    assert(mb == 0 <==> mb * pow2(kb) == 0) by (nonlinear_arith)
        requires
            pow2(kb) > 0,
    ;
    if a.scaled_value() == b.scaled_value() && !a.is_zero() {
        if a.exponent() < b.exponent() {
            lemma_exponent_orders_magnitude(a, b);
        }
        if b.exponent() < a.exponent() {
            lemma_exponent_orders_magnitude(b, a);
        }
        assert(ma == mb) by (nonlinear_arith)
            requires
                ma * pow2(ka) == mb * pow2(ka),
                pow2(ka) > 0,
        ;
        assert(a.bits == b.bits);
    }
}

impl PartialEq for Binary64 {
    /// Numeric equality, as `==` on `f64` computes it.
    fn eq(&self, other: &Binary64) -> (r: bool) {
        let a = self.bits;
        let b = other.bits;
        let either = (a | b) & 0x7fff_ffff_ffff_ffff;
        proof {
            lemma_magnitude(a);
            lemma_magnitude(b);
            assert(((a | b) & 0x7fff_ffff_ffff_ffff) == 0 <==> (a & 0x7fff_ffff_ffff_ffff) == 0
                && (b & 0x7fff_ffff_ffff_ffff) == 0) by (bit_vector);
        }
        !self.is_nan() && !other.is_nan() && (a == b || either == 0)
    }
}

impl vstd::std_specs::cmp::PartialEqSpecImpl for Binary64 {
    open spec fn obeys_eq_spec() -> bool {
        true
    }

    open spec fn eq_spec(&self, other: &Binary64) -> bool {
        self.ieee_eq(*other)
    }
}

} // verus!
