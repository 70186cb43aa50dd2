//! The five universal constants: their names, values and printed forms.

use crate::binary64::Binary64;
use crate::decimal::{digits, scientific, Decimal};
use crate::rounding::{lemma_rounds_strictly_nearest, lemma_rounds_to_is_unique, rounds_to};
use vstd::arithmetic::power::{lemma_pow1, lemma_pow_adds, pow};
use vstd::arithmetic::power2::{lemma2_to64, lemma_pow2_adds, pow2};
use vstd::prelude::*;
use vstd::string::*;

verus! {

/// A universal physical constant. The set is closed: these five and no more.
///
/// The derived `==` tells variants apart. [`UniversalConstant::equals`]
/// compares values instead; since the five values differ from one another,
/// the two agree (see [`lemma_equals_is_identity`]).
#[derive(Clone, Copy, Debug, PartialEq, Eq, Structural)]
pub enum UniversalConstant {
    /// Speed of light in vacuum, in m/s.
    SpeedOfLight,
    /// Planck constant, in J s.
    PlanckConstant,
    /// Elementary charge, in C.
    ElementaryCharge,
    /// Boltzmann constant, in J/K.
    BoltzmannConstant,
    /// Avogadro constant, in 1/mol.
    AvogadroConstant,
}

/// One of the six relational operators, as a caller of
/// [`UniversalConstant::rich_compare`] names it.
#[derive(Clone, Copy, Debug, PartialEq, Eq, Structural)]
pub enum CompareOp {
    /// `<`
    Lt,
    /// `<=`
    Le,
    /// `==`
    Eq,
    /// `!=`
    Ne,
    /// `>`
    Gt,
    /// `>=`
    Ge,
}

impl UniversalConstant {
    /// The value in SI units, as the binary64 number that the decimal
    /// literal of [`UniversalConstant::spec_literal`] denotes.
    pub open spec fn spec_value(&self) -> Binary64 {
        match self {
            UniversalConstant::SpeedOfLight => Binary64 { bits: 0x41b1_de78_4a00_0000 },
            UniversalConstant::PlanckConstant => Binary64 { bits: 0x390b_860b_de02_3111 },
            UniversalConstant::ElementaryCharge => Binary64 { bits: 0x3c07_a4da_290c_1653 },
            UniversalConstant::BoltzmannConstant => Binary64 { bits: 0x3b30_b0e6_d55e_647c },
            UniversalConstant::AvogadroConstant => Binary64 { bits: 0x44df_e185_ca57_c517 },
        }
    }

    /// The exact value in SI units. Since 2019 the SI fixes each of the five
    /// by definition, as a decimal number with finitely many digits.
    pub open spec fn decimal(&self) -> Decimal {
        match self {
            UniversalConstant::SpeedOfLight => Decimal {
                coefficient: 299_792_458,
                exponent: 0,
            },
            UniversalConstant::PlanckConstant => Decimal {
                coefficient: 662_607_015,
                exponent: -42,
            },
            UniversalConstant::ElementaryCharge => Decimal {
                coefficient: 1_602_176_634,
                exponent: -28,
            },
            UniversalConstant::BoltzmannConstant => Decimal {
                coefficient: 1_380_649,
                exponent: -29,
            },
            UniversalConstant::AvogadroConstant => Decimal {
                coefficient: 602_214_076,
                exponent: 15,
            },
        }
    }

    /// The canonical name: the identifier of the variant.
    pub open spec fn spec_name(&self) -> Seq<char> {
        match self {
            UniversalConstant::SpeedOfLight => "SpeedOfLight"@,
            UniversalConstant::PlanckConstant => "PlanckConstant"@,
            UniversalConstant::ElementaryCharge => "ElementaryCharge"@,
            UniversalConstant::BoltzmannConstant => "BoltzmannConstant"@,
            UniversalConstant::AvogadroConstant => "AvogadroConstant"@,
        }
    }

    /// The value in SI units, written as a decimal literal in scientific
    /// notation.
    pub open spec fn spec_literal(&self) -> Seq<char> {
        match self {
            UniversalConstant::SpeedOfLight => "2.99792458e8"@,
            UniversalConstant::PlanckConstant => "6.62607015e-34"@,
            UniversalConstant::ElementaryCharge => "1.602176634e-19"@,
            UniversalConstant::BoltzmannConstant => "1.380649e-23"@,
            UniversalConstant::AvogadroConstant => "6.02214076e23"@,
        }
    }

    /// The printed form: `<PhysicalConstant.NAME = VALUE>`, with the name for
    /// `NAME` and the literal for `VALUE`.
    pub open spec fn spec_display(&self) -> Seq<char> {
        "<PhysicalConstant."@ + self.spec_name() + " = "@ + self.spec_literal() + ">"@
    }

    /// Equality of two constants: IEEE 754 equality of their values.
    pub open spec fn spec_equals(&self, other: &UniversalConstant) -> bool {
        self.spec_value().ieee_eq(other.spec_value())
    }

    /// What a relational operator gives on two constants. Only `==` and `!=`
    /// are defined; the constants are not ordered, so the four ordering
    /// operators have no answer.
    pub open spec fn spec_rich_compare(
        &self,
        other: &UniversalConstant,
        op: CompareOp,
    ) -> Option<bool> {
        match op {
            CompareOp::Eq => Some(self.spec_equals(other)),
            CompareOp::Ne => Some(!self.spec_equals(other)),
            CompareOp::Lt | CompareOp::Le | CompareOp::Gt | CompareOp::Ge => None,
        }
    }

    /// The value of the constant in SI units: the exact value, rounded to
    /// the nearest binary64 number.
    #[verifier::when_used_as_spec(spec_value)]
    pub fn value(&self) -> (v: Binary64)
        ensures
            v == self.spec_value(),
            rounds_to(self.decimal(), v),
    {
        proof {
            lemma_value_rounds_decimal(*self);
        }
        match self {
            UniversalConstant::SpeedOfLight => Binary64::from_bits(0x41b1_de78_4a00_0000),
            UniversalConstant::PlanckConstant => Binary64::from_bits(0x390b_860b_de02_3111),
            UniversalConstant::ElementaryCharge => Binary64::from_bits(0x3c07_a4da_290c_1653),
            UniversalConstant::BoltzmannConstant => Binary64::from_bits(0x3b30_b0e6_d55e_647c),
            UniversalConstant::AvogadroConstant => Binary64::from_bits(0x44df_e185_ca57_c517),
        }
    }

    /// The canonical name of the constant.
    pub fn name(&self) -> (s: &'static str)
        ensures
            s@ == self.spec_name(),
    {
        match self {
            UniversalConstant::SpeedOfLight => "SpeedOfLight",
            UniversalConstant::PlanckConstant => "PlanckConstant",
            UniversalConstant::ElementaryCharge => "ElementaryCharge",
            UniversalConstant::BoltzmannConstant => "BoltzmannConstant",
            UniversalConstant::AvogadroConstant => "AvogadroConstant",
        }
    }

    /// The value of the constant as a decimal literal: the exact value in
    /// scientific notation.
    pub fn literal(&self) -> (s: &'static str)
        ensures
            s@ == self.spec_literal(),
            s@ == scientific(self.decimal()),
    {
        proof {
            lemma_literal_is_decimal(*self);
        }
        match self {
            UniversalConstant::SpeedOfLight => "2.99792458e8",
            UniversalConstant::PlanckConstant => "6.62607015e-34",
            UniversalConstant::ElementaryCharge => "1.602176634e-19",
            UniversalConstant::BoltzmannConstant => "1.380649e-23",
            UniversalConstant::AvogadroConstant => "6.02214076e23",
        }
    }

    /// The printed form of the constant, for both its formal and its
    /// informal rendering.
    pub fn display(&self) -> (s: String)
        ensures
            s@ == self.spec_display(),
    {
        let mut s = String::from_str("<PhysicalConstant.");
        s.append(self.name());
        s.append(" = ");
        s.append(self.literal());
        s.append(">");
        s
    }

    /// Whether two constants have equal values, which they have exactly when
    /// they are the same constant.
    #[verifier::when_used_as_spec(spec_equals)]
    pub fn equals(&self, other: &UniversalConstant) -> (r: bool)
        ensures
            r == self.spec_equals(other),
            r == (*self == *other),
    {
        proof {
            lemma_equals_is_identity(*self, *other);
        }
        self.value() == other.value()
    }

    /// Whether two constants have different values: the negation of
    /// [`UniversalConstant::equals`].
    pub fn not_equals(&self, other: &UniversalConstant) -> (r: bool)
        ensures
            r == !self.spec_equals(other),
            r == (*self != *other),
    {
        !self.equals(other)
    }

    /// Applies a relational operator to two constants: `Some` of the answer
    /// for `==` and `!=`, and `None` for the ordering operators, which are
    /// not supported.
    #[verifier::when_used_as_spec(spec_rich_compare)]
    pub fn rich_compare(&self, other: &UniversalConstant, op: CompareOp) -> (r: Option<bool>)
        ensures
            r == self.spec_rich_compare(other, op),
            r is Some <==> op == CompareOp::Eq || op == CompareOp::Ne,
    {
        match op {
            CompareOp::Eq => Some(self.equals(other)),
            CompareOp::Ne => Some(self.not_equals(other)),
            CompareOp::Lt | CompareOp::Le | CompareOp::Gt | CompareOp::Ge => None,
        }
    }
}

/// Two constants have equal values exactly when they are the same constant:
/// the five values are numbers, none of them zero, and no two encodings
/// coincide.
pub proof fn lemma_equals_is_identity(a: UniversalConstant, b: UniversalConstant)
    ensures
        a.spec_equals(&b) <==> a == b,
{
}

/// The name tells the constant: no two constants have the same name.
pub proof fn lemma_name_is_distinct(a: UniversalConstant, b: UniversalConstant)
    ensures
        a.spec_name() == b.spec_name() <==> a == b,
{
    reveal_strlit("SpeedOfLight");
    reveal_strlit("PlanckConstant");
    reveal_strlit("ElementaryCharge");
    reveal_strlit("BoltzmannConstant");
    reveal_strlit("AvogadroConstant");
    if a != b && a.spec_name() == b.spec_name() {
        assert(a.spec_name()[0] == b.spec_name()[0]);
    }
}

/// The literal of each constant is its exact SI value in scientific
/// notation.
pub proof fn lemma_literal_is_decimal(c: UniversalConstant)
    ensures
        c.spec_literal() == scientific(c.decimal()),
{
    reveal_with_fuel(digits, 10);
    match c {
        UniversalConstant::SpeedOfLight => {
            reveal_strlit("2.99792458e8");
        },
        UniversalConstant::PlanckConstant => {
            reveal_strlit("6.62607015e-34");
        },
        UniversalConstant::ElementaryCharge => {
            reveal_strlit("1.602176634e-19");
        },
        UniversalConstant::BoltzmannConstant => {
            reveal_strlit("1.380649e-23");
        },
        UniversalConstant::AvogadroConstant => {
            reveal_strlit("6.02214076e23");
        },
    }
}

/// `pow2` of a sum, from the values of the two powers.
proof fn lemma_pow2_step(e1: nat, e2: nat, v1: nat, v2: nat)
    requires
        pow2(e1) == v1,
        pow2(e2) == v2,
    ensures
        pow2(e1 + e2) == v1 * v2,
{
    lemma_pow2_adds(e1, e2);
}

/// A power of ten whose exponent is a sum, from the values of the two powers.
proof fn lemma_pow10_step(e1: nat, e2: nat, v1: int, v2: int)
    requires
        pow(10, e1) == v1,
        pow(10, e2) == v2,
    ensures
        pow(10, e1 + e2) == v1 * v2,
{
    lemma_pow_adds(10, e1, e2);
}

/// The powers of two by which the values of the constants are scaled.
proof fn lemma_powers_of_two()
    ensures
        pow2(24) == 0x100_0000,
        pow2(26) == 0x400_0000,
        pow2(115) == 0x8_0000_0000_0000_0000_0000_0000_0000,
        pow2(128) == 0x1_0000_0000_0000_0000_0000_0000_0000_0000int,
        pow2(163) == 0x8_0000_0000_0000_0000_0000_0000_0000_0000_0000_0000int,
{
    lemma2_to64();
    lemma_pow2_step(32, 19, 0x1_0000_0000, 0x8_0000);
    lemma_pow2_step(64, 51, 0x1_0000_0000_0000_0000, 0x8_0000_0000_0000);
    lemma_pow2_step(64, 64, 0x1_0000_0000_0000_0000, 0x1_0000_0000_0000_0000);
    lemma_pow2_step(32, 3, 0x1_0000_0000, 0x8);
    lemma_pow2_step(128, 35, 0x1_0000_0000_0000_0000_0000_0000_0000_0000nat, 0x8_0000_0000);
}

/// The powers of ten by which the SI values of the constants are scaled.
proof fn lemma_powers_of_ten()
    ensures
        pow(10, 15) == 1_000_000_000_000_000,
        pow(10, 28) == 10_000_000_000_000_000_000_000_000_000,
        pow(10, 29) == 100_000_000_000_000_000_000_000_000_000,
        pow(10, 42) == 1_000_000_000_000_000_000_000_000_000_000_000_000_000_000int,
{
    lemma_pow1(10);
    lemma_pow10_step(1, 1, 10, 10);
    lemma_pow10_step(2, 1, 100, 10);
    lemma_pow10_step(3, 3, 1_000, 1_000);
    lemma_pow10_step(6, 1, 1_000_000, 10);
    lemma_pow10_step(7, 7, 10_000_000, 10_000_000);
    lemma_pow10_step(14, 1, 100_000_000_000_000, 10);
    lemma_pow10_step(14, 14, 100_000_000_000_000, 100_000_000_000_000);
    lemma_pow10_step(28, 1, 10_000_000_000_000_000_000_000_000_000, 10);
    lemma_pow10_step(28, 14, 10_000_000_000_000_000_000_000_000_000, 100_000_000_000_000);
}

/// The speed of light is a whole number below `2^53`: binary64 holds it
/// exactly.
proof fn lemma_speed_of_light_rounds()
    ensures
        rounds_to(
            UniversalConstant::SpeedOfLight.decimal(),
            UniversalConstant::SpeedOfLight.spec_value(),
        ),
{
    let d = Decimal { coefficient: 299_792_458, exponent: 0 };
    let b = Binary64 { bits: 0x41b1_de78_4a00_0000 };
    assert(b.significand() == 0x11_de78_4a00_0000 && b.exponent() == -24);
    assert(pow2(24) == 0x100_0000) by {
        lemma_powers_of_two();
    }
    lemma_rounds_strictly_nearest(d, b, 1, 0x100_0000, 1, 1);
}

/// The Planck constant lies within half a unit in the last place of its
/// value.
proof fn lemma_planck_constant_rounds()
    ensures
        rounds_to(
            UniversalConstant::PlanckConstant.decimal(),
            UniversalConstant::PlanckConstant.spec_value(),
        ),
{
    let d = Decimal { coefficient: 662_607_015, exponent: -42 };
    let b = Binary64 { bits: 0x390b_860b_de02_3111 };
    let two_down = 0x8_0000_0000_0000_0000_0000_0000_0000_0000_0000_0000int;
    let ten_down = 1_000_000_000_000_000_000_000_000_000_000_000_000_000_000int;
    assert(b.significand() == 0x1b_860b_de02_3111 && b.exponent() == -163);
    assert(pow2(163) == two_down) by {
        lemma_powers_of_two();
    }
    assert(pow(10, 42) == ten_down) by {
        lemma_powers_of_ten();
    }
    lemma_rounds_strictly_nearest(d, b, 1, two_down, 1, ten_down);
}

/// The elementary charge lies within half a unit in the last place of its
/// value.
proof fn lemma_elementary_charge_rounds()
    ensures
        rounds_to(
            UniversalConstant::ElementaryCharge.decimal(),
            UniversalConstant::ElementaryCharge.spec_value(),
        ),
{
    let d = Decimal { coefficient: 1_602_176_634, exponent: -28 };
    let b = Binary64 { bits: 0x3c07_a4da_290c_1653 };
    let two_down = 0x8_0000_0000_0000_0000_0000_0000_0000int;
    let ten_down = 10_000_000_000_000_000_000_000_000_000int;
    assert(b.significand() == 0x17_a4da_290c_1653 && b.exponent() == -115);
    assert(pow2(115) == two_down) by {
        lemma_powers_of_two();
    }
    assert(pow(10, 28) == ten_down) by {
        lemma_powers_of_ten();
    }
    lemma_rounds_strictly_nearest(d, b, 1, two_down, 1, ten_down);
}

/// The Boltzmann constant lies within half a unit in the last place of its
/// value.
proof fn lemma_boltzmann_constant_rounds()
    ensures
        rounds_to(
            UniversalConstant::BoltzmannConstant.decimal(),
            UniversalConstant::BoltzmannConstant.spec_value(),
        ),
{
    let d = Decimal { coefficient: 1_380_649, exponent: -29 };
    let b = Binary64 { bits: 0x3b30_b0e6_d55e_647c };
    let two_down = 0x1_0000_0000_0000_0000_0000_0000_0000_0000int;
    let ten_down = 100_000_000_000_000_000_000_000_000_000int;
    assert(b.significand() == 0x10_b0e6_d55e_647c && b.exponent() == -128);
    assert(pow2(128) == two_down) by {
        lemma_powers_of_two();
    }
    assert(pow(10, 29) == ten_down) by {
        lemma_powers_of_ten();
    }
    lemma_rounds_strictly_nearest(d, b, 1, two_down, 1, ten_down);
}

/// The Avogadro constant lies within half a unit in the last place of its
/// value.
proof fn lemma_avogadro_constant_rounds()
    ensures
        rounds_to(
            UniversalConstant::AvogadroConstant.decimal(),
            UniversalConstant::AvogadroConstant.spec_value(),
        ),
{
    let d = Decimal { coefficient: 602_214_076, exponent: 15 };
    let b = Binary64 { bits: 0x44df_e185_ca57_c517 };
    assert(b.significand() == 0x1f_e185_ca57_c517 && b.exponent() == 26);
    assert(pow2(26) == 0x400_0000) by {
        lemma_powers_of_two();
    }
    assert(pow(10, 15) == 1_000_000_000_000_000) by {
        lemma_powers_of_ten();
    }
    lemma_rounds_strictly_nearest(d, b, 0x400_0000, 1, 1_000_000_000_000_000, 1);
}

/// The value of each constant is its exact SI value rounded to the nearest
/// binary64 number, ties to even: the number that the decimal literal
/// denotes in binary64 arithmetic.
pub proof fn lemma_value_rounds_decimal(c: UniversalConstant)
    ensures
        rounds_to(c.decimal(), c.spec_value()),
{
    match c {
        UniversalConstant::SpeedOfLight => lemma_speed_of_light_rounds(),
        UniversalConstant::PlanckConstant => lemma_planck_constant_rounds(),
        UniversalConstant::ElementaryCharge => lemma_elementary_charge_rounds(),
        UniversalConstant::BoltzmannConstant => lemma_boltzmann_constant_rounds(),
        UniversalConstant::AvogadroConstant => lemma_avogadro_constant_rounds(),
    }
}

/// The value of each constant is the one binary64 number that its exact SI
/// value rounds to.
pub proof fn lemma_value_is_decimal_rounded(c: UniversalConstant, b: Binary64)
    ensures
        rounds_to(c.decimal(), b) <==> b == c.spec_value(),
{
    lemma_value_rounds_decimal(c);
    if rounds_to(c.decimal(), b) {
        lemma_rounds_to_is_unique(c.decimal(), b, c.spec_value());
    }
}

} // verus!
