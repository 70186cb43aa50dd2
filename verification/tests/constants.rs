use universal_constants::binary64::Binary64;
use universal_constants::universal_constants::{CompareOp, UniversalConstant};

const ALL: [UniversalConstant; 5] = [
    UniversalConstant::SpeedOfLight,
    UniversalConstant::PlanckConstant,
    UniversalConstant::ElementaryCharge,
    UniversalConstant::BoltzmannConstant,
    UniversalConstant::AvogadroConstant,
];

const ALL_OPS: [CompareOp; 6] = [
    CompareOp::Lt,
    CompareOp::Le,
    CompareOp::Eq,
    CompareOp::Ne,
    CompareOp::Gt,
    CompareOp::Ge,
];

fn float(c: UniversalConstant) -> f64 {
    f64::from_bits(c.value().to_bits())
}

#[test]
fn value_of_speed_of_light() {
    assert_eq!(float(UniversalConstant::SpeedOfLight), 2.99792458e8);
    assert_eq!(float(UniversalConstant::SpeedOfLight), 299792458.0);
}

#[test]
fn value_of_planck_constant() {
    assert_eq!(float(UniversalConstant::PlanckConstant), 6.62607015e-34);
}

#[test]
fn value_of_elementary_charge() {
    assert_eq!(float(UniversalConstant::ElementaryCharge), 1.602176634e-19);
}

#[test]
fn value_of_boltzmann_constant() {
    assert_eq!(float(UniversalConstant::BoltzmannConstant), 1.380649e-23);
}

#[test]
fn value_of_avogadro_constant() {
    assert_eq!(float(UniversalConstant::AvogadroConstant), 6.02214076e23);
}

#[test]
fn value_encodings_are_bit_exact() {
    assert_eq!(UniversalConstant::SpeedOfLight.value().to_bits(), 2.99792458e8f64.to_bits());
    assert_eq!(UniversalConstant::PlanckConstant.value().to_bits(), 6.62607015e-34f64.to_bits());
    assert_eq!(UniversalConstant::ElementaryCharge.value().to_bits(), 1.602176634e-19f64.to_bits());
    assert_eq!(UniversalConstant::BoltzmannConstant.value().to_bits(), 1.380649e-23f64.to_bits());
    assert_eq!(UniversalConstant::AvogadroConstant.value().to_bits(), 6.02214076e23f64.to_bits());
}

#[test]
fn values_are_positive_normal_numbers() {
    for c in ALL {
        let v = float(c);
        assert!(v.is_normal());
        assert!(v > 0.0);
        assert!(!c.value().is_nan());
    }
}

#[test]
fn name_is_the_variant_identifier() {
    assert_eq!(UniversalConstant::SpeedOfLight.name(), "SpeedOfLight");
    assert_eq!(UniversalConstant::PlanckConstant.name(), "PlanckConstant");
    assert_eq!(UniversalConstant::ElementaryCharge.name(), "ElementaryCharge");
    assert_eq!(UniversalConstant::BoltzmannConstant.name(), "BoltzmannConstant");
    assert_eq!(UniversalConstant::AvogadroConstant.name(), "AvogadroConstant");
}

#[test]
fn name_matches_debug_form() {
    for c in ALL {
        assert_eq!(c.name(), format!("{:?}", c));
    }
}

#[test]
fn literal_is_the_si_value() {
    assert_eq!(UniversalConstant::SpeedOfLight.literal(), "2.99792458e8");
    assert_eq!(UniversalConstant::PlanckConstant.literal(), "6.62607015e-34");
    assert_eq!(UniversalConstant::ElementaryCharge.literal(), "1.602176634e-19");
    assert_eq!(UniversalConstant::BoltzmannConstant.literal(), "1.380649e-23");
    assert_eq!(UniversalConstant::AvogadroConstant.literal(), "6.02214076e23");
}

#[test]
fn literal_parses_to_value() {
    for c in ALL {
        let parsed: f64 = c.literal().parse().unwrap();
        assert_eq!(parsed.to_bits(), c.value().to_bits());
    }
}

#[test]
fn literal_is_value_in_scientific_notation() {
    for c in ALL {
        assert_eq!(format!("{:e}", float(c)), c.literal());
    }
}

#[test]
fn display_of_each_constant() {
    assert_eq!(
        UniversalConstant::SpeedOfLight.display(),
        "<PhysicalConstant.SpeedOfLight = 2.99792458e8>"
    );
    assert_eq!(
        UniversalConstant::PlanckConstant.display(),
        "<PhysicalConstant.PlanckConstant = 6.62607015e-34>"
    );
    assert_eq!(
        UniversalConstant::ElementaryCharge.display(),
        "<PhysicalConstant.ElementaryCharge = 1.602176634e-19>"
    );
    assert_eq!(
        UniversalConstant::BoltzmannConstant.display(),
        "<PhysicalConstant.BoltzmannConstant = 1.380649e-23>"
    );
    assert_eq!(
        UniversalConstant::AvogadroConstant.display(),
        "<PhysicalConstant.AvogadroConstant = 6.02214076e23>"
    );
}

#[test]
fn display_is_built_from_name_and_literal() {
    for c in ALL {
        let expected = format!("<PhysicalConstant.{} = {}>", c.name(), c.literal());
        assert_eq!(c.display(), expected);
    }
}

#[test]
fn display_is_repeatable() {
    for c in ALL {
        assert_eq!(c.display(), c.display());
    }
}

#[test]
fn equals_examples() {
    assert!(UniversalConstant::SpeedOfLight.equals(&UniversalConstant::SpeedOfLight));
    assert!(!UniversalConstant::SpeedOfLight.equals(&UniversalConstant::PlanckConstant));
}

#[test]
fn equals_agrees_with_float_equality() {
    for a in ALL {
        for b in ALL {
            assert_eq!(a.equals(&b), float(a) == float(b));
        }
    }
}

#[test]
fn equals_only_for_the_same_variant() {
    for a in ALL {
        for b in ALL {
            assert_eq!(a.equals(&b), a == b);
        }
    }
}

#[test]
fn not_equals_negates_equals() {
    for a in ALL {
        for b in ALL {
            assert_eq!(a.not_equals(&b), !a.equals(&b));
            assert_eq!(a.not_equals(&b), float(a) != float(b));
        }
    }
}

#[test]
fn rich_compare_answers_equality() {
    for a in ALL {
        for b in ALL {
            assert_eq!(a.rich_compare(&b, CompareOp::Eq), Some(a == b));
            assert_eq!(a.rich_compare(&b, CompareOp::Ne), Some(a != b));
        }
    }
}

#[test]
fn rich_compare_rejects_ordering() {
    for a in ALL {
        for b in ALL {
            assert_eq!(a.rich_compare(&b, CompareOp::Lt), None);
            assert_eq!(a.rich_compare(&b, CompareOp::Le), None);
            assert_eq!(a.rich_compare(&b, CompareOp::Gt), None);
            assert_eq!(a.rich_compare(&b, CompareOp::Ge), None);
        }
    }
}

#[test]
fn rich_compare_defined_exactly_for_eq_and_ne() {
    let a = UniversalConstant::BoltzmannConstant;
    let b = UniversalConstant::AvogadroConstant;
    for op in ALL_OPS {
        let defined = matches!(op, CompareOp::Eq | CompareOp::Ne);
        assert_eq!(a.rich_compare(&b, op).is_some(), defined);
    }
}

#[test]
fn value_survives_a_round_trip_through_bits() {
    for c in ALL {
        let v = c.value();
        assert_eq!(Binary64::from_bits(v.to_bits()), v);
    }
}

/// The exact SI value of each constant: coefficient and power of ten.
const SI: [(UniversalConstant, u64, i32); 5] = [
    (UniversalConstant::SpeedOfLight, 299_792_458, 0),
    (UniversalConstant::PlanckConstant, 662_607_015, -42),
    (UniversalConstant::ElementaryCharge, 1_602_176_634, -28),
    (UniversalConstant::BoltzmannConstant, 1_380_649, -29),
    (UniversalConstant::AvogadroConstant, 602_214_076, 15),
];

#[test]
fn value_is_the_si_decimal_rounded_to_nearest() {
    for (c, coefficient, exponent) in SI {
        let rounded: f64 = format!("{}e{}", coefficient, exponent).parse().unwrap();
        assert_eq!(rounded.to_bits(), c.value().to_bits());
    }
}

#[test]
fn neighbours_of_value_are_other_numbers() {
    for (c, coefficient, exponent) in SI {
        let rounded: f64 = format!("{}e{}", coefficient, exponent).parse().unwrap();
        let bits = c.value().to_bits();
        assert_ne!(rounded.to_bits(), bits + 1);
        assert_ne!(rounded.to_bits(), bits - 1);
        assert!(f64::from_bits(bits - 1) < rounded && rounded < f64::from_bits(bits + 1));
    }
}

#[test]
fn literal_is_the_si_decimal_in_scientific_notation() {
    for (c, coefficient, exponent) in SI {
        let digits = coefficient.to_string();
        let first = &digits[..1];
        let rest = &digits[1..];
        let power = exponent + digits.len() as i32 - 1;
        assert_eq!(c.literal(), format!("{}.{}e{}", first, rest, power));
    }
}

#[test]
fn speed_of_light_is_held_exactly() {
    let v = f64::from_bits(UniversalConstant::SpeedOfLight.value().to_bits());
    assert_eq!(v as u64, 299_792_458);
    assert_eq!(v.fract(), 0.0);
}

#[test]
fn constants_are_copied_and_compared_by_variant() {
    let a = UniversalConstant::ElementaryCharge;
    let b = a;
    assert_eq!(a, b);
    assert_ne!(a, UniversalConstant::BoltzmannConstant);
    assert_eq!(CompareOp::Lt, CompareOp::Lt);
    assert_ne!(CompareOp::Lt, CompareOp::Le);
}

#[test]
fn names_are_distinct() {
    for a in ALL {
        for b in ALL {
            assert_eq!(a.name() == b.name(), a == b);
        }
    }
}

#[test]
fn displays_are_distinct() {
    for a in ALL {
        for b in ALL {
            assert_eq!(a.display() == b.display(), a == b);
        }
    }
}
