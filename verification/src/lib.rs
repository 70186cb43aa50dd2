//! Universal physical constants with exact, machine-checked values.
//!
//! [`universal_constants::UniversalConstant`] is a closed set of five
//! constants of nature. Each one has a name, a numeric value and a printed
//! form, and two of them can be compared for equality.
//!
//! The value of a constant is a floating-point number. It is carried as a
//! [`binary64::Binary64`], the 64-bit IEEE 754 encoding held in an integer,
//! so that every statement about a value is a statement about integers:
//! that it is the exact SI value ([`decimal::Decimal`]) rounded to nearest
//! ([`rounding::rounds_to`]), and that two values are equal as numbers.

pub mod binary64;
pub mod decimal;
pub mod rounding;
pub mod universal_constants;
