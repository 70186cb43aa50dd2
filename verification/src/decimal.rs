//! Decimal numbers and how they are written.

use vstd::prelude::*;

verus! {

/// A non-negative decimal number: `coefficient * 10^exponent`.
pub struct Decimal {
    pub coefficient: nat,
    pub exponent: int,
}

/// The character for a digit below ten.
pub open spec fn digit(n: nat) -> char {
    seq!['0', '1', '2', '3', '4', '5', '6', '7', '8', '9'][n as int]
}

/// The decimal digits of `n`, the most significant first.
pub open spec fn digits(n: nat) -> Seq<char>
    decreases n,
{
    if n < 10 {
        seq![digit(n)]
    } else {
        digits(n / 10).push(digit(n % 10))
    }
}

/// The decimal digits of `i`, after a minus sign where `i` is negative.
pub open spec fn signed_digits(i: int) -> Seq<char> {
    if i < 0 {
        seq!['-'] + digits((-i) as nat)
    } else {
        digits(i as nat)
    }
}

/// `d` in scientific notation: the first digit of the coefficient; a point
/// and the other digits, where there are any; `e`; and the power of ten that
/// the first digit counts.
pub open spec fn scientific(d: Decimal) -> Seq<char> {
    let all = digits(d.coefficient);
    let point = if all.len() > 1 {
        seq!['.']
    } else {
        seq![]
    };
    all.take(1) + point + all.skip(1) + seq!['e'] + signed_digits(d.exponent + all.len() - 1)
}

} // verus!
