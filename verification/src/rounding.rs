//! Rounding of decimal numbers to binary64.
//!
//! A decimal literal such as `6.62607015e-34` names a rational number that
//! binary64 cannot hold exactly. The number that stands for it is the nearest
//! one, and of two equally near ones the one whose significand is even. This
//! module states that relation over integers, and proves that it picks one
//! number at most.

use crate::binary64::{lemma_exponent_orders_magnitude, lemma_ieee_eq_is_numeric, Binary64};
use crate::decimal::Decimal;
use vstd::arithmetic::power::{lemma_pow_positive, pow};
use vstd::arithmetic::power2::{
    lemma_pow2_adds, lemma_pow2_pos, lemma_pow2_strictly_increases, lemma_pow2_unfold, pow2,
};
use vstd::prelude::*;

verus! {

/// `10^k` for a positive `k`, and 1 for any other `k`.
pub open spec fn pow10_or_one(k: int) -> int {
    if k > 0 {
        pow(10, k as nat)
    } else {
        1
    }
}

/// Whether the distance `gap` is within half of `unit`; where it is exactly
/// half, only if `to_even` holds.
pub open spec fn within_half(gap: int, unit: int, to_even: bool) -> bool {
    2 * gap < unit || (2 * gap == unit && to_even)
}

/// Whether the numbers just below the finite number `b` lie twice as dense
/// as those above it: `b` is the least number of its binade (a zero
/// fraction), and the binade below holds normal numbers.
pub open spec fn dense_below(b: Binary64) -> bool {
    b.fraction() == 0 && b.biased_exponent() > 1
}

/// `b` is the decimal number `d` rounded to the nearest binary64 number,
/// ties to even.
///
/// It holds of finite, non-negative `b` only: of a `d` so large that it
/// rounds to infinity it holds for no `b`.
///
/// The three numbers compared are integers: `b`, `d` and the unit in the
/// last place of `b`, each in units of `2^-1074` and times `10^-q` where the
/// exponent `q` of `d` is negative. From `b` up, the next number is one unit
/// in the last place away. So it is from `b` down, except where
/// [`dense_below`] holds: there it is half a unit away.
pub open spec fn rounds_to(d: Decimal, b: Binary64) -> bool {
    let scale = pow10_or_one(-d.exponent);
    let v = b.scaled_magnitude() * scale;
    let x = d.coefficient * pow10_or_one(d.exponent) * pow2(1074);
    let ulp = b.scaled_ulp() * scale;
    let even = b.significand() % 2 == 0;
    &&& b.is_finite()
    &&& !b.sign_bit()
    &&& x >= v ==> within_half(x - v, ulp, even)
    &&& x < v ==> if dense_below(b) {
        4 * (v - x) <= ulp
    } else {
        within_half(v - x, ulp, even)
    }
}

/// Twice the distance from the finite number `b` down to the next number, in
/// units of `2^-1074`.
spec fn twice_gap_below(b: Binary64) -> nat {
    if dense_below(b) {
        b.scaled_ulp()
    } else {
        2 * b.scaled_ulp()
    }
}

/// Multiplying by a positive number keeps the order of two numbers.
proof fn lemma_scale_keeps_order(x: int, y: int, f: int)
    by (nonlinear_arith)
    requires
        f > 0,
    ensures
        x < y <==> x * f < y * f,
        x == y <==> x * f == y * f,
{
}

/// The number above a finite number is one unit in the last place away, at
/// least.
proof fn lemma_gap_above(a: Binary64, b: Binary64)
    requires
        a.is_finite(),
        b.is_finite(),
        a.scaled_magnitude() < b.scaled_magnitude(),
    ensures
        b.scaled_magnitude() - a.scaled_magnitude() >= a.scaled_ulp(),
{
    let ka = (a.exponent() + 1074) as nat;
    let kb = (b.exponent() + 1074) as nat;
    let ma = a.significand() as int;
    let mb = b.significand() as int;
    let pa = pow2(ka) as int;
    let pb = pow2(kb) as int;
    if kb < ka {
        lemma_exponent_orders_magnitude(b, a);
    }
    lemma_pow2_pos(ka);
    lemma_pow2_adds((kb - ka) as nat, ka);
    let j = mb * pow2((kb - ka) as nat);
    assert(mb * pb == j * pa) by (nonlinear_arith)
        requires
            pb == pow2((kb - ka) as nat) * pa,
            j == mb * pow2((kb - ka) as nat),
    ;
    lemma_scale_keeps_order(ma, j, pa);
    assert(j * pa - ma * pa >= pa) by (nonlinear_arith)
        requires
            j >= ma + 1,
            pa > 0,
    ;
}

/// The number below a finite number is as far away as [`twice_gap_below`]
/// says, at least.
proof fn lemma_gap_below(a: Binary64, b: Binary64)
    requires
        a.is_finite(),
        b.is_finite(),
        a.scaled_magnitude() < b.scaled_magnitude(),
    ensures
        2 * (b.scaled_magnitude() - a.scaled_magnitude()) >= twice_gap_below(b),
{
    let ka = (a.exponent() + 1074) as nat;
    let kb = (b.exponent() + 1074) as nat;
    let ma = a.significand() as int;
    let mb = b.significand() as int;
    let pa = pow2(ka) as int;
    let pb = pow2(kb) as int;
    if kb < ka {
        lemma_exponent_orders_magnitude(b, a);
    }
    lemma_pow2_pos(ka);
    lemma_pow2_pos(kb);
    if ka == kb {
        lemma_scale_keeps_order(ma, mb, pa);
        assert(mb * pa - ma * pa >= pa) by (nonlinear_arith)
            requires
                mb >= ma + 1,
                pa > 0,
        ;
    } else {
        let h = pow2((kb - 1) as nat) as int;
        lemma_pow2_unfold(kb);
        if ka < kb - 1 {
            lemma_pow2_strictly_increases(ka, (kb - 1) as nat);
        }
        assert(ma * pa <= 0x1f_ffff_ffff_ffff * h) by (nonlinear_arith)
            requires
                0 <= ma <= 0x1f_ffff_ffff_ffff,
                0 < pa <= h,
        ;
        if mb == 0x10_0000_0000_0000 {
            assert(mb * pb == 0x20_0000_0000_0000 * h) by (nonlinear_arith)
                requires
                    mb == 0x10_0000_0000_0000,
                    pb == 2 * h,
            ;
        } else {
            assert(mb * pb >= 0x20_0000_0000_0002 * h) by (nonlinear_arith)
                requires
                    mb >= 0x10_0000_0000_0001,
                    pb == 2 * h,
                    h > 0,
            ;
        }
    }
}

/// Two finite numbers next to one another do not both win a tie: where
/// their distance is the gap above the lower one and the gap below the
/// upper one, the lower significand is odd, or the upper one is odd and
/// [`dense_below`] does not hold of it.
proof fn lemma_neighbours_differ_in_parity(a: Binary64, b: Binary64)
    requires
        a.is_finite(),
        b.is_finite(),
        b.scaled_magnitude() - a.scaled_magnitude() == a.scaled_ulp(),
        2 * (b.scaled_magnitude() - a.scaled_magnitude()) == twice_gap_below(b),
    ensures
        !(a.significand() % 2 == 0 && (dense_below(b) || b.significand() % 2 == 0)),
{
    let ka = (a.exponent() + 1074) as nat;
    let kb = (b.exponent() + 1074) as nat;
    let ma = a.significand() as int;
    let mb = b.significand() as int;
    let pa = pow2(ka) as int;
    let pb = pow2(kb) as int;
    lemma_pow2_pos(ka);
    lemma_pow2_pos(kb);
    if kb < ka {
        lemma_exponent_orders_magnitude(b, a);
    }
    if ka == kb {
        assert(mb == ma + 1) by (nonlinear_arith)
            requires
                mb * pa - ma * pa == pa,
                pa > 0,
        ;
    } else {
        lemma_pow2_strictly_increases(ka, kb);
        if dense_below(b) {
            assert(ma == 0x1f_ffff_ffff_ffff) by (nonlinear_arith)
                requires
                    mb == 0x10_0000_0000_0000,
                    pb == 2 * pa,
                    mb * pb - ma * pa == pa,
                    pa > 0,
            ;
        }
    }
}

/// `2^k` for a positive `k`, and 1 for any other `k`.
pub open spec fn pow2_or_one(k: int) -> int {
    if k > 0 {
        pow2(k as nat) as int
    } else {
        1
    }
}

/// `d` rounds to `b` where it lies less than half a unit in the last place
/// from `b`, and `b` is not the least number of its binade.
///
/// This is for a caller who knows `b` and `d` by value. The comparison is
/// made on a scale of its own, on which the numbers are small: `b` and `d`
/// times `2^-e` where the exponent `e` of `b` is negative, and times `10^-q`
/// where the exponent `q` of `d` is. The caller gives the four powers
/// `2^max(e, 0)`, `2^max(-e, 0)`, `10^max(q, 0)` and `10^max(-q, 0)` by
/// value, and so has products of known numbers to compare.
pub proof fn lemma_rounds_strictly_nearest(
    d: Decimal,
    b: Binary64,
    two_up: int,
    two_down: int,
    ten_up: int,
    ten_down: int,
)
    requires
        b.is_finite(),
        !b.sign_bit(),
        b.fraction() != 0,
        two_up == pow2_or_one(b.exponent()),
        two_down == pow2_or_one(-b.exponent()),
        ten_up == pow10_or_one(d.exponent),
        ten_down == pow10_or_one(-d.exponent),
        ({
            let v = b.significand() * two_up * ten_down;
            let x = d.coefficient * ten_up * two_down;
            let ulp = two_up * ten_down;
            2 * (x - v) < ulp && 2 * (v - x) < ulp
        }),
    ensures
        rounds_to(d, b),
{
    let e = b.exponent();
    let k = (e + 1074) as nat;
    let f = if e > 0 {
        pow2(1074) as int
    } else {
        pow2(k) as int
    };
    let m = b.significand() as int;
    let c = d.coefficient as int;
    let pk = pow2(k) as int;
    let top = pow2(1074) as int;
    lemma_pow2_pos(1074);
    lemma_pow2_pos(k);
    if e > 0 {
        lemma_pow2_adds(e as nat, 1074);
    }
    if e < 0 {
        lemma_pow2_adds((-e) as nat, k);
    }
    let lv = m * two_up * ten_down;
    let lx = c * ten_up * two_down;
    let lu = two_up * ten_down;
    let v = m * pk * ten_down;
    let x = c * ten_up * top;
    let u = pk * ten_down;
    assert(lv * f == v && lu * f == u) by (nonlinear_arith)
        requires
            two_up * f == pk,
            lv == m * two_up * ten_down,
            lu == two_up * ten_down,
            v == m * pk * ten_down,
            u == pk * ten_down,
    ;
    assert(lx * f == x) by (nonlinear_arith)
        requires
            two_down * f == top,
            lx == c * ten_up * two_down,
            x == c * ten_up * top,
    ;
    lemma_scale_keeps_order(2 * (lx - lv), lu, f);
    lemma_scale_keeps_order(2 * (lv - lx), lu, f);
    assert(2 * (lx - lv) * f == 2 * (x - v) && 2 * (lv - lx) * f == 2 * (v - x))
        by (nonlinear_arith)
        requires
            lv * f == v,
            lx * f == x,
    ;
}

/// Of two numbers that `d` rounds to, the second is not the greater.
proof fn lemma_rounded_is_not_below(d: Decimal, a: Binary64, b: Binary64)
    requires
        rounds_to(d, a),
        rounds_to(d, b),
    ensures
        b.scaled_magnitude() <= a.scaled_magnitude(),
{
    if a.scaled_magnitude() < b.scaled_magnitude() {
        let scale = pow10_or_one(-d.exponent);
        if d.exponent < 0 {
            lemma_pow_positive(10, (-d.exponent) as nat);
        }
        let sa = a.scaled_magnitude() as int;
        let sb = b.scaled_magnitude() as int;
        let ulp_a = a.scaled_ulp() as int;
        let ulp_b = b.scaled_ulp() as int;
        let gap_b = twice_gap_below(b) as int;
        // `b` lies above `a` by the gap above `a` and by the gap below `b`,
        // at least. So it does where all are multiplied by `scale`.
        lemma_gap_above(a, b);
        lemma_gap_below(a, b);
        lemma_scale_keeps_order(sa, sb, scale);
        lemma_scale_keeps_order(ulp_a, sb - sa, scale);
        lemma_scale_keeps_order(gap_b, 2 * (sb - sa), scale);
        assert((sb - sa) * scale == sb * scale - sa * scale && 2 * (sb - sa) * scale == 2 * (sb
            * scale - sa * scale) && (2 * ulp_b) * scale == 2 * (ulp_b * scale))
            by (nonlinear_arith);
        // `d` lies within half of either gap, so the two gaps are the whole
        // distance and `d` is the midpoint: both numbers win a tie.
        lemma_neighbours_differ_in_parity(a, b);
    }
}

/// A decimal number rounds to one binary64 number at most: [`rounds_to`]
/// tells which one.
pub proof fn lemma_rounds_to_is_unique(d: Decimal, a: Binary64, b: Binary64)
    requires
        rounds_to(d, a),
        rounds_to(d, b),
    ensures
        a == b,
{
    lemma_rounded_is_not_below(d, a, b);
    lemma_rounded_is_not_below(d, b, a);
    lemma_ieee_eq_is_numeric(a, b);
    assert(a.bits == b.bits);
}

} // verus!
