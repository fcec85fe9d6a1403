//! What single-precision numbers are worth.

use crate::formula::{half, two};
use crate::numeric::{one, zero, Real};
use vstd::prelude::*;

verus! {

/// A power of two.
pub open spec fn two_to(n: int) -> int
    decreases n,
{
    if n <= 0 {
        1
    } else {
        2 * two_to(n - 1)
    }
}

/// How many of the least positive number make one.
pub open spec fn unit() -> int {
    two_to(149)
}

/// Neither infinite nor a NaN.
pub open spec fn finite(x: Real) -> bool {
    x.bits % 0x8000_0000 < 0x7f80_0000
}

/// A magnitude in units of the least positive number: the fraction, with a leading one and
/// shifted by the exponent where that is not the lowest.
pub open spec fn size_of(m: int) -> int {
    let exponent = m / 0x80_0000;
    let fraction = m % 0x80_0000;
    if exponent == 0 {
        fraction
    } else {
        (0x80_0000 + fraction) * two_to(exponent - 1)
    }
}

/// A finite number in units of the least positive one.
pub open spec fn units(x: Real) -> int {
    if x.bits < 0x8000_0000 {
        size_of(x.bits as int)
    } else {
        -size_of(x.bits - 0x8000_0000)
    }
}

proof fn two_to_grows(a: int, b: int)
    requires
        0 <= a <= b,
    ensures
        1 <= two_to(a) <= two_to(b),
    decreases b,
{
    if b > 0 {
        if a < b {
            two_to_grows(a, b - 1);
        } else {
            two_to_grows(a - 1, b - 1);
        }
    }
}

proof fn sizes_grow(a: int, b: int)
    requires
        0 <= a < b,
    ensures
        0 <= size_of(a) < size_of(b),
{
    let d = a / 0x80_0000;
    let e = b / 0x80_0000;
    let f = a % 0x80_0000;
    let h = b % 0x80_0000;
    assert(a == d * 0x80_0000 + f && b == e * 0x80_0000 + h);
    assert(0 <= d <= e);
    if e > 0 {
        two_to_grows(0, e - 1);
        let t = two_to(e - 1);
        if d == e {
            assert(f < h);
            assert(0 <= (0x80_0000 + f) * t < (0x80_0000 + h) * t) by (nonlinear_arith)
                requires
                    0 <= f < h,
                    t >= 1,
            ;
        } else if d == 0 {
            assert((0x80_0000 + h) * t >= 0x80_0000) by (nonlinear_arith)
                requires
                    0 <= h,
                    t >= 1,
            ;
        } else {
            let u = two_to(d - 1);
            two_to_grows(d, e - 1);
            two_to_grows(0, d - 1);
            assert(two_to(d) == 2 * u);
            assert(0 <= (0x80_0000 + f) * u < (0x80_0000 + h) * t) by (nonlinear_arith)
                requires
                    0 <= f < 0x80_0000,
                    0 <= h,
                    1 <= u,
                    2 * u <= t,
            ;
        }
    }
}

/// Finite numbers are compared by what they are worth, and no other order is known to the
/// library.
pub proof fn order_is_by_worth(a: Real, b: Real)
    requires
        finite(a),
        finite(b),
    ensures
        a.less(b) <==> units(a) < units(b),
        a.at_most(b) <==> units(a) <= units(b),
        a.rank() < b.rank() <==> units(a) < units(b),
        a.rank() == b.rank() <==> units(a) == units(b),
        !a.is_nan(),
{
    let x = a.magnitude();
    let y = b.magnitude();
    assert(size_of(0) == 0);
    if x < y {
        sizes_grow(x, y);
    } else if y < x {
        sizes_grow(y, x);
    }
    if x > 0 {
        sizes_grow(0, x);
    }
    if y > 0 {
        sizes_grow(0, y);
    }
}

/// Turning the sign of a number turns the sign of its worth, and leaving the sign out leaves the
/// worth without it.
pub proof fn signs_turn_worth(a: Real)
    requires
        finite(a),
    ensures
        finite(a.negated()),
        units(a.negated()) == -units(a),
        finite(a.absolute()),
        units(a.absolute()) == (if units(a) < 0 {
            -units(a)
        } else {
            units(a)
        }),
{
    assert(size_of(0) == 0);
    if a.magnitude() > 0 {
        sizes_grow(0, a.magnitude());
    }
}

/// The greater and the smaller of two numbers, and a number held between two others.
pub proof fn choices_are_by_worth(a: Real, b: Real, c: Real)
    requires
        finite(a),
        finite(b),
        finite(c),
    ensures
        finite(a.greater_of(b)),
        units(a.greater_of(b)) == (if units(a) < units(b) {
            units(b)
        } else {
            units(a)
        }),
        finite(a.smaller_of(b)),
        units(a.smaller_of(b)) == (if units(a) < units(b) {
            units(a)
        } else {
            units(b)
        }),
        units(b) <= units(c) ==> units(b) <= units(a.held_within(b, c)) <= units(c),
        units(b) <= units(a) <= units(c) ==> a.held_within(b, c) == a,
        units(b) <= units(c) && units(a) < units(b) ==> a.held_within(b, c) == b,
        units(b) <= units(c) && units(c) < units(a) ==> a.held_within(b, c) == c,
{
    order_is_by_worth(a, b);
    order_is_by_worth(b, a);
    order_is_by_worth(a, c);
    order_is_by_worth(c, a);
    order_is_by_worth(b, c);
}

proof fn powers_add(a: int, b: int)
    requires
        a >= 0,
        b >= 0,
    ensures
        two_to(a) * two_to(b) == two_to(a + b),
    decreases a,
{
    if a > 0 {
        powers_add(a - 1, b);
        let x = two_to(a - 1);
        let y = two_to(b);
        assert((2 * x) * y == 2 * (x * y)) by (nonlinear_arith);
    }
}

/// The numbers that formulas name are worth what their names say.
pub proof fn names_say_worth()
    ensures
        unit() > 0,
        finite(zero()) && units(zero()) == 0,
        finite(one()) && units(one()) == unit(),
        finite(half()) && 2 * units(half()) == unit(),
        finite(two()) && units(two()) == 2 * unit(),
{
    two_to_grows(0, 149);
    assert(two_to(23) == 0x80_0000) by {
        reveal_with_fuel(two_to, 25);
    }
    powers_add(23, 126);
    powers_add(23, 125);
    powers_add(23, 127);
    assert(0x3f80_0000int / 0x80_0000 == 127 && 0x3f80_0000int % 0x80_0000 == 0);
    assert(0x3f00_0000int / 0x80_0000 == 126 && 0x3f00_0000int % 0x80_0000 == 0);
    assert(0x4000_0000int / 0x80_0000 == 128 && 0x4000_0000int % 0x80_0000 == 0);
    assert(two_to(149) == 2 * two_to(148));
    assert(two_to(150) == 2 * two_to(149));
}

/// Two powers of two are worth what they are.
pub proof fn powers_have_worth()
    ensures
        units(Real { bits: 0x5f80_0000 }) == 0x1_0000_0000_0000_0000 * unit(),
        units(Real { bits: 0x4f80_0000 }) == 0x1_0000_0000 * unit(),
{
    assert(two_to(23) == 0x80_0000 && two_to(32) == 0x1_0000_0000) by {
        reveal_with_fuel(two_to, 34);
    }
    powers_add(32, 32);
    assert(0x1_0000_0000int * 0x1_0000_0000int == 0x1_0000_0000_0000_0000int) by (nonlinear_arith);
    powers_add(23, 190);
    powers_add(64, 149);
    powers_add(23, 158);
    powers_add(32, 149);
    assert(0x5f80_0000int / 0x80_0000 == 191 && 0x5f80_0000int % 0x80_0000 == 0);
    assert(0x4f80_0000int / 0x80_0000 == 159 && 0x4f80_0000int % 0x80_0000 == 0);
}

/// Some whole numbers are worth what they are.
pub proof fn small_counts_have_worth()
    ensures
        finite(Real { bits: 0x4080_0000 }) && units(Real { bits: 0x4080_0000 }) == 4 * unit(),
        finite(Real { bits: 0x4180_0000 }) && units(Real { bits: 0x4180_0000 }) == 16 * unit(),
        finite(Real { bits: 0x41a0_0000 }) && units(Real { bits: 0x41a0_0000 }) == 20 * unit(),
        finite(Real { bits: 0x41c0_0000 }) && units(Real { bits: 0x41c0_0000 }) == 24 * unit(),
        finite(Real { bits: 0x4500_0000 }) && units(Real { bits: 0x4500_0000 }) == 2048 * unit(),
        finite(Real { bits: 0x41e0_0000 }) && units(Real { bits: 0x41e0_0000 }) == 28 * unit(),
        finite(Real { bits: 0x41b0_0000 }) && units(Real { bits: 0x41b0_0000 }) == 22 * unit(),
        finite(Real { bits: 0x4190_0000 }) && units(Real { bits: 0x4190_0000 }) == 18 * unit(),
        finite(Real { bits: 0x4040_0000 }) && units(Real { bits: 0x4040_0000 }) == 3 * unit(),
        finite(Real { bits: 0x4240_0000 }) && units(Real { bits: 0x4240_0000 }) == 48 * unit(),
        finite(Real { bits: 0x4320_0000 }) && units(Real { bits: 0x4320_0000 }) == 160 * unit(),
        finite(Real { bits: 0x4298_0000 }) && units(Real { bits: 0x4298_0000 }) == 76 * unit(),
        finite(Real { bits: 0x4120_0000 }) && units(Real { bits: 0x4120_0000 }) == 10 * unit(),
        finite(Real { bits: 0x40a0_0000 }) && units(Real { bits: 0x40a0_0000 }) == 5 * unit(),
        finite(Real { bits: 0x4402_0000 }) && units(Real { bits: 0x4402_0000 }) == 520 * unit(),
        finite(Real { bits: 0x43a0_0000 }) && units(Real { bits: 0x43a0_0000 }) == 320 * unit(),
{
    reveal_with_fuel(two_to, 13);
    count_worth(0x4080_0000, 129, 0, 4);
    count_worth(0x4180_0000, 131, 0, 16);
    count_worth(0x41a0_0000, 131, 0x20_0000, 20);
    count_worth(0x41c0_0000, 131, 0x40_0000, 24);
    count_worth(0x4500_0000, 138, 0, 2048);
    count_worth(0x41e0_0000, 131, 0x60_0000, 28);
    count_worth(0x41b0_0000, 131, 0x30_0000, 22);
    count_worth(0x4190_0000, 131, 0x10_0000, 18);
    count_worth(0x4040_0000, 128, 0x40_0000, 3);
    count_worth(0x4240_0000, 132, 0x40_0000, 48);
    count_worth(0x4320_0000, 134, 0x20_0000, 160);
    count_worth(0x4298_0000, 133, 0x18_0000, 76);
    count_worth(0x4120_0000, 130, 0x20_0000, 10);
    count_worth(0x40a0_0000, 129, 0x20_0000, 5);
    count_worth(0x4402_0000, 136, 0x02_0000, 520);
    count_worth(0x43a0_0000, 135, 0x20_0000, 320);
}

/// An encoding of a whole number below sixteen thousand.
proof fn count_worth(bits: u32, exponent: int, fraction: int, n: int)
    requires
        bits == exponent * 0x80_0000 + fraction,
        127 <= exponent <= 140,
        0 <= fraction < 0x80_0000,
        (0x80_0000 + fraction) * two_to(exponent - 127) == n * 0x80_0000,
    ensures
        finite(Real { bits }),
        units(Real { bits }) == n * unit(),
{
    let m = bits as int;
    assert(m / 0x80_0000 == exponent && m % 0x80_0000 == fraction);
    assert(two_to(23) == 0x80_0000) by {
        reveal_with_fuel(two_to, 25);
    }
    powers_add(exponent - 127, 126);
    powers_add(23, 126);
    let (a, b, c) = (two_to(exponent - 127), two_to(126), 0x80_0000 + fraction);
    assert(c * (a * b) == (c * a) * b) by (nonlinear_arith);
    assert((n * 0x80_0000) * b == n * (0x80_0000 * b)) by (nonlinear_arith);
}

/// The largest byte is worth what it is.
pub proof fn full_byte_has_worth()
    ensures
        finite(Real { bits: 0x437f_0000 }) && units(Real { bits: 0x437f_0000 }) == 255 * unit(),
{
    reveal_with_fuel(two_to, 9);
    count_worth(0x437f_0000, 134, 0x7f_0000, 255);
}

} // verus!
