//! Rotations, placements and framing where the arithmetic is exact.

use crate::exact::{
    differs, divides, exact, finite3, multiplies, sums,
};
use crate::formula::{
    axis_angle, carried, crossed, fit_radius, half, heading, luma, middle, minus, over, plus,
    retreat, squared, stretched, times, turned, turned_on, two,
};
use crate::numeric::{one, Answer, Calc, Quat, Real, Transform, Vec3};
use crate::worth::{finite, names_say_worth, order_is_by_worth, unit, units};
use vstd::prelude::*;

verus! {

/// A calculator whose finite answers on points are the true ones.
pub open spec fn exact_on_points(g: spec_fn(Calc) -> Answer) -> bool {
    &&& forall|a: Vec3, b: Vec3|
        ({
            let r = (#[trigger] g(Calc::Sum(a, b))).point;
            sums(r.x, a.x, b.x) && sums(r.y, a.y, b.y) && sums(r.z, a.z, b.z)
        })
    &&& forall|a: Vec3, b: Vec3|
        ({
            let r = (#[trigger] g(Calc::Gap(a, b))).point;
            differs(r.x, a.x, b.x) && differs(r.y, a.y, b.y) && differs(r.z, a.z, b.z)
        })
    &&& forall|a: Vec3, k: Real|
        ({
            let r = (#[trigger] g(Calc::Scale(a, k))).point;
            multiplies(r.x, a.x, k) && multiplies(r.y, a.y, k) && multiplies(r.z, a.z, k)
        })
    &&& forall|a: Vec3, b: Vec3|
        ({
            let r = (#[trigger] g(Calc::Stretch(a, b))).point;
            multiplies(r.x, a.x, b.x) && multiplies(r.y, a.y, b.y) && multiplies(r.z, a.z, b.z)
        })
    &&& forall|a: Vec3, n: u64|
        ({
            let r = (#[trigger] g(Calc::Shrink(a, n))).point;
            &&& finite(r.x) ==> finite(a.x) && units(r.x) * n == units(a.x)
            &&& finite(r.y) ==> finite(a.y) && units(r.y) * n == units(a.y)
            &&& finite(r.z) ==> finite(a.z) && units(r.z) * n == units(a.z)
        })
}

proof fn crossed_worth(g: spec_fn(Calc) -> Answer, a: Real, b: Real, c: Real, d: Real)
    requires
        exact(g),
        finite(crossed(g, a, b, c, d)),
    ensures
        finite(a) && finite(b) && finite(c) && finite(d),
        units(crossed(g, a, b, c, d)) * unit() == units(a) * units(b) - units(c) * units(d),
{
    let x = times(g, a, b);
    let y = times(g, c, d);
    assert(differs(minus(g, x, y), x, y));
    assert(multiplies(x, a, b));
    assert(multiplies(y, c, d));
    let (p, q, u) = (units(x), units(y), unit());
    assert((p - q) * u == p * u - q * u) by (nonlinear_arith);
}

proof fn doubled_worth(g: spec_fn(Calc) -> Answer, a: Real)
    requires
        exact(g),
        finite(times(g, two(), a)),
    ensures
        finite(a),
        units(times(g, two(), a)) == 2 * units(a),
{
    names_say_worth();
    let r = times(g, two(), a);
    assert(multiplies(r, two(), a));
    let (x, y, u) = (units(r), units(a), unit());
    assert(x == 2 * y) by (nonlinear_arith)
        requires
            x * u == (2 * u) * y,
            u > 0,
    ;
}

/// One coordinate of a turned vector: `v + w*t + (a*s - b*r)`.
proof fn turned_part(
    g: spec_fn(Calc) -> Answer,
    v: Real,
    w: Real,
    t: Real,
    a: Real,
    s: Real,
    b: Real,
    r: Real,
)
    requires
        exact(g),
        finite(plus(g, plus(g, v, times(g, w, t)), crossed(g, a, s, b, r))),
    ensures
        finite(v) && finite(w) && finite(t) && finite(a) && finite(s) && finite(b) && finite(r),
        units(plus(g, plus(g, v, times(g, w, t)), crossed(g, a, s, b, r))) * unit() == units(v)
            * unit() + units(w) * units(t) + units(a) * units(s) - units(b) * units(r),
{
    let wt = times(g, w, t);
    let p = plus(g, v, wt);
    let c = crossed(g, a, s, b, r);
    let q = plus(g, p, c);
    assert(sums(q, p, c));
    assert(sums(p, v, wt));
    assert(multiplies(wt, w, t));
    crossed_worth(g, a, s, b, r);
    let (uq, uv, uw, uc, u) = (units(q), units(v), units(wt), units(c), unit());
    assert((uv + uw + uc) * u == uv * u + uw * u + uc * u) by (nonlinear_arith);
}

/// The expansion behind one row of a rotation matrix. `(w, a, b, c)` is the rotation, with `a`
/// along the coordinate that is computed and `b`, `c` behind it in turn.
proof fn row(p: int, v: int, m: int, n: int, w: int, a: int, b: int, c: int, t: int, r: int, s: int, u: int)
    requires
        p * u == v * u + w * t + b * s - c * r,
        t * u == 2 * (b * n - c * m),
        r * u == 2 * (c * v - a * n),
        s * u == 2 * (a * m - b * v),
    ensures
        p * (u * u) == (u * u - 2 * (b * b + c * c)) * v + 2 * (a * b - w * c) * m + 2 * (a * c + w
            * b) * n,
{
    four_terms(v * u, w * t, b * s, c * r, u);
    moved_factor(p, u, u);
    moved_factor(v, u, u);
    moved_factor(w, t, u);
    moved_factor(b, s, u);
    moved_factor(c, r, u);
    spread(w, b, n, c, m);
    spread(b, a, m, b, v);
    spread(c, c, v, a, n);
    gathered_pair(b * b, c * c, v);
    gathered_pair(a * b, -(w * c), m);
    gathered_pair(a * c, w * b, n);
    let k = u * u;
    let l = 2 * (b * b + c * c);
    assert((k - l) * v == k * v - l * v) by (nonlinear_arith);
    assert(k * v == v * k) by (nonlinear_arith);
    assert(b * a == a * b && c * a == a * c) by (nonlinear_arith);
    let wc = w * c;
    assert((-wc) * m == -(wc * m)) by (nonlinear_arith);
}

proof fn moved_factor(a: int, b: int, c: int)
    ensures
        (a * b) * c == a * (b * c),
{
    assert((a * b) * c == a * (b * c)) by (nonlinear_arith);
}

proof fn spread(a: int, b: int, c: int, d: int, e: int)
    ensures
        a * (2 * (b * c - d * e)) == 2 * ((a * b) * c) - 2 * ((a * d) * e),
{
    moved_factor(a, b, c);
    moved_factor(a, d, e);
    let (x, y) = (b * c, d * e);
    assert(a * (2 * (x - y)) == 2 * (a * x) - 2 * (a * y)) by (nonlinear_arith);
}

proof fn gathered_pair(a: int, b: int, c: int)
    ensures
        (2 * (a + b)) * c == 2 * (a * c) + 2 * (b * c),
{
    assert((2 * (a + b)) * c == 2 * (a * c) + 2 * (b * c)) by (nonlinear_arith);
}

/// Turning a vector multiplies it by the rotation matrix of the quaternion.
pub proof fn turning_is_the_rotation_matrix(g: spec_fn(Calc) -> Answer, q: Quat, v: Vec3)
    requires
        exact(g),
        finite3(turned(g, q, v)),
    ensures
        ({
            let p = turned(g, q, v);
            let (x, y, z, w) = (units(q.x), units(q.y), units(q.z), units(q.w));
            let (a, b, c) = (units(v.x), units(v.y), units(v.z));
            let k = unit() * unit();
            &&& units(p.x) * k == (k - 2 * (y * y + z * z)) * a + 2 * (x * y - w * z) * b + 2 * (x
                * z + w * y) * c
            &&& units(p.y) * k == (k - 2 * (z * z + x * x)) * b + 2 * (y * z - w * x) * c + 2 * (y
                * x + w * z) * a
            &&& units(p.z) * k == (k - 2 * (x * x + y * y)) * c + 2 * (z * x - w * y) * a + 2 * (z
                * y + w * x) * b
        }),
{
    let p = turned(g, q, v);
    let tx = times(g, two(), crossed(g, q.y, v.z, q.z, v.y));
    let ty = times(g, two(), crossed(g, q.z, v.x, q.x, v.z));
    let tz = times(g, two(), crossed(g, q.x, v.y, q.y, v.x));
    turned_part(g, v.x, q.w, tx, q.y, tz, q.z, ty);
    turned_part(g, v.y, q.w, ty, q.z, tx, q.x, tz);
    turned_part(g, v.z, q.w, tz, q.x, ty, q.y, tx);
    doubled_worth(g, crossed(g, q.y, v.z, q.z, v.y));
    doubled_worth(g, crossed(g, q.z, v.x, q.x, v.z));
    doubled_worth(g, crossed(g, q.x, v.y, q.y, v.x));
    crossed_worth(g, q.y, v.z, q.z, v.y);
    crossed_worth(g, q.z, v.x, q.x, v.z);
    crossed_worth(g, q.x, v.y, q.y, v.x);
    let (x, y, z, w) = (units(q.x), units(q.y), units(q.z), units(q.w));
    let (a, b, c) = (units(v.x), units(v.y), units(v.z));
    let (r, s, t, u) = (units(tx), units(ty), units(tz), unit());
    let (k, l, m) = (
        units(crossed(g, q.y, v.z, q.z, v.y)),
        units(crossed(g, q.z, v.x, q.x, v.z)),
        units(crossed(g, q.x, v.y, q.y, v.x)),
    );
    assert((2 * k) * u == 2 * (k * u) && (2 * l) * u == 2 * (l * u) && (2 * m) * u == 2 * (m * u))
        by (nonlinear_arith);
    row(units(p.x), a, b, c, w, x, y, z, r, s, t, u);
    row(units(p.y), b, c, a, w, y, z, x, s, t, r, u);
    row(units(p.z), c, a, b, w, z, x, y, t, r, s, u);
}

proof fn four_terms(p: int, q: int, r: int, s: int, u: int)
    ensures
        (p + q + r - s) * u == p * u + q * u + r * u - s * u,
        (p - q + r + s) * u == p * u - q * u + r * u + s * u,
        (p + q - r + s) * u == p * u + q * u - r * u + s * u,
        (p - q - r - s) * u == p * u - q * u - r * u - s * u,
{
    assert((p + q + r - s) * u == p * u + q * u + r * u - s * u) by (nonlinear_arith);
    assert((p - q + r + s) * u == p * u - q * u + r * u + s * u) by (nonlinear_arith);
    assert((p + q - r + s) * u == p * u + q * u - r * u + s * u) by (nonlinear_arith);
    assert((p - q - r - s) * u == p * u - q * u - r * u - s * u) by (nonlinear_arith);
}

/// One rotation after another is the Hamilton product of their quaternions, the later one in
/// front.
pub proof fn rotations_multiply(g: spec_fn(Calc) -> Answer, p: Quat, q: Quat)
    requires
        exact(g),
        ({
            let r = turned_on(g, p, q);
            finite(r.x) && finite(r.y) && finite(r.z) && finite(r.w)
        }),
    ensures
        ({
            let r = turned_on(g, p, q);
            let (a, b, c, d) = (units(p.x), units(p.y), units(p.z), units(p.w));
            let (x, y, z, w) = (units(q.x), units(q.y), units(q.z), units(q.w));
            let u = unit();
            &&& units(r.x) * u == d * x + a * w + b * z - c * y
            &&& units(r.y) * u == d * y - a * z + b * w + c * x
            &&& units(r.z) * u == d * z + a * y - b * x + c * w
            &&& units(r.w) * u == d * w - a * x - b * y - c * z
        }),
{
    let r = turned_on(g, p, q);
    let u = unit();
    let x1 = times(g, p.w, q.x);
    let x2 = times(g, p.x, q.w);
    let x3 = times(g, p.y, q.z);
    let x4 = times(g, p.z, q.y);
    let xs = plus(g, x1, x2);
    let xt = plus(g, xs, x3);
    assert(differs(r.x, xt, x4) && sums(xt, xs, x3) && sums(xs, x1, x2));
    assert(multiplies(x1, p.w, q.x) && multiplies(x2, p.x, q.w) && multiplies(x3, p.y, q.z)
        && multiplies(x4, p.z, q.y));
    four_terms(units(x1), units(x2), units(x3), units(x4), u);
    let y1 = times(g, p.w, q.y);
    let y2 = times(g, p.x, q.z);
    let y3 = times(g, p.y, q.w);
    let y4 = times(g, p.z, q.x);
    let ys = minus(g, y1, y2);
    let yt = plus(g, ys, y3);
    assert(sums(r.y, yt, y4) && sums(yt, ys, y3) && differs(ys, y1, y2));
    assert(multiplies(y1, p.w, q.y) && multiplies(y2, p.x, q.z) && multiplies(y3, p.y, q.w)
        && multiplies(y4, p.z, q.x));
    four_terms(units(y1), units(y2), units(y3), units(y4), u);
    let z1 = times(g, p.w, q.z);
    let z2 = times(g, p.x, q.y);
    let z3 = times(g, p.y, q.x);
    let z4 = times(g, p.z, q.w);
    let zs = plus(g, z1, z2);
    let zt = minus(g, zs, z3);
    assert(sums(r.z, zt, z4) && differs(zt, zs, z3) && sums(zs, z1, z2));
    assert(multiplies(z1, p.w, q.z) && multiplies(z2, p.x, q.y) && multiplies(z3, p.y, q.x)
        && multiplies(z4, p.z, q.w));
    four_terms(units(z1), units(z2), units(z3), units(z4), u);
    let w1 = times(g, p.w, q.w);
    let w2 = times(g, p.x, q.x);
    let w3 = times(g, p.y, q.y);
    let w4 = times(g, p.z, q.z);
    let ws = minus(g, w1, w2);
    let wt = minus(g, ws, w3);
    assert(differs(r.w, wt, w4) && differs(wt, ws, w3) && differs(ws, w1, w2));
    assert(multiplies(w1, p.w, q.w) && multiplies(w2, p.x, q.x) && multiplies(w3, p.y, q.y)
        && multiplies(w4, p.z, q.z));
    four_terms(units(w1), units(w2), units(w3), units(w4), u);
}

/// A placement under another one: scales multiply, rotations follow each other, and the place is
/// the outer one's plus its own, stretched by the outer scale and turned by the outer rotation.
pub proof fn carried_placements(g: spec_fn(Calc) -> Answer, up: Transform, own: Transform)
    requires
        exact(g),
        finite3(carried(g, up, own).translation),
        finite3(carried(g, up, own).scale),
    ensures
        ({
            let c = carried(g, up, own);
            let s = Vec3 {
                x: g(Calc::Multiply(own.translation.x, up.scale.x)).value,
                y: g(Calc::Multiply(own.translation.y, up.scale.y)).value,
                z: g(Calc::Multiply(own.translation.z, up.scale.z)).value,
            };
            let w = turned(g, up.rotation, s);
            &&& units(c.translation.x) == units(up.translation.x) + units(w.x)
            &&& units(c.translation.y) == units(up.translation.y) + units(w.y)
            &&& units(c.translation.z) == units(up.translation.z) + units(w.z)
            &&& c.rotation == turned_on(g, up.rotation, own.rotation)
            &&& units(c.scale.x) * unit() == units(up.scale.x) * units(own.scale.x)
            &&& units(c.scale.y) * unit() == units(up.scale.y) * units(own.scale.y)
            &&& units(c.scale.z) * unit() == units(up.scale.z) * units(own.scale.z)
        }),
{
    let c = carried(g, up, own);
    let w = turned(g, up.rotation, stretched(g, own.translation, up.scale));
    assert(sums(c.translation.x, up.translation.x, w.x));
    assert(sums(c.translation.y, up.translation.y, w.y));
    assert(sums(c.translation.z, up.translation.z, w.z));
    assert(multiplies(c.scale.x, up.scale.x, own.scale.x));
    assert(multiplies(c.scale.y, up.scale.y, own.scale.y));
    assert(multiplies(c.scale.z, up.scale.z, own.scale.z));
}

proof fn squared_worth(g: spec_fn(Calc) -> Answer, x: Real, y: Real, z: Real)
    requires
        exact(g),
        finite(squared(g, x, y, z)),
    ensures
        finite(x) && finite(y) && finite(z),
        units(squared(g, x, y, z)) * unit() == units(x) * units(x) + units(y) * units(y) + units(z)
            * units(z),
{
    let a = times(g, x, x);
    let b = times(g, y, y);
    let c = times(g, z, z);
    let s = plus(g, a, b);
    let r = plus(g, s, c);
    assert(sums(r, s, c) && sums(s, a, b));
    assert(multiplies(a, x, x) && multiplies(b, y, y) && multiplies(c, z, z));
    let (p, q, o, u) = (units(a), units(b), units(c), unit());
    assert((p + q + o) * u == p * u + q * u + o * u) by (nonlinear_arith);
}

/// The axis of a rotation is its vector part at length one, and its angle twice the one whose
/// tangent is the length of the vector part over the scalar part, in degrees. A rotation without
/// a vector part turns nothing, about the first axis.
pub proof fn axis_has_length_one(g: spec_fn(Calc) -> Answer, q: Quat)
    requires
        exact(g),
        ({
            let (angle, axis) = axis_angle(g, q);
            finite(angle) && finite3(axis)
        }),
        finite(g(Calc::Root(squared(g, q.x, q.y, q.z))).value),
    ensures
        ({
            let (angle, axis) = axis_angle(g, q);
            let n = g(Calc::Root(squared(g, q.x, q.y, q.z))).value;
            let small = units(n) < units(Real { bits: 0x322b_cc77 });
            &&& units(n) * units(n) == units(q.x) * units(q.x) + units(q.y) * units(q.y) + units(
                q.z,
            ) * units(q.z)
            &&& units(n) >= 0
            &&& small ==> units(angle) == 0 && units(axis.x) == unit() && units(axis.y) == 0
                && units(axis.z) == 0
            &&& !small ==> {
                &&& units(angle) == 2 * units(
                    g(Calc::Degrees(g(Calc::ArcTangent(n, q.w)).value)).value,
                )
                &&& units(axis.x) * units(n) == units(q.x) * unit()
                &&& units(axis.y) * units(n) == units(q.y) * unit()
                &&& units(axis.z) * units(n) == units(q.z) * unit()
            }
        }),
{
    let n = g(Calc::Root(squared(g, q.x, q.y, q.z))).value;
    names_say_worth();
    assert(finite(squared(g, q.x, q.y, q.z)));
    squared_worth(g, q.x, q.y, q.z);
    order_is_by_worth(n, Real { bits: 0x322b_cc77 });
    if !n.less(Real { bits: 0x322b_cc77 }) {
        doubled_worth(g, g(Calc::Degrees(g(Calc::ArcTangent(n, q.w)).value)).value);
        assert(divides(over(g, q.x, n), q.x, n));
        assert(divides(over(g, q.y, n), q.y, n));
        assert(divides(over(g, q.z, n), q.z, n));
    }
}

/// A heading points from one place to the other, at length one unless they are next to each
/// other.
pub proof fn heading_points_there(g: spec_fn(Calc) -> Answer, from: Vec3, to: Vec3) -> (l: int)
    requires
        exact(g),
        finite3(heading(g, from, to)),
        finite(
            g(
                Calc::Root(
                    squared(
                        g,
                        minus(g, to.x, from.x),
                        minus(g, to.y, from.y),
                        minus(g, to.z, from.z),
                    ),
                ),
            ).value,
        ),
    ensures
        ({
            let v = heading(g, from, to);
            let dx = units(to.x) - units(from.x);
            let dy = units(to.y) - units(from.y);
            let dz = units(to.z) - units(from.z);
            &&& l * l == dx * dx + dy * dy + dz * dz
            &&& l >= 0
            &&& l >= units(Real { bits: 0x322b_cc77 }) ==> units(v.x) * l == dx * unit() && units(
                v.y,
            ) * l == dy * unit() && units(v.z) * l == dz * unit()
        }),
{
    let x = minus(g, to.x, from.x);
    let y = minus(g, to.y, from.y);
    let z = minus(g, to.z, from.z);
    let n = g(Calc::Root(squared(g, x, y, z))).value;
    let tiny = Real { bits: 0x322b_cc77 };
    squared_worth(g, x, y, z);
    assert(differs(x, to.x, from.x) && differs(y, to.y, from.y) && differs(z, to.z, from.z));
    crate::worth::choices_are_by_worth(n, tiny, tiny);
    let l = n.greater_of(tiny);
    assert(divides(over(g, x, l), x, l));
    assert(divides(over(g, y, l), y, l));
    assert(divides(over(g, z, l), z, l));
    let k = units(n);
    assert(k * k == units(x) * units(x) + units(y) * units(y) + units(z) * units(z));
    if k >= units(tiny) {
        assert(units(l) == k);
    }
    assert(k * k == (units(to.x) - units(from.x)) * (units(to.x) - units(from.x)) + (units(to.y)
        - units(from.y)) * (units(to.y) - units(from.y)) + (units(to.z) - units(from.z)) * (units(
        to.z,
    ) - units(from.z)));
    k
}

proof fn weighted(g: spec_fn(Calc) -> Answer, w: Real, n: u64)
    requires
        exact(g),
        finite(times(g, w, crate::formula::counted(g, n))),
    ensures
        units(times(g, w, crate::formula::counted(g, n))) == units(w) * n,
{
    let c = crate::formula::counted(g, n);
    let r = times(g, w, c);
    names_say_worth();
    assert(multiplies(r, w, c));
    assert(finite(g(Calc::Count(n)).value));
    let (x, y, u) = (units(r), units(w), unit());
    assert(x == y * n) by (nonlinear_arith)
        requires
            x * u == y * (n * u),
            u > 0,
    ;
}

/// Brightness adds the channels up, each by how much it counts: green the most, blue the least.
pub proof fn brightness_weighs_channels(g: spec_fn(Calc) -> Answer, red: u8, green: u8, blue: u8)
    requires
        exact(g),
        finite(luma(g, red, green, blue)),
    ensures
        units(luma(g, red, green, blue)) == units(Real { bits: 0x3e59_b3d0 }) * red + units(
            Real { bits: 0x3f37_1759 },
        ) * green + units(Real { bits: 0x3d93_dd98 }) * blue,
        0 < units(Real { bits: 0x3d93_dd98 }) < units(Real { bits: 0x3e59_b3d0 }) < units(
            Real { bits: 0x3f37_1759 },
        ),
{
    let (a, b, c) = (
        Real { bits: 0x3e59_b3d0 },
        Real { bits: 0x3f37_1759 },
        Real { bits: 0x3d93_dd98 },
    );
    let x = times(g, a, crate::formula::counted(g, red as u64));
    let y = times(g, b, crate::formula::counted(g, green as u64));
    let z = times(g, c, crate::formula::counted(g, blue as u64));
    let s = plus(g, x, y);
    assert(sums(plus(g, s, z), s, z) && sums(s, x, y));
    weighted(g, a, red as u64);
    weighted(g, b, green as u64);
    weighted(g, c, blue as u64);
    order_is_by_worth(c, a);
    order_is_by_worth(a, b);
    order_is_by_worth(crate::numeric::zero(), c);
    names_say_worth();
}

proof fn halved_worth(r: Real, a: Real)
    requires
        multiplies(r, a, half()),
        finite(r),
    ensures
        2 * units(r) == units(a),
{
    names_say_worth();
    let (x, y, h, u) = (units(r), units(a), units(half()), unit());
    assert(2 * x == y) by (nonlinear_arith)
        requires
            x * u == y * h,
            2 * h == u,
            u > 0,
    ;
}

/// The middle of a box is as far from one corner as from the other.
pub proof fn middle_is_half_way(g: spec_fn(Calc) -> Answer, min: Vec3, max: Vec3)
    requires
        exact_on_points(g),
        finite3(middle(g, min, max)),
    ensures
        2 * units(middle(g, min, max).x) == units(min.x) + units(max.x),
        2 * units(middle(g, min, max).y) == units(min.y) + units(max.y),
        2 * units(middle(g, min, max).z) == units(min.z) + units(max.z),
{
    let s = g(Calc::Sum(min, max)).point;
    let m = g(Calc::Scale(s, half())).point;
    assert(multiplies(m.x, s.x, half()) && multiplies(m.y, s.y, half()) && multiplies(
        m.z,
        s.z,
        half(),
    ));
    halved_worth(m.x, s.x);
    halved_worth(m.y, s.y);
    halved_worth(m.z, s.z);
    assert(sums(s.x, min.x, max.x) && sums(s.y, min.y, max.y) && sums(s.z, min.z, max.z));
}

/// The radius that is fitted to a box is half its diagonal and one more, but at least four and at
/// most twenty.
pub proof fn fitted_radius_covers(g: spec_fn(Calc) -> Answer, min: Vec3, max: Vec3)
    requires
        exact(g),
        finite(
            plus(g, times(g, g(Calc::Distance(max, min)).value, half()), one()),
        ),
    ensures
        ({
            let r = fit_radius(g, min, max);
            let d = units(g(Calc::Distance(max, min)).value);
            let lo = units(Real { bits: 0x4080_0000 });
            let hi = units(Real { bits: 0x41a0_0000 });
            &&& lo <= units(r) <= hi
            &&& lo == 4 * unit()
            &&& hi == 20 * unit()
            &&& 8 * unit() <= d + 2 * unit() <= 40 * unit() ==> 2 * units(r) == d + 2 * unit()
        }),
{
    let dist = g(Calc::Distance(max, min)).value;
    let h = times(g, dist, half());
    let s = plus(g, h, one());
    names_say_worth();
    crate::worth::small_counts_have_worth();
    assert(sums(s, h, one()));
    assert(multiplies(h, dist, half()));
    halved_worth(h, dist);
    crate::worth::choices_are_by_worth(s, Real { bits: 0x4080_0000 }, Real { bits: 0x41a0_0000 });
}

/// A camera that backs off looks from where it looked from before, seen from the new centre: it
/// stands off along its way back, as far as a third more than the sphere takes up of its view.
pub proof fn retreat_keeps_the_way(
    g: spec_fn(Calc) -> Answer,
    eye: Vec3,
    target: Vec3,
    fov_y_deg: Real,
    center: Vec3,
    radius: Real,
) -> (r: (Vec3, Real))
    requires
        exact(g),
        exact_on_points(g),
        finite(radius),
        finite3(retreat(g, eye, target, fov_y_deg, center, radius)),
    ensures
        ({
            let p = retreat(g, eye, target, fov_y_deg, center, radius);
            let way = g(Calc::Unit(g(Calc::Gap(eye, target)).point));
            let (back, distance) = r;
            let view = g(
                Calc::Tangent(times(g, g(Calc::Radians(fov_y_deg)).value, half())),
            ).value.greater_of(Real { bits: 0x3d4c_cccd });
            &&& way.holds ==> back == way.point
            &&& !way.holds ==> units(back.x) == 0 && units(back.y) == 0 && units(back.z) == unit()
            &&& (units(p.x) - units(center.x)) * unit() == units(back.x) * units(distance)
            &&& (units(p.y) - units(center.y)) * unit() == units(back.y) * units(distance)
            &&& (units(p.z) - units(center.z)) * unit() == units(back.z) * units(distance)
            &&& units(distance) * units(view) == (if 2 * units(radius) < unit() {
                units(half())
            } else {
                units(radius)
            }) * units(Real { bits: 0x3fac_cccd })
        }),
{
    let p = retreat(g, eye, target, fov_y_deg, center, radius);
    let way = g(Calc::Unit(g(Calc::Gap(eye, target)).point));
    let back = if way.holds {
        way.point
    } else {
        Vec3 { x: crate::numeric::zero(), y: crate::numeric::zero(), z: one() }
    };
    let view = g(
        Calc::Tangent(times(g, g(Calc::Radians(fov_y_deg)).value, half())),
    ).value.greater_of(Real { bits: 0x3d4c_cccd });
    let most = radius.greater_of(half());
    let o = over(g, most, view);
    let more = Real { bits: 0x3fac_cccd };
    let distance = times(g, o, more);
    let shift = g(Calc::Scale(back, distance)).point;
    names_say_worth();
    assert(sums(p.x, center.x, shift.x) && sums(p.y, center.y, shift.y) && sums(
        p.z,
        center.z,
        shift.z,
    ));
    assert(multiplies(shift.x, back.x, distance) && multiplies(shift.y, back.y, distance)
        && multiplies(shift.z, back.z, distance));
    assert(multiplies(distance, o, more));
    assert(divides(o, most, view));
    crate::worth::choices_are_by_worth(radius, half(), half());
    let (d, n, m, v, k, u) = (
        units(distance),
        units(o),
        units(most),
        units(view),
        units(more),
        unit(),
    );
    assert(d * v == m * k) by (nonlinear_arith)
        requires
            d * u == n * k,
            n * v == m * u,
            u > 0,
    {
        assert((d * v) * u == (n * v) * k);
        assert((m * u) * k == (m * k) * u);
    }
    (back, distance)
}

} // verus!
