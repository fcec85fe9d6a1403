//! What formulas come to where the arithmetic is exact.
//!
//! Single-precision arithmetic rounds. The laws here speak of a calculator that does not: each
//! of its answers is finite only where it is the true one and all that went into it is finite
//! too. A law then holds wherever its result is finite.

use crate::formula::{
    counted, covers, half, minus, over, plus, projection, ring_place, scatter_place,
    sphere_normal, stepped, swing, times, two, window_place,
};
use crate::numeric::{one, Answer, Calc, Mat4, Real, Vec3};
use crate::worth::{finite, names_say_worth, order_is_by_worth, unit, units};
use vstd::prelude::*;

verus! {

/// Every coordinate is finite.
pub open spec fn finite3(v: Vec3) -> bool {
    finite(v.x) && finite(v.y) && finite(v.z)
}

pub open spec fn sums(r: Real, a: Real, b: Real) -> bool {
    finite(r) ==> finite(a) && finite(b) && units(r) == units(a) + units(b)
}

pub open spec fn differs(r: Real, a: Real, b: Real) -> bool {
    finite(r) ==> finite(a) && finite(b) && units(r) == units(a) - units(b)
}

pub open spec fn multiplies(r: Real, a: Real, b: Real) -> bool {
    finite(r) ==> finite(a) && finite(b) && units(r) * unit() == units(a) * units(b)
}

pub open spec fn divides(r: Real, a: Real, b: Real) -> bool {
    finite(r) ==> finite(a) && finite(b) && units(b) != 0 && units(r) * units(b) == units(a)
        * unit()
}

/// A calculator whose finite answers are the true ones.
pub open spec fn exact(g: spec_fn(Calc) -> Answer) -> bool {
    &&& forall|a: Real, b: Real| sums((#[trigger] g(Calc::Add(a, b))).value, a, b)
    &&& forall|a: Real, b: Real| differs((#[trigger] g(Calc::Subtract(a, b))).value, a, b)
    &&& forall|a: Real, b: Real| multiplies((#[trigger] g(Calc::Multiply(a, b))).value, a, b)
    &&& forall|a: Real, b: Real| divides((#[trigger] g(Calc::Divide(a, b))).value, a, b)
    &&& forall|n: u64|
        finite((#[trigger] g(Calc::Count(n))).value) ==> units(g(Calc::Count(n)).value) == n
            * unit()
    &&& forall|a: Real|
        finite((#[trigger] g(Calc::Root(a))).value) ==> finite(a) && units(
            g(Calc::Root(a)).value,
        ) >= 0 && units(g(Calc::Root(a)).value) * units(g(Calc::Root(a)).value) == units(a)
            * unit()
}

/// The sine and the cosine of an angle are the sides of a right triangle of side one.
pub open spec fn on_circle(s: Real, c: Real) -> bool {
    units(s) * units(s) + units(c) * units(c) == unit() * unit()
}

/// A calculator whose finite sines and cosines are those of a finite angle and belong together.
pub open spec fn circular(g: spec_fn(Calc) -> Answer) -> bool {
    &&& forall|a: Real| finite((#[trigger] g(Calc::Sine(a))).value) ==> finite(a)
    &&& forall|a: Real| finite((#[trigger] g(Calc::Cosine(a))).value) ==> finite(a)
    &&& forall|a: Real|
        #![trigger g(Calc::Sine(a))]
        #![trigger g(Calc::Cosine(a))]
        finite(g(Calc::Sine(a)).value) && finite(g(Calc::Cosine(a)).value) ==> on_circle(
            g(Calc::Sine(a)).value,
            g(Calc::Cosine(a)).value,
        )
}

/// The square of a distance, in squared units.
pub open spec fn distance_squared(a: Vec3, b: Vec3) -> int {
    (units(a.x) - units(b.x)) * (units(a.x) - units(b.x)) + (units(a.y) - units(b.y)) * (units(a.y)
        - units(b.y)) + (units(a.z) - units(b.z)) * (units(a.z) - units(b.z))
}

/// A share of a whole turn, or of half a one.
proof fn share_of(g: spec_fn(Calc) -> Answer, i: u64, n: u64, whole: Real)
    requires
        exact(g),
        n >= 1,
        finite(times(g, over(g, counted(g, i), counted(g, n)), whole)),
    ensures
        finite(counted(g, n)),
        units(times(g, over(g, counted(g, i), counted(g, n)), whole)) * n == i * units(whole),
{
    let ci = counted(g, i);
    let cn = counted(g, n);
    let o = over(g, ci, cn);
    let a = times(g, o, whole);
    names_say_worth();
    assert(multiplies(g(Calc::Multiply(o, whole)).value, o, whole));
    assert(divides(g(Calc::Divide(ci, cn)).value, ci, cn));
    let u = unit();
    let x = units(o);
    let y = units(a);
    let w = units(whole);
    assert(finite(g(Calc::Count(i)).value) && finite(g(Calc::Count(n)).value));
    assert(x * n == i * u) by (nonlinear_arith)
        requires
            x * (n * u) == (i * u) * u,
            u > 0,
    ;
    assert(y * n == i * w) by (nonlinear_arith)
        requires
            x * n == i * u,
            y * u == x * w,
            u > 0,
    ;
}

proof fn cancels(a: int, b: int, k: int)
    requires
        a * k == b * k,
        k != 0,
    ensures
        a == b,
{
    assert(a == b) by (nonlinear_arith)
        requires
            a * k == b * k,
            k != 0,
    ;
}

proof fn product_squared(a: int, b: int)
    ensures
        (a * b) * (a * b) == (a * a) * (b * b),
{
    assert((a * b) * (a * b) == (a * a) * (b * b)) by (nonlinear_arith);
}

/// The legs of a right triangle, as its long side times a sine and a cosine.
proof fn legs(x: int, z: int, r: int, c: int, s: int, u: int)
    requires
        x * u == r * c,
        z * u == r * s,
        s * s + c * c == u * u,
        u > 0,
    ensures
        x * x + z * z == r * r,
{
    product_squared(x, u);
    product_squared(z, u);
    product_squared(r, c);
    product_squared(r, s);
    let k = u * u;
    assert(k > 0) by (nonlinear_arith)
        requires
            u > 0,
            k == u * u,
    ;
    let (rr, cc, ss) = (r * r, c * c, s * s);
    assert(rr * cc + rr * ss == rr * (ss + cc)) by (nonlinear_arith);
    let (xx, zz) = (x * x, z * z);
    assert(xx * k + zz * k == (xx + zz) * k) by (nonlinear_arith);
    cancels(xx + zz, rr, k);
}

/// Points on a ring: each stands as high as the centre, off to the side by the radius times the
/// cosine of its angle and to the front by the radius times the sine, and so all of them are
/// equally far from the centre. The radius is that of a ring as long as all spacings together,
/// and the angle is the point's share of a full turn.
pub proof fn ring_is_round(
    g: spec_fn(Calc) -> Answer,
    center: Vec3,
    i: u64,
    n: u64,
    spacing: Real,
) -> (r: (Real, Real))
    requires
        exact(g),
        circular(g),
        n >= 1,
        finite3(ring_place(g, center, i, n, spacing)),
    ensures
        ({
            let p = ring_place(g, center, i, n, spacing);
            let turn = Real { bits: 0x40c9_0fdb };
            let (radius, angle) = r;
            let s = g(Calc::Sine(angle)).value;
            let c = g(Calc::Cosine(angle)).value;
            &&& units(radius) * units(turn) == units(spacing) * n * unit()
            &&& units(angle) * n == i * units(turn)
            &&& p.y == center.y
            &&& (units(p.x) - units(center.x)) * unit() == units(radius) * units(c)
            &&& (units(p.z) - units(center.z)) * unit() == units(radius) * units(s)
            &&& on_circle(s, c)
            &&& distance_squared(p, center) == units(radius) * units(radius)
        }),
{
    let p = ring_place(g, center, i, n, spacing);
    let turn = Real { bits: 0x40c9_0fdb };
    let cn = counted(g, n);
    let m = times(g, spacing, cn.greater_of(one()));
    let radius = over(g, m, turn);
    let angle = times(g, over(g, counted(g, i), cn), turn);
    let s = g(Calc::Sine(angle)).value;
    let c = g(Calc::Cosine(angle)).value;
    names_say_worth();
    assert(sums(p.x, center.x, times(g, radius, c)));
    assert(sums(p.z, center.z, times(g, radius, s)));
    assert(multiplies(times(g, radius, c), radius, c));
    assert(multiplies(times(g, radius, s), radius, s));
    share_of(g, i, n, turn);
    assert(finite(g(Calc::Count(n)).value));
    let u = unit();
    assert(n * u >= u) by (nonlinear_arith)
        requires
            n >= 1,
            u > 0,
    ;
    crate::worth::choices_are_by_worth(cn, one(), one());
    assert(divides(radius, m, turn));
    assert(multiplies(m, spacing, cn.greater_of(one())));
    let sp = units(spacing);
    let um = units(m);
    assert(um == sp * n) by (nonlinear_arith)
        requires
            um * u == sp * (n * u),
            u > 0,
    ;
    let ur = units(radius);
    let dx = units(p.x) - units(center.x);
    let dz = units(p.z) - units(center.z);
    let us = units(s);
    let uc = units(c);
    legs(dx, dz, ur, uc, us, u);
    (radius, angle)
}

/// Points whose angles have different sines or cosines stand in different places of a ring.
pub proof fn ring_points_differ(
    g: spec_fn(Calc) -> Answer,
    center: Vec3,
    i: u64,
    j: u64,
    n: u64,
    spacing: Real,
    s: (Real, Real),
    c: (Real, Real),
)
    requires
        exact(g),
        circular(g),
        n >= 1,
        units(spacing) > 0,
        finite3(ring_place(g, center, i, n, spacing)),
        finite3(ring_place(g, center, j, n, spacing)),
        forall|a: Real|
            #![trigger g(Calc::Sine(a))]
            #![trigger g(Calc::Cosine(a))]
            (units(a) * n == i * units(Real { bits: 0x40c9_0fdb }) ==> g(Calc::Sine(a)).value == s.0
                && g(Calc::Cosine(a)).value == c.0) && (units(a) * n == j * units(
                Real { bits: 0x40c9_0fdb },
            ) ==> g(Calc::Sine(a)).value == s.1 && g(Calc::Cosine(a)).value == c.1),
        units(s.0) != units(s.1) || units(c.0) != units(c.1),
    ensures
        ring_place(g, center, i, n, spacing) != ring_place(g, center, j, n, spacing),
{
    let (r, a) = ring_is_round(g, center, i, n, spacing);
    let (q, b) = ring_is_round(g, center, j, n, spacing);
    names_say_worth();
    let t = units(Real { bits: 0x40c9_0fdb });
    let x = units(r);
    let y = units(q);
    let w = units(spacing) * n * unit();
    let sp = units(spacing);
    let u = unit();
    assert(g(Calc::Sine(a)).value == s.0 && g(Calc::Sine(b)).value == s.1);
    assert(sp * n * u > 0) by (nonlinear_arith)
        requires
            sp > 0,
            n >= 1,
            u > 0,
    ;
    assert(x == y && x != 0) by (nonlinear_arith)
        requires
            x * t == w,
            y * t == w,
            w > 0,
    ;
    let (s0, s1) = (units(s.0), units(s.1));
    let (c0, c1) = (units(c.0), units(c.1));
    assert(s0 != s1 ==> x * s0 != x * s1) by (nonlinear_arith)
        requires
            x != 0,
    ;
    assert(c0 != c1 ==> x * c0 != x * c1) by (nonlinear_arith)
        requires
            x != 0,
    ;
}

/// Steps from a start: each goes on by the same step.
pub proof fn steps_are_even(g: spec_fn(Calc) -> Answer, start: Real, n: u64, step: Real)
    requires
        exact(g),
        finite(stepped(g, start, n, step)),
    ensures
        units(stepped(g, start, n, step)) == units(start) + n * units(step),
{
    let c = counted(g, n);
    let way = times(g, c, step);
    names_say_worth();
    assert(sums(plus(g, start, way), start, way));
    assert(multiplies(way, c, step));
    assert(finite(g(Calc::Count(n)).value));
    let u = unit();
    let x = units(way);
    let s = units(step);
    assert(x == n * s) by (nonlinear_arith)
        requires
            x * u == (n * u) * s,
            u > 0,
    ;
}

/// Scattered places lie around the centre: as high as it, and off along each of the two other
/// axes by the spacing times a number from minus one to one that the hash decides, the whole of
/// it for the side and its upper half for the front.
pub proof fn scatter_stays_around(g: spec_fn(Calc) -> Answer, center: Vec3, h: u64, spacing: Real)
    requires
        exact(g),
        finite3(scatter_place(g, center, h, spacing)),
    ensures
        ({
            let p = scatter_place(g, center, h, spacing);
            let dx = units(p.x) - units(center.x);
            let dz = units(p.z) - units(center.z);
            &&& p.y == center.y
            &&& dx * 0x1_0000_0000_0000_0000 == (2 * h - 0x1_0000_0000_0000_0000) * units(spacing)
            &&& dz * 0x1_0000_0000 == (2 * (h / 0x1_0000_0000) - 0x1_0000_0000) * units(spacing)
            &&& units(spacing) >= 0 ==> -units(spacing) <= dx <= units(spacing) && -units(spacing)
                <= dz <= units(spacing)
        }),
{
    let p = scatter_place(g, center, h, spacing);
    let wide = Real { bits: 0x5f80_0000 };
    let short = Real { bits: 0x4f80_0000 };
    let x = swing(g, h, wide);
    let z = swing(g, h >> 32, short);
    crate::worth::powers_have_worth();
    assert(sums(p.x, center.x, times(g, x, spacing)));
    assert(sums(p.z, center.z, times(g, z, spacing)));
    assert(multiplies(times(g, x, spacing), x, spacing));
    assert(multiplies(times(g, z, spacing), z, spacing));
    swing_is_even(g, h, wide, 0x1_0000_0000_0000_0000);
    swing_is_even(g, h >> 32, short, 0x1_0000_0000);
    assert(h >> 32 == h / 0x1_0000_0000) by (bit_vector);
    names_say_worth();
    swung_offset(
        units(p.x) - units(center.x),
        units(x),
        units(spacing),
        unit(),
        h as int,
        0x1_0000_0000_0000_0000,
    );
    swung_offset(
        units(p.z) - units(center.z),
        units(z),
        units(spacing),
        unit(),
        (h / 0x1_0000_0000) as int,
        0x1_0000_0000,
    );
}

proof fn swung_offset(d: int, x: int, s: int, u: int, h: int, k: int)
    requires
        d * u == x * s,
        x * k == (2 * h - k) * u,
        u > 0,
        k > 0,
        0 <= h < k,
    ensures
        d * k == (2 * h - k) * s,
        s >= 0 ==> -s <= d <= s,
{
    assert(d * k == (2 * h - k) * s) by (nonlinear_arith)
        requires
            d * u == x * s,
            x * k == (2 * h - k) * u,
            u > 0,
    {
        assert((d * k) * u == (x * k) * s);
        assert((d * k) * u == ((2 * h - k) * s) * u);
    }
    if s >= 0 {
        let t = 2 * h - k;
        assert(-s <= d <= s) by (nonlinear_arith)
            requires
                d * k == t * s,
                -k <= t <= k,
                s >= 0,
                k > 0,
        {
            assert(-k * s <= t * s <= k * s);
        }
    }
}

proof fn swing_is_even(g: spec_fn(Calc) -> Answer, share: u64, whole: Real, k: int)
    requires
        exact(g),
        finite(swing(g, share, whole)),
        units(whole) == k * unit(),
        k > 0,
    ensures
        units(swing(g, share, whole)) * k == (2 * share - k) * unit(),
{
    let c = counted(g, share);
    let o = over(g, c, whole);
    let t = times(g, o, two());
    let r = minus(g, t, one());
    names_say_worth();
    assert(differs(r, t, one()));
    assert(multiplies(t, o, two()));
    assert(divides(o, c, whole));
    assert(finite(g(Calc::Count(share)).value));
    let u = unit();
    let uo = units(o);
    let ut = units(t);
    assert(uo * k == share * u) by (nonlinear_arith)
        requires
            uo * (k * u) == (share * u) * u,
            u > 0,
    ;
    assert(ut == 2 * uo) by (nonlinear_arith)
        requires
            ut * u == uo * (2 * u),
            u > 0,
    ;
    assert((ut - u) * k == (2 * share - k) * u) by (nonlinear_arith)
        requires
            ut == 2 * uo,
            uo * k == share * u,
    ;
}

/// Normals of a sphere are of length one, and a vertex of the ring at `phi` from the pole lies
/// as high as the cosine says.
pub proof fn sphere_normals_have_length_one(
    g: spec_fn(Calc) -> Answer,
    ring: u64,
    rings: u64,
    segment: u64,
    segments: u64,
) -> (r: (Real, Real))
    requires
        exact(g),
        circular(g),
        rings >= 1,
        segments >= 1,
        finite3(sphere_normal(g, ring, rings, segment, segments)),
    ensures
        ({
            let v = sphere_normal(g, ring, rings, segment, segments);
            let (phi, theta) = r;
            &&& units(phi) * rings == ring * units(Real { bits: 0x4049_0fdb })
            &&& units(theta) * segments == segment * units(Real { bits: 0x40c9_0fdb })
            &&& v.y == g(Calc::Cosine(phi)).value
            &&& units(v.x) * unit() == units(g(Calc::Sine(theta)).value) * units(
                g(Calc::Sine(phi)).value,
            )
            &&& units(v.z) * unit() == units(g(Calc::Cosine(theta)).value) * units(
                g(Calc::Sine(phi)).value,
            )
            &&& units(v.x) * units(v.x) + units(v.y) * units(v.y) + units(v.z) * units(v.z)
                == unit() * unit()
        }),
{
    let v = sphere_normal(g, ring, rings, segment, segments);
    let pi = Real { bits: 0x4049_0fdb };
    let turn = Real { bits: 0x40c9_0fdb };
    let phi = times(g, over(g, counted(g, ring), counted(g, rings)), pi);
    let theta = times(g, over(g, counted(g, segment), counted(g, segments)), turn);
    let sp = g(Calc::Sine(phi)).value;
    let cp = g(Calc::Cosine(phi)).value;
    let st = g(Calc::Sine(theta)).value;
    let ct = g(Calc::Cosine(theta)).value;
    names_say_worth();
    assert(multiplies(v.x, st, sp));
    assert(multiplies(v.z, ct, sp));
    share_of(g, ring, rings, pi);
    share_of(g, segment, segments, turn);
    let u = unit();
    let (x, y, z) = (units(v.x), units(v.y), units(v.z));
    let (a, b, c, e) = (units(sp), units(cp), units(st), units(ct));
    legs(x, z, a, c, e, u);
    (phi, theta)
}

/// A projected point is the clip coordinates over their weight, each in its own place; one whose
/// weight is below a millionth is projected nowhere.
pub proof fn projection_divides_by_weight(g: spec_fn(Calc) -> Answer, m: Mat4, p: Vec3)
    requires
        exact(g),
    ensures
        ({
            let clip = g(Calc::Clip(m, p)).pose.rotation;
            &&& projection(g, m, p) is None <==> clip.w.magnitude() < 0x3586_37bd
            &&& projection(g, m, p) matches Some(v) ==> (finite3(v) ==> units(v.x) * units(clip.w)
                == units(clip.x) * unit() && units(v.y) * units(clip.w) == units(clip.y) * unit()
                && units(v.z) * units(clip.w) == units(clip.z) * unit())
        }),
{
    let clip = g(Calc::Clip(m, p)).pose.rotation;
    assert(divides(g(Calc::Divide(clip.x, clip.w)).value, clip.x, clip.w));
    assert(divides(g(Calc::Divide(clip.y, clip.w)).value, clip.y, clip.w));
    assert(divides(g(Calc::Divide(clip.z, clip.w)).value, clip.z, clip.w));
}

/// Window coordinates: what projects to minus one is at the left edge and what projects to one
/// at the right one; up in the projection is up in the window, whose top is nought.
pub proof fn window_spans_the_projection(g: spec_fn(Calc) -> Answer, ndc: Vec3)
    requires
        exact(g),
        finite(window_place(g, ndc).0),
        finite(window_place(g, ndc).1),
    ensures
        2 * units(window_place(g, ndc).0) == units(ndc.x) + unit(),
        2 * units(window_place(g, ndc).1) == unit() - units(ndc.y),
{
    let a = plus(g, ndc.x, one());
    let b = minus(g, one(), ndc.y);
    names_say_worth();
    assert(sums(a, ndc.x, one()));
    assert(differs(b, one(), ndc.y));
    assert(multiplies(times(g, a, half()), a, half()));
    assert(multiplies(times(g, b, half()), b, half()));
    let u = unit();
    let (x, y) = (units(times(g, a, half())), units(times(g, b, half())));
    let (p, q, k) = (units(a), units(b), units(half()));
    assert(2 * x == p && 2 * y == q) by (nonlinear_arith)
        requires
            x * u == p * k,
            y * u == q * k,
            2 * k == u,
            u > 0,
    ;
}

/// One projected point stands before another where it is nearer by more than a hundredth and
/// their distance across the window is less than 0.15.
pub proof fn covering_is_near_and_close(g: spec_fn(Calc) -> Answer, other: Vec3, ndc: Vec3)
    requires
        exact(g),
        ({
            let dx = minus(g, other.x, ndc.x);
            let dy = minus(g, other.y, ndc.y);
            let reach = Real { bits: 0x3e19_999a };
            &&& finite(other.z)
            &&& finite(minus(g, ndc.z, Real { bits: 0x3c23_d70a }))
            &&& finite(plus(g, times(g, dx, dx), times(g, dy, dy)))
            &&& finite(times(g, reach, reach))
        }),
    ensures
        covers(g, other, ndc) <==> {
            let dx = units(other.x) - units(ndc.x);
            let dy = units(other.y) - units(ndc.y);
            let reach = units(Real { bits: 0x3e19_999a });
            &&& units(other.z) + units(Real { bits: 0x3c23_d70a }) < units(ndc.z)
            &&& dx * dx + dy * dy < reach * reach
        },
{
    let dx = minus(g, other.x, ndc.x);
    let dy = minus(g, other.y, ndc.y);
    let reach = Real { bits: 0x3e19_999a };
    let edge = Real { bits: 0x3c23_d70a };
    let near = minus(g, ndc.z, edge);
    let xx = times(g, dx, dx);
    let yy = times(g, dy, dy);
    let away = plus(g, xx, yy);
    let limit = times(g, reach, reach);
    names_say_worth();
    assert(differs(near, ndc.z, edge));
    assert(sums(away, xx, yy));
    assert(multiplies(xx, dx, dx));
    assert(multiplies(yy, dy, dy));
    assert(multiplies(limit, reach, reach));
    assert(differs(dx, other.x, ndc.x));
    assert(differs(dy, other.y, ndc.y));
    order_is_by_worth(other.z, near);
    order_is_by_worth(away, limit);
    let u = unit();
    let (a, b, r) = (units(dx), units(dy), units(reach));
    let (s, l) = (units(away), units(limit));
    let (p, q) = (units(xx), units(yy));
    assert(s * u == a * a + b * b) by (nonlinear_arith)
        requires
            s == p + q,
            p * u == a * a,
            q * u == b * b,
    ;
    assert(s < l <==> s * u < l * u) by (nonlinear_arith)
        requires
            u > 0,
    ;
}

} // verus!
