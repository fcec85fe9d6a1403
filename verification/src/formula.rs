//! Formulas on single-precision numbers. The caller's arithmetic takes every step of one.

use crate::numeric::{
    answers, computes, encoded, one, zero, Answer, Calc, Mat4, Quat, Real, Transform, Vec3,
};
use vstd::prelude::*;

verus! {

pub open spec fn plus(g: spec_fn(Calc) -> Answer, a: Real, b: Real) -> Real {
    g(Calc::Add(a, b)).value
}

pub open spec fn minus(g: spec_fn(Calc) -> Answer, a: Real, b: Real) -> Real {
    g(Calc::Subtract(a, b)).value
}

pub open spec fn times(g: spec_fn(Calc) -> Answer, a: Real, b: Real) -> Real {
    g(Calc::Multiply(a, b)).value
}

pub open spec fn over(g: spec_fn(Calc) -> Answer, a: Real, b: Real) -> Real {
    g(Calc::Divide(a, b)).value
}

/// A count as a number.
pub open spec fn counted(g: spec_fn(Calc) -> Answer, n: u64) -> Real {
    g(Calc::Count(n)).value
}

pub(crate) fn sum<F: Fn(Calc) -> Answer>(a: Real, b: Real, calc: &F) -> (r: Real)
    requires
        answers(*calc),
    ensures
        forall|g: spec_fn(Calc) -> Answer| #[trigger] computes(*calc, g) ==> r == plus(g, a, b),
{
    calc(Calc::Add(a, b)).value
}

pub(crate) fn gap<F: Fn(Calc) -> Answer>(a: Real, b: Real, calc: &F) -> (r: Real)
    requires
        answers(*calc),
    ensures
        forall|g: spec_fn(Calc) -> Answer| #[trigger] computes(*calc, g) ==> r == minus(g, a, b),
{
    calc(Calc::Subtract(a, b)).value
}

pub(crate) fn product<F: Fn(Calc) -> Answer>(a: Real, b: Real, calc: &F) -> (r: Real)
    requires
        answers(*calc),
    ensures
        forall|g: spec_fn(Calc) -> Answer| #[trigger] computes(*calc, g) ==> r == times(g, a, b),
{
    calc(Calc::Multiply(a, b)).value
}

pub(crate) fn ratio<F: Fn(Calc) -> Answer>(a: Real, b: Real, calc: &F) -> (r: Real)
    requires
        answers(*calc),
    ensures
        forall|g: spec_fn(Calc) -> Answer| #[trigger] computes(*calc, g) ==> r == over(g, a, b),
{
    calc(Calc::Divide(a, b)).value
}

pub(crate) fn number<F: Fn(Calc) -> Answer>(n: u64, calc: &F) -> (r: Real)
    requires
        answers(*calc),
    ensures
        forall|g: spec_fn(Calc) -> Answer| #[trigger] computes(*calc, g) ==> r == counted(g, n),
{
    calc(Calc::Count(n)).value
}

#[verifier::allow_in_spec]
pub fn half() -> Real
    returns
        encoded(0x3f00_0000),
{
    encoded(0x3f00_0000)
}

#[verifier::allow_in_spec]
pub fn two() -> Real
    returns
        encoded(0x4000_0000),
{
    encoded(0x4000_0000)
}

#[verifier::allow_in_spec]
pub fn half_turn() -> Real
    returns
        encoded(0x4049_0fdb),
{
    encoded(0x4049_0fdb)
}

#[verifier::allow_in_spec]
pub fn full_turn() -> Real
    returns
        encoded(0x40c9_0fdb),
{
    encoded(0x40c9_0fdb)
}

/// A start and `n` steps on.
pub open spec fn stepped(g: spec_fn(Calc) -> Answer, start: Real, n: u64, step: Real) -> Real {
    plus(g, start, times(g, counted(g, n), step))
}

pub(crate) fn after_steps<F: Fn(Calc) -> Answer>(
    start: Real,
    n: u64,
    step: Real,
    calc: &F,
) -> (r: Real)
    requires
        answers(*calc),
    ensures
        forall|g: spec_fn(Calc) -> Answer| #[trigger]
            computes(*calc, g) ==> r == stepped(g, start, n, step),
{
    let k = number(n, calc);
    let way = product(k, step, calc);
    sum(start, way, calc)
}

/// Point `i` of `n` on a circle around a centre, with `spacing` of arc from one to the next.
pub open spec fn ring_place(
    g: spec_fn(Calc) -> Answer,
    center: Vec3,
    i: u64,
    n: u64,
    spacing: Real,
) -> Vec3 {
    let r = over(g, times(g, spacing, counted(g, n).greater_of(one())), full_turn());
    let a = times(g, over(g, counted(g, i), counted(g, n)), full_turn());
    Vec3 {
        x: plus(g, center.x, times(g, r, g(Calc::Cosine(a)).value)),
        y: center.y,
        z: plus(g, center.z, times(g, r, g(Calc::Sine(a)).value)),
    }
}

pub(crate) fn on_ring<F: Fn(Calc) -> Answer>(
    center: Vec3,
    i: u64,
    n: u64,
    spacing: Real,
    calc: &F,
) -> (r: Vec3)
    requires
        answers(*calc),
    ensures
        forall|g: spec_fn(Calc) -> Answer| #[trigger]
            computes(*calc, g) ==> r == ring_place(g, center, i, n, spacing),
{
    let all = number(n, calc);
    let radius = ratio(product(spacing, all.max(one()), calc), full_turn(), calc);
    let a = product(ratio(number(i, calc), all, calc), full_turn(), calc);
    let cosine = calc(Calc::Cosine(a)).value;
    let sine = calc(Calc::Sine(a)).value;
    Vec3 {
        x: sum(center.x, product(radius, cosine, calc), calc),
        y: center.y,
        z: sum(center.z, product(radius, sine, calc), calc),
    }
}

/// A share of a whole, stretched from -1 to 1.
pub open spec fn swing(g: spec_fn(Calc) -> Answer, share: u64, whole: Real) -> Real {
    minus(g, times(g, over(g, counted(g, share), whole), two()), one())
}

fn swung<F: Fn(Calc) -> Answer>(share: u64, whole: Real, calc: &F) -> (r: Real)
    requires
        answers(*calc),
    ensures
        forall|g: spec_fn(Calc) -> Answer| #[trigger]
            computes(*calc, g) ==> r == swing(g, share, whole),
{
    let part = ratio(number(share, calc), whole, calc);
    gap(product(part, two(), calc), one(), calc)
}

/// A place around a centre: the whole hash decides one axis, its upper half the other.
pub open spec fn scatter_place(
    g: spec_fn(Calc) -> Answer,
    center: Vec3,
    h: u64,
    spacing: Real,
) -> Vec3 {
    let x = swing(g, h, encoded(0x5f80_0000));
    let z = swing(g, h >> 32, encoded(0x4f80_0000));
    Vec3 {
        x: plus(g, center.x, times(g, x, spacing)),
        y: center.y,
        z: plus(g, center.z, times(g, z, spacing)),
    }
}

pub(crate) fn scattered<F: Fn(Calc) -> Answer>(
    center: Vec3,
    h: u64,
    spacing: Real,
    calc: &F,
) -> (r: Vec3)
    requires
        answers(*calc),
    ensures
        forall|g: spec_fn(Calc) -> Answer| #[trigger]
            computes(*calc, g) ==> r == scatter_place(g, center, h, spacing),
{
    let x = swung(h, encoded(0x5f80_0000), calc);
    let z = swung(h >> 32, encoded(0x4f80_0000), calc);
    Vec3 {
        x: sum(center.x, product(x, spacing, calc), calc),
        y: center.y,
        z: sum(center.z, product(z, spacing, calc), calc),
    }
}

/// The outward normal of a sphere at a ring from the pole and a segment, of so many each.
pub open spec fn sphere_normal(
    g: spec_fn(Calc) -> Answer,
    ring: u64,
    rings: u64,
    segment: u64,
    segments: u64,
) -> Vec3 {
    let phi = times(g, over(g, counted(g, ring), counted(g, rings)), half_turn());
    let theta = times(g, over(g, counted(g, segment), counted(g, segments)), full_turn());
    let sp = g(Calc::Sine(phi)).value;
    Vec3 {
        x: times(g, g(Calc::Sine(theta)).value, sp),
        y: g(Calc::Cosine(phi)).value,
        z: times(g, g(Calc::Cosine(theta)).value, sp),
    }
}

pub(crate) fn normal_of_sphere<F: Fn(Calc) -> Answer>(
    ring: u64,
    rings: u64,
    segment: u64,
    segments: u64,
    calc: &F,
) -> (r: Vec3)
    requires
        answers(*calc),
    ensures
        forall|g: spec_fn(Calc) -> Answer| #[trigger]
            computes(*calc, g) ==> r == sphere_normal(g, ring, rings, segment, segments),
{
    let v = ratio(number(ring, calc), number(rings, calc), calc);
    let phi = product(v, half_turn(), calc);
    let u = ratio(number(segment, calc), number(segments, calc), calc);
    let theta = product(u, full_turn(), calc);
    let sp = calc(Calc::Sine(phi)).value;
    let cp = calc(Calc::Cosine(phi)).value;
    let st = calc(Calc::Sine(theta)).value;
    let ct = calc(Calc::Cosine(theta)).value;
    Vec3 { x: product(st, sp, calc), y: cp, z: product(ct, sp, calc) }
}

/// Where a matrix projects a point: nowhere if its weight is below a millionth.
pub open spec fn projection(g: spec_fn(Calc) -> Answer, m: Mat4, p: Vec3) -> Option<Vec3> {
    let clip = g(Calc::Clip(m, p)).pose.rotation;
    if clip.w.absolute().less(encoded(0x3586_37bd)) {
        None
    } else {
        Some(
            Vec3 {
                x: over(g, clip.x, clip.w),
                y: over(g, clip.y, clip.w),
                z: over(g, clip.z, clip.w),
            },
        )
    }
}

pub(crate) fn project_ndc<F: Fn(Calc) -> Answer>(m: Mat4, p: Vec3, calc: &F) -> (r: Option<Vec3>)
    requires
        answers(*calc),
    ensures
        forall|g: spec_fn(Calc) -> Answer| #[trigger]
            computes(*calc, g) ==> r == projection(g, m, p),
{
    let clip = calc(Calc::Clip(m, p)).pose.rotation;
    if clip.w.abs().lt(encoded(0x3586_37bd)) {
        return None;
    }
    Some(
        Vec3 {
            x: ratio(clip.x, clip.w, calc),
            y: ratio(clip.y, clip.w, calc),
            z: ratio(clip.z, clip.w, calc),
        },
    )
}

/// A projected point in window coordinates: from the left and from the top, 0 to 1.
pub open spec fn window_place(g: spec_fn(Calc) -> Answer, ndc: Vec3) -> (Real, Real) {
    (times(g, plus(g, ndc.x, one()), half()), times(g, minus(g, one(), ndc.y), half()))
}

pub(crate) fn in_window<F: Fn(Calc) -> Answer>(ndc: Vec3, calc: &F) -> (r: (Real, Real))
    requires
        answers(*calc),
    ensures
        forall|g: spec_fn(Calc) -> Answer| #[trigger]
            computes(*calc, g) ==> r == window_place(g, ndc),
{
    let x = product(sum(ndc.x, one(), calc), half(), calc);
    let y = product(gap(one(), ndc.y, calc), half(), calc);
    (x, y)
}

/// Whether the first projected point stands before the second one: nearer by a hundredth, and
/// less than 0.15 away across the window.
pub open spec fn covers(g: spec_fn(Calc) -> Answer, other: Vec3, ndc: Vec3) -> bool {
    let dx = minus(g, other.x, ndc.x);
    let dy = minus(g, other.y, ndc.y);
    other.z.less(minus(g, ndc.z, encoded(0x3c23_d70a))) && plus(
        g,
        times(g, dx, dx),
        times(g, dy, dy),
    ).less(times(g, encoded(0x3e19_999a), encoded(0x3e19_999a)))
}

pub(crate) fn stands_before<F: Fn(Calc) -> Answer>(other: Vec3, ndc: Vec3, calc: &F) -> (r: bool)
    requires
        answers(*calc),
    ensures
        forall|g: spec_fn(Calc) -> Answer| #[trigger]
            computes(*calc, g) ==> r == covers(g, other, ndc),
{
    let dx = gap(other.x, ndc.x, calc);
    let dy = gap(other.y, ndc.y, calc);
    let nearer = other.z.lt(gap(ndc.z, encoded(0x3c23_d70a), calc));
    let away = sum(product(dx, dx, calc), product(dy, dy, calc), calc);
    let reach = product(encoded(0x3e19_999a), encoded(0x3e19_999a), calc);
    nearer && away.lt(reach)
}

/// The centre of a box.
pub open spec fn middle(g: spec_fn(Calc) -> Answer, min: Vec3, max: Vec3) -> Vec3 {
    g(Calc::Scale(g(Calc::Sum(min, max)).point, half())).point
}

pub(crate) fn middle_of<F: Fn(Calc) -> Answer>(min: Vec3, max: Vec3, calc: &F) -> (r: Vec3)
    requires
        answers(*calc),
    ensures
        forall|g: spec_fn(Calc) -> Answer| #[trigger]
            computes(*calc, g) ==> r == middle(g, min, max),
{
    let both = calc(Calc::Sum(min, max)).point;
    calc(Calc::Scale(both, half())).point
}

/// Half the diagonal of a box and one more, between 4 and 20.
pub open spec fn fit_radius(g: spec_fn(Calc) -> Answer, min: Vec3, max: Vec3) -> Real {
    plus(g, times(g, g(Calc::Distance(max, min)).value, half()), one()).held_within(
        encoded(0x4080_0000),
        encoded(0x41a0_0000),
    )
}

pub(crate) fn radius_of<F: Fn(Calc) -> Answer>(min: Vec3, max: Vec3, calc: &F) -> (r: Real)
    requires
        answers(*calc),
    ensures
        forall|g: spec_fn(Calc) -> Answer| #[trigger]
            computes(*calc, g) ==> r == fit_radius(g, min, max),
{
    let diagonal = calc(Calc::Distance(max, min)).value;
    sum(product(diagonal, half(), calc), one(), calc).clamp(
        encoded(0x4080_0000),
        encoded(0x41a0_0000),
    )
}

/// `a*b - c*d`.
pub open spec fn crossed(g: spec_fn(Calc) -> Answer, a: Real, b: Real, c: Real, d: Real) -> Real {
    minus(g, times(g, a, b), times(g, c, d))
}

fn cross_of<F: Fn(Calc) -> Answer>(a: Real, b: Real, c: Real, d: Real, calc: &F) -> (r: Real)
    requires
        answers(*calc),
    ensures
        forall|g: spec_fn(Calc) -> Answer| #[trigger]
            computes(*calc, g) ==> r == crossed(g, a, b, c, d),
{
    gap(product(a, b, calc), product(c, d, calc), calc)
}

/// A vector turned by a rotation.
pub open spec fn turned(g: spec_fn(Calc) -> Answer, q: Quat, v: Vec3) -> Vec3 {
    let tx = times(g, two(), crossed(g, q.y, v.z, q.z, v.y));
    let ty = times(g, two(), crossed(g, q.z, v.x, q.x, v.z));
    let tz = times(g, two(), crossed(g, q.x, v.y, q.y, v.x));
    Vec3 {
        x: plus(g, plus(g, v.x, times(g, q.w, tx)), crossed(g, q.y, tz, q.z, ty)),
        y: plus(g, plus(g, v.y, times(g, q.w, ty)), crossed(g, q.z, tx, q.x, tz)),
        z: plus(g, plus(g, v.z, times(g, q.w, tz)), crossed(g, q.x, ty, q.y, tx)),
    }
}

pub(crate) fn qmul_vec<F: Fn(Calc) -> Answer>(q: Quat, v: Vec3, calc: &F) -> (r: Vec3)
    requires
        answers(*calc),
    ensures
        forall|g: spec_fn(Calc) -> Answer| #[trigger] computes(*calc, g) ==> r == turned(g, q, v),
{
    let tx = product(two(), cross_of(q.y, v.z, q.z, v.y, calc), calc);
    let ty = product(two(), cross_of(q.z, v.x, q.x, v.z, calc), calc);
    let tz = product(two(), cross_of(q.x, v.y, q.y, v.x, calc), calc);
    let x = sum(v.x, product(q.w, tx, calc), calc);
    let y = sum(v.y, product(q.w, ty, calc), calc);
    let z = sum(v.z, product(q.w, tz, calc), calc);
    Vec3 {
        x: sum(x, cross_of(q.y, tz, q.z, ty, calc), calc),
        y: sum(y, cross_of(q.z, tx, q.x, tz, calc), calc),
        z: sum(z, cross_of(q.x, ty, q.y, tx, calc), calc),
    }
}

/// The rotation `q` after the rotation `p`, as a product of quaternions.
pub open spec fn turned_on(g: spec_fn(Calc) -> Answer, p: Quat, q: Quat) -> Quat {
    Quat {
        x: minus(
            g,
            plus(g, plus(g, times(g, p.w, q.x), times(g, p.x, q.w)), times(g, p.y, q.z)),
            times(g, p.z, q.y),
        ),
        y: plus(
            g,
            plus(g, crossed(g, p.w, q.y, p.x, q.z), times(g, p.y, q.w)),
            times(g, p.z, q.x),
        ),
        z: plus(
            g,
            minus(g, plus(g, times(g, p.w, q.z), times(g, p.x, q.y)), times(g, p.y, q.x)),
            times(g, p.z, q.w),
        ),
        w: minus(
            g,
            minus(g, crossed(g, p.w, q.w, p.x, q.x), times(g, p.y, q.y)),
            times(g, p.z, q.z),
        ),
    }
}

fn quaternion_product<F: Fn(Calc) -> Answer>(p: Quat, q: Quat, calc: &F) -> (r: Quat)
    requires
        answers(*calc),
    ensures
        forall|g: spec_fn(Calc) -> Answer| #[trigger]
            computes(*calc, g) ==> r == turned_on(g, p, q),
{
    let x1 = sum(product(p.w, q.x, calc), product(p.x, q.w, calc), calc);
    let x2 = sum(x1, product(p.y, q.z, calc), calc);
    let x = gap(x2, product(p.z, q.y, calc), calc);
    let y1 = sum(cross_of(p.w, q.y, p.x, q.z, calc), product(p.y, q.w, calc), calc);
    let y = sum(y1, product(p.z, q.x, calc), calc);
    let z1 = sum(product(p.w, q.z, calc), product(p.x, q.y, calc), calc);
    let z2 = gap(z1, product(p.y, q.x, calc), calc);
    let z = sum(z2, product(p.z, q.w, calc), calc);
    let w1 = gap(cross_of(p.w, q.w, p.x, q.x, calc), product(p.y, q.y, calc), calc);
    let w = gap(w1, product(p.z, q.z, calc), calc);
    Quat { x, y, z, w }
}

/// Component by component.
pub open spec fn stretched(g: spec_fn(Calc) -> Answer, a: Vec3, b: Vec3) -> Vec3 {
    Vec3 { x: times(g, a.x, b.x), y: times(g, a.y, b.y), z: times(g, a.z, b.z) }
}

fn stretch<F: Fn(Calc) -> Answer>(a: Vec3, b: Vec3, calc: &F) -> (r: Vec3)
    requires
        answers(*calc),
    ensures
        forall|g: spec_fn(Calc) -> Answer| #[trigger]
            computes(*calc, g) ==> r == stretched(g, a, b),
{
    Vec3 { x: product(a.x, b.x, calc), y: product(a.y, b.y, calc), z: product(a.z, b.z, calc) }
}

/// A placement carried by its parent's, without shear.
pub open spec fn carried(g: spec_fn(Calc) -> Answer, up: Transform, own: Transform) -> Transform {
    let w = turned(g, up.rotation, stretched(g, own.translation, up.scale));
    Transform {
        translation: Vec3 {
            x: plus(g, up.translation.x, w.x),
            y: plus(g, up.translation.y, w.y),
            z: plus(g, up.translation.z, w.z),
        },
        rotation: turned_on(g, up.rotation, own.rotation),
        scale: stretched(g, up.scale, own.scale),
    }
}

pub(crate) fn carry<F: Fn(Calc) -> Answer>(up: Transform, own: Transform, calc: &F) -> (r:
    Transform)
    requires
        answers(*calc),
    ensures
        forall|g: spec_fn(Calc) -> Answer| #[trigger]
            computes(*calc, g) ==> r == carried(g, up, own),
{
    let local = stretch(own.translation, up.scale, calc);
    let w = qmul_vec(up.rotation, local, calc);
    Transform {
        translation: Vec3 {
            x: sum(up.translation.x, w.x, calc),
            y: sum(up.translation.y, w.y, calc),
            z: sum(up.translation.z, w.z, calc),
        },
        rotation: quaternion_product(up.rotation, own.rotation, calc),
        scale: stretch(up.scale, own.scale, calc),
    }
}

/// The square of a length.
pub open spec fn squared(g: spec_fn(Calc) -> Answer, x: Real, y: Real, z: Real) -> Real {
    plus(g, plus(g, times(g, x, x), times(g, y, y)), times(g, z, z))
}

fn square_of<F: Fn(Calc) -> Answer>(x: Real, y: Real, z: Real, calc: &F) -> (r: Real)
    requires
        answers(*calc),
    ensures
        forall|g: spec_fn(Calc) -> Answer| #[trigger]
            computes(*calc, g) ==> r == squared(g, x, y, z),
{
    let xy = sum(product(x, x, calc), product(y, y, calc), calc);
    sum(xy, product(z, z, calc), calc)
}

/// Angle in degrees and axis of a rotation; no turn at all is one about x.
pub open spec fn axis_angle(g: spec_fn(Calc) -> Answer, q: Quat) -> (Real, Vec3) {
    let n = g(Calc::Root(squared(g, q.x, q.y, q.z))).value;
    if n.less(encoded(0x322b_cc77)) {
        (zero(), Vec3 { x: one(), y: zero(), z: zero() })
    } else {
        (
            times(g, two(), g(Calc::Degrees(g(Calc::ArcTangent(n, q.w)).value)).value),
            Vec3 { x: over(g, q.x, n), y: over(g, q.y, n), z: over(g, q.z, n) },
        )
    }
}

pub(crate) fn q_axis_angle<F: Fn(Calc) -> Answer>(q: Quat, calc: &F) -> (r: (Real, Vec3))
    requires
        answers(*calc),
    ensures
        forall|g: spec_fn(Calc) -> Answer| #[trigger] computes(*calc, g) ==> r == axis_angle(g, q),
{
    let n = calc(Calc::Root(square_of(q.x, q.y, q.z, calc))).value;
    if n.lt(encoded(0x322b_cc77)) {
        return (zero(), Vec3 { x: one(), y: zero(), z: zero() });
    }
    let bend = calc(Calc::ArcTangent(n, q.w)).value;
    let degrees = calc(Calc::Degrees(bend)).value;
    let axis = Vec3 { x: ratio(q.x, n, calc), y: ratio(q.y, n, calc), z: ratio(q.z, n, calc) };
    (product(two(), degrees, calc), axis)
}

/// The way from one point to another, at length one; as short as it is below a hundred
/// millionth.
pub open spec fn heading(g: spec_fn(Calc) -> Answer, from: Vec3, to: Vec3) -> Vec3 {
    let x = minus(g, to.x, from.x);
    let y = minus(g, to.y, from.y);
    let z = minus(g, to.z, from.z);
    let l = g(Calc::Root(squared(g, x, y, z))).value.greater_of(encoded(0x322b_cc77));
    Vec3 { x: over(g, x, l), y: over(g, y, l), z: over(g, z, l) }
}

fn heading_to<F: Fn(Calc) -> Answer>(from: Vec3, to: Vec3, calc: &F) -> (r: Vec3)
    requires
        answers(*calc),
    ensures
        forall|g: spec_fn(Calc) -> Answer| #[trigger]
            computes(*calc, g) ==> r == heading(g, from, to),
{
    let x = gap(to.x, from.x, calc);
    let y = gap(to.y, from.y, calc);
    let z = gap(to.z, from.z, calc);
    let l = calc(Calc::Root(square_of(x, y, z, calc))).value.max(encoded(0x322b_cc77));
    Vec3 { x: ratio(x, l, calc), y: ratio(y, l, calc), z: ratio(z, l, calc) }
}

/// Yaw and pitch in degrees of a camera that looks from one point to another.
pub open spec fn aim(g: spec_fn(Calc) -> Answer, eye: Vec3, target: Vec3) -> (Real, Real) {
    let look = heading(g, eye, target);
    (
        g(
            Calc::Degrees(g(Calc::ArcTangent(look.x.negated(), look.z.negated())).value),
        ).value,
        g(
            Calc::Degrees(g(Calc::ArcSine(look.y.held_within(encoded(0xbf80_0000), one()))).value),
        ).value,
    )
}

pub(crate) fn aim_at<F: Fn(Calc) -> Answer>(eye: Vec3, target: Vec3, calc: &F) -> (r: (Real, Real))
    requires
        answers(*calc),
    ensures
        forall|g: spec_fn(Calc) -> Answer| #[trigger]
            computes(*calc, g) ==> r == aim(g, eye, target),
{
    let look = heading_to(eye, target, calc);
    let turn = calc(Calc::ArcTangent(look.x.neg(), look.z.neg())).value;
    let yaw = calc(Calc::Degrees(turn)).value;
    let rise = calc(Calc::ArcSine(look.y.clamp(encoded(0xbf80_0000), one()))).value;
    let pitch = calc(Calc::Degrees(rise)).value;
    (yaw, pitch)
}

/// How bright a pixel is.
pub open spec fn luma(g: spec_fn(Calc) -> Answer, red: u8, green: u8, blue: u8) -> Real {
    plus(
        g,
        plus(
            g,
            times(g, encoded(0x3e59_b3d0), counted(g, red as u64)),
            times(g, encoded(0x3f37_1759), counted(g, green as u64)),
        ),
        times(g, encoded(0x3d93_dd98), counted(g, blue as u64)),
    )
}

pub(crate) fn brightness<F: Fn(Calc) -> Answer>(red: u8, green: u8, blue: u8, calc: &F) -> (r: Real)
    requires
        answers(*calc),
    ensures
        forall|g: spec_fn(Calc) -> Answer| #[trigger]
            computes(*calc, g) ==> r == luma(g, red, green, blue),
{
    let r = product(encoded(0x3e59_b3d0), number(red as u64, calc), calc);
    let g = product(encoded(0x3f37_1759), number(green as u64, calc), calc);
    let b = product(encoded(0x3d93_dd98), number(blue as u64, calc), calc);
    sum(sum(r, g, calc), b, calc)
}

/// Where an eye goes so that a sphere fits its view: away from the centre the way it looked
/// from, at least half a unit's worth, with a third more room.
pub open spec fn retreat(
    g: spec_fn(Calc) -> Answer,
    eye: Vec3,
    target: Vec3,
    fov_y_deg: Real,
    center: Vec3,
    radius: Real,
) -> Vec3 {
    let way = g(Calc::Unit(g(Calc::Gap(eye, target)).point));
    let back = if way.holds {
        way.point
    } else {
        Vec3 { x: zero(), y: zero(), z: one() }
    };
    let half_view = g(
        Calc::Tangent(times(g, g(Calc::Radians(fov_y_deg)).value, half())),
    ).value.greater_of(encoded(0x3d4c_cccd));
    let distance = times(g, over(g, radius.greater_of(half()), half_view), encoded(0x3fac_cccd));
    g(Calc::Sum(center, g(Calc::Scale(back, distance)).point)).point
}

pub(crate) fn back_off<F: Fn(Calc) -> Answer>(
    eye: Vec3,
    target: Vec3,
    fov_y_deg: Real,
    center: Vec3,
    radius: Real,
    calc: &F,
) -> (r: Vec3)
    requires
        answers(*calc),
    ensures
        forall|g: spec_fn(Calc) -> Answer| #[trigger]
            computes(*calc, g) ==> r == retreat(g, eye, target, fov_y_deg, center, radius),
{
    let away = calc(Calc::Gap(eye, target)).point;
    let way = calc(Calc::Unit(away));
    let back = if way.holds {
        way.point
    } else {
        Vec3 { x: zero(), y: zero(), z: one() }
    };
    let view = calc(Calc::Radians(fov_y_deg)).value;
    let open = calc(Calc::Tangent(product(view, half(), calc))).value;
    let half_view = open.max(encoded(0x3d4c_cccd));
    let distance = product(
        ratio(radius.max(half()), half_view, calc),
        encoded(0x3fac_cccd),
        calc,
    );
    let shift = calc(Calc::Scale(back, distance)).point;
    calc(Calc::Sum(center, shift)).point
}

} // verus!
