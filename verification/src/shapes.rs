//! Where the corners of meshes lie, and what the sun's view covers.

use crate::document::{grown, light_bounds, stands_at, Bounds, DocumentModel};
use crate::exact::{differs, divides, exact, finite3, multiplies, sums};
use crate::formula::{half, over, times, two};
use crate::geom::{box_corners, box_normals, half_of, mesh_of, normal_at};
use crate::light::{covered_radius, direction_of, snapped, texel_width, SceneLight};
use crate::motion::exact_on_points;
use crate::numeric::{one, zero, Answer, Calc, Real, Vec3};
use crate::worth::{choices_are_by_worth, finite, names_say_worth, signs_turn_worth, unit, units};
use vstd::prelude::*;

verus! {

pub open spec fn size_without_sign(n: int) -> int {
    if n < 0 {
        -n
    } else {
        n
    }
}

proof fn half_worth(v: Real, g: spec_fn(Calc) -> Answer)
    requires
        exact(g),
        finite(half_of(v, g)),
    ensures
        finite(v),
        2 * units(half_of(v, g)) == units(v),
{
    names_say_worth();
    let r = half_of(v, g);
    assert(multiplies(r, v, half()));
    let (x, y, h, u) = (units(r), units(v), units(half()), unit());
    assert(2 * x == y) by (nonlinear_arith)
        requires
            x * u == y * h,
            2 * h == u,
            u > 0,
    ;
}

/// One side of one axis of a box: the corner lies on that side, and the normal that looks along
/// the axis looks the same way.
pub open spec fn on_side(corner: Real, normal: Real, edge: Real) -> bool {
    &&& units(normal) == 0 || units(normal) == unit() || units(normal) == -unit()
    &&& 2 * units(corner) == units(edge) || 2 * units(corner) == -units(edge)
    &&& units(normal) == unit() ==> 2 * units(corner) == units(edge)
    &&& units(normal) == -unit() ==> 2 * units(corner) == -units(edge)
}

proof fn side_of(v: Real, edge: Real, c: int, n: int)
    requires
        finite(v),
        2 * units(v) == units(edge),
        c == 1 || c == -1,
        n == 0 || n == c,
    ensures
        on_side(crate::geom::signed(v, c), crate::geom::signed(one(), n), edge),
{
    names_say_worth();
    signs_turn_worth(v);
    signs_turn_worth(one());
}

proof fn box_signs(k: int)
    requires
        0 <= k < 24,
    ensures
        ({
            let c = box_corners()[k];
            let n = box_normals()[k / 4];
            &&& c.x == 1 || c.x == -1
            &&& c.y == 1 || c.y == -1
            &&& c.z == 1 || c.z == -1
            &&& n.x == 0 || n.x == c.x
            &&& n.y == 0 || n.y == c.y
            &&& n.z == 0 || n.z == c.z
            &&& (n.x != 0 && n.y == 0 && n.z == 0) || (n.x == 0 && n.y != 0 && n.z == 0) || (n.x
                == 0 && n.y == 0 && n.z != 0)
        }),
{
    if k < 4 {
        assert(k / 4 == 0);
    } else if k < 8 {
        assert(k / 4 == 1);
    } else if k < 12 {
        assert(k / 4 == 2);
    } else if k < 16 {
        assert(k / 4 == 3);
    } else if k < 20 {
        assert(k / 4 == 4);
    } else {
        assert(k / 4 == 5);
    }
}

/// A box has twenty-four vertices, four to a face. Every one lies at half an edge from the middle
/// along each axis, on the side that its face looks to, and its normal looks straight along one
/// axis.
pub proof fn box_vertices_lie_on_faces(size: Vec3, k: int, g: spec_fn(Calc) -> Answer)
    requires
        exact(g),
        0 <= k < 24,
        finite(half_of(size.x, g)) && finite(half_of(size.y, g)) && finite(half_of(size.z, g)),
    ensures
        mesh_of("box"@, size, g) matches Ok(m) && {
            let p = m.positions[k];
            let n = m.normals[k];
            &&& m.positions.len() == 24
            &&& m.normals.len() == 24
            &&& m.indices.len() == 36
            &&& on_side(p.x, n.x, size.x)
            &&& on_side(p.y, n.y, size.y)
            &&& on_side(p.z, n.z, size.z)
            &&& (units(n.x) != 0 && units(n.y) == 0 && units(n.z) == 0) || (units(n.x) == 0
                && units(n.y) != 0 && units(n.z) == 0) || (units(n.x) == 0 && units(n.y) == 0
                && units(n.z) != 0)
        },
{
    half_worth(size.x, g);
    half_worth(size.y, g);
    half_worth(size.z, g);
    box_signs(k);
    let c = box_corners()[k];
    let n = box_normals()[k / 4];
    side_of(half_of(size.x, g), size.x, c.x, n.x);
    side_of(half_of(size.y, g), size.y, c.y, n.y);
    side_of(half_of(size.z, g), size.z, c.z, n.z);
    names_say_worth();
    signs_turn_worth(one());
}

/// A plane has four vertices at no height that look straight up, half its width to the left or
/// right and half its depth to the front or back.
pub proof fn plane_vertices_lie_flat(size: Vec3, k: int, g: spec_fn(Calc) -> Answer)
    requires
        exact(g),
        0 <= k < 4,
        finite3(size),
        finite(half_of(size.x.absolute(), g)),
        finite(half_of(size.z.absolute().greater_of(size.y.absolute()), g)),
    ensures
        mesh_of("plane"@, size, g) matches Ok(m) && {
            let p = m.positions[k];
            let n = m.normals[k];
            let depth = if size_without_sign(units(size.z)) < size_without_sign(units(size.y)) {
                size_without_sign(units(size.y))
            } else {
                size_without_sign(units(size.z))
            };
            &&& m.positions.len() == 4
            &&& units(p.y) == 0
            &&& size_without_sign(2 * units(p.x)) == size_without_sign(units(size.x))
            &&& size_without_sign(2 * units(p.z)) == depth
            &&& units(n.x) == 0 && units(n.y) == unit() && units(n.z) == 0
        },
{
    crate::scenery::kinds_differ();
    signs_turn_worth(size.x);
    signs_turn_worth(size.y);
    signs_turn_worth(size.z);
    half_worth(size.x.absolute(), g);
    let deep = size.z.absolute().greater_of(size.y.absolute());
    half_worth(deep, g);
    choices_are_by_worth(size.z.absolute(), size.y.absolute(), zero());
    names_say_worth();
    signs_turn_worth(half_of(size.x.absolute(), g));
    signs_turn_worth(half_of(deep, g));
    if k == 0 {
        assert(crate::geom::plane_corners()[0] == crate::geom::signs(-1, 0, -1));
    } else if k == 1 {
        assert(crate::geom::plane_corners()[1] == crate::geom::signs(1, 0, -1));
    } else if k == 2 {
        assert(crate::geom::plane_corners()[2] == crate::geom::signs(1, 0, 1));
    } else {
        assert(crate::geom::plane_corners()[3] == crate::geom::signs(-1, 0, 1));
    }
}

/// Every vertex of a sphere lies along its normal, half an edge out on each axis.
pub proof fn sphere_vertices_lie_along_normals(size: Vec3, k: int, g: spec_fn(Calc) -> Answer)
    requires
        exact(g),
        exact_on_points(g),
        0 <= k < 117,
        finite3(size),
        finite3((mesh_of("sphere"@, size, g)->Ok_0).positions[k]),
    ensures
        mesh_of("sphere"@, size, g) matches Ok(m) && {
            let p = m.positions[k];
            let n = m.normals[k];
            &&& m.positions.len() == 117
            &&& n == normal_at(k, g)
            &&& 2 * units(p.x) * unit() == units(n.x) * size_without_sign(units(size.x))
            &&& 2 * units(p.y) * unit() == units(n.y) * size_without_sign(units(size.y))
            &&& 2 * units(p.z) * unit() == units(n.z) * size_without_sign(units(size.z))
        },
{
    crate::scenery::kinds_differ();
    let n = normal_at(k, g);
    let radii = Vec3 {
        x: half_of(size.x.absolute(), g),
        y: half_of(size.y.absolute(), g),
        z: half_of(size.z.absolute(), g),
    };
    let p = g(Calc::Stretch(n, radii)).point;
    assert((mesh_of("sphere"@, size, g)->Ok_0).positions[k] == p);
    signs_turn_worth(size.x);
    signs_turn_worth(size.y);
    signs_turn_worth(size.z);
    assert(multiplies(p.x, n.x, radii.x) && multiplies(p.y, n.y, radii.y) && multiplies(
        p.z,
        n.z,
        radii.z,
    ));
    half_worth(size.x.absolute(), g);
    half_worth(size.y.absolute(), g);
    half_worth(size.z.absolute(), g);
    twice_out(units(p.x), units(n.x), units(radii.x), unit());
    twice_out(units(p.y), units(n.y), units(radii.y), unit());
    twice_out(units(p.z), units(n.z), units(radii.z), unit());
}

proof fn twice_out(p: int, n: int, r: int, u: int)
    requires
        p * u == n * r,
    ensures
        2 * p * u == n * (2 * r),
{
    assert(2 * p * u == n * (2 * r)) by (nonlinear_arith)
        requires
            p * u == n * r,
    ;
}

/// The triangles of a sphere span patches between neighbouring rings and segments: two to a
/// patch, and each patch with one corner from each of its neighbours.
pub proof fn sphere_patches_join_rings(size: Vec3, ring: int, segment: int, g: spec_fn(Calc) -> Answer)
    requires
        0 <= ring < 8,
        0 <= segment < 12,
    ensures
        mesh_of("sphere"@, size, g) matches Ok(m) && {
            let a = 13 * ring + segment;
            let t = 6 * (12 * ring + segment);
            &&& m.indices.len() == 576
            &&& m.indices[t] == a
            &&& m.indices[t + 1] == a + 13
            &&& m.indices[t + 2] == a + 1
            &&& m.indices[t + 3] == a + 1
            &&& m.indices[t + 4] == a + 13
            &&& m.indices[t + 5] == a + 14
        },
{
    crate::scenery::kinds_differ();
    let t = 6 * (12 * ring + segment);
    let p = 12 * ring + segment;
    assert(p / 12 == ring && p % 12 == segment);
    assert(forall|j: int| 0 <= j < 6 ==> #[trigger] (t + j) / 6 == p && (t + j) % 6 == j);
    assert((t + 0) / 6 == p && (t + 1) / 6 == p && (t + 2) / 6 == p && (t + 3) / 6 == p && (t + 4)
        / 6 == p && (t + 5) / 6 == p);
}

/// A box grows around what is added to it: it still holds what it held, and now the whole of the
/// cube that the largest edge spans around the place.
pub proof fn bounds_grow_around(
    b: Bounds,
    t: Vec3,
    size: Vec3,
    g: spec_fn(Calc) -> Answer,
)
    requires
        exact(g),
        finite3(b.min),
        finite3(b.max),
        finite3(size),
        ({
            let r = g(
                Calc::Multiply(
                    Real { bits: 0x3dcc_cccd }.greater_of(size.x).greater_of(size.y).greater_of(
                        size.z,
                    ),
                    half(),
                ),
            ).value;
            &&& finite(g(Calc::Subtract(t.x, r)).value)
            &&& finite(g(Calc::Subtract(t.y, r)).value)
            &&& finite(g(Calc::Subtract(t.z, r)).value)
            &&& finite(g(Calc::Add(t.x, r)).value)
            &&& finite(g(Calc::Add(t.y, r)).value)
            &&& finite(g(Calc::Add(t.z, r)).value)
        }),
    ensures
        ({
            let c = grown(b, t, size, g);
            &&& c.any
            &&& finite3(c.min) && finite3(c.max)
            &&& reaches(b.min.x, b.max.x, c.min.x, c.max.x, t.x, size)
            &&& reaches(b.min.y, b.max.y, c.min.y, c.max.y, t.y, size)
            &&& reaches(b.min.z, b.max.z, c.min.z, c.max.z, t.z, size)
        }),
{
    widest_is_widest(size);
    let reach = widest(size);
    let r = g(Calc::Multiply(reach, half())).value;
    assert(differs(g(Calc::Subtract(t.x, r)).value, t.x, r));
    half_worth(reach, g);
    axis_grows(b.min.x, b.max.x, t.x, r, g);
    axis_grows(b.min.y, b.max.y, t.y, r, g);
    axis_grows(b.min.z, b.max.z, t.z, r, g);
}

/// The largest of three edges, and at least a tenth.
spec fn widest(size: Vec3) -> Real {
    Real { bits: 0x3dcc_cccd }.greater_of(size.x).greater_of(size.y).greater_of(size.z)
}

proof fn widest_is_widest(size: Vec3)
    requires
        finite3(size),
    ensures
        finite(widest(size)),
        units(size.x) <= units(widest(size)),
        units(size.y) <= units(widest(size)),
        units(size.z) <= units(widest(size)),
{
    let floor = Real { bits: 0x3dcc_cccd };
    choices_are_by_worth(floor, size.x, zero());
    choices_are_by_worth(floor.greater_of(size.x), size.y, zero());
    choices_are_by_worth(floor.greater_of(size.x).greater_of(size.y), size.z, zero());
}

proof fn axis_grows(lo: Real, hi: Real, t: Real, r: Real, g: spec_fn(Calc) -> Answer)
    requires
        exact(g),
        finite(lo),
        finite(hi),
        finite(g(Calc::Subtract(t, r)).value),
        finite(g(Calc::Add(t, r)).value),
    ensures
        ({
            let a = lo.smaller_of(g(Calc::Subtract(t, r)).value);
            let b = hi.greater_of(g(Calc::Add(t, r)).value);
            &&& finite(a) && finite(b)
            &&& units(a) <= units(lo)
            &&& units(hi) <= units(b)
            &&& units(a) + units(r) <= units(t)
            &&& units(t) + units(r) <= units(b)
        }),
{
    assert(differs(g(Calc::Subtract(t, r)).value, t, r));
    assert(sums(g(Calc::Add(t, r)).value, t, r));
    choices_are_by_worth(lo, g(Calc::Subtract(t, r)).value, zero());
    choices_are_by_worth(hi, g(Calc::Add(t, r)).value, zero());
}

/// Along one axis, new bounds hold the old ones and half of every edge of `size` on both sides of
/// `t`.
pub open spec fn reaches(
    old_lo: Real,
    old_hi: Real,
    lo: Real,
    hi: Real,
    t: Real,
    size: Vec3,
) -> bool {
    &&& units(lo) <= units(old_lo)
    &&& units(old_hi) <= units(hi)
    &&& 2 * units(lo) + units(size.x) <= 2 * units(t)
    &&& 2 * units(lo) + units(size.y) <= 2 * units(t)
    &&& 2 * units(lo) + units(size.z) <= 2 * units(t)
    &&& 2 * units(t) + units(size.x) <= 2 * units(hi)
    &&& 2 * units(t) + units(size.y) <= 2 * units(hi)
    &&& 2 * units(t) + units(size.z) <= 2 * units(hi)
}

/// Only drawn entities that are not small count for the sun's view: each next one that does
/// grows the box around its place, and any other leaves it.
pub proof fn light_bounds_take_what_counts(d: DocumentModel, n: int, g: spec_fn(Calc) -> Answer)
    requires
        0 < n <= d.entities().len(),
    ensures
        ({
            let e = d.entities()[n - 1];
            let before = light_bounds(d, n - 1, g);
            let after = light_bounds(d, n, g);
            let largest = e.size.x.absolute().greater_of(e.size.y.absolute()).greater_of(
                e.size.z.absolute(),
            );
            if e.recipe == "empty"@ || largest.less(Real { bits: 0x3eb3_3333 }) {
                after == before
            } else {
                after == grown(before, stands_at(d, e, g), e.size, g)
            }
        }),
{
}

/// A coordinate is snapped down to a whole number of texels: by less than one.
pub proof fn snapping_goes_down_to_texels(v: Real, texel: Real, g: spec_fn(Calc) -> Answer) -> (n: int)
    requires
        exact(g),
        forall|a: Real|
            finite((#[trigger] g(Calc::Floor(a))).value) ==> finite(a) && units(
                g(Calc::Floor(a)).value,
            ) <= units(a) < units(g(Calc::Floor(a)).value) + unit() && units(
                g(Calc::Floor(a)).value,
            ) % unit() == 0,
        finite(snapped(v, texel, g)),
        units(texel) > 0,
    ensures
        units(snapped(v, texel, g)) == n * units(texel),
        units(snapped(v, texel, g)) <= units(v) < units(snapped(v, texel, g)) + units(texel),
{
    let o = over(g, v, texel);
    let f = g(Calc::Floor(o)).value;
    let r = times(g, f, texel);
    names_say_worth();
    assert(multiplies(r, f, texel));
    assert(divides(o, v, texel));
    let (u, t, x, y, z) = (unit(), units(texel), units(v), units(o), units(f));
    let n = z / u;
    assert(z == n * u) by (nonlinear_arith)
        requires
            z % u == 0,
            n == z / u,
            u > 0,
    ;
    let q = units(r);
    assert(q == n * t) by (nonlinear_arith)
        requires
            q * u == z * t,
            z == n * u,
            u > 0,
    ;
    assert(q <= x < q + t) by (nonlinear_arith)
        requires
            y * t == x * u,
            q * u == z * t,
            z <= y < z + u,
            t > 0,
            u > 0,
    {
        assert(z * t <= y * t);
        assert(y * t < (z + u) * t);
        assert((z + u) * t == z * t + u * t);
        assert((q + t) * u == q * u + u * t);
    }
    n
}

/// The shadow map has 2048 texels across what the sun covers, which is never less than four nor
/// more than twenty-four to each side.
pub proof fn texels_share_the_view(radius: Real, g: spec_fn(Calc) -> Answer)
    requires
        exact(g),
        finite(radius),
        finite(texel_width(covered_radius(radius), g)),
    ensures
        ({
            let r = units(covered_radius(radius));
            &&& 4 * unit() <= r <= 24 * unit()
            &&& 4 * unit() <= units(radius) <= 24 * unit() ==> r == units(radius)
            &&& units(texel_width(covered_radius(radius), g)) * 2048 == 2 * r
        }),
{
    let c = covered_radius(radius);
    let lo = Real { bits: 0x4080_0000 };
    let hi = Real { bits: 0x41c0_0000 };
    let many = Real { bits: 0x4500_0000 };
    crate::worth::small_counts_have_worth();
    names_say_worth();
    choices_are_by_worth(radius, lo, hi);
    let d = times(g, two(), c);
    let t = over(g, d, many);
    assert(divides(t, d, many));
    assert(multiplies(d, two(), c));
    let (u, x, y, z) = (unit(), units(c), units(d), units(t));
    assert(y == 2 * x) by (nonlinear_arith)
        requires
            y * u == (2 * u) * x,
            u > 0,
    ;
    assert(z * 2048 == y) by (nonlinear_arith)
        requires
            z * (2048 * u) == y * u,
            u > 0,
    ;
}

/// The sun shines along its direction at length one; without one it shines straight down.
pub proof fn sun_without_direction_shines_down(light: SceneLight, g: spec_fn(Calc) -> Answer)
    ensures
        ({
            let d = direction_of(light, g);
            let way = g(Calc::Unit(light.direction));
            &&& way.holds ==> d == way.point
            &&& !way.holds ==> units(d.x) == 0 && units(d.y) == -unit() && units(d.z) == 0
        }),
{
    names_say_worth();
    signs_turn_worth(one());
    assert(one().negated() == Real { bits: 0xbf80_0000 });
}

} // verus!
