//! Where the boxes of a layout stand.

use crate::exact::{
    circular, distance_squared, exact, finite3, on_circle, ring_is_round, scatter_stays_around,
    steps_are_even,
};
use crate::layout::{effective_spacing, laid_out, mixed};
use crate::numeric::{Answer, Calc, Real, Vec3};
use crate::worth::{finite, unit, units};
use vstd::prelude::*;

verus! {

/// The patterns are different words.
proof fn patterns_differ()
    ensures
        "linear"@ != "grid"@,
        "linear"@ != "radial"@,
        "linear"@ != "seeded_scatter"@,
        "grid"@ != "radial"@,
        "grid"@ != "seeded_scatter"@,
        "radial"@ != "seeded_scatter"@,
{
    reveal_strlit("linear");
    reveal_strlit("grid");
    reveal_strlit("radial");
    reveal_strlit("seeded_scatter");
    assert("linear"@[0] == 'l' && "radial"@[0] == 'r');
    assert("linear"@.len() == 6 && "grid"@.len() == 4 && "radial"@.len() == 6
        && "seeded_scatter"@.len() == 14);
}

/// A layout is made for one to 128 boxes in one of four patterns, and places each of them.
pub proof fn layouts_are_made(
    pattern: Seq<char>,
    count: u32,
    origin: Vec3,
    spacing: Real,
    columns: u32,
    seed: u64,
    g: spec_fn(Calc) -> Answer,
)
    ensures
        match laid_out(pattern, count, origin, spacing, columns, seed, g) {
            Ok(ps) => ps.len() == count && 1 <= count <= 128 && (pattern == "linear"@ || pattern
                == "grid"@ || pattern == "radial"@ || pattern == "seeded_scatter"@),
            Err(e) => if count < 1 || count > 128 {
                e == "layout_count"@
            } else {
                e == "unknown_layout_pattern:"@ + pattern && pattern != "linear"@ && pattern
                    != "grid"@ && pattern != "radial"@ && pattern != "seeded_scatter"@
            },
        },
{
}

/// The spacing of a layout is the one that was asked for, but no less than five hundredths.
pub proof fn spacing_has_a_floor(spacing: Real)
    requires
        finite(spacing),
    ensures
        ({
            let floor = Real { bits: 0x3d4c_cccd };
            let s = effective_spacing(spacing);
            &&& finite(s)
            &&& units(floor) <= units(s)
            &&& units(floor) <= units(spacing) ==> s == spacing
            &&& units(spacing) < units(floor) ==> s == floor
        }),
{
    let floor = Real { bits: 0x3d4c_cccd };
    crate::worth::choices_are_by_worth(spacing, floor, floor);
    crate::worth::order_is_by_worth(spacing, floor);
}

/// The boxes of a line stand one behind the other, a spacing apart along one axis.
pub proof fn lines_are_straight(
    count: u32,
    origin: Vec3,
    spacing: Real,
    columns: u32,
    seed: u64,
    i: int,
    g: spec_fn(Calc) -> Answer,
)
    requires
        exact(g),
        1 <= count <= 128,
        0 <= i < count,
        finite3((laid_out("linear"@, count, origin, spacing, columns, seed, g)->Ok_0)[i]),
    ensures
        ({
            let p = (laid_out("linear"@, count, origin, spacing, columns, seed, g)->Ok_0)[i];
            &&& units(p.x) == units(origin.x) + i * units(effective_spacing(spacing))
            &&& p.y == origin.y
            &&& p.z == origin.z
        }),
{
    patterns_differ();
    steps_are_even(g, origin.x, i as u64, effective_spacing(spacing));
}

/// The boxes of a grid fill rows of as many as there are columns, a spacing apart along the row
/// and from row to row.
pub proof fn grids_have_rows(
    count: u32,
    origin: Vec3,
    spacing: Real,
    columns: u32,
    seed: u64,
    row: int,
    column: int,
    g: spec_fn(Calc) -> Answer,
)
    requires
        exact(g),
        1 <= count <= 128,
        columns >= 1,
        0 <= column < columns,
        0 <= row,
        row * columns + column < count,
        finite3(
            (laid_out("grid"@, count, origin, spacing, columns, seed, g)->Ok_0)[row * columns
                + column],
        ),
    ensures
        ({
            let p = (laid_out("grid"@, count, origin, spacing, columns, seed, g)->Ok_0)[row
                * columns + column];
            let s = units(effective_spacing(spacing));
            &&& units(p.x) == units(origin.x) + column * s
            &&& p.y == origin.y
            &&& units(p.z) == units(origin.z) + row * s
        }),
{
    patterns_differ();
    let i = row * columns + column;
    let c = columns as int;
    assert(0 <= row * c) by (nonlinear_arith)
        requires
            0 <= row,
            c >= 1,
    ;
    assert(i / c == row && i % c == column) by {
        vstd::arithmetic::div_mod::lemma_fundamental_div_mod_converse(i, c, row, column);
    }
    assert(row <= row * c) by (nonlinear_arith)
        requires
            0 <= row,
            c >= 1,
    ;
    steps_are_even(g, origin.x, column as u64, effective_spacing(spacing));
    steps_are_even(g, origin.z, row as u64, effective_spacing(spacing));
}

/// The boxes of a ring stand on a circle around the origin that is as long as all spacings
/// together, at even shares of a full turn: box number `i` is off along one axis by the radius
/// times the cosine of its angle and along the other by the radius times the sine, and none is
/// higher than the origin.
pub proof fn rings_are_round(
    count: u32,
    origin: Vec3,
    spacing: Real,
    columns: u32,
    seed: u64,
    i: int,
    g: spec_fn(Calc) -> Answer,
) -> (r: (Real, Real))
    requires
        exact(g),
        circular(g),
        1 <= count <= 128,
        0 <= i < count,
        finite3((laid_out("radial"@, count, origin, spacing, columns, seed, g)->Ok_0)[i]),
    ensures
        ({
            let p = (laid_out("radial"@, count, origin, spacing, columns, seed, g)->Ok_0)[i];
            let turn = Real { bits: 0x40c9_0fdb };
            let (radius, angle) = r;
            let s = g(Calc::Sine(angle)).value;
            let c = g(Calc::Cosine(angle)).value;
            &&& units(radius) * units(turn) == units(effective_spacing(spacing)) * count * unit()
            &&& units(angle) * count == i * units(turn)
            &&& p.y == origin.y
            &&& (units(p.x) - units(origin.x)) * unit() == units(radius) * units(c)
            &&& (units(p.z) - units(origin.z)) * unit() == units(radius) * units(s)
            &&& on_circle(s, c)
            &&& distance_squared(p, origin) == units(radius) * units(radius)
        }),
{
    patterns_differ();
    ring_is_round(g, origin, i as u64, count as u64, effective_spacing(spacing))
}

/// Scattered boxes stand around the origin, none further off along an axis than the spacing and
/// none higher or lower. Where they stand is decided by the seed and their number alone.
pub proof fn scatter_is_bounded(
    count: u32,
    origin: Vec3,
    spacing: Real,
    columns: u32,
    seed: u64,
    i: int,
    g: spec_fn(Calc) -> Answer,
)
    requires
        exact(g),
        1 <= count <= 128,
        0 <= i < count,
        finite3((laid_out("seeded_scatter"@, count, origin, spacing, columns, seed, g)->Ok_0)[i]),
        units(effective_spacing(spacing)) >= 0,
    ensures
        ({
            let p = (laid_out("seeded_scatter"@, count, origin, spacing, columns, seed, g)->Ok_0)[i];
            let s = units(effective_spacing(spacing));
            let dx = units(p.x) - units(origin.x);
            let dz = units(p.z) - units(origin.z);
            let h = mixed(seed ^ (i as u64).wrapping_mul(0x9E37_79B9_7F4A_7C15));
            &&& p.y == origin.y
            &&& -s <= dx <= s
            &&& -s <= dz <= s
            &&& dx * 0x1_0000_0000_0000_0000 == (2 * h - 0x1_0000_0000_0000_0000) * s
            &&& dz * 0x1_0000_0000 == (2 * (h / 0x1_0000_0000) - 0x1_0000_0000) * s
        }),
{
    patterns_differ();
    let h = mixed(seed ^ (i as u64).wrapping_mul(0x9E37_79B9_7F4A_7C15));
    scatter_stays_around(g, origin, h, effective_spacing(spacing));
}

/// A grid of no columns has one, and only a grid has any regard for columns.
pub proof fn grids_have_a_column(
    pattern: Seq<char>,
    count: u32,
    origin: Vec3,
    spacing: Real,
    columns: u32,
    seed: u64,
    g: spec_fn(Calc) -> Answer,
    i: int,
)
    requires
        laid_out(pattern, count, origin, spacing, columns, seed, g) is Ok,
        0 <= i < count,
    ensures
        columns == 0 || pattern != "grid"@ ==> laid_out(
            pattern,
            count,
            origin,
            spacing,
            columns,
            seed,
            g,
        )->Ok_0[i] == laid_out(pattern, count, origin, spacing, 1, seed, g)->Ok_0[i],
        pattern != "seeded_scatter"@ ==> laid_out(
            pattern,
            count,
            origin,
            spacing,
            columns,
            seed,
            g,
        )->Ok_0[i] == laid_out(pattern, count, origin, spacing, columns, 0, g)->Ok_0[i],
{
    patterns_differ();
}

} // verus!
