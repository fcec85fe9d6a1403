//! Where the boxes of a layout pattern go.

use crate::formula::{after_steps, on_ring, ring_place, scatter_place, scattered, stepped};
use crate::numeric::{answers, computes, encoded, Answer, Calc, Real, Vec3};
use crate::text::{cat2, same};
use vstd::prelude::*;

verus! {

/// What a fallible list holds: its items, or the text of its error.
pub open spec fn listed<T>(r: Result<Vec<T>, String>) -> Result<Seq<T>, Seq<char>> {
    match r {
        Ok(v) => Ok(v@),
        Err(e) => Err(e@),
    }
}

pub open spec fn mixed(x: u64) -> u64 {
    let a = x ^ (x >> 30);
    let b = a.wrapping_mul(0xbf58_476d_1ce4_e5b9);
    let c = b ^ (b >> 27);
    c.wrapping_mul(0x94d0_49bb_1331_11eb)
}

/// The 64-bit mix behind `seeded_scatter`.
pub fn hash_u64(x: u64) -> (r: u64)
    ensures
        r == mixed(x),
{
    let a: u64 = x ^ (x >> 30);
    let b: u64 = a.wrapping_mul(0xbf58_476d_1ce4_e5b9);
    let c: u64 = b ^ (b >> 27);
    c.wrapping_mul(0x94d0_49bb_1331_11eb)
}

/// Spacing as it is used: at least five hundredths.
pub open spec fn effective_spacing(spacing: Real) -> Real {
    spacing.greater_of(Real { bits: 0x3d4c_cccd })
}

/// Columns as they are used: at least one.
pub open spec fn effective_columns(columns: u32) -> u32 {
    if columns == 0 {
        1
    } else {
        columns
    }
}

pub open spec fn known_pattern(pattern: Seq<char>) -> bool {
    pattern == "linear"@ || pattern == "grid"@ || pattern == "radial"@ || pattern
        == "seeded_scatter"@
}

/// Where box number `i` of `count` goes.
pub open spec fn place(
    pattern: Seq<char>,
    i: int,
    count: u32,
    origin: Vec3,
    spacing: Real,
    columns: u32,
    seed: u64,
    g: spec_fn(Calc) -> Answer,
) -> Vec3 {
    let s = effective_spacing(spacing);
    let cols = effective_columns(columns) as int;
    if pattern == "linear"@ {
        Vec3 { x: stepped(g, origin.x, i as u64, s), y: origin.y, z: origin.z }
    } else if pattern == "grid"@ {
        Vec3 {
            x: stepped(g, origin.x, (i % cols) as u64, s),
            y: origin.y,
            z: stepped(g, origin.z, (i / cols) as u64, s),
        }
    } else if pattern == "radial"@ {
        ring_place(g, origin, i as u64, count as u64, s)
    } else {
        let h = mixed(seed ^ (i as u64).wrapping_mul(0x9E37_79B9_7F4A_7C15));
        scatter_place(g, origin, h, s)
    }
}

/// All boxes of a pattern, or why there are none.
pub open spec fn laid_out(
    pattern: Seq<char>,
    count: u32,
    origin: Vec3,
    spacing: Real,
    columns: u32,
    seed: u64,
    g: spec_fn(Calc) -> Answer,
) -> Result<Seq<Vec3>, Seq<char>> {
    if count == 0 || count > 128 {
        Err("layout_count"@)
    } else if !known_pattern(pattern) {
        Err("unknown_layout_pattern:"@ + pattern)
    } else {
        Ok(
            Seq::new(
                count as nat,
                |i: int| place(pattern, i, count, origin, spacing, columns, seed, g),
            ),
        )
    }
}

/// The positions of `count` boxes in one of the patterns `linear`, `grid`, `radial` and
/// `seeded_scatter`.
pub fn positions<F: Fn(Calc) -> Answer>(
    pattern: &str,
    count: u32,
    origin: Vec3,
    spacing: Real,
    columns: u32,
    seed: u64,
    calc: &F,
) -> (r: Result<Vec<Vec3>, String>)
    requires
        answers(*calc),
    ensures
        r is Err <==> count == 0 || count > 128 || !known_pattern(pattern@),
        r is Ok ==> r->Ok_0.len() == count,
        forall|g: spec_fn(Calc) -> Answer| #[trigger]
            computes(*calc, g) ==> listed(r) == laid_out(
                pattern@,
                count,
                origin,
                spacing,
                columns,
                seed,
                g,
            ),
{
    if count == 0 || count > 128 {
        return Err("layout_count".to_owned());
    }
    let s = spacing.max(encoded(0x3d4c_cccd));
    let cols: u64 = if columns == 0 {
        1
    } else {
        columns as u64
    };
    let linear = same(pattern, "linear");
    let grid = same(pattern, "grid");
    let radial = same(pattern, "radial");
    if !linear && !grid && !radial && !same(pattern, "seeded_scatter") {
        return Err(cat2("unknown_layout_pattern:", pattern));
    }
    let mut out: Vec<Vec3> = Vec::new();
    let n: u64 = count as u64;
    let mut i: u64 = 0;
    while i < n
        invariant
            i <= n,
            n == count,
            out.len() == i,
            answers(*calc),
            s == effective_spacing(spacing),
            cols == effective_columns(columns),
            cols >= 1,
            linear == (pattern@ == "linear"@),
            grid == (pattern@ == "grid"@),
            radial == (pattern@ == "radial"@),
            forall|g: spec_fn(Calc) -> Answer, k: int|
                #![trigger computes(*calc, g), out@[k]]
                computes(*calc, g) && 0 <= k < i ==> out@[k] == place(
                    pattern@,
                    k,
                    count,
                    origin,
                    spacing,
                    columns,
                    seed,
                    g,
                ),
        decreases n - i,
    {
        let p = if linear {
            Vec3 { x: after_steps(origin.x, i, s, calc), y: origin.y, z: origin.z }
        } else if grid {
            Vec3 {
                x: after_steps(origin.x, i % cols, s, calc),
                y: origin.y,
                z: after_steps(origin.z, i / cols, s, calc),
            }
        } else if radial {
            on_ring(origin, i, n, s, calc)
        } else {
            let h: u64 = hash_u64(seed ^ i.wrapping_mul(0x9E37_79B9_7F4A_7C15));
            scattered(origin, h, s, calc)
        };
        out.push(p);
        i += 1;
    }
    assert forall|g: spec_fn(Calc) -> Answer| #[trigger] computes(*calc, g) implies out@
        == laid_out(pattern@, count, origin, spacing, columns, seed, g)->Ok_0 by {}
    Ok(out)
}

} // verus!
