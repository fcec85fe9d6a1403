//! Where the parts of the live-feed panel are, and how it follows the pointer.

use crate::exact::{differs, exact, sums};
use crate::hud::{
    ctrl_gap, ctrl_size, float_min_h, float_min_w, minus, plus, resize_grip_size, title_bar_h,
    HudHit, HudMode, HudPanel,
};
use crate::numeric::{encoded, one, zero, Answer, Calc, Real};
use crate::worth::{
    choices_are_by_worth, finite, names_say_worth, order_is_by_worth, small_counts_have_worth, unit,
    units,
};
use vstd::prelude::*;

verus! {

/// The edges of a panel's parts are finite numbers.
pub open spec fn edges_are_finite(p: HudPanel, g: spec_fn(Calc) -> Answer) -> bool {
    let a = p.area();
    let f = p.fullscreen_square(g);
    let c = p.collapse_square(g);
    let r = p.grip(g);
    &&& finite(plus(a.0, a.2, g))
    &&& finite(plus(a.1, a.3, g))
    &&& finite(plus(a.1, title_bar_h(), g))
    &&& finite(plus(f.0, f.2, g))
    &&& finite(plus(f.1, f.3, g))
    &&& finite(plus(c.0, c.2, g))
    &&& finite(plus(c.1, c.3, g))
    &&& finite(plus(r.0, r.2, g))
    &&& finite(plus(r.1, r.3, g))
}

/// Left, top, width and height of a panel. A docked one spans the window from its top left corner;
/// a collapsed one is as high as its title bar, which is 28.
pub open spec fn spans(p: HudPanel) -> (int, int, int, int) {
    let (x, y, w, h) = match p.mode {
        HudMode::Fullscreen => (0, 0, units(p.window_w), units(p.window_h)),
        HudMode::Floating => (
            units(p.float_x),
            units(p.float_y),
            units(p.float_w),
            units(p.float_h),
        ),
    };
    if p.collapsed {
        (x, y, w, 28 * unit())
    } else {
        (x, y, w, h)
    }
}

/// What lies under a point of a panel: nothing outside it; at its top right a square of 22 that
/// docks it, 3 down and 4 in, and left of that with the same gap one that collapses it; at the
/// bottom right of an open floating panel a grip of 18; the title bar over the rest of the first
/// 28, and over all of a collapsed panel.
pub open spec fn part_at(p: HudPanel, x: int, y: int) -> HudHit {
    let (left, top, width, height) = spans(p);
    let right = left + width;
    let bottom = top + height;
    let u = unit();
    if x < left || y < top || right <= x || bottom <= y {
        HudHit::Outside
    } else if right - 26 * u <= x < right - 4 * u && top + 3 * u <= y < top + 25 * u {
        HudHit::Fullscreen
    } else if right - 52 * u <= x < right - 30 * u && top + 3 * u <= y < top + 25 * u {
        HudHit::Collapse
    } else if p.mode == HudMode::Floating && !p.collapsed && right - 18 * u <= x && bottom - 18 * u
        <= y {
        HudHit::Resize
    } else if p.collapsed || y < top + 28 * u {
        HudHit::Title
    } else {
        HudHit::Body
    }
}

proof fn sides(a: Real, b: Real, x: Real)
    requires
        finite(a),
        finite(b),
        finite(x),
    ensures
        a.at_most(x) <==> units(a) <= units(x),
        x.less(b) <==> units(x) < units(b),
        x.less(a) <==> units(x) < units(a),
        b.at_most(x) <==> units(b) <= units(x),
{
    order_is_by_worth(a, x);
    order_is_by_worth(x, b);
    order_is_by_worth(x, a);
    order_is_by_worth(b, x);
}

proof fn span_of(r: (Real, Real, Real, Real), px: Real, py: Real, g: spec_fn(Calc) -> Answer)
    requires
        exact(g),
        finite(px),
        finite(py),
        finite(plus(r.0, r.2, g)),
        finite(plus(r.1, r.3, g)),
    ensures
        finite(r.0) && finite(r.1) && finite(r.2) && finite(r.3),
        crate::hud::within(px, py, r, g) <==> units(r.0) <= units(px) < units(r.0) + units(r.2)
            && units(r.1) <= units(py) < units(r.1) + units(r.3),
{
    assert(sums(plus(r.0, r.2, g), r.0, r.2));
    assert(sums(plus(r.1, r.3, g), r.1, r.3));
    sides(r.0, plus(r.0, r.2, g), px);
    sides(r.1, plus(r.1, r.3, g), py);
}

/// A point hits the part of the panel that lies under it.
pub proof fn points_hit_what_lies_under_them(
    p: HudPanel,
    px: Real,
    py: Real,
    g: spec_fn(Calc) -> Answer,
)
    requires
        exact(g),
        finite(px),
        finite(py),
        edges_are_finite(p, g),
    ensures
        p.hit_at(px, py, g) == part_at(p, units(px), units(py)),
{
    names_say_worth();
    small_counts_have_worth();
    let a = p.area();
    let f = p.fullscreen_square(g);
    let c = p.collapse_square(g);
    let r = p.grip(g);
    let right = plus(a.0, a.2, g);
    let bottom = plus(a.1, a.3, g);
    let bar = plus(a.1, title_bar_h(), g);
    span_of(a, px, py, g);
    span_of(f, px, py, g);
    span_of(c, px, py, g);
    span_of(r, px, py, g);
    sides(a.0, right, px);
    sides(a.1, bottom, py);
    assert(sums(right, a.0, a.2) && sums(bottom, a.1, a.3));
    assert(sums(bar, a.1, title_bar_h()));
    order_is_by_worth(py, bar);
    let f1 = minus(right, ctrl_gap(), g);
    assert(differs(f.0, f1, ctrl_size()) && differs(f1, right, ctrl_gap()));
    assert(sums(f.1, a.1, encoded(0x4040_0000)));
    let c1 = minus(f.0, ctrl_gap(), g);
    assert(differs(c.0, c1, ctrl_size()) && differs(c1, f.0, ctrl_gap()));
    assert(differs(r.0, right, resize_grip_size()) && differs(r.1, bottom, resize_grip_size()));
}

/// A dragged panel stands where it was dragged to, as far as its title bar can still be reached:
/// not beyond the left or the upper edge, at least 48 inside the right one and 28 inside the lower
/// one. A docked panel cannot be dragged.
pub proof fn dragged_panel_follows(
    p: HudPanel,
    x: Real,
    y: Real,
    g: spec_fn(Calc) -> Answer,
)
    requires
        exact(g),
        finite(x),
        finite(y),
        finite(minus(p.window_w, encoded(0x4240_0000), g)),
        finite(minus(p.window_h, title_bar_h(), g)),
    ensures
        ({
            let q = p.dragged(x, y, g);
            let u = unit();
            let right = units(p.window_w) - 48 * u;
            let low = units(p.window_h) - 28 * u;
            &&& p.mode == HudMode::Fullscreen ==> q == p
            &&& p.mode == HudMode::Floating ==> {
                &&& q.mode == HudMode::Floating
                &&& q.collapsed == p.collapsed
                &&& q.window_w == p.window_w && q.window_h == p.window_h
                &&& 0 <= units(q.float_x) && (units(q.float_x) <= right || units(q.float_x) == 0)
                &&& 0 <= units(q.float_y) && (units(q.float_y) <= low || units(q.float_y) == 0)
                &&& 0 <= units(x) <= right ==> q.float_x == x
                &&& 0 <= units(y) <= low ==> q.float_y == y
            }
        }),
{
    names_say_worth();
    small_counts_have_worth();
    let rw = minus(p.window_w, encoded(0x4240_0000), g);
    let rh = minus(p.window_h, title_bar_h(), g);
    assert(differs(rw, p.window_w, encoded(0x4240_0000)));
    assert(differs(rh, p.window_h, title_bar_h()));
    choices_are_by_worth(rw, zero(), zero());
    choices_are_by_worth(rh, zero(), zero());
    choices_are_by_worth(x, zero(), rw.greater_of(zero()));
    choices_are_by_worth(y, zero(), rh.greater_of(zero()));
}

/// The lower right corner of a resized panel follows the pointer, but the panel never gets
/// smaller than 160 by 76 nor larger than the window; its upper left corner stays where it can
/// be reached. A docked or a collapsed panel cannot be resized.
pub proof fn resized_panel_follows(
    p: HudPanel,
    x: Real,
    y: Real,
    g: spec_fn(Calc) -> Answer,
)
    requires
        exact(g),
        finite(p.window_w) && finite(p.window_h),
        finite(minus(x, p.float_x, g)),
        finite(minus(y, p.float_y, g)),
    ensures
        ({
            let q = p.resized(x, y, g);
            let u = unit();
            let w = units(x) - units(p.float_x);
            let h = units(y) - units(p.float_y);
            &&& p.mode == HudMode::Fullscreen || p.collapsed ==> q == p
            &&& p.mode == HudMode::Floating && !p.collapsed ==> {
                &&& 160 * u <= units(q.float_w)
                &&& 76 * u <= units(q.float_h)
                &&& 160 * u <= w <= units(p.window_w) ==> units(q.float_w) == w
                &&& 76 * u <= h <= units(p.window_h) ==> units(q.float_h) == h
                &&& units(q.float_w) <= units(p.window_w) || units(q.float_w) == 160 * u
                &&& units(q.float_h) <= units(p.window_h) || units(q.float_h) == 76 * u
                &&& q.mode == HudMode::Floating && !q.collapsed
            }
        }),
{
    names_say_worth();
    small_counts_have_worth();
    let dw = minus(x, p.float_x, g);
    let dh = minus(y, p.float_y, g);
    assert(differs(dw, x, p.float_x) && differs(dh, y, p.float_y));
    choices_are_by_worth(dw, one(), one());
    choices_are_by_worth(dh, one(), one());
    choices_are_by_worth(p.window_w, float_min_w(), zero());
    choices_are_by_worth(p.window_h, float_min_h(), zero());
    choices_are_by_worth(
        dw.greater_of(one()),
        float_min_w(),
        p.window_w.greater_of(float_min_w()),
    );
    choices_are_by_worth(
        dh.greater_of(one()),
        float_min_h(),
        p.window_h.greater_of(float_min_h()),
    );
}

/// A panel that is pulled off its dock floats with its title bar under the pointer, unless that
/// is out of reach.
pub proof fn undocked_panel_follows(p: HudPanel, x: Real, y: Real, g: spec_fn(Calc) -> Answer)
    requires
        exact(g),
        p.mode == HudMode::Fullscreen,
        finite(x),
        finite(y),
        finite(p.float_w) && finite(p.window_w) && finite(p.window_h),
        finite(minus(p.float_w, encoded(0x4260_0000), g)),
        finite(minus(p.window_w, encoded(0x4240_0000), g)),
        finite(minus(p.window_h, title_bar_h(), g)),
        finite(minus(y, encoded(0x4160_0000), g)),
        finite(
            minus(
                x,
                x.held_within(
                    encoded(0x4140_0000),
                    minus(p.float_w, encoded(0x4260_0000), g).greater_of(encoded(0x4140_0000)),
                ),
                g,
            ),
        ),
    ensures
        ({
            let q = p.undocked(x, y, g);
            let u = unit();
            let inner = units(p.float_w) - units(Real { bits: 0x4260_0000 });
            let low = units(p.window_h) - 28 * u;
            let right = units(p.window_w) - 48 * u;
            &&& q.mode == HudMode::Floating
            &&& q.collapsed == p.collapsed
            &&& 0 <= units(q.float_x) && 0 <= units(q.float_y)
            &&& 0 <= right && units(Real { bits: 0x4140_0000 }) <= units(x) <= inner ==> units(
                q.float_x,
            ) == 0
            &&& units(Real { bits: 0x4140_0000 }) <= inner < units(x) && units(x) - inner <= right
                ==> units(x) - units(q.float_x) == inner
            &&& units(Real { bits: 0x4160_0000 }) <= units(y) <= low ==> units(y) - units(
                q.float_y,
            ) == units(Real { bits: 0x4160_0000 })
        }),
{
    names_say_worth();
    small_counts_have_worth();
    let lead = encoded(0x4140_0000);
    let rest = minus(p.float_w, encoded(0x4260_0000), g);
    let most = rest.greater_of(lead);
    let inset = x.held_within(lead, most);
    assert(differs(rest, p.float_w, encoded(0x4260_0000)));
    choices_are_by_worth(rest, lead, lead);
    choices_are_by_worth(x, lead, most);
    let fx = minus(x, inset, g);
    let fy = minus(y, encoded(0x4160_0000), g);
    assert(differs(fx, x, inset) && differs(fy, y, encoded(0x4160_0000)));
    choices_are_by_worth(fy, zero(), zero());
    let rw = minus(p.window_w, encoded(0x4240_0000), g);
    let rh = minus(p.window_h, title_bar_h(), g);
    assert(differs(rw, p.window_w, encoded(0x4240_0000)));
    assert(differs(rh, p.window_h, title_bar_h()));
    choices_are_by_worth(rw, zero(), zero());
    choices_are_by_worth(rh, zero(), zero());
    choices_are_by_worth(fx, zero(), rw.greater_of(zero()));
    choices_are_by_worth(fy.greater_of(zero()), zero(), rh.greater_of(zero()));
    order_is_by_worth(zero(), encoded(0x4160_0000));
}

} // verus!
