//! The live-feed panel: where it stands in the window, and what of it a point hits.
//!
//! It starts as a title bar, so that the scene stays visible. It can be expanded to fill the
//! window, or undocked into a floating panel.

use crate::numeric::{answers, computes, encoded, one, zero, Answer, Calc, Real};
use vstd::prelude::*;

verus! {

/// Height of the title bar in physical pixels: 28.
#[verifier::allow_in_spec]
pub fn title_bar_h() -> Real
    returns
        encoded(0x41e0_0000),
{
    encoded(0x41e0_0000)
}

/// Side of a square control in physical pixels: 22.
#[verifier::allow_in_spec]
pub fn ctrl_size() -> Real
    returns
        encoded(0x41b0_0000),
{
    encoded(0x41b0_0000)
}

/// Space around a control: 4.
#[verifier::allow_in_spec]
pub fn ctrl_gap() -> Real
    returns
        encoded(0x4080_0000),
{
    encoded(0x4080_0000)
}

/// Width of a floating panel unless resized: 520.
#[verifier::allow_in_spec]
pub fn float_default_w() -> Real
    returns
        encoded(0x4402_0000),
{
    encoded(0x4402_0000)
}

/// Height of a floating panel unless resized: 320.
#[verifier::allow_in_spec]
pub fn float_default_h() -> Real
    returns
        encoded(0x43a0_0000),
{
    encoded(0x43a0_0000)
}

/// Side of the grip at the bottom right of a floating panel: 18.
#[verifier::allow_in_spec]
pub fn resize_grip_size() -> Real
    returns
        encoded(0x4190_0000),
{
    encoded(0x4190_0000)
}

/// Least width of a floating panel: 160.
#[verifier::allow_in_spec]
pub fn float_min_w() -> Real
    returns
        encoded(0x4320_0000),
{
    encoded(0x4320_0000)
}

/// Least height of a floating panel: its title bar and 48 more.
#[verifier::allow_in_spec]
pub fn float_min_h() -> Real
    returns
        encoded(0x4298_0000),
{
    encoded(0x4298_0000)
}

#[derive(Clone, Copy, Debug, PartialEq, Eq, Structural)]
pub enum HudMode {
    Fullscreen,
    Floating,
}

#[derive(Clone, Copy, Debug, PartialEq, Eq, Structural)]
pub enum HudHit {
    Title,
    Body,
    Collapse,
    Fullscreen,
    Resize,
    Outside,
}

#[derive(Clone, Copy, Debug, PartialEq, Eq, Structural)]
pub struct HudPanel {
    pub mode: HudMode,
    pub collapsed: bool,
    pub window_w: Real,
    pub window_h: Real,
    pub float_x: Real,
    pub float_y: Real,
    pub float_w: Real,
    pub float_h: Real,
}

pub open spec fn plus(a: Real, b: Real, g: spec_fn(Calc) -> Answer) -> Real {
    g(Calc::Add(a, b)).value
}

pub open spec fn minus(a: Real, b: Real, g: spec_fn(Calc) -> Answer) -> Real {
    g(Calc::Subtract(a, b)).value
}

/// A point lies in a rectangle of left, top, width and height.
pub open spec fn within(
    px: Real,
    py: Real,
    r: (Real, Real, Real, Real),
    g: spec_fn(Calc) -> Answer,
) -> bool {
    r.0.at_most(px) && r.1.at_most(py) && px.less(plus(r.0, r.2, g)) && py.less(plus(r.1, r.3, g))
}

impl HudPanel {
    /// Left, top, width and height in physical pixels.
    pub open spec fn area(self) -> (Real, Real, Real, Real) {
        match self.mode {
            HudMode::Fullscreen => (
                zero(),
                zero(),
                self.window_w,
                if self.collapsed {
                    title_bar_h()
                } else {
                    self.window_h
                },
            ),
            HudMode::Floating => (
                self.float_x,
                self.float_y,
                self.float_w,
                if self.collapsed {
                    title_bar_h()
                } else {
                    self.float_h
                },
            ),
        }
    }

    /// The square of the fullscreen control.
    pub open spec fn fullscreen_square(self, g: spec_fn(Calc) -> Answer) -> (
        Real,
        Real,
        Real,
        Real,
    ) {
        let a = self.area();
        (
            minus(minus(plus(a.0, a.2, g), ctrl_gap(), g), ctrl_size(), g),
            plus(a.1, encoded(0x4040_0000), g),
            ctrl_size(),
            ctrl_size(),
        )
    }

    /// The square of the collapse control, left of the other one.
    pub open spec fn collapse_square(self, g: spec_fn(Calc) -> Answer) -> (Real, Real, Real, Real) {
        let f = self.fullscreen_square(g);
        (minus(minus(f.0, ctrl_gap(), g), ctrl_size(), g), f.1, ctrl_size(), ctrl_size())
    }

    /// The square of the resize grip.
    pub open spec fn grip(self, g: spec_fn(Calc) -> Answer) -> (Real, Real, Real, Real) {
        let a = self.area();
        (
            minus(plus(a.0, a.2, g), resize_grip_size(), g),
            minus(plus(a.1, a.3, g), resize_grip_size(), g),
            resize_grip_size(),
            resize_grip_size(),
        )
    }

    pub open spec fn outside(self, px: Real, py: Real, g: spec_fn(Calc) -> Answer) -> bool {
        let a = self.area();
        px.less(a.0) || py.less(a.1) || plus(a.0, a.2, g).at_most(px) || plus(a.1, a.3, g).at_most(
            py,
        )
    }

    /// What a point hits: a control before the grip, the grip before the title bar.
    pub open spec fn hit_at(self, px: Real, py: Real, g: spec_fn(Calc) -> Answer) -> HudHit {
        if self.outside(px, py, g) {
            HudHit::Outside
        } else if within(px, py, self.fullscreen_square(g), g) {
            HudHit::Fullscreen
        } else if within(px, py, self.collapse_square(g), g) {
            HudHit::Collapse
        } else if self.mode == HudMode::Floating && !self.collapsed && within(
            px,
            py,
            self.grip(g),
            g,
        ) {
            HudHit::Resize
        } else if py.less(plus(self.area().1, title_bar_h(), g)) || self.collapsed {
            HudHit::Title
        } else {
            HudHit::Body
        }
    }

    /// The panel with its floating rectangle moved and sized so that it can be reached.
    pub open spec fn held(self, g: spec_fn(Calc) -> Answer) -> HudPanel {
        HudPanel {
            float_w: self.float_w.held_within(
                float_min_w(),
                self.window_w.greater_of(float_min_w()),
            ),
            float_h: self.float_h.held_within(
                float_min_h(),
                self.window_h.greater_of(float_min_h()),
            ),
            float_x: self.float_x.held_within(zero(), self.right_bound(g)),
            float_y: self.float_y.held_within(zero(), self.lower_bound(g)),
            ..self
        }
    }

    /// The farthest right that a floating panel starts.
    pub open spec fn right_bound(self, g: spec_fn(Calc) -> Answer) -> Real {
        minus(self.window_w, encoded(0x4240_0000), g).greater_of(zero())
    }

    /// The farthest down that a floating panel starts.
    pub open spec fn lower_bound(self, g: spec_fn(Calc) -> Answer) -> Real {
        minus(self.window_h, title_bar_h(), g).greater_of(zero())
    }

    pub open spec fn windowed(self, w: Real, h: Real, g: spec_fn(Calc) -> Answer) -> HudPanel {
        HudPanel { window_w: w.greater_of(one()), window_h: h.greater_of(one()), ..self }.held(g)
    }

    /// The panel off its dock, its title bar under the cursor.
    pub open spec fn undocked(self, x: Real, y: Real, g: spec_fn(Calc) -> Answer) -> HudPanel {
        if self.mode == HudMode::Floating {
            self
        } else {
            let inset = x.held_within(
                encoded(0x4140_0000),
                minus(self.float_w, encoded(0x4260_0000), g).greater_of(encoded(0x4140_0000)),
            );
            HudPanel {
                mode: HudMode::Floating,
                float_x: minus(x, inset, g),
                float_y: minus(y, encoded(0x4160_0000), g).greater_of(zero()),
                ..self
            }.held(g)
        }
    }

    pub open spec fn dragged(self, x: Real, y: Real, g: spec_fn(Calc) -> Answer) -> HudPanel {
        if self.mode == HudMode::Floating {
            HudPanel { float_x: x, float_y: y, ..self }.held(g)
        } else {
            self
        }
    }

    /// The panel with its bottom right corner under the cursor.
    pub open spec fn resized(self, x: Real, y: Real, g: spec_fn(Calc) -> Answer) -> HudPanel {
        if self.mode != HudMode::Floating || self.collapsed {
            self
        } else {
            HudPanel {
                float_w: minus(x, self.float_x, g).greater_of(one()),
                float_h: minus(y, self.float_y, g).greater_of(one()),
                ..self
            }.held(g)
        }
    }

    pub fn new(window_w: Real, window_h: Real) -> (r: Self)
        ensures
            r == (HudPanel {
                mode: HudMode::Fullscreen,
                collapsed: true,
                window_w: window_w.greater_of(one()),
                window_h: window_h.greater_of(one()),
                float_x: encoded(0x4140_0000),
                float_y: encoded(0x4140_0000),
                float_w: float_default_w().smaller_of(window_w.greater_of(one())).greater_of(
                    float_min_w(),
                ),
                float_h: float_default_h().smaller_of(window_h.greater_of(one())).greater_of(
                    float_min_h(),
                ),
            }),
    {
        let ww = window_w.max(one());
        let wh = window_h.max(one());
        HudPanel {
            mode: HudMode::Fullscreen,
            collapsed: true,
            window_w: ww,
            window_h: wh,
            float_x: encoded(0x4140_0000),
            float_y: encoded(0x4140_0000),
            float_w: float_default_w().min(ww).max(float_min_w()),
            float_h: float_default_h().min(wh).max(float_min_h()),
        }
    }

    pub fn title_height(&self) -> (r: Real)
        ensures
            r == title_bar_h(),
    {
        title_bar_h()
    }

    pub fn rect(&self) -> (r: (Real, Real, Real, Real))
        ensures
            r == self.area(),
    {
        match self.mode {
            HudMode::Fullscreen => {
                let h = if self.collapsed {
                    title_bar_h()
                } else {
                    self.window_h
                };
                (zero(), zero(), self.window_w, h)
            },
            HudMode::Floating => {
                let h = if self.collapsed {
                    title_bar_h()
                } else {
                    self.float_h
                };
                (self.float_x, self.float_y, self.float_w, h)
            },
        }
    }

    /// The size of the panel in whole pixels, at least one each way.
    pub fn pixel_size<F: Fn(Calc) -> Answer>(&self, calc: &F) -> (r: (u32, u32))
        requires
            answers(*calc),
        ensures
            forall|g: spec_fn(Calc) -> Answer| #[trigger]
                computes(*calc, g) ==> r == (
                    g(Calc::Round(self.area().2.greater_of(one()))).count,
                    g(Calc::Round(self.area().3.greater_of(one()))).count,
                ),
    {
        let (_, _, w, h) = self.rect();
        let a: u32 = calc(Calc::Round(w.max(one()))).count;
        let b: u32 = calc(Calc::Round(h.max(one()))).count;
        (a, b)
    }

    pub fn set_window_size<F: Fn(Calc) -> Answer>(&mut self, w: Real, h: Real, calc: &F)
        requires
            answers(*calc),
        ensures
            forall|g: spec_fn(Calc) -> Answer| #[trigger]
                computes(*calc, g) ==> *final(self) == old(self).windowed(w, h, g),
    {
        self.window_w = w.max(one());
        self.window_h = h.max(one());
        self.clamp_float(calc);
    }

    pub fn hit<F: Fn(Calc) -> Answer>(&self, px: Real, py: Real, calc: &F) -> (r: HudHit)
        requires
            answers(*calc),
        ensures
            forall|g: spec_fn(Calc) -> Answer| #[trigger]
                computes(*calc, g) ==> r == self.hit_at(px, py, g),
    {
        let (x, y, w, h) = self.rect();
        let right = calc(Calc::Add(x, w)).value;
        let below = calc(Calc::Add(y, h)).value;
        if px.lt(x) || py.lt(y) || right.le(px) || below.le(py) {
            return HudHit::Outside;
        }
        let (col, fs) = self.control_rects(calc);
        if point_in(px, py, fs, calc) {
            return HudHit::Fullscreen;
        }
        if point_in(px, py, col, calc) {
            return HudHit::Collapse;
        }
        if self.mode == HudMode::Floating && !self.collapsed {
            let grip = self.resize_grip(calc);
            if point_in(px, py, grip, calc) {
                return HudHit::Resize;
            }
        }
        if py.lt(calc(Calc::Add(y, title_bar_h())).value) || self.collapsed {
            HudHit::Title
        } else {
            HudHit::Body
        }
    }

    pub fn toggle_collapse(&mut self)
        ensures
            *final(self) == (HudPanel { collapsed: !old(self).collapsed, ..*old(self) }),
    {
        self.collapsed = !self.collapsed;
    }

    /// Leaves fullscreen for a floating panel whose title bar is under the cursor.
    pub fn undock_and_drag<F: Fn(Calc) -> Answer>(&mut self, x: Real, y: Real, calc: &F)
        requires
            answers(*calc),
        ensures
            forall|g: spec_fn(Calc) -> Answer| #[trigger]
                computes(*calc, g) ==> *final(self) == old(self).undocked(x, y, g),
    {
        if self.mode != HudMode::Fullscreen {
            return;
        }
        self.mode = HudMode::Floating;
        let room = calc(Calc::Subtract(self.float_w, encoded(0x4260_0000))).value;
        let inset = x.clamp(encoded(0x4140_0000), room.max(encoded(0x4140_0000)));
        self.float_x = calc(Calc::Subtract(x, inset)).value;
        self.float_y = calc(Calc::Subtract(y, encoded(0x4160_0000))).value.max(zero());
        self.clamp_float(calc);
    }

    pub fn restore_fullscreen(&mut self)
        ensures
            *final(self) == (HudPanel {
                mode: HudMode::Fullscreen,
                collapsed: false,
                ..*old(self)
            }),
    {
        self.mode = HudMode::Fullscreen;
        self.collapsed = false;
    }

    pub fn drag_to<F: Fn(Calc) -> Answer>(&mut self, x: Real, y: Real, calc: &F)
        requires
            answers(*calc),
        ensures
            forall|g: spec_fn(Calc) -> Answer| #[trigger]
                computes(*calc, g) ==> *final(self) == old(self).dragged(x, y, g),
    {
        if self.mode == HudMode::Floating {
            self.float_x = x;
            self.float_y = y;
            self.clamp_float(calc);
        }
    }

    pub fn resize_grip<F: Fn(Calc) -> Answer>(&self, calc: &F) -> (r: (Real, Real, Real, Real))
        requires
            answers(*calc),
        ensures
            forall|g: spec_fn(Calc) -> Answer| #[trigger]
                computes(*calc, g) ==> r == self.grip(g),
    {
        let (x, y, w, h) = self.rect();
        let right = calc(Calc::Add(x, w)).value;
        let below = calc(Calc::Add(y, h)).value;
        (
            calc(Calc::Subtract(right, resize_grip_size())).value,
            calc(Calc::Subtract(below, resize_grip_size())).value,
            resize_grip_size(),
            resize_grip_size(),
        )
    }

    /// The bottom right corner of a floating panel follows the cursor.
    pub fn resize_to<F: Fn(Calc) -> Answer>(&mut self, x: Real, y: Real, calc: &F)
        requires
            answers(*calc),
        ensures
            forall|g: spec_fn(Calc) -> Answer| #[trigger]
                computes(*calc, g) ==> *final(self) == old(self).resized(x, y, g),
    {
        if self.mode != HudMode::Floating || self.collapsed {
            return;
        }
        self.float_w = calc(Calc::Subtract(x, self.float_x)).value.max(one());
        self.float_h = calc(Calc::Subtract(y, self.float_y)).value.max(one());
        self.clamp_float(calc);
    }

    /// The squares of the collapse and the fullscreen control.
    fn control_rects<F: Fn(Calc) -> Answer>(&self, calc: &F) -> (r: (
        (Real, Real, Real, Real),
        (Real, Real, Real, Real),
    ))
        requires
            answers(*calc),
        ensures
            forall|g: spec_fn(Calc) -> Answer| #[trigger]
                computes(*calc, g) ==> r == (self.collapse_square(g), self.fullscreen_square(g)),
    {
        let (x, y, w, _) = self.rect();
        let cy = calc(Calc::Add(y, encoded(0x4040_0000))).value;
        let right = calc(Calc::Add(x, w)).value;
        let fs_end = calc(Calc::Subtract(right, ctrl_gap())).value;
        let fs_x = calc(Calc::Subtract(fs_end, ctrl_size())).value;
        let col_end = calc(Calc::Subtract(fs_x, ctrl_gap())).value;
        let col_x = calc(Calc::Subtract(col_end, ctrl_size())).value;
        ((col_x, cy, ctrl_size(), ctrl_size()), (fs_x, cy, ctrl_size(), ctrl_size()))
    }

    fn clamp_float<F: Fn(Calc) -> Answer>(&mut self, calc: &F)
        requires
            answers(*calc),
        ensures
            forall|g: spec_fn(Calc) -> Answer| #[trigger]
                computes(*calc, g) ==> *final(self) == old(self).held(g),
    {
        self.float_w = self.float_w.clamp(float_min_w(), self.window_w.max(float_min_w()));
        self.float_h = self.float_h.clamp(float_min_h(), self.window_h.max(float_min_h()));
        let max_x = calc(Calc::Subtract(self.window_w, encoded(0x4240_0000))).value.max(zero());
        let max_y = calc(Calc::Subtract(self.window_h, title_bar_h())).value.max(zero());
        self.float_x = self.float_x.clamp(zero(), max_x);
        self.float_y = self.float_y.clamp(zero(), max_y);
    }
}

fn point_in<F: Fn(Calc) -> Answer>(
    px: Real,
    py: Real,
    r: (Real, Real, Real, Real),
    calc: &F,
) -> (b: bool)
    requires
        answers(*calc),
    ensures
        forall|g: spec_fn(Calc) -> Answer| #[trigger]
            computes(*calc, g) ==> b == within(px, py, r, g),
{
    r.0.le(px) && r.1.le(py) && px.lt(calc(Calc::Add(r.0, r.2)).value) && py.lt(
        calc(Calc::Add(r.1, r.3)).value,
    )
}

/// A floating panel that was moved, sized or refitted to its window is neither too small nor
/// larger than the window, and starts inside it, unless it was given no number.
pub proof fn floating_panel_stays_reachable(p: HudPanel, g: spec_fn(Calc) -> Answer)
    requires
        !p.float_x.is_nan(),
        !p.float_y.is_nan(),
        !p.float_w.is_nan(),
        !p.float_h.is_nan(),
    ensures
        zero().at_most(p.held(g).float_x) && p.held(g).float_x.at_most(p.right_bound(g)),
        zero().at_most(p.held(g).float_y) && p.held(g).float_y.at_most(p.lower_bound(g)),
        float_min_w().at_most(p.held(g).float_w) && p.held(g).float_w.at_most(
            p.window_w.greater_of(float_min_w()),
        ),
        float_min_h().at_most(p.held(g).float_h) && p.held(g).float_h.at_most(
            p.window_h.greater_of(float_min_h()),
        ),
        p.held(g).held(g) == p.held(g),
{
}

/// A collapsed panel is a title bar: no point hits its body or its grip.
pub proof fn collapsed_panel_is_a_title_bar(
    p: HudPanel,
    px: Real,
    py: Real,
    g: spec_fn(Calc) -> Answer,
)
    requires
        p.collapsed,
    ensures
        p.hit_at(px, py, g) != HudHit::Body,
        p.hit_at(px, py, g) != HudHit::Resize,
        p.area().3 == title_bar_h(),
{
}

/// Only a floating panel has a grip, and only what lies outside hits nothing.
pub proof fn only_a_floating_panel_is_resized(
    p: HudPanel,
    px: Real,
    py: Real,
    g: spec_fn(Calc) -> Answer,
)
    ensures
        p.hit_at(px, py, g) == HudHit::Resize ==> p.mode == HudMode::Floating && !p.collapsed,
        p.hit_at(px, py, g) == HudHit::Outside <==> p.outside(px, py, g),
        p.mode == HudMode::Fullscreen ==> p.resized(px, py, g) == p && p.dragged(px, py, g) == p,
{
}

/// Undocking floats a panel and keeps it open or closed as it was, and restoring it gives the
/// whole window back.
pub proof fn undocking_can_be_undone(p: HudPanel, x: Real, y: Real, g: spec_fn(Calc) -> Answer)
    ensures
        p.undocked(x, y, g).mode == HudMode::Floating,
        p.undocked(x, y, g).collapsed == p.collapsed,
        (HudPanel {
            mode: HudMode::Fullscreen,
            collapsed: false,
            ..p.undocked(x, y, g)
        }).area() == (zero(), zero(), p.window_w, p.window_h),
{
}

} // verus!
