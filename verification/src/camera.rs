//! Two cameras, one window: the authored one for proof, the review one for a human to fly.

use crate::formula::{back_off, retreat};
use crate::numeric::{answers, computes, encoded, one, zero, Answer, Calc, Mat4, Real, Vec3};
use vstd::prelude::*;

verus! {

#[derive(Clone, Copy, Debug, PartialEq, Eq, Structural)]
pub enum ViewMode {
    Authored,
    Review,
}

#[derive(Clone, Copy, Debug, PartialEq, Eq, Structural)]
pub struct LookAt {
    pub eye: Vec3,
    pub target: Vec3,
    pub up: Vec3,
    pub fov_y_deg: Real,
    pub near: Real,
    pub far: Real,
}

/// Width over height of the default window.
#[verifier::allow_in_spec]
pub fn default_aspect() -> Real
    returns
        encoded(0x3fc0_0000),
{
    encoded(0x3fc0_0000)
}

/// The fixed look that evidence and queries use.
#[verifier::allow_in_spec]
pub fn authored_look() -> LookAt
    returns
        (LookAt {
            eye: Vec3 {
                x: encoded(0x3eb3_3333),
                y: encoded(0x3fe0_0000),
                z: encoded(0x40f9_999a),
            },
            target: Vec3 { x: zero(), y: encoded(0x3f0c_cccd), z: zero() },
            up: Vec3 { x: zero(), y: one(), z: zero() },
            fov_y_deg: encoded(0x4234_0000),
            near: encoded(0x3dcc_cccd),
            far: encoded(0x42c8_0000),
        }),
{
    LookAt {
        eye: Vec3 { x: encoded(0x3eb3_3333), y: encoded(0x3fe0_0000), z: encoded(0x40f9_999a) },
        target: Vec3 { x: zero(), y: encoded(0x3f0c_cccd), z: zero() },
        up: Vec3 { x: zero(), y: one(), z: zero() },
        fov_y_deg: encoded(0x4234_0000),
        near: encoded(0x3dcc_cccd),
        far: encoded(0x42c8_0000),
    }
}

impl LookAt {
    pub fn authored_default() -> (r: Self)
        ensures
            r == authored_look(),
    {
        authored_look()
    }

    pub open spec fn view(self, g: spec_fn(Calc) -> Answer) -> Mat4 {
        g(Calc::View(self.eye, self.target, self.up)).matrix
    }

    /// An aspect ratio below a hundredth counts as one.
    pub open spec fn projection(self, aspect: Real, g: spec_fn(Calc) -> Answer) -> Mat4 {
        g(
            Calc::Perspective(
                g(Calc::Radians(self.fov_y_deg)).value,
                aspect.greater_of(encoded(0x3c23_d70a)),
                self.near,
                self.far,
            ),
        ).matrix
    }

    pub open spec fn view_projection(self, aspect: Real, g: spec_fn(Calc) -> Answer) -> Mat4 {
        g(Calc::Product(self.projection(aspect, g), self.view(g))).matrix
    }

    pub fn view_matrix<F: Fn(Calc) -> Answer>(&self, calc: &F) -> (r: Mat4)
        requires
            answers(*calc),
        ensures
            forall|g: spec_fn(Calc) -> Answer| #[trigger] computes(*calc, g) ==> r == self.view(g),
    {
        calc(Calc::View(self.eye, self.target, self.up)).matrix
    }

    pub fn proj_matrix<F: Fn(Calc) -> Answer>(&self, aspect: Real, calc: &F) -> (r: Mat4)
        requires
            answers(*calc),
        ensures
            forall|g: spec_fn(Calc) -> Answer| #[trigger]
                computes(*calc, g) ==> r == self.projection(aspect, g),
    {
        let fov = calc(Calc::Radians(self.fov_y_deg)).value;
        calc(
            Calc::Perspective(fov, aspect.max(encoded(0x3c23_d70a)), self.near, self.far),
        ).matrix
    }

    pub fn view_proj_matrix<F: Fn(Calc) -> Answer>(&self, aspect: Real, calc: &F) -> (r: Mat4)
        requires
            answers(*calc),
        ensures
            forall|g: spec_fn(Calc) -> Answer| #[trigger]
                computes(*calc, g) ==> r == self.view_projection(aspect, g),
    {
        let projection = self.proj_matrix(aspect, calc);
        let view = self.view_matrix(calc);
        calc(Calc::Product(projection, view)).matrix
    }
}

/// The view that evidence and queries share. It is always the authored one, whatever the
/// window follows.
pub fn view_matrix<F: Fn(Calc) -> Answer>(calc: &F) -> (r: Mat4)
    requires
        answers(*calc),
    ensures
        forall|g: spec_fn(Calc) -> Answer| #[trigger]
            computes(*calc, g) ==> r == authored_look().view(g),
{
    authored_look().view_matrix(calc)
}

/// The perspective that evidence and queries share.
pub fn proj_matrix<F: Fn(Calc) -> Answer>(aspect: Real, calc: &F) -> (r: Mat4)
    requires
        answers(*calc),
    ensures
        forall|g: spec_fn(Calc) -> Answer| #[trigger]
            computes(*calc, g) ==> r == authored_look().projection(aspect, g),
{
    authored_look().proj_matrix(aspect, calc)
}

/// View and perspective that evidence and queries share.
pub fn view_proj_matrix<F: Fn(Calc) -> Answer>(aspect: Real, calc: &F) -> (r: Mat4)
    requires
        answers(*calc),
    ensures
        forall|g: spec_fn(Calc) -> Answer| #[trigger]
            computes(*calc, g) ==> r == authored_look().view_projection(aspect, g),
{
    authored_look().view_proj_matrix(aspect, calc)
}

/// Right, up and forward of a look.
pub open spec fn basis_of(look: LookAt, g: spec_fn(Calc) -> Answer) -> (Vec3, Vec3, Vec3) {
    let forward = g(Calc::Unit(g(Calc::Gap(look.target, look.eye)).point)).point;
    let right = g(Calc::Unit(g(Calc::Cross(forward, look.up)).point)).point;
    let up = g(Calc::Unit(g(Calc::Cross(right, forward)).point)).point;
    (right, up, forward)
}

/// Right, up and forward of the authored camera.
pub fn camera_basis<F: Fn(Calc) -> Answer>(calc: &F) -> (r: (Vec3, Vec3, Vec3))
    requires
        answers(*calc),
    ensures
        forall|g: spec_fn(Calc) -> Answer| #[trigger]
            computes(*calc, g) ==> r == basis_of(authored_look(), g),
{
    let look = authored_look();
    let way = calc(Calc::Gap(look.target, look.eye)).point;
    let forward = calc(Calc::Unit(way)).point;
    let side = calc(Calc::Cross(forward, look.up)).point;
    let right = calc(Calc::Unit(side)).point;
    let top = calc(Calc::Cross(right, forward)).point;
    let up = calc(Calc::Unit(top)).point;
    (right, up, forward)
}

#[derive(Clone, Copy, Debug, PartialEq, Eq, Structural)]
pub struct ViewportCameras {
    pub authored: LookAt,
    pub review: LookAt,
    pub mode: ViewMode,
}

impl ViewportCameras {
    pub fn new() -> (r: Self)
        ensures
            r == (ViewportCameras {
                authored: authored_look(),
                review: authored_look(),
                mode: ViewMode::Authored,
            }),
    {
        ViewportCameras {
            authored: authored_look(),
            review: authored_look(),
            mode: ViewMode::Authored,
        }
    }

    pub open spec fn active_look(self) -> LookAt {
        match self.mode {
            ViewMode::Authored => self.authored,
            ViewMode::Review => self.review,
        }
    }

    pub open spec fn mode_name(self) -> Seq<char> {
        match self.mode {
            ViewMode::Authored => "authored"@,
            ViewMode::Review => "review"@,
        }
    }

    /// The camera that the window follows.
    pub fn active(&self) -> (r: &LookAt)
        ensures
            *r == self.active_look(),
    {
        match self.mode {
            ViewMode::Authored => &self.authored,
            ViewMode::Review => &self.review,
        }
    }

    pub fn effective_name(&self) -> (r: &'static str)
        ensures
            r@ == self.mode_name(),
    {
        match self.mode {
            ViewMode::Authored => "authored",
            ViewMode::Review => "review",
        }
    }
}

impl Default for ViewportCameras {
    fn default() -> (r: Self)
        ensures
            r == (ViewportCameras {
                authored: authored_look(),
                review: authored_look(),
                mode: ViewMode::Authored,
            }),
    {
        ViewportCameras::new()
    }
}

/// View and perspective of the window, which follows the mode.
pub fn window_view_proj_matrix<F: Fn(Calc) -> Answer>(
    cameras: &ViewportCameras,
    aspect: Real,
    calc: &F,
) -> (r: Mat4)
    requires
        answers(*calc),
    ensures
        forall|g: spec_fn(Calc) -> Answer| #[trigger]
            computes(*calc, g) ==> r == cameras.active_look().view_projection(aspect, g),
{
    cameras.active().view_proj_matrix(aspect, calc)
}

/// The cameras once the authored one has backed off so that a sphere fits its view.
pub open spec fn framed(
    c: ViewportCameras,
    center: Vec3,
    radius: Real,
    g: spec_fn(Calc) -> Answer,
) -> ViewportCameras {
    ViewportCameras {
        authored: LookAt {
            target: center,
            eye: retreat(
                g,
                c.authored.eye,
                c.authored.target,
                c.authored.fov_y_deg,
                center,
                radius,
            ),
            ..c.authored
        },
        ..c
    }
}

/// Pulls the authored camera back so that a sphere fits its field of view. The review camera
/// and the mode stay.
pub fn frame_authored<F: Fn(Calc) -> Answer>(
    cameras: &mut ViewportCameras,
    center: Vec3,
    radius: Real,
    calc: &F,
)
    requires
        answers(*calc),
    ensures
        final(cameras).review == old(cameras).review,
        final(cameras).mode == old(cameras).mode,
        forall|g: spec_fn(Calc) -> Answer| #[trigger]
            computes(*calc, g) ==> *final(cameras) == framed(*old(cameras), center, radius, g),
{
    let eye = back_off(
        cameras.authored.eye,
        cameras.authored.target,
        cameras.authored.fov_y_deg,
        center,
        radius,
        calc,
    );
    cameras.authored.target = center;
    cameras.authored.eye = eye;
}

} // verus!
