//! Single-precision numbers as bit patterns, and the arithmetic that callers supply.
//!
//! The library stores every coordinate, colour channel and socket value as the 32 bits of
//! its IEEE 754 encoding. Order, sign and magnitude are decided on those bits. Arithmetic
//! is handed in by the caller as a function from [`Calc`] to [`Answer`]; a contract that
//! depends on it speaks of any mathematical function that the given one computes.

use vstd::prelude::*;

verus! {

/// The bits of one single-precision number.
#[derive(Clone, Copy, Debug, PartialEq, Eq, Structural)]
pub struct Real {
    pub bits: u32,
}

#[derive(Clone, Copy, Debug, PartialEq, Eq, Structural)]
pub struct Vec3 {
    pub x: Real,
    pub y: Real,
    pub z: Real,
}

/// Quaternion in x, y, z, w order, or four numbers that belong together.
#[derive(Clone, Copy, Debug, PartialEq, Eq, Structural)]
pub struct Quat {
    pub x: Real,
    pub y: Real,
    pub z: Real,
    pub w: Real,
}

/// Red, green, blue and alpha, each nominally between 0 and 1.
#[derive(Clone, Copy, Debug, PartialEq, Eq, Structural)]
pub struct Rgba {
    pub r: Real,
    pub g: Real,
    pub b: Real,
    pub a: Real,
}

/// Four columns of a 4x4 matrix.
#[derive(Clone, Copy, Debug, PartialEq, Eq, Structural)]
pub struct Mat4 {
    pub c0: Quat,
    pub c1: Quat,
    pub c2: Quat,
    pub c3: Quat,
}

/// Translation, rotation and scale of one entity relative to its parent.
#[derive(Clone, Copy, Debug, PartialEq, Eq, Structural)]
pub struct Transform {
    pub translation: Vec3,
    pub rotation: Quat,
    pub scale: Vec3,
}

/// The number with the given encoding.
#[verifier::allow_in_spec]
pub fn encoded(bits: u32) -> Real
    returns
        (Real { bits }),
{
    Real { bits }
}

#[verifier::allow_in_spec]
pub fn zero() -> Real
    returns
        (Real { bits: 0 }),
{
    Real { bits: 0 }
}

#[verifier::allow_in_spec]
pub fn one() -> Real
    returns
        (Real { bits: 0x3f80_0000 }),
{
    Real { bits: 0x3f80_0000 }
}

#[verifier::allow_in_spec]
pub fn origin() -> Vec3
    returns
        (Vec3 { x: zero(), y: zero(), z: zero() }),
{
    Vec3 { x: zero(), y: zero(), z: zero() }
}

#[verifier::allow_in_spec]
pub fn unit_scale() -> Vec3
    returns
        (Vec3 { x: one(), y: one(), z: one() }),
{
    Vec3 { x: one(), y: one(), z: one() }
}

#[verifier::allow_in_spec]
pub fn no_rotation() -> Quat
    returns
        (Quat { x: zero(), y: zero(), z: zero(), w: one() }),
{
    Quat { x: zero(), y: zero(), z: zero(), w: one() }
}

#[verifier::allow_in_spec]
pub fn identity() -> Mat4
    returns
        (Mat4 {
            c0: Quat { x: one(), y: zero(), z: zero(), w: zero() },
            c1: Quat { x: zero(), y: one(), z: zero(), w: zero() },
            c2: Quat { x: zero(), y: zero(), z: one(), w: zero() },
            c3: Quat { x: zero(), y: zero(), z: zero(), w: one() },
        }),
{
    Mat4 {
        c0: Quat { x: one(), y: zero(), z: zero(), w: zero() },
        c1: Quat { x: zero(), y: one(), z: zero(), w: zero() },
        c2: Quat { x: zero(), y: zero(), z: one(), w: zero() },
        c3: Quat { x: zero(), y: zero(), z: zero(), w: one() },
    }
}

/// The transform whose only part is the translation `t`.
#[verifier::allow_in_spec]
pub fn at(t: Vec3) -> Transform
    returns
        (Transform { translation: t, rotation: no_rotation(), scale: unit_scale() }),
{
    Transform { translation: t, rotation: no_rotation(), scale: unit_scale() }
}

impl Default for Transform {
    fn default() -> (r: Self)
        ensures
            r == at(origin()),
    {
        at(origin())
    }
}

impl Real {
    /// The encoding without its sign bit.
    pub open spec fn magnitude(self) -> int {
        if self.bits >= 0x8000_0000u32 {
            self.bits - 0x8000_0000
        } else {
            self.bits as int
        }
    }

    pub open spec fn is_nan(self) -> bool {
        self.magnitude() > 0x7f80_0000
    }

    /// Where a number stands among all others: of two numbers that are no NaN, the smaller
    /// one has the smaller rank, and the two zeros share one rank.
    pub open spec fn rank(self) -> int {
        if self.bits >= 0x8000_0000u32 {
            -self.magnitude()
        } else {
            self.magnitude()
        }
    }

    pub open spec fn less(self, other: Real) -> bool {
        !self.is_nan() && !other.is_nan() && self.rank() < other.rank()
    }

    pub open spec fn at_most(self, other: Real) -> bool {
        !self.is_nan() && !other.is_nan() && self.rank() <= other.rank()
    }

    pub open spec fn absolute(self) -> Real {
        Real { bits: self.magnitude() as u32 }
    }

    pub open spec fn negated(self) -> Real {
        if self.bits >= 0x8000_0000u32 {
            Real { bits: (self.bits - 0x8000_0000) as u32 }
        } else {
            Real { bits: (self.bits + 0x8000_0000) as u32 }
        }
    }

    /// The greater of two numbers; a NaN gives way to the other one.
    pub open spec fn greater_of(self, other: Real) -> Real {
        if self.is_nan() {
            other
        } else if self.less(other) {
            other
        } else {
            self
        }
    }

    /// The smaller of two numbers; a NaN gives way to the other one.
    pub open spec fn smaller_of(self, other: Real) -> Real {
        if self.is_nan() {
            other
        } else if other.less(self) {
            other
        } else {
            self
        }
    }

    /// The number moved into `lo..=hi`; a NaN stays.
    pub open spec fn held_within(self, lo: Real, hi: Real) -> Real {
        if self.less(lo) {
            lo
        } else if hi.less(self) {
            hi
        } else {
            self
        }
    }

    fn mag(self) -> (r: u32)
        ensures
            r == self.magnitude(),
    {
        if self.bits >= 0x8000_0000 {
            self.bits - 0x8000_0000
        } else {
            self.bits
        }
    }

    pub fn nan(self) -> (r: bool)
        ensures
            r == self.is_nan(),
    {
        self.mag() > 0x7f80_0000
    }

    /// Whether this is neither a NaN nor an infinity.
    pub fn finite(self) -> (r: bool)
        ensures
            r == (self.magnitude() < 0x7f80_0000),
    {
        self.mag() < 0x7f80_0000
    }

    fn place(self) -> (r: i64)
        ensures
            r == self.rank(),
    {
        if self.bits >= 0x8000_0000 {
            0 - self.mag() as i64
        } else {
            self.mag() as i64
        }
    }

    pub fn lt(self, other: Real) -> (r: bool)
        ensures
            r == self.less(other),
    {
        !self.nan() && !other.nan() && self.place() < other.place()
    }

    pub fn le(self, other: Real) -> (r: bool)
        ensures
            r == self.at_most(other),
    {
        !self.nan() && !other.nan() && self.place() <= other.place()
    }

    pub fn abs(self) -> (r: Real)
        ensures
            r == self.absolute(),
    {
        Real { bits: self.mag() }
    }

    pub fn neg(self) -> (r: Real)
        ensures
            r == self.negated(),
    {
        if self.bits >= 0x8000_0000 {
            Real { bits: self.bits - 0x8000_0000 }
        } else {
            Real { bits: self.bits + 0x8000_0000 }
        }
    }

    pub fn max(self, other: Real) -> (r: Real)
        ensures
            r == self.greater_of(other),
    {
        if self.nan() || self.lt(other) {
            other
        } else {
            self
        }
    }

    pub fn min(self, other: Real) -> (r: Real)
        ensures
            r == self.smaller_of(other),
    {
        if self.nan() || other.lt(self) {
            other
        } else {
            self
        }
    }

    pub fn clamp(self, lo: Real, hi: Real) -> (r: Real)
        ensures
            r == self.held_within(lo, hi),
    {
        if self.lt(lo) {
            lo
        } else if hi.lt(self) {
            hi
        } else {
            self
        }
    }
}

/// Clamping to an ordered pair of bounds lands between them, whatever number goes in.
pub proof fn clamped_number_stays_in_bounds(x: Real, lo: Real, hi: Real)
    requires
        lo.at_most(hi),
        !x.is_nan(),
    ensures
        lo.at_most(x.held_within(lo, hi)),
        x.held_within(lo, hi).at_most(hi),
{
}

/// One computation on single-precision numbers.
#[derive(Clone, Copy, Debug, PartialEq, Eq, Structural)]
pub enum Calc {
    /// `matrix`: scale, then rotate, then translate.
    Compose(Transform),
    /// `matrix`: the product, left operand first.
    Product(Mat4, Mat4),
    /// `matrix`: the inverse.
    Invert(Mat4),
    /// `pose`: the scale, rotation and translation of a matrix.
    Decompose(Mat4),
    /// `matrix`: a translation.
    Shift(Vec3),
    /// `point`: component-wise sum.
    Sum(Vec3, Vec3),
    /// `point`: every component divided by a count.
    Shrink(Vec3, u64),
    /// `point`: component-wise product.
    Stretch(Vec3, Vec3),
    /// `value`: squared length.
    LengthSquared(Vec3),
    /// `value`: length of the difference.
    Distance(Vec3, Vec3),
    /// `value`: sum.
    Add(Real, Real),
    /// `value`: difference.
    Subtract(Real, Real),
    /// `value`: product.
    Multiply(Real, Real),
    /// `value`: quotient.
    Divide(Real, Real),
    /// `value`: the nearest number to a count.
    Count(u64),
    /// `count`: the nearest whole number, halves away from zero, as far as 32 bits hold it.
    Round(Real),
    /// `value`: the greatest whole number that is no greater.
    Floor(Real),
    /// `value`: square root.
    Root(Real),
    /// `value`: sine of an angle in radians.
    Sine(Real),
    /// `value`: cosine of an angle in radians.
    Cosine(Real),
    /// `value`: tangent of an angle in radians.
    Tangent(Real),
    /// `value`: the angle in radians with a given sine.
    ArcSine(Real),
    /// `value`: the angle in radians of a point, given its ordinate and its abscissa.
    ArcTangent(Real, Real),
    /// `value`: an angle in degrees, given in radians.
    Degrees(Real),
    /// `value`: an angle in radians, given in degrees.
    Radians(Real),
    /// `point`: component-wise difference.
    Gap(Vec3, Vec3),
    /// `point`: every component times a number.
    Scale(Vec3, Real),
    /// `point`: the cross product.
    Cross(Vec3, Vec3),
    /// `point`: a vector brought to length one; `holds`: whether it has a direction.
    Unit(Vec3),
    /// `matrix`: a right-handed view from an eye to a target, with a vector up.
    View(Vec3, Vec3, Vec3),
    /// `matrix`: a right-handed perspective, given the vertical field of view in radians, the
    /// aspect ratio, and the distances of the near and far planes.
    Perspective(Real, Real, Real, Real),
    /// `matrix`: a right-handed parallel projection of a cube's width around the axis, given
    /// half the width, and the distances of the near and far planes.
    Parallel(Real, Real, Real),
    /// `point`: a point moved by a matrix without perspective.
    Move(Mat4, Vec3),
    /// `pose.rotation`: a point times a matrix in homogeneous coordinates.
    Clip(Mat4, Vec3),
}

/// What a computation gives: each [`Calc`] says which part carries its result.
#[derive(Clone, Copy, Debug, PartialEq, Eq, Structural)]
pub struct Answer {
    pub matrix: Mat4,
    pub pose: Transform,
    pub point: Vec3,
    pub value: Real,
    pub holds: bool,
    pub count: u32,
}

impl View for Transform {
    type V = Transform;

    open spec fn view(&self) -> Transform {
        *self
    }
}

impl Answer {
    /// An answer to fill in one part of.
    pub fn blank() -> (r: Answer)
        ensures
            r == (Answer {
                matrix: identity(),
                pose: at(origin()),
                point: origin(),
                value: zero(),
                holds: false,
                count: 0,
            }),
    {
        Answer {
            matrix: identity(),
            pose: at(origin()),
            point: origin(),
            value: zero(),
            holds: false,
            count: 0,
        }
    }
}

/// The arithmetic `f` may be asked for any computation.
pub open spec fn answers<F: Fn(Calc) -> Answer>(f: F) -> bool {
    forall|op: Calc| #[trigger] call_requires(f, (op,))
}

/// `g` is the mathematical function that the arithmetic `f` computes.
pub open spec fn computes<F: Fn(Calc) -> Answer>(f: F, g: spec_fn(Calc) -> Answer) -> bool {
    forall|op: Calc, r: Answer| #[trigger] call_ensures(f, (op,), r) ==> r == g(op)
}

/// Count of decimals that stands for the shortest notation.
pub const SHORTEST: u8 = 255;

/// The number writer `t` may be asked to write any number with any count of decimals.
pub open spec fn writes<T: Fn(Real, u8) -> String>(t: T) -> bool {
    forall|x: Real, d: u8| #[trigger] call_requires(t, (x, d))
}

/// `h` gives the text that the number writer `t` produces.
pub open spec fn shows<T: Fn(Real, u8) -> String>(
    t: T,
    h: spec_fn(Real, u8) -> Seq<char>,
) -> bool {
    forall|x: Real, d: u8, s: String| #[trigger] call_ensures(t, (x, d), s) ==> s@ == h(x, d)
}

} // verus!
