//! Box, plane and sphere meshes: positions, normals and triangle indices.

use crate::formula::{normal_of_sphere, sphere_normal};
use crate::numeric::{answers, computes, encoded, one, zero, Answer, Calc, Real, Vec3};
use crate::text::{cat2, same};
use vstd::prelude::*;

verus! {

/// Segments around a sphere.
pub const SEGMENTS: u16 = 12;

/// Rings from the top of a sphere to its bottom.
pub const RINGS: u16 = 8;

#[derive(Debug, PartialEq)]
pub struct Mesh {
    pub positions: Vec<Vec3>,
    pub normals: Vec<Vec3>,
    pub indices: Vec<u16>,
}

/// What a mesh holds.
#[verifier::ext_equal]
pub struct MeshModel {
    pub positions: Seq<Vec3>,
    pub normals: Seq<Vec3>,
    pub indices: Seq<u16>,
}

impl View for Mesh {
    type V = MeshModel;

    open spec fn view(&self) -> MeshModel {
        MeshModel {
            positions: self.positions@,
            normals: self.normals@,
            indices: self.indices@,
        }
    }
}

pub open spec fn mesh_in(r: Result<Mesh, String>) -> Result<MeshModel, Seq<char>> {
    match r {
        Ok(m) => Ok(m@),
        Err(e) => Err(e@),
    }
}

/// A direction along the axes, each part -1, 0 or 1.
pub struct Signs {
    pub x: int,
    pub y: int,
    pub z: int,
}

pub open spec fn signs(x: int, y: int, z: int) -> Signs {
    Signs { x, y, z }
}

/// On which side of a box each of its corners lies, four corners per face.
pub open spec fn box_corners() -> Seq<Signs> {
    seq![
        signs(-1, -1, 1), signs(1, -1, 1), signs(1, 1, 1), signs(-1, 1, 1),
        signs(1, -1, -1), signs(-1, -1, -1), signs(-1, 1, -1), signs(1, 1, -1),
        signs(-1, 1, -1), signs(-1, 1, 1), signs(1, 1, 1), signs(1, 1, -1),
        signs(-1, -1, 1), signs(-1, -1, -1), signs(1, -1, -1), signs(1, -1, 1),
        signs(1, -1, 1), signs(1, -1, -1), signs(1, 1, -1), signs(1, 1, 1),
        signs(-1, -1, -1), signs(-1, -1, 1), signs(-1, 1, 1), signs(-1, 1, -1),
    ]
}

/// Where the faces of a box look.
pub open spec fn box_normals() -> Seq<Signs> {
    seq![
        signs(0, 0, 1),
        signs(0, 0, -1),
        signs(0, 1, 0),
        signs(0, -1, 0),
        signs(1, 0, 0),
        signs(-1, 0, 0),
    ]
}

/// A number with a sign applied; zero for no sign.
pub open spec fn signed(v: Real, s: int) -> Real {
    if s < 0 {
        v.negated()
    } else if s > 0 {
        v
    } else {
        zero()
    }
}

pub open spec fn corner_at(half: Vec3, s: Signs) -> Vec3 {
    Vec3 { x: signed(half.x, s.x), y: signed(half.y, s.y), z: signed(half.z, s.z) }
}

pub open spec fn axis(s: Signs) -> Vec3 {
    corner_at(Vec3 { x: one(), y: one(), z: one() }, s)
}

/// Corner of a four-cornered face that comes at place `k` of its two triangles.
pub open spec fn quad_corner(k: int) -> int {
    if k == 0 || k == 3 {
        0
    } else if k == 1 {
        1
    } else if k == 2 || k == 4 {
        2
    } else {
        3
    }
}

pub open spec fn box_indices() -> Seq<u16> {
    Seq::new(36, |k: int| (4 * (k / 6) + quad_corner(k % 6)) as u16)
}

pub open spec fn half_of(v: Real, g: spec_fn(Calc) -> Answer) -> Real {
    g(Calc::Multiply(v, encoded(0x3f00_0000))).value
}

pub open spec fn box_model(size: Vec3, g: spec_fn(Calc) -> Answer) -> MeshModel {
    let half = Vec3 { x: half_of(size.x, g), y: half_of(size.y, g), z: half_of(size.z, g) };
    MeshModel {
        positions: Seq::new(24, |k: int| corner_at(half, box_corners()[k])),
        normals: Seq::new(24, |k: int| axis(box_normals()[k / 4])),
        indices: box_indices(),
    }
}

/// Corners of a plane, as sides of a box of no height.
pub open spec fn plane_corners() -> Seq<Signs> {
    seq![signs(-1, 0, -1), signs(1, 0, -1), signs(1, 0, 1), signs(-1, 0, 1)]
}

pub open spec fn plane_indices() -> Seq<u16> {
    seq![0u16, 2u16, 1u16, 0u16, 3u16, 2u16]
}

pub open spec fn plane_model(size: Vec3, g: spec_fn(Calc) -> Answer) -> MeshModel {
    let half = Vec3 {
        x: half_of(size.x.absolute(), g),
        y: zero(),
        z: half_of(size.z.absolute().greater_of(size.y.absolute()), g),
    };
    MeshModel {
        positions: Seq::new(4, |k: int| corner_at(half, plane_corners()[k])),
        normals: Seq::new(4, |k: int| axis(signs(0, 1, 0))),
        indices: plane_indices(),
    }
}

pub open spec fn normal_at(k: int, g: spec_fn(Calc) -> Answer) -> Vec3 {
    sphere_normal(g, (k / 13) as u64, RINGS as u64, (k % 13) as u64, SEGMENTS as u64)
}

/// The indices of one patch of a sphere, whose upper left vertex is `a`.
pub open spec fn patch_index(a: int, k: int) -> int {
    if k == 0 {
        a
    } else if k == 1 || k == 4 {
        a + 13
    } else if k == 2 || k == 3 {
        a + 1
    } else {
        a + 14
    }
}

pub open spec fn sphere_indices() -> Seq<u16> {
    Seq::new(
        576,
        |k: int| patch_index(13 * (k / 6 / 12) + (k / 6) % 12, k % 6) as u16,
    )
}

pub open spec fn sphere_model(size: Vec3, g: spec_fn(Calc) -> Answer) -> MeshModel {
    let radii = Vec3 {
        x: half_of(size.x.absolute(), g),
        y: half_of(size.y.absolute(), g),
        z: half_of(size.z.absolute(), g),
    };
    MeshModel {
        positions: Seq::new(117, |k: int| g(Calc::Stretch(normal_at(k, g), radii)).point),
        normals: Seq::new(117, |k: int| normal_at(k, g)),
        indices: sphere_indices(),
    }
}

/// The mesh of a recipe, or why it has none.
pub open spec fn mesh_of(recipe: Seq<char>, size: Vec3, g: spec_fn(Calc) -> Answer) -> Result<
    MeshModel,
    Seq<char>,
> {
    if recipe == "box"@ {
        Ok(box_model(size, g))
    } else if recipe == "plane"@ {
        Ok(plane_model(size, g))
    } else if recipe == "sphere"@ {
        Ok(sphere_model(size, g))
    } else if recipe == "empty"@ {
        Err("empty_has_no_triangles"@)
    } else {
        Err("unsupported_mesh_recipe:"@ + recipe)
    }
}

fn half<F: Fn(Calc) -> Answer>(v: Real, calc: &F) -> (r: Real)
    requires
        answers(*calc),
    ensures
        forall|g: spec_fn(Calc) -> Answer| #[trigger] computes(*calc, g) ==> r == half_of(v, g),
{
    calc(Calc::Multiply(v, encoded(0x3f00_0000))).value
}

fn sided(v: Real, s: i8) -> (r: Real)
    ensures
        r == signed(v, s as int),
{
    if s < 0 {
        v.neg()
    } else if s > 0 {
        v
    } else {
        zero()
    }
}

fn corner(h: Vec3, x: i8, y: i8, z: i8) -> (r: Vec3)
    ensures
        r == corner_at(h, signs(x as int, y as int, z as int)),
{
    Vec3 { x: sided(h.x, x), y: sided(h.y, y), z: sided(h.z, z) }
}

fn box_positions(h: Vec3) -> (r: Vec<Vec3>)
    ensures
        r@ == Seq::new(24, |k: int| corner_at(h, box_corners()[k])),
{
    let r = vec![
        corner(h, -1, -1, 1), corner(h, 1, -1, 1), corner(h, 1, 1, 1), corner(h, -1, 1, 1),
        corner(h, 1, -1, -1), corner(h, -1, -1, -1), corner(h, -1, 1, -1), corner(h, 1, 1, -1),
        corner(h, -1, 1, -1), corner(h, -1, 1, 1), corner(h, 1, 1, 1), corner(h, 1, 1, -1),
        corner(h, -1, -1, 1), corner(h, -1, -1, -1), corner(h, 1, -1, -1), corner(h, 1, -1, 1),
        corner(h, 1, -1, 1), corner(h, 1, -1, -1), corner(h, 1, 1, -1), corner(h, 1, 1, 1),
        corner(h, -1, -1, -1), corner(h, -1, -1, 1), corner(h, -1, 1, 1), corner(h, -1, 1, -1),
    ];
    assert(r@ =~= Seq::new(24, |k: int| corner_at(h, box_corners()[k])));
    r
}

fn face_normal(face: u8) -> (r: Vec3)
    requires
        face < 6,
    ensures
        r == axis(box_normals()[face as int]),
{
    let u = Vec3 { x: one(), y: one(), z: one() };
    if face == 0 {
        corner(u, 0, 0, 1)
    } else if face == 1 {
        corner(u, 0, 0, -1)
    } else if face == 2 {
        corner(u, 0, 1, 0)
    } else if face == 3 {
        corner(u, 0, -1, 0)
    } else if face == 4 {
        corner(u, 1, 0, 0)
    } else {
        corner(u, -1, 0, 0)
    }
}

fn box_mesh<F: Fn(Calc) -> Answer>(size: Vec3, calc: &F) -> (r: Mesh)
    requires
        answers(*calc),
    ensures
        r.positions.len() == 24 && r.normals.len() == 24 && r.indices.len() == 36,
        forall|g: spec_fn(Calc) -> Answer| #[trigger] computes(*calc, g) ==> r@ == box_model(size, g),
{
    let h = Vec3 { x: half(size.x, calc), y: half(size.y, calc), z: half(size.z, calc) };
    let positions = box_positions(h);
    let mut normals: Vec<Vec3> = Vec::new();
    let mut i: u8 = 0;
    while i < 24
        invariant
            i <= 24,
            normals.len() == i,
            forall|k: int| 0 <= k < i ==> normals@[k] == axis(box_normals()[k / 4]),
        decreases 24 - i,
    {
        normals.push(face_normal(i / 4));
        i += 1;
    }
    let mut indices: Vec<u16> = Vec::new();
    let mut k: u16 = 0;
    while k < 36
        invariant
            k <= 36,
            indices.len() == k,
            forall|j: int| 0 <= j < k ==> indices@[j] == box_indices()[j],
        decreases 36 - k,
    {
        let c: u16 = k % 6;
        let q: u16 = if c == 0 || c == 3 {
            0
        } else if c == 1 {
            1
        } else if c == 2 || c == 4 {
            2
        } else {
            3
        };
        indices.push(4 * (k / 6) + q);
        k += 1;
    }
    assert(indices@ =~= box_indices());
    assert(normals@ =~= Seq::new(24, |k: int| axis(box_normals()[k / 4])));
    Mesh { positions, normals, indices }
}

fn plane_mesh<F: Fn(Calc) -> Answer>(size: Vec3, calc: &F) -> (r: Mesh)
    requires
        answers(*calc),
    ensures
        r.positions.len() == 4 && r.normals.len() == 4 && r.indices.len() == 6,
        forall|g: spec_fn(Calc) -> Answer| #[trigger]
            computes(*calc, g) ==> r@ == plane_model(size, g),
{
    let h = Vec3 {
        x: half(size.x.abs(), calc),
        y: zero(),
        z: half(size.z.abs().max(size.y.abs()), calc),
    };
    let up = corner(Vec3 { x: one(), y: one(), z: one() }, 0, 1, 0);
    let positions = vec![
        corner(h, -1, 0, -1),
        corner(h, 1, 0, -1),
        corner(h, 1, 0, 1),
        corner(h, -1, 0, 1),
    ];
    let normals = vec![up, up, up, up];
    let indices: Vec<u16> = vec![0, 2, 1, 0, 3, 2];
    assert(positions@ =~= Seq::new(4, |k: int| corner_at(h, plane_corners()[k])));
    assert(normals@ =~= Seq::new(4, |k: int| axis(signs(0, 1, 0))));
    assert(indices@ =~= plane_indices());
    Mesh { positions, normals, indices }
}

fn sphere_mesh<F: Fn(Calc) -> Answer>(size: Vec3, calc: &F) -> (r: Mesh)
    requires
        answers(*calc),
    ensures
        r.positions.len() == 117 && r.normals.len() == 117 && r.indices.len() == 576,
        forall|g: spec_fn(Calc) -> Answer| #[trigger]
            computes(*calc, g) ==> r@ == sphere_model(size, g),
{
    let radii = Vec3 {
        x: half(size.x.abs(), calc),
        y: half(size.y.abs(), calc),
        z: half(size.z.abs(), calc),
    };
    let mut positions: Vec<Vec3> = Vec::new();
    let mut normals: Vec<Vec3> = Vec::new();
    let mut k: u16 = 0;
    while k < 117
        invariant
            k <= 117,
            answers(*calc),
            normals.len() == k,
            positions.len() == k,
            forall|g: spec_fn(Calc) -> Answer, j: int|
                #![trigger computes(*calc, g), normals@[j]]
                computes(*calc, g) && 0 <= j < k ==> normals@[j] == normal_at(j, g),
            forall|g: spec_fn(Calc) -> Answer, j: int|
                #![trigger computes(*calc, g), positions@[j]]
                computes(*calc, g) && 0 <= j < k ==> positions@[j] == g(
                    Calc::Stretch(normal_at(j, g), radii),
                ).point,
        decreases 117 - k,
    {
        let n = normal_of_sphere((k / 13) as u64, RINGS as u64, (k % 13) as u64, SEGMENTS as u64, calc);
        positions.push(calc(Calc::Stretch(n, radii)).point);
        normals.push(n);
        k += 1;
    }
    let mut indices: Vec<u16> = Vec::new();
    let mut i: u16 = 0;
    while i < 576
        invariant
            i <= 576,
            indices.len() == i,
            forall|j: int| 0 <= j < i ==> indices@[j] == sphere_indices()[j],
        decreases 576 - i,
    {
        let q: u16 = i / 6;
        let c: u16 = i % 6;
        let a: u16 = 13 * (q / 12) + q % 12;
        let v: u16 = if c == 0 {
            a
        } else if c == 1 || c == 4 {
            a + 13
        } else if c == 2 || c == 3 {
            a + 1
        } else {
            a + 14
        };
        indices.push(v);
        i += 1;
    }
    assert(indices@ =~= sphere_indices());
    let r = Mesh { positions, normals, indices };
    assert forall|g: spec_fn(Calc) -> Answer| #[trigger] computes(*calc, g) implies r@
        == sphere_model(size, g) by {
        assert(r@.positions =~= sphere_model(size, g).positions);
        assert(r@.normals =~= sphere_model(size, g).normals);
    }
    r
}

/// The mesh of a recipe at a size.
pub fn mesh<F: Fn(Calc) -> Answer>(recipe: &str, size: Vec3, calc: &F) -> (r: Result<Mesh, String>)
    requires
        answers(*calc),
    ensures
        r is Ok <==> recipe@ == "box"@ || recipe@ == "plane"@ || recipe@ == "sphere"@,
        r matches Ok(m) ==> m.positions.len() <= 117 && m.normals.len() <= 117 && m.indices.len()
            <= 576,
        forall|g: spec_fn(Calc) -> Answer| #[trigger]
            computes(*calc, g) ==> mesh_in(r) == mesh_of(recipe@, size, g),
{
    if same(recipe, "box") {
        Ok(box_mesh(size, calc))
    } else if same(recipe, "plane") {
        Ok(plane_mesh(size, calc))
    } else if same(recipe, "sphere") {
        Ok(sphere_mesh(size, calc))
    } else {
        proof {
            reveal_strlit("box");
            reveal_strlit("plane");
            reveal_strlit("sphere");
            reveal_strlit("empty");
        }
        if same(recipe, "empty") {
            Err("empty_has_no_triangles".to_owned())
        } else {
            Err(cat2("unsupported_mesh_recipe:", recipe))
        }
    }
}

/// Every mesh is made of whole triangles over its own vertices, one normal per vertex.
pub proof fn meshes_are_well_formed(recipe: Seq<char>, size: Vec3, g: spec_fn(Calc) -> Answer)
    ensures
        mesh_of(recipe, size, g) matches Ok(m) ==> {
            &&& m.normals.len() == m.positions.len()
            &&& m.indices.len() % 3 == 0
            &&& m.indices.len() > 0
            &&& forall|k: int| 0 <= k < m.indices.len() ==> #[trigger] m.indices[k] < m.positions.len()
        },
{
    assert forall|k: int| 0 <= k < 576 implies #[trigger] sphere_indices()[k] < 117 by {
        assert(0 <= k / 6 < 96);
        assert(0 <= (k / 6) / 12 < 8);
    }
}

/// Twice the normal of a triangle, as the cross product of two of its sides.
pub open spec fn facing(a: Signs, b: Signs, c: Signs) -> Signs {
    let u = signs(b.x - a.x, b.y - a.y, b.z - a.z);
    let v = signs(c.x - a.x, c.y - a.y, c.z - a.z);
    signs(u.y * v.z - u.z * v.y, u.z * v.x - u.x * v.z, u.x * v.y - u.y * v.x)
}

/// Every triangle of a box winds so that it looks the way of its face's normal.
pub proof fn box_triangles_face_outward(t: int)
    requires
        0 <= t < 12,
    ensures
        ({
            let c = box_corners();
            let i = box_indices();
            let f = facing(c[i[3 * t] as int], c[i[3 * t + 1] as int], c[i[3 * t + 2] as int]);
            let n = box_normals()[t / 2];
            f == signs(4 * n.x, 4 * n.y, 4 * n.z)
        }),
{
    let c = box_corners();
    let face = t / 2;
    let i = box_indices();
    assert(i[3 * t] == 4 * face);
    if t % 2 == 0 {
        assert(i[3 * t + 1] == 4 * face + 1);
        assert(i[3 * t + 2] == 4 * face + 2);
    } else {
        assert(i[3 * t + 1] == 4 * face + 2);
        assert(i[3 * t + 2] == 4 * face + 3);
    }
    if t == 0 {
        assert(facing(signs(-1, -1, 1), signs(1, -1, 1), signs(1, 1, 1)) == signs(0, 0, 4)) by (nonlinear_arith);
    } else if t == 1 {
        assert(facing(signs(-1, -1, 1), signs(1, 1, 1), signs(-1, 1, 1)) == signs(0, 0, 4)) by (nonlinear_arith);
    } else if t == 2 {
        assert(facing(signs(1, -1, -1), signs(-1, -1, -1), signs(-1, 1, -1)) == signs(0, 0, -4)) by (nonlinear_arith);
    } else if t == 3 {
        assert(facing(signs(1, -1, -1), signs(-1, 1, -1), signs(1, 1, -1)) == signs(0, 0, -4)) by (nonlinear_arith);
    } else if t == 4 {
        assert(facing(signs(-1, 1, -1), signs(-1, 1, 1), signs(1, 1, 1)) == signs(0, 4, 0)) by (nonlinear_arith);
    } else if t == 5 {
        assert(facing(signs(-1, 1, -1), signs(1, 1, 1), signs(1, 1, -1)) == signs(0, 4, 0)) by (nonlinear_arith);
    } else if t == 6 {
        assert(facing(signs(-1, -1, 1), signs(-1, -1, -1), signs(1, -1, -1)) == signs(0, -4, 0)) by (nonlinear_arith);
    } else if t == 7 {
        assert(facing(signs(-1, -1, 1), signs(1, -1, -1), signs(1, -1, 1)) == signs(0, -4, 0)) by (nonlinear_arith);
    } else if t == 8 {
        assert(facing(signs(1, -1, 1), signs(1, -1, -1), signs(1, 1, -1)) == signs(4, 0, 0)) by (nonlinear_arith);
    } else if t == 9 {
        assert(facing(signs(1, -1, 1), signs(1, 1, -1), signs(1, 1, 1)) == signs(4, 0, 0)) by (nonlinear_arith);
    } else if t == 10 {
        assert(facing(signs(-1, -1, -1), signs(-1, -1, 1), signs(-1, 1, 1)) == signs(-4, 0, 0)) by (nonlinear_arith);
    } else {
        assert(facing(signs(-1, -1, -1), signs(-1, 1, 1), signs(-1, 1, -1)) == signs(-4, 0, 0)) by (nonlinear_arith);
    }
}

/// Both triangles of a plane look up.
pub proof fn plane_triangles_face_up(t: int)
    requires
        0 <= t < 2,
    ensures
        ({
            let c = plane_corners();
            let i = plane_indices();
            let f = facing(c[i[3 * t] as int], c[i[3 * t + 1] as int], c[i[3 * t + 2] as int]);
            f.x == 0 && f.y > 0 && f.z == 0
        }),
{
    if t == 0 {
        assert(facing(signs(-1, 0, -1), signs(1, 0, 1), signs(1, 0, -1)) == signs(0, 4, 0)) by (nonlinear_arith);
    } else {
        assert(facing(signs(-1, 0, -1), signs(-1, 0, 1), signs(1, 0, 1)) == signs(0, 4, 0)) by (nonlinear_arith);
    }
}

} // verus!
